use waga_webrtc_core::session::{IceState, Report};
use waga_webrtc_core::{Codec, PeerEvent, Publisher};

/// Nanoseconds in a second.
const SECOND: u64 = 1_000_000_000;

/// Has a peer believe that it was connected once.
fn connect(peer: &mut Publisher, now: u64) {
    assert!(peer.take_report(Report::Connected, now));
    assert_eq!(peer.poll_event(), Some(PeerEvent::Connected));
}

#[test]
fn repeated_recovery_never_fires_an_old_disconnect_deadline() {
    let mut peer = Publisher::new(Some(Codec::Opus), None).unwrap();
    let start = SECOND;
    connect(&mut peer, start);
    for cycle in 0..3 {
        let now = start + cycle * 30 * SECOND;
        peer.ice_state_changed(IceState::Disconnected, now);
        peer.ice_state_changed(IceState::Completed, now + 10 * SECOND);
        peer.drain_at(now + 20 * SECOND).unwrap();
        assert_eq!(peer.disconnect_deadline(), None);
        assert!(!peer.disconnect_reported());
        assert_eq!(peer.poll_event(), None);
    }
}

#[test]
fn temporary_disconnect_cancels_teardown_on_recovery() {
    let mut peer = Publisher::new(Some(Codec::Opus), Some(Codec::H264)).unwrap();
    let now = SECOND;
    connect(&mut peer, now);
    peer.ice_state_changed(IceState::Disconnected, now);
    let deadline = peer.disconnect_deadline();
    assert_eq!(deadline, Some(now + 15 * SECOND));
    peer.ice_state_changed(IceState::Disconnected, now + 8 * SECOND);
    assert_eq!(peer.disconnect_deadline(), deadline);
    assert_eq!(peer.poll_event(), None);
    peer.ice_state_changed(IceState::Completed, now + 10 * SECOND);
    peer.drain_at(now + 20 * SECOND).unwrap();
    assert_eq!(peer.disconnect_deadline(), None);
    assert!(!peer.disconnect_reported());
    assert_eq!(peer.poll_event(), None);
}

#[test]
fn sustained_disconnect_reports_once_at_deadline() {
    let mut peer = Publisher::new(Some(Codec::Opus), None).unwrap();
    let now = SECOND;
    connect(&mut peer, now);
    peer.ice_state_changed(IceState::Disconnected, now);
    peer.drain_at(now + 14 * SECOND).unwrap();
    assert_eq!(peer.poll_event(), None);
    peer.drain_at(now + 15 * SECOND).unwrap();
    assert_eq!(peer.poll_event(), Some(PeerEvent::Disconnected));
    peer.ice_state_changed(IceState::Disconnected, now + 16 * SECOND);
    peer.drain_at(now + 40 * SECOND).unwrap();
    assert_eq!(peer.poll_event(), None);
}

#[test]
fn initial_failure_and_receiver_disconnect_are_not_delayed() {
    for mut peer in [
        Publisher::new(Some(Codec::Opus), None).unwrap(),
        Publisher::new_receiver().unwrap(),
    ] {
        peer.ice_state_changed(IceState::Disconnected, SECOND);
        assert_eq!(peer.poll_event(), Some(PeerEvent::Disconnected));
        assert_eq!(peer.disconnect_deadline(), None);
    }
}

#[test]
fn receiver_has_no_grace_even_when_connected() {
    let mut peer = Publisher::new_receiver().unwrap();
    connect(&mut peer, SECOND);
    peer.ice_state_changed(IceState::Disconnected, SECOND);
    assert_eq!(peer.poll_event(), Some(PeerEvent::Disconnected));
    assert!(peer.disconnect_reported());
}

#[test]
fn publisher_wakes_at_the_disconnect_deadline() {
    let mut peer = Publisher::new(Some(Codec::Opus), None).unwrap();
    connect(&mut peer, SECOND);
    peer.ice_state_changed(IceState::Disconnected, SECOND);
    assert!(!peer.take_report(Report::Timeout(100 * SECOND as u128), 2 * SECOND));
    assert_eq!(peer.timeout_after_at(2 * SECOND), 14 * SECOND as u128);
    assert_eq!(peer.timeout_after_at(16 * SECOND), 0);
    assert_eq!(peer.timeout_after_at(17 * SECOND), 0);
    assert!(!peer.take_report(Report::Timeout(3 * SECOND as u128), 2 * SECOND));
    assert_eq!(peer.timeout_after_at(2 * SECOND), SECOND as u128);
}

#[test]
fn deadline_does_not_pass_the_end_of_time() {
    let mut peer = Publisher::new(Some(Codec::Opus), None).unwrap();
    connect(&mut peer, SECOND);
    peer.ice_state_changed(IceState::Disconnected, u64::MAX - 1);
    assert_eq!(peer.disconnect_deadline(), Some(u64::MAX));
}

#[test]
fn session_close_ends_the_wait() {
    let mut peer = Publisher::new(Some(Codec::Opus), None).unwrap();
    connect(&mut peer, SECOND);
    peer.ice_state_changed(IceState::Disconnected, SECOND);
    assert!(peer.take_report(Report::Closed, 2 * SECOND));
    assert_eq!(peer.disconnect_deadline(), None);
    assert_eq!(peer.poll_event(), Some(PeerEvent::Closed));
    peer.drain_at(60 * SECOND).unwrap();
    assert_eq!(peer.poll_event(), None);
}

#[test]
fn disconnect_suppresses_sending() {
    let mut peer = Publisher::new(Some(Codec::Opus), None).unwrap();
    assert_eq!(
        peer.send_at(Codec::Opus, 0, &[1, 2, 3], SECOND),
        Err("media track was not offered".to_string())
    );
    connect(&mut peer, SECOND);
    peer.ice_state_changed(IceState::Disconnected, SECOND);
    assert_eq!(peer.send_at(Codec::Opus, 0, &[1, 2, 3], 2 * SECOND), Ok(()));
    assert_eq!(peer.send_at(Codec::H264, 0, &[1, 2, 3], 20 * SECOND), Ok(()));
    assert_eq!(peer.poll_event(), Some(PeerEvent::Disconnected));
    assert_eq!(peer.send_at(Codec::Opus, 0, &[1, 2, 3], 40 * SECOND), Ok(()));
    assert_eq!(peer.poll_event(), None);
}

#[test]
fn outcome_of_a_call_decides_whether_the_session_is_drained() {
    let mut peer = Publisher::new(Some(Codec::Opus), None).unwrap();
    assert_eq!(peer.drain_after(None, SECOND), Err("time is out of range".to_string()));
    assert_eq!(
        peer.drain_after(Some(Err("refused".to_string())), SECOND),
        Err("refused".to_string())
    );
    assert_eq!(peer.timeout_after_at(SECOND), 18_446_744_073_709_551_615_999_999_999);
    assert_eq!(peer.drain_after(Some(Ok(())), SECOND), Ok(()));
    assert_ne!(peer.timeout_after_at(SECOND), 18_446_744_073_709_551_615_999_999_999);
}

#[test]
fn outage_within_the_grace_period_is_not_reported() {
    let mut peer = Publisher::new(Some(Codec::Opus), Some(Codec::H264)).unwrap();
    let start = SECOND;
    connect(&mut peer, start);
    peer.ice_state_changed(IceState::Disconnected, start);
    for second in 0..10 {
        let now = start + second * SECOND;
        peer.drain_at(now).unwrap();
        peer.handle_timeout_at(now).unwrap();
        peer.send_at(Codec::Opus, 0, &[1], now).unwrap();
        peer.ice_state_changed(IceState::Disconnected, now);
        assert_eq!(peer.poll_event(), None);
        assert_eq!(peer.disconnect_deadline(), Some(start + 15 * SECOND));
    }
    peer.drain_at(start + 15 * SECOND - 1).unwrap();
    assert!(!peer.disconnect_reported());
    peer.ice_state_changed(IceState::Completed, start + 15 * SECOND - 1);
    for second in 15..60 {
        peer.drain_at(start + second * SECOND).unwrap();
        assert_eq!(peer.poll_event(), None);
    }
    assert!(!peer.disconnect_reported());
    assert_eq!(peer.disconnect_deadline(), None);
}
