use waga_webrtc_core::codec::{decode_codec, encode_codec};
use waga_webrtc_core::peer::{
    address, bytes, create_peer, text, to_c_text, waga_peer_accept_answer, waga_peer_accept_offer,
    waga_peer_add_local_candidate, waga_peer_add_server_reflexive_candidate, waga_peer_create,
    waga_peer_create_offer, waga_peer_create_receive_offer, waga_peer_create_with_bwe,
    waga_peer_fail, waga_peer_handle_timeout, waga_peer_last_error,
    waga_peer_last_transmit_sequence, waga_peer_poll_bitrate_estimate, waga_peer_poll_event,
    waga_peer_poll_media, waga_peer_poll_transmit, waga_peer_receive,
    waga_peer_remove_local_candidate, waga_peer_request_path_probe,
    waga_peer_restart_on_path_change, waga_peer_send, waga_peer_set_desired_bitrate,
    waga_peer_set_egress_path, waga_peer_timeout_millis, waga_peer_timeout_millis_at,
    waga_receiver_create, whole_millis, AddressArgument,
    OwnedTransmit, WagaMedia, WagaPeer,
};
use waga_webrtc_core::session::{Frame, IceState, Report, SenderClock};
use waga_webrtc_core::{Codec, EngineRequest, Publisher, Transmit};

fn valid(address: &str) -> AddressArgument {
    AddressArgument::Valid(address.to_string())
}

fn malformed() -> AddressArgument {
    AddressArgument::Malformed("invalid socket address syntax".to_string())
}

fn error_of(peer: &WagaPeer) -> String {
    let text = waga_peer_last_error(Some(peer)).unwrap();
    assert_eq!(text.last(), Some(&0));
    String::from_utf8(text[..text.len() - 1].to_vec()).unwrap()
}

#[test]
fn null_peer_is_refused_everywhere() {
    assert!(!waga_peer_add_local_candidate(None, valid("127.0.0.1:1")));
    assert!(!waga_peer_remove_local_candidate(None, valid("127.0.0.1:1")));
    assert!(!waga_peer_add_server_reflexive_candidate(
        None,
        valid("203.0.113.1:1"),
        valid("127.0.0.1:1")
    ));
    assert_eq!(waga_peer_create_offer(None), None);
    assert_eq!(waga_peer_create_receive_offer(None), None);
    assert_eq!(waga_peer_accept_offer(None, Some(b"v=0")), None);
    assert!(!waga_peer_accept_answer(None, Some(b"v=0")));
    assert!(!waga_peer_receive(None, valid("127.0.0.1:1"), valid("127.0.0.1:2"), None, 0));
    assert!(!waga_peer_handle_timeout(None));
    assert_eq!(waga_peer_timeout_millis(None), u64::MAX);
    assert!(!waga_peer_send(None, 3, 0, None, 0));
    assert!(!waga_peer_set_desired_bitrate(None, 1));
    assert!(!waga_peer_request_path_probe(None));
    assert!(!waga_peer_restart_on_path_change(None));
    assert!(!waga_peer_poll_transmit(None, true));
    assert_eq!(waga_peer_last_transmit_sequence(None), u64::MAX);
    waga_peer_set_egress_path(None, 1, 2);
    assert_eq!(waga_peer_poll_event(None), 0);
    assert_eq!(waga_peer_poll_media(None, true), None);
    assert_eq!(waga_peer_poll_bitrate_estimate(None, true), None);
    assert!(waga_peer_last_error(None).is_none());
    assert!(!waga_peer_fail(None, "error".to_string()));
}

#[test]
fn codec_numbers_choose_the_tracks() {
    assert!(waga_peer_create(3, 1).is_some());
    assert!(waga_peer_create(3, 2).is_some());
    assert!(waga_peer_create(0, 1).is_some());
    assert!(waga_peer_create(0, 0).is_none());
    assert!(waga_peer_create(1, 3).is_none());
    assert!(waga_peer_create(5, 1).is_none());
    assert!(waga_peer_create(3, -1).is_none());
    assert!(waga_peer_create_with_bwe(3, 1, 1_000_000, 3_000_000).is_some());
    assert!(waga_peer_create_with_bwe(3, 9, 1_000_000, 3_000_000).is_none());
    assert!(waga_receiver_create().is_some());
    assert!(create_peer(Err("none".to_string())).is_none());
    for codec in [Codec::H264, Codec::H265, Codec::Opus, Codec::Aac] {
        assert_eq!(decode_codec(encode_codec(codec)), Ok(Some(codec)));
    }
    assert_eq!(decode_codec(-12), Err("unknown codec -12".to_string()));
    assert_eq!(decode_codec(i32::MIN), Err("unknown codec -2147483648".to_string()));
}

#[test]
fn bandwidth_estimation_is_what_its_function_asks_for() {
    let mut plain = waga_peer_create(3, 1).unwrap();
    let mut estimating = waga_peer_create_with_bwe(3, 1, 1_000_000, 3_000_000).unwrap();
    assert!(waga_peer_handle_timeout(Some(&mut plain)));
    assert_eq!(waga_peer_poll_bitrate_estimate(Some(&mut plain), true), None);
    assert!(waga_peer_handle_timeout(Some(&mut estimating)));
    assert_eq!(waga_peer_poll_bitrate_estimate(Some(&mut estimating), true), Some(1_000_000));
}

#[test]
fn arguments_are_read() {
    assert_eq!(text(None), Err("string is null".to_string()));
    assert_eq!(text(Some(b"v=0")), Ok("v=0".to_string()));
    assert_eq!(text(Some(&[0xc3, 0xa9])), Ok("\u{e9}".to_string()));
    let expected = std::str::from_utf8(&[0xff]).unwrap_err().to_string();
    assert_eq!(text(Some(&[0xff])), Err(expected));
    assert_eq!(bytes(None, 0), Ok(&[][..]));
    assert_eq!(bytes(Some(&[]), 0), Ok(&[][..]));
    assert_eq!(bytes(None, 4), Err("data is null".to_string()));
    assert_eq!(bytes(Some(&[1, 2]), 2), Ok(&[1, 2][..]));
    assert_eq!(address(valid("127.0.0.1:1"), "invalid: "), Ok("127.0.0.1:1".to_string()));
    assert_eq!(
        address(malformed(), "invalid: "),
        Err("invalid: invalid socket address syntax".to_string())
    );
    assert_eq!(
        address(AddressArgument::Unreadable("string is null".to_string()), "invalid: "),
        Err("string is null".to_string())
    );
    assert_eq!(to_c_text("ab"), [b'a', b'b', 0]);
    assert_eq!(to_c_text(""), [0]);
    assert_eq!(to_c_text("a\0b"), [0]);
}

#[test]
fn errors_say_which_argument_is_wrong() {
    let mut peer = waga_peer_create(3, 1).unwrap();
    assert_eq!(error_of(&peer), "");
    assert!(!waga_peer_add_local_candidate(Some(&mut peer), malformed()));
    assert_eq!(error_of(&peer), "invalid candidate: invalid socket address syntax");
    assert!(!waga_peer_add_server_reflexive_candidate(
        Some(&mut peer),
        malformed(),
        AddressArgument::Unreadable("string is null".to_string())
    ));
    assert_eq!(
        error_of(&peer),
        "invalid server-reflexive candidate: invalid socket address syntax"
    );
    assert!(!waga_peer_add_server_reflexive_candidate(
        Some(&mut peer),
        valid("203.0.113.1:1"),
        malformed()
    ));
    assert_eq!(error_of(&peer), "invalid base candidate: invalid socket address syntax");
    assert!(!waga_peer_receive(Some(&mut peer), malformed(), malformed(), None, 1));
    assert_eq!(error_of(&peer), "invalid source: invalid socket address syntax");
    assert!(!waga_peer_receive(Some(&mut peer), valid("127.0.0.1:1"), malformed(), None, 1));
    assert_eq!(error_of(&peer), "invalid destination: invalid socket address syntax");
    assert!(!waga_peer_receive(
        Some(&mut peer),
        valid("127.0.0.1:1"),
        valid("127.0.0.1:2"),
        None,
        1
    ));
    assert_eq!(error_of(&peer), "data is null");
    assert!(waga_peer_receive(
        Some(&mut peer),
        valid("127.0.0.1:1"),
        valid("127.0.0.1:2"),
        Some(&[9, 9]),
        2
    ));
    assert_eq!(error_of(&peer), "data is null");
    assert!(!waga_peer_send(Some(&mut peer), 7, 0, None, 1));
    assert_eq!(error_of(&peer), "unknown codec 7");
    assert!(!waga_peer_send(Some(&mut peer), 0, 0, None, 1));
    assert_eq!(error_of(&peer), "codec is required");
    assert!(!waga_peer_send(Some(&mut peer), 3, 0, None, 1));
    assert_eq!(error_of(&peer), "data is null");
    assert!(!waga_peer_send(Some(&mut peer), 3, 0, Some(&[1]), 1));
    assert_eq!(error_of(&peer), "media track was not offered");
    assert!(!waga_peer_accept_answer(Some(&mut peer), None));
    assert_eq!(error_of(&peer), "string is null");
    assert_eq!(waga_peer_accept_offer(Some(&mut peer), None), None);
    assert_eq!(error_of(&peer), "string is null");
    assert!(!waga_peer_fail(Some(&mut peer), "str0m panicked".to_string()));
    assert_eq!(error_of(&peer), "str0m panicked");
    assert!(!waga_peer_fail(Some(&mut peer), "a\0b".to_string()));
    assert_eq!(error_of(&peer), "");
}

#[test]
fn peers_negotiate_across_the_boundary() {
    let mut publisher = waga_peer_create(3, 1).unwrap();
    let mut receiver = waga_receiver_create().unwrap();
    assert!(waga_peer_add_local_candidate(Some(&mut publisher), valid("127.0.0.1:40000")));
    assert!(waga_peer_add_server_reflexive_candidate(
        Some(&mut publisher),
        valid("203.0.113.2:50000"),
        valid("127.0.0.1:40000")
    ));
    assert!(waga_peer_add_local_candidate(Some(&mut receiver), valid("127.0.0.1:40001")));
    let offer = waga_peer_create_offer(Some(&mut publisher)).unwrap();
    assert!(offer.contains("203.0.113.2 50000 typ srflx"));
    assert_eq!(waga_peer_create_offer(Some(&mut publisher)), None);
    assert_eq!(error_of(&publisher), "an offer is already pending");
    let answer = waga_peer_accept_offer(Some(&mut receiver), Some(offer.as_bytes())).unwrap();
    assert!(waga_peer_accept_answer(Some(&mut publisher), Some(answer.as_bytes())));
    assert!(!waga_peer_accept_answer(Some(&mut publisher), Some(answer.as_bytes())));
    assert_eq!(error_of(&publisher), "no offer is pending");
    assert!(waga_peer_handle_timeout(Some(&mut publisher)));
    assert!(waga_peer_timeout_millis(Some(&mut publisher)) < 60_000);
    assert!(waga_peer_poll_transmit(Some(&mut publisher), true));
    let sent = publisher.transmit().as_ref().unwrap();
    assert_eq!(sent.source, to_c_text("127.0.0.1:40000"));
    assert_eq!(sent.destination, to_c_text("127.0.0.1:40001"));
    assert!(!sent.data.is_empty());
    assert_eq!(waga_peer_last_transmit_sequence(Some(&publisher)), u64::MAX);
    assert!(waga_peer_remove_local_candidate(Some(&mut publisher), valid("127.0.0.1:40000")));
    assert!(!waga_peer_poll_transmit(Some(&mut publisher), true));
    let mut player = waga_receiver_create().unwrap();
    assert!(waga_peer_create_receive_offer(Some(&mut player)).unwrap().contains("a=recvonly"));
}

#[test]
fn datagram_keeps_its_sequence_number() {
    let transmit = Transmit {
        source: "127.0.0.1:1".to_string(),
        destination: "[::1]:2".to_string(),
        contents: vec![1, 2, 3],
        transport_sequence: Some(77),
    };
    let owned = OwnedTransmit::from_transmit(transmit);
    assert_eq!(owned.source, b"127.0.0.1:1\0");
    assert_eq!(owned.destination, b"[::1]:2\0");
    assert_eq!(owned.data, [1, 2, 3]);
    assert_eq!(owned.transport_sequence, Some(77));
}

#[test]
fn events_have_numbers() {
    let mut peer = waga_peer_create(3, 1).unwrap();
    let publisher = peer.publisher_mut();
    assert!(publisher.take_report(Report::Connected, 0));
    assert!(publisher.take_report(Report::KeyframeRequest, 0));
    assert!(publisher.take_report(Report::Other, 0));
    assert!(publisher.take_report(Report::Closed, 0));
    publisher.ice_state_changed(IceState::Disconnected, u64::MAX);
    assert!(!publisher.take_report(Report::Timeout(0), u64::MAX));
    for number in [1, 4, 3, 2, 0] {
        assert_eq!(waga_peer_poll_event(Some(&mut peer)), number);
    }
}

#[test]
fn only_the_latest_estimate_is_kept() {
    let mut peer = waga_peer_create(3, 1).unwrap();
    for bitrate in [300_000, 200_000, 400_000] {
        assert!(peer.publisher_mut().take_report(Report::BitrateEstimate(bitrate), 0));
    }
    assert_eq!(waga_peer_poll_bitrate_estimate(Some(&mut peer), true), Some(400_000));
    assert_eq!(waga_peer_poll_bitrate_estimate(Some(&mut peer), true), None);
    assert!(peer.publisher_mut().take_report(Report::BitrateEstimate(500_000), 0));
    assert_eq!(waga_peer_poll_bitrate_estimate(Some(&mut peer), false), None);
    assert_eq!(waga_peer_poll_bitrate_estimate(Some(&mut peer), true), None);
    assert!(peer.publisher_mut().take_report(Report::BitrateEstimate(600_000), 0));
    assert!(waga_peer_restart_on_path_change(Some(&mut peer)));
    assert_eq!(waga_peer_poll_bitrate_estimate(Some(&mut peer), true), None);
    assert!(waga_peer_set_desired_bitrate(Some(&mut peer), 2_000_000));
}

#[test]
fn frames_are_described() {
    let frame = |codec: &str, sender: Option<SenderClock>| Frame {
        codec: codec.to_string(),
        media_time: 1234,
        clock_rate: 48_000,
        sender,
        contents: vec![7, 8, 9],
    };
    let mut peer = waga_receiver_create().unwrap();
    let publisher = peer.publisher_mut();
    publisher.take_frame(frame("VP8", None));
    publisher.take_frame(frame("opus", None));
    publisher.take_frame(frame(
        "H264",
        Some(SenderClock { ntp_micros: Some(5_000_000), media_time: 99 }),
    ));
    publisher.take_frame(frame(
        "H265",
        Some(SenderClock { ntp_micros: Some(u128::MAX), media_time: 98 }),
    ));
    publisher.take_frame(frame("MPEG4-GENERIC", Some(SenderClock { ntp_micros: None, media_time: 97 })));
    let expected = |codec: i32, ntp_micros: u64, sender_media_time: u64| WagaMedia {
        codec,
        media_time: 1234,
        clock_rate: 48_000,
        ntp_micros,
        sender_media_time,
        length: 3,
    };
    assert_eq!(waga_peer_poll_media(Some(&mut peer), true), Some(expected(3, u64::MAX, 0)));
    assert_eq!(peer.media().as_ref().unwrap().contents, [7, 8, 9]);
    assert_eq!(peer.media().as_ref().unwrap().ntp_micros, None);
    assert_eq!(waga_peer_poll_media(Some(&mut peer), true), Some(expected(1, 5_000_000, 99)));
    assert_eq!(waga_peer_poll_media(Some(&mut peer), false), None);
    assert_eq!(peer.media().as_ref().unwrap().codec, Codec::H265);
    assert_eq!(peer.media().as_ref().unwrap().ntp_micros, Some(u64::MAX));
    assert_eq!(waga_peer_poll_media(Some(&mut peer), true), Some(expected(4, u64::MAX, 0)));
    assert_eq!(waga_peer_poll_media(Some(&mut peer), true), None);
}

#[test]
fn work_for_the_host_is_queued_in_order() {
    let mut peer = waga_peer_create(3, 1).unwrap();
    assert!(waga_peer_create_offer(Some(&mut peer)).is_some());
    waga_peer_set_egress_path(Some(&mut peer), 5, 1);
    waga_peer_set_egress_path(Some(&mut peer), 6, u64::MAX);
    assert!(waga_peer_request_path_probe(Some(&mut peer)));
    assert!(waga_peer_restart_on_path_change(Some(&mut peer)));
    let publisher = peer.publisher_mut();
    assert!(publisher.take_report(Report::Connected, 0));
    publisher.ice_state_changed(IceState::Disconnected, 0);
    assert!(matches!(
        publisher.poll_request(),
        Some(EngineRequest::AttributePath { sequence: 5, path: Some(1) })
    ));
    assert!(matches!(
        publisher.poll_request(),
        Some(EngineRequest::AttributePath { sequence: 6, path: None })
    ));
    assert!(matches!(publisher.poll_request(), Some(EngineRequest::ProbePath)));
    assert!(matches!(publisher.poll_request(), Some(EngineRequest::RestartEstimate)));
    assert!(matches!(publisher.poll_request(), Some(EngineRequest::DiscardQueuedMedia(_))));
    assert!(matches!(publisher.poll_request(), Some(EngineRequest::DiscardQueuedMedia(_))));
    assert!(publisher.poll_request().is_none());
}

#[test]
fn nothing_is_due_before_the_session_was_polled() {
    let mut publisher = Publisher::new(Some(Codec::Opus), None).unwrap();
    assert_eq!(publisher.timeout_after(), 18_446_744_073_709_551_615_999_999_999);
    let mut peer = waga_peer_create(3, 1).unwrap();
    assert_eq!(waga_peer_timeout_millis(Some(&mut peer)), u64::MAX);
}

#[test]
fn waits_are_given_in_whole_milliseconds() {
    assert_eq!(whole_millis(0), 0);
    assert_eq!(whole_millis(999_999), 0);
    assert_eq!(whole_millis(1_000_000), 1);
    assert_eq!(whole_millis(2_500_000_000), 2_500);
    assert_eq!(whole_millis(u64::MAX as u128 * 1_000_000), u64::MAX);
    assert_eq!(whole_millis((u64::MAX as u128 + 1) * 1_000_000), u64::MAX);
    assert_eq!(waga_peer_timeout_millis_at(None, 0), u64::MAX);
    let mut peer = waga_peer_create(3, 1).unwrap();
    assert_eq!(waga_peer_timeout_millis_at(Some(&peer), 0), u64::MAX);
    assert!(!peer.publisher_mut().take_report(Report::Timeout(5_000_000_000), 0));
    assert_eq!(waga_peer_timeout_millis_at(Some(&peer), 0), 5_000);
    assert_eq!(waga_peer_timeout_millis_at(Some(&peer), 4_999_000_001), 0);
    assert_eq!(waga_peer_timeout_millis_at(Some(&peer), 4_998_999_999), 1);
    assert_eq!(waga_peer_timeout_millis_at(Some(&peer), u64::MAX), 0);
    assert!(!peer.publisher_mut().take_report(Report::Timeout(3_600_000_000_000), 0));
    let left = waga_peer_timeout_millis(Some(&mut peer));
    assert!(3_500_000 < left && left <= 3_600_000);
}

#[test]
fn a_probe_takes_effect_when_the_time_is_told() {
    let mut peer = waga_peer_create(3, 1).unwrap();
    assert!(!peer.publisher_mut().estimates_bandwidth());
    assert!(waga_peer_request_path_probe(Some(&mut peer)));
    assert!(matches!(peer.publisher_mut().poll_request(), Some(EngineRequest::ProbePath)));
    assert_eq!(waga_peer_timeout_millis_at(Some(&peer), 0), u64::MAX);
    assert!(waga_peer_handle_timeout(Some(&mut peer)));
    assert_ne!(waga_peer_timeout_millis_at(Some(&peer), 0), u64::MAX);
}
