use std::collections::VecDeque;

use waga_webrtc_core::session::{attainable, MAX_BITRATE};
use waga_webrtc_core::{Codec, EngineRequest, Media, PeerEvent, Publisher, Transmit};

/// Nanoseconds in a millisecond, and in a second.
const MILLI: u64 = 1_000_000;
const SECOND: u64 = 1_000_000_000;

/// When the simulated time begins.
const START: u64 = SECOND;

fn transfer(from: &mut Publisher, to: &mut Publisher, now: u64) {
    while let Some(packet) = from.poll_transmit() {
        to.receive_at(&packet.source, &packet.destination, &packet.contents, now).unwrap();
    }
}

fn negotiate(publisher: &mut Publisher, receiver: &mut Publisher) -> String {
    publisher.add_local_candidate("127.0.0.1:40000").unwrap();
    receiver.add_local_candidate("127.0.0.1:40001").unwrap();
    let offer = publisher.create_offer().unwrap();
    let answer = receiver.accept_offer(&offer).unwrap();
    publisher.accept_answer(&answer).unwrap();
    offer
}

#[test]
fn repeated_interface_replacement_resumes_media_without_new_offer() {
    check_repeated_interface_recovery(false);
}

#[test]
fn repeated_health_withdrawal_restores_same_socket_without_new_offer() {
    check_repeated_interface_recovery(true);
}

fn check_repeated_interface_recovery(reuse_socket: bool) {
    let mut publisher = Publisher::new(Some(Codec::Opus), Some(Codec::H264)).unwrap();
    let mut receiver = Publisher::new_receiver().unwrap();
    let mut port = 40000;
    let mut active = format!("127.0.0.1:{port}");
    negotiate(&mut publisher, &mut receiver);
    let mut received = [false; 4];
    let mut available = true;
    for step in 0..1000_u64 {
        let millis = step * 20;
        let now = START + millis * MILLI;
        if [2000, 6000, 10_000].contains(&millis) {
            publisher.remove_local_candidate(&active).unwrap();
            available = !reuse_socket;
            if !reuse_socket {
                port += 2;
                active = format!("127.0.0.1:{port}");
                publisher.add_local_candidate(&active).unwrap();
            }
        }
        if reuse_socket && [4000, 8000, 12_000].contains(&millis) {
            available = true;
            publisher.add_local_candidate(&active).unwrap();
        }
        for peer in [&mut publisher, &mut receiver] {
            peer.handle_timeout_at(now).unwrap();
        }
        if publisher.rtc_mut().is_connected() {
            publisher
                .send_at(Codec::H264, millis * 90, &[0, 0, 0, 1, 0x65, 0x01], now)
                .unwrap();
        }
        while let Some(packet) = publisher.poll_transmit() {
            if !available || packet.source != active {
                continue;
            }
            receiver
                .receive_at(&packet.source, &packet.destination, &packet.contents, now)
                .unwrap();
        }
        while let Some(packet) = receiver.poll_transmit() {
            if !available || packet.destination != active {
                continue;
            }
            publisher
                .receive_at(&packet.source, &packet.destination, &packet.contents, now)
                .unwrap();
        }
        while receiver.poll_media().is_some() {
            let phase = match millis {
                0..2000 => Some(0),
                4000..6000 => Some(1),
                8000..10_000 => Some(2),
                12_000.. => Some(3),
                _ => None,
            };
            if let Some(phase) = phase {
                received[phase] = true;
            }
        }
        while let Some(event) = publisher.poll_event() {
            assert_ne!(event, PeerEvent::Disconnected);
            assert_ne!(event, PeerEvent::Closed);
        }
    }
    assert_eq!(
        received, [true; 4],
        "media must resume after every interface replacement"
    );
}

#[test]
fn ten_second_network_outage_resumes_same_media_session() {
    let mut publisher = Publisher::new(Some(Codec::Opus), Some(Codec::H264)).unwrap();
    let mut receiver = Publisher::new_receiver().unwrap();
    negotiate(&mut publisher, &mut receiver);
    let mut resumed = false;
    let mut before_outage = false;
    for step in 0..800_u64 {
        let millis = step * 20;
        let now = START + millis * MILLI;
        for peer in [&mut publisher, &mut receiver] {
            peer.handle_timeout_at(now).unwrap();
        }
        if publisher.rtc_mut().is_connected() {
            publisher
                .send_at(Codec::H264, millis * 90, &[0, 0, 0, 1, 0x65, 0x01], now)
                .unwrap();
        }
        while let Some(packet) = publisher.poll_transmit() {
            if (2000..12_000).contains(&millis) {
                continue;
            }
            receiver
                .receive_at(&packet.source, &packet.destination, &packet.contents, now)
                .unwrap();
        }
        while let Some(packet) = receiver.poll_transmit() {
            if (2000..12_000).contains(&millis) {
                continue;
            }
            publisher
                .receive_at(&packet.source, &packet.destination, &packet.contents, now)
                .unwrap();
        }
        while receiver.poll_media().is_some() {
            before_outage |= millis < 2000;
            resumed |= millis >= 12_000;
        }
        while let Some(event) = publisher.poll_event() {
            assert_ne!(event, PeerEvent::Disconnected);
            assert_ne!(event, PeerEvent::Closed);
        }
    }
    assert!(
        before_outage && resumed,
        "media must arrive before and after the outage"
    );
    assert!(publisher.rtc_mut().is_connected());
}

#[test]
fn application_limited_sender_probes_early_and_late() {
    let mut publisher = Publisher::new_with_bwe(
        Some(Codec::Opus),
        Some(Codec::H264),
        Some(500_000),
        Some(5_000_000),
    )
    .unwrap();
    let mut receiver = Publisher::new_receiver().unwrap();
    let offer = negotiate(&mut publisher, &mut receiver);
    let rtx_pts: Vec<u8> = offer
        .lines()
        .filter(|line| line.contains(" rtx/90000"))
        .map(|line| {
            line.strip_prefix("a=rtpmap:")
                .unwrap()
                .split_whitespace()
                .next()
                .unwrap()
                .parse()
                .unwrap()
        })
        .collect();
    assert!(!rtx_pts.is_empty());
    let mut outbound: VecDeque<(u64, Transmit)> = VecDeque::new();
    let mut feedback: VecDeque<(u64, Transmit)> = VecDeque::new();
    let mut early_probes = 0;
    let mut late_probes = 0;
    let mut estimates = Vec::new();
    for millis in 0..12_000_u64 {
        let now = START + millis * MILLI;
        for peer in [&mut publisher, &mut receiver] {
            peer.handle_timeout_at(now).unwrap();
        }
        if publisher.rtc_mut().is_connected() && millis % 20 == 0 {
            publisher
                .send_at(Codec::H264, millis * 90, &[0, 0, 0, 1, 0x65, 0x01], now)
                .unwrap();
        }
        while let Some(packet) = publisher.poll_transmit() {
            if packet.contents.len() >= 12
                && packet.contents[0] & 0xc0 == 0x80
                && rtx_pts.contains(&(packet.contents[1] & 0x7f))
            {
                if millis < 3000 {
                    early_probes += 1;
                }
                if millis > 6000 {
                    late_probes += 1;
                }
            }
            outbound.push_back((now + 10 * MILLI, packet));
        }
        while let Some(packet) = receiver.poll_transmit() {
            feedback.push_back((now + 10 * MILLI, packet));
        }
        for (queue, peer) in [(&mut outbound, &mut receiver), (&mut feedback, &mut publisher)] {
            while queue.front().is_some_and(|(due, _)| *due <= now) {
                let (_, packet) = queue.pop_front().unwrap();
                peer.receive_at(&packet.source, &packet.destination, &packet.contents, now)
                    .unwrap();
            }
        }
        while receiver.poll_media().is_some() {}
        if let Some(estimate) = publisher.poll_bitrate_estimate() {
            estimates.push(estimate);
        }
    }
    assert!(publisher.rtc_mut().is_connected());
    assert!(early_probes > 0, "startup probes were not sent");
    assert!(late_probes > 0, "ALR did not trigger periodic probing");
    assert_eq!(estimates.first(), Some(&500_000));
    assert!(estimates.len() > 1, "TWCC did not revise the starting estimate");
}

#[test]
fn publisher_delivers_a_complete_video_frame_to_receiver() {
    check_video_delivery(false);
}

#[test]
fn bandwidth_handoff_preserves_the_media_session() {
    check_video_delivery(true);
}

fn check_video_delivery(handoff: bool) {
    let mut publisher = if handoff {
        Publisher::new_with_bwe(
            Some(Codec::Opus),
            Some(Codec::H264),
            Some(250_000),
            Some(6_000_000),
        )
    } else {
        Publisher::new(Some(Codec::Opus), Some(Codec::H264))
    }
    .unwrap();
    let mut receiver = Publisher::new_receiver().unwrap();
    negotiate(&mut publisher, &mut receiver);

    let mut now = START;
    let mut connected = false;
    for _ in 0..200 {
        publisher.handle_timeout_at(now).unwrap();
        receiver.handle_timeout_at(now).unwrap();
        transfer(&mut publisher, &mut receiver, now);
        transfer(&mut receiver, &mut publisher, now);
        connected |= matches!(publisher.poll_event(), Some(PeerEvent::Connected));
        if connected {
            break;
        }
        now += 5 * MILLI;
    }
    assert!(connected, "ICE and DTLS did not connect");

    for packet in [&[][..], &[0x57, 0x47, 0x52, 0x31], &[0; 20]] {
        publisher
            .receive_at("127.0.0.1:40001", "127.0.0.1:40000", packet, now)
            .unwrap();
        receiver
            .receive_at("127.0.0.1:40000", "127.0.0.1:40001", packet, now)
            .unwrap();
    }
    assert!(publisher.rtc_mut().is_connected());
    assert!(receiver.rtc_mut().is_connected());

    if handoff {
        publisher.restart_on_path_change().unwrap();
        assert!(matches!(publisher.poll_request(), Some(EngineRequest::RestartEstimate)));
        publisher.handle_timeout_at(now).unwrap();
        assert!(publisher.rtc_mut().is_connected());
        assert!(receiver.rtc_mut().is_connected());
    }
    let frame = [0, 0, 0, 2, 0x65, 0x01];
    publisher.send_at(Codec::H264, 90_000, &frame, now).unwrap();
    for _ in 0..100 {
        transfer(&mut publisher, &mut receiver, now);
        transfer(&mut receiver, &mut publisher, now);
        if let Some(media) = receiver.poll_media() {
            assert_eq!(media.codec, Codec::H264);
            assert_eq!(media.media_time, 90_000);
            assert_eq!(media.contents, [0, 0, 0, 1, 0x65, 0x01]);
            return;
        }
        now += 5 * MILLI;
        publisher.handle_timeout_at(now).unwrap();
        receiver.handle_timeout_at(now).unwrap();
    }
    panic!("video frame was not delivered");
}

/// Sends frames over a connected pair until one arrives.
fn first_frame(codec: Codec, frame: &[u8]) -> Media {
    let mut publisher = Publisher::new(Some(Codec::Opus), Some(Codec::H265)).unwrap();
    let mut receiver = Publisher::new_receiver().unwrap();
    negotiate(&mut publisher, &mut receiver);
    for step in 0..400_u64 {
        let now = START + step * 5 * MILLI;
        publisher.handle_timeout_at(now).unwrap();
        receiver.handle_timeout_at(now).unwrap();
        if publisher.rtc_mut().is_connected() {
            publisher.send_at(codec, step * 960, frame, now).unwrap();
        }
        transfer(&mut publisher, &mut receiver, now);
        transfer(&mut receiver, &mut publisher, now);
        if let Some(media) = receiver.poll_media() {
            return media;
        }
    }
    panic!("no frame was delivered");
}

#[test]
fn audio_arrives_as_it_was_sent() {
    let media = first_frame(Codec::Opus, &[0, 0, 0, 1, 9]);
    assert_eq!(media.codec, Codec::Opus);
    assert_eq!(media.clock_rate, 48_000);
    assert_eq!(media.contents, [0, 0, 0, 1, 9]);
    assert_eq!(media.media_time % 960, 0);
}

#[test]
fn h265_arrives_in_annex_b_form() {
    let media = first_frame(Codec::H265, &[0, 0, 0, 4, 0x26, 0x01, 0x02, 0x03]);
    assert_eq!(media.codec, Codec::H265);
    assert_eq!(media.clock_rate, 90_000);
    assert_eq!(media.contents, [0, 0, 0, 1, 0x26, 0x01, 0x02, 0x03]);
}

#[test]
fn withdrawn_interface_sends_nothing_that_was_queued() {
    let mut publisher = Publisher::new(Some(Codec::Opus), None).unwrap();
    let mut receiver = Publisher::new_receiver().unwrap();
    negotiate(&mut publisher, &mut receiver);
    publisher.add_local_candidate("127.0.0.2:40000").unwrap();
    let mut both = false;
    for step in 0..200_u64 {
        publisher.handle_timeout_at(START + step * 50 * MILLI).unwrap();
    }
    publisher.remove_local_candidate("127.0.0.1:40000").unwrap();
    while let Some(packet) = publisher.poll_transmit() {
        assert_ne!(packet.source, "127.0.0.1:40000");
        assert_eq!(packet.transport_sequence, None);
        both |= packet.source == "127.0.0.2:40000";
    }
    assert!(both);
}

#[test]
fn bit_rates_have_a_ceiling() {
    assert_eq!(attainable(0), 0);
    assert_eq!(attainable(MAX_BITRATE), MAX_BITRATE);
    assert_eq!(attainable(MAX_BITRATE + 1), MAX_BITRATE);
    assert_eq!(attainable(u64::MAX), 5_000_000_000);
}

#[test]
fn session_stands_the_highest_bit_rates() {
    let mut publisher = Publisher::new_with_bwe(
        Some(Codec::Opus),
        Some(Codec::H264),
        Some(u64::MAX),
        Some(u64::MAX),
    )
    .unwrap();
    let mut receiver = Publisher::new_receiver().unwrap();
    negotiate(&mut publisher, &mut receiver);

    let mut now = START;
    let mut arrived = 0;
    for step in 0..300u64 {
        publisher.handle_timeout_at(now).unwrap();
        receiver.handle_timeout_at(now).unwrap();
        transfer(&mut publisher, &mut receiver, now);
        transfer(&mut receiver, &mut publisher, now);
        if step > 100 && step % 4 == 0 {
            let frame = [0, 0, 0, 1, 0x65, step as u8, 2, 3];
            publisher.send_at(Codec::H264, step * 3000, &frame, now).unwrap();
        }
        while receiver.poll_media().is_some() {
            arrived += 1;
        }
        if step == 150 {
            publisher.set_desired_bitrate(u64::MAX);
        }
        now += 10 * MILLI;
    }

    assert!(arrived > 0);
}
