use waga_webrtc_core::publisher::check_codec;
use waga_webrtc_core::{Codec, Publisher};

#[test]
fn removing_interface_invalidates_host_and_reflexive_candidates() {
    let mut peer = Publisher::new(Some(Codec::Opus), None).unwrap();
    let wifi = "192.0.2.1:40000";
    let cellular = "192.0.2.2:40000";
    for _ in 0..3 {
        peer.add_local_candidate(wifi).unwrap();
        peer.add_server_reflexive_candidate("203.0.113.1:50000", wifi).unwrap();
        peer.add_local_candidate(cellular).unwrap();
        let removed: Vec<_> = peer
            .local_candidates()
            .iter()
            .filter(|(base, _)| *base == wifi)
            .map(|(_, candidate)| candidate.clone())
            .collect();
        assert_eq!(removed.len(), 2);
        peer.remove_local_candidate(wifi).unwrap();
        assert!(peer.local_candidates().iter().all(|(base, _)| *base == cellular));
        for candidate in removed {
            assert!(!peer.rtc_mut().direct_api().invalidate_candidate(&candidate));
        }
    }
}

#[test]
fn offer_contains_send_only_audio_and_video() {
    let mut publisher = Publisher::new(Some(Codec::Opus), Some(Codec::H264)).unwrap();
    publisher.add_local_candidate("127.0.0.1:40000").unwrap();
    let offer = publisher.create_offer().unwrap();

    assert!(offer.contains("m=audio"));
    assert!(offer.contains("m=video"));
    assert!(offer.contains("a=sendonly"));
    assert!(offer.contains("H264"));
    assert!(offer.contains("opus"));
    assert!(!offer.contains("VP8"));
    assert!(!offer.contains("H265"));
    assert!(offer.contains("127.0.0.1 40000 typ host"));
}

#[test]
fn offer_enables_transport_wide_feedback_with_bwe() {
    let mut publisher = Publisher::new_with_bwe(
        Some(Codec::Opus),
        Some(Codec::H264),
        Some(1_000_000),
        Some(3_000_000),
    )
    .unwrap();
    publisher.add_local_candidate("127.0.0.1:40000").unwrap();

    let offer = publisher.create_offer().unwrap();

    assert!(offer.contains("transport-cc"));
    assert!(offer.contains("transport-wide-cc"));
    assert!(offer.contains("rtx/90000"));
}

#[test]
fn offer_requires_media() {
    let error = Publisher::new(None, None).err().unwrap();

    assert_eq!(error, "at least one media track is required");
}

#[test]
fn receiver_negotiates_publisher_offer() {
    let mut publisher = Publisher::new(Some(Codec::Opus), Some(Codec::H264)).unwrap();
    publisher.add_local_candidate("127.0.0.1:40000").unwrap();
    let offer = publisher.create_offer().unwrap();
    let mut receiver = Publisher::new_receiver().unwrap();
    receiver.add_local_candidate("127.0.0.1:40001").unwrap();
    let answer = receiver.accept_offer(&offer).unwrap();

    assert!(answer.contains("a=recvonly"));
    publisher.accept_answer(&answer).unwrap();
}

#[test]
fn offer_contains_server_reflexive_candidate() {
    let mut publisher = Publisher::new(Some(Codec::Opus), Some(Codec::H264)).unwrap();
    publisher.add_local_candidate("10.0.0.2:40000").unwrap();
    publisher
        .add_server_reflexive_candidate("203.0.113.2:50000", "10.0.0.2:40000")
        .unwrap();
    let offer = publisher.create_offer().unwrap();

    assert!(offer.contains("203.0.113.2 50000 typ srflx"));
}

#[test]
fn wrong_codec_for_a_track_is_refused() {
    assert_eq!(
        Publisher::new(Some(Codec::H264), None).err().unwrap(),
        "audio must use Opus or AAC"
    );
    assert_eq!(
        Publisher::new(Some(Codec::Opus), Some(Codec::Aac)).err().unwrap(),
        "video must use H264 or H265"
    );
    assert!(Publisher::new(None, Some(Codec::H265)).is_ok());
}

#[test]
fn aac_needs_a_transport_that_knows_it() {
    let refusal = Err("the transport does not carry AAC".to_string());
    assert_eq!(check_codec(Some(Codec::Aac), &"Unknown".to_string()), refusal);
    assert_eq!(check_codec(Some(Codec::Aac), &"MPEG4-GENERIC".to_string()), Ok(()));
    assert_eq!(check_codec(Some(Codec::Opus), &"Unknown".to_string()), Ok(()));
    assert_eq!(check_codec(None, &"Unknown".to_string()), Ok(()));
    let known = str0m::format::Codec::from("MPEG4-GENERIC").to_string() == "MPEG4-GENERIC";
    assert_eq!(Publisher::new(Some(Codec::Aac), None).is_ok(), known);
}

#[test]
fn only_one_offer_awaits_its_answer() {
    let mut publisher = Publisher::new(Some(Codec::Opus), Some(Codec::H264)).unwrap();
    let mut receiver = Publisher::new_receiver().unwrap();
    let offer = publisher.create_offer().unwrap();
    assert_eq!(publisher.create_offer(), Err("an offer is already pending".to_string()));
    assert_eq!(
        publisher.create_receive_offer(),
        Err("an offer is already pending".to_string())
    );
    let answer = receiver.accept_offer(&offer).unwrap();
    assert_eq!(publisher.accept_answer(&answer), Ok(()));
    assert_eq!(publisher.accept_answer(&answer), Err("no offer is pending".to_string()));
}

#[test]
fn receive_offer_asks_for_video_and_audio() {
    let mut receiver = Publisher::new_receiver().unwrap();
    receiver.add_local_candidate("127.0.0.1:40001").unwrap();
    let offer = receiver.create_receive_offer().unwrap();
    assert!(offer.contains("a=recvonly"));
    assert!(!offer.contains("a=sendonly"));
    assert!(offer.find("m=video").unwrap() < offer.find("m=audio").unwrap());
    assert!(!offer.contains("waga"));
}

#[test]
fn sent_tracks_are_named() {
    let mut publisher = Publisher::new(Some(Codec::Opus), Some(Codec::H264)).unwrap();
    let offer = publisher.create_offer().unwrap();
    assert!(offer.contains("waga audio"));
    assert!(offer.contains("waga video"));
    assert!(offer.find("m=audio").unwrap() < offer.find("m=video").unwrap());
}

#[test]
fn text_that_is_no_session_description_is_refused() {
    let mut publisher = Publisher::new(Some(Codec::Opus), None).unwrap();
    publisher.create_offer().unwrap();
    assert!(publisher.accept_answer("nonsense").unwrap_err().contains("arse"));
    let mut receiver = Publisher::new_receiver().unwrap();
    assert!(receiver.accept_offer("nonsense").unwrap_err().contains("arse"));
    assert_eq!(
        publisher.accept_parsed_answer(Err("garbled".to_string())),
        Err("garbled".to_string())
    );
    assert_eq!(
        receiver.accept_parsed_offer(Err("garbled".to_string())),
        Err("garbled".to_string())
    );
    assert_eq!(publisher.create_offer(), Err("an offer is already pending".to_string()));
}

#[test]
fn address_that_is_none_makes_no_candidate() {
    let mut peer = Publisher::new(Some(Codec::Opus), None).unwrap();
    assert!(peer.add_local_candidate("nowhere").is_err());
    assert!(peer.add_server_reflexive_candidate("nowhere", "127.0.0.1:1").is_err());
    assert!(peer.add_server_reflexive_candidate("203.0.113.2:1", "nowhere").is_err());
    assert_eq!(peer.add_candidate("127.0.0.1:1", Err("none".into())), Err("none".to_string()));
    assert_eq!(peer.local_candidates().len(), 0);
    let host = str0m::Candidate::host("127.0.0.1:5000".parse().unwrap(), "udp").unwrap();
    assert_eq!(peer.add_candidate("127.0.0.1:5000", Ok(host)), Ok(()));
    assert_eq!(peer.local_candidates().len(), 1);
    assert_eq!(peer.local_candidates()[0].0, "127.0.0.1:5000");
}

#[test]
fn sending_before_the_answer_is_refused() {
    let mut publisher = Publisher::new(Some(Codec::Opus), Some(Codec::H264)).unwrap();
    assert_eq!(
        publisher.send(Codec::Opus, 0, &[1]),
        Err("media track was not offered".to_string())
    );
    let mut receiver = Publisher::new_receiver().unwrap();
    let offer = publisher.create_offer().unwrap();
    assert_eq!(
        publisher.send(Codec::Opus, 0, &[1]),
        Err("media track is not negotiated".to_string())
    );
    let answer = receiver.accept_offer(&offer).unwrap();
    publisher.accept_answer(&answer).unwrap();
    assert_eq!(
        publisher.send(Codec::H265, 0, &[1]),
        Err("codec was not negotiated".to_string())
    );
}

#[test]
fn session_takes_so_many_candidates() {
    let mut peer = Publisher::new(Some(Codec::Opus), None).unwrap();
    for _ in 0..16_384 {
        peer.add_local_candidate("192.0.2.1:40000").unwrap();
        peer.remove_local_candidate("192.0.2.1:40000").unwrap();
    }
    assert_eq!(
        peer.add_local_candidate("192.0.2.1:40000"),
        Err("too many local candidates".to_string())
    );
    assert_eq!(
        peer.add_server_reflexive_candidate("203.0.113.1:50000", "192.0.2.1:40000"),
        Err("too many local candidates".to_string())
    );
    assert_eq!(peer.local_candidates().len(), 0);
}

#[test]
fn candidate_of_another_kind_is_refused() {
    let mut peer = Publisher::new(Some(Codec::Opus), None).unwrap();
    let (relay, local) = ("203.0.113.9:1000", "192.0.2.1:40000");
    let relayed =
        str0m::Candidate::relayed(relay.parse().unwrap(), local.parse().unwrap(), "udp").unwrap();
    let refusal = Err("only host and server-reflexive candidates are local".to_string());
    assert_eq!(peer.add_candidate(local, Ok(relayed)), refusal);
    let text = "candidate:1 1 udp 1845501695 203.0.113.9 1000 typ prflx raddr 0.0.0.0 rport 0";
    let reflexive = str0m::Candidate::from_sdp_string(text).unwrap();
    assert_eq!(peer.add_candidate(local, Ok(reflexive)), refusal);
    assert_eq!(peer.local_candidates().len(), 0);
}

#[test]
fn unrelated_datagrams_are_ignored() {
    let mut peer = Publisher::new(Some(Codec::Opus), None).unwrap();
    for first in 0..=255u8 {
        let known = first < 2 || (20..64).contains(&first) || (128..192).contains(&first);
        if !known {
            let datagram = [first; 40];
            assert_eq!(peer.receive("192.0.2.1:1", "192.0.2.2:2", &datagram), Ok(()));
        }
    }
    assert_eq!(peer.receive("192.0.2.1:1", "192.0.2.2:2", &[]), Ok(()));
    assert_eq!(peer.receive("192.0.2.1:1", "192.0.2.2:2", &[0; 19]), Ok(()));
    assert_eq!(peer.receive("192.0.2.1:1", "192.0.2.2:2", &[128, 96]), Ok(()));
}
