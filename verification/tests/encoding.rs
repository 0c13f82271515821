use waga_webrtc_core::hex::{hex, unhex};
use waga_webrtc_core::packet::is_rtp;
use waga_webrtc_core::publisher::find_payload;
use waga_webrtc_core::session::{nanos, Payload};
use waga_webrtc_core::Codec;

#[test]
fn hexadecimal_is_read_back() {
    assert_eq!(hex(&[0x00, 0x1f, 0xa0, 0xff]), "001fa0ff");
    assert_eq!(unhex("001fa0ff"), [0x00, 0x1f, 0xa0, 0xff]);
    assert_eq!(hex(&[]), "");
    assert_eq!(unhex("0a1"), [0x0a]);
    let all: Vec<u8> = (0..=255).collect();
    assert_eq!(unhex(&hex(&all)), all);
}

#[test]
fn rtp_is_told_from_rtcp_and_the_rest() {
    let packet = |first: u8, second: u8, length: usize| {
        let mut packet = vec![0; length];
        packet[0] = first;
        packet[1] = second;
        packet
    };
    assert!(is_rtp(&packet(0x80, 96, 12)));
    assert!(is_rtp(&packet(0xbf, 0xe0, 20)));
    assert!(is_rtp(&packet(0x80, 191, 12)));
    assert!(is_rtp(&packet(0x80, 224, 12)));
    assert!(!is_rtp(&packet(0x80, 192, 12)));
    assert!(!is_rtp(&packet(0x80, 200, 12)));
    assert!(!is_rtp(&packet(0x80, 223, 12)));
    assert!(!is_rtp(&packet(0x80, 96, 11)));
    assert!(!is_rtp(&packet(0x40, 96, 12)));
    assert!(!is_rtp(&[]));
}

#[test]
fn first_payload_of_a_codec_is_used() {
    let payload = |payload_type: u8, codec: &str| Payload {
        payload_type,
        codec: codec.to_string(),
    };
    let payloads = vec![
        payload(96, "VP8"),
        payload(108, "H264"),
        payload(109, "H264"),
        payload(111, "opus"),
    ];
    assert_eq!(find_payload(&payloads, Codec::H264), Some(108));
    assert_eq!(find_payload(&payloads, Codec::Opus), Some(111));
    assert_eq!(find_payload(&payloads, Codec::H265), None);
    assert_eq!(find_payload(&payloads, Codec::Aac), None);
}

#[test]
fn codec_names_are_the_transport_s() {
    for (codec, name) in [
        (Codec::H264, str0m::format::Codec::H264),
        (Codec::H265, str0m::format::Codec::H265),
        (Codec::Opus, str0m::format::Codec::Opus),
    ] {
        assert_eq!(codec.name(), name.to_string());
        assert_eq!(Codec::from_name(&name.to_string()), Some(codec));
    }
    assert_eq!(Codec::Aac.name(), "MPEG4-GENERIC");
    assert_eq!(Codec::from_name(&"VP8".to_string()), None);
    assert_eq!(Codec::H264.clock_rate(), 90_000);
    assert_eq!(Codec::Aac.clock_rate(), 48_000);
    assert!(Codec::Opus.is_audio());
    assert!(!Codec::H265.is_audio());
}

#[test]
fn times_are_clamped() {
    assert_eq!(nanos(5), 5);
    assert_eq!(nanos(u64::MAX as u128), u64::MAX);
    assert_eq!(nanos(u64::MAX as u128 + 1), u64::MAX);
}
