use waga_webrtc_core::description::{find_fault, is_unambiguous};
use waga_webrtc_core::{Codec, Publisher};

const AUDIO: &str = "m=audio 9 UDP/TLS/RTP/SAVPF 111\r\na=mid:a\r\na=recvonly\r\na=rtpmap:111 opus/48000/2\r\na=fmtp:111 minptime=10\r\n";
const VIDEO: &str = "m=video 9 UDP/TLS/RTP/SAVPF 96 97\r\na=mid:v\r\na=recvonly\r\na=rtpmap:96 H264/90000\r\na=fmtp:96 packetization-mode=1;profile-level-id=42e01f\r\na=rtpmap:97 rtx/90000\r\na=fmtp:97 apt=96\r\n";

fn alone(text: &str) -> bool {
    is_unambiguous(&Vec::new(), text)
}

fn exchange() -> (Publisher, String, String) {
    let mut publisher = Publisher::new(Some(Codec::Opus), Some(Codec::H264)).unwrap();
    let mut receiver = Publisher::new_receiver().unwrap();
    let offer = publisher.create_offer().unwrap();
    let answer = receiver.accept_offer(&offer).unwrap();
    (publisher, offer, answer)
}

fn identities(text: &str) -> Vec<String> {
    text.lines().filter_map(|line| line.strip_prefix("a=mid:")).map(str::to_string).collect()
}

/// Maps H.264 to the payload type of Opus.
fn clashing(text: &str) -> String {
    assert!(text.contains("a=rtpmap:111 opus/48000/2\r\n"));
    assert!(text.contains("a=rtpmap:127 H264/90000\r\n"));
    text.replace("SAVPF 127 ", "SAVPF 111 ")
        .replace("a=rtpmap:127 ", "a=rtpmap:111 ")
        .replace("a=fmtp:127 ", "a=fmtp:111 ")
        .replace("a=rtcp-fb:127 ", "a=rtcp-fb:111 ")
        .replace("apt=127", "apt=111")
}

#[test]
fn answer_with_one_identity_for_two_lines_is_refused() {
    let (mut publisher, _, answer) = exchange();
    let mids = identities(&answer);
    assert_eq!(mids.len(), 2);
    let twice = answer.replace(&mids[1], &mids[0]);
    assert_eq!(publisher.accept_answer(&twice), Err("the session description is ambiguous".to_string()));
    assert_eq!(publisher.accept_answer(&answer), Err("no offer is pending".to_string()));
    assert!(publisher.create_offer().is_ok());
}

#[test]
fn answer_with_one_payload_type_for_two_codecs_is_refused() {
    let (mut publisher, _, answer) = exchange();
    assert_eq!(
        publisher.accept_answer(&clashing(&answer)),
        Err("the session description is ambiguous".to_string())
    );
    let (mut publisher, _, answer) = exchange();
    assert_eq!(publisher.accept_answer(&answer), Ok(()));
}

#[test]
fn answer_is_refused_for_what_it_was_read_as() {
    let (mut publisher, _, answer) = exchange();
    let read = str0m::change::SdpAnswer::from_sdp_string(&clashing(&answer)).unwrap();
    assert_eq!(
        publisher.accept_parsed_answer(Ok(read)),
        Err("the session description is ambiguous".to_string())
    );
    let (mut publisher, _, answer) = exchange();
    let read = str0m::change::SdpAnswer::from_sdp_string(&answer).unwrap();
    assert_eq!(publisher.accept_parsed_answer(Ok(read)), Ok(()));
}

#[test]
fn offer_with_one_payload_type_for_two_codecs_is_refused_where_the_peer_receives() {
    let (_, offer, _) = exchange();
    for direction in ["a=sendrecv", "a=recvonly", "a=inactive"] {
        let mut receiver = Publisher::new_receiver().unwrap();
        let both = clashing(&offer).replace("a=sendonly", direction);
        assert_eq!(receiver.accept_offer(&both), Err("the session description is ambiguous".to_string()));
        assert!(receiver.accept_offer(&offer).is_ok());
    }
    let mut receiver = Publisher::new_receiver().unwrap();
    assert!(receiver.accept_offer(&clashing(&offer)).is_ok());
}

#[test]
fn identities_are_compared_as_they_are_read() {
    let (_, offer, _) = exchange();
    let mids = identities(&offer);
    let long = offer.replace(&mids[0], "abcdefghijklmnopQ").replace(&mids[1], "abcdefghijklmnopR");
    let mut receiver = Publisher::new_receiver().unwrap();
    assert_eq!(receiver.accept_offer(&long), Err("the session description is ambiguous".to_string()));
    let short = offer.replace(&mids[0], "abcQ").replace(&mids[1], "abcR");
    assert!(receiver.accept_offer(&short).is_ok());
}

#[test]
fn payload_types_of_earlier_descriptions_count() {
    let (_, offer, _) = exchange();
    let mut receiver = Publisher::new_receiver().unwrap();
    assert!(receiver.accept_offer(&clashing(&offer)).is_ok());
    let receiving = offer.replace("a=sendonly", "a=sendrecv");
    assert_eq!(receiver.accept_offer(&receiving), Err("the session description is ambiguous".to_string()));
    let mut receiver = Publisher::new_receiver().unwrap();
    assert!(receiver.accept_offer(&receiving).is_ok());
    assert!(receiver.accept_offer(&receiving).is_ok());
}

#[test]
fn one_meaning_for_each_payload_type_is_unambiguous() {
    assert!(alone(""));
    assert!(alone(AUDIO));
    assert!(alone(&format!("v=0\r\n{AUDIO}{VIDEO}")));
    let again = VIDEO.replace("a=mid:v", "a=mid:w").replace("42e01f", "42e033");
    assert!(alone(&format!("{AUDIO}{VIDEO}{again}")));
    assert!(is_unambiguous(&vec![format!("{AUDIO}{VIDEO}")], &format!("{AUDIO}{VIDEO}")));
}

#[test]
fn two_meanings_for_a_payload_type_are_ambiguous() {
    for (from, to) in [
        ("96", "111"),
        ("97", "111"),
        ("rtpmap:97 rtx", "rtpmap:96 rtx"),
        ("apt=96", "apt=96;apt=98"),
    ] {
        assert!(!alone(&format!("{AUDIO}{}", VIDEO.replace(from, to))), "{from} {to}");
    }
    for (from, to) in [
        ("packetization-mode=1", "packetization-mode=0"),
        ("42e01f", "4d001f"),
        ("42e01f", "42e01f00"),
        ("apt=96", "apt=98"),
    ] {
        let other = VIDEO.replace("a=mid:v", "a=mid:w").replace(from, to);
        assert!(!alone(&format!("{VIDEO}{other}")), "{from} {to}");
        assert!(!is_unambiguous(&vec![VIDEO.to_string()], &other), "{from} {to}");
        assert!(is_unambiguous(&vec![AUDIO.to_string()], &other.replace(to, from)));
    }
}

#[test]
fn payload_types_are_free_where_the_peer_only_sends() {
    let sent = format!("{AUDIO}{}", VIDEO.replace("96", "111")).replace("a=recvonly", "a=sendonly");
    assert!(alone(&sent));
    assert!(!alone(&sent.replacen("a=sendonly", "a=inactive", 1)));
    assert!(!alone(&sent.replacen("a=sendonly\r\n", "", 1)));
    assert!(!alone(&sent.replacen("a=sendonly", "a=sendonly\r\na=recvonly", 1)));
    assert!(!is_unambiguous(&vec![sent], AUDIO));
}

#[test]
fn two_lines_with_one_identity_are_ambiguous() {
    let video = VIDEO.replace("a=mid:v", "a=mid:a");
    assert!(!alone(&format!("{AUDIO}{video}")));
    assert!(is_unambiguous(&vec![AUDIO.to_string()], &video));
    assert!(!alone(&format!("{AUDIO}{video}").replace("a=recvonly", "a=sendonly")));
}

#[test]
fn line_that_runs_on_is_ambiguous() {
    assert!(alone(&format!("{AUDIO}a=ssrc:1 cname:x\r\nb=AS:100\r\n")));
    assert!(!alone(&format!("{AUDIO}a=ssrc:1 cname\r\n")));
    assert!(!alone(&format!("{AUDIO}b=AS\r\n")));
}

#[test]
fn order_and_defaults_of_parameters_do_not_matter() {
    let turned = VIDEO.replace(
        "packetization-mode=1;profile-level-id=42e01f",
        "profile-level-id=42e01f;level-asymmetry-allowed=1;packetization-mode=1",
    );
    assert!(is_unambiguous(&vec![VIDEO.to_string()], &turned));
    let bare = VIDEO.replace("a=fmtp:96 packetization-mode=1;profile-level-id=42e01f\r\n", "");
    let spelled = VIDEO.replace(
        "packetization-mode=1;profile-level-id=42e01f",
        "packetization-mode=0;profile-level-id=42001f",
    );
    assert!(is_unambiguous(&vec![bare.clone()], &spelled));
    assert!(!is_unambiguous(&vec![bare], VIDEO));
}

#[test]
fn codecs_that_are_never_configured_do_not_count() {
    let other = "m=video 9 UDP/TLS/RTP/SAVPF 111\r\na=mid:v\r\na=recvonly\r\na=rtpmap:111 VP8/90000\r\n";
    assert!(alone(&format!("{AUDIO}{other}")));
    assert!(!alone(&format!("{AUDIO}{}", other.replace("VP8", "H265"))));
}

#[test]
fn offer_that_the_session_refuses_does_not_count() {
    let (_, offer, _) = exchange();
    let mut receiver = Publisher::new_receiver().unwrap();
    assert!(receiver.accept_offer(&offer).is_ok());
    let receiving = offer.replace("a=sendonly", "a=sendrecv");
    let (audio, video) = (receiving.find("m=audio").unwrap(), receiving.find("m=video").unwrap());
    let turned = format!(
        "{}{}{}a=rtpmap:100 H265/90000\r\n",
        &receiving[..audio],
        &receiving[video..],
        &receiving[audio..video],
    );
    let refusal = receiver.accept_offer(&turned).unwrap_err();
    assert_ne!(refusal, "the session description is ambiguous");
    let other = format!("{receiving}a=rtpmap:100 H264/90000\r\n");
    assert!(receiver.accept_offer(&other).is_ok());
    assert_eq!(receiver.accept_offer(&turned), Err("the session description is ambiguous".to_string()));
}

/// An answer whose only line maps two payload types to one H.264 profile, the
/// first of them the default of another.
fn crossed(answer: &str) -> String {
    let mapped = ["a=rtpmap:", "a=fmtp:", "a=rtcp-fb:"];
    let mut text = String::new();
    for line in answer.lines() {
        if line.starts_with("m=video") {
            text += "m=video 9 UDP/TLS/RTP/SAVPF 127 96\r\n";
        } else if !mapped.iter().any(|start| line.starts_with(start)) {
            text += line;
            text += "\r\n";
        }
    }
    for payload_type in [127, 96] {
        text += &format!(
            "a=rtpmap:{payload_type} H264/90000\r\na=fmtp:{payload_type} packetization-mode=1;profile-level-id=42e01f\r\n"
        );
    }
    text
}

#[test]
fn frames_are_packed_before_the_payload_types_change() {
    let mut publisher = Publisher::new(None, Some(Codec::H264)).unwrap();
    let mut receiver = Publisher::new_receiver().unwrap();
    let offer = publisher.create_offer().unwrap();
    let answer = crossed(&receiver.accept_offer(&offer).unwrap());
    assert_eq!(publisher.accept_answer(&answer), Ok(()));
    for _ in 0..3 {
        assert_eq!(publisher.send(Codec::H264, 90_000, &[0, 0, 0, 2, 0x65, 0x01]), Ok(()));
    }
    let group = format!("a=group:BUNDLE {}", identities(&answer)[0]);
    let second = answer.replace(&group, &format!("{group} new"));
    let line = &answer[answer.find("m=video").unwrap()..];
    let kept: String = line
        .lines()
        .filter(|line| {
            let dropped = ["a=rtpmap:", "a=fmtp:", "a=mid:", "a=ssrc", "a=candidate", "a=end-of"];
            !dropped.iter().any(|start| line.starts_with(start))
        })
        .map(|line| format!("{line}\r\n"))
        .collect();
    let added = kept.replace("127 96", "97");
    let both = format!(
        "{second}{added}a=mid:new\r\na=rtpmap:97 H264/90000\r\na=fmtp:97 packetization-mode=1;profile-level-id=42001f\r\n"
    );
    assert!(publisher.accept_offer(&both).is_ok());
    assert_eq!(publisher.handle_timeout(), Ok(()));
}

#[test]
fn long_user_fragment_is_refused() {
    let (mut publisher, offer, answer) = exchange();
    let start = "a=ice-ufrag:";
    let fragment = answer.lines().find_map(|line| line.strip_prefix(start)).unwrap().to_string();
    let stretched = |length: usize| {
        answer.replace(&format!("{start}{fragment}"), &format!("{start}{}", "u".repeat(length)))
    };
    let refusal = "the ICE user fragment is too long".to_string();
    assert_eq!(find_fault(&Vec::new(), &stretched(112)), Some(refusal.clone()));
    assert_eq!(find_fault(&Vec::new(), &stretched(111)), None);
    assert_eq!(publisher.accept_answer(&stretched(112)), Err(refusal.clone()));
    let mut receiver = Publisher::new_receiver().unwrap();
    let fragment = offer.lines().find_map(|line| line.strip_prefix(start)).unwrap().to_string();
    let long = offer.replace(&format!("{start}{fragment}"), &format!("{start}{}", "u".repeat(2000)));
    assert_eq!(receiver.accept_offer(&long), Err(refusal));
}

#[test]
fn longest_user_fragment_fits_a_message() {
    let mut publisher = Publisher::new(Some(Codec::Opus), None).unwrap();
    let mut receiver = Publisher::new_receiver().unwrap();
    publisher.add_local_candidate("127.0.0.1:40000").unwrap();
    receiver.add_local_candidate("127.0.0.1:40001").unwrap();
    let answer = receiver.accept_offer(&publisher.create_offer().unwrap()).unwrap();
    let start = "a=ice-ufrag:";
    let fragment = answer.lines().find_map(|line| line.strip_prefix(start)).unwrap().to_string();
    let longest = answer.replace(&fragment, &"u".repeat(111));
    assert_eq!(publisher.accept_answer(&longest), Ok(()));
    for second in 1..5 {
        assert_eq!(publisher.handle_timeout_at(second * 1_000_000_000), Ok(()));
    }
    let request = publisher.poll_transmit().unwrap();
    assert_eq!(request.destination, "127.0.0.1:40001");
    assert!(request.contents.len() > 111);
}
