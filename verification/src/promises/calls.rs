//! Which calls may be made: all of them, at any time.
use str0m::change::{SdpAnswer, SdpOffer};
use str0m::Candidate;
use vstd::prelude::*;
use vstd::string::StringSliceAdditionalSpecFns;

use crate::annex_b;
use crate::codec;
use crate::codec::Codec;
use crate::description;
use crate::hex;
use crate::model::Transmit;
use crate::packet;
use crate::peer;
use crate::peer::{AddressArgument, OwnedTransmit, WagaPeer};
use crate::publisher;
use crate::publisher::Publisher;
use crate::session;
use crate::session::{Frame, IceState, Payload, Report};
use crate::text;

verus! {

/// A publisher or a receiver may be made of anything.
pub proof fn anything_may_be_made(
    audio: Option<Codec>,
    video: Option<Codec>,
    initial_bitrate: Option<u64>,
    desired_bitrate: Option<u64>,
    number: i32,
    other: i32,
    bitrate: u64,
    target: u64,
    made: Result<Publisher, String>,
    known_as: &String,
)
    ensures
        call_requires(Publisher::new, (audio, video)),
        call_requires(Publisher::new_with_bwe, (audio, video, initial_bitrate, desired_bitrate)),
        call_requires(Publisher::new_receiver, ()),
        call_requires(publisher::check_codec, (audio, known_as)),
        call_requires(peer::create_peer, (made,)),
        call_requires(peer::waga_peer_create, (number, other)),
        call_requires(peer::waga_peer_create_with_bwe, (number, other, bitrate, target)),
        call_requires(peer::waga_receiver_create, ()),
{
}

/// Every operation on a publisher may be called in any state and with any
/// arguments: frames and datagrams of any length, any texts, and times in any
/// order.
pub proof fn publisher_takes_any_call(
    p: &mut Publisher,
    q: &Publisher,
    a: &str,
    b: &str,
    data: &[u8],
    now: u64,
    codec: Codec,
    media_time: u64,
    bitrate: u64,
    path: Option<u64>,
    made: Result<Candidate, String>,
    answer: Result<SdpAnswer, String>,
    offer: Result<SdpOffer, String>,
    result: Option<Result<(), String>>,
    report: Report,
    state: IceState,
    frame: Frame,
)
    ensures
        call_requires(Publisher::add_local_candidate, (p, a)),
        call_requires(Publisher::add_server_reflexive_candidate, (p, a, b)),
        call_requires(Publisher::add_candidate, (p, a, made)),
        call_requires(Publisher::remove_local_candidate, (p, a)),
        call_requires(Publisher::create_offer, (p,)),
        call_requires(Publisher::create_receive_offer, (p,)),
        call_requires(Publisher::accept_answer, (p, a)),
        call_requires(Publisher::accept_parsed_answer, (p, answer)),
        call_requires(Publisher::accept_offer, (p, a)),
        call_requires(Publisher::accept_parsed_offer, (p, offer)),
        call_requires(Publisher::receive, (p, a, b, data)),
        call_requires(Publisher::receive_at, (p, a, b, data, now)),
        call_requires(Publisher::handle_timeout, (p,)),
        call_requires(Publisher::handle_timeout_at, (p, now)),
        call_requires(Publisher::timeout_after, (p,)),
        call_requires(Publisher::timeout_after_at, (q, now)),
        call_requires(Publisher::send, (p, codec, media_time, data)),
        call_requires(Publisher::send_at, (p, codec, media_time, data, now)),
        call_requires(Publisher::set_desired_bitrate, (p, bitrate)),
        call_requires(Publisher::request_path_probe, (p,)),
        call_requires(Publisher::restart_on_path_change, (p,)),
        call_requires(Publisher::set_egress_path, (p, now, path)),
        call_requires(Publisher::poll_transmit, (p,)),
        call_requires(Publisher::poll_event, (p,)),
        call_requires(Publisher::poll_media, (p,)),
        call_requires(Publisher::poll_bitrate_estimate, (p,)),
        call_requires(Publisher::poll_request, (p,)),
        call_requires(Publisher::rtc_mut, (p,)),
        call_requires(Publisher::estimates_bandwidth, (q,)),
        call_requires(Publisher::disconnect_deadline, (q,)),
        call_requires(Publisher::disconnect_reported, (q,)),
        call_requires(Publisher::local_candidates, (q,)),
        call_requires(Publisher::drain, (p,)),
        call_requires(Publisher::drain_at, (p, now)),
        call_requires(Publisher::drain_after, (p, result, now)),
        call_requires(Publisher::take_report, (p, report, now)),
        call_requires(Publisher::ice_state_changed, (p, state, now)),
        call_requires(Publisher::take_frame, (p, frame)),
{
}

/// So may every function of the C boundary, with or without a peer. Where there
/// are bytes, the length is theirs.
pub proof fn boundary_takes_any_call(
    p: Option<&mut WagaPeer>,
    q: Option<&WagaPeer>,
    w: &mut WagaPeer,
    v: &WagaPeer,
    a: AddressArgument,
    b: AddressArgument,
    data: Option<&[u8]>,
    length: usize,
    text: &str,
    error: String,
    number: i32,
    value: u64,
    other: u64,
    wanted: bool,
    span: u128,
    transmit: Transmit,
)
    requires
        data matches Some(data) ==> data@.len() == length,
    ensures
        call_requires(peer::to_c_text, (text,)),
        call_requires(OwnedTransmit::from_transmit, (transmit,)),
        call_requires(WagaPeer::publisher_mut, (w,)),
        call_requires(WagaPeer::transmit, (v,)),
        call_requires(WagaPeer::media, (v,)),
        call_requires(peer::text, (data,)),
        call_requires(peer::bytes, (data, length)),
        call_requires(peer::address, (a, text)),
        call_requires(peer::waga_peer_last_error, (q,)),
        call_requires(peer::waga_peer_fail, (p, error)),
        call_requires(peer::waga_peer_add_local_candidate, (p, a)),
        call_requires(peer::waga_peer_remove_local_candidate, (p, a)),
        call_requires(peer::waga_peer_add_server_reflexive_candidate, (p, a, b)),
        call_requires(peer::waga_peer_create_offer, (p,)),
        call_requires(peer::waga_peer_create_receive_offer, (p,)),
        call_requires(peer::waga_peer_accept_offer, (p, data)),
        call_requires(peer::waga_peer_accept_answer, (p, data)),
        call_requires(peer::waga_peer_receive, (p, a, b, data, length)),
        call_requires(peer::waga_peer_handle_timeout, (p,)),
        call_requires(peer::whole_millis, (span,)),
        call_requires(peer::waga_peer_timeout_millis_at, (q, value)),
        call_requires(peer::waga_peer_timeout_millis, (p,)),
        call_requires(peer::waga_peer_send, (p, number, value, data, length)),
        call_requires(peer::waga_peer_set_desired_bitrate, (p, value)),
        call_requires(peer::waga_peer_request_path_probe, (p,)),
        call_requires(peer::waga_peer_restart_on_path_change, (p,)),
        call_requires(peer::waga_peer_poll_transmit, (p, wanted)),
        call_requires(peer::waga_peer_last_transmit_sequence, (q,)),
        call_requires(peer::waga_peer_set_egress_path, (p, value, other)),
        call_requires(peer::waga_peer_poll_event, (p,)),
        call_requires(peer::waga_peer_poll_media, (p, wanted)),
        call_requires(peer::waga_peer_poll_bitrate_estimate, (p, wanted)),
{
}

/// And so may what converts and classifies. Only hexadecimal text that is to be
/// read must be some, as bytes that were written always are.
pub proof fn conversions_take_any_value(
    data: &[u8],
    codec: Codec,
    name: &String,
    number: i32,
    bitrate: u64,
    time: u128,
    payloads: &Vec<Payload>,
    earlier: &Vec<String>,
    description: &str,
    digits: &str,
)
    requires
        forall|i: int|
            0 <= i < digits@.len() ==> ('0' <= #[trigger] digits@[i] <= '9') || ('a' <= digits@[i]
                <= 'f'),
    ensures
        call_requires(annex_b::avcc_to_annex_b, (data,)),
        call_requires(annex_b::access_unit, (data,)),
        call_requires(Codec::is_audio, (codec,)),
        call_requires(Codec::clock_rate, (codec,)),
        call_requires(Codec::name, (codec,)),
        call_requires(Codec::from_name, (name,)),
        call_requires(codec::encode_codec, (codec,)),
        call_requires(codec::decode_codec, (number,)),
        call_requires(text::integer_text, (number,)),
        call_requires(hex::hex, (data,)),
        call_requires(hex::unhex, (digits,)),
        call_requires(packet::is_rtp, (data,)),
        call_requires(session::attainable, (bitrate,)),
        call_requires(session::nanos, (time,)),
        call_requires(publisher::find_payload, (payloads, codec)),
        call_requires(description::find_fault, (earlier, description)),
        call_requires(description::is_unambiguous, (earlier, description)),
        call_requires(description::any_opens_channel, (earlier,)),
{
    let bytes = digits.spec_bytes();
    vstd::utf8::is_ascii_chars_encode_utf8(digits@);
    assert(bytes == vstd::utf8::encode_utf8(digits@));
    assert forall|i: int| 0 <= i < bytes.len() / 2 implies hex::is_digit_pair(
        #[trigger] bytes[2 * i],
        bytes[2 * i + 1],
    ) by {
        assert(digits@[2 * i] as u8 == bytes[2 * i]);
        assert(digits@[2 * i + 1] as u8 == bytes[2 * i + 1]);
    }
}

} // verus!
