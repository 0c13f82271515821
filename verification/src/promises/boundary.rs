//! The functions of the C boundary.
//!
//! Each does to the publisher behind the boundary what the publisher's own
//! operation does, and keeps the text of the last error. Without a peer it does
//! nothing.
use str0m::change::{SdpAnswer, SdpOffer};
use vstd::prelude::*;

use crate::codec;
use crate::codec::Codec;
use crate::model;
use crate::model::{EngineRequest, Media, PeerEvent, PublisherState, Transmit};
use crate::peer;
use crate::peer::{AddressArgument, OwnedTransmit, PeerState, WagaMedia, WagaPeer};
use crate::promises;
use crate::promises::reads_clock;
use crate::publisher::Publisher;
use crate::session;
use crate::session::Exchange;
use crate::text;

verus! {

/// Text as C reads it: its bytes and a zero, or a zero alone where the text holds
/// one.
pub open spec fn c_string(text: Seq<char>) -> Seq<u8> {
    let bytes = vstd::utf8::encode_utf8(text);
    if exists|i: int| 0 <= i < bytes.len() && bytes[i] == 0 {
        seq![0u8]
    } else {
        bytes + seq![0u8]
    }
}

/// Whether the peer differs in its publisher and its last error alone: success
/// keeps the error of before, and failure replaces it by its own.
pub open spec fn tells(pre: PeerState, post: PeerState, error: Option<Seq<char>>, ok: bool) -> bool {
    &&& ok <==> error is None
    &&& error is None ==> post.last_error == pre.last_error
    &&& error matches Some(text) ==> post.last_error == c_string(text)
    &&& post.transmit == pre.transmit
    &&& post.media == pre.media
}

/// The error of an outcome, if it is one.
pub open spec fn error_of<T>(r: Result<T, String>) -> Option<Seq<char>> {
    match r {
        Ok(_) => None,
        Err(error) => Some(error@),
    }
}

/// Noting an outcome is telling it.
proof fn noting_tells(pre: PeerState, post: PeerState, error: Option<Seq<char>>, ok: bool)
    requires
        peer::noted(pre, post, error, ok),
    ensures
        tells(pre, post, error, ok),
{
    if let Some(text) = error {
        c_text_is_c_string(text);
    }
}

/// Text that C reads ends in a zero.
proof fn c_text_is_c_string(text: Seq<char>)
    ensures
        peer::c_text(text) == c_string(text),
{
    let bytes = vstd::utf8::encode_utf8(text);
    assert(bytes.push(0) =~= bytes + seq![0u8]);
    if bytes.contains(0) {
        let i = choose|i: int| 0 <= i < bytes.len() && bytes[i] == 0;
        assert(bytes[i] == 0);
    }
    if exists|i: int| 0 <= i < bytes.len() && bytes[i] == 0 {
        let i = choose|i: int| 0 <= i < bytes.len() && bytes[i] == 0;
        assert(bytes.contains(bytes[i]));
    }
}

/// Text is handed to C as its bytes and a zero, which is the only one.
pub proof fn text_is_handed_to_c(text: &str, r: Vec<u8>)
    requires
        call_ensures(peer::to_c_text, (text,), r),
    ensures
        r@ == c_string(text@),
        r@.len() > 0,
        r@.last() == 0,
        forall|i: int| 0 <= i < r@.len() - 1 ==> #[trigger] r@[i] != 0,
{
    c_text_is_c_string(text@);
}

/// A C string is read as the text that its bytes encode. A null pointer and bytes
/// that encode none are errors.
pub proof fn text_is_read_from_c(value: Option<&[u8]>, r: Result<String, String>)
    requires
        call_ensures(peer::text, (value,), r),
    ensures
        value is None ==> (r matches Err(error) && error@ == "string is null"@),
        value matches Some(bytes) ==> (r is Ok <==> vstd::utf8::valid_utf8(bytes@)),
        value matches Some(bytes) ==> (r matches Ok(text) ==> vstd::utf8::encode_utf8(text@)
            == bytes@),
        value matches Some(bytes) ==> (r matches Err(error) ==> error@ == peer::utf8_fault(bytes@)),
{
    if let Some(bytes) = value {
        if vstd::utf8::valid_utf8(bytes@) {
            vstd::utf8::decode_utf8_encode_utf8(bytes@);
        }
    }
}

/// Bytes are read as they are; no bytes need no pointer.
pub proof fn bytes_are_read_from_c(
    data: Option<&[u8]>,
    length: usize,
    r: Result<&[u8], String>,
)
    requires
        data matches Some(data) ==> data@.len() == length,
        call_ensures(peer::bytes, (data, length), r),
    ensures
        data matches Some(data) ==> (r matches Ok(given) && given@ == data@),
        data is None && length == 0 ==> (r matches Ok(given) && given@.len() == 0),
        data is None && length > 0 ==> (r matches Err(error) && error@ == "data is null"@),
{
    if let Some(data) = data {
        assert(data@.len() == 0 ==> data@ =~= Seq::empty());
    }
}

/// An address is passed on as it is. One that is none is an error, and one that
/// is malformed is told what it was for.
pub proof fn address_is_passed_on(argument: AddressArgument, what: &str, r: Result<String, String>)
    requires
        call_ensures(peer::address, (argument, what), r),
    ensures
        match argument {
            AddressArgument::Unreadable(reason) => r matches Err(error) && error@ == reason@,
            AddressArgument::Malformed(reason) => r matches Err(error) && error@ == what@ + reason@,
            AddressArgument::Valid(address) => r matches Ok(given) && given@ == address@,
        },
{
}

/// A datagram is handed to C whole, with its addresses as C reads them.
pub proof fn datagram_is_handed_to_c(value: Transmit, r: OwnedTransmit)
    requires
        call_ensures(OwnedTransmit::from_transmit, (value,), r),
    ensures
        r.source@ == c_string(value.source@),
        r.destination@ == c_string(value.destination@),
        r.data@ == value.contents@,
        r.transport_sequence == value.transport_sequence,
{
    c_text_is_c_string(value.source@);
    c_text_is_c_string(value.destination@);
    assert(r@.source == r.source@);
}

/// A peer is made around a publisher that was made, and around no other.
pub proof fn peer_is_made_around_a_publisher(made: Result<Publisher, String>, r: Option<WagaPeer>)
    requires
        call_ensures(peer::create_peer, (made,), r),
    ensures
        match (made, r) {
            (Ok(p), Some(peer)) => {
                &&& peer@.publisher == p@
                &&& peer@.last_error =~= seq![0u8]
                &&& peer@.transmit is None
                &&& peer@.media is None
            },
            (Err(_), None) => true,
            _ => false,
        },
{
}

/// Without a peer nothing is done, and nothing is told.
pub proof fn no_peer_does_nothing(
    address: AddressArgument,
    other: AddressArgument,
    data: Option<&[u8]>,
    length: usize,
    error: String,
    number: i32,
    value: u64,
    flags: Seq<bool>,
    texts: Seq<Option<String>>,
    times: Seq<u64>,
    event: i32,
    media: Option<WagaMedia>,
    estimate: Option<u64>,
    last: Option<&Vec<u8>>,
)
    requires
        flags.len() == 12,
        texts.len() == 3,
        times.len() == 3,
        call_ensures(peer::waga_peer_fail, (None::<&mut WagaPeer>, error), flags[0]),
        call_ensures(
            peer::waga_peer_add_local_candidate,
            (None::<&mut WagaPeer>, address),
            flags[1],
        ),
        call_ensures(
            peer::waga_peer_remove_local_candidate,
            (None::<&mut WagaPeer>, address),
            flags[2],
        ),
        call_ensures(
            peer::waga_peer_add_server_reflexive_candidate,
            (None::<&mut WagaPeer>, address, other),
            flags[3],
        ),
        call_ensures(peer::waga_peer_accept_answer, (None::<&mut WagaPeer>, data), flags[4]),
        call_ensures(
            peer::waga_peer_receive,
            (None::<&mut WagaPeer>, address, other, data, length),
            flags[5],
        ),
        call_ensures(peer::waga_peer_handle_timeout, (None::<&mut WagaPeer>,), flags[6]),
        call_ensures(
            peer::waga_peer_send,
            (None::<&mut WagaPeer>, number, value, data, length),
            flags[7],
        ),
        call_ensures(
            peer::waga_peer_set_desired_bitrate,
            (None::<&mut WagaPeer>, value),
            flags[8],
        ),
        call_ensures(peer::waga_peer_request_path_probe, (None::<&mut WagaPeer>,), flags[9]),
        call_ensures(peer::waga_peer_restart_on_path_change, (None::<&mut WagaPeer>,), flags[10]),
        call_ensures(peer::waga_peer_poll_transmit, (None::<&mut WagaPeer>, true), flags[11]),
        call_ensures(peer::waga_peer_create_offer, (None::<&mut WagaPeer>,), texts[0]),
        call_ensures(peer::waga_peer_create_receive_offer, (None::<&mut WagaPeer>,), texts[1]),
        call_ensures(peer::waga_peer_accept_offer, (None::<&mut WagaPeer>, data), texts[2]),
        call_ensures(peer::waga_peer_timeout_millis_at, (None::<&WagaPeer>, value), times[0]),
        call_ensures(peer::waga_peer_timeout_millis, (None::<&mut WagaPeer>,), times[1]),
        call_ensures(peer::waga_peer_last_transmit_sequence, (None::<&WagaPeer>,), times[2]),
        call_ensures(peer::waga_peer_poll_event, (None::<&mut WagaPeer>,), event),
        call_ensures(peer::waga_peer_poll_media, (None::<&mut WagaPeer>, true), media),
        call_ensures(
            peer::waga_peer_poll_bitrate_estimate,
            (None::<&mut WagaPeer>, true),
            estimate,
        ),
        call_ensures(peer::waga_peer_last_error, (None::<&WagaPeer>,), last),
    ensures
        forall|i: int| 0 <= i < 12 ==> !#[trigger] flags[i],
        forall|i: int| 0 <= i < 3 ==> (#[trigger] texts[i]) is None,
        forall|i: int| 0 <= i < 3 ==> #[trigger] times[i] == u64::MAX,
        event == 0,
        media is None,
        estimate is None,
        last is None,
{
}

/// The last error is the one that was kept, and an error that the host found is
/// kept like any other.
pub proof fn last_error_is_kept(
    p: &WagaPeer,
    r: Option<&Vec<u8>>,
    q: &mut WagaPeer,
    error: String,
    ok: bool,
)
    requires
        call_ensures(peer::waga_peer_last_error, (Some(p),), r),
        call_ensures(peer::waga_peer_fail, (Some(q), error), ok),
    ensures
        r matches Some(text) && text@ == p@.last_error,
        tells(old(q)@, final(q)@, Some(error@), ok),
        final(q)@.publisher == old(q)@.publisher,
{
    noting_tells(old(q)@, final(q)@, Some(error@), ok);
}

/// What was handed out last, and the publisher, are those of the peer.
pub proof fn peer_shows_what_it_holds(
    p: &WagaPeer,
    transmit: &Option<OwnedTransmit>,
    media: &Option<Media>,
    q: &mut WagaPeer,
    inner: &mut Publisher,
)
    requires
        call_ensures(WagaPeer::transmit, (p,), transmit),
        call_ensures(WagaPeer::media, (p,), media),
        call_ensures(WagaPeer::publisher_mut, (q,), inner),
    ensures
        transmit is Some <==> p@.transmit is Some,
        transmit matches Some(owned) ==> {
            &&& owned.source@ == p@.transmit->0.source
            &&& owned.destination@ == p@.transmit->0.destination
            &&& owned.data@ == p@.transmit->0.data
            &&& owned.transport_sequence == p@.transmit->0.transport_sequence
        },
        media is Some <==> p@.media is Some,
        media matches Some(held) ==> {
            &&& held.codec == p@.media->0.codec
            &&& held.media_time == p@.media->0.media_time
            &&& held.clock_rate == p@.media->0.clock_rate
            &&& held.contents@ == p@.media->0.contents
        },
        old(inner)@ == old(q)@.publisher,
        final(q)@ == (PeerState { publisher: final(inner)@, ..old(q)@ }),
{
}

/// An address that is none is told, and the publisher is left alone: the first
/// of several that is none, and what it was for.
pub proof fn bad_address_is_refused(
    p: &mut WagaPeer,
    bad: AddressArgument,
    added: bool,
    q: &mut WagaPeer,
    removed: bool,
    s: &mut WagaPeer,
    other: AddressArgument,
    reflexive: bool,
    t: &mut WagaPeer,
    data: Option<&[u8]>,
    length: usize,
    received: bool,
)
    requires
        !(bad is Valid),
        data matches Some(data) ==> data@.len() == length,
        call_ensures(peer::waga_peer_add_local_candidate, (Some(p), bad), added),
        call_ensures(peer::waga_peer_remove_local_candidate, (Some(q), bad), removed),
        call_ensures(
            peer::waga_peer_add_server_reflexive_candidate,
            (Some(s), bad, other),
            reflexive,
        ),
        call_ensures(peer::waga_peer_receive, (Some(t), bad, other, data, length), received),
    ensures
        ({
            let reason = match bad {
                AddressArgument::Unreadable(reason) => reason@,
                AddressArgument::Malformed(reason) => reason@,
                AddressArgument::Valid(address) => address@,
            };
            let told = |what: Seq<char>|
                if bad is Malformed {
                    what + reason
                } else {
                    reason
                };
            &&& tells(old(p)@, final(p)@, Some(told("invalid candidate: "@)), added)
            &&& final(p)@.publisher == old(p)@.publisher
            &&& tells(old(q)@, final(q)@, Some(told("invalid candidate: "@)), removed)
            &&& final(q)@.publisher == old(q)@.publisher
            &&& tells(
                old(s)@,
                final(s)@,
                Some(told("invalid server-reflexive candidate: "@)),
                reflexive,
            )
            &&& final(s)@.publisher == old(s)@.publisher
            &&& tells(old(t)@, final(t)@, Some(told("invalid source: "@)), received)
            &&& final(t)@.publisher == old(t)@.publisher
        }),
{
    let candidate = peer::address_of(bad, "invalid candidate: "@)->Err_0;
    noting_tells(old(p)@, final(p)@, Some(candidate), added);
    noting_tells(old(q)@, final(q)@, Some(candidate), removed);
    let seen = peer::address_of(bad, "invalid server-reflexive candidate: "@)->Err_0;
    noting_tells(old(s)@, final(s)@, Some(seen), reflexive);
    let source = peer::address_of(bad, "invalid source: "@)->Err_0;
    noting_tells(old(t)@, final(t)@, Some(source), received);
}

/// So is the second, where the first is an address.
pub proof fn bad_second_address_is_refused(
    good: String,
    bad: AddressArgument,
    p: &mut WagaPeer,
    reflexive: bool,
    q: &mut WagaPeer,
    data: Option<&[u8]>,
    length: usize,
    received: bool,
)
    requires
        !(bad is Valid),
        data matches Some(data) ==> data@.len() == length,
        call_ensures(
            peer::waga_peer_add_server_reflexive_candidate,
            (Some(p), AddressArgument::Valid(good), bad),
            reflexive,
        ),
        call_ensures(
            peer::waga_peer_receive,
            (Some(q), AddressArgument::Valid(good), bad, data, length),
            received,
        ),
    ensures
        ({
            let reason = match bad {
                AddressArgument::Unreadable(reason) => reason@,
                AddressArgument::Malformed(reason) => reason@,
                AddressArgument::Valid(address) => address@,
            };
            let told = |what: Seq<char>|
                if bad is Malformed {
                    what + reason
                } else {
                    reason
                };
            &&& tells(old(p)@, final(p)@, Some(told("invalid base candidate: "@)), reflexive)
            &&& final(p)@.publisher == old(p)@.publisher
            &&& tells(old(q)@, final(q)@, Some(told("invalid destination: "@)), received)
            &&& final(q)@.publisher == old(q)@.publisher
        }),
{
    let base = peer::address_of(bad, "invalid base candidate: "@)->Err_0;
    noting_tells(old(p)@, final(p)@, Some(base), reflexive);
    let destination = peer::address_of(bad, "invalid destination: "@)->Err_0;
    noting_tells(old(q)@, final(q)@, Some(destination), received);
}

/// A host candidate is added to the publisher.
pub proof fn local_candidate_is_added(
    p: &mut WagaPeer,
    address: String,
    ok: bool,
)
    requires
        call_ensures(
            peer::waga_peer_add_local_candidate,
            (
                Some(p),
                AddressArgument::Valid(address),
            ),
            ok,
        ),
    ensures
        exists|read: PublisherState, now: u64, r: Result<(), String>| #[trigger]
            model::candidate_added(
                read,
                final(p)@.publisher,
                address@,
                session::host_candidate_of(address@),
                now,
                r,
            ) && reads_clock(old(p)@.publisher, read, now) && tells(
                old(p)@,
                final(p)@,
                error_of(r),
                ok,
            ),
{
    let (reading, r) = choose|reading: u128, r: Result<(), String>| #[trigger]
        model::candidate_added(
            old(p)@.publisher.at(reading),
            final(p)@.publisher,
            address@,
            session::host_candidate_of(address@),
            session::spec_nanos(reading),
            r,
        ) && peer::noted(old(p)@, final(p)@, peer::fault(r), ok);
    promises::clock_is_read(old(p)@.publisher, reading);
    noting_tells(old(p)@, final(p)@, error_of(r), ok);
    let read = old(p)@.publisher.at(reading);
    let now = session::spec_nanos(reading);
    assert(model::candidate_added(
        read,
        final(p)@.publisher,
        address@,
        session::host_candidate_of(address@),
        now,
        r,
    ));
}

/// A server-reflexive candidate is added to the publisher, under the local
/// address.
pub proof fn reflexive_candidate_is_added(
    p: &mut WagaPeer,
    seen: String,
    base: String,
    ok: bool,
)
    requires
        call_ensures(
            peer::waga_peer_add_server_reflexive_candidate,
            (
                Some(p),
                AddressArgument::Valid(seen),
                AddressArgument::Valid(base),
            ),
            ok,
        ),
    ensures
        exists|read: PublisherState, now: u64, r: Result<(), String>| #[trigger]
            model::candidate_added(
                read,
                final(p)@.publisher,
                base@,
                session::reflexive_candidate_of(seen@, base@),
                now,
                r,
            ) && reads_clock(old(p)@.publisher, read, now) && tells(
                old(p)@,
                final(p)@,
                error_of(r),
                ok,
            ),
{
    let (reading, r) = choose|reading: u128, r: Result<(), String>| #[trigger]
        model::candidate_added(
            old(p)@.publisher.at(reading),
            final(p)@.publisher,
            base@,
            session::reflexive_candidate_of(seen@, base@),
            session::spec_nanos(reading),
            r,
        ) && peer::noted(old(p)@, final(p)@, peer::fault(r), ok);
    promises::clock_is_read(old(p)@.publisher, reading);
    noting_tells(old(p)@, final(p)@, error_of(r), ok);
    let read = old(p)@.publisher.at(reading);
    let now = session::spec_nanos(reading);
    assert(model::candidate_added(
        read,
        final(p)@.publisher,
        base@,
        session::reflexive_candidate_of(seen@, base@),
        now,
        r,
    ));
}

/// An interface is withdrawn from the publisher.
pub proof fn interface_is_withdrawn(
    p: &mut WagaPeer,
    address: String,
    ok: bool,
)
    requires
        call_ensures(
            peer::waga_peer_remove_local_candidate,
            (
                Some(p),
                AddressArgument::Valid(address),
            ),
            ok,
        ),
    ensures
        exists|read: PublisherState, now: u64, r: Result<(), String>| #[trigger]
            model::interface_removed(
                read,
                final(p)@.publisher,
                address@,
                now,
                r,
            ) && reads_clock(old(p)@.publisher, read, now) && tells(
                old(p)@,
                final(p)@,
                error_of(r),
                ok,
            ),
{
    let (reading, r) = choose|reading: u128, r: Result<(), String>| #[trigger]
        model::interface_removed(
            old(p)@.publisher.at(reading),
            final(p)@.publisher,
            address@,
            session::spec_nanos(reading),
            r,
        ) && peer::noted(old(p)@, final(p)@, peer::fault(r), ok);
    promises::clock_is_read(old(p)@.publisher, reading);
    noting_tells(old(p)@, final(p)@, error_of(r), ok);
    let read = old(p)@.publisher.at(reading);
    let now = session::spec_nanos(reading);
    assert(model::interface_removed(
        read,
        final(p)@.publisher,
        address@,
        now,
        r,
    ));
}

/// The publisher makes an offer, whose text is given.
pub proof fn offer_is_given(
    p: &mut WagaPeer,
    sdp: Option<String>,
)
    requires
        call_ensures(peer::waga_peer_create_offer, (Some(p),), sdp),
    ensures
        exists|read: PublisherState, now: u64, r: Result<String, String>| #[trigger]
            model::offered(
                read,
                final(p)@.publisher,
                now,
                r,
            ) && reads_clock(old(p)@.publisher, read, now) && tells(
                old(p)@,
                final(p)@,
                error_of(r),
                sdp is Some,
            ) && (r matches Ok(text) ==> sdp == Some(text)),
{
    let (reading, r) = choose|reading: u128, r: Result<String, String>| #[trigger]
        model::offered(
            old(p)@.publisher.at(reading),
            final(p)@.publisher,
            session::spec_nanos(reading),
            r,
        ) && peer::noted(old(p)@, final(p)@, peer::fault(r), sdp is Some) && (r matches Ok(text) ==> sdp == Some(text));
    promises::clock_is_read(old(p)@.publisher, reading);
    noting_tells(old(p)@, final(p)@, error_of(r), sdp is Some);
    let read = old(p)@.publisher.at(reading);
    let now = session::spec_nanos(reading);
    assert(model::offered(
        read,
        final(p)@.publisher,
        now,
        r,
    ));
}

/// The publisher makes an offer to receive, whose text is given.
pub proof fn receive_offer_is_given(
    p: &mut WagaPeer,
    sdp: Option<String>,
)
    requires
        call_ensures(peer::waga_peer_create_receive_offer, (Some(p),), sdp),
    ensures
        exists|read: PublisherState, now: u64, r: Result<String, String>| #[trigger]
            model::receive_offered(
                read,
                final(p)@.publisher,
                now,
                r,
            ) && reads_clock(old(p)@.publisher, read, now) && tells(
                old(p)@,
                final(p)@,
                error_of(r),
                sdp is Some,
            ) && (r matches Ok(text) ==> sdp == Some(text)),
{
    let (reading, r) = choose|reading: u128, r: Result<String, String>| #[trigger]
        model::receive_offered(
            old(p)@.publisher.at(reading),
            final(p)@.publisher,
            session::spec_nanos(reading),
            r,
        ) && peer::noted(old(p)@, final(p)@, peer::fault(r), sdp is Some) && (r matches Ok(text) ==> sdp == Some(text));
    promises::clock_is_read(old(p)@.publisher, reading);
    noting_tells(old(p)@, final(p)@, error_of(r), sdp is Some);
    let read = old(p)@.publisher.at(reading);
    let now = session::spec_nanos(reading);
    assert(model::receive_offered(
        read,
        final(p)@.publisher,
        now,
        r,
    ));
}

/// A datagram is handed to the publisher whole.
pub proof fn datagram_is_received(
    p: &mut WagaPeer,
    source: String,
    destination: String,
    data: &[u8],
    length: usize,
    ok: bool,
)
    requires
        data@.len() == length,
        call_ensures(
            peer::waga_peer_receive,
            (
                Some(p),
                AddressArgument::Valid(source),
                AddressArgument::Valid(destination),
                Some(data),
                length,
            ),
            ok,
        ),
    ensures
        exists|read: PublisherState, now: u64, r: Result<(), String>| #[trigger]
            model::received(
                read,
                final(p)@.publisher,
                source@,
                destination@,
                data@,
                now,
                r,
            ) && reads_clock(old(p)@.publisher, read, now) && tells(
                old(p)@,
                final(p)@,
                error_of(r),
                ok,
            ),
{
    assert(data@.len() == 0 ==> data@ =~= Seq::empty());
    let (reading, r) = choose|reading: u128, r: Result<(), String>| #[trigger]
        model::received(
            old(p)@.publisher.at(reading),
            final(p)@.publisher,
            source@,
            destination@,
            data@,
            session::spec_nanos(reading),
            r,
        ) && peer::noted(old(p)@, final(p)@, peer::fault(r), ok);
    promises::clock_is_read(old(p)@.publisher, reading);
    noting_tells(old(p)@, final(p)@, error_of(r), ok);
    let read = old(p)@.publisher.at(reading);
    let now = session::spec_nanos(reading);
    assert(model::received(
        read,
        final(p)@.publisher,
        source@,
        destination@,
        data@,
        now,
        r,
    ));
}

/// The publisher is told the time.
pub proof fn time_is_told(
    p: &mut WagaPeer,
    ok: bool,
)
    requires
        call_ensures(peer::waga_peer_handle_timeout, (Some(p),), ok),
    ensures
        exists|read: PublisherState, now: u64, r: Result<(), String>| #[trigger]
            model::timed_out(
                read,
                final(p)@.publisher,
                now,
                r,
            ) && reads_clock(old(p)@.publisher, read, now) && tells(
                old(p)@,
                final(p)@,
                error_of(r),
                ok,
            ),
{
    let (reading, r) = choose|reading: u128, r: Result<(), String>| #[trigger]
        model::timed_out(
            old(p)@.publisher.at(reading),
            final(p)@.publisher,
            session::spec_nanos(reading),
            r,
        ) && peer::noted(old(p)@, final(p)@, peer::fault(r), ok);
    promises::clock_is_read(old(p)@.publisher, reading);
    noting_tells(old(p)@, final(p)@, error_of(r), ok);
    let read = old(p)@.publisher.at(reading);
    let now = session::spec_nanos(reading);
    assert(model::timed_out(
        read,
        final(p)@.publisher,
        now,
        r,
    ));
}

/// A frame is sent by the publisher whole, under the codec that the number
/// stands for.
pub proof fn frame_is_sent(
    p: &mut WagaPeer,
    codec: Codec,
    media_time: u64,
    data: &[u8],
    length: usize,
    ok: bool,
)
    requires
        data@.len() == length,
        call_ensures(
            peer::waga_peer_send,
            (
                Some(p),
                match codec {
                    Codec::H264 => 1i32,
                    Codec::H265 => 2,
                    Codec::Opus => 3,
                    Codec::Aac => 4,
                },
                media_time,
                Some(data),
                length,
            ),
            ok,
        ),
    ensures
        exists|read: PublisherState, now: u64, r: Result<(), String>| #[trigger]
            model::sent(
                read,
                final(p)@.publisher,
                codec,
                media_time,
                data@,
                now,
                r,
            ) && reads_clock(old(p)@.publisher, read, now) && tells(
                old(p)@,
                final(p)@,
                error_of(r),
                ok,
            ),
{
    assert(data@.len() == 0 ==> data@ =~= Seq::empty());
    let (reading, r) = choose|reading: u128, r: Result<(), String>| #[trigger]
        model::sent(
            old(p)@.publisher.at(reading),
            final(p)@.publisher,
            codec,
            media_time,
            data@,
            session::spec_nanos(reading),
            r,
        ) && peer::noted(old(p)@, final(p)@, peer::fault(r), ok);
    promises::clock_is_read(old(p)@.publisher, reading);
    noting_tells(old(p)@, final(p)@, error_of(r), ok);
    let read = old(p)@.publisher.at(reading);
    let now = session::spec_nanos(reading);
    assert(model::sent(
        read,
        final(p)@.publisher,
        codec,
        media_time,
        data@,
        now,
        r,
    ));
}

/// The publisher takes an answer: the text that the C string spells.
pub proof fn answer_is_taken(
    p: &mut WagaPeer,
    text: Seq<char>,
    sdp: &[u8],
    ok: bool,
)
    requires
        sdp@ == vstd::utf8::encode_utf8(text),
        call_ensures(peer::waga_peer_accept_answer, (Some(p), Some(sdp)), ok),
    ensures
        exists|read: PublisherState, now: u64, r: Result<(), String>| #[trigger]
            model::answer_read(
                read,
                final(p)@.publisher,
                text,
                now,
                r,
            ) && reads_clock(old(p)@.publisher, read, now) && tells(
                old(p)@,
                final(p)@,
                error_of(r),
                ok,
            ),
{
    vstd::utf8::encode_utf8_decode_utf8(text);
    vstd::utf8::encode_utf8_valid_utf8(text);
    let (reading, r) = choose|reading: u128, r: Result<(), String>| #[trigger]
        model::answer_read(
            old(p)@.publisher.at(reading),
            final(p)@.publisher,
            text,
            session::spec_nanos(reading),
            r,
        ) && peer::noted(old(p)@, final(p)@, peer::fault(r), ok);
    promises::clock_is_read(old(p)@.publisher, reading);
    noting_tells(old(p)@, final(p)@, error_of(r), ok);
    let read = old(p)@.publisher.at(reading);
    let now = session::spec_nanos(reading);
    assert(model::answer_read(
        read,
        final(p)@.publisher,
        text,
        now,
        r,
    ));
}

/// The publisher takes a remote offer: the text that the C string spells. Its
/// answer is given.
pub proof fn remote_offer_is_taken(
    p: &mut WagaPeer,
    text: Seq<char>,
    sdp: &[u8],
    answer: Option<String>,
)
    requires
        sdp@ == vstd::utf8::encode_utf8(text),
        call_ensures(peer::waga_peer_accept_offer, (Some(p), Some(sdp)), answer),
    ensures
        exists|read: PublisherState, now: u64, r: Result<String, String>| #[trigger]
            model::offer_read(
                read,
                final(p)@.publisher,
                text,
                now,
                r,
            ) && reads_clock(old(p)@.publisher, read, now) && tells(
                old(p)@,
                final(p)@,
                error_of(r),
                answer is Some,
            ) && (r matches Ok(text) ==> answer == Some(text)),
{
    vstd::utf8::encode_utf8_decode_utf8(text);
    vstd::utf8::encode_utf8_valid_utf8(text);
    let (reading, r) = choose|reading: u128, r: Result<String, String>| #[trigger]
        model::offer_read(
            old(p)@.publisher.at(reading),
            final(p)@.publisher,
            text,
            session::spec_nanos(reading),
            r,
        ) && peer::noted(old(p)@, final(p)@, peer::fault(r), answer is Some) && (r matches Ok(text) ==> answer == Some(text));
    promises::clock_is_read(old(p)@.publisher, reading);
    noting_tells(old(p)@, final(p)@, error_of(r), answer is Some);
    let read = old(p)@.publisher.at(reading);
    let now = session::spec_nanos(reading);
    assert(model::offer_read(
        read,
        final(p)@.publisher,
        text,
        now,
        r,
    ));
}

/// A text is read as one of the answers, or the offers, that str0m may read it as,
/// or fails where there is none, and is then taken as such.
pub proof fn text_is_taken_as_read(
    pre: PublisherState,
    post: PublisherState,
    sdp: Seq<char>,
    now: u64,
    answered: Result<(), String>,
    accepted: Result<String, String>,
)
    ensures
        model::answer_read(pre, post, sdp, now, answered) ==> exists|
            answer: Result<SdpAnswer, Seq<char>>,
        | #[trigger]
            model::answered(pre, post, answer, now, answered) && match answer {
                Ok(answer) => session::answers_read_from(sdp).contains(answer),
                Err(_) => session::answers_read_from(sdp).is_empty(),
            },
        model::offer_read(pre, post, sdp, now, accepted) ==> exists|
            offer: Result<SdpOffer, Seq<char>>,
        | #[trigger]
            model::offer_accepted(pre, post, offer, now, accepted) && match offer {
                Ok(offer) => session::offers_read_from(sdp).contains(offer),
                Err(_) => session::offers_read_from(sdp).is_empty(),
            },
{
}

/// What is no text is refused before it reaches the publisher.
pub proof fn unreadable_text_is_refused(
    p: &mut WagaPeer,
    sdp: Option<&[u8]>,
    ok: bool,
    q: &mut WagaPeer,
    answer: Option<String>,
)
    requires
        sdp matches Some(bytes) ==> !vstd::utf8::valid_utf8(bytes@),
        call_ensures(peer::waga_peer_accept_answer, (Some(p), sdp), ok),
        call_ensures(peer::waga_peer_accept_offer, (Some(q), sdp), answer),
    ensures
        ({
            let reason = match sdp {
                Some(bytes) => peer::utf8_fault(bytes@),
                None => "string is null"@,
            };
            &&& tells(old(p)@, final(p)@, Some(reason), ok)
            &&& final(p)@.publisher == old(p)@.publisher
            &&& tells(old(q)@, final(q)@, Some(reason), answer is Some)
            &&& final(q)@.publisher == old(q)@.publisher
        }),
{
    let reason = match sdp {
        Some(bytes) => peer::utf8_fault(bytes@),
        None => "string is null"@,
    };
    noting_tells(old(p)@, final(p)@, Some(reason), ok);
    noting_tells(old(q)@, final(q)@, Some(reason), answer is Some);
}

/// A frame without a known codec, and a frame or datagram whose bytes are
/// missing, are refused before they reach the publisher.
pub proof fn incomplete_call_is_refused(
    p: &mut WagaPeer,
    number: i32,
    media_time: u64,
    data: Option<&[u8]>,
    length: usize,
    sent: bool,
    q: &mut WagaPeer,
    source: String,
    destination: String,
    received: bool,
)
    requires
        length > 0,
        data matches Some(data) ==> data@.len() == length,
        call_ensures(
            peer::waga_peer_send,
            (Some(p), number, media_time, data, length),
            sent,
        ),
        call_ensures(
            peer::waga_peer_receive,
            (
                Some(q),
                AddressArgument::Valid(source),
                AddressArgument::Valid(destination),
                None::<&[u8]>,
                length,
            ),
            received,
        ),
    ensures
        number == 0 ==> tells(old(p)@, final(p)@, Some("codec is required"@), sent)
            && final(p)@.publisher == old(p)@.publisher,
        number < 0 || number > 4 ==> final(p)@.publisher == old(p)@.publisher && tells(
            old(p)@,
            final(p)@,
            Some("unknown codec "@ + text::spec_integer_text(number as int)),
            sent,
        ),
        1 <= number <= 4 && data is None ==> tells(
            old(p)@,
            final(p)@,
            Some("data is null"@),
            sent,
        ) && final(p)@.publisher == old(p)@.publisher,
        tells(old(q)@, final(q)@, Some("data is null"@), received),
        final(q)@.publisher == old(q)@.publisher,
{
    noting_tells(old(q)@, final(q)@, Some("data is null"@), received);
    if number == 0 {
        noting_tells(old(p)@, final(p)@, Some("codec is required"@), sent);
    } else if number < 0 || number > 4 {
        noting_tells(old(p)@, final(p)@, Some(codec::unknown_codec(number)), sent);
    } else if data is None {
        noting_tells(old(p)@, final(p)@, Some("data is null"@), sent);
    }
}

/// Whole milliseconds are counted, as many as 64 bits hold.
pub proof fn milliseconds_are_counted(span: u128, r: u64)
    requires
        call_ensures(peer::whole_millis, (span,), r),
    ensures
        r * 1_000_000 <= span,
        r < u64::MAX ==> span < (r + 1) * 1_000_000,
{
}

/// The milliseconds until the publisher wants to be told the time are the whole
/// ones of the time that is left: none once it has come, and the most that 64
/// bits hold where there is no such time.
pub proof fn wait_is_told_in_milliseconds(
    p: &WagaPeer,
    now: u64,
    r: u64,
    q: &mut WagaPeer,
    by_clock: u64,
)
    requires
        call_ensures(peer::waga_peer_timeout_millis_at, (Some(p), now), r),
        call_ensures(peer::waga_peer_timeout_millis, (Some(q),), by_clock),
    ensures
        match p@.publisher.next_timeout {
            Some(at) if at > now => r * 1_000_000 <= at - now < (r + 1) * 1_000_000,
            Some(_) => r == 0,
            None => r == u64::MAX,
        },
        exists|read: PublisherState, at: u64| #[trigger]
            reads_clock(old(q)@.publisher, read, at) && final(q)@ == (PeerState {
                publisher: read,
                ..old(q)@
            }) && match old(q)@.publisher.next_timeout {
                Some(due) if due > at => by_clock * 1_000_000 <= due - at < (by_clock + 1)
                    * 1_000_000,
                Some(_) => by_clock == 0,
                None => by_clock == u64::MAX,
            },
{
    let reading = choose|reading: u128|
        final(q)@ == (PeerState {
            publisher: #[trigger] old(q)@.publisher.at(reading),
            ..old(q)@
        }) && by_clock == peer::millis(
            model::time_left(old(q)@.publisher.next_timeout, session::spec_nanos(reading)),
        );
    promises::clock_is_read(old(q)@.publisher, reading);
}

/// The bit rate to aim at, a probe of the path and a fresh estimate are asked of
/// the publisher, and never fail.
pub proof fn wishes_are_passed_on(
    p: &mut WagaPeer,
    bitrate: u64,
    set: bool,
    q: &mut WagaPeer,
    probed: bool,
    s: &mut WagaPeer,
    restarted: bool,
)
    requires
        call_ensures(peer::waga_peer_set_desired_bitrate, (Some(p), bitrate), set),
        call_ensures(peer::waga_peer_request_path_probe, (Some(q),), probed),
        call_ensures(peer::waga_peer_restart_on_path_change, (Some(s),), restarted),
    ensures
        set,
        final(p)@ == (PeerState {
            publisher: PublisherState {
                exchanges: old(p)@.publisher.exchanges.push(
                    Exchange::SetDesiredBitrate(
                        if bitrate <= 5_000_000_000 {
                            bitrate
                        } else {
                            5_000_000_000
                        },
                    ),
                ),
                ..old(p)@.publisher
            },
            ..old(p)@
        }),
        probed,
        final(q)@ == (PeerState {
            publisher: PublisherState {
                requests: old(q)@.publisher.requests.push(EngineRequest::ProbePath),
                ..old(q)@.publisher
            },
            ..old(q)@
        }),
        restarted,
        final(s)@ == (PeerState {
            publisher: PublisherState {
                estimates: Seq::empty(),
                requests: old(s)@.publisher.requests.push(EngineRequest::RestartEstimate),
                ..old(s)@.publisher
            },
            ..old(s)@
        }),
{
}

/// A packet is attributed to the path of that number, or to none where the number
/// is the largest.
pub proof fn packet_is_attributed(p: &mut WagaPeer, sequence: u64, path: u64)
    requires
        call_ensures(peer::waga_peer_set_egress_path, (Some(p), sequence, path), ()),
    ensures
        final(p)@ == (PeerState {
            publisher: PublisherState {
                requests: final(p)@.publisher.requests,
                ..old(p)@.publisher
            },
            ..old(p)@
        }),
        path < u64::MAX ==> final(p)@.publisher.requests == old(p)@.publisher.requests.push(
            EngineRequest::AttributePath { sequence, path: Some(path) },
        ),
        path == u64::MAX ==> final(p)@.publisher.requests == old(p)@.publisher.requests.push(
            EngineRequest::AttributePath { sequence, path: None },
        ),
{
}

/// The oldest datagram is taken from the queue and kept, whole and with its
/// addresses as C reads them, until the next one is. It counts as handed out
/// where there is a place for it.
pub proof fn oldest_datagram_is_handed_out(p: &mut WagaPeer, wanted: bool, ok: bool)
    requires
        call_ensures(peer::waga_peer_poll_transmit, (Some(p), wanted), ok),
    ensures
        ok <==> wanted && old(p)@.publisher.output.len() > 0,
        old(p)@.publisher.output.len() == 0 ==> final(p)@ == old(p)@,
        old(p)@.publisher.output.len() > 0 ==> {
            let datagram = old(p)@.publisher.output[0];
            &&& final(p)@ == (PeerState {
                publisher: PublisherState {
                    output: final(p)@.publisher.output,
                    ..old(p)@.publisher
                },
                transmit: final(p)@.transmit,
                ..old(p)@
            })
            &&& seq![datagram] + final(p)@.publisher.output =~= old(p)@.publisher.output
            &&& final(p)@.transmit matches Some(kept)
            &&& kept.source == c_string(datagram.source@)
            &&& kept.destination == c_string(datagram.destination@)
            &&& kept.data == datagram.contents@
            &&& kept.transport_sequence == datagram.transport_sequence
        },
{
    if old(p)@.publisher.output.len() > 0 {
        let datagram = old(p)@.publisher.output[0];
        c_text_is_c_string(datagram.source@);
        c_text_is_c_string(datagram.destination@);
    }
}

/// The sequence number of the datagram that was handed out last is told, or the
/// largest number where there is none.
pub proof fn sequence_number_is_told(p: &WagaPeer, r: u64)
    requires
        call_ensures(peer::waga_peer_last_transmit_sequence, (Some(p),), r),
    ensures
        p@.transmit is None ==> r == u64::MAX,
        p@.transmit matches Some(kept) ==> r == match kept.transport_sequence {
            Some(sequence) => sequence,
            None => u64::MAX,
        },
{
}

/// The oldest event is taken from the queue, and told by its number: one to four
/// are a connection, a disconnect, a closure and a keyframe request, and zero is
/// none.
pub proof fn oldest_event_is_told(p: &mut WagaPeer, r: i32)
    requires
        call_ensures(peer::waga_peer_poll_event, (Some(p),), r),
    ensures
        r == 0 <==> old(p)@.publisher.events.len() == 0,
        r == 0 ==> final(p)@ == old(p)@,
        r != 0 ==> {
            let event = old(p)@.publisher.events[0];
            &&& r == 1 <==> event == PeerEvent::Connected
            &&& r == 2 <==> event == PeerEvent::Disconnected
            &&& r == 3 <==> event == PeerEvent::Closed
            &&& r == 4 <==> event == PeerEvent::KeyframeRequest
            &&& seq![event] + final(p)@.publisher.events =~= old(p)@.publisher.events
            &&& final(p)@ == (PeerState {
                publisher: PublisherState {
                    events: final(p)@.publisher.events,
                    ..old(p)@.publisher
                },
                ..old(p)@
            })
        },
{
}

/// The oldest frame is taken from the queue and kept until the next one is. Where
/// there is a place for it, it is told with its codec's number, its times and its
/// length, and with the largest number where the sender's clock is not known.
pub proof fn oldest_frame_is_handed_out(p: &mut WagaPeer, wanted: bool, r: Option<WagaMedia>)
    requires
        call_ensures(peer::waga_peer_poll_media, (Some(p), wanted), r),
    ensures
        r is Some <==> wanted && old(p)@.publisher.media.len() > 0,
        old(p)@.publisher.media.len() == 0 ==> final(p)@ == old(p)@,
        old(p)@.publisher.media.len() > 0 ==> {
            let frame = old(p)@.publisher.media[0];
            &&& final(p)@ == (PeerState {
                publisher: PublisherState {
                    media: final(p)@.publisher.media,
                    ..old(p)@.publisher
                },
                media: Some(frame),
                ..old(p)@
            })
            &&& seq![frame] + final(p)@.publisher.media =~= old(p)@.publisher.media
            &&& r matches Some(told) ==> {
                &&& told.codec == match frame.codec {
                    Codec::H264 => 1i32,
                    Codec::H265 => 2,
                    Codec::Opus => 3,
                    Codec::Aac => 4,
                }
                &&& told.media_time == frame.media_time
                &&& told.clock_rate == frame.clock_rate
                &&& told.sender_media_time == frame.sender_media_time
                &&& frame.ntp_micros matches Some(micros) ==> told.ntp_micros == micros
                &&& frame.ntp_micros is None ==> told.ntp_micros == u64::MAX
                &&& frame.contents.len() <= usize::MAX ==> told.length == frame.contents.len()
            }
        },
{
}

/// The bandwidth estimate is collected, and told where there is a place for it.
pub proof fn estimate_is_handed_out(p: &mut WagaPeer, wanted: bool, r: Option<u64>)
    requires
        call_ensures(peer::waga_peer_poll_bitrate_estimate, (Some(p), wanted), r),
    ensures
        r is Some <==> wanted && old(p)@.publisher.estimates.len() > 0,
        r matches Some(estimate) ==> estimate == old(p)@.publisher.estimates[0],
        old(p)@.publisher.estimates.len() == 0 ==> final(p)@ == old(p)@,
        old(p)@.publisher.estimates.len() > 0 ==> {
            &&& final(p)@ == (PeerState {
                publisher: PublisherState {
                    estimates: final(p)@.publisher.estimates,
                    ..old(p)@.publisher
                },
                ..old(p)@
            })
            &&& seq![old(p)@.publisher.estimates[0]] + final(p)@.publisher.estimates
                =~= old(p)@.publisher.estimates
        },
{
}

} // verus!
