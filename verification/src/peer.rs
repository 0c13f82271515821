//! The C boundary: a peer behind a pointer that may be null, numbers for codecs
//! and events, and the text of the last error.
//!
//! The host turns pointers into options, and options into pointers. What a
//! function of the boundary then does is here.
use str0m::Candidate;
use vstd::prelude::*;
use vstd::string::StringSliceAdditionalSpecFns;

use crate::codec;
use crate::codec::{decode_codec, encode_codec, Codec};
use crate::model;
use crate::model::{EngineRequest, Media, MediaView, PeerEvent, PublisherState, Transmit};
use crate::publisher::Publisher;
use crate::session;

verus! {

/// Text as C reads it: its bytes and a final zero. Text that holds a zero
/// becomes empty.
pub open spec fn c_text(text: Seq<char>) -> Seq<u8> {
    let bytes = vstd::utf8::encode_utf8(text);
    if bytes.contains(0) {
        seq![0u8]
    } else {
        bytes.push(0)
    }
}

/// Text as C reads it.
pub fn to_c_text(text: &str) -> (r: Vec<u8>)
    ensures
        r@ == c_text(text@),
{
    let bytes = text.as_bytes();
    let mut r: Vec<u8> = Vec::new();
    let mut i: usize = 0;
    while i < bytes.len()
        invariant
            bytes@ == vstd::utf8::encode_utf8(text@),
            i <= bytes.len(),
            r@ == bytes@.take(i as int),
            forall|j: int| 0 <= j < i ==> bytes@[j] != 0,
        decreases bytes.len() - i,
    {
        if bytes[i] == 0 {
            let mut empty: Vec<u8> = Vec::new();
            empty.push(0);
            assert(bytes@.contains(bytes@[i as int]));
            assert(empty@ =~= seq![0u8]);
            return empty;
        }
        r.push(bytes[i]);
        assert(bytes@.take(i as int).push(bytes@[i as int]) =~= bytes@.take(i + 1));
        i = i + 1;
    }
    assert(r@ =~= bytes@);
    r.push(0);
    r
}

/// The datagram that was handed out last.
pub struct OwnedTransmit {
    pub source: Vec<u8>,
    pub destination: Vec<u8>,
    pub data: Vec<u8>,
    pub transport_sequence: Option<u64>,
}

/// What an [`OwnedTransmit`] holds.
#[verifier::ext_equal]
pub struct OwnedTransmitView {
    pub source: Seq<u8>,
    pub destination: Seq<u8>,
    pub data: Seq<u8>,
    pub transport_sequence: Option<u64>,
}

impl View for OwnedTransmit {
    type V = OwnedTransmitView;

    open spec fn view(&self) -> OwnedTransmitView {
        OwnedTransmitView {
            source: self.source@,
            destination: self.destination@,
            data: self.data@,
            transport_sequence: self.transport_sequence,
        }
    }
}

/// A datagram with its addresses as C reads them.
pub open spec fn owned(transmit: Transmit) -> OwnedTransmitView {
    OwnedTransmitView {
        source: c_text(transmit.source@),
        destination: c_text(transmit.destination@),
        data: transmit.contents@,
        transport_sequence: transmit.transport_sequence,
    }
}

impl OwnedTransmit {
    /// A datagram with its addresses as C reads them.
    pub fn from_transmit(value: Transmit) -> (r: Self)
        ensures
            r@ == owned(value),
    {
        OwnedTransmit {
            source: to_c_text(value.source.as_str()),
            destination: to_c_text(value.destination.as_str()),
            data: value.contents,
            transport_sequence: value.transport_sequence,
        }
    }
}

/// What C is told of a frame, beside its bytes.
#[derive(Clone, Copy, Debug, PartialEq, Eq, Structural)]
pub struct WagaMedia {
    pub codec: i32,
    pub media_time: u64,
    pub clock_rate: u32,
    /// The sender's wall clock, or the largest number where it is not known.
    pub ntp_micros: u64,
    pub sender_media_time: u64,
    pub length: usize,
}

/// What C is told of a frame, beside its bytes.
pub open spec fn media_header(media: MediaView) -> WagaMedia {
    WagaMedia {
        codec: codec::codec_number(media.codec),
        media_time: media.media_time,
        clock_rate: media.clock_rate,
        ntp_micros: match media.ntp_micros {
            Some(micros) => micros,
            None => u64::MAX,
        },
        sender_media_time: media.sender_media_time,
        length: media.contents.len() as usize,
    }
}

/// A peer behind the C boundary.
pub struct WagaPeer {
    publisher: Publisher,
    last_error: Vec<u8>,
    transmit: Option<OwnedTransmit>,
    media: Option<Media>,
}

/// The state of a [`WagaPeer`].
#[verifier::ext_equal]
pub struct PeerState {
    pub publisher: PublisherState,
    /// The text of the last error, as C reads it.
    pub last_error: Seq<u8>,
    /// The datagram and the frame that were handed out last.
    pub transmit: Option<OwnedTransmitView>,
    pub media: Option<MediaView>,
}

/// What an optional datagram holds.
pub open spec fn optional_transmit(transmit: Option<OwnedTransmit>) -> Option<OwnedTransmitView> {
    match transmit {
        Some(transmit) => Some(transmit@),
        None => None,
    }
}

impl View for WagaPeer {
    type V = PeerState;

    closed spec fn view(&self) -> PeerState {
        PeerState {
            publisher: self.publisher@,
            last_error: self.last_error@,
            transmit: optional_transmit(self.transmit),
            media: model::optional_media(self.media),
        }
    }
}

/// The error text of an outcome, if it is an error.
pub open spec fn fault<T>(r: Result<T, String>) -> Option<Seq<char>> {
    match r {
        Ok(_) => None,
        Err(error) => Some(error@),
    }
}

/// Whether an outcome was noted: an error's text is kept until the next error,
/// and nothing but it and the publisher may have changed.
pub open spec fn noted(pre: PeerState, post: PeerState, fault: Option<Seq<char>>, ok: bool) -> bool {
    &&& ok == (fault is None)
    &&& post.last_error == match fault {
        Some(text) => c_text(text),
        None => pre.last_error,
    }
    &&& post.transmit == pre.transmit
    &&& post.media == pre.media
}

/// Whether an operation failed before it reached the publisher.
pub open spec fn refused(pre: PeerState, post: PeerState, text: Seq<char>, ok: bool) -> bool {
    &&& noted(pre, post, Some(text), ok)
    &&& post.publisher == pre.publisher
}

impl WagaPeer {
    /// Notes the outcome of an operation, and tells whether it succeeded.
    fn note(&mut self, outcome: Result<(), String>) -> (ok: bool)
        ensures
            noted(old(self)@, final(self)@, fault(outcome), ok),
            final(self)@.publisher == old(self)@.publisher,
    {
        match outcome {
            Ok(()) => true,
            Err(error) => {
                self.last_error = to_c_text(error.as_str());
                false
            },
        }
    }

    /// Notes the outcome of an operation that gives a text, and gives it.
    fn note_text(&mut self, outcome: Result<String, String>) -> (r: Option<String>)
        ensures
            noted(old(self)@, final(self)@, fault(outcome), r is Some),
            final(self)@.publisher == old(self)@.publisher,
            outcome matches Ok(text) ==> r == Some(text),
    {
        match outcome {
            Ok(text) => Some(text),
            Err(error) => {
                self.last_error = to_c_text(error.as_str());
                None
            },
        }
    }

    /// The publisher behind the boundary.
    pub fn publisher_mut(&mut self) -> (r: &mut Publisher)
        ensures
            r@ == old(self)@.publisher,
            final(self)@ == (PeerState { publisher: final(r)@, ..old(self)@ }),
    {
        &mut self.publisher
    }

    /// The datagram that was handed out last.
    pub fn transmit(&self) -> (r: &Option<OwnedTransmit>)
        ensures
            optional_transmit(*r) == self@.transmit,
    {
        &self.transmit
    }

    /// The frame that was handed out last.
    pub fn media(&self) -> (r: &Option<Media>)
        ensures
            model::optional_media(*r) == self@.media,
    {
        &self.media
    }
}

/// The error text that `std::str::from_utf8` has for bytes that are not UTF-8.
pub uninterp spec fn utf8_fault(bytes: Seq<u8>) -> Seq<char>;

/// Calls `std::str::from_utf8`, which gives the text whose UTF-8 encoding the
/// bytes are, or an error if they are no such encoding. The error's text is a
/// function of the bytes.
#[verifier::external_body]
fn utf8(bytes: &[u8]) -> (r: Result<String, String>)
    ensures
        match r {
            Ok(text) => vstd::utf8::valid_utf8(bytes@) && text@ == vstd::utf8::decode_utf8(bytes@),
            Err(error) => !vstd::utf8::valid_utf8(bytes@) && error@ == utf8_fault(bytes@),
        },
{
    match std::str::from_utf8(bytes) {
        Ok(text) => Ok(text.to_owned()),
        Err(error) => Err(error.to_string()),
    }
}

/// The text that a C string spells, or why it spells none.
pub open spec fn text_of(value: Option<Seq<u8>>) -> Result<Seq<char>, Seq<char>> {
    match value {
        None => Err("string is null"@),
        Some(bytes) => if vstd::utf8::valid_utf8(bytes) {
            Ok(vstd::utf8::decode_utf8(bytes))
        } else {
            Err(utf8_fault(bytes))
        },
    }
}

/// The bytes of an optional slice.
pub open spec fn optional_bytes(value: Option<&[u8]>) -> Option<Seq<u8>> {
    match value {
        Some(bytes) => Some(bytes@),
        None => None,
    }
}

/// The views of a text or an error.
pub open spec fn texts(r: Result<String, String>) -> Result<Seq<char>, Seq<char>> {
    match r {
        Ok(text) => Ok(text@),
        Err(error) => Err(error@),
    }
}

/// The text that a C string spells. The bytes are those before its final zero.
pub fn text(value: Option<&[u8]>) -> (r: Result<String, String>)
    ensures
        texts(r) == text_of(optional_bytes(value)),
{
    match value {
        None => Err("string is null".to_owned()),
        Some(bytes) => utf8(bytes),
    }
}

/// The bytes that a pointer and a length stand for, or why they stand for none.
/// No bytes need no pointer.
pub open spec fn bytes_of(data: Option<Seq<u8>>, length: usize) -> Result<Seq<u8>, Seq<char>> {
    if length == 0 {
        Ok(Seq::empty())
    } else {
        match data {
            None => Err("data is null"@),
            Some(data) => Ok(data),
        }
    }
}

/// The bytes that a pointer and a length stand for.
pub fn bytes(data: Option<&[u8]>, length: usize) -> (r: Result<&[u8], String>)
    requires
        data matches Some(data) ==> data@.len() == length,
    ensures
        match bytes_of(optional_bytes(data), length) {
            Ok(bytes) => r matches Ok(given) && given@ == bytes,
            Err(text) => r matches Err(error) && error@ == text,
        },
{
    match data {
        Some(data) => {
            assert(data@.len() == 0 ==> data@ =~= Seq::empty());
            Ok(data)
        },
        None => if length == 0 {
            let none: &[u8] = &[];
            assert(none@ =~= Seq::empty());
            Ok(none)
        } else {
            Err("data is null".to_owned())
        },
    }
}

/// A C string that is to be a socket address.
pub enum AddressArgument {
    /// It spells no text, for this reason.
    Unreadable(String),
    /// Its text is no socket address, for this reason.
    Malformed(String),
    /// The address, as `SocketAddr` prints it.
    Valid(String),
}

/// The address that was given, or the error text. What the argument was for
/// goes in front of the reason why it is malformed.
pub open spec fn address_of(argument: AddressArgument, what: Seq<char>) -> Result<
    Seq<char>,
    Seq<char>,
> {
    match argument {
        AddressArgument::Unreadable(error) => Err(error@),
        AddressArgument::Malformed(error) => Err(what + error@),
        AddressArgument::Valid(address) => Ok(address@),
    }
}

/// The address that was given.
pub fn address(argument: AddressArgument, what: &str) -> (r: Result<String, String>)
    ensures
        texts(r) == address_of(argument, what@),
{
    match argument {
        AddressArgument::Unreadable(error) => Err(error),
        AddressArgument::Malformed(error) => Err(what.to_owned().concat(error.as_str())),
        AddressArgument::Valid(address) => Ok(address),
    }
}

/// The state of a peer around a publisher that was just created.
pub open spec fn fresh(publisher: PublisherState) -> PeerState {
    PeerState { publisher, last_error: seq![0u8], transmit: None, media: None }
}

/// Whether `r` is the peer around a publisher, if there is one.
pub open spec fn wraps(made: Result<Publisher, String>, r: Option<WagaPeer>) -> bool {
    match made {
        Ok(publisher) => r matches Some(peer) && peer@ == fresh(publisher@),
        Err(_) => r is None,
    }
}

/// A peer around a publisher, if there is one.
pub fn create_peer(made: Result<Publisher, String>) -> (r: Option<WagaPeer>)
    ensures
        wraps(made, r),
{
    match made {
        Ok(publisher) => {
            let mut last_error: Vec<u8> = Vec::new();
            last_error.push(0);
            assert(last_error@ =~= seq![0u8]);
            Some(WagaPeer { publisher, last_error, transmit: None, media: None })
        },
        Err(_) => None,
    }
}

/// Creates a publisher of the tracks that the codec numbers stand for, without
/// bandwidth estimation.
pub fn waga_peer_create(audio_codec: i32, video_codec: i32) -> (r: Option<WagaPeer>)
    ensures
        match (codec::decoded(audio_codec), codec::decoded(video_codec)) {
            (Some(audio), Some(video)) => exists|made: Result<Publisher, String>| #[trigger]
                model::created(audio, video, None, None, made) && wraps(made, r),
            _ => r is None,
        },
{
    match (decode_codec(audio_codec), decode_codec(video_codec)) {
        (Ok(audio), Ok(video)) => create_peer(Publisher::new(audio, video)),
        _ => None,
    }
}

/// Creates a publisher of the tracks that the codec numbers stand for, with
/// bandwidth estimation.
pub fn waga_peer_create_with_bwe(
    audio_codec: i32,
    video_codec: i32,
    initial_bitrate: u64,
    desired_bitrate: u64,
) -> (r: Option<WagaPeer>)
    ensures
        match (codec::decoded(audio_codec), codec::decoded(video_codec)) {
            (Some(audio), Some(video)) => exists|made: Result<Publisher, String>| #[trigger]
                model::created(audio, video, Some(initial_bitrate), Some(desired_bitrate), made)
                    && wraps(made, r),
            _ => r is None,
        },
{
    match (decode_codec(audio_codec), decode_codec(video_codec)) {
        (Ok(audio), Ok(video)) => create_peer(
            Publisher::new_with_bwe(audio, video, Some(initial_bitrate), Some(desired_bitrate)),
        ),
        _ => None,
    }
}

/// Creates a receiver.
pub fn waga_receiver_create() -> (r: Option<WagaPeer>)
    ensures
        r matches Some(peer) && peer@ == fresh(
            model::initial_state(Some(Codec::Opus), true, true, None, None, 0),
        ),
{
    create_peer(Publisher::new_receiver())
}

/// The text of the last error, as C reads it.
pub fn waga_peer_last_error(peer: Option<&WagaPeer>) -> (r: Option<&Vec<u8>>)
    ensures
        match (peer, r) {
            (Some(peer), Some(text)) => text@ == peer@.last_error,
            (None, None) => true,
            _ => false,
        },
{
    match peer {
        Some(peer) => Some(&peer.last_error),
        None => None,
    }
}

/// Notes an error that the host found.
pub fn waga_peer_fail(peer: Option<&mut WagaPeer>, error: String) -> (ok: bool)
    ensures
        match peer {
            None => !ok,
            Some(peer) => refused((*peer)@, final(peer)@, error@, ok),
        },
{
    match peer {
        None => false,
        Some(peer) => peer.note(Err(error)),
    }
}

/// Whether a candidate was added and the outcome noted.
pub open spec fn candidate_noted(
    pre: PeerState,
    post: PeerState,
    base: Seq<char>,
    made: Result<Candidate, Seq<char>>,
    ok: bool,
) -> bool {
    exists|reading: u128, r: Result<(), String>| #[trigger]
        model::candidate_added(
            pre.publisher.at(reading),
            post.publisher,
            base,
            made,
            session::spec_nanos(reading),
            r,
        ) && noted(
            pre,
            post,
            fault(r),
            ok,
        )
}

/// Adds the host candidate of a local UDP socket.
pub fn waga_peer_add_local_candidate(
    peer: Option<&mut WagaPeer>,
    candidate: AddressArgument,
) -> (ok: bool)
    ensures
        match (peer, address_of(candidate, "invalid candidate: "@)) {
            (None, _) => !ok,
            (Some(peer), Err(text)) => refused((*peer)@, final(peer)@, text, ok),
            (Some(peer), Ok(base)) => candidate_noted(
                (*peer)@,
                final(peer)@,
                base,
                session::host_candidate_of(base),
                ok,
            ),
        },
{
    match peer {
        None => false,
        Some(peer) => {
            match address(candidate, "invalid candidate: ") {
                Ok(base) => {
                    let ghost pre = peer@;
                    let outcome = peer.publisher.add_local_candidate(base.as_str());
                    let ok = peer.note(outcome);
                    assert(candidate_noted(
                        pre,
                        peer@,
                        base@,
                        session::host_candidate_of(base@),
                        ok,
                    ));
                    ok
                },
                Err(error) => peer.note(Err(error)),
            }
        },
    }
}

/// Whether the withdrawal of an interface was carried out and noted.
pub open spec fn removal_noted(pre: PeerState, post: PeerState, base: Seq<char>, ok: bool) -> bool {
    exists|reading: u128, r: Result<(), String>| #[trigger]
        model::interface_removed(
            pre.publisher.at(reading),
            post.publisher,
            base,
            session::spec_nanos(reading),
            r,
        ) && noted(
            pre,
            post,
            fault(r),
            ok,
        )
}

/// Withdraws an interface.
pub fn waga_peer_remove_local_candidate(
    peer: Option<&mut WagaPeer>,
    candidate: AddressArgument,
) -> (ok: bool)
    ensures
        match (peer, address_of(candidate, "invalid candidate: "@)) {
            (None, _) => !ok,
            (Some(peer), Err(text)) => refused((*peer)@, final(peer)@, text, ok),
            (Some(peer), Ok(base)) => removal_noted((*peer)@, final(peer)@, base, ok),
        },
{
    match peer {
        None => false,
        Some(peer) => {
            match address(candidate, "invalid candidate: ") {
                Ok(base) => {
                    let ghost pre = peer@;
                    let outcome = peer.publisher.remove_local_candidate(base.as_str());
                    let ok = peer.note(outcome);
                    assert(removal_noted(pre, peer@, base@, ok));
                    ok
                },
                Err(error) => peer.note(Err(error)),
            }
        },
    }
}

/// Adds the server-reflexive candidate of a local UDP socket. The reflexive
/// address is looked at before the local one.
pub fn waga_peer_add_server_reflexive_candidate(
    peer: Option<&mut WagaPeer>,
    candidate: AddressArgument,
    base: AddressArgument,
) -> (ok: bool)
    ensures
        match (
            peer,
            address_of(candidate, "invalid server-reflexive candidate: "@),
            address_of(base, "invalid base candidate: "@),
        ) {
            (None, _, _) => !ok,
            (Some(peer), Err(text), _) => refused((*peer)@, final(peer)@, text, ok),
            (Some(peer), Ok(_), Err(text)) => refused((*peer)@, final(peer)@, text, ok),
            (Some(peer), Ok(seen), Ok(local)) => candidate_noted(
                (*peer)@,
                final(peer)@,
                local,
                session::reflexive_candidate_of(seen, local),
                ok,
            ),
        },
{
    match peer {
        None => false,
        Some(peer) => {
            match address(candidate, "invalid server-reflexive candidate: ") {
                Ok(seen) => match address(base, "invalid base candidate: ") {
                    Ok(local) => {
                        let ghost pre = peer@;
                        let outcome = peer.publisher.add_server_reflexive_candidate(
                            seen.as_str(),
                            local.as_str(),
                        );
                        let ok = peer.note(outcome);
                        assert(candidate_noted(
                            pre,
                            peer@,
                            local@,
                            session::reflexive_candidate_of(seen@, local@),
                            ok,
                        ));
                        ok
                    },
                    Err(error) => peer.note(Err(error)),
                },
                Err(error) => peer.note(Err(error)),
            }
        },
    }
}

/// Whether an offer to send was made, given and the outcome noted.
pub open spec fn offer_noted(pre: PeerState, post: PeerState, text: Option<String>) -> bool {
    exists|reading: u128, r: Result<String, String>| #[trigger]
        model::offered(
            pre.publisher.at(reading),
            post.publisher,
            session::spec_nanos(reading),
            r,
        ) && noted(
            pre,
            post,
            fault(r),
            text is Some,
        ) && (r matches Ok(sdp) ==> text == Some(sdp))
}

/// Makes an offer to send the publisher's tracks.
pub fn waga_peer_create_offer(peer: Option<&mut WagaPeer>) -> (text: Option<String>)
    ensures
        match peer {
            None => text is None,
            Some(peer) => offer_noted((*peer)@, final(peer)@, text),
        },
{
    match peer {
        None => None,
        Some(peer) => {
            let ghost pre = peer@;
            let outcome = peer.publisher.create_offer();
            let text = peer.note_text(outcome);
            assert(offer_noted(pre, peer@, text));
            text
        },
    }
}

/// Whether an offer to receive was made, given and the outcome noted.
pub open spec fn receive_offer_noted(pre: PeerState, post: PeerState, text: Option<String>) -> bool {
    exists|reading: u128, r: Result<String, String>| #[trigger]
        model::receive_offered(
            pre.publisher.at(reading),
            post.publisher,
            session::spec_nanos(reading),
            r,
        ) && noted(
            pre,
            post,
            fault(r),
            text is Some,
        ) && (r matches Ok(sdp) ==> text == Some(sdp))
}

/// Makes an offer to receive video and audio.
pub fn waga_peer_create_receive_offer(peer: Option<&mut WagaPeer>) -> (text: Option<String>)
    ensures
        match peer {
            None => text is None,
            Some(peer) => receive_offer_noted((*peer)@, final(peer)@, text),
        },
{
    match peer {
        None => None,
        Some(peer) => {
            let ghost pre = peer@;
            let outcome = peer.publisher.create_receive_offer();
            let text = peer.note_text(outcome);
            assert(receive_offer_noted(pre, peer@, text));
            text
        },
    }
}

/// Whether a remote offer was taken, answered and the outcome noted.
pub open spec fn acceptance_noted(
    pre: PeerState,
    post: PeerState,
    sdp: Seq<char>,
    answer: Option<String>,
) -> bool {
    exists|reading: u128, r: Result<String, String>| #[trigger]
        model::offer_read(
            pre.publisher.at(reading),
            post.publisher,
            sdp,
            session::spec_nanos(reading),
            r,
        ) && noted(
            pre,
            post,
            fault(r),
            answer is Some,
        ) && (r matches Ok(given) ==> answer == Some(given))
}

/// Takes a remote peer's offer, and gives the answer.
pub fn waga_peer_accept_offer(peer: Option<&mut WagaPeer>, sdp: Option<&[u8]>) -> (answer: Option<
    String,
>)
    ensures
        match (peer, text_of(optional_bytes(sdp))) {
            (None, _) => answer is None,
            (Some(peer), Err(text)) => refused((*peer)@, final(peer)@, text, answer is Some),
            (Some(peer), Ok(offer)) => acceptance_noted(
                (*peer)@,
                final(peer)@,
                offer,
                answer,
            ),
        },
{
    match peer {
        None => None,
        Some(peer) => {
            match text(sdp) {
                Ok(offer) => {
                    let ghost pre = peer@;
                    let outcome = peer.publisher.accept_offer(offer.as_str());
                    let answer = peer.note_text(outcome);
                    assert(acceptance_noted(pre, peer@, offer@, answer));
                    answer
                },
                Err(error) => peer.note_text(Err(error)),
            }
        },
    }
}

/// Whether an answer was taken and the outcome noted.
pub open spec fn answer_noted(
    pre: PeerState,
    post: PeerState,
    sdp: Seq<char>,
    ok: bool,
) -> bool {
    exists|reading: u128, r: Result<(), String>| #[trigger]
        model::answer_read(
            pre.publisher.at(reading),
            post.publisher,
            sdp,
            session::spec_nanos(reading),
            r,
        ) && noted(
            pre,
            post,
            fault(r),
            ok,
        )
}

/// Takes the remote peer's answer to the offer that awaits it.
pub fn waga_peer_accept_answer(peer: Option<&mut WagaPeer>, sdp: Option<&[u8]>) -> (ok: bool)
    ensures
        match (peer, text_of(optional_bytes(sdp))) {
            (None, _) => !ok,
            (Some(peer), Err(text)) => refused((*peer)@, final(peer)@, text, ok),
            (Some(peer), Ok(answer)) => answer_noted(
                (*peer)@,
                final(peer)@,
                answer,
                ok,
            ),
        },
{
    match peer {
        None => false,
        Some(peer) => {
            match text(sdp) {
                Ok(answer) => {
                    let ghost pre = peer@;
                    let outcome = peer.publisher.accept_answer(answer.as_str());
                    let ok = peer.note(outcome);
                    assert(answer_noted(pre, peer@, answer@, ok));
                    ok
                },
                Err(error) => peer.note(Err(error)),
            }
        },
    }
}

/// Whether a datagram that arrived was taken and the outcome noted.
pub open spec fn receipt_noted(
    pre: PeerState,
    post: PeerState,
    source: Seq<char>,
    destination: Seq<char>,
    contents: Seq<u8>,
    ok: bool,
) -> bool {
    exists|reading: u128, r: Result<(), String>| #[trigger]
        model::received(
            pre.publisher.at(reading),
            post.publisher,
            source,
            destination,
            contents,
            session::spec_nanos(reading),
            r,
        ) && noted(pre, post, fault(r), ok)
}

/// Takes a datagram that arrived. Its source is looked at before its
/// destination, and that before its bytes.
pub fn waga_peer_receive(
    peer: Option<&mut WagaPeer>,
    source: AddressArgument,
    destination: AddressArgument,
    data: Option<&[u8]>,
    length: usize,
) -> (ok: bool)
    requires
        data matches Some(data) ==> data@.len() == length,
    ensures
        match (
            peer,
            address_of(source, "invalid source: "@),
            address_of(destination, "invalid destination: "@),
            bytes_of(optional_bytes(data), length),
        ) {
            (None, _, _, _) => !ok,
            (Some(peer), Err(text), _, _) => refused((*peer)@, final(peer)@, text, ok),
            (Some(peer), Ok(_), Err(text), _) => refused((*peer)@, final(peer)@, text, ok),
            (Some(peer), Ok(_), Ok(_), Err(text)) => refused((*peer)@, final(peer)@, text, ok),
            (Some(peer), Ok(from), Ok(to), Ok(contents)) => receipt_noted(
                (*peer)@,
                final(peer)@,
                from,
                to,
                contents,
                ok,
            ),
        },
{
    match peer {
        None => false,
        Some(peer) => {
            match address(source, "invalid source: ") {
                Ok(from) => match address(destination, "invalid destination: ") {
                    Ok(to) => match bytes(data, length) {
                        Ok(contents) => {
                            let ghost pre = peer@;
                            let outcome = peer.publisher.receive(
                                from.as_str(),
                                to.as_str(),
                                contents,
                            );
                            let ok = peer.note(outcome);
                            assert(receipt_noted(pre, peer@, from@, to@, contents@, ok));
                            ok
                        },
                        Err(error) => peer.note(Err(error)),
                    },
                    Err(error) => peer.note(Err(error)),
                },
                Err(error) => peer.note(Err(error)),
            }
        },
    }
}

/// Whether the session was told the time and the outcome noted.
pub open spec fn timeout_noted(pre: PeerState, post: PeerState, ok: bool) -> bool {
    exists|reading: u128, r: Result<(), String>| #[trigger]
        model::timed_out(
            pre.publisher.at(reading),
            post.publisher,
            session::spec_nanos(reading),
            r,
        ) && noted(pre, post, fault(r), ok)
}

/// Tells the session the time.
pub fn waga_peer_handle_timeout(peer: Option<&mut WagaPeer>) -> (ok: bool)
    ensures
        match peer {
            None => !ok,
            Some(peer) => timeout_noted((*peer)@, final(peer)@, ok),
        },
{
    match peer {
        None => false,
        Some(peer) => {
            let ghost pre = peer@;
            let outcome = peer.publisher.handle_timeout();
            let ok = peer.note(outcome);
            assert(timeout_noted(pre, peer@, ok));
            ok
        },
    }
}

/// The whole milliseconds in a span of nanoseconds, as many as 64 bits hold.
pub open spec fn millis(span: u128) -> u64 {
    if span / 1_000_000 > u64::MAX {
        u64::MAX
    } else {
        (span / 1_000_000) as u64
    }
}

/// The whole milliseconds in a span of nanoseconds, as many as 64 bits hold.
pub fn whole_millis(span: u128) -> (r: u64)
    ensures
        r == millis(span),
{
    let whole: u128 = span / 1_000_000;
    if whole > u64::MAX as u128 {
        u64::MAX
    } else {
        whole as u64
    }
}

/// The milliseconds from `now` until [`waga_peer_handle_timeout`] is due.
pub fn waga_peer_timeout_millis_at(peer: Option<&WagaPeer>, now: u64) -> (r: u64)
    ensures
        r == match peer {
            None => u64::MAX,
            Some(peer) => millis(model::time_left(peer@.publisher.next_timeout, now)),
        },
{
    match peer {
        None => u64::MAX,
        Some(peer) => whole_millis(peer.publisher.timeout_after_at(now)),
    }
}

/// Whether the clock was read for the time that is left until the session
/// wants to be told the time.
pub open spec fn wait_told(pre: PeerState, post: PeerState, r: u64) -> bool {
    exists|reading: u128|
        post == (PeerState { publisher: #[trigger] pre.publisher.at(reading), ..pre }) && r
            == millis(model::time_left(pre.publisher.next_timeout, session::spec_nanos(reading)))
}

/// The milliseconds until [`waga_peer_handle_timeout`] is due.
pub fn waga_peer_timeout_millis(peer: Option<&mut WagaPeer>) -> (r: u64)
    ensures
        match peer {
            None => r == u64::MAX,
            Some(peer) => wait_told((*peer)@, final(peer)@, r),
        },
{
    match peer {
        None => u64::MAX,
        Some(peer) => {
            let ghost pre = peer@;
            let r: u64 = whole_millis(peer.publisher.timeout_after());
            assert(wait_told(pre, peer@, r));
            r
        },
    }
}

/// Whether a frame was sent and the outcome noted.
pub open spec fn frame_noted(
    pre: PeerState,
    post: PeerState,
    codec: Codec,
    media_time: u64,
    data: Seq<u8>,
    ok: bool,
) -> bool {
    exists|reading: u128, r: Result<(), String>| #[trigger]
        model::sent(
            pre.publisher.at(reading),
            post.publisher,
            codec,
            media_time,
            data,
            session::spec_nanos(reading),
            r,
        ) && noted(
            pre,
            post,
            fault(r),
            ok,
        )
}

/// Sends a frame of the codec that the number stands for.
pub fn waga_peer_send(
    peer: Option<&mut WagaPeer>,
    codec: i32,
    media_time: u64,
    data: Option<&[u8]>,
    length: usize,
) -> (ok: bool)
    requires
        data matches Some(data) ==> data@.len() == length,
    ensures
        match (peer, codec::decoded(codec), bytes_of(optional_bytes(data), length)) {
            (None, _, _) => !ok,
            (Some(peer), None, _) => refused(
                (*peer)@,
                final(peer)@,
                codec::unknown_codec(codec),
                ok,
            ),
            (Some(peer), Some(None), _) => refused(
                (*peer)@,
                final(peer)@,
                "codec is required"@,
                ok,
            ),
            (Some(peer), Some(Some(_)), Err(text)) => refused((*peer)@, final(peer)@, text, ok),
            (Some(peer), Some(Some(sent)), Ok(contents)) => frame_noted(
                (*peer)@,
                final(peer)@,
                sent,
                media_time,
                contents,
                ok,
            ),
        },
{
    match peer {
        None => false,
        Some(peer) => {
            match decode_codec(codec) {
                Ok(Some(codec)) => match bytes(data, length) {
                    Ok(contents) => {
                        let ghost pre = peer@;
                        let outcome = peer.publisher.send(codec, media_time, contents);
                        let ok = peer.note(outcome);
                        assert(frame_noted(pre, peer@, codec, media_time, contents@, ok));
                        ok
                    },
                    Err(error) => peer.note(Err(error)),
                },
                Ok(None) => peer.note(Err("codec is required".to_owned())),
                Err(error) => peer.note(Err(error)),
            }
        },
    }
}

/// Sets the bit rate that the bandwidth estimation aims at, which is
/// [`session::MAX_BITRATE`] at most.
pub fn waga_peer_set_desired_bitrate(peer: Option<&mut WagaPeer>, bitrate: u64) -> (ok: bool)
    ensures
        match peer {
            None => !ok,
            Some(peer) => noted((*peer)@, final(peer)@, None, ok) && final(peer)@.publisher
                == (*peer)@.publisher.with(model::aim(bitrate)),
        },
{
    match peer {
        None => false,
        Some(peer) => {
            peer.publisher.set_desired_bitrate(bitrate);
            peer.note(Ok(()))
        },
    }
}

/// Asks for a probe of the path's capacity. The host starts it, and then calls
/// [`waga_peer_handle_timeout`].
pub fn waga_peer_request_path_probe(peer: Option<&mut WagaPeer>) -> (ok: bool)
    ensures
        match peer {
            None => !ok,
            Some(peer) => noted((*peer)@, final(peer)@, None, ok) && final(peer)@.publisher
                == model::path_probed((*peer)@.publisher),
        },
{
    match peer {
        None => false,
        Some(peer) => {
            let outcome = peer.publisher.request_path_probe();
            peer.note(outcome)
        },
    }
}

/// Asks for a fresh bandwidth estimate, now that the path has changed. The host
/// restarts the estimation, and then calls [`waga_peer_handle_timeout`].
pub fn waga_peer_restart_on_path_change(peer: Option<&mut WagaPeer>) -> (ok: bool)
    ensures
        match peer {
            None => !ok,
            Some(peer) => noted((*peer)@, final(peer)@, None, ok) && final(peer)@.publisher
                == model::path_restarted((*peer)@.publisher),
        },
{
    match peer {
        None => false,
        Some(peer) => {
            let outcome = peer.publisher.restart_on_path_change();
            peer.note(outcome)
        },
    }
}

/// Hands out the next datagram, if there is one, through the peer, which keeps
/// it until the next. `wanted` is whether the host has a place for it; it is
/// taken from the queue either way.
pub fn waga_peer_poll_transmit(peer: Option<&mut WagaPeer>, wanted: bool) -> (ok: bool)
    ensures
        match peer {
            None => !ok,
            Some(peer) => match model::first((*peer)@.publisher.output) {
                None => !ok && final(peer)@ == (*peer)@,
                Some(transmit) => ok == wanted && final(peer)@ == (PeerState {
                    publisher: PublisherState {
                        output: model::rest((*peer)@.publisher.output),
                        ..(*peer)@.publisher
                    },
                    transmit: Some(owned(transmit)),
                    ..(*peer)@
                }),
            },
        },
{
    match peer {
        None => false,
        Some(peer) => match peer.publisher.poll_transmit() {
            None => false,
            Some(transmit) => {
                peer.transmit = Some(OwnedTransmit::from_transmit(transmit));
                wanted
            },
        },
    }
}

/// The transport-wide sequence number of the datagram that was handed out last,
/// or the largest number where there is none.
pub fn waga_peer_last_transmit_sequence(peer: Option<&WagaPeer>) -> (r: u64)
    ensures
        r == match peer {
            Some(peer) => match peer@.transmit {
                Some(OwnedTransmitView { transport_sequence: Some(sequence), .. }) => sequence,
                _ => u64::MAX,
            },
            None => u64::MAX,
        },
{
    match peer {
        Some(peer) => match &peer.transmit {
            Some(transmit) => match transmit.transport_sequence {
                Some(sequence) => sequence,
                None => u64::MAX,
            },
            None => u64::MAX,
        },
        None => u64::MAX,
    }
}

/// Attributes the packet with this transport-wide sequence number to a path, or
/// to none where the path is the largest number.
pub fn waga_peer_set_egress_path(peer: Option<&mut WagaPeer>, sequence: u64, path: u64)
    ensures
        peer matches Some(peer) ==> final(peer)@ == (PeerState {
            publisher: (*peer)@.publisher.asking(
                EngineRequest::AttributePath {
                    sequence,
                    path: if path == u64::MAX {
                        None
                    } else {
                        Some(path)
                    },
                },
            ),
            ..(*peer)@
        }),
{
    if let Some(peer) = peer {
        let path = if path == u64::MAX {
            None
        } else {
            Some(path)
        };
        peer.publisher.set_egress_path(sequence, path);
    }
}

/// The number of an event, or of none.
pub open spec fn event_number(event: Option<PeerEvent>) -> i32 {
    match event {
        Some(PeerEvent::Connected) => 1,
        Some(PeerEvent::Disconnected) => 2,
        Some(PeerEvent::Closed) => 3,
        Some(PeerEvent::KeyframeRequest) => 4,
        None => 0,
    }
}

/// The number of the next event, which is taken from the queue.
pub fn waga_peer_poll_event(peer: Option<&mut WagaPeer>) -> (r: i32)
    ensures
        match peer {
            None => r == 0,
            Some(peer) => r == event_number(model::first((*peer)@.publisher.events))
                && final(peer)@ == (PeerState {
                publisher: PublisherState {
                    events: model::rest((*peer)@.publisher.events),
                    ..(*peer)@.publisher
                },
                ..(*peer)@
            }),
        },
{
    match peer {
        None => 0,
        Some(peer) => match peer.publisher.poll_event() {
            Some(PeerEvent::Connected) => 1,
            Some(PeerEvent::Disconnected) => 2,
            Some(PeerEvent::Closed) => 3,
            Some(PeerEvent::KeyframeRequest) => 4,
            None => 0,
        },
    }
}

/// Hands out the next frame, if there is one, through the peer, which keeps it
/// until the next. `wanted` is whether the host has a place for it; it is taken
/// from the queue either way.
pub fn waga_peer_poll_media(peer: Option<&mut WagaPeer>, wanted: bool) -> (r: Option<WagaMedia>)
    ensures
        match peer {
            None => r is None,
            Some(peer) => match model::first((*peer)@.publisher.media) {
                None => r is None && final(peer)@ == (*peer)@,
                Some(media) => r == (if wanted {
                    Some(media_header(media))
                } else {
                    None
                }) && final(peer)@ == (PeerState {
                    publisher: PublisherState {
                        media: model::rest((*peer)@.publisher.media),
                        ..(*peer)@.publisher
                    },
                    media: Some(media),
                    ..(*peer)@
                }),
            },
        },
{
    match peer {
        None => None,
        Some(peer) => match peer.publisher.poll_media() {
            None => None,
            Some(media) => {
                let header = WagaMedia {
                    codec: encode_codec(media.codec),
                    media_time: media.media_time,
                    clock_rate: media.clock_rate,
                    ntp_micros: match media.ntp_micros {
                        Some(micros) => micros,
                        None => u64::MAX,
                    },
                    sender_media_time: media.sender_media_time,
                    length: media.contents.len(),
                };
                peer.media = Some(media);
                if wanted {
                    Some(header)
                } else {
                    None
                }
            },
        },
    }
}

/// The latest bandwidth estimate, unless it was collected already. `wanted` is
/// whether the host has a place for it; it is collected either way.
pub fn waga_peer_poll_bitrate_estimate(peer: Option<&mut WagaPeer>, wanted: bool) -> (r: Option<u64>)
    ensures
        match peer {
            None => r is None,
            Some(peer) => r == (if wanted {
                model::first((*peer)@.publisher.estimates)
            } else {
                None
            }) && final(peer)@ == (PeerState {
                publisher: PublisherState {
                    estimates: model::rest((*peer)@.publisher.estimates),
                    ..(*peer)@.publisher
                },
                ..(*peer)@
            }),
        },
{
    match peer {
        None => None,
        Some(peer) => {
            let estimate = peer.publisher.poll_bitrate_estimate();
            if wanted {
                estimate
            } else {
                None
            }
        },
    }
}

} // verus!
