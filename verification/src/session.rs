//! The transport session: a `str0m::Rtc` and the record of what passed between
//! it and this library.
//!
//! str0m does no I/O of its own. It is told the time, handed the datagrams that
//! arrived, and polled for what it wants sent. What it answers rests on random
//! numbers, on time and on what the remote peer does, so nothing is claimed of
//! the answers themselves. Every exchange that this library has with it, and
//! every reading of the clock, is kept in the session's `history`, and the rest
//! of the library is specified over that record: what was asked, with which
//! arguments, and what came back. What the host does with the `Rtc` that
//! [`Session::rtc_mut`] hands out is not on record.
//!
//! The history is ghost: nothing of it exists at run time, so the methods that
//! extend it have nothing to execute for it.
use std::time::{Duration, Instant};

use str0m::bwe::Bitrate;
use str0m::bwe::BweKind::{Remb, Twcc};
use str0m::change::{SdpAnswer, SdpOffer, SdpPendingOffer};
use str0m::format::FormatParams;
use str0m::media::{Direction, Frequency, MediaData, MediaKind, MediaTime, Mid};
use str0m::net::{Protocol, Receive};
use str0m::Event::{
    Closed, Connected, EgressBitrateEstimate, IceConnectionStateChange, KeyframeRequest,
};
use str0m::Output::{Event, Timeout, Transmit};
use str0m::{Candidate, IceConnectionState, Input, Rtc, RtcConfig};
use vstd::prelude::*;

use crate::description;

verus! {

/// `str0m::Rtc`, one end of a WebRTC session.
#[verifier::external_type_specification]
#[verifier::external_body]
pub struct ExRtc(str0m::Rtc);

/// `str0m::RtcConfig`, the builder of an `Rtc`.
#[verifier::external_type_specification]
#[verifier::external_body]
pub struct ExRtcConfig(str0m::RtcConfig);

/// `std::time::Instant`, a reading of the monotonic clock.
#[verifier::external_type_specification]
#[verifier::external_body]
pub struct ExInstant(std::time::Instant);

/// `str0m::Candidate`, an ICE candidate.
#[verifier::external_type_specification]
#[verifier::external_body]
pub struct ExCandidate(str0m::Candidate);

/// `str0m::IceConnectionState`, the state of the ICE agent.
#[verifier::external_type_specification]
#[verifier::external_body]
pub struct ExIceConnectionState(str0m::IceConnectionState);

/// `str0m::media::Mid`, the identity of a media line.
#[verifier::external_type_specification]
#[verifier::external_body]
pub struct ExMid(str0m::media::Mid);

/// `str0m::media::MediaData`, a frame that arrived from the remote peer.
#[verifier::external_type_specification]
#[verifier::external_body]
pub struct ExMediaData(str0m::media::MediaData);

/// `str0m::change::SdpOffer`, a parsed session description that makes an offer.
#[verifier::external_type_specification]
#[verifier::external_body]
pub struct ExSdpOffer(str0m::change::SdpOffer);

/// `str0m::change::SdpAnswer`, a parsed session description that answers one.
#[verifier::external_type_specification]
#[verifier::external_body]
pub struct ExSdpAnswer(str0m::change::SdpAnswer);

/// `str0m::change::SdpPendingOffer`, the changes of an offer not yet answered.
#[verifier::external_type_specification]
#[verifier::external_body]
pub struct ExSdpPendingOffer(str0m::change::SdpPendingOffer);

/// An audio format that is registered by its encoding name.
pub struct AudioFormat {
    pub payload_type: u8,
    pub name: String,
    pub clock_rate: u32,
    pub channels: u8,
    pub parameters: String,
}

/// What an [`AudioFormat`] says.
pub struct AudioFormatView {
    pub payload_type: u8,
    pub name: Seq<char>,
    pub clock_rate: u32,
    pub channels: u8,
    pub parameters: Seq<char>,
}

impl View for AudioFormat {
    type V = AudioFormatView;

    open spec fn view(&self) -> AudioFormatView {
        AudioFormatView {
            payload_type: self.payload_type,
            name: self.name@,
            clock_rate: self.clock_rate,
            channels: self.channels,
            parameters: self.parameters@,
        }
    }
}

/// The codecs and the bandwidth estimation that a session is started with.
pub struct SessionPlan {
    pub opus: bool,
    pub h264: bool,
    pub h265: bool,
    pub formats: Seq<AudioFormatView>,
    pub initial_bitrate: Option<u64>,
}

/// A session description's two kinds of media line.
#[derive(Clone, Copy, Debug, PartialEq, Eq, Structural)]
pub enum TrackKind {
    Audio,
    Video,
}

/// Which way the media of a line flows, as seen from this end.
#[derive(Clone, Copy, Debug, PartialEq, Eq, Structural)]
pub enum TrackDirection {
    SendOnly,
    RecvOnly,
}

/// A media line to put into an offer.
pub struct TrackRequest {
    pub kind: TrackKind,
    pub direction: TrackDirection,
    pub stream: Option<String>,
    pub track: Option<String>,
}

/// What a [`TrackRequest`] asks for.
pub struct TrackView {
    pub kind: TrackKind,
    pub direction: TrackDirection,
    pub stream: Option<Seq<char>>,
    pub track: Option<Seq<char>>,
}

/// The characters of an optional string.
pub open spec fn optional_text(text: Option<String>) -> Option<Seq<char>> {
    match text {
        Some(text) => Some(text@),
        None => None,
    }
}

impl View for TrackRequest {
    type V = TrackView;

    open spec fn view(&self) -> TrackView {
        TrackView {
            kind: self.kind,
            direction: self.direction,
            stream: optional_text(self.stream),
            track: optional_text(self.track),
        }
    }
}

/// What an optional track request asks for.
pub open spec fn optional_track(track: Option<TrackRequest>) -> Option<TrackView> {
    match track {
        Some(track) => Some(track@),
        None => None,
    }
}

/// The outcome of making an offer: the identities of the lines asked for, the
/// offer's text, and the changes that await the answer.
pub struct Offered {
    pub first: Option<Mid>,
    pub second: Option<Mid>,
    pub offer: Option<(String, SdpPendingOffer)>,
}

/// A payload type that a media line was negotiated with.
pub struct Payload {
    pub payload_type: u8,
    pub codec: String,
}

/// What a session has to say when it is polled.
pub enum Report {
    /// Nothing more until this time, in nanoseconds since the session began.
    Timeout(u128),
    /// A datagram to send: its source, its destination and its contents.
    Transmit(String, String, Vec<u8>),
    /// ICE and DTLS are established.
    Connected,
    /// The ICE agent changed state.
    IceStateChange(IceConnectionState),
    /// The remote peer asks for a keyframe.
    KeyframeRequest,
    /// A new estimate of the bandwidth towards the remote peer, in bits per second.
    BitrateEstimate(u64),
    /// The remote peer closed the session.
    Closed,
    /// A frame arrived.
    MediaData(MediaData),
    /// Something that this library has no use for.
    Other,
}

/// One call on the session's `Rtc`, with what it was given and what it gave, or
/// one reading of the clock. A call that depends on the time gives nothing if an
/// `Instant` cannot hold it.
#[allow(inconsistent_fields)]
pub enum Exchange {
    Start(SessionPlan),
    /// The nanoseconds since the session began.
    Clock(u128),
    SetDesiredBitrate(u64),
    AddCandidate { candidate: Candidate, accepted: Option<Candidate> },
    InvalidateCandidate { candidate: Candidate, found: bool },
    Offer { first: Option<TrackView>, second: Option<TrackView>, offered: Offered },
    AcceptAnswer { pending: SdpPendingOffer, answer: SdpAnswer, result: Result<(), String> },
    AcceptOffer { offer: SdpOffer, result: Result<String, String> },
    Timeout { now: u64, result: Option<Result<(), String>> },
    Receive {
        now: u64,
        source: Seq<char>,
        destination: Seq<char>,
        contents: Seq<u8>,
        result: Option<Result<(), String>>,
    },
    Poll(Result<Report, String>),
    Payloads { mid: Mid, result: Option<Vec<Payload>> },
    Write {
        mid: Mid,
        payload_type: u8,
        now: u64,
        media_time: u64,
        clock_rate: u32,
        data: Seq<u8>,
        result: Option<Option<Result<(), String>>>,
    },
}

/// A session configuration under construction.
pub struct SessionConfig {
    config: RtcConfig,
    plan: Ghost<SessionPlan>,
}

impl SessionConfig {
    /// The codecs and the bandwidth estimation chosen so far.
    pub closed spec fn plan(&self) -> SessionPlan {
        self.plan@
    }

    /// Starts from `str0m::RtcConfig::new`, with `clear_codecs`, `enable_opus`,
    /// `enable_h264`, `enable_h265` and `enable_bwe` applied in that order: no
    /// codec but those switched on here, and bandwidth estimation from
    /// `initial_bitrate` bits per second, or none. The plan records the choices.
    #[verifier::external_body]
    pub(crate) fn new(opus: bool, h264: bool, h265: bool, initial_bitrate: Option<u64>) -> (r: Self)
        requires
            initial_bitrate matches Some(bitrate) ==> bitrate <= MAX_BITRATE,
        ensures
            r.plan() == (SessionPlan {
                opus,
                h264,
                h265,
                formats: Seq::empty(),
                initial_bitrate,
            }),
    {
        let config = RtcConfig::new()
            .clear_codecs()
            .enable_opus(opus)
            .enable_h264(h264)
            .enable_h265(h265)
            .enable_bwe(initial_bitrate.map(Bitrate::bps));
        SessionConfig {
            config,
            plan: Ghost(SessionPlan { opus, h264, h265, formats: Seq::empty(), initial_bitrate }),
        }
    }

    /// Adds a format with `str0m::format::CodecConfig::add_config`: its codec is
    /// the one that str0m knows under the format's name, its parameters are what
    /// `FormatParams::parse_line` makes of the format's, and it has no
    /// retransmission payload type. The plan records the format.
    #[verifier::external_body]
    pub(crate) fn add_format(&mut self, format: &AudioFormat)
        requires
            format.clock_rate != 0,
            format.payload_type < 128,
        ensures
            final(self).plan() == (SessionPlan {
                formats: old(self).plan().formats.push(format@),
                ..old(self).plan()
            }),
    {
        self.config.codec_config().add_config(
            format.payload_type.into(),
            None,
            format.name.as_str().into(),
            Frequency::new(format.clock_rate).unwrap(),
            Some(format.channels),
            FormatParams::parse_line(format.parameters.as_str()),
        );
    }
}

/// What str0m prints for the codec it knows under an encoding name: the name
/// itself, in str0m's spelling, for a codec that it implements, and another
/// word for one that it does not.
pub uninterp spec fn engine_codec_name(name: Seq<char>) -> Seq<char>;

/// Converts an encoding name to `str0m::format::Codec` and prints that codec.
/// The outcome is a function of the name.
#[verifier::external_body]
pub(crate) fn engine_codec(name: &str) -> (r: String)
    ensures
        r@ == engine_codec_name(name@),
{
    str0m::format::Codec::from(name).to_string()
}

/// A result with its error taken as text.
pub open spec fn outcome<T>(r: Result<T, String>) -> Result<T, Seq<char>> {
    match r {
        Ok(value) => Ok(value),
        Err(error) => Err(error@),
    }
}

/// The kinds of ICE candidate.
#[derive(Clone, Copy, Debug, PartialEq, Eq, Structural)]
pub enum CandidateKind {
    Host,
    PeerReflexive,
    ServerReflexive,
    Relayed,
}

/// The kind that `Candidate::kind` tells.
pub uninterp spec fn kind_of(candidate: Candidate) -> CandidateKind;

/// Calls `str0m::Candidate::kind` and gives the kind as the variant of the same
/// name.
#[verifier::external_body]
pub(crate) fn candidate_kind(candidate: &Candidate) -> (r: CandidateKind)
    ensures
        r == kind_of(*candidate),
{
    match candidate.kind() {
        str0m::CandidateKind::Host => CandidateKind::Host,
        str0m::CandidateKind::PeerReflexive => CandidateKind::PeerReflexive,
        str0m::CandidateKind::ServerReflexive => CandidateKind::ServerReflexive,
        str0m::CandidateKind::Relayed => CandidateKind::Relayed,
    }
}

/// Whether candidates of this kind are local ones that a host adds.
pub open spec fn is_local_kind(kind: CandidateKind) -> bool {
    kind == CandidateKind::Host || kind == CandidateKind::ServerReflexive
}

/// The candidate, or the error text, that `Candidate::host` gives for a UDP
/// socket address. A text that is no socket address gives the error of its
/// parse.
pub uninterp spec fn host_candidate_of(address: Seq<char>) -> Result<Candidate, Seq<char>>;

/// Calls `str0m::Candidate::host` for UDP on the address that the text spells.
/// The outcome is a function of the text, and a candidate is of the host kind.
#[verifier::external_body]
pub(crate) fn host_candidate(address: &str) -> (r: Result<Candidate, String>)
    ensures
        outcome(r) == host_candidate_of(address@),
        r matches Ok(candidate) ==> kind_of(candidate) == CandidateKind::Host,
{
    match address.parse() {
        Ok(address) => Candidate::host(address, "udp").map_err(|error| error.to_string()),
        Err(error) => Err(error.to_string()),
    }
}

/// The candidate, or the error text, that `Candidate::server_reflexive` gives
/// for an address seen by a STUN server and the local address behind it.
pub uninterp spec fn reflexive_candidate_of(address: Seq<char>, base: Seq<char>) -> Result<
    Candidate,
    Seq<char>,
>;

/// Calls `str0m::Candidate::server_reflexive` for UDP on the addresses that the
/// texts spell. The outcome is a function of the texts, and a candidate is of
/// the server-reflexive kind.
#[verifier::external_body]
pub(crate) fn reflexive_candidate(address: &str, base: &str) -> (r: Result<Candidate, String>)
    ensures
        outcome(r) == reflexive_candidate_of(address@, base@),
        r matches Ok(candidate) ==> kind_of(candidate) == CandidateKind::ServerReflexive,
{
    match (address.parse(), base.parse()) {
        (Ok(address), Ok(base)) => Candidate::server_reflexive(address, base, "udp")
            .map_err(|error| error.to_string()),
        (Err(error), _) => Err(error.to_string()),
        (_, Err(error)) => Err(error.to_string()),
    }
}

/// The answers that `SdpAnswer::from_sdp_string` may read a text as: none if the
/// text is no session description.
pub uninterp spec fn answers_read_from(sdp: Seq<char>) -> Set<SdpAnswer>;

/// Calls `str0m::change::SdpAnswer::from_sdp_string`. Whether it succeeds is a
/// function of the text, but one text may be read as one of several answers:
/// the parameters of a format come in the order of a hash map that each process
/// seeds. The error's text is left open, since it tells where in memory the
/// parse ended.
#[verifier::external_body]
pub(crate) fn parse_answer(sdp: &str) -> (r: Result<SdpAnswer, String>)
    ensures
        match r {
            Ok(answer) => answers_read_from(sdp@).contains(answer),
            Err(_) => answers_read_from(sdp@) == Set::<SdpAnswer>::empty(),
        },
{
    SdpAnswer::from_sdp_string(sdp).map_err(|error| error.to_string())
}

/// The offers that `SdpOffer::from_sdp_string` may read a text as: none if the
/// text is no session description.
pub uninterp spec fn offers_read_from(sdp: Seq<char>) -> Set<SdpOffer>;

/// Calls `str0m::change::SdpOffer::from_sdp_string`. What holds of it is what
/// holds of the parse of an answer, in [`parse_answer`].
#[verifier::external_body]
pub(crate) fn parse_offer(sdp: &str) -> (r: Result<SdpOffer, String>)
    ensures
        match r {
            Ok(offer) => offers_read_from(sdp@).contains(offer),
            Err(_) => offers_read_from(sdp@) == Set::<SdpOffer>::empty(),
        },
{
    SdpOffer::from_sdp_string(sdp).map_err(|error| error.to_string())
}

/// The text that `SdpAnswer::to_sdp_string` prints.
pub uninterp spec fn answer_text(answer: SdpAnswer) -> Seq<char>;

/// Calls `str0m::change::SdpAnswer::to_sdp_string`, which prints everything
/// that was read of the answer. The text is a function of the answer.
#[verifier::external_body]
pub(crate) fn print_answer(answer: &SdpAnswer) -> (r: String)
    ensures
        r@ == answer_text(*answer),
{
    answer.to_sdp_string()
}

/// The text that `SdpOffer::to_sdp_string` prints.
pub uninterp spec fn offer_text(offer: SdpOffer) -> Seq<char>;

/// Calls `str0m::change::SdpOffer::to_sdp_string`, which prints everything that
/// was read of the offer. The text is a function of the offer.
#[verifier::external_body]
pub(crate) fn print_offer(offer: &SdpOffer) -> (r: String)
    ensures
        r@ == offer_text(*offer),
{
    offer.to_sdp_string()
}

/// Whether `Receive::new` recognises a UDP datagram as STUN, DTLS, RTP or RTCP.
/// It recognises none whose source or destination is no socket address.
pub uninterp spec fn recognised(
    source: Seq<char>,
    destination: Seq<char>,
    contents: Seq<u8>,
) -> bool;

/// Whether a datagram can be STUN, DTLS, RTP or RTCP by its length and its first
/// byte.
pub open spec fn is_multiplexed(contents: Seq<u8>) -> bool {
    &&& contents.len() > 0
    &&& {
        ||| contents[0] < 2 && contents.len() >= 20
        ||| 20 <= contents[0] < 64
        ||| 128 <= contents[0] < 192 && contents.len() > 2
    }
}

/// The states of the ICE agent.
#[derive(Clone, Copy, Debug, PartialEq, Eq, Structural)]
pub enum IceState {
    New,
    Checking,
    Connected,
    Completed,
    Disconnected,
}

/// The state of the ICE agent that a `str0m::IceConnectionState` stands for.
pub uninterp spec fn ice_state_of(state: IceConnectionState) -> IceState;

/// Tells the variants of `str0m::IceConnectionState` apart, each as the variant
/// of the same name.
#[verifier::external_body]
pub(crate) fn ice_state(state: IceConnectionState) -> (r: IceState)
    ensures
        r == ice_state_of(state),
{
    match state {
        IceConnectionState::New => IceState::New,
        IceConnectionState::Checking => IceState::Checking,
        IceConnectionState::Connected => IceState::Connected,
        IceConnectionState::Completed => IceState::Completed,
        IceConnectionState::Disconnected => IceState::Disconnected,
    }
}

/// The sender's clocks as its last sender report gave them.
pub struct SenderClock {
    /// Microseconds since the Unix epoch, unless the report's time lies before it.
    pub ntp_micros: Option<u128>,
    /// The media time that corresponds to it.
    pub media_time: u64,
}

/// A frame that arrived from the remote peer.
pub struct Frame {
    /// The encoding name of its codec.
    pub codec: String,
    pub media_time: u64,
    pub clock_rate: u32,
    pub sender: Option<SenderClock>,
    pub contents: Vec<u8>,
}

/// What a [`Frame`] holds.
pub struct FrameView {
    pub codec: Seq<char>,
    pub media_time: u64,
    pub clock_rate: u32,
    pub sender: Option<SenderClock>,
    pub contents: Seq<u8>,
}

impl View for Frame {
    type V = FrameView;

    open spec fn view(&self) -> FrameView {
        FrameView {
            codec: self.codec@,
            media_time: self.media_time,
            clock_rate: self.clock_rate,
            sender: self.sender,
            contents: self.contents@,
        }
    }
}

/// What a `str0m::media::MediaData` holds.
pub uninterp spec fn frame_of(data: MediaData) -> FrameView;

/// Reads the fields of a `str0m::media::MediaData`: the printed name of its
/// codec, its media time as ticks and ticks per second, the two clocks of its
/// last sender report, if there was one, and its bytes.
#[verifier::external_body]
pub(crate) fn frame(data: MediaData) -> (r: Frame)
    ensures
        r@ == frame_of(data),
{
    Frame {
        codec: data.params.spec().codec.to_string(),
        media_time: data.time.numer(),
        clock_rate: data.time.denom(),
        sender: data.last_sender_info.map(|info| SenderClock {
            ntp_micros: info.ntp_time.duration_since(std::time::UNIX_EPOCH).ok().map(|t| t.as_micros()),
            media_time: info.rtp_time.numer(),
        }),
        contents: data.data.to_vec(),
    }
}

/// The highest bit rate that a session starts from or aims at, in bits per
/// second. str0m keeps a budget in bytes, as a signed number of 64 bits, and adds
/// to it what 65 percent of the rate makes of the time between two packets: up to
/// this rate that fits, however far two times lie apart. The rates that str0m
/// goes on to estimate are its own.
pub const MAX_BITRATE: u64 = 5_000_000_000;

/// The bit rate that a session starts from or aims at where `bitrate` is asked
/// for.
pub open spec fn spec_attainable(bitrate: u64) -> u64 {
    if bitrate > MAX_BITRATE {
        MAX_BITRATE
    } else {
        bitrate
    }
}

/// The bit rate that a session starts from or aims at where `bitrate` is asked
/// for.
pub fn attainable(bitrate: u64) -> (r: u64)
    ensures
        r == spec_attainable(bitrate),
{
    if bitrate > MAX_BITRATE {
        MAX_BITRATE
    } else {
        bitrate
    }
}

/// The most local candidates that a session takes: str0m prefers each to the
/// next of its kind by two, and starts from 32766 for the least of them.
pub const MAX_CANDIDATES: u64 = 16_384;

/// The most frames that wait on one media line: str0m refuses one on a line
/// where more than a hundred wait.
pub const MAX_WAITING: u64 = 101;

/// What is known of the frames that a session was given and has not packed yet.
/// str0m packs one of each media line whenever time moves on.
#[derive(Clone, Copy, Debug, PartialEq, Eq, Structural)]
pub struct Backlog {
    /// How many may wait on one line.
    pub waiting: u64,
    /// How many descriptions the session had when they were written.
    pub described: usize,
    /// The latest time that the session was told.
    pub latest: u64,
}

/// Whether frames that wait were written under the present one of `n`
/// descriptions, or none waits.
pub open spec fn is_current(backlog: Backlog, n: nat) -> bool {
    backlog.waiting == 0 || backlog.described == n as usize
}

/// The backlog after a frame was written under the `n`th description, with
/// this result.
pub open spec fn after_write(
    backlog: Backlog,
    n: nat,
    result: Option<Option<Result<(), String>>>,
) -> Backlog {
    match result {
        Some(Some(Ok(_))) => Backlog {
            waiting: if backlog.waiting < MAX_WAITING {
                (backlog.waiting + 1) as u64
            } else {
                backlog.waiting
            },
            described: if backlog.waiting == 0 {
                n as usize
            } else {
                backlog.described
            },
            ..backlog
        },
        _ => backlog,
    }
}

/// The backlog after an input at this time, with this result. Time does not move
/// back: an input of an earlier time packs nothing.
pub open spec fn after_input(
    backlog: Backlog,
    now: u64,
    result: Option<Result<(), String>>,
) -> Backlog {
    match result {
        Some(outcome) => Backlog {
            waiting: if outcome is Ok && now >= backlog.latest && backlog.waiting > 0 {
                (backlog.waiting - 1) as u64
            } else {
                backlog.waiting
            },
            latest: if now > backlog.latest {
                now
            } else {
                backlog.latest
            },
            ..backlog
        },
        None => backlog,
    }
}

impl Backlog {
    /// Notes an input at this time.
    fn note_input(&mut self, now: u64, result: &Option<Result<(), String>>)
        ensures
            *final(self) == after_input(*old(self), now, *result),
    {
        if let Some(outcome) = result {
            if outcome.is_ok() && now >= self.latest && self.waiting > 0 {
                self.waiting = self.waiting - 1;
            }
            if now > self.latest {
                self.latest = now;
            }
        }
    }
}

/// A running session.
pub struct Session {
    rtc: Rtc,
    epoch: Instant,
    descriptions: Vec<String>,
    additions: u64,
    backlog: Backlog,
    history: Ghost<Seq<Exchange>>,
}

/// Whether two states of a session agree on all that is kept beside the record.
pub open spec fn same_books(a: Session, b: Session) -> bool {
    &&& a.descriptions() == b.descriptions()
    &&& a.additions() == b.additions()
    &&& a.backlog() == b.backlog()
}

impl Session {
    /// Everything that passed between this library and the session's `Rtc`, in
    /// order. What the host does with the `Rtc` through [`Session::rtc_mut`] is
    /// not among it.
    pub closed spec fn history(&self) -> Seq<Exchange> {
        self.history@
    }

    /// The remote peer's descriptions that this library handed to the session's
    /// `Rtc`, in order, as str0m prints them.
    pub closed spec fn descriptions(&self) -> Seq<Seq<char>> {
        description::texts(self.descriptions@)
    }

    /// How many local candidates the session's `Rtc` took.
    pub closed spec fn additions(&self) -> u64 {
        self.additions
    }

    /// The frames that the session's `Rtc` may still have to pack.
    pub closed spec fn backlog(&self) -> Backlog {
        self.backlog
    }

    /// The session's `Rtc`.
    pub closed spec fn rtc(&self) -> Rtc {
        self.rtc
    }

    /// Starts a session with `str0m::RtcConfig::build` at the present
    /// `Instant::now`, which is the session's time zero.
    #[verifier::external_body]
    pub(crate) fn start(config: SessionConfig) -> (r: Self)
        ensures
            r.history() == seq![Exchange::Start(config.plan())],
            r.descriptions() == Seq::<Seq<char>>::empty(),
            r.additions() == 0,
            r.backlog() == (Backlog { waiting: 0, described: 0, latest: 0 }),
    {
        let epoch = Instant::now();
        Session {
            rtc: config.config.build(epoch),
            epoch,
            descriptions: Vec::new(),
            additions: 0,
            backlog: Backlog { waiting: 0, described: 0, latest: 0 },
            history: Ghost(seq![Exchange::Start(config.plan@)]),
        }
    }

    /// Reads `Instant::elapsed` since the session began, in nanoseconds. It
    /// rests on the clock, so nothing is promised of it but that the reading
    /// goes on record.
    #[verifier::external_body]
    fn read_clock(&mut self) -> (r: u128)
        ensures
            final(self).history() == old(self).history().push(Exchange::Clock(r)),
            same_books(*old(self), *final(self)),
    {
        self.epoch.elapsed().as_nanos()
    }

    /// The time since the session began: the [`nanos`] of what the clock reads,
    /// which goes on record.
    pub(crate) fn now(&mut self) -> (r: u64)
        ensures
            ({
                let reading = clock_reading(final(self).history().last());
                &&& final(self).history() == old(self).history().push(Exchange::Clock(reading))
                &&& r == spec_nanos(reading)
            }),
            same_books(*old(self), *final(self)),
    {
        nanos(self.read_clock())
    }

    /// Calls `str0m::bwe::Bwe::set_desired_bitrate` with this many bits per
    /// second. str0m probes the path at up to twice that rate, and queues as much
    /// padding as a probe takes.
    #[verifier::external_body]
    pub(crate) fn set_desired_bitrate(&mut self, bitrate: u64)
        requires
            bitrate <= MAX_BITRATE,
        ensures
            final(self).history() == old(self).history().push(Exchange::SetDesiredBitrate(bitrate)),
            same_books(*old(self), *final(self)),
    {
        self.rtc.bwe().set_desired_bitrate(Bitrate::bps(bitrate));
    }

    /// Whether the session takes one more local candidate.
    pub(crate) fn takes_candidate(&self) -> (r: bool)
        ensures
            r == (self.additions() < MAX_CANDIDATES),
    {
        self.additions < MAX_CANDIDATES
    }

    /// Hands a local candidate to the session's `Rtc`, and counts it if it is
    /// taken.
    pub(crate) fn add_candidate(&mut self, candidate: Candidate) -> (r: Option<Candidate>)
        requires
            old(self).additions() < MAX_CANDIDATES,
            is_local_kind(kind_of(candidate)),
        ensures
            final(self).history() == old(self).history().push(
                Exchange::AddCandidate { candidate, accepted: r },
            ),
            final(self).descriptions() == old(self).descriptions(),
            final(self).backlog() == old(self).backlog(),
            final(self).additions() == old(self).additions() + if r is Some {
                1int
            } else {
                0int
            },
    {
        let taken = self.apply_candidate(candidate);
        if taken.is_some() {
            self.additions = self.additions + 1;
        }
        taken
    }

    /// Calls `str0m::Rtc::add_local_candidate`, and gives the candidate as the
    /// `Rtc` took it, or `None` where it did not and keeps no more of them than
    /// before. The preference of a candidate falls by two with each of its kind
    /// that was taken before, discarded ones among them, and must not fall below
    /// zero: it starts from 65534 or more for a host candidate and from 32766 or
    /// more for a server-reflexive one.
    #[verifier::external_body]
    fn apply_candidate(&mut self, candidate: Candidate) -> (r: Option<Candidate>)
        requires
            old(self).additions() < MAX_CANDIDATES,
            is_local_kind(kind_of(candidate)),
        ensures
            final(self).history() == old(self).history().push(
                Exchange::AddCandidate { candidate, accepted: r },
            ),
            same_books(*old(self), *final(self)),
    {
        self.rtc.add_local_candidate(candidate).cloned()
    }

    /// Calls `str0m::change::DirectApi::invalidate_candidate`, which tells
    /// whether the candidate was in use.
    #[verifier::external_body]
    pub(crate) fn invalidate_candidate(&mut self, candidate: &Candidate) -> (r: bool)
        ensures
            final(self).history() == old(self).history().push(
                Exchange::InvalidateCandidate { candidate: *candidate, found: r },
            ),
            same_books(*old(self), *final(self)),
    {
        self.rtc.direct_api().invalidate_candidate(candidate)
    }

    /// Makes an offer through `str0m::change::SdpApi`: `add_media` for each of
    /// the two lines that is asked for, in this order, then `apply`, and
    /// `SdpOffer::to_sdp_string` on the offer. A line that is asked for gets an
    /// identity, and there is an offer exactly if a line was asked for.
    #[verifier::external_body]
    pub(crate) fn offer(&mut self, first: Option<TrackRequest>, second: Option<TrackRequest>) -> (r:
        Offered)
        ensures
            final(self).history() == old(self).history().push(
                Exchange::Offer {
                    first: optional_track(first),
                    second: optional_track(second),
                    offered: r,
                },
            ),
            r.first is Some <==> first is Some,
            r.second is Some <==> second is Some,
            r.offer is Some <==> first is Some || second is Some,
            same_books(*old(self), *final(self)),
    {
        let mut api = self.rtc.sdp_api();
        let mut add = |line: TrackRequest| {
            let kind = match line.kind {
                TrackKind::Audio => MediaKind::Audio,
                TrackKind::Video => MediaKind::Video,
            };
            let direction = match line.direction {
                TrackDirection::SendOnly => Direction::SendOnly,
                TrackDirection::RecvOnly => Direction::RecvOnly,
            };
            api.add_media(kind, direction, line.stream, line.track, None)
        };
        let (first, second) = (first.map(&mut add), second.map(&mut add));
        Offered { first, second, offer: api.apply().map(|(o, p)| (o.to_sdp_string(), p)) }
    }

    /// What is wrong with a description after those that the session's `Rtc` was
    /// handed before, if anything.
    pub(crate) fn fault_of(&self, text: &String) -> (r: Option<String>)
        ensures
            match description::fault(self.descriptions(), text@) {
                Some(error) => r matches Some(given) && given@ == error,
                None => r is None,
            },
    {
        description::find_fault(&self.descriptions, text.as_str())
    }

    /// Hands an answer to the session's `Rtc`, and keeps its text.
    pub(crate) fn accept_answer(
        &mut self,
        pending: SdpPendingOffer,
        answer: SdpAnswer,
        text: String,
    ) -> (r: Result<(), String>)
        requires
            text@ == answer_text(answer),
            description::fault(old(self).descriptions(), text@) is None,
            old(self).backlog().waiting == 0,
        ensures
            final(self).history() == old(self).history().push(
                Exchange::AcceptAnswer { pending, answer, result: r },
            ),
            final(self).descriptions() == description::kept(
                old(self).descriptions(),
                text@,
                r is Ok,
            ),
            final(self).additions() == old(self).additions(),
            final(self).backlog() == old(self).backlog(),
    {
        let ghost before = self.descriptions();
        self.descriptions.push(text);
        assert(self.descriptions() =~= before.push(text@));
        assert(self.descriptions().drop_last() =~= before);
        let r = self.apply_answer(pending, answer);
        self.forget_refused(r.is_ok());
        r
    }

    /// Forgets the last description if it was refused and took no effect.
    fn forget_refused(&mut self, accepted: bool)
        requires
            old(self).descriptions().len() > 0,
        ensures
            final(self).history() == old(self).history(),
            final(self).descriptions() == description::kept(
                old(self).descriptions().drop_last(),
                old(self).descriptions().last(),
                accepted,
            ),
            final(self).additions() == old(self).additions(),
            final(self).backlog() == old(self).backlog(),
    {
        let ghost before = self.descriptions();
        assert(before.drop_last().push(before.last()) =~= before);
        if !accepted && !description::any_opens_channel(&self.descriptions) {
            self.descriptions.pop();
            assert(self.descriptions() =~= before.drop_last());
        }
    }

    /// Calls `str0m::change::SdpApi::accept_answer` on an answer whose text is
    /// the last of the session's descriptions, and with which nothing is wrong
    /// after those before it. str0m takes for granted that no two lines of it
    /// share an identity, that where the remote peer receives no payload type is
    /// claimed twice, and that the ICE user fragment leaves room in a message.
    /// An answer that it refuses has claimed none, unless a description so far
    /// opens a data channel. No frame may wait: the payload type that it was
    /// written with need not outlast the answer.
    #[verifier::external_body]
    fn apply_answer(&mut self, pending: SdpPendingOffer, answer: SdpAnswer) -> (r: Result<
        (),
        String,
    >)
        requires
            old(self).descriptions().len() > 0,
            old(self).descriptions().last() == answer_text(answer),
            description::fault(
                old(self).descriptions().drop_last(),
                old(self).descriptions().last(),
            ) is None,
            old(self).backlog().waiting == 0,
        ensures
            final(self).history() == old(self).history().push(
                Exchange::AcceptAnswer { pending, answer, result: r },
            ),
            same_books(*old(self), *final(self)),
    {
        self.rtc.sdp_api().accept_answer(pending, answer).map_err(|error| error.to_string())
    }

    /// Hands an offer to the session's `Rtc`, and keeps its text.
    pub(crate) fn accept_offer(&mut self, offer: SdpOffer, text: String) -> (r: Result<
        String,
        String,
    >)
        requires
            text@ == offer_text(offer),
            description::fault(old(self).descriptions(), text@) is None,
            old(self).backlog().waiting == 0,
        ensures
            final(self).history() == old(self).history().push(
                Exchange::AcceptOffer { offer, result: r },
            ),
            final(self).descriptions() == description::kept(
                old(self).descriptions(),
                text@,
                r is Ok,
            ),
            final(self).additions() == old(self).additions(),
            final(self).backlog() == old(self).backlog(),
    {
        let ghost before = self.descriptions();
        self.descriptions.push(text);
        assert(self.descriptions() =~= before.push(text@));
        assert(self.descriptions().drop_last() =~= before);
        let r = self.apply_offer(offer);
        self.forget_refused(r.is_ok());
        r
    }

    /// Calls `str0m::change::SdpApi::accept_offer`, and
    /// `SdpAnswer::to_sdp_string` on the answer, for an offer whose text is the
    /// last of the session's descriptions, as [`Session::apply_answer`] needs of
    /// an answer.
    #[verifier::external_body]
    fn apply_offer(&mut self, offer: SdpOffer) -> (r: Result<String, String>)
        requires
            old(self).descriptions().len() > 0,
            old(self).descriptions().last() == offer_text(offer),
            description::fault(
                old(self).descriptions().drop_last(),
                old(self).descriptions().last(),
            ) is None,
            old(self).backlog().waiting == 0,
        ensures
            final(self).history() == old(self).history().push(
                Exchange::AcceptOffer { offer, result: r },
            ),
            same_books(*old(self), *final(self)),
    {
        match self.rtc.sdp_api().accept_offer(offer) {
            Ok(answer) => Ok(answer.to_sdp_string()),
            Err(error) => Err(error.to_string()),
        }
    }

    /// The frames that the session's `Rtc` may still have to pack.
    pub(crate) fn frames(&self) -> (r: Backlog)
        ensures
            r == self.backlog(),
    {
        self.backlog
    }

    /// Whether frames that wait were written under the present description.
    pub(crate) fn frames_are_current(&self) -> (r: bool)
        ensures
            r == is_current(self.backlog(), self.descriptions().len()),
    {
        self.backlog.waiting == 0 || self.backlog.described == self.descriptions.len()
    }

    /// Tells the session's `Rtc` the time, and notes which frames it packed.
    pub(crate) fn handle_timeout(&mut self, now: u64) -> (r: Option<Result<(), String>>)
        requires
            is_current(old(self).backlog(), old(self).descriptions().len()),
        ensures
            final(self).history() == old(self).history().push(Exchange::Timeout { now, result: r }),
            final(self).descriptions() == old(self).descriptions(),
            final(self).additions() == old(self).additions(),
            final(self).backlog() == after_input(old(self).backlog(), now, r),
    {
        let r = self.apply_timeout(now);
        self.backlog.note_input(now, &r);
        r
    }

    /// Calls `str0m::Rtc::handle_input` with `Input::Timeout` at a time counted
    /// from the session's beginning. Gives `None`, and leaves the `Rtc` alone,
    /// if an `Instant` cannot hold that time. On success, and unless time would
    /// move back, one frame that waits on each line is packed. str0m takes for
    /// granted that the payload type it was written with is still configured,
    /// which no description has changed since.
    #[verifier::external_body]
    fn apply_timeout(&mut self, now: u64) -> (r: Option<Result<(), String>>)
        requires
            is_current(old(self).backlog(), old(self).descriptions().len()),
        ensures
            final(self).history() == old(self).history().push(Exchange::Timeout { now, result: r }),
            same_books(*old(self), *final(self)),
    {
        let at = self.epoch.checked_add(Duration::from_nanos(now))?;
        Some(self.rtc.handle_input(Input::Timeout(at)).map_err(|error| error.to_string()))
    }

    /// Hands a datagram to the session's `Rtc`, if it is recognised, and notes
    /// which frames the `Rtc` packed.
    pub(crate) fn receive(&mut self, now: u64, source: &str, destination: &str, contents: &[u8]) -> (r:
        Option<Option<Result<(), String>>>)
        requires
            is_current(old(self).backlog(), old(self).descriptions().len()),
        ensures
            r is Some <==> recognised(source@, destination@, contents@),
            r is Some ==> is_multiplexed(contents@),
            final(self).descriptions() == old(self).descriptions(),
            final(self).additions() == old(self).additions(),
            match r {
                Some(result) => {
                    &&& final(self).history() == old(self).history().push(
                        Exchange::Receive {
                            now,
                            source: source@,
                            destination: destination@,
                            contents: contents@,
                            result,
                        },
                    )
                    &&& final(self).backlog() == after_input(old(self).backlog(), now, result)
                },
                None => final(self).history() == old(self).history() && final(self).backlog()
                    == old(self).backlog(),
            },
    {
        let r = self.apply_datagram(now, source, destination, contents);
        if let Some(result) = &r {
            self.backlog.note_input(now, result);
        }
        r
    }

    /// Parses a UDP datagram with `str0m::net::Receive::new` and, if it is
    /// recognised, calls `str0m::Rtc::handle_input` with `Input::Receive`. Gives
    /// `None`, and leaves the `Rtc` alone, if it is not recognised, and
    /// `Some(None)` if an `Instant` cannot hold the time. Frames that wait are
    /// packed as by [`Session::apply_timeout`]. A datagram is recognised only if
    /// its length and its first byte are those of a protocol that shares the
    /// socket.
    #[verifier::external_body]
    fn apply_datagram(&mut self, now: u64, source: &str, destination: &str, contents: &[u8]) -> (r:
        Option<Option<Result<(), String>>>)
        requires
            is_current(old(self).backlog(), old(self).descriptions().len()),
        ensures
            r is Some <==> recognised(source@, destination@, contents@),
            r is Some ==> is_multiplexed(contents@),
            match r {
                Some(result) => final(self).history() == old(self).history().push(
                    Exchange::Receive {
                        now,
                        source: source@,
                        destination: destination@,
                        contents: contents@,
                        result,
                    },
                ),
                None => final(self).history() == old(self).history(),
            },
            same_books(*old(self), *final(self)),
    {
        let (source, destination) = (source.parse().ok()?, destination.parse().ok()?);
        let datagram = Receive::new(Protocol::Udp, source, destination, contents).ok()?;
        let at = self.epoch.checked_add(Duration::from_nanos(now));
        Some(
            at.map(|at| self.rtc.handle_input(Input::Receive(at, datagram)))
                .map(|result| result.map_err(|error| error.to_string())),
        )
    }

    /// Calls `str0m::Rtc::poll_output` and tells its outputs and events apart.
    #[verifier::external_body]
    pub(crate) fn poll(&mut self) -> (r: Result<Report, String>)
        ensures
            final(self).history() == old(self).history().push(Exchange::Poll(r)),
            same_books(*old(self), *final(self)),
    {
        Ok(match self.rtc.poll_output().map_err(|error| error.to_string())? {
            Timeout(at) => Report::Timeout(at.saturating_duration_since(self.epoch).as_nanos()),
            Transmit(t) => Report::Transmit(t.source.to_string(), t.destination.to_string(), t.contents.into()),
            Event(Connected) => Report::Connected,
            Event(IceConnectionStateChange(state)) => Report::IceStateChange(state),
            Event(KeyframeRequest(_)) => Report::KeyframeRequest,
            Event(EgressBitrateEstimate(Twcc(rate) | Remb(_, rate))) => Report::BitrateEstimate(rate.as_u64()),
            Event(Closed) => Report::Closed,
            Event(str0m::Event::MediaData(data)) => Report::MediaData(data),
            Event(_) => Report::Other,
        })
    }

    /// Lists `str0m::media::Writer::payload_params` of a media line, as payload
    /// types and printed codec names, or gives `None` if `str0m::Rtc::writer`
    /// has no writer for it.
    #[verifier::external_body]
    pub(crate) fn payloads(&mut self, mid: Mid) -> (r: Option<Vec<Payload>>)
        ensures
            final(self).history() == old(self).history().push(Exchange::Payloads { mid, result: r }),
            same_books(*old(self), *final(self)),
    {
        let writer = self.rtc.writer(mid)?;
        let payload = |p: &str0m::format::PayloadParams| Payload {
            payload_type: *p.pt(),
            codec: p.spec().codec.to_string(),
        };
        Some(writer.payload_params().map(payload).collect())
    }

    /// Gives a frame to the session's `Rtc`, and notes that it waits.
    pub(crate) fn write(
        &mut self,
        mid: Mid,
        payload_type: u8,
        now: u64,
        media_time: u64,
        clock_rate: u32,
        data: Vec<u8>,
    ) -> (r: Option<Option<Result<(), String>>>)
        requires
            clock_rate != 0,
        ensures
            final(self).history() == old(self).history().push(
                Exchange::Write {
                    mid,
                    payload_type,
                    now,
                    media_time,
                    clock_rate,
                    data: data@,
                    result: r,
                },
            ),
            final(self).descriptions() == old(self).descriptions(),
            final(self).additions() == old(self).additions(),
            final(self).backlog() == after_write(
                old(self).backlog(),
                old(self).descriptions().len(),
                r,
            ),
    {
        let r = self.apply_frame(mid, payload_type, now, media_time, clock_rate, data);
        if let Some(Some(Ok(_))) = &r {
            if self.backlog.waiting == 0 {
                self.backlog.described = self.descriptions.len();
            }
            if self.backlog.waiting < MAX_WAITING {
                self.backlog.waiting = self.backlog.waiting + 1;
            }
        }
        r
    }

    /// Calls `str0m::media::Writer::write` with a media time of this many ticks
    /// at this clock rate. Gives `None` if `str0m::Rtc::writer` has no writer
    /// for the line, and `Some(None)` if an `Instant` cannot hold the time. A
    /// frame that is taken waits on its line, where no more than
    /// [`MAX_WAITING`] do.
    #[verifier::external_body]
    fn apply_frame(
        &mut self,
        mid: Mid,
        payload_type: u8,
        now: u64,
        media_time: u64,
        clock_rate: u32,
        data: Vec<u8>,
    ) -> (r: Option<Option<Result<(), String>>>)
        requires
            clock_rate != 0,
        ensures
            final(self).history() == old(self).history().push(
                Exchange::Write {
                    mid,
                    payload_type,
                    now,
                    media_time,
                    clock_rate,
                    data: data@,
                    result: r,
                },
            ),
            same_books(*old(self), *final(self)),
    {
        let writer = self.rtc.writer(mid)?;
        let time = MediaTime::new(media_time, Frequency::new(clock_rate)?);
        let at = self.epoch.checked_add(Duration::from_nanos(now));
        Some(
            at.map(|at| writer.write(payload_type.into(), at, time, data))
                .map(|result| result.map_err(|error| error.to_string())),
        )
    }

    /// The `Rtc` itself, for the host to reach what this library does not use.
    pub(crate) fn rtc_mut(&mut self) -> (r: &mut Rtc)
        ensures
            *r == old(self).rtc(),
            final(self).rtc() == *final(r),
            final(self).history() == old(self).history(),
            same_books(*old(self), *final(self)),
    {
        &mut self.rtc
    }
}

/// What the clock read, where an exchange is a reading of it.
pub open spec fn clock_reading(exchange: Exchange) -> u128 {
    match exchange {
        Exchange::Clock(reading) => reading,
        _ => 0,
    }
}

/// The nanoseconds that a time counts as: those that fit in 64 bits, and the
/// largest such number beyond them.
pub open spec fn spec_nanos(time: u128) -> u64 {
    if time > u64::MAX {
        u64::MAX
    } else {
        time as u64
    }
}

/// The nanoseconds that a time counts as.
pub fn nanos(time: u128) -> (r: u64)
    ensures
        r == spec_nanos(time),
{
    if time > u64::MAX as u128 {
        u64::MAX
    } else {
        time as u64
    }
}

} // verus!
