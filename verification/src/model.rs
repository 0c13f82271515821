//! What a publisher's state is, and how each thing that happens changes it.
use str0m::change::{SdpAnswer, SdpOffer, SdpPendingOffer};
use str0m::media::Mid;
use str0m::Candidate;
use vstd::prelude::*;

use crate::codec::Codec;
use crate::description;
use crate::publisher::Publisher;
use crate::session;
use crate::session::{
    AudioFormatView, Backlog, Exchange, FrameView, IceState, Payload, Report, SenderClock,
    SessionPlan, TrackDirection, TrackKind, TrackView,
};

verus! {

/// Something that the application is told.
#[derive(Debug, PartialEq, Eq, Structural)]
pub enum PeerEvent {
    Connected,
    Disconnected,
    Closed,
    KeyframeRequest,
}

/// A datagram to send. Addresses are written as `SocketAddr` prints them.
#[derive(Debug)]
pub struct Transmit {
    pub source: String,
    pub destination: String,
    pub contents: Vec<u8>,
    /// The transport-wide sequence number of the packet, where the session
    /// reports one.
    pub transport_sequence: Option<u64>,
}

/// A frame that arrived from the remote peer.
#[derive(Debug)]
pub struct Media {
    pub codec: Codec,
    pub media_time: u64,
    pub clock_rate: u32,
    pub ntp_micros: Option<u64>,
    pub sender_media_time: u64,
    pub contents: Vec<u8>,
}

/// What a [`Media`] holds.
pub struct MediaView {
    pub codec: Codec,
    pub media_time: u64,
    pub clock_rate: u32,
    pub ntp_micros: Option<u64>,
    pub sender_media_time: u64,
    pub contents: Seq<u8>,
}

impl View for Media {
    type V = MediaView;

    open spec fn view(&self) -> MediaView {
        MediaView {
            codec: self.codec,
            media_time: self.media_time,
            clock_rate: self.clock_rate,
            ntp_micros: self.ntp_micros,
            sender_media_time: self.sender_media_time,
            contents: self.contents@,
        }
    }
}

/// Work on the transport that the host carries out, in order, once the operation
/// that asks for it has returned: str0m's extensions for path changes and bonded
/// paths.
#[derive(Clone, Copy, Debug)]
pub enum EngineRequest {
    /// Drop the media that this line has queued and not yet sent.
    DiscardQueuedMedia(Mid),
    /// Probe the capacity of the path.
    ProbePath,
    /// Restart the bandwidth estimate on a changed path.
    RestartEstimate,
    /// Attribute the packet with this sequence number to a path, or to none.
    AttributePath { sequence: u64, path: Option<u64> },
}

/// The state of a publisher.
#[verifier::ext_equal]
pub struct PublisherState {
    /// Everything that passed between the publisher and its session, readings
    /// of the clock among it. What the host does with the session's `Rtc`
    /// through `Publisher::rtc_mut` is not on record.
    pub exchanges: Seq<Exchange>,
    /// The remote peer's descriptions that the session was handed, as str0m
    /// prints them.
    pub descriptions: Seq<Seq<char>>,
    /// How many local candidates the session took.
    pub additions: u64,
    /// The frames that the session may still have to pack.
    pub backlog: Backlog,
    /// The local candidates in use, each with the address of its interface.
    pub candidates: Seq<(Seq<char>, Candidate)>,
    /// The offer that awaits its answer.
    pub pending: Option<SdpPendingOffer>,
    pub audio_mid: Option<Mid>,
    pub video_mid: Option<Mid>,
    /// Datagrams, events, frames and bandwidth estimates not yet collected.
    pub output: Seq<Transmit>,
    pub events: Seq<PeerEvent>,
    pub media: Seq<MediaView>,
    pub estimates: Seq<u64>,
    /// Work for the host, not yet collected.
    pub requests: Seq<EngineRequest>,
    /// When the publisher next wants to be told the time.
    pub next_timeout: Option<u64>,
    /// How long an established session outlives an ICE disconnect.
    pub grace: u64,
    /// When the present ICE disconnect counts as final.
    pub deadline: Option<u64>,
    /// Whether the application was told of a final disconnect.
    pub reported: bool,
    pub ever_connected: bool,
    pub audio_codec: Option<Codec>,
    pub video_enabled: bool,
    /// Whether bandwidth is estimated.
    pub estimating: bool,
}

impl PublisherState {
    /// The state with one more exchange on record.
    pub open spec fn with(self, exchange: Exchange) -> PublisherState {
        PublisherState { exchanges: self.exchanges.push(exchange), ..self }
    }

    /// The state with one more input to the session on record.
    pub open spec fn with_input(
        self,
        exchange: Exchange,
        now: u64,
        result: Option<Result<(), String>>,
    ) -> PublisherState {
        PublisherState {
            backlog: session::after_input(self.backlog, now, result),
            ..self.with(exchange)
        }
    }

    /// The state with one more reading of the clock on record.
    pub open spec fn at(self, reading: u128) -> PublisherState {
        self.with(Exchange::Clock(reading))
    }

    /// The state with one more piece of work for the host.
    pub open spec fn asking(self, request: EngineRequest) -> PublisherState {
        PublisherState { requests: self.requests.push(request), ..self }
    }

    /// A disconnect is being waited out only by an established session that has
    /// a grace period and has not reported a disconnect, at most the latest
    /// bandwidth estimate awaits collection, and frames that wait are current.
    pub open spec fn consistent(self) -> bool {
        &&& self.current()
        &&& self.deadline is Some ==> self.ever_connected && self.grace != 0 && !self.reported
        &&& self.estimates.len() <= 1
    }

    /// Whether frames that wait to be packed were written under the present
    /// description.
    pub open spec fn current(self) -> bool {
        session::is_current(self.backlog, self.descriptions.len())
    }

    /// The media line that a codec is sent on.
    pub open spec fn mid_for(self, codec: Codec) -> Option<Mid> {
        if codec.spec_is_audio() {
            self.audio_mid
        } else {
            self.video_mid
        }
    }
}

/// `now` and a span after it, which does not reach beyond the largest time.
pub open spec fn later(now: u64, span: u64) -> u64 {
    if now + span > u64::MAX {
        u64::MAX
    } else {
        (now + span) as u64
    }
}

/// The requests to drop the queued media of every line there is.
pub open spec fn discards(audio_mid: Option<Mid>, video_mid: Option<Mid>) -> Seq<EngineRequest> {
    let audio = match audio_mid {
        Some(mid) => seq![EngineRequest::DiscardQueuedMedia(mid)],
        None => Seq::empty(),
    };
    match video_mid {
        Some(mid) => audio.push(EngineRequest::DiscardQueuedMedia(mid)),
        None => audio,
    }
}

/// The effect of a change of the ICE state. Connectivity ends the wait for a
/// final disconnect. A disconnect starts that wait, unless it runs already,
/// where the session was established and has a grace period; where not, it is
/// final at once. Once a disconnect was reported, further ones change nothing.
pub open spec fn after_ice_state(s: PublisherState, state: IceState, now: u64) -> PublisherState {
    match state {
        IceState::Connected | IceState::Completed => PublisherState { deadline: None, ..s },
        IceState::Disconnected => if s.reported {
            s
        } else if s.ever_connected && s.grace != 0 {
            PublisherState {
                deadline: Some(
                    match s.deadline {
                        Some(deadline) => deadline,
                        None => later(now, s.grace),
                    },
                ),
                requests: s.requests + discards(s.audio_mid, s.video_mid),
                ..s
            }
        } else {
            PublisherState { reported: true, events: s.events.push(PeerEvent::Disconnected), ..s }
        },
        IceState::New | IceState::Checking => s,
    }
}

/// The effect of a disconnect's deadline being reached: the disconnect is
/// final, and reported.
pub open spec fn after_deadline(s: PublisherState, now: u64) -> PublisherState {
    match s.deadline {
        Some(deadline) if now >= deadline => PublisherState {
            deadline: None,
            reported: true,
            events: s.events.push(PeerEvent::Disconnected),
            ..s
        },
        _ => s,
    }
}

/// The earlier of a time and a deadline, if there is one.
pub open spec fn earlier(time: u64, deadline: Option<u64>) -> u64 {
    match deadline {
        Some(deadline) if deadline < time => deadline,
        _ => time,
    }
}

/// The sender's wall clock, in microseconds since the Unix epoch and no more
/// than 64 bits hold, and its media clock. Both are given only where the last
/// sender report's time does not lie before the epoch.
pub open spec fn sender_clock(sender: Option<SenderClock>) -> (Option<u64>, u64) {
    match sender {
        Some(SenderClock { ntp_micros: Some(micros), media_time }) => (
            Some(session::spec_nanos(micros)),
            media_time,
        ),
        _ => (None, 0),
    }
}

/// The frame that the application gets, if its codec is one of ours.
pub open spec fn media_of(frame: FrameView) -> Option<MediaView> {
    match Codec::spec_from_name(frame.codec) {
        Some(codec) => Some(
            MediaView {
                codec,
                media_time: frame.media_time,
                clock_rate: frame.clock_rate,
                ntp_micros: sender_clock(frame.sender).0,
                sender_media_time: sender_clock(frame.sender).1,
                contents: frame.contents,
            },
        ),
        None => None,
    }
}

/// The effect of a report from the session.
pub open spec fn after_report(s: PublisherState, report: Report, now: u64) -> PublisherState {
    match report {
        Report::Timeout(at) => {
            let s = after_deadline(s, now);
            PublisherState { next_timeout: Some(earlier(session::spec_nanos(at), s.deadline)), ..s }
        },
        Report::Transmit(source, destination, contents) => PublisherState {
            output: s.output.push(
                Transmit { source, destination, contents, transport_sequence: None },
            ),
            ..s
        },
        Report::Connected => PublisherState {
            ever_connected: true,
            events: s.events.push(PeerEvent::Connected),
            ..s
        },
        Report::IceStateChange(state) => after_ice_state(s, session::ice_state_of(state), now),
        Report::KeyframeRequest => PublisherState {
            events: s.events.push(PeerEvent::KeyframeRequest),
            ..s
        },
        Report::BitrateEstimate(bitrate) => PublisherState { estimates: seq![bitrate], ..s },
        Report::Closed => PublisherState {
            deadline: None,
            events: s.events.push(PeerEvent::Closed),
            ..s
        },
        Report::MediaData(data) => match media_of(session::frame_of(data)) {
            Some(media) => PublisherState { media: s.media.push(media), ..s },
            None => s,
        },
        Report::Other => s,
    }
}

/// The effect of one poll of the session.
pub open spec fn after_poll(s: PublisherState, poll: Exchange, now: u64) -> PublisherState {
    match poll {
        Exchange::Poll(Ok(report)) => after_report(s.with(poll), report, now),
        _ => s.with(poll),
    }
}

/// The effect of a run of polls of the session.
pub open spec fn after_polls(s: PublisherState, polls: Seq<Exchange>, now: u64) -> PublisherState
    decreases polls.len(),
{
    if polls.len() == 0 {
        s
    } else {
        after_poll(after_polls(s, polls.drop_last(), now), polls.last(), now)
    }
}

/// Whether an exchange is a poll after which the session is polled again.
pub open spec fn goes_on(exchange: Exchange) -> bool {
    exchange matches Exchange::Poll(Ok(report)) && !(report is Timeout)
}

/// The number of polls after which a session that still reports is given up.
pub const MAX_POLLS: u64 = 0xffff_ffff_ffff_ffff;

/// Whether `r` is an error with this text.
pub open spec fn fails<T>(r: Result<T, String>, text: Seq<char>) -> bool {
    r matches Err(error) && error@ == text
}

/// Whether these polls are a drain of the session with the outcome `r`: polls
/// until the session has nothing more to report, which is success, or fails,
/// which is the drain's failure.
pub open spec fn is_drain(polls: Seq<Exchange>, r: Result<(), String>) -> bool {
    &&& polls.len() > 0
    &&& forall|i: int| 0 <= i < polls.len() - 1 ==> #[trigger] goes_on(polls[i])
    &&& match polls.last() {
        Exchange::Poll(Ok(Report::Timeout(_))) => r is Ok,
        Exchange::Poll(Ok(_)) => polls.len() == MAX_POLLS && fails(
            r,
            "the session does not come to rest"@,
        ),
        Exchange::Poll(Err(error)) => r == Err::<(), String>(error),
        _ => false,
    }
}

/// Whether a drain of the session leads from `pre` to `post` with the outcome
/// `r`: the exchanges that `post` has beyond those of `pre` are a drain, and
/// each of its reports took effect.
pub open spec fn drained(
    pre: PublisherState,
    post: PublisherState,
    now: u64,
    r: Result<(), String>,
) -> bool {
    let polls = post.exchanges.skip(pre.exchanges.len() as int);
    &&& is_drain(polls, r)
    &&& post == after_polls(pre, polls, now)
}

/// What comes of a call on the session that depends on the time.
pub open spec fn timely(result: Option<Result<(), String>>) -> Result<(), Seq<char>> {
    match result {
        Some(result) => session::outcome(result),
        None => Err("time is out of range"@),
    }
}

/// Whether the outcome `result` of a call on the session leads from `pre` to
/// `post`: after a success through a drain, and after a failure to that
/// failure.
pub open spec fn drained_after(
    result: Option<Result<(), String>>,
    pre: PublisherState,
    post: PublisherState,
    now: u64,
    r: Result<(), String>,
) -> bool {
    match timely(result) {
        Ok(_) => drained(pre, post, now, r),
        Err(text) => post == pre && fails(r, text),
    }
}

/// The grace period of a publisher: 15 seconds, in nanoseconds.
pub const DISCONNECT_GRACE: u64 = 15_000_000_000;

/// The format that AAC audio is sent in: AAC-hbr at 48 kHz, in stereo, with one
/// access unit to a packet.
pub open spec fn aac_format() -> AudioFormatView {
    AudioFormatView {
        payload_type: 112,
        name: Codec::Aac.spec_name(),
        clock_rate: 48_000,
        channels: 2,
        parameters: "config=1190;streamtype=5;profile-level-id=1;mode=AAC-hbr;sizeLength=13;indexLength=3;indexDeltaLength=3"@,
    }
}

/// What is wrong with a choice of tracks, if anything.
pub open spec fn track_fault(audio: Option<Codec>, video: Option<Codec>) -> Option<Seq<char>> {
    if audio is None && video is None {
        Some("at least one media track is required"@)
    } else if audio is Some && !audio->0.spec_is_audio() {
        Some("audio must use Opus or AAC"@)
    } else if video is Some && video->0.spec_is_audio() {
        Some("video must use H264 or H265"@)
    } else {
        None
    }
}

/// What is wrong with an audio codec, if anything, where `known_as` is what the
/// transport makes of AAC's name: it knows a codec that it carries by its name.
pub open spec fn codec_fault(audio: Option<Codec>, known_as: Seq<char>) -> Option<Seq<char>> {
    if audio == Some(Codec::Aac) && known_as != Codec::Aac.spec_name() {
        Some("the transport does not carry AAC"@)
    } else {
        None
    }
}

/// The bit rate that a session starts from where `bitrate` is asked for.
pub open spec fn starting_bitrate(bitrate: Option<u64>) -> Option<u64> {
    match bitrate {
        Some(bitrate) => Some(session::spec_attainable(bitrate)),
        None => None,
    }
}

/// What a session is told to aim at this bit rate.
pub open spec fn aim(bitrate: u64) -> Exchange {
    Exchange::SetDesiredBitrate(session::spec_attainable(bitrate))
}

/// The state of a session that has just been set up. Bandwidth is estimated
/// from `initial_bitrate` on, if there is one, towards `desired_bitrate`, or
/// towards `initial_bitrate` if that is all there is; either is the highest bit
/// rate that a session takes where it lies beyond that.
pub open spec fn initial_state(
    audio: Option<Codec>,
    h264: bool,
    h265: bool,
    initial_bitrate: Option<u64>,
    desired_bitrate: Option<u64>,
    grace: u64,
) -> PublisherState {
    let start = Exchange::Start(
        SessionPlan {
            opus: audio == Some(Codec::Opus),
            h264,
            h265,
            formats: if audio == Some(Codec::Aac) {
                seq![aac_format()]
            } else {
                Seq::empty()
            },
            initial_bitrate: starting_bitrate(initial_bitrate),
        },
    );
    PublisherState {
        exchanges: match (desired_bitrate, initial_bitrate) {
            (Some(bitrate), _) => seq![start, aim(bitrate)],
            (None, Some(bitrate)) => seq![start, aim(bitrate)],
            (None, None) => seq![start],
        },
        descriptions: Seq::empty(),
        additions: 0,
        backlog: Backlog { waiting: 0, described: 0, latest: 0 },
        candidates: Seq::empty(),
        pending: None,
        audio_mid: None,
        video_mid: None,
        output: Seq::empty(),
        events: Seq::empty(),
        media: Seq::empty(),
        estimates: Seq::empty(),
        requests: Seq::empty(),
        next_timeout: None,
        grace,
        deadline: None,
        reported: false,
        ever_connected: false,
        audio_codec: audio,
        video_enabled: h264 || h265,
        estimating: initial_bitrate is Some,
    }
}

/// Whether `r` is what comes of a request for a publisher: the fault of its
/// tracks, if there is one, and otherwise a publisher in its initial state.
pub open spec fn created(
    audio: Option<Codec>,
    video: Option<Codec>,
    initial_bitrate: Option<u64>,
    desired_bitrate: Option<u64>,
    r: Result<Publisher, String>,
) -> bool {
    match (
        track_fault(audio, video),
        codec_fault(audio, session::engine_codec_name(Codec::Aac.spec_name())),
    ) {
        (Some(text), _) => fails(r, text),
        (None, Some(text)) => fails(r, text),
        (None, None) => r matches Ok(publisher) && publisher@ == initial_state(
            audio,
            video == Some(Codec::H264),
            video == Some(Codec::H265),
            initial_bitrate,
            desired_bitrate,
            DISCONNECT_GRACE,
        ),
    }
}

/// What keeps a session from taking a candidate, if anything.
pub open spec fn candidate_fault(s: PublisherState, candidate: Candidate) -> Option<Seq<char>> {
    if !session::is_local_kind(session::kind_of(candidate)) {
        Some("only host and server-reflexive candidates are local"@)
    } else if s.additions >= session::MAX_CANDIDATES {
        Some("too many local candidates"@)
    } else {
        None
    }
}

/// Whether adding a local candidate leads from `pre` to `post`. `made` is the
/// candidate, or why there is none. It is handed to the session, kept under the
/// address `base` in the form in which the session took it, if it did, and the
/// session is drained.
pub open spec fn candidate_added(
    pre: PublisherState,
    post: PublisherState,
    base: Seq<char>,
    made: Result<Candidate, Seq<char>>,
    now: u64,
    r: Result<(), String>,
) -> bool {
    match made {
        Err(text) => post == pre && fails(r, text),
        Ok(candidate) => match candidate_fault(pre, candidate) {
            Some(text) => post == pre && fails(r, text),
            None => match post.exchanges[pre.exchanges.len() as int] {
                Exchange::AddCandidate { candidate: given, accepted } => {
                    &&& given == candidate
                    &&& drained(candidate_kept(pre, base, given, accepted), post, now, r)
                },
                _ => false,
            },
        },
    }
}

/// The state in which the session was handed a candidate, and took it or not.
pub open spec fn candidate_kept(
    pre: PublisherState,
    base: Seq<char>,
    candidate: Candidate,
    accepted: Option<Candidate>,
) -> PublisherState {
    let s = pre.with(Exchange::AddCandidate { candidate, accepted });
    match accepted {
        Some(taken) => PublisherState {
            candidates: s.candidates.push((base, taken)),
            additions: (s.additions + 1) as u64,
            ..s
        },
        None => s,
    }
}

/// The candidates of the interface with this address.
pub open spec fn candidates_of(
    candidates: Seq<(Seq<char>, Candidate)>,
    base: Seq<char>,
) -> Seq<(Seq<char>, Candidate)> {
    candidates.filter(|c: (Seq<char>, Candidate)| c.0 == base)
}

/// The candidates of the other interfaces.
pub open spec fn candidates_beside(
    candidates: Seq<(Seq<char>, Candidate)>,
    base: Seq<char>,
) -> Seq<(Seq<char>, Candidate)> {
    candidates.filter(|c: (Seq<char>, Candidate)| c.0 != base)
}

/// The datagrams that are not sent from this address.
pub open spec fn output_beside(output: Seq<Transmit>, base: Seq<char>) -> Seq<Transmit> {
    output.filter(|t: Transmit| t.source@ != base)
}

/// One more candidate belongs to its own interface and to no other.
pub proof fn candidate_falls_to_one_side(
    candidates: Seq<(Seq<char>, Candidate)>,
    base: Seq<char>,
    i: int,
)
    requires
        0 <= i < candidates.len(),
    ensures
        candidates[i].0 == base ==> candidates_of(candidates.take(i + 1), base) == candidates_of(
            candidates.take(i),
            base,
        ).push(candidates[i]) && candidates_beside(candidates.take(i + 1), base)
            == candidates_beside(candidates.take(i), base),
        candidates[i].0 != base ==> candidates_of(candidates.take(i + 1), base) == candidates_of(
            candidates.take(i),
            base,
        ) && candidates_beside(candidates.take(i + 1), base) == candidates_beside(
            candidates.take(i),
            base,
        ).push(candidates[i]),
{
    reveal(Seq::filter);
    assert(candidates.take(i + 1).drop_last() =~= candidates.take(i));
}

/// One more datagram is kept unless it is sent from this address.
pub proof fn datagram_is_kept_or_dropped(output: Seq<Transmit>, base: Seq<char>, i: int)
    requires
        0 <= i < output.len(),
    ensures
        output_beside(output.take(i + 1), base) == if output[i].source@ == base {
            output_beside(output.take(i), base)
        } else {
            output_beside(output.take(i), base).push(output[i])
        },
{
    reveal(Seq::filter);
    assert(output.take(i + 1).drop_last() =~= output.take(i));
}

/// Whether these exchanges invalidate these candidates, in order.
pub open spec fn invalidate(
    exchanges: Seq<Exchange>,
    candidates: Seq<(Seq<char>, Candidate)>,
) -> bool {
    &&& exchanges.len() == candidates.len()
    &&& forall|i: int|
        0 <= i < exchanges.len() ==> (#[trigger] exchanges[i] matches Exchange::InvalidateCandidate {
            candidate,
            ..
        } && candidate == candidates[i].1)
}

/// Whether withdrawing an interface leads from `pre` to `post`: its candidates
/// are invalidated and forgotten, what was to be sent from it is dropped, and
/// the session is drained.
pub open spec fn interface_removed(
    pre: PublisherState,
    post: PublisherState,
    base: Seq<char>,
    now: u64,
    r: Result<(), String>,
) -> bool {
    let n = pre.exchanges.len() as int;
    let gone = candidates_of(pre.candidates, base);
    let invalidations = post.exchanges.subrange(n, n + gone.len());
    &&& post.exchanges.len() >= n + gone.len()
    &&& invalidate(invalidations, gone)
    &&& drained(
        PublisherState {
            exchanges: pre.exchanges + invalidations,
            candidates: candidates_beside(pre.candidates, base),
            output: output_beside(pre.output, base),
            ..pre
        },
        post,
        now,
        r,
    )
}

/// The line that sends audio.
pub open spec fn sent_audio() -> TrackView {
    TrackView {
        kind: TrackKind::Audio,
        direction: TrackDirection::SendOnly,
        stream: Some("waga"@),
        track: Some("audio"@),
    }
}

/// The line that sends video.
pub open spec fn sent_video() -> TrackView {
    TrackView {
        kind: TrackKind::Video,
        direction: TrackDirection::SendOnly,
        stream: Some("waga"@),
        track: Some("video"@),
    }
}

/// A line that receives media.
pub open spec fn received_track(kind: TrackKind) -> TrackView {
    TrackView { kind, direction: TrackDirection::RecvOnly, stream: None, track: None }
}

/// Whether the outcome `r` of an operation that gives `value` once the session
/// is drained fits a drain from `pre` to `post`.
pub open spec fn drained_for<T>(
    pre: PublisherState,
    post: PublisherState,
    now: u64,
    value: T,
    r: Result<T, String>,
) -> bool {
    match r {
        Ok(given) => given == value && drained(pre, post, now, Ok(())),
        Err(error) => drained(pre, post, now, Err(error)),
    }
}

/// The lines that a publisher offers: audio and video, as far as it has them.
pub open spec fn publisher_lines(s: PublisherState) -> (Option<TrackView>, Option<TrackView>) {
    (
        if s.audio_codec is Some {
            Some(sent_audio())
        } else {
            None
        },
        if s.video_enabled {
            Some(sent_video())
        } else {
            None
        },
    )
}

/// Whether an offer to send leads from `pre` to `post`. There is none while
/// another awaits its answer. The lines' identities are kept, the offer awaits
/// its answer, and the session is drained.
pub open spec fn offered(
    pre: PublisherState,
    post: PublisherState,
    now: u64,
    r: Result<String, String>,
) -> bool {
    if pre.pending is Some {
        post == pre && fails(r, "an offer is already pending"@)
    } else {
        match post.exchanges[pre.exchanges.len() as int] {
            Exchange::Offer { first, second, offered } => {
                let s = PublisherState {
                    audio_mid: if first is Some {
                        offered.first
                    } else {
                        pre.audio_mid
                    },
                    video_mid: if second is Some {
                        offered.second
                    } else {
                        pre.video_mid
                    },
                    ..pre.with(Exchange::Offer { first, second, offered })
                };
                &&& (first, second) == publisher_lines(pre)
                &&& first is Some ==> offered.first is Some
                &&& second is Some ==> offered.second is Some
                &&& offered.offer is Some <==> first is Some || second is Some
                &&& match offered.offer {
                    Some((sdp, pending)) => drained_for(
                        PublisherState { pending: Some(pending), ..s },
                        post,
                        now,
                        sdp,
                        r,
                    ),
                    None => post == s && fails(r, "offer contained no changes"@),
                }
            },
            _ => false,
        }
    }
}

/// Whether an offer to receive leads from `pre` to `post`, as [`offered`] says
/// of an offer to send: one line of video and one of audio.
pub open spec fn receive_offered(
    pre: PublisherState,
    post: PublisherState,
    now: u64,
    r: Result<String, String>,
) -> bool {
    if pre.pending is Some {
        post == pre && fails(r, "an offer is already pending"@)
    } else {
        match post.exchanges[pre.exchanges.len() as int] {
            Exchange::Offer { first, second, offered } => {
                &&& first == Some(received_track(TrackKind::Video))
                &&& second == Some(received_track(TrackKind::Audio))
                &&& offered.first is Some
                &&& offered.second is Some
                &&& offered.offer matches Some((sdp, pending)) && drained_for(
                    PublisherState {
                        video_mid: offered.first,
                        audio_mid: offered.second,
                        pending: Some(pending),
                        ..pre.with(Exchange::Offer { first, second, offered })
                    },
                    post,
                    now,
                    sdp,
                    r,
                )
            },
            _ => false,
        }
    }
}

/// The advice that goes with a failure to negotiate AAC.
pub open spec fn aac_advice() -> Seq<char> {
    ". Select Opus if this receiver does not support AAC."@
}

/// The error text for an answer that is no session description.
pub open spec fn answer_fault(audio: Option<Codec>, error: Seq<char>) -> Seq<char> {
    if audio == Some(Codec::Aac) {
        "Invalid AAC answer: "@ + error + aac_advice()
    } else {
        error
    }
}

/// The error text for an answer that the session refuses.
pub open spec fn negotiation_fault(audio: Option<Codec>, error: Seq<char>) -> Seq<char> {
    if audio == Some(Codec::Aac) {
        "AAC negotiation failed: "@ + error + aac_advice()
    } else {
        error
    }
}

/// The first payload type that carries a codec.
pub open spec fn payload_for(payloads: Seq<Payload>, codec: Codec) -> Option<u8>
    decreases payloads.len(),
{
    if payloads.len() == 0 {
        None
    } else if payloads.first().codec@ == codec.spec_name() {
        Some(payloads.first().payload_type)
    } else {
        payload_for(payloads.drop_first(), codec)
    }
}

/// The state before its last exchange, which changed nothing else.
pub open spec fn before_last(s: PublisherState) -> PublisherState {
    PublisherState { exchanges: s.exchanges.drop_last(), ..s }
}

/// Whether the check that AAC was negotiated leads from `pre`, a state in which
/// the answer was accepted, through a drain to `post`.
pub open spec fn aac_checked(
    pre: PublisherState,
    post: PublisherState,
    now: u64,
    r: Result<(), String>,
) -> bool {
    let refused = "The WHIP receiver does not accept AAC. Select Opus for this receiver."@;
    match pre.audio_mid {
        None => {
            ||| r is Err && drained(pre, post, now, r)
            ||| drained(pre, post, now, Ok(())) && fails(r, refused)
        },
        Some(mid) => {
            ||| r is Err && drained(pre, post, now, r)
            ||| {
                &&& post.exchanges.len() > 0
                &&& drained(pre, before_last(post), now, Ok(()))
                &&& post.exchanges.last() matches Exchange::Payloads { mid: asked, result }
                &&& asked == mid
                &&& if result is Some && payload_for(result->0@, Codec::Aac) is Some {
                    r is Ok
                } else {
                    fails(r, refused)
                }
            }
        },
    }
}

/// The error text where a frame waits that was written under an earlier
/// description.
pub open spec fn stale_frame() -> Seq<char> {
    "a frame waits for a payload type that may be gone"@
}

/// The time that the session is told to have it pack the frames that wait: the
/// present, or the latest that it was told.
pub open spec fn packing_time(s: PublisherState, now: u64) -> u64 {
    if now < s.backlog.latest {
        s.backlog.latest
    } else {
        now
    }
}

/// Whether an exchange tells the session this time, with success.
pub open spec fn packs(exchange: Exchange, at: u64) -> bool {
    exchange matches Exchange::Timeout { now, result: Some(Ok(_)) } && now == at
}

/// The backlog after frames were packed this many times.
pub open spec fn packed(s: PublisherState, times: int, at: u64) -> Backlog {
    if times <= 0 {
        s.backlog
    } else {
        Backlog { waiting: (s.backlog.waiting - times) as u64, latest: at, ..s.backlog }
    }
}

/// Whether the session is told the time until no frame waits any more, which
/// leads from `pre` to `post`.
pub open spec fn settled(pre: PublisherState, post: PublisherState, now: u64) -> bool {
    let at = packing_time(pre, now);
    let inputs = post.exchanges.skip(pre.exchanges.len() as int);
    &&& pre.current()
    &&& inputs.len() == pre.backlog.waiting
    &&& forall|i: int| 0 <= i < inputs.len() ==> #[trigger] packs(inputs[i], at)
    &&& post == PublisherState {
        exchanges: pre.exchanges + inputs,
        backlog: packed(pre, inputs.len() as int, at),
        ..pre
    }
}

/// Whether telling the session the time for the frames that wait fails, with
/// this text, and leads from `pre` to `post`.
pub open spec fn unsettled(
    pre: PublisherState,
    post: PublisherState,
    now: u64,
    text: Seq<char>,
) -> bool {
    let at = packing_time(pre, now);
    let inputs = post.exchanges.skip(pre.exchanges.len() as int);
    if !pre.current() {
        post == pre && text == stale_frame()
    } else {
        &&& 0 < inputs.len() <= pre.backlog.waiting
        &&& forall|i: int| 0 <= i < inputs.len() - 1 ==> #[trigger] packs(inputs[i], at)
        &&& match inputs.last() {
            Exchange::Timeout { now: told, result } => {
                &&& told == at
                &&& timely(result) == Err::<(), Seq<char>>(text)
                &&& post == PublisherState {
                    exchanges: pre.exchanges + inputs,
                    backlog: session::after_input(packed(pre, inputs.len() - 1, at), at, result),
                    ..pre
                }
            },
            _ => false,
        }
    }
}

/// Whether an answer leads from `pre` to `post`. `parsed` is the answer, or why
/// it is no session description. An offer must await it, which it then no longer
/// does, whether or not the session accepts the answer. The session gets only an
/// answer with which nothing is wrong after the descriptions that count, and only
/// once no frame waits to be packed.
pub open spec fn answered(
    pre: PublisherState,
    post: PublisherState,
    parsed: Result<SdpAnswer, Seq<char>>,
    now: u64,
    r: Result<(), String>,
) -> bool {
    let taken = PublisherState { pending: None, ..pre };
    match (parsed, pre.pending) {
        (Err(error), _) => post == pre && fails(r, answer_fault(pre.audio_codec, error)),
        (Ok(_), None) => post == pre && fails(r, "no offer is pending"@),
        (Ok(answer), Some(pending)) => match description::fault(
            pre.descriptions,
            session::answer_text(answer),
        ) {
            Some(error) => post == taken && fails(r, negotiation_fault(pre.audio_codec, error)),
            None => {
                ||| exists|mid: PublisherState| #[trigger]
                    settled(taken, mid, now) && answer_taken(mid, post, pending, answer, now, r)
                ||| exists|text: Seq<char>| #[trigger]
                    unsettled(taken, post, now, text) && fails(r, text)
            },
        },
    }
}

/// Whether an answer that the session gets leads from `pre` to `post`. The
/// session is drained, and where audio is AAC the answer must have accepted
/// that.
pub open spec fn answer_taken(
    pre: PublisherState,
    post: PublisherState,
    pending: SdpPendingOffer,
    answer: SdpAnswer,
    now: u64,
    r: Result<(), String>,
) -> bool {
    match post.exchanges[pre.exchanges.len() as int] {
        Exchange::AcceptAnswer { pending: given, answer: accepted, result } => {
            let s = answer_handed_over(pre, given, accepted, result);
            &&& given == pending
            &&& accepted == answer
            &&& match result {
                Err(error) => post == s && fails(r, negotiation_fault(pre.audio_codec, error@)),
                Ok(_) => if pre.audio_codec == Some(Codec::Aac) {
                    aac_checked(s, post, now, r)
                } else {
                    drained(s, post, now, r)
                },
            }
        },
        _ => false,
    }
}

/// The state in which the session has an answer.
pub open spec fn answer_handed_over(
    pre: PublisherState,
    pending: SdpPendingOffer,
    answer: SdpAnswer,
    result: Result<(), String>,
) -> PublisherState {
    PublisherState {
        descriptions: description::kept(
            pre.descriptions,
            session::answer_text(answer),
            result is Ok,
        ),
        ..pre.with(Exchange::AcceptAnswer { pending, answer, result })
    }
}

/// Whether this is what may come of reading a text as an answer.
pub open spec fn answer_read_from(sdp: Seq<char>, parsed: Result<SdpAnswer, Seq<char>>) -> bool {
    match parsed {
        Ok(answer) => session::answers_read_from(sdp).contains(answer),
        Err(_) => session::answers_read_from(sdp) == Set::<SdpAnswer>::empty(),
    }
}

/// Whether the text of an answer leads from `pre` to `post`, through what may
/// come of reading it.
pub open spec fn answer_read(
    pre: PublisherState,
    post: PublisherState,
    sdp: Seq<char>,
    now: u64,
    r: Result<(), String>,
) -> bool {
    exists|parsed: Result<SdpAnswer, Seq<char>>|
        answer_read_from(sdp, parsed) && #[trigger] answered(
            pre,
            post,
            parsed,
            now,
            r,
        )
}

/// Whether a remote offer leads from `pre` to `post`. `parsed` is the offer, or
/// why it is no session description. The session gets only an offer with which
/// nothing is wrong after the descriptions that count, and only once no frame
/// waits to be packed.
pub open spec fn offer_accepted(
    pre: PublisherState,
    post: PublisherState,
    parsed: Result<SdpOffer, Seq<char>>,
    now: u64,
    r: Result<String, String>,
) -> bool {
    match parsed {
        Err(error) => post == pre && fails(r, error),
        Ok(offer) => match description::fault(pre.descriptions, session::offer_text(offer)) {
            Some(error) => post == pre && fails(r, error),
            None => {
                ||| exists|mid: PublisherState| #[trigger]
                    settled(pre, mid, now) && offer_taken(mid, post, offer, now, r)
                ||| exists|text: Seq<char>| #[trigger]
                    unsettled(pre, post, now, text) && fails(r, text)
            },
        },
    }
}

/// Whether a remote offer that the session gets leads from `pre` to `post`. The
/// session must accept it, and is drained.
pub open spec fn offer_taken(
    pre: PublisherState,
    post: PublisherState,
    offer: SdpOffer,
    now: u64,
    r: Result<String, String>,
) -> bool {
    match post.exchanges[pre.exchanges.len() as int] {
        Exchange::AcceptOffer { offer: given, result } => {
            let s = offer_handed_over(pre, given, result);
            &&& given == offer
            &&& match result {
                Err(error) => post == s && r == Err::<String, String>(error),
                Ok(answer) => drained_for(s, post, now, answer, r),
            }
        },
        _ => false,
    }
}

/// The state in which the session has a remote offer.
pub open spec fn offer_handed_over(
    pre: PublisherState,
    offer: SdpOffer,
    result: Result<String, String>,
) -> PublisherState {
    PublisherState {
        descriptions: description::kept(
            pre.descriptions,
            session::offer_text(offer),
            result is Ok,
        ),
        ..pre.with(Exchange::AcceptOffer { offer, result })
    }
}

/// Whether this is what may come of reading a text as an offer.
pub open spec fn offer_read_from(sdp: Seq<char>, parsed: Result<SdpOffer, Seq<char>>) -> bool {
    match parsed {
        Ok(offer) => session::offers_read_from(sdp).contains(offer),
        Err(_) => session::offers_read_from(sdp) == Set::<SdpOffer>::empty(),
    }
}

/// Whether the text of a remote offer leads from `pre` to `post`, through what
/// may come of reading it.
pub open spec fn offer_read(
    pre: PublisherState,
    post: PublisherState,
    sdp: Seq<char>,
    now: u64,
    r: Result<String, String>,
) -> bool {
    exists|parsed: Result<SdpOffer, Seq<char>>|
        offer_read_from(sdp, parsed) && #[trigger] offer_accepted(
            pre,
            post,
            parsed,
            now,
            r,
        )
}

/// Whether an incoming datagram leads from `pre` to `post`. One that is not
/// recognised changes nothing and is no error; the session gets any other, and
/// is drained. Frames that wait must be current.
pub open spec fn received(
    pre: PublisherState,
    post: PublisherState,
    source: Seq<char>,
    destination: Seq<char>,
    contents: Seq<u8>,
    now: u64,
    r: Result<(), String>,
) -> bool {
    if !pre.current() {
        post == pre && fails(r, stale_frame())
    } else if !session::recognised(source, destination, contents) {
        post == pre && r is Ok
    } else {
        match post.exchanges[pre.exchanges.len() as int] {
            Exchange::Receive { now: at, source: from, destination: to, contents: data, result } => {
                let s = pre.with_input(
                    Exchange::Receive {
                        now: at,
                        source: from,
                        destination: to,
                        contents: data,
                        result,
                    },
                    at,
                    result,
                );
                &&& (at, from, to, data) == (now, source, destination, contents)
                &&& session::is_multiplexed(contents)
                &&& drained_after(result, s, post, now, r)
            },
            _ => false,
        }
    }
}

/// Whether telling the session the time leads from `pre` to `post`, through a
/// drain. Frames that wait must be current.
pub open spec fn timed_out(
    pre: PublisherState,
    post: PublisherState,
    now: u64,
    r: Result<(), String>,
) -> bool {
    if !pre.current() {
        post == pre && fails(r, stale_frame())
    } else {
        match post.exchanges[pre.exchanges.len() as int] {
            Exchange::Timeout { now: at, result } => {
                let s = pre.with_input(Exchange::Timeout { now: at, result }, at, result);
                &&& at == now
                &&& drained_after(result, s, post, now, r)
            },
            _ => false,
        }
    }
}

/// The state in which a probe of the path is asked for: the host is to start
/// it, and then to have the session told the time.
pub open spec fn path_probed(s: PublisherState) -> PublisherState {
    s.asking(EngineRequest::ProbePath)
}

/// The state after a change of path: no earlier estimate is left, and the host
/// is to restart the estimation, and then to have the session told the time.
pub open spec fn path_restarted(s: PublisherState) -> PublisherState {
    PublisherState { estimates: Seq::empty(), ..s }.asking(EngineRequest::RestartEstimate)
}

/// What is sent of a frame: video in Annex B form, audio as it is.
pub open spec fn sent_data(codec: Codec, data: Seq<u8>) -> Seq<u8> {
    if codec.spec_is_audio() {
        data
    } else {
        crate::annex_b::sent_access_unit(data)
    }
}

/// Whether sending a frame leads from `pre` to `post`. During a disconnect, and
/// after one was reported, nothing is sent and the session is only drained.
/// Otherwise the codec's line must have been offered and negotiated, with the
/// codec; the session gets the frame, and is drained.
pub open spec fn sent(
    pre: PublisherState,
    post: PublisherState,
    codec: Codec,
    media_time: u64,
    data: Seq<u8>,
    now: u64,
    r: Result<(), String>,
) -> bool {
    let n = pre.exchanges.len() as int;
    if pre.deadline is Some || pre.reported {
        drained(pre, post, now, r)
    } else {
        match (pre.mid_for(codec), post.exchanges[n]) {
            (None, _) => post == pre && fails(r, "media track was not offered"@),
            (Some(mid), Exchange::Payloads { mid: asked, result: listed }) => {
                let s = pre.with(Exchange::Payloads { mid: asked, result: listed });
                &&& asked == mid
                &&& match listed {
                    None => post == s && fails(r, "media track is not negotiated"@),
                    Some(payloads) => match (payload_for(payloads@, codec), post.exchanges[n + 1]) {
                        (None, _) => post == s && fails(r, "codec was not negotiated"@),
                        (
                            Some(payload_type),
                            Exchange::Write {
                                mid: line,
                                payload_type: used,
                                now: at,
                                media_time: time,
                                clock_rate,
                                data: bytes,
                                result,
                            },
                        ) => {
                            let written = s.with(
                                Exchange::Write {
                                    mid: line,
                                    payload_type: used,
                                    now: at,
                                    media_time: time,
                                    clock_rate,
                                    data: bytes,
                                    result,
                                },
                            );
                            let s = PublisherState {
                                backlog: session::after_write(
                                    written.backlog,
                                    written.descriptions.len(),
                                    result,
                                ),
                                ..written
                            };
                            &&& (line, used, at) == (mid, payload_type, now)
                            &&& (time, clock_rate) == (media_time, codec.spec_clock_rate())
                            &&& bytes == sent_data(codec, data)
                            &&& match result {
                                None => post == s && fails(r, "media track is not negotiated"@),
                                Some(result) => drained_after(result, s, post, now, r),
                            }
                        },
                        _ => false,
                    },
                }
            },
            _ => false,
        }
    }
}

/// The first item of a queue, if there is one.
pub open spec fn first<T>(queue: Seq<T>) -> Option<T> {
    if queue.len() == 0 {
        None
    } else {
        Some(queue[0])
    }
}

/// A queue without its first item.
pub open spec fn rest<T>(queue: Seq<T>) -> Seq<T> {
    if queue.len() == 0 {
        queue
    } else {
        queue.drop_first()
    }
}

/// What an optional frame holds.
pub open spec fn optional_media(media: Option<Media>) -> Option<MediaView> {
    match media {
        Some(media) => Some(media@),
        None => None,
    }
}

/// The longest span of time there is, in nanoseconds: all the seconds that 64
/// bits count, and the rest of another.
pub const LONGEST_WAIT: u128 = 18_446_744_073_709_551_615_999_999_999;

/// The time left until a publisher wants to be told the time, in nanoseconds.
pub open spec fn time_left(next_timeout: Option<u64>, now: u64) -> u128 {
    match next_timeout {
        Some(at) => if at > now {
            (at - now) as u128
        } else {
            0
        },
        None => LONGEST_WAIT,
    }
}

} // verus!
