//! What holds of a publisher whatever its session reports.
use str0m::change::{SdpAnswer, SdpOffer, SdpPendingOffer};
use str0m::media::MediaData;
use str0m::Candidate;
use vstd::prelude::*;

use crate::codec::Codec;
use crate::description;
use crate::model;
use crate::model::{EngineRequest, MediaView, PeerEvent, PublisherState, Transmit};
use crate::session;
use crate::session::{Exchange, FrameView, IceState, Report};

verus! {

/// Polls are put on record in order, and nothing else is: what had passed
/// before them stays as it was.
pub proof fn polls_are_recorded(s: PublisherState, polls: Seq<Exchange>, now: u64)
    ensures
        model::after_polls(s, polls, now).exchanges == s.exchanges + polls,
    decreases polls.len(),
{
    if polls.len() == 0 {
        assert(s.exchanges + polls =~= s.exchanges);
    } else {
        polls_are_recorded(s, polls.drop_last(), now);
        assert(polls.drop_last().push(polls.last()) =~= polls);
        assert(s.exchanges + polls =~= (s.exchanges + polls.drop_last()).push(polls.last()));
    }
}

/// Polls change nothing of what was negotiated or configured.
pub proof fn polls_keep_negotiation(s: PublisherState, polls: Seq<Exchange>, now: u64)
    ensures
        ({
            let t = model::after_polls(s, polls, now);
            &&& t.descriptions == s.descriptions
            &&& t.additions == s.additions
            &&& t.backlog == s.backlog
            &&& t.estimating == s.estimating
            &&& t.candidates == s.candidates
            &&& t.pending == s.pending
            &&& t.audio_mid == s.audio_mid
            &&& t.video_mid == s.video_mid
            &&& t.grace == s.grace
            &&& t.audio_codec == s.audio_codec
            &&& t.video_enabled == s.video_enabled
        }),
    decreases polls.len(),
{
    if polls.len() > 0 {
        polls_keep_negotiation(s, polls.drop_last(), now);
    }
}

/// The datagrams that polls report, in order.
pub open spec fn datagrams(polls: Seq<Exchange>) -> Seq<Transmit>
    decreases polls.len(),
{
    if polls.len() == 0 {
        Seq::empty()
    } else {
        match polls.last() {
            Exchange::Poll(Ok(Report::Transmit(source, destination, contents))) => datagrams(
                polls.drop_last(),
            ).push(Transmit { source, destination, contents, transport_sequence: None }),
            _ => datagrams(polls.drop_last()),
        }
    }
}

/// The frames that polls report, in order, as far as their codecs are ours.
pub open spec fn frames(polls: Seq<Exchange>) -> Seq<MediaView>
    decreases polls.len(),
{
    if polls.len() == 0 {
        Seq::empty()
    } else {
        match polls.last() {
            Exchange::Poll(Ok(Report::MediaData(data))) => match model::media_of(
                session::frame_of(data),
            ) {
                Some(media) => frames(polls.drop_last()).push(media),
                None => frames(polls.drop_last()),
            },
            _ => frames(polls.drop_last()),
        }
    }
}

/// The last bandwidth estimate that polls report.
pub open spec fn last_estimate(polls: Seq<Exchange>) -> Option<u64>
    decreases polls.len(),
{
    if polls.len() == 0 {
        None
    } else {
        match polls.last() {
            Exchange::Poll(Ok(Report::BitrateEstimate(bitrate))) => Some(bitrate),
            _ => last_estimate(polls.drop_last()),
        }
    }
}

/// Datagrams and frames are queued in the order in which they were reported,
/// behind those that were queued before, and none is lost.
pub proof fn queues_keep_order(s: PublisherState, polls: Seq<Exchange>, now: u64)
    ensures
        model::after_polls(s, polls, now).output == s.output + datagrams(polls),
        model::after_polls(s, polls, now).media == s.media + frames(polls),
    decreases polls.len(),
{
    if polls.len() == 0 {
        assert(s.output + datagrams(polls) =~= s.output);
        assert(s.media + frames(polls) =~= s.media);
    } else {
        queues_keep_order(s, polls.drop_last(), now);
        let t = model::after_polls(s, polls, now);
        assert(t.output =~= s.output + datagrams(polls));
        assert(t.media =~= s.media + frames(polls));
    }
}

/// Only the latest bandwidth estimate awaits collection: earlier ones are
/// dropped, collected or not.
pub proof fn latest_estimate_wins(s: PublisherState, polls: Seq<Exchange>, now: u64)
    ensures
        model::after_polls(s, polls, now).estimates == match last_estimate(polls) {
            Some(bitrate) => seq![bitrate],
            None => s.estimates,
        },
    decreases polls.len(),
{
    if polls.len() > 0 {
        latest_estimate_wins(s, polls.drop_last(), now);
    }
}

/// How many of these events are this one.
pub open spec fn occurrences(events: Seq<PeerEvent>, event: PeerEvent) -> nat
    decreases events.len(),
{
    if events.len() == 0 {
        0
    } else if events.last() == event {
        occurrences(events.drop_last(), event) + 1
    } else {
        occurrences(events.drop_last(), event)
    }
}

/// How many of these events are disconnects.
pub open spec fn disconnects(events: Seq<PeerEvent>) -> nat {
    occurrences(events, PeerEvent::Disconnected)
}

/// Taking the first event away takes its occurrence away.
proof fn occurrences_split(events: Seq<PeerEvent>, event: PeerEvent)
    requires
        events.len() > 0,
    ensures
        occurrences(events, event) == occurrences(events.drop_first(), event) + if events[0]
            == event {
            1nat
        } else {
            0nat
        },
    decreases events.len(),
{
    if events.len() == 1 {
        assert(events.drop_first() =~= Seq::empty());
        assert(events.drop_last() =~= Seq::empty());
    } else {
        occurrences_split(events.drop_last(), event);
        assert(events.drop_first().drop_last() =~= events.drop_last().drop_first());
    }
}

/// One if a disconnect was reported, and none otherwise.
pub open spec fn reports(s: PublisherState) -> nat {
    if s.reported {
        1
    } else {
        0
    }
}

/// A step that a publisher takes at most: a consistent state stays consistent,
/// the configuration stays as it is, and what was established or reported once
/// stays so.
pub open spec fn steady(pre: PublisherState, post: PublisherState) -> bool {
    &&& pre.consistent() ==> post.consistent()
    &&& post.grace == pre.grace
    &&& post.audio_codec == pre.audio_codec
    &&& post.video_enabled == pre.video_enabled
    &&& post.estimating == pre.estimating
    &&& pre.ever_connected ==> post.ever_connected
    &&& pre.reported ==> post.reported
}

/// A steady step in which events tell of a disconnect just where that becomes
/// reported.
pub open spec fn sound(pre: PublisherState, post: PublisherState) -> bool {
    &&& steady(pre, post)
    &&& pre.consistent() ==> disconnects(post.events) + reports(pre) == disconnects(pre.events)
        + reports(post)
}

/// A step in which the session is handed at most one description, and one with
/// which nothing is wrong after those before it.
pub open spec fn described(pre: PublisherState, post: PublisherState) -> bool {
    ||| post.descriptions == pre.descriptions
    ||| {
        &&& post.descriptions.len() == pre.descriptions.len() + 1
        &&& post.descriptions.drop_last() == pre.descriptions
        &&& description::fault(pre.descriptions, post.descriptions.last()) is None
    }
}

/// Any report is taken soundly.
pub proof fn reports_are_sound(s: PublisherState, report: Report, now: u64)
    ensures
        sound(s, model::after_report(s, report, now)),
{
    let t = model::after_report(s, report, now);
    if t.events != s.events {
        assert(t.events.drop_last() =~= s.events);
    }
}

/// Any run of polls is taken soundly.
pub proof fn polls_are_sound(s: PublisherState, polls: Seq<Exchange>, now: u64)
    ensures
        sound(s, model::after_polls(s, polls, now)),
    decreases polls.len(),
{
    if polls.len() > 0 {
        polls_are_sound(s, polls.drop_last(), now);
        let before = model::after_polls(s, polls.drop_last(), now);
        match polls.last() {
            Exchange::Poll(Ok(report)) => {
                reports_are_sound(before.with(polls.last()), report, now);
            },
            _ => {},
        }
    }
}

/// A change of the ICE state is taken soundly.
pub proof fn ice_states_are_sound(s: PublisherState, state: IceState, now: u64)
    ensures
        sound(s, model::after_ice_state(s, state, now)),
{
    let t = model::after_ice_state(s, state, now);
    if t.events != s.events {
        assert(t.events.drop_last() =~= s.events);
    }
}

/// An operation on a publisher. A method that reads the clock does so first, as
/// an operation of its own, and goes by that time.
#[allow(inconsistent_fields)]
pub enum Operation {
    ReadClock(u128),
    Drain,
    DrainAfter { result: Option<Result<(), String>> },
    TakeFrame(FrameView),
    AddCandidate { base: Seq<char>, made: Result<Candidate, Seq<char>> },
    RemoveInterface { base: Seq<char> },
    Offer,
    ReceiveOffer,
    AcceptAnswer { parsed: Result<SdpAnswer, Seq<char>> },
    AcceptOffer { parsed: Result<SdpOffer, Seq<char>> },
    Receive { source: Seq<char>, destination: Seq<char>, contents: Seq<u8> },
    HandleTimeout,
    Send { codec: Codec, media_time: u64, data: Seq<u8> },
    SetDesiredBitrate(u64),
    ProbePath,
    RestartEstimate,
    AttributePath { sequence: u64, path: Option<u64> },
    TakeReport(Report),
    ChangeIceState(IceState),
    PollTransmit,
    PollEvent,
    PollMedia,
    PollEstimate,
    PollRequest,
}

/// Whether an operation at the time `now` can lead from `pre` to `post`, as the
/// method that performs it promises.
pub open spec fn performed(
    pre: PublisherState,
    post: PublisherState,
    operation: Operation,
    now: u64,
) -> bool {
    match operation {
        Operation::ReadClock(reading) => post == pre.at(reading),
        Operation::Drain => exists|r: Result<(), String>| model::drained(pre, post, now, r),
        Operation::DrainAfter { result } => exists|r: Result<(), String>|
            model::drained_after(result, pre, post, now, r),
        Operation::TakeFrame(frame) => post == match model::media_of(frame) {
            Some(media) => PublisherState { media: pre.media.push(media), ..pre },
            None => pre,
        },
        Operation::AddCandidate { base, made } => exists|r: Result<(), String>|
            model::candidate_added(pre, post, base, made, now, r),
        Operation::RemoveInterface { base } => exists|r: Result<(), String>|
            model::interface_removed(pre, post, base, now, r),
        Operation::Offer => exists|r: Result<String, String>| model::offered(pre, post, now, r),
        Operation::ReceiveOffer => exists|r: Result<String, String>|
            model::receive_offered(pre, post, now, r),
        Operation::AcceptAnswer { parsed } => exists|r: Result<(), String>|
            model::answered(pre, post, parsed, now, r),
        Operation::AcceptOffer { parsed } => exists|r: Result<String, String>|
            model::offer_accepted(pre, post, parsed, now, r),
        Operation::Receive { source, destination, contents } => exists|r: Result<(), String>|
            model::received(pre, post, source, destination, contents, now, r),
        Operation::HandleTimeout => exists|r: Result<(), String>|
            model::timed_out(pre, post, now, r),
        Operation::Send { codec, media_time, data } => exists|r: Result<(), String>|
            model::sent(pre, post, codec, media_time, data, now, r),
        Operation::SetDesiredBitrate(bitrate) => post == pre.with(model::aim(bitrate)),
        Operation::ProbePath => post == model::path_probed(pre),
        Operation::RestartEstimate => post == model::path_restarted(pre),
        Operation::AttributePath { sequence, path } => post == pre.asking(
            EngineRequest::AttributePath { sequence, path },
        ),
        Operation::TakeReport(report) => post == model::after_report(pre, report, now),
        Operation::ChangeIceState(state) => post == model::after_ice_state(pre, state, now),
        Operation::PollTransmit => post == PublisherState {
            output: model::rest(pre.output),
            ..pre
        },
        Operation::PollEvent => post == PublisherState { events: model::rest(pre.events), ..pre },
        Operation::PollMedia => post == PublisherState { media: model::rest(pre.media), ..pre },
        Operation::PollEstimate => post == PublisherState {
            estimates: model::rest(pre.estimates),
            ..pre
        },
        Operation::PollRequest => post == PublisherState {
            requests: model::rest(pre.requests),
            ..pre
        },
    }
}

/// A drain is sound, and what had passed before it stays on record.
pub proof fn drains_are_sound(
    pre: PublisherState,
    post: PublisherState,
    now: u64,
    r: Result<(), String>,
)
    requires
        model::drained(pre, post, now, r),
    ensures
        sound(pre, post),
        pre.exchanges.is_prefix_of(post.exchanges),
{
    let polls = post.exchanges.skip(pre.exchanges.len() as int);
    polls_are_sound(pre, polls, now);
    polls_are_recorded(pre, polls, now);
}

/// Whether two states agree on everything that disconnects depend on, and on
/// the events that await collection.
pub open spec fn alike(a: PublisherState, b: PublisherState) -> bool {
    &&& a.deadline == b.deadline
    &&& a.reported == b.reported
    &&& a.ever_connected == b.ever_connected
    &&& a.grace == b.grace
    &&& a.events == b.events
}

/// Polls of states that are alike lead to states that are alike.
pub proof fn polls_keep_alike(
    a: PublisherState,
    b: PublisherState,
    polls: Seq<Exchange>,
    now: u64,
)
    requires
        alike(a, b),
    ensures
        alike(model::after_polls(a, polls, now), model::after_polls(b, polls, now)),
    decreases polls.len(),
{
    if polls.len() > 0 {
        polls_keep_alike(a, b, polls.drop_last(), now);
    }
}

/// Whether polls that `post` has on record beyond `pre` account for all that
/// changed for disconnects.
pub open spec fn ran_through(
    pre: PublisherState,
    post: PublisherState,
    polls: Seq<Exchange>,
    now: u64,
) -> bool {
    &&& alike(model::after_polls(pre, polls, now), post)
    &&& forall|i: int|
        0 <= i < polls.len() ==> post.exchanges.skip(pre.exchanges.len() as int).contains(
            #[trigger] polls[i],
        )
}

/// Whether polls account for all that changed for disconnects.
pub open spec fn ran(pre: PublisherState, post: PublisherState, now: u64) -> bool {
    exists|polls: Seq<Exchange>| #[trigger] ran_through(pre, post, polls, now)
}

/// One more exchange on record changes nothing for disconnects.
proof fn ran_on(pre: PublisherState, mid: PublisherState, post: PublisherState, now: u64)
    requires
        ran(pre, mid, now),
        alike(mid, post),
        pre.exchanges.is_prefix_of(mid.exchanges),
        mid.exchanges.is_prefix_of(post.exchanges),
    ensures
        ran(pre, post, now),
{
    let polls = choose|polls: Seq<Exchange>| #[trigger] ran_through(pre, mid, polls, now);
    let n = pre.exchanges.len() as int;
    assert forall|i: int| 0 <= i < polls.len() implies post.exchanges.skip(n).contains(
        #[trigger] polls[i],
    ) by {
        let k = choose|k: int|
            0 <= k < mid.exchanges.skip(n).len() && mid.exchanges.skip(n)[k] == polls[i];
        assert(mid.exchanges[n + k] == post.exchanges.subrange(
            0,
            mid.exchanges.len() as int,
        )[n + k]);
        assert(post.exchanges.skip(n)[k] == polls[i]);
    }
    assert(ran_through(pre, post, polls, now));
}

/// A drain of a state that differs from `pre` only in what disconnects do not
/// depend on is as sound a step from `pre`.
proof fn drained_soundly(
    pre: PublisherState,
    mid: PublisherState,
    post: PublisherState,
    now: u64,
    r: Result<(), String>,
)
    requires
        model::drained(mid, post, now, r),
        pre.exchanges.is_prefix_of(mid.exchanges),
        mid.deadline == pre.deadline,
        mid.reported == pre.reported,
        mid.ever_connected == pre.ever_connected,
        mid.grace == pre.grace,
        mid.audio_codec == pre.audio_codec,
        mid.video_enabled == pre.video_enabled,
        mid.estimating == pre.estimating,
        mid.events == pre.events,
        mid.estimates == pre.estimates,
        pre.current() ==> mid.current(),
    ensures
        sound(pre, post),
        pre.exchanges.is_prefix_of(post.exchanges),
        ran(pre, post, now),
        post.descriptions == mid.descriptions,
{
    drains_are_sound(mid, post, now, r);
    let (n, m) = (pre.exchanges.len() as int, mid.exchanges.len() as int);
    let polls = post.exchanges.skip(m);
    polls_keep_alike(pre, mid, polls, now);
    polls_keep_negotiation(mid, polls, now);
    assert forall|i: int| 0 <= i < polls.len() implies post.exchanges.skip(n).contains(
        #[trigger] polls[i],
    ) by {
        assert(post.exchanges.skip(n)[m - n + i] == polls[i]);
    }
    assert(ran_through(pre, post, polls, now));
}

/// Every operation is a steady step that does not rewrite the record of what
/// passed and hands no faulty description to the session, and a sound one
/// unless the application collects an event by it.
#[verifier::rlimit(50)]
pub proof fn operations_are_sound(
    pre: PublisherState,
    post: PublisherState,
    operation: Operation,
    now: u64,
)
    requires
        performed(pre, post, operation, now),
    ensures
        pre.exchanges.is_prefix_of(post.exchanges),
        steady(pre, post),
        !(operation is PollEvent) ==> sound(pre, post),
        !(operation is PollEvent || operation is TakeReport || operation is ChangeIceState) ==> ran(
            pre,
            post,
            now,
        ),
        described(pre, post),
{
    if alike(pre, post) {
        assert(ran_through(pre, post, Seq::empty(), now));
    }
    let n = pre.exchanges.len() as int;
    match operation {
        Operation::Drain => {
            let r = choose|r: Result<(), String>| model::drained(pre, post, now, r);
            drained_soundly(pre, pre, post, now, r);
        },
        Operation::DrainAfter { result } => {
            let r = choose|r: Result<(), String>|
                model::drained_after(result, pre, post, now, r);
            if model::timely(result) is Ok {
                drained_soundly(pre, pre, post, now, r);
            }
        },
        Operation::AddCandidate { base, made } => {
            let r = choose|r: Result<(), String>|
                model::candidate_added(pre, post, base, made, now, r);
            if let Ok(made) = made {
                if model::candidate_fault(pre, made) is None {
                    match post.exchanges[n] {
                        Exchange::AddCandidate { candidate, accepted } => {
                            let s = model::candidate_kept(pre, base, candidate, accepted);
                            drained_soundly(pre, s, post, now, r);
                        },
                        _ => {},
                    }
                }
            }
        },
        Operation::RemoveInterface { base } => {
            let r = choose|r: Result<(), String>|
                model::interface_removed(pre, post, base, now, r);
            let gone = model::candidates_of(pre.candidates, base);
            let s = PublisherState {
                exchanges: pre.exchanges + post.exchanges.subrange(n, n + gone.len()),
                candidates: model::candidates_beside(pre.candidates, base),
                output: model::output_beside(pre.output, base),
                ..pre
            };
            drained_soundly(pre, s, post, now, r);
        },
        Operation::Offer => {
            let r = choose|r: Result<String, String>| model::offered(pre, post, now, r);
            if pre.pending is None {
                offer_is_sound(pre, post, now, r);
            }
        },
        Operation::ReceiveOffer => {
            let r = choose|r: Result<String, String>| model::receive_offered(pre, post, now, r);
            if pre.pending is None {
                match post.exchanges[n] {
                    Exchange::Offer {
                        offered: session::Offered { first, second, offer: Some((_, pending)) },
                        ..
                    } => {
                        let s = PublisherState {
                            video_mid: first,
                            audio_mid: second,
                            pending: Some(pending),
                            ..pre.with(post.exchanges[n])
                        };
                        drained_soundly(pre, s, post, now, drain_outcome(r));
                    },
                    _ => {},
                }
            }
        },
        Operation::AcceptAnswer { parsed } => {
            let r = choose|r: Result<(), String>| model::answered(pre, post, parsed, now, r);
            if parsed is Ok && pre.pending is Some {
                answer_is_sound(pre, post, parsed, now, r);
            }
        },
        Operation::AcceptOffer { parsed } => {
            let r = choose|r: Result<String, String>|
                model::offer_accepted(pre, post, parsed, now, r);
            if let Ok(offer) = parsed {
                if description::fault(pre.descriptions, session::offer_text(offer)) is None {
                    offer_taken_is_sound(pre, post, offer, now, r);
                }
            }
        },
        Operation::Receive { source, destination, contents } => {
            let r = choose|r: Result<(), String>|
                model::received(pre, post, source, destination, contents, now, r);
            if pre.current() && session::recognised(source, destination, contents) {
                match post.exchanges[n] {
                    Exchange::Receive { now: at, result, .. } => {
                        let s = pre.with_input(post.exchanges[n], at, result);
                        if model::timely(result) is Ok {
                            drained_soundly(pre, s, post, now, r);
                        }
                    },
                    _ => {},
                }
            }
        },
        Operation::HandleTimeout => {
            let r = choose|r: Result<(), String>| model::timed_out(pre, post, now, r);
            timeout_is_sound(pre, post, now, r);
        },
        Operation::Send { codec, media_time, data } => {
            let r = choose|r: Result<(), String>|
                model::sent(pre, post, codec, media_time, data, now, r);
            send_is_sound(pre, post, codec, media_time, data, now, r);
        },
        Operation::TakeReport(report) => {
            reports_are_sound(pre, report, now);
        },
        Operation::ChangeIceState(state) => {
            ice_states_are_sound(pre, state, now);
        },
        _ => {},
    }
}

/// The outcome of the drain behind an operation that gives a text.
spec fn drain_outcome(r: Result<String, String>) -> Result<(), String> {
    match r {
        Ok(_) => Ok(()),
        Err(error) => Err(error),
    }
}

/// An offer is a sound step.
proof fn offer_is_sound(
    pre: PublisherState,
    post: PublisherState,
    now: u64,
    r: Result<String, String>,
)
    requires
        pre.pending is None,
        model::offered(pre, post, now, r),
    ensures
        sound(pre, post),
        pre.exchanges.is_prefix_of(post.exchanges),
        ran(pre, post, now),
        post.descriptions == pre.descriptions,
{
    if alike(pre, post) {
        assert(ran_through(pre, post, Seq::empty(), now));
    }
    let n = pre.exchanges.len() as int;
    match post.exchanges[n] {
        Exchange::Offer { first, second, offered } => {
            let s = PublisherState {
                audio_mid: if first is Some {
                    offered.first
                } else {
                    pre.audio_mid
                },
                video_mid: if second is Some {
                    offered.second
                } else {
                    pre.video_mid
                },
                ..pre.with(post.exchanges[n])
            };
            match offered.offer {
                Some((_, pending)) => {
                    let s = PublisherState { pending: Some(pending), ..s };
                    drained_soundly(pre, s, post, now, drain_outcome(r));
                },
                None => {},
            }
        },
        _ => {},
    }
}

/// Having the frames that wait packed is a step that changes nothing for
/// disconnects, and leaves none waiting.
proof fn settling_is_sound(pre: PublisherState, post: PublisherState, now: u64)
    requires
        model::settled(pre, post, now),
    ensures
        alike(pre, post),
        pre.exchanges.is_prefix_of(post.exchanges),
        post.backlog.waiting == 0,
        post.descriptions == pre.descriptions,
{
    let inputs = post.exchanges.skip(pre.exchanges.len() as int);
    assert((pre.exchanges + inputs).subrange(0, pre.exchanges.len() as int) =~= pre.exchanges);
}

/// So is failing to.
proof fn unsettling_is_sound(
    pre: PublisherState,
    post: PublisherState,
    now: u64,
    text: Seq<char>,
)
    requires
        model::unsettled(pre, post, now, text),
    ensures
        sound(pre, post),
        alike(pre, post),
        pre.exchanges.is_prefix_of(post.exchanges),
        post.descriptions == pre.descriptions,
{
    let inputs = post.exchanges.skip(pre.exchanges.len() as int);
    assert((pre.exchanges + inputs).subrange(0, pre.exchanges.len() as int) =~= pre.exchanges);
}

/// The descriptions that count grow by one at most.
proof fn one_description_counts(earlier: Seq<Seq<char>>, text: Seq<char>, accepted: bool)
    ensures
        ({
            let all = description::kept(earlier, text, accepted);
            ||| all == earlier
            ||| all.len() == earlier.len() + 1 && all.drop_last() == earlier && all.last() == text
        }),
{
    assert(earlier.push(text).drop_last() =~= earlier);
}

/// An answer is a sound step.
proof fn answer_is_sound(
    pre: PublisherState,
    post: PublisherState,
    parsed: Result<SdpAnswer, Seq<char>>,
    now: u64,
    r: Result<(), String>,
)
    requires
        parsed is Ok,
        pre.pending is Some,
        model::answered(pre, post, parsed, now, r),
    ensures
        sound(pre, post),
        pre.exchanges.is_prefix_of(post.exchanges),
        ran(pre, post, now),
        described(pre, post),
{
    if alike(pre, post) {
        assert(ran_through(pre, post, Seq::empty(), now));
    }
    let taken = PublisherState { pending: None, ..pre };
    let (answer, pending) = (parsed->Ok_0, pre.pending->0);
    let text = session::answer_text(answer);
    if description::fault(pre.descriptions, text) is None {
        if exists|mid: PublisherState| #[trigger]
            model::settled(taken, mid, now) && model::answer_taken(
                mid,
                post,
                pending,
                answer,
                now,
                r,
            ) {
            let mid = choose|mid: PublisherState| #[trigger]
                model::settled(taken, mid, now) && model::answer_taken(
                    mid,
                    post,
                    pending,
                    answer,
                    now,
                    r,
                );
            settling_is_sound(taken, mid, now);
            answer_taken_is_sound(pre, mid, post, pending, answer, now, r);
        } else {
            let text = choose|text: Seq<char>| #[trigger]
                model::unsettled(taken, post, now, text) && model::fails(r, text);
            unsettling_is_sound(taken, post, now, text);
        }
    }
}

/// An answer that the session gets is a sound step.
proof fn answer_taken_is_sound(
    pre: PublisherState,
    mid: PublisherState,
    post: PublisherState,
    pending: SdpPendingOffer,
    answer: SdpAnswer,
    now: u64,
    r: Result<(), String>,
)
    requires
        model::answer_taken(mid, post, pending, answer, now, r),
        description::fault(mid.descriptions, session::answer_text(answer)) is None,
        mid == (PublisherState {
            exchanges: mid.exchanges,
            backlog: mid.backlog,
            pending: None,
            ..pre
        }),
        pre.exchanges.is_prefix_of(mid.exchanges),
        mid.backlog.waiting == 0,
    ensures
        sound(pre, post),
        pre.exchanges.is_prefix_of(post.exchanges),
        ran(pre, post, now),
        described(pre, post),
{
    if alike(pre, post) {
        assert(ran_through(pre, post, Seq::empty(), now));
    }
    let n = pre.exchanges.len() as int;
    match post.exchanges[mid.exchanges.len() as int] {
        Exchange::AcceptAnswer { pending: given, answer: accepted, result } => {
            let s = model::answer_handed_over(mid, given, accepted, result);
            one_description_counts(mid.descriptions, session::answer_text(answer), result is Ok);
            if result is Err {
            } else if model::drained(s, post, now, r) {
                drained_soundly(pre, s, post, now, r);
            } else if model::drained(s, post, now, Ok(())) {
                drained_soundly(pre, s, post, now, Ok(()));
            } else {
                drained_soundly(pre, s, model::before_last(post), now, Ok(()));
                assert(post.exchanges.drop_last().subrange(0, n) =~= post.exchanges.subrange(0, n));
                ran_on(pre, model::before_last(post), post, now);
            }
        },
        _ => {},
    }
}

/// A remote offer that the session gets, or fails to be ready for, is a sound
/// step.
proof fn offer_taken_is_sound(
    pre: PublisherState,
    post: PublisherState,
    offer: SdpOffer,
    now: u64,
    r: Result<String, String>,
)
    requires
        model::offer_accepted(pre, post, Ok(offer), now, r),
        description::fault(pre.descriptions, session::offer_text(offer)) is None,
    ensures
        sound(pre, post),
        pre.exchanges.is_prefix_of(post.exchanges),
        ran(pre, post, now),
        described(pre, post),
{
    if alike(pre, post) {
        assert(ran_through(pre, post, Seq::empty(), now));
    }
    if exists|mid: PublisherState| #[trigger]
        model::settled(pre, mid, now) && model::offer_taken(mid, post, offer, now, r) {
        let mid = choose|mid: PublisherState| #[trigger]
            model::settled(pre, mid, now) && model::offer_taken(mid, post, offer, now, r);
        settling_is_sound(pre, mid, now);
        match post.exchanges[mid.exchanges.len() as int] {
            Exchange::AcceptOffer { offer: given, result } => {
                let s = model::offer_handed_over(mid, given, result);
                one_description_counts(mid.descriptions, session::offer_text(offer), result is Ok);
                if result is Ok {
                    drained_soundly(pre, s, post, now, drain_outcome(r));
                }
            },
            _ => {},
        }
    } else {
        let text = choose|text: Seq<char>| #[trigger]
            model::unsettled(pre, post, now, text) && model::fails(r, text);
        unsettling_is_sound(pre, post, now, text);
    }
}

/// Telling the session the time is a sound step.
proof fn timeout_is_sound(
    pre: PublisherState,
    post: PublisherState,
    now: u64,
    r: Result<(), String>,
)
    requires
        model::timed_out(pre, post, now, r),
    ensures
        sound(pre, post),
        pre.exchanges.is_prefix_of(post.exchanges),
        ran(pre, post, now),
        post.descriptions == pre.descriptions,
{
    if alike(pre, post) {
        assert(ran_through(pre, post, Seq::empty(), now));
    }
    if pre.current() {
        match post.exchanges[pre.exchanges.len() as int] {
            Exchange::Timeout { now: at, result } => {
                let s = pre.with_input(Exchange::Timeout { now: at, result }, at, result);
                if model::timely(result) is Ok {
                    drained_soundly(pre, s, post, now, r);
                }
            },
            _ => {},
        }
    }
}

/// Sending a frame is a sound step.
proof fn send_is_sound(
    pre: PublisherState,
    post: PublisherState,
    codec: Codec,
    media_time: u64,
    data: Seq<u8>,
    now: u64,
    r: Result<(), String>,
)
    requires
        model::sent(pre, post, codec, media_time, data, now, r),
    ensures
        sound(pre, post),
        pre.exchanges.is_prefix_of(post.exchanges),
        ran(pre, post, now),
        post.descriptions == pre.descriptions,
{
    if alike(pre, post) {
        assert(ran_through(pre, post, Seq::empty(), now));
    }
    let n = pre.exchanges.len() as int;
    let listed = pre.with(post.exchanges[n]);
    if pre.deadline is Some || pre.reported {
        drained_soundly(pre, pre, post, now, r);
    } else {
        match post.exchanges[n + 1] {
            Exchange::Write { result, .. } => {
                let written = listed.with(post.exchanges[n + 1]);
                let s = PublisherState {
                    backlog: session::after_write(
                        written.backlog,
                        written.descriptions.len(),
                        result,
                    ),
                    ..written
                };
                if model::drained(s, post, now, r) {
                    drained_soundly(pre, s, post, now, r);
                }
            },
            _ => {},
        }
    }
}

/// Whether these are the states of a publisher between these operations, each
/// with its time.
pub open spec fn is_life(states: Seq<PublisherState>, operations: Seq<(Operation, u64)>) -> bool {
    &&& states.len() == operations.len() + 1
    &&& forall|i: int|
        0 <= i < operations.len() ==> #[trigger] performed(
            states[i],
            states[i + 1],
            operations[i].0,
            operations[i].1,
        )
}

/// How often the application collected this event over these operations.
pub open spec fn collected(
    states: Seq<PublisherState>,
    operations: Seq<(Operation, u64)>,
    event: PeerEvent,
) -> nat
    decreases operations.len(),
{
    if operations.len() == 0 {
        0
    } else {
        let last = operations.len() - 1;
        collected(states.drop_last(), operations.drop_last(), event) + if operations[last].0
            is PollEvent && model::first(states[last].events) == Some(event) {
            1nat
        } else {
            0nat
        }
    }
}

/// Over the whole life of a publisher its state stays consistent, its
/// configuration stays as it is, and the application is told of at most one
/// disconnect: one that it collected, or one that awaits collection.
pub proof fn disconnect_is_reported_once(
    states: Seq<PublisherState>,
    operations: Seq<(Operation, u64)>,
)
    requires
        is_life(states, operations),
        states[0].consistent(),
        !states[0].reported,
        states[0].events.len() == 0,
    ensures
        states.last().consistent(),
        steady(states[0], states.last()),
        collected(states, operations, PeerEvent::Disconnected) + disconnects(states.last().events)
            == reports(states.last()),
    decreases operations.len(),
{
    if operations.len() > 0 {
        let (before, earlier) = (states.drop_last(), operations.drop_last());
        life_begins(states, operations);
        disconnect_is_reported_once(before, earlier);
        let (pre, post) = (before.last(), states.last());
        let (operation, now) = operations[operations.len() - 1];
        operations_are_sound(pre, post, operation, now);
        if operation is PollEvent && pre.events.len() > 0 {
            occurrences_split(pre.events, PeerEvent::Disconnected);
        }
    }
}

/// Over the whole life of a publisher nothing is wrong with any description that
/// its session was handed and that counts, after those before it.
pub proof fn no_faulty_description_counts(
    states: Seq<PublisherState>,
    operations: Seq<(Operation, u64)>,
)
    requires
        is_life(states, operations),
        states[0].descriptions.len() == 0,
    ensures
        forall|i: int|
            0 <= i < states.last().descriptions.len() ==> description::fault(
                states.last().descriptions.take(i),
                #[trigger] states.last().descriptions[i],
            ) is None,
    decreases operations.len(),
{
    if operations.len() > 0 {
        let (before, earlier) = (states.drop_last(), operations.drop_last());
        life_begins(states, operations);
        no_faulty_description_counts(before, earlier);
        let (operation, now) = operations[operations.len() - 1];
        let (pre, post) = (before.last(), states.last());
        operations_are_sound(pre, post, operation, now);
        assert forall|i: int| 0 <= i < post.descriptions.len() implies description::fault(
            post.descriptions.take(i),
            #[trigger] post.descriptions[i],
        ) is None by {
            if i < pre.descriptions.len() {
                assert(pre.descriptions[i] == post.descriptions[i]);
                assert(pre.descriptions.take(i) =~= post.descriptions.take(i));
            } else {
                assert(post.descriptions.take(i) =~= pre.descriptions);
            }
        }
    }
}

/// Over the whole life of a publisher no frame waits to be packed that was
/// written under an earlier description.
pub proof fn no_frame_outlives_its_description(
    states: Seq<PublisherState>,
    operations: Seq<(Operation, u64)>,
)
    requires
        is_life(states, operations),
        states[0].consistent(),
    ensures
        states.last().consistent(),
        states.last().current(),
    decreases operations.len(),
{
    if operations.len() > 0 {
        let (before, earlier) = (states.drop_last(), operations.drop_last());
        life_begins(states, operations);
        no_frame_outlives_its_description(before, earlier);
        let (operation, now) = operations[operations.len() - 1];
        operations_are_sound(before.last(), states.last(), operation, now);
    }
}

/// A publisher that was just created is consistent, has told of nothing and was
/// handed nothing.
pub proof fn publishers_start_consistent(
    audio: Option<Codec>,
    h264: bool,
    h265: bool,
    initial_bitrate: Option<u64>,
    desired_bitrate: Option<u64>,
    grace: u64,
)
    ensures
        ({
            let s = model::initial_state(
                audio,
                h264,
                h265,
                initial_bitrate,
                desired_bitrate,
                grace,
            );
            &&& s.consistent()
            &&& !s.reported
            &&& s.events.len() == 0
            &&& s.descriptions.len() == 0
        }),
{
}

/// Repeated disconnects do not extend the wait for recovery.
pub proof fn repeated_disconnect_keeps_deadline(s: PublisherState, now: u64)
    requires
        s.consistent(),
        s.deadline is Some,
    ensures
        model::after_ice_state(s, IceState::Disconnected, now).deadline == s.deadline,
        model::after_ice_state(s, IceState::Disconnected, now).events == s.events,
{
}

/// The first disconnect of an established session with a grace period is not
/// reported, gives the session the whole period to recover, and has the unsent
/// media of every line discarded.
pub proof fn disconnect_starts_grace(s: PublisherState, now: u64)
    requires
        s.ever_connected,
        s.grace != 0,
        !s.reported,
        s.deadline is None,
    ensures
        ({
            let t = model::after_ice_state(s, IceState::Disconnected, now);
            &&& t.deadline == Some(model::later(now, s.grace))
            &&& t.events == s.events
            &&& !t.reported
            &&& s.audio_mid matches Some(mid) ==> t.requests.contains(
                EngineRequest::DiscardQueuedMedia(mid),
            )
            &&& s.video_mid matches Some(mid) ==> t.requests.contains(
                EngineRequest::DiscardQueuedMedia(mid),
            )
        }),
{
    let t = model::after_ice_state(s, IceState::Disconnected, now);
    let n = s.requests.len() as int;
    if let Some(mid) = s.audio_mid {
        assert(t.requests[n] == EngineRequest::DiscardQueuedMedia(mid));
    }
    if let Some(mid) = s.video_mid {
        assert(t.requests.last() == EngineRequest::DiscardQueuedMedia(mid));
    }
}

/// A disconnect before the session was established, or of a session without a
/// grace period, is reported at once.
pub proof fn disconnect_without_grace_is_immediate(s: PublisherState, now: u64)
    requires
        s.consistent(),
        !s.reported,
        !s.ever_connected || s.grace == 0,
    ensures
        ({
            let t = model::after_ice_state(s, IceState::Disconnected, now);
            &&& t.events == s.events.push(PeerEvent::Disconnected)
            &&& t.reported
            &&& t.deadline is None
        }),
{
}

/// Whether a poll reports that the ICE agent is disconnected.
pub open spec fn reports_disconnect(poll: Exchange) -> bool {
    poll matches Exchange::Poll(Ok(Report::IceStateChange(state))) && session::ice_state_of(state)
        == IceState::Disconnected
}

/// Whether a poll reports connectivity, or the end of the session.
pub open spec fn reports_recovery(poll: Exchange) -> bool {
    match poll {
        Exchange::Poll(Ok(Report::IceStateChange(state))) => session::ice_state_of(state)
            == IceState::Connected || session::ice_state_of(state) == IceState::Completed,
        Exchange::Poll(Ok(Report::Closed)) => true,
        _ => false,
    }
}

/// Recovery cancels the teardown: once connectivity is back, no passage of time
/// reports a disconnect, until the session is disconnected again.
pub proof fn recovery_cancels_teardown(
    s: PublisherState,
    state: IceState,
    earlier: u64,
    polls: Seq<Exchange>,
    now: u64,
)
    requires
        state == IceState::Connected || state == IceState::Completed,
        forall|i: int| 0 <= i < polls.len() ==> !#[trigger] reports_disconnect(polls[i]),
    ensures
        ({
            let recovered = model::after_ice_state(s, state, earlier);
            let t = model::after_polls(recovered, polls, now);
            &&& t.deadline is None
            &&& t.reported == s.reported
            &&& disconnects(t.events) == disconnects(s.events)
        }),
    decreases polls.len(),
{
    if polls.len() > 0 {
        let recovered = model::after_ice_state(s, state, earlier);
        let before = model::after_polls(recovered, polls.drop_last(), now);
        assert forall|i: int| 0 <= i < polls.drop_last().len() implies !#[trigger] reports_disconnect(
            polls.drop_last()[i],
        ) by {
            assert(!reports_disconnect(polls[i]));
        }
        recovery_cancels_teardown(s, state, earlier, polls.drop_last(), now);
        assert(!reports_disconnect(polls[polls.len() - 1]));
        let t = model::after_polls(recovered, polls, now);
        if t.events != before.events {
            assert(t.events.drop_last() =~= before.events);
        }
    }
}

/// Without recovery, a wait goes on: polls that do not report that the session
/// has nothing more to say leave its deadline alone.
proof fn wait_goes_on(s: PublisherState, polls: Seq<Exchange>, now: u64)
    requires
        s.consistent(),
        s.deadline is Some,
        forall|i: int| 0 <= i < polls.len() ==> #[trigger] model::goes_on(polls[i]),
        forall|i: int| 0 <= i < polls.len() ==> !#[trigger] reports_recovery(polls[i]),
    ensures
        ({
            let t = model::after_polls(s, polls, now);
            &&& t.deadline == s.deadline
            &&& !t.reported
        }),
    decreases polls.len(),
{
    if polls.len() > 0 {
        let fewer = polls.drop_last();
        assert forall|i: int| 0 <= i < fewer.len() implies #[trigger] model::goes_on(fewer[i]) by {
            assert(model::goes_on(polls[i]));
        }
        assert forall|i: int| 0 <= i < fewer.len() implies !#[trigger] reports_recovery(
            fewer[i],
        ) by {
            assert(!reports_recovery(polls[i]));
        }
        wait_goes_on(s, fewer, now);
        polls_are_sound(s, fewer, now);
        assert(model::goes_on(polls[polls.len() - 1]));
        assert(!reports_recovery(polls[polls.len() - 1]));
    }
}

/// A disconnect that is not recovered from is reported by the first drain that
/// comes to its end at or after the deadline, once, and by none before it.
pub proof fn sustained_disconnect_is_reported_at_deadline(
    pre: PublisherState,
    post: PublisherState,
    now: u64,
)
    requires
        pre.consistent(),
        pre.deadline is Some,
        model::drained(pre, post, now, Ok(())),
        forall|i: int|
            pre.exchanges.len() <= i < post.exchanges.len() ==> !#[trigger] reports_recovery(
                post.exchanges[i],
            ),
    ensures
        now >= pre.deadline->0 ==> {
            &&& post.reported
            &&& post.deadline is None
            &&& disconnects(post.events) == disconnects(pre.events) + 1
        },
        now < pre.deadline->0 ==> {
            &&& !post.reported
            &&& post.deadline == pre.deadline
            &&& disconnects(post.events) == disconnects(pre.events)
        },
{
    let n = pre.exchanges.len() as int;
    let polls = post.exchanges.skip(n);
    polls_are_recorded(pre, polls, now);
    assert forall|i: int| 0 <= i < polls.len() implies !#[trigger] reports_recovery(polls[i]) by {
        assert(!reports_recovery(post.exchanges[n + i]));
    }
    let fewer = polls.drop_last();
    assert forall|i: int| 0 <= i < fewer.len() implies #[trigger] model::goes_on(fewer[i]) by {
        assert(model::goes_on(polls[i]));
    }
    assert forall|i: int| 0 <= i < fewer.len() implies !#[trigger] reports_recovery(fewer[i]) by {
        assert(!reports_recovery(polls[i]));
    }
    wait_goes_on(pre, fewer, now);
    drains_are_sound(pre, post, now, Ok(()));
}

/// Whether an established session with a grace period has reported no
/// disconnect, and waits for none to become final before `limit`.
pub open spec fn spared(s: PublisherState, limit: u64) -> bool {
    &&& s.ever_connected
    &&& s.grace != 0
    &&& !s.reported
    &&& s.deadline matches Some(deadline) ==> limit <= deadline
}

/// Polls at a time from which the grace period reaches to `limit` or beyond
/// report no disconnect before `limit`.
proof fn polls_spare(s: PublisherState, polls: Seq<Exchange>, now: u64, limit: u64)
    requires
        spared(s, limit),
        now < limit <= model::later(now, s.grace),
    ensures
        spared(model::after_polls(s, polls, now), limit),
    decreases polls.len(),
{
    if polls.len() > 0 {
        polls_spare(s, polls.drop_last(), now, limit);
        polls_keep_negotiation(s, polls.drop_last(), now);
    }
}

/// So does any operation.
proof fn operations_spare(
    pre: PublisherState,
    post: PublisherState,
    operation: Operation,
    now: u64,
    limit: u64,
)
    requires
        performed(pre, post, operation, now),
        spared(pre, limit),
        now < limit <= model::later(now, pre.grace),
    ensures
        spared(post, limit),
{
    operations_are_sound(pre, post, operation, now);
    if ran(pre, post, now) {
        let polls = choose|polls: Seq<Exchange>| #[trigger] ran_through(pre, post, polls, now);
        polls_spare(pre, polls, now, limit);
    }
}

/// Whether an operation tells the publisher itself that the ICE agent is
/// disconnected.
pub open spec fn tells_disconnect(operation: Operation) -> bool {
    match operation {
        Operation::ChangeIceState(state) => state == IceState::Disconnected,
        Operation::TakeReport(report) => reports_disconnect(Exchange::Poll(Ok(report))),
        _ => false,
    }
}

/// Polls that report no disconnect start no wait for one to become final.
proof fn polls_start_no_wait(s: PublisherState, polls: Seq<Exchange>, now: u64)
    requires
        s.deadline is None,
        !s.reported,
        forall|i: int| 0 <= i < polls.len() ==> !#[trigger] reports_disconnect(polls[i]),
    ensures
        model::after_polls(s, polls, now).deadline is None,
        !model::after_polls(s, polls, now).reported,
    decreases polls.len(),
{
    if polls.len() > 0 {
        let fewer = polls.drop_last();
        assert forall|i: int| 0 <= i < fewer.len() implies !#[trigger] reports_disconnect(
            fewer[i],
        ) by {
            assert(!reports_disconnect(polls[i]));
        }
        polls_start_no_wait(s, fewer, now);
        assert(!reports_disconnect(polls[polls.len() - 1]));
    }
}

/// Nor does any operation.
proof fn operations_start_no_wait(
    pre: PublisherState,
    post: PublisherState,
    operation: Operation,
    now: u64,
)
    requires
        performed(pre, post, operation, now),
        pre.deadline is None,
        !pre.reported,
        !tells_disconnect(operation),
        forall|i: int|
            pre.exchanges.len() <= i < post.exchanges.len() ==> !#[trigger] reports_disconnect(
                post.exchanges[i],
            ),
    ensures
        post.deadline is None,
        !post.reported,
{
    operations_are_sound(pre, post, operation, now);
    if ran(pre, post, now) {
        let polls = choose|polls: Seq<Exchange>| #[trigger] ran_through(pre, post, polls, now);
        let n = pre.exchanges.len() as int;
        assert forall|i: int| 0 <= i < polls.len() implies !#[trigger] reports_disconnect(
            polls[i],
        ) by {
            let beyond = post.exchanges.skip(n);
            let k = choose|k: int| 0 <= k < beyond.len() && beyond[k] == polls[i];
            assert(!reports_disconnect(post.exchanges[n + k]));
        }
        polls_start_no_wait(pre, polls, now);
    }
}

/// The first part of a publisher's life is one.
proof fn life_begins(states: Seq<PublisherState>, operations: Seq<(Operation, u64)>)
    requires
        is_life(states, operations),
        operations.len() > 0,
    ensures
        is_life(states.drop_last(), operations.drop_last()),
        performed(
            states[states.len() - 2],
            states.last(),
            operations.last().0,
            operations.last().1,
        ),
{
    let (before, earlier) = (states.drop_last(), operations.drop_last());
    assert forall|i: int| 0 <= i < earlier.len() implies #[trigger] performed(
        before[i],
        before[i + 1],
        earlier[i].0,
        earlier[i].1,
    ) by {
        assert(performed(states[i], states[i + 1], operations[i].0, operations[i].1));
    }
    let last = operations.len() - 1;
    assert(performed(states[last], states[last + 1], operations[last].0, operations[last].1));
}

/// From the disconnect of an established session until its grace period is
/// over, no operation reports a disconnect to the application, whatever the
/// session reports meanwhile.
pub proof fn no_disconnect_within_grace(
    states: Seq<PublisherState>,
    operations: Seq<(Operation, u64)>,
    disconnected: u64,
)
    requires
        is_life(states, operations),
        states[0].consistent(),
        states[0].deadline == Some(model::later(disconnected, states[0].grace)),
        forall|i: int|
            0 <= i < operations.len() ==> disconnected <= (#[trigger] operations[i]).1
                < model::later(disconnected, states[0].grace),
    ensures
        !states.last().reported,
        collected(states, operations, PeerEvent::Disconnected) + disconnects(states.last().events)
            == disconnects(states[0].events),
        states.last().consistent(),
        states.last().grace == states[0].grace,
        spared(states.last(), model::later(disconnected, states[0].grace)),
    decreases operations.len(),
{
    if operations.len() > 0 {
        let (before, earlier) = (states.drop_last(), operations.drop_last());
        let limit = model::later(disconnected, states[0].grace);
        life_begins(states, operations);
        assert forall|i: int| 0 <= i < earlier.len() implies disconnected <= (
        #[trigger] earlier[i]).1 < limit by {
            assert(disconnected <= operations[i].1 < limit);
        }
        no_disconnect_within_grace(before, earlier, disconnected);
        let (operation, now) = operations[operations.len() - 1];
        let (pre, post) = (before.last(), states.last());
        operations_spare(pre, post, operation, now, limit);
        operations_are_sound(pre, post, operation, now);
        if operation is PollEvent && pre.events.len() > 0 {
            occurrences_split(pre.events, PeerEvent::Disconnected);
        }
    }
}

/// Whether a poll reports that the remote peer closed the session.
pub open spec fn reports_closure(poll: Exchange) -> bool {
    poll matches Exchange::Poll(Ok(Report::Closed))
}

/// Whether the publisher learns, over these operations, that the remote peer
/// closed the session: from a poll that is on record, or by being told itself.
pub open spec fn learns_closure(
    states: Seq<PublisherState>,
    operations: Seq<(Operation, u64)>,
) -> bool {
    ||| exists|i: int|
        states[0].exchanges.len() <= i < states.last().exchanges.len()
            && #[trigger] reports_closure(states.last().exchanges[i])
    ||| exists|i: int|
        0 <= i < operations.len() && #[trigger] operations[i].0 == Operation::TakeReport(
            Report::Closed,
        )
}

/// Polls that report no closure queue none.
proof fn polls_close_nothing(s: PublisherState, polls: Seq<Exchange>, now: u64)
    requires
        forall|i: int| 0 <= i < polls.len() ==> !#[trigger] reports_closure(polls[i]),
    ensures
        occurrences(model::after_polls(s, polls, now).events, PeerEvent::Closed) == occurrences(
            s.events,
            PeerEvent::Closed,
        ),
    decreases polls.len(),
{
    if polls.len() > 0 {
        let fewer = polls.drop_last();
        assert forall|i: int| 0 <= i < fewer.len() implies !#[trigger] reports_closure(
            fewer[i],
        ) by {
            assert(!reports_closure(polls[i]));
        }
        polls_close_nothing(s, fewer, now);
        assert(!reports_closure(polls[polls.len() - 1]));
        let before = model::after_polls(s, fewer, now);
        let t = model::after_polls(s, polls, now);
        if t.events != before.events {
            assert(t.events.drop_last() =~= before.events);
        }
    }
}

/// The application is told that the session is closed only if the remote peer
/// closed it: over operations by which the publisher does not learn of that, it
/// is told of no closure that was not queued before.
pub proof fn only_the_remote_peer_closes(
    states: Seq<PublisherState>,
    operations: Seq<(Operation, u64)>,
)
    requires
        is_life(states, operations),
        !learns_closure(states, operations),
    ensures
        collected(states, operations, PeerEvent::Closed) + occurrences(
            states.last().events,
            PeerEvent::Closed,
        ) == occurrences(states[0].events, PeerEvent::Closed),
        states[0].exchanges.is_prefix_of(states.last().exchanges),
    decreases operations.len(),
{
    if operations.len() > 0 {
        let (before, earlier) = (states.drop_last(), operations.drop_last());
        let (operation, now) = operations[operations.len() - 1];
        let (pre, post) = (before.last(), states.last());
        life_begins(states, operations);
        operations_are_sound(pre, post, operation, now);
        assert(!learns_closure(before, earlier)) by {
            let m = states[0].exchanges.len();
            assert forall|i: int| m <= i < pre.exchanges.len() implies !#[trigger] reports_closure(
                pre.exchanges[i],
            ) by {
                assert(pre.exchanges[i] == post.exchanges[i]);
                assert(!reports_closure(post.exchanges[i]));
            }
            assert forall|i: int| 0 <= i < earlier.len() implies #[trigger] earlier[i].0
                != Operation::TakeReport(Report::Closed) by {
                assert(earlier[i] == operations[i]);
            }
        }
        only_the_remote_peer_closes(before, earlier);
        let n = pre.exchanges.len() as int;
        if operation is PollEvent {
            if pre.events.len() > 0 {
                occurrences_split(pre.events, PeerEvent::Closed);
            }
        } else if operation is TakeReport || operation is ChangeIceState {
            assert(operations[operations.len() - 1].0 != Operation::TakeReport(Report::Closed));
            if post.events != pre.events {
                assert(post.events.drop_last() =~= pre.events);
            }
        } else {
            let polls = choose|polls: Seq<Exchange>| #[trigger] ran_through(pre, post, polls, now);
            assert forall|i: int| 0 <= i < polls.len() implies !#[trigger] reports_closure(
                polls[i],
            ) by {
                let beyond = post.exchanges.skip(n);
                let k = choose|k: int| 0 <= k < beyond.len() && beyond[k] == polls[i];
                assert(!reports_closure(post.exchanges[n + k]));
            }
            polls_close_nothing(pre, polls, now);
        }
    }
}

/// An outage that ends within the grace period is survived: from the disconnect
/// of an established session, through its recovery before the period is over,
/// and on until the session is disconnected again, however much later, no
/// operation reports a disconnect to the application, and none reports a closure
/// unless the remote peer closed the session.
pub proof fn outage_within_grace_is_survived(
    states: Seq<PublisherState>,
    operations: Seq<(Operation, u64)>,
    disconnected: u64,
    recovered: int,
)
    requires
        is_life(states, operations),
        states[0].consistent(),
        states[0].deadline == Some(model::later(disconnected, states[0].grace)),
        0 <= recovered < states.len(),
        forall|i: int|
            0 <= i < recovered ==> disconnected <= (#[trigger] operations[i]).1 < model::later(
                disconnected,
                states[0].grace,
            ),
        states[recovered].deadline is None,
        forall|i: int|
            recovered <= i < operations.len() ==> !tells_disconnect((#[trigger] operations[i]).0),
        forall|i: int|
            states[recovered].exchanges.len() <= i < states.last().exchanges.len()
                ==> !#[trigger] reports_disconnect(states.last().exchanges[i]),
    ensures
        !states.last().reported,
        states.last().deadline is None,
        collected(states, operations, PeerEvent::Disconnected) + disconnects(states.last().events)
            == disconnects(states[0].events),
        states.last().consistent(),
        states[recovered].exchanges.is_prefix_of(states.last().exchanges),
        !learns_closure(states, operations) ==> collected(states, operations, PeerEvent::Closed)
            + occurrences(states.last().events, PeerEvent::Closed) == occurrences(
            states[0].events,
            PeerEvent::Closed,
        ),
    decreases operations.len(),
{
    if !learns_closure(states, operations) {
        only_the_remote_peer_closes(states, operations);
    }
    if operations.len() == recovered {
        no_disconnect_within_grace(states, operations, disconnected);
    } else {
        let (before, earlier) = (states.drop_last(), operations.drop_last());
        let (operation, now) = operations[operations.len() - 1];
        let (pre, post) = (before.last(), states.last());
        life_begins(states, operations);
        operations_are_sound(pre, post, operation, now);
        assert forall|i: int| 0 <= i < recovered implies disconnected <= (#[trigger] earlier[i]).1
            < model::later(disconnected, states[0].grace) by {
            assert(earlier[i] == operations[i]);
        }
        assert forall|i: int| recovered <= i < earlier.len() implies !tells_disconnect(
            (#[trigger] earlier[i]).0,
        ) by {
            assert(earlier[i] == operations[i]);
        }
        let n = states[recovered].exchanges.len();
        assert forall|i: int| n <= i < pre.exchanges.len() implies !#[trigger] reports_disconnect(
            pre.exchanges[i],
        ) by {
            assert(pre.exchanges[i] == post.exchanges[i]);
            assert(!reports_disconnect(post.exchanges[i]));
        }
        outage_within_grace_is_survived(before, earlier, disconnected, recovered);
        operations_start_no_wait(pre, post, operation, now);
        if operation is PollEvent && pre.events.len() > 0 {
            occurrences_split(pre.events, PeerEvent::Disconnected);
        }
    }
}

/// After a drain that came to its end, the publisher wants to be told the time
/// no later than the deadline of the disconnect that it waits out, and that
/// deadline has not passed.
pub proof fn deadline_is_not_missed(pre: PublisherState, post: PublisherState, now: u64)
    requires
        model::drained(pre, post, now, Ok(())),
    ensures
        post.next_timeout is Some,
        post.deadline matches Some(deadline) ==> post.next_timeout->0 <= deadline && now < deadline,
{
}

/// While a disconnect is waited out, and after one was reported, no media is
/// handed to the session: sending only drains it.
pub proof fn disconnect_suppresses_media(
    pre: PublisherState,
    post: PublisherState,
    codec: Codec,
    media_time: u64,
    data: Seq<u8>,
    now: u64,
    r: Result<(), String>,
)
    requires
        pre.deadline is Some || pre.reported,
        model::sent(pre, post, codec, media_time, data, now, r),
    ensures
        forall|i: int|
            pre.exchanges.len() <= i < post.exchanges.len() ==> #[trigger] post.exchanges[i] is Poll,
{
    let n = pre.exchanges.len() as int;
    let polls = post.exchanges.skip(n);
    assert forall|i: int| n <= i < post.exchanges.len() implies #[trigger] post.exchanges[i] is Poll by {
        assert(post.exchanges[i] == polls[i - n]);
        if i - n < polls.len() - 1 {
            assert(model::goes_on(polls[i - n]));
        }
    }
}

/// A withdrawn interface leaves nothing behind: no candidate of it is kept,
/// every candidate of another interface is, and of the datagrams that had been
/// queued just those of other interfaces are.
pub proof fn withdrawn_interface_leaves_nothing(
    pre: PublisherState,
    post: PublisherState,
    base: Seq<char>,
    now: u64,
    r: Result<(), String>,
)
    requires
        model::interface_removed(pre, post, base, now, r),
    ensures
        forall|i: int|
            0 <= i < post.candidates.len() ==> (#[trigger] post.candidates[i]).0 != base,
        forall|i: int|
            0 <= i < pre.candidates.len() && (#[trigger] pre.candidates[i]).0 != base
                ==> post.candidates.contains(pre.candidates[i]),
        forall|i: int|
            0 <= i < model::output_beside(pre.output, base).len() ==> (
            #[trigger] post.output[i]).source@ != base,
        model::output_beside(pre.output, base).is_prefix_of(post.output),
{
    broadcast use vstd::seq_lib::group_filter_ensures;

    let n = pre.exchanges.len() as int;
    let gone = model::candidates_of(pre.candidates, base);
    let s = PublisherState {
        exchanges: pre.exchanges + post.exchanges.subrange(n, n + gone.len()),
        candidates: model::candidates_beside(pre.candidates, base),
        output: model::output_beside(pre.output, base),
        ..pre
    };
    let polls = post.exchanges.skip(s.exchanges.len() as int);
    polls_keep_negotiation(s, polls, now);
    queues_keep_order(s, polls, now);
    assert forall|i: int| 0 <= i < s.output.len() implies (#[trigger] post.output[i]).source@
        != base by {
        assert(post.output[i] == s.output[i]);
    }
}

/// An offer awaits its answer: a publisher that has a track to send and no
/// offer pending makes one, and its lines get their identities. Until the
/// answer comes there is no second offer.
pub proof fn offer_awaits_answer(
    pre: PublisherState,
    post: PublisherState,
    now: u64,
    r: Result<String, String>,
    next: PublisherState,
    later: u64,
    second: Result<String, String>,
)
    requires
        pre.pending is None,
        pre.audio_codec is Some || pre.video_enabled,
        model::offered(pre, post, now, r),
        model::offered(post, next, later, second),
    ensures
        post.pending is Some,
        pre.audio_codec is Some ==> post.audio_mid is Some,
        pre.video_enabled ==> post.video_mid is Some,
        next == post,
        second is Err,
{
    let n = pre.exchanges.len() as int;
    match post.exchanges[n] {
        Exchange::Offer { first, second, offered } => {
            let s = PublisherState {
                audio_mid: if first is Some {
                    offered.first
                } else {
                    pre.audio_mid
                },
                video_mid: if second is Some {
                    offered.second
                } else {
                    pre.video_mid
                },
                ..pre.with(post.exchanges[n])
            };
            match offered.offer {
                Some((_, pending)) => {
                    let s = PublisherState { pending: Some(pending), ..s };
                    let polls = post.exchanges.skip(s.exchanges.len() as int);
                    polls_keep_negotiation(s, polls, now);
                },
                None => {},
            }
        },
        _ => {},
    }
}

/// An answer settles the offer that awaited it, whether or not the session
/// accepts it: there is none pending afterwards, so a second answer is refused.
pub proof fn answer_settles_offer(
    pre: PublisherState,
    post: PublisherState,
    parsed: Result<SdpAnswer, Seq<char>>,
    now: u64,
    r: Result<(), String>,
)
    requires
        parsed is Ok,
        model::answered(pre, post, parsed, now, r),
    ensures
        post.pending is None,
        pre.pending is None ==> r is Err,
{
    let taken = PublisherState { pending: None, ..pre };
    if pre.pending is Some && description::fault(
        pre.descriptions,
        session::answer_text(parsed->Ok_0),
    ) is None {
        let (answer, pending) = (parsed->Ok_0, pre.pending->0);
        if exists|mid: PublisherState| #[trigger]
            model::settled(taken, mid, now) && model::answer_taken(
                mid,
                post,
                pending,
                answer,
                now,
                r,
            ) {
            let mid = choose|mid: PublisherState| #[trigger]
                model::settled(taken, mid, now) && model::answer_taken(
                    mid,
                    post,
                    pending,
                    answer,
                    now,
                    r,
                );
            let n = mid.exchanges.len() as int;
            match post.exchanges[n] {
                Exchange::AcceptAnswer { pending, answer, result } => {
                    let s = model::answer_handed_over(mid, pending, answer, result);
                    let polls = post.exchanges.skip(n + 1);
                    let fewer = post.exchanges.drop_last().skip(n + 1);
                    polls_keep_negotiation(s, polls, now);
                    polls_keep_negotiation(s, fewer, now);
                },
                _ => {},
            }
        }
    }
}

/// A frame that crosses the transport unchanged reaches the application as it
/// was sent: where the session that it was handed to gives it to another as it
/// was handed over, the other's application gets its codec and its media time,
/// and its bytes, which for audio are those that were sent, and for video those
/// in Annex B form.
pub proof fn frames_arrive_as_sent(
    pre: PublisherState,
    post: PublisherState,
    codec: Codec,
    media_time: u64,
    data: Seq<u8>,
    now: u64,
    r: Result<(), String>,
    receiver: PublisherState,
    arrived: MediaData,
    later: u64,
)
    requires
        model::sent(pre, post, codec, media_time, data, now, r),
        pre.deadline is None && !pre.reported,
        pre.mid_for(codec) is Some,
        post.exchanges[pre.exchanges.len() as int + 1] matches Exchange::Write {
            media_time: time,
            clock_rate,
            data: bytes,
            ..
        } && ({
            let frame = session::frame_of(arrived);
            &&& frame.codec == codec.spec_name()
            &&& frame.media_time == time
            &&& frame.clock_rate == clock_rate
            &&& frame.contents == bytes
        }),
        post.exchanges[pre.exchanges.len() as int] matches Exchange::Payloads {
            result: Some(payloads),
            ..
        } && model::payload_for(payloads@, codec) is Some,
    ensures
        ({
            let media = model::after_report(receiver, Report::MediaData(arrived), later).media;
            &&& media.len() == receiver.media.len() + 1
            &&& media.drop_last() == receiver.media
            &&& media.last().codec == codec
            &&& media.last().media_time == media_time
            &&& media.last().clock_rate == codec.spec_clock_rate()
            &&& media.last().contents == model::sent_data(codec, data)
            &&& codec.spec_is_audio() ==> media.last().contents == data
        }),
{
    crate::codec::name_identifies_codec(codec);
    let media = model::after_report(receiver, Report::MediaData(arrived), later).media;
    assert(media.drop_last() =~= receiver.media);
}

/// A publisher that could be created has a track to send.
pub proof fn publisher_has_a_track(audio: Option<Codec>, video: Option<Codec>)
    requires
        model::track_fault(audio, video) is None,
    ensures
        audio is Some || video == Some(Codec::H264) || video == Some(Codec::H265),
        audio matches Some(codec) ==> codec.spec_is_audio(),
        video matches Some(codec) ==> !codec.spec_is_audio(),
{
}

} // verus!
