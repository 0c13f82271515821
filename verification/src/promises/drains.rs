//! Collecting everything that the session has to report.
use vstd::prelude::*;

use crate::laws;
use crate::model;
use crate::model::{PeerEvent, PublisherState, Transmit};
use crate::publisher::Publisher;
use crate::session;
use crate::session::{Exchange, Report};

verus! {

/// A publisher collects by a drain, at the time that it is given or that the
/// clock reads.
pub proof fn collecting_is_a_drain(
    p: &mut Publisher,
    now: u64,
    r: Result<(), String>,
    q: &mut Publisher,
    by_clock: Result<(), String>,
)
    requires
        call_ensures(Publisher::drain_at, (p, now), r),
        call_ensures(Publisher::drain, (q,), by_clock),
    ensures
        model::drained(old(p)@, final(p)@, now, r),
        exists|read: PublisherState, at: u64| #[trigger]
            model::drained(read, final(q)@, at, by_clock) && {
                &&& read == (PublisherState { exchanges: read.exchanges, ..old(q)@ })
                &&& read.exchanges.len() == old(q)@.exchanges.len() + 1
                &&& read.exchanges.drop_last() == old(q)@.exchanges
                &&& read.exchanges.last() matches Exchange::Clock(reading)
                &&& at == reading || (reading > u64::MAX && at == u64::MAX)
            },
{
    let reading = choose|reading: u128| #[trigger]
        model::drained(old(q)@.at(reading), final(q)@, session::spec_nanos(reading), by_clock);
    let read = old(q)@.at(reading);
    assert(read.exchanges.drop_last() =~= old(q)@.exchanges);
    assert(model::drained(read, final(q)@, session::spec_nanos(reading), by_clock));
}

/// What follows a call on the session is a drain if the call succeeded. If it
/// failed, that is the error, and nothing changes.
pub proof fn only_success_is_followed_by_a_drain(
    p: &mut Publisher,
    result: Option<Result<(), String>>,
    now: u64,
    r: Result<(), String>,
)
    requires
        call_ensures(Publisher::drain_after, (p, result, now), r),
    ensures
        match result {
            Some(Ok(_)) => model::drained(old(p)@, final(p)@, now, r),
            Some(Err(error)) => final(p)@ == old(p)@ && (r matches Err(given) && given@ == error@),
            None => final(p)@ == old(p)@ && (r matches Err(given) && given@
                == "time is out of range"@),
        },
{
}

/// A drain polls the session, and does nothing else with it, until there is
/// nothing more to report, which is success, or a poll fails, which is its
/// error. Only a session that never comes to rest is given up.
pub proof fn drain_polls_to_the_end(
    pre: PublisherState,
    post: PublisherState,
    now: u64,
    r: Result<(), String>,
)
    requires
        model::drained(pre, post, now, r),
    ensures
        post.exchanges.len() > pre.exchanges.len(),
        forall|i: int|
            0 <= i < pre.exchanges.len() ==> #[trigger] post.exchanges[i] == pre.exchanges[i],
        forall|i: int|
            pre.exchanges.len() <= i < post.exchanges.len() - 1 ==> (#[trigger] post.exchanges[i] matches Exchange::Poll(
                Ok(report),
            ) && !(report is Timeout)),
        match post.exchanges.last() {
            Exchange::Poll(Ok(Report::Timeout(_))) => r is Ok,
            Exchange::Poll(Ok(_)) => r is Err && post.exchanges.len() - pre.exchanges.len()
                == u64::MAX,
            Exchange::Poll(Err(error)) => r matches Err(given) && given@ == error@,
            _ => false,
        },
{
    let n = pre.exchanges.len() as int;
    let polls = post.exchanges.skip(n);
    laws::polls_are_recorded(pre, polls, now);
    assert forall|i: int| 0 <= i < n implies #[trigger] post.exchanges[i] == pre.exchanges[i] by {
        assert((pre.exchanges + polls)[i] == pre.exchanges[i]);
    }
    assert forall|i: int| n <= i < post.exchanges.len() - 1 implies (
    #[trigger] post.exchanges[i] matches Exchange::Poll(Ok(report)) && !(report is Timeout)) by {
        assert(model::goes_on(polls[i - n]));
    }
    assert(polls.last() == post.exchanges.last());
}

/// The states that polls lead through.
spec fn trail(pre: PublisherState, polls: Seq<Exchange>, now: u64) -> Seq<PublisherState> {
    Seq::new(polls.len() + 1, |i: int| model::after_polls(pre, polls.take(i), now))
}

/// In a drain every report that the session gives is taken, in order, and
/// nothing else happens: the state moves from report to report as
/// [`Publisher::take_report`] takes them.
pub proof fn drain_takes_every_report(
    pre: PublisherState,
    post: PublisherState,
    now: u64,
    r: Result<(), String>,
)
    requires
        model::drained(pre, post, now, r),
    ensures
        exists|states: Seq<PublisherState>|
            #![trigger states.len()]
            {
                &&& states.len() == post.exchanges.len() - pre.exchanges.len() + 1
                &&& states[0] == pre
                &&& states.last() == post
                &&& forall|i: int|
                    0 <= i < states.len() - 1 ==> {
                        let poll = post.exchanges[pre.exchanges.len() + i];
                        let polled = PublisherState {
                            exchanges: states[i].exchanges.push(poll),
                            ..states[i]
                        };
                        match poll {
                            Exchange::Poll(Ok(report)) => #[trigger] states[i + 1]
                                == model::after_report(polled, report, now),
                            _ => states[i + 1] == polled,
                        }
                    }
            },
{
    let n = pre.exchanges.len() as int;
    let polls = post.exchanges.skip(n);
    let states = trail(pre, polls, now);
    laws::polls_are_recorded(pre, polls, now);
    assert(polls.take(0) =~= Seq::empty());
    assert(polls.take(polls.len() as int) =~= polls);
    assert forall|i: int| 0 <= i < states.len() - 1 implies {
        let poll = post.exchanges[n + i];
        let polled = PublisherState { exchanges: states[i].exchanges.push(poll), ..states[i] };
        match poll {
            Exchange::Poll(Ok(report)) => #[trigger] states[i + 1] == model::after_report(
                polled,
                report,
                now,
            ),
            _ => states[i + 1] == polled,
        }
    } by {
        assert(polls.take(i + 1).drop_last() =~= polls.take(i));
        assert(polls.take(i + 1).last() == post.exchanges[n + i]);
    }
    assert(states.len() == post.exchanges.len() - n + 1);
}

/// A run of polls queues just the datagrams that they report.
proof fn polls_queue_datagrams(s: PublisherState, polls: Seq<Exchange>, now: u64)
    ensures
        model::after_polls(s, polls, now).output == s.output + polls.filter(
            |e: Exchange| e matches Exchange::Poll(Ok(Report::Transmit(_, _, _))),
        ).map_values(
            |e: Exchange|
                Transmit {
                    source: e->Poll_0->Ok_0->Transmit_0,
                    destination: e->Poll_0->Ok_0->Transmit_1,
                    contents: e->Poll_0->Ok_0->Transmit_2,
                    transport_sequence: None,
                },
        ),
    decreases polls.len(),
{
    reveal(Seq::filter);
    let kind = |e: Exchange| e matches Exchange::Poll(Ok(Report::Transmit(_, _, _)));
    let made = |e: Exchange|
        Transmit {
            source: e->Poll_0->Ok_0->Transmit_0,
            destination: e->Poll_0->Ok_0->Transmit_1,
            contents: e->Poll_0->Ok_0->Transmit_2,
            transport_sequence: None,
        };
    if polls.len() == 0 {
        assert(s.output + polls.filter(kind).map_values(made) =~= s.output);
    } else {
        polls_queue_datagrams(s, polls.drop_last(), now);
        let fewer = polls.drop_last().filter(kind);
        if kind(polls.last()) {
            assert(polls.filter(kind) =~= fewer.push(polls.last()));
            assert(polls.filter(kind).map_values(made) =~= fewer.map_values(made).push(
                made(polls.last()),
            ));
        } else {
            assert(polls.filter(kind) =~= fewer);
        }
        assert(model::after_polls(s, polls, now).output =~= s.output + polls.filter(
            kind,
        ).map_values(made));
    }
}

/// Every datagram that the session hands out during a drain is queued, once,
/// unchanged and in order, behind those from before, and no other is.
pub proof fn drain_queues_every_datagram(
    pre: PublisherState,
    post: PublisherState,
    now: u64,
    r: Result<(), String>,
)
    requires
        model::drained(pre, post, now, r),
    ensures
        post.output == pre.output + post.exchanges.skip(pre.exchanges.len() as int).filter(
            |e: Exchange| e matches Exchange::Poll(Ok(Report::Transmit(_, _, _))),
        ).map_values(
            |e: Exchange|
                Transmit {
                    source: e->Poll_0->Ok_0->Transmit_0,
                    destination: e->Poll_0->Ok_0->Transmit_1,
                    contents: e->Poll_0->Ok_0->Transmit_2,
                    transport_sequence: None,
                },
        ),
{
    polls_queue_datagrams(pre, post.exchanges.skip(pre.exchanges.len() as int), now);
}

/// Polls queue an event for each connection, keyframe request and closure.
proof fn polls_queue_events(s: PublisherState, polls: Seq<Exchange>, now: u64)
    ensures
        model::after_polls(s, polls, now).events.filter(
            |e: PeerEvent| e != PeerEvent::Disconnected,
        ) == s.events.filter(|e: PeerEvent| e != PeerEvent::Disconnected) + polls.filter(
            |e: Exchange|
                e == Exchange::Poll(Ok(Report::Connected)) || e == Exchange::Poll(
                    Ok(Report::KeyframeRequest),
                ) || e == Exchange::Poll(Ok(Report::Closed)),
        ).map_values(
            |e: Exchange|
                match e {
                    Exchange::Poll(Ok(Report::Connected)) => PeerEvent::Connected,
                    Exchange::Poll(Ok(Report::Closed)) => PeerEvent::Closed,
                    _ => PeerEvent::KeyframeRequest,
                },
        ),
    decreases polls.len(),
{
    reveal(Seq::filter);
    let told = |e: PeerEvent| e != PeerEvent::Disconnected;
    let kind = |e: Exchange|
        e == Exchange::Poll(Ok(Report::Connected)) || e == Exchange::Poll(
            Ok(Report::KeyframeRequest),
        ) || e == Exchange::Poll(Ok(Report::Closed));
    let made = |e: Exchange|
        match e {
            Exchange::Poll(Ok(Report::Connected)) => PeerEvent::Connected,
            Exchange::Poll(Ok(Report::Closed)) => PeerEvent::Closed,
            _ => PeerEvent::KeyframeRequest,
        };
    if polls.len() == 0 {
        assert(s.events.filter(told) + polls.filter(kind).map_values(made) =~= s.events.filter(
            told,
        ));
    } else {
        polls_queue_events(s, polls.drop_last(), now);
        let before = model::after_polls(s, polls.drop_last(), now);
        let after = model::after_polls(s, polls, now);
        let fewer = polls.drop_last().filter(kind);
        if after.events != before.events {
            assert(after.events.drop_last() =~= before.events);
        }
        if kind(polls.last()) {
            assert(polls.filter(kind) =~= fewer.push(polls.last()));
            assert(polls.filter(kind).map_values(made) =~= fewer.map_values(made).push(
                made(polls.last()),
            ));
            assert(after.events.filter(told) =~= before.events.filter(told).push(
                made(polls.last()),
            ));
        } else {
            assert(polls.filter(kind) =~= fewer);
            assert(after.events.filter(told) =~= before.events.filter(told));
        }
        assert(after.events.filter(told) =~= s.events.filter(told) + polls.filter(kind).map_values(
            made,
        ));
    }
}

/// The application is told of every connection, keyframe request and closure
/// that the session reports during a drain, once and in order, and of none that
/// it does not report.
pub proof fn drain_tells_every_event(
    pre: PublisherState,
    post: PublisherState,
    now: u64,
    r: Result<(), String>,
)
    requires
        model::drained(pre, post, now, r),
    ensures
        post.events.filter(|e: PeerEvent| e != PeerEvent::Disconnected) == pre.events.filter(
            |e: PeerEvent| e != PeerEvent::Disconnected,
        ) + post.exchanges.skip(pre.exchanges.len() as int).filter(
            |e: Exchange|
                e == Exchange::Poll(Ok(Report::Connected)) || e == Exchange::Poll(
                    Ok(Report::KeyframeRequest),
                ) || e == Exchange::Poll(Ok(Report::Closed)),
        ).map_values(
            |e: Exchange|
                match e {
                    Exchange::Poll(Ok(Report::Connected)) => PeerEvent::Connected,
                    Exchange::Poll(Ok(Report::Closed)) => PeerEvent::Closed,
                    _ => PeerEvent::KeyframeRequest,
                },
        ),
        post.ever_connected <==> pre.ever_connected || post.exchanges.skip(
            pre.exchanges.len() as int,
        ).contains(Exchange::Poll(Ok(Report::Connected))),
{
    let polls = post.exchanges.skip(pre.exchanges.len() as int);
    polls_queue_events(pre, polls, now);
    polls_establish(pre, polls, now);
}

/// Polls establish a session just if one reports a connection.
proof fn polls_establish(s: PublisherState, polls: Seq<Exchange>, now: u64)
    ensures
        model::after_polls(s, polls, now).ever_connected <==> s.ever_connected || polls.contains(
            Exchange::Poll(Ok(Report::Connected)),
        ),
    decreases polls.len(),
{
    if polls.len() > 0 {
        let fewer = polls.drop_last();
        let connected = Exchange::Poll(Ok(Report::Connected));
        polls_establish(s, fewer, now);
        if fewer.contains(connected) {
            let i = choose|i: int| 0 <= i < fewer.len() && fewer[i] == connected;
            assert(polls[i] == connected);
        }
        if polls.contains(connected) && polls.last() != connected {
            let i = choose|i: int| 0 <= i < polls.len() && polls[i] == connected;
            assert(fewer[i] == connected);
        }
        if polls.last() == connected {
            assert(polls[polls.len() - 1] == connected);
        }
    }
}

/// A drain leaves alone what was negotiated, what is configured, and the
/// candidates. Only a disconnect asks anything of the host.
pub proof fn drain_leaves_the_rest_alone(
    pre: PublisherState,
    post: PublisherState,
    now: u64,
    r: Result<(), String>,
)
    requires
        model::drained(pre, post, now, r),
    ensures
        post == (PublisherState {
            exchanges: post.exchanges,
            output: post.output,
            events: post.events,
            media: post.media,
            estimates: post.estimates,
            requests: post.requests,
            next_timeout: post.next_timeout,
            deadline: post.deadline,
            reported: post.reported,
            ever_connected: post.ever_connected,
            ..pre
        }),
{
    laws::polls_keep_negotiation(pre, post.exchanges.skip(pre.exchanges.len() as int), now);
}

/// Of the bandwidth estimates that the session gives during a drain the last one
/// awaits collection, alone. If it gives none, those from before still do.
pub proof fn drain_keeps_the_last_estimate(
    pre: PublisherState,
    post: PublisherState,
    now: u64,
    r: Result<(), String>,
    i: int,
    bitrate: u64,
)
    requires
        model::drained(pre, post, now, r),
    ensures
        pre.exchanges.len() <= i < post.exchanges.len() && post.exchanges[i] == Exchange::Poll(
            Ok(Report::BitrateEstimate(bitrate)),
        ) && (forall|j: int|
            i < j < post.exchanges.len() ==> !(#[trigger] post.exchanges[j] matches Exchange::Poll(
                Ok(Report::BitrateEstimate(_)),
            ))) ==> post.estimates =~= seq![bitrate],
        (forall|j: int|
            pre.exchanges.len() <= j < post.exchanges.len()
                ==> !(#[trigger] post.exchanges[j] matches Exchange::Poll(
                Ok(Report::BitrateEstimate(_)),
            ))) ==> post.estimates =~= pre.estimates,
{
    let n = pre.exchanges.len() as int;
    let polls = post.exchanges.skip(n);
    laws::polls_are_recorded(pre, polls, now);
    laws::latest_estimate_wins(pre, polls, now);
    assert forall|j: int| n <= j < post.exchanges.len() implies #[trigger] post.exchanges[j]
        == polls[j - n] by {}
    if n <= i < post.exchanges.len() && post.exchanges[i] == Exchange::Poll(
        Ok(Report::BitrateEstimate(bitrate)),
    ) && (forall|j: int|
        i < j < post.exchanges.len() ==> !(#[trigger] post.exchanges[j] matches Exchange::Poll(
            Ok(Report::BitrateEstimate(_)),
        ))) {
        assert forall|j: int| i - n < j < polls.len() implies !(#[trigger] polls[j] matches Exchange::Poll(
            Ok(Report::BitrateEstimate(_)),
        )) by {
            assert(polls[j] == post.exchanges[n + j]);
        }
        last_estimate_is(polls, i - n, bitrate);
    }
    if forall|j: int|
        n <= j < post.exchanges.len() ==> !(#[trigger] post.exchanges[j] matches Exchange::Poll(
            Ok(Report::BitrateEstimate(_)),
        )) {
        assert forall|j: int| 0 <= j < polls.len() implies !(#[trigger] polls[j] matches Exchange::Poll(
            Ok(Report::BitrateEstimate(_)),
        )) by {
            assert(polls[j] == post.exchanges[n + j]);
        }
        no_estimate_is_last(polls);
    }
}

/// The last estimate is the one that none follows.
proof fn last_estimate_is(polls: Seq<Exchange>, i: int, bitrate: u64)
    requires
        0 <= i < polls.len(),
        polls[i] == Exchange::Poll(Ok(Report::BitrateEstimate(bitrate))),
        forall|j: int|
            i < j < polls.len() ==> !(#[trigger] polls[j] matches Exchange::Poll(
                Ok(Report::BitrateEstimate(_)),
            )),
    ensures
        laws::last_estimate(polls) == Some(bitrate),
    decreases polls.len(),
{
    if i < polls.len() - 1 {
        assert(!(polls[polls.len() - 1] matches Exchange::Poll(Ok(Report::BitrateEstimate(_)))));
        last_estimate_is(polls.drop_last(), i, bitrate);
    }
}

/// Where there is no estimate none is the last.
proof fn no_estimate_is_last(polls: Seq<Exchange>)
    requires
        forall|j: int|
            0 <= j < polls.len() ==> !(#[trigger] polls[j] matches Exchange::Poll(
                Ok(Report::BitrateEstimate(_)),
            )),
    ensures
        laws::last_estimate(polls) is None,
    decreases polls.len(),
{
    if polls.len() > 0 {
        assert(!(polls[polls.len() - 1] matches Exchange::Poll(Ok(Report::BitrateEstimate(_)))));
        no_estimate_is_last(polls.drop_last());
    }
}

} // verus!
