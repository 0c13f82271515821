//! Collecting what is queued, and looking at the publisher.
use str0m::{Candidate, Rtc};
use vstd::prelude::*;

use crate::model::{EngineRequest, Media, PeerEvent, PublisherState, Transmit};
use crate::publisher::Publisher;
use crate::session::Exchange;

verus! {

/// Datagrams are collected oldest first, each once, and nothing else changes.
pub proof fn oldest_datagram_comes_first(p: &mut Publisher, r: Option<Transmit>)
    requires
        call_ensures(Publisher::poll_transmit, (p,), r),
    ensures
        r is None <==> old(p)@.output.len() == 0,
        r is None ==> final(p)@ == old(p)@,
        r matches Some(datagram) ==> {
            &&& datagram == old(p)@.output[0]
            &&& seq![datagram] + final(p)@.output =~= old(p)@.output
            &&& final(p)@ == (PublisherState { output: final(p)@.output, ..old(p)@ })
        },
{
}

/// So are events.
pub proof fn oldest_event_comes_first(p: &mut Publisher, r: Option<PeerEvent>)
    requires
        call_ensures(Publisher::poll_event, (p,), r),
    ensures
        r is None <==> old(p)@.events.len() == 0,
        r is None ==> final(p)@ == old(p)@,
        r matches Some(event) ==> {
            &&& event == old(p)@.events[0]
            &&& seq![event] + final(p)@.events =~= old(p)@.events
            &&& final(p)@ == (PublisherState { events: final(p)@.events, ..old(p)@ })
        },
{
}

/// So are frames.
pub proof fn oldest_frame_comes_first(p: &mut Publisher, r: Option<Media>)
    requires
        call_ensures(Publisher::poll_media, (p,), r),
    ensures
        r is None <==> old(p)@.media.len() == 0,
        r is None ==> final(p)@ == old(p)@,
        r matches Some(media) ==> {
            let view = old(p)@.media[0];
            &&& media.codec == view.codec
            &&& media.media_time == view.media_time
            &&& media.clock_rate == view.clock_rate
            &&& media.ntp_micros == view.ntp_micros
            &&& media.sender_media_time == view.sender_media_time
            &&& media.contents@ == view.contents
            &&& seq![view] + final(p)@.media =~= old(p)@.media
            &&& final(p)@ == (PublisherState { media: final(p)@.media, ..old(p)@ })
        },
{
}

/// So are bandwidth estimates.
pub proof fn oldest_estimate_comes_first(p: &mut Publisher, r: Option<u64>)
    requires
        call_ensures(Publisher::poll_bitrate_estimate, (p,), r),
    ensures
        r is None <==> old(p)@.estimates.len() == 0,
        r is None ==> final(p)@ == old(p)@,
        r matches Some(estimate) ==> {
            &&& estimate == old(p)@.estimates[0]
            &&& seq![estimate] + final(p)@.estimates =~= old(p)@.estimates
            &&& final(p)@ == (PublisherState { estimates: final(p)@.estimates, ..old(p)@ })
        },
{
}

/// So is work for the host.
pub proof fn oldest_request_comes_first(p: &mut Publisher, r: Option<EngineRequest>)
    requires
        call_ensures(Publisher::poll_request, (p,), r),
    ensures
        r is None <==> old(p)@.requests.len() == 0,
        r is None ==> final(p)@ == old(p)@,
        r matches Some(request) ==> {
            &&& request == old(p)@.requests[0]
            &&& seq![request] + final(p)@.requests =~= old(p)@.requests
            &&& final(p)@ == (PublisherState { requests: final(p)@.requests, ..old(p)@ })
        },
{
}

/// What is asked of the host is queued for it, behind what was asked before: a
/// probe of the path, a fresh estimate, and the path of a packet. A fresh
/// estimate leaves none of the old ones. None of it fails, and nothing else
/// changes.
pub proof fn work_is_queued_for_the_host(
    p: &mut Publisher,
    probed: Result<(), String>,
    q: &mut Publisher,
    restarted: Result<(), String>,
    s: &mut Publisher,
    sequence: u64,
    path: Option<u64>,
)
    requires
        call_ensures(Publisher::request_path_probe, (p,), probed),
        call_ensures(Publisher::restart_on_path_change, (q,), restarted),
        call_ensures(Publisher::set_egress_path, (s, sequence, path), ()),
    ensures
        probed is Ok,
        final(p)@ == (PublisherState {
            requests: old(p)@.requests.push(EngineRequest::ProbePath),
            ..old(p)@
        }),
        restarted is Ok,
        final(q)@ == (PublisherState {
            estimates: Seq::empty(),
            requests: old(q)@.requests.push(EngineRequest::RestartEstimate),
            ..old(q)@
        }),
        final(s)@ == (PublisherState {
            requests: old(s)@.requests.push(EngineRequest::AttributePath { sequence, path }),
            ..old(s)@
        }),
{
}

/// The time left until the publisher wants to be told the time is the whole
/// difference, nothing once that time has come, and the longest span there is
/// where there is no such time.
pub proof fn time_left_is_the_difference(p: &Publisher, now: u64, r: u128)
    requires
        call_ensures(Publisher::timeout_after_at, (p, now), r),
    ensures
        match p@.next_timeout {
            Some(at) if now <= at => now + r == at,
            Some(_) => r == 0,
            None => r == u64::MAX * 1_000_000_000 + 999_999_999,
        },
{
}

/// By the clock, it is the time left at what the clock reads.
pub proof fn time_left_by_the_clock(p: &mut Publisher, r: u128)
    requires
        call_ensures(Publisher::timeout_after, (p,), r),
    ensures
        exists|reading: u128| #[trigger]
            old(p)@.at(reading) == final(p)@ && final(p)@.exchanges == old(p)@.exchanges.push(
                Exchange::Clock(reading),
            ) && match old(p)@.next_timeout {
                Some(at) if reading <= at => reading + r == at,
                Some(_) => r == 0,
                None => r == u64::MAX * 1_000_000_000 + 999_999_999,
            },
        final(p)@ == (PublisherState { exchanges: final(p)@.exchanges, ..old(p)@ }),
{
}

/// What is told of a publisher is how it stands.
pub proof fn publisher_is_told_as_it_stands(
    p: &Publisher,
    estimates: bool,
    deadline: Option<u64>,
    reported: bool,
    candidates: &Vec<(String, Candidate)>,
)
    requires
        call_ensures(Publisher::estimates_bandwidth, (p,), estimates),
        call_ensures(Publisher::disconnect_deadline, (p,), deadline),
        call_ensures(Publisher::disconnect_reported, (p,), reported),
        call_ensures(Publisher::local_candidates, (p,), candidates),
    ensures
        estimates == p@.estimating,
        deadline == p@.deadline,
        reported == p@.reported,
        candidates@.len() == p@.candidates.len(),
        forall|i: int|
            0 <= i < candidates@.len() ==> (#[trigger] candidates@[i]).0@ == p@.candidates[i].0
                && candidates@[i].1 == p@.candidates[i].1,
{
    let views = |c: (String, Candidate)| (c.0@, c.1);
    assert(candidates@.map_values(views) == p@.candidates);
    assert forall|i: int| 0 <= i < candidates@.len() implies (#[trigger] candidates@[i]).0@
        == p@.candidates[i].0 && candidates@[i].1 == p@.candidates[i].1 by {
        assert(candidates@.map_values(views)[i] == (candidates@[i].0@, candidates@[i].1));
    }
}

/// What the host does with the transport is not on record, and changes nothing
/// else of the publisher.
pub proof fn transport_is_handed_out(p: &mut Publisher, r: &mut Rtc)
    requires
        call_ensures(Publisher::rtc_mut, (p,), r),
    ensures
        *old(r) == old(p).rtc(),
        final(p).rtc() == *final(r),
        final(p)@ == old(p)@,
{
}

} // verus!
