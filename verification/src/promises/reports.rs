//! What the session reports, and what becomes of it.
use str0m::media::MediaData;
use str0m::IceConnectionState;
use vstd::prelude::*;

use crate::codec::Codec;
use crate::model;
use crate::model::{EngineRequest, PeerEvent, PublisherState};
use crate::publisher::Publisher;
use crate::session;
use crate::session::{Frame, IceState, Report, SenderClock};

verus! {

/// Only the report that there is nothing more for now ends a run of polls.
pub proof fn only_a_timeout_ends_the_polls(
    p: &mut Publisher,
    report: Report,
    now: u64,
    more: bool,
)
    requires
        call_ensures(Publisher::take_report, (p, report, now), more),
    ensures
        more <==> !(report is Timeout),
        final(p)@ == model::after_report(old(p)@, report, now),
{
}

/// A connection, a request for a keyframe and a closure are told to the
/// application, after what it was to be told before. A closure also ends the
/// wait for a disconnect to become final. Nothing else changes.
pub proof fn events_are_passed_on(s: PublisherState, now: u64)
    ensures
        model::after_report(s, Report::Connected, now) == (PublisherState {
            ever_connected: true,
            events: s.events.push(PeerEvent::Connected),
            ..s
        }),
        model::after_report(s, Report::KeyframeRequest, now) == (PublisherState {
            events: s.events.push(PeerEvent::KeyframeRequest),
            ..s
        }),
        model::after_report(s, Report::Closed, now) == (PublisherState {
            deadline: None,
            events: s.events.push(PeerEvent::Closed),
            ..s
        }),
        model::after_report(s, Report::Other, now) == s,
{
}

/// A datagram is queued whole, with both its addresses, behind those before it.
/// Nothing else changes.
pub proof fn datagram_is_queued_whole(
    s: PublisherState,
    source: String,
    destination: String,
    contents: Vec<u8>,
    now: u64,
)
    ensures
        ({
            let t = model::after_report(s, Report::Transmit(source, destination, contents), now);
            &&& t == (PublisherState { output: t.output, ..s })
            &&& t.output.len() == s.output.len() + 1
            &&& t.output.drop_last() =~= s.output
            &&& t.output.last().source@ == source@
            &&& t.output.last().destination@ == destination@
            &&& t.output.last().contents@ == contents@
            &&& t.output.last().transport_sequence is None
        }),
{
}

/// A bandwidth estimate takes the place of any before it. Nothing else changes.
pub proof fn estimate_replaces_earlier_ones(s: PublisherState, bitrate: u64, now: u64)
    ensures
        model::after_report(s, Report::BitrateEstimate(bitrate), now) == (PublisherState {
            estimates: seq![bitrate],
            ..s
        }),
{
}

/// The report that there is nothing more before some time is when a disconnect
/// that is due becomes final: it is told once, just if its deadline is not later
/// than now. The publisher then wants to be told the time when the session does,
/// or at the deadline if that is earlier.
pub proof fn due_disconnect_becomes_final(s: PublisherState, at: u128, now: u64)
    ensures
        ({
            let t = model::after_report(s, Report::Timeout(at), now);
            let due = s.deadline is Some && s.deadline->0 <= now;
            &&& due ==> t == (PublisherState {
                deadline: None,
                reported: true,
                events: s.events.push(PeerEvent::Disconnected),
                next_timeout: t.next_timeout,
                ..s
            })
            &&& !due ==> t == (PublisherState { next_timeout: t.next_timeout, ..s })
            &&& t.next_timeout is Some
            &&& t.next_timeout->0 <= at
            &&& t.deadline is Some ==> t.next_timeout->0 <= t.deadline->0
            &&& t.next_timeout->0 == at || (t.deadline is Some && t.next_timeout->0
                == t.deadline->0) || t.next_timeout->0 == u64::MAX
        }),
{
}

/// A change of the ICE state that the session reports is taken as one that the
/// publisher is told of directly.
pub proof fn ice_state_is_taken_alike(
    p: &mut Publisher,
    state: IceConnectionState,
    now: u64,
    more: bool,
    q: &mut Publisher,
)
    requires
        old(q)@ == old(p)@,
        call_ensures(Publisher::take_report, (p, Report::IceStateChange(state), now), more),
        call_ensures(Publisher::ice_state_changed, (q, session::ice_state_of(state), now), ()),
    ensures
        final(p)@ == final(q)@,
        final(p)@ == model::after_report(old(p)@, Report::IceStateChange(state), now),
{
}

/// Connectivity ends the wait for a disconnect to become final, and changes
/// nothing else. So do a new agent and one that checks, which change nothing.
pub proof fn connectivity_ends_the_wait(p: &mut Publisher, state: IceState, now: u64)
    requires
        call_ensures(Publisher::ice_state_changed, (p, state, now), ()),
        state != IceState::Disconnected,
    ensures
        state == IceState::Connected || state == IceState::Completed ==> final(p)@ == (
        PublisherState { deadline: None, ..old(p)@ }),
        state == IceState::New || state == IceState::Checking ==> final(p)@ == old(p)@,
{
}

/// A disconnect of an established session with a grace period is not told. The
/// first one starts the wait for the whole period, further ones do not prolong
/// it, and each has the unsent media of both lines dropped. Nothing else
/// changes.
pub proof fn disconnect_is_waited_out(p: &mut Publisher, now: u64)
    requires
        call_ensures(Publisher::ice_state_changed, (p, IceState::Disconnected, now), ()),
        old(p)@.ever_connected,
        old(p)@.grace != 0,
        !old(p)@.reported,
    ensures
        final(p)@ == (PublisherState {
            deadline: final(p)@.deadline,
            requests: final(p)@.requests,
            ..old(p)@
        }),
        old(p)@.deadline is Some ==> final(p)@.deadline == old(p)@.deadline,
        old(p)@.deadline is None && now + old(p)@.grace <= u64::MAX ==> final(p)@.deadline == Some(
            (now + old(p)@.grace) as u64,
        ),
        old(p)@.deadline is None && now + old(p)@.grace > u64::MAX ==> final(p)@.deadline == Some(
            u64::MAX,
        ),
        match (old(p)@.audio_mid, old(p)@.video_mid) {
            (Some(audio), Some(video)) => final(p)@.requests =~= old(p)@.requests.push(
                EngineRequest::DiscardQueuedMedia(audio),
            ).push(EngineRequest::DiscardQueuedMedia(video)),
            (Some(mid), None) => final(p)@.requests =~= old(p)@.requests.push(
                EngineRequest::DiscardQueuedMedia(mid),
            ),
            (None, Some(mid)) => final(p)@.requests =~= old(p)@.requests.push(
                EngineRequest::DiscardQueuedMedia(mid),
            ),
            (None, None) => final(p)@.requests =~= old(p)@.requests,
        },
{
}

/// Any other disconnect is told at once, unless one was told already, and then
/// changes nothing.
pub proof fn disconnect_is_told_once(p: &mut Publisher, now: u64)
    requires
        call_ensures(Publisher::ice_state_changed, (p, IceState::Disconnected, now), ()),
        !old(p)@.ever_connected || old(p)@.grace == 0 || old(p)@.reported,
    ensures
        old(p)@.reported ==> final(p)@ == old(p)@,
        !old(p)@.reported ==> final(p)@ == (PublisherState {
            reported: true,
            events: old(p)@.events.push(PeerEvent::Disconnected),
            ..old(p)@
        }),
{
}

/// A frame of one of the four codecs reaches the application whole, with its
/// times, behind those before it; the sender's clocks go with it where its last
/// report gave a wall clock. One of another codec is dropped. Nothing else
/// changes.
pub proof fn frame_reaches_the_application(p: &mut Publisher, frame: Frame)
    requires
        call_ensures(Publisher::take_frame, (p, frame), ()),
    ensures
        ({
            let name = frame.codec@;
            let media = final(p)@.media;
            &&& final(p)@ == (PublisherState { media, ..old(p)@ })
            &&& name != "H264"@ && name != "H265"@ && name != "opus"@ && name != "MPEG4-GENERIC"@
                ==> media == old(p)@.media
            &&& name == "H264"@ || name == "H265"@ || name == "opus"@ || name == "MPEG4-GENERIC"@
                ==> {
                &&& media.len() == old(p)@.media.len() + 1
                &&& media.drop_last() =~= old(p)@.media
                &&& media.last().codec is H264 <==> name == "H264"@
                &&& media.last().codec is H265 <==> name == "H265"@
                &&& media.last().codec is Opus <==> name == "opus"@
                &&& media.last().codec is Aac <==> name == "MPEG4-GENERIC"@
                &&& media.last().media_time == frame.media_time
                &&& media.last().clock_rate == frame.clock_rate
                &&& media.last().contents == frame.contents@
                &&& match frame.sender {
                    Some(SenderClock { ntp_micros: Some(micros), media_time }) => {
                        &&& media.last().sender_media_time == media_time
                        &&& micros <= u64::MAX ==> media.last().ntp_micros == Some(micros as u64)
                        &&& micros > u64::MAX ==> media.last().ntp_micros == Some(u64::MAX)
                    },
                    _ => media.last().ntp_micros is None && media.last().sender_media_time == 0,
                }
            }
        }),
{
    crate::codec::name_identifies_codec(Codec::H264);
    crate::codec::name_identifies_codec(Codec::H265);
    crate::codec::name_identifies_codec(Codec::Opus);
    crate::codec::name_identifies_codec(Codec::Aac);
}

/// A frame that the session reports is taken as one that the publisher is given
/// directly.
pub proof fn frame_is_taken_alike(
    p: &mut Publisher,
    data: MediaData,
    now: u64,
    more: bool,
    q: &mut Publisher,
    frame: Frame,
)
    requires
        old(q)@ == old(p)@,
        frame@ == session::frame_of(data),
        call_ensures(Publisher::take_report, (p, Report::MediaData(data), now), more),
        call_ensures(Publisher::take_frame, (q, frame), ()),
    ensures
        final(p)@ == final(q)@,
        final(p)@ == model::after_report(old(p)@, Report::MediaData(data), now),
{
}

} // verus!
