//! Offers and answers.
use str0m::change::{SdpAnswer, SdpOffer};
use vstd::prelude::*;

use crate::codec::Codec;
use crate::description;
use crate::laws;
use crate::model;
use crate::model::PublisherState;
use crate::promises;
use crate::promises::{drains, reads_clock};
use crate::publisher::Publisher;
use crate::session;
use crate::session::{Exchange, TrackDirection, TrackKind, TrackView};

verus! {

/// Offers are made at the time that the clock reads.
pub proof fn offer_is_made(
    p: &mut Publisher,
    r: Result<String, String>,
    q: &mut Publisher,
    receiving: Result<String, String>,
)
    requires
        call_ensures(Publisher::create_offer, (p,), r),
        call_ensures(Publisher::create_receive_offer, (q,), receiving),
    ensures
        exists|read: PublisherState, now: u64| #[trigger]
            model::offered(read, final(p)@, now, r) && reads_clock(old(p)@, read, now),
        exists|read: PublisherState, now: u64| #[trigger]
            model::receive_offered(read, final(q)@, now, receiving) && reads_clock(
                old(q)@,
                read,
                now,
            ),
{
    let a = choose|reading: u128| #[trigger]
        model::offered(old(p)@.at(reading), final(p)@, session::spec_nanos(reading), r);
    promises::clock_is_read(old(p)@, a);
    let b = choose|reading: u128| #[trigger]
        model::receive_offered(
            old(q)@.at(reading),
            final(q)@,
            session::spec_nanos(reading),
            receiving,
        );
    promises::clock_is_read(old(q)@, b);
}

/// An offer to send asks for one line for each track that the publisher has,
/// audio before video, which only sends, in the stream `waga`. Its text is what
/// the session makes of that, given once the session was drained. The lines'
/// identities and the changes are kept for the answer. A second offer must wait
/// for that.
pub proof fn offer_has_a_line_for_each_track(
    pre: PublisherState,
    post: PublisherState,
    now: u64,
    r: Result<String, String>,
)
    requires
        model::offered(pre, post, now, r),
        pre.audio_codec is Some || pre.video_enabled,
    ensures
        pre.pending is Some ==> post == pre && (r matches Err(error) && error@
            == "an offer is already pending"@),
        pre.pending is None ==> {
            let n = pre.exchanges.len() as int;
            &&& post.exchanges.len() > n
            &&& post.exchanges.take(n) =~= pre.exchanges
            &&& post.exchanges[n] matches Exchange::Offer { first, second, offered }
            &&& first is Some <==> pre.audio_codec is Some
            &&& first matches Some(line) ==> line == (TrackView {
                kind: TrackKind::Audio,
                direction: TrackDirection::SendOnly,
                stream: Some("waga"@),
                track: Some("audio"@),
            })
            &&& second is Some <==> pre.video_enabled
            &&& second matches Some(line) ==> line == (TrackView {
                kind: TrackKind::Video,
                direction: TrackDirection::SendOnly,
                stream: Some("waga"@),
                track: Some("video"@),
            })
            &&& post.audio_mid == if pre.audio_codec is Some {
                offered.first
            } else {
                pre.audio_mid
            }
            &&& post.video_mid == if pre.video_enabled {
                offered.second
            } else {
                pre.video_mid
            }
            &&& pre.audio_codec is Some ==> post.audio_mid is Some
            &&& pre.video_enabled ==> post.video_mid is Some
            &&& offered.offer matches Some((sdp, pending))
            &&& post.pending == Some(pending)
            &&& r matches Ok(text) ==> text@ == sdp@
            &&& model::drained(
                    PublisherState {
                        exchanges: post.exchanges.take(n + 1),
                        audio_mid: post.audio_mid,
                        video_mid: post.video_mid,
                        pending: Some(pending),
                        ..pre
                    },
                    post,
                    now,
                    match r {
                        Ok(_) => Ok(()),
                        Err(error) => Err(error),
                    },
                )
        },
{
    if pre.pending is None {
        let n = pre.exchanges.len() as int;
        match post.exchanges[n] {
            Exchange::Offer { first, second, offered } => {
                match offered.offer {
                    Some((sdp, pending)) => {
                        let s = PublisherState {
                            audio_mid: if first is Some {
                                offered.first
                            } else {
                                pre.audio_mid
                            },
                            video_mid: if second is Some {
                                offered.second
                            } else {
                                pre.video_mid
                            },
                            pending: Some(pending),
                            ..pre.with(post.exchanges[n])
                        };
                        offer_leads_on(pre, s, post, now, sdp, r);
                    },
                    None => {},
                }
            },
            _ => {},
        }
    }
}

/// Without a track there is nothing to offer: no offer awaits an answer, and that
/// is the error.
pub proof fn offer_needs_a_track(
    pre: PublisherState,
    post: PublisherState,
    now: u64,
    r: Result<String, String>,
)
    requires
        model::offered(pre, post, now, r),
        pre.audio_codec is None,
        !pre.video_enabled,
        pre.pending is None,
    ensures
        r matches Err(error) && error@ == "offer contained no changes"@,
        post == (PublisherState { exchanges: post.exchanges, ..pre }),
        post.exchanges.len() == pre.exchanges.len() + 1,
        post.exchanges.drop_last() =~= pre.exchanges,
        post.exchanges.last() matches Exchange::Offer { first: None, second: None, .. },
{
    assert(post.exchanges.drop_last() =~= pre.exchanges);
}

/// What holds once an offer was made and the session drained.
proof fn offer_leads_on(
    pre: PublisherState,
    s: PublisherState,
    post: PublisherState,
    now: u64,
    text: String,
    r: Result<String, String>,
)
    requires
        model::drained_for(s, post, now, text, r),
        s == (PublisherState {
            exchanges: pre.exchanges.push(post.exchanges[pre.exchanges.len() as int]),
            audio_mid: s.audio_mid,
            video_mid: s.video_mid,
            pending: s.pending,
            ..pre
        }),
    ensures
        post.exchanges.len() > pre.exchanges.len(),
        post.exchanges.take(pre.exchanges.len() as int) == pre.exchanges,
        post.exchanges.take(pre.exchanges.len() as int + 1) == s.exchanges,
        post.audio_mid == s.audio_mid,
        post.video_mid == s.video_mid,
        post.pending == s.pending,
        model::drained(
            PublisherState {
                exchanges: post.exchanges.take(pre.exchanges.len() as int + 1),
                audio_mid: post.audio_mid,
                video_mid: post.video_mid,
                pending: s.pending,
                ..pre
            },
            post,
            now,
            match r {
                Ok(_) => Ok(()),
                Err(error) => Err(error),
            },
        ),
{
    let n = pre.exchanges.len() as int;
    let outcome: Result<(), String> = match r {
        Ok(_) => Ok(()),
        Err(error) => Err(error),
    };
    drains::drain_polls_to_the_end(s, post, now, outcome);
    drains::drain_leaves_the_rest_alone(s, post, now, outcome);
    assert forall|i: int| 0 <= i < n + 1 implies post.exchanges[i] == s.exchanges[i] by {}
    assert(post.exchanges.take(n + 1) =~= s.exchanges);
    assert forall|i: int| 0 <= i < n implies post.exchanges[i] == pre.exchanges[i] by {
        assert(post.exchanges[i] == s.exchanges[i]);
    }
    assert(post.exchanges.take(n) =~= pre.exchanges);
    let same = PublisherState {
        exchanges: post.exchanges.take(n + 1),
        audio_mid: post.audio_mid,
        video_mid: post.video_mid,
        pending: s.pending,
        ..pre
    };
    assert(same == s);
    assert(model::drained(same, post, now, outcome));
}

/// An offer to receive asks for a line of video and one of audio, which only
/// receive and belong to no stream, whatever tracks there are. The rest is as for
/// an offer to send.
pub proof fn receive_offer_has_both_lines(
    pre: PublisherState,
    post: PublisherState,
    now: u64,
    r: Result<String, String>,
)
    requires
        model::receive_offered(pre, post, now, r),
    ensures
        pre.pending is Some ==> post == pre && (r matches Err(error) && error@
            == "an offer is already pending"@),
        pre.pending is None ==> {
            let n = pre.exchanges.len() as int;
            &&& post.exchanges.len() > n
            &&& post.exchanges.take(n) =~= pre.exchanges
            &&& post.exchanges[n] matches Exchange::Offer { first, second, offered }
            &&& first == Some(
                TrackView {
                    kind: TrackKind::Video,
                    direction: TrackDirection::RecvOnly,
                    stream: None,
                    track: None,
                },
            )
            &&& second == Some(
                TrackView {
                    kind: TrackKind::Audio,
                    direction: TrackDirection::RecvOnly,
                    stream: None,
                    track: None,
                },
            )
            &&& post.video_mid == offered.first
            &&& post.audio_mid == offered.second
            &&& post.video_mid is Some
            &&& post.audio_mid is Some
            &&& offered.offer matches Some((sdp, pending))
            &&& post.pending == Some(pending)
            &&& r matches Ok(text) ==> text@ == sdp@
            &&& model::drained(
                    PublisherState {
                        exchanges: post.exchanges.take(n + 1),
                        audio_mid: post.audio_mid,
                        video_mid: post.video_mid,
                        pending: Some(pending),
                        ..pre
                    },
                    post,
                    now,
                    match r {
                        Ok(_) => Ok(()),
                        Err(error) => Err(error),
                    },
                )
        },
{
    if pre.pending is None {
        let n = pre.exchanges.len() as int;
        match post.exchanges[n] {
            Exchange::Offer { first, second, offered } => {
                match offered.offer {
                    Some((sdp, pending)) => {
                        let s = PublisherState {
                            video_mid: offered.first,
                            audio_mid: offered.second,
                            pending: Some(pending),
                            ..pre.with(post.exchanges[n])
                        };
                        offer_leads_on(pre, s, post, now, sdp, r);
                    },
                    None => {},
                }
            },
            _ => {},
        }
    }
}

/// An answer is taken at the time that the clock reads. A text is read as one of
/// the answers that str0m may read it as, or fails where there is none.
pub proof fn answer_is_taken(
    p: &mut Publisher,
    sdp: &str,
    r: Result<(), String>,
    q: &mut Publisher,
    parsed: Result<SdpAnswer, String>,
    other: Result<(), String>,
)
    requires
        call_ensures(Publisher::accept_answer, (p, sdp), r),
        call_ensures(Publisher::accept_parsed_answer, (q, parsed), other),
    ensures
        exists|read: PublisherState, now: u64, answer: Result<SdpAnswer, Seq<char>>| #[trigger]
            model::answered(read, final(p)@, answer, now, r) && reads_clock(old(p)@, read, now)
                && match answer {
                Ok(answer) => session::answers_read_from(sdp@).contains(answer),
                Err(_) => session::answers_read_from(sdp@).is_empty(),
            },
        exists|read: PublisherState, now: u64, answer: Result<SdpAnswer, Seq<char>>| #[trigger]
            model::answered(read, final(q)@, answer, now, other) && reads_clock(old(q)@, read, now)
                && match (parsed, answer) {
                (Ok(given), Ok(answer)) => answer == given,
                (Err(error), Err(text)) => text == error@,
                _ => false,
            },
{
    let a = choose|reading: u128| #[trigger]
        model::answer_read(
            old(p)@.at(reading),
            final(p)@,
            sdp@,
            session::spec_nanos(reading),
            r,
        );
    promises::clock_is_read(old(p)@, a);
    let b = choose|reading: u128| #[trigger]
        model::answered(
            old(q)@.at(reading),
            final(q)@,
            session::outcome(parsed),
            session::spec_nanos(reading),
            other,
        );
    promises::clock_is_read(old(q)@, b);
}

/// A remote offer is taken likewise.
pub proof fn remote_offer_is_taken(
    p: &mut Publisher,
    sdp: &str,
    r: Result<String, String>,
    q: &mut Publisher,
    parsed: Result<SdpOffer, String>,
    other: Result<String, String>,
)
    requires
        call_ensures(Publisher::accept_offer, (p, sdp), r),
        call_ensures(Publisher::accept_parsed_offer, (q, parsed), other),
    ensures
        exists|read: PublisherState, now: u64, offer: Result<SdpOffer, Seq<char>>| #[trigger]
            model::offer_accepted(read, final(p)@, offer, now, r) && reads_clock(
                old(p)@,
                read,
                now,
            ) && match offer {
                Ok(offer) => session::offers_read_from(sdp@).contains(offer),
                Err(_) => session::offers_read_from(sdp@).is_empty(),
            },
        exists|read: PublisherState, now: u64, offer: Result<SdpOffer, Seq<char>>| #[trigger]
            model::offer_accepted(read, final(q)@, offer, now, other) && reads_clock(
                old(q)@,
                read,
                now,
            ) && match (parsed, offer) {
                (Ok(given), Ok(offer)) => offer == given,
                (Err(error), Err(text)) => text == error@,
                _ => false,
            },
{
    let a = choose|reading: u128| #[trigger]
        model::offer_read(
            old(p)@.at(reading),
            final(p)@,
            sdp@,
            session::spec_nanos(reading),
            r,
        );
    promises::clock_is_read(old(p)@, a);
    let b = choose|reading: u128| #[trigger]
        model::offer_accepted(
            old(q)@.at(reading),
            final(q)@,
            session::outcome(parsed),
            session::spec_nanos(reading),
            other,
        );
    promises::clock_is_read(old(q)@, b);
}

/// A text that is no answer, and an answer that no offer awaits, change nothing.
/// Any other answer ends the wait of its offer. The reason of a failure is told
/// as it is, and with advice where AAC is to be sent.
pub proof fn answer_needs_an_offer(
    pre: PublisherState,
    post: PublisherState,
    parsed: Result<SdpAnswer, Seq<char>>,
    now: u64,
    r: Result<(), String>,
)
    requires
        model::answered(pre, post, parsed, now, r),
    ensures
        parsed matches Err(text) ==> post == pre && (r matches Err(error) && error@ == if pre.audio_codec
            == Some(Codec::Aac) {
            "Invalid AAC answer: "@ + text + ". Select Opus if this receiver does not support AAC."@
        } else {
            text
        }),
        parsed is Ok && pre.pending is None ==> post == pre && (r matches Err(error) && error@
            == "no offer is pending"@),
        parsed is Ok ==> post.pending is None,
        parsed matches Ok(answer) ==> (pre.pending is Some && description::fault(
            pre.descriptions,
            session::answer_text(answer),
        ) is Some ==> {
            let reason = description::fault(
                pre.descriptions,
                session::answer_text(answer),
            )->0;
            &&& post == (PublisherState { pending: None, ..pre })
            &&& r matches Err(error)
            &&& error@ == if pre.audio_codec == Some(Codec::Aac) {
                "AAC negotiation failed: "@ + reason
                    + ". Select Opus if this receiver does not support AAC."@
            } else {
                reason
            }
        }),
{
    if parsed is Ok {
        laws::answer_settles_offer(pre, post, parsed, now, r);
    }
}

/// Whether the session was told the time once for each frame that waited, with
/// success, and no later than needed.
pub open spec fn packed_all(pre: PublisherState, post: PublisherState, now: u64) -> bool {
    let n = pre.exchanges.len() as int;
    let latest = pre.backlog.latest;
    let at = if now < latest {
        latest
    } else {
        now
    };
    &&& post.exchanges.len() >= n + pre.backlog.waiting
    &&& forall|i: int|
        n <= i < n + pre.backlog.waiting ==> (#[trigger] post.exchanges[i] matches Exchange::Timeout {
            now: told,
            result: Some(Ok(_)),
        } && told == at)
}

/// Whether a frame that waits could not be packed, and why.
pub open spec fn not_packed(
    pre: PublisherState,
    post: PublisherState,
    now: u64,
    reason: Option<Seq<char>>,
) -> bool {
    let latest = pre.backlog.latest;
    &&& post == (PublisherState {
        exchanges: post.exchanges,
        backlog: post.backlog,
        ..pre
    })
    &&& post.backlog.described == pre.backlog.described
    &&& post.exchanges.take(pre.exchanges.len() as int) == pre.exchanges
    &&& pre.exchanges.len() < post.exchanges.len() <= pre.exchanges.len() + pre.backlog.waiting
    &&& post.exchanges.last() matches Exchange::Timeout { now: told, result }
    &&& told == if now < latest {
        latest
    } else {
        now
    }
    &&& match result {
        Some(Err(error)) => reason == Some(error@),
        Some(Ok(_)) => false,
        None => reason == Some("time is out of range"@),
    }
}

/// An answer with which nothing is wrong is handed to the session, with the offer
/// that awaited it, once every frame that waits was packed. Only if one cannot be
/// packed does it not get there, and that is the error.
pub proof fn faultless_answer_reaches_the_session(
    pre: PublisherState,
    post: PublisherState,
    answer: SdpAnswer,
    now: u64,
    r: Result<(), String>,
)
    requires
        model::answered(pre, post, Ok(answer), now, r),
        pre.pending is Some,
        description::fault(pre.descriptions, session::answer_text(answer)) is None,
        pre.backlog.waiting == 0 || pre.backlog.described == pre.descriptions.len(),
    ensures
        ({
            let k = pre.exchanges.len() + pre.backlog.waiting;
            ||| {
                &&& packed_all(pre, post, now)
                &&& post.exchanges.len() > k
                &&& post.exchanges[k] matches Exchange::AcceptAnswer {
                    pending,
                    answer: given,
                    result,
                }
                &&& pending == pre.pending->0
                &&& given == answer
                &&& result matches Err(reason) ==> {
                    &&& post.exchanges.len() == k + 1
                    &&& post == (PublisherState {
                        exchanges: post.exchanges,
                        descriptions: description::kept(
                            pre.descriptions,
                            session::answer_text(answer),
                            false,
                        ),
                        backlog: post.backlog,
                        pending: None,
                        ..pre
                    })
                    &&& r matches Err(error)
                    &&& error@ == if pre.audio_codec == Some(Codec::Aac) {
                        "AAC negotiation failed: "@ + reason@
                            + ". Select Opus if this receiver does not support AAC."@
                    } else {
                        reason@
                    }
                }
                &&& result is Ok && pre.audio_codec != Some(Codec::Aac) ==> model::drained(
                    PublisherState {
                        exchanges: post.exchanges.take(k + 1),
                        descriptions: pre.descriptions.push(session::answer_text(answer)),
                        backlog: post.backlog,
                        pending: None,
                        ..pre
                    },
                    post,
                    now,
                    r,
                )
                &&& post.backlog.waiting == 0
            }
            ||| not_packed(
                PublisherState { pending: None, ..pre },
                post,
                now,
                match r {
                    Ok(_) => None,
                    Err(error) => Some(error@),
                },
            )
        }),
        pre.backlog.waiting == 0 ==> (
        post.exchanges[pre.exchanges.len() as int] matches Exchange::AcceptAnswer {
            answer: given,
            ..
        } && given == answer),
{
    let taken = PublisherState { pending: None, ..pre };
    let pending = pre.pending->0;
    if exists|mid: PublisherState| #[trigger]
        model::settled(taken, mid, now) && model::answer_taken(mid, post, pending, answer, now, r) {
        let mid = choose|mid: PublisherState| #[trigger]
            model::settled(taken, mid, now) && model::answer_taken(
                mid,
                post,
                pending,
                answer,
                now,
                r,
            );
        settled_packs_all(taken, mid, now);
        let m = mid.exchanges.len() as int;
        match post.exchanges[m] {
            Exchange::AcceptAnswer { pending: given, answer: accepted, result } => {
                let s = model::answer_handed_over(mid, given, accepted, result);
                let all = pre.descriptions.push(session::answer_text(answer));
                if result is Ok {
                    let (polls, fewer) = (
                        post.exchanges.skip(m + 1),
                        post.exchanges.drop_last().skip(m + 1),
                    );
                    laws::polls_keep_negotiation(s, polls, now);
                    laws::polls_keep_negotiation(s, fewer, now);
                    laws::polls_are_recorded(s, polls, now);
                    laws::polls_are_recorded(s, fewer, now);
                    assert forall|i: int| 0 <= i < m + 1 implies #[trigger] post.exchanges[i]
                        == s.exchanges[i] by {
                        if post.exchanges == s.exchanges + polls {
                            assert((s.exchanges + polls)[i] == s.exchanges[i]);
                        } else {
                            assert((s.exchanges + fewer)[i] == s.exchanges[i]);
                            assert(post.exchanges.drop_last()[i] == post.exchanges[i]);
                        }
                    }
                    assert(post.exchanges.take(m + 1) =~= s.exchanges);
                    let same = PublisherState {
                        exchanges: post.exchanges.take(m + 1),
                        descriptions: all,
                        backlog: post.backlog,
                        pending: None,
                        ..pre
                    };
                    assert(same == s);
                }
                assert forall|i: int| 0 <= i < m implies #[trigger] post.exchanges[i]
                    == mid.exchanges[i] by {
                    assert(s.exchanges[i] == mid.exchanges[i]);
                }
            },
            _ => {},
        }
    } else {
        let text = choose|text: Seq<char>| #[trigger]
            model::unsettled(taken, post, now, text) && model::fails(r, text);
        unsettled_did_not_pack(taken, post, now, text);
    }
}

/// Failing to have the frames that wait packed is a time that the session
/// refuses.
proof fn unsettled_did_not_pack(
    pre: PublisherState,
    post: PublisherState,
    now: u64,
    text: Seq<char>,
)
    requires
        model::unsettled(pre, post, now, text),
        pre.current(),
    ensures
        not_packed(pre, post, now, Some(text)),
{
    let inputs = post.exchanges.skip(pre.exchanges.len() as int);
    assert(inputs.last() == post.exchanges.last());
    assert(post.exchanges.take(pre.exchanges.len() as int) =~= pre.exchanges);
}

/// Having the frames that wait packed is telling the session the time for each.
proof fn settled_packs_all(pre: PublisherState, post: PublisherState, now: u64)
    requires
        model::settled(pre, post, now),
    ensures
        packed_all(pre, post, now),
        post.exchanges.len() == pre.exchanges.len() + pre.backlog.waiting,
        post.exchanges.take(pre.exchanges.len() as int) == pre.exchanges,
        post.backlog.waiting == 0,
        post.backlog.described == pre.backlog.described,
        post == (PublisherState {
            exchanges: post.exchanges,
            backlog: post.backlog,
            ..pre
        }),
{
    let n = pre.exchanges.len() as int;
    let inputs = post.exchanges.skip(n);
    assert(post.exchanges.take(n) =~= pre.exchanges);
    assert forall|i: int| n <= i < n + pre.backlog.waiting implies (
    #[trigger] post.exchanges[i] matches Exchange::Timeout { now: told, result: Some(Ok(_)) }
        && told == model::packing_time(pre, now)) by {
        assert(model::packs(inputs[i - n], model::packing_time(pre, now)));
    }
}

/// Once the session took an answer that AAC is to be sent under, and was drained,
/// the audio line is asked for its payload types: the answer succeeds just if one
/// of them is AAC's. A drain that fails is the error.
pub proof fn aac_answer_must_accept_aac(
    pre: PublisherState,
    post: PublisherState,
    answer: SdpAnswer,
    now: u64,
    r: Result<(), String>,
)
    requires
        model::answered(pre, post, Ok(answer), now, r),
        pre.pending is Some,
        description::fault(pre.descriptions, session::answer_text(answer)) is None,
        pre.audio_codec == Some(Codec::Aac),
        pre.audio_mid is Some,
        post.exchanges.len() > pre.exchanges.len() + pre.backlog.waiting,
        post.exchanges[pre.exchanges.len() + pre.backlog.waiting] matches Exchange::AcceptAnswer {
            result: Ok(_),
            ..
        },
    ensures
        match post.exchanges.last() {
            Exchange::Poll(Err(error)) => r matches Err(told) && told@ == error@,
            Exchange::Poll(Ok(report)) => !(report is Timeout) && r is Err,
            Exchange::Payloads { mid, result } => {
                let k = pre.exchanges.len() + pre.backlog.waiting;
                let accepted = result is Some && exists|i: int|
                    0 <= i < result->0@.len() && (#[trigger] result->0@[i]).codec@
                        == "MPEG4-GENERIC"@;
                &&& mid == pre.audio_mid->0
                &&& model::drained(
                    PublisherState {
                        exchanges: post.exchanges.take(k + 1),
                        descriptions: pre.descriptions.push(session::answer_text(answer)),
                        backlog: post.backlog,
                        pending: None,
                        ..pre
                    },
                    PublisherState { exchanges: post.exchanges.drop_last(), ..post },
                    now,
                    Ok(()),
                )
                &&& accepted ==> r is Ok
                &&& !accepted ==> (r matches Err(told) && told@
                    == "The WHIP receiver does not accept AAC. Select Opus for this receiver."@)
            },
            _ => false,
        },
{
    let taken = PublisherState { pending: None, ..pre };
    let pending = pre.pending->0;
    let k = pre.exchanges.len() + pre.backlog.waiting;
    if exists|mid: PublisherState| #[trigger]
        model::settled(taken, mid, now) && model::answer_taken(mid, post, pending, answer, now, r) {
        let mid = choose|mid: PublisherState| #[trigger]
            model::settled(taken, mid, now) && model::answer_taken(
                mid,
                post,
                pending,
                answer,
                now,
                r,
            );
        settled_packs_all(taken, mid, now);
        match post.exchanges[k] {
            Exchange::AcceptAnswer { pending: given, answer: accepted, result } => {
                let s = model::answer_handed_over(mid, given, accepted, result);
                if r is Err && model::drained(s, post, now, r) {
                    drains::drain_polls_to_the_end(s, post, now, r);
                } else {
                    let drained = PublisherState { exchanges: post.exchanges.drop_last(), ..post };
                    assert(drained == model::before_last(post));
                    drains::drain_polls_to_the_end(s, drained, now, Ok(()));
                    drains::drain_leaves_the_rest_alone(s, drained, now, Ok(()));
                    assert forall|i: int| 0 <= i < k + 1 implies #[trigger] post.exchanges[i]
                        == s.exchanges[i] by {
                        assert(drained.exchanges[i] == s.exchanges[i]);
                    }
                    assert(post.exchanges.take(k + 1) =~= s.exchanges);
                    let same = PublisherState {
                        exchanges: post.exchanges.take(k + 1),
                        descriptions: pre.descriptions.push(session::answer_text(answer)),
                        backlog: post.backlog,
                        pending: None,
                        ..pre
                    };
                    assert(same == s);
                }
            },
            _ => {},
        }
        match post.exchanges.last() {
            Exchange::Payloads { result: Some(listed), .. } => {
                if model::payload_for(listed@, Codec::Aac) is Some {
                    payload_stands_for_the_codec(listed@, Codec::Aac);
                } else {
                    no_payload_stands_for_the_codec(listed@, Codec::Aac);
                }
            },
            _ => {},
        }
    } else {
        let text = choose|text: Seq<char>| #[trigger]
            model::unsettled(taken, post, now, text) && model::fails(r, text);
        if taken.current() {
            unsettled_did_not_pack(taken, post, now, text);
        }
    }
}

/// Without a payload type of a codec nothing stands under the codec's name.
proof fn no_payload_stands_for_the_codec(payloads: Seq<session::Payload>, codec: Codec)
    requires
        model::payload_for(payloads, codec) is None,
    ensures
        forall|i: int|
            0 <= i < payloads.len() ==> (#[trigger] payloads[i]).codec@ != codec.spec_name(),
    decreases payloads.len(),
{
    if payloads.len() > 0 {
        no_payload_stands_for_the_codec(payloads.drop_first(), codec);
        assert forall|i: int| 0 <= i < payloads.len() implies (#[trigger] payloads[i]).codec@
            != codec.spec_name() by {
            if i > 0 {
                assert(payloads.drop_first()[i - 1] == payloads[i]);
            }
        }
    }
}

/// A payload type of a codec stands under the codec's name.
proof fn payload_stands_for_the_codec(payloads: Seq<session::Payload>, codec: Codec)
    requires
        model::payload_for(payloads, codec) is Some,
    ensures
        exists|i: int|
            0 <= i < payloads.len() && (#[trigger] payloads[i]).codec@ == codec.spec_name(),
    decreases payloads.len(),
{
    if payloads.len() > 0 && payloads[0].codec@ != codec.spec_name() {
        payload_stands_for_the_codec(payloads.drop_first(), codec);
        let i = choose|i: int|
            0 <= i < payloads.drop_first().len() && (#[trigger] payloads.drop_first()[i]).codec@
                == codec.spec_name();
        assert(payloads[i + 1].codec@ == codec.spec_name());
    }
}

/// A text that is no offer changes nothing, and its reason is the error. So does
/// an offer with which something is wrong. Any other is handed to the session,
/// once every frame that waits was packed, and the session's answer is given once
/// the session was drained; its refusal is the error.
pub proof fn remote_offer_is_answered(
    pre: PublisherState,
    post: PublisherState,
    parsed: Result<SdpOffer, Seq<char>>,
    now: u64,
    r: Result<String, String>,
)
    requires
        model::offer_accepted(pre, post, parsed, now, r),
        pre.backlog.waiting == 0 || pre.backlog.described == pre.descriptions.len(),
    ensures
        match parsed {
            Err(text) => post == pre && (r matches Err(error) && error@ == text),
            Ok(offer) => match description::fault(pre.descriptions, session::offer_text(offer)) {
                Some(text) => post == pre && (r matches Err(error) && error@ == text),
                None => {
                    let k = pre.exchanges.len() + pre.backlog.waiting;
                    ||| {
                        &&& packed_all(pre, post, now)
                        &&& post.exchanges.len() > k
                        &&& post.exchanges[k] matches Exchange::AcceptOffer { offer: given, result }
                        &&& given == offer
                        &&& post.backlog.waiting == 0
                        &&& result matches Err(reason) ==> {
                            &&& post.exchanges.len() == k + 1
                            &&& post == (PublisherState {
                                exchanges: post.exchanges,
                                descriptions: description::kept(
                                    pre.descriptions,
                                    session::offer_text(offer),
                                    false,
                                ),
                                backlog: post.backlog,
                                ..pre
                            })
                            &&& r matches Err(error)
                            &&& error@ == reason@
                        }
                        &&& result matches Ok(answer) ==> {
                            &&& r matches Ok(text) ==> text@ == answer@
                            &&& model::drained(
                                PublisherState {
                                    exchanges: post.exchanges.take(k + 1),
                                    descriptions: pre.descriptions.push(
                                        session::offer_text(offer),
                                    ),
                                    backlog: post.backlog,
                                    ..pre
                                },
                                post,
                                now,
                                match r {
                                    Ok(_) => Ok(()),
                                    Err(error) => Err(error),
                                },
                            )
                        }
                    }
                    ||| not_packed(
                        pre,
                        post,
                        now,
                        match r {
                            Ok(_) => None,
                            Err(error) => Some(error@),
                        },
                    )
                },
            },
        },
{
    if let Ok(offer) = parsed {
        if exists|mid: PublisherState| #[trigger]
            model::settled(pre, mid, now) && model::offer_taken(mid, post, offer, now, r) {
            let mid = choose|mid: PublisherState| #[trigger]
                model::settled(pre, mid, now) && model::offer_taken(mid, post, offer, now, r);
            settled_packs_all(pre, mid, now);
            let m = mid.exchanges.len() as int;
            match post.exchanges[m] {
                Exchange::AcceptOffer { offer: given, result } => {
                    let s = model::offer_handed_over(mid, given, result);
                    if result is Ok {
                        let polls = post.exchanges.skip(m + 1);
                        laws::polls_keep_negotiation(s, polls, now);
                        laws::polls_are_recorded(s, polls, now);
                        assert forall|i: int| 0 <= i < m + 1 implies #[trigger] post.exchanges[i]
                            == s.exchanges[i] by {
                            assert((s.exchanges + polls)[i] == s.exchanges[i]);
                        }
                        assert(post.exchanges.take(m + 1) =~= s.exchanges);
                        let same = PublisherState {
                            exchanges: post.exchanges.take(m + 1),
                            descriptions: pre.descriptions.push(session::offer_text(offer)),
                            backlog: post.backlog,
                            ..pre
                        };
                        assert(same == s);
                    }
                    assert forall|i: int| 0 <= i < m implies #[trigger] post.exchanges[i]
                        == mid.exchanges[i] by {
                        assert(s.exchanges[i] == mid.exchanges[i]);
                    }
                },
                _ => {},
            }
        } else if description::fault(pre.descriptions, session::offer_text(offer)) is None {
            let text = choose|text: Seq<char>| #[trigger]
                model::unsettled(pre, post, now, text) && model::fails(r, text);
            unsettled_did_not_pack(pre, post, now, text);
        }
    }
}

} // verus!
