//! Network interfaces, datagrams that arrive, and the passing of time.
use str0m::Candidate;
use vstd::prelude::*;

use crate::model;
use crate::model::{PublisherState, Transmit};
use crate::promises;
use crate::promises::{drains, reads_clock};
use crate::publisher::Publisher;
use crate::session;
use crate::session::{Backlog, CandidateKind, Exchange};

verus! {

/// A datagram is taken at the time that is given or that the clock reads.
pub proof fn datagram_is_taken(
    p: &mut Publisher,
    source: &str,
    destination: &str,
    contents: &[u8],
    now: u64,
    r: Result<(), String>,
    q: &mut Publisher,
    by_clock: Result<(), String>,
)
    requires
        call_ensures(Publisher::receive_at, (p, source, destination, contents, now), r),
        call_ensures(Publisher::receive, (q, source, destination, contents), by_clock),
    ensures
        model::received(old(p)@, final(p)@, source@, destination@, contents@, now, r),
        exists|read: PublisherState, at: u64| #[trigger]
            model::received(
                read,
                final(q)@,
                source@,
                destination@,
                contents@,
                at,
                by_clock,
            ) && reads_clock(old(q)@, read, at),
{
    let reading = choose|reading: u128| #[trigger]
        model::received(
            old(q)@.at(reading),
            final(q)@,
            source@,
            destination@,
            contents@,
            session::spec_nanos(reading),
            by_clock,
        );
    promises::clock_is_read(old(q)@, reading);
}

/// Every datagram of a protocol that the session speaks is handed to it, however
/// long it is, with its time, its addresses and all its bytes, before anything
/// else is done with the session.
pub proof fn recognised_datagram_reaches_the_session(
    p: &mut Publisher,
    source: &str,
    destination: &str,
    contents: &[u8],
    now: u64,
    r: Result<(), String>,
)
    requires
        call_ensures(Publisher::receive_at, (p, source, destination, contents, now), r),
        session::recognised(source@, destination@, contents@),
        old(p)@.backlog.waiting == 0 || old(p)@.backlog.described == old(p)@.descriptions.len(),
    ensures
        final(p)@.exchanges.len() > old(p)@.exchanges.len(),
        final(p)@.exchanges.take(old(p)@.exchanges.len() as int) =~= old(p)@.exchanges,
        final(p)@.exchanges[old(p)@.exchanges.len() as int] matches Exchange::Receive {
            now: at,
            source: from,
            destination: to,
            contents: data,
            ..
        } && at == now && from == source@ && to == destination@ && data == contents@,
{
    received_datagram(old(p)@, final(p)@, source@, destination@, contents@, now, r);
}

/// A datagram that the session does not recognise changes nothing, and is no
/// error. One that it recognises is handed to it, and what it then has to report
/// is collected, unless it refuses the datagram: that is the error. As long as a
/// frame waits that was written under an earlier description, no datagram is
/// taken.
pub proof fn received_datagram(
    pre: PublisherState,
    post: PublisherState,
    source: Seq<char>,
    destination: Seq<char>,
    contents: Seq<u8>,
    now: u64,
    r: Result<(), String>,
)
    requires
        model::received(pre, post, source, destination, contents, now, r),
    ensures
        ({
            let current = pre.backlog.waiting == 0 || pre.backlog.described == pre.descriptions.len();
            let n = pre.exchanges.len() as int;
            &&& !current && pre.descriptions.len() <= usize::MAX ==> post == pre && (r matches Err(
                error,
            ) && error@ == "a frame waits for a payload type that may be gone"@)
            &&& current && !session::recognised(source, destination, contents) ==> post == pre && r is Ok
            &&& current && session::recognised(source, destination, contents) ==> {
                &&& post.exchanges.len() > n
                &&& post.exchanges.take(n) =~= pre.exchanges
                &&& post.exchanges[n] matches Exchange::Receive {
                    now: at,
                    source: from,
                    destination: to,
                    contents: data,
                    result,
                }
                &&& at == now
                &&& from == source
                &&& to == destination
                &&& data == contents
                &&& exists|given: PublisherState|
                    #![trigger given.exchanges.push(post.exchanges[n])]
                    {
                        &&& given == (PublisherState {
                            exchanges: pre.exchanges.push(post.exchanges[n]),
                            backlog: given.backlog,
                            ..pre
                        })
                        &&& given.backlog == session::after_input(pre.backlog, now, result)
                        &&& match result {
                            Some(Ok(_)) => model::drained(given, post, now, r),
                            Some(Err(error)) => post == given && (r matches Err(told) && told@
                                == error@),
                            None => post == given && (r matches Err(told) && told@
                                == "time is out of range"@),
                        }
                    }
            }
        }),
{
    let n = pre.exchanges.len() as int;
    let current = pre.backlog.waiting == 0 || pre.backlog.described == pre.descriptions.len();
    if current && session::recognised(source, destination, contents) {
        match post.exchanges[n] {
            Exchange::Receive { now: at, source: from, destination: to, contents: data, result } => {
                let given = pre.with_input(post.exchanges[n], at, result);
                let again = given.exchanges.push(post.exchanges[n]);
                if model::timely(result) is Ok {
                    drains::drain_polls_to_the_end(given, post, now, r);
                    assert forall|i: int| 0 <= i < n implies post.exchanges[i] == pre.exchanges[i] by {
                        assert(post.exchanges[i] == given.exchanges[i]);
                    }
                }
            },
            _ => {},
        }
    }
}

/// The session is told the time that is given or that the clock reads.
pub proof fn time_is_told(
    p: &mut Publisher,
    now: u64,
    r: Result<(), String>,
    q: &mut Publisher,
    by_clock: Result<(), String>,
)
    requires
        call_ensures(Publisher::handle_timeout_at, (p, now), r),
        call_ensures(Publisher::handle_timeout, (q,), by_clock),
    ensures
        model::timed_out(old(p)@, final(p)@, now, r),
        exists|read: PublisherState, at: u64| #[trigger]
            model::timed_out(read, final(q)@, at, by_clock) && reads_clock(old(q)@, read, at),
{
    let reading = choose|reading: u128| #[trigger]
        model::timed_out(old(q)@.at(reading), final(q)@, session::spec_nanos(reading), by_clock);
    promises::clock_is_read(old(q)@, reading);
}

/// Whenever the publisher is told the time, so is the session, and what it then
/// has to report is collected, unless it refuses: that is the error. As long as
/// a frame waits that was written under an earlier description, no time is told.
pub proof fn told_time_reaches_the_session(
    pre: PublisherState,
    post: PublisherState,
    now: u64,
    r: Result<(), String>,
)
    requires
        model::timed_out(pre, post, now, r),
    ensures
        ({
            let current = pre.backlog.waiting == 0 || pre.backlog.described == pre.descriptions.len();
            let n = pre.exchanges.len() as int;
            &&& !current && pre.descriptions.len() <= usize::MAX ==> post == pre && (r matches Err(
                error,
            ) && error@ == "a frame waits for a payload type that may be gone"@)
            &&& current ==> {
                &&& post.exchanges.len() > n
                &&& post.exchanges.take(n) =~= pre.exchanges
                &&& post.exchanges[n] matches Exchange::Timeout { now: at, result }
                &&& at == now
                &&& exists|given: PublisherState|
                    #![trigger given.exchanges.push(post.exchanges[n])]
                    {
                        &&& given == (PublisherState {
                            exchanges: pre.exchanges.push(post.exchanges[n]),
                            backlog: given.backlog,
                            ..pre
                        })
                        &&& given.backlog == session::after_input(pre.backlog, now, result)
                        &&& match result {
                            Some(Ok(_)) => model::drained(given, post, now, r),
                            Some(Err(error)) => post == given && (r matches Err(told) && told@
                                == error@),
                            None => post == given && (r matches Err(told) && told@
                                == "time is out of range"@),
                        }
                    }
            }
        }),
{
    let n = pre.exchanges.len() as int;
    let current = pre.backlog.waiting == 0 || pre.backlog.described == pre.descriptions.len();
    if current {
        match post.exchanges[n] {
            Exchange::Timeout { now: at, result } => {
                let given = pre.with_input(post.exchanges[n], at, result);
                let again = given.exchanges.push(post.exchanges[n]);
                if model::timely(result) is Ok {
                    drains::drain_polls_to_the_end(given, post, now, r);
                    assert forall|i: int| 0 <= i < n implies post.exchanges[i] == pre.exchanges[i] by {
                        assert(post.exchanges[i] == given.exchanges[i]);
                    }
                }
            },
            _ => {},
        }
    }
}

/// Each success at a time that does not lie back packs one frame that waits, a
/// failure packs none, and the latest time is kept.
pub proof fn input_packs_one_frame(
    backlog: Backlog,
    now: u64,
    result: Option<Result<(), String>>,
)
    ensures
        ({
            let after = session::after_input(backlog, now, result);
            &&& after.described == backlog.described
            &&& result is None ==> after == backlog
            &&& result is Some ==> after.latest == if now < backlog.latest {
                backlog.latest
            } else {
                now
            }
            &&& after.waiting == if backlog.waiting > 0 && now >= backlog.latest && (
            result matches Some(Ok(_))) {
                backlog.waiting - 1
            } else {
                backlog.waiting as int
            }
        }),
{
}

/// A host candidate, a server-reflexive one and any other are added alike: the
/// first two are what str0m makes of the addresses, and stand under the address
/// of the local socket.
pub proof fn candidate_is_added(
    p: &mut Publisher,
    address: &str,
    r: Result<(), String>,
    q: &mut Publisher,
    seen: &str,
    base: &str,
    reflexive: Result<(), String>,
    s: &mut Publisher,
    made: Result<Candidate, String>,
    other: Result<(), String>,
)
    requires
        call_ensures(Publisher::add_local_candidate, (p, address), r),
        call_ensures(Publisher::add_server_reflexive_candidate, (q, seen, base), reflexive),
        call_ensures(Publisher::add_candidate, (s, base, made), other),
    ensures
        exists|read: PublisherState, now: u64| #[trigger]
            model::candidate_added(
                read,
                final(p)@,
                address@,
                session::host_candidate_of(address@),
                now,
                r,
            ) && reads_clock(old(p)@, read, now),
        exists|read: PublisherState, now: u64| #[trigger]
            model::candidate_added(
                read,
                final(q)@,
                base@,
                session::reflexive_candidate_of(seen@, base@),
                now,
                reflexive,
            ) && reads_clock(old(q)@, read, now),
        exists|read: PublisherState, now: u64, given: Result<Candidate, Seq<char>>| #[trigger]
            model::candidate_added(read, final(s)@, base@, given, now, other) && reads_clock(
                old(s)@,
                read,
                now,
            ) && match (made, given) {
                (Ok(candidate), Ok(same)) => same == candidate,
                (Err(error), Err(text)) => text == error@,
                _ => false,
            },
{
    let a = choose|reading: u128| #[trigger]
        model::candidate_added(
            old(p)@.at(reading),
            final(p)@,
            address@,
            session::host_candidate_of(address@),
            session::spec_nanos(reading),
            r,
        );
    promises::clock_is_read(old(p)@, a);
    let b = choose|reading: u128| #[trigger]
        model::candidate_added(
            old(q)@.at(reading),
            final(q)@,
            base@,
            session::reflexive_candidate_of(seen@, base@),
            session::spec_nanos(reading),
            reflexive,
        );
    promises::clock_is_read(old(q)@, b);
    let c = choose|reading: u128| #[trigger]
        model::candidate_added(
            old(s)@.at(reading),
            final(s)@,
            base@,
            session::outcome(made),
            session::spec_nanos(reading),
            other,
        );
    promises::clock_is_read(old(s)@, c);
}

/// A candidate that could not be made is the error. A candidate that is neither
/// a host's nor server-reflexive is refused, and so is any once 16384 were
/// taken. Every other one is handed to the session just as it was made, is kept
/// under its interface's address if the session takes it, behind those before,
/// and what the session then has to report is collected.
pub proof fn added_candidate_reaches_the_session(
    pre: PublisherState,
    post: PublisherState,
    base: Seq<char>,
    made: Result<Candidate, Seq<char>>,
    now: u64,
    r: Result<(), String>,
)
    requires
        model::candidate_added(pre, post, base, made, now, r),
    ensures
        match made {
            Err(text) => post == pre && (r matches Err(error) && error@ == text),
            Ok(candidate) => {
                let kind = session::kind_of(candidate);
                let n = pre.exchanges.len() as int;
                if kind != CandidateKind::Host && kind != CandidateKind::ServerReflexive {
                    post == pre && (r matches Err(error) && error@
                        == "only host and server-reflexive candidates are local"@)
                } else if pre.additions >= 16_384 {
                    post == pre && (r matches Err(error) && error@ == "too many local candidates"@)
                } else {
                    &&& post.exchanges.len() > n
                    &&& post.exchanges.take(n) =~= pre.exchanges
                    &&& post.exchanges[n] matches Exchange::AddCandidate {
                        candidate: given,
                        accepted,
                    }
                    &&& given == candidate
                    &&& accepted matches Some(taken) ==> model::drained(
                        PublisherState {
                            exchanges: pre.exchanges.push(post.exchanges[n]),
                            candidates: pre.candidates.push((base, taken)),
                            additions: (pre.additions + 1) as u64,
                            ..pre
                        },
                        post,
                        now,
                        r,
                    )
                    &&& accepted is None ==> model::drained(
                        PublisherState {
                            exchanges: pre.exchanges.push(post.exchanges[n]),
                            ..pre
                        },
                        post,
                        now,
                        r,
                    )
                }
            },
        },
{
    if let Ok(candidate) = made {
        if model::candidate_fault(pre, candidate) is None {
            let n = pre.exchanges.len() as int;
            match post.exchanges[n] {
                Exchange::AddCandidate { candidate: given, accepted } => {
                    let kept = model::candidate_kept(pre, base, given, accepted);
                    drains::drain_polls_to_the_end(kept, post, now, r);
                    assert forall|i: int| 0 <= i < n implies post.exchanges[i] == pre.exchanges[i] by {
                        assert(post.exchanges[i] == kept.exchanges[i]);
                    }
                },
                _ => {},
            }
        }
    }
}

/// Withdrawing an interface tells the session that each of its candidates is
/// gone, in order and no other's, forgets just those, and drops just the
/// datagrams that were to leave from it. What the session then has to report is
/// collected.
pub proof fn withdrawal_concerns_one_interface(
    p: &mut Publisher,
    base: &str,
    r: Result<(), String>,
)
    requires
        call_ensures(Publisher::remove_local_candidate, (p, base), r),
    ensures
        exists|read: PublisherState, now: u64| #[trigger]
            model::interface_removed(read, final(p)@, base@, now, r) && reads_clock(
                old(p)@,
                read,
                now,
            ),
{
    let reading = choose|reading: u128| #[trigger]
        model::interface_removed(
            old(p)@.at(reading),
            final(p)@,
            base@,
            session::spec_nanos(reading),
            r,
        );
    promises::clock_is_read(old(p)@, reading);
}

/// The candidates of an interface are those under its address, and those beside
/// it the others.
proof fn candidates_are_sorted_out(candidates: Seq<(Seq<char>, Candidate)>, base: Seq<char>)
    ensures
        model::candidates_of(candidates, base) == candidates.filter(
            |c: (Seq<char>, Candidate)| c.0 == base,
        ),
        model::candidates_beside(candidates, base) == candidates.filter(
            |c: (Seq<char>, Candidate)| c.0 != base,
        ),
    decreases candidates.len(),
{
    reveal(Seq::filter);
    if candidates.len() > 0 {
        candidates_are_sorted_out(candidates.drop_last(), base);
    }
}

/// The datagrams beside an address are those that do not leave from it.
proof fn datagrams_are_sorted_out(output: Seq<Transmit>, base: Seq<char>)
    ensures
        model::output_beside(output, base) == output.filter(|t: Transmit| t.source@ != base),
    decreases output.len(),
{
    reveal(Seq::filter);
    if output.len() > 0 {
        datagrams_are_sorted_out(output.drop_last(), base);
    }
}

/// What a withdrawal does, in full.
pub proof fn withdrawn_interface_is_gone(
    pre: PublisherState,
    post: PublisherState,
    base: Seq<char>,
    now: u64,
    r: Result<(), String>,
)
    requires
        model::interface_removed(pre, post, base, now, r),
    ensures
        ({
            let n = pre.exchanges.len() as int;
            let gone = pre.candidates.filter(|c: (Seq<char>, Candidate)| c.0 == base);
            &&& post.exchanges.len() > n + gone.len()
            &&& post.exchanges.take(n) =~= pre.exchanges
            &&& forall|i: int|
                0 <= i < gone.len() ==> (#[trigger] post.exchanges[n + i] matches Exchange::InvalidateCandidate {
                    candidate,
                    ..
                } && candidate == gone[i].1)
            &&& model::drained(
                PublisherState {
                    exchanges: post.exchanges.take(n + gone.len()),
                    candidates: pre.candidates.filter(
                        |c: (Seq<char>, Candidate)| c.0 != base,
                    ),
                    output: pre.output.filter(|t: Transmit| t.source@ != base),
                    ..pre
                },
                post,
                now,
                r,
            )
        }),
{
    let n = pre.exchanges.len() as int;
    let gone = model::candidates_of(pre.candidates, base);
    let invalidations = post.exchanges.subrange(n, n + gone.len());
    let s = PublisherState {
        exchanges: pre.exchanges + invalidations,
        candidates: model::candidates_beside(pre.candidates, base),
        output: model::output_beside(pre.output, base),
        ..pre
    };
    drains::drain_polls_to_the_end(s, post, now, r);
    assert(post.exchanges.take(n + gone.len()) =~= s.exchanges) by {
        assert forall|i: int| 0 <= i < n + gone.len() implies post.exchanges[i] == s.exchanges[i] by {}
    }
    assert(post.exchanges.take(n) =~= pre.exchanges) by {
        assert forall|i: int| 0 <= i < n implies post.exchanges[i] == pre.exchanges[i] by {
            assert(post.exchanges[i] == s.exchanges[i]);
        }
    }
    candidates_are_sorted_out(pre.candidates, base);
    datagrams_are_sorted_out(pre.output, base);
    let left = PublisherState {
        exchanges: post.exchanges.take(n + gone.len()),
        candidates: pre.candidates.filter(|c: (Seq<char>, Candidate)| c.0 != base),
        output: pre.output.filter(|t: Transmit| t.source@ != base),
        ..pre
    };
    assert(left == s);
    assert forall|i: int| 0 <= i < gone.len() implies (
    #[trigger] post.exchanges[n + i] matches Exchange::InvalidateCandidate { candidate, .. }
        && candidate == gone[i].1) by {
        assert(invalidations[i] == post.exchanges[n + i]);
    }
}

} // verus!
