//! What callers may rely on, operation by operation.
//!
//! Most laws here are about calls: they suppose that an operation was called
//! with some arguments and came back with some result, and say in plain terms
//! what then holds of the two. The others say the same of the steps that
//! operations are made of, such as a drain of the session.
use vstd::prelude::*;

use crate::model::PublisherState;
use crate::session::Exchange;

pub mod boundary;
pub mod calls;
pub mod creation;
pub mod descriptions;
pub mod drains;
pub mod media;
pub mod negotiation;
pub mod network;
pub mod queues;
pub mod reports;
pub mod values;

verus! {

/// Whether `read` is `pre` after the clock was read, and `now` is what it read:
/// the nanoseconds, or the largest number where 64 bits do not hold them.
pub open spec fn reads_clock(pre: PublisherState, read: PublisherState, now: u64) -> bool {
    &&& read == (PublisherState { exchanges: read.exchanges, ..pre })
    &&& read.exchanges.len() == pre.exchanges.len() + 1
    &&& read.exchanges.drop_last() == pre.exchanges
    &&& read.exchanges.last() matches Exchange::Clock(reading)
    &&& now == reading || (reading > u64::MAX && now == u64::MAX)
}

/// One more reading of the clock is a reading of the clock.
pub(crate) proof fn clock_is_read(pre: PublisherState, reading: u128)
    ensures
        reads_clock(pre, pre.at(reading), crate::session::spec_nanos(reading)),
{
    assert(pre.at(reading).exchanges.drop_last() =~= pre.exchanges);
}

} // verus!
