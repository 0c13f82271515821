//! The core of a WebRTC publisher and receiver.
//!
//! A [`Publisher`] drives a str0m session: it adds and withdraws network
//! interfaces, negotiates, sends and receives frames, and decides when a lost
//! connection is lost for good. It does no I/O of its own. Its host moves the
//! datagrams, tells it the time, and carries out the work on the transport that
//! it is asked for.
//!
//! - [`publisher`] is the publisher, and [`peer`] the same behind a C boundary.
//! - [`model`] says what a publisher's state is and how each operation changes
//!   it, and [`laws`] what follows for any number of operations. [`promises`]
//!   says what callers may rely on, operation by operation.
//! - [`session`] holds the str0m session and the record of what passed between
//!   it and this library. All calls into str0m are there.
//! - [`description`] tells what is wrong with a session description.
//! - [`annex_b`], [`codec`], [`hex`], [`packet`] and [`text`] convert and
//!   classify what is sent and received.
pub mod annex_b;
pub mod codec;
pub mod description;
pub mod hex;
pub mod laws;
pub mod model;
pub mod packet;
pub mod peer;
pub mod promises;
pub mod publisher;
pub mod session;
pub mod text;

pub use crate::codec::Codec;
pub use crate::model::{EngineRequest, Media, PeerEvent, Transmit};
pub use crate::publisher::Publisher;
