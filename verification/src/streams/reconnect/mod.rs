//! Streams that are re-initialised whenever they end.

use vstd::prelude::*;

pub mod backoff_laws;
pub mod event_loop;
pub mod loop_laws;
pub mod pipeline;
pub mod stream;

verus! {

/// What the consumer of a reconnecting stream sees.
#[derive(Debug, Copy, Clone, PartialEq, Eq, PartialOrd, Ord, Hash)]
pub enum Event<Origin, T> {
    /// The stream of `Origin` has ended and is being initialised again.
    Reconnecting(Origin),
    /// An item of the stream.
    Item(T),
}

} // verus!
