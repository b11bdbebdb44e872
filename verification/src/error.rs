//! What can go wrong before a market stream is initialised.

use vstd::prelude::*;

verus! {

/// Why a market stream is not initialised.
#[derive(Debug, Copy, Clone, PartialEq, Eq, Structural)]
pub enum DataError {
    /// There is nothing to subscribe to.
    SubscriptionsEmpty,
}

} // verus!
