//! The venues that market data comes from.

use vstd::prelude::*;

verus! {

/// Identifies an exchange.
#[derive(Debug, Copy, Clone, PartialEq, Eq, PartialOrd, Ord, Hash)]
pub enum ExchangeId {
    BinanceSpot,
    BinanceTh,
    Bitkub,
    Orbix,
    /// An exchange without rules of its own, by its name.
    Other(&'static str),
}

} // verus!
