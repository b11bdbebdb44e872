//! What a market stream subscribes to.

use vstd::prelude::*;

verus! {

/// A kind of market data.
pub trait SubscriptionKind {
    /// The text of the kind.
    spec fn text(&self) -> Seq<char>;

    /// The text of the kind.
    fn as_str(&self) -> (text: &'static str)
        ensures
            text@ == self.text(),
    ;
}

/// Best bid and ask of an order book.
#[derive(Debug, Copy, Clone, PartialEq, Eq, PartialOrd, Ord, Hash)]
pub struct OrderBooksL1;

/// Aggregated levels of an order book.
#[derive(Debug, Copy, Clone, PartialEq, Eq, PartialOrd, Ord, Hash)]
pub struct OrderBooksL2;

/// Trades as they are made.
#[derive(Debug, Copy, Clone, PartialEq, Eq, PartialOrd, Ord, Hash)]
pub struct PublicTrades;

impl SubscriptionKind for OrderBooksL1 {
    open spec fn text(&self) -> Seq<char> {
        "l1"@
    }

    fn as_str(&self) -> (text: &'static str)
        ensures
            text@ == "l1"@,
    {
        "l1"
    }
}

impl SubscriptionKind for OrderBooksL2 {
    open spec fn text(&self) -> Seq<char> {
        "l2"@
    }

    fn as_str(&self) -> (text: &'static str)
        ensures
            text@ == "l2"@,
    {
        "l2"
    }
}

impl SubscriptionKind for PublicTrades {
    open spec fn text(&self) -> Seq<char> {
        "public_trades"@
    }

    fn as_str(&self) -> (text: &'static str)
        ensures
            text@ == "public_trades"@,
    {
        "public_trades"
    }
}

/// A subscription to one kind of market data of one instrument.
#[derive(Debug, PartialEq, Eq, PartialOrd, Ord, Hash)]
pub struct Subscription<Instrument, Kind> {
    pub instrument: Instrument,
    pub kind: Kind,
}

/// Each kind has the text that venues and logs know it by, and no two kinds
/// share one.
pub proof fn law_kinds_have_texts_of_their_own()
    ensures
        OrderBooksL1.text() == "l1"@,
        OrderBooksL2.text() == "l2"@,
        PublicTrades.text() == "public_trades"@,
        OrderBooksL1.text() != OrderBooksL2.text(),
        OrderBooksL1.text() != PublicTrades.text(),
        OrderBooksL2.text() != PublicTrades.text(),
{
    reveal_strlit("l1");
    reveal_strlit("l2");
    reveal_strlit("public_trades");
    assert("l1"@[1] == '1');
    assert("l2"@[1] == '2');
    assert("l1"@.len() == 2);
    assert("l2"@.len() == 2);
    assert("public_trades"@.len() == 13);
}

} // verus!
