//! Market streams: what identifies them, how they reconnect, and how long they
//! may stay silent.

use std::time::Duration;
use vstd::prelude::*;
use vstd::string::*;

use super::reconnect::stream::ReconnectionBackoffPolicy;
use super::reconnect::Event;
use crate::error::DataError;
use crate::exchange::ExchangeId;
use crate::subscription::{OrderBooksL1, OrderBooksL2, PublicTrades};
use crate::subscription::{Subscription, SubscriptionKind};
use crate::text::same_text;
use crate::time::duration_nanos;

verus! {

/// The policy by which market streams reconnect, unless they are given another.
pub fn stream_reconnection_policy() -> (policy: ReconnectionBackoffPolicy)
    ensures
        policy == (ReconnectionBackoffPolicy {
            backoff_ms_initial: 125,
            backoff_multiplier: 2,
            backoff_ms_max: 60000,
        }),
{
    ReconnectionBackoffPolicy {
        backoff_ms_initial: 125,
        backoff_multiplier: 2,
        backoff_ms_max: 60000,
    }
}

/// Idle limit of order book streams, in seconds: three times the largest gap
/// between items that was measured on a healthy connection, 325.2 s, rounded
/// up, and no less than 300 s.
pub const BOOK_IDLE_MAX_SECS: u64 = 976;

/// Idle limit of Bitkub trade streams, in seconds: three times the largest gap
/// that was measured, 342.341 s, rounded up.
///
/// Trades have a limit for each venue, since their gaps differ by a factor of
/// about twenty.
pub const BITKUB_TRADES_IDLE_MAX_SECS: u64 = 1028;

/// Idle limit of Binance TH trade streams, in seconds: three times the largest
/// gap that was measured, 827.205 s, rounded up.
pub const BINANCE_TH_TRADES_IDLE_MAX_SECS: u64 = 2482;

/// Idle limit of Orbix trade streams, in seconds: three times the largest gap
/// that was measured, 7081.563 s, rounded up.
pub const ORBIX_TRADES_IDLE_MAX_SECS: u64 = 21245;

/// Whether `kind` is the text or the type name of an order book kind.
pub open spec fn is_book_kind(kind: Seq<char>) -> bool {
    kind == "l1"@ || kind == "l2"@ || kind == "OrderBooksL1"@ || kind == "OrderBooksL2"@
}

/// Whether `kind` is the text or the type name of the trades kind.
pub open spec fn is_trades_kind(kind: Seq<char>) -> bool {
    kind == "public_trades"@ || kind == "PublicTrades"@
}

/// The idle limit of trades, in seconds, on the exchanges where it was measured.
pub open spec fn trades_idle_secs(exchange: ExchangeId) -> Option<u64> {
    match exchange {
        ExchangeId::Bitkub => Some(BITKUB_TRADES_IDLE_MAX_SECS),
        ExchangeId::BinanceTh => Some(BINANCE_TH_TRADES_IDLE_MAX_SECS),
        ExchangeId::Orbix => Some(ORBIX_TRADES_IDLE_MAX_SECS),
        _ => None,
    }
}

/// The idle limit of a kind of data on an exchange, in seconds.
pub open spec fn idle_secs(exchange: ExchangeId, kind: Seq<char>) -> Option<u64> {
    if is_book_kind(kind) {
        Some(BOOK_IDLE_MAX_SECS)
    } else if is_trades_kind(kind) {
        trades_idle_secs(exchange)
    } else {
        None
    }
}

/// Whether a limit is the one of so many seconds, or none is there and none is
/// due.
pub open spec fn is_limit_of(limit: Option<Duration>, secs: Option<u64>) -> bool {
    match (limit, secs) {
        (Some(limit), Some(secs)) => duration_nanos(limit) == secs as nat * 1_000_000_000,
        (None, None) => true,
        _ => false,
    }
}

/// How long a stream of a kind of data on an exchange may stay silent.
///
/// Books have one limit everywhere. Trades have the limit of their exchange,
/// and none where no gap was measured: a limit that was not measured could end
/// healthy but sparse streams. Other kinds have none.
pub fn idle_timeout_for(exchange: ExchangeId, kind: &str) -> (limit: Option<Duration>)
    ensures
        is_limit_of(limit, idle_secs(exchange, kind@)),
        kind@ == "l1"@ || kind@ == "l2"@ || kind@ == "OrderBooksL1"@ || kind@ == "OrderBooksL2"@
            ==> limit is Some && duration_nanos(limit->0) == 976_000_000_000,
        kind@ == "public_trades"@ || kind@ == "PublicTrades"@ ==> match exchange {
            ExchangeId::Bitkub => limit is Some && duration_nanos(limit->0) == 1_028_000_000_000,
            ExchangeId::BinanceTh => limit is Some && duration_nanos(limit->0)
                == 2_482_000_000_000,
            ExchangeId::Orbix => limit is Some && duration_nanos(limit->0) == 21_245_000_000_000,
            _ => limit is None,
        },
        kind@ != "l1"@ && kind@ != "l2"@ && kind@ != "OrderBooksL1"@ && kind@ != "OrderBooksL2"@
            && kind@ != "public_trades"@ && kind@ != "PublicTrades"@ ==> limit is None,
{
    proof {
        lemma_kinds_differ(kind@);
    }
    if same_text(kind, "l1") || same_text(kind, "l2") || same_text(kind, "OrderBooksL1")
        || same_text(kind, "OrderBooksL2") {
        Some(Duration::from_secs(BOOK_IDLE_MAX_SECS))
    } else if same_text(kind, "public_trades") || same_text(kind, "PublicTrades") {
        match exchange {
            ExchangeId::Bitkub => Some(Duration::from_secs(BITKUB_TRADES_IDLE_MAX_SECS)),
            ExchangeId::BinanceTh => Some(Duration::from_secs(BINANCE_TH_TRADES_IDLE_MAX_SECS)),
            ExchangeId::Orbix => Some(Duration::from_secs(ORBIX_TRADES_IDLE_MAX_SECS)),
            _ => None,
        }
    } else {
        None
    }
}

/// What the consumer of a market stream sees, errors included.
pub type MarketStreamResult<MarketEvent, Error> = Event<ExchangeId, Result<MarketEvent, Error>>;

/// What the consumer of a market stream sees once errors have been handled.
pub type MarketStreamEvent<MarketEvent> = Event<ExchangeId, MarketEvent>;

/// Identifies a stream.
#[derive(Copy, Clone, PartialEq, Eq, PartialOrd, Ord, Hash)]
pub struct StreamKey<Kind = &'static str> {
    pub stream: &'static str,
    pub exchange: ExchangeId,
    pub kind: Option<Kind>,
}

impl<Kind> StreamKey<Kind> {
    /// The key of a stream, of a kind or of none.
    pub fn new(stream: &'static str, exchange: ExchangeId, kind: Option<Kind>) -> (key: Self)
        ensures
            key.stream == stream,
            key.exchange == exchange,
            key.kind == kind,
    {
        StreamKey { stream, exchange, kind }
    }
}

impl StreamKey {
    /// The text of a key: its parts, joined by hyphens.
    pub open spec fn debug_text(self, exchange: Seq<char>) -> Seq<char> {
        match self.kind {
            None => self.stream@ + "-"@ + exchange,
            Some(kind) => self.stream@ + "-"@ + exchange + "-"@ + kind@,
        }
    }

    /// The key of a stream of no particular kind.
    pub fn new_general(stream: &'static str, exchange: ExchangeId) -> (key: Self)
        ensures
            key.stream == stream,
            key.exchange == exchange,
            key.kind is None,
    {
        Self::new(stream, exchange, None)
    }

    /// The text of a key for logs, where `exchange` is how its exchange is
    /// displayed.
    pub fn debug_string(&self, exchange: &str) -> (text: String)
        ensures
            text@ == self.debug_text(exchange@),
            self.kind is None ==> text@ == self.stream@ + "-"@ + exchange@,
            self.kind matches Some(kind) ==> text@ == self.stream@ + "-"@ + exchange@ + "-"@
                + kind@,
    {
        let mut text = String::new();
        text.append(self.stream);
        text.append("-");
        text.append(exchange);
        match self.kind {
            None => {},
            Some(kind) => {
                text.append("-");
                text.append(kind);
            },
        }
        assert(text@ =~= self.debug_text(exchange@));
        text
    }
}

/// What a market stream is initialised with.
pub struct MarketStreamPlan {
    pub stream_key: StreamKey,
    pub idle_max: Option<Duration>,
}

/// Settle what a market stream of `subscriptions` is initialised with. They
/// are of one kind of data, so the first of them speaks for all.
pub fn plan_market_stream<Instrument, Kind: SubscriptionKind>(
    exchange: ExchangeId,
    subscriptions: &Vec<Subscription<Instrument, Kind>>,
) -> (plan: Result<MarketStreamPlan, DataError>)
    ensures
        subscriptions@.len() == 0 ==> plan == Err::<MarketStreamPlan, _>(
            DataError::SubscriptionsEmpty,
        ),
        subscriptions@.len() > 0 ==> {
            &&& plan matches Ok(plan)
            &&& plan.stream_key.stream@ == "market_stream"@
            &&& plan.stream_key.exchange == exchange
            &&& plan.stream_key.kind matches Some(kind) && kind@ == subscriptions@[0].kind.text()
            &&& is_limit_of(plan.idle_max, idle_secs(exchange, subscriptions@[0].kind.text()))
        },
{
    if subscriptions.len() == 0 {
        return Err(DataError::SubscriptionsEmpty);
    }
    let kind: &'static str = subscriptions[0].kind.as_str();
    Ok(
        MarketStreamPlan {
            stream_key: StreamKey::new("market_stream", exchange, Some(kind)),
            idle_max: idle_timeout_for(exchange, kind),
        },
    )
}

/// No kind is a book kind and the trades kind at once.
proof fn lemma_kinds_differ(kind: Seq<char>)
    ensures
        !(is_book_kind(kind) && is_trades_kind(kind)),
{
    reveal_strlit("l1");
    reveal_strlit("l2");
    reveal_strlit("OrderBooksL1");
    reveal_strlit("OrderBooksL2");
    reveal_strlit("public_trades");
    reveal_strlit("PublicTrades");
    assert("OrderBooksL1"@[0] == 'O');
    assert("OrderBooksL2"@[0] == 'O');
    assert("PublicTrades"@[0] == 'P');
    assert("l1"@[0] == 'l');
    assert("l2"@[0] == 'l');
    assert("public_trades"@[0] == 'p');
}

/// Books have the same limit, the measured one, on every exchange, under the
/// text of their kind as under its type name.
pub proof fn law_books_have_one_limit(exchange: ExchangeId)
    ensures
        idle_secs(exchange, OrderBooksL1.text()) == Some(BOOK_IDLE_MAX_SECS),
        idle_secs(exchange, OrderBooksL2.text()) == Some(BOOK_IDLE_MAX_SECS),
        idle_secs(exchange, "OrderBooksL1"@) == Some(BOOK_IDLE_MAX_SECS),
        idle_secs(exchange, "OrderBooksL2"@) == Some(BOOK_IDLE_MAX_SECS),
        idle_secs(exchange, "l1"@) == Some(976u64),
        idle_secs(exchange, "l2"@) == Some(976u64),
        idle_secs(exchange, "OrderBooksL1"@) == Some(976u64),
        idle_secs(exchange, "OrderBooksL2"@) == Some(976u64),
{
}

/// Trades have the limit of their exchange, or none where none was measured,
/// under the text of their kind as under its type name.
pub proof fn law_trades_go_by_exchange(exchange: ExchangeId)
    ensures
        idle_secs(exchange, PublicTrades.text()) == trades_idle_secs(exchange),
        idle_secs(exchange, "public_trades"@) == trades_idle_secs(exchange),
        idle_secs(exchange, "PublicTrades"@) == trades_idle_secs(exchange),
        trades_idle_secs(exchange) is Some <==> (exchange is Bitkub || exchange is BinanceTh
            || exchange is Orbix),
        exchange is Bitkub ==> trades_idle_secs(exchange) == Some(1028u64),
        exchange is BinanceTh ==> trades_idle_secs(exchange) == Some(2482u64),
        exchange is Orbix ==> trades_idle_secs(exchange) == Some(21245u64),
{
    lemma_kinds_differ(PublicTrades.text());
    lemma_kinds_differ("public_trades"@);
    lemma_kinds_differ("PublicTrades"@);
}

/// Any kind but those of books and trades, spelt as one of their texts or type
/// names, has no limit on any exchange.
pub proof fn law_unknown_kinds_have_no_limit(exchange: ExchangeId, kind: Seq<char>)
    requires
        kind != "l1"@,
        kind != "l2"@,
        kind != "OrderBooksL1"@,
        kind != "OrderBooksL2"@,
        kind != "public_trades"@,
        kind != "PublicTrades"@,
    ensures
        idle_secs(exchange, kind) is None,
        !is_book_kind(kind),
        !is_trades_kind(kind),
{
}

/// A limit of so many seconds is a duration of exactly so many, and no limit is
/// none at all.
pub proof fn law_limits_are_whole_seconds(limit: Duration, secs: u64)
    ensures
        is_limit_of(Some(limit), Some(secs)) <==> duration_nanos(limit) == secs * 1_000_000_000,
        is_limit_of(None, None),
        !is_limit_of(Some(limit), None),
        !is_limit_of(None, Some(secs)),
{
}

/// Every limit is three times the largest gap that was measured, rounded up to
/// seconds, and that of books is no less than 300 seconds.
pub proof fn law_limits_are_three_gaps()
    ensures
        (BOOK_IDLE_MAX_SECS - 1) * 1000 < 3 * 325_200 <= BOOK_IDLE_MAX_SECS * 1000,
        (BITKUB_TRADES_IDLE_MAX_SECS - 1) * 1000 < 3 * 342_341 <= BITKUB_TRADES_IDLE_MAX_SECS * 1000,
        (BINANCE_TH_TRADES_IDLE_MAX_SECS - 1) * 1000 < 3 * 827_205 <= BINANCE_TH_TRADES_IDLE_MAX_SECS * 1000,
        (ORBIX_TRADES_IDLE_MAX_SECS - 1) * 1000 < 3 * 7_081_563 <= ORBIX_TRADES_IDLE_MAX_SECS * 1000,
        BOOK_IDLE_MAX_SECS >= 300,
{
}

/// The text of a key is its stream, a hyphen and the exchange, and for a key of
/// a kind a hyphen and the kind after that.
pub proof fn law_key_text_joins_parts(key: StreamKey, exchange: Seq<char>)
    ensures
        key.kind is None ==> key.debug_text(exchange) == key.stream@ + seq!['-'] + exchange,
        key.kind matches Some(kind) ==> key.debug_text(exchange) == key.stream@ + seq!['-']
            + exchange + seq!['-'] + kind@,
{
    reveal_strlit("-");
    assert("-"@ =~= seq!['-']);
}

/// Keys of one stream on one exchange have the same text only if they are of the
/// same kind, or both of none.
pub proof fn law_key_texts_tell_kinds_apart(left: StreamKey, right: StreamKey, exchange: Seq<char>)
    requires
        left.stream@ == right.stream@,
        left.debug_text(exchange) == right.debug_text(exchange),
    ensures
        left.kind is None <==> right.kind is None,
        left.kind matches Some(kind) ==> right.kind matches Some(other) && kind@ == other@,
{
    law_key_text_joins_parts(left, exchange);
    law_key_text_joins_parts(right, exchange);
    let start = left.stream@ + seq!['-'] + exchange;
    let prefix = start + seq!['-'];
    assert(left.debug_text(exchange).len() == right.debug_text(exchange).len());
    if left.kind is Some && right.kind is Some {
        let one = left.kind->0@;
        let other = right.kind->0@;
        assert((prefix + one).skip(prefix.len() as int) =~= one);
        assert((prefix + other).skip(prefix.len() as int) =~= other);
    }
}

/// The policy that market streams reconnect by unless they are given another
/// backs off for 125 ms at first, twice as long after each further failure, and
/// for a minute at most; it never overflows.
pub proof fn law_default_policy_doubles_up_to_a_minute(policy: ReconnectionBackoffPolicy)
    requires
        call_ensures(stream_reconnection_policy, (), policy),
    ensures
        policy.backoff_ms_initial == 125,
        policy.backoff_multiplier == 2,
        policy.backoff_ms_max == 60_000,
        policy.never_overflows(),
{
}

/// A plan is made exactly if there is something to subscribe to. Its key names
/// a market stream of the exchange and of the kind of the first subscription,
/// and its limit lasts as long as the one that is chosen for that exchange and
/// kind by itself.
pub proof fn law_plans_follow_the_first_subscription<Instrument, Kind: SubscriptionKind>(
    exchange: ExchangeId,
    subscriptions: Vec<Subscription<Instrument, Kind>>,
    plan: Result<MarketStreamPlan, DataError>,
    kind: &str,
    limit: Option<Duration>,
)
    requires
        call_ensures(plan_market_stream::<Instrument, Kind>, (exchange, &subscriptions), plan),
        call_ensures(idle_timeout_for, (exchange, kind), limit),
    ensures
        plan is Err <==> subscriptions@.len() == 0,
        plan matches Err(error) ==> error == DataError::SubscriptionsEmpty,
        plan matches Ok(plan) ==> {
            &&& plan.stream_key.stream@ == "market_stream"@
            &&& plan.stream_key.exchange == exchange
            &&& plan.stream_key.kind is Some
            &&& plan.stream_key.kind->0@ == subscriptions@[0].kind.text()
            &&& kind@ == subscriptions@[0].kind.text() ==> {
                &&& plan.idle_max is Some <==> limit is Some
                &&& limit is Some ==> duration_nanos(plan.idle_max->0) == duration_nanos(limit->0)
            }
        },
{
}

/// The plans of two kinds on one exchange have keys with different texts.
pub proof fn law_plans_of_two_kinds_have_two_keys<
    Instrument,
    Kind: SubscriptionKind,
    OtherKind: SubscriptionKind,
>(
    exchange: ExchangeId,
    subscriptions: Vec<Subscription<Instrument, Kind>>,
    others: Vec<Subscription<Instrument, OtherKind>>,
    plan: MarketStreamPlan,
    other_plan: MarketStreamPlan,
    name: Seq<char>,
)
    requires
        call_ensures(plan_market_stream::<Instrument, Kind>, (exchange, &subscriptions), Ok(plan)),
        call_ensures(
            plan_market_stream::<Instrument, OtherKind>,
            (exchange, &others),
            Ok(other_plan),
        ),
        subscriptions@[0].kind.text() != others@[0].kind.text(),
    ensures
        plan.stream_key.debug_text(name) != other_plan.stream_key.debug_text(name),
{
    if plan.stream_key.debug_text(name) == other_plan.stream_key.debug_text(name) {
        law_key_texts_tell_kinds_apart(plan.stream_key, other_plan.stream_key, name);
    }
}

/// The limit that is chosen, told by exchange and kind alone: 976 seconds for
/// books, that of the exchange for trades, and none for anything else.
pub proof fn law_chosen_limits(exchange: ExchangeId, kind: &str, limit: Option<Duration>)
    requires
        call_ensures(idle_timeout_for, (exchange, kind), limit),
    ensures
        ({
            let book = kind@ == "l1"@ || kind@ == "l2"@ || kind@ == "OrderBooksL1"@ || kind@
                == "OrderBooksL2"@;
            let trades = kind@ == "public_trades"@ || kind@ == "PublicTrades"@;
            &&& limit is Some <==> book || trades && (exchange is Bitkub || exchange is BinanceTh
                || exchange is Orbix)
            &&& book ==> duration_nanos(limit->0) == 976_000_000_000
            &&& trades && exchange is Bitkub ==> duration_nanos(limit->0) == 1_028_000_000_000
            &&& trades && exchange is BinanceTh ==> duration_nanos(limit->0) == 2_482_000_000_000
            &&& trades && exchange is Orbix ==> duration_nanos(limit->0) == 21_245_000_000_000
        }),
{
    lemma_kinds_differ(kind@);
}

} // verus!
