use barter_data::error::DataError;
use barter_data::exchange::ExchangeId;
use barter_data::streams::consumer::{
    idle_timeout_for, plan_market_stream, stream_reconnection_policy, StreamKey,
    BINANCE_TH_TRADES_IDLE_MAX_SECS, BITKUB_TRADES_IDLE_MAX_SECS, BOOK_IDLE_MAX_SECS,
    ORBIX_TRADES_IDLE_MAX_SECS,
};
use barter_data::subscription::{
    OrderBooksL1, OrderBooksL2, PublicTrades, Subscription, SubscriptionKind,
};
use barter_data::text::same_text;
use std::time::Duration;

#[test]
fn book_mapping_pinned_for_every_exchange() {
    // Books are venue-independent: same measured constant everywhere.
    for exchange in [
        ExchangeId::BinanceTh,
        ExchangeId::Bitkub,
        ExchangeId::Orbix,
        ExchangeId::BinanceSpot,
    ] {
        assert_eq!(
            idle_timeout_for(exchange, OrderBooksL1.as_str()),
            Some(Duration::from_secs(BOOK_IDLE_MAX_SECS))
        );
        assert_eq!(
            idle_timeout_for(exchange, OrderBooksL2.as_str()),
            Some(Duration::from_secs(BOOK_IDLE_MAX_SECS))
        );
        assert!(idle_timeout_for(exchange, "l1").is_some());
        assert!(idle_timeout_for(exchange, "l2").is_some());
        assert!(idle_timeout_for(exchange, "OrderBooksL1").is_some());
        assert!(idle_timeout_for(exchange, "OrderBooksL2").is_some());
    }
}

#[test]
fn trades_mapping_venue_aware() {
    let cases = [
        (ExchangeId::Bitkub, BITKUB_TRADES_IDLE_MAX_SECS),
        (ExchangeId::BinanceTh, BINANCE_TH_TRADES_IDLE_MAX_SECS),
        (ExchangeId::Orbix, ORBIX_TRADES_IDLE_MAX_SECS),
    ];
    for (exchange, secs) in cases {
        assert_eq!(
            idle_timeout_for(exchange, PublicTrades.as_str()),
            Some(Duration::from_secs(secs))
        );
        assert_eq!(
            idle_timeout_for(exchange, "PublicTrades"),
            Some(Duration::from_secs(secs))
        );
    }
}

#[test]
fn trades_disabled_for_unmeasured_exchanges() {
    assert!(idle_timeout_for(ExchangeId::BinanceSpot, PublicTrades.as_str()).is_none());
    assert!(idle_timeout_for(ExchangeId::BinanceSpot, "PublicTrades").is_none());
}

#[test]
fn unknown_kind_disabled() {
    assert!(idle_timeout_for(ExchangeId::Bitkub, "liquidations").is_none());
    assert!(idle_timeout_for(ExchangeId::Bitkub, "").is_none());
}

#[test]
fn kinds_match_to_the_letter() {
    for kind in ["L1", "l1 ", "l", "l3", "orderbooksl1", "publicTrades", "public_trade"] {
        assert_eq!(idle_timeout_for(ExchangeId::Orbix, kind), None);
    }
    assert_eq!(idle_timeout_for(ExchangeId::Other("Okx"), "public_trades"), None);
    assert_eq!(
        idle_timeout_for(ExchangeId::Other("Okx"), "l2"),
        Some(Duration::from_secs(976))
    );
}

#[test]
fn limits_are_three_times_the_measured_gaps() {
    let limit = |gap_ms: u64| (3 * gap_ms + 999) / 1000;
    assert_eq!(BOOK_IDLE_MAX_SECS, limit(325_200).max(300));
    assert_eq!(BITKUB_TRADES_IDLE_MAX_SECS, limit(342_341));
    assert_eq!(BINANCE_TH_TRADES_IDLE_MAX_SECS, limit(827_205));
    assert_eq!(ORBIX_TRADES_IDLE_MAX_SECS, limit(7_081_563));
    assert_eq!(
        idle_timeout_for(ExchangeId::Bitkub, "public_trades").map(|limit| limit.as_nanos()),
        Some(1_028_000_000_000)
    );
}

#[test]
fn default_policy_is_pinned() {
    let policy = stream_reconnection_policy();
    assert_eq!(policy.backoff_ms_initial, 125);
    assert_eq!(policy.backoff_multiplier, 2);
    assert_eq!(policy.backoff_ms_max, 60000);
}

#[test]
fn stream_keys_show_their_parts() {
    let key = StreamKey::new("market_stream", ExchangeId::BinanceSpot, Some("l2"));
    assert_eq!(key.debug_string("binance_spot"), "market_stream-binance_spot-l2");
    let key = StreamKey::new_general("account_stream", ExchangeId::Orbix);
    assert!(key.kind.is_none());
    assert!(key == StreamKey::new("account_stream", ExchangeId::Orbix, None));
    assert_eq!(key.debug_string("orbix"), "account_stream-orbix");
}

#[test]
fn market_streams_are_planned_by_their_first_subscription() {
    let none: Vec<Subscription<u32, OrderBooksL1>> = Vec::new();
    assert!(matches!(
        plan_market_stream(ExchangeId::Bitkub, &none),
        Err(DataError::SubscriptionsEmpty)
    ));

    let trades = vec![
        Subscription { instrument: 1u32, kind: PublicTrades },
        Subscription { instrument: 2u32, kind: PublicTrades },
    ];
    let plan = plan_market_stream(ExchangeId::Orbix, &trades).unwrap_or_else(|_| panic!());
    assert!(
        plan.stream_key == StreamKey::new("market_stream", ExchangeId::Orbix, Some("public_trades"))
    );
    assert_eq!(plan.idle_max, Some(Duration::from_secs(21245)));

    let plan = plan_market_stream(ExchangeId::BinanceSpot, &trades).unwrap_or_else(|_| panic!());
    assert_eq!(plan.idle_max, None);
}

#[test]
fn texts_compare_by_their_characters() {
    assert!(same_text("", ""));
    assert!(same_text("é-l1", "é-l1"));
    assert!(!same_text("l1", "l2"));
    assert!(!same_text("l1", "l11"));
    assert!(!same_text("é", "e"));
}
