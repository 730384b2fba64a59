//! The snapshot decision rules of the order engine: the startup skip, the
//! two-second window, the per-period deduplication, the symmetric batch,
//! disabled assets, and the condition-id uniqueness check.

use updown_engine::discovery::{
    check_condition_ids, disabled_eth_market, disabled_solana_market, disabled_xrp_market,
    discovery_slugs, finalize_market_set, select_market, MarketSet,
};
use updown_engine::error::EngineError;
use updown_engine::market::{Market, TokenType};
use updown_engine::monitor::MarketMonitor;
use updown_engine::trader::{
    build_opportunities, decide_snapshot, BuyOpportunity, EngineConfig, MarketView,
    PeriodSnapshot, TraderState,
};

fn market(name: &str, period: u64) -> Market {
    Market {
        condition_id: format!("0xcond_{name}_{period}"),
        slug: format!("{name}-updown-15m-{period}"),
        active: true,
        closed: false,
        up_token_id: Some(format!("tok_{name}_up_{period}")),
        down_token_id: Some(format!("tok_{name}_down_{period}")),
        period_timestamp: period,
    }
}

fn config() -> EngineConfig {
    EngineConfig {
        limit_price: 450_000,
        shares_override: None,
        fixed_trade_amount: 10_000_000,
        enable_eth: true,
        enable_solana: true,
        enable_xrp: true,
        check_interval_ms: 500,
        market_closure_check_interval_seconds: 5,
    }
}

fn snapshot(period: u64, time_remaining_seconds: u64) -> PeriodSnapshot {
    let view = |name: &str| MarketView {
        market: market(name, period),
        up_price: updown_engine::market::TokenPrice { bid: None, ask: None },
        down_price: updown_engine::market::TokenPrice { bid: None, ask: None },
    };
    PeriodSnapshot {
        period_timestamp: period,
        time_remaining_seconds,
        eth: view("eth"),
        btc: view("btc"),
        sol: view("solana"),
        xrp: view("xrp"),
    }
}

#[test]
fn normal_open_builds_full_batch() {
    // Engine has been running since before the boundary: the in-progress
    // period was already seen, so the batch fires at the next open.
    let cfg = config();
    let mut state = TraderState::new();
    let warmup = decide_snapshot(&mut state, &snapshot(1_699_998_300, 600), &cfg);
    assert!(warmup.is_empty());
    let opps = decide_snapshot(&mut state, &snapshot(1_699_999_200, 900), &cfg);
    assert_eq!(opps.len(), 8);
    for o in &opps {
        assert_eq!(o.bid_price, 450_000);
        assert_eq!(o.period_timestamp, 1_699_999_200);
        assert_eq!(o.time_elapsed_seconds, 0);
        assert!(!o.use_market_order);
    }
    let ups = opps.iter().filter(|o| matches!(o.token_type, TokenType::BtcUp)).count();
    assert_eq!(ups, 1);
}

#[test]
fn startup_inside_period_places_nothing() {
    // First snapshot arrives 300 seconds into a period: zero orders for
    // that period, the full batch at the next boundary.
    let cfg = config();
    let mut state = TraderState::new();
    let first = decide_snapshot(&mut state, &snapshot(1_699_998_300, 600), &cfg);
    assert!(first.is_empty());
    // Even at the very start of the same period, nothing more is placed.
    let again = decide_snapshot(&mut state, &snapshot(1_699_998_300, 300), &cfg);
    assert!(again.is_empty());
    let opps = decide_snapshot(&mut state, &snapshot(1_699_999_200, 899), &cfg);
    assert_eq!(opps.len(), 8);
}

#[test]
fn window_closes_after_two_seconds() {
    let cfg = config();
    let mut state = TraderState::new();
    decide_snapshot(&mut state, &snapshot(1_699_998_300, 600), &cfg);
    // Three seconds elapsed: too late.
    let late = decide_snapshot(&mut state, &snapshot(1_699_999_200, 897), &cfg);
    assert!(late.is_empty());
    // Two seconds elapsed is still within the window — but the period was
    // not marked placed by the late snapshot, so it still fires.
    let opps = decide_snapshot(&mut state, &snapshot(1_699_999_200, 898), &cfg);
    assert_eq!(opps.len(), 8);
}

#[test]
fn at_most_one_batch_per_period() {
    let cfg = config();
    let mut state = TraderState::new();
    decide_snapshot(&mut state, &snapshot(1_699_998_300, 600), &cfg);
    let first = decide_snapshot(&mut state, &snapshot(1_699_999_200, 900), &cfg);
    assert_eq!(first.len(), 8);
    let second = decide_snapshot(&mut state, &snapshot(1_699_999_200, 899), &cfg);
    assert!(second.is_empty());
    let third = decide_snapshot(&mut state, &snapshot(1_699_999_200, 898), &cfg);
    assert!(third.is_empty());
    // The next period fires again.
    let next = decide_snapshot(&mut state, &snapshot(1_700_000_100, 900), &cfg);
    assert_eq!(next.len(), 8);
}

#[test]
fn dead_period_places_nothing() {
    let cfg = config();
    let mut state = TraderState::new();
    decide_snapshot(&mut state, &snapshot(1_699_998_300, 600), &cfg);
    let dead = decide_snapshot(&mut state, &snapshot(1_699_999_200, 0), &cfg);
    assert!(dead.is_empty());
}

#[test]
fn disabled_assets_build_no_opportunities() {
    let cfg = EngineConfig { enable_eth: false, enable_solana: false, ..config() };
    let opps: Vec<BuyOpportunity> = build_opportunities(&snapshot(1_699_999_200, 900), &cfg, 0);
    assert_eq!(opps.len(), 4);
    for o in &opps {
        assert!(matches!(
            o.token_type,
            TokenType::BtcUp | TokenType::BtcDown | TokenType::XrpUp | TokenType::XrpDown
        ));
    }
}

#[test]
fn missing_token_is_skipped() {
    let mut snap = snapshot(1_699_999_200, 900);
    snap.btc.market.up_token_id = None;
    let opps = build_opportunities(&snap, &config(), 0);
    assert_eq!(opps.len(), 7);
    assert!(!opps.iter().any(|o| matches!(o.token_type, TokenType::BtcUp)));
}

#[test]
fn symmetric_batch_is_one_up_one_down_per_asset() {
    let opps = build_opportunities(&snapshot(1_699_999_200, 900), &config(), 1);
    for tt in [
        TokenType::BtcUp,
        TokenType::BtcDown,
        TokenType::EthUp,
        TokenType::EthDown,
        TokenType::SolanaUp,
        TokenType::SolanaDown,
        TokenType::XrpUp,
        TokenType::XrpDown,
    ] {
        assert_eq!(opps.iter().filter(|o| o.token_type == tt).count(), 1);
    }
    let first_price = opps[0].bid_price;
    assert!(opps.iter().all(|o| o.bid_price == first_price));
}

#[test]
fn duplicate_condition_id_is_fatal() {
    // The discoverer reports the same condition id for ETH and BTC.
    let mut eth = market("eth", 1_699_999_200);
    let btc = market("btc", 1_699_999_200);
    eth.condition_id = btc.condition_id.clone();
    let r = finalize_market_set(
        Some(eth),
        Some(btc),
        Some(market("solana", 1_699_999_200)),
        Some(market("xrp", 1_699_999_200)),
    );
    assert_eq!(r.err(), Some(EngineError::DiscoveryDuplicateConditionId));
}

#[test]
fn dummy_markets_do_not_trip_the_uniqueness_check() {
    // Every optional asset disabled: all placeholders, no duplicate.
    let r = finalize_market_set(None, Some(market("btc", 1_699_999_200)), None, None);
    assert!(r.is_ok());
    let set = r.unwrap();
    assert_eq!(set.eth.condition_id, "dummy_eth_fallback");
    assert!(!set.eth.active);
    let direct = check_condition_ids(&MarketSet {
        eth: disabled_eth_market(),
        btc: market("btc", 1_699_999_200),
        sol: disabled_solana_market(),
        xrp: disabled_xrp_market(),
    });
    assert!(direct.is_ok());
}

#[test]
fn real_duplicate_between_btc_and_solana() {
    let btc = market("btc", 1_699_999_200);
    let mut sol = market("solana", 1_699_999_200);
    sol.condition_id = btc.condition_id.clone();
    let r = finalize_market_set(
        Some(market("eth", 1_699_999_200)),
        Some(btc),
        Some(sol),
        Some(market("xrp", 1_699_999_200)),
    );
    assert_eq!(r.err(), Some(EngineError::DiscoveryDuplicateConditionId));
}

#[test]
fn discovery_schedule_tries_current_then_previous_periods() {
    let prefixes = vec!["solana".to_string(), "sol".to_string()];
    let slugs = discovery_slugs(&prefixes, 1_700_000_000, true);
    assert_eq!(
        slugs,
        vec![
            "solana-updown-15m-1699999200".to_string(),
            "solana-updown-15m-1699998300".to_string(),
            "solana-updown-15m-1699997400".to_string(),
            "solana-updown-15m-1699996500".to_string(),
            "sol-updown-15m-1699999200".to_string(),
            "sol-updown-15m-1699998300".to_string(),
            "sol-updown-15m-1699997400".to_string(),
            "sol-updown-15m-1699996500".to_string(),
        ]
    );
    let only_current = discovery_slugs(&prefixes, 1_700_000_000, false);
    assert_eq!(only_current.len(), 2);
}

#[test]
fn selection_takes_first_acceptable_market() {
    let stale = Market { closed: true, ..market("btc", 1_699_998_300) };
    let seen_market = market("btc", 1_699_997_400);
    let good = market("btc", 1_699_999_200);
    let seen = vec![seen_market.condition_id.clone()];
    let results = vec![None, Some(stale), Some(seen_market), Some(good.clone())];
    let picked = select_market(&results, &seen).expect("one candidate is acceptable");
    assert_eq!(picked.condition_id, good.condition_id);
    // Nothing acceptable: every fetch failed or was rejected.
    let missing = select_market(&vec![None, None], &seen);
    assert_eq!(missing.err(), Some(EngineError::DiscoveryMissing));
}

#[test]
fn config_validation() {
    assert!(config().validate().is_ok());
    let zero_price = EngineConfig { limit_price: 0, ..config() };
    assert_eq!(zero_price.validate().err(), Some(EngineError::ConfigInvalid));
    let over_dollar = EngineConfig { limit_price: 1_000_001, ..config() };
    assert_eq!(over_dollar.validate().err(), Some(EngineError::ConfigInvalid));
    assert_eq!(config().order_size(), 22_222_222);
    let explicit = EngineConfig { shares_override: Some(10_000_000), ..config() };
    assert_eq!(explicit.order_size(), 10_000_000);
}

#[test]
fn monitor_snapshot_carries_markets_and_quotes() {
    let set = MarketSet {
        eth: market("eth", 1_699_999_200),
        btc: market("btc", 1_699_999_200),
        sol: market("solana", 1_699_999_200),
        xrp: market("xrp", 1_699_999_200),
    };
    let mut monitor = MarketMonitor::new(set);
    assert_eq!(monitor.get_current_market_timestamp(), 1_699_999_200);
    let btc_up = format!("tok_btc_up_{}", 1_699_999_200u64);
    monitor.record_quote(btc_up, Some(440_000), Some(450_000));
    let snap = monitor.make_snapshot(1_699_999_201);
    assert_eq!(snap.period_timestamp, 1_699_999_200);
    assert_eq!(snap.time_remaining_seconds, 899);
    assert_eq!(snap.btc.up_price.bid, Some(440_000));
    assert_eq!(snap.btc.up_price.ask, Some(450_000));
    assert_eq!(snap.btc.down_price.bid, None);
    // After the period ends the snapshot reports zero seconds left.
    let over = monitor.make_snapshot(1_700_000_200);
    assert_eq!(over.time_remaining_seconds, 0);
    // Swapping the market set clears the quote cache.
    monitor.update_markets(
        market("eth", 1_700_000_100),
        market("btc", 1_700_000_100),
        market("solana", 1_700_000_100),
        market("xrp", 1_700_000_100),
    );
    let fresh = monitor.make_snapshot(1_700_000_101);
    assert_eq!(fresh.period_timestamp, 1_700_000_100);
    assert_eq!(fresh.btc.up_price.ask, None);
    let (eth_id, btc_id) = monitor.get_current_condition_ids();
    assert_eq!(eth_id, format!("0xcond_eth_{}", 1_700_000_100u64));
    assert_eq!(btc_id, format!("0xcond_btc_{}", 1_700_000_100u64));
}
