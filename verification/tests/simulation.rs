//! The simulation tracker: fills against observed quotes, position
//! creation, sell fills, market resolution and the running totals.

use updown_engine::market::{TokenPrice, TokenType};
use updown_engine::prices::PriceBook;
use updown_engine::sim::{PendingStatus, Side, SimulationTracker};
use updown_engine::trader::{build_opportunities, place_opportunities};

const PERIOD: u64 = 1_699_999_200;

fn buy(tracker: &mut SimulationTracker, token: &str, price: u64, size: u64) {
    tracker.add_limit_order(
        token.to_string(),
        TokenType::BtcUp,
        "0xcond_btc".to_string(),
        price,
        size,
        Side::Buy,
        PERIOD,
        PERIOD,
    );
}

fn book(entries: &[(&str, Option<u64>, Option<u64>)]) -> PriceBook {
    let mut b = PriceBook::new();
    for (token, bid, ask) in entries {
        b.record(token.to_string(), TokenPrice { bid: *bid, ask: *ask });
    }
    b
}

#[test]
fn buy_fills_at_observed_ask() {
    // Place BUY at $0.45 size 10; the next tick reports ask $0.44.
    let mut t = SimulationTracker::new();
    buy(&mut t, "tok_btc_up", 450_000, 10_000_000);
    assert_eq!(t.get_pending_order_count(), 1);
    t.check_limit_orders(&book(&[("tok_btc_up", Some(430_000), Some(440_000))]), PERIOD + 60);
    assert_eq!(t.get_pending_order_count(), 0);
    assert!(t.has_position("tok_btc_up"));
    let positions = t.get_all_positions();
    assert_eq!(positions.len(), 1);
    assert_eq!(positions[0].purchase_price, 440_000);
    assert_eq!(positions[0].units, 10_000_000);
    // investment = $0.44 * 10 = $4.40, exactly, in pico-dollars.
    assert_eq!(positions[0].investment_amount, 4_400_000_000_000);
    let (invested, earned, realized) = t.get_total_spending_and_earnings();
    assert_eq!(invested, 4_400_000_000_000);
    assert_eq!(realized, 0);
    assert_eq!(earned, 4_400_000_000_000);
}

#[test]
fn buy_does_not_fill_above_target_or_at_zero() {
    let mut t = SimulationTracker::new();
    buy(&mut t, "tok_btc_up", 450_000, 10_000_000);
    // Ask above the target: no fill.
    t.check_limit_orders(&book(&[("tok_btc_up", None, Some(460_000))]), PERIOD + 1);
    assert_eq!(t.get_pending_order_count(), 1);
    // Ask of zero: no fill.
    t.check_limit_orders(&book(&[("tok_btc_up", None, Some(0))]), PERIOD + 2);
    assert_eq!(t.get_pending_order_count(), 1);
    // No quote at all: no fill.
    t.check_limit_orders(&book(&[]), PERIOD + 3);
    assert_eq!(t.get_pending_order_count(), 1);
    // Ask exactly at the target fills.
    t.check_limit_orders(&book(&[("tok_btc_up", None, Some(450_000))]), PERIOD + 4);
    assert_eq!(t.get_pending_order_count(), 0);
    assert_eq!(t.get_all_positions()[0].purchase_price, 450_000);
}

#[test]
fn filled_orders_never_revert() {
    let mut t = SimulationTracker::new();
    buy(&mut t, "tok_btc_up", 450_000, 10_000_000);
    t.check_limit_orders(&book(&[("tok_btc_up", None, Some(440_000))]), PERIOD + 1);
    assert_eq!(t.get_pending_order_count(), 0);
    // Later ticks, with or without quotes, leave the order filled and the
    // totals unchanged.
    t.check_limit_orders(&book(&[("tok_btc_up", None, Some(400_000))]), PERIOD + 2);
    t.check_limit_orders(&book(&[]), PERIOD + 3);
    assert_eq!(t.get_pending_order_count(), 0);
    let (invested, _, _) = t.get_total_spending_and_earnings();
    assert_eq!(invested, 4_400_000_000_000);
    assert_eq!(t.get_all_positions().len(), 1);
}

#[test]
fn sell_fills_at_observed_bid_and_realizes_pnl() {
    let mut t = SimulationTracker::new();
    buy(&mut t, "tok_btc_up", 450_000, 10_000_000);
    t.check_limit_orders(&book(&[("tok_btc_up", None, Some(440_000))]), PERIOD + 1);
    t.set_position_sell_price("tok_btc_up", 500_000);
    t.add_limit_order(
        "tok_btc_up".to_string(),
        TokenType::BtcUp,
        "0xcond_btc".to_string(),
        500_000,
        10_000_000,
        Side::Sell,
        PERIOD,
        PERIOD + 2,
    );
    // Bid below the target: the sell rests.
    t.check_limit_orders(&book(&[("tok_btc_up", Some(490_000), None)]), PERIOD + 3);
    assert_eq!(t.get_pending_order_count(), 1);
    // Bid above the target: the sell fills at the bid.
    t.check_limit_orders(&book(&[("tok_btc_up", Some(510_000), None)]), PERIOD + 4);
    assert_eq!(t.get_pending_order_count(), 0);
    assert_eq!(t.get_all_positions().len(), 0);
    let (invested, earned, realized) = t.get_total_spending_and_earnings();
    // Realized = ($0.51 - $0.44) * 10 = $0.70.
    assert_eq!(realized, 700_000_000_000);
    assert_eq!(invested, 4_400_000_000_000);
    assert_eq!(earned, 5_100_000_000_000);
}

#[test]
fn resolution_win_credits_one_dollar_per_share() {
    // A $10.00 budget at $0.45 buys 22.222222 shares; the market
    // resolves up, so the position redeems at $1.00 per share.
    let mut t = SimulationTracker::new();
    buy(&mut t, "tok_btc_up", 450_000, 22_222_222);
    t.check_limit_orders(&book(&[("tok_btc_up", None, Some(450_000))]), PERIOD + 1);
    let (spent, earned, net) = t.resolve_market_positions("0xcond_btc", true, PERIOD + 900);
    // investment = $0.45 * 22.222222 = $9.9999999; redeemed $22.222222.
    assert_eq!(spent, 9_999_999_900_000);
    assert_eq!(earned, 22_222_222_000_000);
    assert_eq!(net, 12_222_222_100_000);
    let (_, _, realized) = t.get_total_spending_and_earnings();
    assert_eq!(realized, 12_222_222_100_000);
    // The position is settled at $1.00 per share.
    assert_eq!(t.get_all_positions().len(), 0);
    assert!(t.has_position("tok_btc_up"));
}

#[test]
fn resolution_loss_forfeits_the_investment() {
    let mut t = SimulationTracker::new();
    buy(&mut t, "tok_btc_up", 450_000, 22_222_222);
    t.check_limit_orders(&book(&[("tok_btc_up", None, Some(450_000))]), PERIOD + 1);
    // A position on Up loses when the market resolves down.
    let (spent, earned, net) = t.resolve_market_positions("0xcond_btc", false, PERIOD + 900);
    assert_eq!(spent, 9_999_999_900_000);
    assert_eq!(earned, 0);
    assert_eq!(net, -9_999_999_900_000);
    let (_, _, realized) = t.get_total_spending_and_earnings();
    assert_eq!(realized, -9_999_999_900_000);
}

#[test]
fn resolution_conserves_pnl_over_mixed_positions() {
    // Two positions on the same market, one on each side: after the
    // market resolves, the change in realized profit-and-loss equals the
    // sum over its positions of final value minus investment.
    let mut t = SimulationTracker::new();
    buy(&mut t, "tok_btc_up", 450_000, 10_000_000);
    t.add_limit_order(
        "tok_btc_down".to_string(),
        TokenType::BtcDown,
        "0xcond_btc".to_string(),
        450_000,
        10_000_000,
        Side::Buy,
        PERIOD,
        PERIOD,
    );
    t.check_limit_orders(
        &book(&[
            ("tok_btc_up", None, Some(440_000)),
            ("tok_btc_down", None, Some(430_000)),
        ]),
        PERIOD + 1,
    );
    let (_, _, before) = t.get_total_spending_and_earnings();
    assert_eq!(before, 0);
    let (spent, earned, net) = t.resolve_market_positions("0xcond_btc", true, PERIOD + 900);
    // spent = $4.40 + $4.30; earned = $10.00 (the Up side redeems).
    assert_eq!(spent, 8_700_000_000_000);
    assert_eq!(earned, 10_000_000_000_000);
    assert_eq!(net, 1_300_000_000_000);
    let (_, _, after) = t.get_total_spending_and_earnings();
    assert_eq!(after - before, net);
    // A second resolution pass finds nothing open and changes nothing.
    let (s2, e2, n2) = t.resolve_market_positions("0xcond_btc", true, PERIOD + 901);
    assert_eq!((s2, e2, n2), (0, 0, 0));
}

#[test]
fn resolution_touches_only_its_market() {
    let mut t = SimulationTracker::new();
    buy(&mut t, "tok_btc_up", 450_000, 10_000_000);
    t.add_limit_order(
        "tok_eth_up".to_string(),
        TokenType::EthUp,
        "0xcond_eth".to_string(),
        450_000,
        10_000_000,
        Side::Buy,
        PERIOD,
        PERIOD,
    );
    t.check_limit_orders(
        &book(&[("tok_btc_up", None, Some(440_000)), ("tok_eth_up", None, Some(440_000))]),
        PERIOD + 1,
    );
    t.resolve_market_positions("0xcond_btc", true, PERIOD + 900);
    let open = t.get_all_positions();
    assert_eq!(open.len(), 1);
    assert_eq!(open[0].token_id, "tok_eth_up");
}

#[test]
fn placement_deduplicates_against_open_positions() {
    // An open position of the same token type and period suppresses a
    // second buy; a fresh token still rests.
    let mut t = SimulationTracker::new();
    buy(&mut t, "tok_btc_up", 450_000, 10_000_000);
    t.check_limit_orders(&book(&[("tok_btc_up", None, Some(440_000))]), PERIOD + 1);
    let cfg = updown_engine::trader::EngineConfig {
        limit_price: 450_000,
        shares_override: Some(10_000_000),
        fixed_trade_amount: 0,
        enable_eth: false,
        enable_solana: false,
        enable_xrp: false,
        check_interval_ms: 500,
        market_closure_check_interval_seconds: 5,
    };
    let mut snap_market = updown_engine::market::Market {
        condition_id: "0xcond_btc".to_string(),
        slug: format!("btc-updown-15m-{PERIOD}"),
        active: true,
        closed: false,
        up_token_id: Some("tok_btc_up".to_string()),
        down_token_id: Some("tok_btc_down".to_string()),
        period_timestamp: PERIOD,
    };
    let view = |m: &updown_engine::market::Market| updown_engine::trader::MarketView {
        market: m.clone(),
        up_price: TokenPrice { bid: None, ask: None },
        down_price: TokenPrice { bid: None, ask: None },
    };
    snap_market.period_timestamp = PERIOD;
    let snap = updown_engine::trader::PeriodSnapshot {
        period_timestamp: PERIOD,
        time_remaining_seconds: 900,
        eth: view(&snap_market),
        btc: view(&snap_market),
        sol: view(&snap_market),
        xrp: view(&snap_market),
    };
    let opps = build_opportunities(&snap, &cfg, 0);
    assert_eq!(opps.len(), 2);
    place_opportunities(&mut t, &opps, cfg.order_size(), PERIOD + 2);
    // The Up buy was suppressed by the open position; the Down buy rests.
    let pending = t.get_pending_order_token_ids();
    assert_eq!(pending, vec!["tok_btc_down".to_string()]);
}

#[test]
fn period_reset_archives_stale_unfilled_orders() {
    let mut t = SimulationTracker::new();
    buy(&mut t, "tok_btc_up", 450_000, 10_000_000);
    t.add_limit_order(
        "tok_btc_down".to_string(),
        TokenType::BtcDown,
        "0xcond_btc".to_string(),
        450_000,
        10_000_000,
        Side::Buy,
        PERIOD,
        PERIOD,
    );
    // The Up order fills; the Down order stays pending into the rollover.
    t.check_limit_orders(&book(&[("tok_btc_up", None, Some(440_000))]), PERIOD + 1);
    let expired = t.reset_period(PERIOD + 900);
    assert_eq!(expired.len(), 1);
    assert_eq!(expired[0].token_id, "tok_btc_down");
    assert!(!expired[0].filled);
    assert_eq!(t.get_pending_order_count(), 0);
    // Positions survive the rollover.
    assert_eq!(t.get_all_positions().len(), 1);
}

#[test]
fn unrealized_pnl_from_mid_price() {
    let mut t = SimulationTracker::new();
    buy(&mut t, "tok_btc_up", 450_000, 10_000_000);
    t.check_limit_orders(&book(&[("tok_btc_up", None, Some(440_000))]), PERIOD + 1);
    // Mid of (0.50, 0.52) is 0.51: unrealized = (0.51 - 0.44) * 10 = $0.70.
    let b = book(&[("tok_btc_up", Some(500_000), Some(520_000))]);
    assert_eq!(t.calculate_unrealized_pnl(&b), 700_000_000_000);
    // A one-sided book contributes nothing.
    let one_sided = book(&[("tok_btc_up", Some(500_000), None)]);
    assert_eq!(t.calculate_unrealized_pnl(&one_sided), 0);
    let summary = t.get_position_summary(&b);
    assert_eq!(summary.total_invested, 4_400_000_000_000);
    assert_eq!(summary.realized_pnl, 0);
    assert_eq!(summary.unrealized_pnl, 700_000_000_000);
    assert_eq!(summary.total_pnl, 700_000_000_000);
    assert_eq!(summary.open_positions, 1);
    assert_eq!(summary.rows.len(), 1);
    assert_eq!(summary.rows[0].current_price, 510_000);
    assert_eq!(summary.rows[0].units, 10_000_000);
}

#[test]
fn pending_report_statuses() {
    let mut t = SimulationTracker::new();
    buy(&mut t, "tok_a", 450_000, 10_000_000);
    buy(&mut t, "tok_b", 450_000, 10_000_000);
    buy(&mut t, "tok_c", 450_000, 10_000_000);
    buy(&mut t, "tok_d", 450_000, 10_000_000);
    let b = book(&[
        // Within one ten-thousandth above the target: ready.
        ("tok_a", None, Some(450_100)),
        ("tok_b", None, Some(460_000)),
        ("tok_c", None, Some(0)),
        ("tok_d", Some(440_000), None),
    ]);
    let report = t.pending_orders_report(&b);
    assert_eq!(report.len(), 4);
    assert_eq!(report[0].status, PendingStatus::Ready);
    assert_eq!(report[0].current_price, 450_100);
    assert_eq!(report[1].status, PendingStatus::Waiting);
    assert_eq!(report[2].status, PendingStatus::ZeroPrice);
    assert_eq!(report[3].status, PendingStatus::NoSideQuote);
    t.add_limit_order(
        "tok_e".to_string(),
        TokenType::EthUp,
        "0xcond_eth".to_string(),
        450_000,
        10_000_000,
        Side::Buy,
        PERIOD,
        PERIOD,
    );
    let report2 = t.pending_orders_report(&b);
    assert_eq!(report2[4].status, PendingStatus::NoQuote);
}

#[test]
fn replacing_a_pending_order_keeps_one_per_key() {
    let mut t = SimulationTracker::new();
    buy(&mut t, "tok_btc_up", 450_000, 10_000_000);
    buy(&mut t, "tok_btc_up", 400_000, 20_000_000);
    assert_eq!(t.get_pending_order_count(), 1);
    // The later order replaced the earlier one: it no longer fills at 0.44.
    t.check_limit_orders(&book(&[("tok_btc_up", None, Some(440_000))]), PERIOD + 1);
    assert_eq!(t.get_pending_order_count(), 1);
    t.check_limit_orders(&book(&[("tok_btc_up", None, Some(400_000))]), PERIOD + 2);
    assert_eq!(t.get_pending_order_count(), 0);
    assert_eq!(t.get_all_positions()[0].units, 20_000_000);
}
