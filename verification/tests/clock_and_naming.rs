//! The period calculator, the naming conventions, the fixed-point
//! arithmetic, and the decimal bridge.

use updown_engine::clock::{current_period, period_start, time_remaining, time_remaining_at};
use updown_engine::decimal::{price_from_decimal, price_micros_from_parts};
use updown_engine::discovery::enabled_markets_label;
use updown_engine::money::{cost_pico, mid_price, payout_pico, shares_for_amount};
use updown_engine::scheduler::{plan_wakeup, SchedulerAction};
use updown_engine::slug::{is_dummy_id, market_file_name, slug_for};

#[test]
fn period_floor_of_example_time() {
    // 1_700_000_000 is 800 seconds past the boundary 1_699_999_200.
    assert_eq!(period_start(1_700_000_000), 1_699_999_200);
    assert_eq!(time_remaining(1_700_000_000), 100);
    assert_eq!(period_start(1_699_999_200), 1_699_999_200);
    assert_eq!(time_remaining(1_699_999_200), 900);
}

#[test]
fn period_of_clock_reading() {
    assert_eq!(current_period(1_700_000_000), Some(1_699_999_200));
    assert_eq!(current_period(0), Some(0));
    assert_eq!(current_period(-5), None);
}

#[test]
fn time_remaining_clamps_to_zero_after_close() {
    assert_eq!(time_remaining_at(1_699_999_200, 1_699_999_200), 900);
    assert_eq!(time_remaining_at(1_699_999_200, 1_699_999_800), 300);
    assert_eq!(time_remaining_at(1_699_999_200, 1_700_000_100), 0);
    assert_eq!(time_remaining_at(1_699_999_200, 1_700_900_000), 0);
}

#[test]
fn slug_of_period() {
    assert_eq!(slug_for("btc", 1_699_999_200), "btc-updown-15m-1699999200");
    assert_eq!(slug_for("solana", 900), "solana-updown-15m-900");
    assert_eq!(slug_for("eth", 0), "eth-updown-15m-0");
}

#[test]
fn dummy_condition_ids() {
    assert!(is_dummy_id("dummy_eth_fallback"));
    assert!(is_dummy_id("dummy_solana_fallback"));
    assert!(!is_dummy_id("0xabcdef0123456789"));
    assert!(!is_dummy_id("dumm"));
}

#[test]
fn market_history_file_names() {
    assert_eq!(
        market_file_name("0xabcdef012345678999", 1_699_999_200),
        Some("history/market_0xabcdef01234567_1699999200.toml".to_string())
    );
    // Placeholder markets log only to the main file.
    assert_eq!(market_file_name("dummy_eth_fallback", 1_699_999_200), None);
    // A condition id too short for the sixteen-character prefix gets none.
    assert_eq!(market_file_name("0xshort", 1_699_999_200), None);
}

#[test]
fn enabled_markets_labels() {
    assert_eq!(enabled_markets_label(true, true, true), "ETH, Solana, XRP");
    assert_eq!(enabled_markets_label(true, false, true), "ETH, XRP");
    assert_eq!(enabled_markets_label(false, true, false), "Solana");
    assert_eq!(enabled_markets_label(false, false, false), "no additional");
}

#[test]
fn exact_costs_and_payouts() {
    // $0.44 * 10 shares = $4.40, in pico-dollars.
    assert_eq!(cost_pico(440_000, 10_000_000), 4_400_000_000_000);
    // 22.222222 winning shares redeem for $22.222222.
    assert_eq!(payout_pico(22_222_222), 22_222_222_000_000);
    assert_eq!(mid_price(440_000, 450_000), 445_000);
}

#[test]
fn share_sizing_from_budget() {
    // $10.00 at $0.45 per share buys 22.222222 shares (six decimals).
    assert_eq!(shares_for_amount(10_000_000, 450_000), 22_222_222);
    // $9.00 at $0.45 divides exactly.
    assert_eq!(shares_for_amount(9_000_000, 450_000), 20_000_000);
}

#[test]
fn decimal_parts_to_micro_prices() {
    // 0.45 as mantissa 45, scale 2.
    assert_eq!(price_micros_from_parts(45, 2), Some(450_000));
    // 0.450000000 with trailing zeroes in the mantissa.
    assert_eq!(price_micros_from_parts(450_000_000, 9), Some(450_000));
    // One dollar exactly, and just above it.
    assert_eq!(price_micros_from_parts(1, 0), Some(1_000_000));
    assert_eq!(price_micros_from_parts(1_000_001, 6), None);
    // More than six decimal places.
    assert_eq!(price_micros_from_parts(4_500_001, 7), None);
    // Negative prices are not prices.
    assert_eq!(price_micros_from_parts(-45, 2), None);
    assert_eq!(price_micros_from_parts(0, 5), Some(0));
}

#[test]
fn decimal_quotes_to_micro_prices() {
    assert_eq!(price_from_decimal(&rust_decimal::Decimal::new(45, 2)), Some(450_000));
    assert_eq!(price_from_decimal(&rust_decimal::Decimal::new(123_456, 6)), Some(123_456));
    assert_eq!(price_from_decimal(&rust_decimal::Decimal::new(2, 0)), None);
    assert_eq!(price_from_decimal(&rust_decimal::Decimal::new(-1, 1)), None);
    assert_eq!(price_from_decimal(&rust_decimal::Decimal::new(4_500_001, 7)), None);
}

#[test]
fn scheduler_wakeup_rule() {
    // Monitor agrees with the clock: sleep until the next boundary.
    assert_eq!(
        plan_wakeup(1_700_000_000, 1_699_999_200),
        SchedulerAction::DiscoverAfter(100)
    );
    // Monitor period unset: treated as agreement.
    assert_eq!(plan_wakeup(1_700_000_000, 0), SchedulerAction::DiscoverAfter(100));
    // Monitor lags a period behind: discover immediately.
    assert_eq!(
        plan_wakeup(1_700_000_000, 1_699_998_300),
        SchedulerAction::DiscoverAfter(0)
    );
}
