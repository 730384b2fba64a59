//! Exact fixed-point arithmetic for prices, share counts and dollar amounts.
//!
//! Prices and share counts carry six decimal places and are held in
//! micro-units (`1_000_000` micro-units per whole unit). Dollar amounts that
//! arise as `price * size` products are held in pico-dollars, so the product
//! of two six-decimal values is represented exactly and no comparison or
//! profit-and-loss computation ever rounds.

use vstd::prelude::*;
use vstd::arithmetic::mul::lemma_mul_upper_bound;

verus! {

/// Micro-units per whole unit: prices and share counts carry six decimals.
pub const MICRO: u64 = 1_000_000;

/// Largest admissible price: $1.000000 per share, in micro-dollars.
pub const PRICE_MAX: u64 = 1_000_000;

/// Largest order size the engine handles: one million shares, in
/// micro-shares.
pub const SIZE_MAX: u64 = 1_000_000_000_000;

/// Largest per-order dollar budget: one million dollars, in micro-dollars.
pub const AMOUNT_MAX: u64 = 1_000_000_000_000;

/// Largest pico-dollar amount a single position can represent:
/// `PRICE_MAX * SIZE_MAX`.
pub const COST_MAX: u64 = 1_000_000_000_000_000_000;

/// A top-of-book quote or order price lies in `[0, 1]` dollars.
pub open spec fn quote_ok(p: u64) -> bool {
    p <= PRICE_MAX
}

/// An order size the engine accepts.
pub open spec fn size_ok(s: u64) -> bool {
    s <= SIZE_MAX
}

/// Cost of `size` micro-shares at `price` micro-dollars per share, in
/// pico-dollars. Exact: no rounding.
pub open spec fn spec_cost(price: u64, size: u64) -> int {
    price * size
}

/// Exact cost in pico-dollars of `size` micro-shares at `price`
/// micro-dollars per share.
pub fn cost_pico(price: u64, size: u64) -> (c: u64)
    requires
        quote_ok(price),
        size_ok(size),
    ensures
        c == spec_cost(price, size),
        c <= COST_MAX,
{
    proof {
        lemma_mul_upper_bound(price as int, PRICE_MAX as int, size as int, SIZE_MAX as int);
    }
    price * size
}

/// Pico-dollars paid out by `size` micro-shares that each redeem for one
/// dollar: `size * MICRO`, exact.
pub open spec fn spec_payout(size: u64) -> int {
    size * MICRO
}

/// Redemption value in pico-dollars of `size` winning micro-shares.
pub fn payout_pico(size: u64) -> (v: u64)
    requires
        size_ok(size),
    ensures
        v == spec_payout(size),
        v <= COST_MAX,
{
    proof {
        lemma_mul_upper_bound(size as int, SIZE_MAX as int, MICRO as int, MICRO as int);
    }
    size * MICRO
}

/// Share count bought for `amount` micro-dollars at `price` micro-dollars
/// per share, rounded to six decimals (nearest, ties up): the spec value is
/// `(2 * amount * MICRO + price) / (2 * price)` with flooring division.
pub open spec fn spec_shares_for_amount(amount: u64, price: u64) -> int
    recommends
        price > 0,
{
    (2 * amount * MICRO + price) / (2 * price)
}

/// Micro-shares bought for `amount` micro-dollars at `price` micro-dollars
/// per share, rounded to six decimals.
pub fn shares_for_amount(amount: u64, price: u64) -> (s: u64)
    requires
        0 < price <= PRICE_MAX,
        amount <= AMOUNT_MAX,
    ensures
        s == spec_shares_for_amount(amount, price),
{
    proof {
        lemma_mul_upper_bound(amount as int, AMOUNT_MAX as int, MICRO as int, MICRO as int);
    }
    let numerator: u64 = 2 * (amount * MICRO) + price;
    numerator / (2 * price)
}

/// Mid-point of a bid and an ask in micro-dollars, rounded down to the
/// micro-dollar.
pub open spec fn spec_mid(bid: u64, ask: u64) -> int {
    (bid + ask) / 2
}

/// Mid-point of a bid and an ask, in micro-dollars, rounded down to the
/// micro-dollar.
pub fn mid_price(bid: u64, ask: u64) -> (m: u64)
    requires
        quote_ok(bid),
        quote_ok(ask),
    ensures
        m == spec_mid(bid, ask),
        quote_ok(m),
{
    (bid + ask) / 2
}

} // verus!
