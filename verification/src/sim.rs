//! The simulation order and position tracker: resting limit orders, fills
//! against observed top-of-book quotes, open positions, market resolution,
//! and running profit-and-loss totals.
//!
//! Prices and sizes are micro-units; dollar amounts are pico-dollars
//! (`price * size` exactly), so nothing here rounds.

use vstd::prelude::*;
use crate::market::{TokenType, TokenSide, str_eq};
use crate::money::{quote_ok, size_ok, spec_cost, spec_payout, cost_pico, payout_pico, COST_MAX,
    PRICE_MAX, SIZE_MAX, MICRO, spec_mid, mid_price};
use vstd::arithmetic::mul::{lemma_mul_upper_bound, lemma_mul_nonnegative};
use crate::prices::PriceBook;

verus! {

/// The side of a resting limit order.
#[derive(Clone, Copy, Debug, PartialEq, Eq, Structural)]
pub enum Side {
    Buy,
    Sell,
}

/// A resting limit order in simulation. At most one order per
/// `(token_id, side)` key is pending at a time.
#[derive(Debug)]
pub struct SimulatedLimitOrder {
    pub token_id: String,
    pub token_type: TokenType,
    pub condition_id: String,
    pub side: Side,
    /// Limit price in micro-dollars per share.
    pub target_price: u64,
    /// Order size in micro-shares.
    pub size: u64,
    pub period_timestamp: u64,
    /// Unix second at which the order was created.
    pub created_at: u64,
    pub filled: bool,
}

impl SimulatedLimitOrder {
    pub open spec fn wf(self) -> bool {
        quote_ok(self.target_price) && size_ok(self.size)
    }
}

impl Clone for SimulatedLimitOrder {
    fn clone(&self) -> (r: Self)
        ensures
            r == *self,
    {
        SimulatedLimitOrder {
            token_id: self.token_id.clone(),
            token_type: self.token_type,
            condition_id: self.condition_id.clone(),
            side: self.side,
            target_price: self.target_price,
            size: self.size,
            period_timestamp: self.period_timestamp,
            created_at: self.created_at,
            filled: self.filled,
        }
    }
}

/// An open or settled position in simulation, keyed by token id.
#[derive(Debug)]
pub struct SimulatedPosition {
    pub token_id: String,
    pub token_type: TokenType,
    pub condition_id: String,
    /// Fill price in micro-dollars per share.
    pub purchase_price: u64,
    /// Held size in micro-shares.
    pub units: u64,
    /// `purchase_price * units`, in pico-dollars; exact.
    pub investment_amount: u64,
    /// Target price of a resting sell, when one was placed.
    pub sell_price: Option<u64>,
    pub period_timestamp: u64,
    /// Unix second of the purchase fill.
    pub purchased_at: u64,
    pub sold: bool,
    /// Micro-dollars per share actually received when the position closed:
    /// a sell fill price, or 1.0 / 0.0 dollars at market resolution.
    pub sell_price_actual: Option<u64>,
    pub sell_timestamp: Option<u64>,
}

impl SimulatedPosition {
    pub open spec fn wf(self) -> bool {
        &&& quote_ok(self.purchase_price)
        &&& size_ok(self.units)
        &&& self.investment_amount == spec_cost(self.purchase_price, self.units)
        &&& (self.sell_price_actual is Some ==> quote_ok(self.sell_price_actual->0))
    }
}

impl Clone for SimulatedPosition {
    fn clone(&self) -> (r: Self)
        ensures
            r == *self,
    {
        SimulatedPosition {
            token_id: self.token_id.clone(),
            token_type: self.token_type,
            condition_id: self.condition_id.clone(),
            purchase_price: self.purchase_price,
            units: self.units,
            investment_amount: self.investment_amount,
            sell_price: self.sell_price,
            period_timestamp: self.period_timestamp,
            purchased_at: self.purchased_at,
            sold: self.sold,
            sell_price_actual: self.sell_price_actual,
            sell_timestamp: self.sell_timestamp,
        }
    }
}

/// The abstract state of the tracker.
#[verifier::ext_equal]
pub ghost struct TrackerView {
    pub orders: Seq<SimulatedLimitOrder>,
    pub positions: Seq<SimulatedPosition>,
    /// Total pico-dollars spent on buy fills.
    pub invested: int,
    /// Total realized profit and loss, in pico-dollars.
    pub realized_pnl: int,
}

/// Tracker of simulated orders, positions and profit-and-loss.
#[derive(Debug)]
pub struct SimulationTracker {
    pub orders: Vec<SimulatedLimitOrder>,
    pub positions: Vec<SimulatedPosition>,
    pub total_invested: i128,
    pub total_realized_pnl: i128,
}

impl View for SimulationTracker {
    type V = TrackerView;

    open spec fn view(&self) -> TrackerView {
        TrackerView {
            orders: self.orders@,
            positions: self.positions@,
            invested: self.total_invested as int,
            realized_pnl: self.total_realized_pnl as int,
        }
    }
}

/// Whether the order list holds an order keyed `(id, side)`.
pub open spec fn spec_has_order(os: Seq<SimulatedLimitOrder>, id: Seq<char>, side: Side) -> bool {
    exists|j: int| 0 <= j < os.len() && os[j].token_id@ == id && os[j].side == side
}

/// The index of the order keyed `(id, side)` (unique under well-formedness).
pub open spec fn spec_order_index(os: Seq<SimulatedLimitOrder>, id: Seq<char>, side: Side) -> int {
    choose|j: int| 0 <= j < os.len() && os[j].token_id@ == id && os[j].side == side
}

/// Whether the position list holds a position for `id`.
pub open spec fn spec_has_position(ps: Seq<SimulatedPosition>, id: Seq<char>) -> bool {
    exists|j: int| 0 <= j < ps.len() && ps[j].token_id@ == id
}

/// The index of the position for `id` (unique under well-formedness).
pub open spec fn spec_position_index(ps: Seq<SimulatedPosition>, id: Seq<char>) -> int {
    choose|j: int| 0 <= j < ps.len() && ps[j].token_id@ == id
}

/// Whether an open position of this token type exists for the period.
pub open spec fn spec_has_active_position(
    ps: Seq<SimulatedPosition>,
    period_timestamp: u64,
    token_type: TokenType,
) -> bool {
    exists|j: int|
        0 <= j < ps.len() && !(#[trigger] ps[j]).sold && ps[j].token_type == token_type
            && ps[j].period_timestamp == period_timestamp
}

/// Well-formedness of the abstract tracker state: every order and position
/// is in range, order keys and position token ids are unique, and the
/// invested total is nonnegative.
pub open spec fn spec_tracker_wf(t: TrackerView) -> bool {
    &&& forall|i: int| 0 <= i < t.orders.len() ==> (#[trigger] t.orders[i]).wf()
    &&& forall|i: int, j: int|
        0 <= i < j < t.orders.len() ==> !(t.orders[i].token_id@ == t.orders[j].token_id@
            && t.orders[i].side == t.orders[j].side)
    &&& forall|i: int| 0 <= i < t.positions.len() ==> (#[trigger] t.positions[i]).wf()
    &&& forall|i: int, j: int|
        0 <= i < j < t.positions.len() ==> t.positions[i].token_id@ != t.positions[j].token_id@
    &&& t.invested >= 0
}

/// The order value stored by [`SimulationTracker::add_limit_order`].
pub open spec fn spec_new_order(
    token_id: String,
    token_type: TokenType,
    condition_id: String,
    target_price: u64,
    size: u64,
    side: Side,
    period_timestamp: u64,
    created_at: u64,
) -> SimulatedLimitOrder {
    SimulatedLimitOrder {
        token_id,
        token_type,
        condition_id,
        side,
        target_price,
        size,
        period_timestamp,
        created_at,
        filled: false,
    }
}

impl SimulationTracker {
    pub open spec fn wf(self) -> bool {
        spec_tracker_wf(self@)
    }

    /// A fresh tracker: no orders, no positions, zero totals.
    pub fn new() -> (t: SimulationTracker)
        ensures
            t.wf(),
            t@.orders.len() == 0,
            t@.positions.len() == 0,
            t@.invested == 0,
            t@.realized_pnl == 0,
    {
        SimulationTracker {
            orders: Vec::new(),
            positions: Vec::new(),
            total_invested: 0,
            total_realized_pnl: 0,
        }
    }

    /// The index of the pending order keyed `(token_id, side)`, if any.
    fn order_index(&self, token_id: &str, side: Side) -> (r: Option<usize>)
        requires
            self.wf(),
        ensures
            match r {
                Some(k) => 0 <= k < self@.orders.len() && self@.orders[k as int].token_id@
                    == token_id@ && self@.orders[k as int].side == side && spec_has_order(
                    self@.orders,
                    token_id@,
                    side,
                ) && k == spec_order_index(self@.orders, token_id@, side),
                None => !spec_has_order(self@.orders, token_id@, side),
            },
    {
        let mut i: usize = 0;
        while i < self.orders.len()
            invariant
                self.wf(),
                i <= self@.orders.len(),
                forall|j: int|
                    0 <= j < i ==> !(self@.orders[j].token_id@ == token_id@ && self@.orders[j].side
                        == side),
            decreases self@.orders.len() - i,
        {
            let same_side: bool = match (self.orders[i].side, side) {
                (Side::Buy, Side::Buy) => true,
                (Side::Sell, Side::Sell) => true,
                _ => false,
            };
            if same_side && str_eq(self.orders[i].token_id.as_str(), token_id) {
                proof {
                    assert(spec_has_order(self@.orders, token_id@, side));
                    let k = spec_order_index(self@.orders, token_id@, side);
                    assert(k == i);
                }
                return Some(i);
            }
            i = i + 1;
        }
        None
    }

    /// The index of the position for `token_id`, if any.
    fn position_index(&self, token_id: &str) -> (r: Option<usize>)
        requires
            forall|i: int, j: int|
                0 <= i < j < self@.positions.len() ==> self@.positions[i].token_id@
                    != self@.positions[j].token_id@,
        ensures
            match r {
                Some(k) => 0 <= k < self@.positions.len() && self@.positions[k as int].token_id@
                    == token_id@ && spec_has_position(self@.positions, token_id@) && k
                    == spec_position_index(self@.positions, token_id@),
                None => !spec_has_position(self@.positions, token_id@),
            },
    {
        let mut i: usize = 0;
        while i < self.positions.len()
            invariant
                forall|a: int, b: int|
                    0 <= a < b < self@.positions.len() ==> self@.positions[a].token_id@
                        != self@.positions[b].token_id@,
                i <= self@.positions.len(),
                forall|j: int| 0 <= j < i ==> self@.positions[j].token_id@ != token_id@,
            decreases self@.positions.len() - i,
        {
            if str_eq(self.positions[i].token_id.as_str(), token_id) {
                proof {
                    assert(spec_has_position(self@.positions, token_id@));
                    let k = spec_position_index(self@.positions, token_id@);
                    assert(k == i);
                }
                return Some(i);
            }
            i = i + 1;
        }
        None
    }

    /// Add a resting limit order, replacing any pending order with the same
    /// `(token_id, side)` key.
    pub fn add_limit_order(
        &mut self,
        token_id: String,
        token_type: TokenType,
        condition_id: String,
        target_price: u64,
        size: u64,
        side: Side,
        period_timestamp: u64,
        created_at: u64,
    )
        requires
            old(self).wf(),
            quote_ok(target_price),
            size_ok(size),
        ensures
            final(self).wf(),
            final(self)@.positions == old(self)@.positions,
            final(self)@.invested == old(self)@.invested,
            final(self)@.realized_pnl == old(self)@.realized_pnl,
            spec_has_order(old(self)@.orders, token_id@, side) ==> final(self)@.orders == old(
                self,
            )@.orders.update(
                spec_order_index(old(self)@.orders, token_id@, side),
                spec_new_order(
                    token_id,
                    token_type,
                    condition_id,
                    target_price,
                    size,
                    side,
                    period_timestamp,
                    created_at,
                ),
            ),
            !spec_has_order(old(self)@.orders, token_id@, side) ==> final(self)@.orders == old(
                self,
            )@.orders.push(
                spec_new_order(
                    token_id,
                    token_type,
                    condition_id,
                    target_price,
                    size,
                    side,
                    period_timestamp,
                    created_at,
                ),
            ),
            spec_has_order(final(self)@.orders, token_id@, side),
    {
        let found: Option<usize> = self.order_index(token_id.as_str(), side);
        let order = SimulatedLimitOrder {
            token_id,
            token_type,
            condition_id,
            side,
            target_price,
            size,
            period_timestamp,
            created_at,
            filled: false,
        };
        match found {
            Some(k) => {
                self.orders.set(k, order);
                proof {
                    let ghost os = self@.orders;
                    assert forall|i: int, j: int|
                        0 <= i < j < os.len() implies !(os[i].token_id@ == os[j].token_id@
                        && os[i].side == os[j].side) by {
                        if i != k && j != k {
                            assert(os[i] == old(self)@.orders[i]);
                            assert(os[j] == old(self)@.orders[j]);
                        }
                    }
                    assert(os[spec_order_index(old(self)@.orders, os[k as int].token_id@, side)]
                        == os[k as int]);
                }
            },
            None => {
                self.orders.push(order);
                proof {
                    let ghost os = self@.orders;
                    let ghost n = old(self)@.orders.len() as int;
                    assert forall|i: int, j: int|
                        0 <= i < j < os.len() implies !(os[i].token_id@ == os[j].token_id@
                        && os[i].side == os[j].side) by {
                        if j < n {
                            assert(os[i] == old(self)@.orders[i]);
                            assert(os[j] == old(self)@.orders[j]);
                        } else {
                            if i < n {
                                assert(os[i] == old(self)@.orders[i]);
                            }
                        }
                    }
                    assert(os[n].token_id@ == os[n].token_id@ && os[n].side == side);
                }
            },
        }
    }
}

/// The quote condition under which an order of these terms fills: a BUY
/// fills against an ask quote `a` with `0 < a <= target`; a SELL fills
/// against a bid quote `b` with `b > 0` and `b >= target`. Only the
/// order's terms matter, not whether it has already filled.
pub open spec fn spec_fillable(o: SimulatedLimitOrder, book: PriceBook) -> bool {
    match book.spec_quote(o.token_id@) {
        Some(tp) => match o.side {
            Side::Buy => tp.ask is Some && 0 < tp.ask->0 <= o.target_price,
            Side::Sell => tp.bid is Some && tp.bid->0 > 0 && tp.bid->0 >= o.target_price,
        },
        None => false,
    }
}

/// The fill rule of the simulation: an order fills when it is still
/// unfilled and the book meets its quote condition.
pub open spec fn spec_should_fill(o: SimulatedLimitOrder, book: PriceBook) -> bool {
    !o.filled && spec_fillable(o, book)
}

/// The observed quote at which a fillable order fills: the ask for a BUY,
/// the bid for a SELL.
pub open spec fn spec_fill_price(o: SimulatedLimitOrder, book: PriceBook) -> u64
    recommends
        spec_should_fill(o, book),
{
    match o.side {
        Side::Buy => book.spec_quote(o.token_id@)->0.ask->0,
        Side::Sell => book.spec_quote(o.token_id@)->0.bid->0,
    }
}

/// The order with its `filled` flag replaced.
pub open spec fn spec_set_filled(o: SimulatedLimitOrder, filled: bool) -> SimulatedLimitOrder {
    SimulatedLimitOrder { filled, ..o }
}

/// The order with its `filled` flag set.
pub open spec fn spec_mark_filled(o: SimulatedLimitOrder) -> SimulatedLimitOrder {
    SimulatedLimitOrder { filled: true, ..o }
}

/// The position created when a BUY order fills at `fill_price`.
pub open spec fn spec_position_of(
    o: SimulatedLimitOrder,
    fill_price: u64,
    now: u64,
) -> SimulatedPosition {
    SimulatedPosition {
        token_id: o.token_id,
        token_type: o.token_type,
        condition_id: o.condition_id,
        purchase_price: fill_price,
        units: o.size,
        investment_amount: spec_cost(fill_price, o.size) as u64,
        sell_price: None,
        period_timestamp: o.period_timestamp,
        purchased_at: now,
        sold: false,
        sell_price_actual: None,
        sell_timestamp: None,
    }
}

/// One step of the fill pass: if the order at index `i` fills, mark it
/// filled and apply its effect — a BUY creates (or replaces) the position
/// for its token and adds its cost to the invested total; a SELL closes
/// the open position for its token, crediting `fill * units - investment`
/// to realized profit-and-loss.
pub open spec fn spec_fill_one(t: TrackerView, book: PriceBook, now: u64, i: int) -> TrackerView
    recommends
        0 <= i < t.orders.len(),
{
    let o = t.orders[i];
    if spec_should_fill(o, book) {
        let fp = spec_fill_price(o, book);
        let orders2 = t.orders.update(i, spec_mark_filled(o));
        if o.side == Side::Buy {
            let pos = spec_position_of(o, fp, now);
            let positions2 = if spec_has_position(t.positions, o.token_id@) {
                t.positions.update(spec_position_index(t.positions, o.token_id@), pos)
            } else {
                t.positions.push(pos)
            };
            TrackerView {
                orders: orders2,
                positions: positions2,
                invested: t.invested + spec_cost(fp, o.size),
                realized_pnl: t.realized_pnl,
            }
        } else {
            if spec_has_position(t.positions, o.token_id@) && !t.positions[spec_position_index(
                t.positions,
                o.token_id@,
            )].sold {
                let j = spec_position_index(t.positions, o.token_id@);
                let p = t.positions[j];
                let p2 = SimulatedPosition {
                    sold: true,
                    sell_price_actual: Some(fp),
                    sell_timestamp: Some(now),
                    ..p
                };
                TrackerView {
                    orders: orders2,
                    positions: t.positions.update(j, p2),
                    invested: t.invested,
                    realized_pnl: t.realized_pnl + spec_cost(fp, p.units) - p.investment_amount,
                }
            } else {
                TrackerView {
                    orders: orders2,
                    positions: t.positions,
                    invested: t.invested,
                    realized_pnl: t.realized_pnl,
                }
            }
        }
    } else {
        t
    }
}

/// The fill pass applied to the first `n` orders, in list order.
pub open spec fn spec_after_fills(t: TrackerView, book: PriceBook, now: u64, n: int) -> TrackerView
    decreases n,
{
    if n <= 0 {
        t
    } else {
        spec_fill_one(spec_after_fills(t, book, now, n - 1), book, now, n - 1)
    }
}

/// One fill step preserves well-formedness, changes no order but the one
/// processed, and moves each running total by at most one order's cost.
proof fn lemma_fill_one_props(t: TrackerView, book: PriceBook, now: u64, i: int)
    requires
        spec_tracker_wf(t),
        book.wf(),
        0 <= i < t.orders.len(),
    ensures
        spec_tracker_wf(spec_fill_one(t, book, now, i)),
        spec_fill_one(t, book, now, i).orders.len() == t.orders.len(),
        forall|k: int|
            0 <= k < t.orders.len() && k != i ==> spec_fill_one(t, book, now, i).orders[k]
                == t.orders[k],
        spec_fill_one(t, book, now, i).orders[i] == (if spec_should_fill(t.orders[i], book) {
            spec_mark_filled(t.orders[i])
        } else {
            t.orders[i]
        }),
        t.invested <= spec_fill_one(t, book, now, i).invested <= t.invested + COST_MAX,
        t.realized_pnl - COST_MAX <= spec_fill_one(t, book, now, i).realized_pnl <= t.realized_pnl
            + COST_MAX,
{
    let o = t.orders[i];
    let r = spec_fill_one(t, book, now, i);
    if spec_should_fill(o, book) {
        let fp = spec_fill_price(o, book);
        assert(crate::prices::spec_has_quote(book.entries@, o.token_id@));
        let qk = crate::prices::spec_quote_index(book.entries@, o.token_id@);
        assert(book.entries@[qk].price.wf());
        assert(quote_ok(fp));
        assert(o.wf());
        lemma_mul_upper_bound(fp as int, PRICE_MAX as int, o.size as int, SIZE_MAX as int);
        lemma_mul_nonnegative(fp as int, o.size as int);
        assert forall|a: int, b: int|
            0 <= a < b < r.orders.len() implies !(r.orders[a].token_id@ == r.orders[b].token_id@
            && r.orders[a].side == r.orders[b].side) by {
            assert(!(t.orders[a].token_id@ == t.orders[b].token_id@ && t.orders[a].side
                == t.orders[b].side));
        }
        assert forall|a: int| 0 <= a < r.orders.len() implies (#[trigger] r.orders[a]).wf() by {
            assert(t.orders[a].wf());
        }
        if o.side == Side::Buy {
            let pos = spec_position_of(o, fp, now);
            assert(pos.wf());
            if spec_has_position(t.positions, o.token_id@) {
                let j = spec_position_index(t.positions, o.token_id@);
                assert(0 <= j < t.positions.len() && t.positions[j].token_id@ == o.token_id@);
                assert forall|a: int, b: int|
                    0 <= a < b < r.positions.len() implies r.positions[a].token_id@
                    != r.positions[b].token_id@ by {
                    assert(t.positions[a].token_id@ != t.positions[b].token_id@);
                }
            } else {
                assert forall|a: int, b: int|
                    0 <= a < b < r.positions.len() implies r.positions[a].token_id@
                    != r.positions[b].token_id@ by {
                    if b < t.positions.len() {
                        assert(t.positions[a].token_id@ != t.positions[b].token_id@);
                    } else {
                        assert(r.positions[b].token_id@ == o.token_id@);
                        assert(!spec_has_position(t.positions, o.token_id@));
                        assert(t.positions[a].token_id@ != o.token_id@);
                    }
                }
            }
            assert forall|a: int| 0 <= a < r.positions.len() implies (
            #[trigger] r.positions[a]).wf() by {
                if a < t.positions.len() {
                    assert(t.positions[a].wf());
                }
            }
        } else {
            if spec_has_position(t.positions, o.token_id@) && !t.positions[spec_position_index(
                t.positions,
                o.token_id@,
            )].sold {
                let j = spec_position_index(t.positions, o.token_id@);
                let p = t.positions[j];
                assert(p.wf());
                lemma_mul_upper_bound(fp as int, PRICE_MAX as int, p.units as int, SIZE_MAX as int);
                lemma_mul_nonnegative(fp as int, p.units as int);
                lemma_mul_upper_bound(
                    p.purchase_price as int,
                    PRICE_MAX as int,
                    p.units as int,
                    SIZE_MAX as int,
                );
                lemma_mul_nonnegative(p.purchase_price as int, p.units as int);
                assert forall|a: int, b: int|
                    0 <= a < b < r.positions.len() implies r.positions[a].token_id@
                    != r.positions[b].token_id@ by {
                    assert(t.positions[a].token_id@ != t.positions[b].token_id@);
                }
                assert forall|a: int| 0 <= a < r.positions.len() implies (
                #[trigger] r.positions[a]).wf() by {
                    assert(t.positions[a].wf());
                }
            }
        }
    }
}

/// The fill pass over a prefix preserves well-formedness, leaves
/// unprocessed orders untouched, rewrites each processed order to its
/// filled form exactly when the fill rule says so, and moves the running
/// totals by at most one order's cost per processed order.
pub proof fn lemma_after_fills_props(t0: TrackerView, book: PriceBook, now: u64, n: int)
    requires
        spec_tracker_wf(t0),
        book.wf(),
        0 <= n <= t0.orders.len(),
    ensures
        spec_tracker_wf(spec_after_fills(t0, book, now, n)),
        spec_after_fills(t0, book, now, n).orders.len() == t0.orders.len(),
        forall|k: int|
            n <= k < t0.orders.len() ==> spec_after_fills(t0, book, now, n).orders[k]
                == t0.orders[k],
        forall|k: int|
            0 <= k < n ==> spec_after_fills(t0, book, now, n).orders[k] == (if spec_should_fill(
                t0.orders[k],
                book,
            ) {
                spec_mark_filled(t0.orders[k])
            } else {
                t0.orders[k]
            }),
        t0.invested <= spec_after_fills(t0, book, now, n).invested <= t0.invested + n * (
        COST_MAX as int),
        t0.realized_pnl - n * (COST_MAX as int) <= spec_after_fills(t0, book, now, n).realized_pnl
            <= t0.realized_pnl + n * (COST_MAX as int),
    decreases n,
{
    if n > 0 {
        lemma_after_fills_props(t0, book, now, n - 1);
        let prev = spec_after_fills(t0, book, now, n - 1);
        assert(prev.orders[n - 1] == t0.orders[n - 1]);
        lemma_fill_one_props(prev, book, now, n - 1);
    }
}

impl SimulationTracker {
    /// Run the fill pass over every resting order against the current
    /// book. Exactly the orders the fill rule selects become filled; a BUY
    /// fill creates the position for its token at the observed ask and
    /// adds its exact cost to the invested total; a SELL fill closes the
    /// open position for its token at the observed bid and credits
    /// `fill * units - investment` to realized profit-and-loss. A filled
    /// order never reverts to unfilled.
    pub fn check_limit_orders(&mut self, book: &PriceBook, now: u64)
        requires
            old(self).wf(),
            book.wf(),
            old(self)@.invested + old(self)@.orders.len() * (COST_MAX as int) <= i128::MAX,
            old(self)@.realized_pnl + old(self)@.orders.len() * (COST_MAX as int) <= i128::MAX,
            old(self)@.realized_pnl - old(self)@.orders.len() * (COST_MAX as int) >= i128::MIN,
        ensures
            final(self)@ == spec_after_fills(
                old(self)@,
                *book,
                now,
                old(self)@.orders.len() as int,
            ),
            final(self).wf(),
            final(self)@.orders.len() == old(self)@.orders.len(),
            forall|i: int|
                0 <= i < old(self)@.orders.len() ==> ((#[trigger] final(self)@.orders[i]).filled
                    <==> (old(self)@.orders[i].filled || spec_should_fill(
                    old(self)@.orders[i],
                    *book,
                ))),
    {
        let ghost t0 = old(self)@;
        let n: usize = self.orders.len();
        let mut i: usize = 0;
        while i < n
            invariant
                spec_tracker_wf(t0),
                book.wf(),
                t0.invested + t0.orders.len() * (COST_MAX as int) <= i128::MAX,
                t0.realized_pnl + t0.orders.len() * (COST_MAX as int) <= i128::MAX,
                t0.realized_pnl - t0.orders.len() * (COST_MAX as int) >= i128::MIN,
                t0 == old(self)@,
                n == t0.orders.len(),
                i <= n,
                self@ == spec_after_fills(t0, *book, now, i as int),
            decreases n - i,
        {
            proof {
                lemma_after_fills_props(t0, *book, now, i as int);
            }
            let ghost pre = self@;
            let mut should: bool = false;
            let mut fp: u64 = 0;
            if !self.orders[i].filled {
                match book.lookup(self.orders[i].token_id.as_str()) {
                    Some(tp) => {
                        match self.orders[i].side {
                            Side::Buy => {
                                match tp.ask {
                                    Some(a) => {
                                        if 0 < a && a <= self.orders[i].target_price {
                                            should = true;
                                            fp = a;
                                        }
                                    },
                                    None => {},
                                }
                            },
                            Side::Sell => {
                                match tp.bid {
                                    Some(b) => {
                                        if 0 < b && b >= self.orders[i].target_price {
                                            should = true;
                                            fp = b;
                                        }
                                    },
                                    None => {},
                                }
                            },
                        }
                    },
                    None => {},
                }
            }
            proof {
                assert(should == spec_should_fill(pre.orders[i as int], *book));
                if should {
                    assert(fp == spec_fill_price(pre.orders[i as int], *book));
                }
            }
            if should {
                proof {
                    assert(crate::prices::spec_has_quote(
                        book.entries@,
                        pre.orders[i as int].token_id@,
                    ));
                    let qk = crate::prices::spec_quote_index(
                        book.entries@,
                        pre.orders[i as int].token_id@,
                    );
                    assert(book.entries@[qk].price.wf());
                    assert(quote_ok(fp));
                    assert(pre.orders[i as int].wf());
                }
                let mut upd = self.orders[i].clone();
                upd.filled = true;
                let token_id_c: String = upd.token_id.clone();
                let side_now: Side = upd.side;
                let ttype: TokenType = upd.token_type;
                let cond_c: String = upd.condition_id.clone();
                let sz: u64 = upd.size;
                let pts: u64 = upd.period_timestamp;
                self.orders.set(i, upd);
                match side_now {
                    Side::Buy => {
                        let cost: u64 = cost_pico(fp, sz);
                        let pidx: Option<usize> = self.position_index(token_id_c.as_str());
                        let pos = SimulatedPosition {
                            token_id: token_id_c,
                            token_type: ttype,
                            condition_id: cond_c,
                            purchase_price: fp,
                            units: sz,
                            investment_amount: cost,
                            sell_price: None,
                            period_timestamp: pts,
                            purchased_at: now,
                            sold: false,
                            sell_price_actual: None,
                            sell_timestamp: None,
                        };
                        match pidx {
                            Some(k) => {
                                self.positions.set(k, pos);
                            },
                            None => {
                                self.positions.push(pos);
                            },
                        }
                        self.total_invested = self.total_invested + cost as i128;
                    },
                    Side::Sell => {
                        let pidx: Option<usize> = self.position_index(token_id_c.as_str());
                        match pidx {
                            Some(k) => {
                                if !self.positions[k].sold {
                                    let mut p2 = self.positions[k].clone();
                                    proof {
                                        assert(pre.positions[k as int].wf());
                                        lemma_mul_upper_bound(
                                            p2.purchase_price as int,
                                            PRICE_MAX as int,
                                            p2.units as int,
                                            SIZE_MAX as int,
                                        );
                                        lemma_mul_nonnegative(
                                            p2.purchase_price as int,
                                            p2.units as int,
                                        );
                                    }
                                    let proceeds: u64 = cost_pico(fp, p2.units);
                                    let inv: u64 = p2.investment_amount;
                                    p2.sold = true;
                                    p2.sell_price_actual = Some(fp);
                                    p2.sell_timestamp = Some(now);
                                    self.positions.set(k, p2);
                                    self.total_realized_pnl = self.total_realized_pnl
                                        + proceeds as i128 - inv as i128;
                                }
                            },
                            None => {},
                        }
                    },
                }
                proof {
                    assert(self@ =~= spec_fill_one(pre, *book, now, i as int));
                }
            }
            proof {
                assert(self@ == spec_after_fills(t0, *book, now, i as int + 1));
            }
            i = i + 1;
        }
        proof {
            lemma_after_fills_props(t0, *book, now, n as int);
            assert forall|k: int|
                0 <= k < old(self)@.orders.len() implies ((#[trigger] self@.orders[k]).filled <==> (
            old(self)@.orders[k].filled || spec_should_fill(old(self)@.orders[k], *book))) by {
                assert(self@.orders[k] == (if spec_should_fill(t0.orders[k], *book) {
                    spec_mark_filled(t0.orders[k])
                } else {
                    t0.orders[k]
                }));
            }
        }
    }
}

/// Whether a resolution of the market `cid` settles the position: the
/// position belongs to that market and is still open.
pub open spec fn spec_resolves(p: SimulatedPosition, cid: Seq<char>) -> bool {
    p.condition_id@ == cid && !p.sold
}

/// A position on the Up token wins iff the market resolved up; one on the
/// Down token wins iff it resolved down.
pub open spec fn spec_position_won(p: SimulatedPosition, up: bool) -> bool {
    (p.token_type.spec_side() == TokenSide::Up) == up
}

/// The final pico-dollar value of a position at resolution: one dollar per
/// share if it won, nothing if it lost.
pub open spec fn spec_final_value(p: SimulatedPosition, up: bool) -> int {
    if spec_position_won(p, up) {
        spec_payout(p.units)
    } else {
        0
    }
}

/// The position as settled by resolution: sold, at an actual price of one
/// dollar (won) or zero (lost), at time `now`.
pub open spec fn spec_mark_resolved(p: SimulatedPosition, up: bool, now: u64) -> SimulatedPosition {
    SimulatedPosition {
        sold: true,
        sell_price_actual: Some(
            if spec_position_won(p, up) {
                PRICE_MAX
            } else {
                0
            },
        ),
        sell_timestamp: Some(now),
        ..p
    }
}

/// One step of resolution: if the position at index `j` belongs to the
/// resolved market and is open, settle it and credit
/// `final_value - investment` to realized profit-and-loss.
pub open spec fn spec_resolve_one(
    t: TrackerView,
    cid: Seq<char>,
    up: bool,
    now: u64,
    j: int,
) -> TrackerView
    recommends
        0 <= j < t.positions.len(),
{
    let p = t.positions[j];
    if spec_resolves(p, cid) {
        TrackerView {
            positions: t.positions.update(j, spec_mark_resolved(p, up, now)),
            realized_pnl: t.realized_pnl + spec_final_value(p, up) - p.investment_amount,
            ..t
        }
    } else {
        t
    }
}

/// Resolution applied to the first `n` positions, in list order.
pub open spec fn spec_after_resolution(
    t: TrackerView,
    cid: Seq<char>,
    up: bool,
    now: u64,
    n: int,
) -> TrackerView
    decreases n,
{
    if n <= 0 {
        t
    } else {
        spec_resolve_one(spec_after_resolution(t, cid, up, now, n - 1), cid, up, now, n - 1)
    }
}

/// Sum of the investments of the open positions on `cid` among the first
/// `n` positions, in pico-dollars.
pub open spec fn spec_resolved_spent(ps: Seq<SimulatedPosition>, cid: Seq<char>, n: int) -> int
    decreases n,
{
    if n <= 0 {
        0
    } else {
        spec_resolved_spent(ps, cid, n - 1) + (if spec_resolves(ps[n - 1], cid) {
            ps[n - 1].investment_amount as int
        } else {
            0
        })
    }
}

/// Sum of the final values of the open positions on `cid` among the first
/// `n` positions, in pico-dollars.
pub open spec fn spec_resolved_earned(
    ps: Seq<SimulatedPosition>,
    cid: Seq<char>,
    up: bool,
    n: int,
) -> int
    decreases n,
{
    if n <= 0 {
        0
    } else {
        spec_resolved_earned(ps, cid, up, n - 1) + (if spec_resolves(ps[n - 1], cid) {
            spec_final_value(ps[n - 1], up)
        } else {
            0
        })
    }
}

/// Resolution over a prefix preserves well-formedness, touches neither
/// orders nor the invested total, settles exactly the open positions of
/// the resolved market, and moves realized profit-and-loss by exactly the
/// earned total minus the spent total.
pub proof fn lemma_after_resolution_props(
    t0: TrackerView,
    cid: Seq<char>,
    up: bool,
    now: u64,
    n: int,
)
    requires
        spec_tracker_wf(t0),
        0 <= n <= t0.positions.len(),
    ensures
        spec_tracker_wf(spec_after_resolution(t0, cid, up, now, n)),
        spec_after_resolution(t0, cid, up, now, n).orders == t0.orders,
        spec_after_resolution(t0, cid, up, now, n).invested == t0.invested,
        spec_after_resolution(t0, cid, up, now, n).positions.len() == t0.positions.len(),
        forall|k: int|
            n <= k < t0.positions.len() ==> spec_after_resolution(t0, cid, up, now, n).positions[k]
                == t0.positions[k],
        forall|k: int|
            0 <= k < n ==> spec_after_resolution(t0, cid, up, now, n).positions[k] == (
            if spec_resolves(t0.positions[k], cid) {
                spec_mark_resolved(t0.positions[k], up, now)
            } else {
                t0.positions[k]
            }),
        spec_after_resolution(t0, cid, up, now, n).realized_pnl == t0.realized_pnl
            + spec_resolved_earned(t0.positions, cid, up, n) - spec_resolved_spent(
            t0.positions,
            cid,
            n,
        ),
        0 <= spec_resolved_spent(t0.positions, cid, n) <= n * (COST_MAX as int),
        0 <= spec_resolved_earned(t0.positions, cid, up, n) <= n * (COST_MAX as int),
    decreases n,
{
    if n > 0 {
        lemma_after_resolution_props(t0, cid, up, now, n - 1);
        let prev = spec_after_resolution(t0, cid, up, now, n - 1);
        let p = t0.positions[n - 1];
        assert(prev.positions[n - 1] == p);
        assert(p.wf());
        lemma_mul_upper_bound(p.units as int, SIZE_MAX as int, MICRO as int, MICRO as int);
        lemma_mul_nonnegative(p.units as int, MICRO as int);
        lemma_mul_upper_bound(
            p.purchase_price as int,
            PRICE_MAX as int,
            p.units as int,
            SIZE_MAX as int,
        );
        lemma_mul_nonnegative(p.purchase_price as int, p.units as int);
        if spec_resolves(p, cid) {
            let r = spec_resolve_one(prev, cid, up, now, n - 1);
            assert(spec_mark_resolved(p, up, now).wf());
            assert forall|a: int, b: int|
                0 <= a < b < r.positions.len() implies r.positions[a].token_id@
                != r.positions[b].token_id@ by {
                assert(prev.positions[a].token_id@ != prev.positions[b].token_id@);
            }
            assert forall|a: int| 0 <= a < r.positions.len() implies (
            #[trigger] r.positions[a]).wf() by {
                assert(prev.positions[a].wf());
            }
        }
    }
}

impl SimulationTracker {
    /// Settle every open position of the market `condition_id` after it
    /// resolved up (`market_resolved_up`) or down. A winning position is
    /// credited one dollar per share, a losing one nothing; each settled
    /// position adds `final_value - investment` to realized
    /// profit-and-loss. Returns `(spent, earned, net)` for the market, in
    /// pico-dollars, with `net == earned - spent` equal to the change in
    /// the realized total.
    pub fn resolve_market_positions(
        &mut self,
        condition_id: &str,
        market_resolved_up: bool,
        now: u64,
    ) -> (r: (i128, i128, i128))
        requires
            old(self).wf(),
            old(self)@.realized_pnl + old(self)@.positions.len() * (COST_MAX as int) <= i128::MAX,
            old(self)@.realized_pnl - old(self)@.positions.len() * (COST_MAX as int) >= i128::MIN,
        ensures
            final(self)@ == spec_after_resolution(
                old(self)@,
                condition_id@,
                market_resolved_up,
                now,
                old(self)@.positions.len() as int,
            ),
            final(self).wf(),
            r.0 == spec_resolved_spent(
                old(self)@.positions,
                condition_id@,
                old(self)@.positions.len() as int,
            ),
            r.1 == spec_resolved_earned(
                old(self)@.positions,
                condition_id@,
                market_resolved_up,
                old(self)@.positions.len() as int,
            ),
            r.2 == r.1 - r.0,
            final(self)@.realized_pnl == old(self)@.realized_pnl + r.1 - r.0,
            final(self)@.invested == old(self)@.invested,
            final(self)@.orders == old(self)@.orders,
    {
        let ghost t0 = old(self)@;
        let ghost cid = condition_id@;
        let n: usize = self.positions.len();
        let mut spent: i128 = 0;
        let mut earned: i128 = 0;
        let mut j: usize = 0;
        while j < n
            invariant
                spec_tracker_wf(t0),
                t0 == old(self)@,
                cid == condition_id@,
                t0.realized_pnl + t0.positions.len() * (COST_MAX as int) <= i128::MAX,
                t0.realized_pnl - t0.positions.len() * (COST_MAX as int) >= i128::MIN,
                n == t0.positions.len(),
                j <= n,
                self@ == spec_after_resolution(t0, cid, market_resolved_up, now, j as int),
                spent == spec_resolved_spent(t0.positions, cid, j as int),
                earned == spec_resolved_earned(t0.positions, cid, market_resolved_up, j as int),
            decreases n - j,
        {
            proof {
                lemma_after_resolution_props(t0, cid, market_resolved_up, now, j as int);
            }
            let ghost pre = self@;
            let is_open: bool = !self.positions[j].sold && str_eq(
                self.positions[j].condition_id.as_str(),
                condition_id,
            );
            if is_open {
                proof {
                    assert(pre.positions[j as int] == t0.positions[j as int]);
                    assert(t0.positions[j as int].wf());
                    lemma_mul_upper_bound(
                        self.positions[j as int].units as int,
                        SIZE_MAX as int,
                        MICRO as int,
                        MICRO as int,
                    );
                    lemma_mul_nonnegative(self.positions[j as int].units as int, MICRO as int);
                    lemma_mul_upper_bound(
                        self.positions[j as int].purchase_price as int,
                        PRICE_MAX as int,
                        self.positions[j as int].units as int,
                        SIZE_MAX as int,
                    );
                    lemma_mul_nonnegative(
                        self.positions[j as int].purchase_price as int,
                        self.positions[j as int].units as int,
                    );
                }
                let mut p2 = self.positions[j].clone();
                let won: bool = match p2.token_type.side() {
                    TokenSide::Up => market_resolved_up,
                    TokenSide::Down => !market_resolved_up,
                };
                let fv: u64 = if won {
                    payout_pico(p2.units)
                } else {
                    0
                };
                let inv: u64 = p2.investment_amount;
                p2.sold = true;
                p2.sell_price_actual = Some(
                    if won {
                        PRICE_MAX
                    } else {
                        0
                    },
                );
                p2.sell_timestamp = Some(now);
                self.positions.set(j, p2);
                self.total_realized_pnl = self.total_realized_pnl + fv as i128 - inv as i128;
                spent = spent + inv as i128;
                earned = earned + fv as i128;
                proof {
                    assert(won == spec_position_won(t0.positions[j as int], market_resolved_up));
                    assert(fv as int == spec_final_value(
                        t0.positions[j as int],
                        market_resolved_up,
                    ));
                    assert(self@ =~= spec_resolve_one(pre, cid, market_resolved_up, now, j as int));
                }
            }
            proof {
                assert(self@ == spec_after_resolution(
                    t0,
                    cid,
                    market_resolved_up,
                    now,
                    j as int + 1,
                ));
            }
            j = j + 1;
        }
        proof {
            lemma_after_resolution_props(t0, cid, market_resolved_up, now, n as int);
        }
        (spent, earned, earned - spent)
    }
}

/// Token ids of the open (unsold) positions among the first `n`.
pub open spec fn spec_open_position_ids(ps: Seq<SimulatedPosition>, n: int) -> Seq<Seq<char>>
    decreases n,
{
    if n <= 0 {
        Seq::empty()
    } else {
        let pre = spec_open_position_ids(ps, n - 1);
        if !ps[n - 1].sold {
            pre.push(ps[n - 1].token_id@)
        } else {
            pre
        }
    }
}

/// The open (unsold) positions among the first `n`, in order.
pub open spec fn spec_open_positions(ps: Seq<SimulatedPosition>, n: int) -> Seq<SimulatedPosition>
    decreases n,
{
    if n <= 0 {
        Seq::empty()
    } else {
        let pre = spec_open_positions(ps, n - 1);
        if !ps[n - 1].sold {
            pre.push(ps[n - 1])
        } else {
            pre
        }
    }
}

/// Token ids of the unfilled orders among the first `n`.
pub open spec fn spec_pending_order_ids(os: Seq<SimulatedLimitOrder>, n: int) -> Seq<Seq<char>>
    decreases n,
{
    if n <= 0 {
        Seq::empty()
    } else {
        let pre = spec_pending_order_ids(os, n - 1);
        if !os[n - 1].filled {
            pre.push(os[n - 1].token_id@)
        } else {
            pre
        }
    }
}

/// Number of unfilled orders among the first `n`.
pub open spec fn spec_pending_count(os: Seq<SimulatedLimitOrder>, n: int) -> int
    decreases n,
{
    if n <= 0 {
        0
    } else {
        spec_pending_count(os, n - 1) + (if !os[n - 1].filled {
            1int
        } else {
            0int
        })
    }
}

/// Unrealized profit-and-loss of one position against the book, in
/// pico-dollars: `(mid - purchase) * units` when both sides of the book
/// are quoted, zero when the position is closed or a side is missing.
pub open spec fn spec_unrealized_one(p: SimulatedPosition, book: PriceBook) -> int {
    if p.sold {
        0
    } else {
        match book.spec_quote(p.token_id@) {
            Some(tp) => if tp.bid is Some && tp.ask is Some {
                spec_cost(spec_mid(tp.bid->0, tp.ask->0) as u64, p.units) - p.investment_amount
            } else {
                0
            },
            None => 0,
        }
    }
}

/// Sum of the unrealized profit-and-loss of the first `n` positions.
pub open spec fn spec_unrealized_total(ps: Seq<SimulatedPosition>, book: PriceBook, n: int) -> int
    decreases n,
{
    if n <= 0 {
        0
    } else {
        spec_unrealized_total(ps, book, n - 1) + spec_unrealized_one(ps[n - 1], book)
    }
}

/// One open position's line in the summary: its current mid-price (the
/// purchase price when the book has no usable quote) and its unrealized
/// profit-and-loss.
#[derive(Clone, Copy, Debug)]
pub struct PositionRow {
    pub token_type: TokenType,
    pub purchase_price: u64,
    pub current_price: u64,
    pub units: u64,
    pub unrealized_pnl: i128,
}

/// The periodic simulation report: totals and one row per open position.
#[derive(Debug)]
pub struct PositionSummary {
    pub total_invested: i128,
    pub realized_pnl: i128,
    pub unrealized_pnl: i128,
    pub total_pnl: i128,
    pub open_positions: usize,
    pub rows: Vec<PositionRow>,
}

/// The current display price of a position: the mid-price when both sides
/// of the book are quoted, the purchase price otherwise.
pub open spec fn spec_current_price(p: SimulatedPosition, book: PriceBook) -> u64 {
    match book.spec_quote(p.token_id@) {
        Some(tp) => if tp.bid is Some && tp.ask is Some {
            spec_mid(tp.bid->0, tp.ask->0) as u64
        } else {
            p.purchase_price
        },
        None => p.purchase_price,
    }
}

/// The summary row of one open position.
pub open spec fn spec_row_of(p: SimulatedPosition, book: PriceBook) -> PositionRow {
    PositionRow {
        token_type: p.token_type,
        purchase_price: p.purchase_price,
        current_price: spec_current_price(p, book),
        units: p.units,
        unrealized_pnl: (spec_cost(spec_current_price(p, book), p.units)
            - p.investment_amount) as i128,
    }
}

/// The summary rows of the open positions among the first `n`.
pub open spec fn spec_rows(ps: Seq<SimulatedPosition>, book: PriceBook, n: int) -> Seq<PositionRow>
    decreases n,
{
    if n <= 0 {
        Seq::empty()
    } else {
        let pre = spec_rows(ps, book, n - 1);
        if !ps[n - 1].sold {
            pre.push(spec_row_of(ps[n - 1], book))
        } else {
            pre
        }
    }
}

impl SimulationTracker {
    /// Whether any position (open or settled) exists for `token_id`.
    pub fn has_position(&self, token_id: &str) -> (r: bool)
        ensures
            r == spec_has_position(self@.positions, token_id@),
    {
        let mut i: usize = 0;
        while i < self.positions.len()
            invariant
                i <= self@.positions.len(),
                forall|j: int| 0 <= j < i ==> self@.positions[j].token_id@ != token_id@,
            decreases self@.positions.len() - i,
        {
            if str_eq(self.positions[i].token_id.as_str(), token_id) {
                return true;
            }
            i = i + 1;
        }
        false
    }

    /// Whether an open position of this token type already exists for the
    /// period: the per-period position deduplication test of the order
    /// engine.
    pub fn has_active_position(&self, period_timestamp: u64, token_type: TokenType) -> (r: bool)
        ensures
            r == spec_has_active_position(self@.positions, period_timestamp, token_type),
    {
        let mut i: usize = 0;
        while i < self.positions.len()
            invariant
                i <= self@.positions.len(),
                forall|j: int|
                    0 <= j < i ==> !(!(#[trigger] self@.positions[j]).sold
                        && self@.positions[j].token_type == token_type
                        && self@.positions[j].period_timestamp == period_timestamp),
            decreases self@.positions.len() - i,
        {
            if !self.positions[i].sold && self.positions[i].token_type == token_type
                && self.positions[i].period_timestamp == period_timestamp {
                return true;
            }
            i = i + 1;
        }
        false
    }

    /// Token ids of all open positions, in list order.
    pub fn get_position_token_ids(&self) -> (r: Vec<String>)
        ensures
            r@.map_values(|s: String| s@) == spec_open_position_ids(
                self@.positions,
                self@.positions.len() as int,
            ),
    {
        let mut r: Vec<String> = Vec::new();
        let mut i: usize = 0;
        while i < self.positions.len()
            invariant
                i <= self@.positions.len(),
                r@.map_values(|s: String| s@) == spec_open_position_ids(self@.positions, i as int),
            decreases self@.positions.len() - i,
        {
            if !self.positions[i].sold {
                r.push(self.positions[i].token_id.clone());
            }
            proof {
                assert(r@.map_values(|s: String| s@) =~= spec_open_position_ids(
                    self@.positions,
                    i as int + 1,
                ));
            }
            i = i + 1;
        }
        r
    }

    /// Copies of all open positions, in list order (for closure checking).
    pub fn get_all_positions(&self) -> (r: Vec<SimulatedPosition>)
        ensures
            r@ == spec_open_positions(self@.positions, self@.positions.len() as int),
    {
        let mut r: Vec<SimulatedPosition> = Vec::new();
        let mut i: usize = 0;
        while i < self.positions.len()
            invariant
                i <= self@.positions.len(),
                r@ == spec_open_positions(self@.positions, i as int),
            decreases self@.positions.len() - i,
        {
            if !self.positions[i].sold {
                r.push(self.positions[i].clone());
            }
            proof {
                assert(r@ =~= spec_open_positions(self@.positions, i as int + 1));
            }
            i = i + 1;
        }
        r
    }

    /// Token ids of all unfilled orders, in list order.
    pub fn get_pending_order_token_ids(&self) -> (r: Vec<String>)
        ensures
            r@.map_values(|s: String| s@) == spec_pending_order_ids(
                self@.orders,
                self@.orders.len() as int,
            ),
    {
        let mut r: Vec<String> = Vec::new();
        let mut i: usize = 0;
        while i < self.orders.len()
            invariant
                i <= self@.orders.len(),
                r@.map_values(|s: String| s@) == spec_pending_order_ids(self@.orders, i as int),
            decreases self@.orders.len() - i,
        {
            if !self.orders[i].filled {
                r.push(self.orders[i].token_id.clone());
            }
            proof {
                assert(r@.map_values(|s: String| s@) =~= spec_pending_order_ids(
                    self@.orders,
                    i as int + 1,
                ));
            }
            i = i + 1;
        }
        r
    }

    /// Number of unfilled orders.
    pub fn get_pending_order_count(&self) -> (r: usize)
        ensures
            r == spec_pending_count(self@.orders, self@.orders.len() as int),
    {
        let mut count: usize = 0;
        let mut i: usize = 0;
        while i < self.orders.len()
            invariant
                i <= self@.orders.len(),
                count == spec_pending_count(self@.orders, i as int),
                count <= i,
            decreases self@.orders.len() - i,
        {
            if !self.orders[i].filled {
                count = count + 1;
            }
            i = i + 1;
        }
        count
    }

    /// `(total_invested, total_earned, total_realized_pnl)` in
    /// pico-dollars, with `total_earned = total_invested + realized`.
    pub fn get_total_spending_and_earnings(&self) -> (r: (i128, i128, i128))
        requires
            self@.invested + self@.realized_pnl <= i128::MAX,
            self@.invested >= 0,
        ensures
            r.0 == self@.invested,
            r.1 == self@.invested + self@.realized_pnl,
            r.2 == self@.realized_pnl,
    {
        (self.total_invested, self.total_invested + self.total_realized_pnl,
        self.total_realized_pnl)
    }

    /// Record the target price of a resting sell on the position for
    /// `token_id`, if one exists.
    pub fn set_position_sell_price(&mut self, token_id: &str, sell_price: u64)
        requires
            old(self).wf(),
        ensures
            final(self).wf(),
            final(self)@.orders == old(self)@.orders,
            final(self)@.invested == old(self)@.invested,
            final(self)@.realized_pnl == old(self)@.realized_pnl,
            spec_has_position(old(self)@.positions, token_id@) ==> final(self)@.positions == old(
                self,
            )@.positions.update(
                spec_position_index(old(self)@.positions, token_id@),
                (SimulatedPosition {
                    sell_price: Some(sell_price),
                    ..old(self)@.positions[spec_position_index(old(self)@.positions, token_id@)]
                }),
            ),
            !spec_has_position(old(self)@.positions, token_id@) ==> final(self)@.positions == old(
                self,
            )@.positions,
    {
        let found: Option<usize> = self.position_index(token_id);
        match found {
            Some(k) => {
                let mut p2 = self.positions[k].clone();
                p2.sell_price = Some(sell_price);
                self.positions.set(k, p2);
                proof {
                    let ghost ps = self@.positions;
                    assert forall|a: int, b: int|
                        0 <= a < b < ps.len() implies ps[a].token_id@ != ps[b].token_id@ by {
                        if a != k && b != k {
                            assert(ps[a] == old(self)@.positions[a]);
                            assert(ps[b] == old(self)@.positions[b]);
                        }
                    }
                    assert forall|a: int| 0 <= a < ps.len() implies (#[trigger] ps[a]).wf() by {
                        if a != k {
                            assert(ps[a] == old(self)@.positions[a]);
                        }
                        assert(old(self)@.positions[a].wf());
                    }
                }
            },
            None => {},
        }
    }

    /// Total unrealized profit-and-loss of the open positions against the
    /// book, in pico-dollars. A position with no usable quote contributes
    /// zero.
    pub fn calculate_unrealized_pnl(&self, book: &PriceBook) -> (r: i128)
        requires
            self.wf(),
            book.wf(),
        ensures
            r == spec_unrealized_total(self@.positions, *book, self@.positions.len() as int),
    {
        let mut acc: i128 = 0;
        let mut i: usize = 0;
        while i < self.positions.len()
            invariant
                self.wf(),
                book.wf(),
                i <= self@.positions.len(),
                acc == spec_unrealized_total(self@.positions, *book, i as int),
                -(i as int) * (COST_MAX as int) <= acc <= (i as int) * (COST_MAX as int),
            decreases self@.positions.len() - i,
        {
            let ghost p = self@.positions[i as int];
            proof {
                assert(p.wf());
                lemma_mul_upper_bound(
                    p.purchase_price as int,
                    PRICE_MAX as int,
                    p.units as int,
                    SIZE_MAX as int,
                );
                lemma_mul_nonnegative(p.purchase_price as int, p.units as int);
            }
            if !self.positions[i].sold {
                match book.lookup(self.positions[i].token_id.as_str()) {
                    Some(tp) => {
                        match (tp.bid, tp.ask) {
                            (Some(b), Some(a)) => {
                                proof {
                                    assert(crate::prices::spec_has_quote(
                                        book.entries@,
                                        p.token_id@,
                                    ));
                                    let qk = crate::prices::spec_quote_index(
                                        book.entries@,
                                        p.token_id@,
                                    );
                                    assert(book.entries@[qk].price.wf());
                                }
                                let m: u64 = mid_price(b, a);
                                let current: u64 = cost_pico(m, self.positions[i].units);
                                let delta: i128 = current as i128
                                    - self.positions[i].investment_amount as i128;
                                acc = acc + delta;
                            },
                            _ => {},
                        }
                    },
                    None => {},
                }
            }
            proof {
                assert(acc == spec_unrealized_total(self@.positions, *book, i as int + 1));
            }
            i = i + 1;
        }
        acc
    }

    /// The periodic report: totals, the open-position count, and one row
    /// per open position with its current price and unrealized
    /// profit-and-loss.
    pub fn get_position_summary(&self, book: &PriceBook) -> (r: PositionSummary)
        requires
            self.wf(),
            book.wf(),
            self@.realized_pnl + self@.positions.len() * (COST_MAX as int) <= i128::MAX,
            self@.realized_pnl - self@.positions.len() * (COST_MAX as int) >= i128::MIN,
        ensures
            r.total_invested == self@.invested,
            r.realized_pnl == self@.realized_pnl,
            r.unrealized_pnl == spec_unrealized_total(
                self@.positions,
                *book,
                self@.positions.len() as int,
            ),
            r.total_pnl == r.realized_pnl + r.unrealized_pnl,
            r.open_positions == spec_open_positions(
                self@.positions,
                self@.positions.len() as int,
            ).len(),
            r.rows@ == spec_rows(self@.positions, *book, self@.positions.len() as int),
    {
        let unrealized: i128 = self.calculate_unrealized_pnl(book);
        proof {
            lemma_unrealized_total_bound(
                self@.positions,
                *book,
                self@.positions.len() as int,
            );
        }
        let total_pnl: i128 = self.total_realized_pnl + unrealized;
        let mut rows: Vec<PositionRow> = Vec::new();
        let mut open_count: usize = 0;
        let mut i: usize = 0;
        while i < self.positions.len()
            invariant
                self.wf(),
                book.wf(),
                i <= self@.positions.len(),
                rows@ == spec_rows(self@.positions, *book, i as int),
                open_count == spec_open_positions(self@.positions, i as int).len(),
                open_count <= i,
            decreases self@.positions.len() - i,
        {
            let ghost p = self@.positions[i as int];
            proof {
                assert(p.wf());
                lemma_mul_upper_bound(
                    p.purchase_price as int,
                    PRICE_MAX as int,
                    p.units as int,
                    SIZE_MAX as int,
                );
                lemma_mul_nonnegative(p.purchase_price as int, p.units as int);
            }
            if !self.positions[i].sold {
                let mut current: u64 = self.positions[i].purchase_price;
                match book.lookup(self.positions[i].token_id.as_str()) {
                    Some(tp) => {
                        match (tp.bid, tp.ask) {
                            (Some(b), Some(a)) => {
                                proof {
                                    assert(crate::prices::spec_has_quote(
                                        book.entries@,
                                        p.token_id@,
                                    ));
                                    let qk = crate::prices::spec_quote_index(
                                        book.entries@,
                                        p.token_id@,
                                    );
                                    assert(book.entries@[qk].price.wf());
                                }
                                current = mid_price(b, a);
                            },
                            _ => {},
                        }
                    },
                    None => {},
                }
                let value: u64 = cost_pico(current, self.positions[i].units);
                let row = PositionRow {
                    token_type: self.positions[i].token_type,
                    purchase_price: self.positions[i].purchase_price,
                    current_price: current,
                    units: self.positions[i].units,
                    unrealized_pnl: value as i128
                        - self.positions[i].investment_amount as i128,
                };
                rows.push(row);
                open_count = open_count + 1;
                proof {
                    assert(row == spec_row_of(p, *book));
                }
            }
            proof {
                assert(rows@ =~= spec_rows(self@.positions, *book, i as int + 1));
            }
            i = i + 1;
        }
        PositionSummary {
            total_invested: self.total_invested,
            realized_pnl: self.total_realized_pnl,
            unrealized_pnl: unrealized,
            total_pnl,
            open_positions: open_count,
            rows,
        }
    }
}

/// The unrealized total over `n` positions is at most `n` orders' cost in
/// either direction.
proof fn lemma_unrealized_total_bound(ps: Seq<SimulatedPosition>, book: PriceBook, n: int)
    requires
        0 <= n <= ps.len(),
        forall|i: int| 0 <= i < ps.len() ==> (#[trigger] ps[i]).wf(),
        book.wf(),
    ensures
        -(n * (COST_MAX as int)) <= spec_unrealized_total(ps, book, n) <= n * (COST_MAX as int),
    decreases n,
{
    if n > 0 {
        lemma_unrealized_total_bound(ps, book, n - 1);
        let p = ps[n - 1];
        assert(p.wf());
        lemma_mul_upper_bound(
            p.purchase_price as int,
            PRICE_MAX as int,
            p.units as int,
            SIZE_MAX as int,
        );
        lemma_mul_nonnegative(p.purchase_price as int, p.units as int);
        if !p.sold {
            match book.spec_quote(p.token_id@) {
                Some(tp) => {
                    if tp.bid is Some && tp.ask is Some {
                        assert(crate::prices::spec_has_quote(book.entries@, p.token_id@));
                        let qk = crate::prices::spec_quote_index(book.entries@, p.token_id@);
                        assert(book.entries@[qk].price.wf());
                        let m = spec_mid(tp.bid->0, tp.ask->0) as u64;
                        lemma_mul_upper_bound(
                            m as int,
                            PRICE_MAX as int,
                            p.units as int,
                            SIZE_MAX as int,
                        );
                        lemma_mul_nonnegative(m as int, p.units as int);
                    }
                },
                None => {},
            }
        }
    }
}

/// An order expires at a period rollover when it is still unfilled and
/// belongs to an earlier period.
pub open spec fn spec_order_expired(o: SimulatedLimitOrder, new_period: u64) -> bool {
    !o.filled && o.period_timestamp < new_period
}

/// Indices (ascending) of the orders among the first `n` that survive a
/// rollover to `new_period`.
pub open spec fn spec_kept_indices(os: Seq<SimulatedLimitOrder>, new_period: u64, n: int) -> Seq<
    int,
>
    decreases n,
{
    if n <= 0 {
        Seq::empty()
    } else {
        let pre = spec_kept_indices(os, new_period, n - 1);
        if spec_order_expired(os[n - 1], new_period) {
            pre
        } else {
            pre.push(n - 1)
        }
    }
}

/// Indices (ascending) of the orders among the first `n` that expire at a
/// rollover to `new_period`.
pub open spec fn spec_expired_indices(os: Seq<SimulatedLimitOrder>, new_period: u64, n: int) -> Seq<
    int,
>
    decreases n,
{
    if n <= 0 {
        Seq::empty()
    } else {
        let pre = spec_expired_indices(os, new_period, n - 1);
        if spec_order_expired(os[n - 1], new_period) {
            pre.push(n - 1)
        } else {
            pre
        }
    }
}

/// The kept and expired index sequences are ascending, in range, and mark
/// exactly the orders the expiry rule selects.
pub proof fn lemma_rollover_indices(os: Seq<SimulatedLimitOrder>, new_period: u64, n: int)
    requires
        0 <= n <= os.len(),
    ensures
        forall|x: int|
            0 <= x < spec_kept_indices(os, new_period, n).len() ==> 0 <= #[trigger] spec_kept_indices(
                os,
                new_period,
                n,
            )[x] < n,
        forall|x: int, y: int|
            0 <= x < y < spec_kept_indices(os, new_period, n).len() ==> spec_kept_indices(
                os,
                new_period,
                n,
            )[x] < spec_kept_indices(os, new_period, n)[y],
        forall|x: int|
            0 <= x < spec_kept_indices(os, new_period, n).len() ==> !spec_order_expired(
                os[spec_kept_indices(os, new_period, n)[x]],
                new_period,
            ),
        forall|x: int|
            0 <= x < spec_expired_indices(os, new_period, n).len() ==> 0
                <= #[trigger] spec_expired_indices(os, new_period, n)[x] < n,
        forall|x: int|
            0 <= x < spec_expired_indices(os, new_period, n).len() ==> spec_order_expired(
                os[spec_expired_indices(os, new_period, n)[x]],
                new_period,
            ),
    decreases n,
{
    if n > 0 {
        lemma_rollover_indices(os, new_period, n - 1);
        let pre_k = spec_kept_indices(os, new_period, n - 1);
        let cur_k = spec_kept_indices(os, new_period, n);
        let pre_e = spec_expired_indices(os, new_period, n - 1);
        let cur_e = spec_expired_indices(os, new_period, n);
        if !spec_order_expired(os[n - 1], new_period) {
            assert(cur_k == pre_k.push(n - 1));
            assert forall|x: int, y: int| 0 <= x < y < cur_k.len() implies cur_k[x] < cur_k[y] by {
                if y < pre_k.len() {
                    assert(cur_k[x] == pre_k[x] && cur_k[y] == pre_k[y]);
                } else {
                    assert(cur_k[y] == n - 1);
                    assert(cur_k[x] == pre_k[x]);
                    assert(0 <= pre_k[x] < n - 1);
                }
            }
            assert forall|x: int|
                0 <= x < cur_k.len() implies !spec_order_expired(
                os[#[trigger] cur_k[x]],
                new_period,
            ) by {
                if x < pre_k.len() {
                    assert(cur_k[x] == pre_k[x]);
                    assert(!spec_order_expired(os[pre_k[x]], new_period));
                } else {
                    assert(cur_k[x] == n - 1);
                }
            }
        } else {
            assert(cur_e == pre_e.push(n - 1));
            assert forall|x: int|
                0 <= x < cur_e.len() implies spec_order_expired(
                os[#[trigger] cur_e[x]],
                new_period,
            ) by {
                if x < pre_e.len() {
                    assert(cur_e[x] == pre_e[x]);
                    assert(spec_order_expired(os[pre_e[x]], new_period));
                } else {
                    assert(cur_e[x] == n - 1);
                }
            }
        }
    }
}

impl SimulationTracker {
    /// Archive the unfilled orders of earlier periods at a rollover to
    /// `new_period`: they are removed from the resting set and returned
    /// for reporting. Filled orders, orders of the new period, positions
    /// and the running totals are untouched.
    pub fn reset_period(&mut self, new_period: u64) -> (expired: Vec<SimulatedLimitOrder>)
        requires
            old(self).wf(),
        ensures
            final(self).wf(),
            final(self)@.positions == old(self)@.positions,
            final(self)@.invested == old(self)@.invested,
            final(self)@.realized_pnl == old(self)@.realized_pnl,
            final(self)@.orders == spec_kept_indices(
                old(self)@.orders,
                new_period,
                old(self)@.orders.len() as int,
            ).map_values(|k: int| old(self)@.orders[k]),
            expired@ == spec_expired_indices(
                old(self)@.orders,
                new_period,
                old(self)@.orders.len() as int,
            ).map_values(|k: int| old(self)@.orders[k]),
    {
        let ghost os = old(self)@.orders;
        let n: usize = self.orders.len();
        let mut kept: Vec<SimulatedLimitOrder> = Vec::new();
        let mut expired: Vec<SimulatedLimitOrder> = Vec::new();
        let mut i: usize = 0;
        while i < n
            invariant
                spec_tracker_wf(old(self)@),
                os == old(self)@.orders,
                self@ == old(self)@,
                n == os.len(),
                i <= n,
                kept@ == spec_kept_indices(os, new_period, i as int).map_values(
                    |k: int| os[k],
                ),
                expired@ == spec_expired_indices(os, new_period, i as int).map_values(
                    |k: int| os[k],
                ),
            decreases n - i,
        {
            let keep: bool = self.orders[i].filled || self.orders[i].period_timestamp
                >= new_period;
            if keep {
                kept.push(self.orders[i].clone());
            } else {
                expired.push(self.orders[i].clone());
            }
            proof {
                assert(kept@ =~= spec_kept_indices(os, new_period, i as int + 1).map_values(
                    |k: int| os[k],
                ));
                assert(expired@ =~= spec_expired_indices(os, new_period, i as int + 1).map_values(
                    |k: int| os[k],
                ));
            }
            i = i + 1;
        }
        self.orders = kept;
        proof {
            lemma_rollover_indices(os, new_period, n as int);
            let ki = spec_kept_indices(os, new_period, n as int);
            assert forall|a: int, b: int|
                0 <= a < b < self@.orders.len() implies !(self@.orders[a].token_id@
                == self@.orders[b].token_id@ && self@.orders[a].side == self@.orders[b].side) by {
                assert(self@.orders[a] == os[ki[a]]);
                assert(self@.orders[b] == os[ki[b]]);
                assert(ki[a] < ki[b]);
                assert(!(os[ki[a]].token_id@ == os[ki[b]].token_id@ && os[ki[a]].side
                    == os[ki[b]].side));
            }
            assert forall|a: int| 0 <= a < self@.orders.len() implies (
            #[trigger] self@.orders[a]).wf() by {
                assert(self@.orders[a] == os[ki[a]]);
                assert(os[ki[a]].wf());
            }
        }
        expired
    }
}

/// How one pending order stands against the current book.
#[derive(Clone, Copy, Debug, PartialEq, Eq, Structural)]
pub enum PendingStatus {
    /// The relevant quote is within one ten-thousandth of the target.
    Ready,
    /// A usable quote exists but has not reached the target.
    Waiting,
    /// The relevant side is quoted at zero.
    ZeroPrice,
    /// The token is quoted but the relevant side is missing.
    NoSideQuote,
    /// The token has no quote at all.
    NoQuote,
}

/// One pending order's line in the report: the quote the fill rule would
/// look at (zero when there is none) and its status, with a tolerance of
/// one ten-thousandth of a dollar around the target.
pub open spec fn spec_pending_status(o: SimulatedLimitOrder, book: PriceBook) -> (u64,
    PendingStatus) {
    match book.spec_quote(o.token_id@) {
        None => (0u64, PendingStatus::NoQuote),
        Some(tp) => match o.side {
            Side::Buy => match tp.ask {
                None => (0u64, PendingStatus::NoSideQuote),
                Some(a) => if a == 0 {
                    (0u64, PendingStatus::ZeroPrice)
                } else if a <= o.target_price + 100 {
                    (a, PendingStatus::Ready)
                } else {
                    (a, PendingStatus::Waiting)
                },
            },
            Side::Sell => match tp.bid {
                None => (0u64, PendingStatus::NoSideQuote),
                Some(b) => if b == 0 {
                    (0u64, PendingStatus::ZeroPrice)
                } else if b + 100 >= o.target_price {
                    (b, PendingStatus::Ready)
                } else {
                    (b, PendingStatus::Waiting)
                },
            },
        },
    }
}

/// One row of the pending-orders report.
#[derive(Debug)]
pub struct PendingOrderRow {
    pub token_id: String,
    pub token_type: TokenType,
    pub side: Side,
    pub target_price: u64,
    pub current_price: u64,
    pub status: PendingStatus,
}

/// The report row of one pending order.
pub open spec fn spec_row_of_order(o: SimulatedLimitOrder, book: PriceBook) -> PendingOrderRow {
    PendingOrderRow {
        token_id: o.token_id,
        token_type: o.token_type,
        side: o.side,
        target_price: o.target_price,
        current_price: spec_pending_status(o, book).0,
        status: spec_pending_status(o, book).1,
    }
}

/// The report rows of the unfilled orders among the first `n`.
pub open spec fn spec_pending_rows(
    os: Seq<SimulatedLimitOrder>,
    book: PriceBook,
    n: int,
) -> Seq<PendingOrderRow>
    decreases n,
{
    if n <= 0 {
        Seq::empty()
    } else {
        let pre = spec_pending_rows(os, book, n - 1);
        if !os[n - 1].filled {
            pre.push(spec_row_of_order(os[n - 1], book))
        } else {
            pre
        }
    }
}

impl SimulationTracker {
    /// The pending-orders report: for each unfilled order, the quote the
    /// fill rule would look at and how far it stands from the target.
    pub fn pending_orders_report(&self, book: &PriceBook) -> (r: Vec<PendingOrderRow>)
        requires
            self.wf(),
            book.wf(),
        ensures
            r@ == spec_pending_rows(self@.orders, *book, self@.orders.len() as int),
    {
        let mut r: Vec<PendingOrderRow> = Vec::new();
        let mut i: usize = 0;
        while i < self.orders.len()
            invariant
                self.wf(),
                book.wf(),
                i <= self@.orders.len(),
                r@ == spec_pending_rows(self@.orders, *book, i as int),
            decreases self@.orders.len() - i,
        {
            let ghost o = self@.orders[i as int];
            if !self.orders[i].filled {
                proof {
                    assert(o.wf());
                }
                let mut current: u64 = 0;
                let mut status: PendingStatus = PendingStatus::NoQuote;
                match book.lookup(self.orders[i].token_id.as_str()) {
                    None => {},
                    Some(tp) => {
                        match self.orders[i].side {
                            Side::Buy => {
                                match tp.ask {
                                    None => {
                                        status = PendingStatus::NoSideQuote;
                                    },
                                    Some(a) => {
                                        if a == 0 {
                                            status = PendingStatus::ZeroPrice;
                                        } else if a <= self.orders[i].target_price + 100 {
                                            current = a;
                                            status = PendingStatus::Ready;
                                        } else {
                                            current = a;
                                            status = PendingStatus::Waiting;
                                        }
                                    },
                                }
                            },
                            Side::Sell => {
                                match tp.bid {
                                    None => {
                                        status = PendingStatus::NoSideQuote;
                                    },
                                    Some(b) => {
                                        if b == 0 {
                                            status = PendingStatus::ZeroPrice;
                                        } else if b + 100 >= self.orders[i].target_price {
                                            current = b;
                                            status = PendingStatus::Ready;
                                        } else {
                                            current = b;
                                            status = PendingStatus::Waiting;
                                        }
                                    },
                                }
                            },
                        }
                    },
                }
                let row = PendingOrderRow {
                    token_id: self.orders[i].token_id.clone(),
                    token_type: self.orders[i].token_type,
                    side: self.orders[i].side,
                    target_price: self.orders[i].target_price,
                    current_price: current,
                    status,
                };
                proof {
                    assert(row == spec_row_of_order(o, *book));
                }
                r.push(row);
            }
            proof {
                assert(r@ =~= spec_pending_rows(self@.orders, *book, i as int + 1));
            }
            i = i + 1;
        }
        r
    }
}

/// The tracker after a succession of fill passes, each against one
/// observed book at one time.
pub open spec fn spec_after_fill_passes(
    t: TrackerView,
    passes: Seq<(PriceBook, u64)>,
    n: int,
) -> TrackerView
    decreases n,
{
    if n <= 0 {
        t
    } else {
        let prev = spec_after_fill_passes(t, passes, n - 1);
        spec_after_fills(prev, passes[n - 1].0, passes[n - 1].1, prev.orders.len() as int)
    }
}

/// Fill monotonicity over a whole run: across any succession of fill
/// passes, an order ends up filled exactly when it was already filled or
/// some pass since its placement observed a quote meeting its condition
/// — and once filled it never reverts. Only the `filled` flag of an
/// order ever changes.
pub proof fn lemma_fill_monotone(t0: TrackerView, passes: Seq<(PriceBook, u64)>, n: int)
    requires
        spec_tracker_wf(t0),
        forall|j: int| 0 <= j < passes.len() ==> (#[trigger] passes[j]).0.wf(),
        0 <= n <= passes.len(),
    ensures
        spec_tracker_wf(spec_after_fill_passes(t0, passes, n)),
        spec_after_fill_passes(t0, passes, n).orders.len() == t0.orders.len(),
        forall|k: int|
            0 <= k < t0.orders.len() ==> #[trigger] spec_after_fill_passes(t0, passes, n).orders[k]
                == spec_set_filled(
                t0.orders[k],
                spec_after_fill_passes(t0, passes, n).orders[k].filled,
            ),
        forall|k: int|
            0 <= k < t0.orders.len() ==> ((#[trigger] spec_after_fill_passes(
                t0,
                passes,
                n,
            ).orders[k]).filled <==> (t0.orders[k].filled || exists|j: int|
                0 <= j < n && spec_fillable(t0.orders[k], (#[trigger] passes[j]).0))),
    decreases n,
{
    if n > 0 {
        lemma_fill_monotone(t0, passes, n - 1);
        let prev = spec_after_fill_passes(t0, passes, n - 1);
        let cur = spec_after_fill_passes(t0, passes, n);
        let book = passes[n - 1].0;
        lemma_after_fills_props(prev, book, passes[n - 1].1, prev.orders.len() as int);
        assert forall|k: int| 0 <= k < t0.orders.len() implies #[trigger] cur.orders[k]
            == spec_set_filled(t0.orders[k], cur.orders[k].filled) by {
            assert(prev.orders[k] == spec_set_filled(t0.orders[k], prev.orders[k].filled));
        }
        assert forall|k: int|
            0 <= k < t0.orders.len() implies ((#[trigger] cur.orders[k]).filled <==> (
        t0.orders[k].filled || exists|j: int|
            0 <= j < n && spec_fillable(t0.orders[k], (#[trigger] passes[j]).0))) by {
            assert(prev.orders[k] == spec_set_filled(t0.orders[k], prev.orders[k].filled));
            assert(spec_fillable(prev.orders[k], book) == spec_fillable(t0.orders[k], book));
            if cur.orders[k].filled {
                if !t0.orders[k].filled {
                    if prev.orders[k].filled {
                        let j = choose|j: int|
                            0 <= j < n - 1 && spec_fillable(t0.orders[k], (#[trigger] passes[j]).0);
                        assert(spec_fillable(t0.orders[k], passes[j].0));
                    } else {
                        assert(spec_should_fill(prev.orders[k], book));
                        assert(spec_fillable(t0.orders[k], passes[n - 1].0));
                    }
                }
            } else {
                assert(!prev.orders[k].filled);
                assert(!spec_should_fill(prev.orders[k], book));
                if exists|j: int|
                    0 <= j < n && spec_fillable(t0.orders[k], (#[trigger] passes[j]).0) {
                    let j = choose|j: int|
                        0 <= j < n && spec_fillable(t0.orders[k], (#[trigger] passes[j]).0);
                    if j < n - 1 {
                        assert(prev.orders[k].filled);
                    } else {
                        assert(spec_fillable(t0.orders[k], book));
                        assert(spec_should_fill(prev.orders[k], book));
                    }
                    assert(false);
                }
            }
        }
    }
}

} // verus!
