//! The order engine: per-snapshot decisions at the open of each 15-minute
//! period. On each snapshot the engine skips dead periods, skips the period
//! already in progress when it first starts, acts only within the first two
//! seconds of a period, places at most one symmetric order batch per
//! period, and builds one Up and one Down buy opportunity for every enabled
//! asset whose tokens are published.

use vstd::prelude::*;
use crate::market::{Asset, TokenSide, TokenType, Market, TokenPrice};
use crate::money::{quote_ok, size_ok, spec_shares_for_amount, shares_for_amount, PRICE_MAX,
    SIZE_MAX, AMOUNT_MAX};
use crate::error::EngineError;
use crate::sim::{SimulationTracker, TrackerView, Side, spec_new_order, spec_has_order, spec_order_index, spec_has_active_position};

verus! {

/// The trading configuration of the engine.
#[derive(Clone, Copy, Debug)]
pub struct EngineConfig {
    /// The fixed resting price, in micro-dollars per share.
    pub limit_price: u64,
    /// Explicit share count per order, in micro-shares, when configured.
    pub shares_override: Option<u64>,
    /// Dollar budget per order, in micro-dollars; used when no explicit
    /// share count is configured.
    pub fixed_trade_amount: u64,
    pub enable_eth: bool,
    pub enable_solana: bool,
    pub enable_xrp: bool,
    /// Monitor poll cadence, in milliseconds.
    pub check_interval_ms: u64,
    /// Cadence of the market-closure watcher, in seconds.
    pub market_closure_check_interval_seconds: u64,
}

impl EngineConfig {
    /// Micro-shares per order: the explicit share count when configured,
    /// else `fixed_trade_amount / limit_price` rounded to six decimals.
    pub open spec fn spec_order_size(self) -> int {
        match self.shares_override {
            Some(s) => s as int,
            None => spec_shares_for_amount(self.fixed_trade_amount, self.limit_price),
        }
    }

    /// A configuration the engine accepts: a positive price of at most one
    /// dollar, a budget and an order size within the engine's caps.
    pub open spec fn wf(self) -> bool {
        &&& 0 < self.limit_price <= PRICE_MAX
        &&& self.fixed_trade_amount <= AMOUNT_MAX
        &&& 0 <= self.spec_order_size() <= SIZE_MAX
    }

    /// The share count of every order placed under this configuration.
    pub fn order_size(&self) -> (s: u64)
        requires
            self.wf(),
        ensures
            s == self.spec_order_size(),
            size_ok(s),
    {
        match self.shares_override {
            Some(s) => s,
            None => shares_for_amount(self.fixed_trade_amount, self.limit_price),
        }
    }

    /// Accept or reject the configuration at startup; rejection is the
    /// fatal configuration error.
    pub fn validate(&self) -> (r: Result<(), EngineError>)
        ensures
            r is Ok <==> self.wf(),
            r is Err ==> r->Err_0 == EngineError::ConfigInvalid,
    {
        if self.limit_price == 0 || self.limit_price > PRICE_MAX {
            return Err(EngineError::ConfigInvalid);
        }
        if self.fixed_trade_amount > AMOUNT_MAX {
            return Err(EngineError::ConfigInvalid);
        }
        let size: u64 = match self.shares_override {
            Some(s) => s,
            None => shares_for_amount(self.fixed_trade_amount, self.limit_price),
        };
        if size > SIZE_MAX {
            return Err(EngineError::ConfigInvalid);
        }
        Ok(())
    }

    /// Whether trading of `asset` is enabled; BTC always is.
    pub open spec fn spec_enabled(self, asset: Asset) -> bool {
        match asset {
            Asset::Btc => true,
            Asset::Eth => self.enable_eth,
            Asset::Sol => self.enable_solana,
            Asset::Xrp => self.enable_xrp,
        }
    }
}

/// One asset's part of a snapshot: its market and the latest top-of-book
/// quote of each of its two tokens.
#[derive(Debug)]
pub struct MarketView {
    pub market: Market,
    pub up_price: TokenPrice,
    pub down_price: TokenPrice,
}

impl Clone for MarketView {
    fn clone(&self) -> (r: Self)
        ensures
            r == *self,
    {
        MarketView {
            market: self.market.clone(),
            up_price: self.up_price,
            down_price: self.down_price,
        }
    }
}

/// The state of all four assets at one poll, as delivered to the engine.
#[derive(Debug)]
pub struct PeriodSnapshot {
    pub period_timestamp: u64,
    /// Seconds left in the period; zero once it has ended.
    pub time_remaining_seconds: u64,
    pub eth: MarketView,
    pub btc: MarketView,
    pub sol: MarketView,
    pub xrp: MarketView,
}

impl Clone for PeriodSnapshot {
    fn clone(&self) -> (r: Self)
        ensures
            r == *self,
    {
        PeriodSnapshot {
            period_timestamp: self.period_timestamp,
            time_remaining_seconds: self.time_remaining_seconds,
            eth: self.eth.clone(),
            btc: self.btc.clone(),
            sol: self.sol.clone(),
            xrp: self.xrp.clone(),
        }
    }
}

impl PeriodSnapshot {
    /// The view of one asset.
    pub open spec fn spec_view_of(self, asset: Asset) -> MarketView {
        match asset {
            Asset::Btc => self.btc,
            Asset::Eth => self.eth,
            Asset::Sol => self.sol,
            Asset::Xrp => self.xrp,
        }
    }
}

/// A resting limit buy the engine decided to place.
#[derive(Debug)]
pub struct BuyOpportunity {
    pub condition_id: String,
    pub token_id: String,
    pub token_type: TokenType,
    /// The configured limit price, in micro-dollars per share.
    pub bid_price: u64,
    pub period_timestamp: u64,
    /// Seconds elapsed in the period when the decision was made.
    pub time_elapsed_seconds: u64,
    /// Always false: this engine only rests limit orders.
    pub use_market_order: bool,
}

impl Clone for BuyOpportunity {
    fn clone(&self) -> (r: Self)
        ensures
            r == *self,
    {
        BuyOpportunity {
            condition_id: self.condition_id.clone(),
            token_id: self.token_id.clone(),
            token_type: self.token_type,
            bid_price: self.bid_price,
            period_timestamp: self.period_timestamp,
            time_elapsed_seconds: self.time_elapsed_seconds,
            use_market_order: self.use_market_order,
        }
    }
}

/// The opportunity built for one token.
pub open spec fn spec_opp(
    condition_id: String,
    token_id: String,
    token_type: TokenType,
    bid_price: u64,
    period_timestamp: u64,
    time_elapsed_seconds: u64,
) -> BuyOpportunity {
    BuyOpportunity {
        condition_id,
        token_id,
        token_type,
        bid_price,
        period_timestamp,
        time_elapsed_seconds,
        use_market_order: false,
    }
}

/// The opportunities of one asset: when the asset is enabled, one Up and
/// one Down buy at the configured price, each skipped when its token id is
/// absent from the market descriptor; when disabled, none.
pub open spec fn spec_asset_opps(
    view: MarketView,
    enabled: bool,
    asset: Asset,
    bid_price: u64,
    period_timestamp: u64,
    time_elapsed_seconds: u64,
) -> Seq<BuyOpportunity> {
    if !enabled {
        Seq::empty()
    } else {
        (match view.market.up_token_id {
            Some(t) => seq![
                spec_opp(
                    view.market.condition_id,
                    t,
                    TokenType::spec_of(asset, TokenSide::Up),
                    bid_price,
                    period_timestamp,
                    time_elapsed_seconds,
                ),
            ],
            None => Seq::empty(),
        }) + (match view.market.down_token_id {
            Some(t) => seq![
                spec_opp(
                    view.market.condition_id,
                    t,
                    TokenType::spec_of(asset, TokenSide::Down),
                    bid_price,
                    period_timestamp,
                    time_elapsed_seconds,
                ),
            ],
            None => Seq::empty(),
        })
    }
}

/// The full batch built for one snapshot: BTC first (always), then each
/// enabled asset in ETH, SOL, XRP order.
pub open spec fn spec_opportunities(
    snap: PeriodSnapshot,
    cfg: EngineConfig,
    time_elapsed_seconds: u64,
) -> Seq<BuyOpportunity> {
    spec_asset_opps(
        snap.btc,
        true,
        Asset::Btc,
        cfg.limit_price,
        snap.period_timestamp,
        time_elapsed_seconds,
    ) + spec_asset_opps(
        snap.eth,
        cfg.enable_eth,
        Asset::Eth,
        cfg.limit_price,
        snap.period_timestamp,
        time_elapsed_seconds,
    ) + spec_asset_opps(
        snap.sol,
        cfg.enable_solana,
        Asset::Sol,
        cfg.limit_price,
        snap.period_timestamp,
        time_elapsed_seconds,
    ) + spec_asset_opps(
        snap.xrp,
        cfg.enable_xrp,
        Asset::Xrp,
        cfg.limit_price,
        snap.period_timestamp,
        time_elapsed_seconds,
    )
}

/// Append the opportunities of one asset to the batch.
fn push_asset_opps(
    out: &mut Vec<BuyOpportunity>,
    view: &MarketView,
    enabled: bool,
    asset: Asset,
    bid_price: u64,
    period_timestamp: u64,
    time_elapsed_seconds: u64,
)
    ensures
        final(out)@ == old(out)@ + spec_asset_opps(
            *view,
            enabled,
            asset,
            bid_price,
            period_timestamp,
            time_elapsed_seconds,
        ),
{
    if !enabled {
        proof {
            assert(final(out)@ =~= old(out)@ + spec_asset_opps(
                *view,
                enabled,
                asset,
                bid_price,
                period_timestamp,
                time_elapsed_seconds,
            ));
        }
        return;
    }
    match &view.market.up_token_id {
        Some(t) => {
            out.push(BuyOpportunity {
                condition_id: view.market.condition_id.clone(),
                token_id: t.clone(),
                token_type: TokenType::of(asset, TokenSide::Up),
                bid_price,
                period_timestamp,
                time_elapsed_seconds,
                use_market_order: false,
            });
        },
        None => {},
    }
    match &view.market.down_token_id {
        Some(t) => {
            out.push(BuyOpportunity {
                condition_id: view.market.condition_id.clone(),
                token_id: t.clone(),
                token_type: TokenType::of(asset, TokenSide::Down),
                bid_price,
                period_timestamp,
                time_elapsed_seconds,
                use_market_order: false,
            });
        },
        None => {},
    }
    proof {
        assert(final(out)@ =~= old(out)@ + spec_asset_opps(
            *view,
            enabled,
            asset,
            bid_price,
            period_timestamp,
            time_elapsed_seconds,
        ));
    }
}

/// Build the full opportunity batch for one snapshot.
pub fn build_opportunities(
    snap: &PeriodSnapshot,
    cfg: &EngineConfig,
    time_elapsed_seconds: u64,
) -> (r: Vec<BuyOpportunity>)
    ensures
        r@ == spec_opportunities(*snap, *cfg, time_elapsed_seconds),
{
    let mut out: Vec<BuyOpportunity> = Vec::new();
    push_asset_opps(
        &mut out,
        &snap.btc,
        true,
        Asset::Btc,
        cfg.limit_price,
        snap.period_timestamp,
        time_elapsed_seconds,
    );
    push_asset_opps(
        &mut out,
        &snap.eth,
        cfg.enable_eth,
        Asset::Eth,
        cfg.limit_price,
        snap.period_timestamp,
        time_elapsed_seconds,
    );
    push_asset_opps(
        &mut out,
        &snap.sol,
        cfg.enable_solana,
        Asset::Sol,
        cfg.limit_price,
        snap.period_timestamp,
        time_elapsed_seconds,
    );
    push_asset_opps(
        &mut out,
        &snap.xrp,
        cfg.enable_xrp,
        Asset::Xrp,
        cfg.limit_price,
        snap.period_timestamp,
        time_elapsed_seconds,
    );
    proof {
        assert(out@ =~= spec_opportunities(*snap, *cfg, time_elapsed_seconds));
    }
    out
}

/// Per-instance bookkeeping of the snapshot callback.
#[derive(Clone, Copy, Debug, PartialEq, Eq, Structural)]
pub struct TraderState {
    /// The most recent period for which an order batch was placed.
    pub last_placed_period: Option<u64>,
    /// The most recent period the engine has observed; unset until the
    /// first snapshot arrives.
    pub last_seen_period: Option<u64>,
}

impl TraderState {
    /// The state at engine startup: nothing seen, nothing placed.
    pub fn new() -> (s: TraderState)
        ensures
            s.last_placed_period is None,
            s.last_seen_period is None,
    {
        TraderState { last_placed_period: None, last_seen_period: None }
    }
}

/// The snapshot decision: the next bookkeeping state and the batch of buy
/// opportunities to place (empty when the engine holds back). In order:
/// a dead period places nothing; the first snapshot after startup only
/// records its period; outside the first two seconds of a period nothing
/// is placed; a period that already got its batch gets nothing more; else
/// the batch is built and the period is recorded as placed.
pub open spec fn spec_decide(s: TraderState, snap: PeriodSnapshot, cfg: EngineConfig) -> (
    TraderState,
    Seq<BuyOpportunity>,
)
    recommends
        snap.time_remaining_seconds <= 900,
{
    if snap.time_remaining_seconds == 0 {
        (s, Seq::empty())
    } else if s.last_seen_period is None {
        (TraderState { last_seen_period: Some(snap.period_timestamp), ..s }, Seq::empty())
    } else {
        let s1 = TraderState { last_seen_period: Some(snap.period_timestamp), ..s };
        let elapsed = (900 - snap.time_remaining_seconds) as u64;
        if elapsed > 2 {
            (s1, Seq::empty())
        } else if s.last_placed_period == Some(snap.period_timestamp) {
            (s1, Seq::empty())
        } else {
            let s2 = TraderState { last_placed_period: Some(snap.period_timestamp), ..s1 };
            (s2, spec_opportunities(snap, cfg, elapsed))
        }
    }
}

/// Handle one snapshot: update the bookkeeping state and return the batch
/// of buy opportunities to place.
pub fn decide_snapshot(
    state: &mut TraderState,
    snap: &PeriodSnapshot,
    cfg: &EngineConfig,
) -> (opps: Vec<BuyOpportunity>)
    requires
        snap.time_remaining_seconds <= 900,
    ensures
        *final(state) == spec_decide(*old(state), *snap, *cfg).0,
        opps@ == spec_decide(*old(state), *snap, *cfg).1,
        opps@.len() > 0 ==> 900 - snap.time_remaining_seconds <= 2,
        opps@.len() > 0 ==> final(state).last_placed_period == Some(snap.period_timestamp),
        old(state).last_seen_period is None && snap.time_remaining_seconds > 0 ==> opps@.len() == 0
            && final(state).last_seen_period == Some(snap.period_timestamp),
        old(state).last_seen_period is None ==> opps@.len() == 0,
        old(state).last_placed_period == Some(snap.period_timestamp) ==> opps@.len() == 0,
        snap.time_remaining_seconds == 0 ==> opps@.len() == 0 && *final(state) == *old(state),
        forall|k: int|
            0 <= k < opps@.len() ==> (#[trigger] opps@[k]).period_timestamp
                == snap.period_timestamp && opps@[k].bid_price == cfg.limit_price
                && opps@[k].time_elapsed_seconds == 900 - snap.time_remaining_seconds
                && !opps@[k].use_market_order,
{
    if snap.time_remaining_seconds == 0 {
        return Vec::new();
    }
    if state.last_seen_period.is_none() {
        state.last_seen_period = Some(snap.period_timestamp);
        return Vec::new();
    }
    let previously_placed: bool = match state.last_placed_period {
        Some(p) => p == snap.period_timestamp,
        None => false,
    };
    state.last_seen_period = Some(snap.period_timestamp);
    let elapsed: u64 = 900 - snap.time_remaining_seconds;
    if elapsed > 2 {
        return Vec::new();
    }
    if previously_placed {
        return Vec::new();
    }
    state.last_placed_period = Some(snap.period_timestamp);
    let opps = build_opportunities(snap, cfg, elapsed);
    proof {
        assert forall|k: int|
            0 <= k < opps@.len() implies (#[trigger] opps@[k]).period_timestamp
            == snap.period_timestamp && opps@[k].bid_price == cfg.limit_price
            && opps@[k].time_elapsed_seconds == 900 - snap.time_remaining_seconds
            && !opps@[k].use_market_order by {
            lemma_opp_block(*snap, *cfg, elapsed, k);
        }
    }
    opps
}

/// One placement step: unless an open position of this token type already
/// exists for the opportunity's period, a resting limit BUY at the
/// opportunity's price is added (replacing any pending BUY on the same
/// token). Positions and totals are untouched.
pub open spec fn spec_place_one(
    t: TrackerView,
    o: BuyOpportunity,
    size: u64,
    now: u64,
) -> TrackerView {
    if spec_has_active_position(t.positions, o.period_timestamp, o.token_type) {
        t
    } else {
        let no = spec_new_order(
            o.token_id,
            o.token_type,
            o.condition_id,
            o.bid_price,
            size,
            Side::Buy,
            o.period_timestamp,
            now,
        );
        let orders2 = if spec_has_order(t.orders, o.token_id@, Side::Buy) {
            t.orders.update(spec_order_index(t.orders, o.token_id@, Side::Buy), no)
        } else {
            t.orders.push(no)
        };
        TrackerView { orders: orders2, ..t }
    }
}

/// Placement applied to the first `n` opportunities, in batch order.
pub open spec fn spec_after_placements(
    t: TrackerView,
    opps: Seq<BuyOpportunity>,
    size: u64,
    now: u64,
    n: int,
) -> TrackerView
    decreases n,
{
    if n <= 0 {
        t
    } else {
        spec_place_one(spec_after_placements(t, opps, size, now, n - 1), opps[n - 1], size, now)
    }
}

/// Place a batch of opportunities in the simulation tracker: each one is
/// skipped when an open position of its token type already exists for its
/// period, and otherwise becomes a resting limit BUY of `size`
/// micro-shares at its price. All orders of one batch get the same size,
/// so a symmetric batch rests symmetrically.
pub fn place_opportunities(
    tracker: &mut SimulationTracker,
    opps: &Vec<BuyOpportunity>,
    size: u64,
    now: u64,
)
    requires
        old(tracker).wf(),
        size_ok(size),
        forall|k: int| 0 <= k < opps@.len() ==> quote_ok((#[trigger] opps@[k]).bid_price),
    ensures
        final(tracker)@ == spec_after_placements(
            old(tracker)@,
            opps@,
            size,
            now,
            opps@.len() as int,
        ),
        final(tracker).wf(),
        final(tracker)@.positions == old(tracker)@.positions,
        final(tracker)@.invested == old(tracker)@.invested,
        final(tracker)@.realized_pnl == old(tracker)@.realized_pnl,
        forall|k: int|
            0 <= k < final(tracker)@.orders.len() ==> ((k < old(tracker)@.orders.len()
                && #[trigger] final(tracker)@.orders[k] == old(tracker)@.orders[k])
                || (final(tracker)@.orders[k].size == size
                && final(tracker)@.orders[k].side == Side::Buy
                && !final(tracker)@.orders[k].filled)),
{
    let n: usize = opps.len();
    let mut i: usize = 0;
    while i < n
        invariant
            tracker.wf(),
            size_ok(size),
            forall|k: int| 0 <= k < opps@.len() ==> quote_ok((#[trigger] opps@[k]).bid_price),
            n == opps@.len(),
            i <= n,
            tracker@ == spec_after_placements(old(tracker)@, opps@, size, now, i as int),
            tracker@.positions == old(tracker)@.positions,
            tracker@.invested == old(tracker)@.invested,
            tracker@.realized_pnl == old(tracker)@.realized_pnl,
        decreases n - i,
    {
        let ghost pre = tracker@;
        let skip: bool = tracker.has_active_position(
            opps[i].period_timestamp,
            opps[i].token_type,
        );
        if !skip {
            tracker.add_limit_order(
                opps[i].token_id.clone(),
                opps[i].token_type,
                opps[i].condition_id.clone(),
                opps[i].bid_price,
                size,
                Side::Buy,
                opps[i].period_timestamp,
                now,
            );
        }
        proof {
            assert(tracker@ =~= spec_place_one(pre, opps@[i as int], size, now));
            assert(tracker@ == spec_after_placements(old(tracker)@, opps@, size, now, i as int
                + 1));
        }
        i = i + 1;
    }
    proof {
        lemma_placement_sizes(old(tracker)@, opps@, size, now, n as int);
    }
}

/// Placement only ever adds or replaces resting BUY orders of the one
/// batch size: every order it leaves behind is either an untouched order
/// that was already there, or an unfilled BUY of `size` micro-shares —
/// so a symmetric batch rests with identical sizes.
proof fn lemma_placement_sizes(
    t0: TrackerView,
    opps: Seq<BuyOpportunity>,
    size: u64,
    now: u64,
    n: int,
)
    requires
        0 <= n <= opps.len(),
    ensures
        spec_after_placements(t0, opps, size, now, n).orders.len() >= t0.orders.len(),
        forall|k: int|
            0 <= k < spec_after_placements(t0, opps, size, now, n).orders.len() ==> ((k
                < t0.orders.len() && #[trigger] spec_after_placements(
                t0,
                opps,
                size,
                now,
                n,
            ).orders[k] == t0.orders[k]) || (spec_after_placements(
                t0,
                opps,
                size,
                now,
                n,
            ).orders[k].size == size && spec_after_placements(
                t0,
                opps,
                size,
                now,
                n,
            ).orders[k].side == Side::Buy && !spec_after_placements(
                t0,
                opps,
                size,
                now,
                n,
            ).orders[k].filled)),
    decreases n,
{
    if n > 0 {
        lemma_placement_sizes(t0, opps, size, now, n - 1);
        let prev = spec_after_placements(t0, opps, size, now, n - 1);
        let cur = spec_after_placements(t0, opps, size, now, n);
        let o = opps[n - 1];
        if !spec_has_active_position(prev.positions, o.period_timestamp, o.token_type) {
            let no = spec_new_order(
                o.token_id,
                o.token_type,
                o.condition_id,
                o.bid_price,
                size,
                Side::Buy,
                o.period_timestamp,
                now,
            );
            assert(no.size == size && no.side == Side::Buy && !no.filled);
            assert forall|k: int|
                0 <= k < cur.orders.len() implies ((k < t0.orders.len()
                && #[trigger] cur.orders[k] == t0.orders[k]) || (cur.orders[k].size == size
                && cur.orders[k].side == Side::Buy && !cur.orders[k].filled)) by {
                if k < prev.orders.len() && cur.orders[k] == prev.orders[k] {
                } else {
                    assert(cur.orders[k] == no);
                }
            }
        }
    }
}

/// How many opportunities of a batch carry this token.
pub open spec fn spec_count_token(opps: Seq<BuyOpportunity>, token_type: TokenType) -> int
    decreases opps.len(),
{
    if opps.len() == 0 {
        0
    } else {
        spec_count_token(opps.drop_last(), token_type) + (if opps.last().token_type == token_type {
            1int
        } else {
            0int
        })
    }
}

/// Token counting distributes over batch concatenation.
proof fn lemma_count_concat(a: Seq<BuyOpportunity>, b: Seq<BuyOpportunity>, token_type: TokenType)
    ensures
        spec_count_token(a + b, token_type) == spec_count_token(a, token_type) + spec_count_token(
            b,
            token_type,
        ),
    decreases b.len(),
{
    if b.len() == 0 {
        assert(a + b =~= a);
    } else {
        lemma_count_concat(a, b.drop_last(), token_type);
        assert((a + b).drop_last() =~= a + b.drop_last());
        assert((a + b).last() == b.last());
    }
}

/// A batch whose every entry carries another token counts zero.
proof fn lemma_count_absent(s: Seq<BuyOpportunity>, token_type: TokenType)
    requires
        forall|k: int| 0 <= k < s.len() ==> (#[trigger] s[k]).token_type != token_type,
    ensures
        spec_count_token(s, token_type) == 0,
    decreases s.len(),
{
    if s.len() > 0 {
        lemma_count_absent(s.drop_last(), token_type);
    }
}

/// Every entry of one asset's block carries that asset's tokens, the
/// configured price and the snapshot's period; with both tokens present
/// and the asset enabled the block is exactly one Up and one Down buy.
proof fn lemma_asset_opps_shape(
    view: MarketView,
    enabled: bool,
    asset: Asset,
    bid_price: u64,
    period_timestamp: u64,
    time_elapsed_seconds: u64,
)
    ensures
        forall|k: int|
            0 <= k < spec_asset_opps(
                view,
                enabled,
                asset,
                bid_price,
                period_timestamp,
                time_elapsed_seconds,
            ).len() ==> {
                let o = #[trigger] spec_asset_opps(
                    view,
                    enabled,
                    asset,
                    bid_price,
                    period_timestamp,
                    time_elapsed_seconds,
                )[k];
                o.token_type.spec_asset() == asset && o.bid_price == bid_price
                    && o.period_timestamp == period_timestamp && o.time_elapsed_seconds
                    == time_elapsed_seconds && !o.use_market_order && o.condition_id
                    == view.market.condition_id
            },
        !enabled ==> spec_asset_opps(
            view,
            enabled,
            asset,
            bid_price,
            period_timestamp,
            time_elapsed_seconds,
        ).len() == 0,
        enabled && view.market.up_token_id is Some && view.market.down_token_id is Some
            ==> spec_asset_opps(
            view,
            enabled,
            asset,
            bid_price,
            period_timestamp,
            time_elapsed_seconds,
        ) =~= seq![
            spec_opp(
                view.market.condition_id,
                view.market.up_token_id->0,
                TokenType::spec_of(asset, TokenSide::Up),
                bid_price,
                period_timestamp,
                time_elapsed_seconds,
            ),
            spec_opp(
                view.market.condition_id,
                view.market.down_token_id->0,
                TokenType::spec_of(asset, TokenSide::Down),
                bid_price,
                period_timestamp,
                time_elapsed_seconds,
            ),
        ],
{
    let s = spec_asset_opps(view, enabled, asset, bid_price, period_timestamp,
        time_elapsed_seconds);
    if enabled {
        match view.market.up_token_id {
            Some(t) => {
                match view.market.down_token_id {
                    Some(t2) => {
                        assert(s.len() == 2);
                    },
                    None => {
                        assert(s.len() == 1);
                    },
                }
            },
            None => {
                match view.market.down_token_id {
                    Some(t2) => {
                        assert(s.len() == 1);
                    },
                    None => {
                        assert(s.len() == 0);
                    },
                }
            },
        }
    }
}

/// Symmetry of the batch: for every enabled asset whose market publishes
/// both tokens, one snapshot's batch holds exactly one Up buy and exactly
/// one Down buy of that asset, and every entry of the batch rests at the
/// one configured limit price (placement then gives every entry of the
/// batch the same size).
pub proof fn lemma_symmetric_batch(
    snap: PeriodSnapshot,
    cfg: EngineConfig,
    time_elapsed_seconds: u64,
    asset: Asset,
)
    requires
        cfg.spec_enabled(asset),
        snap.spec_view_of(asset).market.up_token_id is Some,
        snap.spec_view_of(asset).market.down_token_id is Some,
    ensures
        spec_count_token(
            spec_opportunities(snap, cfg, time_elapsed_seconds),
            TokenType::spec_of(asset, TokenSide::Up),
        ) == 1,
        spec_count_token(
            spec_opportunities(snap, cfg, time_elapsed_seconds),
            TokenType::spec_of(asset, TokenSide::Down),
        ) == 1,
        forall|k: int|
            0 <= k < spec_opportunities(snap, cfg, time_elapsed_seconds).len()
                ==> (#[trigger] spec_opportunities(snap, cfg, time_elapsed_seconds)[k]).bid_price
                == cfg.limit_price,
{
    let p = snap.period_timestamp;
    let b_btc = spec_asset_opps(snap.btc, true, Asset::Btc, cfg.limit_price, p,
        time_elapsed_seconds);
    let b_eth = spec_asset_opps(snap.eth, cfg.enable_eth, Asset::Eth, cfg.limit_price, p,
        time_elapsed_seconds);
    let b_sol = spec_asset_opps(snap.sol, cfg.enable_solana, Asset::Sol, cfg.limit_price, p,
        time_elapsed_seconds);
    let b_xrp = spec_asset_opps(snap.xrp, cfg.enable_xrp, Asset::Xrp, cfg.limit_price, p,
        time_elapsed_seconds);
    let whole = spec_opportunities(snap, cfg, time_elapsed_seconds);
    lemma_asset_opps_shape(snap.btc, true, Asset::Btc, cfg.limit_price, p, time_elapsed_seconds);
    lemma_asset_opps_shape(snap.eth, cfg.enable_eth, Asset::Eth, cfg.limit_price, p,
        time_elapsed_seconds);
    lemma_asset_opps_shape(snap.sol, cfg.enable_solana, Asset::Sol, cfg.limit_price, p,
        time_elapsed_seconds);
    lemma_asset_opps_shape(snap.xrp, cfg.enable_xrp, Asset::Xrp, cfg.limit_price, p,
        time_elapsed_seconds);
    assert forall|k: int| 0 <= k < whole.len() implies (#[trigger] whole[k]).bid_price
        == cfg.limit_price by {
        lemma_opp_block(snap, cfg, time_elapsed_seconds, k);
    }
    let up = TokenType::spec_of(asset, TokenSide::Up);
    let down = TokenType::spec_of(asset, TokenSide::Down);
    lemma_count_concat(b_btc + b_eth + b_sol, b_xrp, up);
    lemma_count_concat(b_btc + b_eth, b_sol, up);
    lemma_count_concat(b_btc, b_eth, up);
    lemma_count_concat(b_btc + b_eth + b_sol, b_xrp, down);
    lemma_count_concat(b_btc + b_eth, b_sol, down);
    lemma_count_concat(b_btc, b_eth, down);
    lemma_block_counts(b_btc, Asset::Btc, asset, up, down);
    lemma_block_counts(b_eth, Asset::Eth, asset, up, down);
    lemma_block_counts(b_sol, Asset::Sol, asset, up, down);
    lemma_block_counts(b_xrp, Asset::Xrp, asset, up, down);
    let view = snap.spec_view_of(asset);
    let u = spec_opp(view.market.condition_id, view.market.up_token_id->0, up, cfg.limit_price, p,
        time_elapsed_seconds);
    let d = spec_opp(view.market.condition_id, view.market.down_token_id->0, down,
        cfg.limit_price, p, time_elapsed_seconds);
    let own = spec_asset_opps(view, cfg.spec_enabled(asset), asset, cfg.limit_price, p,
        time_elapsed_seconds);
    lemma_asset_opps_shape(view, cfg.spec_enabled(asset), asset, cfg.limit_price, p,
        time_elapsed_seconds);
    assert(own =~= seq![u, d]);
    match asset {
        Asset::Btc => {
            assert(up == TokenType::BtcUp && down == TokenType::BtcDown);
            assert(own =~= b_btc);
        },
        Asset::Eth => {
            assert(up == TokenType::EthUp && down == TokenType::EthDown);
            assert(own =~= b_eth);
        },
        Asset::Sol => {
            assert(up == TokenType::SolanaUp && down == TokenType::SolanaDown);
            assert(own =~= b_sol);
        },
        Asset::Xrp => {
            assert(up == TokenType::XrpUp && down == TokenType::XrpDown);
            assert(own =~= b_xrp);
        },
    }
    assert(up != down);
    let e = Seq::<BuyOpportunity>::empty();
    assert(spec_count_token(e, up) == 0);
    assert(spec_count_token(e, down) == 0);
    assert(seq![u].drop_last() =~= e);
    assert(seq![u].last() == u);
    assert(u.token_type == up);
    assert(spec_count_token(seq![u], up) == spec_count_token(e, up) + 1);
    assert(spec_count_token(seq![u], down) == spec_count_token(e, down));
    assert(seq![u, d].drop_last() =~= seq![u]);
    assert(seq![u, d].last() == d);
    assert(d.token_type == down);
    assert(spec_count_token(seq![u, d], up) == spec_count_token(seq![u], up));
    assert(spec_count_token(seq![u, d], down) == spec_count_token(seq![u], down) + 1);
    assert(spec_count_token(own, up) == 1);
    assert(spec_count_token(own, down) == 1);
}

/// The batch entry at `k` belongs to one of the four asset blocks, so it
/// carries that block's asset, the configured price, the snapshot's period
/// and elapsed time, and is not a market order.
proof fn lemma_opp_block(snap: PeriodSnapshot, cfg: EngineConfig, time_elapsed_seconds: u64, k: int)
    requires
        0 <= k < spec_opportunities(snap, cfg, time_elapsed_seconds).len(),
    ensures
        (#[trigger] spec_opportunities(snap, cfg, time_elapsed_seconds)[k]).bid_price
            == cfg.limit_price,
        spec_opportunities(snap, cfg, time_elapsed_seconds)[k].period_timestamp
            == snap.period_timestamp,
        spec_opportunities(snap, cfg, time_elapsed_seconds)[k].time_elapsed_seconds
            == time_elapsed_seconds,
        !spec_opportunities(snap, cfg, time_elapsed_seconds)[k].use_market_order,
        cfg.spec_enabled(
            spec_opportunities(snap, cfg, time_elapsed_seconds)[k].token_type.spec_asset(),
        ),
{
    let p = snap.period_timestamp;
    let b_btc = spec_asset_opps(snap.btc, true, Asset::Btc, cfg.limit_price, p,
        time_elapsed_seconds);
    let b_eth = spec_asset_opps(snap.eth, cfg.enable_eth, Asset::Eth, cfg.limit_price, p,
        time_elapsed_seconds);
    let b_sol = spec_asset_opps(snap.sol, cfg.enable_solana, Asset::Sol, cfg.limit_price, p,
        time_elapsed_seconds);
    let b_xrp = spec_asset_opps(snap.xrp, cfg.enable_xrp, Asset::Xrp, cfg.limit_price, p,
        time_elapsed_seconds);
    lemma_asset_opps_shape(snap.btc, true, Asset::Btc, cfg.limit_price, p, time_elapsed_seconds);
    lemma_asset_opps_shape(snap.eth, cfg.enable_eth, Asset::Eth, cfg.limit_price, p,
        time_elapsed_seconds);
    lemma_asset_opps_shape(snap.sol, cfg.enable_solana, Asset::Sol, cfg.limit_price, p,
        time_elapsed_seconds);
    lemma_asset_opps_shape(snap.xrp, cfg.enable_xrp, Asset::Xrp, cfg.limit_price, p,
        time_elapsed_seconds);
    let whole = spec_opportunities(snap, cfg, time_elapsed_seconds);
    if k < b_btc.len() {
        assert(whole[k] == b_btc[k]);
    } else if k < b_btc.len() + b_eth.len() {
        assert(whole[k] == b_eth[k - b_btc.len()]);
        assert(b_eth.len() > 0);
        assert(cfg.enable_eth) by {
            if !cfg.enable_eth {
                assert(b_eth.len() == 0);
            }
        }
    } else if k < b_btc.len() + b_eth.len() + b_sol.len() {
        assert(whole[k] == b_sol[k - b_btc.len() - b_eth.len()]);
        assert(cfg.enable_solana) by {
            if !cfg.enable_solana {
                assert(b_sol.len() == 0);
            }
        }
    } else {
        assert(whole[k] == b_xrp[k - b_btc.len() - b_eth.len() - b_sol.len()]);
        assert(cfg.enable_xrp) by {
            if !cfg.enable_xrp {
                assert(b_xrp.len() == 0);
            }
        }
    }
}

/// Within one block, the Up and the Down token of `asset` each occur at
/// most once, and not at all when the block belongs to another asset.
proof fn lemma_block_counts(
    block: Seq<BuyOpportunity>,
    block_asset: Asset,
    asset: Asset,
    up: TokenType,
    down: TokenType,
)
    requires
        forall|k: int|
            0 <= k < block.len() ==> (#[trigger] block[k]).token_type.spec_asset() == block_asset,
        up.spec_asset() == asset,
        down.spec_asset() == asset,
    ensures
        block_asset != asset ==> spec_count_token(block, up) == 0 && spec_count_token(block, down)
            == 0,
{
    if block_asset != asset {
        lemma_count_absent(block, up);
        lemma_count_absent(block, down);
    }
}

/// Disabled assets are excluded: when an asset is disabled, no entry of
/// any batch carries one of its tokens.
pub proof fn lemma_disabled_asset_excluded(
    snap: PeriodSnapshot,
    cfg: EngineConfig,
    time_elapsed_seconds: u64,
    asset: Asset,
)
    requires
        !cfg.spec_enabled(asset),
    ensures
        forall|k: int|
            0 <= k < spec_opportunities(snap, cfg, time_elapsed_seconds).len()
                ==> (#[trigger] spec_opportunities(snap, cfg, time_elapsed_seconds)[
                k]).token_type.spec_asset() != asset,
{
    assert forall|k: int|
        0 <= k < spec_opportunities(snap, cfg, time_elapsed_seconds).len() implies (
    #[trigger] spec_opportunities(snap, cfg, time_elapsed_seconds)[k]).token_type.spec_asset()
        != asset by {
        lemma_opp_block(snap, cfg, time_elapsed_seconds, k);
    }
}

/// The bookkeeping state after the engine has handled a whole sequence of
/// snapshots, starting from `s0`.
pub open spec fn spec_state_after(
    s0: TraderState,
    snaps: Seq<PeriodSnapshot>,
    cfg: EngineConfig,
) -> TraderState
    decreases snaps.len(),
{
    if snaps.len() == 0 {
        s0
    } else {
        spec_decide(spec_state_after(s0, snaps.drop_last(), cfg), snaps.last(), cfg).0
    }
}

/// The batch the engine emits for the snapshot at index `i` of a run.
pub open spec fn spec_batch_at(
    s0: TraderState,
    snaps: Seq<PeriodSnapshot>,
    cfg: EngineConfig,
    i: int,
) -> Seq<BuyOpportunity>
    recommends
        0 <= i < snaps.len(),
{
    spec_decide(spec_state_after(s0, snaps.subrange(0, i), cfg), snaps[i], cfg).1
}

/// Processing one more snapshot advances the run state by one decision.
proof fn lemma_state_step(s0: TraderState, snaps: Seq<PeriodSnapshot>, cfg: EngineConfig, i: int)
    requires
        0 <= i < snaps.len(),
    ensures
        spec_state_after(s0, snaps.subrange(0, i + 1), cfg) == spec_decide(
            spec_state_after(s0, snaps.subrange(0, i), cfg),
            snaps[i],
            cfg,
        ).0,
{
    let pre = snaps.subrange(0, i + 1);
    assert(pre.drop_last() =~= snaps.subrange(0, i));
    assert(pre.last() == snaps[i]);
}

/// Once a batch was placed for period `p` and every following snapshot up
/// to `k` still reports period `p`, the engine keeps `p` recorded as the
/// last placed period.
proof fn lemma_placed_persists(
    s0: TraderState,
    snaps: Seq<PeriodSnapshot>,
    cfg: EngineConfig,
    p: u64,
    i: int,
    k: int,
)
    requires
        0 <= i <= k <= snaps.len(),
        spec_state_after(s0, snaps.subrange(0, i), cfg).last_placed_period == Some(p),
        forall|m: int| i <= m < k ==> (#[trigger] snaps[m]).period_timestamp == p,
    ensures
        spec_state_after(s0, snaps.subrange(0, k), cfg).last_placed_period == Some(p),
    decreases k - i,
{
    if k > i {
        lemma_placed_persists(s0, snaps, cfg, p, i, k - 1);
        lemma_state_step(s0, snaps, cfg, k - 1);
    }
}

/// At-most-once placement per period: over any run whose snapshot periods
/// never decrease (the clock moves forward), no two snapshots of the same
/// period both get a non-empty batch — so for any period and any token,
/// at most one BUY order for that period is ever handed to placement.
pub proof fn lemma_at_most_once_per_period(
    s0: TraderState,
    snaps: Seq<PeriodSnapshot>,
    cfg: EngineConfig,
)
    requires
        forall|a: int, b: int|
            0 <= a < b < snaps.len() ==> (#[trigger] snaps[a]).period_timestamp
                <= (#[trigger] snaps[b]).period_timestamp,
    ensures
        forall|a: int, b: int|
            0 <= a < b < snaps.len() && spec_batch_at(s0, snaps, cfg, a).len() > 0
                && spec_batch_at(s0, snaps, cfg, b).len() > 0 ==> (
            #[trigger] snaps[a]).period_timestamp != (#[trigger] snaps[b]).period_timestamp,
{
    assert forall|a: int, b: int|
        0 <= a < b < snaps.len() && spec_batch_at(s0, snaps, cfg, a).len() > 0 && spec_batch_at(
            s0,
            snaps,
            cfg,
            b,
        ).len() > 0 implies (#[trigger] snaps[a]).period_timestamp != (
    #[trigger] snaps[b]).period_timestamp by {
        if snaps[a].period_timestamp == snaps[b].period_timestamp {
            let p = snaps[a].period_timestamp;
            let sa = spec_state_after(s0, snaps.subrange(0, a), cfg);
            assert(spec_decide(sa, snaps[a], cfg).1.len() > 0);
            assert(spec_decide(sa, snaps[a], cfg).0.last_placed_period == Some(p));
            lemma_state_step(s0, snaps, cfg, a);
            assert(spec_state_after(s0, snaps.subrange(0, a + 1), cfg).last_placed_period == Some(
                p,
            ));
            assert forall|m: int| a + 1 <= m < b implies (#[trigger] snaps[m]).period_timestamp
                == p by {
                assert(snaps[a].period_timestamp <= snaps[m].period_timestamp);
                assert(snaps[m].period_timestamp <= snaps[b].period_timestamp);
            }
            lemma_placed_persists(s0, snaps, cfg, p, a + 1, b);
            let sb = spec_state_after(s0, snaps.subrange(0, b), cfg);
            assert(sb.last_placed_period == Some(p));
            assert(spec_batch_at(s0, snaps, cfg, b).len() == 0);
        }
    }
}

/// Startup skip: an engine that starts with nothing seen places no orders
/// for the period already in progress — its first batch is always empty.
pub proof fn lemma_startup_skip(s0: TraderState, snaps: Seq<PeriodSnapshot>, cfg: EngineConfig)
    requires
        s0.last_seen_period is None,
        snaps.len() > 0,
    ensures
        spec_batch_at(s0, snaps, cfg, 0).len() == 0,
{
    assert(snaps.subrange(0, 0) =~= Seq::<PeriodSnapshot>::empty());
    assert(spec_state_after(s0, snaps.subrange(0, 0), cfg) == s0);
}

/// Within one asset's block every token occurs at most once, and a token
/// of another asset not at all.
proof fn lemma_asset_opps_count(
    view: MarketView,
    enabled: bool,
    asset: Asset,
    bid_price: u64,
    period_timestamp: u64,
    time_elapsed_seconds: u64,
    token_type: TokenType,
)
    ensures
        spec_count_token(
            spec_asset_opps(
                view,
                enabled,
                asset,
                bid_price,
                period_timestamp,
                time_elapsed_seconds,
            ),
            token_type,
        ) <= 1,
        token_type.spec_asset() != asset ==> spec_count_token(
            spec_asset_opps(
                view,
                enabled,
                asset,
                bid_price,
                period_timestamp,
                time_elapsed_seconds,
            ),
            token_type,
        ) == 0,
{
    let s = spec_asset_opps(view, enabled, asset, bid_price, period_timestamp,
        time_elapsed_seconds);
    let e = Seq::<BuyOpportunity>::empty();
    assert(spec_count_token(e, token_type) == 0);
    if enabled {
        let up = TokenType::spec_of(asset, TokenSide::Up);
        let down = TokenType::spec_of(asset, TokenSide::Down);
        assert(up.spec_asset() == asset && down.spec_asset() == asset && up != down) by {
            match asset {
                Asset::Btc => {},
                Asset::Eth => {},
                Asset::Sol => {},
                Asset::Xrp => {},
            }
        }
        match view.market.up_token_id {
            Some(t) => {
                match view.market.down_token_id {
                    Some(t2) => {
                        assert(s.len() == 2);
                        assert(s[0].token_type == up && s[1].token_type == down);
                        assert(s.drop_last() =~= seq![s[0]]);
                        assert(seq![s[0]].drop_last() =~= e);
                        assert(seq![s[0]].last() == s[0]);
                        assert(spec_count_token(seq![s[0]], token_type) == (if s[0].token_type
                            == token_type {
                            1int
                        } else {
                            0int
                        }));
                        assert(spec_count_token(s, token_type) == spec_count_token(
                            seq![s[0]],
                            token_type,
                        ) + (if s[1].token_type == token_type {
                            1int
                        } else {
                            0int
                        }));
                    },
                    None => {
                        assert(s.len() == 1);
                        assert(s[0].token_type == up);
                        assert(s.drop_last() =~= e);
                        assert(s.last() == s[0]);
                    },
                }
            },
            None => {
                match view.market.down_token_id {
                    Some(t2) => {
                        assert(s.len() == 1);
                        assert(s[0].token_type == down);
                        assert(s.drop_last() =~= e);
                        assert(s.last() == s[0]);
                    },
                    None => {
                        assert(s =~= e);
                    },
                }
            },
        }
    }
}

/// One batch never carries the same token twice: together with the
/// at-most-one-batch-per-period run law, the engine hands placement at
/// most one BUY per token and period.
pub proof fn lemma_batch_token_unique(
    snap: PeriodSnapshot,
    cfg: EngineConfig,
    time_elapsed_seconds: u64,
    token_type: TokenType,
)
    ensures
        spec_count_token(spec_opportunities(snap, cfg, time_elapsed_seconds), token_type) <= 1,
{
    let p = snap.period_timestamp;
    let b_btc = spec_asset_opps(snap.btc, true, Asset::Btc, cfg.limit_price, p,
        time_elapsed_seconds);
    let b_eth = spec_asset_opps(snap.eth, cfg.enable_eth, Asset::Eth, cfg.limit_price, p,
        time_elapsed_seconds);
    let b_sol = spec_asset_opps(snap.sol, cfg.enable_solana, Asset::Sol, cfg.limit_price, p,
        time_elapsed_seconds);
    let b_xrp = spec_asset_opps(snap.xrp, cfg.enable_xrp, Asset::Xrp, cfg.limit_price, p,
        time_elapsed_seconds);
    lemma_count_concat(b_btc + b_eth + b_sol, b_xrp, token_type);
    lemma_count_concat(b_btc + b_eth, b_sol, token_type);
    lemma_count_concat(b_btc, b_eth, token_type);
    lemma_asset_opps_count(snap.btc, true, Asset::Btc, cfg.limit_price, p, time_elapsed_seconds,
        token_type);
    lemma_asset_opps_count(snap.eth, cfg.enable_eth, Asset::Eth, cfg.limit_price, p,
        time_elapsed_seconds, token_type);
    lemma_asset_opps_count(snap.sol, cfg.enable_solana, Asset::Sol, cfg.limit_price, p,
        time_elapsed_seconds, token_type);
    lemma_asset_opps_count(snap.xrp, cfg.enable_xrp, Asset::Xrp, cfg.limit_price, p,
        time_elapsed_seconds, token_type);
    match token_type.spec_asset() {
        Asset::Btc => {},
        Asset::Eth => {},
        Asset::Sol => {},
        Asset::Xrp => {},
    }
}

} // verus!
