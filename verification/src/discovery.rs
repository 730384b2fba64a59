//! Market discovery: the slug schedule tried at each period boundary, the
//! acceptance rule for a fetched market, the placeholder markets of
//! disabled assets, and the condition-id uniqueness check that guards the
//! four-asset market set.

use vstd::prelude::*;
use vstd::string::StringExecFns;
use crate::clock::spec_period_start;
use crate::clock::period_start;
use crate::error::EngineError;
use crate::market::{Asset, Market, contains_id, str_eq};
use crate::slug::{spec_slug, slug_for, spec_is_dummy, dummy_prefix};

verus! {

/// The four-asset market set held by the monitor.
#[derive(Debug)]
pub struct MarketSet {
    pub eth: Market,
    pub btc: Market,
    pub sol: Market,
    pub xrp: Market,
}

impl Clone for MarketSet {
    fn clone(&self) -> (r: Self)
        ensures
            r == *self,
    {
        MarketSet {
            eth: self.eth.clone(),
            btc: self.btc.clone(),
            sol: self.sol.clone(),
            xrp: self.xrp.clone(),
        }
    }
}

/// The reserved condition id of the placeholder market of `asset`.
pub open spec fn spec_dummy_id(asset: Asset) -> Seq<char> {
    match asset {
        Asset::Btc => "dummy_btc_fallback"@,
        Asset::Eth => "dummy_eth_fallback"@,
        Asset::Sol => "dummy_solana_fallback"@,
        Asset::Xrp => "dummy_xrp_fallback"@,
    }
}

/// The slug of the placeholder market of `asset`.
pub open spec fn spec_dummy_slug(asset: Asset) -> Seq<char> {
    match asset {
        Asset::Btc => "btc-updown-15m-fallback"@,
        Asset::Eth => "eth-updown-15m-fallback"@,
        Asset::Sol => "solana-updown-15m-fallback"@,
        Asset::Xrp => "xrp-updown-15m-fallback"@,
    }
}

/// The placeholder market used when `asset` is disabled or could not be
/// discovered: inactive, closed, without tokens, and with a reserved
/// `dummy_` condition id, so it is never traded.
pub fn disabled_market(asset: Asset) -> (m: Market)
    ensures
        m.condition_id@ == spec_dummy_id(asset),
        m.slug@ == spec_dummy_slug(asset),
        !m.active,
        m.closed,
        !m.tradable(),
        m.up_token_id is None,
        m.down_token_id is None,
        m.period_timestamp == 0,
        spec_is_dummy(m.condition_id@),
{
    let condition_id: String = match asset {
        Asset::Btc => String::from_str("dummy_btc_fallback"),
        Asset::Eth => String::from_str("dummy_eth_fallback"),
        Asset::Sol => String::from_str("dummy_solana_fallback"),
        Asset::Xrp => String::from_str("dummy_xrp_fallback"),
    };
    let slug: String = match asset {
        Asset::Btc => String::from_str("btc-updown-15m-fallback"),
        Asset::Eth => String::from_str("eth-updown-15m-fallback"),
        Asset::Sol => String::from_str("solana-updown-15m-fallback"),
        Asset::Xrp => String::from_str("xrp-updown-15m-fallback"),
    };
    proof {
        reveal_strlit("dummy_btc_fallback");
        reveal_strlit("dummy_eth_fallback");
        reveal_strlit("dummy_solana_fallback");
        reveal_strlit("dummy_xrp_fallback");
        assert(condition_id@.subrange(0, 6) =~= dummy_prefix());
    }
    Market {
        condition_id,
        slug,
        active: false,
        closed: true,
        up_token_id: None,
        down_token_id: None,
        period_timestamp: 0,
    }
}

/// The fields every placeholder market has: the reserved condition id
/// and slug of its asset, untradable, without tokens, at period zero.
pub open spec fn spec_is_disabled_market(m: Market, asset: Asset) -> bool {
    &&& m.condition_id@ == spec_dummy_id(asset)
    &&& m.slug@ == spec_dummy_slug(asset)
    &&& !m.active
    &&& m.closed
    &&& m.up_token_id is None
    &&& m.down_token_id is None
    &&& m.period_timestamp == 0
}

/// The placeholder market of ETH (disabled or undiscoverable).
pub fn disabled_eth_market() -> (m: Market)
    ensures
        spec_is_disabled_market(m, Asset::Eth),
        !m.tradable(),
{
    disabled_market(Asset::Eth)
}

/// The placeholder market of Solana (disabled or undiscoverable).
pub fn disabled_solana_market() -> (m: Market)
    ensures
        spec_is_disabled_market(m, Asset::Sol),
        !m.tradable(),
{
    disabled_market(Asset::Sol)
}

/// The placeholder market of XRP (disabled or undiscoverable).
pub fn disabled_xrp_market() -> (m: Market)
    ensures
        spec_is_disabled_market(m, Asset::Xrp),
        !m.tradable(),
{
    disabled_market(Asset::Xrp)
}

/// The discovered market of `asset`, or its placeholder when discovery
/// found none.
pub fn market_or_disabled(found: Option<Market>, asset: Asset) -> (m: Market)
    ensures
        found is Some ==> m == found->0,
        found is None ==> spec_is_disabled_market(m, asset) && !m.tradable(),
{
    match found {
        Some(m) => m,
        None => disabled_market(asset),
    }
}

/// The condition id the assembled set carries for one asset: the
/// discovered market's id, or the asset's reserved placeholder id.
pub open spec fn spec_assembled_id(found: Option<Market>, asset: Asset) -> Seq<char> {
    match found {
        Some(m) => m.condition_id@,
        None => spec_dummy_id(asset),
    }
}

/// How many slugs the schedule tries per prefix: the current period alone,
/// or the current period and the three before it.
pub open spec fn spec_tries_per_prefix(include_previous: bool) -> int {
    if include_previous {
        4
    } else {
        1
    }
}

/// The slug tried at step `i` of the schedule: prefixes are walked in
/// order, and under each prefix the periods `p`, `p - 900`, `p - 1800`,
/// `p - 2700` (the offsets only when `include_previous`).
pub open spec fn spec_slug_at(
    prefixes: Seq<Seq<char>>,
    p: int,
    include_previous: bool,
    i: int,
) -> Seq<char> {
    spec_slug(
        prefixes[i / spec_tries_per_prefix(include_previous)],
        p - 900 * (i % spec_tries_per_prefix(include_previous)),
    )
}

/// The ordered schedule of market slugs that discovery fetches for `now`:
/// for each prefix in order, the slug of the current period, then (when
/// `include_previous`) of the three periods before it.
pub fn discovery_slugs(prefixes: &Vec<String>, now: u64, include_previous: bool) -> (r: Vec<
    String,
>)
    requires
        spec_period_start(now) >= 2700,
    ensures
        r@.len() == prefixes@.len() * spec_tries_per_prefix(include_previous),
        forall|i: int|
            0 <= i < r@.len() ==> r@[i]@ == spec_slug_at(
                prefixes@.map_values(|s: String| s@),
                spec_period_start(now),
                include_previous,
                i,
            ),
{
    let p: u64 = period_start(now);
    let tries: usize = if include_previous {
        4
    } else {
        1
    };
    let mut r: Vec<String> = Vec::new();
    let mut k: usize = 0;
    while k < prefixes.len()
        invariant
            spec_period_start(now) >= 2700,
            p == spec_period_start(now),
            tries == spec_tries_per_prefix(include_previous),
            k <= prefixes@.len(),
            r@.len() == k * tries,
            forall|i: int|
                0 <= i < r@.len() ==> r@[i]@ == spec_slug_at(
                    prefixes@.map_values(|s: String| s@),
                    p as int,
                    include_previous,
                    i,
                ),
        decreases prefixes@.len() - k,
    {
        let mut o: usize = 0;
        while o < tries
            invariant
                spec_period_start(now) >= 2700,
                p == spec_period_start(now),
                tries == spec_tries_per_prefix(include_previous),
                k < prefixes@.len(),
                o <= tries,
                r@.len() == k * tries + o,
                forall|i: int|
                    0 <= i < r@.len() ==> r@[i]@ == spec_slug_at(
                        prefixes@.map_values(|s: String| s@),
                        p as int,
                        include_previous,
                        i,
                    ),
            decreases tries - o,
        {
            let offset: u64 = 900 * (o as u64);
            let s: String = slug_for(prefixes[k].as_str(), p - offset);
            proof {
                let i = r@.len() as int;
                assert(i / (tries as int) == k as int) by (nonlinear_arith)
                    requires
                        i == k * tries + o,
                        0 <= o < tries,
                        0 < tries,
                        0 <= k,
                ;
                assert(i % (tries as int) == o as int) by (nonlinear_arith)
                    requires
                        i == k * tries + o,
                        0 <= o < tries,
                        0 < tries,
                        0 <= k,
                ;
            }
            r.push(s);
            o = o + 1;
        }
        k = k + 1;
    }
    r
}

/// Discovery accepts a fetched market when it is tradable and its
/// condition id was not seen before.
pub open spec fn spec_accepts(m: Market, seen: Seq<Seq<char>>) -> bool {
    m.tradable() && !seen.contains(m.condition_id@)
}

/// Whether discovery accepts `m` against the seen condition ids.
pub fn accept_market(m: &Market, seen: &Vec<String>) -> (r: bool)
    ensures
        r == spec_accepts(*m, seen@.map_values(|s: String| s@)),
{
    let acc: bool = m.active && !m.closed && !contains_id(seen, m.condition_id.as_str());
    proof {
        let ghost sv = seen@.map_values(|s: String| s@);
        if exists|j: int| 0 <= j < seen@.len() && seen@[j]@ == m.condition_id@ {
            let j = choose|j: int| 0 <= j < seen@.len() && seen@[j]@ == m.condition_id@;
            assert(sv[j] == m.condition_id@);
            assert(sv.contains(m.condition_id@));
        }
        if sv.contains(m.condition_id@) {
            let j = choose|j: int| 0 <= j < sv.len() && sv[j] == m.condition_id@;
            assert(seen@[j]@ == m.condition_id@);
        }
    }
    acc
}

/// The first fetched market in schedule order that discovery accepts;
/// the not-found discovery error when every fetch failed or was rejected.
/// This is the whole discovery algorithm applied to the fetch results of
/// [`discovery_slugs`], in order.
pub fn select_market(results: &Vec<Option<Market>>, seen: &Vec<String>) -> (r: Result<
    Market,
    EngineError,
>)
    ensures
        match r {
            Ok(m) => exists|i: int|
                0 <= i < results@.len() && results@[i] is Some && m == results@[i]->0
                    && spec_accepts(m, seen@.map_values(|s: String| s@)) && forall|k: int|
                    0 <= k < i ==> results@[k] is None || !spec_accepts(
                        results@[k]->0,
                        seen@.map_values(|s: String| s@),
                    ),
            Err(e) => e == EngineError::DiscoveryMissing && forall|i: int|
                0 <= i < results@.len() ==> results@[i] is None || !spec_accepts(
                    results@[i]->0,
                    seen@.map_values(|s: String| s@),
                ),
        },
{
    let mut i: usize = 0;
    while i < results.len()
        invariant
            i <= results@.len(),
            forall|k: int|
                0 <= k < i ==> results@[k] is None || !spec_accepts(
                    results@[k]->0,
                    seen@.map_values(|s: String| s@),
                ),
        decreases results@.len() - i,
    {
        match &results[i] {
            Some(m) => {
                if accept_market(m, seen) {
                    return Ok(m.clone());
                }
            },
            None => {},
        }
        i = i + 1;
    }
    Err(EngineError::DiscoveryMissing)
}

/// Two enabled-asset markets report the same condition id. The
/// placeholder ids of disabled assets are excluded from every comparison
/// they could satisfy.
pub open spec fn spec_duplicate(
    eth: Seq<char>,
    btc: Seq<char>,
    sol: Seq<char>,
    xrp: Seq<char>,
) -> bool {
    ||| (eth == btc && eth != spec_dummy_id(Asset::Eth))
    ||| (sol != spec_dummy_id(Asset::Sol) && ((eth == sol && eth != spec_dummy_id(Asset::Eth))
        || btc == sol))
    ||| (xrp != spec_dummy_id(Asset::Xrp) && ((eth == xrp && eth != spec_dummy_id(Asset::Eth))
        || btc == xrp || (sol == xrp && sol != spec_dummy_id(Asset::Sol))))
}

/// Check that no two enabled-asset markets of `set` share a condition id;
/// placeholder markets are excluded from the check. A duplicate is the
/// fatal discovery error.
pub fn check_condition_ids(set: &MarketSet) -> (r: Result<(), EngineError>)
    ensures
        r is Err <==> spec_duplicate(
            set.eth.condition_id@,
            set.btc.condition_id@,
            set.sol.condition_id@,
            set.xrp.condition_id@,
        ),
        r is Err ==> r->Err_0 == EngineError::DiscoveryDuplicateConditionId,
{
    let eth = set.eth.condition_id.as_str();
    let btc = set.btc.condition_id.as_str();
    let sol = set.sol.condition_id.as_str();
    let xrp = set.xrp.condition_id.as_str();
    let eth_dummy: bool = str_eq(eth, "dummy_eth_fallback");
    if str_eq(eth, btc) && !eth_dummy {
        return Err(EngineError::DiscoveryDuplicateConditionId);
    }
    if !str_eq(sol, "dummy_solana_fallback") {
        if str_eq(eth, sol) && !eth_dummy {
            return Err(EngineError::DiscoveryDuplicateConditionId);
        }
        if str_eq(btc, sol) {
            return Err(EngineError::DiscoveryDuplicateConditionId);
        }
    }
    if !str_eq(xrp, "dummy_xrp_fallback") {
        if str_eq(eth, xrp) && !eth_dummy {
            return Err(EngineError::DiscoveryDuplicateConditionId);
        }
        if str_eq(btc, xrp) {
            return Err(EngineError::DiscoveryDuplicateConditionId);
        }
        if str_eq(sol, xrp) && !str_eq(sol, "dummy_solana_fallback") {
            return Err(EngineError::DiscoveryDuplicateConditionId);
        }
    }
    Ok(())
}

/// Assemble and validate the four-asset market set from the discovery
/// outcomes: a missing market is replaced by its asset's placeholder, and
/// a condition id shared by two enabled-asset markets is the fatal
/// discovery error.
pub fn finalize_market_set(
    eth: Option<Market>,
    btc: Option<Market>,
    sol: Option<Market>,
    xrp: Option<Market>,
) -> (r: Result<MarketSet, EngineError>)
    ensures
        r is Err <==> spec_duplicate(
            spec_assembled_id(eth, Asset::Eth),
            spec_assembled_id(btc, Asset::Btc),
            spec_assembled_id(sol, Asset::Sol),
            spec_assembled_id(xrp, Asset::Xrp),
        ),
        match r {
            Ok(set) => {
                &&& (eth is Some ==> set.eth == eth->0)
                &&& (eth is None ==> spec_is_disabled_market(set.eth, Asset::Eth))
                &&& (btc is Some ==> set.btc == btc->0)
                &&& (btc is None ==> spec_is_disabled_market(set.btc, Asset::Btc))
                &&& (sol is Some ==> set.sol == sol->0)
                &&& (sol is None ==> spec_is_disabled_market(set.sol, Asset::Sol))
                &&& (xrp is Some ==> set.xrp == xrp->0)
                &&& (xrp is None ==> spec_is_disabled_market(set.xrp, Asset::Xrp))
            },
            Err(e) => e == EngineError::DiscoveryDuplicateConditionId,
        },
{
    let set = MarketSet {
        eth: market_or_disabled(eth, Asset::Eth),
        btc: market_or_disabled(btc, Asset::Btc),
        sol: market_or_disabled(sol, Asset::Sol),
        xrp: market_or_disabled(xrp, Asset::Xrp),
    };
    match check_condition_ids(&set) {
        Ok(()) => Ok(set),
        Err(e) => Err(e),
    }
}

/// The label of the optional assets enabled beside BTC: their names
/// joined with commas, or `no additional` when none is enabled.
pub open spec fn spec_enabled_markets_label(
    enable_eth: bool,
    enable_solana: bool,
    enable_xrp: bool,
) -> Seq<char> {
    if !enable_eth && !enable_solana && !enable_xrp {
        "no additional"@
    } else {
        (if enable_eth {
            "ETH"@
        } else {
            Seq::empty()
        }) + (if enable_solana {
            (if enable_eth {
                ", "@
            } else {
                Seq::empty()
            }) + "Solana"@
        } else {
            Seq::empty()
        }) + (if enable_xrp {
            (if enable_eth || enable_solana {
                ", "@
            } else {
                Seq::empty()
            }) + "XRP"@
        } else {
            Seq::empty()
        })
    }
}

/// Build the startup banner's label of the enabled optional assets.
pub fn enabled_markets_label(enable_eth: bool, enable_solana: bool, enable_xrp: bool) -> (r:
    String)
    ensures
        r@ == spec_enabled_markets_label(enable_eth, enable_solana, enable_xrp),
{
    if !enable_eth && !enable_solana && !enable_xrp {
        return String::from_str("no additional");
    }
    let mut r: String = String::new();
    if enable_eth {
        r.append("ETH");
    }
    if enable_solana {
        if enable_eth {
            r.append(", ");
        }
        r.append("Solana");
    }
    if enable_xrp {
        if enable_eth || enable_solana {
            r.append(", ");
        }
        r.append("XRP");
    }
    proof {
        assert(r@ =~= spec_enabled_markets_label(enable_eth, enable_solana, enable_xrp));
    }
    r
}

} // verus!
