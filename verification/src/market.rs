//! Core data model: assets, token sides, market descriptors, top-of-book
//! quotes, and the slug and dummy-id conventions of the exchange.

use vstd::prelude::*;
use crate::money::{quote_ok};

verus! {

/// The tradable crypto assets. BTC is mandatory; the others are
/// individually toggleable by configuration.
#[derive(Clone, Copy, Debug, PartialEq, Eq, Structural)]
pub enum Asset {
    Btc,
    Eth,
    Sol,
    Xrp,
}

/// The two outcome tokens of a binary market.
#[derive(Clone, Copy, Debug, PartialEq, Eq, Structural)]
pub enum TokenSide {
    Up,
    Down,
}

/// One of the eight (asset, side) outcome tokens.
#[derive(Clone, Copy, Debug, PartialEq, Eq, Structural)]
pub enum TokenType {
    BtcUp,
    BtcDown,
    EthUp,
    EthDown,
    SolanaUp,
    SolanaDown,
    XrpUp,
    XrpDown,
}

impl TokenType {
    /// The asset this token belongs to.
    pub open spec fn spec_asset(self) -> Asset {
        match self {
            TokenType::BtcUp | TokenType::BtcDown => Asset::Btc,
            TokenType::EthUp | TokenType::EthDown => Asset::Eth,
            TokenType::SolanaUp | TokenType::SolanaDown => Asset::Sol,
            TokenType::XrpUp | TokenType::XrpDown => Asset::Xrp,
        }
    }

    /// The side (up or down) of this token.
    pub open spec fn spec_side(self) -> TokenSide {
        match self {
            TokenType::BtcUp | TokenType::EthUp | TokenType::SolanaUp | TokenType::XrpUp
                => TokenSide::Up,
            TokenType::BtcDown | TokenType::EthDown | TokenType::SolanaDown | TokenType::XrpDown
                => TokenSide::Down,
        }
    }

    #[verifier::when_used_as_spec(spec_asset)]
    pub fn asset(self) -> (a: Asset)
        ensures
            a == self.spec_asset(),
    {
        match self {
            TokenType::BtcUp | TokenType::BtcDown => Asset::Btc,
            TokenType::EthUp | TokenType::EthDown => Asset::Eth,
            TokenType::SolanaUp | TokenType::SolanaDown => Asset::Sol,
            TokenType::XrpUp | TokenType::XrpDown => Asset::Xrp,
        }
    }

    #[verifier::when_used_as_spec(spec_side)]
    pub fn side(self) -> (s: TokenSide)
        ensures
            s == self.spec_side(),
    {
        match self {
            TokenType::BtcUp | TokenType::EthUp | TokenType::SolanaUp | TokenType::XrpUp
                => TokenSide::Up,
            TokenType::BtcDown | TokenType::EthDown | TokenType::SolanaDown | TokenType::XrpDown
                => TokenSide::Down,
        }
    }

    /// The token of `asset` on `side`.
    pub open spec fn spec_of(asset: Asset, side: TokenSide) -> TokenType {
        match (asset, side) {
            (Asset::Btc, TokenSide::Up) => TokenType::BtcUp,
            (Asset::Btc, TokenSide::Down) => TokenType::BtcDown,
            (Asset::Eth, TokenSide::Up) => TokenType::EthUp,
            (Asset::Eth, TokenSide::Down) => TokenType::EthDown,
            (Asset::Sol, TokenSide::Up) => TokenType::SolanaUp,
            (Asset::Sol, TokenSide::Down) => TokenType::SolanaDown,
            (Asset::Xrp, TokenSide::Up) => TokenType::XrpUp,
            (Asset::Xrp, TokenSide::Down) => TokenType::XrpDown,
        }
    }

    /// The token of `asset` on `side`.
    #[verifier::when_used_as_spec(spec_of)]
    pub fn of(asset: Asset, side: TokenSide) -> (t: TokenType)
        ensures
            t == TokenType::spec_of(asset, side),
            t.spec_asset() == asset,
            t.spec_side() == side,
    {
        match (asset, side) {
            (Asset::Btc, TokenSide::Up) => TokenType::BtcUp,
            (Asset::Btc, TokenSide::Down) => TokenType::BtcDown,
            (Asset::Eth, TokenSide::Up) => TokenType::EthUp,
            (Asset::Eth, TokenSide::Down) => TokenType::EthDown,
            (Asset::Sol, TokenSide::Up) => TokenType::SolanaUp,
            (Asset::Sol, TokenSide::Down) => TokenType::SolanaDown,
            (Asset::Xrp, TokenSide::Up) => TokenType::XrpUp,
            (Asset::Xrp, TokenSide::Down) => TokenType::XrpDown,
        }
    }
}

/// Top-of-book for one token: optional best bid and best ask, both in
/// micro-dollars.
#[derive(Clone, Copy, Debug)]
pub struct TokenPrice {
    pub bid: Option<u64>,
    pub ask: Option<u64>,
}

impl TokenPrice {
    /// Both quotes, when present, are prices in `[0, 1]`.
    pub open spec fn wf(self) -> bool {
        &&& (self.bid is Some ==> quote_ok(self.bid->0))
        &&& (self.ask is Some ==> quote_ok(self.ask->0))
    }

    /// A quote with neither side of the book known.
    pub fn empty() -> (p: TokenPrice)
        ensures
            p.bid is None,
            p.ask is None,
            p.wf(),
    {
        TokenPrice { bid: None, ask: None }
    }
}

/// Descriptor of one 15-minute market instance of one asset.
#[derive(Debug)]
pub struct Market {
    /// Opaque exchange identifier, unique among concurrent tradable markets.
    pub condition_id: String,
    /// Human-readable identifier, `{prefix}-updown-15m-{period_timestamp}`.
    pub slug: String,
    pub active: bool,
    pub closed: bool,
    /// Identifier of the "Up" outcome token, when the exchange published it.
    pub up_token_id: Option<String>,
    /// Identifier of the "Down" outcome token, when the exchange published it.
    pub down_token_id: Option<String>,
    /// The 15-minute floor of the market's start, in Unix epoch seconds.
    pub period_timestamp: u64,
}

impl Market {
    /// Only markets that are active and not closed are tradable.
    pub open spec fn tradable(self) -> bool {
        self.active && !self.closed
    }
}

/// Clone an optional token identifier.
pub fn clone_opt_string(o: &Option<String>) -> (r: Option<String>)
    ensures
        r == *o,
{
    match o {
        Some(s) => Some(s.clone()),
        None => None,
    }
}

impl Clone for Market {
    fn clone(&self) -> (r: Self)
        ensures
            r == *self,
    {
        Market {
            condition_id: self.condition_id.clone(),
            slug: self.slug.clone(),
            active: self.active,
            closed: self.closed,
            up_token_id: clone_opt_string(&self.up_token_id),
            down_token_id: clone_opt_string(&self.down_token_id),
            period_timestamp: self.period_timestamp,
        }
    }
}

/// Compare two string slices character by character.
pub fn str_eq(a: &str, b: &str) -> (r: bool)
    ensures
        r == (a@ == b@),
{
    let a_len: usize = a.unicode_len();
    let b_len: usize = b.unicode_len();
    if a_len != b_len {
        proof {
            assert(a@.len() != b@.len());
        }
        return false;
    }
    let mut i: usize = 0;
    while i < a_len
        invariant
            a_len == a@.len(),
            b_len == b@.len(),
            a_len == b_len,
            i <= a_len,
            forall|j: int| 0 <= j < i ==> a@[j] == b@[j],
        decreases a_len - i,
    {
        if a.get_char(i) != b.get_char(i) {
            return false;
        }
        i = i + 1;
    }
    proof {
        assert(a@ =~= b@);
    }
    true
}

/// Whether `ids` holds a string equal to `id`.
pub fn contains_id(ids: &Vec<String>, id: &str) -> (r: bool)
    ensures
        r == (exists|j: int| 0 <= j < ids@.len() && ids@[j]@ == id@),
{
    let mut i: usize = 0;
    while i < ids.len()
        invariant
            i <= ids@.len(),
            forall|j: int| 0 <= j < i ==> ids@[j]@ != id@,
        decreases ids@.len() - i,
    {
        if str_eq(ids[i].as_str(), id) {
            return true;
        }
        i = i + 1;
    }
    false
}

} // verus!
