//! Period-synchronized dual-limit order engine for 15-minute binary
//! up/down markets.
//!
//! The engine discovers the active market instance for each crypto asset at
//! every 15-minute boundary, fires exactly one symmetric batch of resting
//! limit-buy orders per period inside a narrow window at the boundary, and
//! tracks every order and position through to market resolution, with a
//! simulation mode that fills orders against observed top-of-book quotes.
//!
//! All prices and share counts are fixed-point values with six decimal
//! places (micro-units), and dollar amounts are their exact products
//! (pico-dollars), so every comparison and every profit-and-loss
//! computation is exact integer arithmetic.
//!
//! - [`clock`] — the period calculator: the single source of truth for
//!   "what period is it".
//! - [`market`] — assets, outcome tokens, market descriptors and quotes.
//! - [`money`] — the fixed-point price, size and amount arithmetic.
//! - [`slug`] — market slugs, placeholder condition ids, history file
//!   names.
//! - [`discovery`] — the slug schedule, the acceptance rule, placeholder
//!   markets, and the condition-id uniqueness check.
//! - [`prices`] — the per-token quote cache.
//! - [`monitor`] — the market set holder and snapshot assembly.
//! - [`trader`] — the per-snapshot order decisions and their laws.
//! - [`sim`] — the simulation tracker: resting orders, fills, positions,
//!   resolution, profit-and-loss.
//! - [`scheduler`] — the period boundary wake-up rule.
//! - [`decimal`] — the bridge from the exchange's decimal quotes.
//! - [`error`] — the error kinds and their policies.

pub mod clock;
pub mod decimal;
pub mod discovery;
pub mod error;
pub mod monitor;
pub mod market;
pub mod money;
pub mod prices;
pub mod scheduler;
pub mod sim;
pub mod slug;
pub mod trader;
