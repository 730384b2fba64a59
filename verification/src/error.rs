//! The error kinds of the engine and the policy each one carries.

use vstd::prelude::*;

verus! {

/// Error kinds of the engine.
///
/// Policy: `DiscoveryMissing` is soft (the previous market is retained);
/// `DiscoveryDuplicateConditionId` is fatal at startup and soft in-period;
/// `ConfigInvalid` is fatal at startup; the remaining kinds are logged and
/// the affected step is retried or skipped.
#[derive(Clone, Copy, Debug, PartialEq, Eq, Structural)]
pub enum EngineError {
    /// No tradable market instance was found for an asset.
    DiscoveryMissing,
    /// Two enabled-asset markets reported the same condition id.
    DiscoveryDuplicateConditionId,
    /// No usable top-of-book quote for a token on this poll.
    QuoteUnavailable,
    /// The exchange rejected or failed an order submission.
    OrderPlacementFailed,
    /// Authentication with the exchange failed at startup.
    AuthenticationFailed,
    /// A market closed but the exchange has not published its outcome yet.
    MarketResolutionUnavailable,
    /// The configuration is rejected at startup.
    ConfigInvalid,
}

} // verus!
