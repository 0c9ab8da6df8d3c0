//! Error taxonomy of the engine.
//!
//! Every fallible entry point returns one of these kinds; there is no
//! generic catch-all failure. Precondition failures abort the operation
//! before any state mutation.

use vstd::prelude::*;

verus! {

#[derive(Clone, Copy, Debug, PartialEq, Eq, Structural)]
pub enum HubError {
    /// The engine has not been initialized yet.
    NotInitialized,
    /// An admin-gated operation was attempted by a non-admin account.
    Unauthorized,
    /// The named asset is unknown or marked inactive.
    InvalidAsset,
    /// A balance (debt, stake) is too small for the requested operation.
    InsufficientBalance,
    /// A swap's computed output fell below the requested minimum.
    SwapFailed,
    /// The lending pool rejected a submitted request (host-reported).
    BlendError,
    /// An amount is zero, or does not fit the representable range.
    InvalidAmount,
    /// The action would leave the position below the minimum health factor.
    UnhealthyPosition,
    /// The lending pool's status forbids the operation.
    PoolFrozen,
    /// A stake was attempted in an asset other than the staking token.
    OnlyBlendStakeable,
    /// No usable price is available for an asset under the strict policy.
    PriceOracleError,
    /// Automatic liquidation protection could not execute.
    LiquidationProtectionFailed,
    /// The borrower's collateral cannot cover the computed seize amount.
    InsufficientCollateral,
    /// Liquidation was attempted on a position at or above the threshold.
    NotLiquidatable,
}

} // verus!
