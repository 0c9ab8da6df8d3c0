//! Configuration records and protocol constants.
//!
//! Assets and accounts are identified by plain integer ids; the host layer
//! owns the mapping from on-chain addresses to these ids.

use vstd::prelude::*;
use crate::entries::keys_unique;

verus! {

/// Basis-point denominator: 10000 bp == 100%.
pub const BPS_DENOM: u128 = 10000;

/// Protocol swap fee in basis points (0.5%).
pub const PROTOCOL_FEE: u128 = 50;

pub const SECONDS_PER_DAY: u64 = 86400;

/// The fixed-point base of the health factor: 1e18 means exactly 1.0.
pub const HEALTH_FACTOR_SCALE: u128 = 1_000_000_000_000_000_000;

/// Minimum projected health factor a borrow must keep (1.03).
pub const MIN_HEALTH_FACTOR: u128 = 1_030_000_000_000_000_000;

/// Below this health factor (1.0) a position is liquidatable.
pub const LIQUIDATION_THRESHOLD: u128 = 1_000_000_000_000_000_000;

/// At or below this health factor (1.05) automatic protection may fire.
pub const AUTO_REPAY_THRESHOLD: u128 = 1_050_000_000_000_000_000;

/// Health factor classified as Critical below 1.03.
pub const CRITICAL_HEALTH_FACTOR: u128 = 1_030_000_000_000_000_000;

/// Health factor classified as Healthy from 1.15 up.
pub const WARNING_HEALTH_FACTOR: u128 = 1_150_000_000_000_000_000;

/// The scale prices are quoted in: 1e18 means 1.0 USD per whole token.
pub const PRICE_SCALE: u128 = 1_000_000_000_000_000_000;

/// Health factor reported for a position with no debt.
pub const HEALTH_SENTINEL: u128 = 1000 * HEALTH_FACTOR_SCALE;

/// The common internal scale all token amounts are normalized to.
pub const INTERNAL_DECIMALS: u32 = 18;

/// Flat position-level accrual: 1% per day, in basis points.
pub const DAILY_REWARD_BPS: u128 = 100;

/// Default pool reward rate: reward units per second per token staked.
pub const DEFAULT_REWARD_RATE: u128 = 1000;

/// Default cap on the debt fraction one protection trigger may repay (50%).
pub const DEFAULT_MAX_REPAY_BPS: u32 = 5000;

/// Default fee charged on auto-repay collateral (1%).
pub const DEFAULT_PROTECTION_FEE_BPS: u32 = 100;

/// How a missing or stale oracle quote is handled during valuation.
#[derive(Clone, Copy, Debug, PartialEq, Eq, Structural)]
pub enum PricePolicy {
    /// Fall back to the asset's configured fixed price.
    Fallback,
    /// Treat the asset as unpriceable: its value is excluded, and
    /// operations that must price it fail.
    Strict,
}

/// A supported asset: identity, precision and risk parameters.
pub struct AssetConfig {
    /// The asset's id (stands for its on-chain address).
    pub address: u32,
    /// Display symbol, carried for the host layer's benefit.
    pub symbol: String,
    /// Native decimal precision of token amounts, at most 18.
    pub decimals: u32,
    /// Inactive assets are rejected at every entry point.
    pub is_active: bool,
    /// Only collateral-eligible assets count toward collateral value.
    pub is_collateral: bool,
    /// Loan-to-value ratio in basis points, at most 10000.
    pub ltv_ratio: u32,
    /// The lending pool's reserve index for this asset.
    pub reserve_index: u32,
    /// Premium a liquidator receives on seized collateral, basis points.
    pub liquidation_bonus: u32,
    /// Fixed price used under the fallback policy, 1e18 scale, nonzero.
    pub fallback_price: u128,
}

impl AssetConfig {
    /// Parameter ranges every configured asset satisfies.
    pub open spec fn wf(self) -> bool {
        &&& self.decimals <= INTERNAL_DECIMALS
        &&& self.ltv_ratio <= BPS_DENOM
        &&& self.liquidation_bonus <= BPS_DENOM
        &&& self.fallback_price > 0
    }
}

/// The asset registry is a keyed list of well-formed configs, each stored
/// under its own id.
pub open spec fn registry_wf(reg: Seq<(u32, AssetConfig)>) -> bool {
    &&& keys_unique(reg)
    &&& forall|i: int|
        0 <= i < reg.len() ==> (#[trigger] reg[i]).1.wf() && reg[i].1.address == reg[i].0
}

/// A configured fixed exchange rate for one ordered asset pair.
/// The two directions of a pair are configured independently.
#[derive(Clone, Copy, PartialEq, Eq, Structural)]
pub struct ExchangeRate {
    pub from_asset: u32,
    pub to_asset: u32,
    /// Output units of `to_asset` per input unit of `from_asset`, both
    /// taken at the internal 18-decimal scale; the rate itself is 1e18
    /// scaled.
    pub rate: u128,
    pub last_update: u64,
}

/// Deployment-wide automatic liquidation-protection settings.
#[derive(Clone, Copy, PartialEq, Eq, Structural)]
pub struct LiquidationProtection {
    pub enabled: bool,
    /// Health factor at or below which auto-repay triggers; at least the
    /// liquidation threshold, giving a safety margin.
    pub auto_repay_threshold: u128,
    /// Max fraction of the chosen debt repaid per trigger, basis points.
    pub max_repay_percentage: u32,
    /// Fee charged on the collateral spent, basis points.
    pub protection_fee: u32,
}

impl LiquidationProtection {
    pub open spec fn wf(self) -> bool {
        &&& self.auto_repay_threshold >= LIQUIDATION_THRESHOLD
        &&& self.max_repay_percentage <= BPS_DENOM
        &&& self.protection_fee <= BPS_DENOM
    }
}

/// A request the host must submit to the lending pool: the engine computes
/// these, the host performs them.
#[derive(Clone, Copy, Debug, PartialEq, Eq, Structural)]
pub struct BlendRequest {
    /// The pool's request kind: 0 supply, 2 supply-collateral, 3 withdraw
    /// collateral, 4 borrow, 5 repay.
    pub request_type: u32,
    /// The asset the request concerns.
    pub address: u32,
    /// The amount, which must fit the pool's signed representation.
    pub amount: i128,
}

/// Informational classification of a health factor.
#[derive(Clone, Copy, Debug, PartialEq, Eq, Structural)]
pub enum HealthStatus {
    /// At least 1.15.
    Healthy,
    /// Between 1.03 (inclusive) and 1.15.
    Warning,
    /// Between 1.0 (inclusive) and 1.03.
    Critical,
    /// Below 1.0.
    Liquidatable,
}

/// One oracle observation handed in by the host: the reported price in the
/// 1e18 scale (0 when the oracle call failed) and the quote's timestamp.
#[derive(Clone, Copy, PartialEq, Eq, Structural)]
pub struct PriceQuote {
    pub asset: u32,
    pub price: u128,
    pub timestamp: u64,
}

} // verus!
