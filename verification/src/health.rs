//! The health engine.
//!
//! A position's health factor is the ratio of LTV-weighted collateral
//! value to debt value, 1e18-scaled so that 1e18 means the collateral
//! exactly covers the debt. Assets that are not collateral-eligible never
//! contribute collateral value; an asset whose price cannot be resolved is
//! skipped (its contribution is excluded, not zeroed against the whole
//! computation). A position with no debt reports the sentinel value rather
//! than dividing by zero. A hypothetical extra borrow can be added to the
//! debt side to project the health factor of a borrow before approving it.

use vstd::prelude::*;
use crate::config::{
    AssetConfig, HealthStatus, PriceQuote, PricePolicy, registry_wf, BPS_DENOM,
    CRITICAL_HEALTH_FACTOR, HEALTH_FACTOR_SCALE, HEALTH_SENTINEL, LIQUIDATION_THRESHOLD,
    WARNING_HEALTH_FACTOR,
};
use crate::entries::{find_key, has_key, key_index};
use crate::math::{mul_div_sat, sat128};
use crate::position::UserPosition;
use crate::valuation::{resolve_price, spec_resolved_price, spec_usd_value, usd_value};

verus! {

/// The configuration stored for an asset id, if any.
pub open spec fn cfg_of(reg: Seq<(u32, AssetConfig)>, id: u32) -> Option<AssetConfig> {
    if has_key(reg, id) {
        Some(reg[key_index(reg, id)].1)
    } else {
        None
    }
}

/// The resolved price of an asset id, `None` when it is unknown or
/// unpriceable under the policy.
pub open spec fn price_of(
    reg: Seq<(u32, AssetConfig)>,
    policy: PricePolicy,
    max_age: u64,
    qs: Seq<PriceQuote>,
    now: u64,
    id: u32,
) -> Option<u128> {
    match cfg_of(reg, id) {
        None => None,
        Some(cfg) => spec_resolved_price(cfg, policy, qs, now, max_age),
    }
}

/// LTV-weighted collateral contribution of one supplied entry; zero when
/// the asset is unknown, not collateral-eligible, or unpriceable.
pub open spec fn spec_collateral_item(
    reg: Seq<(u32, AssetConfig)>,
    policy: PricePolicy,
    max_age: u64,
    qs: Seq<PriceQuote>,
    now: u64,
    asset: u32,
    amount: u128,
) -> int {
    match cfg_of(reg, asset) {
        None => 0,
        Some(cfg) => if !cfg.is_collateral {
            0
        } else {
            match spec_resolved_price(cfg, policy, qs, now, max_age) {
                None => 0,
                Some(p) => sat128(
                    spec_usd_value(amount, p, cfg.decimals) * cfg.ltv_ratio / BPS_DENOM as int,
                ),
            }
        },
    }
}

/// Debt contribution of one borrowed entry; zero when the asset is unknown
/// or unpriceable.
pub open spec fn spec_debt_item(
    reg: Seq<(u32, AssetConfig)>,
    policy: PricePolicy,
    max_age: u64,
    qs: Seq<PriceQuote>,
    now: u64,
    asset: u32,
    amount: u128,
) -> int {
    match cfg_of(reg, asset) {
        None => 0,
        Some(cfg) => match spec_resolved_price(cfg, policy, qs, now, max_age) {
            None => 0,
            Some(p) => spec_usd_value(amount, p, cfg.decimals),
        },
    }
}

/// Total collateral value of a supplied-entry list, accumulated in list
/// order with saturation.
pub open spec fn spec_collateral_value(
    reg: Seq<(u32, AssetConfig)>,
    policy: PricePolicy,
    max_age: u64,
    qs: Seq<PriceQuote>,
    now: u64,
    entries: Seq<(u32, u128)>,
) -> int
    decreases entries.len(),
{
    if entries.len() == 0 {
        0
    } else {
        sat128(
            spec_collateral_value(reg, policy, max_age, qs, now, entries.drop_last())
                + spec_collateral_item(
                reg,
                policy,
                max_age,
                qs,
                now,
                entries.last().0,
                entries.last().1,
            ),
        )
    }
}

/// Total debt value of a borrowed-entry list.
pub open spec fn spec_debt_value(
    reg: Seq<(u32, AssetConfig)>,
    policy: PricePolicy,
    max_age: u64,
    qs: Seq<PriceQuote>,
    now: u64,
    entries: Seq<(u32, u128)>,
) -> int
    decreases entries.len(),
{
    if entries.len() == 0 {
        0
    } else {
        sat128(
            spec_debt_value(reg, policy, max_age, qs, now, entries.drop_last()) + spec_debt_item(
                reg,
                policy,
                max_age,
                qs,
                now,
                entries.last().0,
                entries.last().1,
            ),
        )
    }
}

/// Debt value including a hypothetical extra borrow.
pub open spec fn spec_debt_total(
    reg: Seq<(u32, AssetConfig)>,
    policy: PricePolicy,
    max_age: u64,
    qs: Seq<PriceQuote>,
    now: u64,
    entries: Seq<(u32, u128)>,
    extra: Option<(u32, u128)>,
) -> int {
    match extra {
        None => spec_debt_value(reg, policy, max_age, qs, now, entries),
        Some((a, amt)) => sat128(
            spec_debt_value(reg, policy, max_age, qs, now, entries) + spec_debt_item(
                reg,
                policy,
                max_age,
                qs,
                now,
                a,
                amt,
            ),
        ),
    }
}

/// Collateral over debt, 1e18-scaled; the sentinel when there is no debt.
pub open spec fn spec_health_ratio(c: int, d: int) -> int {
    if d == 0 {
        HEALTH_SENTINEL as int
    } else {
        sat128(c * HEALTH_FACTOR_SCALE / d)
    }
}

/// The health factor of a position under given prices, optionally
/// projecting a hypothetical extra borrow.
pub open spec fn spec_health_factor(
    reg: Seq<(u32, AssetConfig)>,
    policy: PricePolicy,
    max_age: u64,
    qs: Seq<PriceQuote>,
    now: u64,
    supplied: Seq<(u32, u128)>,
    borrowed: Seq<(u32, u128)>,
    extra: Option<(u32, u128)>,
) -> int {
    spec_health_ratio(
        spec_collateral_value(reg, policy, max_age, qs, now, supplied),
        spec_debt_total(reg, policy, max_age, qs, now, borrowed, extra),
    )
}

/// A position with no debt always reports the sentinel health factor:
/// no division by zero can occur.
pub proof fn lemma_zero_debt_health_sentinel(
    reg: Seq<(u32, AssetConfig)>,
    policy: PricePolicy,
    max_age: u64,
    qs: Seq<PriceQuote>,
    now: u64,
    supplied: Seq<(u32, u128)>,
)
    ensures
        spec_health_factor(
            reg,
            policy,
            max_age,
            qs,
            now,
            supplied,
            Seq::<(u32, u128)>::empty(),
            None,
        ) == HEALTH_SENTINEL,
{
}

fn collateral_item(
    reg: &Vec<(u32, AssetConfig)>,
    policy: PricePolicy,
    max_age: u64,
    qs: &Vec<PriceQuote>,
    now: u64,
    asset: u32,
    amount: u128,
) -> (r: u128)
    requires
        registry_wf(reg@),
    ensures
        r == spec_collateral_item(reg@, policy, max_age, qs@, now, asset, amount),
{
    match find_key(reg, asset) {
        None => 0,
        Some(j) => {
            if !reg[j].1.is_collateral {
                0
            } else {
                let decimals = reg[j].1.decimals;
                let ltv = reg[j].1.ltv_ratio;
                match resolve_price(&reg[j].1, policy, qs, now, max_age) {
                    None => 0,
                    Some(p) => {
                        let v = usd_value(amount, p, decimals);
                        mul_div_sat(v, ltv as u128, 10000)
                    },
                }
            }
        },
    }
}

fn debt_item(
    reg: &Vec<(u32, AssetConfig)>,
    policy: PricePolicy,
    max_age: u64,
    qs: &Vec<PriceQuote>,
    now: u64,
    asset: u32,
    amount: u128,
) -> (r: u128)
    requires
        registry_wf(reg@),
    ensures
        r == spec_debt_item(reg@, policy, max_age, qs@, now, asset, amount),
{
    match find_key(reg, asset) {
        None => 0,
        Some(j) => {
            let decimals = reg[j].1.decimals;
            match resolve_price(&reg[j].1, policy, qs, now, max_age) {
                None => 0,
                Some(p) => usd_value(amount, p, decimals),
            }
        },
    }
}

/// The health factor of a position under the given prices; `extra`
/// projects a hypothetical additional borrow into the debt side.
pub fn compute_health_factor(
    reg: &Vec<(u32, AssetConfig)>,
    policy: PricePolicy,
    max_age: u64,
    qs: &Vec<PriceQuote>,
    now: u64,
    position: &UserPosition,
    extra: Option<(u32, u128)>,
) -> (r: u128)
    requires
        registry_wf(reg@),
    ensures
        r == spec_health_factor(
            reg@,
            policy,
            max_age,
            qs@,
            now,
            position.supplied_assets@,
            position.borrowed_assets@,
            extra,
        ),
{
    let supplied = &position.supplied_assets;
    let borrowed = &position.borrowed_assets;
    let mut collateral: u128 = 0;
    let ns = supplied.len();
    let mut i: usize = 0;
    while i < ns
        invariant
            i <= ns,
            ns == supplied.len(),
            registry_wf(reg@),
            collateral == spec_collateral_value(
                reg@,
                policy,
                max_age,
                qs@,
                now,
                supplied@.subrange(0, i as int),
            ),
        decreases ns - i,
    {
        let item = collateral_item(reg, policy, max_age, qs, now, supplied[i].0, supplied[i].1);
        collateral = collateral.saturating_add(item);
        proof {
            let pre = supplied@.subrange(0, i as int);
            let post = supplied@.subrange(0, i + 1);
            assert(post.drop_last() =~= pre);
            assert(post.last() == supplied@[i as int]);
        }
        i = i + 1;
    }
    proof {
        assert(supplied@.subrange(0, ns as int) =~= supplied@);
    }
    let mut debt: u128 = 0;
    let nb = borrowed.len();
    let mut k: usize = 0;
    while k < nb
        invariant
            k <= nb,
            nb == borrowed.len(),
            registry_wf(reg@),
            debt == spec_debt_value(
                reg@,
                policy,
                max_age,
                qs@,
                now,
                borrowed@.subrange(0, k as int),
            ),
        decreases nb - k,
    {
        let item = debt_item(reg, policy, max_age, qs, now, borrowed[k].0, borrowed[k].1);
        debt = debt.saturating_add(item);
        proof {
            let pre = borrowed@.subrange(0, k as int);
            let post = borrowed@.subrange(0, k + 1);
            assert(post.drop_last() =~= pre);
            assert(post.last() == borrowed@[k as int]);
        }
        k = k + 1;
    }
    proof {
        assert(borrowed@.subrange(0, nb as int) =~= borrowed@);
    }
    let total_debt: u128 = (match extra {
        None => debt,
        Some((a, amt)) => {
            let item = debt_item(reg, policy, max_age, qs, now, a, amt);
            debt.saturating_add(item)
        },
    });
    if total_debt == 0 {
        HEALTH_SENTINEL
    } else {
        mul_div_sat(collateral, HEALTH_FACTOR_SCALE, total_debt)
    }
}

/// Classification of a health factor into the informational tiers.
pub open spec fn spec_health_status(hf: u128) -> HealthStatus {
    if hf < LIQUIDATION_THRESHOLD {
        HealthStatus::Liquidatable
    } else if hf < CRITICAL_HEALTH_FACTOR {
        HealthStatus::Critical
    } else if hf < WARNING_HEALTH_FACTOR {
        HealthStatus::Warning
    } else {
        HealthStatus::Healthy
    }
}

pub fn classify_health(hf: u128) -> (r: HealthStatus)
    ensures
        r == spec_health_status(hf),
{
    if hf < LIQUIDATION_THRESHOLD {
        HealthStatus::Liquidatable
    } else if hf < CRITICAL_HEALTH_FACTOR {
        HealthStatus::Critical
    } else if hf < WARNING_HEALTH_FACTOR {
        HealthStatus::Warning
    } else {
        HealthStatus::Healthy
    }
}

} // verus!
