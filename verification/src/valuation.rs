//! Valuation: price resolution and decimal-normalized USD values.
//!
//! A raw token amount is converted to the common 1e18-scaled USD value by
//! `floor(amount * price / 10^decimals)`, multiplied first at 256-bit width.
//! Oracle quotes are usable only when nonzero and fresh; an unusable quote
//! is handled per the configured policy: fall back to the asset's fixed
//! price, or treat the asset as unpriceable.

use vstd::prelude::*;
use crate::config::{AssetConfig, PriceQuote, PricePolicy};
use crate::math::{mul_div_sat, pow10, pow10_exec, sat128};

verus! {

/// Index of the first quote for the asset, or -1.
pub open spec fn quote_index(qs: Seq<PriceQuote>, asset: u32) -> int
    decreases qs.len(),
{
    if qs.len() == 0 {
        -1
    } else if qs[0].asset == asset {
        0
    } else {
        let r = quote_index(qs.drop_first(), asset);
        if r < 0 {
            -1
        } else {
            r + 1
        }
    }
}

/// The first quote handed in for the asset, if any.
pub open spec fn find_quote(qs: Seq<PriceQuote>, asset: u32) -> Option<PriceQuote> {
    if quote_index(qs, asset) >= 0 {
        Some(qs[quote_index(qs, asset)])
    } else {
        None
    }
}

pub proof fn lemma_quote_index_props(qs: Seq<PriceQuote>, asset: u32)
    ensures
        quote_index(qs, asset) < 0 ==> quote_index(qs, asset) == -1 && (forall|i: int|
            0 <= i < qs.len() ==> qs[i].asset != asset),
        quote_index(qs, asset) >= 0 ==> quote_index(qs, asset) < qs.len() && qs[quote_index(
            qs,
            asset,
        )].asset == asset && (forall|i: int|
            0 <= i < quote_index(qs, asset) ==> qs[i].asset != asset),
    decreases qs.len(),
{
    if qs.len() > 0 && qs[0].asset != asset {
        let sub = qs.drop_first();
        lemma_quote_index_props(sub, asset);
        if quote_index(qs, asset) < 0 {
            assert forall|i: int| 0 <= i < qs.len() implies qs[i].asset != asset by {
                if i > 0 {
                    assert(sub[i - 1] == qs[i]);
                    assert(sub[i - 1].asset != asset);
                }
            }
        } else {
            let j = quote_index(qs, asset);
            assert(sub[j - 1] == qs[j]);
            assert forall|i: int| 0 <= i < j implies qs[i].asset != asset by {
                if i > 0 {
                    assert(sub[i - 1] == qs[i]);
                    assert(sub[i - 1].asset != asset);
                }
            }
        }
    }
}

proof fn lemma_quote_index_at(qs: Seq<PriceQuote>, asset: u32, j: int)
    requires
        0 <= j < qs.len(),
        qs[j].asset == asset,
        forall|i: int| 0 <= i < j ==> qs[i].asset != asset,
    ensures
        quote_index(qs, asset) == j,
    decreases qs.len(),
{
    if j > 0 {
        let sub = qs.drop_first();
        assert forall|i: int| 0 <= i < j - 1 implies sub[i].asset != asset by {
            assert(sub[i] == qs[i + 1]);
        }
        assert(sub[j - 1] == qs[j]);
        lemma_quote_index_at(sub, asset, j - 1);
    }
}

/// A quote is usable when the oracle reported a nonzero price whose age,
/// measured against `now`, is within the staleness window.
pub open spec fn quote_usable(q: PriceQuote, now: u64, max_age: u64) -> bool {
    q.price > 0 && q.timestamp + max_age >= now
}

/// The price valuation uses for an asset: a usable oracle quote wins;
/// otherwise the fallback policy substitutes the configured fixed price and
/// the strict policy reports the asset unpriceable.
pub open spec fn spec_resolved_price(
    cfg: AssetConfig,
    policy: PricePolicy,
    qs: Seq<PriceQuote>,
    now: u64,
    max_age: u64,
) -> Option<u128> {
    let fallback = (match policy {
        PricePolicy::Fallback => Some(cfg.fallback_price),
        PricePolicy::Strict => None,
    });
    match find_quote(qs, cfg.address) {
        Some(q) => if quote_usable(q, now, max_age) {
            Some(q.price)
        } else {
            fallback
        },
        None => fallback,
    }
}

/// First quote for the asset, if any.
pub fn find_quote_exec(qs: &Vec<PriceQuote>, asset: u32) -> (r: Option<PriceQuote>)
    ensures
        r == find_quote(qs@, asset),
{
    let n = qs.len();
    let mut i: usize = 0;
    while i < n
        invariant
            i <= n,
            n == qs.len(),
            forall|k: int| 0 <= k < i ==> qs@[k].asset != asset,
        decreases n - i,
    {
        if qs[i].asset == asset {
            proof {
                lemma_quote_index_at(qs@, asset, i as int);
            }
            return Some(qs[i]);
        }
        i = i + 1;
    }
    proof {
        lemma_quote_index_props(qs@, asset);
    }
    None
}

/// Resolve the price of a configured asset under the given policy.
pub fn resolve_price(
    cfg: &AssetConfig,
    policy: PricePolicy,
    qs: &Vec<PriceQuote>,
    now: u64,
    max_age: u64,
) -> (r: Option<u128>)
    ensures
        r == spec_resolved_price(*cfg, policy, qs@, now, max_age),
{
    let fallback = (match policy {
        PricePolicy::Fallback => Some(cfg.fallback_price),
        PricePolicy::Strict => None,
    });
    match find_quote_exec(qs, cfg.address) {
        Some(q) => {
            if q.price > 0 && now.saturating_sub(q.timestamp) <= max_age {
                Some(q.price)
            } else {
                fallback
            }
        },
        None => fallback,
    }
}

/// USD value of a raw amount: normalized from the asset's decimals to the
/// common scale and multiplied by the 1e18-scaled price, saturating.
pub open spec fn spec_usd_value(amount: u128, price: u128, decimals: u32) -> int
    recommends
        decimals <= 38,
{
    sat128(amount * price / pow10(decimals as nat))
}

pub fn usd_value(amount: u128, price: u128, decimals: u32) -> (r: u128)
    requires
        decimals <= 38,
    ensures
        r == spec_usd_value(amount, price, decimals),
{
    let d = pow10_exec(decimals);
    mul_div_sat(amount, price, d)
}

} // verus!
