//! The exchange: fixed-rate swaps with an oracle-priced fallback.
//!
//! A configured fixed rate for the ordered pair wins; without one the
//! output is derived from the two assets' resolved prices. Either way the
//! amounts are normalized through the internal 18-decimal scale and the
//! computed output must reach the caller's minimum.

use vstd::prelude::*;
use crate::config::{
    AssetConfig, ExchangeRate, PriceQuote, PricePolicy, registry_wf, INTERNAL_DECIMALS,
    PRICE_SCALE,
};
use crate::errors::HubError;
use crate::health::{cfg_of, price_of};
use crate::math::{mul_div_sat, pow10, pow10_exec, sat128, sat_mul};
use crate::valuation::{resolve_price, spec_usd_value, usd_value};
use crate::entries::find_key;

verus! {

/// Index of the configured rate for the ordered pair, or -1.
pub open spec fn rate_index(s: Seq<ExchangeRate>, from: u32, to: u32) -> int
    decreases s.len(),
{
    if s.len() == 0 {
        -1
    } else if s[0].from_asset == from && s[0].to_asset == to {
        0
    } else {
        let r = rate_index(s.drop_first(), from, to);
        if r < 0 {
            -1
        } else {
            r + 1
        }
    }
}

pub open spec fn has_rate(s: Seq<ExchangeRate>, from: u32, to: u32) -> bool {
    rate_index(s, from, to) >= 0
}

/// The configured rate for the ordered pair, if any.
pub open spec fn rate_of(s: Seq<ExchangeRate>, from: u32, to: u32) -> Option<u128> {
    if has_rate(s, from, to) {
        Some(s[rate_index(s, from, to)].rate)
    } else {
        None
    }
}

/// Each ordered pair is configured at most once.
pub open spec fn rates_unique(s: Seq<ExchangeRate>) -> bool {
    forall|i: int, j: int|
        0 <= i < j < s.len() ==> !(s[i].from_asset == s[j].from_asset && s[i].to_asset
            == s[j].to_asset)
}

pub proof fn lemma_rate_index_props(s: Seq<ExchangeRate>, from: u32, to: u32)
    ensures
        rate_index(s, from, to) < 0 ==> rate_index(s, from, to) == -1 && (forall|i: int|
            0 <= i < s.len() ==> !(s[i].from_asset == from && s[i].to_asset == to)),
        rate_index(s, from, to) >= 0 ==> rate_index(s, from, to) < s.len() && s[rate_index(
            s,
            from,
            to,
        )].from_asset == from && s[rate_index(s, from, to)].to_asset == to && (forall|i: int|
            0 <= i < rate_index(s, from, to) ==> !(s[i].from_asset == from && s[i].to_asset
                == to)),
    decreases s.len(),
{
    if s.len() > 0 && !(s[0].from_asset == from && s[0].to_asset == to) {
        let sub = s.drop_first();
        lemma_rate_index_props(sub, from, to);
        if rate_index(s, from, to) < 0 {
            assert forall|i: int| 0 <= i < s.len() implies !(s[i].from_asset == from
                && s[i].to_asset == to) by {
                if i > 0 {
                    assert(sub[i - 1] == s[i]);
                    assert(!(sub[i - 1].from_asset == from && sub[i - 1].to_asset == to));
                }
            }
        } else {
            let j = rate_index(s, from, to);
            assert(sub[j - 1] == s[j]);
            assert forall|i: int| 0 <= i < j implies !(s[i].from_asset == from && s[i].to_asset
                == to) by {
                if i > 0 {
                    assert(sub[i - 1] == s[i]);
                    assert(!(sub[i - 1].from_asset == from && sub[i - 1].to_asset == to));
                }
            }
        }
    }
}

pub proof fn lemma_rate_index_at(s: Seq<ExchangeRate>, from: u32, to: u32, j: int)
    requires
        0 <= j < s.len(),
        s[j].from_asset == from,
        s[j].to_asset == to,
        forall|i: int| 0 <= i < j ==> !(s[i].from_asset == from && s[i].to_asset == to),
    ensures
        rate_index(s, from, to) == j,
    decreases s.len(),
{
    if j > 0 {
        let sub = s.drop_first();
        assert forall|i: int| 0 <= i < j - 1 implies !(sub[i].from_asset == from
            && sub[i].to_asset == to) by {
            assert(sub[i] == s[i + 1]);
        }
        assert(sub[j - 1] == s[j]);
        lemma_rate_index_at(sub, from, to, j - 1);
    }
}

/// Index of the configured rate for the ordered pair, if any.
pub fn find_rate(v: &Vec<ExchangeRate>, from: u32, to: u32) -> (r: Option<usize>)
    ensures
        (match r {
            Some(j) => j == rate_index(v@, from, to) && j < v.len(),
            None => !has_rate(v@, from, to),
        }),
{
    let n = v.len();
    let mut i: usize = 0;
    while i < n
        invariant
            i <= n,
            n == v.len(),
            forall|k: int|
                0 <= k < i ==> !(v@[k].from_asset == from && v@[k].to_asset == to),
        decreases n - i,
    {
        if v[i].from_asset == from && v[i].to_asset == to {
            proof {
                lemma_rate_index_at(v@, from, to, i as int);
            }
            return Some(i);
        }
        i = i + 1;
    }
    proof {
        lemma_rate_index_props(v@, from, to);
    }
    None
}

/// The table after configuring a rate for the ordered pair: replaced in
/// place, or appended.
pub open spec fn spec_rate_store(s: Seq<ExchangeRate>, r: ExchangeRate) -> Seq<ExchangeRate> {
    if has_rate(s, r.from_asset, r.to_asset) {
        s.update(rate_index(s, r.from_asset, r.to_asset), r)
    } else {
        s.push(r)
    }
}

/// Configuring a rate writes exactly the named pair and keeps every other
/// pair.
pub proof fn lemma_rate_store_props(s: Seq<ExchangeRate>, r: ExchangeRate)
    requires
        rates_unique(s),
    ensures
        rates_unique(spec_rate_store(s, r)),
        rate_of(spec_rate_store(s, r), r.from_asset, r.to_asset) == Some(r.rate),
        forall|f: u32, t: u32|
            !(f == r.from_asset && t == r.to_asset) ==> #[trigger] rate_of(
                spec_rate_store(s, r),
                f,
                t,
            ) == rate_of(s, f, t),
{
    let from = r.from_asset;
    let to = r.to_asset;
    lemma_rate_index_props(s, from, to);
    let u = spec_rate_store(s, r);
    if has_rate(s, from, to) {
        let j = rate_index(s, from, to);
        lemma_rate_index_at(u, from, to, j);
        assert forall|f: u32, t: u32| !(f == from && t == to) implies #[trigger] rate_of(
            u,
            f,
            t,
        ) == rate_of(s, f, t) by {
            lemma_rate_index_props(s, f, t);
            lemma_rate_index_props(u, f, t);
            if has_rate(s, f, t) {
                let jk = rate_index(s, f, t);
                assert(jk != j);
                assert(u[jk] == s[jk]);
                lemma_rate_index_at(u, f, t, jk);
            } else if has_rate(u, f, t) {
                let jt = rate_index(u, f, t);
                assert(u[jt].from_asset == f && u[jt].to_asset == t);
                assert(jt != j);
                assert(s[jt].from_asset == f && s[jt].to_asset == t);
                assert(false);
            }
        }
    } else {
        let n = s.len() as int;
        lemma_rate_index_at(u, from, to, n);
        assert forall|f: u32, t: u32| !(f == from && t == to) implies #[trigger] rate_of(
            u,
            f,
            t,
        ) == rate_of(s, f, t) by {
            lemma_rate_index_props(s, f, t);
            lemma_rate_index_props(u, f, t);
            if has_rate(s, f, t) {
                let jk = rate_index(s, f, t);
                assert(u[jk] == s[jk]);
                lemma_rate_index_at(u, f, t, jk);
            } else if has_rate(u, f, t) {
                let jt = rate_index(u, f, t);
                assert(u[jt].from_asset == f && u[jt].to_asset == t);
                assert(jt != n);
                assert(s[jt].from_asset == f && s[jt].to_asset == t);
                assert(false);
            }
        }
        assert forall|i: int, jj: int| 0 <= i < jj < u.len() implies !(u[i].from_asset
            == u[jj].from_asset && u[i].to_asset == u[jj].to_asset) by {
            if jj == n {
                assert(!(s[i].from_asset == from && s[i].to_asset == to));
            } else {
                assert(u[i] == s[i] && u[jj] == s[jj]);
            }
        }
    }
}

/// Configure the rate for an ordered pair, replacing or appending.
pub fn store_rate(v: &mut Vec<ExchangeRate>, r: ExchangeRate)
    requires
        rates_unique(old(v)@),
    ensures
        final(v)@ == spec_rate_store(old(v)@, r),
        rates_unique(final(v)@),
{
    proof {
        lemma_rate_store_props(old(v)@, r);
    }
    match find_rate(v, r.from_asset, r.to_asset) {
        Some(j) => {
            vstd::pervasive::VecAdditionalExecFns::set(v, j, r);
        },
        None => {
            v.push(r);
        },
    }
}

/// Output of a fixed-rate swap: the input normalized up to 18 decimals,
/// multiplied by the 1e18-scaled rate, scaled back to the output asset.
pub open spec fn spec_fixed_out(rate: u128, dec_in: u32, dec_out: u32, amount_in: u128) -> int
    recommends
        dec_in <= INTERNAL_DECIMALS,
        dec_out <= INTERNAL_DECIMALS,
{
    let norm_in = sat128(amount_in * pow10((INTERNAL_DECIMALS - dec_in) as nat));
    let norm_out = sat128(norm_in * rate / PRICE_SCALE as int);
    norm_out / pow10((INTERNAL_DECIMALS - dec_out) as nat)
}

/// Output of an oracle-priced swap: the input's USD value converted into
/// output units at the output asset's price.
pub open spec fn spec_oracle_out(
    price_in: u128,
    price_out: u128,
    dec_in: u32,
    dec_out: u32,
    amount_in: u128,
) -> int
    recommends
        price_out > 0,
{
    let value_in = spec_usd_value(amount_in, price_in, dec_in);
    sat128(value_in * pow10(dec_out as nat) / price_out as int)
}

/// The full swap computation: which path applies, what it outputs, and
/// which error it reports.
pub open spec fn spec_swap_result(
    rates: Seq<ExchangeRate>,
    reg: Seq<(u32, AssetConfig)>,
    policy: PricePolicy,
    max_age: u64,
    qs: Seq<PriceQuote>,
    now: u64,
    token_in: u32,
    token_out: u32,
    amount_in: u128,
    min_amount_out: u128,
) -> Result<u128, HubError> {
    match (cfg_of(reg, token_in), cfg_of(reg, token_out)) {
        (Some(ci), Some(co)) => match rate_of(rates, token_in, token_out) {
            Some(rate) => {
                let out = spec_fixed_out(rate, ci.decimals, co.decimals, amount_in);
                if out >= min_amount_out {
                    Ok(out as u128)
                } else {
                    Err(HubError::SwapFailed)
                }
            },
            None => match (
                price_of(reg, policy, max_age, qs, now, token_in),
                price_of(reg, policy, max_age, qs, now, token_out),
            ) {
                (Some(pi), Some(po)) => {
                    let out = spec_oracle_out(pi, po, ci.decimals, co.decimals, amount_in);
                    if out >= min_amount_out {
                        Ok(out as u128)
                    } else {
                        Err(HubError::SwapFailed)
                    }
                },
                _ => Err(HubError::PriceOracleError),
            },
        },
        _ => Err(HubError::InvalidAsset),
    }
}

/// Resolved prices are always positive: a usable quote is nonzero and
/// fallback prices are nonzero by configuration.
pub proof fn lemma_price_of_pos(
    reg: Seq<(u32, AssetConfig)>,
    policy: PricePolicy,
    max_age: u64,
    qs: Seq<PriceQuote>,
    now: u64,
    id: u32,
)
    requires
        registry_wf(reg),
    ensures
        (match price_of(reg, policy, max_age, qs, now, id) {
            Some(p) => p > 0,
            None => true,
        }),
{
    if cfg_of(reg, id) is Some {
        crate::entries::lemma_key_index_props(reg, id);
    }
}

/// Compute a swap: the configured fixed rate wins, otherwise the two
/// assets' resolved prices decide; fails when the output misses the
/// minimum or an asset cannot be priced.
pub fn execute_swap_fixed_rate(
    rates: &Vec<ExchangeRate>,
    reg: &Vec<(u32, AssetConfig)>,
    policy: PricePolicy,
    max_age: u64,
    qs: &Vec<PriceQuote>,
    now: u64,
    token_in: u32,
    token_out: u32,
    amount_in: u128,
    min_amount_out: u128,
) -> (r: Result<u128, HubError>)
    requires
        registry_wf(reg@),
    ensures
        r == spec_swap_result(
            rates@,
            reg@,
            policy,
            max_age,
            qs@,
            now,
            token_in,
            token_out,
            amount_in,
            min_amount_out,
        ),
{
    let ji = find_key(reg, token_in);
    let jo = find_key(reg, token_out);
    if ji.is_none() || jo.is_none() {
        return Err(HubError::InvalidAsset);
    }
    let ji = ji.unwrap();
    let jo = jo.unwrap();
    let dec_in = reg[ji].1.decimals;
    let dec_out = reg[jo].1.decimals;
    match find_rate(rates, token_in, token_out) {
        Some(jr) => {
            let rate = rates[jr].rate;
            let scale_in = pow10_exec(INTERNAL_DECIMALS - dec_in);
            let norm_in = sat_mul(amount_in, scale_in);
            let norm_out = mul_div_sat(norm_in, rate, PRICE_SCALE);
            let scale_out = pow10_exec(INTERNAL_DECIMALS - dec_out);
            let out = norm_out / scale_out;
            if out >= min_amount_out {
                Ok(out)
            } else {
                Err(HubError::SwapFailed)
            }
        },
        None => {
            let pi = resolve_price(&reg[ji].1, policy, qs, now, max_age);
            let po = resolve_price(&reg[jo].1, policy, qs, now, max_age);
            match (pi, po) {
                (Some(pi), Some(po)) => {
                    proof {
                        lemma_price_of_pos(reg@, policy, max_age, qs@, now, token_out);
                    }
                    let value_in = usd_value(amount_in, pi, dec_in);
                    let scale_out = pow10_exec(dec_out);
                    let out = mul_div_sat(value_in, scale_out, po);
                    if out >= min_amount_out {
                        Ok(out)
                    } else {
                        Err(HubError::SwapFailed)
                    }
                },
                _ => Err(HubError::PriceOracleError),
            }
        },
    }
}

} // verus!
