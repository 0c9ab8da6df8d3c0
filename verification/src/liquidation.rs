//! Liquidation arithmetic and the protection selection policy.
//!
//! Manual liquidation seizes, for a covered debt amount, collateral worth
//! that amount plus the collateral asset's configured bonus, converted to
//! collateral units at its current price. Automatic protection picks the
//! single largest outstanding debt and the first nonzero collateral entry
//! in a different asset (first found, by design, not best rate).

use vstd::prelude::*;
use crate::config::BPS_DENOM;
use crate::math::{lemma_pow10_pos, mul_div_sat, pow10, pow10_exec, sat128, sat_add};
use crate::valuation::{spec_usd_value, usd_value};

verus! {

/// Collateral units to seize for covering `debt_to_cover` of debt: the
/// covered USD value, grown by the liquidation bonus, converted at the
/// collateral asset's price and decimals.
pub open spec fn spec_seize_amount(
    debt_to_cover: u128,
    debt_price: u128,
    debt_decimals: u32,
    bonus: u32,
    coll_price: u128,
    coll_decimals: u32,
) -> int
    recommends
        coll_price > 0,
        debt_decimals <= 38,
        coll_decimals <= 38,
{
    let dv = spec_usd_value(debt_to_cover, debt_price, debt_decimals);
    let bonus_v = sat128(dv * bonus / BPS_DENOM as int);
    let cvn = sat128(dv + bonus_v);
    sat128(cvn * pow10(coll_decimals as nat) / coll_price as int)
}

pub fn seize_amount(
    debt_to_cover: u128,
    debt_price: u128,
    debt_decimals: u32,
    bonus: u32,
    coll_price: u128,
    coll_decimals: u32,
) -> (r: u128)
    requires
        coll_price > 0,
        debt_decimals <= 38,
        coll_decimals <= 38,
    ensures
        r == spec_seize_amount(
            debt_to_cover,
            debt_price,
            debt_decimals,
            bonus,
            coll_price,
            coll_decimals,
        ),
{
    let dv = usd_value(debt_to_cover, debt_price, debt_decimals);
    let bonus_v = mul_div_sat(dv, bonus as u128, 10000);
    let cvn = sat_add(dv, bonus_v);
    let scale = pow10_exec(coll_decimals);
    mul_div_sat(cvn, scale, coll_price)
}

/// Holding the covered debt and both prices fixed, a larger liquidation
/// bonus seizes strictly more collateral — provided no intermediate value
/// saturates and the bonus step moves the collateral value by at least one
/// price unit (for a negligible debt value, integer truncation can swallow
/// the difference).
pub proof fn lemma_seize_monotone_in_bonus(
    debt_to_cover: u128,
    debt_price: u128,
    debt_decimals: u32,
    b1: u32,
    b2: u32,
    coll_price: u128,
    coll_decimals: u32,
)
    requires
        b1 < b2,
        coll_price > 0,
        debt_decimals <= 38,
        coll_decimals <= 38,
        debt_to_cover * debt_price / pow10(debt_decimals as nat) + (debt_to_cover * debt_price
            / pow10(debt_decimals as nat)) * b2 / BPS_DENOM as int <= u128::MAX,
        (debt_to_cover * debt_price / pow10(debt_decimals as nat) + (debt_to_cover * debt_price
            / pow10(debt_decimals as nat)) * b2 / BPS_DENOM as int) * pow10(
            coll_decimals as nat,
        ) / coll_price as int <= u128::MAX,
        ((debt_to_cover * debt_price / pow10(debt_decimals as nat)) * b2 / BPS_DENOM as int - (
        debt_to_cover * debt_price / pow10(debt_decimals as nat)) * b1 / BPS_DENOM as int)
            * pow10(coll_decimals as nat) >= coll_price,
    ensures
        spec_seize_amount(debt_to_cover, debt_price, debt_decimals, b2, coll_price, coll_decimals)
            > spec_seize_amount(
            debt_to_cover,
            debt_price,
            debt_decimals,
            b1,
            coll_price,
            coll_decimals,
        ),
{
    let p10d = pow10(debt_decimals as nat);
    let p10c = pow10(coll_decimals as nat);
    lemma_pow10_pos(debt_decimals as nat);
    lemma_pow10_pos(coll_decimals as nat);
    let dvr = debt_to_cover * debt_price / p10d;
    vstd::arithmetic::div_mod::lemma_div_pos_is_pos(debt_to_cover * debt_price, p10d);
    let bon1 = dvr * b1 / BPS_DENOM as int;
    let bon2 = dvr * b2 / BPS_DENOM as int;
    vstd::arithmetic::div_mod::lemma_div_pos_is_pos(dvr * b1, BPS_DENOM as int);
    vstd::arithmetic::mul::lemma_mul_inequality(b1 as int, b2 as int, dvr);
    vstd::arithmetic::div_mod::lemma_div_is_ordered(dvr * b1, dvr * b2, BPS_DENOM as int);
    // Nothing on the b2 path saturates, so nothing on the b1 path does.
    let dv = sat128(dvr);
    assert(dv == dvr);
    let cvn1 = sat128(dv + sat128(bon1));
    let cvn2 = sat128(dv + sat128(bon2));
    assert(cvn1 == dvr + bon1 && cvn2 == dvr + bon2);
    let delta = bon2 - bon1;
    assert(cvn2 * p10c == cvn1 * p10c + delta * p10c) by (nonlinear_arith)
        requires
            cvn2 == cvn1 + delta,
    ;
    vstd::arithmetic::div_mod::lemma_div_is_ordered(
        cvn1 * p10c + coll_price,
        cvn2 * p10c,
        coll_price as int,
    );
    vstd::arithmetic::div_mod::lemma_hoist_over_denominator(
        cvn1 * p10c,
        1,
        coll_price as nat,
    );
    assert((cvn1 * p10c + coll_price) / coll_price as int == cvn1 * p10c / coll_price as int + 1);
    vstd::arithmetic::mul::lemma_mul_inequality(0, cvn1, p10c);
    vstd::arithmetic::div_mod::lemma_div_pos_is_pos(cvn1 * p10c, coll_price as int);
    vstd::arithmetic::div_mod::lemma_div_is_ordered(
        cvn1 * p10c,
        cvn2 * p10c,
        coll_price as int,
    );
    let s1 = cvn1 * p10c / coll_price as int;
    let s2 = cvn2 * p10c / coll_price as int;
    assert(s2 >= s1 + 1);
    assert(s2 <= u128::MAX);
    assert(sat128(s2) == s2 && sat128(s1) == s1);
}

/// The first entry holding the strictly largest amount, if any.
pub open spec fn spec_largest_debt(s: Seq<(u32, u128)>) -> Option<(u32, u128)>
    decreases s.len(),
{
    if s.len() == 0 {
        None
    } else {
        let prev = spec_largest_debt(s.drop_last());
        match prev {
            None => Some(s.last()),
            Some(p) => if s.last().1 > p.1 {
                Some(s.last())
            } else {
                prev
            },
        }
    }
}

/// The first entry in a different asset than `exclude` (its amount is
/// positive in a well-formed list), if any.
pub open spec fn spec_first_other(s: Seq<(u32, u128)>, exclude: u32) -> Option<(u32, u128)>
    decreases s.len(),
{
    if s.len() == 0 {
        None
    } else if s[0].0 != exclude {
        Some(s[0])
    } else {
        spec_first_other(s.drop_first(), exclude)
    }
}

/// The debt entry automatic protection chooses to repay.
pub fn largest_debt(v: &Vec<(u32, u128)>) -> (r: Option<(u32, u128)>)
    ensures
        r == spec_largest_debt(v@),
{
    let n = v.len();
    let mut best: Option<(u32, u128)> = None;
    let mut i: usize = 0;
    proof {
        assert(v@.subrange(0, 0) =~= Seq::<(u32, u128)>::empty());
    }
    while i < n
        invariant
            i <= n,
            n == v.len(),
            best == spec_largest_debt(v@.subrange(0, i as int)),
        decreases n - i,
    {
        let e = v[i];
        best = (match best {
            None => Some(e),
            Some(p) => if e.1 > p.1 {
                Some(e)
            } else {
                Some(p)
            },
        });
        proof {
            let pre = v@.subrange(0, i as int);
            let post = v@.subrange(0, i + 1);
            assert(post.drop_last() =~= pre);
            assert(post.last() == v@[i as int]);
        }
        i = i + 1;
    }
    proof {
        assert(v@.subrange(0, n as int) =~= v@);
    }
    best
}

/// The collateral entry automatic protection spends.
pub fn first_other(v: &Vec<(u32, u128)>, exclude: u32) -> (r: Option<(u32, u128)>)
    ensures
        r == spec_first_other(v@, exclude),
{
    let n = v.len();
    let mut i: usize = 0;
    proof {
        assert(v@.skip(0) =~= v@);
    }
    while i < n
        invariant
            i <= n,
            n == v.len(),
            spec_first_other(v@, exclude) == spec_first_other(v@.skip(i as int), exclude),
        decreases n - i,
    {
        proof {
            assert(v@.skip(i as int)[0] == v@[i as int]);
            assert(v@.skip(i as int).drop_first() =~= v@.skip(i + 1));
        }
        if v[i].0 != exclude {
            return Some(v[i]);
        }
        i = i + 1;
    }
    proof {
        assert(v@.skip(n as int) =~= Seq::<(u32, u128)>::empty());
    }
    None
}

} // verus!

