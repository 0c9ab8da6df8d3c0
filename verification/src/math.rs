//! Fixed-point arithmetic kernel.
//!
//! Every valuation in the engine is a `floor(a * b / d)` with `u128`
//! operands. The product `a * b` can need up to 256 bits (a health factor
//! multiplies an 18-decimal USD value by the 1e18 scale before dividing), so
//! the kernel multiplies first at full width and divides afterwards; a
//! quotient that does not fit `u128` saturates to `u128::MAX`.

use vstd::prelude::*;
use vstd::arithmetic::div_mod::{
    lemma_breakdown, lemma_div_is_ordered, lemma_div_multiples_vanish_fancy,
    lemma_fundamental_div_mod, lemma_fundamental_div_mod_converse_div,
    lemma_hoist_over_denominator, lemma_mod_multiples_vanish, lemma_small_mod,
};
use vstd::arithmetic::mul::lemma_mul_upper_bound;
use vstd::arithmetic::power::{lemma_pow_increases, lemma_pow_positive, pow};
use vstd::arithmetic::power2::{lemma2_to64, lemma2_to64_rest, lemma_pow2_adds, lemma_pow2_pos, pow2};

verus! {

/// 2^64, the limb base of the wide multiplication.
pub const LIMB: u128 = 18446744073709551616;

/// 2^127, used to peel the top bit off a 128-bit value.
pub const TOP_BIT: u128 = 170141183460469231731687303715884105728;

/// 10^e as a mathematical integer.
pub open spec fn pow10(e: nat) -> int {
    pow(10, e)
}

/// An integer clamped to the `u128` range from above.
pub open spec fn sat128(x: int) -> int {
    if x > u128::MAX { u128::MAX as int } else { x }
}

/// `floor(a * b / d)` clamped to the `u128` range, the shape of every
/// valuation the engine performs.
pub open spec fn mul_div_sat_spec(a: int, b: int, d: int) -> int
    recommends
        d > 0,
{
    sat128(a * b / d)
}

proof fn lemma_pow2_vals()
    ensures
        pow2(64) == LIMB,
        pow2(63) == 0x8000000000000000,
        pow2(127) == TOP_BIT,
        pow2(128) == 0x100000000000000000000000000000000,
{
    lemma2_to64();
    lemma2_to64_rest();
    lemma_pow2_adds(64, 63);
    lemma_pow2_adds(64, 64);
}

pub proof fn lemma_pow10_pos(e: nat)
    ensures
        pow10(e) >= 1,
{
    lemma_pow_positive(10, e);
    if pow10(e) == 0 {
        assert(false);
    }
}

proof fn lemma_pow10_small_vals()
    ensures
        pow10(6) == 1000000,
        pow10(8) == 100000000,
        pow10(16) == 10000000000000000,
        pow10(32) == 100000000000000000000000000000000,
{
    assert(pow10(6) == 1000000 && pow10(8) == 100000000) by {
        reveal_with_fuel(pow, 9);
    }
    vstd::arithmetic::power::lemma_pow_adds(10, 8, 8);
    assert(pow10(16) == 100000000 * 100000000) by (nonlinear_arith)
        requires
            pow10(16) == pow10(8) * pow10(8),
            pow10(8) == 100000000,
    ;
    vstd::arithmetic::power::lemma_pow_adds(10, 16, 16);
    assert(pow10(32) == 10000000000000000 * 10000000000000000) by (nonlinear_arith)
        requires
            pow10(32) == pow10(16) * pow10(16),
            pow10(16) == 10000000000000000,
    ;
}

/// 10^38 is the largest power of ten below 2^128.
pub proof fn lemma_pow10_bound(e: nat)
    requires
        e <= 38,
    ensures
        1 <= pow10(e) <= pow10(38),
        pow10(38) == 100000000000000000000000000000000000000,
{
    lemma_pow10_pos(e);
    lemma_pow_increases(10, e, 38);
    lemma_pow10_small_vals();
    vstd::arithmetic::power::lemma_pow_adds(10, 32, 6);
    assert(pow10(38) == 100000000000000000000000000000000 * 1000000) by (nonlinear_arith)
        requires
            pow10(38) == pow10(32) * pow10(6),
            pow10(32) == 100000000000000000000000000000000,
            pow10(6) == 1000000,
    ;
}

/// 10^e for the decimal normalizations of the engine.
pub fn pow10_exec(e: u32) -> (r: u128)
    requires
        e <= 38,
    ensures
        r == pow10(e as nat),
        r >= 1,
{
    proof {
        vstd::arithmetic::power::lemma_pow0(10);
    }
    let mut r: u128 = 1;
    let mut i: u32 = 0;
    while i < e
        invariant
            i <= e <= 38,
            r == pow10(i as nat),
        decreases e - i,
    {
        proof {
            lemma_pow10_bound(i as nat);
            lemma_pow10_bound((i + 1) as nat);
            assert(pow10((i + 1) as nat) == 10 * pow10(i as nat)) by {
                reveal_with_fuel(pow, 2);
            }
        }
        r = r * 10;
        i = i + 1;
    }
    proof {
        lemma_pow10_pos(e as nat);
    }
    r
}

/// The 256-bit product of two `u128` values, split as `hi * 2^128 + lo`.
fn wide_mul(a: u128, b: u128) -> (r: (u128, u128))
    ensures
        r.0 * pow2(128) + r.1 == a * b,
{
    proof {
        lemma_pow2_vals();
    }
    let a1 = a / LIMB;
    let a0 = a % LIMB;
    let b1 = b / LIMB;
    let b0 = b % LIMB;
    proof {
        lemma_fundamental_div_mod(a as int, LIMB as int);
        lemma_fundamental_div_mod(b as int, LIMB as int);
        assert(a1 < LIMB) by {
            assert((LIMB * (LIMB - 1) + (LIMB - 1)) / LIMB as int == LIMB - 1) by {
                lemma_div_multiples_vanish_fancy(LIMB as int - 1, LIMB as int - 1, LIMB as int);
            }
            lemma_div_is_ordered(a as int, LIMB * (LIMB - 1) + (LIMB - 1), LIMB as int);
        }
        assert(b1 < LIMB) by {
            assert((LIMB * (LIMB - 1) + (LIMB - 1)) / LIMB as int == LIMB - 1) by {
                lemma_div_multiples_vanish_fancy(LIMB as int - 1, LIMB as int - 1, LIMB as int);
            }
            lemma_div_is_ordered(b as int, LIMB * (LIMB - 1) + (LIMB - 1), LIMB as int);
        }
        lemma_mul_upper_bound(a1 as int, LIMB - 1, b1 as int, LIMB - 1);
        lemma_mul_upper_bound(a1 as int, LIMB - 1, b0 as int, LIMB - 1);
        lemma_mul_upper_bound(a0 as int, LIMB - 1, b1 as int, LIMB - 1);
        lemma_mul_upper_bound(a0 as int, LIMB - 1, b0 as int, LIMB - 1);
    }
    let p11 = a1 * b1;
    let p10 = a1 * b0;
    let p01 = a0 * b1;
    let p00 = a0 * b0;
    let c1 = p00 / LIMB;
    let c0 = p00 % LIMB;
    let m1 = p10 / LIMB;
    let m0 = p10 % LIMB;
    let n1 = p01 / LIMB;
    let n0 = p01 % LIMB;
    proof {
        assert(((LIMB - 1) * (LIMB - 1)) / LIMB as int == LIMB - 2) by {
            lemma_div_multiples_vanish_fancy(LIMB as int - 2, 1, LIMB as int);
            assert((LIMB - 1) * (LIMB - 1) == LIMB * (LIMB - 2) + 1) by (nonlinear_arith);
        }
        lemma_div_is_ordered(p00 as int, (LIMB - 1) * (LIMB - 1), LIMB as int);
        lemma_div_is_ordered(p10 as int, (LIMB - 1) * (LIMB - 1), LIMB as int);
        lemma_div_is_ordered(p01 as int, (LIMB - 1) * (LIMB - 1), LIMB as int);
    }
    let t = c1 + m0 + n0;
    let t1 = t / LIMB;
    let t0 = t % LIMB;
    proof {
        assert(t1 <= 2) by {
            assert((LIMB * 2 + (LIMB as int - 4)) / LIMB as int == 2) by {
                lemma_div_multiples_vanish_fancy(2, LIMB as int - 4, LIMB as int);
            }
            lemma_div_is_ordered(t as int, 3 * (LIMB as int) - 4, LIMB as int);
        }
    }
    let hi = p11 + m1 + n1 + t1;
    let lo = t0 * LIMB + c0;
    proof {
        lemma_fundamental_div_mod(p00 as int, LIMB as int);
        lemma_fundamental_div_mod(p10 as int, LIMB as int);
        lemma_fundamental_div_mod(p01 as int, LIMB as int);
        lemma_fundamental_div_mod(t as int, LIMB as int);
        let tt: int = LIMB as int;
        assert((tt * a1 + a0) * (tt * b1 + b0) == tt * tt * (a1 * b1) + tt * (a1 * b0) + tt * (a0
            * b1) + a0 * b0) by (nonlinear_arith);
        assert(a * b == tt * tt * p11 + tt * p10 + tt * p01 + p00);
        assert(tt * p10 == tt * tt * m1 + tt * m0) by (nonlinear_arith)
            requires
                p10 == tt * m1 + m0,
        ;
        assert(tt * p01 == tt * tt * n1 + tt * n0) by (nonlinear_arith)
            requires
                p01 == tt * n1 + n0,
        ;
        assert(tt * t == tt * c1 + tt * m0 + tt * n0) by (nonlinear_arith)
            requires
                t == c1 + m0 + n0,
        ;
        assert(tt * t == tt * tt * t1 + tt * t0) by (nonlinear_arith)
            requires
                t == tt * t1 + t0,
        ;
        assert(tt * tt * (p11 + m1 + n1 + t1) == tt * tt * p11 + tt * tt * m1 + tt * tt * n1 + tt
            * tt * t1) by (nonlinear_arith);
        assert(a * b == tt * tt * (p11 + m1 + n1 + t1) + (tt * t0 + c0));
        assert(tt * tt == pow2(128));
    }
    (hi, lo)
}

/// One step of the restoring binary division of `hi * 2^128 + lo` by `d`:
/// relates the bit peeled off `cur` to the next partial dividend.
proof fn lemma_div_step(n: int, lo: int, hi: int, d: int, q: int, r: int, cur: int, i: int)
    requires
        0 < d,
        0 <= i < 128,
        n == hi * pow2(128) + lo,
        0 <= lo <= u128::MAX,
        0 <= hi < d,
        0 <= r < d,
        q * d + r == n / pow2((128 - i) as nat) as int,
        0 <= q <= pow2(i as nat) - 1,
        cur == (lo % pow2((128 - i) as nat) as int) * pow2(i as nat),
    ensures
        ({
            let b = cur / pow2(127) as int;
            let km1 = (127 - i) as nat;
            &&& 0 <= b <= 1
            &&& 2 * (q * d + r) + b == n / pow2(km1) as int
            &&& (cur % pow2(127) as int) * 2 == (lo % pow2(km1) as int) * pow2((i + 1) as nat)
            &&& 0 <= cur / pow2(127) as int
        }),
{
    let k = (128 - i) as nat;
    let km1 = (127 - i) as nat;
    let p_km1: int = pow2(km1) as int;
    let p_k: int = pow2(k) as int;
    let p_i: int = pow2(i as nat) as int;
    let p_i1: int = pow2((i + 1) as nat) as int;
    lemma_pow2_vals();
    lemma_pow2_pos(km1);
    lemma_pow2_pos(k);
    lemma_pow2_pos(i as nat);
    lemma_pow2_adds(km1, 1);
    lemma2_to64();
    assert(p_k == p_km1 * 2);
    lemma_pow2_adds(i as nat, 1);
    assert(p_i1 == p_i * 2);
    lemma_pow2_adds(km1, i as nat);
    assert(pow2(127) as int == p_km1 * p_i);
    lemma_pow2_adds(km1, (i + 1) as nat);
    assert(pow2(128) as int == p_km1 * p_i1);

    // Split the low k bits of lo into the top bit and the low k-1 bits.
    let bit = (lo / p_km1) % 2;
    lemma_breakdown(lo, p_km1, 2);
    assert(lo % p_k == p_km1 * bit + lo % p_km1);

    // Identify that bit with the top bit of cur.
    let rest = (lo % p_km1) * p_i;
    assert(cur == bit * (pow2(127) as int) + rest) by (nonlinear_arith)
        requires
            cur == (lo % p_k) * p_i,
            lo % p_k == p_km1 * bit + lo % p_km1,
            rest == (lo % p_km1) * p_i,
            pow2(127) as int == p_km1 * p_i,
    ;
    assert(0 <= rest < pow2(127) as int) by (nonlinear_arith)
        requires
            rest == (lo % p_km1) * p_i,
            0 <= lo % p_km1 < p_km1,
            p_i > 0,
            pow2(127) as int == p_km1 * p_i,
    ;
    lemma_div_multiples_vanish_fancy(bit, rest, pow2(127) as int);
    assert(cur / pow2(127) as int == bit);
    lemma_mod_multiples_vanish(bit, rest, pow2(127) as int);
    lemma_small_mod(rest as nat, pow2(127));
    assert(cur % pow2(127) as int == rest);
    assert(rest * 2 == (lo % p_km1) * p_i1) by (nonlinear_arith)
        requires
            rest == (lo % p_km1) * p_i,
            p_i1 == p_i * 2,
    ;

    // The next partial dividend doubles the previous one and adds that bit.
    lemma_div_denominator_wrap(n, p_km1, 2);
    assert(n / p_k == (n / p_km1) / 2);
    lemma_fundamental_div_mod(n / p_km1, 2);
    let bit2 = (n / p_km1) % 2;
    assert(n / p_km1 == 2 * (n / p_k) + bit2);

    // bit2 is bit: the low 128 bits of n come from lo.
    assert(n == (hi * p_i1) * p_km1 + lo) by (nonlinear_arith)
        requires
            n == hi * pow2(128) + lo,
            pow2(128) as int == p_km1 * p_i1,
    ;
    lemma_hoist_over_denominator(lo, hi * p_i1, pow2(km1));
    assert(n / p_km1 == lo / p_km1 + hi * p_i1);
    assert(hi * p_i1 == 2 * (hi * p_i)) by (nonlinear_arith)
        requires
            p_i1 == p_i * 2,
    ;
    lemma_mod_multiples_vanish(hi * p_i, lo / p_km1, 2);
    assert(bit2 == (lo / p_km1) % 2);
    assert(bit2 == bit);
}

/// Helper with the same shape as `lemma_div_denominator`, kept separate so
/// the call sites read in the dividend-first order used here.
proof fn lemma_div_denominator_wrap(x: int, c: int, d: int)
    requires
        0 <= x,
        0 < c,
        0 < d,
    ensures
        (x / c) / d == x / (c * d),
{
    vstd::arithmetic::div_mod::lemma_div_denominator(x, c, d);
}

/// Quotient of the 256-bit value `hi * 2^128 + lo` by `d`, by restoring
/// binary division, for quotients that fit `u128`.
fn div_wide(hi: u128, lo: u128, d: u128) -> (q: u128)
    requires
        0 < d,
        hi < d,
    ensures
        q == (hi * pow2(128) + lo) / d as int,
{
    let ghost n: int = hi * pow2(128) + lo;
    proof {
        lemma_pow2_vals();
        lemma2_to64();
        lemma_pow2_pos(128);
        assert(n / pow2(128) as int == hi) by {
            lemma_div_multiples_vanish_fancy(hi as int, lo as int, pow2(128) as int);
        }
        lemma_small_mod(lo as nat, pow2(128));
    }
    let mut q: u128 = 0;
    let mut r: u128 = hi;
    let mut cur: u128 = lo;
    let mut i: u32 = 0;
    while i < 128
        invariant
            0 < d,
            i <= 128,
            hi < d,
            r < d,
            q <= pow2(i as nat) - 1,
            q * d + r == n / pow2((128 - i) as nat) as int,
            cur == ((lo as int) % (pow2((128 - i) as nat) as int)) * pow2(i as nat),
            n == hi * pow2(128) + lo,
        decreases 128 - i,
    {
        proof {
            lemma_div_step(n, lo as int, hi as int, d as int, q as int, r as int, cur as int,
                i as int);
            lemma_pow2_vals();
            lemma2_to64();
            if i < 127 {
                vstd::arithmetic::power2::lemma_pow2_strictly_increases(i as nat, 127);
            }
            lemma_pow2_adds(i as nat, 1);
        }
        let ghost sum0: int = (q as int) * d + (r as int);
        let ghost div1: int = n / (pow2((127 - i) as nat) as int);
        let ghost low1: int = ((lo as int) % (pow2((127 - i) as nat) as int)) * (pow2(
            (i + 1) as nat,
        ) as int);
        let bt: u128 = cur / TOP_BIT;
        proof {
            assert(0 <= bt <= 1);
            assert(2 * sum0 + bt == div1);
            assert(((cur as int) % (pow2(127) as int)) * 2 == low1);
        }
        cur = (cur % TOP_BIT) * 2;
        let ghost q0: int = q as int;
        let ghost r0: int = r as int;
        let s: u128 = d - r;
        if r >= s - bt {
            r = r - (s - bt);
            q = 2 * q + 1;
            proof {
                assert((2 * q0 + 1) * d == 2 * (q0 * d) + d) by (nonlinear_arith);
                assert((q as int) * d + (r as int) == 2 * sum0 + bt);
            }
        } else {
            r = 2 * r + bt;
            q = 2 * q;
            proof {
                assert((2 * q0) * d == 2 * (q0 * d)) by (nonlinear_arith);
                assert((q as int) * d + (r as int) == 2 * sum0 + bt);
            }
        }
        i = i + 1;
        proof {
            assert((q as int) * d + (r as int) == n / (pow2((128 - i) as nat) as int));
            assert(cur == ((lo as int) % (pow2((128 - i) as nat) as int)) * (pow2(i as nat) as int));
        }
    }
    proof {
        assert(pow2(0) == 1) by {
            lemma2_to64();
        }
        vstd::arithmetic::div_mod::lemma_div_basics(n);
        assert(q * d + r == n);
        lemma_fundamental_div_mod_converse_div(n, d as int, q as int, r as int);
    }
    q
}

/// `floor(a * b / d)` with the product taken at 256-bit width; `None` when
/// the quotient does not fit `u128`.
pub fn mul_div(a: u128, b: u128, d: u128) -> (r: Option<u128>)
    requires
        d > 0,
    ensures
        (match r {
            Some(q) => q == a * b / d as int,
            None => a * b / d as int > u128::MAX,
        }),
{
    let (hi, lo) = wide_mul(a, b);
    if hi >= d {
        proof {
            lemma_pow2_vals();
            assert(a * b >= d * pow2(128)) by (nonlinear_arith)
                requires
                    a * b == hi * pow2(128) + lo,
                    hi >= d,
                    lo >= 0,
                    pow2(128) > 0,
            ;
            assert((d * pow2(128)) / d as int == pow2(128)) by {
                lemma_div_multiples_vanish_fancy(pow2(128) as int, 0, d as int);
                assert(d * pow2(128) == d as int * pow2(128) as int + 0);
            }
            lemma_div_is_ordered(d * pow2(128), a * b, d as int);
        }
        None
    } else {
        let q = div_wide(hi, lo, d);
        Some(q)
    }
}

/// `floor(a * b / d)` saturating at `u128::MAX`.
pub fn mul_div_sat(a: u128, b: u128, d: u128) -> (r: u128)
    requires
        d > 0,
    ensures
        r == mul_div_sat_spec(a as int, b as int, d as int),
{
    match mul_div(a, b, d) {
        Some(q) => q,
        None => u128::MAX,
    }
}

/// `a + b` saturating at `u128::MAX`.
pub fn sat_add(a: u128, b: u128) -> (r: u128)
    ensures
        r == sat128(a + b),
{
    a.saturating_add(b)
}

/// `a * b` saturating at `u128::MAX`.
pub fn sat_mul(a: u128, b: u128) -> (r: u128)
    ensures
        r == sat128(a * b),
{
    match a.checked_mul(b) {
        Some(v) => v,
        None => u128::MAX,
    }
}

} // verus!
