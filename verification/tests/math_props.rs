use stellar_defi_hub::math::{mul_div, mul_div_sat, pow10_exec, sat_add, sat_mul};
use stellar_defi_hub::liquidation::seize_amount;

#[test]
fn mul_div_small_exact() {
    assert_eq!(mul_div(7, 3, 2), Some(10));
    assert_eq!(mul_div(0, u128::MAX, 5), Some(0));
    assert_eq!(mul_div(1, 1, u128::MAX), Some(0));
}

#[test]
fn mul_div_wide_product() {
    // The product needs 200 bits; the quotient fits again.
    let a = 1u128 << 100;
    assert_eq!(mul_div(a, a, a), Some(a));
    assert_eq!(mul_div(u128::MAX, u128::MAX, u128::MAX), Some(u128::MAX));
}

#[test]
fn mul_div_overflowing_quotient() {
    assert_eq!(mul_div(u128::MAX, 2, 1), None);
    assert_eq!(mul_div_sat(u128::MAX, 2, 1), u128::MAX);
}

#[test]
fn mul_div_health_factor_shape() {
    // A $800 collateral value over a $700 debt, both 1e18-scaled: the
    // intermediate product is far beyond 128 bits.
    let c = 800_000_000_000_000_000_000u128;
    let d = 700_000_000_000_000_000_000u128;
    let scale = 1_000_000_000_000_000_000u128;
    assert_eq!(mul_div(c, scale, d), Some(1_142_857_142_857_142_857));
}

#[test]
fn pow10_values() {
    assert_eq!(pow10_exec(0), 1);
    assert_eq!(pow10_exec(6), 1_000_000);
    assert_eq!(pow10_exec(18), 1_000_000_000_000_000_000);
    assert_eq!(pow10_exec(38), 100_000_000_000_000_000_000_000_000_000_000_000_000);
}

#[test]
fn saturating_helpers() {
    assert_eq!(sat_add(u128::MAX, 1), u128::MAX);
    assert_eq!(sat_add(1, 2), 3);
    assert_eq!(sat_mul(u128::MAX, 2), u128::MAX);
    assert_eq!(sat_mul(1 << 64, 1 << 63), 1 << 127);
}

#[test]
fn seize_amount_exact() {
    // Covering 100 debt units at $1.10 with a 5% bonus, collateral at
    // $1.00 with zero decimals: floor(115.5) = 115 units seized.
    let s = seize_amount(
        100,
        1_100_000_000_000_000_000,
        0,
        500,
        1_000_000_000_000_000_000,
        0,
    );
    assert_eq!(s, 115);
}

#[test]
fn seize_grows_with_bonus() {
    // Holding the covered debt and both prices fixed, a larger bonus
    // seizes strictly more.
    let dp = 1_100_000_000_000_000_000u128;
    let cp = 1_000_000_000_000_000_000u128;
    let s5 = seize_amount(1000, dp, 0, 500, cp, 0);
    let s8 = seize_amount(1000, dp, 0, 800, cp, 0);
    assert_eq!(s5, 1155);
    assert_eq!(s8, 1188);
    assert!(s8 > s5);
}
