use stellar_defi_hub::config::{AssetConfig, HealthStatus, PriceQuote, PricePolicy};
use stellar_defi_hub::errors::HubError;
use stellar_defi_hub::health::compute_health_factor;
use stellar_defi_hub::hub::StellarDeFiHub;
use stellar_defi_hub::position::UserPosition;

const E18: u128 = 1_000_000_000_000_000_000;
const ADMIN: u32 = 1;

fn asset(id: u32, decimals: u32, ltv: u32, bonus: u32, price: u128) -> AssetConfig {
    AssetConfig {
        address: id,
        symbol: "TST".to_string(),
        decimals,
        is_active: true,
        is_collateral: true,
        ltv_ratio: ltv,
        reserve_index: 0,
        liquidation_bonus: bonus,
        fallback_price: price,
    }
}

fn hub() -> StellarDeFiHub {
    StellarDeFiHub::initialize(ADMIN, 0)
}

fn no_quotes() -> Vec<PriceQuote> {
    vec![]
}

#[test]
fn six_decimal_asset_contributes_exactly_one_usd() {
    // One whole token (1_000_000 units at 6 decimals) at price 1.0 and
    // 100% LTV contributes exactly 1e18 of collateral value: with a debt
    // worth exactly 1e18 the health factor is exactly 1.0.
    let mut h = hub();
    h.add_asset(ADMIN, asset(10, 6, 10000, 0, E18)).unwrap();
    h.add_asset(ADMIN, asset(11, 0, 10000, 0, E18)).unwrap();
    let p = UserPosition {
        supplied_assets: vec![(10, 1_000_000)],
        borrowed_assets: vec![(11, 1)],
        staked_blend: 0,
        rewards_earned: 0,
        last_reward_update: 0,
        health_factor: E18,
        liquidation_threshold: E18,
    };
    let hf = compute_health_factor(
        &h.assets,
        h.price_policy,
        h.max_price_age,
        &no_quotes(),
        0,
        &p,
        None,
    );
    assert_eq!(hf, E18);
}

#[test]
fn zero_debt_returns_sentinel() {
    let mut h = hub();
    h.add_asset(ADMIN, asset(10, 6, 10000, 0, E18)).unwrap();
    let p = UserPosition {
        supplied_assets: vec![(10, 1_000_000)],
        borrowed_assets: vec![],
        staked_blend: 0,
        rewards_earned: 0,
        last_reward_update: 0,
        health_factor: E18,
        liquidation_threshold: E18,
    };
    let hf = compute_health_factor(
        &h.assets,
        h.price_policy,
        h.max_price_age,
        &no_quotes(),
        0,
        &p,
        None,
    );
    assert_eq!(hf, 1000 * E18);
    // The same through the hub for an untouched account.
    let pos = h.get_user_position(99, &no_quotes(), 0);
    assert!(pos.borrowed_assets.is_empty());
    assert_eq!(
        h.get_user_position(99, &no_quotes(), 0).health_factor,
        1000 * E18
    );
}

#[test]
fn borrower_scenario_health_factor() {
    // Supply 10 tokens at $100 and 80% LTV, borrow 700 tokens at $1:
    // health factor floor(800/700 * 1e18).
    let mut h = hub();
    h.add_asset(ADMIN, asset(20, 7, 8000, 500, 100 * E18)).unwrap();
    h.add_asset(ADMIN, asset(21, 7, 5000, 500, E18)).unwrap();
    let user = 42;
    let req = h
        .supply_to_blend(user, 20, 100_000_000, true, 0, &no_quotes(), 0)
        .unwrap();
    assert_eq!(req.request_type, 2);
    assert_eq!(req.amount, 100_000_000i128);
    let (breq, prot) = h
        .borrow_from_blend(user, 21, 7_000_000_000, 0, &no_quotes(), 0)
        .unwrap();
    assert_eq!(breq.request_type, 4);
    assert!(prot.is_none());
    let pos = h.get_user_position(user, &no_quotes(), 0);
    assert_eq!(pos.health_factor, 1_142_857_142_857_142_857);
    assert_eq!(pos.borrowed_assets, vec![(21, 7_000_000_000)]);
    // One more unit of debt still projects above 1.0 but below 1.15.
    let stored = h.get_user_position(user, &no_quotes(), 0);
    let projected = compute_health_factor(
        &h.assets,
        h.price_policy,
        h.max_price_age,
        &no_quotes(),
        0,
        &stored,
        Some((21, 1)),
    );
    assert_eq!(projected, 1_142_857_142_693_877_551);
    assert!(projected >= E18);
    assert!(projected < 1_150_000_000_000_000_000);
}

#[test]
fn borrow_boundary_is_inclusive() {
    // A projected health factor of exactly the 1.03 minimum is accepted;
    // anything strictly below is rejected.
    let mut h = hub();
    h.add_asset(ADMIN, asset(30, 0, 10000, 0, E18)).unwrap();
    h.add_asset(ADMIN, asset(31, 0, 5000, 0, E18)).unwrap();
    let user = 7;
    h.supply_to_blend(user, 30, 103, true, 0, &no_quotes(), 0).unwrap();
    assert!(h.borrow_from_blend(user, 31, 100, 0, &no_quotes(), 0).is_ok());
    assert_eq!(
        h.borrow_from_blend(user, 31, 1, 0, &no_quotes(), 0),
        Err(HubError::UnhealthyPosition)
    );
}

#[test]
fn liquidation_at_exactly_one_is_rejected() {
    // Health factor exactly 1.0 is not liquidatable.
    let mut h = hub();
    h.add_asset(ADMIN, asset(30, 0, 10000, 500, E18)).unwrap();
    h.add_asset(ADMIN, asset(31, 0, 5000, 0, E18)).unwrap();
    let user = 8;
    h.supply_to_blend(user, 30, 728, true, 0, &no_quotes(), 0).unwrap();
    h.borrow_from_blend(user, 31, 700, 0, &no_quotes(), 0).unwrap();
    // Quote the debt asset at $1.04: 728 collateral over 728 debt value.
    let quotes = vec![PriceQuote { asset: 31, price: 1_040_000_000_000_000_000, timestamp: 0 }];
    assert_eq!(h.get_user_position(user, &quotes, 0).health_factor, E18);
    assert_eq!(
        h.liquidate_position(9, user, 31, 30, 100, &quotes, 0),
        Err(HubError::NotLiquidatable)
    );
}

#[test]
fn liquidation_seizes_bonus_weighted_collateral() {
    let mut h = hub();
    h.add_asset(ADMIN, asset(30, 0, 10000, 500, E18)).unwrap();
    h.add_asset(ADMIN, asset(31, 0, 5000, 0, E18)).unwrap();
    let user = 8;
    h.supply_to_blend(user, 30, 728, true, 0, &no_quotes(), 0).unwrap();
    h.borrow_from_blend(user, 31, 700, 0, &no_quotes(), 0).unwrap();
    // Debt asset at $1.10: health 728/770 < 1.0, liquidatable.
    let quotes = vec![PriceQuote { asset: 31, price: 1_100_000_000_000_000_000, timestamp: 0 }];
    let (seized, req) = h.liquidate_position(9, user, 31, 30, 100, &quotes, 0).unwrap();
    // Covered value $110, plus 5% bonus = $115.5, at $1 collateral: 115.
    assert_eq!(seized, 115);
    assert_eq!(req.request_type, 5);
    assert_eq!(req.address, 31);
    assert_eq!(req.amount, 100i128);
    let pos = h.get_user_position(user, &quotes, 0);
    assert_eq!(pos.borrowed_assets, vec![(31, 600)]);
    assert_eq!(pos.supplied_assets, vec![(30, 613)]);
}

#[test]
fn liquidation_insufficient_collateral() {
    let mut h = hub();
    h.add_asset(ADMIN, asset(30, 0, 10000, 500, E18)).unwrap();
    h.add_asset(ADMIN, asset(31, 0, 5000, 0, E18)).unwrap();
    let user = 8;
    h.supply_to_blend(user, 30, 728, true, 0, &no_quotes(), 0).unwrap();
    h.borrow_from_blend(user, 31, 700, 0, &no_quotes(), 0).unwrap();
    let quotes = vec![PriceQuote { asset: 31, price: 1_100_000_000_000_000_000, timestamp: 0 }];
    // Covering the full 700 needs 770 * 1.05 = 808.5 collateral units.
    assert_eq!(
        h.liquidate_position(9, user, 31, 30, 700, &quotes, 0),
        Err(HubError::InsufficientCollateral)
    );
    // More than the recorded debt is rejected earlier.
    assert_eq!(
        h.liquidate_position(9, user, 31, 30, 701, &quotes, 0),
        Err(HubError::InsufficientBalance)
    );
}

#[test]
fn protection_trigger_repays_largest_debt() {
    let mut h = hub();
    h.add_asset(ADMIN, asset(30, 0, 10000, 500, E18)).unwrap();
    h.add_asset(ADMIN, asset(31, 0, 5000, 0, E18)).unwrap();
    let user = 8;
    h.supply_to_blend(user, 30, 728, true, 0, &no_quotes(), 0).unwrap();
    h.borrow_from_blend(user, 31, 700, 0, &no_quotes(), 0).unwrap();
    // Health 1.04 is at or below the 1.05 trigger. Max repay is 50% of
    // 700 = 350; the collateral needed is 350 plus the 1% fee = 353; the
    // swap returns 353, which is repaid.
    let (repaid, req) = h.trigger_liquidation_protection(user, &no_quotes(), 0).unwrap();
    assert_eq!(repaid, 353);
    let req = req.unwrap();
    assert_eq!(req.request_type, 5);
    assert_eq!(req.address, 31);
    assert_eq!(req.amount, 353i128);
    let pos = h.get_user_position(user, &no_quotes(), 0);
    assert_eq!(pos.borrowed_assets, vec![(31, 347)]);
    assert_eq!(pos.supplied_assets, vec![(30, 375)]);
    assert_eq!(pos.health_factor, 1_080_691_642_651_296_829);
}

#[test]
fn protection_trigger_on_healthy_position_fails() {
    let mut h = hub();
    assert_eq!(
        h.trigger_liquidation_protection(5, &no_quotes(), 0),
        Err(HubError::LiquidationProtectionFailed)
    );
}

#[test]
fn swap_takes_fee_and_uses_fixed_rate() {
    // 1 XLM (7 decimals) at the configured 0.12 rate: 0.5% fee leaves
    // 9_950_000 units, worth 119_400 USDC units (6 decimals).
    let mut h = hub();
    let (out, prot) = h
        .swap_tokens(5, 0, 2, 10_000_000, 1, u64::MAX, &no_quotes(), 0)
        .unwrap();
    assert_eq!(out, 119_400);
    assert!(prot.is_none());
    assert_eq!(h.reward_pool, 50_000);
}

#[test]
fn swap_respects_minimum_and_deadline() {
    let mut h = hub();
    assert_eq!(
        h.swap_tokens(5, 0, 2, 10_000_000, 119_401, u64::MAX, &no_quotes(), 0),
        Err(HubError::SwapFailed)
    );
    assert_eq!(
        h.swap_tokens(5, 0, 2, 10_000_000, 1, 10, &no_quotes(), 100),
        Err(HubError::SwapFailed)
    );
    assert_eq!(h.reward_pool, 0);
}

#[test]
fn updated_exchange_rate_changes_swap_output() {
    let mut h = hub();
    h.update_exchange_rate(ADMIN, 0, 2, 240_000_000_000_000_000, 0).unwrap();
    let (out, _) = h
        .swap_tokens(5, 0, 2, 10_000_000, 1, u64::MAX, &no_quotes(), 0)
        .unwrap();
    assert_eq!(out, 238_800);
    assert_eq!(
        h.update_exchange_rate(2, 0, 2, E18, 0),
        Err(HubError::Unauthorized)
    );
}

#[test]
fn first_stake_and_day_of_rewards() {
    // Fill the fee pool, stake 100, and after one day a zero stake from a
    // second account is rejected and changes nothing; unstaking then
    // claims exactly the one day accrued (1% of 100), and the pool's
    // accumulator advanced by rate * day / total = 864000.
    let mut h = hub();
    h.swap_tokens(5, 0, 2, 10_000_000, 1, u64::MAX, &no_quotes(), 0).unwrap();
    assert_eq!(h.reward_pool, 50_000);
    h.stake_blend(6, 100, 0).unwrap();
    assert_eq!(h.staking_pool.total_staked, 100);
    assert_eq!(h.staking_pool.reward_per_token_stored, 0);
    assert_eq!(h.stake_blend(7, 0, 86_400), Err(HubError::InvalidAmount));
    assert_eq!(h.staking_pool.reward_per_token_stored, 0);
    assert_eq!(h.staking_pool.last_update_time, 0);
    let payout = h.unstake_blend(6, 100, 86_400).unwrap();
    assert_eq!(payout, 1);
    assert_eq!(h.reward_pool, 49_999);
    assert_eq!(h.staking_pool.total_staked, 0);
    assert_eq!(h.staking_pool.reward_per_token_stored, 864_000);
    assert_eq!(h.staking_pool.total_rewards_distributed, 1);
    let pos = h.get_user_position(6, &no_quotes(), 86_400);
    assert_eq!(pos.staked_blend, 0);
    assert_eq!(pos.rewards_earned, 0);
}

#[test]
fn reward_shortfall_is_retained() {
    // With an empty fee pool the claim pays nothing and the accrued
    // remainder stays on the position.
    let mut h = hub();
    h.stake_blend(6, 100, 0).unwrap();
    let payout = h.unstake_blend(6, 100, 86_400).unwrap();
    assert_eq!(payout, 0);
    assert_eq!(h.get_user_position(6, &no_quotes(), 86_400).rewards_earned, 1);
}

#[test]
fn checkpoint_updates_commute_across_accounts() {
    let mut h1 = hub();
    let mut h2 = hub();
    h1.stake_blend(1, 100, 0).unwrap();
    h2.stake_blend(1, 100, 0).unwrap();
    h1.stake_blend(2, 40, 1000).unwrap();
    h1.unstake_blend(1, 30, 1000).unwrap();
    h2.unstake_blend(1, 30, 1000).unwrap();
    h2.stake_blend(2, 40, 1000).unwrap();
    assert_eq!(
        h1.staking_pool.reward_per_token_stored,
        h2.staking_pool.reward_per_token_stored
    );
    assert_eq!(h1.staking_pool.reward_per_token_stored, 10_000);
    assert_eq!(h1.staking_pool.total_staked, h2.staking_pool.total_staked);
}

#[test]
fn unstake_more_than_staked_fails() {
    let mut h = hub();
    h.stake_blend(6, 100, 0).unwrap();
    assert_eq!(h.unstake_blend(6, 101, 10), Err(HubError::InsufficientBalance));
}

#[test]
fn get_position_is_idempotent() {
    let mut h = hub();
    h.add_asset(ADMIN, asset(30, 0, 10000, 0, E18)).unwrap();
    h.supply_to_blend(3, 30, 50, true, 0, &no_quotes(), 0).unwrap();
    let a = h.get_user_position(3, &no_quotes(), 7);
    let b = h.get_user_position(3, &no_quotes(), 7);
    assert_eq!(a.supplied_assets, b.supplied_assets);
    assert_eq!(a.borrowed_assets, b.borrowed_assets);
    assert_eq!(a.staked_blend, b.staked_blend);
    assert_eq!(a.rewards_earned, b.rewards_earned);
    assert_eq!(a.last_reward_update, b.last_reward_update);
    assert_eq!(a.health_factor, b.health_factor);
    assert_eq!(a.liquidation_threshold, b.liquidation_threshold);
}

#[test]
fn health_status_tiers() {
    let mut h = hub();
    h.add_asset(ADMIN, asset(30, 0, 10000, 0, E18)).unwrap();
    h.add_asset(ADMIN, asset(31, 0, 5000, 0, E18)).unwrap();
    let user = 4;
    assert_eq!(h.get_health_status(user, &no_quotes(), 0), HealthStatus::Healthy);
    h.supply_to_blend(user, 30, 110, true, 0, &no_quotes(), 0).unwrap();
    h.borrow_from_blend(user, 31, 100, 0, &no_quotes(), 0).unwrap();
    // 1.10 sits in the warning band.
    assert_eq!(h.get_health_status(user, &no_quotes(), 0), HealthStatus::Warning);
    let quotes = vec![PriceQuote { asset: 31, price: 1_073_000_000_000_000_000, timestamp: 0 }];
    // 110/107.3 ~ 1.0251: critical.
    assert_eq!(h.get_health_status(user, &quotes, 0), HealthStatus::Critical);
    let quotes = vec![PriceQuote { asset: 31, price: 1_200_000_000_000_000_000, timestamp: 0 }];
    assert_eq!(h.get_health_status(user, &quotes, 0), HealthStatus::Liquidatable);
}

#[test]
fn price_resolution_fallback_and_staleness() {
    let mut h = hub();
    // No quote: the configured fallback price.
    assert_eq!(h.get_asset_price(0, &no_quotes(), 0), Ok(120_000_000_000_000_000));
    // A fresh quote wins.
    let quotes = vec![PriceQuote { asset: 0, price: 999_000_000_000_000_000, timestamp: 95 }];
    h.max_price_age = 10;
    assert_eq!(h.get_asset_price(0, &quotes, 100), Ok(999_000_000_000_000_000));
    // Too old: back to the fallback.
    let stale = vec![PriceQuote { asset: 0, price: 999_000_000_000_000_000, timestamp: 0 }];
    assert_eq!(h.get_asset_price(0, &stale, 100), Ok(120_000_000_000_000_000));
    // A zero reported price means the oracle call failed.
    let zero = vec![PriceQuote { asset: 0, price: 0, timestamp: 100 }];
    assert_eq!(h.get_asset_price(0, &zero, 100), Ok(120_000_000_000_000_000));
    assert_eq!(h.get_asset_price(77, &no_quotes(), 0), Err(HubError::InvalidAsset));
}

#[test]
fn strict_policy_reports_unpriceable_assets() {
    let mut h = hub();
    h.price_policy = PricePolicy::Strict;
    assert_eq!(h.get_asset_price(0, &no_quotes(), 0), Err(HubError::PriceOracleError));
    let quotes = vec![PriceQuote { asset: 0, price: 42, timestamp: 0 }];
    assert_eq!(h.get_asset_price(0, &quotes, 0), Ok(42));
}

#[test]
fn uninitialized_hub_rejects_operations() {
    let mut h = hub();
    h.initialized = false;
    assert_eq!(
        h.supply_to_blend(1, 0, 10, true, 0, &no_quotes(), 0),
        Err(HubError::NotInitialized)
    );
    assert_eq!(
        h.borrow_from_blend(1, 0, 10, 0, &no_quotes(), 0),
        Err(HubError::NotInitialized)
    );
    assert_eq!(h.stake_blend(1, 10, 0), Err(HubError::NotInitialized));
    assert_eq!(h.get_asset_price(0, &no_quotes(), 0), Err(HubError::NotInitialized));
}

#[test]
fn entry_point_validation() {
    let mut h = hub();
    assert_eq!(
        h.supply_to_blend(1, 0, 0, true, 0, &no_quotes(), 0),
        Err(HubError::InvalidAmount)
    );
    assert_eq!(
        h.supply_to_blend(1, 99, 10, true, 0, &no_quotes(), 0),
        Err(HubError::InvalidAsset)
    );
    assert_eq!(
        h.supply_to_blend(1, 0, 10, true, 4, &no_quotes(), 0),
        Err(HubError::PoolFrozen)
    );
    // Borrowing is already disabled at status 2.
    assert_eq!(
        h.borrow_from_blend(1, 0, 10, 2, &no_quotes(), 0),
        Err(HubError::PoolFrozen)
    );
}

#[test]
fn admin_asset_management() {
    let mut h = hub();
    assert_eq!(
        h.add_asset(2, asset(50, 0, 10000, 0, E18)),
        Err(HubError::Unauthorized)
    );
    // Out-of-range parameters are rejected.
    assert_eq!(
        h.add_asset(ADMIN, asset(50, 19, 10000, 0, E18)),
        Err(HubError::InvalidAmount)
    );
    assert_eq!(
        h.add_asset(ADMIN, asset(50, 0, 10001, 0, E18)),
        Err(HubError::InvalidAmount)
    );
    assert_eq!(
        h.add_asset(ADMIN, asset(50, 0, 10000, 0, 0)),
        Err(HubError::InvalidAmount)
    );
    h.add_asset(ADMIN, asset(50, 0, 10000, 0, E18)).unwrap();
    assert!(h.is_asset_supported(50));
    h.remove_asset(ADMIN, 50).unwrap();
    assert!(!h.is_asset_supported(50));
    assert_eq!(
        h.supply_to_blend(1, 50, 10, true, 0, &no_quotes(), 0),
        Err(HubError::InvalidAsset)
    );
    assert_eq!(h.remove_asset(ADMIN, 51), Err(HubError::InvalidAsset));
}

#[test]
fn emergency_withdraw_is_admin_gated() {
    let h = hub();
    assert_eq!(
        h.emergency_withdraw(2, 5, 0, 10),
        Err(HubError::Unauthorized)
    );
    let req = h.emergency_withdraw(ADMIN, 5, 0, 10).unwrap();
    assert_eq!(req.request_type, 3);
    assert_eq!(req.address, 0);
    assert_eq!(req.amount, 10i128);
}

#[test]
fn reward_rate_update_advances_checkpoint_first() {
    let mut h = hub();
    h.stake_blend(6, 100, 0).unwrap();
    // The day elapsed accrues at the old rate before the rate changes.
    h.update_reward_rate(ADMIN, 5000, 86_400).unwrap();
    assert_eq!(h.staking_pool.reward_per_token_stored, 864_000);
    assert_eq!(h.staking_pool.reward_rate, 5000);
    assert_eq!(h.update_reward_rate(2, 1, 0), Err(HubError::Unauthorized));
}

#[test]
fn strict_policy_excludes_unpriced_collateral_from_borrowing() {
    // Under the strict policy an unpriceable supplied asset contributes no
    // collateral value — it is excluded, not valued off a fallback — so a
    // borrow of a priced asset against it is rejected.
    let mut h = hub();
    h.add_asset(ADMIN, asset(30, 0, 10000, 0, E18)).unwrap();
    h.add_asset(ADMIN, asset(31, 0, 5000, 0, E18)).unwrap();
    h.price_policy = PricePolicy::Strict;
    let user = 7;
    h.supply_to_blend(user, 30, 1000, true, 0, &no_quotes(), 0).unwrap();
    let debt_only = vec![PriceQuote { asset: 31, price: E18, timestamp: 0 }];
    assert_eq!(
        h.borrow_from_blend(user, 31, 1, 0, &debt_only, 0),
        Err(HubError::UnhealthyPosition)
    );
    // With quotes for both assets the same borrow passes.
    let quotes = vec![
        PriceQuote { asset: 30, price: E18, timestamp: 0 },
        PriceQuote { asset: 31, price: E18, timestamp: 0 },
    ];
    assert!(h.borrow_from_blend(user, 31, 1, 0, &quotes, 0).is_ok());
}

#[test]
fn disabled_protection_never_fires_on_borrow() {
    let mut h = hub();
    h.add_asset(ADMIN, asset(30, 0, 10000, 500, E18)).unwrap();
    h.add_asset(ADMIN, asset(31, 0, 5000, 0, E18)).unwrap();
    h.protection.enabled = false;
    let user = 8;
    // Opting in raises the personal threshold to 1.05, so a borrow landing
    // at 1.04 is protection territory — but the facility is off.
    h.set_liquidation_protection(user, true, 0).unwrap();
    h.supply_to_blend(user, 30, 728, true, 0, &no_quotes(), 0).unwrap();
    let (_, rep) = h.borrow_from_blend(user, 31, 700, 0, &no_quotes(), 0).unwrap();
    assert!(rep.is_none());
    assert_eq!(h.get_user_position(user, &no_quotes(), 0).borrowed_assets, vec![(31, 700)]);
}

#[test]
fn enabled_protection_fires_on_borrow_below_threshold() {
    let mut h = hub();
    h.add_asset(ADMIN, asset(30, 0, 10000, 500, E18)).unwrap();
    h.add_asset(ADMIN, asset(31, 0, 5000, 0, E18)).unwrap();
    let user = 8;
    h.set_liquidation_protection(user, true, 0).unwrap();
    h.supply_to_blend(user, 30, 728, true, 0, &no_quotes(), 0).unwrap();
    let (_, rep) = h.borrow_from_blend(user, 31, 700, 0, &no_quotes(), 0).unwrap();
    let rep = rep.unwrap();
    assert_eq!(rep.request_type, 5);
    assert_eq!(rep.address, 31);
    assert_eq!(rep.amount, 353i128);
    assert_eq!(h.get_user_position(user, &no_quotes(), 0).borrowed_assets, vec![(31, 347)]);
}

#[test]
fn protection_is_all_or_nothing() {
    // When the fee-inflated collateral requirement exceeds the available
    // balance, protection does not partially execute: nothing is repaid
    // and the position is untouched.
    let mut h = hub();
    h.add_asset(ADMIN, asset(30, 0, 10000, 500, E18)).unwrap();
    h.add_asset(ADMIN, asset(31, 0, 5000, 0, E18)).unwrap();
    let user = 8;
    h.supply_to_blend(user, 30, 728, true, 0, &no_quotes(), 0).unwrap();
    h.borrow_from_blend(user, 31, 700, 0, &no_quotes(), 0).unwrap();
    // Collateral quoted at $0.40: repaying 350 needs 875 + fee, above 728.
    let quotes = vec![PriceQuote { asset: 30, price: 400_000_000_000_000_000, timestamp: 0 }];
    let (repaid, req) = h.trigger_liquidation_protection(user, &quotes, 0).unwrap();
    assert_eq!(repaid, 0);
    assert!(req.is_none());
    let pos = h.get_user_position(user, &quotes, 0);
    assert_eq!(pos.borrowed_assets, vec![(31, 700)]);
    assert_eq!(pos.supplied_assets, vec![(30, 728)]);
}

#[test]
fn swap_without_configured_rate_uses_oracle_prices() {
    // No fixed rate for the pair: 1 token at $2 (7 decimals), less the
    // 0.5% fee, buys 1.99 of the $1 output token (6 decimals).
    let mut h = hub();
    h.add_asset(ADMIN, asset(40, 7, 5000, 0, 2 * E18)).unwrap();
    h.add_asset(ADMIN, asset(41, 6, 5000, 0, E18)).unwrap();
    let (out, _) = h
        .swap_tokens(5, 40, 41, 10_000_000, 1, u64::MAX, &no_quotes(), 0)
        .unwrap();
    assert_eq!(out, 1_990_000);
}

#[test]
fn protection_threshold_follows_opt_in() {
    let mut h = hub();
    h.set_liquidation_protection(3, true, 0).unwrap();
    assert_eq!(
        h.get_user_position(3, &no_quotes(), 0).liquidation_threshold,
        1_050_000_000_000_000_000
    );
    h.set_liquidation_protection(3, false, 0).unwrap();
    assert_eq!(
        h.get_user_position(3, &no_quotes(), 0).liquidation_threshold,
        1_000_000_000_000_000_000
    );
}
