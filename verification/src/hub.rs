//! The engine: per-account positions, the asset registry, the exchange
//! rate table, the staking pool and the protocol fee pool, with every
//! state-changing operation gated by the health engine.
//!
//! The hub holds no tokens and performs no I/O: the host hands every entry
//! point the lending pool's status, the oracle quotes it gathered and the
//! current time, and performs the returned `BlendRequest`s and transfers.
//! Each entry point either fails with a specific error and leaves the
//! state untouched, or commits its full effect.

use vstd::prelude::*;
use crate::config::{
    AssetConfig, BlendRequest, ExchangeRate, HealthStatus, LiquidationProtection, PriceQuote,
    PricePolicy, registry_wf, AUTO_REPAY_THRESHOLD, BPS_DENOM, DEFAULT_MAX_REPAY_BPS,
    DEFAULT_PROTECTION_FEE_BPS, HEALTH_FACTOR_SCALE, LIQUIDATION_THRESHOLD, MIN_HEALTH_FACTOR,
    PRICE_SCALE, PROTOCOL_FEE,
};
use crate::entries::{
    find_key, has_key, key_index, keys_unique, lemma_key_index_props, lemma_store_props,
    store_value, value_of,
};
use crate::errors::HubError;
use crate::health::{
    cfg_of, classify_health, compute_health_factor, price_of, spec_health_factor,
    spec_health_status,
};
use crate::liquidation::{
    first_other, largest_debt, seize_amount, spec_first_other, spec_largest_debt,
    spec_seize_amount,
};
use crate::math::{mul_div_sat, sat128, sat_add};
use crate::position::{
    default_model, entries_lookup, model_of, spec_credit, spec_debit, PositionModel,
    UserPosition,
};
use crate::staking::{
    accrue_rewards, spec_pool_advance, spec_pool_update, update_blend_staking_pool,
    BlendStakingPool,
};
use crate::swap::{
    execute_swap_fixed_rate, rate_of, rates_unique, spec_swap_result, store_rate,
};
use crate::valuation::resolve_price;

verus! {

pub struct StellarDeFiHub {
    pub initialized: bool,
    /// The account allowed to run admin operations.
    pub admin: u32,
    /// How unusable oracle quotes are handled during valuation.
    pub price_policy: PricePolicy,
    /// Staleness window: a quote older than this is unusable.
    pub max_price_age: u64,
    /// The asset registry, keyed by asset id.
    pub assets: Vec<(u32, AssetConfig)>,
    /// Fixed exchange rates, one entry per configured ordered pair.
    pub rates: Vec<ExchangeRate>,
    /// The position ledger, keyed by account id.
    pub positions: Vec<(u32, UserPosition)>,
    /// The staking pool of the staking token.
    pub staking_pool: BlendStakingPool,
    /// Protocol fees collected from swaps, paying staking rewards.
    pub reward_pool: u128,
    /// Automatic liquidation-protection settings.
    pub protection: LiquidationProtection,
}

impl StellarDeFiHub {
    pub open spec fn wf(self) -> bool {
        &&& registry_wf(self.assets@)
        &&& rates_unique(self.rates@)
        &&& keys_unique(self.positions@)
        &&& forall|i: int| 0 <= i < self.positions@.len() ==> (#[trigger] self.positions@[i]).1.wf()
        &&& self.protection.wf()
    }

    /// The stored position of an account, or the default: the state
    /// `get_user_position` reports before recomputing the health factor.
    pub open spec fn base_model(self, user: u32, now: u64) -> PositionModel {
        match value_of(self.positions@, user) {
            Some(p) => model_of(p),
            None => default_model(now),
        }
    }

    /// The health factor of a position model under this hub's registry and
    /// policy, optionally projecting an extra borrow.
    pub open spec fn health_of(
        self,
        m: PositionModel,
        qs: Seq<PriceQuote>,
        now: u64,
        extra: Option<(u32, u128)>,
    ) -> int {
        spec_health_factor(
            self.assets@,
            self.price_policy,
            self.max_price_age,
            qs,
            now,
            m.supplied,
            m.borrowed,
            extra,
        )
    }

    /// An asset is supported when it is configured and active.
    pub open spec fn spec_asset_supported(self, asset: u32) -> bool {
        match cfg_of(self.assets@, asset) {
            Some(c) => c.is_active,
            None => false,
        }
    }

    pub fn is_asset_supported(&self, asset: u32) -> (r: bool)
        ensures
            r == self.spec_asset_supported(asset),
    {
        match find_key(&self.assets, asset) {
            Some(j) => self.assets[j].1.is_active,
            None => false,
        }
    }

    /// The stored position of an account as a fresh value, or the default.
    fn load_position(&self, user: u32, now: u64) -> (r: UserPosition)
        requires
            self.wf(),
        ensures
            model_of(r) == self.base_model(user, now),
            r.wf(),
    {
        proof {
            lemma_key_index_props(self.positions@, user);
        }
        match find_key(&self.positions, user) {
            Some(j) => {
                let r = self.positions[j].1.snapshot();
                proof {
                    assert(value_of(self.positions@, user) == Some(
                        self.positions@[j as int].1,
                    ));
                }
                r
            },
            None => {
                let r = UserPosition::new_default(now);
                proof {
                    assert(r.supplied_assets@ =~= Seq::<(u32, u128)>::empty());
                    assert(r.borrowed_assets@ =~= Seq::<(u32, u128)>::empty());
                }
                r
            },
        }
    }

    /// Persist a position under an account id.
    fn save_position(&mut self, user: u32, pos: UserPosition)
        requires
            old(self).wf(),
            pos.wf(),
        ensures
            final(self).wf(),
            value_of(final(self).positions@, user) == Some(pos),
            forall|u: u32|
                u != user ==> #[trigger] value_of(final(self).positions@, u) == value_of(
                    old(self).positions@,
                    u,
                ),
            final(self).initialized == old(self).initialized,
            final(self).admin == old(self).admin,
            final(self).price_policy == old(self).price_policy,
            final(self).max_price_age == old(self).max_price_age,
            final(self).assets == old(self).assets,
            final(self).rates == old(self).rates,
            final(self).staking_pool == old(self).staking_pool,
            final(self).reward_pool == old(self).reward_pool,
            final(self).protection == old(self).protection,
    {
        proof {
            lemma_store_props(self.positions@, user, pos);
        }
        let ghost olds = self.positions@;
        store_value(&mut self.positions, user, pos);
        proof {
            let t = self.positions@;
            let n = olds.len() as int;
            lemma_key_index_props(olds, user);
            assert forall|i: int| 0 <= i < t.len() implies (#[trigger] t[i]).1.wf() by {
                if has_key(olds, user) {
                    let j = key_index(olds, user);
                    assert(t == olds.update(j, (user, pos)));
                    if i == j {
                        assert(t[i] == (user, pos));
                    } else {
                        assert(t[i] == olds[i]);
                        assert(olds[i].1.wf());
                    }
                } else {
                    assert(t == olds.push((user, pos)));
                    if i < n {
                        assert(t[i] == olds[i]);
                        assert(olds[i].1.wf());
                    } else {
                        assert(t[i] == (user, pos));
                    }
                }
            }
        }
    }

    /// The position an account would observe: the stored or default state
    /// with the health factor recomputed from current prices. Reading it
    /// twice with no intervening mutation yields identical values.
    pub open spec fn spec_get_user_position(
        self,
        user: u32,
        qs: Seq<PriceQuote>,
        now: u64,
    ) -> PositionModel {
        let base = self.base_model(user, now);
        PositionModel { health_factor: self.health_of(base, qs, now, None) as u128, ..base }
    }

    /// The account's position with its health factor freshly computed;
    /// nothing is persisted.
    pub fn get_user_position(&self, user: u32, quotes: &Vec<PriceQuote>, now: u64) -> (r:
        UserPosition)
        requires
            self.wf(),
        ensures
            model_of(r) == self.spec_get_user_position(user, quotes@, now),
            r.wf(),
    {
        let mut pos = self.load_position(user, now);
        let hf = compute_health_factor(
            &self.assets,
            self.price_policy,
            self.max_price_age,
            quotes,
            now,
            &pos,
            None,
        );
        pos.health_factor = hf;
        pos
    }

    /// Reading a position is a function of the state, the quotes and the
    /// clock alone: with no intervening mutation, two reads agree.
    pub proof fn lemma_get_position_idempotent(
        h1: StellarDeFiHub,
        h2: StellarDeFiHub,
        user: u32,
        qs: Seq<PriceQuote>,
        now: u64,
    )
        requires
            h1 == h2,
        ensures
            h1.spec_get_user_position(user, qs, now) == h2.spec_get_user_position(user, qs, now),
    {
    }

    /// An account with no recorded debt always observes the sentinel
    /// health factor: the ratio is never computed against a zero debt.
    pub proof fn lemma_zero_debt_position_sentinel(
        self,
        user: u32,
        qs: Seq<PriceQuote>,
        now: u64,
    )
        requires
            self.stored_borrowed(user).len() == 0,
        ensures
            self.spec_get_user_position(user, qs, now).health_factor
                == crate::config::HEALTH_SENTINEL,
    {
    }

    /// The informational health tier of an account's position.
    pub fn get_health_status(&self, user: u32, quotes: &Vec<PriceQuote>, now: u64) -> (r:
        HealthStatus)
        requires
            self.wf(),
        ensures
            r == spec_health_status(
                self.spec_get_user_position(user, quotes@, now).health_factor,
            ),
    {
        let pos = self.get_user_position(user, quotes, now);
        classify_health(pos.health_factor)
    }

    /// The price valuation would use for an asset right now.
    pub fn get_asset_price(&self, asset: u32, quotes: &Vec<PriceQuote>, now: u64) -> (r: Result<
        u128,
        HubError,
    >)
        requires
            self.wf(),
        ensures
            (if !self.initialized {
                r == Err::<u128, HubError>(HubError::NotInitialized)
            } else {
                match cfg_of(self.assets@, asset) {
                    None => r == Err::<u128, HubError>(HubError::InvalidAsset),
                    Some(_) => match price_of(
                        self.assets@,
                        self.price_policy,
                        self.max_price_age,
                        quotes@,
                        now,
                        asset,
                    ) {
                        Some(p) => r == Ok::<u128, HubError>(p),
                        None => r == Err::<u128, HubError>(HubError::PriceOracleError),
                    },
                }
            }),
    {
        if !self.initialized {
            return Err(HubError::NotInitialized);
        }
        match find_key(&self.assets, asset) {
            None => Err(HubError::InvalidAsset),
            Some(j) => {
                match resolve_price(
                    &self.assets[j].1,
                    self.price_policy,
                    quotes,
                    now,
                    self.max_price_age,
                ) {
                    Some(p) => Ok(p),
                    None => Err(HubError::PriceOracleError),
                }
            },
        }
    }
    /// One attempt of automatic liquidation protection on a position
    /// model, all-or-nothing: pick the largest debt, cap the repay at the
    /// configured fraction, pick the first other nonzero collateral,
    /// convert the repay value into collateral units, inflate by the
    /// protection fee, and — only if that much collateral is available and
    /// the swap reaches the repay amount — spend the collateral, settle
    /// the debt and recompute the health factor. Anything short of that
    /// leaves the position untouched and reports nothing repaid.
    pub open spec fn spec_protection_step(
        self,
        m: PositionModel,
        qs: Seq<PriceQuote>,
        now: u64,
    ) -> (PositionModel, Option<(u32, u128)>) {
        match spec_largest_debt(m.borrowed) {
            None => (m, None),
            Some(ld) => {
                let debt_asset = ld.0;
                let max_repay = sat128(
                    ld.1 * self.protection.max_repay_percentage / BPS_DENOM as int,
                ) as u128;
                match spec_first_other(m.supplied, debt_asset) {
                    None => (m, None),
                    Some(fc) => {
                        let coll_asset = fc.0;
                        match (
                            cfg_of(self.assets@, debt_asset),
                            cfg_of(self.assets@, coll_asset),
                        ) {
                            (Some(dc), Some(cc)) => match (
                                price_of(
                                    self.assets@,
                                    self.price_policy,
                                    self.max_price_age,
                                    qs,
                                    now,
                                    debt_asset,
                                ),
                                price_of(
                                    self.assets@,
                                    self.price_policy,
                                    self.max_price_age,
                                    qs,
                                    now,
                                    coll_asset,
                                ),
                            ) {
                                (Some(dp), Some(cp)) => {
                                    let dv = crate::valuation::spec_usd_value(
                                        max_repay,
                                        dp,
                                        dc.decimals,
                                    );
                                    let coll_needed = sat128(
                                        dv * crate::math::pow10(cc.decimals as nat)
                                            / cp as int,
                                    ) as u128;
                                    let with_fee = sat128(
                                        coll_needed + sat128(
                                            coll_needed * self.protection.protection_fee
                                                / BPS_DENOM as int,
                                        ),
                                    ) as u128;
                                    if with_fee > fc.1 {
                                        (m, None)
                                    } else {
                                        match spec_swap_result(
                                            self.rates@,
                                            self.assets@,
                                            self.price_policy,
                                            self.max_price_age,
                                            qs,
                                            now,
                                            coll_asset,
                                            debt_asset,
                                            with_fee,
                                            max_repay,
                                        ) {
                                            Ok(out) => if out > i128::MAX as u128 {
                                                (m, None)
                                            } else {
                                                let m2 = PositionModel {
                                                    supplied: spec_debit(
                                                        m.supplied,
                                                        coll_asset,
                                                        with_fee,
                                                    ),
                                                    borrowed: spec_debit(
                                                        m.borrowed,
                                                        debt_asset,
                                                        out,
                                                    ),
                                                    ..m
                                                };
                                                let m3 = PositionModel {
                                                    health_factor: self.health_of(
                                                        m2,
                                                        qs,
                                                        now,
                                                        None,
                                                    ) as u128,
                                                    ..m2
                                                };
                                                (m3, Some((debt_asset, out)))
                                            },
                                            Err(_) => (m, None),
                                        }
                                    }
                                },
                                _ => (m, None),
                            },
                            _ => (m, None),
                        }
                    },
                }
            },
        }
    }

    /// Run one protection attempt on a loaded position.
    fn apply_protection(&self, pos: &mut UserPosition, quotes: &Vec<PriceQuote>, now: u64) -> (r:
        Option<(u32, u128)>)
        requires
            self.wf(),
            old(pos).wf(),
        ensures
            model_of(*final(pos)) == self.spec_protection_step(
                model_of(*old(pos)),
                quotes@,
                now,
            ).0,
            r == self.spec_protection_step(model_of(*old(pos)), quotes@, now).1,
            final(pos).wf(),
    {
        let ld = largest_debt(&pos.borrowed_assets);
        if ld.is_none() {
            return None;
        }
        let (debt_asset, debt_amt) = ld.unwrap();
        let max_repay = mul_div_sat(
            debt_amt,
            self.protection.max_repay_percentage as u128,
            10000,
        );
        let fc = first_other(&pos.supplied_assets, debt_asset);
        if fc.is_none() {
            return None;
        }
        let (coll_asset, coll_amt) = fc.unwrap();
        let jd = find_key(&self.assets, debt_asset);
        let jc = find_key(&self.assets, coll_asset);
        if jd.is_none() || jc.is_none() {
            return None;
        }
        let jd = jd.unwrap();
        let jc = jc.unwrap();
        let ddec = self.assets[jd].1.decimals;
        let cdec = self.assets[jc].1.decimals;
        let dp = resolve_price(
            &self.assets[jd].1,
            self.price_policy,
            quotes,
            now,
            self.max_price_age,
        );
        let cp = resolve_price(
            &self.assets[jc].1,
            self.price_policy,
            quotes,
            now,
            self.max_price_age,
        );
        if dp.is_none() || cp.is_none() {
            return None;
        }
        let dp = dp.unwrap();
        let cp = cp.unwrap();
        proof {
            crate::swap::lemma_price_of_pos(
                self.assets@,
                self.price_policy,
                self.max_price_age,
                quotes@,
                now,
                coll_asset,
            );
        }
        let dv = crate::valuation::usd_value(max_repay, dp, ddec);
        let scale_c = crate::math::pow10_exec(cdec);
        let coll_needed = mul_div_sat(dv, scale_c, cp);
        let fee_v = mul_div_sat(coll_needed, self.protection.protection_fee as u128, 10000);
        let with_fee = sat_add(coll_needed, fee_v);
        if with_fee > coll_amt {
            return None;
        }
        match execute_swap_fixed_rate(
            &self.rates,
            &self.assets,
            self.price_policy,
            self.max_price_age,
            quotes,
            now,
            coll_asset,
            debt_asset,
            with_fee,
            max_repay,
        ) {
            Err(_) => None,
            Ok(out) => {
                if out > (i128::MAX as u128) {
                    return None;
                }
                pos.debit_supplied(coll_asset, with_fee);
                pos.debit_borrowed(debt_asset, out);
                let hf = compute_health_factor(
                    &self.assets,
                    self.price_policy,
                    self.max_price_age,
                    quotes,
                    now,
                    pos,
                    None,
                );
                pos.health_factor = hf;
                Some((debt_asset, out))
            },
        }
    }

    /// The side check after an action that can worsen health: protection
    /// runs only when enabled and the cached health factor is at or below
    /// the user's protection threshold.
    pub open spec fn spec_auto_protect(
        self,
        m: PositionModel,
        qs: Seq<PriceQuote>,
        now: u64,
    ) -> (PositionModel, Option<(u32, u128)>) {
        if self.protection.enabled && m.health_factor <= m.liquidation_threshold {
            self.spec_protection_step(m, qs, now)
        } else {
            (m, None)
        }
    }

    fn auto_protect(&self, pos: &mut UserPosition, quotes: &Vec<PriceQuote>, now: u64) -> (r:
        Option<(u32, u128)>)
        requires
            self.wf(),
            old(pos).wf(),
        ensures
            model_of(*final(pos)) == self.spec_auto_protect(model_of(*old(pos)), quotes@, now).0,
            r == self.spec_auto_protect(model_of(*old(pos)), quotes@, now).1,
            final(pos).wf(),
    {
        if self.protection.enabled && pos.health_factor <= pos.liquidation_threshold {
            self.apply_protection(pos, quotes, now)
        } else {
            None
        }
    }

    /// The supplied balances stored for an account (empty before the first
    /// mutation).
    pub open spec fn stored_supplied(self, user: u32) -> Seq<(u32, u128)> {
        match value_of(self.positions@, user) {
            Some(p) => p.supplied_assets@,
            None => Seq::empty(),
        }
    }

    /// The borrowed balances stored for an account.
    pub open spec fn stored_borrowed(self, user: u32) -> Seq<(u32, u128)> {
        match value_of(self.positions@, user) {
            Some(p) => p.borrowed_assets@,
            None => Seq::empty(),
        }
    }

    /// The hub fields no position-ledger operation touches.
    pub open spec fn same_except_positions(self, o: StellarDeFiHub) -> bool {
        &&& self.initialized == o.initialized
        &&& self.admin == o.admin
        &&& self.price_policy == o.price_policy
        &&& self.max_price_age == o.max_price_age
        &&& self.assets == o.assets
        &&& self.rates == o.rates
        &&& self.staking_pool == o.staking_pool
        &&& self.reward_pool == o.reward_pool
        &&& self.protection == o.protection
    }

    /// The first check a supply fails, if any.
    pub open spec fn spec_supply_err(
        self,
        user: u32,
        asset: u32,
        amount: u128,
        pool_status: u32,
    ) -> Option<HubError> {
        if !self.initialized {
            Some(HubError::NotInitialized)
        } else if amount == 0 || amount > i128::MAX as u128 {
            Some(HubError::InvalidAmount)
        } else if !self.spec_asset_supported(asset) {
            Some(HubError::InvalidAsset)
        } else if pool_status > 3 {
            Some(HubError::PoolFrozen)
        } else if entries_lookup(self.stored_supplied(user), asset) + amount > u128::MAX {
            Some(HubError::InvalidAmount)
        } else {
            None
        }
    }

    /// The position after a successful supply: the asset credited and the
    /// health factor recomputed.
    pub open spec fn spec_supply_model(
        self,
        user: u32,
        asset: u32,
        amount: u128,
        qs: Seq<PriceQuote>,
        now: u64,
    ) -> PositionModel {
        let base = self.base_model(user, now);
        let m1 = PositionModel { supplied: spec_credit(base.supplied, asset, amount), ..base };
        PositionModel { health_factor: self.health_of(m1, qs, now, None) as u128, ..m1 }
    }

    /// Record a supply of `amount` of `asset` for `user` and hand back the
    /// request the host must submit to the lending pool. The supply is
    /// rejected while the pool reports a frozen status.
    pub fn supply_to_blend(
        &mut self,
        user: u32,
        asset: u32,
        amount: u128,
        as_collateral: bool,
        pool_status: u32,
        quotes: &Vec<PriceQuote>,
        now: u64,
    ) -> (r: Result<BlendRequest, HubError>)
        requires
            old(self).wf(),
        ensures
            final(self).wf(),
            (match old(self).spec_supply_err(user, asset, amount, pool_status) {
                Some(e) => r == Err::<BlendRequest, HubError>(e) && *final(self) == *old(self),
                None => {
                    &&& r == Ok::<BlendRequest, HubError>(
                        BlendRequest {
                            request_type: if as_collateral {
                                2u32
                            } else {
                                0u32
                            },
                            address: asset,
                            amount: amount as i128,
                        },
                    )
                    &&& value_of(final(self).positions@, user) matches Some(p) && model_of(p)
                        == old(self).spec_supply_model(user, asset, amount, quotes@, now)
                    &&& forall|u: u32|
                        u != user ==> #[trigger] value_of(final(self).positions@, u) == value_of(
                            old(self).positions@,
                            u,
                        )
                    &&& final(self).same_except_positions(*old(self))
                },
            }),
    {
        if !self.initialized {
            return Err(HubError::NotInitialized);
        }
        if amount == 0 || amount > (i128::MAX as u128) {
            return Err(HubError::InvalidAmount);
        }
        if !self.is_asset_supported(asset) {
            return Err(HubError::InvalidAsset);
        }
        if pool_status > 3 {
            return Err(HubError::PoolFrozen);
        }
        let mut pos = self.load_position(user, now);
        let ok = pos.credit_supplied(asset, amount);
        if !ok {
            return Err(HubError::InvalidAmount);
        }
        let hf = compute_health_factor(
            &self.assets,
            self.price_policy,
            self.max_price_age,
            quotes,
            now,
            &pos,
            None,
        );
        pos.health_factor = hf;
        self.save_position(user, pos);
        Ok(
            BlendRequest {
                request_type: if as_collateral {
                    2
                } else {
                    0
                },
                address: asset,
                amount: amount as i128,
            },
        )
    }

    /// The first check a borrow fails, if any. A borrow whose projected
    /// health factor falls strictly below the minimum is rejected; exactly
    /// at the minimum it is accepted (the boundary is inclusive).
    pub open spec fn spec_borrow_err(
        self,
        user: u32,
        asset: u32,
        amount: u128,
        pool_status: u32,
        qs: Seq<PriceQuote>,
        now: u64,
    ) -> Option<HubError> {
        if !self.initialized {
            Some(HubError::NotInitialized)
        } else if amount == 0 || amount > i128::MAX as u128 {
            Some(HubError::InvalidAmount)
        } else if !self.spec_asset_supported(asset) {
            Some(HubError::InvalidAsset)
        } else if pool_status > 1 {
            Some(HubError::PoolFrozen)
        } else if entries_lookup(self.stored_borrowed(user), asset) + amount > u128::MAX {
            Some(HubError::InvalidAmount)
        } else if self.health_of(self.base_model(user, now), qs, now, Some((asset, amount)))
            < MIN_HEALTH_FACTOR {
            Some(HubError::UnhealthyPosition)
        } else {
            None
        }
    }

    /// The position after a successful borrow, and what automatic
    /// protection repaid, if it fired.
    pub open spec fn spec_borrow_outcome(
        self,
        user: u32,
        asset: u32,
        amount: u128,
        qs: Seq<PriceQuote>,
        now: u64,
    ) -> (PositionModel, Option<(u32, u128)>) {
        let base = self.base_model(user, now);
        let m1 = PositionModel { borrowed: spec_credit(base.borrowed, asset, amount), ..base };
        let m2 = PositionModel { health_factor: self.health_of(m1, qs, now, None) as u128, ..m1 };
        self.spec_auto_protect(m2, qs, now)
    }

    /// Record a borrow of `amount` of `asset` for `user`, gated on the
    /// projected health factor including the new debt. Returns the borrow
    /// request for the host, and the repay request if automatic protection
    /// fired afterwards.
    pub fn borrow_from_blend(
        &mut self,
        user: u32,
        asset: u32,
        amount: u128,
        pool_status: u32,
        quotes: &Vec<PriceQuote>,
        now: u64,
    ) -> (r: Result<(BlendRequest, Option<BlendRequest>), HubError>)
        requires
            old(self).wf(),
        ensures
            final(self).wf(),
            (match old(self).spec_borrow_err(user, asset, amount, pool_status, quotes@, now) {
                Some(e) => r == Err::<(BlendRequest, Option<BlendRequest>), HubError>(e)
                    && *final(self) == *old(self),
                None => {
                    let (m_final, rep) = old(self).spec_borrow_outcome(
                        user,
                        asset,
                        amount,
                        quotes@,
                        now,
                    );
                    &&& r == Ok::<(BlendRequest, Option<BlendRequest>), HubError>(
                        (
                            BlendRequest {
                                request_type: 4u32,
                                address: asset,
                                amount: amount as i128,
                            },
                            match rep {
                                None => None,
                                Some((da, out)) => Some(
                                    BlendRequest {
                                        request_type: 5u32,
                                        address: da,
                                        amount: out as i128,
                                    },
                                ),
                            },
                        ),
                    )
                    &&& value_of(final(self).positions@, user) matches Some(p) && model_of(p)
                        == m_final
                    &&& forall|u: u32|
                        u != user ==> #[trigger] value_of(final(self).positions@, u) == value_of(
                            old(self).positions@,
                            u,
                        )
                    &&& final(self).same_except_positions(*old(self))
                },
            }),
    {
        if !self.initialized {
            return Err(HubError::NotInitialized);
        }
        if amount == 0 || amount > (i128::MAX as u128) {
            return Err(HubError::InvalidAmount);
        }
        if !self.is_asset_supported(asset) {
            return Err(HubError::InvalidAsset);
        }
        if pool_status > 1 {
            return Err(HubError::PoolFrozen);
        }
        let mut pos = self.load_position(user, now);
        let cur = pos.borrowed_amount(asset);
        if cur > u128::MAX - amount {
            return Err(HubError::InvalidAmount);
        }
        let projected = compute_health_factor(
            &self.assets,
            self.price_policy,
            self.max_price_age,
            quotes,
            now,
            &pos,
            Some((asset, amount)),
        );
        if projected < MIN_HEALTH_FACTOR {
            return Err(HubError::UnhealthyPosition);
        }
        let ok = pos.credit_borrowed(asset, amount);
        proof {
            assert(ok);
        }
        let hf = compute_health_factor(
            &self.assets,
            self.price_policy,
            self.max_price_age,
            quotes,
            now,
            &pos,
            None,
        );
        pos.health_factor = hf;
        let rep = self.auto_protect(&mut pos, quotes, now);
        self.save_position(user, pos);
        Ok(
            (
                BlendRequest { request_type: 4, address: asset, amount: amount as i128 },
                match rep {
                    None => None,
                    Some((da, out)) => Some(
                        BlendRequest { request_type: 5, address: da, amount: out as i128 },
                    ),
                },
            ),
        )
    }

    /// The protocol fee taken off a swap input.
    pub open spec fn spec_swap_fee(amount_in: u128) -> int {
        amount_in * PROTOCOL_FEE / BPS_DENOM as int
    }

    /// The first check a swap fails, if any (an expired deadline and a
    /// short output both surface as a failed swap).
    pub open spec fn spec_swap_err(
        self,
        token_in: u32,
        token_out: u32,
        amount_in: u128,
        min_amount_out: u128,
        deadline: u64,
        qs: Seq<PriceQuote>,
        now: u64,
    ) -> Option<HubError> {
        if !self.initialized {
            Some(HubError::NotInitialized)
        } else if amount_in == 0 {
            Some(HubError::InvalidAmount)
        } else if now > deadline {
            Some(HubError::SwapFailed)
        } else if !self.spec_asset_supported(token_in) || !self.spec_asset_supported(token_out) {
            Some(HubError::InvalidAsset)
        } else {
            match spec_swap_result(
                self.rates@,
                self.assets@,
                self.price_policy,
                self.max_price_age,
                qs,
                now,
                token_in,
                token_out,
                (amount_in - Self::spec_swap_fee(amount_in)) as u128,
                min_amount_out,
            ) {
                Err(e) => Some(e),
                Ok(_) => None,
            }
        }
    }

    /// What a successful swap returns and leaves behind: the output
    /// amount, the user's position with its health factor refreshed and
    /// protection possibly applied, what protection repaid, and the fee
    /// pool grown by the protocol fee.
    pub open spec fn spec_swap_outcome(
        self,
        user: u32,
        token_in: u32,
        token_out: u32,
        amount_in: u128,
        min_amount_out: u128,
        qs: Seq<PriceQuote>,
        now: u64,
    ) -> (u128, PositionModel, Option<(u32, u128)>, u128) {
        let fee = Self::spec_swap_fee(amount_in);
        let out = (match spec_swap_result(
            self.rates@,
            self.assets@,
            self.price_policy,
            self.max_price_age,
            qs,
            now,
            token_in,
            token_out,
            (amount_in - fee) as u128,
            min_amount_out,
        ) {
            Ok(o) => o,
            Err(_) => 0,
        });
        let base = self.base_model(user, now);
        let m1 = PositionModel { health_factor: self.health_of(base, qs, now, None) as u128, ..base };
        let (m2, rep) = self.spec_auto_protect(m1, qs, now);
        (out, m2, rep, sat128(self.reward_pool + fee) as u128)
    }

    /// Swap `amount_in` of `token_in` for `token_out`, taking the protocol
    /// fee into the reward pool; the user's wallet balances move host-side,
    /// the ledger only refreshes the health factor and may run protection.
    pub fn swap_tokens(
        &mut self,
        user: u32,
        token_in: u32,
        token_out: u32,
        amount_in: u128,
        min_amount_out: u128,
        deadline: u64,
        quotes: &Vec<PriceQuote>,
        now: u64,
    ) -> (r: Result<(u128, Option<BlendRequest>), HubError>)
        requires
            old(self).wf(),
        ensures
            final(self).wf(),
            (match old(self).spec_swap_err(
                token_in,
                token_out,
                amount_in,
                min_amount_out,
                deadline,
                quotes@,
                now,
            ) {
                Some(e) => r == Err::<(u128, Option<BlendRequest>), HubError>(e) && *final(self)
                    == *old(self),
                None => {
                    let (out, m2, rep, pool) = old(self).spec_swap_outcome(
                        user,
                        token_in,
                        token_out,
                        amount_in,
                        min_amount_out,
                        quotes@,
                        now,
                    );
                    &&& r == Ok::<(u128, Option<BlendRequest>), HubError>(
                        (
                            out,
                            match rep {
                                None => None,
                                Some((da, rp)) => Some(
                                    BlendRequest {
                                        request_type: 5u32,
                                        address: da,
                                        amount: rp as i128,
                                    },
                                ),
                            },
                        ),
                    )
                    &&& value_of(final(self).positions@, user) matches Some(p) && model_of(p)
                        == m2
                    &&& forall|u: u32|
                        u != user ==> #[trigger] value_of(final(self).positions@, u) == value_of(
                            old(self).positions@,
                            u,
                        )
                    &&& final(self).reward_pool == pool
                    &&& final(self).initialized == old(self).initialized
                    &&& final(self).admin == old(self).admin
                    &&& final(self).price_policy == old(self).price_policy
                    &&& final(self).max_price_age == old(self).max_price_age
                    &&& final(self).assets == old(self).assets
                    &&& final(self).rates == old(self).rates
                    &&& final(self).staking_pool == old(self).staking_pool
                    &&& final(self).protection == old(self).protection
                },
            }),
    {
        if !self.initialized {
            return Err(HubError::NotInitialized);
        }
        if amount_in == 0 {
            return Err(HubError::InvalidAmount);
        }
        if now > deadline {
            return Err(HubError::SwapFailed);
        }
        if !self.is_asset_supported(token_in) || !self.is_asset_supported(token_out) {
            return Err(HubError::InvalidAsset);
        }
        let fee = mul_div_sat(amount_in, PROTOCOL_FEE, BPS_DENOM);
        proof {
            assert(amount_in * PROTOCOL_FEE <= amount_in * BPS_DENOM) by (nonlinear_arith)
                requires
                    amount_in >= 0,
            ;
            vstd::arithmetic::div_mod::lemma_div_is_ordered(
                amount_in * PROTOCOL_FEE,
                amount_in * BPS_DENOM,
                BPS_DENOM as int,
            );
            assert((BPS_DENOM * amount_in) / BPS_DENOM as int == amount_in) by {
                vstd::arithmetic::div_mod::lemma_div_multiples_vanish_fancy(
                    amount_in as int,
                    0,
                    BPS_DENOM as int,
                );
            }
            vstd::arithmetic::div_mod::lemma_div_pos_is_pos(
                amount_in * PROTOCOL_FEE,
                BPS_DENOM as int,
            );
        }
        let swap_amount = amount_in - fee;
        let out = (match execute_swap_fixed_rate(
            &self.rates,
            &self.assets,
            self.price_policy,
            self.max_price_age,
            quotes,
            now,
            token_in,
            token_out,
            swap_amount,
            min_amount_out,
        ) {
            Err(e) => {
                return Err(e);
            },
            Ok(o) => o,
        });
        let mut pos = self.load_position(user, now);
        let hf = compute_health_factor(
            &self.assets,
            self.price_policy,
            self.max_price_age,
            quotes,
            now,
            &pos,
            None,
        );
        pos.health_factor = hf;
        let rep = self.auto_protect(&mut pos, quotes, now);
        self.save_position(user, pos);
        self.reward_pool = self.reward_pool.saturating_add(fee);
        Ok(
            (
                out,
                match rep {
                    None => None,
                    Some((da, rp)) => Some(
                        BlendRequest { request_type: 5, address: da, amount: rp as i128 },
                    ),
                },
            ),
        )
    }

    /// The stored stake of an account.
    pub open spec fn stored_staked(self, user: u32) -> u128 {
        match value_of(self.positions@, user) {
            Some(p) => p.staked_blend,
            None => 0,
        }
    }

    pub open spec fn spec_stake_err(self, user: u32, amount: u128) -> Option<HubError> {
        if !self.initialized {
            Some(HubError::NotInitialized)
        } else if amount == 0 {
            Some(HubError::InvalidAmount)
        } else if self.stored_staked(user) + amount > u128::MAX {
            Some(HubError::InvalidAmount)
        } else {
            None
        }
    }

    /// The position after a successful stake: flat rewards settled first,
    /// then the stake raised.
    pub open spec fn spec_stake_model(self, user: u32, amount: u128, now: u64) -> PositionModel {
        let m1 = crate::staking::spec_accrue_model(self.base_model(user, now), now);
        PositionModel { staked_blend: (m1.staked_blend + amount) as u128, ..m1 }
    }

    /// Stake `amount` of the staking token for `user`: settle the flat
    /// accrual, raise the stake, and run the pool's checkpoint update.
    pub fn stake_blend(&mut self, user: u32, amount: u128, now: u64) -> (r: Result<
        (),
        HubError,
    >)
        requires
            old(self).wf(),
        ensures
            final(self).wf(),
            (match old(self).spec_stake_err(user, amount) {
                Some(e) => r == Err::<(), HubError>(e) && *final(self) == *old(self),
                None => {
                    &&& r == Ok::<(), HubError>(())
                    &&& value_of(final(self).positions@, user) matches Some(p) && model_of(p)
                        == old(self).spec_stake_model(user, amount, now)
                    &&& forall|u: u32|
                        u != user ==> #[trigger] value_of(final(self).positions@, u) == value_of(
                            old(self).positions@,
                            u,
                        )
                    &&& final(self).staking_pool == spec_pool_update(
                        old(self).staking_pool,
                        amount,
                        true,
                        now,
                    )
                    &&& final(self).staking_pool.reward_per_token_stored >= old(
                        self,
                    ).staking_pool.reward_per_token_stored
                    &&& final(self).initialized == old(self).initialized
                    &&& final(self).admin == old(self).admin
                    &&& final(self).price_policy == old(self).price_policy
                    &&& final(self).max_price_age == old(self).max_price_age
                    &&& final(self).assets == old(self).assets
                    &&& final(self).rates == old(self).rates
                    &&& final(self).reward_pool == old(self).reward_pool
                    &&& final(self).protection == old(self).protection
                },
            }),
    {
        if !self.initialized {
            return Err(HubError::NotInitialized);
        }
        if amount == 0 {
            return Err(HubError::InvalidAmount);
        }
        let mut pos = self.load_position(user, now);
        if pos.staked_blend > u128::MAX - amount {
            return Err(HubError::InvalidAmount);
        }
        let ghost pos0 = pos;
        accrue_rewards(&mut pos, now);
        proof {
            crate::staking::lemma_accrue_model(pos0, now);
        }
        pos.staked_blend = pos.staked_blend + amount;
        self.save_position(user, pos);
        update_blend_staking_pool(&mut self.staking_pool, amount, true, now);
        Ok(())
    }

    /// What claiming pays on unstake: everything earned, capped at the fee
    /// pool's balance; the shortfall stays accrued rather than being lost.
    pub open spec fn spec_unstake_payout(self, user: u32, now: u64) -> u128 {
        let m1 = crate::staking::spec_accrue_model(self.base_model(user, now), now);
        if m1.rewards_earned <= self.reward_pool {
            m1.rewards_earned
        } else {
            self.reward_pool
        }
    }

    pub open spec fn spec_unstake_err(self, user: u32, amount: u128) -> Option<HubError> {
        if !self.initialized {
            Some(HubError::NotInitialized)
        } else if self.stored_staked(user) < amount {
            Some(HubError::InsufficientBalance)
        } else {
            None
        }
    }

    /// The position after a successful unstake: rewards settled, the paid
    /// part claimed, the stake lowered.
    pub open spec fn spec_unstake_model(self, user: u32, amount: u128, now: u64) -> PositionModel {
        let m1 = crate::staking::spec_accrue_model(self.base_model(user, now), now);
        let payout = self.spec_unstake_payout(user, now);
        PositionModel {
            staked_blend: (m1.staked_blend - amount) as u128,
            rewards_earned: (m1.rewards_earned - payout) as u128,
            ..m1
        }
    }

    /// Unstake `amount` for `user` and claim accrued rewards, paying out
    /// at most what the fee pool holds; returns the amount paid.
    pub fn unstake_blend(&mut self, user: u32, amount: u128, now: u64) -> (r: Result<
        u128,
        HubError,
    >)
        requires
            old(self).wf(),
        ensures
            final(self).wf(),
            (match old(self).spec_unstake_err(user, amount) {
                Some(e) => r == Err::<u128, HubError>(e) && *final(self) == *old(self),
                None => {
                    let payout = old(self).spec_unstake_payout(user, now);
                    &&& r == Ok::<u128, HubError>(payout)
                    &&& value_of(final(self).positions@, user) matches Some(p) && model_of(p)
                        == old(self).spec_unstake_model(user, amount, now)
                    &&& forall|u: u32|
                        u != user ==> #[trigger] value_of(final(self).positions@, u) == value_of(
                            old(self).positions@,
                            u,
                        )
                    &&& final(self).reward_pool == old(self).reward_pool - payout
                    &&& final(self).staking_pool == (BlendStakingPool {
                        total_rewards_distributed: sat128(
                            spec_pool_update(
                                old(self).staking_pool,
                                amount,
                                false,
                                now,
                            ).total_rewards_distributed + payout,
                        ) as u128,
                        ..spec_pool_update(old(self).staking_pool, amount, false, now)
                    })
                    &&& final(self).staking_pool.reward_per_token_stored >= old(
                        self,
                    ).staking_pool.reward_per_token_stored
                    &&& final(self).initialized == old(self).initialized
                    &&& final(self).admin == old(self).admin
                    &&& final(self).price_policy == old(self).price_policy
                    &&& final(self).max_price_age == old(self).max_price_age
                    &&& final(self).assets == old(self).assets
                    &&& final(self).rates == old(self).rates
                    &&& final(self).protection == old(self).protection
                },
            }),
    {
        if !self.initialized {
            return Err(HubError::NotInitialized);
        }
        let mut pos = self.load_position(user, now);
        if pos.staked_blend < amount {
            return Err(HubError::InsufficientBalance);
        }
        let ghost pos0 = pos;
        accrue_rewards(&mut pos, now);
        proof {
            crate::staking::lemma_accrue_model(pos0, now);
        }
        let rewards = pos.rewards_earned;
        let payout = if rewards <= self.reward_pool {
            rewards
        } else {
            self.reward_pool
        };
        pos.staked_blend = pos.staked_blend - amount;
        pos.rewards_earned = rewards - payout;
        self.save_position(user, pos);
        self.reward_pool = self.reward_pool - payout;
        update_blend_staking_pool(&mut self.staking_pool, amount, false, now);
        self.staking_pool.total_rewards_distributed =
            self.staking_pool.total_rewards_distributed.saturating_add(payout);
        Ok(payout)
    }

    /// The first check a manual liquidation fails, if any. A position at
    /// or above the 1.0 threshold — even exactly at it — is not
    /// liquidatable; the covered debt must be recorded; the borrower must
    /// hold the named collateral, and enough of it for the computed seize.
    pub open spec fn spec_liquidate_err(
        self,
        borrower: u32,
        debt_asset: u32,
        collateral_asset: u32,
        debt_to_cover: u128,
        qs: Seq<PriceQuote>,
        now: u64,
    ) -> Option<HubError> {
        if !self.initialized {
            Some(HubError::NotInitialized)
        } else if self.health_of(self.base_model(borrower, now), qs, now, None)
            >= LIQUIDATION_THRESHOLD {
            Some(HubError::NotLiquidatable)
        } else if entries_lookup(self.stored_borrowed(borrower), debt_asset) < debt_to_cover {
            Some(HubError::InsufficientBalance)
        } else if entries_lookup(self.stored_supplied(borrower), collateral_asset) == 0 {
            Some(HubError::InsufficientCollateral)
        } else if debt_to_cover > i128::MAX as u128 {
            Some(HubError::InvalidAmount)
        } else {
            match (cfg_of(self.assets@, debt_asset), cfg_of(self.assets@, collateral_asset)) {
                (Some(dc), Some(cc)) => match (
                    price_of(
                        self.assets@,
                        self.price_policy,
                        self.max_price_age,
                        qs,
                        now,
                        debt_asset,
                    ),
                    price_of(
                        self.assets@,
                        self.price_policy,
                        self.max_price_age,
                        qs,
                        now,
                        collateral_asset,
                    ),
                ) {
                    (Some(dp), Some(cp)) => {
                        let seize = spec_seize_amount(
                            debt_to_cover,
                            dp,
                            dc.decimals,
                            cc.liquidation_bonus,
                            cp,
                            cc.decimals,
                        );
                        if seize > entries_lookup(
                            self.stored_supplied(borrower),
                            collateral_asset,
                        ) {
                            Some(HubError::InsufficientCollateral)
                        } else {
                            None
                        }
                    },
                    _ => Some(HubError::PriceOracleError),
                },
                _ => Some(HubError::InvalidAsset),
            }
        }
    }

    /// The borrower's position after a successful liquidation, and the
    /// collateral seized.
    pub open spec fn spec_liquidate_outcome(
        self,
        borrower: u32,
        debt_asset: u32,
        collateral_asset: u32,
        debt_to_cover: u128,
        qs: Seq<PriceQuote>,
        now: u64,
    ) -> (PositionModel, u128) {
        let base = self.base_model(borrower, now);
        match (cfg_of(self.assets@, debt_asset), cfg_of(self.assets@, collateral_asset)) {
            (Some(dc), Some(cc)) => match (
                price_of(self.assets@, self.price_policy, self.max_price_age, qs, now, debt_asset),
                price_of(
                    self.assets@,
                    self.price_policy,
                    self.max_price_age,
                    qs,
                    now,
                    collateral_asset,
                ),
            ) {
                (Some(dp), Some(cp)) => {
                    let seize = spec_seize_amount(
                        debt_to_cover,
                        dp,
                        dc.decimals,
                        cc.liquidation_bonus,
                        cp,
                        cc.decimals,
                    ) as u128;
                    let m2 = PositionModel {
                        borrowed: spec_debit(base.borrowed, debt_asset, debt_to_cover),
                        supplied: spec_debit(base.supplied, collateral_asset, seize),
                        ..base
                    };
                    let m3 = PositionModel {
                        health_factor: self.health_of(m2, qs, now, None) as u128,
                        ..m2
                    };
                    (m3, seize)
                },
                _ => (base, 0),
            },
            _ => (base, 0),
        }
    }

    /// Liquidate an unhealthy position: settle `debt_to_cover` of the
    /// borrower's debt and seize bonus-weighted collateral for the
    /// liquidator. Returns the seized amount and the repay request the
    /// host must submit; the host moves the tokens.
    pub fn liquidate_position(
        &mut self,
        liquidator: u32,
        borrower: u32,
        debt_asset: u32,
        collateral_asset: u32,
        debt_to_cover: u128,
        quotes: &Vec<PriceQuote>,
        now: u64,
    ) -> (r: Result<(u128, BlendRequest), HubError>)
        requires
            old(self).wf(),
        ensures
            final(self).wf(),
            (match old(self).spec_liquidate_err(
                borrower,
                debt_asset,
                collateral_asset,
                debt_to_cover,
                quotes@,
                now,
            ) {
                Some(e) => r == Err::<(u128, BlendRequest), HubError>(e) && *final(self) == *old(
                    self,
                ),
                None => {
                    let (m_final, seize) = old(self).spec_liquidate_outcome(
                        borrower,
                        debt_asset,
                        collateral_asset,
                        debt_to_cover,
                        quotes@,
                        now,
                    );
                    &&& r == Ok::<(u128, BlendRequest), HubError>(
                        (
                            seize,
                            BlendRequest {
                                request_type: 5u32,
                                address: debt_asset,
                                amount: debt_to_cover as i128,
                            },
                        ),
                    )
                    &&& value_of(final(self).positions@, borrower) matches Some(p) && model_of(p)
                        == m_final
                    &&& forall|u: u32|
                        u != borrower ==> #[trigger] value_of(final(self).positions@, u)
                            == value_of(old(self).positions@, u)
                    &&& final(self).same_except_positions(*old(self))
                },
            }),
    {
        if !self.initialized {
            return Err(HubError::NotInitialized);
        }
        let mut pos = self.load_position(borrower, now);
        let hf = compute_health_factor(
            &self.assets,
            self.price_policy,
            self.max_price_age,
            quotes,
            now,
            &pos,
            None,
        );
        if hf >= LIQUIDATION_THRESHOLD {
            return Err(HubError::NotLiquidatable);
        }
        let debt_amount = pos.borrowed_amount(debt_asset);
        if debt_amount < debt_to_cover {
            return Err(HubError::InsufficientBalance);
        }
        let coll_amount = pos.supplied_amount(collateral_asset);
        if coll_amount == 0 {
            return Err(HubError::InsufficientCollateral);
        }
        if debt_to_cover > (i128::MAX as u128) {
            return Err(HubError::InvalidAmount);
        }
        let jd = find_key(&self.assets, debt_asset);
        let jc = find_key(&self.assets, collateral_asset);
        if jd.is_none() || jc.is_none() {
            return Err(HubError::InvalidAsset);
        }
        let jd = jd.unwrap();
        let jc = jc.unwrap();
        let ddec = self.assets[jd].1.decimals;
        let cdec = self.assets[jc].1.decimals;
        let cbonus = self.assets[jc].1.liquidation_bonus;
        let dp = resolve_price(
            &self.assets[jd].1,
            self.price_policy,
            quotes,
            now,
            self.max_price_age,
        );
        let cp = resolve_price(
            &self.assets[jc].1,
            self.price_policy,
            quotes,
            now,
            self.max_price_age,
        );
        if dp.is_none() || cp.is_none() {
            return Err(HubError::PriceOracleError);
        }
        let dp = dp.unwrap();
        let cp = cp.unwrap();
        proof {
            crate::swap::lemma_price_of_pos(
                self.assets@,
                self.price_policy,
                self.max_price_age,
                quotes@,
                now,
                collateral_asset,
            );
        }
        let seize = seize_amount(debt_to_cover, dp, ddec, cbonus, cp, cdec);
        if seize > coll_amount {
            return Err(HubError::InsufficientCollateral);
        }
        pos.debit_borrowed(debt_asset, debt_to_cover);
        pos.debit_supplied(collateral_asset, seize);
        let hf2 = compute_health_factor(
            &self.assets,
            self.price_policy,
            self.max_price_age,
            quotes,
            now,
            &pos,
            None,
        );
        pos.health_factor = hf2;
        self.save_position(borrower, pos);
        Ok(
            (
                seize,
                BlendRequest {
                    request_type: 5,
                    address: debt_asset,
                    amount: debt_to_cover as i128,
                },
            ),
        )
    }

    /// Manually trigger liquidation protection for an account whose fresh
    /// health factor is at or below the auto-repay threshold. Returns the
    /// amount repaid (zero when protection chose not to act) and the repay
    /// request for the host, if any.
    pub fn trigger_liquidation_protection(
        &mut self,
        user: u32,
        quotes: &Vec<PriceQuote>,
        now: u64,
    ) -> (r: Result<(u128, Option<BlendRequest>), HubError>)
        requires
            old(self).wf(),
        ensures
            final(self).wf(),
            (if !old(self).initialized {
                r == Err::<(u128, Option<BlendRequest>), HubError>(HubError::NotInitialized)
                    && *final(self) == *old(self)
            } else if old(self).health_of(old(self).base_model(user, now), quotes@, now, None)
                > AUTO_REPAY_THRESHOLD {
                r == Err::<(u128, Option<BlendRequest>), HubError>(
                    HubError::LiquidationProtectionFailed,
                ) && *final(self) == *old(self)
            } else {
                let (m_final, rep) = old(self).spec_protection_step(
                    old(self).base_model(user, now),
                    quotes@,
                    now,
                );
                match rep {
                    None => r == Ok::<(u128, Option<BlendRequest>), HubError>((0, None))
                        && *final(self) == *old(self),
                    Some((da, out)) => {
                        &&& r == Ok::<(u128, Option<BlendRequest>), HubError>(
                            (
                                out,
                                Some(
                                    BlendRequest {
                                        request_type: 5u32,
                                        address: da,
                                        amount: out as i128,
                                    },
                                ),
                            ),
                        )
                        &&& value_of(final(self).positions@, user) matches Some(p) && model_of(p)
                            == m_final
                        &&& forall|u: u32|
                            u != user ==> #[trigger] value_of(final(self).positions@, u)
                                == value_of(old(self).positions@, u)
                        &&& final(self).same_except_positions(*old(self))
                    },
                }
            }),
    {
        if !self.initialized {
            return Err(HubError::NotInitialized);
        }
        let mut pos = self.load_position(user, now);
        let fresh = compute_health_factor(
            &self.assets,
            self.price_policy,
            self.max_price_age,
            quotes,
            now,
            &pos,
            None,
        );
        if fresh > AUTO_REPAY_THRESHOLD {
            return Err(HubError::LiquidationProtectionFailed);
        }
        let rep = self.apply_protection(&mut pos, quotes, now);
        match rep {
            None => Ok((0, None)),
            Some((da, out)) => {
                self.save_position(user, pos);
                Ok(
                    (
                        out,
                        Some(BlendRequest { request_type: 5, address: da, amount: out as i128 }),
                    ),
                )
            },
        }
    }

    /// Enable or disable protection for an account by moving its personal
    /// threshold between the auto-repay level and the bare liquidation
    /// level.
    pub fn set_liquidation_protection(&mut self, user: u32, enabled: bool, now: u64) -> (r: Result<
        (),
        HubError,
    >)
        requires
            old(self).wf(),
        ensures
            final(self).wf(),
            (if !old(self).initialized {
                r == Err::<(), HubError>(HubError::NotInitialized) && *final(self) == *old(self)
            } else {
                &&& r == Ok::<(), HubError>(())
                &&& value_of(final(self).positions@, user) matches Some(p) && model_of(p)
                    == (PositionModel {
                    liquidation_threshold: if enabled {
                        AUTO_REPAY_THRESHOLD
                    } else {
                        LIQUIDATION_THRESHOLD
                    },
                    ..old(self).base_model(user, now)
                })
                &&& forall|u: u32|
                    u != user ==> #[trigger] value_of(final(self).positions@, u) == value_of(
                        old(self).positions@,
                        u,
                    )
                &&& final(self).same_except_positions(*old(self))
            }),
    {
        if !self.initialized {
            return Err(HubError::NotInitialized);
        }
        let mut pos = self.load_position(user, now);
        pos.liquidation_threshold = if enabled {
            AUTO_REPAY_THRESHOLD
        } else {
            LIQUIDATION_THRESHOLD
        };
        self.save_position(user, pos);
        Ok(())
    }

    /// Admin-only escape hatch while the pool is frozen: produce the
    /// withdraw-collateral request for the host. The ledger is left as it
    /// is; custody moves host-side.
    pub fn emergency_withdraw(&self, admin: u32, user: u32, asset: u32, amount: u128) -> (r:
        Result<BlendRequest, HubError>)
        ensures
            (if !self.initialized {
                r == Err::<BlendRequest, HubError>(HubError::NotInitialized)
            } else if admin != self.admin {
                r == Err::<BlendRequest, HubError>(HubError::Unauthorized)
            } else if amount > i128::MAX as u128 {
                r == Err::<BlendRequest, HubError>(HubError::InvalidAmount)
            } else {
                r == Ok::<BlendRequest, HubError>(
                    BlendRequest { request_type: 3u32, address: asset, amount: amount as i128 },
                )
            }),
    {
        if !self.initialized {
            return Err(HubError::NotInitialized);
        }
        if admin != self.admin {
            return Err(HubError::Unauthorized);
        }
        if amount > (i128::MAX as u128) {
            return Err(HubError::InvalidAmount);
        }
        // The rescued account only matters to the host, which sends the
        // withdrawn tokens on; the pool request is per asset and amount.
        let _ = user;
        Ok(BlendRequest { request_type: 3, address: asset, amount: amount as i128 })
    }

    /// Admin: configure the fixed exchange rate of one ordered pair (the
    /// opposite direction is configured separately and may drift).
    pub fn update_exchange_rate(
        &mut self,
        admin: u32,
        from_asset: u32,
        to_asset: u32,
        new_rate: u128,
        now: u64,
    ) -> (r: Result<(), HubError>)
        requires
            old(self).wf(),
        ensures
            final(self).wf(),
            (if !old(self).initialized {
                r == Err::<(), HubError>(HubError::NotInitialized) && *final(self) == *old(self)
            } else if admin != old(self).admin {
                r == Err::<(), HubError>(HubError::Unauthorized) && *final(self) == *old(self)
            } else {
                &&& r == Ok::<(), HubError>(())
                &&& rate_of(final(self).rates@, from_asset, to_asset) == Some(new_rate)
                &&& forall|f: u32, t: u32|
                    !(f == from_asset && t == to_asset) ==> #[trigger] rate_of(
                        final(self).rates@,
                        f,
                        t,
                    ) == rate_of(old(self).rates@, f, t)
                &&& final(self).positions == old(self).positions
                &&& final(self).assets == old(self).assets
                &&& final(self).initialized == old(self).initialized
                &&& final(self).admin == old(self).admin
                &&& final(self).price_policy == old(self).price_policy
                &&& final(self).max_price_age == old(self).max_price_age
                &&& final(self).staking_pool == old(self).staking_pool
                &&& final(self).reward_pool == old(self).reward_pool
                &&& final(self).protection == old(self).protection
            }),
    {
        if !self.initialized {
            return Err(HubError::NotInitialized);
        }
        if admin != self.admin {
            return Err(HubError::Unauthorized);
        }
        let entry = ExchangeRate {
            from_asset,
            to_asset,
            rate: new_rate,
            last_update: now,
        };
        proof {
            crate::swap::lemma_rate_store_props(self.rates@, entry);
        }
        store_rate(&mut self.rates, entry);
        Ok(())
    }

    /// Admin: add a supported asset, or replace the configuration stored
    /// under its id. A config whose parameters fall outside their ranges
    /// (decimals above the internal scale, ratios above 100%, a zero
    /// fallback price) is rejected as an invalid amount.
    pub fn add_asset(&mut self, admin: u32, cfg: AssetConfig) -> (r: Result<(), HubError>)
        requires
            old(self).wf(),
        ensures
            final(self).wf(),
            (if !old(self).initialized {
                r == Err::<(), HubError>(HubError::NotInitialized) && *final(self) == *old(self)
            } else if admin != old(self).admin {
                r == Err::<(), HubError>(HubError::Unauthorized) && *final(self) == *old(self)
            } else if !(cfg.decimals <= 18 && cfg.ltv_ratio <= 10000 && cfg.liquidation_bonus
                <= 10000 && cfg.fallback_price > 0) {
                r == Err::<(), HubError>(HubError::InvalidAmount) && *final(self) == *old(self)
            } else {
                &&& r == Ok::<(), HubError>(())
                &&& value_of(final(self).assets@, cfg.address) == Some(cfg)
                &&& forall|a: u32|
                    a != cfg.address ==> #[trigger] value_of(final(self).assets@, a) == value_of(
                        old(self).assets@,
                        a,
                    )
                &&& final(self).positions == old(self).positions
                &&& final(self).rates == old(self).rates
                &&& final(self).initialized == old(self).initialized
                &&& final(self).admin == old(self).admin
                &&& final(self).price_policy == old(self).price_policy
                &&& final(self).max_price_age == old(self).max_price_age
                &&& final(self).staking_pool == old(self).staking_pool
                &&& final(self).reward_pool == old(self).reward_pool
                &&& final(self).protection == old(self).protection
            }),
    {
        if !self.initialized {
            return Err(HubError::NotInitialized);
        }
        if admin != self.admin {
            return Err(HubError::Unauthorized);
        }
        if !(cfg.decimals <= 18 && cfg.ltv_ratio <= 10000 && cfg.liquidation_bonus <= 10000
            && cfg.fallback_price > 0) {
            return Err(HubError::InvalidAmount);
        }
        let key = cfg.address;
        proof {
            lemma_store_props(self.assets@, key, cfg);
            lemma_key_index_props(self.assets@, key);
        }
        let ghost olds = self.assets@;
        store_value(&mut self.assets, key, cfg);
        proof {
            let t = self.assets@;
            let n = olds.len() as int;
            assert forall|i: int| 0 <= i < t.len() implies (#[trigger] t[i]).1.wf()
                && t[i].1.address == t[i].0 by {
                if has_key(olds, key) {
                    let j = key_index(olds, key);
                    if i == j {
                        assert(t[i] == (key, cfg));
                    } else {
                        assert(t[i] == olds[i]);
                    }
                } else {
                    if i < n {
                        assert(t[i] == olds[i]);
                    } else {
                        assert(t[i] == (key, cfg));
                    }
                }
            }
        }
        Ok(())
    }

    /// Admin: retire an asset. The configuration stays (so existing
    /// positions keep valuing it) but it is marked inactive, and every
    /// entry point that demands a supported asset rejects it.
    pub fn remove_asset(&mut self, admin: u32, asset: u32) -> (r: Result<(), HubError>)
        requires
            old(self).wf(),
        ensures
            final(self).wf(),
            (if !old(self).initialized {
                r == Err::<(), HubError>(HubError::NotInitialized) && *final(self) == *old(self)
            } else if admin != old(self).admin {
                r == Err::<(), HubError>(HubError::Unauthorized) && *final(self) == *old(self)
            } else if cfg_of(old(self).assets@, asset) is None {
                r == Err::<(), HubError>(HubError::InvalidAsset) && *final(self) == *old(self)
            } else {
                let oldc = cfg_of(old(self).assets@, asset).unwrap();
                &&& r == Ok::<(), HubError>(())
                &&& cfg_of(final(self).assets@, asset) matches Some(c) && c.is_active == false
                    && c.address == oldc.address && c.symbol@ == oldc.symbol@ && c.decimals
                    == oldc.decimals && c.is_collateral == oldc.is_collateral && c.ltv_ratio
                    == oldc.ltv_ratio && c.reserve_index == oldc.reserve_index
                    && c.liquidation_bonus == oldc.liquidation_bonus && c.fallback_price
                    == oldc.fallback_price
                &&& forall|a: u32|
                    a != asset ==> #[trigger] value_of(final(self).assets@, a) == value_of(
                        old(self).assets@,
                        a,
                    )
                &&& final(self).positions == old(self).positions
                &&& final(self).rates == old(self).rates
                &&& final(self).initialized == old(self).initialized
                &&& final(self).admin == old(self).admin
                &&& final(self).price_policy == old(self).price_policy
                &&& final(self).max_price_age == old(self).max_price_age
                &&& final(self).staking_pool == old(self).staking_pool
                &&& final(self).reward_pool == old(self).reward_pool
                &&& final(self).protection == old(self).protection
            }),
    {
        if !self.initialized {
            return Err(HubError::NotInitialized);
        }
        if admin != self.admin {
            return Err(HubError::Unauthorized);
        }
        let j = find_key(&self.assets, asset);
        if j.is_none() {
            return Err(HubError::InvalidAsset);
        }
        let j = j.unwrap();
        let retired = AssetConfig {
            address: self.assets[j].1.address,
            symbol: self.assets[j].1.symbol.as_str().to_string(),
            decimals: self.assets[j].1.decimals,
            is_active: false,
            is_collateral: self.assets[j].1.is_collateral,
            ltv_ratio: self.assets[j].1.ltv_ratio,
            reserve_index: self.assets[j].1.reserve_index,
            liquidation_bonus: self.assets[j].1.liquidation_bonus,
            fallback_price: self.assets[j].1.fallback_price,
        };
        proof {
            lemma_store_props(self.assets@, asset, retired);
            lemma_key_index_props(self.assets@, asset);
        }
        let ghost olds = self.assets@;
        store_value(&mut self.assets, asset, retired);
        proof {
            let t = self.assets@;
            let jj = key_index(olds, asset);
            assert forall|i: int| 0 <= i < t.len() implies (#[trigger] t[i]).1.wf()
                && t[i].1.address == t[i].0 by {
                if i == jj {
                    assert(t[i] == (asset, retired));
                } else {
                    assert(t[i] == olds[i]);
                }
            }
        }
        Ok(())
    }

    /// Admin: change the pool's reward rate. The checkpoint accumulator is
    /// advanced first, so time already elapsed still accrues at the old
    /// rate.
    pub fn update_reward_rate(&mut self, admin: u32, new_rate: u128, now: u64) -> (r: Result<
        (),
        HubError,
    >)
        requires
            old(self).wf(),
        ensures
            final(self).wf(),
            (if !old(self).initialized {
                r == Err::<(), HubError>(HubError::NotInitialized) && *final(self) == *old(self)
            } else if admin != old(self).admin {
                r == Err::<(), HubError>(HubError::Unauthorized) && *final(self) == *old(self)
            } else {
                &&& r == Ok::<(), HubError>(())
                &&& final(self).staking_pool == (BlendStakingPool {
                    reward_rate: new_rate,
                    ..spec_pool_advance(old(self).staking_pool, now)
                })
                &&& final(self).staking_pool.reward_per_token_stored >= old(
                    self,
                ).staking_pool.reward_per_token_stored
                &&& final(self).positions == old(self).positions
                &&& final(self).assets == old(self).assets
                &&& final(self).rates == old(self).rates
                &&& final(self).initialized == old(self).initialized
                &&& final(self).admin == old(self).admin
                &&& final(self).price_policy == old(self).price_policy
                &&& final(self).max_price_age == old(self).max_price_age
                &&& final(self).reward_pool == old(self).reward_pool
                &&& final(self).protection == old(self).protection
            }),
    {
        if !self.initialized {
            return Err(HubError::NotInitialized);
        }
        if admin != self.admin {
            return Err(HubError::Unauthorized);
        }
        // A zero-delta update is exactly the checkpoint advance.
        update_blend_staking_pool(&mut self.staking_pool, 0, true, now);
        self.staking_pool.reward_rate = new_rate;
        Ok(())
    }

    /// Set up the hub under the given admin: the default asset registry
    /// (five assets, ids 0 to 4), the fixed exchange-rate table, the
    /// staking pool and the protection defaults, under the fallback price
    /// policy with no staleness cutoff.
    pub fn initialize(admin: u32, now: u64) -> (h: StellarDeFiHub)
        ensures
            h.wf(),
            h.initialized,
            h.admin == admin,
            h.price_policy == PricePolicy::Fallback,
            h.max_price_age == u64::MAX,
            h.positions@.len() == 0,
            h.reward_pool == 0,
            h.staking_pool == (BlendStakingPool {
                total_staked: 0,
                reward_rate: crate::config::DEFAULT_REWARD_RATE,
                last_update_time: now,
                reward_per_token_stored: 0,
                total_rewards_distributed: 0,
            }),
            h.protection == (LiquidationProtection {
                enabled: true,
                auto_repay_threshold: AUTO_REPAY_THRESHOLD,
                max_repay_percentage: DEFAULT_MAX_REPAY_BPS,
                protection_fee: DEFAULT_PROTECTION_FEE_BPS,
            }),
            h.assets@.len() == 5,
            forall|id: u32| id < 5 ==> #[trigger] has_key(h.assets@, id),
            forall|id: u32| id < 5 ==> #[trigger] key_index(h.assets@, id) == id,
            forall|id: u32| id < 5 ==> (#[trigger] cfg_of(h.assets@, id)).unwrap().address == id
                && cfg_of(h.assets@, id).unwrap().is_active
                && cfg_of(h.assets@, id).unwrap().is_collateral,
            cfg_of(h.assets@, 0).unwrap().decimals == 7 && cfg_of(h.assets@, 0).unwrap().ltv_ratio
                == 7000 && cfg_of(h.assets@, 0).unwrap().liquidation_bonus == 500 && cfg_of(
                h.assets@,
                0,
            ).unwrap().fallback_price == 120_000_000_000_000_000,
            cfg_of(h.assets@, 1).unwrap().decimals == 7 && cfg_of(h.assets@, 1).unwrap().ltv_ratio
                == 6500 && cfg_of(h.assets@, 1).unwrap().liquidation_bonus == 800 && cfg_of(
                h.assets@,
                1,
            ).unwrap().fallback_price == 50_000_000_000_000_000,
            cfg_of(h.assets@, 2).unwrap().decimals == 6 && cfg_of(h.assets@, 2).unwrap().ltv_ratio
                == 8500 && cfg_of(h.assets@, 2).unwrap().liquidation_bonus == 300 && cfg_of(
                h.assets@,
                2,
            ).unwrap().fallback_price == PRICE_SCALE,
            cfg_of(h.assets@, 3).unwrap().decimals == 18 && cfg_of(h.assets@, 3).unwrap().ltv_ratio
                == 7500 && cfg_of(h.assets@, 3).unwrap().liquidation_bonus == 600 && cfg_of(
                h.assets@,
                3,
            ).unwrap().fallback_price == 2_500_000_000_000_000_000_000,
            cfg_of(h.assets@, 4).unwrap().decimals == 8 && cfg_of(h.assets@, 4).unwrap().ltv_ratio
                == 7500 && cfg_of(h.assets@, 4).unwrap().liquidation_bonus == 700 && cfg_of(
                h.assets@,
                4,
            ).unwrap().fallback_price == 45_000_000_000_000_000_000_000,
            rate_of(h.rates@, 0, 2) == Some(120_000_000_000_000_000u128),
            rate_of(h.rates@, 2, 0) == Some(8_333_333_333_333_333_333u128),
            rate_of(h.rates@, 3, 2) == Some(2_500_000_000_000_000_000_000u128),
            rate_of(h.rates@, 2, 3) == Some(400_000_000_000_000u128),
            rate_of(h.rates@, 4, 2) == Some(45_000_000_000_000_000_000_000u128),
            rate_of(h.rates@, 2, 4) == Some(22_222_222_222_222u128),
            rate_of(h.rates@, 1, 2) == Some(50_000_000_000_000_000u128),
            rate_of(h.rates@, 2, 1) == Some(20_000_000_000_000_000_000u128),
    {
        let mut assets: Vec<(u32, AssetConfig)> = Vec::new();
        assets.push(
            (
                0,
                AssetConfig {
                    address: 0,
                    symbol: "XLM".to_string(),
                    decimals: 7,
                    is_active: true,
                    is_collateral: true,
                    ltv_ratio: 7000,
                    reserve_index: 0,
                    liquidation_bonus: 500,
                    fallback_price: 120_000_000_000_000_000,
                },
            ),
        );
        assets.push(
            (
                1,
                AssetConfig {
                    address: 1,
                    symbol: "BLND".to_string(),
                    decimals: 7,
                    is_active: true,
                    is_collateral: true,
                    ltv_ratio: 6500,
                    reserve_index: 1,
                    liquidation_bonus: 800,
                    fallback_price: 50_000_000_000_000_000,
                },
            ),
        );
        assets.push(
            (
                2,
                AssetConfig {
                    address: 2,
                    symbol: "USDC".to_string(),
                    decimals: 6,
                    is_active: true,
                    is_collateral: true,
                    ltv_ratio: 8500,
                    reserve_index: 2,
                    liquidation_bonus: 300,
                    fallback_price: PRICE_SCALE,
                },
            ),
        );
        assets.push(
            (
                3,
                AssetConfig {
                    address: 3,
                    symbol: "wETH".to_string(),
                    decimals: 18,
                    is_active: true,
                    is_collateral: true,
                    ltv_ratio: 7500,
                    reserve_index: 3,
                    liquidation_bonus: 600,
                    fallback_price: 2_500_000_000_000_000_000_000,
                },
            ),
        );
        assets.push(
            (
                4,
                AssetConfig {
                    address: 4,
                    symbol: "wBTC".to_string(),
                    decimals: 8,
                    is_active: true,
                    is_collateral: true,
                    ltv_ratio: 7500,
                    reserve_index: 4,
                    liquidation_bonus: 700,
                    fallback_price: 45_000_000_000_000_000_000_000,
                },
            ),
        );
        let mut rates: Vec<ExchangeRate> = Vec::new();
        rates.push(
            ExchangeRate { from_asset: 0, to_asset: 2, rate: 120_000_000_000_000_000, last_update: now },
        );
        rates.push(
            ExchangeRate {
                from_asset: 2,
                to_asset: 0,
                rate: 8_333_333_333_333_333_333,
                last_update: now,
            },
        );
        rates.push(
            ExchangeRate {
                from_asset: 3,
                to_asset: 2,
                rate: 2_500_000_000_000_000_000_000,
                last_update: now,
            },
        );
        rates.push(
            ExchangeRate { from_asset: 2, to_asset: 3, rate: 400_000_000_000_000, last_update: now },
        );
        rates.push(
            ExchangeRate {
                from_asset: 4,
                to_asset: 2,
                rate: 45_000_000_000_000_000_000_000,
                last_update: now,
            },
        );
        rates.push(
            ExchangeRate { from_asset: 2, to_asset: 4, rate: 22_222_222_222_222, last_update: now },
        );
        rates.push(
            ExchangeRate {
                from_asset: 1,
                to_asset: 2,
                rate: 50_000_000_000_000_000,
                last_update: now,
            },
        );
        rates.push(
            ExchangeRate {
                from_asset: 2,
                to_asset: 1,
                rate: 20_000_000_000_000_000_000,
                last_update: now,
            },
        );
        let h = StellarDeFiHub {
            initialized: true,
            admin,
            price_policy: PricePolicy::Fallback,
            max_price_age: u64::MAX,
            assets,
            rates,
            positions: Vec::new(),
            staking_pool: BlendStakingPool::new_default(now),
            reward_pool: 0,
            protection: LiquidationProtection {
                enabled: true,
                auto_repay_threshold: AUTO_REPAY_THRESHOLD,
                max_repay_percentage: DEFAULT_MAX_REPAY_BPS,
                protection_fee: DEFAULT_PROTECTION_FEE_BPS,
            },
        };
        proof {
            let s = h.assets@;
            assert forall|id: u32| id < 5 implies #[trigger] key_index(s, id) == id && has_key(
                s,
                id,
            ) by {
                crate::entries::lemma_key_index_at(s, id, id as int);
            }
            let rs = h.rates@;
            crate::swap::lemma_rate_index_at(rs, 0, 2, 0);
            crate::swap::lemma_rate_index_at(rs, 2, 0, 1);
            crate::swap::lemma_rate_index_at(rs, 3, 2, 2);
            crate::swap::lemma_rate_index_at(rs, 2, 3, 3);
            crate::swap::lemma_rate_index_at(rs, 4, 2, 4);
            crate::swap::lemma_rate_index_at(rs, 2, 4, 5);
            crate::swap::lemma_rate_index_at(rs, 1, 2, 6);
            crate::swap::lemma_rate_index_at(rs, 2, 1, 7);
        }
        h
    }
}

} // verus!

