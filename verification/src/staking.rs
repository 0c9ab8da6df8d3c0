//! Reward accrual.
//!
//! Two models run side by side, as alternative strategies:
//! the pool-level checkpoint accumulator (`reward_per_token_stored`
//! advances by `reward_rate * elapsed / total_staked` before every stake
//! delta, giving each staker a pro-rata share without iterating over
//! stakers), and the flat position-level time rate (1% of the staked
//! amount per day, settled on every rewards-affecting action).

use vstd::prelude::*;
use crate::config::{BPS_DENOM, DAILY_REWARD_BPS, DEFAULT_REWARD_RATE, SECONDS_PER_DAY};
use crate::math::{mul_div_sat, sat128};
use crate::position::{model_of, sat_sub, PositionModel, UserPosition};

verus! {

/// The staking pool for the staking token.
#[derive(Clone, Copy, PartialEq, Eq, Structural)]
pub struct BlendStakingPool {
    pub total_staked: u128,
    /// Reward units per second per token staked.
    pub reward_rate: u128,
    pub last_update_time: u64,
    /// The checkpoint accumulator; never decreases.
    pub reward_per_token_stored: u128,
    pub total_rewards_distributed: u128,
}

impl BlendStakingPool {
    pub fn new_default(now: u64) -> (r: BlendStakingPool)
        ensures
            r == (BlendStakingPool {
                total_staked: 0,
                reward_rate: DEFAULT_REWARD_RATE,
                last_update_time: now,
                reward_per_token_stored: 0,
                total_rewards_distributed: 0,
            }),
    {
        BlendStakingPool {
            total_staked: 0,
            reward_rate: DEFAULT_REWARD_RATE,
            last_update_time: now,
            reward_per_token_stored: 0,
            total_rewards_distributed: 0,
        }
    }
}

/// Advance the checkpoint accumulator to `now`. With nothing staked only
/// the clock moves (this also avoids the division by zero).
pub open spec fn spec_pool_advance(pool: BlendStakingPool, now: u64) -> BlendStakingPool {
    let elapsed: int = if now >= pool.last_update_time {
        now - pool.last_update_time
    } else {
        0
    };
    if pool.total_staked == 0 {
        BlendStakingPool { last_update_time: now, ..pool }
    } else {
        let acc = sat128(pool.reward_rate * elapsed / pool.total_staked as int);
        BlendStakingPool {
            reward_per_token_stored: sat128(pool.reward_per_token_stored + acc) as u128,
            last_update_time: now,
            ..pool
        }
    }
}

/// Apply the stake or unstake delta to the advanced pool.
pub open spec fn spec_pool_apply(
    pool: BlendStakingPool,
    amount: u128,
    is_stake: bool,
) -> BlendStakingPool {
    if is_stake {
        BlendStakingPool { total_staked: sat128(pool.total_staked + amount) as u128, ..pool }
    } else {
        BlendStakingPool { total_staked: sat_sub(pool.total_staked, amount), ..pool }
    }
}

/// One full checkpoint update: advance, then apply the delta.
pub open spec fn spec_pool_update(
    pool: BlendStakingPool,
    amount: u128,
    is_stake: bool,
    now: u64,
) -> BlendStakingPool {
    spec_pool_apply(spec_pool_advance(pool, now), amount, is_stake)
}

/// Update the pool for a stake or unstake of `amount` observed at `now`.
pub fn update_blend_staking_pool(
    pool: &mut BlendStakingPool,
    amount: u128,
    is_stake: bool,
    now: u64,
)
    ensures
        *final(pool) == spec_pool_update(*old(pool), amount, is_stake, now),
        final(pool).reward_per_token_stored >= old(pool).reward_per_token_stored,
{
    let elapsed: u64 = now.saturating_sub(pool.last_update_time);
    if pool.total_staked > 0 {
        let acc = mul_div_sat(pool.reward_rate, elapsed as u128, pool.total_staked);
        pool.reward_per_token_stored = pool.reward_per_token_stored.saturating_add(acc);
    }
    pool.last_update_time = now;
    if is_stake {
        pool.total_staked = pool.total_staked.saturating_add(amount);
    } else {
        pool.total_staked = pool.total_staked.saturating_sub(amount);
    }
}

/// The checkpoint accumulator never decreases across updates.
pub proof fn lemma_reward_per_token_monotone(
    pool: BlendStakingPool,
    amount: u128,
    is_stake: bool,
    now: u64,
)
    ensures
        spec_pool_update(pool, amount, is_stake, now).reward_per_token_stored
            >= pool.reward_per_token_stored,
{
    let elapsed: int = if now >= pool.last_update_time {
        now - pool.last_update_time
    } else {
        0
    };
    if pool.total_staked != 0 {
        vstd::arithmetic::div_mod::lemma_div_pos_is_pos(
            pool.reward_rate * elapsed,
            pool.total_staked as int,
        );
    }
}

/// A whole run of checkpoint updates: each entry is one stake or unstake
/// (amount, direction, observation time), applied in order.
pub open spec fn spec_pool_run(
    pool: BlendStakingPool,
    ops: Seq<(u128, bool, u64)>,
) -> BlendStakingPool
    decreases ops.len(),
{
    if ops.len() == 0 {
        pool
    } else {
        spec_pool_run(spec_pool_update(pool, ops[0].0, ops[0].1, ops[0].2), ops.drop_first())
    }
}

/// Over any stake/unstake sequence on one pool, the accumulator never
/// decreases.
pub proof fn lemma_reward_per_token_monotone_run(pool: BlendStakingPool, ops: Seq<(u128, bool, u64)>)
    ensures
        spec_pool_run(pool, ops).reward_per_token_stored >= pool.reward_per_token_stored,
    decreases ops.len(),
{
    if ops.len() > 0 {
        lemma_reward_per_token_monotone(pool, ops[0].0, ops[0].1, ops[0].2);
        lemma_reward_per_token_monotone_run(
            spec_pool_update(pool, ops[0].0, ops[0].1, ops[0].2),
            ops.drop_first(),
        );
    }
}

/// Checkpoint updates commute across accounts: two updates observed at the
/// same instant leave `reward_per_token_stored` at the same value in
/// either order (the second update's elapsed time is zero, so only the
/// first advance accrues).
pub proof fn lemma_checkpoint_commutes(
    pool: BlendStakingPool,
    a_amount: u128,
    a_stake: bool,
    b_amount: u128,
    b_stake: bool,
    now: u64,
)
    ensures
        spec_pool_update(
            spec_pool_update(pool, a_amount, a_stake, now),
            b_amount,
            b_stake,
            now,
        ).reward_per_token_stored == spec_pool_update(
            spec_pool_update(pool, b_amount, b_stake, now),
            a_amount,
            a_stake,
            now,
        ).reward_per_token_stored,
{
    let pa = spec_pool_update(pool, a_amount, a_stake, now);
    let pb = spec_pool_update(pool, b_amount, b_stake, now);
    assert(pa.reward_per_token_stored == spec_pool_advance(pool, now).reward_per_token_stored);
    assert(pb.reward_per_token_stored == spec_pool_advance(pool, now).reward_per_token_stored);
    if pa.total_staked != 0 {
        assert(pa.reward_rate * 0 == 0);
        vstd::arithmetic::div_mod::lemma_div_of0(pa.total_staked as int);
    }
    if pb.total_staked != 0 {
        assert(pb.reward_rate * 0 == 0);
        vstd::arithmetic::div_mod::lemma_div_of0(pb.total_staked as int);
    }
}

/// Settle the flat time-rate accrual of a position up to `now`:
/// 1% of the staked amount per full day elapsed, pro-rated by seconds.
pub open spec fn spec_accrue_rewards(pos: UserPosition, now: u64) -> UserPosition {
    let elapsed: int = if now >= pos.last_reward_update {
        now - pos.last_reward_update
    } else {
        0
    };
    if pos.staked_blend > 0 {
        let add = sat128(
            pos.staked_blend * (DAILY_REWARD_BPS * elapsed) / (BPS_DENOM * SECONDS_PER_DAY as int),
        );
        UserPosition {
            rewards_earned: sat128(pos.rewards_earned + add) as u128,
            last_reward_update: now,
            ..pos
        }
    } else {
        UserPosition { last_reward_update: now, ..pos }
    }
}

/// The flat accrual, stated on the position model.
pub open spec fn spec_accrue_model(m: PositionModel, now: u64) -> PositionModel {
    let elapsed: int = if now >= m.last_reward_update {
        now - m.last_reward_update
    } else {
        0
    };
    if m.staked_blend > 0 {
        let add = sat128(
            m.staked_blend * (DAILY_REWARD_BPS * elapsed) / (BPS_DENOM * SECONDS_PER_DAY as int),
        );
        PositionModel {
            rewards_earned: sat128(m.rewards_earned + add) as u128,
            last_reward_update: now,
            ..m
        }
    } else {
        PositionModel { last_reward_update: now, ..m }
    }
}

/// The two statements of the flat accrual agree.
pub proof fn lemma_accrue_model(p: UserPosition, now: u64)
    ensures
        model_of(spec_accrue_rewards(p, now)) == spec_accrue_model(model_of(p), now),
{
}

/// Settle the flat accrual on a position.
pub fn accrue_rewards(pos: &mut UserPosition, now: u64)
    requires
        old(pos).wf(),
    ensures
        *final(pos) == spec_accrue_rewards(*old(pos), now),
        final(pos).wf(),
{
    let elapsed: u64 = now.saturating_sub(pos.last_reward_update);
    if pos.staked_blend > 0 {
        let b: u128 = DAILY_REWARD_BPS * (elapsed as u128);
        let add = mul_div_sat(pos.staked_blend, b, 864_000_000);
        pos.rewards_earned = pos.rewards_earned.saturating_add(add);
    }
    pos.last_reward_update = now;
}

} // verus!
