//! The position ledger.
//!
//! `UserPosition` is the authoritative per-account record of supplied,
//! borrowed and staked balances. All mutations go through the credit and
//! debit accessors here: credits are checked against overflow, debits
//! saturate at zero, and an entry that reaches zero is removed rather than
//! retained — an absent asset and a zero balance are the same state.

use vstd::prelude::*;
use vstd::pervasive::VecAdditionalExecFns;
use crate::config::{HEALTH_FACTOR_SCALE, LIQUIDATION_THRESHOLD};
use crate::entries::{find_key, has_key, key_index, keys_unique, lemma_key_index_at,
    lemma_key_index_props};

verus! {

/// The amount recorded under a key; absent keys read as zero.
pub open spec fn entries_lookup(s: Seq<(u32, u128)>, key: u32) -> u128 {
    if has_key(s, key) {
        s[key_index(s, key)].1
    } else {
        0
    }
}

/// Balance lists are well formed: unique keys, no retained zero amount.
pub open spec fn entries_wf(s: Seq<(u32, u128)>) -> bool {
    &&& keys_unique(s)
    &&& forall|i: int| 0 <= i < s.len() ==> s[i].1 > 0
}

/// `a - b`, floored at zero.
pub open spec fn sat_sub(a: u128, b: u128) -> u128 {
    if b >= a {
        0u128
    } else {
        (a - b) as u128
    }
}

/// The list after crediting `amount` under `key`: the entry grows, or is
/// appended; a zero credit changes nothing.
pub open spec fn spec_credit(s: Seq<(u32, u128)>, key: u32, amount: u128) -> Seq<(u32, u128)>
    recommends
        entries_lookup(s, key) + amount <= u128::MAX,
{
    if amount == 0 {
        s
    } else if has_key(s, key) {
        s.update(key_index(s, key), (key, (entries_lookup(s, key) + amount) as u128))
    } else {
        s.push((key, amount))
    }
}

/// The list after debiting `amount` under `key`, saturating at zero and
/// removing the entry when it reaches zero.
pub open spec fn spec_debit(s: Seq<(u32, u128)>, key: u32, amount: u128) -> Seq<(u32, u128)> {
    if !has_key(s, key) {
        s
    } else {
        let j = key_index(s, key);
        let nv = sat_sub(s[j].1, amount);
        if nv == 0 {
            s.remove(j)
        } else {
            s.update(j, (key, nv))
        }
    }
}

/// A credit raises exactly the credited entry, keeps every other entry,
/// and preserves well-formedness.
pub proof fn lemma_credit_props(s: Seq<(u32, u128)>, key: u32, amount: u128)
    requires
        entries_wf(s),
        entries_lookup(s, key) + amount <= u128::MAX,
    ensures
        entries_wf(spec_credit(s, key, amount)),
        entries_lookup(spec_credit(s, key, amount), key) == entries_lookup(s, key) + amount,
        forall|k: u32|
            k != key ==> entries_lookup(spec_credit(s, key, amount), k) == entries_lookup(s, k),
        forall|k: u32|
            has_key(spec_credit(s, key, amount), k) == (has_key(s, k) || (k == key && amount
                > 0)),
{
    lemma_key_index_props(s, key);
    let t = spec_credit(s, key, amount);
    if amount == 0 {
    } else if has_key(s, key) {
        let j = key_index(s, key);
        lemma_key_index_at(t, key, j);
        assert forall|k: u32| #![trigger entries_lookup(t, k)] #![trigger has_key(t, k)] k != key implies entries_lookup(
            t,
            k,
        ) == entries_lookup(s, k) && has_key(t, k) == has_key(s, k) by {
            lemma_key_index_props(s, k);
            lemma_key_index_props(t, k);
            if has_key(s, k) {
                let jk = key_index(s, k);
                assert(jk != j);
                assert(t[jk] == s[jk]);
                lemma_key_index_at(t, k, jk);
            } else if has_key(t, k) {
                let jt = key_index(t, k);
                assert(t[jt].0 == k);
                assert(jt != j);
                assert(s[jt].0 == k);
                assert(false);
            }
        }
    } else {
        let n = s.len() as int;
        lemma_key_index_at(t, key, n);
        assert forall|k: u32| #![trigger entries_lookup(t, k)] #![trigger has_key(t, k)] k != key implies entries_lookup(
            t,
            k,
        ) == entries_lookup(s, k) && has_key(t, k) == has_key(s, k) by {
            lemma_key_index_props(s, k);
            lemma_key_index_props(t, k);
            if has_key(s, k) {
                let jk = key_index(s, k);
                assert(t[jk] == s[jk]);
                lemma_key_index_at(t, k, jk);
            } else if has_key(t, k) {
                let jt = key_index(t, k);
                assert(t[jt].0 == k);
                assert(jt != n);
                assert(s[jt].0 == k);
                assert(false);
            }
        }
        assert(entries_wf(t)) by {
            assert forall|i: int, jj: int| 0 <= i < jj < t.len() implies t[i].0 != t[jj].0 by {
                if jj == n {
                    assert(s[i].0 != key);
                } else {
                    assert(t[i] == s[i] && t[jj] == s[jj]);
                }
            }
        }
    }
}

/// A debit lowers exactly the debited entry (to zero at most), keeps every
/// other entry, and preserves well-formedness.
pub proof fn lemma_debit_props(s: Seq<(u32, u128)>, key: u32, amount: u128)
    requires
        entries_wf(s),
    ensures
        entries_wf(spec_debit(s, key, amount)),
        entries_lookup(spec_debit(s, key, amount), key) == sat_sub(
            entries_lookup(s, key),
            amount,
        ),
        forall|k: u32|
            k != key ==> entries_lookup(spec_debit(s, key, amount), k) == entries_lookup(s, k),
        forall|k: u32|
            has_key(spec_debit(s, key, amount), k) == (has_key(s, k) && (k != key || sat_sub(
                entries_lookup(s, key),
                amount,
            ) > 0)),
{
    lemma_key_index_props(s, key);
    let t = spec_debit(s, key, amount);
    if !has_key(s, key) {
    } else {
        let j = key_index(s, key);
        let nv = sat_sub(s[j].1, amount);
        if nv == 0 {
            // t == s.remove(j): entries above j shift one place down.
            assert(t.len() == s.len() - 1);
            assert forall|k: u32| #![trigger entries_lookup(t, k)] #![trigger has_key(t, k)] k != key implies
                entries_lookup(t, k) == entries_lookup(s, k) && has_key(t, k) == has_key(
                s,
                k,
            ) by {
                lemma_key_index_props(s, k);
                lemma_key_index_props(t, k);
                if has_key(s, k) {
                    let jk = key_index(s, k);
                    assert(jk != j);
                    if jk < j {
                        assert(t[jk] == s[jk]);
                        assert forall|i: int| 0 <= i < jk implies t[i].0 != k by {
                            assert(t[i] == s[i]);
                        }
                        lemma_key_index_at(t, k, jk);
                    } else {
                        assert(t[jk - 1] == s[jk]);
                        assert forall|i: int| 0 <= i < jk - 1 implies t[i].0 != k by {
                            if i < j {
                                assert(t[i] == s[i]);
                            } else {
                                assert(t[i] == s[i + 1]);
                            }
                        }
                        lemma_key_index_at(t, k, jk - 1);
                    }
                } else if has_key(t, k) {
                    let jt = key_index(t, k);
                    assert(t[jt].0 == k);
                    if jt < j {
                        assert(s[jt].0 == k);
                    } else {
                        assert(s[jt + 1].0 == k);
                    }
                    assert(false);
                }
            }
            assert(!has_key(t, key)) by {
                lemma_key_index_props(t, key);
                if has_key(t, key) {
                    let jt = key_index(t, key);
                    assert(t[jt].0 == key);
                    if jt < j {
                        assert(s[jt].0 == key);
                        assert(false);
                    } else {
                        assert(s[jt + 1].0 == key);
                        assert(false);
                    }
                }
            }
            assert(entries_wf(t)) by {
                assert forall|a: int, b: int| 0 <= a < b < t.len() implies t[a].0 != t[b].0 by {
                    let sa = if a < j { a } else { a + 1 };
                    let sb = if b < j { b } else { b + 1 };
                    assert(t[a] == s[sa] && t[b] == s[sb]);
                }
                assert forall|i: int| 0 <= i < t.len() implies t[i].1 > 0 by {
                    let si = if i < j { i } else { i + 1 };
                    assert(t[i] == s[si]);
                }
            }
        } else {
            lemma_key_index_at(t, key, j);
            assert forall|k: u32| #![trigger entries_lookup(t, k)] #![trigger has_key(t, k)] k != key implies
                entries_lookup(t, k) == entries_lookup(s, k) && has_key(t, k) == has_key(
                s,
                k,
            ) by {
                lemma_key_index_props(s, k);
                lemma_key_index_props(t, k);
                if has_key(s, k) {
                    let jk = key_index(s, k);
                    assert(jk != j);
                    assert(t[jk] == s[jk]);
                    lemma_key_index_at(t, k, jk);
                } else if has_key(t, k) {
                    let jt = key_index(t, k);
                    assert(t[jt].0 == k);
                    assert(jt != j);
                    assert(s[jt].0 == k);
                    assert(false);
                }
            }
        }
    }
}

/// Crediting an amount and then debiting the same amount restores the
/// balance list exactly: the entry returns to its previous value, or is
/// removed again if it did not exist.
pub proof fn lemma_credit_debit_roundtrip(s: Seq<(u32, u128)>, key: u32, x: u128)
    requires
        entries_wf(s),
        entries_lookup(s, key) + x <= u128::MAX,
    ensures
        spec_debit(spec_credit(s, key, x), key, x) == s,
{
    lemma_key_index_props(s, key);
    let t = spec_credit(s, key, x);
    lemma_credit_props(s, key, x);
    if x == 0 {
        if has_key(s, key) {
            let j = key_index(s, key);
            assert(spec_debit(t, key, 0) =~= s);
        }
    } else if has_key(s, key) {
        let j = key_index(s, key);
        lemma_key_index_at(t, key, j);
        assert(sat_sub(t[j].1, x) == s[j].1);
        assert(spec_debit(t, key, x) =~= s);
    } else {
        let n = s.len() as int;
        lemma_key_index_at(t, key, n);
        assert(sat_sub(t[n].1, x) == 0);
        assert(spec_debit(t, key, x) =~= s);
    }
}

/// Current amount under a key, zero when absent.
pub fn entries_get(v: &Vec<(u32, u128)>, key: u32) -> (r: u128)
    ensures
        r == entries_lookup(v@, key),
{
    match find_key(v, key) {
        Some(j) => v[j].1,
        None => 0,
    }
}

/// Credit `amount` under `key`; fails (and leaves the list unchanged) only
/// when the entry would exceed the representable maximum.
pub fn entries_credit(v: &mut Vec<(u32, u128)>, key: u32, amount: u128) -> (ok: bool)
    requires
        entries_wf(old(v)@),
    ensures
        ok == (entries_lookup(old(v)@, key) + amount <= u128::MAX),
        ok ==> final(v)@ == spec_credit(old(v)@, key, amount),
        !ok ==> final(v)@ == old(v)@,
        entries_wf(final(v)@),
{
    proof {
        lemma_key_index_props(v@, key);
    }
    if amount == 0 {
        return true;
    }
    match find_key(v, key) {
        Some(j) => {
            let cur = v[j].1;
            match cur.checked_add(amount) {
                Some(nv) => {
                    v.set(j, (key, nv));
                    proof {
                        lemma_credit_props(old(v)@, key, amount);
                    }
                    true
                },
                None => false,
            }
        },
        None => {
            v.push((key, amount));
            proof {
                lemma_credit_props(old(v)@, key, amount);
            }
            true
        },
    }
}

/// Debit `amount` under `key`, saturating at zero; a zeroed entry is
/// removed.
pub fn entries_debit(v: &mut Vec<(u32, u128)>, key: u32, amount: u128)
    requires
        entries_wf(old(v)@),
    ensures
        final(v)@ == spec_debit(old(v)@, key, amount),
        entries_wf(final(v)@),
{
    proof {
        lemma_key_index_props(v@, key);
    }
    match find_key(v, key) {
        Some(j) => {
            let cur = v[j].1;
            let nv = cur.saturating_sub(amount);
            if nv == 0 {
                let _ = v.remove(j);
            } else {
                v.set(j, (key, nv));
            }
            proof {
                lemma_debit_props(old(v)@, key, amount);
            }
        },
        None => {},
    }
}

/// Per-account aggregate: balances, staking, rewards and the cached
/// health factor.
pub struct UserPosition {
    /// Asset id to amount supplied to the pool.
    pub supplied_assets: Vec<(u32, u128)>,
    /// Asset id to amount borrowed from the pool.
    pub borrowed_assets: Vec<(u32, u128)>,
    /// Amount of the staking token staked.
    pub staked_blend: u128,
    /// Accrued but unclaimed rewards.
    pub rewards_earned: u128,
    /// Timestamp of the last reward settlement.
    pub last_reward_update: u64,
    /// Health factor cached at the last persisted mutation, 1e18 scale.
    pub health_factor: u128,
    /// Health factor at or below which protection may act for this user.
    pub liquidation_threshold: u128,
}

impl UserPosition {
    pub open spec fn wf(self) -> bool {
        &&& entries_wf(self.supplied_assets@)
        &&& entries_wf(self.borrowed_assets@)
    }

    /// Positions are created lazily with zero balances and a maximally
    /// indifferent (exactly 1.0) cached health factor.
    pub fn new_default(now: u64) -> (r: UserPosition)
        ensures
            r.supplied_assets@.len() == 0,
            r.borrowed_assets@.len() == 0,
            r.staked_blend == 0,
            r.rewards_earned == 0,
            r.last_reward_update == now,
            r.health_factor == HEALTH_FACTOR_SCALE,
            r.liquidation_threshold == LIQUIDATION_THRESHOLD,
            r.wf(),
    {
        UserPosition {
            supplied_assets: Vec::new(),
            borrowed_assets: Vec::new(),
            staked_blend: 0,
            rewards_earned: 0,
            last_reward_update: now,
            health_factor: HEALTH_FACTOR_SCALE,
            liquidation_threshold: LIQUIDATION_THRESHOLD,
        }
    }

    /// A value copy of this position (the entry vectors are duplicated).
    pub fn snapshot(&self) -> (r: UserPosition)
        ensures
            r.supplied_assets@ == self.supplied_assets@,
            r.borrowed_assets@ == self.borrowed_assets@,
            r.staked_blend == self.staked_blend,
            r.rewards_earned == self.rewards_earned,
            r.last_reward_update == self.last_reward_update,
            r.health_factor == self.health_factor,
            r.liquidation_threshold == self.liquidation_threshold,
    {
        UserPosition {
            supplied_assets: copy_entries(&self.supplied_assets),
            borrowed_assets: copy_entries(&self.borrowed_assets),
            staked_blend: self.staked_blend,
            rewards_earned: self.rewards_earned,
            last_reward_update: self.last_reward_update,
            health_factor: self.health_factor,
            liquidation_threshold: self.liquidation_threshold,
        }
    }

    /// Amount of an asset supplied, zero when absent.
    pub fn supplied_amount(&self, asset: u32) -> (r: u128)
        ensures
            r == entries_lookup(self.supplied_assets@, asset),
    {
        entries_get(&self.supplied_assets, asset)
    }

    /// Amount of an asset borrowed, zero when absent.
    pub fn borrowed_amount(&self, asset: u32) -> (r: u128)
        ensures
            r == entries_lookup(self.borrowed_assets@, asset),
    {
        entries_get(&self.borrowed_assets, asset)
    }

    /// Record newly supplied collateral.
    pub fn credit_supplied(&mut self, asset: u32, amount: u128) -> (ok: bool)
        requires
            old(self).wf(),
        ensures
            final(self).wf(),
            ok == (entries_lookup(old(self).supplied_assets@, asset) + amount <= u128::MAX),
            ok ==> final(self).supplied_assets@ == spec_credit(
                old(self).supplied_assets@,
                asset,
                amount,
            ),
            !ok ==> final(self).supplied_assets@ == old(self).supplied_assets@,
            final(self).borrowed_assets@ == old(self).borrowed_assets@,
            unchanged_scalars(*old(self), *final(self)),
    {
        entries_credit(&mut self.supplied_assets, asset, amount)
    }

    /// Record newly borrowed debt.
    pub fn credit_borrowed(&mut self, asset: u32, amount: u128) -> (ok: bool)
        requires
            old(self).wf(),
        ensures
            final(self).wf(),
            ok == (entries_lookup(old(self).borrowed_assets@, asset) + amount <= u128::MAX),
            ok ==> final(self).borrowed_assets@ == spec_credit(
                old(self).borrowed_assets@,
                asset,
                amount,
            ),
            !ok ==> final(self).borrowed_assets@ == old(self).borrowed_assets@,
            final(self).supplied_assets@ == old(self).supplied_assets@,
            unchanged_scalars(*old(self), *final(self)),
    {
        entries_credit(&mut self.borrowed_assets, asset, amount)
    }

    /// Take supplied collateral out (withdrawal or liquidation seizure),
    /// saturating at zero.
    pub fn debit_supplied(&mut self, asset: u32, amount: u128)
        requires
            old(self).wf(),
        ensures
            final(self).wf(),
            final(self).supplied_assets@ == spec_debit(
                old(self).supplied_assets@,
                asset,
                amount,
            ),
            final(self).borrowed_assets@ == old(self).borrowed_assets@,
            unchanged_scalars(*old(self), *final(self)),
    {
        entries_debit(&mut self.supplied_assets, asset, amount)
    }

    /// Settle repaid debt (repay or liquidation), saturating at zero.
    pub fn debit_borrowed(&mut self, asset: u32, amount: u128)
        requires
            old(self).wf(),
        ensures
            final(self).wf(),
            final(self).borrowed_assets@ == spec_debit(
                old(self).borrowed_assets@,
                asset,
                amount,
            ),
            final(self).supplied_assets@ == old(self).supplied_assets@,
            unchanged_scalars(*old(self), *final(self)),
    {
        entries_debit(&mut self.borrowed_assets, asset, amount)
    }
}

/// The mathematical content of a position: what the engine's contracts
/// are stated over.
pub struct PositionModel {
    pub supplied: Seq<(u32, u128)>,
    pub borrowed: Seq<(u32, u128)>,
    pub staked_blend: u128,
    pub rewards_earned: u128,
    pub last_reward_update: u64,
    pub health_factor: u128,
    pub liquidation_threshold: u128,
}

pub open spec fn model_of(p: UserPosition) -> PositionModel {
    PositionModel {
        supplied: p.supplied_assets@,
        borrowed: p.borrowed_assets@,
        staked_blend: p.staked_blend,
        rewards_earned: p.rewards_earned,
        last_reward_update: p.last_reward_update,
        health_factor: p.health_factor,
        liquidation_threshold: p.liquidation_threshold,
    }
}

/// The state a position decays to and is lazily created from.
pub open spec fn default_model(now: u64) -> PositionModel {
    PositionModel {
        supplied: Seq::empty(),
        borrowed: Seq::empty(),
        staked_blend: 0,
        rewards_earned: 0,
        last_reward_update: now,
        health_factor: HEALTH_FACTOR_SCALE,
        liquidation_threshold: LIQUIDATION_THRESHOLD,
    }
}

/// The scalar fields a balance mutation never touches.
pub open spec fn unchanged_scalars(a: UserPosition, b: UserPosition) -> bool {
    &&& a.staked_blend == b.staked_blend
    &&& a.rewards_earned == b.rewards_earned
    &&& a.last_reward_update == b.last_reward_update
    &&& a.health_factor == b.health_factor
    &&& a.liquidation_threshold == b.liquidation_threshold
}

/// A value copy of a balance list.
fn copy_entries(v: &Vec<(u32, u128)>) -> (r: Vec<(u32, u128)>)
    ensures
        r@ == v@,
{
    let n = v.len();
    let mut r: Vec<(u32, u128)> = Vec::new();
    let mut i: usize = 0;
    while i < n
        invariant
            i <= n,
            n == v.len(),
            r@ == v@.subrange(0, i as int),
        decreases n - i,
    {
        r.push(v[i]);
        proof {
            assert(r@ =~= v@.subrange(0, i + 1));
        }
        i = i + 1;
    }
    proof {
        assert(r@ =~= v@);
    }
    r
}

} // verus!
