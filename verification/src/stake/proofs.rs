//! Why the operations of the reward accumulator keep its invariant.

use crate::account::{AccountId, Balance, BlockNumber, Position};
use crate::math::SCALE;
use crate::stake::model::{
    accrued, refreshes, staked_in, staked_term, unstaking_in, unstaking_term, weight_sum,
    StakeView,
};
use crate::stake::types::{PoolFacts, PoolInfo, StakeError, UserInfo};
use crate::table::{lemma_map_sum_bounds, lemma_map_sum_insert, lemma_map_sum_zero};
use vstd::prelude::*;

verus! {

/// A larger accumulator or a larger stake never lowers what has been earned.
pub proof fn lemma_accrued_monotonic(amount: Balance, acc: u128, more: Balance, higher: u128)
    requires
        amount <= more,
        acc <= higher,
    ensures
        0 <= accrued(amount, acc) <= accrued(more, higher),
{
    assert(0 <= amount * acc <= more * higher) by (nonlinear_arith)
        requires
            0 <= amount <= more,
            0 <= acc <= higher,
    ;
    vstd::arithmetic::div_mod::lemma_div_is_ordered(amount * acc, more * higher, SCALE as int);
    vstd::arithmetic::div_mod::lemma_div_pos_is_pos(amount * acc, SCALE as int);
}

/// Adding a pool adds its weight to the sum.
pub proof fn lemma_weight_sum_push(pools: Seq<PoolInfo>, pool: PoolInfo)
    ensures
        weight_sum(pools.push(pool)) == weight_sum(pools) + pool.alloc_point,
{
    assert(pools.push(pool).drop_last() =~= pools);
}

/// Replacing a pool replaces its weight in the sum.
pub proof fn lemma_weight_sum_update(pools: Seq<PoolInfo>, i: int, pool: PoolInfo)
    requires
        0 <= i < pools.len(),
    ensures
        weight_sum(pools.update(i, pool)) + pools[i].alloc_point == weight_sum(pools)
            + pool.alloc_point,
    decreases pools.len(),
{
    let after = pools.update(i, pool);
    if i == pools.len() - 1 {
        assert(after.drop_last() =~= pools.drop_last());
    } else {
        lemma_weight_sum_update(pools.drop_last(), i, pool);
        assert(after.drop_last() =~= pools.drop_last().update(i, pool));
    }
}

/// Pools of the same weights have the same sum of weights.
pub proof fn lemma_weight_sum_same(pools: Seq<PoolInfo>, others: Seq<PoolInfo>)
    requires
        pools.len() == others.len(),
        forall|i: int| 0 <= i < pools.len() ==> pools[i].alloc_point == others[i].alloc_point,
    ensures
        weight_sum(pools) == weight_sum(others),
    decreases pools.len(),
{
    if pools.len() > 0 {
        lemma_weight_sum_same(pools.drop_last(), others.drop_last());
    }
}

/// No pool weighs more than all pools together.
pub proof fn lemma_weight_within_sum(pools: Seq<PoolInfo>, i: int)
    requires
        0 <= i < pools.len(),
    ensures
        pools[i].alloc_point <= weight_sum(pools),
    decreases pools.len(),
{
    if i < pools.len() - 1 {
        lemma_weight_within_sum(pools.drop_last(), i);
    }
}

impl StakeView {
    /// How the sums of a pool change when one position is written.
    pub proof fn lemma_sums_after_write(self, pid: u32, owner: AccountId, info: UserInfo, of: u32)
        requires
            self.users.dom().finite(),
        ensures
            self.with_user(pid, owner, info).users.dom().finite(),
            self.with_user(pid, owner, info).staked_sum(of) + (if of == pid {
                self.user(pid, owner).amount
            } else {
                0
            }) == self.staked_sum(of) + (if of == pid {
                info.amount
            } else {
                0
            }),
            self.with_user(pid, owner, info).unstaking_sum(of) + (if of == pid {
                self.user(pid, owner).pending_withdrawal
            } else {
                0
            }) == self.unstaking_sum(of) + (if of == pid {
                info.pending_withdrawal
            } else {
                0
            }),
    {
        let key = Position { pid, owner };
        lemma_map_sum_insert(self.users, staked_term(of), key, info);
        lemma_map_sum_insert(self.users, unstaking_term(of), key, info);
    }

    /// A position holds no more than the sums of its pool.
    pub proof fn lemma_user_within_sums(self, pid: u32, owner: AccountId)
        requires
            self.users.dom().finite(),
        ensures
            self.user(pid, owner).amount <= self.staked_sum(pid),
            self.user(pid, owner).pending_withdrawal <= self.unstaking_sum(pid),
    {
        let key = Position { pid, owner };
        if self.users.contains_key(key) {
            lemma_map_sum_bounds(self.users, staked_term(pid), key);
            lemma_map_sum_bounds(self.users, unstaking_term(pid), key);
        }
    }

    /// Accruals keep the invariant.
    pub proof fn lemma_refreshed_wf(self, pools: Seq<PoolInfo>)
        requires
            self.wf(),
            pools.len() == self.pools.len(),
            forall|i: int| 0 <= i < pools.len() ==> refreshes(self.pools[i], #[trigger] pools[i]),
        ensures
            (StakeView { pools, ..self }).wf(),
    {
        let after = StakeView { pools, ..self };
        lemma_weight_sum_same(self.pools, pools);
        assert forall|key: Position| #[trigger] after.users.contains_key(key) implies key.pid
            < after.pools.len() && after.users[key].reward_debt <= accrued(
            after.users[key].amount,
            after.pools[key.pid as int].acc_nsure_per_share,
        ) by {
            assert(refreshes(self.pools[key.pid as int], pools[key.pid as int]));
            lemma_accrued_monotonic(
                self.users[key].amount,
                self.pools[key.pid as int].acc_nsure_per_share,
                self.users[key].amount,
                pools[key.pid as int].acc_nsure_per_share,
            );
        }
        assert forall|pid: u32| pid < after.pools.len() implies after.pools[pid as int].amount
            == #[trigger] staked_in(after.users, pid) + unstaking_in(after.users, pid)
            && after.pools[pid as int].pending == unstaking_in(after.users, pid) by {
            assert(refreshes(self.pools[pid as int], pools[pid as int]));
        }
    }

    /// Bringing a pool up to a height changes nothing but its accumulator and
    /// its height, and lowers neither.
    pub proof fn lemma_updated_pool_refreshes(self, pid: u32, height: BlockNumber, facts: PoolFacts)
        requires
            pid < self.pools.len(),
            self.updated_pool(pid, height, facts) is Ok,
        ensures
            refreshes(self.pools[pid as int], self.updated_pool(pid, height, facts)->Ok_0),
    {
    }

    /// Writing one position together with its pool keeps the invariant when
    /// the pool's totals move by what the position moves and the new reward
    /// debt is within what the new stake has earned.
    pub proof fn lemma_position_written(self, pid: u32, owner: AccountId, info: UserInfo, pool: PoolInfo)
        requires
            self.wf(),
            pid < self.pools.len(),
            pool.lp_token == self.pools[pid as int].lp_token,
            pool.alloc_point == self.pools[pid as int].alloc_point,
            pool.acc_nsure_per_share == self.pools[pid as int].acc_nsure_per_share,
            pool.pending + self.user(pid, owner).pending_withdrawal == self.pools[pid as int].pending
                + info.pending_withdrawal,
            pool.amount + self.user(pid, owner).amount + self.user(pid, owner).pending_withdrawal
                == self.pools[pid as int].amount + info.amount + info.pending_withdrawal,
            info.reward_debt <= accrued(info.amount, pool.acc_nsure_per_share),
        ensures
            self.with_pool(pid, pool).with_user(pid, owner, info).wf(),
    {
        let after = self.with_pool(pid, pool).with_user(pid, owner, info);
        let key = Position { pid, owner };
        lemma_weight_sum_update(self.pools, pid as int, pool);
        assert forall|k: Position| #[trigger] after.users.contains_key(k) implies k.pid
            < after.pools.len() && after.users[k].reward_debt <= accrued(
            after.users[k].amount,
            after.pools[k.pid as int].acc_nsure_per_share,
        ) by {
            if k != key {
                assert(self.users.contains_key(k));
            }
        }
        assert forall|of: u32| of < after.pools.len() implies after.pools[of as int].amount
            == #[trigger] staked_in(after.users, of) + unstaking_in(after.users, of)
            && after.pools[of as int].pending == unstaking_in(after.users, of) by {
            self.lemma_sums_after_write(pid, owner, info, of);
            assert(self.pools[of as int].amount == staked_in(self.users, of) + unstaking_in(
                self.users,
                of,
            ));
            assert(after.users == self.with_user(pid, owner, info).users);
        }
        self.lemma_sums_after_write(pid, owner, info, pid);
    }

    /// What bringing the first `n` pools up to a height gives for the pool `i`.
    pub proof fn lemma_updated_pools(
        self,
        height: BlockNumber,
        facts: Seq<PoolFacts>,
        n: nat,
        i: int,
    )
        requires
            0 <= i < n <= self.pools.len() <= u32::MAX,
            n <= facts.len(),
            self.updated_pools(height, facts, n) is Ok,
        ensures
            self.updated_pools(height, facts, n)->Ok_0.len() == n,
            self.updated_pool(i as u32, height, facts[i]) is Ok,
            self.updated_pools(height, facts, n)->Ok_0[i] == self.updated_pool(
                i as u32,
                height,
                facts[i],
            )->Ok_0,
        decreases n,
    {
        let done = self.updated_pools(height, facts, (n - 1) as nat);
        assert(done is Ok);
        if n > 1 {
            if i < n - 1 {
                self.lemma_updated_pools(height, facts, (n - 1) as nat, i);
            } else {
                self.lemma_updated_pools(height, facts, (n - 1) as nat, 0);
            }
        } else {
            assert(done->Ok_0.len() == 0);
        }
    }

    /// The first pool that cannot be brought up to a height decides the error.
    pub proof fn lemma_updated_pools_error(
        self,
        height: BlockNumber,
        facts: Seq<PoolFacts>,
        i: nat,
        n: nat,
    )
        requires
            i < n <= facts.len(),
            self.updated_pools(height, facts, i) is Ok,
            self.updated_pool(i as u32, height, facts[i as int]) is Err,
        ensures
            self.updated_pools(height, facts, n) == Err::<Seq<PoolInfo>, StakeError>(
                self.updated_pool(i as u32, height, facts[i as int])->Err_0,
            ),
        decreases n,
    {
        if n > i + 1 {
            self.lemma_updated_pools_error(height, facts, i, (n - 1) as nat);
        }
    }

    /// Bringing every pool up to a height keeps the invariant.
    pub proof fn lemma_mass_update_wf(self, height: BlockNumber, facts: Seq<PoolFacts>)
        requires
            self.wf(),
            self.mass_update_pools(height, facts) is Ok,
        ensures
            self.mass_update_pools(height, facts)->Ok_0.0.wf(),
            self.mass_update_pools(height, facts)->Ok_0.0.pools.len() == self.pools.len(),
            forall|i: int|
                0 <= i < self.pools.len() ==> refreshes(
                    self.pools[i],
                    #[trigger] self.mass_update_pools(height, facts)->Ok_0.0.pools[i],
                ),
    {
        let pools = self.updated_pools(height, facts, self.pools.len())->Ok_0;
        if self.pools.len() > 0 {
            self.lemma_updated_pools(height, facts, self.pools.len(), 0);
        }
        assert forall|i: int| 0 <= i < pools.len() implies refreshes(
            self.pools[i],
            #[trigger] pools[i],
        ) by {
            self.lemma_updated_pools(height, facts, self.pools.len(), i);
            self.lemma_updated_pool_refreshes(i as u32, height, facts[i]);
        }
        self.lemma_refreshed_wf(pools);
    }
}


impl StakeView {
    /// What a settlement of a position may rely on once its pool has been
    /// brought up to a height: the accrual keeps the invariant, the reward
    /// debt is within what the stake has earned, and the pool holds the
    /// position's stake.
    pub proof fn lemma_settlement_ready(self, pid: u32, owner: AccountId, pool: PoolInfo)
        requires
            self.wf(),
            pid < self.pools.len(),
            refreshes(self.pools[pid as int], pool),
        ensures
            self.with_pool(pid, pool).wf(),
            self.with_pool(pid, pool).user(pid, owner) == self.user(pid, owner),
            self.user(pid, owner).reward_debt <= accrued(
                self.user(pid, owner).amount,
                pool.acc_nsure_per_share,
            ),
            self.user(pid, owner).amount + self.user(pid, owner).pending_withdrawal
                <= pool.amount,
            self.user(pid, owner).pending_withdrawal <= pool.pending,
            pool.pending + self.user(pid, owner).amount <= pool.amount,
    {
        let pools = self.pools.update(pid as int, pool);
        assert forall|i: int| 0 <= i < pools.len() implies refreshes(
            self.pools[i],
            #[trigger] pools[i],
        ) by {}
        self.lemma_refreshed_wf(pools);
        self.lemma_user_within_sums(pid, owner);
        assert(self.pools[pid as int].amount == staked_in(self.users, pid) + unstaking_in(
            self.users,
            pid,
        ));
        let key = Position { pid, owner };
        if self.users.contains_key(key) {
            lemma_accrued_monotonic(
                self.users[key].amount,
                self.pools[pid as int].acc_nsure_per_share,
                self.users[key].amount,
                pool.acc_nsure_per_share,
            );
        } else {
            lemma_accrued_monotonic(0, 0, 0, pool.acc_nsure_per_share);
        }
    }

    /// The invariant speaks of the pools, the positions and the total weight
    /// alone.
    pub proof fn lemma_invariant_frame(self, other: StakeView)
        requires
            self.wf(),
            other.pools == self.pools,
            other.users == self.users,
            other.total_alloc_point == self.total_alloc_point,
        ensures
            other.wf(),
    {
    }

    /// A new pool without stake keeps the invariant.
    pub proof fn lemma_pool_added(self, pool: PoolInfo)
        requires
            self.wf(),
            self.pools.len() < u32::MAX,
            !self.has_pool_for(pool.lp_token),
            pool.amount == 0,
            pool.pending == 0,
            self.total_alloc_point + pool.alloc_point <= u128::MAX,
        ensures
            (StakeView {
                total_alloc_point: (self.total_alloc_point + pool.alloc_point) as u128,
                pools: self.pools.push(pool),
                ..self
            }).wf(),
    {
        let after = StakeView {
            total_alloc_point: (self.total_alloc_point + pool.alloc_point) as u128,
            pools: self.pools.push(pool),
            ..self
        };
        let pid = self.pools.len() as u32;
        lemma_weight_sum_push(self.pools, pool);
        assert forall|key: Position| self.users.contains_key(key) implies #[trigger] staked_term(
            pid,
        )(key, self.users[key]) == 0 && #[trigger] unstaking_term(pid)(key, self.users[key])
            == 0 by {}
        lemma_map_sum_zero(self.users, staked_term(pid));
        lemma_map_sum_zero(self.users, unstaking_term(pid));
        assert forall|of: u32| of < after.pools.len() implies after.pools[of as int].amount
            == #[trigger] staked_in(after.users, of) + unstaking_in(after.users, of)
            && after.pools[of as int].pending == unstaking_in(after.users, of) by {
            if of < self.pools.len() {
                assert(self.pools[of as int].amount == staked_in(self.users, of) + unstaking_in(
                    self.users,
                    of,
                ));
            }
        }
    }

    /// Setting the weight of a pool keeps the invariant.
    pub proof fn lemma_weight_set(self, pid: u32, alloc_point: u128)
        requires
            self.wf(),
            pid < self.pools.len(),
            self.total_alloc_point - self.pools[pid as int].alloc_point + alloc_point
                <= u128::MAX,
        ensures
            self.pools[pid as int].alloc_point <= self.total_alloc_point,
            (StakeView {
                total_alloc_point: (self.total_alloc_point - self.pools[pid as int].alloc_point
                    + alloc_point) as u128,
                pools: self.pools.update(
                    pid as int,
                    PoolInfo { alloc_point, ..self.pools[pid as int] },
                ),
                ..self
            }).wf(),
    {
        let pool = PoolInfo { alloc_point, ..self.pools[pid as int] };
        let after = StakeView {
            total_alloc_point: (self.total_alloc_point - self.pools[pid as int].alloc_point
                + alloc_point) as u128,
            pools: self.pools.update(pid as int, pool),
            ..self
        };
        lemma_weight_within_sum(self.pools, pid as int);
        lemma_weight_sum_update(self.pools, pid as int, pool);
        assert forall|of: u32| of < after.pools.len() implies after.pools[of as int].amount
            == #[trigger] staked_in(after.users, of) + unstaking_in(after.users, of)
            && after.pools[of as int].pending == unstaking_in(after.users, of) by {
            assert(self.pools[of as int].amount == staked_in(self.users, of) + unstaking_in(
                self.users,
                of,
            ));
        }
    }
}

} // verus!
