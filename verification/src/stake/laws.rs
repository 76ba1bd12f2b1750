//! What holds of the reward accumulator across its operations.

use crate::account::{AccountId, Balance, BlockNumber};
use crate::kinds::ErrorKind;
use crate::math::SCALE;
use crate::stake::model::{accrued, refreshes, StakeView};
use crate::stake::proofs::lemma_accrued_monotonic;
use crate::stake::types::{Claim, PoolFacts, PoolInfo, StakeError};
use vstd::prelude::*;

verus! {

impl StakeView {
    /// Bringing a pool up to a height never lowers its accumulator, and
    /// changes nothing of the pool but the accumulator and the height.
    pub proof fn lemma_accumulator_never_falls(self, pid: u32, height: BlockNumber, facts: PoolFacts)
        requires
            self.update_pool(pid, height, facts) is Ok,
        ensures
            refreshes(
                self.pools[pid as int],
                self.update_pool(pid, height, facts)->Ok_0.0.pools[pid as int],
            ),
    {
    }

    /// The reward of a pool grows with the heights that have passed.
    pub proof fn lemma_pool_reward_grows(self, pid: u32, height: BlockNumber, later: BlockNumber)
        requires
            self.pools[pid as int].last_reward_block <= height <= later,
            self.pool_reward(pid, later) is Some,
        ensures
            self.pool_reward(pid, height) is Some,
            self.pool_reward(pid, height)->Some_0 <= self.pool_reward(pid, later)->Some_0,
    {
        let last = self.pools[pid as int].last_reward_block;
        let rate = self.nsure_per_block;
        let weight = self.pools[pid as int].alloc_point;
        let total = self.total_alloc_point;
        let fewer = (height - last) as u128;
        let more = (later - last) as u128;
        assert(0 <= fewer * rate * weight <= more * rate * weight) by (nonlinear_arith)
            requires
                0 <= fewer <= more,
                0 <= rate,
                0 <= weight,
        ;
        vstd::arithmetic::div_mod::lemma_div_is_ordered(
            fewer * rate * weight,
            more * rate * weight,
            total as int,
        );
        vstd::arithmetic::div_mod::lemma_div_pos_is_pos(fewer * rate * weight, total as int);
    }

    /// With the same stake in custody, a pool brought up to a later height has
    /// an accumulator at least as high.
    pub proof fn lemma_accumulator_grows_with_height(
        self,
        pid: u32,
        height: BlockNumber,
        later: BlockNumber,
        facts: PoolFacts,
    )
        requires
            height <= later,
            self.updated_pool(pid, height, facts) is Ok,
            self.updated_pool(pid, later, facts) is Ok,
        ensures
            self.pools[pid as int].acc_nsure_per_share <= self.updated_pool(
                pid,
                height,
                facts,
            )->Ok_0.acc_nsure_per_share <= self.updated_pool(
                pid,
                later,
                facts,
            )->Ok_0.acc_nsure_per_share,
    {
        let pool = self.pools[pid as int];
        if height > pool.last_reward_block && facts.lp_supply != 0 {
            self.lemma_pool_reward_grows(pid, height, later);
            let fewer = self.pool_reward(pid, height)->Some_0;
            let more = self.pool_reward(pid, later)->Some_0;
            assert(0 <= fewer * SCALE <= more * SCALE) by (nonlinear_arith)
                requires
                    0 <= fewer <= more,
                    0 <= SCALE,
            ;
            vstd::arithmetic::div_mod::lemma_div_is_ordered(
                fewer * SCALE,
                more * SCALE,
                facts.lp_supply as int,
            );
            vstd::arithmetic::div_mod::lemma_div_pos_is_pos(
                fewer * SCALE,
                facts.lp_supply as int,
            );
        }
    }

    /// While a staker neither deposits nor settles, the reward that the staker
    /// could claim never falls from one height to a later one.
    pub proof fn lemma_pending_grows_with_height(
        self,
        pid: u32,
        user: AccountId,
        height: BlockNumber,
        later: BlockNumber,
        lp_supply: Balance,
    )
        requires
            self.wf(),
            height <= later,
            self.pending_nsure(pid, user, height, lp_supply) is Ok,
            self.pending_nsure(pid, user, later, lp_supply) is Ok,
        ensures
            self.pending_nsure(pid, user, height, lp_supply)->Ok_0 <= self.pending_nsure(
                pid,
                user,
                later,
                lp_supply,
            )->Ok_0,
    {
        let facts = PoolFacts { lp_supply, minted: true };
        self.lemma_accumulator_grows_with_height(pid, height, later, facts);
        let sooner = self.updated_pool(pid, height, facts)->Ok_0;
        let after = self.updated_pool(pid, later, facts)->Ok_0;
        let position = self.user(pid, user);
        lemma_accrued_monotonic(
            position.amount,
            sooner.acc_nsure_per_share,
            position.amount,
            after.acc_nsure_per_share,
        );
        self.lemma_updated_pool_refreshes(pid, height, facts);
        self.lemma_settlement_ready(pid, user, sooner);
    }

    /// While a staker neither deposits nor settles, the reward that the staker
    /// could claim is linear in the heights that have passed since the pool
    /// was last brought up, but for rounding down: the emission for the
    /// heights, `elapsed * rate * weight / total weight`, is spread over the
    /// stake in custody and credited to the staker's stake.
    pub proof fn lemma_pending_by_elapsed(
        self,
        pid: u32,
        user: AccountId,
        height: BlockNumber,
        lp_supply: Balance,
    )
        requires
            self.wf(),
            pid < self.pools.len(),
            height > self.pools[pid as int].last_reward_block,
            lp_supply > 0,
            self.pending_nsure(pid, user, height, lp_supply) is Ok,
        ensures
            ({
                let pool = self.pools[pid as int];
                let elapsed = height - pool.last_reward_block;
                let reward = (elapsed * self.nsure_per_block * pool.alloc_point) / (
                self.total_alloc_point as int);
                let gain = (reward * SCALE) / (lp_supply as int);
                let earned = (self.user(pid, user).amount * (pool.acc_nsure_per_share + gain)) / (
                SCALE as int);
                self.pending_nsure(pid, user, height, lp_supply)->Ok_0 == earned - self.user(
                    pid,
                    user,
                ).reward_debt
            }),
    {
        let facts = PoolFacts { lp_supply, minted: true };
        let pool = self.updated_pool(pid, height, facts)->Ok_0;
        self.lemma_updated_pool_refreshes(pid, height, facts);
        self.lemma_settlement_ready(pid, user, pool);
    }

    /// A second claim at the height of a claim that went through pays nothing
    /// and changes nothing, whatever the host reports.
    pub proof fn lemma_second_claim_pays_nothing(
        self,
        caller: AccountId,
        height: BlockNumber,
        pid: u32,
        facts: PoolFacts,
        reward_balance: Balance,
        again_facts: PoolFacts,
        again_balance: Balance,
    )
        requires
            self.claim(caller, height, pid, facts, reward_balance) is Ok,
        ensures
            self.claim(caller, height, pid, facts, reward_balance)->Ok_0.0.claim(
                caller,
                height,
                pid,
                again_facts,
                again_balance,
            ) == Ok::<(StakeView, (Claim, Balance)), StakeError>(
                (
                    self.claim(caller, height, pid, facts, reward_balance)->Ok_0.0,
                    (Claim { user: caller, pid, amount: 0 }, 0),
                ),
            ),
    {
        let settled = self.claim(caller, height, pid, facts, reward_balance)->Ok_0.0;
        let again = settled.claim(caller, height, pid, again_facts, again_balance);
        assert(settled.pools[pid as int].last_reward_block >= height);
        assert(settled.updated_pool(pid, height, again_facts) == Ok::<PoolInfo, StakeError>(
            settled.pools[pid as int],
        ));
        assert(again is Ok);
        assert(again->Ok_0.0 =~= settled);
    }

    /// What the test before the deposit refuses, the deposit refuses with the
    /// same error, whatever the host reports.
    pub proof fn lemma_deposit_refused_beforehand(
        self,
        caller: AccountId,
        height: BlockNumber,
        pid: u32,
        amount: Balance,
        facts: PoolFacts,
        received: bool,
        reward_balance: Balance,
    )
        requires
            self.deposit_request(pid, amount) is Err,
        ensures
            self.deposit(caller, height, pid, amount, facts, received, reward_balance) is Err,
            self.deposit(caller, height, pid, amount, facts, received, reward_balance)->Err_0
                == self.deposit_request(pid, amount)->Err_0,
    {
    }

    /// What the test before the adding of a pool refuses, the adding refuses
    /// with the same error.
    pub proof fn lemma_add_refused_beforehand(
        self,
        caller: AccountId,
        height: BlockNumber,
        alloc_point: u128,
        lp_token: AccountId,
        with_update: bool,
        max_capacity: Balance,
        facts: Seq<PoolFacts>,
    )
        requires
            self.add_request(caller, lp_token) is Err,
        ensures
            self.add(caller, height, alloc_point, lp_token, with_update, max_capacity, facts) is Err,
            self.add(
                caller,
                height,
                alloc_point,
                lp_token,
                with_update,
                max_capacity,
                facts,
            )->Err_0 == self.add_request(caller, lp_token)->Err_0,
    {
    }

    /// A deposit that would take a pool over its limit is refused as not
    /// acceptable.
    pub proof fn lemma_deposit_over_capacity_rejected(
        self,
        caller: AccountId,
        height: BlockNumber,
        pid: u32,
        amount: Balance,
        facts: PoolFacts,
        received: bool,
        reward_balance: Balance,
    )
        requires
            pid < self.pools.len(),
            self.pools[pid as int].amount + amount > self.capacity(pid),
        ensures
            self.deposit(caller, height, pid, amount, facts, received, reward_balance) is Err,
            self.deposit(
                caller,
                height,
                pid,
                amount,
                facts,
                received,
                reward_balance,
            )->Err_0.kind_spec() == ErrorKind::ValidationError,
            self.can_deposit ==> self.deposit(
                caller,
                height,
                pid,
                amount,
                facts,
                received,
                reward_balance,
            )->Err_0 == StakeError::ExceedsCapacity,
    {
    }

    /// A pool for an asset that is staked already is never added.
    pub proof fn lemma_duplicate_pool_rejected(
        self,
        caller: AccountId,
        height: BlockNumber,
        alloc_point: u128,
        lp_token: AccountId,
        with_update: bool,
        max_capacity: Balance,
        facts: Seq<PoolFacts>,
    )
        requires
            self.has_pool_for(lp_token),
        ensures
            self.add(caller, height, alloc_point, lp_token, with_update, max_capacity, facts) is Err,
            caller == self.owner && !lp_token.is_zero_spec() ==> self.add(
                caller,
                height,
                alloc_point,
                lp_token,
                with_update,
                max_capacity,
                facts,
            )->Err_0 == StakeError::DuplicateToken,
    {
    }

    /// A deposit leaves the reward debt at what the stake has earned at the
    /// pool's accumulator.
    pub proof fn lemma_deposit_settles_debt(
        self,
        caller: AccountId,
        height: BlockNumber,
        pid: u32,
        amount: Balance,
        facts: PoolFacts,
        received: bool,
        reward_balance: Balance,
    )
        requires
            self.deposit(caller, height, pid, amount, facts, received, reward_balance) is Ok,
        ensures
            ({
                let settled = self.deposit(
                    caller,
                    height,
                    pid,
                    amount,
                    facts,
                    received,
                    reward_balance,
                )->Ok_0.0;
                settled.user(pid, caller).reward_debt == accrued(
                    settled.user(pid, caller).amount,
                    settled.pools[pid as int].acc_nsure_per_share,
                )
            }),
    {
    }

    /// An unstake leaves the reward debt at what the remaining stake has
    /// earned at the pool's accumulator.
    pub proof fn lemma_unstake_settles_debt(
        self,
        caller: AccountId,
        height: BlockNumber,
        timestamp: u64,
        pid: u32,
        amount: Balance,
        facts: PoolFacts,
        reward_balance: Balance,
    )
        requires
            self.unstake(caller, height, timestamp, pid, amount, facts, reward_balance) is Ok,
        ensures
            ({
                let settled = self.unstake(
                    caller,
                    height,
                    timestamp,
                    pid,
                    amount,
                    facts,
                    reward_balance,
                )->Ok_0.0;
                settled.user(pid, caller).reward_debt == accrued(
                    settled.user(pid, caller).amount,
                    settled.pools[pid as int].acc_nsure_per_share,
                )
            }),
    {
        let pool = self.updated_pool(pid, height, facts)->Ok_0;
        let position = self.user(pid, caller);
        lemma_accrued_monotonic(
            (position.amount - amount) as Balance,
            pool.acc_nsure_per_share,
            position.amount,
            pool.acc_nsure_per_share,
        );
    }

    /// A claim leaves the reward debt at what the stake has earned at the
    /// pool's accumulator.
    pub proof fn lemma_claim_settles_debt(
        self,
        caller: AccountId,
        height: BlockNumber,
        pid: u32,
        facts: PoolFacts,
        reward_balance: Balance,
    )
        requires
            self.claim(caller, height, pid, facts, reward_balance) is Ok,
        ensures
            ({
                let settled = self.claim(caller, height, pid, facts, reward_balance)->Ok_0.0;
                settled.user(pid, caller).reward_debt == accrued(
                    settled.user(pid, caller).amount,
                    settled.pools[pid as int].acc_nsure_per_share,
                )
            }),
    {
    }
}

} // verus!
