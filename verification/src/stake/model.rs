//! The reward accumulator as a mathematical value: its invariant, and what
//! every operation makes of it.

use crate::account::{AccountId, Balance, BlockNumber, Position};
use crate::math::{mul_div_spec, mul_mul_div_spec, SCALE};
use crate::stake::types::{
    Add, Claim, EDeposit, PoolFacts, PoolInfo, SetCapacityMax, SetOperator, SetPool, SetSigner,
    SetUserCapacityMax, StakeError, SwitchDeposit, Unstake, UpdateBlockReward,
    UpdateWithdrawPending, UserInfo, Withdraw, DEFAULT_CAPACITY,
};
use crate::table::map_sum;
use vstd::prelude::*;

verus! {

/// The reward that `amount` of stake has earned at the accumulator `acc`,
/// rounded down.
pub open spec fn accrued(amount: Balance, acc: u128) -> int {
    (amount * acc) / (SCALE as int)
}

/// A position that was never touched.
pub open spec fn no_stake() -> UserInfo {
    UserInfo { amount: 0, reward_debt: 0, reward: 0, pending_withdrawal: 0, pending_at: 0 }
}

/// The term of a sum of active stake in the pool `pid`.
pub open spec fn staked_term(pid: u32) -> spec_fn(Position, UserInfo) -> nat {
    |key: Position, user: UserInfo|
        if key.pid == pid {
            user.amount as nat
        } else {
            0
        }
}

/// The term of a sum of stake pending withdrawal in the pool `pid`.
pub open spec fn unstaking_term(pid: u32) -> spec_fn(Position, UserInfo) -> nat {
    |key: Position, user: UserInfo|
        if key.pid == pid {
            user.pending_withdrawal as nat
        } else {
            0
        }
}

/// The active stake of all positions in the pool `pid`.
pub open spec fn staked_in(users: Map<Position, UserInfo>, pid: u32) -> nat {
    map_sum(users, staked_term(pid))
}

/// The stake pending withdrawal of all positions in the pool `pid`.
pub open spec fn unstaking_in(users: Map<Position, UserInfo>, pid: u32) -> nat {
    map_sum(users, unstaking_term(pid))
}

/// The sum of the pools' weights.
pub open spec fn weight_sum(pools: Seq<PoolInfo>) -> nat
    decreases pools.len(),
{
    if pools.len() == 0 {
        0
    } else {
        weight_sum(pools.drop_last()) + pools.last().alloc_point as nat
    }
}

/// No two pools stake the same asset.
pub open spec fn distinct_assets(pools: Seq<PoolInfo>) -> bool {
    forall|i: int, j: int| 0 <= i < j < pools.len() ==> pools[i].lp_token != pools[j].lp_token
}

/// The smaller of a reward owed and what custody holds of the reward asset.
pub open spec fn payable(owed: Balance, reward_balance: Balance) -> Balance {
    if owed > reward_balance {
        reward_balance
    } else {
        owed
    }
}

/// What an accrual may change of a pool: the accumulator and the height, and
/// neither ever falls.
pub open spec fn refreshes(before: PoolInfo, after: PoolInfo) -> bool {
    &&& after.amount == before.amount
    &&& after.lp_token == before.lp_token
    &&& after.alloc_point == before.alloc_point
    &&& after.pending == before.pending
    &&& after.acc_nsure_per_share >= before.acc_nsure_per_share
    &&& after.last_reward_block >= before.last_reward_block
}

/// The accumulator as a mathematical value.
#[verifier::ext_equal]
pub struct StakeView {
    pub signer: AccountId,
    pub nsure: AccountId,
    pub nsure_per_block: Balance,
    pub pending_duration: u64,
    pub capacity_max: Map<u32, Balance>,
    pub can_deposit: bool,
    pub operator: AccountId,
    pub user_capacity_max: Map<u32, Balance>,
    pub pools: Seq<PoolInfo>,
    pub users: Map<Position, UserInfo>,
    pub total_alloc_point: u128,
    pub start_block: BlockNumber,
    pub owner: AccountId,
}

impl StakeView {
    /// The position of `owner` in the pool `pid`.
    pub open spec fn user(self, pid: u32, owner: AccountId) -> UserInfo {
        let key = Position { pid, owner };
        if self.users.contains_key(key) {
            self.users[key]
        } else {
            no_stake()
        }
    }

    /// The limit of the pool `pid`; a pool without one takes no stake.
    pub open spec fn capacity(self, pid: u32) -> Balance {
        if self.capacity_max.contains_key(pid) {
            self.capacity_max[pid]
        } else {
            0
        }
    }

    /// The active stake of all stakers in the pool `pid`.
    pub open spec fn staked_sum(self, pid: u32) -> nat {
        staked_in(self.users, pid)
    }

    /// The stake pending withdrawal of all stakers in the pool `pid`.
    pub open spec fn unstaking_sum(self, pid: u32) -> nat {
        unstaking_in(self.users, pid)
    }

    /// The invariant. No two pools stake the same asset. The weights add up
    /// to the total weight. Every position belongs to a pool, and its reward
    /// debt is within what its stake has earned. Every pool holds the active
    /// and the pending stake of its stakers, and its pending total is the sum
    /// of theirs.
    pub open spec fn wf(self) -> bool {
        &&& self.pools.len() <= u32::MAX
        &&& distinct_assets(self.pools)
        &&& self.users.dom().finite()
        &&& self.total_alloc_point == weight_sum(self.pools)
        &&& forall|key: Position| #[trigger]
            self.users.contains_key(key) ==> key.pid < self.pools.len()
                && self.users[key].reward_debt <= accrued(
                self.users[key].amount,
                self.pools[key.pid as int].acc_nsure_per_share,
            )
        &&& forall|pid: u32|
            pid < self.pools.len() ==> self.pools[pid as int].amount == #[trigger] staked_in(
                self.users,
                pid,
            ) + unstaking_in(self.users, pid) && self.pools[pid as int].pending == unstaking_in(
                self.users,
                pid,
            )
    }

    /// The reward that the emission owes the pool `pid` for the heights up to
    /// `height`: elapsed heights times the emission per height, in the
    /// proportion of the pool's weight to the total weight, rounded down.
    pub open spec fn pool_reward(self, pid: u32, height: BlockNumber) -> Option<Balance> {
        mul_mul_div_spec(
            (height - self.pools[pid as int].last_reward_block) as u128,
            self.nsure_per_block,
            self.pools[pid as int].alloc_point,
            self.total_alloc_point,
        )
    }

    /// The reward that the host has to mint into custody before the pool `pid`
    /// is brought up to `height`; `None` where the pool accrues nothing, for
    /// want of heights passed or of stake in custody.
    pub open spec fn reward_due(self, pid: u32, height: BlockNumber, lp_supply: Balance) -> Result<
        Option<Balance>,
        StakeError,
    > {
        if pid >= self.pools.len() {
            Err(StakeError::InvalidPool)
        } else if height <= self.pools[pid as int].last_reward_block || lp_supply == 0 {
            Ok(None)
        } else {
            match self.pool_reward(pid, height) {
                Some(reward) => Ok(Some(reward)),
                None => Err(StakeError::Overflow),
            }
        }
    }

    /// The pool `pid` brought up to `height`.
    pub open spec fn updated_pool(self, pid: u32, height: BlockNumber, facts: PoolFacts) -> Result<
        PoolInfo,
        StakeError,
    > {
        let pool = self.pools[pid as int];
        if height <= pool.last_reward_block {
            Ok(pool)
        } else if facts.lp_supply == 0 {
            Ok(PoolInfo { last_reward_block: height, ..pool })
        } else {
            match self.pool_reward(pid, height) {
                None => Err(StakeError::Overflow),
                Some(reward) => if !facts.minted {
                    Err(StakeError::TransferFailed)
                } else {
                    match mul_div_spec(reward, SCALE, facts.lp_supply) {
                        None => Err(StakeError::Overflow),
                        Some(gain) => if pool.acc_nsure_per_share + gain > u128::MAX {
                            Err(StakeError::Overflow)
                        } else {
                            Ok(
                                PoolInfo {
                                    acc_nsure_per_share: (pool.acc_nsure_per_share + gain) as u128,
                                    last_reward_block: height,
                                    ..pool
                                },
                            )
                        },
                    }
                },
            }
        }
    }

    /// The state after the pool `pid` was brought up to `height`.
    pub open spec fn update_pool(self, pid: u32, height: BlockNumber, facts: PoolFacts) -> Result<
        (StakeView, ()),
        StakeError,
    > {
        if pid >= self.pools.len() {
            Err(StakeError::InvalidPool)
        } else {
            match self.updated_pool(pid, height, facts) {
                Err(e) => Err(e),
                Ok(pool) => Ok((StakeView { pools: self.pools.update(pid as int, pool), ..self }, ())),
            }
        }
    }

    /// The first `n` pools brought up to `height`, each on the facts of its id.
    pub open spec fn updated_pools(self, height: BlockNumber, facts: Seq<PoolFacts>, n: nat) -> Result<
        Seq<PoolInfo>,
        StakeError,
    >
        decreases n,
    {
        if n == 0 {
            Ok(Seq::empty())
        } else {
            match self.updated_pools(height, facts, (n - 1) as nat) {
                Err(e) => Err(e),
                Ok(done) => match self.updated_pool((n - 1) as u32, height, facts[n - 1]) {
                    Err(e) => Err(e),
                    Ok(pool) => Ok(done.push(pool)),
                },
            }
        }
    }

    /// The state after every pool was brought up to `height`.
    pub open spec fn mass_update_pools(self, height: BlockNumber, facts: Seq<PoolFacts>) -> Result<
        (StakeView, ()),
        StakeError,
    > {
        if facts.len() != self.pools.len() {
            Err(StakeError::FactsMismatch)
        } else {
            match self.updated_pools(height, facts, self.pools.len()) {
                Err(e) => Err(e),
                Ok(pools) => Ok((StakeView { pools, ..self }, ())),
            }
        }
    }

    /// The reward that `user` could claim from the pool `pid` at `height`,
    /// the accrual up to `height` counted in.
    pub open spec fn pending_nsure(
        self,
        pid: u32,
        user: AccountId,
        height: BlockNumber,
        lp_supply: Balance,
    ) -> Result<Balance, StakeError> {
        if pid >= self.pools.len() {
            Err(StakeError::InvalidPool)
        } else {
            match self.updated_pool(pid, height, PoolFacts { lp_supply, minted: true }) {
                Err(e) => Err(e),
                Ok(pool) => {
                    let position = self.user(pid, user);
                    let earned = accrued(position.amount, pool.acc_nsure_per_share);
                    if earned > u128::MAX {
                        Err(StakeError::Overflow)
                    } else {
                        Ok((earned - position.reward_debt) as Balance)
                    }
                },
            }
        }
    }

    /// The state after the position of `owner` in the pool `pid` was written.
    pub open spec fn with_user(self, pid: u32, owner: AccountId, info: UserInfo) -> StakeView {
        StakeView { users: self.users.insert(Position { pid, owner }, info), ..self }
    }

    /// The state after the pool `pid` was written.
    pub open spec fn with_pool(self, pid: u32, pool: PoolInfo) -> StakeView {
        StakeView { pools: self.pools.update(pid as int, pool), ..self }
    }

    /// What can be told of a deposit of `amount` into the pool `pid` before
    /// any asset moves: whether deposits are on, the pool exists, and the
    /// pool stays within its limit.
    pub open spec fn deposit_request(self, pid: u32, amount: Balance) -> Result<(), StakeError> {
        if !self.can_deposit {
            Err(StakeError::DepositsDisabled)
        } else if pid >= self.pools.len() {
            Err(StakeError::InvalidPool)
        } else if self.pools[pid as int].amount + amount > self.capacity(pid) {
            Err(StakeError::ExceedsCapacity)
        } else {
            Ok(())
        }
    }

    /// A deposit of `amount` by `caller` into the pool `pid` at `height`,
    /// refused first as [`Self::deposit_request`] refuses it.
    /// The second result is the reward that the host owes the caller.
    pub open spec fn deposit(
        self,
        caller: AccountId,
        height: BlockNumber,
        pid: u32,
        amount: Balance,
        facts: PoolFacts,
        received: bool,
        reward_balance: Balance,
    ) -> Result<(StakeView, (EDeposit, Balance)), StakeError> {
        if self.deposit_request(pid, amount) is Err {
            Err(self.deposit_request(pid, amount)->Err_0)
        } else {
            match self.updated_pool(pid, height, facts) {
                Err(e) => Err(e),
                Ok(pool) => {
                    let position = self.user(pid, caller);
                    let acc = pool.acc_nsure_per_share;
                    let staked = (position.amount + amount) as Balance;
                    if !received {
                        Err(StakeError::TransferFailed)
                    } else if accrued(position.amount, acc) > u128::MAX || accrued(staked, acc)
                        > u128::MAX {
                        Err(StakeError::Overflow)
                    } else {
                        let owed = (accrued(position.amount, acc) - position.reward_debt) as Balance;
                        if owed > 0 && caller.is_zero_spec() {
                            Err(StakeError::ZeroAccount)
                        } else {
                            Ok(
                                (
                                    self.with_pool(
                                        pid,
                                        PoolInfo { amount: (pool.amount + amount) as Balance, ..pool },
                                    ).with_user(
                                        pid,
                                        caller,
                                        UserInfo {
                                            amount: staked,
                                            reward_debt: accrued(staked, acc) as u128,
                                            ..position
                                        },
                                    ),
                                    (
                                        EDeposit { user: caller, pid, amount },
                                        payable(owed, reward_balance),
                                    ),
                                ),
                            )
                        }
                    }
                },
            }
        }
    }

    /// `caller` moves `amount` of stake in the pool `pid` into pending
    /// withdrawal at `height` and `timestamp`. The second result is the reward
    /// that the host owes the caller.
    pub open spec fn unstake(
        self,
        caller: AccountId,
        height: BlockNumber,
        timestamp: u64,
        pid: u32,
        amount: Balance,
        facts: PoolFacts,
        reward_balance: Balance,
    ) -> Result<(StakeView, (Unstake, Balance)), StakeError> {
        if pid >= self.pools.len() {
            Err(StakeError::InvalidPool)
        } else {
            match self.updated_pool(pid, height, facts) {
                Err(e) => Err(e),
                Ok(pool) => {
                    let position = self.user(pid, caller);
                    let acc = pool.acc_nsure_per_share;
                    if amount > position.amount {
                        Err(StakeError::InsufficientStake)
                    } else if accrued(position.amount, acc) > u128::MAX {
                        Err(StakeError::Overflow)
                    } else if caller.is_zero_spec() {
                        Err(StakeError::ZeroAccount)
                    } else {
                        let owed = (accrued(position.amount, acc) - position.reward_debt) as Balance;
                        let staked = (position.amount - amount) as Balance;
                        Ok(
                            (
                                self.with_pool(
                                    pid,
                                    PoolInfo { pending: (pool.pending + amount) as u128, ..pool },
                                ).with_user(
                                    pid,
                                    caller,
                                    UserInfo {
                                        amount: staked,
                                        reward_debt: accrued(staked, acc) as u128,
                                        pending_withdrawal: (position.pending_withdrawal
                                            + amount) as Balance,
                                        pending_at: timestamp,
                                        ..position
                                    },
                                ),
                                (Unstake { user: caller, pid, amount }, payable(owed, reward_balance)),
                            ),
                        )
                    }
                },
            }
        }
    }

    /// When the stake that `owner` unstaked from the pool `pid` is free.
    pub open spec fn unlocks_at(self, pid: u32, owner: AccountId) -> int {
        self.user(pid, owner).pending_at + self.pending_duration
    }

    /// `caller` withdraws at `timestamp` what is pending in the pool `pid`.
    /// The amount in the returned event is the stake that the host owes the
    /// caller.
    pub open spec fn withdraw(self, caller: AccountId, timestamp: u64, pid: u32) -> Result<
        (StakeView, Withdraw),
        StakeError,
    > {
        if pid >= self.pools.len() {
            Err(StakeError::InvalidPool)
        } else if timestamp < self.unlocks_at(pid, caller) {
            Err(StakeError::StillPending)
        } else {
            let position = self.user(pid, caller);
            let pool = self.pools[pid as int];
            let amount = position.pending_withdrawal;
            Ok(
                (
                    self.with_pool(
                        pid,
                        PoolInfo {
                            amount: (pool.amount - amount) as Balance,
                            pending: (pool.pending - amount) as u128,
                            ..pool
                        },
                    ).with_user(pid, caller, UserInfo { pending_withdrawal: 0, ..position }),
                    Withdraw { user: caller, pid, amount },
                ),
            )
        }
    }

    /// `caller` claims at `height` the reward owed in the pool `pid`: the pool
    /// is brought up to `height`, the reward is what the stake has earned
    /// beyond the debt recorded before, and the debt is then set to what it has
    /// earned. The second result is the reward that the host owes the caller.
    pub open spec fn claim(
        self,
        caller: AccountId,
        height: BlockNumber,
        pid: u32,
        facts: PoolFacts,
        reward_balance: Balance,
    ) -> Result<(StakeView, (Claim, Balance)), StakeError> {
        if pid >= self.pools.len() {
            Err(StakeError::InvalidPool)
        } else {
            match self.updated_pool(pid, height, facts) {
                Err(e) => Err(e),
                Ok(pool) => {
                    let position = self.user(pid, caller);
                    let earned = accrued(position.amount, pool.acc_nsure_per_share);
                    if earned > u128::MAX {
                        Err(StakeError::Overflow)
                    } else if caller.is_zero_spec() {
                        Err(StakeError::ZeroAccount)
                    } else {
                        let owed = (earned - position.reward_debt) as Balance;
                        Ok(
                            (
                                self.with_pool(pid, pool).with_user(
                                    pid,
                                    caller,
                                    UserInfo { reward_debt: earned as u128, ..position },
                                ),
                                (
                                    Claim { user: caller, pid, amount: owed },
                                    payable(owed, reward_balance),
                                ),
                            ),
                        )
                    }
                },
            }
        }
    }

    /// Whether the stake that `caller` unstaked from the pool `pid` is still
    /// locked at `timestamp`, and for how many seconds, capped at the largest
    /// 64-bit value.
    pub open spec fn is_pending(self, caller: AccountId, timestamp: u64, pid: u32) -> (bool, u64) {
        let free = self.unlocks_at(pid, caller);
        if timestamp >= free {
            (false, 0)
        } else if free - timestamp > u64::MAX {
            (true, u64::MAX)
        } else {
            (true, (free - timestamp) as u64)
        }
    }

    /// Whether some pool stakes the asset `token`.
    pub open spec fn has_pool_for(self, token: AccountId) -> bool {
        exists|i: int| 0 <= i < self.pools.len() && self.pools[i].lp_token == token
    }

    /// The height from which a pool added at `height` earns reward.
    pub open spec fn first_reward_block(self, height: BlockNumber) -> BlockNumber {
        if height > self.start_block {
            height
        } else {
            self.start_block
        }
    }

    /// What can be told of adding a pool for the asset `lp_token` before any
    /// ledger is touched: whether the caller is the owner, the asset is an
    /// account that no pool stakes yet, and a pool id is left.
    pub open spec fn add_request(self, caller: AccountId, lp_token: AccountId) -> Result<
        (),
        StakeError,
    > {
        if caller != self.owner {
            Err(StakeError::NotOwner)
        } else if lp_token.is_zero_spec() {
            Err(StakeError::ZeroAccount)
        } else if self.has_pool_for(lp_token) {
            Err(StakeError::DuplicateToken)
        } else if self.pools.len() >= u32::MAX {
            Err(StakeError::TooManyPools)
        } else {
            Ok(())
        }
    }

    /// What can be told of setting the weight of the pool `pid` before any
    /// ledger is touched: whether the caller is the owner and the pool
    /// exists.
    pub open spec fn set_request(self, caller: AccountId, pid: u32) -> Result<(), StakeError> {
        if caller != self.owner {
            Err(StakeError::NotOwner)
        } else if pid >= self.pools.len() {
            Err(StakeError::InvalidPool)
        } else {
            Ok(())
        }
    }

    /// The owner adds a pool for the asset `lp_token` with the weight
    /// `alloc_point` and the limit `max_capacity`. With `with_update` every
    /// pool is first brought up to `height`.
    pub open spec fn add(
        self,
        caller: AccountId,
        height: BlockNumber,
        alloc_point: u128,
        lp_token: AccountId,
        with_update: bool,
        max_capacity: Balance,
        facts: Seq<PoolFacts>,
    ) -> Result<(StakeView, Add), StakeError> {
        if self.add_request(caller, lp_token) is Err {
            Err(self.add_request(caller, lp_token)->Err_0)
        } else {
            let refreshed = if with_update {
                self.mass_update_pools(height, facts)
            } else {
                Ok((self, ()))
            };
            match refreshed {
                Err(e) => Err(e),
                Ok((state, _)) => if self.total_alloc_point + alloc_point > u128::MAX {
                    Err(StakeError::Overflow)
                } else {
                    Ok(
                        (
                            StakeView {
                                capacity_max: self.capacity_max.insert(
                                    self.pools.len() as u32,
                                    max_capacity,
                                ),
                                total_alloc_point: (self.total_alloc_point + alloc_point) as u128,
                                pools: state.pools.push(
                                    PoolInfo {
                                        amount: 0,
                                        lp_token,
                                        alloc_point,
                                        last_reward_block: self.first_reward_block(height),
                                        acc_nsure_per_share: 0,
                                        pending: 0,
                                    },
                                ),
                                ..self
                            },
                            Add { point: alloc_point, token: lp_token, update: with_update },
                        ),
                    )
                },
            }
        }
    }

    /// The owner sets the weight of the pool `pid` to `alloc_point`. With
    /// `with_update` every pool is first brought up to `height`.
    pub open spec fn set(
        self,
        caller: AccountId,
        height: BlockNumber,
        pid: u32,
        alloc_point: u128,
        with_update: bool,
        facts: Seq<PoolFacts>,
    ) -> Result<(StakeView, SetPool), StakeError> {
        if self.set_request(caller, pid) is Err {
            Err(self.set_request(caller, pid)->Err_0)
        } else {
            let refreshed = if with_update {
                self.mass_update_pools(height, facts)
            } else {
                Ok((self, ()))
            };
            match refreshed {
                Err(e) => Err(e),
                Ok((state, _)) => {
                    let pool = state.pools[pid as int];
                    if self.total_alloc_point - pool.alloc_point + alloc_point > u128::MAX {
                        Err(StakeError::Overflow)
                    } else {
                        Ok(
                            (
                                StakeView {
                                    total_alloc_point: (self.total_alloc_point - pool.alloc_point
                                        + alloc_point) as u128,
                                    pools: state.pools.update(
                                        pid as int,
                                        PoolInfo { alloc_point, ..pool },
                                    ),
                                    ..self
                                },
                                SetPool { pid, point: alloc_point, update: with_update },
                            ),
                        )
                    }
                },
            }
        }
    }
}


impl StakeView {
    /// Whether `caller` is the owner.
    pub open spec fn only_owner(self, caller: AccountId) -> Result<(), StakeError> {
        if caller == self.owner {
            Ok(())
        } else {
            Err(StakeError::NotOwner)
        }
    }

    /// Whether `caller` is the operator.
    pub open spec fn only_operator(self, caller: AccountId) -> Result<(), StakeError> {
        if caller == self.operator {
            Ok(())
        } else {
            Err(StakeError::NotOperator)
        }
    }

    /// The owner files the default limits for the first pool.
    pub open spec fn set_default(self, caller: AccountId) -> Result<(StakeView, ()), StakeError> {
        if caller != self.owner {
            Err(StakeError::NotOwner)
        } else {
            Ok(
                (
                    StakeView {
                        user_capacity_max: self.user_capacity_max.insert(0, DEFAULT_CAPACITY),
                        capacity_max: self.capacity_max.insert(0, DEFAULT_CAPACITY),
                        ..self
                    },
                    (),
                ),
            )
        }
    }

    /// The owner names the operator.
    pub open spec fn set_operator(self, caller: AccountId, operator: AccountId) -> Result<
        (StakeView, SetOperator),
        StakeError,
    > {
        if caller != self.owner {
            Err(StakeError::NotOwner)
        } else if operator.is_zero_spec() {
            Err(StakeError::ZeroAccount)
        } else {
            Ok((StakeView { operator, ..self }, SetOperator { operator }))
        }
    }

    /// The owner names the signer.
    pub open spec fn set_signer(self, caller: AccountId, signer: AccountId) -> Result<
        (StakeView, SetSigner),
        StakeError,
    > {
        if caller != self.owner {
            Err(StakeError::NotOwner)
        } else if signer.is_zero_spec() {
            Err(StakeError::ZeroAccount)
        } else {
            Ok((StakeView { signer, ..self }, SetSigner { signer }))
        }
    }

    /// The owner switches deposits on or off.
    pub open spec fn switch_deposit(self, caller: AccountId) -> Result<
        (StakeView, SwitchDeposit),
        StakeError,
    > {
        if caller != self.owner {
            Err(StakeError::NotOwner)
        } else {
            Ok(
                (
                    StakeView { can_deposit: !self.can_deposit, ..self },
                    SwitchDeposit { swi: !self.can_deposit },
                ),
            )
        }
    }

    /// The owner sets the limit of one staker in the pool `pid`.
    pub open spec fn set_user_capacity_max(self, caller: AccountId, pid: u32, max: Balance) -> Result<
        (StakeView, SetUserCapacityMax),
        StakeError,
    > {
        if caller != self.owner {
            Err(StakeError::NotOwner)
        } else {
            Ok(
                (
                    StakeView {
                        user_capacity_max: self.user_capacity_max.insert(pid, max),
                        ..self
                    },
                    SetUserCapacityMax { pid, max },
                ),
            )
        }
    }

    /// The owner sets the limit of the pool `pid`.
    pub open spec fn set_capacity_max(self, caller: AccountId, pid: u32, max: Balance) -> Result<
        (StakeView, SetCapacityMax),
        StakeError,
    > {
        if caller != self.owner {
            Err(StakeError::NotOwner)
        } else {
            Ok(
                (
                    StakeView { capacity_max: self.capacity_max.insert(pid, max), ..self },
                    SetCapacityMax { pid, max },
                ),
            )
        }
    }

    /// The owner sets the emission per height.
    pub open spec fn update_block_reward(self, caller: AccountId, reward: Balance) -> Result<
        (StakeView, UpdateBlockReward),
        StakeError,
    > {
        if caller != self.owner {
            Err(StakeError::NotOwner)
        } else {
            Ok((StakeView { nsure_per_block: reward, ..self }, UpdateBlockReward { reward }))
        }
    }

    /// The owner sets the delay between unstaking and withdrawing.
    pub open spec fn update_withdraw_pending(self, caller: AccountId, seconds: u64) -> Result<
        (StakeView, UpdateWithdrawPending),
        StakeError,
    > {
        if caller != self.owner {
            Err(StakeError::NotOwner)
        } else {
            Ok(
                (
                    StakeView { pending_duration: seconds, ..self },
                    UpdateWithdrawPending { seconds },
                ),
            )
        }
    }

    /// The owner hands the accumulator over; `None` keeps it.
    pub open spec fn transfer_ownership(self, caller: AccountId, new_owner: Option<AccountId>) -> Result<
        (StakeView, ()),
        StakeError,
    > {
        if caller != self.owner {
            Err(StakeError::NotOwner)
        } else {
            match new_owner {
                Some(owner) => Ok((StakeView { owner, ..self }, ())),
                None => Ok((self, ())),
            }
        }
    }

    /// What of a reward owed goes to `to`: all that custody can pay.
    pub open spec fn safe_nsure_transfer(to: AccountId, amount: Balance, reward_balance: Balance) -> Result<
        Balance,
        StakeError,
    > {
        if to.is_zero_spec() {
            Err(StakeError::ZeroAccount)
        } else {
            Ok(payable(amount, reward_balance))
        }
    }
}

} // verus!
