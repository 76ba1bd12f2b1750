//! The reward accumulator itself, and its state as a record that a host can
//! keep.

use crate::account::{AccountId, Balance, BlockNumber, Position};
use crate::kinds::agrees;
use crate::math::{mul_div, mul_mul_div, SCALE};
use crate::stake::model::{
    accrued, distinct_assets, refreshes, staked_in, staked_term, unstaking_in, unstaking_term,
    weight_sum, StakeView,
};
use crate::stake::proofs::{lemma_accrued_monotonic, lemma_weight_within_sum};
use crate::stake::types::{
    Add, Claim, EDeposit, PoolFacts, PoolInfo, SetCapacityMax, SetOperator, SetPool, SetSigner,
    SetUserCapacityMax, StakeError, SwitchDeposit, Unstake, UpdateBlockReward,
    UpdateWithdrawPending, UserInfo, Withdraw, DEFAULT_CAPACITY, INITIAL_PENDING_DURATION,
    INITIAL_REWARD_PER_BLOCK,
};
use crate::table::{
    distinct_keys, entries_map, has_distinct_keys, lemma_entries_map_finite,
    lemma_entries_map_has, lemma_entries_map_index, lemma_entries_sum_prefix,
    lemma_entries_sum_step, lemma_map_sum_empty, Table,
};
use vstd::prelude::*;

verus! {

/// The accumulator's state as plain values, for a host that keeps it between
/// calls.
#[derive(Clone, Debug)]
pub struct StakeRecord {
    pub signer: AccountId,
    pub nsure: AccountId,
    pub nsure_per_block: Balance,
    pub pending_duration: u64,
    pub capacity_max: Vec<(u32, Balance)>,
    pub can_deposit: bool,
    pub operator: AccountId,
    pub user_capacity_max: Vec<(u32, Balance)>,
    pub pools: Vec<PoolInfo>,
    pub users: Vec<(Position, UserInfo)>,
    pub total_alloc_point: u128,
    pub start_block: BlockNumber,
    pub owner: AccountId,
}

impl View for StakeRecord {
    type V = StakeView;

    open spec fn view(&self) -> StakeView {
        StakeView {
            signer: self.signer,
            nsure: self.nsure,
            nsure_per_block: self.nsure_per_block,
            pending_duration: self.pending_duration,
            capacity_max: entries_map(self.capacity_max@),
            can_deposit: self.can_deposit,
            operator: self.operator,
            user_capacity_max: entries_map(self.user_capacity_max@),
            pools: self.pools@,
            users: entries_map(self.users@),
            total_alloc_point: self.total_alloc_point,
            start_block: self.start_block,
            owner: self.owner,
        }
    }
}

impl StakeRecord {
    /// Whether the record is the state of an accumulator: no key is filed
    /// twice, and the invariant holds.
    pub open spec fn valid(&self) -> bool {
        &&& distinct_keys(self.capacity_max@)
        &&& distinct_keys(self.user_capacity_max@)
        &&& distinct_keys(self.users@)
        &&& self@.wf()
    }
}

/// The weights of the first pools are within the weights of more of them.
proof fn lemma_weight_sum_prefix(pools: Seq<PoolInfo>, i: int, n: int)
    requires
        0 <= i <= n <= pools.len(),
    ensures
        weight_sum(pools.take(i)) <= weight_sum(pools.take(n)),
    decreases n - i,
{
    if i < n {
        lemma_weight_sum_prefix(pools, i, n - 1);
        assert(pools.take(n).drop_last() =~= pools.take(n - 1));
    }
}

/// Whether no two pools stake the same asset.
fn assets_distinct(pools: &Vec<PoolInfo>) -> (r: bool)
    ensures
        r == distinct_assets(pools@),
{
    let mut j: usize = 0;
    while j < pools.len()
        invariant
            j <= pools@.len(),
            forall|a: int, b: int| 0 <= a < b < j ==> pools@[a].lp_token != pools@[b].lp_token,
        decreases pools@.len() - j,
    {
        let mut i: usize = 0;
        while i < j
            invariant
                i <= j < pools@.len(),
                forall|a: int| 0 <= a < i ==> pools@[a].lp_token != pools@[j as int].lp_token,
            decreases j - i,
        {
            if pools[i].lp_token.equals(&pools[j].lp_token) {
                return false;
            }
            i = i + 1;
        }
        j = j + 1;
    }
    true
}

/// The sum of the pools' weights, if it fits in 128 bits.
fn weights_total(pools: &Vec<PoolInfo>) -> (r: Option<u128>)
    ensures
        match r {
            Some(total) => total == weight_sum(pools@),
            None => weight_sum(pools@) > u128::MAX,
        },
{
    let mut total: u128 = 0;
    let mut i: usize = 0;
    proof {
        assert(pools@.take(0) =~= Seq::empty());
    }
    while i < pools.len()
        invariant
            i <= pools@.len(),
            total == weight_sum(pools@.take(i as int)),
        decreases pools@.len() - i,
    {
        proof {
            assert(pools@.take(i + 1).drop_last() =~= pools@.take(i as int));
        }
        total = match total.checked_add(pools[i].alloc_point) {
            Some(total) => total,
            None => {
                proof {
                    lemma_weight_sum_prefix(pools@, i + 1, pools@.len() as int);
                    assert(pools@.take(pools@.len() as int) =~= pools@);
                }
                return None;
            },
        };
        i = i + 1;
    }
    proof {
        assert(pools@.take(pools@.len() as int) =~= pools@);
    }
    Some(total)
}

/// Whether every position belongs to a pool and owes no more reward debt
/// than its stake has earned there.
fn positions_settled(users: &Vec<(Position, UserInfo)>, pools: &Vec<PoolInfo>) -> (r: bool)
    ensures
        r == (forall|i: int|
            0 <= i < users@.len() ==> (#[trigger] users@[i]).0.pid < pools@.len()
                && users@[i].1.reward_debt <= accrued(
                users@[i].1.amount,
                pools@[users@[i].0.pid as int].acc_nsure_per_share,
            )),
{
    let mut i: usize = 0;
    while i < users.len()
        invariant
            i <= users@.len(),
            forall|j: int|
                0 <= j < i ==> (#[trigger] users@[j]).0.pid < pools@.len()
                    && users@[j].1.reward_debt <= accrued(
                    users@[j].1.amount,
                    pools@[users@[j].0.pid as int].acc_nsure_per_share,
                ),
        decreases users@.len() - i,
    {
        let (key, info) = users[i];
        if key.pid as usize >= pools.len() {
            return false;
        }
        match settle(info.amount, pools[key.pid as usize].acc_nsure_per_share) {
            Some(earned) => {
                if info.reward_debt > earned {
                    return false;
                }
            },
            None => {},
        }
        i = i + 1;
    }
    true
}

/// The active stake and the stake pending withdrawal of all positions in the
/// pool `pid`, if both fit in 128 bits.
fn pool_totals(users: &Vec<(Position, UserInfo)>, pid: u32) -> (r: Option<(Balance, Balance)>)
    requires
        distinct_keys(users@),
    ensures
        match r {
            Some((active, pending)) => active == staked_in(entries_map(users@), pid) && pending
                == unstaking_in(entries_map(users@), pid),
            None => staked_in(entries_map(users@), pid) > u128::MAX || unstaking_in(
                entries_map(users@),
                pid,
            ) > u128::MAX,
        },
{
    let mut active: Balance = 0;
    let mut pending: Balance = 0;
    let mut i: usize = 0;
    proof {
        assert(users@.take(0) =~= Seq::empty());
        lemma_map_sum_empty::<Position, UserInfo>(staked_term(pid));
        lemma_map_sum_empty::<Position, UserInfo>(unstaking_term(pid));
    }
    while i < users.len()
        invariant
            i <= users@.len(),
            distinct_keys(users@),
            active == staked_in(entries_map(users@.take(i as int)), pid),
            pending == unstaking_in(entries_map(users@.take(i as int)), pid),
        decreases users@.len() - i,
    {
        proof {
            lemma_entries_sum_step(users@, staked_term(pid), i as int);
            lemma_entries_sum_step(users@, unstaking_term(pid), i as int);
            lemma_entries_sum_prefix(users@, staked_term(pid), i + 1, users@.len() as int);
            lemma_entries_sum_prefix(users@, unstaking_term(pid), i + 1, users@.len() as int);
            assert(users@.take(users@.len() as int) =~= users@);
        }
        let (key, info) = users[i];
        if key.pid == pid {
            active = match active.checked_add(info.amount) {
                Some(active) => active,
                None => {
                    return None;
                },
            };
            pending = match pending.checked_add(info.pending_withdrawal) {
                Some(pending) => pending,
                None => {
                    return None;
                },
            };
        }
        i = i + 1;
    }
    proof {
        assert(users@.take(users@.len() as int) =~= users@);
    }
    Some((active, pending))
}

/// Whether every pool holds the active and the pending stake of its
/// positions, and its pending total is the sum of theirs.
fn pools_balanced(users: &Vec<(Position, UserInfo)>, pools: &Vec<PoolInfo>) -> (r: bool)
    requires
        distinct_keys(users@),
        pools@.len() <= u32::MAX,
    ensures
        r == (forall|pid: u32|
            pid < pools@.len() ==> pools@[pid as int].amount == #[trigger] staked_in(
                entries_map(users@),
                pid,
            ) + unstaking_in(entries_map(users@), pid) && pools@[pid as int].pending
                == unstaking_in(entries_map(users@), pid)),
{
    let mut i: usize = 0;
    while i < pools.len()
        invariant
            i <= pools@.len() <= u32::MAX,
            distinct_keys(users@),
            forall|pid: u32|
                pid < i ==> pools@[pid as int].amount == #[trigger] staked_in(
                    entries_map(users@),
                    pid,
                ) + unstaking_in(entries_map(users@), pid) && pools@[pid as int].pending
                    == unstaking_in(entries_map(users@), pid),
        decreases pools@.len() - i,
    {
        let pool = pools[i];
        let balanced = match pool_totals(users, i as u32) {
            Some((active, pending)) => match active.checked_add(pending) {
                Some(held) => held == pool.amount && pending == pool.pending,
                None => false,
            },
            None => false,
        };
        if !balanced {
            assert(!(pools@[i as int].amount == staked_in(entries_map(users@), i as u32)
                + unstaking_in(entries_map(users@), i as u32) && pools@[i as int].pending
                == unstaking_in(entries_map(users@), i as u32)));
            return false;
        }
        i = i + 1;
    }
    true
}

/// The accumulator of rewards over staking pools.
#[derive(Clone, Debug)]
pub struct CapitalStake {
    signer: AccountId,
    nsure: AccountId,
    nsure_per_block: Balance,
    pending_duration: u64,
    capacity_max: Table<u32, Balance>,
    can_deposit: bool,
    operator: AccountId,
    user_capacity_max: Table<u32, Balance>,
    pool_info: Vec<PoolInfo>,
    user_info: Table<Position, UserInfo>,
    total_alloc_point: u128,
    start_block: BlockNumber,
    owner: AccountId,
}

impl View for CapitalStake {
    type V = StakeView;

    closed spec fn view(&self) -> StakeView {
        StakeView {
            signer: self.signer,
            nsure: self.nsure,
            nsure_per_block: self.nsure_per_block,
            pending_duration: self.pending_duration,
            capacity_max: self.capacity_max@,
            can_deposit: self.can_deposit,
            operator: self.operator,
            user_capacity_max: self.user_capacity_max@,
            pools: self.pool_info@,
            users: self.user_info@,
            total_alloc_point: self.total_alloc_point,
            start_block: self.start_block,
            owner: self.owner,
        }
    }
}

/// What `amount` of stake has earned at the accumulator `acc`, if it fits.
fn settle(amount: Balance, acc: u128) -> (r: Option<Balance>)
    ensures
        match r {
            Some(earned) => earned == accrued(amount, acc),
            None => accrued(amount, acc) > u128::MAX,
        },
{
    mul_div(amount, acc, SCALE)
}

impl CapitalStake {
    /// Every table files each of its keys once.
    pub closed spec fn filed(&self) -> bool {
        &&& self.capacity_max.wf()
        &&& self.user_capacity_max.wf()
        &&& self.user_info.wf()
    }

    /// The invariant that every constructor establishes and every method
    /// keeps: the tables are in order, and the view's invariant holds.
    pub open spec fn wf(&self) -> bool {
        &&& self.filed()
        &&& self@.wf()
    }

    /// An accumulator without pools, owned by `caller`, that pays rewards in
    /// the asset `nsure`; pools earn from `start_block` on.
    pub fn new(caller: AccountId, signer: AccountId, nsure: AccountId, start_block: BlockNumber) -> (r:
        Self)
        ensures
            r.wf(),
            r@ == (StakeView {
                signer,
                nsure,
                nsure_per_block: INITIAL_REWARD_PER_BLOCK,
                pending_duration: INITIAL_PENDING_DURATION,
                capacity_max: Map::empty(),
                can_deposit: true,
                operator: AccountId::zero_spec(),
                user_capacity_max: Map::empty(),
                pools: Seq::empty(),
                users: Map::empty(),
                total_alloc_point: 0,
                start_block,
                owner: caller,
            }),
    {
        let r = CapitalStake {
            signer,
            nsure,
            nsure_per_block: INITIAL_REWARD_PER_BLOCK,
            pending_duration: INITIAL_PENDING_DURATION,
            capacity_max: Table::new(),
            can_deposit: true,
            operator: AccountId::zero(),
            user_capacity_max: Table::new(),
            pool_info: Vec::new(),
            user_info: Table::new(),
            total_alloc_point: 0,
            start_block,
            owner: caller,
        };
        proof {
            assert(r@.pools =~= Seq::empty());
        }
        r
    }

    /// The accumulator's state as plain values.
    pub fn snapshot(&self) -> (r: StakeRecord)
        requires
            self.wf(),
        ensures
            r.valid(),
            r@ == self@,
    {
        let r = StakeRecord {
            signer: self.signer,
            nsure: self.nsure,
            nsure_per_block: self.nsure_per_block,
            pending_duration: self.pending_duration,
            capacity_max: self.capacity_max.to_entries(),
            can_deposit: self.can_deposit,
            operator: self.operator,
            user_capacity_max: self.user_capacity_max.to_entries(),
            pools: self.pool_info.clone(),
            users: self.user_info.to_entries(),
            total_alloc_point: self.total_alloc_point,
            start_block: self.start_block,
            owner: self.owner,
        };
        proof {
            assert(r.pools@ =~= self.pool_info@);
        }
        r
    }

    /// The accumulator whose state `record` holds, where it is the state of
    /// one.
    pub fn restore(record: StakeRecord) -> (r: Option<Self>)
        ensures
            match r {
                Some(stake) => record.valid() && stake.wf() && stake@ == record@,
                None => !record.valid(),
            },
    {
        if !has_distinct_keys(&record.capacity_max) || !has_distinct_keys(
            &record.user_capacity_max,
        ) || !has_distinct_keys(&record.users) {
            return None;
        }
        if record.pools.len() > u32::MAX as usize || !assets_distinct(&record.pools) {
            return None;
        }
        match weights_total(&record.pools) {
            Some(total) => {
                if total != record.total_alloc_point {
                    return None;
                }
            },
            None => {
                return None;
            },
        }
        if !positions_settled(&record.users, &record.pools) {
            proof {
                if record@.wf() {
                    let i = choose|i: int|
                        0 <= i < record.users@.len() && !((#[trigger] record.users@[i]).0.pid
                            < record.pools@.len() && record.users@[i].1.reward_debt <= accrued(
                            record.users@[i].1.amount,
                            record.pools@[record.users@[i].0.pid as int].acc_nsure_per_share,
                        ));
                    lemma_entries_map_index(record.users@, i);
                    assert(record@.users.contains_key(record.users@[i].0));
                }
            }
            return None;
        }
        if !pools_balanced(&record.users, &record.pools) {
            return None;
        }
        proof {
            lemma_entries_map_finite(record.users@);
            assert forall|key: Position| #[trigger]
                record@.users.contains_key(key) implies key.pid < record@.pools.len()
                && record@.users[key].reward_debt <= accrued(
                record@.users[key].amount,
                record@.pools[key.pid as int].acc_nsure_per_share,
            ) by {
                let i = lemma_entries_map_has(record.users@, key);
                assert(record.users@[i].0.pid < record.pools@.len());
            }
        }
        Some(
            CapitalStake {
                signer: record.signer,
                nsure: record.nsure,
                nsure_per_block: record.nsure_per_block,
                pending_duration: record.pending_duration,
                capacity_max: Table::from_distinct(record.capacity_max),
                can_deposit: record.can_deposit,
                operator: record.operator,
                user_capacity_max: Table::from_distinct(record.user_capacity_max),
                pool_info: record.pools,
                user_info: Table::from_distinct(record.users),
                total_alloc_point: record.total_alloc_point,
                start_block: record.start_block,
                owner: record.owner,
            },
        )
    }

    /// The owner.
    pub fn owner(&self) -> (r: Option<AccountId>)
        ensures
            r == Some(self@.owner),
    {
        Some(self.owner)
    }

    /// The asset in which rewards are paid.
    pub fn nsure(&self) -> (r: AccountId)
        ensures
            r == self@.nsure,
    {
        self.nsure
    }

    /// Whether `caller` is the owner.
    pub fn only_owner(&self, caller: AccountId) -> (r: Result<(), StakeError>)
        ensures
            r == self@.only_owner(caller),
    {
        if caller.equals(&self.owner) {
            Ok(())
        } else {
            Err(StakeError::NotOwner)
        }
    }

    /// Whether `caller` is the operator.
    pub fn only_operator(&self, caller: AccountId) -> (r: Result<(), StakeError>)
        ensures
            r == self@.only_operator(caller),
    {
        if caller.equals(&self.operator) {
            Ok(())
        } else {
            Err(StakeError::NotOperator)
        }
    }

    /// The number of pools.
    pub fn pool_length(&self) -> (r: u32)
        requires
            self.wf(),
        ensures
            r == self@.pools.len(),
    {
        self.pool_info.len() as u32
    }

    /// The position of `owner` in the pool `pid`.
    fn user(&self, pid: u32, owner: AccountId) -> (r: UserInfo)
        requires
            self.filed(),
        ensures
            r == self@.user(pid, owner),
    {
        match self.user_info.get(&Position { pid, owner }) {
            Some(info) => info,
            None => UserInfo {
                amount: 0,
                reward_debt: 0,
                reward: 0,
                pending_withdrawal: 0,
                pending_at: 0,
            },
        }
    }

    /// The position of `user` in the pool `pid`: the active stake, the reward
    /// debt, the stake pending withdrawal, the reward field, and the time of
    /// the last unstake.
    pub fn get_user_info(&self, pid: u32, user: AccountId) -> (r: (
        Balance,
        Balance,
        Balance,
        Balance,
        u64,
    ))
        requires
            self.wf(),
        ensures
            r == (
                self@.user(pid, user).amount,
                self@.user(pid, user).reward_debt,
                self@.user(pid, user).pending_withdrawal,
                self@.user(pid, user).reward,
                self@.user(pid, user).pending_at,
            ),
    {
        let info = self.user(pid, user);
        (info.amount, info.reward_debt, info.pending_withdrawal, info.reward, info.pending_at)
    }

    /// The active stake of `caller` in the pool `pid`, if a position was ever
    /// recorded.
    pub fn show_user_info_amount(&self, pid: u32, caller: AccountId) -> (r: Option<Balance>)
        requires
            self.wf(),
        ensures
            r == (if self@.users.contains_key(Position { pid, owner: caller }) {
                Some(self@.users[Position { pid, owner: caller }].amount)
            } else {
                None
            }),
    {
        match self.user_info.get(&Position { pid, owner: caller }) {
            Some(info) => Some(info.amount),
            None => None,
        }
    }

    /// The pool `pid`: its stake, asset, weight, the height it is accrued to,
    /// its accumulator and its pending total.
    pub fn get_pool_info(&self, pid: u32) -> (r: Option<
        (Balance, AccountId, u128, u32, u128, u128),
    >)
        ensures
            r == (if pid < self@.pools.len() {
                Some(
                    (
                        self@.pools[pid as int].amount,
                        self@.pools[pid as int].lp_token,
                        self@.pools[pid as int].alloc_point,
                        self@.pools[pid as int].last_reward_block,
                        self@.pools[pid as int].acc_nsure_per_share,
                        self@.pools[pid as int].pending,
                    ),
                )
            } else {
                None
            }),
    {
        if (pid as usize) < self.pool_info.len() {
            let pool = self.pool_info[pid as usize];
            Some(
                (
                    pool.amount,
                    pool.lp_token,
                    pool.alloc_point,
                    pool.last_reward_block,
                    pool.acc_nsure_per_share,
                    pool.pending,
                ),
            )
        } else {
            None
        }
    }

    /// The height up to which the pool `pid` is accrued.
    pub fn show_pooinfo(&self, pid: u32) -> (r: Option<u32>)
        ensures
            r == (if pid < self@.pools.len() {
                Some(self@.pools[pid as int].last_reward_block)
            } else {
                None
            }),
    {
        if (pid as usize) < self.pool_info.len() {
            Some(self.pool_info[pid as usize].last_reward_block)
        } else {
            None
        }
    }

    /// The limit of the pool `pid`.
    fn capacity(&self, pid: u32) -> (r: Balance)
        requires
            self.filed(),
        ensures
            r == self@.capacity(pid),
    {
        match self.capacity_max.get(&pid) {
            Some(max) => max,
            None => 0,
        }
    }

    /// The owner files the default limits for the first pool.
    pub fn set_default(&mut self, caller: AccountId) -> (r: Result<(), StakeError>)
        requires
            old(self).wf(),
        ensures
            final(self).wf(),
            agrees(old(self)@, final(self)@, old(self)@.set_default(caller), r),
    {
        if !caller.equals(&self.owner) {
            return Err(StakeError::NotOwner);
        }
        self.user_capacity_max.insert(0, DEFAULT_CAPACITY);
        self.capacity_max.insert(0, DEFAULT_CAPACITY);
        Ok(())
    }

    /// The owner names the operator.
    pub fn set_operator(&mut self, caller: AccountId, operator: AccountId) -> (r: Result<
        SetOperator,
        StakeError,
    >)
        requires
            old(self).wf(),
        ensures
            final(self).wf(),
            agrees(old(self)@, final(self)@, old(self)@.set_operator(caller, operator), r),
    {
        if !caller.equals(&self.owner) {
            return Err(StakeError::NotOwner);
        }
        if operator.is_zero() {
            return Err(StakeError::ZeroAccount);
        }
        self.operator = operator;
        Ok(SetOperator { operator })
    }

    /// The owner names the signer.
    pub fn set_signer(&mut self, caller: AccountId, signer: AccountId) -> (r: Result<
        SetSigner,
        StakeError,
    >)
        requires
            old(self).wf(),
        ensures
            final(self).wf(),
            agrees(old(self)@, final(self)@, old(self)@.set_signer(caller, signer), r),
    {
        if !caller.equals(&self.owner) {
            return Err(StakeError::NotOwner);
        }
        if signer.is_zero() {
            return Err(StakeError::ZeroAccount);
        }
        self.signer = signer;
        Ok(SetSigner { signer })
    }

    /// The owner switches deposits on or off.
    pub fn switch_deposit(&mut self, caller: AccountId) -> (r: Result<SwitchDeposit, StakeError>)
        requires
            old(self).wf(),
        ensures
            final(self).wf(),
            agrees(old(self)@, final(self)@, old(self)@.switch_deposit(caller), r),
    {
        if !caller.equals(&self.owner) {
            return Err(StakeError::NotOwner);
        }
        self.can_deposit = !self.can_deposit;
        Ok(SwitchDeposit { swi: self.can_deposit })
    }

    /// The owner sets the limit of one staker in the pool `pid`.
    pub fn set_user_capacity_max(&mut self, caller: AccountId, pid: u32, max: Balance) -> (r: Result<
        SetUserCapacityMax,
        StakeError,
    >)
        requires
            old(self).wf(),
        ensures
            final(self).wf(),
            agrees(old(self)@, final(self)@, old(self)@.set_user_capacity_max(caller, pid, max), r),
    {
        if !caller.equals(&self.owner) {
            return Err(StakeError::NotOwner);
        }
        self.user_capacity_max.insert(pid, max);
        Ok(SetUserCapacityMax { pid, max })
    }

    /// The owner sets the limit of the pool `pid`.
    pub fn set_capacity_max(&mut self, caller: AccountId, pid: u32, max: Balance) -> (r: Result<
        SetCapacityMax,
        StakeError,
    >)
        requires
            old(self).wf(),
        ensures
            final(self).wf(),
            agrees(old(self)@, final(self)@, old(self)@.set_capacity_max(caller, pid, max), r),
    {
        if !caller.equals(&self.owner) {
            return Err(StakeError::NotOwner);
        }
        self.capacity_max.insert(pid, max);
        Ok(SetCapacityMax { pid, max })
    }

    /// The owner sets the emission per height.
    pub fn update_block_reward(&mut self, caller: AccountId, reward: Balance) -> (r: Result<
        UpdateBlockReward,
        StakeError,
    >)
        requires
            old(self).wf(),
        ensures
            final(self).wf(),
            agrees(old(self)@, final(self)@, old(self)@.update_block_reward(caller, reward), r),
    {
        if !caller.equals(&self.owner) {
            return Err(StakeError::NotOwner);
        }
        self.nsure_per_block = reward;
        Ok(UpdateBlockReward { reward })
    }

    /// The owner sets the delay between unstaking and withdrawing.
    pub fn update_withdraw_pending(&mut self, caller: AccountId, seconds: u64) -> (r: Result<
        UpdateWithdrawPending,
        StakeError,
    >)
        requires
            old(self).wf(),
        ensures
            final(self).wf(),
            agrees(old(self)@, final(self)@, old(self)@.update_withdraw_pending(caller, seconds), r),
    {
        if !caller.equals(&self.owner) {
            return Err(StakeError::NotOwner);
        }
        self.pending_duration = seconds;
        Ok(UpdateWithdrawPending { seconds })
    }

    /// The owner hands the accumulator to `new_owner`; `None` keeps it.
    pub fn transfer_ownership(&mut self, caller: AccountId, new_owner: Option<AccountId>) -> (r:
        Result<(), StakeError>)
        requires
            old(self).wf(),
        ensures
            final(self).wf(),
            agrees(old(self)@, final(self)@, old(self)@.transfer_ownership(caller, new_owner), r),
    {
        if !caller.equals(&self.owner) {
            return Err(StakeError::NotOwner);
        }
        if let Some(owner) = new_owner {
            self.owner = owner;
        }
        Ok(())
    }

    /// The heights from `from` to `to`.
    pub fn get_multiplier(from: BlockNumber, to: BlockNumber) -> (r: u128)
        requires
            from <= to,
        ensures
            r == to - from,
    {
        (to - from) as u128
    }

    /// What of the reward `amount` goes to `to` when custody holds
    /// `reward_balance` of the reward asset: all that custody can pay.
    pub fn safe_nsure_transfer(to: AccountId, amount: Balance, reward_balance: Balance) -> (r: Result<
        Balance,
        StakeError,
    >)
        ensures
            r == StakeView::safe_nsure_transfer(to, amount, reward_balance),
    {
        if to.is_zero() {
            return Err(StakeError::ZeroAccount);
        }
        if amount > reward_balance {
            Ok(reward_balance)
        } else {
            Ok(amount)
        }
    }

    /// The pool `pid` brought up to `height`.
    fn updated_pool(&self, pid: u32, height: BlockNumber, facts: PoolFacts) -> (r: Result<
        PoolInfo,
        StakeError,
    >)
        requires
            pid < self@.pools.len(),
        ensures
            r == self@.updated_pool(pid, height, facts),
    {
        let pool = self.pool_info[pid as usize];
        if height <= pool.last_reward_block {
            return Ok(pool);
        }
        if facts.lp_supply == 0 {
            return Ok(PoolInfo { last_reward_block: height, ..pool });
        }
        let elapsed = Self::get_multiplier(pool.last_reward_block, height);
        let reward = match mul_mul_div(
            elapsed,
            self.nsure_per_block,
            pool.alloc_point,
            self.total_alloc_point,
        ) {
            Some(reward) => reward,
            None => {
                return Err(StakeError::Overflow);
            },
        };
        if !facts.minted {
            return Err(StakeError::TransferFailed);
        }
        let gain = match mul_div(reward, SCALE, facts.lp_supply) {
            Some(gain) => gain,
            None => {
                return Err(StakeError::Overflow);
            },
        };
        let acc = match pool.acc_nsure_per_share.checked_add(gain) {
            Some(acc) => acc,
            None => {
                return Err(StakeError::Overflow);
            },
        };
        Ok(PoolInfo { acc_nsure_per_share: acc, last_reward_block: height, ..pool })
    }

    /// The reward that the host has to mint into custody before it brings the
    /// pool `pid` up to `height`; `None` where the pool accrues nothing.
    pub fn reward_due(&self, pid: u32, height: BlockNumber, lp_supply: Balance) -> (r: Result<
        Option<Balance>,
        StakeError,
    >)
        ensures
            r == self@.reward_due(pid, height, lp_supply),
    {
        if pid as usize >= self.pool_info.len() {
            return Err(StakeError::InvalidPool);
        }
        let pool = self.pool_info[pid as usize];
        if height <= pool.last_reward_block || lp_supply == 0 {
            return Ok(None);
        }
        let elapsed = Self::get_multiplier(pool.last_reward_block, height);
        match mul_mul_div(elapsed, self.nsure_per_block, pool.alloc_point, self.total_alloc_point) {
            Some(reward) => Ok(Some(reward)),
            None => Err(StakeError::Overflow),
        }
    }

    /// Brings the pool `pid` up to `height`: where heights have passed and
    /// stake is in custody, the reward for them is added to the accumulator
    /// per unit of stake.
    pub fn update_pool(&mut self, pid: u32, height: BlockNumber, facts: PoolFacts) -> (r: Result<
        (),
        StakeError,
    >)
        requires
            old(self).wf(),
        ensures
            final(self).wf(),
            agrees(old(self)@, final(self)@, old(self)@.update_pool(pid, height, facts), r),
            pid < old(self)@.pools.len() ==> refreshes(
                old(self)@.pools[pid as int],
                final(self)@.pools[pid as int],
            ),
    {
        if pid as usize >= self.pool_info.len() {
            return Err(StakeError::InvalidPool);
        }
        let pool = match self.updated_pool(pid, height, facts) {
            Ok(pool) => pool,
            Err(e) => {
                return Err(e);
            },
        };
        proof {
            self@.lemma_updated_pool_refreshes(pid, height, facts);
            self@.lemma_refreshed_wf(self@.pools.update(pid as int, pool));
        }
        self.pool_info.set(pid as usize, pool);
        Ok(())
    }

    /// Every pool brought up to `height`, each on the facts of its id.
    fn refreshed_pools(&self, height: BlockNumber, facts: &Vec<PoolFacts>) -> (r: Result<
        Vec<PoolInfo>,
        StakeError,
    >)
        requires
            self.wf(),
        ensures
            match r {
                Ok(pools) => self@.mass_update_pools(height, facts@) == Ok::<
                    (StakeView, ()),
                    StakeError,
                >((StakeView { pools: pools@, ..self@ }, ())),
                Err(e) => self@.mass_update_pools(height, facts@) == Err::<
                    (StakeView, ()),
                    StakeError,
                >(e),
            },
    {
        if facts.len() != self.pool_info.len() {
            return Err(StakeError::FactsMismatch);
        }
        let mut pools: Vec<PoolInfo> = Vec::new();
        let mut i: usize = 0;
        while i < self.pool_info.len()
            invariant
                i <= self.pool_info@.len() <= u32::MAX,
                facts@.len() == self.pool_info@.len(),
                self@.pools == self.pool_info@,
                self@.updated_pools(height, facts@, i as nat) == Ok::<Seq<PoolInfo>, StakeError>(
                    pools@,
                ),
            decreases self.pool_info@.len() - i,
        {
            match self.updated_pool(i as u32, height, facts[i]) {
                Ok(pool) => {
                    pools.push(pool);
                },
                Err(e) => {
                    proof {
                        self@.lemma_updated_pools_error(
                            height,
                            facts@,
                            i as nat,
                            self@.pools.len(),
                        );
                    }
                    return Err(e);
                },
            }
            i = i + 1;
        }
        Ok(pools)
    }

    /// Brings every pool up to `height`; `facts` holds what the host saw of
    /// each pool, by pool id. Either all pools are brought up or none.
    pub fn mass_update_pools(&mut self, height: BlockNumber, facts: &Vec<PoolFacts>) -> (r: Result<
        (),
        StakeError,
    >)
        requires
            old(self).wf(),
        ensures
            final(self).wf(),
            agrees(old(self)@, final(self)@, old(self)@.mass_update_pools(height, facts@), r),
    {
        let pools = match self.refreshed_pools(height, facts) {
            Ok(pools) => pools,
            Err(e) => {
                return Err(e);
            },
        };
        proof {
            self@.lemma_mass_update_wf(height, facts@);
        }
        self.pool_info = pools;
        Ok(())
    }

    /// The reward that `user` could claim from the pool `pid` at `height`,
    /// the accrual up to `height` counted in.
    pub fn pending_nsure(&self, pid: u32, user: AccountId, height: BlockNumber, lp_supply: Balance) -> (r:
        Result<Balance, StakeError>)
        requires
            self.wf(),
        ensures
            r == self@.pending_nsure(pid, user, height, lp_supply),
    {
        if pid as usize >= self.pool_info.len() {
            return Err(StakeError::InvalidPool);
        }
        let facts = PoolFacts { lp_supply, minted: true };
        let pool = match self.updated_pool(pid, height, facts) {
            Ok(pool) => pool,
            Err(e) => {
                return Err(e);
            },
        };
        let position = self.user(pid, user);
        proof {
            self@.lemma_updated_pool_refreshes(pid, height, facts);
            self@.lemma_settlement_ready(pid, user, pool);
        }
        match settle(position.amount, pool.acc_nsure_per_share) {
            Some(earned) => Ok(earned - position.reward_debt),
            None => Err(StakeError::Overflow),
        }
    }

    /// Tests a deposit of `amount` into the pool `pid` before any asset
    /// moves. What is refused here, [`Self::deposit`] refuses with the same
    /// error whatever the host then reports.
    pub fn check_deposit(&self, pid: u32, amount: Balance) -> (r: Result<(), StakeError>)
        requires
            self.wf(),
        ensures
            r == self@.deposit_request(pid, amount),
    {
        if !self.can_deposit {
            return Err(StakeError::DepositsDisabled);
        }
        if pid as usize >= self.pool_info.len() {
            return Err(StakeError::InvalidPool);
        }
        let limit = self.capacity(pid);
        match self.pool_info[pid as usize].amount.checked_add(amount) {
            Some(total) => {
                if total > limit {
                    return Err(StakeError::ExceedsCapacity);
                }
            },
            None => {
                return Err(StakeError::ExceedsCapacity);
            },
        }
        Ok(())
    }

    /// Records a deposit of `amount` by `caller` into the pool `pid` at
    /// `height`. `received` says whether the stake reached custody;
    /// `reward_balance` is what custody holds of the reward asset. The second
    /// result is the reward that the host owes the caller.
    pub fn deposit(
        &mut self,
        caller: AccountId,
        height: BlockNumber,
        pid: u32,
        amount: Balance,
        facts: PoolFacts,
        received: bool,
        reward_balance: Balance,
    ) -> (r: Result<(EDeposit, Balance), StakeError>)
        requires
            old(self).wf(),
        ensures
            final(self).wf(),
            agrees(
                old(self)@,
                final(self)@,
                old(self)@.deposit(caller, height, pid, amount, facts, received, reward_balance),
                r,
            ),
    {
        match self.check_deposit(pid, amount) {
            Ok(()) => {},
            Err(e) => {
                return Err(e);
            },
        }
        let pool = match self.updated_pool(pid, height, facts) {
            Ok(pool) => pool,
            Err(e) => {
                return Err(e);
            },
        };
        if !received {
            return Err(StakeError::TransferFailed);
        }
        let position = self.user(pid, caller);
        let acc = pool.acc_nsure_per_share;
        proof {
            self@.lemma_updated_pool_refreshes(pid, height, facts);
            self@.lemma_settlement_ready(pid, caller, pool);
        }
        let staked = position.amount + amount;
        let earned = match settle(position.amount, acc) {
            Some(earned) => earned,
            None => {
                return Err(StakeError::Overflow);
            },
        };
        let debt = match settle(staked, acc) {
            Some(debt) => debt,
            None => {
                return Err(StakeError::Overflow);
            },
        };
        let owed = earned - position.reward_debt;
        let reward = if owed > 0 {
            match Self::safe_nsure_transfer(caller, owed, reward_balance) {
                Ok(reward) => reward,
                Err(e) => {
                    return Err(e);
                },
            }
        } else {
            0
        };
        let info = UserInfo { amount: staked, reward_debt: debt, ..position };
        let credited = PoolInfo { amount: pool.amount + amount, ..pool };
        proof {
            let refreshed = self@.with_pool(pid, pool);
            refreshed.lemma_position_written(pid, caller, info, credited);
            assert(refreshed.with_pool(pid, credited).pools =~= self@.with_pool(
                pid,
                credited,
            ).pools);
        }
        self.pool_info.set(pid as usize, credited);
        self.user_info.insert(Position { pid, owner: caller }, info);
        proof {
            assert(self@ =~= old(self)@.with_pool(pid, credited).with_user(pid, caller, info));
        }
        Ok((EDeposit { user: caller, pid, amount }, reward))
    }

    /// Moves `amount` of the stake of `caller` in the pool `pid` into pending
    /// withdrawal at `height` and `timestamp`, and settles the reward owed.
    /// The second result is the reward that the host owes the caller.
    pub fn unstake(
        &mut self,
        caller: AccountId,
        height: BlockNumber,
        timestamp: u64,
        pid: u32,
        amount: Balance,
        facts: PoolFacts,
        reward_balance: Balance,
    ) -> (r: Result<(Unstake, Balance), StakeError>)
        requires
            old(self).wf(),
        ensures
            final(self).wf(),
            agrees(
                old(self)@,
                final(self)@,
                old(self)@.unstake(caller, height, timestamp, pid, amount, facts, reward_balance),
                r,
            ),
    {
        if pid as usize >= self.pool_info.len() {
            return Err(StakeError::InvalidPool);
        }
        let pool = match self.updated_pool(pid, height, facts) {
            Ok(pool) => pool,
            Err(e) => {
                return Err(e);
            },
        };
        let position = self.user(pid, caller);
        let acc = pool.acc_nsure_per_share;
        if amount > position.amount {
            return Err(StakeError::InsufficientStake);
        }
        proof {
            self@.lemma_updated_pool_refreshes(pid, height, facts);
            self@.lemma_settlement_ready(pid, caller, pool);
        }
        let earned = match settle(position.amount, acc) {
            Some(earned) => earned,
            None => {
                return Err(StakeError::Overflow);
            },
        };
        let reward = match Self::safe_nsure_transfer(
            caller,
            earned - position.reward_debt,
            reward_balance,
        ) {
            Ok(reward) => reward,
            Err(e) => {
                return Err(e);
            },
        };
        let staked = position.amount - amount;
        proof {
            // What remains has earned no more than the whole, which fits.
            lemma_accrued_monotonic(staked, acc, position.amount, acc);
        }
        let debt = match settle(staked, acc) {
            Some(debt) => debt,
            None => {
                return Err(StakeError::Overflow);
            },
        };
        let info = UserInfo {
            amount: staked,
            reward_debt: debt,
            pending_withdrawal: position.pending_withdrawal + amount,
            pending_at: timestamp,
            ..position
        };
        let moved = PoolInfo { pending: pool.pending + amount, ..pool };
        proof {
            let refreshed = self@.with_pool(pid, pool);
            refreshed.lemma_position_written(pid, caller, info, moved);
            assert(refreshed.with_pool(pid, moved).pools =~= self@.with_pool(pid, moved).pools);
        }
        self.pool_info.set(pid as usize, moved);
        self.user_info.insert(Position { pid, owner: caller }, info);
        proof {
            assert(self@ =~= old(self)@.with_pool(pid, moved).with_user(pid, caller, info));
        }
        Ok((Unstake { user: caller, pid, amount }, reward))
    }

    /// Releases at `timestamp` what `caller` has pending in the pool `pid`,
    /// once the delay since the last unstake has passed. The amount in the
    /// returned event is the stake that the host owes the caller.
    pub fn withdraw(&mut self, caller: AccountId, timestamp: u64, pid: u32) -> (r: Result<
        Withdraw,
        StakeError,
    >)
        requires
            old(self).wf(),
        ensures
            final(self).wf(),
            agrees(old(self)@, final(self)@, old(self)@.withdraw(caller, timestamp, pid), r),
    {
        if pid as usize >= self.pool_info.len() {
            return Err(StakeError::InvalidPool);
        }
        let position = self.user(pid, caller);
        if (timestamp as u128) < position.pending_at as u128 + self.pending_duration as u128 {
            return Err(StakeError::StillPending);
        }
        let pool = self.pool_info[pid as usize];
        let amount = position.pending_withdrawal;
        proof {
            self@.lemma_settlement_ready(pid, caller, pool);
        }
        let info = UserInfo { pending_withdrawal: 0, ..position };
        let released = PoolInfo {
            amount: pool.amount - amount,
            pending: pool.pending - amount,
            ..pool
        };
        proof {
            self@.lemma_position_written(pid, caller, info, released);
        }
        self.pool_info.set(pid as usize, released);
        self.user_info.insert(Position { pid, owner: caller }, info);
        proof {
            assert(self@ =~= old(self)@.with_pool(pid, released).with_user(pid, caller, info));
        }
        Ok(Withdraw { user: caller, pid, amount })
    }

    /// Settles at `height` the reward that `caller` is owed in the pool `pid`.
    /// The second result is the reward that the host owes the caller.
    pub fn claim(
        &mut self,
        caller: AccountId,
        height: BlockNumber,
        pid: u32,
        facts: PoolFacts,
        reward_balance: Balance,
    ) -> (r: Result<(Claim, Balance), StakeError>)
        requires
            old(self).wf(),
        ensures
            final(self).wf(),
            agrees(
                old(self)@,
                final(self)@,
                old(self)@.claim(caller, height, pid, facts, reward_balance),
                r,
            ),
    {
        if pid as usize >= self.pool_info.len() {
            return Err(StakeError::InvalidPool);
        }
        let pool = match self.updated_pool(pid, height, facts) {
            Ok(pool) => pool,
            Err(e) => {
                return Err(e);
            },
        };
        let position = self.user(pid, caller);
        proof {
            self@.lemma_updated_pool_refreshes(pid, height, facts);
            self@.lemma_settlement_ready(pid, caller, pool);
        }
        let earned = match settle(position.amount, pool.acc_nsure_per_share) {
            Some(earned) => earned,
            None => {
                return Err(StakeError::Overflow);
            },
        };
        let owed = earned - position.reward_debt;
        let reward = match Self::safe_nsure_transfer(caller, owed, reward_balance) {
            Ok(reward) => reward,
            Err(e) => {
                return Err(e);
            },
        };
        let info = UserInfo { reward_debt: earned, ..position };
        proof {
            let refreshed = self@.with_pool(pid, pool);
            refreshed.lemma_position_written(pid, caller, info, pool);
            assert(refreshed.with_pool(pid, pool).pools =~= self@.with_pool(pid, pool).pools);
        }
        self.pool_info.set(pid as usize, pool);
        self.user_info.insert(Position { pid, owner: caller }, info);
        proof {
            assert(self@ =~= old(self)@.with_pool(pid, pool).with_user(pid, caller, info));
        }
        Ok((Claim { user: caller, pid, amount: owed }, reward))
    }

    /// Whether the stake that `caller` unstaked from the pool `pid` is still
    /// locked at `timestamp`, and for how many seconds.
    pub fn is_pending(&self, caller: AccountId, timestamp: u64, pid: u32) -> (r: (bool, u64))
        requires
            self.wf(),
        ensures
            r == self@.is_pending(caller, timestamp, pid),
    {
        let position = self.user(pid, caller);
        let free = position.pending_at as u128 + self.pending_duration as u128;
        if timestamp as u128 >= free {
            return (false, 0);
        }
        let left = free - timestamp as u128;
        if left > u64::MAX as u128 {
            (true, u64::MAX)
        } else {
            (true, left as u64)
        }
    }

    /// Whether some pool stakes the asset `token`.
    pub fn has_pool_for(&self, token: AccountId) -> (r: bool)
        ensures
            r == self@.has_pool_for(token),
    {
        let mut i: usize = 0;
        while i < self.pool_info.len()
            invariant
                i <= self.pool_info@.len(),
                forall|j: int| 0 <= j < i ==> self.pool_info@[j].lp_token != token,
            decreases self.pool_info@.len() - i,
        {
            if self.pool_info[i].lp_token.equals(&token) {
                assert(self@.pools[i as int].lp_token == token);
                return true;
            }
            i = i + 1;
        }
        false
    }

    /// Tests the adding of a pool for the asset `lp_token` before any ledger
    /// is touched. What is refused here, [`Self::add`] refuses with the same
    /// error.
    pub fn check_add(&self, caller: AccountId, lp_token: AccountId) -> (r: Result<(), StakeError>)
        ensures
            r == self@.add_request(caller, lp_token),
    {
        if !caller.equals(&self.owner) {
            return Err(StakeError::NotOwner);
        }
        if lp_token.is_zero() {
            return Err(StakeError::ZeroAccount);
        }
        if self.has_pool_for(lp_token) {
            return Err(StakeError::DuplicateToken);
        }
        if self.pool_info.len() >= u32::MAX as usize {
            return Err(StakeError::TooManyPools);
        }
        Ok(())
    }

    /// Tests the setting of the weight of the pool `pid` before any ledger is
    /// touched. What is refused here, [`Self::set`] refuses with the same
    /// error.
    pub fn check_set(&self, caller: AccountId, pid: u32) -> (r: Result<(), StakeError>)
        ensures
            r == self@.set_request(caller, pid),
    {
        if !caller.equals(&self.owner) {
            return Err(StakeError::NotOwner);
        }
        if pid as usize >= self.pool_info.len() {
            return Err(StakeError::InvalidPool);
        }
        Ok(())
    }

    /// The owner adds a pool for the asset `lp_token` with the weight
    /// `alloc_point` and the limit `max_capacity`. With `with_update` every
    /// pool is first brought up to `height` on `facts`.
    pub fn add(
        &mut self,
        caller: AccountId,
        height: BlockNumber,
        alloc_point: u128,
        lp_token: AccountId,
        with_update: bool,
        max_capacity: Balance,
        facts: &Vec<PoolFacts>,
    ) -> (r: Result<Add, StakeError>)
        requires
            old(self).wf(),
        ensures
            final(self).wf(),
            agrees(
                old(self)@,
                final(self)@,
                old(self)@.add(
                    caller,
                    height,
                    alloc_point,
                    lp_token,
                    with_update,
                    max_capacity,
                    facts@,
                ),
                r,
            ),
    {
        match self.check_add(caller, lp_token) {
            Ok(()) => {},
            Err(e) => {
                return Err(e);
            },
        }
        let refreshed = if with_update {
            match self.refreshed_pools(height, facts) {
                Ok(pools) => Some(pools),
                Err(e) => {
                    return Err(e);
                },
            }
        } else {
            None
        };
        let total = match self.total_alloc_point.checked_add(alloc_point) {
            Some(total) => total,
            None => {
                return Err(StakeError::Overflow);
            },
        };
        let last_reward_block = if height > self.start_block {
            height
        } else {
            self.start_block
        };
        let pool = PoolInfo {
            amount: 0,
            lp_token,
            alloc_point,
            last_reward_block,
            acc_nsure_per_share: 0,
            pending: 0,
        };
        let pid = self.pool_info.len() as u32;
        proof {
            if with_update {
                self@.lemma_mass_update_wf(height, facts@);
                let state = self@.mass_update_pools(height, facts@)->Ok_0.0;
                assert forall|i: int| 0 <= i < state.pools.len() implies state.pools[i].lp_token
                    != lp_token by {
                    assert(refreshes(self@.pools[i], state.pools[i]));
                }
                state.lemma_pool_added(pool);
            } else {
                self@.lemma_pool_added(pool);
            }
        }
        if let Some(pools) = refreshed {
            self.pool_info = pools;
        }
        self.capacity_max.insert(pid, max_capacity);
        self.total_alloc_point = total;
        self.pool_info.push(pool);
        proof {
            let state = if with_update {
                old(self)@.mass_update_pools(height, facts@)->Ok_0.0
            } else {
                old(self)@
            };
            let added = StakeView {
                total_alloc_point: (state.total_alloc_point + pool.alloc_point) as u128,
                pools: state.pools.push(pool),
                ..state
            };
            assert(self@ =~= old(self)@.add(
                caller,
                height,
                alloc_point,
                lp_token,
                with_update,
                max_capacity,
                facts@,
            )->Ok_0.0);
            added.lemma_invariant_frame(self@);
        }
        Ok(Add { point: alloc_point, token: lp_token, update: with_update })
    }

    /// The owner sets the weight of the pool `pid` to `alloc_point`. With
    /// `with_update` every pool is first brought up to `height` on `facts`.
    pub fn set(
        &mut self,
        caller: AccountId,
        height: BlockNumber,
        pid: u32,
        alloc_point: u128,
        with_update: bool,
        facts: &Vec<PoolFacts>,
    ) -> (r: Result<SetPool, StakeError>)
        requires
            old(self).wf(),
        ensures
            final(self).wf(),
            agrees(
                old(self)@,
                final(self)@,
                old(self)@.set(caller, height, pid, alloc_point, with_update, facts@),
                r,
            ),
    {
        match self.check_set(caller, pid) {
            Ok(()) => {},
            Err(e) => {
                return Err(e);
            },
        }
        let refreshed = if with_update {
            match self.refreshed_pools(height, facts) {
                Ok(pools) => Some(pools),
                Err(e) => {
                    return Err(e);
                },
            }
        } else {
            None
        };
        proof {
            if with_update {
                self@.lemma_mass_update_wf(height, facts@);
            }
        }
        let pool = match &refreshed {
            Some(pools) => pools[pid as usize],
            None => self.pool_info[pid as usize],
        };
        proof {
            lemma_weight_within_sum(self@.pools, pid as int);
        }
        let total = match (self.total_alloc_point - pool.alloc_point).checked_add(alloc_point) {
            Some(total) => total,
            None => {
                return Err(StakeError::Overflow);
            },
        };
        proof {
            if with_update {
                self@.mass_update_pools(height, facts@)->Ok_0.0.lemma_weight_set(pid, alloc_point);
            } else {
                self@.lemma_weight_set(pid, alloc_point);
            }
        }
        if let Some(pools) = refreshed {
            self.pool_info = pools;
        }
        self.total_alloc_point = total;
        self.pool_info.set(pid as usize, PoolInfo { alloc_point, ..pool });
        proof {
            assert(self@ =~= old(self)@.set(
                caller,
                height,
                pid,
                alloc_point,
                with_update,
                facts@,
            )->Ok_0.0);
        }
        Ok(SetPool { pid, point: alloc_point, update: with_update })
    }
}

} // verus!
