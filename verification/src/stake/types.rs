//! The events, the records and the failures of the reward accumulator.

use crate::account::{AccountId, Balance, BlockNumber};
use crate::kinds::ErrorKind;
use crate::math::SCALE;
use vstd::prelude::*;

verus! {

/// A stake was recorded.
#[derive(Clone, Copy, Debug, PartialEq, Eq)]
pub struct Deposit {
    pub user: AccountId,
    pub pid: u32,
    pub amount: Balance,
}

/// The operator was replaced.
#[derive(Clone, Copy, Debug, PartialEq, Eq)]
pub struct SetOperator {
    pub operator: AccountId,
}

/// The signer was replaced.
#[derive(Clone, Copy, Debug, PartialEq, Eq)]
pub struct SetSigner {
    pub signer: AccountId,
}

/// Deposits were switched on or off.
#[derive(Clone, Copy, Debug, PartialEq, Eq)]
pub struct SwitchDeposit {
    pub swi: bool,
}

/// The limit of one staker in a pool was set.
#[derive(Clone, Copy, Debug, PartialEq, Eq)]
pub struct SetUserCapacityMax {
    pub pid: u32,
    pub max: Balance,
}

/// The limit of a pool was set.
#[derive(Clone, Copy, Debug, PartialEq, Eq)]
pub struct SetCapacityMax {
    pub pid: u32,
    pub max: Balance,
}

/// The emission per height was set.
#[derive(Clone, Copy, Debug, PartialEq, Eq)]
pub struct UpdateBlockReward {
    pub reward: Balance,
}

/// The delay between unstaking and withdrawing was set.
#[derive(Clone, Copy, Debug, PartialEq, Eq)]
pub struct UpdateWithdrawPending {
    pub seconds: u64,
}

/// A pool was added.
#[derive(Clone, Copy, Debug, PartialEq, Eq)]
pub struct Add {
    pub point: u128,
    pub token: AccountId,
    pub update: bool,
}

/// The weight of a pool was set.
#[derive(Clone, Copy, Debug, PartialEq, Eq)]
pub struct SetPool {
    pub pid: u32,
    pub point: u128,
    pub update: bool,
}

/// A staker deposited into a pool.
#[derive(Clone, Copy, Debug, PartialEq, Eq)]
pub struct EDeposit {
    pub user: AccountId,
    pub pid: u32,
    pub amount: Balance,
}

/// A staker moved stake into pending withdrawal.
#[derive(Clone, Copy, Debug, PartialEq, Eq)]
pub struct Unstake {
    pub user: AccountId,
    pub pid: u32,
    pub amount: Balance,
}

/// A staker withdrew what was pending.
#[derive(Clone, Copy, Debug, PartialEq, Eq)]
pub struct Withdraw {
    pub user: AccountId,
    pub pid: u32,
    pub amount: Balance,
}

/// A staker claimed the reward owed.
#[derive(Clone, Copy, Debug, PartialEq, Eq)]
pub struct Claim {
    pub user: AccountId,
    pub pid: u32,
    pub amount: Balance,
}

/// One staker's position in one pool.
#[derive(Clone, Copy, Debug, PartialEq, Eq)]
pub struct UserInfo {
    /// The stake that earns reward.
    pub amount: Balance,
    /// The reward already settled for the stake at the pool's accumulator.
    pub reward_debt: u128,
    pub reward: Balance,
    /// The stake that waits to be withdrawn.
    pub pending_withdrawal: Balance,
    /// When the staker last unstaked.
    pub pending_at: u64,
}

/// One staking pool.
#[derive(Clone, Copy, Debug, PartialEq, Eq)]
pub struct PoolInfo {
    /// The stake in custody, pending withdrawals included.
    pub amount: Balance,
    /// The asset that is staked.
    pub lp_token: AccountId,
    /// The pool's weight in the emission.
    pub alloc_point: u128,
    /// The height up to which reward has been accrued.
    pub last_reward_block: BlockNumber,
    /// The reward accrued per unit of stake, scaled by [`SCALE`].
    pub acc_nsure_per_share: u128,
    /// The stake that waits to be withdrawn.
    pub pending: u128,
}

/// Why the accumulator refused a call.
#[derive(Clone, Copy, Debug, PartialEq, Eq, Structural)]
pub enum StakeError {
    /// Deposits are switched off.
    DepositsDisabled,
    /// No pool has this id.
    InvalidPool,
    /// The pool would hold more than its limit.
    ExceedsCapacity,
    /// The staker has less stake than the call asks for.
    InsufficientStake,
    /// A pool for this asset exists already.
    DuplicateToken,
    /// The zero account was named where an account is needed.
    ZeroAccount,
    /// The delay since the last unstake has not passed.
    StillPending,
    /// The host did not report on every pool.
    FactsMismatch,
    /// No further pool id is left.
    TooManyPools,
    /// The caller is not the owner.
    NotOwner,
    /// The caller is not the operator.
    NotOperator,
    /// A ledger did not carry out a transfer or a mint that the call depends on.
    TransferFailed,
    /// A result does not fit, or the weights add up to zero.
    Overflow,
}

impl StakeError {
    /// The class of the failure.
    pub open spec fn kind_spec(self) -> ErrorKind {
        match self {
            StakeError::NotOwner | StakeError::NotOperator => ErrorKind::AuthorizationError,
            StakeError::TransferFailed => ErrorKind::ExternalTransferFailure,
            StakeError::Overflow => ErrorKind::ArithmeticError,
            _ => ErrorKind::ValidationError,
        }
    }

    /// The class of the failure.
    pub fn kind(&self) -> (r: ErrorKind)
        ensures
            r == self.kind_spec(),
    {
        match self {
            StakeError::NotOwner | StakeError::NotOperator => ErrorKind::AuthorizationError,
            StakeError::TransferFailed => ErrorKind::ExternalTransferFailure,
            StakeError::Overflow => ErrorKind::ArithmeticError,
            _ => ErrorKind::ValidationError,
        }
    }
}

/// What the host saw of a pool's ledgers before it called.
#[derive(Clone, Copy, Debug)]
pub struct PoolFacts {
    /// The pool's stake asset in custody.
    pub lp_supply: Balance,
    /// Whether the reward ledger minted the reward that is due to the pool.
    pub minted: bool,
}

/// The emission per height of a fresh accumulator.
pub const INITIAL_REWARD_PER_BLOCK: Balance = 180_000_000_000;

/// The delay between unstaking and withdrawing of a fresh accumulator.
pub const INITIAL_PENDING_DURATION: u64 = 10;

/// The limits that `set_default` files for the first pool.
pub const DEFAULT_CAPACITY: Balance = 99_999_999_999_999;

} // verus!
