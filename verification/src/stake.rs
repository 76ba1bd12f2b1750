//! The reward accumulator: staking pools that share a per-height emission by
//! weight, settled per staker through an accumulated reward per share.

pub mod engine;
pub mod laws;
pub mod model;
pub mod proofs;
pub mod types;

pub use self::engine::{CapitalStake, StakeRecord};
pub use self::model::StakeView;
pub use self::types::{
    Add, Claim, Deposit, EDeposit, PoolFacts, PoolInfo, SetCapacityMax, SetOperator, SetPool,
    SetSigner, SetUserCapacityMax, StakeError, SwitchDeposit, Unstake, UpdateBlockReward,
    UpdateWithdrawPending, UserInfo, Withdraw,
};
