//! The events and the failures of the share converter, and what the host
//! tells it of custody.

use crate::account::{AccountId, Balance};
use crate::kinds::ErrorKind;
use vstd::prelude::*;

verus! {

/// Shares were minted against a deposit.
#[derive(Clone, Copy, Debug, PartialEq, Eq)]
pub struct Mint {
    pub sender: Option<AccountId>,
    pub input: Balance,
    pub amount: Balance,
}

/// Shares were burned against a payout.
#[derive(Clone, Copy, Debug, PartialEq, Eq)]
pub struct Burn {
    pub sender: Option<AccountId>,
    pub amount: Balance,
    pub output: Balance,
}

/// The operator swept custodied funds to an account.
#[derive(Clone, Copy, Debug, PartialEq, Eq)]
pub struct Payouts {
    pub to: Option<AccountId>,
    pub amount: Balance,
}

/// The operator was replaced.
#[derive(Clone, Copy, Debug, PartialEq, Eq)]
pub struct SetOperator {
    pub operator: AccountId,
}

/// The largest single deposit was changed.
#[derive(Clone, Copy, Debug, PartialEq, Eq)]
pub struct SetMaxConvert {
    pub max: Balance,
}

/// Shares moved between accounts; the zero account stands for minting and burning.
#[derive(Clone, Copy, Debug, PartialEq, Eq)]
pub struct Transfer {
    pub from: Option<AccountId>,
    pub to: Option<AccountId>,
    pub value: Balance,
}

/// `spender` may withdraw up to `value` shares from `owner`.
#[derive(Clone, Copy, Debug, PartialEq, Eq)]
pub struct Approval {
    pub owner: AccountId,
    pub spender: AccountId,
    pub value: Balance,
}

/// Why the converter refused a call.
#[derive(Clone, Copy, Debug, PartialEq, Eq, Structural)]
pub enum Error {
    /// The holder has fewer shares than the call needs.
    InsufficientBalance,
    /// More shares would be burned than exist.
    InsufficientSupply,
    /// The spender's allowance is smaller than the amount.
    InsufficientAllowance,
    /// The amount is zero, or no share would be minted for it.
    ZeroAmount,
    /// The deposit is larger than the largest single deposit.
    ExceedsMaxConvert,
    /// The caller never deposited.
    NoDepositHistory,
    /// The caller deposited at this height or later.
    FlashCapitalRejected,
    /// The underlying asset did not reach custody.
    ExternalTransferFailed,
    /// The native value sent with the call is not what the deposit asks for.
    IncorrectValue,
    /// The zero account was named where an account is needed.
    ZeroAccount,
    /// The caller is not the owner.
    NotOwner,
    /// The caller is not the operator.
    NotOperator,
    /// Shares exist but custody holds nothing to price them against.
    EmptyCustody,
    /// A result does not fit in 128 bits.
    Overflow,
}

impl Error {
    /// The class of the failure.
    pub open spec fn kind_spec(self) -> ErrorKind {
        match self {
            Error::NotOwner | Error::NotOperator => ErrorKind::AuthorizationError,
            Error::ExternalTransferFailed => ErrorKind::ExternalTransferFailure,
            Error::EmptyCustody | Error::Overflow => ErrorKind::ArithmeticError,
            _ => ErrorKind::ValidationError,
        }
    }

    /// The class of the failure.
    pub fn kind(&self) -> (r: ErrorKind)
        ensures
            r == self.kind_spec(),
    {
        match self {
            Error::NotOwner | Error::NotOperator => ErrorKind::AuthorizationError,
            Error::ExternalTransferFailed => ErrorKind::ExternalTransferFailure,
            Error::EmptyCustody | Error::Overflow => ErrorKind::ArithmeticError,
            _ => ErrorKind::ValidationError,
        }
    }
}

/// What the host saw of the underlying asset once the deposit had been moved
/// into custody.
#[derive(Clone, Copy, Debug)]
pub struct Custody {
    /// Whether the ledger moved the deposit from the caller into custody.
    pub received: bool,
    /// The balance in custody, the deposit included.
    pub balance: Balance,
    /// The decimals of the underlying asset's ledger.
    pub decimals: u8,
}

/// The decimals of the native asset.
pub const NATIVE_DECIMALS: u32 = 10;

} // verus!
