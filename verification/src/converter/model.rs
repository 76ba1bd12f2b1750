//! The share converter as a mathematical value: its invariant, and what
//! every operation makes of it.

use crate::account::{AccountId, Balance, BlockNumber, Grant};
use crate::converter::types::{
    Approval, Burn, Custody, Error, Mint, Payouts, SetMaxConvert, SetOperator, Transfer,
    NATIVE_DECIMALS,
};
use crate::math::{mul_div_spec, rescaled};
use vstd::arithmetic::power::pow;
use crate::table::map_sum;
use vstd::prelude::*;

verus! {

/// The term of a sum of shares: the shares themselves.
pub open spec fn shares() -> spec_fn(AccountId, Balance) -> nat {
    |who: AccountId, held: Balance| held as nat
}

/// The converter as a mathematical value.
#[verifier::ext_equal]
pub struct ConverterView {
    pub total_supply: Balance,
    pub balances: Map<AccountId, Balance>,
    pub allowances: Map<Grant, Balance>,
    pub name: Option<String>,
    pub symbol: Option<String>,
    pub decimals: u8,
    pub dot: AccountId,
    pub max_convert: Balance,
    pub token: AccountId,
    pub operator: AccountId,
    pub deposit_at: Map<AccountId, BlockNumber>,
    pub owner: AccountId,
}

impl ConverterView {
    /// The shares of `who`; an account that was never credited holds none.
    pub open spec fn balance_of(self, who: AccountId) -> Balance {
        if self.balances.contains_key(who) {
            self.balances[who]
        } else {
            0
        }
    }

    /// What `spender` may still withdraw from `owner`.
    pub open spec fn allowance(self, owner: AccountId, spender: AccountId) -> Balance {
        let grant = Grant { owner, spender };
        if self.allowances.contains_key(grant) {
            self.allowances[grant]
        } else {
            0
        }
    }

    /// The sum of all holders' shares.
    pub open spec fn shares_sum(self) -> nat {
        map_sum(self.balances, shares())
    }

    /// The invariant: the holders' shares add up to the total supply.
    pub open spec fn wf(self) -> bool {
        &&& self.balances.dom().finite()
        &&& self.shares_sum() == self.total_supply
    }

    /// Whether the underlying asset is the chain's native asset.
    pub open spec fn is_native(self) -> bool {
        self.token == self.dot
    }

    /// The state after `amount` was added to the shares of `who`.
    pub open spec fn credited(self, who: AccountId, amount: Balance) -> ConverterView {
        ConverterView {
            balances: self.balances.insert(who, (self.balance_of(who) + amount) as Balance),
            ..self
        }
    }

    /// The state after `amount` was taken from the shares of `who`.
    pub open spec fn debited(self, who: AccountId, amount: Balance) -> ConverterView {
        ConverterView {
            balances: self.balances.insert(who, (self.balance_of(who) - amount) as Balance),
            ..self
        }
    }

    /// Creates `amount` shares for `user`.
    pub open spec fn mint(self, user: AccountId, amount: Balance) -> Result<
        (ConverterView, Transfer),
        Error,
    > {
        if user.is_zero_spec() {
            Err(Error::ZeroAccount)
        } else if amount == 0 {
            Err(Error::ZeroAmount)
        } else if self.total_supply + amount > u128::MAX {
            Err(Error::Overflow)
        } else {
            Ok(
                (
                    ConverterView {
                        total_supply: (self.total_supply + amount) as Balance,
                        ..self.credited(user, amount)
                    },
                    Transfer { from: Some(AccountId::zero_spec()), to: Some(user), value: amount },
                ),
            )
        }
    }

    /// Destroys `amount` shares of `user`.
    pub open spec fn burn(self, user: AccountId, amount: Balance) -> Result<
        (ConverterView, Transfer),
        Error,
    > {
        if self.total_supply < amount {
            Err(Error::InsufficientSupply)
        } else if self.balance_of(user) < amount {
            Err(Error::InsufficientBalance)
        } else {
            Ok(
                (
                    ConverterView {
                        total_supply: (self.total_supply - amount) as Balance,
                        ..self.debited(user, amount)
                    },
                    Transfer { from: Some(user), to: Some(AccountId::zero_spec()), value: amount },
                ),
            )
        }
    }

    /// Moves `value` shares from `from` to `to`.
    pub open spec fn transfer_from_to(self, from: AccountId, to: AccountId, value: Balance) -> Result<
        (ConverterView, Transfer),
        Error,
    > {
        if self.balance_of(from) < value {
            Err(Error::InsufficientBalance)
        } else {
            Ok(
                (
                    self.debited(from, value).credited(to, value),
                    Transfer { from: Some(from), to: Some(to), value },
                ),
            )
        }
    }

    /// Sets what `spender` may withdraw from `owner`.
    pub open spec fn approve(self, owner: AccountId, spender: AccountId, value: Balance) -> Result<
        (ConverterView, Approval),
        Error,
    > {
        Ok(
            (
                ConverterView {
                    allowances: self.allowances.insert(Grant { owner, spender }, value),
                    ..self
                },
                Approval { owner, spender, value },
            ),
        )
    }

    /// Moves `value` shares from `from` to `to` on the allowance that `from`
    /// gave to `caller`, and lowers the allowance by `value`.
    pub open spec fn transfer_from(
        self,
        caller: AccountId,
        from: AccountId,
        to: AccountId,
        value: Balance,
    ) -> Result<(ConverterView, Transfer), Error> {
        if self.allowance(from, caller) < value {
            Err(Error::InsufficientAllowance)
        } else {
            match self.transfer_from_to(from, to, value) {
                Err(e) => Err(e),
                Ok((moved, event)) => Ok(
                    (
                        ConverterView {
                            allowances: moved.allowances.insert(
                                Grant { owner: from, spender: caller },
                                (self.allowance(from, caller) - value) as Balance,
                            ),
                            ..moved
                        },
                        event,
                    ),
                ),
            }
        }
    }

    /// The balance that prices the shares: of the two balances the host can
    /// read, the one of the configured asset.
    pub open spec fn smart_balance(self, native: Balance, ledger: Balance) -> Balance {
        if self.is_native() {
            native
        } else {
            ledger
        }
    }

    /// What a deposit of `amount` is worth while no share exists: the amount
    /// carried from the decimals of the underlying asset to those of the
    /// shares, `amount * 10^share decimals / 10^underlying decimals`, rounded
    /// down. The native asset has [`NATIVE_DECIMALS`].
    pub open spec fn bootstrap_price(self, amount: Balance, underlying_decimals: u8) -> int {
        rescaled(
            amount,
            self.decimals as nat,
            if self.is_native() {
                NATIVE_DECIMALS as nat
            } else {
                underlying_decimals as nat
            },
        )
    }

    /// The shares owed for a deposit of `amount` that is already part of
    /// `custody_balance`. The first deposit is priced by the two assets'
    /// decimals alone, with true powers of ten, and fails where the price
    /// does not fit in 128 bits; later ones are priced by the shares in issue
    /// per unit held before the deposit.
    pub open spec fn mint_amount(
        self,
        amount: Balance,
        custody_balance: Balance,
        underlying_decimals: u8,
    ) -> Result<Balance, Error> {
        if self.total_supply == 0 {
            if self.bootstrap_price(amount, underlying_decimals) > u128::MAX {
                Err(Error::Overflow)
            } else {
                Ok(self.bootstrap_price(amount, underlying_decimals) as Balance)
            }
        } else if custody_balance <= amount {
            Err(Error::EmptyCustody)
        } else {
            match mul_div_spec(
                amount,
                self.total_supply,
                (custody_balance - amount) as Balance,
            ) {
                Some(minted) => Ok(minted),
                None => Err(Error::Overflow),
            }
        }
    }

    /// What can be told of a deposit of `amount` by `caller` before any asset
    /// moves: whether the amount is within bounds, the native value that came
    /// with the call is what the path of the asset asks for, and the caller
    /// is an account.
    pub open spec fn convert_request(self, caller: AccountId, attached: Balance, amount: Balance) -> Result<
        (),
        Error,
    > {
        if amount == 0 {
            Err(Error::ZeroAmount)
        } else if amount > self.max_convert {
            Err(Error::ExceedsMaxConvert)
        } else if !self.is_native() && attached != 0 {
            Err(Error::IncorrectValue)
        } else if self.is_native() && attached != amount {
            Err(Error::IncorrectValue)
        } else if caller.is_zero_spec() {
            Err(Error::ZeroAccount)
        } else {
            Ok(())
        }
    }

    /// A deposit of `amount` by `caller` at `height`: refused as
    /// [`Self::convert_request`] refuses it, then where the asset did not reach
    /// custody, then where no share can be minted for it.
    pub open spec fn convert(
        self,
        caller: AccountId,
        height: BlockNumber,
        attached: Balance,
        amount: Balance,
        custody: Custody,
    ) -> Result<(ConverterView, (Transfer, Mint)), Error> {
        if self.convert_request(caller, attached, amount) is Err {
            Err(self.convert_request(caller, attached, amount)->Err_0)
        } else if !self.is_native() && !custody.received {
            Err(Error::ExternalTransferFailed)
        } else {
            match self.mint_amount(amount, custody.balance, custody.decimals) {
                Err(e) => Err(e),
                Ok(minted) => match self.mint(caller, minted) {
                    Err(e) => Err(e),
                    Ok((credited, event)) => Ok(
                        (
                            ConverterView {
                                deposit_at: self.deposit_at.insert(caller, height),
                                ..credited
                            },
                            (event, Mint { sender: Some(caller), input: amount, amount: minted }),
                        ),
                    ),
                },
            }
        }
    }

    /// A withdrawal of `amount` shares by `caller` at `height`, priced against
    /// `custody_balance`.
    pub open spec fn exit(
        self,
        caller: AccountId,
        height: BlockNumber,
        amount: Balance,
        custody_balance: Balance,
    ) -> Result<(ConverterView, (Transfer, Burn)), Error> {
        if !self.deposit_at.contains_key(caller) {
            Err(Error::NoDepositHistory)
        } else if height <= self.deposit_at[caller] {
            Err(Error::FlashCapitalRejected)
        } else if amount == 0 {
            Err(Error::ZeroAmount)
        } else if self.balance_of(caller) < amount {
            Err(Error::InsufficientBalance)
        } else {
            match mul_div_spec(amount, custody_balance, self.total_supply) {
                None => Err(Error::Overflow),
                Some(output) => match self.burn(caller, amount) {
                    Err(e) => Err(e),
                    Ok((burned, event)) => Ok(
                        (burned, (event, Burn { sender: Some(caller), amount, output })),
                    ),
                },
            }
        }
    }

    /// Whether `caller` is the owner.
    pub open spec fn only_owner(self, caller: AccountId) -> Result<(), Error> {
        if caller == self.owner {
            Ok(())
        } else {
            Err(Error::NotOwner)
        }
    }

    /// Whether `caller` is the operator.
    pub open spec fn only_operator(self, caller: AccountId) -> Result<(), Error> {
        if caller == self.operator {
            Ok(())
        } else {
            Err(Error::NotOperator)
        }
    }

    /// The sweep of `amount` from custody to `to` that the operator asks for.
    pub open spec fn payouts(self, caller: AccountId, to: AccountId, amount: Balance) -> Result<
        Payouts,
        Error,
    > {
        if caller != self.operator {
            Err(Error::NotOperator)
        } else if to.is_zero_spec() {
            Err(Error::ZeroAccount)
        } else {
            Ok(Payouts { to: Some(to), amount })
        }
    }

    /// The owner names the operator.
    pub open spec fn set_operator(self, caller: AccountId, operator: AccountId) -> Result<
        (ConverterView, SetOperator),
        Error,
    > {
        if caller != self.owner {
            Err(Error::NotOwner)
        } else if operator.is_zero_spec() {
            Err(Error::ZeroAccount)
        } else {
            Ok((ConverterView { operator, ..self }, SetOperator { operator }))
        }
    }

    /// The owner sets the largest single deposit.
    pub open spec fn set_max_convert(self, caller: AccountId, max: Balance) -> Result<
        (ConverterView, SetMaxConvert),
        Error,
    > {
        if caller != self.owner {
            Err(Error::NotOwner)
        } else {
            Ok((ConverterView { max_convert: max, ..self }, SetMaxConvert { max }))
        }
    }

    /// The owner replaces the identifier that marks the native asset.
    pub open spec fn set_dot(self, caller: AccountId, new_dot: AccountId) -> Result<
        (ConverterView, ()),
        Error,
    > {
        if caller != self.owner {
            Err(Error::NotOwner)
        } else {
            Ok((ConverterView { dot: new_dot, ..self }, ()))
        }
    }

    /// The owner hands the converter over; `None` keeps it.
    pub open spec fn transfer_ownership(self, caller: AccountId, new_owner: Option<AccountId>) -> Result<
        (ConverterView, ()),
        Error,
    > {
        if caller != self.owner {
            Err(Error::NotOwner)
        } else {
            match new_owner {
                Some(owner) => Ok((ConverterView { owner, ..self }, ())),
                None => Ok((self, ())),
            }
        }
    }
}

/// The identifier that marks the native asset in a fresh converter.
pub open spec fn native_marker() -> AccountId {
    AccountId { bytes: vstd::array::spec_array_fill_for_copy_type::<u8, 32>(0xddu8) }
}

/// The largest single deposit of a fresh converter: ten thousand whole shares,
/// capped at the largest 128-bit value.
pub open spec fn initial_max_convert(decimals: u8) -> Balance {
    if 10000 * pow(10, decimals as nat) > u128::MAX {
        u128::MAX
    } else {
        (10000 * pow(10, decimals as nat)) as Balance
    }
}

} // verus!
