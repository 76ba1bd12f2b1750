//! What holds of the share converter across its operations.

use crate::account::{AccountId, Balance, BlockNumber};
use crate::converter::model::{shares, ConverterView};
use crate::converter::types::{Burn, Custody, Error, Transfer, NATIVE_DECIMALS};
use vstd::arithmetic::power::{lemma_pow_positive, pow};
use crate::table::{lemma_map_sum_bounds, lemma_map_sum_insert};
use vstd::prelude::*;

verus! {

impl ConverterView {
    /// Crediting an account raises the sum of shares by the amount credited.
    pub proof fn lemma_credited_sum(self, who: AccountId, amount: Balance)
        requires
            self.balances.dom().finite(),
            self.balance_of(who) + amount <= u128::MAX,
        ensures
            self.credited(who, amount).balances.dom().finite(),
            self.credited(who, amount).shares_sum() == self.shares_sum() + amount,
    {
        lemma_map_sum_insert(
            self.balances,
            shares(),
            who,
            (self.balance_of(who) + amount) as Balance,
        );
    }

    /// Debiting an account lowers the sum of shares by the amount debited.
    pub proof fn lemma_debited_sum(self, who: AccountId, amount: Balance)
        requires
            self.balances.dom().finite(),
            amount <= self.balance_of(who),
        ensures
            self.debited(who, amount).balances.dom().finite(),
            self.debited(who, amount).shares_sum() + amount == self.shares_sum(),
    {
        lemma_map_sum_insert(
            self.balances,
            shares(),
            who,
            (self.balance_of(who) - amount) as Balance,
        );
    }

    /// No holder has more shares than exist.
    pub proof fn lemma_balance_within_supply(self, who: AccountId)
        requires
            self.wf(),
        ensures
            self.balance_of(who) <= self.total_supply,
    {
        if self.balances.contains_key(who) {
            lemma_map_sum_bounds(self.balances, shares(), who);
        }
    }

    /// Minting keeps the holders' shares equal to the total supply.
    pub proof fn lemma_mint_keeps_sum(self, user: AccountId, amount: Balance)
        requires
            self.wf(),
            self.mint(user, amount) is Ok,
        ensures
            self.mint(user, amount)->Ok_0.0.wf(),
    {
        self.lemma_balance_within_supply(user);
        self.lemma_credited_sum(user, amount);
    }

    /// Burning keeps the holders' shares equal to the total supply.
    pub proof fn lemma_burn_keeps_sum(self, user: AccountId, amount: Balance)
        requires
            self.wf(),
            self.burn(user, amount) is Ok,
        ensures
            self.burn(user, amount)->Ok_0.0.wf(),
    {
        self.lemma_debited_sum(user, amount);
    }

    /// Moving shares between holders keeps their sum, and so the invariant.
    pub proof fn lemma_transfer_keeps_sum(self, from: AccountId, to: AccountId, value: Balance)
        requires
            self.wf(),
            self.transfer_from_to(from, to, value) is Ok,
        ensures
            self.transfer_from_to(from, to, value)->Ok_0.0.wf(),
    {
        self.lemma_debited_sum(from, value);
        let debited = self.debited(from, value);
        if debited.balances.contains_key(to) {
            lemma_map_sum_bounds(debited.balances, shares(), to);
        }
        debited.lemma_credited_sum(to, value);
    }

    /// After every deposit the holders' shares add up to the total supply.
    pub proof fn lemma_convert_keeps_sum(
        self,
        caller: AccountId,
        height: BlockNumber,
        attached: Balance,
        amount: Balance,
        custody: Custody,
    )
        requires
            self.wf(),
            self.convert(caller, height, attached, amount, custody) is Ok,
        ensures
            self.convert(caller, height, attached, amount, custody)->Ok_0.0.wf(),
    {
        let minted = self.mint_amount(amount, custody.balance, custody.decimals)->Ok_0;
        self.lemma_mint_keeps_sum(caller, minted);
    }

    /// After every withdrawal the holders' shares add up to the total supply.
    pub proof fn lemma_exit_keeps_sum(
        self,
        caller: AccountId,
        height: BlockNumber,
        amount: Balance,
        custody_balance: Balance,
    )
        requires
            self.wf(),
            self.exit(caller, height, amount, custody_balance) is Ok,
        ensures
            self.exit(caller, height, amount, custody_balance)->Ok_0.0.wf(),
    {
        self.lemma_burn_keeps_sum(caller, amount);
    }

    /// What the test before the deposit refuses, the deposit refuses with the
    /// same error, whatever the host reports of custody.
    pub proof fn lemma_convert_refused_beforehand(
        self,
        caller: AccountId,
        height: BlockNumber,
        attached: Balance,
        amount: Balance,
        custody: Custody,
    )
        requires
            self.convert_request(caller, attached, amount) is Err,
        ensures
            self.convert(caller, height, attached, amount, custody) is Err,
            self.convert(caller, height, attached, amount, custody)->Err_0
                == self.convert_request(caller, attached, amount)->Err_0,
    {
    }

    /// A withdrawal at the height of the caller's deposit, or before it, is
    /// rejected as flash capital, whatever amount it asks for.
    pub proof fn lemma_exit_at_deposit_height_rejected(
        self,
        caller: AccountId,
        height: BlockNumber,
        attached: Balance,
        amount: Balance,
        custody: Custody,
        exit_height: BlockNumber,
        exit_amount: Balance,
        exit_balance: Balance,
    )
        requires
            self.convert(caller, height, attached, amount, custody) is Ok,
            exit_height <= height,
        ensures
            self.convert(caller, height, attached, amount, custody)->Ok_0.0.exit(
                caller,
                exit_height,
                exit_amount,
                exit_balance,
            ) == Err::<(ConverterView, (Transfer, Burn)), Error>(Error::FlashCapitalRejected),
    {
    }

    /// While no share exists, a deposit is priced by the decimals of the two
    /// assets alone, `amount * 10^share decimals / 10^underlying decimals`
    /// rounded down, and fails where that does not fit in 128 bits: the
    /// balance in custody has no part in it.
    pub proof fn lemma_bootstrap_price(
        self,
        amount: Balance,
        custody_balance: Balance,
        other_balance: Balance,
        underlying_decimals: u8,
    )
        requires
            self.total_supply == 0,
        ensures
            self.mint_amount(amount, custody_balance, underlying_decimals) == self.mint_amount(
                amount,
                other_balance,
                underlying_decimals,
            ),
            0 <= self.bootstrap_price(amount, underlying_decimals),
            self.bootstrap_price(amount, underlying_decimals) <= u128::MAX ==> self.mint_amount(
                amount,
                custody_balance,
                underlying_decimals,
            ) == Ok::<Balance, Error>(self.bootstrap_price(amount, underlying_decimals) as Balance),
            self.bootstrap_price(amount, underlying_decimals) > u128::MAX ==> self.mint_amount(
                amount,
                custody_balance,
                underlying_decimals,
            ) == Err::<Balance, Error>(Error::Overflow),
    {
        let unit = pow(10, self.decimals as nat);
        let base = pow(
            10,
            if self.is_native() {
                NATIVE_DECIMALS as nat
            } else {
                underlying_decimals as nat
            },
        );
        lemma_pow_positive(10, self.decimals as nat);
        lemma_pow_positive(
            10,
            if self.is_native() {
                NATIVE_DECIMALS as nat
            } else {
                underlying_decimals as nat
            },
        );
        assert(0 <= amount * unit) by (nonlinear_arith)
            requires
                0 <= amount,
                0 < unit,
        ;
        vstd::arithmetic::div_mod::lemma_div_pos_is_pos(amount * unit, base);
    }

    /// The first deposit mints what it is worth: the shares of the depositor
    /// and the total supply are both the price of the deposit.
    pub proof fn lemma_bootstrap_mints_price(
        self,
        caller: AccountId,
        height: BlockNumber,
        attached: Balance,
        amount: Balance,
        custody: Custody,
    )
        requires
            self.wf(),
            self.total_supply == 0,
            self.convert(caller, height, attached, amount, custody) is Ok,
        ensures
            self.convert(caller, height, attached, amount, custody)->Ok_0.0.total_supply
                == self.bootstrap_price(amount, custody.decimals),
            self.convert(caller, height, attached, amount, custody)->Ok_0.0.balance_of(caller)
                == self.bootstrap_price(amount, custody.decimals),
            self.convert(caller, height, attached, amount, custody)->Ok_0.1.1.amount
                == self.bootstrap_price(amount, custody.decimals),
    {
        self.lemma_balance_within_supply(caller);
        self.lemma_bootstrap_price(amount, custody.balance, custody.balance, custody.decimals);
        let minted = self.mint_amount(amount, custody.balance, custody.decimals)->Ok_0;
        let credited = self.mint(caller, minted)->Ok_0.0;
        let after = self.convert(caller, height, attached, amount, custody)->Ok_0.0;
        assert(credited.total_supply == minted);
        assert(credited.balances.contains_key(caller));
        assert(credited.balance_of(caller) == minted);
        assert(after.total_supply == credited.total_supply);
        assert(after.balances == credited.balances);
    }

    /// A holder who deposited at an earlier height can always withdraw shares
    /// they hold: the payout is their part of custody, rounded down, and never
    /// more than custody holds.
    pub proof fn lemma_exit_pays_share(
        self,
        caller: AccountId,
        height: BlockNumber,
        amount: Balance,
        custody_balance: Balance,
    )
        requires
            self.wf(),
            self.deposit_at.contains_key(caller),
            self.deposit_at[caller] < height,
            0 < amount <= self.balance_of(caller),
        ensures
            self.exit(caller, height, amount, custody_balance) is Ok,
            self.exit(caller, height, amount, custody_balance)->Ok_0.1.1.output == (amount
                * custody_balance) / (self.total_supply as int),
            self.exit(caller, height, amount, custody_balance)->Ok_0.1.1.output
                <= custody_balance,
    {
        self.lemma_balance_within_supply(caller);
        lemma_part_within_whole(amount as int, custody_balance as int, self.total_supply as int);
    }
}

/// A part of a whole, taken in proportion and rounded down, is within the whole.
pub proof fn lemma_part_within_whole(part: int, whole: int, total: int)
    requires
        0 <= part <= total,
        0 < total,
        0 <= whole,
    ensures
        0 <= (part * whole) / total <= whole,
{
    assert(part * whole <= total * whole) by (nonlinear_arith)
        requires
            0 <= part <= total,
            0 <= whole,
    ;
    assert(0 <= part * whole) by (nonlinear_arith)
        requires
            0 <= part,
            0 <= whole,
    ;
    vstd::arithmetic::div_mod::lemma_div_is_ordered(part * whole, total * whole, total);
    vstd::arithmetic::div_mod::lemma_div_multiples_vanish(whole, total);
    vstd::arithmetic::div_mod::lemma_div_pos_is_pos(part * whole, total);
}

} // verus!
