//! The share converter itself, and its state as a record that a host can
//! keep.

use crate::account::{AccountId, Balance, BlockNumber, Grant};
use crate::converter::model::{initial_max_convert, native_marker, shares, ConverterView};
use crate::converter::types::{
    Approval, Burn, Custody, Error, Mint, Payouts, SetMaxConvert, SetOperator, Transfer,
    NATIVE_DECIMALS,
};
use crate::kinds::agrees;
use crate::math::{mul_div, pow10_checked, rescale};
use crate::table::{
    distinct_keys, entries_map, has_distinct_keys, lemma_entries_map_finite,
    lemma_entries_sum_prefix, lemma_entries_sum_step, lemma_map_sum_bounds, lemma_map_sum_empty,
    lemma_map_sum_insert, map_sum, Table,
};
use vstd::prelude::*;

verus! {

/// The converter's state as plain values, for a host that keeps it between
/// calls.
#[derive(Clone, Debug)]
pub struct ConverterRecord {
    pub total_supply: Balance,
    pub balances: Vec<(AccountId, Balance)>,
    pub allowances: Vec<(Grant, Balance)>,
    pub name: Option<String>,
    pub symbol: Option<String>,
    pub decimals: u8,
    pub dot: AccountId,
    pub max_convert: Balance,
    pub token: AccountId,
    pub operator: AccountId,
    pub deposit_at: Vec<(AccountId, BlockNumber)>,
    pub owner: AccountId,
}

impl View for ConverterRecord {
    type V = ConverterView;

    open spec fn view(&self) -> ConverterView {
        ConverterView {
            total_supply: self.total_supply,
            balances: entries_map(self.balances@),
            allowances: entries_map(self.allowances@),
            name: self.name,
            symbol: self.symbol,
            decimals: self.decimals,
            dot: self.dot,
            max_convert: self.max_convert,
            token: self.token,
            operator: self.operator,
            deposit_at: entries_map(self.deposit_at@),
            owner: self.owner,
        }
    }
}

impl ConverterRecord {
    /// Whether the record is the state of a converter: no key is filed twice,
    /// and the holders' shares add up to the total supply.
    pub open spec fn valid(&self) -> bool {
        &&& distinct_keys(self.balances@)
        &&& distinct_keys(self.allowances@)
        &&& distinct_keys(self.deposit_at@)
        &&& self@.shares_sum() == self.total_supply
    }
}

/// The sum of the shares in `entries`, if it fits in 128 bits.
fn shares_total(entries: &Vec<(AccountId, Balance)>) -> (r: Option<Balance>)
    requires
        distinct_keys(entries@),
    ensures
        match r {
            Some(total) => total == map_sum(entries_map(entries@), shares()),
            None => map_sum(entries_map(entries@), shares()) > u128::MAX,
        },
{
    let mut total: Balance = 0;
    let mut i: usize = 0;
    proof {
        assert(entries@.take(0) =~= Seq::empty());
        lemma_map_sum_empty::<AccountId, Balance>(shares());
    }
    while i < entries.len()
        invariant
            i <= entries@.len(),
            distinct_keys(entries@),
            total == map_sum(entries_map(entries@.take(i as int)), shares()),
        decreases entries@.len() - i,
    {
        proof {
            lemma_entries_sum_step(entries@, shares(), i as int);
        }
        total = match total.checked_add(entries[i].1) {
            Some(total) => total,
            None => {
                proof {
                    lemma_entries_sum_prefix(
                        entries@,
                        shares(),
                        i + 1,
                        entries@.len() as int,
                    );
                    assert(entries@.take(entries@.len() as int) =~= entries@);
                }
                return None;
            },
        };
        i = i + 1;
    }
    proof {
        assert(entries@.take(entries@.len() as int) =~= entries@);
    }
    Some(total)
}

/// The share converter.
#[derive(Clone, Debug)]
pub struct CapitalConverter {
    total_supply: Balance,
    balances: Table<AccountId, Balance>,
    allowances: Table<Grant, Balance>,
    name: Option<String>,
    symbol: Option<String>,
    decimals: u8,
    dot: AccountId,
    max_convert: Balance,
    token: AccountId,
    operator: AccountId,
    deposit_at: Table<AccountId, BlockNumber>,
    owner: AccountId,
}

impl View for CapitalConverter {
    type V = ConverterView;

    closed spec fn view(&self) -> ConverterView {
        ConverterView {
            total_supply: self.total_supply,
            balances: self.balances@,
            allowances: self.allowances@,
            name: self.name,
            symbol: self.symbol,
            decimals: self.decimals,
            dot: self.dot,
            max_convert: self.max_convert,
            token: self.token,
            operator: self.operator,
            deposit_at: self.deposit_at@,
            owner: self.owner,
        }
    }
}

impl CapitalConverter {
    /// Every table files each of its keys once.
    pub closed spec fn filed(&self) -> bool {
        &&& self.balances.wf()
        &&& self.allowances.wf()
        &&& self.deposit_at.wf()
    }

    /// The invariant that every constructor establishes and every method
    /// keeps: the tables are in order, and the holders' shares add up to the
    /// total supply.
    pub open spec fn wf(&self) -> bool {
        &&& self.filed()
        &&& self@.wf()
    }

    /// A converter without shares, owned by `caller`, for the asset `token`.
    pub fn new(
        caller: AccountId,
        name: Option<String>,
        symbol: Option<String>,
        decimals: u8,
        token: AccountId,
    ) -> (r: Self)
        ensures
            r.wf(),
            r@ == (ConverterView {
                total_supply: 0,
                balances: Map::empty(),
                allowances: Map::empty(),
                name,
                symbol,
                decimals,
                dot: native_marker(),
                max_convert: initial_max_convert(decimals),
                token,
                operator: AccountId::zero_spec(),
                deposit_at: Map::empty(),
                owner: caller,
            }),
    {
        let max_convert = match pow10_checked(decimals as u32) {
            Some(unit) => match 10000u128.checked_mul(unit) {
                Some(max) => max,
                None => u128::MAX,
            },
            None => u128::MAX,
        };
        proof {
            lemma_map_sum_empty::<AccountId, Balance>(shares());
        }
        CapitalConverter {
            total_supply: 0,
            balances: Table::new(),
            allowances: Table::new(),
            name,
            symbol,
            decimals,
            dot: AccountId::new([0xddu8; 32]),
            max_convert,
            token,
            operator: AccountId::zero(),
            deposit_at: Table::new(),
            owner: caller,
        }
    }

    /// The converter's state as plain values.
    pub fn snapshot(&self) -> (r: ConverterRecord)
        requires
            self.wf(),
        ensures
            r.valid(),
            r@ == self@,
    {
        ConverterRecord {
            total_supply: self.total_supply,
            balances: self.balances.to_entries(),
            allowances: self.allowances.to_entries(),
            name: self.name.clone(),
            symbol: self.symbol.clone(),
            decimals: self.decimals,
            dot: self.dot,
            max_convert: self.max_convert,
            token: self.token,
            operator: self.operator,
            deposit_at: self.deposit_at.to_entries(),
            owner: self.owner,
        }
    }

    /// The converter whose state `record` holds, where it is the state of one.
    pub fn restore(record: ConverterRecord) -> (r: Option<Self>)
        ensures
            match r {
                Some(converter) => record.valid() && converter.wf() && converter@ == record@,
                None => !record.valid(),
            },
    {
        if !has_distinct_keys(&record.balances) || !has_distinct_keys(&record.allowances)
            || !has_distinct_keys(&record.deposit_at) {
            return None;
        }
        match shares_total(&record.balances) {
            Some(total) => {
                if total != record.total_supply {
                    return None;
                }
            },
            None => {
                return None;
            },
        }
        proof {
            lemma_entries_map_finite(record.balances@);
        }
        Some(
            CapitalConverter {
                total_supply: record.total_supply,
                balances: Table::from_distinct(record.balances),
                allowances: Table::from_distinct(record.allowances),
                name: record.name,
                symbol: record.symbol,
                decimals: record.decimals,
                dot: record.dot,
                max_convert: record.max_convert,
                token: record.token,
                operator: record.operator,
                deposit_at: Table::from_distinct(record.deposit_at),
                owner: record.owner,
            },
        )
    }

    /// The total of shares in issue.
    pub fn total_supply(&self) -> (r: Balance)
        ensures
            r == self@.total_supply,
    {
        self.total_supply
    }

    /// The name of the share token.
    pub fn token_name(&self) -> (r: Option<String>)
        ensures
            r == self@.name,
    {
        self.name.clone()
    }

    /// The symbol of the share token.
    pub fn token_symbol(&self) -> (r: Option<String>)
        ensures
            r == self@.symbol,
    {
        self.symbol.clone()
    }

    /// The decimals of the share token.
    pub fn token_decimals(&self) -> (r: u8)
        ensures
            r == self@.decimals,
    {
        self.decimals
    }

    /// The identifier that marks the native asset.
    pub fn dot_account_id(&self) -> (r: AccountId)
        ensures
            r == self@.dot,
    {
        self.dot
    }

    /// The underlying asset.
    pub fn show_token(&self) -> (r: AccountId)
        ensures
            r == self@.token,
    {
        self.token
    }

    /// The owner.
    pub fn owner(&self) -> (r: Option<AccountId>)
        ensures
            r == Some(self@.owner),
    {
        Some(self.owner)
    }

    /// The shares of `owner`.
    pub fn balance_of(&self, owner: AccountId) -> (r: Balance)
        requires
            self.wf(),
        ensures
            r == self@.balance_of(owner),
    {
        match self.balances.get(&owner) {
            Some(held) => held,
            None => 0,
        }
    }

    /// What `spender` may still withdraw from `owner`.
    pub fn allowance(&self, owner: AccountId, spender: AccountId) -> (r: Balance)
        requires
            self.wf(),
        ensures
            r == self@.allowance(owner, spender),
    {
        match self.allowances.get(&Grant { owner, spender }) {
            Some(granted) => granted,
            None => 0,
        }
    }

    /// Creates `amount` shares for `user`.
    pub fn mint(&mut self, user: AccountId, amount: Balance) -> (r: Result<Transfer, Error>)
        requires
            old(self).wf(),
        ensures
            final(self).wf(),
            agrees(old(self)@, final(self)@, old(self)@.mint(user, amount), r),
    {
        if user.is_zero() {
            return Err(Error::ZeroAccount);
        }
        if amount == 0 {
            return Err(Error::ZeroAmount);
        }
        let total = match self.total_supply.checked_add(amount) {
            Some(total) => total,
            None => {
                return Err(Error::Overflow);
            },
        };
        let held = self.balance_of(user);
        proof {
            if self@.balances.contains_key(user) {
                lemma_map_sum_bounds(self@.balances, shares(), user);
            }
            lemma_map_sum_insert(self@.balances, shares(), user, (held + amount) as Balance);
        }
        self.balances.insert(user, held + amount);
        self.total_supply = total;
        proof {
            assert(self@ =~= old(self)@.mint(user, amount)->Ok_0.0);
        }
        Ok(Transfer { from: Some(AccountId::zero()), to: Some(user), value: amount })
    }

    /// Destroys `amount` shares of `user`.
    pub fn burn(&mut self, user: AccountId, amount: Balance) -> (r: Result<Transfer, Error>)
        requires
            old(self).wf(),
        ensures
            final(self).wf(),
            agrees(old(self)@, final(self)@, old(self)@.burn(user, amount), r),
    {
        if self.total_supply < amount {
            return Err(Error::InsufficientSupply);
        }
        let held = self.balance_of(user);
        if held < amount {
            return Err(Error::InsufficientBalance);
        }
        proof {
            lemma_map_sum_insert(self@.balances, shares(), user, (held - amount) as Balance);
        }
        self.balances.insert(user, held - amount);
        self.total_supply = self.total_supply - amount;
        proof {
            assert(self@ =~= old(self)@.burn(user, amount)->Ok_0.0);
        }
        Ok(Transfer { from: Some(user), to: Some(AccountId::zero()), value: amount })
    }

    /// Moves `value` shares from `from` to `to`.
    pub fn transfer_from_to(&mut self, from: AccountId, to: AccountId, value: Balance) -> (r: Result<
        Transfer,
        Error,
    >)
        requires
            old(self).wf(),
        ensures
            final(self).wf(),
            agrees(old(self)@, final(self)@, old(self)@.transfer_from_to(from, to, value), r),
    {
        let from_balance = self.balance_of(from);
        if from_balance < value {
            return Err(Error::InsufficientBalance);
        }
        proof {
            lemma_map_sum_insert(
                self@.balances,
                shares(),
                from,
                (from_balance - value) as Balance,
            );
        }
        self.balances.insert(from, from_balance - value);
        let to_balance = match self.balances.get(&to) {
            Some(held) => held,
            None => 0,
        };
        proof {
            lemma_map_sum_bounds(self@.balances, shares(), from);
            if self@.balances.contains_key(to) {
                lemma_map_sum_bounds(self@.balances, shares(), to);
            }
            lemma_map_sum_insert(self@.balances, shares(), to, (to_balance + value) as Balance);
        }
        self.balances.insert(to, to_balance + value);
        proof {
            assert(self@ =~= old(self)@.transfer_from_to(from, to, value)->Ok_0.0);
        }
        Ok(Transfer { from: Some(from), to: Some(to), value })
    }

    /// Moves `value` shares from `caller` to `to`.
    pub fn transfer(&mut self, caller: AccountId, to: AccountId, value: Balance) -> (r: Result<
        Transfer,
        Error,
    >)
        requires
            old(self).wf(),
        ensures
            final(self).wf(),
            agrees(old(self)@, final(self)@, old(self)@.transfer_from_to(caller, to, value), r),
    {
        self.transfer_from_to(caller, to, value)
    }

    /// Lets `spender` withdraw up to `value` shares from `caller`, replacing
    /// any earlier allowance.
    pub fn approve(&mut self, caller: AccountId, spender: AccountId, value: Balance) -> (r: Result<
        Approval,
        Error,
    >)
        requires
            old(self).wf(),
        ensures
            final(self).wf(),
            agrees(old(self)@, final(self)@, old(self)@.approve(caller, spender, value), r),
    {
        self.allowances.insert(Grant { owner: caller, spender }, value);
        proof {
            assert(self@ =~= old(self)@.approve(caller, spender, value)->Ok_0.0);
        }
        Ok(Approval { owner: caller, spender, value })
    }

    /// Moves `value` shares from `from` to `to` on the allowance that `from`
    /// gave to `caller`.
    pub fn transfer_from(
        &mut self,
        caller: AccountId,
        from: AccountId,
        to: AccountId,
        value: Balance,
    ) -> (r: Result<Transfer, Error>)
        requires
            old(self).wf(),
        ensures
            final(self).wf(),
            agrees(old(self)@, final(self)@, old(self)@.transfer_from(caller, from, to, value), r),
    {
        let allowance = self.allowance(from, caller);
        if allowance < value {
            return Err(Error::InsufficientAllowance);
        }
        let event = match self.transfer_from_to(from, to, value) {
            Ok(event) => event,
            Err(e) => {
                return Err(e);
            },
        };
        self.allowances.insert(Grant { owner: from, spender: caller }, allowance - value);
        proof {
            assert(self@ =~= old(self)@.transfer_from(caller, from, to, value)->Ok_0.0);
        }
        Ok(event)
    }

    /// Whether the underlying asset is the chain's native asset, so that
    /// deposits come with the call and payouts are native transfers.
    pub fn is_native(&self) -> (r: bool)
        ensures
            r == self@.is_native(),
    {
        self.token.equals(&self.dot)
    }

    /// The balance that prices the shares: `native` where the underlying asset
    /// is the native one, `ledger` otherwise.
    pub fn smart_balance(&self, native: Balance, ledger: Balance) -> (r: Balance)
        ensures
            r == self@.smart_balance(native, ledger),
    {
        if self.token.equals(&self.dot) {
            native
        } else {
            ledger
        }
    }

    /// The shares owed for a deposit of `deposit_amount` that is already part
    /// of `custody_balance`.
    pub fn calculate_mint_amount(
        &self,
        deposit_amount: Balance,
        custody_balance: Balance,
        underlying_decimals: u8,
    ) -> (r: Result<Balance, Error>)
        ensures
            r == self@.mint_amount(deposit_amount, custody_balance, underlying_decimals),
    {
        if self.total_supply == 0 {
            let base = if self.token.equals(&self.dot) {
                NATIVE_DECIMALS
            } else {
                underlying_decimals as u32
            };
            return match rescale(deposit_amount, self.decimals as u32, base) {
                Some(minted) => Ok(minted),
                None => Err(Error::Overflow),
            };
        }
        if custody_balance <= deposit_amount {
            return Err(Error::EmptyCustody);
        }
        match mul_div(deposit_amount, self.total_supply, custody_balance - deposit_amount) {
            Some(minted) => Ok(minted),
            None => Err(Error::Overflow),
        }
    }

    /// The largest single deposit.
    pub fn max_convert(&self) -> (r: Balance)
        ensures
            r == self@.max_convert,
    {
        self.max_convert
    }

    /// Tests a deposit of `amount` by `caller` before any asset moves. What
    /// is refused here, [`Self::convert`] refuses with the same error whatever
    /// the host then reports of custody.
    pub fn check_convert(&self, caller: AccountId, attached: Balance, amount: Balance) -> (r: Result<
        (),
        Error,
    >)
        ensures
            r == self@.convert_request(caller, attached, amount),
    {
        if amount == 0 {
            return Err(Error::ZeroAmount);
        }
        if amount > self.max_convert {
            return Err(Error::ExceedsMaxConvert);
        }
        if self.token.equals(&self.dot) {
            if attached != amount {
                return Err(Error::IncorrectValue);
            }
        } else if attached != 0 {
            return Err(Error::IncorrectValue);
        }
        if caller.is_zero() {
            return Err(Error::ZeroAccount);
        }
        Ok(())
    }

    /// Takes a deposit of `amount` from `caller` at `height` and mints the
    /// shares it is worth. `attached` is the native value that came with the
    /// call; `custody` is what the host saw after it had moved the deposit.
    pub fn convert(
        &mut self,
        caller: AccountId,
        height: BlockNumber,
        attached: Balance,
        amount: Balance,
        custody: Custody,
    ) -> (r: Result<(Transfer, Mint), Error>)
        requires
            old(self).wf(),
        ensures
            final(self).wf(),
            agrees(
                old(self)@,
                final(self)@,
                old(self)@.convert(caller, height, attached, amount, custody),
                r,
            ),
    {
        match self.check_convert(caller, attached, amount) {
            Ok(()) => {},
            Err(e) => {
                return Err(e);
            },
        }
        if !self.token.equals(&self.dot) && !custody.received {
            return Err(Error::ExternalTransferFailed);
        }
        let minted = match self.calculate_mint_amount(amount, custody.balance, custody.decimals) {
            Ok(minted) => minted,
            Err(e) => {
                return Err(e);
            },
        };
        let event = match self.mint(caller, minted) {
            Ok(event) => event,
            Err(e) => {
                return Err(e);
            },
        };
        self.deposit_at.insert(caller, height);
        proof {
            assert(self@ =~= old(self)@.convert(caller, height, attached, amount, custody)->Ok_0.0);
        }
        Ok((event, Mint { sender: Some(caller), input: amount, amount: minted }))
    }

    /// Burns `amount` shares of `caller` at `height` against their part of
    /// `custody_balance`. The payout in the returned [`Burn`] is what the host
    /// owes the caller.
    pub fn exit(
        &mut self,
        caller: AccountId,
        height: BlockNumber,
        amount: Balance,
        custody_balance: Balance,
    ) -> (r: Result<(Transfer, Burn), Error>)
        requires
            old(self).wf(),
        ensures
            final(self).wf(),
            agrees(
                old(self)@,
                final(self)@,
                old(self)@.exit(caller, height, amount, custody_balance),
                r,
            ),
    {
        let last = match self.deposit_at.get(&caller) {
            Some(last) => last,
            None => {
                return Err(Error::NoDepositHistory);
            },
        };
        if height <= last {
            return Err(Error::FlashCapitalRejected);
        }
        if amount == 0 {
            return Err(Error::ZeroAmount);
        }
        if self.balance_of(caller) < amount {
            return Err(Error::InsufficientBalance);
        }
        let output = match mul_div(amount, custody_balance, self.total_supply) {
            Some(output) => output,
            None => {
                return Err(Error::Overflow);
            },
        };
        let event = match self.burn(caller, amount) {
            Ok(event) => event,
            Err(e) => {
                return Err(e);
            },
        };
        Ok((event, Burn { sender: Some(caller), amount, output }))
    }

    /// The sweep of `amount` from custody to `to`, which only the operator may
    /// ask for. The converter's own state does not change.
    pub fn payouts(&self, caller: AccountId, to: AccountId, amount: Balance) -> (r: Result<
        Payouts,
        Error,
    >)
        ensures
            r == self@.payouts(caller, to, amount),
    {
        if !caller.equals(&self.operator) {
            return Err(Error::NotOperator);
        }
        if to.is_zero() {
            return Err(Error::ZeroAccount);
        }
        Ok(Payouts { to: Some(to), amount })
    }

    /// The owner names the operator.
    pub fn set_operator(&mut self, caller: AccountId, operator: AccountId) -> (r: Result<
        SetOperator,
        Error,
    >)
        requires
            old(self).wf(),
        ensures
            final(self).wf(),
            agrees(old(self)@, final(self)@, old(self)@.set_operator(caller, operator), r),
    {
        if !caller.equals(&self.owner) {
            return Err(Error::NotOwner);
        }
        if operator.is_zero() {
            return Err(Error::ZeroAccount);
        }
        self.operator = operator;
        Ok(SetOperator { operator })
    }

    /// The owner sets the largest single deposit.
    pub fn set_max_convert(&mut self, caller: AccountId, max: Balance) -> (r: Result<
        SetMaxConvert,
        Error,
    >)
        requires
            old(self).wf(),
        ensures
            final(self).wf(),
            agrees(old(self)@, final(self)@, old(self)@.set_max_convert(caller, max), r),
    {
        if !caller.equals(&self.owner) {
            return Err(Error::NotOwner);
        }
        self.max_convert = max;
        Ok(SetMaxConvert { max })
    }

    /// The owner hands the converter to `new_owner`; `None` keeps it.
    pub fn transfer_ownership(&mut self, caller: AccountId, new_owner: Option<AccountId>) -> (r:
        Result<(), Error>)
        requires
            old(self).wf(),
        ensures
            final(self).wf(),
            agrees(old(self)@, final(self)@, old(self)@.transfer_ownership(caller, new_owner), r),
    {
        if !caller.equals(&self.owner) {
            return Err(Error::NotOwner);
        }
        if let Some(owner) = new_owner {
            self.owner = owner;
        }
        Ok(())
    }

    /// The owner replaces the identifier that marks the native asset.
    pub fn set_dot(&mut self, caller: AccountId, new_dot: AccountId) -> (r: Result<(), Error>)
        requires
            old(self).wf(),
        ensures
            final(self).wf(),
            agrees(old(self)@, final(self)@, old(self)@.set_dot(caller, new_dot), r),
    {
        if !caller.equals(&self.owner) {
            return Err(Error::NotOwner);
        }
        self.dot = new_dot;
        Ok(())
    }

    /// Whether `caller` is the owner.
    pub fn only_owner(&self, caller: AccountId) -> (r: Result<(), Error>)
        ensures
            r == self@.only_owner(caller),
    {
        if caller.equals(&self.owner) {
            Ok(())
        } else {
            Err(Error::NotOwner)
        }
    }

    /// Whether `caller` is the operator.
    pub fn only_operator(&self, caller: AccountId) -> (r: Result<(), Error>)
        ensures
            r == self@.only_operator(caller),
    {
        if caller.equals(&self.operator) {
            Ok(())
        } else {
            Err(Error::NotOperator)
        }
    }
}

} // verus!
