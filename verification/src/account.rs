//! Account identifiers and the keys under which the ledgers file their entries.

use vstd::prelude::*;

verus! {

/// Amount of an asset or of shares.
pub type Balance = u128;

/// Block height.
pub type BlockNumber = u32;

/// A 32-byte account identifier.
#[derive(Clone, Copy, Debug, PartialEq, Eq)]
pub struct AccountId {
    pub bytes: [u8; 32],
}

impl AccountId {
    /// The identifier whose bytes are all zero. It stands for "no account".
    pub open spec fn zero_spec() -> AccountId {
        AccountId { bytes: vstd::array::spec_array_fill_for_copy_type::<u8, 32>(0u8) }
    }

    /// Whether this is the zero account.
    pub open spec fn is_zero_spec(&self) -> bool {
        *self == Self::zero_spec()
    }

    /// The zero account.
    pub fn zero() -> (r: AccountId)
        ensures
            r == Self::zero_spec(),
    {
        AccountId { bytes: [0u8; 32] }
    }

    /// The identifier with the given bytes.
    pub fn new(bytes: [u8; 32]) -> (r: AccountId)
        ensures
            r.bytes == bytes,
    {
        AccountId { bytes }
    }

    /// Whether the two identifiers are the same.
    pub fn equals(&self, other: &AccountId) -> (r: bool)
        ensures
            r == (*self == *other),
    {
        let mut i: usize = 0;
        while i < 32
            invariant
                i <= 32,
                forall|j: int| 0 <= j < i ==> self.bytes[j] == other.bytes[j],
            decreases 32 - i,
        {
            if self.bytes[i] != other.bytes[i] {
                return false;
            }
            i = i + 1;
        }
        proof {
            assert(self.bytes =~= other.bytes);
        }
        true
    }

    /// Whether this is the zero account.
    pub fn is_zero(&self) -> (r: bool)
        ensures
            r == self.is_zero_spec(),
    {
        self.equals(&Self::zero())
    }
}

impl Default for AccountId {
    fn default() -> (r: AccountId)
        ensures
            r == Self::zero_spec(),
    {
        AccountId::zero()
    }
}

/// A key of a [`crate::table::Table`]: a plain value with a decidable equality.
pub trait Key: Copy {
    /// Whether the two keys are the same value.
    fn same(&self, other: &Self) -> (r: bool)
        ensures
            r == (*self == *other),
    ;
}

impl Key for AccountId {
    fn same(&self, other: &Self) -> (r: bool) {
        self.equals(other)
    }
}

impl Key for u32 {
    fn same(&self, other: &Self) -> (r: bool) {
        *self == *other
    }
}

/// Key of an allowance: who grants it and who may spend it.
#[derive(Clone, Copy, Debug, PartialEq, Eq)]
pub struct Grant {
    pub owner: AccountId,
    pub spender: AccountId,
}

impl Key for Grant {
    fn same(&self, other: &Self) -> (r: bool) {
        self.owner.equals(&other.owner) && self.spender.equals(&other.spender)
    }
}

/// Key of a stake: the pool and the staker.
#[derive(Clone, Copy, Debug, PartialEq, Eq)]
pub struct Position {
    pub pid: u32,
    pub owner: AccountId,
}

impl Key for Position {
    fn same(&self, other: &Self) -> (r: bool) {
        self.pid == other.pid && self.owner.equals(&other.owner)
    }
}

} // verus!
