//! The escrow record, the offer it owns, and the errors of the transitions.
use vstd::prelude::*;

verus! {

/// A 32-byte account or asset-type identifier.
#[derive(Clone, Copy, Debug, PartialEq, Eq, Hash)]
pub struct Key {
    pub bytes: [u8; 32],
}

impl Key {
    /// Whether the two identifiers are the same, byte for byte.
    pub fn same(&self, other: &Key) -> (r: bool)
        ensures
            r == (*self == *other),
    {
        let mut i: usize = 0;
        while i < 32
            invariant
                i <= 32,
                forall|j: int| 0 <= j < i ==> self.bytes[j] == other.bytes[j],
            decreases 32 - i,
        {
            if self.bytes[i] != other.bytes[i] {
                return false;
            }
            i = i + 1;
        }
        proof {
            assert(self.bytes =~= other.bytes);
        }
        true
    }
}

/// The persistent description of one offer.
#[derive(Clone, Copy, Debug, PartialEq, Eq)]
pub struct Escrow {
    pub seed: u64,
    pub maker: Key,
    pub mint_a: Key,
    pub mint_b: Key,
    pub receive: u64,
    pub bump: u8,
}

/// A live offer: its record, the address that the record occupies, and the
/// balance of `mint_a` held in its vault, whose only authority is that address.
#[derive(Clone, Copy, Debug, PartialEq, Eq)]
pub struct Offer {
    pub record: Escrow,
    pub address: Key,
    pub vault: u64,
}

/// Why a transition was rejected. A rejected transition changes nothing.
#[derive(Clone, Copy, Debug, PartialEq, Eq, Structural)]
pub enum EscrowError {
    /// A record already lives at the address of this (maker, seed) pair.
    AlreadyInUse,
    /// No record lives at the named address.
    NotFound,
    /// The signer is not the maker stored in the record.
    Unauthorized,
    /// The named asset types differ from those stored in the record.
    MintMismatch,
    /// The paying account holds less than the amount to move.
    InsufficientFunds,
    /// The receiving balance would exceed the largest `u64`.
    Overflow,
    /// No valid record address could be derived for (maker, seed).
    NoAddress,
    /// The record's address could not be derived again from its own fields.
    InvalidAuthority,
}

} // verus!
