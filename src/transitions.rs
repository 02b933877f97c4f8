//! The escrow state machine on its abstract state: the balances of every
//! (owner, asset type) pair, and the live offers by the (maker, seed) key of their
//! record. Each step either gives the next state or the error that rejects it.
use vstd::prelude::*;
use crate::ledger::move_step;
use crate::state::{Escrow, EscrowError, Key, Offer};

verus! {

/// What each owner holds of each asset type.
pub type Balances = Map<(Key, Key), nat>;

/// The live offers, keyed by the (maker, seed) pair of their record.
pub type Offers = Map<(Key, u64), Offer>;

/// Every pair has a balance, every balance fits in a `u64`, and every offer is stored under the key
/// that its own record names.
pub open spec fn state_wf(b: Balances, o: Offers) -> bool {
    &&& forall|k: (Key, Key)| #[trigger] b.contains_key(k) && b[k] <= u64::MAX
    &&& forall|k: (Key, u64)|
        #[trigger] o.contains_key(k) ==> o[k].record.maker == k.0 && o[k].record.seed == k.1
}

/// A call that returned `r` and left state (nb, no) behind, starting from
/// (b, o), did what `step` says: the next state and `Ok`, or the error and
/// nothing changed.
pub open spec fn follows(
    step: Result<(Balances, Offers), EscrowError>,
    r: Result<(), EscrowError>,
    b: Balances,
    o: Offers,
    nb: Balances,
    no: Offers,
) -> bool {
    match step {
        Ok((sb, so)) => r is Ok && nb == sb && no == so,
        Err(e) => r == Err::<(), EscrowError>(e) && nb == b && no == o,
    }
}

/// Storing a new record at (maker, seed) with an empty vault, at the address
/// and with the bump that the search `found` gave.
pub open spec fn init_step(
    b: Balances,
    o: Offers,
    maker: Key,
    mint_a: Key,
    mint_b: Key,
    seed: u64,
    receive: u64,
    found: Option<(Key, u8)>,
) -> Result<(Balances, Offers), EscrowError> {
    if o.contains_key((maker, seed)) {
        Err(EscrowError::AlreadyInUse)
    } else {
        match found {
            None => Err(EscrowError::NoAddress),
            Some((address, bump)) => Ok(
                (
                    b,
                    o.insert(
                        (maker, seed),
                        Offer {
                            record: Escrow { seed, maker, mint_a, mint_b, receive, bump },
                            address,
                            vault: 0,
                        },
                    ),
                ),
            ),
        }
    }
}

/// Moving `amount` of `mint_a` from the maker into the vault of its offer at
/// (maker, seed).
pub open spec fn deposit_step(
    b: Balances,
    o: Offers,
    maker: Key,
    mint_a: Key,
    seed: u64,
    amount: u64,
) -> Result<(Balances, Offers), EscrowError> {
    let k = (maker, seed);
    if !o.contains_key(k) {
        Err(EscrowError::NotFound)
    } else if o[k].record.mint_a != mint_a {
        Err(EscrowError::MintMismatch)
    } else if b[(maker, mint_a)] < amount {
        Err(EscrowError::InsufficientFunds)
    } else if o[k].vault + amount > u64::MAX {
        Err(EscrowError::Overflow)
    } else {
        Ok(
            (
                b.insert((maker, mint_a), (b[(maker, mint_a)] - amount) as nat),
                o.insert(k, Offer { record: o[k].record, address: o[k].address, vault: (o[k].vault + amount) as u64 }),
            ),
        )
    }
}

/// The taker paying `amount` of `mint_b` to the maker; the offers stay as they are.
pub open spec fn pay_step(
    b: Balances,
    o: Offers,
    taker: Key,
    maker: Key,
    mint_b: Key,
    amount: u64,
) -> Result<(Balances, Offers), EscrowError> {
    match move_step(b, mint_b, taker, maker, amount as nat) {
        Ok(nb) => Ok((nb, o)),
        Err(e) => Err(e),
    }
}

/// Paying the whole vault of the offer at (maker, seed) to the taker and
/// destroying the offer.
pub open spec fn payout_step(
    b: Balances,
    o: Offers,
    taker: Key,
    maker: Key,
    mint_a: Key,
    mint_b: Key,
    seed: u64,
) -> Result<(Balances, Offers), EscrowError> {
    let k = (maker, seed);
    if !o.contains_key(k) {
        Err(EscrowError::NotFound)
    } else if o[k].record.mint_a != mint_a || o[k].record.mint_b != mint_b {
        Err(EscrowError::MintMismatch)
    } else if b[(taker, mint_a)] + o[k].vault > u64::MAX {
        Err(EscrowError::Overflow)
    } else {
        Ok((b.insert((taker, mint_a), (b[(taker, mint_a)] + o[k].vault) as nat), o.remove(k)))
    }
}

/// Creating an offer: the record is stored at (maker, seed), at the address
/// and with the bump that the search `found` gave, and `amount` of `mint_a`
/// moves from the maker into the new vault.
pub open spec fn make_step(
    b: Balances,
    o: Offers,
    maker: Key,
    mint_a: Key,
    mint_b: Key,
    seed: u64,
    receive: u64,
    amount: u64,
    found: Option<(Key, u8)>,
) -> Result<(Balances, Offers), EscrowError> {
    if o.contains_key((maker, seed)) {
        Err(EscrowError::AlreadyInUse)
    } else if b[(maker, mint_a)] < amount {
        Err(EscrowError::InsufficientFunds)
    } else if found is None {
        Err(EscrowError::NoAddress)
    } else {
        let (address, bump) = found->Some_0;
        Ok(
            (
                b.insert((maker, mint_a), (b[(maker, mint_a)] - amount) as nat),
                o.insert(
                    (maker, seed),
                    Offer {
                        record: Escrow { seed, maker, mint_a, mint_b, receive, bump },
                        address,
                        vault: amount,
                    },
                ),
            ),
        )
    }
}

/// Fulfilling the offer at (maker, seed): the taker pays `amount` of `mint_b`
/// to the maker, receives the whole vault, and the offer is destroyed.
pub open spec fn take_step(
    b: Balances,
    o: Offers,
    taker: Key,
    maker: Key,
    mint_a: Key,
    mint_b: Key,
    seed: u64,
    amount: u64,
) -> Result<(Balances, Offers), EscrowError> {
    let k = (maker, seed);
    if !o.contains_key(k) {
        Err(EscrowError::NotFound)
    } else if o[k].record.mint_a != mint_a || o[k].record.mint_b != mint_b {
        Err(EscrowError::MintMismatch)
    } else {
        match move_step(b, mint_b, taker, maker, amount as nat) {
            Err(e) => Err(e),
            Ok(paid) => {
                if paid[(taker, mint_a)] + o[k].vault > u64::MAX {
                    Err(EscrowError::Overflow)
                } else {
                    Ok(
                        (
                            paid.insert((taker, mint_a), (paid[(taker, mint_a)] + o[k].vault) as nat),
                            o.remove(k),
                        ),
                    )
                }
            },
        }
    }
}

/// Cancelling the offer at (escrow_maker, seed) on behalf of `signer`: the
/// vault goes back to the maker, and the offer is destroyed.
pub open spec fn refund_step(
    b: Balances,
    o: Offers,
    signer: Key,
    mint_a: Key,
    escrow_maker: Key,
    seed: u64,
) -> Result<(Balances, Offers), EscrowError> {
    let k = (escrow_maker, seed);
    if !o.contains_key(k) {
        Err(EscrowError::NotFound)
    } else if o[k].record.maker != signer {
        Err(EscrowError::Unauthorized)
    } else if o[k].record.mint_a != mint_a {
        Err(EscrowError::MintMismatch)
    } else if b[(signer, mint_a)] + o[k].vault > u64::MAX {
        Err(EscrowError::Overflow)
    } else {
        Ok((b.insert((signer, mint_a), (b[(signer, mint_a)] + o[k].vault) as nat), o.remove(k)))
    }
}

} // verus!
