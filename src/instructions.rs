//! The escrow program: the ledger and the live offers, and the three
//! instructions that create, fulfil and cancel an offer. Each instruction is
//! all or nothing: where it fails, nothing has changed.
use vstd::prelude::*;
use crate::address::{derived_address, escrow_address, escrow_seeds, find_escrow_address, found_address};
use crate::book::OfferBook;
use crate::ledger::{lemma_move_back, Ledger};
use crate::state::{Escrow, EscrowError, Key, Offer};
use crate::transitions::{
    deposit_step, follows, init_step, make_step, pay_step, payout_step, refund_step, state_wf,
    take_step,
};

verus! {

/// The whole state that the instructions act on.
pub struct EscrowProgram {
    program_id: Key,
    ledger: Ledger,
    book: OfferBook,
}

impl EscrowProgram {
    /// Besides the ledger and the book being well formed, each live offer
    /// sits at the address that its (maker, seed) and bump derive.
    pub closed spec fn wf(self) -> bool {
        &&& self.ledger.wf()
        &&& self.book.wf()
        &&& forall|k: (Key, u64)| #[trigger]
            self.book.view_map().contains_key(k) ==> derived_address(
                escrow_seeds(k.0, k.1).push(seq![self.book.view_map()[k].record.bump]),
                self.program_id,
            ) == Some(self.book.view_map()[k].address)
    }

    /// The identifier of this program, under which record addresses are derived.
    pub closed spec fn id(self) -> Key {
        self.program_id
    }

    /// What each owner holds of each asset type.
    pub closed spec fn balances(self) -> Map<(Key, Key), nat> {
        self.ledger.balances()
    }

    /// The live offers, by the (maker, seed) pair of their record.
    pub closed spec fn offers(self) -> Map<(Key, u64), Offer> {
        self.book.view_map()
    }

    /// The abstract state is well formed in every program state.
    pub proof fn lemma_state_wf(self)
        ensures
            state_wf(self.balances(), self.offers()),
    {
        assert forall|k: (Key, Key)| #[trigger]
            self.balances().contains_key(k) && self.balances()[k] <= u64::MAX by {
            self.ledger.lemma_bounded(k);
        }
        assert forall|k: (Key, u64)| #[trigger]
            self.offers().contains_key(k) implies self.offers()[k].record.maker == k.0
            && self.offers()[k].record.seed == k.1 by {
            self.book.lemma_keyed(k);
        }
    }

    /// A program with identifier `program_id`, where nobody holds anything
    /// and no offer is live.
    pub fn new(program_id: Key) -> (r: EscrowProgram)
        ensures
            r.wf(),
            r.id() == program_id,
            r.balances() == Map::total(|k: (Key, Key)| 0nat),
            r.offers() == Map::<(Key, u64), Offer>::empty(),
    {
        EscrowProgram { program_id, ledger: Ledger::new(), book: OfferBook::new() }
    }

    /// Issues `amount` of `mint` to `owner`; refused where the balance would overflow.
    pub fn mint_to(&mut self, owner: Key, mint: Key, amount: u64) -> (r: Result<(), EscrowError>)
        requires
            old(self).wf(),
        ensures
            final(self).wf(),
            final(self).id() == old(self).id(),
            final(self).offers() == old(self).offers(),
            old(self).balances()[(owner, mint)] + amount > u64::MAX ==> r == Err::<
                (),
                EscrowError,
            >(EscrowError::Overflow) && final(self).balances() == old(self).balances(),
            old(self).balances()[(owner, mint)] + amount <= u64::MAX ==> r is Ok
                && final(self).balances() == old(self).balances().insert(
                (owner, mint),
                (old(self).balances()[(owner, mint)] + amount) as nat,
            ),
    {
        let have = self.ledger.balance(owner, mint);
        if amount > u64::MAX - have {
            return Err(EscrowError::Overflow);
        }
        self.ledger.credit(owner, mint, amount);
        Ok(())
    }

    /// What `owner` holds of `mint`.
    pub fn balance(&self, owner: Key, mint: Key) -> (r: u64)
        requires
            self.wf(),
        ensures
            r == self.balances()[(owner, mint)],
    {
        self.ledger.balance(owner, mint)
    }

    /// The offer whose record lives at (maker, seed), if any.
    pub fn offer(&self, maker: Key, seed: u64) -> (r: Option<Offer>)
        requires
            self.wf(),
        ensures
            r == (if self.offers().contains_key((maker, seed)) {
                Some(self.offers()[(maker, seed)])
            } else {
                None
            }),
    {
        self.book.get(maker, seed)
    }

    /// Whether the record of `offer` proves its authority over the vault:
    /// deriving its address again from its maker, seed and bump gives the
    /// address at which it was created. Every live offer does.
    fn holds_authority(&self, offer: &Offer) -> (r: bool)
        requires
            self.wf(),
            self.offers().contains_key((offer.record.maker, offer.record.seed)),
            self.offers()[(offer.record.maker, offer.record.seed)] == *offer,
        ensures
            r,
    {
        match escrow_address(&self.program_id, &offer.record.maker, offer.record.seed, offer.record.bump) {
            Some(a) => a.same(&offer.address),
            None => false,
        }
    }

    /// What the vault of the offer at (maker, seed) holds, if the offer is live.
    pub fn vault_balance(&self, maker: Key, seed: u64) -> (r: Option<u64>)
        requires
            self.wf(),
        ensures
            r == (if self.offers().contains_key((maker, seed)) {
                Some(self.offers()[(maker, seed)].vault)
            } else {
                None
            }),
    {
        match self.book.get(maker, seed) {
            Some(o) => Some(o.vault),
            None => None,
        }
    }
}

/// The accounts named by an offer's creation: the signing maker and the two
/// asset types of the swap.
#[derive(Clone, Copy, Debug, PartialEq, Eq)]
pub struct Make {
    pub maker: Key,
    pub mint_a: Key,
    pub mint_b: Key,
}

impl Make {
    /// Stores the record of a new offer at (maker, seed), with an empty vault,
    /// at the address and with the bump that the search over bumps finds.
    pub fn init_escrow(&self, program: &mut EscrowProgram, seed: u64, receive: u64) -> (r: Result<
        (),
        EscrowError,
    >)
        requires
            old(program).wf(),
        ensures
            final(program).wf(),
            final(program).id() == old(program).id(),
            follows(
                init_step(
                    old(program).balances(),
                    old(program).offers(),
                    self.maker,
                    self.mint_a,
                    self.mint_b,
                    seed,
                    receive,
                    found_address(escrow_seeds(self.maker, seed), old(program).id()),
                ),
                r,
                old(program).balances(),
                old(program).offers(),
                final(program).balances(),
                final(program).offers(),
            ),
    {
        if program.book.get(self.maker, seed).is_some() {
            return Err(EscrowError::AlreadyInUse);
        }
        let (address, bump) = match find_escrow_address(&program.program_id, &self.maker, seed) {
            Some(found) => found,
            None => {
                return Err(EscrowError::NoAddress);
            },
        };
        let record = Escrow {
            seed,
            maker: self.maker,
            mint_a: self.mint_a,
            mint_b: self.mint_b,
            receive,
            bump,
        };
        program.book.insert(Offer { record, address, vault: 0 });
        Ok(())
    }

    /// Moves `amount` of `mint_a` from the maker into the vault of its offer
    /// at (maker, seed), on the maker's own signature.
    pub fn deposit(&self, program: &mut EscrowProgram, seed: u64, amount: u64) -> (r: Result<
        (),
        EscrowError,
    >)
        requires
            old(program).wf(),
        ensures
            final(program).wf(),
            final(program).id() == old(program).id(),
            follows(
                deposit_step(
                    old(program).balances(),
                    old(program).offers(),
                    self.maker,
                    self.mint_a,
                    seed,
                    amount,
                ),
                r,
                old(program).balances(),
                old(program).offers(),
                final(program).balances(),
                final(program).offers(),
            ),
    {
        let offer = match program.book.get(self.maker, seed) {
            Some(o) => o,
            None => {
                return Err(EscrowError::NotFound);
            },
        };
        if !offer.record.mint_a.same(&self.mint_a) {
            return Err(EscrowError::MintMismatch);
        }
        if program.ledger.balance(self.maker, self.mint_a) < amount {
            return Err(EscrowError::InsufficientFunds);
        }
        if amount > u64::MAX - offer.vault {
            return Err(EscrowError::Overflow);
        }
        proof {
            program.book.lemma_keyed((self.maker, seed));
        }
        program.ledger.debit(self.maker, self.mint_a, amount);
        program.book.remove(self.maker, seed);
        program.book.insert(
            Offer { record: offer.record, address: offer.address, vault: offer.vault + amount },
        );
        proof {
            assert(program.offers() =~= old(program).offers().insert(
                (self.maker, seed),
                Offer {
                    record: offer.record,
                    address: offer.address,
                    vault: (offer.vault + amount) as u64,
                },
            ));
        }
        Ok(())
    }
}

/// Creates an offer: stores its record at (maker, seed) and moves
/// `deposit_amt` of `mint_a` from the maker into its vault, or does nothing.
pub fn initialize(
    program: &mut EscrowProgram,
    accounts: &Make,
    seed: u64,
    receive: u64,
    deposit_amt: u64,
) -> (r: Result<(), EscrowError>)
    requires
        old(program).wf(),
    ensures
        final(program).wf(),
        final(program).id() == old(program).id(),
        follows(
            make_step(
                old(program).balances(),
                old(program).offers(),
                accounts.maker,
                accounts.mint_a,
                accounts.mint_b,
                seed,
                receive,
                deposit_amt,
                found_address(escrow_seeds(accounts.maker, seed), old(program).id()),
            ),
            r,
            old(program).balances(),
            old(program).offers(),
            final(program).balances(),
            final(program).offers(),
        ),
{
    if program.offer(accounts.maker, seed).is_some() {
        return Err(EscrowError::AlreadyInUse);
    }
    if program.balance(accounts.maker, accounts.mint_a) < deposit_amt {
        return Err(EscrowError::InsufficientFunds);
    }
    let ghost b0 = program.balances();
    let ghost o0 = program.offers();
    match accounts.init_escrow(program, seed, receive) {
        Ok(()) => {},
        Err(e) => {
            return Err(e);
        },
    }
    let r2 = accounts.deposit(program, seed, deposit_amt);
    proof {
        assert(r2 is Ok);
        assert(program.offers() =~= make_step(
            b0,
            o0,
            accounts.maker,
            accounts.mint_a,
            accounts.mint_b,
            seed,
            receive,
            deposit_amt,
            found_address(escrow_seeds(accounts.maker, seed), program.id()),
        )->Ok_0.1);
    }
    Ok(())
}

/// The accounts named by a fulfilment: the signing taker, the maker, the two
/// asset types, and the seed of the offer, whose record lives at (maker, seed).
#[derive(Clone, Copy, Debug, PartialEq, Eq)]
pub struct Take {
    pub taker: Key,
    pub maker: Key,
    pub mint_a: Key,
    pub mint_b: Key,
    pub seed: u64,
}

impl Take {
    /// Moves `amount` of `mint_b` from the taker to the maker, on the taker's signature.
    pub fn transfer_to_maker(&self, program: &mut EscrowProgram, amount: u64) -> (r: Result<
        (),
        EscrowError,
    >)
        requires
            old(program).wf(),
        ensures
            final(program).wf(),
            final(program).id() == old(program).id(),
            follows(
                pay_step(
                    old(program).balances(),
                    old(program).offers(),
                    self.taker,
                    self.maker,
                    self.mint_b,
                    amount,
                ),
                r,
                old(program).balances(),
                old(program).offers(),
                final(program).balances(),
                final(program).offers(),
            ),
    {
        program.ledger.transfer(self.mint_b, self.taker, self.maker, amount)
    }

    /// Pays the whole vault to the taker under the record's own authority,
    /// then closes the vault and destroys the record.
    pub fn take_and_close(&self, program: &mut EscrowProgram) -> (r: Result<(), EscrowError>)
        requires
            old(program).wf(),
        ensures
            final(program).wf(),
            final(program).id() == old(program).id(),
            follows(
                payout_step(
                    old(program).balances(),
                    old(program).offers(),
                    self.taker,
                    self.maker,
                    self.mint_a,
                    self.mint_b,
                    self.seed,
                ),
                r,
                old(program).balances(),
                old(program).offers(),
                final(program).balances(),
                final(program).offers(),
            ),
    {
        let offer = match program.book.get(self.maker, self.seed) {
            Some(o) => o,
            None => {
                return Err(EscrowError::NotFound);
            },
        };
        if !offer.record.mint_a.same(&self.mint_a) || !offer.record.mint_b.same(&self.mint_b) {
            return Err(EscrowError::MintMismatch);
        }
        proof {
            program.book.lemma_keyed((self.maker, self.seed));
        }
        if !program.holds_authority(&offer) {
            return Err(EscrowError::InvalidAuthority);
        }
        if offer.vault > u64::MAX - program.ledger.balance(self.taker, self.mint_a) {
            return Err(EscrowError::Overflow);
        }
        program.ledger.credit(self.taker, self.mint_a, offer.vault);
        program.book.remove(self.maker, self.seed);
        Ok(())
    }
}

/// Fulfils the offer at (maker, seed): the taker pays `amount` of `mint_b` to
/// the maker and receives the whole vault, and the offer is destroyed; or
/// nothing changes.
pub fn take(program: &mut EscrowProgram, accounts: &Take, amount: u64) -> (r: Result<
    (),
    EscrowError,
>)
    requires
        old(program).wf(),
    ensures
        final(program).wf(),
        final(program).id() == old(program).id(),
        follows(
            take_step(
                old(program).balances(),
                old(program).offers(),
                accounts.taker,
                accounts.maker,
                accounts.mint_a,
                accounts.mint_b,
                accounts.seed,
                amount,
            ),
            r,
            old(program).balances(),
            old(program).offers(),
            final(program).balances(),
            final(program).offers(),
        ),
{
    let offer = match program.offer(accounts.maker, accounts.seed) {
        Some(o) => o,
        None => {
            return Err(EscrowError::NotFound);
        },
    };
    if !offer.record.mint_a.same(&accounts.mint_a) || !offer.record.mint_b.same(&accounts.mint_b) {
        return Err(EscrowError::MintMismatch);
    }
    let ghost b0 = program.balances();
    proof {
        program.lemma_state_wf();
    }
    match accounts.transfer_to_maker(program, amount) {
        Ok(()) => {},
        Err(e) => {
            return Err(e);
        },
    }
    let got = program.balance(accounts.taker, accounts.mint_a);
    if offer.vault > u64::MAX - got {
        proof {
            lemma_move_back(b0, accounts.mint_b, accounts.taker, accounts.maker, amount as nat);
        }
        let undone = program.ledger.transfer(accounts.mint_b, accounts.maker, accounts.taker, amount);
        return Err(EscrowError::Overflow);
    }
    let closed = accounts.take_and_close(program);
    proof {
        assert(closed is Ok);
    }
    Ok(())
}

/// The accounts named by a cancellation: the signer, the asset type held in
/// the vault, and the address (escrow_maker, seed) of the record.
#[derive(Clone, Copy, Debug, PartialEq, Eq)]
pub struct Refund {
    pub maker: Key,
    pub mint_a: Key,
    pub escrow_maker: Key,
    pub seed: u64,
}

impl Refund {
    /// Pays the whole vault back to the maker under the record's own
    /// authority, then closes the vault and destroys the record. Only the
    /// maker stored in the record may do so.
    pub fn refund_and_close(&self, program: &mut EscrowProgram) -> (r: Result<(), EscrowError>)
        requires
            old(program).wf(),
        ensures
            final(program).wf(),
            final(program).id() == old(program).id(),
            follows(
                refund_step(
                    old(program).balances(),
                    old(program).offers(),
                    self.maker,
                    self.mint_a,
                    self.escrow_maker,
                    self.seed,
                ),
                r,
                old(program).balances(),
                old(program).offers(),
                final(program).balances(),
                final(program).offers(),
            ),
    {
        let offer = match program.book.get(self.escrow_maker, self.seed) {
            Some(o) => o,
            None => {
                return Err(EscrowError::NotFound);
            },
        };
        if !offer.record.maker.same(&self.maker) {
            return Err(EscrowError::Unauthorized);
        }
        if !offer.record.mint_a.same(&self.mint_a) {
            return Err(EscrowError::MintMismatch);
        }
        proof {
            program.book.lemma_keyed((self.escrow_maker, self.seed));
        }
        if !program.holds_authority(&offer) {
            return Err(EscrowError::InvalidAuthority);
        }
        if offer.vault > u64::MAX - program.ledger.balance(self.maker, self.mint_a) {
            return Err(EscrowError::Overflow);
        }
        program.ledger.credit(self.maker, self.mint_a, offer.vault);
        program.book.remove(self.escrow_maker, self.seed);
        Ok(())
    }
}

/// Cancels the offer named by `accounts`: the maker gets the whole vault back
/// and the offer is destroyed; or nothing changes.
pub fn refund(program: &mut EscrowProgram, accounts: &Refund) -> (r: Result<(), EscrowError>)
    requires
        old(program).wf(),
    ensures
        final(program).wf(),
        final(program).id() == old(program).id(),
        follows(
            refund_step(
                old(program).balances(),
                old(program).offers(),
                accounts.maker,
                accounts.mint_a,
                accounts.escrow_maker,
                accounts.seed,
            ),
            r,
            old(program).balances(),
            old(program).offers(),
            final(program).balances(),
            final(program).offers(),
        ),
{
    accounts.refund_and_close(program)
}

} // verus!
