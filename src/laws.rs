//! Laws of the escrow state machine, stated over the transitions that the
//! instructions are proved to follow.
use vstd::prelude::*;
use crate::state::{Escrow, EscrowError, Key};
use crate::transitions::{make_step, refund_step, state_wf, take_step, Balances, Offers};

verus! {

/// Once an offer lives at (maker, seed), a second creation at the same
/// address fails, whatever else it names; the first record keeps the fields
/// it was created with.
pub proof fn lemma_make_unique(
    b: Balances,
    o: Offers,
    maker: Key,
    mint_a: Key,
    mint_b: Key,
    seed: u64,
    receive: u64,
    found: Option<(Key, u8)>,
    amount: u64,
    mint_a2: Key,
    mint_b2: Key,
    receive2: u64,
    found2: Option<(Key, u8)>,
    amount2: u64,
)
    requires
        make_step(b, o, maker, mint_a, mint_b, seed, receive, amount, found) is Ok,
    ensures
        ({
            let (b1, o1) = make_step(b, o, maker, mint_a, mint_b, seed, receive, amount, found)->Ok_0;
            &&& o1[(maker, seed)].record == Escrow {
                seed,
                maker,
                mint_a,
                mint_b,
                receive,
                bump: found->Some_0.1,
            }
            &&& o1[(maker, seed)].address == found->Some_0.0
            &&& make_step(b1, o1, maker, mint_a2, mint_b2, seed, receive2, amount2, found2) == Err::<
                (Balances, Offers),
                EscrowError,
            >(EscrowError::AlreadyInUse)
        }),
{
}

/// A successful creation puts exactly the deposit in the new vault and takes
/// exactly that much from the maker.
pub proof fn lemma_make_conserves(
    b: Balances,
    o: Offers,
    maker: Key,
    mint_a: Key,
    mint_b: Key,
    seed: u64,
    receive: u64,
    found: Option<(Key, u8)>,
    amount: u64,
)
    requires
        make_step(b, o, maker, mint_a, mint_b, seed, receive, amount, found) is Ok,
    ensures
        ({
            let (b1, o1) = make_step(b, o, maker, mint_a, mint_b, seed, receive, amount, found)->Ok_0;
            &&& o1.contains_key((maker, seed))
            &&& o1[(maker, seed)].vault == amount
            &&& b1[(maker, mint_a)] + amount == b[(maker, mint_a)]
        }),
{
}

/// A successful fulfilment closes the vault and destroys the record, and no
/// other offer is touched. Between two distinct parties and asset types, the
/// taker gains exactly what the vault held and the maker exactly the payment.
pub proof fn lemma_take_conserves(
    b: Balances,
    o: Offers,
    taker: Key,
    maker: Key,
    mint_a: Key,
    mint_b: Key,
    seed: u64,
    amount: u64,
)
    requires
        take_step(b, o, taker, maker, mint_a, mint_b, seed, amount) is Ok,
    ensures
        ({
            let (b1, o1) = take_step(b, o, taker, maker, mint_a, mint_b, seed, amount)->Ok_0;
            &&& !o1.contains_key((maker, seed))
            &&& forall|k: (Key, u64)| k != (maker, seed) ==> #[trigger] o1.contains_key(k)
                == o.contains_key(k) && (o.contains_key(k) ==> o1[k] == o[k])
            &&& (taker != maker && mint_a != mint_b) ==> {
                &&& b1[(taker, mint_a)] == b[(taker, mint_a)] + o[(maker, seed)].vault
                &&& b1[(maker, mint_b)] == b[(maker, mint_b)] + amount
                &&& b1[(taker, mint_b)] + amount == b[(taker, mint_b)]
            }
        }),
{
}

/// A successful cancellation closes the vault and destroys the record; the
/// maker regains exactly what the vault held, and no other offer is touched.
pub proof fn lemma_refund_conserves(
    b: Balances,
    o: Offers,
    signer: Key,
    mint_a: Key,
    escrow_maker: Key,
    seed: u64,
)
    requires
        refund_step(b, o, signer, mint_a, escrow_maker, seed) is Ok,
    ensures
        ({
            let (b1, o1) = refund_step(b, o, signer, mint_a, escrow_maker, seed)->Ok_0;
            &&& !o1.contains_key((escrow_maker, seed))
            &&& forall|k: (Key, u64)| k != (escrow_maker, seed) ==> #[trigger] o1.contains_key(k)
                == o.contains_key(k) && (o.contains_key(k) ==> o1[k] == o[k])
            &&& b1[(signer, mint_a)] == b[(signer, mint_a)] + o[(escrow_maker, seed)].vault
        }),
{
}

/// After an offer is fulfilled, neither a second fulfilment nor a
/// cancellation of it can succeed: both find no record.
pub proof fn lemma_take_exclusive(
    b: Balances,
    o: Offers,
    taker: Key,
    maker: Key,
    mint_a: Key,
    mint_b: Key,
    seed: u64,
    amount: u64,
    taker2: Key,
    mint_a2: Key,
    mint_b2: Key,
    amount2: u64,
    signer: Key,
)
    requires
        take_step(b, o, taker, maker, mint_a, mint_b, seed, amount) is Ok,
    ensures
        ({
            let (b1, o1) = take_step(b, o, taker, maker, mint_a, mint_b, seed, amount)->Ok_0;
            &&& take_step(b1, o1, taker2, maker, mint_a2, mint_b2, seed, amount2) == Err::<
                (Balances, Offers),
                EscrowError,
            >(EscrowError::NotFound)
            &&& refund_step(b1, o1, signer, mint_a2, maker, seed) == Err::<
                (Balances, Offers),
                EscrowError,
            >(EscrowError::NotFound)
        }),
{
}

/// After an offer is cancelled, neither a fulfilment nor a second
/// cancellation of it can succeed: both find no record.
pub proof fn lemma_refund_exclusive(
    b: Balances,
    o: Offers,
    signer: Key,
    mint_a: Key,
    escrow_maker: Key,
    seed: u64,
    taker: Key,
    mint_a2: Key,
    mint_b2: Key,
    amount: u64,
    signer2: Key,
)
    requires
        refund_step(b, o, signer, mint_a, escrow_maker, seed) is Ok,
    ensures
        ({
            let (b1, o1) = refund_step(b, o, signer, mint_a, escrow_maker, seed)->Ok_0;
            &&& take_step(b1, o1, taker, escrow_maker, mint_a2, mint_b2, seed, amount) == Err::<
                (Balances, Offers),
                EscrowError,
            >(EscrowError::NotFound)
            &&& refund_step(b1, o1, signer2, mint_a2, escrow_maker, seed) == Err::<
                (Balances, Offers),
                EscrowError,
            >(EscrowError::NotFound)
        }),
{
}

/// Only the maker stored in a record can cancel it: any other signer is
/// refused, and a refused step changes nothing.
pub proof fn lemma_refund_needs_maker(
    b: Balances,
    o: Offers,
    signer: Key,
    mint_a: Key,
    escrow_maker: Key,
    seed: u64,
)
    requires
        state_wf(b, o),
        signer != escrow_maker,
    ensures
        refund_step(b, o, signer, mint_a, escrow_maker, seed) is Err,
        o.contains_key((escrow_maker, seed)) ==> refund_step(
            b,
            o,
            signer,
            mint_a,
            escrow_maker,
            seed,
        ) == Err::<(Balances, Offers), EscrowError>(EscrowError::Unauthorized),
{
    if o.contains_key((escrow_maker, seed)) {
        assert(o[(escrow_maker, seed)].record.maker == escrow_maker);
    }
}

/// Creating an offer and then cancelling it as its maker succeeds and leaves
/// every balance and the set of offers as they were before the creation.
pub proof fn lemma_make_then_refund(
    b: Balances,
    o: Offers,
    maker: Key,
    mint_a: Key,
    mint_b: Key,
    seed: u64,
    receive: u64,
    found: Option<(Key, u8)>,
    amount: u64,
)
    requires
        state_wf(b, o),
        make_step(b, o, maker, mint_a, mint_b, seed, receive, amount, found) is Ok,
    ensures
        ({
            let (b1, o1) = make_step(b, o, maker, mint_a, mint_b, seed, receive, amount, found)->Ok_0;
            refund_step(b1, o1, maker, mint_a, maker, seed) == Ok::<
                (Balances, Offers),
                EscrowError,
            >((b, o))
        }),
{
    let (b1, o1) = make_step(b, o, maker, mint_a, mint_b, seed, receive, amount, found)->Ok_0;
    assert(b.contains_key((maker, mint_a)));
    let (b2, o2) = refund_step(b1, o1, maker, mint_a, maker, seed)->Ok_0;
    assert(b2 =~= b);
    assert(o2 =~= o);
}

} // verus!
