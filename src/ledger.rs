//! The asset ledger: one holding account per (owner, asset type), with the
//! move primitive that the escrow transitions use.
use vstd::prelude::*;
use crate::state::{EscrowError, Key};

verus! {

/// A holding account: `amount` units of asset type `mint`, controlled by `owner`.
#[derive(Clone, Copy, Debug, PartialEq, Eq)]
pub struct TokenAccount {
    pub owner: Key,
    pub mint: Key,
    pub amount: u64,
}

/// Index `i` of `s` is the holding account of `owner` for `mint`.
pub open spec fn is_account(s: Seq<TokenAccount>, i: int, owner: Key, mint: Key) -> bool {
    0 <= i < s.len() && s[i].owner == owner && s[i].mint == mint
}

/// No two accounts of `s` share an (owner, mint) pair.
pub open spec fn keys_unique(s: Seq<TokenAccount>) -> bool {
    forall|i: int, j: int|
        0 <= i < s.len() && 0 <= j < s.len() && i != j ==> !(s[i].owner == s[j].owner && s[i].mint
            == s[j].mint)
}

/// What `owner` holds of `mint`: the amount of its account, or zero where it has none.
pub open spec fn balance_in(s: Seq<TokenAccount>, owner: Key, mint: Key) -> nat {
    if exists|i: int| is_account(s, i, owner, mint) {
        s[choose|i: int| is_account(s, i, owner, mint)].amount as nat
    } else {
        0
    }
}

/// All balances of `s`, keyed by (owner, mint).
pub open spec fn balances_of(s: Seq<TokenAccount>) -> Map<(Key, Key), nat> {
    Map::total(|k: (Key, Key)| balance_in(s, k.0, k.1))
}

/// The balances after moving `amount` of `mint` from `from` to `to`.
pub open spec fn moved(
    b: Map<(Key, Key), nat>,
    mint: Key,
    from: Key,
    to: Key,
    amount: nat,
) -> Map<(Key, Key), nat> {
    if from == to {
        b
    } else {
        b.insert((from, mint), (b[(from, mint)] - amount) as nat).insert(
            (to, mint),
            (b[(to, mint)] + amount) as nat,
        )
    }
}

/// The outcome of a move on balances `b`: refused where the payer holds too
/// little or the payee's balance would overflow.
pub open spec fn move_step(
    b: Map<(Key, Key), nat>,
    mint: Key,
    from: Key,
    to: Key,
    amount: nat,
) -> Result<Map<(Key, Key), nat>, EscrowError> {
    if b[(from, mint)] < amount {
        Err(EscrowError::InsufficientFunds)
    } else if from != to && b[(to, mint)] + amount > u64::MAX {
        Err(EscrowError::Overflow)
    } else {
        Ok(moved(b, mint, from, to, amount))
    }
}

/// A move that succeeded can be undone by the opposite move.
pub proof fn lemma_move_back(b: Map<(Key, Key), nat>, mint: Key, from: Key, to: Key, amount: nat)
    requires
        forall|k: (Key, Key)| #[trigger] b.contains_key(k) && b[k] <= u64::MAX,
        move_step(b, mint, from, to, amount) is Ok,
    ensures
        move_step(move_step(b, mint, from, to, amount)->Ok_0, mint, to, from, amount) == Ok::<
            Map<(Key, Key), nat>,
            EscrowError,
        >(b),
{
    let b1 = moved(b, mint, from, to, amount);
    if from != to {
        assert(b.contains_key((from, mint)) && b.contains_key((to, mint)));
        assert(moved(b1, mint, to, from, amount) =~= b);
    }
}

proof fn lemma_balance_at(s: Seq<TokenAccount>, i: int)
    requires
        keys_unique(s),
        0 <= i < s.len(),
    ensures
        balance_in(s, s[i].owner, s[i].mint) == s[i].amount,
{
    assert(is_account(s, i, s[i].owner, s[i].mint));
}

proof fn lemma_balance_bounded(s: Seq<TokenAccount>, owner: Key, mint: Key)
    ensures
        balance_in(s, owner, mint) <= u64::MAX,
{
}

proof fn lemma_set_amount(s: Seq<TokenAccount>, i: int, x: u64)
    requires
        keys_unique(s),
        0 <= i < s.len(),
    ensures
        keys_unique(s.update(i, TokenAccount { owner: s[i].owner, mint: s[i].mint, amount: x })),
        balances_of(s.update(i, TokenAccount { owner: s[i].owner, mint: s[i].mint, amount: x }))
            =~= balances_of(s).insert((s[i].owner, s[i].mint), x as nat),
{
    let t = s.update(i, TokenAccount { owner: s[i].owner, mint: s[i].mint, amount: x });
    assert forall|o: Key, m: Key|
        #![trigger balance_in(t, o, m)]
        balance_in(t, o, m) == if o == s[i].owner && m == s[i].mint {
            x as nat
        } else {
            balance_in(s, o, m)
        } by {
        if o == s[i].owner && m == s[i].mint {
            lemma_balance_at(t, i);
        } else if exists|j: int| is_account(s, j, o, m) {
            let j = choose|j: int| is_account(s, j, o, m);
            assert(is_account(t, j, o, m));
            lemma_balance_at(s, j);
            lemma_balance_at(t, j);
        } else {
            assert forall|j: int| !is_account(t, j, o, m) by {
                if is_account(t, j, o, m) {
                    assert(is_account(s, j, o, m));
                }
            }
        }
    }
    assert forall|k: (Key, Key)| #[trigger]
        balances_of(t)[k] == balances_of(s).insert((s[i].owner, s[i].mint), x as nat)[k] by {
        assert(balance_in(t, k.0, k.1) == balances_of(t)[k]);
    }
}

proof fn lemma_push_empty(s: Seq<TokenAccount>, owner: Key, mint: Key)
    requires
        keys_unique(s),
        forall|j: int| !is_account(s, j, owner, mint),
    ensures
        keys_unique(s.push(TokenAccount { owner, mint, amount: 0 })),
        balances_of(s.push(TokenAccount { owner, mint, amount: 0 })) =~= balances_of(s),
{
    let t = s.push(TokenAccount { owner, mint, amount: 0 });
    assert forall|i: int, j: int|
        0 <= i < t.len() && 0 <= j < t.len() && i != j implies !(t[i].owner == t[j].owner
            && t[i].mint == t[j].mint) by {
        if i == s.len() {
            assert(!is_account(s, j, owner, mint));
        } else if j == s.len() {
            assert(!is_account(s, i, owner, mint));
        }
    }
    assert forall|o: Key, m: Key| #![trigger balance_in(t, o, m)]
        balance_in(t, o, m) == balance_in(s, o, m) by {
        if o == owner && m == mint {
            lemma_balance_at(t, s.len() as int);
        } else if exists|j: int| is_account(s, j, o, m) {
            let j = choose|j: int| is_account(s, j, o, m);
            assert(is_account(t, j, o, m));
            lemma_balance_at(s, j);
            lemma_balance_at(t, j);
        } else {
            assert forall|j: int| !is_account(t, j, o, m) by {
                if is_account(t, j, o, m) {
                    assert(is_account(s, j, o, m));
                }
            }
        }
    }
    assert forall|k: (Key, Key)| #[trigger] balances_of(t)[k] == balances_of(s)[k] by {
        assert(balance_in(t, k.0, k.1) == balances_of(t)[k]);
    }
}

/// The holding accounts of all owners.
pub struct Ledger {
    accounts: Vec<TokenAccount>,
}

impl Ledger {
    /// Each (owner, mint) pair has at most one account.
    pub closed spec fn wf(self) -> bool {
        keys_unique(self.accounts@)
    }

    /// What each owner holds of each asset type.
    pub closed spec fn balances(self) -> Map<(Key, Key), nat> {
        balances_of(self.accounts@)
    }

    pub proof fn lemma_bounded(self, k: (Key, Key))
        ensures
            self.balances().contains_key(k),
            self.balances()[k] <= u64::MAX,
    {
        lemma_balance_bounded(self.accounts@, k.0, k.1);
    }

    /// A ledger in which nobody holds anything.
    pub fn new() -> (r: Ledger)
        ensures
            r.wf(),
            r.balances() == Map::total(|k: (Key, Key)| 0nat),
    {
        let r = Ledger { accounts: Vec::new() };
        assert(r.balances() =~= Map::total(|k: (Key, Key)| 0nat));
        r
    }

    fn find(&self, owner: Key, mint: Key) -> (r: Option<usize>)
        ensures
            match r {
                Some(i) => is_account(self.accounts@, i as int, owner, mint),
                None => forall|j: int| !is_account(self.accounts@, j, owner, mint),
            },
    {
        let mut i: usize = 0;
        while i < self.accounts.len()
            invariant
                i <= self.accounts@.len(),
                forall|j: int| 0 <= j < i ==> !is_account(self.accounts@, j, owner, mint),
            decreases self.accounts@.len() - i,
        {
            if self.accounts[i].owner.same(&owner) && self.accounts[i].mint.same(&mint) {
                return Some(i);
            }
            i = i + 1;
        }
        None
    }

    /// The index of the account of (owner, mint), opened empty where absent.
    fn open_account(&mut self, owner: Key, mint: Key) -> (r: usize)
        requires
            old(self).wf(),
        ensures
            final(self).wf(),
            final(self).balances() == old(self).balances(),
            is_account(final(self).accounts@, r as int, owner, mint),
    {
        match self.find(owner, mint) {
            Some(i) => i,
            None => {
                proof {
                    lemma_push_empty(self.accounts@, owner, mint);
                }
                self.accounts.push(TokenAccount { owner, mint, amount: 0 });
                (self.accounts.len() - 1) as usize
            },
        }
    }

    /// What `owner` holds of `mint`.
    pub fn balance(&self, owner: Key, mint: Key) -> (r: u64)
        requires
            self.wf(),
        ensures
            r == self.balances()[(owner, mint)],
    {
        match self.find(owner, mint) {
            Some(i) => {
                proof {
                    lemma_balance_at(self.accounts@, i as int);
                }
                self.accounts[i].amount
            },
            None => 0,
        }
    }

    /// Adds `amount` of `mint` to what `owner` holds.
    pub fn credit(&mut self, owner: Key, mint: Key, amount: u64)
        requires
            old(self).wf(),
            old(self).balances()[(owner, mint)] + amount <= u64::MAX,
        ensures
            final(self).wf(),
            final(self).balances() == old(self).balances().insert(
                (owner, mint),
                (old(self).balances()[(owner, mint)] + amount) as nat,
            ),
    {
        let i = self.open_account(owner, mint);
        proof {
            lemma_balance_at(self.accounts@, i as int);
            lemma_set_amount(self.accounts@, i as int, (self.accounts@[i as int].amount + amount) as u64);
        }
        let a = self.accounts[i].amount + amount;
        self.accounts.set(i, TokenAccount { owner, mint, amount: a });
    }

    /// Takes `amount` of `mint` from what `owner` holds.
    pub fn debit(&mut self, owner: Key, mint: Key, amount: u64)
        requires
            old(self).wf(),
            old(self).balances()[(owner, mint)] >= amount,
        ensures
            final(self).wf(),
            final(self).balances() == old(self).balances().insert(
                (owner, mint),
                (old(self).balances()[(owner, mint)] - amount) as nat,
            ),
    {
        let i = self.open_account(owner, mint);
        proof {
            lemma_balance_at(self.accounts@, i as int);
            lemma_set_amount(self.accounts@, i as int, (self.accounts@[i as int].amount - amount) as u64);
        }
        let a = self.accounts[i].amount - amount;
        self.accounts.set(i, TokenAccount { owner, mint, amount: a });
    }

    /// Moves `amount` of `mint` from `from` to `to`; a refused move changes nothing.
    pub fn transfer(&mut self, mint: Key, from: Key, to: Key, amount: u64) -> (r: Result<
        (),
        EscrowError,
    >)
        requires
            old(self).wf(),
        ensures
            final(self).wf(),
            match move_step(old(self).balances(), mint, from, to, amount as nat) {
                Ok(b) => r is Ok && final(self).balances() == b,
                Err(e) => r == Err::<(), EscrowError>(e) && final(self).balances() == old(
                    self,
                ).balances(),
            },
    {
        let have = self.balance(from, mint);
        if have < amount {
            return Err(EscrowError::InsufficientFunds);
        }
        if from.same(&to) {
            return Ok(());
        }
        let dest = self.balance(to, mint);
        if amount > u64::MAX - dest {
            return Err(EscrowError::Overflow);
        }
        self.debit(from, mint, amount);
        self.credit(to, mint, amount);
        Ok(())
    }
}

} // verus!
