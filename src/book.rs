//! The live offers, keyed by the (maker, seed) pair from which the address
//! of their record is derived. At most one offer lives under each key.
use vstd::prelude::*;
use crate::state::{Key, Offer};

verus! {

/// Index `i` of `s` is the offer whose record lives at (maker, seed).
pub open spec fn is_offer(s: Seq<Offer>, i: int, maker: Key, seed: u64) -> bool {
    0 <= i < s.len() && s[i].record.maker == maker && s[i].record.seed == seed
}

/// No two offers of `s` share a (maker, seed) key.
pub open spec fn addresses_unique(s: Seq<Offer>) -> bool {
    forall|i: int, j: int|
        0 <= i < s.len() && 0 <= j < s.len() && i != j ==> !(s[i].record.maker
            == s[j].record.maker && s[i].record.seed == s[j].record.seed)
}

/// Some offer of `s` lives under key `k`.
pub open spec fn live_at(s: Seq<Offer>, k: (Key, u64)) -> bool {
    exists|i: int| is_offer(s, i, k.0, k.1)
}

/// The offers of `s` by key.
pub open spec fn offers_of(s: Seq<Offer>) -> Map<(Key, u64), Offer> {
    Map::new(
        |k: (Key, u64)| live_at(s, k),
        |k: (Key, u64)| s[choose|i: int| is_offer(s, i, k.0, k.1)],
    )
}

proof fn lemma_live(s: Seq<Offer>, maker: Key, seed: u64)
    ensures
        offers_of(s).contains_key((maker, seed)) == live_at(s, (maker, seed)),
        offers_of(s).contains_key((maker, seed)) ==> offers_of(s)[(maker, seed)] == s[choose|
            i: int,
        | is_offer(s, i, maker, seed)],
{
    let k = (maker, seed);
    assert(offers_of(s).dom() == Set::new(|k: (Key, u64)| live_at(s, k)));
    assert(Set::new(|k: (Key, u64)| live_at(s, k)).contains(k) == live_at(s, k));
}

proof fn lemma_offer_at(s: Seq<Offer>, i: int)
    requires
        addresses_unique(s),
        0 <= i < s.len(),
    ensures
        offers_of(s).contains_key((s[i].record.maker, s[i].record.seed)),
        offers_of(s)[(s[i].record.maker, s[i].record.seed)] == s[i],
{
    let k = (s[i].record.maker, s[i].record.seed);
    assert(is_offer(s, i, k.0, k.1));
    assert(live_at(s, k));
    lemma_live(s, k.0, k.1);
    let j = choose|j: int| is_offer(s, j, k.0, k.1);
    assert(j == i);
}

/// The offers that are live, each stored under its own key.
pub struct OfferBook {
    offers: Vec<Offer>,
}

impl OfferBook {
    pub closed spec fn wf(self) -> bool {
        addresses_unique(self.offers@)
    }

    /// The live offers by key.
    pub closed spec fn view_map(self) -> Map<(Key, u64), Offer> {
        offers_of(self.offers@)
    }

    /// Each live offer is stored under the key that its record names.
    pub proof fn lemma_keyed(self, k: (Key, u64))
        requires
            self.view_map().contains_key(k),
        ensures
            self.view_map()[k].record.maker == k.0,
            self.view_map()[k].record.seed == k.1,
    {
    }

    pub fn new() -> (r: OfferBook)
        ensures
            r.wf(),
            r.view_map() == Map::<(Key, u64), Offer>::empty(),
    {
        let r = OfferBook { offers: Vec::new() };
        assert(r.view_map() =~= Map::<(Key, u64), Offer>::empty());
        r
    }

    fn find(&self, maker: Key, seed: u64) -> (r: Option<usize>)
        requires
            self.wf(),
        ensures
            match r {
                Some(i) => is_offer(self.offers@, i as int, maker, seed),
                None => !self.view_map().contains_key((maker, seed)),
            },
    {
        let mut i: usize = 0;
        while i < self.offers.len()
            invariant
                i <= self.offers@.len(),
                forall|j: int| 0 <= j < i ==> !is_offer(self.offers@, j, maker, seed),
            decreases self.offers@.len() - i,
        {
            if self.offers[i].record.maker.same(&maker) && self.offers[i].record.seed == seed {
                return Some(i);
            }
            i = i + 1;
        }
        None
    }

    /// The offer whose record lives at (maker, seed), if any.
    pub fn get(&self, maker: Key, seed: u64) -> (r: Option<Offer>)
        requires
            self.wf(),
        ensures
            match r {
                Some(o) => self.view_map().contains_key((maker, seed)) && self.view_map()[(
                    maker,
                    seed,
                )] == o,
                None => !self.view_map().contains_key((maker, seed)),
            },
    {
        match self.find(maker, seed) {
            Some(i) => {
                proof {
                    lemma_offer_at(self.offers@, i as int);
                }
                Some(self.offers[i])
            },
            None => None,
        }
    }

    /// Stores a new offer under the key of its record, which must be free.
    pub fn insert(&mut self, o: Offer)
        requires
            old(self).wf(),
            !old(self).view_map().contains_key((o.record.maker, o.record.seed)),
        ensures
            final(self).wf(),
            final(self).view_map() == old(self).view_map().insert(
                (o.record.maker, o.record.seed),
                o,
            ),
    {
        let ghost s = self.offers@;
        let ghost k = (o.record.maker, o.record.seed);
        self.offers.push(o);
        let ghost t = self.offers@;
        proof {
        assert(forall|j: int| !is_offer(s, j, k.0, k.1));
        assert forall|i: int, j: int|
            0 <= i < t.len() && 0 <= j < t.len() && i != j implies !(t[i].record.maker
                == t[j].record.maker && t[i].record.seed == t[j].record.seed) by {
            if i == s.len() {
                assert(!is_offer(s, j, k.0, k.1));
            } else if j == s.len() {
                assert(!is_offer(s, i, k.0, k.1));
            }
        }
        lemma_offer_at(t, s.len() as int);
        assert forall|m: Key, d: u64|
            #![trigger offers_of(t).contains_key((m, d))]
            (m, d) != k implies offers_of(t).contains_key((m, d)) == offers_of(s).contains_key(
                (m, d),
            ) && (offers_of(s).contains_key((m, d)) ==> offers_of(t)[(m, d)] == offers_of(s)[(
                m,
                d,
            )]) by {
            if offers_of(s).contains_key((m, d)) {
                let j = choose|j: int| is_offer(s, j, m, d);
                assert(is_offer(t, j, m, d));
                lemma_offer_at(s, j);
                lemma_offer_at(t, j);
            } else {
                lemma_live(s, m, d);
                assert forall|j: int| !is_offer(t, j, m, d) by {
                    if is_offer(t, j, m, d) {
                        if j < s.len() {
                            let kk = (m, d);
                            assert(is_offer(s, j, kk.0, kk.1));
                            assert(live_at(s, kk));
                        }
                    }
                }
                lemma_live(t, m, d);
            }
        }
        assert(offers_of(t) =~= offers_of(s).insert(k, o));
        }
    }

    /// Removes the offer at (maker, seed), which must be live.
    pub fn remove(&mut self, maker: Key, seed: u64)
        requires
            old(self).wf(),
            old(self).view_map().contains_key((maker, seed)),
        ensures
            final(self).wf(),
            final(self).view_map() == old(self).view_map().remove((maker, seed)),
    {
        let ghost s = self.offers@;
        let i = match self.find(maker, seed) {
            Some(i) => i,
            None => {
                return ;
            },
        };
        self.offers.remove(i);
        let ghost t = self.offers@;
        proof {
        assert forall|a: int, b: int|
            0 <= a < t.len() && 0 <= b < t.len() && a != b implies !(t[a].record.maker
                == t[b].record.maker && t[a].record.seed == t[b].record.seed) by {
            let sa = if a < i { a } else { a + 1 };
            let sb = if b < i { b } else { b + 1 };
            assert(t[a] == s[sa] && t[b] == s[sb]);
        }
        assert forall|m: Key, d: u64|
            #![trigger offers_of(t).contains_key((m, d))]
            offers_of(t).contains_key((m, d)) == (offers_of(s).contains_key((m, d)) && (m, d)
                != (maker, seed)) && (offers_of(t).contains_key((m, d)) ==> offers_of(t)[(m, d)]
                == offers_of(s)[(m, d)]) by {
            if offers_of(t).contains_key((m, d)) {
                let j = choose|j: int| is_offer(t, j, m, d);
                let sj = if j < i { j } else { j + 1 };
                assert(t[j] == s[sj]);
                assert(is_offer(s, sj, m, d));
                assert(sj != i);
                lemma_offer_at(s, sj);
                lemma_offer_at(t, j);
            } else if offers_of(s).contains_key((m, d)) && (m, d) != (maker, seed) {
                let j = choose|j: int| is_offer(s, j, m, d);
                assert(j != i);
                let tj = if j < i { j } else { j - 1 };
                assert(t[tj] == s[j]);
                assert(is_offer(t, tj, m, d));
            }
        }
        assert(offers_of(t) =~= offers_of(s).remove((maker, seed)));
        }
    }
}

} // verus!
