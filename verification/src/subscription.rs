//! The subscription set: the symbols already requested from the feed in
//! the current session.

use crate::text::{same_text, texts};
use vstd::prelude::*;

verus! {

/// Whether no text occurs twice in `items`.
pub open spec fn distinct(items: Seq<Seq<char>>) -> bool {
    forall|i: int, j: int|
        0 <= i < items.len() && 0 <= j < items.len() && i != j ==> #[trigger] items[i]
            != #[trigger] items[j]
}

/// The symbols of `batch` that are not in `known`, each once, in the order
/// in which they first occur.
pub open spec fn fresh(batch: Seq<Seq<char>>, known: Set<Seq<char>>) -> Seq<Seq<char>>
    decreases batch.len(),
{
    if batch.len() == 0 {
        Seq::empty()
    } else {
        let earlier = fresh(batch.drop_last(), known);
        if known.contains(batch.last()) || earlier.contains(batch.last()) {
            earlier
        } else {
            earlier.push(batch.last())
        }
    }
}

/// What `fresh` yields holds nothing twice, nothing of `known`, and only
/// symbols of the batch; and every symbol of the batch is in `known` or in it.
pub proof fn lemma_fresh(batch: Seq<Seq<char>>, known: Set<Seq<char>>)
    ensures
        distinct(fresh(batch, known)),
        forall|s: Seq<char>| #[trigger]
            fresh(batch, known).contains(s) <==> batch.contains(s) && !known.contains(s),
    decreases batch.len(),
{
    if batch.len() > 0 {
        let rest = batch.drop_last();
        let earlier = fresh(rest, known);
        let now = fresh(batch, known);
        lemma_fresh(rest, known);
        assert forall|s: Seq<char>| #[trigger]
            now.contains(s) <==> batch.contains(s) && !known.contains(s) by {
            if now.contains(s) {
                let i = choose|i: int| 0 <= i < now.len() && now[i] == s;
                if i < earlier.len() {
                    assert(earlier[i] == s);
                    assert(fresh(rest, known).contains(s));
                    let j = choose|j: int| 0 <= j < rest.len() && rest[j] == s;
                    assert(batch[j] == s);
                } else {
                    assert(batch[batch.len() - 1] == s);
                }
            }
            if batch.contains(s) && !known.contains(s) {
                let j = choose|j: int| 0 <= j < batch.len() && batch[j] == s;
                if j < rest.len() {
                    assert(rest[j] == s);
                    assert(rest.contains(s));
                    assert(fresh(rest, known).contains(s));
                    let i = choose|i: int| 0 <= i < earlier.len() && earlier[i] == s;
                    assert(now[i] == s);
                } else if earlier.contains(s) {
                    let i = choose|i: int| 0 <= i < earlier.len() && earlier[i] == s;
                    assert(now[i] == s);
                } else {
                    assert(now[now.len() - 1] == s);
                }
            }
        }
    }
}

/// A set of symbols.
pub struct SubscriptionSet {
    items: Vec<String>,
}

impl View for SubscriptionSet {
    type V = Set<Seq<char>>;

    closed spec fn view(&self) -> Set<Seq<char>> {
        texts(self.items@).to_set()
    }
}

impl SubscriptionSet {
    #[verifier::type_invariant]
    spec fn well_formed(self) -> bool {
        distinct(texts(self.items@))
    }

    /// The empty set.
    pub fn new() -> (r: SubscriptionSet)
        ensures
            r@ == Set::<Seq<char>>::empty(),
    {
        let r = SubscriptionSet { items: Vec::new() };
        assert(r@ =~= Set::<Seq<char>>::empty());
        r
    }

    fn position(&self, symbol: &str) -> (r: Option<usize>)
        ensures
            r matches Some(i) ==> i < self.items@.len() && self.items@[i as int]@ == symbol@,
            r is None ==> !self@.contains(symbol@),
    {
        let mut i: usize = 0;
        while i < self.items.len()
            invariant
                i <= self.items@.len(),
                forall|j: int| 0 <= j < i ==> (#[trigger] self.items@[j])@ != symbol@,
            decreases self.items@.len() - i,
        {
            if same_text(self.items[i].as_str(), symbol) {
                return Some(i);
            }
            i = i + 1;
        }
        proof {
            if self@.contains(symbol@) {
                let t = texts(self.items@);
                let j = choose|j: int| 0 <= j < t.len() && t[j] == symbol@;
                assert(self.items@[j]@ == symbol@);
            }
        }
        None
    }

    /// Whether `symbol` is in the set.
    pub fn contains(&self, symbol: &str) -> (r: bool)
        ensures
            r == self@.contains(symbol@),
    {
        match self.position(symbol) {
            Some(i) => {
                assert(texts(self.items@)[i as int] == symbol@);
                true
            },
            None => false,
        }
    }

    /// Puts `symbol` into the set. The result says whether it was new.
    pub fn insert(&mut self, symbol: String) -> (added: bool)
        ensures
            final(self)@ == old(self)@.insert(symbol@),
            added == !old(self)@.contains(symbol@),
    {
        proof {
            use_type_invariant(&*self);
        }
        let ghost before = texts(self.items@);
        match self.position(symbol.as_str()) {
            Some(i) => {
                assert(before[i as int] == symbol@);
                assert(self@ =~= self@.insert(symbol@));
                false
            },
            None => {
                let mut items: Vec<String> = Vec::new();
                core::mem::swap(&mut self.items, &mut items);
                items.push(symbol);
                proof {
                    let after = texts(items@);
                    assert(after =~= before.push(symbol@));
                    assert forall|a: int, b: int|
                        0 <= a < after.len() && 0 <= b < after.len() && a != b implies #[trigger] after[a]
                        != #[trigger] after[b] by {
                        if a < before.len() {
                            assert(before[a] == after[a]);
                            assert(before.contains(after[a]));
                        }
                        if b < before.len() {
                            assert(before[b] == after[b]);
                            assert(before.contains(after[b]));
                        }
                    }
                    assert forall|s: Seq<char>| after.to_set().contains(s) <==> before.to_set().insert(
                        symbol@,
                    ).contains(s) by {
                        if after.contains(s) {
                            let j = choose|j: int| 0 <= j < after.len() && after[j] == s;
                            if j < before.len() {
                                assert(before[j] == s);
                            }
                        }
                        if before.contains(s) {
                            let j = choose|j: int| 0 <= j < before.len() && before[j] == s;
                            assert(after[j] == s);
                        }
                        if s == symbol@ {
                            assert(after[before.len() as int] == s);
                        }
                    }
                    assert(after.to_set() =~= before.to_set().insert(symbol@));
                }
                self.items = items;
                true
            },
        }
    }

    /// Takes `symbol` out of the set. The result says whether it was there.
    pub fn remove(&mut self, symbol: &str) -> (removed: bool)
        ensures
            final(self)@ == old(self)@.remove(symbol@),
            removed == old(self)@.contains(symbol@),
    {
        proof {
            use_type_invariant(&*self);
        }
        let ghost before = texts(self.items@);
        match self.position(symbol) {
            Some(i) => {
                let mut items: Vec<String> = Vec::new();
                core::mem::swap(&mut self.items, &mut items);
                items.remove(i);
                proof {
                    let after = texts(items@);
                    assert(before[i as int] == symbol@);
                    assert(after =~= before.remove(i as int));
                    assert forall|a: int, b: int|
                        0 <= a < after.len() && 0 <= b < after.len() && a != b implies #[trigger] after[a]
                        != #[trigger] after[b] by {
                        let a0 = if a < i { a } else { a + 1 };
                        let b0 = if b < i { b } else { b + 1 };
                        assert(after[a] == before[a0]);
                        assert(after[b] == before[b0]);
                    }
                    assert forall|s: Seq<char>| after.to_set().contains(s) <==> before.to_set().remove(
                        symbol@,
                    ).contains(s) by {
                        if after.contains(s) {
                            let j = choose|j: int| 0 <= j < after.len() && after[j] == s;
                            let j0 = if j < i { j } else { j + 1 };
                            assert(before[j0] == s);
                        }
                        if before.contains(s) && s != symbol@ {
                            let j = choose|j: int| 0 <= j < before.len() && before[j] == s;
                            let j1 = if j < i { j } else { j - 1 };
                            assert(after[j1] == s);
                        }
                    }
                    assert(after.to_set() =~= before.to_set().remove(symbol@));
                }
                self.items = items;
                true
            },
            None => {
                assert(self@ =~= self@.remove(symbol@));
                false
            },
        }
    }

    /// Empties the set.
    pub fn clear(&mut self)
        ensures
            final(self)@ == Set::<Seq<char>>::empty(),
    {
        self.items = Vec::new();
        assert(self@ =~= Set::<Seq<char>>::empty());
    }

    /// How many symbols the set holds.
    pub fn len(&self) -> (n: usize)
        ensures
            n == self@.len(),
            self@.finite(),
    {
        proof {
            use_type_invariant(self);
            let t = texts(self.items@);
            assert(t.no_duplicates());
            t.unique_seq_to_set();
        }
        self.items.len()
    }

    /// The symbols of the set, each once.
    pub fn to_vec(&self) -> (r: Vec<String>)
        ensures
            texts(r@).to_set() == self@,
            distinct(texts(r@)),
    {
        proof {
            use_type_invariant(self);
        }
        let r = self.items.clone();
        assert(texts(r@) =~= texts(self.items@));
        r
    }
}

} // verus!
