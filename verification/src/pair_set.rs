//! Finite relations between two kinds of identifier, held without duplicates.

use vstd::prelude::*;
use vstd::seq_lib::lemma_seq_contains_after_push;

verus! {

/// Identifiers that executable code can compare.
pub trait Key: Copy {
    fn same(&self, other: &Self) -> (equal: bool)
        ensures
            equal == (*self == *other),
    ;
}

impl Key for u64 {
    fn same(&self, other: &Self) -> (equal: bool) {
        *self == *other
    }
}

/// Appending a value that does not occur keeps a sequence free of duplicates.
pub proof fn lemma_push_no_duplicates<T>(s: Seq<T>, v: T)
    requires
        s.no_duplicates(),
        !s.contains(v),
    ensures
        s.push(v).no_duplicates(),
{
    let r = s.push(v);
    assert forall|j: int, k: int| 0 <= j < r.len() && 0 <= k < r.len() && j != k implies r[j]
        != r[k] by {
        if j < s.len() && k < s.len() {
            assert(s[j] != s[k]);
        } else if j < s.len() {
            assert(s.contains(s[j]));
        } else {
            assert(s.contains(s[k]));
        }
    }
}

/// Removing one position from a sequence without duplicates removes exactly
/// the value that stood there.
pub proof fn lemma_remove_no_duplicates<T>(s: Seq<T>, i: int)
    requires
        0 <= i < s.len(),
        s.no_duplicates(),
    ensures
        s.remove(i).no_duplicates(),
        s.remove(i).to_set() == s.to_set().remove(s[i]),
{
    let r = s.remove(i);
    assert forall|j: int| 0 <= j < r.len() implies r[j] == s[if j < i {
        j
    } else {
        j + 1
    }] by {}
    assert forall|x: T| r.to_set().contains(x) <==> s.to_set().remove(s[i]).contains(x) by {
        if r.contains(x) {
            let j = choose|j: int| 0 <= j < r.len() && r[j] == x;
            let k = if j < i {
                j
            } else {
                j + 1
            };
            assert(s[k] == x);
        }
        if s.contains(x) && x != s[i] {
            let k = choose|k: int| 0 <= k < s.len() && s[k] == x;
            let j = if k < i {
                k
            } else {
                k - 1
            };
            assert(r[j] == x);
        }
    }
    assert(r.to_set() =~= s.to_set().remove(s[i]));
}

/// Overwriting one position of a sequence without duplicates with a value
/// that does not occur in it swaps the two values in its set.
pub proof fn lemma_update_no_duplicates<T>(s: Seq<T>, i: int, v: T)
    requires
        0 <= i < s.len(),
        s.no_duplicates(),
        !s.contains(v) || s[i] == v,
    ensures
        s.update(i, v).no_duplicates(),
        s.update(i, v).to_set() == s.to_set().remove(s[i]).insert(v),
{
    let r = s.update(i, v);
    assert forall|j: int, k: int| 0 <= j < r.len() && 0 <= k < r.len() && j != k implies r[j]
        != r[k] by {
        if j == i {
            assert(s[k] == r[k]);
        } else if k == i {
            assert(s[j] == r[j]);
        }
    }
    assert forall|x: T| r.to_set().contains(x) <==> s.to_set().remove(s[i]).insert(v).contains(
        x,
    ) by {
        if r.contains(x) {
            let j = choose|j: int| 0 <= j < r.len() && r[j] == x;
            if j != i {
                assert(s[j] == x);
            }
        }
        if x == v {
            assert(r[i] == x);
        } else if s.contains(x) && x != s[i] {
            let k = choose|k: int| 0 <= k < s.len() && s[k] == x;
            assert(r[k] == x);
        }
    }
    assert(r.to_set() =~= s.to_set().remove(s[i]).insert(v));
}

/// A finite set of pairs.
pub struct PairSet<A: Key, B: Key> {
    items: Vec<(A, B)>,
}

impl<A: Key, B: Key> View for PairSet<A, B> {
    type V = Set<(A, B)>;

    closed spec fn view(&self) -> Set<(A, B)> {
        self.items@.to_set()
    }
}

impl<A: Key, B: Key> PairSet<A, B> {
    /// No pair is held twice.
    pub closed spec fn wf(&self) -> bool {
        self.items@.no_duplicates()
    }

    pub fn new() -> (set: Self)
        ensures
            set.wf(),
            set@ == Set::<(A, B)>::empty(),
    {
        let set = PairSet { items: Vec::new() };
        assert(set@ =~= Set::<(A, B)>::empty());
        set
    }

    fn position(&self, a: A, b: B) -> (found: Option<usize>)
        ensures
            match found {
                Some(i) => i < self.items.len() && self.items@[i as int] == (a, b),
                None => !self.items@.contains((a, b)),
            },
    {
        let mut i: usize = 0;
        while i < self.items.len()
            invariant
                i <= self.items.len(),
                forall|j: int| 0 <= j < i ==> self.items@[j] != (a, b),
            decreases self.items.len() - i,
        {
            let item = self.items[i];
            if item.0.same(&a) && item.1.same(&b) {
                return Some(i);
            }
            i += 1;
        }
        None
    }

    pub fn contains(&self, a: A, b: B) -> (held: bool)
        ensures
            held == self@.contains((a, b)),
    {
        match self.position(a, b) {
            Some(i) => {
                assert(self.items@.contains(self.items@[i as int]));
                true
            },
            None => false,
        }
    }

    /// Adds the pair; says whether it was new.
    pub fn insert(&mut self, a: A, b: B) -> (added: bool)
        requires
            old(self).wf(),
        ensures
            final(self).wf(),
            final(self)@ == old(self)@.insert((a, b)),
            added == !old(self)@.contains((a, b)),
    {
        match self.position(a, b) {
            Some(i) => {
                assert(self.items@.contains(self.items@[i as int]));
                assert(self@ =~= old(self)@.insert((a, b)));
                false
            },
            None => {
                self.items.push((a, b));
                proof {
                    old(self).items@.lemma_push_to_set_commute((a, b));
                    lemma_push_no_duplicates(old(self).items@, (a, b));
                }
                true
            },
        }
    }

    /// Takes the pair out; says whether it was held.
    pub fn remove(&mut self, a: A, b: B) -> (removed: bool)
        requires
            old(self).wf(),
        ensures
            final(self).wf(),
            final(self)@ == old(self)@.remove((a, b)),
            removed == old(self)@.contains((a, b)),
    {
        match self.position(a, b) {
            Some(i) => {
                assert(self.items@.contains(self.items@[i as int]));
                self.items.remove(i);
                proof {
                    lemma_remove_no_duplicates(old(self).items@, i as int);
                }
                true
            },
            None => {
                assert(self@ =~= old(self)@.remove((a, b)));
                false
            },
        }
    }

    /// Takes out every pair whose first part is `a`.
    pub fn remove_left(&mut self, a: A)
        requires
            old(self).wf(),
        ensures
            final(self).wf(),
            final(self)@ == old(self)@.filter(|p: (A, B)| p.0 != a),
    {
        let mut kept: Vec<(A, B)> = Vec::new();
        let mut i: usize = 0;
        while i < self.items.len()
            invariant
                i <= self.items.len(),
                self.items@.no_duplicates(),
                kept@.no_duplicates(),
                forall|p: (A, B)| #[trigger]
                    kept@.contains(p) <==> self.items@.take(i as int).contains(p) && p.0 != a,
            decreases self.items.len() - i,
        {
            let item = self.items[i];
            let ghost before = kept@;
            let ghost seen = self.items@.take(i as int);
            assert(self.items@.take(i as int + 1) == seen.push(item));
            if !item.0.same(&a) {
                assert(!seen.contains(item)) by {
                    if seen.contains(item) {
                        let j = choose|j: int| 0 <= j < seen.len() && seen[j] == item;
                        assert(self.items@[j] == self.items@[i as int]);
                    }
                }
                assert(!before.contains(item));
                kept.push(item);
                proof {
                    lemma_push_no_duplicates(before, item);
                }
                assert forall|p: (A, B)| #[trigger]
                    kept@.contains(p) <==> seen.push(item).contains(p) && p.0 != a by {
                    lemma_seq_contains_after_push(before, item, p);
                    lemma_seq_contains_after_push(seen, item, p);
                }
            } else {
                assert forall|p: (A, B)| #[trigger]
                    kept@.contains(p) <==> seen.push(item).contains(p) && p.0 != a by {
                    lemma_seq_contains_after_push(seen, item, p);
                }
            }
            i += 1;
        }
        assert(self.items@.take(i as int) == self.items@);
        assert(kept@.to_set() =~= self.items@.to_set().filter(|p: (A, B)| p.0 != a));
        self.items = kept;
    }

    /// The first parts of the pairs whose second part is `b`, each once.
    pub fn lefts_of(&self, b: B) -> (lefts: Vec<A>)
        requires
            self.wf(),
        ensures
            lefts@.no_duplicates(),
            forall|a: A| #[trigger] lefts@.contains(a) <==> self@.contains((a, b)),
    {
        let mut lefts: Vec<A> = Vec::new();
        let mut i: usize = 0;
        while i < self.items.len()
            invariant
                i <= self.items.len(),
                self.items@.no_duplicates(),
                lefts@.no_duplicates(),
                forall|a: A| #[trigger]
                    lefts@.contains(a) <==> self.items@.take(i as int).contains((a, b)),
            decreases self.items.len() - i,
        {
            let item = self.items[i];
            let ghost before = lefts@;
            let ghost seen = self.items@.take(i as int);
            assert(self.items@.take(i as int + 1) == seen.push(item));
            if item.1.same(&b) {
                assert(item == (item.0, b));
                assert(!seen.contains(item)) by {
                    if seen.contains(item) {
                        let j = choose|j: int| 0 <= j < seen.len() && seen[j] == item;
                        assert(self.items@[j] == self.items@[i as int]);
                    }
                }
                assert(!before.contains(item.0));
                lefts.push(item.0);
                proof {
                    lemma_push_no_duplicates(before, item.0);
                }
                assert forall|a: A| #[trigger]
                    lefts@.contains(a) <==> seen.push(item).contains((a, b)) by {
                    lemma_seq_contains_after_push(before, item.0, a);
                    lemma_seq_contains_after_push(seen, item, (a, b));
                }
            } else {
                assert forall|a: A| #[trigger]
                    lefts@.contains(a) <==> seen.push(item).contains((a, b)) by {
                    lemma_seq_contains_after_push(seen, item, (a, b));
                }
            }
            i += 1;
        }
        assert(self.items@.take(i as int) == self.items@);
        lefts
    }

    /// How many pairs are held.
    pub fn len(&self) -> (count: usize)
        requires
            self.wf(),
        ensures
            count == self@.len(),
    {
        proof {
            self.items@.unique_seq_to_set();
        }
        self.items.len()
    }
}

} // verus!
