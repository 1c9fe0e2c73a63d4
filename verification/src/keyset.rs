//! Canonically ordered sets of keyed values.
use vstd::prelude::*;
use vstd::relations::*;
use crate::order::{
    bytes_eq, bytes_le, key_le, lemma_key_le_total_ordering, lemma_lex_le_antisymmetric,
    lemma_lex_le_connected, lemma_lex_le_transitive, lex_le, strictly_sorted_by_key,
    CanonicalKey,
};

verus! {

broadcast use vstd::seq_lib::group_to_multiset_ensures, vstd::multiset::group_multiset_axioms;

/// A finite set stored as a vector strictly increasing in canonical key order.
///
/// It stands where a std `BTreeSet` would: vstd's contracts for `BTreeSet` hold
/// only for key types whose `Ord` it models (`obeys_cmp`), which excludes the
/// array-based ids and keys held here. The vector keeps the same ascending
/// iteration order, with that order as its invariant.
#[derive(Debug, PartialEq, Eq)]
pub struct KeySet<T: CanonicalKey + Copy> {
    items: Vec<T>,
}

impl<T: CanonicalKey + Copy> KeySet<T> {
    /// Elements in canonical (strictly increasing key) order.
    pub closed spec fn canonical_seq(&self) -> Seq<T> {
        self.items@
    }

    /// Well-formedness: the backing vector is strictly increasing by key.
    pub closed spec fn wf(&self) -> bool {
        strictly_sorted_by_key(self.items@)
    }

    /// The canonical sequence is strictly increasing and enumerates the set.
    pub proof fn lemma_canonical(&self)
        requires
            self.wf(),
        ensures
            strictly_sorted_by_key(self.canonical_seq()),
            self.canonical_seq().to_set() == self@,
            self.canonical_seq().no_duplicates(),
    {
        let x = self.items@;
        assert forall|i: int, j: int| 0 <= i < x.len() && 0 <= j < x.len() && i != j implies x[i] != x[j] by {
            if i < j {
            } else {
            }
        }
    }

    /// Creates an empty set.
    pub fn new() -> (r: Self)
        ensures
            r.wf(),
            r@ == Set::<T>::empty(),
            r.canonical_seq() == Seq::<T>::empty(),
    {
        let r = KeySet { items: Vec::new() };
        assert(r.items@.to_set() =~= Set::<T>::empty());
        r
    }

    /// Copies the set.
    pub fn duplicate(&self) -> (r: Self)
        requires
            self.wf(),
        ensures
            r.wf(),
            r@ == self@,
            r.canonical_seq() == self.canonical_seq(),
    {
        let mut items: Vec<T> = Vec::new();
        let mut i: usize = 0;
        while i < self.items.len()
            invariant
                i <= self.items@.len(),
                items@ == self.items@.subrange(0, i as int),
            decreases self.items.len() - i,
        {
            items.push(self.items[i]);
            i += 1;
            assert(items@ =~= self.items@.subrange(0, i as int));
        }
        assert(self.items@.subrange(0, self.items@.len() as int) =~= self.items@);
        KeySet { items }
    }

    /// Number of elements.
    pub fn len(&self) -> (n: usize)
        ensures
            n == self.canonical_seq().len(),
    {
        self.items.len()
    }

    /// Returns `true` when the set is empty.
    pub fn is_empty(&self) -> (r: bool)
        ensures
            r == (self@ == Set::<T>::empty()),
    {
        proof {
            if self.items@.len() > 0 {
                assert(self@.contains(self.items@[0]));
            } else {
                assert(self@ =~= Set::<T>::empty());
            }
        }
        self.items.len() == 0
    }

    /// Elements in canonical order.
    pub fn as_slice(&self) -> (r: &[T])
        ensures
            r@ == self.canonical_seq(),
    {
        self.items.as_slice()
    }

    /// Membership test.
    pub fn contains(&self, x: &T) -> (r: bool)
        ensures
            r == self@.contains(*x),
    {
        let xk = x.key_bytes();
        let mut i: usize = 0;
        while i < self.items.len()
            invariant
                i <= self.items@.len(),
                xk@ == x.key(),
                forall|j: int| 0 <= j < i ==> self.items@[j] != *x,
            decreases self.items.len() - i,
        {
            let yk = self.items[i].key_bytes();
            if bytes_eq(yk.as_slice(), xk.as_slice()) {
                proof {
                    T::lemma_key_injective(self.items@[i as int], *x);
                }
                return true;
            }
            i += 1;
        }
        proof {
            if self@.contains(*x) {
                let j = choose|j: int| 0 <= j < self.items@.len() && self.items@[j] == *x;
                assert(self.items@[j] != *x);
            }
        }
        false
    }

    /// Inserts `x`; returns `true` when it was not already present.
    pub fn insert(&mut self, x: T) -> (r: bool)
        requires
            old(self).wf(),
        ensures
            final(self).wf(),
            final(self)@ == old(self)@.insert(x),
            r == !old(self)@.contains(x),
    {
        proof {
            lemma_key_le_total_ordering::<T>();
        }
        let xk = x.key_bytes();
        let mut pos: usize = 0;
        while pos < self.items.len()
            invariant
                pos <= self.items@.len(),
                xk@ == x.key(),
                strictly_sorted_by_key(self.items@),
                forall|j: int| 0 <= j < pos ==> key_le(#[trigger] self.items@[j], x) && self.items@[j] != x,
            ensures
                pos <= self.items@.len(),
                forall|j: int| 0 <= j < pos ==> key_le(#[trigger] self.items@[j], x) && self.items@[j] != x,
                pos < self.items@.len() ==> !key_le(self.items@[pos as int], x) || self.items@[pos as int] == x,
            decreases self.items.len() - pos,
        {
            let yk = self.items[pos].key_bytes();
            if !bytes_le(yk.as_slice(), xk.as_slice()) {
                break;
            }
            if bytes_eq(yk.as_slice(), xk.as_slice()) {
                proof {
                    T::lemma_key_injective(self.items@[pos as int], x);
                }
                break;
            }
            proof {
                if self.items@[pos as int] == x {
                    assert(self.items@[pos as int].key() == x.key());
                }
            }
            pos += 1;
        }
        let ghost old_items = self.items@;
        if pos < self.items.len() {
            let yk = self.items[pos].key_bytes();
            if bytes_eq(yk.as_slice(), xk.as_slice()) {
                proof {
                    T::lemma_key_injective(self.items@[pos as int], x);
                    assert(self@.insert(x) =~= self@);
                }
                return false;
            }
        }
        let ghost p = pos as int;
        proof {
            if p < old_items.len() {
                assert(old_items[p] != x);
                lemma_lex_le_connected(old_items[p].key(), x.key());
                assert(key_le(x, old_items[p]));
            }
            assert forall|j: int| p <= j < old_items.len() implies key_le(x, #[trigger] old_items[j])
                && old_items[j] != x by {
                if j > p {
                    lemma_lex_le_transitive(x.key(), old_items[p].key(), old_items[j].key());
                    if old_items[j] == x {
                        lemma_lex_le_antisymmetric(x.key(), old_items[p].key());
                        T::lemma_key_injective(x, old_items[p]);
                    }
                }
            }
            assert(!old_items.contains(x));
        }
        self.items.insert(pos, x);
        proof {
            let s = self.items@;
            assert(s == old_items.insert(p, x));
            assert forall|i: int, j: int| 0 <= i < j < s.len() implies key_le(#[trigger] s[i], #[trigger] s[j])
                && s[i] != s[j] by {
                if j < p {
                } else if j == p {
                } else if i < p {
                    lemma_lex_le_transitive(s[i].key(), x.key(), s[j].key());
                    if s[i] == s[j] {
                        lemma_lex_le_antisymmetric(s[i].key(), x.key());
                        T::lemma_key_injective(s[i], x);
                    }
                } else if i == p {
                } else {
                }
            }
            assert(s.to_set() =~= old_items.to_set().insert(x)) by {
                assert forall|y: T| s.contains(y) <==> old_items.contains(y) || y == x by {
                    if s.contains(y) {
                        let k = choose|k: int| 0 <= k < s.len() && s[k] == y;
                        if k < p {
                            assert(old_items[k] == y);
                        } else if k > p {
                            assert(old_items[k - 1] == y);
                        }
                    }
                    if old_items.contains(y) {
                        let k = choose|k: int| 0 <= k < old_items.len() && old_items[k] == y;
                        if k < p {
                            assert(s[k] == y);
                        } else {
                            assert(s[k + 1] == y);
                        }
                    }
                    if y == x {
                        assert(s[p] == y);
                    }
                }
            }
        }
        true
    }
}

impl<T: CanonicalKey + Copy> View for KeySet<T> {
    type V = Set<T>;

    closed spec fn view(&self) -> Set<T> {
        self.items@.to_set()
    }
}

/// Two strictly key-ordered sequences with the same elements are equal.
pub proof fn lemma_strictly_sorted_unique<T: CanonicalKey>(x: Seq<T>, y: Seq<T>)
    requires
        strictly_sorted_by_key(x),
        strictly_sorted_by_key(y),
        x.to_set() == y.to_set(),
    ensures
        x == y,
{
    lemma_key_le_total_ordering::<T>();
    let leq = |p: T, q: T| key_le(p, q);
    assert(sorted_by(x, leq));
    assert(sorted_by(y, leq));
    assert(x.no_duplicates());
    assert(y.no_duplicates());
    x.unique_seq_to_set();
    y.unique_seq_to_set();
    assert(x.to_multiset() =~= y.to_multiset()) by {
        assert forall|t: T| x.to_multiset().count(t) == y.to_multiset().count(t) by {
            x.lemma_multiset_has_no_duplicates();
            y.lemma_multiset_has_no_duplicates();
            if x.contains(t) {
                assert(x.to_set().contains(t));
                assert(y.to_set().contains(t));
            } else {
                assert(!x.to_set().contains(t));
                assert(!y.contains(t));
            }
        }
    }
    vstd::seq_lib::lemma_sorted_unique(x, y, leq);
}

/// The strictly key-ordered sequence enumerating `s`.
pub open spec fn canonical_order<T: CanonicalKey>(s: Set<T>) -> Seq<T> {
    choose|q: Seq<T>| strictly_sorted_by_key(q) && q.to_set() == s
}

/// A strictly key-ordered enumeration of `s` is its canonical order.
pub proof fn lemma_canonical_order<T: CanonicalKey>(q: Seq<T>, s: Set<T>)
    requires
        strictly_sorted_by_key(q),
        q.to_set() == s,
    ensures
        canonical_order(s) == q,
{
    let c = canonical_order(s);
    assert(strictly_sorted_by_key(c) && c.to_set() == s);
    lemma_strictly_sorted_unique(c, q);
}

/// Two sets with the same elements have the same canonical sequence.
pub proof fn lemma_keyset_canonical_unique<T: CanonicalKey + Copy>(a: &KeySet<T>, b: &KeySet<T>)
    requires
        a.wf(),
        b.wf(),
        a@ == b@,
    ensures
        a.canonical_seq() == b.canonical_seq(),
{
    a.lemma_canonical();
    b.lemma_canonical();
    lemma_strictly_sorted_unique(a.canonical_seq(), b.canonical_seq());
}

} // verus!
