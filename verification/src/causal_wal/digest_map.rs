//! Finite maps keyed by 32-byte digests, kept in ascending key order.
use vstd::prelude::*;
use crate::ident::{hash_eq, hash_le};
use crate::keyset::lemma_strictly_sorted_unique;
use crate::order::{key_le, strictly_sorted_by_key, lemma_lex_le_antisymmetric, lemma_lex_le_connected, lemma_lex_le_transitive, lex_le, lex_lt};

verus! {

/// The map a sequence of entries describes (a later entry wins).
pub open spec fn entries_map<V>(s: Seq<(crate::ident::Hash, V)>) -> Map<crate::ident::Hash, V>
    decreases s.len(),
{
    if s.len() == 0 {
        Map::empty()
    } else {
        entries_map(s.drop_last()).insert(s.last().0, s.last().1)
    }
}

/// Keys strictly increase along the entries.
pub open spec fn keys_ascending<V>(s: Seq<(crate::ident::Hash, V)>) -> bool {
    forall|i: int, j: int| 0 <= i < j < s.len() ==> lex_lt((#[trigger] s[i]).0@, (#[trigger] s[j]).0@)
}

/// Distinct entries have distinct keys.
pub open spec fn keys_unique<V>(s: Seq<(crate::ident::Hash, V)>) -> bool {
    forall|i: int, j: int| 0 <= i < s.len() && 0 <= j < s.len() && i != j ==> (#[trigger] s[i]).0 != (#[trigger] s[j]).0
}

proof fn lemma_ascending_unique<V>(s: Seq<(crate::ident::Hash, V)>)
    requires
        keys_ascending(s),
    ensures
        keys_unique(s),
{
    assert forall|i: int, j: int| 0 <= i < s.len() && 0 <= j < s.len() && i != j implies (#[trigger] s[i]).0 != (#[trigger] s[j]).0 by {
        if i < j {
            assert(lex_lt(s[i].0@, s[j].0@));
        } else {
            assert(lex_lt(s[j].0@, s[i].0@));
        }
    }
}

/// With unique keys, the map holds exactly the entries.
pub proof fn lemma_entries_map<V>(s: Seq<(crate::ident::Hash, V)>)
    requires
        keys_unique(s),
    ensures
        forall|k: crate::ident::Hash| #[trigger] entries_map(s).dom().contains(k) <==> exists|i: int| 0 <= i < s.len() && (#[trigger] s[i]).0 == k,
        forall|i: int| 0 <= i < s.len() ==> #[trigger] entries_map(s)[s[i].0] == s[i].1,
        entries_map(s).dom().len() == s.len(),
        entries_map(s).dom().finite(),
    decreases s.len(),
{
    if s.len() > 0 {
        let t = s.drop_last();
        assert(keys_unique(t));
        lemma_entries_map(t);
        let last = s.last();
        assert(!entries_map(t).dom().contains(last.0)) by {
            if entries_map(t).dom().contains(last.0) {
                let i = choose|i: int| 0 <= i < t.len() && (#[trigger] t[i]).0 == last.0;
                assert(s[i].0 == s[s.len() - 1].0);
            }
        }
        assert forall|k: crate::ident::Hash| #[trigger] entries_map(s).dom().contains(k) <==> exists|i: int| 0 <= i < s.len() && (#[trigger] s[i]).0 == k by {
            if entries_map(s).dom().contains(k) && k != last.0 {
                let i = choose|i: int| 0 <= i < t.len() && (#[trigger] t[i]).0 == k;
                assert(s[i] == t[i]);
            }
            if exists|i: int| 0 <= i < s.len() && (#[trigger] s[i]).0 == k {
                let i = choose|i: int| 0 <= i < s.len() && (#[trigger] s[i]).0 == k;
                if i < s.len() - 1 {
                    assert(t[i] == s[i]);
                }
            }
        }
        assert forall|i: int| 0 <= i < s.len() implies #[trigger] entries_map(s)[s[i].0] == s[i].1 by {
            if i < s.len() - 1 {
                assert(t[i] == s[i]);
                assert(s[i].0 != last.0);
            }
        }
    }
}

/// Entries past position `i` that miss `k` leave `k` as the first `i` entries set it.
proof fn lemma_entries_map_take<V>(s: Seq<(crate::ident::Hash, V)>, i: int, k: crate::ident::Hash)
    requires
        0 <= i <= s.len(),
        forall|j: int| i <= j < s.len() ==> (#[trigger] s[j]).0 != k,
    ensures
        entries_map(s).dom().contains(k) == entries_map(s.take(i)).dom().contains(k),
        entries_map(s).dom().contains(k) ==> entries_map(s)[k] == entries_map(s.take(i))[k],
    decreases s.len() - i,
{
    if i < s.len() {
        lemma_entries_map_take(s, i + 1, k);
        assert(s.take(i + 1).drop_last() =~= s.take(i));
        assert(s.take(i + 1).last() == s[i]);
    } else {
        assert(s.take(i) =~= s);
    }
}

/// Finite map keyed by digests, held as entries in strictly ascending key order.
///
/// A std `BTreeMap` is not used: vstd's contracts for it hold only for key
/// types whose `Ord` it models (`obeys_cmp`), and it models no array type, so
/// with a 32-byte digest key nothing about its contents could be proved. The
/// ascending vector gives the same iteration order and lookups with contracts.
#[derive(Debug, PartialEq, Eq)]
pub struct DigestMap<V> {
    entries: Vec<(crate::ident::Hash, V)>,
}

impl<V> View for DigestMap<V> {
    type V = Map<crate::ident::Hash, V>;

    closed spec fn view(&self) -> Map<crate::ident::Hash, V> {
        entries_map(self.entries@)
    }
}

impl<V> DigestMap<V> {
    /// Entries in ascending key order.
    pub closed spec fn entries_spec(&self) -> Seq<(crate::ident::Hash, V)> {
        self.entries@
    }

    /// Keys strictly ascend.
    pub closed spec fn wf(&self) -> bool {
        keys_ascending(self.entries@)
    }

    /// The entries enumerate the map, in strictly ascending key order.
    pub proof fn lemma_view(&self)
        requires
            self.wf(),
        ensures
            keys_ascending(self.entries_spec()),
            keys_unique(self.entries_spec()),
            self@ == entries_map(self.entries_spec()),
            forall|k: crate::ident::Hash| #[trigger] self@.dom().contains(k) <==> exists|i: int|
                0 <= i < self.entries_spec().len() && (#[trigger] self.entries_spec()[i]).0 == k,
            forall|i: int| 0 <= i < self.entries_spec().len() ==> #[trigger] self@[self.entries_spec()[i].0]
                == self.entries_spec()[i].1,
            self@.dom().len() == self.entries_spec().len(),
            self@.dom().finite(),
    {
        lemma_ascending_unique(self.entries@);
        lemma_entries_map(self.entries@);
    }

    /// An empty map.
    pub fn new() -> (r: Self)
        ensures
            r.wf(),
            r@ == Map::<crate::ident::Hash, V>::empty(),
            r.entries_spec().len() == 0,
    {
        DigestMap { entries: Vec::new() }
    }

    /// Number of entries.
    pub fn len(&self) -> (n: usize)
        ensures
            n == self.entries_spec().len(),
    {
        self.entries.len()
    }

    /// Entries in ascending key order.
    pub fn entries(&self) -> (r: &[(crate::ident::Hash, V)])
        ensures
            r@ == self.entries_spec(),
    {
        self.entries.as_slice()
    }

    /// The value at `k`, if present, found by scanning from the last entry:
    /// the entry that the map's view holds for `k`, whatever the key order.
    pub fn lookup(&self, k: &crate::ident::Hash) -> (r: Option<&V>)
        ensures
            r is None <==> !self@.dom().contains(*k),
            r matches Some(v) ==> *v == self@[*k],
    {
        let ghost s = self.entries@;
        let mut i: usize = self.entries.len();
        while i > 0
            invariant
                i <= s.len(),
                s == self.entries@,
                forall|j: int| i <= j < s.len() ==> (#[trigger] s[j]).0 != *k,
            decreases i,
        {
            if hash_eq(&self.entries[i - 1].0, k) {
                proof {
                    lemma_entries_map_take(s, i as int, *k);
                    assert(s.take(i as int).drop_last() =~= s.take(i - 1));
                    assert(s.take(i as int).last() == s[i - 1]);
                }
                return Some(&self.entries[i - 1].1);
            }
            i -= 1;
        }
        proof {
            lemma_entries_map_take(s, 0, *k);
            assert(s.take(0) =~= Seq::<(crate::ident::Hash, V)>::empty());
        }
        None
    }

    /// Position of key `k`, if present.
    pub fn find(&self, k: &crate::ident::Hash) -> (r: Option<usize>)
        requires
            self.wf(),
        ensures
            r is None ==> !self@.dom().contains(*k),
            r matches Some(i) ==> i < self.entries_spec().len() && self.entries_spec()[i as int].0 == *k
                && self@.dom().contains(*k) && self@[*k] == self.entries_spec()[i as int].1,
    {
        proof {
            self.lemma_view();
        }
        let mut i: usize = 0;
        while i < self.entries.len()
            invariant
                self.wf(),
                i <= self.entries@.len(),
                forall|j: int| 0 <= j < i ==> (#[trigger] self.entries@[j]).0 != *k,
            decreases self.entries.len() - i,
        {
            if hash_eq(&self.entries[i].0, k) {
                proof {
                    self.lemma_view();
                    assert(self@[self.entries_spec()[i as int].0] == self.entries_spec()[i as int].1);
                    assert(self@.dom().contains(self.entries_spec()[i as int].0));
                }
                return Some(i);
            }
            i += 1;
        }
        None
    }

    /// The value at `k`, if present.
    pub fn get(&self, k: &crate::ident::Hash) -> (r: Option<&V>)
        requires
            self.wf(),
        ensures
            r is None <==> !self@.dom().contains(*k),
            r matches Some(v) ==> *v == self@[*k],
    {
        match self.find(k) {
            None => None,
            Some(i) => Some(&self.entries[i].1),
        }
    }

    /// Removes and returns the value at `k`, if present.
    pub fn take(&mut self, k: &crate::ident::Hash) -> (r: Option<V>)
        requires
            old(self).wf(),
        ensures
            final(self).wf(),
            r is None <==> !old(self)@.dom().contains(*k),
            r matches Some(v) ==> v == old(self)@[*k],
            final(self)@ == old(self)@.remove(*k),
    {
        proof {
            self.lemma_view();
        }
        match self.find(k) {
            None => {
                assert(self@ =~= self@.remove(*k));
                None
            },
            Some(i) => {
                let ghost before = self.entries@;
                let (_, v) = self.entries.remove(i);
                proof {
                    let s = self.entries@;
                    assert(s == before.remove(i as int));
                    assert forall|a: int, b: int| 0 <= a < b < s.len() implies lex_lt((#[trigger] s[a]).0@, (#[trigger] s[b]).0@) by {
                        if b < i {
                        } else if a < i {
                            assert(s[b] == before[b + 1]);
                        } else {
                            assert(s[a] == before[a + 1] && s[b] == before[b + 1]);
                        }
                    }
                    lemma_ascending_unique(s);
                    lemma_entries_map(s);
                    lemma_ascending_unique(before);
                    lemma_entries_map(before);
                    assert(entries_map(s) =~= entries_map(before).remove(*k)) by {
                        assert forall|q: crate::ident::Hash| #[trigger] entries_map(s).dom().contains(q) <==> entries_map(before).remove(*k).dom().contains(q) by {
                            if entries_map(s).dom().contains(q) {
                                let a = choose|a: int| 0 <= a < s.len() && (#[trigger] s[a]).0 == q;
                                if a < i {
                                    assert(s[a] == before[a]);
                                } else {
                                    assert(s[a] == before[a + 1]);
                                }
                            }
                            if entries_map(before).remove(*k).dom().contains(q) {
                                let a = choose|a: int| 0 <= a < before.len() && (#[trigger] before[a]).0 == q;
                                if a < i {
                                    assert(s[a] == before[a]);
                                } else if a > i {
                                    assert(s[a - 1] == before[a]);
                                }
                            }
                        }
                        assert forall|q: crate::ident::Hash| #[trigger] entries_map(s).dom().contains(q) implies entries_map(s)[q] == entries_map(before)[q] by {
                            let a = choose|a: int| 0 <= a < s.len() && (#[trigger] s[a]).0 == q;
                            if a < i {
                                assert(s[a] == before[a]);
                            } else {
                                assert(s[a] == before[a + 1]);
                            }
                        }
                    }
                }
                Some(v)
            },
        }
    }

    /// Sets the value at `k`, replacing any previous value.
    pub fn insert(&mut self, k: crate::ident::Hash, v: V)
        requires
            old(self).wf(),
        ensures
            final(self).wf(),
            final(self)@ == old(self)@.insert(k, v),
    {
        let _ = self.take(&k);
        let ghost before = self.entries@;
        let mut pos: usize = 0;
        while pos < self.entries.len()
            invariant
                pos <= self.entries@.len(),
                self.entries@ == before,
                forall|j: int| 0 <= j < pos ==> lex_lt((#[trigger] self.entries@[j]).0@, k@),
            ensures
                pos <= self.entries@.len(),
                forall|j: int| 0 <= j < pos ==> lex_lt((#[trigger] self.entries@[j]).0@, k@),
                pos < self.entries@.len() ==> lex_le(k@, self.entries@[pos as int].0@),
            decreases self.entries.len() - pos,
        {
            if hash_le(&k, &self.entries[pos].0) {
                break;
            }
            proof {
                lemma_lex_le_connected(k@, self.entries@[pos as int].0@);
                if self.entries@[pos as int].0@ == k@ {
                    assert(lex_le(k@, self.entries@[pos as int].0@));
                }
            }
            pos += 1;
        }
        let ghost p = pos as int;
        proof {
            lemma_ascending_unique(before);
            lemma_entries_map(before);
            assert forall|j: int| p <= j < before.len() implies lex_lt(k@, (#[trigger] before[j]).0@) by {
                if before[j].0 == k {
                    assert(entries_map(before).dom().contains(k));
                }
                if before[j].0@ == k@ {
                    assert(before[j].0 =~= k);
                }
                if j > p {
                    assert(lex_lt(before[p].0@, before[j].0@));
                    lemma_lex_le_transitive(k@, before[p].0@, before[j].0@);
                }
                if j > p && k@ == before[j].0@ {
                    lemma_lex_le_antisymmetric(k@, before[p].0@);
                    assert(before[p].0 =~= k);
                    assert(entries_map(before).dom().contains(k));
                }
            }
        }
        self.entries.insert(pos, (k, v));
        proof {
            let s = self.entries@;
            assert(s == before.insert(p, (k, v)));
            assert forall|a: int, b: int| 0 <= a < b < s.len() implies lex_lt((#[trigger] s[a]).0@, (#[trigger] s[b]).0@) by {
                if b < p {
                } else if b == p {
                } else if a < p {
                    assert(s[b] == before[b - 1]);
                    lemma_lex_le_transitive(s[a].0@, k@, s[b].0@);
                    if s[a].0@ == s[b].0@ {
                        lemma_lex_le_antisymmetric(s[a].0@, k@);
                    }
                } else if a == p {
                    assert(s[b] == before[b - 1]);
                } else {
                    assert(s[a] == before[a - 1] && s[b] == before[b - 1]);
                }
            }
            lemma_ascending_unique(s);
            lemma_entries_map(s);
            assert(entries_map(s) =~= entries_map(before).insert(k, v)) by {
                assert forall|q: crate::ident::Hash| #[trigger] entries_map(s).dom().contains(q) <==> entries_map(before).insert(k, v).dom().contains(q) by {
                    if entries_map(s).dom().contains(q) && q != k {
                        let a = choose|a: int| 0 <= a < s.len() && (#[trigger] s[a]).0 == q;
                        if a < p {
                            assert(s[a] == before[a]);
                        } else if a > p {
                            assert(s[a] == before[a - 1]);
                        }
                    }
                    if entries_map(before).dom().contains(q) {
                        let a = choose|a: int| 0 <= a < before.len() && (#[trigger] before[a]).0 == q;
                        if a < p {
                            assert(s[a] == before[a]);
                        } else {
                            assert(s[a + 1] == before[a]);
                        }
                    }
                    if q == k {
                        assert(s[p].0 == k);
                    }
                }
                assert forall|q: crate::ident::Hash| #[trigger] entries_map(s).dom().contains(q) implies entries_map(s)[q] == entries_map(before).insert(k, v)[q] by {
                    let a = choose|a: int| 0 <= a < s.len() && (#[trigger] s[a]).0 == q;
                    if a < p {
                        assert(s[a] == before[a]);
                    } else if a > p {
                        assert(s[a] == before[a - 1]);
                    }
                }
            }
        }
    }
}

/// Two well-formed maps over the same keys list those keys in the same order.
pub proof fn lemma_same_keys_same_order<V, W>(a: &DigestMap<V>, b: &DigestMap<W>)
    requires
        a.wf(),
        b.wf(),
        a@.dom() == b@.dom(),
    ensures
        a.entries_spec().len() == b.entries_spec().len(),
        forall|i: int| 0 <= i < a.entries_spec().len() ==> (#[trigger] a.entries_spec()[i]).0 == b.entries_spec()[i].0,
{
    a.lemma_view();
    b.lemma_view();
    let ea = a.entries_spec();
    let eb = b.entries_spec();
    let ka = ea.map_values(|e: (crate::ident::Hash, V)| e.0);
    let kb = eb.map_values(|e: (crate::ident::Hash, W)| e.0);
    assert(strictly_sorted_by_key(ka)) by {
        assert forall|i: int, j: int| 0 <= i < j < ka.len() implies key_le(#[trigger] ka[i], #[trigger] ka[j]) && ka[i] != ka[j] by {
            assert(lex_lt(ea[i].0@, ea[j].0@));
        }
    }
    assert(strictly_sorted_by_key(kb)) by {
        assert forall|i: int, j: int| 0 <= i < j < kb.len() implies key_le(#[trigger] kb[i], #[trigger] kb[j]) && kb[i] != kb[j] by {
            assert(lex_lt(eb[i].0@, eb[j].0@));
        }
    }
    assert(ka.to_set() =~= kb.to_set()) by {
        assert forall|k: crate::ident::Hash| ka.to_set().contains(k) implies kb.to_set().contains(k) by {
            let i = choose|i: int| 0 <= i < ka.len() && ka[i] == k;
            assert(ea[i].0 == k);
            assert(a@.dom().contains(k));
            let j = choose|j: int| 0 <= j < eb.len() && (#[trigger] eb[j]).0 == k;
            assert(kb[j] == k);
        }
        assert forall|k: crate::ident::Hash| kb.to_set().contains(k) implies ka.to_set().contains(k) by {
            let i = choose|i: int| 0 <= i < kb.len() && kb[i] == k;
            assert(eb[i].0 == k);
            assert(b@.dom().contains(k));
            let j = choose|j: int| 0 <= j < ea.len() && (#[trigger] ea[j]).0 == k;
            assert(ka[j] == k);
        }
    }
    lemma_strictly_sorted_unique(ka, kb);
    assert forall|i: int| 0 <= i < ea.len() implies (#[trigger] ea[i]).0 == eb[i].0 by {
        assert(ka[i] == kb[i]);
    }
}

/// A well-formed map is determined by its contents: two with the same view
/// hold the same entries in the same order.
pub proof fn lemma_same_view_same_entries<V>(a: &DigestMap<V>, b: &DigestMap<V>)
    requires
        a.wf(),
        b.wf(),
        a@ == b@,
    ensures
        a.entries_spec() == b.entries_spec(),
{
    a.lemma_view();
    b.lemma_view();
    lemma_same_keys_same_order(a, b);
    let ea = a.entries_spec();
    let eb = b.entries_spec();
    assert forall|i: int| 0 <= i < ea.len() implies ea[i] == eb[i] by {
        assert(ea[i].0 == eb[i].0);
        assert(a@[ea[i].0] == ea[i].1);
        assert(b@[eb[i].0] == eb[i].1);
    }
    assert(ea =~= eb);
}

} // verus!
