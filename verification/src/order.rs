//! Lexicographic byte order, canonical keys, and verified canonical sorting.
use vstd::prelude::*;
use vstd::relations::*;

verus! {

broadcast use vstd::seq_lib::group_to_multiset_ensures, vstd::multiset::group_multiset_axioms;

/// Lexicographic "less than or equal" on byte strings, as Rust orders `[u8]`.
pub open spec fn lex_le(a: Seq<u8>, b: Seq<u8>) -> bool
    decreases a.len(),
{
    if a.len() == 0 {
        true
    } else if b.len() == 0 {
        false
    } else if a[0] != b[0] {
        a[0] < b[0]
    } else {
        lex_le(a.drop_first(), b.drop_first())
    }
}

/// Strict lexicographic order on byte strings.
pub open spec fn lex_lt(a: Seq<u8>, b: Seq<u8>) -> bool {
    lex_le(a, b) && a != b
}

pub proof fn lemma_lex_le_reflexive(a: Seq<u8>)
    ensures
        lex_le(a, a),
    decreases a.len(),
{
    if a.len() > 0 {
        lemma_lex_le_reflexive(a.drop_first());
    }
}

pub proof fn lemma_lex_le_antisymmetric(a: Seq<u8>, b: Seq<u8>)
    requires
        lex_le(a, b),
        lex_le(b, a),
    ensures
        a == b,
    decreases a.len(),
{
    if a.len() > 0 && b.len() > 0 {
        lemma_lex_le_antisymmetric(a.drop_first(), b.drop_first());
        assert(a =~= seq![a[0]] + a.drop_first());
        assert(b =~= seq![b[0]] + b.drop_first());
    } else {
        assert(a =~= b);
    }
}

pub proof fn lemma_lex_le_transitive(a: Seq<u8>, b: Seq<u8>, c: Seq<u8>)
    requires
        lex_le(a, b),
        lex_le(b, c),
    ensures
        lex_le(a, c),
    decreases a.len(),
{
    if a.len() > 0 && b.len() > 0 && c.len() > 0 {
        if a[0] == b[0] && b[0] == c[0] {
            lemma_lex_le_transitive(a.drop_first(), b.drop_first(), c.drop_first());
        }
    }
}

pub proof fn lemma_lex_le_connected(a: Seq<u8>, b: Seq<u8>)
    ensures
        lex_le(a, b) || lex_le(b, a),
    decreases a.len(),
{
    if a.len() > 0 && b.len() > 0 && a[0] == b[0] {
        lemma_lex_le_connected(a.drop_first(), b.drop_first());
    }
}

/// `lex_le` is a total order on byte strings.
pub proof fn lemma_lex_le_total_ordering()
    ensures
        total_ordering(|a: Seq<u8>, b: Seq<u8>| lex_le(a, b)),
{
    assert forall|a: Seq<u8>| #[trigger] lex_le(a, a) by {
        lemma_lex_le_reflexive(a);
    }
    assert forall|a: Seq<u8>, b: Seq<u8>| #[trigger] lex_le(a, b) && #[trigger] lex_le(b, a) implies a
        == b by {
        lemma_lex_le_antisymmetric(a, b);
    }
    assert forall|a: Seq<u8>, b: Seq<u8>, c: Seq<u8>| #[trigger] lex_le(a, b) && #[trigger] lex_le(
        b,
        c,
    ) implies lex_le(a, c) by {
        lemma_lex_le_transitive(a, b, c);
    }
    assert forall|a: Seq<u8>, b: Seq<u8>| #[trigger] lex_le(a, b) || #[trigger] lex_le(b, a) by {
        lemma_lex_le_connected(a, b);
    }
}

proof fn lemma_lex_le_common_prefix(a: Seq<u8>, b: Seq<u8>, i: int)
    requires
        0 <= i <= a.len(),
        i <= b.len(),
        a.subrange(0, i) == b.subrange(0, i),
    ensures
        lex_le(a, b) == lex_le(a.subrange(i, a.len() as int), b.subrange(i, b.len() as int)),
    decreases i,
{
    if i > 0 {
        assert(a[0] == a.subrange(0, i)[0]);
        assert(b[0] == b.subrange(0, i)[0]);
        assert(a.drop_first().subrange(0, i - 1) =~= a.subrange(0, i).drop_first());
        assert(b.drop_first().subrange(0, i - 1) =~= b.subrange(0, i).drop_first());
        lemma_lex_le_common_prefix(a.drop_first(), b.drop_first(), i - 1);
        assert(a.drop_first().subrange(i - 1, a.len() - 1) =~= a.subrange(i, a.len() as int));
        assert(b.drop_first().subrange(i - 1, b.len() - 1) =~= b.subrange(i, b.len() as int));
    } else {
        assert(a.subrange(0, a.len() as int) =~= a);
        assert(b.subrange(0, b.len() as int) =~= b);
    }
}

/// Compares two byte strings lexicographically.
pub fn bytes_le(a: &[u8], b: &[u8]) -> (r: bool)
    ensures
        r == lex_le(a@, b@),
{
    let mut i: usize = 0;
    while i < a.len() && i < b.len()
        invariant
            i <= a.len(),
            i <= b.len(),
            a@.subrange(0, i as int) == b@.subrange(0, i as int),
        decreases a.len() - i,
    {
        if a[i] != b[i] {
            proof {
                lemma_lex_le_common_prefix(a@, b@, i as int);
            }
            return a[i] < b[i];
        }
        assert(a@.subrange(0, i + 1) =~= a@.subrange(0, i as int).push(a@[i as int]));
        assert(b@.subrange(0, i + 1) =~= b@.subrange(0, i as int).push(b@[i as int]));
        i += 1;
    }
    proof {
        lemma_lex_le_common_prefix(a@, b@, i as int);
    }
    i == a.len()
}

/// Exact equality of two byte strings.
pub fn bytes_eq(a: &[u8], b: &[u8]) -> (r: bool)
    ensures
        r == (a@ == b@),
{
    if a.len() != b.len() {
        return false;
    }
    let mut i: usize = 0;
    while i < a.len()
        invariant
            i <= a.len(),
            a.len() == b.len(),
            forall|j: int| 0 <= j < i ==> a@[j] == b@[j],
        decreases a.len() - i,
    {
        if a[i] != b[i] {
            return false;
        }
        i += 1;
    }
    assert(a@ =~= b@);
    true
}

/// A value with a byte key; values are ordered by the lexicographic order
/// of their keys.
pub trait SortKey: Sized {
    spec fn key(&self) -> Seq<u8>;

    fn key_bytes(&self) -> (k: Vec<u8>)
        ensures
            k@ == self.key(),
    ;
}

/// A keyed value whose key determines it: distinct values have distinct keys.
pub trait CanonicalKey: SortKey {
    proof fn lemma_key_injective(a: Self, b: Self)
        ensures
            a.key() == b.key() ==> a == b,
    ;
}

/// Order of keyed values: by the lexicographic order of their keys.
pub open spec fn key_le<T: SortKey>(a: T, b: T) -> bool {
    lex_le(a.key(), b.key())
}

/// The key order is a total order on keyed values.
pub proof fn lemma_key_le_total_ordering<T: CanonicalKey>()
    ensures
        total_ordering(|a: T, b: T| key_le(a, b)),
{
    lemma_lex_le_total_ordering();
    assert forall|a: T, b: T| #[trigger] key_le(a, b) && #[trigger] key_le(b, a) implies a == b by {
        lemma_lex_le_antisymmetric(a.key(), b.key());
        T::lemma_key_injective(a, b);
    }
    assert forall|a: T| #[trigger] key_le(a, a) by {
        lemma_lex_le_reflexive(a.key());
    }
    assert forall|a: T, b: T, c: T| #[trigger] key_le(a, b) && #[trigger] key_le(b, c) implies key_le(
        a,
        c,
    ) by {
        lemma_lex_le_transitive(a.key(), b.key(), c.key());
    }
    assert forall|a: T, b: T| #[trigger] key_le(a, b) || #[trigger] key_le(b, a) by {
        lemma_lex_le_connected(a.key(), b.key());
    }
}

/// Sequence sorted by key order (non-strictly).
pub open spec fn sorted_by_key<T: SortKey>(s: Seq<T>) -> bool {
    forall|i: int, j: int| 0 <= i < j < s.len() ==> key_le(#[trigger] s[i], #[trigger] s[j])
}

/// Sequence strictly increasing in key order: sorted with no two equal elements.
pub open spec fn strictly_sorted_by_key<T: CanonicalKey>(s: Seq<T>) -> bool {
    forall|i: int, j: int|
        0 <= i < j < s.len() ==> key_le(#[trigger] s[i], #[trigger] s[j]) && s[i] != s[j]
}

/// Position of the first element at or after `i` whose key exceeds that of `x`.
pub open spec fn first_greater_from<T: SortKey>(s: Seq<T>, x: T, i: int) -> int
    decreases s.len() - i,
{
    if i < 0 || i >= s.len() {
        s.len() as int
    } else if !key_le(s[i], x) {
        i
    } else {
        first_greater_from(s, x, i + 1)
    }
}

/// `x` inserted before the first element whose key exceeds its own.
pub open spec fn insert_by_key<T: SortKey>(s: Seq<T>, x: T) -> Seq<T> {
    s.take(first_greater_from(s, x, 0)).push(x) + s.skip(first_greater_from(s, x, 0))
}

/// Insertion sort by key: the tail is sorted, then the head inserted.
pub open spec fn sort_by_key_spec<T: SortKey>(v: Seq<T>) -> Seq<T>
    decreases v.len(),
{
    if v.len() == 0 {
        v
    } else {
        insert_by_key(sort_by_key_spec(v.drop_first()), v[0])
    }
}

proof fn lemma_first_greater_is<T: SortKey>(s: Seq<T>, x: T, pos: int, i: int)
    requires
        0 <= i <= pos <= s.len(),
        forall|j: int| 0 <= j < pos ==> key_le(#[trigger] s[j], x),
        pos < s.len() ==> !key_le(s[pos], x),
    ensures
        first_greater_from(s, x, i) == pos,
    decreases pos - i,
{
    if i < pos {
        lemma_first_greater_is(s, x, pos, i + 1);
    }
}

/// A sequence already strictly in key order is its own sort.
pub proof fn lemma_sort_strictly_sorted<T: CanonicalKey>(s: Seq<T>)
    requires
        strictly_sorted_by_key(s),
    ensures
        sort_by_key_spec(s) == s,
    decreases s.len(),
{
    if s.len() > 0 {
        let t = s.drop_first();
        assert forall|i: int, j: int| 0 <= i < j < t.len() implies key_le(#[trigger] t[i], #[trigger] t[j]) && t[i]
            != t[j] by {
            assert(t[i] == s[i + 1] && t[j] == s[j + 1]);
        }
        lemma_sort_strictly_sorted(t);
        if t.len() > 0 {
            assert(t[0] == s[1]);
            assert(key_le(s[0], s[1]) && s[0] != s[1]);
            if key_le(t[0], s[0]) {
                lemma_lex_le_antisymmetric(s[0].key(), s[1].key());
                T::lemma_key_injective(s[0], s[1]);
            }
            assert(first_greater_from(t, s[0], 0) == 0);
        }
        assert(insert_by_key(t, s[0]) =~= s);
    }
}

/// Sorts `v` into canonical key order; the result is a permutation of the input.
pub fn sort_by_key<T: SortKey>(v: Vec<T>) -> (r: Vec<T>)
    ensures
        r@ == sort_by_key_spec(v@),
        r@.to_multiset() == v@.to_multiset(),
        sorted_by_key(r@),
{
    let mut input = v;
    let mut out: Vec<T> = Vec::new();
    let ghost original = input@;
    while input.len() > 0
        invariant
            out@.to_multiset().add(input@.to_multiset()) == original.to_multiset(),
            sorted_by_key(out@),
            input@ == original.take(input@.len() as int),
            input@.len() <= original.len(),
            out@ == sort_by_key_spec(original.skip(input@.len() as int)),
        decreases input.len(),
    {
        let ghost before_in = input@;
        let ghost before_out = out@;
        let x = input.pop().unwrap();
        proof {
            assert(before_in =~= input@.push(x));
        }
        let xk = x.key_bytes();
        let mut pos: usize = 0;
        while pos < out.len()
            invariant
                pos <= out.len(),
                out@ == before_out,
                xk@ == x.key(),
                forall|j: int| 0 <= j < pos ==> key_le(#[trigger] out@[j], x),
            ensures
                pos <= out.len(),
                out@ == before_out,
                forall|j: int| 0 <= j < pos ==> key_le(#[trigger] out@[j], x),
                pos < out.len() ==> !key_le(out@[pos as int], x),
            decreases out.len() - pos,
        {
            let yk = out[pos].key_bytes();
            if !bytes_le(yk.as_slice(), xk.as_slice()) {
                break;
            }
            pos += 1;
        }
        proof {
            if pos < out.len() {
                lemma_lex_le_connected(out@[pos as int].key(), x.key());
            }
        }
        let ghost pos_g = pos as int;
        proof {
            assert forall|j: int| pos_g <= j < out@.len() implies key_le(x, #[trigger] out@[j]) by {
                if pos_g < out@.len() {
                    if j > pos_g {
                        assert(key_le(out@[pos_g], out@[j]));
                        lemma_lex_le_transitive(x.key(), out@[pos_g].key(), out@[j].key());
                    }
                }
            }
        }
        proof {
            lemma_first_greater_is(before_out, x, pos_g, 0);
            let k = input@.len() as int;
            assert(original.skip(k).drop_first() =~= original.skip(k + 1));
            assert(original.skip(k)[0] == x);
            assert(input@ =~= original.take(k));
        }
        out.insert(pos, x);
        proof {
            assert(out@ =~= before_out.take(pos_g).push(x) + before_out.skip(pos_g));
            let s = out@;
            assert forall|i: int, j: int| 0 <= i < j < s.len() implies key_le(
                #[trigger] s[i],
                #[trigger] s[j],
            ) by {
                if j < pos_g {
                } else if j == pos_g {
                } else if i < pos_g {
                    lemma_lex_le_transitive(s[i].key(), x.key(), s[j].key());
                } else if i == pos_g {
                } else {
                }
            }
            assert(s.to_multiset() == before_out.to_multiset().insert(x));
            assert(before_in.to_multiset() == input@.to_multiset().insert(x));
        }
    }
    assert(input@ =~= Seq::<T>::empty());
    assert(original.skip(0) =~= original);
    out
}

/// `first_greater_from` stops at the first element, from `i` on, whose key
/// exceeds that of `x`.
proof fn lemma_first_greater_props<T: SortKey>(s: Seq<T>, x: T, i: int)
    requires
        0 <= i <= s.len(),
    ensures
        i <= first_greater_from(s, x, i) <= s.len(),
        forall|j: int| i <= j < first_greater_from(s, x, i) ==> key_le(#[trigger] s[j], x),
        first_greater_from(s, x, i) < s.len() ==> !key_le(s[first_greater_from(s, x, i)], x),
    decreases s.len() - i,
{
    if i < s.len() && key_le(s[i], x) {
        lemma_first_greater_props(s, x, i + 1);
    }
}

/// Inserting by key keeps a sorted sequence sorted and adds one element.
proof fn lemma_insert_by_key_sorted<T: SortKey>(s: Seq<T>, x: T)
    requires
        sorted_by_key(s),
    ensures
        sorted_by_key(insert_by_key(s, x)),
        insert_by_key(s, x).to_multiset() == s.to_multiset().insert(x),
{
    let pos = first_greater_from(s, x, 0);
    lemma_first_greater_props(s, x, 0);
    let r = insert_by_key(s, x);
    assert(r =~= s.insert(pos, x));
    assert forall|j: int| pos <= j < s.len() implies key_le(x, #[trigger] s[j]) by {
        lemma_lex_le_connected(s[pos].key(), x.key());
        if j > pos {
            assert(key_le(s[pos], s[j]));
            lemma_lex_le_transitive(x.key(), s[pos].key(), s[j].key());
        }
    }
    assert forall|i: int, j: int| 0 <= i < j < r.len() implies key_le(#[trigger] r[i], #[trigger] r[j]) by {
        if j < pos {
            assert(r[i] == s[i] && r[j] == s[j]);
        } else if j == pos {
            assert(r[i] == s[i] && r[j] == x);
        } else if i < pos {
            assert(r[i] == s[i] && r[j] == s[j - 1]);
            lemma_lex_le_transitive(s[i].key(), x.key(), s[j - 1].key());
        } else if i == pos {
            assert(r[i] == x && r[j] == s[j - 1]);
        } else {
            assert(r[i] == s[i - 1] && r[j] == s[j - 1]);
        }
    }
    vstd::seq_lib::to_multiset_insert(s, pos, x);
}

/// The insertion sort gives a sorted permutation of its input.
pub proof fn lemma_sort_by_key_spec<T: SortKey>(v: Seq<T>)
    ensures
        sorted_by_key(sort_by_key_spec(v)),
        sort_by_key_spec(v).to_multiset() == v.to_multiset(),
    decreases v.len(),
{
    if v.len() > 0 {
        lemma_sort_by_key_spec(v.drop_first());
        lemma_insert_by_key_sorted(sort_by_key_spec(v.drop_first()), v[0]);
        assert(v =~= seq![v[0]] + v.drop_first());
        vstd::seq_lib::lemma_multiset_commutative(seq![v[0]], v.drop_first());
        assert(seq![v[0]].to_multiset() =~= vstd::multiset::Multiset::empty().insert(v[0]));
    }
}

/// Keys of a sequence, in order.
pub open spec fn keys_of<T: SortKey>(s: Seq<T>) -> Seq<Seq<u8>> {
    s.map_values(|t: T| t.key())
}

/// Sequences with the same elements have keys with the same elements.
proof fn lemma_keys_multiset<T: SortKey>(s: Seq<T>, t: Seq<T>)
    requires
        s.to_multiset() == t.to_multiset(),
    ensures
        keys_of(s).to_multiset() == keys_of(t).to_multiset(),
    decreases s.len(),
{
    s.to_multiset_ensures();
    t.to_multiset_ensures();
    if s.len() == 0 {
        assert(t.len() == 0);
        assert(keys_of(s) =~= keys_of(t));
    } else {
        let e = s[0];
        assert(s.to_multiset().count(e) > 0);
        assert(t.contains(e));
        let j = choose|j: int| 0 <= j < t.len() && t[j] == e;
        vstd::seq_lib::to_multiset_remove(t, j);
        vstd::seq_lib::to_multiset_remove(s, 0);
        assert(s.remove(0) =~= s.drop_first());
        lemma_keys_multiset(s.drop_first(), t.remove(j));
        assert(keys_of(s.drop_first()) =~= keys_of(s).remove(0));
        assert(keys_of(t.remove(j)) =~= keys_of(t).remove(j));
        vstd::seq_lib::to_multiset_remove(keys_of(s), 0);
        vstd::seq_lib::to_multiset_remove(keys_of(t), j);
        keys_of(s).to_multiset_ensures();
        keys_of(t).to_multiset_ensures();
        assert(keys_of(s).to_multiset() =~= keys_of(s).remove(0).to_multiset().insert(e.key()));
        assert(keys_of(t).to_multiset() =~= keys_of(t).remove(j).to_multiset().insert(e.key()));
    }
}

/// Sorting two arrangements of the same elements gives the same key
/// sequence: the order of the input cannot move the sorted keys.
pub proof fn lemma_sorted_keys_permutation_invariant<T: SortKey>(x: Seq<T>, y: Seq<T>)
    requires
        x.to_multiset() == y.to_multiset(),
    ensures
        keys_of(sort_by_key_spec(x)) == keys_of(sort_by_key_spec(y)),
{
    let sx = sort_by_key_spec(x);
    let sy = sort_by_key_spec(y);
    lemma_sort_by_key_spec(x);
    lemma_sort_by_key_spec(y);
    lemma_keys_multiset(sx, sy);
    lemma_lex_le_total_ordering();
    let leq = |a: Seq<u8>, b: Seq<u8>| lex_le(a, b);
    assert(sorted_by(keys_of(sx), leq)) by {
        assert forall|i: int, j: int| 0 <= i < j < keys_of(sx).len() implies leq(keys_of(sx)[i], keys_of(sx)[j]) by {
            assert(key_le(sx[i], sx[j]));
        }
    }
    assert(sorted_by(keys_of(sy), leq)) by {
        assert forall|i: int, j: int| 0 <= i < j < keys_of(sy).len() implies leq(keys_of(sy)[i], keys_of(sy)[j]) by {
            assert(key_le(sy[i], sy[j]));
        }
    }
    vstd::seq_lib::lemma_sorted_unique(keys_of(sx), keys_of(sy), leq);
}

/// For keys that name their values, sorting two arrangements of the same
/// elements gives the same sequence.
pub proof fn lemma_sort_canonical_permutation_invariant<T: CanonicalKey>(x: Seq<T>, y: Seq<T>)
    requires
        x.to_multiset() == y.to_multiset(),
    ensures
        sort_by_key_spec(x) == sort_by_key_spec(y),
{
    let sx = sort_by_key_spec(x);
    let sy = sort_by_key_spec(y);
    lemma_sorted_keys_permutation_invariant(x, y);
    assert(keys_of(sx).len() == sx.len());
    assert(keys_of(sy).len() == sy.len());
    assert forall|i: int| 0 <= i < sx.len() implies sx[i] == sy[i] by {
        assert(keys_of(sx)[i] == sx[i].key());
        assert(keys_of(sy)[i] == sy[i].key());
        T::lemma_key_injective(sx[i], sy[i]);
    }
    assert(sx =~= sy);
}

/// Mapping two arrangements of the same elements gives two arrangements of
/// the same images.
pub proof fn lemma_map_values_permutation<A, B>(x: Seq<A>, y: Seq<A>, f: spec_fn(A) -> B)
    requires
        x.to_multiset() == y.to_multiset(),
    ensures
        x.map_values(f).to_multiset() == y.map_values(f).to_multiset(),
    decreases x.len(),
{
    broadcast use vstd::seq_lib::group_to_multiset_ensures;
    if x.len() == 0 {
        assert(y.to_multiset().len() == 0);
        assert(y.len() == 0);
        assert(x.map_values(f) =~= y.map_values(f));
    } else {
        let e = x.last();
        assert(x.to_multiset().count(e) > 0);
        assert(y.contains(e));
        let j = choose|j: int| 0 <= j < y.len() && y[j] == e;
        let y2 = y.remove(j);
        assert(y =~= y2.insert(j, e));
        assert(x =~= x.drop_last().push(e));
        assert(x.drop_last().to_multiset() =~= x.to_multiset().remove(e));
        y2.to_multiset_ensures();
        assert(y2.to_multiset() =~= y.to_multiset().remove(e)) by {
            vstd::seq_lib::lemma_seq_union_to_multiset_commutative(y2.take(j), y2.skip(j));
            assert(y2.insert(j, e) =~= y2.take(j) + (seq![e] + y2.skip(j)));
            assert(y2 =~= y2.take(j) + y2.skip(j));
            vstd::seq_lib::lemma_multiset_commutative(y2.take(j), seq![e] + y2.skip(j));
            vstd::seq_lib::lemma_multiset_commutative(seq![e], y2.skip(j));
            vstd::seq_lib::lemma_multiset_commutative(y2.take(j), y2.skip(j));
            assert(seq![e].to_multiset() =~= vstd::multiset::Multiset::empty().insert(e));
        }
        lemma_map_values_permutation(x.drop_last(), y2, f);
        let mx = x.map_values(f);
        let my = y.map_values(f);
        assert(mx =~= x.drop_last().map_values(f).push(f(e)));
        assert(my =~= y2.map_values(f).insert(j, f(e)));
        let m2 = y2.map_values(f);
        assert(m2.insert(j, f(e)) =~= m2.take(j) + (seq![f(e)] + m2.skip(j)));
        assert(m2 =~= m2.take(j) + m2.skip(j));
        vstd::seq_lib::lemma_multiset_commutative(m2.take(j), seq![f(e)] + m2.skip(j));
        vstd::seq_lib::lemma_multiset_commutative(seq![f(e)], m2.skip(j));
        vstd::seq_lib::lemma_multiset_commutative(m2.take(j), m2.skip(j));
        assert(seq![f(e)].to_multiset() =~= vstd::multiset::Multiset::empty().insert(f(e)));
        x.drop_last().map_values(f).to_multiset_ensures();
    }
}

/// Elements whose keys name them: equal keys, equal elements.
pub open spec fn keys_name_elements<T: SortKey>(x: Seq<T>) -> bool {
    forall|i: int, j: int| 0 <= i < x.len() && 0 <= j < x.len() && (#[trigger] x[i]).key() == (#[trigger] x[j]).key() ==> x[i] == x[j]
}

/// Where keys name the elements, sorting two arrangements of the same
/// elements gives the same sequence.
pub proof fn lemma_sort_named_permutation_invariant<T: SortKey>(x: Seq<T>, y: Seq<T>)
    requires
        x.to_multiset() == y.to_multiset(),
        keys_name_elements(x),
    ensures
        sort_by_key_spec(x) == sort_by_key_spec(y),
{
    broadcast use vstd::seq_lib::group_to_multiset_ensures;
    let sx = sort_by_key_spec(x);
    let sy = sort_by_key_spec(y);
    lemma_sorted_keys_permutation_invariant(x, y);
    lemma_sort_by_key_spec(x);
    lemma_sort_by_key_spec(y);
    assert(keys_of(sx).len() == sx.len());
    assert(keys_of(sy).len() == sy.len());
    assert forall|i: int| 0 <= i < sx.len() implies sx[i] == sy[i] by {
        assert(keys_of(sx)[i] == sx[i].key());
        assert(keys_of(sy)[i] == sy[i].key());
        assert(sx.to_multiset().count(sx[i]) > 0);
        assert(sy.to_multiset().count(sy[i]) > 0);
        assert(x.contains(sx[i]));
        assert(x.contains(sy[i]));
        let a = choose|a: int| 0 <= a < x.len() && x[a] == sx[i];
        let b = choose|b: int| 0 <= b < x.len() && x[b] == sy[i];
        assert(x[a].key() == x[b].key());
    }
    assert(sx =~= sy);
}

} // verus!
