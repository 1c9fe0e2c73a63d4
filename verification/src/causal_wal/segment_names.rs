//! Canonical segment file names (`segment-` and the id in twenty decimal
//! digits, then `.ecwal`), their parsing, and the contiguity of a run of
//! segment ids.
use vstd::prelude::*;
use vstd::string::*;
use crate::causal_wal::frame::WalFrame;
use crate::causal_wal::store::{segment_digest, segment_digest_spec, WalStoreError};
use crate::causal_wal::{Lsn, WalSegmentId};

verus! {

/// The decimal digit character of `d` (below ten).
pub open spec fn digit_char(d: nat) -> char {
    if d == 0 {
        '0'
    } else if d == 1 {
        '1'
    } else if d == 2 {
        '2'
    } else if d == 3 {
        '3'
    } else if d == 4 {
        '4'
    } else if d == 5 {
        '5'
    } else if d == 6 {
        '6'
    } else if d == 7 {
        '7'
    } else if d == 8 {
        '8'
    } else {
        '9'
    }
}

/// `true` for an ASCII decimal digit.
pub open spec fn is_digit(c: char) -> bool {
    '0' <= c && c <= '9'
}

/// Value of an ASCII decimal digit.
pub open spec fn digit_value(c: char) -> nat {
    (c as int - '0' as int) as nat
}

/// The last `w` decimal digits of `n`, most significant first.
pub open spec fn decimal_width(n: nat, w: nat) -> Seq<char>
    decreases w,
{
    if w == 0 {
        Seq::empty()
    } else {
        decimal_width(n / 10, (w - 1) as nat).push(digit_char(n % 10))
    }
}

/// Canonical file name of a segment.
pub open spec fn segment_file_name_spec(id: WalSegmentId) -> Seq<char> {
    "segment-"@ + decimal_width(id.0 as nat, 20) + ".ecwal"@
}

/// Canonical path of a segment relative to the WAL root.
pub open spec fn segment_relative_path_spec(id: WalSegmentId) -> Seq<char> {
    "segments/"@ + segment_file_name_spec(id)
}

/// Length of the leading run of decimal digits.
pub open spec fn digit_run(s: Seq<char>) -> nat
    decreases s.len(),
{
    if s.len() > 0 && is_digit(s[0]) {
        1 + digit_run(s.skip(1))
    } else {
        0
    }
}

/// Decimal value of a run of digits.
pub open spec fn decimal_value(s: Seq<char>) -> nat
    decreases s.len(),
{
    if s.len() == 0 {
        0
    } else {
        decimal_value(s.drop_last()) * 10 + digit_value(s.last())
    }
}

/// The segment id a file name denotes: after `segment-`, the leading run of
/// decimal digits, which must be present and fit in 64 bits.
pub open spec fn parse_segment_name_spec(name: Seq<char>) -> Option<WalSegmentId> {
    let prefix = "segment-"@;
    if name.len() < prefix.len() || name.take(prefix.len() as int) != prefix {
        None
    } else {
        let rest = name.skip(prefix.len() as int);
        let n = digit_run(rest);
        if n == 0 || decimal_value(rest.take(n as int)) > u64::MAX {
            None
        } else {
            Some(WalSegmentId(decimal_value(rest.take(n as int)) as u64))
        }
    }
}

fn digit_str(d: u64) -> (r: &'static str)
    requires
        d < 10,
    ensures
        r@ == seq![digit_char(d as nat)],
{
    if d == 0 {
        proof { reveal_strlit("0"); }
        "0"
    } else if d == 1 {
        proof { reveal_strlit("1"); }
        "1"
    } else if d == 2 {
        proof { reveal_strlit("2"); }
        "2"
    } else if d == 3 {
        proof { reveal_strlit("3"); }
        "3"
    } else if d == 4 {
        proof { reveal_strlit("4"); }
        "4"
    } else if d == 5 {
        proof { reveal_strlit("5"); }
        "5"
    } else if d == 6 {
        proof { reveal_strlit("6"); }
        "6"
    } else if d == 7 {
        proof { reveal_strlit("7"); }
        "7"
    } else if d == 8 {
        proof { reveal_strlit("8"); }
        "8"
    } else {
        proof { reveal_strlit("9"); }
        "9"
    }
}

/// Appends the last `w` decimal digits of `n`.
fn push_decimal_width(out: &mut String, n: u64, w: u64)
    requires
        w <= 20,
    ensures
        final(out)@ == old(out)@ + decimal_width(n as nat, w as nat),
    decreases w,
{
    if w > 0 {
        push_decimal_width(out, n / 10, w - 1);
        out.append(digit_str(n % 10));
        assert(final(out)@ =~= old(out)@ + decimal_width(n as nat, w as nat));
    }
}

/// Canonical file name of a segment.
pub fn segment_file_name(segment_id: WalSegmentId) -> (r: String)
    ensures
        r@ == segment_file_name_spec(segment_id),
{
    let mut out = String::from_str("segment-");
    push_decimal_width(&mut out, segment_id.0, 20);
    out.append(".ecwal");
    out
}

/// Canonical path of a segment relative to the WAL root.
pub fn canonical_segment_relative_path(segment_id: WalSegmentId) -> (r: String)
    ensures
        r@ == segment_relative_path_spec(segment_id),
{
    let name = segment_file_name(segment_id);
    let out = String::from_str("segments/");
    let r = out.concat(name.as_str());
    assert(r@ =~= segment_relative_path_spec(segment_id));
    r
}

proof fn lemma_digit_run(s: Seq<char>, k: int)
    requires
        0 <= k <= s.len(),
        forall|i: int| 0 <= i < k ==> is_digit(#[trigger] s[i]),
        k == s.len() || !is_digit(s[k]),
    ensures
        digit_run(s) == k,
    decreases k,
{
    if k > 0 {
        let t = s.skip(1);
        assert forall|i: int| 0 <= i < k - 1 implies is_digit(#[trigger] t[i]) by {
            assert(t[i] == s[i + 1]);
        }
        if k < s.len() {
            assert(t[k - 1] == s[k]);
        }
        lemma_digit_run(t, k - 1);
    }
}

proof fn lemma_decimal_step(s: Seq<char>, j: int)
    requires
        0 <= j < s.len(),
    ensures
        decimal_value(s.take(j + 1)) == decimal_value(s.take(j)) * 10 + digit_value(s[j]),
{
    assert(s.take(j + 1).drop_last() =~= s.take(j));
}

proof fn lemma_decimal_mono(s: Seq<char>, k: int, m: int)
    requires
        0 <= k <= m <= s.len(),
    ensures
        decimal_value(s.take(k)) <= decimal_value(s.take(m)),
    decreases m - k,
{
    if k < m {
        lemma_decimal_step(s, m - 1);
        lemma_decimal_mono(s, k, m - 1);
    }
}

fn invalid_name(name: &str) -> (r: WalStoreError)
    ensures
        r matches WalStoreError::InvalidSegmentFileName(s) && s@ == name@,
{
    WalStoreError::InvalidSegmentFileName(String::from_str(name))
}

/// Parses a segment file name: after `segment-`, the leading run of decimal
/// digits is the segment id.
pub fn parse_segment_file_name(name: &str) -> (r: Result<WalSegmentId, WalStoreError>)
    ensures
        match parse_segment_name_spec(name@) {
            Some(id) => r == Ok::<WalSegmentId, WalStoreError>(id),
            None => r matches Err(WalStoreError::InvalidSegmentFileName(s)) && s@ == name@,
        },
{
    let prefix = "segment-";
    proof {
        reveal_strlit("segment-");
    }
    let len = name.unicode_len();
    if len < 8 {
        return Err(invalid_name(name));
    }
    let mut i: usize = 0;
    while i < 8
        invariant
            i <= 8,
            len == name@.len(),
            8 <= len,
            prefix@ == "segment-"@,
            prefix@.len() == 8,
            forall|k: int| 0 <= k < i ==> name@[k] == prefix@[k],
        decreases 8 - i,
    {
        if name.get_char(i) != prefix.get_char(i) {
            assert(name@.take(8)[i as int] != prefix@[i as int]);
            return Err(invalid_name(name));
        }
        i += 1;
    }
    assert(name@.take(8) =~= "segment-"@);
    let ghost rest = name@.skip(8);
    let mut acc: u64 = 0;
    let mut j: usize = 8;
    let mut done = false;
    while !done && j < len
        invariant
            8 <= j <= len,
            len == name@.len(),
            rest == name@.skip(8),
            name@.take(8) == "segment-"@,
            "segment-"@.len() == 8,
            acc == decimal_value(rest.take(j - 8)),
            forall|k: int| 0 <= k < j - 8 ==> is_digit(#[trigger] rest[k]),
            done ==> j < len && !is_digit(rest[j - 8]),
        decreases len - j + (if done { 0int } else { 1int }),
    {
        let c = name.get_char(j);
        assert(rest[j - 8] == c);
        if '0' <= c && c <= '9' {
            proof {
                lemma_decimal_step(rest, j - 8);
            }
            let d = (c as u32 - '0' as u32) as u64;
            assert(d == digit_value(c));
            proof {
                assert forall|k: int| 0 <= k < j + 1 - 8 implies is_digit(#[trigger] rest[k]) by {}
            }
            match acc.checked_mul(10) {
                Some(m) => match m.checked_add(d) {
                    Some(v) => {
                        acc = v;
                        j += 1;
                    },
                    None => {
                        proof {
                            lemma_overflow_run(rest, j + 1 - 8);
                        }
                        return Err(invalid_name(name));
                    },
                },
                None => {
                    proof {
                        lemma_overflow_run(rest, j + 1 - 8);
                    }
                    return Err(invalid_name(name));
                },
            }
        } else {
            done = true;
        }
    }
    proof {
        lemma_digit_run(rest, j - 8);
    }
    if j == 8 {
        return Err(invalid_name(name));
    }
    Ok(WalSegmentId(acc))
}

/// A run of digits of length at least `k` when the first `k` are digits.
proof fn lemma_digit_run_prefix(s: Seq<char>, k: int)
    requires
        0 <= k <= s.len(),
        forall|i: int| 0 <= i < k ==> is_digit(#[trigger] s[i]),
    ensures
        k <= digit_run(s) <= s.len(),
    decreases k,
{
    lemma_digit_run_len(s);
    if k > 0 {
        let t = s.skip(1);
        assert forall|i: int| 0 <= i < k - 1 implies is_digit(#[trigger] t[i]) by {
            assert(t[i] == s[i + 1]);
        }
        lemma_digit_run_prefix(t, k - 1);
    }
}

proof fn lemma_digit_run_len(s: Seq<char>)
    ensures
        digit_run(s) <= s.len(),
        forall|i: int| 0 <= i < digit_run(s) ==> is_digit(#[trigger] s[i]),
    decreases s.len(),
{
    if s.len() > 0 && is_digit(s[0]) {
        let t = s.skip(1);
        lemma_digit_run_len(t);
        assert forall|i: int| 0 <= i < digit_run(s) implies is_digit(#[trigger] s[i]) by {
            if i > 0 {
                assert(s[i] == t[i - 1]);
            }
        }
    }
}

/// A run whose first `k` digits already exceed 64 bits exceeds them whole.
proof fn lemma_overflow_run(rest: Seq<char>, k: int)
    requires
        0 < k <= rest.len(),
        forall|i: int| 0 <= i < k ==> is_digit(#[trigger] rest[i]),
        decimal_value(rest.take(k)) > u64::MAX,
    ensures
        digit_run(rest) > 0,
        decimal_value(rest.take(digit_run(rest) as int)) > u64::MAX,
{
    lemma_digit_run_prefix(rest, k);
    lemma_decimal_mono(rest, k, digit_run(rest) as int);
}

/// Ten to the power `w`.
pub open spec fn pow10(w: nat) -> nat
    decreases w,
{
    if w == 0 {
        1
    } else {
        10 * pow10((w - 1) as nat)
    }
}

proof fn lemma_digit_char(d: nat)
    requires
        d < 10,
    ensures
        is_digit(digit_char(d)),
        digit_value(digit_char(d)) == d,
{
}

proof fn lemma_decimal_width(n: nat, w: nat)
    requires
        n < pow10(w),
    ensures
        decimal_width(n, w).len() == w,
        forall|i: int| 0 <= i < w ==> is_digit(#[trigger] decimal_width(n, w)[i]),
        decimal_value(decimal_width(n, w)) == n,
    decreases w,
{
    if w > 0 {
        let p = pow10((w - 1) as nat);
        assert(n / 10 < p) by (nonlinear_arith)
            requires
                n < 10 * p,
        ;
        lemma_decimal_width(n / 10, (w - 1) as nat);
        lemma_digit_char(n % 10);
        let d = decimal_width(n, w);
        assert(d.drop_last() =~= decimal_width(n / 10, (w - 1) as nat));
    }
}

/// The canonical name of a segment parses back to its id.
pub proof fn lemma_segment_name_round_trip(id: WalSegmentId)
    ensures
        parse_segment_name_spec(segment_file_name_spec(id)) == Some(id),
{
    reveal_strlit("segment-");
    reveal_strlit(".ecwal");
    assert(pow10(20) == 100000000000000000000) by {
        reveal_with_fuel(pow10, 21);
    }
    let n = id.0 as nat;
    lemma_decimal_width(n, 20);
    let digits = decimal_width(n, 20);
    let name = segment_file_name_spec(id);
    assert(name.take(8) =~= "segment-"@);
    let rest = name.skip(8);
    assert(rest =~= digits + ".ecwal"@);
    assert forall|i: int| 0 <= i < 20 implies is_digit(#[trigger] rest[i]) by {
        assert(rest[i] == digits[i]);
    }
    assert(rest[20] == '.');
    lemma_digit_run(rest, 20);
    assert(rest.take(20) =~= digits);
}

/// First break, from position `i` on, in a run of segment ids that must
/// step by one: a repeated id, or a gap.
pub open spec fn segment_run_error_from(ids: Seq<WalSegmentId>, i: int) -> Option<WalStoreError>
    decreases ids.len() - i,
{
    if i <= 0 || i >= ids.len() {
        None
    } else if ids[i] == ids[i - 1] {
        Some(WalStoreError::DuplicateSegment(ids[i]))
    } else if ids[i].0 != ids[i - 1].0 + 1 {
        Some(WalStoreError::SegmentGap { expected: WalSegmentId((ids[i - 1].0 + 1) as u64), actual: ids[i] })
    } else {
        segment_run_error_from(ids, i + 1)
    }
}

/// What is wrong with a sorted run of segment ids, if anything: it must
/// start at one and step by one.
pub open spec fn segment_run_error(ids: Seq<WalSegmentId>) -> Option<WalStoreError> {
    if ids.len() == 0 {
        None
    } else if ids[0].0 != 1 {
        Some(WalStoreError::SegmentGap { expected: WalSegmentId(1), actual: ids[0] })
    } else {
        segment_run_error_from(ids, 1)
    }
}

/// Segment ids in ascending order.
pub open spec fn ids_ascending(ids: Seq<WalSegmentId>) -> bool {
    forall|i: int, j: int| 0 <= i <= j < ids.len() ==> (#[trigger] ids[i]).0 <= (#[trigger] ids[j]).0
}

/// The ids in ascending order (the one ascending arrangement of them).
pub open spec fn ascending_ids(ids: Seq<WalSegmentId>) -> Seq<WalSegmentId> {
    choose|s: Seq<WalSegmentId>| ids_ascending(s) && s.to_multiset() == ids.to_multiset()
}

proof fn lemma_ascending_ids(s: Seq<WalSegmentId>, ids: Seq<WalSegmentId>)
    requires
        ids_ascending(s),
        s.to_multiset() == ids.to_multiset(),
    ensures
        ascending_ids(ids) == s,
{
    let c = ascending_ids(ids);
    assert(ids_ascending(c) && c.to_multiset() == ids.to_multiset());
    let leq = |a: WalSegmentId, b: WalSegmentId| a.0 <= b.0;
    assert(vstd::relations::total_ordering(leq)) by {
        assert forall|a: WalSegmentId, b: WalSegmentId| #[trigger] leq(a, b) && #[trigger] leq(b, a) implies a == b by {
            assert(a.0 == b.0);
        }
    }
    assert(vstd::relations::sorted_by(c, leq)) by {
        assert forall|i: int, j: int| 0 <= i < j < c.len() implies leq(c[i], c[j]) by {
            assert(c[i].0 <= c[j].0);
        }
    }
    assert(vstd::relations::sorted_by(s, leq)) by {
        assert forall|i: int, j: int| 0 <= i < j < s.len() implies leq(s[i], s[j]) by {
            assert(s[i].0 <= s[j].0);
        }
    }
    vstd::seq_lib::lemma_sorted_unique(c, s, leq);
}

fn sort_segment_ids(ids: &[WalSegmentId]) -> (r: Vec<WalSegmentId>)
    ensures
        ids_ascending(r@),
        r@.to_multiset() == ids@.to_multiset(),
{
    broadcast use vstd::seq_lib::group_to_multiset_ensures;
    let mut out: Vec<WalSegmentId> = Vec::new();
    let mut i: usize = 0;
    while i < ids.len()
        invariant
            i <= ids@.len(),
            ids_ascending(out@),
            out@.to_multiset() == ids@.take(i as int).to_multiset(),
        decreases ids.len() - i,
    {
        let x = ids[i];
        let mut p: usize = 0;
        while p < out.len() && out[p].0 <= x.0
            invariant
                p <= out@.len(),
                forall|j: int| 0 <= j < p ==> (#[trigger] out@[j]).0 <= x.0,
            decreases out.len() - p,
        {
            p += 1;
        }
        let ghost before = out@;
        out.insert(p, x);
        proof {
            assert(out@ == before.insert(p as int, x));
            before.insert_ensures(p as int, x);
            assert forall|a: int, b: int| 0 <= a <= b < out@.len() implies (#[trigger] out@[a]).0 <= (#[trigger] out@[b]).0 by {
                if a < p && b < p {
                } else if a < p && b == p {
                } else if a < p {
                    assert(out@[b] == before[b - 1]);
                } else if a == p && b == p {
                } else if a == p {
                    assert(out@[b] == before[b - 1]);
                    assert(p < before.len());
                    assert(!(before[p as int].0 <= x.0));
                    assert(before[p as int].0 <= before[b - 1].0);
                } else {
                    assert(out@[a] == before[a - 1]);
                    assert(out@[b] == before[b - 1]);
                }
            }
            assert(ids@.take(i + 1) =~= ids@.take(i as int).push(x));
            vstd::seq_lib::to_multiset_insert(before, p as int, x);
            vstd::seq_lib::to_multiset_build(ids@.take(i as int), x);
        }
        i += 1;
    }
    assert(ids@.take(ids@.len() as int) =~= ids@);
    out
}

/// Checks that segment ids, taken in ascending order, start at one and step
/// by one, reporting the first repeated id or gap.
pub fn validate_segment_run(ids: &[WalSegmentId]) -> (r: Result<(), WalStoreError>)
    ensures
        match segment_run_error(ascending_ids(ids@)) {
            None => r is Ok,
            Some(e) => r == Err::<(), WalStoreError>(e),
        },
{
    let sorted = sort_segment_ids(ids);
    proof {
        lemma_ascending_ids(sorted@, ids@);
    }
    validate_ascending_segment_run(sorted.as_slice())
}

fn validate_ascending_segment_run(ids: &[WalSegmentId]) -> (r: Result<(), WalStoreError>)
    requires
        ids_ascending(ids@),
    ensures
        match segment_run_error(ids@) {
            None => r is Ok,
            Some(e) => r == Err::<(), WalStoreError>(e),
        },
{
    if ids.len() == 0 {
        return Ok(());
    }
    if ids[0].0 != 1 {
        return Err(WalStoreError::SegmentGap { expected: WalSegmentId(1), actual: ids[0] });
    }
    let mut i: usize = 1;
    while i < ids.len()
        invariant
            1 <= i <= ids@.len(),
            ids_ascending(ids@),
            segment_run_error(ids@) == segment_run_error_from(ids@, i as int),
        decreases ids@.len() - i,
    {
        let prev = ids[i - 1];
        let cur = ids[i];
        if cur.0 == prev.0 {
            return Err(WalStoreError::DuplicateSegment(cur));
        }
        assert(prev.0 <= cur.0);
        if cur.0 != prev.0 + 1 {
            return Err(WalStoreError::SegmentGap { expected: WalSegmentId(prev.0 + 1), actual: cur });
        }
        i += 1;
    }
    Ok(())
}

/// Segment manifest entry derived from a segment's logical identity.
#[derive(Clone, Debug, PartialEq, Eq)]
pub struct WalSegmentManifestEntry {
    /// Logical segment id.
    pub segment_id: WalSegmentId,
    /// Canonical path relative to the WAL root.
    pub relative_path: String,
    /// Segment digest.
    pub segment_digest: crate::ident::Hash,
    /// First LSN included in the segment.
    pub first_lsn: Option<Lsn>,
    /// Last LSN included in the segment.
    pub last_lsn: Option<Lsn>,
}

/// Smallest frame LSN, if any frame.
pub open spec fn min_frame_lsn(fs: Seq<WalFrame>) -> Option<Lsn>
    decreases fs.len(),
{
    if fs.len() == 0 {
        None
    } else {
        match min_frame_lsn(fs.drop_last()) {
            None => Some(fs.last().header.lsn),
            Some(m) => if fs.last().header.lsn.0 < m.0 {
                Some(fs.last().header.lsn)
            } else {
                Some(m)
            },
        }
    }
}

/// Greatest frame LSN, if any frame.
pub open spec fn max_frame_lsn(fs: Seq<WalFrame>) -> Option<Lsn>
    decreases fs.len(),
{
    if fs.len() == 0 {
        None
    } else {
        match max_frame_lsn(fs.drop_last()) {
            None => Some(fs.last().header.lsn),
            Some(m) => if fs.last().header.lsn.0 > m.0 {
                Some(fs.last().header.lsn)
            } else {
                Some(m)
            },
        }
    }
}

/// Builds the manifest entry of a segment from its frames.
pub fn segment_manifest_entry(segment_id: WalSegmentId, frames: &[WalFrame]) -> (r: WalSegmentManifestEntry)
    ensures
        r.segment_id == segment_id,
        r.relative_path@ == segment_relative_path_spec(segment_id),
        r.segment_digest@ == segment_digest_spec(segment_id, frames@),
        r.first_lsn == min_frame_lsn(frames@),
        r.last_lsn == max_frame_lsn(frames@),
{
    let mut first: Option<Lsn> = None;
    let mut last: Option<Lsn> = None;
    let mut i: usize = 0;
    while i < frames.len()
        invariant
            i <= frames@.len(),
            first == min_frame_lsn(frames@.take(i as int)),
            last == max_frame_lsn(frames@.take(i as int)),
        decreases frames@.len() - i,
    {
        proof {
            assert(frames@.take(i + 1).drop_last() =~= frames@.take(i as int));
        }
        let l = frames[i].header.lsn;
        first = match first {
            None => Some(l),
            Some(m) => if l.0 < m.0 {
                Some(l)
            } else {
                Some(m)
            },
        };
        last = match last {
            None => Some(l),
            Some(m) => if l.0 > m.0 {
                Some(l)
            } else {
                Some(m)
            },
        };
        i += 1;
    }
    assert(frames@.take(frames@.len() as int) =~= frames@);
    WalSegmentManifestEntry {
        segment_id,
        relative_path: canonical_segment_relative_path(segment_id),
        segment_digest: segment_digest(segment_id, frames),
        first_lsn: first,
        last_lsn: last,
    }
}

} // verus!
