//! Readers and encodings of the fields that topology evidence records are
//! made of. Each reader consumes a prefix of the unread bytes; each encoding
//! reads back as written.
use vstd::prelude::*;
use vstd::bytes::*;
use crate::braid::{BraidEvent, BraidStatus};
use crate::braid_shell::BraidMemberRef;
use crate::causal_wal::projection::{hash_of, lemma_hash_of};
use crate::causal_wal::records::TopologyImportOutcomeKind;
use crate::causal_wal::WalDecodeError;
use crate::encoding::{optional_hash_bytes, push_hash, push_optional_hash, push_u64_le, push_u8, ByteCursor};
use crate::head::{HeadId, WriterHeadKey};
use crate::ident::{AuthorityDomainId, AuthorityDomainRef, OriginId, StrandId, WorldlineId};

verus! {

/// Unread bytes of a cursor.
pub open spec fn unread(c: ByteCursor) -> Seq<u8> {
    c.bytes@.skip(c.pos as int)
}

/// A digest, then the rest.
pub open spec fn take_hash(s: Seq<u8>) -> Option<([u8; 32], Seq<u8>)> {
    if s.len() >= 32 {
        Some((hash_of(s.take(32)), s.skip(32)))
    } else {
        None
    }
}

/// A byte, then the rest.
pub open spec fn take_u8(s: Seq<u8>) -> Option<(u8, Seq<u8>)> {
    if s.len() >= 1 {
        Some((s[0], s.skip(1)))
    } else {
        None
    }
}

/// A little-endian `u64`, then the rest.
pub open spec fn take_u64(s: Seq<u8>) -> Option<(u64, Seq<u8>)> {
    if s.len() >= 8 {
        Some((spec_u64_from_le_bytes(s.take(8)), s.skip(8)))
    } else {
        None
    }
}

/// An optional digest (`0`, or `1` then the digest), then the rest.
pub open spec fn take_opt_hash(s: Seq<u8>) -> Option<(Option<[u8; 32]>, Seq<u8>)> {
    match take_u8(s) {
        Some((0u8, r)) => Some((None, r)),
        Some((1u8, r)) => match take_hash(r) {
            Some((h, r2)) => Some((Some(h), r2)),
            None => None,
        },
        _ => None,
    }
}

/// Encoding of an authority reference: origin, then domain.
pub open spec fn authority_bytes(a: AuthorityDomainRef) -> Seq<u8> {
    a.origin_id.0@ + a.domain_id.0@
}

/// An authority reference, then the rest.
pub open spec fn take_authority(s: Seq<u8>) -> Option<(AuthorityDomainRef, Seq<u8>)> {
    match take_hash(s) {
        Some((o, r)) => match take_hash(r) {
            Some((d, r2)) => Some((AuthorityDomainRef { origin_id: OriginId(o), domain_id: AuthorityDomainId(d) }, r2)),
            None => None,
        },
        None => None,
    }
}

/// A braid member reference, then the rest.
pub open spec fn take_member(s: Seq<u8>) -> Option<(BraidMemberRef, Seq<u8>)> {
    match take_u8(s) {
        Some((1u8, r)) => match take_hash(r) {
            Some((h, r2)) => Some((BraidMemberRef::Revealed(StrandId(h)), r2)),
            None => None,
        },
        Some((2u8, r)) => match take_hash(r) {
            Some((c, r2)) => match take_authority(r2) {
                Some((a, r3)) => Some((BraidMemberRef::Sealed { blinded_commitment: c, authority: a }, r3)),
                None => None,
            },
            None => None,
        },
        _ => None,
    }
}

/// Encoding of a braid event: a tag, then its fields.
pub open spec fn event_bytes(e: BraidEvent) -> Seq<u8> {
    match e {
        BraidEvent::BraidCreated { braid_id, creator_domain } => seq![1u8] + braid_id@ + authority_bytes(creator_domain),
        BraidEvent::MemberWoven { member_ref, sequence_num } => seq![2u8] + member_ref.spec_canonical_bytes()
            + spec_u64_to_le_bytes(sequence_num),
        BraidEvent::SettlementFinalized { settlement_digest } => seq![3u8] + settlement_digest@,
        BraidEvent::BraidCollapsed { collapse_witness, outcome_digest } => seq![4u8] + collapse_witness@
            + outcome_digest@,
    }
}

/// A braid event, then the rest.
pub open spec fn take_event(s: Seq<u8>) -> Option<(BraidEvent, Seq<u8>)> {
    match take_u8(s) {
        Some((1u8, r)) => match take_hash(r) {
            Some((id, r2)) => match take_authority(r2) {
                Some((a, r3)) => Some((BraidEvent::BraidCreated { braid_id: id, creator_domain: a }, r3)),
                None => None,
            },
            None => None,
        },
        Some((2u8, r)) => match take_member(r) {
            Some((m, r2)) => match take_u64(r2) {
                Some((n, r3)) => Some((BraidEvent::MemberWoven { member_ref: m, sequence_num: n }, r3)),
                None => None,
            },
            None => None,
        },
        Some((3u8, r)) => match take_hash(r) {
            Some((d, r2)) => Some((BraidEvent::SettlementFinalized { settlement_digest: d }, r2)),
            None => None,
        },
        Some((4u8, r)) => match take_hash(r) {
            Some((w, r2)) => match take_hash(r2) {
                Some((o, r3)) => Some((BraidEvent::BraidCollapsed { collapse_witness: w, outcome_digest: o }, r3)),
                None => None,
            },
            None => None,
        },
        _ => None,
    }
}

/// Persisted code of a braid status.
pub open spec fn status_code(s: BraidStatus) -> u8 {
    match s {
        BraidStatus::Active => 1u8,
        BraidStatus::Finalized => 2u8,
        BraidStatus::Collapsed => 3u8,
    }
}

/// A braid status code, then the rest.
pub open spec fn take_status(s: Seq<u8>) -> Option<(BraidStatus, Seq<u8>)> {
    match take_u8(s) {
        Some((1u8, r)) => Some((BraidStatus::Active, r)),
        Some((2u8, r)) => Some((BraidStatus::Finalized, r)),
        Some((3u8, r)) => Some((BraidStatus::Collapsed, r)),
        _ => None,
    }
}

/// An import outcome code, then the rest.
pub open spec fn take_kind(s: Seq<u8>) -> Option<(TopologyImportOutcomeKind, Seq<u8>)> {
    match take_u8(s) {
        Some((c, r)) => match TopologyImportOutcomeKind::from_code_spec(c) {
            Some(k) => Some((k, r)),
            None => None,
        },
        None => None,
    }
}

/// Encoding of a writer head: worldline, then head id.
pub open spec fn head_bytes(h: WriterHeadKey) -> Seq<u8> {
    h.worldline_id.0@ + h.head_id.0@
}

/// A writer head, then the rest.
pub open spec fn take_head(s: Seq<u8>) -> Option<(WriterHeadKey, Seq<u8>)> {
    match take_hash(s) {
        Some((w, r)) => match take_hash(r) {
            Some((h, r2)) => Some((WriterHeadKey { worldline_id: WorldlineId(w), head_id: HeadId(h) }, r2)),
            None => None,
        },
        None => None,
    }
}

/// Encodings of the heads, in order.
pub open spec fn heads_bytes(hs: Seq<WriterHeadKey>) -> Seq<u8>
    decreases hs.len(),
{
    if hs.len() == 0 {
        Seq::empty()
    } else {
        heads_bytes(hs.drop_last()) + head_bytes(hs.last())
    }
}

/// `n` writer heads, then the rest.
pub open spec fn take_heads(s: Seq<u8>, n: nat) -> Option<(Seq<WriterHeadKey>, Seq<u8>)>
    decreases n,
{
    if n == 0 {
        Some((Seq::empty(), s))
    } else {
        match take_heads(s, (n - 1) as nat) {
            Some((hs, r)) => match take_head(r) {
                Some((h, r2)) => Some((hs.push(h), r2)),
                None => None,
            },
            None => None,
        }
    }
}

// ---- readers ----

/// Reads a digest.
pub fn rd_hash(c: &mut ByteCursor) -> (r: Result<[u8; 32], WalDecodeError>)
    requires
        old(c).pos <= old(c).bytes@.len(),
    ensures
        final(c).bytes@ == old(c).bytes@,
        final(c).pos <= final(c).bytes@.len(),
        match take_hash(unread(*old(c))) {
            Some((v, rest)) => r == Ok::<[u8; 32], WalDecodeError>(v) && unread(*final(c)) == rest,
            None => r is Err,
        },
{
    let ghost s = unread(*c);
    match c.read_hash() {
        Some(h) => {
            proof {
                assert(h@ =~= s.take(32));
                lemma_hash_of(h, s.take(32));
                assert(unread(*c) =~= s.skip(32));
            }
            Ok(h)
        },
        None => Err(WalDecodeError::UnexpectedEof),
    }
}

/// Reads a byte.
pub fn rd_u8(c: &mut ByteCursor) -> (r: Result<u8, WalDecodeError>)
    requires
        old(c).pos <= old(c).bytes@.len(),
    ensures
        final(c).bytes@ == old(c).bytes@,
        final(c).pos <= final(c).bytes@.len(),
        match take_u8(unread(*old(c))) {
            Some((v, rest)) => r == Ok::<u8, WalDecodeError>(v) && unread(*final(c)) == rest,
            None => r is Err,
        },
{
    let ghost s = unread(*c);
    match c.read_u8() {
        Some(b) => {
            assert(unread(*c) =~= s.skip(1));
            Ok(b)
        },
        None => Err(WalDecodeError::UnexpectedEof),
    }
}

/// Reads a little-endian `u64`.
pub fn rd_u64(c: &mut ByteCursor) -> (r: Result<u64, WalDecodeError>)
    requires
        old(c).pos <= old(c).bytes@.len(),
    ensures
        final(c).bytes@ == old(c).bytes@,
        final(c).pos <= final(c).bytes@.len(),
        match take_u64(unread(*old(c))) {
            Some((v, rest)) => r == Ok::<u64, WalDecodeError>(v) && unread(*final(c)) == rest,
            None => r is Err,
        },
{
    let ghost s = unread(*c);
    match c.read_u64() {
        Some(v) => {
            assert(c.bytes@.subrange(old(c).pos as int, old(c).pos + 8) =~= s.take(8));
            assert(unread(*c) =~= s.skip(8));
            Ok(v)
        },
        None => Err(WalDecodeError::UnexpectedEof),
    }
}

/// Reads an optional digest.
pub fn rd_opt_hash(c: &mut ByteCursor) -> (r: Result<Option<[u8; 32]>, WalDecodeError>)
    requires
        old(c).pos <= old(c).bytes@.len(),
    ensures
        final(c).bytes@ == old(c).bytes@,
        final(c).pos <= final(c).bytes@.len(),
        match take_opt_hash(unread(*old(c))) {
            Some((v, rest)) => r == Ok::<Option<[u8; 32]>, WalDecodeError>(v) && unread(*final(c)) == rest,
            None => r is Err,
        },
{
    let tag = rd_u8(c)?;
    if tag == 0 {
        Ok(None)
    } else if tag == 1 {
        let h = rd_hash(c)?;
        Ok(Some(h))
    } else {
        Err(WalDecodeError::UnknownEnumCode { enum_name: "Option<Hash>", code: tag })
    }
}

/// Reads an authority reference.
pub fn rd_authority(c: &mut ByteCursor) -> (r: Result<AuthorityDomainRef, WalDecodeError>)
    requires
        old(c).pos <= old(c).bytes@.len(),
    ensures
        final(c).bytes@ == old(c).bytes@,
        final(c).pos <= final(c).bytes@.len(),
        match take_authority(unread(*old(c))) {
            Some((v, rest)) => r == Ok::<AuthorityDomainRef, WalDecodeError>(v) && unread(*final(c)) == rest,
            None => r is Err,
        },
{
    let o = rd_hash(c)?;
    let d = rd_hash(c)?;
    Ok(AuthorityDomainRef { origin_id: OriginId(o), domain_id: AuthorityDomainId(d) })
}

/// Reads a braid member reference.
pub fn rd_member(c: &mut ByteCursor) -> (r: Result<BraidMemberRef, WalDecodeError>)
    requires
        old(c).pos <= old(c).bytes@.len(),
    ensures
        final(c).bytes@ == old(c).bytes@,
        final(c).pos <= final(c).bytes@.len(),
        match take_member(unread(*old(c))) {
            Some((v, rest)) => r == Ok::<BraidMemberRef, WalDecodeError>(v) && unread(*final(c)) == rest,
            None => r is Err,
        },
{
    let tag = rd_u8(c)?;
    if tag == 1 {
        let h = rd_hash(c)?;
        Ok(BraidMemberRef::Revealed(StrandId(h)))
    } else if tag == 2 {
        let b = rd_hash(c)?;
        let a = rd_authority(c)?;
        Ok(BraidMemberRef::Sealed { blinded_commitment: b, authority: a })
    } else {
        Err(WalDecodeError::UnknownEnumCode { enum_name: "BraidMemberRef", code: tag })
    }
}

/// Reads a braid event.
pub fn rd_event(c: &mut ByteCursor) -> (r: Result<BraidEvent, WalDecodeError>)
    requires
        old(c).pos <= old(c).bytes@.len(),
    ensures
        final(c).bytes@ == old(c).bytes@,
        final(c).pos <= final(c).bytes@.len(),
        match take_event(unread(*old(c))) {
            Some((v, rest)) => r == Ok::<BraidEvent, WalDecodeError>(v) && unread(*final(c)) == rest,
            None => r is Err,
        },
{
    let tag = rd_u8(c)?;
    if tag == 1 {
        let id = rd_hash(c)?;
        let a = rd_authority(c)?;
        Ok(BraidEvent::BraidCreated { braid_id: id, creator_domain: a })
    } else if tag == 2 {
        let m = rd_member(c)?;
        let n = rd_u64(c)?;
        Ok(BraidEvent::MemberWoven { member_ref: m, sequence_num: n })
    } else if tag == 3 {
        let d = rd_hash(c)?;
        Ok(BraidEvent::SettlementFinalized { settlement_digest: d })
    } else if tag == 4 {
        let w = rd_hash(c)?;
        let o = rd_hash(c)?;
        Ok(BraidEvent::BraidCollapsed { collapse_witness: w, outcome_digest: o })
    } else {
        Err(WalDecodeError::UnknownEnumCode { enum_name: "BraidEvent", code: tag })
    }
}

/// Reads a braid status code.
pub fn rd_status(c: &mut ByteCursor) -> (r: Result<BraidStatus, WalDecodeError>)
    requires
        old(c).pos <= old(c).bytes@.len(),
    ensures
        final(c).bytes@ == old(c).bytes@,
        final(c).pos <= final(c).bytes@.len(),
        match take_status(unread(*old(c))) {
            Some((v, rest)) => r == Ok::<BraidStatus, WalDecodeError>(v) && unread(*final(c)) == rest,
            None => r is Err,
        },
{
    let code = rd_u8(c)?;
    if code == 1 {
        Ok(BraidStatus::Active)
    } else if code == 2 {
        Ok(BraidStatus::Finalized)
    } else if code == 3 {
        Ok(BraidStatus::Collapsed)
    } else {
        Err(WalDecodeError::UnknownEnumCode { enum_name: "BraidStatus", code })
    }
}

/// Reads an import outcome code.
pub fn rd_kind(c: &mut ByteCursor) -> (r: Result<TopologyImportOutcomeKind, WalDecodeError>)
    requires
        old(c).pos <= old(c).bytes@.len(),
    ensures
        final(c).bytes@ == old(c).bytes@,
        final(c).pos <= final(c).bytes@.len(),
        match take_kind(unread(*old(c))) {
            Some((v, rest)) => r == Ok::<TopologyImportOutcomeKind, WalDecodeError>(v) && unread(*final(c)) == rest,
            None => r is Err,
        },
{
    let code = rd_u8(c)?;
    TopologyImportOutcomeKind::from_code(code)
}

/// Reads a writer head.
pub fn rd_head(c: &mut ByteCursor) -> (r: Result<WriterHeadKey, WalDecodeError>)
    requires
        old(c).pos <= old(c).bytes@.len(),
    ensures
        final(c).bytes@ == old(c).bytes@,
        final(c).pos <= final(c).bytes@.len(),
        match take_head(unread(*old(c))) {
            Some((v, rest)) => r == Ok::<WriterHeadKey, WalDecodeError>(v) && unread(*final(c)) == rest,
            None => r is Err,
        },
{
    let w = rd_hash(c)?;
    let h = rd_hash(c)?;
    Ok(WriterHeadKey { worldline_id: WorldlineId(w), head_id: HeadId(h) })
}

proof fn lemma_take_heads_len(s: Seq<u8>, n: nat)
    ensures
        take_heads(s, n) matches Some((hs, r)) ==> hs.len() == n && r.len() + 64 * n == s.len(),
    decreases n,
{
    if n > 0 {
        lemma_take_heads_len(s, (n - 1) as nat);
    }
}

/// Reads `n` writer heads, refusing counts the unread bytes cannot hold.
pub fn rd_heads(c: &mut ByteCursor, n: u64) -> (r: Result<Vec<WriterHeadKey>, WalDecodeError>)
    requires
        old(c).pos <= old(c).bytes@.len(),
    ensures
        final(c).bytes@ == old(c).bytes@,
        final(c).pos <= final(c).bytes@.len(),
        match take_heads(unread(*old(c)), n as nat) {
            Some((v, rest)) => r matches Ok(hs) && hs@ == v && unread(*final(c)) == rest,
            None => r is Err,
        },
{
    let ghost s = unread(*c);
    let remaining = c.bytes.len() - c.pos;
    if n > (remaining / 64) as u64 {
        proof {
            lemma_take_heads_len(s, n as nat);
        }
        return Err(WalDecodeError::UnexpectedEof);
    }
    let mut heads: Vec<WriterHeadKey> = Vec::new();
    let mut i: u64 = 0;
    while i < n
        invariant
            i <= n,
            c.pos <= c.bytes@.len(),
            c.bytes@ == old(c).bytes@,
            s == old(c).bytes@.skip(old(c).pos as int),
            take_heads(s, i as nat) == Some((heads@, unread(*c))),
        decreases n - i,
    {
        let h = match rd_head(c) {
            Ok(h) => h,
            Err(e) => {
                proof {
                    lemma_heads_stop(s, (i + 1) as nat, n as nat);
                }
                return Err(e);
            },
        };
        heads.push(h);
        i += 1;
    }
    Ok(heads)
}

proof fn lemma_heads_stop(s: Seq<u8>, k: nat, n: nat)
    requires
        k <= n,
        take_heads(s, k) is None,
    ensures
        take_heads(s, n) is None,
    decreases n - k,
{
    if k < n {
        lemma_heads_stop(s, k + 1, n);
    }
}

// ---- writers ----

/// Appends a braid event encoding.
pub fn push_event(out: &mut Vec<u8>, e: &BraidEvent)
    ensures
        final(out)@ == old(out)@ + event_bytes(*e),
{
    match e {
        BraidEvent::BraidCreated { braid_id, creator_domain } => {
            push_u8(out, 1);
            push_hash(out, braid_id);
            push_hash(out, &creator_domain.origin_id.0);
            push_hash(out, &creator_domain.domain_id.0);
        },
        BraidEvent::MemberWoven { member_ref, sequence_num } => {
            push_u8(out, 2);
            member_ref.push_canonical(out);
            push_u64_le(out, *sequence_num);
        },
        BraidEvent::SettlementFinalized { settlement_digest } => {
            push_u8(out, 3);
            push_hash(out, settlement_digest);
        },
        BraidEvent::BraidCollapsed { collapse_witness, outcome_digest } => {
            push_u8(out, 4);
            push_hash(out, collapse_witness);
            push_hash(out, outcome_digest);
        },
    }
    assert(final(out)@ =~= old(out)@ + event_bytes(*e));
}

/// Appends the writer heads, each as worldline then head id.
pub fn push_heads(out: &mut Vec<u8>, hs: &Vec<WriterHeadKey>)
    ensures
        final(out)@ == old(out)@ + heads_bytes(hs@),
{
    let ghost start = out@;
    let mut i: usize = 0;
    while i < hs.len()
        invariant
            i <= hs@.len(),
            out@ == start + heads_bytes(hs@.take(i as int)),
        decreases hs.len() - i,
    {
        push_hash(out, &hs[i].worldline_id.0);
        push_hash(out, &hs[i].head_id.0);
        proof {
            assert(hs@.take(i + 1).drop_last() =~= hs@.take(i as int));
        }
        i += 1;
        assert(out@ =~= start + heads_bytes(hs@.take(i as int)));
    }
    assert(hs@.take(hs@.len() as int) =~= hs@);
}

/// Appends a braid status code.
pub fn push_status(out: &mut Vec<u8>, s: BraidStatus)
    ensures
        final(out)@ == old(out)@.push(status_code(s)),
{
    match s {
        BraidStatus::Active => push_u8(out, 1),
        BraidStatus::Finalized => push_u8(out, 2),
        BraidStatus::Collapsed => push_u8(out, 3),
    }
}

// ---- reading back what was written ----

pub proof fn lemma_take_hash(h: [u8; 32], rest: Seq<u8>)
    ensures
        take_hash(h@ + rest) == Some((h, rest)),
{
    assert((h@ + rest).take(32) =~= h@);
    assert((h@ + rest).skip(32) =~= rest);
    lemma_hash_of(h, h@);
}

pub proof fn lemma_take_u8(b: u8, rest: Seq<u8>)
    ensures
        take_u8(seq![b] + rest) == Some((b, rest)),
{
    assert((seq![b] + rest).skip(1) =~= rest);
}

pub proof fn lemma_take_u64(x: u64, rest: Seq<u8>)
    ensures
        take_u64(spec_u64_to_le_bytes(x) + rest) == Some((x, rest)),
{
    lemma_auto_spec_u64_to_from_le_bytes();
    assert((spec_u64_to_le_bytes(x) + rest).take(8) =~= spec_u64_to_le_bytes(x));
    assert((spec_u64_to_le_bytes(x) + rest).skip(8) =~= rest);
}

pub proof fn lemma_take_opt_hash(h: Option<[u8; 32]>, rest: Seq<u8>)
    ensures
        take_opt_hash(optional_hash_bytes(h) + rest) == Some((h, rest)),
{
    match h {
        Some(d) => {
            assert(optional_hash_bytes(h) + rest =~= seq![1u8] + (d@ + rest));
            lemma_take_u8(1u8, d@ + rest);
            lemma_take_hash(d, rest);
        },
        None => {
            lemma_take_u8(0u8, rest);
        },
    }
}

pub proof fn lemma_take_authority(a: AuthorityDomainRef, rest: Seq<u8>)
    ensures
        take_authority(authority_bytes(a) + rest) == Some((a, rest)),
{
    assert(authority_bytes(a) + rest =~= a.origin_id.0@ + (a.domain_id.0@ + rest));
    lemma_take_hash(a.origin_id.0, a.domain_id.0@ + rest);
    lemma_take_hash(a.domain_id.0, rest);
}

pub proof fn lemma_take_member(m: BraidMemberRef, rest: Seq<u8>)
    ensures
        take_member(m.spec_canonical_bytes() + rest) == Some((m, rest)),
{
    match m {
        BraidMemberRef::Revealed(id) => {
            assert(m.spec_canonical_bytes() + rest =~= seq![1u8] + (id.0@ + rest));
            lemma_take_u8(1u8, id.0@ + rest);
            lemma_take_hash(id.0, rest);
        },
        BraidMemberRef::Sealed { blinded_commitment, authority } => {
            assert(m.spec_canonical_bytes() + rest =~= seq![2u8] + (blinded_commitment@ + (authority_bytes(authority)
                + rest)));
            lemma_take_u8(2u8, blinded_commitment@ + (authority_bytes(authority) + rest));
            lemma_take_hash(blinded_commitment, authority_bytes(authority) + rest);
            lemma_take_authority(authority, rest);
        },
    }
}

pub proof fn lemma_take_event(e: BraidEvent, rest: Seq<u8>)
    ensures
        take_event(event_bytes(e) + rest) == Some((e, rest)),
{
    match e {
        BraidEvent::BraidCreated { braid_id, creator_domain } => {
            assert(event_bytes(e) + rest =~= seq![1u8] + (braid_id@ + (authority_bytes(creator_domain) + rest)));
            lemma_take_u8(1u8, braid_id@ + (authority_bytes(creator_domain) + rest));
            lemma_take_hash(braid_id, authority_bytes(creator_domain) + rest);
            lemma_take_authority(creator_domain, rest);
        },
        BraidEvent::MemberWoven { member_ref, sequence_num } => {
            assert(event_bytes(e) + rest =~= seq![2u8] + (member_ref.spec_canonical_bytes() + (spec_u64_to_le_bytes(
                sequence_num,
            ) + rest)));
            lemma_take_u8(2u8, member_ref.spec_canonical_bytes() + (spec_u64_to_le_bytes(sequence_num) + rest));
            lemma_take_member(member_ref, spec_u64_to_le_bytes(sequence_num) + rest);
            lemma_take_u64(sequence_num, rest);
        },
        BraidEvent::SettlementFinalized { settlement_digest } => {
            assert(event_bytes(e) + rest =~= seq![3u8] + (settlement_digest@ + rest));
            lemma_take_u8(3u8, settlement_digest@ + rest);
            lemma_take_hash(settlement_digest, rest);
        },
        BraidEvent::BraidCollapsed { collapse_witness, outcome_digest } => {
            assert(event_bytes(e) + rest =~= seq![4u8] + (collapse_witness@ + (outcome_digest@ + rest)));
            lemma_take_u8(4u8, collapse_witness@ + (outcome_digest@ + rest));
            lemma_take_hash(collapse_witness, outcome_digest@ + rest);
            lemma_take_hash(outcome_digest, rest);
        },
    }
}

pub proof fn lemma_take_status(s: BraidStatus, rest: Seq<u8>)
    ensures
        take_status(seq![status_code(s)] + rest) == Some((s, rest)),
{
    lemma_take_u8(status_code(s), rest);
}

pub proof fn lemma_take_kind(k: TopologyImportOutcomeKind, rest: Seq<u8>)
    ensures
        take_kind(seq![k.code_spec()] + rest) == Some((k, rest)),
{
    lemma_take_u8(k.code_spec(), rest);
    k.lemma_code_round_trip();
}

pub proof fn lemma_take_heads(hs: Seq<WriterHeadKey>, rest: Seq<u8>)
    ensures
        take_heads(heads_bytes(hs) + rest, hs.len()) == Some((hs, rest)),
    decreases hs.len(),
{
    if hs.len() > 0 {
        let h = hs.last();
        let front = hs.drop_last();
        assert(heads_bytes(hs) + rest =~= heads_bytes(front) + (head_bytes(h) + rest));
        lemma_take_heads(front, head_bytes(h) + rest);
        assert(head_bytes(h) + rest =~= h.worldline_id.0@ + (h.head_id.0@ + rest));
        lemma_take_hash(h.worldline_id.0, h.head_id.0@ + rest);
        lemma_take_hash(h.head_id.0, rest);
        assert(front.push(h) =~= hs);
    }
}

} // verus!
