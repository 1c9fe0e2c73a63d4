//! Host-owned root-support policy: exact grants for subject, root, and root set.
use vstd::prelude::*;
use vstd::bytes::*;
use vstd::string::*;
use crate::causal_anchor::{CausalAnchorClaim, CausalAnchorRoot, CausalAnchorSubject};
use crate::crypto::{blake3_digest, blake3_hash};
use crate::encoding::{push_slice, push_u64_le};
use crate::order::{
    bytes_eq, bytes_le, lemma_lex_le_antisymmetric, lemma_lex_le_connected, lemma_lex_le_transitive, lex_le, lex_lt,
    SortKey,
};

verus! {

/// Root-set position authorized by a support grant.
#[derive(Clone, Copy, Debug, PartialEq, Eq, PartialOrd, Ord, Hash, Structural)]
pub enum CausalAnchorSupportSet {
    /// The root may appear in the retained authority/evidence set.
    Retained,
    /// The root may appear in the derived materialization set.
    Materialization,
}

impl CausalAnchorSupportSet {
    /// Stable tag.
    pub open spec fn tag_spec(self) -> u8 {
        match self {
            CausalAnchorSupportSet::Retained => 1u8,
            CausalAnchorSupportSet::Materialization => 2u8,
        }
    }

    fn tag(self) -> (r: u8)
        ensures
            r == self.tag_spec(),
    {
        match self {
            CausalAnchorSupportSet::Retained => 1,
            CausalAnchorSupportSet::Materialization => 2,
        }
    }
}

/// Exact host-owned support grant for one subject, root, and root set.
#[derive(Clone, Debug, PartialEq, Eq, PartialOrd, Ord, Hash)]
pub struct CausalAnchorRootSupportGrant {
    subject: CausalAnchorSubject,
    root: CausalAnchorRoot,
    support_set: CausalAnchorSupportSet,
}

/// Order key of a grant coordinate: subject, root, then root set.
pub open spec fn grant_key(subject: CausalAnchorSubject, root: CausalAnchorRoot, set: CausalAnchorSupportSet) -> Seq<u8> {
    subject.order_key() + root.key() + seq![set.tag_spec()]
}

/// Bytes of a grant coordinate as it enters digests.
pub open spec fn grant_entry_bytes(subject: CausalAnchorSubject, root: CausalAnchorRoot, set: CausalAnchorSupportSet) -> Seq<
    u8,
> {
    seq![set.tag_spec()] + subject.canonical_bytes() + root.digest_bytes()
}

/// Domain of grant digests.
pub open spec fn grant_domain() -> Seq<u8> {
    "echo:causal-anchor:support-grant:v1\0".spec_bytes()
}

/// Domain of policy digests.
pub open spec fn policy_domain() -> Seq<u8> {
    "echo:causal-anchor:support-policy:v1\0".spec_bytes()
}

/// Canonical identity of a grant coordinate.
pub open spec fn grant_digest_spec(subject: CausalAnchorSubject, root: CausalAnchorRoot, set: CausalAnchorSupportSet) -> Seq<
    u8,
> {
    blake3_digest(grant_domain() + grant_entry_bytes(subject, root, set))
}

impl CausalAnchorRootSupportGrant {
    /// Granted subject.
    pub closed spec fn subject_spec(&self) -> CausalAnchorSubject { self.subject }
    /// Granted root.
    pub closed spec fn root_spec(&self) -> CausalAnchorRoot { self.root }
    /// Granted root set.
    pub closed spec fn set_spec(&self) -> CausalAnchorSupportSet { self.support_set }

    /// Grants one subject permission to retain the exact named root.
    pub fn retained(subject: CausalAnchorSubject, root: CausalAnchorRoot) -> (r: Self)
        ensures
            r.subject_spec() == subject,
            r.root_spec() == root,
            r.set_spec() == CausalAnchorSupportSet::Retained,
    {
        CausalAnchorRootSupportGrant { subject, root, support_set: CausalAnchorSupportSet::Retained }
    }

    /// Grants one subject permission to attach the exact materialization root.
    pub fn materialization(subject: CausalAnchorSubject, root: CausalAnchorRoot) -> (r: Self)
        ensures
            r.subject_spec() == subject,
            r.root_spec() == root,
            r.set_spec() == CausalAnchorSupportSet::Materialization,
    {
        CausalAnchorRootSupportGrant { subject, root, support_set: CausalAnchorSupportSet::Materialization }
    }

    /// The subject authorized by this grant.
    pub fn subject(&self) -> (r: &CausalAnchorSubject)
        ensures
            *r == self.subject_spec(),
    {
        &self.subject
    }

    /// The exact root authorized by this grant.
    pub fn root(&self) -> (r: &CausalAnchorRoot)
        ensures
            *r == self.root_spec(),
    {
        &self.root
    }

    /// The root-set position authorized by this grant.
    pub fn support_set(&self) -> (r: CausalAnchorSupportSet)
        ensures
            r == self.set_spec(),
    {
        self.support_set
    }

    /// The canonical identity of this exact support coordinate.
    pub fn grant_digest(&self) -> (r: crate::ident::Hash)
        ensures
            r@ == grant_digest_spec(self.subject_spec(), self.root_spec(), self.set_spec()),
    {
        compute_grant_digest(&self.subject, &self.root, self.support_set)
    }
}

fn push_grant_entry(out: &mut Vec<u8>, subject: &CausalAnchorSubject, root: &CausalAnchorRoot, set: CausalAnchorSupportSet)
    ensures
        final(out)@ == old(out)@ + grant_entry_bytes(*subject, *root, set),
{
    out.push(set.tag());
    subject.push_canonical(out);
    root.push_digest_bytes(out);
    assert(out@ =~= old(out)@ + grant_entry_bytes(*subject, *root, set));
}

fn compute_grant_digest(subject: &CausalAnchorSubject, root: &CausalAnchorRoot, set: CausalAnchorSupportSet) -> (r:
    crate::ident::Hash)
    ensures
        r@ == grant_digest_spec(*subject, *root, set),
{
    let mut input: Vec<u8> = Vec::new();
    push_slice(&mut input, "echo:causal-anchor:support-grant:v1\0".as_bytes());
    push_grant_entry(&mut input, subject, root, set);
    proof {
        reveal_strlit("echo:causal-anchor:support-grant:v1\0");
    }
    blake3_hash(input.as_slice())
}

fn grant_key_bytes(subject: &CausalAnchorSubject, root: &CausalAnchorRoot, set: CausalAnchorSupportSet) -> (k: Vec<u8>)
    ensures
        k@ == grant_key(*subject, *root, set),
{
    let mut k: Vec<u8> = Vec::new();
    subject.push_order_key(&mut k);
    let rk = root.key_bytes();
    push_slice(&mut k, rk.as_slice());
    k.push(set.tag());
    assert(k@ =~= grant_key(*subject, *root, set));
    k
}

impl SortKey for CausalAnchorRootSupportGrant {
    open spec fn key(&self) -> Seq<u8> {
        grant_key(self.subject_spec(), self.root_spec(), self.set_spec())
    }

    fn key_bytes(&self) -> (k: Vec<u8>) {
        grant_key_bytes(&self.subject, &self.root, self.support_set)
    }
}

/// Keys strictly increase along `s`: sorted, with no two grants for one coordinate.
pub open spec fn grants_canonical(s: Seq<CausalAnchorRootSupportGrant>) -> bool {
    forall|i: int, j: int| 0 <= i < j < s.len() ==> lex_lt((#[trigger] s[i]).key(), (#[trigger] s[j]).key())
}

/// Some grant in `s` has key `k`.
pub open spec fn has_key(s: Seq<CausalAnchorRootSupportGrant>, k: Seq<u8>) -> bool {
    exists|j: int| 0 <= j < s.len() && (#[trigger] s[j]).key() == k
}

/// Concatenated digest entries of grants.
pub open spec fn grant_entries_concat(s: Seq<CausalAnchorRootSupportGrant>) -> Seq<u8>
    decreases s.len(),
{
    if s.len() == 0 {
        Seq::empty()
    } else {
        grant_entries_concat(s.drop_last()) + grant_entry_bytes(s.last().subject_spec(), s.last().root_spec(), s.last().set_spec())
    }
}

/// Digest of a canonical grant list: domain, count, then each grant entry.
pub open spec fn policy_digest_spec(s: Seq<CausalAnchorRootSupportGrant>) -> Seq<u8> {
    blake3_digest(policy_domain() + spec_u64_to_le_bytes(s.len() as u64) + grant_entries_concat(s))
}

/// Canonical host-owned policy for causal-anchor root support: a set of exact
/// grants, kept in canonical order, and its digest.
#[derive(Clone, Debug, PartialEq, Eq)]
pub struct CausalAnchorRootSupportPolicy {
    grants: Vec<CausalAnchorRootSupportGrant>,
    policy_digest: crate::ident::Hash,
}

/// Generic causal-anchor support-policy refusal.
#[derive(Clone, Copy, Debug, PartialEq, Eq)]
pub enum CausalAnchorSupportError {
    /// No host support grant covers the exact subject, root, and root set.
    UnsupportedRoot {
        /// Canonical digest of the exact subject, root, and root-set coordinate.
        grant_digest: crate::ident::Hash,
        /// Root set in which support was requested.
        support_set: CausalAnchorSupportSet,
    },
}

/// First root of `roots` at or after `i` that `grants` do not support in `set`.
pub open spec fn first_unsupported_from(
    grants: Seq<CausalAnchorRootSupportGrant>,
    subject: CausalAnchorSubject,
    roots: Seq<CausalAnchorRoot>,
    set: CausalAnchorSupportSet,
    i: int,
) -> Option<CausalAnchorRoot>
    decreases roots.len() - i,
{
    if i < 0 || i >= roots.len() {
        None
    } else if !has_key(grants, grant_key(subject, roots[i], set)) {
        Some(roots[i])
    } else {
        first_unsupported_from(grants, subject, roots, set, i + 1)
    }
}

/// `r` reports the first unsupported root of `roots` in `set`, or `Ok`.
pub open spec fn support_outcome(
    grants: Seq<CausalAnchorRootSupportGrant>,
    subject: CausalAnchorSubject,
    roots: Seq<CausalAnchorRoot>,
    set: CausalAnchorSupportSet,
    r: Result<(), CausalAnchorSupportError>,
) -> bool {
    match first_unsupported_from(grants, subject, roots, set, 0) {
        None => r is Ok,
        Some(root) => r matches Err(CausalAnchorSupportError::UnsupportedRoot { grant_digest, support_set })
            && support_set == set && grant_digest@ == grant_digest_spec(subject, root, set),
    }
}

impl CausalAnchorRootSupportPolicy {
    /// Grants of the policy, in canonical order.
    pub closed spec fn grants_spec(&self) -> Seq<CausalAnchorRootSupportGrant> { self.grants@ }
    /// Digest of the policy.
    pub closed spec fn digest_spec(&self) -> crate::ident::Hash { self.policy_digest }

    /// Builds a canonical exact-grant policy: the grants as a set, in key
    /// order, and the digest over them.
    #[verifier::rlimit(60)]
    #[verifier::spinoff_prover]
    pub fn new(grants: Vec<CausalAnchorRootSupportGrant>) -> (r: Self)
        ensures
            grants_canonical(r.grants_spec()),
            forall|i: int| 0 <= i < grants@.len() ==> has_key(r.grants_spec(), (#[trigger] grants@[i]).key()),
            forall|j: int| 0 <= j < r.grants_spec().len() ==> has_key(grants@, (#[trigger] r.grants_spec()[j]).key()),
            r.digest_spec()@ == policy_digest_spec(r.grants_spec()),
    {
        let ghost original = grants@;
        let mut input = grants;
        let mut out: Vec<CausalAnchorRootSupportGrant> = Vec::new();
        while input.len() > 0
            invariant
                grants_canonical(out@),
                input@ == original.take(input@.len() as int),
                input@.len() <= original.len(),
                forall|i: int| input@.len() <= i < original.len() ==> has_key(out@, (#[trigger] original[i]).key()),
                forall|j: int| 0 <= j < out@.len() ==> has_key(original, (#[trigger] out@[j]).key()),
            decreases input.len(),
        {
            let ghost n = input@.len() - 1;
            let g = input.pop().unwrap();
            proof {
                assert(input@ =~= original.take(n));
                assert(g == original[n]);
            }
            let gk = g.key_bytes();
            let mut pos: usize = 0;
            while pos < out.len()
                invariant
                    pos <= out@.len(),
                    gk@ == g.key(),
                    forall|j: int| 0 <= j < pos ==> !lex_le(gk@, (#[trigger] out@[j]).key()),
                ensures
                    pos <= out@.len(),
                    forall|j: int| 0 <= j < pos ==> !lex_le(gk@, (#[trigger] out@[j]).key()),
                    pos < out@.len() ==> lex_le(gk@, out@[pos as int].key()),
                decreases out.len() - pos,
            {
                let ok = out[pos].key_bytes();
                if bytes_le(gk.as_slice(), ok.as_slice()) {
                    break;
                }
                pos += 1;
            }
            let mut same = false;
            if pos < out.len() {
                let ok = out[pos].key_bytes();
                same = bytes_eq(gk.as_slice(), ok.as_slice());
            }
            if same {
                proof {
                    assert(out@[pos as int].key() == g.key());
                    assert forall|i: int| input@.len() <= i < original.len() implies has_key(out@, (#[trigger] original[i]).key()) by {
                        if i == n {
                            assert(out@[pos as int].key() == original[i].key());
                        }
                    }
                }
            } else {
                let ghost before = out@;
                let ghost p = pos as int;
                proof {
                    assert forall|j: int| 0 <= j < p implies lex_lt((#[trigger] before[j]).key(), g.key()) by {
                        lemma_lex_le_connected(g.key(), before[j].key());
                    }
                    assert forall|j: int| p <= j < before.len() implies lex_lt(g.key(), (#[trigger] before[j]).key()) by {
                        assert(lex_le(g.key(), before[p].key()));
                        assert(g.key() != before[p].key());
                        if j > p {
                            assert(lex_lt(before[p].key(), before[j].key()));
                            lemma_lex_le_transitive(g.key(), before[p].key(), before[j].key());
                            if g.key() == before[j].key() {
                                lemma_lex_le_antisymmetric(g.key(), before[p].key());
                            }
                        }
                    }
                }
                out.insert(pos, g);
                proof {
                    let s = out@;
                    assert(s =~= before.take(p).push(g) + before.skip(p));
                    assert forall|i: int, j: int| 0 <= i < j < s.len() implies lex_lt((#[trigger] s[i]).key(), (#[trigger] s[j]).key()) by {
                        if j < p {
                            assert(s[i] == before[i] && s[j] == before[j]);
                        } else if j == p {
                            assert(s[i] == before[i]);
                        } else if i < p {
                            assert(s[i] == before[i] && s[j] == before[j - 1]);
                            lemma_lex_le_transitive(before[i].key(), g.key(), before[j - 1].key());
                            if before[i].key() == before[j - 1].key() {
                                lemma_lex_le_antisymmetric(before[i].key(), g.key());
                            }
                        } else if i == p {
                            assert(s[j] == before[j - 1]);
                        } else {
                            assert(s[i] == before[i - 1] && s[j] == before[j - 1]);
                        }
                    }
                    assert forall|i: int| input@.len() <= i < original.len() implies has_key(s, (#[trigger] original[i]).key()) by {
                        if i == n {
                            assert(s[p] == g);
                        } else {
                            let w = choose|w: int| 0 <= w < before.len() && (#[trigger] before[w]).key() == original[i].key();
                            if w < p {
                                assert(s[w] == before[w]);
                            } else {
                                assert(s[w + 1] == before[w]);
                            }
                        }
                    }
                    assert forall|j: int| 0 <= j < s.len() implies has_key(original, (#[trigger] s[j]).key()) by {
                        if j < p {
                            assert(s[j] == before[j]);
                        } else if j == p {
                            assert(original[n] == g);
                        } else {
                            assert(s[j] == before[j - 1]);
                        }
                    }
                }
            }
        }
        let digest = compute_policy_digest(out.as_slice());
        CausalAnchorRootSupportPolicy { grants: out, policy_digest: digest }
    }

    /// The digest bound into admission receipt evidence.
    pub fn policy_digest(&self) -> (r: &crate::ident::Hash)
        ensures
            *r == self.digest_spec(),
    {
        &self.policy_digest
    }

    /// Validates every claimed root against an exact grant: retained roots in
    /// the retained set, then materialization roots in the materialization
    /// set; the first unsupported root is reported.
    pub fn validate_claim(&self, claim: &CausalAnchorClaim) -> (r: Result<(), CausalAnchorSupportError>)
        ensures
            first_unsupported_from(self.grants_spec(), claim.subject_spec(), claim.retained_spec(), CausalAnchorSupportSet::Retained, 0) is Some
                ==> support_outcome(self.grants_spec(), claim.subject_spec(), claim.retained_spec(), CausalAnchorSupportSet::Retained, r),
            first_unsupported_from(self.grants_spec(), claim.subject_spec(), claim.retained_spec(), CausalAnchorSupportSet::Retained, 0) is None
                ==> support_outcome(
                self.grants_spec(),
                claim.subject_spec(),
                claim.materialization_spec(),
                CausalAnchorSupportSet::Materialization,
                r,
            ),
    {
        match self.require_all(claim.subject(), claim.retained_roots(), CausalAnchorSupportSet::Retained) {
            Err(e) => return Err(e),
            Ok(()) => {},
        }
        self.require_all(claim.subject(), claim.materialization_roots(), CausalAnchorSupportSet::Materialization)
    }

    fn has_grant(&self, k: &[u8]) -> (r: bool)
        ensures
            r == has_key(self.grants@, k@),
    {
        let mut j: usize = 0;
        while j < self.grants.len()
            invariant
                j <= self.grants@.len(),
                forall|i: int| 0 <= i < j ==> (#[trigger] self.grants@[i]).key() != k@,
            decreases self.grants.len() - j,
        {
            let gk = self.grants[j].key_bytes();
            if bytes_eq(gk.as_slice(), k) {
                return true;
            }
            j += 1;
        }
        false
    }

    fn require_all(&self, subject: &CausalAnchorSubject, roots: &[CausalAnchorRoot], set: CausalAnchorSupportSet) -> (r: Result<
        (),
        CausalAnchorSupportError,
    >)
        ensures
            support_outcome(self.grants@, *subject, roots@, set, r),
    {
        let mut i: usize = 0;
        while i < roots.len()
            invariant
                i <= roots@.len(),
                first_unsupported_from(self.grants@, *subject, roots@, set, 0) == first_unsupported_from(
                    self.grants@,
                    *subject,
                    roots@,
                    set,
                    i as int,
                ),
            decreases roots.len() - i,
        {
            let k = grant_key_bytes(subject, &roots[i], set);
            if !self.has_grant(k.as_slice()) {
                let d = compute_grant_digest(subject, &roots[i], set);
                return Err(CausalAnchorSupportError::UnsupportedRoot { grant_digest: d, support_set: set });
            }
            i += 1;
        }
        Ok(())
    }
}

fn compute_policy_digest(grants: &[CausalAnchorRootSupportGrant]) -> (r: crate::ident::Hash)
    ensures
        r@ == policy_digest_spec(grants@),
{
    let mut input: Vec<u8> = Vec::new();
    push_slice(&mut input, "echo:causal-anchor:support-policy:v1\0".as_bytes());
    push_u64_le(&mut input, grants.len() as u64);
    let ghost prefix = input@;
    let mut i: usize = 0;
    while i < grants.len()
        invariant
            i <= grants@.len(),
            input@ == prefix + grant_entries_concat(grants@.take(i as int)),
        decreases grants.len() - i,
    {
        push_grant_entry(&mut input, &grants[i].subject, &grants[i].root, grants[i].support_set);
        proof {
            assert(grants@.take(i + 1).drop_last() =~= grants@.take(i as int));
        }
        i += 1;
    }
    assert(grants@.take(grants@.len() as int) =~= grants@);
    proof {
        reveal_strlit("echo:causal-anchor:support-policy:v1\0");
    }
    blake3_hash(input.as_slice())
}

} // verus!
