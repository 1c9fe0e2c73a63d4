//! Revelation postures and witness digests.
use vstd::prelude::*;
use crate::crypto::{blake3_digest, blake3_hash};
use crate::ident::{hash_eq, hash_is_zero, is_zero_hash};

pub use crate::constants::blake3_empty;

verus! {

/// How far a causal fact has been revealed, from least to most revealed.
#[derive(Clone, Copy, Debug, PartialEq, Eq, Hash, PartialOrd, Ord, Structural)]
pub enum CausalPosture {
    /// Private scratch work.
    Scratch,
    /// Visible to the author only.
    AuthorOnly,
    /// Shared beyond the author.
    Shared,
}

impl CausalPosture {
    /// Stable wire tag; tags increase with revelation.
    pub open spec fn tag_spec(self) -> u8 {
        match self {
            CausalPosture::Scratch => 1u8,
            CausalPosture::AuthorOnly => 2u8,
            CausalPosture::Shared => 3u8,
        }
    }

    /// Stable wire tag for canonical serialization.
    pub fn canonical_tag(self) -> (r: u8)
        ensures
            r == self.tag_spec(),
    {
        match self {
            CausalPosture::Scratch => 1,
            CausalPosture::AuthorOnly => 2,
            CausalPosture::Shared => 3,
        }
    }
}

/// A shell claims more revelation than its least-revealed member allows.
#[derive(Clone, Copy, Debug, PartialEq, Eq, Structural)]
pub struct PostureObstruction {
    /// Posture the shell claims.
    pub claimed: CausalPosture,
    /// Least-revealed member posture.
    pub floor: CausalPosture,
}

/// The least-revealed posture in `ps`, if any.
pub open spec fn posture_floor(ps: Seq<CausalPosture>) -> Option<CausalPosture>
    decreases ps.len(),
{
    if ps.len() == 0 {
        None
    } else {
        match posture_floor(ps.drop_last()) {
            None => Some(ps.last()),
            Some(m) => if ps.last().tag_spec() < m.tag_spec() {
                Some(ps.last())
            } else {
                Some(m)
            },
        }
    }
}

/// The obstruction a shell posture meets against its members' postures.
pub open spec fn posture_obstruction_spec(posture: CausalPosture, members: Seq<CausalPosture>) -> Option<
    PostureObstruction,
> {
    match posture_floor(members) {
        None => None,
        Some(floor) => if posture.tag_spec() > floor.tag_spec() {
            Some(PostureObstruction { claimed: posture, floor })
        } else {
            None
        },
    }
}

/// The floor of a sequence of postures is the least-revealed posture in it:
/// an empty sequence has none; otherwise the floor is one of the postures and
/// its tag is at most the tag of every posture in the sequence.
pub proof fn lemma_posture_floor_is_least(ps: Seq<CausalPosture>)
    ensures
        ps.len() == 0 ==> posture_floor(ps) is None,
        ps.len() > 0 ==> posture_floor(ps) is Some,
        posture_floor(ps) matches Some(f) ==> ps.contains(f),
        posture_floor(ps) matches Some(f) ==> forall|i: int|
            0 <= i < ps.len() ==> f.tag_spec() <= #[trigger] ps[i].tag_spec(),
    decreases ps.len(),
{
    if ps.len() > 0 {
        let q = ps.drop_last();
        lemma_posture_floor_is_least(q);
        let f = posture_floor(ps)->Some_0;
        match posture_floor(q) {
            None => {
                assert(ps[ps.len() - 1] == f);
            },
            Some(m) => {
                let j = choose|j: int| 0 <= j < q.len() && q[j] == m;
                assert(ps[j] == m);
                assert(ps[ps.len() - 1] == ps.last());
                assert forall|i: int| 0 <= i < ps.len() implies f.tag_spec() <= #[trigger] ps[i].tag_spec() by {
                    if i < ps.len() - 1 {
                        assert(ps[i] == q[i]);
                    }
                }
            },
        }
    }
}

/// A shell posture meets an obstruction exactly when some member is less
/// revealed than it; the obstruction names the claimed posture and the
/// least-revealed member posture.
pub proof fn lemma_posture_obstruction_iff_member_below(posture: CausalPosture, ps: Seq<CausalPosture>)
    ensures
        posture_obstruction_spec(posture, ps) is Some <==> exists|i: int|
            0 <= i < ps.len() && #[trigger] ps[i].tag_spec() < posture.tag_spec(),
        posture_obstruction_spec(posture, ps) matches Some(o) ==> o.claimed == posture && ps.contains(o.floor)
            && o.floor.tag_spec() < posture.tag_spec() && forall|i: int|
            0 <= i < ps.len() ==> o.floor.tag_spec() <= #[trigger] ps[i].tag_spec(),
{
    lemma_posture_floor_is_least(ps);
    if posture_obstruction_spec(posture, ps) is Some {
        let f = posture_floor(ps)->Some_0;
        let j = choose|j: int| 0 <= j < ps.len() && ps[j] == f;
        assert(ps[j].tag_spec() < posture.tag_spec());
    }
}

/// Returns the obstruction when `posture` exceeds the least-revealed member posture.
pub fn shell_posture_obstruction(posture: CausalPosture, members: &[CausalPosture]) -> (r: Option<PostureObstruction>)
    ensures
        r == posture_obstruction_spec(posture, members@),
{
    let mut floor: Option<CausalPosture> = None;
    let mut i: usize = 0;
    while i < members.len()
        invariant
            i <= members@.len(),
            floor == posture_floor(members@.take(i as int)),
        decreases members.len() - i,
    {
        let p = members[i];
        proof {
            assert(members@.take(i + 1).drop_last() =~= members@.take(i as int));
        }
        floor = match floor {
            None => Some(p),
            Some(m) => if p.canonical_tag() < m.canonical_tag() {
                Some(p)
            } else {
                Some(m)
            },
        };
        i += 1;
    }
    assert(members@.take(members@.len() as int) =~= members@);
    match floor {
        None => None,
        Some(f) => if posture.canonical_tag() > f.canonical_tag() {
            Some(PostureObstruction { claimed: posture, floor: f })
        } else {
            None
        },
    }
}

/// Why a digest cannot serve as a witness.
#[derive(Clone, Copy, Debug, PartialEq, Eq, Structural)]
pub enum WitnessDigestError {
    /// The digest is all zero bytes.
    ZeroDigest,
    /// The digest is the digest of empty input.
    EmptyInputDigest,
}

/// A digest admitted as a witness: neither all zero nor the digest of nothing.
#[derive(Clone, Copy, Debug, PartialEq, Eq)]
pub struct WitnessDigest(crate::ident::Hash);

/// Whether `h` can serve as a witness digest.
pub open spec fn witness_admissible(h: crate::ident::Hash) -> bool {
    !is_zero_hash(h) && h@ != blake3_digest(Seq::<u8>::empty())
}

impl WitnessDigest {
    /// The witnessed digest.
    pub closed spec fn hash_spec(&self) -> crate::ident::Hash {
        self.0
    }

    /// Admits `h` as a witness digest.
    pub fn new(h: crate::ident::Hash) -> (r: Result<WitnessDigest, WitnessDigestError>)
        ensures
            is_zero_hash(h) ==> r == Err::<WitnessDigest, WitnessDigestError>(WitnessDigestError::ZeroDigest),
            !is_zero_hash(h) && h@ == blake3_digest(Seq::<u8>::empty()) ==> r == Err::<
                WitnessDigest,
                WitnessDigestError,
            >(WitnessDigestError::EmptyInputDigest),
            r is Ok <==> witness_admissible(h),
            r matches Ok(w) ==> w.hash_spec() == h,
    {
        if hash_is_zero(&h) {
            return Err(WitnessDigestError::ZeroDigest);
        }
        let empty = blake3_empty();
        if hash_eq(&h, &empty) {
            return Err(WitnessDigestError::EmptyInputDigest);
        }
        Ok(WitnessDigest(h))
    }

    /// The witnessed digest.
    pub fn as_hash(&self) -> (r: &crate::ident::Hash)
        ensures
            *r == self.hash_spec(),
    {
        &self.0
    }
}

} // verus!
