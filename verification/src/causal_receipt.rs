//! Stable causal coordinates for admitted tick-receipt events.
use vstd::prelude::*;
use vstd::bytes::*;
use vstd::string::*;
use crate::crypto::{blake3_digest, blake3_hash};
use crate::encoding::{push_hash, push_slice, push_u64_le, ByteCursor};
use crate::ident::{GlobalTick, WorldlineId, WorldlineTick};

verus! {

/// Canonical byte length of a retained [`CausalTickReceiptRef`].
pub const CAUSAL_TICK_RECEIPT_REF_LEN: usize = 176;

/// Exact causal coordinate of one admitted scheduler tick receipt. Holding a
/// reference is not proof that the transition exists.
#[derive(Clone, Copy, Debug, PartialEq, Eq, PartialOrd, Ord, Hash)]
pub struct CausalTickReceiptRef {
    /// Worldline whose frontier advanced.
    pub worldline_id: WorldlineId,
    /// Worldline frontier tick after the admitted transition.
    pub worldline_tick_after: WorldlineTick,
    /// Runtime-global logical cycle that committed the transition.
    pub commit_global_tick: GlobalTick,
    /// Commit hash of the admitted transition.
    pub commit_hash: crate::ident::Hash,
    /// Witnessed submission decided by the transition.
    pub submission_id: crate::ident::Hash,
    /// Admission ticket bound to runtime ingress.
    pub ticket_digest: crate::ident::Hash,
    /// Transaction-independent tick-receipt content commitment.
    pub receipt_content_digest: crate::ident::Hash,
}

/// Canonical fixed-width bytes of a coordinate: worldline id, the two ticks
/// little-endian, then the four digests.
pub open spec fn receipt_ref_bytes(r: CausalTickReceiptRef) -> Seq<u8> {
    r.worldline_id.0@ + spec_u64_to_le_bytes(r.worldline_tick_after.0) + spec_u64_to_le_bytes(r.commit_global_tick.0)
        + r.commit_hash@ + r.submission_id@ + r.ticket_digest@ + r.receipt_content_digest@
}

/// Domain prefix of coordinate identity digests.
pub open spec fn receipt_ref_domain() -> Seq<u8> {
    "echo:causal-tick-receipt-ref:v1\0".spec_bytes()
}

impl CausalTickReceiptRef {
    /// Domain-separated identity digest of this exact coordinate.
    pub fn identity_digest(self) -> (r: crate::ident::Hash)
        ensures
            r@ == blake3_digest(receipt_ref_domain() + receipt_ref_bytes(self)),
    {
        let bytes = self.to_canonical_bytes();
        let mut input: Vec<u8> = Vec::new();
        push_slice(&mut input, "echo:causal-tick-receipt-ref:v1\0".as_bytes());
        push_slice(&mut input, bytes.as_slice());
        proof {
            reveal_strlit("echo:causal-tick-receipt-ref:v1\0");
        }
        blake3_hash(input.as_slice())
    }

    /// Encodes this coordinate as canonical fixed-width bytes.
    pub fn to_canonical_bytes(self) -> (r: [u8; CAUSAL_TICK_RECEIPT_REF_LEN])
        ensures
            r@ == receipt_ref_bytes(self),
    {
        let mut v: Vec<u8> = Vec::new();
        push_hash(&mut v, &self.worldline_id.0);
        push_u64_le(&mut v, self.worldline_tick_after.0);
        push_u64_le(&mut v, self.commit_global_tick.0);
        push_hash(&mut v, &self.commit_hash);
        push_hash(&mut v, &self.submission_id);
        push_hash(&mut v, &self.ticket_digest);
        push_hash(&mut v, &self.receipt_content_digest);
        proof {
            lemma_auto_spec_u64_to_from_le_bytes();
        }
        assert(v@.len() == 176);
        let r: [u8; CAUSAL_TICK_RECEIPT_REF_LEN] = [v[0], v[1], v[2], v[3], v[4], v[5], v[6], v[7], v[8], v[9], v[10], v[11], v[12], v[13], v[14], v[15], v[16], v[17], v[18], v[19], v[20], v[21], v[22], v[23], v[24], v[25], v[26], v[27], v[28], v[29], v[30], v[31], v[32], v[33], v[34], v[35], v[36], v[37], v[38], v[39], v[40], v[41], v[42], v[43], v[44], v[45], v[46], v[47], v[48], v[49], v[50], v[51], v[52], v[53], v[54], v[55], v[56], v[57], v[58], v[59], v[60], v[61], v[62], v[63], v[64], v[65], v[66], v[67], v[68], v[69], v[70], v[71], v[72], v[73], v[74], v[75], v[76], v[77], v[78], v[79], v[80], v[81], v[82], v[83], v[84], v[85], v[86], v[87], v[88], v[89], v[90], v[91], v[92], v[93], v[94], v[95], v[96], v[97], v[98], v[99], v[100], v[101], v[102], v[103], v[104], v[105], v[106], v[107], v[108], v[109], v[110], v[111], v[112], v[113], v[114], v[115], v[116], v[117], v[118], v[119], v[120], v[121], v[122], v[123], v[124], v[125], v[126], v[127], v[128], v[129], v[130], v[131], v[132], v[133], v[134], v[135], v[136], v[137], v[138], v[139], v[140], v[141], v[142], v[143], v[144], v[145], v[146], v[147], v[148], v[149], v[150], v[151], v[152], v[153], v[154], v[155], v[156], v[157], v[158], v[159], v[160], v[161], v[162], v[163], v[164], v[165], v[166], v[167], v[168], v[169], v[170], v[171], v[172], v[173], v[174], v[175]];
        assert(r@ =~= v@);
        r
    }

    /// Decodes one canonical fixed-width coordinate.
    pub fn from_canonical_bytes(bytes: [u8; CAUSAL_TICK_RECEIPT_REF_LEN]) -> (r: Self)
        ensures
            r.worldline_id.0@ == bytes@.subrange(0, 32),
            r.worldline_tick_after.0 == spec_u64_from_le_bytes(bytes@.subrange(32, 40)),
            r.commit_global_tick.0 == spec_u64_from_le_bytes(bytes@.subrange(40, 48)),
            r.commit_hash@ == bytes@.subrange(48, 80),
            r.submission_id@ == bytes@.subrange(80, 112),
            r.ticket_digest@ == bytes@.subrange(112, 144),
            r.receipt_content_digest@ == bytes@.subrange(144, 176),
    {
        let mut c = ByteCursor::new(bytes.as_slice());
        let worldline = c.read_hash().unwrap();
        let tick = c.read_u64().unwrap();
        let global = c.read_u64().unwrap();
        let commit_hash = c.read_hash().unwrap();
        let submission_id = c.read_hash().unwrap();
        let ticket_digest = c.read_hash().unwrap();
        let receipt_content_digest = c.read_hash().unwrap();
        CausalTickReceiptRef {
            worldline_id: WorldlineId(worldline),
            worldline_tick_after: WorldlineTick(tick),
            commit_global_tick: GlobalTick(global),
            commit_hash,
            submission_id,
            ticket_digest,
            receipt_content_digest,
        }
    }
}

/// Decoding the canonical bytes of a coordinate gives the coordinate back,
/// and encoding a decoded coordinate gives the bytes back.
pub proof fn lemma_receipt_ref_round_trip(r: CausalTickReceiptRef, b: CausalTickReceiptRef)
    requires
        b.worldline_id.0@ == receipt_ref_bytes(r).subrange(0, 32),
        b.worldline_tick_after.0 == spec_u64_from_le_bytes(receipt_ref_bytes(r).subrange(32, 40)),
        b.commit_global_tick.0 == spec_u64_from_le_bytes(receipt_ref_bytes(r).subrange(40, 48)),
        b.commit_hash@ == receipt_ref_bytes(r).subrange(48, 80),
        b.submission_id@ == receipt_ref_bytes(r).subrange(80, 112),
        b.ticket_digest@ == receipt_ref_bytes(r).subrange(112, 144),
        b.receipt_content_digest@ == receipt_ref_bytes(r).subrange(144, 176),
    ensures
        b == r,
{
    lemma_auto_spec_u64_to_from_le_bytes();
    let s = receipt_ref_bytes(r);
    assert(s.subrange(0, 32) =~= r.worldline_id.0@);
    assert(s.subrange(32, 40) =~= spec_u64_to_le_bytes(r.worldline_tick_after.0));
    assert(s.subrange(40, 48) =~= spec_u64_to_le_bytes(r.commit_global_tick.0));
    assert(s.subrange(48, 80) =~= r.commit_hash@);
    assert(s.subrange(80, 112) =~= r.submission_id@);
    assert(s.subrange(112, 144) =~= r.ticket_digest@);
    assert(s.subrange(144, 176) =~= r.receipt_content_digest@);
    assert(b.worldline_id.0 =~= r.worldline_id.0);
    assert(b.commit_hash =~= r.commit_hash);
    assert(b.submission_id =~= r.submission_id);
    assert(b.ticket_digest =~= r.ticket_digest);
    assert(b.receipt_content_digest =~= r.receipt_content_digest);
}

} // verus!
