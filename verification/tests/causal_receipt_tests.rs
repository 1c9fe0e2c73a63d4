use warp_core::causal_receipt::{CausalTickReceiptRef, CAUSAL_TICK_RECEIPT_REF_LEN};
use warp_core::ident::{GlobalTick, WorldlineId, WorldlineTick};

fn reference(tick: u64) -> CausalTickReceiptRef {
    CausalTickReceiptRef {
        worldline_id: WorldlineId::from_bytes([1; 32]),
        worldline_tick_after: WorldlineTick::from_raw(tick),
        commit_global_tick: GlobalTick::from_raw(tick + 10),
        commit_hash: [2; 32],
        submission_id: [3; 32],
        ticket_digest: [4; 32],
        receipt_content_digest: [5; 32],
    }
}

#[test]
fn canonical_bytes_round_trip_exact_coordinate() {
    let reference = reference(7);
    assert_eq!(CausalTickReceiptRef::from_canonical_bytes(reference.to_canonical_bytes()), reference);
}

#[test]
fn identity_distinguishes_equal_receipt_content_at_different_ticks() {
    assert_ne!(reference(7).identity_digest(), reference(8).identity_digest());
}

#[test]
fn canonical_bytes_lay_out_fields_in_order() {
    let bytes = reference(7).to_canonical_bytes();
    assert_eq!(bytes.len(), CAUSAL_TICK_RECEIPT_REF_LEN);
    assert_eq!(&bytes[0..32], &[1u8; 32][..]);
    assert_eq!(&bytes[32..40], &7u64.to_le_bytes()[..]);
    assert_eq!(&bytes[40..48], &17u64.to_le_bytes()[..]);
    assert_eq!(&bytes[48..80], &[2u8; 32][..]);
    assert_eq!(&bytes[144..176], &[5u8; 32][..]);
}
