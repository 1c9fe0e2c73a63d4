use bytes::Bytes;
use warp_core::attachment::{AtomPayload, Codec, DecodeError};
use warp_core::constants::{blake3_empty, digest_len0_u64, POLICY_ID_NO_POLICY_V0};
use warp_core::ident::TypeId;

struct U8Codec;

impl Codec<u8> for U8Codec {
    const TYPE_ID: TypeId = TypeId([0xA5; 32]);

    fn encode_canon(value: &u8) -> Bytes {
        Bytes::from(vec![*value])
    }

    fn decode_strict(bytes: &Bytes) -> Result<u8, DecodeError> {
        if bytes.len() != 1 {
            return Err(DecodeError::InvalidBytes);
        }
        Ok(*bytes.first().ok_or(DecodeError::InvalidBytes)?)
    }
}

#[test]
fn atom_decode_with_enforces_type_id() {
    let payload = AtomPayload::new(U8Codec::TYPE_ID, U8Codec::encode_canon(&7u8));
    assert_eq!(payload.decode_with::<U8Codec, u8>().unwrap(), 7u8);

    let wrong = AtomPayload::new(TypeId([0x5A; 32]), U8Codec::encode_canon(&7u8));
    assert!(
        matches!(wrong.decode_with::<U8Codec, u8>(), Err(DecodeError::TypeMismatch { .. })),
        "type mismatch must be reported deterministically"
    );
}

#[test]
fn atom_decode_for_match_is_deterministic_and_conservative() {
    let good = AtomPayload::new(U8Codec::TYPE_ID, U8Codec::encode_canon(&9u8));
    assert_eq!(good.decode_for_match::<U8Codec, u8>(), Some(9u8));

    let wrong_type = AtomPayload::new(TypeId([0x00; 32]), U8Codec::encode_canon(&9u8));
    assert_eq!(wrong_type.decode_for_match::<U8Codec, u8>(), None);

    let bad_bytes = AtomPayload::new(U8Codec::TYPE_ID, Bytes::from_static(&[]));
    assert_eq!(bad_bytes.decode_for_match::<U8Codec, u8>(), None);
}

#[test]
fn type_mismatch_names_both_type_ids() {
    let wrong = AtomPayload::new(TypeId([0x5A; 32]), U8Codec::encode_canon(&7u8));
    assert_eq!(
        wrong.decode_with::<U8Codec, u8>(),
        Err(DecodeError::TypeMismatch { expected: TypeId([0xA5; 32]), found: TypeId([0x5A; 32]) })
    );
}

#[test]
fn engine_constants_have_their_canonical_values() {
    assert_eq!(POLICY_ID_NO_POLICY_V0, u32::from_le_bytes(*b"NOP0"));
    assert_eq!(blake3_empty(), *blake3::hash(&[]).as_bytes());
    assert_eq!(digest_len0_u64(), *blake3::hash(&0u64.to_le_bytes()).as_bytes());
}
