use warp_core::ident::{make_node_id, NodeId};
use warp_core::shard::{partition_into_shards, shard_of, ExecItem, OpOrigin, NUM_SHARDS};

#[test]
fn test_vector_1_deadbeef() {
    let bytes: [u8; 32] = [
        0xBE, 0xBA, 0xFE, 0xCA, 0xEF, 0xBE, 0xAD, 0xDE, // first 8 bytes (LE)
        0x00, 0x00, 0x00, 0x00, 0x00, 0x00, 0x00, 0x00, 0x00, 0x00, 0x00, 0x00, 0x00, 0x00,
        0x00, 0x00, 0x00, 0x00, 0x00, 0x00, 0x00, 0x00, 0x00, 0x00,
    ];
    let node = NodeId(bytes);
    assert_eq!(shard_of(&node), 190, "REGRESSION: shard routing changed!");
}

#[test]
fn test_vector_2_all_zeros() {
    let node = NodeId([0u8; 32]);
    assert_eq!(shard_of(&node), 0, "REGRESSION: shard routing changed!");
}

#[test]
fn test_vector_3_low_byte_42() {
    let mut bytes = [0u8; 32];
    bytes[0] = 42;
    let node = NodeId(bytes);
    assert_eq!(shard_of(&node), 42, "REGRESSION: shard routing changed!");
}

#[test]
fn test_vector_4_all_ones() {
    let mut bytes = [0u8; 32];
    bytes[0..8].copy_from_slice(&[0xFF; 8]);
    let node = NodeId(bytes);
    assert_eq!(shard_of(&node), 255, "REGRESSION: shard routing changed!");
}

#[test]
fn test_vector_5_only_first_8_bytes_matter() {
    let mut bytes1 = [0u8; 32];
    let mut bytes2 = [0u8; 32];
    bytes1[0..8].copy_from_slice(&[1, 2, 3, 4, 5, 6, 7, 8]);
    bytes2[0..8].copy_from_slice(&[1, 2, 3, 4, 5, 6, 7, 8]);
    bytes1[8] = 0xAA;
    bytes2[8] = 0xBB;
    bytes1[31] = 0xCC;
    bytes2[31] = 0xDD;
    assert_eq!(
        shard_of(&NodeId(bytes1)),
        shard_of(&NodeId(bytes2)),
        "Bytes after index 7 should not affect shard routing"
    );
}

#[test]
fn shard_routing_is_deterministic() {
    let node = make_node_id("test-node-determinism");
    let shard1 = shard_of(&node);
    let shard2 = shard_of(&node);
    let shard3 = shard_of(&node);
    assert_eq!(shard1, shard2);
    assert_eq!(shard2, shard3);
}

#[test]
fn shard_is_always_in_bounds() {
    for i in 0..1000 {
        let node = make_node_id(&format!("node-{i}"));
        let shard = shard_of(&node);
        assert!(shard < NUM_SHARDS, "shard {shard} >= NUM_SHARDS {NUM_SHARDS} for node-{i}");
    }
}

fn dummy_exec() {}

#[test]
fn partition_creates_correct_shard_count() {
    let items: Vec<ExecItem<fn()>> = Vec::new();
    let shards = partition_into_shards(&items);
    assert_eq!(shards.len(), NUM_SHARDS);
}

#[test]
fn partition_distributes_items_correctly() {
    let items: Vec<ExecItem<fn()>> = (0..100)
        .map(|i| {
            let node = make_node_id(&format!("partition-test-{i}"));
            ExecItem::new(dummy_exec as fn(), node, OpOrigin::default())
        })
        .collect();
    let shards = partition_into_shards(&items);
    let total_items: usize = shards.iter().map(|s| s.items.len()).sum();
    assert_eq!(total_items, 100);
    for (shard_id, shard) in shards.iter().enumerate() {
        for item in &shard.items {
            assert_eq!(shard_of(&item.scope), shard_id, "Item in wrong shard");
        }
    }
}

#[test]
fn shard_uses_low_byte_of_little_endian_prefix() {
    let mut bytes = [0u8; 32];
    bytes[0] = 0x01;
    bytes[1] = 0x02;
    assert_eq!(shard_of(&NodeId(bytes)), 1);
}
