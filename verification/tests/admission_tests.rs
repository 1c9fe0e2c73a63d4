use warp_core::admission::{AdmissionOutcome, AdmissionOutcomeKind, BoundedSite, PluralArtifact};
use warp_core::attachment::AttachmentKey;
use warp_core::footprint::{pack_port_key, Footprint};
use warp_core::ident::{make_edge_id, make_node_id, make_warp_id, EdgeKey, NodeKey};

#[test]
fn bounded_site_derives_from_footprint_without_inventing_new_geometry() {
    let warp_id = make_warp_id("bounded-site-warp");
    let read_node = make_node_id("read-node");
    let write_node = make_node_id("write-node");
    let read_edge = make_edge_id("read-edge");
    let write_edge = make_edge_id("write-edge");

    let mut footprint = Footprint::default();
    footprint.n_read.insert_with_warp(warp_id, read_node);
    footprint.n_write.insert_with_warp(warp_id, write_node);
    footprint.e_read.insert_with_warp(warp_id, read_edge);
    footprint.e_write.insert_with_warp(warp_id, write_edge);
    footprint.a_read.insert(AttachmentKey::node_alpha(NodeKey { warp_id, local_id: read_node }));
    footprint.a_write.insert(AttachmentKey::edge_beta(EdgeKey { warp_id, local_id: write_edge }));
    footprint.b_in.insert(warp_id, pack_port_key(&read_node, 0, true));
    footprint.b_out.insert(warp_id, pack_port_key(&write_node, 0, false));
    footprint.factor_mask = 0b1010;

    let site = BoundedSite::from_footprint(&footprint);

    assert_eq!(site.claim_footprint, footprint);
    assert_eq!(site.affected_region.nodes, footprint.n_write);
    assert_eq!(site.affected_region.edges, footprint.e_write);
    assert_eq!(site.affected_region.attachments, footprint.a_write);
    assert_eq!(site.reintegration_boundary.inputs, footprint.b_in);
    assert_eq!(site.reintegration_boundary.outputs, footprint.b_out);
}

#[test]
fn plural_artifact_requires_parallel_participants_and_claims() {
    let site = BoundedSite::default();
    let artifact = PluralArtifact::new(site, vec!["lane-a", "lane-b"], vec![1, 2]);

    assert_eq!(artifact.participants, vec!["lane-a", "lane-b"]);
    assert_eq!(artifact.claims, vec![1, 2]);
}

#[test]
fn admission_outcome_reports_top_level_kind() {
    let derived: AdmissionOutcome<u8, &str, &str, &str> = AdmissionOutcome::Derived(7);
    let plural: AdmissionOutcome<u8, &str, &str, &str> = AdmissionOutcome::Plural(Box::new(PluralArtifact::new(
        BoundedSite::default(),
        vec!["lane-a", "lane-b"],
        vec![1u8, 2u8],
    )));
    let conflict: AdmissionOutcome<u8, &str, &str, &str> = AdmissionOutcome::Conflict("conflict");
    let obstruction: AdmissionOutcome<u8, &str, &str, &str> = AdmissionOutcome::Obstruction("blocked");

    assert_eq!(derived.kind(), AdmissionOutcomeKind::Derived);
    assert_eq!(plural.kind(), AdmissionOutcomeKind::Plural);
    assert_eq!(conflict.kind(), AdmissionOutcomeKind::Conflict);
    assert_eq!(obstruction.kind(), AdmissionOutcomeKind::Obstruction);
}

#[test]
fn port_key_packs_node_prefix_port_and_direction() {
    let mut bytes = [0u8; 32];
    bytes[0] = 0x01;
    let node = warp_core::ident::NodeId(bytes);
    assert_eq!(pack_port_key(&node, 3, true), (1u64 << 32) | (3 << 2) | 1);
    assert_eq!(pack_port_key(&node, 3, false), (1u64 << 32) | (3 << 2));
}
