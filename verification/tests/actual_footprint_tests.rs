use warp_core::actual_footprint::{ActualFootprint, ViolationKind};
use warp_core::attachment::AttachmentKey;
use warp_core::footprint::Footprint;
use warp_core::ident::{make_edge_id, make_node_id, make_warp_id, NodeId, NodeKey, WarpId};

fn warp() -> WarpId {
    make_warp_id("actual-footprint-tests")
}

fn other_warp() -> WarpId {
    make_warp_id("actual-footprint-tests-other")
}

fn node_attachment(node: NodeId) -> AttachmentKey {
    AttachmentKey::node_alpha(NodeKey { warp_id: warp(), local_id: node })
}

#[test]
fn empty_record_is_sound_under_any_declaration() {
    let actual = ActualFootprint::new();
    assert!(actual.is_empty());
    assert!(actual.is_sound_under(&Footprint::default(), warp()));
}

#[test]
fn declared_access_produces_no_violation() {
    let node = make_node_id("a");
    let mut declared = Footprint::default();
    declared.n_read.insert(NodeKey { warp_id: warp(), local_id: node });

    let mut actual = ActualFootprint::new();
    actual.record_node_read(node);

    assert_eq!(actual.soundness_violations(&declared, warp()), Vec::new());
}

#[test]
fn undeclared_node_read_is_reported() {
    let declared_node = make_node_id("a");
    let undeclared_node = make_node_id("b");
    let mut declared = Footprint::default();
    declared.n_read.insert(NodeKey { warp_id: warp(), local_id: declared_node });

    let mut actual = ActualFootprint::new();
    actual.record_node_read(declared_node);
    actual.record_node_read(undeclared_node);

    assert_eq!(
        actual.soundness_violations(&declared, warp()),
        vec![ViolationKind::NodeReadNotDeclared(undeclared_node)]
    );
}

#[test]
fn superset_declaration_is_sound() {
    let touched = make_node_id("a");
    let untouched = make_node_id("b");
    let mut declared = Footprint::default();
    for node in [touched, untouched] {
        declared.n_read.insert(NodeKey { warp_id: warp(), local_id: node });
    }

    let mut actual = ActualFootprint::new();
    actual.record_node_read(touched);

    assert!(actual.is_sound_under(&declared, warp()));
}

#[test]
fn read_declaration_does_not_authorize_a_write() {
    let node = make_node_id("a");
    let mut declared = Footprint::default();
    declared.n_read.insert(NodeKey { warp_id: warp(), local_id: node });

    let mut actual = ActualFootprint::new();
    actual.record_node_write(node);

    assert_eq!(
        actual.soundness_violations(&declared, warp()),
        vec![ViolationKind::NodeWriteNotDeclared(node)]
    );
}

#[test]
fn declaration_in_another_warp_does_not_cover_this_warp() {
    let node = make_node_id("a");
    let mut declared = Footprint::default();
    declared.n_read.insert(NodeKey { warp_id: other_warp(), local_id: node });

    let mut actual = ActualFootprint::new();
    actual.record_node_read(node);

    assert_eq!(
        actual.soundness_violations(&declared, warp()),
        vec![ViolationKind::NodeReadNotDeclared(node)]
    );
}

#[test]
fn violations_are_ordered_by_axis_then_canonically() {
    let node_b = make_node_id("b");
    let node_a = make_node_id("a");
    let edge = make_edge_id("e");
    let attachment = node_attachment(node_a);

    let mut actual = ActualFootprint::new();
    actual.record_node_read(node_b);
    actual.record_node_read(node_a);
    actual.record_edge_read(edge);
    actual.record_attachment_read(attachment);
    actual.record_node_write(node_a);

    let violations = actual.soundness_violations(&Footprint::default(), warp());
    let mut expected_nodes = [node_a, node_b];
    expected_nodes.sort_unstable();

    assert_eq!(
        violations,
        vec![
            ViolationKind::NodeReadNotDeclared(expected_nodes[0]),
            ViolationKind::NodeReadNotDeclared(expected_nodes[1]),
            ViolationKind::EdgeReadNotDeclared(edge),
            ViolationKind::AttachmentReadNotDeclared(attachment),
            ViolationKind::NodeWriteNotDeclared(node_a),
        ]
    );
}

#[test]
fn recording_is_idempotent() {
    let node = make_node_id("a");

    let mut once = ActualFootprint::new();
    once.record_node_read(node);

    let mut twice = ActualFootprint::new();
    twice.record_node_read(node);
    twice.record_node_read(node);

    assert_eq!(once, twice);
}

#[test]
fn recording_order_does_not_affect_the_record() {
    let node_a = make_node_id("a");
    let node_b = make_node_id("b");

    let mut forward = ActualFootprint::new();
    forward.record_node_read(node_a);
    forward.record_node_read(node_b);

    let mut reverse = ActualFootprint::new();
    reverse.record_node_read(node_b);
    reverse.record_node_read(node_a);

    assert_eq!(forward, reverse);
    assert_eq!(
        forward.soundness_violations(&Footprint::default(), warp()),
        reverse.soundness_violations(&Footprint::default(), warp())
    );
}

#[test]
fn attachment_of_another_warp_is_a_violation_even_when_declared() {
    let node = make_node_id("a");
    let foreign = AttachmentKey::node_alpha(NodeKey { warp_id: other_warp(), local_id: node });
    let mut declared = Footprint::default();
    declared.a_write.insert(foreign);
    let mut actual = ActualFootprint::new();
    actual.record_attachment_write(foreign);
    assert_eq!(
        actual.soundness_violations(&declared, warp()),
        vec![ViolationKind::AttachmentWriteNotDeclared(foreign)]
    );
    assert!(actual.is_sound_under(&declared, other_warp()));
}

#[test]
fn recorded_reads_are_listed_in_canonical_order() {
    let a = make_node_id("a");
    let b = make_node_id("b");
    let mut actual = ActualFootprint::new();
    actual.record_node_read(b);
    actual.record_node_read(a);
    actual.record_node_read(b);
    let mut expected = vec![a, b];
    expected.sort();
    assert_eq!(actual.nodes_read().to_vec(), expected);
    assert!(!actual.is_empty());
}
