use warp_core::braid::{Braid, BraidEvent, BraidStatus};
use warp_core::braid_shell::BraidMemberRef;
use warp_core::ident::{make_strand_id, AuthorityDomainId, AuthorityDomainRef, OriginId};

fn authority_ref() -> AuthorityDomainRef {
    AuthorityDomainRef {
        origin_id: OriginId::from_bytes([0x10; 32]),
        domain_id: AuthorityDomainId::from_bytes([0x20; 32]),
    }
}

#[test]
fn test_braid_lifecycle_and_folding() {
    let braid_id = [0xAA; 32];
    let auth = authority_ref();

    let mut braid = Braid::new(braid_id, auth);
    assert_eq!(braid.braid_id, braid_id);
    assert_eq!(braid.next_sequence_num, 0);
    assert_eq!(braid.status, BraidStatus::Active);
    assert!(braid.members.is_empty());

    let m1 = BraidMemberRef::Revealed(make_strand_id("strand-1"));
    braid.apply(BraidEvent::MemberWoven { member_ref: m1, sequence_num: 0 });
    assert_eq!(braid.next_sequence_num, 1);
    assert_eq!(braid.members, vec![m1]);
    assert_eq!(braid.status, BraidStatus::Active);

    let m2 = BraidMemberRef::Revealed(make_strand_id("strand-2"));
    braid.apply(BraidEvent::MemberWoven { member_ref: m2, sequence_num: 1 });
    assert_eq!(braid.next_sequence_num, 2);
    assert_eq!(braid.members, vec![m1, m2]);
    assert_eq!(braid.frontier(), &[m1, m2]);

    let settlement = [0x5E; 32];
    braid.apply(BraidEvent::SettlementFinalized { settlement_digest: settlement });
    assert_eq!(braid.latest_settlement, Some(settlement));
    assert_eq!(braid.status, BraidStatus::Finalized);

    let collapse_witness = [0x33; 32];
    let collapse_outcome = [0x88; 32];
    braid.apply(BraidEvent::BraidCollapsed { collapse_witness, outcome_digest: collapse_outcome });
    assert_eq!(braid.latest_settlement, Some(collapse_outcome));
    assert_eq!(braid.status, BraidStatus::Collapsed);
}

#[test]
fn test_braid_fold_validation() {
    let braid_id = [0xAA; 32];
    let auth = authority_ref();
    let m1 = BraidMemberRef::Revealed(make_strand_id("strand-1"));
    let m2 = BraidMemberRef::Revealed(make_strand_id("strand-2"));
    let settlement = [0x5E; 32];
    let collapse_witness = [0x33; 32];
    let collapse_outcome = [0x88; 32];

    let events = vec![
        BraidEvent::BraidCreated { braid_id, creator_domain: auth },
        BraidEvent::MemberWoven { member_ref: m1, sequence_num: 0 },
        BraidEvent::MemberWoven { member_ref: m2, sequence_num: 1 },
        BraidEvent::SettlementFinalized { settlement_digest: settlement },
        BraidEvent::BraidCollapsed { collapse_witness, outcome_digest: collapse_outcome },
    ];
    let braid = Braid::fold(events).unwrap();
    assert_eq!(braid.braid_id, braid_id);
    assert_eq!(braid.members, vec![m1, m2]);
    assert_eq!(braid.status, BraidStatus::Collapsed);

    let bad_events_no_created = vec![BraidEvent::MemberWoven { member_ref: m1, sequence_num: 0 }];
    assert!(Braid::fold(bad_events_no_created).is_err());

    let bad_events_dup_created = vec![
        BraidEvent::BraidCreated { braid_id, creator_domain: auth },
        BraidEvent::BraidCreated { braid_id, creator_domain: auth },
    ];
    assert!(Braid::fold(bad_events_dup_created).is_err());

    let bad_events_out_of_order = vec![
        BraidEvent::BraidCreated { braid_id, creator_domain: auth },
        BraidEvent::MemberWoven { member_ref: m1, sequence_num: 1 },
    ];
    assert!(Braid::fold(bad_events_out_of_order).is_err());

    let bad_events_weave_after_finalized = vec![
        BraidEvent::BraidCreated { braid_id, creator_domain: auth },
        BraidEvent::SettlementFinalized { settlement_digest: settlement },
        BraidEvent::MemberWoven { member_ref: m1, sequence_num: 0 },
    ];
    assert!(Braid::fold(bad_events_weave_after_finalized).is_err());

    let bad_events_collapse_before_finalized = vec![
        BraidEvent::BraidCreated { braid_id, creator_domain: auth },
        BraidEvent::BraidCollapsed { collapse_witness, outcome_digest: collapse_outcome },
    ];
    assert!(Braid::fold(bad_events_collapse_before_finalized).is_err());
}

#[test]
fn fold_retains_every_event_and_counts_members() {
    let auth = authority_ref();
    let m1 = BraidMemberRef::Revealed(make_strand_id("strand-1"));
    let events = vec![
        BraidEvent::BraidCreated { braid_id: [1; 32], creator_domain: auth },
        BraidEvent::MemberWoven { member_ref: m1, sequence_num: 0 },
    ];
    let braid = Braid::fold(events.clone()).unwrap();
    assert_eq!(braid.events, events);
    assert_eq!(braid.next_sequence_num, braid.members.len() as u64);
}

#[test]
fn fold_of_empty_log_is_refused() {
    assert!(Braid::fold(Vec::new()).is_err());
}

#[test]
fn fold_reports_the_first_offending_event() {
    let auth = authority_ref();
    let braid_id = [0xAA; 32];
    let m1 = BraidMemberRef::Revealed(make_strand_id("strand-1"));
    assert_eq!(Braid::fold(Vec::new()), Err("Empty event stream".to_string()));
    assert_eq!(
        Braid::fold(vec![BraidEvent::MemberWoven { member_ref: m1, sequence_num: 0 }]),
        Err("First event must be BraidCreated".to_string())
    );
    assert_eq!(
        Braid::fold(vec![
            BraidEvent::BraidCreated { braid_id, creator_domain: auth },
            BraidEvent::BraidCreated { braid_id, creator_domain: auth },
        ]),
        Err("BraidCreated event can only appear once at the start of the log".to_string())
    );
    assert_eq!(
        Braid::fold(vec![
            BraidEvent::BraidCreated { braid_id, creator_domain: auth },
            BraidEvent::MemberWoven { member_ref: m1, sequence_num: 1 },
        ]),
        Err("Incoherent member sequence: expected 0, got 1".to_string())
    );
    let mut long = vec![BraidEvent::BraidCreated { braid_id, creator_domain: auth }];
    for n in 0..12u64 {
        long.push(BraidEvent::MemberWoven { member_ref: m1, sequence_num: n });
    }
    long.push(BraidEvent::MemberWoven { member_ref: m1, sequence_num: 105 });
    assert_eq!(
        Braid::fold(long),
        Err("Incoherent member sequence: expected 12, got 105".to_string())
    );
    assert_eq!(
        Braid::fold(vec![
            BraidEvent::BraidCreated { braid_id, creator_domain: auth },
            BraidEvent::SettlementFinalized { settlement_digest: [1; 32] },
            BraidEvent::MemberWoven { member_ref: m1, sequence_num: 0 },
        ]),
        Err("Cannot weave members in status Finalized".to_string())
    );
    assert_eq!(
        Braid::fold(vec![
            BraidEvent::BraidCreated { braid_id, creator_domain: auth },
            BraidEvent::SettlementFinalized { settlement_digest: [1; 32] },
            BraidEvent::SettlementFinalized { settlement_digest: [2; 32] },
        ]),
        Err("Cannot finalize settlement in status Finalized".to_string())
    );
    assert_eq!(
        Braid::fold(vec![
            BraidEvent::BraidCreated { braid_id, creator_domain: auth },
            BraidEvent::BraidCollapsed { collapse_witness: [3; 32], outcome_digest: [4; 32] },
        ]),
        Err("Cannot collapse braid in status Active".to_string())
    );
    assert_eq!(
        Braid::fold(vec![
            BraidEvent::BraidCreated { braid_id, creator_domain: auth },
            BraidEvent::SettlementFinalized { settlement_digest: [1; 32] },
            BraidEvent::BraidCollapsed { collapse_witness: [3; 32], outcome_digest: [4; 32] },
            BraidEvent::BraidCollapsed { collapse_witness: [3; 32], outcome_digest: [4; 32] },
        ]),
        Err("Cannot collapse braid in status Collapsed".to_string())
    );
}
