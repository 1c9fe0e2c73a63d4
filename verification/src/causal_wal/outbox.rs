//! Side-effect materialization outbox: intents and observations recorded in
//! committed transactions, and the recovery posture of each authorized effect.
use vstd::prelude::*;
use crate::causal_wal::builder::WalTransactionBuilder;
use crate::causal_wal::digest_map::{entries_map, DigestMap};
use crate::causal_wal::frame::{AffectedFrontier, WalCommittedTransaction, WalFrame};
use crate::causal_wal::index_recovery::{
    lemma_frames_next, lemma_frames_step, lemma_prefix_stops, lemma_seen_prefix, material_obstructions, payload_of,
    report_frames, retained_material_obstructions,
};
use crate::causal_wal::indexes::RecoveredRetentionIndex;
use crate::causal_wal::kinds::WalRecordKind;
use crate::causal_wal::records::{
    EvidenceMaterialPosture, ExistingMaterializedArtifact, MaterializationIntentRecord, MaterializationObservationRecord,
    MaterializationReplayPosture, MissingMaterialScope, RetainedMaterialKind, RetainedMaterialObstruction,
};
use crate::causal_wal::recovery::{RecoveryScanReport, WalRecoveredTransaction};
use crate::causal_wal::transactions::{build_from_records, build_matches, records_view};
use crate::causal_wal::{WalBuildError, WalRecoveryIndexError};
use crate::ident::hash_eq;
use crate::keyset::KeySet;

verus! {

/// Typed materialization recovery posture.
#[derive(Clone, Copy, Debug, PartialEq, Eq)]
pub enum MaterializationRecoveryPosture {
    /// Effect has a committed observation that matches authorization.
    AlreadyObserved {
        /// Observed artifact digest.
        observed_artifact_digest: crate::ident::Hash,
        /// Observed metadata digest.
        observed_metadata_digest: crate::ident::Hash,
    },
    /// External artifact already matches the authorized effect.
    ExistingArtifactMatches {
        /// Existing artifact digest.
        artifact_digest: crate::ident::Hash,
        /// Existing metadata digest.
        metadata_digest: crate::ident::Hash,
    },
    /// No committed observation or existing artifact evidence was available.
    MissingArtifact {
        /// Stable effect id.
        effect_id: crate::ident::Hash,
        /// Expected external artifact digest.
        expected_artifact_digest: crate::ident::Hash,
        /// Expected external metadata digest.
        expected_metadata_digest: crate::ident::Hash,
    },
    /// External artifact digest mismatched the authorized effect.
    ArtifactDigestMismatch {
        /// Expected external artifact digest.
        expected_artifact_digest: crate::ident::Hash,
        /// Actual external artifact digest.
        actual_artifact_digest: crate::ident::Hash,
    },
    /// External metadata digest mismatched the authorized effect.
    MetadataDigestMismatch {
        /// Expected external metadata digest.
        expected_metadata_digest: crate::ident::Hash,
        /// Actual external metadata digest.
        actual_metadata_digest: crate::ident::Hash,
    },
    /// External artifact and metadata digests both mismatched authorization.
    ArtifactAndMetadataDigestMismatch {
        /// Expected external artifact digest.
        expected_artifact_digest: crate::ident::Hash,
        /// Actual external artifact digest.
        actual_artifact_digest: crate::ident::Hash,
        /// Expected external metadata digest.
        expected_metadata_digest: crate::ident::Hash,
        /// Actual external metadata digest.
        actual_metadata_digest: crate::ident::Hash,
    },
    /// A committed observation conflicted with the authorized intent.
    ObservationDigestMismatch {
        /// Expected external artifact digest.
        expected_artifact_digest: crate::ident::Hash,
        /// Observed external artifact digest.
        observed_artifact_digest: crate::ident::Hash,
        /// Expected external metadata digest.
        expected_metadata_digest: crate::ident::Hash,
        /// Observed external metadata digest.
        observed_metadata_digest: crate::ident::Hash,
    },
    /// Retained material required to verify recovery was unavailable.
    RetainedMaterialUnavailable {
        /// Unavailable material digest.
        material_digest: crate::ident::Hash,
        /// Material kind.
        kind: RetainedMaterialKind,
        /// Recovery scope.
        scope: MissingMaterialScope,
        /// Evidence posture.
        posture: EvidenceMaterialPosture,
    },
}

/// The coarse replay posture of a typed posture.
pub open spec fn replay_posture_spec(p: MaterializationRecoveryPosture) -> MaterializationReplayPosture {
    match p {
        MaterializationRecoveryPosture::AlreadyObserved { .. } => MaterializationReplayPosture::AlreadyObserved,
        MaterializationRecoveryPosture::ExistingArtifactMatches { .. } => MaterializationReplayPosture::ExistingArtifactMatches,
        MaterializationRecoveryPosture::MissingArtifact { .. } => MaterializationReplayPosture::Pending,
        _ => MaterializationReplayPosture::Obstructed,
    }
}

impl MaterializationRecoveryPosture {
    /// The coarse replay posture: observed, matching artifact, pending when
    /// nothing is known, and obstructed otherwise.
    pub fn replay_posture(self) -> (r: MaterializationReplayPosture)
        ensures
            r == replay_posture_spec(self),
    {
        match self {
            MaterializationRecoveryPosture::AlreadyObserved { .. } => MaterializationReplayPosture::AlreadyObserved,
            MaterializationRecoveryPosture::ExistingArtifactMatches { .. } => {
                MaterializationReplayPosture::ExistingArtifactMatches
            },
            MaterializationRecoveryPosture::MissingArtifact { .. } => MaterializationReplayPosture::Pending,
            _ => MaterializationReplayPosture::Obstructed,
        }
    }
}

/// Recovered materialization outbox entry.
#[derive(Clone, Copy, Debug, PartialEq, Eq)]
pub struct MaterializationOutboxEntry {
    /// Intent record.
    pub intent: MaterializationIntentRecord,
    /// Observation record, if committed.
    pub observation: Option<MaterializationObservationRecord>,
    /// Replay posture.
    pub posture: MaterializationReplayPosture,
    /// Typed recovery posture.
    pub recovery_posture: MaterializationRecoveryPosture,
}

/// Records of an outbox transaction: the intent, then the observation if any.
pub open spec fn outbox_records(
    intent: MaterializationIntentRecord,
    observation: Option<MaterializationObservationRecord>,
) -> Seq<(WalRecordKind, Seq<u8>)> {
    match observation {
        Some(o) => seq![
            (WalRecordKind::MaterializationIntentRecorded, intent.payload_spec()),
            (WalRecordKind::MaterializationEffectObserved, o.payload_spec()),
        ],
        None => seq![(WalRecordKind::MaterializationIntentRecorded, intent.payload_spec())],
    }
}

/// Builds a side-effect outbox transaction.
pub fn build_materialization_outbox_transaction(
    builder: WalTransactionBuilder,
    intent: MaterializationIntentRecord,
    observation: Option<MaterializationObservationRecord>,
    affected_frontiers: Vec<AffectedFrontier>,
) -> (r: Result<WalCommittedTransaction, WalBuildError>)
    requires
        builder.wf(),
    ensures
        build_matches(builder, outbox_records(intent, observation), affected_frontiers@, r),
{
    let mut records: Vec<(WalRecordKind, Vec<u8>)> = Vec::new();
    records.push((WalRecordKind::MaterializationIntentRecorded, intent.to_payload_bytes()));
    match observation {
        Some(o) => {
            records.push((WalRecordKind::MaterializationEffectObserved, o.to_payload_bytes()));
        },
        None => {},
    }
    assert(records_view(records@) =~= outbox_records(intent, observation));
    build_from_records(builder, records, affected_frontiers)
}

/// The posture of an authorized effect: a committed observation decides
/// first, then unavailable retained material, then existing artifact evidence.
pub open spec fn recovery_posture_spec(
    intent: MaterializationIntentRecord,
    observation: Option<MaterializationObservationRecord>,
    existing: Option<ExistingMaterializedArtifact>,
    retained_obstruction: Option<RetainedMaterialObstruction>,
) -> MaterializationRecoveryPosture {
    match observation {
        Some(o) => if o.observed_artifact_digest == intent.expected_artifact_digest && o.observed_metadata_digest
            == intent.target_metadata_digest {
            MaterializationRecoveryPosture::AlreadyObserved {
                observed_artifact_digest: o.observed_artifact_digest,
                observed_metadata_digest: o.observed_metadata_digest,
            }
        } else {
            MaterializationRecoveryPosture::ObservationDigestMismatch {
                expected_artifact_digest: intent.expected_artifact_digest,
                observed_artifact_digest: o.observed_artifact_digest,
                expected_metadata_digest: intent.target_metadata_digest,
                observed_metadata_digest: o.observed_metadata_digest,
            }
        },
        None => match retained_obstruction {
            Some(ob) => MaterializationRecoveryPosture::RetainedMaterialUnavailable {
                material_digest: ob.material_digest,
                kind: ob.kind,
                scope: ob.scope,
                posture: ob.posture,
            },
            None => match existing {
                Some(e) => {
                    let artifact_matches = e.artifact_digest == intent.expected_artifact_digest;
                    let metadata_matches = e.metadata_digest == intent.target_metadata_digest;
                    if artifact_matches && metadata_matches {
                        MaterializationRecoveryPosture::ExistingArtifactMatches {
                            artifact_digest: e.artifact_digest,
                            metadata_digest: e.metadata_digest,
                        }
                    } else if metadata_matches {
                        MaterializationRecoveryPosture::ArtifactDigestMismatch {
                            expected_artifact_digest: intent.expected_artifact_digest,
                            actual_artifact_digest: e.artifact_digest,
                        }
                    } else if artifact_matches {
                        MaterializationRecoveryPosture::MetadataDigestMismatch {
                            expected_metadata_digest: intent.target_metadata_digest,
                            actual_metadata_digest: e.metadata_digest,
                        }
                    } else {
                        MaterializationRecoveryPosture::ArtifactAndMetadataDigestMismatch {
                            expected_artifact_digest: intent.expected_artifact_digest,
                            actual_artifact_digest: e.artifact_digest,
                            expected_metadata_digest: intent.target_metadata_digest,
                            actual_metadata_digest: e.metadata_digest,
                        }
                    }
                },
                None => MaterializationRecoveryPosture::MissingArtifact {
                    effect_id: intent.effect_id,
                    expected_artifact_digest: intent.expected_artifact_digest,
                    expected_metadata_digest: intent.target_metadata_digest,
                },
            },
        },
    }
}

/// Recovery posture of one authorized effect from its committed observation,
/// existing artifact evidence and retained-material obstruction.
pub fn materialization_recovery_posture(
    intent: MaterializationIntentRecord,
    observation: Option<MaterializationObservationRecord>,
    existing: Option<ExistingMaterializedArtifact>,
    retained_obstruction: Option<RetainedMaterialObstruction>,
) -> (r: MaterializationRecoveryPosture)
    ensures
        r == recovery_posture_spec(intent, observation, existing, retained_obstruction),
{
    if let Some(o) = observation {
        return if hash_eq(&o.observed_artifact_digest, &intent.expected_artifact_digest) && hash_eq(
            &o.observed_metadata_digest,
            &intent.target_metadata_digest,
        ) {
            MaterializationRecoveryPosture::AlreadyObserved {
                observed_artifact_digest: o.observed_artifact_digest,
                observed_metadata_digest: o.observed_metadata_digest,
            }
        } else {
            MaterializationRecoveryPosture::ObservationDigestMismatch {
                expected_artifact_digest: intent.expected_artifact_digest,
                observed_artifact_digest: o.observed_artifact_digest,
                expected_metadata_digest: intent.target_metadata_digest,
                observed_metadata_digest: o.observed_metadata_digest,
            }
        };
    }
    if let Some(ob) = retained_obstruction {
        return MaterializationRecoveryPosture::RetainedMaterialUnavailable {
            material_digest: ob.material_digest,
            kind: ob.kind,
            scope: ob.scope,
            posture: ob.posture,
        };
    }
    if let Some(e) = existing {
        let artifact_matches = hash_eq(&e.artifact_digest, &intent.expected_artifact_digest);
        let metadata_matches = hash_eq(&e.metadata_digest, &intent.target_metadata_digest);
        return if artifact_matches && metadata_matches {
            MaterializationRecoveryPosture::ExistingArtifactMatches {
                artifact_digest: e.artifact_digest,
                metadata_digest: e.metadata_digest,
            }
        } else if metadata_matches {
            MaterializationRecoveryPosture::ArtifactDigestMismatch {
                expected_artifact_digest: intent.expected_artifact_digest,
                actual_artifact_digest: e.artifact_digest,
            }
        } else if artifact_matches {
            MaterializationRecoveryPosture::MetadataDigestMismatch {
                expected_metadata_digest: intent.target_metadata_digest,
                actual_metadata_digest: e.metadata_digest,
            }
        } else {
            MaterializationRecoveryPosture::ArtifactAndMetadataDigestMismatch {
                expected_artifact_digest: intent.expected_artifact_digest,
                actual_artifact_digest: e.artifact_digest,
                expected_metadata_digest: intent.target_metadata_digest,
                actual_metadata_digest: e.metadata_digest,
            }
        };
    }
    MaterializationRecoveryPosture::MissingArtifact {
        effect_id: intent.effect_id,
        expected_artifact_digest: intent.expected_artifact_digest,
        expected_metadata_digest: intent.target_metadata_digest,
    }
}

/// The intent encoded by `b`, if any.
pub open spec fn intent_of(b: Seq<u8>) -> Option<MaterializationIntentRecord> {
    if exists|x: MaterializationIntentRecord| #[trigger] x.payload_spec() == b {
        Some(choose|x: MaterializationIntentRecord| #[trigger] x.payload_spec() == b)
    } else {
        None
    }
}

/// The observation encoded by `b`, if any.
pub open spec fn observation_of(b: Seq<u8>) -> Option<MaterializationObservationRecord> {
    if exists|x: MaterializationObservationRecord| #[trigger] x.payload_spec() == b {
        Some(choose|x: MaterializationObservationRecord| #[trigger] x.payload_spec() == b)
    } else {
        None
    }
}

proof fn lemma_intent_decoded(x: MaterializationIntentRecord)
    ensures
        intent_of(x.payload_spec()) == Some(x),
{
    let y = choose|y: MaterializationIntentRecord| #[trigger] y.payload_spec() == x.payload_spec();
    x.lemma_layout();
    y.lemma_layout();
    assert(x.effect_id =~= y.effect_id);
    assert(x.expected_artifact_digest =~= y.expected_artifact_digest);
    assert(x.materialization_intent_digest =~= y.materialization_intent_digest);
    assert(x.idempotency_token =~= y.idempotency_token);
    assert(x.target_metadata_digest =~= y.target_metadata_digest);
}

proof fn lemma_observation_decoded(x: MaterializationObservationRecord)
    ensures
        observation_of(x.payload_spec()) == Some(x),
{
    let y = choose|y: MaterializationObservationRecord| #[trigger] y.payload_spec() == x.payload_spec();
    x.lemma_layout();
    y.lemma_layout();
    assert(x.effect_id =~= y.effect_id);
    assert(x.observed_artifact_digest =~= y.observed_artifact_digest);
    assert(x.observed_metadata_digest =~= y.observed_metadata_digest);
}

/// Intents and observations by effect id, in replay order (a later record
/// wins); `None` when one fails to decode.
pub open spec fn outbox_recovery(fs: Seq<WalFrame>) -> Option<
    (Map<crate::ident::Hash, MaterializationIntentRecord>, Map<crate::ident::Hash, MaterializationObservationRecord>),
>
    decreases fs.len(),
{
    if fs.len() == 0 {
        Some((Map::empty(), Map::empty()))
    } else {
        match outbox_recovery(fs.drop_last()) {
            Some((intents, observations)) => {
                let f = fs.last();
                match f.header.record_kind {
                    WalRecordKind::MaterializationIntentRecorded => match intent_of(payload_of(f)) {
                        Some(i) => Some((intents.insert(i.effect_id, i), observations)),
                        None => None,
                    },
                    WalRecordKind::MaterializationEffectObserved => match observation_of(payload_of(f)) {
                        Some(o) => Some((intents, observations.insert(o.effect_id, o))),
                        None => None,
                    },
                    _ => Some((intents, observations)),
                }
            },
            None => None,
        }
    }
}

/// The last obstruction for a material digest, if any.
pub open spec fn obstruction_for(
    obs: Seq<RetainedMaterialObstruction>,
    d: crate::ident::Hash,
) -> Option<RetainedMaterialObstruction>
    decreases obs.len(),
{
    if obs.len() == 0 {
        None
    } else if obs.last().material_digest == d {
        Some(obs.last())
    } else {
        obstruction_for(obs.drop_last(), d)
    }
}

/// An optional map lookup.
pub open spec fn lookup<V>(m: Map<crate::ident::Hash, V>, k: crate::ident::Hash) -> Option<V> {
    if m.dom().contains(k) {
        Some(m[k])
    } else {
        None
    }
}

/// The outbox entry of an intent stored under `k`.
pub open spec fn outbox_entry_spec(
    k: crate::ident::Hash,
    intent: MaterializationIntentRecord,
    observations: Map<crate::ident::Hash, MaterializationObservationRecord>,
    existing: Map<crate::ident::Hash, ExistingMaterializedArtifact>,
    obstructions: Seq<RetainedMaterialObstruction>,
) -> MaterializationOutboxEntry {
    let p = recovery_posture_spec(
        intent,
        lookup(observations, k),
        lookup(existing, k),
        obstruction_for(obstructions, intent.expected_artifact_digest),
    );
    MaterializationOutboxEntry {
        intent,
        observation: lookup(observations, k),
        posture: replay_posture_spec(p),
        recovery_posture: p,
    }
}

/// One entry per recovered intent.
pub open spec fn outbox_spec(
    intents: Map<crate::ident::Hash, MaterializationIntentRecord>,
    observations: Map<crate::ident::Hash, MaterializationObservationRecord>,
    existing: Map<crate::ident::Hash, ExistingMaterializedArtifact>,
    obstructions: Seq<RetainedMaterialObstruction>,
) -> Map<crate::ident::Hash, MaterializationOutboxEntry> {
    Map::new(
        |k: crate::ident::Hash| intents.dom().contains(k),
        |k: crate::ident::Hash| outbox_entry_spec(k, intents[k], observations, existing, obstructions),
    )
}

fn find_obstruction(obs: &Vec<RetainedMaterialObstruction>, d: &crate::ident::Hash) -> (r: Option<RetainedMaterialObstruction>)
    ensures
        r == obstruction_for(obs@, *d),
{
    let mut i: usize = obs.len();
    assert(obs@.take(obs@.len() as int) =~= obs@);
    while i > 0
        invariant
            i <= obs@.len(),
            obstruction_for(obs@, *d) == obstruction_for(obs@.take(i as int), *d),
        decreases i,
    {
        proof {
            assert(obs@.take(i as int).drop_last() =~= obs@.take(i - 1));
        }
        if hash_eq(&obs[i - 1].material_digest, d) {
            return Some(obs[i - 1]);
        }
        i -= 1;
    }
    None
}

/// Recovers the materialization outbox with retained-material availability:
/// one entry per recovered intent, whose posture weighs its committed
/// observation, the retained-material obstruction of its expected artifact,
/// and existing artifact evidence.
#[verifier::rlimit(60)]
#[verifier::spinoff_prover]
pub fn recover_materialization_outbox_with_retained_material(
    report: &RecoveryScanReport,
    existing_artifacts: &DigestMap<ExistingMaterializedArtifact>,
    retention_index: &RecoveredRetentionIndex,
    available_material: &KeySet<crate::ident::Hash>,
) -> (r: Result<DigestMap<MaterializationOutboxEntry>, WalRecoveryIndexError>)
    requires
        existing_artifacts.wf(),
    ensures
        outbox_recovery(report_frames(report.transactions@)) matches Some((intents, observations)) ==> (r matches Ok(
            out,
        ) && out.wf() && out@ == outbox_spec(
            intents,
            observations,
            existing_artifacts@,
            material_obstructions(retention_index.material_by_digest.entries_spec(), available_material@),
        )),
        outbox_recovery(report_frames(report.transactions@)) is None ==> r matches Err(WalRecoveryIndexError::Decode(_)),
{
    let mut intents: DigestMap<MaterializationIntentRecord> = DigestMap::new();
    let mut observations: DigestMap<MaterializationObservationRecord> = DigestMap::new();
    let ts = &report.transactions;
    proof {
        assert(ts@.take(0) =~= Seq::<WalRecoveredTransaction>::empty());
    }
    let mut t: usize = 0;
    while t < ts.len()
        invariant
            ts@ == report.transactions@,
            t <= ts@.len(),
            intents.wf(),
            observations.wf(),
            outbox_recovery(report_frames(ts@.take(t as int))) == Some((intents@, observations@)),
        decreases ts.len() - t,
    {
        let frames = &ts[t].frames;
        proof {
            lemma_frames_next(ts@, t as int);
        }
        let mut i: usize = 0;
        while i < frames.len()
            invariant
                ts@ == report.transactions@,
                t < ts@.len(),
                frames@ == ts@[t as int].frames@,
                i <= frames@.len(),
                intents.wf(),
                observations.wf(),
                outbox_recovery(report_frames(ts@.take(t as int)) + frames@.take(i as int)) == Some(
                    (intents@, observations@),
                ),
            decreases frames.len() - i,
        {
            let f = &frames[i];
            proof {
                lemma_frames_step(ts@, t as int, i as int);
            }
            let ghost pre = report_frames(ts@.take(t as int)) + frames@.take(i as int + 1);
            match f.header.record_kind {
                WalRecordKind::MaterializationIntentRecorded => {
                    let x = match MaterializationIntentRecord::from_payload_bytes(f.payload.canonical_bytes.as_slice()) {
                        Ok(x) => x,
                        Err(e) => {
                            proof {
                                lemma_seen_prefix(ts@, t as int, i as int + 1);
                                lemma_prefix_stops(|s: Seq<WalFrame>| outbox_recovery(s), report_frames(ts@), pre.len() as int);
                            }
                            return Err(WalRecoveryIndexError::Decode(e));
                        },
                    };
                    proof {
                        lemma_intent_decoded(x);
                    }
                    intents.insert(x.effect_id, x);
                },
                WalRecordKind::MaterializationEffectObserved => {
                    let x = match MaterializationObservationRecord::from_payload_bytes(
                        f.payload.canonical_bytes.as_slice(),
                    ) {
                        Ok(x) => x,
                        Err(e) => {
                            proof {
                                lemma_seen_prefix(ts@, t as int, i as int + 1);
                                lemma_prefix_stops(|s: Seq<WalFrame>| outbox_recovery(s), report_frames(ts@), pre.len() as int);
                            }
                            return Err(WalRecoveryIndexError::Decode(e));
                        },
                    };
                    proof {
                        lemma_observation_decoded(x);
                    }
                    observations.insert(x.effect_id, x);
                },
                _ => {},
            }
            i += 1;
        }
        t += 1;
    }
    assert(ts@.take(ts@.len() as int) =~= ts@);
    let obstructions = retained_material_obstructions(retention_index, available_material);
    let ghost obs = obstructions@;
    let es = intents.entries();
    proof {
        intents.lemma_view();
    }
    let mut outbox: DigestMap<MaterializationOutboxEntry> = DigestMap::new();
    let mut k: usize = 0;
    while k < es.len()
        invariant
            k <= es@.len(),
            es@ == intents.entries_spec(),
            intents@ == entries_map(es@),
            observations.wf(),
            existing_artifacts.wf(),
            outbox.wf(),
            obstructions@ == obs,
            outbox@ == outbox_spec(entries_map(es@.take(k as int)), observations@, existing_artifacts@, obs),
        decreases es.len() - k,
    {
        let key = es[k].0;
        let intent = es[k].1;
        let observation = match observations.get(&key) {
            Some(o) => Some(*o),
            None => None,
        };
        let existing = match existing_artifacts.get(&key) {
            Some(e) => Some(*e),
            None => None,
        };
        let retained = find_obstruction(&obstructions, &intent.expected_artifact_digest);
        let recovery_posture = materialization_recovery_posture(intent, observation, existing, retained);
        let posture = recovery_posture.replay_posture();
        let ghost before = outbox@;
        outbox.insert(key, MaterializationOutboxEntry { intent, observation, posture, recovery_posture });
        proof {
            let prev = es@.take(k as int);
            let cur = es@.take(k + 1);
            assert(cur.drop_last() =~= prev);
            assert(entries_map(cur) == entries_map(prev).insert(key, intent));
            assert(outbox@ =~= outbox_spec(entries_map(cur), observations@, existing_artifacts@, obs));
        }
        k += 1;
    }
    assert(es@.take(es@.len() as int) =~= es@);
    Ok(outbox)
}

/// Recovers the materialization outbox with no retained material required.
pub fn recover_materialization_outbox(
    report: &RecoveryScanReport,
    existing_artifacts: &DigestMap<ExistingMaterializedArtifact>,
) -> (r: Result<DigestMap<MaterializationOutboxEntry>, WalRecoveryIndexError>)
    requires
        existing_artifacts.wf(),
    ensures
        outbox_recovery(report_frames(report.transactions@)) matches Some((intents, observations)) ==> (r matches Ok(
            out,
        ) && out.wf() && out@ == outbox_spec(intents, observations, existing_artifacts@, Seq::empty())),
        outbox_recovery(report_frames(report.transactions@)) is None ==> r matches Err(WalRecoveryIndexError::Decode(_)),
{
    let retention = RecoveredRetentionIndex {
        material_by_digest: DigestMap::new(),
        material_by_semantic_coordinate: DigestMap::new(),
        reading_by_id: DigestMap::new(),
        readings_by_semantic_coordinate: DigestMap::new(),
    };
    let available: KeySet<crate::ident::Hash> = KeySet::new();
    let r = recover_materialization_outbox_with_retained_material(report, existing_artifacts, &retention, &available);
    assert(material_obstructions(retention.material_by_digest.entries_spec(), available@) =~= Seq::empty());
    r
}

} // verus!
