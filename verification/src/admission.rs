//! Admission-side nouns for the bounded-site law: a bounded site is derived
//! from a rewrite's declared footprint rather than from a second geometry.
use vstd::prelude::*;
use crate::attachment::AttachmentKey;
use crate::footprint::{AttachmentSet, EdgeSet, Footprint, NodeSet, PortSet};
use crate::ident::{EdgeKey, NodeKey};
use crate::keyset::KeySet;

verus! {

/// Engine-defined policy identity for one admission act.
#[derive(Debug, Clone, Copy, PartialEq, Eq)]
pub struct AdmissionPolicyRef {
    /// Stable policy identifier committed into downstream shell artifacts.
    pub policy_id: crate::ident::Hash,
}

/// Locally affected region derived from a claim footprint: its write wake.
#[derive(Debug, PartialEq, Eq)]
pub struct AffectedRegion {
    /// Nodes locally affected by the claim.
    pub nodes: NodeSet,
    /// Edges locally affected by the claim.
    pub edges: EdgeSet,
    /// Attachments locally affected by the claim.
    pub attachments: AttachmentSet,
}

impl AffectedRegion {
    /// Derives the affected region: the claim's written nodes, edges and attachments.
    pub fn from_footprint(footprint: &Footprint) -> (r: Self)
        requires
            footprint.wf(),
        ensures
            r.nodes.wf() && r.edges.wf() && r.attachments.wf(),
            r.nodes@ == footprint.n_write@,
            r.edges@ == footprint.e_write@,
            r.attachments@ == footprint.a_write@,
    {
        AffectedRegion {
            nodes: footprint.n_write.duplicate(),
            edges: footprint.e_write.duplicate(),
            attachments: footprint.a_write.duplicate(),
        }
    }
}

impl Default for AffectedRegion {
    fn default() -> (r: Self)
        ensures
            r.nodes.wf() && r.edges.wf() && r.attachments.wf(),
            r.nodes@ == Set::<NodeKey>::empty(),
            r.edges@ == Set::<EdgeKey>::empty(),
            r.attachments@ == Set::<AttachmentKey>::empty(),
    {
        AffectedRegion { nodes: KeySet::new(), edges: KeySet::new(), attachments: KeySet::new() }
    }
}

/// Boundary surface that later comparison or settlement must respect.
#[derive(Debug, PartialEq, Eq)]
pub struct ReintegrationBoundary {
    /// Input ports implicated by the claim.
    pub inputs: PortSet,
    /// Output ports implicated by the claim.
    pub outputs: PortSet,
}

impl ReintegrationBoundary {
    /// Derives the reintegration boundary: the claim's boundary ports.
    pub fn from_footprint(footprint: &Footprint) -> (r: Self)
        requires
            footprint.wf(),
        ensures
            r.inputs.wf() && r.outputs.wf(),
            r.inputs@ == footprint.b_in@,
            r.outputs@ == footprint.b_out@,
    {
        ReintegrationBoundary { inputs: footprint.b_in.duplicate(), outputs: footprint.b_out.duplicate() }
    }
}

impl Default for ReintegrationBoundary {
    fn default() -> (r: Self)
        ensures
            r.inputs.wf() && r.outputs.wf(),
            r.inputs@ == Set::<crate::footprint::WarpPort>::empty(),
            r.outputs@ == Set::<crate::footprint::WarpPort>::empty(),
    {
        ReintegrationBoundary { inputs: PortSet::new(), outputs: PortSet::new() }
    }
}

/// Admission-side focal closure for one local claim site.
#[derive(Debug, PartialEq, Eq)]
pub struct BoundedSite {
    /// Full declared read/write claim for the site.
    pub claim_footprint: Footprint,
    /// Local write wake used for admission reasoning.
    pub affected_region: AffectedRegion,
    /// Boundary surface implicated by the claim.
    pub reintegration_boundary: ReintegrationBoundary,
}

impl BoundedSite {
    /// Builds a bounded site from a footprint: the claim itself, its write
    /// wake, and its boundary ports; no new geometry is invented.
    pub fn from_footprint(footprint: &Footprint) -> (r: Self)
        requires
            footprint.wf(),
        ensures
            r.claim_footprint.wf(),
            r.claim_footprint.n_read@ == footprint.n_read@ && r.claim_footprint.n_write@ == footprint.n_write@,
            r.claim_footprint.e_read@ == footprint.e_read@ && r.claim_footprint.e_write@ == footprint.e_write@,
            r.claim_footprint.a_read@ == footprint.a_read@ && r.claim_footprint.a_write@ == footprint.a_write@,
            r.claim_footprint.b_in@ == footprint.b_in@ && r.claim_footprint.b_out@ == footprint.b_out@,
            r.claim_footprint.factor_mask == footprint.factor_mask,
            r.affected_region.nodes@ == footprint.n_write@,
            r.affected_region.edges@ == footprint.e_write@,
            r.affected_region.attachments@ == footprint.a_write@,
            r.reintegration_boundary.inputs@ == footprint.b_in@,
            r.reintegration_boundary.outputs@ == footprint.b_out@,
    {
        BoundedSite {
            claim_footprint: footprint.duplicate(),
            affected_region: AffectedRegion::from_footprint(footprint),
            reintegration_boundary: ReintegrationBoundary::from_footprint(footprint),
        }
    }
}

impl Default for BoundedSite {
    fn default() -> (r: Self)
        ensures
            r.claim_footprint.wf(),
            r.claim_footprint.factor_mask == 0,
    {
        BoundedSite {
            claim_footprint: Footprint::default(),
            affected_region: AffectedRegion::default(),
            reintegration_boundary: ReintegrationBoundary::default(),
        }
    }
}

/// First-class lawful plurality over one bounded site.
#[derive(Debug, PartialEq, Eq)]
pub struct PluralArtifact<R, P> {
    /// Site over which plurality remained lawful.
    pub site: BoundedSite,
    /// Participants whose claims coexist at that site.
    pub participants: Vec<P>,
    /// Claims that remained irreducibly plural.
    pub claims: Vec<R>,
}

impl<R, P> PluralArtifact<R, P> {
    /// Constructs a plural artifact with parallel participant and claim lists.
    pub fn new(site: BoundedSite, participants: Vec<P>, claims: Vec<R>) -> (r: Self)
        requires
            participants@.len() == claims@.len(),
        ensures
            r.site == site,
            r.participants@ == participants@,
            r.claims@ == claims@,
    {
        PluralArtifact { site, participants, claims }
    }
}

/// Shared lawful outcome family for admission acts.
#[derive(Debug, Clone, Copy, PartialEq, Eq, Structural)]
pub enum AdmissionOutcomeKind {
    /// A single derived result was admitted.
    Derived,
    /// Multiple claims remained lawfully plural over one bounded site.
    Plural,
    /// The act produced explicit conflict residue.
    Conflict,
    /// The act was obstructed before a derived or plural result could be admitted.
    Obstruction,
}

/// Shared lawful outcome family for admission acts.
#[derive(Debug, PartialEq, Eq)]
pub enum AdmissionOutcome<R, P, C, O> {
    /// A single derived result was admitted.
    Derived(R),
    /// Multiple claims remained lawfully plural over the bounded site.
    Plural(Box<PluralArtifact<R, P>>),
    /// The act produced explicit conflict residue.
    Conflict(C),
    /// The act was obstructed before a derived or plural result could be admitted.
    Obstruction(O),
}

impl<R, P, C, O> AdmissionOutcome<R, P, C, O> {
    /// Returns the top-level lawful outcome kind.
    pub fn kind(&self) -> (r: AdmissionOutcomeKind)
        ensures
            r == (match self {
                AdmissionOutcome::Derived(_) => AdmissionOutcomeKind::Derived,
                AdmissionOutcome::Plural(_) => AdmissionOutcomeKind::Plural,
                AdmissionOutcome::Conflict(_) => AdmissionOutcomeKind::Conflict,
                AdmissionOutcome::Obstruction(_) => AdmissionOutcomeKind::Obstruction,
            }),
    {
        match self {
            AdmissionOutcome::Derived(_) => AdmissionOutcomeKind::Derived,
            AdmissionOutcome::Plural(_) => AdmissionOutcomeKind::Plural,
            AdmissionOutcome::Conflict(_) => AdmissionOutcomeKind::Conflict,
            AdmissionOutcome::Obstruction(_) => AdmissionOutcomeKind::Obstruction,
        }
    }
}

} // verus!
