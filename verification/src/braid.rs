//! Evolving coordination log ("Braid") representation.
use vstd::prelude::*;
use crate::braid_shell::BraidMemberRef;
use crate::ident::AuthorityDomainRef;

verus! {

/// Concrete status of a coordination braid lifecycle.
#[derive(Clone, Copy, Debug, PartialEq, Eq, Structural)]
pub enum BraidStatus {
    /// Active coordination state, accepting member weaving.
    Active,
    /// Settlement has been finalized.
    Finalized,
    /// Braid has been collapsed from a plural state to a single derived state.
    Collapsed,
}

/// Lifecycle events that define the evolution of a coordination braid.
#[derive(Clone, Copy, Debug, PartialEq, Eq)]
pub enum BraidEvent {
    /// Initial creation of the coordination braid.
    BraidCreated {
        /// Unique content-addressed identifier.
        braid_id: crate::ident::Hash,
        /// Authority domain under which this braid was initiated.
        creator_domain: AuthorityDomainRef,
    },
    /// A member strand was woven into the braid's speculative frontier.
    MemberWoven {
        /// Reference to the strand, which may be revealed or sealed.
        member_ref: BraidMemberRef,
        /// Monotonically increasing sequence number.
        sequence_num: u64,
    },
    /// A settlement was finalized, binding the current braid state.
    SettlementFinalized {
        /// Content digest of the final braid shell.
        settlement_digest: crate::ident::Hash,
    },
    /// A previously plural braid was collapsed into a single derived resolution.
    BraidCollapsed {
        /// Witness digest proving the collapse transition.
        collapse_witness: crate::ident::Hash,
        /// Content digest of the new derived braid shell.
        outcome_digest: crate::ident::Hash,
    },
}

/// Evolving state of a coordination braid reconstructed from its event log.
#[derive(Clone, Debug, PartialEq, Eq)]
pub struct Braid {
    /// Unique identifier of the braid.
    pub braid_id: crate::ident::Hash,
    /// Ordered event stream.
    pub events: Vec<BraidEvent>,
    /// Set of current member references in coordination order.
    pub members: Vec<BraidMemberRef>,
    /// Expected sequence number of the next member to be woven.
    pub next_sequence_num: u64,
    /// Digest of the latest finalized settlement, if any.
    pub latest_settlement: Option<crate::ident::Hash>,
    /// Current lifecycle status of the braid.
    pub status: BraidStatus,
}

/// Mathematical state of a braid.
pub struct BraidView {
    pub braid_id: crate::ident::Hash,
    pub events: Seq<BraidEvent>,
    pub members: Seq<BraidMemberRef>,
    pub next_sequence_num: u64,
    pub latest_settlement: Option<crate::ident::Hash>,
    pub status: BraidStatus,
}

impl View for Braid {
    type V = BraidView;

    open spec fn view(&self) -> BraidView {
        BraidView {
            braid_id: self.braid_id,
            events: self.events@,
            members: self.members@,
            next_sequence_num: self.next_sequence_num,
            latest_settlement: self.latest_settlement,
            status: self.status,
        }
    }
}

/// An event whose application cannot overflow the sequence counter.
pub open spec fn event_in_range(e: BraidEvent) -> bool {
    match e {
        BraidEvent::MemberWoven { sequence_num, .. } => sequence_num < u64::MAX,
        _ => true,
    }
}

/// State after appending `e` to the log and folding it in.
pub open spec fn spec_apply(v: BraidView, e: BraidEvent) -> BraidView {
    let folded = match e {
        BraidEvent::BraidCreated { braid_id, .. } => BraidView {
            braid_id,
            status: BraidStatus::Active,
            ..v
        },
        BraidEvent::MemberWoven { member_ref, sequence_num } => BraidView {
            members: v.members.push(member_ref),
            next_sequence_num: (sequence_num + 1) as u64,
            ..v
        },
        BraidEvent::SettlementFinalized { settlement_digest } => BraidView {
            latest_settlement: Some(settlement_digest),
            status: BraidStatus::Finalized,
            ..v
        },
        BraidEvent::BraidCollapsed { outcome_digest, .. } => BraidView {
            latest_settlement: Some(outcome_digest),
            status: BraidStatus::Collapsed,
            ..v
        },
    };
    BraidView { events: v.events.push(e), ..folded }
}

/// Freshly created braid: the creation event applied to an empty state.
pub open spec fn spec_new(braid_id: crate::ident::Hash, creator_domain: AuthorityDomainRef) -> BraidView {
    spec_apply(
        BraidView {
            braid_id,
            events: Seq::empty(),
            members: Seq::empty(),
            next_sequence_num: 0,
            latest_settlement: None,
            status: BraidStatus::Active,
        },
        BraidEvent::BraidCreated { braid_id, creator_domain },
    )
}

/// Whether a non-initial event may follow state `v` in a coherent log.
pub open spec fn event_allowed(v: BraidView, e: BraidEvent) -> bool {
    match e {
        BraidEvent::BraidCreated { .. } => false,
        BraidEvent::MemberWoven { sequence_num, .. } => v.status == BraidStatus::Active
            && sequence_num == v.next_sequence_num,
        BraidEvent::SettlementFinalized { .. } => v.status == BraidStatus::Active,
        BraidEvent::BraidCollapsed { .. } => v.status == BraidStatus::Finalized,
    }
}

/// Folded state of a log, or `None` when the log is not coherent.
pub open spec fn spec_fold(events: Seq<BraidEvent>) -> Option<BraidView>
    decreases events.len(),
{
    if events.len() == 0 {
        None
    } else if events.len() == 1 {
        match events[0] {
            BraidEvent::BraidCreated { braid_id, creator_domain } => Some(
                spec_new(braid_id, creator_domain),
            ),
            _ => None,
        }
    } else {
        match spec_fold(events.drop_last()) {
            Some(v) => if event_allowed(v, events.last()) {
                Some(spec_apply(v, events.last()))
            } else {
                None
            },
            None => None,
        }
    }
}

/// The name of a status as its derived `Debug` prints it.
pub open spec fn status_name(status: BraidStatus) -> Seq<char> {
    match status {
        BraidStatus::Active => "Active"@,
        BraidStatus::Finalized => "Finalized"@,
        BraidStatus::Collapsed => "Collapsed"@,
    }
}

/// Character of a decimal digit.
pub open spec fn digit_char(d: nat) -> char {
    (48 + d) as char
}

/// Decimal notation of a natural number, without leading zeros.
pub open spec fn decimal(n: nat) -> Seq<char>
    decreases n,
{
    if n < 10 {
        seq![digit_char(n)]
    } else {
        decimal(n / 10).push(digit_char(n % 10))
    }
}

/// Message naming a lifecycle status that forbids an event.
pub open spec fn status_error(prefix: Seq<char>, status: BraidStatus) -> Seq<char> {
    prefix + status_name(status)
}

/// Message for a woven member whose sequence number is not the expected one.
pub open spec fn sequence_error(expected: u64, got: u64) -> Seq<char> {
    "Incoherent member sequence: expected "@ + decimal(expected as nat) + ", got "@ + decimal(
        got as nat,
    )
}

/// Message for a non-initial event that cannot follow state `v`.
pub open spec fn step_error(v: BraidView, e: BraidEvent) -> Seq<char> {
    match e {
        BraidEvent::BraidCreated { .. } => "BraidCreated event can only appear once at the start of the log"@,
        BraidEvent::MemberWoven { sequence_num, .. } => if v.status != BraidStatus::Active {
            status_error("Cannot weave members in status "@, v.status)
        } else {
            sequence_error(v.next_sequence_num, sequence_num)
        },
        BraidEvent::SettlementFinalized { .. } => status_error(
            "Cannot finalize settlement in status "@,
            v.status,
        ),
        BraidEvent::BraidCollapsed { .. } => status_error("Cannot collapse braid in status "@, v.status),
    }
}

/// Message reported for an incoherent log: that of its first offending event.
pub open spec fn fold_error(events: Seq<BraidEvent>) -> Seq<char>
    decreases events.len(),
{
    if events.len() == 0 {
        "Empty event stream"@
    } else if events.len() == 1 {
        "First event must be BraidCreated"@
    } else {
        match spec_fold(events.drop_last()) {
            Some(v) => step_error(v, events.last()),
            None => fold_error(events.drop_last()),
        }
    }
}

fn status_text(status: BraidStatus) -> (r: &'static str)
    ensures
        r@ == status_name(status),
{
    match status {
        BraidStatus::Active => "Active",
        BraidStatus::Finalized => "Finalized",
        BraidStatus::Collapsed => "Collapsed",
    }
}

fn digit_text(d: u64) -> (r: &'static str)
    requires
        d < 10,
    ensures
        r@ == seq![digit_char(d as nat)],
{
    proof {
        reveal_strlit("0");
        reveal_strlit("1");
        reveal_strlit("2");
        reveal_strlit("3");
        reveal_strlit("4");
        reveal_strlit("5");
        reveal_strlit("6");
        reveal_strlit("7");
        reveal_strlit("8");
        reveal_strlit("9");
    }
    let r = if d == 0 {
        "0"
    } else if d == 1 {
        "1"
    } else if d == 2 {
        "2"
    } else if d == 3 {
        "3"
    } else if d == 4 {
        "4"
    } else if d == 5 {
        "5"
    } else if d == 6 {
        "6"
    } else if d == 7 {
        "7"
    } else if d == 8 {
        "8"
    } else {
        "9"
    };
    assert(r@ =~= seq![digit_char(d as nat)]);
    r
}

/// Appends the decimal notation of `n`.
fn push_decimal(out: &mut String, n: u64)
    ensures
        final(out)@ == old(out)@ + decimal(n as nat),
    decreases n,
{
    if n >= 10 {
        push_decimal(out, n / 10);
    }
    out.append(digit_text(n % 10));
    proof {
        if n >= 10 {
            assert(decimal(n as nat) == decimal((n / 10) as nat).push(digit_char((n % 10) as nat)));
        } else {
            assert(n % 10 == n);
        }
        assert(out@ =~= old(out)@ + decimal(n as nat));
    }
}

fn status_message(prefix: &str, status: BraidStatus) -> (r: String)
    ensures
        r@ == status_error(prefix@, status),
{
    let mut out = prefix.to_owned();
    out.append(status_text(status));
    out
}

fn sequence_message(expected: u64, got: u64) -> (r: String)
    ensures
        r@ == sequence_error(expected, got),
{
    let mut out = "Incoherent member sequence: expected ".to_owned();
    push_decimal(&mut out, expected);
    out.append(", got ");
    push_decimal(&mut out, got);
    out
}

impl Braid {
    /// Creates a new coordination braid state with a creation event.
    pub fn new(braid_id: crate::ident::Hash, creator_domain: AuthorityDomainRef) -> (r: Self)
        ensures
            r@ == spec_new(braid_id, creator_domain),
    {
        let initial_event = BraidEvent::BraidCreated { braid_id, creator_domain };
        let mut braid = Braid {
            braid_id,
            events: Vec::new(),
            members: Vec::new(),
            next_sequence_num: 0,
            latest_settlement: None,
            status: BraidStatus::Active,
        };
        braid.apply(initial_event);
        braid
    }

    /// Appends an event to the log and updates the folded state.
    pub fn apply(&mut self, event: BraidEvent)
        requires
            event_in_range(event),
        ensures
            final(self)@ == spec_apply(old(self)@, event),
    {
        match event {
            BraidEvent::BraidCreated { braid_id, .. } => {
                self.braid_id = braid_id;
                self.status = BraidStatus::Active;
            },
            BraidEvent::MemberWoven { member_ref, sequence_num } => {
                self.members.push(member_ref);
                self.next_sequence_num = sequence_num + 1;
            },
            BraidEvent::SettlementFinalized { settlement_digest } => {
                self.latest_settlement = Some(settlement_digest);
                self.status = BraidStatus::Finalized;
            },
            BraidEvent::BraidCollapsed { outcome_digest, .. } => {
                self.latest_settlement = Some(outcome_digest);
                self.status = BraidStatus::Collapsed;
            },
        }
        self.events.push(event);
    }

    /// Reconstructs the braid state by folding over a stream of events.
    ///
    /// Fails when the log is empty, does not begin with `BraidCreated`,
    /// repeats `BraidCreated`, or has an incoherent lifecycle or sequence.
    pub fn fold(events: Vec<BraidEvent>) -> (r: Result<Self, String>)
        ensures
            r is Ok <==> spec_fold(events@) is Some,
            r matches Ok(b) ==> b@ == spec_fold(events@)->Some_0,
            r matches Err(m) ==> m@ == fold_error(events@),
    {
        if events.len() == 0 {
            return Err("Empty event stream".to_owned());
        }
        let first = events[0];
        let mut braid = match first {
            BraidEvent::BraidCreated { braid_id, creator_domain } => Self::new(
                braid_id,
                creator_domain,
            ),
            _ => {
                proof {
                    assert(events@.subrange(0, 1) =~= seq![events@[0]]);
                    lemma_fold_prefix_none(events@, 1);
                }
                return Err("First event must be BraidCreated".to_owned());
            },
        };
        proof {
            assert(events@.subrange(0, 1) =~= seq![events@[0]]);
        }
        let mut i: usize = 1;
        while i < events.len()
            invariant
                1 <= i <= events@.len(),
                spec_fold(events@.subrange(0, i as int)) == Some(braid@),
                braid@.next_sequence_num == braid@.members.len(),
                braid@.members.len() < i,
            decreases events.len() - i,
        {
            let event = events[i];
            proof {
                let pre = events@.subrange(0, i + 1);
                assert(pre.drop_last() =~= events@.subrange(0, i as int));
                assert(pre.last() == event);
            }
            match event {
                BraidEvent::BraidCreated { .. } => {
                    proof { lemma_fold_prefix_none(events@, i as int + 1); }
                    return Err(
                        "BraidCreated event can only appear once at the start of the log".to_owned(),
                    );
                },
                BraidEvent::MemberWoven { sequence_num, .. } => {
                    if braid.status != BraidStatus::Active {
                        proof { lemma_fold_prefix_none(events@, i as int + 1); }
                        return Err(status_message("Cannot weave members in status ", braid.status));
                    }
                    if sequence_num != braid.next_sequence_num {
                        proof { lemma_fold_prefix_none(events@, i as int + 1); }
                        return Err(sequence_message(braid.next_sequence_num, sequence_num));
                    }
                },
                BraidEvent::SettlementFinalized { .. } => {
                    if braid.status != BraidStatus::Active {
                        proof { lemma_fold_prefix_none(events@, i as int + 1); }
                        return Err(status_message("Cannot finalize settlement in status ", braid.status));
                    }
                },
                BraidEvent::BraidCollapsed { .. } => {
                    if braid.status != BraidStatus::Finalized {
                        proof { lemma_fold_prefix_none(events@, i as int + 1); }
                        return Err(status_message("Cannot collapse braid in status ", braid.status));
                    }
                },
            }
            braid.apply(event);
            i += 1;
        }
        assert(events@.subrange(0, events@.len() as int) =~= events@);
        Ok(braid)
    }

    /// Returns the current coordination frontier (woven members in order).
    pub fn frontier(&self) -> (r: &[BraidMemberRef])
        ensures
            r@ == self.members@,
    {
        self.members.as_slice()
    }
}

/// A log whose prefix is incoherent is itself incoherent, and reports the
/// prefix's message.
pub proof fn lemma_fold_prefix_none(events: Seq<BraidEvent>, n: int)
    requires
        1 <= n <= events.len(),
        spec_fold(events.subrange(0, n)) is None,
    ensures
        spec_fold(events) is None,
        fold_error(events) == fold_error(events.subrange(0, n)),
    decreases events.len() - n,
{
    if n < events.len() {
        let next = events.subrange(0, n + 1);
        assert(next.drop_last() =~= events.subrange(0, n));
        lemma_fold_prefix_none(events, n + 1);
    } else {
        assert(events.subrange(0, n) =~= events);
    }
}

/// Folding a coherent log retains exactly that log, and the next expected
/// member sequence number equals the number of woven members.
pub proof fn lemma_fold_retains_log(events: Seq<BraidEvent>)
    requires
        spec_fold(events) is Some,
        forall|i: int| 0 <= i < events.len() ==> event_in_range(#[trigger] events[i]),
    ensures
        spec_fold(events)->Some_0.events == events,
        spec_fold(events)->Some_0.next_sequence_num == spec_fold(events)->Some_0.members.len(),
    decreases events.len(),
{
    if events.len() == 1 {
        assert(seq![events[0]] =~= events);
    } else {
        assert(forall|i: int|
            0 <= i < events.drop_last().len() ==> events.drop_last()[i] == events[i]);
        lemma_fold_retains_log(events.drop_last());
        assert(events.drop_last().push(events.last()) =~= events);
        assert(event_in_range(events[events.len() - 1]));
    }
}

/// In a coherent log, members are only woven while the braid is active, so
/// a collapsed braid was finalized first: collapse implies a settlement digest.
pub proof fn lemma_fold_collapsed_has_settlement(events: Seq<BraidEvent>)
    requires
        spec_fold(events) is Some,
        spec_fold(events)->Some_0.status != BraidStatus::Active,
    ensures
        spec_fold(events)->Some_0.latest_settlement is Some,
    decreases events.len(),
{
    if events.len() > 1 {
        let prev = spec_fold(events.drop_last())->Some_0;
        if prev.status != BraidStatus::Active {
            lemma_fold_collapsed_has_settlement(events.drop_last());
        }
    }
}

proof fn lemma_fold_step_allowed(events: Seq<BraidEvent>, i: int)
    requires
        spec_fold(events) is Some,
        1 <= i < events.len(),
    ensures
        spec_fold(events.take(i)) is Some,
        event_allowed(spec_fold(events.take(i))->Some_0, events[i]),
    decreases events.len(),
{
    let t = events.drop_last();
    assert(events.len() > 1);
    assert(spec_fold(t) is Some);
    if i == events.len() - 1 {
        assert(events.take(i) =~= t);
    } else {
        lemma_fold_step_allowed(t, i);
        assert(events.take(i) =~= t.take(i));
    }
}

proof fn lemma_fold_starts_with_creation(events: Seq<BraidEvent>)
    requires
        spec_fold(events) is Some,
    ensures
        events.len() >= 1,
        events[0] is BraidCreated,
    decreases events.len(),
{
    if events.len() > 1 {
        lemma_fold_starts_with_creation(events.drop_last());
        assert(events[0] == events.drop_last()[0]);
    }
}

/// The event at position `i` was allowed by the coherent state folded from
/// the events before it.
pub open spec fn allowed_after_prefix(events: Seq<BraidEvent>, i: int) -> bool {
    spec_fold(events.take(i)) is Some && event_allowed(spec_fold(events.take(i))->Some_0, events[i])
}

/// A coherent log opens with its one creation event, and every later event
/// was allowed by the state folded before it: no second creation, members
/// woven only while active and with the next sequence number, settlement
/// only while active, collapse only once finalized.
#[verifier::spinoff_prover]
pub proof fn lemma_fold_coherent(events: Seq<BraidEvent>)
    requires
        spec_fold(events) is Some,
    ensures
        events.len() >= 1,
        events[0] is BraidCreated,
        forall|i: int| 1 <= i < events.len() ==> #[trigger] allowed_after_prefix(events, i),
{
    lemma_fold_starts_with_creation(events);
    assert forall|i: int| 1 <= i < events.len() implies #[trigger] allowed_after_prefix(events, i) by {
        lemma_fold_step_allowed(events, i);
    }
}

} // verus!
