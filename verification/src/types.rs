//! The programme record and its parts.

use soroban_sdk::Address;
use vstd::prelude::*;

verus! {

/// One milestone of a programme: a hash of its description, the budget it
/// releases when approved, and its due date (ledger seconds).
#[derive(Clone, Copy, Debug, PartialEq, Eq)]
pub struct Milestone {
    pub description_hash: [u8; 32],
    pub amount: i128,
    pub due_by: u64,
}

/// Where a milestone stands in its own lifecycle.
#[derive(Clone, Copy, Debug, PartialEq, Eq, Structural)]
pub enum MilestoneStatus {
    Pending,
    Claimed,
    Approved,
    Rejected,
}

/// The mutable part of a milestone. Evidence and rejection references are
/// hashes only.
#[derive(Clone, Copy, Debug, PartialEq, Eq)]
pub struct MilestoneState {
    pub status: MilestoneStatus,
    pub evidence_hash: Option<[u8; 32]>,
    pub reason_hash: Option<[u8; 32]>,
    pub claimed_at: u64,
    /// True when the claim landed after the milestone's due date.
    pub claimed_late: bool,
}

/// Who releases milestone budgets. Only `Single` is built.
#[derive(Debug)]
pub enum ApproverConfig {
    Single(Address),
    Panel(Vec<Address>, u32),
    Oracle(Address),
}

/// A programme is active from creation until its remainder is refunded.
#[derive(Clone, Copy, Debug, PartialEq, Eq, Structural)]
pub enum ProgrammeStatus {
    Active,
    Closed,
}

/// A published disbursement batch: a Merkle root over the payouts, their
/// total and their count. Individual payouts are never recorded.
#[derive(Clone, Copy, Debug, PartialEq, Eq)]
pub struct DisbursementBatch {
    pub index: u32,
    pub root: [u8; 32],
    pub total: i128,
    pub count: u32,
    pub disbursed_at: u64,
}

/// The full record of one programme.
#[derive(Debug)]
pub struct Programme {
    pub id: u64,
    pub sponsor: Address,
    pub implementer: Address,
    pub asset: Address,
    pub total: i128,
    pub funded: i128,
    pub released: i128,
    pub disbursed: i128,
    pub approver: ApproverConfig,
    pub metadata_hash: [u8; 32],
    pub milestones: Vec<Milestone>,
    pub milestone_states: Vec<MilestoneState>,
    pub status: ProgrammeStatus,
    /// The latest due date over the milestones; refunds are legal only after it.
    pub end_by: u64,
    pub batch_count: u32,
    pub created_at: u64,
}

/// The programme record as a mathematical value: the lists become sequences.
#[verifier::ext_equal]
pub struct ProgrammeView {
    pub id: u64,
    pub sponsor: Address,
    pub implementer: Address,
    pub asset: Address,
    pub total: i128,
    pub funded: i128,
    pub released: i128,
    pub disbursed: i128,
    pub approver: ApproverConfig,
    pub metadata_hash: [u8; 32],
    pub milestones: Seq<Milestone>,
    pub milestone_states: Seq<MilestoneState>,
    pub status: ProgrammeStatus,
    pub end_by: u64,
    pub batch_count: u32,
    pub created_at: u64,
}

impl View for Programme {
    type V = ProgrammeView;

    open spec fn view(&self) -> ProgrammeView {
        ProgrammeView {
            id: self.id,
            sponsor: self.sponsor,
            implementer: self.implementer,
            asset: self.asset,
            total: self.total,
            funded: self.funded,
            released: self.released,
            disbursed: self.disbursed,
            approver: self.approver,
            metadata_hash: self.metadata_hash,
            milestones: self.milestones@,
            milestone_states: self.milestone_states@,
            status: self.status,
            end_by: self.end_by,
            batch_count: self.batch_count,
            created_at: self.created_at,
        }
    }
}

/// The latest due date over `ms`, or 0 when there is none.
pub open spec fn max_due(ms: Seq<Milestone>) -> u64
    decreases ms.len(),
{
    if ms.len() == 0 {
        0
    } else {
        let earlier = max_due(ms.drop_last());
        if ms.last().due_by > earlier {
            ms.last().due_by
        } else {
            earlier
        }
    }
}

/// What milestone `i` contributes to the released balance.
pub open spec fn released_by(ms: Seq<Milestone>, st: MilestoneState, i: int) -> int {
    if st.status == MilestoneStatus::Approved {
        ms[i].amount as int
    } else {
        0
    }
}

/// The sum of the budgets of the approved milestones among the first
/// `st.len()` ones.
pub open spec fn approved_sum(ms: Seq<Milestone>, st: Seq<MilestoneState>) -> int
    decreases st.len(),
{
    if st.len() == 0 {
        0
    } else {
        approved_sum(ms, st.drop_last()) + released_by(ms, st.last(), st.len() - 1)
    }
}

/// The references a milestone carries agree with its status: no evidence
/// before the first claim, evidence from then on, and a rejection reason
/// exactly while it stands rejected.
pub open spec fn references_match(st: MilestoneState) -> bool {
    match st.status {
        MilestoneStatus::Pending => st.evidence_hash is None && st.reason_hash is None,
        MilestoneStatus::Claimed => st.evidence_hash is Some && st.reason_hash is None,
        MilestoneStatus::Approved => st.evidence_hash is Some && st.reason_hash is None,
        MilestoneStatus::Rejected => st.evidence_hash is Some && st.reason_hash is Some,
    }
}

impl ProgrammeView {
    /// The invariant of every programme the contract stores: positive
    /// budgets, one state per milestone, the end date is the latest due
    /// date, `0 <= disbursed <= released <= funded`, and `released` is the sum
    /// of the approved milestones' budgets.
    pub open spec fn wf(self) -> bool {
        &&& self.total > 0
        &&& self.milestones.len() == self.milestone_states.len()
        &&& forall|i: int| 0 <= i < self.milestones.len() ==> #[trigger] self.milestones[i].amount > 0
        &&& forall|i: int|
            0 <= i < self.milestone_states.len() ==> references_match(
                #[trigger] self.milestone_states[i],
            )
        &&& self.end_by == max_due(self.milestones)
        &&& 0 <= self.disbursed <= self.released <= self.funded
        &&& self.released == approved_sum(self.milestones, self.milestone_states)
    }
}

} // verus!
