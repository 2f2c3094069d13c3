//! What holds of every programme across calls.

use crate::contract::{batch_record, claimable, created, signer, step, traps, Op};
use crate::error::Error;
use crate::types::{
    approved_sum, max_due, references_match, released_by, ApproverConfig, DisbursementBatch,
    Milestone, MilestoneState, MilestoneStatus, ProgrammeStatus, ProgrammeView,
};
use soroban_sdk::Address;
use vstd::prelude::*;

verus! {

/// Changing one milestone's state changes the released sum by the
/// difference of what the old and new state contribute.
proof fn lemma_sum_update(ms: Seq<Milestone>, st: Seq<MilestoneState>, i: int, s: MilestoneState)
    requires
        0 <= i < st.len(),
    ensures
        approved_sum(ms, st.update(i, s)) == approved_sum(ms, st) - released_by(ms, st[i], i)
            + released_by(ms, s, i),
    decreases st.len(),
{
    let up = st.update(i, s);
    if i == st.len() - 1 {
        assert(up.drop_last() =~= st.drop_last());
    } else {
        assert(up.drop_last() =~= st.drop_last().update(i, s));
        lemma_sum_update(ms, st.drop_last(), i, s);
    }
}

/// Every call keeps the programme invariant: `0 <= disbursed <= released <=
/// funded`, `released` is the sum of the approved budgets, and the
/// milestones, their budgets and the end date stay consistent.
pub proof fn lemma_step_keeps_invariant(p: ProgrammeView, op: Op)
    requires
        p.wf(),
        !traps(p, op),
    ensures
        step(p, op) matches Ok(q) ==> q.wf(),
{
    if let Ok(q) = step(p, op) {
        match op {
            Op::Claim { milestone_index, .. } | Op::Approve { milestone_index } | Op::Reject {
                milestone_index,
                ..
            } => {
                let i = milestone_index as int;
                assert(references_match(p.milestone_states[i]));
                assert(p.milestones[i].amount > 0);
                lemma_sum_update(p.milestones, p.milestone_states, i, q.milestone_states[i]);
                lemma_references_after_update(p.milestone_states, i, q.milestone_states[i]);
            },
            _ => {},
        }
    }
}

/// Replacing one milestone state by one whose references match its status
/// keeps every state's references matching.
proof fn lemma_references_after_update(st: Seq<MilestoneState>, i: int, s: MilestoneState)
    requires
        0 <= i < st.len(),
        forall|k: int| 0 <= k < st.len() ==> references_match(#[trigger] st[k]),
        references_match(s),
    ensures
        forall|k: int| 0 <= k < st.len() ==> references_match(#[trigger] st.update(i, s)[k]),
{
    assert forall|k: int| 0 <= k < st.len() implies references_match(#[trigger] st.update(i, s)[k]) by {
        if k != i {
            assert(references_match(st[k]));
        }
    }
}

/// An approval keeps `0 <= released <= funded` and `released` equal to the
/// sum of the approved milestones' budgets, whether it succeeds or not. It
/// needs only these balances and a budget that is not negative for the
/// milestone approved; a negative budget (which no created programme has)
/// would take `released` below zero.
pub proof fn lemma_approve_keeps_balances(p: ProgrammeView, milestone_index: u32)
    requires
        0 <= p.released <= p.funded,
        p.released == approved_sum(p.milestones, p.milestone_states),
        !traps(p, Op::Approve { milestone_index }),
        (milestone_index as int) < p.milestones.len() ==> p.milestones[milestone_index as int].amount
            >= 0,
    ensures
        match step(p, Op::Approve { milestone_index }) {
            Ok(q) => 0 <= q.released <= q.funded && q.released == approved_sum(
                q.milestones,
                q.milestone_states,
            ),
            Err(_) => true,
        },
{
    if let Ok(q) = step(p, Op::Approve { milestone_index }) {
        let i = milestone_index as int;
        lemma_sum_update(p.milestones, p.milestone_states, i, q.milestone_states[i]);
    }
}

/// A closed programme refuses every call with `AlreadyClosed`, and a
/// successful refund is what closes it.
pub proof fn lemma_closed_is_final(p: ProgrammeView, op: Op)
    ensures
        p.status == ProgrammeStatus::Closed ==> step(p, op) == Err::<ProgrammeView, Error>(
            Error::AlreadyClosed,
        ),
        step(p, op) matches Ok(q) ==> (q.status == ProgrammeStatus::Closed <==> op is Refund),
{
}

/// No call changes the programme's parties, asset, declared total,
/// approver, metadata, milestones, end date or creation time; the three
/// running balances and the batch count never go down.
pub proof fn lemma_terms_fixed_and_balances_grow(p: ProgrammeView, op: Op)
    requires
        p.wf(),
        !traps(p, op),
    ensures
        step(p, op) matches Ok(q) ==> {
            &&& q.id == p.id
            &&& q.sponsor == p.sponsor
            &&& q.implementer == p.implementer
            &&& q.asset == p.asset
            &&& q.total == p.total
            &&& q.approver == p.approver
            &&& q.metadata_hash == p.metadata_hash
            &&& q.milestones == p.milestones
            &&& q.end_by == p.end_by
            &&& q.created_at == p.created_at
            &&& p.funded <= q.funded
            &&& p.released <= q.released
            &&& p.disbursed <= q.disbursed
            &&& p.batch_count <= q.batch_count
        },
{
    if let Op::Approve { milestone_index } = op {
        if milestone_index < p.milestones.len() {
            assert(p.milestones[milestone_index as int].amount > 0);
        }
    }
}

/// The status changes a call may make to a milestone.
pub open spec fn lifecycle_edge(from: MilestoneStatus, to: MilestoneStatus) -> bool {
    ||| from == to
    ||| claimable(from) && to == MilestoneStatus::Claimed
    ||| from == MilestoneStatus::Claimed && to == MilestoneStatus::Approved
    ||| from == MilestoneStatus::Claimed && to == MilestoneStatus::Rejected
}

/// Each milestone follows its own lifecycle: `Pending -> Claimed`,
/// `Claimed -> Approved | Rejected`, `Rejected -> Claimed`. `Approved` is
/// terminal: an approved milestone's state never changes again.
pub proof fn lemma_milestone_lifecycle(p: ProgrammeView, op: Op, i: int)
    requires
        0 <= i < p.milestone_states.len(),
    ensures
        step(p, op) matches Ok(q) ==> lifecycle_edge(
            p.milestone_states[i].status,
            q.milestone_states[i].status,
        ),
        step(p, op) matches Ok(q) ==> (p.milestone_states[i].status == MilestoneStatus::Approved
            ==> q.milestone_states[i] == p.milestone_states[i]),
{
}

/// The checks made before a signature is asked for agree with the call:
/// when they refuse, the call refuses with the same error, and a call that
/// succeeds had a signer.
pub proof fn lemma_signer_agrees_with_step(p: ProgrammeView, op: Op)
    ensures
        signer(p, op) matches Err(e) ==> step(p, op) == Err::<ProgrammeView, Error>(e),
        step(p, op) is Ok ==> signer(p, op) is Ok,
{
}

/// A late claim is flagged, never blocked: whether a claim succeeds does not
/// depend on when it is made, and the flag says whether it came after the
/// milestone's due date.
pub proof fn lemma_late_claim_not_blocked(
    p: ProgrammeView,
    milestone_index: u32,
    evidence_hash: [u8; 32],
    t1: u64,
    t2: u64,
)
    ensures
        step(p, Op::Claim { milestone_index, evidence_hash, now: t1 }) is Ok <==> step(
            p,
            Op::Claim { milestone_index, evidence_hash, now: t2 },
        ) is Ok,
        step(p, Op::Claim { milestone_index, evidence_hash, now: t1 }) matches Ok(q) ==> q.milestone_states[milestone_index as int].claimed_late == (t1 > p.milestones[milestone_index as int].due_by),
{
}

/// With no milestone approved, nothing counts as released.
proof fn lemma_nothing_approved_sum(ms: Seq<Milestone>, st: Seq<MilestoneState>)
    requires
        forall|i: int| 0 <= i < st.len() ==> #[trigger] st[i].status != MilestoneStatus::Approved,
    ensures
        approved_sum(ms, st) == 0,
    decreases st.len(),
{
    if st.len() > 0 {
        lemma_nothing_approved_sum(ms, st.drop_last());
    }
}

/// Nothing can be disbursed before an approver has approved a milestone.
pub proof fn lemma_no_disbursement_before_approval(p: ProgrammeView, op: Op)
    requires
        p.wf(),
        op is Disburse,
        forall|i: int|
            0 <= i < p.milestone_states.len() ==> #[trigger] p.milestone_states[i].status
                != MilestoneStatus::Approved,
    ensures
        step(p, op) is Err,
{
    lemma_nothing_approved_sum(p.milestones, p.milestone_states);
}

/// The sum of the totals of a list of batches.
pub open spec fn batch_total(batches: Seq<DisbursementBatch>) -> int
    decreases batches.len(),
{
    if batches.len() == 0 {
        0
    } else {
        batch_total(batches.drop_last()) + batches.last().total
    }
}

/// `batches` are the batches recorded for programme `p`: one per index below
/// `batch_count`, each at its own index, and `disbursed` is their total.
pub open spec fn batches_match(p: ProgrammeView, batches: Seq<DisbursementBatch>) -> bool {
    &&& batches.len() == p.batch_count
    &&& forall|j: int| 0 <= j < batches.len() ==> #[trigger] batches[j].index == j
    &&& p.disbursed == batch_total(batches)
}

/// A call leaves `0 <= disbursed <= released` and the recorded batches in
/// agreement with the record: a successful disbursement appends exactly its
/// batch, at index `batch_count`, and adds its total to `disbursed`; earlier
/// batches are untouched; any other call, and any refused call, records no
/// batch.
pub proof fn lemma_disburse_extends_batches(
    p: ProgrammeView,
    batches: Seq<DisbursementBatch>,
    op: Op,
)
    requires
        0 <= p.disbursed <= p.released,
        batches_match(p, batches),
        !traps(p, op),
    ensures
        step(p, op) matches Ok(q) ==> match batch_record(p, op) {
            Some(b) => {
                &&& b.index == batches.len()
                &&& batches_match(q, batches.push(b))
                &&& 0 <= q.disbursed <= q.released
                &&& q.disbursed == p.disbursed + b.total
            },
            None => q.disbursed == p.disbursed && q.batch_count == p.batch_count,
        },
{
    if let Ok(q) = step(p, op) {
        if let Some(b) = batch_record(p, op) {
            assert(batches.push(b).drop_last() =~= batches);
        }
    }
}

/// What a run of calls does: the record after each call and the batches the
/// disbursements among them record. `None` when a call is refused or traps.
pub open spec fn run(p: ProgrammeView, ops: Seq<Op>) -> Option<
    (ProgrammeView, Seq<DisbursementBatch>),
>
    decreases ops.len(),
{
    if ops.len() == 0 {
        Some((p, Seq::empty()))
    } else if traps(p, ops[0]) {
        None
    } else {
        match step(p, ops[0]) {
            Err(_) => None,
            Ok(q) => match run(q, ops.drop_first()) {
                None => None,
                Some((r, later)) => {
                    let first = match batch_record(p, ops[0]) {
                        Some(b) => seq![b],
                        None => Seq::empty(),
                    };
                    Some((r, first + later))
                },
            },
        }
    }
}

/// A single batch totals its own total.
proof fn lemma_batch_total_one(b: DisbursementBatch)
    ensures
        batch_total(seq![b]) == b.total,
{
    assert(seq![b].drop_last() =~= Seq::<DisbursementBatch>::empty());
    assert(batch_total(Seq::<DisbursementBatch>::empty()) == 0);
}

/// The sum of the totals of two lists put together.
proof fn lemma_batch_total_append(a: Seq<DisbursementBatch>, b: Seq<DisbursementBatch>)
    ensures
        batch_total(a + b) == batch_total(a) + batch_total(b),
    decreases b.len(),
{
    if b.len() == 0 {
        assert(a + b =~= a);
    } else {
        assert((a + b).drop_last() =~= a + b.drop_last());
        lemma_batch_total_append(a, b.drop_last());
    }
}

/// Over any run of successful calls the invariant holds throughout, the
/// batches recorded continue those before at index `batch_count`, and
/// `disbursed` grows by exactly the totals of the new batches.
pub proof fn lemma_run_keeps_invariant_and_batches(
    p: ProgrammeView,
    batches: Seq<DisbursementBatch>,
    ops: Seq<Op>,
)
    requires
        p.wf(),
        batches_match(p, batches),
    ensures
        run(p, ops) matches Some((q, added)) ==> {
            &&& q.wf()
            &&& batches_match(q, batches + added)
            &&& q.disbursed == p.disbursed + batch_total(added)
        },
    decreases ops.len(),
{
    if ops.len() == 0 {
        assert(batches + Seq::<DisbursementBatch>::empty() =~= batches);
    } else if !traps(p, ops[0]) {
        if let Ok(q) = step(p, ops[0]) {
            lemma_step_keeps_invariant(p, ops[0]);
            lemma_disburse_extends_batches(p, batches, ops[0]);
            let first = match batch_record(p, ops[0]) {
                Some(b) => seq![b],
                None => Seq::<DisbursementBatch>::empty(),
            };
            assert(batches + first =~= match batch_record(p, ops[0]) {
                Some(b) => batches.push(b),
                None => batches,
            });
            lemma_run_keeps_invariant_and_batches(q, batches + first, ops.drop_first());
            if let Some((r, later)) = run(q, ops.drop_first()) {
                assert(batches + (first + later) =~= (batches + first) + later);
                lemma_batch_total_append(first, later);
                match batch_record(p, ops[0]) {
                    Some(b) => {
                        assert(first =~= seq![b]);
                        lemma_batch_total_one(b);
                    },
                    None => {
                        assert(batch_total(first) == 0);
                    },
                }
            }
        }
    }
}

/// The latest due date is at least every milestone's due date and is one
/// of them; with no milestones it is 0.
pub proof fn lemma_max_due_is_latest(ms: Seq<Milestone>)
    ensures
        forall|i: int| 0 <= i < ms.len() ==> #[trigger] ms[i].due_by <= max_due(ms),
        ms.len() == 0 ==> max_due(ms) == 0,
        ms.len() > 0 ==> exists|i: int| 0 <= i < ms.len() && #[trigger] ms[i].due_by == max_due(ms),
    decreases ms.len(),
{
    if ms.len() > 0 {
        let init = ms.drop_last();
        lemma_max_due_is_latest(init);
        assert forall|i: int| 0 <= i < ms.len() implies #[trigger] ms[i].due_by <= max_due(ms) by {
            if i < ms.len() - 1 {
                assert(ms[i] == init[i]);
            }
        }
        if ms.last().due_by > max_due(init) {
            assert(ms[ms.len() - 1].due_by == max_due(ms));
        } else if init.len() > 0 {
            let k = choose|k: int| 0 <= k < init.len() && #[trigger] init[k].due_by == max_due(init);
            assert(ms[k] == init[k]);
            assert(ms[k].due_by == max_due(ms));
        } else {
            assert(ms[0].due_by == 0);
            assert(ms[0].due_by == max_due(ms));
        }
    }
}

/// A new programme ends at the latest milestone due date: no milestone is due
/// after `end_by`, and `end_by` is some milestone's due date (0 when there
/// are none). A refund before every milestone is due is impossible.
pub proof fn lemma_created_ends_at_latest_due(
    id: u64,
    sponsor: Address,
    implementer: Address,
    asset: Address,
    total: i128,
    milestones: Seq<Milestone>,
    approver: ApproverConfig,
    metadata_hash: [u8; 32],
    now: u64,
)
    ensures
        ({
            let p = created(
                id,
                sponsor,
                implementer,
                asset,
                total,
                milestones,
                approver,
                metadata_hash,
                now,
            );
            &&& forall|i: int| 0 <= i < milestones.len() ==> #[trigger] milestones[i].due_by <= p.end_by
            &&& milestones.len() == 0 ==> p.end_by == 0
            &&& milestones.len() > 0 ==> exists|i: int|
                0 <= i < milestones.len() && #[trigger] milestones[i].due_by == p.end_by
        }),
{
    lemma_max_due_is_latest(milestones);
}

/// Approving a claimed milestone of an active programme with a single
/// approver succeeds exactly when the released total plus the milestone's
/// budget stays within what was funded, whatever has been disbursed; it
/// then releases exactly that budget, marks the milestone approved and
/// leaves `funded` and `disbursed` alone. Otherwise it refuses with
/// `InsufficientFunding`.
pub proof fn lemma_approve_exactly_when_funded(p: ProgrammeView, milestone_index: u32)
    requires
        p.status == ProgrammeStatus::Active,
        p.approver is Single,
        (milestone_index as int) < p.milestone_states.len(),
        (milestone_index as int) < p.milestones.len(),
        p.milestone_states[milestone_index as int].status == MilestoneStatus::Claimed,
        !traps(p, Op::Approve { milestone_index }),
    ensures
        step(p, Op::Approve { milestone_index }) is Ok <==> p.released
            + p.milestones[milestone_index as int].amount <= p.funded,
        step(p, Op::Approve { milestone_index }) matches Err(e) ==> e
            == Error::InsufficientFunding,
        step(p, Op::Approve { milestone_index }) matches Ok(q) ==> {
            &&& q.released == p.released + p.milestones[milestone_index as int].amount
            &&& q.funded == p.funded
            &&& q.disbursed == p.disbursed
            &&& q.milestone_states[milestone_index as int].status == MilestoneStatus::Approved
        },
{
}

/// After the end date an active programme's remainder can be refunded
/// exactly when something funded was not disbursed, whatever was released;
/// the refund closes the programme and leaves the balances as they were.
/// Otherwise it refuses with `NothingToRefund`. At or before the end date it
/// refuses with `NotEnded`.
pub proof fn lemma_refund_exactly_when_unspent(p: ProgrammeView, now: u64)
    requires
        p.status == ProgrammeStatus::Active,
    ensures
        now <= p.end_by ==> step(p, Op::Refund { now }) == Err::<ProgrammeView, Error>(
            Error::NotEnded,
        ),
        now > p.end_by ==> (step(p, Op::Refund { now }) is Ok <==> p.disbursed < p.funded),
        now > p.end_by && p.funded <= p.disbursed ==> step(p, Op::Refund { now }) == Err::<
            ProgrammeView,
            Error,
        >(Error::NothingToRefund),
        step(p, Op::Refund { now }) matches Ok(q) ==> {
            &&& q.status == ProgrammeStatus::Closed
            &&& q.funded == p.funded
            &&& q.released == p.released
            &&& q.disbursed == p.disbursed
        },
{
}

/// Funding an active programme succeeds exactly when the amount is
/// positive, and adds exactly that amount to `funded`.
pub proof fn lemma_fund_exactly_when_positive(p: ProgrammeView, amount: i128)
    requires
        p.status == ProgrammeStatus::Active,
        !traps(p, Op::Fund { amount }),
    ensures
        step(p, Op::Fund { amount }) is Ok <==> amount > 0,
        step(p, Op::Fund { amount }) matches Ok(q) ==> q.funded == p.funded + amount
            && q.released == p.released && q.disbursed == p.disbursed,
        step(p, Op::Fund { amount }) matches Err(e) ==> e == Error::InvalidAmount,
{
}

/// A disbursement from an active programme succeeds exactly when the batch
/// has a positive total and count and the disbursed total stays within what
/// was released; it adds exactly the batch total to `disbursed` and counts
/// one more batch.
pub proof fn lemma_disburse_exactly_when_released(
    p: ProgrammeView,
    batch_root: [u8; 32],
    total: i128,
    count: u32,
    now: u64,
)
    requires
        p.status == ProgrammeStatus::Active,
        !traps(p, Op::Disburse { batch_root, total, count, now }),
    ensures
        step(p, Op::Disburse { batch_root, total, count, now }) is Ok <==> (total > 0 && count > 0
            && p.disbursed + total <= p.released),
        (total <= 0 || count == 0) ==> step(p, Op::Disburse { batch_root, total, count, now })
            == Err::<ProgrammeView, Error>(Error::InvalidBatch),
        step(p, Op::Disburse { batch_root, total, count, now }) matches Ok(q) ==> {
            &&& q.disbursed == p.disbursed + total
            &&& q.batch_count == p.batch_count + 1
            &&& q.funded == p.funded
            &&& q.released == p.released
        },
{
}

/// Claiming a milestone of an active programme succeeds exactly when it is
/// pending or rejected; the claim records the evidence, clears any
/// rejection reason, records the time and flags it late exactly when it
/// comes after the due date.
pub proof fn lemma_claim_exactly_when_open(
    p: ProgrammeView,
    milestone_index: u32,
    evidence_hash: [u8; 32],
    now: u64,
)
    requires
        p.status == ProgrammeStatus::Active,
        (milestone_index as int) < p.milestone_states.len(),
    ensures
        step(p, Op::Claim { milestone_index, evidence_hash, now }) is Ok <==> (
        p.milestone_states[milestone_index as int].status == MilestoneStatus::Pending
            || p.milestone_states[milestone_index as int].status == MilestoneStatus::Rejected),
        step(p, Op::Claim { milestone_index, evidence_hash, now }) matches Ok(q) ==> {
            let st = q.milestone_states[milestone_index as int];
            &&& st.status == MilestoneStatus::Claimed
            &&& st.evidence_hash == Some(evidence_hash)
            &&& st.reason_hash is None
            &&& st.claimed_at == now
            &&& st.claimed_late == (p.milestones[milestone_index as int].due_by < now)
            &&& q.funded == p.funded && q.released == p.released && q.disbursed == p.disbursed
        },
{
}

/// Rejecting a claimed milestone of an active programme with a single
/// approver always succeeds: the milestone stands rejected with the reason,
/// keeps its evidence, and no balance moves.
pub proof fn lemma_reject_claimed(p: ProgrammeView, milestone_index: u32, reason_hash: [u8; 32])
    requires
        p.status == ProgrammeStatus::Active,
        p.approver is Single,
        (milestone_index as int) < p.milestone_states.len(),
        p.milestone_states[milestone_index as int].status == MilestoneStatus::Claimed,
    ensures
        step(p, Op::Reject { milestone_index, reason_hash }) matches Ok(q) && {
            let st = q.milestone_states[milestone_index as int];
            let old_st = p.milestone_states[milestone_index as int];
            &&& st.status == MilestoneStatus::Rejected
            &&& st.reason_hash == Some(reason_hash)
            &&& st.evidence_hash == old_st.evidence_hash
            &&& q.funded == p.funded && q.released == p.released && q.disbursed == p.disbursed
        },
{
}

} // verus!
