//! The programme state machine: each contract call as a transition of a
//! programme record, with the checks it makes before asking for a signature.

use crate::error::Error;
use crate::host::copy_address;
use crate::events::{
    BatchDisbursed, MilestoneApproved, MilestoneClaimed, MilestoneRejected, ProgrammeCreated,
    ProgrammeFunded, ProgrammeRefunded,
};
use crate::merkle::{self, fold_digest, hashes, leaf_digest};
use crate::types::{
    approved_sum, max_due, ApproverConfig, DisbursementBatch, Milestone, MilestoneState,
    MilestoneStatus, Programme, ProgrammeStatus, ProgrammeView,
};
use soroban_sdk::{Address, Env};
use vstd::prelude::*;

verus! {

/// A call on an existing programme, with its arguments. `now` is the ledger
/// time of the call.
#[derive(Clone, Copy, Debug)]
pub enum Op {
    Fund { amount: i128 },
    Claim { milestone_index: u32, evidence_hash: [u8; 32], now: u64 },
    Approve { milestone_index: u32 },
    Reject { milestone_index: u32, reason_hash: [u8; 32] },
    Disburse { batch_root: [u8; 32], total: i128, count: u32, now: u64 },
    Refund { now: u64 },
}

/// Whether a milestone in status `s` can be claimed: it is pending or was
/// rejected.
pub open spec fn claimable(s: MilestoneStatus) -> bool {
    s == MilestoneStatus::Pending || s == MilestoneStatus::Rejected
}

/// The error an approver's action on a milestone in status `s` ends in, if any.
pub open spec fn resolve_error(s: MilestoneStatus) -> Option<Error> {
    match s {
        MilestoneStatus::Claimed => None,
        MilestoneStatus::Pending => Some(Error::MilestoneNotClaimed),
        _ => Some(Error::MilestoneAlreadyResolved),
    }
}

/// The checks a call makes before it asks for a signature, and whose
/// signature it asks for: the sponsor funds and refunds, the implementer
/// claims and disburses, the single approver approves and rejects.
pub open spec fn signer(p: ProgrammeView, op: Op) -> Result<Address, Error> {
    if p.status != ProgrammeStatus::Active {
        Err(Error::AlreadyClosed)
    } else {
        match op {
            Op::Fund { .. } | Op::Refund { .. } => Ok(p.sponsor),
            Op::Claim { .. } | Op::Disburse { .. } => Ok(p.implementer),
            Op::Approve { .. } | Op::Reject { .. } => match p.approver {
                ApproverConfig::Single(a) => Ok(a),
                _ => Err(Error::ApproverKindUnimplemented),
            },
        }
    }
}

/// The inputs on which a call traps instead of returning: an arithmetic
/// overflow that no error of the protocol covers, or a milestone index that
/// has a state but no milestone. A sum that overflows while being compared
/// with a balance is not among them: it exceeds the balance, and the call
/// refuses with the protocol's error.
pub open spec fn traps(p: ProgrammeView, op: Op) -> bool {
    p.status == ProgrammeStatus::Active && match op {
        Op::Fund { amount } => amount > 0 && p.funded + amount > i128::MAX,
        Op::Claim { milestone_index, .. } => {
            let i = milestone_index as int;
            i < p.milestone_states.len() && claimable(p.milestone_states[i].status) && i
                >= p.milestones.len()
        },
        Op::Approve { milestone_index } => {
            let i = milestone_index as int;
            &&& p.approver is Single
            &&& i < p.milestone_states.len()
            &&& p.milestone_states[i].status == MilestoneStatus::Claimed
            &&& (i >= p.milestones.len() || p.released + p.milestones[i].amount < i128::MIN)
        },
        Op::Reject { .. } => false,
        Op::Disburse { total, count, .. } => {
            &&& total > 0
            &&& count > 0
            &&& p.disbursed + total <= p.released
            &&& p.batch_count == u32::MAX
        },
        Op::Refund { now } => now > p.end_by && (p.funded - p.disbursed > i128::MAX
            || p.funded - p.disbursed < i128::MIN),
    }
}

/// The record a call leaves behind, or the error it returns. Only the
/// touched fields change.
pub open spec fn step(p: ProgrammeView, op: Op) -> Result<ProgrammeView, Error> {
    if p.status != ProgrammeStatus::Active {
        Err(Error::AlreadyClosed)
    } else {
        match op {
            Op::Fund { amount } => {
                if amount <= 0 {
                    Err(Error::InvalidAmount)
                } else {
                    Ok(ProgrammeView { funded: (p.funded + amount) as i128, ..p })
                }
            },
            Op::Claim { milestone_index, evidence_hash, now } => {
                let i = milestone_index as int;
                if i >= p.milestone_states.len() {
                    Err(Error::MilestoneIndexOutOfRange)
                } else if !claimable(p.milestone_states[i].status) {
                    Err(Error::MilestoneNotClaimable)
                } else {
                    let st = MilestoneState {
                        status: MilestoneStatus::Claimed,
                        evidence_hash: Some(evidence_hash),
                        reason_hash: None,
                        claimed_at: now,
                        claimed_late: now > p.milestones[i].due_by,
                    };
                    Ok(ProgrammeView { milestone_states: p.milestone_states.update(i, st), ..p })
                }
            },
            Op::Approve { milestone_index } => {
                let i = milestone_index as int;
                if !(p.approver is Single) {
                    Err(Error::ApproverKindUnimplemented)
                } else if i >= p.milestone_states.len() {
                    Err(Error::MilestoneIndexOutOfRange)
                } else if let Some(e) = resolve_error(p.milestone_states[i].status) {
                    Err(e)
                } else if p.released + p.milestones[i].amount > p.funded {
                    Err(Error::InsufficientFunding)
                } else {
                    let st = MilestoneState {
                        status: MilestoneStatus::Approved,
                        ..p.milestone_states[i]
                    };
                    Ok(
                        ProgrammeView {
                            released: (p.released + p.milestones[i].amount) as i128,
                            milestone_states: p.milestone_states.update(i, st),
                            ..p
                        },
                    )
                }
            },
            Op::Reject { milestone_index, reason_hash } => {
                let i = milestone_index as int;
                if !(p.approver is Single) {
                    Err(Error::ApproverKindUnimplemented)
                } else if i >= p.milestone_states.len() {
                    Err(Error::MilestoneIndexOutOfRange)
                } else if let Some(e) = resolve_error(p.milestone_states[i].status) {
                    Err(e)
                } else {
                    let st = MilestoneState {
                        status: MilestoneStatus::Rejected,
                        reason_hash: Some(reason_hash),
                        ..p.milestone_states[i]
                    };
                    Ok(ProgrammeView { milestone_states: p.milestone_states.update(i, st), ..p })
                }
            },
            Op::Disburse { total, count, .. } => {
                if total <= 0 || count == 0 {
                    Err(Error::InvalidBatch)
                } else if p.disbursed + total > p.released {
                    Err(Error::InsufficientReleased)
                } else {
                    Ok(
                        ProgrammeView {
                            disbursed: (p.disbursed + total) as i128,
                            batch_count: (p.batch_count + 1) as u32,
                            ..p
                        },
                    )
                }
            },
            Op::Refund { now } => {
                if now <= p.end_by {
                    Err(Error::NotEnded)
                } else if p.funded - p.disbursed <= 0 {
                    Err(Error::NothingToRefund)
                } else {
                    Ok(ProgrammeView { status: ProgrammeStatus::Closed, ..p })
                }
            },
        }
    }
}

/// The batch a disbursement records: the next index after those already
/// recorded, with the call's root, total, count and time. Other calls
/// record no batch.
pub open spec fn batch_record(p: ProgrammeView, op: Op) -> Option<DisbursementBatch> {
    match op {
        Op::Disburse { batch_root, total, count, now } => Some(
            DisbursementBatch {
                index: p.batch_count,
                root: batch_root,
                total,
                count,
                disbursed_at: now,
            },
        ),
        _ => None,
    }
}

/// Ties a call's result to `step`: on success the record is the one `step`
/// gives, on failure the error is `step`'s and the record is untouched.
pub open spec fn follows_step<T>(
    before: ProgrammeView,
    op: Op,
    after: ProgrammeView,
    r: Result<T, Error>,
) -> bool {
    match r {
        Ok(_) => step(before, op) == Ok::<ProgrammeView, Error>(after),
        Err(e) => step(before, op) == Err::<ProgrammeView, Error>(e) && after == before,
    }
}

/// The state every milestone starts in.
pub open spec fn pending_state() -> MilestoneState {
    MilestoneState {
        status: MilestoneStatus::Pending,
        evidence_hash: None,
        reason_hash: None,
        claimed_at: 0,
        claimed_late: false,
    }
}

/// Whether a new programme's declared budgets are acceptable: a positive
/// total and a positive amount on every milestone.
pub open spec fn amounts_valid(total: i128, milestones: Seq<Milestone>) -> bool {
    total > 0 && forall|i: int| 0 <= i < milestones.len() ==> #[trigger] milestones[i].amount > 0
}

/// The record of a newly created programme: nothing funded, every milestone
/// pending, active, and ending at the latest due date.
pub open spec fn created(
    id: u64,
    sponsor: Address,
    implementer: Address,
    asset: Address,
    total: i128,
    milestones: Seq<Milestone>,
    approver: ApproverConfig,
    metadata_hash: [u8; 32],
    now: u64,
) -> ProgrammeView {
    ProgrammeView {
        id,
        sponsor,
        implementer,
        asset,
        total,
        funded: 0,
        released: 0,
        disbursed: 0,
        approver,
        metadata_hash,
        milestones,
        milestone_states: Seq::new(milestones.len(), |i: int| pending_state()),
        status: ProgrammeStatus::Active,
        end_by: max_due(milestones),
        batch_count: 0,
        created_at: now,
    }
}

/// No milestone of an all-pending list counts as released.
proof fn lemma_pending_sum(ms: Seq<Milestone>, n: nat)
    ensures
        approved_sum(ms, Seq::new(n, |i: int| pending_state())) == 0,
    decreases n,
{
    if n > 0 {
        let st = Seq::new(n, |i: int| pending_state());
        assert(st.drop_last() =~= Seq::new((n - 1) as nat, |i: int| pending_state()));
        lemma_pending_sum(ms, (n - 1) as nat);
    }
}

/// `Ok` while the programme is active, `AlreadyClosed` once it is closed.
fn active(p: &Programme) -> (r: Result<(), Error>)
    ensures
        r == (if p.status == ProgrammeStatus::Active {
            Ok::<(), Error>(())
        } else {
            Err(Error::AlreadyClosed)
        }),
{
    if p.status == ProgrammeStatus::Active {
        Ok(())
    } else {
        Err(Error::AlreadyClosed)
    }
}

/// The state of milestone `index`, or `MilestoneIndexOutOfRange`.
fn milestone_state(p: &Programme, index: u32) -> (r: Result<MilestoneState, Error>)
    ensures
        r == (if (index as int) < p.milestone_states@.len() {
            Ok::<MilestoneState, Error>(p.milestone_states@[index as int])
        } else {
            Err(Error::MilestoneIndexOutOfRange)
        }),
{
    if index as usize >= p.milestone_states.len() {
        return Err(Error::MilestoneIndexOutOfRange);
    }
    Ok(p.milestone_states[index as usize])
}

/// A claimed milestone is the only one an approver may act on.
fn resolvable(st: &MilestoneState) -> (r: Result<(), Error>)
    ensures
        r == (match resolve_error(st.status) {
            Some(e) => Err(e),
            None => Ok::<(), Error>(()),
        }),
{
    match st.status {
        MilestoneStatus::Claimed => Ok(()),
        MilestoneStatus::Pending => Err(Error::MilestoneNotClaimed),
        _ => Err(Error::MilestoneAlreadyResolved),
    }
}

/// The approver's address when there is a single approver; the other kinds
/// are not built.
fn approver_single(p: &Programme) -> (r: Result<&Address, Error>)
    ensures
        match p.approver {
            ApproverConfig::Single(a) => r == Ok::<&Address, Error>(&a),
            _ => r == Err::<&Address, Error>(Error::ApproverKindUnimplemented),
        },
{
    match &p.approver {
        ApproverConfig::Single(a) => Ok(a),
        _ => Err(Error::ApproverKindUnimplemented),
    }
}

/// The programme contract's calls, as transitions of a programme record.
pub struct ProgrammeContract;

impl ProgrammeContract {
    /// Registers a programme under `id`, created at ledger time `now`. Every
    /// budget must be positive; the end date is the latest milestone due date.
    pub fn create_programme(
        id: u64,
        sponsor: Address,
        implementer: Address,
        asset: Address,
        total: i128,
        milestones: Vec<Milestone>,
        approver: ApproverConfig,
        metadata_hash: [u8; 32],
        now: u64,
    ) -> (r: Result<(Programme, ProgrammeCreated), Error>)
        ensures
            r is Ok <==> amounts_valid(total, milestones@),
            r matches Err(e) ==> e == Error::InvalidAmount,
            r matches Ok((p, ev)) ==> {
                &&& p@ == created(
                    id,
                    sponsor,
                    implementer,
                    asset,
                    total,
                    milestones@,
                    approver,
                    metadata_hash,
                    now,
                )
                &&& p@.wf()
                &&& ev == (ProgrammeCreated { programme_id: id, sponsor, implementer, total })
            },
    {
        if total <= 0 {
            return Err(Error::InvalidAmount);
        }
        let n = milestones.len();
        let mut i: usize = 0;
        while i < n
            invariant
                n == milestones@.len(),
                i <= n,
                forall|k: int| 0 <= k < i ==> #[trigger] milestones@[k].amount > 0,
            decreases n - i,
        {
            if milestones[i].amount <= 0 {
                return Err(Error::InvalidAmount);
            }
            i = i + 1;
        }
        let mut states: Vec<MilestoneState> = Vec::new();
        let mut end_by: u64 = 0;
        let mut j: usize = 0;
        while j < n
            invariant
                n == milestones@.len(),
                j <= n,
                states@ == Seq::new(j as nat, |k: int| pending_state()),
                end_by == max_due(milestones@.take(j as int)),
            decreases n - j,
        {
            let due_by = milestones[j].due_by;
            if due_by > end_by {
                end_by = due_by;
            }
            states.push(
                MilestoneState {
                    status: MilestoneStatus::Pending,
                    evidence_hash: None,
                    reason_hash: None,
                    claimed_at: 0,
                    claimed_late: false,
                },
            );
            assert(milestones@.take(j + 1).drop_last() =~= milestones@.take(j as int));
            assert(states@ =~= Seq::new((j + 1) as nat, |k: int| pending_state()));
            j = j + 1;
        }
        assert(milestones@.take(n as int) =~= milestones@);
        proof {
            lemma_pending_sum(milestones@, n as nat);
        }
        let ev = ProgrammeCreated {
            programme_id: id,
            sponsor: copy_address(&sponsor),
            implementer: copy_address(&implementer),
            total,
        };
        let p = Programme {
            id,
            sponsor,
            implementer,
            asset,
            total,
            funded: 0,
            released: 0,
            disbursed: 0,
            approver,
            metadata_hash,
            milestones,
            milestone_states: states,
            status: ProgrammeStatus::Active,
            end_by,
            batch_count: 0,
            created_at: now,
        };
        assert(p@ =~= created(
            id,
            p.sponsor,
            p.implementer,
            p.asset,
            total,
            p.milestones@,
            p.approver,
            metadata_hash,
            now,
        ));
        Ok((p, ev))
    }

    /// Whether a call on `p` would trap (see [`traps`]). A caller that is not
    /// verified tests this before making the call.
    pub fn would_trap(p: &Programme, op: &Op) -> (t: bool)
        ensures
            t == traps(p@, *op),
    {
        if p.status != ProgrammeStatus::Active {
            return false;
        }
        match *op {
            Op::Fund { amount } => amount > 0 && p.funded.checked_add(amount).is_none(),
            Op::Claim { milestone_index, .. } => {
                let i = milestone_index as usize;
                i < p.milestone_states.len() && (p.milestone_states[i].status
                    == MilestoneStatus::Pending || p.milestone_states[i].status
                    == MilestoneStatus::Rejected) && i >= p.milestones.len()
            },
            Op::Approve { milestone_index } => {
                let i = milestone_index as usize;
                let single = match &p.approver {
                    ApproverConfig::Single(_) => true,
                    _ => false,
                };
                single && i < p.milestone_states.len() && p.milestone_states[i].status
                    == MilestoneStatus::Claimed && (i >= p.milestones.len() || (
                p.milestones[i].amount < 0 && p.released.checked_add(
                    p.milestones[i].amount,
                ).is_none()))
            },
            Op::Reject { .. } => false,
            Op::Disburse { total, count, .. } => {
                if total <= 0 || count == 0 {
                    false
                } else {
                    match p.disbursed.checked_add(total) {
                        None => false,
                        Some(sum) => sum <= p.released && p.batch_count == u32::MAX,
                    }
                }
            },
            Op::Refund { now } => now > p.end_by && p.funded.checked_sub(p.disbursed).is_none(),
        }
    }

    /// The checks a call makes before it asks for a signature, and the
    /// address whose signature it asks for.
    pub fn authoriser<'a>(p: &'a Programme, op: &Op) -> (r: Result<&'a Address, Error>)
        ensures
            match r {
                Ok(a) => signer(p@, *op) == Ok::<Address, Error>(*a),
                Err(e) => signer(p@, *op) == Err::<Address, Error>(e),
            },
    {
        active(p)?;
        match op {
            Op::Fund { .. } | Op::Refund { .. } => Ok(&p.sponsor),
            Op::Claim { .. } | Op::Disburse { .. } => Ok(&p.implementer),
            Op::Approve { .. } | Op::Reject { .. } => approver_single(p),
        }
    }

    /// Moves `amount` of the asset from the sponsor into the programme.
    /// Funding may be partial and repeated.
    pub fn fund(p: &mut Programme, amount: i128) -> (r: Result<ProgrammeFunded, Error>)
        requires
            !traps(old(p)@, Op::Fund { amount }),
        ensures
            follows_step(old(p)@, Op::Fund { amount }, final(p)@, r),
            r matches Ok(ev) ==> ev == (ProgrammeFunded { programme_id: old(p).id, amount }),
    {
        active(p)?;
        if amount <= 0 {
            return Err(Error::InvalidAmount);
        }
        p.funded = p.funded + amount;
        Ok(ProgrammeFunded { programme_id: p.id, amount })
    }

    /// The implementer claims a milestone with an evidence hash. A claim after
    /// the due date is flagged, not blocked; a rejected milestone may be
    /// claimed again.
    pub fn claim(
        p: &mut Programme,
        milestone_index: u32,
        evidence_hash: [u8; 32],
        now: u64,
    ) -> (r: Result<MilestoneClaimed, Error>)
        requires
            !traps(old(p)@, Op::Claim { milestone_index, evidence_hash, now }),
        ensures
            follows_step(old(p)@, Op::Claim { milestone_index, evidence_hash, now }, final(p)@, r),
            r matches Ok(ev) ==> ev == (MilestoneClaimed {
                programme_id: old(p).id,
                milestone_index,
                evidence_hash,
                claimed_late: now > old(p)@.milestones[milestone_index as int].due_by,
            }),
    {
        active(p)?;
        let st = milestone_state(p, milestone_index)?;
        match st.status {
            MilestoneStatus::Pending | MilestoneStatus::Rejected => {},
            _ => return Err(Error::MilestoneNotClaimable),
        }
        let due_by = p.milestones[milestone_index as usize].due_by;
        let claimed_late = now > due_by;
        let new_state = MilestoneState {
            status: MilestoneStatus::Claimed,
            evidence_hash: Some(evidence_hash),
            reason_hash: None,
            claimed_at: now,
            claimed_late,
        };
        p.milestone_states.set(milestone_index as usize, new_state);
        assert(p@ =~= step(old(p)@, Op::Claim { milestone_index, evidence_hash, now }).unwrap());
        Ok(MilestoneClaimed { programme_id: p.id, milestone_index, evidence_hash, claimed_late })
    }

    /// The approver releases a claimed milestone's budget into the spendable
    /// pool; the released total may not pass what was funded.
    pub fn approve(p: &mut Programme, milestone_index: u32) -> (r: Result<MilestoneApproved, Error>)
        requires
            !traps(old(p)@, Op::Approve { milestone_index }),
        ensures
            follows_step(old(p)@, Op::Approve { milestone_index }, final(p)@, r),
            r matches Ok(ev) ==> ev == (MilestoneApproved { programme_id: old(p).id, milestone_index }),
    {
        active(p)?;
        approver_single(p)?;
        let st = milestone_state(p, milestone_index)?;
        resolvable(&st)?;
        let amount = p.milestones[milestone_index as usize].amount;
        // A sum past i128::MAX is past `funded` too.
        let over = match p.released.checked_add(amount) {
            Some(sum) => sum > p.funded,
            None => amount > 0,
        };
        if over {
            return Err(Error::InsufficientFunding);
        }
        p.released = p.released + amount;
        let new_state = MilestoneState { status: MilestoneStatus::Approved, ..st };
        p.milestone_states.set(milestone_index as usize, new_state);
        assert(p@ =~= step(old(p)@, Op::Approve { milestone_index }).unwrap());
        Ok(MilestoneApproved { programme_id: p.id, milestone_index })
    }

    /// The approver rejects a claimed milestone with a reason hash. The budget
    /// is not released; the implementer may claim again.
    pub fn reject(
        p: &mut Programme,
        milestone_index: u32,
        reason_hash: [u8; 32],
    ) -> (r: Result<MilestoneRejected, Error>)
        ensures
            follows_step(old(p)@, Op::Reject { milestone_index, reason_hash }, final(p)@, r),
            r matches Ok(ev) ==> ev == (MilestoneRejected {
                programme_id: old(p).id,
                milestone_index,
                reason_hash,
            }),
    {
        active(p)?;
        approver_single(p)?;
        let st = milestone_state(p, milestone_index)?;
        resolvable(&st)?;
        let new_state = MilestoneState {
            status: MilestoneStatus::Rejected,
            reason_hash: Some(reason_hash),
            ..st
        };
        p.milestone_states.set(milestone_index as usize, new_state);
        assert(p@ =~= step(old(p)@, Op::Reject { milestone_index, reason_hash }).unwrap());
        Ok(MilestoneRejected { programme_id: p.id, milestone_index, reason_hash })
    }

    /// The implementer disburses a batch: the record keeps its root, total and
    /// count, and `total` goes to the implementer for last-mile payout. Who
    /// was paid is not recorded.
    pub fn disburse(
        p: &mut Programme,
        batch_root: [u8; 32],
        total: i128,
        count: u32,
        now: u64,
    ) -> (r: Result<(DisbursementBatch, BatchDisbursed), Error>)
        requires
            !traps(old(p)@, Op::Disburse { batch_root, total, count, now }),
        ensures
            follows_step(old(p)@, Op::Disburse { batch_root, total, count, now }, final(p)@, r),
            r matches Ok((batch, ev)) ==> {
                &&& batch_record(old(p)@, Op::Disburse { batch_root, total, count, now }) == Some(batch)
                &&& ev == (BatchDisbursed {
                    programme_id: old(p).id,
                    batch_index: old(p).batch_count,
                    root: batch_root,
                    total,
                    count,
                })
            },
    {
        active(p)?;
        if total <= 0 || count == 0 {
            return Err(Error::InvalidBatch);
        }
        // A sum past i128::MAX is past `released` too.
        let over = match p.disbursed.checked_add(total) {
            Some(sum) => sum > p.released,
            None => true,
        };
        if over {
            return Err(Error::InsufficientReleased);
        }
        let index = p.batch_count;
        let batch = DisbursementBatch { index, root: batch_root, total, count, disbursed_at: now };
        p.disbursed = p.disbursed + total;
        p.batch_count = p.batch_count + 1;
        let ev = BatchDisbursed { programme_id: p.id, batch_index: index, root: batch_root, total, count };
        Ok((batch, ev))
    }

    /// After the end date the sponsor recovers whatever was funded and not
    /// disbursed, released-but-unspent budget included. Closes the programme.
    pub fn refund_remainder(p: &mut Programme, now: u64) -> (r: Result<ProgrammeRefunded, Error>)
        requires
            !traps(old(p)@, Op::Refund { now }),
        ensures
            follows_step(old(p)@, Op::Refund { now }, final(p)@, r),
            r matches Ok(ev) ==> ev == (ProgrammeRefunded {
                programme_id: old(p).id,
                amount: (old(p).funded - old(p).disbursed) as i128,
            }),
    {
        active(p)?;
        if now <= p.end_by {
            return Err(Error::NotEnded);
        }
        let remainder = p.funded - p.disbursed;
        if remainder <= 0 {
            return Err(Error::NothingToRefund);
        }
        p.status = ProgrammeStatus::Closed;
        Ok(ProgrammeRefunded { programme_id: p.id, amount: remainder })
    }

    /// Verifies a beneficiary's inclusion in a published batch: folds `proof`
    /// onto `leaf` and compares with the batch's root. `false` when there is
    /// no such batch.
    pub fn verify_inclusion(
        env: &Env,
        batch: Option<DisbursementBatch>,
        leaf: [u8; 32],
        proof: &Vec<[u8; 32]>,
    ) -> (ok: bool)
        ensures
            ok == match batch {
                Some(b) => fold_digest(leaf@, hashes(proof@)) == b.root@,
                None => false,
            },
    {
        match batch {
            Some(b) => merkle::verify(env, &leaf, proof, &b.root),
            None => false,
        }
    }

    /// The canonical leaf hash, so that clients and auditors can confirm they
    /// reproduce the encoding exactly.
    pub fn hash_leaf(env: &Env, recipient_ref: [u8; 32], amount: i128) -> (leaf: [u8; 32])
        ensures
            leaf@ == leaf_digest(recipient_ref@, amount),
    {
        merkle::hash_leaf(env, &recipient_ref, amount)
    }
}

} // verus!
