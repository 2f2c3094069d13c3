//! The events a programme call publishes. `programme_id` is the topic of each.

use soroban_sdk::Address;
use vstd::prelude::*;

verus! {

/// A programme was registered.
pub struct ProgrammeCreated {
    pub programme_id: u64,
    pub sponsor: Address,
    pub implementer: Address,
    pub total: i128,
}

/// The sponsor moved `amount` into the programme.
#[derive(Clone, Copy, Debug, PartialEq, Eq)]
pub struct ProgrammeFunded {
    pub programme_id: u64,
    pub amount: i128,
}

/// The implementer claimed a milestone; `claimed_late` flags a claim after
/// its due date.
#[derive(Clone, Copy, Debug, PartialEq, Eq)]
pub struct MilestoneClaimed {
    pub programme_id: u64,
    pub milestone_index: u32,
    pub evidence_hash: [u8; 32],
    pub claimed_late: bool,
}

/// The approver released a milestone's budget.
#[derive(Clone, Copy, Debug, PartialEq, Eq)]
pub struct MilestoneApproved {
    pub programme_id: u64,
    pub milestone_index: u32,
}

/// The approver rejected a claim, giving a reason hash.
#[derive(Clone, Copy, Debug, PartialEq, Eq)]
pub struct MilestoneRejected {
    pub programme_id: u64,
    pub milestone_index: u32,
    pub reason_hash: [u8; 32],
}

/// A batch was paid out to the implementer; only its root, total and count
/// are published.
#[derive(Clone, Copy, Debug, PartialEq, Eq)]
pub struct BatchDisbursed {
    pub programme_id: u64,
    pub batch_index: u32,
    pub root: [u8; 32],
    pub total: i128,
    pub count: u32,
}

/// The sponsor recovered `amount` and the programme closed.
#[derive(Clone, Copy, Debug, PartialEq, Eq)]
pub struct ProgrammeRefunded {
    pub programme_id: u64,
    pub amount: i128,
}

} // verus!
