//! Programme ledger and Merkle batch commitments for the Cygnus aid
//! disbursement protocol.

pub mod contract;
pub mod error;
pub mod events;
pub mod host;
pub mod laws;
pub mod merkle;
pub mod merkle_laws;
pub mod types;

pub use contract::{Op, ProgrammeContract};
pub use error::Error;
pub use events::{
    BatchDisbursed, MilestoneApproved, MilestoneClaimed, MilestoneRejected, ProgrammeCreated,
    ProgrammeFunded, ProgrammeRefunded,
};
pub use types::{
    ApproverConfig, DisbursementBatch, Milestone, MilestoneState, MilestoneStatus, Programme,
    ProgrammeStatus,
};
