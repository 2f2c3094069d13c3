//! The errors a programme call can end in.

use vstd::prelude::*;

verus! {

/// Why a programme call was refused. The numbering of the protocol's error
/// table is given by [`Error::code`].
#[derive(Copy, Clone, Debug, PartialEq, Eq, Structural, PartialOrd, Ord)]
pub enum Error {
    ProgrammeNotFound,
    AlreadyClosed,
    MilestoneIndexOutOfRange,
    MilestoneNotClaimable,
    MilestoneNotClaimed,
    MilestoneAlreadyResolved,
    InsufficientFunding,
    InsufficientReleased,
    NotEnded,
    InvalidAmount,
    InvalidBatch,
    /// Panel and oracle approvers are declared but not built; acting under
    /// one of them ends here.
    ApproverKindUnimplemented,
    NothingToRefund,
    /// Reserved for callers that index batches directly.
    BatchIndexOutOfRange,
}

impl Error {
    /// The error's number in the protocol's error table.
    pub open spec fn spec_code(self) -> u32 {
        match self {
            Error::ProgrammeNotFound => 1,
            Error::AlreadyClosed => 2,
            Error::MilestoneIndexOutOfRange => 3,
            Error::MilestoneNotClaimable => 4,
            Error::MilestoneNotClaimed => 5,
            Error::MilestoneAlreadyResolved => 6,
            Error::InsufficientFunding => 7,
            Error::InsufficientReleased => 8,
            Error::NotEnded => 9,
            Error::InvalidAmount => 10,
            Error::InvalidBatch => 11,
            Error::ApproverKindUnimplemented => 12,
            Error::NothingToRefund => 13,
            Error::BatchIndexOutOfRange => 14,
        }
    }

    /// The error's number in the protocol's error table (1 to 14).
    pub fn code(&self) -> (c: u32)
        ensures
            c == self.spec_code(),
    {
        match self {
            Error::ProgrammeNotFound => 1,
            Error::AlreadyClosed => 2,
            Error::MilestoneIndexOutOfRange => 3,
            Error::MilestoneNotClaimable => 4,
            Error::MilestoneNotClaimed => 5,
            Error::MilestoneAlreadyResolved => 6,
            Error::InsufficientFunding => 7,
            Error::InsufficientReleased => 8,
            Error::NotEnded => 9,
            Error::InvalidAmount => 10,
            Error::InvalidBatch => 11,
            Error::ApproverKindUnimplemented => 12,
            Error::NothingToRefund => 13,
            Error::BatchIndexOutOfRange => 14,
        }
    }
}

} // verus!
