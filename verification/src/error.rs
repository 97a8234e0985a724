use vstd::prelude::*;

verus! {

/// The closed set of failures an operation can report.
#[derive(Clone, Copy, Debug, PartialEq, Eq, Structural)]
pub enum GovernanceError {
    Unauthorized,
    InvalidHash,
    InvalidThreshold,
    InvalidTimelock,
    InvalidVersion,
    DuplicateApprover,
    ProposalNotFound,
    ApprovalNotFound,
    AlreadyApproved,
    CoolingOffNotElapsed,
    NotHalted,
    InvalidStateTransition,
}

} // verus!
