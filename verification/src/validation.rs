use vstd::prelude::*;
use crate::error::GovernanceError;
use crate::principal::{keys_of, Principal};

verus! {

/// The shortest cooling-off period a proposal may carry, in seconds.
pub const MIN_COOLING_OFF_SECONDS: u64 = 3600;

/// Stateless checks on the parameters of a proposal.
pub struct ValidationModule;

impl ValidationModule {
    /// A content identifier is well-formed when it is not empty.
    pub fn validate_hash_format(hash: &String) -> (r: Result<(), GovernanceError>)
        ensures
            r == if hash@.len() == 0 {
                Err::<(), GovernanceError>(GovernanceError::InvalidHash)
            } else {
                Ok::<(), GovernanceError>(())
            },
    {
        if hash.as_str().is_empty() {
            Err(GovernanceError::InvalidHash)
        } else {
            Ok(())
        }
    }

    /// A threshold must be at least one and at most the number of approvers.
    pub fn validate_threshold(threshold: u32, approver_count: u32) -> (r: Result<
        (),
        GovernanceError,
    >)
        ensures
            r == if threshold == 0 || threshold > approver_count {
                Err::<(), GovernanceError>(GovernanceError::InvalidThreshold)
            } else {
                Ok::<(), GovernanceError>(())
            },
    {
        if threshold == 0 || threshold > approver_count {
            Err(GovernanceError::InvalidThreshold)
        } else {
            Ok(())
        }
    }

    /// A cooling-off period must last at least an hour.
    pub fn validate_timelock(seconds: u64) -> (r: Result<(), GovernanceError>)
        ensures
            r == if seconds < MIN_COOLING_OFF_SECONDS {
                Err::<(), GovernanceError>(GovernanceError::InvalidTimelock)
            } else {
                Ok::<(), GovernanceError>(())
            },
    {
        if seconds < MIN_COOLING_OFF_SECONDS {
            Err(GovernanceError::InvalidTimelock)
        } else {
            Ok(())
        }
    }

    /// A new version must be strictly greater than the old one.
    pub fn validate_version_compatibility(old_version: u32, new_version: u32) -> (r: Result<
        (),
        GovernanceError,
    >)
        ensures
            r == if new_version > old_version {
                Ok::<(), GovernanceError>(())
            } else {
                Err::<(), GovernanceError>(GovernanceError::InvalidVersion)
            },
    {
        if new_version > old_version {
            Ok(())
        } else {
            Err(GovernanceError::InvalidVersion)
        }
    }

    /// No principal may occur more than once among the approvers.
    pub fn validate_approvers_unique(approvers: &Vec<Principal>) -> (r: Result<
        (),
        GovernanceError,
    >)
        ensures
            r == if keys_of(approvers@).no_duplicates() {
                Ok::<(), GovernanceError>(())
            } else {
                Err::<(), GovernanceError>(GovernanceError::DuplicateApprover)
            },
    {
        let ghost keys = keys_of(approvers@);
        let mut i: usize = 0;
        while i < approvers.len()
            invariant
                i <= approvers.len(),
                keys == keys_of(approvers@),
                forall|a: int, b: int| 0 <= a < b < i ==> keys[a] != keys[b],
            decreases approvers.len() - i,
        {
            let mut j: usize = 0;
            while j < i
                invariant
                    j <= i < approvers.len(),
                    keys == keys_of(approvers@),
                    forall|a: int| 0 <= a < j ==> keys[a] != keys[i as int],
                decreases i - j,
            {
                if approvers[j].same(&approvers[i]) {
                    assert(keys[j as int] == keys[i as int]);
                    return Err(GovernanceError::DuplicateApprover);
                }
                j = j + 1;
            }
            i = i + 1;
        }
        Ok(())
    }
}

} // verus!
