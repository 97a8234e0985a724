use vstd::prelude::*;
use crate::approval::{approve_outcome, ApprovalModule};
use crate::error::GovernanceError;
use crate::halt::is_admin;
use crate::principal::{keys_of, Principal};
use crate::proposal::{Proposal, ProposalStatus, ProposalView};
use crate::roles::{role_in, GovernanceRole, RoleRegistry};
use crate::store::{ProposalStore, StoreView};
use crate::validation::{ValidationModule, MIN_COOLING_OFF_SECONDS};

verus! {

/// Whether a proposal with these parameters may be created by a principal
/// holding `role`: the first check that fails, in the order authorization,
/// content identifier, distinct approvers, threshold, cooling-off period.
pub open spec fn propose_check(
    role: Option<GovernanceRole>,
    content_hash: Seq<char>,
    threshold: u32,
    approvers: Seq<Seq<char>>,
    cooling_off_seconds: u64,
) -> Result<(), GovernanceError> {
    if role != Some(GovernanceRole::Admin) {
        Err(GovernanceError::Unauthorized)
    } else if content_hash.len() == 0 {
        Err(GovernanceError::InvalidHash)
    } else if !approvers.no_duplicates() {
        Err(GovernanceError::DuplicateApprover)
    } else if threshold == 0 || threshold > approvers.len() {
        Err(GovernanceError::InvalidThreshold)
    } else if cooling_off_seconds < MIN_COOLING_OFF_SECONDS {
        Err(GovernanceError::InvalidTimelock)
    } else {
        Ok(())
    }
}

/// A proposal as it is created at `now`: pending, with no approvals.
pub open spec fn fresh_proposal(
    id: u64,
    content_hash: Seq<char>,
    target: Seq<char>,
    description: Seq<char>,
    threshold: u32,
    approvers: Seq<Seq<char>>,
    cooling_off_seconds: u64,
    now: u64,
) -> ProposalView {
    ProposalView {
        id,
        content_hash,
        target,
        description,
        threshold,
        approvers,
        approved_by: Seq::empty(),
        approvals_count: 0,
        status: ProposalStatus::Pending,
        created_at: now,
        cooling_off_seconds,
        halt_reason: None,
        halted_at: None,
        pre_halt_status: None,
    }
}

/// The store after `proposal` was created in it: the proposal stands under
/// the identifier that was next, and the next identifier is one greater.
pub open spec fn with_new_proposal(store: StoreView, proposal: ProposalView) -> StoreView {
    StoreView {
        next_id: (store.next_id + 1) as u64,
        proposals: store.proposals.insert(store.next_id, proposal),
    }
}

/// The public lifecycle operations on stored proposals.
pub struct GovernanceManager;

impl GovernanceManager {
    /// Creates a proposal on behalf of `proposer` at `now` and returns its
    /// identifier.
    ///
    /// The proposer must be an Admin and the parameters valid; the first
    /// check that fails is reported, and the store is then unchanged.
    pub fn propose_upgrade(
        store: &mut ProposalStore,
        roles: &RoleRegistry,
        proposer: &Principal,
        content_hash: String,
        target: Principal,
        description: String,
        threshold: u32,
        approvers: Vec<Principal>,
        cooling_off_seconds: u64,
        now: u64,
    ) -> (r: Result<u64, GovernanceError>)
        requires
            old(store).wf(),
            old(store)@.next_id < u64::MAX,
            approvers.len() <= u32::MAX,
        ensures
            final(store).wf(),
            match propose_check(
                role_in(roles@, proposer@),
                content_hash@,
                threshold,
                keys_of(approvers@),
                cooling_off_seconds,
            ) {
                Ok(_) => r == Ok::<u64, GovernanceError>(old(store)@.next_id) && final(store)@
                    == with_new_proposal(
                    old(store)@,
                    fresh_proposal(
                        old(store)@.next_id,
                        content_hash@,
                        target@,
                        description@,
                        threshold,
                        keys_of(approvers@),
                        cooling_off_seconds,
                        now,
                    ),
                ),
                Err(e) => r == Err::<u64, GovernanceError>(e) && final(store)@ == old(store)@,
            },
    {
        if !is_admin(roles.role_of(proposer)) {
            return Err(GovernanceError::Unauthorized);
        }
        match ValidationModule::validate_hash_format(&content_hash) {
            Ok(_) => {},
            Err(e) => {
                return Err(e);
            },
        }
        match ValidationModule::validate_approvers_unique(&approvers) {
            Ok(_) => {},
            Err(e) => {
                return Err(e);
            },
        }
        match ValidationModule::validate_threshold(threshold, approvers.len() as u32) {
            Ok(_) => {},
            Err(e) => {
                return Err(e);
            },
        }
        match ValidationModule::validate_timelock(cooling_off_seconds) {
            Ok(_) => {},
            Err(e) => {
                return Err(e);
            },
        }
        proof {
            store.lemma_wf_view();
        }
        let ghost before = store@;
        let id = store.next_id();
        let proposal = Proposal {
            id,
            content_hash,
            target,
            description,
            threshold,
            approvers,
            approved_by: Vec::new(),
            approvals_count: 0,
            status: ProposalStatus::Pending,
            created_at: now,
            cooling_off_seconds,
            halt_reason: None,
            halted_at: None,
            pre_halt_status: None,
        };
        proof {
            assert(proposal@.approved_by =~= Seq::<Seq<char>>::empty());
            assert(!before.proposals.contains_key(id));
        }
        store.insert(proposal);
        Ok(id)
    }

    /// The stored proposal `id`.
    pub fn get_proposal(store: &ProposalStore, id: u64) -> (r: Result<Proposal, GovernanceError>)
        requires
            store.wf(),
        ensures
            match r {
                Ok(p) => store@.proposals.contains_key(id) && p@ == store@.proposals[id]
                    && p.wf(),
                Err(e) => !store@.proposals.contains_key(id) && e
                    == GovernanceError::ProposalNotFound,
            },
    {
        store.get(id)
    }

    /// Records the approval of `who` on the stored proposal `id` at `now`.
    /// A failure leaves the store unchanged.
    pub fn approve_proposal(
        store: &mut ProposalStore,
        roles: &RoleRegistry,
        id: u64,
        who: &Principal,
        now: u64,
    ) -> (r: Result<(), GovernanceError>)
        requires
            old(store).wf(),
        ensures
            final(store).wf(),
            match approve_outcome(old(store)@, roles@, id, who@, now) {
                Ok(next) => r is Ok && final(store)@ == next,
                Err(e) => r matches Err(f) && f == e && final(store)@ == old(store)@,
            },
    {
        ApprovalModule::approve_proposal(store, roles, id, who, now)
    }
}

} // verus!
