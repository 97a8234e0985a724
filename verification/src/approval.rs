use vstd::prelude::*;
use crate::error::GovernanceError;
use crate::principal::{contains_principal, keys_of, position_of, Principal};
use crate::proposal::{lemma_room_for_one_more, Proposal, ProposalStatus};
use crate::roles::{role_in, GovernanceRole, RoleRegistry};
use crate::store::{ProposalStore, StoreView};

verus! {

/// Whether `role` is one that may approve or revoke at all.
pub fn is_voting_role(role: Option<GovernanceRole>) -> (b: bool)
    ensures
        b == (role == Some(GovernanceRole::Admin) || role == Some(GovernanceRole::Approver)),
{
    match role {
        Some(GovernanceRole::Admin) => true,
        Some(GovernanceRole::Approver) => true,
        _ => false,
    }
}

/// Whether a proposal in `status` refuses approval, revocation and halt.
pub fn status_is_closed(status: ProposalStatus) -> (b: bool)
    ensures
        b == crate::proposal::is_closed(status),
{
    match status {
        ProposalStatus::Halted => true,
        ProposalStatus::Executed => true,
        ProposalStatus::Rejected => true,
        _ => false,
    }
}

/// What an approval of the proposal `id` by `who` at `now` makes of the
/// store: the store with the approved proposal, or the first failure.
pub open spec fn approve_outcome(
    store: StoreView,
    roles: Map<Seq<char>, GovernanceRole>,
    id: u64,
    who: Seq<char>,
    now: u64,
) -> Result<StoreView, GovernanceError> {
    if !store.proposals.contains_key(id) {
        Err(GovernanceError::ProposalNotFound)
    } else {
        store.after_step(id, store.proposals[id].approve_step(who, role_in(roles, who), now))
    }
}

/// What a revocation on the proposal `id` by `who` makes of the store.
pub open spec fn revoke_outcome(
    store: StoreView,
    roles: Map<Seq<char>, GovernanceRole>,
    id: u64,
    who: Seq<char>,
) -> Result<StoreView, GovernanceError> {
    if !store.proposals.contains_key(id) {
        Err(GovernanceError::ProposalNotFound)
    } else {
        store.after_step(id, store.proposals[id].revoke_step(who, role_in(roles, who)))
    }
}

/// Recording and revoking approvals.
pub struct ApprovalModule;

impl ApprovalModule {
    /// Records the approval of `who`, who holds `role`, at time `now`.
    ///
    /// The checks run in a fixed order and the first that fails is reported:
    /// authorization, the proposal's state, the cooling-off period, a repeated
    /// approval. On success the count grows by one, and a pending proposal
    /// that reaches its threshold becomes approved.
    pub fn approve(
        proposal: Proposal,
        who: &Principal,
        role: Option<GovernanceRole>,
        now: u64,
    ) -> (r: Result<Proposal, GovernanceError>)
        requires
            proposal.wf(),
        ensures
            match proposal@.approve_step(who@, role, now) {
                Ok(next) => r matches Ok(p) && p@ == next && p.wf(),
                Err(e) => r matches Err(f) && f == e,
            },
    {
        if !is_voting_role(role) || !contains_principal(&proposal.approvers, who) {
            return Err(GovernanceError::Unauthorized);
        }
        if status_is_closed(proposal.status) {
            return Err(GovernanceError::InvalidStateTransition);
        }
        if (now as u128) < (proposal.created_at as u128) + (proposal.cooling_off_seconds as u128) {
            return Err(GovernanceError::CoolingOffNotElapsed);
        }
        if contains_principal(&proposal.approved_by, who) {
            return Err(GovernanceError::AlreadyApproved);
        }
        let ghost before = proposal@;
        proof {
            lemma_room_for_one_more(before.approved_by, before.approvers, who@);
        }
        let mut next = proposal;
        next.approved_by.push(who.duplicate());
        next.approvals_count = next.approvals_count + 1;
        if next.approvals_count == next.threshold {
            match next.status {
                ProposalStatus::Pending => {
                    next.status = ProposalStatus::Approved;
                },
                _ => {},
            }
        }
        proof {
            assert(keys_of(next.approved_by@) =~= before.approved_by.push(who@));
            assert(next@ == before.with_approval(who@));
            assert forall|i: int| 0 <= i < next@.approved_by.len() implies next@.approvers.contains(
                #[trigger] next@.approved_by[i],
            ) by {
                if i < before.approved_by.len() {
                    assert(next@.approved_by[i] == before.approved_by[i]);
                }
            }
        }
        Ok(next)
    }

    /// Records the approval of `who` on the stored proposal `id` at `now`.
    /// A failure leaves the store unchanged.
    pub fn approve_proposal(
        store: &mut ProposalStore,
        roles: &RoleRegistry,
        id: u64,
        who: &Principal,
        now: u64,
    ) -> (r: Result<(), GovernanceError>)
        requires
            old(store).wf(),
        ensures
            final(store).wf(),
            match approve_outcome(old(store)@, roles@, id, who@, now) {
                Ok(next) => r is Ok && final(store)@ == next,
                Err(e) => r matches Err(f) && f == e && final(store)@ == old(store)@,
            },
    {
        let current = match store.get(id) {
            Ok(p) => p,
            Err(e) => {
                return Err(e);
            },
        };
        let step = ApprovalModule::approve(current, who, roles.role_of(who), now);
        store.commit(step)
    }

    /// Takes back the approval of `who` on the stored proposal `id`.
    /// A failure leaves the store unchanged.
    pub fn revoke_approval(
        store: &mut ProposalStore,
        roles: &RoleRegistry,
        id: u64,
        who: &Principal,
    ) -> (r: Result<(), GovernanceError>)
        requires
            old(store).wf(),
        ensures
            final(store).wf(),
            match revoke_outcome(old(store)@, roles@, id, who@) {
                Ok(next) => r is Ok && final(store)@ == next,
                Err(e) => r matches Err(f) && f == e && final(store)@ == old(store)@,
            },
    {
        let current = match store.get(id) {
            Ok(p) => p,
            Err(e) => {
                return Err(e);
            },
        };
        let step = ApprovalModule::revoke(current, who, roles.role_of(who));
        store.commit(step)
    }

    /// Takes back the approval of `who`, who holds `role`.
    ///
    /// The checks run in a fixed order and the first that fails is reported:
    /// authorization, the proposal's state, a missing approval. On success
    /// the count shrinks by one, and an approved proposal that falls below
    /// its threshold becomes pending again.
    pub fn revoke(proposal: Proposal, who: &Principal, role: Option<GovernanceRole>) -> (r: Result<
        Proposal,
        GovernanceError,
    >)
        requires
            proposal.wf(),
        ensures
            match proposal@.revoke_step(who@, role) {
                Ok(next) => r matches Ok(p) && p@ == next && p.wf(),
                Err(e) => r matches Err(f) && f == e,
            },
    {
        if !is_voting_role(role) || !contains_principal(&proposal.approvers, who) {
            return Err(GovernanceError::Unauthorized);
        }
        if status_is_closed(proposal.status) {
            return Err(GovernanceError::InvalidStateTransition);
        }
        let place = match position_of(&proposal.approved_by, who) {
            Some(i) => i,
            None => {
                return Err(GovernanceError::ApprovalNotFound);
            },
        };
        let ghost before = proposal@;
        assert(before.approved_by.contains(who@));
        assert(before.approved_by.index_of(who@) == place);
        let mut next = proposal;
        next.approved_by.remove(place);
        next.approvals_count = next.approvals_count - 1;
        if next.approvals_count < next.threshold {
            match next.status {
                ProposalStatus::Approved => {
                    next.status = ProposalStatus::Pending;
                },
                _ => {},
            }
        }
        proof {
            let after = before.approved_by.remove(place as int);
            assert(keys_of(next.approved_by@) =~= after);
            assert(next@ == before.without_approval(who@));
            assert forall|i: int| 0 <= i < after.len() implies before.approvers.contains(
                #[trigger] after[i],
            ) by {
                if i < place {
                    assert(after[i] == before.approved_by[i]);
                } else {
                    assert(after[i] == before.approved_by[i + 1]);
                }
            }
            assert forall|i: int, j: int|
                0 <= i < after.len() && 0 <= j < after.len() && i != j implies after[i]
                != after[j] by {
                let a = if i < place { i } else { i + 1 };
                let b = if j < place { j } else { j + 1 };
                assert(after[i] == before.approved_by[a]);
                assert(after[j] == before.approved_by[b]);
            }
        }
        Ok(next)
    }
}

} // verus!
