use vstd::prelude::*;
use crate::approval::status_is_closed;
use crate::error::GovernanceError;
use crate::principal::Principal;
use crate::proposal::{Proposal, ProposalStatus};
use crate::roles::{role_in, GovernanceRole, RoleRegistry};
use crate::store::{ProposalStore, StoreView};
use crate::validation::ValidationModule;

verus! {

/// Whether `role` is the Admin role.
pub fn is_admin(role: Option<GovernanceRole>) -> (b: bool)
    ensures
        b == (role == Some(GovernanceRole::Admin)),
{
    match role {
        Some(GovernanceRole::Admin) => true,
        _ => false,
    }
}

/// What a halt of the proposal `id` by `who` at `now` makes of the store.
pub open spec fn halt_outcome(
    store: StoreView,
    roles: Map<Seq<char>, GovernanceRole>,
    id: u64,
    who: Seq<char>,
    reason: Seq<char>,
    now: u64,
) -> Result<StoreView, GovernanceError> {
    if !store.proposals.contains_key(id) {
        Err(GovernanceError::ProposalNotFound)
    } else {
        store.after_step(id, store.proposals[id].halt_step(role_in(roles, who), reason, now))
    }
}

/// What a resume of the proposal `id` by `who` at `now` makes of the store.
pub open spec fn resume_outcome(
    store: StoreView,
    roles: Map<Seq<char>, GovernanceRole>,
    id: u64,
    who: Seq<char>,
    new_cooling_off_seconds: u64,
    now: u64,
) -> Result<StoreView, GovernanceError> {
    if !store.proposals.contains_key(id) {
        Err(GovernanceError::ProposalNotFound)
    } else {
        store.after_step(
            id,
            store.proposals[id].resume_step(role_in(roles, who), new_cooling_off_seconds, now),
        )
    }
}

/// The emergency override: halting a proposal and resuming it.
pub struct HaltModule;

impl HaltModule {
    /// Halts a proposal on behalf of a principal holding `role`.
    ///
    /// Only an Admin may halt, and only a pending or approved proposal. The
    /// halted proposal remembers its status, the reason and the time.
    pub fn halt(proposal: Proposal, role: Option<GovernanceRole>, reason: String, now: u64) -> (r:
        Result<Proposal, GovernanceError>)
        requires
            proposal.wf(),
        ensures
            match proposal@.halt_step(role, reason@, now) {
                Ok(next) => r matches Ok(p) && p@ == next && p.wf(),
                Err(e) => r matches Err(f) && f == e,
            },
    {
        if !is_admin(role) {
            return Err(GovernanceError::Unauthorized);
        }
        if status_is_closed(proposal.status) {
            return Err(GovernanceError::InvalidStateTransition);
        }
        let mut next = proposal;
        next.pre_halt_status = Some(next.status);
        next.status = ProposalStatus::Halted;
        next.halt_reason = Some(reason);
        next.halted_at = Some(now);
        Ok(next)
    }

    /// Resumes a halted proposal on behalf of a principal holding `role`.
    ///
    /// Only an Admin may resume, only a halted proposal, and only with a
    /// valid cooling-off period. The proposal returns to the status it had
    /// before the halt, and its cooling-off period starts anew at `now`.
    pub fn resume(
        proposal: Proposal,
        role: Option<GovernanceRole>,
        new_cooling_off_seconds: u64,
        now: u64,
    ) -> (r: Result<Proposal, GovernanceError>)
        requires
            proposal.wf(),
        ensures
            match proposal@.resume_step(role, new_cooling_off_seconds, now) {
                Ok(next) => r matches Ok(p) && p@ == next && p.wf(),
                Err(e) => r matches Err(f) && f == e,
            },
    {
        if !is_admin(role) {
            return Err(GovernanceError::Unauthorized);
        }
        let before = match proposal.status {
            ProposalStatus::Halted => match proposal.pre_halt_status {
                Some(status) => status,
                None => {
                    return Err(GovernanceError::NotHalted);
                },
            },
            _ => {
                return Err(GovernanceError::NotHalted);
            },
        };
        match ValidationModule::validate_timelock(new_cooling_off_seconds) {
            Ok(_) => {},
            Err(e) => {
                return Err(e);
            },
        }
        let mut next = proposal;
        next.status = before;
        next.cooling_off_seconds = new_cooling_off_seconds;
        next.created_at = now;
        next.pre_halt_status = None;
        next.halt_reason = None;
        next.halted_at = None;
        Ok(next)
    }

    /// Halts the stored proposal `id` on behalf of `who` at `now`.
    /// A failure leaves the store unchanged.
    pub fn halt_proposal(
        store: &mut ProposalStore,
        roles: &RoleRegistry,
        id: u64,
        who: &Principal,
        reason: String,
        now: u64,
    ) -> (r: Result<(), GovernanceError>)
        requires
            old(store).wf(),
        ensures
            final(store).wf(),
            match halt_outcome(old(store)@, roles@, id, who@, reason@, now) {
                Ok(next) => r is Ok && final(store)@ == next,
                Err(e) => r matches Err(f) && f == e && final(store)@ == old(store)@,
            },
    {
        let current = match store.get(id) {
            Ok(p) => p,
            Err(e) => {
                return Err(e);
            },
        };
        let step = HaltModule::halt(current, roles.role_of(who), reason, now);
        store.commit(step)
    }

    /// Resumes the stored proposal `id` on behalf of `who` at `now`.
    /// A failure leaves the store unchanged.
    pub fn resume_proposal(
        store: &mut ProposalStore,
        roles: &RoleRegistry,
        id: u64,
        who: &Principal,
        new_cooling_off_seconds: u64,
        now: u64,
    ) -> (r: Result<(), GovernanceError>)
        requires
            old(store).wf(),
        ensures
            final(store).wf(),
            match resume_outcome(old(store)@, roles@, id, who@, new_cooling_off_seconds, now) {
                Ok(next) => r is Ok && final(store)@ == next,
                Err(e) => r matches Err(f) && f == e && final(store)@ == old(store)@,
            },
    {
        let current = match store.get(id) {
            Ok(p) => p,
            Err(e) => {
                return Err(e);
            },
        };
        let step = HaltModule::resume(current, roles.role_of(who), new_cooling_off_seconds, now);
        store.commit(step)
    }

    /// Whether the stored proposal `id` is halted.
    pub fn is_halted(store: &ProposalStore, id: u64) -> (r: Result<bool, GovernanceError>)
        requires
            store.wf(),
        ensures
            r == if store@.proposals.contains_key(id) {
                Ok::<bool, GovernanceError>(store@.proposals[id].status is Halted)
            } else {
                Err::<bool, GovernanceError>(GovernanceError::ProposalNotFound)
            },
    {
        match store.get(id) {
            Ok(p) => Ok(
                match p.status {
                    ProposalStatus::Halted => true,
                    _ => false,
                },
            ),
            Err(e) => Err(e),
        }
    }
}

} // verus!
