use vstd::prelude::*;
use crate::approval::{approve_outcome, revoke_outcome};
use crate::error::GovernanceError;
use crate::halt::{halt_outcome, resume_outcome};
use crate::manager::{fresh_proposal, propose_check, with_new_proposal};
use crate::proposal::{is_closed, lemma_room_for_one_more, ProposalStatus, ProposalView};
use crate::roles::GovernanceRole;
use crate::store::StoreView;
use crate::validation::MIN_COOLING_OFF_SECONDS;

verus! {

/// An Admin's proposal with a non-empty content identifier, distinct
/// approvers, a threshold between one and their number and a cooling-off
/// period of at least an hour passes every check, and the proposal created
/// is pending, holds no approvals, is well formed, and stands in the store
/// under the identifier returned.
pub proof fn law_valid_proposal_is_created(
    store: StoreView,
    content_hash: Seq<char>,
    target: Seq<char>,
    description: Seq<char>,
    threshold: u32,
    approvers: Seq<Seq<char>>,
    cooling_off_seconds: u64,
    now: u64,
)
    requires
        store.well_formed(),
        store.next_id < u64::MAX,
        content_hash.len() > 0,
        approvers.no_duplicates(),
        approvers.len() <= u32::MAX,
        1 <= threshold <= approvers.len(),
        cooling_off_seconds >= MIN_COOLING_OFF_SECONDS,
    ensures
        propose_check(
            Some(GovernanceRole::Admin),
            content_hash,
            threshold,
            approvers,
            cooling_off_seconds,
        ) is Ok,
        ({
            let created = fresh_proposal(
                store.next_id,
                content_hash,
                target,
                description,
                threshold,
                approvers,
                cooling_off_seconds,
                now,
            );
            &&& created.status is Pending
            &&& created.approvals_count == 0
            &&& created.approved_by.len() == 0
            &&& created.well_formed()
            &&& with_new_proposal(store, created).proposals[store.next_id] == created
            &&& with_new_proposal(store, created).well_formed()
        }),
{
    let created = fresh_proposal(
        store.next_id,
        content_hash,
        target,
        description,
        threshold,
        approvers,
        cooling_off_seconds,
        now,
    );
    let after = with_new_proposal(store, created);
    assert forall|id: u64| #[trigger] after.proposals.contains_key(id) implies 1 <= id
        < after.next_id && after.proposals[id].id == id && after.proposals[id].well_formed() by {
        if id != store.next_id {
            assert(store.proposals.contains_key(id));
        }
    }
}

/// A successful approval keeps the proposal well formed; in particular the
/// count of approvals stays equal to the number of principals who approved.
pub proof fn law_approval_keeps_invariant(
    proposal: ProposalView,
    who: Seq<char>,
    role: Option<GovernanceRole>,
    now: u64,
)
    requires
        proposal.well_formed(),
        proposal.approve_step(who, role, now) is Ok,
    ensures
        proposal.approve_step(who, role, now).unwrap().well_formed(),
        proposal.approve_step(who, role, now).unwrap().approvals_count == proposal.approve_step(
            who,
            role,
            now,
        ).unwrap().approved_by.len(),
        proposal.approve_step(who, role, now).unwrap().approvals_count == proposal.approvals_count
            + 1,
{
    let next = proposal.with_approval(who);
    lemma_room_for_one_more(proposal.approved_by, proposal.approvers, who);
    assert forall|i: int| 0 <= i < next.approved_by.len() implies next.approvers.contains(
        #[trigger] next.approved_by[i],
    ) by {
        if i < proposal.approved_by.len() {
            assert(next.approved_by[i] == proposal.approved_by[i]);
        }
    }
}

/// A successful revocation keeps the proposal well formed; in particular
/// the count of approvals stays equal to the number of principals who
/// approved, and the principal who revoked is no longer among them.
pub proof fn law_revocation_keeps_invariant(
    proposal: ProposalView,
    who: Seq<char>,
    role: Option<GovernanceRole>,
)
    requires
        proposal.well_formed(),
        proposal.revoke_step(who, role) is Ok,
    ensures
        proposal.revoke_step(who, role).unwrap().well_formed(),
        proposal.revoke_step(who, role).unwrap().approvals_count == proposal.revoke_step(
            who,
            role,
        ).unwrap().approved_by.len(),
        proposal.revoke_step(who, role).unwrap().approvals_count == proposal.approvals_count - 1,
        !proposal.revoke_step(who, role).unwrap().approved_by.contains(who),
{
    let place = proposal.approved_by.index_of(who);
    let after = proposal.approved_by.remove(place);
    assert forall|i: int| 0 <= i < after.len() implies proposal.approvers.contains(
        #[trigger] after[i],
    ) && after[i] != who by {
        let a = if i < place { i } else { i + 1 };
        assert(after[i] == proposal.approved_by[a]);
    }
    assert forall|i: int, j: int|
        0 <= i < after.len() && 0 <= j < after.len() && i != j implies after[i] != after[j] by {
        let a = if i < place { i } else { i + 1 };
        let b = if j < place { j } else { j + 1 };
        assert(after[i] == proposal.approved_by[a]);
        assert(after[j] == proposal.approved_by[b]);
    }
}

/// A successful halt and a successful resume keep the proposal well formed
/// and leave its approvals as they were.
pub proof fn law_halt_and_resume_keep_invariant(
    proposal: ProposalView,
    role: Option<GovernanceRole>,
    reason: Seq<char>,
    new_cooling_off_seconds: u64,
    now: u64,
)
    requires
        proposal.well_formed(),
    ensures
        proposal.halt_step(role, reason, now) matches Ok(next) ==> next.well_formed()
            && next.approved_by == proposal.approved_by && next.approvals_count
            == proposal.approvals_count,
        proposal.resume_step(role, new_cooling_off_seconds, now) matches Ok(next)
            ==> next.well_formed() && next.approved_by == proposal.approved_by
            && next.approvals_count == proposal.approvals_count,
{
}

/// On a proposal that is open to approvals, for a principal who may vote:
/// an approval before the cooling-off period has passed fails with
/// `CoolingOffNotElapsed`, and one at its end or later, by a principal who
/// has not approved yet, succeeds.
pub proof fn law_cooling_off_gates_approval(
    proposal: ProposalView,
    who: Seq<char>,
    role: Option<GovernanceRole>,
    now: u64,
)
    requires
        proposal.may_vote(who, role),
        !is_closed(proposal.status),
    ensures
        now < proposal.created_at + proposal.cooling_off_seconds ==> proposal.approve_step(
            who,
            role,
            now,
        ) == Err::<ProposalView, GovernanceError>(GovernanceError::CoolingOffNotElapsed),
        now >= proposal.created_at + proposal.cooling_off_seconds && !proposal.approved_by.contains(
            who,
        ) ==> proposal.approve_step(who, role, now) is Ok,
{
}

/// After a successful approval or revocation the proposal is approved
/// exactly when its approvals have reached the threshold, and pending
/// otherwise.
pub proof fn law_status_follows_threshold(
    proposal: ProposalView,
    who: Seq<char>,
    role: Option<GovernanceRole>,
    now: u64,
)
    requires
        proposal.well_formed(),
    ensures
        proposal.approve_step(who, role, now) matches Ok(next) ==> next.status == if next.approvals_count
            >= next.threshold {
            ProposalStatus::Approved
        } else {
            ProposalStatus::Pending
        },
        proposal.revoke_step(who, role) matches Ok(next) ==> next.status == if next.approvals_count
            >= next.threshold {
            ProposalStatus::Approved
        } else {
            ProposalStatus::Pending
        },
{
    if proposal.approve_step(who, role, now) is Ok {
        lemma_room_for_one_more(proposal.approved_by, proposal.approvers, who);
    }
}

/// For an Admin, halting a pending or approved proposal succeeds: the
/// proposal becomes halted and remembers the status it had. Halting a
/// halted, executed or rejected proposal fails.
pub proof fn law_halt_by_admin(proposal: ProposalView, reason: Seq<char>, now: u64)
    ensures
        proposal.status is Pending || proposal.status is Approved ==> {
            &&& proposal.halt_step(Some(GovernanceRole::Admin), reason, now) matches Ok(next)
            &&& next.status is Halted
            &&& next.pre_halt_status == Some(proposal.status)
            &&& next.halt_reason == Some(reason)
            &&& next.halted_at == Some(now)
        },
        is_closed(proposal.status) ==> proposal.halt_step(
            Some(GovernanceRole::Admin),
            reason,
            now,
        ) == Err::<ProposalView, GovernanceError>(GovernanceError::InvalidStateTransition),
{
}

/// For an Admin and a valid new cooling-off period, resuming a halted
/// proposal at `now` succeeds: the proposal returns to the status it had
/// before the halt, and an approval is refused until the whole new period
/// has passed since `now`, whenever the proposal was created.
pub proof fn law_resume_restarts_cooling_off(
    proposal: ProposalView,
    new_cooling_off_seconds: u64,
    now: u64,
    who: Seq<char>,
    role: Option<GovernanceRole>,
    later: u64,
)
    requires
        proposal.well_formed(),
        proposal.status is Halted,
        new_cooling_off_seconds >= MIN_COOLING_OFF_SECONDS,
    ensures
        ({
            &&& proposal.resume_step(
                Some(GovernanceRole::Admin),
                new_cooling_off_seconds,
                now,
            ) matches Ok(next)
            &&& next.status == proposal.pre_halt_status.unwrap()
            &&& next.created_at == now
            &&& next.cooling_off_seconds == new_cooling_off_seconds
            &&& next.halt_reason is None
            &&& next.halted_at is None
            &&& next.pre_halt_status is None
            &&& next.may_vote(who, role) && later < now + new_cooling_off_seconds
                ==> next.approve_step(who, role, later) == Err::<ProposalView, GovernanceError>(
                GovernanceError::CoolingOffNotElapsed,
            )
        }),
{
}

/// Halting an open proposal and resuming it gives back the status it had.
pub proof fn law_halt_then_resume_restores_status(
    proposal: ProposalView,
    reason: Seq<char>,
    halted_at: u64,
    new_cooling_off_seconds: u64,
    resumed_at: u64,
)
    requires
        !is_closed(proposal.status),
        new_cooling_off_seconds >= MIN_COOLING_OFF_SECONDS,
    ensures
        ({
            &&& proposal.halt_step(Some(GovernanceRole::Admin), reason, halted_at) matches Ok(
                stopped,
            )
            &&& stopped.resume_step(
                Some(GovernanceRole::Admin),
                new_cooling_off_seconds,
                resumed_at,
            ) matches Ok(next)
            &&& next.status == proposal.status
            &&& next.approved_by == proposal.approved_by
            &&& next.approvals_count == proposal.approvals_count
        }),
{
}

/// A step on a stored proposal keeps the store well formed, where the step
/// keeps the proposal well formed and under its identifier.
pub proof fn law_step_keeps_store_invariant(
    store: StoreView,
    id: u64,
    step: Result<ProposalView, GovernanceError>,
)
    requires
        store.well_formed(),
        store.proposals.contains_key(id),
        step matches Ok(next) ==> next.well_formed() && next.id == id,
    ensures
        store.after_step(id, step) matches Ok(after) ==> after.well_formed() && after.next_id
            == store.next_id && after.proposals.dom() == store.proposals.dom(),
{
    if let Ok(next) = step {
        let after = store.with_proposal(id, next);
        assert forall|k: u64| #[trigger] after.proposals.contains_key(k) implies 1 <= k
            < after.next_id && after.proposals[k].id == k && after.proposals[k].well_formed() by {
            if k != id {
                assert(store.proposals.contains_key(k));
            }
        }
        assert(after.proposals.dom() =~= store.proposals.dom());
    }
}

/// Every operation that succeeds on a well-formed store leaves it well
/// formed: each proposal it holds still counts exactly the principals who
/// approved it, and no proposal appears or disappears.
pub proof fn law_operations_keep_store_invariant(
    store: StoreView,
    roles: Map<Seq<char>, GovernanceRole>,
    id: u64,
    who: Seq<char>,
    reason: Seq<char>,
    new_cooling_off_seconds: u64,
    now: u64,
)
    requires
        store.well_formed(),
    ensures
        approve_outcome(store, roles, id, who, now) matches Ok(after) ==> counts_hold(store, after),
        revoke_outcome(store, roles, id, who) matches Ok(after) ==> counts_hold(store, after),
        halt_outcome(store, roles, id, who, reason, now) matches Ok(after) ==> counts_hold(
            store,
            after,
        ),
        resume_outcome(store, roles, id, who, new_cooling_off_seconds, now) matches Ok(after)
            ==> counts_hold(store, after),
{
    if store.proposals.contains_key(id) {
        let current = store.proposals[id];
        let role = crate::roles::role_in(roles, who);
        let approved = current.approve_step(who, role, now);
        if approved is Ok {
            law_approval_keeps_invariant(current, who, role, now);
        }
        law_step_keeps_store_invariant(store, id, approved);
        let revoked = current.revoke_step(who, role);
        if revoked is Ok {
            law_revocation_keeps_invariant(current, who, role);
        }
        law_step_keeps_store_invariant(store, id, revoked);
        law_halt_and_resume_keep_invariant(current, role, reason, new_cooling_off_seconds, now);
        law_step_keeps_store_invariant(store, id, current.halt_step(role, reason, now));
        law_step_keeps_store_invariant(
            store,
            id,
            current.resume_step(role, new_cooling_off_seconds, now),
        );
    }
}

/// What holds of a store `after` an operation on the store `before`: it is
/// well formed, holds the same proposals, hands out the same identifier
/// next, and the count of every proposal equals the number of principals
/// who approved it.
pub open spec fn counts_hold(before: StoreView, after: StoreView) -> bool {
    &&& after.well_formed()
    &&& after.next_id == before.next_id
    &&& after.proposals.dom() == before.proposals.dom()
    &&& forall|k: u64| #[trigger]
        after.proposals.contains_key(k) ==> after.proposals[k].approvals_count
            == after.proposals[k].approved_by.len()
}

} // verus!
