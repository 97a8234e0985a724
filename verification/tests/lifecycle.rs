use governance::approval::ApprovalModule;
use governance::error::GovernanceError;
use governance::halt::HaltModule;
use governance::manager::GovernanceManager;
use governance::principal::Principal;
use governance::proposal::ProposalStatus;
use governance::roles::{GovernanceRole, RoleRegistry};
use governance::store::ProposalStore;

fn principal(key: &str) -> Principal {
    Principal::new(key.to_string())
}

#[test]
fn test_proposal_lifecycle_with_validation() {
    let mut store = ProposalStore::new();
    let now = 0;

    let admin = principal("admin");
    let approver1 = principal("approver1");
    let approver2 = principal("approver2");
    let executor = principal("executor");
    let target_contract = principal("target");

    // Set up roles
    let mut roles = RoleRegistry::new();
    roles.set(admin.clone(), GovernanceRole::Admin);
    roles.set(approver1.clone(), GovernanceRole::Approver);
    roles.set(approver2.clone(), GovernanceRole::Approver);
    roles.set(executor.clone(), GovernanceRole::Executor);

    // Create proposal with valid parameters
    let mut approvers = Vec::new();
    approvers.push(approver1.clone());
    approvers.push(approver2.clone());

    let proposal_id = GovernanceManager::propose_upgrade(
        &mut store,
        &roles,
        &admin,
        "QmHash".to_string(),
        target_contract.clone(),
        "Test".to_string(),
        2,
        approvers,
        3600,
        now,
    )
    .unwrap();

    assert_eq!(proposal_id, 1);

    // Verify proposal was created
    let proposal = GovernanceManager::get_proposal(&store, proposal_id).unwrap();
    assert_eq!(proposal.status, ProposalStatus::Pending);
    assert_eq!(proposal.approvals_count, 0);
}

#[test]
fn test_halt_and_resume_workflow() {
    let mut store = ProposalStore::new();
    let mut now = 0;

    let admin = principal("admin");
    let approver1 = principal("approver1");
    let approver2 = principal("approver2");
    let target_contract = principal("target");

    // Set up roles
    let mut roles = RoleRegistry::new();
    roles.set(admin.clone(), GovernanceRole::Admin);
    roles.set(approver1.clone(), GovernanceRole::Approver);
    roles.set(approver2.clone(), GovernanceRole::Approver);

    // Create and approve proposal
    let mut approvers = Vec::new();
    approvers.push(approver1.clone());
    approvers.push(approver2.clone());

    let proposal_id = GovernanceManager::propose_upgrade(
        &mut store,
        &roles,
        &admin,
        "QmHash".to_string(),
        target_contract.clone(),
        "Test".to_string(),
        2,
        approvers,
        3600,
        now,
    )
    .unwrap();

    // Advance time past cooling-off period
    now = 3700;

    // Approve proposal
    GovernanceManager::approve_proposal(&mut store, &roles, proposal_id, &approver1, now).unwrap();
    GovernanceManager::approve_proposal(&mut store, &roles, proposal_id, &approver2, now).unwrap();

    // Verify approved
    let proposal = GovernanceManager::get_proposal(&store, proposal_id).unwrap();
    assert_eq!(proposal.status, ProposalStatus::Approved);

    // Halt the proposal
    HaltModule::halt_proposal(
        &mut store,
        &roles,
        proposal_id,
        &admin,
        "Security".to_string(),
        now,
    )
    .unwrap();

    // Verify halted
    let proposal = GovernanceManager::get_proposal(&store, proposal_id).unwrap();
    assert_eq!(proposal.status, ProposalStatus::Halted);
    assert!(HaltModule::is_halted(&store, proposal_id).unwrap());

    // Resume the proposal
    HaltModule::resume_proposal(&mut store, &roles, proposal_id, &admin, 3600, now).unwrap();

    // Verify resumed to approved status
    let proposal = GovernanceManager::get_proposal(&store, proposal_id).unwrap();
    assert_eq!(proposal.status, ProposalStatus::Approved);
    assert!(!HaltModule::is_halted(&store, proposal_id).unwrap());
}

#[test]
fn test_cooling_off_period_enforcement() {
    let mut store = ProposalStore::new();
    let mut now = 0;

    let admin = principal("admin");
    let approver1 = principal("approver1");
    let target_contract = principal("target");

    // Set up roles
    let mut roles = RoleRegistry::new();
    roles.set(admin.clone(), GovernanceRole::Admin);
    roles.set(approver1.clone(), GovernanceRole::Approver);

    // Create proposal
    let mut approvers = Vec::new();
    approvers.push(approver1.clone());

    let proposal_id = GovernanceManager::propose_upgrade(
        &mut store,
        &roles,
        &admin,
        "QmHash".to_string(),
        target_contract.clone(),
        "Test".to_string(),
        1,
        approvers,
        3600,
        now,
    )
    .unwrap();

    // Try to approve immediately (should fail due to cooling-off)
    let result =
        GovernanceManager::approve_proposal(&mut store, &roles, proposal_id, &approver1, now);
    assert!(result.is_err());

    // Advance time past cooling-off period
    now = 3700;

    // Now approval should succeed
    let result =
        GovernanceManager::approve_proposal(&mut store, &roles, proposal_id, &approver1, now);
    assert!(result.is_ok());
}

#[test]
fn test_approval_revocation() {
    let mut store = ProposalStore::new();
    let mut now = 0;

    let admin = principal("admin");
    let approver1 = principal("approver1");
    let approver2 = principal("approver2");
    let target_contract = principal("target");

    // Set up roles
    let mut roles = RoleRegistry::new();
    roles.set(admin.clone(), GovernanceRole::Admin);
    roles.set(approver1.clone(), GovernanceRole::Approver);
    roles.set(approver2.clone(), GovernanceRole::Approver);

    // Create proposal
    let mut approvers = Vec::new();
    approvers.push(approver1.clone());
    approvers.push(approver2.clone());

    let proposal_id = GovernanceManager::propose_upgrade(
        &mut store,
        &roles,
        &admin,
        "QmHash".to_string(),
        target_contract.clone(),
        "Test".to_string(),
        2,
        approvers,
        3600,
        now,
    )
    .unwrap();

    // Advance time past cooling-off period
    now = 3700;

    // Approve with first approver
    GovernanceManager::approve_proposal(&mut store, &roles, proposal_id, &approver1, now).unwrap();

    // Verify approval count
    let proposal = GovernanceManager::get_proposal(&store, proposal_id).unwrap();
    assert_eq!(proposal.approvals_count, 1);

    // Revoke approval
    ApprovalModule::revoke_approval(&mut store, &roles, proposal_id, &approver1).unwrap();

    // Verify approval count decreased
    let proposal = GovernanceManager::get_proposal(&store, proposal_id).unwrap();
    assert_eq!(proposal.approvals_count, 0);
}

/// A store with one proposal by `admin`, created at time 0 with a cooling-off
/// period of an hour, for `approver1` and `approver2`.
fn two_approver_setup(threshold: u32) -> (ProposalStore, RoleRegistry, u64) {
    let mut store = ProposalStore::new();
    let mut roles = RoleRegistry::new();
    roles.set(principal("admin"), GovernanceRole::Admin);
    roles.set(principal("approver1"), GovernanceRole::Approver);
    roles.set(principal("approver2"), GovernanceRole::Approver);
    roles.set(principal("executor"), GovernanceRole::Executor);
    let id = GovernanceManager::propose_upgrade(
        &mut store,
        &roles,
        &principal("admin"),
        "QmHash".to_string(),
        principal("target"),
        "Test".to_string(),
        threshold,
        vec![principal("approver1"), principal("approver2")],
        3600,
        0,
    )
    .unwrap();
    (store, roles, id)
}

#[test]
fn approvals_reach_threshold_after_cooling_off() {
    let (mut store, roles, id) = two_approver_setup(2);
    let approver1 = principal("approver1");
    let approver2 = principal("approver2");

    assert_eq!(
        ApprovalModule::approve_proposal(&mut store, &roles, id, &approver1, 0),
        Err(GovernanceError::CoolingOffNotElapsed)
    );
    let untouched = GovernanceManager::get_proposal(&store, id).unwrap();
    assert_eq!(untouched.approvals_count, 0);
    assert!(untouched.approved_by.is_empty());

    assert_eq!(
        ApprovalModule::approve_proposal(&mut store, &roles, id, &approver1, 3700),
        Ok(())
    );
    let after_first = GovernanceManager::get_proposal(&store, id).unwrap();
    assert_eq!(after_first.approvals_count, 1);
    assert_eq!(after_first.status, ProposalStatus::Pending);
    assert_eq!(after_first.approved_by, vec![approver1.clone()]);

    assert_eq!(
        ApprovalModule::approve_proposal(&mut store, &roles, id, &approver2, 3700),
        Ok(())
    );
    let after_second = GovernanceManager::get_proposal(&store, id).unwrap();
    assert_eq!(after_second.approvals_count, 2);
    assert_eq!(after_second.status, ProposalStatus::Approved);
    assert_eq!(after_second.approved_by, vec![approver1, approver2]);
}

#[test]
fn halt_records_reason_and_resume_clears_it() {
    let (mut store, roles, id) = two_approver_setup(2);
    let admin = principal("admin");
    ApprovalModule::approve_proposal(&mut store, &roles, id, &principal("approver1"), 3700)
        .unwrap();
    ApprovalModule::approve_proposal(&mut store, &roles, id, &principal("approver2"), 3700)
        .unwrap();

    HaltModule::halt_proposal(&mut store, &roles, id, &admin, "Security".to_string(), 3800)
        .unwrap();
    let halted = GovernanceManager::get_proposal(&store, id).unwrap();
    assert_eq!(halted.status, ProposalStatus::Halted);
    assert_eq!(halted.pre_halt_status, Some(ProposalStatus::Approved));
    assert_eq!(halted.halt_reason, Some("Security".to_string()));
    assert_eq!(halted.halted_at, Some(3800));
    assert_eq!(halted.approvals_count, 2);
    assert_eq!(HaltModule::is_halted(&store, id), Ok(true));

    HaltModule::resume_proposal(&mut store, &roles, id, &admin, 3600, 5000).unwrap();
    let resumed = GovernanceManager::get_proposal(&store, id).unwrap();
    assert_eq!(resumed.status, ProposalStatus::Approved);
    assert_eq!(resumed.pre_halt_status, None);
    assert_eq!(resumed.halt_reason, None);
    assert_eq!(resumed.halted_at, None);
    assert_eq!(resumed.created_at, 5000);
    assert_eq!(resumed.cooling_off_seconds, 3600);
    assert_eq!(resumed.approvals_count, 2);
    assert_eq!(HaltModule::is_halted(&store, id), Ok(false));
}

#[test]
fn revocation_allows_a_new_approval() {
    let (mut store, roles, id) = two_approver_setup(2);
    let approver1 = principal("approver1");

    ApprovalModule::approve_proposal(&mut store, &roles, id, &approver1, 3700).unwrap();
    assert_eq!(
        ApprovalModule::approve_proposal(&mut store, &roles, id, &approver1, 3700),
        Err(GovernanceError::AlreadyApproved)
    );
    ApprovalModule::revoke_approval(&mut store, &roles, id, &approver1).unwrap();
    let revoked = GovernanceManager::get_proposal(&store, id).unwrap();
    assert_eq!(revoked.approvals_count, 0);
    assert_eq!(revoked.status, ProposalStatus::Pending);
    assert!(revoked.approved_by.is_empty());

    assert_eq!(
        ApprovalModule::approve_proposal(&mut store, &roles, id, &approver1, 3700),
        Ok(())
    );
    let again = GovernanceManager::get_proposal(&store, id).unwrap();
    assert_eq!(again.approvals_count, 1);
    assert_eq!(again.approved_by, vec![approver1]);
}

#[test]
fn cooling_off_boundary_is_inclusive() {
    let (mut store, roles, id) = two_approver_setup(2);
    let approver1 = principal("approver1");
    assert_eq!(
        ApprovalModule::approve_proposal(&mut store, &roles, id, &approver1, 3599),
        Err(GovernanceError::CoolingOffNotElapsed)
    );
    assert_eq!(
        ApprovalModule::approve_proposal(&mut store, &roles, id, &approver1, 3600),
        Ok(())
    );
}

#[test]
fn revocation_below_threshold_reverts_to_pending() {
    let (mut store, roles, id) = two_approver_setup(1);
    let approver1 = principal("approver1");
    let approver2 = principal("approver2");

    ApprovalModule::approve_proposal(&mut store, &roles, id, &approver1, 3600).unwrap();
    assert_eq!(
        GovernanceManager::get_proposal(&store, id).unwrap().status,
        ProposalStatus::Approved
    );
    // A further approval is accepted and leaves the status as it is.
    ApprovalModule::approve_proposal(&mut store, &roles, id, &approver2, 3600).unwrap();
    let both = GovernanceManager::get_proposal(&store, id).unwrap();
    assert_eq!(both.status, ProposalStatus::Approved);
    assert_eq!(both.approvals_count, 2);

    // Still at the threshold after one revocation.
    ApprovalModule::revoke_approval(&mut store, &roles, id, &approver1).unwrap();
    let one = GovernanceManager::get_proposal(&store, id).unwrap();
    assert_eq!(one.status, ProposalStatus::Approved);
    assert_eq!(one.approvals_count, 1);
    assert_eq!(one.approved_by, vec![approver2.clone()]);

    ApprovalModule::revoke_approval(&mut store, &roles, id, &approver2).unwrap();
    let none = GovernanceManager::get_proposal(&store, id).unwrap();
    assert_eq!(none.status, ProposalStatus::Pending);
    assert_eq!(none.approvals_count, 0);
}

#[test]
fn resume_restarts_the_cooling_off_period() {
    let (mut store, roles, id) = two_approver_setup(2);
    let admin = principal("admin");
    let approver1 = principal("approver1");

    // The first period has long passed when the proposal is halted.
    HaltModule::halt_proposal(&mut store, &roles, id, &admin, "Audit".to_string(), 10_000)
        .unwrap();
    assert_eq!(
        ApprovalModule::approve_proposal(&mut store, &roles, id, &approver1, 10_000),
        Err(GovernanceError::InvalidStateTransition)
    );
    assert_eq!(
        ApprovalModule::revoke_approval(&mut store, &roles, id, &approver1),
        Err(GovernanceError::InvalidStateTransition)
    );
    HaltModule::resume_proposal(&mut store, &roles, id, &admin, 7200, 20_000).unwrap();
    assert_eq!(
        GovernanceManager::get_proposal(&store, id).unwrap().status,
        ProposalStatus::Pending
    );
    assert_eq!(
        ApprovalModule::approve_proposal(&mut store, &roles, id, &approver1, 27_199),
        Err(GovernanceError::CoolingOffNotElapsed)
    );
    assert_eq!(
        ApprovalModule::approve_proposal(&mut store, &roles, id, &approver1, 27_200),
        Ok(())
    );
}

#[test]
fn propose_reports_the_first_failing_check() {
    let mut store = ProposalStore::new();
    let mut roles = RoleRegistry::new();
    let admin = principal("admin");
    let approver = principal("approver");
    roles.set(admin.clone(), GovernanceRole::Admin);
    roles.set(approver.clone(), GovernanceRole::Approver);

    let propose = |store: &mut ProposalStore,
                   who: &Principal,
                   hash: &str,
                   threshold: u32,
                   approvers: Vec<Principal>,
                   cooling: u64| {
        GovernanceManager::propose_upgrade(
            store,
            &roles,
            who,
            hash.to_string(),
            principal("target"),
            "Test".to_string(),
            threshold,
            approvers,
            cooling,
            0,
        )
    };
    let twice = vec![approver.clone(), approver.clone()];
    let once = vec![approver.clone()];

    // Every parameter is wrong: authorization is checked first.
    assert_eq!(
        propose(&mut store, &approver, "", 0, twice.clone(), 0),
        Err(GovernanceError::Unauthorized)
    );
    assert_eq!(
        propose(&mut store, &principal("stranger"), "QmHash", 1, once.clone(), 3600),
        Err(GovernanceError::Unauthorized)
    );
    assert_eq!(
        propose(&mut store, &admin, "", 0, twice.clone(), 0),
        Err(GovernanceError::InvalidHash)
    );
    assert_eq!(
        propose(&mut store, &admin, "QmHash", 0, twice.clone(), 0),
        Err(GovernanceError::DuplicateApprover)
    );
    assert_eq!(
        propose(&mut store, &admin, "QmHash", 0, once.clone(), 0),
        Err(GovernanceError::InvalidThreshold)
    );
    assert_eq!(
        propose(&mut store, &admin, "QmHash", 2, once.clone(), 0),
        Err(GovernanceError::InvalidThreshold)
    );
    assert_eq!(
        propose(&mut store, &admin, "QmHash", 1, Vec::new(), 3600),
        Err(GovernanceError::InvalidThreshold)
    );
    assert_eq!(
        propose(&mut store, &admin, "QmHash", 1, once.clone(), 3599),
        Err(GovernanceError::InvalidTimelock)
    );

    // No failure has used up an identifier or left a proposal behind.
    assert_eq!(
        GovernanceManager::get_proposal(&store, 1),
        Err(GovernanceError::ProposalNotFound)
    );
    assert_eq!(propose(&mut store, &admin, "QmHash", 1, once.clone(), 3600), Ok(1));
    assert_eq!(propose(&mut store, &admin, "QmOther", 1, once.clone(), 7200), Ok(2));

    let first = GovernanceManager::get_proposal(&store, 1).unwrap();
    assert_eq!(first.id, 1);
    assert_eq!(first.content_hash, "QmHash");
    assert_eq!(first.target, principal("target"));
    assert_eq!(first.description, "Test");
    assert_eq!(first.threshold, 1);
    assert_eq!(first.approvers, once);
    assert!(first.approved_by.is_empty());
    assert_eq!(first.created_at, 0);
    assert_eq!(first.cooling_off_seconds, 3600);
    assert_eq!(first.halt_reason, None);
    assert_eq!(first.halted_at, None);
    assert_eq!(first.pre_halt_status, None);
    let second = GovernanceManager::get_proposal(&store, 2).unwrap();
    assert_eq!(second.id, 2);
    assert_eq!(second.content_hash, "QmOther");
    assert_eq!(second.cooling_off_seconds, 7200);
}

#[test]
fn approval_checks_run_in_order() {
    let (mut store, roles, id) = two_approver_setup(2);
    let approver1 = principal("approver1");

    assert_eq!(
        ApprovalModule::approve_proposal(&mut store, &roles, 99, &approver1, 3700),
        Err(GovernanceError::ProposalNotFound)
    );
    // Holds a voting role, but is not among the proposal's approvers.
    assert_eq!(
        ApprovalModule::approve_proposal(&mut store, &roles, id, &principal("admin"), 0),
        Err(GovernanceError::Unauthorized)
    );
    // Holds no voting role.
    assert_eq!(
        ApprovalModule::approve_proposal(&mut store, &roles, id, &principal("executor"), 3700),
        Err(GovernanceError::Unauthorized)
    );
    assert_eq!(
        ApprovalModule::approve_proposal(&mut store, &roles, id, &principal("stranger"), 3700),
        Err(GovernanceError::Unauthorized)
    );
    assert_eq!(
        ApprovalModule::revoke_approval(&mut store, &roles, 99, &approver1),
        Err(GovernanceError::ProposalNotFound)
    );
    assert_eq!(
        ApprovalModule::revoke_approval(&mut store, &roles, id, &principal("executor")),
        Err(GovernanceError::Unauthorized)
    );
    assert_eq!(
        ApprovalModule::revoke_approval(&mut store, &roles, id, &approver1),
        Err(GovernanceError::ApprovalNotFound)
    );
    let untouched = GovernanceManager::get_proposal(&store, id).unwrap();
    assert_eq!(untouched.approvals_count, 0);
    assert_eq!(untouched.status, ProposalStatus::Pending);
}

#[test]
fn an_approver_listed_without_a_voting_role_is_refused() {
    let mut store = ProposalStore::new();
    let mut roles = RoleRegistry::new();
    roles.set(principal("admin"), GovernanceRole::Admin);
    roles.set(principal("listed"), GovernanceRole::Executor);
    let id = GovernanceManager::propose_upgrade(
        &mut store,
        &roles,
        &principal("admin"),
        "QmHash".to_string(),
        principal("target"),
        "Test".to_string(),
        1,
        vec![principal("listed"), principal("admin")],
        3600,
        0,
    )
    .unwrap();
    assert_eq!(
        ApprovalModule::approve_proposal(&mut store, &roles, id, &principal("listed"), 3600),
        Err(GovernanceError::Unauthorized)
    );
    // An Admin who is listed may approve.
    assert_eq!(
        ApprovalModule::approve_proposal(&mut store, &roles, id, &principal("admin"), 3600),
        Ok(())
    );
}

#[test]
fn halt_and_resume_checks() {
    let (mut store, roles, id) = two_approver_setup(2);
    let admin = principal("admin");
    let approver1 = principal("approver1");
    let reason = || "Security".to_string();

    assert_eq!(
        HaltModule::halt_proposal(&mut store, &roles, 99, &admin, reason(), 0),
        Err(GovernanceError::ProposalNotFound)
    );
    assert_eq!(
        HaltModule::halt_proposal(&mut store, &roles, id, &approver1, reason(), 0),
        Err(GovernanceError::Unauthorized)
    );
    assert_eq!(
        HaltModule::resume_proposal(&mut store, &roles, 99, &admin, 3600, 0),
        Err(GovernanceError::ProposalNotFound)
    );
    assert_eq!(
        HaltModule::resume_proposal(&mut store, &roles, id, &approver1, 3600, 0),
        Err(GovernanceError::Unauthorized)
    );
    assert_eq!(
        HaltModule::resume_proposal(&mut store, &roles, id, &admin, 3600, 0),
        Err(GovernanceError::NotHalted)
    );
    assert_eq!(
        HaltModule::is_halted(&store, 99),
        Err(GovernanceError::ProposalNotFound)
    );

    // Halting a pending proposal succeeds; halting it again fails.
    assert_eq!(
        HaltModule::halt_proposal(&mut store, &roles, id, &admin, reason(), 100),
        Ok(())
    );
    assert_eq!(
        HaltModule::halt_proposal(&mut store, &roles, id, &admin, reason(), 200),
        Err(GovernanceError::InvalidStateTransition)
    );
    let halted = GovernanceManager::get_proposal(&store, id).unwrap();
    assert_eq!(halted.halted_at, Some(100));
    assert_eq!(halted.pre_halt_status, Some(ProposalStatus::Pending));

    // A halted proposal with an invalid period: the state is checked first.
    assert_eq!(
        HaltModule::resume_proposal(&mut store, &roles, id, &admin, 3599, 300),
        Err(GovernanceError::InvalidTimelock)
    );
    assert_eq!(HaltModule::is_halted(&store, id), Ok(true));
    assert_eq!(
        HaltModule::resume_proposal(&mut store, &roles, id, &admin, 3600, 300),
        Ok(())
    );
    assert_eq!(
        GovernanceManager::get_proposal(&store, id).unwrap().status,
        ProposalStatus::Pending
    );
}
