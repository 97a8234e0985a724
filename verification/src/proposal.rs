use vstd::prelude::*;
use vstd::seq_lib::*;
use vstd::set_lib::*;
use crate::error::GovernanceError;
use crate::principal::{contains_principal, duplicate_principals, keys_of, Principal};
use crate::roles::GovernanceRole;
use crate::validation::{ValidationModule, MIN_COOLING_OFF_SECONDS};

verus! {

/// Where a proposal stands in its lifecycle.
#[derive(Clone, Copy, Debug, PartialEq, Eq, Structural)]
pub enum ProposalStatus {
    Pending,
    Approved,
    Halted,
    Executed,
    Rejected,
}

/// A request for a governed change.
#[derive(Clone, Debug, PartialEq, Eq)]
pub struct Proposal {
    pub id: u64,
    pub content_hash: String,
    pub target: Principal,
    pub description: String,
    pub threshold: u32,
    pub approvers: Vec<Principal>,
    pub approved_by: Vec<Principal>,
    pub approvals_count: u32,
    pub status: ProposalStatus,
    pub created_at: u64,
    pub cooling_off_seconds: u64,
    pub halt_reason: Option<String>,
    pub halted_at: Option<u64>,
    pub pre_halt_status: Option<ProposalStatus>,
}

/// The mathematical value of a proposal: principals and texts as sequences
/// of characters, lists as sequences.
pub struct ProposalView {
    pub id: u64,
    pub content_hash: Seq<char>,
    pub target: Seq<char>,
    pub description: Seq<char>,
    pub threshold: u32,
    pub approvers: Seq<Seq<char>>,
    pub approved_by: Seq<Seq<char>>,
    pub approvals_count: u32,
    pub status: ProposalStatus,
    pub created_at: u64,
    pub cooling_off_seconds: u64,
    pub halt_reason: Option<Seq<char>>,
    pub halted_at: Option<u64>,
    pub pre_halt_status: Option<ProposalStatus>,
}

/// The view of an optional text.
pub open spec fn text_of(text: Option<String>) -> Option<Seq<char>> {
    match text {
        Some(t) => Some(t@),
        None => None,
    }
}

impl View for Proposal {
    type V = ProposalView;

    open spec fn view(&self) -> ProposalView {
        ProposalView {
            id: self.id,
            content_hash: self.content_hash@,
            target: self.target@,
            description: self.description@,
            threshold: self.threshold,
            approvers: keys_of(self.approvers@),
            approved_by: keys_of(self.approved_by@),
            approvals_count: self.approvals_count,
            status: self.status,
            created_at: self.created_at,
            cooling_off_seconds: self.cooling_off_seconds,
            halt_reason: text_of(self.halt_reason),
            halted_at: self.halted_at,
            pre_halt_status: self.pre_halt_status,
        }
    }
}

/// Whether `status` admits neither approval, revocation nor halt.
pub open spec fn is_closed(status: ProposalStatus) -> bool {
    status is Halted || status is Executed || status is Rejected
}

/// Whether a proposal in `status` holding `count` approvals agrees with its
/// `threshold`: approved exactly when the threshold is reached.
pub open spec fn status_matches_count(status: ProposalStatus, count: u32, threshold: u32) -> bool {
    &&& status is Pending ==> count < threshold
    &&& status is Approved ==> count >= threshold
}

impl ProposalView {
    /// The invariant of a proposal.
    pub open spec fn well_formed(self) -> bool {
        &&& self.content_hash.len() > 0
        &&& self.approvers.no_duplicates()
        &&& self.approvers.len() <= u32::MAX
        &&& 1 <= self.threshold <= self.approvers.len()
        &&& self.approved_by.no_duplicates()
        &&& forall|i: int|
            0 <= i < self.approved_by.len() ==> self.approvers.contains(
                #[trigger] self.approved_by[i],
            )
        &&& self.approvals_count == self.approved_by.len()
        &&& self.cooling_off_seconds >= MIN_COOLING_OFF_SECONDS
        &&& self.status is Halted <==> self.pre_halt_status is Some
        &&& self.status is Halted <==> self.halt_reason is Some
        &&& self.status is Halted <==> self.halted_at is Some
        &&& self.pre_halt_status matches Some(before) ==> {
            &&& before is Pending || before is Approved
            &&& status_matches_count(before, self.approvals_count, self.threshold)
        }
        &&& status_matches_count(self.status, self.approvals_count, self.threshold)
    }

    /// Whether `who`, holding `role`, may approve or revoke on this proposal:
    /// an Admin or Approver who is also one of the proposal's approvers.
    pub open spec fn may_vote(self, who: Seq<char>, role: Option<GovernanceRole>) -> bool {
        &&& role == Some(GovernanceRole::Admin) || role == Some(GovernanceRole::Approver)
        &&& self.approvers.contains(who)
    }

    /// The first instant at which an approval is accepted.
    pub open spec fn cooling_off_ends(self) -> int {
        self.created_at + self.cooling_off_seconds
    }

    /// The proposal after `who` has approved it.
    pub open spec fn with_approval(self, who: Seq<char>) -> ProposalView {
        ProposalView {
            approved_by: self.approved_by.push(who),
            approvals_count: (self.approvals_count + 1) as u32,
            status: if self.status is Pending && self.approvals_count + 1 == self.threshold {
                ProposalStatus::Approved
            } else {
                self.status
            },
            ..self
        }
    }

    /// The proposal after `who` has taken an approval back.
    pub open spec fn without_approval(self, who: Seq<char>) -> ProposalView {
        ProposalView {
            approved_by: self.approved_by.remove(self.approved_by.index_of(who)),
            approvals_count: (self.approvals_count - 1) as u32,
            status: if self.status is Approved && self.approvals_count - 1 < self.threshold {
                ProposalStatus::Pending
            } else {
                self.status
            },
            ..self
        }
    }

    /// The proposal after it was halted at `now` for `reason`.
    pub open spec fn halted(self, reason: Seq<char>, now: u64) -> ProposalView {
        ProposalView {
            status: ProposalStatus::Halted,
            pre_halt_status: Some(self.status),
            halt_reason: Some(reason),
            halted_at: Some(now),
            ..self
        }
    }

    /// The proposal after it was resumed at `now` with a new cooling-off
    /// period, which starts at `now`.
    pub open spec fn resumed(self, new_cooling_off_seconds: u64, now: u64) -> ProposalView {
        ProposalView {
            status: self.pre_halt_status.unwrap(),
            cooling_off_seconds: new_cooling_off_seconds,
            created_at: now,
            pre_halt_status: None,
            halt_reason: None,
            halted_at: None,
            ..self
        }
    }

    /// What an approval by `who`, holding `role`, at `now` gives: the next
    /// proposal, or the first check that fails.
    pub open spec fn approve_step(
        self,
        who: Seq<char>,
        role: Option<GovernanceRole>,
        now: u64,
    ) -> Result<ProposalView, GovernanceError> {
        if !self.may_vote(who, role) {
            Err(GovernanceError::Unauthorized)
        } else if is_closed(self.status) {
            Err(GovernanceError::InvalidStateTransition)
        } else if now < self.cooling_off_ends() {
            Err(GovernanceError::CoolingOffNotElapsed)
        } else if self.approved_by.contains(who) {
            Err(GovernanceError::AlreadyApproved)
        } else {
            Ok(self.with_approval(who))
        }
    }

    /// What a revocation by `who`, holding `role`, gives.
    pub open spec fn revoke_step(self, who: Seq<char>, role: Option<GovernanceRole>) -> Result<
        ProposalView,
        GovernanceError,
    > {
        if !self.may_vote(who, role) {
            Err(GovernanceError::Unauthorized)
        } else if is_closed(self.status) {
            Err(GovernanceError::InvalidStateTransition)
        } else if !self.approved_by.contains(who) {
            Err(GovernanceError::ApprovalNotFound)
        } else {
            Ok(self.without_approval(who))
        }
    }

    /// What a halt by a principal holding `role` gives.
    pub open spec fn halt_step(
        self,
        role: Option<GovernanceRole>,
        reason: Seq<char>,
        now: u64,
    ) -> Result<ProposalView, GovernanceError> {
        if role != Some(GovernanceRole::Admin) {
            Err(GovernanceError::Unauthorized)
        } else if is_closed(self.status) {
            Err(GovernanceError::InvalidStateTransition)
        } else {
            Ok(self.halted(reason, now))
        }
    }

    /// What a resume by a principal holding `role` gives.
    pub open spec fn resume_step(
        self,
        role: Option<GovernanceRole>,
        new_cooling_off_seconds: u64,
        now: u64,
    ) -> Result<ProposalView, GovernanceError> {
        if role != Some(GovernanceRole::Admin) {
            Err(GovernanceError::Unauthorized)
        } else if !(self.status is Halted) {
            Err(GovernanceError::NotHalted)
        } else if new_cooling_off_seconds < MIN_COOLING_OFF_SECONDS {
            Err(GovernanceError::InvalidTimelock)
        } else {
            Ok(self.resumed(new_cooling_off_seconds, now))
        }
    }
}

/// A duplicate-free list that lies inside another and misses one of its
/// items is strictly shorter.
pub proof fn lemma_room_for_one_more<A>(inner: Seq<A>, outer: Seq<A>, extra: A)
    requires
        inner.no_duplicates(),
        forall|i: int| 0 <= i < inner.len() ==> outer.contains(#[trigger] inner[i]),
        outer.contains(extra),
        !inner.contains(extra),
    ensures
        inner.len() < outer.len(),
{
    let grown = inner.push(extra);
    assert(grown.no_duplicates());
    grown.unique_seq_to_set();
    seq_to_set_is_finite(outer);
    assert(grown.to_set().subset_of(outer.to_set())) by {
        assert forall|x: A| grown.to_set().contains(x) implies outer.to_set().contains(x) by {
            let i = choose|i: int| 0 <= i < grown.len() && grown[i] == x;
            if i < inner.len() {
                assert(outer.contains(inner[i]));
            }
        }
    }
    lemma_len_subset(grown.to_set(), outer.to_set());
    outer.lemma_cardinality_of_set();
}

/// Whether `status` and `count` agree with `threshold`.
pub fn status_agrees(status: ProposalStatus, count: u32, threshold: u32) -> (b: bool)
    ensures
        b == status_matches_count(status, count, threshold),
{
    match status {
        ProposalStatus::Pending => count < threshold,
        ProposalStatus::Approved => count >= threshold,
        _ => true,
    }
}

/// Whether every principal of `inner` occurs in `outer`.
pub fn all_listed(inner: &Vec<Principal>, outer: &Vec<Principal>) -> (b: bool)
    ensures
        b == (forall|i: int|
            0 <= i < inner.len() ==> keys_of(outer@).contains(#[trigger] keys_of(inner@)[i])),
{
    let mut i: usize = 0;
    while i < inner.len()
        invariant
            i <= inner.len(),
            forall|j: int| 0 <= j < i ==> keys_of(outer@).contains(#[trigger] keys_of(inner@)[j]),
        decreases inner.len() - i,
    {
        if !contains_principal(outer, &inner[i]) {
            assert(!keys_of(outer@).contains(keys_of(inner@)[i as int]));
            return false;
        }
        i = i + 1;
    }
    true
}

impl Proposal {
    /// The invariant of a proposal, on its view.
    pub open spec fn wf(&self) -> bool {
        self@.well_formed()
    }

    /// Whether the proposal meets its invariant. A record that comes from
    /// outside is tested with this before it is handed to an operation.
    pub fn is_well_formed(&self) -> (b: bool)
        ensures
            b == self.wf(),
    {
        if self.content_hash.as_str().is_empty() {
            return false;
        }
        if self.approvers.len() > u32::MAX as usize {
            return false;
        }
        if ValidationModule::validate_approvers_unique(&self.approvers).is_err() {
            return false;
        }
        if ValidationModule::validate_threshold(self.threshold, self.approvers.len() as u32).is_err() {
            return false;
        }
        if ValidationModule::validate_approvers_unique(&self.approved_by).is_err() {
            return false;
        }
        if !all_listed(&self.approved_by, &self.approvers) {
            return false;
        }
        if self.approved_by.len() > u32::MAX as usize || self.approvals_count
            != self.approved_by.len() as u32 {
            return false;
        }
        if ValidationModule::validate_timelock(self.cooling_off_seconds).is_err() {
            return false;
        }
        if !status_agrees(self.status, self.approvals_count, self.threshold) {
            return false;
        }
        let halt_fields_agree = match self.status {
            ProposalStatus::Halted => self.halt_reason.is_some() && self.halted_at.is_some(),
            _ => self.halt_reason.is_none() && self.halted_at.is_none(),
        };
        if !halt_fields_agree {
            return false;
        }
        match self.status {
            ProposalStatus::Halted => match self.pre_halt_status {
                Some(ProposalStatus::Pending) => self.approvals_count < self.threshold,
                Some(ProposalStatus::Approved) => self.approvals_count >= self.threshold,
                _ => false,
            },
            _ => self.pre_halt_status.is_none(),
        }
    }

    /// A fresh proposal with the same value.
    pub fn duplicate(&self) -> (copy: Proposal)
        ensures
            copy@ == self@,
    {
        Proposal {
            id: self.id,
            content_hash: self.content_hash.clone(),
            target: self.target.duplicate(),
            description: self.description.clone(),
            threshold: self.threshold,
            approvers: duplicate_principals(&self.approvers),
            approved_by: duplicate_principals(&self.approved_by),
            approvals_count: self.approvals_count,
            status: self.status,
            created_at: self.created_at,
            cooling_off_seconds: self.cooling_off_seconds,
            halt_reason: match &self.halt_reason {
                Some(reason) => Some(reason.clone()),
                None => None,
            },
            halted_at: self.halted_at,
            pre_halt_status: self.pre_halt_status,
        }
    }
}

} // verus!
