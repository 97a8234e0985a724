use vstd::prelude::*;
use crate::error::GovernanceError;
use crate::proposal::{Proposal, ProposalView};

verus! {

/// The mathematical value of a store: the next identifier to hand out, and
/// the proposals held, by identifier.
pub struct StoreView {
    pub next_id: u64,
    pub proposals: Map<u64, ProposalView>,
}

impl StoreView {
    /// The invariant of a store: identifiers start at one, every proposal is
    /// kept under its own identifier, which was handed out before, and every
    /// proposal is well formed.
    pub open spec fn well_formed(self) -> bool {
        &&& self.next_id >= 1
        &&& forall|id: u64| #[trigger]
            self.proposals.contains_key(id) ==> {
                &&& 1 <= id < self.next_id
                &&& self.proposals[id].id == id
                &&& self.proposals[id].well_formed()
            }
    }

    /// The store with `next` in the place of the proposal `id`.
    pub open spec fn with_proposal(self, id: u64, next: ProposalView) -> StoreView {
        StoreView { proposals: self.proposals.insert(id, next), ..self }
    }

    /// The store after one step on the proposal `id`: the step's result takes
    /// the proposal's place, and a failed step fails the whole.
    pub open spec fn after_step(
        self,
        id: u64,
        step: Result<ProposalView, GovernanceError>,
    ) -> Result<StoreView, GovernanceError> {
        match step {
            Ok(next) => Ok(self.with_proposal(id, next)),
            Err(e) => Err(e),
        }
    }
}

/// The proposal that a list of records holds under `id`, if any: the one
/// written last.
pub open spec fn find_record(records: Seq<Proposal>, id: u64) -> Option<ProposalView>
    decreases records.len(),
{
    if records.len() == 0 {
        None
    } else if records.last().id == id {
        Some(records.last()@)
    } else {
        find_record(records.drop_last(), id)
    }
}

/// No two records share an identifier.
pub open spec fn distinct_ids(records: Seq<Proposal>) -> bool {
    forall|i: int, j: int|
        0 <= i < records.len() && 0 <= j < records.len() && i != j ==> records[i].id
            != records[j].id
}

/// A record that stands in the list is the one found under its identifier.
pub proof fn lemma_find_present(records: Seq<Proposal>, place: int)
    requires
        distinct_ids(records),
        0 <= place < records.len(),
    ensures
        find_record(records, records[place].id) == Some(records[place]@),
    decreases records.len(),
{
    if place < records.len() - 1 {
        assert(records.last().id != records[place].id);
        let rest = records.drop_last();
        assert(rest[place] == records[place]);
        lemma_find_present(rest, place);
    }
}

/// What is found under an identifier is the value of a record that carries
/// it.
pub proof fn lemma_find_some(records: Seq<Proposal>, id: u64)
    requires
        find_record(records, id) is Some,
    ensures
        exists|i: int|
            0 <= i < records.len() && (#[trigger] records[i]).id == id && find_record(
                records,
                id,
            ) == Some(records[i]@),
    decreases records.len(),
{
    if records.last().id == id {
        assert(records[records.len() - 1].id == id);
    } else {
        let rest = records.drop_last();
        lemma_find_some(rest, id);
        let i = choose|i: int|
            0 <= i < rest.len() && (#[trigger] rest[i]).id == id && find_record(rest, id) == Some(
                rest[i]@,
            );
        assert(records[i] == rest[i]);
    }
}

/// An identifier that no record carries finds nothing.
pub proof fn lemma_find_absent(records: Seq<Proposal>, id: u64)
    requires
        forall|i: int| 0 <= i < records.len() ==> records[i].id != id,
    ensures
        find_record(records, id) is None,
    decreases records.len(),
{
    if records.len() > 0 {
        let rest = records.drop_last();
        assert forall|i: int| 0 <= i < rest.len() implies rest[i].id != id by {
            assert(rest[i] == records[i]);
        }
        lemma_find_absent(rest, id);
    }
}

/// Replacing a record by one with the same identifier changes what is found
/// under that identifier and nothing else.
pub proof fn lemma_find_after_replace(
    records: Seq<Proposal>,
    place: int,
    next: Proposal,
    id: u64,
)
    requires
        distinct_ids(records),
        0 <= place < records.len(),
        next.id == records[place].id,
    ensures
        distinct_ids(records.update(place, next)),
        find_record(records.update(place, next), id) == if id == next.id {
            Some(next@)
        } else {
            find_record(records, id)
        },
    decreases records.len(),
{
    let replaced = records.update(place, next);
    assert(distinct_ids(replaced)) by {
        assert forall|i: int, j: int|
            0 <= i < replaced.len() && 0 <= j < replaced.len() && i != j implies replaced[i].id
            != replaced[j].id by {
            assert(replaced[i].id == records[i].id);
            assert(replaced[j].id == records[j].id);
        }
    }
    if place == records.len() - 1 {
        assert(replaced.drop_last() =~= records.drop_last());
    } else {
        let rest = records.drop_last();
        assert(rest[place] == records[place]);
        assert(replaced.drop_last() =~= rest.update(place, next));
        assert(records.last().id != next.id);
        lemma_find_after_replace(rest, place, next, id);
    }
}

/// The proposals of the system and the counter that numbers them. Proposals
/// are never deleted.
pub struct ProposalStore {
    next: u64,
    records: Vec<Proposal>,
}

impl View for ProposalStore {
    type V = StoreView;

    closed spec fn view(&self) -> StoreView {
        StoreView {
            next_id: self.next,
            proposals: Map::new(
                |id: u64| find_record(self.records@, id) is Some,
                |id: u64| find_record(self.records@, id).unwrap(),
            ),
        }
    }
}

impl ProposalStore {
    /// The invariant of a store: no identifier is kept twice, and the value
    /// is well formed.
    pub closed spec fn wf(&self) -> bool {
        &&& distinct_ids(self.records@)
        &&& self@.well_formed()
    }

    /// A valid store has a well-formed value.
    pub proof fn lemma_wf_view(&self)
        requires
            self.wf(),
        ensures
            self@.well_formed(),
    {
    }

    /// An empty store whose first identifier is one.
    pub fn new() -> (store: ProposalStore)
        ensures
            store.wf(),
            store@.next_id == 1,
            store@.proposals == Map::<u64, ProposalView>::empty(),
    {
        let store = ProposalStore { next: 1, records: Vec::new() };
        assert(store@.proposals =~= Map::<u64, ProposalView>::empty());
        store
    }

    /// Whether `records` and `next_id` can make up a store: identifiers
    /// start at one, every record is well formed and carries an identifier
    /// of its own that was handed out before.
    pub open spec fn restorable(next_id: u64, records: Seq<Proposal>) -> bool {
        &&& next_id >= 1
        &&& distinct_ids(records)
        &&& forall|i: int|
            0 <= i < records.len() ==> (#[trigger] records[i]).wf() && 1 <= records[i].id
                < next_id
    }

    /// The store that holds `records` and hands out `next_id` next, or
    /// nothing where the two cannot make up a store.
    pub fn restore(next_id: u64, records: Vec<Proposal>) -> (r: Option<ProposalStore>)
        ensures
            match r {
                Some(store) => {
                    &&& Self::restorable(next_id, records@)
                    &&& store.wf()
                    &&& store@.next_id == next_id
                    &&& forall|id: u64|
                        store@.proposals.contains_key(id) <==> find_record(records@, id) is Some
                    &&& forall|id: u64| #[trigger]
                        store@.proposals.contains_key(id) ==> store@.proposals[id] == find_record(
                            records@,
                            id,
                        ).unwrap()
                },
                None => !Self::restorable(next_id, records@),
            },
    {
        if next_id < 1 {
            return None;
        }
        let mut i: usize = 0;
        while i < records.len()
            invariant
                i <= records.len(),
                forall|a: int|
                    0 <= a < i ==> (#[trigger] records@[a]).wf() && 1 <= records@[a].id < next_id,
                forall|a: int, b: int| 0 <= a < b < i ==> records@[a].id != records@[b].id,
            decreases records.len() - i,
        {
            if !records[i].is_well_formed() || records[i].id < 1 || records[i].id >= next_id {
                return None;
            }
            let mut j: usize = 0;
            while j < i
                invariant
                    j <= i < records.len(),
                    forall|a: int| 0 <= a < j ==> records@[a].id != records@[i as int].id,
                decreases i - j,
            {
                if records[j].id == records[i].id {
                    return None;
                }
                j = j + 1;
            }
            i = i + 1;
        }
        let store = ProposalStore { next: next_id, records };
        proof {
            assert forall|id: u64| #[trigger] store@.proposals.contains_key(id) implies 1 <= id
                < next_id && store@.proposals[id].id == id
                && store@.proposals[id].well_formed() by {
                lemma_find_some(store.records@, id);
            }
        }
        Some(store)
    }

    /// The identifier that will be handed out next.
    pub fn upcoming_id(&self) -> (id: u64)
        ensures
            id == self@.next_id,
    {
        self.next
    }

    /// Hands out the next identifier. Identifiers grow by one and are never
    /// handed out twice.
    pub fn next_id(&mut self) -> (id: u64)
        requires
            old(self).wf(),
            old(self)@.next_id < u64::MAX,
        ensures
            final(self).wf(),
            id == old(self)@.next_id,
            final(self)@ == (StoreView { next_id: (id + 1) as u64, ..old(self)@ }),
    {
        let id = self.next;
        self.next = id + 1;
        assert(self@.proposals =~= old(self)@.proposals);
        id
    }

    /// Where the record of `id` stands, if the store holds one.
    fn locate(&self, id: u64) -> (place: Option<usize>)
        ensures
            match place {
                Some(i) => i < self.records.len() && self.records@[i as int].id == id,
                None => forall|i: int| 0 <= i < self.records.len() ==> self.records@[i].id != id,
            },
    {
        let mut i: usize = 0;
        while i < self.records.len()
            invariant
                i <= self.records.len(),
                forall|j: int| 0 <= j < i ==> self.records@[j].id != id,
            decreases self.records.len() - i,
        {
            if self.records[i].id == id {
                return Some(i);
            }
            i = i + 1;
        }
        None
    }

    /// Whether the store holds a proposal under `id`.
    pub fn contains(&self, id: u64) -> (found: bool)
        requires
            self.wf(),
        ensures
            found == self@.proposals.contains_key(id),
    {
        match self.locate(id) {
            Some(i) => {
                proof {
                    lemma_find_present(self.records@, i as int);
                }
                true
            },
            None => {
                proof {
                    lemma_find_absent(self.records@, id);
                }
                false
            },
        }
    }

    /// Adds a proposal under an identifier that was handed out and is not
    /// yet in use.
    pub fn insert(&mut self, proposal: Proposal)
        requires
            old(self).wf(),
            proposal.wf(),
            1 <= proposal.id < old(self)@.next_id,
            !old(self)@.proposals.contains_key(proposal.id),
        ensures
            final(self).wf(),
            final(self)@ == old(self)@.with_proposal(proposal.id, proposal@),
    {
        let ghost before = self.records@;
        proof {
            assert forall|i: int| 0 <= i < before.len() implies before[i].id != proposal.id by {
                lemma_find_present(before, i);
            }
        }
        self.records.push(proposal);
        proof {
            let after = self.records@;
            assert(after.drop_last() =~= before);
            assert forall|k: u64|
                find_record(after, k) == if k == proposal.id {
                    Some(proposal@)
                } else {
                    find_record(before, k)
                } by {}
            assert(self@.proposals =~= old(self)@.proposals.insert(proposal.id, proposal@));
        }
    }

    /// The proposal kept under `id`.
    pub fn get(&self, id: u64) -> (r: Result<Proposal, GovernanceError>)
        requires
            self.wf(),
        ensures
            match r {
                Ok(p) => self@.proposals.contains_key(id) && p@ == self@.proposals[id] && p.wf()
                    && p.id == id,
                Err(e) => !self@.proposals.contains_key(id) && e
                    == GovernanceError::ProposalNotFound,
            },
    {
        match self.locate(id) {
            Some(i) => {
                proof {
                    lemma_find_present(self.records@, i as int);
                }
                Ok(self.records[i].duplicate())
            },
            None => {
                proof {
                    lemma_find_absent(self.records@, id);
                }
                Err(GovernanceError::ProposalNotFound)
            },
        }
    }

    /// Writes the result of a step back: a new proposal takes the place of
    /// the one with its identifier, and a failed step leaves the store as it
    /// was and is reported.
    pub fn commit(&mut self, step: Result<Proposal, GovernanceError>) -> (r: Result<
        (),
        GovernanceError,
    >)
        requires
            old(self).wf(),
            step matches Ok(p) ==> p.wf() && old(self)@.proposals.contains_key(p.id),
        ensures
            final(self).wf(),
            match step {
                Ok(p) => r is Ok && final(self)@ == old(self)@.with_proposal(p.id, p@),
                Err(e) => r matches Err(f) && f == e && final(self)@ == old(self)@,
            },
    {
        match step {
            Ok(next) => self.update(next),
            Err(e) => Err(e),
        }
    }

    /// Replaces the proposal kept under `proposal.id` as a whole. Nothing
    /// changes where the store holds no such proposal.
    pub fn update(&mut self, proposal: Proposal) -> (r: Result<(), GovernanceError>)
        requires
            old(self).wf(),
            proposal.wf(),
        ensures
            final(self).wf(),
            match r {
                Ok(_) => old(self)@.proposals.contains_key(proposal.id) && final(self)@ == old(
                    self,
                )@.with_proposal(proposal.id, proposal@),
                Err(e) => !old(self)@.proposals.contains_key(proposal.id) && e
                    == GovernanceError::ProposalNotFound && final(self)@ == old(self)@,
            },
    {
        match self.locate(proposal.id) {
            Some(i) => {
                let ghost before = self.records@;
                let ghost value = proposal@;
                let ghost id = proposal.id;
                proof {
                    lemma_find_present(before, i as int);
                    assert forall|k: u64|
                        find_record(before.update(i as int, proposal), k) == if k == id {
                            Some(value)
                        } else {
                            find_record(before, k)
                        } by {
                        lemma_find_after_replace(before, i as int, proposal, k);
                    }
                    lemma_find_after_replace(before, i as int, proposal, id);
                }
                self.records.set(i, proposal);
                proof {
                    assert(old(self)@.proposals.contains_key(id));
                    assert(self@.proposals =~= old(self)@.proposals.insert(id, value));
                    assert forall|k: u64| #[trigger]
                        self@.proposals.contains_key(k) implies 1 <= k < self@.next_id
                        && self@.proposals[k].id == k && self@.proposals[k].well_formed() by {
                        if k != id {
                            assert(old(self)@.proposals.contains_key(k));
                        }
                    }
                }
                Ok(())
            },
            None => {
                proof {
                    lemma_find_absent(self.records@, proposal.id);
                }
                Err(GovernanceError::ProposalNotFound)
            },
        }
    }
}

} // verus!
