use vstd::prelude::*;
use crate::principal::Principal;

verus! {

/// The privileged roles a principal can hold.
#[derive(Clone, Copy, Debug, PartialEq, Eq, Structural)]
pub enum GovernanceRole {
    Admin,
    Approver,
    Executor,
}

/// One assignment of a role to a principal.
pub struct RoleEntry {
    pub principal: Principal,
    pub role: GovernanceRole,
}

/// The role that a list of assignments gives to `who`: the one written last,
/// or none where `who` was never assigned.
pub open spec fn lookup_role(entries: Seq<RoleEntry>, who: Seq<char>) -> Option<GovernanceRole>
    decreases entries.len(),
{
    if entries.len() == 0 {
        None
    } else if entries.last().principal@ == who {
        Some(entries.last().role)
    } else {
        lookup_role(entries.drop_last(), who)
    }
}

/// The role that `roles` gives to `who`, if any.
pub open spec fn role_in(roles: Map<Seq<char>, GovernanceRole>, who: Seq<char>) -> Option<
    GovernanceRole,
> {
    if roles.contains_key(who) {
        Some(roles[who])
    } else {
        None
    }
}

/// A mapping from principal to role. A principal holds at most one role;
/// a principal that is absent holds no privileged role.
pub struct RoleRegistry {
    entries: Vec<RoleEntry>,
}

impl View for RoleRegistry {
    type V = Map<Seq<char>, GovernanceRole>;

    closed spec fn view(&self) -> Map<Seq<char>, GovernanceRole> {
        Map::new(
            |who: Seq<char>| lookup_role(self.entries@, who) is Some,
            |who: Seq<char>| lookup_role(self.entries@, who).unwrap(),
        )
    }
}

impl RoleRegistry {
    /// A registry in which nobody holds a role.
    pub fn new() -> (registry: RoleRegistry)
        ensures
            registry@ == Map::<Seq<char>, GovernanceRole>::empty(),
    {
        let registry = RoleRegistry { entries: Vec::new() };
        assert(registry@ =~= Map::<Seq<char>, GovernanceRole>::empty());
        registry
    }

    /// Gives `role` to `who`, replacing any role `who` held before.
    pub fn set(&mut self, who: Principal, role: GovernanceRole)
        ensures
            final(self)@ == old(self)@.insert(who@, role),
    {
        let ghost before = self.entries@;
        self.entries.push(RoleEntry { principal: who, role });
        proof {
            let after = self.entries@;
            assert(after.drop_last() =~= before);
            assert forall|k: Seq<char>|
                lookup_role(after, k) == if k == who@ {
                    Some(role)
                } else {
                    lookup_role(before, k)
                } by {}
            assert(self@ =~= old(self)@.insert(who@, role));
        }
    }

    /// The role `who` holds, if any.
    pub fn role_of(&self, who: &Principal) -> (role: Option<GovernanceRole>)
        ensures
            role == role_in(self@, who@),
    {
        let mut i: usize = self.entries.len();
        assert(self.entries@.subrange(0, i as int) =~= self.entries@);
        while i > 0
            invariant
                i <= self.entries.len(),
                lookup_role(self.entries@, who@) == lookup_role(
                    self.entries@.subrange(0, i as int),
                    who@,
                ),
            decreases i,
        {
            let ghost prefix = self.entries@.subrange(0, i as int);
            i = i - 1;
            assert(prefix.last() == self.entries@[i as int]);
            assert(prefix.drop_last() =~= self.entries@.subrange(0, i as int));
            if self.entries[i].principal.same(who) {
                return Some(self.entries[i].role);
            }
        }
        None
    }
}

} // verus!
