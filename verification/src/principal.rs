use vstd::prelude::*;

verus! {

/// An externally verified identity, held as its textual key.
///
/// Two principals are the same identity exactly when their keys are equal.
#[derive(Clone, Debug, PartialEq, Eq)]
pub struct Principal {
    pub key: String,
}

impl View for Principal {
    type V = Seq<char>;

    open spec fn view(&self) -> Seq<char> {
        self.key@
    }
}

impl Principal {
    pub fn new(key: String) -> (p: Principal)
        ensures
            p@ == key@,
    {
        Principal { key }
    }

    /// Whether `self` and `other` name the same identity.
    pub fn same(&self, other: &Principal) -> (b: bool)
        ensures
            b == (self@ == other@),
    {
        self.key == other.key
    }

    /// A fresh value naming the same identity.
    pub fn duplicate(&self) -> (p: Principal)
        ensures
            p@ == self@,
    {
        Principal { key: self.key.clone() }
    }
}

/// The identities held by a list of principals, in order.
pub open spec fn keys_of(list: Seq<Principal>) -> Seq<Seq<char>> {
    list.map_values(|p: Principal| p@)
}

/// The place of `who` in `list`, if it occurs there.
pub fn position_of(list: &Vec<Principal>, who: &Principal) -> (place: Option<usize>)
    ensures
        match place {
            Some(i) => i < list.len() && keys_of(list@)[i as int] == who@,
            None => !keys_of(list@).contains(who@),
        },
{
    let mut i: usize = 0;
    while i < list.len()
        invariant
            i <= list.len(),
            forall|j: int| 0 <= j < i ==> keys_of(list@)[j] != who@,
        decreases list.len() - i,
    {
        if list[i].same(who) {
            return Some(i);
        }
        i = i + 1;
    }
    None
}

/// Whether `who` occurs in `list`.
pub fn contains_principal(list: &Vec<Principal>, who: &Principal) -> (found: bool)
    ensures
        found == keys_of(list@).contains(who@),
{
    position_of(list, who).is_some()
}

/// A fresh list naming the same identities in the same order.
pub fn duplicate_principals(list: &Vec<Principal>) -> (copy: Vec<Principal>)
    ensures
        keys_of(copy@) == keys_of(list@),
{
    let mut copy: Vec<Principal> = Vec::new();
    let mut i: usize = 0;
    while i < list.len()
        invariant
            i <= list.len(),
            copy.len() == i,
            forall|j: int| 0 <= j < i ==> copy@[j]@ == list@[j]@,
        decreases list.len() - i,
    {
        copy.push(list[i].duplicate());
        i = i + 1;
    }
    assert(keys_of(copy@) =~= keys_of(list@));
    copy
}

} // verus!
