//! Group resources: the thin create/read/update/delete surface around
//! group rows. A group references an owning identity; the reference is
//! checked where the storage engine would report a foreign-key
//! violation — at creation and at an owner change. Reads and mutations
//! require an identity; deletion requires the strong tier.

use vstd::prelude::*;

use crate::error::ErrorDto;
use crate::middleware::{spec_is_strong, AuthStatus};
use crate::store::AuthStore;

verus! {

/// A group row.
#[derive(Debug, Clone)]
pub struct Group {
    /// Opaque unique identifier, immutable once assigned.
    pub id: i64,
    /// Display name.
    pub name: String,
    /// Identifier of the owning identity.
    pub owner_id: i64,
    /// Creation timestamp, seconds since the Unix epoch.
    pub created_on: i64,
}

/// Mathematical image of a [`Group`].
pub struct GroupView {
    pub id: int,
    pub name: Seq<char>,
    pub owner_id: int,
    pub created_on: int,
}

impl View for Group {
    type V = GroupView;

    open spec fn view(&self) -> GroupView {
        GroupView {
            id: self.id as int,
            name: self.name@,
            owner_id: self.owner_id as int,
            created_on: self.created_on as int,
        }
    }
}

/// Public projection of a group row.
#[derive(Debug, Clone, PartialEq, Eq)]
pub struct GroupPublicDto {
    pub name: String,
}

/// A group-creation request; the owner is the authenticated requester.
#[derive(Debug, Clone)]
pub struct CreateGroupRequest {
    pub name: String,
}

/// A group update; fields left out keep their value.
#[derive(Debug, Clone)]
pub struct UpdateGroupRequest {
    pub name: Option<String>,
}

/// The images of a sequence of group rows.
pub open spec fn group_views(s: Seq<Group>) -> Seq<GroupView> {
    s.map_values(|x: Group| x@)
}

/// Mathematical image of the group table.
#[verifier::ext_equal]
pub struct GroupStoreView {
    pub groups: Seq<GroupView>,
    pub next_group_id: int,
}

impl GroupStoreView {
    /// The table with no rows.
    pub open spec fn empty() -> GroupStoreView {
        GroupStoreView { groups: Seq::empty(), next_group_id: 0 }
    }

    /// Invariants the storage engine's constraints enforce.
    pub open spec fn wf(self) -> bool {
        &&& forall|i: int, j: int|
            0 <= i < j < self.groups.len() ==> (#[trigger] self.groups[i]).id != (
            #[trigger] self.groups[j]).id
        &&& forall|i: int|
            0 <= i < self.groups.len() ==> 0 <= (#[trigger] self.groups[i]).id
                < self.next_group_id
        &&& forall|i: int| 0 <= i < self.groups.len() ==> 0 <= (#[trigger] self.groups[i]).created_on
        &&& 0 <= self.next_group_id <= i64::MAX
    }

    /// Some group row carries this identifier.
    pub open spec fn has_group(self, id: int) -> bool {
        exists|i: int| 0 <= i < self.groups.len() && (#[trigger] self.groups[i]).id == id
    }

    /// Index of the group row carrying this identifier.
    pub open spec fn group_index(self, id: int) -> int {
        choose|i: int| 0 <= i < self.groups.len() && (#[trigger] self.groups[i]).id == id
    }

    /// The group row carrying this identifier.
    pub open spec fn group_row(self, id: int) -> GroupView {
        self.groups[self.group_index(id)]
    }

    /// The table after appending a fresh group row.
    pub open spec fn with_group_added(self, group: GroupView) -> GroupStoreView {
        GroupStoreView { groups: self.groups.push(group), next_group_id: self.next_group_id + 1 }
    }

    /// The table after renaming the group row at an index.
    pub open spec fn with_name_at(self, i: int, name: Seq<char>) -> GroupStoreView {
        GroupStoreView {
            groups: self.groups.update(i, GroupView { name, ..self.groups[i] }),
            ..self
        }
    }

    /// The table after removing the group row at an index.
    pub open spec fn with_group_removed_at(self, i: int) -> GroupStoreView {
        GroupStoreView { groups: self.groups.remove(i), ..self }
    }

    /// In a well-formed table, a group row's index is determined by its
    /// identifier.
    pub proof fn lemma_group_index(self, id: int, i: int)
        requires
            self.wf(),
            0 <= i < self.groups.len(),
            self.groups[i].id == id,
        ensures
            self.has_group(id),
            self.group_index(id) == i,
            self.group_row(id) == self.groups[i],
    {
        assert(self.has_group(id));
        let j = self.group_index(id);
        if i != j {
            assert(self.groups[i].id != self.groups[j].id);
        }
    }
}

/// The in-memory group table.
pub struct GroupStore {
    groups: Vec<Group>,
    next_group_id: i64,
}

impl View for GroupStore {
    type V = GroupStoreView;

    closed spec fn view(&self) -> GroupStoreView {
        GroupStoreView {
            groups: group_views(self.groups@),
            next_group_id: self.next_group_id as int,
        }
    }
}

impl GroupStore {
    /// An empty table.
    pub fn new() -> (s: GroupStore)
        ensures
            s@ == GroupStoreView::empty(),
            s@.wf(),
    {
        let s = GroupStore { groups: Vec::new(), next_group_id: 0 };
        proof {
            assert(s@.groups =~= Seq::<GroupView>::empty());
        }
        s
    }

    /// How many group rows the table holds.
    pub fn group_count(&self) -> (n: usize)
        ensures
            n == self@.groups.len(),
    {
        self.groups.len()
    }

    /// The group row at an index.
    pub fn group_at(&self, i: usize) -> (r: &Group)
        requires
            i < self@.groups.len(),
        ensures
            r@ == self@.groups[i as int],
    {
        &self.groups[i]
    }

    /// Find the group row carrying an identifier.
    pub fn find_group(&self, id: i64) -> (r: Option<usize>)
        ensures
            match r {
                Some(i) => i < self@.groups.len() && self@.groups[i as int].id == id,
                None => !self@.has_group(id as int),
            },
    {
        let mut i: usize = 0;
        while i < self.groups.len()
            invariant
                i <= self@.groups.len(),
                forall|j: int| 0 <= j < i ==> (#[trigger] self@.groups[j]).id != id,
            decreases self@.groups.len() - i,
        {
            if self.groups[i].id == id {
                return Some(i);
            }
            i = i + 1;
        }
        None
    }

    /// Append a fresh group row and hand it back; fails only once the
    /// identifier space is exhausted.
    fn insert_group(&mut self, name: String, owner_id: i64, created_on: i64) -> (r: Option<usize>)
        requires
            old(self)@.wf(),
            0 <= created_on,
        ensures
            final(self)@.wf(),
            match r {
                Some(i) => old(self)@.next_group_id < i64::MAX && i == old(self)@.groups.len()
                    && final(self)@ == old(self)@.with_group_added(
                    GroupView {
                        id: old(self)@.next_group_id,
                        name: name@,
                        owner_id: owner_id as int,
                        created_on: created_on as int,
                    },
                ),
                None => old(self)@.next_group_id == i64::MAX && final(self)@ == old(self)@,
            },
    {
        if self.next_group_id == i64::MAX {
            return None;
        }
        let i = self.groups.len();
        self.groups.push(Group { id: self.next_group_id, name, owner_id, created_on });
        self.next_group_id = self.next_group_id + 1;
        proof {
            assert(self@.groups =~= old(self)@.with_group_added(
                GroupView {
                    id: old(self)@.next_group_id,
                    name: name@,
                    owner_id: owner_id as int,
                    created_on: created_on as int,
                },
            ).groups);
            assert(self@ =~= old(self)@.with_group_added(
                GroupView {
                    id: old(self)@.next_group_id,
                    name: name@,
                    owner_id: owner_id as int,
                    created_on: created_on as int,
                },
            ));
        }
        Some(i)
    }

    /// Rename the group row at an index.
    fn set_name_at(&mut self, i: usize, name: String)
        requires
            i < old(self)@.groups.len(),
        ensures
            final(self)@ == old(self)@.with_name_at(i as int, name@),
            old(self)@.wf() ==> final(self)@.wf(),
    {
        let updated = Group {
            id: self.groups[i].id,
            name,
            owner_id: self.groups[i].owner_id,
            created_on: self.groups[i].created_on,
        };
        self.groups[i] = updated;
        proof {
            assert(self@.groups =~= old(self)@.with_name_at(i as int, name@).groups);
            assert(self@ =~= old(self)@.with_name_at(i as int, name@));
        }
    }

    /// Remove the group row at an index.
    fn remove_group_at(&mut self, i: usize)
        requires
            i < old(self)@.groups.len(),
        ensures
            final(self)@ == old(self)@.with_group_removed_at(i as int),
            old(self)@.wf() ==> final(self)@.wf(),
    {
        self.groups.remove(i);
        proof {
            assert(self@.groups =~= old(self)@.with_group_removed_at(i as int).groups);
            assert(self@ =~= old(self)@.with_group_removed_at(i as int));
        }
    }
}

/// Create a group owned by the authenticated requester. The owner
/// reference is checked the way the storage engine's foreign key would
/// report it: a vanished owner is not found.
pub fn create_group(
    groups: &mut GroupStore,
    users: &AuthStore,
    status: &Option<AuthStatus>,
    request: CreateGroupRequest,
    now: i64,
) -> (r: Result<Group, ErrorDto>)
    requires
        old(groups)@.wf(),
        users@.wf(),
        0 <= now,
    ensures
        final(groups)@.wf(),
        match r {
            Ok(g) => {
                let st = status->Some_0;
                &&& status is Some
                &&& users@.has_identity(st.user_id as int)
                &&& g@ == (GroupView {
                    id: old(groups)@.next_group_id,
                    name: request.name@,
                    owner_id: st.user_id as int,
                    created_on: now as int,
                })
                &&& final(groups)@ == old(groups)@.with_group_added(g@)
            },
            Err(e) => final(groups)@ == old(groups)@ && match e {
                ErrorDto::InvalidCredentials => status is None,
                ErrorDto::NotFound => status matches Some(st) && !users@.has_identity(
                    st.user_id as int,
                ),
                ErrorDto::Internal => status matches Some(st) && users@.has_identity(
                    st.user_id as int,
                ) && old(groups)@.next_group_id == i64::MAX,
                _ => false,
            },
        },
{
    let st = match status {
        Some(st) => *st,
        None => {
            return Err(ErrorDto::InvalidCredentials);
        },
    };
    if users.find_identity_by_id(st.user_id).is_none() {
        return Err(ErrorDto::NotFound);
    }
    let name = request.name.clone();
    match groups.insert_group(request.name, st.user_id, now) {
        Some(i) => Ok(Group { id: groups.group_at(i).id, name, owner_id: st.user_id, created_on: now }),
        None => Err(ErrorDto::Internal),
    }
}

/// The public projection of a group, for an authenticated requester.
pub fn get_group_public(groups: &GroupStore, status: &Option<AuthStatus>, group_id: i64) -> (r:
    Result<GroupPublicDto, ErrorDto>)
    requires
        groups@.wf(),
    ensures
        match status {
            None => r matches Err(e) && e == ErrorDto::InvalidCredentials,
            Some(_) => if groups@.has_group(group_id as int) {
                r matches Ok(dto) && dto.name@ == groups@.group_row(group_id as int).name
            } else {
                r matches Err(e) && e == ErrorDto::NotFound
            },
        },
{
    if status.is_none() {
        return Err(ErrorDto::InvalidCredentials);
    }
    let idx = match groups.find_group(group_id) {
        Some(i) => i,
        None => {
            return Err(ErrorDto::NotFound);
        },
    };
    proof {
        groups@.lemma_group_index(group_id as int, idx as int);
    }
    Ok(GroupPublicDto { name: groups.group_at(idx).name.clone() })
}

/// Rename a group, for an authenticated requester; a field left out
/// keeps its value.
pub fn update_group(
    groups: &mut GroupStore,
    status: &Option<AuthStatus>,
    group_id: i64,
    request: UpdateGroupRequest,
) -> (r: Result<Group, ErrorDto>)
    requires
        old(groups)@.wf(),
    ensures
        final(groups)@.wf(),
        match r {
            Ok(g) => {
                let s = old(groups)@;
                let i = s.group_index(group_id as int);
                let new_name = match request.name {
                    Some(n) => n@,
                    None => s.groups[i].name,
                };
                &&& status is Some
                &&& s.has_group(group_id as int)
                &&& final(groups)@ == s.with_name_at(i, new_name)
                &&& g@ == (GroupView { name: new_name, ..s.groups[i] })
            },
            Err(e) => final(groups)@ == old(groups)@ && match e {
                ErrorDto::InvalidCredentials => status is None,
                ErrorDto::NotFound => status is Some && !old(groups)@.has_group(group_id as int),
                _ => false,
            },
        },
{
    if status.is_none() {
        return Err(ErrorDto::InvalidCredentials);
    }
    let idx = match groups.find_group(group_id) {
        Some(i) => i,
        None => {
            return Err(ErrorDto::NotFound);
        },
    };
    proof {
        old(groups)@.lemma_group_index(group_id as int, idx as int);
    }
    match request.name {
        Some(n) => groups.set_name_at(idx, n),
        None => {},
    }
    let row = groups.group_at(idx);
    Ok(Group {
        id: row.id,
        name: row.name.clone(),
        owner_id: row.owner_id,
        created_on: row.created_on,
    })
}

/// Delete a group. Requires the strong tier: with anything less the
/// request is refused and the table untouched.
pub fn delete_group(groups: &mut GroupStore, status: &Option<AuthStatus>, group_id: i64) -> (r:
    Result<(), ErrorDto>)
    requires
        old(groups)@.wf(),
    ensures
        final(groups)@.wf(),
        !spec_is_strong(*status) ==> (r matches Err(e) && e == ErrorDto::InvalidCredentials
            && final(groups)@ == old(groups)@),
        match r {
            Ok(_) => spec_is_strong(*status) && old(groups)@.has_group(group_id as int)
                && final(groups)@ == old(groups)@.with_group_removed_at(
                old(groups)@.group_index(group_id as int),
            ),
            Err(e) => final(groups)@ == old(groups)@ && match e {
                ErrorDto::InvalidCredentials => !spec_is_strong(*status),
                ErrorDto::NotFound => spec_is_strong(*status) && !old(groups)@.has_group(
                    group_id as int,
                ),
                _ => false,
            },
        },
{
    let strong = match status {
        Some(st) => st.strong,
        None => false,
    };
    if !strong {
        return Err(ErrorDto::InvalidCredentials);
    }
    let idx = match groups.find_group(group_id) {
        Some(i) => i,
        None => {
            return Err(ErrorDto::NotFound);
        },
    };
    proof {
        old(groups)@.lemma_group_index(group_id as int, idx as int);
    }
    groups.remove_group_at(idx);
    Ok(())
}

} // verus!
