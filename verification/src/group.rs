use vstd::prelude::*;
use crate::clock::now_millis;
use crate::ids::TenantId;
use crate::member_service::{
    acyclic, lemma_is_member_unfold, membership_query_outcome, reaches_from, GroupMemberService,
};
use crate::Instant;
use crate::user::{User, Username};
use crate::validate::{self, Error};

verus! {

/// The name of a group: a non-empty string of at most 70 characters.
#[derive(Debug, PartialEq, Eq)]
pub struct GroupName(String);

impl View for GroupName {
    type V = Seq<char>;

    closed spec fn view(&self) -> Seq<char> {
        self.0@
    }
}

impl Clone for GroupName {
    /// Cloning keeps the name text.
    fn clone(&self) -> (r: Self)
        ensures
            r == *self,
    {
        GroupName(self.0.clone())
    }
}

impl GroupName {
    /// The held string is non-empty and fits the name bound.
    pub open spec fn wf(self) -> bool {
        0 < self@.len() <= 70
    }

    /// Creates a new `GroupName`, refusing an empty or overlong one.
    pub fn new(value: &str) -> (r: Result<Self, Error>)
        ensures
            match r {
                Ok(v) => v@ == value@ && v.wf(),
                Err(e) => match e {
                    Error::Required(n) => value@.len() == 0 && n@ == "GroupName"@,
                    Error::TooLong(n, m) => value@.len() > 70 && n@ == "GroupName"@ && m == 70,
                    _ => false,
                },
            },
    {
        validate::not_empty("GroupName", value)?;
        validate::max_length("GroupName", value, 70)?;
        Ok(GroupName(value.to_owned()))
    }

    /// The text of the name.
    pub fn as_str(&self) -> (r: &str)
        ensures
            r@ == self@,
    {
        self.0.as_str()
    }

    /// The text of the name, as an owned string.
    pub fn into_string(&self) -> (r: String)
        ensures
            r@ == self@,
    {
        self.0.clone()
    }
}

/// The description of a group: a non-empty string of at most 255
/// characters.
#[derive(Debug, PartialEq, Eq)]
pub struct GroupDescription(String);

impl View for GroupDescription {
    type V = Seq<char>;

    closed spec fn view(&self) -> Seq<char> {
        self.0@
    }
}

impl Clone for GroupDescription {
    /// Cloning keeps the description text.
    fn clone(&self) -> (r: Self)
        ensures
            r == *self,
    {
        GroupDescription(self.0.clone())
    }
}

impl GroupDescription {
    /// The held string is non-empty and fits the description bound.
    pub open spec fn wf(self) -> bool {
        0 < self@.len() <= 255
    }

    /// Creates a new `GroupDescription`, refusing an empty or overlong one.
    pub fn new(value: &str) -> (r: Result<Self, Error>)
        ensures
            match r {
                Ok(v) => v@ == value@ && v.wf(),
                Err(e) => match e {
                    Error::Required(n) => value@.len() == 0 && n@ == "GroupDescription"@,
                    Error::TooLong(n, m) => value@.len() > 255 && n@ == "GroupDescription"@ && m
                        == 255,
                    _ => false,
                },
            },
    {
        validate::not_empty("GroupDescription", value)?;
        validate::max_length("GroupDescription", value, 255)?;
        Ok(GroupDescription(value.to_owned()))
    }

    /// The text of the description.
    pub fn as_str(&self) -> (r: &str)
        ensures
            r@ == self@,
    {
        self.0.as_str()
    }

    /// The text of the description, as an owned string.
    pub fn into_string(&self) -> (r: String)
        ensures
            r@ == self@,
    {
        self.0.clone()
    }
}

/// The mathematical content of a group member: either a user, by username,
/// or a nested group, by group name.
pub ghost enum GroupMemberV {
    User(Seq<char>),
    Group(Seq<char>),
}

/// A tagged reference held in a group's membership list: either a user or
/// a nested group.
#[derive(Debug, PartialEq, Eq)]
pub enum GroupMember {
    User(Username),
    Group(GroupName),
}

impl View for GroupMember {
    type V = GroupMemberV;

    open spec fn view(&self) -> GroupMemberV {
        match self {
            GroupMember::User(u) => GroupMemberV::User(u@),
            GroupMember::Group(g) => GroupMemberV::Group(g@),
        }
    }
}

impl Clone for GroupMember {
    /// Cloning keeps the variant and the identifier.
    fn clone(&self) -> (r: Self)
        ensures
            r@ == self@,
    {
        match self {
            GroupMember::User(u) => GroupMember::User(u.clone()),
            GroupMember::Group(g) => GroupMember::Group(g.clone()),
        }
    }
}

impl GroupMember {
    /// The member referring to the given user, by username.
    pub fn from_user(user: &User) -> (r: Self)
        ensures
            r@ == GroupMemberV::User(user@.username),
    {
        GroupMember::User(user.username().clone())
    }

    /// The member referring to the given group, by name.
    pub fn from_group(group: &Group) -> (r: Self)
        ensures
            r@ == GroupMemberV::Group(group@.name),
    {
        GroupMember::Group(group.name().clone())
    }

    /// Whether the member refers to a group with the given name.
    pub fn is_group_with_name(&self, name: &str) -> (r: bool)
        ensures
            r == (self@ matches GroupMemberV::Group(n) && n == name@),
    {
        match self {
            GroupMember::Group(group_name) => validate::str_eq(group_name.as_str(), name),
            _ => false,
        }
    }

    /// Whether two members refer to the same user or group.
    pub fn equals(&self, other: &GroupMember) -> (r: bool)
        ensures
            r == (self@ == other@),
    {
        match (self, other) {
            (GroupMember::User(a), GroupMember::User(b)) => validate::str_eq(
                a.as_str(),
                b.as_str(),
            ),
            (GroupMember::Group(a), GroupMember::Group(b)) => validate::str_eq(
                a.as_str(),
                b.as_str(),
            ),
            _ => false,
        }
    }
}

/// The mathematical content of a group.
pub ghost struct GroupV {
    pub tenant_id: Seq<char>,
    pub name: Seq<char>,
    pub description: Option<Seq<char>>,
    pub members: Seq<GroupMemberV>,
}

/// The membership list after structural removal of a member: every entry
/// equal to it is gone, and the others keep their order.
pub open spec fn members_without(members: Seq<GroupMemberV>, member: GroupMemberV) -> Seq<
    GroupMemberV,
> {
    members.filter(|m: GroupMemberV| m != member)
}

/// How one more entry extends the removal result.
pub proof fn lemma_members_without_push(
    members: Seq<GroupMemberV>,
    next: GroupMemberV,
    member: GroupMemberV,
)
    ensures
        members_without(members.push(next), member) == if next != member {
            members_without(members, member).push(next)
        } else {
            members_without(members, member)
        },
{
    reveal(Seq::filter);
    let pred = |m: GroupMemberV| m != member;
    assert(members.push(next).drop_last() =~= members);
    assert(members.push(next).last() == next);
    if pred(next) {
        assert(members.push(next).filter(pred) == members.filter(pred).push(next));
    } else {
        assert(members.push(next).filter(pred) == members.filter(pred));
    }
}

/// An aggregate holding a membership list of users and nested groups,
/// scoped to one tenant.
#[derive(Debug, PartialEq)]
pub struct Group {
    tenant_id: TenantId,
    name: GroupName,
    description: Option<GroupDescription>,
    members: Vec<GroupMember>,
}

impl View for Group {
    type V = GroupV;

    closed spec fn view(&self) -> GroupV {
        GroupV {
            tenant_id: self.tenant_id@,
            name: self.name@,
            description: match self.description {
                Some(d) => Some(d@),
                None => None,
            },
            members: self.members@.map_values(|m: GroupMember| m@),
        }
    }
}

impl Clone for Group {
    /// Cloning keeps every part of the group.
    fn clone(&self) -> (r: Self)
        ensures
            r@ == self@,
    {
        let ghost mview = |m: GroupMember| m@;
        let mut members: Vec<GroupMember> = Vec::new();
        let n = self.members.len();
        proof {
            assert(members@.map_values(mview) =~= self@.members.take(0));
        }
        for i in 0..n
            invariant
                n == self.members.len(),
                mview == (|m: GroupMember| m@),
                members@.len() == i,
                members@.map_values(mview) == self@.members.take(i as int),
        {
            let cloned = self.members[i].clone();
            proof {
                assert(cloned@ == self@.members[i as int]);
            }
            members.push(cloned);
            proof {
                assert(members@.map_values(mview) =~= self@.members.take(i + 1));
            }
        }
        let r = Group {
            tenant_id: self.tenant_id.clone(),
            name: self.name.clone(),
            description: match &self.description {
                Some(d) => Some(d.clone()),
                None => None,
            },
            members,
        };
        proof {
            assert(self@.members.take(n as int) =~= self@.members);
            assert(r@ =~= self@);
        }
        r
    }
}

impl Group {
    /// The membership list never holds the same member twice.
    pub open spec fn wf(self) -> bool {
        self@.members.no_duplicates()
    }

    /// Hydrates an existing group from already validated parts.
    pub fn hydrate(
        tenant_id: TenantId,
        name: GroupName,
        description: Option<GroupDescription>,
        members: Vec<GroupMember>,
    ) -> (r: Self)
        ensures
            r@.tenant_id == tenant_id@,
            r@.name == name@,
            r@.description == match description {
                Some(d) => Some(d@),
                None => None::<Seq<char>>,
            },
            r@.members == members@.map_values(|m: GroupMember| m@),
    {
        Group { tenant_id, name, description, members }
    }

    /// Creates a new group with no members.
    pub fn new(tenant_id: TenantId, name: GroupName, description: Option<GroupDescription>) -> (r:
        Self)
        ensures
            r@.tenant_id == tenant_id@,
            r@.name == name@,
            r@.description == match description {
                Some(d) => Some(d@),
                None => None::<Seq<char>>,
            },
            r@.members == Seq::<GroupMemberV>::empty(),
            r.wf(),
    {
        let r = Group { tenant_id, name, description, members: Vec::new() };
        proof {
            assert(r@.members =~= Seq::<GroupMemberV>::empty());
        }
        r
    }

    /// The identifier of the tenant the group belongs to.
    pub fn tenant_id(&self) -> (r: &TenantId)
        ensures
            r@ == self@.tenant_id,
    {
        &self.tenant_id
    }

    /// The name of the group.
    pub fn name(&self) -> (r: &GroupName)
        ensures
            r@ == self@.name,
    {
        &self.name
    }

    /// The optional description of the group.
    pub fn description(&self) -> (r: &Option<GroupDescription>)
        ensures
            match *r {
                Some(d) => self@.description == Some(d@),
                None => self@.description is None,
            },
    {
        &self.description
    }

    /// The membership list of the group.
    pub fn members(&self) -> (r: &Vec<GroupMember>)
        ensures
            r@.len() == self@.members.len(),
            forall|i: int| 0 <= i < r@.len() ==> (#[trigger] r@[i])@ == self@.members[i],
            r@.map_values(|m: GroupMember| m@) == self@.members,
    {
        proof {
            assert(self.members@.map_values(|m: GroupMember| m@) == self@.members);
        }
        &self.members
    }

    /// Whether the membership list holds the given member.
    pub fn contains_member(&self, member: &GroupMember) -> (r: bool)
        ensures
            r == self@.members.contains(member@),
    {
        let n = self.members.len();
        for i in 0..n
            invariant
                n == self.members.len(),
                forall|j: int| 0 <= j < i ==> self@.members[j] != member@,
        {
            if self.members[i].equals(member) {
                proof {
                    assert(self@.members[i as int] == member@);
                }
                return true;
            }
        }
        false
    }

    /// Append a member unless it is already present; the list never gains
    /// a duplicate.
    fn insert_member(&mut self, member: GroupMember)
        ensures
            old(self)@.members.contains(member@) ==> *final(self) == *old(self),
            !old(self)@.members.contains(member@) ==> final(self)@ == (GroupV {
                members: old(self)@.members.push(member@),
                ..old(self)@
            }),
            old(self).wf() ==> final(self).wf(),
    {
        if !self.contains_member(&member) {
            let ghost before = self@.members;
            self.members.push(member);
            proof {
                assert(final(self)@.members =~= before.push(member@));
            }
        }
    }

    /// Remove every entry equal to the member; absent members are left
    /// alone without an error.
    fn retain_without(&mut self, member: &GroupMember)
        ensures
            final(self)@ == (GroupV {
                members: members_without(old(self)@.members, member@),
                ..old(self)@
            }),
    {
        let mut kept: Vec<GroupMember> = Vec::new();
        let n = self.members.len();
        proof {
            reveal(Seq::filter);
            assert(self@.members.take(0) =~= Seq::<GroupMemberV>::empty());
            assert(kept@.map_values(|m: GroupMember| m@) =~= members_without(
                self@.members.take(0),
                member@,
            ));
        }
        for i in 0..n
            invariant
                n == self.members.len(),
                kept@.map_values(|m: GroupMember| m@) == members_without(
                    self@.members.take(i as int),
                    member@,
                ),
        {
            let ghost prefix = self@.members.take(i as int);
            let ghost next = self@.members[i as int];
            proof {
                assert(self@.members.take(i + 1) =~= prefix.push(next));
                lemma_members_without_push(prefix, next, member@);
            }
            if !self.members[i].equals(member) {
                let ghost kept_before = kept@;
                kept.push(self.members[i].clone());
                proof {
                    assert(kept@.map_values(|m: GroupMember| m@) =~= kept_before.map_values(
                        |m: GroupMember| m@,
                    ).push(next));
                }
            }
        }
        proof {
            assert(self@.members.take(n as int) =~= self@.members);
        }
        self.members = kept;
    }

    /// Add a user to the group's membership list at the given instant; it
    /// fails when the user belongs to another tenant or is not enabled at
    /// that instant, and adding a user that is already a member changes
    /// nothing.
    pub fn add_user_at(&mut self, user: &User, now: Instant) -> (r: Result<(), Error>)
        ensures
            match r {
                Ok(()) => {
                    &&& old(self)@.tenant_id == user@.tenant_id
                    &&& user@.enabled_at(now as int)
                    &&& if old(self)@.members.contains(GroupMemberV::User(user@.username)) {
                        *final(self) == *old(self)
                    } else {
                        final(self)@ == (GroupV {
                            members: old(self)@.members.push(GroupMemberV::User(user@.username)),
                            ..old(self)@
                        })
                    }
                },
                Err(e) => {
                    &&& *final(self) == *old(self)
                    &&& match e {
                        Error::NotEqual(_, _) => old(self)@.tenant_id != user@.tenant_id,
                        Error::Generic(_) => old(self)@.tenant_id == user@.tenant_id
                            && !user@.enabled_at(now as int),
                        _ => false,
                    }
                },
            },
            old(self).wf() ==> final(self).wf(),
    {
        validate::equals("tenant_id", user.tenant_id().as_str(), self.tenant_id.as_str())?;
        validate::is_true(user.is_enabled_at(now), "user is not enabled")?;
        let member = GroupMember::from_user(user);
        self.insert_member(member);
        Ok(())
    }

    /// Add a user to the group's membership list, judging enablement at
    /// the instant the wall clock reports now; adding a user that is
    /// already a member changes nothing.
    pub fn add_user(&mut self, user: &User) -> (r: Result<(), Error>)
        ensures
            match r {
                Ok(()) => {
                    &&& old(self)@.tenant_id == user@.tenant_id
                    &&& if old(self)@.members.contains(GroupMemberV::User(user@.username)) {
                        *final(self) == *old(self)
                    } else {
                        final(self)@ == (GroupV {
                            members: old(self)@.members.push(GroupMemberV::User(user@.username)),
                            ..old(self)@
                        })
                    }
                },
                Err(e) => {
                    &&& *final(self) == *old(self)
                    &&& match e {
                        Error::NotEqual(_, _) => old(self)@.tenant_id != user@.tenant_id,
                        Error::Generic(_) => old(self)@.tenant_id == user@.tenant_id,
                        _ => false,
                    }
                },
            },
            (old(self)@.tenant_id == user@.tenant_id && (forall|t: Instant|
                #[trigger] user@.enabled_at(t as int))) ==> r is Ok,
            old(self).wf() ==> final(self).wf(),
    {
        let now = now_millis();
        let r = self.add_user_at(user, now);
        proof {
            if old(self)@.tenant_id == user@.tenant_id && (forall|t: Instant|
                #[trigger] user@.enabled_at(t as int)) {
                assert(user@.enabled_at(now as int));
            }
        }
        r
    }

    /// Add a nested group to the membership list, guarding against cycles:
    /// it fails when the nested group belongs to another tenant, and with
    /// the recursion error when this group is already (transitively) a
    /// member of the nested group, so that the stored graph can never
    /// become cyclic. No failure changes the membership list, and adding a
    /// group that is already a member changes nothing.
    pub fn add_group(&mut self, group: &Group, member_service: &GroupMemberService) -> (r: Result<
        (),
        Error,
    >)
        ensures
            match r {
                Ok(()) => {
                    &&& old(self)@.tenant_id == group@.tenant_id
                    &&& !reaches_from(
                        member_service.groups(),
                        group@.tenant_id,
                        group@.members,
                        GroupMemberV::Group(old(self)@.name),
                    )
                    &&& if old(self)@.members.contains(GroupMemberV::Group(group@.name)) {
                        *final(self) == *old(self)
                    } else {
                        final(self)@ == (GroupV {
                            members: old(self)@.members.push(GroupMemberV::Group(group@.name)),
                            ..old(self)@
                        })
                    }
                },
                Err(e) => {
                    &&& *final(self) == *old(self)
                    &&& match e {
                        Error::NotEqual(_, _) => old(self)@.tenant_id != group@.tenant_id,
                        Error::Generic(_) => old(self)@.tenant_id == group@.tenant_id
                            && (reaches_from(
                            member_service.groups(),
                            group@.tenant_id,
                            group@.members,
                            GroupMemberV::Group(old(self)@.name),
                        ) || !acyclic(member_service.groups(), group@.tenant_id)),
                        _ => false,
                    }
                },
            },
            (old(self)@.tenant_id == group@.tenant_id && reaches_from(
                member_service.groups(),
                group@.tenant_id,
                group@.members,
                GroupMemberV::Group(old(self)@.name),
            )) ==> r is Err,
            (old(self)@.tenant_id == group@.tenant_id && !reaches_from(
                member_service.groups(),
                group@.tenant_id,
                group@.members,
                GroupMemberV::Group(old(self)@.name),
            ) && acyclic(member_service.groups(), group@.tenant_id)) ==> r is Ok,
            old(self).wf() ==> final(self).wf(),
    {
        validate::equals("tenant_id", group.tenant_id().as_str(), self.tenant_id.as_str())?;
        let self_member = GroupMember::Group(self.name.clone());
        let found = match member_service.is_member_group(group, &self_member) {
            Ok(b) => b,
            Err(e) => {
                return Err(e);
            },
        };
        validate::is_false(found, "group recursion detected")?;
        let member = GroupMember::from_group(group);
        self.insert_member(member);
        Ok(())
    }

    /// Whether the user is a member of the group at the given instant: it
    /// fails when the user belongs to another tenant or is not enabled at
    /// the instant; a direct member is confirmed against the stored users,
    /// and otherwise the stored nested groups are searched.
    pub fn is_member_at(&self, user: &User, member_service: &GroupMemberService, now: Instant) -> (r:
        Result<bool, Error>)
        ensures
            membership_query_outcome(
                member_service.groups(),
                member_service.users(),
                self@,
                user@,
                r,
                now as int,
            ),
    {
        validate::equals("tenant_id", user.tenant_id().as_str(), self.tenant_id.as_str())?;
        validate::is_true(user.is_enabled_at(now), "user is not enabled")?;
        proof {
            lemma_is_member_unfold(
                member_service.groups(),
                member_service.users(),
                self@.tenant_id,
                self@,
                user@.username,
                now as int,
            );
        }
        let member = GroupMember::from_user(user);
        if self.contains_member(&member) {
            member_service.confirm_user_at(self, user, now)
        } else {
            member_service.is_user_in_nested_group_at(self, user, now)
        }
    }

    /// Whether the user is a member of the group, judged at the instant
    /// the wall clock reports now.
    pub fn is_member(&self, user: &User, member_service: &GroupMemberService) -> (r: Result<
        bool,
        Error,
    >)
        ensures
            exists|now: Instant|
                #[trigger] membership_query_outcome(
                    member_service.groups(),
                    member_service.users(),
                    self@,
                    user@,
                    r,
                    now as int,
                ),
    {
        let now = now_millis();
        let r = self.is_member_at(user, member_service, now);
        proof {
            assert(membership_query_outcome(
                member_service.groups(),
                member_service.users(),
                self@,
                user@,
                r,
                now as int,
            ));
        }
        r
    }

    /// Remove a user from the group; it fails when the user belongs to
    /// another tenant, and removing an absent user changes nothing.
    pub fn remove_user(&mut self, user: &User) -> (r: Result<(), Error>)
        ensures
            match r {
                Ok(()) => old(self)@.tenant_id == user@.tenant_id && final(self)@ == (GroupV {
                    members: members_without(
                        old(self)@.members,
                        GroupMemberV::User(user@.username),
                    ),
                    ..old(self)@
                }),
                Err(e) => old(self)@.tenant_id != user@.tenant_id && e is NotEqual && *final(self)
                    == *old(self),
            },
    {
        validate::equals("tenant_id", user.tenant_id().as_str(), self.tenant_id.as_str())?;
        let member = GroupMember::from_user(user);
        self.retain_without(&member);
        Ok(())
    }

    /// Remove a nested group from the group; it fails when the nested
    /// group belongs to another tenant, and removing an absent one changes
    /// nothing.
    pub fn remove_group(&mut self, group: &Group) -> (r: Result<(), Error>)
        ensures
            match r {
                Ok(()) => old(self)@.tenant_id == group@.tenant_id && final(self)@ == (GroupV {
                    members: members_without(old(self)@.members, GroupMemberV::Group(group@.name)),
                    ..old(self)@
                }),
                Err(e) => old(self)@.tenant_id != group@.tenant_id && e is NotEqual && *final(self)
                    == *old(self),
            },
    {
        validate::equals("tenant_id", group.tenant_id().as_str(), self.tenant_id.as_str())?;
        let member = GroupMember::from_group(group);
        self.retain_without(&member);
        Ok(())
    }
}

/// Law: a membership list without duplicates holds at most one entry for
/// any member, so adding a member that is already present leaves exactly
/// one entry for it.
pub proof fn lemma_member_entry_unique(g: GroupV, member: GroupMemberV, i: int, j: int)
    requires
        g.members.no_duplicates(),
        0 <= i < g.members.len(),
        0 <= j < g.members.len(),
        g.members[i] == member,
        g.members[j] == member,
    ensures
        i == j,
{
}

} // verus!
