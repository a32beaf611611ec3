use vstd::prelude::*;
use vstd::string::StringExecFns;
use crate::group::{Group, GroupDescription, GroupMemberV, GroupName, GroupV};
use crate::ids::TenantId;
use crate::member_service::{acyclic, membership_query_outcome, reaches_from, GroupMemberService};
use crate::user::User;
use crate::validate::{self, Error};
use crate::Instant;

verus! {

/// The name of a role: a non-empty string of at most 70 characters.
#[derive(Debug, PartialEq, Eq)]
pub struct RoleName(String);

impl View for RoleName {
    type V = Seq<char>;

    closed spec fn view(&self) -> Seq<char> {
        self.0@
    }
}

impl Clone for RoleName {
    /// Cloning keeps the name text.
    fn clone(&self) -> (r: Self)
        ensures
            r == *self,
    {
        RoleName(self.0.clone())
    }
}

impl RoleName {
    /// The held string is non-empty and fits the name bound.
    pub open spec fn wf(self) -> bool {
        0 < self@.len() <= 70
    }

    /// Creates a new `RoleName`, refusing an empty or overlong one.
    pub fn new(value: &str) -> (r: Result<Self, Error>)
        ensures
            match r {
                Ok(v) => v@ == value@ && v.wf(),
                Err(e) => match e {
                    Error::Required(n) => value@.len() == 0 && n@ == "RoleName"@,
                    Error::TooLong(n, m) => value@.len() > 70 && n@ == "RoleName"@ && m == 70,
                    _ => false,
                },
            },
    {
        validate::not_empty("RoleName", value)?;
        validate::max_length("RoleName", value, 70)?;
        Ok(RoleName(value.to_owned()))
    }

    /// The text of the name.
    pub fn as_str(&self) -> (r: &str)
        ensures
            r@ == self@,
    {
        self.0.as_str()
    }

    /// The text of the name, as an owned string.
    pub fn into_string(&self) -> (r: String)
        ensures
            r@ == self@,
    {
        self.0.clone()
    }
}

/// The description of a role: a non-empty string of at most 255 characters.
#[derive(Debug, PartialEq, Eq)]
pub struct RoleDescription(String);

impl View for RoleDescription {
    type V = Seq<char>;

    closed spec fn view(&self) -> Seq<char> {
        self.0@
    }
}

impl Clone for RoleDescription {
    /// Cloning keeps the description text.
    fn clone(&self) -> (r: Self)
        ensures
            r == *self,
    {
        RoleDescription(self.0.clone())
    }
}

impl RoleDescription {
    /// The held string is non-empty and fits the description bound.
    pub open spec fn wf(self) -> bool {
        0 < self@.len() <= 255
    }

    /// Creates a new `RoleDescription`, refusing an empty or overlong one.
    pub fn new(value: &str) -> (r: Result<Self, Error>)
        ensures
            match r {
                Ok(v) => v@ == value@ && v.wf(),
                Err(e) => match e {
                    Error::Required(n) => value@.len() == 0 && n@ == "RoleDescription"@,
                    Error::TooLong(n, m) => value@.len() > 255 && n@ == "RoleDescription"@ && m
                        == 255,
                    _ => false,
                },
            },
    {
        validate::not_empty("RoleDescription", value)?;
        validate::max_length("RoleDescription", value, 255)?;
        Ok(RoleDescription(value.to_owned()))
    }

    /// The text of the description.
    pub fn as_str(&self) -> (r: &str)
        ensures
            r@ == self@,
    {
        self.0.as_str()
    }

    /// The text of the description, as an owned string.
    pub fn into_string(&self) -> (r: String)
        ensures
            r@ == self@,
    {
        self.0.clone()
    }
}

/// The reserved prefix of the name of a role's backing group.
pub open spec fn role_group_prefix() -> Seq<char> {
    "ROLE-INTERNAL-GROUP: "@
}

/// The prefix of the description of a role's backing group.
pub open spec fn role_group_description_prefix() -> Seq<char> {
    "Role backing group for "@
}

/// The mathematical content of a role.
pub ghost struct RoleV {
    pub tenant_id: Seq<char>,
    pub name: Seq<char>,
    pub description: Option<Seq<char>>,
    pub supports_nesting: bool,
    pub group: GroupV,
}

/// A named wrapper owning exactly one backing group and forwarding
/// membership operations to it; nested role assignment is permitted only
/// when the role supports nesting.
#[derive(Debug)]
pub struct Role {
    tenant_id: TenantId,
    name: RoleName,
    description: Option<RoleDescription>,
    supports_nesting: bool,
    group: Group,
}

impl View for Role {
    type V = RoleV;

    closed spec fn view(&self) -> RoleV {
        RoleV {
            tenant_id: self.tenant_id@,
            name: self.name@,
            description: match self.description {
                Some(d) => Some(d@),
                None => None,
            },
            supports_nesting: self.supports_nesting,
            group: self.group@,
        }
    }
}

impl Clone for Role {
    /// Cloning keeps every part of the role, its backing group included.
    fn clone(&self) -> (r: Self)
        ensures
            r@ == self@,
    {
        Role {
            tenant_id: self.tenant_id.clone(),
            name: self.name.clone(),
            description: match &self.description {
                Some(d) => Some(d.clone()),
                None => None,
            },
            supports_nesting: self.supports_nesting,
            group: self.group.clone(),
        }
    }
}

impl PartialEq for Role {
    /// Two roles are the same role when they share the tenant and the
    /// name, whatever their membership.
    fn eq(&self, other: &Self) -> (r: bool) {
        self.tenant_id.matches(&other.tenant_id) && validate::str_eq(
            self.name.as_str(),
            other.name.as_str(),
        )
    }
}

impl vstd::std_specs::cmp::PartialEqSpecImpl for Role {
    open spec fn obeys_eq_spec() -> bool {
        true
    }

    open spec fn eq_spec(&self, other: &Role) -> bool {
        self@.tenant_id == other@.tenant_id && self@.name == other@.name
    }
}

impl Role {
    /// The backing group is scoped to the role's own tenant.
    pub open spec fn wf(self) -> bool {
        self@.group.tenant_id == self@.tenant_id
    }

    /// Re-create a role from already validated parts.
    pub fn hydrate(
        tenant_id: TenantId,
        name: RoleName,
        description: Option<RoleDescription>,
        supports_nesting: bool,
        group: Group,
    ) -> (r: Self)
        ensures
            r@.tenant_id == tenant_id@,
            r@.name == name@,
            r@.description == match description {
                Some(d) => Some(d@),
                None => None::<Seq<char>>,
            },
            r@.supports_nesting == supports_nesting,
            r@.group == group@,
    {
        Role { tenant_id, name, description, supports_nesting, group }
    }

    /// Creates a new role with an empty backing group whose name is derived
    /// deterministically from the role name under the reserved prefix; it
    /// fails when the derived group name overflows the group name bound.
    pub fn new(
        tenant_id: TenantId,
        name: RoleName,
        description: Option<RoleDescription>,
        supports_nesting: bool,
    ) -> (r: Result<Self, Error>)
        ensures
            match r {
                Ok(role) => {
                    &&& (role_group_prefix() + name@).len() <= 70
                    &&& role@.tenant_id == tenant_id@
                    &&& role@.name == name@
                    &&& role@.description == match description {
                        Some(d) => Some(d@),
                        None => None::<Seq<char>>,
                    }
                    &&& role@.supports_nesting == supports_nesting
                    &&& role@.group.tenant_id == tenant_id@
                    &&& role@.group.name == role_group_prefix() + name@
                    &&& role@.group.description == Some(role_group_description_prefix() + name@)
                    &&& role@.group.members == Seq::<GroupMemberV>::empty()
                    &&& role.wf()
                },
                Err(e) => {
                    &&& (role_group_prefix() + name@).len() > 70 && (
                    role_group_description_prefix() + name@).len() <= 255 ==> e is TooLong
                    &&& ((role_group_prefix() + name@).len() > 70 || (
                    role_group_description_prefix() + name@).len() > 255)
                },
            },
    {
        let group_name_text = "ROLE-INTERNAL-GROUP: ".to_owned().concat(name.as_str());
        let group_description_text = "Role backing group for ".to_owned().concat(name.as_str());
        proof {
            reveal_strlit("ROLE-INTERNAL-GROUP: ");
            reveal_strlit("Role backing group for ");
        }
        let group_name = GroupName::new(group_name_text.as_str())?;
        let group_description = GroupDescription::new(group_description_text.as_str())?;
        let nested_group = Group::new(tenant_id.clone(), group_name, Some(group_description));
        Ok(Role { tenant_id, name, description, supports_nesting, group: nested_group })
    }

    /// The identifier of the tenant the role belongs to.
    pub fn tenant_id(&self) -> (r: &TenantId)
        ensures
            r@ == self@.tenant_id,
    {
        &self.tenant_id
    }

    /// The name of the role.
    pub fn name(&self) -> (r: &RoleName)
        ensures
            r@ == self@.name,
    {
        &self.name
    }

    /// The optional description of the role.
    pub fn description(&self) -> (r: &Option<RoleDescription>)
        ensures
            match *r {
                Some(d) => self@.description == Some(d@),
                None => self@.description is None,
            },
    {
        &self.description
    }

    /// Whether the role permits nested group assignment.
    pub fn supports_nesting(&self) -> (r: bool)
        ensures
            r == self@.supports_nesting,
    {
        self.supports_nesting
    }

    /// The backing group of the role.
    pub fn group(&self) -> (r: &Group)
        ensures
            r@ == self@.group,
    {
        &self.group
    }

    /// Assign a nested group to the role; permitted only when the role
    /// supports nesting, for a group of the role's own tenant, and guarded
    /// against cycles exactly as the backing group's own operation is. No
    /// failure changes the backing group.
    pub fn assign_group(&mut self, group: &Group, member_service: &GroupMemberService) -> (r:
        Result<(), Error>)
        ensures
            match r {
                Ok(()) => {
                    &&& old(self)@.supports_nesting
                    &&& group@.tenant_id == old(self)@.tenant_id
                    &&& group@.tenant_id == old(self)@.group.tenant_id
                    &&& !reaches_from(
                        member_service.groups(),
                        group@.tenant_id,
                        group@.members,
                        GroupMemberV::Group(old(self)@.group.name),
                    )
                    &&& if old(self)@.group.members.contains(GroupMemberV::Group(group@.name)) {
                        *final(self) == *old(self)
                    } else {
                        final(self)@ == (RoleV {
                            group: GroupV {
                                members: old(self)@.group.members.push(
                                    GroupMemberV::Group(group@.name),
                                ),
                                ..old(self)@.group
                            },
                            ..old(self)@
                        })
                    }
                },
                Err(e) => {
                    &&& *final(self) == *old(self)
                    &&& match e {
                        Error::NotEqual(_, _) => group@.tenant_id != old(self)@.tenant_id || (
                        group@.tenant_id != old(self)@.group.tenant_id),
                        Error::Generic(_) => !old(self)@.supports_nesting || (old(
                            self,
                        )@.supports_nesting && group@.tenant_id == old(self)@.tenant_id
                            && group@.tenant_id == old(self)@.group.tenant_id && (reaches_from(
                            member_service.groups(),
                            group@.tenant_id,
                            group@.members,
                            GroupMemberV::Group(old(self)@.group.name),
                        ) || !acyclic(member_service.groups(), group@.tenant_id))),
                        _ => false,
                    }
                },
            },
            (old(self)@.supports_nesting && group@.tenant_id == old(self)@.tenant_id
                && group@.tenant_id == old(self)@.group.tenant_id && reaches_from(
                member_service.groups(),
                group@.tenant_id,
                group@.members,
                GroupMemberV::Group(old(self)@.group.name),
            )) ==> r is Err,
            (old(self)@.supports_nesting && group@.tenant_id == old(self)@.tenant_id
                && group@.tenant_id == old(self)@.group.tenant_id && !reaches_from(
                member_service.groups(),
                group@.tenant_id,
                group@.members,
                GroupMemberV::Group(old(self)@.group.name),
            ) && acyclic(member_service.groups(), group@.tenant_id)) ==> r is Ok,
            old(self)@.group.members.no_duplicates() ==> final(self)@.group.members.no_duplicates(),
    {
        validate::is_true(self.supports_nesting, "this role does not support group nesting")?;
        validate::equals("tenant_id", group.tenant_id().as_str(), self.tenant_id.as_str())?;
        self.group.add_group(group, member_service)
    }

    /// Assign a user to the role at the given instant; the user must belong
    /// to the role's tenant (and to the backing group's) and be enabled.
    pub fn assign_user_at(&mut self, user: &User, now: Instant) -> (r: Result<(), Error>)
        ensures
            match r {
                Ok(()) => {
                    &&& user@.tenant_id == old(self)@.tenant_id
                    &&& user@.tenant_id == old(self)@.group.tenant_id
                    &&& user@.enabled_at(now as int)
                    &&& if old(self)@.group.members.contains(GroupMemberV::User(user@.username)) {
                        *final(self) == *old(self)
                    } else {
                        final(self)@ == (RoleV {
                            group: GroupV {
                                members: old(self)@.group.members.push(
                                    GroupMemberV::User(user@.username),
                                ),
                                ..old(self)@.group
                            },
                            ..old(self)@
                        })
                    }
                },
                Err(e) => {
                    &&& *final(self) == *old(self)
                    &&& match e {
                        Error::NotEqual(_, _) => user@.tenant_id != old(self)@.tenant_id || (
                        user@.tenant_id != old(self)@.group.tenant_id),
                        Error::Generic(_) => user@.tenant_id == old(self)@.tenant_id
                            && user@.tenant_id == old(self)@.group.tenant_id && !user@.enabled_at(
                            now as int,
                        ),
                        _ => false,
                    }
                },
            },
            old(self)@.group.members.no_duplicates() ==> final(self)@.group.members.no_duplicates(),
    {
        validate::equals("tenant_id", user.tenant_id().as_str(), self.tenant_id.as_str())?;
        self.group.add_user_at(user, now)
    }

    /// Assign a user to the role, judging enablement at the instant the
    /// wall clock reports now.
    pub fn assign_user(&mut self, user: &User) -> (r: Result<(), Error>)
        ensures
            match r {
                Ok(()) => {
                    &&& user@.tenant_id == old(self)@.tenant_id
                    &&& user@.tenant_id == old(self)@.group.tenant_id
                    &&& if old(self)@.group.members.contains(GroupMemberV::User(user@.username)) {
                        *final(self) == *old(self)
                    } else {
                        final(self)@ == (RoleV {
                            group: GroupV {
                                members: old(self)@.group.members.push(
                                    GroupMemberV::User(user@.username),
                                ),
                                ..old(self)@.group
                            },
                            ..old(self)@
                        })
                    }
                },
                Err(e) => {
                    &&& *final(self) == *old(self)
                    &&& match e {
                        Error::NotEqual(_, _) => user@.tenant_id != old(self)@.tenant_id || (
                        user@.tenant_id != old(self)@.group.tenant_id),
                        Error::Generic(_) => user@.tenant_id == old(self)@.tenant_id
                            && user@.tenant_id == old(self)@.group.tenant_id,
                        _ => false,
                    }
                },
            },
            (user@.tenant_id == old(self)@.tenant_id && user@.tenant_id == old(
                self,
            )@.group.tenant_id && (forall|t: Instant| #[trigger] user@.enabled_at(t as int)))
                ==> r is Ok,
            old(self)@.group.members.no_duplicates() ==> final(self)@.group.members.no_duplicates(),
    {
        let now = crate::clock::now_millis();
        let r = self.assign_user_at(user, now);
        proof {
            if user@.tenant_id == old(self)@.tenant_id && user@.tenant_id == old(
                self,
            )@.group.tenant_id && (forall|t: Instant| #[trigger] user@.enabled_at(t as int)) {
                assert(user@.enabled_at(now as int));
            }
        }
        r
    }

    /// Whether the user is in the role at the given instant: delegated to
    /// the backing group's membership query.
    pub fn is_in_role_at(&self, user: &User, member_service: &GroupMemberService, now: Instant) -> (r:
        Result<bool, Error>)
        ensures
            membership_query_outcome(
                member_service.groups(),
                member_service.users(),
                self@.group,
                user@,
                r,
                now as int,
            ),
    {
        self.group.is_member_at(user, member_service, now)
    }

    /// Whether the user is in the role, judged at the instant the wall
    /// clock reports now.
    pub fn is_in_role(&self, user: &User, member_service: &GroupMemberService) -> (r: Result<
        bool,
        Error,
    >)
        ensures
            exists|now: Instant|
                #[trigger] membership_query_outcome(
                    member_service.groups(),
                    member_service.users(),
                    self@.group,
                    user@,
                    r,
                    now as int,
                ),
    {
        let now = crate::clock::now_millis();
        let r = self.is_in_role_at(user, member_service, now);
        proof {
            assert(membership_query_outcome(
                member_service.groups(),
                member_service.users(),
                self@.group,
                user@,
                r,
                now as int,
            ));
        }
        r
    }

    /// Remove a nested group from the role; permitted only when the role
    /// supports nesting, and a no-op for an absent member.
    pub fn unassign_group(&mut self, group: &Group) -> (r: Result<(), Error>)
        ensures
            match r {
                Ok(()) => {
                    &&& old(self)@.supports_nesting
                    &&& group@.tenant_id == old(self)@.tenant_id
                    &&& group@.tenant_id == old(self)@.group.tenant_id
                    &&& final(self)@ == (RoleV {
                        group: GroupV {
                            members: crate::group::members_without(
                                old(self)@.group.members,
                                GroupMemberV::Group(group@.name),
                            ),
                            ..old(self)@.group
                        },
                        ..old(self)@
                    })
                },
                Err(e) => {
                    &&& *final(self) == *old(self)
                    &&& match e {
                        Error::Generic(_) => !old(self)@.supports_nesting,
                        Error::NotEqual(_, _) => old(self)@.supports_nesting && (group@.tenant_id
                            != old(self)@.tenant_id || group@.tenant_id
                            != old(self)@.group.tenant_id),
                        _ => false,
                    }
                },
            },
    {
        validate::is_true(self.supports_nesting, "this role does not support group nesting")?;
        validate::equals("tenant_id", group.tenant_id().as_str(), self.tenant_id.as_str())?;
        self.group.remove_group(group)
    }

    /// Remove a user from the role; a no-op for an absent member.
    pub fn unassign_user(&mut self, user: &User) -> (r: Result<(), Error>)
        ensures
            match r {
                Ok(()) => {
                    &&& user@.tenant_id == old(self)@.tenant_id
                    &&& user@.tenant_id == old(self)@.group.tenant_id
                    &&& final(self)@ == (RoleV {
                        group: GroupV {
                            members: crate::group::members_without(
                                old(self)@.group.members,
                                GroupMemberV::User(user@.username),
                            ),
                            ..old(self)@.group
                        },
                        ..old(self)@
                    })
                },
                Err(e) => {
                    &&& *final(self) == *old(self)
                    &&& e is NotEqual
                    &&& (user@.tenant_id != old(self)@.tenant_id || user@.tenant_id != old(
                        self,
                    )@.group.tenant_id)
                },
            },
    {
        validate::equals("tenant_id", user.tenant_id().as_str(), self.tenant_id.as_str())?;
        self.group.remove_user(user)
    }
}

} // verus!
