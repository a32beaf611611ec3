use iam::enablement::Enablement;
use iam::group::{Group, GroupDescription, GroupMember, GroupName};
use iam::ids::TenantId;
use iam::member_service::{GroupMemberService, GroupRepository, GroupRepositoryError};
use iam::password::PlainPassword;
use iam::person::{ContactInformation, EmailAddress, FullName, Person};
use iam::role::{Role, RoleDescription, RoleName};
use iam::user::{User, UserRepository, Username};
use iam::validate::Error;
use iam::validity::Validity;

fn tenant_a() -> TenantId {
    TenantId::new("123e4567-e89b-12d3-a456-426655440000").unwrap()
}

fn tenant_b() -> TenantId {
    TenantId::new("00000000-0000-4000-8000-000000000001").unwrap()
}

fn person(email: &str) -> Person {
    Person::new(
        FullName::new("John", "Doe").unwrap(),
        ContactInformation::new(EmailAddress::new(email).unwrap(), None, None, None),
    )
}

fn user(tenant: &TenantId, name: &str) -> User {
    User::new(
        tenant.clone(),
        Username::new(name).unwrap(),
        PlainPassword::new("P@ssw0rd1"),
        Enablement::indefinite(),
        person("john.doe@example.com"),
    )
    .unwrap()
}

fn group(tenant: &TenantId, name: &str) -> Group {
    Group::new(
        tenant.clone(),
        GroupName::new(name).unwrap(),
        Some(GroupDescription::new("a group").unwrap()),
    )
}

#[test]
fn add_user_keeps_one_entry_for_a_member_added_twice() {
    let tenant = tenant_a();
    let mut fixture = group(&tenant, "staff");
    let u = user(&tenant, "john_doe");

    fixture.add_user(&u).unwrap();
    fixture.add_user(&u).unwrap();

    assert_eq!(fixture.members().len(), 1);
    assert!(fixture.members()[0].is_group_with_name("staff") == false);
    assert!(fixture.contains_member(&GroupMember::from_user(&u)));
}

#[test]
fn add_user_rejects_a_user_of_another_tenant() {
    let tenant = tenant_a();
    let mut fixture = group(&tenant, "staff");
    let foreign = user(&tenant_b(), "john_doe");

    let err = fixture.add_user(&foreign).unwrap_err();
    assert!(matches!(err, Error::NotEqual(_, _)));
    assert_eq!(fixture.members().len(), 0);
}

#[test]
fn add_user_rejects_a_disabled_user() {
    let tenant = tenant_a();
    let mut fixture = group(&tenant, "staff");
    let mut u = user(&tenant, "john_doe");
    u.define_enablement(Enablement::Disabled);

    let err = fixture.add_user(&u).unwrap_err();
    assert_eq!(err, Error::Generic("user is not enabled".to_string()));
    assert_eq!(fixture.members().len(), 0);
}

#[test]
fn remove_user_is_a_no_op_for_an_absent_member() {
    let tenant = tenant_a();
    let mut fixture = group(&tenant, "staff");
    let u = user(&tenant, "john_doe");
    fixture.add_user(&u).unwrap();

    let other = user(&tenant, "jane_doe");
    fixture.remove_user(&other).unwrap();
    assert_eq!(fixture.members().len(), 1);

    fixture.remove_user(&u).unwrap();
    assert_eq!(fixture.members().len(), 0);
}

#[test]
fn add_group_keeps_one_entry_for_a_group_added_twice() {
    let tenant = tenant_a();
    let groups = GroupRepository::new();
    let users = UserRepository::new();
    let service = GroupMemberService::new(&groups, &users);

    let mut parent = group(&tenant, "parent");
    let child = group(&tenant, "child");

    parent.add_group(&child, &service).unwrap();
    parent.add_group(&child, &service).unwrap();
    assert_eq!(parent.members().len(), 1);
    assert!(parent.members()[0].is_group_with_name("child"));
}

#[test]
fn add_group_rejects_a_group_of_another_tenant() {
    let tenant = tenant_a();
    let groups = GroupRepository::new();
    let users = UserRepository::new();
    let service = GroupMemberService::new(&groups, &users);

    let mut parent = group(&tenant, "parent");
    let foreign = group(&tenant_b(), "child");

    let err = parent.add_group(&foreign, &service).unwrap_err();
    assert!(matches!(err, Error::NotEqual(_, _)));
    assert_eq!(parent.members().len(), 0);
}

#[test]
fn add_group_rejects_a_direct_cycle() {
    let tenant = tenant_a();
    let mut groups = GroupRepository::new();
    let users = UserRepository::new();

    let mut parent = group(&tenant, "parent");
    let mut child = group(&tenant, "child");
    {
        let service = GroupMemberService::new(&groups, &users);
        parent.add_group(&child, &service).unwrap();
    }
    groups.add(&parent).unwrap();
    groups.add(&child).unwrap();

    let service = GroupMemberService::new(&groups, &users);
    let err = child.add_group(&parent, &service).unwrap_err();
    assert_eq!(err, Error::Generic("group recursion detected".to_string()));
    assert_eq!(child.members().len(), 0);
}

#[test]
fn add_group_rejects_a_transitive_cycle() {
    let tenant = tenant_a();
    let mut groups = GroupRepository::new();
    let users = UserRepository::new();

    let mut a = group(&tenant, "a");
    let mut b = group(&tenant, "b");
    let mut c = group(&tenant, "c");
    {
        let service = GroupMemberService::new(&groups, &users);
        a.add_group(&b, &service).unwrap();
        b.add_group(&c, &service).unwrap();
    }
    groups.add(&a).unwrap();
    groups.add(&b).unwrap();
    groups.add(&c).unwrap();

    let service = GroupMemberService::new(&groups, &users);
    let err = c.add_group(&a, &service).unwrap_err();
    assert_eq!(err, Error::Generic("group recursion detected".to_string()));
    assert_eq!(c.members().len(), 0);
}

#[test]
fn is_member_group_sees_direct_and_transitive_members() {
    let tenant = tenant_a();
    let mut groups = GroupRepository::new();
    let users = UserRepository::new();

    let mut a = group(&tenant, "a");
    let mut b = group(&tenant, "b");
    let c = group(&tenant, "c");
    {
        let service = GroupMemberService::new(&groups, &users);
        b.add_group(&c, &service).unwrap();
        a.add_group(&b, &service).unwrap();
    }
    groups.add(&a).unwrap();
    groups.add(&b).unwrap();
    groups.add(&c).unwrap();

    let service = GroupMemberService::new(&groups, &users);
    assert!(service.is_member_group(&a, &GroupMember::from_group(&b)).unwrap());
    assert!(service.is_member_group(&a, &GroupMember::from_group(&c)).unwrap());
    assert!(!service.is_member_group(&b, &GroupMember::from_group(&a)).unwrap());
}

#[test]
fn transitive_membership_reaches_through_a_nested_group() {
    let tenant = tenant_a();
    let mut groups = GroupRepository::new();
    let mut users = UserRepository::new();

    let u = user(&tenant, "john_doe");
    users.add(&u).unwrap();

    let mut a = group(&tenant, "a");
    let mut b = group(&tenant, "b");
    b.add_user(&u).unwrap();
    {
        let service = GroupMemberService::new(&groups, &users);
        a.add_group(&b, &service).unwrap();
    }
    groups.add(&a).unwrap();
    groups.add(&b).unwrap();

    let service = GroupMemberService::new(&groups, &users);
    assert!(a.is_member(&u, &service).unwrap());
    assert!(b.is_member(&u, &service).unwrap());
}

#[test]
fn removing_the_user_from_the_nested_group_removes_the_membership() {
    let tenant = tenant_a();
    let mut groups = GroupRepository::new();
    let mut users = UserRepository::new();

    let u = user(&tenant, "john_doe");
    users.add(&u).unwrap();

    let mut a = group(&tenant, "a");
    let mut b = group(&tenant, "b");
    b.add_user(&u).unwrap();
    {
        let service = GroupMemberService::new(&groups, &users);
        a.add_group(&b, &service).unwrap();
    }
    groups.add(&a).unwrap();
    groups.add(&b).unwrap();

    b.remove_user(&u).unwrap();
    groups.update(&b).unwrap();

    let service = GroupMemberService::new(&groups, &users);
    assert!(!a.is_member(&u, &service).unwrap());
    assert_eq!(a.members().len(), 1);
    assert_eq!(b.members().len(), 0);
}

#[test]
fn is_member_rejects_a_user_of_another_tenant() {
    let tenant = tenant_a();
    let groups = GroupRepository::new();
    let users = UserRepository::new();
    let service = GroupMemberService::new(&groups, &users);

    let fixture = group(&tenant, "staff");
    let foreign = user(&tenant_b(), "john_doe");
    let err = fixture.is_member(&foreign, &service).unwrap_err();
    assert!(matches!(err, Error::NotEqual(_, _)));
}

#[test]
fn confirm_user_is_false_for_an_unknown_user() {
    let tenant = tenant_a();
    let groups = GroupRepository::new();
    let users = UserRepository::new();
    let service = GroupMemberService::new(&groups, &users);

    let fixture = group(&tenant, "staff");
    let u = user(&tenant, "john_doe");
    assert!(!service.confirm_user(&fixture, &u).unwrap());
}

#[test]
fn membership_confirms_against_the_stored_user() {
    let tenant = tenant_a();
    let groups = GroupRepository::new();
    let mut users = UserRepository::new();

    let u = user(&tenant, "john_doe");
    let mut stored = user(&tenant, "john_doe");
    stored.define_enablement(Enablement::Disabled);
    users.add(&stored).unwrap();

    let mut fixture = group(&tenant, "staff");
    fixture.add_user(&u).unwrap();

    let service = GroupMemberService::new(&groups, &users);
    assert!(!fixture.is_member(&u, &service).unwrap());
}

#[test]
fn group_repository_find_and_duplicates() {
    let tenant = tenant_a();
    let mut groups = GroupRepository::new();
    let staff = group(&tenant, "staff");
    groups.add(&staff).unwrap();

    let err = groups.add(&staff).unwrap_err();
    assert!(matches!(err, GroupRepositoryError::Exists(_, _)));

    let found = groups
        .find_by_name(&tenant, &GroupName::new("staff").unwrap())
        .unwrap();
    assert_eq!(found.name().as_str(), "staff");

    let missing = groups.find_by_name(&tenant, &GroupName::new("nobody").unwrap());
    assert!(matches!(missing.unwrap_err(), GroupRepositoryError::NotFound(_, _)));

    let all = groups.find_all(&tenant);
    assert_eq!(all.len(), 1);
    assert_eq!(groups.find_all(&tenant_b()).len(), 0);
}

#[test]
fn group_member_is_group_with_name() {
    let tenant = tenant_a();
    let g = group(&tenant, "staff");
    let member = GroupMember::from_group(&g);
    assert!(member.is_group_with_name("staff"));
    assert!(!member.is_group_with_name("other"));

    let u = user(&tenant, "john_doe");
    let member = GroupMember::from_user(&u);
    assert!(!member.is_group_with_name("john_doe"));
}

#[test]
fn role_new_derives_the_backing_group_name() {
    let tenant = tenant_a();
    let role = Role::new(
        tenant.clone(),
        RoleName::new("admin").unwrap(),
        Some(RoleDescription::new("administrators").unwrap()),
        true,
    )
    .unwrap();
    assert_eq!(role.name().as_str(), "admin");
    assert!(role.supports_nesting());
    assert_eq!(role.group().name().as_str(), "ROLE-INTERNAL-GROUP: admin");
    assert_eq!(role.group().tenant_id().as_str(), tenant.as_str());
    assert_eq!(role.group().members().len(), 0);
}

#[test]
fn role_new_rejects_a_name_that_overflows_the_group_name() {
    let tenant = tenant_a();
    let result = Role::new(tenant, RoleName::new(&"x".repeat(60)).unwrap(), None, false);
    assert!(matches!(result.unwrap_err(), Error::TooLong(_, _)));
}

#[test]
fn role_assign_and_unassign_user() {
    let tenant = tenant_a();
    let mut role = Role::new(tenant.clone(), RoleName::new("admin").unwrap(), None, false)
        .unwrap();
    let u = user(&tenant, "john_doe");

    role.assign_user(&u).unwrap();
    assert_eq!(role.group().members().len(), 1);

    role.unassign_user(&u).unwrap();
    assert_eq!(role.group().members().len(), 0);
}

#[test]
fn role_group_nesting_is_gated() {
    let tenant = tenant_a();
    let groups = GroupRepository::new();
    let users = UserRepository::new();
    let service = GroupMemberService::new(&groups, &users);

    let mut flat = Role::new(tenant.clone(), RoleName::new("flat").unwrap(), None, false)
        .unwrap();
    let g = group(&tenant, "staff");
    let err = flat.assign_group(&g, &service).unwrap_err();
    assert_eq!(
        err,
        Error::Generic("this role does not support group nesting".to_string())
    );
    assert_eq!(flat.unassign_group(&g).unwrap_err(), err);

    let mut nested = Role::new(tenant.clone(), RoleName::new("nested").unwrap(), None, true)
        .unwrap();
    nested.assign_group(&g, &service).unwrap();
    assert_eq!(nested.group().members().len(), 1);
    nested.unassign_group(&g).unwrap();
    assert_eq!(nested.group().members().len(), 0);
}

#[test]
fn role_is_in_role_goes_through_the_backing_group() {
    let tenant = tenant_a();
    let groups = GroupRepository::new();
    let mut users = UserRepository::new();

    let u = user(&tenant, "john_doe");
    users.add(&u).unwrap();

    let mut role = Role::new(tenant.clone(), RoleName::new("admin").unwrap(), None, false)
        .unwrap();
    role.assign_user(&u).unwrap();

    let service = GroupMemberService::new(&groups, &users);
    assert!(role.is_in_role(&u, &service).unwrap());

    let other = user(&tenant, "jane_doe");
    assert!(!role.is_in_role(&other, &service).unwrap());
}

#[test]
fn roles_compare_by_tenant_and_name() {
    let tenant = tenant_a();
    let mut first = Role::new(tenant.clone(), RoleName::new("admin").unwrap(), None, false)
        .unwrap();
    let second = Role::new(tenant.clone(), RoleName::new("admin").unwrap(), None, true)
        .unwrap();
    let third = Role::new(tenant.clone(), RoleName::new("other").unwrap(), None, false)
        .unwrap();

    let u = user(&tenant, "john_doe");
    first.assign_user(&u).unwrap();

    assert!(first == second);
    assert!(first != third);
}

#[test]
fn cloning_a_role_keeps_the_backing_group() {
    let tenant = tenant_a();
    let mut role = Role::new(tenant.clone(), RoleName::new("admin").unwrap(), None, false)
        .unwrap();
    let u = user(&tenant, "john_doe");
    role.assign_user(&u).unwrap();

    let copy = role.clone();
    assert!(copy == role);
    assert_eq!(copy.group().members().len(), 1);
    assert_eq!(copy.group().name().as_str(), role.group().name().as_str());
}
