use iam::enablement::Enablement;
use iam::ids::TenantId;
use iam::password::PlainPassword;
use iam::person::{ContactInformation, EmailAddress, FullName, Person};
use iam::user::{User, UserDescriptor, UserRepository, UserRepositoryError, Username};
use iam::validity::Validity;

fn now_ms() -> i64 {
    chrono::Utc::now().timestamp_millis()
}

const DAY: i64 = 24 * 60 * 60 * 1000;

fn tenant() -> TenantId {
    TenantId::new("123e4567-e89b-12d3-a456-426655440000").unwrap()
}

fn person() -> Person {
    Person::new(
        FullName::new("John", "Doe").unwrap(),
        ContactInformation::new(
            EmailAddress::new("john.doe@example.com").unwrap(),
            None,
            None,
            None,
        ),
    )
}

fn john() -> User {
    User::new(
        tenant(),
        Username::new("john_doe").unwrap(),
        PlainPassword::new("P@ssw0rd1"),
        Enablement::indefinite(),
        person(),
    )
    .unwrap()
}

#[test]
fn user_new_protects_the_password() {
    let fixture = john();
    assert_eq!(fixture.username().as_str(), "john_doe");
    assert_ne!(fixture.password().as_ref(), "P@ssw0rd1");
    assert!(fixture.password().verify(PlainPassword::new("P@ssw0rd1")).unwrap());
}

#[test]
fn user_new_rejects_a_weak_password() {
    let result = User::new(
        tenant(),
        Username::new("john_doe").unwrap(),
        PlainPassword::new("weak"),
        Enablement::indefinite(),
        person(),
    );
    assert!(result.is_err());
}

#[test]
fn user_new_rejects_a_password_equal_to_the_username() {
    let result = User::new(
        tenant(),
        Username::new("P@ssw0rd111111").unwrap(),
        PlainPassword::new("P@ssw0rd111111"),
        Enablement::indefinite(),
        person(),
    );
    assert!(result.is_err());
}

#[test]
fn change_password_requires_the_current_one() {
    let mut fixture = john();
    let err = fixture
        .change_password(PlainPassword::new("wrong"), PlainPassword::new("N3w!Passw0rd"))
        .unwrap_err();
    assert_eq!(
        err,
        iam::validate::Error::Generic("current password not confirmed".to_string())
    );

    fixture
        .change_password(PlainPassword::new("P@ssw0rd1"), PlainPassword::new("N3w!Passw0rd"))
        .unwrap();
    assert!(fixture.password().verify(PlainPassword::new("N3w!Passw0rd")).unwrap());
}

#[test]
fn change_password_rejects_a_weak_replacement() {
    let mut fixture = john();
    let err = fixture
        .change_password(PlainPassword::new("P@ssw0rd1"), PlainPassword::new("weak"))
        .unwrap_err();
    assert_eq!(err, iam::validate::Error::Generic("new password is weak".to_string()));
    assert!(fixture.password().verify(PlainPassword::new("P@ssw0rd1")).unwrap());
}

#[test]
fn user_enablement_window_gates_is_enabled() {
    let mut fixture = john();
    assert!(fixture.is_enabled());

    fixture.define_enablement(Enablement::Disabled);
    assert!(!fixture.is_enabled());

    let past = Validity::new(None, Some(now_ms() - DAY)).unwrap();
    fixture.define_enablement(Enablement::new(true, past));
    assert!(!fixture.is_enabled());
    assert!(fixture.is_enabled_at(now_ms() - 2 * DAY));
}

#[test]
fn change_personal_name_and_contact_information() {
    let mut fixture = john();
    fixture.change_personal_name(FullName::new("Jane", "Doe").unwrap());
    assert_eq!(fixture.person().name().as_formatted_name(), "Jane Doe");

    let contact = ContactInformation::new(
        EmailAddress::new("jane@example.com").unwrap(),
        None,
        None,
        None,
    );
    fixture.change_personal_contact_information(contact);
    assert_eq!(fixture.person().email_address().as_str(), "jane@example.com");
}

#[test]
fn user_descriptor_captures_the_identity() {
    let fixture = john();
    let descriptor = UserDescriptor::new(&fixture);
    assert_eq!(descriptor.username, "john_doe");
    assert_eq!(descriptor.email_address.as_str(), "john.doe@example.com");
    assert_eq!(descriptor.tenant_id.as_str(), tenant().as_str());
}

#[test]
fn user_repository_add_find_update_remove() {
    let mut repository = UserRepository::new();
    let fixture = john();

    repository.add(&fixture).unwrap();
    let err = repository.add(&fixture).unwrap_err();
    assert!(matches!(err, UserRepositoryError::Exists(_, _)));

    let found = repository
        .find_by_username(&tenant(), &Username::new("john_doe").unwrap())
        .unwrap();
    assert_eq!(found.username().as_str(), "john_doe");

    let mut updated = john();
    updated.define_enablement(Enablement::Disabled);
    repository.update(&updated).unwrap();
    let found = repository
        .find_by_username(&tenant(), &Username::new("john_doe").unwrap())
        .unwrap();
    assert!(!found.is_enabled());

    repository.remove(&fixture).unwrap();
    let missing = repository.find_by_username(&tenant(), &Username::new("john_doe").unwrap());
    assert!(matches!(missing.unwrap_err(), UserRepositoryError::NotFound(_, _)));
}

#[test]
fn user_hydrate_keeps_the_given_parts() {
    let fixture = User::hydrate(
        tenant(),
        Username::new("john_doe").unwrap(),
        iam::password::EncryptedPassword::new("$argon2id$stub"),
        Enablement::Disabled,
        person(),
    );
    assert_eq!(fixture.password().as_ref(), "$argon2id$stub");
    assert!(!fixture.enablement().enabled());
}

#[test]
fn users_compare_by_tenant_and_username() {
    let first = john();
    let mut second = john();
    second.define_enablement(Enablement::Disabled);
    assert!(first == second);

    let other = User::new(
        tenant(),
        Username::new("jane_doe").unwrap(),
        PlainPassword::new("P@ssw0rd1"),
        Enablement::indefinite(),
        person(),
    )
    .unwrap();
    assert!(first != other);
}
