use iam::invitation::{InvitationDescription, InvitationId, RegistrationInvitation};
use iam::validate::Error;
use iam::validity::Validity;

fn now_ms() -> i64 {
    chrono::Utc::now().timestamp_millis()
}

const DAY: i64 = 24 * 60 * 60 * 1000;

#[test]
fn invitation_description_test_new_fail_empty() {
    let raw = "";
    let result = InvitationDescription::new(raw);
    assert!(result.is_err());
    assert_eq!(
        result.unwrap_err(),
        Error::Required("InvitationDescription".to_string())
    );
}

#[test]
fn invitation_description_test_new_fail_too_long() {
    let raw = "foo".repeat(100);
    let result = InvitationDescription::new(&raw);
    assert!(result.is_err());
    assert_eq!(
        result.unwrap_err(),
        Error::TooLong("InvitationDescription".to_string(), 255)
    );
}

#[test]
fn invitation_description_test_new_succeed() {
    let raw = "a description";
    let fixture = InvitationDescription::new(raw).unwrap();
    assert_eq!(fixture.as_str(), raw);
}

#[test]
fn test_to_string() {
    let raw = "a description";
    let fixture = InvitationDescription::new(raw).unwrap();
    assert_eq!(fixture.into_string(), raw);
}

#[test]
fn invitation_description_test_into_string() {
    let raw = "a description";
    let fixture = InvitationDescription::new(raw).unwrap();
    assert_eq!(fixture.into_string(), raw);
}

#[test]
fn invitation_id_test_new_fail_empty() {
    let raw = "";
    let result = InvitationId::new(raw);
    assert!(result.is_err());
    assert_eq!(result.unwrap_err(), Error::Required("InvitationId".to_string()));
}

#[test]
fn invitation_id_test_new_fail_too_long() {
    let raw = "123e4567-e89b-12d3-a456-4266554400001";
    let result = InvitationId::new(raw);
    assert!(result.is_err());
    assert_eq!(result.unwrap_err(), Error::TooLong("InvitationId".to_string(), 36));
}

#[test]
fn invitation_id_test_new_succeed() {
    let raw = "123e4567-e89b-12d3-a456-426655440000";
    let fixture = InvitationId::new(raw).unwrap();
    assert_eq!(fixture.as_str(), raw);
}

#[test]
fn test_into_string() {
    let raw = "123e4567-e89b-12d3-a456-426655440000";
    let fixture = InvitationId::new(raw).unwrap();
    assert_eq!(fixture.into_string(), raw);
}

#[test]
fn invitation_id_random_is_a_uuid_text() {
    let fixture = InvitationId::random();
    assert_eq!(fixture.as_str().len(), 36);
    let other = InvitationId::random();
    assert_ne!(fixture.as_str(), other.as_str());
}

#[test]
fn test_hydrate() {
    let invitation_id = InvitationId::new("123e4567-e89b-12d3-a456-426655440000").unwrap();
    let description = InvitationDescription::new("a_description").unwrap();
    let validity = Validity::OpenEnded;

    let fixture = RegistrationInvitation::hydrate(
        invitation_id.clone(),
        description.clone(),
        validity,
    );

    assert_eq!(fixture.invitation_id(), &invitation_id);
    assert_eq!(fixture.description(), &description);
    assert_eq!(fixture.validity(), &validity);
}

#[test]
fn test_new() {
    let description = InvitationDescription::new("a_description").unwrap();
    let fixture = RegistrationInvitation::new(description.clone());

    assert_eq!(fixture.description(), &description);
    assert_eq!(fixture.validity(), &Validity::OpenEnded);
}

#[test]
fn test_is_identified_by_id() {
    let description = InvitationDescription::new("a_description").unwrap();
    let fixture = RegistrationInvitation::new(description);

    let id = fixture.invitation_id().into_string();
    assert!(fixture.is_identified_by(&id));
}

#[test]
fn test_is_identified_by_description() {
    let description = InvitationDescription::new("a_description").unwrap();
    let fixture = RegistrationInvitation::new(description);

    assert!(fixture.is_identified_by("a_description"));
}

#[test]
fn test_is_identified_by_not_identified() {
    let description = InvitationDescription::new("a_description").unwrap();
    let fixture = RegistrationInvitation::new(description);

    assert!(!fixture.is_identified_by("other"));
}

#[test]
fn test_is_available_open_ended() {
    let description = InvitationDescription::new("a_description").unwrap();
    let fixture = RegistrationInvitation::new(description);

    assert!(fixture.is_available());
}

#[test]
fn test_redefine_as() {
    let description = InvitationDescription::new("a_description").unwrap();
    let mut fixture = RegistrationInvitation::new(description);

    let new_validity = Validity::new(None, Some(now_ms() + 30 * DAY)).unwrap();

    fixture.redefine_as(new_validity);

    assert_eq!(fixture.validity(), &new_validity);
}

#[test]
fn redefine_to_past_window_makes_unavailable() {
    let description = InvitationDescription::new("a_description").unwrap();
    let mut fixture = RegistrationInvitation::new(description);
    assert!(fixture.is_available());

    fixture.redefine_as(Validity::new(None, Some(now_ms() - DAY)).unwrap());
    assert!(!fixture.is_available());
    assert!(fixture.is_available_at(now_ms() - 2 * DAY));
}

#[test]
fn invitations_compare_by_identifier() {
    let description = InvitationDescription::new("a_description").unwrap();
    let first = RegistrationInvitation::new(description.clone());
    let second = RegistrationInvitation::new(description.clone());
    assert!(first != second);

    let same = RegistrationInvitation::hydrate(
        first.invitation_id().clone(),
        InvitationDescription::new("another description").unwrap(),
        Validity::OpenEnded,
    );
    assert!(first == same);
}
