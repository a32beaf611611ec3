use iam::ids::TenantId;
use iam::tenant::{Tenant, TenantDescription, TenantError, TenantName};
use iam::validate::Error;
use iam::validity::Validity;

fn now_ms() -> i64 {
    chrono::Utc::now().timestamp_millis()
}

const DAY: i64 = 24 * 60 * 60 * 1000;

fn active_tenant() -> Tenant {
    Tenant::new(
        TenantName::new("a_tenant").unwrap(),
        Some(TenantDescription::new("a tenant for tests").unwrap()),
        true,
    )
}

#[test]
fn tenant_id_test_valid_tenant_id() {
    let tenant_id = TenantId::new("123e4567-e89b-12d3-a456-426655440000").unwrap();
    assert_eq!(
        tenant_id.into_string(),
        "123e4567-e89b-12d3-a456-426655440000"
    );
}

#[test]
fn tenant_id_test_invalid_tenant_id() {
    let result = TenantId::new("invalid-id");
    assert!(result.is_err());
    assert_eq!(result.unwrap_err(), Error::InvalidFormat("tenant_id".to_string()));
}

#[test]
fn tenant_id_random_is_a_uuid_text() {
    let tenant_id = TenantId::random();
    assert_eq!(tenant_id.into_string().len(), 36);
    let reparsed = TenantId::new(tenant_id.as_str()).unwrap();
    assert_eq!(reparsed.into_string(), tenant_id.into_string());
}

#[test]
fn tenant_name_bounds() {
    assert_eq!(
        TenantName::new("").unwrap_err(),
        Error::Required("TenantName".to_string())
    );
    assert_eq!(
        TenantName::new(&"x".repeat(71)).unwrap_err(),
        Error::TooLong("TenantName".to_string(), 70)
    );
    assert_eq!(TenantName::new(&"x".repeat(70)).unwrap().as_str(), "x".repeat(70));
}

#[test]
fn tenant_description_bounds() {
    assert_eq!(
        TenantDescription::new("").unwrap_err(),
        Error::Required("TenantDescription".to_string())
    );
    assert_eq!(
        TenantDescription::new(&"x".repeat(256)).unwrap_err(),
        Error::TooLong("TenantDescription".to_string(), 255)
    );
}

#[test]
fn new_tenant_has_no_invitations() {
    let tenant = active_tenant();
    assert!(tenant.active());
    assert_eq!(tenant.invitations().len(), 0);
    assert_eq!(tenant.name().as_str(), "a_tenant");
}

#[test]
fn activate_and_deactivate_toggle_the_flag() {
    let mut tenant = active_tenant();
    tenant.deactivate();
    assert!(!tenant.active());
    tenant.activate();
    assert!(tenant.active());
}

#[test]
fn offer_invitation_appends_an_open_ended_invitation() {
    let mut tenant = active_tenant();
    tenant.offer_invitation("open house").unwrap();
    assert_eq!(tenant.invitations().len(), 1);
    let invitation = &tenant.invitations()[0];
    assert_eq!(invitation.description().as_str(), "open house");
    assert_eq!(invitation.validity(), &Validity::OpenEnded);
    assert!(tenant.is_registration_available_through("open house").unwrap());
}

#[test]
fn offer_invitation_rejects_a_description_already_available() {
    let mut tenant = active_tenant();
    tenant.offer_invitation("open house").unwrap();
    let err = tenant.offer_invitation("open house").unwrap_err();
    assert_eq!(err, TenantError::InvitationExists("open house".to_string()));
    assert_eq!(tenant.invitations().len(), 1);
}

#[test]
fn offer_invitation_rejects_an_invalid_description() {
    let mut tenant = active_tenant();
    let err = tenant.offer_invitation("").unwrap_err();
    assert_eq!(
        err,
        TenantError::Validation(Error::Required("InvitationDescription".to_string()))
    );
    assert_eq!(tenant.invitations().len(), 0);
}

#[test]
fn availability_round_trip_through_description() {
    let mut tenant = active_tenant();
    tenant.offer_invitation("D").unwrap();
    assert!(tenant.is_registration_available_through("D").unwrap());

    let past = Validity::new(None, Some(now_ms() - DAY)).unwrap();
    tenant.redefine_invitation_as("D", past).unwrap();
    assert!(!tenant.is_registration_available_through("D").unwrap());
}

#[test]
fn availability_through_the_invitation_id() {
    let mut tenant = active_tenant();
    tenant.offer_invitation("D").unwrap();
    let id = tenant.invitations()[0].invitation_id().into_string();
    assert!(tenant.is_registration_available_through(&id).unwrap());
    assert!(!tenant.is_registration_available_through("other").unwrap());
}

#[test]
fn redefine_invitation_missing_identifier_fails() {
    let mut tenant = active_tenant();
    let err = tenant
        .redefine_invitation_as("missing", Validity::OpenEnded)
        .unwrap_err();
    assert_eq!(err, TenantError::InvitationNotFound("missing".to_string()));
}

#[test]
fn withdraw_invitation_removes_it() {
    let mut tenant = active_tenant();
    tenant.offer_invitation("D").unwrap();
    tenant.withdraw_invitation("D").unwrap();
    assert_eq!(tenant.invitations().len(), 0);
    let err = tenant.withdraw_invitation("D").unwrap_err();
    assert_eq!(err, TenantError::InvitationNotFound("D".to_string()));
}

#[test]
fn inactive_tenant_rejects_every_invitation_operation() {
    let mut tenant = active_tenant();
    tenant.offer_invitation("D").unwrap();
    tenant.deactivate();

    assert_eq!(
        tenant.offer_invitation("E").unwrap_err(),
        TenantError::NotActive
    );
    assert_eq!(
        tenant
            .redefine_invitation_as("D", Validity::OpenEnded)
            .unwrap_err(),
        TenantError::NotActive
    );
    assert_eq!(tenant.withdraw_invitation("D").unwrap_err(), TenantError::NotActive);
    assert_eq!(
        tenant.is_registration_available_through("D").unwrap_err(),
        TenantError::NotActive
    );
    assert_eq!(
        tenant.all_available_registration_invitations().unwrap_err(),
        TenantError::NotActive
    );
    assert_eq!(
        tenant.all_unavailable_registration_invitations().unwrap_err(),
        TenantError::NotActive
    );
    assert_eq!(tenant.invitations().len(), 1);
    assert_eq!(tenant.invitations()[0].description().as_str(), "D");
}

#[test]
fn listings_partition_by_availability() {
    let mut tenant = active_tenant();
    tenant.offer_invitation("open").unwrap();
    tenant.offer_invitation("closed").unwrap();
    let past = Validity::new(None, Some(now_ms() - DAY)).unwrap();
    tenant.redefine_invitation_as("closed", past).unwrap();

    let available = tenant.all_available_registration_invitations().unwrap();
    assert_eq!(available.len(), 1);
    assert_eq!(available[0].invitation_description.as_str(), "open");
    assert_eq!(
        available[0].tenant_id.into_string(),
        tenant.tenant_id().into_string()
    );

    let unavailable = tenant.all_unavailable_registration_invitations().unwrap();
    assert_eq!(unavailable.len(), 1);
    assert_eq!(unavailable[0].invitation_description.as_str(), "closed");
}

#[test]
fn hydrate_keeps_the_given_parts() {
    let tenant_id = TenantId::new("123e4567-e89b-12d3-a456-426655440000").unwrap();
    let tenant = Tenant::hydrate(
        tenant_id,
        TenantName::new("restored").unwrap(),
        None,
        false,
        Vec::new(),
    );
    assert_eq!(tenant.tenant_id().as_str(), "123e4567-e89b-12d3-a456-426655440000");
    assert_eq!(tenant.name().as_str(), "restored");
    assert!(tenant.description().is_none());
    assert!(!tenant.active());
}

#[test]
fn tenants_compare_by_identifier() {
    let first = active_tenant();
    let second = active_tenant();
    assert!(first != second);

    let restored = Tenant::hydrate(
        TenantId::new(first.tenant_id().as_str()).unwrap(),
        TenantName::new("another_name").unwrap(),
        None,
        false,
        Vec::new(),
    );
    assert!(first == restored);
}
