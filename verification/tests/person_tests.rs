use iam::person::{
    ContactInformation, EmailAddress, FullName, Person, PostalAddress, Telephone,
};
use iam::validate::Error;

fn contact() -> ContactInformation {
    ContactInformation::new(
        EmailAddress::new("john.doe@example.com").unwrap(),
        Some(address()),
        Some(Telephone::new("(555)123-4567").unwrap()),
        None,
    )
}

fn address() -> PostalAddress {
    PostalAddress::new("Main Street", Some("12b"), "10001", "Springfield", "IL", "US").unwrap()
}

#[test]
fn full_name_test_full_name_new() {
    let full_name = FullName::new("John", "Doe").unwrap();
    assert_eq!(full_name.as_formatted_name(), "John Doe");
}

#[test]
fn full_name_test_full_name_as_formatted_name() {
    let full_name = FullName::new("John", "Doe").unwrap();
    assert_eq!(full_name.as_formatted_name(), "John Doe");
}

#[test]
fn full_name_parts_are_kept() {
    let full_name = FullName::new("John", "Doe").unwrap();
    assert_eq!(full_name.first_name(), "John");
    assert_eq!(full_name.last_name(), "Doe");
}

#[test]
fn full_name_rejects_a_lower_case_first_name() {
    let result = FullName::new("john", "Doe");
    assert_eq!(result.unwrap_err(), Error::InvalidFormat("first_name".to_string()));
}

#[test]
fn full_name_rejects_an_empty_last_name() {
    let result = FullName::new("John", "");
    assert_eq!(result.unwrap_err(), Error::Required("last_name".to_string()));
}

#[test]
fn email_address_accepts_a_plain_address() {
    let email = EmailAddress::new("john.doe@example.com").unwrap();
    assert_eq!(email.as_str(), "john.doe@example.com");
}

#[test]
fn email_address_rejects_a_malformed_address() {
    let result = EmailAddress::new("not-an-email");
    assert_eq!(result.unwrap_err(), Error::InvalidFormat("email_address".to_string()));
}

#[test]
fn email_address_rejects_an_empty_address() {
    let result = EmailAddress::new("");
    assert_eq!(result.unwrap_err(), Error::Required("email_address".to_string()));
}

#[test]
fn telephone_accepts_both_shapes() {
    assert_eq!(Telephone::new("(555)123-4567").unwrap().as_str(), "(555)123-4567");
    assert_eq!(Telephone::new("555-123-4567").unwrap().as_str(), "555-123-4567");
}

#[test]
fn telephone_rejects_a_short_number() {
    let result = Telephone::new("123");
    assert_eq!(result.unwrap_err(), Error::TooShort("telephone".to_string(), 5));
}

#[test]
fn telephone_rejects_a_malformed_number() {
    let result = Telephone::new("12345-678");
    assert_eq!(result.unwrap_err(), Error::InvalidFormat("telephone".to_string()));
}

#[test]
fn postal_address_keeps_every_field() {
    let fixture = address();
    assert_eq!(fixture.street_name(), "Main Street");
    assert_eq!(fixture.building_number(), Some("12b"));
    assert_eq!(fixture.postal_code(), "10001");
    assert_eq!(fixture.city(), "Springfield");
    assert_eq!(fixture.state_province(), "IL");
    assert_eq!(fixture.country_code(), "US");
}

#[test]
fn postal_address_rejects_a_lower_case_country_code() {
    let result = PostalAddress::new("Main Street", None, "10001", "Springfield", "IL", "us");
    assert_eq!(result.unwrap_err(), Error::InvalidFormat("country_code".to_string()));
}

#[test]
fn postal_address_rejects_an_empty_city() {
    let result = PostalAddress::new("Main Street", None, "10001", "", "IL", "US");
    assert_eq!(result.unwrap_err(), Error::Required("city".to_string()));
}

#[test]
fn postal_address_allows_no_building_number() {
    let fixture =
        PostalAddress::new("Main Street", None, "10001", "Springfield", "IL", "US").unwrap();
    assert_eq!(fixture.building_number(), None);
}

#[test]
fn contact_information_keeps_every_part() {
    let fixture = contact();
    assert_eq!(fixture.email_address().as_str(), "john.doe@example.com");
    assert!(fixture.postal_address().is_some());
    assert_eq!(
        fixture.primary_telephone().as_ref().unwrap().as_str(),
        "(555)123-4567"
    );
    assert!(fixture.secondary_telephone().is_none());
}

#[test]
fn contact_information_with_email_address_replaces_only_the_address() {
    let fixture = contact();
    let updated = fixture.with_email_address(EmailAddress::new("jane@example.com").unwrap());
    assert_eq!(updated.email_address().as_str(), "jane@example.com");
    assert!(updated.postal_address().is_some());
    assert_eq!(
        updated.primary_telephone().as_ref().unwrap().as_str(),
        "(555)123-4567"
    );
}

#[test]
fn contact_information_with_secondary_telephone_adds_it() {
    let fixture = contact();
    let updated =
        fixture.with_secondary_telephone(Some(Telephone::new("555-999-8888").unwrap()));
    assert_eq!(
        updated.secondary_telephone().as_ref().unwrap().as_str(),
        "555-999-8888"
    );
    assert_eq!(updated.email_address().as_str(), "john.doe@example.com");
}

#[test]
fn person_exposes_name_and_contact_information() {
    let person = Person::new(FullName::new("John", "Doe").unwrap(), contact());
    assert_eq!(person.name().as_formatted_name(), "John Doe");
    assert_eq!(person.email_address().as_str(), "john.doe@example.com");
    assert_eq!(
        person.contact_information().email_address().as_str(),
        "john.doe@example.com"
    );
}

#[test]
fn person_change_name_keeps_contact_information() {
    let mut person = Person::new(FullName::new("John", "Doe").unwrap(), contact());
    person.change_name(FullName::new("Jane", "Doe").unwrap());
    assert_eq!(person.name().as_formatted_name(), "Jane Doe");
    assert_eq!(person.email_address().as_str(), "john.doe@example.com");
}
