use iam::password::{EncryptedPassword, PlainPassword};
use iam::user::Username;
use iam::validate::Error;

#[test]
fn generate_password() {
    let generated = PlainPassword::generate();
    assert!(generated.is_strong());
    assert!(generated.as_ref().len() > 7);
}

#[test]
fn is_very_strong_true() {
    let very_strong = PlainPassword::new("P@ssw0rd123$(foo)123");
    assert!(very_strong.is_very_strong());
}

#[test]
fn is_very_strong_false() {
    let weak = PlainPassword::new("weakpassword");
    assert!(!weak.is_very_strong());
}

#[test]
fn is_strong_true() {
    let strong = PlainPassword::new("P@ssw0rd1");
    assert!(strong.is_strong());
}

#[test]
fn is_strong_false() {
    let weak = PlainPassword::new("weak");
    assert!(!weak.is_strong());
}

#[test]
fn is_weak_true() {
    let weak = PlainPassword::new("weak");
    assert!(weak.is_weak());
}

#[test]
fn is_weak_false() {
    let strong = PlainPassword::new("P@ssw0rd1");
    assert!(!strong.is_weak());
}

#[test]
fn password_to_string() {
    let password = PlainPassword::new("P@ssw0rd1");
    assert_eq!(password.to_string(), "***");
}

#[test]
fn as_ref() {
    let password = PlainPassword::new("P@ssw0rd1");
    assert_eq!(password.as_ref(), "P@ssw0rd1");
}

#[test]
fn verify_success() {
    let password = PlainPassword::new("P@ssw0rd1");
    let encrypted = password.clone().encrypt().unwrap();
    let verified = encrypted.verify(password).unwrap();
    assert!(verified);
}

#[test]
fn verify_failure() {
    let password = PlainPassword::new("P@ssw0rd1");
    let encrypted = password.encrypt().unwrap();
    let wrong_password = PlainPassword::new("wrong");
    let verified = encrypted.verify(wrong_password).unwrap();
    assert!(!verified);
}

#[test]
fn encrypted_password_new() {
    let password = PlainPassword::new("P@ssw0rd1");
    let encrypted = password.encrypt().unwrap();
    let encrypted_new = EncryptedPassword::new(encrypted.as_ref());
    assert_eq!(encrypted, encrypted_new);
}

#[test]
fn encrypt_hides_the_text_behind_a_salted_hash() {
    let password = PlainPassword::new("P@ssw0rd1");
    let first = password.encrypt().unwrap();
    let second = password.encrypt().unwrap();
    assert_ne!(first.as_ref(), password.as_ref());
    assert_ne!(first.as_ref(), second.as_ref());
}

#[test]
fn new_success() {
    let username = Username::new("john_doe").unwrap();
    assert_eq!(username.to_string(), "john_doe");
}

#[test]
fn new_fails_with_required_error() {
    let result = Username::new("");
    assert!(result.is_err());
    let got = result.unwrap_err();
    let want = Error::Required("username".to_string());
    assert_eq!(want, got);
}

#[test]
fn new_fails_with_too_long_error() {
    let result = Username::new("a".repeat(256).as_str());
    assert!(result.is_err());
    let got = result.unwrap_err();
    let want = Error::TooLong("username".to_string(), 255);
    assert_eq!(want, got);
}

#[test]
fn username_to_string() {
    let fixture = Username::new("john_doe").unwrap();
    assert_eq!(fixture.to_string(), "john_doe");
}

#[test]
fn into_string() {
    let fixture = Username::new("john_doe").unwrap();
    let actual: String = fixture.into_string();
    assert_eq!(actual, fixture.to_string());
}
