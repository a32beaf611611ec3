use iam::enablement::Enablement;
use iam::validity::Validity;

fn now_ms() -> i64 {
    chrono::Utc::now().timestamp_millis()
}

const DAY: i64 = 24 * 60 * 60 * 1000;

#[test]
fn new_none_none() {
    let validity = Validity::new(None, None).unwrap();
    assert_eq!(validity, Validity::OpenEnded);
}

#[test]
fn new_some_none() {
    let start_date = now_ms();
    let validity = Validity::new(Some(start_date), None).unwrap();
    assert_eq!(validity, Validity::StartingOn(start_date));
}

#[test]
fn new_none_some() {
    let end_date = now_ms();
    let validity = Validity::new(None, Some(end_date)).unwrap();
    assert_eq!(validity, Validity::Until(end_date));
}

#[test]
fn new_some_some() {
    let start_date = now_ms() - DAY;
    let end_date = now_ms() + DAY;
    let validity = Validity::new(Some(start_date), Some(end_date)).unwrap();
    assert_eq!(validity, Validity::Between(start_date, end_date));
}

#[test]
fn new_fails_when_start_after_end() {
    let start_date = now_ms() + DAY;
    let end_date = now_ms() - DAY;
    let result = Validity::new(Some(start_date), Some(end_date));
    assert_eq!(
        result.unwrap_err(),
        iam::validate::Error::GreatestThan("start_date".to_string(), end_date)
    );
}

#[test]
fn starting_on_success() {
    let start_date = now_ms() - DAY;
    let validity = Validity::open_ended().starting_on(start_date).unwrap();
    assert_eq!(validity.start_date(), Some(start_date));
}

#[test]
fn starting_on_fails() {
    let start_date = now_ms() + 2 * DAY;
    let end_date = now_ms() + DAY;
    let err = Validity::open_ended()
        .until(end_date)
        .unwrap()
        .starting_on(start_date)
        .unwrap_err();
    assert_eq!(
        err,
        iam::validate::Error::GreatestThan("start_date".to_string(), end_date)
    );
}

#[test]
fn until_fails_before_start() {
    let start_date = now_ms() + 2 * DAY;
    let end_date = now_ms() + DAY;
    let err = Validity::open_ended()
        .starting_on(start_date)
        .unwrap()
        .until(end_date)
        .unwrap_err();
    assert_eq!(
        err,
        iam::validate::Error::LesserThan("end_date".to_string(), start_date)
    );
}

#[test]
fn is_available_open_ended() {
    let validity = Validity::open_ended();
    assert!(validity.is_valid());
}

#[test]
fn is_available_starting_on_true() {
    let start_date = now_ms() - DAY;
    let validity = Validity::open_ended().starting_on(start_date).unwrap();
    assert!(validity.is_valid());
}

#[test]
fn is_available_starting_on_false() {
    let start_date = now_ms() + DAY;
    let validity = Validity::open_ended().starting_on(start_date).unwrap();
    assert!(!validity.is_valid());
}

#[test]
fn is_available_until_true() {
    let end_date = now_ms() + DAY;
    let validity = Validity::open_ended().until(end_date).unwrap();
    assert!(validity.is_valid());
}

#[test]
fn is_available_until_false() {
    let end_date = now_ms() - DAY;
    let validity = Validity::open_ended().until(end_date).unwrap();
    assert!(!validity.is_valid());
}

#[test]
fn is_available_between_true() {
    let start_date = now_ms() - DAY;
    let end_date = now_ms() + DAY;
    let validity = Validity::open_ended()
        .starting_on(start_date)
        .unwrap()
        .until(end_date)
        .unwrap();
    assert!(validity.is_valid());
}

#[test]
fn is_available_between_false_past() {
    let start_date = now_ms() - 2 * DAY;
    let end_date = now_ms() - DAY;
    let validity = Validity::open_ended()
        .starting_on(start_date)
        .unwrap()
        .until(end_date)
        .unwrap();
    assert!(!validity.is_valid());
}

#[test]
fn is_available_between_false_future() {
    let start_date = now_ms() + DAY;
    let end_date = now_ms() + 2 * DAY;
    let validity = Validity::open_ended()
        .starting_on(start_date)
        .unwrap()
        .until(end_date)
        .unwrap();
    assert!(!validity.is_valid());
}

#[test]
fn is_valid_at_between_boundaries() {
    let validity = Validity::new(Some(10), Some(20)).unwrap();
    assert!(!validity.is_valid_at(9));
    assert!(validity.is_valid_at(10));
    assert!(validity.is_valid_at(15));
    assert!(validity.is_valid_at(20));
    assert!(!validity.is_valid_at(21));
}

#[test]
fn default_is_open_ended() {
    assert_eq!(Validity::default(), Validity::OpenEnded);
}

#[test]
fn enablement_new_not_enabled() {
    let fixture = Enablement::new(false, Validity::OpenEnded);
    assert_eq!(fixture, Enablement::Disabled);
}

#[test]
fn enablement_new_always_enabled() {
    let fixture = Enablement::new(true, Validity::OpenEnded);
    assert_eq!(fixture, Enablement::Enabled(Validity::OpenEnded));
}

#[test]
fn enablement_new_enabled_with_start_date() {
    let start_date = now_ms();
    let validity = Validity::new(Some(start_date), None).unwrap();
    let fixture = Enablement::new(true, validity);
    assert_eq!(fixture, Enablement::Enabled(validity));
}

#[test]
fn enablement_new_enabled_with_end_date() {
    let end_date = now_ms();
    let validity = Validity::new(None, Some(end_date)).unwrap();
    let fixture = Enablement::new(true, validity);
    assert_eq!(fixture, Enablement::Enabled(validity));
}

#[test]
fn enablement_new_enabled_with_start_and_end_date() {
    let start_date = now_ms();
    let end_date = start_date + 30 * DAY;
    let validity = Validity::new(Some(start_date), Some(end_date)).unwrap();
    let fixture = Enablement::new(true, validity);
    assert_eq!(fixture, Enablement::Enabled(validity));
}

#[test]
fn enablement_indefinite() {
    let fixture = Enablement::indefinite();
    assert_eq!(fixture, Enablement::Enabled(Validity::OpenEnded));
}

#[test]
fn enabled_true() {
    let fixture = Enablement::new(true, Validity::OpenEnded);
    assert!(fixture.enabled());
}

#[test]
fn enabled_false() {
    let fixture = Enablement::new(false, Validity::OpenEnded);
    assert!(!fixture.enabled());
}

#[test]
fn is_time_expired_disabled() {
    let fixture = Enablement::Disabled;
    assert!(!fixture.is_time_expired());
}

#[test]
fn is_time_expired_always_enabled() {
    let fixture = Enablement::indefinite();
    assert!(!fixture.is_time_expired());
}

#[test]
fn is_time_expired_enabled_in_future() {
    let validity = Validity::new(Some(now_ms() + DAY), None).unwrap();
    let fixture = Enablement::new(true, validity);
    assert!(fixture.is_time_expired());
}

#[test]
fn is_time_expired_enabled_in_past() {
    let validity = Validity::new(None, Some(now_ms() - DAY)).unwrap();
    let fixture = Enablement::new(true, validity);
    assert!(fixture.is_time_expired());
}

#[test]
fn is_time_expired_actually_enabled() {
    let validity = Validity::new(Some(now_ms() - DAY), Some(now_ms() + DAY)).unwrap();
    let fixture = Enablement::new(true, validity);
    assert!(!fixture.is_time_expired());
}

#[test]
fn is_enabled_disabled() {
    let fixture = Enablement::Disabled;
    assert!(!fixture.is_enabled());
}

#[test]
fn is_enabled_always_enabled() {
    let fixture = Enablement::indefinite();
    assert!(fixture.is_enabled());
}

#[test]
fn is_enabled_enabled_in_future() {
    let validity = Validity::new(Some(now_ms() + DAY), None).unwrap();
    let fixture = Enablement::new(true, validity);
    assert!(!fixture.is_enabled());
}

#[test]
fn is_enabled_enabled_in_past() {
    let validity = Validity::new(None, Some(now_ms() - DAY)).unwrap();
    let fixture = Enablement::new(true, validity);
    assert!(!fixture.is_enabled());
}

#[test]
fn is_enabled_actually_enabled() {
    let validity = Validity::new(Some(now_ms() - DAY), Some(now_ms() + DAY)).unwrap();
    let fixture = Enablement::new(true, validity);
    assert!(fixture.is_enabled());
}

#[test]
fn validty_returns_window_when_enabled() {
    let validity = Validity::new(Some(5), Some(9)).unwrap();
    let fixture = Enablement::new(true, validity);
    assert_eq!(fixture.validty(), Some(&Validity::Between(5, 9)));
    assert_eq!(Enablement::Disabled.validty(), None);
}
