use certificates::expiry::{expiry_height, HEIGHTS_PER_DAY};
use certificates::links::verification_url;

#[test]
fn past_expiry_date_is_rejected() {
    assert_eq!(expiry_height(1000, -1), None);
    assert_eq!(expiry_height(0, i64::MIN), None);
}

#[test]
fn expiry_today_is_the_current_height() {
    assert_eq!(expiry_height(1234, 0), Some(1234));
}

#[test]
fn expiry_height_counts_whole_days() {
    assert_eq!(HEIGHTS_PER_DAY, 7200);
    assert_eq!(expiry_height(100, 30), Some(100 + 30 * 7200));
    assert_eq!(expiry_height(0, 1), Some(7200));
}

#[test]
fn overflowing_expiry_is_rejected() {
    assert_eq!(expiry_height(u64::MAX, 1), None);
    assert_eq!(expiry_height(0, i64::MAX), None);
}

#[test]
fn verification_url_appends_the_account() {
    assert_eq!(
        verification_url("https://verisite.io/verify/", "5Fexample"),
        "https://verisite.io/verify/5Fexample"
    );
    assert_eq!(verification_url("", "acct"), "acct");
}
