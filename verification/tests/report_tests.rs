use minigrep::status_message;
use minigrep::usize_to_decimal;

#[test]
fn no_matches_status() {
    assert_eq!("No matches found", status_message(0));
}

#[test]
fn singular_status() {
    assert_eq!("1 match found", status_message(1));
}

#[test]
fn plural_status_carries_the_count() {
    assert_eq!("2 matches found", status_message(2));
    assert_eq!("12345 matches found", status_message(12345));
}

#[test]
fn decimal_rendering() {
    assert_eq!("0", usize_to_decimal(0));
    assert_eq!("7", usize_to_decimal(7));
    assert_eq!("10", usize_to_decimal(10));
    assert_eq!("90210", usize_to_decimal(90210));
}
