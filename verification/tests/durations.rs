use youtube::duration::parse_duration;

#[test]
fn minutes_and_seconds() {
    assert_eq!(parse_duration("3:45"), Some(225));
}

#[test]
fn hours_minutes_and_seconds() {
    assert_eq!(parse_duration("1:02:03"), Some(3723));
}

#[test]
fn leading_zero_field() {
    assert_eq!(parse_duration("0:09"), Some(9));
}

#[test]
fn single_field_counts_seconds() {
    assert_eq!(parse_duration("45"), Some(45));
    assert_eq!(parse_duration("0"), Some(0));
    assert_eq!(parse_duration("000123"), Some(123));
}

#[test]
fn fields_beyond_hours() {
    assert_eq!(parse_duration("1:0:0:0"), Some(216000));
    assert_eq!(parse_duration("2:03:04:05"), Some(2 * 216000 + 3 * 3600 + 4 * 60 + 5));
}

#[test]
fn fields_are_not_limited_to_sixty() {
    assert_eq!(parse_duration("90:75"), Some(90 * 60 + 75));
}

#[test]
fn plus_sign_is_accepted() {
    assert_eq!(parse_duration("+3:45"), Some(225));
    assert_eq!(parse_duration("3:+45"), Some(225));
}

#[test]
fn what_is_no_number_is_rejected() {
    assert_eq!(parse_duration(""), None);
    assert_eq!(parse_duration(":"), None);
    assert_eq!(parse_duration("3:"), None);
    assert_eq!(parse_duration(":45"), None);
    assert_eq!(parse_duration("1::2"), None);
    assert_eq!(parse_duration("abc"), None);
    assert_eq!(parse_duration("3:4a"), None);
    assert_eq!(parse_duration("-3:45"), None);
    assert_eq!(parse_duration("++3"), None);
    assert_eq!(parse_duration("+"), None);
    assert_eq!(parse_duration("3 :45"), None);
    assert_eq!(parse_duration("3.5"), None);
    assert_eq!(parse_duration("\u{663}"), None);
}

#[test]
fn largest_length() {
    assert_eq!(parse_duration("18446744073709551615"), Some(u64::MAX));
    assert_eq!(parse_duration("307445734561825860:15"), Some(u64::MAX));
}

#[test]
fn lengths_that_do_not_fit() {
    assert_eq!(parse_duration("18446744073709551616"), None);
    assert_eq!(parse_duration("307445734561825860:16"), None);
    assert_eq!(parse_duration("307445734561825861:00"), None);
    assert_eq!(parse_duration("99999999999999999999:0"), None);
    assert_eq!(parse_duration("1:0:0:0:0:0:0:0:0:0:0:0"), None);
}
