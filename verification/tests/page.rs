use rustwright::diagnostics::{civil_from_days, iso8601_utc};
use rustwright::page::{key_definition, normalize_url};

#[test]
fn prefixes_bare_hosts_with_https() {
    assert_eq!(normalize_url("example.com"), "https://example.com");
    assert_eq!(normalize_url("  example.com  "), "https://example.com");
}

#[test]
fn leaves_explicit_schemes_alone() {
    assert_eq!(normalize_url("http://example.com"), "http://example.com");
    assert_eq!(normalize_url("file:///tmp/a.html"), "file:///tmp/a.html");
    assert_eq!(normalize_url("data:text/html,<title>x</title>"), "data:text/html,<title>x</title>");
    assert_eq!(normalize_url("about:blank"), "about:blank");
}

#[test]
fn empty_input_becomes_about_blank() {
    assert_eq!(normalize_url(""), "about:blank");
}

#[test]
fn maps_common_keys() {
    let enter = key_definition("Enter");
    assert_eq!(enter.key, "Enter");
    assert_eq!(enter.virtual_key_code, 13);
    assert_eq!(enter.text.as_deref(), Some("\r"));

    let letter = key_definition("a");
    assert_eq!(letter.key, "a");
    assert_eq!(letter.code, "KeyA");
    assert_eq!(letter.virtual_key_code, 65);
    assert_eq!(letter.text.as_deref(), Some("a"));
}

#[test]
fn formats_epoch_timestamps() {
    assert_eq!(iso8601_utc(0, 0), "1970-01-01T00:00:00.000Z");
    assert_eq!(iso8601_utc(1_700_000_000, 0), "2023-11-14T22:13:20.000Z");
}

#[test]
fn converts_days_to_civil_dates() {
    assert_eq!(civil_from_days(0), (1970, 1, 1));
    assert_eq!(civil_from_days(-1), (1969, 12, 31));
    assert_eq!(civil_from_days(11_016), (2000, 2, 29));
    assert_eq!(civil_from_days(19_675), (2023, 11, 14));
}

#[test]
fn formats_times_before_the_epoch() {
    assert_eq!(iso8601_utc(-1, 250), "1969-12-31T23:59:59.250Z");
}
