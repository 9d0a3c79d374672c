use tcping::cause::{chars_of, fmt_err, normalize_with, resolution_error_text, same_chars};

#[test]
fn cause_is_capitalised_and_stopped() {
    assert_eq!(fmt_err("connection refused"), "Connection refused.");
}

#[test]
fn normalised_cause_is_unchanged() {
    assert_eq!(fmt_err("Connection refused."), "Connection refused.");
    assert_eq!(fmt_err(&fmt_err("host unreachable")), "Host unreachable.");
}

#[test]
fn capitalised_cause_gets_stop() {
    assert_eq!(fmt_err("Operation timed out"), "Operation timed out.");
}

#[test]
fn lowercase_cause_with_stop() {
    assert_eq!(fmt_err("no route to host."), "No route to host.");
}

#[test]
fn empty_cause_stays_empty() {
    assert_eq!(fmt_err(""), "");
}

#[test]
fn non_letter_start_is_kept() {
    assert_eq!(fmt_err("42 is not a port"), "42 is not a port.");
    assert_eq!(fmt_err("."), ".");
}

#[test]
fn uppercase_mapping_may_widen() {
    assert_eq!(fmt_err("ßtraße"), "SStraße.");
    assert_eq!(fmt_err("é"), "É.");
}

#[test]
fn normalize_with_given_first_char() {
    assert_eq!(normalize_with("ab", true, &vec!['A']), "Ab.");
    assert_eq!(normalize_with("ab", false, &vec!['A']), "ab.");
    assert_eq!(normalize_with("xyz", true, &vec!['Q', 'R']), "QRyz.");
    assert_eq!(normalize_with("", true, &vec!['Q']), "");
    assert_eq!(normalize_with("a", true, &vec![]), "");
}

#[test]
fn malformed_target_text() {
    assert_eq!(
        resolution_error_text("invalid socket address"),
        "Invalid argument. Expected format: 'host:port' (i.e. 'google.com:80')."
    );
}

#[test]
fn resolution_failure_text() {
    assert_eq!(
        resolution_error_text("failed to lookup address information: Name or service not known"),
        "Failed to lookup address information: Name or service not known."
    );
}

#[test]
fn chars_round_trip() {
    assert_eq!(chars_of("añb"), vec!['a', 'ñ', 'b']);
    assert!(same_chars(&vec!['a', 'b'], &vec!['a', 'b']));
    assert!(!same_chars(&vec!['a', 'b'], &vec!['a', 'c']));
    assert!(!same_chars(&vec!['a'], &vec!['a', 'b']));
}
