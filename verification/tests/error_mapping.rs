//! The mapping of Trino's errors.
use postgresql_trino_gateway::error_mapping::{MAX_CLIENT_ERROR_LEN, trino_error_to_pg, truncate_with_ellipsis};

#[test]
fn syntax_error_keyword() {
    let info = trino_error_to_pg("Query failed: SYNTAX_ERROR: mismatched input");
    assert_eq!(info.code, "42601");
    assert_eq!(info.severity, "ERROR");
}

#[test]
fn syntax_error_line_position() {
    let info = trino_error_to_pg("line 1:7: mismatched input 'FROM'");
    assert_eq!(info.code, "42601");
}

#[test]
fn table_not_found_keyword() {
    let info = trino_error_to_pg("TABLE_NOT_FOUND: Table 'foo' not found");
    assert_eq!(info.code, "42P01");
}

#[test]
fn table_does_not_exist() {
    let info = trino_error_to_pg("Table 'memory.default.missing' does not exist");
    assert_eq!(info.code, "42P01");
}

#[test]
fn column_not_found() {
    let info = trino_error_to_pg("COLUMN_NOT_FOUND: Column 'x' cannot be resolved");
    assert_eq!(info.code, "42703");
}

#[test]
fn column_cannot_be_resolved() {
    let info = trino_error_to_pg("Column 'x' cannot be resolved");
    assert_eq!(info.code, "42703");
}

#[test]
fn type_mismatch() {
    let info = trino_error_to_pg("TYPE_MISMATCH: Cannot apply operator");
    assert_eq!(info.code, "42846");
}

#[test]
fn permission_denied_keyword() {
    let info = trino_error_to_pg("PERMISSION_DENIED: Cannot access catalog");
    assert_eq!(info.code, "42501");
}

#[test]
fn access_denied() {
    let info = trino_error_to_pg("Access Denied: Cannot select from table");
    assert_eq!(info.code, "42501");
}

#[test]
fn division_by_zero() {
    let info = trino_error_to_pg("DIVISION_BY_ZERO");
    assert_eq!(info.code, "22012");
}

#[test]
fn unknown_falls_through_to_default() {
    let info = trino_error_to_pg("Something totally unexpected happened");
    assert_eq!(info.code, "42000");
}

#[test]
fn preserves_original_message_when_clean() {
    let msg = "SYNTAX_ERROR: mismatched input 'SELECT'";
    let info = trino_error_to_pg(msg);
    assert_eq!(info.message, msg);
}

#[test]
fn strips_java_stack_trace() {
    let msg = "io.trino.spi.TrinoException: Table 'memory.foo' does not exist\n\
               \tat io.trino.metadata.MetadataManager.resolveTableHandle(MetadataManager.java:412)\n\
               \tat io.trino.sql.analyzer.StatementAnalyzer.analyze(StatementAnalyzer.java:1234)";
    let info = trino_error_to_pg(msg);
    assert_eq!(info.message, "Table 'memory.foo' does not exist");
    assert_eq!(info.code, "42P01");
}

#[test]
fn strips_java_exception_class_fqn() {
    let msg = "io.trino.spi.security.AccessDeniedException: Access Denied: Cannot select from table foo.bar";
    let info = trino_error_to_pg(msg);
    assert_eq!(
        info.message,
        "Access Denied: Cannot select from table foo.bar"
    );
    assert_eq!(info.code, "42501");
}

#[test]
fn keeps_messages_without_java_prefix() {
    let info = trino_error_to_pg("Column 'x' cannot be resolved");
    assert_eq!(info.message, "Column 'x' cannot be resolved");
}

#[test]
fn masks_internal_hostnames_in_urls() {
    let msg = "error sending request for url (https://internal-trino-coord.prod:8443/v1/statement/abc): connection refused";
    let info = trino_error_to_pg(msg);
    assert!(
        !info.message.contains("internal-trino-coord"),
        "hostname must be masked: {}",
        info.message
    );
    assert!(info.message.contains("<trino>"));
    assert!(info.message.contains("/v1/statement/abc"));
}

#[test]
fn masks_multiple_urls() {
    let msg = "fetch from https://worker-1.cluster:8443/x failed, retried via http://worker-2.cluster:8443/x";
    let info = trino_error_to_pg(msg);
    assert!(!info.message.contains("worker-1.cluster"));
    assert!(!info.message.contains("worker-2.cluster"));
    assert_eq!(info.message.matches("<trino>").count(), 2);
}

#[test]
fn sqlstate_classification_uses_full_message() {
    // Sanitisation drops `io.trino.spi.TrinoException`, but the
    // SQLSTATE classifier still sees the keyword in the full string.
    let msg = "io.trino.spi.security.AccessDeniedException: PERMISSION_DENIED: foo";
    let info = trino_error_to_pg(msg);
    assert_eq!(info.code, "42501");
}

#[test]
fn strips_nested_exception_wrappers() {
    let msg =
        "io.trino.spi.TrinoException: io.trino.spi.PrestoException: Table 'foo' does not exist";
    let info = trino_error_to_pg(msg);
    assert_eq!(info.message, "Table 'foo' does not exist");
}

#[test]
fn caps_oversized_messages() {
    let huge = format!("Error: {}", "x".repeat(10_000));
    let info = trino_error_to_pg(&huge);
    assert!(
        info.message.len() <= MAX_CLIENT_ERROR_LEN,
        "expected <= {} bytes, got {}",
        MAX_CLIENT_ERROR_LEN,
        info.message.len()
    );
    assert!(
        info.message.ends_with('…'),
        "truncated message should end with ellipsis"
    );
}

#[test]
fn truncate_respects_char_boundary() {
    // Pad with non-ASCII so the naive byte-cut would fall mid-character.
    let mut s = "ä".repeat(300); // each 'ä' is 2 bytes -> 600 bytes total
    truncate_with_ellipsis(&mut s, 50);
    assert!(s.len() <= 50);
    // Must still be valid UTF-8 (the test framework would have already
    // panicked if String::truncate had cut a code point).
    assert!(s.ends_with('…'));
}

/// Every URL counts, whichever scheme comes first.
#[test]
fn every_url_host_is_masked() {
    let info = trino_error_to_pg("via http://worker-1:8080/x, then https://worker-2:8443/y (http://w3)");
    assert_eq!(info.message, "via http://<trino>/x, then https://<trino>/y (http://<trino>)");
    assert_eq!(info.code, "42000");
    assert_eq!(info.severity, "ERROR");
}

#[test]
fn nested_exception_names_are_all_dropped() {
    let info = trino_error_to_pg("java.lang.RuntimeException: com.acme.SomeError:   oops");
    assert_eq!(info.message, "oops");
    let kept = trino_error_to_pg("net.acme.SomeException: oops");
    assert_eq!(kept.message, "net.acme.SomeException: oops");
    let not_a_failure = trino_error_to_pg("io.trino.Table: oops");
    assert_eq!(not_a_failure.message, "io.trino.Table: oops");
}

#[test]
fn stack_trace_with_spaces_is_dropped() {
    let info = trino_error_to_pg("broken  \n  at io.trino.Main(Main.java:1)");
    assert_eq!(info.message, "broken");
}

#[test]
fn a_stack_trace_is_dropped_from_its_first_frame() {
    assert_eq!(trino_error_to_pg("boom\n  at a.b\n\tat c.d").message, "boom");
    assert_eq!(trino_error_to_pg("boom\n\tat a.b\n  at c.d").message, "boom");
}

#[test]
fn a_message_of_the_maximum_length_is_kept() {
    let fits = "x".repeat(MAX_CLIENT_ERROR_LEN);
    assert_eq!(trino_error_to_pg(&fits).message, fits);
    let longer = "x".repeat(MAX_CLIENT_ERROR_LEN + 1);
    let cut = trino_error_to_pg(&longer).message;
    assert_eq!(cut, format!("{}…", "x".repeat(MAX_CLIENT_ERROR_LEN - 3)));
    assert_eq!(cut.len(), MAX_CLIENT_ERROR_LEN);
}

#[test]
fn truncation_ends_before_a_character_that_does_not_fit() {
    let mut s = "aä€😀".to_owned();
    truncate_with_ellipsis(&mut s, 9);
    assert_eq!(s, "aä€…");
    let mut s = "aä€😀".to_owned();
    truncate_with_ellipsis(&mut s, 8);
    assert_eq!(s, "aä…");
    let mut s = "aä€😀".to_owned();
    truncate_with_ellipsis(&mut s, 10);
    assert_eq!(s, "aä€😀");
}

#[test]
fn a_position_needs_a_line_and_two_colons() {
    assert_eq!(trino_error_to_pg("line 1:7: x").code, "42601");
    assert_eq!(trino_error_to_pg("line 1:7 x").code, "42000");
    assert_eq!(trino_error_to_pg("at line 1:7: x").code, "42000");
}
