//! Queries of `information_schema`.
use postgresql_trino_gateway::info_schema::rewrite_info_schema_columns;
use postgresql_trino_gateway::query_inspection::ParsedQuery;

#[test]
fn rewrite_powerbi_pattern() {
    let query = "select COLUMN_NAME, ORDINAL_POSITION, IS_NULLABLE, \
        case when (data_type like '%unsigned%') then DATA_TYPE || ' unsigned' else DATA_TYPE end as DATA_TYPE \
        from INFORMATION_SCHEMA.columns \
        where TABLE_SCHEMA = 'sf1' and TABLE_NAME = 'orders' \
        order by TABLE_SCHEMA, TABLE_NAME, ORDINAL_POSITION";

    let parsed_query = ParsedQuery::new(query);
    let rewritten = rewrite_info_schema_columns(query, &parsed_query)
        .expect("should rewrite Power BI INFORMATION_SCHEMA.columns query");

    assert!(
        rewritten.contains("lower(data_type)"),
        "should contain type mapping: {rewritten}"
    );
    assert!(
        rewritten.contains("TABLE_SCHEMA = 'sf1'"),
        "should preserve WHERE clause: {rewritten}"
    );
    assert!(
        rewritten
            .to_uppercase()
            .contains("FROM INFORMATION_SCHEMA.COLUMNS"),
        "should preserve FROM: {rewritten}"
    );
    assert!(
        rewritten.contains("AS DATA_TYPE"),
        "should have DATA_TYPE alias: {rewritten}"
    );
}

#[test]
fn does_not_rewrite_other_queries() {
    for q in [
        "SELECT * FROM INFORMATION_SCHEMA.tables WHERE TABLE_SCHEMA = 'sf1'",
        "SELECT * FROM pg_type",
        "SELECT 1",
    ] {
        let parsed_query = ParsedQuery::new(q);
        assert!(
            rewrite_info_schema_columns(q, &parsed_query).is_none(),
            "should not rewrite: {q}"
        );
    }
}

/// A user table named `columns` in another schema must not trip the
/// rewrite — the AST inspector restricts the match to
/// `information_schema.columns`.
#[test]
fn skips_other_schemas() {
    let q = "SELECT * FROM mycustom.columns";
    let parsed_query = ParsedQuery::new(q);
    assert!(rewrite_info_schema_columns(q, &parsed_query).is_none());
}

/// Regression: non-ASCII content in a string literal before the Power
/// BI marker would shift byte offsets if we used Unicode `to_uppercase`
/// (Turkish `ı` (U+0131, 2 bytes) maps to `I` (1 byte)). With
/// `to_ascii_uppercase` indices stay aligned and the splice produces
/// well-formed SQL.
#[test]
fn handles_non_ascii_literals() {
    let query = "select COLUMN_NAME, /* başlık ı ß */ \
        case when (data_type like '%unsigned%') then DATA_TYPE || ' unsigned' else DATA_TYPE end as DATA_TYPE \
        from INFORMATION_SCHEMA.columns where TABLE_NAME = 'orders'";

    let parsed_query = ParsedQuery::new(query);
    let rewritten = rewrite_info_schema_columns(query, &parsed_query)
        .expect("rewrite must trigger on INFORMATION_SCHEMA.columns");

    assert!(
        rewritten.contains("/* başlık ı ß */"),
        "non-ASCII content must round-trip intact: {rewritten}"
    );
    assert!(rewritten.contains("lower(data_type)"));
    assert!(rewritten.contains("AS DATA_TYPE"));
}

#[test]
fn the_marker_is_replaced_in_place() {
    let before = "select a, ";
    let marker = "CASE WHEN (data_type LIKE '%unsigned%') THEN DATA_TYPE || ' unsigned' ELSE DATA_TYPE END AS DATA_TYPE";
    let after = " from INFORMATION_SCHEMA.columns";
    let query = format!("{before}{marker}{after}");
    let rewritten = rewrite_info_schema_columns(&query, &ParsedQuery::new(&query)).unwrap();
    assert!(rewritten.starts_with(&format!("{before}CASE WHEN lower(data_type) = 'double'")));
    assert!(rewritten.ends_with(after));
    assert!(!rewritten.contains("unsigned"));
}

#[test]
fn columns_without_the_marker_are_left_alone() {
    let q = "SELECT column_name FROM information_schema.columns";
    assert_eq!(rewrite_info_schema_columns(q, &ParsedQuery::new(q)), None);
}
