//! What queries are found to mention.
use postgresql_trino_gateway::query_inspection::ParsedQuery;

#[test]
fn references_table_matches_unqualified() {
    let q = ParsedQuery::new("SELECT * FROM pg_type");
    assert!(q.references_table("pg_type"));
    assert!(q.references_table("PG_TYPE"));
    assert!(!q.references_table("pg_class"));
}

#[test]
fn references_table_matches_qualified() {
    let q = ParsedQuery::new("SELECT * FROM pg_catalog.pg_type t");
    assert!(q.references_table("pg_type"));
}

#[test]
fn references_table_matches_join() {
    let q = ParsedQuery::new("SELECT a.attname FROM pg_attribute a JOIN pg_type t ON true");
    assert!(q.references_table("pg_attribute"));
    assert!(q.references_table("pg_type"));
}

/// The whole point: a literal containing the catalog name must not match.
#[test]
fn references_table_ignores_string_literals() {
    let q = ParsedQuery::new("SELECT * FROM users WHERE notes LIKE '%PG_TYPE%'");
    assert!(!q.references_table("pg_type"));
}

#[test]
fn references_table_ignores_column_names() {
    let q = ParsedQuery::new("SELECT pg_type FROM users");
    assert!(!q.references_table("pg_type"));
}

#[test]
fn references_table_information_schema() {
    let q =
        ParsedQuery::new("SELECT * FROM INFORMATION_SCHEMA.columns WHERE TABLE_SCHEMA = 'sf1'");
    assert!(q.references_table("columns"));
    assert!(!q.references_table("tables"));
}

#[test]
fn references_table_in_schema_matches_qualified() {
    let q = ParsedQuery::new("SELECT * FROM information_schema.columns");
    assert!(q.references_table_in_schema("information_schema", "columns"));
}

#[test]
fn references_table_in_schema_matches_unqualified() {
    let q = ParsedQuery::new("SELECT * FROM columns");
    assert!(q.references_table_in_schema("information_schema", "columns"));
}

#[test]
fn references_table_in_schema_rejects_wrong_schema() {
    let q = ParsedQuery::new("SELECT * FROM mycustom.columns");
    assert!(!q.references_table_in_schema("information_schema", "columns"));
}

#[test]
fn references_table_in_schema_matches_three_part_name() {
    let q = ParsedQuery::new("SELECT * FROM trino.information_schema.columns");
    assert!(q.references_table_in_schema("information_schema", "columns"));
}

#[test]
fn calls_function_with_parens() {
    let q = ParsedQuery::new("SELECT version()");
    assert!(q.calls_function("version"));
}

#[test]
fn calls_function_case_insensitive() {
    let q = ParsedQuery::new("SELECT VERSION()");
    assert!(q.calls_function("version"));
}

#[test]
fn calls_function_qualified_name() {
    let q = ParsedQuery::new("SELECT pg_catalog.version()");
    assert!(q.calls_function("version"));
}

#[test]
fn calls_function_ignores_string_literals() {
    let q = ParsedQuery::new("SELECT 'version()' AS x");
    assert!(!q.calls_function("version"));
}

/// `calls_function` requires parens; bare identifiers don't count even
/// for known niladic forms.
#[test]
fn calls_function_requires_parens() {
    let q = ParsedQuery::new("SELECT current_schema");
    assert!(!q.calls_function("current_schema"));

    let q2 = ParsedQuery::new("SELECT current_schema()");
    assert!(q2.calls_function("current_schema"));
}

/// `calls_function_or_keyword` accepts both forms.
#[test]
fn calls_function_or_keyword_handles_niladic() {
    let q = ParsedQuery::new("SELECT current_schema");
    assert!(q.calls_function_or_keyword("current_schema"));
    let q2 = ParsedQuery::new("SELECT current_schema()");
    assert!(q2.calls_function_or_keyword("current_schema"));
}

/// `calls_function_or_keyword` will match a column reference of the same
/// name. Callers must restrict use to well-known niladic SQL keywords.
#[test]
fn calls_function_or_keyword_matches_column_reference() {
    let q = ParsedQuery::new("SELECT current_schema FROM releases");
    assert!(q.calls_function_or_keyword("current_schema"));
}

#[test]
fn function_string_arg_extracts_first_literal() {
    let q = ParsedQuery::new("SELECT current_setting('server_version_num')");
    assert_eq!(
        q.function_string_arg("current_setting").as_deref(),
        Some("server_version_num")
    );
}

#[test]
fn function_string_arg_none_for_non_literal() {
    let q = ParsedQuery::new("SELECT current_setting(name)");
    assert_eq!(q.function_string_arg("current_setting"), None);
}

#[test]
fn is_bare_scalar_select_simple_function() {
    assert!(ParsedQuery::new("SELECT version()").is_bare_scalar_select());
    assert!(ParsedQuery::new("SELECT current_schema").is_bare_scalar_select());
    assert!(ParsedQuery::new("SELECT current_setting('x')").is_bare_scalar_select());
    assert!(ParsedQuery::new("SELECT version() AS v").is_bare_scalar_select());
}

#[test]
fn is_bare_scalar_select_rejects_from() {
    assert!(!ParsedQuery::new("SELECT version() FROM t").is_bare_scalar_select());
}

#[test]
fn is_bare_scalar_select_rejects_where() {
    // WHERE without FROM doesn't parse, but a column reference in WHERE
    // alongside a FROM should reject. Test with FROM + WHERE.
    let q = ParsedQuery::new("SELECT 1 FROM t WHERE current_schema = 'public'");
    assert!(!q.is_bare_scalar_select());
}

#[test]
fn is_bare_scalar_select_rejects_multiple_projections() {
    let q = ParsedQuery::new("SELECT current_setting('a'), current_setting('b')");
    assert!(!q.is_bare_scalar_select());
}

#[test]
fn is_bare_scalar_select_rejects_cte() {
    let q = ParsedQuery::new("WITH t AS (SELECT 1) SELECT version()");
    assert!(!q.is_bare_scalar_select());
}

#[test]
fn is_bare_scalar_select_rejects_multi_statement() {
    // sqlparser may or may not parse multi-statement strings; either way,
    // bare-scalar must reject.
    let q = ParsedQuery::new("SELECT version(); SELECT 1");
    assert!(!q.is_bare_scalar_select());
}

#[test]
fn select_column_names_unaliased() {
    let q = ParsedQuery::new("SELECT a, b.c FROM t");
    assert_eq!(q.select_column_names(), vec!["a", "c"]);
}

#[test]
fn select_column_names_aliased() {
    let q = ParsedQuery::new("SELECT 1 AS x, foo() AS y FROM t");
    assert_eq!(q.select_column_names(), vec!["x", "y"]);
}

#[test]
fn select_column_names_complex_expressions_use_question_mark() {
    let q = ParsedQuery::new("SELECT 1 + 2 FROM t");
    assert_eq!(q.select_column_names(), vec!["?column?"]);
}

#[test]
fn columns_without_alias_are_named_as_postgresql_does() {
    let q = ParsedQuery::new("SELECT *, s.t.u, count(x), pg_catalog.lower(y), 'a' FROM t");
    assert_eq!(q.select_column_names(), vec!["*", "u", "count", "lower", "?column?"]);
}

#[test]
fn a_text_that_cannot_be_parsed_mentions_nothing() {
    let q = ParsedQuery::new("SELECT FROM WHERE pg_type(");
    assert!(!q.references_table("pg_type"));
    assert!(!q.calls_function("pg_type"));
    assert!(!q.is_bare_scalar_select());
    assert!(q.select_column_names().is_empty());
    assert_eq!(q.function_string_arg("pg_type"), None);
}

#[test]
fn a_bare_select_has_no_other_clause() {
    for sql in [
        "SELECT version() ORDER BY 1",
        "SELECT version() LIMIT 1",
        "SELECT version() HAVING true",
        "SELECT version() GROUP BY ALL",
        "SELECT version() GROUP BY 1",
        "SELECT version() FETCH FIRST 1 ROWS ONLY",
        "VALUES (1)",
        "COMMIT",
    ] {
        assert!(!ParsedQuery::new(sql).is_bare_scalar_select(), "{sql}");
    }
}

#[test]
fn tables_in_subqueries_are_found() {
    let q = ParsedQuery::new("SELECT 1 WHERE EXISTS (SELECT 1 FROM pg_catalog.pg_class)");
    assert!(q.references_table("pg_class"));
    assert!(q.references_table_in_schema("pg_catalog", "pg_class"));
    assert!(!q.references_table_in_schema("public", "pg_class"));
}

#[test]
fn the_first_string_argument_counts() {
    let q = ParsedQuery::new("SELECT f(1, 'a'), f('b')");
    assert_eq!(q.function_string_arg("F"), Some("b".to_owned()));
}

#[test]
fn a_qualified_wildcard_is_named_as_it_is_written() {
    assert_eq!(ParsedQuery::new("SELECT t.*, s.t.* FROM t").select_column_names(), ["t.*", "s.t.*"]);
    assert_eq!(ParsedQuery::new("SELECT * FROM t").select_column_names(), ["*"]);
}

#[test]
fn the_projected_expression_is_the_only_one() {
    let call = ParsedQuery::new("SELECT s.f('a', 'b') AS x");
    assert!(call.projects_function("F"));
    assert!(call.projects_function_or_keyword("f"));
    assert_eq!(call.projected_string_arg("f").as_deref(), Some("a"));
    assert_eq!(call.projected_string_arg("g"), None);

    let nested = ParsedQuery::new("SELECT g(f('a'))");
    assert!(nested.calls_function("f"));
    assert!(!nested.projects_function("f"));
    assert_eq!(nested.projected_string_arg("f"), None);

    let keyword = ParsedQuery::new("SELECT current_schema");
    assert!(keyword.projects_function_or_keyword("current_schema"));
    assert!(!keyword.projects_function("current_schema"));

    let two = ParsedQuery::new("SELECT f('a'), f('b')");
    assert!(!two.projects_function("f"));
    assert!(!ParsedQuery::new("SELECT t.*").projects_function_or_keyword("t"));
}
