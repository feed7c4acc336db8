//! Queries that are answered locally.
use postgresql_trino_gateway::intercept::{intercept_show, try_intercept};
use postgresql_trino_gateway::query_inspection::ParsedQuery;
use postgresql_trino_gateway::response::Response;
use postgresql_trino_gateway::startup::server_params;
use postgresql_trino_gateway::wire::DataRow;

fn assert_intercepted(query: &str) {
    let parsed_query = ParsedQuery::new(query);
    assert!(
        try_intercept(query, &parsed_query, "test_catalog", "test_schema").is_some(),
        "expected query to be intercepted: {query}"
    );
}

fn assert_not_intercepted(query: &str) {
    let parsed_query = ParsedQuery::new(query);
    assert!(
        try_intercept(query, &parsed_query, "test_catalog", "test_schema").is_none(),
        "expected query to NOT be intercepted: {query}"
    );
}

#[test]
fn set_commands_intercepted() {
    assert_intercepted("SET client_encoding TO 'UTF8'");
    assert_intercepted("set search_path to public");
    assert_intercepted("SET extra_float_digits = 3;");
}

#[test]
fn transaction_commands_intercepted() {
    assert_intercepted("BEGIN");
    assert_intercepted("BEGIN READ ONLY");
    assert_intercepted("START TRANSACTION");
    assert_intercepted("COMMIT");
    assert_intercepted("END");
    assert_intercepted("ROLLBACK");
    assert_intercepted("ROLLBACK TO SAVEPOINT s1");
}

#[test]
fn discard_deallocate_intercepted() {
    assert_intercepted("DISCARD ALL");
    assert_intercepted("DEALLOCATE pstmt1");
    assert_intercepted("CLOSE ALL");
}

#[test]
fn show_returns_correct_values() {
    let cases: &[(&str, &str)] = &[
        ("SHOW server_version", "16.6"),
        ("SHOW server_version_num", "160006"),
        ("SHOW server_encoding", "UTF8"),
        ("SHOW client_encoding", "UTF8"),
        ("SHOW standard_conforming_strings", "on"),
        ("SHOW max_identifier_length", "63"),
        ("SHOW transaction_isolation", "read committed"),
        ("SHOW datestyle", "ISO, MDY"),
        ("SHOW timezone", "UTC"),
        ("SHOW integer_datetimes", "on"),
        ("SHOW intervalstyle", "postgres"),
        ("SHOW is_superuser", "on"),
        ("SHOW unknown_param", "on"),
    ];

    for &(query, expected) in cases {
        let parsed_query = ParsedQuery::new(query);
        let result = try_intercept(query, &parsed_query, "test_catalog", "test_schema")
            .unwrap_or_else(|| panic!("SHOW not intercepted: {query}"));
        assert_eq!(result.len(), 1, "one reply for: {query}");

        let trimmed = query.trim().trim_end_matches(';').trim();
        let resp = intercept_show(trimmed);
        assert_eq!(resp.len(), 1);
        match &resp[0] {
            Response::Query(_) => {}
            other => panic!("expected Query response, got: {other:?}"),
        }

        // Cross-check against the announced parameters, the single source of truth.
        let param = trimmed[4..].trim().to_lowercase();
        let from_table = server_params()
            .iter()
            .find(|p| p.name.eq_ignore_ascii_case(&param))
            .map(|p| p.value)
            .unwrap_or("on");
        assert_eq!(from_table, expected, "mismatch for {query}");
    }
}

#[test]
fn server_functions_intercepted() {
    assert_intercepted("SELECT version()");
    assert_intercepted("SELECT VERSION()");
    assert_intercepted("SELECT current_database()");
    assert_intercepted("SELECT current_schema");
    assert_intercepted("SELECT pg_is_in_recovery()");
    assert_intercepted("SELECT current_setting('server_version_num')");
    assert_intercepted("SELECT current_setting('server_version')");
}

#[test]
fn regular_queries_not_intercepted() {
    assert_not_intercepted("SELECT 1");
    assert_not_intercepted("SELECT * FROM users");
    assert_not_intercepted("INSERT INTO t VALUES (1)");
    assert_not_intercepted("CREATE TABLE t (id INT)");
}

/// Power BI's PK-discovery query has unaliased qualified columns like
/// `ii.COLUMN_NAME`. PostgreSQL strips the qualifier in the result's
/// RowDescription so the client sees `COLUMN_NAME`. If we return
/// `ii.COLUMN_NAME` instead, Power BI's `RetrieveKeysForTable` looks up
/// `COLUMN_NAME`, gets null, and throws NullReferenceException.
#[test]
fn powerbi_index_query_column_names_are_unqualified() {
    let query = "select i.CONSTRAINT_SCHEMA || '_' || i.CONSTRAINT_NAME as INDEX_NAME, \
         ii.COLUMN_NAME, ii.ORDINAL_POSITION, \
         case when i.CONSTRAINT_TYPE = 'PRIMARY KEY' then 'Y' else 'N' end as PRIMARY_KEY \
         from INFORMATION_SCHEMA.table_constraints i \
         inner join INFORMATION_SCHEMA.key_column_usage ii \
             on i.CONSTRAINT_SCHEMA = ii.CONSTRAINT_SCHEMA \
         where i.TABLE_SCHEMA = 'sf1' and i.TABLE_NAME = 'nation'";

    let cols = ParsedQuery::new(query).select_column_names();
    assert_eq!(
        cols,
        vec![
            "INDEX_NAME",
            "COLUMN_NAME",
            "ORDINAL_POSITION",
            "PRIMARY_KEY"
        ],
        "column names must be unqualified to match PostgreSQL behavior"
    );
}

/// Regression: a literal containing `pg_type` must not match the catalog
/// dispatch. This is the bug fix that motivated `query_inspection`.
#[test]
fn user_query_with_pg_type_in_literal_not_intercepted() {
    assert_not_intercepted("SELECT * FROM customers WHERE notes LIKE '%pg_type%'");
    assert_not_intercepted("SELECT 'pg_type' AS sentinel");
}

/// Regression: a column named `version` in a SELECT must not trigger the
/// version() server-function intercept.
#[test]
fn user_query_with_version_column_not_intercepted() {
    assert_not_intercepted("SELECT version FROM releases");
}

/// The cells of an encoded row.
fn cells(row: &DataRow) -> Vec<Option<String>> {
    let mut out = Vec::new();
    let mut at = 0;
    while at < row.data.len() {
        let len = i32::from_be_bytes(row.data[at..at + 4].try_into().unwrap());
        at += 4;
        if len < 0 {
            out.push(None);
        } else {
            let end = at + len as usize;
            out.push(Some(String::from_utf8(row.data[at..end].to_vec()).unwrap()));
            at = end;
        }
    }
    assert_eq!(out.len(), row.field_count as usize);
    out
}

fn reply(query: &str) -> Response {
    let parsed = ParsedQuery::new(query);
    let mut replies = try_intercept(query, &parsed, "test_catalog", "test_schema").unwrap();
    assert_eq!(replies.len(), 1);
    replies.remove(0)
}

fn tag(query: &str) -> String {
    match reply(query) {
        Response::Execution(tag) => tag,
        other => panic!("expected a completion tag, got {other:?}"),
    }
}

/// The single column and value of a reply.
fn single(query: &str) -> (String, Option<String>) {
    match reply(query) {
        Response::Query(q) => {
            assert_eq!(q.row_schema.len(), 1);
            assert_eq!(q.rows.len(), 1);
            (q.row_schema[0].name().to_owned(), cells(&q.rows[0]).remove(0))
        }
        other => panic!("expected rows, got {other:?}"),
    }
}

#[test]
fn commands_are_acknowledged_with_their_tags() {
    assert_eq!(tag("  set x = 1 ;; "), "SET");
    assert_eq!(tag("begin"), "BEGIN");
    assert_eq!(tag("START TRANSACTION READ ONLY"), "BEGIN");
    assert_eq!(tag("end;"), "COMMIT");
    assert_eq!(tag("COMMIT"), "COMMIT");
    assert_eq!(tag("rollback to s"), "ROLLBACK");
    assert_eq!(tag("DISCARD ALL"), "OK");
    assert_eq!(tag("DEALLOCATE p"), "OK");
    assert_eq!(tag("CLOSE ALL"), "OK");
}

#[test]
fn show_gives_the_announced_values() {
    for param in server_params() {
        let (column, value) = single(&format!("SHOW {}", param.name));
        assert_eq!(column, param.name.to_lowercase());
        assert_eq!(value.as_deref(), Some(param.value));
    }
    assert_eq!(single("show  NoSuchThing ;"), ("nosuchthing".to_owned(), Some("on".to_owned())));
}

#[test]
fn server_functions_have_fixed_values() {
    let version = "PostgreSQL 16.6 on x86_64-pc-linux-gnu, compiled by gcc 12.2.0, 64-bit";
    assert_eq!(single("SELECT version()"), ("version".to_owned(), Some(version.to_owned())));
    assert_eq!(
        single("SELECT current_database()"),
        ("current_database".to_owned(), Some("test_catalog".to_owned()))
    );
    assert_eq!(
        single("SELECT current_schema"),
        ("current_schema".to_owned(), Some("test_schema".to_owned()))
    );
    assert_eq!(
        single("SELECT pg_is_in_recovery()"),
        ("pg_is_in_recovery".to_owned(), Some("false".to_owned()))
    );
    assert_eq!(
        single("SELECT current_setting('server_version_num')").1,
        Some("160006".to_owned())
    );
    assert_eq!(single("SELECT current_setting('server_version')").1, Some("16.6".to_owned()));
    assert_not_intercepted("SELECT current_setting('other')");
    assert_not_intercepted("  ");
}

#[test]
fn character_sets_are_utf8() {
    assert_eq!(
        single("SELECT character_set_name FROM information_schema.character_sets"),
        ("character_set_name".to_owned(), Some("UTF8".to_owned()))
    );
}

#[test]
fn missing_tables_reply_with_the_columns_asked_for() {
    match reply("SELECT a, t.b AS c FROM information_schema.key_column_usage t") {
        Response::Query(q) => {
            let names: Vec<&str> = q.row_schema.iter().map(|f| f.name()).collect();
            assert_eq!(names, vec!["a", "c"]);
            assert!(q.rows.is_empty());
        }
        other => panic!("expected rows, got {other:?}"),
    }
}

fn tag_of(query: &str) -> Option<String> {
    match try_intercept(query, &ParsedQuery::new(query), "c", "s")?.remove(0) {
        Response::Execution(tag) => Some(tag),
        _ => None,
    }
}

#[test]
fn transaction_commands_take_further_words() {
    assert_eq!(tag_of("COMMIT WORK").as_deref(), Some("COMMIT"));
    assert_eq!(tag_of("END").as_deref(), Some("COMMIT"));
    assert_eq!(tag_of("END TRANSACTION"), None);
    assert_eq!(tag_of("BEGIN WORK").as_deref(), Some("BEGIN"));
    assert_eq!(tag_of("ROLLBACK WORK").as_deref(), Some("ROLLBACK"));
    assert_eq!(tag_of("COMMITTED"), None);
    assert_eq!(tag_of("ENDED"), None);
}

#[test]
fn any_white_space_follows_a_keyword() {
    assert_eq!(tag_of("SET\tx = 1").as_deref(), Some("SET"));
    assert_eq!(tag_of("COMMIT\nWORK").as_deref(), Some("COMMIT"));
    assert_eq!(tag_of("DISCARD\n\tALL").as_deref(), Some("OK"));
    assert_eq!(tag_of("SETTLE x"), None);
    assert_intercepted("SHOW\tserver_version");
}

/// Case, outer white space and the terminator make no difference.
#[test]
fn commands_are_answered_alike_however_framed() {
    for query in [
        "set x = 1",
        "SET x = 'é'",
        "set x to 'aßbŉcΣdςeﬁ'",
        "Commit",
        "commit work",
        "rollback to s",
        "start transaction",
        "close all",
    ] {
        let expected = tag_of(query);
        assert!(expected.is_some(), "{query}");
        for framed in [
            format!("  {query}"),
            format!("\n{query}\t"),
            format!("{query};;;"),
            format!(" {query} ;; \n"),
            query.to_ascii_uppercase(),
            format!("{} ;", query.to_ascii_lowercase()),
        ] {
            assert_eq!(tag_of(&framed), expected, "{framed}");
        }
    }
    assert_eq!(tag_of("COMMIT; ").as_deref(), Some("COMMIT"));
    assert_eq!(tag_of("COMMIT; ;"), None);
}

/// Only a select of the call itself is a probe.
#[test]
fn a_call_inside_an_expression_is_not_a_probe() {
    assert_not_intercepted("SELECT length(version())");
    assert_not_intercepted("SELECT version() || ''");
    assert_not_intercepted("SELECT upper(current_schema)");
    assert_not_intercepted("SELECT lower(current_setting('server_version'))");
    assert_intercepted("SELECT version() AS v");
    assert_intercepted("SELECT pg_catalog.version()");
    assert_intercepted("SELECT current_schema AS s");
    assert_intercepted("SELECT current_schema()");
}

#[test]
fn a_probe_has_no_other_clause() {
    assert_not_intercepted("SELECT version() INTO t");
    assert_not_intercepted("SELECT DISTINCT version()");
    assert_not_intercepted("SELECT DISTINCT ON (version()) 1");
    assert_not_intercepted("SELECT version() WINDOW w AS (PARTITION BY 1)");
    assert_not_intercepted("SELECT version() FOR UPDATE");
    assert_not_intercepted("SELECT version() LIMIT 1");
}
