//! Rewriting SQL for Trino.
use postgresql_trino_gateway::rewrite::limit_offset::{LimitOffset, LimitOffsetRewriter, RowCount, RowLimits};
use postgresql_trino_gateway::rewrite::rewrite_sql;

/// Each case asserts that the output contains every substring in
/// `must_contain` (case-insensitive) and none of the substrings in
/// `must_not_contain`.
struct Case {
    name: &'static str,
    input: &'static str,
    must_contain: &'static [&'static str],
    must_not_contain: &'static [&'static str],
}

const CASES: &[Case] = &[
    Case {
        name: "double-colon cast",
        input: "SELECT $1::text",
        must_contain: &["CAST"],
        must_not_contain: &["::"],
    },
    Case {
        name: "type-name normalisation: text → VARCHAR",
        input: "SELECT CAST(x AS text) FROM t",
        must_contain: &["VARCHAR"],
        must_not_contain: &[],
    },
    Case {
        name: "int4 cast normalises to INTEGER",
        input: "SELECT $1::int4",
        must_contain: &["INTEGER"],
        must_not_contain: &["::"],
    },
    Case {
        name: "ILIKE → lower() LIKE lower()",
        input: "SELECT * FROM t WHERE name ILIKE '%foo%'",
        must_contain: &["LOWER"],
        must_not_contain: &["ILIKE"],
    },
    Case {
        name: "string_agg → listagg",
        input: "SELECT string_agg(name, ',') FROM t",
        must_contain: &["listagg"],
        must_not_contain: &[],
    },
    Case {
        name: "single-arg log → log10",
        input: "SELECT log(x) FROM t",
        must_contain: &["log10"],
        must_not_contain: &[],
    },
    Case {
        name: "two-arg log preserved",
        input: "SELECT log(2, x) FROM t",
        must_contain: &[],
        must_not_contain: &["log10"],
    },
    Case {
        name: "trunc → truncate",
        input: "SELECT trunc(x) FROM t",
        must_contain: &["truncate"],
        must_not_contain: &[],
    },
    Case {
        name: "clean SQL passes through",
        input: "SELECT id, name FROM t WHERE id = 1",
        must_contain: &["SELECT", "FROM"],
        must_not_contain: &[],
    },
];

#[test]
fn rewrite_cases() {
    for case in CASES {
        let result = rewrite_sql(case.input);
        let upper = result.to_uppercase();
        let lower = result.to_lowercase();
        for needle in case.must_contain {
            let has = upper.contains(&needle.to_uppercase())
                || lower.contains(&needle.to_lowercase());
            assert!(has, "[{}] expected `{}` in: {result}", case.name, needle);
        }
        for needle in case.must_not_contain {
            let has = upper.contains(&needle.to_uppercase())
                || lower.contains(&needle.to_lowercase());
            assert!(!has, "[{}] unexpected `{}` in: {result}", case.name, needle);
        }
    }
}

/// `SET ...` doesn't parse via `Parser::parse_statements`; the rewriter
/// returns the input unchanged.
#[test]
fn unparseable_sql_passes_through() {
    let input = "SET extra_float_digits = 3";
    assert_eq!(rewrite_sql(input), input);
}

#[test]
fn show_passes_through_non_empty() {
    let result = rewrite_sql("SHOW server_version");
    assert!(!result.is_empty());
}

#[test]
fn rewritten_statements_are_exact() {
    for (input, output) in [
        ("SELECT x::int4", "SELECT CAST(x AS INTEGER)"),
        ("SELECT x::text, y::int8, z::bool", "SELECT CAST(x AS VARCHAR), CAST(y AS BIGINT), CAST(z AS BOOLEAN)"),
        ("SELECT CAST(x AS int2), CAST(y AS bytea)", "SELECT CAST(x AS SMALLINT), CAST(y AS VARBINARY)"),
        ("SELECT x::float4, y::float8", "SELECT CAST(x AS REAL), CAST(y AS DOUBLE PRECISION)"),
        ("SELECT a ILIKE 'B%'", "SELECT lower(a) LIKE lower('B%')"),
        ("SELECT a NOT ILIKE b ESCAPE '!'", "SELECT lower(a) NOT LIKE lower(b) ESCAPE '!'"),
        ("SELECT TRUNC(log(x)), log(2, x)", "SELECT truncate(log10(x)), log(2, x)"),
        ("SELECT s.trunc(x)", "SELECT s.trunc(x)"),
        ("SELECT string_agg(a::text, ',') FROM t", "SELECT listagg(CAST(a AS VARCHAR), ',') FROM t"),
    ] {
        assert_eq!(rewrite_sql(input), output);
    }
}

#[test]
fn rewriting_twice_changes_nothing_more() {
    let once = rewrite_sql("SELECT trunc(x::int4) FROM t WHERE a ILIKE 'b'");
    assert_eq!(rewrite_sql(&once), once);
}

#[test]
fn a_clean_statement_is_printed_by_the_parser() {
    assert_eq!(rewrite_sql("select  a from t -- comment"), "SELECT a FROM t");
}

#[test]
fn several_statements_pass_through() {
    let sql = "SELECT x::int4; SELECT 2";
    assert_eq!(rewrite_sql(sql), sql);
    assert_eq!(rewrite_sql(""), "");
    assert_eq!(rewrite_sql("SELECT ((("), "SELECT (((");
}

fn count(text: &str) -> RowCount {
    RowCount { text: text.to_owned(), literal: text.parse::<f64>().ok().map(f64::to_bits) }
}

fn limits(limit: Option<&str>, offset: Option<&str>) -> RowLimits {
    RowLimits {
        clause: Some(LimitOffset { limit: limit.map(count), offset: offset.map(count), limit_by: 0 }),
        fetch: None,
    }
}

#[test]
fn a_limit_with_an_offset_becomes_a_fetch() {
    let mut q = limits(Some("10"), Some("5"));
    LimitOffsetRewriter.post_visit_query(&mut q);
    let clause = q.clause.clone().unwrap();
    assert!(clause.limit.is_none());
    assert_eq!(clause.offset.unwrap().text, "5");
    let fetch = q.fetch.clone().unwrap();
    assert_eq!(fetch.quantity.unwrap().text, "10");
    assert!(!fetch.with_ties && !fetch.percent);
    let again = format!("{q:?}");
    LimitOffsetRewriter.post_visit_query(&mut q);
    assert_eq!(format!("{q:?}"), again);
}

#[test]
fn a_zero_limit_drops_the_offset() {
    for zero in ["0", "0.0", "-0.0"] {
        let mut q = limits(Some(zero), Some("5"));
        LimitOffsetRewriter.post_visit_query(&mut q);
        let clause = q.clause.unwrap();
        assert_eq!(clause.limit.unwrap().text, zero);
        assert!(clause.offset.is_none());
        assert!(q.fetch.is_none());
    }
}

#[test]
fn other_row_limits_are_left_alone() {
    for (limit, offset) in [(None, Some("5")), (Some("5"), None), (None, None)] {
        let mut q = limits(limit, offset);
        LimitOffsetRewriter.post_visit_query(&mut q);
        assert!(q.fetch.is_none());
        let clause = q.clause.unwrap();
        assert_eq!(clause.limit.map(|c| c.text).as_deref(), limit);
        assert_eq!(clause.offset.map(|c| c.text).as_deref(), offset);
    }
}
