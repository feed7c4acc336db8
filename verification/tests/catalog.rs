//! Answers to queries of the system catalog.
use postgresql_trino_gateway::catalog::pg_class::{namespace_oid, table_oid};
use postgresql_trino_gateway::catalog::{DynamicTable, handle_catalog_query, handle_dynamic_catalog_query};
use postgresql_trino_gateway::catalog::pg_type::{array_types, base_types, pseudo_types, respond_type_loading};
use postgresql_trino_gateway::catalog::stubs::{
    empty_composite_fields, empty_enum_labels, empty_pg_range, respond_pg_namespace,
};
use postgresql_trino_gateway::json::{Json, JsonText, Number};
use postgresql_trino_gateway::query_inspection::ParsedQuery;
use postgresql_trino_gateway::response::{QueryResponse, Response};
use postgresql_trino_gateway::wire::{DataRow, PgType};

fn dispatch(sql: &str) -> Option<Vec<Response>> {
    let inspect = ParsedQuery::new(sql);
    handle_catalog_query(&inspect)
}

#[test]
fn pg_type_detected_from_clause() {
    assert!(dispatch("SELECT * FROM pg_type WHERE typname = 'int4'").is_some());
}

#[test]
fn pg_type_detected_join_clause() {
    let q = "SELECT t.oid, t.typname FROM pg_catalog.pg_type t \
             JOIN pg_namespace n ON n.oid = t.typnamespace";
    assert!(dispatch(q).is_some());
}

#[test]
fn pg_type_case_insensitive() {
    assert!(dispatch("select * from pg_type").is_some());
}

#[test]
fn composite_fields_detected() {
    let q = "SELECT a.attname, t.typname FROM pg_attribute a \
             JOIN pg_type t ON a.atttypid = t.oid";
    assert!(dispatch(q).is_some());
}

#[test]
fn pg_enum_detected() {
    assert!(dispatch("SELECT enumlabel FROM pg_enum WHERE enumtypid = 12345").is_some());
}

#[test]
fn pg_range_detected() {
    assert!(dispatch("SELECT * FROM pg_range").is_some());
}

#[test]
fn pg_namespace_detected() {
    assert!(dispatch("SELECT oid, nspname FROM pg_namespace").is_some());
}

/// pg_class is handled dynamically (needs Trino client).
#[test]
fn pg_class_not_static() {
    assert!(dispatch("SELECT * FROM pg_class WHERE relkind = 'r'").is_none());
}

/// pg_attribute on its own is also dynamic.
#[test]
fn pg_attribute_not_static() {
    assert!(dispatch("SELECT * FROM pg_attribute WHERE attrelid = 1234").is_none());
}

#[test]
fn regular_query_not_intercepted() {
    assert!(dispatch("SELECT 1").is_none());
    assert!(dispatch("SELECT * FROM users").is_none());
    assert!(dispatch("INSERT INTO t VALUES (1)").is_none());
}

/// Regression: a string literal mentioning a catalog name must not be
/// routed to the static stub.
#[test]
fn literal_with_catalog_name_not_intercepted() {
    assert!(dispatch("SELECT * FROM users WHERE notes LIKE '%pg_type%'").is_none());
    assert!(dispatch("SELECT 'pg_type' FROM users").is_none());
}

/// Regression: a column named pg_type must not be routed.
#[test]
fn column_named_like_catalog_not_intercepted() {
    assert!(dispatch("SELECT pg_type FROM my_table").is_none());
}

#[test]
fn pg_type_response_has_correct_row_count() {
    let resp = dispatch("SELECT * FROM pg_type").unwrap();
    assert_eq!(resp.len(), 1);
}

#[test]
fn mod_pg_namespace_returns_three_rows() {
    let resp = dispatch("SELECT * FROM pg_namespace").unwrap();
    assert_eq!(resp.len(), 1);
}

#[test]
fn stubs_pg_namespace_returns_three_rows() {
    let resp = respond_pg_namespace();
    assert_eq!(resp.len(), 1);
}

#[test]
fn empty_stubs_return_ok() {
    assert_eq!(empty_composite_fields().len(), 1);
    assert_eq!(empty_enum_labels().len(), 1);
    assert_eq!(empty_pg_range().len(), 1);
}

#[test]
fn type_loading_returns_correct_row_count() {
    let resp = respond_type_loading();
    assert_eq!(resp.len(), 1, "should return exactly one Response");
    // 23 base + 3 pseudo + 21 array = 47
    assert_eq!(base_types().len() + pseudo_types().len() + array_types().len(), 47);
}

#[test]
fn base_types_before_arrays() {
    // Verify ordering: base first, pseudo second, arrays last.
    assert_eq!(base_types()[0].typname, "bool");
    assert_eq!(pseudo_types()[0].typname, "unknown");
    assert_eq!(array_types()[0].typname, "_json");
}

/// The cells of an encoded row.
fn cells(row: &DataRow) -> Vec<Option<String>> {
    let mut out = Vec::new();
    let mut at = 0;
    while at < row.data.len() {
        let len = i32::from_be_bytes(row.data[at..at + 4].try_into().unwrap());
        at += 4;
        if len < 0 {
            out.push(None);
        } else {
            let end = at + len as usize;
            out.push(Some(String::from_utf8(row.data[at..end].to_vec()).unwrap()));
            at = end;
        }
    }
    assert_eq!(out.len(), row.field_count as usize);
    out
}

fn rows(mut replies: Vec<Response>) -> QueryResponse {
    assert_eq!(replies.len(), 1);
    match replies.remove(0) {
        Response::Query(q) => q,
        other => panic!("expected rows, got {other:?}"),
    }
}

fn texts(row: &DataRow) -> Vec<String> {
    cells(row).into_iter().map(|c| c.unwrap()).collect()
}

fn columns(q: &QueryResponse) -> Vec<(String, PgType)> {
    q.row_schema.iter().map(|f| (f.name().to_owned(), *f.datatype())).collect()
}

fn text(s: &str) -> Json {
    Json::Str(JsonText { text: s.to_owned(), as_f64: None })
}

#[test]
fn namespaces_are_the_standard_three() {
    let q = rows(respond_pg_namespace());
    assert_eq!(
        columns(&q),
        vec![("oid".to_owned(), PgType::Int4), ("nspname".to_owned(), PgType::Varchar)]
    );
    let listed: Vec<Vec<String>> = q.rows.iter().map(texts).collect();
    assert_eq!(listed, vec![
        vec!["11", "pg_catalog"],
        vec!["2200", "public"],
        vec!["13171", "information_schema"],
    ]);
}

#[test]
fn stubs_have_columns_and_no_rows() {
    for (q, names) in [
        (rows(empty_composite_fields()), vec!["oid", "attname", "atttypid"]),
        (rows(empty_enum_labels()), vec!["oid", "enumlabel"]),
        (rows(empty_pg_range()), vec!["rngtypid", "rngsubtype", "rngmultitypid"]),
    ] {
        let found: Vec<&str> = q.row_schema.iter().map(|f| f.name()).collect();
        assert_eq!(found, names);
        assert!(q.rows.is_empty());
    }
}

/// An array type is listed after its element type.
#[test]
fn types_are_listed_in_dependency_order() {
    let q = rows(respond_type_loading());
    assert_eq!(q.rows.len(), 47);
    let mut seen: Vec<String> = vec!["0".to_owned()];
    for row in &q.rows {
        let t = texts(row);
        assert!(seen.contains(&t[6]), "element type of {} comes first", t[1]);
        seen.push(t[2].clone());
    }
    assert_eq!(texts(&q.rows[0]), vec!["pg_catalog", "bool", "16", "0", "0", "b", "0", "0"]);
    assert_eq!(texts(&q.rows[46]), vec!["pg_catalog", "_jsonb", "3807", "0", "0", "a", "3802", "3"]);
}

#[test]
fn dynamic_tables_are_told_apart() {
    let table = |sql: &str| handle_dynamic_catalog_query(&ParsedQuery::new(sql));
    assert_eq!(table("SELECT * FROM pg_class"), Some(DynamicTable::PgClass));
    assert_eq!(table("SELECT * FROM pg_class c JOIN pg_attribute a ON true"), Some(DynamicTable::PgClass));
    assert_eq!(table("SELECT * FROM pg_catalog.pg_attribute"), Some(DynamicTable::PgAttribute));
    assert_eq!(table("SELECT * FROM pg_attribute a JOIN pg_type t ON true"), None);
    assert_eq!(table("SELECT 1"), None);
    assert!(DynamicTable::PgClass.sql().contains("information_schema.tables"));
    assert!(DynamicTable::PgAttribute.sql().contains("information_schema.columns"));
}

/// The OID of a table joins the two catalog tables.
#[test]
fn attributes_join_their_tables() {
    let class = rows(DynamicTable::PgClass.respond(&vec![
        vec![text("s"), text("t"), text("view")],
        vec![Json::Null, text("u")],
    ]));
    assert_eq!(texts(&class.rows[0]), vec![
        table_oid("s", "t").to_string(),
        "t".to_owned(),
        namespace_oid("s").to_string(),
        "v".to_owned(),
    ]);
    assert_eq!(texts(&class.rows[1]), vec![
        table_oid("public", "u").to_string(),
        "u".to_owned(),
        "2200".to_owned(),
        "r".to_owned(),
    ]);
    let two = Json::Number(Number { as_i64: Some(2), as_u64: Some(2), as_f64: None, text: "2".to_owned() });
    let attribute = rows(DynamicTable::PgAttribute.respond(&vec![
        vec![text("s"), text("t"), text("c"), two, text("NO"), text("bigint")],
        vec![text("s"), text("t"), text("d"), text("7"), text("YES"), text("array(varchar)")],
        vec![],
    ]));
    assert_eq!(texts(&attribute.rows[0]), vec![
        texts(&class.rows[0])[0].clone(),
        "c".to_owned(),
        "20".to_owned(),
        "2".to_owned(),
        "true".to_owned(),
        "false".to_owned(),
    ]);
    assert_eq!(texts(&attribute.rows[1])[1..], ["d", "1015", "7", "false", "false"]);
    assert_eq!(texts(&attribute.rows[2])[1..], ["", "1043", "0", "false", "false"]);
}
