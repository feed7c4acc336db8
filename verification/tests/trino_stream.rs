//! The bridge from Trino's pages to rows.
use postgresql_trino_gateway::json::{Json, JsonText, Number};
use postgresql_trino_gateway::session::ActiveQueryId;
use postgresql_trino_gateway::trino_stream::{
    Format, Page, QueryResultData, QueryStart, RowStep, RowStream, TrinoColumn, build_pg_schema,
    clear_active_query_id, encode_row, extract_direct_rows, set_active_query_id,
};
use postgresql_trino_gateway::wire::{FieldFormat, PgType};

fn number(n: i64) -> Json {
    Json::Number(Number { as_i64: Some(n), as_u64: None, as_f64: None, text: n.to_string() })
}

fn string(s: &str) -> Json {
    Json::Str(JsonText { text: s.to_owned(), as_f64: None })
}

#[test]
fn set_active_query_id_writes_and_clears() {
    let mut slot = ActiveQueryId { id: None };
    set_active_query_id(Some(&mut slot), Some("q-1".to_owned()));
    assert_eq!(slot.id.as_deref(), Some("q-1"));
    set_active_query_id(Some(&mut slot), None);
    assert!(slot.id.is_none());
}

#[test]
fn set_active_query_id_with_no_slot_is_a_noop() {
    // Just must not panic.
    set_active_query_id(None, Some("ignored".to_owned()));
    set_active_query_id(None, None);
}

#[test]
fn build_pg_schema_maps_columns() {
    let columns = vec![
        TrinoColumn {
            name: "id".to_owned(),
            trino_type: "integer".to_owned(),
        },
        TrinoColumn {
            name: "name".to_owned(),
            trino_type: "varchar".to_owned(),
        },
    ];
    let schema = build_pg_schema(&columns, &None);
    assert_eq!(schema.len(), 2);
    assert_eq!(schema[0].name(), "id");
    assert_eq!(*schema[0].datatype(), PgType::Int4);
    assert_eq!(schema[1].name(), "name");
    assert_eq!(*schema[1].datatype(), PgType::Varchar);
}

#[test]
fn encode_row_with_values() {
    let columns = vec![
        TrinoColumn {
            name: "id".to_owned(),
            trino_type: "integer".to_owned(),
        },
        TrinoColumn {
            name: "name".to_owned(),
            trino_type: "varchar".to_owned(),
        },
    ];
    let schema = build_pg_schema(&columns, &None);
    let values = vec![number(42), string("alice")];

    let row = encode_row(&values, &columns, &schema);
    assert!(row.is_ok());
}

#[test]
fn encode_row_with_null() {
    let columns = vec![TrinoColumn {
        name: "val".to_owned(),
        trino_type: "varchar".to_owned(),
    }];
    let schema = build_pg_schema(&columns, &None);
    let values = vec![Json::Null];

    let row = encode_row(&values, &columns, &schema);
    assert!(row.is_ok());
}

fn column(name: &str, trino_type: &str) -> TrinoColumn {
    TrinoColumn { name: name.to_owned(), trino_type: trino_type.to_owned() }
}

fn page(columns: Option<Vec<TrinoColumn>>, rows: Vec<i64>, next: Option<&str>) -> Page {
    Page {
        id: "q-7".to_owned(),
        error: None,
        columns,
        data: Some(QueryResultData::Direct(rows.into_iter().map(|n| vec![number(n)]).collect())),
        next_uri: next.map(str::to_owned),
    }
}

fn failed(message: &str) -> Page {
    Page { error: Some(message.to_owned()), ..page(None, vec![], None) }
}

/// The text of a row of one cell.
fn cell(row: &[u8]) -> String {
    let len = i32::from_be_bytes(row[..4].try_into().unwrap()) as usize;
    String::from_utf8(row[4..4 + len].to_vec()).unwrap()
}

#[test]
fn rows_have_a_length_before_each_field() {
    let columns = vec![column("a", "integer"), column("b", "varchar"), column("c", "boolean")];
    let schema = build_pg_schema(&columns, &None);
    let row = encode_row(&vec![number(42), Json::Null, Json::Bool(true)], &columns, &schema).unwrap();
    assert_eq!(row.field_count, 3);
    assert_eq!(row.data, [
        &[0, 0, 0, 2][..], b"42", &[255, 255, 255, 255], &[0, 0, 0, 4], b"true",
    ].concat());
}

#[test]
fn formats_are_those_asked_for() {
    let columns = vec![column("a", "integer"), column("b", "integer")];
    let formats = |f: Option<Format>| -> Vec<FieldFormat> {
        build_pg_schema(&columns, &f).iter().map(|f| f.format()).collect()
    };
    assert_eq!(formats(None), vec![FieldFormat::Text, FieldFormat::Text]);
    assert_eq!(formats(Some(Format::UnifiedText)), vec![FieldFormat::Text, FieldFormat::Text]);
    assert_eq!(formats(Some(Format::UnifiedBinary)), vec![FieldFormat::Binary, FieldFormat::Binary]);
    assert_eq!(
        formats(Some(Format::Individual(vec![0, 1]))),
        vec![FieldFormat::Text, FieldFormat::Binary]
    );
    let schema = build_pg_schema(&columns, &Some(Format::Individual(vec![1, 0])));
    let row = encode_row(&vec![number(7), number(7)], &columns, &schema).unwrap();
    assert_eq!(row.data, vec![0, 0, 0, 4, 0, 0, 0, 7, 0, 0, 0, 1, b'7']);
}

#[test]
fn null_is_the_same_in_both_formats() {
    let columns = vec![column("a", "interval day to second")];
    let values = vec![Json::Null];
    let text = encode_row(&values, &columns, &build_pg_schema(&columns, &None)).unwrap();
    let schema = build_pg_schema(&columns, &Some(Format::UnifiedBinary));
    let binary = encode_row(&values, &columns, &schema).unwrap();
    assert_eq!(text.data, vec![255, 255, 255, 255]);
    assert_eq!(binary.data, text.data);
}

#[test]
fn a_cell_that_cannot_be_encoded_fails_the_row() {
    let columns = vec![column("a", "integer")];
    let schema = build_pg_schema(&columns, &Some(Format::UnifiedBinary));
    let error = encode_row(&vec![string("x")], &columns, &schema).unwrap_err();
    assert!(error.message.contains("integer"), "{}", error.message);
    let extra = encode_row(&vec![number(1), number(2)], &columns, &schema).unwrap();
    assert_eq!(extra.field_count, 1);
}

#[test]
fn a_query_is_recorded_until_it_fails() {
    let mut slot = ActiveQueryId { id: None };
    assert!(QueryStart::begin(Err("refused".to_owned()), &mut slot).is_err());
    assert!(slot.id.is_none());
    assert!(QueryStart::begin(Ok(page(None, vec![], Some("u1"))), &mut slot).is_ok());
    assert_eq!(slot.id.as_deref(), Some("q-7"));
    let error = QueryStart::begin(Ok(failed("DIVISION_BY_ZERO")), &mut slot).err().unwrap();
    assert_eq!(error.code, "22012");
    assert!(slot.id.is_none());
}

/// Pages are fetched until the columns are known; the rows of all of them count.
#[test]
fn pages_are_fetched_until_columns_are_known() {
    let mut slot = ActiveQueryId { id: None };
    let mut start = QueryStart::begin(Ok(page(None, vec![1], Some("u1"))), &mut slot).ok().unwrap();
    assert_eq!(start.next_page().as_deref(), Some("u1"));
    assert!(start.accept(Ok(page(None, vec![2], Some("u2"))), &mut slot).is_ok());
    assert_eq!(start.next_page().as_deref(), Some("u2"));
    let columns = vec![column("n", "bigint")];
    assert!(start.accept(Ok(page(Some(columns), vec![3], Some("u3"))), &mut slot).is_ok());
    assert_eq!(start.next_page(), None);
    assert_eq!(slot.id.as_deref(), Some("q-7"));
    let mut stream = start.into_rows(&None);
    assert_eq!(stream.schema().len(), 1);
    assert_eq!(drain(&mut stream, vec![Ok(page(None, vec![4, 5], None))]), vec!["1", "2", "3", "4", "5"]);
}

/// Runs a stream to its end and shows what it hands out.
fn drain(stream: &mut RowStream, replies: Vec<Result<Page, String>>) -> Vec<String> {
    let mut replies = replies.into_iter();
    let mut out = Vec::new();
    loop {
        match stream.next_step() {
            RowStep::Row(row) => out.push(cell(&row.unwrap().data)),
            RowStep::Fetch(_) => {
                if let Some(error) = stream.accept(replies.next().unwrap()) {
                    out.push(error.code);
                }
            }
            RowStep::End => return out,
        }
    }
}

#[test]
fn a_failed_page_is_the_last_item() {
    let mut slot = ActiveQueryId { id: None };
    let first = page(Some(vec![column("n", "bigint")]), vec![1], Some("u1"));
    let start = QueryStart::begin(Ok(first.clone()), &mut slot).ok().unwrap();
    let mut stream = start.into_rows(&None);
    assert_eq!(drain(&mut stream, vec![Ok(failed("TYPE_MISMATCH"))]), vec!["1", "42846"]);
    let start = QueryStart::begin(Ok(first), &mut slot).ok().unwrap();
    let mut stream = start.into_rows(&None);
    assert_eq!(drain(&mut stream, vec![Err("connection reset".to_owned())]), vec!["1", "42000"]);
}

#[test]
fn a_failure_before_the_columns_leaves_the_connection_idle() {
    let mut slot = ActiveQueryId { id: None };
    let mut start = QueryStart::begin(Ok(page(None, vec![], Some("u1"))), &mut slot).ok().unwrap();
    assert_eq!(start.next_page().as_deref(), Some("u1"));
    assert!(start.accept(Err("gone".to_owned()), &mut slot).is_err());
    assert!(slot.id.is_none());
}

#[test]
fn only_rows_of_the_page_itself_are_taken() {
    let direct = extract_direct_rows(Some(QueryResultData::Direct(vec![vec![number(1)], vec![]])));
    assert_eq!(direct.len(), 2);
    assert_eq!(direct[0].len(), 1);
    assert!(extract_direct_rows(Some(QueryResultData::Spooled)).is_empty());
    assert!(extract_direct_rows(None).is_empty());
}

/// A query that ends does not hide one that the connection has begun since.
#[test]
fn a_query_ends_only_itself() {
    let mut slot = ActiveQueryId { id: Some("q-2".to_owned()) };
    clear_active_query_id(&mut slot, "q-1");
    assert_eq!(slot.id.as_deref(), Some("q-2"));
    clear_active_query_id(&mut slot, "q-2");
    assert_eq!(slot.id, None);
    clear_active_query_id(&mut slot, "q-2");
    assert_eq!(slot.id, None);
    let begun = QueryStart::begin(Ok(page(None, vec![], None)), &mut slot).unwrap();
    assert_eq!(begun.id, "q-7");
}
