//! `pg_attribute`: the columns of Trino's `information_schema`.
use vstd::prelude::*;

use crate::json::Json;
use crate::response;
use crate::response::{Response, ResponseView, build_response, text_field};
use crate::text;
use crate::text::{decimal_text, parse_i64, same, signed_text};
use crate::types;
use crate::types::trino_type_to_pg;
use crate::wire;
use crate::wire::{FieldInfo, FieldView, PgType};

use super::json_str;
use super::pg_class;
use super::pg_class::table_oid;

verus! {

/// The query for the columns that `pg_attribute` lists.
pub open spec fn attribute_query() -> Seq<char> {
    "SELECT table_schema, table_name, column_name, ordinal_position, is_nullable, data_type FROM information_schema.columns WHERE table_schema NOT IN ('information_schema') ORDER BY table_schema, table_name, ordinal_position"@
}

/// The query for the columns that `pg_attribute` lists.
pub fn pg_attribute_query() -> (r: &'static str)
    ensures
        r@ == attribute_query(),
{
    "SELECT table_schema, table_name, column_name, ordinal_position, is_nullable, data_type FROM information_schema.columns WHERE table_schema NOT IN ('information_schema') ORDER BY table_schema, table_name, ordinal_position"
}

/// The columns of `pg_attribute`.
pub open spec fn pg_attribute_fields() -> Seq<FieldView> {
    seq![
        response::text_column("attrelid"@, PgType::Int4),
        response::text_column("attname"@, PgType::Varchar),
        response::text_column("atttypid"@, PgType::Int4),
        response::text_column("attnum"@, PgType::Int2),
        response::text_column("attnotnull"@, PgType::Bool),
        response::text_column("attisdropped"@, PgType::Bool),
    ]
}

/// The ordinal position at a place of a row: an integer, or a text that reads
/// as one; zero for anything else.
pub open spec fn ordinal_at(values: Seq<Json>, idx: int) -> i64 {
    if 0 <= idx < values.len() {
        match values[idx] {
            Json::Number(n) => match n.as_i64 {
                Some(i) => i,
                None => 0,
            },
            Json::Str(s) => match text::i64_value(s.text@) {
                Some(i) => i,
                None => 0,
            },
            _ => 0,
        }
    } else {
        0
    }
}

/// The ordinal position at a place of a row.
fn ordinal(values: &Vec<Json>, idx: usize) -> (r: i64)
    ensures
        r == ordinal_at(values@, idx as int),
{
    if idx < values.len() {
        match &values[idx] {
            Json::Number(n) => match n.as_i64 {
                Some(i) => i,
                None => 0,
            },
            Json::Str(s) => match parse_i64(s.text.as_str()) {
                Some(i) => i,
                None => 0,
            },
            _ => 0,
        }
    } else {
        0
    }
}

/// The `pg_attribute` row for a row of schema, table and column name, ordinal
/// position, nullability and data type.
pub open spec fn pg_attribute_row(values: Seq<Json>) -> Seq<Option<Seq<char>>> {
    let schema_name = super::json_text(values, 0, "public"@);
    let table_name = super::json_text(values, 1, ""@);
    let column_name = super::json_text(values, 2, ""@);
    let is_nullable = super::json_text(values, 4, "YES"@);
    let data_type = super::json_text(values, 5, "varchar"@);
    seq![
        Some(text::decimal(pg_class::oid_of_table(schema_name, table_name) as nat)),
        Some(column_name),
        Some(text::decimal(types::pg_type_of(data_type).spec_oid() as nat)),
        Some(text::signed_decimal(ordinal_at(values, 3) as int)),
        Some(
            if is_nullable == "NO"@ {
                "true"@
            } else {
                "false"@
            },
        ),
        Some("false"@),
    ]
}

/// The reply to a query of `pg_attribute`.
pub open spec fn pg_attribute_response(rows: Seq<Vec<Json>>) -> ResponseView {
    response::text_result(
        pg_attribute_fields(),
        Seq::new(rows.len(), |i: int| pg_attribute_row(rows[i]@)),
    )
}

/// The columns of `pg_attribute`.
fn pg_attribute_schema() -> (r: Vec<FieldInfo>)
    ensures
        wire::field_views(r@) == pg_attribute_fields(),
        r@.len() == 6,
{
    let r = vec![
        text_field("attrelid", PgType::Int4),
        text_field("attname", PgType::Varchar),
        text_field("atttypid", PgType::Int4),
        text_field("attnum", PgType::Int2),
        text_field("attnotnull", PgType::Bool),
        text_field("attisdropped", PgType::Bool),
    ];
    assert(wire::field_views(r@) =~= pg_attribute_fields());
    r
}

/// The `pg_attribute` row for one column.
fn attribute_row(values: &Vec<Json>) -> (r: Vec<Option<String>>)
    ensures
        text::text_views(r@) == pg_attribute_row(values@),
        r@.len() == 6,
{
    let schema_name = json_str(values, 0, "public");
    let table_name = json_str(values, 1, "");
    let column_name = json_str(values, 2, "");
    let is_nullable = json_str(values, 4, "YES");
    let data_type = json_str(values, 5, "varchar");
    let attnotnull = if same(is_nullable, "NO") {
        "true"
    } else {
        "false"
    };
    let row = vec![
        Some(decimal_text(table_oid(schema_name, table_name) as u64)),
        Some(column_name.to_owned()),
        Some(decimal_text(trino_type_to_pg(data_type).oid() as u64)),
        Some(signed_text(ordinal(values, 3))),
        Some(attnotnull.to_owned()),
        Some("false".to_owned()),
    ];
    assert(text::text_views(row@) =~= pg_attribute_row(values@));
    row
}

/// Answers a query of `pg_attribute` from the rows of `pg_attribute_query`.
pub fn respond_pg_attribute(column_rows: &Vec<Vec<Json>>) -> (r: Vec<Response>)
    ensures
        r@.len() == 1,
        r@[0]@ == pg_attribute_response(column_rows@),
{
    let mut rows: Vec<Vec<Option<String>>> = Vec::new();
    let mut i: usize = 0;
    while i < column_rows.len()
        invariant
            i <= column_rows@.len(),
            rows@.len() == i,
            forall|k: int| 0 <= k < i ==> (#[trigger] rows@[k])@.len() == 6,
            forall|k: int|
                0 <= k < i ==> text::text_views((#[trigger] rows@[k])@) == pg_attribute_row(
                    column_rows@[k]@,
                ),
        decreases column_rows@.len() - i,
    {
        rows.push(attribute_row(&column_rows[i]));
        i += 1;
    }
    assert(response::rows_of_cells(rows@) =~= Seq::new(
        column_rows@.len(),
        |k: int| pg_attribute_row(column_rows@[k]@),
    ));
    build_response(pg_attribute_schema(), rows)
}

/// Columns join with their tables: a column's `attrelid` is the `oid` of the
/// `pg_class` row of the table with the same schema and name.
pub proof fn attributes_join_tables(column: Seq<Json>, table: Seq<Json>)
    requires
        super::json_text(column, 0, "public"@) == super::json_text(table, 0, "public"@),
        super::json_text(column, 1, ""@) == super::json_text(table, 1, ""@),
    ensures
        pg_attribute_row(column)[0] == pg_class::pg_class_row(table)[0],
{
}

/// A client reads from a row of `pg_attribute` the OID of the column's table, the
/// column's name, the OID of its type, and its position. The column takes no NULL
/// where Trino says `NO` of it, and none is dropped.
pub proof fn attribute_rows_read_back(values: Seq<Json>)
    requires
        values.len() >= 6,
        values[0] is Str && values[1] is Str && values[2] is Str && values[4] is Str
            && values[5] is Str,
    ensures
        ({
            let row = pg_attribute_row(values);
            &&& row.len() == 6
            &&& row[0] matches Some(t) && text::unsigned_value(t) == Some(
                pg_class::oid_of_table(values[0]->Str_0.text@, values[1]->Str_0.text@) as nat,
            )
            &&& row[1] == Some(values[2]->Str_0.text@)
            &&& row[2] matches Some(t) && text::unsigned_value(t) == Some(
                types::pg_type_of(values[5]->Str_0.text@).spec_oid() as nat,
            )
            &&& row[3] matches Some(t) && text::i64_value(t) == Some(ordinal_at(values, 3))
            &&& row[4] == Some(
                if values[4]->Str_0.text@ == seq!['N', 'O'] {
                    seq!['t', 'r', 'u', 'e']
                } else {
                    seq!['f', 'a', 'l', 's', 'e']
                },
            )
            &&& row[5] == Some(seq!['f', 'a', 'l', 's', 'e'])
        }),
{
    reveal_strlit("NO");
    reveal_strlit("true");
    reveal_strlit("false");
    assert("NO"@ =~= seq!['N', 'O']);
    assert("true"@ =~= seq!['t', 'r', 'u', 'e']);
    assert("false"@ =~= seq!['f', 'a', 'l', 's', 'e']);
    text::decimals_read_back(
        pg_class::oid_of_table(values[0]->Str_0.text@, values[1]->Str_0.text@) as nat,
    );
    text::decimals_read_back(types::pg_type_of(values[5]->Str_0.text@).spec_oid() as nat);
    text::integers_read_back(ordinal_at(values, 3) as int);
}

/// A position is the integer that Trino sends, as a number or as a text that reads as
/// one; anything else is no position.
pub proof fn positions_are_integers(values: Seq<Json>, idx: int)
    requires
        0 <= idx < values.len(),
    ensures
        match values[idx] {
            Json::Number(n) => n.as_i64 matches Some(i) ==> ordinal_at(values, idx) == i,
            Json::Str(s) => text::i64_value(s.text@) matches Some(i) ==> ordinal_at(values, idx) == i,
            _ => ordinal_at(values, idx) == 0,
        },
        forall|n: i64|
            values[idx] matches Json::Str(s) && s.text@ == #[trigger] text::signed_decimal(n as int)
                ==> ordinal_at(values, idx) == n,
{
    assert forall|n: i64|
        values[idx] matches Json::Str(s) && s.text@ == #[trigger] text::signed_decimal(
            n as int,
        ) implies ordinal_at(values, idx) == n by {
        text::integers_read_back(n as int);
    }
}

/// There is a row of `pg_attribute` for each column that Trino lists, under these
/// columns.
pub proof fn every_column_has_a_row(rows: Seq<Vec<Json>>)
    ensures
        pg_attribute_response(rows) matches ResponseView::Query { fields, rows: r } && r.len()
            == rows.len() && fields.len() == 6 && fields[0].name == "attrelid"@ && fields[1].name
            == "attname"@ && fields[2].name == "atttypid"@ && fields[3].name == "attnum"@
            && fields[4].name == "attnotnull"@ && fields[5].name == "attisdropped"@
            && fields[0].datatype is Int4 && fields[1].datatype is Varchar
            && fields[2].datatype is Int4 && fields[3].datatype is Int2 && fields[4].datatype is Bool
            && fields[5].datatype is Bool,
{
}

/// A column takes NULL where Trino does not say otherwise, and is a text where it does
/// not say of what type it is.
pub proof fn missing_values_are_made_up(values: Seq<Json>)
    ensures
        ({
            let row = pg_attribute_row(values);
            &&& values.len() < 3 || !(values[2] is Str) ==> (row[1] matches Some(t) && t.len() == 0)
            &&& values.len() < 4 ==> row[3] == Some(text::signed_decimal(0))
            &&& values.len() < 5 || !(values[4] is Str) ==> row[4] == Some("false"@)
            &&& values.len() < 6 || !(values[5] is Str) ==> row[2] == Some(
                text::decimal(types::pg_type_of("varchar"@).spec_oid() as nat),
            )
        }),
{
    reveal_strlit("");
    reveal_strlit("YES");
    reveal_strlit("NO");
    assert("YES"@.len() == 3 && "NO"@.len() == 2);
}

} // verus!
