//! Answers to queries of PostgreSQL's system catalog.
use vstd::prelude::*;

use crate::json::Json;
use crate::query_inspection;
use crate::query_inspection::ParsedQuery;
use crate::response::{Response, ResponseView};

pub mod pg_attribute;
pub mod pg_class;
pub mod pg_type;
pub mod stubs;

verus! {

/// The text of the value at a position, or a default.
pub open spec fn json_text(values: Seq<Json>, idx: int, default: Seq<char>) -> Seq<char> {
    if 0 <= idx < values.len() && values[idx].string_chars() is Some {
        values[idx].string_chars()->0
    } else {
        default
    }
}

/// The text of the value at a position, or a default where there is no value
/// there or it is not a string.
pub fn json_str<'a>(values: &'a Vec<Json>, idx: usize, default: &'a str) -> (r: &'a str)
    ensures
        r@ == json_text(values@, idx as int, default@),
{
    if idx < values.len() {
        if let Some(s) = values[idx].as_str() {
            return s;
        }
    }
    default
}

/// A lookup of composite fields joins `pg_attribute` with `pg_type`.
pub open spec fn is_composite_lookup(sql: Seq<char>) -> bool {
    query_inspection::mentions_table(sql, "pg_attribute"@) && query_inspection::mentions_table(
        sql,
        "pg_type"@,
    )
}

/// The fixed reply to a query of the system catalog, if it has one.
pub open spec fn static_reply(sql: Seq<char>) -> Option<ResponseView> {
    if is_composite_lookup(sql) {
        Some(stubs::composite_fields_response())
    } else if query_inspection::mentions_table(sql, "pg_enum"@) {
        Some(stubs::enum_labels_response())
    } else if query_inspection::mentions_table(sql, "pg_type"@) {
        Some(pg_type::type_loading_response())
    } else if query_inspection::mentions_table(sql, "pg_range"@) {
        Some(stubs::range_response())
    } else if query_inspection::mentions_table(sql, "pg_namespace"@) {
        Some(stubs::namespace_response())
    } else {
        None
    }
}

/// Answers a query of a catalog table that has a fixed content.
///
/// Any mention of such a table counts, whatever schema qualifies it: the names
/// are specific enough, and clients do leave `pg_catalog.` out. `pg_enum` comes
/// before `pg_type`, which its query joins.
pub fn handle_catalog_query(inspect: &ParsedQuery) -> (r: Option<Vec<Response>>)
    ensures
        r is Some <==> static_reply(inspect@) is Some,
        r matches Some(v) ==> v@.len() == 1 && Some(v@[0]@) == static_reply(inspect@),
{
    if inspect.references_table("pg_attribute") && inspect.references_table("pg_type") {
        return Some(stubs::empty_composite_fields());
    }
    if inspect.references_table("pg_enum") {
        return Some(stubs::empty_enum_labels());
    }
    if inspect.references_table("pg_type") {
        return Some(pg_type::respond_type_loading());
    }
    if inspect.references_table("pg_range") {
        return Some(stubs::empty_pg_range());
    }
    if inspect.references_table("pg_namespace") {
        return Some(stubs::respond_pg_namespace());
    }
    None
}

/// A catalog table whose rows come from Trino.
#[derive(Clone, Copy, Debug, PartialEq, Eq, Structural)]
pub enum DynamicTable {
    PgClass,
    PgAttribute,
}

impl DynamicTable {
    /// The query of Trino's `information_schema` that has the table's rows.
    pub open spec fn query(self) -> Seq<char> {
        match self {
            DynamicTable::PgClass => pg_class::class_query(),
            DynamicTable::PgAttribute => pg_attribute::attribute_query(),
        }
    }

    /// The reply that is built from the rows of that query.
    pub open spec fn reply(self, rows: Seq<Vec<Json>>) -> ResponseView {
        match self {
            DynamicTable::PgClass => pg_class::pg_class_response(rows),
            DynamicTable::PgAttribute => pg_attribute::pg_attribute_response(rows),
        }
    }

    /// The query of Trino's `information_schema` that has the table's rows.
    pub fn sql(self) -> (r: &'static str)
        ensures
            r@ == self.query(),
    {
        match self {
            DynamicTable::PgClass => pg_class::pg_class_query(),
            DynamicTable::PgAttribute => pg_attribute::pg_attribute_query(),
        }
    }

    /// Builds the reply from the rows of that query.
    pub fn respond(self, rows: &Vec<Vec<Json>>) -> (r: Vec<Response>)
        ensures
            r@.len() == 1,
            r@[0]@ == self.reply(rows@),
    {
        match self {
            DynamicTable::PgClass => pg_class::respond_pg_class(rows),
            DynamicTable::PgAttribute => pg_attribute::respond_pg_attribute(rows),
        }
    }
}

/// The catalog table that a query needs from Trino, if any.
pub open spec fn dynamic_table(sql: Seq<char>) -> Option<DynamicTable> {
    if is_composite_lookup(sql) {
        None
    } else if query_inspection::mentions_table(sql, "pg_class"@) {
        Some(DynamicTable::PgClass)
    } else if query_inspection::mentions_table(sql, "pg_attribute"@) {
        Some(DynamicTable::PgAttribute)
    } else {
        None
    }
}

/// Decides whether a query is of `pg_class` or `pg_attribute`, whose rows are
/// built from Trino's `information_schema`. The lookup of composite fields is
/// not among them.
pub fn handle_dynamic_catalog_query(inspect: &ParsedQuery) -> (r: Option<DynamicTable>)
    ensures
        r == dynamic_table(inspect@),
{
    if inspect.references_table("pg_attribute") && inspect.references_table("pg_type") {
        return None;
    }
    if inspect.references_table("pg_class") {
        return Some(DynamicTable::PgClass);
    }
    if inspect.references_table("pg_attribute") {
        return Some(DynamicTable::PgAttribute);
    }
    None
}

/// The fixed tables, each with its own reply, and no other. A join of `pg_attribute`
/// with `pg_type` looks up composite fields, and one of `pg_enum` with `pg_type` enum
/// labels.
pub proof fn fixed_tables_have_their_replies(sql: Seq<char>)
    ensures
        ({
            let attribute = query_inspection::mentions_table(sql, "pg_attribute"@);
            let labels = query_inspection::mentions_table(sql, "pg_enum"@);
            let types = query_inspection::mentions_table(sql, "pg_type"@);
            let ranges = query_inspection::mentions_table(sql, "pg_range"@);
            let schemas = query_inspection::mentions_table(sql, "pg_namespace"@);
            let reply = static_reply(sql);
            &&& !labels && !types && !ranges && !schemas <==> reply is None
            &&& attribute && types ==> reply == Some(stubs::composite_fields_response())
            &&& labels && !(attribute && types) ==> reply == Some(stubs::enum_labels_response())
            &&& types && !attribute && !labels ==> reply == Some(pg_type::type_loading_response())
            &&& ranges && !types && !labels ==> reply == Some(stubs::range_response())
            &&& schemas && !types && !labels && !ranges ==> reply == Some(
                stubs::namespace_response(),
            )
        }),
{
}

/// The tables that Trino has the rows of are `pg_class` and `pg_attribute`, `pg_class`
/// before `pg_attribute` where both are mentioned.
pub proof fn dynamic_tables_are_two(sql: Seq<char>)
    ensures
        match dynamic_table(sql) {
            Some(DynamicTable::PgClass) => query_inspection::mentions_table(sql, "pg_class"@),
            Some(DynamicTable::PgAttribute) => query_inspection::mentions_table(
                sql,
                "pg_attribute"@,
            ) && !query_inspection::mentions_table(sql, "pg_class"@)
                && !query_inspection::mentions_table(sql, "pg_type"@),
            None => query_inspection::mentions_table(sql, "pg_attribute"@)
                && query_inspection::mentions_table(sql, "pg_type"@)
                || !query_inspection::mentions_table(sql, "pg_class"@)
                && !query_inspection::mentions_table(sql, "pg_attribute"@),
        },
        dynamic_table(sql) is Some ==> !(query_inspection::mentions_table(sql, "pg_attribute"@)
            && query_inspection::mentions_table(sql, "pg_type"@)),
{
}

/// A row that lacks a value, or has something else than a text there, has the default
/// in its place; a text is taken as it is.
pub proof fn texts_are_taken_as_they_are(values: Seq<Json>, idx: int, default: Seq<char>)
    ensures
        0 <= idx < values.len() ==> (values[idx] matches Json::Str(s) ==> json_text(
            values,
            idx,
            default,
        ) == s.text@),
        !(0 <= idx < values.len()) || !(values[idx] is Str) ==> json_text(values, idx, default)
            == default,
{
}

/// Names with a comma and a space between them.
pub open spec fn joined(names: Seq<Seq<char>>) -> Seq<char>
    decreases names.len(),
{
    if names.len() == 0 {
        Seq::empty()
    } else if names.len() == 1 {
        names[0]
    } else {
        joined(names.drop_last()) + seq![',', ' '] + names.last()
    }
}

/// The query of a table asks for the columns that its rows are read from, in the order
/// in which they are read, and leaves out the tables of `information_schema` itself.
#[verifier::rlimit(50)]
pub proof fn queries_ask_for_what_is_read()
    ensures
        DynamicTable::PgClass.query() == "SELECT "@ + joined(
            seq!["table_schema"@, "table_name"@, "table_type"@],
        )
            + " FROM information_schema.tables WHERE table_schema NOT IN ('information_schema')"@,
        DynamicTable::PgAttribute.query() == "SELECT "@ + joined(
            seq![
                "table_schema"@,
                "table_name"@,
                "column_name"@,
                "ordinal_position"@,
                "is_nullable"@,
                "data_type"@,
            ],
        )
            + " FROM information_schema.columns WHERE table_schema NOT IN ('information_schema')"@
            + " ORDER BY "@ + joined(
            seq!["table_schema"@, "table_name"@, "ordinal_position"@],
        ),
{
    reveal_strlit("SELECT ");
    reveal_strlit("table_schema");
    reveal_strlit("table_name");
    reveal_strlit("table_type");
    reveal_strlit("column_name");
    reveal_strlit("ordinal_position");
    reveal_strlit("is_nullable");
    reveal_strlit("data_type");
    reveal_strlit(" FROM information_schema.tables WHERE table_schema NOT IN ('information_schema')");
    reveal_strlit(
        " FROM information_schema.columns WHERE table_schema NOT IN ('information_schema')",
    );
    reveal_strlit(" ORDER BY ");
    reveal_strlit(
        "SELECT table_schema, table_name, table_type FROM information_schema.tables WHERE table_schema NOT IN ('information_schema')",
    );
    reveal_strlit(
        "SELECT table_schema, table_name, column_name, ordinal_position, is_nullable, data_type FROM information_schema.columns WHERE table_schema NOT IN ('information_schema') ORDER BY table_schema, table_name, ordinal_position",
    );
    let s = "table_schema"@;
    let t = "table_name"@;
    let sep = seq![',', ' '];
    joined_two(s, t);
    let c = "column_name"@;
    let o = "ordinal_position"@;
    let n = "is_nullable"@;
    let d = "data_type"@;
    joined_next(seq![s, t], "table_type"@);
    joined_next(seq![s, t], c);
    joined_next(seq![s, t], o);
    joined_next(seq![s, t, c], o);
    joined_next(seq![s, t, c, o], n);
    joined_next(seq![s, t, c, o, n], d);
    assert(seq![s, t].push("table_type"@) =~= seq![s, t, "table_type"@]);
    assert(seq![s, t].push(c) =~= seq![s, t, c]);
    assert(seq![s, t].push(o) =~= seq![s, t, o]);
    assert(seq![s, t, c].push(o) =~= seq![s, t, c, o]);
    assert(seq![s, t, c, o].push(n) =~= seq![s, t, c, o, n]);
    assert(seq![s, t, c, o, n].push(d) =~= seq![s, t, c, o, n, d]);
    let three = s + sep + t + sep + "table_type"@;
    assert(joined(seq![s, t, "table_type"@]) == three);
    assert(DynamicTable::PgClass.query() =~= "SELECT "@ + three
        + " FROM information_schema.tables WHERE table_schema NOT IN ('information_schema')"@);
    let six = s + sep + t + sep + c + sep + o + sep + n + sep + d;
    assert(joined(seq![s, t, c, o, n, d]) == six);
    let order = s + sep + t + sep + o;
    assert(joined(seq![s, t, o]) == order);
    assert(DynamicTable::PgAttribute.query() =~= "SELECT "@ + six
        + " FROM information_schema.columns WHERE table_schema NOT IN ('information_schema')"@
        + " ORDER BY "@ + order);
}

/// Two names with a comma between them.
proof fn joined_two(a: Seq<char>, b: Seq<char>)
    ensures
        joined(seq![a, b]) == a + seq![',', ' '] + b,
{
    reveal_with_fuel(joined, 3);
    assert(seq![a, b].drop_last() =~= seq![a]);
}

/// One more name follows the others after a comma.
proof fn joined_next(names: Seq<Seq<char>>, name: Seq<char>)
    requires
        names.len() > 0,
    ensures
        joined(names.push(name)) == joined(names) + seq![',', ' '] + name,
{
    assert(names.push(name).drop_last() =~= names);
}

/// Each table is answered with its own reply.
pub proof fn tables_have_their_replies(rows: Seq<Vec<Json>>)
    ensures
        DynamicTable::PgClass.reply(rows) == pg_class::pg_class_response(rows),
        DynamicTable::PgAttribute.reply(rows) == pg_attribute::pg_attribute_response(rows),
{
}

} // verus!
