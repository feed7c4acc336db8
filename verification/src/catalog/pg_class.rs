//! `pg_class`: the tables of Trino's `information_schema`, with made-up OIDs.
use vstd::prelude::*;

use crate::json::Json;
use crate::response;
use crate::response::{Response, ResponseView, build_response, text_field};
use crate::text;
use crate::text::{decimal_text, same, to_uppercase};
use crate::wire;
use crate::wire::{FieldInfo, FieldView, PgType};

use super::json_str;

verus! {

/// First OID for tables, above PostgreSQL's system range.
pub const BASE_TABLE_OID: u32 = 16384;

/// The OID of the "public" schema in PostgreSQL.
pub const PUBLIC_NAMESPACE_OID: u32 = 2200;

/// First OID for schemas other than "public".
pub const BASE_NAMESPACE_OID: u32 = 20000;

/// One step of the djb2 hash, in 32 bits.
pub open spec fn djb2_step(h: int, b: int) -> int {
    (h * 33 + b) % 0x1_0000_0000
}

/// The djb2 hash of some bytes, from `h` on.
pub open spec fn djb2_bytes(h: int, bytes: Seq<u8>) -> int
    decreases bytes.len(),
{
    if bytes.len() == 0 {
        h
    } else {
        djb2_step(djb2_bytes(h, bytes.drop_last()), bytes.last() as int)
    }
}

/// The djb2 hash of several texts, with the byte 255 between them, which no
/// UTF-8 text holds.
pub open spec fn djb2(parts: Seq<Seq<char>>) -> int
    decreases parts.len(),
{
    if parts.len() == 0 {
        5381
    } else {
        let before = djb2(parts.drop_last());
        djb2_bytes(
            if parts.len() > 1 {
                djb2_step(before, 0xff)
            } else {
                before
            },
            vstd::utf8::encode_utf8(parts.last()),
        )
    }
}

/// The OID from `base` on, and below the largest `i32`, that a hash stands for.
pub open spec fn oid_of_hash(h: int, base: int) -> int {
    base + h % (i32::MAX - base)
}

/// The texts of a list, each by its characters.
pub open spec fn part_views(parts: Seq<&str>) -> Seq<Seq<char>> {
    Seq::new(parts.len(), |i: int| parts[i]@)
}

/// Derives an OID in `[base, i32::MAX)` from names, by the djb2 hash.
///
/// The hash is fixed, so that a client that reconnects sees the same OIDs.
pub fn djb2_oid(parts: &[&str], base: u32) -> (r: u32)
    requires
        base < i32::MAX,
    ensures
        r == oid_of_hash(djb2(part_views(parts@)), base as int),
        base <= r < i32::MAX,
{
    let mut h: u32 = 5381;
    let mut i: usize = 0;
    assert(part_views(parts@).take(0) =~= Seq::<Seq<char>>::empty());
    while i < parts.len()
        invariant
            i <= parts@.len(),
            h == djb2(part_views(parts@).take(i as int)),
        decreases parts@.len() - i,
    {
        let ghost views = part_views(parts@);
        if i > 0 {
            h = ((h as u64 * 33 + 0xff) % 0x1_0000_0000) as u32;
        }
        let ghost start = h as int;
        let bytes = parts[i].as_bytes();
        let mut k: usize = 0;
        assert(bytes@.take(0) =~= Seq::<u8>::empty());
        while k < bytes.len()
            invariant
                k <= bytes@.len(),
                0 <= start <= u32::MAX,
                h == djb2_bytes(start, bytes@.take(k as int)),
            decreases bytes@.len() - k,
        {
            h = ((h as u64 * 33 + bytes[k] as u64) % 0x1_0000_0000) as u32;
            k += 1;
            assert(bytes@.take(k as int).drop_last() =~= bytes@.take(k - 1));
        }
        assert(bytes@.take(k as int) =~= bytes@);
        i += 1;
        assert(views.take(i as int).drop_last() =~= views.take(i - 1));
    }
    assert(part_views(parts@).take(i as int) =~= part_views(parts@));
    base + (h % (0x7fff_ffff - base))
}

/// The OID of a table.
pub open spec fn oid_of_table(schema_name: Seq<char>, table_name: Seq<char>) -> int {
    oid_of_hash(djb2(seq![schema_name, table_name]), BASE_TABLE_OID as int)
}

/// The OID of a schema.
pub open spec fn oid_of_namespace(schema_name: Seq<char>) -> int {
    if schema_name == "public"@ {
        PUBLIC_NAMESPACE_OID as int
    } else {
        oid_of_hash(djb2(seq![schema_name]), BASE_NAMESPACE_OID as int)
    }
}

/// The OID of a table, by its schema and name. `pg_attribute` uses it too.
pub fn table_oid(schema_name: &str, table_name: &str) -> (r: u32)
    ensures
        r == oid_of_table(schema_name@, table_name@),
        BASE_TABLE_OID <= r < i32::MAX,
{
    let parts = [schema_name, table_name];
    assert(part_views(parts@) =~= seq![schema_name@, table_name@]);
    djb2_oid(parts.as_slice(), BASE_TABLE_OID)
}

/// The OID of a schema. "public" has its PostgreSQL OID; others are hashed.
pub fn namespace_oid(schema_name: &str) -> (r: u32)
    ensures
        r == oid_of_namespace(schema_name@),
        r == PUBLIC_NAMESPACE_OID || BASE_NAMESPACE_OID <= r < i32::MAX,
{
    if same(schema_name, "public") {
        return PUBLIC_NAMESPACE_OID;
    }
    let parts = [schema_name];
    assert(part_views(parts@) =~= seq![schema_name@]);
    djb2_oid(parts.as_slice(), BASE_NAMESPACE_OID)
}

/// PostgreSQL's relation kind for Trino's table type, in any case.
pub open spec fn relation_kind(table_type: Seq<char>) -> Seq<char> {
    if text::upper(table_type) == "VIEW"@ {
        "v"@
    } else {
        "r"@
    }
}

/// Maps Trino's table type to PostgreSQL's relation kind.
pub fn relkind(table_type: &str) -> (r: &'static str)
    ensures
        r@ == relation_kind(table_type@),
{
    if same(to_uppercase(table_type).as_str(), "VIEW") {
        "v"
    } else {
        "r"
    }
}

/// The query for the tables that `pg_class` lists.
pub open spec fn class_query() -> Seq<char> {
    "SELECT table_schema, table_name, table_type FROM information_schema.tables WHERE table_schema NOT IN ('information_schema')"@
}

/// The query for the tables that `pg_class` lists.
pub fn pg_class_query() -> (r: &'static str)
    ensures
        r@ == class_query(),
{
    "SELECT table_schema, table_name, table_type FROM information_schema.tables WHERE table_schema NOT IN ('information_schema')"
}

/// The columns of `pg_class`.
pub open spec fn pg_class_fields() -> Seq<FieldView> {
    seq![
        response::text_column("oid"@, PgType::Int4),
        response::text_column("relname"@, PgType::Varchar),
        response::text_column("relnamespace"@, PgType::Int4),
        response::text_column("relkind"@, PgType::Varchar),
    ]
}

/// The `pg_class` row for a row of schema name, table name and table type.
pub open spec fn pg_class_row(values: Seq<Json>) -> Seq<Option<Seq<char>>> {
    let schema_name = super::json_text(values, 0, "public"@);
    let table_name = super::json_text(values, 1, ""@);
    let table_type = super::json_text(values, 2, "BASE TABLE"@);
    seq![
        Some(text::decimal(oid_of_table(schema_name, table_name) as nat)),
        Some(table_name),
        Some(text::decimal(oid_of_namespace(schema_name) as nat)),
        Some(relation_kind(table_type)),
    ]
}

/// The reply to a query of `pg_class`.
pub open spec fn pg_class_response(rows: Seq<Vec<Json>>) -> ResponseView {
    response::text_result(
        pg_class_fields(),
        Seq::new(rows.len(), |i: int| pg_class_row(rows[i]@)),
    )
}

/// The columns of `pg_class`.
fn pg_class_schema() -> (r: Vec<FieldInfo>)
    ensures
        wire::field_views(r@) == pg_class_fields(),
        r@.len() == 4,
{
    let r = vec![
        text_field("oid", PgType::Int4),
        text_field("relname", PgType::Varchar),
        text_field("relnamespace", PgType::Int4),
        text_field("relkind", PgType::Varchar),
    ];
    assert(wire::field_views(r@) =~= pg_class_fields());
    r
}

/// Answers a query of `pg_class` from the rows of `pg_class_query`.
pub fn respond_pg_class(table_rows: &Vec<Vec<Json>>) -> (r: Vec<Response>)
    ensures
        r@.len() == 1,
        r@[0]@ == pg_class_response(table_rows@),
{
    let mut rows: Vec<Vec<Option<String>>> = Vec::new();
    let mut i: usize = 0;
    while i < table_rows.len()
        invariant
            i <= table_rows@.len(),
            rows@.len() == i,
            forall|k: int| 0 <= k < i ==> (#[trigger] rows@[k])@.len() == 4,
            forall|k: int|
                0 <= k < i ==> text::text_views((#[trigger] rows@[k])@) == pg_class_row(
                    table_rows@[k]@,
                ),
        decreases table_rows@.len() - i,
    {
        let values = &table_rows[i];
        let schema_name = json_str(values, 0, "public");
        let table_name = json_str(values, 1, "");
        let table_type = json_str(values, 2, "BASE TABLE");
        let row = vec![
            Some(decimal_text(table_oid(schema_name, table_name) as u64)),
            Some(table_name.to_owned()),
            Some(decimal_text(namespace_oid(schema_name) as u64)),
            Some(relkind(table_type).to_owned()),
        ];
        assert(text::text_views(row@) =~= pg_class_row(table_rows@[i as int]@));
        rows.push(row);
        i += 1;
    }
    assert(response::rows_of_cells(rows@) =~= Seq::new(
        table_rows@.len(),
        |k: int| pg_class_row(table_rows@[k]@),
    ));
    build_response(pg_class_schema(), rows)
}

/// Derived OIDs stay clear of PostgreSQL's own: those of tables and schemas lie
/// between a first one and the largest `i32`, but for the schema "public", which
/// has the OID it has in PostgreSQL.
pub proof fn derived_oids_in_range(schema_name: Seq<char>, table_name: Seq<char>)
    ensures
        BASE_TABLE_OID <= oid_of_table(schema_name, table_name) < i32::MAX,
        oid_of_namespace(schema_name) == PUBLIC_NAMESPACE_OID || BASE_NAMESPACE_OID
            <= oid_of_namespace(schema_name) < i32::MAX,
        oid_of_namespace("public"@) == PUBLIC_NAMESPACE_OID,
{
}

/// Some bytes as the digits of a number to the base 33.
pub open spec fn weighted(bytes: Seq<u8>) -> int
    decreases bytes.len(),
{
    if bytes.len() == 0 {
        0
    } else {
        bytes[0] * vstd::arithmetic::power::pow(33, (bytes.len() - 1) as nat) + weighted(
            bytes.skip(1),
        )
    }
}

/// One more byte makes a number 33 times as large, and adds to it.
#[verifier::rlimit(50)]
proof fn weighted_by_last(bytes: Seq<u8>)
    requires
        bytes.len() > 0,
    ensures
        weighted(bytes) == 33 * weighted(bytes.drop_last()) + bytes.last(),
    decreases bytes.len(),
{
    let n = (bytes.len() - 1) as nat;
    reveal(vstd::arithmetic::power::pow);
    if n == 0 {
        assert(weighted(bytes.skip(1)) == 0);
        assert(weighted(bytes.drop_last()) == 0);
        assert(vstd::arithmetic::power::pow(33, 0) == 1);
        assert(weighted(bytes) == bytes[0] * 1 + 0);
    } else {
        let rest = bytes.skip(1);
        weighted_by_last(rest);
        assert(rest.drop_last() =~= bytes.drop_last().skip(1));
        let p = vstd::arithmetic::power::pow(33, (n - 1) as nat);
        assert(vstd::arithmetic::power::pow(33, n) == 33 * p);
        let first = bytes[0] as int;
        assert(first * (33 * p) == 33 * (first * p)) by (nonlinear_arith);
        assert(weighted(bytes.drop_last()) == first * p + weighted(bytes.drop_last().skip(1)));
    }
}

/// The hash is the remainder, in 32 bits, of a number with the bytes as its digits to
/// the base 33, and with the start in front of them.
#[verifier::rlimit(50)]
pub proof fn hash_is_a_remainder(h: int, bytes: Seq<u8>)
    requires
        0 <= h < 0x1_0000_0000,
    ensures
        djb2_bytes(h, bytes) == (h * vstd::arithmetic::power::pow(33, bytes.len()) + weighted(
            bytes,
        )) % 0x1_0000_0000,
    decreases bytes.len(),
{
    let m: int = 0x1_0000_0000;
    reveal(vstd::arithmetic::power::pow);
    if bytes.len() == 0 {
        assert(vstd::arithmetic::power::pow(33, 0) == 1);
        assert(h * 1 == h);
        vstd::arithmetic::div_mod::lemma_small_mod(h as nat, m as nat);
    } else {
        let init = bytes.drop_last();
        hash_is_a_remainder(h, init);
        weighted_by_last(bytes);
        let p = vstd::arithmetic::power::pow(33, init.len());
        assert(vstd::arithmetic::power::pow(33, bytes.len()) == 33 * p);
        assert(h * (33 * p) == 33 * (h * p)) by (nonlinear_arith);
        let x = h * p + weighted(init);
        let b = bytes.last() as int;
        remainders_step(x, b);
        assert(33 * x + b == h * (33 * p) + weighted(bytes));
    }
}

/// A remainder can be taken before a step or after it.
proof fn remainders_step(x: int, b: int)
    ensures
        ((x % 0x1_0000_0000) * 33 + b) % 0x1_0000_0000 == (33 * x + b) % 0x1_0000_0000,
{
    let m: int = 0x1_0000_0000;
    let q = x / m;
    vstd::arithmetic::div_mod::lemma_fundamental_div_mod(x, m);
    let y = (x % m) * 33 + b;
    assert(33 * x + b == m * (33 * q) + y);
    vstd::arithmetic::div_mod::lemma_mod_multiples_vanish(33 * q, y, m);
}

/// Hashing goes on from one part of a text to the next.
proof fn hash_goes_on(h: int, a: Seq<u8>, b: Seq<u8>)
    ensures
        djb2_bytes(djb2_bytes(h, a), b) == djb2_bytes(h, a + b),
    decreases b.len(),
{
    if b.len() == 0 {
        assert(a + b =~= a);
    } else {
        hash_goes_on(h, a, b.drop_last());
        assert((a + b).drop_last() =~= a + b.drop_last());
    }
}

/// The OID of a table is by the bytes of its schema's name and its own, with a byte
/// between them that stands in no text; that of a schema is by the bytes of its name.
/// Both are hashed from 5381 on.
#[verifier::rlimit(50)]
pub proof fn oids_are_hashed_names(schema_name: Seq<char>, table_name: Seq<char>)
    ensures
        oid_of_table(schema_name, table_name) == 16384 + djb2_bytes(
            5381,
            vstd::utf8::encode_utf8(schema_name) + seq![255u8] + vstd::utf8::encode_utf8(
                table_name,
            ),
        ) % (i32::MAX - 16384),
        oid_of_namespace(schema_name) == if schema_name == "public"@ {
            2200
        } else {
            20000 + djb2_bytes(5381, vstd::utf8::encode_utf8(schema_name)) % (i32::MAX - 20000)
        },
{
    let s = vstd::utf8::encode_utf8(schema_name);
    let t = vstd::utf8::encode_utf8(table_name);
    reveal_with_fuel(djb2, 3);
    reveal_with_fuel(djb2_bytes, 2);
    assert(seq![schema_name, table_name].drop_last() =~= seq![schema_name]);
    assert(seq![schema_name].drop_last() =~= Seq::empty());
    hash_goes_on(5381, s, seq![255u8]);
    assert(seq![255u8].drop_last() =~= Seq::<u8>::empty());
    assert(djb2_bytes(djb2_bytes(5381, s), seq![255u8]) == djb2_step(djb2_bytes(5381, s), 255));
    hash_goes_on(5381, s + seq![255u8], t);
}

/// Views are told from tables by their type, in any letter case; whatever is not a
/// view is a table.
pub proof fn views_are_told_from_tables(table_type: Seq<char>)
    ensures
        text::upper(table_type) == seq!['V', 'I', 'E', 'W'] ==> relation_kind(table_type)
            == seq!['v'],
        text::upper(table_type) != seq!['V', 'I', 'E', 'W'] ==> relation_kind(table_type)
            == seq!['r'],
{
    reveal_strlit("VIEW");
    reveal_strlit("v");
    reveal_strlit("r");
    assert("VIEW"@ =~= seq!['V', 'I', 'E', 'W']);
    assert("v"@ =~= seq!['v']);
    assert("r"@ =~= seq!['r']);
}

/// A client reads from a row of `pg_class` the table's OID, its name, the OID of its
/// schema and its kind.
pub proof fn class_rows_read_back(values: Seq<Json>)
    requires
        values.len() >= 3,
        values[0] is Str && values[1] is Str && values[2] is Str,
    ensures
        ({
            let schema_name = values[0]->Str_0.text@;
            let table_name = values[1]->Str_0.text@;
            let row = pg_class_row(values);
            &&& row.len() == 4
            &&& row[0] matches Some(t) && text::unsigned_value(t) == Some(
                oid_of_table(schema_name, table_name) as nat,
            )
            &&& row[1] == Some(table_name)
            &&& row[2] matches Some(t) && text::unsigned_value(t) == Some(
                oid_of_namespace(schema_name) as nat,
            )
            &&& row[3] == Some(relation_kind(values[2]->Str_0.text@))
        }),
{
    let schema_name = values[0]->Str_0.text@;
    let table_name = values[1]->Str_0.text@;
    text::decimals_read_back(oid_of_table(schema_name, table_name) as nat);
    text::decimals_read_back(oid_of_namespace(schema_name) as nat);
}

/// There is a row of `pg_class` for each table that Trino lists, under these columns.
pub proof fn every_table_has_a_row(rows: Seq<Vec<Json>>)
    ensures
        pg_class_response(rows) matches ResponseView::Query { fields, rows: r } && r.len()
            == rows.len() && fields.len() == 4 && fields[0].name == "oid"@ && fields[1].name
            == "relname"@ && fields[2].name == "relnamespace"@ && fields[3].name == "relkind"@
            && fields[0].datatype is Int4 && fields[1].datatype is Varchar
            && fields[2].datatype is Int4 && fields[3].datatype is Varchar,
{
}

/// A table without a schema is of "public", and one without a type is a table.
pub proof fn missing_values_are_made_up(values: Seq<Json>)
    ensures
        ({
            let row = pg_class_row(values);
            &&& values.len() == 0 || !(values[0] is Str) ==> (row[2] matches Some(t)
                && text::unsigned_value(t) == Some(2200nat))
            &&& values.len() < 2 || !(values[1] is Str) ==> (row[1] matches Some(t) && t.len() == 0)
            &&& values.len() < 3 || !(values[2] is Str) ==> row[3] == Some(seq!['r'])
        }),
{
    reveal_strlit("");
    reveal_strlit("BASE TABLE");
    reveal_strlit("VIEW");
    reveal_strlit("r");
    assert("r"@ =~= seq!['r']);
    let t = "BASE TABLE"@;
    assert(vstd::utf8::is_ascii_chars(t)) by {
        assert forall|i: int| 0 <= i < t.len() implies '\0' <= #[trigger] t[i] <= '\u{7f}' by {}
    }
    assert(text::upper(t).len() == 10);
    assert("VIEW"@.len() == 4);
    text::decimals_read_back(2200);
}

} // verus!
