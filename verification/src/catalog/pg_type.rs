//! `pg_type`: the types that clients load when they connect.
use vstd::prelude::*;

use crate::response;
use crate::response::{Response, ResponseView, build_response, text_field};
use crate::text;
use crate::text::{same, signed_text};
use crate::wire;
use crate::wire::{FieldInfo, FieldView, PgType};

verus! {

/// One type of the catalog.
#[derive(Clone, Copy, Debug)]
pub struct TypeEntry {
    pub oid: i32,
    pub typname: &'static str,
    pub typtype: &'static str,
    /// The element type of an array type, else zero.
    pub elemtypoid: i32,
}

/// One type of the catalog, its texts as characters.
pub struct TypeView {
    pub oid: i32,
    pub typname: Seq<char>,
    pub typtype: Seq<char>,
    pub elemtypoid: i32,
}

impl View for TypeEntry {
    type V = TypeView;

    open spec fn view(&self) -> TypeView {
        TypeView {
            oid: self.oid,
            typname: self.typname@,
            typtype: self.typtype@,
            elemtypoid: self.elemtypoid,
        }
    }
}

/// A list of types, each by its view.
pub open spec fn entry_views(entries: Seq<TypeEntry>) -> Seq<TypeView> {
    Seq::new(entries.len(), |i: int| entries[i]@)
}

/// A type that is not an array.
pub open spec fn plain(oid: i32, typname: Seq<char>, typtype: Seq<char>) -> TypeView {
    TypeView { oid, typname, typtype, elemtypoid: 0 }
}

/// An array type.
pub open spec fn array(oid: i32, typname: Seq<char>, elemtypoid: i32) -> TypeView {
    TypeView { oid, typname, typtype: "a"@, elemtypoid }
}

/// The base types.
pub open spec fn base_entries() -> Seq<TypeView> {
    seq![
        plain(16, "bool"@, "b"@),
        plain(17, "bytea"@, "b"@),
        plain(20, "int8"@, "b"@),
        plain(21, "int2"@, "b"@),
        plain(23, "int4"@, "b"@),
        plain(25, "text"@, "b"@),
        plain(26, "oid"@, "b"@),
        plain(114, "json"@, "b"@),
        plain(142, "xml"@, "b"@),
        plain(700, "float4"@, "b"@),
        plain(701, "float8"@, "b"@),
        plain(869, "inet"@, "b"@),
        plain(1042, "bpchar"@, "b"@),
        plain(1043, "varchar"@, "b"@),
        plain(1082, "date"@, "b"@),
        plain(1083, "time"@, "b"@),
        plain(1114, "timestamp"@, "b"@),
        plain(1184, "timestamptz"@, "b"@),
        plain(1186, "interval"@, "b"@),
        plain(1266, "timetz"@, "b"@),
        plain(1700, "numeric"@, "b"@),
        plain(2950, "uuid"@, "b"@),
        plain(3802, "jsonb"@, "b"@),
    ]
}

/// The base types.
pub fn base_types() -> (r: Vec<TypeEntry>)
    ensures
        entry_views(r@) == base_entries(),
{
    let r = vec![
        TypeEntry { oid: 16, typname: "bool", typtype: "b", elemtypoid: 0 },
        TypeEntry { oid: 17, typname: "bytea", typtype: "b", elemtypoid: 0 },
        TypeEntry { oid: 20, typname: "int8", typtype: "b", elemtypoid: 0 },
        TypeEntry { oid: 21, typname: "int2", typtype: "b", elemtypoid: 0 },
        TypeEntry { oid: 23, typname: "int4", typtype: "b", elemtypoid: 0 },
        TypeEntry { oid: 25, typname: "text", typtype: "b", elemtypoid: 0 },
        TypeEntry { oid: 26, typname: "oid", typtype: "b", elemtypoid: 0 },
        TypeEntry { oid: 114, typname: "json", typtype: "b", elemtypoid: 0 },
        TypeEntry { oid: 142, typname: "xml", typtype: "b", elemtypoid: 0 },
        TypeEntry { oid: 700, typname: "float4", typtype: "b", elemtypoid: 0 },
        TypeEntry { oid: 701, typname: "float8", typtype: "b", elemtypoid: 0 },
        TypeEntry { oid: 869, typname: "inet", typtype: "b", elemtypoid: 0 },
        TypeEntry { oid: 1042, typname: "bpchar", typtype: "b", elemtypoid: 0 },
        TypeEntry { oid: 1043, typname: "varchar", typtype: "b", elemtypoid: 0 },
        TypeEntry { oid: 1082, typname: "date", typtype: "b", elemtypoid: 0 },
        TypeEntry { oid: 1083, typname: "time", typtype: "b", elemtypoid: 0 },
        TypeEntry { oid: 1114, typname: "timestamp", typtype: "b", elemtypoid: 0 },
        TypeEntry { oid: 1184, typname: "timestamptz", typtype: "b", elemtypoid: 0 },
        TypeEntry { oid: 1186, typname: "interval", typtype: "b", elemtypoid: 0 },
        TypeEntry { oid: 1266, typname: "timetz", typtype: "b", elemtypoid: 0 },
        TypeEntry { oid: 1700, typname: "numeric", typtype: "b", elemtypoid: 0 },
        TypeEntry { oid: 2950, typname: "uuid", typtype: "b", elemtypoid: 0 },
        TypeEntry { oid: 3802, typname: "jsonb", typtype: "b", elemtypoid: 0 },
    ];
    assert(entry_views(r@) =~= base_entries());
    r
}

/// The pseudo types.
pub open spec fn pseudo_entries() -> Seq<TypeView> {
    seq![
        plain(705, "unknown"@, "p"@),
        plain(2249, "record"@, "p"@),
        plain(2278, "void"@, "p"@),
    ]
}

/// The pseudo types.
pub fn pseudo_types() -> (r: Vec<TypeEntry>)
    ensures
        entry_views(r@) == pseudo_entries(),
{
    let r = vec![
        TypeEntry { oid: 705, typname: "unknown", typtype: "p", elemtypoid: 0 },
        TypeEntry { oid: 2249, typname: "record", typtype: "p", elemtypoid: 0 },
        TypeEntry { oid: 2278, typname: "void", typtype: "p", elemtypoid: 0 },
    ];
    assert(entry_views(r@) =~= pseudo_entries());
    r
}

/// The array types, each with its element type.
pub open spec fn array_entries() -> Seq<TypeView> {
    seq![
        array(199, "_json"@, 114),
        array(1000, "_bool"@, 16),
        array(1001, "_bytea"@, 17),
        array(1005, "_int2"@, 21),
        array(1007, "_int4"@, 23),
        array(1009, "_text"@, 25),
        array(1014, "_bpchar"@, 1042),
        array(1015, "_varchar"@, 1043),
        array(1016, "_int8"@, 20),
        array(1021, "_float4"@, 700),
        array(1022, "_float8"@, 701),
        array(1028, "_oid"@, 26),
        array(1041, "_inet"@, 869),
        array(1115, "_timestamp"@, 1114),
        array(1182, "_date"@, 1082),
        array(1183, "_time"@, 1083),
        array(1185, "_timestamptz"@, 1184),
        array(1187, "_interval"@, 1186),
        array(1231, "_numeric"@, 1700),
        array(2951, "_uuid"@, 2950),
        array(3807, "_jsonb"@, 3802),
    ]
}

/// The array types, each with its element type.
pub fn array_types() -> (r: Vec<TypeEntry>)
    ensures
        entry_views(r@) == array_entries(),
{
    let r = vec![
        TypeEntry { oid: 199, typname: "_json", typtype: "a", elemtypoid: 114 },
        TypeEntry { oid: 1000, typname: "_bool", typtype: "a", elemtypoid: 16 },
        TypeEntry { oid: 1001, typname: "_bytea", typtype: "a", elemtypoid: 17 },
        TypeEntry { oid: 1005, typname: "_int2", typtype: "a", elemtypoid: 21 },
        TypeEntry { oid: 1007, typname: "_int4", typtype: "a", elemtypoid: 23 },
        TypeEntry { oid: 1009, typname: "_text", typtype: "a", elemtypoid: 25 },
        TypeEntry { oid: 1014, typname: "_bpchar", typtype: "a", elemtypoid: 1042 },
        TypeEntry { oid: 1015, typname: "_varchar", typtype: "a", elemtypoid: 1043 },
        TypeEntry { oid: 1016, typname: "_int8", typtype: "a", elemtypoid: 20 },
        TypeEntry { oid: 1021, typname: "_float4", typtype: "a", elemtypoid: 700 },
        TypeEntry { oid: 1022, typname: "_float8", typtype: "a", elemtypoid: 701 },
        TypeEntry { oid: 1028, typname: "_oid", typtype: "a", elemtypoid: 26 },
        TypeEntry { oid: 1041, typname: "_inet", typtype: "a", elemtypoid: 869 },
        TypeEntry { oid: 1115, typname: "_timestamp", typtype: "a", elemtypoid: 1114 },
        TypeEntry { oid: 1182, typname: "_date", typtype: "a", elemtypoid: 1082 },
        TypeEntry { oid: 1183, typname: "_time", typtype: "a", elemtypoid: 1083 },
        TypeEntry { oid: 1185, typname: "_timestamptz", typtype: "a", elemtypoid: 1184 },
        TypeEntry { oid: 1187, typname: "_interval", typtype: "a", elemtypoid: 1186 },
        TypeEntry { oid: 1231, typname: "_numeric", typtype: "a", elemtypoid: 1700 },
        TypeEntry { oid: 2951, typname: "_uuid", typtype: "a", elemtypoid: 2950 },
        TypeEntry { oid: 3807, typname: "_jsonb", typtype: "a", elemtypoid: 3802 },
    ];
    assert(entry_views(r@) =~= array_entries());
    r
}

/// Base types first, then pseudo types, then arrays: the order in which a
/// client meets an array's element type before the array.
pub open spec fn all_entries() -> Seq<TypeView> {
    base_entries() + pseudo_entries() + array_entries()
}

/// The columns of the type listing that drivers ask for.
pub open spec fn pg_type_fields() -> Seq<FieldView> {
    seq![
        response::text_column("nspname"@, PgType::Varchar),
        response::text_column("typname"@, PgType::Varchar),
        response::text_column("oid"@, PgType::Int4),
        response::text_column("typrelid"@, PgType::Int4),
        response::text_column("typbasetype"@, PgType::Int4),
        response::text_column("type"@, PgType::Varchar),
        response::text_column("elemoid"@, PgType::Int4),
        response::text_column("ord"@, PgType::Int4),
    ]
}

/// The place of a kind of types in the order of dependency: base types,
/// domains, ranges, arrays.
pub open spec fn dependency_rank(typtype: Seq<char>) -> Seq<char> {
    if typtype == "a"@ {
        "3"@
    } else if typtype == "r"@ {
        "2"@
    } else if typtype == "d"@ {
        "1"@
    } else {
        "0"@
    }
}

/// The row of one type. None is a composite or a domain.
pub open spec fn type_row(e: TypeView) -> Seq<Option<Seq<char>>> {
    seq![
        Some("pg_catalog"@),
        Some(e.typname),
        Some(text::signed_decimal(e.oid as int)),
        Some("0"@),
        Some("0"@),
        Some(e.typtype),
        Some(text::signed_decimal(e.elemtypoid as int)),
        Some(dependency_rank(e.typtype)),
    ]
}

/// The reply to a query of `pg_type`.
pub open spec fn type_loading_response() -> ResponseView {
    response::text_result(
        pg_type_fields(),
        Seq::new(all_entries().len(), |i: int| type_row(all_entries()[i])),
    )
}

/// The columns of the type listing.
fn schema() -> (r: Vec<FieldInfo>)
    ensures
        wire::field_views(r@) == pg_type_fields(),
        r@.len() == 8,
{
    let r = vec![
        text_field("nspname", PgType::Varchar),
        text_field("typname", PgType::Varchar),
        text_field("oid", PgType::Int4),
        text_field("typrelid", PgType::Int4),
        text_field("typbasetype", PgType::Int4),
        text_field("type", PgType::Varchar),
        text_field("elemoid", PgType::Int4),
        text_field("ord", PgType::Int4),
    ];
    assert(wire::field_views(r@) =~= pg_type_fields());
    r
}

/// The row of one type.
pub fn entry_to_row(e: &TypeEntry) -> (r: Vec<Option<String>>)
    ensures
        text::text_views(r@) == type_row(e@),
        r@.len() == 8,
{
    let ord = if same(e.typtype, "a") {
        "3"
    } else if same(e.typtype, "r") {
        "2"
    } else if same(e.typtype, "d") {
        "1"
    } else {
        "0"
    };
    let row = vec![
        Some("pg_catalog".to_owned()),
        Some(e.typname.to_owned()),
        Some(signed_text(e.oid as i64)),
        Some("0".to_owned()),
        Some("0".to_owned()),
        Some(e.typtype.to_owned()),
        Some(signed_text(e.elemtypoid as i64)),
        Some(ord.to_owned()),
    ];
    assert(text::text_views(row@) =~= type_row(e@));
    row
}

/// Appends the rows of some types.
fn push_rows(rows: &mut Vec<Vec<Option<String>>>, entries: &Vec<TypeEntry>)
    requires
        forall|k: int| 0 <= k < old(rows)@.len() ==> (#[trigger] old(rows)@[k])@.len() == 8,
    ensures
        forall|k: int| 0 <= k < final(rows)@.len() ==> (#[trigger] final(rows)@[k])@.len() == 8,
        response::rows_of_cells(final(rows)@) == response::rows_of_cells(old(rows)@) + Seq::new(
            entries@.len(),
            |i: int| type_row(entries@[i]@),
        ),
{
    let mut i: usize = 0;
    while i < entries.len()
        invariant
            i <= entries@.len(),
            rows@.len() == old(rows)@.len() + i,
            forall|k: int| 0 <= k < rows@.len() ==> (#[trigger] rows@[k])@.len() == 8,
            forall|k: int| 0 <= k < old(rows)@.len() ==> rows@[k] == old(rows)@[k],
            forall|k: int|
                old(rows)@.len() <= k < rows@.len() ==> text::text_views(
                    (#[trigger] rows@[k])@,
                ) == type_row(entries@[k - old(rows)@.len()]@),
        decreases entries@.len() - i,
    {
        rows.push(entry_to_row(&entries[i]));
        i += 1;
    }
    assert(response::rows_of_cells(rows@) =~= response::rows_of_cells(old(rows)@) + Seq::new(
        entries@.len(),
        |k: int| type_row(entries@[k]@),
    ));
}

/// Answers a query of `pg_type` with the types that clients load.
pub fn respond_type_loading() -> (r: Vec<Response>)
    ensures
        r@.len() == 1,
        r@[0]@ == type_loading_response(),
{
    let base = base_types();
    let pseudo = pseudo_types();
    let arrays = array_types();
    let mut rows: Vec<Vec<Option<String>>> = Vec::new();
    push_rows(&mut rows, &base);
    push_rows(&mut rows, &pseudo);
    push_rows(&mut rows, &arrays);
    proof {
        let cells = response::rows_of_cells(rows@);
        assert(entry_views(base@) == base_entries());
        assert(cells =~= Seq::new(
            all_entries().len(),
            |i: int| type_row(all_entries()[i]),
        )) by {
            let b = base_entries().len();
            let p = pseudo_entries().len();
            assert forall|i: int| 0 <= i < cells.len() implies cells[i] == type_row(
                all_entries()[i],
            ) by {
                if i < b {
                    assert(entry_views(base@)[i] == base_entries()[i]);
                } else if i < b + p {
                    assert(entry_views(pseudo@)[i - b] == pseudo_entries()[i - b]);
                } else {
                    assert(entry_views(arrays@)[i - b - p] == array_entries()[i - b - p]);
                }
            }
        }
    }
    build_response(schema(), rows)
}

/// A type with this OID is listed before position `i`.
pub open spec fn listed_before(oid: i32, i: int) -> bool {
    exists|j: int| 0 <= j < i && (#[trigger] all_entries()[j]).oid == oid
}

/// Where the element type of an array type stands among the base types.
spec fn element_positions() -> Seq<int> {
    seq![7, 0, 1, 3, 4, 5, 12, 13, 2, 9, 10, 6, 11, 16, 14, 15, 17, 18, 20, 21, 22]
}

/// Types are listed in the order in which they depend on each other: the
/// element type of every array type comes before it.
pub proof fn elements_come_first(i: int)
    requires
        0 <= i < all_entries().len(),
        all_entries()[i].elemtypoid != 0,
    ensures
        listed_before(all_entries()[i].elemtypoid, i),
{
    let first = base_entries().len() + pseudo_entries().len();
    if i < base_entries().len() {
        assert(all_entries()[i] == base_entries()[i]);
    } else if i < first {
        assert(all_entries()[i] == pseudo_entries()[i - base_entries().len()]);
    }
    let k = i - first;
    assert(all_entries()[i] == array_entries()[k]);
    let j = element_positions()[k];
    assert(all_entries()[j] == base_entries()[j]);
    assert(all_entries()[j].oid == all_entries()[i].elemtypoid);
}

/// A type is listed by its name, OID and kind, and with its element type where it is
/// an array type.
pub open spec fn is_listed(name: Seq<char>, oid: i32, kind: char, element: i32) -> bool {
    exists|i: int|
        0 <= i < all_entries().len() && #[trigger] all_entries()[i] == (TypeView {
            oid,
            typname: name,
            typtype: seq![kind],
            elemtypoid: element,
        })
}

/// Every type is listed under the OID that PostgreSQL gives to its name, as a base, a
/// pseudo or an array type.
#[verifier::rlimit(50)]
pub proof fn types_have_their_oids()
    ensures
        is_listed("bool"@, 16, 'b', 0),
        is_listed("bytea"@, 17, 'b', 0),
        is_listed("int8"@, 20, 'b', 0),
        is_listed("int2"@, 21, 'b', 0),
        is_listed("int4"@, 23, 'b', 0),
        is_listed("text"@, 25, 'b', 0),
        is_listed("oid"@, 26, 'b', 0),
        is_listed("json"@, 114, 'b', 0),
        is_listed("xml"@, 142, 'b', 0),
        is_listed("float4"@, 700, 'b', 0),
        is_listed("float8"@, 701, 'b', 0),
        is_listed("inet"@, 869, 'b', 0),
        is_listed("bpchar"@, 1042, 'b', 0),
        is_listed("varchar"@, 1043, 'b', 0),
        is_listed("date"@, 1082, 'b', 0),
        is_listed("time"@, 1083, 'b', 0),
        is_listed("timestamp"@, 1114, 'b', 0),
        is_listed("timestamptz"@, 1184, 'b', 0),
        is_listed("interval"@, 1186, 'b', 0),
        is_listed("timetz"@, 1266, 'b', 0),
        is_listed("numeric"@, 1700, 'b', 0),
        is_listed("uuid"@, 2950, 'b', 0),
        is_listed("jsonb"@, 3802, 'b', 0),
        is_listed("unknown"@, 705, 'p', 0),
        is_listed("record"@, 2249, 'p', 0),
        is_listed("void"@, 2278, 'p', 0),
        is_listed("_json"@, 199, 'a', 114),
        is_listed("_bool"@, 1000, 'a', 16),
        is_listed("_bytea"@, 1001, 'a', 17),
        is_listed("_int2"@, 1005, 'a', 21),
        is_listed("_int4"@, 1007, 'a', 23),
        is_listed("_text"@, 1009, 'a', 25),
        is_listed("_bpchar"@, 1014, 'a', 1042),
        is_listed("_varchar"@, 1015, 'a', 1043),
        is_listed("_int8"@, 1016, 'a', 20),
        is_listed("_float4"@, 1021, 'a', 700),
        is_listed("_float8"@, 1022, 'a', 701),
        is_listed("_oid"@, 1028, 'a', 26),
        is_listed("_inet"@, 1041, 'a', 869),
        is_listed("_timestamp"@, 1115, 'a', 1114),
        is_listed("_date"@, 1182, 'a', 1082),
        is_listed("_time"@, 1183, 'a', 1083),
        is_listed("_timestamptz"@, 1185, 'a', 1184),
        is_listed("_interval"@, 1187, 'a', 1186),
        is_listed("_numeric"@, 1231, 'a', 1700),
        is_listed("_uuid"@, 2951, 'a', 2950),
        is_listed("_jsonb"@, 3807, 'a', 3802),
        all_entries().len() == 47,
{
    reveal_strlit("a");
    reveal_strlit("b");
    reveal_strlit("p");
    assert("a"@ =~= seq!['a']);
    assert("b"@ =~= seq!['b']);
    assert("p"@ =~= seq!['p']);
    assert(all_entries()[0] == base_entries()[0]);
    assert(all_entries()[1] == base_entries()[1]);
    assert(all_entries()[2] == base_entries()[2]);
    assert(all_entries()[3] == base_entries()[3]);
    assert(all_entries()[4] == base_entries()[4]);
    assert(all_entries()[5] == base_entries()[5]);
    assert(all_entries()[6] == base_entries()[6]);
    assert(all_entries()[7] == base_entries()[7]);
    assert(all_entries()[8] == base_entries()[8]);
    assert(all_entries()[9] == base_entries()[9]);
    assert(all_entries()[10] == base_entries()[10]);
    assert(all_entries()[11] == base_entries()[11]);
    assert(all_entries()[12] == base_entries()[12]);
    assert(all_entries()[13] == base_entries()[13]);
    assert(all_entries()[14] == base_entries()[14]);
    assert(all_entries()[15] == base_entries()[15]);
    assert(all_entries()[16] == base_entries()[16]);
    assert(all_entries()[17] == base_entries()[17]);
    assert(all_entries()[18] == base_entries()[18]);
    assert(all_entries()[19] == base_entries()[19]);
    assert(all_entries()[20] == base_entries()[20]);
    assert(all_entries()[21] == base_entries()[21]);
    assert(all_entries()[22] == base_entries()[22]);
    assert(all_entries()[23] == pseudo_entries()[0]);
    assert(all_entries()[24] == pseudo_entries()[1]);
    assert(all_entries()[25] == pseudo_entries()[2]);
    assert(all_entries()[26] == array_entries()[0]);
    assert(all_entries()[27] == array_entries()[1]);
    assert(all_entries()[28] == array_entries()[2]);
    assert(all_entries()[29] == array_entries()[3]);
    assert(all_entries()[30] == array_entries()[4]);
    assert(all_entries()[31] == array_entries()[5]);
    assert(all_entries()[32] == array_entries()[6]);
    assert(all_entries()[33] == array_entries()[7]);
    assert(all_entries()[34] == array_entries()[8]);
    assert(all_entries()[35] == array_entries()[9]);
    assert(all_entries()[36] == array_entries()[10]);
    assert(all_entries()[37] == array_entries()[11]);
    assert(all_entries()[38] == array_entries()[12]);
    assert(all_entries()[39] == array_entries()[13]);
    assert(all_entries()[40] == array_entries()[14]);
    assert(all_entries()[41] == array_entries()[15]);
    assert(all_entries()[42] == array_entries()[16]);
    assert(all_entries()[43] == array_entries()[17]);
    assert(all_entries()[44] == array_entries()[18]);
    assert(all_entries()[45] == array_entries()[19]);
    assert(all_entries()[46] == array_entries()[20]);
}

/// An array type is named after its element type, with an underscore in front.
#[verifier::rlimit(50)]
pub proof fn arrays_are_named_after_their_elements(i: int)
    requires
        0 <= i < all_entries().len(),
        all_entries()[i].elemtypoid != 0,
    ensures
        all_entries()[i].typtype == seq!['a'],
        exists|j: int|
            0 <= j < i && (#[trigger] all_entries()[j]).oid == all_entries()[i].elemtypoid
                && all_entries()[i].typname == seq!['_'] + all_entries()[j].typname,
{
    reveal_strlit("a");
    assert("a"@ =~= seq!['a']);
    let first = base_entries().len() + pseudo_entries().len();
    if i < base_entries().len() {
        assert(all_entries()[i] == base_entries()[i]);
    } else if i < first {
        assert(all_entries()[i] == pseudo_entries()[i - base_entries().len()]);
    }
    let k = i - first;
    assert(all_entries()[i] == array_entries()[k]);
    let j = element_positions()[k];
    assert(all_entries()[j] == base_entries()[j]);
    arrays_have_their_names(k);
}

/// The names of the array types are made of those of their elements.
#[verifier::rlimit(50)]
proof fn arrays_have_their_names(k: int)
    requires
        0 <= k < array_entries().len(),
    ensures
        array_entries()[k].typname == seq!['_'] + base_entries()[element_positions()[k]].typname,
        array_entries()[k].elemtypoid == base_entries()[element_positions()[k]].oid,
{
    reveal_strlit("bool");
    reveal_strlit("bytea");
    reveal_strlit("int8");
    reveal_strlit("int2");
    reveal_strlit("int4");
    reveal_strlit("text");
    reveal_strlit("oid");
    reveal_strlit("json");
    reveal_strlit("xml");
    reveal_strlit("float4");
    reveal_strlit("float8");
    reveal_strlit("inet");
    reveal_strlit("bpchar");
    reveal_strlit("varchar");
    reveal_strlit("date");
    reveal_strlit("time");
    reveal_strlit("timestamp");
    reveal_strlit("timestamptz");
    reveal_strlit("interval");
    reveal_strlit("timetz");
    reveal_strlit("numeric");
    reveal_strlit("uuid");
    reveal_strlit("jsonb");
    reveal_strlit("_json");
    reveal_strlit("_bool");
    reveal_strlit("_bytea");
    reveal_strlit("_int2");
    reveal_strlit("_int4");
    reveal_strlit("_text");
    reveal_strlit("_bpchar");
    reveal_strlit("_varchar");
    reveal_strlit("_int8");
    reveal_strlit("_float4");
    reveal_strlit("_float8");
    reveal_strlit("_oid");
    reveal_strlit("_inet");
    reveal_strlit("_timestamp");
    reveal_strlit("_date");
    reveal_strlit("_time");
    reveal_strlit("_timestamptz");
    reveal_strlit("_interval");
    reveal_strlit("_numeric");
    reveal_strlit("_uuid");
    reveal_strlit("_jsonb");
    assert("_json"@ =~= seq!['_'] + "json"@);
    assert("_bool"@ =~= seq!['_'] + "bool"@);
    assert("_bytea"@ =~= seq!['_'] + "bytea"@);
    assert("_int2"@ =~= seq!['_'] + "int2"@);
    assert("_int4"@ =~= seq!['_'] + "int4"@);
    assert("_text"@ =~= seq!['_'] + "text"@);
    assert("_bpchar"@ =~= seq!['_'] + "bpchar"@);
    assert("_varchar"@ =~= seq!['_'] + "varchar"@);
    assert("_int8"@ =~= seq!['_'] + "int8"@);
    assert("_float4"@ =~= seq!['_'] + "float4"@);
    assert("_float8"@ =~= seq!['_'] + "float8"@);
    assert("_oid"@ =~= seq!['_'] + "oid"@);
    assert("_inet"@ =~= seq!['_'] + "inet"@);
    assert("_timestamp"@ =~= seq!['_'] + "timestamp"@);
    assert("_date"@ =~= seq!['_'] + "date"@);
    assert("_time"@ =~= seq!['_'] + "time"@);
    assert("_timestamptz"@ =~= seq!['_'] + "timestamptz"@);
    assert("_interval"@ =~= seq!['_'] + "interval"@);
    assert("_numeric"@ =~= seq!['_'] + "numeric"@);
    assert("_uuid"@ =~= seq!['_'] + "uuid"@);
    assert("_jsonb"@ =~= seq!['_'] + "jsonb"@);
}

/// A client reads from a row of the listing what is listed: the name, the OID, the
/// kind, the element type, and a place in the order of dependency that is higher for
/// arrays than for other types. No row is of a composite type or a domain.
#[verifier::rlimit(50)]
pub proof fn type_rows_read_back(e: TypeView)
    ensures
        type_row(e).len() == 8,
        type_row(e)[0] == Some("pg_catalog"@),
        type_row(e)[1] == Some(e.typname),
        type_row(e)[2] matches Some(t) && text::integer_value(t) == Some(e.oid as int),
        type_row(e)[3] == Some(seq!['0']),
        type_row(e)[4] == Some(seq!['0']),
        type_row(e)[5] == Some(e.typtype),
        type_row(e)[6] matches Some(t) && text::integer_value(t) == Some(e.elemtypoid as int),
        e.typtype == seq!['a'] ==> type_row(e)[7] == Some(seq!['3']),
        e.typtype == seq!['r'] ==> type_row(e)[7] == Some(seq!['2']),
        e.typtype == seq!['d'] ==> type_row(e)[7] == Some(seq!['1']),
        e.typtype != seq!['a'] && e.typtype != seq!['r'] && e.typtype != seq!['d'] ==> type_row(
            e,
        )[7] == Some(seq!['0']),
{
    reveal_strlit("a");
    reveal_strlit("r");
    reveal_strlit("d");
    reveal_strlit("0");
    reveal_strlit("1");
    reveal_strlit("2");
    reveal_strlit("3");
    assert("a"@ =~= seq!['a']);
    assert("r"@ =~= seq!['r']);
    assert("d"@ =~= seq!['d']);
    assert("0"@ =~= seq!['0']);
    assert("1"@ =~= seq!['1']);
    assert("2"@ =~= seq!['2']);
    assert("3"@ =~= seq!['3']);
    assert(seq!['a'][0] == 'a' && seq!['r'][0] == 'r' && seq!['d'][0] == 'd');
    text::integers_read_back(e.oid as int);
    text::integers_read_back(e.elemtypoid as int);
}

/// The columns of the listing are those that drivers ask for, and it has one row for
/// each type.
pub proof fn type_listing_is_complete()
    ensures
        type_loading_response() matches ResponseView::Query { fields, rows } && rows.len()
            == all_entries().len() && fields.len() == 8 && fields[0].name == "nspname"@
            && fields[1].name == "typname"@ && fields[2].name == "oid"@ && fields[3].name
            == "typrelid"@ && fields[4].name == "typbasetype"@ && fields[5].name == "type"@
            && fields[6].name == "elemoid"@ && fields[7].name == "ord"@ && fields[2].datatype is Int4
            && fields[6].datatype is Int4 && forall|k: int|
            0 <= k < 8 ==> (#[trigger] fields[k]).format is Text,
{
}

/// A type that values are sent in is listed under its name, and an array type with
/// the type of its elements; `name` and the array of `timetz` alone are not listed.
#[verifier::rlimit(50)]
pub proof fn sent_types_are_listed(t: PgType)
    ensures
        match t {
            PgType::Bool => is_listed("bool"@, t.spec_oid() as i32, 'b', 0),
            PgType::Bytea => is_listed("bytea"@, t.spec_oid() as i32, 'b', 0),
            PgType::Int8 => is_listed("int8"@, t.spec_oid() as i32, 'b', 0),
            PgType::Int2 => is_listed("int2"@, t.spec_oid() as i32, 'b', 0),
            PgType::Int4 => is_listed("int4"@, t.spec_oid() as i32, 'b', 0),
            PgType::Text => is_listed("text"@, t.spec_oid() as i32, 'b', 0),
            PgType::Float4 => is_listed("float4"@, t.spec_oid() as i32, 'b', 0),
            PgType::Float8 => is_listed("float8"@, t.spec_oid() as i32, 'b', 0),
            PgType::Inet => is_listed("inet"@, t.spec_oid() as i32, 'b', 0),
            PgType::Bpchar => is_listed("bpchar"@, t.spec_oid() as i32, 'b', 0),
            PgType::Varchar => is_listed("varchar"@, t.spec_oid() as i32, 'b', 0),
            PgType::Date => is_listed("date"@, t.spec_oid() as i32, 'b', 0),
            PgType::Time => is_listed("time"@, t.spec_oid() as i32, 'b', 0),
            PgType::Timestamp => is_listed("timestamp"@, t.spec_oid() as i32, 'b', 0),
            PgType::Timestamptz => is_listed("timestamptz"@, t.spec_oid() as i32, 'b', 0),
            PgType::Interval => is_listed("interval"@, t.spec_oid() as i32, 'b', 0),
            PgType::Timetz => is_listed("timetz"@, t.spec_oid() as i32, 'b', 0),
            PgType::Numeric => is_listed("numeric"@, t.spec_oid() as i32, 'b', 0),
            PgType::Uuid => is_listed("uuid"@, t.spec_oid() as i32, 'b', 0),
            PgType::Jsonb => is_listed("jsonb"@, t.spec_oid() as i32, 'b', 0),
            PgType::Unknown => is_listed("unknown"@, t.spec_oid() as i32, 'p', 0),
            PgType::BoolArray => is_listed(
                "_bool"@,
                t.spec_oid() as i32,
                'a',
                PgType::Bool.spec_oid() as i32,
            ),
            PgType::ByteaArray => is_listed(
                "_bytea"@,
                t.spec_oid() as i32,
                'a',
                PgType::Bytea.spec_oid() as i32,
            ),
            PgType::Int8Array => is_listed(
                "_int8"@,
                t.spec_oid() as i32,
                'a',
                PgType::Int8.spec_oid() as i32,
            ),
            PgType::Int2Array => is_listed(
                "_int2"@,
                t.spec_oid() as i32,
                'a',
                PgType::Int2.spec_oid() as i32,
            ),
            PgType::Int4Array => is_listed(
                "_int4"@,
                t.spec_oid() as i32,
                'a',
                PgType::Int4.spec_oid() as i32,
            ),
            PgType::TextArray => is_listed(
                "_text"@,
                t.spec_oid() as i32,
                'a',
                PgType::Text.spec_oid() as i32,
            ),
            PgType::Float4Array => is_listed(
                "_float4"@,
                t.spec_oid() as i32,
                'a',
                PgType::Float4.spec_oid() as i32,
            ),
            PgType::Float8Array => is_listed(
                "_float8"@,
                t.spec_oid() as i32,
                'a',
                PgType::Float8.spec_oid() as i32,
            ),
            PgType::InetArray => is_listed(
                "_inet"@,
                t.spec_oid() as i32,
                'a',
                PgType::Inet.spec_oid() as i32,
            ),
            PgType::BpcharArray => is_listed(
                "_bpchar"@,
                t.spec_oid() as i32,
                'a',
                PgType::Bpchar.spec_oid() as i32,
            ),
            PgType::VarcharArray => is_listed(
                "_varchar"@,
                t.spec_oid() as i32,
                'a',
                PgType::Varchar.spec_oid() as i32,
            ),
            PgType::DateArray => is_listed(
                "_date"@,
                t.spec_oid() as i32,
                'a',
                PgType::Date.spec_oid() as i32,
            ),
            PgType::TimeArray => is_listed(
                "_time"@,
                t.spec_oid() as i32,
                'a',
                PgType::Time.spec_oid() as i32,
            ),
            PgType::TimestampArray => is_listed(
                "_timestamp"@,
                t.spec_oid() as i32,
                'a',
                PgType::Timestamp.spec_oid() as i32,
            ),
            PgType::TimestamptzArray => is_listed(
                "_timestamptz"@,
                t.spec_oid() as i32,
                'a',
                PgType::Timestamptz.spec_oid() as i32,
            ),
            PgType::IntervalArray => is_listed(
                "_interval"@,
                t.spec_oid() as i32,
                'a',
                PgType::Interval.spec_oid() as i32,
            ),
            PgType::NumericArray => is_listed(
                "_numeric"@,
                t.spec_oid() as i32,
                'a',
                PgType::Numeric.spec_oid() as i32,
            ),
            PgType::UuidArray => is_listed(
                "_uuid"@,
                t.spec_oid() as i32,
                'a',
                PgType::Uuid.spec_oid() as i32,
            ),
            PgType::JsonbArray => is_listed(
                "_jsonb"@,
                t.spec_oid() as i32,
                'a',
                PgType::Jsonb.spec_oid() as i32,
            ),
            PgType::Name | PgType::TimetzArray => true,
        },
{
    types_have_their_oids();
}

/// The array type over a type has that type as its element in the listing; the array of
/// `timetz` alone is not listed, and types without an array go into one of `text`.
#[verifier::rlimit(50)]
pub proof fn arrays_hold_their_elements(t: PgType)
    requires
        !t.is_array(),
    ensures
        ({
            let array = crate::types::array_type(t);
            &&& t is Timetz ==> array is TimetzArray
            &&& t is Name || t is Unknown ==> array is TextArray
            &&& !(t is Timetz) && !(t is Name) && !(t is Unknown) ==> exists|i: int|
                0 <= i < all_entries().len() && (#[trigger] all_entries()[i]).oid
                    == array.spec_oid() as i32 && all_entries()[i].elemtypoid == t.spec_oid() as i32
        }),
{
    types_have_their_oids();
    sent_types_are_listed(crate::types::array_type(t));
}

} // verus!
