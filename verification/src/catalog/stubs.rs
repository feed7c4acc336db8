//! Catalog tables that are empty or fixed.
use vstd::prelude::*;

use crate::response;
use crate::response::{Response, ResponseView, build_response, text_field};
use crate::text;
use crate::wire;
use crate::wire::PgType;

verus! {

/// The reply to the lookup of composite fields: no row.
pub open spec fn composite_fields_response() -> ResponseView {
    response::text_result(
        seq![
            response::text_column("oid"@, PgType::Int4),
            response::text_column("attname"@, PgType::Varchar),
            response::text_column("atttypid"@, PgType::Int4),
        ],
        Seq::empty(),
    )
}

/// The reply to a query of `pg_enum`: no row.
pub open spec fn enum_labels_response() -> ResponseView {
    response::text_result(
        seq![
            response::text_column("oid"@, PgType::Int4),
            response::text_column("enumlabel"@, PgType::Varchar),
        ],
        Seq::empty(),
    )
}

/// The reply to a query of `pg_range`: no row.
pub open spec fn range_response() -> ResponseView {
    response::text_result(
        seq![
            response::text_column("rngtypid"@, PgType::Int4),
            response::text_column("rngsubtype"@, PgType::Int4),
            response::text_column("rngmultitypid"@, PgType::Int4),
        ],
        Seq::empty(),
    )
}

/// The reply to a query of `pg_namespace`: the three standard schemas.
pub open spec fn namespace_response() -> ResponseView {
    response::text_result(
        seq![
            response::text_column("oid"@, PgType::Int4),
            response::text_column("nspname"@, PgType::Varchar),
        ],
        seq![
            seq![Some("11"@), Some("pg_catalog"@)],
            seq![Some("2200"@), Some("public"@)],
            seq![Some("13171"@), Some("information_schema"@)],
        ],
    )
}

/// Answers the lookup of composite fields.
pub fn empty_composite_fields() -> (r: Vec<Response>)
    ensures
        r@.len() == 1,
        r@[0]@ == composite_fields_response(),
{
    let schema = vec![
        text_field("oid", PgType::Int4),
        text_field("attname", PgType::Varchar),
        text_field("atttypid", PgType::Int4),
    ];
    let rows: Vec<Vec<Option<String>>> = Vec::new();
    assert(wire::field_views(schema@) =~= composite_fields_response()->fields);
    assert(response::rows_of_cells(rows@) =~= Seq::<Seq<Option<Seq<char>>>>::empty());
    build_response(schema, rows)
}

/// Answers a query of `pg_enum`.
pub fn empty_enum_labels() -> (r: Vec<Response>)
    ensures
        r@.len() == 1,
        r@[0]@ == enum_labels_response(),
{
    let schema = vec![text_field("oid", PgType::Int4), text_field("enumlabel", PgType::Varchar)];
    let rows: Vec<Vec<Option<String>>> = Vec::new();
    assert(wire::field_views(schema@) =~= enum_labels_response()->fields);
    assert(response::rows_of_cells(rows@) =~= Seq::<Seq<Option<Seq<char>>>>::empty());
    build_response(schema, rows)
}

/// Answers a query of `pg_range`.
pub fn empty_pg_range() -> (r: Vec<Response>)
    ensures
        r@.len() == 1,
        r@[0]@ == range_response(),
{
    let schema = vec![
        text_field("rngtypid", PgType::Int4),
        text_field("rngsubtype", PgType::Int4),
        text_field("rngmultitypid", PgType::Int4),
    ];
    let rows: Vec<Vec<Option<String>>> = Vec::new();
    assert(wire::field_views(schema@) =~= range_response()->fields);
    assert(response::rows_of_cells(rows@) =~= Seq::<Seq<Option<Seq<char>>>>::empty());
    build_response(schema, rows)
}

/// A row of two texts.
fn pair(first: &str, second: &str) -> (r: Vec<Option<String>>)
    ensures
        text::text_views(r@) == seq![Some(first@), Some(second@)],
        r@.len() == 2,
{
    let r = vec![Some(first.to_owned()), Some(second.to_owned())];
    assert(text::text_views(r@) =~= seq![Some(first@), Some(second@)]);
    r
}

/// Answers a query of `pg_namespace`.
pub fn respond_pg_namespace() -> (r: Vec<Response>)
    ensures
        r@.len() == 1,
        r@[0]@ == namespace_response(),
{
    let schema = vec![text_field("oid", PgType::Int4), text_field("nspname", PgType::Varchar)];
    let rows = vec![
        pair("11", "pg_catalog"),
        pair("2200", "public"),
        pair("13171", "information_schema"),
    ];
    assert(wire::field_views(schema@) =~= namespace_response()->fields);
    assert(response::rows_of_cells(rows@) =~= seq![
        seq![Some("11"@), Some("pg_catalog"@)],
        seq![Some("2200"@), Some("public"@)],
        seq![Some("13171"@), Some("information_schema"@)],
    ]);
    build_response(schema, rows)
}

/// Composite fields, enum labels and ranges have their columns and no row.
pub proof fn stubs_are_empty()
    ensures
        composite_fields_response() matches ResponseView::Query { fields, rows } && rows.len() == 0
            && fields.len() == 3 && fields[0].name == "oid"@ && fields[1].name == "attname"@
            && fields[2].name == "atttypid"@,
        enum_labels_response() matches ResponseView::Query { fields, rows } && rows.len() == 0
            && fields.len() == 2 && fields[0].name == "oid"@ && fields[1].name == "enumlabel"@,
        range_response() matches ResponseView::Query { fields, rows } && rows.len() == 0
            && fields.len() == 3 && fields[0].name == "rngtypid"@ && fields[1].name
            == "rngsubtype"@ && fields[2].name == "rngmultitypid"@,
{
}

/// The rows of `pg_namespace` are the three standard schemas, and "public" has there
/// the OID that tables in it refer to.
#[verifier::rlimit(50)]
pub proof fn namespaces_have_their_oids()
    ensures
        namespace_response() == response::text_result(
            seq![
                response::text_column("oid"@, PgType::Int4),
                response::text_column("nspname"@, PgType::Varchar),
            ],
            seq![
                seq![Some(text::decimal(11)), Some("pg_catalog"@)],
                seq![
                    Some(text::decimal(super::pg_class::oid_of_namespace("public"@) as nat)),
                    Some("public"@),
                ],
                seq![Some(text::decimal(13171)), Some("information_schema"@)],
            ],
        ),
{
    reveal_strlit("11");
    reveal_strlit("2200");
    reveal_strlit("13171");
    reveal_with_fuel(text::decimal, 6);
    assert("11"@ =~= text::decimal(11));
    assert("2200"@ =~= text::decimal(2200));
    assert("13171"@ =~= text::decimal(13171));
}

} // verus!
