//! Replies that the gateway makes up itself.
use vstd::prelude::*;

use crate::text;
use crate::wire;
use crate::wire::{DataRow, ErrorInfo, ErrorView, FieldFormat, FieldInfo, FieldView, PgType, RowView};

verus! {

/// A result set.
#[derive(Clone, Debug)]
pub struct QueryResponse {
    pub row_schema: Vec<FieldInfo>,
    pub rows: Vec<DataRow>,
}

/// A reply to one statement.
#[derive(Clone, Debug)]
pub enum Response {
    /// A command that returns no rows, by its completion tag.
    Execution(String),
    /// A result set.
    Query(QueryResponse),
    /// A failure that is reported to the client.
    Error(ErrorInfo),
}

/// A reply, its texts as characters and its rows as bytes.
pub enum ResponseView {
    Execution(Seq<char>),
    Query { fields: Seq<FieldView>, rows: Seq<RowView> },
    Error(ErrorView),
}

/// A list of rows, each by its view.
pub open spec fn row_views(rows: Seq<DataRow>) -> Seq<RowView> {
    Seq::new(rows.len(), |i: int| rows[i]@)
}

impl View for Response {
    type V = ResponseView;

    open spec fn view(&self) -> ResponseView {
        match self {
            Response::Execution(tag) => ResponseView::Execution(tag@),
            Response::Query(q) => ResponseView::Query {
                fields: wire::field_views(q.row_schema@),
                rows: row_views(q.rows@),
            },
            Response::Error(e) => ResponseView::Error(e@),
        }
    }
}

/// The rows of a made-up result set, by their characters.
pub open spec fn rows_of_cells(rows: Seq<Vec<Option<String>>>) -> Seq<Seq<Option<Seq<char>>>> {
    Seq::new(rows.len(), |i: int| text::text_views(rows[i]@))
}

/// The payloads of a row of texts under the given columns.
pub open spec fn text_fields(fields: Seq<FieldView>, row: Seq<Option<Seq<char>>>) -> Seq<
    Option<Seq<u8>>,
> {
    Seq::new(
        row.len(),
        |i: int|
            match row[i] {
                Some(t) => Some(wire::text_payload(fields[i], t)),
                None => None,
            },
    )
}

/// The result set with the given columns and rows of texts.
pub open spec fn text_result(
    fields: Seq<FieldView>,
    rows: Seq<Seq<Option<Seq<char>>>>,
) -> ResponseView {
    ResponseView::Query {
        fields,
        rows: Seq::new(rows.len(), |i: int| wire::row_of(text_fields(fields, rows[i]))),
    }
}

/// A column that is sent as text.
pub open spec fn text_column(name: Seq<char>, datatype: PgType) -> FieldView {
    FieldView { name, datatype, format: FieldFormat::Text }
}

/// A column that is sent as text.
pub fn text_field(name: &str, datatype: PgType) -> (r: FieldInfo)
    ensures
        r@ == text_column(name@, datatype),
{
    FieldInfo::new(name, datatype, FieldFormat::Text)
}

/// Encodes one row of texts; an absent text is SQL NULL.
fn encode_text_row(schema: &Vec<FieldInfo>, row: &Vec<Option<String>>) -> (r: DataRow)
    requires
        row@.len() <= schema@.len(),
    ensures
        r@ == wire::row_of(text_fields(wire::field_views(schema@), text::text_views(row@))),
{
    let mut encoder = wire::row_encoder(schema);
    let ghost fields = wire::field_views(schema@);
    let ghost cells = text::text_views(row@);
    let mut i: usize = 0;
    assert(wire::encoder_fields(encoder) =~= text_fields(fields, cells.take(0)));
    while i < row.len()
        invariant
            i <= row@.len() <= schema@.len(),
            fields == wire::field_views(schema@),
            cells == text::text_views(row@),
            wire::encoder_columns(encoder) == fields,
            wire::encoder_fields(encoder) == text_fields(fields, cells.take(i as int)),
        decreases row@.len() - i,
    {
        match &row[i] {
            Some(t) => wire::encode_text(&mut encoder, t.as_str()),
            None => wire::encode_null(&mut encoder),
        }
        i += 1;
        assert(wire::encoder_fields(encoder) =~= text_fields(fields, cells.take(i as int)));
    }
    assert(cells.take(i as int) =~= cells);
    wire::take_row(&mut encoder)
}

/// Builds a result set from its columns and rows of texts; an absent text is
/// SQL NULL.
pub fn build_response(schema: Vec<FieldInfo>, rows: Vec<Vec<Option<String>>>) -> (r: Vec<Response>)
    requires
        forall|i: int| 0 <= i < rows@.len() ==> (#[trigger] rows@[i])@.len() <= schema@.len(),
    ensures
        r@.len() == 1,
        r@[0]@ == text_result(wire::field_views(schema@), rows_of_cells(rows@)),
{
    let mut data_rows: Vec<DataRow> = Vec::new();
    let ghost fields = wire::field_views(schema@);
    let mut i: usize = 0;
    while i < rows.len()
        invariant
            i <= rows@.len(),
            fields == wire::field_views(schema@),
            forall|k: int| 0 <= k < rows@.len() ==> (#[trigger] rows@[k])@.len() <= schema@.len(),
            data_rows@.len() == i,
            forall|k: int|
                0 <= k < i ==> (#[trigger] data_rows@[k])@ == wire::row_of(
                    text_fields(fields, text::text_views(rows@[k]@)),
                ),
        decreases rows@.len() - i,
    {
        data_rows.push(encode_text_row(&schema, &rows[i]));
        i += 1;
    }
    let mut r: Vec<Response> = Vec::new();
    let ghost cells = rows_of_cells(rows@);
    assert(row_views(data_rows@) =~= Seq::new(
        cells.len(),
        |k: int| wire::row_of(text_fields(fields, cells[k])),
    ));
    r.push(Response::Query(QueryResponse { row_schema: schema, rows: data_rows }));
    r
}

/// A result set of one column and one row, which holds a text.
pub open spec fn single_text(column: Seq<char>, value: Seq<char>) -> ResponseView {
    text_result(seq![text_column(column, PgType::Varchar)], seq![seq![Some(value)]])
}

/// Builds a result set of one column and one row, which holds a text.
pub fn single_text_response(column_name: &str, value: &str) -> (r: Vec<Response>)
    ensures
        r@.len() == 1,
        r@[0]@ == single_text(column_name@, value@),
{
    let schema = vec![text_field(column_name, PgType::Varchar)];
    let rows = vec![vec![Some(value.to_owned())]];
    assert(wire::field_views(schema@) =~= seq![text_column(column_name@, PgType::Varchar)]);
    assert(text::text_views(rows@[0]@) =~= seq![Some(value@)]);
    assert(rows_of_cells(rows@) =~= seq![seq![Some(value@)]]);
    build_response(schema, rows)
}

/// A reply with a completion tag only.
pub fn execution(tag: &str) -> (r: Vec<Response>)
    ensures
        r@.len() == 1,
        r@[0]@ == ResponseView::Execution(tag@),
{
    vec![Response::Execution(tag.to_owned())]
}

/// A client reads from a result set of texts the texts that it was built from: one
/// row for each, in order, with an absent text as NULL.
pub proof fn text_results_read_back(
    fields: Seq<FieldView>,
    rows: Seq<Seq<Option<Seq<char>>>>,
    i: int,
)
    requires
        0 <= i < rows.len(),
        rows[i].len() <= i16::MAX,
        forall|k: int|
            0 <= k < rows[i].len() ==> (#[trigger] rows[i][k] matches Some(t)
                ==> !fields[k].datatype.is_array() && text::byte_len(t) <= i32::MAX),
    ensures
        text_result(fields, rows) matches ResponseView::Query { fields: f, rows: r } && f == fields
            && r.len() == rows.len() && r[i].field_count == rows[i].len() && wire::fields_read(
            r[i].data,
            rows[i].len(),
        ) == Seq::new(
            rows[i].len(),
            |k: int|
                match rows[i][k] {
                    Some(t) => Some(vstd::utf8::encode_utf8(t)),
                    None => None,
                },
        ),
{
    let written = text_fields(fields, rows[i]);
    assert forall|k: int| 0 <= k < written.len() implies (#[trigger] written[k] matches Some(payload)
        ==> payload.len() <= i32::MAX) by {
        if let Some(t) = rows[i][k] {
            assert(!fields[k].datatype.is_array());
        }
    }
    wire::rows_read_back(written);
    assert(written =~= Seq::new(
        rows[i].len(),
        |k: int|
            match rows[i][k] {
                Some(t) => Some(vstd::utf8::encode_utf8(t)),
                None => None,
            },
    ));
}

/// A single text is one column of the given name and one row, from which a client
/// reads the text.
pub proof fn single_texts_read_back(column: Seq<char>, value: Seq<char>)
    requires
        text::byte_len(value) <= i32::MAX,
    ensures
        single_text(column, value) matches ResponseView::Query { fields, rows } && fields.len() == 1
            && fields[0].name == column && fields[0].datatype is Varchar && fields[0].format is Text
            && rows.len() == 1
            && rows[0].field_count == 1 && wire::fields_read(rows[0].data, 1) == seq![
            Some(vstd::utf8::encode_utf8(value)),
        ],
{
    let fields = seq![text_column(column, PgType::Varchar)];
    let rows = seq![seq![Some(value)]];
    text_results_read_back(fields, rows, 0);
    let read = Seq::new(
        rows[0].len(),
        |k: int|
            match rows[0][k] {
                Some(t) => Some(vstd::utf8::encode_utf8(t)),
                None => None,
            },
    );
    assert(read =~= seq![Some(vstd::utf8::encode_utf8(value))]);
}

} // verus!
