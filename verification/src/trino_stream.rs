//! From Trino's pages to rows on the wire.
//!
//! Trino answers a query with a chain of pages. The first page may lack the
//! columns; later pages are fetched until they appear. From then on rows are
//! handed out one at a time, and a page is fetched when the one before it is
//! used up, so that at most one page is held.
use pgwire::api::results::DataRowEncoder;
use vstd::prelude::*;

use crate::error_mapping;
use crate::error_mapping::trino_error_to_pg;
use crate::json::Json;
use crate::session::ActiveQueryId;
use crate::text::same;
use crate::types;
use crate::types::{encode_cell, trino_type_to_pg};
use crate::wire;
use crate::wire::{DataRow, ErrorInfo, ErrorView, FieldFormat, FieldInfo, FieldView, RowView};

verus! {

/// A column of a Trino result.
#[derive(Clone, Debug)]
pub struct TrinoColumn {
    pub name: String,
    pub trino_type: String,
}

/// A column of a Trino result, its texts as characters.
pub struct ColumnView {
    pub name: Seq<char>,
    pub trino_type: Seq<char>,
}

impl View for TrinoColumn {
    type V = ColumnView;

    open spec fn view(&self) -> ColumnView {
        ColumnView { name: self.name@, trino_type: self.trino_type@ }
    }
}

/// The formats that a client asked for when it bound a portal.
#[derive(Clone, Debug)]
pub enum Format {
    /// Every column as text.
    UnifiedText,
    /// Every column in binary.
    UnifiedBinary,
    /// One code per column.
    Individual(Vec<i16>),
}

impl Format {
    /// There is a code for each of `n` columns.
    pub open spec fn covers(self, n: nat) -> bool {
        self matches Format::Individual(codes) ==> codes@.len() >= n
    }

    /// The format of a column.
    pub open spec fn of_column(self, idx: int) -> FieldFormat {
        match self {
            Format::UnifiedText => FieldFormat::Text,
            Format::UnifiedBinary => FieldFormat::Binary,
            Format::Individual(codes) => FieldFormat::of_code(codes@[idx]),
        }
    }

    /// The format of a column.
    pub fn format_for(&self, idx: usize) -> (r: FieldFormat)
        requires
            self.covers(idx as nat + 1),
        ensures
            r == self.of_column(idx as int),
    {
        match self {
            Format::UnifiedText => FieldFormat::Text,
            Format::UnifiedBinary => FieldFormat::Binary,
            Format::Individual(codes) => FieldFormat::from_code(codes[idx]),
        }
    }
}

/// The format of a column; text where nothing was asked for, as in the simple
/// query protocol.
pub open spec fn column_format(result_format: Option<Format>, idx: int) -> FieldFormat {
    match result_format {
        Some(f) => f.of_column(idx),
        None => FieldFormat::Text,
    }
}

/// The row description of a Trino result.
pub open spec fn schema_of(columns: Seq<TrinoColumn>, result_format: Option<Format>) -> Seq<
    FieldView,
> {
    Seq::new(
        columns.len(),
        |i: int|
            FieldView {
                name: columns[i].name@,
                datatype: types::pg_type_of(columns[i].trino_type@),
                format: column_format(result_format, i),
            },
    )
}

/// Where no format was negotiated, every column is described as text.
pub proof fn unnegotiated_is_text(columns: Seq<TrinoColumn>)
    ensures
        forall|i: int|
            0 <= i < columns.len() ==> (#[trigger] schema_of(columns, None)[i]).format
                == FieldFormat::Text,
{
}

/// Builds the row description of a Trino result.
///
/// Each column's format comes from what the client asked for, so that the
/// description and the encoding of the cells agree.
pub fn build_pg_schema(columns: &Vec<TrinoColumn>, result_format: &Option<Format>) -> (r: Vec<
    FieldInfo,
>)
    requires
        *result_format matches Some(f) ==> f.covers(columns@.len()),
    ensures
        wire::field_views(r@) == schema_of(columns@, *result_format),
        r@.len() == columns@.len(),
{
    let mut r: Vec<FieldInfo> = Vec::new();
    let mut i: usize = 0;
    while i < columns.len()
        invariant
            i <= columns@.len(),
            *result_format matches Some(f) ==> f.covers(columns@.len()),
            r@.len() == i,
            forall|k: int|
                0 <= k < i ==> (#[trigger] r@[k])@ == schema_of(columns@, *result_format)[k],
        decreases columns@.len() - i,
    {
        let format = match result_format {
            Some(f) => f.format_for(i),
            None => FieldFormat::Text,
        };
        let col = &columns[i];
        r.push(FieldInfo::new(col.name.as_str(), trino_type_to_pg(col.trino_type.as_str()), format));
        i += 1;
    }
    assert(wire::field_views(r@) =~= schema_of(columns@, *result_format));
    r
}

/// What one cell of a row adds to it.
pub open spec fn row_field(
    values: Seq<Json>,
    columns: Seq<TrinoColumn>,
    schema: Seq<FieldView>,
    i: int,
) -> Result<Option<Seq<u8>>, ErrorView> {
    types::cell_field(
        schema[i],
        values[i],
        schema[i].datatype,
        columns[i].trino_type@,
        schema[i].format,
    )
}

/// The number of cells of a row: there is one for each value that has a column.
pub open spec fn cell_count(values: Seq<Json>, columns: Seq<TrinoColumn>) -> int {
    if values.len() < columns.len() {
        values.len() as int
    } else {
        columns.len() as int
    }
}

/// The fields of a row up to its `n`-th cell, or the report of the first cell
/// that cannot be encoded.
pub open spec fn row_fields(
    values: Seq<Json>,
    columns: Seq<TrinoColumn>,
    schema: Seq<FieldView>,
    n: int,
) -> Result<Seq<Option<Seq<u8>>>, ErrorView>
    decreases n,
{
    if n <= 0 {
        Ok(Seq::empty())
    } else {
        match row_fields(values, columns, schema, n - 1) {
            Err(e) => Err(e),
            Ok(fields) => match row_field(values, columns, schema, n - 1) {
                Err(e) => Err(e),
                Ok(f) => Ok(fields.push(f)),
            },
        }
    }
}

/// A row on the wire, or the report that it cannot be encoded.
pub open spec fn encoded_row(
    values: Seq<Json>,
    columns: Seq<TrinoColumn>,
    schema: Seq<FieldView>,
) -> Result<RowView, ErrorView> {
    match row_fields(values, columns, schema, cell_count(values, columns)) {
        Ok(fields) => Ok(wire::row_of(fields)),
        Err(e) => Err(e),
    }
}

/// A result by its views.
pub open spec fn row_result(r: Result<DataRow, ErrorInfo>) -> Result<RowView, ErrorView> {
    match r {
        Ok(row) => Ok(row@),
        Err(e) => Err(e@),
    }
}

/// Once a cell cannot be encoded, the row cannot.
proof fn failure_stays(
    values: Seq<Json>,
    columns: Seq<TrinoColumn>,
    schema: Seq<FieldView>,
    i: int,
    n: int,
)
    requires
        0 <= i <= n,
        row_fields(values, columns, schema, i) is Err,
    ensures
        row_fields(values, columns, schema, n) == row_fields(values, columns, schema, i),
    decreases n - i,
{
    if i < n {
        failure_stays(values, columns, schema, i, n - 1);
    }
}

/// Encodes one row under its description.
pub fn encode_row(values: &Vec<Json>, columns: &Vec<TrinoColumn>, schema: &Vec<FieldInfo>) -> (r:
    Result<DataRow, ErrorInfo>)
    requires
        cell_count(values@, columns@) <= schema@.len(),
    ensures
        row_result(r) == encoded_row(values@, columns@, wire::field_views(schema@)),
{
    let mut encoder: DataRowEncoder = wire::row_encoder(schema);
    let ghost fields = wire::field_views(schema@);
    let n: usize = if values.len() < columns.len() {
        values.len()
    } else {
        columns.len()
    };
    let mut i: usize = 0;
    while i < n
        invariant
            i <= n,
            n == cell_count(values@, columns@),
            n <= schema@.len(),
            fields == wire::field_views(schema@),
            wire::encoder_columns(encoder) == fields,
            row_fields(values@, columns@, fields, i as int) == Ok::<
                Seq<Option<Seq<u8>>>,
                ErrorView,
            >(wire::encoder_fields(encoder)),
            wire::encoder_fields(encoder).len() == i,
        decreases n - i,
    {
        let field = &schema[i];
        match encode_cell(
            &mut encoder,
            &values[i],
            field.datatype(),
            columns[i].trino_type.as_str(),
            field.format(),
        ) {
            Ok(_) => {},
            Err(e) => {
                proof {
                    failure_stays(values@, columns@, fields, i + 1, n as int);
                }
                return Err(e);
            },
        }
        i += 1;
    }
    Ok(wire::take_row(&mut encoder))
}

/// The running query of a connection after one with an id has ended.
pub open spec fn slot_after_end(slot: Option<Seq<char>>, id: Seq<char>) -> Option<Seq<char>> {
    if slot == Some(id) {
        None
    } else {
        slot
    }
}

/// The running query of a connection after the reply to a submission.
pub open spec fn slot_after_begin(slot: Option<Seq<char>>, reply: PageReply) -> Option<Seq<char>> {
    match reply {
        Err(_) => slot,
        Ok(page) => if page.error is Some {
            None
        } else {
            Some(page.id@)
        },
    }
}

/// The running query of a connection after a further page.
pub open spec fn slot_after_page(slot: Option<Seq<char>>, reply: PageReply) -> Option<Seq<char>> {
    if page_failure(reply) is Some {
        None
    } else {
        slot
    }
}

/// Records the running query of a connection, or with `None` that there is
/// none; without a place to record it, does nothing.
pub fn set_active_query_id(slot: Option<&mut ActiveQueryId>, id: Option<String>)
    ensures
        slot matches Some(s) ==> final(s)@ == crate::text::text_view(id),
{
    match slot {
        Some(s) => {
            s.id = id;
        },
        None => {},
    }
}

/// Ends a query: the connection is idle again, unless it runs another query by
/// now.
pub fn clear_active_query_id(slot: &mut ActiveQueryId, id: &str)
    ensures
        final(slot)@ == slot_after_end(old(slot)@, id@),
        final(slot)@ == (if old(slot)@ == Some(id@) {
            None
        } else {
            old(slot)@
        }),
{
    let ends = match &slot.id {
        Some(running) => same(running.as_str(), id),
        None => false,
    };
    if ends {
        slot.id = None;
    }
}

/// The data of a page.
#[derive(Clone, Debug)]
pub enum QueryResultData {
    /// The rows themselves.
    Direct(Vec<Vec<Json>>),
    /// References to rows that lie elsewhere.
    Spooled,
}

/// The rows that a page holds itself.
pub open spec fn direct_rows(data: Option<QueryResultData>) -> Seq<Vec<Json>> {
    match data {
        Some(QueryResultData::Direct(rows)) => rows@,
        _ => Seq::empty(),
    }
}

/// Takes the rows that a page holds itself; rows that lie elsewhere are not
/// fetched.
pub fn extract_direct_rows(data: Option<QueryResultData>) -> (r: Vec<Vec<Json>>)
    ensures
        r@ == direct_rows(data),
{
    match data {
        Some(QueryResultData::Direct(rows)) => rows,
        _ => Vec::new(),
    }
}

/// One page of a Trino result.
#[derive(Clone, Debug)]
pub struct Page {
    pub id: String,
    /// The message of the error that Trino reports, if any.
    pub error: Option<String>,
    pub columns: Option<Vec<TrinoColumn>>,
    pub data: Option<QueryResultData>,
    pub next_uri: Option<String>,
}

/// A page, or the message of the failure to get it.
pub type PageReply = Result<Page, String>;

/// The report of a page that failed, or that reports an error.
pub open spec fn page_failure(reply: PageReply) -> Option<ErrorView> {
    match reply {
        Err(message) => Some(error_mapping::error_report(message@)),
        Ok(page) => match page.error {
            Some(message) => Some(error_mapping::error_report(message@)),
            None => None,
        },
    }
}

/// The columns of a page; none where it has not got them yet.
pub open spec fn page_columns(page: Page) -> Seq<TrinoColumn> {
    match page.columns {
        Some(columns) => columns@,
        None => Seq::empty(),
    }
}

/// A query that Trino accepted, until its columns are known.
pub struct QueryStart {
    /// The id under which Trino runs the query.
    pub id: String,
    pub columns: Vec<TrinoColumn>,
    /// The rows of the pages so far.
    pub rows: Vec<Vec<Json>>,
    pub next_uri: Option<String>,
}

impl QueryStart {
    /// Takes the reply to the submission of a query.
    ///
    /// The query's id is recorded, so that the query can be cancelled; where
    /// the reply reports an error, the connection is idle again. Where the
    /// submission itself failed, nothing is recorded.
    pub fn begin(reply: PageReply, slot: &mut ActiveQueryId) -> (r: Result<QueryStart, ErrorInfo>)
        ensures
            match r {
                Err(e) => page_failure(reply) == Some(e@),
                Ok(q) => page_failure(reply) is None && q.id@ == reply->Ok_0.id@ && q.columns@
                    == page_columns(reply->Ok_0) && q.rows@ == direct_rows(reply->Ok_0.data) && q.next_uri == reply->Ok_0.next_uri,
            },
            final(slot)@ == slot_after_begin(old(slot)@, reply),
            reply is Err ==> final(slot)@ == old(slot)@,
            reply matches Ok(page) ==> final(slot)@ == (if page.error is Some {
                None
            } else {
                Some(page.id@)
            }),
    {
        match reply {
            Err(message) => Err(trino_error_to_pg(message.as_str())),
            Ok(page) => {
                slot.id = Some(page.id.clone());
                if let Some(message) = page.error {
                    slot.id = None;
                    return Err(trino_error_to_pg(message.as_str()));
                }
                let columns = match page.columns {
                    Some(columns) => columns,
                    None => {
                        let none: Vec<TrinoColumn> = Vec::new();
                        assert(none@ =~= Seq::<TrinoColumn>::empty());
                        none
                    },
                };
                Ok(QueryStart { id: page.id, columns, rows: extract_direct_rows(page.data), next_uri: page.next_uri })
            },
        }
    }

    /// The page to fetch next, while the columns are not known.
    pub fn next_page(&mut self) -> (r: Option<String>)
        ensures
            final(self).id == old(self).id,
            final(self).columns == old(self).columns,
            final(self).rows == old(self).rows,
            old(self).columns@.len() > 0 ==> r is None && final(self).next_uri
                == old(self).next_uri,
            old(self).columns@.len() == 0 ==> r == old(self).next_uri && final(self).next_uri is None,
    {
        if self.columns.len() > 0 {
            return None;
        }
        self.next_uri.take()
    }

    /// Takes a further page. Its rows come after those of earlier pages; its
    /// columns, where it has any, become known. A failure leaves the
    /// connection idle.
    pub fn accept(&mut self, reply: PageReply, slot: &mut ActiveQueryId) -> (r: Result<
        (),
        ErrorInfo,
    >)
        ensures
            final(slot)@ == slot_after_page(old(slot)@, reply),
            match r {
                Err(e) => {
                    &&& page_failure(reply) == Some(e@)
                    &&& final(slot)@ is None
                    &&& *final(self) == *old(self)
                },
                Ok(_) => {
                    &&& page_failure(reply) is None
                    &&& final(slot)@ == old(slot)@
                    &&& final(self).id == old(self).id
                    &&& final(self).columns@ == (match reply->Ok_0.columns {
                        Some(columns) => columns@,
                        None => old(self).columns@,
                    })
                    &&& final(self).rows@ == old(self).rows@ + direct_rows(reply->Ok_0.data)
                    &&& final(self).next_uri == reply->Ok_0.next_uri
                },
            },
    {
        match reply {
            Err(message) => {
                slot.id = None;
                Err(trino_error_to_pg(message.as_str()))
            },
            Ok(page) => {
                if let Some(message) = page.error {
                    slot.id = None;
                    return Err(trino_error_to_pg(message.as_str()));
                }
                if let Some(columns) = page.columns {
                    self.columns = columns;
                }
                let mut rows = extract_direct_rows(page.data);
                self.rows.append(&mut rows);
                self.next_uri = page.next_uri;
                Ok(())
            },
        }
    }

    /// Begins to hand out rows, under the formats that the client asked for.
    pub fn into_rows(self, result_format: &Option<Format>) -> (r: RowStream)
        requires
            *result_format matches Some(f) ==> f.covers(self.columns@.len()),
        ensures
            r.wf(),
            r.columns() == self.columns@,
            r.fields() == schema_of(self.columns@, *result_format),
            r.pending() == self.rows@,
            r.next_uri() == self.next_uri,
    {
        let schema = build_pg_schema(&self.columns, result_format);
        let r = RowStream {
            columns: self.columns,
            schema,
            page: self.rows,
            position: 0,
            next_uri: self.next_uri,
        };
        assert(r.pending() =~= self.rows@);
        r
    }
}

/// The rows of a query, one page at a time.
pub struct RowStream {
    columns: Vec<TrinoColumn>,
    schema: Vec<FieldInfo>,
    page: Vec<Vec<Json>>,
    position: usize,
    next_uri: Option<String>,
}

/// What a client of the stream has to do next.
pub enum RowStep {
    /// Hand out a row, or the report that it cannot be encoded.
    Row(Result<DataRow, ErrorInfo>),
    /// Fetch this page and hand it in.
    Fetch(String),
    /// Nothing: the rows are used up.
    End,
}

/// One item that a stream hands out.
pub enum Item {
    Row(Result<RowView, ErrorView>),
    Failure(ErrorView),
}

/// The rows of a page as they are handed out.
pub open spec fn row_items(
    rows: Seq<Vec<Json>>,
    columns: Seq<TrinoColumn>,
    schema: Seq<FieldView>,
) -> Seq<Item> {
    Seq::new(rows.len(), |i: int| Item::Row(encoded_row(rows[i]@, columns, schema)))
}

/// All that a stream hands out, given the pages that are still to come: the
/// rows at hand, then those of each further page in order, up to the first
/// page that fails, whose report comes last.
pub open spec fn all_items(
    pending: Seq<Vec<Json>>,
    next_uri: Option<String>,
    columns: Seq<TrinoColumn>,
    schema: Seq<FieldView>,
    replies: Seq<PageReply>,
) -> Seq<Item>
    decreases replies.len(),
{
    row_items(pending, columns, schema) + (if next_uri is None || replies.len() == 0 {
        Seq::empty()
    } else if let Some(e) = page_failure(replies[0]) {
        seq![Item::Failure(e)]
    } else {
        all_items(
            direct_rows(replies[0]->Ok_0.data),
            replies[0]->Ok_0.next_uri,
            columns,
            schema,
            replies.skip(1),
        )
    })
}

impl RowStream {
    /// There is a description for each column, and the position lies within
    /// the page.
    pub closed spec fn wf(self) -> bool {
        self.position <= self.page@.len() && self.schema@.len() == self.columns@.len()
    }

    /// The columns of the result.
    pub closed spec fn columns(self) -> Seq<TrinoColumn> {
        self.columns@
    }

    /// The row description.
    pub closed spec fn fields(self) -> Seq<FieldView> {
        wire::field_views(self.schema@)
    }

    /// The rows at hand that were not handed out yet.
    pub closed spec fn pending(self) -> Seq<Vec<Json>> {
        self.page@.skip(self.position as int)
    }

    /// The page that follows.
    pub closed spec fn next_uri(self) -> Option<String> {
        self.next_uri
    }

    /// All that is still to be handed out, given the pages still to come.
    pub open spec fn items(self, replies: Seq<PageReply>) -> Seq<Item> {
        all_items(self.pending(), self.next_uri(), self.columns(), self.fields(), replies)
    }

    /// The row description.
    pub fn schema(&self) -> (r: &Vec<FieldInfo>)
        ensures
            wire::field_views(r@) == self.fields(),
    {
        &self.schema
    }

    /// The next step: a row while the page has any, then the page that
    /// follows, then the end.
    pub fn next_step(&mut self) -> (r: RowStep)
        requires
            old(self).wf(),
        ensures
            final(self).wf(),
            final(self).columns() == old(self).columns(),
            final(self).fields() == old(self).fields(),
            match r {
                RowStep::Row(row) => {
                    &&& old(self).pending().len() > 0
                    &&& row_result(row) == encoded_row(
                        old(self).pending()[0]@,
                        old(self).columns(),
                        old(self).fields(),
                    )
                    &&& final(self).pending() == old(self).pending().skip(1)
                    &&& final(self).next_uri() == old(self).next_uri()
                },
                RowStep::Fetch(url) => {
                    &&& old(self).pending().len() == 0
                    &&& old(self).next_uri() == Some(url)
                    &&& final(self).pending() == old(self).pending()
                    &&& final(self).next_uri() is None
                },
                RowStep::End => {
                    &&& old(self).pending().len() == 0
                    &&& old(self).next_uri() is None
                    &&& final(self).pending() == old(self).pending()
                    &&& final(self).next_uri() is None
                },
            },
    {
        if self.position < self.page.len() {
            let row = encode_row(&self.page[self.position], &self.columns, &self.schema);
            self.position += 1;
            assert(self.pending() =~= old(self).pending().skip(1));
            return RowStep::Row(row);
        }
        match self.next_uri.take() {
            Some(url) => RowStep::Fetch(url),
            None => RowStep::End,
        }
    }

    /// Takes the page that `next_step` asked for. A failure is to be handed
    /// out as the last item; nothing follows it.
    pub fn accept(&mut self, reply: PageReply) -> (r: Option<ErrorInfo>)
        requires
            old(self).wf(),
            old(self).pending().len() == 0,
            old(self).next_uri() is None,
        ensures
            final(self).wf(),
            final(self).columns() == old(self).columns(),
            final(self).fields() == old(self).fields(),
            match r {
                Some(e) => page_failure(reply) == Some(e@) && final(self).pending().len() == 0
                    && final(self).next_uri() is None,
                None => page_failure(reply) is None && final(self).pending()
                    == direct_rows(reply->Ok_0.data) && final(self).next_uri() == reply->Ok_0.next_uri,
            },
    {
        match reply {
            Err(message) => Some(trino_error_to_pg(message.as_str())),
            Ok(page) => {
                if let Some(message) = page.error {
                    return Some(trino_error_to_pg(message.as_str()));
                }
                self.page = extract_direct_rows(page.data);
                self.position = 0;
                self.next_uri = page.next_uri;
                assert(self.pending() =~= self.page@);
                None
            },
        }
    }
}

/// A row that is handed out is the first of all items, and what remains is
/// handed out after it: no row is lost, repeated or reordered.
pub proof fn rows_come_in_order(
    pending: Seq<Vec<Json>>,
    next_uri: Option<String>,
    columns: Seq<TrinoColumn>,
    schema: Seq<FieldView>,
    replies: Seq<PageReply>,
)
    requires
        pending.len() > 0,
    ensures
        all_items(pending, next_uri, columns, schema, replies) == seq![
            Item::Row(encoded_row(pending[0]@, columns, schema)),
        ] + all_items(pending.skip(1), next_uri, columns, schema, replies),
{
    assert(row_items(pending, columns, schema) =~= seq![
        Item::Row(encoded_row(pending[0]@, columns, schema)),
    ] + row_items(pending.skip(1), columns, schema));
    assert(all_items(pending, next_uri, columns, schema, replies) =~= seq![
        Item::Row(encoded_row(pending[0]@, columns, schema)),
    ] + all_items(pending.skip(1), next_uri, columns, schema, replies));
}

/// Without rows at hand, a page that is handed in takes the place of the page
/// that was asked for; a failure is the last item.
pub proof fn pages_come_in_order(
    url: String,
    columns: Seq<TrinoColumn>,
    schema: Seq<FieldView>,
    replies: Seq<PageReply>,
)
    requires
        replies.len() > 0,
    ensures
        all_items(Seq::empty(), Some(url), columns, schema, replies) == (match page_failure(
            replies[0],
        ) {
            Some(e) => seq![Item::Failure(e)],
            None => all_items(
                direct_rows(replies[0]->Ok_0.data),
                replies[0]->Ok_0.next_uri,
                columns,
                schema,
                replies.skip(1),
            ),
        }),
{
    assert(row_items(Seq::empty(), columns, schema) =~= Seq::<Item>::empty());
    let rest = match page_failure(replies[0]) {
        Some(e) => seq![Item::Failure(e)],
        None => all_items(
            direct_rows(replies[0]->Ok_0.data),
            replies[0]->Ok_0.next_uri,
            columns,
            schema,
            replies.skip(1),
        ),
    };
    assert(all_items(Seq::empty(), Some(url), columns, schema, replies) =~= rest);
}

/// NULL goes on the wire the same way in both formats.
pub proof fn null_is_format_independent(
    column: FieldView,
    other: FieldView,
    trino_type: Seq<char>,
    other_type: Seq<char>,
)
    ensures
        types::cell_field(column, Json::Null, column.datatype, trino_type, FieldFormat::Text)
            == types::cell_field(
            other,
            Json::Null,
            other.datatype,
            other_type,
            FieldFormat::Binary,
        ),
{
}

/// A column is described under its own name, with the type that stands for Trino's,
/// and in the format that was asked for: one for all columns, or the code of its own
/// place, of which 1 is binary and any other is text.
pub proof fn columns_are_described(columns: Seq<TrinoColumn>, format: Option<Format>, i: int)
    requires
        0 <= i < columns.len(),
    ensures
        schema_of(columns, format).len() == columns.len(),
        ({
            let field = schema_of(columns, format)[i];
            &&& field.name == columns[i].name@
            &&& field.datatype == types::pg_type_of(columns[i].trino_type@)
            &&& match format {
                None => field.format is Text,
                Some(Format::UnifiedText) => field.format is Text,
                Some(Format::UnifiedBinary) => field.format is Binary,
                Some(Format::Individual(codes)) => (codes@[i] != 1 ==> field.format is Text) && (
                codes@[i] == 1 ==> field.format is Binary),
            }
        }),
{
}

/// The fields of a row are those of its cells, in order.
proof fn fields_are_of_the_cells(
    values: Seq<Json>,
    columns: Seq<TrinoColumn>,
    schema: Seq<FieldView>,
    n: int,
)
    requires
        0 <= n,
    ensures
        match row_fields(values, columns, schema, n) {
            Ok(fields) => fields.len() == n && forall|k: int|
                0 <= k < n ==> #[trigger] row_field(values, columns, schema, k) == Ok::<
                    Option<Seq<u8>>,
                    ErrorView,
                >(fields[k]),
            Err(e) => exists|k: int|
                0 <= k < n && #[trigger] row_field(values, columns, schema, k) == Err::<
                    Option<Seq<u8>>,
                    ErrorView,
                >(e),
        },
    decreases n,
{
    if n > 0 {
        fields_are_of_the_cells(values, columns, schema, n - 1);
    }
}

/// A client reads from a row one field for each value that has a column, each as its
/// cell is encoded. A row cannot be sent only where one of its cells cannot, and the
/// report is that cell's.
#[verifier::rlimit(50)]
pub proof fn rows_are_read_by_the_cell(
    values: Seq<Json>,
    columns: Seq<TrinoColumn>,
    schema: Seq<FieldView>,
)
    requires
        values.len() <= i16::MAX,
    ensures
        match encoded_row(values, columns, schema) {
            Ok(row) => {
                let n = cell_count(values, columns);
                &&& row.field_count == n
                &&& n <= values.len() && n <= columns.len() && (n == values.len() || n
                    == columns.len())
                &&& (forall|k: int|
                    0 <= k < n ==> (#[trigger] row_field(values, columns, schema, k)
                        matches Ok(Some(payload)) ==> payload.len() <= i32::MAX))
                    ==> wire::fields_read(row.data, n as nat).len() == n && forall|k: int|
                    0 <= k < n ==> #[trigger] row_field(values, columns, schema, k) == Ok::<
                        Option<Seq<u8>>,
                        ErrorView,
                    >(wire::fields_read(row.data, n as nat)[k])
            },
            Err(e) => exists|k: int|
                0 <= k < values.len() && k < columns.len() && #[trigger] row_field(
                    values,
                    columns,
                    schema,
                    k,
                ) == Err::<Option<Seq<u8>>, ErrorView>(e),
        },
{
    let n = cell_count(values, columns);
    fields_are_of_the_cells(values, columns, schema, n);
    if let Ok(fields) = row_fields(values, columns, schema, n) {
        if forall|k: int|
            0 <= k < n ==> (#[trigger] row_field(values, columns, schema, k)
                matches Ok(Some(payload)) ==> payload.len() <= i32::MAX) {
            assert forall|k: int| 0 <= k < fields.len() implies (#[trigger] fields[k]
                matches Some(payload) ==> payload.len() <= i32::MAX) by {
                assert(row_field(values, columns, schema, k) is Ok);
            }
            wire::rows_read_back(fields);
        }
    }
}

/// A cell is encoded under the description of its own column, and by Trino's type of
/// that column.
pub proof fn cells_go_by_their_columns(
    values: Seq<Json>,
    columns: Seq<TrinoColumn>,
    format: Option<Format>,
    i: int,
)
    requires
        0 <= i < columns.len(),
    ensures
        row_field(values, columns, schema_of(columns, format), i) == types::cell_field(
            schema_of(columns, format)[i],
            values[i],
            types::pg_type_of(columns[i].trino_type@),
            columns[i].trino_type@,
            column_format(format, i),
        ),
{
}

/// The rows of a page are those that it holds itself, and a page fails where it was
/// not got or reports an error, with the message of that.
pub proof fn pages_hold_their_rows(rows: Vec<Vec<Json>>, page: Page, message: String)
    ensures
        direct_rows(Some(QueryResultData::Direct(rows))) == rows@,
        direct_rows(Some(QueryResultData::Spooled)).len() == 0,
        direct_rows(None).len() == 0,
        page_failure(Err(message)) == Some(error_mapping::error_report(message@)),
        page.error matches Some(m) ==> page_failure(Ok(page)) == Some(
            error_mapping::error_report(m@),
        ),
        page.error is None ==> page_failure(Ok(page)) is None,
        page.columns matches Some(c) ==> page_columns(page) == c@,
        page.columns is None ==> page_columns(page).len() == 0,
{
}

/// A query can be cancelled from the reply to its submission on until it ends, and
/// never under the id of another: its pages keep it recorded, a failure and its own end
/// clear it, and the end of another query does not. A submission that failed leaves the
/// query before it.
pub proof fn running_queries_are_recorded(
    slot: Option<Seq<char>>,
    page: Page,
    next: Page,
    message: String,
    other: Seq<char>,
)
    requires
        page.error is None,
        next.error is None,
        other != page.id@,
    ensures
        ({
            let running = slot_after_begin(slot, Ok(page));
            &&& running == Some(page.id@)
            &&& slot_after_page(running, Ok(next)) == running
            &&& slot_after_page(running, Err(message)) is None
            &&& slot_after_page(running, Ok(Page { error: Some(message), ..next })) is None
            &&& slot_after_end(running, page.id@) is None
            &&& slot_after_end(running, other) == running
            &&& slot_after_begin(slot, Ok(Page { error: Some(message), ..page })) is None
            &&& slot_after_begin(slot, Err(message)) == slot
        }),
{
}

} // verus!
