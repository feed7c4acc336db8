//! PostgreSQL types, row descriptions, error fields and row encoding.
use std::sync::Arc;

use pgwire::api::results::DataRowEncoder;
use vstd::prelude::*;

use crate::text;

verus! {

/// The PostgreSQL types that the gateway reports.
#[derive(Clone, Copy, Debug, PartialEq, Eq, Structural)]
pub enum PgType {
    Bool,
    Bytea,
    Name,
    Int8,
    Int2,
    Int4,
    Text,
    Float4,
    Float8,
    Unknown,
    Inet,
    Bpchar,
    Varchar,
    Date,
    Time,
    Timestamp,
    Timestamptz,
    Interval,
    Timetz,
    Numeric,
    Uuid,
    Jsonb,
    BoolArray,
    ByteaArray,
    Int2Array,
    Int4Array,
    TextArray,
    BpcharArray,
    VarcharArray,
    Int8Array,
    Float4Array,
    Float8Array,
    InetArray,
    TimestampArray,
    DateArray,
    TimeArray,
    TimestamptzArray,
    IntervalArray,
    NumericArray,
    TimetzArray,
    UuidArray,
    JsonbArray,
}

impl PgType {
    /// The type's object identifier.
    pub open spec fn spec_oid(self) -> u32 {
        match self {
            PgType::Bool => 16,
            PgType::Bytea => 17,
            PgType::Name => 19,
            PgType::Int8 => 20,
            PgType::Int2 => 21,
            PgType::Int4 => 23,
            PgType::Text => 25,
            PgType::Float4 => 700,
            PgType::Float8 => 701,
            PgType::Unknown => 705,
            PgType::Inet => 869,
            PgType::Bpchar => 1042,
            PgType::Varchar => 1043,
            PgType::Date => 1082,
            PgType::Time => 1083,
            PgType::Timestamp => 1114,
            PgType::Timestamptz => 1184,
            PgType::Interval => 1186,
            PgType::Timetz => 1266,
            PgType::Numeric => 1700,
            PgType::Uuid => 2950,
            PgType::Jsonb => 3802,
            PgType::BoolArray => 1000,
            PgType::ByteaArray => 1001,
            PgType::Int2Array => 1005,
            PgType::Int4Array => 1007,
            PgType::TextArray => 1009,
            PgType::BpcharArray => 1014,
            PgType::VarcharArray => 1015,
            PgType::Int8Array => 1016,
            PgType::Float4Array => 1021,
            PgType::Float8Array => 1022,
            PgType::InetArray => 1041,
            PgType::TimestampArray => 1115,
            PgType::DateArray => 1182,
            PgType::TimeArray => 1183,
            PgType::TimestamptzArray => 1185,
            PgType::IntervalArray => 1187,
            PgType::NumericArray => 1231,
            PgType::TimetzArray => 1270,
            PgType::UuidArray => 2951,
            PgType::JsonbArray => 3807,
        }
    }

    /// The type's object identifier.
    pub fn oid(&self) -> (r: u32)
        ensures
            r == self.spec_oid(),
    {
        match self {
            PgType::Bool => 16,
            PgType::Bytea => 17,
            PgType::Name => 19,
            PgType::Int8 => 20,
            PgType::Int2 => 21,
            PgType::Int4 => 23,
            PgType::Text => 25,
            PgType::Float4 => 700,
            PgType::Float8 => 701,
            PgType::Unknown => 705,
            PgType::Inet => 869,
            PgType::Bpchar => 1042,
            PgType::Varchar => 1043,
            PgType::Date => 1082,
            PgType::Time => 1083,
            PgType::Timestamp => 1114,
            PgType::Timestamptz => 1184,
            PgType::Interval => 1186,
            PgType::Timetz => 1266,
            PgType::Numeric => 1700,
            PgType::Uuid => 2950,
            PgType::Jsonb => 3802,
            PgType::BoolArray => 1000,
            PgType::ByteaArray => 1001,
            PgType::Int2Array => 1005,
            PgType::Int4Array => 1007,
            PgType::TextArray => 1009,
            PgType::BpcharArray => 1014,
            PgType::VarcharArray => 1015,
            PgType::Int8Array => 1016,
            PgType::Float4Array => 1021,
            PgType::Float8Array => 1022,
            PgType::InetArray => 1041,
            PgType::TimestampArray => 1115,
            PgType::DateArray => 1182,
            PgType::TimeArray => 1183,
            PgType::TimestamptzArray => 1185,
            PgType::IntervalArray => 1187,
            PgType::NumericArray => 1231,
            PgType::TimetzArray => 1270,
            PgType::UuidArray => 2951,
            PgType::JsonbArray => 3807,
        }
    }

    /// Whether this is an array type.
    pub open spec fn is_array(self) -> bool {
        match self {
            PgType::BoolArray | PgType::ByteaArray | PgType::Int2Array | PgType::Int4Array
            | PgType::TextArray | PgType::BpcharArray | PgType::VarcharArray | PgType::Int8Array
            | PgType::Float4Array | PgType::Float8Array | PgType::InetArray
            | PgType::TimestampArray | PgType::DateArray | PgType::TimeArray
            | PgType::TimestamptzArray | PgType::IntervalArray | PgType::NumericArray
            | PgType::TimetzArray | PgType::UuidArray | PgType::JsonbArray => true,
            _ => false,
        }
    }
}

/// The name that PostgreSQL gives to the type with an object identifier.
pub uninterp spec fn pg_type_name(oid: u32) -> Seq<char>;

/// The catalog name of a type: `Type::from_oid` and `Type::name` of
/// `postgres-types`. The contract names the result, which depends on the
/// object identifier alone; every identifier that `PgType` yields is known
/// there.
#[verifier::external_body]
pub(crate) fn catalog_name(pg_type: &PgType) -> (name: String)
    ensures
        name@ == pg_type_name(pg_type.spec_oid()),
{
    pgwire::api::Type::from_oid(pg_type.oid()).unwrap().name().to_owned()
}

/// The wire format of a result column.
#[derive(Clone, Copy, Debug, PartialEq, Eq, Structural)]
pub enum FieldFormat {
    Text,
    Binary,
}

impl FieldFormat {
    /// The protocol's code for the format.
    pub fn code(&self) -> (r: i16)
        ensures
            r == (if *self is Binary { 1i16 } else { 0i16 }),
    {
        match self {
            FieldFormat::Text => 0,
            FieldFormat::Binary => 1,
        }
    }

    /// The format that a protocol code stands for; every code but 1 is text.
    pub open spec fn of_code(code: i16) -> FieldFormat {
        if code == 1 {
            FieldFormat::Binary
        } else {
            FieldFormat::Text
        }
    }

    /// The format that a protocol code stands for.
    pub fn from_code(code: i16) -> (r: FieldFormat)
        ensures
            r == FieldFormat::of_code(code),
    {
        if code == 1 {
            FieldFormat::Binary
        } else {
            FieldFormat::Text
        }
    }
}

/// One column of a row description.
#[derive(Clone, Debug)]
pub struct FieldInfo {
    pub name: String,
    pub datatype: PgType,
    pub format: FieldFormat,
}

/// What a column description says, with its name as characters.
pub struct FieldView {
    pub name: Seq<char>,
    pub datatype: PgType,
    pub format: FieldFormat,
}

impl View for FieldInfo {
    type V = FieldView;

    open spec fn view(&self) -> FieldView {
        FieldView { name: self.name@, datatype: self.datatype, format: self.format }
    }
}

/// A list of columns, each by its view.
pub open spec fn field_views(fields: Seq<FieldInfo>) -> Seq<FieldView> {
    Seq::new(fields.len(), |i: int| fields[i]@)
}

impl FieldInfo {
    /// A column with the given name, type and format.
    pub fn new(name: &str, datatype: PgType, format: FieldFormat) -> (r: FieldInfo)
        ensures
            r@ == (FieldView { name: name@, datatype, format }),
    {
        FieldInfo { name: name.to_owned(), datatype, format }
    }

    /// The column's name.
    pub fn name(&self) -> (r: &str)
        ensures
            r@ == self@.name,
    {
        self.name.as_str()
    }

    /// The column's type.
    pub fn datatype(&self) -> (r: &PgType)
        ensures
            *r == self@.datatype,
    {
        &self.datatype
    }

    /// The column's wire format.
    pub fn format(&self) -> (r: FieldFormat)
        ensures
            r == self@.format,
    {
        self.format
    }
}

/// The fields of an error report to the client.
#[derive(Clone, Debug)]
pub struct ErrorInfo {
    pub severity: String,
    pub code: String,
    pub message: String,
}

/// An error report, its texts as characters.
pub struct ErrorView {
    pub severity: Seq<char>,
    pub code: Seq<char>,
    pub message: Seq<char>,
}

impl View for ErrorInfo {
    type V = ErrorView;

    open spec fn view(&self) -> ErrorView {
        ErrorView { severity: self.severity@, code: self.code@, message: self.message@ }
    }
}

impl ErrorInfo {
    /// An error report with the given fields.
    pub fn new(severity: &str, code: &str, message: String) -> (r: ErrorInfo)
        ensures
            r@ == (ErrorView { severity: severity@, code: code@, message: message@ }),
    {
        ErrorInfo { severity: severity.to_owned(), code: code.to_owned(), message }
    }
}

/// `n` as `width` bytes, most significant first; higher bits are dropped.
pub open spec fn big_endian(n: nat, width: nat) -> Seq<u8>
    decreases width,
{
    if width == 0 {
        Seq::empty()
    } else {
        big_endian(n / 256, (width - 1) as nat).push((n % 256) as u8)
    }
}

/// A signed number in two's complement as `width` bytes, most significant first.
pub open spec fn signed_big_endian(n: int, width: nat) -> Seq<u8> {
    big_endian(
        if n < 0 {
            (n + 0x1_0000_0000_0000_0000) as nat
        } else {
            n as nat
        },
        width,
    )
}

/// Appends `width` bytes of `n`, most significant first.
pub fn put_big_endian(out: &mut Vec<u8>, n: u64, width: usize)
    ensures
        final(out)@ == old(out)@ + big_endian(n as nat, width as nat),
    decreases width,
{
    if width == 0 {
        assert(out@ =~= old(out)@ + big_endian(n as nat, 0));
    } else {
        put_big_endian(out, n / 256, width - 1);
        out.push((n % 256) as u8);
        assert(out@ =~= old(out)@ + big_endian(n as nat, width as nat));
    }
}

/// Appends a signed number as `width` bytes, most significant first.
pub fn put_signed(out: &mut Vec<u8>, n: i64, width: usize)
    ensures
        final(out)@ == old(out)@ + signed_big_endian(n as int, width as nat),
{
    let unsigned: u64 = if n < 0 {
        (n as i128 + 0x1_0000_0000_0000_0000) as u64
    } else {
        n as u64
    };
    put_big_endian(out, unsigned, width)
}

/// The columns of one row, as they go on the wire: a length of -1 for NULL,
/// else the payload's length and the payload.
pub open spec fn row_bytes(fields: Seq<Option<Seq<u8>>>) -> Seq<u8>
    decreases fields.len(),
{
    if fields.len() == 0 {
        Seq::empty()
    } else {
        row_bytes(fields.drop_last()) + (match fields.last() {
            None => signed_big_endian(-1, 4),
            Some(payload) => big_endian(payload.len(), 4) + payload,
        })
    }
}

/// One encoded row.
#[derive(Clone, Debug)]
pub struct DataRow {
    pub data: Vec<u8>,
    pub field_count: i16,
}

/// One encoded row, its bytes as a sequence.
pub struct RowView {
    pub data: Seq<u8>,
    pub field_count: i16,
}

impl View for DataRow {
    type V = RowView;

    open spec fn view(&self) -> RowView {
        RowView { data: self.data@, field_count: self.field_count }
    }
}

/// The row that carries these field payloads.
pub open spec fn row_of(fields: Seq<Option<Seq<u8>>>) -> RowView {
    RowView { data: row_bytes(fields), field_count: fields.len() as i16 }
}

/// `pgwire`'s encoder for the rows of one result set.
#[verifier::external_type_specification]
#[verifier::external_body]
pub struct ExDataRowEncoder(pgwire::api::results::DataRowEncoder);

/// The columns that an encoder was made with.
pub uninterp spec fn encoder_columns(encoder: DataRowEncoder) -> Seq<FieldView>;

/// The payloads of the fields that an encoder holds for the current row.
pub uninterp spec fn encoder_fields(encoder: DataRowEncoder) -> Seq<Option<Seq<u8>>>;

/// A character that cannot stand in an array element without quotes: a double
/// quote, a brace, a comma, a backslash, or white space of ASCII.
pub open spec fn is_array_special(c: char) -> bool {
    c == '"' || c == '{' || c == '}' || c == ',' || c == '\\' || c == ' ' || 0x9 <= c as u32 <= 0xd
}

/// An array element that is quoted: one that is empty, that reads as NULL in any
/// letter case, or that has a special character.
pub open spec fn is_quoted_element(text: Seq<char>) -> bool {
    text.len() == 0 || text::same_ignoring_case(text, "null"@) || exists|i: int|
        0 <= i < text.len() && is_array_special(#[trigger] text[i])
}

/// A text with a backslash in front of each double quote and each backslash.
pub open spec fn escaped(text: Seq<char>) -> Seq<char>
    decreases text.len(),
{
    if text.len() == 0 {
        text
    } else if text.last() == '"' || text.last() == '\\' {
        escaped(text.drop_last()) + seq!['\\', text.last()]
    } else {
        escaped(text.drop_last()).push(text.last())
    }
}

/// A text as an element of an array in text form.
pub open spec fn array_element(text: Seq<char>) -> Seq<char> {
    if is_quoted_element(text) {
        seq!['"'] + escaped(text) + seq!['"']
    } else {
        text
    }
}

/// The payload of a text in a column: its UTF-8 bytes, but for array columns
/// in text format, where it is an array element.
pub open spec fn text_payload(column: FieldView, text: Seq<char>) -> Seq<u8> {
    if column.datatype.is_array() && column.format is Text {
        vstd::utf8::encode_utf8(array_element(text))
    } else {
        vstd::utf8::encode_utf8(text)
    }
}

/// Makes an encoder for rows with the given columns: `DataRowEncoder::new` of
/// `pgwire`, with one `FieldInfo::new` per column. A fresh encoder holds no
/// field.
#[verifier::external_body]
pub(crate) fn row_encoder(fields: &Vec<FieldInfo>) -> (encoder: DataRowEncoder)
    ensures
        encoder_columns(encoder) == field_views(fields@),
        encoder_fields(encoder) == Seq::<Option<Seq<u8>>>::empty(),
{
    let to_outside = |f: &FieldInfo| {
        let datatype = pgwire::api::Type::from_oid(f.datatype.oid()).unwrap();
        let format = pgwire::api::results::FieldFormat::from(f.format.code());
        pgwire::api::results::FieldInfo::new(f.name.clone(), None, None, datatype, format)
    };
    DataRowEncoder::new(Arc::new(fields.iter().map(to_outside).collect()))
}

/// Encodes SQL NULL: `DataRowEncoder::encode_field` of `pgwire` on an absent
/// text. It writes no payload, whatever the column's format, and does not
/// fail. It panics past the last column.
#[verifier::external_body]
pub(crate) fn encode_null(encoder: &mut DataRowEncoder)
    requires
        encoder_fields(*old(encoder)).len() < encoder_columns(*old(encoder)).len(),
    ensures
        encoder_columns(*final(encoder)) == encoder_columns(*old(encoder)),
        encoder_fields(*final(encoder)) == encoder_fields(*old(encoder)).push(None),
{
    encoder.encode_field(&None::<&str>).unwrap()
}

/// The column that an encoder fills next.
pub open spec fn next_column(encoder: DataRowEncoder) -> FieldView {
    encoder_columns(encoder)[encoder_fields(encoder).len() as int]
}

/// Encodes a text: `DataRowEncoder::encode_field` of `pgwire` on a `&str`. The
/// payload is the text's UTF-8 bytes in either format, except in an array
/// column in text format, where they are those of the text as an array element:
/// quoted where need be, with what would end the quotes escaped. Writing a text
/// does not fail. It panics past the last column.
#[verifier::external_body]
pub(crate) fn encode_text(encoder: &mut DataRowEncoder, text: &str)
    requires
        encoder_fields(*old(encoder)).len() < encoder_columns(*old(encoder)).len(),
    ensures
        encoder_columns(*final(encoder)) == encoder_columns(*old(encoder)),
        next_column(*old(encoder)).datatype.is_array() && next_column(*old(encoder)).format is Text
            ==> encoder_fields(*final(encoder)) == encoder_fields(*old(encoder)).push(
            Some(vstd::utf8::encode_utf8(array_element(text@))),
        ),
        !next_column(*old(encoder)).datatype.is_array() || next_column(
            *old(encoder),
        ).format is Binary ==> encoder_fields(*final(encoder)) == encoder_fields(
            *old(encoder),
        ).push(Some(vstd::utf8::encode_utf8(text@))),
{
    encoder.encode_field(&text).unwrap()
}

/// Encodes raw bytes into a binary column: `DataRowEncoder::encode_field` of
/// `pgwire` on a `&[u8]`, which writes the bytes as they are and does not
/// fail. It panics past the last column.
#[verifier::external_body]
pub(crate) fn encode_bytes(encoder: &mut DataRowEncoder, bytes: &[u8])
    requires
        encoder_fields(*old(encoder)).len() < encoder_columns(*old(encoder)).len(),
        next_column(*old(encoder)).format is Binary,
    ensures
        encoder_columns(*final(encoder)) == encoder_columns(*old(encoder)),
        encoder_fields(*final(encoder)) == encoder_fields(*old(encoder)).push(Some(bytes@)),
{
    encoder.encode_field(&bytes).unwrap()
}

/// Takes the row out of an encoder: `DataRowEncoder::take_row` of `pgwire`.
/// The row holds each field with its 4-byte length, the encoder is left empty.
#[verifier::external_body]
pub(crate) fn take_row(encoder: &mut DataRowEncoder) -> (row: DataRow)
    ensures
        row@ == row_of(encoder_fields(*old(encoder))),
        encoder_columns(*final(encoder)) == encoder_columns(*old(encoder)),
        encoder_fields(*final(encoder)) == Seq::<Option<Seq<u8>>>::empty(),
{
    let row = encoder.take_row();
    DataRow { data: row.data.to_vec(), field_count: row.field_count }
}

/// The number that bytes stand for, most significant first.
pub open spec fn unsigned_number(bytes: Seq<u8>) -> nat
    decreases bytes.len(),
{
    if bytes.len() == 0 {
        0
    } else {
        unsigned_number(bytes.drop_last()) * 256 + bytes.last() as nat
    }
}

/// How many numbers a width in bytes has room for.
pub open spec fn room(width: nat) -> nat
    decreases width,
{
    if width == 0 {
        1
    } else {
        256 * room((width - 1) as nat)
    }
}

/// The number that bytes stand for in two's complement, most significant first.
pub open spec fn signed_number(bytes: Seq<u8>) -> int {
    let n = unsigned_number(bytes);
    if 2 * n >= room(bytes.len()) {
        n - room(bytes.len())
    } else {
        n as int
    }
}

/// What is left of a number in some bytes is its remainder.
proof fn bytes_keep_remainder(n: nat, width: nat)
    ensures
        big_endian(n, width).len() == width,
        unsigned_number(big_endian(n, width)) == n % room(width),
        room(width) > 0,
    decreases width,
{
    if width > 0 {
        let w = (width - 1) as nat;
        bytes_keep_remainder(n / 256, w);
        assert(big_endian(n, width).drop_last() =~= big_endian(n / 256, w));
        vstd::arithmetic::div_mod::lemma_mod_breakdown(n as int, 256, room(w) as int);
    }
}

/// A number that has room in some bytes reads back as itself.
pub proof fn numbers_read_back(n: nat, width: nat)
    requires
        n < room(width),
    ensures
        big_endian(n, width).len() == width,
        unsigned_number(big_endian(n, width)) == n,
{
    bytes_keep_remainder(n, width);
    vstd::arithmetic::div_mod::lemma_small_mod(n, room(width));
}

/// The room of the widths that integers go out in.
pub(crate) proof fn integer_rooms()
    ensures
        room(2) == 0x1_0000,
        room(4) == 0x1_0000_0000,
        room(8) == 0x1_0000_0000_0000_0000,
{
    reveal_with_fuel(room, 9);
}

/// A signed number goes out in two's complement: in 2, 4 or 8 bytes that have room
/// for it, it reads back as itself.
pub proof fn signed_numbers_read_back(n: int, width: nat)
    requires
        width == 2 || width == 4 || width == 8,
        -(room(width) as int) <= 2 * n < room(width),
    ensures
        signed_big_endian(n, width).len() == width,
        signed_number(signed_big_endian(n, width)) == n,
{
    integer_rooms();
    let m: nat = if n < 0 {
        (n + 0x1_0000_0000_0000_0000) as nat
    } else {
        n as nat
    };
    bytes_keep_remainder(m, width);
    if n < 0 {
        assert(m % room(width) == n + room(width)) by {
            if width == 2 {
                assert((n + 0x1_0000_0000_0000_0000) % 0x1_0000 == n + 0x1_0000);
            } else if width == 4 {
                assert((n + 0x1_0000_0000_0000_0000) % 0x1_0000_0000 == n + 0x1_0000_0000);
            } else {
                vstd::arithmetic::div_mod::lemma_small_mod(m, room(width));
            }
        }
    } else {
        vstd::arithmetic::div_mod::lemma_small_mod(m, room(width));
    }
}

/// One field of a row as it goes on the wire.
spec fn field_bytes(field: Option<Seq<u8>>) -> Seq<u8> {
    match field {
        None => signed_big_endian(-1, 4),
        Some(payload) => big_endian(payload.len(), 4) + payload,
    }
}

/// The bytes of a row begin with those of its first field.
proof fn first_field_comes_first(fields: Seq<Option<Seq<u8>>>)
    requires
        fields.len() > 0,
    ensures
        row_bytes(fields) == field_bytes(fields[0]) + row_bytes(fields.skip(1)),
    decreases fields.len(),
{
    if fields.len() == 1 {
        assert(fields.drop_last() =~= Seq::<Option<Seq<u8>>>::empty());
        assert(fields.skip(1) =~= Seq::<Option<Seq<u8>>>::empty());
        assert(row_bytes(fields) =~= field_bytes(fields[0]) + row_bytes(fields.skip(1)));
    } else {
        first_field_comes_first(fields.drop_last());
        assert(fields.drop_last().skip(1) =~= fields.skip(1).drop_last());
        assert(fields.skip(1).last() == fields.last());
        assert(row_bytes(fields) =~= field_bytes(fields[0]) + row_bytes(fields.skip(1)));
    }
}

/// The fields that a client reads from the bytes of a row: each is a length in four
/// bytes and as many bytes of payload, or the length -1 for NULL.
pub open spec fn fields_read(bytes: Seq<u8>, count: nat) -> Seq<Option<Seq<u8>>>
    decreases count,
{
    if count == 0 {
        Seq::empty()
    } else {
        let n = signed_number(bytes.take(4));
        if n < 0 {
            seq![None] + fields_read(bytes.skip(4), (count - 1) as nat)
        } else {
            seq![Some(bytes.subrange(4, 4 + n))] + fields_read(bytes.skip(4 + n), (count - 1) as nat)
        }
    }
}

/// A client reads from a row the fields that were written into it.
pub proof fn rows_read_back(fields: Seq<Option<Seq<u8>>>)
    requires
        forall|i: int|
            0 <= i < fields.len() ==> (#[trigger] fields[i] matches Some(payload) ==> payload.len()
                <= i32::MAX),
    ensures
        fields_read(row_bytes(fields), fields.len()) == fields,
    decreases fields.len(),
{
    if fields.len() > 0 {
        first_field_comes_first(fields);
        integer_rooms();
        let bytes = row_bytes(fields);
        let rest = fields.skip(1);
        assert forall|i: int| 0 <= i < rest.len() implies (#[trigger] rest[i] matches Some(payload)
            ==> payload.len() <= i32::MAX) by {
            assert(rest[i] == fields[i + 1]);
        }
        rows_read_back(rest);
        match fields[0] {
            None => {
                signed_numbers_read_back(-1, 4);
                assert(bytes.take(4) =~= signed_big_endian(-1, 4));
                assert(bytes.skip(4) =~= row_bytes(rest));
            },
            Some(payload) => {
                let n = payload.len() as int;
                signed_numbers_read_back(n, 4);
                assert(signed_big_endian(n, 4) == big_endian(payload.len(), 4));
                assert(bytes.take(4) =~= signed_big_endian(n, 4));
                assert(bytes.subrange(4, 4 + n) =~= payload);
                assert(bytes.skip(4 + n) =~= row_bytes(rest));
            },
        }
        assert(fields =~= seq![fields[0]] + rest);
    }
}

/// No two types have the same object identifier.
pub proof fn identifiers_are_distinct(a: PgType, b: PgType)
    requires
        a.spec_oid() == b.spec_oid(),
    ensures
        a == b,
{
}

/// An array element reads back as the text that it was written for: without its
/// quotes where it has them, and without the backslash in front of a character.
pub open spec fn element_read(element: Seq<char>) -> Seq<char> {
    if element.len() >= 2 && element[0] == '"' {
        unescaped(element.subrange(1, element.len() - 1))
    } else {
        element
    }
}

/// A text without the backslash in front of each character that has one.
pub open spec fn unescaped(s: Seq<char>) -> Seq<char>
    decreases s.len(),
{
    if s.len() == 0 {
        s
    } else if s[0] == '\\' && s.len() >= 2 {
        seq![s[1]] + unescaped(s.skip(2))
    } else {
        seq![s[0]] + unescaped(s.skip(1))
    }
}

/// Escaping goes character by character from the front too.
proof fn escaped_from_front(text: Seq<char>)
    requires
        text.len() > 0,
    ensures
        escaped(text) == (if text[0] == '"' || text[0] == '\\' {
            seq!['\\', text[0]]
        } else {
            seq![text[0]]
        }) + escaped(text.skip(1)),
    decreases text.len(),
{
    if text.len() == 1 {
        assert(text.drop_last() =~= Seq::<char>::empty());
        assert(text.skip(1) =~= Seq::<char>::empty());
        assert(escaped(text) =~= (if text[0] == '"' || text[0] == '\\' {
            seq!['\\', text[0]]
        } else {
            seq![text[0]]
        }) + escaped(text.skip(1)));
    } else {
        escaped_from_front(text.drop_last());
        assert(text.drop_last().skip(1) =~= text.skip(1).drop_last());
        assert(text.skip(1).last() == text.last());
        assert(escaped(text) =~= (if text[0] == '"' || text[0] == '\\' {
            seq!['\\', text[0]]
        } else {
            seq![text[0]]
        }) + escaped(text.skip(1)));
    }
}

/// What is escaped reads back.
proof fn escapes_read_back(text: Seq<char>)
    ensures
        unescaped(escaped(text)) == text,
    decreases text.len(),
{
    if text.len() > 0 {
        escaped_from_front(text);
        let rest = text.skip(1);
        escapes_read_back(rest);
        let all = escaped(text);
        if text[0] == '"' || text[0] == '\\' {
            assert(all.skip(2) =~= escaped(rest));
        } else {
            assert(all.skip(1) =~= escaped(rest));
        }
        assert(text =~= seq![text[0]] + rest);
    }
}

/// An array element reads back as the text that it was written for, and has no
/// special character outside quotes.
pub proof fn elements_read_back(text: Seq<char>)
    ensures
        element_read(array_element(text)) == text,
        array_element(text).len() > 0,
        array_element(text)[0] != '"' ==> forall|i: int|
            0 <= i < text.len() ==> !is_array_special(#[trigger] array_element(text)[i]),
{
    if is_quoted_element(text) {
        escapes_read_back(text);
        let element = array_element(text);
        assert(element.subrange(1, element.len() - 1) =~= escaped(text));
    } else {
        assert(!is_array_special(text[0]));
    }
}

/// A text that a reader of an array takes for itself without quotes: it is not empty,
/// not NULL, and has no quote, brace, comma, backslash or white space.
pub open spec fn is_plain_element(text: Seq<char>) -> bool {
    &&& text.len() > 0
    &&& !text::same_ignoring_case(text, seq!['n', 'u', 'l', 'l'])
    &&& forall|i: int|
        0 <= i < text.len() ==> #[trigger] text[i] != '"' && text[i] != '{' && text[i] != '}'
            && text[i] != ',' && text[i] != '\\' && text[i] != ' ' && !('\t' <= text[i] <= '\r')
}

/// An element that reads as itself is written without quotes, and every other one with
/// them.
#[verifier::rlimit(50)]
pub proof fn bare_elements_are_plain(text: Seq<char>)
    ensures
        is_plain_element(text) ==> array_element(text) == text,
        !is_plain_element(text) ==> array_element(text).len() >= 2 && array_element(text)[0] == '"'
            && array_element(text).last() == '"',
{
    reveal_strlit("null");
    assert("null"@ =~= seq!['n', 'u', 'l', 'l']);
    if is_plain_element(text) {
        assert forall|i: int| 0 <= i < text.len() implies !is_array_special(#[trigger] text[i]) by {
            special_characters(text[i]);
        }
        assert(!is_quoted_element(text));
    } else {
        assert(is_quoted_element(text)) by {
            if text.len() > 0 && !text::same_ignoring_case(text, seq!['n', 'u', 'l', 'l']) {
                let i = choose|i: int|
                    0 <= i < text.len() && !(#[trigger] text[i] != '"' && text[i] != '{' && text[i]
                        != '}' && text[i] != ',' && text[i] != '\\' && text[i] != ' ' && !('\t'
                        <= text[i] <= '\r'));
                special_characters(text[i]);
                assert(is_array_special(text[i]));
            }
        }
    }
}

/// The characters that an element with them is quoted for.
proof fn special_characters(c: char)
    ensures
        is_array_special(c) == (c == '"' || c == '{' || c == '}' || c == ',' || c == '\\' || c == ' '
            || '\t' <= c <= '\r'),
{
}

/// Texts go out as their UTF-8 bytes; only in an array column in text format they are
/// elements.
pub proof fn payloads_are_texts(column: FieldView, text: Seq<char>)
    ensures
        column.datatype.is_array() && column.format is Text ==> text_payload(column, text)
            == vstd::utf8::encode_utf8(array_element(text)),
        !(column.datatype.is_array() && column.format is Text) ==> text_payload(column, text)
            == vstd::utf8::encode_utf8(text),
{
}

} // verus!
