//! Mapping Trino types and values to PostgreSQL's, in text and binary.
use bytes::BytesMut;
use pgwire::api::results::DataRowEncoder;
use postgres_types::ToSql;
use vstd::prelude::*;

use crate::datetime;
use crate::datetime::{
    TimeTz, parse_naive_datetime, parse_trino_date, parse_trino_time, parse_trino_timestamptz,
    parse_trino_timetz, render_timestamptz_text, to_days_since_2000, to_micros_of_day,
    to_micros_since_2000,
};
use crate::float;
use crate::float::{f64_to_i64_exact, Float};
use crate::json::{Json, JsonText, Number};
use crate::text;
use crate::text::{
    append_chars, begins_with, chars_of, decimal_text, ends_with, find_chars, parse_i64, rfind_char,
    same, signed_text, slice_chars, string_of, to_lowercase, trim, trim_chars,
};
use crate::wire;
use crate::wire::{ErrorInfo, ErrorView, FieldFormat, FieldView, PgType};

verus! {

/// A type name without its parenthesised parameters, wherever they sit.
pub open spec fn without_params(n: Seq<char>) -> Seq<char> {
    match (text::find(n, seq!['(']), text::rfind(n, ')')) {
        (Some(open), Some(close)) => if close > open {
            text::trimmed(n.take(open) + n.skip(close + 1))
        } else {
            text::trimmed(n)
        },
        _ => text::trimmed(n),
    }
}

/// Removes a type's parenthesised parameters, wherever they sit in the name.
///
/// Trino spells the precision inside the type name (`timestamp(6) with time
/// zone`), so cutting at the first `(` would lose the suffix. Removing the
/// span from the first `(` to the last `)` keeps the full name and collapses
/// nested parameters in one pass.
pub fn strip_type_params(normalized: &str) -> (r: String)
    ensures
        r@ == without_params(normalized@),
{
    let v = chars_of(normalized);
    let n: usize = v.len();
    proof {
        reveal_strlit("(");
        assert("("@ =~= seq!['(']);
    }
    if let (Some(open), Some(close)) = (find_chars(v.as_slice(), "("), rfind_char(v.as_slice(), ')')) {
        if close > open {
            let mut base = slice_chars(v.as_slice(), 0, open);
            append_chars(&mut base, slice_chars(v.as_slice(), close + 1, n).as_slice());
            assert(base@ =~= normalized@.take(open as int) + normalized@.skip(close + 1));
            return string_of(trim_chars(base.as_slice()).as_slice());
        }
    }
    trim(normalized)
}

/// The PostgreSQL type for a Trino type name without parameters.
pub open spec fn scalar_type(name: Seq<char>) -> PgType {
    if name == "boolean"@ {
        PgType::Bool
    } else if name == "tinyint"@ || name == "smallint"@ {
        PgType::Int2
    } else if name == "integer"@ {
        PgType::Int4
    } else if name == "bigint"@ {
        PgType::Int8
    } else if name == "real"@ {
        PgType::Float4
    } else if name == "double"@ {
        PgType::Float8
    } else if name == "decimal"@ {
        PgType::Numeric
    } else if name == "varchar"@ {
        PgType::Varchar
    } else if name == "char"@ {
        PgType::Bpchar
    } else if name == "varbinary"@ {
        PgType::Bytea
    } else if name == "date"@ {
        PgType::Date
    } else if name == "time"@ {
        PgType::Time
    } else if name == "time with time zone"@ {
        PgType::Timetz
    } else if name == "timestamp"@ {
        PgType::Timestamp
    } else if name == "timestamp with time zone"@ {
        PgType::Timestamptz
    } else if name == "interval"@ || name == "interval year to month"@ || name
        == "interval day to second"@ {
        PgType::Interval
    } else if name == "json"@ {
        PgType::Jsonb
    } else if name == "uuid"@ {
        PgType::Uuid
    } else if name == "ipaddress"@ {
        PgType::Inet
    } else if name == "map"@ || name == "row"@ {
        PgType::Jsonb
    } else {
        PgType::Text
    }
}

/// The PostgreSQL type for a Trino type name without parameters.
fn scalar_type_of(name: &str) -> (r: PgType)
    ensures
        r == scalar_type(name@),
{
    if same(name, "boolean") {
        PgType::Bool
    } else if same(name, "tinyint") || same(name, "smallint") {
        PgType::Int2
    } else if same(name, "integer") {
        PgType::Int4
    } else if same(name, "bigint") {
        PgType::Int8
    } else if same(name, "real") {
        PgType::Float4
    } else if same(name, "double") {
        PgType::Float8
    } else if same(name, "decimal") {
        PgType::Numeric
    } else if same(name, "varchar") {
        PgType::Varchar
    } else if same(name, "char") {
        PgType::Bpchar
    } else if same(name, "varbinary") {
        PgType::Bytea
    } else if same(name, "date") {
        PgType::Date
    } else if same(name, "time") {
        PgType::Time
    } else if same(name, "time with time zone") {
        PgType::Timetz
    } else if same(name, "timestamp") {
        PgType::Timestamp
    } else if same(name, "timestamp with time zone") {
        PgType::Timestamptz
    } else if same(name, "interval") || same(name, "interval year to month") || same(
        name,
        "interval day to second",
    ) {
        PgType::Interval
    } else if same(name, "json") {
        PgType::Jsonb
    } else if same(name, "uuid") {
        PgType::Uuid
    } else if same(name, "ipaddress") {
        PgType::Inet
    } else if same(name, "map") || same(name, "row") {
        PgType::Jsonb
    } else {
        PgType::Text
    }
}

/// The array type over an element type; `text[]` where there is none.
pub open spec fn array_type(scalar: PgType) -> PgType {
    match scalar {
        PgType::Bool => PgType::BoolArray,
        PgType::Int2 => PgType::Int2Array,
        PgType::Int4 => PgType::Int4Array,
        PgType::Int8 => PgType::Int8Array,
        PgType::Float4 => PgType::Float4Array,
        PgType::Float8 => PgType::Float8Array,
        PgType::Numeric => PgType::NumericArray,
        PgType::Varchar => PgType::VarcharArray,
        PgType::Bpchar => PgType::BpcharArray,
        PgType::Bytea => PgType::ByteaArray,
        PgType::Date => PgType::DateArray,
        PgType::Time => PgType::TimeArray,
        PgType::Timetz => PgType::TimetzArray,
        PgType::Timestamp => PgType::TimestampArray,
        PgType::Timestamptz => PgType::TimestamptzArray,
        PgType::Interval => PgType::IntervalArray,
        PgType::Jsonb => PgType::JsonbArray,
        PgType::Uuid => PgType::UuidArray,
        PgType::Inet => PgType::InetArray,
        _ => PgType::TextArray,
    }
}

/// The array type over an element type.
pub fn scalar_to_array(scalar: &PgType) -> (r: PgType)
    ensures
        r == array_type(*scalar),
{
    match *scalar {
        PgType::Bool => PgType::BoolArray,
        PgType::Int2 => PgType::Int2Array,
        PgType::Int4 => PgType::Int4Array,
        PgType::Int8 => PgType::Int8Array,
        PgType::Float4 => PgType::Float4Array,
        PgType::Float8 => PgType::Float8Array,
        PgType::Numeric => PgType::NumericArray,
        PgType::Varchar => PgType::VarcharArray,
        PgType::Bpchar => PgType::BpcharArray,
        PgType::Bytea => PgType::ByteaArray,
        PgType::Date => PgType::DateArray,
        PgType::Time => PgType::TimeArray,
        PgType::Timetz => PgType::TimetzArray,
        PgType::Timestamp => PgType::TimestampArray,
        PgType::Timestamptz => PgType::TimestamptzArray,
        PgType::Interval => PgType::IntervalArray,
        PgType::Jsonb => PgType::JsonbArray,
        PgType::Uuid => PgType::UuidArray,
        PgType::Inet => PgType::InetArray,
        _ => PgType::TextArray,
    }
}

/// The element type inside `array(...)`.
pub open spec fn array_element(n: Seq<char>) -> Option<Seq<char>> {
    if "array("@.is_prefix_of(n) && ")"@.is_suffix_of(n) && n.len() >= 7 {
        Some(n.subrange(6, n.len() - 1))
    } else {
        None
    }
}

/// The PostgreSQL type for a Trino type name in lower case.
pub open spec fn normalized_type(n: Seq<char>) -> PgType
    decreases n.len(),
    via normalized_type_terminates
{
    match array_element(n) {
        Some(inner) => array_type(normalized_type(text::trimmed(inner))),
        None => scalar_type(without_params(n)),
    }
}

#[via_fn]
proof fn normalized_type_terminates(n: Seq<char>) {
    if let Some(inner) = array_element(n) {
        text::trimmed_is_shorter(inner);
    }
}

/// The PostgreSQL type for a Trino type name.
pub open spec fn pg_type_of(trino_type: Seq<char>) -> PgType {
    normalized_type(text::lower(text::trimmed(trino_type)))
}

/// The PostgreSQL type for a Trino type name in lower case.
fn normalized_to_pg(normalized: &str) -> (r: PgType)
    ensures
        r == normalized_type(normalized@),
    decreases normalized@.len(),
{
    let v = chars_of(normalized);
    proof {
        reveal_strlit("array(");
        reveal_strlit(")");
    }
    if begins_with(v.as_slice(), "array(") && ends_with(v.as_slice(), ")") {
        proof {
            let n = normalized@.len() as int;
            assert(normalized@.take(6)[5] == "array("@[5]);
            assert(normalized@.subrange(n - 1, n)[0] == ")"@[0]);
        }
        let inner = slice_chars(v.as_slice(), 6, v.len() - 1);
        proof {
            text::trimmed_is_shorter(inner@);
        }
        let inner = string_of(trim_chars(inner.as_slice()).as_slice());
        return scalar_to_array(&normalized_to_pg(inner.as_str()));
    }
    let base = strip_type_params(normalized);
    scalar_type_of(base.as_str())
}

/// The PostgreSQL type for a Trino type name.
///
/// Parametric types (`varchar(100)`, `decimal(10,2)`) go by their base name.
pub fn trino_type_to_pg(trino_type: &str) -> (r: PgType)
    ensures
        r == pg_type_of(trino_type@),
{
    let normalized = to_lowercase(trim(trino_type).as_str());
    normalized_to_pg(normalized.as_str())
}

/// The base name of a Trino type: what stands before its first `(`.
pub open spec fn base_name(trino_type: Seq<char>) -> Seq<char> {
    let t = text::trimmed(trino_type);
    match text::find(t, seq!['(']) {
        Some(idx) => text::trimmed(t.take(idx)),
        None => t,
    }
}

/// Extracts the base Trino type name, such as `varchar` of `varchar(25)`.
pub fn base_type(trino_type: &str) -> (r: String)
    ensures
        r@ == base_name(trino_type@),
{
    let t = trim_chars(chars_of(trino_type).as_slice());
    proof {
        reveal_strlit("(");
        assert("("@ =~= seq!['(']);
    }
    match find_chars(t.as_slice(), "(") {
        Some(idx) => {
            let head = slice_chars(t.as_slice(), 0, idx);
            assert(head@ =~= t@.take(idx as int));
            string_of(trim_chars(head.as_slice()).as_slice())
        },
        None => string_of(t.as_slice()),
    }
}

/// The text of a double-precision number, with PostgreSQL's names for the
/// values that are not finite.
pub open spec fn float_text(f: Float) -> Seq<char> {
    if float::is_nan(f.bits) {
        "NaN"@
    } else if !float::is_finite(f.bits) {
        if float::is_negative(f.bits) {
            "-Infinity"@
        } else {
            "Infinity"@
        }
    } else {
        f.text@
    }
}

/// PostgreSQL's canonical text form of a double-precision number.
pub fn format_float_text(f: &Float) -> (r: String)
    ensures
        r@ == float_text(*f),
{
    if float::nan(f.bits) {
        "NaN".to_owned()
    } else if !float::finite(f.bits) {
        if float::negative(f.bits) {
            "-Infinity".to_owned()
        } else {
            "Infinity".to_owned()
        }
    } else {
        f.text.clone()
    }
}

/// A type name that stands for an integer type.
pub open spec fn is_integer_name(base: Seq<char>) -> bool {
    base == "tinyint"@ || base == "smallint"@ || base == "integer"@ || base == "bigint"@
}

/// The text of a JSON number for an integer column.
pub open spec fn integer_text(n: Number) -> Seq<char> {
    if let Some(i) = n.as_i64 {
        text::signed_decimal(i as int)
    } else if let Some(u) = n.as_u64 {
        text::decimal(u as nat)
    } else if let Some(f) = n.as_f64 {
        if !float::is_finite(f.bits) {
            n.text@
        } else if float::fits_i64(f.bits) {
            text::signed_decimal(float::truncated(f.bits))
        } else {
            f.text@
        }
    } else {
        n.text@
    }
}

/// The text of a JSON number in a column whose base type, in lower case, is
/// `base`.
pub open spec fn number_text(n: Number, base: Seq<char>) -> Seq<char> {
    if is_integer_name(base) {
        integer_text(n)
    } else if base == "real"@ || base == "double"@ {
        match n.as_f64 {
            Some(f) => float_text(f),
            None => n.text@,
        }
    } else {
        n.text@
    }
}

/// Renders a JSON number as PostgreSQL text, by the declared type.
///
/// For integer types the text is that of an integer, however the JSON value
/// was written: Trino may serialise a whole number as `42` or `42.0`. A number
/// that no 64-bit integer holds keeps its own text, for the client to reject,
/// rather than be cut to the nearest bound.
pub fn encode_number(n: &Number, base: &str) -> (r: String)
    ensures
        r@ == number_text(*n, text::lower(base@)),
        text::lower(base@) == "tinyint"@ || text::lower(base@) == "smallint"@ || text::lower(base@)
            == "integer"@ || text::lower(base@) == "bigint"@ ==> (n.as_i64 matches Some(i)
            ==> text::i64_value(r@) == Some(i)),
{
    proof {
        if let Some(i) = n.as_i64 {
            text::integers_read_back(i as int);
        }
    }
    let base = to_lowercase(base);
    let b = base.as_str();
    if same(b, "tinyint") || same(b, "smallint") || same(b, "integer") || same(b, "bigint") {
        if let Some(i) = n.as_i64 {
            return signed_text(i);
        }
        if let Some(u) = n.as_u64 {
            return decimal_text(u);
        }
        if let Some(f) = &n.as_f64 {
            if float::finite(f.bits) {
                if let Some(i) = float::to_i64_in_range(f.bits) {
                    return signed_text(i);
                }
                return f.text.clone();
            }
        }
        return n.text.clone();
    }
    if same(b, "real") || same(b, "double") {
        if let Some(f) = &n.as_f64 {
            return format_float_text(f);
        }
    }
    n.text.clone()
}

/// The text of a JSON value in a column of a Trino type; nothing for NULL.
pub open spec fn value_text(value: Json, trino_type: Seq<char>) -> Option<Seq<char>> {
    match value {
        Json::Null => None,
        Json::Bool(b) => Some(
            if b {
                "true"@
            } else {
                "false"@
            },
        ),
        Json::Number(n) => Some(number_text(n, text::lower(base_name(trino_type)))),
        Json::Str(s) => Some(s.text@),
        Json::Composite(t) => Some(t@),
    }
}

/// Converts a JSON value to PostgreSQL text; nothing stands for SQL NULL.
///
/// Numbers are rendered by the declared type, because the JSON text of a
/// number may be `42.0` where the column is a `bigint`.
pub fn encode_value(value: &Json, trino_type: &str) -> (r: Option<String>)
    ensures
        text::text_view(r) == value_text(*value, trino_type@),
{
    match value {
        Json::Null => None,
        Json::Bool(b) => Some(
            if *b {
                "true".to_owned()
            } else {
                "false".to_owned()
            },
        ),
        Json::Number(n) => Some(encode_number(n, base_type(trino_type).as_str())),
        Json::Str(s) => Some(s.text.clone()),
        Json::Composite(t) => Some(t.clone()),
    }
}

/// The text of a value for a column in text format. Trino's rendering matches
/// PostgreSQL's for every type except the two with a time zone; a value of
/// these that cannot be read keeps its own text.
pub open spec fn cell_text(value: Json, pg_type: PgType, trino_type: Seq<char>) -> Option<
    Seq<char>,
> {
    let instant = match value.string_chars() {
        Some(s) => datetime::timestamptz(s),
        None => None,
    };
    let clock = match value.string_chars() {
        Some(s) => datetime::timetz(s),
        None => None,
    };
    if pg_type is Timestamptz && instant is Some {
        Some(datetime::timestamptz_text(instant->0))
    } else if pg_type is Timetz && clock is Some {
        Some(datetime::timetz_text(clock->0))
    } else {
        value_text(value, trino_type)
    }
}

/// Renders a value for the text wire format.
///
/// A value with a time zone that cannot be read passes through unchanged: a
/// text cannot be misread the way binary can.
pub fn text_value(value: &Json, pg_type: &PgType, trino_type: &str) -> (r: Option<String>)
    ensures
        text::text_view(r) == cell_text(*value, *pg_type, trino_type@),
{
    if *pg_type == PgType::Timestamptz {
        if let Some(s) = value.as_str() {
            if let Some(dt) = parse_trino_timestamptz(s) {
                return Some(render_timestamptz_text(dt));
            }
        }
    }
    if *pg_type == PgType::Timetz {
        if let Some(s) = value.as_str() {
            if let Some(t) = parse_trino_timetz(s) {
                return Some(t.to_pg_text());
            }
        }
    }
    encode_value(value, trino_type)
}

/// The report that a value has no binary form. The value itself is left out:
/// it may carry sensitive data.
pub open spec fn conversion_error_view(target: Seq<char>, trino_type: Seq<char>) -> ErrorView {
    ErrorView {
        severity: "ERROR"@,
        code: "22P03"@,
        message: "gateway could not encode a Trino "@ + trino_type + " value as binary "@ + target,
    }
}

/// A value that Trino returned has no binary form of the target type.
pub fn conversion_error(target: &str, trino_type: &str) -> (r: ErrorInfo)
    ensures
        r@ == conversion_error_view(target@, trino_type@),
{
    let mut m = "gateway could not encode a Trino ".to_owned();
    m.append(trino_type);
    m.append(" value as binary ");
    m.append(target);
    ErrorInfo::new("ERROR", "22P03", m)
}

/// The report that an integer does not fit a narrower type.
pub open spec fn out_of_range_view(value: int, target: Seq<char>) -> ErrorView {
    ErrorView {
        severity: "ERROR"@,
        code: "22003"@,
        message: "value "@ + text::signed_decimal(value) + " out of range for binary "@ + target,
    }
}

/// An integer does not fit the narrower PostgreSQL integer type.
pub fn out_of_range(value: i64, target: &str) -> (r: ErrorInfo)
    ensures
        r@ == out_of_range_view(value as int, target@),
{
    let mut m = "value ".to_owned();
    m.append(signed_text(value).as_str());
    m.append(" out of range for binary ");
    m.append(target);
    ErrorInfo::new("ERROR", "22003", m)
}

/// The report that a column's type has no binary form here.
pub open spec fn unsupported_view(pg_type: PgType, trino_type: Seq<char>) -> ErrorView {
    ErrorView {
        severity: "ERROR"@,
        code: "0A000"@,
        message: "binary wire format for column type "@ + wire::pg_type_name(pg_type.spec_oid())
            + " (Trino "@ + trino_type
            + ") is not supported by the gateway; the client requested binary results for this column"@,
    }
}

/// The client asked for binary results in a column whose type the gateway
/// cannot encode in binary.
pub fn unsupported_binary_type(pg_type: &PgType, trino_type: &str) -> (r: ErrorInfo)
    ensures
        r@ == unsupported_view(*pg_type, trino_type@),
{
    let mut m = "binary wire format for column type ".to_owned();
    m.append(wire::catalog_name(pg_type).as_str());
    m.append(" (Trino ");
    m.append(trino_type);
    m.append(
        ") is not supported by the gateway; the client requested binary results for this column",
    );
    ErrorInfo::new("ERROR", "0A000", m)
}

/// The truth value that a JSON value stands for.
pub open spec fn bool_of(value: Json) -> Option<bool> {
    match value {
        Json::Bool(b) => Some(b),
        Json::Str(s) => if s.text@ == "true"@ {
            Some(true)
        } else if s.text@ == "false"@ {
            Some(false)
        } else {
            None
        },
        _ => None,
    }
}

/// Reads a boolean.
pub fn json_to_bool(value: &Json, trino_type: &str) -> (r: Result<bool, ErrorInfo>)
    ensures
        match r {
            Ok(b) => bool_of(*value) == Some(b),
            Err(e) => bool_of(*value) is None && e@ == conversion_error_view(
                "boolean"@,
                trino_type@,
            ),
        },
{
    match value {
        Json::Bool(b) => Ok(*b),
        Json::Str(s) => if same(s.text.as_str(), "true") {
            Ok(true)
        } else if same(s.text.as_str(), "false") {
            Ok(false)
        } else {
            Err(conversion_error("boolean", trino_type))
        },
        _ => Err(conversion_error("boolean", trino_type)),
    }
}

/// The integer that a double-precision number is, if it is one and fits.
pub open spec fn exact_integer(f: Option<Float>) -> Option<i64> {
    match f {
        Some(f) => if float::is_whole(f.bits) && float::fits_i64(f.bits) {
            Some(float::truncated(f.bits) as i64)
        } else {
            None
        },
        None => None,
    }
}

/// The integer that a JSON value stands for. Trino sends integers as numbers,
/// at times as strings; whole numbers written as floats are accepted too.
pub open spec fn integer_of(value: Json) -> Option<i64> {
    match value {
        Json::Number(n) => if n.as_i64 is Some {
            n.as_i64
        } else if n.as_u64 is Some && n.as_u64->0 <= i64::MAX {
            Some(n.as_u64->0 as i64)
        } else {
            exact_integer(n.as_f64)
        },
        Json::Str(s) => match text::i64_value(text::trimmed(s.text@)) {
            Some(i) => Some(i),
            None => exact_integer(s.as_f64),
        },
        _ => None,
    }
}

/// The integer that a double-precision number is, if it is one and fits.
fn exact(f: &Option<Float>) -> (r: Option<i64>)
    ensures
        r == exact_integer(*f),
{
    match f {
        Some(f) => f64_to_i64_exact(f.bits),
        None => None,
    }
}

/// Reads an integer.
pub fn json_to_i64(value: &Json, trino_type: &str) -> (r: Result<i64, ErrorInfo>)
    ensures
        match r {
            Ok(i) => integer_of(*value) == Some(i),
            Err(e) => integer_of(*value) is None && e@ == conversion_error_view(
                "integer"@,
                trino_type@,
            ),
        },
{
    let found: Option<i64> = match value {
        Json::Number(n) => if let Some(i) = n.as_i64 {
            Some(i)
        } else {
            match n.as_u64 {
                Some(u) if u <= 0x7fff_ffff_ffff_ffff => Some(u as i64),
                _ => exact(&n.as_f64),
            }
        },
        Json::Str(s) => match parse_i64(trim(s.text.as_str()).as_str()) {
            Some(i) => Some(i),
            None => exact(&s.as_f64),
        },
        _ => None,
    };
    match found {
        Some(i) => Ok(i),
        None => Err(conversion_error("integer", trino_type)),
    }
}

/// The bit patterns of a number in double and in single precision.
#[derive(Clone, Copy, Debug, PartialEq, Eq, Structural)]
pub struct FloatBits {
    pub double: u64,
    pub single: u32,
}

/// The floating-point number that a JSON value stands for. Trino serialises
/// the values that are not finite as strings.
pub open spec fn float_of(value: Json) -> Option<FloatBits> {
    match value {
        Json::Number(n) => match n.as_f64 {
            Some(f) => Some(FloatBits { double: f.bits, single: f.single_bits }),
            None => None,
        },
        Json::Str(s) => {
            let t = text::trimmed(s.text@);
            if t == "NaN"@ {
                Some(FloatBits { double: 0x7ff8_0000_0000_0000, single: 0x7fc0_0000 })
            } else if t == "Infinity"@ {
                Some(FloatBits { double: 0x7ff0_0000_0000_0000, single: 0x7f80_0000 })
            } else if t == "-Infinity"@ {
                Some(FloatBits { double: 0xfff0_0000_0000_0000, single: 0xff80_0000 })
            } else {
                match s.as_f64 {
                    Some(f) => Some(FloatBits { double: f.bits, single: f.single_bits }),
                    None => None,
                }
            }
        },
        _ => None,
    }
}

/// Reads a floating-point number.
pub fn json_to_f64(value: &Json, trino_type: &str) -> (r: Result<FloatBits, ErrorInfo>)
    ensures
        match r {
            Ok(f) => float_of(*value) == Some(f),
            Err(e) => float_of(*value) is None && e@ == conversion_error_view(
                "float"@,
                trino_type@,
            ),
        },
{
    match value {
        Json::Number(n) => if let Some(f) = &n.as_f64 {
            return Ok(FloatBits { double: f.bits, single: f.single_bits });
        },
        Json::Str(s) => {
            let t = trim(s.text.as_str());
            if same(t.as_str(), "NaN") {
                return Ok(FloatBits { double: 0x7ff8_0000_0000_0000, single: 0x7fc0_0000 });
            }
            if same(t.as_str(), "Infinity") {
                return Ok(FloatBits { double: 0x7ff0_0000_0000_0000, single: 0x7f80_0000 });
            }
            if same(t.as_str(), "-Infinity") {
                return Ok(FloatBits { double: 0xfff0_0000_0000_0000, single: 0xff80_0000 });
            }
            if let Some(f) = &s.as_f64 {
                return Ok(FloatBits { double: f.bits, single: f.single_bits });
            }
        },
        _ => {},
    }
    Err(conversion_error("float", trino_type))
}

/// The binary form of the decimal number that a text stands for, where it can
/// be held without loss.
pub uninterp spec fn numeric_payload(text: Seq<char>) -> Option<Seq<u8>>;

/// The binary form of a decimal number: `Decimal::from_str_exact` of
/// `rust_decimal`, which rejects what it cannot hold exactly, and `to_sql` of
/// that type. The result is named.
#[verifier::external_body]
fn numeric_binary(text: &str) -> (r: Option<Vec<u8>>)
    ensures
        match r {
            Some(b) => numeric_payload(text@) == Some(b@),
            None => numeric_payload(text@) is None,
        },
{
    let value = rust_decimal::Decimal::from_str_exact(text).ok()?;
    let mut out = BytesMut::new();
    value.to_sql(&postgres_types::Type::NUMERIC, &mut out).ok()?;
    Some(out.to_vec())
}

/// The text of the decimal number that a JSON value stands for.
pub open spec fn decimal_of(value: Json) -> Option<Seq<char>> {
    match value {
        Json::Str(s) => Some(text::trimmed(s.text@)),
        Json::Number(n) => Some(text::trimmed(n.text@)),
        _ => None,
    }
}

/// Reads a decimal number into its binary form. A number with more digits than
/// can be held is refused rather than rounded.
pub fn json_to_decimal(value: &Json, trino_type: &str) -> (r: Result<Vec<u8>, ErrorInfo>)
    ensures
        match r {
            Ok(b) => decimal_of(*value) is Some && numeric_payload(decimal_of(*value)->0) == Some(
                b@,
            ),
            Err(e) => (decimal_of(*value) is None || numeric_payload(
                decimal_of(*value)->0,
            ) is None) && e@ == conversion_error_view("numeric"@, trino_type@),
        },
{
    let t = match value {
        Json::Str(s) => trim(s.text.as_str()),
        Json::Number(n) => trim(n.text.as_str()),
        _ => {
            return Err(conversion_error("numeric", trino_type));
        },
    };
    match numeric_binary(t.as_str()) {
        Some(b) => Ok(b),
        None => Err(conversion_error("numeric", trino_type)),
    }
}

/// The types whose text and binary forms are the same bytes.
pub open spec fn is_string_type(t: PgType) -> bool {
    t is Varchar || t is Text || t is Bpchar || t is Name || t is Unknown
}

/// The binary form of a value, or the report that there is none.
pub open spec fn binary_payload(value: Json, pg_type: PgType, trino_type: Seq<char>) -> Result<
    Seq<u8>,
    ErrorView,
> {
    let s = value.string_chars();
    match pg_type {
        PgType::Bool => match bool_of(value) {
            Some(b) => Ok(
                seq![
                    if b {
                        1u8
                    } else {
                        0u8
                    },
                ],
            ),
            None => Err(conversion_error_view("boolean"@, trino_type)),
        },
        PgType::Int2 => match integer_of(value) {
            Some(n) => if i16::MIN <= n <= i16::MAX {
                Ok(wire::signed_big_endian(n as int, 2))
            } else {
                Err(out_of_range_view(n as int, "int2"@))
            },
            None => Err(conversion_error_view("integer"@, trino_type)),
        },
        PgType::Int4 => match integer_of(value) {
            Some(n) => if i32::MIN <= n <= i32::MAX {
                Ok(wire::signed_big_endian(n as int, 4))
            } else {
                Err(out_of_range_view(n as int, "int4"@))
            },
            None => Err(conversion_error_view("integer"@, trino_type)),
        },
        PgType::Int8 => match integer_of(value) {
            Some(n) => Ok(wire::signed_big_endian(n as int, 8)),
            None => Err(conversion_error_view("integer"@, trino_type)),
        },
        PgType::Float4 => match float_of(value) {
            Some(f) => Ok(wire::big_endian(f.single as nat, 4)),
            None => Err(conversion_error_view("float"@, trino_type)),
        },
        PgType::Float8 => match float_of(value) {
            Some(f) => Ok(wire::big_endian(f.double as nat, 8)),
            None => Err(conversion_error_view("float"@, trino_type)),
        },
        PgType::Numeric => if decimal_of(value) is Some && numeric_payload(
            decimal_of(value)->0,
        ) is Some {
            Ok(numeric_payload(decimal_of(value)->0)->0)
        } else {
            Err(conversion_error_view("numeric"@, trino_type))
        },
        PgType::Timestamp => if s is Some && datetime::naive_datetime(
            text::trimmed(s->0),
        ) is Some {
            Ok(
                wire::signed_big_endian(
                    datetime::micros_since_2000(datetime::naive_datetime(text::trimmed(s->0))->0),
                    8,
                ),
            )
        } else {
            Err(conversion_error_view("timestamp"@, trino_type))
        },
        PgType::Timestamptz => if s is Some && datetime::timestamptz(s->0) is Some {
            Ok(
                wire::signed_big_endian(
                    datetime::micros_since_2000(datetime::timestamptz(s->0)->0),
                    8,
                ),
            )
        } else {
            Err(conversion_error_view("timestamptz"@, trino_type))
        },
        PgType::Date => if s is Some && datetime::date(s->0) is Some {
            Ok(wire::signed_big_endian(datetime::days_since_2000(datetime::date(s->0)->0), 4))
        } else {
            Err(conversion_error_view("date"@, trino_type))
        },
        PgType::Time => if s is Some && datetime::time(s->0) is Some {
            Ok(wire::signed_big_endian(datetime::micros_of_day(datetime::time(s->0)->0), 8))
        } else {
            Err(conversion_error_view("time"@, trino_type))
        },
        PgType::Timetz => if s is Some && datetime::timetz(s->0) is Some {
            Ok(timetz_payload(datetime::timetz(s->0)->0))
        } else {
            Err(conversion_error_view("timetz"@, trino_type))
        },
        _ => if is_string_type(pg_type) {
            Ok(
                vstd::utf8::encode_utf8(
                    match value_text(value, trino_type) {
                        Some(t) => t,
                        None => Seq::empty(),
                    },
                ),
            )
        } else {
            Err(unsupported_view(pg_type, trino_type))
        },
    }
}

/// The binary form of a `timetz`: microseconds since midnight, then the offset
/// in seconds west of UTC.
pub open spec fn timetz_payload(t: TimeTz) -> Seq<u8> {
    wire::signed_big_endian(datetime::micros_of_day(t.time), 8) + wire::signed_big_endian(
        -t.offset_east_seconds,
        4,
    )
}

/// The bytes of one signed number, most significant first.
fn signed_bytes(n: i64, width: usize) -> (r: Vec<u8>)
    ensures
        r@ == wire::signed_big_endian(n as int, width as nat),
{
    let mut out: Vec<u8> = Vec::new();
    wire::put_signed(&mut out, n, width);
    assert(out@ =~= wire::signed_big_endian(n as int, width as nat));
    out
}

/// The bytes of one bit pattern, most significant first.
fn bit_bytes(n: u64, width: usize) -> (r: Vec<u8>)
    ensures
        r@ == wire::big_endian(n as nat, width as nat),
{
    let mut out: Vec<u8> = Vec::new();
    wire::put_big_endian(&mut out, n, width);
    assert(out@ =~= wire::big_endian(n as nat, width as nat));
    out
}

/// Reads a `timestamp` as microseconds since 2000-01-01.
pub fn json_to_timestamp(value: &Json, trino_type: &str) -> (r: Result<i64, ErrorInfo>)
    ensures
        match r {
            Ok(n) => value.string_chars() is Some && datetime::naive_datetime(
                text::trimmed(value.string_chars()->0),
            ) is Some && n == datetime::micros_since_2000(
                datetime::naive_datetime(text::trimmed(value.string_chars()->0))->0,
            ),
            Err(e) => (value.string_chars() is None || datetime::naive_datetime(
                text::trimmed(value.string_chars()->0),
            ) is None) && e@ == conversion_error_view("timestamp"@, trino_type@),
        },
{
    if let Some(s) = value.as_str() {
        if let Some(t) = parse_naive_datetime(trim(s).as_str()) {
            return Ok(to_micros_since_2000(t));
        }
    }
    Err(conversion_error("timestamp", trino_type))
}

/// Reads a `timestamptz` as microseconds since 2000-01-01 UTC.
pub fn json_to_timestamptz(value: &Json, trino_type: &str) -> (r: Result<i64, ErrorInfo>)
    ensures
        match r {
            Ok(n) => value.string_chars() is Some && datetime::timestamptz(
                value.string_chars()->0,
            ) is Some && n == datetime::micros_since_2000(
                datetime::timestamptz(value.string_chars()->0)->0,
            ),
            Err(e) => (value.string_chars() is None || datetime::timestamptz(
                value.string_chars()->0,
            ) is None) && e@ == conversion_error_view("timestamptz"@, trino_type@),
        },
{
    if let Some(s) = value.as_str() {
        if let Some(t) = parse_trino_timestamptz(s) {
            return Ok(to_micros_since_2000(t));
        }
    }
    Err(conversion_error("timestamptz", trino_type))
}

/// Reads a `date` as days since 2000-01-01.
pub fn json_to_date(value: &Json, trino_type: &str) -> (r: Result<i32, ErrorInfo>)
    ensures
        match r {
            Ok(n) => value.string_chars() is Some && datetime::date(
                value.string_chars()->0,
            ) is Some && n == datetime::days_since_2000(datetime::date(value.string_chars()->0)->0),
            Err(e) => (value.string_chars() is None || datetime::date(
                value.string_chars()->0,
            ) is None) && e@ == conversion_error_view("date"@, trino_type@),
        },
{
    if let Some(s) = value.as_str() {
        if let Some(d) = parse_trino_date(s) {
            return Ok(to_days_since_2000(d));
        }
    }
    Err(conversion_error("date", trino_type))
}

/// Reads a `time` as microseconds since midnight.
pub fn json_to_time(value: &Json, trino_type: &str) -> (r: Result<i64, ErrorInfo>)
    ensures
        match r {
            Ok(n) => value.string_chars() is Some && datetime::time(
                value.string_chars()->0,
            ) is Some && n == datetime::micros_of_day(datetime::time(value.string_chars()->0)->0),
            Err(e) => (value.string_chars() is None || datetime::time(
                value.string_chars()->0,
            ) is None) && e@ == conversion_error_view("time"@, trino_type@),
        },
{
    if let Some(s) = value.as_str() {
        if let Some(t) = parse_trino_time(s) {
            return Ok(to_micros_of_day(t));
        }
    }
    Err(conversion_error("time", trino_type))
}

/// Reads a `timetz`.
pub fn json_to_timetz(value: &Json, trino_type: &str) -> (r: Result<TimeTz, ErrorInfo>)
    ensures
        match r {
            Ok(t) => value.string_chars() is Some && datetime::timetz(value.string_chars()->0)
                == Some(t) && t.valid(),
            Err(e) => (value.string_chars() is None || datetime::timetz(
                value.string_chars()->0,
            ) is None) && e@ == conversion_error_view("timetz"@, trino_type@),
        },
{
    if let Some(s) = value.as_str() {
        if let Some(t) = parse_trino_timetz(s) {
            return Ok(t);
        }
    }
    Err(conversion_error("timetz", trino_type))
}

/// The bytes of a `timetz` on the wire.
fn timetz_bytes(t: &TimeTz) -> (r: Vec<u8>)
    requires
        t.valid(),
    ensures
        r@ == timetz_payload(*t),
{
    let mut out: Vec<u8> = Vec::new();
    wire::put_signed(&mut out, to_micros_of_day(t.time), 8);
    wire::put_signed(&mut out, -(t.offset_east_seconds as i64), 4);
    assert(out@ =~= timetz_payload(*t));
    out
}

/// The binary form of a value, for every type that has one here.
///
/// A type without one is refused: the client decodes strictly by the format
/// that it asked for, so falling back to text would be misread.
fn binary_bytes(value: &Json, pg_type: &PgType, trino_type: &str) -> (r: Result<Vec<u8>, ErrorInfo>)
    requires
        !(*value is Null),
    ensures
        match r {
            Ok(b) => binary_payload(*value, *pg_type, trino_type@) == Ok::<Seq<u8>, ErrorView>(b@),
            Err(e) => binary_payload(*value, *pg_type, trino_type@) == Err::<Seq<u8>, ErrorView>(
                e@,
            ),
        },
{
    match *pg_type {
        PgType::Bool => match json_to_bool(value, trino_type) {
            Ok(b) => {
                let mut out: Vec<u8> = Vec::new();
                out.push(
                    if b {
                        1
                    } else {
                        0
                    },
                );
                assert(out@ =~= seq![if b { 1u8 } else { 0u8 }]);
                Ok(out)
            },
            Err(e) => Err(e),
        },
        PgType::Int2 => match json_to_i64(value, trino_type) {
            Ok(n) => if -0x8000 <= n && n <= 0x7fff {
                Ok(signed_bytes(n, 2))
            } else {
                Err(out_of_range(n, "int2"))
            },
            Err(e) => Err(e),
        },
        PgType::Int4 => match json_to_i64(value, trino_type) {
            Ok(n) => if -0x8000_0000 <= n && n <= 0x7fff_ffff {
                Ok(signed_bytes(n, 4))
            } else {
                Err(out_of_range(n, "int4"))
            },
            Err(e) => Err(e),
        },
        PgType::Int8 => match json_to_i64(value, trino_type) {
            Ok(n) => Ok(signed_bytes(n, 8)),
            Err(e) => Err(e),
        },
        PgType::Float4 => match json_to_f64(value, trino_type) {
            Ok(f) => Ok(bit_bytes(f.single as u64, 4)),
            Err(e) => Err(e),
        },
        PgType::Float8 => match json_to_f64(value, trino_type) {
            Ok(f) => Ok(bit_bytes(f.double, 8)),
            Err(e) => Err(e),
        },
        PgType::Numeric => json_to_decimal(value, trino_type),
        PgType::Timestamp => match json_to_timestamp(value, trino_type) {
            Ok(n) => Ok(signed_bytes(n, 8)),
            Err(e) => Err(e),
        },
        PgType::Timestamptz => match json_to_timestamptz(value, trino_type) {
            Ok(n) => Ok(signed_bytes(n, 8)),
            Err(e) => Err(e),
        },
        PgType::Date => match json_to_date(value, trino_type) {
            Ok(n) => Ok(signed_bytes(n as i64, 4)),
            Err(e) => Err(e),
        },
        PgType::Time => match json_to_time(value, trino_type) {
            Ok(n) => Ok(signed_bytes(n, 8)),
            Err(e) => Err(e),
        },
        PgType::Timetz => match json_to_timetz(value, trino_type) {
            Ok(t) => Ok(timetz_bytes(&t)),
            Err(e) => Err(e),
        },
        PgType::Varchar | PgType::Text | PgType::Bpchar | PgType::Name | PgType::Unknown => {
            match encode_value(value, trino_type) {
                Some(t) => Ok(t.as_str().as_bytes_vec()),
                None => Ok(Vec::new()),
            }
        },
        _ => Err(unsupported_binary_type(pg_type, trino_type)),
    }
}

/// What one cell adds to a row: a payload, or none for NULL; or the report
/// that the cell has no form in the format that was asked for.
pub open spec fn cell_field(
    column: FieldView,
    value: Json,
    pg_type: PgType,
    trino_type: Seq<char>,
    format: FieldFormat,
) -> Result<Option<Seq<u8>>, ErrorView> {
    if value is Null {
        Ok(None)
    } else if format is Text {
        match cell_text(value, pg_type, trino_type) {
            Some(t) => Ok(Some(wire::text_payload(column, t))),
            None => Ok(None),
        }
    } else {
        match binary_payload(value, pg_type, trino_type) {
            Ok(b) => Ok(Some(b)),
            Err(e) => Err(e),
        }
    }
}

/// Binary-encodes a value other than NULL into the encoder's next column.
pub fn encode_binary_cell(
    encoder: &mut DataRowEncoder,
    value: &Json,
    pg_type: &PgType,
    trino_type: &str,
) -> (r: Result<(), ErrorInfo>)
    requires
        !(*value is Null),
        wire::encoder_fields(*old(encoder)).len() < wire::encoder_columns(*old(encoder)).len(),
        wire::next_column(*old(encoder)).format is Binary,
    ensures
        wire::encoder_columns(*final(encoder)) == wire::encoder_columns(*old(encoder)),
        match binary_payload(*value, *pg_type, trino_type@) {
            Ok(b) => r is Ok && wire::encoder_fields(*final(encoder)) == wire::encoder_fields(
                *old(encoder),
            ).push(Some(b)),
            Err(e) => (r matches Err(x) && x@ == e) && wire::encoder_fields(*final(encoder))
                == wire::encoder_fields(*old(encoder)),
        },
{
    match binary_bytes(value, pg_type, trino_type) {
        Ok(bytes) => {
            wire::encode_bytes(encoder, bytes.as_slice());
            Ok(())
        },
        Err(e) => Err(e),
    }
}

/// Encodes one result cell into the encoder's next column, in the wire format
/// that the client asked for.
///
/// Text columns keep the rendering of `text_value`; binary columns get
/// PostgreSQL's binary layout, or an error where the gateway has none. NULL is
/// the same in both formats.
pub fn encode_cell(
    encoder: &mut DataRowEncoder,
    value: &Json,
    pg_type: &PgType,
    trino_type: &str,
    format: FieldFormat,
) -> (r: Result<(), ErrorInfo>)
    requires
        wire::encoder_fields(*old(encoder)).len() < wire::encoder_columns(*old(encoder)).len(),
        format is Binary ==> wire::next_column(*old(encoder)).format is Binary,
    ensures
        wire::encoder_columns(*final(encoder)) == wire::encoder_columns(*old(encoder)),
        match cell_field(
            wire::next_column(*old(encoder)),
            *value,
            *pg_type,
            trino_type@,
            format,
        ) {
            Ok(f) => r is Ok && wire::encoder_fields(*final(encoder)) == wire::encoder_fields(
                *old(encoder),
            ).push(f),
            Err(e) => (r matches Err(x) && x@ == e) && wire::encoder_fields(*final(encoder))
                == wire::encoder_fields(*old(encoder)),
        },
{
    if let Json::Null = value {
        wire::encode_null(encoder);
        return Ok(());
    }
    match format {
        FieldFormat::Text => {
            match text_value(value, pg_type, trino_type) {
                Some(t) => wire::encode_text(encoder, t.as_str()),
                None => wire::encode_null(encoder),
            }
            Ok(())
        },
        FieldFormat::Binary => encode_binary_cell(encoder, value, pg_type, trino_type),
    }
}

/// The text of an integer reads back as the integer, in a column of any integer
/// type and however the JSON number was written: one that fits 64 bits as itself,
/// another without what follows its decimal point.
pub proof fn integers_keep_their_value(n: Number, trino_type: Seq<char>)
    requires
        ({
            let base = text::lower(base_name(trino_type));
            base == "tinyint"@ || base == "smallint"@ || base == "integer"@ || base == "bigint"@
        }),
    ensures
        value_text(Json::Number(n), trino_type) matches Some(r) && ({
            &&& n.as_i64 matches Some(i) ==> text::i64_value(r) == Some(i)
            &&& n.as_i64 is None ==> (n.as_u64 matches Some(u) ==> text::u64_value(r) == Some(u))
            &&& n.as_i64 is None && n.as_u64 is None ==> (n.as_f64 matches Some(f) ==> (
            float::is_finite(f.bits) && float::fits_i64(f.bits) ==> text::integer_value(r) == Some(
                float::truncated(f.bits),
            )))
        }),
{
    if let Some(i) = n.as_i64 {
        text::integers_read_back(i as int);
    } else if let Some(u) = n.as_u64 {
        text::integers_read_back(u as int);
    } else if let Some(f) = n.as_f64 {
        text::integers_read_back(float::truncated(f.bits));
    }
}

/// A number in a column of another type keeps its own text, but for the names of the
/// floating-point values that are not finite; a text, an array or an object is
/// passed on as it is; and NULL alone has no text.
#[verifier::rlimit(50)]
pub proof fn values_keep_their_text(value: Json, trino_type: Seq<char>)
    ensures
        value_text(value, trino_type) is None <==> value is Null,
        value matches Json::Str(s) ==> value_text(value, trino_type) == Some(s.text@),
        value matches Json::Composite(t) ==> value_text(value, trino_type) == Some(t@),
        value matches Json::Bool(b) ==> value_text(value, trino_type) == Some(
            if b {
                seq!['t', 'r', 'u', 'e']
            } else {
                seq!['f', 'a', 'l', 's', 'e']
            },
        ),
        value matches Json::Number(n) ==> ({
            let base = text::lower(base_name(trino_type));
            &&& base != "tinyint"@ && base != "smallint"@ && base != "integer"@ && base != "bigint"@
                && base != "real"@ && base != "double"@ ==> value_text(value, trino_type) == Some(
                n.text@,
            )
            &&& base == "real"@ || base == "double"@ ==> (n.as_f64 matches Some(f)
                ==> float::is_finite(f.bits) ==> value_text(value, trino_type) == Some(f.text@))
        }),
{
    reveal_strlit("true");
    reveal_strlit("false");
    assert("true"@ =~= seq!['t', 'r', 'u', 'e']);
    assert("false"@ =~= seq!['f', 'a', 'l', 's', 'e']);
    reveal_strlit("real");
    reveal_strlit("double");
    reveal_strlit("tinyint");
    reveal_strlit("smallint");
    reveal_strlit("integer");
    reveal_strlit("bigint");
    assert("real"@.len() == 4 && "double"@.len() == 6 && "tinyint"@.len() == 7);
    assert("smallint"@.len() == 8 && "integer"@.len() == 7);
    assert("bigint"@.len() == 6 && "bigint"@[0] == 'b' && "double"@[0] == 'd');
}

/// The floating-point values that are not finite have PostgreSQL's names, which
/// read as these values again in both precisions.
pub proof fn special_floats_read_back(f: Float, s: JsonText)
    requires
        !float::is_finite(f.bits),
        s.text@ == float_text(f),
    ensures
        float_of(Json::Str(s)) matches Some(r) && ({
            &&& !float::is_finite(r.double)
            &&& float::is_nan(r.double) == float::is_nan(f.bits)
            &&& !float::is_nan(f.bits) ==> float::is_negative(r.double) == float::is_negative(f.bits)
            &&& (r.single as int / 0x80_0000) % 256 == 255
            &&& (r.single as int % 0x80_0000 != 0) == float::is_nan(f.bits)
            &&& !float::is_nan(f.bits) ==> (r.single >= 0x8000_0000) == float::is_negative(f.bits)
        }),
{
    reveal_strlit("NaN");
    reveal_strlit("Infinity");
    reveal_strlit("-Infinity");
    let t = s.text@;
    assert("NaN"@.len() == 3 && "Infinity"@.len() == 8 && "-Infinity"@.len() == 9);
    assert(t.len() > 0 && !text::is_space(t[0]) && !text::is_space(t.last()));
    assert(text::trimmed(t) == t);
}

/// The names of Trino's types, and what PostgreSQL type each goes out as. A type is
/// reported only for the names it is listed with, and `text` for all others.
pub proof fn types_go_by_their_names(name: Seq<char>)
    ensures
        match scalar_type(name) {
            PgType::Bool => name == "boolean"@,
            PgType::Int2 => name == "tinyint"@ || name == "smallint"@,
            PgType::Int4 => name == "integer"@,
            PgType::Int8 => name == "bigint"@,
            PgType::Float4 => name == "real"@,
            PgType::Float8 => name == "double"@,
            PgType::Numeric => name == "decimal"@,
            PgType::Varchar => name == "varchar"@,
            PgType::Bpchar => name == "char"@,
            PgType::Bytea => name == "varbinary"@,
            PgType::Date => name == "date"@,
            PgType::Time => name == "time"@,
            PgType::Timetz => name == "time with time zone"@,
            PgType::Timestamp => name == "timestamp"@,
            PgType::Timestamptz => name == "timestamp with time zone"@,
            PgType::Interval => name == "interval"@ || name == "interval year to month"@ || name
                == "interval day to second"@,
            PgType::Jsonb => name == "json"@ || name == "map"@ || name == "row"@,
            PgType::Uuid => name == "uuid"@,
            PgType::Inet => name == "ipaddress"@,
            other => {
                &&& other == PgType::Text
                &&& name != "boolean"@ && name != "tinyint"@ && name != "smallint"@
                &&& name != "integer"@ && name != "bigint"@ && name != "real"@ && name != "double"@
                &&& name != "decimal"@ && name != "varchar"@ && name != "char"@
                &&& name != "varbinary"@ && name != "date"@ && name != "time"@
                &&& name != "time with time zone"@ && name != "timestamp"@
                &&& name != "timestamp with time zone"@ && name != "interval"@
                &&& name != "interval year to month"@ && name != "interval day to second"@
                &&& name != "json"@ && name != "map"@ && name != "row"@ && name != "uuid"@
                &&& name != "ipaddress"@
            },
        },
{
}

/// The types by their names, one name at a time.
#[verifier::rlimit(50)]
pub(crate) proof fn named_types()
    ensures
        scalar_type("double"@) == PgType::Float8,
        scalar_type("decimal"@) == PgType::Numeric,
        scalar_type("varchar"@) == PgType::Varchar,
        scalar_type("char"@) == PgType::Bpchar,
        scalar_type("varbinary"@) == PgType::Bytea,
        scalar_type("time"@) == PgType::Time,
        scalar_type("time with time zone"@) == PgType::Timetz,
        scalar_type("timestamp"@) == PgType::Timestamp,
        scalar_type("timestamp with time zone"@) == PgType::Timestamptz,
{
    reveal_strlit("boolean");
    reveal_strlit("tinyint");
    reveal_strlit("smallint");
    reveal_strlit("integer");
    reveal_strlit("bigint");
    reveal_strlit("real");
    reveal_strlit("double");
    reveal_strlit("decimal");
    reveal_strlit("varchar");
    reveal_strlit("char");
    reveal_strlit("varbinary");
    reveal_strlit("date");
    reveal_strlit("time");
    reveal_strlit("time with time zone");
    reveal_strlit("timestamp");
    reveal_strlit("timestamp with time zone");
    assert("double"@.len() == 6 && "double"@[0] == 'd' && "bigint"@[0] == 'b');
    assert("decimal"@[0] == 'd' && "varchar"@[0] == 'v' && "boolean"@[0] == 'b');
    assert("tinyint"@[0] == 't' && "integer"@[0] == 'i' && "decimal"@.len() == 7);
    assert("char"@[0] == 'c' && "real"@[0] == 'r' && "char"@.len() == 4);
    assert("time"@[0] == 't' && "date"@[0] == 'd' && "time"@.len() == 4);
    assert("varbinary"@.len() == 9 && "varbinary"@[0] == 'v' && "timestamp"@[0] == 't');
    assert("varchar"@.len() == 7 && "smallint"@.len() == 8 && "timestamp"@.len() == 9);
    assert("boolean"@.len() == 7 && "tinyint"@.len() == 7 && "integer"@.len() == 7);
    assert("bigint"@.len() == 6 && "real"@.len() == 4 && "date"@.len() == 4);
    assert("time with time zone"@.len() == 19 && "timestamp with time zone"@.len() == 24);
}

/// A type's parameters make no difference, wherever they stand in its name: the type
/// is the one that the name stands for without them.
#[verifier::rlimit(50)]
pub proof fn parameters_make_no_difference(
    name: Seq<char>,
    params: Seq<char>,
    suffix: Seq<char>,
)
    requires
        !name.contains('('),
        !suffix.contains(')'),
        name.len() != 5,
    ensures
        normalized_type(name + seq!['('] + params + seq![')'] + suffix) == scalar_type(
            text::trimmed(name + suffix),
        ),
        !name.contains(')') ==> normalized_type(name) == scalar_type(text::trimmed(name)),
{
    let open = seq!['('];
    let s = name + open + params + seq![')'] + suffix;
    let n = name.len() as int;
    text::find_from_is_first(s, open, 0);
    assert(text::occurs_at(s, open, n)) by {
        assert(s.subrange(n, n + 1) =~= open);
    }
    assert forall|j: int| 0 <= j < n implies !text::occurs_at(s, open, j) by {
        if text::occurs_at(s, open, j) {
            assert(s.subrange(j, j + 1)[0] == '(');
            assert(name[j] == '(');
        }
    }
    assert(text::find(s, open) == Some(n));
    let close = n + 1 + params.len();
    last_close(s, close);
    assert(s.take(n) + s.skip(close + 1) =~= name + suffix);
    reveal_strlit("array(");
    if "array("@.is_prefix_of(s) {
        assert(s.take(6)[5] == '(');
        if n > 5 {
            assert(name[5] == '(');
        } else {
            assert(s.take(6)[n] == s[n]);
            assert("array("@[n] == '(');
        }
    }
    assert(array_element(s) is None);
    if !name.contains(')') {
        if "array("@.is_prefix_of(name) {
            assert(name.take(6)[5] == '(');
            assert(name[5] == '(');
        }
        text::find_from_is_first(name, open, 0);
        if let Some(k) = text::find(name, open) {
            assert(name.subrange(k, k + 1)[0] == '(');
            assert(name[k] == '(');
        }
    }
}

/// The last closing parenthesis of a text is the one behind which there is none.
proof fn last_close(s: Seq<char>, at: int)
    requires
        0 <= at < s.len(),
        s[at] == ')',
        forall|i: int| at < i < s.len() ==> #[trigger] s[i] != ')',
    ensures
        text::rfind(s, ')') == Some(at),
    decreases s.len(),
{
    if at < s.len() - 1 {
        assert(s.last() == s[s.len() - 1]);
        last_close(s.drop_last(), at);
    }
}

/// An array type is the array over the type of its elements.
pub proof fn arrays_go_by_their_elements(element: Seq<char>)
    ensures
        normalized_type("array("@ + element + seq![')']) == array_type(
            normalized_type(text::trimmed(element)),
        ),
        array_type(normalized_type(text::trimmed(element))).is_array(),
{
    reveal_strlit("array(");
    reveal_strlit(")");
    let s = "array("@ + element + seq![')'];
    assert(s.take(6) =~= "array("@);
    assert(s.subrange(s.len() - 1, s.len() as int) =~= ")"@);
    assert(s.subrange(6, s.len() - 1) =~= element);
}

/// The letter case of a type's name, and white space around it, make no difference.
pub proof fn type_names_ignore_case(
    trino_type: Seq<char>,
    recased: Seq<char>,
    before: Seq<char>,
    after: Seq<char>,
)
    requires
        vstd::utf8::is_ascii_chars(trino_type),
        text::same_ignoring_case(recased, trino_type),
        text::is_blank(before),
        text::is_blank(after),
    ensures
        pg_type_of(before + recased + after) == pg_type_of(trino_type),
{
    assert(before + recased + after =~= before + (recased + after));
    text::start_drops_blank(before, recased + after);
    text::trimmed_drops_end(recased, after);
    text::trimmed_keeps_case(recased);
    text::trimmed_keeps_case(trino_type);
    text::start_is_part(trino_type);
    text::end_is_part(text::trimmed_start(trino_type));
    text::lower_ignores_case(text::trimmed(recased), text::trimmed(trino_type));
}

/// An integer goes out in binary in the bytes of its type, which read back as it. It
/// is refused exactly where it is none, or where the type has no room for it.
pub proof fn binary_integers_read_back(value: Json, pg_type: PgType, trino_type: Seq<char>)
    requires
        pg_type is Int2 || pg_type is Int4 || pg_type is Int8,
    ensures
        ({
            let width: nat = if pg_type is Int2 {
                2
            } else if pg_type is Int4 {
                4
            } else {
                8
            };
            match binary_payload(value, pg_type, trino_type) {
                Ok(b) => b.len() == width && (integer_of(value) matches Some(n)
                    && wire::signed_number(b) == n),
                Err(e) => match integer_of(value) {
                    Some(n) => e.code == "22003"@ && (pg_type is Int2 && !(-32768 <= n <= 32767)
                        || pg_type is Int4 && !(-2147483648 <= n <= 2147483647)),
                    None => e.code == "22P03"@,
                },
            }
        }),
{
    wire::integer_rooms();
    if let Some(n) = integer_of(value) {
        if pg_type is Int8 {
            wire::signed_numbers_read_back(n as int, 8);
        } else if pg_type is Int4 && -2147483648 <= n <= 2147483647 {
            wire::signed_numbers_read_back(n as int, 4);
        } else if pg_type is Int2 && -32768 <= n <= 32767 {
            wire::signed_numbers_read_back(n as int, 2);
        }
    }
}

/// The integer that a value stands for: that of a number which holds one, or that
/// which the text reads as, with white space around it or not. Text and binary agree
/// on it.
pub proof fn integers_are_what_they_read_as(n: Number, i: i64, s: JsonText, trino_type: Seq<char>)
    requires
        n.as_i64 == Some(i),
        text::trimmed(s.text@) == text::signed_decimal(i as int),
    ensures
        integer_of(Json::Number(n)) == Some(i),
        integer_of(Json::Str(s)) == Some(i),
        ({
            let base = text::lower(base_name(trino_type));
            base == "smallint"@ || base == "integer"@ || base == "bigint"@
        }) ==> (value_text(Json::Number(n), trino_type) matches Some(r) && text::i64_value(r)
            == integer_of(Json::Number(n))),
        !(integer_of(Json::Null) is Some),
        forall|b: bool| #[trigger] integer_of(Json::Bool(b)) is None,
{
    text::integers_read_back(i as int);
}

/// Floating-point numbers go out in binary as their bit patterns, in the precision of
/// their type.
pub proof fn binary_floats_read_back(value: Json, trino_type: Seq<char>)
    ensures
        match float_of(value) {
            Some(f) => {
                &&& binary_payload(value, PgType::Float8, trino_type) matches Ok(b) && b.len() == 8
                    && wire::unsigned_number(b) == f.double
                &&& binary_payload(value, PgType::Float4, trino_type) matches Ok(b) && b.len() == 4
                    && wire::unsigned_number(b) == f.single
            },
            None => {
                &&& binary_payload(value, PgType::Float8, trino_type) is Err
                &&& binary_payload(value, PgType::Float4, trino_type) is Err
            },
        },
        value matches Json::Number(n) ==> (n.as_f64 matches Some(f) ==> float_of(value) == Some(
            FloatBits { double: f.bits, single: f.single_bits },
        )),
{
    wire::integer_rooms();
    if let Some(f) = float_of(value) {
        wire::numbers_read_back(f.double as nat, 8);
        wire::numbers_read_back(f.single as nat, 4);
    }
}

/// Dates and times go out in binary as counts from 2000-01-01 or from midnight, which
/// read back as such: a day is a day, and what is cut off is less than a microsecond.
#[verifier::rlimit(50)]
pub proof fn binary_times_read_back(value: Json, s: Seq<char>, trino_type: Seq<char>)
    requires
        value.string_chars() == Some(s),
    ensures
        datetime::naive_datetime(text::trimmed(s)) matches Some(t) ==> t.valid() ==> (binary_payload(
            value,
            PgType::Timestamp,
            trino_type,
        ) matches Ok(b) && is_count_of(b, t)),
        datetime::timestamptz(s) matches Some(t) ==> t.valid() ==> (binary_payload(
            value,
            PgType::Timestamptz,
            trino_type,
        ) matches Ok(b) && is_count_of(b, t)),
        datetime::date(s) matches Some(d) ==> datetime::valid_day(d) ==> (binary_payload(
            value,
            PgType::Date,
            trino_type,
        ) matches Ok(b) && b.len() == 4 && wire::signed_number(b) + 730_120 == d),
        datetime::time(s) matches Some(t) ==> t.valid() ==> (binary_payload(
            value,
            PgType::Time,
            trino_type,
        ) matches Ok(b) && b.len() == 8 && wire::signed_number(b) * 1000 <= t.seconds
            * 1_000_000_000 + t.nanos < (wire::signed_number(b) + 1) * 1000),
        datetime::timetz(s) matches Some(t) ==> t.valid() ==> (binary_payload(
            value,
            PgType::Timetz,
            trino_type,
        ) matches Ok(b) && b.len() == 12 && wire::signed_number(b.take(8)) * 1000 <= t.time.seconds
            * 1_000_000_000 + t.time.nanos < (wire::signed_number(b.take(8)) + 1) * 1000
            && wire::signed_number(b.skip(8)) == -t.offset_east_seconds),
{
    wire::integer_rooms();
    if let Some(t) = datetime::naive_datetime(text::trimmed(s)) {
        if t.valid() {
            datetime::micros_count_from_2000(t);
            wire::signed_numbers_read_back(datetime::micros_since_2000(t), 8);
        }
    }
    if let Some(t) = datetime::timestamptz(s) {
        if t.valid() {
            datetime::micros_count_from_2000(t);
            wire::signed_numbers_read_back(datetime::micros_since_2000(t), 8);
        }
    }
    if let Some(d) = datetime::date(s) {
        if datetime::valid_day(d) {
            wire::signed_numbers_read_back(datetime::days_since_2000(d), 4);
        }
    }
    if let Some(t) = datetime::time(s) {
        if t.valid() {
            datetime::micros_count_from_midnight(t);
            wire::signed_numbers_read_back(datetime::micros_of_day(t), 8);
        }
    }
    if let Some(t) = datetime::timetz(s) {
        if t.valid() {
            datetime::micros_count_from_midnight(t.time);
            wire::signed_numbers_read_back(datetime::micros_of_day(t.time), 8);
            wire::signed_numbers_read_back(-t.offset_east_seconds, 4);
            let b = timetz_payload(t);
            assert(b.take(8) =~= wire::signed_big_endian(datetime::micros_of_day(t.time), 8));
            assert(b.skip(8) =~= wire::signed_big_endian(-t.offset_east_seconds, 4));
        }
    }
}

/// Eight bytes count the microseconds between 2000-01-01, which is day 730,120, and a
/// date and time; a part of a microsecond is cut off toward 2000.
pub open spec fn is_count_of(b: Seq<u8>, t: datetime::DateTime) -> bool {
    let nanos = ((t.days - 730_120) * 86_400 + t.seconds) * 1_000_000_000 + t.nanos;
    let n = wire::signed_number(b);
    &&& b.len() == 8
    &&& nanos >= 0 ==> n * 1000 <= nanos < (n + 1) * 1000
    &&& nanos < 0 ==> (n - 1) * 1000 < nanos <= n * 1000
}

/// Texts go out in binary as the bytes of their text, truth values as one byte that is
/// one for true and zero for false, and decimal numbers as they are held exactly. A
/// type without a binary form is refused, whatever the value.
pub proof fn other_binaries_are_exact(value: Json, pg_type: PgType, trino_type: Seq<char>)
    requires
        !(value is Null),
    ensures
        pg_type is Varchar || pg_type is Text || pg_type is Bpchar || pg_type is Name
            || pg_type is Unknown ==> (binary_payload(value, pg_type, trino_type) matches Ok(b)
            && b == vstd::utf8::encode_utf8(value_text(value, trino_type)->0)),
        pg_type is Bool ==> match binary_payload(value, pg_type, trino_type) {
            Ok(b) => b.len() == 1 && (b[0] == 0 || b[0] == 1) && (b[0] == 1) == (match value {
                Json::Bool(x) => x,
                Json::Str(s) => s.text@ == "true"@,
                _ => false,
            }),
            Err(e) => e.code == "22P03"@ && !(value is Bool) && (value matches Json::Str(s)
                ==> s.text@ != "true"@ && s.text@ != "false"@),
        },
        pg_type is Numeric ==> match value {
            Json::Str(s) => match numeric_payload(text::trimmed(s.text@)) {
                Some(p) => binary_payload(value, pg_type, trino_type) == Ok::<Seq<u8>, ErrorView>(p),
                None => binary_payload(value, pg_type, trino_type) is Err,
            },
            Json::Number(n) => match numeric_payload(text::trimmed(n.text@)) {
                Some(p) => binary_payload(value, pg_type, trino_type) == Ok::<Seq<u8>, ErrorView>(p),
                None => binary_payload(value, pg_type, trino_type) is Err,
            },
            _ => binary_payload(value, pg_type, trino_type) is Err,
        },
        pg_type.is_array() || pg_type is Bytea || pg_type is Inet || pg_type is Interval
            || pg_type is Uuid || pg_type is Jsonb ==> (binary_payload(
            value,
            pg_type,
            trino_type,
        ) matches Err(e) && e.code == "0A000"@),
{
    reveal_strlit("true");
    reveal_strlit("false");
    assert("true"@.len() == 4 && "false"@.len() == 5);
}

/// In text format a value goes out as its text, but for the two types with a time
/// zone; and where a value of these cannot be read, it goes out as it is.
pub proof fn texts_are_kept(value: Json, pg_type: PgType, trino_type: Seq<char>)
    ensures
        !(pg_type is Timestamptz) && !(pg_type is Timetz) ==> cell_text(value, pg_type, trino_type)
            == value_text(value, trino_type),
        value matches Json::Str(s) ==> ({
            &&& pg_type is Timestamptz ==> cell_text(value, pg_type, trino_type) == Some(
                match datetime::timestamptz(s.text@) {
                    Some(t) => datetime::timestamptz_text(t),
                    None => s.text@,
                },
            )
            &&& pg_type is Timetz ==> cell_text(value, pg_type, trino_type) == Some(
                match datetime::timetz(s.text@) {
                    Some(t) => datetime::timetz_text(t),
                    None => s.text@,
                },
            )
        }),
        value is Null ==> cell_text(value, pg_type, trino_type) is None,
        !(value is Null) ==> cell_text(value, pg_type, trino_type) is Some,
{
}

/// The format decides on the form alone: a cell in binary format never carries its
/// text form, nor the other way round; NULL is NULL in both.
pub proof fn formats_are_followed(
    column: FieldView,
    value: Json,
    pg_type: PgType,
    trino_type: Seq<char>,
    format: FieldFormat,
)
    ensures
        match cell_field(column, value, pg_type, trino_type, format) {
            Ok(None) => value is Null,
            Ok(Some(b)) => !(value is Null) && (if format is Binary {
                binary_payload(value, pg_type, trino_type) == Ok::<Seq<u8>, ErrorView>(b)
            } else {
                cell_text(value, pg_type, trino_type) matches Some(t) && b
                    == vstd::utf8::encode_utf8(
                    if column.datatype.is_array() && column.format is Text {
                        wire::array_element(t)
                    } else {
                        t
                    },
                )
            }),
            Err(e) => format is Binary && binary_payload(value, pg_type, trino_type) == Err::<
                Seq<u8>,
                ErrorView,
            >(e),
        },
{
}

/// The base name of a type is what stands before its parameters, without white space
/// around it.
#[verifier::rlimit(50)]
pub proof fn base_names_have_no_parameters(
    before: Seq<char>,
    name: Seq<char>,
    gap: Seq<char>,
    rest: Seq<char>,
)
    requires
        text::is_blank(before),
        text::is_blank(gap),
        name.len() > 0 && !text::is_space(name[0]) && !text::is_space(name.last()),
        forall|i: int| 0 <= i < name.len() ==> #[trigger] name[i] != '(',
    ensures
        base_name(before + name + gap) == name,
        rest.len() > 0 && !text::is_space(rest.last()) ==> base_name(
            before + name + gap + seq!['('] + rest,
        ) == name,
{
    let open = seq!['('];
    text::trimming_finds_the_core(before, name, gap);
    text::find_from_is_first(name, open, 0);
    assert forall|i: int| !text::occurs_at(name, open, i) by {
        if text::occurs_at(name, open, i) {
            assert(name.subrange(i, i + 1)[0] == '(');
            assert(name[i] == '(');
        }
    }
    if rest.len() > 0 && !text::is_space(rest.last()) {
        let core = name + gap + open + rest;
        assert(core[0] == name[0] && core.last() == rest.last());
        text::trimming_finds_the_core(before, core, Seq::empty());
        assert(before + name + gap + open + rest =~= before + core + Seq::<char>::empty());
        let n = (name + gap).len() as int;
        text::find_from_is_first(core, open, 0);
        assert(core.subrange(n, n + 1) =~= open);
        assert(text::occurs_at(core, open, n));
        assert forall|i: int| 0 <= i < n implies !text::occurs_at(core, open, i) by {
            if text::occurs_at(core, open, i) {
                assert(core.subrange(i, i + 1)[0] == '(');
                assert(core[i] == '(');
                if i < name.len() {
                    assert(core[i] == name[i]);
                } else {
                    assert(core[i] == gap[i - name.len()]);
                    assert(text::is_space(gap[i - name.len()]));
                }
            }
        }
        assert(text::find(core, open) == Some(n));
        assert(core.take(n) =~= Seq::<char>::empty() + name + gap);
        text::trimming_finds_the_core(Seq::empty(), name, gap);
    }
}

/// A number in an integer column that no 64-bit integer holds is not cut to the nearest
/// bound: it keeps its own text, for the client to reject.
pub proof fn large_numbers_are_not_clamped(n: Number, trino_type: Seq<char>)
    requires
        ({
            let base = text::lower(base_name(trino_type));
            base == "tinyint"@ || base == "smallint"@ || base == "integer"@ || base == "bigint"@
        }),
        n.as_i64 is None,
        n.as_u64 is None,
    ensures
        n.as_f64 is None ==> value_text(Json::Number(n), trino_type) == Some(n.text@),
        n.as_f64 matches Some(f) ==> ({
            &&& !float::is_finite(f.bits) ==> value_text(Json::Number(n), trino_type) == Some(
                n.text@,
            )
            &&& float::is_finite(f.bits) && !(i64::MIN <= float::truncated(f.bits) <= i64::MAX)
                ==> value_text(Json::Number(n), trino_type) == Some(f.text@)
        }),
{
    if let Some(f) = n.as_f64 {
        if float::is_finite(f.bits) {
            float::truncation_rounds_toward_zero(f.bits);
        }
    }
}

/// Floating-point values that are not finite are called as PostgreSQL calls them, in a
/// column of either precision; one without a reading keeps its own text.
#[verifier::rlimit(50)]
pub proof fn special_floats_have_names(f: Float, n: Number, trino_type: Seq<char>)
    requires
        ({
            let base = text::lower(base_name(trino_type));
            base == "real"@ || base == "double"@
        }),
    ensures
        n.as_f64 == Some(f) && float::is_nan(f.bits) ==> value_text(Json::Number(n), trino_type)
            == Some("NaN"@),
        n.as_f64 == Some(f) && f.bits == 0x7ff0_0000_0000_0000 ==> value_text(
            Json::Number(n),
            trino_type,
        ) == Some("Infinity"@),
        n.as_f64 == Some(f) && f.bits == 0xfff0_0000_0000_0000 ==> value_text(
            Json::Number(n),
            trino_type,
        ) == Some("-Infinity"@),
        n.as_f64 is None ==> value_text(Json::Number(n), trino_type) == Some(n.text@),
{
    reveal_strlit("real");
    reveal_strlit("double");
    reveal_strlit("tinyint");
    reveal_strlit("smallint");
    reveal_strlit("integer");
    reveal_strlit("bigint");
    assert("real"@.len() == 4 && "double"@.len() == 6 && "tinyint"@.len() == 7);
    assert("smallint"@.len() == 8 && "integer"@.len() == 7);
    assert("bigint"@.len() == 6 && "bigint"@[0] == 'b' && "double"@[0] == 'd');
}

/// A number that is written as a float stands for an integer where it is whole and 64
/// bits hold it, and for none else; a text that does not read as an integer is taken
/// by the float that it reads as; and an unsigned number stands for itself.
pub proof fn whole_floats_are_integers(f: Float, n: Number, s: JsonText)
    ensures
        n.as_i64 is None && n.as_u64 is None && n.as_f64 == Some(f) ==> match integer_of(
            Json::Number(n),
        ) {
            Some(i) => float::is_whole(f.bits) && i == float::truncated(f.bits),
            None => !float::is_whole(f.bits) || !(i64::MIN <= float::truncated(f.bits) <= i64::MAX),
        },
        text::i64_value(text::trimmed(s.text@)) is None && s.as_f64 == Some(f)
            ==> match integer_of(Json::Str(s)) {
            Some(i) => float::is_whole(f.bits) && i == float::truncated(f.bits),
            None => !float::is_whole(f.bits) || !(i64::MIN <= float::truncated(f.bits) <= i64::MAX),
        },
        n.as_i64 is None ==> (n.as_u64 matches Some(u) ==> u <= i64::MAX ==> integer_of(
            Json::Number(n),
        ) == Some(u as i64)),
        text::i64_value(text::trimmed(s.text@)) is None && s.as_f64 is None ==> integer_of(
            Json::Str(s),
        ) is None,
{
    if float::is_finite(f.bits) {
        float::truncation_rounds_toward_zero(f.bits);
    }
}

/// A text stands for the floating-point number that it reads as; a truth value, an
/// array or an object stands for none.
pub proof fn float_texts_are_read(s: JsonText, b: bool, t: String)
    ensures
        ({
            let core = text::trimmed(s.text@);
            core != "NaN"@ && core != "Infinity"@ && core != "-Infinity"@ ==> match s.as_f64 {
                Some(f) => float_of(Json::Str(s)) == Some(
                    FloatBits { double: f.bits, single: f.single_bits },
                ),
                None => float_of(Json::Str(s)) is None,
            }
        }),
        float_of(Json::Bool(b)) is None && float_of(Json::Null) is None && float_of(
            Json::Composite(t),
        ) is None,
{
}

/// A report of a value that has no binary form names Trino's type and then the target;
/// one of an integer without room names the integer and the target; and one of a type
/// without a binary form names the type and Trino's. None is taken for another.
pub proof fn reports_name_their_types(
    target: Seq<char>,
    trino_type: Seq<char>,
    value: int,
    pg_type: PgType,
)
    ensures
        conversion_error_view(target, trino_type).message == "gateway could not encode a Trino "@
            + trino_type + " value as binary "@ + target,
        conversion_error_view(target, trino_type).code == seq!['2', '2', 'P', '0', '3'],
        out_of_range_view(value, target).message == "value "@ + text::signed_decimal(value)
            + " out of range for binary "@ + target,
        out_of_range_view(value, target).code == seq!['2', '2', '0', '0', '3'],
        unsupported_view(pg_type, trino_type).message == "binary wire format for column type "@
            + wire::pg_type_name(pg_type.spec_oid()) + " (Trino "@ + trino_type
            + ") is not supported by the gateway; the client requested binary results for this column"@,
        unsupported_view(pg_type, trino_type).code == seq!['0', 'A', '0', '0', '0'],
        conversion_error_view(target, trino_type).severity == "ERROR"@,
        out_of_range_view(value, target).severity == "ERROR"@,
        unsupported_view(pg_type, trino_type).severity == "ERROR"@,
{
    reveal_strlit("22P03");
    reveal_strlit("22003");
    reveal_strlit("0A000");
    assert("22P03"@ =~= seq!['2', '2', 'P', '0', '3']);
    assert("22003"@ =~= seq!['2', '2', '0', '0', '3']);
    assert("0A000"@ =~= seq!['0', 'A', '0', '0', '0']);
}

/// A text of ASCII characters without capitals is its own lower case.
proof fn small_letters_stay(s: Seq<char>)
    requires
        vstd::utf8::is_ascii_chars(s),
        forall|i: int| 0 <= i < s.len() ==> !('A' <= #[trigger] s[i] <= 'Z'),
    ensures
        text::lower(s) == s,
{
    assert(text::lower(s) =~= s);
}

/// A type is found by its name, and an array type by the name of its elements: a name
/// without parameters stands for the type it is listed with.
pub proof fn types_are_found_by_name(name: Seq<char>)
    requires
        vstd::utf8::is_ascii_chars(name),
        forall|i: int| 0 <= i < name.len() ==> !('A' <= #[trigger] name[i] <= 'Z'),
        name.len() > 0 && !text::is_space(name[0]) && !text::is_space(name.last()),
    ensures
        !name.contains('(') ==> pg_type_of(name) == scalar_type(name),
        pg_type_of("array("@ + name + seq![')']) == array_type(pg_type_of(name)),
{
    let none = Seq::<char>::empty();
    text::trimming_finds_the_core(none, name, none);
    assert(none + name + none =~= name);
    small_letters_stay(name);
    if !name.contains('(') {
        name_alone(name);
    }
    reveal_strlit("array(");
    let array = "array("@ + name + seq![')'];
    text::trimming_finds_the_core(none, array, none);
    assert(none + array + none =~= array);
    assert(vstd::utf8::is_ascii_chars(array)) by {
        assert forall|i: int| 0 <= i < array.len() implies '\0' <= #[trigger] array[i]
            <= '\u{7f}' by {
            if 6 <= i < array.len() - 1 {
                assert(array[i] == name[i - 6]);
            }
        }
    }
    assert forall|i: int| 0 <= i < array.len() implies !('A' <= #[trigger] array[i] <= 'Z') by {
        if 6 <= i < array.len() - 1 {
            assert(array[i] == name[i - 6]);
        }
    }
    small_letters_stay(array);
    arrays_go_by_their_elements(name);
}

/// A name without an opening parenthesis is taken whole.
proof fn name_alone(name: Seq<char>)
    requires
        !name.contains('('),
        text::trimmed(name) == name,
    ensures
        normalized_type(name) == scalar_type(name),
{
    let open = seq!['('];
    reveal_strlit("array(");
    if "array("@.is_prefix_of(name) {
        assert(name.take(6)[5] == '(');
        assert(name[5] == '(');
    }
    text::find_from_is_first(name, open, 0);
    if let Some(k) = text::find(name, open) {
        assert(name.subrange(k, k + 1)[0] == '(');
        assert(name[k] == '(');
    }
}

} // verus!
