//! Type mapping and the encoding of values.
use std::sync::Arc;

use chrono::{DateTime, NaiveDate, Utc};
use pgwire::api::results::DataRowEncoder;
use postgresql_trino_gateway::datetime::format_utc_offset;
use postgresql_trino_gateway::float::Float;
use postgresql_trino_gateway::json::{Json, JsonText, Number};
use postgresql_trino_gateway::types::{
    encode_cell, encode_value, format_float_text, json_to_bool, json_to_decimal, json_to_i64,
    trino_type_to_pg,
};
use postgresql_trino_gateway::wire::{ErrorInfo, FieldFormat, PgType};
use serde_json::Value;

fn float_of(f: f64) -> Float {
    Float { bits: f.to_bits(), single_bits: (f as f32).to_bits(), text: f.to_string() }
}

fn value_of(value: &Value) -> Json {
    match value {
        Value::Null => Json::Null,
        Value::Bool(b) => Json::Bool(*b),
        Value::Number(n) => Json::Number(Number {
            as_i64: n.as_i64(),
            as_u64: n.as_u64(),
            as_f64: n.as_f64().map(float_of),
            text: n.to_string(),
        }),
        Value::String(s) => Json::Str(JsonText {
            text: s.clone(),
            as_f64: s.trim().parse::<f64>().ok().map(float_of),
        }),
        other => Json::Composite(other.to_string()),
    }
}

// -- trino_type_to_pg: scalar types --

#[test]
fn boolean() {
    assert_eq!(trino_type_to_pg("boolean"), PgType::Bool);
}

#[test]
fn tinyint() {
    assert_eq!(trino_type_to_pg("tinyint"), PgType::Int2);
}

#[test]
fn smallint() {
    assert_eq!(trino_type_to_pg("smallint"), PgType::Int2);
}

#[test]
fn integer() {
    assert_eq!(trino_type_to_pg("integer"), PgType::Int4);
}

#[test]
fn bigint() {
    assert_eq!(trino_type_to_pg("bigint"), PgType::Int8);
}

#[test]
fn real_type() {
    assert_eq!(trino_type_to_pg("real"), PgType::Float4);
}

#[test]
fn double() {
    assert_eq!(trino_type_to_pg("double"), PgType::Float8);
}

#[test]
fn decimal() {
    assert_eq!(trino_type_to_pg("decimal"), PgType::Numeric);
}

#[test]
fn varchar() {
    assert_eq!(trino_type_to_pg("varchar"), PgType::Varchar);
}

#[test]
fn char_type() {
    assert_eq!(trino_type_to_pg("char"), PgType::Bpchar);
}

#[test]
fn varbinary() {
    assert_eq!(trino_type_to_pg("varbinary"), PgType::Bytea);
}

#[test]
fn date() {
    assert_eq!(trino_type_to_pg("date"), PgType::Date);
}

#[test]
fn time() {
    assert_eq!(trino_type_to_pg("time"), PgType::Time);
}

#[test]
fn time_with_time_zone() {
    assert_eq!(trino_type_to_pg("time with time zone"), PgType::Timetz);
}

#[test]
fn timestamp() {
    assert_eq!(trino_type_to_pg("timestamp"), PgType::Timestamp);
}

#[test]
fn timestamp_with_time_zone() {
    assert_eq!(
        trino_type_to_pg("timestamp with time zone"),
        PgType::Timestamptz
    );
}

#[test]
fn interval_year_to_month() {
    assert_eq!(trino_type_to_pg("interval year to month"), PgType::Interval);
}

#[test]
fn interval_day_to_second() {
    assert_eq!(trino_type_to_pg("interval day to second"), PgType::Interval);
}

#[test]
fn json() {
    assert_eq!(trino_type_to_pg("json"), PgType::Jsonb);
}

#[test]
fn uuid() {
    assert_eq!(trino_type_to_pg("uuid"), PgType::Uuid);
}

#[test]
fn ipaddress() {
    assert_eq!(trino_type_to_pg("ipaddress"), PgType::Inet);
}

#[test]
fn map_type() {
    assert_eq!(trino_type_to_pg("map"), PgType::Jsonb);
}

#[test]
fn row_type() {
    assert_eq!(trino_type_to_pg("row"), PgType::Jsonb);
}

// -- Parametric types --

#[test]
fn varchar_with_length() {
    assert_eq!(trino_type_to_pg("varchar(100)"), PgType::Varchar);
}

#[test]
fn decimal_with_precision_scale() {
    assert_eq!(trino_type_to_pg("decimal(10,2)"), PgType::Numeric);
}

#[test]
fn char_with_length() {
    assert_eq!(trino_type_to_pg("char(50)"), PgType::Bpchar);
}

// -- Array types --

#[test]
fn array_integer() {
    assert_eq!(trino_type_to_pg("array(integer)"), PgType::Int4Array);
}

#[test]
fn array_varchar() {
    assert_eq!(trino_type_to_pg("array(varchar)"), PgType::VarcharArray);
}

#[test]
fn array_boolean() {
    assert_eq!(trino_type_to_pg("array(boolean)"), PgType::BoolArray);
}

#[test]
fn array_bigint() {
    assert_eq!(trino_type_to_pg("array(bigint)"), PgType::Int8Array);
}

// -- Unknown types default to TEXT --

#[test]
fn unknown_type_defaults_to_text() {
    assert_eq!(trino_type_to_pg("hyperloglog"), PgType::Text);
}

#[test]
fn unknown_type_with_params_defaults_to_text() {
    assert_eq!(trino_type_to_pg("qdigest(double)"), PgType::Text);
}

// -- Case insensitivity --

#[test]
fn case_insensitive() {
    assert_eq!(trino_type_to_pg("BOOLEAN"), PgType::Bool);
    assert_eq!(trino_type_to_pg("VARCHAR"), PgType::Varchar);
    assert_eq!(trino_type_to_pg("Integer"), PgType::Int4);
}

// -- encode_value --

#[test]
fn encode_null() {
    assert_eq!(encode_value(&value_of(&Value::Null), "varchar"), None);
}

#[test]
fn encode_bool_true() {
    assert_eq!(
        encode_value(&value_of(&Value::Bool(true)), "boolean"),
        Some("true".to_owned())
    );
}

#[test]
fn encode_bool_false() {
    assert_eq!(
        encode_value(&value_of(&Value::Bool(false)), "boolean"),
        Some("false".to_owned())
    );
}

#[test]
fn encode_integer_number() {
    let val = Value::from(42);
    assert_eq!(encode_value(&value_of(&val), "integer"), Some("42".to_owned()));
}

#[test]
fn encode_float_number() {
    let val = Value::from(3.5);
    assert_eq!(encode_value(&value_of(&val), "double"), Some("3.5".to_owned()));
}

/// Regression: Trino can serialize a BIGINT whole number as JSON `42.0`;
/// naive `Number::to_string` would emit `"42.0"`, which PG's int8 text
/// parser rejects (it allows only decimal integer literals). Ensure we
/// render integer text for integer target types regardless of JSON form.
#[test]
fn encode_bigint_from_float_json() {
    let val = Value::Number(serde_json::Number::from_f64(42.0).unwrap());
    assert_eq!(encode_value(&value_of(&val), "bigint"), Some("42".to_owned()));
}

#[test]
fn encode_bigint_max() {
    let val = Value::from(9223372036854775807_i64);
    assert_eq!(
        encode_value(&value_of(&val), "bigint"),
        Some("9223372036854775807".to_owned())
    );
}

#[test]
fn encode_bigint_as_string_passes_through() {
    // Trino sometimes sends bigint as a JSON string to preserve precision.
    let val = Value::from("9223372036854775807");
    assert_eq!(
        encode_value(&value_of(&val), "bigint"),
        Some("9223372036854775807".to_owned())
    );
}

/// serde_json rejects NaN as a `Value::Number`, so Trino sends it as the
/// string `"NaN"`. Confirm the string-passthrough path produces the
/// canonical PostgreSQL NaN text.
#[test]
fn encode_real_nan_as_pg_text() {
    let string_nan = Value::String("NaN".to_owned());
    assert_eq!(encode_value(&value_of(&string_nan), "real"), Some("NaN".to_owned()));
}

#[test]
fn encode_real_infinity_from_string() {
    let val = Value::String("Infinity".to_owned());
    assert_eq!(encode_value(&value_of(&val), "real"), Some("Infinity".to_owned()));
}

#[test]
fn encode_real_normal_value() {
    let val = Value::from(3.5);
    assert_eq!(encode_value(&value_of(&val), "real"), Some("3.5".to_owned()));
}

#[test]
fn encode_integer_from_parsed_float_json() {
    // `serde_json::from_str("42.0")` yields a Float-variant Number;
    // our integer path must still render "42" for int8 target.
    let val: Value = serde_json::from_str("42.0").unwrap();
    assert_eq!(encode_value(&value_of(&val), "integer"), Some("42".to_owned()));
}

/// Regression: previously, an out-of-range float for a BIGINT target was
/// silently cast via `f as i64`, which saturates to `i64::MAX`. The
/// client would see 9223372036854775807 instead of an error. Now we emit
/// the float as text so PostgreSQL's int8 parser rejects it client-side.
#[test]
fn encode_bigint_overflow_does_not_silently_saturate() {
    let val = Value::Number(serde_json::Number::from_f64(1.0e30).unwrap());
    let encoded = encode_value(&value_of(&val), "bigint").expect("must encode");
    assert_ne!(
        encoded, "9223372036854775807",
        "must not saturate to i64::MAX"
    );
    let parsed: f64 = encoded.parse().expect("must be valid float text");
    assert!(
        (parsed - 1.0e30).abs() < 1.0e15,
        "expected ~1e30, got {parsed} (text: {encoded})"
    );
}

#[test]
fn encode_bigint_negative_overflow_does_not_saturate() {
    let val = Value::Number(serde_json::Number::from_f64(-1.0e30).unwrap());
    let encoded = encode_value(&value_of(&val), "bigint").expect("must encode");
    assert_ne!(
        encoded,
        i64::MIN.to_string(),
        "must not saturate to i64::MIN"
    );
    let parsed: f64 = encoded.parse().expect("must be valid float text");
    assert!(
        parsed < 0.0 && parsed.abs() > 1.0e29,
        "expected large negative, got {parsed}"
    );
}

#[test]
fn encode_bigint_in_range_float_still_casts() {
    // 9e18 fits comfortably below i64::MAX (9.22e18); should cast cleanly.
    let val = Value::Number(serde_json::Number::from_f64(9.0e18).unwrap());
    let encoded = encode_value(&value_of(&val), "bigint").expect("must encode");
    assert!(
        !encoded.contains('e') && !encoded.contains('.'),
        "in-range float should produce integer text: got {encoded}"
    );
}

#[test]
fn encode_integer_from_huge_float_is_not_truncated() {
    // INT4 target with an out-of-range float: same fail-closed behaviour
    // as BIGINT. We don't try to fit the i32 range explicitly because
    // PG's int4 parser rejects anything outside its range, and the cast
    // would in any case saturate at i64::MAX before reaching the wire.
    let val = Value::Number(serde_json::Number::from_f64(1.0e15).unwrap());
    let encoded = encode_value(&value_of(&val), "integer").expect("must encode");
    // 1e15 fits in i64 so we cast; the i64 representation is far above
    // i32::MAX and PG's int4 parser will reject it at the client.
    assert!(
        encoded.parse::<i64>().is_ok(),
        "in-range-for-i64 cast should be valid integer text: got {encoded}"
    );
}

#[test]
fn encode_string() {
    let val = Value::from("hello world");
    assert_eq!(
        encode_value(&value_of(&val), "varchar"),
        Some("hello world".to_owned())
    );
}

#[test]
fn encode_array() {
    let val = Value::from(vec![1, 2, 3]);
    let result = encode_value(&value_of(&val), "array(integer)");
    assert!(result.is_some());
    assert_eq!(result.unwrap(), "[1,2,3]");
}

#[test]
fn encode_object() {
    let val = Value::Object([("key".to_owned(), Value::from("value"))].into_iter().collect());
    let result = encode_value(&value_of(&val), "map");
    assert!(result.is_some());
    assert_eq!(result.unwrap(), r#"{"key":"value"}"#);
}

// -- binary wire format (encode_cell) --


/// Encode one value as a single-column row with the given pg type and wire
/// format, returning the field payload: `None` for SQL NULL, else the
/// bytes after the 4-byte length prefix.
fn encode_one(
    value: &Value,
    pg_type: PgType,
    trino_type: &str,
    format: FieldFormat,
) -> Result<Option<Vec<u8>>, ErrorInfo> {
    let schema = Arc::new(vec![pgwire::api::results::FieldInfo::new(
        "c".to_owned(),
        None,
        None,
        pgwire::api::Type::from_oid(pg_type.oid()).unwrap(),
        pgwire::api::results::FieldFormat::from(format.code()),
    )]);
    let mut encoder = DataRowEncoder::new(schema);
    encode_cell(&mut encoder, &value_of(value), &pg_type, trino_type, format)?;
    let row = encoder.take_row();
    let data = &row.data;
    let len = i32::from_be_bytes([data[0], data[1], data[2], data[3]]);
    if len < 0 {
        return Ok(None);
    }
    Ok(Some(data[4..4 + len as usize].to_vec()))
}

fn bin(value: &Value, pg_type: PgType, trino_type: &str) -> Vec<u8> {
    encode_one(value, pg_type, trino_type, FieldFormat::Binary)
        .expect("binary encode should succeed")
        .expect("non-null value")
}

#[test]
fn binary_int4_is_big_endian_4_bytes() {
    assert_eq!(bin(&Value::from(42), PgType::Int4, "integer"), vec![0, 0, 0, 42]);
}

#[test]
fn binary_int8_is_big_endian_8_bytes() {
    assert_eq!(
        bin(&Value::from(1), PgType::Int8, "bigint"),
        vec![0, 0, 0, 0, 0, 0, 0, 1]
    );
}

#[test]
fn binary_int2_from_smallint() {
    assert_eq!(bin(&Value::from(7), PgType::Int2, "smallint"), vec![0, 7]);
}

#[test]
fn binary_int8_from_json_string() {
    // Trino may send bigint as a JSON string to preserve precision.
    assert_eq!(
        bin(&Value::from("255"), PgType::Int8, "bigint"),
        vec![0, 0, 0, 0, 0, 0, 0, 255]
    );
}

#[test]
fn binary_float8_matches_ieee754_be() {
    assert_eq!(
        bin(&Value::from(1.5), PgType::Float8, "double"),
        1.5f64.to_be_bytes().to_vec()
    );
}

#[test]
fn binary_float4_matches_ieee754_be() {
    assert_eq!(
        bin(&Value::from(1.5), PgType::Float4, "real"),
        1.5f32.to_be_bytes().to_vec()
    );
}

#[test]
fn binary_float8_nan_from_string() {
    // Trino serializes non-finite floats as strings.
    let bytes = bin(&Value::from("NaN"), PgType::Float8, "double");
    let f = f64::from_be_bytes(bytes.try_into().expect("8 bytes"));
    assert!(f.is_nan());
}

#[test]
fn binary_bool_true_is_one_byte() {
    assert_eq!(bin(&Value::from(true), PgType::Bool, "boolean"), vec![1]);
    assert_eq!(bin(&Value::from(false), PgType::Bool, "boolean"), vec![0]);
}

#[test]
fn binary_timestamp_is_micros_since_2000() {
    // PostgreSQL binary timestamp = i64 microseconds since 2000-01-01.
    let epoch = NaiveDate::from_ymd_opt(2000, 1, 1)
        .unwrap()
        .and_hms_opt(0, 0, 0)
        .unwrap();
    let ts = NaiveDate::from_ymd_opt(2026, 6, 1)
        .unwrap()
        .and_hms_opt(10, 30, 0)
        .unwrap();
    let expected = (ts - epoch).num_microseconds().unwrap();
    let bytes = bin(
        &Value::from("2026-06-01 10:30:00.000000"),
        PgType::Timestamp,
        "timestamp(6)",
    );
    assert_eq!(
        i64::from_be_bytes(bytes.try_into().expect("8 bytes")),
        expected
    );
}

#[test]
fn binary_timestamp_without_fraction_parses() {
    let bytes = bin(&Value::from("2026-06-01 10:30:00"), PgType::Timestamp, "timestamp");
    assert_eq!(bytes.len(), 8);
}

#[test]
fn parametric_timestamptz_maps_to_timestamptz() {
    // Trino always reports the precision, and it sits *inside* the type
    // name, so a naive strip at the first `(` swallows the time zone.
    assert_eq!(
        trino_type_to_pg("timestamp(6) with time zone"),
        PgType::Timestamptz
    );
    assert_eq!(trino_type_to_pg("time(6) with time zone"), PgType::Timetz);
    assert_eq!(trino_type_to_pg("timestamp(3)"), PgType::Timestamp);
    assert_eq!(trino_type_to_pg("time(3)"), PgType::Time);
}

#[test]
fn nested_type_params_collapse_to_the_base_name() {
    assert_eq!(
        trino_type_to_pg("map(varchar, array(integer))"),
        PgType::Jsonb
    );
    assert_eq!(
        trino_type_to_pg("array(timestamp(6) with time zone)"),
        PgType::TimestamptzArray
    );
}

/// Micros since the PostgreSQL epoch (2000-01-01 00:00:00 UTC), the unit
/// of both binary timestamp types.
fn micros_since_pg_epoch(dt: DateTime<Utc>) -> i64 {
    let epoch = NaiveDate::from_ymd_opt(2000, 1, 1)
        .unwrap()
        .and_hms_opt(0, 0, 0)
        .unwrap()
        .and_utc();
    (dt - epoch).num_microseconds().unwrap()
}

fn binary_timestamptz_micros(value: &str) -> i64 {
    let bytes = bin(
        &Value::from(value),
        PgType::Timestamptz,
        "timestamp(6) with time zone",
    );
    i64::from_be_bytes(bytes.try_into().expect("8 bytes"))
}

#[test]
fn binary_timestamptz_accepts_every_shape_trino_renders() {
    // 2026-06-01 08:30:00Z, written four ways.
    let expected = micros_since_pg_epoch(
        NaiveDate::from_ymd_opt(2026, 6, 1)
            .unwrap()
            .and_hms_opt(8, 30, 0)
            .unwrap()
            .and_utc(),
    );
    for value in [
        "2026-06-01 08:30:00.000000 UTC",
        "2026-06-01 10:30:00.000000 Europe/Berlin",
        "2026-06-01 10:30:00.000000 +02:00",
        "2026-06-01 10:30:00.000000+02:00",
    ] {
        assert_eq!(
            binary_timestamptz_micros(value),
            expected,
            "wrong instant for {value}"
        );
    }
}

#[test]
fn binary_timestamptz_without_fraction_parses() {
    assert_eq!(
        binary_timestamptz_micros("2026-06-01 08:30:00 UTC"),
        binary_timestamptz_micros("2026-06-01 08:30:00.000000 UTC")
    );
}

#[test]
fn binary_timestamptz_rejects_dst_ambiguous_local_time() {
    // 2026-10-25 02:30 happens twice in Europe/Berlin, 2026-03-29 02:30 not
    // at all. Guessing an hour would be silent data corruption.
    for value in [
        "2026-10-25 02:30:00.000000 Europe/Berlin",
        "2026-03-29 02:30:00.000000 Europe/Berlin",
    ] {
        let res = encode_one(
            &Value::from(value),
            PgType::Timestamptz,
            "timestamp(6) with time zone",
            FieldFormat::Binary,
        );
        assert!(res.is_err(), "{value} must fail closed");
    }
}

#[test]
fn binary_timestamptz_rejects_unknown_zone() {
    let res = encode_one(
        &Value::from("2026-06-01 10:30:00.000000 Mars/Olympus_Mons"),
        PgType::Timestamptz,
        "timestamp(6) with time zone",
        FieldFormat::Binary,
    );
    assert!(res.is_err(), "unknown zone must fail closed");
}

fn hex(bytes: &[u8]) -> String {
    bytes.iter().map(|b| format!("{b:02x}")).collect()
}

/// Pins the wire layouts — notably `timetz`'s sign-inverted zone field,
/// which no client in this stack can round-trip — against PostgreSQL 18
/// itself. The expected byte strings are the output of:
///
/// ```sql
/// SELECT encode(timetz_send('10:30:00+02'::timetz), 'hex'),
///        encode(timestamptz_send('2026-06-01 10:30:00+02'::timestamptz), 'hex'),
///        encode(timestamp_send('2026-06-01 10:30:00'::timestamp), 'hex');
/// ```
#[test]
fn binary_layouts_match_postgres_send_functions() {
    for (value, pg_type, trino_type, expected) in [
        (
            "10:30:00+02:00",
            PgType::Timetz,
            "time(6) with time zone",
            "00000008cd0e3a00ffffe3e0",
        ),
        (
            "10:30:00-05:00",
            PgType::Timetz,
            "time(6) with time zone",
            "00000008cd0e3a0000004650",
        ),
        (
            "2026-06-01 10:30:00.000000 +02:00",
            PgType::Timestamptz,
            "timestamp(6) with time zone",
            "0002f62bc4d8f200",
        ),
        (
            "2026-06-01 10:30:00.000000",
            PgType::Timestamp,
            "timestamp(6)",
            "0002f62d72003a00",
        ),
    ] {
        assert_eq!(
            hex(&bin(&Value::from(value), pg_type, trino_type)),
            expected,
            "wire bytes for {value}"
        );
    }
}

/// Trino renders more precision than chrono parses or PostgreSQL stores,
/// so sub-microsecond digits are dropped rather than failing the value.
#[test]
fn picosecond_precision_truncates_to_microseconds() {
    assert_eq!(
        binary_timestamptz_micros("2026-06-01 08:30:00.123456789012 UTC"),
        binary_timestamptz_micros("2026-06-01 08:30:00.123456 UTC")
    );
    // The zone-less types hit the same limit.
    assert_eq!(
        bin(
            &Value::from("2026-06-01 10:30:00.123456789012"),
            PgType::Timestamp,
            "timestamp(12)"
        ),
        bin(
            &Value::from("2026-06-01 10:30:00.123456"),
            PgType::Timestamp,
            "timestamp(6)"
        )
    );
    assert_eq!(
        bin(&Value::from("10:30:00.123456789012"), PgType::Time, "time(12)"),
        bin(&Value::from("10:30:00.123456"), PgType::Time, "time(6)")
    );
    assert_eq!(
        bin(
            &Value::from("10:30:00.123456789012+02:00"),
            PgType::Timetz,
            "time(12) with time zone"
        ),
        bin(
            &Value::from("10:30:00.123456+02:00"),
            PgType::Timetz,
            "time(6) with time zone"
        )
    );
}

#[test]
fn binary_timetz_is_micros_then_negated_offset() {
    // Offset counted in seconds *west* of UTC: +02:00 → -7200.
    let bytes = bin(
        &Value::from("10:30:00.000000+02:00"),
        PgType::Timetz,
        "time(6) with time zone",
    );
    assert_eq!(bytes.len(), 12);
    let (micros, zone) = bytes.split_at(8);
    assert_eq!(
        i64::from_be_bytes(micros.try_into().expect("8 bytes")),
        (10 * 3600 + 30 * 60) * 1_000_000
    );
    assert_eq!(i32::from_be_bytes(zone.try_into().expect("4 bytes")), -7200);
}

#[test]
fn binary_timetz_requires_an_offset() {
    // A bare time is not a `time with time zone` value; guessing UTC would
    // silently move it.
    let res = encode_one(
        &Value::from("10:30:00.000000"),
        PgType::Timetz,
        "time(6) with time zone",
        FieldFormat::Binary,
    );
    assert!(res.is_err(), "offset-less timetz must fail closed");
}

fn text_of(value: &Value, pg_type: PgType, trino_type: &str) -> String {
    let bytes = encode_one(value, pg_type, trino_type, FieldFormat::Text)
        .expect("text encode should succeed")
        .expect("non-null value");
    String::from_utf8(bytes).expect("utf-8")
}

#[test]
fn text_timestamptz_is_rendered_in_utc_like_postgres() {
    // Both Trino spellings must come out in the pinned session zone.
    for value in [
        "2026-06-01 10:30:00.000000 Europe/Berlin",
        "2026-06-01 10:30:00.000000+02:00",
    ] {
        assert_eq!(
            text_of(
                &Value::from(value),
                PgType::Timestamptz,
                "timestamp(6) with time zone"
            ),
            "2026-06-01 08:30:00+00"
        );
    }
}

/// Expected strings are PostgreSQL 18's own `::text` output for the same
/// values under `SET timezone='UTC'`, the zone the gateway advertises.
#[test]
fn text_forms_match_postgres_output() {
    for (value, pg_type, trino_type, expected) in [
        (
            "2026-06-01 10:30:00.000000 +02:00",
            PgType::Timestamptz,
            "timestamp(6) with time zone",
            "2026-06-01 08:30:00+00",
        ),
        (
            "2026-06-01 10:30:00.500000 +02:00",
            PgType::Timestamptz,
            "timestamp(6) with time zone",
            "2026-06-01 08:30:00.5+00",
        ),
        (
            "2026-06-01 10:30:00.123456 +02:00",
            PgType::Timestamptz,
            "timestamp(6) with time zone",
            "2026-06-01 08:30:00.123456+00",
        ),
        (
            "10:30:00.000000+02:00",
            PgType::Timetz,
            "time(6) with time zone",
            "10:30:00+02",
        ),
        (
            "10:30:00.500000+02:00",
            PgType::Timetz,
            "time(6) with time zone",
            "10:30:00.5+02",
        ),
        (
            "10:30:00.000000+05:30",
            PgType::Timetz,
            "time(6) with time zone",
            "10:30:00+05:30",
        ),
        (
            "10:30:00.000000-05:00",
            PgType::Timetz,
            "time(6) with time zone",
            "10:30:00-05",
        ),
    ] {
        assert_eq!(
            text_of(&Value::from(value), pg_type, trino_type),
            expected,
            "text form of {value}"
        );
    }
}

#[test]
fn text_timestamptz_falls_back_to_pass_through() {
    // Text cannot be misread the way binary can, so an unparseable value
    // goes out unchanged rather than failing the whole result set.
    let odd = "not a timestamp";
    assert_eq!(
        text_of(
            &Value::from(odd),
            PgType::Timestamptz,
            "timestamp(6) with time zone"
        ),
        odd
    );
}

#[test]
fn utc_offsets_use_postgres_spelling() {
    assert_eq!(format_utc_offset(0), "+00");
    assert_eq!(format_utc_offset(2 * 3600), "+02");
    assert_eq!(format_utc_offset(-5 * 3600), "-05");
    assert_eq!(format_utc_offset(5 * 3600 + 30 * 60), "+05:30");
    assert_eq!(format_utc_offset(-(3600 + 60 + 1)), "-01:01:01");
}

#[test]
fn binary_numeric_round_trips_via_decimal() {
    // 4-byte count of base-10000 digit groups means a non-empty payload;
    // we just assert it encodes (correctness of the digit layout is
    // postgres-types' responsibility) and that an over-precise value
    // fails closed.
    assert!(!bin(&Value::from("123.45"), PgType::Numeric, "decimal(10,2)").is_empty());
}

#[test]
fn binary_numeric_rejects_overprecise_value() {
    // Exceeds rust_decimal's capacity → fail closed rather than corrupt.
    let huge = "1".repeat(40);
    let err = encode_one(
        &Value::from(huge),
        PgType::Numeric,
        "decimal(38,0)",
        FieldFormat::Binary,
    );
    assert!(err.is_err(), "over-precise decimal must fail closed");
}

#[test]
fn binary_varchar_is_raw_utf8_bytes() {
    // varchar binary == text bytes.
    assert_eq!(
        bin(&Value::from("hello"), PgType::Varchar, "varchar"),
        b"hello".to_vec()
    );
}

#[test]
fn binary_null_is_negative_one_length() {
    // NULL is format-independent: -1 length, no payload.
    let out = encode_one(&Value::Null, PgType::Int4, "integer", FieldFormat::Binary).unwrap();
    assert!(out.is_none());
}

#[test]
fn binary_int4_overflow_fails_closed() {
    let too_big = Value::from(i64::from(i32::MAX) + 1);
    let res = encode_one(&too_big, PgType::Int4, "integer", FieldFormat::Binary);
    assert!(res.is_err(), "out-of-range int4 must fail closed");
}

#[test]
fn binary_unsupported_type_fails_closed() {
    // INTERVAL has no binary encoder yet → fail closed, not silent text.
    let res = encode_one(
        &Value::from("1 day"),
        PgType::Interval,
        "interval",
        FieldFormat::Binary,
    );
    assert!(res.is_err(), "unsupported binary type must fail closed");
}

#[test]
fn text_path_still_renders_strings() {
    // The text branch is unchanged: int4 in text is the ASCII digits.
    assert_eq!(
        encode_one(&Value::from(42), PgType::Int4, "integer", FieldFormat::Text)
            .unwrap()
            .unwrap(),
        b"42".to_vec()
    );
}

#[test]
fn text_path_null_is_negative_one_length() {
    let out = encode_one(&Value::Null, PgType::Varchar, "varchar", FieldFormat::Text).unwrap();
    assert!(out.is_none());
}

// -- what the library knows of the wire library's types --

const ALL_TYPES: [(PgType, &str); 42] = [
    (PgType::Bool, "bool"),
    (PgType::Bytea, "bytea"),
    (PgType::Name, "name"),
    (PgType::Int8, "int8"),
    (PgType::Int2, "int2"),
    (PgType::Int4, "int4"),
    (PgType::Text, "text"),
    (PgType::Float4, "float4"),
    (PgType::Float8, "float8"),
    (PgType::Unknown, "unknown"),
    (PgType::Inet, "inet"),
    (PgType::Bpchar, "bpchar"),
    (PgType::Varchar, "varchar"),
    (PgType::Date, "date"),
    (PgType::Time, "time"),
    (PgType::Timestamp, "timestamp"),
    (PgType::Timestamptz, "timestamptz"),
    (PgType::Interval, "interval"),
    (PgType::Timetz, "timetz"),
    (PgType::Numeric, "numeric"),
    (PgType::Uuid, "uuid"),
    (PgType::Jsonb, "jsonb"),
    (PgType::BoolArray, "_bool"),
    (PgType::ByteaArray, "_bytea"),
    (PgType::Int2Array, "_int2"),
    (PgType::Int4Array, "_int4"),
    (PgType::TextArray, "_text"),
    (PgType::BpcharArray, "_bpchar"),
    (PgType::VarcharArray, "_varchar"),
    (PgType::Int8Array, "_int8"),
    (PgType::Float4Array, "_float4"),
    (PgType::Float8Array, "_float8"),
    (PgType::InetArray, "_inet"),
    (PgType::TimestampArray, "_timestamp"),
    (PgType::DateArray, "_date"),
    (PgType::TimeArray, "_time"),
    (PgType::TimestamptzArray, "_timestamptz"),
    (PgType::IntervalArray, "_interval"),
    (PgType::NumericArray, "_numeric"),
    (PgType::TimetzArray, "_timetz"),
    (PgType::UuidArray, "_uuid"),
    (PgType::JsonbArray, "_jsonb"),
];

#[test]
fn object_identifiers_are_those_of_the_catalog() {
    for (pg_type, name) in ALL_TYPES {
        let outside = pgwire::api::Type::from_oid(pg_type.oid()).unwrap();
        assert_eq!(outside.name(), name);
        let array = matches!(outside.kind(), postgres_types::Kind::Array(_));
        assert_eq!(array, name.starts_with('_'));
    }
}

#[test]
fn texts_are_written_as_they_are() {
    for (pg_type, name) in ALL_TYPES {
        if !name.starts_with('_') {
            let written = encode_one(&Value::from("a \"b\", c"), pg_type, "varchar", FieldFormat::Text);
            assert_eq!(written.unwrap().unwrap(), b"a \"b\", c".to_vec(), "{name}");
        }
    }
}

#[test]
fn arrays_are_quoted_as_elements() {
    let list = Value::from(vec![1, 2]);
    assert_eq!(text_of(&list, PgType::Int4Array, "array(integer)"), "\"[1,2]\"");
    assert_eq!(text_of(&Value::from("plain"), PgType::TextArray, "array(varchar)"), "plain");
    for (text, element) in [
        ("", "\"\""),
        ("null", "\"null\""),
        ("NuLL", "\"NuLL\""),
        ("nulls", "nulls"),
        ("a b", "\"a b\""),
        ("a\tb", "\"a\tb\""),
        ("a\u{b}b", "\"a\u{b}b\""),
        ("a\u{a0}b", "a\u{a0}b"),
        ("{a}", "\"{a}\""),
        ("a,b", "\"a,b\""),
        ("a\\b", "\"a\\\\b\""),
        ("\"é\"", "\"\\\"é\\\"\""),
        ("[x]", "[x]"),
    ] {
        let written = text_of(&Value::from(text), PgType::TextArray, "array(varchar)");
        assert_eq!(written, element, "{text:?}");
    }
}

#[test]
fn unsupported_binary_types_are_named() {
    let error = encode_one(&Value::from("x"), PgType::Uuid, "t", FieldFormat::Binary).unwrap_err();
    assert_eq!((error.severity.as_str(), error.code.as_str()), ("ERROR", "0A000"));
    assert_eq!(
        error.message,
        "binary wire format for column type uuid (Trino t) is not supported by the gateway; \
         the client requested binary results for this column"
    );
}

#[test]
fn refused_values_are_reported_without_the_value() {
    let refused = |v: Value, t: PgType, name: &str| {
        let e = encode_one(&v, t, name, FieldFormat::Binary).unwrap_err();
        (e.code, e.message)
    };
    assert_eq!(
        refused(Value::from("secret"), PgType::Int4, "integer"),
        ("22P03".to_owned(), "gateway could not encode a Trino integer value as binary integer".to_owned())
    );
    assert_eq!(
        refused(Value::from(70_000), PgType::Int2, "smallint"),
        ("22003".to_owned(), "value 70000 out of range for binary int2".to_owned())
    );
}

#[test]
fn integers_are_read_exactly() {
    let read = |v: Value| json_to_i64(&value_of(&v), "bigint").ok();
    assert_eq!(read(Value::from(42.0)), Some(42));
    assert_eq!(read(Value::from(-0.0)), Some(0));
    assert_eq!(read(Value::from(42.5)), None);
    assert_eq!(read(Value::from(9_223_372_036_854_775_808.0)), None);
    assert_eq!(read(Value::from(-9_223_372_036_854_775_808.0)), Some(i64::MIN));
    assert_eq!(read(Value::from(u64::MAX)), None);
    assert_eq!(read(Value::from(" +7 ")), Some(7));
    assert_eq!(read(Value::from("-9223372036854775808")), Some(i64::MIN));
    assert_eq!(read(Value::from("9223372036854775808")), None);
    assert_eq!(read(Value::from("7.0")), Some(7));
    assert_eq!(read(Value::from("7.5")), None);
    assert_eq!(read(Value::Bool(true)), None);
}

#[test]
fn booleans_are_read_from_values_and_words() {
    let read = |v: Value| json_to_bool(&value_of(&v), "boolean").ok();
    assert_eq!(read(Value::Bool(false)), Some(false));
    assert_eq!(read(Value::from("true")), Some(true));
    assert_eq!(read(Value::from(1)), None);
    let error = json_to_bool(&value_of(&Value::from(1)), "boolean").unwrap_err();
    assert!(error.message.contains("boolean"));
}

#[test]
fn decimals_have_the_layout_of_numeric() {
    let read = |v: Value| json_to_decimal(&value_of(&v), "decimal(10,2)").ok();
    // Two digit groups, weight 0, positive, scale 2: 123 and 4500.
    let expected = vec![0, 2, 0, 0, 0, 0, 0, 2, 0, 123, 0x11, 0x94];
    assert_eq!(read(Value::from("123.45")), Some(expected.clone()));
    assert_eq!(read(Value::from(123.45)), Some(expected));
    assert_eq!(read(Value::from("twelve")), None);
}

#[test]
fn floats_have_the_names_of_postgresql() {
    assert_eq!(format_float_text(&float_of(f64::NAN)), "NaN");
    assert_eq!(format_float_text(&float_of(f64::INFINITY)), "Infinity");
    assert_eq!(format_float_text(&float_of(f64::NEG_INFINITY)), "-Infinity");
    assert_eq!(format_float_text(&float_of(-2.5)), "-2.5");
}

#[test]
fn names_in_any_case_are_mapped() {
    assert_eq!(trino_type_to_pg("  ARRAY(Timestamp(3) With Time Zone) "), PgType::TimestamptzArray);
    assert_eq!(trino_type_to_pg("Row(a BIGINT)"), PgType::Jsonb);
    assert_eq!(trino_type_to_pg(""), PgType::Text);
}

#[test]
fn dates_and_times_are_big_endian() {
    assert_eq!(bin(&Value::from("2000-01-03"), PgType::Date, "date"), vec![0, 0, 0, 2]);
    assert_eq!(
        bin(&Value::from("00:00:00.000258"), PgType::Time, "time(6)"),
        vec![0, 0, 0, 0, 0, 0, 1, 2]
    );
    for (pg_type, trino_type) in [
        (PgType::Date, "date"),
        (PgType::Time, "time"),
        (PgType::Timestamp, "timestamp"),
        (PgType::Timetz, "time with time zone"),
        (PgType::Float8, "double"),
        (PgType::Numeric, "decimal"),
        (PgType::Bool, "boolean"),
    ] {
        let error = encode_one(&Value::from("?"), pg_type, trino_type, FieldFormat::Binary);
        assert!(error.unwrap_err().message.contains(trino_type));
    }
}

#[test]
fn integers_outside_the_column_are_refused() {
    let fails = |n: i64, pg_type, name: &str| {
        encode_one(&Value::from(n), pg_type, name, FieldFormat::Binary).is_err()
    };
    assert!(!fails(32_767, PgType::Int2, "smallint"));
    assert!(fails(32_768, PgType::Int2, "smallint"));
    assert!(!fails(-2_147_483_648, PgType::Int4, "integer"));
    assert!(fails(-2_147_483_649, PgType::Int4, "integer"));
    assert_eq!(bin(&Value::from(-2), PgType::Int2, "smallint"), vec![255, 254]);
}
