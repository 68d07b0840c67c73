use minisql::error::EngineError;
use minisql::value::{DataType, Timestamp, Value, ValueOrder, coerce, compare};
use minisql::value::{parse_timestamp, parse_uuid, value_eq};

#[test]
fn timestamp_literal_parses_to_its_fields() {
    assert_eq!(
        parse_timestamp("2020-01-01 00:00:00"),
        Some(Timestamp { year: 2020, month: 1, day: 1, hour: 0, minute: 0, second: 0 })
    );
    assert_eq!(
        parse_timestamp("1999-12-31 23:59:59"),
        Some(Timestamp { year: 1999, month: 12, day: 31, hour: 23, minute: 59, second: 59 })
    );
}

#[test]
fn malformed_timestamp_literals_are_rejected() {
    assert_eq!(parse_timestamp("2020-13-01 00:00:00"), None);
    assert_eq!(parse_timestamp("2020-00-01 00:00:00"), None);
    assert_eq!(parse_timestamp("2020-01-01 24:00:00"), None);
    assert_eq!(parse_timestamp("2020-01-01"), None);
    assert_eq!(parse_timestamp("2020/01/01 00:00:00"), None);
    assert_eq!(parse_timestamp("20a0-01-01 00:00:00"), None);
}

#[test]
fn uuid_literal_parses_to_its_value() {
    assert_eq!(
        parse_uuid("00000000-0000-0000-0000-000000000010"),
        Some(0x10)
    );
    assert_eq!(
        parse_uuid("ffffffff-ffff-ffff-ffff-ffffffffffff"),
        Some(u128::MAX)
    );
    assert_eq!(
        parse_uuid("936DA01F-9ABD-4D9D-80C7-02AF85C822A8"),
        Some(0x936DA01F9ABD4D9D80C702AF85C822A8)
    );
}

#[test]
fn malformed_uuid_literals_are_rejected() {
    assert_eq!(parse_uuid("936DA01F-9ABD-4D9D-80C7-02AF85C822A"), None);
    assert_eq!(parse_uuid("936DA01F09ABD04D9D080C7002AF85C822A8"), None);
    assert_eq!(parse_uuid("936DA01F-9ABD-4D9D-80C7-02AF85C822AZ"), None);
}

#[test]
fn comparison_orders_within_one_variant() {
    assert_eq!(
        compare(
            &Value::Str("apple".to_string()),
            &Value::Str("banana".to_string())
        ),
        Ok(ValueOrder::Less)
    );
    assert_eq!(
        compare(&Value::Str("b".to_string()), &Value::Str("ab".to_string())),
        Ok(ValueOrder::Greater)
    );
    assert_eq!(
        compare(&Value::Str("ab".to_string()), &Value::Str("abc".to_string())),
        Ok(ValueOrder::Less)
    );
    assert_eq!(compare(&Value::I64(-2), &Value::I64(5)), Ok(ValueOrder::Less));
    assert_eq!(
        compare(&Value::Bool(false), &Value::Bool(true)),
        Ok(ValueOrder::Less)
    );
    let early = Value::Timestamp(Timestamp {
        year: 2019,
        month: 12,
        day: 31,
        hour: 23,
        minute: 59,
        second: 59,
    });
    let late = Value::Timestamp(Timestamp {
        year: 2020,
        month: 1,
        day: 1,
        hour: 0,
        minute: 0,
        second: 0,
    });
    assert_eq!(compare(&early, &late), Ok(ValueOrder::Less));
    assert_eq!(compare(&late, &late), Ok(ValueOrder::Equal));
}

#[test]
fn comparison_across_variants_is_a_type_mismatch() {
    assert_eq!(
        compare(&Value::I64(1), &Value::Str("1".to_string())),
        Err(EngineError::TypeMismatch)
    );
    assert_eq!(
        compare(&Value::Bool(true), &Value::I64(1)),
        Err(EngineError::TypeMismatch)
    );
}

#[test]
fn exact_variant_equality() {
    assert!(value_eq(&Value::Null, &Value::Null));
    assert!(value_eq(
        &Value::Str("a".to_string()),
        &Value::Str("a".to_string())
    ));
    assert!(!value_eq(&Value::I64(1), &Value::Str("1".to_string())));
    assert!(!value_eq(&Value::Uuid(1), &Value::Uuid(2)));
    assert!(value_eq(&Value::Bytes(vec![1, 2]), &Value::Bytes(vec![1, 2])));
    assert!(!value_eq(&Value::Bytes(vec![1, 2]), &Value::Bytes(vec![1, 3])));
}

#[test]
fn coercion_parses_string_literals_into_typed_columns() {
    assert_eq!(
        coerce(&Value::Str("2020-01-01 00:00:00".to_string()), DataType::Timestamp),
        Ok(Value::Timestamp(Timestamp {
            year: 2020,
            month: 1,
            day: 1,
            hour: 0,
            minute: 0,
            second: 0,
        }))
    );
    assert_eq!(
        coerce(
            &Value::Str("00000000-0000-0000-0000-000000000010".to_string()),
            DataType::Uuid
        ),
        Ok(Value::Uuid(0x10))
    );
    assert_eq!(
        coerce(&Value::Str("oops".to_string()), DataType::Timestamp),
        Err(EngineError::ParseError)
    );
    assert_eq!(
        coerce(&Value::I64(1), DataType::Text),
        Err(EngineError::TypeMismatch)
    );
    assert_eq!(coerce(&Value::Null, DataType::Int), Ok(Value::Null));
    assert_eq!(coerce(&Value::I64(5), DataType::Int), Ok(Value::I64(5)));
}
