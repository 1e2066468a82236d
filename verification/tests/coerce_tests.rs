use yaw_dbproxy::coerce::{cast_json_value_to_scylla_value, CqlParam};
use yaw_dbproxy::errors::ErrorBody;
use yaw_dbproxy::json::JsonVal;

fn cast(v: &JsonVal, tag: &str) -> Result<CqlParam, ErrorBody> {
    cast_json_value_to_scylla_value(v, tag.to_string(), "ctx".to_string())
}

#[test]
fn int_at_the_boundary_succeeds() {
    let r = cast(&JsonVal::Int(2147483647), "Int");
    assert_eq!(r, Ok(CqlParam::Int(2147483647)));
}

#[test]
fn int_just_over_the_boundary_fails() {
    let e = cast(&JsonVal::Int(2147483648), "Int").unwrap_err();
    assert_eq!(e.status_code, 500);
    assert_eq!(e.error_message, "conversion_error_i64_i32");
    assert_eq!(
        e.custom_error_message,
        "out of range integral type conversion attempted"
    );
    assert_eq!(e.message, "ctx");
}

#[test]
fn int_far_over_the_boundary_fails() {
    let e = cast(&JsonVal::Int(3000000000), "Int").unwrap_err();
    assert_eq!(e.error_message, "conversion_error_i64_i32");
}

#[test]
fn smallint_boundary() {
    assert_eq!(
        cast(&JsonVal::Int(32767), "SmallInt"),
        Ok(CqlParam::SmallInt(32767))
    );
    let e = cast(&JsonVal::Int(32768), "SmallInt").unwrap_err();
    assert_eq!(e.error_message, "conversion_error_i64_i16");
}

#[test]
fn tinyint_boundary() {
    assert_eq!(
        cast(&JsonVal::Int(127), "TinyInt"),
        Ok(CqlParam::TinyInt(127))
    );
    let e = cast(&JsonVal::Int(128), "TinyInt").unwrap_err();
    assert_eq!(e.error_message, "conversion_error_i64_i8");
}

#[test]
fn boolean_accepts_only_a_boolean() {
    assert_eq!(
        cast(&JsonVal::Bool(true), "Boolean"),
        Ok(CqlParam::Boolean(true))
    );
    let e = cast(&JsonVal::Str("true".to_string()), "Boolean").unwrap_err();
    assert_eq!(e.status_code, 500);
    assert_eq!(e.error_message, "value_is_not_bool");
}

#[test]
fn bigint_accepts_any_i64() {
    assert_eq!(cast(&JsonVal::Int(42), "BigInt"), Ok(CqlParam::BigInt(42)));
    let e = cast(&JsonVal::Float("2.5".to_string()), "BigInt").unwrap_err();
    assert_eq!(e.error_message, "value_is_not_i64");
    let e = cast(&JsonVal::Uint(9300000000000000000), "BigInt").unwrap_err();
    assert_eq!(e.error_message, "value_is_not_i64");
}

#[test]
fn double_and_float_take_any_number() {
    assert_eq!(
        cast(&JsonVal::Float("2.5".to_string()), "Double"),
        Ok(CqlParam::Double("2.5".to_string()))
    );
    assert_eq!(
        cast(&JsonVal::Float("2.5".to_string()), "Float"),
        Ok(CqlParam::Float("2.5".to_string()))
    );
    assert_eq!(
        cast(&JsonVal::Int(3), "Double"),
        Ok(CqlParam::Double("3".to_string()))
    );
    assert_eq!(
        cast(&JsonVal::Int(-7), "Float"),
        Ok(CqlParam::Float("-7".to_string()))
    );
    assert_eq!(
        cast(&JsonVal::Uint(18446744073709551615), "Double"),
        Ok(CqlParam::Double("18446744073709551615".to_string()))
    );
    let e = cast(&JsonVal::Str("2.5".to_string()), "Double").unwrap_err();
    assert_eq!(e.error_message, "value_is_not_f64");
    let e = cast(&JsonVal::Bool(true), "Float").unwrap_err();
    assert_eq!(e.error_message, "value_is_not_f64");
}

#[test]
fn text_takes_the_string_as_it_stands() {
    assert_eq!(
        cast(&JsonVal::Str("hi".to_string()), "Text"),
        Ok(CqlParam::Text("hi".to_string()))
    );
    let e = cast(&JsonVal::Int(1), "Text").unwrap_err();
    assert_eq!(e.error_message, "value_is_not_string");
}

#[test]
fn map_reserializes_the_whole_value() {
    let v = JsonVal::Obj(vec![
        ("a".to_string(), JsonVal::Int(1)),
        (
            "b".to_string(),
            JsonVal::Arr(vec![
                JsonVal::Null,
                JsonVal::Bool(true),
                JsonVal::Str("q\"\\".to_string()),
            ]),
        ),
    ]);
    assert_eq!(
        cast(&v, "Map"),
        Ok(CqlParam::Text(r#"{"a":1,"b":[null,true,"q\"\\"]}"#.to_string()))
    );
}

#[test]
fn empty_wants_null() {
    assert_eq!(cast(&JsonVal::Null, "Empty"), Ok(CqlParam::Empty));
    let e = cast(&JsonVal::Int(0), "Empty").unwrap_err();
    assert_eq!(e.error_message, "value_is_not_null");
}

#[test]
fn decimal_parses_the_textual_form() {
    assert_eq!(
        cast(&JsonVal::Int(5), "Decimal"),
        Ok(CqlParam::Decimal("5".to_string()))
    );
    assert_eq!(
        cast(&JsonVal::Float("1.25".to_string()), "Decimal"),
        Ok(CqlParam::Decimal("1.25".to_string()))
    );
    assert_eq!(
        cast(&JsonVal::Int(-45), "Decimal"),
        Ok(CqlParam::Decimal("-45".to_string()))
    );
    assert_eq!(
        cast(&JsonVal::Float("1e-5".to_string()), "Decimal"),
        Ok(CqlParam::Decimal("1e-5".to_string()))
    );
    // A string renders with quotes, which no decimal grammar accepts.
    let e = cast(&JsonVal::Str("1.5".to_string()), "Decimal").unwrap_err();
    assert_eq!(e.status_code, 500);
    assert_eq!(e.message, "ctx");
}

#[test]
fn decimal_refuses_an_exponent_the_parser_could_not_carry() {
    let e = cast(
        &JsonVal::Float("1e-9223372036854775808".to_string()),
        "Decimal",
    )
    .unwrap_err();
    assert_eq!(e.status_code, 500);
    assert_eq!(e.error_message, "decimal_exponent_out_of_range");
    // A padded exponent of the same written length is still in range.
    assert_eq!(
        cast(&JsonVal::Float("1e-0000000000000000005".to_string()), "Decimal"),
        Ok(CqlParam::Decimal("1e-0000000000000000005".to_string()))
    );
}

#[test]
fn unsupported_tags_fail_by_name() {
    for tag in ["Ascii", "Blob", "Counter", "Date", "Duration", "Timestamp", "Inet", "List",
        "Set", "UDT", "Time", "Timeuuid", "Tuple", "Uuid", "Varint"]
    {
        let e = cast(&JsonVal::Int(1), tag).unwrap_err();
        assert_eq!(e.status_code, 500);
        assert_eq!(
            e.error_message,
            format!("conversion_for_type_{}_not_implemented", tag)
        );
        assert_eq!(
            e.custom_error_message,
            format!("conversion_for_type_{}_not_implemented", tag)
        );
    }
}

#[test]
fn coercion_answers_the_same_twice() {
    let v = JsonVal::Int(2147483648);
    let first = cast(&v, "Int");
    let second = cast(&v, "Int");
    assert_eq!(first, second);
    let v = JsonVal::Float("3.5".to_string());
    assert_eq!(cast(&v, "Decimal"), cast(&v, "Decimal"));
}
