use yaw_dbproxy::common::{get_json_rows_from_result, init_input};
use yaw_dbproxy::errors::decode_status_code;
use yaw_dbproxy::json::JsonVal;
use yaw_dbproxy::render::render_json;

#[test]
fn rendering_is_compact_and_escaped() {
    let v = JsonVal::Obj(vec![
        ("a".to_string(), JsonVal::Int(1)),
        (
            "b".to_string(),
            JsonVal::Arr(vec![
                JsonVal::Null,
                JsonVal::Bool(false),
                JsonVal::Str("q\"\\\n".to_string()),
            ]),
        ),
    ]);
    assert_eq!(render_json(&v), "{\"a\":1,\"b\":[null,false,\"q\\\"\\\\\\n\"]}");
}

#[test]
fn rendering_numbers() {
    assert_eq!(render_json(&JsonVal::Int(0)), "0");
    assert_eq!(render_json(&JsonVal::Int(-45)), "-45");
    assert_eq!(
        render_json(&JsonVal::Int(-9223372036854775808)),
        "-9223372036854775808"
    );
    assert_eq!(
        render_json(&JsonVal::Uint(18446744073709551615)),
        "18446744073709551615"
    );
    assert_eq!(render_json(&JsonVal::Float("2.5".to_string())), "2.5");
}

#[test]
fn rendering_control_characters() {
    assert_eq!(
        render_json(&JsonVal::Str("\u{1}\t\u{1f}".to_string())),
        "\"\\u0001\\t\\u001f\""
    );
    assert_eq!(
        render_json(&JsonVal::Str("\u{8}\u{c}\r".to_string())),
        "\"\\b\\f\\r\""
    );
}

#[test]
fn a_body_parses_into_the_working_object() {
    let oj = init_input("{\"a\":[1,2],\"big\":9223372036854775808}").unwrap();
    let expected = JsonVal::Obj(vec![(
        "body".to_string(),
        JsonVal::Obj(vec![
            (
                "a".to_string(),
                JsonVal::Arr(vec![JsonVal::Int(1), JsonVal::Int(2)]),
            ),
            ("big".to_string(), JsonVal::Uint(9223372036854775808)),
        ]),
    )]);
    assert_eq!(oj, expected);
}

#[test]
fn a_body_that_is_not_json_is_refused_with_400() {
    let e = init_input("this is not json").unwrap_err();
    assert_eq!(e.status_code, 400);
    assert_eq!(e.message, e.error_message);
    assert_eq!(e.message, e.custom_error_message);
    assert!(!e.message.is_empty());
}

#[test]
fn row_json_round_trips_through_parse_and_serialize() {
    let row = "{\"x\":1,\"y\":\"z\"}".to_string();
    let records = get_json_rows_from_result(&Some(vec![row.clone()])).unwrap();
    assert_eq!(records.len(), 1);
    assert_eq!(render_json(&records[0]), row);
}

#[test]
fn rows_parse_in_order_and_a_bad_row_fails() {
    let records =
        get_json_rows_from_result(&Some(vec!["{\"a\":1}".to_string(), "2".to_string()])).unwrap();
    assert_eq!(
        records,
        vec![
            JsonVal::Obj(vec![("a".to_string(), JsonVal::Int(1))]),
            JsonVal::Int(2),
        ]
    );
    assert!(get_json_rows_from_result(&Some(vec!["nope".to_string()])).is_err());
    assert_eq!(get_json_rows_from_result(&None).unwrap(), Vec::<JsonVal>::new());
}

#[test]
fn status_codes_decode_with_500_as_the_fallback() {
    assert_eq!(decode_status_code(&JsonVal::Uint(404)), Ok(404));
    assert_eq!(decode_status_code(&JsonVal::Int(400)), Ok(400));
    assert_eq!(decode_status_code(&JsonVal::Uint(70000)), Err(500));
    assert_eq!(decode_status_code(&JsonVal::Str("x".to_string())), Ok(500));
    assert_eq!(decode_status_code(&JsonVal::Int(-1)), Ok(500));
}
