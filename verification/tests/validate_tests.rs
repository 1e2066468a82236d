use yaw_dbproxy::common::init_input;
use yaw_dbproxy::direct_statement;
use yaw_dbproxy::execute_statement;
use yaw_dbproxy::json::JsonVal;

fn item(fields: Vec<(&str, JsonVal)>) -> JsonVal {
    JsonVal::Obj(fields.into_iter().map(|(k, v)| (k.to_string(), v)).collect())
}

#[test]
fn an_operation_that_is_not_an_array_is_a_400() {
    let oj = init_input("{\"operation\":{}}").unwrap();
    let e = execute_statement::check_input_data(&oj).unwrap_err();
    assert_eq!(e.status_code, 400);
    assert_eq!(e.error_message, "operation_must_be_an_array");
    let e = direct_statement::check_input_data(&oj).unwrap_err();
    assert_eq!(e.error_message, "operation_must_be_an_array");
}

#[test]
fn a_missing_operation_is_a_400() {
    let oj = init_input("{}").unwrap();
    let e = execute_statement::check_input_data(&oj).unwrap_err();
    assert_eq!(e.status_code, 400);
    assert_eq!(e.error_message, "no_operation_in_request");
}

#[test]
fn a_well_shaped_envelope_passes() {
    let oj = init_input("{\"operation\":[]}").unwrap();
    assert!(execute_statement::check_input_data(&oj).is_ok());
    assert!(direct_statement::check_input_data(&oj).is_ok());
}

#[test]
fn registered_items_need_their_three_fields() {
    let whole = item(vec![
        ("query_data", JsonVal::Arr(vec![])),
        ("statement_id", JsonVal::Str("a".to_string())),
        ("paging", JsonVal::Str("".to_string())),
    ]);
    assert!(execute_statement::check_input_data_single_line(&whole).is_ok());

    let e = execute_statement::check_input_data_single_line(&item(vec![(
        "statement_id",
        JsonVal::Str("a".to_string()),
    )]))
    .unwrap_err();
    assert_eq!(e.error_message, "no_query_data_in_request");

    let e = execute_statement::check_input_data_single_line(&item(vec![(
        "query_data",
        JsonVal::Arr(vec![]),
    )]))
    .unwrap_err();
    assert_eq!(e.error_message, "no_statement_id_in_request");

    let e = execute_statement::check_input_data_single_line(&item(vec![
        ("query_data", JsonVal::Arr(vec![])),
        ("statement_id", JsonVal::Str("a".to_string())),
    ]))
    .unwrap_err();
    assert_eq!(e.error_message, "no_paging_in_request");

    let e = execute_statement::check_input_data_single_line(&item(vec![
        ("query_data", JsonVal::Int(1)),
        ("statement_id", JsonVal::Str("a".to_string())),
        ("paging", JsonVal::Str("".to_string())),
    ]))
    .unwrap_err();
    assert_eq!(e.error_message, "query_data_must_be_an_array");

    let e = execute_statement::check_input_data_single_line(&item(vec![
        ("query_data", JsonVal::Arr(vec![])),
        ("statement_id", JsonVal::Int(7)),
        ("paging", JsonVal::Str("".to_string())),
    ]))
    .unwrap_err();
    assert_eq!(e.error_message, "statement_id_must_be_a_string");

    let e = execute_statement::check_input_data_single_line(&item(vec![
        ("query_data", JsonVal::Arr(vec![])),
        ("statement_id", JsonVal::Str("a".to_string())),
        ("paging", JsonVal::Int(7)),
    ]))
    .unwrap_err();
    assert_eq!(e.error_message, "paging_must_be_a_string");
}

#[test]
fn ad_hoc_items_need_their_four_fields() {
    let whole = item(vec![
        ("statement", JsonVal::Str("SELECT JSON a FROM t".to_string())),
        ("per_page_results", JsonVal::Int(0)),
        ("paging", JsonVal::Str("".to_string())),
        ("statement_id", JsonVal::Str("a".to_string())),
    ]);
    assert!(direct_statement::check_input_data_single_line(&whole).is_ok());

    let e = direct_statement::check_input_data_single_line(&item(vec![(
        "statement_id",
        JsonVal::Str("a".to_string()),
    )]))
    .unwrap_err();
    assert_eq!(e.error_message, "no_query_data_in_request");

    let e = direct_statement::check_input_data_single_line(&item(vec![(
        "statement",
        JsonVal::Str("q".to_string()),
    )]))
    .unwrap_err();
    assert_eq!(e.error_message, "no_statement_id_in_request");

    let e = direct_statement::check_input_data_single_line(&item(vec![
        ("statement", JsonVal::Str("q".to_string())),
        ("per_page_results", JsonVal::Int(0)),
    ]))
    .unwrap_err();
    assert_eq!(e.error_message, "no_paging_in_request");

    let e = direct_statement::check_input_data_single_line(&item(vec![
        ("statement", JsonVal::Str("q".to_string())),
        ("per_page_results", JsonVal::Int(0)),
        ("paging", JsonVal::Str("".to_string())),
    ]))
    .unwrap_err();
    assert_eq!(e.error_message, "no_statement_id_in_request");

    let e = direct_statement::check_input_data_single_line(&item(vec![
        ("statement", JsonVal::Str("q".to_string())),
        ("per_page_results", JsonVal::Int(0)),
        ("paging", JsonVal::Str("".to_string())),
        ("statement_id", JsonVal::Int(7)),
    ]))
    .unwrap_err();
    assert_eq!(e.error_message, "statement_id_must_be_a_string");

    let e = direct_statement::check_input_data_single_line(&item(vec![
        ("statement", JsonVal::Int(1)),
        ("per_page_results", JsonVal::Int(0)),
        ("paging", JsonVal::Str("".to_string())),
        ("statement_id", JsonVal::Str("a".to_string())),
    ]))
    .unwrap_err();
    assert_eq!(e.error_message, "query_data_must_be_an_array");

    let e = direct_statement::check_input_data_single_line(&item(vec![
        ("statement", JsonVal::Str("q".to_string())),
        ("per_page_results", JsonVal::Str("2".to_string())),
        ("paging", JsonVal::Str("".to_string())),
        ("statement_id", JsonVal::Str("a".to_string())),
    ]))
    .unwrap_err();
    assert_eq!(e.error_message, "statement_id_must_be_a_string");

    let e = direct_statement::check_input_data_single_line(&item(vec![
        ("statement", JsonVal::Str("q".to_string())),
        ("per_page_results", JsonVal::Int(0)),
        ("paging", JsonVal::Int(3)),
        ("statement_id", JsonVal::Str("a".to_string())),
    ]))
    .unwrap_err();
    assert_eq!(e.error_message, "paging_must_be_a_string");
}
