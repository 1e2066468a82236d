use yaw_dbproxy::common::{
    aggregate_batch, marshal_query_result, mutation_result, results_to_json, set_result,
    ExecutionResult,
};
use yaw_dbproxy::coerce::CqlParam;
use yaw_dbproxy::dispatch::{plan_direct_statement, plan_registered_statement, DbCommand};
use yaw_dbproxy::errors::{erfn, ErrorBody};
use yaw_dbproxy::json::JsonVal;
use yaw_dbproxy::paging::b64_encode;
use yaw_dbproxy::queries::get_statements;
use yaw_dbproxy::registry::{parse_catalog, prepare_requests, Registry};

fn obj(fields: Vec<(&str, JsonVal)>) -> JsonVal {
    JsonVal::Obj(fields.into_iter().map(|(k, v)| (k.to_string(), v)).collect())
}

fn entry(statement: &str, is_query: bool, is_paged: bool, pp: i64, is_prepared: bool, tags: Vec<&str>) -> JsonVal {
    let casting = JsonVal::Obj(
        tags.into_iter()
            .enumerate()
            .map(|(i, t)| (i.to_string(), JsonVal::Str(t.to_string())))
            .collect(),
    );
    obj(vec![
        ("statement", JsonVal::Str(statement.to_string())),
        ("is_query", JsonVal::Bool(is_query)),
        ("is_paged", JsonVal::Bool(is_paged)),
        ("per_page_results", JsonVal::Int(pp)),
        ("is_prepared", JsonVal::Bool(is_prepared)),
        ("casting", casting),
    ])
}

fn test_registry() -> Registry {
    let catalog = obj(vec![
        (
            "get_user",
            entry("SELECT JSON * FROM users WHERE id = ? ;", true, false, 0, true, vec!["Text"]),
        ),
        (
            "add_user",
            entry("INSERT INTO users JSON ? ;", false, false, 0, true, vec!["Text", "BigInt"]),
        ),
        (
            "list_rows",
            entry("SELECT JSON * FROM t ;", true, true, 2, false, vec![]),
        ),
        (
            "by_int",
            entry("SELECT JSON * FROM t WHERE n = ? ;", true, false, 0, false, vec!["Int"]),
        ),
    ]);
    let descs = parse_catalog(&catalog).unwrap();
    Registry::new(descs)
}

#[test]
fn the_shipped_catalog_is_empty_and_readable() {
    let catalog = get_statements();
    let descs = parse_catalog(&catalog).unwrap();
    assert_eq!(descs.len(), 0);
    assert_eq!(prepare_requests(&descs).len(), 0);
}

#[test]
fn a_malformed_catalog_is_refused() {
    let catalog = obj(vec![("bad", JsonVal::Obj(vec![]))]);
    assert!(parse_catalog(&catalog).is_none());
    let catalog = obj(vec![(
        "bad",
        entry("q", true, false, 4000000000, true, vec![]),
    )]);
    assert!(parse_catalog(&catalog).is_none());
}

#[test]
fn every_prepared_entry_gets_a_handle_slot() {
    let reg = test_registry();
    assert_eq!(reg.handles, vec![Some(0), Some(1), None, None]);
    let reqs = prepare_requests(&reg.entries);
    assert_eq!(reqs.len(), 2);
    assert_eq!(reqs[0].statement, "SELECT JSON * FROM users WHERE id = ? ;");
    assert_eq!(reqs[0].page_size, None);
    assert_eq!(reqs[1].statement, "INSERT INTO users JSON ? ;");
}

#[test]
fn a_prepared_mutation_plans_by_handle_and_answers_empty() {
    let reg = test_registry();
    let data = vec![JsonVal::Str("alpha".to_string()), JsonVal::Int(42)];
    let plan = plan_registered_statement(&reg, "add_user", "", &data).unwrap();
    assert!(!plan.is_query);
    assert_eq!(
        plan.command,
        DbCommand::ExecutePrepared {
            handle: 1,
            params: vec![
                CqlParam::Text("alpha".to_string()),
                CqlParam::BigInt(42),
            ],
            paging: None,
        }
    );
    let res = mutation_result();
    assert_eq!(res.records, Vec::<JsonVal>::new());
    assert_eq!(res.records_number, 0);
    assert_eq!(res.paging_state, "");
}

#[test]
fn an_unknown_statement_id_is_its_own_error() {
    let reg = test_registry();
    let e = plan_registered_statement(&reg, "nope", "", &vec![]).unwrap_err();
    assert_eq!(e.status_code, 404);
    assert_eq!(e.error_message, "unknown_statement");
    assert_eq!(e.custom_error_message, "nope");
}

#[test]
fn a_coercion_failure_stops_the_item_before_any_command_exists() {
    let reg = test_registry();
    let data = vec![JsonVal::Int(3000000000)];
    let e = plan_registered_statement(&reg, "by_int", "", &data).unwrap_err();
    assert_eq!(e.status_code, 500);
    assert_eq!(e.error_message, "conversion_error_i64_i32");
    assert_eq!(
        e.message,
        "statement: by_int - value: 3000000000 - casting: Int"
    );
}

#[test]
fn a_raw_paged_query_carries_its_page_size_and_token() {
    let reg = test_registry();
    let token = b64_encode(&vec![9, 9]);
    let plan = plan_registered_statement(&reg, "list_rows", &token, &vec![]).unwrap();
    assert!(plan.is_query);
    assert_eq!(
        plan.command,
        DbCommand::RunRaw {
            statement: "SELECT JSON * FROM t ;".to_string(),
            page_size: Some(2),
            params: vec![],
            paging: Some(vec![9, 9]),
        }
    );
}

#[test]
fn an_ad_hoc_unpaged_select_plans_plainly() {
    let cmd = plan_direct_statement("SELECT JSON foo FROM t".to_string(), 0, "");
    assert_eq!(
        cmd,
        DbCommand::RunRaw {
            statement: "SELECT JSON foo FROM t".to_string(),
            page_size: None,
            params: vec![],
            paging: None,
        }
    );
}

#[test]
fn an_ad_hoc_paged_select_round_trips_its_continuation() {
    let first = plan_direct_statement("SELECT JSON foo FROM t".to_string(), 2, "");
    assert_eq!(
        first,
        DbCommand::RunRaw {
            statement: "SELECT JSON foo FROM t".to_string(),
            page_size: Some(2),
            params: vec![],
            paging: None,
        }
    );
    let server_token = vec![7, 0, 42];
    let wire = b64_encode(&server_token);
    let second = plan_direct_statement("SELECT JSON foo FROM t".to_string(), 2, &wire);
    assert_eq!(
        second,
        DbCommand::RunRaw {
            statement: "SELECT JSON foo FROM t".to_string(),
            page_size: Some(2),
            params: vec![],
            paging: Some(server_token),
        }
    );
}

#[test]
fn marshalling_counts_exactly_the_records() {
    let rows = vec!["{\"a\":1}".to_string(), "{\"a\":2}".to_string()];
    let res = marshal_query_result(Some(rows), Some(vec![1, 2, 3])).unwrap();
    assert_eq!(res.records_number, res.records.len());
    assert_eq!(res.records_number, 2);
    assert_eq!(res.paging_state, "AQID");
    let res = marshal_query_result(None, None).unwrap();
    assert_eq!(res.records_number, 0);
    assert_eq!(res.paging_state, "");
}

#[test]
fn a_row_that_is_not_json_fails_with_the_database_error_shape() {
    let e = marshal_query_result(Some(vec!["nope".to_string()]), None).unwrap_err();
    assert_eq!(e.status_code, 500);
    assert_eq!(e.error_message, "scylla_error");
}

fn quick_result(n: usize) -> ExecutionResult {
    let rows: Vec<String> = (0..n).map(|i| format!("{{\"a\":{}}}", i)).collect();
    marshal_query_result(Some(rows), None).unwrap()
}

#[test]
fn a_batch_fails_whole_with_the_first_error() {
    let boom: ErrorBody = erfn(
        500,
        "m".to_string(),
        "conversion_error_i64_i32".to_string(),
        "c".to_string(),
    );
    let outcomes = vec![
        ("first".to_string(), Ok(quick_result(1))),
        ("second".to_string(), Err(boom)),
    ];
    let e = aggregate_batch(outcomes).unwrap_err();
    assert_eq!(e.error_message, "conversion_error_i64_i32");
}

#[test]
fn a_batch_of_successes_keys_results_by_id() {
    let outcomes = vec![
        ("a".to_string(), Ok(quick_result(1))),
        ("b".to_string(), Ok(quick_result(2))),
        ("a".to_string(), Ok(quick_result(3))),
    ];
    let results = aggregate_batch(outcomes).unwrap();
    assert_eq!(results.len(), 2);
    assert_eq!(results[0].0, "a");
    assert_eq!(results[0].1.records_number, 3);
    assert_eq!(results[1].0, "b");
    assert_eq!(results[1].1.records_number, 2);
}

#[test]
fn setting_a_result_twice_keeps_one_member() {
    let mut results: Vec<(String, ExecutionResult)> = Vec::new();
    set_result(&mut results, "x".to_string(), quick_result(1));
    set_result(&mut results, "x".to_string(), quick_result(2));
    assert_eq!(results.len(), 1);
    assert_eq!(results[0].1.records_number, 2);
}

#[test]
fn the_response_object_nests_each_result() {
    let mut results: Vec<(String, ExecutionResult)> = Vec::new();
    set_result(&mut results, "a".to_string(), quick_result(1));
    let response = results_to_json(results);
    match &response {
        JsonVal::Obj(members) => {
            assert_eq!(members.len(), 1);
            assert_eq!(members[0].0, "a");
            match &members[0].1 {
                JsonVal::Obj(inner) => {
                    assert_eq!(inner[0].0, "paging_state");
                    assert_eq!(inner[0].1, JsonVal::Str("".to_string()));
                    assert_eq!(inner[1].0, "records");
                    assert_eq!(inner[2].0, "records_number");
                    assert_eq!(inner[2].1, JsonVal::Uint(1));
                },
                other => panic!("records member is not an object: {:?}", other),
            }
        },
        other => panic!("response is not an object: {:?}", other),
    }
}
