use duckdoor::json::Json;
use duckdoor::query::{
    admitted, column_at, next_worker, settle, Admission, QueryError, QueryFailure, Reply, RowCollector,
};
use duckdoor::server::{
    admin_token, authorize, health, method_not_allowed, not_found, read_token, reloaded,
    ApiError,
};
use duckdoor::pool::PoolStats;
use duckdoor::sql::SqlValidationError;
use duckdoor::value::Value;

#[test]
fn every_worker_is_tried_once_from_where_the_ticket_says() {
    for ticket in [0, 5, 7, usize::MAX] {
        let mut tried = Vec::new();
        let mut refused = 0;
        while let Admission::Offer(worker) = next_worker(ticket, 4, refused) {
            tried.push(worker);
            refused += 1;
        }
        assert_eq!(tried[0], ticket % 4);
        for pair in tried.windows(2) {
            assert_eq!(pair[1], (pair[0] + 1) % 4);
        }
        tried.sort();
        assert_eq!(tried, [0, 1, 2, 3]);
    }
    assert_eq!(next_worker(3, 1, 1), Admission::Busy);
}

#[test]
fn a_query_that_no_worker_takes_is_given_up() {
    assert_eq!(admitted(next_worker(5, 4, 0)).unwrap(), 1);
    let error = admitted(next_worker(5, 4, 4)).unwrap_err();
    assert!(matches!(error, QueryError::WorkersBusy));
    assert_eq!(error.message(), "all query workers are busy");
}

fn collect(limit: usize, rows: i32) -> duckdoor::query::QueryResult {
    let mut collector = RowCollector::new(limit);
    for n in 0..rows {
        if !collector.offer(&vec![Value::Int(n)]) {
            break;
        }
    }
    collector.finish(vec![column_at(0, Some("n".to_owned()), "Int".to_owned())], 0)
}

#[test]
fn results_are_capped_and_say_so() {
    for (rows, kept, truncated) in [(0, 0, false), (2, 2, false), (3, 3, false), (4, 3, true), (9, 3, true)] {
        let result = collect(3, rows);
        assert_eq!(result.rows.len(), kept);
        assert_eq!(result.row_count, kept);
        assert_eq!(result.truncated, truncated);
    }
    let mut full = RowCollector::new(1);
    assert!(!full.is_full());
    assert!(full.offer(&Vec::new()));
    assert!(full.is_full());
    assert!(!full.offer(&Vec::new()));
}

#[test]
fn columns_without_a_name_get_one() {
    assert_eq!(column_at(3, None, "Int".to_owned()).name, "column_3");
    assert_eq!(column_at(3, Some("x".to_owned()), "Int".to_owned()).name, "x");
}

#[test]
fn a_result_is_answered_with_its_document() {
    let mut collector = RowCollector::new(9);
    collector.offer(&vec![Value::Int(7), Value::Null]);
    let result = collector.finish(
        vec![
            column_at(0, Some("id".to_owned()), "Int".to_owned()),
            column_at(1, None, "Text".to_owned()),
        ],
        1.5f64.to_bits(),
    );
    let text = |s: &str| Json::Text(s.to_owned());
    let column = |name: &str, kind: &str| {
        Json::Object(vec![("name".to_owned(), text(name)), ("type".to_owned(), text(kind))])
    };
    let expected = Json::Object(vec![
        (
            "columns".to_owned(),
            Json::Array(vec![column("id", "Int"), column("column_1", "Text")]),
        ),
        (
            "rows".to_owned(),
            Json::Array(vec![Json::Array(vec![Json::Int(7), Json::Null])]),
        ),
        ("row_count".to_owned(), Json::Int(1)),
        ("truncated".to_owned(), Json::Bool(false)),
        ("elapsed_ms".to_owned(), Json::Double(1.5f64.to_bits())),
    ]);
    assert_eq!(format!("{:?}", result.document()), format!("{expected:?}"));
}

#[test]
fn a_worker_is_interrupted_when_nobody_waits_for_it() {
    assert!(matches!(settle(Reply::Answered(collect(1, 1)), 9), (Ok(_), false)));
    assert!(matches!(
        settle(Reply::Rejected("no table".to_owned()), 9),
        (Err(QueryError::Execution(report)), false) if report == "no table"
    ));
    assert!(matches!(settle(Reply::Stopped, 9), (Err(QueryError::WorkerStopped), false)));
    assert!(matches!(settle(Reply::TimedOut, 9), (Err(QueryError::Timeout(9)), true)));
}

#[test]
fn failures_have_stable_codes() {
    let answer = |failure: QueryFailure| {
        let error = ApiError::query(&failure);
        (error.status, error.code, error.message)
    };
    let refused = |error: SqlValidationError| {
        let (status, code, _) = answer(QueryFailure::Refused(error));
        assert_eq!(status, 400);
        code
    };
    assert_eq!(refused(SqlValidationError::Empty), "invalid_sql");
    assert_eq!(refused(SqlValidationError::Parse(String::new())), "invalid_sql");
    assert_eq!(refused(SqlValidationError::StatementCount(2)), "invalid_sql");
    assert_eq!(refused(SqlValidationError::NotReadOnly(String::new())), "query_not_read_only");
    assert_eq!(
        refused(SqlValidationError::SourceFunctionNotAllowed(String::new())),
        "query_source_function_not_allowed"
    );
    assert_eq!(
        refused(SqlValidationError::SourceRelationNotAllowed(String::new())),
        "query_source_relation_not_allowed"
    );
    assert_eq!(
        answer(QueryFailure::Failed(QueryError::WorkersBusy)),
        (503, "query_workers_busy", "all query workers are busy".to_owned())
    );
    assert_eq!(
        answer(QueryFailure::Failed(QueryError::WorkerStopped)),
        (500, "query_worker_stopped", "query worker stopped unexpectedly".to_owned())
    );
    assert_eq!(
        answer(QueryFailure::Failed(QueryError::Timeout(30))),
        (
            408,
            "query_timeout",
            "query exceeded the configured timeout of 30 seconds".to_owned()
        )
    );
    assert_eq!(
        answer(QueryFailure::Failed(QueryError::Execution("no table".to_owned()))),
        (400, "query_execution_failed", "no table".to_owned())
    );
    assert_eq!(
        answer(QueryFailure::Internal),
        (
            500,
            "internal_error",
            "query failed because of an internal gateway error".to_owned()
        )
    );
}

#[test]
fn api_errors_use_the_stable_envelope() {
    let (status, document) =
        ApiError::new(401, "unauthorized", "bad token".to_owned()).into_response();
    assert_eq!(status, 401);
    let expected = Json::Object(vec![
        ("ok".to_owned(), Json::Bool(false)),
        (
            "error".to_owned(),
            Json::Object(vec![
                ("code".to_owned(), Json::Text("unauthorized".to_owned())),
                ("message".to_owned(), Json::Text("bad token".to_owned())),
            ]),
        ),
    ]);
    assert_eq!(format!("{document:?}"), format!("{expected:?}"));
}

#[test]
fn routes_and_bodies_have_errors_of_their_own() {
    assert_eq!((not_found().status, not_found().code), (404, "route_not_found"));
    assert_eq!(
        (method_not_allowed().status, method_not_allowed().code),
        (405, "method_not_allowed")
    );
    let body = ApiError::json_request(422, "missing field".to_owned());
    assert_eq!((body.status, body.code), (422, "invalid_request_json"));
    assert_eq!(body.message, "missing field");
    let reload = ApiError::reload("no file");
    assert_eq!((reload.status, reload.code), (400, "reload_rejected"));
    assert_eq!(reload.message, "configuration could not be activated: no file");
}

#[test]
fn the_stored_token_is_the_one_that_authorizes() {
    let random: Vec<u8> = (0..32).map(|i| 255 - 3 * i).collect();
    let token = admin_token(&random);
    assert_eq!(token.len(), 43);
    assert!(token.chars().all(|c| c.is_ascii_alphanumeric() || c == '-' || c == '_'));
    assert_eq!(admin_token(&vec![251, 255, 190]), "-_--");
    assert_eq!(read_token(&format!("{token}\n")), token);
    assert_eq!(read_token(&token), token);
    assert!(authorize(&Some(token.clone()), &token).is_ok());
    for wrong in [None, Some(String::new()), Some(format!("{token} ")), Some("x".to_owned())] {
        let error = authorize(&wrong, &token).unwrap_err();
        assert_eq!((error.status, error.code), (401, "unauthorized"));
        assert_eq!(error.message, "invalid admin token");
    }
}

#[test]
fn health_and_reload_report_the_pool() {
    let stats = PoolStats {
        workers: 8,
        enabled_backends: 2,
        active_views: 1,
        unavailable_views: 3,
    };
    let names = |document: Json| match document {
        Json::Object(members) => members.into_iter().map(|(name, _)| name).collect::<Vec<_>>(),
        _ => unreachable!(),
    };
    assert_eq!(
        names(health("0.2.0", 77, stats)),
        [
            "ok", "status", "version", "pid", "workers", "enabled_backends", "active_views",
            "unavailable_views",
        ]
    );
    assert_eq!(
        format!("{:?}", reloaded(stats)),
        format!(
            "{:?}",
            Json::Object(vec![
                ("ok".to_owned(), Json::Bool(true)),
                ("status".to_owned(), Json::Text("reloaded".to_owned())),
                ("workers".to_owned(), Json::Int(8)),
                ("enabled_backends".to_owned(), Json::Int(2)),
                ("active_views".to_owned(), Json::Int(1)),
                ("unavailable_views".to_owned(), Json::Int(3)),
            ])
        )
    );
}
