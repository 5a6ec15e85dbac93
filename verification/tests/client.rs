use duckdoor::client::{
    client_timeout, display_value, print_result, print_row, query, read_sql, truncation_warning,
    BrokenCsv, DaemonReply, ErrorBody, OutputFormat, Printed, SqlSource,
};
use duckdoor::json::Json;
use duckdoor::output;
use duckdoor::query::{column_at, Column, QueryResult};

fn text(s: &str) -> Json {
    Json::Text(s.to_owned())
}

fn object(members: Vec<(&str, Json)>) -> Json {
    Json::Object(members.into_iter().map(|(n, v)| (n.to_owned(), v)).collect())
}

fn same(a: &Json, b: &Json) {
    assert_eq!(format!("{a:?}"), format!("{b:?}"));
}

fn named(names: &[&str]) -> Vec<Column> {
    names
        .iter()
        .map(|name| column_at(0, Some(name.to_string()), "Text".to_owned()))
        .collect()
}

fn result(names: &[&str], rows: Vec<Vec<Json>>) -> QueryResult {
    QueryResult {
        columns: named(names),
        row_count: rows.len(),
        rows,
        truncated: false,
        elapsed_ms: 0,
    }
}

fn rendered(result: &QueryResult) -> Vec<Vec<String>> {
    let one = |value: &Json| match value {
        Json::Array(_) => "[1,2]".to_owned(),
        _ => "unused".to_owned(),
    };
    result.rows.iter().map(|row| row.iter().map(one).collect()).collect()
}

fn lines(result: &QueryResult) -> Vec<String> {
    match print_result(result, OutputFormat::Table, &rendered(result), "1.250").unwrap() {
        Printed::Lines(lines) => lines,
        _ => unreachable!(),
    }
}

fn csv(result: &QueryResult) -> Result<String, BrokenCsv> {
    match print_result(result, OutputFormat::Csv, &rendered(result), "")? {
        Printed::Text(csv) => Ok(csv),
        _ => unreachable!(),
    }
}

#[test]
fn sql_comes_from_one_place() {
    let some = |s: &str| Some(s.to_owned());
    assert!(matches!(read_sql(some("q"), None), Ok(SqlSource::Argument(s)) if s == "q"));
    assert!(matches!(read_sql(None, some("f")), Ok(SqlSource::File(s)) if s == "f"));
    assert!(matches!(read_sql(None, None), Ok(SqlSource::Stdin)));
    assert_eq!(
        read_sql(some("q"), some("f")).unwrap_err(),
        "provide SQL as an argument, with --file, or on stdin; not both"
    );
    assert_eq!(client_timeout(300), 305);
}

#[test]
fn error_codes_of_the_gateway_are_passed_on() {
    let parsed = ErrorBody {
        code: "query_not_read_only".to_owned(),
        message: "write rejected".to_owned(),
        details: Json::Null,
    };
    let error = query(DaemonReply::Refused {
        status: 400,
        body: "{}".to_owned(),
        parsed: Some(parsed),
    })
    .unwrap_err();
    assert_eq!(error.code, "query_not_read_only");
    assert_eq!(error.message, "write rejected");
    same(&error.details, &object(vec![("http_status", Json::Int(400))]));
    let parsed = ErrorBody {
        code: "c".to_owned(),
        message: "m".to_owned(),
        details: object(vec![("http_status", text("old")), ("line", Json::Int(3))]),
    };
    let error = query(DaemonReply::Refused {
        status: 503,
        body: String::new(),
        parsed: Some(parsed),
    })
    .unwrap_err();
    same(
        &error.details,
        &object(vec![("http_status", Json::Int(503)), ("line", Json::Int(3))]),
    );
}

#[test]
fn answers_without_structure_are_reported_as_such() {
    let error = query(DaemonReply::Refused {
        status: 502,
        body: "<html>".to_owned(),
        parsed: None,
    })
    .unwrap_err();
    assert_eq!(error.code, "invalid_daemon_response");
    assert_eq!(error.message, "daemon returned an unstructured error response");
    same(
        &error.details,
        &object(vec![("http_status", Json::Int(502)), ("body", text("<html>"))]),
    );
    let error = query(DaemonReply::Answered(Err("no rows".to_owned()))).unwrap_err();
    assert_eq!(error.code, "invalid_daemon_response");
    assert_eq!(error.message, "daemon returned an invalid success response");
    same(&error.details, &object(vec![("cause", text("no rows"))]));
    let error = query(DaemonReply::Unreachable {
        listen: "127.0.0.1:1".to_owned(),
        cause: "refused".to_owned(),
    })
    .unwrap_err();
    assert_eq!(error.code, "daemon_unreachable");
    assert_eq!(error.message, "could not reach the duckdoor daemon");
    same(
        &error.details,
        &object(vec![
            ("listen", text("127.0.0.1:1")),
            ("cause", text("refused")),
            (
                "resolution",
                text("run `duckdoor status`; start the daemon if it is stopped"),
            ),
        ]),
    );
    assert!(query(DaemonReply::Answered(Ok(result(&["a"], Vec::new())))).is_ok());
}

#[test]
fn values_are_shown_as_text() {
    assert_eq!(display_value(&Json::Null, "null"), "NULL");
    assert_eq!(display_value(&text("a\"b"), "\"a\\\"b\""), "a\"b");
    assert_eq!(display_value(&Json::Int(i128::from(i64::MIN)), ""), i64::MIN.to_string());
    assert_eq!(display_value(&Json::Int(7), ""), "7");
    assert_eq!(display_value(&Json::Bool(true), ""), "true");
    assert_eq!(display_value(&Json::Bool(false), ""), "false");
    assert_eq!(display_value(&Json::Double(1.5f64.to_bits()), "1.5"), "1.5");
    assert_eq!(display_value(&Json::Array(vec![Json::Null]), "[null]"), "[null]");
}

#[test]
fn tables_are_aligned() {
    let shown = result(
        &["id", "name"],
        vec![
            vec![Json::Int(1), text("open\nhouse")],
            vec![Json::Int(1000), Json::Null],
        ],
    );
    assert_eq!(
        lines(&shown),
        [
            " id   | name       ",
            " 1    | open house ",
            " 1000 | NULL       ",
            "rows=2 elapsed_ms=1.250",
        ]
    );
    assert_eq!(lines(&result(&[], Vec::new())), ["(no columns)"]);
}

#[test]
fn wide_cells_are_cut() {
    let long = "x".repeat(100);
    let shown = lines(&result(&["a"], vec![vec![text(&long)]]));
    assert_eq!(shown[1], format!(" {}\u{2026} ", "x".repeat(79)));
    let title = "t".repeat(90);
    let bare = lines(&result(&[&title], Vec::new()));
    assert_eq!(bare[0], format!(" {title} "));
    let cut = lines(&result(&[&title], vec![vec![text("v")]]));
    assert_eq!(cut[0], format!(" {}\u{2026} ", "t".repeat(79)));
}

#[test]
fn the_name_of_a_column_is_as_wide_as_its_bytes() {
    let shown = lines(&result(&["ü"], vec![vec![text("a")]]));
    assert_eq!(shown[0], " ü  ");
    assert_eq!(shown[1], " a  ");
}

#[test]
fn rows_end_with_the_shorter_list() {
    let cells = vec!["a".to_owned(), "b".to_owned()];
    assert_eq!(print_row(&cells, &vec![2]), " a  ");
    assert_eq!(print_row(&cells, &vec![1, 1, 1]), " a | b ");
    assert_eq!(print_row(&cells, &vec![0, 1]), " \u{2026} | b ");
}

#[test]
fn csv_is_quoted_where_it_has_to_be() {
    let shown = result(
        &["id", "note"],
        vec![
            vec![Json::Int(1), text("plain")],
            vec![Json::Null, text("a,b")],
            vec![Json::Array(Vec::new()), text("say \"hi\"")],
            vec![text(""), text("two\nlines\r")],
        ],
    );
    assert_eq!(
        csv(&shown).unwrap(),
        "id,note\n1,plain\nNULL,\"a,b\"\n\"[1,2]\",\"say \"\"hi\"\"\"\n,\"two\nlines\r\"\n"
    );
    assert_eq!(csv(&result(&["a"], vec![vec![text("")]])).unwrap(), "a\n\"\"\n");
    assert_eq!(csv(&result(&[], Vec::new())).unwrap(), "\"\"\n");
}

#[test]
fn ragged_rows_are_no_csv() {
    let ragged = result(&["a", "b"], vec![vec![text("1"), text("2")], vec![text("3")]]);
    let broken = csv(&ragged).unwrap_err();
    assert_eq!(
        broken.report,
        "CSV error: found record with 1 fields, but the previous record has 2 fields"
    );
    assert_eq!(broken.written, "a,b\n1,2\n3");
    let rows = vec![vec![text("x"), text("y"), text("it \"is\"")], vec![text("1"), text("2")]];
    let broken = csv(&result(&["a", "b"], rows)).unwrap_err();
    assert_eq!(
        broken.report,
        "CSV error: found record with 3 fields, but the previous record has 2 fields"
    );
    assert_eq!(broken.written, "a,b\nx,y,\"it \"\"is\"\"");
    let broken = csv(&result(&["a"], vec![Vec::new()])).unwrap_err();
    assert_eq!(broken.written, "a\n");
    let broken = csv(&result(&[], vec![vec![text("x,y")]])).unwrap_err();
    assert_eq!(broken.written, "\"\"\n\"x,y");
}

#[test]
fn columns_that_share_a_name_share_a_member() {
    let row = vec![Json::Int(1), Json::Int(2), Json::Int(3)];
    let shown = result(&["a", "b", "a"], vec![row]);
    match print_result(&shown, OutputFormat::Jsonl, &rendered(&shown), "").unwrap() {
        Printed::Documents(documents) => {
            same(&documents[0], &object(vec![("a", Json::Int(3)), ("b", Json::Int(2))]));
        }
        _ => unreachable!(),
    }
}

#[test]
fn json_lines_hold_an_object_for_each_row() {
    let shown = result(
        &["id", "name"],
        vec![vec![Json::Int(7), text("x")], vec![Json::Int(8)]],
    );
    match print_result(&shown, OutputFormat::Jsonl, &rendered(&shown), "").unwrap() {
        Printed::Documents(documents) => {
            assert_eq!(documents.len(), 2);
            same(&documents[0], &object(vec![("id", Json::Int(7)), ("name", text("x"))]));
            same(&documents[1], &object(vec![("id", Json::Int(8))]));
        }
        _ => unreachable!(),
    }
}

#[test]
fn json_is_the_envelope_of_the_result() {
    let shown = result(&["id"], vec![vec![Json::Int(7)]]);
    match print_result(&shown, OutputFormat::Json, &rendered(&shown), "").unwrap() {
        Printed::Document(document) => {
            same(&document, &output::success("query", shown.document()));
        }
        _ => unreachable!(),
    }
}

#[test]
fn truncation_is_warned_of_where_the_format_does_not_show_it() {
    let mut shown = result(&["id"], vec![vec![Json::Int(7)]]);
    let formats =
        [OutputFormat::Json, OutputFormat::Jsonl, OutputFormat::Csv, OutputFormat::Table];
    assert!(formats.iter().all(|format| truncation_warning(&shown, *format).is_none()));
    shown.truncated = true;
    assert!(truncation_warning(&shown, OutputFormat::Json).is_none());
    for format in [OutputFormat::Jsonl, OutputFormat::Csv, OutputFormat::Table] {
        same(
            &truncation_warning(&shown, format).unwrap(),
            &object(vec![
                ("level", text("warning")),
                ("code", text("result_truncated")),
                ("message", text("query result reached the configured row limit")),
                ("data", object(vec![("row_count", Json::Int(1))])),
            ]),
        );
    }
}

#[test]
fn commands_answer_with_stable_envelopes() {
    same(
        &output::success("status", object(vec![("state", text("running"))])),
        &object(vec![
            ("ok", Json::Bool(true)),
            ("command", text("status")),
            ("data", object(vec![("state", text("running"))])),
        ]),
    );
    same(
        &output::error(output::CommandError::new("backend_not_found", "...", object(vec![]))),
        &object(vec![
            ("ok", Json::Bool(false)),
            (
                "error",
                object(vec![
                    ("code", text("backend_not_found")),
                    ("message", text("...")),
                    ("details", object(vec![])),
                ]),
            ),
        ]),
    );
}
