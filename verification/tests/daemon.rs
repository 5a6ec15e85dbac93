use duckdoor::config::Paths;
use duckdoor::daemon::{
    ensure_sqlite_path, follow_start, follow_stop, health, health_url, log_start, logs, pid_line,
    query_url, reload, reload_url, restart, running_pid, signalled, start, status, stop,
    DaemonAction, DaemonError, PidCheck, Probe, Progress, RestartEvent, RestartStep, StartLook,
};
use duckdoor::json::Json;

fn home() -> Paths {
    Paths::resolve(Some("/h".to_owned()), None).unwrap()
}

#[test]
fn pid_files_are_read_back() {
    for pid in [2, 77, u32::MAX] {
        assert_eq!(running_pid(&Some(pid_line(pid))).unwrap(), PidCheck::Ask(pid));
    }
    assert_eq!(pid_line(77), "77\n");
    assert_eq!(running_pid(&None).unwrap(), PidCheck::Nobody);
    for nobody in ["0", "1\n"] {
        assert_eq!(running_pid(&Some(nobody.to_owned())).unwrap(), PidCheck::Nobody);
    }
    for (invalid, cause) in [
        ("", "cannot parse integer from empty string"),
        ("x", "invalid digit found in string"),
        ("-3\n", "invalid digit found in string"),
        ("4294967296", "number too large to fit in target type"),
    ] {
        assert_eq!(
            running_pid(&Some(invalid.to_owned())).unwrap_err().message(),
            format!("pid file is invalid: {cause}")
        );
    }
}

#[test]
fn only_one_gateway_is_started() {
    assert!(start(None).is_ok());
    assert_eq!(
        start(Some(9)).unwrap_err().message(),
        "duckdoor is already running (pid 9)"
    );
}

#[test]
fn a_start_is_followed_until_the_child_is_healthy() {
    let look = |expired: bool, exited: Option<&str>, healthy_pid: Option<u64>| {
        follow_start(
            &StartLook { expired, exited: exited.map(str::to_owned), healthy_pid },
            40,
            "/h/duckdoor.log",
        )
    };
    assert!(matches!(look(false, None, None), Progress::Wait));
    assert!(matches!(look(false, None, Some(41)), Progress::Wait));
    assert!(matches!(
        look(false, None, Some(40)),
        Progress::Done(DaemonAction { state: "running", pid: 40 })
    ));
    match look(false, Some("exit status: 1"), Some(40)) {
        Progress::Failed(error) => assert_eq!(
            error.message(),
            "daemon exited during startup with exit status: 1; inspect /h/duckdoor.log"
        ),
        _ => unreachable!(),
    }
    match look(true, None, Some(40)) {
        Progress::Failed(error) => assert_eq!(
            error.message(),
            "daemon did not become healthy within 45 seconds; inspect /h/duckdoor.log"
        ),
        _ => unreachable!(),
    }
}

#[test]
fn a_stop_is_followed_until_the_process_is_gone() {
    assert_eq!(stop(Some(5)).unwrap(), 5);
    assert_eq!(stop(None).unwrap_err().message(), "duckdoor is not running");
    assert!(signalled(5, true).is_ok());
    assert_eq!(
        signalled(5, false).unwrap_err().message(),
        "could not signal daemon pid 5"
    );
    assert!(matches!(follow_stop(5, false, true), Progress::Wait));
    assert!(matches!(
        follow_stop(5, false, false),
        Progress::Done(DaemonAction { state: "stopped", pid: 5 })
    ));
    match follow_stop(5, true, true) {
        Progress::Failed(error) => {
            assert_eq!(error.message(), "daemon pid 5 did not stop within 15 seconds")
        }
        _ => unreachable!(),
    }
}

#[test]
fn a_restart_stops_what_runs_before_it_starts() {
    let action = |state: &'static str, pid: u32| DaemonAction { state, pid };
    assert!(matches!(restart(RestartEvent::Checked(Some(4))), RestartStep::Stop));
    assert!(matches!(restart(RestartEvent::Checked(None)), RestartStep::Start));
    assert!(matches!(
        restart(RestartEvent::Stopped(Ok(action("stopped", 4)))),
        RestartStep::Start
    ));
    assert!(matches!(
        restart(RestartEvent::Stopped(Err(DaemonError::DidNotStop(4)))),
        RestartStep::Failed(DaemonError::DidNotStop(4))
    ));
    assert!(matches!(
        restart(RestartEvent::Started(Ok(action("running", 8)))),
        RestartStep::Done(DaemonAction { state: "running", pid: 8 })
    ));
    assert!(matches!(
        restart(RestartEvent::Started(Err(DaemonError::NotHealthy { log: String::new() }))),
        RestartStep::Failed(DaemonError::NotHealthy { .. })
    ));
}

#[test]
fn the_status_holds_what_is_known() {
    let shown = |probe: Probe| format!("{:?}", status(probe, &home()).document());
    let expected = |members: Vec<(&str, Json)>| {
        format!(
            "{:?}",
            Json::Object(members.into_iter().map(|(n, v)| (n.to_owned(), v)).collect())
        )
    };
    let text = |s: &str| Json::Text(s.to_owned());
    assert_eq!(
        shown(Probe::Running { pid: 3, health: Ok(Json::Bool(true)) }),
        expected(vec![
            ("state", text("running")),
            ("pid", Json::Int(3)),
            ("health", Json::Bool(true)),
            ("home", text("/h")),
        ])
    );
    assert_eq!(
        shown(Probe::Running { pid: 3, health: Err("refused".to_owned()) }),
        expected(vec![
            ("state", text("unhealthy")),
            ("pid", Json::Int(3)),
            ("error", text("refused")),
            ("home", text("/h")),
        ])
    );
    assert_eq!(
        shown(Probe::Stopped { pid_file: true }),
        expected(vec![
            ("state", text("stopped")),
            ("error", text("stale pid file: /h/duckdoor.pid")),
            ("home", text("/h")),
        ])
    );
    assert_eq!(
        shown(Probe::Stopped { pid_file: false }),
        expected(vec![("state", text("stopped")), ("home", text("/h"))])
    );
}

#[test]
fn actions_are_documents() {
    let document = DaemonAction { state: "stopped", pid: 6 }.document();
    let expected = Json::Object(vec![
        ("state".to_owned(), Json::Text("stopped".to_owned())),
        ("pid".to_owned(), Json::Int(6)),
    ]);
    assert_eq!(format!("{document:?}"), format!("{expected:?}"));
}

#[test]
fn the_end_of_a_log_is_shown() {
    assert_eq!(log_start(10), 0);
    assert_eq!(log_start(1_048_576), 0);
    assert_eq!(log_start(1_048_579), 3);
    assert_eq!(logs("a\nb\nc\n", 2), ["b", "c"]);
    assert_eq!(logs("a\nb\nc", 9), ["a", "b", "c"]);
    assert!(logs("a\nb", 0).is_empty());
}

#[test]
fn the_gateway_is_reached_where_it_listens() {
    assert_eq!(health_url("127.0.0.1:9494"), "http://127.0.0.1:9494/healthz");
    assert_eq!(reload_url("h:1"), "http://h:1/v1/admin/reload");
    assert_eq!(query_url("h:1"), "http://h:1/v1/query");
    assert!(reload(true, "200 OK", "{}").is_ok());
    assert_eq!(
        reload(false, "401 Unauthorized", "{}").unwrap_err(),
        "reload failed (401 Unauthorized): {}"
    );
    assert!(health(true, "200 OK").is_ok());
    assert_eq!(
        health(false, "500 Internal Server Error").unwrap_err(),
        "health endpoint returned 500 Internal Server Error"
    );
}

#[test]
fn sources_are_regular_files() {
    assert_eq!(ensure_sqlite_path("/a".to_owned(), true).unwrap(), "/a");
    assert_eq!(
        ensure_sqlite_path("/a".to_owned(), false).unwrap_err(),
        "not a regular file: /a"
    );
}
