use duckdoor::columns::ColumnMap;
use duckdoor::commands;
use duckdoor::config::{
    Backend, BackendType, Config, LogicalView, MissingSourcePolicy, Paths, ViewInput, ViewMode,
};
use duckdoor::json::Json;
use duckdoor::registry::{
    add_backend, add_view, check_new_backend, default_source_column, enabling, find_backend,
    get_view,
    parse_input, remove_all, remove_backend, set_enabled,
};
use duckdoor::transaction::{mutate_config, save_and_reload, Action, Change, Event};

fn entry(name: &str, kind: BackendType) -> Backend {
    Backend {
        name: name.to_owned(),
        kind,
        path: format!("/data/{name}"),
        relation: None,
        enabled: true,
    }
}

fn registered(names: &[&str]) -> Config {
    let mut config = Config::for_parallelism(Some(1));
    for name in names {
        config.backends.push(entry(name, BackendType::Sqlite));
    }
    config
}

fn events(inputs: Vec<ViewInput>) -> LogicalView {
    LogicalView {
        name: "events".to_owned(),
        schema: "unified".to_owned(),
        enabled: true,
        mode: ViewMode::UnionAllByName,
        missing_source_policy: MissingSourcePolicy::Skip,
        source_column: None,
        columns: ColumnMap::new(),
        inputs,
    }
}

fn names(config: &Config) -> Vec<&str> {
    config.backends.iter().map(|b| b.name.as_str()).collect()
}

fn word(s: &str) -> Json {
    Json::Text(s.to_owned())
}

fn record(members: Vec<(&str, Json)>) -> Json {
    Json::Object(members.into_iter().map(|(n, v)| (n.to_owned(), v)).collect())
}

fn equal(a: &Json, b: &Json) {
    assert_eq!(format!("{a:?}"), format!("{b:?}"));
}

fn described(name: &str) -> Json {
    record(vec![
        ("name", word(name)),
        ("type", word("sqlite")),
        ("path", word(&format!("/data/{name}"))),
        ("enabled", Json::Bool(true)),
    ])
}

#[test]
fn a_name_that_is_taken_is_reported_with_what_has_it() {
    let mut config = registered(&["music"]);
    let error = check_new_backend(&config, "music", "/does-not-exist.sqlite").unwrap_err();
    assert_eq!(error.code, "backend_already_exists");
    assert_eq!(error.message, "backend already exists: music");
    equal(
        &error.details,
        &record(vec![
            ("existing", described("music")),
            ("attempted_path", word("/does-not-exist.sqlite")),
        ]),
    );
    assert!(check_new_backend(&config, "other", "anything").is_ok());
    assert!(add_backend(&mut config, entry("music", BackendType::Duckdb)).is_err());
    assert_eq!(config.backends.len(), 1);
    assert_eq!(config.backends[0].kind, BackendType::Sqlite);
}

#[test]
fn removing_undoes_adding() {
    let mut config = registered(&["a", "c"]);
    add_backend(&mut config, entry("b", BackendType::Duckdb)).unwrap();
    let removed = remove_backend(&mut config, "b").unwrap();
    assert_eq!(removed.len(), 1);
    assert_eq!(names(&config), ["a", "c"]);
    let added = mutate_config(&config, Change::AddBackend(entry("b", BackendType::Duckdb))).unwrap();
    assert_eq!(names(&added.updated), ["a", "b", "c"]);
    let back = mutate_config(&added.updated, Change::RemoveBackend("b".to_owned())).unwrap();
    assert_eq!(format!("{:?}", back.updated), format!("{config:?}"));
}

#[test]
fn unknown_backends_are_reported() {
    let mut config = registered(&["a"]);
    let errors = [
        find_backend(&config.backends, "x").unwrap_err(),
        remove_backend(&mut config, "x").unwrap_err(),
        set_enabled(&mut config, "x", true).unwrap_err(),
    ];
    for error in errors {
        assert_eq!(error.code, "backend_not_found");
        assert_eq!(error.message, "unknown backend: x");
    }
    assert_eq!(names(&config), ["a"]);
    assert_eq!(find_backend(&config.backends, "a").unwrap(), 0);
}

#[test]
fn removing_all_is_idempotent_and_keeps_the_views() {
    let mut config = registered(&["a", "b"]);
    config.views.push(events(vec![parse_input("a=events").unwrap()]));
    assert_eq!(remove_all(&mut config).len(), 2);
    assert!(config.backends.is_empty());
    assert_eq!(config.views.len(), 1);
    assert!(remove_all(&mut config).is_empty());
    let again = mutate_config(&config, Change::RemoveAll).unwrap();
    assert!(!again.changed);
    equal(
        &commands::remove(true, &again.removed, false),
        &record(vec![
            ("scope", word("all")),
            ("changed", Json::Bool(false)),
            ("removed_count", Json::Int(0)),
            ("removed", Json::Array(Vec::new())),
            ("source_files_deleted", Json::Int(0)),
            ("configuration_reloaded", Json::Bool(false)),
        ]),
    );
}

#[test]
fn switching_back_undoes_switching() {
    let mut config = registered(&["a", "b"]);
    assert!(!set_enabled(&mut config, "b", true).unwrap());
    assert!(set_enabled(&mut config, "b", false).unwrap());
    assert!(!config.backends[1].enabled);
    assert!(config.backends[0].enabled);
    assert!(set_enabled(&mut config, "b", true).unwrap());
    assert_eq!(format!("{config:?}"), format!("{:?}", registered(&["a", "b"])));
}

#[test]
fn inputs_are_a_backend_and_a_relation() {
    let input = parse_input("warehouse=main.events").unwrap();
    assert_eq!((input.backend.as_str(), input.relation.as_str()), ("warehouse", "main.events"));
    assert_eq!(parse_input("a=b=c").unwrap().relation, "b=c");
    assert_eq!(parse_input("warehouse").unwrap_err(), "input must be BACKEND=RELATION");
    assert_eq!(default_source_column(), "_source_backend");
}

#[test]
fn a_view_is_defined_once() {
    let mut config = registered(&[]);
    add_view(&mut config, events(vec![parse_input("missing=events").unwrap()])).unwrap();
    let error = add_view(&mut config, events(Vec::new())).unwrap_err();
    assert_eq!(error.code, "view_already_exists");
    assert_eq!(error.message, "view already exists: unified.events");
    assert_eq!(config.views.len(), 1);
    assert!(get_view(&config, "unified", "events").is_ok());
    let error = get_view(&config, "other", "events").unwrap_err();
    assert_eq!(error.code, "view_not_found");
    assert_eq!(error.message, "unknown view: other.events");
}

#[test]
fn backends_are_listed_with_what_they_are() {
    let mut config = registered(&["app"]);
    config.backends.push(Backend {
        relation: Some("events".to_owned()),
        enabled: false,
        ..entry("archive", BackendType::Parquet)
    });
    equal(
        &commands::list(&config),
        &record(vec![
            (
                "backends",
                Json::Array(vec![
                    described("app"),
                    record(vec![
                        ("name", word("archive")),
                        ("type", word("parquet")),
                        ("path", word("/data/archive")),
                        ("relation", word("events")),
                        ("enabled", Json::Bool(false)),
                    ]),
                ]),
            ),
            ("count", Json::Int(2)),
        ]),
    );
    equal(
        &commands::test(&config.backends[1], 3),
        &record(vec![
            ("name", word("archive")),
            ("type", word("parquet")),
            ("path", word("/data/archive")),
            ("resolved_files", Json::Int(3)),
            ("read_only", Json::Bool(true)),
        ]),
    );
}

#[test]
fn changes_are_answered_with_whether_the_gateway_reloaded() {
    equal(
        &commands::add(&entry("app", BackendType::Sqlite), true),
        &record(vec![
            ("backend", described("app")),
            ("changed", Json::Bool(true)),
            ("configuration_reloaded", Json::Bool(true)),
        ]),
    );
    equal(
        &commands::remove(false, &vec![entry("app", BackendType::Sqlite)], true),
        &record(vec![
            ("scope", word("one")),
            ("changed", Json::Bool(true)),
            ("removed_count", Json::Int(1)),
            ("removed", Json::Array(vec![described("app")])),
            ("source_files_deleted", Json::Int(0)),
            ("configuration_reloaded", Json::Bool(true)),
        ]),
    );
    equal(
        &commands::set_enabled("app", false, true, false),
        &record(vec![
            ("name", word("app")),
            ("enabled", Json::Bool(false)),
            ("changed", Json::Bool(true)),
            ("configuration_reloaded", Json::Bool(false)),
        ]),
    );
}

fn view_described(relation: &str) -> Json {
    record(vec![
        ("name", word("events")),
        ("schema", word("unified")),
        ("qualified_name", word("unified.events")),
        ("enabled", Json::Bool(true)),
        ("mode", word("union_all_by_name")),
        ("missing_source_policy", word("skip")),
        ("source_column", Json::Null),
        ("columns", record(vec![])),
        (
            "inputs",
            Json::Array(vec![record(vec![
                ("backend", word("missing")),
                ("relation", word(relation)),
                ("columns", record(vec![])),
            ])]),
        ),
    ])
}

fn unavailable() -> Json {
    record(vec![
        ("status", word("unavailable")),
        ("resolved_sources", Json::Array(Vec::new())),
        (
            "skipped_sources",
            Json::Array(vec![record(vec![
                ("backend", word("missing")),
                ("reason", word("not_registered")),
            ])]),
        ),
    ])
}

#[test]
fn views_are_shown_with_what_they_are_resolved_to() {
    let mut config = registered(&[]);
    let view = events(vec![parse_input("missing=events").unwrap()]);
    equal(
        &commands::view_add(&config, &view, false),
        &record(vec![
            ("view", view_described("events")),
            ("resolution", unavailable()),
            ("changed", Json::Bool(true)),
            ("configuration_reloaded", Json::Bool(false)),
        ]),
    );
    equal(
        &commands::view_show(&config, &view),
        &record(vec![
            ("view", view_described("events")),
            ("resolution", unavailable()),
            ("compiled_sql", Json::Null),
        ]),
    );
    config.views.push(view);
    equal(
        &commands::view_list(&config),
        &record(vec![
            (
                "views",
                Json::Array(vec![record(vec![
                    ("view", view_described("events")),
                    ("resolution", unavailable()),
                ])]),
            ),
            ("count", Json::Int(1)),
        ]),
    );
    config.backends.push(entry("missing", BackendType::Duckdb));
    match commands::view_show(&config, &config.views[0]) {
        Json::Object(members) => equal(
            &members[2].1,
            &word(
                "CREATE SCHEMA IF NOT EXISTS \"unified\";\nCREATE VIEW \"unified\".\"events\" AS\n\
                 SELECT * FROM \"missing\".\"events\";",
            ),
        ),
        _ => unreachable!(),
    }
}

#[test]
fn an_invalid_configuration_has_an_actionable_error() {
    let error = commands::invalid_configuration("/h/config.toml", "workers must be between 1 and 64");
    assert_eq!(error.code, "invalid_configuration");
    equal(
        &error.details,
        &record(vec![
            ("path", word("/h/config.toml")),
            ("cause", word("workers must be between 1 and 64")),
            ("resolution", word("correct the file and run `duckdoor doctor`")),
        ]),
    );
}

fn address(text: &str, loopback: bool) -> Result<commands::Address, String> {
    Ok(commands::Address { text: text.to_owned(), loopback })
}

fn findings(config: &Config) -> commands::Findings {
    commands::Findings {
        address: address("127.0.0.1:9494", true),
        backends: config.backends.iter().map(|_| Ok(())).collect(),
        engine: Ok(()),
        daemon: Json::Null,
        daemon_error: None,
    }
}

#[test]
fn the_doctor_reports_the_first_check_that_fails() {
    let paths = Paths::resolve(Some("/h".to_owned()), None).unwrap();
    let config = registered(&["a", "b"]);
    let report = |found: commands::Findings| commands::doctor(&paths, &config, found).unwrap_err();
    let broken = || commands::Findings {
        address: Err("invalid socket address syntax".to_owned()),
        backends: vec![Ok(()), Err("no file".to_owned())],
        engine: Err("no pool".to_owned()),
        daemon_error: Some("refused".to_owned()),
        ..findings(&config)
    };
    assert_eq!(
        report(broken()).message,
        "listen must be an IP socket address: invalid socket address syntax"
    );
    let found = commands::Findings { address: address("0.0.0.0:1", false), ..broken() };
    assert_eq!(report(found).message, "backend b failed: no file");
    let found = commands::Findings {
        address: address("127.0.0.1:1", true),
        backends: vec![Ok(()), Ok(())],
        ..broken()
    };
    assert_eq!(report(found).message, "engine: no pool");
    let found = commands::Findings { daemon_error: Some("refused".to_owned()), ..findings(&config) };
    assert_eq!(report(found).message, "daemon: refused");
    assert_eq!(report(broken()).code, "doctor_check_failed");
}

#[test]
fn the_doctor_warns_of_addresses_that_others_can_reach() {
    let paths = Paths::resolve(Some("/h".to_owned()), None).unwrap();
    let config = registered(&["a"]);
    let warnings = |loopback: bool| {
        let found =
            commands::Findings { address: address("[::]:9494", loopback), ..findings(&config) };
        match commands::doctor(&paths, &config, found).unwrap() {
            Json::Object(members) => {
                assert_eq!(members[5].0, "duckdb_version");
                members.into_iter().find(|(name, _)| name == "warnings").unwrap().1
            }
            _ => unreachable!(),
        }
    };
    equal(&warnings(true), &Json::Array(Vec::new()));
    equal(
        &warnings(false),
        &Json::Array(vec![word(
            "[::]:9494 is not loopback; put authentication and TLS in front of duckdoor",
        )]),
    );
}

#[test]
fn changes_that_are_not_valid_are_not_made() {
    let config = registered(&["a"]);
    let wrong = Backend { path: "relative".to_owned(), ..entry("b", BackendType::Sqlite) };
    let error = mutate_config(&config, Change::AddBackend(wrong)).unwrap_err();
    assert_eq!(error.code, "configuration_validation_failed");
    equal(
        &error.details,
        &record(vec![
            ("phase", word("validate")),
            ("configuration_changed", Json::Bool(false)),
            ("cause", word("backend path must be absolute: relative")),
        ]),
    );
    let off = Change::SetEnabled { name: "a".to_owned(), enabled: false };
    let disabled = mutate_config(&config, off).unwrap();
    assert!(disabled.changed && !disabled.updated.backends[0].enabled);
    let on = Change::SetEnabled { name: "a".to_owned(), enabled: true };
    assert!(!mutate_config(&config, on).unwrap().changed);
    let viewed = Change::AddView(events(vec![parse_input("a=events").unwrap()]));
    assert_eq!(mutate_config(&config, viewed).unwrap().updated.views.len(), 1);
}

/// Carries out a change on a file and a gateway that are given by letters.
fn carry_out(
    trial: Option<Result<(), &str>>,
    mutation: Result<bool, &str>,
    results: [Result<(), &str>; 4],
    running: bool,
) -> (char, char, String) {
    let [probe, save, reload, restore] = results.map(|r| r.map_err(str::to_owned));
    let (mut saved, mut served) = ('p', 'p');
    let mut event = Event::Tried(trial.map(|trial| trial.map_err(str::to_owned)));
    loop {
        event = match save_and_reload(event) {
            Action::Mutate => Event::Mutated(mutation.map_err(duckdoor::output::failed)),
            Action::Probe => Event::Probed(probe.clone()),
            Action::Save => {
                if save.is_ok() {
                    saved = 'u';
                }
                Event::Saved(save.clone())
            }
            Action::Look => Event::Looked(Ok(running)),
            Action::Reload => {
                if reload.is_ok() {
                    served = saved;
                }
                Event::Reloaded(reload.clone())
            }
            Action::Restore { report } => {
                if restore.is_ok() {
                    saved = 'p';
                }
                Event::Restored { report, result: restore.clone() }
            }
            Action::Revert { report } => {
                served = saved;
                Event::Reverted { report }
            }
            Action::Done { reloaded } => return (saved, served, format!("reloaded={reloaded}")),
            Action::Fail(error) => return (saved, served, format!("{}: {}", error.code, error.message)),
        };
    }
}

#[test]
fn changes_are_saved_and_served_or_taken_back() {
    let ok: Result<(), &str> = Ok(());
    assert_eq!(carry_out(None, Ok(true), [ok; 4], false), ('u', 'p', "reloaded=false".to_owned()));
    assert_eq!(carry_out(None, Ok(true), [ok; 4], true), ('u', 'u', "reloaded=true".to_owned()));
    assert_eq!(
        carry_out(None, Ok(true), [Err("no file"), ok, ok, ok], true),
        (
            'p',
            'p',
            "configuration_validation_failed: the change was not saved: no file".to_owned()
        )
    );
    assert_eq!(
        carry_out(None, Ok(true), [ok, Err("disk"), ok, ok], true),
        (
            'p',
            'p',
            "configuration_save_failed: could not save the configuration: disk".to_owned()
        )
    );
    assert_eq!(
        carry_out(None, Ok(true), [ok, ok, Err("refused"), ok], true),
        (
            'p',
            'p',
            "reload_rolled_back: daemon rejected the change; configuration was rolled back: \
             refused"
                .to_owned()
        )
    );
    assert_eq!(
        carry_out(None, Ok(true), [ok, ok, Err("refused"), Err("disk")], true),
        (
            'u',
            'p',
            "rollback_failed: reload failed and configuration rollback also failed: disk".to_owned()
        )
    );
    for trial in [None, Some(ok)] {
        assert_eq!(
            carry_out(trial, Ok(false), [Err("no file"), ok, ok, ok], true),
            ('p', 'p', "reloaded=false".to_owned())
        );
        assert_eq!(
            carry_out(trial, Ok(true), [ok; 4], true),
            ('u', 'u', "reloaded=true".to_owned())
        );
        assert_eq!(
            carry_out(trial, Err("no such backend"), [ok; 4], true),
            ('p', 'p', "command_failed: no such backend".to_owned())
        );
    }
    for mutation in [Ok(true), Ok(false), Err("no such backend")] {
        assert_eq!(
            carry_out(Some(Err("no file")), mutation, [ok; 4], true),
            ('p', 'p', "command_failed: backend test failed: no file".to_owned())
        );
    }
    match save_and_reload(Event::Looked(Err("no answer".to_owned()))) {
        Action::Fail(error) => assert_eq!(error.code, "daemon_state_unknown"),
        _ => unreachable!(),
    }
}

#[test]
fn arguments_that_are_not_understood_are_reported_with_the_usage() {
    let error = commands::invalid_arguments(
        "error: the following required arguments were not provided:\n  <PATH>\n\n\
         Usage: duckdoor add <NAME> <PATH>\n\nFor more information, try '--help'.\n",
    );
    assert_eq!(error.code, "invalid_arguments");
    assert_eq!(
        error.message,
        "the following required arguments were not provided:\n  <PATH>"
    );
    equal(
        &error.details,
        &record(vec![
            ("usage", word("duckdoor add <NAME> <PATH>")),
            ("help", word("run `duckdoor --help` for the commands and their arguments")),
        ]),
    );
    let bare = commands::invalid_arguments("nothing");
    assert_eq!(bare.message, "nothing");
    match bare.details {
        Json::Object(members) => equal(&members[0].1, &word("duckdoor [OPTIONS] <COMMAND>")),
        _ => unreachable!(),
    }
}

#[test]
fn only_a_backend_that_is_enabled_is_tried() {
    let config = registered(&["a", "b"]);
    assert_eq!(enabling(&config, "b", true).unwrap(), Some(1));
    assert_eq!(enabling(&config, "b", false).unwrap(), None);
    for enabled in [true, false] {
        let error = enabling(&config, "c", enabled).unwrap_err();
        assert_eq!(error.code, "backend_not_found");
        assert_eq!(error.message, "unknown backend: c");
    }
}
