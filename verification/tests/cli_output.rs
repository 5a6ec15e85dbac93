use clap::{Arg, ArgAction, ArgGroup, Command};
use duckdoor::columns::ColumnMap;
use duckdoor::commands;
use duckdoor::config::{
    Backend, BackendType, Config, ConfigParts, LogicalView, MissingSourcePolicy, Paths, ViewMode,
};
use duckdoor::daemon::{status, Probe};
use duckdoor::json::Json;
use duckdoor::output::{error, success, CommandError};
use duckdoor::pool::{probe_config, QueryPool};
use duckdoor::registry::{check_new_backend, default_source_column, get_view, parse_input};
use duckdoor::sources::infer_backend_type;
use duckdoor::transaction::{mutate_config, save_and_reload, Action, Change, Event};
use duckdoor::validate::{load_config, parse_qualified_view_name, save_config};

/// The command line, as far as the cases below need it.
fn cli() -> Command {
    Command::new("duckdoor")
        .arg(Arg::new("home").long("home").value_name("HOME").global(true))
        .subcommand_required(true)
        .arg_required_else_help(true)
        .subcommand(
            Command::new("add")
                .arg(Arg::new("name").value_name("NAME").required(true))
                .arg(Arg::new("path").value_name("PATH").required(true))
                .arg(Arg::new("relation").long("relation").value_name("RELATION"))
                .arg(Arg::new("disabled").long("disabled").action(ArgAction::SetTrue)),
        )
        .subcommand(
            Command::new("remove")
                .arg(Arg::new("name").value_name("NAME"))
                .arg(Arg::new("all").long("all").action(ArgAction::SetTrue))
                .group(ArgGroup::new("target").args(["name", "all"]).required(true)),
        )
}

/// The document that arguments which are not understood are answered with.
fn refused(arguments: &[&str]) -> Json {
    let given = std::iter::once("duckdoor").chain(arguments.iter().copied());
    let unclear = cli().try_get_matches_from(given).unwrap_err();
    assert_eq!(unclear.exit_code(), 2);
    error(commands::invalid_arguments(&unclear.to_string()))
}

fn at<'a>(document: &'a Json, path: &[&str]) -> &'a Json {
    path.iter().fold(document, |found, step| match found {
        Json::Object(members) => {
            &members.iter().find(|(name, _)| name == step).unwrap_or_else(|| panic!("{step}")).1
        }
        Json::Array(items) => &items[step.parse::<usize>().unwrap()],
        _ => panic!("{step}"),
    })
}

fn text<'a>(document: &'a Json, path: &[&str]) -> &'a str {
    match at(document, path) {
        Json::Text(text) => text,
        other => panic!("{other:?}"),
    }
}

fn flag(document: &Json, path: &[&str]) -> bool {
    matches!(at(document, path), Json::Bool(true))
}

fn number(document: &Json, path: &[&str]) -> i128 {
    match at(document, path) {
        Json::Int(number) => *number,
        other => panic!("{other:?}"),
    }
}

fn empty_home() -> Config {
    load_config(&ConfigParts::empty(), Some(2)).unwrap()
}

fn sqlite(name: &str, path: &str, enabled: bool) -> Backend {
    Backend {
        name: name.to_owned(),
        kind: BackendType::Sqlite,
        path: path.to_owned(),
        relation: None,
        enabled,
    }
}

/// Carries out a change where no gateway runs; what is saved is loaded again.
fn carry_out(previous: &Config, change: Change) -> Result<(Config, bool), CommandError> {
    let mutation = mutate_config(previous, change)?;
    let mut saved = load_config(&save_config(previous).unwrap(), None).unwrap();
    let mut event = Event::Mutated(Ok(mutation.changed));
    loop {
        event = match save_and_reload(event) {
            Action::Probe => {
                let probe = probe_config(&mutation.updated);
                let found = vec![Vec::new(); probe.backends.len()];
                let pool = QueryPool::new(&probe, &found, "");
                Event::Probed(pool.map(|_| ()).map_err(|error| error.message()))
            }
            Action::Save => {
                saved = load_config(&save_config(&mutation.updated).unwrap(), None).unwrap();
                Event::Saved(Ok(()))
            }
            Action::Look => Event::Looked(Ok(false)),
            Action::Done { reloaded } => return Ok((saved, reloaded)),
            Action::Fail(error) => return Err(error),
            other => panic!("{other:?}"),
        };
    }
}

fn view(name: &str, input: &str, policy: MissingSourcePolicy, source: Option<String>) -> LogicalView {
    let (schema, name) = parse_qualified_view_name(name).unwrap();
    LogicalView {
        name,
        schema,
        enabled: true,
        mode: ViewMode::default(),
        missing_source_policy: policy,
        source_column: source,
        columns: ColumnMap::new(),
        inputs: vec![parse_input(input).unwrap()],
    }
}

#[test]
fn finite_commands_emit_one_json_document() {
    let paths = Paths::resolve(Some("/home".to_owned()), None).unwrap();
    let probe = Probe::Stopped { pid_file: false };
    let value = success("status", status(probe, &paths).document());
    assert!(flag(&value, &["ok"]));
    assert_eq!(text(&value, &["command"]), "status");
    assert_eq!(text(&value, &["data", "state"]), "stopped");
    let value = success("list", commands::list(&empty_home()));
    assert!(flag(&value, &["ok"]));
    assert_eq!(text(&value, &["command"]), "list");
    assert!(matches!(at(&value, &["data", "backends"]), Json::Array(items) if items.is_empty()));
}

#[test]
fn add_infers_and_validates_duckdb_and_parquet_sources() {
    let mut config = empty_home();
    for (name, path, relation) in [
        ("warehouse", "/sources/warehouse.duckdb", None),
        ("archive", "/sources/archive.parquet", Some("events")),
    ] {
        let backend = Backend {
            name: name.to_owned(),
            kind: infer_backend_type(path, false),
            path: path.to_owned(),
            relation: relation.map(str::to_owned),
            enabled: true,
        };
        config = carry_out(&config, Change::AddBackend(backend)).unwrap().0;
    }
    let value = success("list", commands::list(&config));
    assert_eq!(text(&value, &["data", "backends", "0", "name"]), "archive");
    assert_eq!(text(&value, &["data", "backends", "0", "type"]), "parquet");
    assert_eq!(text(&value, &["data", "backends", "0", "relation"]), "events");
    assert_eq!(text(&value, &["data", "backends", "1", "name"]), "warehouse");
    assert_eq!(text(&value, &["data", "backends", "1", "type"]), "duckdb");
    let value = success("test", commands::test(&config.backends[0], 1));
    assert_eq!(number(&value, &["data", "resolved_files"]), 1);
    assert!(flag(&value, &["data", "read_only"]));
}

#[test]
fn invalid_arguments_emit_json_to_stderr() {
    let value = refused(&["unknown-command"]);
    assert!(!flag(&value, &["ok"]));
    assert_eq!(text(&value, &["error", "code"]), "invalid_arguments");
    assert!(text(&value, &["error", "message"]).contains("unrecognized subcommand"));
    assert_eq!(
        text(&value, &["error", "message"]),
        "unrecognized subcommand 'unknown-command'"
    );
    assert_eq!(text(&value, &["error", "details", "usage"]), "duckdoor [OPTIONS] <COMMAND>");
}

#[test]
fn invalid_configuration_has_a_specific_actionable_error() {
    let mut parts = ConfigParts::empty();
    parts.workers = Some(0);
    let cause = load_config(&parts, None).unwrap_err().message();
    let value = error(commands::invalid_configuration("/home/config.toml", &cause));
    assert_eq!(text(&value, &["error", "code"]), "invalid_configuration");
    assert!(text(&value, &["error", "details", "cause"])
        .contains("workers must be between 1 and 64"));
    assert!(matches!(at(&value, &["error", "details", "resolution"]), Json::Text(_)));
}

#[test]
fn add_missing_path_identifies_the_field_and_exact_usage() {
    let value = refused(&["add", "music"]);
    assert_eq!(text(&value, &["error", "code"]), "invalid_arguments");
    assert!(text(&value, &["error", "message"]).contains("<PATH>"));
    assert_eq!(text(&value, &["error", "details", "usage"]), "duckdoor add <NAME> <PATH>");
}

#[test]
fn duplicate_backend_name_is_reported_before_path_validation() {
    let mut config = empty_home();
    config.backends.push(sqlite("music", "/home/existing.sqlite", true));
    let attempted = "/home/does-not-exist.sqlite";
    let value = error(check_new_backend(&config, "music", attempted).unwrap_err());
    assert_eq!(text(&value, &["error", "code"]), "backend_already_exists");
    assert_eq!(text(&value, &["error", "details", "existing", "name"]), "music");
    assert_eq!(text(&value, &["error", "details", "attempted_path"]), attempted);
}

#[test]
fn remove_all_is_atomic_idempotent_and_preserves_source_files() {
    let mut config = empty_home();
    config.backends.push(sqlite("first", "/home/first.sqlite", true));
    config.backends.push(sqlite("second", "/home/second.sqlite", false));
    let removed = mutate_config(&config, Change::RemoveAll).unwrap().removed;
    let (saved, reloaded) = carry_out(&config, Change::RemoveAll).unwrap();
    let value = success("remove", commands::remove(true, &removed, reloaded));
    assert_eq!(text(&value, &["data", "scope"]), "all");
    assert!(flag(&value, &["data", "changed"]));
    assert_eq!(number(&value, &["data", "removed_count"]), 2);
    assert_eq!(number(&value, &["data", "source_files_deleted"]), 0);
    assert!(!flag(&value, &["data", "configuration_reloaded"]));
    let removed = mutate_config(&saved, Change::RemoveAll).unwrap().removed;
    let (_, reloaded) = carry_out(&saved, Change::RemoveAll).unwrap();
    let value = success("remove", commands::remove(true, &removed, reloaded));
    assert!(!flag(&value, &["data", "changed"]));
    assert_eq!(number(&value, &["data", "removed_count"]), 0);
    assert!(matches!(at(&value, &["data", "removed"]), Json::Array(items) if items.is_empty()));
}

#[test]
fn remove_requires_exactly_one_name_or_all() {
    for arguments in [vec!["remove"], vec!["remove", "app", "--all"]] {
        let value = refused(&arguments);
        assert_eq!(text(&value, &["error", "code"]), "invalid_arguments");
        assert!(matches!(at(&value, &["error", "details", "help"]), Json::Text(_)));
        assert!(matches!(at(&value, &["error", "details", "usage"]), Json::Text(_)));
    }
}

#[test]
fn logical_view_commands_are_structured_and_persistent() {
    let config = empty_home();
    let added = || view("unified.events", "missing=events", MissingSourcePolicy::default(), None);
    let (saved, reloaded) = carry_out(&config, Change::AddView(added())).unwrap();
    let value = success("view.add", commands::view_add(&saved, &added(), reloaded));
    assert_eq!(text(&value, &["command"]), "view.add");
    assert_eq!(text(&value, &["data", "resolution", "status"]), "unavailable");
    assert_eq!(
        text(&value, &["data", "resolution", "skipped_sources", "0", "reason"]),
        "not_registered"
    );
    let (schema, name) = parse_qualified_view_name("unified.events").unwrap();
    let shown = get_view(&saved, &schema, &name).unwrap();
    let value = success("view.show", commands::view_show(&saved, shown));
    assert_eq!(text(&value, &["command"]), "view.show");
    assert!(matches!(at(&value, &["data", "compiled_sql"]), Json::Null));
    assert_eq!(text(&value, &["data", "view", "inputs", "0", "relation"]), "events");
}

#[test]
fn strict_missing_view_source_fails_without_saving_configuration() {
    let config = empty_home();
    let strict = view(
        "unified.events",
        "missing=events",
        MissingSourcePolicy::Error,
        Some(default_source_column()),
    );
    let value = error(carry_out(&config, Change::AddView(strict)).unwrap_err());
    assert_eq!(text(&value, &["error", "code"]), "configuration_validation_failed");
    assert!(!flag(&value, &["error", "details", "configuration_changed"]));
    assert!(text(&value, &["error", "details", "cause"]).contains("unregistered backend missing"));
    let value = success("view.list", commands::view_list(&config));
    assert_eq!(number(&value, &["data", "count"]), 0);
}
