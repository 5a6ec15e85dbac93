use std::io::Write;
use std::path::Path;

use duckdoor::columns::ColumnMap;
use duckdoor::config::{
    Backend, BackendParts, BackendType, Config, ConfigParts, LogicalView, MissingSourcePolicy,
    Paths, ViewInput, ViewMode, ViewParts, DEFAULT_LISTEN,
};
use duckdoor::quote::quote_ident;
use duckdoor::server::admin_token;
use duckdoor::validate::{
    load_config, parse_qualified_view_name, save_config, validate_config, validate_data_type,
    validate_name, validate_relation,
};

fn backend(name: &str, kind: BackendType, relation: Option<&str>) -> Backend {
    Backend {
        name: name.to_owned(),
        kind,
        path: format!("/data/{name}"),
        relation: relation.map(str::to_owned),
        enabled: true,
    }
}

fn input(backend: &str, relation: &str) -> ViewInput {
    ViewInput {
        backend: backend.to_owned(),
        relation: relation.to_owned(),
        columns: ColumnMap::new(),
    }
}

fn view(schema: &str, name: &str, inputs: Vec<ViewInput>) -> LogicalView {
    LogicalView {
        name: name.to_owned(),
        schema: schema.to_owned(),
        enabled: true,
        mode: ViewMode::default(),
        missing_source_policy: MissingSourcePolicy::default(),
        source_column: None,
        columns: ColumnMap::new(),
        inputs,
    }
}

fn config() -> Config {
    Config::for_parallelism(Some(2))
}

fn report(mut config: Config) -> String {
    validate_config(&mut config).unwrap_err().message()
}

#[test]
fn backend_names_are_sql_identifier_safe() {
    for name in ["app_a", "Logs2", "_metrics"] {
        assert!(validate_name(name).is_ok());
    }
    for name in ["", "2bad", "bad-name", "a b", "x.y"] {
        assert!(validate_name(name).is_err());
    }
}

#[test]
fn names_have_at_most_sixty_three_characters() {
    assert!(validate_name(&"a".repeat(63)).is_ok());
    assert!(validate_name(&"a".repeat(64)).is_err());
    assert!(validate_name("é").is_err());
    assert_eq!(
        validate_name("a-b").unwrap_err().message(),
        "identifier must match [A-Za-z_][A-Za-z0-9_]{0,62}"
    );
}

#[test]
fn config_round_trip() {
    let dir = tempfile::tempdir().unwrap();
    let paths = Paths::resolve(Some(dir.path().to_string_lossy().into_owned()), None).unwrap();
    let saved = save_config(&Config::for_parallelism(None)).unwrap();
    let config = load_config(&saved, None).unwrap();
    assert_eq!(config.version, 1);
    assert_eq!(config.listen, DEFAULT_LISTEN);
    assert!(config.views.is_empty());
    let mut token = tempfile::NamedTempFile::new_in(dir.path()).unwrap();
    token.write_all(admin_token(&vec![7; 32]).as_bytes()).unwrap();
    token.persist(&paths.admin_token).unwrap();
    assert!(Path::new(&paths.admin_token).exists());
}

#[test]
fn old_backend_configuration_defaults_to_sqlite() {
    let table: toml::Table =
        toml::from_str("name = 'app'\npath = '/tmp/app.sqlite'\nenabled = true\n").unwrap();
    assert!(!table.contains_key("type"));
    let parts = BackendParts {
        name: table["name"].as_str().unwrap().to_owned(),
        kind: None,
        path: table["path"].as_str().unwrap().to_owned(),
        relation: None,
        enabled: table["enabled"].as_bool(),
    };
    let backend = parts.complete();
    assert_eq!(backend.kind, BackendType::Sqlite);
    assert_eq!(backend.relation(), "data");
}

#[test]
fn a_configuration_without_anything_is_the_default() {
    let config = load_config(&ConfigParts::empty(), None).unwrap();
    assert_eq!(config.version, 1);
    assert_eq!(config.listen, DEFAULT_LISTEN);
    assert_eq!(config.workers, 4);
    assert_eq!(config.threads_per_worker, 1);
    assert_eq!(config.max_rows, 10_000);
    assert_eq!(config.request_timeout_seconds, 300);
    assert!(config.backends.is_empty());
    assert!(config.views.is_empty());
}

#[test]
fn there_are_from_one_to_eight_workers_by_default() {
    for (reported, expected) in [(None, 4), (Some(0), 1), (Some(1), 1), (Some(8), 8), (Some(96), 8)] {
        assert_eq!(Config::for_parallelism(reported).workers, expected);
    }
}

#[test]
fn what_was_saved_is_loaded_back() {
    let mut given = config();
    given.backends.push(backend("zeta", BackendType::Duckdb, None));
    given.backends.push(backend("alpha", BackendType::Parquet, Some("events")));
    given.views.push(view("unified", "b", vec![input("zeta", "t")]));
    given.views.push(view("a", "z", vec![input("zeta", "main.t")]));
    let parts = save_config(&given).unwrap();
    let loaded = load_config(&parts, Some(64)).unwrap();
    assert_eq!(loaded.workers, 2);
    let names: Vec<&str> = loaded.backends.iter().map(|b| b.name.as_str()).collect();
    assert_eq!(names, ["alpha", "zeta"]);
    let views: Vec<String> = loaded.views.iter().map(LogicalView::qualified_name).collect();
    assert_eq!(views, ["a.z", "unified.b"]);
    assert_eq!(loaded.backends[0].relation(), "events");
    assert_eq!(format!("{:?}", save_config(&loaded).unwrap()), format!("{parts:?}"));
}

#[test]
fn what_is_left_out_of_a_view_has_a_default() {
    let parts = ViewParts {
        name: "events".to_owned(),
        schema: None,
        enabled: None,
        mode: None,
        missing_source_policy: None,
        source_column: None,
        columns: ColumnMap::new(),
        inputs: vec![input("a", "t")],
    };
    let view = parts.complete();
    assert_eq!(view.qualified_name(), "unified.events");
    assert!(view.enabled);
    assert_eq!(view.mode, ViewMode::UnionAllByName);
    assert_eq!(view.missing_source_policy, MissingSourcePolicy::Skip);
}

#[test]
fn settings_out_of_range_are_reported() {
    assert_eq!(
        report(Config { version: 2, ..config() }),
        "unsupported configuration version 2"
    );
    for workers in [0, 65] {
        assert_eq!(report(Config { workers, ..config() }), "workers must be between 1 and 64");
    }
    for threads_per_worker in [0, 65] {
        assert_eq!(
            report(Config { threads_per_worker, ..config() }),
            "threads_per_worker must be between 1 and 64"
        );
    }
    assert_eq!(report(Config { max_rows: 0, ..config() }), "max_rows must be greater than zero");
    assert_eq!(
        report(Config { request_timeout_seconds: 0, ..config() }),
        "request_timeout_seconds must be greater than zero"
    );
}

#[test]
fn defects_of_backends_are_reported() {
    let mut twice = config();
    twice.backends.push(backend("a", BackendType::Sqlite, None));
    twice.backends.push(backend("a", BackendType::Duckdb, None));
    assert_eq!(report(twice), "duplicate backend name: a");
    let mut relative = config();
    relative.backends.push(Backend {
        path: "app.sqlite".to_owned(),
        ..backend("a", BackendType::Sqlite, None)
    });
    assert_eq!(report(relative), "backend path must be absolute: app.sqlite");
    let mut exposed = config();
    exposed.backends.push(backend("a", BackendType::Sqlite, Some("t")));
    assert_eq!(report(exposed), "backend a: relation is only valid for Parquet backends");
    let mut relation = config();
    relation.backends.push(backend("a", BackendType::Parquet, Some("1t")));
    assert_eq!(
        report(relation),
        "invalid Parquet relation '1t': identifier must match [A-Za-z_][A-Za-z0-9_]{0,62}"
    );
    let mut name = config();
    name.backends.push(backend("a b", BackendType::Sqlite, None));
    assert_eq!(report(name), "identifier must match [A-Za-z_][A-Za-z0-9_]{0,62}");
}

#[test]
fn defects_of_views_are_reported() {
    let with = |view: LogicalView| {
        let mut c = config();
        c.views.push(view);
        c
    };
    assert_eq!(report(with(view("s", "v", Vec::new()))), "view s.v must have at least one input");
    assert_eq!(
        report(with(view("s", "v", vec![input("a", "t"), input("a", "u")]))),
        "view s.v contains duplicate input backend a"
    );
    assert_eq!(
        report(with(view("s", "v", vec![input("a", "x.y.z")]))),
        "relation must be TABLE or SCHEMA.TABLE"
    );
    assert_eq!(
        report(with(view("s-1", "v", vec![input("a", "t")]))),
        "invalid view schema 's-1': identifier must match [A-Za-z_][A-Za-z0-9_]{0,62}"
    );
    let mut columns = ColumnMap::new();
    columns.insert("id".to_owned(), "BIGINT".to_owned());
    let mut taken = view("s", "v", vec![input("a", "t")]);
    taken.source_column = Some("id".to_owned());
    taken.columns = columns.clone();
    assert_eq!(report(with(taken)), "view s.v source column 'id' duplicates a logical column");
    let mut typed = view("s", "v", vec![input("a", "t")]);
    typed.columns.insert("id".to_owned(), "INT; DROP".to_owned());
    assert_eq!(
        report(with(typed)),
        "logical column type contains unsupported characters: INT; DROP"
    );
    let mut mapped = view("s", "v", vec![input("a", "t")]);
    mapped.columns = columns;
    mapped.inputs[0].columns.insert("no".to_owned(), "x".to_owned());
    assert_eq!(report(with(mapped)), "view s.v input a maps unknown logical column no");
    let mut twice = config();
    twice.views.push(view("s", "v", vec![input("a", "t")]));
    twice.views.push(view("s", "v", vec![input("b", "t")]));
    assert_eq!(report(twice), "duplicate view name: s.v");
}

#[test]
fn numbers_are_checked_before_backends_and_backends_before_views() {
    let mut all_wrong = config();
    all_wrong.workers = 0;
    all_wrong.backends.push(backend("1", BackendType::Sqlite, None));
    all_wrong.views.push(view("s", "v", Vec::new()));
    let mut found = Vec::new();
    for workers in [0, 1] {
        all_wrong.workers = workers;
        found.push(report(all_wrong.clone()));
    }
    all_wrong.backends.clear();
    found.push(report(all_wrong));
    assert_eq!(
        found,
        [
            "workers must be between 1 and 64",
            "identifier must match [A-Za-z_][A-Za-z0-9_]{0,62}",
            "view s.v must have at least one input",
        ]
    );
}

#[test]
fn view_names_have_a_schema_or_the_default_one() {
    assert_eq!(
        parse_qualified_view_name("events").unwrap(),
        ("unified".to_owned(), "events".to_owned())
    );
    assert_eq!(
        parse_qualified_view_name("a.b").unwrap(),
        ("a".to_owned(), "b".to_owned())
    );
    assert_eq!(
        parse_qualified_view_name("a.b.c").unwrap_err().message(),
        "view name must be NAME or SCHEMA.NAME"
    );
    assert_eq!(
        parse_qualified_view_name("a.").unwrap_err().message(),
        "invalid view name '': identifier must match [A-Za-z_][A-Za-z0-9_]{0,62}"
    );
}

#[test]
fn relations_and_types_are_checked() {
    assert!(validate_relation("t").is_ok());
    assert!(validate_relation("main.t").is_ok());
    assert!(validate_relation("").is_err());
    assert!(validate_relation("a.b.c").is_err());
    for good in ["DECIMAL(18, 3)", "VARCHAR[]", "STRUCT_1"] {
        assert!(validate_data_type(good).is_ok(), "{good}");
    }
    for bad in ["", "INT;", "a'b", "é"] {
        assert!(validate_data_type(bad).is_err(), "{bad}");
    }
    assert!(validate_data_type(&"A".repeat(128)).is_ok());
    assert!(validate_data_type(&"A".repeat(129)).is_err());
}

#[test]
fn column_maps_are_sorted_and_single() {
    let mut map = ColumnMap::new();
    for (name, value) in [("b", "1"), ("a", "2"), ("b", "3")] {
        map.insert(name.to_owned(), value.to_owned());
    }
    assert_eq!(map.len(), 2);
    assert_eq!((map.name_at(0), map.value_at(0)), ("a", "2"));
    assert_eq!((map.name_at(1), map.value_at(1)), ("b", "3"));
    assert_eq!(map.get("b").as_deref(), Some("3"));
    assert!(!map.contains_key("c"));
}

#[test]
fn everything_is_kept_in_the_home() {
    let paths = Paths::resolve(Some("/srv/duckdoor".to_owned()), Some("/other".to_owned())).unwrap();
    assert_eq!(paths.home, "/srv/duckdoor");
    assert_eq!(paths.config, "/srv/duckdoor/config.toml");
    assert_eq!(paths.config_lock, "/srv/duckdoor/config.lock");
    assert_eq!(paths.pid, "/srv/duckdoor/duckdoor.pid");
    assert_eq!(paths.log, "/srv/duckdoor/duckdoor.log");
    assert_eq!(paths.admin_token, "/srv/duckdoor/admin.token");
    assert_eq!(paths.init_sql, "/srv/duckdoor/init.sql");
    assert_eq!(Paths::resolve(None, Some("/p/".to_owned())).unwrap().pid, "/p/duckdoor.pid");
    assert_eq!(Paths::resolve(Some(String::new()), None).unwrap().pid, "duckdoor.pid");
    assert_eq!(
        Paths::resolve(None, None).unwrap_err().message(),
        "could not determine the user configuration directory"
    );
}

#[test]
fn qualified_names_are_read_back() {
    let named = view("archive", "events_2", vec![input("a", "t")]);
    assert_eq!(
        parse_qualified_view_name(&named.qualified_name()).unwrap(),
        (named.schema, named.name)
    );
}

#[test]
fn valid_names_need_no_escaping() {
    for name in ["app_a", "_x9", "Z"] {
        assert!(validate_name(name).is_ok());
        assert_eq!(quote_ident(name), format!("\"{name}\""));
        assert!(validate_relation(name).is_ok());
    }
    for value in ["INT--", "A;B", "\"A\"", "'A'"] {
        assert!(validate_data_type(value).is_err());
    }
}
