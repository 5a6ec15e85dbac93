use std::sync::Arc;

use duckdoor::columns::ColumnMap;
use duckdoor::config::{
    Backend, BackendType, Config, LogicalView, MissingSourcePolicy, ViewInput, ViewMode,
};
use duckdoor::engine::{start, Engine, LivePool};
use duckdoor::pool::{all_ready, probe_config, test_backend, QueryPool, Readiness, StepKind};
use duckdoor::query::Admission;
use duckdoor::sources::{
    attach, duckdb_version, find_files, freeze_files, harden_connection, infer_backend_type,
    load_sqlite_extension, source_path, FileSearch, Located,
};
use duckdoor::views::{compile_view, missing_reason, resolve_view, SkipReason, ViewStatus};

fn source(name: &str, kind: BackendType, enabled: bool) -> Backend {
    Backend {
        name: name.to_owned(),
        kind,
        path: format!("/data/{name}"),
        relation: None,
        enabled,
    }
}

fn reads(backend: &str, relation: &str) -> ViewInput {
    ViewInput {
        backend: backend.to_owned(),
        relation: relation.to_owned(),
        columns: ColumnMap::new(),
    }
}

fn tracks() -> LogicalView {
    LogicalView {
        name: "tracks".to_owned(),
        schema: "unified".to_owned(),
        enabled: true,
        mode: ViewMode::UnionAllByName,
        missing_source_policy: MissingSourcePolicy::Skip,
        source_column: Some("_source_backend".to_owned()),
        columns: ColumnMap::new(),
        inputs: vec![
            reads("tier1", "sonic_tracks"),
            reads("tier2", "tracks"),
            reads("tier3", "archive_tracks"),
        ],
    }
}

fn tiers() -> Vec<Backend> {
    vec![
        source("tier1", BackendType::Sqlite, true),
        source("tier2", BackendType::Duckdb, true),
        source("tier3", BackendType::Parquet, true),
    ]
}

fn words(list: &[&str]) -> Vec<String> {
    list.iter().map(|s| s.to_string()).collect()
}

#[test]
fn files_are_attached_for_reading_only() {
    assert_eq!(
        attach(&source("app", BackendType::Sqlite, true), &Vec::new()),
        "ATTACH '/data/app' AS \"app\" (TYPE SQLITE, READ_ONLY)"
    );
    let odd = Backend {
        path: "/it's".to_owned(),
        ..source("w", BackendType::Duckdb, true)
    };
    assert_eq!(
        attach(&odd, &Vec::new()),
        "ATTACH '/it''s' AS \"w\" (TYPE DUCKDB, READ_ONLY)"
    );
}

#[test]
fn parquet_files_become_a_view_over_exactly_those_files() {
    let archive = Backend {
        relation: Some("events".to_owned()),
        ..source("archive", BackendType::Parquet, true)
    };
    let files = freeze_files(&archive, &words(&["/b.parquet", "/a.parquet", "/b.parquet"]));
    assert_eq!(
        attach(&archive, &files),
        "CREATE SCHEMA IF NOT EXISTS \"archive\";\nCREATE VIEW \"archive\".\"events\" AS\n\
         SELECT * FROM read_parquet(['/a.parquet', '/b.parquet'], union_by_name = true);"
    );
    assert_eq!(
        files,
        freeze_files(&archive, &words(&["/a.parquet", "/b.parquet"]))
    );
    assert_eq!(
        freeze_files(&source("app", BackendType::Sqlite, true), &Vec::new()),
        ["/data/app"]
    );
}

#[test]
fn hardening_allows_the_given_files_and_locks() {
    assert_eq!(
        harden_connection(&words(&["/a", "/b'c"]), 3),
        "SET threads = 3;\nSET allowed_paths = ['/a', '/b''c'];\n\
         SET allow_community_extensions = false;\nSET autoinstall_known_extensions = false;\n\
         SET autoload_known_extensions = false;\nSET enable_external_access = false;\n\
         SET lock_configuration = true;"
    );
    assert_eq!(load_sqlite_extension(true), "INSTALL sqlite; LOAD sqlite;");
    assert_eq!(load_sqlite_extension(false), "LOAD sqlite;");
    assert_eq!(duckdb_version(), "1.5.5");
}

#[test]
fn the_kind_of_a_source_follows_from_its_path() {
    assert_eq!(infer_backend_type("/x/warehouse.duckdb", false), BackendType::Duckdb);
    assert_eq!(infer_backend_type("/x/archive.PARQUET", false), BackendType::Parquet);
    assert_eq!(infer_backend_type("/x/*.parquet", false), BackendType::Parquet);
    assert_eq!(infer_backend_type("/x/dir", true), BackendType::Parquet);
    assert_eq!(infer_backend_type("/x/app.sqlite", false), BackendType::Sqlite);
}

#[test]
fn views_are_compiled_as_documented() {
    assert_eq!(
        compile_view(&tiers(), &tracks()).unwrap().unwrap(),
        "CREATE SCHEMA IF NOT EXISTS \"unified\";\nCREATE VIEW \"unified\".\"tracks\" AS\n\
         SELECT 'tier1' AS \"_source_backend\", * FROM \"tier1\".\"sonic_tracks\"\n\
         UNION ALL BY NAME\n\
         SELECT 'tier2' AS \"_source_backend\", * FROM \"tier2\".\"tracks\"\n\
         UNION ALL BY NAME\n\
         SELECT 'tier3' AS \"_source_backend\", * FROM \"tier3\".\"archive_tracks\";"
    );
}

#[test]
fn declared_columns_are_cast_and_renamed() {
    let mut view = tracks();
    view.source_column = None;
    view.mode = ViewMode::UnionAll;
    view.columns.insert("title".to_owned(), "VARCHAR".to_owned());
    view.columns.insert("id".to_owned(), "BIGINT".to_owned());
    view.inputs = vec![reads("tier1", "main.t"), reads("tier2", "u")];
    view.inputs[0].columns.insert("title".to_owned(), "name".to_owned());
    assert_eq!(
        compile_view(&tiers(), &view).unwrap().unwrap(),
        "CREATE SCHEMA IF NOT EXISTS \"unified\";\nCREATE VIEW \"unified\".\"tracks\" AS\n\
         SELECT CAST(\"id\" AS BIGINT) AS \"id\", CAST(\"name\" AS VARCHAR) AS \"title\" \
         FROM \"tier1\".\"main\".\"t\"\n\
         UNION ALL\n\
         SELECT CAST(\"id\" AS BIGINT) AS \"id\", CAST(\"title\" AS VARCHAR) AS \"title\" \
         FROM \"tier2\".\"u\";"
    );
}

#[test]
fn missing_inputs_are_skipped_or_are_an_error() {
    let mut backends = tiers();
    backends[1].enabled = false;
    backends.remove(2);
    let mut view = tracks();
    let resolution = resolve_view(&backends, &view);
    assert_eq!(resolution.status, ViewStatus::Active);
    let kept: Vec<&str> =
        resolution.resolved_sources.iter().map(|i| i.backend.as_str()).collect();
    assert_eq!(kept, ["tier1"]);
    let gone: Vec<(&str, &str)> = resolution
        .skipped_sources
        .iter()
        .map(|s| (s.backend.as_str(), s.reason.text()))
        .collect();
    assert_eq!(gone, [("tier2", "disabled"), ("tier3", "not_registered")]);
    assert!(compile_view(&backends, &view).unwrap().unwrap().ends_with(
        "AS\nSELECT 'tier1' AS \"_source_backend\", * FROM \"tier1\".\"sonic_tracks\";"
    ));
    view.missing_source_policy = MissingSourcePolicy::Error;
    assert_eq!(
        compile_view(&backends, &view).unwrap_err().message(),
        "view unified.tracks requires disabled backend tier2"
    );
    view.inputs = vec![reads("missing", "events")];
    assert_eq!(
        compile_view(&backends, &view).unwrap_err().message(),
        "view unified.tracks requires unregistered backend missing"
    );
    view.missing_source_policy = MissingSourcePolicy::Skip;
    assert!(compile_view(&backends, &view).unwrap().is_none());
    assert_eq!(resolve_view(&backends, &view).status, ViewStatus::Unavailable);
    view.enabled = false;
    view.missing_source_policy = MissingSourcePolicy::Error;
    assert!(compile_view(&backends, &view).unwrap().is_none());
    assert_eq!(resolve_view(&backends, &view).status.text(), "disabled");
    assert_eq!(missing_reason(&backends, "tier1"), None);
    assert_eq!(missing_reason(&backends, "tier2"), Some(SkipReason::Disabled));
}

#[test]
fn both_policies_agree_when_nothing_is_missing() {
    let mut strict = tracks();
    strict.missing_source_policy = MissingSourcePolicy::Error;
    assert_eq!(
        compile_view(&tiers(), &strict).unwrap(),
        compile_view(&tiers(), &tracks()).unwrap()
    );
}

fn pool_config() -> Config {
    let mut config = Config::for_parallelism(Some(4));
    config.backends = tiers();
    config.backends[1].enabled = false;
    config.views.push(tracks());
    config
}

#[test]
fn a_worker_is_set_up_in_order_and_hardened_last() {
    let config = pool_config();
    let found = vec![Vec::new(), Vec::new(), words(&["/p2", "/p1"])];
    let script = "CREATE VIEW v AS SELECT 1";
    let pool = QueryPool::new(&config, &found, script).unwrap();
    let kinds: Vec<StepKind> = pool.steps.iter().map(|step| step.kind).collect();
    assert_eq!(
        kinds,
        [
            StepKind::LoadExtension,
            StepKind::RegisterSource,
            StepKind::RegisterSource,
            StepKind::CreateView,
            StepKind::RunScript,
            StepKind::Harden,
        ]
    );
    assert_eq!(pool.steps[0].sql, "LOAD sqlite;");
    assert_eq!(pool.steps[1].failure("gone"), "could not attach tier1 (/data/tier1): gone");
    assert!(!pool.steps.iter().any(|step| step.sql.contains("\"tier2\"")));
    assert_eq!(pool.steps[4].sql, script);
    assert_eq!(pool.steps[4].failure("x"), "init.sql failed: x");
    assert!(pool.steps[5].sql.contains("SET allowed_paths = ['/data/tier1', '/p1', '/p2'];"));
    assert!(pool.install_sqlite);
    assert_eq!(pool.workers(), 4);
    assert_eq!(pool.enabled_backends(), 2);
    assert_eq!((pool.stats.active_views, pool.stats.unavailable_views), (1, 0));
}

#[test]
fn the_extension_is_needed_for_enabled_sqlite_only() {
    let mut config = pool_config();
    config.backends[0].enabled = false;
    let pool = QueryPool::new(&config, &vec![Vec::new(); 3], "-- nothing\n").unwrap();
    assert!(!pool.install_sqlite);
    assert!(pool.steps.iter().all(|step| step.kind != StepKind::LoadExtension));
    assert!(pool.steps.iter().all(|step| step.kind != StepKind::RunScript));
}

#[test]
fn an_empty_registry_has_a_pool_that_reads_nothing() {
    let config = Config::for_parallelism(None);
    let pool = QueryPool::new(&config, &Vec::new(), "").unwrap();
    assert_eq!(pool.steps.len(), 1);
    assert!(pool.steps[0].sql.contains("SET allowed_paths = [];"));
    assert_eq!(pool.enabled_backends(), 0);
}

#[test]
fn a_pool_is_refused_for_its_script_or_its_views() {
    let mut config = pool_config();
    let found = vec![Vec::new(); 3];
    assert_eq!(
        QueryPool::new(&config, &found, "DROP TABLE t").unwrap_err().message(),
        "init.sql only allows CREATE VIEW and CREATE MACRO; got DROP TABLE t"
    );
    config.views[0].missing_source_policy = MissingSourcePolicy::Error;
    assert_eq!(
        QueryPool::new(&config, &found, "").unwrap_err().message(),
        "view unified.tracks requires disabled backend tier2"
    );
}

#[test]
fn only_queries_that_may_be_run_are_offered() {
    let pool = QueryPool::new(&pool_config(), &vec![Vec::new(); 3], "").unwrap();
    assert_eq!(pool.query("SELECT 42", 6).unwrap(), Admission::Offer(2));
    assert!(pool.query("DROP TABLE t", 6).is_err());
}

#[test]
fn a_pool_serves_once_every_worker_is_ready() {
    assert!(all_ready(&vec![Readiness::Ready, Readiness::Ready]).is_ok());
    assert_eq!(
        all_ready(&vec![
            Readiness::Ready,
            Readiness::Failed("no file".to_owned()),
            Readiness::Exited("receiving on a closed channel".to_owned()),
        ]),
        Err("no file".to_owned())
    );
    assert_eq!(
        all_ready(&vec![Readiness::Exited("receiving on a closed channel".to_owned())]),
        Err("query worker exited during startup: receiving on a closed channel".to_owned())
    );
}

#[test]
fn a_backend_is_tried_on_its_own() {
    let sqlite = source("app", BackendType::Sqlite, false);
    let steps = test_backend(&sqlite, &words(&["/data/app"])).unwrap();
    let sql: Vec<&str> = steps.iter().map(|step| step.sql.as_str()).collect();
    assert_eq!(
        sql,
        [
            "INSTALL sqlite; LOAD sqlite;",
            "ATTACH '/data/app' AS \"app\" (TYPE SQLITE, READ_ONLY)",
        ]
    );
    assert_eq!(
        test_backend(&sqlite, &Vec::new()).unwrap_err().message(),
        "SQLite file does not exist: /data/app"
    );
    let duckdb = source("w", BackendType::Duckdb, true);
    assert_eq!(test_backend(&duckdb, &words(&["/data/w"])).unwrap().len(), 1);
    assert_eq!(
        test_backend(&duckdb, &Vec::new()).unwrap_err().message(),
        "DuckDB file does not exist: /data/w"
    );
    assert_eq!(
        test_backend(&source("p", BackendType::Parquet, true), &Vec::new()).unwrap_err().message(),
        "no Parquet file matches: /data/p"
    );
}

#[test]
fn a_change_is_tried_with_one_worker() {
    let probe = probe_config(&pool_config());
    assert_eq!(probe.workers, 1);
    assert_eq!(probe.backends.len(), 3);
}

fn live(config: &Config, workers: char) -> LivePool<char> {
    let plan = Arc::new(QueryPool::new(config, &vec![Vec::new(); config.backends.len()], "").unwrap());
    let reports = (0..plan.workers()).map(|_| Readiness::Ready).collect();
    start(plan, &reports, workers).unwrap()
}

#[test]
fn a_pool_starts_once_every_worker_has_reported() {
    let config = pool_config();
    let plan = Arc::new(QueryPool::new(&config, &vec![Vec::new(); 3], "").unwrap());
    assert_eq!(plan.workers(), config.workers);
    let mut reports: Vec<Readiness> = (0..config.workers).map(|_| Readiness::Ready).collect();
    let started = start(Arc::clone(&plan), &reports, 'a').unwrap();
    assert_eq!((started.workers, started.plan.stats.workers), ('a', config.workers));
    reports[config.workers - 1] = Readiness::Failed("no file".to_owned());
    let failed = start(plan, &reports, 'b').unwrap_err();
    assert_eq!((failed.report.as_str(), failed.workers), ("no file", 'b'));
}

#[test]
fn a_reload_puts_the_new_pool_in_the_place_of_the_old() {
    let mut engine = Engine::load(live(&pool_config(), 'a'));
    let first = engine.stats();
    assert_eq!(first.workers, pool_config().workers);
    let mut smaller = pool_config();
    smaller.workers = 1;
    smaller.backends.clear();
    smaller.views.clear();
    let before = engine.share();
    let stats = engine.reload(Ok(live(&smaller, 'b'))).unwrap();
    assert_eq!(stats, engine.stats());
    assert_eq!((stats.workers, stats.enabled_backends), (1, 0));
    assert_eq!(engine.current().workers, 'b');
    assert_eq!(engine.query("SELECT 42", 6).unwrap(), Admission::Offer(0));
    assert!(engine.query("DROP TABLE t", 6).is_err());
    assert_eq!((before.current().workers, before.stats()), ('a', first));
}

#[test]
fn a_failed_reload_keeps_the_pool_that_serves() {
    let mut engine = Engine::load(live(&pool_config(), 'a'));
    let first = engine.stats();
    let plan = Arc::new(QueryPool::new(&pool_config(), &vec![Vec::new(); 3], "").unwrap());
    let mut reports: Vec<Readiness> = (0..plan.workers()).map(|_| Readiness::Ready).collect();
    reports[1] = Readiness::Failed("no file".to_owned());
    let built = start(plan, &reports, 'b').map_err(|failed| failed.report);
    let error = engine.reload(built).unwrap_err();
    assert_eq!((error.status, error.code), (400, "reload_rejected"));
    assert_eq!(error.message, "configuration could not be activated: no file");
    assert_eq!((engine.current().workers, engine.stats()), ('a', first));
}

#[test]
fn files_are_found_by_what_a_path_is() {
    let found = |kind: BackendType, is_file: bool, is_directory: bool| {
        find_files(&source("p", kind, true), is_file, is_directory)
    };
    assert!(matches!(found(BackendType::Parquet, true, false), FileSearch::File(p) if p == "/data/p"));
    assert!(matches!(found(BackendType::Sqlite, true, false), FileSearch::File(p) if p == "/data/p"));
    assert!(matches!(
        found(BackendType::Parquet, false, true),
        FileSearch::Pattern(p) if p == "/data/p/**/*.parquet"
    ));
    assert!(matches!(
        found(BackendType::Parquet, false, false),
        FileSearch::Pattern(p) if p == "/data/p"
    ));
    assert!(matches!(found(BackendType::Duckdb, false, true), FileSearch::Nothing));
}

#[test]
fn sources_are_registered_by_what_their_path_is() {
    let located = |is_file: bool| Ok(Located { path: "/data/real".to_owned(), is_file });
    let gone = || Err("No such file or directory".to_owned());
    let absolute = || Ok("/data/*.parquet".to_owned());
    let register = |kind: BackendType, located: Result<Located, String>| {
        source_path("*.parquet", kind, located, absolute())
    };
    for kind in [BackendType::Sqlite, BackendType::Duckdb] {
        assert_eq!(register(kind, located(true)).unwrap(), "/data/real");
        assert_eq!(register(kind, located(false)).unwrap_err(), "not a regular file: /data/real");
        assert_eq!(
            register(kind, gone()).unwrap_err(),
            "could not resolve *.parquet: No such file or directory"
        );
    }
    assert_eq!(register(BackendType::Parquet, located(false)).unwrap(), "/data/real");
    assert_eq!(register(BackendType::Parquet, gone()).unwrap(), "/data/*.parquet");
    assert_eq!(
        source_path("", BackendType::Parquet, gone(), Err("empty path".to_owned())).unwrap_err(),
        "empty path"
    );
}
