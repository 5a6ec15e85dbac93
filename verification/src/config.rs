//! The configuration: its parts, their defaults, and what makes it valid.
use vstd::prelude::*;

use crate::columns;
use crate::columns::ColumnMap;
use crate::defect::{ConfigError, Defect};
use crate::order;
use crate::text;

verus! {

// ---------------------------------------------------------------------------
// The parts of a configuration, and their models
// ---------------------------------------------------------------------------

/// The address that the gateway listens on unless the configuration names another.
pub const DEFAULT_LISTEN: &'static str = "127.0.0.1:9494";

/// What kind of file a backend reads.
#[derive(Debug, Clone, Copy, PartialEq, Eq, Structural)]
pub enum BackendType {
    Sqlite,
    Duckdb,
    Parquet,
}

impl Default for BackendType {
    /// A backend without a type reads SQLite.
    fn default() -> (r: Self)
        ensures
            r == BackendType::Sqlite,
    {
        BackendType::Sqlite
    }
}

/// How a logical view puts its inputs together.
#[derive(Debug, Clone, Copy, PartialEq, Eq, Structural)]
pub enum ViewMode {
    UnionAll,
    UnionAllByName,
}

impl Default for ViewMode {
    /// Columns align by name.
    fn default() -> (r: Self)
        ensures
            r == ViewMode::UnionAllByName,
    {
        ViewMode::UnionAllByName
    }
}

/// What becomes of a logical view when one of its inputs is absent or disabled.
#[derive(Debug, Clone, Copy, PartialEq, Eq, Structural)]
pub enum MissingSourcePolicy {
    Error,
    Skip,
}

impl Default for MissingSourcePolicy {
    /// A missing input is left out.
    fn default() -> (r: Self)
        ensures
            r == MissingSourcePolicy::Skip,
    {
        MissingSourcePolicy::Skip
    }
}

/// A registered source. The relation is the name that Parquet files are exposed under.
#[derive(Debug)]
pub struct Backend {
    pub name: String,
    pub kind: BackendType,
    pub path: String,
    pub relation: Option<String>,
    pub enabled: bool,
}

#[verifier::ext_equal]
pub struct BackendModel {
    pub name: Seq<char>,
    pub kind: BackendType,
    pub path: Seq<char>,
    pub relation: Option<Seq<char>>,
    pub enabled: bool,
}

/// The view of a string that may be absent.
pub open spec fn optional(value: Option<String>) -> Option<Seq<char>> {
    match value {
        Some(value) => Some(value@),
        None => None,
    }
}

impl View for Backend {
    type V = BackendModel;

    open spec fn view(&self) -> BackendModel {
        BackendModel {
            name: self.name@,
            kind: self.kind,
            path: self.path@,
            relation: optional(self.relation),
            enabled: self.enabled,
        }
    }
}

/// One input of a logical view: a relation of a backend, and the physical columns that
/// stand for logical ones.
#[derive(Debug)]
pub struct ViewInput {
    pub backend: String,
    pub relation: String,
    pub columns: ColumnMap,
}

#[verifier::ext_equal]
pub struct InputModel {
    pub backend: Seq<char>,
    pub relation: Seq<char>,
    pub columns: Seq<columns::Entry>,
}

impl View for ViewInput {
    type V = InputModel;

    open spec fn view(&self) -> InputModel {
        InputModel { backend: self.backend@, relation: self.relation@, columns: self.columns@ }
    }
}

/// A persistent definition of a view over relations of backends.
#[derive(Debug)]
pub struct LogicalView {
    pub name: String,
    pub schema: String,
    pub enabled: bool,
    pub mode: ViewMode,
    pub missing_source_policy: MissingSourcePolicy,
    pub source_column: Option<String>,
    pub columns: ColumnMap,
    pub inputs: Vec<ViewInput>,
}

#[verifier::ext_equal]
pub struct ViewModel {
    pub name: Seq<char>,
    pub schema: Seq<char>,
    pub enabled: bool,
    pub mode: ViewMode,
    pub missing_source_policy: MissingSourcePolicy,
    pub source_column: Option<Seq<char>>,
    pub columns: Seq<columns::Entry>,
    pub inputs: Seq<InputModel>,
}

impl View for LogicalView {
    type V = ViewModel;

    open spec fn view(&self) -> ViewModel {
        ViewModel {
            name: self.name@,
            schema: self.schema@,
            enabled: self.enabled,
            mode: self.mode,
            missing_source_policy: self.missing_source_policy,
            source_column: optional(self.source_column),
            columns: self.columns@,
            inputs: order::models(self.inputs@),
        }
    }
}

/// Everything that the gateway is told.
#[derive(Debug)]
pub struct Config {
    pub version: u32,
    pub listen: String,
    pub workers: usize,
    pub threads_per_worker: usize,
    pub max_rows: usize,
    pub request_timeout_seconds: u64,
    pub backends: Vec<Backend>,
    pub views: Vec<LogicalView>,
}

#[verifier::ext_equal]
pub struct ConfigModel {
    pub version: u32,
    pub listen: Seq<char>,
    pub workers: usize,
    pub threads_per_worker: usize,
    pub max_rows: usize,
    pub request_timeout_seconds: u64,
    pub backends: Seq<BackendModel>,
    pub views: Seq<ViewModel>,
}

impl View for Config {
    type V = ConfigModel;

    open spec fn view(&self) -> ConfigModel {
        ConfigModel {
            version: self.version,
            listen: self.listen@,
            workers: self.workers,
            threads_per_worker: self.threads_per_worker,
            max_rows: self.max_rows,
            request_timeout_seconds: self.request_timeout_seconds,
            backends: order::models(self.backends@),
            views: order::models(self.views@),
        }
    }
}

/// The name that a backend exposes Parquet files under.
pub open spec fn exposed_relation(backend: BackendModel) -> Seq<char> {
    match backend.relation {
        Some(relation) => relation,
        None => "data"@,
    }
}

/// The name of a view with its schema in front.
pub open spec fn qualified(view: ViewModel) -> Seq<char> {
    view.schema + "."@ + view.name
}

impl Backend {
    /// The name that Parquet files are exposed under.
    pub fn relation(&self) -> (r: &str)
        ensures
            r@ == exposed_relation(self@),
    {
        match &self.relation {
            Some(relation) => relation.as_str(),
            None => "data",
        }
    }
}

impl Clone for Backend {
    fn clone(&self) -> (r: Self)
        ensures
            r@ == self@,
    {
        Backend {
            name: self.name.clone(),
            kind: self.kind,
            path: self.path.clone(),
            relation: clone_optional(&self.relation),
            enabled: self.enabled,
        }
    }
}

pub(crate) fn clone_optional(value: &Option<String>) -> (r: Option<String>)
    ensures
        optional(r) == optional(*value),
{
    match value {
        Some(value) => Some(value.clone()),
        None => None,
    }
}

impl Clone for ViewInput {
    fn clone(&self) -> (r: Self)
        ensures
            r@ == self@,
    {
        ViewInput {
            backend: self.backend.clone(),
            relation: self.relation.clone(),
            columns: self.columns.clone(),
        }
    }
}

impl LogicalView {
    /// The name of the view with its schema in front.
    pub fn qualified_name(&self) -> (r: String)
        ensures
            r@ == qualified(self@),
    {
        let mut r = self.schema.clone();
        r.append(".");
        r.append(self.name.as_str());
        r
    }
}

impl Clone for LogicalView {
    fn clone(&self) -> (r: Self)
        ensures
            r@ == self@,
    {
        LogicalView {
            name: self.name.clone(),
            schema: self.schema.clone(),
            enabled: self.enabled,
            mode: self.mode,
            missing_source_policy: self.missing_source_policy,
            source_column: clone_optional(&self.source_column),
            columns: self.columns.clone(),
            inputs: clone_inputs(&self.inputs),
        }
    }
}

// ---------------------------------------------------------------------------
// Defaults
// ---------------------------------------------------------------------------

/// Backends and views are enabled unless the configuration says otherwise.
pub fn enabled_by_default() -> (r: bool)
    ensures
        r,
{
    true
}

/// The version of the configuration format.
pub fn config_version() -> (r: u32)
    ensures
        r == 1,
{
    1
}

pub fn default_listen() -> (r: String)
    ensures
        r@ == DEFAULT_LISTEN@,
{
    DEFAULT_LISTEN.to_owned()
}

pub fn default_max_rows() -> (r: usize)
    ensures
        r == 10_000,
{
    10_000
}

pub fn default_timeout_seconds() -> (r: u64)
    ensures
        r == 300,
{
    300
}

/// One worker for each unit of parallelism that the machine reports, four where it
/// reports none, and always from one to eight.
pub open spec fn worker_default(parallelism: Option<usize>) -> usize {
    let wanted = match parallelism {
        Some(n) => n,
        None => 4,
    };
    if wanted < 1 {
        1
    } else if wanted > 8 {
        8
    } else {
        wanted
    }
}

pub fn default_workers(parallelism: Option<usize>) -> (r: usize)
    ensures
        r == worker_default(parallelism),
        1 <= r <= 8,
{
    let wanted: usize = match parallelism {
        Some(n) => n,
        None => 4,
    };
    if wanted < 1 {
        1
    } else if wanted > 8 {
        8
    } else {
        wanted
    }
}

pub fn default_threads_per_worker() -> (r: usize)
    ensures
        r == 1,
{
    1
}

pub fn default_view_schema() -> (r: String)
    ensures
        r@ == "unified"@,
{
    "unified".to_owned()
}

/// The configuration of a gateway that nothing has been registered with.
pub open spec fn default_config(parallelism: Option<usize>) -> ConfigModel {
    ConfigModel {
        version: 1,
        listen: DEFAULT_LISTEN@,
        workers: worker_default(parallelism),
        threads_per_worker: 1,
        max_rows: 10_000,
        request_timeout_seconds: 300,
        backends: Seq::empty(),
        views: Seq::empty(),
    }
}

impl Config {
    /// The configuration of a gateway that nothing has been registered with, on a machine
    /// that reports the given parallelism.
    pub fn for_parallelism(parallelism: Option<usize>) -> (r: Config)
        ensures
            r@ == default_config(parallelism),
    {
        let r = Config {
            version: config_version(),
            listen: default_listen(),
            workers: default_workers(parallelism),
            threads_per_worker: default_threads_per_worker(),
            max_rows: default_max_rows(),
            request_timeout_seconds: default_timeout_seconds(),
            backends: Vec::new(),
            views: Vec::new(),
        };
        assert(r@ =~= default_config(parallelism));
        r
    }
}

impl Clone for Config {
    fn clone(&self) -> (r: Self)
        ensures
            r@ == self@,
    {
        let mut backends: Vec<Backend> = Vec::new();
        let mut i: usize = 0;
        while i < self.backends.len()
            invariant
                i <= self.backends@.len(),
                order::models(backends@) == order::models(self.backends@).take(i as int),
            decreases self.backends@.len() - i,
        {
            let backend = self.backends[i].clone();
            proof {
                order::lemma_models_grow(backends@, self.backends@, i as int, backend);
            }
            backends.push(backend);
            i += 1;
        }
        assert(order::models(backends@) =~= order::models(self.backends@));
        let mut views: Vec<LogicalView> = Vec::new();
        let mut j: usize = 0;
        while j < self.views.len()
            invariant
                j <= self.views@.len(),
                order::models(views@) == order::models(self.views@).take(j as int),
            decreases self.views@.len() - j,
        {
            let view = self.views[j].clone();
            proof {
                order::lemma_models_grow(views@, self.views@, j as int, view);
            }
            views.push(view);
            j += 1;
        }
        assert(order::models(views@) =~= order::models(self.views@));
        Config {
            version: self.version,
            listen: self.listen.clone(),
            workers: self.workers,
            threads_per_worker: self.threads_per_worker,
            max_rows: self.max_rows,
            request_timeout_seconds: self.request_timeout_seconds,
            backends,
            views,
        }
    }
}

// ---------------------------------------------------------------------------
// Configurations with parts left out
// ---------------------------------------------------------------------------

/// A backend as it is written down: some of it may be left out.
#[derive(Debug)]
pub struct BackendParts {
    pub name: String,
    pub kind: Option<BackendType>,
    pub path: String,
    pub relation: Option<String>,
    pub enabled: Option<bool>,
}

/// A view as it is written down.
#[derive(Debug)]
pub struct ViewParts {
    pub name: String,
    pub schema: Option<String>,
    pub enabled: Option<bool>,
    pub mode: Option<ViewMode>,
    pub missing_source_policy: Option<MissingSourcePolicy>,
    pub source_column: Option<String>,
    pub columns: ColumnMap,
    pub inputs: Vec<ViewInput>,
}

/// A configuration as it is written down.
#[derive(Debug)]
pub struct ConfigParts {
    pub version: Option<u32>,
    pub listen: Option<String>,
    pub workers: Option<usize>,
    pub threads_per_worker: Option<usize>,
    pub max_rows: Option<usize>,
    pub request_timeout_seconds: Option<u64>,
    pub backends: Vec<BackendParts>,
    pub views: Vec<ViewParts>,
}

/// What stands for something that may have been left out.
pub open spec fn given_or<A>(given: Option<A>, default: A) -> A {
    match given {
        Some(value) => value,
        None => default,
    }
}

/// A backend whose type was left out reads SQLite, and one of which it was left out whether
/// it is enabled is.
pub open spec fn completed_backend(parts: BackendParts) -> BackendModel {
    BackendModel {
        name: parts.name@,
        kind: given_or(parts.kind, BackendType::Sqlite),
        path: parts.path@,
        relation: optional(parts.relation),
        enabled: given_or(parts.enabled, true),
    }
}

pub open spec fn completed_view(parts: ViewParts) -> ViewModel {
    ViewModel {
        name: parts.name@,
        schema: given_or(optional(parts.schema), "unified"@),
        enabled: given_or(parts.enabled, true),
        mode: given_or(parts.mode, ViewMode::UnionAllByName),
        missing_source_policy: given_or(parts.missing_source_policy, MissingSourcePolicy::Skip),
        source_column: optional(parts.source_column),
        columns: parts.columns@,
        inputs: order::models(parts.inputs@),
    }
}

pub open spec fn completed_backends(list: Seq<BackendParts>) -> Seq<BackendModel> {
    list.map_values(|parts: BackendParts| completed_backend(parts))
}

pub open spec fn completed_views(list: Seq<ViewParts>) -> Seq<ViewModel> {
    list.map_values(|parts: ViewParts| completed_view(parts))
}

/// The configuration that is meant, on a machine that reports some parallelism.
pub open spec fn completed_config(parts: ConfigParts, parallelism: Option<usize>) -> ConfigModel {
    ConfigModel {
        version: given_or(parts.version, 1),
        listen: given_or(optional(parts.listen), DEFAULT_LISTEN@),
        workers: given_or(parts.workers, worker_default(parallelism)),
        threads_per_worker: given_or(parts.threads_per_worker, 1),
        max_rows: given_or(parts.max_rows, 10_000),
        request_timeout_seconds: given_or(parts.request_timeout_seconds, 300),
        backends: completed_backends(parts.backends@),
        views: completed_views(parts.views@),
    }
}

impl BackendParts {
    /// The backend that is meant.
    pub fn complete(&self) -> (r: Backend)
        ensures
            r@ == completed_backend(*self),
    {
        Backend {
            name: self.name.clone(),
            kind: match self.kind {
                Some(kind) => kind,
                None => BackendType::default(),
            },
            path: self.path.clone(),
            relation: clone_optional(&self.relation),
            enabled: match self.enabled {
                Some(enabled) => enabled,
                None => enabled_by_default(),
            },
        }
    }
}

impl Backend {
    /// The backend as it is written down, with nothing left out that the backend has.
    pub fn parts(&self) -> (r: BackendParts)
        ensures
            completed_backend(r) == self@,
            r.kind is Some,
            r.enabled is Some,
    {
        BackendParts {
            name: self.name.clone(),
            kind: Some(self.kind),
            path: self.path.clone(),
            relation: clone_optional(&self.relation),
            enabled: Some(self.enabled),
        }
    }
}

fn clone_inputs(inputs: &Vec<ViewInput>) -> (r: Vec<ViewInput>)
    ensures
        order::models(r@) == order::models(inputs@),
{
    let mut r: Vec<ViewInput> = Vec::new();
    let mut i: usize = 0;
    while i < inputs.len()
        invariant
            i <= inputs@.len(),
            order::models(r@) == order::models(inputs@).take(i as int),
        decreases inputs@.len() - i,
    {
        let input = inputs[i].clone();
        proof {
            order::lemma_models_grow(r@, inputs@, i as int, input);
        }
        r.push(input);
        i += 1;
    }
    assert(order::models(r@) =~= order::models(inputs@));
    r
}

impl ViewParts {
    /// The view that is meant.
    pub fn complete(&self) -> (r: LogicalView)
        ensures
            r@ == completed_view(*self),
    {
        LogicalView {
            name: self.name.clone(),
            schema: match &self.schema {
                Some(schema) => schema.clone(),
                None => default_view_schema(),
            },
            enabled: match self.enabled {
                Some(enabled) => enabled,
                None => enabled_by_default(),
            },
            mode: match self.mode {
                Some(mode) => mode,
                None => ViewMode::default(),
            },
            missing_source_policy: match self.missing_source_policy {
                Some(policy) => policy,
                None => MissingSourcePolicy::default(),
            },
            source_column: clone_optional(&self.source_column),
            columns: self.columns.clone(),
            inputs: clone_inputs(&self.inputs),
        }
    }
}

impl LogicalView {
    /// The view as it is written down, with nothing left out that the view has.
    pub fn parts(&self) -> (r: ViewParts)
        ensures
            completed_view(r) == self@,
            r.schema is Some,
            r.enabled is Some,
            r.mode is Some,
            r.missing_source_policy is Some,
    {
        ViewParts {
            name: self.name.clone(),
            schema: Some(self.schema.clone()),
            enabled: Some(self.enabled),
            mode: Some(self.mode),
            missing_source_policy: Some(self.missing_source_policy),
            source_column: clone_optional(&self.source_column),
            columns: self.columns.clone(),
            inputs: clone_inputs(&self.inputs),
        }
    }
}

impl ConfigParts {
    /// A configuration of which everything was left out.
    pub fn empty() -> (r: ConfigParts)
        ensures
            r.version is None,
            r.listen is None,
            r.workers is None,
            r.threads_per_worker is None,
            r.max_rows is None,
            r.request_timeout_seconds is None,
            r.backends@.len() == 0,
            r.views@.len() == 0,
            forall|parallelism: Option<usize>|
                #[trigger] completed_config(r, parallelism) == default_config(parallelism),
    {
        let r = ConfigParts {
            version: None,
            listen: None,
            workers: None,
            threads_per_worker: None,
            max_rows: None,
            request_timeout_seconds: None,
            backends: Vec::new(),
            views: Vec::new(),
        };
        assert forall|parallelism: Option<usize>| #[trigger] completed_config(r, parallelism)
            == default_config(parallelism) by {
            assert(completed_config(r, parallelism) =~= default_config(parallelism));
        }
        r
    }

    /// The configuration that is meant, on a machine that reports some parallelism.
    pub fn complete(&self, parallelism: Option<usize>) -> (r: Config)
        ensures
            r@ == completed_config(*self, parallelism),
    {
        let ghost all_backends = completed_backends(self.backends@);
        let mut backends: Vec<Backend> = Vec::new();
        let mut i: usize = 0;
        while i < self.backends.len()
            invariant
                i <= self.backends@.len(),
                all_backends == completed_backends(self.backends@),
                order::models(backends@) == all_backends.take(i as int),
            decreases self.backends@.len() - i,
        {
            let backend = self.backends[i].complete();
            assert(all_backends[i as int] == backend@);
            proof {
                order::lemma_models_push(backends@, backend);
            }
            backends.push(backend);
            assert(order::models(backends@) =~= all_backends.take(i + 1));
            i += 1;
        }
        let ghost all_views = completed_views(self.views@);
        let mut views: Vec<LogicalView> = Vec::new();
        let mut j: usize = 0;
        while j < self.views.len()
            invariant
                j <= self.views@.len(),
                all_views == completed_views(self.views@),
                order::models(views@) == all_views.take(j as int),
            decreases self.views@.len() - j,
        {
            let view = self.views[j].complete();
            assert(all_views[j as int] == view@);
            proof {
                order::lemma_models_push(views@, view);
            }
            views.push(view);
            assert(order::models(views@) =~= all_views.take(j + 1));
            j += 1;
        }
        let r = Config {
            version: match self.version {
                Some(version) => version,
                None => config_version(),
            },
            listen: match &self.listen {
                Some(listen) => listen.clone(),
                None => default_listen(),
            },
            workers: match self.workers {
                Some(workers) => workers,
                None => default_workers(parallelism),
            },
            threads_per_worker: match self.threads_per_worker {
                Some(threads) => threads,
                None => default_threads_per_worker(),
            },
            max_rows: match self.max_rows {
                Some(rows) => rows,
                None => default_max_rows(),
            },
            request_timeout_seconds: match self.request_timeout_seconds {
                Some(seconds) => seconds,
                None => default_timeout_seconds(),
            },
            backends,
            views,
        };
        assert(r@ =~= completed_config(*self, parallelism));
        r
    }
}

impl Config {
    /// The configuration as it is written down, with nothing left out that it has. Reading it
    /// back gives the configuration, on every machine.
    pub fn parts(&self) -> (r: ConfigParts)
        ensures
            forall|parallelism: Option<usize>|
                #[trigger] completed_config(r, parallelism) == self@,
    {
        let ghost c = self@;
        let mut backends: Vec<BackendParts> = Vec::new();
        let mut i: usize = 0;
        while i < self.backends.len()
            invariant
                i <= self.backends@.len(),
                c.backends == order::models(self.backends@),
                completed_backends(backends@) == c.backends.take(i as int),
            decreases self.backends@.len() - i,
        {
            let ghost before = backends@;
            let parts = self.backends[i].parts();
            assert(c.backends[i as int] == completed_backend(parts));
            backends.push(parts);
            assert(completed_backends(backends@) =~= completed_backends(before).push(
                completed_backend(parts),
            ));
            assert(completed_backends(backends@) =~= c.backends.take(i + 1));
            i += 1;
        }
        let mut views: Vec<ViewParts> = Vec::new();
        let mut j: usize = 0;
        while j < self.views.len()
            invariant
                j <= self.views@.len(),
                c.views == order::models(self.views@),
                completed_views(views@) == c.views.take(j as int),
            decreases self.views@.len() - j,
        {
            let ghost before = views@;
            let parts = self.views[j].parts();
            assert(c.views[j as int] == completed_view(parts));
            views.push(parts);
            assert(completed_views(views@) =~= completed_views(before).push(
                completed_view(parts),
            ));
            assert(completed_views(views@) =~= c.views.take(j + 1));
            j += 1;
        }
        let r = ConfigParts {
            version: Some(self.version),
            listen: Some(self.listen.clone()),
            workers: Some(self.workers),
            threads_per_worker: Some(self.threads_per_worker),
            max_rows: Some(self.max_rows),
            request_timeout_seconds: Some(self.request_timeout_seconds),
            backends,
            views,
        };
        assert forall|parallelism: Option<usize>| #[trigger] completed_config(r, parallelism)
            == self@ by {
            assert(completed_config(r, parallelism) =~= self@);
        }
        r
    }
}

// ---------------------------------------------------------------------------
// Where everything is kept
// ---------------------------------------------------------------------------

/// The directory that the gateway keeps its state in, and the files there.
#[derive(Debug)]
pub struct Paths {
    pub home: String,
    pub config: String,
    pub config_lock: String,
    pub pid: String,
    pub log: String,
    pub admin_token: String,
    pub init_sql: String,
}

#[verifier::ext_equal]
pub struct PathsModel {
    pub home: Seq<char>,
    pub config: Seq<char>,
    pub config_lock: Seq<char>,
    pub pid: Seq<char>,
    pub log: Seq<char>,
    pub admin_token: Seq<char>,
    pub init_sql: Seq<char>,
}

impl View for Paths {
    type V = PathsModel;

    open spec fn view(&self) -> PathsModel {
        PathsModel {
            home: self.home@,
            config: self.config@,
            config_lock: self.config_lock@,
            pid: self.pid@,
            log: self.log@,
            admin_token: self.admin_token@,
            init_sql: self.init_sql@,
        }
    }
}

impl Clone for Paths {
    fn clone(&self) -> (r: Self)
        ensures
            r@ == self@,
    {
        Paths {
            home: self.home.clone(),
            config: self.config.clone(),
            config_lock: self.config_lock.clone(),
            pid: self.pid.clone(),
            log: self.log.clone(),
            admin_token: self.admin_token.clone(),
            init_sql: self.init_sql.clone(),
        }
    }
}

/// The path of a file in a directory. A slash is put between them, unless the directory ends
/// with one or is the empty path.
pub open spec fn path_in(home: Seq<char>, name: Seq<char>) -> Seq<char> {
    if home.len() == 0 || home.last() == '/' {
        home + name
    } else {
        home + "/"@ + name
    }
}

/// The path of something in a directory.
pub(crate) fn join_path(home: &str, name: &str) -> (r: String)
    ensures
        r@ == path_in(home@, name@),
{
    let chars = text::chars_of(home);
    let mut r = home.to_owned();
    if !(chars.len() == 0 || chars[chars.len() - 1] == '/') {
        r.append("/");
    }
    r.append(name);
    r
}

/// The files in a directory of state.
pub open spec fn paths_in(home: Seq<char>) -> PathsModel {
    PathsModel {
        home,
        config: path_in(home, "config.toml"@),
        config_lock: path_in(home, "config.lock"@),
        pid: path_in(home, "duckdoor.pid"@),
        log: path_in(home, "duckdoor.log"@),
        admin_token: path_in(home, "admin.token"@),
        init_sql: path_in(home, "init.sql"@),
    }
}

/// The directory of state: the one that was asked for, or else the one of the platform.
pub open spec fn home_of(
    override_home: Option<Seq<char>>,
    platform_home: Option<Seq<char>>,
) -> Option<Seq<char>> {
    match override_home {
        Some(home) => Some(home),
        None => platform_home,
    }
}

impl Paths {
    /// The files in the directory that was asked for, or else in that of the platform, where
    /// the platform has one.
    pub fn resolve(override_home: Option<String>, platform_home: Option<String>) -> (r: Result<
        Paths,
        ConfigError,
    >)
        ensures
            match home_of(optional(override_home), optional(platform_home)) {
                Some(home) => r matches Ok(paths) && paths@ == paths_in(home),
                None => r matches Err(error) && error@ == Defect::NoHome,
            },
    {
        let home = match override_home {
            Some(home) => home,
            None => match platform_home {
                Some(home) => home,
                None => {
                    return Err(ConfigError::NoHome);
                },
            },
        };
        Ok(
            Paths {
                config: join_path(home.as_str(), "config.toml"),
                config_lock: join_path(home.as_str(), "config.lock"),
                pid: join_path(home.as_str(), "duckdoor.pid"),
                log: join_path(home.as_str(), "duckdoor.log"),
                admin_token: join_path(home.as_str(), "admin.token"),
                init_sql: join_path(home.as_str(), "init.sql"),
                home,
            },
        )
    }
}

// ---------------------------------------------------------------------------
// Laws
// ---------------------------------------------------------------------------

/// A backend that is written down is the one that is meant: what is given is kept, a type that
/// is left out is SQLite, and a backend is disabled only where that is said.
pub proof fn given_parts_of_a_backend_are_kept(parts: &BackendParts, r: Backend)
    requires
        call_ensures(BackendParts::complete, (parts,), r),
    ensures
        r.name@ == parts.name@,
        r.path@ == parts.path@,
        parts.kind matches Some(kind) ==> r.kind == kind,
        parts.kind is None ==> r.kind == BackendType::Sqlite,
        parts.enabled == Some(false) <==> !r.enabled,
        r.relation is Some <==> parts.relation is Some,
        parts.relation matches Some(relation) ==> r.relation matches Some(kept) ==> kept@
            == relation@,
{
    let model = r@;
    assert(model.relation == optional(r.relation));
    assert(model.enabled == r.enabled && model.kind == r.kind);
    assert(model.name == r.name@ && model.path == r.path@);
}

/// A view that is written down is the one that is meant: what is given is kept; a schema that
/// is left out is `unified`; columns align by name and missing inputs are left out unless it is
/// said otherwise; and a view is disabled only where that is said.
pub proof fn given_parts_of_a_view_are_kept(parts: &ViewParts, r: LogicalView)
    requires
        call_ensures(ViewParts::complete, (parts,), r),
    ensures
        r.name@ == parts.name@,
        parts.schema matches Some(schema) ==> r.schema@ == schema@,
        parts.schema is None ==> r.schema@ == "unified"@,
        parts.enabled == Some(false) <==> !r.enabled,
        parts.mode == Some(ViewMode::UnionAll) <==> r.mode == ViewMode::UnionAll,
        parts.missing_source_policy == Some(MissingSourcePolicy::Error)
            <==> r.missing_source_policy == MissingSourcePolicy::Error,
        optional(r.source_column) == optional(parts.source_column),
        r.columns@ == parts.columns@,
        order::models(r.inputs@) == order::models(parts.inputs@),
{
    let model = r@;
    assert(model.name == r.name@ && model.schema == r.schema@);
    assert(model.enabled == r.enabled && model.mode == r.mode);
    assert(model.missing_source_policy == r.missing_source_policy);
    assert(model.source_column == optional(r.source_column));
    assert(model.columns == r.columns@);
    assert(model.inputs == order::models(r.inputs@));
}

/// A configuration that is written down is the one that is meant: what is given is kept, what
/// is left out has its default, and each backend and each view stands in its place.
pub proof fn given_parts_of_a_configuration_are_kept(
    parts: &ConfigParts,
    parallelism: Option<usize>,
    workers: usize,
    i: int,
    backend: Backend,
    j: int,
    view: LogicalView,
    r: Config,
)
    requires
        call_ensures(ConfigParts::complete, (parts, parallelism), r),
        call_ensures(default_workers, (parallelism,), workers),
        0 <= i < parts.backends@.len() ==> call_ensures(
            BackendParts::complete,
            (&parts.backends@[i],),
            backend,
        ),
        0 <= j < parts.views@.len() ==> call_ensures(
            ViewParts::complete,
            (&parts.views@[j],),
            view,
        ),
    ensures
        r.version == (if parts.version is Some {
            parts.version->0
        } else {
            1
        }),
        parts.listen matches Some(listen) ==> r.listen@ == listen@,
        parts.listen is None ==> r.listen@ == "127.0.0.1:9494"@,
        r.workers == (if parts.workers is Some {
            parts.workers->0
        } else {
            workers
        }),
        r.threads_per_worker == (if parts.threads_per_worker is Some {
            parts.threads_per_worker->0
        } else {
            1
        }),
        r.max_rows == (if parts.max_rows is Some {
            parts.max_rows->0
        } else {
            10_000
        }),
        r.request_timeout_seconds == (if parts.request_timeout_seconds is Some {
            parts.request_timeout_seconds->0
        } else {
            300
        }),
        r.backends@.len() == parts.backends@.len(),
        0 <= i < parts.backends@.len() ==> r.backends@[i]@ == backend@,
        r.views@.len() == parts.views@.len(),
        0 <= j < parts.views@.len() ==> r.views@[j]@ == view@,
{
    let model = r@;
    assert(model.version == r.version && model.listen == r.listen@);
    assert(model.workers == r.workers && model.threads_per_worker == r.threads_per_worker);
    assert(model.max_rows == r.max_rows);
    assert(model.request_timeout_seconds == r.request_timeout_seconds);
    assert(model.backends == order::models(r.backends@));
    assert(model.views == order::models(r.views@));
    assert(model.backends.len() == r.backends@.len());
    assert(model.views.len() == r.views@.len());
    if 0 <= i < parts.backends@.len() {
        assert(model.backends[i] == r.backends@[i]@);
    }
    if 0 <= j < parts.views@.len() {
        assert(model.views[j] == r.views@[j]@);
    }
}

/// Writing a configuration down and reading it back gives the configuration, whatever machine
/// it is read on; and so it is with a backend and with a view.
pub proof fn written_configurations_are_read_back(
    config: &Config,
    parts: ConfigParts,
    parallelism: Option<usize>,
    again: Config,
    backend: &Backend,
    backend_parts: BackendParts,
    backend_again: Backend,
    view: &LogicalView,
    view_parts: ViewParts,
    view_again: LogicalView,
)
    requires
        call_ensures(Config::parts, (config,), parts),
        call_ensures(ConfigParts::complete, (&parts, parallelism), again),
        call_ensures(Backend::parts, (backend,), backend_parts),
        call_ensures(BackendParts::complete, (&backend_parts,), backend_again),
        call_ensures(LogicalView::parts, (view,), view_parts),
        call_ensures(ViewParts::complete, (&view_parts,), view_again),
    ensures
        again@ == config@,
        backend_again@ == backend@,
        view_again@ == view@,
{
}

/// A gateway that nothing is said of listens on this machine alone, keeps a result of ten
/// thousand rows, waits five minutes for a query, and has nothing registered.
pub proof fn the_default_configuration_is_as_documented(
    parallelism: Option<usize>,
    workers: usize,
    r: Config,
)
    requires
        call_ensures(Config::for_parallelism, (parallelism,), r),
        call_ensures(default_workers, (parallelism,), workers),
    ensures
        r.version == 1,
        r.listen@ == "127.0.0.1:9494"@,
        r.workers == workers,
        r.threads_per_worker == 1,
        r.max_rows == 10_000,
        r.request_timeout_seconds == 300,
        r.backends@.len() == 0,
        r.views@.len() == 0,
{
    let model = r@;
    assert(model.version == r.version && model.listen == r.listen@);
    assert(model.workers == r.workers && model.threads_per_worker == r.threads_per_worker);
    assert(model.max_rows == r.max_rows);
    assert(model.request_timeout_seconds == r.request_timeout_seconds);
    assert(order::models(r.backends@).len() == r.backends@.len());
    assert(order::models(r.views@).len() == r.views@.len());
}

/// There are as many workers as the machine reports units of parallelism, but at least one and at
/// most eight, and four where it reports none.
pub proof fn workers_follow_the_machine(n: usize, a: usize, b: usize)
    requires
        call_ensures(default_workers, (Some(n),), a),
        call_ensures(default_workers, (None,), b),
    ensures
        1 <= n <= 8 ==> a == n,
        n > 8 ==> a == 8,
        n == 0 ==> a == 1,
        b == 4,
{
}

/// A view is named by its schema and its own name, with a dot between them; and the files of a
/// backend have the relation that it gives, or else `data`.
pub proof fn views_and_relations_are_named(
    view: &LogicalView,
    name: String,
    backend: &Backend,
    relation: &str,
)
    requires
        call_ensures(LogicalView::qualified_name, (view,), name),
        call_ensures(Backend::relation, (backend,), relation),
    ensures
        name@.len() == view.schema@.len() + 1 + view.name@.len(),
        view.schema@.is_prefix_of(name@),
        name@[view.schema@.len() as int] == '.',
        view.name@.is_suffix_of(name@),
        backend.relation matches Some(given) ==> relation@ == given@,
        backend.relation is None ==> relation@ == "data"@,
{
    reveal_strlit(".");
    assert(name@ == view.schema@ + "."@ + view.name@);
    assert(name@.take(view.schema@.len() as int) =~= view.schema@);
    assert(name@.skip(name@.len() - view.name@.len()) =~= view.name@);
    assert(backend@.relation == optional(backend.relation));
}

/// Whether a path is that of a file in a directory: it is the directory, one slash, and the
/// name of the file.
pub open spec fn is_in(path: Seq<char>, home: Seq<char>, name: Seq<char>) -> bool {
    if home.len() > 0 && home.last() != '/' {
        path == home.push('/') + name
    } else {
        path == home + name
    }
}

/// Everything is kept in one directory: the one that was asked for, or else the one of the
/// platform. Each file has a name of its own there; and where there is no directory, that is
/// the error.
pub proof fn state_is_kept_in_one_directory(
    override_home: Option<String>,
    platform_home: Option<String>,
    r: Result<Paths, ConfigError>,
)
    requires
        call_ensures(Paths::resolve, (override_home, platform_home), r),
    ensures
        r is Err <==> override_home is None && platform_home is None,
        r matches Err(error) ==> error@ == Defect::NoHome,
        override_home matches Some(home) ==> (r matches Ok(paths) && paths.home@ == home@),
        override_home is None ==> (platform_home matches Some(home) ==> (r matches Ok(paths)
            && paths.home@ == home@)),
        r matches Ok(paths) ==> is_in(paths.config@, paths.home@, "config.toml"@) && is_in(
            paths.config_lock@,
            paths.home@,
            "config.lock"@,
        ) && is_in(paths.pid@, paths.home@, "duckdoor.pid"@) && is_in(
            paths.log@,
            paths.home@,
            "duckdoor.log"@,
        ) && is_in(paths.admin_token@, paths.home@, "admin.token"@) && is_in(
            paths.init_sql@,
            paths.home@,
            "init.sql"@,
        ),
{
    reveal_strlit("/");
    if let Ok(paths) = r {
        let home = paths.home@;
        let model = paths@;
        assert(model.home == home);
        assert(model == paths_in(home));
        lemma_path_is_in(home, "config.toml"@);
        lemma_path_is_in(home, "config.lock"@);
        lemma_path_is_in(home, "duckdoor.pid"@);
        lemma_path_is_in(home, "duckdoor.log"@);
        lemma_path_is_in(home, "admin.token"@);
        lemma_path_is_in(home, "init.sql"@);
        assert(model.config == paths.config@ && model.config_lock == paths.config_lock@);
        assert(model.pid == paths.pid@ && model.log == paths.log@);
        assert(model.admin_token == paths.admin_token@ && model.init_sql == paths.init_sql@);
    }
}

proof fn lemma_path_is_in(home: Seq<char>, name: Seq<char>)
    ensures
        is_in(path_in(home, name), home, name),
{
    reveal_strlit("/");
    assert(home + "/"@ + name =~= home.push('/') + name);
}

/// A copy of a configuration has every part of it.
pub proof fn copies_have_every_part(config: &Config, r: Config, i: int, j: int)
    requires
        call_ensures(Config::clone, (config,), r),
    ensures
        r.version == config.version,
        r.listen@ == config.listen@,
        r.workers == config.workers,
        r.threads_per_worker == config.threads_per_worker,
        r.max_rows == config.max_rows,
        r.request_timeout_seconds == config.request_timeout_seconds,
        r.backends@.len() == config.backends@.len(),
        0 <= i < config.backends@.len() ==> r.backends@[i].name@ == config.backends@[i].name@
            && r.backends@[i].kind == config.backends@[i].kind && r.backends@[i].path@
            == config.backends@[i].path@ && r.backends@[i].enabled == config.backends@[i].enabled,
        r.views@.len() == config.views@.len(),
        0 <= j < config.views@.len() ==> r.views@[j].name@ == config.views@[j].name@
            && r.views@[j].schema@ == config.views@[j].schema@ && r.views@[j].enabled
            == config.views@[j].enabled && r.views@[j].mode == config.views@[j].mode,
{
    let a = r@;
    let b = config@;
    assert(a.backends.len() == r.backends@.len() && b.backends.len() == config.backends@.len());
    assert(a.views.len() == r.views@.len() && b.views.len() == config.views@.len());
    if 0 <= i < config.backends@.len() {
        assert(a.backends[i] == r.backends@[i]@);
        assert(b.backends[i] == config.backends@[i]@);
    }
    if 0 <= j < config.views@.len() {
        assert(a.views[j] == r.views@[j]@);
        assert(b.views[j] == config.views@[j]@);
    }
}

/// A configuration of which everything was left out means the one of a gateway that nothing has
/// been registered with.
pub proof fn leaving_everything_out_means_the_default(
    parallelism: Option<usize>,
    parts: ConfigParts,
    meant: Config,
    default: Config,
)
    requires
        call_ensures(ConfigParts::empty, (), parts),
        call_ensures(ConfigParts::complete, (&parts, parallelism), meant),
        call_ensures(Config::for_parallelism, (parallelism,), default),
    ensures
        meant@ == default@,
{
}

/// What is left out of a configuration is what these functions tell.
pub proof fn defaults_are_as_documented(
    enabled: bool,
    version: u32,
    listen: String,
    rows: usize,
    seconds: u64,
    threads: usize,
    schema: String,
)
    requires
        call_ensures(enabled_by_default, (), enabled),
        call_ensures(config_version, (), version),
        call_ensures(default_listen, (), listen),
        call_ensures(default_max_rows, (), rows),
        call_ensures(default_timeout_seconds, (), seconds),
        call_ensures(default_threads_per_worker, (), threads),
        call_ensures(default_view_schema, (), schema),
    ensures
        enabled,
        version == 1,
        listen@ == "127.0.0.1:9494"@,
        rows == 10_000,
        seconds == 5 * 60,
        threads == 1,
        schema@ == "unified"@,
{
}

} // verus!
