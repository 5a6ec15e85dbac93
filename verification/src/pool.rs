//! The pool of workers: how a worker is set up, and which worker a query goes to.
use vstd::prelude::*;

use crate::config;
use crate::config::{Backend, BackendModel, BackendType, Config, ConfigModel, ViewModel};
use crate::order;
use crate::query;
use crate::query::Admission;
use crate::sources;
use crate::sql;
use crate::sql::{InitRefusal, InitSqlError, ParsedModel, SqlValidationError};
use crate::text;
use crate::views;
use crate::views::{ViewError, ViewFault, ViewStatus};

verus! {

// ---------------------------------------------------------------------------
// Steps
// ---------------------------------------------------------------------------

/// What a step of setting up a worker does.
#[derive(Debug, Clone, Copy, PartialEq, Eq, Structural)]
pub enum StepKind {
    LoadExtension,
    RegisterSource,
    CreateView,
    RunScript,
    Harden,
}

/// One batch of statements that sets up a worker, and what is reported where it fails.
#[derive(Debug)]
pub struct SetupStep {
    pub kind: StepKind,
    pub sql: String,
    pub context: String,
}

#[verifier::ext_equal]
pub struct StepModel {
    pub kind: StepKind,
    pub sql: Seq<char>,
    pub context: Seq<char>,
}

impl View for SetupStep {
    type V = StepModel;

    open spec fn view(&self) -> StepModel {
        StepModel { kind: self.kind, sql: self.sql@, context: self.context@ }
    }
}

impl SetupStep {
    /// The report of a failure of the step, with its cause.
    pub fn failure(&self, cause: &str) -> (r: String)
        ensures
            r@ == self.context@ + ": "@ + cause@,
    {
        let mut r = self.context.clone();
        r.append(": ");
        r.append(cause);
        r
    }
}

pub open spec fn load_step(install: bool) -> StepModel {
    StepModel {
        kind: StepKind::LoadExtension,
        sql: sources::sqlite_extension(install),
        context: "could not install/load DuckDB's sqlite extension"@,
    }
}

/// The step that loads the extension for SQLite, installed before where that is asked for.
pub fn load_extension(install: bool) -> (step: SetupStep)
    ensures
        step@ == load_step(install),
{
    SetupStep {
        kind: StepKind::LoadExtension,
        sql: sources::load_sqlite_extension(install).to_owned(),
        context: "could not install/load DuckDB's sqlite extension".to_owned(),
    }
}

pub open spec fn register_step(backend: BackendModel, found: Seq<Seq<char>>) -> StepModel {
    StepModel {
        kind: StepKind::RegisterSource,
        sql: sources::registration(backend, sources::source_files(backend, found)),
        context: "could not attach "@ + backend.name + " ("@ + backend.path + ")"@,
    }
}

/// The step that makes a backend known.
pub fn register(backend: &Backend, found: &Vec<String>) -> (step: SetupStep)
    ensures
        step@ == register_step(backend@, text::texts(found@)),
{
    let files = sources::freeze_files(backend, found);
    let mut context = "could not attach ".to_owned();
    context.append(backend.name.as_str());
    context.append(" (");
    context.append(backend.path.as_str());
    context.append(")");
    SetupStep { kind: StepKind::RegisterSource, sql: sources::attach(backend, &files), context }
}

pub open spec fn view_step(view: ViewModel, sql: Seq<char>) -> StepModel {
    StepModel {
        kind: StepKind::CreateView,
        sql,
        context: "could not create view "@ + config::qualified(view),
    }
}

pub open spec fn script_step(script: Seq<char>) -> StepModel {
    StepModel { kind: StepKind::RunScript, sql: script, context: "init.sql failed"@ }
}

pub open spec fn harden_step(files: Seq<Seq<char>>, threads: nat) -> StepModel {
    StepModel {
        kind: StepKind::Harden,
        sql: sources::hardening(files, threads),
        context: "could not harden DuckDB connection"@,
    }
}

// ---------------------------------------------------------------------------
// The plan of a worker
// ---------------------------------------------------------------------------

/// Whether an enabled backend reads SQLite, for which DuckDB needs an extension.
pub open spec fn needs_sqlite(backends: Seq<BackendModel>) -> bool {
    exists|i: int|
        0 <= i < backends.len() && (#[trigger] backends[i]).enabled && backends[i].kind
            == BackendType::Sqlite
}

/// The steps that make the enabled backends known, in order. Of each backend, `found` holds
/// the files that its path was resolved to.
pub open spec fn register_steps(
    backends: Seq<BackendModel>,
    found: Seq<Seq<Seq<char>>>,
) -> Seq<StepModel>
    decreases backends.len(),
{
    if backends.len() == 0 {
        Seq::empty()
    } else {
        let before = register_steps(backends.drop_last(), found);
        if backends.last().enabled {
            before.push(register_step(backends.last(), found[backends.len() - 1]))
        } else {
            before
        }
    }
}

/// The files that the enabled backends read, in order.
pub open spec fn allowed_files(
    backends: Seq<BackendModel>,
    found: Seq<Seq<Seq<char>>>,
) -> Seq<Seq<char>>
    decreases backends.len(),
{
    if backends.len() == 0 {
        Seq::empty()
    } else {
        let before = allowed_files(backends.drop_last(), found);
        if backends.last().enabled {
            before + sources::source_files(backends.last(), found[backends.len() - 1])
        } else {
            before
        }
    }
}

/// The steps that create the views, in order, or the first error.
pub open spec fn view_steps(backends: Seq<BackendModel>, list: Seq<ViewModel>) -> Result<
    Seq<StepModel>,
    ViewFault,
>
    decreases list.len(),
{
    if list.len() == 0 {
        Ok(Seq::empty())
    } else {
        match view_steps(backends, list.drop_last()) {
            Err(fault) => Err(fault),
            Ok(before) => match views::compilation(backends, list.last()) {
                Err(fault) => Err(fault),
                Ok(None) => Ok(before),
                Ok(Some(sql)) => Ok(before.push(view_step(list.last(), sql))),
            },
        }
    }
}

/// Whether a set-up script holds anything to run.
pub open spec fn has_script(script: Seq<char>) -> bool {
    !text::is_blank(script) && !sql::holds_only_comments(script)
}

/// How many backends are enabled.
pub open spec fn count_enabled(backends: Seq<BackendModel>) -> nat
    decreases backends.len(),
{
    if backends.len() == 0 {
        0
    } else {
        count_enabled(backends.drop_last()) + if backends.last().enabled {
            1nat
        } else {
            0
        }
    }
}

/// How many views have a status.
pub open spec fn count_views(
    backends: Seq<BackendModel>,
    list: Seq<ViewModel>,
    status: ViewStatus,
) -> nat
    decreases list.len(),
{
    if list.len() == 0 {
        0
    } else {
        count_views(backends, list.drop_last(), status) + if views::view_status(
            backends,
            list.last(),
        ) == status {
            1nat
        } else {
            0
        }
    }
}

/// How large a pool is and what it serves.
#[derive(Debug, Clone, Copy, PartialEq, Eq, Structural)]
pub struct PoolStats {
    pub workers: usize,
    pub enabled_backends: usize,
    pub active_views: usize,
    pub unavailable_views: usize,
}

/// The numbers of the pool of a configuration.
pub open spec fn stats_of(stats: PoolStats, c: ConfigModel) -> bool {
    &&& stats.workers == c.workers
    &&& stats.enabled_backends == count_enabled(c.backends)
    &&& stats.active_views == count_views(c.backends, c.views, ViewStatus::Active)
    &&& stats.unavailable_views == count_views(c.backends, c.views, ViewStatus::Unavailable)
}

/// The steps that set up a worker: the extension for SQLite where it is needed, then the
/// enabled backends, the views, the script where there is one, and the hardening last.
pub open spec fn worker_steps(
    c: ConfigModel,
    found: Seq<Seq<Seq<char>>>,
    script: Seq<char>,
    created: Seq<StepModel>,
) -> Seq<StepModel> {
    (if needs_sqlite(c.backends) {
        seq![load_step(false)]
    } else {
        Seq::empty()
    }) + register_steps(c.backends, found) + created + (if has_script(script) {
        seq![script_step(script)]
    } else {
        Seq::empty()
    }) + seq![harden_step(allowed_files(c.backends, found), c.threads_per_worker as nat)]
}

/// Why a pool cannot be built.
#[derive(Debug)]
pub enum PoolError {
    Script(InitSqlError),
    View(ViewError),
}

/// The model of a [`PoolError`].
pub enum PoolFault {
    Script(InitRefusal),
    View(ViewFault),
}

impl View for PoolError {
    type V = PoolFault;

    open spec fn view(&self) -> PoolFault {
        match self {
            PoolError::Script(error) => PoolFault::Script(error@),
            PoolError::View(error) => PoolFault::View(error@),
        }
    }
}

pub open spec fn pool_fault_text(fault: PoolFault) -> Seq<char> {
    match fault {
        PoolFault::Script(refusal) => sql::init_refusal_text(refusal),
        PoolFault::View(fault) => views::view_fault_text(fault),
    }
}

impl PoolError {
    /// The report of the error.
    pub fn message(&self) -> (r: String)
        ensures
            r@ == pool_fault_text(self@),
    {
        match self {
            PoolError::Script(error) => error.message(),
            PoolError::View(error) => error.message(),
        }
    }
}

/// The steps that set up each worker of the pool of a configuration, or why there is no such
/// pool, given what parsing makes of the script.
pub open spec fn pool_plan(
    c: ConfigModel,
    found: Seq<Seq<Seq<char>>>,
    script: Seq<char>,
    parsed: Result<Seq<ParsedModel>, Seq<char>>,
) -> Result<Seq<StepModel>, PoolFault> {
    if has_script(script) && sql::init_refusal(parsed) is Some {
        Err(PoolFault::Script(sql::init_refusal(parsed)->0))
    } else {
        match view_steps(c.backends, c.views) {
            Err(fault) => Err(PoolFault::View(fault)),
            Ok(created) => Ok(worker_steps(c, found, script, created)),
        }
    }
}

/// A pool as it is built: the steps that set up each worker, and its numbers.
#[derive(Debug)]
pub struct QueryPool {
    pub steps: Vec<SetupStep>,
    pub install_sqlite: bool,
    pub stats: PoolStats,
}

/// The model of a [`QueryPool`].
#[verifier::ext_equal]
pub struct PoolModel {
    pub steps: Seq<StepModel>,
    pub install_sqlite: bool,
    pub stats: PoolStats,
}

impl View for QueryPool {
    type V = PoolModel;

    open spec fn view(&self) -> PoolModel {
        PoolModel {
            steps: order::models(self.steps@),
            install_sqlite: self.install_sqlite,
            stats: self.stats,
        }
    }
}

/// Whether a pool is the one of a configuration.
pub open spec fn planned(
    pool: PoolModel,
    c: ConfigModel,
    found: Seq<Seq<Seq<char>>>,
    script: Seq<char>,
    parsed: Result<Seq<ParsedModel>, Seq<char>>,
) -> bool {
    &&& pool_plan(c, found, script, parsed) == Ok::<Seq<StepModel>, PoolFault>(pool.steps)
    &&& pool.install_sqlite == needs_sqlite(c.backends)
    &&& stats_of(pool.stats, c)
}

/// The views of lists of strings.
pub open spec fn found_files(found: Seq<Vec<String>>) -> Seq<Seq<Seq<char>>> {
    found.map_values(|files: Vec<String>| text::texts(files@))
}

fn uses_sqlite(backends: &Vec<Backend>) -> (b: bool)
    ensures
        b == needs_sqlite(order::models(backends@)),
{
    let ghost all = order::models(backends@);
    let mut i: usize = 0;
    while i < backends.len()
        invariant
            i <= backends@.len(),
            all == order::models(backends@),
            forall|j: int|
                0 <= j < i ==> !((#[trigger] all[j]).enabled && all[j].kind == BackendType::Sqlite),
        decreases backends@.len() - i,
    {
        assert(all[i as int] == backends@[i as int]@);
        if backends[i].enabled && backends[i].kind == BackendType::Sqlite {
            return true;
        }
        i += 1;
    }
    false
}

/// Appends the steps that make the enabled backends known, and returns the files that they
/// read and how many backends there are.
fn register_all(steps: &mut Vec<SetupStep>, backends: &Vec<Backend>, found: &Vec<Vec<String>>) -> (r:
    (Vec<String>, usize))
    requires
        found@.len() == backends@.len(),
    ensures
        order::models(final(steps)@) == order::models(old(steps)@) + register_steps(
            order::models(backends@),
            found_files(found@),
        ),
        text::texts(r.0@) == allowed_files(order::models(backends@), found_files(found@)),
        r.1 == count_enabled(order::models(backends@)),
{
    let ghost all = order::models(backends@);
    let ghost lists = found_files(found@);
    let ghost start = order::models(steps@);
    let mut allowed: Vec<String> = Vec::new();
    let mut count: usize = 0;
    let mut i: usize = 0;
    assert(all.take(0) =~= Seq::empty());
    assert(start + register_steps(all.take(0), lists) =~= start);
    assert(text::texts(allowed@) =~= allowed_files(all.take(0), lists));
    while i < backends.len()
        invariant
            i <= backends@.len(),
            found@.len() == backends@.len(),
            all == order::models(backends@),
            lists == found_files(found@),
            order::models(steps@) == start + register_steps(all.take(i as int), lists),
            text::texts(allowed@) == allowed_files(all.take(i as int), lists),
            count == count_enabled(all.take(i as int)),
            count <= i,
        decreases backends@.len() - i,
    {
        assert(all[i as int] == backends@[i as int]@);
        assert(lists[i as int] == text::texts(found@[i as int]@));
        assert(all.take(i + 1).drop_last() =~= all.take(i as int));
        assert(all.take(i + 1).last() == all[i as int]);
        if backends[i].enabled {
            let step = register(&backends[i], &found[i]);
            proof {
                order::lemma_models_push(steps@, step);
            }
            steps.push(step);
            let mut files = sources::freeze_files(&backends[i], &found[i]);
            let ghost before = allowed@;
            let ghost added = files@;
            allowed.append(&mut files);
            assert(text::texts(allowed@) =~= text::texts(before) + text::texts(added));
            count += 1;
            assert(order::models(steps@) =~= start + register_steps(all.take(i + 1), lists));
        }
        i += 1;
    }
    assert(all.take(all.len() as int) =~= all);
    (allowed, count)
}

/// Appends the steps that create the views, and returns how many views are active and how
/// many unavailable.
fn create_views(steps: &mut Vec<SetupStep>, config: &Config) -> (r: Result<
    (usize, usize),
    ViewError,
>)
    ensures
        match r {
            Err(error) => view_steps(config@.backends, config@.views)
                == Err::<Seq<StepModel>, ViewFault>(error@),
            Ok((active, unavailable)) => {
                &&& view_steps(config@.backends, config@.views) matches Ok(created)
                    && order::models(final(steps)@) == order::models(old(steps)@) + created
                &&& active == count_views(config@.backends, config@.views, ViewStatus::Active)
                &&& unavailable == count_views(
                    config@.backends,
                    config@.views,
                    ViewStatus::Unavailable,
                )
            },
        },
{
    let ghost backends = config@.backends;
    let ghost all = config@.views;
    let ghost start = order::models(steps@);
    let ghost mut created = Seq::<StepModel>::empty();
    let mut active: usize = 0;
    let mut unavailable: usize = 0;
    let mut i: usize = 0;
    assert(start + created =~= start);
    assert(all.take(0) =~= Seq::empty());
    while i < config.views.len()
        invariant
            i <= config.views@.len(),
            backends == order::models(config.backends@),
            all == order::models(config.views@),
            all == config@.views,
            view_steps(backends, all.take(i as int)) == Ok::<Seq<StepModel>, ViewFault>(created),
            order::models(steps@) == start + created,
            active == count_views(backends, all.take(i as int), ViewStatus::Active),
            unavailable == count_views(backends, all.take(i as int), ViewStatus::Unavailable),
            active <= i,
            unavailable <= i,
        decreases config.views@.len() - i,
    {
        let view = &config.views[i];
        assert(all[i as int] == view@);
        assert(all.take(i + 1).drop_last() =~= all.take(i as int));
        assert(all.take(i + 1).last() == view@);
        match views::compile_view(&config.backends, view) {
            Err(error) => {
                proof {
                    lemma_first_view_fault(backends, all, i as int, error@);
                }
                return Err(error);
            },
            Ok(None) => {},
            Ok(Some(sql)) => {
                let mut context = "could not create view ".to_owned();
                context.append(view.qualified_name().as_str());
                let step = SetupStep { kind: StepKind::CreateView, sql, context };
                proof {
                    order::lemma_models_push(steps@, step);
                    created = created.push(step@);
                }
                steps.push(step);
                assert(order::models(steps@) =~= start + created);
            },
        }
        match views::resolve_view(&config.backends, view).status {
            ViewStatus::Active => {
                active += 1;
            },
            ViewStatus::Unavailable => {
                unavailable += 1;
            },
            ViewStatus::Disabled => {},
        }
        i += 1;
    }
    assert(all.take(all.len() as int) =~= all);
    Ok((active, unavailable))
}

/// Where the views in front compile and the next does not, its error is that of the list.
proof fn lemma_first_view_fault(
    backends: Seq<BackendModel>,
    list: Seq<ViewModel>,
    i: int,
    fault: ViewFault,
)
    requires
        0 <= i < list.len(),
        view_steps(backends, list.take(i)) is Ok,
        views::compilation(backends, list[i]) == Err::<Option<Seq<char>>, ViewFault>(fault),
    ensures
        view_steps(backends, list) == Err::<Seq<StepModel>, ViewFault>(fault),
    decreases list.len(),
{
    if i == list.len() - 1 {
        assert(list.take(i) =~= list.drop_last());
    } else {
        let front = list.drop_last();
        assert(front.take(i) =~= list.take(i));
        lemma_first_view_fault(backends, front, i, fault);
    }
}

impl QueryPool {
    /// The pool of a configuration with a script that may be run.
    pub fn with_script(config: &Config, found: &Vec<Vec<String>>, script: &str) -> (r: Result<
        QueryPool,
        ViewError,
    >)
        requires
            found@.len() == config.backends@.len(),
        ensures
            match r {
                Err(error) => view_steps(config@.backends, config@.views)
                    == Err::<Seq<StepModel>, ViewFault>(error@),
                Ok(pool) => {
                    &&& view_steps(config@.backends, config@.views) matches Ok(created)
                        && order::models(pool.steps@) == worker_steps(
                        config@,
                        found_files(found@),
                        script@,
                        created,
                    )
                    &&& pool.install_sqlite == needs_sqlite(config@.backends)
                    &&& stats_of(pool.stats, config@)
                },
            },
    {
        let ghost c = config@;
        let ghost lists = found_files(found@);
        let mut steps: Vec<SetupStep> = Vec::new();
        let install_sqlite = uses_sqlite(&config.backends);
        let ghost first: Seq<StepModel> = if needs_sqlite(c.backends) {
            seq![load_step(false)]
        } else {
            Seq::empty()
        };
        if install_sqlite {
            let step = load_extension(false);
            proof {
                order::lemma_models_push(steps@, step);
            }
            steps.push(step);
        }
        assert(order::models(steps@) =~= first);
        let (allowed, enabled_backends) = register_all(&mut steps, &config.backends, found);
        let ghost second = register_steps(c.backends, lists);
        assert(order::models(steps@) == first + second);
        match create_views(&mut steps, config) {
            Err(error) => Err(error),
            Ok((active_views, unavailable_views)) => {
                let ghost created = view_steps(c.backends, c.views)->Ok_0;
                let ghost third = order::models(steps@);
                assert(third == first + second + created);
                let ghost fourth: Seq<StepModel> = if has_script(script@) {
                    seq![script_step(script@)]
                } else {
                    Seq::empty()
                };
                if !text::text_is_blank(script) && !sql::only_comments(script) {
                    let step = SetupStep {
                        kind: StepKind::RunScript,
                        sql: script.to_owned(),
                        context: "init.sql failed".to_owned(),
                    };
                    proof {
                        order::lemma_models_push(steps@, step);
                    }
                    steps.push(step);
                }
                assert(order::models(steps@) =~= third + fourth);
                let last = SetupStep {
                    kind: StepKind::Harden,
                    sql: sources::harden_connection(&allowed, config.threads_per_worker),
                    context: "could not harden DuckDB connection".to_owned(),
                };
                proof {
                    order::lemma_models_push(steps@, last);
                }
                steps.push(last);
                assert(order::models(steps@) =~= worker_steps(c, lists, script@, created));
                Ok(
                    QueryPool {
                        steps,
                        install_sqlite,
                        stats: PoolStats {
                            workers: config.workers,
                            enabled_backends,
                            active_views,
                            unavailable_views,
                        },
                    },
                )
            },
        }
    }

    /// The pool of a configuration. Of each backend, `found` holds the files that its path was
    /// resolved to, which matters where it is Parquet.
    pub fn new(config: &Config, found: &Vec<Vec<String>>, init_sql: &str) -> (r: Result<
        QueryPool,
        PoolError,
    >)
        requires
            found@.len() == config.backends@.len(),
        ensures
            match r {
                Err(error) => pool_plan(
                    config@,
                    found_files(found@),
                    init_sql@,
                    sql::parsed_sql(init_sql@),
                ) == Err::<Seq<StepModel>, PoolFault>(error@),
                Ok(pool) => planned(
                    pool@,
                    config@,
                    found_files(found@),
                    init_sql@,
                    sql::parsed_sql(init_sql@),
                ),
            },
    {
        if !text::text_is_blank(init_sql) && !sql::only_comments(init_sql) {
            if let Err(error) = sql::validate_init_sql(init_sql) {
                return Err(PoolError::Script(error));
            }
        }
        match QueryPool::with_script(config, found, init_sql) {
            Err(error) => Err(PoolError::View(error)),
            Ok(pool) => Ok(pool),
        }
    }

    /// Whether a query may be run, and the worker that it is offered to first. A query that
    /// may not be run is offered to none.
    pub fn query(&self, sql: &str, ticket: usize) -> (r: Result<Admission, SqlValidationError>)
        requires
            self.stats.workers > 0,
        ensures
            match r {
                Err(error) => sql::query_refusal(sql@, sql::parsed_sql(sql@)) == Some(error@),
                Ok(admission) => {
                    &&& sql::query_refusal(sql@, sql::parsed_sql(sql@)) is None
                    &&& admission == Admission::Offer(
                        query::candidate(ticket as nat, self.stats.workers as nat, 0) as usize,
                    )
                },
            },
    {
        match sql::validate_read_only(sql) {
            Err(error) => Err(error),
            Ok(_) => Ok(query::next_worker(ticket, self.stats.workers, 0)),
        }
    }

    /// How many workers the pool has.
    pub fn workers(&self) -> (r: usize)
        ensures
            r == self.stats.workers,
    {
        self.stats.workers
    }

    /// How many backends the pool serves.
    pub fn enabled_backends(&self) -> (r: usize)
        ensures
            r == self.stats.enabled_backends,
    {
        self.stats.enabled_backends
    }
}

// ---------------------------------------------------------------------------
// Laws of the plan
// ---------------------------------------------------------------------------

/// The place of a kind of step in the order of setting up a worker.
pub open spec fn rank(kind: StepKind) -> int {
    match kind {
        StepKind::LoadExtension => 0,
        StepKind::RegisterSource => 1,
        StepKind::CreateView => 2,
        StepKind::RunScript => 3,
        StepKind::Harden => 4,
    }
}

proof fn lemma_register_kinds(backends: Seq<BackendModel>, found: Seq<Seq<Seq<char>>>)
    ensures
        forall|i: int|
            0 <= i < register_steps(backends, found).len() ==> (#[trigger] register_steps(
                backends,
                found,
            )[i]).kind == StepKind::RegisterSource,
    decreases backends.len(),
{
    if backends.len() > 0 {
        lemma_register_kinds(backends.drop_last(), found);
    }
}

proof fn lemma_view_kinds(backends: Seq<BackendModel>, list: Seq<ViewModel>)
    ensures
        view_steps(backends, list) matches Ok(created) ==> forall|i: int|
            0 <= i < created.len() ==> (#[trigger] created[i]).kind == StepKind::CreateView,
    decreases list.len(),
{
    if list.len() > 0 {
        lemma_view_kinds(backends, list.drop_last());
    }
}

/// A worker is set up in order: the extension is loaded before any backend is registered,
/// every backend is registered before any view is created, every view is created before the
/// script runs, and the worker is shut off after all of that, once.
pub proof fn workers_are_hardened_last(
    c: ConfigModel,
    found: Seq<Seq<Seq<char>>>,
    script: Seq<char>,
    parsed: Result<Seq<ParsedModel>, Seq<char>>,
)
    ensures
        pool_plan(c, found, script, parsed) matches Ok(steps) ==> {
            &&& steps.len() > 0
            &&& steps.last().kind == StepKind::Harden
            &&& forall|i: int|
                0 <= i < steps.len() - 1 ==> (#[trigger] steps[i]).kind != StepKind::Harden
            &&& forall|i: int, j: int|
                #![trigger steps[i], steps[j]]
                0 <= i < j < steps.len() ==> rank(steps[i].kind) <= rank(steps[j].kind)
        },
{
    lemma_register_kinds(c.backends, found);
    lemma_view_kinds(c.backends, c.views);
}

/// The files that a worker may read are exactly those of the enabled backends.
pub proof fn allowed_files_are_those_of_enabled_backends(
    backends: Seq<BackendModel>,
    found: Seq<Seq<Seq<char>>>,
    file: Seq<char>,
)
    ensures
        allowed_files(backends, found).contains(file) <==> exists|i: int|
            0 <= i < backends.len() && (#[trigger] backends[i]).enabled && sources::source_files(
                backends[i],
                found[i],
            ).contains(file),
    decreases backends.len(),
{
    if backends.len() > 0 {
        let front = backends.drop_last();
        let before = allowed_files(front, found);
        let n = backends.len() - 1;
        let files = sources::source_files(backends[n], found[n]);
        allowed_files_are_those_of_enabled_backends(front, found, file);
        if allowed_files(backends, found).contains(file) {
            let all = allowed_files(backends, found);
            let k = choose|k: int| 0 <= k < all.len() && all[k] == file;
            if k < before.len() {
                assert(before[k] == file);
                let i = choose|i: int|
                    0 <= i < front.len() && (#[trigger] front[i]).enabled && sources::source_files(
                        front[i],
                        found[i],
                    ).contains(file);
                assert(backends[i] == front[i]);
            } else {
                assert(files[k - before.len()] == file);
                assert(backends[n].enabled);
            }
        }
        if exists|i: int|
            0 <= i < backends.len() && (#[trigger] backends[i]).enabled && sources::source_files(
                backends[i],
                found[i],
            ).contains(file) {
            let i = choose|i: int|
                0 <= i < backends.len() && (#[trigger] backends[i]).enabled
                    && sources::source_files(backends[i], found[i]).contains(file);
            if i < n {
                assert(front[i] == backends[i]);
                let k = choose|k: int| 0 <= k < before.len() && before[k] == file;
                assert(allowed_files(backends, found)[k] == file);
            } else {
                let k = choose|k: int| 0 <= k < files.len() && files[k] == file;
                assert(allowed_files(backends, found)[before.len() + k] == file);
            }
        }
    }
}

/// Whether a step registers an enabled backend.
pub open spec fn registers_an_enabled(
    step: StepModel,
    backends: Seq<BackendModel>,
    found: Seq<Seq<Seq<char>>>,
) -> bool {
    exists|i: int|
        0 <= i < backends.len() && (#[trigger] backends[i]).enabled && step == register_step(
            backends[i],
            found[i],
        )
}

/// A worker knows exactly the enabled backends: there is one registration for each, and
/// every registration is that of one.
pub proof fn only_enabled_backends_are_registered(
    backends: Seq<BackendModel>,
    found: Seq<Seq<Seq<char>>>,
)
    ensures
        register_steps(backends, found).len() == count_enabled(backends),
        count_enabled(backends) <= backends.len(),
        forall|k: int|
            0 <= k < register_steps(backends, found).len() ==> registers_an_enabled(
                #[trigger] register_steps(backends, found)[k],
                backends,
                found,
            ),
    decreases backends.len(),
{
    if backends.len() > 0 {
        let front = backends.drop_last();
        only_enabled_backends_are_registered(front, found);
        let all = register_steps(backends, found);
        let before = register_steps(front, found);
        assert forall|k: int| 0 <= k < all.len() implies registers_an_enabled(
            #[trigger] all[k],
            backends,
            found,
        ) by {
            if k < before.len() {
                assert(all[k] == before[k]);
                assert(registers_an_enabled(before[k], front, found));
                let i = choose|i: int|
                    0 <= i < front.len() && (#[trigger] front[i]).enabled && before[k]
                        == register_step(front[i], found[i]);
                assert(backends[i] == front[i]);
            } else {
                assert(backends[backends.len() - 1].enabled);
            }
        }
    }
}

/// The views that are created are the active ones, one for one.
pub proof fn active_views_are_created(backends: Seq<BackendModel>, list: Seq<ViewModel>)
    ensures
        view_steps(backends, list) matches Ok(created) ==> created.len() == count_views(
            backends,
            list,
            ViewStatus::Active,
        ),
        count_views(backends, list, ViewStatus::Active) + count_views(
            backends,
            list,
            ViewStatus::Unavailable,
        ) <= list.len(),
    decreases list.len(),
{
    if list.len() > 0 {
        active_views_are_created(backends, list.drop_last());
    }
}

/// Where every view skips what is missing, no view keeps a pool from being built.
pub proof fn lenient_views_never_block_a_pool(backends: Seq<BackendModel>, list: Seq<ViewModel>)
    requires
        forall|i: int|
            0 <= i < list.len() ==> (#[trigger] list[i]).missing_source_policy
                == config::MissingSourcePolicy::Skip,
    ensures
        view_steps(backends, list) is Ok,
    decreases list.len(),
{
    if list.len() > 0 {
        let front = list.drop_last();
        assert forall|i: int| 0 <= i < front.len() implies (#[trigger] front[i])
            .missing_source_policy == config::MissingSourcePolicy::Skip by {
            assert(front[i] == list[i]);
        }
        lenient_views_never_block_a_pool(backends, front);
        assert(list[list.len() - 1].missing_source_policy == config::MissingSourcePolicy::Skip);
        views::lenient_views_never_fail(backends, list.last());
    }
}

/// A gateway that nothing is registered with has a pool, whose workers are only shut off,
/// from every file.
pub proof fn an_empty_registry_has_a_pool(
    c: ConfigModel,
    found: Seq<Seq<Seq<char>>>,
    script: Seq<char>,
    parsed: Result<Seq<ParsedModel>, Seq<char>>,
)
    requires
        c.backends.len() == 0,
        c.views.len() == 0,
        !has_script(script),
    ensures
        pool_plan(c, found, script, parsed) == Ok::<Seq<StepModel>, PoolFault>(
            seq![harden_step(Seq::empty(), c.threads_per_worker as nat)],
        ),
{
    assert(worker_steps(c, found, script, Seq::empty()) =~= seq![
        harden_step(Seq::empty(), c.threads_per_worker as nat),
    ]);
}

// ---------------------------------------------------------------------------
// Starting
// ---------------------------------------------------------------------------

/// What a worker reports of its set-up.
#[derive(Debug)]
pub enum Readiness {
    Ready,
    /// The set-up failed, for the reason given.
    Failed(String),
    /// The worker was gone before it reported, as the receiver of its report tells.
    Exited(String),
}

pub open spec fn readiness_report(readiness: Readiness) -> Option<Seq<char>> {
    match readiness {
        Readiness::Ready => None,
        Readiness::Failed(report) => Some(report@),
        Readiness::Exited(cause) => Some("query worker exited during startup: "@ + cause@),
    }
}

/// The report of the first worker, from `from` on, that did not get ready.
pub open spec fn first_report(reports: Seq<Readiness>, from: int) -> Option<Seq<char>>
    decreases reports.len() - from,
{
    if from >= reports.len() {
        None
    } else if readiness_report(reports[from]) is Some {
        readiness_report(reports[from])
    } else {
        first_report(reports, from + 1)
    }
}

/// The first report counts that tells of a worker which did not get ready, and there is none
/// exactly where all got ready.
pub proof fn the_first_report_counts(reports: Seq<Readiness>, from: int)
    requires
        0 <= from <= reports.len(),
    ensures
        first_report(reports, from) is None <==> forall|i: int|
            from <= i < reports.len() ==> #[trigger] reports[i] is Ready,
        first_report(reports, from) matches Some(report) ==> exists|i: int|
            from <= i < reports.len() && readiness_report(#[trigger] reports[i]) == Some(report)
                && (forall|j: int| from <= j < i ==> #[trigger] reports[j] is Ready),
    decreases reports.len() - from,
{
    if from < reports.len() {
        the_first_report_counts(reports, from + 1);
        if reports[from] is Ready {
            if let Some(report) = first_report(reports, from + 1) {
                let i = choose|i: int|
                    from + 1 <= i < reports.len() && readiness_report(#[trigger] reports[i])
                        == Some(report) && (forall|j: int|
                        from + 1 <= j < i ==> #[trigger] reports[j] is Ready);
                assert(readiness_report(reports[i]) == Some(report));
            }
        }
    }
}

/// Whether a pool may serve: every worker got ready. The error is the report of the first
/// that did not.
pub fn all_ready(reports: &Vec<Readiness>) -> (r: Result<(), String>)
    ensures
        match r {
            Ok(_) => first_report(reports@, 0) is None,
            Err(report) => first_report(reports@, 0) == Some(report@),
        },
        r is Ok <==> forall|i: int| 0 <= i < reports@.len() ==> #[trigger] reports@[i] is Ready,
{
    let mut i: usize = 0;
    while i < reports.len()
        invariant
            i <= reports@.len(),
            first_report(reports@, 0) == first_report(reports@, i as int),
            forall|j: int| 0 <= j < i ==> #[trigger] reports@[j] is Ready,
        decreases reports@.len() - i,
    {
        match &reports[i] {
            Readiness::Ready => {},
            Readiness::Failed(report) => {
                assert(!(reports@[i as int] is Ready));
                return Err(report.clone());
            },
            Readiness::Exited(cause) => {
                assert(!(reports@[i as int] is Ready));
                let mut report = "query worker exited during startup: ".to_owned();
                report.append(cause.as_str());
                return Err(report);
            },
        }
        i += 1;
    }
    Ok(())
}

// ---------------------------------------------------------------------------
// Trying a backend
// ---------------------------------------------------------------------------

/// Why a backend cannot be tried.
#[derive(Debug)]
pub struct MissingSource {
    pub kind: BackendType,
    pub path: String,
}

impl MissingSource {
    /// The report of the error.
    pub fn message(&self) -> (r: String)
        ensures
            r@ == missing_source_text(self.kind, self.path@),
    {
        let mut r = match self.kind {
            BackendType::Sqlite => "SQLite file does not exist: ",
            BackendType::Duckdb => "DuckDB file does not exist: ",
            BackendType::Parquet => "no Parquet file matches: ",
        }.to_owned();
        r.append(self.path.as_str());
        r
    }
}

pub open spec fn missing_source_text(kind: BackendType, path: Seq<char>) -> Seq<char> {
    match kind {
        BackendType::Sqlite => "SQLite file does not exist: "@ + path,
        BackendType::Duckdb => "DuckDB file does not exist: "@ + path,
        BackendType::Parquet => "no Parquet file matches: "@ + path,
    }
}

/// The steps by which a backend is tried on a connection of its own.
pub open spec fn trial_steps(backend: BackendModel, found: Seq<Seq<char>>) -> Seq<StepModel> {
    if backend.kind == BackendType::Sqlite {
        seq![load_step(true), register_step(backend, found)]
    } else {
        seq![register_step(backend, found)]
    }
}

/// The steps by which a backend is tried, where there are files to read: `found` holds the
/// regular files that its path stands for. The query [`sources::backend_probe`] follows them.
pub fn test_backend(backend: &Backend, found: &Vec<String>) -> (r: Result<
    Vec<SetupStep>,
    MissingSource,
>)
    ensures
        match r {
            Err(error) => found@.len() == 0 && error.kind == backend@.kind && error.path@
                == backend@.path,
            Ok(steps) => found@.len() > 0 && order::models(steps@) == trial_steps(
                backend@,
                text::texts(found@),
            ),
        },
{
    if found.len() == 0 {
        return Err(MissingSource { kind: backend.kind, path: backend.path.clone() });
    }
    let mut steps: Vec<SetupStep> = Vec::new();
    if backend.kind == BackendType::Sqlite {
        steps.push(load_extension(true));
    }
    steps.push(register(backend, found));
    assert(order::models(steps@) =~= trial_steps(backend@, text::texts(found@)));
    Ok(steps)
}

/// The configuration by which a change is tried before it is saved: the same with one worker.
pub fn probe_config(config: &Config) -> (r: Config)
    ensures
        r@ == (ConfigModel { workers: 1, ..config@ }),
{
    let mut r = config.clone();
    r.workers = 1;
    assert(r@ =~= (ConfigModel { workers: 1, ..config@ }));
    r
}

// ---------------------------------------------------------------------------
// Laws of the pool
// ---------------------------------------------------------------------------

/// How many views in front of `i` are active.
pub open spec fn active_before(backends: Seq<BackendModel>, list: Seq<ViewModel>, i: int) -> int {
    count_views(backends, list.take(i), ViewStatus::Active) as int
}

/// How many backends in front of `i` are enabled.
pub open spec fn enabled_before(backends: Seq<BackendModel>, i: int) -> int {
    count_enabled(backends.take(i)) as int
}

/// Whether the step of a place creates a view: it runs the statements that the view is
/// compiled to, all of them and nothing else, and names the view where it fails.
pub open spec fn creates(
    step: StepModel,
    backends: Seq<BackendModel>,
    view: ViewModel,
) -> bool {
    &&& step.kind == StepKind::CreateView
    &&& views::compilation(backends, view) == Ok::<Option<Seq<char>>, ViewFault>(Some(step.sql))
    &&& step.context == "could not create view "@ + view.schema + "."@ + view.name
}

proof fn lemma_view_is_created(backends: Seq<BackendModel>, list: Seq<ViewModel>, i: int)
    requires
        0 <= i < list.len(),
        view_steps(backends, list) is Ok,
    ensures
        views::view_status(backends, list[i]) == ViewStatus::Active ==> ({
            let created = view_steps(backends, list)->Ok_0;
            let place = active_before(backends, list, i);
            0 <= place < created.len() && creates(created[place], backends, list[i])
        }),
    decreases list.len(),
{
    let front = list.drop_last();
    active_views_are_created(backends, front);
    if i < front.len() {
        lemma_view_is_created(backends, front, i);
        assert(front.take(i) =~= list.take(i));
        assert(front[i] == list[i]);
    } else {
        assert(list.take(i) =~= front);
        if views::view_status(backends, list[i]) == ViewStatus::Active {
            let created = view_steps(backends, list)->Ok_0;
            let place = active_before(backends, list, i);
            assert(creates(created[place], backends, list[i])) by {
                assert("could not create view "@ + config::qualified(list[i])
                    =~= "could not create view "@ + list[i].schema + "."@ + list[i].name);
            }
        }
    }
}

/// Where the steps that make the backends known begin in a plan.
pub open spec fn registrations_from(c: ConfigModel) -> int {
    if needs_sqlite(c.backends) {
        1
    } else {
        0
    }
}

/// Where the steps that create the views begin in a plan.
pub open spec fn views_from(c: ConfigModel) -> int {
    registrations_from(c) + count_enabled(c.backends)
}

/// Where a pool is built, each active view is created by the statements that it is compiled to
/// among the configured backends, in the order of the views: the step of an active view stands
/// behind those of the active views in front of it, which stand behind all registrations.
pub proof fn every_active_view_is_created(
    config: &Config,
    found: &Vec<Vec<String>>,
    script: &str,
    pool: QueryPool,
    i: int,
)
    requires
        found@.len() == config.backends@.len(),
        call_ensures(QueryPool::new, (config, found, script), Ok(pool)),
        0 <= i < config@.views.len(),
        views::view_status(config@.backends, config@.views[i]) == ViewStatus::Active,
    ensures
        ({
            let c = config@;
            let place = views_from(c) + active_before(c.backends, c.views, i);
            &&& views_from(c) <= place < pool@.steps.len()
            &&& creates(pool@.steps[place], c.backends, c.views[i])
        }),
{
    let c = config@;
    let lists = found_files(found@);
    let created = view_steps(c.backends, c.views)->Ok_0;
    lemma_view_is_created(c.backends, c.views, i);
    only_enabled_backends_are_registered(c.backends, lists);
    let place = active_before(c.backends, c.views, i);
    let steps = worker_steps(c, lists, script@, created);
    assert(pool@.steps == steps);
    assert(steps[views_from(c) + place] == created[place]);
}

/// The statements that make a backend known begin with the path and the name of the backend,
/// or with the schema and the relation that its files are read as.
pub open spec fn registration_head(backend: BackendModel) -> Seq<char> {
    if backend.kind == BackendType::Parquet {
        "CREATE SCHEMA IF NOT EXISTS "@ + crate::quote::quoted_ident(backend.name)
            + ";\nCREATE VIEW "@ + crate::quote::quoted_ident(backend.name) + "."@
    } else {
        "ATTACH "@ + crate::quote::quoted_literal(backend.path) + " AS "@
            + crate::quote::quoted_ident(backend.name) + " (TYPE "@
    }
}

proof fn lemma_backend_is_registered(
    backends: Seq<BackendModel>,
    found: Seq<Seq<Seq<char>>>,
    i: int,
)
    requires
        0 <= i < backends.len(),
        backends[i].enabled,
    ensures
        0 <= enabled_before(backends, i) < register_steps(backends, found).len(),
        register_steps(backends, found)[enabled_before(backends, i)] == register_step(
            backends[i],
            found[i],
        ),
    decreases backends.len(),
{
    let front = backends.drop_last();
    only_enabled_backends_are_registered(front, found);
    if i < front.len() {
        lemma_backend_is_registered(front, found, i);
        assert(front.take(i) =~= backends.take(i));
        assert(front[i] == backends[i]);
    } else {
        assert(backends.take(i) =~= front);
    }
}

/// Where a pool is built, each enabled backend is made known by statements of its own, in the
/// order of the backends: they name it and, unless it is Parquet, its path.
pub proof fn every_enabled_backend_is_registered(
    config: &Config,
    found: &Vec<Vec<String>>,
    script: &str,
    pool: QueryPool,
    i: int,
)
    requires
        found@.len() == config.backends@.len(),
        call_ensures(QueryPool::new, (config, found, script), Ok(pool)),
        0 <= i < config@.backends.len(),
        config@.backends[i].enabled,
    ensures
        ({
            let backend = config@.backends[i];
            let place = registrations_from(config@) + enabled_before(config@.backends, i);
            let files = sources::source_files(backend, text::texts(found@[i]@));
            &&& registrations_from(config@) <= place < pool@.steps.len()
            &&& pool@.steps[place].kind == StepKind::RegisterSource
            &&& registration_head(backend).is_prefix_of(pool@.steps[place].sql)
            &&& pool@.steps[place].sql == sources::registration(backend, files)
            &&& pool@.steps[place].context == "could not attach "@ + backend.name + " ("@
                + backend.path + ")"@
        }),
{
    let c = config@;
    let lists = found_files(found@);
    let created = view_steps(c.backends, c.views)->Ok_0;
    lemma_backend_is_registered(c.backends, lists, i);
    let place = enabled_before(c.backends, i);
    let steps = worker_steps(c, lists, script@, created);
    assert(pool@.steps == steps);
    assert(steps[registrations_from(c) + place] == register_steps(c.backends, lists)[place]);
    assert(lists[i] == text::texts(found@[i]@));
    let head = registration_head(c.backends[i]);
    let sql = steps[registrations_from(c) + place].sql;
    reveal_strlit(" (TYPE ");
    reveal_strlit(" (TYPE SQLITE, READ_ONLY)");
    reveal_strlit(" (TYPE DUCKDB, READ_ONLY)");
    assert(sql.take(head.len() as int) =~= head);
}

/// A pool has no steps beyond those of the extension for SQLite, where an enabled backend needs
/// it, of the enabled backends, of the active views, of the script where it holds anything to
/// run, and of the hardening. The extension is only loaded, and installed before by whoever
/// builds the pool; the script is run as it is; and the hardening has the threads of the
/// configuration and the files of the enabled backends.
pub proof fn a_pool_is_set_up_by_these_steps_alone(
    config: &Config,
    found: &Vec<Vec<String>>,
    script: &str,
    pool: QueryPool,
)
    requires
        found@.len() == config.backends@.len(),
        call_ensures(QueryPool::new, (config, found, script), Ok(pool)),
    ensures
        ({
            let c = config@;
            let steps = pool@.steps;
            let ran = !text::is_blank(script@) && !sql::holds_only_comments(script@);
            let active = count_views(c.backends, c.views, ViewStatus::Active);
            &&& steps.len() == views_from(c) + active + (if ran {
                2int
            } else {
                1int
            })
            &&& pool.install_sqlite <==> exists|i: int|
                0 <= i < c.backends.len() && (#[trigger] c.backends[i]).enabled
                    && c.backends[i].kind == BackendType::Sqlite
            &&& pool.install_sqlite ==> steps[0].kind == StepKind::LoadExtension && steps[0].sql
                == "LOAD sqlite;"@ && steps[0].context
                == "could not install/load DuckDB's sqlite extension"@
            &&& ran ==> steps[steps.len() - 2].kind == StepKind::RunScript && steps[steps.len()
                - 2].sql == script@ && steps[steps.len() - 2].context == "init.sql failed"@
            &&& steps.last().context == "could not harden DuckDB connection"@
            &&& steps.last().sql == sources::hardening(
                allowed_files(c.backends, found_files(found@)),
                config.threads_per_worker as nat,
            )
            &&& pool.stats.workers == config.workers
            &&& pool.stats.enabled_backends == count_enabled(c.backends)
            &&& pool.stats.active_views == active
            &&& pool.stats.unavailable_views == count_views(
                c.backends,
                c.views,
                ViewStatus::Unavailable,
            )
        }),
{
    let c = config@;
    let lists = found_files(found@);
    only_enabled_backends_are_registered(c.backends, lists);
    active_views_are_created(c.backends, c.views);
}

/// A further backend is counted where it is enabled, and a further view where it has the status
/// that is asked for; none is counted twice.
pub proof fn counting_counts_each_once(
    backends: Seq<BackendModel>,
    backend: BackendModel,
    list: Seq<ViewModel>,
    view: ViewModel,
    status: ViewStatus,
)
    ensures
        count_enabled(Seq::empty()) == 0,
        backend.enabled ==> count_enabled(backends.push(backend)) == count_enabled(backends) + 1,
        !backend.enabled ==> count_enabled(backends.push(backend)) == count_enabled(backends),
        count_views(backends, Seq::empty(), status) == 0,
        views::view_status(backends, view) == status ==> count_views(
            backends,
            list.push(view),
            status,
        ) == count_views(backends, list, status) + 1,
        views::view_status(backends, view) != status ==> count_views(
            backends,
            list.push(view),
            status,
        ) == count_views(backends, list, status),
{
    assert(backends.push(backend).drop_last() =~= backends);
    assert(list.push(view).drop_last() =~= list);
}

/// No pool is built where the script may not be run, or else where a view cannot be compiled:
/// the error is that of the script, or of the first such view. In any other case there is one.
pub proof fn a_pool_is_refused_for_its_script_or_its_first_bad_view(
    config: &Config,
    found: &Vec<Vec<String>>,
    script: &str,
    r: Result<QueryPool, PoolError>,
    k: int,
)
    requires
        found@.len() == config.backends@.len(),
        call_ensures(QueryPool::new, (config, found, script), r),
    ensures
        ({
            let c = config@;
            let ran = !text::is_blank(script@) && !sql::holds_only_comments(script@);
            let refused = ran && sql::init_refusal(sql::parsed_sql(script@)) is Some;
            let first = 0 <= k < c.views.len() && views::compilation(c.backends, c.views[k]) is Err
                && (forall|i: int|
                0 <= i < k ==> views::compilation(c.backends, #[trigger] c.views[i]) is Ok);
            &&& refused ==> (r matches Err(PoolError::Script(error)) && sql::init_refusal(
                sql::parsed_sql(script@),
            ) == Some(error@))
            &&& !refused && first ==> (r matches Err(PoolError::View(error))
                && views::compilation(c.backends, c.views[k]) == Err::<
                Option<Seq<char>>,
                ViewFault,
            >(error@))
            &&& !refused && (forall|i: int|
                0 <= i < c.views.len() ==> views::compilation(
                    c.backends,
                    #[trigger] c.views[i],
                ) is Ok) ==> r is Ok
        }),
{
    let c = config@;
    if 0 <= k < c.views.len() && views::compilation(c.backends, c.views[k]) is Err && (forall|
        i: int,
    |
        0 <= i < k ==> views::compilation(c.backends, #[trigger] c.views[i]) is Ok) {
        let front = c.views.take(k);
        assert forall|i: int| 0 <= i < front.len() implies views::compilation(
            c.backends,
            #[trigger] front[i],
        ) is Ok by {
            assert(front[i] == c.views[i]);
        }
        lemma_views_compile(c.backends, front);
        lemma_first_view_fault(
            c.backends,
            c.views,
            k,
            views::compilation(c.backends, c.views[k])->Err_0,
        );
    }
    if forall|i: int|
        0 <= i < c.views.len() ==> views::compilation(c.backends, #[trigger] c.views[i]) is Ok {
        lemma_views_compile(c.backends, c.views);
    }
}

proof fn lemma_views_compile(backends: Seq<BackendModel>, list: Seq<ViewModel>)
    requires
        forall|i: int|
            0 <= i < list.len() ==> views::compilation(backends, #[trigger] list[i]) is Ok,
    ensures
        view_steps(backends, list) is Ok,
    decreases list.len(),
{
    if list.len() > 0 {
        let front = list.drop_last();
        assert forall|i: int| 0 <= i < front.len() implies views::compilation(
            backends,
            #[trigger] front[i],
        ) is Ok by {
            assert(front[i] == list[i]);
        }
        lemma_views_compile(backends, front);
        assert(views::compilation(backends, list[list.len() - 1]) is Ok);
    }
}

/// The report of a step that failed begins with what the step was to do, and ends with the
/// cause.
pub proof fn failed_steps_tell_context_and_cause(step: &SetupStep, cause: &str, r: String)
    requires
        call_ensures(SetupStep::failure, (step, cause), r),
    ensures
        (step.context@ + ": "@).is_prefix_of(r@),
        r@.skip((step.context@ + ": "@).len() as int) == cause@,
{
    let head = step.context@ + ": "@;
    assert(r@.take(head.len() as int) =~= head);
    assert(r@.skip(head.len() as int) =~= cause@);
}

/// A backend is tried by making it known and nothing else, behind the extension where it is
/// SQLite, which is installed first; and it is tried exactly where there is a file to read.
pub proof fn a_backend_is_tried_by_registering_it(
    backend: &Backend,
    found: &Vec<String>,
    r: Result<Vec<SetupStep>, MissingSource>,
)
    requires
        call_ensures(test_backend, (backend, found), r),
    ensures
        r is Err <==> found@.len() == 0,
        r matches Err(error) ==> error.kind == backend.kind && error.path@ == backend.path@,
        r matches Ok(steps) ==> ({
            let models = order::models(steps@);
            &&& models.len() == (if backend.kind == BackendType::Sqlite {
                2int
            } else {
                1int
            })
            &&& backend.kind == BackendType::Sqlite ==> models[0].kind == StepKind::LoadExtension
                && models[0].sql == "INSTALL sqlite; LOAD sqlite;"@
            &&& backend.kind == BackendType::Sqlite ==> models[0].context
                == "could not install/load DuckDB's sqlite extension"@
            &&& models.last().kind == StepKind::RegisterSource
            &&& models.last().context == "could not attach "@ + backend.name@ + " ("@
                + backend.path@ + ")"@
            &&& models.last().sql == sources::registration(
                backend@,
                sources::source_files(backend@, text::texts(found@)),
            )
        }),
{
}

/// The report of a backend that has no file ends with its path, and tells the three kinds of
/// backends apart.
pub proof fn missing_sources_name_kind_and_path(
    a: &MissingSource,
    b: &MissingSource,
    ra: String,
    rb: String,
)
    requires
        call_ensures(MissingSource::message, (a,), ra),
        call_ensures(MissingSource::message, (b,), rb),
        a.path@ == b.path@,
    ensures
        (": "@ + a.path@).is_suffix_of(ra@),
        ra@ == rb@ <==> a.kind == b.kind,
        a.kind == BackendType::Sqlite ==> "SQLite "@.is_prefix_of(ra@),
        a.kind == BackendType::Duckdb ==> "DuckDB "@.is_prefix_of(ra@),
        a.kind == BackendType::Parquet ==> "no Parquet "@.is_prefix_of(ra@),
{
    reveal_strlit("SQLite file does not exist: ");
    reveal_strlit("DuckDB file does not exist: ");
    reveal_strlit("no Parquet file matches: ");
    reveal_strlit("SQLite ");
    reveal_strlit("DuckDB ");
    reveal_strlit("no Parquet ");
    reveal_strlit(": ");
    let end = ": "@ + a.path@;
    assert(ra@.skip(ra@.len() - end.len()) =~= end);
    assert(a.kind == BackendType::Sqlite ==> ra@.take(7) =~= "SQLite "@);
    assert(a.kind == BackendType::Duckdb ==> ra@.take(7) =~= "DuckDB "@);
    assert(a.kind == BackendType::Parquet ==> ra@.take(11) =~= "no Parquet "@);
    assert(ra@[0] == rb@[0] <==> a.kind == b.kind);
}

/// A worker that is gone before it reports is told from one whose set-up failed: the report of
/// the failed set-up is kept as it is, and that of the gone one is marked.
pub proof fn gone_workers_are_marked(reports: &Vec<Readiness>, r: Result<(), String>, k: int)
    requires
        call_ensures(all_ready, (reports,), r),
        0 <= k < reports@.len(),
        !(reports@[k] is Ready),
        forall|i: int| 0 <= i < k ==> #[trigger] reports@[i] is Ready,
    ensures
        reports@[k] matches Readiness::Failed(report) ==> (r matches Err(told) && told@
            == report@),
        reports@[k] matches Readiness::Exited(cause) ==> (r matches Err(told)
            && "query worker exited during startup: "@.is_prefix_of(told@)
            && cause@.is_suffix_of(told@) && told@.len()
            == "query worker exited during startup: "@.len() + cause@.len()),
{
    lemma_first_report_is(reports@, 0, k);
    if let Readiness::Exited(cause) = reports@[k] {
        let head = "query worker exited during startup: "@;
        let told = head + cause@;
        assert(told.take(head.len() as int) =~= head);
        assert(told.skip(told.len() - cause@.len()) =~= cause@);
    }
}

proof fn lemma_first_report_is(reports: Seq<Readiness>, from: int, k: int)
    requires
        0 <= from <= k < reports.len(),
        !(reports[k] is Ready),
        forall|i: int| from <= i < k ==> #[trigger] reports[i] is Ready,
    ensures
        first_report(reports, from) == readiness_report(reports[k]),
    decreases k - from,
{
    if from < k {
        lemma_first_report_is(reports, from + 1, k);
    }
}

/// A further backend adds the files that it reads to those that a worker may read, behind the
/// others, exactly where it is enabled.
pub proof fn enabled_backends_add_their_files(
    backends: Seq<BackendModel>,
    backend: BackendModel,
    found: Seq<Seq<Seq<char>>>,
)
    ensures
        allowed_files(Seq::empty(), found).len() == 0,
        backend.enabled ==> allowed_files(backends.push(backend), found) == allowed_files(
            backends,
            found,
        ) + sources::source_files(backend, found[backends.len() as int]),
        !backend.enabled ==> allowed_files(backends.push(backend), found) == allowed_files(
            backends,
            found,
        ),
{
    assert(backends.push(backend).drop_last() =~= backends);
}

/// The report of why a pool cannot be built is that of its cause.
pub proof fn pools_report_their_cause(
    error: &PoolError,
    r: String,
    script: String,
    view: String,
)
    requires
        call_ensures(PoolError::message, (error,), r),
        error matches PoolError::Script(cause) ==> call_ensures(
            InitSqlError::message,
            (&cause,),
            script,
        ),
        error matches PoolError::View(cause) ==> call_ensures(
            ViewError::message,
            (&cause,),
            view,
        ),
    ensures
        error is Script ==> r@ == script@,
        error is View ==> r@ == view@,
{
}

/// A query that may be run is offered to the worker that its ticket decides, and one that may not
/// is offered to none, for the reason why it may not.
pub proof fn queries_are_offered_where_they_may_run(
    pool: &QueryPool,
    sql: &str,
    ticket: usize,
    r: Result<Admission, SqlValidationError>,
    allowed: Result<(), SqlValidationError>,
)
    requires
        pool.stats.workers > 0,
        call_ensures(QueryPool::query, (pool, sql, ticket), r),
        call_ensures(sql::validate_read_only, (sql,), allowed),
    ensures
        r is Ok <==> allowed is Ok,
        r matches Ok(admission) ==> admission == Admission::Offer(
            (ticket % pool.stats.workers) as usize,
        ),
        r matches Err(error) ==> (allowed matches Err(cause) && error@ == cause@),
{
    if let Err(cause) = allowed {
        assert(sql::refused(allowed) == Some(cause@));
    }
}

/// A change is tried on one worker with everything else as it is.
pub proof fn changes_are_tried_on_one_worker(config: &Config, r: Config)
    requires
        call_ensures(probe_config, (config,), r),
    ensures
        r.workers == 1,
        r@.backends == config@.backends,
        r@.views == config@.views,
        r.threads_per_worker == config.threads_per_worker,
        r.max_rows == config.max_rows,
        r.request_timeout_seconds == config.request_timeout_seconds,
        r.listen@ == config.listen@,
        r.version == config.version,
{
    let a = r@;
    assert(a.workers == r.workers && a.threads_per_worker == r.threads_per_worker);
    assert(a.max_rows == r.max_rows && a.listen == r.listen@ && a.version == r.version);
    assert(a.request_timeout_seconds == r.request_timeout_seconds);
}

/// The numbers that a pool tells are its own.
pub proof fn pools_tell_their_numbers(pool: &QueryPool, workers: usize, backends: usize)
    requires
        call_ensures(QueryPool::workers, (pool,), workers),
        call_ensures(QueryPool::enabled_backends, (pool,), backends),
    ensures
        workers == pool@.stats.workers,
        backends == pool@.stats.enabled_backends,
{
}

/// The step that makes a backend known runs what attaches the files that the backend reads, and
/// the step that loads the extension runs what loads it. Each says what it was to do.
pub proof fn steps_run_what_they_say(
    backend: &Backend,
    found: &Vec<String>,
    step: SetupStep,
    files: Vec<String>,
    sql: String,
    install: bool,
    load: SetupStep,
    extension: &'static str,
)
    requires
        call_ensures(register, (backend, found), step),
        call_ensures(sources::freeze_files, (backend, found), files),
        call_ensures(sources::attach, (backend, &files), sql),
        call_ensures(load_extension, (install,), load),
        call_ensures(sources::load_sqlite_extension, (install,), extension),
    ensures
        step.kind == StepKind::RegisterSource,
        step.sql@ == sql@,
        step.context@ == "could not attach "@ + backend.name@ + " ("@ + backend.path@ + ")"@,
        load.kind == StepKind::LoadExtension,
        load.sql@ == extension@,
        load.context@ == "could not install/load DuckDB's sqlite extension"@,
{
    let a = step@;
    let b = load@;
    assert(a.kind == step.kind && a.sql == step.sql@ && a.context == step.context@);
    assert(b.kind == load.kind && b.sql == load.sql@ && b.context == load.context@);
}

/// Where a script may be run, a pool is built with it as it is without looking it over.
pub proof fn allowed_scripts_build_the_same_pool(
    config: &Config,
    found: &Vec<Vec<String>>,
    script: &str,
    r: Result<QueryPool, ViewError>,
    checked: Result<QueryPool, PoolError>,
)
    requires
        found@.len() == config.backends@.len(),
        call_ensures(QueryPool::with_script, (config, found, script), r),
        call_ensures(QueryPool::new, (config, found, script), checked),
        !(checked matches Err(PoolError::Script(_))),
    ensures
        r is Ok <==> checked is Ok,
        r matches Ok(pool) ==> (checked matches Ok(other) && pool@.steps == other@.steps
            && pool@.install_sqlite == other@.install_sqlite && pool@.stats == other@.stats),
        r matches Err(error) ==> (checked matches Err(PoolError::View(other)) && error@
            == other@),
{
}

} // verus!
