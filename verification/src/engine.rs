//! The pool that serves queries, and how a reload puts another in its place.
use std::sync::Arc;
use vstd::prelude::*;

use crate::config::ConfigModel;
use crate::pool;
use crate::pool::{PoolModel, PoolStats, QueryPool, Readiness};
use crate::query;
use crate::query::Admission;
use crate::server::{ApiError, ApiModel};
use crate::sql;
use crate::sql::{ParsedModel, SqlValidationError};

verus! {

/// A pool whose workers got ready, with what the caller needs to reach them.
#[derive(Debug)]
pub struct LivePool<W> {
    pub plan: Arc<QueryPool>,
    pub workers: W,
}

impl<W> View for LivePool<W> {
    type V = PoolModel;

    open spec fn view(&self) -> PoolModel {
        (*self.plan)@
    }
}

/// The views of a pool that was to be built.
pub open spec fn built_model<W>(built: Result<LivePool<W>, String>) -> Result<
    PoolModel,
    Seq<char>,
> {
    match built {
        Ok(live) => Ok(live@),
        Err(report) => Err(report@),
    }
}

/// A pool that was to be built: it is what its plan says where every worker got ready, and
/// there is none where one did not.
pub open spec fn started_pool(plan: PoolModel, reports: Seq<Readiness>) -> Result<
    PoolModel,
    Seq<char>,
> {
    match pool::first_report(reports, 0) {
        None => Ok(plan),
        Some(report) => Err(report),
    }
}

/// Workers of which one did not get ready: why, and the workers, all of which are to stop.
#[derive(Debug)]
pub struct FailedStart<W> {
    pub report: String,
    pub workers: W,
}

/// Puts a plan and its workers together where every worker got ready, of which each has
/// reported. Where one did not, the workers are handed back, to be told to stop.
pub fn start<W>(plan: Arc<QueryPool>, reports: &Vec<Readiness>, workers: W) -> (r: Result<
    LivePool<W>,
    FailedStart<W>,
>)
    requires
        reports@.len() == (*plan)@.stats.workers,
    ensures
        match r {
            Ok(live) => {
                &&& started_pool((*plan)@, reports@) == Ok::<PoolModel, Seq<char>>(live@)
                &&& live == (LivePool { plan, workers })
            },
            Err(failed) => {
                &&& started_pool((*plan)@, reports@) == Err::<PoolModel, Seq<char>>(failed.report@)
                &&& failed.workers == workers
            },
        },
        r is Ok <==> forall|i: int|
            0 <= i < (*plan)@.stats.workers ==> #[trigger] reports@[i] is Ready,
{
    match pool::all_ready(reports) {
        Ok(_) => Ok(LivePool { plan, workers }),
        Err(report) => Err(FailedStart { report, workers }),
    }
}

/// The pool that serves after another was to be built: the other where it could be, and the
/// one from before where it could not.
pub open spec fn served(before: PoolModel, built: Result<PoolModel, Seq<char>>) -> PoolModel {
    match built {
        Ok(next) => next,
        Err(_) => before,
    }
}

/// What a reload is answered with: the numbers of the pool that serves from then on, or why
/// the pool from before still does.
pub open spec fn reload_answer(built: Result<PoolModel, Seq<char>>) -> Result<
    PoolStats,
    ApiModel,
> {
    match built {
        Ok(next) => Ok(next.stats),
        Err(report) => Err(
            ApiModel {
                status: 400,
                code: "reload_rejected"@,
                message: "configuration could not be activated: "@ + report,
            },
        ),
    }
}

/// The views of what a reload is answered with.
pub open spec fn answer_model(r: Result<PoolStats, ApiError>) -> Result<PoolStats, ApiModel> {
    match r {
        Ok(stats) => Ok(stats),
        Err(error) => Err(error@),
    }
}

/// The pool that serves. Queries that it has accepted keep it alive when another takes its
/// place.
#[derive(Debug)]
pub struct Engine<W> {
    pub active: Arc<LivePool<W>>,
}

impl<W> View for Engine<W> {
    type V = PoolModel;

    open spec fn view(&self) -> PoolModel {
        (*self.active.plan)@
    }
}

impl<W> Engine<W> {
    /// The engine that a pool serves.
    pub fn load(first: LivePool<W>) -> (r: Engine<W>)
        ensures
            r@ == first@,
            *r.active == first,
    {
        Engine { active: Arc::new(first) }
    }

    /// An engine that the same pool serves.
    pub fn share(&self) -> (r: Engine<W>)
        ensures
            r == *self,
    {
        Engine { active: Arc::clone(&self.active) }
    }

    /// The pool that serves.
    pub fn current(&self) -> (r: Arc<LivePool<W>>)
        ensures
            r == self.active,
    {
        Arc::clone(&self.active)
    }

    /// Puts a pool in the place of the one that serves where it could be built, and leaves the
    /// other alone where it could not.
    pub fn reload(&mut self, built: Result<LivePool<W>, String>) -> (r: Result<
        PoolStats,
        ApiError,
    >)
        ensures
            final(self)@ == served(old(self)@, built_model(built)),
            answer_model(r) == reload_answer(built_model(built)),
            match built {
                Ok(next) => *final(self).active == next,
                Err(_) => *final(self) == *old(self),
            },
            r matches Ok(stats) ==> stats == final(self)@.stats,
            r is Err ==> final(self)@.stats == old(self)@.stats,
    {
        match built {
            Ok(next) => {
                let stats = next.plan.stats;
                self.active = Arc::new(next);
                Ok(stats)
            },
            Err(report) => Err(ApiError::reload(report.as_str())),
        }
    }

    /// The numbers of the pool that serves.
    pub fn stats(&self) -> (r: PoolStats)
        ensures
            r == self@.stats,
    {
        self.active.plan.stats
    }

    /// Whether the pool that serves may run a query, and which of its workers the query is
    /// offered to first.
    pub fn query(&self, sql: &str, ticket: usize) -> (r: Result<Admission, SqlValidationError>)
        requires
            self@.stats.workers > 0,
        ensures
            match r {
                Err(error) => sql::query_refusal(sql@, sql::parsed_sql(sql@)) == Some(error@),
                Ok(admission) => {
                    &&& sql::query_refusal(sql@, sql::parsed_sql(sql@)) is None
                    &&& admission == Admission::Offer(
                        query::candidate(ticket as nat, self@.stats.workers as nat, 0) as usize,
                    )
                },
            },
    {
        self.active.plan.query(sql, ticket)
    }
}

// ---------------------------------------------------------------------------
// Laws
// ---------------------------------------------------------------------------

/// The pool of a configuration is there only where each of the configuration's workers has
/// reported that it is ready, and it has that configuration's numbers. Where a worker did not
/// get ready, the report is that of the first such worker.
pub proof fn a_pool_needs_every_worker(
    plan: PoolModel,
    reports: Seq<Readiness>,
    c: ConfigModel,
    found: Seq<Seq<Seq<char>>>,
    script: Seq<char>,
    parsed: Result<Seq<ParsedModel>, Seq<char>>,
)
    requires
        pool::planned(plan, c, found, script, parsed),
        reports.len() == plan.stats.workers,
    ensures
        started_pool(plan, reports) is Ok <==> forall|i: int|
            0 <= i < c.workers ==> #[trigger] reports[i] is Ready,
        started_pool(plan, reports) matches Ok(live) ==> live == plan && pool::stats_of(
            live.stats,
            c,
        ),
        started_pool(plan, reports) matches Err(report) ==> exists|i: int|
            0 <= i < c.workers && pool::readiness_report(#[trigger] reports[i]) == Some(report) && (
            forall|j: int| 0 <= j < i ==> #[trigger] reports[j] is Ready),
{
    pool::the_first_report_counts(reports, 0);
}

/// A reload that succeeds answers with the numbers of the pool that serves from then on. That
/// pool is the one of the configuration that was read: its workers are set up by that
/// configuration's steps, and its numbers are that configuration's.
pub proof fn a_reload_serves_the_configuration_that_was_read(
    before: PoolModel,
    plan: PoolModel,
    reports: Seq<Readiness>,
    c: ConfigModel,
    found: Seq<Seq<Seq<char>>>,
    script: Seq<char>,
    parsed: Result<Seq<ParsedModel>, Seq<char>>,
)
    requires
        pool::planned(plan, c, found, script, parsed),
        reports.len() == plan.stats.workers,
        reload_answer(started_pool(plan, reports)) is Ok,
    ensures
        ({
            let after = served(before, started_pool(plan, reports));
            &&& reload_answer(started_pool(plan, reports)) == Ok::<PoolStats, ApiModel>(after.stats)
            &&& after == plan
            &&& pool::planned(after, c, found, script, parsed)
            &&& pool::stats_of(after.stats, c)
            &&& forall|i: int| 0 <= i < c.workers ==> #[trigger] reports[i] is Ready
        }),
{
    pool::the_first_report_counts(reports, 0);
}

/// A reload that fails leaves the pool that served, and its numbers.
pub proof fn a_failed_reload_keeps_the_pool(
    before: PoolModel,
    built: Result<PoolModel, Seq<char>>,
)
    requires
        reload_answer(built) is Err,
    ensures
        served(before, built) == before,
        served(before, built).stats == before.stats,
{
}

/// The pool that serves after some reloads, one after another.
pub open spec fn served_after(first: PoolModel, reloads: Seq<Result<PoolModel, Seq<char>>>) -> PoolModel
    decreases reloads.len(),
{
    if reloads.len() == 0 {
        first
    } else {
        served(served_after(first, reloads.drop_last()), reloads.last())
    }
}

/// The last pool that could be built serves, whatever reloads failed since, and the first pool
/// where none succeeded.
pub proof fn the_last_pool_that_was_built_serves(
    first: PoolModel,
    reloads: Seq<Result<PoolModel, Seq<char>>>,
    i: int,
)
    requires
        -1 <= i < reloads.len(),
        i >= 0 ==> reloads[i] is Ok,
        forall|j: int| i < j < reloads.len() ==> #[trigger] reloads[j] is Err,
    ensures
        served_after(first, reloads) == if i >= 0 {
            reloads[i]->Ok_0
        } else {
            first
        },
    decreases reloads.len(),
{
    if reloads.len() > 0 && i < reloads.len() - 1 {
        assert(reloads[reloads.len() - 1] is Err);
        the_last_pool_that_was_built_serves(first, reloads.drop_last(), i);
    }
}

/// A reload is answered with the numbers of the pool that was built, or with why there is none,
/// which is a mistake of the client.
pub proof fn reloads_are_answered_by_what_was_built(built: Result<PoolModel, Seq<char>>)
    ensures
        built matches Ok(next) ==> reload_answer(built) == Ok::<PoolStats, ApiModel>(next.stats),
        built matches Err(report) ==> (reload_answer(built) matches Err(error) && error.status
            == 400 && error.code == "reload_rejected"@ && report.is_suffix_of(error.message)),
{
    if let Err(report) = built {
        let told = reload_answer(built)->Err_0.message;
        assert(told.skip(told.len() - report.len()) =~= report);
    }
}

/// A reload puts the pool that was built in the place of the one that serves, and answers with its
/// numbers. Where none could be built, the one that serves goes on, and the answer tells why.
pub proof fn a_reload_replaces_or_keeps<W>(
    engine: &mut Engine<W>,
    built: Result<LivePool<W>, String>,
    r: Result<PoolStats, ApiError>,
)
    requires
        call_ensures(Engine::<W>::reload, (engine, built), r),
    ensures
        built matches Ok(next) ==> final(engine)@ == next@ && r == Ok::<PoolStats, ApiError>(
            next@.stats,
        ),
        built matches Err(report) ==> final(engine)@ == old(engine)@ && (r matches Err(error)
            && error.status == 400 && error.code@ == "reload_rejected"@ && report@.is_suffix_of(
            error.message@,
        )),
{
    if let Err(report) = built {
        reloads_are_answered_by_what_was_built(Err(report@));
        let error = r->Err_0;
        assert(answer_model(r) == Err::<PoolStats, ApiModel>(error@));
    }
}

/// Workers are started together or not at all: the pool is there exactly where each of them got
/// ready, with the plan and the workers that were given; where one did not, the workers are
/// handed back with the report of the first that did not.
pub proof fn workers_start_together<W>(
    plan: Arc<QueryPool>,
    reports: &Vec<Readiness>,
    workers: W,
    r: Result<LivePool<W>, FailedStart<W>>,
    k: int,
)
    requires
        reports@.len() == (*plan)@.stats.workers,
        call_ensures(start::<W>, (plan, reports, workers), r),
        0 <= k <= reports@.len(),
        forall|i: int| 0 <= i < k ==> #[trigger] reports@[i] is Ready,
        k < reports@.len() ==> !(reports@[k] is Ready),
    ensures
        r is Ok <==> k == reports@.len(),
        r matches Ok(live) ==> live.plan == plan && live.workers == workers,
        r matches Err(failed) ==> failed.workers == workers && pool::readiness_report(reports@[k])
            == Some(failed.report@),
{
    pool::the_first_report_counts(reports@, 0);
    if k < reports@.len() {
        assert(!(reports@[k] is Ready));
    }
    if let Err(failed) = r {
        let report = failed.report@;
        let i = choose|i: int|
            0 <= i < reports@.len() && pool::readiness_report(#[trigger] reports@[i]) == Some(
                report,
            ) && (forall|j: int| 0 <= j < i ==> #[trigger] reports@[j] is Ready);
        if i < k {
            assert(reports@[i] is Ready);
        }
        if k < i {
            assert(reports@[k] is Ready);
        }
    }
}

/// An engine serves the pool that it is given, shares it as it is, and tells its numbers.
pub proof fn engines_serve_the_pool_they_are_given<W>(
    first: LivePool<W>,
    loaded: Engine<W>,
    engine: &Engine<W>,
    shared: Engine<W>,
    current: Arc<LivePool<W>>,
    stats: PoolStats,
)
    requires
        call_ensures(Engine::<W>::load, (first,), loaded),
        call_ensures(Engine::<W>::share, (engine,), shared),
        call_ensures(Engine::<W>::current, (engine,), current),
        call_ensures(Engine::<W>::stats, (engine,), stats),
    ensures
        loaded@ == first@,
        shared@ == engine@,
        (*current)@ == engine@,
        stats == (*engine.active.plan)@.stats,
{
}

/// A query that may be run is offered to the worker of the pool that serves which its ticket
/// decides.
pub proof fn queries_go_to_the_pool_that_serves<W>(
    engine: &Engine<W>,
    sql: &str,
    ticket: usize,
    r: Result<Admission, SqlValidationError>,
    direct: Result<Admission, SqlValidationError>,
)
    requires
        engine@.stats.workers > 0,
        call_ensures(Engine::<W>::query, (engine, sql, ticket), r),
        call_ensures(QueryPool::query, (&*engine.active.plan, sql, ticket), direct),
    ensures
        r is Ok <==> direct is Ok,
        r matches Ok(admission) ==> direct == Ok::<Admission, SqlValidationError>(admission),
        r matches Err(error) ==> (direct matches Err(cause) && error@ == cause@),
{
}

} // verus!
