//! A query: the worker that it goes to, the rows that it returns, and how it fails.
use vstd::prelude::*;

use crate::json;
use crate::json::{Items, Json, JsonModel, Members};
use crate::numeral;
use crate::order;
use crate::sql::{SqlRefusal, SqlValidationError};
use crate::value;
use crate::value::Value;

verus! {

// ---------------------------------------------------------------------------
// Admission
// ---------------------------------------------------------------------------

/// What to do with a query that some workers have refused.
#[derive(Debug, Clone, Copy, PartialEq, Eq, Structural)]
pub enum Admission {
    /// Offer it to the worker of this number.
    Offer(usize),
    /// Every worker is occupied.
    Busy,
}

/// The worker that a query is offered to after `refused` others: they take turns, from a
/// start that the ticket of the query decides.
pub open spec fn candidate(ticket: nat, workers: nat, refused: nat) -> nat {
    (ticket + refused) % workers
}

/// What to do with a query of a ticket that `refused` workers have refused.
pub fn next_worker(ticket: usize, workers: usize, refused: usize) -> (r: Admission)
    requires
        workers > 0,
    ensures
        r == if refused < workers {
            Admission::Offer(candidate(ticket as nat, workers as nat, refused as nat) as usize)
        } else {
            Admission::Busy
        },
        r matches Admission::Offer(worker) ==> worker < workers,
{
    if refused >= workers {
        return Admission::Busy;
    }
    let start: usize = ticket % workers;
    let worker: usize = if refused < workers - start {
        start + refused
    } else {
        refused - (workers - start)
    };
    proof {
        lemma_turn(ticket as int, workers as int, refused as int);
    }
    Admission::Offer(worker)
}

proof fn lemma_turn(ticket: int, workers: int, refused: int)
    requires
        0 <= ticket,
        0 <= refused < workers,
    ensures
        (ticket + refused) % workers == if refused < workers - ticket % workers {
            ticket % workers + refused
        } else {
            refused - (workers - ticket % workers)
        },
{
    vstd::arithmetic::div_mod::lemma_fundamental_div_mod(ticket, workers);
    let q = ticket / workers;
    let start = ticket % workers;
    vstd::arithmetic::mul::lemma_mul_is_commutative(workers, q);
    if refused < workers - start {
        vstd::arithmetic::div_mod::lemma_fundamental_div_mod_converse(
            ticket + refused,
            workers,
            q,
            start + refused,
        );
    } else {
        vstd::arithmetic::mul::lemma_mul_is_distributive_add_other_way(workers, q, 1);
        vstd::arithmetic::div_mod::lemma_fundamental_div_mod_converse(
            ticket + refused,
            workers,
            q + 1,
            refused - (workers - start),
        );
    }
}

/// The worker that a query is offered to, or the error of a query that no worker can take.
pub fn admitted(admission: Admission) -> (r: Result<usize, QueryError>)
    ensures
        r == match admission {
            Admission::Offer(worker) => Ok::<usize, QueryError>(worker),
            Admission::Busy => Err::<usize, QueryError>(QueryError::WorkersBusy),
        },
{
    match admission {
        Admission::Offer(worker) => Ok(worker),
        Admission::Busy => Err(QueryError::WorkersBusy),
    }
}

/// A query is offered to each worker once, and to none twice, before it is given up.
pub proof fn every_worker_is_tried_once(ticket: nat, workers: nat, worker: nat)
    requires
        worker < workers,
    ensures
        exists|k: nat| k < workers && #[trigger] candidate(ticket, workers, k) == worker,
        forall|j: nat, k: nat|
            j < k < workers ==> #[trigger] candidate(ticket, workers, j) != #[trigger] candidate(
                ticket,
                workers,
                k,
            ),
{
    let start = ticket as int % workers as int;
    let k: nat = if worker >= start {
        (worker - start) as nat
    } else {
        (worker + workers - start) as nat
    };
    lemma_turn(ticket as int, workers as int, k as int);
    assert(candidate(ticket, workers, k) == worker);
    assert forall|j: nat, k: nat| j < k < workers implies #[trigger] candidate(ticket, workers, j)
        != #[trigger] candidate(ticket, workers, k) by {
        lemma_turn(ticket as int, workers as int, j as int);
        lemma_turn(ticket as int, workers as int, k as int);
    }
}

// ---------------------------------------------------------------------------
// Failure
// ---------------------------------------------------------------------------

/// Why a query that may be run has no result.
#[derive(Debug)]
pub enum QueryError {
    WorkersBusy,
    WorkerStopped,
    /// The time, in seconds, that a query may take.
    Timeout(u64),
    Execution(String),
}

/// The model of a [`QueryError`].
pub enum QueryFault {
    WorkersBusy,
    WorkerStopped,
    Timeout(u64),
    Execution(Seq<char>),
}

impl View for QueryError {
    type V = QueryFault;

    open spec fn view(&self) -> QueryFault {
        match self {
            QueryError::WorkersBusy => QueryFault::WorkersBusy,
            QueryError::WorkerStopped => QueryFault::WorkerStopped,
            QueryError::Timeout(seconds) => QueryFault::Timeout(*seconds),
            QueryError::Execution(report) => QueryFault::Execution(report@),
        }
    }
}

pub open spec fn query_fault_text(fault: QueryFault) -> Seq<char> {
    match fault {
        QueryFault::WorkersBusy => "all query workers are busy"@,
        QueryFault::WorkerStopped => "query worker stopped unexpectedly"@,
        QueryFault::Timeout(seconds) => "query exceeded the configured timeout of "@
            + numeral::numeral(seconds as nat) + " seconds"@,
        QueryFault::Execution(report) => report,
    }
}

impl QueryError {
    /// The report of the error.
    pub fn message(&self) -> (r: String)
        ensures
            r@ == query_fault_text(self@),
    {
        match self {
            QueryError::WorkersBusy => "all query workers are busy".to_owned(),
            QueryError::WorkerStopped => "query worker stopped unexpectedly".to_owned(),
            QueryError::Timeout(seconds) => {
                let mut r = "query exceeded the configured timeout of ".to_owned();
                r.append(numeral::numeral_of(*seconds as u128).as_str());
                r.append(" seconds");
                r
            },
            QueryError::Execution(report) => report.clone(),
        }
    }
}

/// Why a query has no result.
#[derive(Debug)]
pub enum QueryFailure {
    /// It may not be run.
    Refused(SqlValidationError),
    /// It was to be run.
    Failed(QueryError),
    /// The gateway failed.
    Internal,
}

/// The model of a [`QueryFailure`].
pub enum FailureModel {
    Refused(SqlRefusal),
    Failed(QueryFault),
    Internal,
}

impl View for QueryFailure {
    type V = FailureModel;

    open spec fn view(&self) -> FailureModel {
        match self {
            QueryFailure::Refused(error) => FailureModel::Refused(error@),
            QueryFailure::Failed(error) => FailureModel::Failed(error@),
            QueryFailure::Internal => FailureModel::Internal,
        }
    }
}

/// What came of waiting for the worker that took a query.
#[derive(Debug)]
pub enum Reply {
    Answered(QueryResult),
    Rejected(String),
    Stopped,
    TimedOut,
}

/// The result of a query that a worker took, and whether the worker has to be interrupted,
/// which it has to be where nobody waits for it any more.
pub fn settle(reply: Reply, timeout_seconds: u64) -> (r: (Result<QueryResult, QueryError>, bool))
    ensures
        match reply {
            Reply::Answered(result) => r.0 == Ok::<QueryResult, QueryError>(result),
            Reply::Rejected(report) => r.0 == Err::<QueryResult, QueryError>(
                QueryError::Execution(report),
            ),
            Reply::Stopped => r.0 == Err::<QueryResult, QueryError>(QueryError::WorkerStopped),
            Reply::TimedOut => r.0 == Err::<QueryResult, QueryError>(
                QueryError::Timeout(timeout_seconds),
            ),
        },
        r.1 == (reply is TimedOut),
{
    match reply {
        Reply::Answered(result) => (Ok(result), false),
        Reply::Rejected(report) => (Err(QueryError::Execution(report)), false),
        Reply::Stopped => (Err(QueryError::WorkerStopped), false),
        Reply::TimedOut => (Err(QueryError::Timeout(timeout_seconds)), true),
    }
}

// ---------------------------------------------------------------------------
// Results
// ---------------------------------------------------------------------------

/// A column of a result: its name and its DuckDB type.
#[derive(Debug)]
pub struct Column {
    pub name: String,
    pub data_type: String,
}

#[verifier::ext_equal]
pub struct ColumnModel {
    pub name: Seq<char>,
    pub data_type: Seq<char>,
}

impl View for Column {
    type V = ColumnModel;

    open spec fn view(&self) -> ColumnModel {
        ColumnModel { name: self.name@, data_type: self.data_type@ }
    }
}

impl Clone for Column {
    fn clone(&self) -> (r: Self)
        ensures
            r@ == self@,
    {
        Column { name: self.name.clone(), data_type: self.data_type.clone() }
    }
}

/// The column at an index, which gives it its name where the engine has none.
pub fn column_at(index: usize, name: Option<String>, data_type: String) -> (r: Column)
    ensures
        r.name@ == match name {
            Some(name) => name@,
            None => "column_"@ + numeral::numeral(index as nat),
        },
        r.data_type@ == data_type@,
{
    let name = match name {
        Some(name) => name,
        None => {
            let mut name = "column_".to_owned();
            name.append(numeral::numeral_of(index as u128).as_str());
            name
        },
    };
    Column { name, data_type }
}

/// The result of a query. The time that it took is held by the bits of its binary64 form.
#[derive(Debug)]
pub struct QueryResult {
    pub columns: Vec<Column>,
    pub rows: Vec<Vec<Json>>,
    pub row_count: usize,
    pub truncated: bool,
    pub elapsed_ms: u64,
}

/// The models of rows.
pub open spec fn row_models(rows: Seq<Vec<Json>>) -> Seq<Seq<JsonModel>> {
    rows.map_values(|row: Vec<Json>| json::item_models(row@))
}

/// The rows that a result keeps, up to a limit, and whether there were more.
#[verifier::ext_equal]
pub struct Collected {
    pub limit: nat,
    pub rows: Seq<Seq<JsonModel>>,
    pub truncated: bool,
}

/// What is kept of all rows of a query: the first of them, up to a limit.
pub open spec fn collection(all: Seq<Seq<JsonModel>>, limit: nat) -> Collected {
    Collected {
        limit,
        rows: if all.len() <= limit {
            all
        } else {
            all.take(limit as int)
        },
        truncated: all.len() > limit,
    }
}

/// What one more row makes of what was collected.
pub open spec fn with_row(before: Collected, row: Seq<JsonModel>) -> Collected {
    if before.rows.len() < before.limit {
        Collected { rows: before.rows.push(row), ..before }
    } else {
        Collected { truncated: true, ..before }
    }
}

/// Handing over the rows of a query one after the other collects the first of them up to the
/// limit, and tells whether there were more.
pub proof fn rows_are_collected_up_to_the_limit(
    all: Seq<Seq<JsonModel>>,
    limit: nat,
    row: Seq<JsonModel>,
)
    ensures
        with_row(collection(all, limit), row) == collection(all.push(row), limit),
        collection(all, limit).rows.len() == if all.len() <= limit {
            all.len()
        } else {
            limit
        },
        collection(all, limit).rows.is_prefix_of(all),
        !collection(all, limit).truncated <==> collection(all, limit).rows == all,
{
    let before = collection(all, limit);
    if all.len() >= limit {
        assert(all.push(row).take(limit as int) =~= all.take(limit as int));
        assert(all.take(all.len() as int) =~= all);
    }
    assert(before.rows =~= all.take(before.rows.len() as int));
    assert(with_row(before, row) =~= collection(all.push(row), limit));
}

/// Collects the rows of a query up to a limit.
#[derive(Debug)]
pub struct RowCollector {
    pub limit: usize,
    pub rows: Vec<Vec<Json>>,
    pub truncated: bool,
}

impl View for RowCollector {
    type V = Collected;

    open spec fn view(&self) -> Collected {
        Collected {
            limit: self.limit as nat,
            rows: row_models(self.rows@),
            truncated: self.truncated,
        }
    }
}

impl RowCollector {
    pub fn new(limit: usize) -> (r: RowCollector)
        ensures
            r@ == collection(Seq::empty(), limit as nat),
    {
        let r = RowCollector { limit, rows: Vec::new(), truncated: false };
        assert(r@ =~= collection(Seq::empty(), limit as nat));
        r
    }

    /// Whether a further row would not be kept, so that nobody needs to read its values.
    pub fn is_full(&self) -> (r: bool)
        ensures
            r == (self@.rows.len() >= self@.limit),
    {
        self.rows.len() >= self.limit
    }

    /// Takes a further row, and tells whether rows behind it are of interest.
    pub fn offer(&mut self, values: &Vec<Value>) -> (more: bool)
        ensures
            final(self)@ == with_row(old(self)@, value::values_json(values@)),
            more == (old(self)@.rows.len() < old(self)@.limit),
    {
        if self.rows.len() >= self.limit {
            self.truncated = true;
            return false;
        }
        let ghost before = self.rows@;
        let mut row: Vec<Json> = Vec::new();
        let mut i: usize = 0;
        assert(values@.take(0) =~= Seq::empty());
        while i < values.len()
            invariant
                i <= values@.len(),
                json::item_models(row@) == value::values_json(values@.take(i as int)),
            decreases values@.len() - i,
        {
            let item = value::value_to_json(&values[i]);
            proof {
                json::lemma_items_push(row@, item);
                assert(values@.take(i + 1).drop_last() =~= values@.take(i as int));
            }
            row.push(item);
            i += 1;
        }
        assert(values@.take(values@.len() as int) =~= values@);
        self.rows.push(row);
        assert(row_models(self.rows@) =~= row_models(before).push(json::item_models(row@)));
        true
    }

    /// The result of the query.
    pub fn finish(self, columns: Vec<Column>, elapsed_ms: u64) -> (r: QueryResult)
        ensures
            r.columns == columns,
            row_models(r.rows@) == self@.rows,
            r.row_count == self@.rows.len(),
            r.truncated == self@.truncated,
            r.elapsed_ms == elapsed_ms,
    {
        let row_count: usize = self.rows.len();
        QueryResult { columns, rows: self.rows, row_count, truncated: self.truncated, elapsed_ms }
    }
}

// ---------------------------------------------------------------------------
// The document of a result
// ---------------------------------------------------------------------------

pub open spec fn column_document(column: ColumnModel) -> JsonModel {
    JsonModel::Object(
        seq![
            ("name"@, JsonModel::Text(column.name)),
            ("type"@, JsonModel::Text(column.data_type)),
        ],
    )
}

pub open spec fn column_documents(columns: Seq<ColumnModel>) -> Seq<JsonModel> {
    columns.map_values(|column: ColumnModel| column_document(column))
}

pub open spec fn row_documents(rows: Seq<Seq<JsonModel>>) -> Seq<JsonModel> {
    rows.map_values(|row: Seq<JsonModel>| JsonModel::Array(row))
}

/// The document that a query is answered with.
pub open spec fn result_document(r: QueryResult) -> JsonModel {
    JsonModel::Object(
        seq![
            ("columns"@, JsonModel::Array(column_documents(order::models(r.columns@)))),
            ("rows"@, JsonModel::Array(row_documents(row_models(r.rows@)))),
            ("row_count"@, JsonModel::Int(r.row_count as int)),
            ("truncated"@, JsonModel::Bool(r.truncated)),
            ("elapsed_ms"@, value::double_json(r.elapsed_ms)),
        ],
    )
}

impl QueryResult {
    /// The document that a query is answered with.
    pub fn document(&self) -> (r: Json)
        ensures
            r@ == result_document(*self),
    {
        let ghost all = order::models(self.columns@);
        let mut columns = Items::new();
        let mut i: usize = 0;
        while i < self.columns.len()
            invariant
                i <= self.columns@.len(),
                all == order::models(self.columns@),
                columns@ == column_documents(all).take(i as int),
            decreases self.columns@.len() - i,
        {
            let column = &self.columns[i];
            assert(all[i as int] == column@);
            let mut members = Members::new();
            members.put("name", json::text(column.name.as_str()));
            members.put("type", json::text(column.data_type.as_str()));
            assert(members@ =~= seq![
                ("name"@, JsonModel::Text(column@.name)),
                ("type"@, JsonModel::Text(column@.data_type)),
            ]);
            let document = members.object();
            assert(column_documents(all)[i as int] == document@);
            assert(column_documents(all).take(i + 1) =~= column_documents(all).take(i as int).push(
                document@,
            ));
            columns.put(document);
            i += 1;
        }
        assert(column_documents(all).take(all.len() as int) =~= column_documents(all));
        let ghost models = row_models(self.rows@);
        let mut rows = Items::new();
        let mut j: usize = 0;
        while j < self.rows.len()
            invariant
                j <= self.rows@.len(),
                models == row_models(self.rows@),
                rows@ == row_documents(models).take(j as int),
            decreases self.rows@.len() - j,
        {
            let row = json::array_of(&self.rows[j]);
            assert(models[j as int] == json::item_models(self.rows@[j as int]@));
            assert(row_documents(models)[j as int] == row@);
            assert(row_documents(models).take(j + 1) =~= row_documents(models).take(j as int).push(
                row@,
            ));
            rows.put(row);
            j += 1;
        }
        assert(row_documents(models).take(models.len() as int) =~= row_documents(models));
        let mut members = Members::new();
        members.put("columns", columns.array());
        members.put("rows", rows.array());
        members.put("row_count", Json::Int(self.row_count as i128));
        members.put("truncated", Json::Bool(self.truncated));
        members.put("elapsed_ms", value::value_to_json(&Value::Double(self.elapsed_ms)));
        assert(members@ =~= result_document(*self)->Object_0);
        members.object()
    }
}

// ---------------------------------------------------------------------------
// Laws of results and failures
// ---------------------------------------------------------------------------

/// The document of a result has one item for each row and one for each column, in their order:
/// item `i` of the rows is the array of the values of row `i`, and item `j` of the columns
/// tells the name and the type of column `j`.
pub proof fn every_row_and_column_is_answered_in_place(
    result: &QueryResult,
    answer: Json,
    rows: Seq<JsonModel>,
    columns: Seq<JsonModel>,
    i: int,
    j: int,
)
    requires
        call_ensures(QueryResult::document, (result,), answer),
        json::has_member(answer@, "rows"@, JsonModel::Array(rows)),
        json::has_member(answer@, "columns"@, JsonModel::Array(columns)),
    ensures
        rows.len() == result.rows@.len(),
        0 <= i < rows.len() ==> rows[i] == JsonModel::Array(
            Seq::new(result.rows@[i]@.len(), |k: int| result.rows@[i]@[k]@),
        ),
        columns.len() == result.columns@.len(),
        0 <= j < columns.len() ==> json::has_member(
            columns[j],
            "name"@,
            JsonModel::Text(result.columns@[j].name@),
        ) && json::has_member(
            columns[j],
            "type"@,
            JsonModel::Text(result.columns@[j].data_type@),
        ) && json::member_count(columns[j]) == 2,
{
    lemma_result_members(*result);
    let members = answer@->Object_0;
    assert(members[0].0 == "columns"@);
    assert(members[1].0 == "rows"@);
    if 0 <= i < rows.len() {
        json::lemma_item_models(result.rows@[i]@);
        assert(json::item_models(result.rows@[i]@) =~= Seq::new(
            result.rows@[i]@.len(),
            |k: int| result.rows@[i]@[k]@,
        ));
    }
    if 0 <= j < columns.len() {
        reveal_strlit("name");
        reveal_strlit("type");
        assert("name"@[0] != "type"@[0]);
        let column = columns[j]->Object_0;
        assert(column[0] == ("name"@, JsonModel::Text(result.columns@[j].name@)));
        assert(column[1] == ("type"@, JsonModel::Text(result.columns@[j].data_type@)));
    }
}

proof fn lemma_result_members(result: QueryResult)
    ensures
        json::names_differ(result_document(result)->Object_0),
{
    reveal_strlit("columns");
    reveal_strlit("rows");
    reveal_strlit("row_count");
    reveal_strlit("truncated");
    reveal_strlit("elapsed_ms");
    assert("columns"@.len() == 7 && "rows"@.len() == 4 && "row_count"@.len() == 9
        && "truncated"@.len() == 9 && "elapsed_ms"@.len() == 10);
    assert("row_count"@[0] == 'r' && "truncated"@[0] == 't');
}

/// The document of a result has an array of rows and one of columns, and tells how many rows
/// there are, whether rows were left out, and how long the query took.
pub proof fn results_tell_count_truncation_and_time(result: &QueryResult, answer: Json)
    requires
        call_ensures(QueryResult::document, (result,), answer),
    ensures
        exists|rows: Seq<JsonModel>|
            #[trigger] json::has_member(answer@, "rows"@, JsonModel::Array(rows)),
        exists|columns: Seq<JsonModel>|
            #[trigger] json::has_member(answer@, "columns"@, JsonModel::Array(columns)),
        json::has_member(answer@, "row_count"@, JsonModel::Int(result.row_count as int)),
        json::has_member(answer@, "truncated"@, JsonModel::Bool(result.truncated)),
        json::has_member(
            answer@,
            "elapsed_ms"@,
            if value::is_finite(result.elapsed_ms) {
                JsonModel::Double(result.elapsed_ms)
            } else {
                JsonModel::Null
            },
        ),
        json::member_count(answer@) == 5,
{
    lemma_result_members(*result);
    let members = answer@->Object_0;
    assert(members[0].0 == "columns"@);
    assert(members[1].0 == "rows"@);
    assert(members[2] == ("row_count"@, JsonModel::Int(result.row_count as int)));
    assert(members[3] == ("truncated"@, JsonModel::Bool(result.truncated)));
    assert(members[4].0 == "elapsed_ms"@);
    json::lemma_member_is_there(members, 0);
    json::lemma_member_is_there(members, 1);
    json::lemma_member_is_there(members, 2);
    json::lemma_member_is_there(members, 3);
    json::lemma_member_is_there(members, 4);
    assert(members[0].1 == JsonModel::Array(members[0].1->Array_0));
    assert(members[1].1 == JsonModel::Array(members[1].1->Array_0));
}

/// A query is offered first to the worker that its ticket decides, and behind each refusal to
/// the next one, with the first behind the last. It is given up once every worker refused it.
pub proof fn workers_take_turns(
    ticket: usize,
    workers: usize,
    refused: usize,
    first: Admission,
    a: Admission,
    b: Admission,
)
    requires
        workers > 0,
        refused + 1 < usize::MAX,
        call_ensures(next_worker, (ticket, workers, 0), first),
        call_ensures(next_worker, (ticket, workers, refused), a),
        call_ensures(next_worker, (ticket, workers, (refused + 1) as usize), b),
    ensures
        first == Admission::Offer((ticket % workers) as usize),
        a is Busy <==> refused >= workers,
        a matches Admission::Offer(x) ==> x < workers,
        a matches Admission::Offer(x) ==> b matches Admission::Offer(y) ==> y == (if x + 1
            == workers {
            0int
        } else {
            x + 1
        }),
{
    lemma_turn(ticket as int, workers as int, 0);
    if refused < workers {
        lemma_turn(ticket as int, workers as int, refused as int);
    }
    if refused + 1 < workers {
        lemma_turn(ticket as int, workers as int, refused + 1);
    }
}

/// The report of a query that took too long tells the time that it may take, the report of the
/// engine is kept as it is, and each failure of the pool has a report of its own.
pub proof fn failures_tell_their_cause(
    a: &QueryError,
    r: String,
)
    requires
        call_ensures(QueryError::message, (a,), r),
    ensures
        a matches QueryError::Execution(report) ==> r@ == report@,
        a matches QueryError::Timeout(seconds) ==> (" of "@ + numeral::numeral(seconds as nat)
            + " seconds"@).is_suffix_of(r@) && "query exceeded "@.is_prefix_of(r@),
        a matches QueryError::Timeout(seconds) ==> r@.len()
            == "query exceeded the configured timeout of  seconds"@.len() + numeral::numeral(
            seconds as nat,
        ).len(),
        a is WorkersBusy ==> r@ == "all query workers are busy"@,
        a is WorkerStopped ==> r@ == "query worker stopped unexpectedly"@,
{
    reveal_strlit("query exceeded the configured timeout of ");
    reveal_strlit("query exceeded the configured timeout of  seconds");
    reveal_strlit("query exceeded ");
    reveal_strlit(" of ");
    reveal_strlit(" seconds");
    match a {
        QueryError::Timeout(seconds) => {
            let end = " of "@ + numeral::numeral(*seconds as nat) + " seconds"@;
            assert(r@.skip(r@.len() - end.len()) =~= end);
            assert(r@.take(15) =~= "query exceeded "@);
        },
        _ => {},
    }
}

/// A worker is interrupted exactly where nobody waits for it any more, and only an answer is a
/// result: it is handed on as it came.
pub proof fn only_answers_are_results(
    reply: Reply,
    timeout_seconds: u64,
    r: (Result<QueryResult, QueryError>, bool),
)
    requires
        call_ensures(settle, (reply, timeout_seconds), r),
    ensures
        r.0 is Ok <==> reply is Answered,
        r.0 matches Ok(result) ==> reply == Reply::Answered(result),
        r.1 <==> reply is TimedOut,
        reply is TimedOut <==> r.0 == Err::<QueryResult, QueryError>(
            QueryError::Timeout(timeout_seconds),
        ),
        reply is Stopped <==> r.0 == Err::<QueryResult, QueryError>(QueryError::WorkerStopped),
        reply matches Reply::Rejected(report) ==> r.0 == Err::<QueryResult, QueryError>(
            QueryError::Execution(report),
        ),
{
}

/// A column that the engine has a name for keeps it; any other is named after its index, so
/// that no two of them have one name.
pub proof fn unnamed_columns_are_numbered(
    i: usize,
    j: usize,
    name: String,
    data_type: String,
    a: Column,
    b: Column,
    c: Column,
)
    requires
        call_ensures(column_at, (i, None, data_type), a),
        call_ensures(column_at, (j, None, data_type), b),
        call_ensures(column_at, (i, Some(name), data_type), c),
    ensures
        c.name@ == name@,
        a.name@ == "column_"@ + numeral::numeral(i as nat),
        a.name@ == b.name@ <==> i == j,
        a.data_type@ == data_type@,
        c.data_type@ == data_type@,
{
    if a.name@ == b.name@ {
        let n = "column_"@.len() as int;
        assert(a.name@.skip(n) =~= numeral::numeral(i as nat));
        assert(b.name@.skip(n) =~= numeral::numeral(j as nat));
        numeral::numeral_reads_back(i as nat);
        numeral::numeral_reads_back(j as nat);
    }
}

/// A query that no worker can take is refused as such, and any other goes to the worker that
/// it is offered to.
pub proof fn busy_pools_refuse(admission: Admission, r: Result<usize, QueryError>)
    requires
        call_ensures(admitted, (admission,), r),
    ensures
        r matches Ok(worker) ==> admission == Admission::Offer(worker),
        r matches Err(error) ==> admission is Busy && error is WorkersBusy,
{
}

/// A collector starts with nothing and its limit, is full once it holds as many rows as that, and
/// gives a result that holds its rows, counts them, and says whether there were more.
pub proof fn collected_rows_are_counted(
    limit: usize,
    fresh: RowCollector,
    collector: RowCollector,
    full: bool,
    columns: Vec<Column>,
    elapsed_ms: u64,
    r: QueryResult,
)
    requires
        call_ensures(RowCollector::new, (limit,), fresh),
        call_ensures(RowCollector::is_full, (&collector,), full),
        call_ensures(RowCollector::finish, (collector, columns, elapsed_ms), r),
    ensures
        fresh.limit == limit,
        fresh.rows@.len() == 0,
        !fresh.truncated,
        full <==> collector.rows@.len() >= collector.limit,
        row_models(r.rows@) == row_models(collector.rows@),
        r.row_count == r.rows@.len(),
        r.truncated == collector.truncated,
        r.columns == columns,
        r.elapsed_ms == elapsed_ms,
{
    let a = fresh@;
    assert(a.limit == fresh.limit);
    assert(row_models(fresh.rows@).len() == fresh.rows@.len());
    assert(row_models(collector.rows@).len() == collector.rows@.len());
    assert(row_models(r.rows@).len() == r.rows@.len());
}

/// A further row is kept behind the others, each of its values as its JSON, where there is room;
/// where there is none, it is only noted that there was one. Rows behind it are of interest
/// exactly where it was kept.
pub proof fn offered_rows_are_kept_while_there_is_room(
    collector: &mut RowCollector,
    values: &Vec<Value>,
    more: bool,
    i: int,
    j: int,
    one: Json,
)
    requires
        call_ensures(RowCollector::offer, (collector, values), more),
        0 <= j < values@.len() ==> call_ensures(value::value_to_json, (&values@[j],), one),
    ensures
        more <==> old(collector).rows@.len() < old(collector).limit,
        final(collector).limit == old(collector).limit,
        more ==> final(collector).truncated == old(collector).truncated,
        !more ==> final(collector).truncated,
        final(collector).rows@.len() == old(collector).rows@.len() + (if more {
            1int
        } else {
            0int
        }),
        0 <= i < old(collector).rows@.len() ==> row_models(final(collector).rows@)[i]
            == row_models(old(collector).rows@)[i],
        more ==> row_models(final(collector).rows@).last().len() == values@.len(),
        more && 0 <= j < values@.len() ==> row_models(final(collector).rows@).last()[j] == one@,
{
    let before = old(collector)@;
    let after = final(collector)@;
    let row = value::values_json(values@);
    assert(after == with_row(before, row));
    assert(before.rows.len() == old(collector).rows@.len());
    assert(after.rows.len() == final(collector).rows@.len());
    assert(before.limit == old(collector).limit && after.limit == final(collector).limit);
    value::lemma_values_in_place(values@, j);
}

} // verus!
