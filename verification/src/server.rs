//! The HTTP service: its documents, its errors, and who may reload it.
use vstd::prelude::*;

use crate::encoding;
use crate::encoding::Alphabet;
use crate::json;
use crate::json::{Json, JsonModel, Members};
use crate::pool::PoolStats;
use crate::query;
use crate::query::{FailureModel, QueryError, QueryFailure, QueryFault};
use crate::sql;
use crate::sql::{SqlRefusal, SqlValidationError};
use crate::text;

verus! {

/// The version of the gateway.
pub const VERSION: &'static str = "0.2.0";

/// The largest request body that is read, in bytes.
pub const MAX_BODY_BYTES: usize = 1_048_576;

/// The header that carries the token of a request to reload.
pub const ADMIN_TOKEN_HEADER: &'static str = "x-duckdoor-admin-token";

/// What a client sends to have a query run.
#[derive(Debug)]
pub struct QueryRequest {
    pub sql: String,
}

// ---------------------------------------------------------------------------
// Errors
// ---------------------------------------------------------------------------

/// An error as it is answered: the HTTP status, a stable code, and a report.
#[derive(Debug)]
pub struct ApiError {
    pub status: u16,
    pub code: &'static str,
    pub message: String,
}

#[verifier::ext_equal]
pub struct ApiModel {
    pub status: u16,
    pub code: Seq<char>,
    pub message: Seq<char>,
}

impl View for ApiError {
    type V = ApiModel;

    open spec fn view(&self) -> ApiModel {
        ApiModel { status: self.status, code: self.code@, message: self.message@ }
    }
}

pub open spec fn refusal_code(refusal: SqlRefusal) -> Seq<char> {
    match refusal {
        SqlRefusal::Empty => "invalid_sql"@,
        SqlRefusal::Parse(_) => "invalid_sql"@,
        SqlRefusal::StatementCount(_) => "invalid_sql"@,
        SqlRefusal::NotReadOnly(_) => "query_not_read_only"@,
        SqlRefusal::SourceFunctionNotAllowed(_) => "query_source_function_not_allowed"@,
        SqlRefusal::SourceRelationNotAllowed(_) => "query_source_relation_not_allowed"@,
    }
}

pub open spec fn fault_code(fault: QueryFault) -> (u16, Seq<char>) {
    match fault {
        QueryFault::WorkersBusy => (503, "query_workers_busy"@),
        QueryFault::WorkerStopped => (500, "query_worker_stopped"@),
        QueryFault::Timeout(_) => (408, "query_timeout"@),
        QueryFault::Execution(_) => (400, "query_execution_failed"@),
    }
}

/// What a query without a result is answered with.
pub open spec fn failure_answer(failure: FailureModel) -> ApiModel {
    match failure {
        FailureModel::Refused(refusal) => ApiModel {
            status: 400,
            code: refusal_code(refusal),
            message: sql::refusal_text(refusal),
        },
        FailureModel::Failed(fault) => ApiModel {
            status: fault_code(fault).0,
            code: fault_code(fault).1,
            message: query::query_fault_text(fault),
        },
        FailureModel::Internal => ApiModel {
            status: 500,
            code: "internal_error"@,
            message: "query failed because of an internal gateway error"@,
        },
    }
}

/// The document of an error, whose form is the same for every error.
pub open spec fn error_envelope(code: Seq<char>, message: Seq<char>) -> JsonModel {
    JsonModel::Object(
        seq![
            ("ok"@, JsonModel::Bool(false)),
            (
                "error"@,
                JsonModel::Object(
                    seq![
                        ("code"@, JsonModel::Text(code)),
                        ("message"@, JsonModel::Text(message)),
                    ],
                ),
            ),
        ],
    )
}

impl ApiError {
    pub fn new(status: u16, code: &'static str, message: String) -> (r: ApiError)
        ensures
            r@ == (ApiModel { status, code: code@, message: message@ }),
    {
        ApiError { status, code, message }
    }

    /// What a query without a result is answered with.
    pub fn query(failure: &QueryFailure) -> (r: ApiError)
        ensures
            r@ == failure_answer(failure@),
    {
        match failure {
            QueryFailure::Refused(error) => {
                let code = match error {
                    SqlValidationError::Empty => "invalid_sql",
                    SqlValidationError::Parse(_) => "invalid_sql",
                    SqlValidationError::StatementCount(_) => "invalid_sql",
                    SqlValidationError::NotReadOnly(_) => "query_not_read_only",
                    SqlValidationError::SourceFunctionNotAllowed(_) => {
                        "query_source_function_not_allowed"
                    },
                    SqlValidationError::SourceRelationNotAllowed(_) => {
                        "query_source_relation_not_allowed"
                    },
                };
                ApiError::new(400, code, error.message())
            },
            QueryFailure::Failed(error) => match error {
                QueryError::WorkersBusy => {
                    ApiError::new(503, "query_workers_busy", error.message())
                },
                QueryError::WorkerStopped => {
                    ApiError::new(500, "query_worker_stopped", error.message())
                },
                QueryError::Timeout(_) => ApiError::new(408, "query_timeout", error.message()),
                QueryError::Execution(_) => {
                    ApiError::new(400, "query_execution_failed", error.message())
                },
            },
            QueryFailure::Internal => ApiError::new(
                500,
                "internal_error",
                "query failed because of an internal gateway error".to_owned(),
            ),
        }
    }

    /// What a request to reload a configuration that has no pool is answered with.
    pub fn reload(report: &str) -> (r: ApiError)
        ensures
            r@ == (ApiModel {
                status: 400,
                code: "reload_rejected"@,
                message: "configuration could not be activated: "@ + report@,
            }),
    {
        let mut message = "configuration could not be activated: ".to_owned();
        message.append(report);
        ApiError::new(400, "reload_rejected", message)
    }

    /// What a body that is no request is answered with: the status and the report of the
    /// reader of the body.
    pub fn json_request(status: u16, report: String) -> (r: ApiError)
        ensures
            r@ == (ApiModel { status, code: "invalid_request_json"@, message: report@ }),
    {
        ApiError::new(status, "invalid_request_json", report)
    }

    /// The status and the document that the error is answered with.
    pub fn into_response(self) -> (r: (u16, Json))
        ensures
            r.0 == self.status,
            r.1@ == error_envelope(self.code@, self.message@),
    {
        let mut error = Members::new();
        error.put("code", json::text(self.code));
        error.put("message", Json::Text(self.message));
        assert(error@ =~= seq![
            ("code"@, JsonModel::Text(self.code@)),
            ("message"@, JsonModel::Text(self.message@)),
        ]);
        let mut members = Members::new();
        members.put("ok", Json::Bool(false));
        members.put("error", error.object());
        assert(members@ =~= error_envelope(self.code@, self.message@)->Object_0);
        (self.status, members.object())
    }
}

/// What a request to an unknown route is answered with.
pub fn not_found() -> (r: ApiError)
    ensures
        r@ == (ApiModel {
            status: 404,
            code: "route_not_found"@,
            message: "HTTP route does not exist"@,
        }),
{
    ApiError::new(404, "route_not_found", "HTTP route does not exist".to_owned())
}

/// What a request with a method that its route does not have is answered with.
pub fn method_not_allowed() -> (r: ApiError)
    ensures
        r@ == (ApiModel {
            status: 405,
            code: "method_not_allowed"@,
            message: "HTTP method is not allowed for this route"@,
        }),
{
    ApiError::new(
        405,
        "method_not_allowed",
        "HTTP method is not allowed for this route".to_owned(),
    )
}

/// A query that may not be run is a mistake of the client; the codes tell what kind of
/// mistake.
pub proof fn refused_queries_are_client_errors(refusal: SqlRefusal)
    ensures
        failure_answer(FailureModel::Refused(refusal)).status == 400,
        refusal is NotReadOnly <==> failure_answer(FailureModel::Refused(refusal)).code
            == "query_not_read_only"@,
        refusal is SourceFunctionNotAllowed <==> failure_answer(
            FailureModel::Refused(refusal),
        ).code == "query_source_function_not_allowed"@,
        refusal is SourceRelationNotAllowed <==> failure_answer(
            FailureModel::Refused(refusal),
        ).code == "query_source_relation_not_allowed"@,
{
    reveal_strlit("invalid_sql");
    reveal_strlit("query_not_read_only");
    reveal_strlit("query_source_function_not_allowed");
    reveal_strlit("query_source_relation_not_allowed");
    assert("invalid_sql"@.len() == 11);
    assert("query_not_read_only"@.len() == 19);
    assert("query_source_function_not_allowed"@[13] == 'f');
    assert("query_source_relation_not_allowed"@[13] == 'r');
}

// ---------------------------------------------------------------------------
// The token of the administrator
// ---------------------------------------------------------------------------

/// The token that is made of random bytes, as it is stored. Reading it back leaves it as it
/// is.
pub fn admin_token(random: &Vec<u8>) -> (token: String)
    ensures
        token@ == encoding::letters(Alphabet::UrlSafe, random@),
        token@.len() == (4 * random@.len() + 2) / 3,
        text::trimmed(token@) == token@,
        text::trimmed(token@.push('\n')) == token@,
{
    let token = encoding::encode_token(random);
    proof {
        stored_tokens_are_read_back(random@);
    }
    token
}

/// The token of any bytes is read back as it was stored, also where a line feed was put behind
/// it.
pub proof fn stored_tokens_are_read_back(random: Seq<u8>)
    ensures
        ({
            let token = encoding::letters(Alphabet::UrlSafe, random);
            &&& token.len() == (4 * random.len() + 2) / 3
            &&& text::trimmed(token) == token
            &&& text::trimmed(token.push('\n')) == token
        }),
{
    let token = encoding::letters(Alphabet::UrlSafe, random);
    encoding::letters_of_bytes(random);
    assert forall|i: int| 0 <= i < token.len() implies !text::is_space(#[trigger] token[i]) by {
        assert(encoding::token_char(token[i]));
    }
    text::trimming_keeps_solid_text(token);
    text::trimming_drops_a_final_line_feed(token);
}

/// Different bytes make different tokens.
pub proof fn tokens_tell_bytes_apart(a: Seq<u8>, b: Seq<u8>)
    requires
        encoding::letters(Alphabet::UrlSafe, a) == encoding::letters(Alphabet::UrlSafe, b),
    ensures
        a == b,
{
    encoding::letters_tell_bytes_apart(Alphabet::UrlSafe, a, b);
}

/// The token that a stored text holds.
pub fn read_token(stored: &str) -> (token: String)
    ensures
        token@ == text::trimmed(stored@),
{
    text::trim(stored)
}

/// Whether a request carries the token.
pub open spec fn authorized(supplied: Option<Seq<char>>, token: Seq<char>) -> bool {
    supplied == Some(token)
}

/// Accepts the requests that carry the token, and answers any other with an error.
pub fn authorize(supplied: &Option<String>, token: &str) -> (r: Result<(), ApiError>)
    ensures
        r is Ok <==> authorized(crate::config::optional(*supplied), token@),
        r matches Err(error) ==> error@ == (ApiModel {
            status: 401,
            code: "unauthorized"@,
            message: "invalid admin token"@,
        }),
{
    if let Some(supplied) = supplied {
        if text::same_text(supplied.as_str(), token) {
            return Ok(());
        }
    }
    Err(ApiError::new(401, "unauthorized", "invalid admin token".to_owned()))
}

// ---------------------------------------------------------------------------
// Documents
// ---------------------------------------------------------------------------

pub open spec fn stats_members(stats: PoolStats) -> Seq<(Seq<char>, JsonModel)> {
    seq![
        ("workers"@, JsonModel::Int(stats.workers as int)),
        ("enabled_backends"@, JsonModel::Int(stats.enabled_backends as int)),
        ("active_views"@, JsonModel::Int(stats.active_views as int)),
        ("unavailable_views"@, JsonModel::Int(stats.unavailable_views as int)),
    ]
}

fn put_stats(members: &mut Members, stats: PoolStats)
    ensures
        final(members)@ == old(members)@ + stats_members(stats),
{
    let ghost before = members@;
    members.put("workers", Json::Int(stats.workers as i128));
    members.put("enabled_backends", Json::Int(stats.enabled_backends as i128));
    members.put("active_views", Json::Int(stats.active_views as i128));
    members.put("unavailable_views", Json::Int(stats.unavailable_views as i128));
    assert(members@ =~= before + stats_members(stats));
}

pub open spec fn health_document(version: Seq<char>, pid: u32, stats: PoolStats) -> JsonModel {
    JsonModel::Object(
        seq![
            ("ok"@, JsonModel::Bool(true)),
            ("status"@, JsonModel::Text("ok"@)),
            ("version"@, JsonModel::Text(version)),
            ("pid"@, JsonModel::Int(pid as int)),
        ] + stats_members(stats),
    )
}

/// What a question for the health of the gateway is answered with.
pub fn health(version: &str, pid: u32, stats: PoolStats) -> (r: Json)
    ensures
        r@ == health_document(version@, pid, stats),
{
    let mut members = Members::new();
    members.put("ok", Json::Bool(true));
    members.put("status", json::text("ok"));
    members.put("version", json::text(version));
    members.put("pid", Json::Int(pid as i128));
    put_stats(&mut members, stats);
    assert(members@ =~= health_document(version@, pid, stats)->Object_0);
    members.object()
}

pub open spec fn reload_document(stats: PoolStats) -> JsonModel {
    JsonModel::Object(
        seq![
            ("ok"@, JsonModel::Bool(true)),
            ("status"@, JsonModel::Text("reloaded"@)),
        ] + stats_members(stats),
    )
}

/// What a request to reload is answered with where the new pool serves.
pub fn reloaded(stats: PoolStats) -> (r: Json)
    ensures
        r@ == reload_document(stats),
{
    let mut members = Members::new();
    members.put("ok", Json::Bool(true));
    members.put("status", json::text("reloaded"));
    put_stats(&mut members, stats);
    assert(members@ =~= reload_document(stats)->Object_0);
    members.object()
}

// ---------------------------------------------------------------------------
// Laws of the documents
// ---------------------------------------------------------------------------

/// Whether a document tells the numbers of a pool, each under its own name.
pub open spec fn tells_stats(document: JsonModel, stats: PoolStats) -> bool {
    &&& json::has_member(document, "workers"@, JsonModel::Int(stats.workers as int))
    &&& json::has_member(
        document,
        "enabled_backends"@,
        JsonModel::Int(stats.enabled_backends as int),
    )
    &&& json::has_member(document, "active_views"@, JsonModel::Int(stats.active_views as int))
    &&& json::has_member(
        document,
        "unavailable_views"@,
        JsonModel::Int(stats.unavailable_views as int),
    )
}

/// The answer to a question for the health of the gateway tells the process that answers, the
/// version that it is asked for, and each number of its pool, whatever they are.
pub proof fn health_tells_the_process_and_its_pool(
    version: &str,
    pid: u32,
    stats: PoolStats,
    answer: Json,
)
    requires
        call_ensures(health, (version, pid, stats), answer),
    ensures
        json::has_member(answer@, "ok"@, JsonModel::Bool(true)),
        json::has_member(answer@, "status"@, JsonModel::Text("ok"@)),
        json::has_member(answer@, "version"@, JsonModel::Text(version@)),
        json::has_member(answer@, "pid"@, JsonModel::Int(pid as int)),
        tells_stats(answer@, stats),
        json::member_count(answer@) == 8,
{
    reveal_strlit("ok");
    reveal_strlit("status");
    reveal_strlit("version");
    reveal_strlit("pid");
    reveal_strlit("workers");
    reveal_strlit("enabled_backends");
    reveal_strlit("active_views");
    reveal_strlit("unavailable_views");
    let members = answer@->Object_0;
    assert(members[0].0 == "ok"@);
    assert(members[1].0 == "status"@);
    assert(members[2].0 == "version"@);
    assert(members[3].0 == "pid"@);
    assert(members[4].0 == "workers"@);
    assert(members[5].0 == "enabled_backends"@);
    assert(members[6].0 == "active_views"@);
    assert(members[7].0 == "unavailable_views"@);
    assert("version"@[0] != "workers"@[0]);
}

// ---------------------------------------------------------------------------
// Laws of the answers
// ---------------------------------------------------------------------------

/// The answer to a request to reload that was followed says so and tells the numbers of the new
/// pool.
pub proof fn reloading_tells_the_new_pool(stats: PoolStats, answer: Json)
    requires
        call_ensures(reloaded, (stats,), answer),
    ensures
        json::has_member(answer@, "ok"@, JsonModel::Bool(true)),
        json::has_member(answer@, "status"@, JsonModel::Text("reloaded"@)),
        json::has_member(answer@, "workers"@, JsonModel::Int(stats.workers as int)),
        json::has_member(
            answer@,
            "enabled_backends"@,
            JsonModel::Int(stats.enabled_backends as int),
        ),
        json::has_member(answer@, "active_views"@, JsonModel::Int(stats.active_views as int)),
        json::has_member(
            answer@,
            "unavailable_views"@,
            JsonModel::Int(stats.unavailable_views as int),
        ),
        json::member_count(answer@) == 6,
{
    reveal_strlit("ok");
    reveal_strlit("status");
    reveal_strlit("workers");
    reveal_strlit("enabled_backends");
    reveal_strlit("active_views");
    reveal_strlit("unavailable_views");
    let members = answer@->Object_0;
    assert(members[0].0 == "ok"@);
    assert(members[1].0 == "status"@);
    assert(members[2].0 == "workers"@);
    assert(members[3].0 == "enabled_backends"@);
    assert(members[4].0 == "active_views"@);
    assert(members[5].0 == "unavailable_views"@);
    assert("ok"@.len() == 2);
    assert("status"@.len() == 6);
    assert("workers"@.len() == 7);
    assert("enabled_backends"@.len() == 16);
    assert("active_views"@.len() == 12);
    assert("unavailable_views"@.len() == 17);
    assert(json::names_differ(members));
    json::lemma_member_is_there(members, 0);
    json::lemma_member_is_there(members, 1);
    json::lemma_member_is_there(members, 2);
    json::lemma_member_is_there(members, 3);
    json::lemma_member_is_there(members, 4);
    json::lemma_member_is_there(members, 5);
}

/// An error is answered with its own status, and with a document that gives its code and its
/// report.
pub proof fn errors_are_answered_with_code_and_report(
    error: ApiError,
    r: (u16, Json),
    inner: JsonModel,
)
    requires
        call_ensures(ApiError::into_response, (error,), r),
        json::has_member(r.1@, "error"@, inner),
    ensures
        r.0 == error.status,
        json::has_member(r.1@, "ok"@, JsonModel::Bool(false)),
        json::member_count(r.1@) == 2,
        json::has_member(inner, "code"@, JsonModel::Text(error.code@)),
        json::has_member(inner, "message"@, JsonModel::Text(error.message@)),
        json::member_count(inner) == 2,
{
    assert(json::has_member(r.1@, "ok"@, JsonModel::Bool(false)) && inner == (
    r.1@->Object_0)[1].1) by {
        reveal_strlit("ok");
        reveal_strlit("error");
        let members = r.1@->Object_0;
        assert(members[0].0 == "ok"@);
        assert(members[1].0 == "error"@);
        assert("ok"@.len() == 2);
        assert("error"@.len() == 5);
        assert(json::names_differ(members));
        json::lemma_member_is_there(members, 0);
        json::lemma_member_is_there(members, 1);
    }
    reveal_strlit("code");
    reveal_strlit("message");
    let members = inner->Object_0;
    assert(members[0].0 == "code"@);
    assert(members[1].0 == "message"@);
    assert("code"@.len() == 4);
    assert("message"@.len() == 7);
    assert(json::names_differ(members));
    json::lemma_member_is_there(members, 0);
    json::lemma_member_is_there(members, 1);
}

/// A query without a result is answered with the report of its failure. A query that may not be
/// run, or that the engine rejects, is a mistake of the client; one that takes too long has
/// timed out; a pool whose workers are all occupied is unavailable for now; and where a worker
/// or the gateway failed, the server did.
pub proof fn failures_are_answered_by_kind(
    failure: &QueryFailure,
    r: ApiError,
    report: String,
    told: String,
)
    requires
        call_ensures(ApiError::query, (failure,), r),
        failure matches QueryFailure::Refused(error) ==> call_ensures(
            SqlValidationError::message,
            (&error,),
            report,
        ),
        failure matches QueryFailure::Failed(error) ==> call_ensures(
            QueryError::message,
            (&error,),
            told,
        ),
    ensures
        failure is Refused ==> r.status == 400 && r.message@ == report@,
        failure is Failed ==> r.message@ == told@,
        failure matches QueryFailure::Failed(error) ==> match error {
            QueryError::WorkersBusy => r.status == 503 && r.code@ == "query_workers_busy"@,
            QueryError::WorkerStopped => r.status == 500 && r.code@ == "query_worker_stopped"@,
            QueryError::Timeout(_) => r.status == 408 && r.code@ == "query_timeout"@,
            QueryError::Execution(_) => r.status == 400 && r.code@ == "query_execution_failed"@,
        },
        failure matches QueryFailure::Refused(error) ==> match error {
            SqlValidationError::NotReadOnly(_) => r.code@ == "query_not_read_only"@,
            SqlValidationError::SourceFunctionNotAllowed(_) => r.code@
                == "query_source_function_not_allowed"@,
            SqlValidationError::SourceRelationNotAllowed(_) => r.code@
                == "query_source_relation_not_allowed"@,
            _ => r.code@ == "invalid_sql"@,
        },
        failure is Internal ==> r.status == 500 && r.code@ == "internal_error"@ && r.message@
            == "query failed because of an internal gateway error"@,
{
}

/// A request to reload that cannot be followed, and a body that is no request, are mistakes of
/// the client, and the report of the cause is passed on.
pub proof fn refused_requests_pass_on_their_cause(
    report: &str,
    status: u16,
    cause: String,
    a: ApiError,
    b: ApiError,
)
    requires
        call_ensures(ApiError::reload, (report,), a),
        call_ensures(ApiError::json_request, (status, cause), b),
    ensures
        a.status == 400,
        a.code@ == "reload_rejected"@,
        (": "@ + report@).is_suffix_of(a.message@),
        "configuration could not be activated: "@.is_prefix_of(a.message@),
        a.message@.len() == "configuration could not be activated: "@.len() + report@.len(),
        b.status == status,
        b.code@ == "invalid_request_json"@,
        b.message@ == cause@,
{
    reveal_strlit("configuration could not be activated: ");
    reveal_strlit(": ");
    let end = ": "@ + report@;
    assert(a.message@.skip(a.message@.len() - end.len()) =~= end);
    assert(a.message@.take("configuration could not be activated: "@.len() as int)
        =~= "configuration could not be activated: "@);
}

/// A request may reload the gateway exactly where it carries the token, letter for letter. Any
/// other, one without a token among them, is answered as not authorized.
pub proof fn only_the_token_authorizes(
    supplied: &Option<String>,
    token: &str,
    r: Result<(), ApiError>,
)
    requires
        call_ensures(authorize, (supplied, token), r),
    ensures
        r is Ok <==> (supplied matches Some(text) && text@ == token@),
        r matches Err(error) ==> error.status == 401 && error.code@ == "unauthorized"@
            && error.message@ == "invalid admin token"@,
{
}

/// A request for a route that is not there, and one with a method that its route does not
/// have, are told apart by status and by code. No more than a mebibyte of a request is read, and
/// the token of a request to reload is looked for in one header.
pub proof fn unknown_routes_and_methods_are_told_apart(a: ApiError, b: ApiError)
    requires
        call_ensures(not_found, (), a),
        call_ensures(method_not_allowed, (), b),
    ensures
        a.status == 404,
        b.status == 405,
        a.code@ == "route_not_found"@,
        b.code@ == "method_not_allowed"@,
        a.code@ != b.code@,
        a.message@ == "HTTP route does not exist"@,
        b.message@ == "HTTP method is not allowed for this route"@,
        MAX_BODY_BYTES == 1024 * 1024,
        ADMIN_TOKEN_HEADER@ == "x-duckdoor-admin-token"@,
        VERSION@ == "0.2.0"@,
{
    reveal_strlit("route_not_found");
    reveal_strlit("method_not_allowed");
    assert("route_not_found"@.len() == 15 && "method_not_allowed"@.len() == 18);
}

/// A token that was stored, with a line feed behind it or without, is read back as it was made;
/// different bytes make different tokens; and what is read never has white space at its ends.
pub proof fn tokens_are_read_back(
    random: &Vec<u8>,
    other: &Vec<u8>,
    made: String,
    again: String,
    stored: &str,
    read: String,
)
    requires
        call_ensures(admin_token, (random,), made),
        call_ensures(admin_token, (other,), again),
        call_ensures(read_token, (stored,), read),
    ensures
        stored@ == made@ || stored@ == made@.push('\n') ==> read@ == made@,
        made@ == again@ ==> random@ == other@,
        read@.len() > 0 ==> !text::is_space(read@[0]) && !text::is_space(read@.last()),
{
    stored_tokens_are_read_back(random@);
    if made@ == again@ {
        tokens_tell_bytes_apart(random@, other@);
    }
    text::trimmed_text_has_solid_ends(stored@);
}

} // verus!
