//! The documents that the management commands answer with.
use vstd::prelude::*;

use crate::config;
use crate::config::{Backend, BackendModel, Config, ConfigModel, LogicalView, ViewModel};
use crate::documents;
use crate::json;
use crate::json::{Items, Json, JsonModel, Members};
use crate::order;
use crate::output::{CommandError, CommandFault};
use crate::sources;
use crate::text;
use crate::views;

verus! {

/// What the backends of a configuration are listed as.
pub open spec fn list_document(c: ConfigModel) -> JsonModel {
    JsonModel::Object(
        seq![
            ("backends"@, JsonModel::Array(documents::backend_documents(c.backends))),
            ("count"@, JsonModel::Int(c.backends.len() as int)),
        ],
    )
}

/// Lists the backends.
pub fn list(config: &Config) -> (r: Json)
    ensures
        r@ == list_document(config@),
{
    let mut members = Members::new();
    members.put("backends", documents::backends_json(&config.backends));
    members.put("count", Json::Int(config.backends.len() as i128));
    assert(members@ =~= list_document(config@)->Object_0);
    members.object()
}

/// What adding a backend is answered with.
pub open spec fn added_document(backend: BackendModel, reloaded: bool) -> JsonModel {
    JsonModel::Object(
        seq![
            ("backend"@, documents::backend_document(backend)),
            ("changed"@, JsonModel::Bool(true)),
            ("configuration_reloaded"@, JsonModel::Bool(reloaded)),
        ],
    )
}

/// What adding a backend is answered with.
pub fn add(backend: &Backend, reloaded: bool) -> (r: Json)
    ensures
        r@ == added_document(backend@, reloaded),
{
    let mut members = Members::new();
    members.put("backend", documents::backend_json(backend));
    members.put("changed", Json::Bool(true));
    members.put("configuration_reloaded", Json::Bool(reloaded));
    assert(members@ =~= added_document(backend@, reloaded)->Object_0);
    members.object()
}

/// What removing backends is answered with. No file of a source is ever deleted.
pub open spec fn removed_document(
    scope: Seq<char>,
    removed: Seq<BackendModel>,
    reloaded: bool,
) -> JsonModel {
    JsonModel::Object(
        seq![
            ("scope"@, JsonModel::Text(scope)),
            ("changed"@, JsonModel::Bool(removed.len() > 0)),
            ("removed_count"@, JsonModel::Int(removed.len() as int)),
            ("removed"@, JsonModel::Array(documents::backend_documents(removed))),
            ("source_files_deleted"@, JsonModel::Int(0)),
            ("configuration_reloaded"@, JsonModel::Bool(reloaded)),
        ],
    )
}

/// What removing backends is answered with: all of them, or those of one name.
pub fn remove(all: bool, removed: &Vec<Backend>, reloaded: bool) -> (r: Json)
    ensures
        r@ == removed_document(
            if all {
                "all"@
            } else {
                "one"@
            },
            order::models(removed@),
            reloaded,
        ),
{
    let scope = if all {
        "all"
    } else {
        "one"
    };
    let mut members = Members::new();
    members.put("scope", json::text(scope));
    members.put("changed", Json::Bool(removed.len() > 0));
    members.put("removed_count", Json::Int(removed.len() as i128));
    members.put("removed", documents::backends_json(removed));
    members.put("source_files_deleted", Json::Int(0));
    members.put("configuration_reloaded", Json::Bool(reloaded));
    assert(members@ =~= removed_document(scope@, order::models(removed@), reloaded)->Object_0);
    members.object()
}

/// What enabling or disabling a backend is answered with.
pub open spec fn switched_document(
    name: Seq<char>,
    enabled: bool,
    changed: bool,
    reloaded: bool,
) -> JsonModel {
    JsonModel::Object(
        seq![
            ("name"@, JsonModel::Text(name)),
            ("enabled"@, JsonModel::Bool(enabled)),
            ("changed"@, JsonModel::Bool(changed)),
            ("configuration_reloaded"@, JsonModel::Bool(reloaded)),
        ],
    )
}

/// What enabling or disabling a backend is answered with.
pub fn set_enabled(name: &str, enabled: bool, changed: bool, reloaded: bool) -> (r: Json)
    ensures
        r@ == switched_document(name@, enabled, changed, reloaded),
{
    let mut members = Members::new();
    members.put("name", json::text(name));
    members.put("enabled", Json::Bool(enabled));
    members.put("changed", Json::Bool(changed));
    members.put("configuration_reloaded", Json::Bool(reloaded));
    assert(members@ =~= switched_document(name@, enabled, changed, reloaded)->Object_0);
    members.object()
}

/// What trying a backend is answered with, where it can be read.
pub open spec fn tested_document(backend: BackendModel, files: nat) -> JsonModel {
    JsonModel::Object(
        seq![
            ("name"@, JsonModel::Text(backend.name)),
            ("type"@, JsonModel::Text(documents::kind_word(backend.kind))),
            ("path"@, JsonModel::Text(backend.path)),
            ("resolved_files"@, JsonModel::Int(files as int)),
            ("read_only"@, JsonModel::Bool(true)),
        ],
    )
}

/// What trying a backend is answered with, where it can be read.
pub fn test(backend: &Backend, files: usize) -> (r: Json)
    ensures
        r@ == tested_document(backend@, files as nat),
{
    let mut members = Members::new();
    members.put("name", json::text(backend.name.as_str()));
    members.put("type", json::text(documents::kind_name(backend.kind)));
    members.put("path", json::text(backend.path.as_str()));
    members.put("resolved_files", Json::Int(files as i128));
    members.put("read_only", Json::Bool(true));
    assert(members@ =~= tested_document(backend@, files as nat)->Object_0);
    members.object()
}

/// What the views of a configuration are listed as.
pub open spec fn view_list_document(c: ConfigModel) -> JsonModel {
    JsonModel::Object(
        seq![
            (
                "views"@,
                JsonModel::Array(documents::resolved_view_documents(c.backends, c.views)),
            ),
            ("count"@, JsonModel::Int(c.views.len() as int)),
        ],
    )
}

/// Lists the views, each with what it is resolved to.
pub fn view_list(config: &Config) -> (r: Json)
    ensures
        r@ == view_list_document(config@),
{
    let mut members = Members::new();
    members.put("views", documents::views_json(config));
    members.put("count", Json::Int(config.views.len() as i128));
    assert(members@ =~= view_list_document(config@)->Object_0);
    members.object()
}

/// What adding a view is answered with.
pub open spec fn view_added_document(
    backends: Seq<BackendModel>,
    view: ViewModel,
    reloaded: bool,
) -> JsonModel {
    JsonModel::Object(
        seq![
            ("view"@, documents::view_document(view)),
            ("resolution"@, documents::resolution_document(backends, view)),
            ("changed"@, JsonModel::Bool(true)),
            ("configuration_reloaded"@, JsonModel::Bool(reloaded)),
        ],
    )
}

/// What adding a view is answered with.
pub fn view_add(config: &Config, view: &LogicalView, reloaded: bool) -> (r: Json)
    ensures
        r@ == view_added_document(config@.backends, view@, reloaded),
{
    let mut members = Members::new();
    members.put("view", documents::view_json(view));
    members.put("resolution", documents::resolution_json(&config.backends, view));
    members.put("changed", Json::Bool(true));
    members.put("configuration_reloaded", Json::Bool(reloaded));
    assert(members@ =~= view_added_document(config@.backends, view@, reloaded)->Object_0);
    members.object()
}

/// What a view is shown as: its definition, what it is resolved to, and the statements that
/// it is compiled to, or `null` where it is compiled to none.
pub open spec fn view_shown_document(backends: Seq<BackendModel>, view: ViewModel) -> JsonModel {
    JsonModel::Object(
        seq![
            ("view"@, documents::view_document(view)),
            ("resolution"@, documents::resolution_document(backends, view)),
            (
                "compiled_sql"@,
                json::optional_text(
                    match views::compilation(backends, view) {
                        Ok(sql) => sql,
                        Err(_) => None,
                    },
                ),
            ),
        ],
    )
}

/// What a view is shown as.
pub fn view_show(config: &Config, view: &LogicalView) -> (r: Json)
    ensures
        r@ == view_shown_document(config@.backends, view@),
{
    let compiled = match views::compile_view(&config.backends, view) {
        Ok(sql) => json::text_or_null(&sql),
        Err(_) => Json::Null,
    };
    let mut members = Members::new();
    members.put("view", documents::view_json(view));
    members.put("resolution", documents::resolution_json(&config.backends, view));
    members.put("compiled_sql", compiled);
    assert(members@ =~= view_shown_document(config@.backends, view@)->Object_0);
    members.object()
}

/// The error of a command that found the configuration invalid.
pub open spec fn invalid_configuration_error(path: Seq<char>, cause: Seq<char>) -> CommandFault {
    CommandFault {
        code: "invalid_configuration"@,
        message: "the configuration is not valid"@,
        details: JsonModel::Object(
            seq![
                ("path"@, JsonModel::Text(path)),
                ("cause"@, JsonModel::Text(cause)),
                (
                    "resolution"@,
                    JsonModel::Text("correct the file and run `duckdoor doctor`"@),
                ),
            ],
        ),
    }
}

/// The error of a command that found the configuration invalid.
pub fn invalid_configuration(path: &str, cause: &str) -> (r: CommandError)
    ensures
        r@ == invalid_configuration_error(path@, cause@),
{
    let mut details = Members::new();
    details.put("path", json::text(path));
    details.put("cause", json::text(cause));
    details.put("resolution", json::text("correct the file and run `duckdoor doctor`"));
    assert(details@ =~= invalid_configuration_error(path@, cause@).details->Object_0);
    CommandError::new(
        "invalid_configuration",
        "the configuration is not valid",
        details.object(),
    )
}

// ---------------------------------------------------------------------------
// The check of everything
// ---------------------------------------------------------------------------

/// The address of a socket: how it is written, and whether it is one of this machine alone.
#[derive(Debug)]
pub struct Address {
    pub text: String,
    pub loopback: bool,
}

/// What was found out about everything that can be checked.
#[derive(Debug)]
pub struct Findings {
    /// The address that the gateway listens on, or why it is not the address of a socket.
    pub address: Result<Address, String>,
    /// What came of trying each backend, in order.
    pub backends: Vec<Result<(), String>>,
    /// What came of running a query on a pool with one worker.
    pub engine: Result<(), String>,
    /// The status of the background process, as a document.
    pub daemon: Json,
    /// Why a process that runs gave no answer.
    pub daemon_error: Option<String>,
}

pub open spec fn check_failed(phase: Seq<char>, cause: Seq<char>) -> CommandFault {
    CommandFault {
        code: "doctor_check_failed"@,
        message: phase + ": "@ + cause,
        details: JsonModel::Object(
            seq![("check"@, JsonModel::Text(phase)), ("cause"@, JsonModel::Text(cause))],
        ),
    }
}

fn failed_check(phase: &str, cause: &str) -> (r: CommandError)
    ensures
        r@ == check_failed(phase@, cause@),
{
    let mut message = phase.to_owned();
    message.append(": ");
    message.append(cause);
    let mut details = Members::new();
    details.put("check", json::text(phase));
    details.put("cause", json::text(cause));
    assert(details@ =~= seq![("check"@, JsonModel::Text(phase@)), ("cause"@, JsonModel::Text(cause@))]);
    CommandError::new("doctor_check_failed", message.as_str(), details.object())
}

/// The first backend, from `from` on, that cannot be read, and why.
pub open spec fn first_bad_backend(
    backends: Seq<BackendModel>,
    found: Seq<Result<(), String>>,
    from: int,
) -> Option<CommandFault>
    decreases backends.len() - from,
{
    if from >= backends.len() {
        None
    } else {
        match found[from] {
            Err(cause) => Some(
                check_failed("backend "@ + backends[from].name + " failed"@, cause@),
            ),
            Ok(_) => first_bad_backend(backends, found, from + 1),
        }
    }
}

/// The first check that failed: the address, then the backends in order, then the engine, then
/// the process that runs.
pub open spec fn diagnosis(c: ConfigModel, found: Findings) -> Option<CommandFault> {
    match found.address {
        Err(cause) => Some(check_failed("listen must be an IP socket address"@, cause@)),
        Ok(_) => if first_bad_backend(c.backends, found.backends@, 0) is Some {
            first_bad_backend(c.backends, found.backends@, 0)
        } else {
            match (found.engine, found.daemon_error) {
                (Err(cause), _) => Some(check_failed("engine"@, cause@)),
                (Ok(_), Some(cause)) => Some(check_failed("daemon"@, cause@)),
                (Ok(_), None) => None,
            }
        },
    }
}

/// What is said of an address that other machines can reach.
pub open spec fn doctor_warnings(address: Address) -> Seq<JsonModel> {
    if address.loopback {
        Seq::empty()
    } else {
        seq![
            JsonModel::Text(
                address.text@
                    + " is not loopback; put authentication and TLS in front of duckdoor"@,
            ),
        ]
    }
}

/// What the check of everything is answered with, where nothing failed.
pub open spec fn doctor_document(
    paths: config::PathsModel,
    c: ConfigModel,
    found: Findings,
) -> JsonModel {
    JsonModel::Object(
        seq![
            ("home"@, JsonModel::Text(paths.home)),
            ("config"@, JsonModel::Text(paths.config)),
            ("warnings"@, JsonModel::Array(doctor_warnings(found.address->Ok_0))),
            ("backends"@, JsonModel::Array(documents::backend_documents(c.backends))),
            (
                "views"@,
                JsonModel::Array(documents::resolved_view_documents(c.backends, c.views)),
            ),
            ("duckdb_version"@, JsonModel::Text("1.5.5"@)),
            ("daemon"@, found.daemon@),
            ("status"@, JsonModel::Text("ok"@)),
        ],
    )
}

/// What the check of everything is answered with.
pub fn doctor(paths: &config::Paths, config: &Config, found: Findings) -> (r: Result<
    Json,
    CommandError,
>)
    requires
        found.backends@.len() == config.backends@.len(),
    ensures
        match r {
            Ok(document) => diagnosis(config@, found) is None && document@ == doctor_document(
                paths@,
                config@,
                found,
            ),
            Err(error) => diagnosis(config@, found) == Some(error@),
        },
{
    let ghost all = config@.backends;
    let address = match &found.address {
        Err(cause) => {
            return Err(failed_check("listen must be an IP socket address", cause.as_str()));
        },
        Ok(address) => address,
    };
    let mut i: usize = 0;
    while i < config.backends.len()
        invariant
            i <= config.backends@.len(),
            found.backends@.len() == config.backends@.len(),
            all == order::models(config.backends@),
            first_bad_backend(all, found.backends@, 0) == first_bad_backend(
                all,
                found.backends@,
                i as int,
            ),
            found.address is Ok,
            all == config@.backends,
        decreases config.backends@.len() - i,
    {
        assert(all[i as int] == config.backends@[i as int]@);
        if let Err(cause) = &found.backends[i] {
            let mut phase = "backend ".to_owned();
            phase.append(config.backends[i].name.as_str());
            phase.append(" failed");
            return Err(failed_check(phase.as_str(), cause.as_str()));
        }
        i += 1;
    }
    if let Err(cause) = &found.engine {
        return Err(failed_check("engine", cause.as_str()));
    }
    if let Some(cause) = &found.daemon_error {
        return Err(failed_check("daemon", cause.as_str()));
    }
    let mut warnings = Items::new();
    if !address.loopback {
        let mut warning = address.text.clone();
        warning.append(" is not loopback; put authentication and TLS in front of duckdoor");
        warnings.put(Json::Text(warning));
    }
    assert(warnings@ =~= doctor_warnings(*address));
    let mut members = Members::new();
    members.put("home", json::text(paths.home.as_str()));
    members.put("config", json::text(paths.config.as_str()));
    members.put("warnings", warnings.array());
    members.put("backends", documents::backends_json(&config.backends));
    members.put("views", documents::views_json(config));
    members.put("duckdb_version", json::text(sources::duckdb_version()));
    members.put("daemon", found.daemon.clone());
    members.put("status", json::text("ok"));
    assert(members@ =~= doctor_document(paths@, config@, found)->Object_0);
    Ok(members.object())
}

// ---------------------------------------------------------------------------
// Arguments
// ---------------------------------------------------------------------------

/// The first line, from `from` on, that tells how a command is used.
pub open spec fn usage_place(lines: Seq<Seq<char>>, from: int) -> Option<int>
    decreases lines.len() - from,
{
    if from >= lines.len() {
        None
    } else if "Usage: "@.is_prefix_of(lines[from]) {
        Some(from)
    } else {
        usage_place(lines, from + 1)
    }
}

/// The report in a text about arguments: what stands in front of how the command is used,
/// without the word that it begins with.
pub open spec fn argument_report(lines: Seq<Seq<char>>) -> Seq<char> {
    let head = match usage_place(lines, 0) {
        Some(i) => lines.take(i),
        None => lines,
    };
    let report = text::trimmed(text::joined(head, "\n"@));
    if "error: "@.is_prefix_of(report) {
        report.skip("error: "@.len() as int)
    } else {
        report
    }
}

/// How the command is used, in a text about arguments.
pub open spec fn argument_usage(lines: Seq<Seq<char>>) -> Seq<char> {
    match usage_place(lines, 0) {
        Some(i) => lines[i].skip("Usage: "@.len() as int),
        None => "duckdoor [OPTIONS] <COMMAND>"@,
    }
}

pub open spec fn invalid_arguments_error(rendered: Seq<char>) -> CommandFault {
    let lines = text::lines_of(rendered);
    CommandFault {
        code: "invalid_arguments"@,
        message: argument_report(lines),
        details: JsonModel::Object(
            seq![
                ("usage"@, JsonModel::Text(argument_usage(lines))),
                (
                    "help"@,
                    JsonModel::Text("run `duckdoor --help` for the commands and their arguments"@),
                ),
            ],
        ),
    }
}

/// What is left of a text behind a prefix, where it begins with it.
fn behind(value: &str, prefix: &str) -> (r: String)
    ensures
        r@ == if prefix@.is_prefix_of(value@) {
            value@.skip(prefix@.len() as int)
        } else {
            value@
        },
{
    if !text::begins_with(value, prefix) {
        return value.to_owned();
    }
    let chars = text::chars_of(value);
    let skipped = text::chars_of(prefix);
    let rest = text::string_of(&chars, skipped.len(), chars.len());
    assert(rest@ =~= value@.skip(prefix@.len() as int));
    rest
}

/// The error of arguments that are not understood, given the text that the reader of the
/// arguments has for it.
pub fn invalid_arguments(rendered: &str) -> (r: CommandError)
    ensures
        r@ == invalid_arguments_error(rendered@),
{
    let lines = text::lines(rendered);
    let ghost all = text::lines_of(rendered@);
    let mut usage = "duckdoor [OPTIONS] <COMMAND>".to_owned();
    let mut head: Vec<String> = Vec::new();
    let mut found = false;
    let mut i: usize = 0;
    while i < lines.len() && !found
        invariant
            i <= lines@.len(),
            text::texts(lines@) == all,
            !found ==> usage_place(all, 0) == usage_place(all, i as int),
            !found ==> usage@ == "duckdoor [OPTIONS] <COMMAND>"@,
            found ==> usage_place(all, 0) == Some(i as int) && usage@ == all[i as int].skip(
                "Usage: "@.len() as int,
            ),
            text::texts(head@) == all.take(i as int),
        decreases lines@.len() - i, !found as int,
    {
        let ghost before = head@;
        assert(all[i as int] == lines@[i as int]@);
        if text::begins_with(lines[i].as_str(), "Usage: ") {
            usage = behind(lines[i].as_str(), "Usage: ");
            found = true;
        } else {
            let line = lines[i].clone();
            head.push(line);
            assert(text::texts(head@) =~= text::texts(before).push(line@));
            assert(all.take(i + 1) =~= all.take(i as int).push(all[i as int]));
            i += 1;
        }
    }
    assert(!found ==> all.take(i as int) =~= all);
    let report = text::trim(text::join(&head, "\n").as_str());
    let message = behind(report.as_str(), "error: ");
    let mut details = Members::new();
    details.put("usage", Json::Text(usage));
    details.put(
        "help",
        json::text("run `duckdoor --help` for the commands and their arguments"),
    );
    assert(details@ =~= invalid_arguments_error(rendered@).details->Object_0);
    CommandError::new("invalid_arguments", message.as_str(), details.object())
}

// ---------------------------------------------------------------------------
// Laws
// ---------------------------------------------------------------------------

/// The list of the backends holds the document of each, and tells how many there are.
pub proof fn listing_tells_every_backend(config: &Config, all: Json, r: Json)
    requires
        call_ensures(list, (config,), r),
        call_ensures(documents::backends_json, (&config.backends,), all),
    ensures
        json::has_member(r@, "backends"@, all@),
        json::has_member(r@, "count"@, JsonModel::Int(config.backends@.len() as int)),
        json::member_count(r@) == 2,
{
    reveal_strlit("backends");
    reveal_strlit("count");
    let members = r@->Object_0;
    assert(members[0].0 == "backends"@);
    assert(members[1].0 == "count"@);
    assert("backends"@.len() == 8);
    assert("count"@.len() == 5);
    assert(json::names_differ(members));
    json::lemma_member_is_there(members, 0);
    json::lemma_member_is_there(members, 1);
}

/// What adding a backend is answered with tells the backend and that something has changed, and
/// whether the gateway has reloaded.
pub proof fn adding_tells_the_backend(backend: &Backend, reloaded: bool, one: Json, r: Json)
    requires
        call_ensures(add, (backend, reloaded), r),
        call_ensures(documents::backend_json, (backend,), one),
    ensures
        json::has_member(r@, "backend"@, one@),
        json::has_member(r@, "changed"@, JsonModel::Bool(true)),
        json::has_member(r@, "configuration_reloaded"@, JsonModel::Bool(reloaded)),
        json::member_count(r@) == 3,
{
    reveal_strlit("backend");
    reveal_strlit("changed");
    reveal_strlit("configuration_reloaded");
    let members = r@->Object_0;
    assert(members[0].0 == "backend"@);
    assert(members[1].0 == "changed"@);
    assert(members[2].0 == "configuration_reloaded"@);
    assert("backend"@.len() == 7);
    assert("changed"@.len() == 7);
    assert("configuration_reloaded"@.len() == 22);
    assert("backend"@[0] != "changed"@[0]);
    assert(json::names_differ(members));
    json::lemma_member_is_there(members, 0);
    json::lemma_member_is_there(members, 1);
    json::lemma_member_is_there(members, 2);
}

/// What removing backends is answered with tells those that were removed and how many they are,
/// and that no file was deleted; something has changed exactly where one was removed.
pub proof fn removing_tells_what_is_gone(
    all: bool,
    removed: &Vec<Backend>,
    reloaded: bool,
    gone: Json,
    r: Json,
)
    requires
        call_ensures(remove, (all, removed, reloaded), r),
        call_ensures(documents::backends_json, (removed,), gone),
    ensures
        json::has_member(r@, "scope"@, JsonModel::Text(
            if all {
                "all"@
            } else {
                "one"@
            },
        )),
        json::has_member(r@, "changed"@, JsonModel::Bool(removed@.len() != 0)),
        json::has_member(r@, "removed_count"@, JsonModel::Int(removed@.len() as int)),
        json::has_member(r@, "removed"@, gone@),
        json::has_member(r@, "source_files_deleted"@, JsonModel::Int(0)),
        json::has_member(r@, "configuration_reloaded"@, JsonModel::Bool(reloaded)),
        json::member_count(r@) == 6,
{
    reveal_strlit("scope");
    reveal_strlit("changed");
    reveal_strlit("removed_count");
    reveal_strlit("removed");
    reveal_strlit("source_files_deleted");
    reveal_strlit("configuration_reloaded");
    let members = r@->Object_0;
    assert(members[0].0 == "scope"@);
    assert(members[1].0 == "changed"@);
    assert(members[2].0 == "removed_count"@);
    assert(members[3].0 == "removed"@);
    assert(members[4].0 == "source_files_deleted"@);
    assert(members[5].0 == "configuration_reloaded"@);
    assert("scope"@.len() == 5);
    assert("changed"@.len() == 7);
    assert("removed_count"@.len() == 13);
    assert("removed"@.len() == 7);
    assert("source_files_deleted"@.len() == 20);
    assert("configuration_reloaded"@.len() == 22);
    assert("changed"@[0] != "removed"@[0]);
    assert(json::names_differ(members));
    json::lemma_member_is_there(members, 0);
    json::lemma_member_is_there(members, 1);
    json::lemma_member_is_there(members, 2);
    json::lemma_member_is_there(members, 3);
    json::lemma_member_is_there(members, 4);
    json::lemma_member_is_there(members, 5);
}

/// What switching a backend is answered with tells its name, what it was switched to, whether that
/// has changed anything, and whether the gateway has reloaded.
pub proof fn switching_tells_name_and_state(
    name: &str,
    enabled: bool,
    changed: bool,
    reloaded: bool,
    r: Json,
)
    requires
        call_ensures(set_enabled, (name, enabled, changed, reloaded), r),
    ensures
        json::has_member(r@, "name"@, JsonModel::Text(name@)),
        json::has_member(r@, "enabled"@, JsonModel::Bool(enabled)),
        json::has_member(r@, "changed"@, JsonModel::Bool(changed)),
        json::has_member(r@, "configuration_reloaded"@, JsonModel::Bool(reloaded)),
        json::member_count(r@) == 4,
{
    reveal_strlit("name");
    reveal_strlit("enabled");
    reveal_strlit("changed");
    reveal_strlit("configuration_reloaded");
    let members = r@->Object_0;
    assert(members[0].0 == "name"@);
    assert(members[1].0 == "enabled"@);
    assert(members[2].0 == "changed"@);
    assert(members[3].0 == "configuration_reloaded"@);
    assert("name"@.len() == 4);
    assert("enabled"@.len() == 7);
    assert("changed"@.len() == 7);
    assert("configuration_reloaded"@.len() == 22);
    assert("enabled"@[0] != "changed"@[0]);
    assert(json::names_differ(members));
    json::lemma_member_is_there(members, 0);
    json::lemma_member_is_there(members, 1);
    json::lemma_member_is_there(members, 2);
    json::lemma_member_is_there(members, 3);
}

/// What trying a backend is answered with tells the backend, how many files it stands for, and that
/// it is only read.
pub proof fn trying_tells_the_backend_and_its_files(
    backend: &Backend,
    files: usize,
    kind: &'static str,
    r: Json,
)
    requires
        call_ensures(test, (backend, files), r),
        call_ensures(documents::kind_name, (backend.kind,), kind),
    ensures
        json::has_member(r@, "name"@, JsonModel::Text(backend.name@)),
        json::has_member(r@, "type"@, JsonModel::Text(kind@)),
        json::has_member(r@, "path"@, JsonModel::Text(backend.path@)),
        json::has_member(r@, "resolved_files"@, JsonModel::Int(files as int)),
        json::has_member(r@, "read_only"@, JsonModel::Bool(true)),
        json::member_count(r@) == 5,
{
    reveal_strlit("name");
    reveal_strlit("type");
    reveal_strlit("path");
    reveal_strlit("resolved_files");
    reveal_strlit("read_only");
    let members = r@->Object_0;
    assert(members[0].0 == "name"@);
    assert(members[1].0 == "type"@);
    assert(members[2].0 == "path"@);
    assert(members[3].0 == "resolved_files"@);
    assert(members[4].0 == "read_only"@);
    assert("name"@.len() == 4);
    assert("type"@.len() == 4);
    assert("path"@.len() == 4);
    assert("resolved_files"@.len() == 14);
    assert("read_only"@.len() == 9);
    assert("name"@[0] != "type"@[0]);
    assert("name"@[0] != "path"@[0]);
    assert("type"@[0] != "path"@[0]);
    assert(json::names_differ(members));
    json::lemma_member_is_there(members, 0);
    json::lemma_member_is_there(members, 1);
    json::lemma_member_is_there(members, 2);
    json::lemma_member_is_there(members, 3);
    json::lemma_member_is_there(members, 4);
}

/// The list of the views holds each with what it is resolved to, and tells how many there are.
pub proof fn listing_tells_every_view(config: &Config, all: Json, r: Json)
    requires
        call_ensures(view_list, (config,), r),
        call_ensures(documents::views_json, (config,), all),
    ensures
        json::has_member(r@, "views"@, all@),
        json::has_member(r@, "count"@, JsonModel::Int(config.views@.len() as int)),
        json::member_count(r@) == 2,
{
    reveal_strlit("views");
    reveal_strlit("count");
    let members = r@->Object_0;
    assert(members[0].0 == "views"@);
    assert(members[1].0 == "count"@);
    assert("views"@.len() == 5);
    assert("count"@.len() == 5);
    assert("views"@[0] != "count"@[0]);
    assert(json::names_differ(members));
    json::lemma_member_is_there(members, 0);
    json::lemma_member_is_there(members, 1);
}

/// What adding a view is answered with tells the view, what it is resolved to among the configured
/// backends, that something has changed, and whether the gateway has reloaded.
pub proof fn adding_tells_the_view(
    config: &Config,
    view: &LogicalView,
    reloaded: bool,
    one: Json,
    found: Json,
    r: Json,
)
    requires
        call_ensures(view_add, (config, view, reloaded), r),
        call_ensures(documents::view_json, (view,), one),
        call_ensures(documents::resolution_json, (&config.backends, view), found),
    ensures
        json::has_member(r@, "view"@, one@),
        json::has_member(r@, "resolution"@, found@),
        json::has_member(r@, "changed"@, JsonModel::Bool(true)),
        json::has_member(r@, "configuration_reloaded"@, JsonModel::Bool(reloaded)),
        json::member_count(r@) == 4,
{
    reveal_strlit("view");
    reveal_strlit("resolution");
    reveal_strlit("changed");
    reveal_strlit("configuration_reloaded");
    let members = r@->Object_0;
    assert(members[0].0 == "view"@);
    assert(members[1].0 == "resolution"@);
    assert(members[2].0 == "changed"@);
    assert(members[3].0 == "configuration_reloaded"@);
    assert("view"@.len() == 4);
    assert("resolution"@.len() == 10);
    assert("changed"@.len() == 7);
    assert("configuration_reloaded"@.len() == 22);
    assert(json::names_differ(members));
    json::lemma_member_is_there(members, 0);
    json::lemma_member_is_there(members, 1);
    json::lemma_member_is_there(members, 2);
    json::lemma_member_is_there(members, 3);
}

/// A view is shown with its definition, what it is resolved to and the statements that it is
/// compiled to: the very text of them where there are any, and `null` where there are none or
/// it cannot be compiled.
pub proof fn showing_tells_the_statements(
    config: &Config,
    view: &LogicalView,
    one: Json,
    found: Json,
    compiled: Result<Option<String>, views::ViewError>,
    r: Json,
)
    requires
        call_ensures(view_show, (config, view), r),
        call_ensures(documents::view_json, (view,), one),
        call_ensures(documents::resolution_json, (&config.backends, view), found),
        call_ensures(views::compile_view, (&config.backends, view), compiled),
    ensures
        json::has_member(r@, "view"@, one@),
        json::has_member(r@, "resolution"@, found@),
        compiled matches Ok(Some(sql)) ==> json::has_member(
            r@,
            "compiled_sql"@,
            JsonModel::Text(sql@),
        ),
        !(compiled matches Ok(Some(_))) ==> json::has_member(r@, "compiled_sql"@, JsonModel::Null),
        json::member_count(r@) == 3,
{
    reveal_strlit("view");
    reveal_strlit("resolution");
    reveal_strlit("compiled_sql");
    let members = r@->Object_0;
    assert(members[0].0 == "view"@);
    assert(members[1].0 == "resolution"@);
    assert(members[2].0 == "compiled_sql"@);
    assert("view"@.len() == 4);
    assert("resolution"@.len() == 10);
    assert("compiled_sql"@.len() == 12);
    assert(json::names_differ(members));
    json::lemma_member_is_there(members, 0);
    json::lemma_member_is_there(members, 1);
    json::lemma_member_is_there(members, 2);
    if let Ok(Some(sql)) = compiled {
        assert(views::compiled(compiled) == Ok::<Option<Seq<char>>, views::ViewFault>(Some(sql@)));
    } else {
        assert(!(views::compiled(compiled) matches Ok(Some(_))));
    }
}

/// The error of a configuration that is not valid tells the file and the cause.
pub proof fn invalid_configurations_tell_file_and_cause(path: &str, cause: &str, r: CommandError)
    requires
        call_ensures(invalid_configuration, (path, cause), r),
    ensures
        r.code@ == "invalid_configuration"@,
        r.message@ == "the configuration is not valid"@,
        json::has_member(
            r.details@,
            "resolution"@,
            JsonModel::Text("correct the file and run `duckdoor doctor`"@),
        ),
        json::has_member(r.details@, "path"@, JsonModel::Text(path@)),
        json::has_member(r.details@, "cause"@, JsonModel::Text(cause@)),
        json::member_count(r.details@) == 3,
{
    reveal_strlit("path");
    reveal_strlit("cause");
    reveal_strlit("resolution");
    let members = r.details@->Object_0;
    assert(members[0].0 == "path"@);
    assert(members[1].0 == "cause"@);
    assert(members[2].0 == "resolution"@);
    assert("path"@.len() == 4);
    assert("cause"@.len() == 5);
    assert("resolution"@.len() == 10);
    assert(json::names_differ(members));
    json::lemma_member_is_there(members, 0);
    json::lemma_member_is_there(members, 1);
    json::lemma_member_is_there(members, 2);
}

/// Whether an error is that of a check that failed, with its phase and its cause.
pub open spec fn tells_check(error: CommandError, phase: Seq<char>, cause: Seq<char>) -> bool {
    &&& error.code@ == "doctor_check_failed"@
    &&& error.message@ == phase + ": "@ + cause
    &&& json::has_member(error.details@, "check"@, JsonModel::Text(phase))
    &&& json::has_member(error.details@, "cause"@, JsonModel::Text(cause))
}

proof fn lemma_check_is_told(error: CommandError, phase: Seq<char>, cause: Seq<char>)
    requires
        error@ == check_failed(phase, cause),
    ensures
        tells_check(error, phase, cause),
{
    reveal_strlit("check");
    reveal_strlit("cause");
    let members = error.details@->Object_0;
    assert(members[0].0 == "check"@);
    assert(members[1].0 == "cause"@);
    assert("check"@.len() == 5);
    assert("cause"@.len() == 5);
    assert("check"@[1] != "cause"@[1]);
    assert(json::names_differ(members));
    json::lemma_member_is_there(members, 0);
    json::lemma_member_is_there(members, 1);
}

proof fn lemma_first_bad_backend(
    backends: Seq<BackendModel>,
    found: Seq<Result<(), String>>,
    from: int,
    k: int,
)
    requires
        0 <= from <= k <= backends.len(),
        found.len() == backends.len(),
        forall|i: int| from <= i < k ==> #[trigger] found[i] is Ok,
    ensures
        first_bad_backend(backends, found, from) == first_bad_backend(backends, found, k),
    decreases k - from,
{
    if from < k {
        assert(found[from] is Ok);
        lemma_first_bad_backend(backends, found, from + 1, k);
    }
}

/// The check of everything succeeds exactly where nothing failed, and else tells what failed
/// first: the address, then the first backend that cannot be read, then the engine, then the
/// process that runs.
pub proof fn the_first_failed_check_is_told(
    paths: &config::Paths,
    config: &Config,
    found: Findings,
    r: Result<Json, CommandError>,
    k: int,
)
    requires
        found.backends@.len() == config.backends@.len(),
        call_ensures(doctor, (paths, config, found), r),
        0 <= k <= found.backends@.len(),
        forall|i: int| 0 <= i < k ==> #[trigger] found.backends@[i] is Ok,
        k < found.backends@.len() ==> found.backends@[k] is Err,
    ensures
        found.address matches Err(cause) ==> (r matches Err(error) && tells_check(
            error,
            "listen must be an IP socket address"@,
            cause@,
        )),
        found.address is Ok && k < found.backends@.len() ==> (r matches Err(error) && tells_check(
            error,
            "backend "@ + config.backends@[k].name@ + " failed"@,
            found.backends@[k]->Err_0@,
        )),
        found.address is Ok && k == found.backends@.len() && found.engine is Err ==> (
        r matches Err(error) && tells_check(error, "engine"@, found.engine->Err_0@)),
        found.address is Ok && k == found.backends@.len() && found.engine is Ok
            && found.daemon_error is Some ==> (r matches Err(error) && tells_check(
            error,
            "daemon"@,
            found.daemon_error->0@,
        )),
        r is Ok <==> found.address is Ok && k == found.backends@.len() && found.engine is Ok
            && found.daemon_error is None,
{
    lemma_first_bad_backend(config@.backends, found.backends@, 0, k);
    if let Err(error) = r {
        if found.address is Err {
            lemma_check_is_told(
                error,
                "listen must be an IP socket address"@,
                found.address->Err_0@,
            );
        } else if k < found.backends@.len() {
            assert(config@.backends[k] == config.backends@[k]@);
            lemma_check_is_told(
                error,
                "backend "@ + config.backends@[k].name@ + " failed"@,
                found.backends@[k]->Err_0@,
            );
        } else if found.engine is Err {
            lemma_check_is_told(error, "engine"@, found.engine->Err_0@);
        } else {
            lemma_check_is_told(error, "daemon"@, found.daemon_error->0@);
        }
    }
}

/// Where nothing failed, the answer tells the home, the file of the configuration, the backends,
/// the views, the version of DuckDB and the status of the process, and warns exactly where other
/// machines can reach the address, which the warning begins with.
pub proof fn a_clean_check_tells_everything(
    paths: &config::Paths,
    config: &Config,
    found: Findings,
    document: Json,
    backends: Json,
    views: Json,
    version: &'static str,
    warnings: Seq<JsonModel>,
)
    requires
        found.backends@.len() == config.backends@.len(),
        call_ensures(doctor, (paths, config, found), Ok(document)),
        call_ensures(documents::backends_json, (&config.backends,), backends),
        call_ensures(documents::views_json, (config,), views),
        call_ensures(sources::duckdb_version, (), version),
        json::has_member(document@, "warnings"@, JsonModel::Array(warnings)),
    ensures
        json::has_member(document@, "home"@, JsonModel::Text(paths.home@)),
        json::has_member(document@, "config"@, JsonModel::Text(paths.config@)),
        json::has_member(document@, "backends"@, backends@),
        json::has_member(document@, "views"@, views@),
        json::has_member(document@, "duckdb_version"@, JsonModel::Text(version@)),
        json::has_member(document@, "daemon"@, found.daemon@),
        json::has_member(document@, "status"@, JsonModel::Text("ok"@)),
        json::member_count(document@) == 8,
        found.address matches Ok(address) && (warnings.len() == if address.loopback {
            0nat
        } else {
            1nat
        }) && (!address.loopback ==> (warnings[0] matches JsonModel::Text(told)
            && address.text@.is_prefix_of(told) && told.skip(address.text@.len() as int)
            == " is not loopback; put authentication and TLS in front of duckdoor"@)),
{
    reveal_strlit("home");
    reveal_strlit("config");
    reveal_strlit("warnings");
    reveal_strlit("backends");
    reveal_strlit("views");
    reveal_strlit("duckdb_version");
    reveal_strlit("daemon");
    reveal_strlit("status");
    let members = document@->Object_0;
    assert(members[0].0 == "home"@);
    assert(members[1].0 == "config"@);
    assert(members[2].0 == "warnings"@);
    assert(members[3].0 == "backends"@);
    assert(members[4].0 == "views"@);
    assert(members[5].0 == "duckdb_version"@);
    assert(members[6].0 == "daemon"@);
    assert(members[7].0 == "status"@);
    assert("home"@.len() == 4);
    assert("config"@.len() == 6);
    assert("warnings"@.len() == 8);
    assert("backends"@.len() == 8);
    assert("views"@.len() == 5);
    assert("duckdb_version"@.len() == 14);
    assert("daemon"@.len() == 6);
    assert("status"@.len() == 6);
    assert("config"@[0] != "daemon"@[0]);
    assert("config"@[0] != "status"@[0]);
    assert("warnings"@[0] != "backends"@[0]);
    assert("daemon"@[0] != "status"@[0]);
    assert(json::names_differ(members));
    json::lemma_member_is_there(members, 0);
    json::lemma_member_is_there(members, 1);
    json::lemma_member_is_there(members, 2);
    json::lemma_member_is_there(members, 3);
    json::lemma_member_is_there(members, 4);
    json::lemma_member_is_there(members, 5);
    json::lemma_member_is_there(members, 6);
    json::lemma_member_is_there(members, 7);
    assert(JsonModel::Array(warnings) == members[2].1);
    let address = found.address->Ok_0;
    if !address.loopback {
        let told = warnings[0]->Text_0;
        let head = address.text@;
        assert(told.take(head.len() as int) =~= head);
        assert(told.skip(head.len() as int)
            =~= " is not loopback; put authentication and TLS in front of duckdoor"@);
    }
}

proof fn lemma_usage_place(lines: Seq<Seq<char>>, from: int, k: int)
    requires
        0 <= from <= k <= lines.len(),
        forall|i: int| from <= i < k ==> !"Usage: "@.is_prefix_of(#[trigger] lines[i]),
    ensures
        usage_place(lines, from) == usage_place(lines, k),
    decreases k - from,
{
    if from < k {
        assert(!"Usage: "@.is_prefix_of(lines[from]));
        lemma_usage_place(lines, from + 1, k);
    }
}

/// The error of arguments that are not understood tells how the command is used, by the first
/// line that says so or else by how all commands are. Its report is what stands in front of that
/// line, without white space at its ends and without the word that it begins with.
pub proof fn argument_errors_tell_report_and_usage(rendered: &str, r: CommandError, k: int)
    requires
        call_ensures(invalid_arguments, (rendered,), r),
        0 <= k <= text::lines_of(rendered@).len(),
        forall|i: int|
            0 <= i < k ==> !"Usage: "@.is_prefix_of(#[trigger] text::lines_of(rendered@)[i]),
        k < text::lines_of(rendered@).len() ==> "Usage: "@.is_prefix_of(
            text::lines_of(rendered@)[k],
        ),
    ensures
        ({
            let lines = text::lines_of(rendered@);
            let report = text::trimmed(text::joined(lines.take(k), "\n"@));
            &&& r.code@ == "invalid_arguments"@
            &&& "error: "@.is_prefix_of(report) ==> "error: "@ + r.message@ == report
            &&& !"error: "@.is_prefix_of(report) ==> r.message@ == report
            &&& k < lines.len() ==> json::has_member(
                r.details@,
                "usage"@,
                JsonModel::Text(lines[k].skip("Usage: "@.len() as int)),
            )
            &&& k == lines.len() ==> json::has_member(
                r.details@,
                "usage"@,
                JsonModel::Text("duckdoor [OPTIONS] <COMMAND>"@),
            )
            &&& json::has_member(
                r.details@,
                "help"@,
                JsonModel::Text("run `duckdoor --help` for the commands and their arguments"@),
            )
            &&& json::member_count(r.details@) == 2
        }),
{
    let lines = text::lines_of(rendered@);
    lemma_usage_place(lines, 0, k);
    let report = text::trimmed(text::joined(lines.take(k), "\n"@));
    assert(lines.take(lines.len() as int) =~= lines);
    if "error: "@.is_prefix_of(report) {
        let n = "error: "@.len() as int;
        assert(report.take(n) =~= "error: "@);
        assert("error: "@ + report.skip(n) =~= report);
    }
    reveal_strlit("usage");
    reveal_strlit("help");
    let members = r.details@->Object_0;
    assert(members[0].0 == "usage"@);
    assert(members[1].0 == "help"@);
    assert("usage"@.len() == 5);
    assert("help"@.len() == 4);
    assert(json::names_differ(members));
    json::lemma_member_is_there(members, 0);
    json::lemma_member_is_there(members, 1);
}

} // verus!
