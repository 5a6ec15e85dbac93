//! The documents that the commands print.
use vstd::prelude::*;

use crate::json;
use crate::json::{Json, JsonModel, Members};

verus! {

/// An error of a command: a stable code, a report for people, and details for programs.
#[derive(Debug)]
pub struct CommandError {
    pub code: String,
    pub message: String,
    pub details: Json,
}

#[verifier::ext_equal]
pub struct CommandFault {
    pub code: Seq<char>,
    pub message: Seq<char>,
    pub details: JsonModel,
}

impl View for CommandError {
    type V = CommandFault;

    open spec fn view(&self) -> CommandFault {
        CommandFault { code: self.code@, message: self.message@, details: self.details@ }
    }
}

impl CommandError {
    pub fn new(code: &str, message: &str, details: Json) -> (r: CommandError)
        ensures
            r@ == (CommandFault { code: code@, message: message@, details: details@ }),
    {
        CommandError { code: code.to_owned(), message: message.to_owned(), details }
    }
}

/// The error of a command that has no code of its own.
pub open spec fn plain_failure(message: Seq<char>) -> CommandFault {
    CommandFault {
        code: "command_failed"@,
        message,
        details: JsonModel::Object(Seq::empty()),
    }
}

/// The error of a command that has no code of its own.
pub fn failed(message: &str) -> (r: CommandError)
    ensures
        r@ == plain_failure(message@),
{
    CommandError::new("command_failed", message, Members::new().object())
}

pub open spec fn success_document(command: Seq<char>, data: JsonModel) -> JsonModel {
    JsonModel::Object(
        seq![
            ("ok"@, JsonModel::Bool(true)),
            ("command"@, JsonModel::Text(command)),
            ("data"@, data),
        ],
    )
}

/// The document of a command that succeeded.
pub fn success(command: &str, data: Json) -> (r: Json)
    ensures
        r@ == success_document(command@, data@),
{
    let mut members = Members::new();
    members.put("ok", Json::Bool(true));
    members.put("command", json::text(command));
    members.put("data", data);
    assert(members@ =~= success_document(command@, data@)->Object_0);
    members.object()
}

pub open spec fn error_document(fault: CommandFault) -> JsonModel {
    JsonModel::Object(
        seq![
            ("ok"@, JsonModel::Bool(false)),
            (
                "error"@,
                JsonModel::Object(
                    seq![
                        ("code"@, JsonModel::Text(fault.code)),
                        ("message"@, JsonModel::Text(fault.message)),
                        ("details"@, fault.details),
                    ],
                ),
            ),
        ],
    )
}

/// The document of a command that failed.
pub fn error(failure: CommandError) -> (r: Json)
    ensures
        r@ == error_document(failure@),
{
    let ghost fault = failure@;
    let mut inner = Members::new();
    inner.put("code", Json::Text(failure.code));
    inner.put("message", Json::Text(failure.message));
    inner.put("details", failure.details);
    assert(inner@ =~= seq![
        ("code"@, JsonModel::Text(fault.code)),
        ("message"@, JsonModel::Text(fault.message)),
        ("details"@, fault.details),
    ]);
    let mut members = Members::new();
    members.put("ok", Json::Bool(false));
    members.put("error", inner.object());
    assert(members@ =~= error_document(fault)->Object_0);
    members.object()
}

pub open spec fn warning_document(
    code: Seq<char>,
    message: Seq<char>,
    data: JsonModel,
) -> JsonModel {
    JsonModel::Object(
        seq![
            ("level"@, JsonModel::Text("warning"@)),
            ("code"@, JsonModel::Text(code)),
            ("message"@, JsonModel::Text(message)),
            ("data"@, data),
        ],
    )
}

/// The document of a warning.
pub fn warning(code: &str, message: &str, data: Json) -> (r: Json)
    ensures
        r@ == warning_document(code@, message@, data@),
{
    let mut members = Members::new();
    members.put("level", json::text("warning"));
    members.put("code", json::text(code));
    members.put("message", json::text(message));
    members.put("data", data);
    assert(members@ =~= warning_document(code@, message@, data@)->Object_0);
    members.object()
}

// ---------------------------------------------------------------------------
// Laws
// ---------------------------------------------------------------------------

/// What a command that succeeded prints says so, and tells the command and the very data that it
/// was given.
pub proof fn success_tells_command_and_data(command: &str, data: Json, r: Json)
    requires
        call_ensures(success, (command, data), r),
    ensures
        json::has_member(r@, "ok"@, JsonModel::Bool(true)),
        json::has_member(r@, "command"@, JsonModel::Text(command@)),
        json::has_member(r@, "data"@, data@),
        json::member_count(r@) == 3,
{
    reveal_strlit("ok");
    reveal_strlit("command");
    reveal_strlit("data");
    let members = r@->Object_0;
    assert(members[0].0 == "ok"@);
    assert(members[1].0 == "command"@);
    assert(members[2].0 == "data"@);
    assert("ok"@.len() == 2);
    assert("command"@.len() == 7);
    assert("data"@.len() == 4);
    assert(json::names_differ(members));
    json::lemma_member_is_there(members, 0);
    json::lemma_member_is_there(members, 1);
    json::lemma_member_is_there(members, 2);
}

/// What a command that failed prints says so, and gives the code, the report and the details of
/// its error.
pub proof fn failure_tells_code_report_and_details(failure: CommandError, inner: JsonModel, r: Json)
    requires
        call_ensures(error, (failure,), r),
        json::has_member(r@, "error"@, inner),
    ensures
        json::has_member(r@, "ok"@, JsonModel::Bool(false)),
        json::member_count(r@) == 2,
        json::has_member(inner, "code"@, JsonModel::Text(failure.code@)),
        json::has_member(inner, "message"@, JsonModel::Text(failure.message@)),
        json::has_member(inner, "details"@, failure.details@),
        json::member_count(inner) == 3,
{
    assert(json::has_member(r@, "ok"@, JsonModel::Bool(false))) by {
        reveal_strlit("ok");
        reveal_strlit("error");
        let members = r@->Object_0;
        assert(members[0].0 == "ok"@);
        assert(members[1].0 == "error"@);
        assert("ok"@.len() == 2);
        assert("error"@.len() == 5);
        assert(json::names_differ(members));
        json::lemma_member_is_there(members, 0);
        json::lemma_member_is_there(members, 1);
    }
    assert(inner == (r@->Object_0)[1].1);
    reveal_strlit("code");
    reveal_strlit("message");
    reveal_strlit("details");
    let members = inner->Object_0;
    assert(members[0].0 == "code"@);
    assert(members[1].0 == "message"@);
    assert(members[2].0 == "details"@);
    assert("code"@.len() == 4);
    assert("message"@.len() == 7);
    assert("details"@.len() == 7);
    assert("message"@[0] != "details"@[0]);
    assert(json::names_differ(members));
    json::lemma_member_is_there(members, 0);
    json::lemma_member_is_there(members, 1);
    json::lemma_member_is_there(members, 2);
}

/// What a warning prints gives its code, its report and its data, and says that it is one.
pub proof fn warnings_tell_code_report_and_data(code: &str, message: &str, data: Json, r: Json)
    requires
        call_ensures(warning, (code, message, data), r),
    ensures
        json::has_member(r@, "level"@, JsonModel::Text("warning"@)),
        json::has_member(r@, "code"@, JsonModel::Text(code@)),
        json::has_member(r@, "message"@, JsonModel::Text(message@)),
        json::has_member(r@, "data"@, data@),
        json::member_count(r@) == 4,
{
    reveal_strlit("level");
    reveal_strlit("code");
    reveal_strlit("message");
    reveal_strlit("data");
    let members = r@->Object_0;
    assert(members[0].0 == "level"@);
    assert(members[1].0 == "code"@);
    assert(members[2].0 == "message"@);
    assert(members[3].0 == "data"@);
    assert("level"@.len() == 5);
    assert("code"@.len() == 4);
    assert("message"@.len() == 7);
    assert("data"@.len() == 4);
    assert("code"@[0] != "data"@[0]);
    assert(json::names_differ(members));
    json::lemma_member_is_there(members, 0);
    json::lemma_member_is_there(members, 1);
    json::lemma_member_is_there(members, 2);
    json::lemma_member_is_there(members, 3);
}

/// The error of a command that has no code of its own keeps its report, under a code that all
/// such errors have, and has no details.
pub proof fn plain_failures_keep_their_report(message: &str, r: CommandError)
    requires
        call_ensures(failed, (message,), r),
    ensures
        r.message@ == message@,
        r.code@ == "command_failed"@,
        r.details@ is Object && json::member_count(r.details@) == 0,
{
}

} // verus!
