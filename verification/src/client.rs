//! The client of the gateway: what it sends, what it makes of an answer, and how it shows
//! the result of a query.
use vstd::prelude::*;

use crate::json;
use crate::json::{Json, JsonModel, Members};
use crate::numeral;
use crate::order;
use crate::output;
use crate::output::{CommandError, CommandFault};
use crate::query;
use crate::query::{Column, ColumnModel, QueryResult};
use crate::quote;
use crate::text;

verus! {

// ---------------------------------------------------------------------------
// Asking
// ---------------------------------------------------------------------------

/// How the result of a query is shown.
#[derive(Debug, Clone, Copy, PartialEq, Eq, Structural)]
pub enum OutputFormat {
    Json,
    Jsonl,
    Csv,
    Table,
}

/// Where the text of a query comes from.
#[derive(Debug)]
pub enum SqlSource {
    Argument(String),
    File(String),
    Stdin,
}

/// Where the text of a query comes from: the command line holds it or names a file, or else
/// it is read from the standard input.
pub fn read_sql(argument: Option<String>, file: Option<String>) -> (r: Result<SqlSource, String>)
    ensures
        match (argument, file) {
            (Some(_), Some(_)) => r matches Err(error) && error@
                == "provide SQL as an argument, with --file, or on stdin; not both"@,
            (Some(sql), None) => r == Ok::<SqlSource, String>(SqlSource::Argument(sql)),
            (None, Some(path)) => r == Ok::<SqlSource, String>(SqlSource::File(path)),
            (None, None) => r == Ok::<SqlSource, String>(SqlSource::Stdin),
        },
{
    match (argument, file) {
        (Some(_), Some(_)) => Err(
            "provide SQL as an argument, with --file, or on stdin; not both".to_owned(),
        ),
        (Some(sql), None) => Ok(SqlSource::Argument(sql)),
        (None, Some(path)) => Ok(SqlSource::File(path)),
        (None, None) => Ok(SqlSource::Stdin),
    }
}

/// How long the client waits, in seconds: a little longer than the gateway works.
pub fn client_timeout(request_timeout_seconds: u64) -> (r: u64)
    requires
        request_timeout_seconds + 5 <= u64::MAX,
    ensures
        r == request_timeout_seconds + 5,
{
    request_timeout_seconds + 5
}

// ---------------------------------------------------------------------------
// Answers
// ---------------------------------------------------------------------------

/// The error that an answer holds.
#[derive(Debug)]
pub struct ErrorBody {
    pub code: String,
    pub message: String,
    pub details: Json,
}

pub open spec fn unreachable_error(listen: Seq<char>, cause: Seq<char>) -> CommandFault {
    CommandFault {
        code: "daemon_unreachable"@,
        message: "could not reach the duckdoor daemon"@,
        details: JsonModel::Object(
            seq![
                ("listen"@, JsonModel::Text(listen)),
                ("cause"@, JsonModel::Text(cause)),
                (
                    "resolution"@,
                    JsonModel::Text("run `duckdoor status`; start the daemon if it is stopped"@),
                ),
            ],
        ),
    }
}

/// The error of a query that got no answer.
fn daemon_unreachable(listen: &str, cause: &str) -> (r: CommandError)
    ensures
        r@ == unreachable_error(listen@, cause@),
{
    let mut details = Members::new();
    details.put("listen", json::text(listen));
    details.put("cause", json::text(cause));
    details.put(
        "resolution",
        json::text("run `duckdoor status`; start the daemon if it is stopped"),
    );
    assert(details@ =~= unreachable_error(listen@, cause@).details->Object_0);
    CommandError::new(
        "daemon_unreachable",
        "could not reach the duckdoor daemon",
        details.object(),
    )
}

/// The details of an error with the HTTP status in them. Details that are no object are
/// dropped.
pub open spec fn with_status(details: JsonModel, status: u16) -> JsonModel {
    let kept = match details {
        JsonModel::Object(members) => members,
        _ => Seq::empty(),
    };
    JsonModel::Object(json::with_member(kept, "http_status"@, JsonModel::Int(status as int)))
}

fn put_status(details: &Json, status: u16) -> (r: Json)
    ensures
        r@ == with_status(details@, status),
{
    let mut members = match details {
        Json::Object(list) => Members::of(list),
        _ => Members::new(),
    };
    members.set("http_status", Json::Int(status as i128));
    members.object()
}

/// The error of a query that was answered with a status other than one of success: the error
/// that the answer holds, with its code and its report as they are and the status among its
/// details, or else that the answer holds none.
pub open spec fn answered_error(
    status: u16,
    body: Seq<char>,
    parsed: Option<(Seq<char>, Seq<char>, JsonModel)>,
) -> CommandFault {
    match parsed {
        Some((code, message, details)) => CommandFault {
            code,
            message,
            details: with_status(details, status),
        },
        None => CommandFault {
            code: "invalid_daemon_response"@,
            message: "daemon returned an unstructured error response"@,
            details: JsonModel::Object(
                seq![
                    ("http_status"@, JsonModel::Int(status as int)),
                    ("body"@, JsonModel::Text(body)),
                ],
            ),
        },
    }
}

pub open spec fn parsed_body(parsed: Option<ErrorBody>) -> Option<
    (Seq<char>, Seq<char>, JsonModel),
> {
    match parsed {
        Some(error) => Some((error.code@, error.message@, error.details@)),
        None => None,
    }
}

/// The error of a query that was answered with a status other than one of success.
fn error_response(status: u16, body: &str, parsed: Option<ErrorBody>) -> (r: CommandError)
    ensures
        r@ == answered_error(status, body@, parsed_body(parsed)),
{
    match parsed {
        Some(error) => CommandError {
            code: error.code,
            message: error.message,
            details: put_status(&error.details, status),
        },
        None => {
            let mut details = Members::new();
            details.put("http_status", Json::Int(status as i128));
            details.put("body", json::text(body));
            assert(details@ =~= seq![
                ("http_status"@, JsonModel::Int(status as int)),
                ("body"@, JsonModel::Text(body@)),
            ]);
            CommandError::new(
                "invalid_daemon_response",
                "daemon returned an unstructured error response",
                details.object(),
            )
        },
    }
}

pub open spec fn invalid_success_error(cause: Seq<char>) -> CommandFault {
    CommandFault {
        code: "invalid_daemon_response"@,
        message: "daemon returned an invalid success response"@,
        details: JsonModel::Object(seq![("cause"@, JsonModel::Text(cause))]),
    }
}

/// The error of a query that was answered with success and no result.
fn invalid_success(cause: &str) -> (r: CommandError)
    ensures
        r@ == invalid_success_error(cause@),
{
    let mut details = Members::new();
    details.put("cause", json::text(cause));
    assert(details@ =~= seq![("cause"@, JsonModel::Text(cause@))]);
    CommandError::new(
        "invalid_daemon_response",
        "daemon returned an invalid success response",
        details.object(),
    )
}

/// What came of sending a query to the gateway.
#[derive(Debug)]
pub enum DaemonReply {
    /// There was no answer from where the gateway listens.
    Unreachable { listen: String, cause: String },
    /// The answer has a status other than one of success; its body may hold an error.
    Refused { status: u16, body: String, parsed: Option<ErrorBody> },
    /// The answer has a status of success; its body is a result, or else why it is none.
    Answered(Result<QueryResult, String>),
}

/// What a query came to.
pub fn query(reply: DaemonReply) -> (r: Result<QueryResult, CommandError>)
    ensures
        match reply {
            DaemonReply::Unreachable { listen, cause } => r matches Err(error) && error@
                == unreachable_error(listen@, cause@),
            DaemonReply::Refused { status, body, parsed } => r matches Err(error) && error@
                == answered_error(status, body@, parsed_body(parsed)),
            DaemonReply::Answered(Ok(result)) => r == Ok::<QueryResult, CommandError>(result),
            DaemonReply::Answered(Err(cause)) => r matches Err(error) && error@
                == invalid_success_error(cause@),
        },
{
    match reply {
        DaemonReply::Unreachable { listen, cause } => Err(
            daemon_unreachable(listen.as_str(), cause.as_str()),
        ),
        DaemonReply::Refused { status, body, parsed } => Err(
            error_response(status, body.as_str(), parsed),
        ),
        DaemonReply::Answered(Ok(result)) => Ok(result),
        DaemonReply::Answered(Err(cause)) => Err(invalid_success(cause.as_str())),
    }
}

/// The code of an error that the gateway answers with is the code that the client reports,
/// and its details hold the status of the answer.
pub proof fn error_codes_are_passed_on(
    status: u16,
    body: Seq<char>,
    code: Seq<char>,
    message: Seq<char>,
    details: JsonModel,
)
    ensures
        ({
            let fault = answered_error(status, body, Some((code, message, details)));
            &&& fault.code == code
            &&& fault.message == message
            &&& fault.details matches JsonModel::Object(members) && members.contains(
                ("http_status"@, JsonModel::Int(status as int)),
            )
        }),
{
    let kept = match details {
        JsonModel::Object(members) => members,
        _ => Seq::empty(),
    };
    json::setting_a_member_replaces_it(kept, "http_status"@, JsonModel::Int(status as int));
}

// ---------------------------------------------------------------------------
// Values as text
// ---------------------------------------------------------------------------

/// How a value is shown: nothing as `NULL`, a string as it is, a truth value and an integer as
/// they are written in JSON, and any other by the given text of its JSON form.
pub open spec fn shown(value: JsonModel, rendered: Seq<char>) -> Seq<char> {
    match value {
        JsonModel::Null => "NULL"@,
        JsonModel::Bool(b) => if b {
            "true"@
        } else {
            "false"@
        },
        JsonModel::Int(n) => numeral::signed_numeral(n),
        JsonModel::Text(s) => s,
        _ => rendered,
    }
}

/// How a value is shown. The caller has written the JSON form of a number with a fraction, an
/// array or an object.
pub fn display_value(value: &Json, rendered: &str) -> (r: String)
    ensures
        r@ == shown(value@, rendered@),
{
    match value {
        Json::Null => "NULL".to_owned(),
        Json::Bool(b) => if *b {
            "true".to_owned()
        } else {
            "false".to_owned()
        },
        Json::Int(n) => numeral::signed_numeral_of(*n),
        Json::Text(s) => s.clone(),
        _ => rendered.to_owned(),
    }
}

/// The names of columns.
pub open spec fn column_names(columns: Seq<ColumnModel>) -> Seq<Seq<char>> {
    columns.map_values(|column: ColumnModel| column.name)
}

/// The names of columns.
pub fn names_of(columns: &Vec<Column>) -> (r: Vec<String>)
    ensures
        text::texts(r@) == column_names(order::models(columns@)),
{
    let ghost all = column_names(order::models(columns@));
    let mut r: Vec<String> = Vec::new();
    let mut i: usize = 0;
    while i < columns.len()
        invariant
            i <= columns@.len(),
            all == column_names(order::models(columns@)),
            text::texts(r@) == all.take(i as int),
        decreases columns@.len() - i,
    {
        let ghost before = r@;
        let name = columns[i].name.clone();
        assert(all[i as int] == name@);
        r.push(name);
        assert(text::texts(r@) =~= text::texts(before).push(name@));
        assert(all.take(i + 1) =~= all.take(i as int).push(all[i as int]));
        i += 1;
    }
    assert(all.take(all.len() as int) =~= all);
    r
}

// ---------------------------------------------------------------------------
// JSON Lines
// ---------------------------------------------------------------------------

/// A row as an object, as far as there are both columns and values: each value under the name
/// of its column. Of columns that share a name the last has its value in the object.
pub open spec fn row_members(
    names: Seq<Seq<char>>,
    row: Seq<JsonModel>,
    count: int,
) -> Seq<(Seq<char>, JsonModel)>
    decreases count,
{
    if count <= 0 {
        Seq::empty()
    } else {
        json::with_member(row_members(names, row, count - 1), names[count - 1], row[count - 1])
    }
}

/// How many columns of a row have both a name and a value.
pub open spec fn paired(names: Seq<Seq<char>>, row: Seq<JsonModel>) -> int {
    if names.len() <= row.len() {
        names.len() as int
    } else {
        row.len() as int
    }
}

/// A row as an object.
pub fn row_object(columns: &Vec<Column>, row: &Vec<Json>) -> (r: Json)
    ensures
        ({
            let names = column_names(order::models(columns@));
            let values = json::item_models(row@);
            r@ == JsonModel::Object(row_members(names, values, paired(names, values)))
        }),
{
    let ghost names = column_names(order::models(columns@));
    let ghost values = json::item_models(row@);
    proof {
        json::lemma_item_models(row@);
    }
    let mut members = Members::new();
    let mut i: usize = 0;
    while i < columns.len() && i < row.len()
        invariant
            i <= columns@.len(),
            i <= row@.len(),
            names == column_names(order::models(columns@)),
            values == json::item_models(row@),
            values.len() == row@.len(),
            forall|j: int| 0 <= j < row@.len() ==> values[j] == (#[trigger] row@[j])@,
            members@ == row_members(names, values, i as int),
        decreases columns@.len() - i,
    {
        let name = columns[i].name.as_str();
        assert(names[i as int] == name@);
        let value = row[i].clone();
        assert(value@ == row@[i as int]@);
        members.set(name, value);
        i += 1;
    }
    members.object()
}

/// An object that a row becomes has no name twice, and the last of the columns has its value
/// in it.
pub proof fn rows_have_each_name_once(names: Seq<Seq<char>>, row: Seq<JsonModel>, count: int)
    requires
        0 <= count,
    ensures
        json::names_differ(row_members(names, row, count)),
        count > 0 ==> row_members(names, row, count).contains((names[count - 1], row[count - 1])),
    decreases count,
{
    if count > 0 {
        rows_have_each_name_once(names, row, count - 1);
        json::setting_a_member_replaces_it(
            row_members(names, row, count - 1),
            names[count - 1],
            row[count - 1],
        );
    }
}

// ---------------------------------------------------------------------------
// CSV
// ---------------------------------------------------------------------------

/// The characters that a field of CSV is quoted for.
pub open spec fn csv_special(c: char) -> bool {
    c == ',' || c == '"' || c == '\r' || c == '\n'
}

/// A field of CSV, in quotes where it has to be.
pub open spec fn csv_field(field: Seq<char>) -> Seq<char> {
    if exists|i: int| 0 <= i < field.len() && csv_special(#[trigger] field[i]) {
        quote::quoted(field, '"')
    } else {
        field
    }
}

/// A record of CSV: its fields with commas between them, and a line feed. A record that would
/// be an empty line is a pair of quotes.
pub open spec fn csv_record(fields: Seq<Seq<char>>) -> Seq<char> {
    let line = text::joined(fields.map_values(|field: Seq<char>| csv_field(field)), ","@);
    (if line.len() == 0 {
        "\"\""@
    } else {
        line
    }) + "\n"@
}

/// What stands of a record whose fields are written and which is not ended: its fields with
/// commas between them, without the quote that would close the last.
pub open spec fn csv_unfinished(fields: Seq<Seq<char>>) -> Seq<char> {
    let line = text::joined(fields.map_values(|field: Seq<char>| csv_field(field)), ","@);
    if fields.len() > 0 && csv_field(fields.last()) != fields.last() {
        line.drop_last()
    } else {
        line
    }
}

/// The report of a record that does not fit behind those in front of it.
pub open spec fn ragged_text(found: nat, expected: nat) -> Seq<char> {
    "CSV error: found record with "@ + numeral::numeral(found)
        + " fields, but the previous record has "@ + numeral::numeral(expected) + " fields"@
}

/// What a writer of CSV expects: any record at first, then as many fields as the first had,
/// and nothing more once a record had another number of them.
pub enum CsvState {
    Fresh,
    Columns(nat),
    Failed,
}

/// Records of CSV in memory, collected by a `csv::Writer`.
#[verifier::external_body]
pub struct CsvRecords {
    inner: csv::Writer<Vec<u8>>,
}

/// The text of what was written to the records, with what their writer still buffers.
pub uninterp spec fn csv_written(writer: CsvRecords) -> Seq<char>;

/// What the writer of the records expects.
pub uninterp spec fn csv_state(writer: CsvRecords) -> CsvState;

/// Makes a writer to memory with `csv::Writer::from_writer`. The contract claims that it has
/// written nothing and expects any record.
#[verifier::external_body]
fn csv_writer() -> (r: CsvRecords)
    ensures
        csv_written(r) == Seq::<char>::empty(),
        csv_state(r) is Fresh,
{
    CsvRecords { inner: csv::Writer::from_writer(Vec::new()) }
}

/// Writes one record with `csv::Writer::write_record`. The contract claims that the fields are
/// separated by commas, that those with a comma, a quote or a line ending in them are quoted
/// with their quotes doubled, that a record without any text is a pair of quotes, and that a
/// line feed ends the record; and that a record with another number of fields than the first
/// is refused with a report of both numbers when its fields are written and its end is not.
#[verifier::external_body]
fn csv_write(writer: &mut CsvRecords, fields: &Vec<String>) -> (r: Result<(), String>)
    requires
        !(csv_state(*old(writer)) is Failed),
    ensures
        match csv_state(*old(writer)) {
            CsvState::Columns(count) if count != fields@.len() => {
                &&& r matches Err(report) && report@ == ragged_text(fields@.len(), count)
                &&& csv_written(*final(writer)) == csv_written(*old(writer)) + csv_unfinished(
                    text::texts(fields@),
                )
                &&& csv_state(*final(writer)) is Failed
            },
            _ => {
                &&& r is Ok
                &&& csv_written(*final(writer)) == csv_written(*old(writer)) + csv_record(
                    text::texts(fields@),
                )
                &&& csv_state(*final(writer)) == CsvState::Columns(fields@.len())
            },
        },
{
    writer.inner.write_record(fields).map_err(|error| error.to_string())
}

/// Takes what a writer to memory has written, with `csv::Writer::into_inner`, which flushes
/// its buffer. The contract claims that this is the text of all that was written; writing to
/// memory cannot fail, and what is written of text is text.
#[verifier::external_body]
fn csv_finish(writer: CsvRecords) -> (r: String)
    ensures
        r@ == csv_written(writer),
{
    let bytes = writer.inner.into_inner().expect("bytes in memory");
    String::from_utf8(bytes).expect("text of text")
}

/// The records of rows, one after the other.
pub open spec fn csv_rows(rows: Seq<Seq<Seq<char>>>) -> Seq<char>
    decreases rows.len(),
{
    if rows.len() == 0 {
        Seq::empty()
    } else {
        csv_rows(rows.drop_last()) + csv_record(rows.last())
    }
}

/// The views of rows of strings.
pub open spec fn cells(rows: Seq<Vec<String>>) -> Seq<Seq<Seq<char>>> {
    rows.map_values(|row: Vec<String>| text::texts(row@))
}

/// Where the first row, from `from` on, stands that has more or fewer cells than there are
/// columns: behind all rows where there is none.
pub open spec fn first_ragged(rows: Seq<Seq<Seq<char>>>, columns: nat, from: int) -> int
    decreases rows.len() - from,
{
    if from >= rows.len() {
        rows.len() as int
    } else if rows[from].len() != columns {
        from
    } else {
        first_ragged(rows, columns, from + 1)
    }
}

/// CSV that ends early, and why.
#[derive(Debug)]
pub struct BrokenCsv {
    pub written: String,
    pub report: String,
}

/// What is written of a result as CSV: the names of the columns, then the rows. A row that has
/// more or fewer cells than there are columns ends it: that row's cells are the last that is
/// written, without the end of their line.
pub open spec fn csv_output(names: Seq<Seq<char>>, rows: Seq<Seq<Seq<char>>>) -> Result<
    Seq<char>,
    (Seq<char>, Seq<char>),
> {
    let k = first_ragged(rows, names.len(), 0);
    let whole = csv_record(names) + csv_rows(rows.take(k));
    if k < rows.len() {
        Err((whole + csv_unfinished(rows[k]), ragged_text(rows[k].len(), names.len())))
    } else {
        Ok(whole)
    }
}

/// The views of CSV that is written as far as it can be.
pub open spec fn csv_model(r: Result<String, BrokenCsv>) -> Result<
    Seq<char>,
    (Seq<char>, Seq<char>),
> {
    match r {
        Ok(csv) => Ok(csv@),
        Err(broken) => Err((broken.written@, broken.report@)),
    }
}

/// A result as CSV, as far as it can be written.
pub fn render_csv(columns: &Vec<Column>, rows: &Vec<Vec<String>>) -> (r: Result<String, BrokenCsv>)
    ensures
        csv_model(r) == csv_output(column_names(order::models(columns@)), cells(rows@)),
{
    let ghost titles = column_names(order::models(columns@));
    let ghost all = cells(rows@);
    let names = names_of(columns);
    assert(names@.len() == titles.len()) by {
        assert(text::texts(names@).len() == names@.len());
    }
    let mut writer = csv_writer();
    let header = csv_write(&mut writer, &names);
    assert(header is Ok);
    assert(all.take(0) =~= Seq::empty());
    assert(csv_written(writer) =~= csv_record(titles) + csv_rows(all.take(0)));
    let mut i: usize = 0;
    while i < rows.len()
        invariant
            i <= rows@.len(),
            all == cells(rows@),
            csv_state(writer) == CsvState::Columns(titles.len()),
            csv_written(writer) == csv_record(titles) + csv_rows(all.take(i as int)),
            first_ragged(all, titles.len(), 0) == first_ragged(all, titles.len(), i as int),
            titles == column_names(order::models(columns@)),
        decreases rows@.len() - i,
    {
        assert(all[i as int] == text::texts(rows@[i as int]@));
        assert(all[i as int].len() == rows@[i as int]@.len());
        if let Err(report) = csv_write(&mut writer, &rows[i]) {
            return Err(BrokenCsv { written: csv_finish(writer), report });
        }
        assert(all.take(i + 1).drop_last() =~= all.take(i as int));
        assert(csv_written(writer) =~= csv_record(titles) + csv_rows(all.take(i + 1)));
        i += 1;
    }
    Ok(csv_finish(writer))
}

/// A result whose rows all have as many cells as there are columns is written as CSV whole,
/// and only such a result is.
pub proof fn rectangular_results_are_written_whole(
    names: Seq<Seq<char>>,
    rows: Seq<Seq<Seq<char>>>,
)
    ensures
        csv_output(names, rows) is Ok <==> forall|i: int|
            0 <= i < rows.len() ==> (#[trigger] rows[i]).len() == names.len(),
        csv_output(names, rows) is Ok ==> csv_output(names, rows)->Ok_0 == csv_record(names)
            + csv_rows(rows),
{
    lemma_first_ragged(rows, names.len(), 0);
    assert(rows.take(rows.len() as int) =~= rows);
}

proof fn lemma_first_ragged(rows: Seq<Seq<Seq<char>>>, columns: nat, from: int)
    requires
        0 <= from <= rows.len(),
    ensures
        from <= first_ragged(rows, columns, from) <= rows.len(),
        first_ragged(rows, columns, from) < rows.len() ==> rows[first_ragged(
            rows,
            columns,
            from,
        )].len() != columns,
        forall|i: int|
            from <= i < first_ragged(rows, columns, from) ==> (#[trigger] rows[i]).len() == columns,
    decreases rows.len() - from,
{
    if from < rows.len() && rows[from].len() == columns {
        lemma_first_ragged(rows, columns, from + 1);
    }
}

// ---------------------------------------------------------------------------
// Tables
// ---------------------------------------------------------------------------

/// The widest that a column with values gets.
pub const MAX_COLUMN_WIDTH: usize = 80;

/// How wide the name of a column makes it: as many places as the name has bytes.
pub open spec fn name_width(name: Seq<char>) -> nat {
    vstd::utf8::encode_utf8(name).len() as usize as nat
}

/// How wide a further value of some length makes a column.
pub open spec fn widened(width: nat, length: nat) -> nat {
    let wanted = if width >= length {
        width
    } else {
        length
    };
    if wanted <= MAX_COLUMN_WIDTH {
        wanted
    } else {
        MAX_COLUMN_WIDTH as nat
    }
}

/// How wide a column is whose name has a width.
pub open spec fn column_width(width: nat, rows: Seq<Seq<Seq<char>>>, column: int) -> nat
    decreases rows.len(),
{
    if rows.len() == 0 {
        width
    } else {
        let before = column_width(width, rows.drop_last(), column);
        if column < rows.last().len() {
            widened(before, rows.last()[column].len())
        } else {
            before
        }
    }
}

/// How wide the columns of a table are.
pub open spec fn column_widths(names: Seq<Seq<char>>, rows: Seq<Seq<Seq<char>>>) -> Seq<nat> {
    Seq::new(names.len(), |column: int| column_width(name_width(names[column]), rows, column))
}

/// A text on one line.
pub open spec fn on_one_line(value: Seq<char>) -> Seq<char> {
    value.map_values(
        |c: char|
            if c == '\n' || c == '\r' {
                ' '
            } else {
                c
            },
    )
}

/// A text that is cut where it is too long, which an ellipsis shows.
pub open spec fn cut(value: Seq<char>, width: nat) -> Seq<char> {
    if value.len() > width {
        value.take(if width > 0 {
            width - 1
        } else {
            0
        }).push('\u{2026}')
    } else {
        value
    }
}

/// A text with spaces behind it up to a width.
pub open spec fn padded(value: Seq<char>, width: nat) -> Seq<char> {
    if value.len() < width {
        value + Seq::new((width - value.len()) as nat, |i: int| ' ')
    } else {
        value
    }
}

/// A cell of a table: on one line, cut and padded to the width of its column, between
/// spaces.
pub open spec fn cell_text(value: Seq<char>, width: nat) -> Seq<char> {
    " "@ + padded(cut(on_one_line(value), width), width) + " "@
}

pub open spec fn row_cells(values: Seq<Seq<char>>, widths: Seq<nat>) -> Seq<Seq<char>> {
    Seq::new(
        if values.len() <= widths.len() {
            values.len()
        } else {
            widths.len()
        },
        |i: int| cell_text(values[i], widths[i]),
    )
}

/// A row of a table: its cells with bars between them.
pub open spec fn row_text(values: Seq<Seq<char>>, widths: Seq<nat>) -> Seq<char> {
    text::joined(row_cells(values, widths), "|"@)
}

/// What stands below a table.
pub open spec fn footer(row_count: nat, elapsed: Seq<char>) -> Seq<char> {
    "rows="@ + numeral::numeral(row_count) + " elapsed_ms="@ + elapsed
}

/// The lines of a table: the names of the columns, the rows, and the footer. A result without
/// columns is one line that says so.
pub open spec fn table_lines(
    names: Seq<Seq<char>>,
    rows: Seq<Seq<Seq<char>>>,
    row_count: nat,
    elapsed: Seq<char>,
) -> Seq<Seq<char>> {
    if names.len() == 0 {
        seq!["(no columns)"@]
    } else {
        let widths = column_widths(names, rows);
        seq![row_text(names, widths)] + rows.map_values(
            |row: Seq<Seq<char>>| row_text(row, widths),
        ) + seq![footer(row_count, elapsed)]
    }
}

fn fit(value: &str, width: usize) -> (r: String)
    ensures
        r@ == cell_text(value@, width as nat),
{
    let chars = text::chars_of(value);
    let kept: usize = if chars.len() > width {
        if width > 0 {
            width - 1
        } else {
            0
        }
    } else {
        chars.len()
    };
    let mut r = String::new();
    r.push(' ');
    let ghost flat = on_one_line(value@);
    let mut i: usize = 0;
    assert(r@ =~= " "@ + flat.take(0)) by {
        reveal_strlit(" ");
    }
    while i < kept
        invariant
            i <= kept <= chars@.len(),
            chars@ == value@,
            flat == on_one_line(value@),
            r@ == " "@ + flat.take(i as int),
        decreases kept - i,
    {
        let c = chars[i];
        let shown_char = if c == '\n' || c == '\r' {
            ' '
        } else {
            c
        };
        assert(flat[i as int] == shown_char);
        r.push(shown_char);
        assert(r@ =~= " "@ + flat.take(i + 1));
        i += 1;
    }
    let mut count: usize = kept;
    if chars.len() > width {
        r.push('\u{2026}');
        count += 1;
    }
    let ghost body = cut(flat, width as nat);
    assert(r@ =~= " "@ + body) by {
        if chars@.len() <= width {
            assert(flat.take(chars@.len() as int) =~= flat);
        }
    }
    let ghost start = r@;
    let mut j: usize = count;
    assert(count == body.len());
    while j < width
        invariant
            count <= j,
            j <= width || j == count,
            r@ == start + Seq::new((j - count) as nat, |i: int| ' '),
        decreases width - j,
    {
        r.push(' ');
        assert(r@ =~= start + Seq::new((j + 1 - count) as nat, |i: int| ' '));
        j += 1;
    }
    r.push(' ');
    assert(r@ =~= cell_text(value@, width as nat)) by {
        reveal_strlit(" ");
    }
    r
}

/// The views of widths.
pub open spec fn widths_of(widths: Seq<usize>) -> Seq<nat> {
    widths.map_values(|width: usize| width as nat)
}

/// A row of a table.
pub fn print_row(values: &Vec<String>, widths: &Vec<usize>) -> (r: String)
    ensures
        r@ == row_text(text::texts(values@), widths_of(widths@)),
{
    let ghost models = text::texts(values@);
    let ghost all = row_cells(models, widths_of(widths@));
    let mut list: Vec<String> = Vec::new();
    let mut i: usize = 0;
    assert(text::texts(list@) =~= all.take(0));
    while i < values.len() && i < widths.len()
        invariant
            i <= values@.len(),
            i <= widths@.len(),
            models == text::texts(values@),
            all == row_cells(models, widths_of(widths@)),
            text::texts(list@) == all.take(i as int),
        decreases values@.len() - i,
    {
        assert(models[i as int] == values@[i as int]@);
        assert(widths_of(widths@)[i as int] == widths@[i as int]);
        let ghost before = list@;
        let cell = fit(values[i].as_str(), widths[i]);
        assert(all[i as int] == cell@);
        list.push(cell);
        assert(text::texts(list@) =~= text::texts(before).push(cell@));
        assert(all.take(i + 1) =~= all.take(i as int).push(all[i as int]));
        i += 1;
    }
    assert(all.take(i as int) =~= all);
    text::join(&list, "|")
}

fn measure(names: &Vec<String>, rows: &Vec<Vec<String>>) -> (widths: Vec<usize>)
    requires
        forall|i: int| 0 <= i < rows@.len() ==> (#[trigger] rows@[i])@.len() <= names@.len(),
    ensures
        widths_of(widths@) == column_widths(text::texts(names@), cells(rows@)),
{
    let ghost titles = text::texts(names@);
    let ghost all = cells(rows@);
    let mut widths: Vec<usize> = Vec::new();
    let mut k: usize = 0;
    while k < names.len()
        invariant
            k <= names@.len(),
            titles == text::texts(names@),
            widths@.len() == k,
            forall|c: int| 0 <= c < k ==> #[trigger] widths@[c] as nat == name_width(titles[c]),
        decreases names@.len() - k,
    {
        assert(titles[k as int] == names@[k as int]@);
        let width: usize = names[k].as_str().len();
        assert(width as nat == name_width(titles[k as int]));
        widths.push(width);
        k += 1;
    }
    assert(all.take(0) =~= Seq::empty());
    let mut i: usize = 0;
    while i < rows.len()
        invariant
            i <= rows@.len(),
            titles == text::texts(names@),
            all == cells(rows@),
            widths@.len() == names@.len(),
            forall|r: int| 0 <= r < rows@.len() ==> (#[trigger] rows@[r])@.len() <= names@.len(),
            forall|c: int|
                0 <= c < widths@.len() ==> #[trigger] widths@[c] as nat == column_width(
                    name_width(titles[c]),
                    all.take(i as int),
                    c,
                ),
        decreases rows@.len() - i,
    {
        let row = &rows[i];
        let ghost before = widths@;
        assert(all[i as int] == text::texts(row@));
        let ghost next = all.take(i + 1);
        assert(next.drop_last() =~= all.take(i as int));
        assert(next.last() == text::texts(row@));
        let mut j: usize = 0;
        while j < row.len()
            invariant
                j <= row@.len() <= widths@.len(),
                widths@.len() == before.len(),
                forall|c: int| j <= c < widths@.len() ==> #[trigger] widths@[c] == before[c],
                forall|c: int|
                    0 <= c < j ==> #[trigger] widths@[c] as nat == widened(
                        before[c] as nat,
                        row@[c]@.len(),
                    ),
            decreases row@.len() - j,
        {
            let length: usize = text::chars_of(row[j].as_str()).len();
            let mut wanted: usize = widths[j];
            if wanted < length {
                wanted = length;
            }
            if wanted > MAX_COLUMN_WIDTH {
                wanted = MAX_COLUMN_WIDTH;
            }
            widths.set(j, wanted);
            j += 1;
        }
        assert forall|c: int| 0 <= c < widths@.len() implies #[trigger] widths@[c] as nat
            == column_width(name_width(titles[c]), next, c) by {
            assert(before[c] as nat == column_width(
                name_width(titles[c]),
                all.take(i as int),
                c,
            ));
            if c < row@.len() {
                assert(text::texts(row@)[c] == row@[c]@);
            }
        }
        i += 1;
    }
    assert(all.take(all.len() as int) =~= all);
    assert(widths_of(widths@) =~= column_widths(titles, all));
    widths
}

/// The lines of a result as a table. The text of the time that the query took is the
/// caller's.
pub fn print_table(
    columns: &Vec<Column>,
    rows: &Vec<Vec<String>>,
    row_count: usize,
    elapsed: &str,
) -> (lines: Vec<String>)
    requires
        columns@.len() > 0 ==> forall|i: int|
            0 <= i < rows@.len() ==> (#[trigger] rows@[i])@.len() <= columns@.len(),
    ensures
        text::texts(lines@) == table_lines(
            column_names(order::models(columns@)),
            cells(rows@),
            row_count as nat,
            elapsed@,
        ),
{
    let ghost titles = column_names(order::models(columns@));
    let ghost all = cells(rows@);
    let mut lines: Vec<String> = Vec::new();
    if columns.len() == 0 {
        lines.push("(no columns)".to_owned());
        assert(text::texts(lines@) =~= seq!["(no columns)"@]);
        return lines;
    }
    let names = names_of(columns);
    assert(names@.len() == text::texts(names@).len());
    let widths = measure(&names, rows);
    let ghost widths_model = column_widths(titles, all);
    let heading = print_row(&names, &widths);
    lines.push(heading);
    assert(text::texts(lines@) =~= seq![row_text(titles, widths_model)]);
    let ghost head = text::texts(lines@);
    let ghost body = all.map_values(|row: Seq<Seq<char>>| row_text(row, widths_model));
    let mut i: usize = 0;
    assert(head + body.take(0) =~= head);
    while i < rows.len()
        invariant
            i <= rows@.len(),
            all == cells(rows@),
            widths_of(widths@) == widths_model,
            body == all.map_values(|row: Seq<Seq<char>>| row_text(row, widths_model)),
            text::texts(lines@) == head + body.take(i as int),
        decreases rows@.len() - i,
    {
        assert(all[i as int] == text::texts(rows@[i as int]@));
        let ghost before = lines@;
        let line = print_row(&rows[i], &widths);
        assert(body[i as int] == line@);
        lines.push(line);
        assert(text::texts(lines@) =~= text::texts(before).push(line@));
        assert(head + body.take(i + 1) =~= (head + body.take(i as int)).push(body[i as int]));
        i += 1;
    }
    assert(body.take(body.len() as int) =~= body);
    let mut last = "rows=".to_owned();
    last.append(numeral::numeral_of(row_count as u128).as_str());
    last.append(" elapsed_ms=");
    last.append(elapsed);
    let ghost before = lines@;
    lines.push(last);
    assert(text::texts(lines@) =~= text::texts(before).push(last@));
    assert(text::texts(lines@) =~= table_lines(titles, all, row_count as nat, elapsed@));
    lines
}

/// Every cell of a column with at least one place is exactly as wide as the column, but for
/// the spaces around it, and holds no line ending.
pub proof fn cells_have_the_width_of_their_column(value: Seq<char>, width: nat)
    requires
        width > 0,
    ensures
        cell_text(value, width).len() == width + 2,
        !cell_text(value, width).contains('\n'),
        !cell_text(value, width).contains('\r'),
{
    reveal_strlit(" ");
    let flat = on_one_line(value);
    let cell = cell_text(value, width);
    assert forall|i: int| 0 <= i < cell.len() implies cell[i] != '\n' && cell[i] != '\r' by {
        let inner = padded(cut(flat, width), width);
        if 0 < i < cell.len() - 1 {
            assert(cell[i] == inner[i - 1]);
            if i - 1 < cut(flat, width).len() {
                assert(inner[i - 1] == cut(flat, width)[i - 1]);
            }
        }
    }
}

// ---------------------------------------------------------------------------
// Warnings
// ---------------------------------------------------------------------------

pub open spec fn truncation_document(row_count: usize) -> JsonModel {
    output::warning_document(
        "result_truncated"@,
        "query result reached the configured row limit"@,
        JsonModel::Object(seq![("row_count"@, JsonModel::Int(row_count as int))]),
    )
}

/// The warning that a result is not whole, where the form in which it is shown does not say
/// so.
pub fn truncation_warning(result: &QueryResult, format: OutputFormat) -> (r: Option<Json>)
    ensures
        r is Some <==> result.truncated && format != OutputFormat::Json,
        r matches Some(document) ==> document@ == truncation_document(result.row_count),
{
    if result.truncated && format != OutputFormat::Json {
        let mut data = Members::new();
        data.put("row_count", Json::Int(result.row_count as i128));
        assert(data@ =~= seq![("row_count"@, JsonModel::Int(result.row_count as int))]);
        Some(
            output::warning(
                "result_truncated",
                "query result reached the configured row limit",
                data.object(),
            ),
        )
    } else {
        None
    }
}

// ---------------------------------------------------------------------------
// Results
// ---------------------------------------------------------------------------

/// How the values of a row are shown, given the texts of their JSON forms.
pub open spec fn shown_row(row: Seq<JsonModel>, rendered: Seq<Seq<char>>) -> Seq<Seq<char>> {
    Seq::new(row.len(), |i: int| shown(row[i], rendered[i]))
}

pub open spec fn shown_rows(
    rows: Seq<Seq<JsonModel>>,
    rendered: Seq<Seq<Seq<char>>>,
) -> Seq<Seq<Seq<char>>> {
    Seq::new(rows.len(), |i: int| shown_row(rows[i], rendered[i]))
}

/// Whether there is a text for each value.
pub open spec fn same_shape(rows: Seq<Vec<Json>>, rendered: Seq<Vec<String>>) -> bool {
    &&& rows.len() == rendered.len()
    &&& forall|i: int| 0 <= i < rows.len() ==> (#[trigger] rows[i])@.len() == rendered[i]@.len()
}

fn display_rows(rows: &Vec<Vec<Json>>, rendered: &Vec<Vec<String>>) -> (r: Vec<Vec<String>>)
    requires
        same_shape(rows@, rendered@),
    ensures
        cells(r@) == shown_rows(query::row_models(rows@), cells(rendered@)),
{
    let ghost models = query::row_models(rows@);
    let ghost texts = cells(rendered@);
    let ghost all = shown_rows(models, texts);
    let mut r: Vec<Vec<String>> = Vec::new();
    let mut i: usize = 0;
    while i < rows.len()
        invariant
            i <= rows@.len(),
            same_shape(rows@, rendered@),
            models == query::row_models(rows@),
            texts == cells(rendered@),
            all == shown_rows(models, texts),
            cells(r@) == all.take(i as int),
        decreases rows@.len() - i,
    {
        let row = &rows[i];
        let line = &rendered[i];
        assert(rows@[i as int]@.len() == rendered@[i as int]@.len());
        assert(models[i as int] == json::item_models(row@));
        assert(texts[i as int] == text::texts(line@));
        proof {
            json::lemma_item_models(row@);
        }
        let mut list: Vec<String> = Vec::new();
        let mut j: usize = 0;
        while j < row.len()
            invariant
                j <= row@.len(),
                row@.len() == line@.len(),
                models[i as int] == json::item_models(row@),
                models[i as int].len() == row@.len(),
                forall|k: int|
                    0 <= k < row@.len() ==> models[i as int][k] == (#[trigger] row@[k])@,
                texts[i as int] == text::texts(line@),
                text::texts(list@) == shown_row(models[i as int], texts[i as int]).take(j as int),
            decreases row@.len() - j,
        {
            let ghost before = list@;
            assert(row@[j as int]@ == models[i as int][j as int]);
            assert(texts[i as int][j as int] == line@[j as int]@);
            let one = display_value(&row[j], line[j].as_str());
            list.push(one);
            assert(text::texts(list@) =~= text::texts(before).push(one@));
            assert(text::texts(list@) =~= shown_row(models[i as int], texts[i as int]).take(j + 1));
            j += 1;
        }
        assert(text::texts(list@) =~= shown_row(models[i as int], texts[i as int]));
        let ghost before = r@;
        r.push(list);
        assert(cells(r@) =~= cells(before).push(text::texts(list@)));
        assert(cells(r@) =~= all.take(i + 1));
        i += 1;
    }
    assert(all.take(all.len() as int) =~= all);
    r
}

/// A result as it is printed.
#[derive(Debug)]
pub enum Printed {
    /// One document.
    Document(Json),
    /// A document on each line.
    Documents(Vec<Json>),
    Text(String),
    Lines(Vec<String>),
}

/// The rows of a result as objects.
pub open spec fn row_objects(names: Seq<Seq<char>>, rows: Seq<Seq<JsonModel>>) -> Seq<JsonModel> {
    rows.map_values(
        |row: Seq<JsonModel>|
            JsonModel::Object(row_members(names, row, paired(names, row))),
    )
}

/// What is printed of a result: all of it, or CSV as far as it can be written. The caller hands
/// over the text of the JSON form of each value, and of the time that the query took.
pub fn print_result(
    result: &QueryResult,
    format: OutputFormat,
    rendered: &Vec<Vec<String>>,
    elapsed: &str,
) -> (r: Result<Printed, BrokenCsv>)
    requires
        same_shape(result.rows@, rendered@),
        format == OutputFormat::Table && result.columns@.len() > 0 ==> forall|i: int|
            0 <= i < result.rows@.len() ==> (#[trigger] result.rows@[i])@.len()
                <= result.columns@.len(),
    ensures
        ({
            let names = column_names(order::models(result.columns@));
            let rows = query::row_models(result.rows@);
            let values = shown_rows(rows, cells(rendered@));
            match format {
                OutputFormat::Json => r matches Ok(Printed::Document(document)) && document@
                    == output::success_document("query"@, query::result_document(*result)),
                OutputFormat::Jsonl => r matches Ok(Printed::Documents(documents))
                    && json::item_models(documents@) == row_objects(names, rows),
                OutputFormat::Csv => match r {
                    Ok(Printed::Text(csv)) => csv_output(names, values) == Ok::<
                        Seq<char>,
                        (Seq<char>, Seq<char>),
                    >(csv@),
                    Ok(_) => false,
                    Err(broken) => csv_output(names, values) == Err::<
                        Seq<char>,
                        (Seq<char>, Seq<char>),
                    >((broken.written@, broken.report@)),
                },
                OutputFormat::Table => r matches Ok(Printed::Lines(lines)) && text::texts(lines@)
                    == table_lines(names, values, result.row_count as nat, elapsed@),
            }
        }),
{
    let ghost names = column_names(order::models(result.columns@));
    let ghost rows = query::row_models(result.rows@);
    match format {
        OutputFormat::Json => Ok(Printed::Document(output::success("query", result.document()))),
        OutputFormat::Jsonl => {
            let ghost all = row_objects(names, rows);
            let mut documents: Vec<Json> = Vec::new();
            let mut i: usize = 0;
            while i < result.rows.len()
                invariant
                    i <= result.rows@.len(),
                    names == column_names(order::models(result.columns@)),
                    rows == query::row_models(result.rows@),
                    all == row_objects(names, rows),
                    json::item_models(documents@) == all.take(i as int),
                decreases result.rows@.len() - i,
            {
                assert(rows[i as int] == json::item_models(result.rows@[i as int]@));
                let document = row_object(&result.columns, &result.rows[i]);
                assert(all[i as int] == document@);
                proof {
                    json::lemma_items_push(documents@, document);
                }
                documents.push(document);
                assert(all.take(i + 1) =~= all.take(i as int).push(all[i as int]));
                i += 1;
            }
            assert(all.take(all.len() as int) =~= all);
            Ok(Printed::Documents(documents))
        },
        OutputFormat::Csv => {
            let values = display_rows(&result.rows, rendered);
            match render_csv(&result.columns, &values) {
                Ok(csv) => Ok(Printed::Text(csv)),
                Err(broken) => Err(broken),
            }
        },
        OutputFormat::Table => {
            let values = display_rows(&result.rows, rendered);
            proof {
                let shown_all = shown_rows(rows, cells(rendered@));
                assert forall|i: int| 0 <= i < values@.len() implies (#[trigger] values@[i])@.len()
                    == result.rows@[i]@.len() by {
                    assert(cells(values@)[i] == text::texts(values@[i]@));
                    assert(shown_all[i] == shown_row(rows[i], cells(rendered@)[i]));
                    assert(rows[i] == json::item_models(result.rows@[i]@));
                    json::lemma_item_models(result.rows@[i]@);
                }
                assert(cells(values@).len() == values@.len());
            }
            Ok(
                Printed::Lines(
                    print_table(&result.columns, &values, result.row_count, elapsed),
                ),
            )
        },
    }
}

// ---------------------------------------------------------------------------
// Laws of the client
// ---------------------------------------------------------------------------

/// The text of a query comes from one place: the argument or the file that is given, or the
/// standard input where neither is. To give both is an error.
pub proof fn queries_come_from_one_place(
    argument: Option<String>,
    file: Option<String>,
    r: Result<SqlSource, String>,
)
    requires
        call_ensures(read_sql, (argument, file), r),
    ensures
        r is Err <==> argument is Some && file is Some,
        r matches Ok(source) ==> match source {
            SqlSource::Argument(sql) => argument == Some(sql) && file is None,
            SqlSource::File(path) => file == Some(path) && argument is None,
            SqlSource::Stdin => argument is None && file is None,
        },
        r matches Err(error) ==> "not both"@.is_suffix_of(error@),
{
    reveal_strlit("provide SQL as an argument, with --file, or on stdin; not both");
    reveal_strlit("not both");
    if let Err(error) = r {
        assert(error@.skip(error@.len() - 8) =~= "not both"@);
    }
}

/// The client waits longer than the gateway works, by five seconds.
pub proof fn clients_outwait_the_gateway(seconds: u64, r: u64)
    requires
        seconds + 5 <= u64::MAX,
        call_ensures(client_timeout, (seconds,), r),
    ensures
        r > seconds,
        r - seconds == 5,
{
}

/// A result that was answered is handed on as it came, and nothing else is a result. The error of
/// a gateway that cannot be reached tells where it was to listen and the cause. An error that the
/// gateway answers with keeps its code, its report and its details, to which the status is put;
/// an answer that holds none is shown as it is, with its status; and one that should be a result
/// and is none tells why.
pub proof fn answers_are_passed_on(reply: DaemonReply, r: Result<QueryResult, CommandError>)
    requires
        call_ensures(query, (reply,), r),
    ensures
        r is Ok <==> (reply matches DaemonReply::Answered(answer) && answer is Ok),
        r matches Ok(result) ==> reply == DaemonReply::Answered(Ok(result)),
        reply matches DaemonReply::Unreachable { listen, cause } ==> (r matches Err(error)
            && error.code@ == "daemon_unreachable"@ && error.message@
            == "could not reach the duckdoor daemon"@ && json::has_member(
            error.details@,
            "listen"@,
            JsonModel::Text(listen@),
        ) && json::has_member(error.details@, "cause"@, JsonModel::Text(cause@))
            && json::has_member(
            error.details@,
            "resolution"@,
            JsonModel::Text("run `duckdoor status`; start the daemon if it is stopped"@),
        )),
        reply matches DaemonReply::Refused { status, body, parsed: None } ==> (r matches Err(error)
            && error.code@ == "invalid_daemon_response"@ && error.message@
            == "daemon returned an unstructured error response"@ && json::has_member(
            error.details@,
            "http_status"@,
            JsonModel::Int(status as int),
        ) && json::has_member(error.details@, "body"@, JsonModel::Text(body@))),
        reply matches DaemonReply::Refused { status, body, parsed: Some(told) } ==> (
        r matches Err(error) && error.code@ == told.code@ && error.message@ == told.message@),
        reply matches DaemonReply::Answered(Err(cause)) ==> (r matches Err(error) && error.code@
            == "invalid_daemon_response"@ && error.message@
            == "daemon returned an invalid success response"@ && json::has_member(
            error.details@,
            "cause"@,
            JsonModel::Text(cause@),
        )),
{
    match reply {
        DaemonReply::Unreachable { listen, cause } => {
            let error = r->Err_0;
            reveal_strlit("listen");
            reveal_strlit("cause");
            reveal_strlit("resolution");
            let members = error.details@->Object_0;
            assert(members[0].0 == "listen"@);
            assert(members[1].0 == "cause"@);
            assert(members[2].0 == "resolution"@);
            assert("listen"@.len() == 6);
            assert("cause"@.len() == 5);
            assert("resolution"@.len() == 10);
            assert(json::names_differ(members));
            json::lemma_member_is_there(members, 0);
            json::lemma_member_is_there(members, 1);
            json::lemma_member_is_there(members, 2);
        },
        DaemonReply::Refused { status, body, parsed: None } => {
            let error = r->Err_0;
            reveal_strlit("http_status");
            reveal_strlit("body");
            let members = error.details@->Object_0;
            assert(members[0].0 == "http_status"@);
            assert(members[1].0 == "body"@);
            assert("http_status"@.len() == 11);
            assert("body"@.len() == 4);
            assert(json::names_differ(members));
            json::lemma_member_is_there(members, 0);
            json::lemma_member_is_there(members, 1);
        },
        DaemonReply::Answered(Err(cause)) => {
            let error = r->Err_0;
            let members = error.details@->Object_0;
            assert(members[0] == ("cause"@, JsonModel::Text(cause@)));
            json::lemma_member_is_there(members, 0);
        },
        _ => {},
    }
}

/// Where no two details of an error that the gateway answers with have one name, each of them is
/// kept but for the status, which is that of the answer.
pub proof fn details_are_kept_beside_the_status(
    status: u16,
    body: String,
    told: ErrorBody,
    members: Seq<(Seq<char>, JsonModel)>,
    k: int,
    r: Result<QueryResult, CommandError>,
)
    requires
        call_ensures(
            query,
            (DaemonReply::Refused { status, body, parsed: Some(told) },),
            r,
        ),
        told.details@ == JsonModel::Object(members),
        json::names_differ(members),
    ensures
        r matches Err(error) && json::has_member(
            error.details@,
            "http_status"@,
            JsonModel::Int(status as int),
        ) && (0 <= k < members.len() && members[k].0 != "http_status"@ ==> json::has_member(
            error.details@,
            members[k].0,
            members[k].1,
        )),
{
    let value = JsonModel::Int(status as int);
    let error = r->Err_0;
    json::setting_a_member_replaces_it(members, "http_status"@, value);
    json::lemma_position(members, "http_status"@, 0);
    let after = json::with_member(members, "http_status"@, value);
    assert(error.details@ == JsonModel::Object(after));
    let p = choose|p: int| 0 <= p < after.len() && after[p] == ("http_status"@, value);
    json::lemma_member_is_there(after, p);
    if 0 <= k < members.len() && members[k].0 != "http_status"@ {
        assert(after[k] == members[k]);
        json::lemma_member_is_there(after, k);
    }
}

/// Details that are no object are replaced by the status alone.
pub proof fn odd_details_are_dropped(
    status: u16,
    body: String,
    told: ErrorBody,
    r: Result<QueryResult, CommandError>,
)
    requires
        call_ensures(
            query,
            (DaemonReply::Refused { status, body, parsed: Some(told) },),
            r,
        ),
        !(told.details@ is Object),
    ensures
        r matches Err(error) && json::has_member(
            error.details@,
            "http_status"@,
            JsonModel::Int(status as int),
        ) && json::member_count(error.details@) == 1,
{
    let value = JsonModel::Int(status as int);
    let none = Seq::<(Seq<char>, JsonModel)>::empty();
    let after = json::with_member(none, "http_status"@, value);
    assert(json::position(none, "http_status"@, 0) == 0);
    assert(after =~= seq![("http_status"@, value)]);
    assert(after[0] == ("http_status"@, value));
    json::lemma_member_is_there(after, 0);
}

/// Nothing is shown as `NULL`, text as it is, a truth value and a number as they are written, and
/// anything else by its JSON form.
pub proof fn values_are_shown_as_they_are(value: &Json, rendered: &str, r: String)
    requires
        call_ensures(display_value, (value, rendered), r),
    ensures
        value@ is Null ==> r@ == "NULL"@,
        value@ matches JsonModel::Text(s) ==> r@ == s,
        value@ matches JsonModel::Bool(b) ==> (b <==> r@ == "true"@) && (!b <==> r@ == "false"@),
        value@ matches JsonModel::Int(n) ==> (n >= 0 ==> r@ == numeral::numeral(n as nat)) && (n
            < 0 ==> r@ == seq!['-'] + numeral::numeral((-n) as nat)),
        value@ is Double || value@ is Array || value@ is Object ==> r@ == rendered@,
{
    reveal_strlit("true");
    reveal_strlit("false");
    assert("true"@.len() == 4 && "false"@.len() == 5);
}

/// The names of columns are told in the order of the columns, one for each.
pub proof fn names_are_told_in_place(columns: &Vec<Column>, r: Vec<String>, i: int)
    requires
        call_ensures(names_of, (columns,), r),
    ensures
        r@.len() == columns@.len(),
        0 <= i < columns@.len() ==> r@[i]@ == columns@[i].name@,
{
    assert(text::texts(r@).len() == r@.len());
    if 0 <= i < columns@.len() {
        assert(text::texts(r@)[i] == r@[i]@);
        assert(order::models(columns@)[i] == columns@[i]@);
    }
}

proof fn lemma_row_members(names: Seq<Seq<char>>, row: Seq<JsonModel>, count: int, i: int)
    requires
        0 <= i < count <= names.len(),
        count <= row.len(),
        forall|a: int, b: int|
            0 <= a < b < names.len() ==> #[trigger] names[a] != #[trigger] names[b],
    ensures
        row_members(names, row, count).len() == count,
        row_members(names, row, count)[i] == (names[i], row[i]),
    decreases count,
{
    let before = row_members(names, row, count - 1);
    assert forall|a: int| 0 <= a < count - 1 implies before.len() == count - 1 && (
    #[trigger] before[a]).0 != names[count - 1] by {
        lemma_row_members(names, row, count - 1, a);
        assert(names[a] != names[count - 1]);
    }
    if count > 1 {
        lemma_row_members(names, row, count - 1, 0);
    }
    json::lemma_position(before, names[count - 1], 0);
    if i < count - 1 {
        lemma_row_members(names, row, count - 1, i);
    }
}

/// A row whose columns have different names becomes an object that gives each value under the
/// name of its column, in their order, as far as there are both columns and values.
pub proof fn rows_give_each_value_its_name(
    columns: &Vec<Column>,
    row: &Vec<Json>,
    r: Json,
    i: int,
)
    requires
        call_ensures(row_object, (columns, row), r),
        forall|a: int, b: int|
            0 <= a < b < columns@.len() ==> (#[trigger] columns@[a]).name@ != (
            #[trigger] columns@[b]).name@,
    ensures
        r@ matches JsonModel::Object(members) && members.len() == (if columns@.len()
            <= row@.len() {
            columns@.len()
        } else {
            row@.len()
        }) && (0 <= i < members.len() ==> members[i] == (columns@[i].name@, row@[i]@)),
{
    let names = column_names(order::models(columns@));
    let values = json::item_models(row@);
    json::lemma_item_models(row@);
    assert forall|a: int, b: int| 0 <= a < b < names.len() implies #[trigger] names[a]
        != #[trigger] names[b] by {
        assert(names[a] == columns@[a].name@ && names[b] == columns@[b].name@);
    }
    let count = paired(names, values);
    if count > 0 {
        lemma_row_members(names, values, count, 0);
    } else {
        assert(row_members(names, values, count).len() == 0);
    }
    if 0 <= i < count {
        lemma_row_members(names, values, count, i);
        assert(names[i] == columns@[i].name@);
    }
}

/// CSV begins with the names of the columns, and a further row adds its record at the end.
pub proof fn csv_is_written_row_by_row(
    columns: &Vec<Column>,
    rows: &Vec<Vec<String>>,
    fewer: &Vec<Vec<String>>,
    r: Result<String, BrokenCsv>,
    before: Result<String, BrokenCsv>,
)
    requires
        call_ensures(render_csv, (columns, rows), r),
        call_ensures(render_csv, (columns, fewer), before),
        rows@.len() > 0,
        cells(fewer@) == cells(rows@).drop_last(),
    ensures
        before matches Ok(csv) ==> (rows@.last()@.len() == columns@.len() ==> (r matches Ok(more)
            && more@ == csv@ + csv_record(text::texts(rows@.last()@)))),
        before matches Ok(csv) ==> (rows@.last()@.len() != columns@.len() ==> (r matches Err(
            broken,
        ) && csv@.is_prefix_of(broken.written@) && broken.report@ == ragged_text(
            rows@.last()@.len(),
            columns@.len(),
        ))),
        before is Err ==> csv_model(r) == csv_model(before),
        before matches Ok(csv) ==> fewer@.len() == 0 ==> csv@ == csv_record(
            Seq::new(columns@.len(), |i: int| columns@[i].name@),
        ),
{
    let names = column_names(order::models(columns@));
    let all = cells(rows@);
    let some = cells(fewer@);
    assert(names =~= Seq::new(columns@.len(), |i: int| columns@[i].name@));
    assert(all.last() == text::texts(rows@.last()@));
    assert(all.last().len() == rows@.last()@.len());
    assert(some.len() == fewer@.len());
    lemma_ragged_front(all, names.len(), 0);
    lemma_first_ragged(all, names.len(), 0);
    lemma_first_ragged(some, names.len(), 0);
    let k = first_ragged(some, names.len(), 0);
    let n = some.len() as int;
    assert(some.take(n) =~= some);
    assert(all.take(n) =~= some);
    assert(all.take(n + 1) =~= all);
    if k < n {
        assert(all.take(k) =~= some.take(k));
        assert(all[k] == some[k]);
    } else {
        let whole = csv_record(names) + csv_rows(some);
        if all.last().len() == names.len() {
            assert(csv_record(names) + csv_rows(all) =~= whole + csv_record(all.last()));
        } else {
            let written = whole + csv_unfinished(all.last());
            assert(written.take(whole.len() as int) =~= whole);
        }
        if n == 0 {
            assert(whole =~= csv_record(names));
        }
    }
}

proof fn lemma_ragged_front(rows: Seq<Seq<Seq<char>>>, columns: nat, from: int)
    requires
        rows.len() > 0,
        0 <= from <= rows.len() - 1,
    ensures
        ({
            let front = rows.drop_last();
            let k = first_ragged(front, columns, from);
            first_ragged(rows, columns, from) == if k < front.len() {
                k
            } else if rows.last().len() != columns {
                front.len() as int
            } else {
                rows.len() as int
            }
        }),
    decreases rows.len() - from,
{
    let front = rows.drop_last();
    if from < front.len() {
        assert(front[from] == rows[from]);
        lemma_ragged_front(rows, columns, from + 1);
    } else {
        reveal_with_fuel(first_ragged, 3);
    }
}

/// The report of a row that does not fit tells how many cells it has and how many it should have.
pub proof fn ragged_rows_are_counted(found: nat, expected: nat)
    ensures
        ("CSV error: found record with "@ + numeral::numeral(found) + " fields"@).is_prefix_of(
            ragged_text(found, expected),
        ),
        (" has "@ + numeral::numeral(expected) + " fields"@).is_suffix_of(
            ragged_text(found, expected),
        ),
{
    reveal_strlit(" fields, but the previous record has ");
    reveal_strlit(" fields");
    reveal_strlit(" has ");
    let told = ragged_text(found, expected);
    let head = "CSV error: found record with "@ + numeral::numeral(found) + " fields"@;
    let end = " has "@ + numeral::numeral(expected) + " fields"@;
    assert(told.take(head.len() as int) =~= head);
    assert(told.skip(told.len() - end.len()) =~= end);
}

/// A row of a table has a cell for each value that there is a width for, with bars between them.
pub proof fn table_rows_have_a_cell_for_each_value(
    values: &Vec<String>,
    widths: &Vec<usize>,
    fewer: &Vec<String>,
    r: String,
    before: String,
)
    requires
        call_ensures(print_row, (values, widths), r),
        call_ensures(print_row, (fewer, widths), before),
        0 < values@.len() <= widths@.len(),
        text::texts(fewer@) == text::texts(values@).drop_last(),
    ensures
        ({
            let n = values@.len() - 1;
            let cell = cell_text(values@[n]@, widths@[n] as nat);
            if n == 0 {
                r@ == cell
            } else {
                r@ == before@ + "|"@ + cell
            }
        }),
{
    let n = values@.len() - 1;
    let all = row_cells(text::texts(values@), widths_of(widths@));
    let some = row_cells(text::texts(fewer@), widths_of(widths@));
    assert(text::texts(fewer@).len() == fewer@.len());
    assert(all.drop_last() =~= some);
    assert(widths_of(widths@)[n] == widths@[n] as nat);
    assert(text::texts(values@)[n] == values@[n]@);
    assert(all.last() == cell_text(values@[n]@, widths@[n] as nat));
}

/// A cell shows its value, with spaces in place of line endings, as far as there is room: a value
/// that fits is followed by spaces alone, and one that does not is cut, which an ellipsis in the
/// last place shows.
pub proof fn cells_show_their_value(value: Seq<char>, width: nat, i: int)
    requires
        width > 0,
        0 <= i < width,
    ensures
        ({
            let cell = cell_text(value, width);
            &&& cell.len() == width + 2
            &&& cell[0] == ' ' && cell.last() == ' '
            &&& value.len() <= width && i >= value.len() ==> cell[i + 1] == ' '
            &&& value.len() > width && i == width - 1 ==> cell[i + 1] == '\u{2026}'
            &&& i < value.len() && (value.len() <= width || i < width - 1) ==> cell[i + 1] == (
            if value[i] == '\n' || value[i] == '\r' {
                ' '
            } else {
                value[i]
            })
        }),
{
    reveal_strlit(" ");
    let flat = on_one_line(value);
    let inner = padded(cut(flat, width), width);
    let cell = cell_text(value, width);
    assert(cell[i + 1] == inner[i]);
}

proof fn lemma_column_width(width: nat, rows: Seq<Seq<Seq<char>>>, column: int, k: int)
    requires
        0 <= column,
    ensures
        rows.len() == 0 ==> column_width(width, rows, column) == width,
        0 <= k < rows.len() && column < rows[k].len() ==> column_width(width, rows, column) >= (
        if rows[k][column].len() <= 80 {
            rows[k][column].len()
        } else {
            80
        }) && column_width(width, rows, column) <= 80,
        column_width(width, rows, column) >= (if width <= 80 {
            width
        } else {
            80
        }),
        column_width(width, rows, column) == width || column_width(width, rows, column) == 80
            || exists|j: int|
            0 <= j < rows.len() && column < (#[trigger] rows[j]).len() && column_width(
                width,
                rows,
                column,
            ) == rows[j][column].len(),
    decreases rows.len(),
{
    if rows.len() > 0 {
        let front = rows.drop_last();
        lemma_column_width(width, front, column, k);
        if 0 <= k < front.len() {
            assert(front[k] == rows[k]);
        }
        let before = column_width(width, front, column);
        if exists|j: int|
            0 <= j < front.len() && column < (#[trigger] front[j]).len() && before
                == front[j][column].len() {
            let j = choose|j: int|
                0 <= j < front.len() && column < (#[trigger] front[j]).len() && before
                    == front[j][column].len();
            assert(rows[j] == front[j]);
        }
        assert(rows[rows.len() - 1] == rows.last());
    }
}

/// A column is wide enough for its name and for each of its values, up to eighty places, and no
/// wider than the widest of them.
pub proof fn columns_are_as_wide_as_they_need(
    names: Seq<Seq<char>>,
    rows: Seq<Seq<Seq<char>>>,
    column: int,
    k: int,
)
    requires
        0 <= column < names.len(),
    ensures
        ({
            let width = column_widths(names, rows)[column];
            &&& column_widths(names, rows).len() == names.len()
            &&& rows.len() == 0 ==> width == name_width(names[column])
            &&& name_width(names[column]) <= 80 ==> width >= name_width(names[column])
            &&& 0 <= k < rows.len() && column < rows[k].len() ==> width <= 80 && (width
                >= rows[k][column].len() || width == 80)
            &&& width == name_width(names[column]) || width == 80 || exists|j: int|
                0 <= j < rows.len() && column < (#[trigger] rows[j]).len() && width
                    == rows[j][column].len()
        }),
{
    lemma_column_width(name_width(names[column]), rows, column, k);
}

/// A table is the row of the names, then one line for each row, in order, then a line that tells
/// how many rows there are and how long the query took. Every row has the widths of the columns.
pub proof fn tables_have_a_line_for_each_row(
    columns: &Vec<Column>,
    rows: &Vec<Vec<String>>,
    row_count: usize,
    elapsed: &str,
    lines: Vec<String>,
    i: int,
)
    requires
        columns@.len() > 0,
        forall|i: int| 0 <= i < rows@.len() ==> (#[trigger] rows@[i])@.len() <= columns@.len(),
        call_ensures(print_table, (columns, rows, row_count, elapsed), lines),
    ensures
        ({
            let names = Seq::new(columns@.len(), |k: int| columns@[k].name@);
            let widths = column_widths(names, cells(rows@));
            &&& lines@.len() == rows@.len() + 2
            &&& lines@[0]@ == row_text(names, widths)
            &&& 0 <= i < rows@.len() ==> lines@[i + 1]@ == row_text(
                text::texts(rows@[i]@),
                widths,
            )
            &&& lines@.last()@ == "rows="@ + numeral::numeral(row_count as nat) + " elapsed_ms="@
                + elapsed@
        }),
{
    let names = Seq::new(columns@.len(), |k: int| columns@[k].name@);
    assert(column_names(order::models(columns@)) =~= names);
    let told = text::texts(lines@);
    assert(told.len() == lines@.len());
    assert(told[0] == lines@[0]@);
    assert(told.last() == lines@.last()@);
    if 0 <= i < rows@.len() {
        assert(cells(rows@)[i] == text::texts(rows@[i]@));
        assert(told[i + 1] == lines@[i + 1]@);
    }
}

/// A result without columns is told in one line.
pub proof fn tables_without_columns_say_so(
    columns: &Vec<Column>,
    rows: &Vec<Vec<String>>,
    row_count: usize,
    elapsed: &str,
    lines: Vec<String>,
)
    requires
        columns@.len() == 0,
        call_ensures(print_table, (columns, rows, row_count, elapsed), lines),
    ensures
        lines@.len() == 1 && lines@[0]@ == "(no columns)"@,
{
    assert(text::texts(lines@).len() == lines@.len());
    assert(text::texts(lines@)[0] == lines@[0]@);
}

/// A result that is not whole is warned of, with the number of its rows, unless it is shown as
/// the document that says so itself.
pub proof fn truncated_results_are_warned_of(
    result: &QueryResult,
    format: OutputFormat,
    r: Option<Json>,
    data: JsonModel,
)
    requires
        call_ensures(truncation_warning, (result, format), r),
    ensures
        r is Some <==> result.truncated && format != OutputFormat::Json,
        r matches Some(told) ==> json::has_member(
            told@,
            "code"@,
            JsonModel::Text("result_truncated"@),
        ) && json::has_member(
            told@,
            "message"@,
            JsonModel::Text("query result reached the configured row limit"@),
        ) && (json::has_member(told@, "data"@, data) ==> json::has_member(
            data,
            "row_count"@,
            JsonModel::Int(result.row_count as int),
        )),
{
    if let Some(told) = r {
        reveal_strlit("level");
        reveal_strlit("code");
        reveal_strlit("message");
        reveal_strlit("data");
        let members = told@->Object_0;
        assert(members[0].0 == "level"@);
        assert(members[1].0 == "code"@);
        assert(members[2].0 == "message"@);
        assert(members[3].0 == "data"@);
        assert("level"@.len() == 5);
        assert("code"@.len() == 4);
        assert("message"@.len() == 7);
        assert("data"@.len() == 4);
        assert("code"@[0] != "data"@[0]);
        assert(json::names_differ(members));
        json::lemma_member_is_there(members, 0);
        json::lemma_member_is_there(members, 1);
        json::lemma_member_is_there(members, 2);
        json::lemma_member_is_there(members, 3);
        if json::has_member(told@, "data"@, data) {
            assert(data == members[3].1);
            let inner = data->Object_0;
            assert(inner[0] == ("row_count"@, JsonModel::Int(result.row_count as int)));
            json::lemma_member_is_there(inner, 0);
        }
    }
}

/// A result is printed in the form that is asked for: as one document that holds that of the
/// result; as one object for each row, in order; as CSV; or as the lines of a table.
pub proof fn results_are_printed_as_asked_for(
    result: &QueryResult,
    format: OutputFormat,
    rendered: &Vec<Vec<String>>,
    elapsed: &str,
    r: Result<Printed, BrokenCsv>,
    document: Json,
    i: int,
    one: Json,
)
    requires
        same_shape(result.rows@, rendered@),
        format == OutputFormat::Table && result.columns@.len() > 0 ==> forall|i: int|
            0 <= i < result.rows@.len() ==> (#[trigger] result.rows@[i])@.len()
                <= result.columns@.len(),
        call_ensures(print_result, (result, format, rendered, elapsed), r),
        call_ensures(QueryResult::document, (result,), document),
    ensures
        format == OutputFormat::Json ==> (r matches Ok(Printed::Document(told))
            && json::has_member(told@, "command"@, JsonModel::Text("query"@))
            && json::has_member(told@, "ok"@, JsonModel::Bool(true)) && json::has_member(
            told@,
            "data"@,
            document@,
        )),
        format == OutputFormat::Jsonl ==> (r matches Ok(Printed::Documents(told)) && told@.len()
            == result.rows@.len() && (0 <= i < result.rows@.len() && call_ensures(
            row_object,
            (&result.columns, &result.rows@[i]),
            one,
        ) ==> told@[i]@ == one@)),
        format == OutputFormat::Csv ==> (r matches Err(_) || r matches Ok(Printed::Text(_))),
        format == OutputFormat::Table ==> (r matches Ok(Printed::Lines(_))),
{
    if format == OutputFormat::Json {
        let told = r->Ok_0->Document_0;
        reveal_strlit("ok");
        reveal_strlit("command");
        reveal_strlit("data");
        let members = told@->Object_0;
        assert(members[0].0 == "ok"@);
        assert(members[1].0 == "command"@);
        assert(members[2].0 == "data"@);
        assert("ok"@.len() == 2);
        assert("command"@.len() == 7);
        assert("data"@.len() == 4);
        assert(json::names_differ(members));
        json::lemma_member_is_there(members, 0);
        json::lemma_member_is_there(members, 1);
        json::lemma_member_is_there(members, 2);
    }
    if format == OutputFormat::Jsonl {
        let told = r->Ok_0->Documents_0;
        json::lemma_item_models(told@);
        if 0 <= i < result.rows@.len() {
            assert(query::row_models(result.rows@)[i] == json::item_models(result.rows@[i]@));
            assert(json::item_models(told@)[i] == told@[i]@);
        }
    }
}

/// Whether texts are those that the values of a result are shown as, each in its place.
pub open spec fn shows_values(
    values: Seq<Vec<String>>,
    rows: Seq<Vec<Json>>,
    rendered: Seq<Vec<String>>,
) -> bool {
    &&& values.len() == rows.len()
    &&& forall|i: int|
        0 <= i < rows.len() ==> (#[trigger] values[i])@.len() == rows[i]@.len()
    &&& forall|i: int, j: int|
        0 <= i < rows.len() && 0 <= j < rows[i]@.len() ==> (#[trigger] values[i]@[j])@ == shown(
            rows[i]@[j]@,
            rendered[i]@[j]@,
        )
}

/// CSV and tables are printed of the values as they are shown, each in its place.
pub proof fn csv_and_tables_show_each_value_in_place(
    result: &QueryResult,
    rendered: &Vec<Vec<String>>,
    elapsed: &str,
    values: &Vec<Vec<String>>,
    csv: Result<Printed, BrokenCsv>,
    table: Result<Printed, BrokenCsv>,
    written: Result<String, BrokenCsv>,
    lines: Vec<String>,
)
    requires
        same_shape(result.rows@, rendered@),
        forall|i: int|
            0 <= i < result.rows@.len() ==> (#[trigger] result.rows@[i])@.len()
                <= result.columns@.len(),
        shows_values(values@, result.rows@, rendered@),
        call_ensures(print_result, (result, OutputFormat::Csv, rendered, elapsed), csv),
        call_ensures(print_result, (result, OutputFormat::Table, rendered, elapsed), table),
        call_ensures(render_csv, (&result.columns, values), written),
        call_ensures(
            print_table,
            (&result.columns, values, result.row_count, elapsed),
            lines,
        ),
    ensures
        written matches Ok(text) ==> (csv matches Ok(Printed::Text(told)) && told@ == text@),
        written matches Err(broken) ==> (csv matches Err(told) && told.written@ == broken.written@
            && told.report@ == broken.report@),
        table matches Ok(Printed::Lines(told)) && text::texts(told@) == text::texts(lines@),
{
    let rows = query::row_models(result.rows@);
    let texts = cells(rendered@);
    let all = shown_rows(rows, texts);
    assert forall|i: int| 0 <= i < all.len() implies all[i] =~= cells(values@)[i] by {
        json::lemma_item_models(result.rows@[i]@);
        assert(rows[i] == json::item_models(result.rows@[i]@));
        assert(values@[i]@.len() == result.rows@[i]@.len());
        assert(result.rows@[i]@.len() == rendered@[i]@.len());
        assert forall|j: int| 0 <= j < all[i].len() implies all[i][j] == cells(values@)[i][j] by {
            assert(rows[i][j] == result.rows@[i]@[j]@);
            assert(texts[i][j] == rendered@[i]@[j]@);
            assert(values@[i]@[j]@ == shown(result.rows@[i]@[j]@, rendered@[i]@[j]@));
            assert(cells(values@)[i][j] == values@[i]@[j]@);
        }
    }
    assert(all =~= cells(values@));
    if let Err(broken) = csv {
        assert(csv_model(written) == Err::<Seq<char>, (Seq<char>, Seq<char>)>(
            (broken.written@, broken.report@),
        ));
    }
}

/// A column without any place shows nothing of a value but that it has one.
pub proof fn cells_without_a_place_show_that_there_is_a_value(value: Seq<char>)
    ensures
        value.len() == 0 ==> cell_text(value, 0) == seq![' ', ' '],
        value.len() > 0 ==> cell_text(value, 0) == seq![' ', '\u{2026}', ' '],
{
    reveal_strlit(" ");
    let flat = on_one_line(value);
    assert(flat.len() == value.len());
    if value.len() == 0 {
        assert(cell_text(value, 0) =~= seq![' ', ' ']);
    } else {
        assert(cell_text(value, 0) =~= seq![' ', '\u{2026}', ' ']);
    }
}

/// Values that there is no width for are not shown.
pub proof fn values_without_a_column_are_not_shown(
    values: &Vec<String>,
    widths: &Vec<usize>,
    fewer: &Vec<String>,
    r: String,
    before: String,
)
    requires
        call_ensures(print_row, (values, widths), r),
        call_ensures(print_row, (fewer, widths), before),
        values@.len() > widths@.len(),
        text::texts(fewer@) == text::texts(values@).drop_last(),
    ensures
        r@ == before@,
{
    assert(text::texts(fewer@).len() == fewer@.len());
    let all = row_cells(text::texts(values@), widths_of(widths@));
    let some = row_cells(text::texts(fewer@), widths_of(widths@));
    assert(all =~= some);
}

/// A column without values is as wide as its name has bytes.
pub proof fn empty_columns_have_the_width_of_their_name(names: Seq<Seq<char>>, column: int)
    requires
        0 <= column < names.len(),
        vstd::utf8::encode_utf8(names[column]).len() <= usize::MAX,
    ensures
        column_widths(names, Seq::empty())[column] == vstd::utf8::encode_utf8(names[column]).len(),
{
}

} // verus!
