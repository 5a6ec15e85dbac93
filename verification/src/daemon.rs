//! The life of the background process: starting, stopping, and what is known of it.
use vstd::prelude::*;

use crate::config;
use crate::config::{Paths, PathsModel};
use crate::json;
use crate::json::{Json, JsonModel, Members};
use crate::numeral;
use crate::numeral::NumeralError;
use crate::pool::PoolStats;
use crate::server;
use crate::text;

verus! {

// ---------------------------------------------------------------------------
// Errors
// ---------------------------------------------------------------------------

/// Why something could not be done with the background process.
#[derive(Debug)]
pub enum DaemonError {
    AlreadyRunning(u32),
    NotRunning,
    ExitedDuringStartup { status: String, log: String },
    NotHealthy { log: String },
    CannotSignal(u32),
    DidNotStop(u32),
    InvalidPid(NumeralError),
}

/// The model of a [`DaemonError`].
pub enum DaemonFault {
    AlreadyRunning(u32),
    NotRunning,
    ExitedDuringStartup { status: Seq<char>, log: Seq<char> },
    NotHealthy { log: Seq<char> },
    CannotSignal(u32),
    DidNotStop(u32),
    InvalidPid(NumeralError),
}

impl View for DaemonError {
    type V = DaemonFault;

    open spec fn view(&self) -> DaemonFault {
        match self {
            DaemonError::AlreadyRunning(pid) => DaemonFault::AlreadyRunning(*pid),
            DaemonError::NotRunning => DaemonFault::NotRunning,
            DaemonError::ExitedDuringStartup { status, log } => DaemonFault::ExitedDuringStartup {
                status: status@,
                log: log@,
            },
            DaemonError::NotHealthy { log } => DaemonFault::NotHealthy { log: log@ },
            DaemonError::CannotSignal(pid) => DaemonFault::CannotSignal(*pid),
            DaemonError::DidNotStop(pid) => DaemonFault::DidNotStop(*pid),
            DaemonError::InvalidPid(error) => DaemonFault::InvalidPid(*error),
        }
    }
}

pub open spec fn daemon_fault_text(fault: DaemonFault) -> Seq<char> {
    match fault {
        DaemonFault::AlreadyRunning(pid) => "duckdoor is already running (pid "@
            + numeral::numeral(pid as nat) + ")"@,
        DaemonFault::NotRunning => "duckdoor is not running"@,
        DaemonFault::ExitedDuringStartup { status, log } => "daemon exited during startup with "@
            + status + "; inspect "@ + log,
        DaemonFault::NotHealthy { log } => {
            "daemon did not become healthy within 45 seconds; inspect "@ + log
        },
        DaemonFault::CannotSignal(pid) => "could not signal daemon pid "@ + numeral::numeral(
            pid as nat,
        ),
        DaemonFault::DidNotStop(pid) => "daemon pid "@ + numeral::numeral(pid as nat)
            + " did not stop within 15 seconds"@,
        DaemonFault::InvalidPid(error) => "pid file is invalid: "@ + numeral::numeral_error_text(
            error,
        ),
    }
}

impl DaemonError {
    /// The report of the error.
    pub fn message(&self) -> (r: String)
        ensures
            r@ == daemon_fault_text(self@),
    {
        match self {
            DaemonError::AlreadyRunning(pid) => {
                let mut r = "duckdoor is already running (pid ".to_owned();
                r.append(numeral::numeral_of(*pid as u128).as_str());
                r.append(")");
                r
            },
            DaemonError::NotRunning => "duckdoor is not running".to_owned(),
            DaemonError::ExitedDuringStartup { status, log } => {
                let mut r = "daemon exited during startup with ".to_owned();
                r.append(status.as_str());
                r.append("; inspect ");
                r.append(log.as_str());
                r
            },
            DaemonError::NotHealthy { log } => {
                let mut r = "daemon did not become healthy within 45 seconds; inspect ".to_owned();
                r.append(log.as_str());
                r
            },
            DaemonError::CannotSignal(pid) => {
                let mut r = "could not signal daemon pid ".to_owned();
                r.append(numeral::numeral_of(*pid as u128).as_str());
                r
            },
            DaemonError::DidNotStop(pid) => {
                let mut r = "daemon pid ".to_owned();
                r.append(numeral::numeral_of(*pid as u128).as_str());
                r.append(" did not stop within 15 seconds");
                r
            },
            DaemonError::InvalidPid(error) => {
                let mut r = "pid file is invalid: ".to_owned();
                r.append(error.message().as_str());
                r
            },
        }
    }
}

// ---------------------------------------------------------------------------
// The file that holds the process number
// ---------------------------------------------------------------------------

/// What the file of a running process holds: its number on a line.
pub open spec fn pid_text(pid: u32) -> Seq<char> {
    numeral::numeral(pid as nat) + "\n"@
}

/// What a process writes to the file when it starts.
pub fn pid_line(pid: u32) -> (r: String)
    ensures
        r@ == pid_text(pid),
{
    let mut r = numeral::numeral_of(pid as u128);
    r.append("\n");
    r
}

/// Whether a process of a number can be asked for: the numbers below are those of no process
/// and of the first of all, which is never the gateway.
pub open spec fn can_be_asked(pid: u32) -> bool {
    pid >= 2
}

/// What is to be learnt from the file.
#[derive(Debug, Clone, Copy, PartialEq, Eq, Structural)]
pub enum PidCheck {
    /// There is no process.
    Nobody,
    /// There is a process if the system knows one of this number.
    Ask(u32),
}

/// Which process the file stands for, where there is a file.
pub fn running_pid(raw: &Option<String>) -> (r: Result<PidCheck, DaemonError>)
    ensures
        match raw {
            None => r == Ok::<PidCheck, DaemonError>(PidCheck::Nobody),
            Some(raw) => match numeral::parsed_u32(text::trimmed(raw@)) {
                Err(error) => r matches Err(fault) && fault@ == DaemonFault::InvalidPid(error),
                Ok(pid) => r == Ok::<PidCheck, DaemonError>(
                    if can_be_asked(pid) {
                        PidCheck::Ask(pid)
                    } else {
                        PidCheck::Nobody
                    },
                ),
            },
        },
{
    match raw {
        None => Ok(PidCheck::Nobody),
        Some(raw) => match numeral::parse_u32(text::trim(raw.as_str()).as_str()) {
            Err(error) => Err(DaemonError::InvalidPid(error)),
            Ok(pid) => if pid < 2 {
                Ok(PidCheck::Nobody)
            } else {
                Ok(PidCheck::Ask(pid))
            },
        },
    }
}

/// The number that a process writes to the file is the number that is read from it.
pub proof fn pid_files_are_read_back(pid: u32)
    ensures
        numeral::parsed_u32(text::trimmed(pid_text(pid))) == Ok::<u32, NumeralError>(pid),
{
    let digits = numeral::numeral(pid as nat);
    reveal_strlit("\n");
    assert(pid_text(pid) =~= digits.push('\n'));
    numeral::numeral_reads_back(pid as nat);
    assert forall|i: int| 0 <= i < digits.len() implies !text::is_space(digits[i]) by {
        assert(text::is_digit(digits[i]));
    }
    text::trimming_drops_a_final_line_feed(digits);
    numeral::parsing_a_numeral_gives_the_number(pid);
}

// ---------------------------------------------------------------------------
// Starting and stopping
// ---------------------------------------------------------------------------

/// What was done with the background process.
#[derive(Debug, Clone, Copy)]
pub struct DaemonAction {
    pub state: &'static str,
    pub pid: u32,
}

pub open spec fn action_of(action: DaemonAction, state: Seq<char>, pid: u32) -> bool {
    action.state@ == state && action.pid == pid
}

pub open spec fn action_document(state: Seq<char>, pid: u32) -> JsonModel {
    JsonModel::Object(
        seq![("state"@, JsonModel::Text(state)), ("pid"@, JsonModel::Int(pid as int))],
    )
}

impl DaemonAction {
    /// The document of what was done.
    pub fn document(&self) -> (r: Json)
        ensures
            r@ == action_document(self.state@, self.pid),
    {
        let mut members = Members::new();
        members.put("state", json::text(self.state));
        members.put("pid", Json::Int(self.pid as i128));
        assert(members@ =~= action_document(self.state@, self.pid)->Object_0);
        members.object()
    }
}

/// How long a start may take, and how long to wait between two looks at it.
pub const START_SECONDS: u64 = 45;

pub const START_POLL_MILLIS: u64 = 150;

/// How long a stop may take, and how long to wait between two looks at it.
pub const STOP_SECONDS: u64 = 15;

pub const STOP_POLL_MILLIS: u64 = 100;

/// Whether the gateway may be started: nothing runs.
pub fn start(running: Option<u32>) -> (r: Result<(), DaemonError>)
    ensures
        match running {
            Some(pid) => r matches Err(error) && error@ == DaemonFault::AlreadyRunning(pid),
            None => r is Ok,
        },
{
    match running {
        Some(pid) => Err(DaemonError::AlreadyRunning(pid)),
        None => Ok(()),
    }
}

/// What to do next while something is under way.
#[derive(Debug)]
pub enum Progress {
    Wait,
    Done(DaemonAction),
    Failed(DaemonError),
}

/// A look at a gateway that was launched: whether its time is up, whether it has exited and
/// how, and the process number that a healthy gateway reports.
#[derive(Debug)]
pub struct StartLook {
    pub expired: bool,
    pub exited: Option<String>,
    pub healthy_pid: Option<u64>,
}

/// What follows from a look at a gateway that was launched as `child`. It runs once the
/// gateway that answers is the one that was launched, and not another.
pub fn follow_start(look: &StartLook, child: u32, log: &str) -> (r: Progress)
    ensures
        if look.expired {
            r matches Progress::Failed(error) && error@ == (DaemonFault::NotHealthy { log: log@ })
        } else if look.exited is Some {
            r matches Progress::Failed(error) && error@ == (DaemonFault::ExitedDuringStartup {
                status: look.exited->0@,
                log: log@,
            })
        } else if look.healthy_pid == Some(child as u64) {
            r matches Progress::Done(action) && action_of(action, "running"@, child)
        } else {
            r is Wait
        },
{
    if look.expired {
        return Progress::Failed(DaemonError::NotHealthy { log: log.to_owned() });
    }
    if let Some(status) = &look.exited {
        return Progress::Failed(
            DaemonError::ExitedDuringStartup { status: status.clone(), log: log.to_owned() },
        );
    }
    if let Some(pid) = look.healthy_pid {
        if pid == child as u64 {
            return Progress::Done(DaemonAction { state: "running", pid: child });
        }
    }
    Progress::Wait
}

/// The process to be stopped.
pub fn stop(running: Option<u32>) -> (r: Result<u32, DaemonError>)
    ensures
        match running {
            Some(pid) => r == Ok::<u32, DaemonError>(pid),
            None => r matches Err(error) && error@ == DaemonFault::NotRunning,
        },
{
    match running {
        Some(pid) => Ok(pid),
        None => Err(DaemonError::NotRunning),
    }
}

/// Whether a process that was sent a signal got it.
pub fn signalled(pid: u32, delivered: bool) -> (r: Result<(), DaemonError>)
    ensures
        r is Ok <==> delivered,
        r matches Err(error) ==> error@ == DaemonFault::CannotSignal(pid),
{
    if delivered {
        Ok(())
    } else {
        Err(DaemonError::CannotSignal(pid))
    }
}

/// What follows from a look at a process that is to stop: whether its time is up, and whether
/// it still runs.
pub fn follow_stop(pid: u32, expired: bool, alive: bool) -> (r: Progress)
    ensures
        if expired {
            r matches Progress::Failed(error) && error@ == DaemonFault::DidNotStop(pid)
        } else if !alive {
            r matches Progress::Done(action) && action_of(action, "stopped"@, pid)
        } else {
            r is Wait
        },
{
    if expired {
        Progress::Failed(DaemonError::DidNotStop(pid))
    } else if !alive {
        Progress::Done(DaemonAction { state: "stopped", pid })
    } else {
        Progress::Wait
    }
}

/// What is known while the gateway is restarted.
#[derive(Debug)]
pub enum RestartEvent {
    /// The process that runs, if one does.
    Checked(Option<u32>),
    /// What came of stopping it.
    Stopped(Result<DaemonAction, DaemonError>),
    /// What came of starting another.
    Started(Result<DaemonAction, DaemonError>),
}

/// What to do next while the gateway is restarted.
#[derive(Debug)]
pub enum RestartStep {
    Stop,
    Start,
    Done(DaemonAction),
    Failed(DaemonError),
}

/// What to do next while the gateway is restarted: stop it where it runs, start it where
/// nothing runs or what ran has stopped, and report the process that was started.
pub fn restart(event: RestartEvent) -> (r: RestartStep)
    ensures
        match event {
            RestartEvent::Checked(Some(_)) => r is Stop,
            RestartEvent::Checked(None) => r is Start,
            RestartEvent::Stopped(Ok(_)) => r is Start,
            RestartEvent::Stopped(Err(error)) => r == RestartStep::Failed(error),
            RestartEvent::Started(Ok(started)) => r matches RestartStep::Done(action)
                && action_of(action, "running"@, started.pid),
            RestartEvent::Started(Err(error)) => r == RestartStep::Failed(error),
        },
{
    match event {
        RestartEvent::Checked(Some(_)) => RestartStep::Stop,
        RestartEvent::Checked(None) => RestartStep::Start,
        RestartEvent::Stopped(Ok(_)) => RestartStep::Start,
        RestartEvent::Stopped(Err(error)) => RestartStep::Failed(error),
        RestartEvent::Started(Ok(started)) => RestartStep::Done(
            DaemonAction { state: "running", pid: started.pid },
        ),
        RestartEvent::Started(Err(error)) => RestartStep::Failed(error),
    }
}

// ---------------------------------------------------------------------------
// Status
// ---------------------------------------------------------------------------

/// What is known of the background process.
#[derive(Debug)]
pub struct DaemonStatus {
    pub state: &'static str,
    pub pid: Option<u32>,
    pub health: Option<Json>,
    pub error: Option<String>,
    pub home: String,
}

#[verifier::ext_equal]
pub struct StatusModel {
    pub state: Seq<char>,
    pub pid: Option<u32>,
    pub health: Option<JsonModel>,
    pub error: Option<Seq<char>>,
    pub home: Seq<char>,
}

pub open spec fn optional_json(value: Option<Json>) -> Option<JsonModel> {
    match value {
        Some(value) => Some(value@),
        None => None,
    }
}

impl View for DaemonStatus {
    type V = StatusModel;

    open spec fn view(&self) -> StatusModel {
        StatusModel {
            state: self.state@,
            pid: self.pid,
            health: optional_json(self.health),
            error: config::optional(self.error),
            home: self.home@,
        }
    }
}

/// What was found out about the background process.
#[derive(Debug)]
pub enum Probe {
    /// A process runs, and what came of asking for its health.
    Running { pid: u32, health: Result<Json, String> },
    /// No process runs, and whether there is a file of one.
    Stopped { pid_file: bool },
}

/// The status of the background process. One that runs and gives no answer is unhealthy, and
/// a file of a process that does not run is stale.
pub open spec fn status_of(probe: Probe, paths: PathsModel) -> StatusModel {
    match probe {
        Probe::Running { pid, health } => match health {
            Ok(body) => StatusModel {
                state: "running"@,
                pid: Some(pid),
                health: Some(body@),
                error: None,
                home: paths.home,
            },
            Err(error) => StatusModel {
                state: "unhealthy"@,
                pid: Some(pid),
                health: None,
                error: Some(error@),
                home: paths.home,
            },
        },
        Probe::Stopped { pid_file } => StatusModel {
            state: "stopped"@,
            pid: None,
            health: None,
            error: if pid_file {
                Some("stale pid file: "@ + paths.pid)
            } else {
                None
            },
            home: paths.home,
        },
    }
}

/// The status of the background process.
pub fn status(probe: Probe, paths: &Paths) -> (r: DaemonStatus)
    ensures
        r@ == status_of(probe, paths@),
{
    let home = paths.home.clone();
    match probe {
        Probe::Running { pid, health } => match health {
            Ok(body) => DaemonStatus {
                state: "running",
                pid: Some(pid),
                health: Some(body),
                error: None,
                home,
            },
            Err(error) => DaemonStatus {
                state: "unhealthy",
                pid: Some(pid),
                health: None,
                error: Some(error),
                home,
            },
        },
        Probe::Stopped { pid_file } => {
            let error = if pid_file {
                let mut error = "stale pid file: ".to_owned();
                error.append(paths.pid.as_str());
                Some(error)
            } else {
                None
            };
            DaemonStatus { state: "stopped", pid: None, health: None, error, home }
        },
    }
}

/// The members of the document of a status: what is not known has none.
pub open spec fn status_members(status: StatusModel) -> Seq<(Seq<char>, JsonModel)> {
    seq![("state"@, JsonModel::Text(status.state))] + (match status.pid {
        Some(pid) => seq![("pid"@, JsonModel::Int(pid as int))],
        None => Seq::empty(),
    }) + (match status.health {
        Some(health) => seq![("health"@, health)],
        None => Seq::empty(),
    }) + (match status.error {
        Some(error) => seq![("error"@, JsonModel::Text(error))],
        None => Seq::empty(),
    }) + seq![("home"@, JsonModel::Text(status.home))]
}

impl DaemonStatus {
    /// The document of the status.
    pub fn document(self) -> (r: Json)
        ensures
            r@ == JsonModel::Object(status_members(self@)),
    {
        let ghost status = self@;
        let mut members = Members::new();
        members.put("state", json::text(self.state));
        if let Some(pid) = self.pid {
            members.put("pid", Json::Int(pid as i128));
        }
        if let Some(health) = self.health {
            members.put("health", health);
        }
        if let Some(error) = self.error {
            members.put("error", Json::Text(error));
        }
        members.put("home", Json::Text(self.home));
        assert(members@ =~= status_members(status));
        members.object()
    }
}

// ---------------------------------------------------------------------------
// Logs
// ---------------------------------------------------------------------------

/// How much of the end of a log is read, in bytes.
pub const LOG_TAIL_BYTES: u64 = 1_048_576;

/// The place in a log from which on it is read.
pub fn log_start(length: u64) -> (r: u64)
    ensures
        r == if length <= LOG_TAIL_BYTES {
            0
        } else {
            length - LOG_TAIL_BYTES
        },
{
    if length <= LOG_TAIL_BYTES {
        0
    } else {
        length - LOG_TAIL_BYTES
    }
}

/// The last items of a list, in order: as many as asked for, or all where there are fewer.
pub open spec fn last_of<A>(list: Seq<A>, count: nat) -> Seq<A> {
    if list.len() <= count {
        list
    } else {
        list.skip(list.len() - count)
    }
}

/// The last lines of a log.
pub fn logs(text: &str, lines: usize) -> (r: Vec<String>)
    ensures
        text::texts(r@) == last_of(text::lines_of(text@), lines as nat),
{
    let all = text::lines(text);
    let ghost models = text::lines_of(text@);
    let from: usize = if all.len() <= lines {
        0
    } else {
        all.len() - lines
    };
    let mut r: Vec<String> = Vec::new();
    let mut i: usize = from;
    while i < all.len()
        invariant
            from <= i <= all@.len(),
            text::texts(all@) == models,
            text::texts(r@) == models.subrange(from as int, i as int),
        decreases all@.len() - i,
    {
        let ghost before = r@;
        let line = all[i].clone();
        r.push(line);
        assert(models[i as int] == line@);
        assert(text::texts(r@) =~= text::texts(before).push(line@));
        assert(models.subrange(from as int, i + 1) =~= models.subrange(from as int, i as int).push(
            models[i as int],
        ));
        i += 1;
    }
    assert(text::texts(r@) =~= last_of(models, lines as nat));
    r
}

// ---------------------------------------------------------------------------
// Talking to the gateway
// ---------------------------------------------------------------------------

pub open spec fn url(listen: Seq<char>, route: Seq<char>) -> Seq<char> {
    "http://"@ + listen + route
}

fn url_of(listen: &str, route: &str) -> (r: String)
    ensures
        r@ == url(listen@, route@),
{
    let mut r = "http://".to_owned();
    r.append(listen);
    r.append(route);
    r
}

/// Where the health of the gateway is asked for.
pub fn health_url(listen: &str) -> (r: String)
    ensures
        r@ == url(listen@, "/healthz"@),
{
    url_of(listen, "/healthz")
}

/// Where the gateway is told to reload.
pub fn reload_url(listen: &str) -> (r: String)
    ensures
        r@ == url(listen@, "/v1/admin/reload"@),
{
    url_of(listen, "/v1/admin/reload")
}

/// Where queries are sent.
pub fn query_url(listen: &str) -> (r: String)
    ensures
        r@ == url(listen@, "/v1/query"@),
{
    url_of(listen, "/v1/query")
}

/// What an answer to a request to reload means: the status as text, whether it is one of
/// success, and the body as text.
pub fn reload(success: bool, status: &str, body: &str) -> (r: Result<(), String>)
    ensures
        r is Ok <==> success,
        r matches Err(error) ==> error@ == "reload failed ("@ + status@ + "): "@ + body@,
{
    if success {
        return Ok(());
    }
    let mut error = "reload failed (".to_owned();
    error.append(status);
    error.append("): ");
    error.append(body);
    Err(error)
}

/// What the status of an answer to a question for the health of the gateway means.
pub fn health(success: bool, status: &str) -> (r: Result<(), String>)
    ensures
        r is Ok <==> success,
        r matches Err(error) ==> error@ == "health endpoint returned "@ + status@,
{
    if success {
        return Ok(());
    }
    let mut error = "health endpoint returned ".to_owned();
    error.append(status);
    Err(error)
}

/// The path of a source, once it is resolved, where it is one of a regular file.
pub fn ensure_sqlite_path(canonical: String, is_file: bool) -> (r: Result<String, String>)
    ensures
        match r {
            Ok(path) => is_file && path@ == canonical@,
            Err(error) => !is_file && error@ == "not a regular file: "@ + canonical@,
        },
{
    if is_file {
        return Ok(canonical);
    }
    let mut error = "not a regular file: ".to_owned();
    error.append(canonical.as_str());
    Err(error)
}

// ---------------------------------------------------------------------------
// Laws
// ---------------------------------------------------------------------------

/// Whether the answer to a question for the health of the gateway reports a process number.
pub open spec fn reports(answer: JsonModel, pid: u64) -> bool {
    json::has_member(answer, "pid"@, JsonModel::Int(pid as int))
}

/// A gateway that is healthy reports its own process, whatever the numbers of its pool: where
/// its answer is looked at in time, the start of a child is done exactly where the child is
/// the process that answers. A start that is done reports the child as running.
pub proof fn a_start_is_done_by_the_child_that_answers(
    version: &str,
    pid: u32,
    stats: PoolStats,
    answer: Json,
    look: &StartLook,
    child: u32,
    log: &str,
    r: Progress,
)
    requires
        call_ensures(server::health, (version, pid, stats), answer),
        call_ensures(follow_start, (look, child, log), r),
        !look.expired,
        look.exited is None,
        look.healthy_pid matches Some(number) && reports(answer@, number),
    ensures
        r is Done <==> child == pid,
        r is Done || r is Wait,
        r matches Progress::Done(action) ==> action.pid == pid && action.state@ == "running"@,
{
    server::health_tells_the_process_and_its_pool(version, pid, stats, answer);
    assert(look.healthy_pid == Some(pid as u64));
}

/// A start that has taken too long has failed, whatever else is known; else one whose child
/// has exited has failed, for that reason; and else it goes on until a gateway is healthy.
pub proof fn starts_fail_by_time_before_exit(
    look: &StartLook,
    child: u32,
    log: &str,
    r: Progress,
)
    requires
        call_ensures(follow_start, (look, child, log), r),
    ensures
        r is Failed <==> look.expired || look.exited is Some,
        look.expired ==> (r matches Progress::Failed(DaemonError::NotHealthy { log: place })
            && place@ == log@),
        !look.expired && look.exited is Some ==> (r matches Progress::Failed(
            DaemonError::ExitedDuringStartup { status, log: place },
        ) && status@ == look.exited->0@ && place@ == log@),
        look.healthy_pid is None ==> !(r is Done),
{
}

/// A stop is done exactly where its process is gone in time, and reports that process.
pub proof fn stops_are_done_when_the_process_is_gone(
    pid: u32,
    expired: bool,
    alive: bool,
    r: Progress,
)
    requires
        call_ensures(follow_stop, (pid, expired, alive), r),
    ensures
        r is Done <==> !expired && !alive,
        r is Wait <==> !expired && alive,
        r matches Progress::Done(action) ==> action.pid == pid && action.state@ == "stopped"@,
        r matches Progress::Failed(error) ==> error == DaemonError::DidNotStop(pid),
{
}

/// One gateway runs at a time: it is started exactly where none runs, and stopped exactly where
/// one does; and a signal that was not delivered names the process.
pub proof fn one_gateway_runs_at_a_time(
    running: Option<u32>,
    pid: u32,
    delivered: bool,
    a: Result<(), DaemonError>,
    b: Result<u32, DaemonError>,
    c: Result<(), DaemonError>,
)
    requires
        call_ensures(start, (running,), a),
        call_ensures(stop, (running,), b),
        call_ensures(signalled, (pid, delivered), c),
    ensures
        a is Ok <==> b is Err,
        a is Ok <==> running is None,
        a matches Err(error) ==> error == DaemonError::AlreadyRunning(running->0),
        b matches Ok(number) ==> running == Some(number),
        b matches Err(error) ==> error is NotRunning,
        c is Ok <==> delivered,
        c matches Err(error) ==> error == DaemonError::CannotSignal(pid),
{
}

/// A restart stops what runs before it starts anything, starts where nothing runs or what ran
/// has stopped, reports the process that was started, and hands on the error of either step.
pub proof fn restarting_stops_before_it_starts(event: RestartEvent, r: RestartStep)
    requires
        call_ensures(restart, (event,), r),
    ensures
        r is Stop <==> (event matches RestartEvent::Checked(running) && running is Some),
        r is Start <==> event == RestartEvent::Checked(None) || (event matches
            RestartEvent::Stopped(stopped) && stopped is Ok),
        r matches RestartStep::Done(action) ==> (event matches RestartEvent::Started(Ok(started))
            && action.pid == started.pid && action.state@ == "running"@),
        event matches RestartEvent::Started(Ok(started)) ==> r is Done,
        event matches RestartEvent::Stopped(Err(error)) ==> r == RestartStep::Failed(error),
        event matches RestartEvent::Started(Err(error)) ==> r == RestartStep::Failed(error),
{
}

/// The file of a process that runs names that process and no other: what a process writes is
/// asked for again, the two numbers that are never those of a gateway are those of nobody, and
/// where there is no file there is nobody.
pub proof fn pid_files_name_their_process(
    pid: u32,
    line: String,
    raw: &Option<String>,
    r: Result<PidCheck, DaemonError>,
)
    requires
        call_ensures(pid_line, (pid,), line),
        call_ensures(running_pid, (raw,), r),
    ensures
        (raw matches Some(stored) && stored@ == line@) ==> r == Ok::<PidCheck, DaemonError>(
            if pid < 2 {
                PidCheck::Nobody
            } else {
                PidCheck::Ask(pid)
            },
        ),
        raw is None ==> r == Ok::<PidCheck, DaemonError>(PidCheck::Nobody),
        r matches Ok(PidCheck::Ask(number)) ==> number >= 2 && (raw matches Some(stored)
            && numeral::parsed_u32(text::trimmed(stored@)) == Ok::<u32, NumeralError>(number)),
        line@.len() > 0 && line@.last() == '\n',
{
    pid_files_are_read_back(pid);
    reveal_strlit("\n");
}

/// What was done with the background process is told by its state and its process number.
pub proof fn actions_tell_state_and_process(action: &DaemonAction, r: Json)
    requires
        call_ensures(DaemonAction::document, (action,), r),
    ensures
        json::has_member(r@, "state"@, JsonModel::Text(action.state@)),
        json::has_member(r@, "pid"@, JsonModel::Int(action.pid as int)),
        json::member_count(r@) == 2,
{
    reveal_strlit("state");
    reveal_strlit("pid");
    let members = r@->Object_0;
    assert(members[0].0 == "state"@);
    assert(members[1].0 == "pid"@);
    assert("state"@.len() == 5);
    assert("pid"@.len() == 3);
    assert(json::names_differ(members));
    json::lemma_member_is_there(members, 0);
    json::lemma_member_is_there(members, 1);
}

/// A process that runs is running where it gave an answer, which is kept, and unhealthy where it
/// gave none, for the reason given. Where no process runs, the gateway is stopped, and a file
/// that is left of one is called stale, by its path.
pub proof fn the_status_tells_what_was_found(probe: Probe, paths: &Paths, r: DaemonStatus)
    requires
        call_ensures(status, (probe, paths), r),
    ensures
        r.home@ == paths.home@,
        r.state@ == "running"@ <==> (probe matches Probe::Running { health, .. } && health is Ok),
        r.state@ == "unhealthy"@ <==> (probe matches Probe::Running { health, .. }
            && health is Err),
        r.state@ == "stopped"@ <==> probe is Stopped,
        probe matches Probe::Running { pid, .. } ==> r.pid == Some(pid),
        probe matches Probe::Running { health: Ok(body), .. } ==> (r.health matches Some(kept)
            && kept@ == body@) && r.error is None,
        probe matches Probe::Running { health: Err(cause), .. } ==> r.health is None && (
        r.error matches Some(told) && told@ == cause@),
        probe is Stopped ==> r.pid is None && r.health is None,
        probe matches Probe::Stopped { pid_file } ==> (r.error is Some <==> pid_file),
        (probe matches Probe::Stopped { pid_file } && pid_file) ==> (r.error matches Some(told)
            && paths.pid@.is_suffix_of(told@) && "stale pid file: "@.is_prefix_of(told@)
            && told@.len() == "stale pid file: "@.len() + paths.pid@.len()),
{
    reveal_strlit("running");
    reveal_strlit("unhealthy");
    reveal_strlit("stopped");
    assert("running"@[0] != "stopped"@[0]);
    assert("running"@.len() == 7 && "unhealthy"@.len() == 9);
    let m = r@;
    if let Some(told) = r.error {
        assert(m.error == Some(told@));
        if let Probe::Stopped { pid_file } = probe {
            let head = "stale pid file: "@;
            assert(told@.take(head.len() as int) =~= head);
            assert(told@.skip(told@.len() - paths.pid@.len()) =~= paths.pid@);
        }
    }
    if let Some(kept) = r.health {
        assert(m.health == Some(kept@));
    }
}

/// Whether a document has no member of a name.
pub open spec fn lacks_member(document: JsonModel, name: Seq<char>) -> bool {
    document matches JsonModel::Object(members) && forall|i: int|
        0 <= i < members.len() ==> (#[trigger] members[i]).0 != name
}

/// The document of a status tells the state and the home, and whatever else is known: what is
/// not known has no member.
pub proof fn the_status_document_tells_what_is_known(status: DaemonStatus, r: Json)
    requires
        call_ensures(DaemonStatus::document, (status,), r),
    ensures
        json::has_member(r@, "state"@, JsonModel::Text(status.state@)),
        json::has_member(r@, "home"@, JsonModel::Text(status.home@)),
        status.pid matches Some(pid) ==> json::has_member(r@, "pid"@, JsonModel::Int(pid as int)),
        status.pid is None ==> lacks_member(r@, "pid"@),
        status.health matches Some(health) ==> json::has_member(r@, "health"@, health@),
        status.health is None ==> lacks_member(r@, "health"@),
        status.error matches Some(error) ==> json::has_member(
            r@,
            "error"@,
            JsonModel::Text(error@),
        ),
        status.error is None ==> lacks_member(r@, "error"@),
{
    reveal_strlit("state");
    reveal_strlit("pid");
    reveal_strlit("health");
    reveal_strlit("error");
    reveal_strlit("home");
    assert("state"@.len() == 5 && "pid"@.len() == 3 && "health"@.len() == 6 && "error"@.len() == 5
        && "home"@.len() == 4);
    assert("state"@[0] != "error"@[0]);
    let members = r@->Object_0;
    let p: int = if status.pid is Some {
        1
    } else {
        0
    };
    let h: int = if status.health is Some {
        1
    } else {
        0
    };
    let e: int = if status.error is Some {
        1
    } else {
        0
    };
    assert(members.len() == 2 + p + h + e);
    assert(members[0] == ("state"@, JsonModel::Text(status.state@)));
    assert(members[1 + p + h + e] == ("home"@, JsonModel::Text(status.home@)));
    if let Some(pid) = status.pid {
        assert(members[1] == ("pid"@, JsonModel::Int(pid as int)));
    }
    if let Some(health) = status.health {
        assert(members[1 + p] == ("health"@, health@));
    }
    if let Some(error) = status.error {
        assert(members[1 + p + h] == ("error"@, JsonModel::Text(error@)));
    }
    assert(json::names_differ(members));
    json::lemma_member_is_there(members, 0);
    json::lemma_member_is_there(members, 1 + p + h + e);
    if status.pid is Some {
        json::lemma_member_is_there(members, 1);
    }
    if status.health is Some {
        json::lemma_member_is_there(members, 1 + p);
    }
    if status.error is Some {
        json::lemma_member_is_there(members, 1 + p + h);
    }
}

/// A log is read from so far that what is read is its end, and is never more than the limit;
/// a log within the limit is read whole. Of its lines the last are told, as many as asked for
/// where there are so many.
pub proof fn logs_tell_the_end(
    length: u64,
    from: u64,
    text: &str,
    lines: usize,
    r: Vec<String>,
)
    requires
        call_ensures(log_start, (length,), from),
        call_ensures(logs, (text, lines), r),
    ensures
        from <= length,
        length - from <= LOG_TAIL_BYTES,
        from == 0 || length - from == LOG_TAIL_BYTES,
        LOG_TAIL_BYTES == 1024 * 1024,
        r@.len() <= lines,
        r@.len() == lines || r@.len() == text::lines_of(text@).len(),
        text::texts(r@).is_suffix_of(text::lines_of(text@)),
{
    let all = text::lines_of(text@);
    assert(text::texts(r@).len() == r@.len());
    assert(all.skip(all.len() - r@.len()) =~= text::texts(r@));
}

/// The gateway is asked at the address that it listens on: the three requests go to the three
/// routes of that address.
pub proof fn requests_go_to_the_address_of_the_gateway(
    listen: &str,
    a: String,
    b: String,
    c: String,
)
    requires
        call_ensures(health_url, (listen,), a),
        call_ensures(reload_url, (listen,), b),
        call_ensures(query_url, (listen,), c),
    ensures
        ("http://"@ + listen@ + "/"@).is_prefix_of(a@),
        ("http://"@ + listen@ + "/"@).is_prefix_of(b@),
        ("http://"@ + listen@ + "/"@).is_prefix_of(c@),
        a@.skip(("http://"@ + listen@).len() as int) == "/healthz"@,
        b@.skip(("http://"@ + listen@).len() as int) == "/v1/admin/reload"@,
        c@.skip(("http://"@ + listen@).len() as int) == "/v1/query"@,
{
    reveal_strlit("/");
    reveal_strlit("/healthz");
    reveal_strlit("/v1/admin/reload");
    reveal_strlit("/v1/query");
    let base = "http://"@ + listen@;
    let head = base + "/"@;
    assert(a@.take(head.len() as int) =~= head);
    assert(b@.take(head.len() as int) =~= head);
    assert(c@.take(head.len() as int) =~= head);
    assert(a@.skip(base.len() as int) =~= "/healthz"@);
    assert(b@.skip(base.len() as int) =~= "/v1/admin/reload"@);
    assert(c@.skip(base.len() as int) =~= "/v1/query"@);
}

/// An answer of success means that the request was followed; the error of any other tells the
/// status and, of a request to reload, the body.
pub proof fn answers_without_success_are_reported(
    success: bool,
    status: &str,
    body: &str,
    a: Result<(), String>,
    b: Result<(), String>,
)
    requires
        call_ensures(reload, (success, status, body), a),
        call_ensures(health, (success, status), b),
    ensures
        a is Ok <==> success,
        b is Ok <==> success,
        a matches Err(error) ==> ("reload failed ("@ + status@ + "): "@).is_prefix_of(error@)
            && error@.skip(("reload failed ("@ + status@ + "): "@).len() as int) == body@,
        b matches Err(error) ==> "health endpoint returned "@.is_prefix_of(error@) && error@.skip(
            "health endpoint returned "@.len() as int,
        ) == status@,
{
    if let Err(error) = a {
        let head = "reload failed ("@ + status@ + "): "@;
        assert(error@.take(head.len() as int) =~= head);
        assert(error@.skip(head.len() as int) =~= body@);
    }
    if let Err(error) = b {
        let head = "health endpoint returned "@;
        assert(error@.take(head.len() as int) =~= head);
        assert(error@.skip(head.len() as int) =~= status@);
    }
}

/// A path is accepted as it is exactly where it is that of a regular file; the error of any other
/// ends with the path.
pub proof fn only_regular_files_are_accepted(
    canonical: String,
    is_file: bool,
    r: Result<String, String>,
)
    requires
        call_ensures(ensure_sqlite_path, (canonical, is_file), r),
    ensures
        r is Ok <==> is_file,
        r matches Ok(path) ==> path@ == canonical@,
        r matches Err(error) ==> "not a regular file: "@.is_prefix_of(error@) && error@.skip(
            "not a regular file: "@.len() as int,
        ) == canonical@,
{
    if let Err(error) = r {
        let head = "not a regular file: "@;
        assert(error@.take(head.len() as int) =~= head);
        assert(error@.skip(head.len() as int) =~= canonical@);
    }
}

/// The report of an error names the process, the log or the cause that the error is about, and
/// the time that something may take.
pub proof fn daemon_errors_name_what_they_are_about(error: &DaemonError, r: String)
    requires
        call_ensures(DaemonError::message, (error,), r),
    ensures
        error matches DaemonError::AlreadyRunning(pid) ==> (" (pid "@ + numeral::numeral(
            pid as nat,
        ) + ")"@).is_suffix_of(r@),
        error is NotRunning ==> " not running"@.is_suffix_of(r@),
        error matches DaemonError::ExitedDuringStartup { status, log } ==> (
        "daemon exited during startup with "@ + status@ + "; inspect "@).is_prefix_of(r@)
            && r@.skip(
            ("daemon exited during startup with "@ + status@ + "; inspect "@).len() as int,
        ) == log@,
        error matches DaemonError::NotHealthy { log } ==> ("; inspect "@ + log@).is_suffix_of(r@)
            && "daemon did not become healthy within 45 seconds"@.is_prefix_of(r@),
        error matches DaemonError::CannotSignal(pid) ==> "could not signal "@.is_prefix_of(r@) && (
        " pid "@ + numeral::numeral(pid as nat)).is_suffix_of(r@),
        error matches DaemonError::DidNotStop(pid) ==> ("daemon pid "@ + numeral::numeral(
            pid as nat,
        ) + " did not stop "@).is_prefix_of(r@) && " within 15 seconds"@.is_suffix_of(r@),
        error matches DaemonError::InvalidPid(cause) ==> "pid file is invalid: "@.is_prefix_of(r@)
            && r@.skip("pid file is invalid: "@.len() as int) == numeral::numeral_error_text(
            *cause,
        ),
        START_SECONDS == 45,
        STOP_SECONDS == 15,
        START_POLL_MILLIS == 150,
        STOP_POLL_MILLIS == 100,
{
    match error {
        DaemonError::AlreadyRunning(pid) => {
            reveal_strlit("duckdoor is already running (pid ");
            reveal_strlit(" (pid ");
            let end = " (pid "@ + numeral::numeral(*pid as nat) + ")"@;
            assert(r@.skip(r@.len() - end.len()) =~= end);
        },
        DaemonError::NotRunning => {
            reveal_strlit("duckdoor is not running");
            reveal_strlit(" not running");
            assert(r@.skip(r@.len() - 12) =~= " not running"@);
        },
        DaemonError::ExitedDuringStartup { status, log } => {
            let head = "daemon exited during startup with "@ + status@ + "; inspect "@;
            assert(r@.take(head.len() as int) =~= head);
            assert(r@.skip(head.len() as int) =~= log@);
        },
        DaemonError::NotHealthy { log } => {
            reveal_strlit("daemon did not become healthy within 45 seconds; inspect ");
            reveal_strlit("daemon did not become healthy within 45 seconds");
            reveal_strlit("; inspect ");
            let end = "; inspect "@ + log@;
            let head = "daemon did not become healthy within 45 seconds"@;
            assert(r@.take(head.len() as int) =~= head);
            assert(r@.skip(r@.len() - end.len()) =~= end);
        },
        DaemonError::CannotSignal(pid) => {
            reveal_strlit("could not signal daemon pid ");
            reveal_strlit("could not signal ");
            reveal_strlit(" pid ");
            let end = " pid "@ + numeral::numeral(*pid as nat);
            assert(r@.take(17) =~= "could not signal "@);
            assert(r@.skip(r@.len() - end.len()) =~= end);
        },
        DaemonError::DidNotStop(pid) => {
            reveal_strlit(" did not stop within 15 seconds");
            reveal_strlit(" did not stop ");
            reveal_strlit(" within 15 seconds");
            let head = "daemon pid "@ + numeral::numeral(*pid as nat) + " did not stop "@;
            assert(r@.take(head.len() as int) =~= head);
            assert(r@.skip(r@.len() - 18) =~= " within 15 seconds"@);
        },
        DaemonError::InvalidPid(cause) => {
            let head = "pid file is invalid: "@;
            assert(r@.take(head.len() as int) =~= head);
            assert(r@.skip(head.len() as int) =~= numeral::numeral_error_text(*cause));
        },
    }
}

} // verus!
