//! Changing the configuration: a change is tried before it is saved, and taken back where the
//! gateway that runs does not accept it.
use vstd::prelude::*;

use crate::config::{Backend, BackendModel, Config, ConfigModel, LogicalView, ViewModel};
use crate::defect;
use crate::json;
use crate::json::{Json, JsonModel, Members};
use crate::order;
use crate::order::Sortable;
use crate::output;
use crate::output::{CommandError, CommandFault};
use crate::registry;
use crate::validate;
use crate::views;

verus! {

// ---------------------------------------------------------------------------
// Changes
// ---------------------------------------------------------------------------

/// A change of the configuration.
#[derive(Debug)]
pub enum Change {
    AddBackend(Backend),
    RemoveBackend(String),
    RemoveAll,
    SetEnabled { name: String, enabled: bool },
    AddView(LogicalView),
}

/// The model of a [`Change`].
pub enum ChangeModel {
    AddBackend(BackendModel),
    RemoveBackend(Seq<char>),
    RemoveAll,
    SetEnabled { name: Seq<char>, enabled: bool },
    AddView(ViewModel),
}

impl View for Change {
    type V = ChangeModel;

    open spec fn view(&self) -> ChangeModel {
        match self {
            Change::AddBackend(backend) => ChangeModel::AddBackend(backend@),
            Change::RemoveBackend(name) => ChangeModel::RemoveBackend(name@),
            Change::RemoveAll => ChangeModel::RemoveAll,
            Change::SetEnabled { name, enabled } => ChangeModel::SetEnabled {
                name: name@,
                enabled: *enabled,
            },
            Change::AddView(view) => ChangeModel::AddView(view@),
        }
    }
}

/// What a change makes of a configuration.
#[verifier::ext_equal]
pub struct Changed {
    pub config: ConfigModel,
    pub changed: bool,
    pub removed: Seq<BackendModel>,
}

/// What a change makes of a configuration, or why it cannot be made.
pub open spec fn applied(c: ConfigModel, change: ChangeModel) -> Result<Changed, CommandFault> {
    match change {
        ChangeModel::AddBackend(backend) => match registry::place_of(
            c.backends,
            backend.name,
            0,
        ) {
            None => Ok(
                Changed {
                    config: registry::with_backend(c, backend),
                    changed: true,
                    removed: Seq::empty(),
                },
            ),
            Some(i) => Err(registry::existing_backend(c.backends[i], backend.path)),
        },
        ChangeModel::RemoveBackend(name) => if views::registered(c.backends, name) {
            Ok(
                Changed {
                    config: ConfigModel {
                        backends: registry::without_name(c.backends, name),
                        ..c
                    },
                    changed: true,
                    removed: registry::with_name(c.backends, name),
                },
            )
        } else {
            Err(registry::unknown_backend(name))
        },
        ChangeModel::RemoveAll => Ok(
            Changed {
                config: registry::without_backends(c),
                changed: c.backends.len() > 0,
                removed: c.backends,
            },
        ),
        ChangeModel::SetEnabled { name, enabled } => match registry::place_of(
            c.backends,
            name,
            0,
        ) {
            None => Err(registry::unknown_backend(name)),
            Some(i) => Ok(
                Changed {
                    config: registry::switched(c, i, enabled),
                    changed: c.backends[i].enabled != enabled,
                    removed: Seq::empty(),
                },
            ),
        },
        ChangeModel::AddView(view) => match registry::view_place(
            c.views,
            view.schema,
            view.name,
            0,
        ) {
            None => Ok(
                Changed {
                    config: ConfigModel { views: c.views.push(view), ..c },
                    changed: true,
                    removed: Seq::empty(),
                },
            ),
            Some(_) => Err(registry::existing_view(view)),
        },
    }
}

/// A configuration that a change was made to.
#[derive(Debug)]
pub struct Mutation {
    pub updated: Config,
    pub changed: bool,
    pub removed: Vec<Backend>,
}

impl View for Mutation {
    type V = Changed;

    open spec fn view(&self) -> Changed {
        Changed {
            config: self.updated@,
            changed: self.changed,
            removed: order::models(self.removed@),
        }
    }
}

fn apply(previous: &Config, change: Change) -> (r: Result<Mutation, CommandError>)
    ensures
        match r {
            Ok(mutation) => applied(previous@, change@) == Ok::<Changed, CommandFault>(mutation@),
            Err(error) => applied(previous@, change@) == Err::<Changed, CommandFault>(error@),
        },
{
    let mut updated = previous.clone();
    let mut removed: Vec<Backend> = Vec::new();
    let mut changed = true;
    assert(order::models(removed@) =~= Seq::<BackendModel>::empty());
    match change {
        Change::AddBackend(backend) => {
            if let Err(error) = registry::add_backend(&mut updated, backend) {
                return Err(error);
            }
        },
        Change::RemoveBackend(name) => {
            match registry::remove_backend(&mut updated, name.as_str()) {
                Err(error) => {
                    return Err(error);
                },
                Ok(list) => {
                    removed = list;
                },
            }
        },
        Change::RemoveAll => {
            removed = registry::remove_all(&mut updated);
            assert(order::models(removed@).len() == removed@.len());
            changed = removed.len() > 0;
        },
        Change::SetEnabled { name, enabled } => {
            match registry::set_enabled(&mut updated, name.as_str(), enabled) {
                Err(error) => {
                    return Err(error);
                },
                Ok(differs) => {
                    changed = differs;
                },
            }
        },
        Change::AddView(view) => {
            if let Err(error) = registry::add_view(&mut updated, view) {
                return Err(error);
            }
        },
    }
    Ok(Mutation { updated, changed, removed })
}

/// The error of a change that was tried and not saved.
pub open spec fn validation_failed(cause: Seq<char>) -> CommandFault {
    CommandFault {
        code: "configuration_validation_failed"@,
        message: "the change was not saved: "@ + cause,
        details: JsonModel::Object(
            seq![
                ("phase"@, JsonModel::Text("validate"@)),
                ("configuration_changed"@, JsonModel::Bool(false)),
                ("cause"@, JsonModel::Text(cause)),
            ],
        ),
    }
}

fn not_valid(cause: &str) -> (r: CommandError)
    ensures
        r@ == validation_failed(cause@),
{
    let mut message = "the change was not saved: ".to_owned();
    message.append(cause);
    let mut details = Members::new();
    details.put("phase", json::text("validate"));
    details.put("configuration_changed", Json::Bool(false));
    details.put("cause", json::text(cause));
    assert(details@ =~= validation_failed(cause@).details->Object_0);
    CommandError::new("configuration_validation_failed", message.as_str(), details.object())
}

/// What a change comes to: the configuration that it makes, with everything listed by name,
/// where that is valid.
pub open spec fn mutation(c: ConfigModel, change: ChangeModel) -> Result<Changed, CommandFault> {
    match applied(c, change) {
        Err(fault) => Err(fault),
        Ok(changed) => match validate::validation(changed.config) {
            (arranged, None) => Ok(Changed { config: arranged, ..changed }),
            (_, Some(found)) => Err(validation_failed(defect::defect_text(found))),
        },
    }
}

/// Makes a change to a copy of a configuration, which is listed by name and valid.
pub fn mutate_config(previous: &Config, change: Change) -> (r: Result<Mutation, CommandError>)
    ensures
        match r {
            Ok(changed) => {
                &&& mutation(previous@, change@) == Ok::<Changed, CommandFault>(changed@)
                &&& validate::valid_config(changed@.config)
                &&& validate::arranged(changed@.config) == changed@.config
            },
            Err(error) => mutation(previous@, change@) == Err::<Changed, CommandFault>(error@),
        },
{
    match apply(previous, change) {
        Err(error) => Err(error),
        Ok(changed) => {
            let ghost model = changed@;
            let mut updated = changed.updated;
            let valid = validate::validate_config(&mut updated);
            match valid {
                Err(error) => Err(not_valid(error.message().as_str())),
                Ok(_) => {
                    proof {
                        validate::validation_accepts_the_valid(model.config);
                        validate::arranging_keeps_validity(model.config);
                        validate::arranging_is_idempotent(model.config);
                    }
                    let r = Mutation {
                        updated,
                        changed: changed.changed,
                        removed: changed.removed,
                    };
                    assert(r@ =~= (Changed {
                        config: validate::validation(model.config).0,
                        ..model
                    }));
                    Ok(r)
                },
            }
        },
    }
}

// ---------------------------------------------------------------------------
// Saving and reloading
// ---------------------------------------------------------------------------

/// What was done about a change, and what came of it. Where the gateway did not accept the
/// change, its report is carried along.
#[derive(Debug)]
pub enum Event {
    /// The backend that the change is about was tried, where one had to be.
    Tried(Option<Result<(), String>>),
    /// The change was made to a copy of the configuration; whether it changed anything.
    Mutated(Result<bool, CommandError>),
    /// A pool of one worker was built from the configuration that the change makes.
    Probed(Result<(), String>),
    /// That configuration was saved.
    Saved(Result<(), String>),
    /// It was looked whether the gateway runs.
    Looked(Result<bool, String>),
    /// The gateway was told to reload.
    Reloaded(Result<(), String>),
    /// The configuration from before the change was saved.
    Restored { report: String, result: Result<(), String> },
    /// The gateway was told to reload that one.
    Reverted { report: String },
}

/// What is to be done next about a change.
#[derive(Debug)]
pub enum Action {
    Mutate,
    Probe,
    Save,
    Look,
    Reload,
    Restore { report: String },
    Revert { report: String },
    /// The change was made, or there was nothing to change; whether the gateway was told of it
    /// and serves it.
    Done { reloaded: bool },
    Fail(CommandError),
}

/// The model of what came of something.
pub type Came = Result<(), Seq<char>>;

/// The model of an [`Event`].
pub enum EventModel {
    Tried(Option<Came>),
    Mutated(Result<bool, CommandFault>),
    Probed(Came),
    Saved(Came),
    Looked(Result<bool, Seq<char>>),
    Reloaded(Came),
    Restored { report: Seq<char>, result: Came },
    Reverted { report: Seq<char> },
}

/// The model of an [`Action`].
pub enum ActionModel {
    Mutate,
    Probe,
    Save,
    Look,
    Reload,
    Restore { report: Seq<char> },
    Revert { report: Seq<char> },
    Done { reloaded: bool },
    Fail(CommandFault),
}

pub open spec fn came(r: Result<(), String>) -> Came {
    match r {
        Ok(_) => Ok(()),
        Err(report) => Err(report@),
    }
}

impl View for Event {
    type V = EventModel;

    open spec fn view(&self) -> EventModel {
        match self {
            Event::Tried(trial) => EventModel::Tried(
                match trial {
                    Some(r) => Some(came(*r)),
                    None => None,
                },
            ),
            Event::Mutated(r) => EventModel::Mutated(
                match r {
                    Ok(changed) => Ok(*changed),
                    Err(error) => Err(error@),
                },
            ),
            Event::Probed(r) => EventModel::Probed(came(*r)),
            Event::Saved(r) => EventModel::Saved(came(*r)),
            Event::Looked(r) => EventModel::Looked(
                match r {
                    Ok(running) => Ok(*running),
                    Err(report) => Err(report@),
                },
            ),
            Event::Reloaded(r) => EventModel::Reloaded(came(*r)),
            Event::Restored { report, result } => EventModel::Restored {
                report: report@,
                result: came(*result),
            },
            Event::Reverted { report } => EventModel::Reverted { report: report@ },
        }
    }
}

impl View for Action {
    type V = ActionModel;

    open spec fn view(&self) -> ActionModel {
        match self {
            Action::Mutate => ActionModel::Mutate,
            Action::Probe => ActionModel::Probe,
            Action::Save => ActionModel::Save,
            Action::Look => ActionModel::Look,
            Action::Reload => ActionModel::Reload,
            Action::Restore { report } => ActionModel::Restore { report: report@ },
            Action::Revert { report } => ActionModel::Revert { report: report@ },
            Action::Done { reloaded } => ActionModel::Done { reloaded: *reloaded },
            Action::Fail(error) => ActionModel::Fail(error@),
        }
    }
}

/// The error of a change that is about a backend which cannot be read.
pub open spec fn trial_failed(cause: Seq<char>) -> CommandFault {
    output::plain_failure("backend test failed: "@ + cause)
}

pub open spec fn save_failed(cause: Seq<char>) -> CommandFault {
    CommandFault {
        code: "configuration_save_failed"@,
        message: "could not save the configuration: "@ + cause,
        details: JsonModel::Object(
            seq![
                ("phase"@, JsonModel::Text("save"@)),
                ("configuration_changed"@, JsonModel::Bool(false)),
                ("cause"@, JsonModel::Text(cause)),
            ],
        ),
    }
}

pub open spec fn look_failed(cause: Seq<char>) -> CommandFault {
    CommandFault {
        code: "daemon_state_unknown"@,
        message: "the change was saved, but the state of the daemon is unknown: "@ + cause,
        details: JsonModel::Object(
            seq![
                ("phase"@, JsonModel::Text("reload"@)),
                ("configuration_changed"@, JsonModel::Bool(true)),
                ("cause"@, JsonModel::Text(cause)),
            ],
        ),
    }
}

pub open spec fn rolled_back(cause: Seq<char>) -> CommandFault {
    CommandFault {
        code: "reload_rolled_back"@,
        message: "daemon rejected the change; configuration was rolled back: "@ + cause,
        details: JsonModel::Object(
            seq![
                ("phase"@, JsonModel::Text("reload"@)),
                ("configuration_changed"@, JsonModel::Bool(false)),
                ("rolled_back"@, JsonModel::Bool(true)),
                ("cause"@, JsonModel::Text(cause)),
            ],
        ),
    }
}

pub open spec fn rollback_failed(cause: Seq<char>, rollback: Seq<char>) -> CommandFault {
    CommandFault {
        code: "rollback_failed"@,
        message: "reload failed and configuration rollback also failed: "@ + rollback,
        details: JsonModel::Object(
            seq![
                ("phase"@, JsonModel::Text("rollback"@)),
                ("configuration_changed"@, JsonModel::Bool(true)),
                ("rolled_back"@, JsonModel::Bool(false)),
                ("cause"@, JsonModel::Text(cause)),
                ("rollback_cause"@, JsonModel::Text(rollback)),
            ],
        ),
    }
}

/// What is done next about a change. It is made to a copy of the configuration once the backend
/// that it is about was read. A copy that is no different is left alone. Any other is tried, and
/// saved once that succeeded; the gateway is told to reload where it runs, and what was saved is
/// taken back where the gateway does not accept it.
pub open spec fn reaction(event: EventModel) -> ActionModel {
    match event {
        EventModel::Tried(Some(Err(cause))) => ActionModel::Fail(trial_failed(cause)),
        EventModel::Tried(_) => ActionModel::Mutate,
        EventModel::Mutated(Err(fault)) => ActionModel::Fail(fault),
        EventModel::Mutated(Ok(changed)) => if changed {
            ActionModel::Probe
        } else {
            ActionModel::Done { reloaded: false }
        },
        EventModel::Probed(Ok(_)) => ActionModel::Save,
        EventModel::Probed(Err(cause)) => ActionModel::Fail(validation_failed(cause)),
        EventModel::Saved(Ok(_)) => ActionModel::Look,
        EventModel::Saved(Err(cause)) => ActionModel::Fail(save_failed(cause)),
        EventModel::Looked(Ok(running)) => if running {
            ActionModel::Reload
        } else {
            ActionModel::Done { reloaded: false }
        },
        EventModel::Looked(Err(cause)) => ActionModel::Fail(look_failed(cause)),
        EventModel::Reloaded(Ok(_)) => ActionModel::Done { reloaded: true },
        EventModel::Reloaded(Err(report)) => ActionModel::Restore { report },
        EventModel::Restored { report, result } => match result {
            Ok(_) => ActionModel::Revert { report },
            Err(cause) => ActionModel::Fail(rollback_failed(report, cause)),
        },
        EventModel::Reverted { report } => ActionModel::Fail(rolled_back(report)),
    }
}

fn phase_error(
    code: &str,
    message: &str,
    phase: &str,
    configuration_changed: bool,
    cause: &str,
) -> (r: CommandError)
    ensures
        r@ == (CommandFault {
            code: code@,
            message: message@ + cause@,
            details: JsonModel::Object(
                seq![
                    ("phase"@, JsonModel::Text(phase@)),
                    ("configuration_changed"@, JsonModel::Bool(configuration_changed)),
                    ("cause"@, JsonModel::Text(cause@)),
                ],
            ),
        }),
{
    let mut full = message.to_owned();
    full.append(cause);
    let mut details = Members::new();
    details.put("phase", json::text(phase));
    details.put("configuration_changed", Json::Bool(configuration_changed));
    details.put("cause", json::text(cause));
    assert(details@ =~= seq![
        ("phase"@, JsonModel::Text(phase@)),
        ("configuration_changed"@, JsonModel::Bool(configuration_changed)),
        ("cause"@, JsonModel::Text(cause@)),
    ]);
    CommandError::new(code, full.as_str(), details.object())
}

/// What is to be done next about a change.
pub fn save_and_reload(event: Event) -> (r: Action)
    ensures
        r@ == reaction(event@),
{
    match event {
        Event::Tried(trial) => match trial {
            Some(Err(cause)) => {
                let mut message = "backend test failed: ".to_owned();
                message.append(cause.as_str());
                Action::Fail(output::failed(message.as_str()))
            },
            _ => Action::Mutate,
        },
        Event::Mutated(result) => match result {
            Err(error) => Action::Fail(error),
            Ok(changed) => if changed {
                Action::Probe
            } else {
                Action::Done { reloaded: false }
            },
        },
        Event::Probed(result) => match result {
            Ok(_) => Action::Save,
            Err(cause) => Action::Fail(not_valid(cause.as_str())),
        },
        Event::Saved(result) => match result {
            Ok(_) => Action::Look,
            Err(cause) => Action::Fail(
                phase_error(
                    "configuration_save_failed",
                    "could not save the configuration: ",
                    "save",
                    false,
                    cause.as_str(),
                ),
            ),
        },
        Event::Looked(result) => match result {
            Ok(running) => if running {
                Action::Reload
            } else {
                Action::Done { reloaded: false }
            },
            Err(cause) => Action::Fail(
                phase_error(
                    "daemon_state_unknown",
                    "the change was saved, but the state of the daemon is unknown: ",
                    "reload",
                    true,
                    cause.as_str(),
                ),
            ),
        },
        Event::Reloaded(result) => match result {
            Ok(_) => Action::Done { reloaded: true },
            Err(report) => Action::Restore { report },
        },
        Event::Restored { report, result } => match result {
            Ok(_) => Action::Revert { report },
            Err(cause) => {
                let mut message = "reload failed and configuration rollback also failed: ".to_owned();
                message.append(cause.as_str());
                let mut details = Members::new();
                details.put("phase", json::text("rollback"));
                details.put("configuration_changed", Json::Bool(true));
                details.put("rolled_back", Json::Bool(false));
                details.put("cause", json::text(report.as_str()));
                details.put("rollback_cause", json::text(cause.as_str()));
                assert(details@ =~= rollback_failed(report@, cause@).details->Object_0);
                Action::Fail(
                    CommandError::new("rollback_failed", message.as_str(), details.object()),
                )
            },
        },
        Event::Reverted { report } => {
            let mut message =
                "daemon rejected the change; configuration was rolled back: ".to_owned();
            message.append(report.as_str());
            let mut details = Members::new();
            details.put("phase", json::text("reload"));
            details.put("configuration_changed", Json::Bool(false));
            details.put("rolled_back", Json::Bool(true));
            details.put("cause", json::text(report.as_str()));
            assert(details@ =~= rolled_back(report@).details->Object_0);
            Action::Fail(
                CommandError::new("reload_rolled_back", message.as_str(), details.object()),
            )
        },
    }
}

// ---------------------------------------------------------------------------
// Laws
// ---------------------------------------------------------------------------

/// What is saved, and what the gateway serves.
pub struct World {
    pub saved: ConfigModel,
    pub served: ConfigModel,
}

/// What comes of each thing that may be done about a change of the configuration `previous`. A
/// save that fails leaves what was saved, and a reload that fails leaves what was served.
pub struct Course {
    pub previous: ConfigModel,
    /// What came of trying the backend that the change is about, where one had to be tried.
    pub trial: Option<Came>,
    /// What the change makes of the configuration.
    pub mutation: Result<Changed, CommandFault>,
    pub probe: Came,
    pub save: Came,
    pub look: Result<bool, Seq<char>>,
    pub reload: Came,
    pub restore: Came,
    pub revert: Came,
}

/// What the world is in the end, and what the last answer is, where every action is carried
/// out, up to a number of them.
pub open spec fn carried_out(
    course: Course,
    world: World,
    event: EventModel,
    steps: nat,
) -> (World, ActionModel)
    decreases steps,
{
    let action = reaction(event);
    if steps == 0 {
        (world, action)
    } else {
        let rest = (steps - 1) as nat;
        match action {
            ActionModel::Mutate => carried_out(
                course,
                world,
                EventModel::Mutated(
                    match course.mutation {
                        Ok(changed) => Ok(changed.changed),
                        Err(fault) => Err(fault),
                    },
                ),
                rest,
            ),
            ActionModel::Probe => carried_out(
                course,
                world,
                EventModel::Probed(course.probe),
                rest,
            ),
            ActionModel::Save => carried_out(
                course,
                if course.save is Ok {
                    World { saved: course.mutation->Ok_0.config, ..world }
                } else {
                    world
                },
                EventModel::Saved(course.save),
                rest,
            ),
            ActionModel::Look => carried_out(
                course,
                world,
                EventModel::Looked(course.look),
                rest,
            ),
            ActionModel::Reload => carried_out(
                course,
                if course.reload is Ok {
                    World { served: world.saved, ..world }
                } else {
                    world
                },
                EventModel::Reloaded(course.reload),
                rest,
            ),
            ActionModel::Restore { report } => carried_out(
                course,
                if course.restore is Ok {
                    World { saved: course.previous, ..world }
                } else {
                    world
                },
                EventModel::Restored { report, result: course.restore },
                rest,
            ),
            ActionModel::Revert { report } => carried_out(
                course,
                if course.revert is Ok {
                    World { served: world.saved, ..world }
                } else {
                    world
                },
                EventModel::Reverted { report },
                rest,
            ),
            ActionModel::Done { .. } => (world, action),
            ActionModel::Fail(_) => (world, action),
        }
    }
}

/// What a change comes to in the end.
pub open spec fn outcome(course: Course) -> (World, ActionModel) {
    carried_out(
        course,
        World { saved: course.previous, served: course.previous },
        EventModel::Tried(course.trial),
        8,
    )
}

/// A change comes to an end: it is made or it fails. Where it is made and changes anything, it
/// is saved, and the gateway serves it if it runs.
pub proof fn made_changes_are_saved_and_served(course: Course)
    ensures
        outcome(course).1 is Done || outcome(course).1 is Fail,
        outcome(course).1 matches ActionModel::Done { reloaded } ==> {
            &&& course.mutation matches Ok(changed)
            &&& changed.changed ==> {
                &&& outcome(course).0.saved == changed.config
                &&& course.look == Ok::<bool, Seq<char>>(reloaded)
                &&& reloaded ==> outcome(course).0.served == changed.config
            }
        },
{
    reveal_with_fuel(carried_out, 9);
}

/// A change that is about a backend which cannot be read is not made, and neither is one that
/// cannot be made: nothing is saved, and the gateway serves what it served.
pub proof fn what_cannot_be_made_leaves_everything(course: Course)
    requires
        course.trial matches Some(Err(_)) || course.mutation is Err,
    ensures
        outcome(course).0 == (World { saved: course.previous, served: course.previous }),
        course.trial matches Some(Err(cause)) ==> outcome(course).1 == ActionModel::Fail(
            trial_failed(cause),
        ),
        !(course.trial matches Some(Err(_))) ==> outcome(course).1 == ActionModel::Fail(
            course.mutation->Err_0,
        ),
{
    reveal_with_fuel(carried_out, 9);
}

/// A change that changes nothing is neither saved nor told to the gateway, whatever would have
/// come of it.
pub proof fn what_changes_nothing_is_not_saved(course: Course)
    requires
        !(course.trial matches Some(Err(_))),
        course.mutation matches Ok(changed) && !changed.changed,
    ensures
        outcome(course).0 == (World { saved: course.previous, served: course.previous }),
        outcome(course).1 == (ActionModel::Done { reloaded: false }),
{
    reveal_with_fuel(carried_out, 9);
}

/// A change that cannot be tried successfully is never saved, and the error says so.
pub proof fn changes_are_tried_before_they_are_saved(course: Course, cause: Seq<char>)
    requires
        !(course.trial matches Some(Err(_))),
        course.mutation matches Ok(changed) && changed.changed,
        course.probe == Came::Err(cause),
    ensures
        outcome(course).0.saved == course.previous,
        outcome(course).0.served == course.previous,
        outcome(course).1 == ActionModel::Fail(validation_failed(cause)),
{
    reveal_with_fuel(carried_out, 9);
}

/// Whatever goes wrong, a gateway that runs goes on with what it served before.
pub proof fn failed_changes_leave_the_gateway_alone(course: Course)
    requires
        outcome(course).1 is Fail,
    ensures
        outcome(course).0.served == course.previous,
{
    reveal_with_fuel(carried_out, 9);
}

/// A change that the gateway does not accept is taken back: what was saved before is saved
/// again, unless that fails, of which the error tells.
pub proof fn rejected_changes_are_rolled_back(course: Course, report: Seq<char>)
    requires
        !(course.trial matches Some(Err(_))),
        course.mutation matches Ok(changed) && changed.changed,
        course.probe is Ok,
        course.save is Ok,
        course.look == Ok::<bool, Seq<char>>(true),
        course.reload == Came::Err(report),
    ensures
        match course.restore {
            Ok(_) => {
                &&& outcome(course).0.saved == course.previous
                &&& outcome(course).1 == ActionModel::Fail(rolled_back(report))
            },
            Err(cause) => outcome(course).1 == ActionModel::Fail(rollback_failed(report, cause)),
        },
{
    reveal_with_fuel(carried_out, 9);
}

/// Enabling or disabling a backend of a valid configuration that is listed by name changes that
/// backend's flag and nothing else.
pub proof fn switching_changes_one_flag(c: ConfigModel, name: Seq<char>, enabled: bool)
    requires
        validate::valid_config(c),
        validate::arranged(c) == c,
    ensures
        mutation(c, ChangeModel::SetEnabled { name, enabled }) == match registry::place_of(
            c.backends,
            name,
            0,
        ) {
            None => Err::<Changed, CommandFault>(registry::unknown_backend(name)),
            Some(i) => Ok::<Changed, CommandFault>(
                Changed {
                    config: registry::switched(c, i, enabled),
                    changed: c.backends[i].enabled != enabled,
                    removed: Seq::empty(),
                },
            ),
        },
{
    if let Some(i) = registry::place_of(c.backends, name, 0) {
        let s = registry::switched(c, i, enabled);
        registry::switching_keeps_the_place(c, name, enabled);
        registry::switching_back_undoes_switching(c, i, enabled);
        validate::validation_accepts_the_valid(s);
    }
}

/// What enabling or disabling a backend comes to where no gateway runs, the configuration that
/// it makes can be tried and saving works. A name that no backend has is an error, and so is
/// enabling a backend that cannot be read: nothing is saved. A backend that already is as
/// asked for is left alone. In every other case what is saved differs from what was saved
/// before in that backend's flag and nothing else. Doing it again changes nothing.
pub proof fn enabling_is_tried_and_changes_one_flag(
    course: Course,
    name: Seq<char>,
    enabled: bool,
)
    requires
        validate::valid_config(course.previous),
        validate::arranged(course.previous) == course.previous,
        course.mutation == mutation(course.previous, ChangeModel::SetEnabled { name, enabled }),
        course.trial is Some <==> (registry::to_try(course.previous, name, enabled) matches Ok(
            Some(_),
        )),
        course.probe is Ok,
        course.save is Ok,
        course.look == Ok::<bool, Seq<char>>(false),
    ensures
        match registry::place_of(course.previous.backends, name, 0) {
            None => {
                &&& outcome(course).0.saved == course.previous
                &&& outcome(course).1 == ActionModel::Fail(registry::unknown_backend(name))
            },
            Some(i) => match course.trial {
                Some(Err(cause)) => {
                    &&& enabled
                    &&& outcome(course).0.saved == course.previous
                    &&& outcome(course).1 == ActionModel::Fail(trial_failed(cause))
                },
                _ => {
                    let after = registry::switched(course.previous, i, enabled);
                    &&& outcome(course).0.saved == after
                    &&& outcome(course).1 == (ActionModel::Done { reloaded: false })
                    &&& course.previous.backends[i].enabled == enabled ==> after == course.previous
                    &&& mutation(after, ChangeModel::SetEnabled { name, enabled }) == Ok::<
                        Changed,
                        CommandFault,
                    >((Changed { config: after, changed: false, removed: Seq::empty() }))
                },
            },
        },
{
    reveal_with_fuel(carried_out, 9);
    let c = course.previous;
    switching_changes_one_flag(c, name, enabled);
    if let Some(i) = registry::place_of(c.backends, name, 0) {
        let after = registry::switched(c, i, enabled);
        registry::switching_keeps_the_place(c, name, enabled);
        registry::switching_back_undoes_switching(c, i, enabled);
        registry::switching_keeps_the_place(after, name, enabled);
        switching_changes_one_flag(after, name, enabled);
    }
}

/// What a change makes of a configuration is valid and listed by name, whatever the change.
pub proof fn changes_keep_validity(c: ConfigModel, change: ChangeModel)
    ensures
        mutation(c, change) matches Ok(changed) ==> validate::valid_config(changed.config)
            && validate::arranged(changed.config) == changed.config,
{
    if let Ok(changed) = applied(c, change) {
        validate::validation_accepts_the_valid(changed.config);
        validate::arranging_keeps_validity(changed.config);
        validate::arranging_is_idempotent(changed.config);
    }
}

// ---------------------------------------------------------------------------
// Laws of changes and errors
// ---------------------------------------------------------------------------

/// Adding a backend adds that backend and nothing else, under a name that none has: the numbers
/// and the views stay, and each backend is there as often as before. What is added is enabled or
/// not as it was given.
pub proof fn adding_a_backend_adds_it_alone(
    previous: &Config,
    backend: Backend,
    r: Result<Mutation, CommandError>,
)
    requires
        call_ensures(mutate_config, (previous, Change::AddBackend(backend)), r),
    ensures
        r matches Ok(m) ==> {
            &&& m.changed
            &&& m.removed@.len() == 0
            &&& m.updated@.backends.to_multiset() == previous@.backends.push(
                backend@,
            ).to_multiset()
            &&& m.updated@.views.to_multiset() == previous@.views.to_multiset()
            &&& m.updated@ == (ConfigModel {
                backends: m.updated@.backends,
                views: m.updated@.views,
                ..previous@
            })
        },
        (exists|j: int|
            0 <= j < previous@.backends.len() && (#[trigger] previous@.backends[j]).name
                == backend.name@) ==> (r matches Err(error) && error.code@
            == "backend_already_exists"@),
{
    let c = previous@;
    let change = Change::AddBackend(backend);
    registry::backend_places(c.backends, backend@.name);
    lemma_mutation_is_arranged(c, change@);
    if let Ok(m) = r {
        assert(order::models(m.removed@).len() == m.removed@.len());
        assert(m@.config == m.updated@);
    }
}

proof fn lemma_mutation_is_arranged(c: ConfigModel, change: ChangeModel)
    ensures
        mutation(c, change) matches Ok(m) ==> {
            let made = applied(c, change)->Ok_0;
            &&& applied(c, change) is Ok
            &&& m.changed == made.changed
            &&& m.removed == made.removed
            &&& m.config.backends.to_multiset() == made.config.backends.to_multiset()
            &&& m.config.views.to_multiset() == made.config.views.to_multiset()
            &&& m.config == (ConfigModel {
                backends: m.config.backends,
                views: m.config.views,
                ..made.config
            })
        },
{
    if let Ok(made) = applied(c, change) {
        order::stable_sort_keeps_the_items(made.config.backends, Backend::key());
        order::stable_sort_keeps_the_items(made.config.views, LogicalView::key());
    }
}

/// Removing a name takes out the backends of that name, which are told in their order, and
/// nothing else; a name that none has is an error. Removing all takes out all, and changes
/// something exactly where there was one.
pub proof fn removing_takes_out_what_is_named(
    previous: &Config,
    name: String,
    r: Result<Mutation, CommandError>,
    all: Result<Mutation, CommandError>,
)
    requires
        call_ensures(mutate_config, (previous, Change::RemoveBackend(name)), r),
        call_ensures(mutate_config, (previous, Change::RemoveAll), all),
    ensures
        r matches Ok(m) ==> {
            &&& m.changed
            &&& order::models(m.removed@) == previous@.backends.filter(
                |b: BackendModel| b.name == name@,
            )
            &&& m.updated@.backends.to_multiset() == previous@.backends.filter(
                |b: BackendModel| b.name != name@,
            ).to_multiset()
            &&& m.updated@.views.to_multiset() == previous@.views.to_multiset()
        },
        (forall|j: int|
            0 <= j < previous@.backends.len() ==> (#[trigger] previous@.backends[j]).name != name@)
            ==> (r matches Err(error) && error.code@ == "backend_not_found"@),
        all matches Ok(m) ==> {
            &&& m.changed <==> previous.backends@.len() > 0
            &&& order::models(m.removed@) == previous@.backends
            &&& m.updated@.backends.len() == 0
            &&& m.updated@.views.to_multiset() == previous@.views.to_multiset()
        },
{
    let c = previous@;
    let one = Change::RemoveBackend(name);
    let every = Change::RemoveAll;
    registry::removing_parts_the_backends_by_name(c.backends, name@);
    lemma_mutation_is_arranged(c, one@);
    lemma_mutation_is_arranged(c, every@);
    assert(c.backends.len() == previous.backends@.len());
    if let Ok(m) = all {
        assert(m@.config == m.updated@);
        vstd::seq_lib::to_multiset_len(m.updated@.backends);
        vstd::seq_lib::to_multiset_len(Seq::<BackendModel>::empty());
    }
    if let Ok(m) = r {
        assert(m@.config == m.updated@);
    }
}

/// Adding a view adds that view and nothing else, under a name that none has in its schema.
pub proof fn adding_a_view_adds_it_alone(
    previous: &Config,
    view: LogicalView,
    r: Result<Mutation, CommandError>,
)
    requires
        call_ensures(mutate_config, (previous, Change::AddView(view)), r),
    ensures
        r matches Ok(m) ==> {
            &&& m.changed
            &&& m.removed@.len() == 0
            &&& m.updated@.views.to_multiset() == previous@.views.push(view@).to_multiset()
            &&& m.updated@.backends.to_multiset() == previous@.backends.to_multiset()
            &&& m.updated@ == (ConfigModel {
                backends: m.updated@.backends,
                views: m.updated@.views,
                ..previous@
            })
        },
        (exists|j: int|
            0 <= j < previous@.views.len() && (#[trigger] previous@.views[j]).schema
                == view.schema@ && previous@.views[j].name == view.name@) ==> (r matches Err(error)
            && error.code@ == "view_already_exists"@ && (": "@ + view.schema@ + "."@
            + view.name@).is_suffix_of(error.message@) && json::has_member(
            error.details@,
            "name"@,
            JsonModel::Text(view.schema@ + "."@ + view.name@),
        )),
{
    let c = previous@;
    let change = Change::AddView(view);
    registry::places_of_views(c.views, view@.schema, view@.name);
    lemma_mutation_is_arranged(c, change@);
    if let Ok(m) = r {
        assert(order::models(m.removed@).len() == m.removed@.len());
        assert(m@.config == m.updated@);
    }
    if let Err(error) = r {
        if registry::view_place(c.views, view@.schema, view@.name, 0) is Some {
            reveal_strlit("view already exists: ");
            reveal_strlit(": ");
            let told = error.message@;
            let end = ": "@ + view.schema@ + "."@ + view.name@;
            assert(told =~= "view already exists: "@ + view.schema@ + "."@ + view.name@);
            assert(told.skip(told.len() - end.len()) =~= end);
            let members = error.details@->Object_0;
            assert(members[0] == ("name"@, JsonModel::Text(view.schema@ + "."@ + view.name@)));
            json::lemma_member_is_there(members, 0);
        }
    }
}

/// A change whose outcome is not valid is not made. The error says that the configuration is as
/// it was, and why.
pub proof fn invalid_changes_are_refused(
    previous: &Config,
    change: Change,
    error: CommandError,
    made: ConfigModel,
    cause: Seq<char>,
)
    requires
        call_ensures(mutate_config, (previous, change), Err(error)),
        applied(previous@, change@) matches Ok(changed) && changed.config == made,
        validate::validation(made).1 matches Some(found) && defect::defect_text(found) == cause,
    ensures
        tells_phase(
            error,
            "configuration_validation_failed"@,
            "the change was not saved: "@ + cause,
            "validate"@,
            false,
            cause,
        ),
{
    lemma_phase_is_told(error, "validate"@, false, cause);
}

/// Whether an error tells its code and its report, the phase in which a change failed, whether
/// the configuration that is saved has changed, and the cause.
pub open spec fn tells_phase(
    error: CommandError,
    code: Seq<char>,
    report: Seq<char>,
    phase: Seq<char>,
    configuration_changed: bool,
    cause: Seq<char>,
) -> bool {
    &&& error.code@ == code
    &&& error.message@ == report
    &&& json::has_member(error.details@, "phase"@, JsonModel::Text(phase))
    &&& json::has_member(
        error.details@,
        "configuration_changed"@,
        JsonModel::Bool(configuration_changed),
    )
    &&& json::has_member(error.details@, "cause"@, JsonModel::Text(cause))
}

proof fn lemma_phase_is_told(
    error: CommandError,
    phase: Seq<char>,
    configuration_changed: bool,
    cause: Seq<char>,
)
    requires
        error.details@ == JsonModel::Object(
            seq![
                ("phase"@, JsonModel::Text(phase)),
                ("configuration_changed"@, JsonModel::Bool(configuration_changed)),
                ("cause"@, JsonModel::Text(cause)),
            ],
        ),
    ensures
        tells_phase(error, error.code@, error.message@, phase, configuration_changed, cause),
{
    reveal_strlit("phase");
    reveal_strlit("configuration_changed");
    reveal_strlit("cause");
    let members = error.details@->Object_0;
    assert(members[0].0 == "phase"@);
    assert(members[1].0 == "configuration_changed"@);
    assert(members[2].0 == "cause"@);
    assert("phase"@.len() == 5);
    assert("configuration_changed"@.len() == 21);
    assert("cause"@.len() == 5);
    assert("phase"@[0] != "cause"@[0]);
    assert(json::names_differ(members));
    json::lemma_member_is_there(members, 0);
    json::lemma_member_is_there(members, 1);
    json::lemma_member_is_there(members, 2);
}

/// A change goes one way: the backend is tried, the change is made, tried and saved, and a
/// gateway that runs is told. Each step is followed by the next where it succeeded. A failure
/// ends it with an error that tells the phase, whether what is saved has changed, and the cause;
/// only a gateway that does not accept what was saved has it taken back.
pub proof fn each_step_is_followed_by_the_next(event: Event, r: Action)
    requires
        call_ensures(save_and_reload, (event,), r),
    ensures
        event matches Event::Tried(trial) ==> match trial {
            Some(Err(cause)) => r matches Action::Fail(error) && error.code@ == "command_failed"@
                && error.message@ == "backend test failed: "@ + cause@,
            _ => r is Mutate,
        },
        event matches Event::Mutated(result) ==> match result {
            Err(fault) => r matches Action::Fail(error) && error@ == fault@,
            Ok(true) => r is Probe,
            Ok(false) => r matches Action::Done { reloaded } && !reloaded,
        },
        event matches Event::Probed(result) ==> match result {
            Ok(_) => r is Save,
            Err(cause) => r matches Action::Fail(error) && tells_phase(
                error,
                "configuration_validation_failed"@,
                "the change was not saved: "@ + cause@,
                "validate"@,
                false,
                cause@,
            ),
        },
        event matches Event::Saved(result) ==> match result {
            Ok(_) => r is Look,
            Err(cause) => r matches Action::Fail(error) && tells_phase(
                error,
                "configuration_save_failed"@,
                "could not save the configuration: "@ + cause@,
                "save"@,
                false,
                cause@,
            ),
        },
        event matches Event::Looked(result) ==> match result {
            Ok(true) => r is Reload,
            Ok(false) => r matches Action::Done { reloaded } && !reloaded,
            Err(cause) => r matches Action::Fail(error) && tells_phase(
                error,
                "daemon_state_unknown"@,
                "the change was saved, but the state of the daemon is unknown: "@ + cause@,
                "reload"@,
                true,
                cause@,
            ),
        },
        event matches Event::Reloaded(result) ==> match result {
            Ok(_) => r matches Action::Done { reloaded } && reloaded,
            Err(cause) => r matches Action::Restore { report } && report@ == cause@,
        },
        event matches Event::Restored { report, result } ==> match result {
            Ok(_) => r matches Action::Revert { report: kept } && kept@ == report@,
            Err(cause) => r matches Action::Fail(error) && tells_phase(
                error,
                "rollback_failed"@,
                "reload failed and configuration rollback also failed: "@ + cause@,
                "rollback"@,
                true,
                report@,
            ) && json::has_member(error.details@, "rolled_back"@, JsonModel::Bool(false))
                && json::has_member(error.details@, "rollback_cause"@, JsonModel::Text(cause@)),
        },
        event matches Event::Reverted { report } ==> (r matches Action::Fail(error)
            && tells_phase(
            error,
            "reload_rolled_back"@,
            "daemon rejected the change; configuration was rolled back: "@ + report@,
            "reload"@,
            false,
            report@,
        ) && json::has_member(error.details@, "rolled_back"@, JsonModel::Bool(true))),
{
    let model = r@;
    assert(model == reaction(event@));
    match event {
        Event::Probed(Err(cause)) => {
            lemma_phase_is_told(r->Fail_0, "validate"@, false, cause@);
        },
        Event::Saved(Err(cause)) => {
            lemma_phase_is_told(r->Fail_0, "save"@, false, cause@);
        },
        Event::Looked(Err(cause)) => {
            lemma_phase_is_told(r->Fail_0, "reload"@, true, cause@);
        },
        Event::Restored { report, result: Err(cause) } => {
            let error = r->Fail_0;
            reveal_strlit("phase");
            reveal_strlit("configuration_changed");
            reveal_strlit("rolled_back");
            reveal_strlit("cause");
            reveal_strlit("rollback_cause");
            let members = error.details@->Object_0;
            assert(members[0].0 == "phase"@);
            assert(members[1].0 == "configuration_changed"@);
            assert(members[2].0 == "rolled_back"@);
            assert(members[3].0 == "cause"@);
            assert(members[4].0 == "rollback_cause"@);
            assert("phase"@.len() == 5);
            assert("configuration_changed"@.len() == 21);
            assert("rolled_back"@.len() == 11);
            assert("cause"@.len() == 5);
            assert("rollback_cause"@.len() == 14);
            assert("phase"@[0] != "cause"@[0]);
            assert(json::names_differ(members));
            json::lemma_member_is_there(members, 0);
            json::lemma_member_is_there(members, 1);
            json::lemma_member_is_there(members, 2);
            json::lemma_member_is_there(members, 3);
            json::lemma_member_is_there(members, 4);
        },
        Event::Reverted { report } => {
            let error = r->Fail_0;
            reveal_strlit("phase");
            reveal_strlit("configuration_changed");
            reveal_strlit("rolled_back");
            reveal_strlit("cause");
            let members = error.details@->Object_0;
            assert(members[0].0 == "phase"@);
            assert(members[1].0 == "configuration_changed"@);
            assert(members[2].0 == "rolled_back"@);
            assert(members[3].0 == "cause"@);
            assert("phase"@.len() == 5);
            assert("configuration_changed"@.len() == 21);
            assert("rolled_back"@.len() == 11);
            assert("cause"@.len() == 5);
            assert("phase"@[0] != "cause"@[0]);
            assert(json::names_differ(members));
            json::lemma_member_is_there(members, 0);
            json::lemma_member_is_there(members, 1);
            json::lemma_member_is_there(members, 2);
            json::lemma_member_is_there(members, 3);
        },
        _ => {},
    }
}

/// Switching a name is told as a change exactly where the first backend of the name was not as
/// asked for; nothing is removed; and a name that none has is an error.
pub proof fn switching_is_told(
    previous: &Config,
    name: String,
    enabled: bool,
    k: int,
    r: Result<Mutation, CommandError>,
)
    requires
        call_ensures(mutate_config, (previous, Change::SetEnabled { name, enabled }), r),
        0 <= k <= previous@.backends.len(),
        forall|j: int| 0 <= j < k ==> (#[trigger] previous@.backends[j]).name != name@,
        k < previous@.backends.len() ==> previous@.backends[k].name == name@,
    ensures
        k == previous@.backends.len() ==> (r matches Err(error) && error.code@
            == "backend_not_found"@),
        r matches Ok(m) ==> {
            &&& k < previous@.backends.len()
            &&& m.changed <==> previous@.backends[k].enabled != enabled
            &&& m.removed@.len() == 0
            &&& m.updated@.views.to_multiset() == previous@.views.to_multiset()
            &&& m.updated@.backends.to_multiset() == previous@.backends.update(
                k,
                BackendModel { enabled, ..previous@.backends[k] },
            ).to_multiset()
        },
{
    let c = previous@;
    let change = Change::SetEnabled { name, enabled };
    registry::backend_places(c.backends, name@);
    lemma_mutation_is_arranged(c, change@);
    if let Some(i) = registry::place_of(c.backends, name@, 0) {
        assert(c.backends[i].name == name@);
        assert(k <= i);
        if k < i {
            assert(c.backends[k].name == name@);
        }
    }
    if let Ok(m) = r {
        assert(order::models(m.removed@).len() == m.removed@.len());
        assert(m@.config == m.updated@);
    }
}

} // verus!
