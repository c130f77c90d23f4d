//! Starting a project's lead, a stored session, or the session the
//! application opens with.
//!
//! Each start has up to three steps, with outside work between them: what to
//! start, under which slot, and what follows when the start fails.

use crate::launch::{apply_lead_charter, chartered, SessionLaunchSettings};
use crate::protocol::{
    Action, AppError, ServiceSeverity, SessionTarget, SessionUpdate, SpawnRole,
};
use crate::seqs::first_match;
use crate::slot::{lead_slot, slot_text, SessionSlot, SlotId};
use crate::workspace::{declares, nothing_parked, ParkedView, ProjectView, Workspace};
use vstd::prelude::*;

verus! {

/// An agent to start.
#[derive(Debug, PartialEq, Eq)]
pub struct SpawnRequest {
    pub target: SessionTarget,
    pub settings: SessionLaunchSettings,
    /// The slot it is started under, where that is settled.
    pub key: Option<SessionSlot>,
    pub role: SpawnRole,
}

/// What to do, and then which agent to start, if any.
#[derive(Debug, PartialEq, Eq)]
pub struct SpawnStep {
    pub actions: Vec<Action>,
    pub request: Option<SpawnRequest>,
}

/// The failure of a turn that was already shown as begun.
pub open spec fn is_turn_error(action: Action, key: SessionSlot, message: Seq<char>) -> bool {
    action matches Action::Emit(SessionUpdate::TurnError { key: k, message: m, class, terminal_reason })
        && k == key && m@ == message && class is None && terminal_reason is None
}

/// Unwind the turn of a prompt that could not be handed over.
pub fn send_dispatch_turn_error(key: SessionSlot, err: &String) -> (action: Action)
    ensures
        is_turn_error(action, key, err@),
{
    Action::Emit(
        SessionUpdate::TurnError { key, message: err.clone(), class: None, terminal_reason: None },
    )
}

/// A warning for the user.
pub open spec fn is_warning(action: Action, message: Seq<char>) -> bool {
    action matches Action::Emit(SessionUpdate::ServiceStatus { severity, message: m }) && severity
        == ServiceSeverity::Warning && m@ == message
}

/// The failure of a session to start.
pub open spec fn is_connection_failed(
    action: Action,
    key: SessionSlot,
    message: Seq<char>,
    fatal: bool,
) -> bool {
    action matches Action::Emit(SessionUpdate::ConnectionFailed { key: k, message: m, fatal: f })
        && k == key && m@ == message && f == fatal
}

/// The announcement of a session that starts in `project`.
pub open spec fn spawning(key: SessionSlot, project_name: String, project: ProjectView) -> Action {
    Action::Emit(
        SessionUpdate::Spawning {
            key,
            project_name,
            cwd: project.path,
            display_name: project.display_path,
        },
    )
}

/// The expiry of what was parked for a slot.
pub open spec fn is_expiry(action: Action, slot: SessionSlot, parked: ParkedView) -> bool {
    action matches Action::ExpireParked { slot: s, parked: p } && s == slot && p@ == parked
}

/// What a failed start is reported as.
pub open spec fn spawn_failure(err: Seq<char>) -> Seq<char> {
    "agent spawn failed: "@ + err
}

/// What a failed start is reported as.
pub fn spawn_failure_message(err: &String) -> (message: String)
    ensures
        message@ == spawn_failure(err@),
{
    let mut message = "agent spawn failed: ".to_owned();
    message.append(err.as_str());
    message
}

/// `after` is `before` with nothing parked for `slot`.
pub open spec fn parked_taken(before: Workspace, after: Workspace, slot: SlotId) -> bool {
    &&& after == (Workspace { parked: after.parked, ..before })
    &&& after.wf()
    &&& after.parked.at(slot) == nothing_parked()
    &&& forall|other: SlotId|
        other != slot ==> #[trigger] after.parked.at(other) == before.parked.at(other)
}

/// Expire what is parked for a slot.
pub fn expire_parked_for_slot(workspace: &mut Workspace, slot: &SessionSlot) -> (action: Action)
    requires
        old(workspace).wf(),
    ensures
        parked_taken(*old(workspace), *final(workspace), slot@),
        is_expiry(action, *slot, old(workspace).parked.at(slot@)),
{
    let parked = workspace.parked.take(slot);
    Action::ExpireParked { slot: slot.clone(), parked }
}

/// The first step of starting a project's lead.
#[derive(Debug, PartialEq, Eq)]
pub enum SpawnProjectStep {
    /// There is no such project.
    Unknown(Action),
    /// Find the slot of the project's lead; go on with
    /// [`spawn_project_resolved`].
    Resolve { project: ProjectView, settings: SessionLaunchSettings },
}

/// What asking for a project comes to.
pub open spec fn project_asked(
    workspace: Workspace,
    project_name: String,
    launch_settings: SessionLaunchSettings,
    lead_charter: String,
    step: SpawnProjectStep,
) -> bool {
    match (workspace.project_named(project_name@), step) {
        (None, SpawnProjectStep::Unknown(action)) => is_warning(
            action,
            "Unknown project: "@ + project_name@,
        ),
        (Some(view), SpawnProjectStep::Resolve { project, settings }) => project == view
            && settings == chartered(launch_settings, lead_charter),
        _ => false,
    }
}

/// Start the lead of `project_name`, with the charter that every lead has.
pub fn handle_spawn_project(
    workspace: &Workspace,
    project_name: &String,
    launch_settings: SessionLaunchSettings,
    lead_charter: &String,
) -> (step: SpawnProjectStep)
    ensures
        project_asked(*workspace, *project_name, launch_settings, *lead_charter, step),
{
    match workspace.find_project_view_by_name(project_name) {
        None => {
            let mut message = "Unknown project: ".to_owned();
            message.append(project_name.as_str());
            SpawnProjectStep::Unknown(
                Action::Emit(
                    SessionUpdate::ServiceStatus { severity: ServiceSeverity::Warning, message },
                ),
            )
        },
        Some(project) => {
            let mut settings = launch_settings;
            apply_lead_charter(&mut settings, lead_charter);
            SpawnProjectStep::Resolve { project: project.clone(), settings }
        },
    }
}

/// What becomes of a project once its session was resolved, or not.
pub open spec fn project_resolved(
    before: Workspace,
    after: Workspace,
    project_name: String,
    project: ProjectView,
    settings: SessionLaunchSettings,
    resolved: Result<SessionSlot, String>,
    step: SpawnStep,
) -> bool {
    match resolved {
        Ok(key) => {
            &&& after == before
            &&& step.actions@ == seq![spawning(key, project_name, project)]
            &&& step.request == Some(
                SpawnRequest {
                    target: SessionTarget::Named(project_name),
                    settings,
                    key: Some(key),
                    role: SpawnRole::Lead,
                },
            )
        },
        Err(err) => {
            let lead = lead_slot(project.org, project.name);
            &&& parked_taken(before, after, lead@)
            &&& step.actions@.len() == 2
            &&& is_expiry(step.actions@[0], lead, before.parked.at(lead@))
            &&& is_connection_failed(step.actions@[1], lead, spawn_failure(err@), false)
            &&& step.request is None
        },
    }
}

/// Announce the lead under the slot it was resolved to and start it. Where
/// there is no slot, what is parked for the lead expires and the failure is
/// reported; the application goes on.
pub fn spawn_project_resolved(
    workspace: &mut Workspace,
    project_name: &String,
    project: &ProjectView,
    settings: SessionLaunchSettings,
    resolved: Result<SessionSlot, String>,
) -> (step: SpawnStep)
    requires
        old(workspace).wf(),
    ensures
        project_resolved(
            *old(workspace),
            *final(workspace),
            *project_name,
            *project,
            settings,
            resolved,
            step,
        ),
{
    let mut actions: Vec<Action> = Vec::new();
    match resolved {
        Ok(key) => {
            actions.push(
                Action::Emit(
                    SessionUpdate::Spawning {
                        key: key.clone(),
                        project_name: project_name.clone(),
                        cwd: project.path.clone(),
                        display_name: project.display_path.clone(),
                    },
                ),
            );
            assert(actions@ =~= seq![spawning(key, *project_name, *project)]);
            let request = SpawnRequest {
                target: SessionTarget::Named(project_name.clone()),
                settings,
                key: Some(key),
                role: SpawnRole::Lead,
            };
            SpawnStep { actions, request: Some(request) }
        },
        Err(err) => {
            let lead = SessionSlot::lead(&project.org, &project.name);
            actions.push(expire_parked_for_slot(workspace, &lead));
            let message = spawn_failure_message(&err);
            actions.push(
                Action::Emit(SessionUpdate::ConnectionFailed { key: lead, message, fatal: false }),
            );
            SpawnStep { actions, request: None }
        },
    }
}

/// What becomes of a project whose agent did not start.
pub open spec fn project_failed(
    before: Workspace,
    after: Workspace,
    project: ProjectView,
    session_key: SessionSlot,
    err: String,
    actions: Vec<Action>,
) -> bool {
    ({
        let lead = lead_slot(project.org, project.name);
        &&& parked_taken(before, after, lead@)
        &&& actions@.len() == 2
        &&& is_expiry(actions@[0], lead, before.parked.at(lead@))
        &&& is_connection_failed(actions@[1], session_key, spawn_failure(err@), false)
    })
}

/// What follows when a project's lead did not start: what is parked for it
/// expires, and the failure is reported; the application goes on.
pub fn spawn_project_failed(
    workspace: &mut Workspace,
    project: &ProjectView,
    session_key: SessionSlot,
    err: &String,
) -> (actions: Vec<Action>)
    requires
        old(workspace).wf(),
    ensures
        project_failed(
            *old(workspace),
            *final(workspace),
            *project,
            session_key,
            *err,
            actions,
        ),
{
    let mut actions: Vec<Action> = Vec::new();
    let lead = SessionSlot::lead(&project.org, &project.name);
    actions.push(expire_parked_for_slot(workspace, &lead));
    let message = spawn_failure_message(err);
    actions.push(
        Action::Emit(SessionUpdate::ConnectionFailed { key: session_key, message, fatal: false }),
    );
    actions
}

/// What asking for a session comes to.
pub open spec fn session_asked(
    workspace: Workspace,
    slot: SessionSlot,
    role: SpawnRole,
    launch_settings: SessionLaunchSettings,
    step: SpawnStep,
) -> bool {
    match first_match(workspace.projects@, declares(slot@)) {
        Some(project) => step.actions@ == seq![spawning(slot, project.name, project)]
            && step.request == Some(
            SpawnRequest {
                target: SessionTarget::Session(slot),
                settings: launch_settings,
                key: Some(slot),
                role,
            },
        ),
        None => step.actions@.len() == 1 && is_warning(
            step.actions@[0],
            "Session "@ + slot_text(slot) + " names no configured project"@,
        ) && step.request is None,
    }
}

/// Start the session of `slot` again, from what is stored of it.
pub fn handle_spawn_session(
    workspace: &Workspace,
    slot: &SessionSlot,
    role: SpawnRole,
    launch_settings: SessionLaunchSettings,
) -> (step: SpawnStep)
    ensures
        session_asked(*workspace, *slot, role, launch_settings, step),
{
    let mut actions: Vec<Action> = Vec::new();
    match workspace.project_for_slot(slot) {
        Some(project) => {
            actions.push(
                Action::Emit(
                    SessionUpdate::Spawning {
                        key: slot.clone(),
                        project_name: project.name.clone(),
                        cwd: project.path.clone(),
                        display_name: project.display_path.clone(),
                    },
                ),
            );
            assert(actions@ =~= seq![spawning(*slot, project.name, *project)]);
            let request = SpawnRequest {
                target: SessionTarget::Session(slot.clone()),
                settings: launch_settings,
                key: Some(slot.clone()),
                role,
            };
            SpawnStep { actions, request: Some(request) }
        },
        None => {
            let mut message = "Session ".to_owned();
            message.append(slot.display().as_str());
            message.append(" names no configured project");
            actions.push(
                Action::Emit(
                    SessionUpdate::ServiceStatus { severity: ServiceSeverity::Warning, message },
                ),
            );
            SpawnStep { actions, request: None }
        },
    }
}

/// What becomes of a session whose agent did not start.
pub open spec fn session_failed(
    before: Workspace,
    after: Workspace,
    slot: SessionSlot,
    err: String,
    actions: Vec<Action>,
) -> bool {
    &&& parked_taken(before, after, slot@)
    &&& actions@.len() == 2
    &&& is_expiry(actions@[0], slot, before.parked.at(slot@))
    &&& is_connection_failed(actions@[1], slot, spawn_failure(err@), false)
}

/// What follows when a stored session did not start: what is parked for its
/// slot expires, and the failure is reported; the application goes on.
pub fn spawn_session_failed(workspace: &mut Workspace, slot: &SessionSlot, err: &String) -> (
actions: Vec<Action>)
    requires
        old(workspace).wf(),
    ensures
        session_failed(*old(workspace), *final(workspace), *slot, *err, actions),
{
    let mut actions: Vec<Action> = Vec::new();
    actions.push(expire_parked_for_slot(workspace, slot));
    let message = spawn_failure_message(err);
    actions.push(
        Action::Emit(SessionUpdate::ConnectionFailed { key: slot.clone(), message, fatal: false }),
    );
    actions
}

/// What the application opens with.
#[derive(Debug, PartialEq, Eq)]
pub struct StartDefault {
    /// The project whose lead it is, where there is such a project.
    pub lead_project: Option<ProjectView>,
    pub target: SessionTarget,
    pub settings: SessionLaunchSettings,
}

/// What the first start comes to.
pub open spec fn default_asked(
    workspace: Workspace,
    project_name: Option<String>,
    launch_settings: SessionLaunchSettings,
    lead_charter: String,
    start: StartDefault,
) -> bool {
    &&& start.settings == chartered(launch_settings, lead_charter)
    &&& match project_name {
        Some(name) => start.lead_project == workspace.project_named(name@) && start.target
            == SessionTarget::Named(name),
        None => start.lead_project == Some(workspace.default_project) && start.target
            == SessionTarget::Default,
    }
}

/// Open with the lead of the project that is named, or of the default one.
pub fn handle_start_default(
    workspace: &Workspace,
    project_name: Option<String>,
    launch_settings: SessionLaunchSettings,
    lead_charter: &String,
) -> (start: StartDefault)
    ensures
        default_asked(*workspace, project_name, launch_settings, *lead_charter, start),
{
    let mut settings = launch_settings;
    apply_lead_charter(&mut settings, lead_charter);
    match project_name {
        Some(name) => {
            let lead_project = match workspace.find_project_view_by_name(&name) {
                Some(project) => Some(project.clone()),
                None => None,
            };
            StartDefault { lead_project, target: SessionTarget::Named(name), settings }
        },
        None => StartDefault {
            lead_project: Some(workspace.default_project.clone()),
            target: SessionTarget::Default,
            settings,
        },
    }
}

/// The lead's slot of a project; a placeholder where there is none.
pub open spec fn lead_or_unknown(key: SessionSlot, project: Option<ProjectView>) -> bool {
    match project {
        Some(project) => key == lead_slot(project.org, project.name),
        None => key.org@ == "unknown"@ && key.project@ == "unknown"@ && key.label is None,
    }
}

/// The report of a failure that ends the application.
pub open spec fn is_fatal_report(actions: Seq<Action>, key: SessionSlot, err: Seq<char>) -> bool {
    &&& actions.len() == 2
    &&& is_connection_failed(actions[0], key, spawn_failure(err), true)
    &&& actions[1] == Action::Emit(SessionUpdate::FatalError(AppError::ConnectionFailed))
}

/// The report of a failure that ends the application.
fn fatal_report(key: SessionSlot, err: &String) -> (actions: Vec<Action>)
    ensures
        is_fatal_report(actions@, key, err@),
{
    let mut actions: Vec<Action> = Vec::new();
    let message = spawn_failure_message(err);
    actions.push(Action::Emit(SessionUpdate::ConnectionFailed { key, message, fatal: true }));
    actions.push(Action::Emit(SessionUpdate::FatalError(AppError::ConnectionFailed)));
    actions
}

/// What becomes of the first start once its session was resolved, or not.
pub open spec fn default_resolved(
    start: StartDefault,
    resolved: Result<SessionSlot, String>,
    step: SpawnStep,
) -> bool {
    match resolved {
        Ok(key) => step.actions@.len() == 0 && step.request == Some(
            SpawnRequest {
                target: start.target,
                settings: start.settings,
                key: Some(key),
                role: SpawnRole::Lead,
            },
        ),
        Err(err) => step.request is None && exists|key: SessionSlot| #[trigger]
            lead_or_unknown(key, start.lead_project) && is_fatal_report(
                step.actions@,
                key,
                err@,
            ),
    }
}

/// Start the opening session under the slot it was resolved to; without one
/// the application ends.
pub fn start_default_resolved(start: StartDefault, resolved: Result<SessionSlot, String>) -> (step:
    SpawnStep)
    ensures
        default_resolved(start, resolved, step),
{
    match resolved {
        Ok(key) => {
            let request = SpawnRequest {
                target: start.target,
                settings: start.settings,
                key: Some(key),
                role: SpawnRole::Lead,
            };
            SpawnStep { actions: Vec::new(), request: Some(request) }
        },
        Err(err) => {
            let key = match &start.lead_project {
                Some(project) => SessionSlot::lead(&project.org, &project.name),
                None => SessionSlot {
                    org: "unknown".to_owned(),
                    project: "unknown".to_owned(),
                    label: None,
                },
            };
            assert(lead_or_unknown(key, start.lead_project));
            let actions = fatal_report(key, &err);
            SpawnStep { actions, request: None }
        },
    }
}

/// What becomes of the first start where the agent did not start.
pub open spec fn default_failed(
    before: Workspace,
    after: Workspace,
    lead_project: Option<ProjectView>,
    session_key: SessionSlot,
    err: String,
    actions: Vec<Action>,
) -> bool {
    match lead_project {
        Some(project) => {
            let lead = lead_slot(project.org, project.name);
            &&& parked_taken(before, after, lead@)
            &&& actions@.len() == 3
            &&& is_expiry(actions@[0], lead, before.parked.at(lead@))
            &&& is_fatal_report(actions@.skip(1), session_key, err@)
        },
        None => after == before && is_fatal_report(
            actions@,
            session_key,
            err@,
        ),
    }
}

/// What follows when the opening session did not start: what is parked for
/// the project's lead expires, and the application ends.
pub fn start_default_failed(
    workspace: &mut Workspace,
    lead_project: &Option<ProjectView>,
    session_key: SessionSlot,
    err: &String,
) -> (actions: Vec<Action>)
    requires
        old(workspace).wf(),
    ensures
        default_failed(
            *old(workspace),
            *final(workspace),
            *lead_project,
            session_key,
            *err,
            actions,
        ),
{
    let mut actions: Vec<Action> = Vec::new();
    match lead_project {
        Some(project) => {
            let lead = SessionSlot::lead(&project.org, &project.name);
            actions.push(expire_parked_for_slot(workspace, &lead));
        },
        None => {},
    }
    let mut report = fatal_report(session_key, err);
    let ghost reported = report@;
    actions.append(&mut report);
    proof {
        if *lead_project is Some {
            assert(actions@.skip(1) =~= reported);
        } else {
            assert(actions@ =~= reported);
        }
    }
    actions
}

/// A browser that did not open.
pub fn open_url_failed(url: &String, err: &String) -> (action: Action)
    ensures
        is_warning(action, "Failed to open "@ + url@ + ": "@ + err@),
{
    let mut message = "Failed to open ".to_owned();
    message.append(url.as_str());
    message.append(": ");
    message.append(err.as_str());
    Action::Emit(SessionUpdate::ServiceStatus { severity: ServiceSeverity::Warning, message })
}

/// A project is found by its name, and its lead gets the charter of leads
/// unless it brings its own; one that is not known is warned of by its name.
pub proof fn a_known_project_is_resolved(
    workspace: Workspace,
    project_name: String,
    launch_settings: SessionLaunchSettings,
    lead_charter: String,
    step: SpawnProjectStep,
)
    requires
        project_asked(workspace, project_name, launch_settings, lead_charter, step),
    ensures
        match workspace.project_named(project_name@) {
            Some(view) => {
                &&& step matches SpawnProjectStep::Resolve { project, settings }
                &&& project == view
                &&& settings.extra_args == launch_settings.extra_args
                &&& settings.settings == launch_settings.settings
                &&& launch_settings.charter is Some ==> settings.charter == launch_settings.charter
                &&& launch_settings.charter is None ==> settings.charter == Some(lead_charter)
            },
            None => {
                &&& step matches SpawnProjectStep::Unknown(
                    Action::Emit(SessionUpdate::ServiceStatus { severity, message }),
                )
                &&& severity == ServiceSeverity::Warning
                &&& message@ == "Unknown project: "@ + project_name@
            },
        },
{
}

/// A project whose session is resolved is announced in its directory and
/// started there as a lead; nothing changes. Where the session cannot be
/// resolved, what waited for the lead is failed, all of it, and the failure is
/// told under the lead's slot; what waits for others waits on.
pub proof fn a_resolved_project_is_started(
    before: Workspace,
    after: Workspace,
    project_name: String,
    project: ProjectView,
    settings: SessionLaunchSettings,
    resolved: Result<SessionSlot, String>,
    step: SpawnStep,
)
    requires
        project_resolved(before, after, project_name, project, settings, resolved, step),
    ensures
        resolved matches Ok(slot) ==> {
            &&& after == before
            &&& step.actions@.len() == 1
            &&& step.actions@[0] == Action::Emit(
                SessionUpdate::Spawning {
                    key: slot,
                    project_name,
                    cwd: project.path,
                    display_name: project.display_path,
                },
            )
            &&& step.request matches Some(request)
            &&& request.target == SessionTarget::Named(project_name)
            &&& request.settings == settings
            &&& request.key == Some(slot)
            &&& request.role == SpawnRole::Lead
        },
        resolved matches Err(reason) ==> {
            let lead = SessionSlot { org: project.org, project: project.name, label: None };
            &&& step.request is None
            &&& step.actions@.len() == 2
            &&& step.actions@[0] matches Action::ExpireParked { slot, parked }
            &&& slot == lead
            &&& parked@ == before.parked.at(lead@)
            &&& step.actions@[1] matches Action::Emit(
                SessionUpdate::ConnectionFailed { key, message, fatal },
            )
            &&& key == lead
            &&& message@ == "agent spawn failed: "@ + reason@
            &&& !fatal
            &&& after.parked.at(lead@).peer.len() == 0
            &&& after.parked.at(lead@).cron.len() == 0
            &&& after.parked.at(lead@).gotify.len() == 0
            &&& after.parked.at(lead@).slack.len() == 0
            &&& forall|other: SlotId|
                other != lead@ ==> #[trigger] after.parked.at(other) == before.parked.at(other)
            &&& after == (Workspace { parked: after.parked, ..before })
        },
{
}

/// Where a project's agent did not start, what waited for the lead is failed
/// and the failure is told under the session's slot.
pub proof fn a_failed_project_fails_what_waited(
    before: Workspace,
    after: Workspace,
    project: ProjectView,
    session_key: SessionSlot,
    err: String,
    actions: Vec<Action>,
)
    requires
        project_failed(before, after, project, session_key, err, actions),
    ensures
        ({
            let lead = SessionSlot { org: project.org, project: project.name, label: None };
            &&& actions@.len() == 2
            &&& actions@[0] matches Action::ExpireParked { slot, parked }
            &&& slot == lead
            &&& parked@ == before.parked.at(lead@)
            &&& actions@[1] matches Action::Emit(
                SessionUpdate::ConnectionFailed { key, message, fatal },
            )
            &&& key == session_key
            &&& message@ == "agent spawn failed: "@ + err@
            &&& !fatal
            &&& after.parked.at(lead@).peer.len() == 0
            &&& after.parked.at(lead@).cron.len() == 0
            &&& after.parked.at(lead@).gotify.len() == 0
            &&& after.parked.at(lead@).slack.len() == 0
            &&& forall|other: SlotId|
                other != lead@ ==> #[trigger] after.parked.at(other) == before.parked.at(other)
        }),
{
}

/// A session is started in the directory of the first project that its slot
/// names, under that slot and in its role; one of no project is warned of.
pub proof fn a_session_starts_in_its_projects_directory(
    workspace: Workspace,
    slot: SessionSlot,
    role: SpawnRole,
    launch_settings: SessionLaunchSettings,
    step: SpawnStep,
    i: int,
)
    requires
        session_asked(workspace, slot, role, launch_settings, step),
    ensures
        0 <= i < workspace.projects@.len() && workspace.projects@[i].org@ == slot.org@
            && workspace.projects@[i].name@ == slot.project@ && (forall|j: int|
            0 <= j < i ==> (#[trigger] workspace.projects@[j]).org@ != slot.org@
                || workspace.projects@[j].name@ != slot.project@) ==> {
            let project = workspace.projects@[i];
            &&& step.actions@.len() == 1
            &&& step.actions@[0] == Action::Emit(
                SessionUpdate::Spawning {
                    key: slot,
                    project_name: project.name,
                    cwd: project.path,
                    display_name: project.display_path,
                },
            )
            &&& step.request matches Some(request)
            &&& request.target == SessionTarget::Session(slot)
            &&& request.settings == launch_settings
            &&& request.key == Some(slot)
            &&& request.role == role
        },
        (forall|j: int|
            0 <= j < workspace.projects@.len() ==> (#[trigger] workspace.projects@[j]).org@
                != slot.org@ || workspace.projects@[j].name@ != slot.project@)
            ==> step.request is None && step.actions@.len() == 1 && (
        step.actions@[0] matches Action::Emit(
            SessionUpdate::ServiceStatus { severity, message },
        ) && severity == ServiceSeverity::Warning),
{
    let p = declares(slot@);
    if 0 <= i < workspace.projects@.len() && p(workspace.projects@[i]) && (forall|j: int|
        0 <= j < i ==> (#[trigger] workspace.projects@[j]).org@ != slot.org@
            || workspace.projects@[j].name@ != slot.project@) {
        assert forall|j: int| 0 <= j < i implies !p(#[trigger] workspace.projects@[j]) by {}
        crate::seqs::lemma_first_index_is(workspace.projects@, p, i);
    }
    if crate::seqs::any(workspace.projects@, p) {
        let k = choose|k: int|
            0 <= k < workspace.projects@.len() && p(#[trigger] workspace.projects@[k]);
        assert(workspace.projects@[k].org@ == slot.org@);
    }
}

/// Where a session's agent did not start, what waited for it is failed and the
/// failure is told, both under its slot; what waits for others waits on.
pub proof fn a_failed_session_fails_what_waited(
    before: Workspace,
    after: Workspace,
    slot: SessionSlot,
    err: String,
    actions: Vec<Action>,
)
    requires
        session_failed(before, after, slot, err, actions),
    ensures
        actions@.len() == 2,
        actions@[0] matches Action::ExpireParked { slot: s, parked } && s == slot && parked@
            == before.parked.at(slot@),
        actions@[1] matches Action::Emit(
            SessionUpdate::ConnectionFailed { key, message, fatal },
        ) && key == slot && message@ == "agent spawn failed: "@ + err@ && !fatal,
        after.parked.at(slot@).peer.len() == 0,
        after.parked.at(slot@).cron.len() == 0,
        after.parked.at(slot@).gotify.len() == 0,
        after.parked.at(slot@).slack.len() == 0,
        forall|other: SlotId|
            other != slot@ ==> #[trigger] after.parked.at(other) == before.parked.at(other),
{
}

/// The first start goes for the project that was named, or for the default
/// one, with the charter of leads unless it brings its own.
pub proof fn the_first_start_is_of_the_named_project(
    workspace: Workspace,
    project_name: Option<String>,
    launch_settings: SessionLaunchSettings,
    lead_charter: String,
    start: StartDefault,
)
    requires
        default_asked(workspace, project_name, launch_settings, lead_charter, start),
    ensures
        project_name matches Some(name) ==> start.lead_project == workspace.project_named(name@)
            && start.target == SessionTarget::Named(name),
        project_name is None ==> start.lead_project == Some(workspace.default_project)
            && start.target == SessionTarget::Default,
        start.settings.extra_args == launch_settings.extra_args,
        start.settings.settings == launch_settings.settings,
        launch_settings.charter is Some ==> start.settings.charter == launch_settings.charter,
        launch_settings.charter is None ==> start.settings.charter == Some(lead_charter),
{
}

/// The first start that resolves is started as a lead under its slot; one that
/// does not is told as a failure of the project's lead, and ends the
/// application.
pub proof fn the_first_start_is_fatal_where_it_fails(
    start: StartDefault,
    resolved: Result<SessionSlot, String>,
    step: SpawnStep,
)
    requires
        default_resolved(start, resolved, step),
    ensures
        resolved matches Ok(slot) ==> {
            &&& step.actions@.len() == 0
            &&& step.request matches Some(request)
            &&& request.target == start.target
            &&& request.settings == start.settings
            &&& request.key == Some(slot)
            &&& request.role == SpawnRole::Lead
        },
        resolved matches Err(reason) ==> {
            &&& step.request is None
            &&& step.actions@.len() == 2
            &&& step.actions@[0] matches Action::Emit(
                SessionUpdate::ConnectionFailed { key, message, fatal },
            )
            &&& message@ == "agent spawn failed: "@ + reason@
            &&& fatal
            &&& key.label is None
            &&& start.lead_project matches Some(project) ==> key.org == project.org && key.project
                == project.name
            &&& step.actions@[1] == Action::Emit(
                SessionUpdate::FatalError(AppError::ConnectionFailed),
            )
        },
{
}

/// Where the agent of the first start did not start, what waited for the lead
/// is failed, the failure is told under the session's slot, and the
/// application ends.
pub proof fn a_failed_first_start_ends_the_application(
    before: Workspace,
    after: Workspace,
    lead_project: Option<ProjectView>,
    session_key: SessionSlot,
    err: String,
    actions: Vec<Action>,
)
    requires
        default_failed(before, after, lead_project, session_key, err, actions),
    ensures
        actions@.len() >= 2,
        actions@.last() == Action::Emit(SessionUpdate::FatalError(AppError::ConnectionFailed)),
        actions@[actions@.len() - 2] matches Action::Emit(
            SessionUpdate::ConnectionFailed { key, message, fatal },
        ) && key == session_key && message@ == "agent spawn failed: "@ + err@ && fatal,
        lead_project is None ==> actions@.len() == 2 && after == before,
        lead_project matches Some(project) ==> {
            let lead = SessionSlot { org: project.org, project: project.name, label: None };
            &&& actions@.len() == 3
            &&& actions@[0] matches Action::ExpireParked { slot, parked }
            &&& slot == lead
            &&& parked@ == before.parked.at(lead@)
            &&& after.parked.at(lead@).peer.len() == 0
            &&& after.parked.at(lead@).cron.len() == 0
            &&& after.parked.at(lead@).gotify.len() == 0
            &&& after.parked.at(lead@).slack.len() == 0
            &&& forall|other: SlotId|
                other != lead@ ==> #[trigger] after.parked.at(other) == before.parked.at(other)
        },
{
    if lead_project is Some {
        assert(actions@.skip(1)[0] == actions@[1]);
        assert(actions@.skip(1)[1] == actions@[2]);
    }
}

/// A turn that could not be begun is unwound under its session's slot with the
/// reason, and without a class.
pub proof fn a_turn_error_names_its_session(
    action: Action,
    slot: SessionSlot,
    reason: Seq<char>,
)
    requires
        is_turn_error(action, slot, reason),
    ensures
        action matches Action::Emit(
            SessionUpdate::TurnError { key, message, class, terminal_reason },
        ) && key == slot && message@ == reason && class is None && terminal_reason is None,
{
}

} // verus!
