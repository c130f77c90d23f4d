//! One session: what its agent reports, what it is told to do, and what it
//! gets when it connects.

use crate::deliver::{
    bundle_prose, cron_text, deliver_cron_now, deliver_gotify_now, deliver_peer_now,
    gotify_delivery, is_cron_delivery, peer_delivery, push_slack_message_into_chat, slack_prose,
    slack_message_to_prose,
};
use crate::order::{text_less, TextMap};
use crate::protocol::{
    Action, AgentCommand, AgentEvent, Command, CurrentModel, DictateOverrides, GotifyNotification,
    InteractionKind, PendingCron, RateLimitStatus, RuntimeSessionState, SdkMessage, SessionUpdate,
    SlackMessage, WireValue, WrappedPrompt,
};
use crate::seqs::{any, last_match};
use crate::slot::{clone_option, SessionSlot};
use crate::spawn::is_turn_error;
use crate::workers::{labelled, of_project, LiveWorker};
use crate::workspace::Workspace;
use vstd::prelude::*;

verus! {

/// What the workspace mirrors of a session.
#[derive(Debug, PartialEq, Eq)]
pub struct DomainSession {
    pub key: SessionSlot,
    /// The id it runs under, once it has connected.
    pub session_id: Option<String>,
    pub runtime_state: Option<RuntimeSessionState>,
    /// A turn was begun and has not ended.
    pub turn_pending: bool,
    /// What it waits for the user to answer, by the id of the tool call.
    pub pending_interactions: TextMap<InteractionKind>,
    pub dictate_overrides: DictateOverrides,
    /// It was started anew on request, and its workers with it.
    pub spawned_force_new: bool,
    /// Its spawn wrote its row.
    pub spawn_wrote_row: bool,
}

impl DomainSession {
    pub fn new(key: SessionSlot) -> (domain: Self)
        ensures
            domain.wf(),
            domain.key == key,
            domain.session_id is None,
            domain.runtime_state is None,
            !domain.turn_pending,
            domain.pending_interactions@ == Map::<Seq<char>, InteractionKind>::empty(),
            domain.dictate_overrides.changed is None,
            !domain.spawned_force_new,
            !domain.spawn_wrote_row,
    {
        DomainSession {
            key,
            session_id: None,
            runtime_state: None,
            turn_pending: false,
            pending_interactions: TextMap::new(),
            dictate_overrides: DictateOverrides { changed: None },
            spawned_force_new: false,
            spawn_wrote_row: false,
        }
    }

    pub open spec fn wf(self) -> bool {
        self.pending_interactions.wf()
    }
}

/// What an event says of the session's state.
pub open spec fn event_applied(domain: DomainSession, event: AgentEvent) -> DomainSession {
    match event {
        AgentEvent::ConnectionFailed { .. } => DomainSession {
            runtime_state: None,
            turn_pending: false,
            ..domain
        },
        AgentEvent::Connected { session_id, .. } => DomainSession {
            session_id: Some(session_id),
            runtime_state: None,
            turn_pending: false,
            ..domain
        },
        AgentEvent::SdkMessage { msg: SdkMessage::System { subtype, state: Some(state), .. } } => {
            if subtype@ == "session_state_changed"@ {
                DomainSession { runtime_state: Some(state), ..domain }
            } else {
                domain
            }
        },
        _ => domain,
    }
}

/// Mirror what an event says of the session's state.
pub fn apply_event_to_domain(domain: &mut DomainSession, event: &AgentEvent)
    ensures
        *final(domain) == event_applied(*old(domain), *event),
{
    match event {
        AgentEvent::ConnectionFailed { .. } => {
            domain.runtime_state = None;
            domain.turn_pending = false;
        },
        AgentEvent::Connected { session_id, .. } => {
            domain.session_id = Some(session_id.clone());
            domain.runtime_state = None;
            domain.turn_pending = false;
        },
        AgentEvent::SdkMessage { msg } => {
            match msg {
                SdkMessage::System { subtype, state, .. } => {
                    let changed = "session_state_changed".to_owned();
                    match state {
                        Some(state) => {
                            if *subtype == changed {
                                domain.runtime_state = Some(*state);
                            }
                        },
                        None => {},
                    }
                },
                _ => {},
            }
        },
        _ => {},
    }
}

/// What a project declares of its models: the ones to offer, and the one its
/// sessions run.
#[derive(Debug, PartialEq, Eq)]
pub struct DeclaredModels {
    pub available: Vec<WireValue>,
    pub canonical: Option<String>,
}

/// A model under the name that its project declares.
pub open spec fn model_named(model: CurrentModel, canonical: Option<String>) -> CurrentModel {
    match canonical {
        Some(name) => CurrentModel {
            requested_id: Some(name),
            display_name_short: name,
            display_name_long: name,
            ..model
        },
        None => model,
    }
}

/// What a connection is told as where the project declares its models.
pub open spec fn models_declared(
    event: AgentEvent,
    declared: Option<DeclaredModels>,
    declared_event: AgentEvent,
) -> bool {
    match (event, declared_event) {
        (
            AgentEvent::Connected {
                session_id,
                cwd,
                current_model,
                available_models: _,
                mode,
                history_updates,
                compaction_count,
            },
            AgentEvent::Connected {
                session_id: id,
                cwd: dir,
                current_model: model,
                available_models,
                mode: m,
                history_updates: h,
                compaction_count: c,
            },
        ) => {
            &&& id == session_id
            &&& dir == cwd
            &&& m == mode
            &&& h == history_updates
            &&& c == compaction_count
            &&& model == model_named(
                current_model,
                match declared {
                    Some(declared) => declared.canonical,
                    None => None,
                },
            )
            &&& match declared {
                Some(declared) => available_models == declared.available,
                None => available_models@.len() == 0,
            }
        },
        _ => declared_event == event && !(event is Connected),
    }
}

/// Offer the models that the project declares in place of those that the
/// agent reports when it connects, and call the session's model by its
/// declared name. Without a workspace there are none to offer.
pub fn declared_models_for_session(event: AgentEvent, declared: Option<DeclaredModels>) -> (
declared_event: AgentEvent)
    ensures
        models_declared(event, declared, declared_event),
{
    match event {
        AgentEvent::Connected {
            session_id,
            cwd,
            current_model,
            available_models: _,
            mode,
            history_updates,
            compaction_count,
        } => {
            let (available_models, canonical) = match declared {
                Some(declared) => (declared.available, declared.canonical),
                None => (Vec::new(), None),
            };
            let mut current_model = current_model;
            match canonical {
                Some(name) => {
                    current_model.requested_id = Some(name.clone());
                    current_model.display_name_short = name.clone();
                    current_model.display_name_long = name;
                },
                None => {},
            }
            AgentEvent::Connected {
                session_id,
                cwd,
                current_model,
                available_models,
                mode,
                history_updates,
                compaction_count,
            }
        },
        other => other,
    }
}

/// What the connection of a lead asks for: to bring the workers of its
/// project back, where none is there yet.
pub open spec fn respawn_hook(workspace: Workspace, slot: SessionSlot, force_new: bool) -> Seq<
    Action,
> {
    match (slot.label, workspace.project_named(slot.project@)) {
        (None, Some(project)) => if any(workspace.live_workers@, of_project(project.key@)) {
            Seq::empty()
        } else {
            seq![Action::RespawnWorkers { slot, project_key: project.key, force_new }]
        },
        _ => Seq::empty(),
    }
}

/// Bring the workers of a project back when its lead connects.
pub fn maybe_respawn_workers_on_connected(
    workspace: &Workspace,
    slot: &SessionSlot,
    force_new: bool,
) -> (actions: Vec<Action>)
    ensures
        actions@ == respawn_hook(*workspace, *slot, force_new),
{
    let mut actions: Vec<Action> = Vec::new();
    if !slot.is_lead() {
        return actions;
    }
    match workspace.find_project_view_by_name(&slot.project) {
        Some(project) => {
            if workspace.live_workers.is_empty_for(&project.key) {
                actions.push(
                    Action::RespawnWorkers {
                        slot: slot.clone(),
                        project_key: project.key.clone(),
                        force_new,
                    },
                );
            }
        },
        None => {},
    }
    assert(actions@ =~= respawn_hook(*workspace, *slot, force_new));
    actions
}

/// What the connection of a worker asks for: its first turn, where it was
/// spawned with one.
pub open spec fn kick_hook(workspace: Workspace, slot: SessionSlot) -> Seq<Action> {
    match (slot.label, workspace.project_named(slot.project@)) {
        (Some(label), Some(project)) => match last_match(
            workspace.live_workers@,
            labelled(project.key@, label@),
        ) {
            Some(worker) => match worker.entry.kick {
                Some(kick) => seq![Action::EnqueueKick { slot, prompt_body: kick }],
                None => Seq::empty(),
            },
            None => Seq::empty(),
        },
        _ => Seq::empty(),
    }
}

/// Give a worker its first turn when it connects.
pub fn maybe_kick_worker_on_connected(workspace: &Workspace, slot: &SessionSlot) -> (actions: Vec<
    Action,
>)
    ensures
        actions@ == kick_hook(*workspace, *slot),
{
    let mut actions: Vec<Action> = Vec::new();
    match (&slot.label, workspace.find_project_view_by_name(&slot.project)) {
        (Some(label), Some(project)) => {
            match workspace.live_workers.latest(&project.key, label) {
                Some(entry) => {
                    match &entry.kick {
                        Some(kick) => {
                            actions.push(
                                Action::EnqueueKick {
                                    slot: slot.clone(),
                                    prompt_body: kick.clone(),
                                },
                            );
                        },
                        None => {},
                    }
                },
                None => {},
            }
        },
        _ => {},
    }
    assert(actions@ =~= kick_hook(*workspace, *slot));
    actions
}

/// A session, with the agent that runs it.
#[derive(Debug, PartialEq, Eq)]
pub struct SessionTask {
    pub key: SessionSlot,
    /// It has connected; another connection replaces the session.
    pub connected_once: bool,
    pub domain: DomainSession,
}

/// How a session goes on after an event.
#[derive(Debug, PartialEq, Eq)]
pub enum Afterwards {
    Running,
    /// Its agent is gone.
    Stopped,
    /// It waits for an answer. One that cannot be asked for is given up by
    /// [`SessionTask::interaction_unsent`].
    Await { session_id: String, tool_call_id: String, kind: InteractionKind },
}

/// What an event asks for, and how the session goes on.
#[derive(Debug, PartialEq, Eq)]
pub struct Translation {
    pub actions: Vec<Action>,
    pub afterwards: Afterwards,
}

/// The update that an event is passed on as, where that is all there is to
/// it.
pub open spec fn passed_on(key: SessionSlot, event: AgentEvent) -> Option<SessionUpdate> {
    match event {
        AgentEvent::AuthRequired { method_name, method_description } => Some(
            SessionUpdate::AuthRequired { key, method_name, method_description },
        ),
        AgentEvent::McpOperationError { error } => Some(
            SessionUpdate::McpOperationError { key, error },
        ),
        AgentEvent::RuntimeReloadCompleted => Some(SessionUpdate::RuntimeReloadCompleted { key }),
        AgentEvent::RuntimeReloadFailed { message } => Some(
            SessionUpdate::RuntimeReloadFailed { key, message },
        ),
        AgentEvent::SetModeFailed { mode, message } => Some(
            SessionUpdate::SetModeFailed { key, mode, message },
        ),
        AgentEvent::SetModelFailed { model, message } => Some(
            SessionUpdate::SetModelFailed { key, model, message },
        ),
        AgentEvent::TurnError { message } => Some(
            SessionUpdate::TurnError { key, message, class: None, terminal_reason: None },
        ),
        AgentEvent::SessionsListed { sessions } => Some(
            SessionUpdate::SessionsListed { key, sessions },
        ),
        AgentEvent::StatusSnapshot { account, forge_account } => Some(
            SessionUpdate::StatusSnapshot { key, account, forge_account },
        ),
        AgentEvent::OauthCredentialsSnapshot { credentials } => Some(
            SessionUpdate::OauthCredentialsSnapshot { key, credentials },
        ),
        AgentEvent::ContextUsage { percentage, max_tokens } => Some(
            SessionUpdate::ContextUsageSnapshot { key, percentage, max_tokens },
        ),
        AgentEvent::McpSnapshot { servers, error } => Some(
            SessionUpdate::McpSnapshot { key, servers, error },
        ),
        AgentEvent::HookObservation {
            tool_use_id,
            permission_mode,
            effort,
            agent_id,
            agent_type,
        } => Some(
            SessionUpdate::HookObservation {
                key,
                tool_use_id,
                permission_mode,
                effort,
                agent_id,
                agent_type,
            },
        ),
        _ => None,
    }
}

/// What is asked of a workspace that still stands.
pub open spec fn if_standing(standing: bool, action: Action) -> Seq<Action> {
    if standing {
        seq![action]
    } else {
        Seq::empty()
    }
}

/// List a session that connected among its project's. A worker is listed
/// elsewhere.
pub open spec fn catalog_mirror(
    workspace: Option<&Workspace>,
    key: SessionSlot,
    session_id: String,
    cwd: String,
) -> Seq<Action> {
    match workspace {
        Some(workspace) => if cwd@.len() > 0 && !any(
            workspace.live_workers@,
            |w: LiveWorker| w.entry.slot@ == key@,
        ) {
            seq![Action::RecordConnectedSession { cwd, session_id }]
        } else {
            Seq::empty()
        },
        None => Seq::empty(),
    }
}

/// What comes before the news of a connection.
pub open spec fn before_connected(
    task: SessionTask,
    workspace: Option<&Workspace>,
    session_id: String,
    cwd: String,
) -> Seq<Action> {
    let standing = workspace is Some;
    let key = task.key;
    catalog_mirror(workspace, key, session_id, cwd) + (if task.connected_once {
        if_standing(standing, Action::ExpireTargetInflight { key }) + if_standing(
            standing,
            Action::DrainReviewActivity { caller: task.domain.key },
        )
    } else {
        match workspace {
            Some(workspace) => respawn_hook(*workspace, key, task.domain.spawned_force_new)
                + kick_hook(*workspace, key),
            None => Seq::<Action>::empty(),
        }
    }) + if_standing(standing, Action::NoteRunningSessionId { key, session_id })
}

/// What comes after the news of a connection. A row that the spawn made may
/// be taken away with it; a replaced session's row is older.
pub open spec fn after_connected(
    task: SessionTask,
    workspace: Option<&Workspace>,
    session_id: String,
    cwd: String,
) -> Seq<Action> {
    let standing = workspace is Some;
    let key = task.key;
    (if task.connected_once {
        seq![
            Action::Emit(
                SessionUpdate::DictateOverrides {
                    key,
                    overrides: DictateOverrides { changed: None },
                },
            ),
        ]
    } else {
        if_standing(standing, Action::DrainParked { slot: key })
    }) + if_standing(
        standing,
        Action::ApplyWorkerTag {
            key,
            session_id,
            cwd,
            minted_row: !task.connected_once && task.domain.spawn_wrote_row,
        },
    )
}

/// The history that a connection brings.
pub open spec fn history_of(history_updates: Option<Vec<WireValue>>) -> Seq<WireValue> {
    match history_updates {
        Some(history) => history@,
        None => Seq::empty(),
    }
}

/// The news of a connection: of the session, or of the one that replaces it.
pub open spec fn is_connection_news(
    action: Action,
    task: SessionTask,
    event: AgentEvent,
) -> bool {
    event matches AgentEvent::Connected {
        session_id,
        cwd,
        current_model,
        available_models,
        mode,
        history_updates,
        compaction_count,
    } && if task.connected_once {
        action matches Action::Emit(
            SessionUpdate::SessionReplaced {
                key,
                session_id: id,
                cwd: dir,
                current_model: model,
                available_models: models,
                mode: m,
                history,
                compaction_count: c,
            },
        ) && key == task.key && id == session_id && dir == cwd && model == current_model && models
            == available_models && m == mode && history@ == history_of(history_updates) && c
            == compaction_count
    } else {
        action matches Action::Emit(
            SessionUpdate::Connected {
                key,
                session_id: id,
                cwd: dir,
                current_model: model,
                available_models: models,
                mode: m,
                history,
                compaction_count: c,
            },
        ) && key == task.key && id == session_id && dir == cwd && model == current_model && models
            == available_models && m == mode && history@ == history_of(history_updates) && c
            == compaction_count
    }
}

/// `actions` are `before`, the news of a connection, and `after`.
pub open spec fn are_around_news(
    actions: Seq<Action>,
    before: Seq<Action>,
    task: SessionTask,
    event: AgentEvent,
    after: Seq<Action>,
) -> bool {
    &&& actions.len() == before.len() + 1 + after.len()
    &&& actions.take(before.len() as int) == before
    &&& is_connection_news(actions[before.len() as int], task, event)
    &&& actions.skip(before.len() as int + 1) == after
}

/// What the failure of an agent to connect asks for.
pub open spec fn connection_failed_actions(
    task: SessionTask,
    standing: bool,
    message: String,
    kind: crate::protocol::SpawnFailureKind,
) -> Seq<Action> {
    let key = task.key;
    if_standing(standing, Action::DrainReviewActivity { caller: task.domain.key }) + (if standing {
        seq![
            Action::ExpireTargetInflight { key },
            Action::ExpireParkedForSlot { slot: key },
            Action::AsyncWorkerSpawnFailure { key, message, kind },
        ]
    } else {
        Seq::<Action>::empty()
    }) + seq![
        Action::Emit(SessionUpdate::ConnectionFailed { key, message, fatal: false }),
    ] + if_standing(standing, Action::ReleaseSessionIfCurrent { slot: key })
}

/// What a rate limit that is not far off asks for: to cool the account of the
/// session down, until the limit is reset.
pub open spec fn rate_limit_report(task: SessionTask, standing: bool, msg: SdkMessage) -> Seq<
    Action,
> {
    match (msg, task.domain.session_id) {
        (SdkMessage::RateLimitEvent { status, resets_at, .. }, Some(session_id)) => if standing
            && status != RateLimitStatus::Allowed {
            seq![
                Action::ReportRateLimit {
                    org: task.key.org,
                    project: task.key.project,
                    session_id,
                    reset_at: match resets_at {
                        Some(at) => if at >= 0 {
                            Some(at as u64)
                        } else {
                            None
                        },
                        None => None,
                    },
                },
            ]
        } else {
            Seq::empty()
        },
        _ => Seq::empty(),
    }
}

/// A message that ends a turn.
pub open spec fn ends_turn(msg: SdkMessage) -> bool {
    msg is Result || msg is Error
}

/// What a message of the agent asks for.
pub open spec fn message_actions(task: SessionTask, standing: bool, msg: SdkMessage) -> Seq<Action> {
    rate_limit_report(task, standing, msg) + (if ends_turn(msg) {
        if_standing(standing, Action::DrainReviewActivity { caller: task.domain.key })
    } else {
        Seq::<Action>::empty()
    }) + seq![Action::Emit(SessionUpdate::ChatAppended { key: task.key, msg })]
}

/// `after` is the session after a connection: nothing waits for an answer of
/// a session that was replaced, and its dictation is back at the defaults.
pub open spec fn is_connected_task(
    before: SessionTask,
    after: SessionTask,
    event: AgentEvent,
) -> bool {
    let domain = event_applied(before.domain, event);
    &&& after.key == before.key
    &&& after.connected_once
    &&& if before.connected_once {
        after.domain == (DomainSession {
            pending_interactions: after.domain.pending_interactions,
            dictate_overrides: DictateOverrides { changed: None },
            ..domain
        }) && after.domain.pending_interactions@ == Map::<Seq<char>, InteractionKind>::empty()
    } else {
        after.domain == domain
    }
}

/// `after` is `before` waiting for one more answer.
pub open spec fn waits_for(
    before: SessionTask,
    after: SessionTask,
    tool_call_id: Seq<char>,
    kind: InteractionKind,
) -> bool {
    &&& after == (SessionTask { domain: after.domain, ..before })
    &&& after.domain == (DomainSession {
        pending_interactions: after.domain.pending_interactions,
        ..before.domain
    })
    &&& after.domain.pending_interactions@ == before.domain.pending_interactions@.insert(
        tool_call_id,
        kind,
    )
}

/// What an event of the agent comes to: `after` is the task then,
/// `translation` what is to be done.
pub open spec fn translated(
    before: SessionTask,
    after: SessionTask,
    workspace: Option<&Workspace>,
    event: AgentEvent,
    translation: Translation,
) -> bool {
    match event {
        AgentEvent::Connected { session_id, cwd, .. } => {
            &&& is_connected_task(before, after, event)
            &&& are_around_news(
                translation.actions@,
                before_connected(before, workspace, session_id, cwd),
                before,
                event,
                after_connected(before, workspace, session_id, cwd),
            )
            &&& translation.afterwards == Afterwards::Running
        },
        AgentEvent::ConnectionFailed { message, kind } => {
            &&& after == (SessionTask {
                domain: event_applied(before.domain, event),
                ..before
            })
            &&& translation.actions@ == connection_failed_actions(
                before,
                workspace is Some,
                message,
                kind,
            )
            &&& translation.afterwards == Afterwards::Stopped
        },
        AgentEvent::PermissionRequest { session_id, tool_call_id, request } => {
            &&& waits_for(
                before,
                after,
                tool_call_id@,
                InteractionKind::Permission,
            )
            &&& translation.actions@ == seq![
                Action::Emit(
                    SessionUpdate::PermissionRequest {
                        key: before.key,
                        tool_id: tool_call_id,
                        request,
                    },
                ),
            ]
            &&& translation.afterwards == (Afterwards::Await {
                session_id,
                tool_call_id,
                kind: InteractionKind::Permission,
            })
        },
        AgentEvent::QuestionRequest { session_id, tool_call_id, request } => {
            &&& waits_for(
                before,
                after,
                tool_call_id@,
                InteractionKind::Question,
            )
            &&& translation.actions@ == seq![
                Action::Emit(
                    SessionUpdate::QuestionRequest {
                        key: before.key,
                        tool_id: tool_call_id,
                        request,
                    },
                ),
            ]
            &&& translation.afterwards == (Afterwards::Await {
                session_id,
                tool_call_id,
                kind: InteractionKind::Question,
            })
        },
        AgentEvent::SdkMessage { msg } => {
            let domain = event_applied(before.domain, event);
            &&& after == (SessionTask {
                domain: DomainSession {
                    turn_pending: domain.turn_pending && !ends_turn(msg),
                    ..domain
                },
                ..before
            })
            &&& translation.actions@ == message_actions(before, workspace is Some, msg)
            &&& translation.afterwards == Afterwards::Running
        },
        _ => {
            &&& after == before
            &&& passed_on(before.key, event) matches Some(update)
            &&& translation.actions@ == seq![Action::Emit(update)]
            &&& translation.afterwards == Afterwards::Running
        },
    }
}

impl SessionTask {
    pub open spec fn wf(self) -> bool {
        self.domain.wf()
    }

    /// Take an event of the agent in: mirror what it says, pass it on, and
    /// ask the workspace, while it stands, for what follows from it.
    pub fn translate_event(&mut self, workspace: Option<&Workspace>, event: AgentEvent) -> (
    translation: Translation)
        requires
            old(self).wf(),
        ensures
            final(self).wf(),
            translated(*old(self), *final(self), workspace, event, translation),
    {
        let ghost before = *self;
        apply_event_to_domain(&mut self.domain, &event);
        let standing = workspace.is_some();
        match event {
            AgentEvent::Connected {
                session_id,
                cwd,
                current_model,
                available_models,
                mode,
                history_updates,
                compaction_count,
            } => self.connected(
                workspace,
                session_id,
                cwd,
                current_model,
                available_models,
                mode,
                history_updates,
                compaction_count,
                Ghost(before),
            ),
            AgentEvent::ConnectionFailed { message, kind } => {
                let mut actions: Vec<Action> = Vec::new();
                if standing {
                    actions.push(
                        Action::DrainReviewActivity { caller: self.domain.key.clone() },
                    );
                    actions.push(Action::ExpireTargetInflight { key: self.key.clone() });
                    actions.push(Action::ExpireParkedForSlot { slot: self.key.clone() });
                    actions.push(
                        Action::AsyncWorkerSpawnFailure {
                            key: self.key.clone(),
                            message: message.clone(),
                            kind,
                        },
                    );
                }
                let ghost given = message;
                actions.push(
                    Action::Emit(
                        SessionUpdate::ConnectionFailed {
                            key: self.key.clone(),
                            message,
                            fatal: false,
                        },
                    ),
                );
                if standing {
                    actions.push(Action::ReleaseSessionIfCurrent { slot: self.key.clone() });
                }
                assert(actions@ =~= connection_failed_actions(before, standing, given, kind));
                Translation { actions, afterwards: Afterwards::Stopped }
            },
            AgentEvent::PermissionRequest { session_id, tool_call_id, request } => {
                self.domain.pending_interactions.insert(
                    tool_call_id.clone(),
                    InteractionKind::Permission,
                );
                let update = SessionUpdate::PermissionRequest {
                    key: self.key.clone(),
                    tool_id: tool_call_id.clone(),
                    request,
                };
                Translation {
                    actions: one_action(Action::Emit(update)),
                    afterwards: Afterwards::Await {
                        session_id,
                        tool_call_id,
                        kind: InteractionKind::Permission,
                    },
                }
            },
            AgentEvent::QuestionRequest { session_id, tool_call_id, request } => {
                self.domain.pending_interactions.insert(
                    tool_call_id.clone(),
                    InteractionKind::Question,
                );
                let update = SessionUpdate::QuestionRequest {
                    key: self.key.clone(),
                    tool_id: tool_call_id.clone(),
                    request,
                };
                Translation {
                    actions: one_action(Action::Emit(update)),
                    afterwards: Afterwards::Await {
                        session_id,
                        tool_call_id,
                        kind: InteractionKind::Question,
                    },
                }
            },
            AgentEvent::SdkMessage { msg } => self.message(standing, msg, Ghost(before)),
            other => Translation {
                actions: pass_on(&self.key, other),
                afterwards: Afterwards::Running,
            },
        }
    }

    /// Take a connection in. The event is mirrored already; `before` is the
    /// session without it.
    fn connected(
        &mut self,
        workspace: Option<&Workspace>,
        session_id: String,
        cwd: String,
        current_model: CurrentModel,
        available_models: Vec<WireValue>,
        mode: Option<WireValue>,
        history_updates: Option<Vec<WireValue>>,
        compaction_count: u64,
        Ghost(before): Ghost<SessionTask>,
    ) -> (translation: Translation)
        requires
            before.wf(),
            *old(self) == (SessionTask {
                domain: event_applied(
                    before.domain,
                    AgentEvent::Connected {
                        session_id,
                        cwd,
                        current_model,
                        available_models,
                        mode,
                        history_updates,
                        compaction_count,
                    },
                ),
                ..before
            }),
        ensures
            final(self).wf(),
            ({
                let event = AgentEvent::Connected {
                    session_id,
                    cwd,
                    current_model,
                    available_models,
                    mode,
                    history_updates,
                    compaction_count,
                };
                &&& is_connected_task(before, *final(self), event)
                &&& are_around_news(
                    translation.actions@,
                    before_connected(before, workspace, session_id, cwd),
                    before,
                    event,
                    after_connected(before, workspace, session_id, cwd),
                )
            }),
            translation.afterwards == Afterwards::Running,
    {
        let ghost event = AgentEvent::Connected {
            session_id,
            cwd,
            current_model,
            available_models,
            mode,
            history_updates,
            compaction_count,
        };
        let ghost first = before_connected(before, workspace, session_id, cwd);
        let ghost last = after_connected(before, workspace, session_id, cwd);
        let replacing = self.connected_once;
        let standing = workspace.is_some();
        let minted_row = !replacing && self.domain.spawn_wrote_row;
        let mut actions = self.before_news(workspace, &session_id, &cwd, Ghost(before));
        if replacing {
            self.domain.pending_interactions = TextMap::new();
            self.domain.dictate_overrides = DictateOverrides { changed: None };
        } else {
            self.connected_once = true;
        }
        let id = session_id.clone();
        let dir = cwd.clone();
        let history = match history_updates {
            Some(history) => history,
            None => Vec::new(),
        };
        let key = self.key.clone();
        let news = if replacing {
            SessionUpdate::SessionReplaced {
                key,
                session_id,
                cwd,
                current_model,
                available_models,
                mode,
                history,
                compaction_count,
            }
        } else {
            SessionUpdate::Connected {
                key,
                session_id,
                cwd,
                current_model,
                available_models,
                mode,
                history,
                compaction_count,
            }
        };
        actions.push(Action::Emit(news));
        let ghost up_to_news = actions@;
        if replacing {
            actions.push(
                Action::Emit(
                    SessionUpdate::DictateOverrides {
                        key: self.key.clone(),
                        overrides: DictateOverrides { changed: None },
                    },
                ),
            );
        } else if standing {
            actions.push(Action::DrainParked { slot: self.key.clone() });
        }
        if standing {
            actions.push(
                Action::ApplyWorkerTag {
                    key: self.key.clone(),
                    session_id: id,
                    cwd: dir,
                    minted_row,
                },
            );
        }
        proof {
            let n = first.len() as int;
            assert(actions@ =~= up_to_news + last);
            assert(actions@.take(n) =~= first);
            assert(actions@.skip(n + 1) =~= last);
            assert(is_connection_news(actions@[n], before, event));
        }
        Translation { actions, afterwards: Afterwards::Running }
    }

    /// What comes before the news of a connection.
    fn before_news(
        &self,
        workspace: Option<&Workspace>,
        session_id: &String,
        cwd: &String,
        Ghost(before): Ghost<SessionTask>,
    ) -> (actions: Vec<Action>)
        requires
            self.key == before.key,
            self.connected_once == before.connected_once,
            self.domain.key == before.domain.key,
            self.domain.spawned_force_new == before.domain.spawned_force_new,
        ensures
            actions@ == before_connected(before, workspace, *session_id, *cwd),
    {
        let mut actions: Vec<Action> = Vec::new();
        match workspace {
            Some(workspace) => {
                if !cwd.as_str().is_empty() && !workspace.live_workers.holds_slot(&self.key) {
                    actions.push(
                        Action::RecordConnectedSession {
                            cwd: cwd.clone(),
                            session_id: session_id.clone(),
                        },
                    );
                }
                assert(actions@ =~= catalog_mirror(Some(workspace), self.key, *session_id, *cwd));
                if self.connected_once {
                    actions.push(Action::ExpireTargetInflight { key: self.key.clone() });
                    actions.push(
                        Action::DrainReviewActivity { caller: self.domain.key.clone() },
                    );
                } else {
                    let mut respawn = maybe_respawn_workers_on_connected(
                        workspace,
                        &self.key,
                        self.domain.spawned_force_new,
                    );
                    actions.append(&mut respawn);
                    let mut kick = maybe_kick_worker_on_connected(workspace, &self.key);
                    actions.append(&mut kick);
                }
                actions.push(
                    Action::NoteRunningSessionId {
                        key: self.key.clone(),
                        session_id: session_id.clone(),
                    },
                );
            },
            None => {},
        }
        assert(actions@ =~= before_connected(before, workspace, *session_id, *cwd));
        actions
    }

    /// Take a message of the agent in. The event is mirrored already;
    /// `before` is the session without it.
    fn message(&mut self, standing: bool, msg: SdkMessage, Ghost(before): Ghost<SessionTask>) -> (
    translation: Translation)
        requires
            before.wf(),
            *old(self) == (SessionTask {
                domain: event_applied(before.domain, AgentEvent::SdkMessage { msg }),
                ..before
            }),
        ensures
            final(self).wf(),
            *final(self) == (SessionTask {
                domain: DomainSession {
                    turn_pending: old(self).domain.turn_pending && !ends_turn(msg),
                    ..old(self).domain
                },
                ..before
            }),
            translation.actions@ == message_actions(before, standing, msg),
            translation.afterwards == Afterwards::Running,
    {
        let ghost given = msg;
        let mut actions: Vec<Action> = Vec::new();
        match &msg {
            SdkMessage::RateLimitEvent { status, resets_at, .. } => {
                if standing && *status != RateLimitStatus::Allowed {
                    let reset_at: Option<u64> = match resets_at {
                        Some(at) => if *at >= 0 {
                            Some(*at as u64)
                        } else {
                            None
                        },
                        None => None,
                    };
                    match &self.domain.session_id {
                        Some(session_id) => {
                            actions.push(
                                Action::ReportRateLimit {
                                    org: self.key.org.clone(),
                                    project: self.key.project.clone(),
                                    session_id: session_id.clone(),
                                    reset_at,
                                },
                            );
                        },
                        None => {},
                    }
                }
            },
            _ => {},
        }
        assert(actions@ =~= rate_limit_report(before, standing, given));
        let ends = match &msg {
            SdkMessage::Result { .. } => true,
            SdkMessage::Error { .. } => true,
            _ => false,
        };
        if ends {
            self.domain.turn_pending = false;
            if standing {
                actions.push(Action::DrainReviewActivity { caller: self.domain.key.clone() });
            }
        }
        actions.push(
            Action::Emit(SessionUpdate::ChatAppended { key: self.key.clone(), msg }),
        );
        assert(actions@ =~= message_actions(before, standing, given));
        Translation { actions, afterwards: Afterwards::Running }
    }
}

/// One action.
fn one_action(action: Action) -> (actions: Vec<Action>)
    ensures
        actions@ == seq![action],
{
    let mut actions: Vec<Action> = Vec::new();
    actions.push(action);
    assert(actions@ =~= seq![action]);
    actions
}

/// Pass an event on as the update that it is.
fn pass_on(key: &SessionSlot, event: AgentEvent) -> (actions: Vec<Action>)
    requires
        passed_on(*key, event) is Some,
    ensures
        passed_on(*key, event) matches Some(update) && actions@ == seq![Action::Emit(update)],
{
    let key = key.clone();
    let mut actions: Vec<Action> = Vec::new();
    match event {
        AgentEvent::AuthRequired { method_name, method_description } => {
            actions.push(
                Action::Emit(
                    SessionUpdate::AuthRequired { key, method_name, method_description },
                ),
            );
        },
        AgentEvent::McpOperationError { error } => {
            actions.push(Action::Emit(SessionUpdate::McpOperationError { key, error }));
        },
        AgentEvent::RuntimeReloadCompleted => {
            actions.push(Action::Emit(SessionUpdate::RuntimeReloadCompleted { key }));
        },
        AgentEvent::RuntimeReloadFailed { message } => {
            actions.push(Action::Emit(SessionUpdate::RuntimeReloadFailed { key, message }));
        },
        AgentEvent::SetModeFailed { mode, message } => {
            actions.push(Action::Emit(SessionUpdate::SetModeFailed { key, mode, message }));
        },
        AgentEvent::SetModelFailed { model, message } => {
            actions.push(Action::Emit(SessionUpdate::SetModelFailed { key, model, message }));
        },
        AgentEvent::TurnError { message } => {
            actions.push(
                Action::Emit(
                    SessionUpdate::TurnError { key, message, class: None, terminal_reason: None },
                ),
            );
        },
        AgentEvent::SessionsListed { sessions } => {
            actions.push(Action::Emit(SessionUpdate::SessionsListed { key, sessions }));
        },
        AgentEvent::StatusSnapshot { account, forge_account } => {
            actions.push(
                Action::Emit(SessionUpdate::StatusSnapshot { key, account, forge_account }),
            );
        },
        AgentEvent::OauthCredentialsSnapshot { credentials } => {
            actions.push(
                Action::Emit(SessionUpdate::OauthCredentialsSnapshot { key, credentials }),
            );
        },
        AgentEvent::ContextUsage { percentage, max_tokens } => {
            actions.push(
                Action::Emit(SessionUpdate::ContextUsageSnapshot { key, percentage, max_tokens }),
            );
        },
        AgentEvent::McpSnapshot { servers, error } => {
            actions.push(Action::Emit(SessionUpdate::McpSnapshot { key, servers, error }));
        },
        AgentEvent::HookObservation {
            tool_use_id,
            permission_mode,
            effort,
            agent_id,
            agent_type,
        } => {
            actions.push(
                Action::Emit(
                    SessionUpdate::HookObservation {
                        key,
                        tool_use_id,
                        permission_mode,
                        effort,
                        agent_id,
                        agent_type,
                    },
                ),
            );
        },
        _ => {},
    }
    assert(passed_on(key, event) matches Some(update) && actions@ =~= seq![Action::Emit(update)]);
    actions
}

/// `after` is `before` with nothing waiting under `tool_id`.
pub open spec fn waits_no_more(before: SessionTask, after: SessionTask, tool_id: Seq<char>) -> bool {
    &&& after == (SessionTask { domain: after.domain, ..before })
    &&& after.domain == (DomainSession {
        pending_interactions: after.domain.pending_interactions,
        ..before.domain
    })
    &&& after.domain.pending_interactions@ == before.domain.pending_interactions@.remove(tool_id)
}

/// An answer of this kind is waited for under `tool_id`.
pub open spec fn awaits(task: SessionTask, tool_id: Seq<char>, kind: InteractionKind) -> bool {
    task.domain.pending_interactions@.dom().contains(tool_id)
        && task.domain.pending_interactions@[tool_id] == kind
}

/// What becomes of a command.
#[derive(Debug, PartialEq, Eq)]
pub enum CommandStep {
    /// Nothing: nobody waits for this answer, or the command is not for a
    /// session.
    Nothing,
    /// Give the answer to the tool call that waits for it.
    Answer { tool_id: String, outcome: WireValue },
    /// Tell the agent. A session that starts anew first gets the settings of
    /// the id it will run under.
    Send { command: AgentCommand, stamp: Option<String> },
    /// It cannot be done.
    Failed(Action),
}

/// Said of a command for an agent that has not connected.
pub open spec fn no_session_message(command: Seq<char>) -> Seq<char> {
    "no active session: "@ + command
}

/// The command cannot be done before the session has connected.
pub fn warn_no_session(command: &str) -> (message: String)
    ensures
        message@ == no_session_message(command@),
{
    let mut message = "no active session: ".to_owned();
    message.append(command);
    message
}

/// The name of a command that needs a session that has connected.
pub open spec fn session_command(command: Command) -> Option<Seq<char>> {
    match command {
        Command::Prompt { .. } => Some("Prompt"@),
        Command::Cancel => Some("Cancel"@),
        Command::SetMode { .. } => Some("SetMode"@),
        Command::SetModel { .. } => Some("SetModel"@),
        Command::ReconnectMcpServer { .. } => Some("ReconnectMcpServer"@),
        Command::ToggleMcpServer { .. } => Some("ToggleMcpServer"@),
        _ => None,
    }
}

/// What an agent is told for a command, where it is told anything.
pub open spec fn agent_command(
    session_id: String,
    new_session_id: Option<String>,
    command: Command,
) -> Option<AgentCommand> {
    match command {
        Command::Prompt { text, attachments } => Some(
            AgentCommand::Prompt { session_id, text, attachments },
        ),
        Command::Cancel => Some(AgentCommand::Cancel { session_id }),
        Command::SetMode { mode } => Some(AgentCommand::SetMode { session_id, mode }),
        Command::SetModel { model } => Some(AgentCommand::SetModel { session_id, model }),
        Command::NewSession { cwd, launch_settings } => Some(
            AgentCommand::NewSession { session_id: new_session_id, cwd, launch_settings },
        ),
        Command::ResumeSession { session_id: resumed, cwd, launch_settings } => Some(
            AgentCommand::ResumeSession { session_id: resumed, cwd, launch_settings },
        ),
        Command::ReconnectMcpServer { server_name } => Some(
            AgentCommand::ReconnectMcpServer { session_id, server_name },
        ),
        Command::ToggleMcpServer { server_name, enabled } => Some(
            AgentCommand::ToggleMcpServer { session_id, server_name, enabled },
        ),
        _ => None,
    }
}

/// What the agent is told where it is given a command.
pub open spec fn told_of(
    session_id: Option<String>,
    new_session_id: Option<String>,
    command: Command,
    told: Result<Option<AgentCommand>, String>,
) -> bool {
    match (told, session_command(command)) {
        (Err(message), Some(name)) => session_id is None && message@ == no_session_message(
            name,
        ),
        (Ok(told), Some(_)) => session_id is Some && told == agent_command(
            session_id->0,
            new_session_id,
            command,
        ),
        (Ok(told), None) => forall|id: String| told == #[trigger] agent_command(
            id,
            new_session_id,
            command,
        ),
        (Err(_), None) => false,
    }
}

/// What an agent is told for a command. Most need the id of a session that
/// has connected; to start a session does not. Answers and what is for the
/// workspace tell the agent nothing.
pub fn execute_command_via_handle(
    session_id: &Option<String>,
    new_session_id: Option<String>,
    command: Command,
) -> (told: Result<Option<AgentCommand>, String>)
    ensures
        told_of(*session_id, new_session_id, command, told),
{
    match command {
        Command::Prompt { text, attachments } => match session_id {
            Some(id) => Ok(
                Some(AgentCommand::Prompt { session_id: id.clone(), text, attachments }),
            ),
            None => Err(warn_no_session("Prompt")),
        },
        Command::Cancel => match session_id {
            Some(id) => Ok(Some(AgentCommand::Cancel { session_id: id.clone() })),
            None => Err(warn_no_session("Cancel")),
        },
        Command::SetMode { mode } => match session_id {
            Some(id) => Ok(Some(AgentCommand::SetMode { session_id: id.clone(), mode })),
            None => Err(warn_no_session("SetMode")),
        },
        Command::SetModel { model } => match session_id {
            Some(id) => Ok(Some(AgentCommand::SetModel { session_id: id.clone(), model })),
            None => Err(warn_no_session("SetModel")),
        },
        Command::NewSession { cwd, launch_settings } => Ok(
            Some(AgentCommand::NewSession { session_id: new_session_id, cwd, launch_settings }),
        ),
        Command::ResumeSession { session_id: resumed, cwd, launch_settings } => Ok(
            Some(AgentCommand::ResumeSession { session_id: resumed, cwd, launch_settings }),
        ),
        Command::ReconnectMcpServer { server_name } => match session_id {
            Some(id) => Ok(
                Some(AgentCommand::ReconnectMcpServer { session_id: id.clone(), server_name }),
            ),
            None => Err(warn_no_session("ReconnectMcpServer")),
        },
        Command::ToggleMcpServer { server_name, enabled } => match session_id {
            Some(id) => Ok(
                Some(AgentCommand::ToggleMcpServer { session_id: id.clone(), server_name, enabled }),
            ),
            None => Err(warn_no_session("ToggleMcpServer")),
        },
        Command::RespondPermission { .. } => Ok(None),
        Command::RespondQuestion { .. } => Ok(None),
        Command::App { .. } => Ok(None),
    }
}

/// A command with the charter that is stored for the session, where it starts
/// anew: the charter of a worker would be lost with its conversation.
pub open spec fn recharged(command: Command, stored_charter: Option<String>) -> Command {
    match (command, stored_charter) {
        (Command::NewSession { cwd, launch_settings }, Some(charter)) => Command::NewSession {
            cwd,
            launch_settings: crate::launch::SessionLaunchSettings {
                charter: Some(charter),
                ..launch_settings
            },
        },
        _ => command,
    }
}

/// The id that a session runs under once a command started it anew, while the
/// workspace stands.
pub open spec fn respawn_id(command: Command, fresh: Option<String>, standing: bool) -> Option<
    String,
> {
    if !standing {
        None
    } else {
        match command {
            Command::NewSession { .. } => fresh,
            Command::ResumeSession { session_id, .. } => Some(session_id),
            _ => None,
        }
    }
}

/// `step` is what becomes of a command that is no answer.
pub open spec fn is_command_step(
    step: CommandStep,
    task: SessionTask,
    command: Command,
    standing: bool,
    fresh: Option<String>,
    stored_charter: Option<String>,
) -> bool {
    match (session_command(command), task.domain.session_id) {
        (Some(name), None) => step matches CommandStep::Failed(action) && is_turn_error(
            action,
            task.key,
            no_session_message(name),
        ),
        (Some(_), Some(id)) => step matches CommandStep::Send { command: told, stamp } && Some(told)
            == agent_command(id, None, command) && stamp is None,
        (None, _) => match command {
            Command::App { .. } => step == CommandStep::Nothing,
            _ => step matches CommandStep::Send { command: told, stamp } && (forall|id: String|
                Some(told) == #[trigger] agent_command(
                    id,
                    fresh,
                    recharged(command, stored_charter),
                )) && stamp == respawn_id(command, fresh, standing),
        },
    }
}

/// What a command comes to: `after` is the task then, `step` what is to be
/// done.
pub open spec fn commanded(
    before: SessionTask,
    after: SessionTask,
    command: Command,
    standing: bool,
    fresh: Option<String>,
    stored_charter: Option<String>,
    step: CommandStep,
) -> bool {
    match command {
        Command::RespondPermission { tool_id, outcome } => if awaits(
            before,
            tool_id@,
            InteractionKind::Permission,
        ) {
            waits_no_more(before, after, tool_id@) && step
                == (CommandStep::Answer { tool_id, outcome })
        } else {
            after == before && step == CommandStep::Nothing
        },
        Command::RespondQuestion { tool_id, outcome } => if awaits(
            before,
            tool_id@,
            InteractionKind::Question,
        ) {
            waits_no_more(before, after, tool_id@) && step
                == (CommandStep::Answer { tool_id, outcome })
        } else {
            after == before && step == CommandStep::Nothing
        },
        _ => after == before && is_command_step(
            step,
            before,
            command,
            standing,
            fresh,
            stored_charter,
        ),
    }
}

/// What is to be done once a session's task is dropped.
pub open spec fn task_dropped(
    this: SessionTask,
    standing: bool,
    actions: Vec<Action>,
) -> bool {
    actions@ == if standing {
        seq![
            Action::DrainReviewActivity { caller: this.domain.key },
            Action::ExpireTargetInflight { key: this.key },
        ]
    } else {
        Seq::<Action>::empty()
    }
}

/// What is to be done once a session's agent was started.
pub open spec fn task_started(
    this: SessionTask,
    has_events: bool,
    display_name: Option<String>,
    actions: Vec<Action>,
) -> bool {
    if !has_events {
        actions@.len() == 1 && crate::spawn::is_connection_failed(
            actions@[0],
            this.key,
            "agent event receiver unavailable"@,
            false,
        )
    } else {
        actions@ == match display_name {
            Some(display_name) => seq![
                Action::Emit(
                    SessionUpdate::ForgeAccountIdentity { key: this.key, display_name },
                ),
            ],
            None => Seq::<Action>::empty(),
        }
    }
}

impl SessionTask {
    /// Do what the session is told. An answer is only taken by a tool call
    /// that waits for that kind of answer; another leaves it waiting. For a
    /// session that starts anew, `fresh` is the id that was recorded for it
    /// and `stored_charter` the charter that is stored for its slot.
    pub fn execute_command(
        &mut self,
        command: Command,
        standing: bool,
        fresh: Option<String>,
        stored_charter: Option<String>,
    ) -> (step: CommandStep)
        requires
            old(self).wf(),
        ensures
            final(self).wf(),
            commanded(
                *old(self),
                *final(self),
                command,
                standing,
                fresh,
                stored_charter,
                step,
            ),
    {
        match command {
            Command::RespondPermission { tool_id, outcome } => {
                if self.take_interaction(&tool_id, InteractionKind::Permission) {
                    CommandStep::Answer { tool_id, outcome }
                } else {
                    CommandStep::Nothing
                }
            },
            Command::RespondQuestion { tool_id, outcome } => {
                if self.take_interaction(&tool_id, InteractionKind::Question) {
                    CommandStep::Answer { tool_id, outcome }
                } else {
                    CommandStep::Nothing
                }
            },
            other => self.tell_agent(other, standing, fresh, stored_charter),
        }
    }

    /// Take what waits under `tool_id`, if it waits for this kind of answer.
    fn take_interaction(&mut self, tool_id: &String, kind: InteractionKind) -> (taken: bool)
        requires
            old(self).wf(),
        ensures
            final(self).wf(),
            taken == awaits(*old(self), tool_id@, kind),
            if taken {
                waits_no_more(*old(self), *final(self), tool_id@)
            } else {
                *final(self) == *old(self)
            },
    {
        let matches = match self.domain.pending_interactions.get(tool_id) {
            Some(waiting) => *waiting == kind,
            None => false,
        };
        if matches {
            let _ = self.domain.pending_interactions.remove(tool_id);
        }
        matches
    }

    /// Give up an answer that could not be asked for. Whether it was waited
    /// for: the tool call is then cancelled.
    pub fn interaction_unsent(&mut self, tool_id: &String, kind: InteractionKind) -> (cancel: bool)
        requires
            old(self).wf(),
        ensures
            final(self).wf(),
            cancel == awaits(*old(self), tool_id@, kind),
            waits_no_more(*old(self), *final(self), tool_id@),
    {
        match self.domain.pending_interactions.remove(tool_id) {
            Some(waiting) => waiting == kind,
            None => false,
        }
    }

    /// What becomes of a command that is no answer.
    fn tell_agent(
        &self,
        command: Command,
        standing: bool,
        fresh: Option<String>,
        stored_charter: Option<String>,
    ) -> (step: CommandStep)
        requires
            !(command is RespondPermission) && !(command is RespondQuestion),
        ensures
            is_command_step(step, *self, command, standing, fresh, stored_charter),
    {
        let ghost given = command;
        let ghost given_fresh = fresh;
        let stamp = if !standing {
            None
        } else {
            match &command {
                Command::NewSession { .. } => clone_option(&fresh),
                Command::ResumeSession { session_id, .. } => Some(session_id.clone()),
                _ => None,
            }
        };
        let starts = match &command {
            Command::NewSession { .. } => true,
            _ => false,
        };
        let new_session_id = if starts {
            fresh
        } else {
            None
        };
        let mut command = command;
        match stored_charter {
            Some(charter) => {
                match &mut command {
                    Command::NewSession { launch_settings, .. } => {
                        launch_settings.charter = Some(charter);
                    },
                    _ => {},
                }
            },
            None => {},
        }
        assert(command == recharged(given, stored_charter));
        match execute_command_via_handle(&self.domain.session_id, new_session_id, command) {
            Ok(Some(told)) => {
                proof {
                    assert forall|id: String|
                        session_command(given) is None implies Some(told) == #[trigger] agent_command(
                        id,
                        given_fresh,
                        recharged(given, stored_charter),
                    ) by {
                        assert(Some(told) == agent_command(id, new_session_id, command));
                    }
                }
                CommandStep::Send { command: told, stamp }
            },
            Ok(None) => {
                proof {
                    if session_command(given) is None {
                        let id: String = self.key.org;
                        assert(agent_command(id, new_session_id, command) is None);
                    }
                }
                CommandStep::Nothing
            },
            Err(message) => CommandStep::Failed(
                Action::Emit(
                    SessionUpdate::TurnError {
                        key: self.key.clone(),
                        message,
                        class: None,
                        terminal_reason: None,
                    },
                ),
            ),
        }
    }

    /// What the end of a session asks for, whatever ended it.
    pub fn dropped(&self, standing: bool) -> (actions: Vec<Action>)
        ensures
            task_dropped(*self, standing, actions),
    {
        let mut actions: Vec<Action> = Vec::new();
        if standing {
            actions.push(Action::DrainReviewActivity { caller: self.domain.key.clone() });
            actions.push(Action::ExpireTargetInflight { key: self.key.clone() });
        }
        assert(actions@ =~= if standing {
            seq![
                Action::DrainReviewActivity { caller: self.domain.key },
                Action::ExpireTargetInflight { key: self.key },
            ]
        } else {
            Seq::<Action>::empty()
        });
        actions
    }

    /// What the start of a session says: the account it runs on, where that
    /// is known; or that its agent cannot be listened to, and then it ends.
    pub fn started(&self, has_events: bool, display_name: Option<String>) -> (actions: Vec<Action>)
        ensures
            task_started(*self, has_events, display_name, actions),
    {
        let mut actions: Vec<Action> = Vec::new();
        if !has_events {
            actions.push(
                Action::Emit(
                    SessionUpdate::ConnectionFailed {
                        key: self.key.clone(),
                        message: "agent event receiver unavailable".to_owned(),
                        fatal: false,
                    },
                ),
            );
            return actions;
        }
        match display_name {
            Some(display_name) => {
                actions.push(
                    Action::Emit(
                        SessionUpdate::ForgeAccountIdentity { key: self.key.clone(), display_name },
                    ),
                );
                assert(actions@ =~= seq![
                    Action::Emit(
                        SessionUpdate::ForgeAccountIdentity { key: self.key, display_name },
                    ),
                ]);
            },
            None => {},
        }
        actions
    }
}

/// What delivers the parked envelopes, in the order they came.
pub open spec fn peers_delivered(key: SessionSlot, pending: Seq<WrappedPrompt>) -> Seq<Action>
    decreases pending.len(),
{
    if pending.len() == 0 {
        Seq::empty()
    } else {
        peers_delivered(key, pending.drop_last()) + peer_delivery(key, pending.last())
    }
}

/// Deliver the parked envelopes.
pub fn deliver_parked_peers(key: &SessionSlot, pending: &Vec<WrappedPrompt>) -> (actions: Vec<
    Action,
>)
    ensures
        actions@ == peers_delivered(*key, pending@),
{
    let mut actions: Vec<Action> = Vec::new();
    let mut i: usize = 0;
    assert(pending@.take(0) =~= Seq::<WrappedPrompt>::empty());
    while i < pending.len()
        invariant
            i <= pending@.len(),
            actions@ == peers_delivered(*key, pending@.take(i as int)),
        decreases pending@.len() - i,
    {
        let mut delivery = deliver_peer_now(key, &pending[i]);
        actions.append(&mut delivery);
        proof {
            assert(pending@.take(i + 1).drop_last() =~= pending@.take(i as int));
            assert(actions@ =~= peers_delivered(*key, pending@.take(i + 1)));
        }
        i = i + 1;
    }
    assert(pending@.take(pending@.len() as int) =~= pending@);
    actions
}

/// `actions` deliver the parked crons: two for each, in the order they came.
pub open spec fn are_cron_deliveries(
    actions: Seq<Action>,
    key: SessionSlot,
    pending: Seq<PendingCron>,
) -> bool {
    &&& actions.len() == 2 * pending.len()
    &&& forall|i: int|
        #![trigger pending[i]]
        0 <= i < pending.len() ==> is_cron_delivery(
            actions.subrange(2 * i, 2 * i + 2),
            key,
            cron_text(pending[i].text@, pending[i].missed),
        )
}

/// Deliver the parked crons.
pub fn deliver_parked_crons(key: &SessionSlot, pending: &Vec<PendingCron>) -> (actions: Vec<Action>)
    ensures
        are_cron_deliveries(actions@, *key, pending@),
{
    let mut actions: Vec<Action> = Vec::new();
    let mut i: usize = 0;
    while i < pending.len()
        invariant
            i <= pending@.len(),
            are_cron_deliveries(actions@, *key, pending@.take(i as int)),
        decreases pending@.len() - i,
    {
        let ghost before = actions@;
        let mut delivery = deliver_cron_now(key, &pending[i].text, pending[i].missed);
        let ghost added = delivery@;
        actions.append(&mut delivery);
        proof {
            let taken = pending@.take(i + 1);
            assert forall|j: int|
                #![trigger taken[j]]
                0 <= j < taken.len() implies is_cron_delivery(
                actions@.subrange(2 * j, 2 * j + 2),
                *key,
                cron_text(taken[j].text@, taken[j].missed),
            ) by {
                if j < i {
                    assert(taken[j] == pending@.take(i as int)[j]);
                    assert(actions@.subrange(2 * j, 2 * j + 2) =~= before.subrange(
                        2 * j,
                        2 * j + 2,
                    ));
                } else {
                    assert(actions@.subrange(2 * j, 2 * j + 2) =~= added);
                }
            }
        }
        i = i + 1;
    }
    assert(pending@.take(pending@.len() as int) =~= pending@);
    actions
}

/// What delivers the parked notifications, in the order they came.
pub open spec fn gotify_delivered(key: SessionSlot, pending: Seq<GotifyNotification>) -> Seq<Action>
    decreases pending.len(),
{
    if pending.len() == 0 {
        Seq::empty()
    } else {
        gotify_delivered(key, pending.drop_last()) + gotify_delivery(key, pending.last())
    }
}

/// Deliver the parked notifications.
pub fn deliver_parked_gotify(key: &SessionSlot, pending: &Vec<GotifyNotification>) -> (actions: Vec<
    Action,
>)
    ensures
        actions@ == gotify_delivered(*key, pending@),
{
    let mut actions: Vec<Action> = Vec::new();
    let mut i: usize = 0;
    assert(pending@.take(0) =~= Seq::<GotifyNotification>::empty());
    while i < pending.len()
        invariant
            i <= pending@.len(),
            actions@ == gotify_delivered(*key, pending@.take(i as int)),
        decreases pending@.len() - i,
    {
        let mut delivery = deliver_gotify_now(key, &pending[i]);
        actions.append(&mut delivery);
        proof {
            assert(pending@.take(i + 1).drop_last() =~= pending@.take(i as int));
            assert(actions@ =~= gotify_delivered(*key, pending@.take(i + 1)));
        }
        i = i + 1;
    }
    assert(pending@.take(pending@.len() as int) =~= pending@);
    actions
}

/// The messages of one conversation.
pub open spec fn of_conversation(conversation: Seq<char>) -> spec_fn(SlackMessage) -> bool {
    |m: SlackMessage| m.conversation@ == conversation
}

/// `conversations` are those of the messages, each once and in order.
pub open spec fn are_conversations(conversations: Seq<String>, pending: Seq<SlackMessage>) -> bool {
    &&& forall|i: int, j: int|
        0 <= i < j < conversations.len() ==> text_less(
            (#[trigger] conversations[i])@,
            (#[trigger] conversations[j])@,
        )
    &&& forall|c: Seq<char>|
        (exists|i: int| 0 <= i < conversations.len() && (#[trigger] conversations[i])@ == c) <==> any(
            pending,
            of_conversation(c),
        )
}

/// The two actions that deliver the messages of one conversation.
pub open spec fn is_slack_delivery(actions: Seq<Action>, key: SessionSlot, prose: Seq<char>) -> bool {
    &&& actions.len() == 2
    &&& actions[0] matches Action::Emit(SessionUpdate::SlackMessageAppended { key: k, prose: p })
    &&& k == key
    &&& p@ == prose
    &&& actions[1] matches Action::Prompt { key: k, text: t }
    &&& k == key
    &&& t@ == prose
}

/// `actions` deliver the parked Slack messages: two for each conversation,
/// its messages in the order they came.
pub open spec fn are_slack_deliveries(
    actions: Seq<Action>,
    key: SessionSlot,
    conversations: Seq<String>,
    pending: Seq<SlackMessage>,
) -> bool {
    &&& actions.len() == 2 * conversations.len()
    &&& forall|i: int|
        #![trigger conversations[i]]
        0 <= i < conversations.len() ==> is_slack_delivery(
            actions.subrange(2 * i, 2 * i + 2),
            key,
            bundle_prose(pending.filter(of_conversation(conversations[i]@))),
        )
}

/// The messages of one conversation as their reader's agent gets them.
pub fn slack_bundle_to_prose(messages: &Vec<SlackMessage>, conversation: &String) -> (prose: String)
    ensures
        prose@ == bundle_prose(messages@.filter(of_conversation(conversation@))),
{
    let ghost p = of_conversation(conversation@);
    let mut prose = String::new();
    let mut first = true;
    let mut i: usize = 0;
    proof {
        crate::seqs::lemma_filter_ends(messages@, p);
    }
    while i < messages.len()
        invariant
            i <= messages@.len(),
            p == of_conversation(conversation@),
            prose@ == bundle_prose(messages@.take(i as int).filter(p)),
            first == (messages@.take(i as int).filter(p).len() == 0),
        decreases messages@.len() - i,
    {
        proof {
            crate::seqs::lemma_filter_step(messages@, p, i as int);
        }
        if messages[i].conversation == *conversation {
            let ghost kept = messages@.take(i as int).filter(p);
            let ghost so_far = prose@;
            if !first {
                prose.append("\n");
            }
            let line = slack_message_to_prose(&messages[i]);
            prose.append(line.as_str());
            proof {
                let grown = kept.push(messages@[i as int]);
                assert(grown.drop_last() =~= kept);
                if first {
                    assert(grown[0] == messages@[i as int]);
                    assert(so_far =~= Seq::<char>::empty());
                    assert(prose@ =~= slack_prose(messages@[i as int]));
                } else {
                    assert(prose@ =~= bundle_prose(grown));
                }
            }
            first = false;
        }
        i = i + 1;
    }
    proof {
        crate::seqs::lemma_filter_ends(messages@, p);
    }
    prose
}

/// The conversations of the messages, each once and in order.
fn conversations_of(pending: &Vec<SlackMessage>) -> (conversations: Vec<String>)
    ensures
        are_conversations(conversations@, pending@),
{
    let mut found: TextMap<bool> = TextMap::new();
    let mut i: usize = 0;
    while i < pending.len()
        invariant
            i <= pending@.len(),
            found.wf(),
            forall|c: Seq<char>|
                #[trigger] found@.dom().contains(c) <==> exists|j: int|
                    0 <= j < i && of_conversation(c)(#[trigger] pending@[j]),
        decreases pending@.len() - i,
    {
        let ghost before = found@;
        found.insert(pending[i].conversation.clone(), true);
        proof {
            assert forall|c: Seq<char>| #[trigger] found@.dom().contains(c) <==> exists|j: int|
                0 <= j < i + 1 && of_conversation(c)(#[trigger] pending@[j]) by {
                if c == pending@[i as int].conversation@ {
                    assert(of_conversation(c)(pending@[i as int]));
                } else if before.dom().contains(c) {
                    let j = choose|j: int| 0 <= j < i && of_conversation(c)(#[trigger] pending@[j]);
                    assert(of_conversation(c)(pending@[j]));
                }
            }
        }
        i = i + 1;
    }
    let conversations = found.keys();
    proof {
        assert forall|c: Seq<char>|
            (exists|i: int|
                0 <= i < conversations@.len() && (#[trigger] conversations@[i])@ == c) <==> any(
                pending@,
                of_conversation(c),
            ) by {
            assert(found@.dom().contains(c) <==> exists|j: int|
                0 <= j < pending@.len() && of_conversation(c)(#[trigger] pending@[j]));
        }
    }
    conversations
}

/// Deliver the parked Slack messages.
pub fn deliver_parked_slack(key: &SessionSlot, pending: &Vec<SlackMessage>) -> (actions: Vec<Action>)
    ensures
        exists|conversations: Seq<String>| #[trigger]
            are_conversations(conversations, pending@) && are_slack_deliveries(
                actions@,
                *key,
                conversations,
                pending@,
            ),
{
    let conversations = conversations_of(pending);
    let mut actions: Vec<Action> = Vec::new();
    let mut i: usize = 0;
    while i < conversations.len()
        invariant
            i <= conversations@.len(),
            are_slack_deliveries(actions@, *key, conversations@.take(i as int), pending@),
        decreases conversations@.len() - i,
    {
        let ghost before = actions@;
        let prose = slack_bundle_to_prose(pending, &conversations[i]);
        actions.push(push_slack_message_into_chat(key, &prose));
        actions.push(Action::Prompt { key: key.clone(), text: prose });
        proof {
            let taken = conversations@.take(i + 1);
            assert forall|j: int|
                #![trigger taken[j]]
                0 <= j < taken.len() implies is_slack_delivery(
                actions@.subrange(2 * j, 2 * j + 2),
                *key,
                bundle_prose(pending@.filter(of_conversation(taken[j]@))),
            ) by {
                if j < i {
                    assert(taken[j] == conversations@.take(i as int)[j]);
                    assert(actions@.subrange(2 * j, 2 * j + 2) =~= before.subrange(
                        2 * j,
                        2 * j + 2,
                    ));
                }
            }
        }
        i = i + 1;
    }
    assert(conversations@.take(conversations@.len() as int) =~= conversations@);
    actions
}

/// `actions` deliver what was parked: the envelopes, then the crons, then the
/// notifications, then the Slack messages.
pub open spec fn are_parked_deliveries(
    actions: Seq<Action>,
    key: SessionSlot,
    parked: crate::workspace::ParkedView,
) -> bool {
    exists|crons: Seq<Action>, slack: Seq<Action>, conversations: Seq<String>|
        {
            &&& actions == peers_delivered(key, parked.peer) + crons + gotify_delivered(
                key,
                parked.gotify,
            ) + slack
            &&& #[trigger] are_cron_deliveries(crons, key, parked.cron)
            &&& are_conversations(conversations, parked.slack)
            &&& #[trigger] are_slack_deliveries(slack, key, conversations, parked.slack)
        }
}

/// Deliver what is parked for a slot to the session that connected there,
/// and leave nothing parked.
pub fn drain_parked(workspace: &mut Workspace, key: &SessionSlot) -> (actions: Vec<Action>)
    requires
        old(workspace).wf(),
    ensures
        crate::spawn::parked_taken(*old(workspace), *final(workspace), key@),
        are_parked_deliveries(actions@, *key, old(workspace).parked.at(key@)),
{
    let parked = workspace.parked.take(key);
    let mut actions = deliver_parked_peers(key, &parked.peer);
    let mut crons = deliver_parked_crons(key, &parked.cron);
    let ghost cron_actions = crons@;
    actions.append(&mut crons);
    let mut gotify = deliver_parked_gotify(key, &parked.gotify);
    actions.append(&mut gotify);
    let mut slack = deliver_parked_slack(key, &parked.slack);
    let ghost slack_actions = slack@;
    actions.append(&mut slack);
    proof {
        let conversations = choose|conversations: Seq<String>| #[trigger]
            are_conversations(conversations, parked.slack@) && are_slack_deliveries(
                slack_actions,
                *key,
                conversations,
                parked.slack@,
            );
        assert(actions@ =~= peers_delivered(*key, parked.peer@) + cron_actions + gotify_delivered(
            *key,
            parked.gotify@,
        ) + slack_actions);
        let was = old(workspace).parked.at(key@);
        assert(parked@ == was);
        assert(are_cron_deliveries(cron_actions, *key, was.cron));
        assert(are_slack_deliveries(slack_actions, *key, conversations, was.slack));
        assert(are_conversations(conversations, was.slack));
        assert(actions@ == peers_delivered(*key, was.peer) + cron_actions + gotify_delivered(
            *key,
            was.gotify,
        ) + slack_actions);
    }
    actions
}

/// A rate limit that is allowed reports nothing.
pub proof fn an_allowed_limit_reports_nothing(
    task: SessionTask,
    standing: bool,
    resets_at: Option<i64>,
    raw: WireValue,
)
    ensures
        rate_limit_report(
            task,
            standing,
            SdkMessage::RateLimitEvent { status: RateLimitStatus::Allowed, resets_at, raw },
        ).len() == 0,
{
}

/// An event after which the turn that was going on is over.
pub open spec fn is_turn_end(task: SessionTask, event: AgentEvent) -> bool {
    match event {
        AgentEvent::SdkMessage { msg } => ends_turn(msg),
        AgentEvent::ConnectionFailed { .. } => true,
        AgentEvent::Connected { .. } => task.connected_once,
        _ => false,
    }
}

/// Whatever ends a turn, what the turn did to the branch's threads is said:
/// the agent's last message, its failure, or the session that replaces it.
pub proof fn an_ended_turn_is_told(task: SessionTask, workspace: &Workspace, event: AgentEvent)
    requires
        is_turn_end(task, event),
    ensures
        ({
            let told = Action::DrainReviewActivity { caller: task.domain.key };
            match event {
                AgentEvent::SdkMessage { msg } => message_actions(task, true, msg).contains(told),
                AgentEvent::ConnectionFailed { message, kind } => connection_failed_actions(
                    task,
                    true,
                    message,
                    kind,
                ).contains(told),
                AgentEvent::Connected { session_id, cwd, .. } => before_connected(
                    task,
                    Some(workspace),
                    session_id,
                    cwd,
                ).contains(told),
                _ => true,
            }
        }),
{
    let told = Action::DrainReviewActivity { caller: task.domain.key };
    match event {
        AgentEvent::SdkMessage { msg } => {
            let at = rate_limit_report(task, true, msg).len() as int;
            assert(message_actions(task, true, msg)[at] == told);
        },
        AgentEvent::ConnectionFailed { message, kind } => {
            assert(connection_failed_actions(task, true, message, kind)[0] == told);
        },
        AgentEvent::Connected { session_id, cwd, .. } => {
            let at = catalog_mirror(Some(workspace), task.key, session_id, cwd).len() as int + 1;
            assert(before_connected(task, Some(workspace), session_id, cwd)[at] == told);
        },
        _ => {},
    }
}

/// What was parked is delivered once: after a drain there is nothing left to
/// deliver.
pub proof fn a_drain_leaves_nothing_to_deliver(
    before: Workspace,
    after: Workspace,
    key: SessionSlot,
    actions: Seq<Action>,
)
    requires
        crate::spawn::parked_taken(before, after, key@),
        are_parked_deliveries(actions, key, after.parked.at(key@)),
    ensures
        actions.len() == 0,
{
    let parked = after.parked.at(key@);
    let (crons, slack, conversations) = choose|
        crons: Seq<Action>,
        slack: Seq<Action>,
        conversations: Seq<String>,
    |
        {
            &&& actions == peers_delivered(key, parked.peer) + crons + gotify_delivered(
                key,
                parked.gotify,
            ) + slack
            &&& #[trigger] are_cron_deliveries(crons, key, parked.cron)
            &&& are_conversations(conversations, parked.slack)
            &&& #[trigger] are_slack_deliveries(slack, key, conversations, parked.slack)
        };
    if conversations.len() > 0 {
        assert(any(parked.slack, of_conversation(conversations[0]@)));
    }
}

/// Envelopes are delivered in the order they were parked in: those that came
/// later, after all of the earlier ones.
pub proof fn envelopes_keep_their_order(
    key: SessionSlot,
    earlier: Seq<WrappedPrompt>,
    later: Seq<WrappedPrompt>,
)
    ensures
        peers_delivered(key, earlier + later) == peers_delivered(key, earlier) + peers_delivered(
            key,
            later,
        ),
    decreases later.len(),
{
    if later.len() == 0 {
        assert(earlier + later =~= earlier);
        assert(peers_delivered(key, earlier) + peers_delivered(key, later) =~= peers_delivered(
            key,
            earlier,
        ));
    } else {
        envelopes_keep_their_order(key, earlier, later.drop_last());
        assert((earlier + later).drop_last() =~= earlier + later.drop_last());
        assert(peers_delivered(key, earlier + later) =~= peers_delivered(key, earlier)
            + peers_delivered(key, later));
    }
}

/// Every envelope that was parked is handed to the session that connected.
pub proof fn a_parked_envelope_is_delivered(
    key: SessionSlot,
    pending: Seq<WrappedPrompt>,
    i: int,
)
    requires
        0 <= i < pending.len(),
    ensures
        peers_delivered(key, pending).contains(Action::Prompt { key, text: pending[i].prose }),
    decreases pending.len(),
{
    let prompt = Action::Prompt { key, text: pending[i].prose };
    let all = peers_delivered(key, pending);
    let earlier = peers_delivered(key, pending.drop_last());
    if i == pending.len() - 1 {
        assert(all[all.len() - 1] == prompt);
    } else {
        a_parked_envelope_is_delivered(key, pending.drop_last(), i);
        let at = choose|at: int| 0 <= at < earlier.len() && earlier[at] == prompt;
        assert(all[at] == prompt);
    }
}

/// Notifications are delivered in the order they were parked in.
pub proof fn notifications_keep_their_order(
    key: SessionSlot,
    earlier: Seq<GotifyNotification>,
    later: Seq<GotifyNotification>,
)
    ensures
        gotify_delivered(key, earlier + later) == gotify_delivered(key, earlier)
            + gotify_delivered(key, later),
    decreases later.len(),
{
    if later.len() == 0 {
        assert(earlier + later =~= earlier);
        assert(gotify_delivered(key, earlier) + gotify_delivered(key, later) =~= gotify_delivered(
            key,
            earlier,
        ));
    } else {
        notifications_keep_their_order(key, earlier, later.drop_last());
        assert((earlier + later).drop_last() =~= earlier + later.drop_last());
        assert(gotify_delivered(key, earlier + later) =~= gotify_delivered(key, earlier)
            + gotify_delivered(key, later));
    }
}

/// Every Slack message that was parked is in what is delivered of its
/// conversation, and of no other.
pub proof fn a_parked_slack_message_is_delivered(
    conversations: Seq<String>,
    pending: Seq<SlackMessage>,
    i: int,
)
    requires
        are_conversations(conversations, pending),
        0 <= i < pending.len(),
    ensures
        exists|c: int|
            0 <= c < conversations.len() && (#[trigger] conversations[c])@
                == pending[i].conversation@ && pending.filter(
                of_conversation(conversations[c]@),
            ).contains(pending[i]),
        forall|c: int|
            0 <= c < conversations.len() && (#[trigger] conversations[c])@
                != pending[i].conversation@ ==> !pending.filter(
                of_conversation(conversations[c]@),
            ).contains(pending[i]),
{
    let own = of_conversation(pending[i].conversation@);
    assert(own(pending[i]));
    assert(any(pending, own));
    crate::seqs::lemma_filter_holds(pending, own, i);
    assert forall|c: int|
        0 <= c < conversations.len() && (#[trigger] conversations[c])@
            != pending[i].conversation@ implies !pending.filter(
        of_conversation(conversations[c]@),
    ).contains(pending[i]) by {
        let p = of_conversation(conversations[c]@);
        crate::seqs::lemma_filter_keeps(pending, p);
        if pending.filter(p).contains(pending[i]) {
            let k = choose|k: int|
                0 <= k < pending.filter(p).len() && pending.filter(p)[k] == pending[i];
            assert(p(pending.filter(p)[k]));
        }
    }
}

/// For a session with an id, a command reaches the agent as the command of the
/// same kind with the same payload, under that id; and the agent is told a
/// kind of command only where that kind was given.
pub proof fn a_command_reaches_the_agent_as_what_it_is(
    id: String,
    new_session_id: Option<String>,
    command: Command,
    told: Result<Option<AgentCommand>, String>,
)
    requires
        told_of(Some(id), new_session_id, command, told),
    ensures
        told is Ok,
        match command {
            Command::Prompt { text, attachments } => told->Ok_0 matches Some(
                AgentCommand::Prompt { session_id, text: t, attachments: a },
            ) && session_id == id && t == text && a == attachments,
            Command::Cancel => told->Ok_0 matches Some(AgentCommand::Cancel { session_id })
                && session_id == id,
            Command::SetMode { mode } => told->Ok_0 matches Some(
                AgentCommand::SetMode { session_id, mode: m },
            ) && session_id == id && m == mode,
            Command::SetModel { model } => told->Ok_0 matches Some(
                AgentCommand::SetModel { session_id, model: m },
            ) && session_id == id && m == model,
            Command::NewSession { cwd, launch_settings } => told->Ok_0 matches Some(
                AgentCommand::NewSession { session_id, cwd: c, launch_settings: l },
            ) && session_id == new_session_id && c == cwd && l == launch_settings,
            Command::ResumeSession { session_id, cwd, launch_settings } => told->Ok_0 matches Some(
                AgentCommand::ResumeSession { session_id: s, cwd: c, launch_settings: l },
            ) && s == session_id && c == cwd && l == launch_settings,
            Command::ReconnectMcpServer { server_name } => told->Ok_0 matches Some(
                AgentCommand::ReconnectMcpServer { session_id, server_name: n },
            ) && session_id == id && n == server_name,
            Command::ToggleMcpServer { server_name, enabled } => told->Ok_0 matches Some(
                AgentCommand::ToggleMcpServer { session_id, server_name: n, enabled: e },
            ) && session_id == id && n == server_name && e == enabled,
            Command::RespondPermission { .. } => told->Ok_0 is None,
            Command::RespondQuestion { .. } => told->Ok_0 is None,
            Command::App { .. } => told->Ok_0 is None,
        },
        told->Ok_0 matches Some(AgentCommand::Prompt { .. }) ==> command is Prompt,
        told->Ok_0 matches Some(AgentCommand::Cancel { .. }) ==> command is Cancel,
        told->Ok_0 matches Some(AgentCommand::SetMode { .. }) ==> command is SetMode,
        told->Ok_0 matches Some(AgentCommand::SetModel { .. }) ==> command is SetModel,
        told->Ok_0 matches Some(AgentCommand::NewSession { .. }) ==> command is NewSession,
        told->Ok_0 matches Some(AgentCommand::ResumeSession { .. }) ==> command is ResumeSession,
        told->Ok_0 matches Some(AgentCommand::ReconnectMcpServer { .. })
            ==> command is ReconnectMcpServer,
        told->Ok_0 matches Some(AgentCommand::ToggleMcpServer { .. }) ==> command is ToggleMcpServer,
{
    if session_command(command) is None {
        assert(told->Ok_0 == agent_command(id, new_session_id, command));
    }
}

/// Without an id a command that is for a running session is refused by its
/// name, and the others go to the agent as they would with one.
pub proof fn a_command_without_a_session_is_refused_by_name(
    new_session_id: Option<String>,
    command: Command,
    told: Result<Option<AgentCommand>, String>,
)
    requires
        told_of(None, new_session_id, command, told),
    ensures
        told is Err <==> command is Prompt || command is Cancel || command is SetMode
            || command is SetModel || command is ReconnectMcpServer || command is ToggleMcpServer,
        told matches Err(message) ==> message@ == "no active session: "@ + match command {
            Command::Prompt { .. } => "Prompt"@,
            Command::Cancel => "Cancel"@,
            Command::SetMode { .. } => "SetMode"@,
            Command::SetModel { .. } => "SetModel"@,
            Command::ReconnectMcpServer { .. } => "ReconnectMcpServer"@,
            _ => "ToggleMcpServer"@,
        },
        command matches Command::NewSession { cwd, launch_settings } ==> told->Ok_0 == Some(
            AgentCommand::NewSession { session_id: new_session_id, cwd, launch_settings },
        ),
        command matches Command::ResumeSession { session_id, cwd, launch_settings }
            ==> told->Ok_0 == Some(
            AgentCommand::ResumeSession { session_id, cwd, launch_settings },
        ),
        command is RespondPermission || command is RespondQuestion || command is App
            ==> told->Ok_0 is None,
{
    if session_command(command) is None {
        assert(forall|id: String|
            told->Ok_0 == #[trigger] agent_command(id, new_session_id, command));
        let some = vstd::pervasive::arbitrary::<String>();
        assert(told->Ok_0 == agent_command(some, new_session_id, command));
    }
}

/// An answer is taken exactly by a tool call that waits for that kind of
/// answer, which then waits no more; every other wait stays. An answer that
/// nobody waits for changes nothing.
pub proof fn an_answer_reaches_the_call_that_waits_for_it(
    before: SessionTask,
    after: SessionTask,
    command: Command,
    tool_id: String,
    outcome: WireValue,
    kind: InteractionKind,
    standing: bool,
    fresh: Option<String>,
    stored_charter: Option<String>,
    step: CommandStep,
)
    requires
        commanded(before, after, command, standing, fresh, stored_charter, step),
        match kind {
            InteractionKind::Permission => command == (Command::RespondPermission {
                tool_id,
                outcome,
            }),
            InteractionKind::Question => command == (Command::RespondQuestion {
                tool_id,
                outcome,
            }),
        },
    ensures
        ({
            let waiting = before.domain.pending_interactions@;
            if waiting.dom().contains(tool_id@) && waiting[tool_id@] == kind {
                &&& step == (CommandStep::Answer { tool_id, outcome })
                &&& !after.domain.pending_interactions@.dom().contains(tool_id@)
                &&& forall|other: Seq<char>|
                    other != tool_id@ ==> {
                        &&& #[trigger] after.domain.pending_interactions@.dom().contains(other)
                            <==> waiting.dom().contains(other)
                        &&& waiting.dom().contains(other)
                            ==> after.domain.pending_interactions@[other] == waiting[other]
                    }
                &&& after.domain.session_id == before.domain.session_id
                &&& after.domain.turn_pending == before.domain.turn_pending
                &&& after.key == before.key
                &&& after.connected_once == before.connected_once
            } else {
                after == before && step == CommandStep::Nothing
            }
        }),
{
}

/// A command for a running session goes to the agent as what it is, under the
/// session's id, and stamps nothing; without an id it fails the turn. The task
/// stays as it is.
pub proof fn a_running_session_is_told_what_was_said(
    before: SessionTask,
    after: SessionTask,
    command: Command,
    standing: bool,
    fresh: Option<String>,
    stored_charter: Option<String>,
    step: CommandStep,
)
    requires
        commanded(before, after, command, standing, fresh, stored_charter, step),
        command is Prompt || command is Cancel || command is SetMode || command is SetModel
            || command is ReconnectMcpServer || command is ToggleMcpServer,
    ensures
        after == before,
        before.domain.session_id is None ==> (step matches CommandStep::Failed(
            Action::Emit(SessionUpdate::TurnError { key, message, class, terminal_reason }),
        ) && key == before.key && class is None && terminal_reason is None
            && exists|name: Seq<char>| message@ == #[trigger] ("no active session: "@ + name)),
        before.domain.session_id matches Some(id) ==> (step matches CommandStep::Send {
            command: told,
            stamp,
        } && stamp is None && match command {
            Command::Prompt { text, attachments } => told == (AgentCommand::Prompt {
                session_id: id,
                text,
                attachments,
            }),
            Command::Cancel => told == (AgentCommand::Cancel { session_id: id }),
            Command::SetMode { mode } => told == (AgentCommand::SetMode { session_id: id, mode }),
            Command::SetModel { model } => told == (AgentCommand::SetModel {
                session_id: id,
                model,
            }),
            Command::ReconnectMcpServer { server_name } => told == (
            AgentCommand::ReconnectMcpServer { session_id: id, server_name }),
            Command::ToggleMcpServer { server_name, enabled } => told == (
            AgentCommand::ToggleMcpServer { session_id: id, server_name, enabled }),
            _ => false,
        }),
{
}

/// A session that starts anew runs under the fresh id, with the stored charter
/// where there is one, and otherwise with the settings given; one that is
/// resumed runs under its own id with the settings given. In a workspace that
/// stands that id is stamped, outside of one nothing is.
pub proof fn a_restart_keeps_its_settings(
    before: SessionTask,
    after: SessionTask,
    command: Command,
    standing: bool,
    fresh: Option<String>,
    stored_charter: Option<String>,
    step: CommandStep,
)
    requires
        commanded(before, after, command, standing, fresh, stored_charter, step),
    ensures
        command matches Command::NewSession { cwd, launch_settings } ==> {
            &&& after == before
            &&& step matches CommandStep::Send { command: told, stamp }
            &&& told matches AgentCommand::NewSession {
                session_id,
                cwd: c,
                launch_settings: l,
            }
            &&& session_id == fresh
            &&& c == cwd
            &&& l.charter == (match stored_charter {
                Some(charter) => Some(charter),
                None => launch_settings.charter,
            })
            &&& l == (crate::launch::SessionLaunchSettings {
                charter: l.charter,
                ..launch_settings
            })
            &&& standing ==> stamp == fresh
            &&& !standing ==> stamp is None
        },
        command matches Command::ResumeSession { session_id, cwd, launch_settings } ==> {
            &&& after == before
            &&& step matches CommandStep::Send { command: told, stamp }
            &&& told == (AgentCommand::ResumeSession { session_id, cwd, launch_settings })
            &&& standing ==> stamp == Some(session_id)
            &&& !standing ==> stamp is None
        },
        command is App ==> after == before && step == CommandStep::Nothing,
{
    let some = vstd::pervasive::arbitrary::<String>();
    if command is NewSession || command is ResumeSession {
        assert(step matches CommandStep::Send { command: told, stamp } && Some(told)
            == agent_command(some, fresh, recharged(command, stored_charter)));
    }
}

/// An event that is only passed on is told once, under the session's key, as
/// the update of the same kind with the same payload, and leaves the task as
/// it is.
pub proof fn an_event_is_passed_on_as_what_it_is(
    before: SessionTask,
    after: SessionTask,
    workspace: Option<&Workspace>,
    event: AgentEvent,
    translation: Translation,
)
    requires
        translated(before, after, workspace, event, translation),
        !(event is Connected),
        !(event is ConnectionFailed),
        !(event is PermissionRequest),
        !(event is QuestionRequest),
        !(event is SdkMessage),
    ensures
        after == before,
        translation.afterwards == Afterwards::Running,
        translation.actions@.len() == 1,
        translation.actions@[0] matches Action::Emit(update) && match event {
            AgentEvent::AuthRequired { method_name, method_description } => update == (
            SessionUpdate::AuthRequired { key: before.key, method_name, method_description }),
            AgentEvent::McpOperationError { error } => update == (
            SessionUpdate::McpOperationError { key: before.key, error }),
            AgentEvent::RuntimeReloadCompleted => update == (
            SessionUpdate::RuntimeReloadCompleted { key: before.key }),
            AgentEvent::RuntimeReloadFailed { message } => update == (
            SessionUpdate::RuntimeReloadFailed { key: before.key, message }),
            AgentEvent::SetModeFailed { mode, message } => update == (
            SessionUpdate::SetModeFailed { key: before.key, mode, message }),
            AgentEvent::SetModelFailed { model, message } => update == (
            SessionUpdate::SetModelFailed { key: before.key, model, message }),
            AgentEvent::TurnError { message } => update matches SessionUpdate::TurnError {
                key,
                message: m,
                class,
                terminal_reason,
            } && key == before.key && m == message && class is None && terminal_reason is None,
            AgentEvent::SessionsListed { sessions } => update == (SessionUpdate::SessionsListed {
                key: before.key,
                sessions,
            }),
            AgentEvent::StatusSnapshot { account, forge_account } => update == (
            SessionUpdate::StatusSnapshot { key: before.key, account, forge_account }),
            AgentEvent::OauthCredentialsSnapshot { credentials } => update == (
            SessionUpdate::OauthCredentialsSnapshot { key: before.key, credentials }),
            AgentEvent::ContextUsage { percentage, max_tokens } => update == (
            SessionUpdate::ContextUsageSnapshot { key: before.key, percentage, max_tokens }),
            AgentEvent::McpSnapshot { servers, error } => update == (SessionUpdate::McpSnapshot {
                key: before.key,
                servers,
                error,
            }),
            AgentEvent::HookObservation {
                tool_use_id,
                permission_mode,
                effort,
                agent_id,
                agent_type,
            } => update == (SessionUpdate::HookObservation {
                key: before.key,
                tool_use_id,
                permission_mode,
                effort,
                agent_id,
                agent_type,
            }),
            _ => false,
        },
{
}

/// A request of a tool call is put to the user under the call's id, the call
/// waits for that kind of answer, and every other wait stays.
pub proof fn a_request_is_asked_and_awaited(
    before: SessionTask,
    after: SessionTask,
    workspace: Option<&Workspace>,
    event: AgentEvent,
    translation: Translation,
)
    requires
        translated(before, after, workspace, event, translation),
    ensures
        event matches AgentEvent::PermissionRequest { session_id, tool_call_id, request } ==> {
            &&& translation.actions@.len() == 1
            &&& translation.actions@[0] == Action::Emit(
                SessionUpdate::PermissionRequest {
                    key: before.key,
                    tool_id: tool_call_id,
                    request,
                },
            )
            &&& translation.afterwards == (Afterwards::Await {
                session_id,
                tool_call_id,
                kind: InteractionKind::Permission,
            })
            &&& after.domain.pending_interactions@.dom().contains(tool_call_id@)
            &&& after.domain.pending_interactions@[tool_call_id@] == InteractionKind::Permission
            &&& forall|other: Seq<char>|
                other != tool_call_id@ && before.domain.pending_interactions@.dom().contains(other)
                    ==> #[trigger] after.domain.pending_interactions@.dom().contains(other)
                    && after.domain.pending_interactions@[other]
                    == before.domain.pending_interactions@[other]
        },
        event matches AgentEvent::QuestionRequest { session_id, tool_call_id, request } ==> {
            &&& translation.actions@.len() == 1
            &&& translation.actions@[0] == Action::Emit(
                SessionUpdate::QuestionRequest {
                    key: before.key,
                    tool_id: tool_call_id,
                    request,
                },
            )
            &&& translation.afterwards == (Afterwards::Await {
                session_id,
                tool_call_id,
                kind: InteractionKind::Question,
            })
            &&& after.domain.pending_interactions@.dom().contains(tool_call_id@)
            &&& after.domain.pending_interactions@[tool_call_id@] == InteractionKind::Question
            &&& forall|other: Seq<char>|
                other != tool_call_id@ && before.domain.pending_interactions@.dom().contains(other)
                    ==> #[trigger] after.domain.pending_interactions@.dom().contains(other)
                    && after.domain.pending_interactions@[other]
                    == before.domain.pending_interactions@[other]
        },
        event is PermissionRequest || event is QuestionRequest ==> after.key == before.key
            && after.connected_once == before.connected_once && after.domain.session_id
            == before.domain.session_id && after.domain.turn_pending == before.domain.turn_pending
            && after.domain.runtime_state == before.domain.runtime_state,
{
}

/// A failed connection ends the turn and the session. It is told, and not as a
/// fatal one. In a workspace that stands, those who wait for the session's
/// answers and for what was parked there are told, a worker's spawn is rolled
/// back with the reason, and the session is released last.
pub proof fn a_failed_connection_is_cleared_away(
    before: SessionTask,
    after: SessionTask,
    workspace: Option<&Workspace>,
    message: String,
    kind: crate::protocol::SpawnFailureKind,
    translation: Translation,
)
    requires
        translated(
            before,
            after,
            workspace,
            AgentEvent::ConnectionFailed { message, kind },
            translation,
        ),
    ensures
        translation.afterwards == Afterwards::Stopped,
        !after.domain.turn_pending,
        after.domain.runtime_state is None,
        after.domain.session_id == before.domain.session_id,
        after.key == before.key,
        after.connected_once == before.connected_once,
        after.domain.pending_interactions == before.domain.pending_interactions,
        translation.actions@.contains(
            Action::Emit(
                SessionUpdate::ConnectionFailed { key: before.key, message, fatal: false },
            ),
        ),
        workspace is None ==> translation.actions@.len() == 1,
        workspace is Some ==> {
            &&& translation.actions@.len() == 6
            &&& translation.actions@.contains(
                Action::DrainReviewActivity { caller: before.domain.key },
            )
            &&& translation.actions@.contains(Action::ExpireTargetInflight { key: before.key })
            &&& translation.actions@.contains(Action::ExpireParkedForSlot { slot: before.key })
            &&& translation.actions@.contains(
                Action::AsyncWorkerSpawnFailure { key: before.key, message, kind },
            )
            &&& translation.actions@.last() == (Action::ReleaseSessionIfCurrent {
                slot: before.key,
            })
        },
{
    let actions = translation.actions@;
    if workspace is Some {
        assert(actions[0] == (Action::DrainReviewActivity { caller: before.domain.key }));
        assert(actions[1] == (Action::ExpireTargetInflight { key: before.key }));
        assert(actions[2] == (Action::ExpireParkedForSlot { slot: before.key }));
        assert(actions[3] == (Action::AsyncWorkerSpawnFailure { key: before.key, message, kind }));
        assert(actions[4] == Action::Emit(
            SessionUpdate::ConnectionFailed { key: before.key, message, fatal: false },
        ));
    } else {
        assert(actions[0] == Action::Emit(
            SessionUpdate::ConnectionFailed { key: before.key, message, fatal: false },
        ));
    }
}

/// A message is shown in the chat last of all. A result or an error ends the
/// turn, and nothing else does. A limit that was not merely allowed is
/// reported once for the account of a session with an id; its reset time is
/// told where there is one that is not before the epoch. Only a message that
/// says how the session stands changes that.
pub proof fn a_message_is_shown_and_ends_the_turn(
    before: SessionTask,
    after: SessionTask,
    workspace: Option<&Workspace>,
    msg: SdkMessage,
    translation: Translation,
)
    requires
        translated(before, after, workspace, AgentEvent::SdkMessage { msg }, translation),
    ensures
        ({
            let actions = translation.actions@;
            let ended = msg is Result || msg is Error;
            &&& translation.afterwards == Afterwards::Running
            &&& actions.len() >= 1
            &&& actions.last() == Action::Emit(
                SessionUpdate::ChatAppended { key: before.key, msg },
            )
            &&& after.domain.turn_pending <==> before.domain.turn_pending && !ended
            &&& ended && workspace is Some ==> actions.len() == 2 && actions[0] == (
            Action::DrainReviewActivity { caller: before.domain.key })
            &&& after.domain.session_id == before.domain.session_id
            &&& after.domain.pending_interactions == before.domain.pending_interactions
            &&& after.key == before.key
            &&& after.connected_once == before.connected_once
            &&& match msg {
                SdkMessage::System { subtype, state: Some(state), .. } => if subtype@
                    == "session_state_changed"@ {
                    after.domain.runtime_state == Some(state)
                } else {
                    after.domain.runtime_state == before.domain.runtime_state
                },
                _ => after.domain.runtime_state == before.domain.runtime_state,
            }
            &&& match (msg, before.domain.session_id) {
                (SdkMessage::RateLimitEvent { status, resets_at, .. }, Some(id)) => if workspace
                    is Some && status != RateLimitStatus::Allowed {
                    &&& actions.len() == 2
                    &&& actions[0] matches Action::ReportRateLimit {
                        org,
                        project,
                        session_id,
                        reset_at,
                    }
                    &&& org == before.key.org
                    &&& project == before.key.project
                    &&& session_id == id
                    &&& (resets_at matches Some(at) && at >= 0) ==> reset_at == Some(
                        resets_at->0 as u64,
                    )
                    &&& (resets_at is None || resets_at->0 < 0) ==> reset_at is None
                } else {
                    actions.len() == 1
                },
                _ => ended || actions.len() == 1,
            }
        }),
{
}

/// A lead that connects for the first time brings its project's stored workers
/// back exactly where none of them is live; a worker brings nobody.
pub proof fn only_a_lead_alone_brings_workers_back(
    workspace: Workspace,
    slot: SessionSlot,
    force_new: bool,
)
    ensures
        ({
            let actions = respawn_hook(workspace, slot, force_new);
            &&& slot.label is Some || workspace.project_named(slot.project@) is None
                ==> actions.len() == 0
            &&& (workspace.project_named(slot.project@) matches Some(project)
                ==> slot.label is None ==> {
                &&& (forall|i: int|
                    0 <= i < workspace.live_workers@.len() ==> (
                    #[trigger] workspace.live_workers@[i]).project_key@ != project.key@) ==> actions
                    == seq![
                    Action::RespawnWorkers { slot, project_key: project.key, force_new },
                ]
                &&& (exists|i: int|
                    0 <= i < workspace.live_workers@.len() && (
                    #[trigger] workspace.live_workers@[i]).project_key@ == project.key@)
                    ==> actions.len() == 0
            })
        }),
{
    if slot.label is None && workspace.project_named(slot.project@) is Some {
        let project = workspace.project_named(slot.project@)->0;
        let p = of_project(project.key@);
        if any(workspace.live_workers@, p) {
            let i = choose|i: int|
                0 <= i < workspace.live_workers@.len() && p(#[trigger] workspace.live_workers@[i]);
            assert(workspace.live_workers@[i].project_key@ == project.key@);
        }
        if exists|i: int|
            0 <= i < workspace.live_workers@.len() && (
            #[trigger] workspace.live_workers@[i]).project_key@ == project.key@ {
            let i = choose|i: int|
                0 <= i < workspace.live_workers@.len() && (
                #[trigger] workspace.live_workers@[i]).project_key@ == project.key@;
            assert(p(workspace.live_workers@[i]));
        }
    }
}

/// A worker that connects for the first time gets its own first turn, where
/// its entry holds one; a lead gets none.
pub proof fn a_worker_is_kicked_with_its_own_turn(
    workspace: Workspace,
    slot: SessionSlot,
    i: int,
)
    ensures
        ({
            let actions = kick_hook(workspace, slot);
            &&& slot.label is None || workspace.project_named(slot.project@) is None
                ==> actions.len() == 0
            &&& (workspace.project_named(slot.project@) matches Some(project)
                ==> slot.label matches Some(label) ==> {
                &&& crate::workers::nobody_bears(workspace.live_workers@, project.key@, label@)
                    ==> actions.len() == 0
                &&& crate::workers::latest_at(workspace.live_workers@, project.key@, label@, i)
                    ==> match workspace.live_workers@[i].entry.kick {
                    Some(kick) => actions == seq![
                        Action::EnqueueKick { slot, prompt_body: kick },
                    ],
                    None => actions.len() == 0,
                }
            })
        }),
{
    if slot.label is Some && workspace.project_named(slot.project@) is Some {
        crate::workers::a_found_worker_bears_its_label(
            workspace.live_workers@,
            (workspace.project_named(slot.project@)->0).key@,
            slot.label->0@,
            i,
        );
    }
}

/// A connected session is listed among its project's exactly where it has a
/// directory and its slot is no live worker's.
pub proof fn a_session_that_is_no_worker_is_listed(
    workspace: &Workspace,
    key: SessionSlot,
    session_id: String,
    cwd: String,
)
    ensures
        ({
            let actions = catalog_mirror(Some(workspace), key, session_id, cwd);
            &&& cwd@.len() > 0 && (forall|i: int|
                0 <= i < workspace.live_workers@.len() ==> (
                #[trigger] workspace.live_workers@[i]).entry.slot@ != key@) ==> actions == seq![
                Action::RecordConnectedSession { cwd, session_id },
            ]
            &&& cwd@.len() == 0 || (exists|i: int|
                0 <= i < workspace.live_workers@.len() && (
                #[trigger] workspace.live_workers@[i]).entry.slot@ == key@) ==> actions.len() == 0
        }),
        catalog_mirror(None, key, session_id, cwd).len() == 0,
{
    let p = |w: LiveWorker| w.entry.slot@ == key@;
    if any(workspace.live_workers@, p) {
        let i = choose|i: int|
            0 <= i < workspace.live_workers@.len() && p(#[trigger] workspace.live_workers@[i]);
        assert(workspace.live_workers@[i].entry.slot@ == key@);
    }
    if exists|i: int|
        0 <= i < workspace.live_workers@.len() && (
        #[trigger] workspace.live_workers@[i]).entry.slot@ == key@ {
        let i = choose|i: int|
            0 <= i < workspace.live_workers@.len() && (
            #[trigger] workspace.live_workers@[i]).entry.slot@ == key@;
        assert(p(workspace.live_workers@[i]));
    }
}

/// A session that connects runs under the reported id, with no turn begun. In
/// a workspace that stands the id is noted before the news is told; what was
/// parked is delivered, and a worker tagged, after it. The first connection is
/// told as one, and brings workers back or kicks one; a later one is told as a
/// replacement, fails what waited for the session, and starts with nothing
/// pending and with the defaults.
pub proof fn a_connected_session_is_told_and_caught_up(
    before: SessionTask,
    after: SessionTask,
    workspace: &Workspace,
    event: AgentEvent,
    translation: Translation,
)
    requires
        translated(before, after, Some(workspace), event, translation),
        event is Connected,
    ensures
        event matches AgentEvent::Connected {
            session_id,
            cwd,
            current_model,
            available_models,
            mode,
            history_updates,
            compaction_count,
        } && {
            let actions = translation.actions@;
            let key = before.key;
            &&& translation.afterwards == Afterwards::Running
            &&& after.key == key
            &&& after.connected_once
            &&& after.domain.session_id == Some(session_id)
            &&& !after.domain.turn_pending
            &&& after.domain.runtime_state is None
            &&& after.domain.key == before.domain.key
            &&& before.connected_once ==> {
                &&& after.domain.pending_interactions@.dom() =~= Set::<Seq<char>>::empty()
                &&& after.domain.dictate_overrides.changed is None
            }
            &&& !before.connected_once ==> {
                &&& after.domain.pending_interactions == before.domain.pending_interactions
                &&& after.domain.dictate_overrides == before.domain.dictate_overrides
            }
            &&& exists|n: int|
                {
                    &&& 0 < n < actions.len()
                    &&& (#[trigger] actions[n]) matches Action::Emit(update)
                    &&& !before.connected_once ==> (update matches SessionUpdate::Connected {
                        key: k,
                        session_id: s,
                        cwd: c,
                        current_model: cm,
                        available_models: am,
                        mode: m,
                        history: h,
                        compaction_count: cc,
                    } && k == key && s == session_id && c == cwd && cm == current_model && am
                        == available_models && m == mode && cc == compaction_count && h@ == (
                    match history_updates {
                        Some(history) => history@,
                        None => Seq::empty(),
                    }))
                    &&& before.connected_once ==> (update matches SessionUpdate::SessionReplaced {
                        key: k,
                        session_id: s,
                        cwd: c,
                        current_model: cm,
                        available_models: am,
                        mode: m,
                        history: h,
                        compaction_count: cc,
                    } && k == key && s == session_id && c == cwd && cm == current_model && am
                        == available_models && m == mode && cc == compaction_count && h@ == (
                    match history_updates {
                        Some(history) => history@,
                        None => Seq::empty(),
                    }))
                    &&& actions[n - 1] == (Action::NoteRunningSessionId { key, session_id })
                    &&& !before.connected_once ==> actions[n + 1] == (Action::DrainParked {
                        slot: key,
                    })
                    &&& before.connected_once ==> (actions[n + 1] matches Action::Emit(
                        SessionUpdate::DictateOverrides { key: k, overrides },
                    ) && k == key && overrides.changed is None)
                    &&& actions.len() == n + 3
                    &&& actions[n + 2] == (Action::ApplyWorkerTag {
                        key,
                        session_id,
                        cwd,
                        minted_row: !before.connected_once && before.domain.spawn_wrote_row,
                    })
                }
            &&& before.connected_once ==> actions.contains(Action::ExpireTargetInflight { key })
                && actions.contains(Action::DrainReviewActivity { caller: before.domain.key })
            &&& forall|action: Action|
                #![trigger actions.contains(action)]
                catalog_mirror(Some(workspace), key, session_id, cwd).contains(action)
                    ==> actions.contains(action)
            &&& !before.connected_once ==> forall|action: Action|
                #![trigger actions.contains(action)]
                respawn_hook(*workspace, key, before.domain.spawned_force_new).contains(action)
                    || kick_hook(*workspace, key).contains(action) ==> actions.contains(action)
            &&& forall|i: int|
                0 <= i < actions.len() ==> {
                    &&& #[trigger] actions[i] is RespawnWorkers ==> !before.connected_once
                        && respawn_hook(
                        *workspace,
                        key,
                        before.domain.spawned_force_new,
                    ).contains(actions[i])
                    &&& actions[i] is EnqueueKick ==> !before.connected_once && kick_hook(
                        *workspace,
                        key,
                    ).contains(actions[i])
                    &&& actions[i] is RecordConnectedSession ==> catalog_mirror(
                        Some(workspace),
                        key,
                        session_id,
                        cwd,
                    ).contains(actions[i])
                    &&& actions[i] is DrainParked ==> !before.connected_once
                    &&& actions[i] is ExpireTargetInflight ==> before.connected_once
                }
        },
{
    if let AgentEvent::Connected { session_id, cwd, .. } = event {
        let actions = translation.actions@;
        let key = before.key;
        let first = before_connected(before, Some(workspace), session_id, cwd);
        let last = after_connected(before, Some(workspace), session_id, cwd);
        let n = first.len() as int;
        let mirror = catalog_mirror(Some(workspace), key, session_id, cwd);
        assert forall|i: int| 0 <= i < n implies actions[i] == first[i] by {
            assert(actions.take(n)[i] == first[i]);
        }
        assert(actions[n + 1] == actions.skip(n + 1)[0]);
        assert(actions[n + 2] == actions.skip(n + 1)[1]);
        assert(actions.skip(n + 1) == last);
        assert(last.len() == 2);
        assert(first.last() == (Action::NoteRunningSessionId { key, session_id }));
        assert(actions[n - 1] == first[n - 1]);
        assert forall|action: Action|
            #![trigger actions.contains(action)]
            mirror.contains(action) implies actions.contains(action) by {
            let i = choose|i: int| 0 <= i < mirror.len() && mirror[i] == action;
            assert(first[i] == action);
            assert(actions[i] == action);
        }
        let m = mirror.len() as int;
        if before.connected_once {
            assert(first[m] == (Action::ExpireTargetInflight { key }));
            assert(first[m + 1] == (Action::DrainReviewActivity { caller: before.domain.key }));
            assert(actions[m] == first[m]);
            assert(actions[m + 1] == first[m + 1]);
        } else {
            let back = respawn_hook(*workspace, key, before.domain.spawned_force_new);
            let kick = kick_hook(*workspace, key);
            let b = back.len() as int;
            assert forall|action: Action|
                #![trigger actions.contains(action)]
                back.contains(action) || kick.contains(action) implies actions.contains(action) by {
                if back.contains(action) {
                    let i = choose|i: int| 0 <= i < back.len() && back[i] == action;
                    assert(first[m + i] == action);
                    assert(actions[m + i] == action);
                } else {
                    let i = choose|i: int| 0 <= i < kick.len() && kick[i] == action;
                    assert(first[m + b + i] == action);
                    assert(actions[m + b + i] == action);
                }
            }
            assert forall|i: int| 0 <= i < n - 1 implies {
                ||| mirror.contains(#[trigger] first[i])
                ||| back.contains(first[i])
                ||| kick.contains(first[i])
            } by {
                if i < m {
                    assert(first[i] == mirror[i]);
                } else if i < m + b {
                    assert(first[i] == back[i - m]);
                } else {
                    assert(first[i] == kick[i - m - b]);
                }
            }
        }
    }
}

/// An envelope that waited for a session is shown to it as it came, and then
/// read.
pub proof fn an_envelope_that_waited_is_read(
    actions: Seq<Action>,
    key: SessionSlot,
    parked: crate::workspace::ParkedView,
    i: int,
)
    requires
        are_parked_deliveries(actions, key, parked),
        0 <= i < parked.peer.len(),
    ensures
        exists|k: int|
            {
                &&& 0 <= k < actions.len() - 1
                &&& (#[trigger] actions[k]) == Action::Emit(
                    SessionUpdate::PeerEnvelopeAppended { key, wrapped: parked.peer[i] },
                )
                &&& actions[k + 1] == (Action::Prompt { key, text: parked.peer[i].prose })
            },
{
    let (crons, slack, conversations) = choose|
        crons: Seq<Action>,
        slack: Seq<Action>,
        conversations: Seq<String>,
    |
        {
            &&& actions == peers_delivered(key, parked.peer) + crons + gotify_delivered(
                key,
                parked.gotify,
            ) + slack
            &&& #[trigger] are_cron_deliveries(crons, key, parked.cron)
            &&& are_conversations(conversations, parked.slack)
            &&& #[trigger] are_slack_deliveries(slack, key, conversations, parked.slack)
        };
    let peers = peers_delivered(key, parked.peer);
    let pushes = gotify_delivered(key, parked.gotify);
    let k = lemma_peer_shown(key, parked.peer, i);
    assert(actions =~= peers + (crons + pushes + slack));
    assert(actions[k] == peers[k]);
    assert(actions[k + 1] == peers[k + 1]);
}

/// A push notification that waited for a session is shown to it as it came,
/// and then read.
pub proof fn a_notification_that_waited_is_read(
    actions: Seq<Action>,
    key: SessionSlot,
    parked: crate::workspace::ParkedView,
    i: int,
)
    requires
        are_parked_deliveries(actions, key, parked),
        0 <= i < parked.gotify.len(),
    ensures
        exists|k: int|
            {
                &&& 0 <= k < actions.len() - 1
                &&& (#[trigger] actions[k]) == Action::Emit(
                    SessionUpdate::GotifyNotificationAppended {
                        key,
                        notification: parked.gotify[i],
                    },
                )
                &&& actions[k + 1] == (Action::Prompt { key, text: parked.gotify[i].prose })
            },
{
    let (crons, slack, conversations) = choose|
        crons: Seq<Action>,
        slack: Seq<Action>,
        conversations: Seq<String>,
    |
        {
            &&& actions == peers_delivered(key, parked.peer) + crons + gotify_delivered(
                key,
                parked.gotify,
            ) + slack
            &&& #[trigger] are_cron_deliveries(crons, key, parked.cron)
            &&& are_conversations(conversations, parked.slack)
            &&& #[trigger] are_slack_deliveries(slack, key, conversations, parked.slack)
        };
    let peers = peers_delivered(key, parked.peer);
    let pushes = gotify_delivered(key, parked.gotify);
    let k = lemma_push_shown(key, parked.gotify, i);
    let n = (peers + crons).len() as int;
    assert(actions =~= (peers + crons) + (pushes + slack));
    assert(actions[n + k] == pushes[k]);
    assert(actions[n + k + 1] == pushes[k + 1]);
}

/// A cron that waited for a session is shown to it and then read, with its
/// text, which says that it was missed where it was.
pub proof fn a_cron_that_waited_is_read(
    actions: Seq<Action>,
    key: SessionSlot,
    parked: crate::workspace::ParkedView,
    i: int,
)
    requires
        are_parked_deliveries(actions, key, parked),
        0 <= i < parked.cron.len(),
    ensures
        exists|k: int|
            {
                &&& 0 < k < actions.len()
                &&& (#[trigger] actions[k]) matches Action::Prompt { key: who, text }
                &&& who == key
                &&& text@ == if parked.cron[i].missed {
                    "[missed cron] "@ + parked.cron[i].text@
                } else {
                    parked.cron[i].text@
                }
                &&& actions[k - 1] matches Action::Emit(
                    SessionUpdate::CronPromptAppended { key: shown, text: same },
                )
                &&& shown == key
                &&& same@ == text@
            },
{
    let (crons, slack, conversations) = choose|
        crons: Seq<Action>,
        slack: Seq<Action>,
        conversations: Seq<String>,
    |
        {
            &&& actions == peers_delivered(key, parked.peer) + crons + gotify_delivered(
                key,
                parked.gotify,
            ) + slack
            &&& #[trigger] are_cron_deliveries(crons, key, parked.cron)
            &&& are_conversations(conversations, parked.slack)
            &&& #[trigger] are_slack_deliveries(slack, key, conversations, parked.slack)
        };
    let peers = peers_delivered(key, parked.peer);
    let pushes = gotify_delivered(key, parked.gotify);
    crons_keep_their_order(crons, key, parked.cron, i);
    let n = peers.len() as int;
    assert(actions =~= peers + crons + (pushes + slack));
    assert(actions[n + 2 * i] == crons[2 * i]);
    assert(actions[n + 2 * i + 1] == crons[2 * i + 1]);
}

/// A Slack message that waited for a session is in a prompt that the session
/// reads.
pub proof fn a_slack_message_that_waited_is_read(
    actions: Seq<Action>,
    key: SessionSlot,
    parked: crate::workspace::ParkedView,
    i: int,
)
    requires
        are_parked_deliveries(actions, key, parked),
        0 <= i < parked.slack.len(),
    ensures
        exists|k: int|
            {
                &&& 0 <= k < actions.len()
                &&& (#[trigger] actions[k]) matches Action::Prompt { key: who, text }
                &&& who == key
                &&& crate::deliver::is_within(
                    crate::deliver::slack_prose(parked.slack[i]),
                    text@,
                )
            },
{
    let (crons, slack, conversations) = choose|
        crons: Seq<Action>,
        slack: Seq<Action>,
        conversations: Seq<String>,
    |
        {
            &&& actions == peers_delivered(key, parked.peer) + crons + gotify_delivered(
                key,
                parked.gotify,
            ) + slack
            &&& #[trigger] are_cron_deliveries(crons, key, parked.cron)
            &&& are_conversations(conversations, parked.slack)
            &&& #[trigger] are_slack_deliveries(slack, key, conversations, parked.slack)
        };
    let peers = peers_delivered(key, parked.peer);
    let pushes = gotify_delivered(key, parked.gotify);
    a_parked_slack_message_is_delivered(conversations, parked.slack, i);
    let j = choose|j: int|
        0 <= j < conversations.len() && (#[trigger] conversations[j])@
            == parked.slack[i].conversation@ && parked.slack.filter(
            of_conversation(conversations[j]@),
        ).contains(parked.slack[i]);
    let bundle = parked.slack.filter(of_conversation(conversations[j]@));
    let at = choose|at: int| 0 <= at < bundle.len() && bundle[at] == parked.slack[i];
    crate::deliver::a_bundle_holds_every_message(bundle, at);
    let pair = slack.subrange(2 * j, 2 * j + 2);
    assert(is_slack_delivery(pair, key, bundle_prose(bundle)));
    assert(pair[1] == slack[2 * j + 1]);
    let n = (peers + crons + pushes).len() as int;
    assert(actions =~= (peers + crons + pushes) + slack);
    assert(actions[n + (2 * j + 1)] == slack[2 * j + 1]);
}

/// Where an envelope stands among those delivered.
proof fn lemma_peer_shown(key: SessionSlot, pending: Seq<WrappedPrompt>, i: int) -> (k: int)
    requires
        0 <= i < pending.len(),
    ensures
        0 <= k,
        k + 1 < peers_delivered(key, pending).len(),
        peers_delivered(key, pending)[k] == Action::Emit(
            SessionUpdate::PeerEnvelopeAppended { key, wrapped: pending[i] },
        ),
        peers_delivered(key, pending)[k + 1] == (Action::Prompt { key, text: pending[i].prose }),
    decreases pending.len(),
{
    let rest = peers_delivered(key, pending.drop_last());
    let last = peer_delivery(key, pending.last());
    assert(peers_delivered(key, pending) == rest + last);
    assert(last.len() >= 2);
    if i == pending.len() - 1 {
        let k = rest.len() + last.len() - 2;
        assert((rest + last)[k] == last[last.len() - 2]);
        assert((rest + last)[k + 1] == last[last.len() - 1]);
        k
    } else {
        let k = lemma_peer_shown(key, pending.drop_last(), i);
        assert((rest + last)[k] == rest[k]);
        assert((rest + last)[k + 1] == rest[k + 1]);
        k
    }
}

/// Where a notification stands among those delivered.
proof fn lemma_push_shown(key: SessionSlot, pending: Seq<GotifyNotification>, i: int) -> (k: int)
    requires
        0 <= i < pending.len(),
    ensures
        0 <= k,
        k + 1 < gotify_delivered(key, pending).len(),
        gotify_delivered(key, pending)[k] == Action::Emit(
            SessionUpdate::GotifyNotificationAppended { key, notification: pending[i] },
        ),
        gotify_delivered(key, pending)[k + 1] == (Action::Prompt { key, text: pending[i].prose }),
    decreases pending.len(),
{
    let rest = gotify_delivered(key, pending.drop_last());
    let last = gotify_delivery(key, pending.last());
    assert(gotify_delivered(key, pending) == rest + last);
    assert(last.len() == 2);
    if i == pending.len() - 1 {
        let k = rest.len() as int;
        assert((rest + last)[k] == last[0]);
        assert((rest + last)[k + 1] == last[1]);
        k
    } else {
        let k = lemma_push_shown(key, pending.drop_last(), i);
        assert((rest + last)[k] == rest[k]);
        assert((rest + last)[k + 1] == rest[k + 1]);
        k
    }
}

/// The pending crons are delivered in their order, each shown and then read.
pub proof fn crons_keep_their_order(
    actions: Seq<Action>,
    key: SessionSlot,
    pending: Seq<PendingCron>,
    i: int,
)
    requires
        are_cron_deliveries(actions, key, pending),
        0 <= i < pending.len(),
    ensures
        actions.len() == 2 * pending.len(),
        actions[2 * i] matches Action::Emit(SessionUpdate::CronPromptAppended { key: who, text })
            && who == key && text@ == if pending[i].missed {
            "[missed cron] "@ + pending[i].text@
        } else {
            pending[i].text@
        },
        actions[2 * i + 1] matches Action::Prompt { key: who, text } && who == key && text@
            == if pending[i].missed {
            "[missed cron] "@ + pending[i].text@
        } else {
            pending[i].text@
        },
{
    let pair = actions.subrange(2 * i, 2 * i + 2);
    assert(is_cron_delivery(pair, key, cron_text(pending[i].text@, pending[i].missed)));
    assert(pair[0] == actions[2 * i]);
    assert(pair[1] == actions[2 * i + 1]);
}

/// A declared model gives its name to all that a model is called by; without
/// one the model stays as the agent reported it.
pub proof fn a_declared_model_names_the_session(model: CurrentModel, canonical: Option<String>)
    ensures
        ({
            let named = model_named(model, canonical);
            match canonical {
                Some(name) => {
                    &&& named.requested_id == Some(name)
                    &&& named.display_name_short == name
                    &&& named.display_name_long == name
                    &&& model == (CurrentModel {
                        requested_id: model.requested_id,
                        display_name_short: model.display_name_short,
                        display_name_long: model.display_name_long,
                        ..named
                    })
                },
                None => named == model,
            }
        }),
{
}

/// Outside of a workspace a connection is only told: as one, or as a
/// replacement with the defaults restored. A message is only shown there.
pub proof fn without_a_workspace_news_is_only_told(
    before: SessionTask,
    after: SessionTask,
    event: AgentEvent,
    translation: Translation,
)
    requires
        translated(before, after, None, event, translation),
    ensures
        event is Connected ==> {
            let actions = translation.actions@;
            &&& !before.connected_once ==> actions.len() == 1 && (actions[0] matches Action::Emit(
                SessionUpdate::Connected { key, .. },
            ) && key == before.key)
            &&& before.connected_once ==> actions.len() == 2 && (actions[0] matches Action::Emit(
                SessionUpdate::SessionReplaced { key, .. },
            ) && key == before.key) && (actions[1] matches Action::Emit(
                SessionUpdate::DictateOverrides { key, overrides },
            ) && key == before.key && overrides.changed is None)
        },
        event matches AgentEvent::SdkMessage { msg } ==> translation.actions@.len() == 1,
{
    if let AgentEvent::Connected { session_id, cwd, .. } = event {
        let actions = translation.actions@;
        let first = before_connected(before, None, session_id, cwd);
        let last = after_connected(before, None, session_id, cwd);
        assert(first =~= Seq::<Action>::empty());
        assert(actions.skip(1) == last);
        if before.connected_once {
            assert(actions[1] == actions.skip(1)[0]);
        }
    }
}

/// A connection changes nothing of how a session was spawned, and neither does
/// any other event.
pub proof fn how_a_session_was_spawned_stays(
    before: SessionTask,
    after: SessionTask,
    workspace: Option<&Workspace>,
    event: AgentEvent,
    translation: Translation,
)
    requires
        translated(before, after, workspace, event, translation),
    ensures
        after.key == before.key,
        after.domain.key == before.domain.key,
        after.domain.spawned_force_new == before.domain.spawned_force_new,
        after.domain.spawn_wrote_row == before.domain.spawn_wrote_row,
        !(event is Connected) ==> after.domain.dictate_overrides == before.domain.dictate_overrides,
        !(event is Connected) ==> after.domain.session_id == before.domain.session_id,
{
}

/// The Slack messages that waited are told by conversation, in the order of
/// the conversations' ids, each conversation once: shown and then read, with
/// every message of it and in their order.
pub proof fn slack_is_told_by_conversation(
    actions: Seq<Action>,
    key: SessionSlot,
    conversations: Seq<String>,
    pending: Seq<SlackMessage>,
    i: int,
)
    requires
        are_conversations(conversations, pending),
        are_slack_deliveries(actions, key, conversations, pending),
        0 <= i < conversations.len(),
    ensures
        actions.len() == 2 * conversations.len(),
        ({
            let own = pending.filter(
                |m: SlackMessage| m.conversation@ == conversations[i]@,
            );
            &&& own.len() > 0
            &&& actions[2 * i] matches Action::Emit(
                SessionUpdate::SlackMessageAppended { key: who, prose },
            )
            &&& who == key
            &&& prose@ == bundle_prose(own)
            &&& actions[2 * i + 1] matches Action::Prompt { key: reader, text }
            &&& reader == key
            &&& text@ == prose@
        }),
        forall|j: int|
            0 <= j < i ==> text_less((#[trigger] conversations[j])@, conversations[i]@),
{
    let c = conversations[i]@;
    let own = |m: SlackMessage| m.conversation@ == c;
    assert(own =~= of_conversation(c));
    let pair = actions.subrange(2 * i, 2 * i + 2);
    assert(is_slack_delivery(pair, key, bundle_prose(pending.filter(of_conversation(c)))));
    assert(pair[0] == actions[2 * i]);
    assert(pair[1] == actions[2 * i + 1]);
    assert(exists|k: int| 0 <= k < conversations.len() && (#[trigger] conversations[k])@ == c);
    assert(any(pending, of_conversation(c)));
    let k = choose|k: int| 0 <= k < pending.len() && of_conversation(c)(#[trigger] pending[k]);
    crate::seqs::lemma_filter_holds(pending, of_conversation(c), k);
    assert(pending.filter(own) == pending.filter(of_conversation(c)));
}

/// A tool call whose answer was taken waits no more; every other one waits on,
/// and nothing else of the session changes.
pub proof fn an_answered_call_waits_no_more(
    before: SessionTask,
    after: SessionTask,
    tool_id: Seq<char>,
)
    requires
        waits_no_more(before, after, tool_id),
    ensures
        !after.domain.pending_interactions@.dom().contains(tool_id),
        forall|other: Seq<char>|
            other != tool_id ==> {
                &&& #[trigger] after.domain.pending_interactions@.dom().contains(other)
                    <==> before.domain.pending_interactions@.dom().contains(other)
                &&& before.domain.pending_interactions@.dom().contains(other)
                    ==> after.domain.pending_interactions@[other]
                    == before.domain.pending_interactions@[other]
            },
        after.key == before.key,
        after.connected_once == before.connected_once,
        after.domain.session_id == before.domain.session_id,
        after.domain.turn_pending == before.domain.turn_pending,
        after.domain.runtime_state == before.domain.runtime_state,
{
}

/// Where a project declares its models, a connection offers those and no
/// others, under the declared name where there is one; without a declaration
/// it offers none. Nothing else of it changes, and no other event does.
pub proof fn declared_models_are_what_is_offered(
    event: AgentEvent,
    declared: Option<DeclaredModels>,
    declared_event: AgentEvent,
)
    requires
        models_declared(event, declared, declared_event),
    ensures
        !(event is Connected) ==> declared_event == event,
        event matches AgentEvent::Connected {
            session_id,
            cwd,
            current_model,
            available_models,
            mode,
            history_updates,
            compaction_count,
        } ==> {
            &&& declared_event matches AgentEvent::Connected {
                session_id: id,
                cwd: dir,
                current_model: model,
                available_models: offered,
                mode: m,
                history_updates: h,
                compaction_count: c,
            }
            &&& id == session_id
            &&& dir == cwd
            &&& m == mode
            &&& h == history_updates
            &&& c == compaction_count
            &&& declared matches Some(given) ==> offered == given.available
            &&& declared is None ==> offered@.len() == 0 && model == current_model
            &&& (declared matches Some(given) && given.canonical is None) ==> model == current_model
            &&& (declared matches Some(given) ==> (given.canonical matches Some(name)
                ==> model.requested_id == Some(name) && model.display_name_short == name
                && model.display_name_long == name))
        },
{
}

/// A task that is dropped in a workspace that stands tells what its last turn
/// did to the threads, and fails what waits for its answers; outside of one it
/// does nothing.
pub proof fn a_dropped_task_fails_what_waits_for_it(
    this: SessionTask,
    standing: bool,
    actions: Vec<Action>,
)
    requires
        task_dropped(this, standing, actions),
    ensures
        standing ==> actions@.contains(Action::ExpireTargetInflight { key: this.key })
            && actions@.contains(Action::DrainReviewActivity { caller: this.domain.key })
            && actions@.len() == 2,
        !standing ==> actions@.len() == 0,
{
    if standing {
        assert(actions@[0] == (Action::DrainReviewActivity { caller: this.domain.key }));
        assert(actions@[1] == (Action::ExpireTargetInflight { key: this.key }));
    }
}

/// A session whose events cannot be heard is told as failed, and not as
/// fatally so; one whose can tells whose account it runs under, where that is
/// known.
pub proof fn a_started_session_tells_its_account(
    this: SessionTask,
    has_events: bool,
    display_name: Option<String>,
    actions: Vec<Action>,
)
    requires
        task_started(this, has_events, display_name, actions),
    ensures
        !has_events ==> actions@.len() == 1 && (actions@[0] matches Action::Emit(
            SessionUpdate::ConnectionFailed { key, message, fatal },
        ) && key == this.key && !fatal),
        has_events ==> (display_name matches Some(name) ==> actions@.len() == 1 && actions@[0]
            == Action::Emit(
            SessionUpdate::ForgeAccountIdentity { key: this.key, display_name: name },
        )),
        has_events && display_name is None ==> actions@.len() == 0,
{
}

} // verus!
