//! Delivering what arrives for a session: envelopes of other sessions, due
//! crons, push notifications and Slack messages.
//!
//! A session that is up gets a prompt. For one that is asleep or still
//! starting the payload is parked; the session drains it when it connects.

use crate::protocol::{
    Action, GotifyNotification, PendingCron, SessionUpdate, SlackFile, SlackMessage, WrappedKind,
    WrappedPrompt,
};
use crate::seqs::{first_match, last_match};
use crate::slack::{after_delivery, remembered, SlackState};
use crate::slot::{lead_slot, option_view, SessionSlot, SlotId};
use crate::spawn::{is_turn_error, send_dispatch_turn_error};
use crate::workers::{
    a_found_worker_bears_its_label, earliest_at, labelled, labelled_up, latest_at, nobody_bears,
    nobody_up_bears,
};
use crate::workspace::{ParkedView, ProjectView, Workspace};
use vstd::prelude::*;

verus! {

/// `after` is `before` with `now` parked for `slot`.
pub open spec fn parked_more(
    before: Workspace,
    after: Workspace,
    slot: SlotId,
    now: ParkedView,
) -> bool {
    &&& after == (Workspace { parked: after.parked, ..before })
    &&& after.parked.at(slot) == now
    &&& forall|other: SlotId|
        other != slot ==> #[trigger] after.parked.at(other) == before.parked.at(other)
}

/// What is parked with one more envelope.
pub open spec fn with_peer(parked: ParkedView, wrapped: WrappedPrompt) -> ParkedView {
    ParkedView { peer: parked.peer.push(wrapped), ..parked }
}

/// What is parked with one more cron's prompt.
pub open spec fn with_cron(parked: ParkedView, text: String, missed: bool) -> ParkedView {
    ParkedView { cron: parked.cron.push(PendingCron { text, missed }), ..parked }
}

/// What is parked with one more notification.
pub open spec fn with_gotify(parked: ParkedView, notification: GotifyNotification) -> ParkedView {
    ParkedView { gotify: parked.gotify.push(notification), ..parked }
}

/// What is parked with one more Slack message.
pub open spec fn with_slack(parked: ParkedView, message: SlackMessage) -> ParkedView {
    ParkedView { slack: parked.slack.push(message), ..parked }
}

/// Show an envelope in the chat of the session it is for.
pub fn push_peer_user_turn_into_chat(key: &SessionSlot, wrapped: &WrappedPrompt) -> (action: Action)
    ensures
        action == Action::Emit(
            SessionUpdate::PeerEnvelopeAppended { key: *key, wrapped: *wrapped },
        ),
{
    Action::Emit(SessionUpdate::PeerEnvelopeAppended { key: key.clone(), wrapped: wrapped.clone() })
}

/// Show a notification in the chat of the session it is for.
pub fn push_gotify_notification_into_chat(
    key: &SessionSlot,
    notification: &GotifyNotification,
) -> (action: Action)
    ensures
        action == Action::Emit(
            SessionUpdate::GotifyNotificationAppended { key: *key, notification: *notification },
        ),
{
    Action::Emit(
        SessionUpdate::GotifyNotificationAppended {
            key: key.clone(),
            notification: notification.clone(),
        },
    )
}

/// Show a cron's prompt in the chat of the session it is for.
pub fn push_cron_prompt_into_chat(key: &SessionSlot, text: &String) -> (action: Action)
    ensures
        action == Action::Emit(SessionUpdate::CronPromptAppended { key: *key, text: *text }),
{
    Action::Emit(SessionUpdate::CronPromptAppended { key: key.clone(), text: text.clone() })
}

/// Show Slack messages in the chat of the session they are for.
pub fn push_slack_message_into_chat(key: &SessionSlot, prose: &String) -> (action: Action)
    ensures
        action == Action::Emit(SessionUpdate::SlackMessageAppended { key: *key, prose: *prose }),
{
    Action::Emit(SessionUpdate::SlackMessageAppended { key: key.clone(), prose: prose.clone() })
}

/// What delivers an envelope to a session that is up. A question waits for a
/// reply, so it is counted and tied to the session; nothing else is. The
/// chat shows the envelope before the agent gets it.
pub open spec fn peer_delivery(key: SessionSlot, wrapped: WrappedPrompt) -> Seq<Action> {
    (if wrapped.kind == WrappedKind::Question {
        seq![
            Action::BumpIncoming { key },
            Action::StampInflightTarget { correlation_id: wrapped.correlation_id, key },
        ]
    } else {
        Seq::<Action>::empty()
    }) + seq![
        Action::Emit(SessionUpdate::PeerEnvelopeAppended { key, wrapped }),
        Action::Prompt { key, text: wrapped.prose },
    ]
}

/// Deliver an envelope to a session that is up.
pub fn deliver_peer_now(key: &SessionSlot, wrapped: &WrappedPrompt) -> (actions: Vec<Action>)
    ensures
        actions@ == peer_delivery(*key, *wrapped),
{
    let mut actions: Vec<Action> = Vec::new();
    if wrapped.kind == WrappedKind::Question {
        actions.push(Action::BumpIncoming { key: key.clone() });
        actions.push(
            Action::StampInflightTarget {
                correlation_id: wrapped.correlation_id.clone(),
                key: key.clone(),
            },
        );
    }
    actions.push(push_peer_user_turn_into_chat(key, wrapped));
    actions.push(Action::Prompt { key: key.clone(), text: wrapped.prose.clone() });
    assert(actions@ =~= peer_delivery(*key, *wrapped));
    actions
}

/// What delivering an envelope to a project comes to: `after` is the workspace
/// then, `actions` what is to be done.
pub open spec fn peer_answered(
    before: Workspace,
    after: Workspace,
    target_project: String,
    wrapped: WrappedPrompt,
    actions: Seq<Action>,
) -> bool {
    match (
        before.running_lead(target_project@),
        before.project_named(target_project@),
    ) {
        (Some(key), _) => after == before && actions == peer_delivery(
            key,
            wrapped,
        ),
        (None, Some(project)) => {
            let lead = lead_slot(project.org, project.name);
            &&& parked_more(
                before,
                after,
                lead@,
                with_peer(before.parked.at(lead@), wrapped),
            )
            &&& actions == seq![Action::SpawnProject { project_name: target_project }]
        },
        (None, None) => after == before && actions.len() == 0,
    }
}

/// Deliver an envelope to the lead of a project. One that is asleep is
/// woken, and finds the envelope parked; an unknown project gets nothing.
pub fn handle_deliver_peer_prompt(
    workspace: &mut Workspace,
    target_project: &String,
    wrapped: WrappedPrompt,
) -> (actions: Vec<Action>)
    requires
        old(workspace).wf(),
    ensures
        final(workspace).wf(),
        peer_answered(
            *old(workspace),
            *final(workspace),
            *target_project,
            wrapped,
            actions@,
        ),
{
    match workspace.running_lead_slot(target_project) {
        Some(key) => {
            return deliver_peer_now(&key, &wrapped);
        },
        None => {},
    }
    let mut actions: Vec<Action> = Vec::new();
    let lead = match workspace.find_project_view_by_name(target_project) {
        Some(project) => SessionSlot::lead(&project.org, &project.name),
        None => {
            return actions;
        },
    };
    workspace.parked.park_peer_prompt(&lead, wrapped);
    actions.push(Action::SpawnProject { project_name: target_project.clone() });
    assert(actions@ =~= seq![Action::SpawnProject { project_name: *target_project }]);
    actions
}

/// What became of a cron that was due.
#[derive(Debug, PartialEq, Eq)]
pub enum CronFireOutcome {
    /// Its owner has it, or will find it. It is advanced or removed.
    Delivered,
    /// Its owner does not exist any more. It is removed.
    TargetGone,
    /// Its owner has a row, but nothing would start it. A recurring one is
    /// advanced, a single one stays due.
    TargetCannotBeWoken { directory: String },
    /// It could not be handed over now. It stays due.
    DispatchFailed,
}

/// What is stored of a cron's owner.
#[derive(Debug, PartialEq, Eq)]
pub enum StoredOwner {
    Unreadable,
    Absent,
    /// The directory its session would start in, and whether it can.
    Stored { directory: String, can_start: bool },
}

/// Whether a cron's owner can be woken.
#[derive(Debug, PartialEq, Eq)]
pub enum CronOwnerCheck {
    Exists,
    CannotBeWoken { directory: String },
    Absent,
    Unknown,
}

/// What decides whether a cron's owner can be woken now.
#[derive(Debug, PartialEq, Eq)]
pub struct CronFacts {
    pub owner: StoredOwner,
    /// Every account is settled.
    pub accounts_loaded: bool,
    /// Every account that serves the project's model is cooling down.
    pub walk_cooling: bool,
}

/// The text that a due cron delivers.
pub open spec fn cron_text(prompt: Seq<char>, missed: bool) -> Seq<char> {
    if missed {
        "[missed cron] "@ + prompt
    } else {
        prompt
    }
}

/// The text that a due cron delivers: its prompt, marked where it is late.
pub fn missed_cron_text(prompt: &str, missed: bool) -> (text: String)
    ensures
        text@ == cron_text(prompt@, missed),
{
    if missed {
        let mut text = "[missed cron] ".to_owned();
        text.append(prompt);
        text
    } else {
        prompt.to_owned()
    }
}

/// The slot that a cron's owner would have in a project, where something
/// fills it.
pub open spec fn filled_slot(
    workspace: Workspace,
    project: ProjectView,
    team_role: Option<String>,
) -> Option<SessionSlot> {
    match team_role {
        Some(label) => match first_match(
            workspace.live_workers@,
            labelled(project.key@, label@),
        ) {
            Some(worker) => Some(worker.entry.slot),
            None => None,
        },
        None => {
            let lead = lead_slot(project.org, project.name);
            if workspace.pooled(lead@) {
                Some(lead)
            } else {
                None
            }
        },
    }
}

/// The session that gets a cron's prompt at once: it fills the owner's slot
/// and has connected.
pub open spec fn cron_target(
    workspace: Workspace,
    project: ProjectView,
    team_role: Option<String>,
) -> Option<SessionSlot> {
    match filled_slot(workspace, project, team_role) {
        Some(slot) => if workspace.connected(slot@) {
            Some(slot)
        } else {
            None
        },
        None => None,
    }
}

/// The session that gets a cron's prompt at once.
pub fn live_cron_slot(
    workspace: &Workspace,
    project: &ProjectView,
    team_role: &Option<String>,
) -> (slot: Option<SessionSlot>)
    ensures
        slot == cron_target(*workspace, *project, *team_role),
{
    let candidate = match team_role {
        Some(label) => match workspace.live_workers.earliest(&project.key, label) {
            Some(entry) => entry.slot.clone(),
            None => {
                return None;
            },
        },
        None => {
            let lead = SessionSlot::lead(&project.org, &project.name);
            if !workspace.session_is_pooled(&lead) {
                return None;
            }
            lead
        },
    };
    if workspace.is_connected(&candidate) {
        Some(candidate)
    } else {
        None
    }
}

/// Whether a cron's owner can be woken: a lead can, a worker that is up can,
/// and one that its row can start.
pub open spec fn owner_check(
    workspace: Workspace,
    project: ProjectView,
    team_role: Option<String>,
    owner: StoredOwner,
) -> CronOwnerCheck {
    match team_role {
        None => CronOwnerCheck::Exists,
        Some(label) => if first_match(
            workspace.live_workers@,
            labelled_up(project.key@, label@),
        ) is Some {
            CronOwnerCheck::Exists
        } else {
            match owner {
                StoredOwner::Absent => CronOwnerCheck::Absent,
                StoredOwner::Unreadable => CronOwnerCheck::Unknown,
                StoredOwner::Stored { directory, can_start } => if can_start {
                    CronOwnerCheck::Exists
                } else {
                    CronOwnerCheck::CannotBeWoken { directory }
                },
            }
        },
    }
}

/// Whether a cron's owner can be woken.
pub fn cron_slot_exists(
    workspace: &Workspace,
    project: &ProjectView,
    team_role: &Option<String>,
    owner: &StoredOwner,
) -> (check: CronOwnerCheck)
    ensures
        check == owner_check(*workspace, *project, *team_role, *owner),
{
    let label = match team_role {
        Some(label) => label,
        None => {
            return CronOwnerCheck::Exists;
        },
    };
    match workspace.live_workers.up_with_label(&project.key, label) {
        Some(_) => {
            return CronOwnerCheck::Exists;
        },
        None => {},
    }
    match owner {
        StoredOwner::Absent => CronOwnerCheck::Absent,
        StoredOwner::Unreadable => CronOwnerCheck::Unknown,
        StoredOwner::Stored { directory, can_start } => if *can_start {
            CronOwnerCheck::Exists
        } else {
            CronOwnerCheck::CannotBeWoken { directory: directory.clone() }
        },
    }
}

/// What settles a cron once its actions are done; see [`cron_dispatched`].
#[derive(Debug, PartialEq, Eq)]
pub enum CronNext {
    Done(CronFireOutcome),
    /// The prompt to this session was handed over, or not.
    AfterPrompt(SessionSlot),
    /// The project was asked to start, or not.
    AfterSpawn,
}

/// What a due cron asks for.
#[derive(Debug, PartialEq, Eq)]
pub struct CronStep {
    pub actions: Vec<Action>,
    pub next: CronNext,
}

/// The two actions that deliver a cron's prompt to a session that is up.
pub open spec fn is_cron_delivery(actions: Seq<Action>, key: SessionSlot, text: Seq<char>) -> bool {
    &&& actions.len() == 2
    &&& actions[0] matches Action::Emit(SessionUpdate::CronPromptAppended { key: k, text: t })
    &&& k == key
    &&& t@ == text
    &&& actions[1] matches Action::Prompt { key: k, text: t }
    &&& k == key
    &&& t@ == text
}

/// Deliver a cron's prompt to a session that is up.
pub fn deliver_cron_now(key: &SessionSlot, prompt: &String, missed: bool) -> (actions: Vec<Action>)
    ensures
        is_cron_delivery(actions@, *key, cron_text(prompt@, missed)),
{
    let mut actions: Vec<Action> = Vec::new();
    let text = missed_cron_text(prompt.as_str(), missed);
    actions.push(push_cron_prompt_into_chat(key, &text));
    actions.push(Action::Prompt { key: key.clone(), text });
    actions
}

/// Why a cron's owner cannot be woken now, if it cannot.
pub open spec fn cron_refusal(check: CronOwnerCheck, facts: CronFacts) -> Option<CronFireOutcome> {
    match check {
        CronOwnerCheck::CannotBeWoken { directory } => Some(
            CronFireOutcome::TargetCannotBeWoken { directory },
        ),
        CronOwnerCheck::Absent => Some(CronFireOutcome::TargetGone),
        CronOwnerCheck::Unknown => Some(CronFireOutcome::DispatchFailed),
        CronOwnerCheck::Exists => if !facts.accounts_loaded || facts.walk_cooling {
            Some(CronFireOutcome::DispatchFailed)
        } else {
            None
        },
    }
}

/// What delivering a due cron comes to: `after` is the workspace then, `step`
/// what is to be done.
pub open spec fn cron_answered(
    before: Workspace,
    after: Workspace,
    project_name: String,
    team_role: Option<String>,
    prompt: String,
    missed: bool,
    facts: CronFacts,
    step: CronStep,
) -> bool {
    match before.project_named(project_name@) {
        None => after == before && step.actions@.len() == 0 && step.next
            == CronNext::Done(CronFireOutcome::TargetGone),
        Some(project) => match cron_target(before, project, team_role) {
            Some(key) => {
                &&& after == before
                &&& is_cron_delivery(step.actions@, key, cron_text(prompt@, missed))
                &&& step.next == CronNext::AfterPrompt(key)
            },
            None => match cron_refusal(
                owner_check(before, project, team_role, facts.owner),
                facts,
            ) {
                Some(outcome) => after == before && step.actions@.len()
                    == 0 && step.next == CronNext::Done(outcome),
                None => {
                    let slot = SessionSlot {
                        org: project.org,
                        project: project.name,
                        label: team_role,
                    };
                    &&& parked_more(
                        before,
                        after,
                        slot@,
                        with_cron(before.parked.at(slot@), prompt, missed),
                    )
                    &&& step.actions@ == seq![
                        Action::SpawnProject { project_name },
                    ]
                    &&& step.next == CronNext::AfterSpawn
                },
            },
        },
    }
}

/// Deliver a due cron to its owner: a project's lead, or the worker that
/// `team_role` labels. One that is up gets the prompt; one that can be woken
/// finds it parked; else the cron's fate is settled at once.
pub fn deliver_cron_prompt(
    workspace: &mut Workspace,
    project_name: &String,
    team_role: &Option<String>,
    prompt: String,
    missed: bool,
    facts: &CronFacts,
) -> (step: CronStep)
    requires
        old(workspace).wf(),
    ensures
        final(workspace).wf(),
        cron_answered(
            *old(workspace),
            *final(workspace),
            *project_name,
            *team_role,
            prompt,
            missed,
            *facts,
            step,
        ),
{
    let mut actions: Vec<Action> = Vec::new();
    let project = match workspace.find_project_view_by_name(project_name) {
        Some(project) => project.clone(),
        None => {
            return CronStep { actions, next: CronNext::Done(CronFireOutcome::TargetGone) };
        },
    };
    match live_cron_slot(workspace, &project, team_role) {
        Some(key) => {
            let delivery = deliver_cron_now(&key, &prompt, missed);
            return CronStep { actions: delivery, next: CronNext::AfterPrompt(key) };
        },
        None => {},
    }
    match cron_slot_exists(workspace, &project, team_role, &facts.owner) {
        CronOwnerCheck::Exists => {},
        CronOwnerCheck::CannotBeWoken { directory } => {
            return CronStep {
                actions,
                next: CronNext::Done(CronFireOutcome::TargetCannotBeWoken { directory }),
            };
        },
        CronOwnerCheck::Absent => {
            return CronStep { actions, next: CronNext::Done(CronFireOutcome::TargetGone) };
        },
        CronOwnerCheck::Unknown => {
            return CronStep { actions, next: CronNext::Done(CronFireOutcome::DispatchFailed) };
        },
    }
    if !facts.accounts_loaded || facts.walk_cooling {
        return CronStep { actions, next: CronNext::Done(CronFireOutcome::DispatchFailed) };
    }
    let slot = SessionSlot::for_label(&project.org, &project.name, team_role);
    workspace.parked.park_cron(&slot, prompt, missed);
    actions.push(Action::SpawnProject { project_name: project_name.clone() });
    assert(actions@ =~= seq![Action::SpawnProject { project_name: *project_name }]);
    CronStep { actions, next: CronNext::AfterSpawn }
}

/// What becomes of a cron once it was handed over, or was not.
pub open spec fn cron_settled(
    next: CronNext,
    dispatched: Result<(), String>,
    settled: ( Vec<Action>, CronFireOutcome, ),
) -> bool {
    match (next, dispatched) {
        (CronNext::Done(outcome), _) => settled.0@.len() == 0 && settled.1 == outcome,
        (_, Ok(())) => settled.0@.len() == 0 && settled.1 == CronFireOutcome::Delivered,
        (CronNext::AfterPrompt(key), Err(err)) => settled.0@.len() == 1 && is_turn_error(
            settled.0@[0],
            key,
            err@,
        ) && settled.1 == CronFireOutcome::DispatchFailed,
        (CronNext::AfterSpawn, Err(_)) => settled.0@.len() == 0 && settled.1
            == CronFireOutcome::DispatchFailed,
    }
}

/// Settle a cron once what it asked for was dispatched, or was not. A prompt
/// that was not unwinds the turn it was shown as.
pub fn cron_dispatched(next: CronNext, dispatched: Result<(), String>) -> (settled: (
    Vec<Action>,
    CronFireOutcome,
))
    ensures
        cron_settled(next, dispatched, settled),
{
    let mut actions: Vec<Action> = Vec::new();
    match next {
        CronNext::Done(outcome) => (actions, outcome),
        CronNext::AfterPrompt(key) => match dispatched {
            Ok(()) => (actions, CronFireOutcome::Delivered),
            Err(err) => {
                actions.push(send_dispatch_turn_error(key, &err));
                (actions, CronFireOutcome::DispatchFailed)
            },
        },
        CronNext::AfterSpawn => match dispatched {
            Ok(()) => (actions, CronFireOutcome::Delivered),
            Err(_) => (actions, CronFireOutcome::DispatchFailed),
        },
    }
}

/// The slot of the worker that is labelled `label` in a project, connected
/// or not.
pub open spec fn team_worker(workspace: Workspace, project: Seq<char>, label: Seq<char>) -> Option<
    SessionSlot,
> {
    match workspace.project_named(project) {
        Some(view) => match first_match(workspace.live_workers@, labelled(view.key@, label)) {
            Some(worker) => Some(worker.entry.slot),
            None => None,
        },
        None => None,
    }
}

/// The worker that a subscription of `team_role` is for, where it has one.
pub open spec fn subscribed_worker(
    workspace: Workspace,
    project: Seq<char>,
    team_role: Option<String>,
) -> Option<SessionSlot> {
    match team_role {
        Some(role) => team_worker(workspace, project, role@),
        None => None,
    }
}

/// The slot of the worker that is labelled `label` in a project.
pub fn team_worker_key(workspace: &Workspace, project: &String, label: &String) -> (slot: Option<
    SessionSlot,
>)
    ensures
        slot == team_worker(*workspace, project@, label@),
{
    match workspace.find_project_view_by_name(project) {
        Some(view) => match workspace.live_workers.earliest(&view.key, label) {
            Some(entry) => Some(entry.slot.clone()),
            None => None,
        },
        None => None,
    }
}

/// What delivers a notification to a session that is up.
pub open spec fn gotify_delivery(key: SessionSlot, notification: GotifyNotification) -> Seq<Action> {
    seq![
        Action::Emit(SessionUpdate::GotifyNotificationAppended { key, notification }),
        Action::Prompt { key, text: notification.prose },
    ]
}

/// Deliver a notification to a session that is up.
pub fn deliver_gotify_now(key: &SessionSlot, notification: &GotifyNotification) -> (actions: Vec<
    Action,
>)
    ensures
        actions@ == gotify_delivery(*key, *notification),
{
    let mut actions: Vec<Action> = Vec::new();
    actions.push(push_gotify_notification_into_chat(key, notification));
    actions.push(Action::Prompt { key: key.clone(), text: notification.prose.clone() });
    assert(actions@ =~= gotify_delivery(*key, *notification));
    actions
}

/// What delivering a notification comes to: `after` is the workspace then,
/// `actions` what is to be done.
pub open spec fn gotify_answered(
    before: Workspace,
    after: Workspace,
    project: String,
    team_role: Option<String>,
    notification: GotifyNotification,
    actions: Seq<Action>,
) -> bool {
    match (
        subscribed_worker(before, project@, team_role),
        before.running_lead(project@),
        before.project_named(project@),
    ) {
        (Some(worker), _, _) => if before.connected(worker@) {
            after == before && actions == gotify_delivery(
                worker,
                notification,
            )
        } else {
            parked_more(
                before,
                after,
                worker@,
                with_gotify(before.parked.at(worker@), notification),
            ) && actions.len() == 0
        },
        (None, Some(lead), _) => after == before && actions
            == gotify_delivery(lead, notification),
        (None, None, Some(view)) => {
            let lead = lead_slot(view.org, view.name);
            &&& parked_more(
                before,
                after,
                lead@,
                with_gotify(before.parked.at(lead@), notification),
            )
            &&& actions == seq![Action::SpawnProject { project_name: project }]
        },
        (None, None, None) => after == before && actions.len() == 0,
    }
}

/// Deliver a notification that a project subscribed to. One for a worker is
/// the worker's, connected or not; without such a worker it is the lead's,
/// which is woken where it sleeps.
pub fn deliver_gotify_message(
    workspace: &mut Workspace,
    project: &String,
    team_role: &Option<String>,
    notification: GotifyNotification,
) -> (actions: Vec<Action>)
    requires
        old(workspace).wf(),
    ensures
        final(workspace).wf(),
        gotify_answered(
            *old(workspace),
            *final(workspace),
            *project,
            *team_role,
            notification,
            actions@,
        ),
{
    let mut actions: Vec<Action> = Vec::new();
    let worker = match team_role {
        Some(role) => team_worker_key(workspace, project, role),
        None => None,
    };
    match worker {
        Some(key) => {
            if workspace.is_connected(&key) {
                return deliver_gotify_now(&key, &notification);
            }
            workspace.parked.park_gotify(&key, notification);
            return actions;
        },
        None => {},
    }
    match workspace.running_lead_slot(project) {
        Some(key) => {
            return deliver_gotify_now(&key, &notification);
        },
        None => {},
    }
    let lead = match workspace.find_project_view_by_name(project) {
        Some(view) => SessionSlot::lead(&view.org, &view.name),
        None => {
            return actions;
        },
    };
    workspace.parked.park_gotify(&lead, notification);
    actions.push(Action::SpawnProject { project_name: project.clone() });
    assert(actions@ =~= seq![Action::SpawnProject { project_name: *project }]);
    actions
}

/// The lines that name the files of a message.
pub open spec fn file_lines(files: Seq<SlackFile>) -> Seq<char>
    decreases files.len(),
{
    if files.len() == 0 {
        Seq::empty()
    } else {
        file_lines(files.drop_last()) + "\n[file "@ + files.last().id@ + " "@ + files.last().name@
            + "]\n"@
    }
}

/// A Slack message as its reader's agent gets it: with the ids that a reply
/// needs.
pub open spec fn slack_prose(message: SlackMessage) -> Seq<char> {
    "[Slack - workspace '"@ + message.workspace@ + "', "@ + message.conversation_label@ + "] id "@
        + message.conversation@ + " ts "@ + message.ts@ + (match message.thread_ts {
        Some(thread) => " in thread "@ + thread@,
        None => ""@,
    }) + "\n"@ + (match message.user {
        Some(user) => user@,
        None => "unknown"@,
    }) + ": "@ + message.text@ + file_lines(message.files@)
}

/// A Slack message as its reader's agent gets it.
pub fn slack_message_to_prose(message: &SlackMessage) -> (prose: String)
    ensures
        prose@ == slack_prose(*message),
{
    let mut out = "[Slack - workspace '".to_owned();
    out.append(message.workspace.as_str());
    out.append("', ");
    out.append(message.conversation_label.as_str());
    out.append("] id ");
    out.append(message.conversation.as_str());
    out.append(" ts ");
    out.append(message.ts.as_str());
    let ghost head = out@;
    match &message.thread_ts {
        Some(thread) => {
            out.append(" in thread ");
            out.append(thread.as_str());
            assert(out@ =~= head + (" in thread "@ + thread@));
        },
        None => {
            out.append("");
        },
    }
    out.append("\n");
    match &message.user {
        Some(user) => {
            out.append(user.as_str());
        },
        None => {
            out.append("unknown");
        },
    }
    out.append(": ");
    out.append(message.text.as_str());
    let ghost body = out@;
    let mut i: usize = 0;
    assert(message.files@.take(0) =~= Seq::<SlackFile>::empty());
    assert(out@ =~= body + file_lines(message.files@.take(0)));
    while i < message.files.len()
        invariant
            i <= message.files@.len(),
            out@ == body + file_lines(message.files@.take(i as int)),
        decreases message.files@.len() - i,
    {
        let ghost so_far = out@;
        out.append("\n[file ");
        out.append(message.files[i].id.as_str());
        out.append(" ");
        out.append(message.files[i].name.as_str());
        out.append("]\n");
        proof {
            let taken = message.files@.take(i + 1);
            assert(taken.drop_last() =~= message.files@.take(i as int));
            assert(out@ =~= body + file_lines(taken));
        }
        i = i + 1;
    }
    assert(message.files@.take(message.files@.len() as int) =~= message.files@);
    out
}

/// The Slack messages of one batch as their reader's agent gets them: one
/// below the other.
pub open spec fn bundle_prose(messages: Seq<SlackMessage>) -> Seq<char>
    decreases messages.len(),
{
    if messages.len() == 0 {
        Seq::empty()
    } else if messages.len() == 1 {
        slack_prose(messages[0])
    } else {
        bundle_prose(messages.drop_last()) + "\n"@ + slack_prose(messages.last())
    }
}

/// What becomes of a Slack message that arrived.
#[derive(Debug, PartialEq, Eq)]
pub enum SlackStep {
    /// It is where it can be read from, or it is not and comes again.
    Done { delivered: bool, actions: Vec<Action> },
    /// Give this session the prompt; go on with [`slack_dispatched`].
    Prompt { key: SessionSlot, prose: String, message: SlackMessage },
}

/// The session that a Slack message is handed to at once.
pub open spec fn slack_target(
    workspace: Workspace,
    project: Seq<char>,
    team_role: Option<String>,
) -> Option<SessionSlot> {
    match subscribed_worker(workspace, project, team_role) {
        Some(worker) => if workspace.connected(worker@) {
            Some(worker)
        } else {
            None
        },
        None => workspace.running_lead(project),
    }
}

/// The slot that a Slack message is parked for where no session is handed it,
/// and whether the project has to be woken for it.
pub open spec fn slack_parking(
    workspace: Workspace,
    project: Seq<char>,
    team_role: Option<String>,
) -> Option<(SessionSlot, bool)> {
    match subscribed_worker(workspace, project, team_role) {
        Some(worker) => Some((worker, false)),
        None => match workspace.project_named(project) {
            Some(view) => Some((lead_slot(view.org, view.name), true)),
            None => None,
        },
    }
}

/// `after` is `before` once a Slack message was parked for `slot`, and is
/// remembered as delivered.
pub open spec fn slack_parked(
    before: Workspace,
    after: Workspace,
    slot: SlotId,
    project: String,
    team_role: Option<String>,
    message: SlackMessage,
    now: u64,
) -> bool {
    &&& after == (Workspace { parked: after.parked, slack: after.slack, ..before })
    &&& after.slack == (SlackState { delivered: after.slack.delivered, ..before.slack })
    &&& after.slack.delivered@ == after_delivery(
        before.slack.delivered@,
        project,
        team_role,
        message,
        now,
    )
    &&& after.parked.at(slot) == with_slack(before.parked.at(slot), message)
    &&& forall|other: SlotId|
        other != slot ==> #[trigger] after.parked.at(other) == before.parked.at(other)
}

/// What delivering a Slack message comes to: `after` is the workspace then,
/// `step` what is to be done.
pub open spec fn slack_answered(
    before: Workspace,
    after: Workspace,
    project: String,
    team_role: Option<String>,
    message: SlackMessage,
    now: u64,
    step: SlackStep,
) -> bool {
    if remembered(
        before.slack.delivered@,
        project@,
        option_view(team_role),
        message,
        now,
    ) {
        after == before && (step matches SlackStep::Done {
            delivered,
            actions,
        } && delivered && actions@.len() == 0)
    } else {
        match (
            slack_target(before, project@, team_role),
            slack_parking(before, project@, team_role),
        ) {
            (Some(key), _) => after == before && (step matches
                SlackStep::Prompt { key: k, prose, message: m } && k == key && prose@
                == slack_prose(message) && m == message),
            (None, Some((slot, wake))) => {
                &&& slack_parked(
                    before,
                    after,
                    slot@,
                    project,
                    team_role,
                    message,
                    now,
                )
                &&& step matches SlackStep::Done { delivered, actions }
                &&& delivered
                &&& actions@ == if wake {
                    seq![Action::SpawnProject { project_name: project }]
                } else {
                    Seq::<Action>::empty()
                }
            },
            (None, None) => after == before && (step matches
                SlackStep::Done { delivered, actions } && !delivered && actions@.len() == 0),
        }
    }
}

/// Deliver a Slack message that a session subscribed to. One that was
/// delivered already is dropped. One for a worker is the worker's, connected
/// or not; without such a worker it is the lead's, which is woken where it
/// sleeps. For an unknown project it is left to come again. `now` is in
/// nanoseconds.
pub fn deliver_slack_message(
    workspace: &mut Workspace,
    project: &String,
    team_role: &Option<String>,
    message: SlackMessage,
    now: u64,
) -> (step: SlackStep)
    requires
        old(workspace).wf(),
    ensures
        final(workspace).wf(),
        slack_answered(
            *old(workspace),
            *final(workspace),
            *project,
            *team_role,
            message,
            now,
            step,
        ),
{
    let mut actions: Vec<Action> = Vec::new();
    if workspace.slack_delivery_seen(project, team_role, &message, now) {
        return SlackStep::Done { delivered: true, actions };
    }
    let worker = match team_role {
        Some(role) => team_worker_key(workspace, project, role),
        None => None,
    };
    match worker {
        Some(key) => {
            if workspace.is_connected(&key) {
                let prose = slack_message_to_prose(&message);
                return SlackStep::Prompt { key, prose, message };
            }
            workspace.slack_delivery_commit(project, team_role, &message, now);
            workspace.parked.park_slack(&key, message);
            return SlackStep::Done { delivered: true, actions };
        },
        None => {},
    }
    match workspace.running_lead_slot(project) {
        Some(key) => {
            let prose = slack_message_to_prose(&message);
            return SlackStep::Prompt { key, prose, message };
        },
        None => {},
    }
    let lead = match workspace.find_project_view_by_name(project) {
        Some(view) => SessionSlot::lead(&view.org, &view.name),
        None => {
            return SlackStep::Done { delivered: false, actions };
        },
    };
    workspace.slack_delivery_commit(project, team_role, &message, now);
    workspace.parked.park_slack(&lead, message);
    actions.push(Action::SpawnProject { project_name: project.clone() });
    assert(actions@ =~= seq![Action::SpawnProject { project_name: *project }]);
    SlackStep::Done { delivered: true, actions }
}

/// What becomes of a Slack message once its prompt was handed over, or was
/// not.
pub open spec fn slack_settled(
    before: Workspace,
    after: Workspace,
    project: String,
    team_role: Option<String>,
    key: SessionSlot,
    prose: String,
    message: SlackMessage,
    now: u64,
    dispatched: Result<(), String>,
    settled: (bool, Vec<Action>),
) -> bool {
    &&& settled.0 == (dispatched is Ok)
    &&& match dispatched {
        Ok(()) => {
            &&& after == (Workspace {
                slack: after.slack,
                ..before
            })
            &&& after.slack == (SlackState {
                delivered: after.slack.delivered,
                ..before.slack
            })
            &&& after.slack.delivered@ == after_delivery(
                before.slack.delivered@,
                project,
                team_role,
                message,
                now,
            )
            &&& settled.1@ == seq![
                Action::Emit(SessionUpdate::SlackMessageAppended { key, prose }),
            ]
        },
        Err(err) => after == before && settled.1@.len() == 1
            && is_turn_error(settled.1@[0], key, err@),
    }
}

/// Settle a Slack message once its prompt was handed over, or was not. Only
/// one that was is shown in the chat and remembered; the other comes again.
pub fn slack_dispatched(
    workspace: &mut Workspace,
    project: &String,
    team_role: &Option<String>,
    key: &SessionSlot,
    prose: &String,
    message: &SlackMessage,
    now: u64,
    dispatched: Result<(), String>,
) -> (settled: (bool, Vec<Action>))
    requires
        old(workspace).wf(),
    ensures
        final(workspace).wf(),
        slack_settled(
            *old(workspace),
            *final(workspace),
            *project,
            *team_role,
            *key,
            *prose,
            *message,
            now,
            dispatched,
            settled,
        ),
{
    let mut actions: Vec<Action> = Vec::new();
    match dispatched {
        Ok(()) => {
            actions.push(push_slack_message_into_chat(key, prose));
            workspace.slack_delivery_commit(project, team_role, message, now);
            assert(actions@ =~= seq![
                Action::Emit(SessionUpdate::SlackMessageAppended { key: *key, prose: *prose }),
            ]);
            (true, actions)
        },
        Err(err) => {
            actions.push(send_dispatch_turn_error(key.clone(), &err));
            (false, actions)
        },
    }
}

/// What buffering an envelope comes to: `now` is what is to be delivered at
/// once.
pub open spec fn envelope_buffered(
    before: Workspace,
    after: Workspace,
    slot: SessionSlot,
    wrapped: WrappedPrompt,
    now: Option<WrappedPrompt>,
) -> bool {
    if before.presence(slot@) is Some && !before.connected(slot@) {
        now is None && parked_more(
            before,
            after,
            slot@,
            with_peer(before.parked.at(slot@), wrapped),
        )
    } else {
        now == Some(wrapped) && after == before
    }
}

/// Park an envelope for a session that was started and has not connected.
/// Where it has, or where there is none, the envelope comes back.
pub fn buffer_prompt_until_connected(
    workspace: &mut Workspace,
    slot: &SessionSlot,
    wrapped: WrappedPrompt,
) -> (now: Option<WrappedPrompt>)
    requires
        old(workspace).wf(),
    ensures
        final(workspace).wf(),
        envelope_buffered(*old(workspace), *final(workspace), *slot, wrapped, now),
{
    let waits = match workspace.domain_session_for(slot) {
        Some(session) => match &session.session_id {
            Some(_) => false,
            None => true,
        },
        None => false,
    };
    if !waits {
        return Some(wrapped);
    }
    workspace.parked.park_peer_prompt(slot, wrapped);
    None
}

/// The try to tag a worker's transcript that comes with an envelope: the
/// worker is about to write it.
pub open spec fn tag_retry(
    workspace: Workspace,
    project_key: String,
    label: String,
    entry: crate::workers::WorkerEntry,
) -> Seq<Action> {
    match (entry.session_id, workspace.project_keyed(project_key@)) {
        (Some(session_id), Some(project)) => if entry.needs_tag {
            seq![
                Action::RetryWorkerTag {
                    project_key,
                    key: entry.slot,
                    session_id,
                    label,
                    cwd: project.path,
                    is_git_repo: entry.is_git_repo_at_spawn,
                },
            ]
        } else {
            Seq::empty()
        },
        _ => Seq::empty(),
    }
}

/// What delivering an envelope to a worker comes to: `after` is the workspace
/// then, `actions` what is to be done.
pub open spec fn worker_peer_answered(
    before: Workspace,
    after: Workspace,
    project_key: String,
    target_label: String,
    wrapped: WrappedPrompt,
    actions: Seq<Action>,
) -> bool {
    match last_match(
        before.live_workers@,
        labelled(project_key@, target_label@),
    ) {
        Some(worker) => {
            let key = worker.entry.slot;
            if before.presence(key@) is Some && !before.connected(key@) {
                actions.len() == 0 && parked_more(
                    before,
                    after,
                    key@,
                    with_peer(before.parked.at(key@), wrapped),
                )
            } else {
                after == before && actions == tag_retry(
                    before,
                    project_key,
                    target_label,
                    worker.entry,
                ) + peer_delivery(key, wrapped)
            }
        },
        None => after == before && actions == seq![
            Action::ExpireInflightForClosedWorker {
                project_key,
                label: target_label,
            },
        ],
    }
}

/// Deliver an envelope to the worker that was spawned last under a label.
/// One that has not connected finds it parked; without a worker the
/// questions that wait for it fail.
pub fn handle_deliver_worker_prompt(
    workspace: &mut Workspace,
    project_key: &String,
    target_label: &String,
    wrapped: WrappedPrompt,
) -> (actions: Vec<Action>)
    requires
        old(workspace).wf(),
    ensures
        final(workspace).wf(),
        worker_peer_answered(
            *old(workspace),
            *final(workspace),
            *project_key,
            *target_label,
            wrapped,
            actions@,
        ),
{
    let ghost before = *workspace;
    let mut actions: Vec<Action> = Vec::new();
    let entry = match workspace.live_workers.latest(project_key, target_label) {
        Some(entry) => entry.clone(),
        None => {
            actions.push(
                Action::ExpireInflightForClosedWorker {
                    project_key: project_key.clone(),
                    label: target_label.clone(),
                },
            );
            assert(actions@ =~= seq![
                Action::ExpireInflightForClosedWorker {
                    project_key: *project_key,
                    label: *target_label,
                },
            ]);
            return actions;
        },
    };
    let wrapped = match buffer_prompt_until_connected(workspace, &entry.slot, wrapped) {
        Some(wrapped) => wrapped,
        None => {
            return actions;
        },
    };
    if entry.needs_tag {
        match (&entry.session_id, workspace.project_for_key(project_key)) {
            (Some(session_id), Some(project)) => {
                actions.push(
                    Action::RetryWorkerTag {
                        project_key: project_key.clone(),
                        key: entry.slot.clone(),
                        session_id: session_id.clone(),
                        label: target_label.clone(),
                        cwd: project.path.clone(),
                        is_git_repo: entry.is_git_repo_at_spawn,
                    },
                );
            },
            _ => {},
        }
    }
    assert(actions@ =~= tag_retry(before, *project_key, *target_label, entry));
    let mut delivery = deliver_peer_now(&entry.slot, &wrapped);
    actions.append(&mut delivery);
    assert(actions@ =~= tag_retry(before, *project_key, *target_label, entry) + peer_delivery(
        entry.slot,
        wrapped,
    ));
    actions
}

/// What delivering a worker's envelope to its lead comes to: `after` is the
/// workspace then, `actions` what is to be done.
pub open spec fn lead_peer_answered(
    before: Workspace,
    after: Workspace,
    lead: SessionSlot,
    wrapped: WrappedPrompt,
    actions: Seq<Action>,
) -> bool {
    if !before.pooled(lead@) {
        after == before && actions.len() == 0
    } else if before.presence(lead@) is Some && !before.connected(lead@) {
        actions.len() == 0 && parked_more(
            before,
            after,
            lead@,
            with_peer(before.parked.at(lead@), wrapped),
        )
    } else {
        after == before && actions == peer_delivery(lead, wrapped)
    }
}

/// Deliver an envelope of a worker to its lead. A lead that is not up gets
/// nothing: waking it is not the worker's to decide. One that has not
/// connected finds it parked.
pub fn handle_deliver_worker_prompt_to_lead(
    workspace: &mut Workspace,
    lead: &SessionSlot,
    wrapped: WrappedPrompt,
) -> (actions: Vec<Action>)
    requires
        old(workspace).wf(),
    ensures
        final(workspace).wf(),
        lead_peer_answered(
            *old(workspace),
            *final(workspace),
            *lead,
            wrapped,
            actions@,
        ),
{
    if !workspace.session_is_pooled(lead) {
        return Vec::new();
    }
    match buffer_prompt_until_connected(workspace, lead, wrapped) {
        Some(wrapped) => deliver_peer_now(lead, &wrapped),
        None => Vec::new(),
    }
}

/// Only a question is counted and tied to the session it went to.
pub proof fn only_questions_are_counted(key: SessionSlot, wrapped: WrappedPrompt, i: int)
    requires
        0 <= i < peer_delivery(key, wrapped).len(),
        peer_delivery(key, wrapped)[i] is BumpIncoming || peer_delivery(
            key,
            wrapped,
        )[i] is StampInflightTarget,
    ensures
        wrapped.kind == WrappedKind::Question,
{
}

/// A cron is only given up because its owner is gone: a worker that is not
/// up and has no row. What could not be read, or not be started now, leaves
/// it.
pub proof fn only_a_gone_owner_ends_a_cron(
    workspace: Workspace,
    project: ProjectView,
    team_role: Option<String>,
    facts: CronFacts,
)
    ensures
        cron_refusal(owner_check(workspace, project, team_role, facts.owner), facts) == Some(
            CronFireOutcome::TargetGone,
        ) <==> (team_role matches Some(label) && first_match(
            workspace.live_workers@,
            labelled_up(project.key@, label@),
        ) is None && facts.owner == StoredOwner::Absent),
{
}

/// Where no live worker bears the role and the project's lead runs, a Slack
/// message is handed to that lead at once: nothing waits, nothing is woken.
pub proof fn a_running_lead_reads_slack_at_once(
    before: Workspace,
    after: Workspace,
    project: String,
    team_role: Option<String>,
    message: SlackMessage,
    now: u64,
    step: SlackStep,
    view: ProjectView,
)
    requires
        slack_answered(before, after, project, team_role, message, now, step),
        !remembered(before.slack.delivered@, project@, option_view(team_role), message, now),
        before.project_named(project@) == Some(view),
        team_role matches Some(role) ==> nobody_bears(before.live_workers@, view.key@, role@),
        before.pooled(SlotId { org: view.org@, project: view.name@, label: None }),
    ensures
        after == before,
        step matches SlackStep::Prompt { key, prose, message: given } && key == (SessionSlot {
            org: view.org,
            project: view.name,
            label: None,
        }) && given == message && prose@ == slack_prose(message),
{
    if team_role is Some {
        a_found_worker_bears_its_label(before.live_workers@, view.key@, team_role->0@, 0);
    }
}

/// A Slack message for a live worker is the worker's: where it is connected it
/// is handed over at once, where it is not it waits at the worker's slot, last
/// of the messages there, and nobody is woken.
pub proof fn a_workers_slack_is_the_workers(
    before: Workspace,
    after: Workspace,
    project: String,
    role: String,
    message: SlackMessage,
    now: u64,
    step: SlackStep,
    view: ProjectView,
    i: int,
)
    requires
        slack_answered(before, after, project, Some(role), message, now, step),
        !remembered(before.slack.delivered@, project@, Some(role@), message, now),
        before.project_named(project@) == Some(view),
        earliest_at(before.live_workers@, view.key@, role@, i),
    ensures
        ({
            let slot = before.live_workers@[i].entry.slot;
            if before.connected(slot@) {
                &&& after == before
                &&& step matches SlackStep::Prompt { key, prose, message: given }
                &&& key == slot
                &&& given == message
                &&& prose@ == slack_prose(message)
            } else {
                &&& after.parked.at(slot@).slack == before.parked.at(slot@).slack.push(message)
                &&& after.parked.at(slot@).peer == before.parked.at(slot@).peer
                &&& after.parked.at(slot@).cron == before.parked.at(slot@).cron
                &&& after.parked.at(slot@).gotify == before.parked.at(slot@).gotify
                &&& forall|other: SlotId|
                    other != slot@ ==> #[trigger] after.parked.at(other) == before.parked.at(other)
                &&& after == (Workspace { parked: after.parked, slack: after.slack, ..before })
                &&& after.slack == (SlackState {
                    delivered: after.slack.delivered,
                    ..before.slack
                })
                &&& after.slack.delivered@.last().ts == message.ts
                &&& after.slack.delivered@.last().at == now
                &&& step matches SlackStep::Done { delivered: true, actions }
                &&& actions@.len() == 0
            }
        }),
{
    a_found_worker_bears_its_label(before.live_workers@, view.key@, role@, i);
}

/// Where no live worker bears the role and the project's lead does not run, a
/// Slack message waits at the lead's slot and the project is woken.
pub proof fn slack_wakes_a_sleeping_lead(
    before: Workspace,
    after: Workspace,
    project: String,
    team_role: Option<String>,
    message: SlackMessage,
    now: u64,
    step: SlackStep,
    view: ProjectView,
)
    requires
        slack_answered(before, after, project, team_role, message, now, step),
        !remembered(before.slack.delivered@, project@, option_view(team_role), message, now),
        before.project_named(project@) == Some(view),
        team_role matches Some(role) ==> nobody_bears(before.live_workers@, view.key@, role@),
        !before.pooled(SlotId { org: view.org@, project: view.name@, label: None }),
    ensures
        ({
            let lead = SlotId { org: view.org@, project: view.name@, label: None };
            &&& after.parked.at(lead).slack == before.parked.at(lead).slack.push(message)
            &&& after.parked.at(lead).peer == before.parked.at(lead).peer
            &&& after.parked.at(lead).cron == before.parked.at(lead).cron
            &&& after.parked.at(lead).gotify == before.parked.at(lead).gotify
            &&& forall|other: SlotId|
                other != lead ==> #[trigger] after.parked.at(other) == before.parked.at(other)
            &&& after == (Workspace { parked: after.parked, slack: after.slack, ..before })
            &&& after.slack == (SlackState { delivered: after.slack.delivered, ..before.slack })
            &&& after.slack.delivered@.last().ts == message.ts
            &&& after.slack.delivered@.last().at == now
            &&& step matches SlackStep::Done { delivered: true, actions }
            &&& actions@.len() == 1
            &&& actions@[0] == (Action::SpawnProject { project_name: project })
        }),
{
    if team_role is Some {
        a_found_worker_bears_its_label(before.live_workers@, view.key@, team_role->0@, 0);
    }
}

/// A Slack message waits at a slot only where that slot cannot read it: a lead
/// that does not run, or a live worker of that role that is not connected.
pub proof fn slack_waits_only_for_who_cannot_read_it(
    before: Workspace,
    after: Workspace,
    project: String,
    team_role: Option<String>,
    message: SlackMessage,
    now: u64,
    step: SlackStep,
    slot: SlotId,
)
    requires
        slack_answered(before, after, project, team_role, message, now, step),
        after.parked.at(slot) != before.parked.at(slot),
    ensures
        before.project_named(project@) matches Some(view) && {
            ||| slot == (SlotId { org: view.org@, project: view.name@, label: None })
                && !before.pooled(slot) && (team_role matches Some(role) ==> nobody_bears(
                before.live_workers@,
                view.key@,
                role@,
            ))
            ||| team_role matches Some(role) && !before.connected(slot) && exists|i: int|
                #![trigger before.live_workers@[i]]
                earliest_at(before.live_workers@, view.key@, role@, i)
                    && before.live_workers@[i].entry.slot@ == slot
        },
{
    if team_role is Some && before.project_named(project@) is Some {
        let view = before.project_named(project@)->0;
        let role = team_role->0;
        let workers = before.live_workers@;
        a_found_worker_bears_its_label(workers, view.key@, role@, 0);
        if first_match(workers, labelled(view.key@, role@)) is Some {
            crate::seqs::lemma_first_exists(workers, labelled(view.key@, role@));
            let i = crate::seqs::first_index(workers, labelled(view.key@, role@))->0;
            assert forall|j: int| 0 <= j < i implies (#[trigger] workers[j]).project_key@
                != view.key@ || workers[j].entry.label@ != role@ by {
                assert(!labelled(view.key@, role@)(workers[j]));
            }
            assert(earliest_at(workers, view.key@, role@, i));
        }
    }
}

/// A Slack message of a project that is not known is left to come again, and
/// one that was delivered already changes nothing.
pub proof fn slack_for_nobody_comes_again(
    before: Workspace,
    after: Workspace,
    project: String,
    team_role: Option<String>,
    message: SlackMessage,
    now: u64,
    step: SlackStep,
)
    requires
        slack_answered(before, after, project, team_role, message, now, step),
    ensures
        step matches SlackStep::Done { delivered: false, actions } ==> before.project_named(
            project@,
        ) is None && after == before && actions@.len() == 0,
        before.project_named(project@) is None && !remembered(
            before.slack.delivered@,
            project@,
            option_view(team_role),
            message,
            now,
        ) ==> (step matches SlackStep::Done { delivered: false, actions }),
        remembered(before.slack.delivered@, project@, option_view(team_role), message, now)
            ==> after == before && (step matches SlackStep::Done { delivered: true, actions }
            && actions@.len() == 0),
{
}

/// A Slack message that was made to wait is not delivered again while it is
/// remembered.
pub proof fn a_waiting_slack_message_is_not_repeated(
    before: Workspace,
    between: Workspace,
    after: Workspace,
    project: String,
    team_role: Option<String>,
    message: SlackMessage,
    now: u64,
    later: u64,
    first: SlackStep,
    second: SlackStep,
)
    requires
        slack_answered(before, between, project, team_role, message, now, first),
        slack_answered(between, after, project, team_role, message, later, second),
        between != before,
        now <= later < now + crate::slack::DELIVERY_REMEMBER,
    ensures
        after == between,
        second matches SlackStep::Done { delivered: true, actions } && actions@.len() == 0,
{
    let log = between.slack.delivered@;
    let last = log[log.len() - 1];
    assert(last.at == now);
    let p = |d: crate::slack::Delivery|
        crate::slack::fresh(d, later) && crate::slack::delivery_of(
            project@,
            option_view(team_role),
            message.conversation@,
            message.ts@,
        )(d);
    assert(p(last));
    assert(crate::seqs::any(log, p));
}

/// A due cron of a live worker that is connected is handed to that worker at
/// once, with its text; one of a lead that runs and is connected to that lead.
pub proof fn a_connected_owner_gets_its_cron_at_once(
    before: Workspace,
    after: Workspace,
    project_name: String,
    team_role: Option<String>,
    prompt: String,
    missed: bool,
    facts: CronFacts,
    step: CronStep,
    view: ProjectView,
    i: int,
    slot: SessionSlot,
)
    requires
        cron_answered(before, after, project_name, team_role, prompt, missed, facts, step),
        before.project_named(project_name@) == Some(view),
        match team_role {
            Some(label) => earliest_at(before.live_workers@, view.key@, label@, i)
                && before.live_workers@[i].entry.slot == slot,
            None => slot == (SessionSlot { org: view.org, project: view.name, label: None })
                && before.pooled(slot@),
        },
        before.connected(slot@),
    ensures
        after == before,
        step.actions@.len() == 2,
        step.actions@[0] matches Action::Emit(SessionUpdate::CronPromptAppended { key, text })
            && key == slot && text@ == if missed {
            "[missed cron] "@ + prompt@
        } else {
            prompt@
        },
        step.actions@.last() matches Action::Prompt { key, text } && key == slot && text@
            == if missed {
            "[missed cron] "@ + prompt@
        } else {
            prompt@
        },
        step.next == CronNext::AfterPrompt(slot),
{
    if team_role is Some {
        a_found_worker_bears_its_label(before.live_workers@, view.key@, team_role->0@, i);
    }
}

/// A due cron waits at a slot only where its owner is not connected: for a
/// role the slot of that role, for none the lead's. It is the last there, with
/// its text as it stands, and the project is woken.
pub proof fn a_cron_waits_only_for_who_is_not_connected(
    before: Workspace,
    after: Workspace,
    project_name: String,
    team_role: Option<String>,
    prompt: String,
    missed: bool,
    facts: CronFacts,
    step: CronStep,
    slot: SlotId,
)
    requires
        cron_answered(before, after, project_name, team_role, prompt, missed, facts, step),
        after.parked.at(slot) != before.parked.at(slot),
    ensures
        before.project_named(project_name@) matches Some(view) && {
            &&& slot == (SlotId {
                org: view.org@,
                project: view.name@,
                label: match team_role {
                    Some(label) => Some(label@),
                    None => None,
                },
            })
            &&& (team_role is None ==> !before.pooled(slot) || !before.connected(slot))
            &&& (team_role matches Some(label) ==> forall|i: int|
                #![trigger before.live_workers@[i]]
                earliest_at(before.live_workers@, view.key@, label@, i) ==> !before.connected(
                    before.live_workers@[i].entry.slot@,
                ))
            &&& after.parked.at(slot).cron == before.parked.at(slot).cron.push(
                PendingCron { text: prompt, missed },
            )
            &&& after.parked.at(slot).peer == before.parked.at(slot).peer
            &&& after.parked.at(slot).gotify == before.parked.at(slot).gotify
            &&& after.parked.at(slot).slack == before.parked.at(slot).slack
            &&& after == (Workspace { parked: after.parked, ..before })
            &&& forall|other: SlotId|
                other != slot ==> #[trigger] after.parked.at(other) == before.parked.at(other)
            &&& step.actions@.len() == 1
            &&& step.actions@[0] == (Action::SpawnProject { project_name })
            &&& step.next == CronNext::AfterSpawn
        },
{
    if team_role is Some && before.project_named(project_name@) is Some {
        let view = before.project_named(project_name@)->0;
        let label = team_role->0;
        assert forall|i: int|
            #![trigger before.live_workers@[i]]
            earliest_at(before.live_workers@, view.key@, label@, i) implies !before.connected(
            before.live_workers@[i].entry.slot@,
        ) by {
            a_found_worker_bears_its_label(before.live_workers@, view.key@, label@, i);
        }
    }
}

/// What becomes of a due cron whose owner cannot read it now. It is gone with
/// an owner that is neither up nor stored. It is refused, with the directory,
/// for a stored owner that nothing can start. It fails for now where the store
/// cannot be read, or where no account can serve it. Otherwise it waits.
pub proof fn an_unread_cron_meets_its_owners_fate(
    before: Workspace,
    after: Workspace,
    project_name: String,
    team_role: Option<String>,
    prompt: String,
    missed: bool,
    facts: CronFacts,
    step: CronStep,
    view: ProjectView,
)
    requires
        cron_answered(before, after, project_name, team_role, prompt, missed, facts, step),
        before.project_named(project_name@) == Some(view),
        !(step.next is AfterPrompt),
    ensures
        ({
            let asleep = team_role matches Some(label) && nobody_up_bears(
                before.live_workers@,
                view.key@,
                label@,
            );
            let wakes = !asleep || (facts.owner matches StoredOwner::Stored {
                directory,
                can_start: true,
            });
            &&& step.next == CronNext::Done(CronFireOutcome::TargetGone) <==> asleep
                && facts.owner == StoredOwner::Absent
            &&& (step.next matches CronNext::Done(
                CronFireOutcome::TargetCannotBeWoken { directory },
            ) ==> asleep && facts.owner == (StoredOwner::Stored { directory, can_start: false }))
            &&& (facts.owner matches StoredOwner::Stored { directory, can_start: false } ==> asleep
                ==> step.next == CronNext::Done(
                CronFireOutcome::TargetCannotBeWoken { directory },
            ))
            &&& step.next == CronNext::Done(CronFireOutcome::DispatchFailed) <==> (asleep
                && facts.owner == StoredOwner::Unreadable) || (wakes && (!facts.accounts_loaded
                || facts.walk_cooling))
            &&& step.next == CronNext::AfterSpawn <==> wakes && facts.accounts_loaded
                && !facts.walk_cooling
            &&& !(step.next is AfterSpawn) ==> after == before && step.actions@.len() == 0
            &&& step.next != CronNext::Done(CronFireOutcome::Delivered)
        }),
{
    if team_role is Some {
        a_found_worker_bears_its_label(before.live_workers@, view.key@, team_role->0@, 0);
    }
}

/// A cron of a project that is not known is gone.
pub proof fn a_cron_of_no_project_is_gone(
    before: Workspace,
    after: Workspace,
    project_name: String,
    team_role: Option<String>,
    prompt: String,
    missed: bool,
    facts: CronFacts,
    step: CronStep,
)
    requires
        cron_answered(before, after, project_name, team_role, prompt, missed, facts, step),
        before.project_named(project_name@) is None,
    ensures
        after == before,
        step.actions@.len() == 0,
        step.next == CronNext::Done(CronFireOutcome::TargetGone),
{
}

/// A push notification for a live worker is the worker's: where it is
/// connected it is shown and read at once, where it is not it waits at the
/// worker's slot, last of the notifications there.
pub proof fn a_workers_notification_is_the_workers(
    before: Workspace,
    after: Workspace,
    project: String,
    role: String,
    notification: GotifyNotification,
    actions: Seq<Action>,
    view: ProjectView,
    i: int,
)
    requires
        gotify_answered(before, after, project, Some(role), notification, actions),
        before.project_named(project@) == Some(view),
        earliest_at(before.live_workers@, view.key@, role@, i),
    ensures
        ({
            let slot = before.live_workers@[i].entry.slot;
            if before.connected(slot@) {
                &&& after == before
                &&& actions.len() == 2
                &&& actions[0] == Action::Emit(
                    SessionUpdate::GotifyNotificationAppended { key: slot, notification },
                )
                &&& actions[1] == (Action::Prompt { key: slot, text: notification.prose })
            } else {
                &&& after == (Workspace { parked: after.parked, ..before })
                &&& after.parked.at(slot@).gotify == before.parked.at(slot@).gotify.push(
                    notification,
                )
                &&& after.parked.at(slot@).peer == before.parked.at(slot@).peer
                &&& after.parked.at(slot@).cron == before.parked.at(slot@).cron
                &&& after.parked.at(slot@).slack == before.parked.at(slot@).slack
                &&& forall|other: SlotId|
                    other != slot@ ==> #[trigger] after.parked.at(other) == before.parked.at(other)
                &&& actions.len() == 0
            }
        }),
{
    a_found_worker_bears_its_label(before.live_workers@, view.key@, role@, i);
}

/// A push notification that no live worker takes is the lead's: one that runs
/// is shown it and reads it at once, for one that does not it waits and the
/// project is woken. Without the project nothing happens.
pub proof fn a_notification_without_a_worker_is_the_leads(
    before: Workspace,
    after: Workspace,
    project: String,
    team_role: Option<String>,
    notification: GotifyNotification,
    actions: Seq<Action>,
)
    requires
        gotify_answered(before, after, project, team_role, notification, actions),
        before.project_named(project@) matches Some(view) ==> (team_role matches Some(role)
            ==> nobody_bears(before.live_workers@, view.key@, role@)),
    ensures
        match before.project_named(project@) {
            None => after == before && actions.len() == 0,
            Some(view) => {
                let lead = SessionSlot { org: view.org, project: view.name, label: None };
                if before.pooled(lead@) {
                    &&& after == before
                    &&& actions.len() == 2
                    &&& actions[0] == Action::Emit(
                        SessionUpdate::GotifyNotificationAppended { key: lead, notification },
                    )
                    &&& actions[1] == (Action::Prompt { key: lead, text: notification.prose })
                } else {
                    &&& after == (Workspace { parked: after.parked, ..before })
                    &&& after.parked.at(lead@).gotify == before.parked.at(lead@).gotify.push(
                        notification,
                    )
                    &&& after.parked.at(lead@).peer == before.parked.at(lead@).peer
                    &&& after.parked.at(lead@).cron == before.parked.at(lead@).cron
                    &&& after.parked.at(lead@).slack == before.parked.at(lead@).slack
                    &&& forall|other: SlotId|
                        other != lead@ ==> #[trigger] after.parked.at(other) == before.parked.at(
                            other,
                        )
                    &&& actions.len() == 1
                    &&& actions[0] == (Action::SpawnProject { project_name: project })
                }
            },
        },
{
    if team_role is Some && before.project_named(project@) is Some {
        a_found_worker_bears_its_label(
            before.live_workers@,
            (before.project_named(project@)->0).key@,
            team_role->0@,
            0,
        );
    }
}

/// A delivered envelope is shown to its session and then read by it. A
/// question, and nothing else, is counted for the session that has to answer
/// and noted as on its way there.
pub proof fn an_envelope_is_shown_then_read(key: SessionSlot, wrapped: WrappedPrompt)
    ensures
        ({
            let actions = peer_delivery(key, wrapped);
            let n = actions.len();
            &&& n >= 2
            &&& actions[n - 2] == Action::Emit(
                SessionUpdate::PeerEnvelopeAppended { key, wrapped },
            )
            &&& actions[n - 1] == (Action::Prompt { key, text: wrapped.prose })
            &&& wrapped.kind == WrappedKind::Question ==> {
                &&& n == 4
                &&& actions[0] == (Action::BumpIncoming { key })
                &&& actions[1] == (Action::StampInflightTarget {
                    correlation_id: wrapped.correlation_id,
                    key,
                })
            }
            &&& wrapped.kind != WrappedKind::Question ==> n == 2
        }),
{
}

/// An envelope for a project reaches its lead: one that runs reads it at once,
/// for one that does not it waits, last of the envelopes there, and the
/// project is woken. Without the project nothing happens.
pub proof fn an_envelope_reaches_the_lead(
    before: Workspace,
    after: Workspace,
    target_project: String,
    wrapped: WrappedPrompt,
    actions: Seq<Action>,
)
    requires
        peer_answered(before, after, target_project, wrapped, actions),
    ensures
        match before.project_named(target_project@) {
            None => after == before && actions.len() == 0,
            Some(view) => {
                let lead = SessionSlot { org: view.org, project: view.name, label: None };
                if before.pooled(lead@) {
                    &&& after == before
                    &&& actions.len() >= 2
                    &&& actions[actions.len() - 2] == Action::Emit(
                        SessionUpdate::PeerEnvelopeAppended { key: lead, wrapped },
                    )
                    &&& actions.last() == (Action::Prompt { key: lead, text: wrapped.prose })
                    &&& wrapped.kind == WrappedKind::Question ==> actions[0] == (
                    Action::BumpIncoming { key: lead })
                } else {
                    &&& after == (Workspace { parked: after.parked, ..before })
                    &&& after.parked.at(lead@).peer == before.parked.at(lead@).peer.push(wrapped)
                    &&& after.parked.at(lead@).cron == before.parked.at(lead@).cron
                    &&& after.parked.at(lead@).gotify == before.parked.at(lead@).gotify
                    &&& after.parked.at(lead@).slack == before.parked.at(lead@).slack
                    &&& forall|other: SlotId|
                        other != lead@ ==> #[trigger] after.parked.at(other) == before.parked.at(
                            other,
                        )
                    &&& actions.len() == 1
                    &&& actions[0] == (Action::SpawnProject { project_name: target_project })
                }
            },
        },
{
}

/// An envelope for a worker reaches the one that was spawned last under the
/// label. It waits only where that worker's session is there and not yet
/// connected; otherwise it is read at once. Without such a worker those who
/// wait for its answers are told that it is closed.
pub proof fn an_envelope_reaches_the_latest_worker(
    before: Workspace,
    after: Workspace,
    project_key: String,
    target_label: String,
    wrapped: WrappedPrompt,
    actions: Seq<Action>,
    i: int,
)
    requires
        worker_peer_answered(before, after, project_key, target_label, wrapped, actions),
    ensures
        latest_at(before.live_workers@, project_key@, target_label@, i) ==> {
            let key = before.live_workers@[i].entry.slot;
            if before.presence(key@) is Some && !before.connected(key@) {
                &&& actions.len() == 0
                &&& after == (Workspace { parked: after.parked, ..before })
                &&& after.parked.at(key@).peer == before.parked.at(key@).peer.push(wrapped)
                &&& after.parked.at(key@).cron == before.parked.at(key@).cron
                &&& after.parked.at(key@).gotify == before.parked.at(key@).gotify
                &&& after.parked.at(key@).slack == before.parked.at(key@).slack
                &&& forall|other: SlotId|
                    other != key@ ==> #[trigger] after.parked.at(other) == before.parked.at(other)
            } else {
                &&& after == before
                &&& actions.len() >= 2
                &&& actions[actions.len() - 2] == Action::Emit(
                    SessionUpdate::PeerEnvelopeAppended { key, wrapped },
                )
                &&& actions.last() == (Action::Prompt { key, text: wrapped.prose })
                &&& wrapped.kind == WrappedKind::Question ==> actions.contains(
                    Action::BumpIncoming { key },
                ) && actions.contains(
                    Action::StampInflightTarget { correlation_id: wrapped.correlation_id, key },
                )
            }
        },
        nobody_bears(before.live_workers@, project_key@, target_label@) ==> after == before
            && actions.len() == 1 && actions[0] == (Action::ExpireInflightForClosedWorker {
            project_key,
            label: target_label,
        }),
{
    a_found_worker_bears_its_label(before.live_workers@, project_key@, target_label@, i);
    if latest_at(before.live_workers@, project_key@, target_label@, i) && after == before {
        let worker = before.live_workers@[i];
        let retry = tag_retry(before, project_key, target_label, worker.entry);
        let rest = peer_delivery(worker.entry.slot, wrapped);
        if wrapped.kind == WrappedKind::Question && actions == retry + rest {
            assert(actions[retry.len() as int] == rest[0]);
            assert(actions[retry.len() as int + 1] == rest[1]);
        }
    }
}

/// A worker whose tag was not written is tagged anew exactly where its session
/// has an id and its project is known: in the project's directory, for that
/// session.
pub proof fn a_missing_tag_is_retried(
    workspace: Workspace,
    project_key: String,
    label: String,
    entry: crate::workers::WorkerEntry,
)
    ensures
        ({
            let actions = tag_retry(workspace, project_key, label, entry);
            match (entry.needs_tag, entry.session_id, workspace.project_keyed(project_key@)) {
                (true, Some(id), Some(project)) => {
                    &&& actions.len() == 1
                    &&& actions[0] == (Action::RetryWorkerTag {
                        project_key,
                        key: entry.slot,
                        session_id: id,
                        label,
                        cwd: project.path,
                        is_git_repo: entry.is_git_repo_at_spawn,
                    })
                },
                _ => actions.len() == 0,
            }
        }),
{
}

/// A worker's envelope reaches a lead that runs: it waits only where the
/// lead's session is there and not yet connected, and is read at once
/// otherwise. A lead that does not run gets nothing.
pub proof fn a_workers_envelope_reaches_a_running_lead(
    before: Workspace,
    after: Workspace,
    lead: SessionSlot,
    wrapped: WrappedPrompt,
    actions: Seq<Action>,
)
    requires
        lead_peer_answered(before, after, lead, wrapped, actions),
    ensures
        !before.pooled(lead@) ==> after == before && actions.len() == 0,
        before.pooled(lead@) && before.presence(lead@) is Some && !before.connected(lead@) ==> {
            &&& actions.len() == 0
            &&& after == (Workspace { parked: after.parked, ..before })
            &&& after.parked.at(lead@).peer == before.parked.at(lead@).peer.push(wrapped)
            &&& after.parked.at(lead@).cron == before.parked.at(lead@).cron
            &&& after.parked.at(lead@).gotify == before.parked.at(lead@).gotify
            &&& after.parked.at(lead@).slack == before.parked.at(lead@).slack
            &&& forall|other: SlotId|
                other != lead@ ==> #[trigger] after.parked.at(other) == before.parked.at(other)
        },
        before.pooled(lead@) && (before.presence(lead@) is None || before.connected(lead@)) ==> {
            &&& after == before
            &&& actions.len() >= 2
            &&& actions[actions.len() - 2] == Action::Emit(
                SessionUpdate::PeerEnvelopeAppended { key: lead, wrapped },
            )
            &&& actions.last() == (Action::Prompt { key: lead, text: wrapped.prose })
            &&& wrapped.kind == WrappedKind::Question ==> actions[0] == (Action::BumpIncoming {
                key: lead,
            })
        },
{
}

/// `part` stands in `whole`.
pub open spec fn is_within(part: Seq<char>, whole: Seq<char>) -> bool {
    exists|head: Seq<char>, tail: Seq<char>| whole == #[trigger] (head + part + tail)
}

/// What stands in a part stands in the whole.
proof fn lemma_within(part: Seq<char>, head: Seq<char>, middle: Seq<char>, tail: Seq<char>)
    requires
        is_within(part, middle),
    ensures
        is_within(part, head + middle + tail),
{
    let (a, b) = choose|a: Seq<char>, b: Seq<char>| middle == #[trigger] (a + part + b);
    assert(head + middle + tail =~= (head + a) + part + (b + tail));
}

/// What stands in a text stands in it after it has grown.
proof fn lemma_within_more(part: Seq<char>, text: Seq<char>, more: Seq<char>)
    requires
        is_within(part, text),
    ensures
        is_within(part, text + more),
{
    lemma_within(part, Seq::empty(), text, more);
    assert(Seq::<char>::empty() + text + more =~= text + more);
}

/// The end of a text stands in it.
proof fn lemma_within_end(head: Seq<char>, part: Seq<char>)
    ensures
        is_within(part, head + part),
{
    assert(head + part =~= head + part + Seq::<char>::empty());
}

/// A text stands in itself.
proof fn lemma_within_self(part: Seq<char>)
    ensures
        is_within(part, part),
{
    assert(part =~= Seq::<char>::empty() + part + Seq::<char>::empty());
}

/// The prose of a Slack message names its workspace, its conversation, its
/// time stamp, its thread and who wrote it, and holds its text: all that a
/// reply needs.
pub proof fn slack_prose_names_what_a_reply_needs(message: SlackMessage)
    ensures
        is_within(message.workspace@, slack_prose(message)),
        is_within(message.conversation_label@, slack_prose(message)),
        is_within(message.conversation@, slack_prose(message)),
        is_within(message.ts@, slack_prose(message)),
        message.thread_ts matches Some(thread) ==> is_within(thread@, slack_prose(message)),
        message.user matches Some(user) ==> is_within(user@, slack_prose(message)),
        is_within(message.text@, slack_prose(message)),
        is_within(file_lines(message.files@), slack_prose(message)),
{
    let in_thread = match message.thread_ts {
        Some(thread) => " in thread "@ + thread@,
        None => ""@,
    };
    let who = match message.user {
        Some(user) => user@,
        None => "unknown"@,
    };
    let s0 = "[Slack - workspace '"@ + message.workspace@;
    lemma_within_end("[Slack - workspace '"@, message.workspace@);
    let s1 = s0 + "', "@;
    lemma_within_more(message.workspace@, s0, "', "@);
    let s2 = s1 + message.conversation_label@;
    lemma_within_more(message.workspace@, s1, message.conversation_label@);
    lemma_within_end(s1, message.conversation_label@);
    let s3 = s2 + "] id "@;
    lemma_within_more(message.workspace@, s2, "] id "@);
    lemma_within_more(message.conversation_label@, s2, "] id "@);
    let s4 = s3 + message.conversation@;
    lemma_within_more(message.workspace@, s3, message.conversation@);
    lemma_within_more(message.conversation_label@, s3, message.conversation@);
    lemma_within_end(s3, message.conversation@);
    let s5 = s4 + " ts "@;
    lemma_within_more(message.workspace@, s4, " ts "@);
    lemma_within_more(message.conversation_label@, s4, " ts "@);
    lemma_within_more(message.conversation@, s4, " ts "@);
    let s6 = s5 + message.ts@;
    lemma_within_more(message.workspace@, s5, message.ts@);
    lemma_within_more(message.conversation_label@, s5, message.ts@);
    lemma_within_more(message.conversation@, s5, message.ts@);
    lemma_within_end(s5, message.ts@);
    let s7 = s6 + in_thread;
    lemma_within_more(message.workspace@, s6, in_thread);
    lemma_within_more(message.conversation_label@, s6, in_thread);
    lemma_within_more(message.conversation@, s6, in_thread);
    lemma_within_more(message.ts@, s6, in_thread);
    if message.thread_ts is Some {
        lemma_within_end(" in thread "@, message.thread_ts->0@);
        lemma_within(message.thread_ts->0@, s6, in_thread, Seq::empty());
        assert(s6 + in_thread + Seq::<char>::empty() =~= s7);
        lemma_within_more(message.thread_ts->0@, s7, "\n"@);
        lemma_within_more(message.thread_ts->0@, s7 + "\n"@, who);
        lemma_within_more(message.thread_ts->0@, s7 + "\n"@ + who, ": "@);
        lemma_within_more(message.thread_ts->0@, s7 + "\n"@ + who + ": "@, message.text@);
        lemma_within_more(
            message.thread_ts->0@,
            s7 + "\n"@ + who + ": "@ + message.text@,
            file_lines(message.files@),
        );
    }
    let s8 = s7 + "\n"@;
    lemma_within_more(message.workspace@, s7, "\n"@);
    lemma_within_more(message.conversation_label@, s7, "\n"@);
    lemma_within_more(message.conversation@, s7, "\n"@);
    lemma_within_more(message.ts@, s7, "\n"@);
    let s9 = s8 + who;
    lemma_within_more(message.workspace@, s8, who);
    lemma_within_more(message.conversation_label@, s8, who);
    lemma_within_more(message.conversation@, s8, who);
    lemma_within_more(message.ts@, s8, who);
    lemma_within_end(s8, who);
    let s10 = s9 + ": "@;
    lemma_within_more(message.workspace@, s9, ": "@);
    lemma_within_more(message.conversation_label@, s9, ": "@);
    lemma_within_more(message.conversation@, s9, ": "@);
    lemma_within_more(message.ts@, s9, ": "@);
    lemma_within_more(who, s9, ": "@);
    let s11 = s10 + message.text@;
    lemma_within_more(message.workspace@, s10, message.text@);
    lemma_within_more(message.conversation_label@, s10, message.text@);
    lemma_within_more(message.conversation@, s10, message.text@);
    lemma_within_more(message.ts@, s10, message.text@);
    lemma_within_more(who, s10, message.text@);
    lemma_within_end(s10, message.text@);
    let s12 = s11 + file_lines(message.files@);
    lemma_within_more(message.workspace@, s11, file_lines(message.files@));
    lemma_within_more(message.conversation_label@, s11, file_lines(message.files@));
    lemma_within_more(message.conversation@, s11, file_lines(message.files@));
    lemma_within_more(message.ts@, s11, file_lines(message.files@));
    lemma_within_more(who, s11, file_lines(message.files@));
    lemma_within_more(message.text@, s11, file_lines(message.files@));
    lemma_within_end(s11, file_lines(message.files@));
    assert(s12 == slack_prose(message));
}

/// Every file of a Slack message is named by its id and its name.
pub proof fn slack_files_are_named(files: Seq<SlackFile>, i: int)
    requires
        0 <= i < files.len(),
    ensures
        is_within(files[i].id@ + " "@ + files[i].name@, file_lines(files)),
    decreases files.len(),
{
    let rest = file_lines(files.drop_last());
    let last = files.last();
    if i == files.len() - 1 {
        let part = last.id@ + " "@ + last.name@;
        assert(file_lines(files) =~= (rest + "\n[file "@) + part + "]\n"@);
    } else {
        slack_files_are_named(files.drop_last(), i);
        let part = files[i].id@ + " "@ + files[i].name@;
        let tail = "\n[file "@ + last.id@ + " "@ + last.name@ + "]\n"@;
        lemma_within(part, Seq::empty(), rest, tail);
        assert(file_lines(files) =~= Seq::<char>::empty() + rest + tail);
    }
}

/// Every message of a bundle is in its prose.
pub proof fn a_bundle_holds_every_message(messages: Seq<SlackMessage>, i: int)
    requires
        0 <= i < messages.len(),
    ensures
        is_within(slack_prose(messages[i]), bundle_prose(messages)),
    decreases messages.len(),
{
    let part = slack_prose(messages[i]);
    if messages.len() == 1 {
        lemma_within_self(part);
    } else {
        let rest = bundle_prose(messages.drop_last());
        let tail = "\n"@ + slack_prose(messages.last());
        if i == messages.len() - 1 {
            assert(bundle_prose(messages) =~= (rest + "\n"@) + part + Seq::<char>::empty());
        } else {
            a_bundle_holds_every_message(messages.drop_last(), i);
            lemma_within(part, Seq::empty(), rest, tail);
            assert(bundle_prose(messages) =~= Seq::<char>::empty() + rest + tail);
        }
    }
}

/// A cron's owner can read it now exactly where it is connected: the first
/// live worker of the role in that project, or the lead where it runs.
pub proof fn a_cron_is_read_by_a_connected_owner(
    workspace: Workspace,
    project: ProjectView,
    team_role: Option<String>,
    i: int,
)
    ensures
        team_role matches Some(label) ==> {
            &&& earliest_at(workspace.live_workers@, project.key@, label@, i) ==> {
                let slot = workspace.live_workers@[i].entry.slot;
                &&& workspace.connected(slot@) ==> cron_target(workspace, project, team_role)
                    == Some(slot)
                &&& !workspace.connected(slot@) ==> cron_target(
                    workspace,
                    project,
                    team_role,
                ) is None
            }
            &&& nobody_bears(workspace.live_workers@, project.key@, label@) ==> cron_target(
                workspace,
                project,
                team_role,
            ) is None
        },
        team_role is None ==> {
            let lead = SessionSlot { org: project.org, project: project.name, label: None };
            &&& workspace.pooled(lead@) && workspace.connected(lead@) ==> cron_target(
                workspace,
                project,
                team_role,
            ) == Some(lead)
            &&& !workspace.pooled(lead@) || !workspace.connected(lead@) ==> cron_target(
                workspace,
                project,
                team_role,
            ) is None
        },
{
    if team_role is Some {
        a_found_worker_bears_its_label(
            workspace.live_workers@,
            project.key@,
            team_role->0@,
            i,
        );
    }
}

/// A cron's owner exists where it is the lead, where a worker of its role has
/// not failed, or where it is stored and can be started. A stored one that
/// cannot is told with its directory; one that is not stored is absent, and
/// one whose store cannot be read is unknown.
pub proof fn a_cron_owner_is_up_or_stored(
    workspace: Workspace,
    project: ProjectView,
    team_role: Option<String>,
    owner: StoredOwner,
)
    ensures
        ({
            let check = owner_check(workspace, project, team_role, owner);
            let asleep = team_role matches Some(label) && nobody_up_bears(
                workspace.live_workers@,
                project.key@,
                label@,
            );
            &&& check == CronOwnerCheck::Exists <==> !asleep || (
            owner matches StoredOwner::Stored { directory, can_start: true })
            &&& check == CronOwnerCheck::Absent <==> asleep && owner == StoredOwner::Absent
            &&& check == CronOwnerCheck::Unknown <==> asleep && owner == StoredOwner::Unreadable
            &&& (check matches CronOwnerCheck::CannotBeWoken { directory } ==> asleep && owner == (
            StoredOwner::Stored { directory, can_start: false }))
        }),
{
    if team_role is Some {
        a_found_worker_bears_its_label(
            workspace.live_workers@,
            project.key@,
            team_role->0@,
            0,
        );
    }
}

/// A role's worker is the first live one of the named project that bears the
/// role, whether or not it is connected.
pub proof fn a_roles_worker_is_the_first_that_bears_it(
    workspace: Workspace,
    project: Seq<char>,
    label: Seq<char>,
    view: ProjectView,
    i: int,
)
    ensures
        workspace.project_named(project) == Some(view) && earliest_at(
            workspace.live_workers@,
            view.key@,
            label,
            i,
        ) ==> team_worker(workspace, project, label) == Some(
            workspace.live_workers@[i].entry.slot,
        ),
        workspace.project_named(project) == Some(view) && nobody_bears(
            workspace.live_workers@,
            view.key@,
            label,
        ) ==> team_worker(workspace, project, label) is None,
        workspace.project_named(project) is None ==> team_worker(
            workspace,
            project,
            label,
        ) is None,
{
    a_found_worker_bears_its_label(workspace.live_workers@, view.key@, label, i);
}

/// A missed cron is marked and ends with its prompt; one that was not missed
/// is its prompt.
pub proof fn only_a_missed_cron_is_marked(prompt: Seq<char>, missed: bool)
    ensures
        !missed ==> cron_text(prompt, missed) == prompt,
        missed ==> cron_text(prompt, missed) == "[missed cron] "@ + prompt,
        missed ==> cron_text(prompt, missed).len() > prompt.len(),
{
    reveal_strlit("[missed cron] ");
}

/// A bundle tells its messages in their order, each on a line of its own.
pub proof fn a_bundle_keeps_its_order(earlier: Seq<SlackMessage>, later: Seq<SlackMessage>)
    requires
        earlier.len() > 0,
        later.len() > 0,
    ensures
        bundle_prose(earlier + later) == bundle_prose(earlier) + "\n"@ + bundle_prose(later),
    decreases later.len(),
{
    let all = earlier + later;
    assert(all.last() == later.last());
    assert(all.drop_last() =~= earlier + later.drop_last());
    if later.len() == 1 {
        assert(earlier + later.drop_last() =~= earlier);
        assert(later[0] == later.last());
    } else {
        a_bundle_keeps_its_order(earlier, later.drop_last());
        let front = bundle_prose(earlier);
        let back = bundle_prose(later.drop_last());
        let last = slack_prose(later.last());
        assert(front + "\n"@ + back + "\n"@ + last =~= front + "\n"@ + (back + "\n"@ + last));
    }
}

/// The files of a message are told in their order, behind its text.
pub proof fn slack_files_keep_their_order(files: Seq<SlackFile>, file: SlackFile)
    ensures
        file_lines(Seq::empty()) == Seq::<char>::empty(),
        file_lines(files.push(file)).take(file_lines(files).len() as int) == file_lines(files),
{
    let lines = file_lines(files);
    let all = file_lines(files.push(file));
    assert(files.push(file).drop_last() =~= files);
    assert(all.take(lines.len() as int) =~= lines);
}

/// An envelope waits for a session that is there and not yet connected, last
/// of the envelopes there; for every other session it is handed back at once,
/// and nothing changes.
pub proof fn an_envelope_waits_for_a_starting_session(
    before: Workspace,
    after: Workspace,
    slot: SessionSlot,
    wrapped: WrappedPrompt,
    now: Option<WrappedPrompt>,
)
    requires
        envelope_buffered(before, after, slot, wrapped, now),
    ensures
        before.presence(slot@) is Some && !before.connected(slot@) ==> {
            &&& now is None
            &&& after == (Workspace { parked: after.parked, ..before })
            &&& after.parked.at(slot@).peer == before.parked.at(slot@).peer.push(wrapped)
            &&& after.parked.at(slot@).cron == before.parked.at(slot@).cron
            &&& after.parked.at(slot@).gotify == before.parked.at(slot@).gotify
            &&& after.parked.at(slot@).slack == before.parked.at(slot@).slack
            &&& forall|other: SlotId|
                other != slot@ ==> #[trigger] after.parked.at(other) == before.parked.at(other)
        },
        before.presence(slot@) is None || before.connected(slot@) ==> now == Some(wrapped) && after
            == before,
{
}

/// What became of a cron that was handed over: it is delivered where that
/// worked, and stays due where it did not, with the turn unwound where one was
/// begun. A cron that was settled before stays settled.
pub proof fn a_handed_over_cron_is_settled(
    next: CronNext,
    dispatched: Result<(), String>,
    settled: (Vec<Action>, CronFireOutcome),
)
    requires
        cron_settled(next, dispatched, settled),
    ensures
        next matches CronNext::Done(outcome) ==> settled.1 == outcome && settled.0@.len() == 0,
        !(next is Done) && dispatched is Ok ==> settled.1 == CronFireOutcome::Delivered
            && settled.0@.len() == 0,
        !(next is Done) && dispatched is Err ==> settled.1 == CronFireOutcome::DispatchFailed,
        next matches CronNext::AfterPrompt(slot) ==> (dispatched matches Err(reason) ==> {
            &&& settled.0@.len() == 1
            &&& settled.0@[0] matches Action::Emit(
                SessionUpdate::TurnError { key, message, class, terminal_reason },
            )
            &&& key == slot
            &&& message@ == reason@
        }),
        next is AfterSpawn ==> settled.0@.len() == 0,
{
}

/// A Slack message that was handed over is shown and remembered; one that was
/// not is neither, and its turn is unwound.
pub proof fn a_handed_over_slack_message_is_shown(
    before: Workspace,
    after: Workspace,
    project: String,
    team_role: Option<String>,
    key: SessionSlot,
    prose: String,
    message: SlackMessage,
    now: u64,
    dispatched: Result<(), String>,
    settled: (bool, Vec<Action>),
)
    requires
        slack_settled(
            before,
            after,
            project,
            team_role,
            key,
            prose,
            message,
            now,
            dispatched,
            settled,
        ),
    ensures
        settled.0 <==> dispatched is Ok,
        settled.1@.len() == 1,
        dispatched is Ok ==> {
            &&& settled.1@[0] == Action::Emit(SessionUpdate::SlackMessageAppended { key, prose })
            &&& after.slack.delivered@.last().project == project
            &&& after.slack.delivered@.last().team_role == team_role
            &&& after.slack.delivered@.last().conversation == message.conversation
            &&& after.slack.delivered@.last().ts == message.ts
            &&& after.slack.delivered@.last().at == now
            &&& after.parked == before.parked
            &&& after.live_workers == before.live_workers
            &&& after.slack.subs == before.slack.subs
        },
        dispatched matches Err(reason) ==> {
            &&& after == before
            &&& settled.1@[0] matches Action::Emit(
                SessionUpdate::TurnError { key: k, message: m, class, terminal_reason },
            )
            &&& k == key
            &&& m@ == reason@
        },
{
    crate::slack::a_delivery_is_logged_as_what_it_was(
        before.slack.delivered@,
        project,
        team_role,
        message,
        now,
        0,
    );
}

} // verus!
