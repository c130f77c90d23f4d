//! What a session does with what its agent reports and what it is told.

use forge_workspace::launch::SessionLaunchSettings;
use forge_workspace::protocol::{
    Action, AgentCommand, AgentEvent, Command, CurrentModel, DictateOverrides, GotifyNotification,
    InteractionKind, RateLimitStatus, RuntimeSessionState, SdkMessage, SessionUpdate, SlackMessage,
    SpawnFailureKind, WireValue, WorkerLiveness, WrappedKind, WrappedPrompt,
};
use forge_workspace::session_task::{
    apply_event_to_domain, declared_models_for_session, deliver_parked_slack, drain_parked,
    execute_command_via_handle, maybe_kick_worker_on_connected,
    maybe_respawn_workers_on_connected, slack_bundle_to_prose, warn_no_session, Afterwards,
    CommandStep, DeclaredModels, DomainSession, SessionTask, Translation,
};
use forge_workspace::slack::SlackSubsystemHost;
use forge_workspace::slot::SessionSlot;
use forge_workspace::workers::{LiveWorker, WorkerEntry};
use forge_workspace::workspace::{ProjectView, Workspace};

fn text(value: &str) -> String {
    value.to_owned()
}

fn wire(json: &str) -> WireValue {
    WireValue { json: text(json) }
}

fn project(name: &str) -> ProjectView {
    ProjectView {
        key: format!("k-{name}"),
        org: text("TestOrg"),
        name: text(name),
        path: format!("/tmp/{name}"),
        display_path: format!("/tmp/{name}"),
        max_workers: None,
    }
}

fn workspace(names: &[&str]) -> Workspace {
    Workspace::new(
        names.iter().map(|name| project(name)).collect(),
        project("forge"),
        Vec::new(),
    )
}

fn lead(name: &str) -> SessionSlot {
    SessionSlot::lead(&text("TestOrg"), &text(name))
}

fn worker(name: &str, label: &str) -> SessionSlot {
    SessionSlot::worker(&text("TestOrg"), &text(name), &text(label))
}

fn entry(name: &str, label: &str, kick: Option<&str>) -> WorkerEntry {
    WorkerEntry {
        label: text(label),
        charter: text("ad-hoc"),
        slot: worker(name, label),
        session_id: None,
        status: WorkerLiveness::Running,
        spawned_at: 0,
        spawned_by: lead(name),
        needs_tag: false,
        is_git_repo_at_spawn: false,
        diagnostic: None,
        kick: kick.map(str::to_owned),
    }
}

fn put_live(ws: &mut Workspace, name: &str, entry: WorkerEntry) {
    ws.live_workers.workers.push(LiveWorker { project_key: format!("k-{name}"), entry });
}

fn task(key: SessionSlot) -> SessionTask {
    SessionTask { key: key.clone(), connected_once: false, domain: DomainSession::new(key) }
}

fn model() -> CurrentModel {
    CurrentModel {
        resolved_id: text("model"),
        display_name_short: text("model"),
        display_name_long: text("model"),
        requested_id: None,
        catalog_id: None,
        supports_effort: false,
        supported_effort_levels: Vec::new(),
        supports_auto_mode: None,
        supports_adaptive_thinking: None,
        is_authoritative: true,
    }
}

fn connected_event(session_id: &str, cwd: &str) -> AgentEvent {
    AgentEvent::Connected {
        session_id: text(session_id),
        cwd: text(cwd),
        current_model: model(),
        available_models: Vec::new(),
        mode: None,
        history_updates: None,
        compaction_count: 0,
    }
}

fn failed(kind: SpawnFailureKind) -> AgentEvent {
    AgentEvent::ConnectionFailed { message: text("spawn failed"), kind }
}

fn sdk(msg: SdkMessage) -> AgentEvent {
    AgentEvent::SdkMessage { msg }
}

fn drains_review(actions: &[Action], caller: &SessionSlot) -> bool {
    actions.contains(&Action::DrainReviewActivity { caller: caller.clone() })
}

fn prompts(actions: &[Action]) -> Vec<(SessionSlot, String)> {
    actions
        .iter()
        .filter_map(|action| match action {
            Action::Prompt { key, text } => Some((key.clone(), text.clone())),
            _ => None,
        })
        .collect()
}

fn slack(conversation: &str, ts: &str, said: &str) -> SlackMessage {
    SlackMessage {
        workspace: text("acme"),
        conversation: text(conversation),
        conversation_label: text("U9"),
        ts: text(ts),
        thread_ts: None,
        user: Some(text("U9")),
        text: text(said),
        files: Vec::new(),
    }
}

fn wrapped(kind: WrappedKind, body: &str) -> WrappedPrompt {
    WrappedPrompt {
        correlation_id: format!("id-{body}"),
        kind,
        sender_name: text("forge"),
        sender_org: text("Default"),
        body: text(body),
        prose: format!("[peer] {body}"),
    }
}

/// Connect a session and do what that asks for.
fn connect(ws: &mut Workspace, task: &mut SessionTask, event: AgentEvent) -> Vec<Action> {
    let Translation { actions, afterwards } = task.translate_event(Some(ws), event);
    assert_eq!(afterwards, Afterwards::Running);
    let mut done = Vec::new();
    for action in actions {
        match action {
            Action::DrainParked { slot } => done.extend(drain_parked(ws, &slot)),
            other => done.push(other),
        }
    }
    done
}

#[test]
fn a_first_connected_rolls_back_the_row_its_spawn_minted() {
    let mut ws = workspace(&["forge"]);
    let mut task = task(worker("forge", "steward"));
    task.domain.spawn_wrote_row = true;
    let actions = connect(&mut ws, &mut task, connected_event("id", "/tmp/forge"));
    assert!(actions.contains(&Action::ApplyWorkerTag {
        key: worker("forge", "steward"),
        session_id: text("id"),
        cwd: text("/tmp/forge"),
        minted_row: true,
    }));
}

#[test]
fn a_new_session_retag_keeps_the_workers_row() {
    let mut ws = workspace(&["forge"]);
    let mut task = task(worker("forge", "steward"));
    task.domain.spawn_wrote_row = true;
    task.connected_once = true;
    let actions = connect(&mut ws, &mut task, connected_event("id", "/tmp/forge"));
    assert!(actions.contains(&Action::ApplyWorkerTag {
        key: worker("forge", "steward"),
        session_id: text("id"),
        cwd: text("/tmp/forge"),
        minted_row: false,
    }));
}

#[test]
fn a_worker_that_runs_new_is_re_delivered_its_charter() {
    let mut task = task(worker("forge", "examiner"));
    let step = task.execute_command(
        Command::NewSession {
            cwd: text("/tmp/forge"),
            launch_settings: SessionLaunchSettings::default(),
        },
        true,
        Some(text("minted")),
        Some(text("mind the queues")),
    );
    let CommandStep::Send {
        command: AgentCommand::NewSession { session_id, launch_settings, .. },
        stamp,
    } = step
    else {
        panic!("the task forwards the new-session command to the handle");
    };
    assert_eq!(
        launch_settings.charter.as_deref(),
        Some("mind the queues"),
        "the worker comes back with the charter its row holds",
    );
    assert_eq!(session_id, Some(text("minted")), "`/new` starts under a minted id");
    assert_eq!(stamp, Some(text("minted")), "and is stamped with it");
}

#[test]
fn a_resumed_session_is_stamped_with_the_id_it_re_enters() {
    let mut task = task(lead("forge"));
    let step = task.execute_command(
        Command::ResumeSession {
            session_id: text("resumed-id"),
            cwd: text("/tmp/forge"),
            launch_settings: SessionLaunchSettings::default(),
        },
        true,
        None,
        Some(text("not for a resume")),
    );
    let CommandStep::Send {
        command: AgentCommand::ResumeSession { session_id, launch_settings, .. },
        stamp,
    } = step
    else {
        panic!("the task forwards the resume command to the handle");
    };
    assert_eq!(session_id, "resumed-id");
    assert_eq!(launch_settings.charter, None);
    assert_eq!(stamp, Some(text("resumed-id")));
}

#[test]
fn first_connected_drains_parked_slack_and_echoes_block() {
    let mut ws = workspace(&["slack-drain"]);
    let key = lead("slack-drain");
    ws.parked.park_slack(&key, slack("D1", "100.000001", "the buffered text"));
    let mut task = task(key.clone());
    let actions = connect(&mut ws, &mut task, connected_event("id", "/tmp/slack-drain"));
    assert!(
        prompts(&actions)
            .iter()
            .any(|(to, said)| *to == key && said.contains("the buffered text")),
        "the buffered message arrives as the session's own prompt: {actions:?}",
    );
    assert!(
        actions.iter().any(|action| matches!(
            action,
            Action::Emit(SessionUpdate::SlackMessageAppended { key: to, prose })
                if *to == key && prose.contains("the buffered text")
        )),
        "an asleep-buffered Slack message echoes a SlackMessageAppended on drain",
    );
    assert!(ws.parked.take(&key).slack.is_empty(), "the buffer drains once flushed");
}

#[test]
fn first_connected_emits_connected_before_draining_slack() {
    let mut ws = workspace(&["slack-rekey"]);
    let key = lead("slack-rekey");
    ws.parked.park_slack(&key, slack("D1", "100.000001", "buffered while asleep"));
    let mut task = task(key.clone());
    let actions = connect(&mut ws, &mut task, connected_event("id", "/tmp/slack-rekey"));
    let connected = actions
        .iter()
        .position(|action| matches!(action, Action::Emit(SessionUpdate::Connected { .. })))
        .expect("the session's Connected");
    let echoed = actions
        .iter()
        .position(|action| {
            matches!(action, Action::Emit(SessionUpdate::SlackMessageAppended { .. }))
        })
        .expect("the drained message still echoes a block");
    assert!(connected < echoed, "the session's Connected lands before its drained Slack echo");
}

#[test]
fn turn_end_result_drains_review_activity_to_a_notice() {
    let ws = workspace(&[]);
    let key = worker("forge", "w");
    let mut task = task(key.clone());
    let done = task.translate_event(Some(&ws), sdk(SdkMessage::Result { raw: wire("{}") }));
    assert!(drains_review(&done.actions, &key));
    assert!(matches!(
        done.actions.last(),
        Some(Action::Emit(SessionUpdate::ChatAppended { msg: SdkMessage::Result { .. }, .. }))
    ));
}

#[test]
fn cancelled_turn_result_drains_review_activity() {
    let ws = workspace(&[]);
    let key = worker("forge", "w");
    let mut task = task(key.clone());
    let raw = wire("{\"subtype\":\"error_during_execution\"}");
    let done = task.translate_event(Some(&ws), sdk(SdkMessage::Result { raw }));
    assert!(drains_review(&done.actions, &key), "a cancelled turn still notifies");
}

#[test]
fn transport_error_drains_review_activity() {
    let ws = workspace(&[]);
    let key = worker("forge", "w");
    let mut task = task(key.clone());
    let msg = SdkMessage::Error { error: text("stream closed"), raw: wire("{}") };
    assert!(drains_review(&task.translate_event(Some(&ws), sdk(msg)).actions, &key));
}

#[test]
fn a_message_that_ends_no_turn_drains_nothing() {
    let ws = workspace(&[]);
    let key = worker("forge", "w");
    let mut task = task(key.clone());
    let done = task.translate_event(Some(&ws), sdk(SdkMessage::Other { raw: wire("{}") }));
    assert_eq!(
        done.actions,
        vec![Action::Emit(SessionUpdate::ChatAppended {
            key,
            msg: SdkMessage::Other { raw: wire("{}") },
        })],
    );
}

#[test]
fn session_replacement_drains_review_activity() {
    let mut ws = workspace(&[]);
    let key = worker("forge", "w");
    let mut task = task(key.clone());
    task.connected_once = true;
    let actions = connect(&mut ws, &mut task, connected_event("worker-replacement", "/tmp/proj"));
    assert!(
        drains_review(&actions, &key),
        "the replaced identity flushes what its turn touched",
    );
}

#[test]
fn task_teardown_drains_review_activity() {
    let key = worker("forge", "w");
    let task = task(key.clone());
    assert_eq!(
        task.dropped(true),
        vec![
            Action::DrainReviewActivity { caller: key.clone() },
            Action::ExpireTargetInflight { key },
        ],
    );
    assert!(task.dropped(false).is_empty(), "without a workspace there is nothing to tell");
}

#[test]
fn a_rate_limit_event_not_allowed_reports_the_gateway_for_the_session_key() {
    let ws = workspace(&[]);
    let mut task = task(worker("forge", "w"));
    task.domain.session_id = Some(text("w-uuid"));
    let limit = |status: RateLimitStatus, resets_at: Option<i64>| {
        sdk(SdkMessage::RateLimitEvent { status, resets_at, raw: wire("{}") })
    };

    let rejected =
        task.translate_event(Some(&ws), limit(RateLimitStatus::Rejected, Some(1_800_000_000)));
    assert!(rejected.actions.contains(&Action::ReportRateLimit {
        org: text("TestOrg"),
        project: text("forge"),
        session_id: text("w-uuid"),
        reset_at: Some(1_800_000_000),
    }));

    let allowed = task.translate_event(Some(&ws), limit(RateLimitStatus::Allowed, None));
    assert!(
        !allowed.actions.iter().any(|action| matches!(action, Action::ReportRateLimit { .. })),
        "an allowed frame rotates nothing",
    );

    let odd = task.translate_event(Some(&ws), limit(RateLimitStatus::Unknown, Some(-1)));
    assert!(odd.actions.iter().any(|action| matches!(
        action,
        Action::ReportRateLimit { reset_at: None, .. }
    )));
}

#[test]
fn connection_failed_releases_the_session_registrations() {
    let ws = workspace(&[]);
    let key = lead("forge");
    let mut task = task(key.clone());
    let done = task.translate_event(Some(&ws), failed(SpawnFailureKind::Unclassified));
    assert_eq!(done.afterwards, Afterwards::Stopped, "ConnectionFailed must terminate the task");
    assert_eq!(
        done.actions.last(),
        Some(&Action::ReleaseSessionIfCurrent { slot: key.clone() }),
        "the dead spawn's registrations are released",
    );
    assert!(done.actions.contains(&Action::Emit(SessionUpdate::ConnectionFailed {
        key,
        message: text("spawn failed"),
        fatal: false,
    })));
}

#[test]
fn connection_failed_releases_registrations_and_terminates() {
    let mut ws = workspace(&["forge"]);
    let mut task = task(lead("forge"));
    connect(&mut ws, &mut task, connected_event("id", "/tmp/forge"));
    let done = task.translate_event(Some(&ws), failed(SpawnFailureKind::Unclassified));
    assert_eq!(done.afterwards, Afterwards::Stopped, "a ConnectionFailed ends the loop");
    assert!(done.actions.contains(&Action::ReleaseSessionIfCurrent { slot: lead("forge") }));
    assert!(done.actions.contains(&Action::ExpireTargetInflight { key: lead("forge") }));
}

#[test]
fn connection_failed_expires_the_buffers_parked_for_its_slot() {
    let ws = workspace(&[]);
    let key = lead("forge");
    let mut task = task(key.clone());
    let done = task.translate_event(Some(&ws), failed(SpawnFailureKind::Unclassified));
    assert!(done.actions.contains(&Action::ExpireParkedForSlot { slot: key }));
}

#[test]
fn respawn_connection_failure_is_nonfatal_and_releases_the_session() {
    let ws = workspace(&[]);
    let key = lead("forge");
    let mut task = task(key.clone());
    task.connected_once = true;
    let done = task.translate_event(Some(&ws), failed(SpawnFailureKind::Unclassified));
    assert!(done.actions.iter().any(|action| matches!(
        action,
        Action::Emit(SessionUpdate::ConnectionFailed { fatal: false, .. })
    )));
    assert!(done.actions.contains(&Action::ReleaseSessionIfCurrent { slot: key }));
}

#[test]
fn a_named_spawn_failure_kind_reaches_the_worker_handler() {
    let ws = workspace(&[]);
    let key = worker("proj-x", "examiner");
    let mut task = task(key.clone());
    let done = task.translate_event(Some(&ws), failed(SpawnFailureKind::WorkingDirMissing));
    assert!(done.actions.contains(&Action::AsyncWorkerSpawnFailure {
        key,
        message: text("spawn failed"),
        kind: SpawnFailureKind::WorkingDirMissing,
    }));
}

fn permission(tool: &str) -> AgentEvent {
    AgentEvent::PermissionRequest {
        session_id: text("s"),
        tool_call_id: text(tool),
        request: wire("{}"),
    }
}

fn question(tool: &str) -> AgentEvent {
    AgentEvent::QuestionRequest {
        session_id: text("s"),
        tool_call_id: text(tool),
        request: wire("{}"),
    }
}

#[test]
fn respond_permission_round_trips_to_the_agent() {
    let ws = workspace(&[]);
    let mut task = task(lead("forge"));
    let asked = task.translate_event(Some(&ws), permission("tu-1"));
    assert_eq!(
        asked.afterwards,
        Afterwards::Await {
            session_id: text("s"),
            tool_call_id: text("tu-1"),
            kind: InteractionKind::Permission,
        },
    );
    assert!(
        task.domain.pending_interactions.contains_key(&text("tu-1")),
        "the request parks a pending permission slot",
    );

    let step = task.execute_command(
        Command::RespondPermission { tool_id: text("tu-1"), outcome: wire("\"cancelled\"") },
        true,
        None,
        None,
    );
    assert_eq!(
        step,
        CommandStep::Answer { tool_id: text("tu-1"), outcome: wire("\"cancelled\"") },
        "the outcome forwards to the bridge with the right tool id",
    );
    assert!(
        !task.domain.pending_interactions.contains_key(&text("tu-1")),
        "the slot is consumed",
    );
}

#[test]
fn respond_permission_against_a_question_slot_is_dropped() {
    let ws = workspace(&[]);
    let mut task = task(lead("forge"));
    task.translate_event(Some(&ws), question("tu-q1"));
    let step = task.execute_command(
        Command::RespondPermission { tool_id: text("tu-q1"), outcome: wire("null") },
        true,
        None,
        None,
    );
    assert_eq!(step, CommandStep::Nothing, "nothing forwards to the agent on a kind mismatch");
    assert!(
        task.domain.pending_interactions.contains_key(&text("tu-q1")),
        "the question slot survives the mismatched permission response",
    );
    let step = task.execute_command(
        Command::RespondQuestion { tool_id: text("tu-q1"), outcome: wire("1") },
        true,
        None,
        None,
    );
    assert_eq!(step, CommandStep::Answer { tool_id: text("tu-q1"), outcome: wire("1") });
}

#[test]
fn an_interaction_that_cannot_be_shown_is_given_up() {
    let ws = workspace(&[]);
    let mut task = task(lead("forge"));
    task.translate_event(Some(&ws), permission("tu-1"));
    assert!(task.interaction_unsent(&text("tu-1"), InteractionKind::Permission));
    assert!(!task.domain.pending_interactions.contains_key(&text("tu-1")));
    task.translate_event(Some(&ws), permission("tu-2"));
    assert!(!task.interaction_unsent(&text("tu-2"), InteractionKind::Question));
    assert!(!task.domain.pending_interactions.contains_key(&text("tu-2")));
}

#[test]
fn set_model_failed_and_turn_error_map_to_keyed_updates() {
    let ws = workspace(&[]);
    let key = lead("m");
    let mut task = task(key.clone());
    let done = task.translate_event(
        Some(&ws),
        AgentEvent::SetModelFailed { model: text("attempted"), message: text("not available") },
    );
    assert_eq!(
        done.actions,
        vec![Action::Emit(SessionUpdate::SetModelFailed {
            key: key.clone(),
            model: text("attempted"),
            message: text("not available"),
        })],
        "SetModelFailed keeps model + message for the rollback reducer",
    );
    let done = task.translate_event(
        Some(&ws),
        AgentEvent::TurnError { message: text("stdin write failed") },
    );
    assert!(
        matches!(
            &done.actions[..],
            [Action::Emit(SessionUpdate::TurnError { key: to, message, .. })]
                if *to == key && message == "stdin write failed"
        ),
        "TurnError carries the failure text so the spinner unwinds",
    );
}

#[test]
fn connected_records_the_id_the_cli_adopted() {
    let mut ws = workspace(&["forge"]);
    let key = lead("forge");
    let mut task = task(key.clone());
    let first = connect(&mut ws, &mut task, connected_event("first-id", "/proj"));
    assert!(first.contains(&Action::NoteRunningSessionId {
        key: key.clone(),
        session_id: text("first-id"),
    }));
    let second = connect(&mut ws, &mut task, connected_event("second-id", "/proj"));
    assert!(
        second.contains(&Action::NoteRunningSessionId { key, session_id: text("second-id") }),
        "so does a replacement, which is the id the next boot has to resume",
    );
}

#[test]
fn translate_connected_stamps_session_id() {
    let mut domain = DomainSession::new(lead("forge"));
    assert!(domain.session_id.is_none());
    apply_event_to_domain(&mut domain, &connected_event("real-uuid-1", "/proj"));
    assert_eq!(domain.session_id.as_deref(), Some("real-uuid-1"));
}

#[test]
fn connection_failed_clears_domain_turn_state() {
    let mut domain = DomainSession::new(lead("forge"));
    domain.runtime_state = Some(RuntimeSessionState::Running);
    domain.turn_pending = true;
    apply_event_to_domain(&mut domain, &failed(SpawnFailureKind::Unclassified));
    assert_eq!(domain.runtime_state, None, "runtime_state cleared on ConnectionFailed");
    assert!(!domain.turn_pending, "turn_pending cleared on ConnectionFailed");
}

#[test]
fn translate_second_connected_overwrites_session_id() {
    let mut domain = DomainSession::new(lead("forge"));
    domain.session_id = Some(text("old-uuid"));
    apply_event_to_domain(&mut domain, &connected_event("new-uuid", "/proj"));
    assert_eq!(
        domain.session_id.as_deref(),
        Some("new-uuid"),
        "second Connected must overwrite session_id mirror",
    );
}

#[test]
fn translate_second_connected_drains_pending_interactions() {
    let mut task = task(lead("forge"));
    task.connected_once = true;
    task.domain
        .pending_interactions
        .insert(text("stale_tool_id"), InteractionKind::Permission);
    task.translate_event(None, connected_event("new-uuid", "/proj"));
    assert!(
        task.domain.pending_interactions.entries.is_empty(),
        "second Connected must clear stale pending_interactions",
    );
}

#[test]
fn first_connected_drains_parked_peer_prompts_in_fifo_order() {
    let mut ws = workspace(&["forge"]);
    let key = lead("forge");
    let bodies = ["first", "second", "third"];
    for body in bodies {
        ws.parked.park_peer_prompt(&key, wrapped(WrappedKind::Message, body));
    }
    let mut task = task(key.clone());
    let actions = connect(&mut ws, &mut task, connected_event("id", "/tmp/drain"));
    let drained = prompts(&actions);
    assert_eq!(drained.len(), bodies.len(), "one prompt per buffered wrapped prompt");
    for (i, body) in bodies.iter().enumerate() {
        assert!(drained[i].1.contains(body), "drain position {i}: {drained:?}");
    }
    assert!(
        ws.parked.take(&key).peer.is_empty(),
        "the parked peer prompts are drained after first-Connected",
    );
}

#[test]
fn first_connected_drains_pending_cron_prompts_and_echoes_block() {
    let mut ws = workspace(&["cron-drain"]);
    let key = lead("cron-drain");
    ws.parked.park_cron(&key, text("morning reminder"), false);
    let mut task = task(key.clone());
    let actions = connect(&mut ws, &mut task, connected_event("id", "/tmp/cron-drain"));
    assert!(
        actions.contains(&Action::Prompt { key: key.clone(), text: text("morning reminder") }),
        "the buffered cron prompt is dispatched on first-Connected",
    );
    assert!(
        actions.contains(&Action::Emit(SessionUpdate::CronPromptAppended {
            key: key.clone(),
            text: text("morning reminder"),
        })),
        "an asleep-fired cron echoes a CronPromptAppended on drain",
    );
    assert!(ws.parked.take(&key).cron.is_empty());
}

#[test]
fn worker_first_connected_drains_its_own_bucket_with_missed_marker() {
    let mut ws = workspace(&["wdp"]);
    let key = worker("wdp", "examiner");
    put_live(&mut ws, "wdp", entry("wdp", "examiner", None));
    ws.parked.park_cron(&key, text("worker work"), true);
    ws.parked.park_cron(&lead("wdp"), text("lead work"), false);
    let mut task = task(key.clone());
    let actions = connect(&mut ws, &mut task, connected_event("id", "/tmp/wdp"));
    assert!(
        actions.contains(&Action::Prompt { key, text: text("[missed cron] worker work") }),
        "the worker drains its own missed cron with the marker applied",
    );
    let lead_bucket = ws.parked.take(&lead("wdp")).cron;
    assert_eq!(lead_bucket.len(), 1, "the lead's cron stays buffered");
    assert_eq!(lead_bucket[0].text, "lead work");
}

#[test]
fn a_connected_worker_is_not_listed_among_the_projects_sessions() {
    let mut ws = workspace(&["forge"]);
    put_live(&mut ws, "forge", entry("forge", "w", None));
    let mut of_worker = task(worker("forge", "w"));
    let actions = connect(&mut ws, &mut of_worker, connected_event("id", "/tmp/forge"));
    assert!(!actions
        .iter()
        .any(|action| matches!(action, Action::RecordConnectedSession { .. })));
    let mut of_lead = task(lead("forge"));
    let actions = connect(&mut ws, &mut of_lead, connected_event("id", "/tmp/forge"));
    assert!(actions.contains(&Action::RecordConnectedSession {
        cwd: text("/tmp/forge"),
        session_id: text("id"),
    }));
}

#[test]
fn translate_event_carries_a_non_zero_compaction_count_on_both_arms() {
    for connected_once in [false, true] {
        let mut ws = workspace(&[]);
        let mut task = task(lead("forge"));
        task.connected_once = connected_once;
        let mut event = connected_event("id", "/tmp/count");
        if let AgentEvent::Connected { compaction_count, .. } = &mut event {
            *compaction_count = 7;
        }
        let actions = connect(&mut ws, &mut task, event);
        let seen = actions.iter().find_map(|action| match action {
            Action::Emit(SessionUpdate::Connected { compaction_count, .. })
            | Action::Emit(SessionUpdate::SessionReplaced { compaction_count, .. }) => {
                Some(*compaction_count)
            }
            _ => None,
        });
        assert_eq!(seen, Some(7), "both arms must carry the count through unchanged");
    }
}

#[test]
fn connected_once_seed_emits_session_replaced_with_resumed_history() {
    let mut ws = workspace(&[]);
    let key = lead("forge");
    let mut task = task(key.clone());
    task.connected_once = true;
    let mut event = connected_event("id", "/tmp/respawn");
    if let AgentEvent::Connected { history_updates, .. } = &mut event {
        *history_updates = Some(vec![wire("{\"body\":\"earlier turn\"}")]);
    }
    let actions = connect(&mut ws, &mut task, event);
    let replaced: Vec<usize> = actions
        .iter()
        .filter_map(|action| match action {
            Action::Emit(SessionUpdate::SessionReplaced { key: to, history, .. }) => {
                assert_eq!(*to, key);
                Some(history.len())
            }
            _ => None,
        })
        .collect();
    assert_eq!(replaced, vec![1], "a SessionReplaced carrying the resumed conversation");
    assert!(!actions
        .iter()
        .any(|action| matches!(action, Action::Emit(SessionUpdate::Connected { .. }))));
}

#[test]
fn a_replaced_identity_drops_its_overrides_but_not_the_device_pick() {
    let mut ws = workspace(&[]);
    let key = lead("forge");
    let mut task = task(key.clone());
    task.connected_once = true;
    task.domain.dictate_overrides = DictateOverrides { changed: Some(wire("\"formal\"")) };
    let actions = connect(&mut ws, &mut task, connected_event("id", "/tmp/respawn"));
    assert_eq!(task.domain.dictate_overrides, DictateOverrides { changed: None });
    assert!(actions.contains(&Action::Emit(SessionUpdate::DictateOverrides {
        key,
        overrides: DictateOverrides { changed: None },
    })));
}

fn via_handle(session: Option<&str>, command: Command) -> Result<Option<AgentCommand>, String> {
    execute_command_via_handle(&session.map(str::to_owned), None, command)
}

#[test]
fn execute_prompt_forwards_to_handle() {
    let told = via_handle(
        Some("sess-1"),
        Command::Prompt { text: text("hi"), attachments: Vec::new() },
    );
    assert_eq!(
        told,
        Ok(Some(AgentCommand::Prompt {
            session_id: text("sess-1"),
            text: text("hi"),
            attachments: Vec::new(),
        })),
    );
}

#[test]
fn execute_cancel_forwards_to_handle() {
    assert_eq!(
        via_handle(Some("sess-1"), Command::Cancel),
        Ok(Some(AgentCommand::Cancel { session_id: text("sess-1") })),
    );
}

#[test]
fn execute_set_mode_uses_wire_form() {
    assert_eq!(
        via_handle(Some("sess-1"), Command::SetMode { mode: text("plan") }),
        Ok(Some(AgentCommand::SetMode { session_id: text("sess-1"), mode: text("plan") })),
    );
}

#[test]
fn execute_reconnect_mcp_server_forwards() {
    assert_eq!(
        via_handle(Some("sess-1"), Command::ReconnectMcpServer { server_name: text("fs") }),
        Ok(Some(AgentCommand::ReconnectMcpServer {
            session_id: text("sess-1"),
            server_name: text("fs"),
        })),
    );
}

#[test]
fn execute_command_without_session_id_is_dropped() {
    let err = via_handle(None, Command::Cancel)
        .expect_err("a no-session dispatch reports the drop, not Ok");
    assert!(err.contains("no active session"), "the error names the drop: {err}");
    assert_eq!(err, warn_no_session("Cancel"));
    let mut task = task(lead("forge"));
    let step = task.execute_command(Command::Cancel, true, None, None);
    assert!(matches!(
        step,
        CommandStep::Failed(Action::Emit(SessionUpdate::TurnError { message, .. }))
            if message.contains("no active session")
    ));
}

#[test]
fn what_is_for_the_workspace_tells_the_agent_nothing() {
    assert_eq!(via_handle(None, Command::App { name: text("OpenUrl") }), Ok(None));
    let mut task = task(lead("forge"));
    assert_eq!(
        task.execute_command(Command::App { name: text("OpenUrl") }, true, None, None),
        CommandStep::Nothing,
    );
}

#[test]
fn lead_connected_with_a_worker_row_triggers_respawn() {
    let ws = workspace(&["proj-x"]);
    assert_eq!(
        maybe_respawn_workers_on_connected(&ws, &lead("proj-x"), false),
        vec![Action::RespawnWorkers {
            slot: lead("proj-x"),
            project_key: text("k-proj-x"),
            force_new: false,
        }],
    );
}

#[test]
fn worker_connected_does_not_trigger_respawn() {
    let lookalike = "worker_wp_planner_abc";
    let ws = workspace(&[lookalike]);
    assert!(
        maybe_respawn_workers_on_connected(&ws, &worker(lookalike, "planner"), false).is_empty(),
        "a worker's own Connected does not respawn the team",
    );
}

#[test]
fn second_lead_connected_does_not_double_spawn() {
    let mut ws = workspace(&["proj-x"]);
    assert_eq!(
        maybe_respawn_workers_on_connected(&ws, &lead("proj-x"), false).len(),
        1,
        "first Connected respawns the workers",
    );
    put_live(&mut ws, "proj-x", entry("proj-x", "implementer", None));
    assert!(
        maybe_respawn_workers_on_connected(&ws, &lead("proj-x"), false).is_empty(),
        "second Connected must not double-spawn",
    );
}

fn kicked(ws: &Workspace, label: &str) -> Vec<Action> {
    maybe_kick_worker_on_connected(ws, &worker("forge", label))
}

#[test]
fn worker_with_inline_kick_dispatches_it_as_first_turn() {
    let mut ws = workspace(&["forge"]);
    let kick = "Begin: triage the failing test now.";
    put_live(&mut ws, "forge", entry("forge", "scratch", Some(kick)));
    assert_eq!(
        kicked(&ws, "scratch"),
        vec![Action::EnqueueKick { slot: worker("forge", "scratch"), prompt_body: text(kick) }],
        "inline kick delivered verbatim",
    );
}

#[test]
fn worker_with_an_underscore_label_dispatches_its_kick() {
    let mut ws = workspace(&["forge"]);
    let kick = "Begin: look at the open diff.";
    put_live(&mut ws, "forge", entry("forge", "code_check", Some(kick)));
    assert_eq!(
        kicked(&ws, "code_check"),
        vec![Action::EnqueueKick { slot: worker("forge", "code_check"), prompt_body: text(kick) }],
    );
}

#[test]
fn worker_without_inline_kick_for_adhoc_label_does_not_kick() {
    let mut ws = workspace(&["forge"]);
    put_live(&mut ws, "forge", entry("forge", "scratch", None));
    assert!(kicked(&ws, "scratch").is_empty(), "a live entry carrying no kick gets none");
}

#[test]
fn worker_connected_for_an_unmatched_label_does_not_take_another_workers_kick() {
    let mut ws = workspace(&["forge"]);
    put_live(&mut ws, "forge", entry("forge", "other", Some("not yours")));
    assert!(kicked(&ws, "scratchpad").is_empty());
}

#[test]
fn a_worker_label_with_an_underscore_keeps_its_kick() {
    let mut ws = workspace(&["forge"]);
    put_live(&mut ws, "forge", entry("forge", "code_check", Some("go")));
    assert_eq!(kicked(&ws, "code_check").len(), 1);
    assert!(maybe_kick_worker_on_connected(&ws, &lead("forge")).is_empty(), "a lead has no kick");
}

#[test]
fn a_session_names_the_model_that_was_declared_for_it() {
    let declared = DeclaredModels { available: vec![wire("1")], canonical: Some(text("fable")) };
    let AgentEvent::Connected { current_model, available_models, .. } =
        declared_models_for_session(connected_event("id", "/p"), Some(declared))
    else {
        panic!("it stays a connection");
    };
    assert_eq!(available_models, vec![wire("1")]);
    assert_ne!(current_model, model(), "it goes by its declared name");
    let AgentEvent::Connected { available_models, .. } =
        declared_models_for_session(connected_event("id", "/p"), None)
    else {
        panic!("it stays a connection");
    };
    assert!(available_models.is_empty());
    let other = AgentEvent::RuntimeReloadCompleted;
    assert_eq!(declared_models_for_session(other, None), AgentEvent::RuntimeReloadCompleted);
}

#[test]
fn a_task_without_events_fails_to_connect() {
    let task = task(lead("forge"));
    assert!(matches!(
        &task.started(false, None)[..],
        [Action::Emit(SessionUpdate::ConnectionFailed { fatal: false, .. })]
    ));
    assert_eq!(
        task.started(true, Some(text("Stargate"))),
        vec![Action::Emit(SessionUpdate::ForgeAccountIdentity {
            key: lead("forge"),
            display_name: text("Stargate"),
        })],
    );
    assert!(task.started(true, None).is_empty());
}

#[test]
fn parked_slack_messages_come_bundled_by_conversation() {
    let pending = vec![
        slack("C1", "1.0", "a"),
        slack("C2", "2.0", "b"),
        slack("C1", "3.0", "c"),
    ];
    let actions = deliver_parked_slack(&lead("forge"), &pending);
    let said = prompts(&actions);
    assert_eq!(said.len(), 2, "one prompt for each conversation: {said:?}");
    assert_eq!(said[0].1, slack_bundle_to_prose(&pending, &text("C1")));
    assert!(said[0].1.contains(": a") && said[0].1.contains(": c") && !said[0].1.contains(": b"));
    assert!(said[1].1.contains(": b"));
}

#[test]
fn what_is_parked_is_drained_kind_by_kind() {
    let mut ws = workspace(&["forge"]);
    let key = lead("forge");
    ws.parked.park_slack(&key, slack("C1", "1.0", "slack"));
    ws.parked.park_gotify(
        &key,
        GotifyNotification { title: text("t"), message: text("m"), prose: text("gotify") },
    );
    ws.parked.park_cron(&key, text("cron"), false);
    ws.parked.park_peer_prompt(&key, wrapped(WrappedKind::Question, "peer"));
    let actions = drain_parked(&mut ws, &key);
    let said: Vec<String> = prompts(&actions).into_iter().map(|(_, said)| said).collect();
    assert_eq!(said.len(), 4);
    assert_eq!(said[0], "[peer] peer");
    assert_eq!(said[1], "cron");
    assert_eq!(said[2], "gotify");
    assert!(said[3].ends_with("slack"));
    assert!(drain_parked(&mut ws, &key).is_empty(), "and only once");
}

#[test]
fn a_session_is_there_from_its_registration_until_it_is_forgotten() {
    let mut ws = workspace(&["forge"]);
    let (slot, other) = (lead("forge"), worker("forge", "tester"));
    ws.register_session(&other);
    ws.register_session(&slot);
    assert!(ws.session_is_pooled(&slot) && !ws.is_connected(&slot));

    ws.note_session_id(&slot, &text("s1"));
    assert!(ws.is_connected(&slot) && !ws.is_connected(&other));

    ws.register_session(&slot);
    assert!(!ws.is_connected(&slot), "a session started again has no id yet");
    assert_eq!((ws.pool.len(), ws.sessions.len()), (2, 2));

    ws.forget_session(&slot);
    assert!(!ws.session_is_pooled(&slot) && ws.domain_session_for(&slot).is_none());
    assert!(ws.session_is_pooled(&other), "another slot does not notice");
}

#[test]
fn a_proved_token_names_its_user() {
    let mut ws = workspace(&["forge"]);
    ws.note_slack_user(&text("acme"), text("U1"));
    ws.note_slack_user(&text("acme"), text("U2"));
    let host = SlackSubsystemHost::new(Some(&ws));
    assert_eq!(host.user_id(&text("acme")), Some(text("U2")));
    assert_eq!(host.user_id(&text("other")), None);
}
