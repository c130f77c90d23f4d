//! Delivering what is meant for a session: envelopes, crons, notifications
//! and Slack messages.

use forge_workspace::deliver::{
    buffer_prompt_until_connected, cron_dispatched, cron_slot_exists, deliver_cron_prompt,
    deliver_gotify_message, deliver_slack_message, handle_deliver_peer_prompt,
    handle_deliver_worker_prompt, handle_deliver_worker_prompt_to_lead, live_cron_slot,
    missed_cron_text, slack_dispatched, slack_message_to_prose, team_worker_key, CronFacts,
    CronFireOutcome, CronNext, CronOwnerCheck, SlackStep, StoredOwner,
};
use forge_workspace::protocol::{
    Action, GotifyNotification, SessionUpdate, SlackFile, SlackMessage, WorkerLiveness,
    WrappedKind, WrappedPrompt,
};
use forge_workspace::slot::SessionSlot;
use forge_workspace::workers::{LiveWorker, WorkerEntry};
use forge_workspace::workspace::{ProjectView, SessionPresence, Workspace};

fn text(value: &str) -> String {
    value.to_owned()
}

fn project(name: &str) -> ProjectView {
    ProjectView {
        key: format!("k-{name}"),
        org: text("TestOrg"),
        name: text(name),
        path: format!("/tmp/{name}"),
        display_path: format!("/tmp/{name}"),
        max_workers: None,
    }
}

fn workspace() -> Workspace {
    Workspace::new(
        vec![project("forge"), project("gateway-backend")],
        project("forge"),
        Vec::new(),
    )
}

fn lead(name: &str) -> SessionSlot {
    SessionSlot::lead(&text("TestOrg"), &text(name))
}

fn worker(label: &str) -> SessionSlot {
    SessionSlot::worker(&text("TestOrg"), &text("forge"), &text(label))
}

fn put_worker(ws: &mut Workspace, label: &str) {
    ws.live_workers.workers.push(LiveWorker {
        project_key: text("k-forge"),
        entry: WorkerEntry {
            label: text(label),
            charter: text("c"),
            slot: worker(label),
            session_id: None,
            status: WorkerLiveness::Running,
            spawned_at: 0,
            spawned_by: lead("forge"),
            needs_tag: false,
            is_git_repo_at_spawn: false,
            diagnostic: None,
            kick: None,
        },
    });
}

fn mark_connected(ws: &mut Workspace, slot: &SessionSlot) {
    ws.pool.push(slot.clone());
    ws.sessions.push(SessionPresence { slot: slot.clone(), session_id: Some(text("uuid")) });
}

fn wrapped(kind: WrappedKind) -> WrappedPrompt {
    WrappedPrompt {
        correlation_id: text("cid-1"),
        kind,
        sender_name: text("forge"),
        sender_org: text("Default"),
        body: text("fyi"),
        prose: text("[peer] fyi"),
    }
}

fn slack_msg(said: &str) -> SlackMessage {
    SlackMessage {
        workspace: text("acme"),
        conversation: text("D1"),
        conversation_label: text("U9"),
        ts: text("100.000001"),
        thread_ts: None,
        user: Some(text("U9")),
        text: text(said),
        files: Vec::new(),
    }
}

fn notification() -> GotifyNotification {
    GotifyNotification { title: text("t"), message: text("m"), prose: text("[Gotify] m") }
}

fn role(label: &str) -> Option<String> {
    Some(text(label))
}

const NOW: u64 = 1_000;

#[test]
fn handle_deliver_peer_prompt_unknown_target_is_no_op() {
    let mut ws = workspace();
    let actions =
        handle_deliver_peer_prompt(&mut ws, &text("no-such-project"), wrapped(WrappedKind::Message));
    assert!(
        !actions.iter().any(|action| matches!(
            action,
            Action::Emit(SessionUpdate::FatalError(_)) | Action::Prompt { .. }
        )),
        "unknown target must not emit FatalError",
    );
}

#[test]
fn handle_deliver_peer_prompt_sleeping_target_parks_for_the_projects_lead() {
    let mut ws = workspace();
    let actions =
        handle_deliver_peer_prompt(&mut ws, &text("gateway-backend"), wrapped(WrappedKind::Message));
    assert!(actions.contains(&Action::SpawnProject { project_name: text("gateway-backend") }));
    let parked = ws.parked.take(&lead("gateway-backend")).peer;
    assert_eq!(parked.len(), 1, "the project's lead bucket holds the wrapped prompt");
    assert_eq!(parked[0].correlation_id, "cid-1");
    assert!(ws.parked.buckets.iter().all(|bucket| bucket.parked.peer.is_empty()));
}

#[test]
fn tell_dispatch_does_not_bump_peer_stats() {
    let mut ws = workspace();
    mark_connected(&mut ws, &lead("gateway-backend"));
    let told =
        handle_deliver_peer_prompt(&mut ws, &text("gateway-backend"), wrapped(WrappedKind::Message));
    assert!(!told.iter().any(|action| matches!(action, Action::BumpIncoming { .. })));
    let asked =
        handle_deliver_peer_prompt(&mut ws, &text("gateway-backend"), wrapped(WrappedKind::Question));
    assert_eq!(
        asked,
        vec![
            Action::BumpIncoming { key: lead("gateway-backend") },
            Action::StampInflightTarget {
                correlation_id: text("cid-1"),
                key: lead("gateway-backend"),
            },
            Action::Emit(SessionUpdate::PeerEnvelopeAppended {
                key: lead("gateway-backend"),
                wrapped: wrapped(WrappedKind::Question),
            }),
            Action::Prompt { key: lead("gateway-backend"), text: text("[peer] fyi") },
        ],
    );
}

#[test]
fn a_slack_message_for_a_worker_targets_the_worker_not_the_lead() {
    let mut ws = workspace();
    put_worker(&mut ws, "tester");
    let step =
        deliver_slack_message(&mut ws, &text("forge"), &role("tester"), slack_msg("hello"), NOW);
    assert_eq!(step, SlackStep::Done { delivered: true, actions: Vec::new() });
    assert_eq!(
        ws.parked.take(&worker("tester")).slack.len(),
        1,
        "the message is parked for the worker that subscribed",
    );
    assert_eq!(
        ws.parked.take(&lead("forge")).slack.len(),
        0,
        "a worker-owned subscription never falls through to the lead",
    );
}

#[test]
fn deliver_slack_message_to_a_connected_worker_dispatches_and_echoes() {
    let mut ws = workspace();
    put_worker(&mut ws, "tester");
    mark_connected(&mut ws, &worker("tester"));
    let step =
        deliver_slack_message(&mut ws, &text("forge"), &role("tester"), slack_msg("hello"), NOW);
    let SlackStep::Prompt { key, prose, message } = step else {
        panic!("the worker receives the message as a prompt");
    };
    assert_eq!(key, worker("tester"));
    assert!(prose.contains("hello"));
    let (delivered, actions) = slack_dispatched(
        &mut ws,
        &text("forge"),
        &role("tester"),
        &key,
        &prose,
        &message,
        NOW,
        Ok(()),
    );
    assert!(delivered);
    assert!(
        actions.iter().any(|action| matches!(
            action,
            Action::Emit(SessionUpdate::SlackMessageAppended { key, prose })
                if *key == worker("tester")
                    && prose.starts_with("[Slack")
                    && prose.contains("hello")
        )),
        "a connected worker's delivery emits a SlackMessageAppended echo with the body",
    );
    let again =
        deliver_slack_message(&mut ws, &text("forge"), &role("tester"), slack_msg("hello"), NOW);
    assert_eq!(again, SlackStep::Done { delivered: true, actions: Vec::new() });
}

#[test]
fn a_failed_worker_dispatch_leaves_no_echo_for_the_sweep_to_duplicate() {
    let mut ws = workspace();
    put_worker(&mut ws, "tester");
    mark_connected(&mut ws, &worker("tester"));
    let (delivered, actions) = slack_dispatched(
        &mut ws,
        &text("forge"),
        &role("tester"),
        &worker("tester"),
        &text("prose"),
        &slack_msg("hello"),
        NOW,
        Err(text("the channel is closed")),
    );
    assert!(!delivered, "a failed dispatch tells the sweep to re-run the message");
    assert!(
        !actions.iter().any(|action| matches!(
            action,
            Action::Emit(SessionUpdate::SlackMessageAppended { .. })
        )),
        "a failed worker dispatch must not echo a SlackMessageAppended",
    );
    assert!(!ws.slack_delivery_seen(&text("forge"), &role("tester"), &slack_msg("hello"), NOW));
}

#[test]
fn a_slack_message_for_a_sleeping_lead_wakes_it() {
    let mut ws = workspace();
    let step = deliver_slack_message(&mut ws, &text("forge"), &None, slack_msg("hello"), NOW);
    assert_eq!(
        step,
        SlackStep::Done {
            delivered: true,
            actions: vec![Action::SpawnProject { project_name: text("forge") }],
        },
    );
    assert_eq!(ws.parked.take(&lead("forge")).slack.len(), 1);
    let nowhere = deliver_slack_message(&mut ws, &text("nowhere"), &None, slack_msg("x"), NOW);
    assert_eq!(nowhere, SlackStep::Done { delivered: false, actions: Vec::new() });
}

#[test]
fn slack_prose_carries_the_ids_a_reply_needs() {
    let mut message = slack_msg("please look");
    message.thread_ts = Some(text("100.0"));
    message.files = vec![SlackFile { id: text("F1"), name: text("notes.txt") }];

    let prose = slack_message_to_prose(&message);
    assert!(prose.contains("D1"), "the conversation id is present: {prose}");
    assert!(prose.contains("100.000001"), "the ts is present: {prose}");
    assert!(prose.contains("in thread 100.0"), "the thread is present: {prose}");
    assert!(prose.contains("F1"), "the file id is present: {prose}");
}

#[test]
fn slack_prose_names_the_workspace_and_the_author() {
    let prose = slack_message_to_prose(&slack_msg("hello there"));
    assert_eq!(
        prose, "[Slack - workspace 'acme', U9] id D1 ts 100.000001\nU9: hello there",
        "the exact prose the chat block's detector keys on",
    );
}

#[test]
fn deliver_worker_prompt_unknown_label_is_noop() {
    let mut ws = workspace();
    let actions = handle_deliver_worker_prompt(
        &mut ws,
        &text("k-forge"),
        &text("missing"),
        wrapped(WrappedKind::Message),
    );
    assert!(!actions.iter().any(|action| matches!(action, Action::Prompt { .. })));
    assert!(ws.parked.buckets.is_empty());
}

#[test]
fn deliver_to_unconnected_worker_buffers_the_prompt() {
    let mut ws = workspace();
    put_worker(&mut ws, "builder");
    ws.live_workers.workers[0].entry.status = WorkerLiveness::Spawning;
    ws.sessions.push(SessionPresence { slot: worker("builder"), session_id: None });
    handle_deliver_worker_prompt(
        &mut ws,
        &text("k-forge"),
        &text("builder"),
        wrapped(WrappedKind::Message),
    );
    assert_eq!(
        ws.parked.take(&worker("builder")).peer.len(),
        1,
        "prompt parked for the worker's Connected drain, not dropped",
    );
}

#[test]
fn deliver_prompt_kicks_opportunistic_tag_retry() {
    let mut ws = workspace();
    put_worker(&mut ws, "builder");
    ws.live_workers.workers[0].entry.needs_tag = true;
    ws.live_workers.workers[0].entry.session_id = Some(text("builder-id"));
    mark_connected(&mut ws, &worker("builder"));
    let actions = handle_deliver_worker_prompt(
        &mut ws,
        &text("k-forge"),
        &text("builder"),
        wrapped(WrappedKind::Message),
    );
    assert!(actions.contains(&Action::RetryWorkerTag {
        project_key: text("k-forge"),
        key: worker("builder"),
        session_id: text("builder-id"),
        label: text("builder"),
        cwd: text("/tmp/forge"),
        is_git_repo: false,
    }));
    assert!(actions
        .contains(&Action::Prompt { key: worker("builder"), text: text("[peer] fyi") }));
}

#[test]
fn a_worker_reaches_its_lead() {
    let mut ws = workspace();
    mark_connected(&mut ws, &lead("forge"));
    let actions = handle_deliver_worker_prompt_to_lead(
        &mut ws,
        &lead("forge"),
        wrapped(WrappedKind::Question),
    );
    assert!(actions.contains(&Action::BumpIncoming { key: lead("forge") }));
    assert!(actions.contains(&Action::Prompt { key: lead("forge"), text: text("[peer] fyi") }));
}

#[test]
fn a_prompt_waits_for_a_session_that_is_not_connected() {
    let mut ws = workspace();
    ws.sessions.push(SessionPresence { slot: worker("w"), session_id: None });
    assert!(
        buffer_prompt_until_connected(&mut ws, &worker("w"), wrapped(WrappedKind::Message))
            .is_none()
    );
    assert_eq!(ws.parked.take(&worker("w")).peer.len(), 1);
    ws.sessions[0].session_id = Some(text("id"));
    assert_eq!(
        buffer_prompt_until_connected(&mut ws, &worker("w"), wrapped(WrappedKind::Message)),
        Some(wrapped(WrappedKind::Message)),
    );
}

fn facts(owner: StoredOwner) -> CronFacts {
    CronFacts { owner, accounts_loaded: true, walk_cooling: false }
}

#[test]
fn a_late_cron_is_marked() {
    assert_eq!(missed_cron_text("stand-up", true), "[missed cron] stand-up");
    assert_eq!(missed_cron_text("stand-up", false), "stand-up");
}

#[test]
fn a_cron_for_a_connected_lead_is_handed_over() {
    let mut ws = workspace();
    mark_connected(&mut ws, &lead("forge"));
    assert_eq!(live_cron_slot(&ws, &project("forge"), &None), Some(lead("forge")));
    let step = deliver_cron_prompt(
        &mut ws,
        &text("forge"),
        &None,
        text("stand-up"),
        true,
        &facts(StoredOwner::Absent),
    );
    assert_eq!(
        step.actions,
        vec![
            Action::Emit(SessionUpdate::CronPromptAppended {
                key: lead("forge"),
                text: text("[missed cron] stand-up"),
            }),
            Action::Prompt { key: lead("forge"), text: text("[missed cron] stand-up") },
        ],
    );
    assert_eq!(cron_dispatched(step.next, Ok(())).1, CronFireOutcome::Delivered);
    let (actions, outcome) =
        cron_dispatched(CronNext::AfterPrompt(lead("forge")), Err(text("closed")));
    assert_eq!(outcome, CronFireOutcome::DispatchFailed);
    assert!(actions
        .iter()
        .any(|action| matches!(action, Action::Emit(SessionUpdate::TurnError { .. }))));
}

#[test]
fn a_cron_for_a_sleeping_lead_wakes_it() {
    let mut ws = workspace();
    let step = deliver_cron_prompt(
        &mut ws,
        &text("forge"),
        &None,
        text("stand-up"),
        false,
        &facts(StoredOwner::Absent),
    );
    assert_eq!(step.actions, vec![Action::SpawnProject { project_name: text("forge") }]);
    assert_eq!(step.next, CronNext::AfterSpawn);
    assert_eq!(ws.parked.take(&lead("forge")).cron.len(), 1);
}

#[test]
fn a_cron_whose_owner_cannot_be_had_is_settled_at_once() {
    let fire = |owner: StoredOwner, accounts_loaded: bool, walk_cooling: bool| {
        let mut ws = workspace();
        let step = deliver_cron_prompt(
            &mut ws,
            &text("forge"),
            &role("w"),
            text("p"),
            false,
            &CronFacts { owner, accounts_loaded, walk_cooling },
        );
        match step.next {
            CronNext::Done(outcome) => Some(outcome),
            _ => None,
        }
    };
    let stored = |can_start: bool| StoredOwner::Stored { directory: text("/wt"), can_start };
    assert_eq!(fire(StoredOwner::Absent, true, false), Some(CronFireOutcome::TargetGone));
    assert_eq!(fire(StoredOwner::Unreadable, true, false), Some(CronFireOutcome::DispatchFailed));
    assert_eq!(
        fire(stored(false), true, false),
        Some(CronFireOutcome::TargetCannotBeWoken { directory: text("/wt") }),
    );
    assert_eq!(fire(stored(true), false, false), Some(CronFireOutcome::DispatchFailed));
    assert_eq!(fire(stored(true), true, true), Some(CronFireOutcome::DispatchFailed));
    assert_eq!(fire(stored(true), true, false), None, "this one is woken");

    let mut ws = workspace();
    let step = deliver_cron_prompt(
        &mut ws,
        &text("nowhere"),
        &None,
        text("p"),
        false,
        &facts(StoredOwner::Absent),
    );
    assert_eq!(step.next, CronNext::Done(CronFireOutcome::TargetGone));
}

#[test]
fn the_owner_of_a_cron_exists_while_it_is_up() {
    let mut ws = workspace();
    put_worker(&mut ws, "w");
    assert_eq!(
        cron_slot_exists(&ws, &project("forge"), &role("w"), &StoredOwner::Absent),
        CronOwnerCheck::Exists,
    );
    ws.live_workers.workers[0].entry.status = WorkerLiveness::Failed;
    assert_eq!(
        cron_slot_exists(&ws, &project("forge"), &role("w"), &StoredOwner::Absent),
        CronOwnerCheck::Absent,
    );
    assert_eq!(
        cron_slot_exists(&ws, &project("forge"), &None, &StoredOwner::Absent),
        CronOwnerCheck::Exists,
    );
}

#[test]
fn a_notification_goes_to_the_worker_that_subscribed() {
    let mut ws = workspace();
    put_worker(&mut ws, "w");
    assert_eq!(team_worker_key(&ws, &text("forge"), &text("w")), Some(worker("w")));
    assert_eq!(team_worker_key(&ws, &text("forge"), &text("x")), None);
    deliver_gotify_message(&mut ws, &text("forge"), &role("w"), notification());
    assert_eq!(ws.parked.take(&worker("w")).gotify.len(), 1);
    mark_connected(&mut ws, &worker("w"));
    let actions = deliver_gotify_message(&mut ws, &text("forge"), &role("w"), notification());
    assert_eq!(
        actions,
        vec![
            Action::Emit(SessionUpdate::GotifyNotificationAppended {
                key: worker("w"),
                notification: notification(),
            }),
            Action::Prompt { key: worker("w"), text: text("[Gotify] m") },
        ],
    );
}

#[test]
fn a_slot_is_told_by_what_it_is() {
    assert!(lead("forge").is_lead());
    assert!(!worker("w").is_lead());
    assert_eq!(lead("forge").display(), "TestOrg/forge/lead");
    assert_eq!(worker("w").display(), "TestOrg/forge/w");
    assert!(worker("w").same(&worker("w")));
    assert!(!worker("w").same(&lead("forge")));
    let labelled = SessionSlot::for_label(&text("TestOrg"), &text("forge"), &role("w"));
    assert_eq!(labelled, worker("w"));
}
