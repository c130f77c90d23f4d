//! Slack subscriptions, drafts, deliveries and followed threads.

use forge_workspace::protocol::{
    Action, SessionUpdate, SlackDraft, SlackMessage, SlackSubscription, SlackSubscriptionTarget,
    SlackWatchMode, Timestamp,
};
use forge_workspace::slack::{
    follow_slack_thread, set_slack_thread_watermark, slack_thread_watermark, thread_idle_days,
    SlackConfig, SlackFollowedThread, SlackSubsystemHost, SlackThreadOwner,
    SlackThreadRecord, SlackWorkspaces, ThreadRow, DEFAULT_POLL_SECONDS, DELIVERY_REMEMBER,
    THREAD_IDLE_DROP_DAYS,
};
use forge_workspace::slot::SessionSlot;
use forge_workspace::workspace::{ProjectView, Workspace};

const NOW: u64 = 1_700_000_000;

const DAY: u64 = 24 * 60 * 60;

fn text(value: &str) -> String {
    value.to_owned()
}

fn role(value: Option<&str>) -> Option<String> {
    value.map(str::to_owned)
}

fn cfg(workspace: &str, token: &str) -> SlackConfig {
    SlackConfig { workspace: text(workspace), token: text(token), poll_seconds: 30 }
}

fn project(key: &str, org: &str, name: &str) -> ProjectView {
    ProjectView {
        key: text(key),
        org: text(org),
        name: text(name),
        path: format!("/tmp/{name}"),
        display_path: format!("~/{name}"),
        max_workers: None,
    }
}

fn workspace_with_one_slack_workspace(label: &str) -> Workspace {
    Workspace::new(
        vec![project("k-forge", "TestOrg", "forge"), project("k-other", "TestOrg", "other")],
        project("k-forge", "TestOrg", "forge"),
        vec![cfg(label, "xoxp-test")],
    )
}

fn sub_for(id: u128, project: &str, team_role: Option<&str>) -> SlackSubscription {
    SlackSubscription {
        id,
        workspace: text("acme"),
        project: text(project),
        team_role: role(team_role),
        target: SlackSubscriptionTarget::DirectMessages,
        created_at: Timestamp { secs: 0, nanos: 0 },
    }
}

fn sub_mentions_for(id: u128, project: &str, team_role: Option<&str>) -> SlackSubscription {
    let mut sub = sub_for(id, project, team_role);
    sub.target = SlackSubscriptionTarget::Mentions;
    sub
}

fn sub_for_conversation(
    id: u128,
    project: &str,
    team_role: Option<&str>,
    conversation: &str,
) -> SlackSubscription {
    let mut sub = sub_for(id, project, team_role);
    sub.target = SlackSubscriptionTarget::Conversation {
        id: text(conversation),
        mode: SlackWatchMode::All,
    };
    sub
}

fn draft(id: u128) -> SlackDraft {
    SlackDraft {
        id,
        workspace: text("acme"),
        conversation: text("C1"),
        thread_ts: None,
        text: text("hello"),
    }
}

fn message(ts: &str) -> SlackMessage {
    SlackMessage {
        workspace: text("acme"),
        conversation: text("C1"),
        conversation_label: text("C1"),
        ts: text(ts),
        thread_ts: None,
        user: Some(text("U9")),
        text: text("hello"),
        files: Vec::new(),
    }
}

fn worker_slot() -> SessionSlot {
    SessionSlot::worker(&text("TestOrg"), &text("forge"), &text("worker"))
}

fn lead_slot() -> SessionSlot {
    SessionSlot::lead(&text("TestOrg"), &text("forge"))
}

fn owner(project: &str, team_role: Option<&str>) -> SlackThreadOwner {
    SlackThreadOwner { project: text(project), team_role: role(team_role) }
}

/// The threads of one conversation, as the store keeps them.
struct Threads {
    rows: Vec<ThreadRow>,
}

impl Threads {
    fn take(&mut self, parent: &str) -> Option<SlackThreadRecord> {
        let at = self.rows.iter().position(|row| row.parent_ts == parent)?;
        Some(self.rows.remove(at).record)
    }

    fn follow(&mut self, parent: &str, owner: SlackThreadOwner) {
        let record = self.take(parent);
        let record = follow_slack_thread(record, &text(parent), owner);
        self.rows.push(ThreadRow { parent_ts: text(parent), record });
    }

    fn advance(&mut self, parent: &str, ts: &str) {
        let record = self.take(parent);
        let record = set_slack_thread_watermark(record, &text(ts));
        self.rows.push(ThreadRow { parent_ts: text(parent), record });
    }

    fn watermark(&self, parent: &str) -> Option<String> {
        self.rows.iter().find(|row| row.parent_ts == parent).map(|row| row.record.cursor.clone())
    }

    fn followed(&mut self, ws: &Workspace) -> Vec<SlackFollowedThread> {
        let followed = ws.slack_followed_threads(&text("acme"), &self.rows, NOW);
        self.rows.retain(|row| !followed.dropped.contains(&row.parent_ts));
        for pruned in followed.pruned {
            let row = self.rows.iter_mut().find(|row| row.parent_ts == pruned.parent_ts);
            *row.expect("a pruned row is still there") = pruned;
        }
        followed.threads
    }
}

fn days_ago(days: u64) -> String {
    format!("{}.{:06}", NOW - days * DAY, 0)
}

#[test]
fn a_draft_is_addressed_to_the_session_that_asked() {
    let mut ws = workspace_with_one_slack_workspace("acme");
    let caller = worker_slot();
    let action = ws.register_slack_draft(&caller, draft(1));
    assert_eq!(
        action,
        Action::Emit(SessionUpdate::SlackPostPending { key: worker_slot(), draft: draft(1) }),
        "the draft is addressed to the worker that asked, never the lead",
    );
}

#[test]
fn answering_a_draft_that_is_not_pending_is_refused() {
    let mut ws = workspace_with_one_slack_workspace("acme");
    assert!(!ws.resolve_slack_draft(7, &lead_slot()));
}

#[test]
fn answering_a_draft_removes_it() {
    let mut ws = workspace_with_one_slack_workspace("acme");
    let caller = lead_slot();
    ws.register_slack_draft(&caller, draft(1));

    assert!(ws.resolve_slack_draft(1, &caller), "the draft was waiting");
    assert!(!ws.resolve_slack_draft(1, &caller), "and is gone once answered");
}

#[test]
fn another_session_cannot_answer_a_draft_it_was_not_addressed() {
    let mut ws = workspace_with_one_slack_workspace("acme");
    let asker = worker_slot();
    let other = lead_slot();
    ws.register_slack_draft(&asker, draft(1));

    assert!(
        !ws.resolve_slack_draft(1, &other),
        "an answer from another session must be refused",
    );
    assert!(
        ws.resolve_slack_draft(1, &asker),
        "and the draft is still waiting for the session that asked",
    );
}

#[test]
fn a_draft_that_cannot_be_shown_waits_for_nobody() {
    let mut ws = workspace_with_one_slack_workspace("acme");
    ws.register_slack_draft(&lead_slot(), draft(1));
    ws.register_slack_draft(&lead_slot(), draft(2));
    ws.slack_draft_unsent(1);
    assert!(!ws.resolve_slack_draft(1, &lead_slot()));
    assert!(ws.resolve_slack_draft(2, &lead_slot()));
}

#[test]
fn the_subsystem_does_not_start_without_subscriptions() {
    let mut ws = workspace_with_one_slack_workspace("acme");
    let workspaces = SlackWorkspaces::from_config(&ws.slack.configs).expect("config");
    let actions = ws.start_slack_subsystem(&workspaces);
    assert!(actions.is_empty());
    assert!(
        ws.slack.running.is_empty(),
        "a pump with nothing to watch is a task that only burns a timer",
    );
}

#[test]
fn the_subsystem_starts_once_a_subscription_exists() {
    let mut ws = workspace_with_one_slack_workspace("acme");
    ws.add_slack_subscription(sub_for(1, "acme", None), true);

    let workspaces = SlackWorkspaces::from_config(&ws.slack.configs).expect("config");
    let started = ws.start_slack_subsystem(&workspaces);
    assert_eq!(
        started,
        vec![Action::StartSlackWorkspace { label: text("acme"), poll_seconds: 30 }],
    );
    assert_eq!(ws.slack.running.len(), 1, "one pump for the one configured workspace");
    assert!(ws.start_slack_subsystem(&workspaces).is_empty(), "and it starts once");

    let id = ws.slack_subscriptions_for_project(&text("acme"))[0].id;
    ws.remove_slack_subscription_owned_by(&text("acme"), id, &None);
    let stopped = ws.stop_slack_subsystem_if_idle();
    assert_eq!(stopped, vec![Action::StopSlackWorkspace { label: text("acme") }]);
    assert!(ws.slack.running.is_empty(), "the pump stops with its last subscription");
}

#[test]
fn a_watched_pump_keeps_running_and_an_idle_one_is_told_disconnected() {
    let mut ws = workspace_with_one_slack_workspace("acme");
    ws.add_slack_subscription(sub_for(1, "forge", None), true);
    ws.slack.running.push(text("acme"));
    ws.slack.running.push(text("idle"));
    ws.set_slack_connected(&text("acme"), true);
    ws.set_slack_connected(&text("idle"), true);
    let stopped = ws.stop_slack_subsystem_if_idle();
    assert_eq!(stopped, vec![Action::StopSlackWorkspace { label: text("idle") }]);
    assert_eq!(ws.slack.running, vec![text("acme")]);
    let connected = ws.slack_connected_workspaces();
    assert_eq!(connected.get(&text("acme")), Some(&true));
    assert_ne!(connected.get(&text("idle")), Some(&true));
}

#[test]
fn the_auto_subscription_lands_on_the_mention_subscriptions_owner() {
    let mut ws = workspace_with_one_slack_workspace("acme");
    ws.add_slack_subscription(sub_mentions_for(1, "forge", Some("tester")), true);

    let (added, _) = ws.auto_subscribe_slack_conversation(
        &text("acme"),
        &text("C1"),
        &text("200.1"),
        Timestamp { secs: 5, nanos: 0 },
    );
    assert!(added);

    let subs = ws.slack_subscriptions_for_project(&text("forge"));
    assert!(
        subs.iter().any(|sub| sub.team_role.as_deref() == Some("tester")
            && sub.target
                == SlackSubscriptionTarget::Conversation {
                    id: text("C1"),
                    mode: SlackWatchMode::All,
                }),
        "the conversation lands on the mention subscription's owner: {subs:?}",
    );
}

#[test]
fn an_auto_subscription_is_stored_and_reads_from_the_message() {
    let mut ws = workspace_with_one_slack_workspace("acme");
    ws.add_slack_subscription(sub_mentions_for(1, "forge", None), true);
    let (added, actions) = ws.auto_subscribe_slack_conversation_as(
        &text("acme"),
        &text("C1"),
        &text("200.1"),
        9,
        Timestamp { secs: 5, nanos: 0 },
    );
    assert!(added);
    let mut stored = sub_for_conversation(9, "forge", None, "C1");
    stored.created_at = Timestamp { secs: 5, nanos: 0 };
    assert!(actions.contains(&Action::StoreSlackSubscription { sub: stored }));
    assert!(actions.contains(&Action::SetSlackWatermark {
        workspace: text("acme"),
        conversation: text("C1"),
        ts: text("200.1"),
    }));
    let (again, nothing) = ws.auto_subscribe_slack_conversation_as(
        &text("acme"),
        &text("C1"),
        &text("200.2"),
        10,
        Timestamp { secs: 6, nanos: 0 },
    );
    assert!(!again && nothing.is_empty(), "what is watched is not subscribed to again");
}

#[test]
fn a_followed_thread_starts_at_its_parent_and_gains_its_owner_once() {
    let mut ws = workspace_with_one_slack_workspace("acme");
    ws.add_slack_subscription(sub_for_conversation(1, "forge", Some("tester"), "C1"), true);
    let mut threads = Threads { rows: Vec::new() };
    let parent = days_ago(0);

    threads.follow(&parent, owner("forge", Some("tester")));
    threads.follow(&parent, owner("forge", Some("tester")));

    let listed = threads.followed(&ws);
    assert_eq!(listed.len(), 1);
    assert_eq!(listed[0].parent_ts, parent);
    assert_eq!(listed[0].owners, vec![owner("forge", Some("tester"))]);
    assert_eq!(threads.watermark(&parent), Some(parent.clone()), "a new thread starts at its parent");

    ws.add_slack_subscription(sub_for_conversation(2, "other", None, "C1"), true);
    threads.follow(&parent, owner("other", None));
    let listed = threads.followed(&ws);
    assert_eq!(listed[0].owners.len(), 2, "the second owner is added");
    assert_eq!(
        threads.watermark(&parent),
        Some(parent),
        "joining a thread does not move its cursor",
    );
}

#[test]
fn a_removed_subscription_prunes_its_owner_and_the_last_one_deletes_the_row() {
    let mut ws = workspace_with_one_slack_workspace("acme");
    ws.add_slack_subscription(sub_for_conversation(1, "forge", Some("a"), "C1"), true);
    ws.add_slack_subscription(sub_for_conversation(2, "forge", Some("b"), "C1"), true);
    let mut threads = Threads { rows: Vec::new() };
    let parent = days_ago(0);
    threads.follow(&parent, owner("forge", Some("a")));
    threads.follow(&parent, owner("forge", Some("b")));

    assert!(ws.remove_slack_subscription_owned_by(&text("forge"), 2, &role(Some("b"))));

    let listed = threads.followed(&ws);
    assert_eq!(listed.len(), 1, "the thread keeps being swept");
    assert_eq!(
        listed[0].owners,
        vec![owner("forge", Some("a"))],
        "the removed owner is pruned, the remaining one keeps the thread",
    );

    assert!(ws.remove_slack_subscription_owned_by(&text("forge"), 1, &role(Some("a"))));
    assert!(
        threads.followed(&ws).is_empty(),
        "a thread whose last owner goes stops being tracked",
    );
    assert_eq!(
        slack_thread_watermark(threads.take(&parent)),
        None,
        "the row is deleted, not just filtered from the listing",
    );
}

#[test]
fn a_pruned_owner_is_not_brought_back_by_watching_again() {
    let mut ws = workspace_with_one_slack_workspace("acme");
    ws.add_slack_subscription(sub_for_conversation(1, "forge", Some("a"), "C1"), true);
    ws.add_slack_subscription(sub_for_conversation(2, "forge", Some("b"), "C1"), true);
    let mut threads = Threads { rows: Vec::new() };
    let parent = days_ago(1);
    threads.follow(&parent, owner("forge", Some("a")));
    threads.follow(&parent, owner("forge", Some("b")));
    let unpruned = ws.slack_followed_threads(&text("acme"), &threads.rows, NOW);
    assert!(unpruned.pruned.is_empty(), "with both watching there is nothing to write");

    assert!(ws.remove_slack_subscription_owned_by(&text("forge"), 2, &role(Some("b"))));
    let followed = ws.slack_followed_threads(&text("acme"), &threads.rows, NOW);
    assert_eq!(followed.pruned.len(), 1);
    assert_eq!(followed.pruned[0].parent_ts, parent);
    assert_eq!(followed.pruned[0].record.cursor, parent, "it is read as far as it was");
    assert_eq!(followed.pruned[0].record.owners, vec![owner("forge", Some("a"))]);

    threads.followed(&ws);
    ws.add_slack_subscription(sub_for_conversation(3, "forge", Some("b"), "C1"), true);
    assert_eq!(threads.followed(&ws)[0].owners, vec![owner("forge", Some("a"))]);
}

#[test]
fn a_thread_idle_past_fourteen_days_is_dropped() {
    let mut ws = workspace_with_one_slack_workspace("acme");
    ws.add_slack_subscription(sub_for_conversation(1, "forge", None, "C1"), true);
    let mut threads = Threads { rows: Vec::new() };

    threads.follow(&days_ago(15), owner("forge", None));
    threads.follow(&days_ago(13), owner("forge", None));

    let listed = threads.followed(&ws);
    assert_eq!(listed.len(), 1, "the 15-day idle thread is dropped, the 13-day one kept");
    assert_eq!(listed[0].parent_ts, days_ago(13), "and the survivor is the young one");
}

#[test]
fn idle_days_are_whole_days_since_the_cursor() {
    assert_eq!(thread_idle_days(&days_ago(14), NOW), THREAD_IDLE_DROP_DAYS);
    assert_eq!(thread_idle_days(&format!("{}.000001", NOW - 14 * DAY + 1), NOW), 13);
    assert_eq!(thread_idle_days(&format!("{}.0", NOW + 5), NOW), 0, "a cursor ahead is not idle");
    assert_eq!(thread_idle_days("soon", NOW), NOW / DAY, "one that says nothing is from the epoch");
}

#[test]
fn advancing_a_thread_cursor_keeps_its_owners() {
    let mut ws = workspace_with_one_slack_workspace("acme");
    ws.add_slack_subscription(sub_for_conversation(1, "forge", Some("tester"), "C1"), true);
    let mut threads = Threads { rows: Vec::new() };
    let parent = days_ago(1);
    threads.follow(&parent, owner("forge", Some("tester")));
    let advanced = days_ago(0);
    threads.advance(&parent, &advanced);
    assert_eq!(
        threads.watermark(&parent),
        Some(advanced),
        "the cursor advances to the newest delivered reply",
    );
    assert_eq!(
        threads.followed(&ws)[0].owners,
        vec![owner("forge", Some("tester"))],
        "and the owners ride along untouched",
    );
}

#[test]
fn a_conversation_already_watched_is_not_auto_subscribed_again() {
    let mut ws = workspace_with_one_slack_workspace("acme");
    ws.add_slack_subscription(sub_mentions_for(1, "forge", None), true);
    ws.add_slack_subscription(sub_for_conversation(2, "forge", None, "C1"), true);

    let (added, _) = ws.auto_subscribe_slack_conversation(
        &text("acme"),
        &text("C1"),
        &text("200.1"),
        Timestamp { secs: 0, nanos: 0 },
    );
    assert!(!added, "a conversation that owner already watches adds nothing");
    assert_eq!(
        ws.slack_subscriptions_for_project(&text("forge")).len(),
        2,
        "and no third record",
    );
}

#[test]
fn a_redelivered_message_is_dropped_once() {
    let mut ws = workspace_with_one_slack_workspace("acme");
    let delivered = message("200.1");

    assert!(
        ws.slack_delivery_is_new(&text("forge"), &delivered, 1),
        "the first delivery is new",
    );
    assert!(
        !ws.slack_delivery_is_new(&text("forge"), &delivered, 2),
        "the same ts in the same conversation is a re-run, not a second message",
    );
}

#[test]
fn a_delivery_is_forgotten_after_a_while() {
    let mut ws = workspace_with_one_slack_workspace("acme");
    let delivered = message("200.1");
    ws.slack_delivery_commit(&text("forge"), &None, &delivered, 1);
    assert!(ws.slack_delivery_seen(&text("forge"), &None, &delivered, 2));
    assert!(!ws.slack_delivery_seen(&text("forge"), &role(Some("tester")), &delivered, 2));
    assert!(!ws.slack_delivery_seen(&text("other"), &None, &delivered, 2));
    assert!(!ws.slack_delivery_seen(&text("forge"), &None, &message("200.2"), 2));
    assert!(!ws.slack_delivery_seen(&text("forge"), &None, &delivered, 2 + DELIVERY_REMEMBER));
}

#[test]
fn a_subscription_is_scoped_to_its_project_and_owner() {
    let mut ws = workspace_with_one_slack_workspace("acme");
    ws.add_slack_subscription(sub_for(1, "forge", None), true);
    ws.add_slack_subscription(sub_for(2, "forge", Some("tester")), true);
    ws.add_slack_subscription(sub_for(3, "other", None), true);

    let visible = ws.slack_subscriptions_for_project(&text("forge"));
    assert_eq!(visible.len(), 2, "another project's subscription must not leak in");
    assert!(visible.iter().any(|s| s.team_role.is_none()));
    assert!(visible.iter().any(|s| s.team_role.as_deref() == Some("tester")));
}

#[test]
fn a_durable_subscription_is_stored_and_another_is_not() {
    let mut ws = workspace_with_one_slack_workspace("acme");
    let stored = ws.add_slack_subscription(sub_for(1, "forge", None), true);
    assert_eq!(stored, vec![Action::StoreSlackSubscription { sub: sub_for(1, "forge", None) }]);
    assert!(ws.add_slack_subscription(sub_for(2, "forge", None), false).is_empty());
}

#[test]
fn a_worker_cannot_remove_another_owners_subscription() {
    let mut ws = workspace_with_one_slack_workspace("acme");
    ws.add_slack_subscription(sub_for(1, "forge", None), true);

    assert!(
        !ws.remove_slack_subscription_owned_by(&text("forge"), 1, &role(Some("tester"))),
        "a worker must not remove the lead's subscription",
    );
    assert_eq!(
        ws.slack_subscriptions_for_project(&text("forge")).len(),
        1,
        "a refused removal removes nothing",
    );
    assert!(ws.remove_slack_subscription_owned_by(&text("forge"), 1, &None));
    assert!(ws.slack_subscriptions_for_project(&text("forge")).is_empty());
}

#[test]
fn the_subscriptions_of_a_worker_go_with_it() {
    let mut ws = workspace_with_one_slack_workspace("acme");
    ws.add_slack_subscription(sub_for(1, "forge", None), true);
    ws.add_slack_subscription(sub_for(2, "forge", Some("tester")), true);
    ws.add_slack_subscription(sub_for(3, "other", Some("tester")), true);
    let actions = ws.remove_slack_subscriptions_for_worker(&text("k-forge"), &text("tester"));
    assert_eq!(actions, vec![Action::DeleteSlackSubscription { id: 2 }]);
    assert_eq!(ws.slack.subs.len(), 2);
    assert!(ws
        .remove_slack_subscriptions_for_worker(&text("k-gone"), &text("tester"))
        .is_empty());
    assert_eq!(ws.slack.subs.len(), 2, "a project that is not there owns nothing");
}

#[test]
fn duplicate_workspace_labels_are_refused() {
    let configs = vec![cfg("acme", "xoxp-test"), cfg("acme", "xoxp-other")];
    let err = SlackWorkspaces::from_config(&configs)
        .expect_err("two workspaces sharing a label cannot be addressed apart");
    assert!(err.contains("acme"), "the error has to name the shared label, got: {err}");
}

#[test]
fn an_empty_token_is_refused() {
    let configs = vec![cfg("acme", "")];
    let err =
        SlackWorkspaces::from_config(&configs).expect_err("a blank token would fail on every call");
    assert!(
        err.contains("acme") && err.contains("empty token"),
        "the error has to name the workspace and the missing credential, got: {err}",
    );
}

#[test]
fn an_empty_workspace_label_is_refused() {
    let configs = vec![cfg("", "xoxp-test")];
    let err = SlackWorkspaces::from_config(&configs)
        .expect_err("a workspace with no label cannot be addressed at all");
    assert!(err.contains("empty workspace label"), "the error has to name the label, got: {err}");
}

#[test]
fn the_workspaces_are_listed_in_order() {
    let configs = vec![cfg("zeta", "z"), cfg(" acme ", "a")];
    let workspaces = SlackWorkspaces::from_config(&configs).expect("config");
    assert!(!workspaces.is_empty());
    assert_eq!(workspaces.labels(), vec![text("acme"), text("zeta")]);
    assert_eq!(workspaces.client(&text("acme")), Some(&text("a")));
    assert_eq!(workspaces.client(&text("nope")), None);
    assert_eq!(DEFAULT_POLL_SECONDS, 30);
}

#[test]
fn the_tokens_are_proved_once() {
    let mut ws = workspace_with_one_slack_workspace("acme");
    let none = SlackWorkspaces::from_config(&Vec::new()).expect("no config");
    assert!(!ws.start_slack_verification(&none), "there is nothing to prove");
    let some = SlackWorkspaces::from_config(&ws.slack.configs).expect("config");
    assert!(ws.start_slack_verification(&some));
    assert!(!ws.start_slack_verification(&some));
}

#[test]
fn a_host_speaks_for_its_workspace_while_it_is_there() {
    let mut ws = workspace_with_one_slack_workspace("acme");
    ws.add_slack_subscription(sub_for(1, "forge", None), true);
    ws.slack.user_ids.insert(text("acme"), text("U1"));
    let host = SlackSubsystemHost::new(Some(&ws));
    assert_eq!(host.client(&text("acme")), Ok(&text("xoxp-test")));
    assert!(host.client(&text("nope")).is_err());
    assert_eq!(host.user_id(&text("acme")), Some(text("U1")));
    assert_eq!(host.subscriptions(&text("acme")).len(), 1);
    assert!(host.subscriptions(&text("nope")).is_empty());

    let gone = SlackSubsystemHost::new(None);
    assert_eq!(gone.client(&text("acme")), Err(text("the workspace is gone")));
    assert_eq!(gone.user_id(&text("acme")), None);
    assert!(gone.subscriptions(&text("acme")).is_empty());
}
