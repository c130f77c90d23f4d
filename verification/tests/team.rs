//! Spawning, closing and despawning workers, and waking leads.

use forge_workspace::launch::SessionLaunchSettings;
use forge_workspace::protocol::{
    Action, AppError, ServiceSeverity, SessionTarget, SessionUpdate, SlackMessage,
    SlackSubscription, SlackSubscriptionTarget, SpawnRole, Timestamp, WorkerLiveness,
    WorkerStatusAction, WorktreeDisposition,
};
use forge_workspace::slot::SessionSlot;
use forge_workspace::spawn::{
    expire_parked_for_slot, handle_spawn_project, handle_spawn_session, handle_start_default,
    open_url_failed, send_dispatch_turn_error, spawn_project_failed, spawn_project_resolved,
    spawn_session_failed, start_default_failed, start_default_resolved, SpawnProjectStep, SpawnStep,
};
use forge_workspace::team::{
    despawn_checked, despawn_finished, despawn_removal, despawn_stranded, handle_close_worker,
    handle_despawn_worker, handle_spawn_worker, reap_worker_branch, spawn_worker_gitness,
    spawn_worker_recorded, spawn_worker_spawned, worker_branch, worker_limit_reached_message,
    worker_worktree_dir, BranchReapOutcome, DespawnPlan, DespawnResult, DespawnStep,
    DespawnTeardown, Gitness, PendingSpawn, SpawnWorkerStep, WorkerSpawnArgs, WorkerSpawnReply,
    WorktreeRemoval,
};
use forge_workspace::workers::{
    LiveWorker, LiveWorkerRefusal, LiveWorkers, WorkerEntry, DEFAULT_MAX_WORKERS_PER_PROJECT,
};
use forge_workspace::workspace::{ProjectView, Workspace};

fn text(value: &str) -> String {
    value.to_owned()
}

fn project(name: &str, max_workers: Option<usize>) -> ProjectView {
    ProjectView {
        key: format!("-projects-{name}"),
        org: text("Default"),
        name: text(name),
        path: format!("/projects/{name}"),
        display_path: format!("~/{name}"),
        max_workers,
    }
}

fn workspace_with_cap(limit: Option<usize>) -> Workspace {
    Workspace::new(
        vec![project("forge", limit), project("notes", None)],
        project("forge", limit),
        Vec::new(),
    )
}

fn forge() -> String {
    text("-projects-forge")
}

fn notes() -> String {
    text("-projects-notes")
}

fn lead() -> SessionSlot {
    SessionSlot::lead(&text("Default"), &text("forge"))
}

fn worker_slot(label: &str) -> SessionSlot {
    SessionSlot::worker(&text("Default"), &text("forge"), &text(label))
}

fn entry(label: &str) -> WorkerEntry {
    WorkerEntry {
        label: text(label),
        charter: text("c"),
        slot: worker_slot(label),
        session_id: None,
        status: WorkerLiveness::Running,
        spawned_at: 0,
        spawned_by: lead(),
        needs_tag: false,
        is_git_repo_at_spawn: false,
        diagnostic: None,
        kick: None,
    }
}

fn git_entry(label: &str) -> WorkerEntry {
    let mut entry = entry(label);
    entry.is_git_repo_at_spawn = true;
    entry
}

fn put_live(ws: &mut Workspace, project_key: &String, entry: WorkerEntry) {
    ws.live_workers.workers.push(LiveWorker { project_key: project_key.clone(), entry });
}

fn live(ws: &Workspace, project_key: &String) -> Vec<String> {
    ws.live_workers
        .workers
        .iter()
        .filter(|worker| worker.project_key == *project_key)
        .map(|worker| worker.entry.label.clone())
        .collect()
}

fn args(label: &str) -> WorkerSpawnArgs {
    WorkerSpawnArgs {
        label: text(label),
        charter: text("charter"),
        kick: None,
        resume_kick: None,
        interactive: false,
    }
}

fn begin(
    ws: &mut Workspace,
    project_key: &String,
    args: WorkerSpawnArgs,
    resume: Option<&str>,
    boot: bool,
) -> Result<PendingSpawn, String> {
    match handle_spawn_worker(
        ws,
        project_key,
        args,
        lead(),
        resume.map(str::to_owned),
        boot,
        false,
        1_700_000_000,
    ) {
        SpawnWorkerStep::Refused(why) => Err(why),
        SpawnWorkerStep::Record(pending) => Ok(pending),
    }
}

/// Spawn a worker whose row is stored and whose agent starts.
fn spawn(
    ws: &mut Workspace,
    project_key: &String,
    label: &str,
    boot: bool,
) -> Result<WorkerSpawnReply, String> {
    let pending = begin(ws, project_key, args(label), None, boot)?;
    let launch = spawn_worker_recorded(&pending, Ok(()));
    let (_, reply) = spawn_worker_spawned(ws, &pending, launch.durability_warning, Ok(None));
    reply
}

fn removed_dispositions(actions: &[Action]) -> Vec<WorktreeDisposition> {
    actions
        .iter()
        .filter_map(|action| match action {
            Action::Emit(SessionUpdate::WorkerStatusChanged {
                action: WorkerStatusAction::Removed,
                worktree,
                ..
            }) => Some(*worktree),
            _ => None,
        })
        .collect()
}

fn plan_of(step: DespawnStep) -> DespawnPlan {
    match step {
        DespawnStep::Check(plan) => plan,
        DespawnStep::Done(result) => panic!("expected a plan, got {result:?}"),
    }
}

fn worktrees() -> String {
    text(".worktrees")
}

/// Despawn a live worker, whose worktree is `dirty` and is removed as
/// `removal` says.
fn despawn(
    ws: &mut Workspace,
    label: &str,
    force: bool,
    dirty: Option<&str>,
    removal: WorktreeRemoval,
    still_there: bool,
) -> (Vec<Action>, DespawnResult) {
    let plan =
        plan_of(handle_despawn_worker(ws, &forge(), &text(label), &worktrees(), &Ok(None)));
    match despawn_checked(ws, &plan, force, dirty.map(str::to_owned)) {
        DespawnTeardown::Done(result) => (Vec::new(), result),
        DespawnTeardown::DeleteRow => panic!("the worker is live"),
        DespawnTeardown::TornDown(mut actions) => {
            let (more, result) = despawn_finished(&plan, &removal, still_there);
            actions.extend(more);
            (actions, result)
        }
    }
}

fn clean() -> DespawnResult {
    DespawnResult::Despawned { worktree_cleanup_warning: None, branch_cleanup_warning: None }
}

fn slack_message(said: &str) -> SlackMessage {
    SlackMessage {
        workspace: text("acme"),
        conversation: text("D1"),
        conversation_label: text("U9"),
        ts: text("100.000001"),
        thread_ts: None,
        user: Some(text("U9")),
        text: text(said),
        files: Vec::new(),
    }
}

fn parked_slack(ws: &mut Workspace, slot: &SessionSlot) -> usize {
    let parked = ws.parked.take(slot);
    let n = parked.slack.len();
    for message in parked.slack {
        ws.parked.park_slack(slot, message);
    }
    n
}

#[test]
fn spawn_project_unknown_project_emits_no_update() {
    let ws = workspace_with_cap(None);
    let step = handle_spawn_project(
        &ws,
        &text("no-such-project"),
        SessionLaunchSettings::default(),
        &text("charter"),
    );
    match step {
        SpawnProjectStep::Unknown(Action::Emit(SessionUpdate::ServiceStatus {
            severity,
            message,
        })) => {
            assert_eq!(severity, ServiceSeverity::Warning);
            assert!(message.contains("no-such-project"));
        }
        other => panic!("unknown project surfaces a ServiceStatus notice: {other:?}"),
    }
}

#[test]
fn spawn_project_known_project_announces_the_id_it_will_run_under() {
    let mut ws = workspace_with_cap(None);
    let step = handle_spawn_project(
        &ws,
        &text("forge"),
        SessionLaunchSettings::default(),
        &text("the lead's charter"),
    );
    let SpawnProjectStep::Resolve { project, settings } = step else {
        panic!("the project is known");
    };
    assert_eq!(settings.charter.as_deref(), Some("the lead's charter"));
    let SpawnStep { actions, request } =
        spawn_project_resolved(&mut ws, &text("forge"), &project, settings, Ok(lead()));
    match &actions[..] {
        [Action::Emit(SessionUpdate::Spawning { key, project_name, .. })] => {
            assert_eq!(*key, lead(), "the announced key is the project's lead slot");
            assert_eq!(project_name, "forge");
        }
        other => panic!("expected a Spawning update; got {other:?}"),
    }
    let request = request.expect("the lead is started");
    assert_eq!(request.role, SpawnRole::Lead);
    assert_eq!(request.key, Some(lead()));
}

#[test]
fn start_default_failure_is_fatal() {
    let mut ws = workspace_with_cap(None);
    let start = handle_start_default(
        &ws,
        Some(text("nonexistent")),
        SessionLaunchSettings::default(),
        &text("charter"),
    );
    assert_eq!(start.target, SessionTarget::Named(text("nonexistent")));
    assert!(start.lead_project.is_none());
    let step = start_default_resolved(start, Err(text("project not found")));
    let mut updates = step.actions;
    if step.request.is_some() {
        updates.extend(start_default_failed(&mut ws, &None, lead(), &text("project not found")));
    }
    let updates: Vec<&SessionUpdate> = updates
        .iter()
        .filter_map(|action| match action {
            Action::Emit(update) => Some(update),
            _ => None,
        })
        .collect();
    assert!(
        matches!(updates[0], SessionUpdate::ConnectionFailed { fatal: true, .. }),
        "startup spawn failure must be fatal: {updates:?}",
    );
    assert_eq!(*updates[1], SessionUpdate::FatalError(AppError::ConnectionFailed));
}

#[test]
fn spawn_session_unknown_session_emits_no_fatal() {
    let mut ws = workspace_with_cap(None);
    let nowhere = SessionSlot::lead(&text("Default"), &text("no-such-project"));
    let step =
        handle_spawn_session(&ws, &nowhere, SpawnRole::Lead, SessionLaunchSettings::default());
    assert!(step.request.is_none());
    let mut updates = step.actions;
    updates.extend(spawn_session_failed(&mut ws, &nowhere, &text("gone")));
    for update in &updates {
        assert!(!matches!(update, Action::Emit(SessionUpdate::FatalError(_))));
        assert!(!matches!(
            update,
            Action::Emit(SessionUpdate::ConnectionFailed { fatal: true, .. })
        ));
    }
}

#[test]
fn a_failed_project_spawn_expires_the_parked_payloads() {
    let mut ws = workspace_with_cap(None);
    ws.parked.park_slack(&lead(), slack_message("parked while asleep"));
    let forge_project = project("forge", None);
    let actions = spawn_project_failed(&mut ws, &forge_project, lead(), &text("no binary"));
    assert!(actions.iter().any(|action| matches!(
        action,
        Action::ExpireParked { slot, parked } if *slot == lead() && parked.slack.len() == 1
    )));
    assert_eq!(
        parked_slack(&mut ws, &lead()),
        0,
        "the failed spawn records the messages parked for that project's lead",
    );
}

#[test]
fn a_refused_spawn_leaves_the_parked_payload_to_the_caller() {
    let mut ws = workspace_with_cap(None);
    let owner = SessionSlot::lead(&text("Default"), &text("missing"));
    ws.parked.park_slack(&owner, slack_message("parked while asleep"));
    assert!(begin(&mut ws, &text("not-in-config"), args("w"), None, false).is_err());
    assert_eq!(parked_slack(&mut ws, &owner), 1, "the refusal left the bucket alone");
    let expired = expire_parked_for_slot(&mut ws, &owner);
    assert!(matches!(expired, Action::ExpireParked { parked, .. } if parked.slack.len() == 1));
    assert_eq!(parked_slack(&mut ws, &owner), 0);
}

#[test]
fn a_prompt_that_fails_is_a_turn_that_fails() {
    let Action::Emit(SessionUpdate::TurnError { key, message, .. }) =
        send_dispatch_turn_error(lead(), &text("the channel is closed"))
    else {
        panic!("expected a turn error");
    };
    assert_eq!(key, lead());
    assert!(message.contains("the channel is closed"));
}

#[test]
fn an_url_that_does_not_open_is_named() {
    let Action::Emit(SessionUpdate::ServiceStatus { message, .. }) =
        open_url_failed(&text("https://example.org"), &text("no browser"))
    else {
        panic!("expected a notice");
    };
    assert!(message.contains("no browser"), "{message}");
}

#[test]
fn a_fresh_worker_is_keyed_by_the_id_it_runs_under() {
    let mut ws = workspace_with_cap(None);
    let pending = begin(&mut ws, &forge(), args("tester"), None, false).expect("admitted");
    assert!(
        uuid::Uuid::parse_str(&pending.session_id).is_ok(),
        "an id, not a placeholder: {}",
        pending.session_id,
    );
    assert_eq!(pending.entry.slot, worker_slot("tester"));
    assert_eq!(ws.live_workers.workers[0].entry.slot, worker_slot("tester"));
    let row = pending.row();
    assert_eq!(row.session_id, pending.session_id, "and the row names it too");
    let launch = spawn_worker_recorded(&pending, Ok(()));
    assert_eq!(launch.durability_warning, None);
    let (_, reply) = spawn_worker_spawned(&mut ws, &pending, None, Ok(None));
    let reply = reply.expect("spawned");
    assert_eq!(reply.session_id, pending.session_id);
    assert!(reply.tag.contains("tester"));
}

#[test]
fn a_failed_worker_spawn_rolls_the_live_entry_back() {
    let mut ws = workspace_with_cap(None);
    let pending = begin(&mut ws, &forge(), args("tester"), None, false).expect("admitted");
    let (actions, reply) = spawn_worker_spawned(&mut ws, &pending, None, Err(text("no binary")));
    assert!(reply.is_err(), "the spawn reports the failure to its caller");
    assert!(live(&ws, &forge()).is_empty(), "and the placeholder entry is rolled back");
    assert!(
        actions.contains(&Action::DeleteWorkerRow { project_key: forge(), label: text("tester") }),
        "the durable row goes with the rollback",
    );
}

#[test]
fn a_failed_resume_spawn_keeps_the_row_holding_the_id() {
    let mut ws = workspace_with_cap(None);
    let pending =
        begin(&mut ws, &forge(), args("tester"), Some("tester-id"), false).expect("admitted");
    assert_eq!(pending.session_id, "tester-id");
    let (actions, _) = spawn_worker_spawned(&mut ws, &pending, None, Err(text("no binary")));
    assert!(
        !actions.iter().any(|action| matches!(action, Action::DeleteWorkerRow { .. })),
        "the rollback leaves the row that names the id being resumed",
    );
}

#[test]
fn a_failed_boot_respawn_keeps_its_row() {
    let mut ws = workspace_with_cap(None);
    let pending = begin(&mut ws, &forge(), args("tester"), None, true).expect("admitted");
    let (actions, _) = spawn_worker_spawned(&mut ws, &pending, None, Err(text("no binary")));
    assert!(
        !actions.iter().any(|action| matches!(action, Action::DeleteWorkerRow { .. })),
        "the boot re-spawn keeps the row a later restart re-spawns from",
    );
}

#[test]
fn a_resume_spawn_leaves_the_stored_kick_alone() {
    let mut ws = workspace_with_cap(None);
    let mut resumed = args("tester");
    resumed.kick = Some(text("This session was restarted by forge; continue."));
    let pending = begin(&mut ws, &forge(), resumed, Some("tester-id"), true).expect("admitted");
    assert_eq!(
        pending.entry.kick.as_deref(),
        Some("This session was restarted by forge; continue."),
        "the resuming connection is kicked with the resume text",
    );
    assert_eq!(pending.row().kick, None, "the row keeps the worker's original first turn");
}

#[test]
fn a_first_spawn_writes_the_kick_it_was_given() {
    let mut ws = workspace_with_cap(None);
    let mut opened = args("tester");
    opened.kick = Some(text("opening turn"));
    let pending = begin(&mut ws, &forge(), opened, None, false).expect("admitted");
    assert_eq!(pending.row().kick.as_deref(), Some("opening turn"));
}

#[test]
fn a_spawn_keeps_the_rows_recorded_gitness_over_a_probe() {
    let ws = workspace_with_cap(None);
    assert_eq!(spawn_worker_gitness(&ws, &forge(), &Ok(Some(true))), Ok(Gitness::Recorded(true)));
}

#[test]
fn a_first_spawn_probes_for_gitness_when_there_is_no_row() {
    let ws = workspace_with_cap(None);
    let probe = Ok(Gitness::Probe(text("/projects/forge")));
    assert_eq!(spawn_worker_gitness(&ws, &forge(), &Ok(None)), probe);
    assert_eq!(spawn_worker_gitness(&ws, &forge(), &Err(text("unreadable"))), probe);
    assert!(spawn_worker_gitness(&ws, &text("nowhere"), &Ok(None)).is_err());
}

#[test]
fn a_row_that_cannot_be_stored_is_a_warning() {
    let mut ws = workspace_with_cap(None);
    let pending = begin(&mut ws, &forge(), args("tester"), None, false).expect("admitted");
    let launch = spawn_worker_recorded(&pending, Err(text("disk full")));
    assert!(launch.durability_warning.as_deref().is_some_and(|why| why.contains("disk full")));
    let (_, reply) =
        spawn_worker_spawned(&mut ws, &pending, launch.durability_warning, Ok(None));
    assert!(reply.expect("spawned").durability_warning.is_some());
}

#[test]
fn handle_spawn_worker_dedups_already_live_label() {
    let mut ws = workspace_with_cap(None);
    put_live(&mut ws, &forge(), entry("examiner"));
    let err = spawn(&mut ws, &forge(), "examiner", false).expect_err("a duplicate spawn fails");
    assert_eq!(
        live(&ws, &forge()).len(),
        1,
        "the duplicate spawn must not add a second live worker",
    );
    assert!(err.contains("already live"), "error names the collision: {err}");
}

#[test]
fn a_refused_duplicate_leaves_the_running_workers_row_alone() {
    let mut ws = workspace_with_cap(None);
    spawn(&mut ws, &forge(), "steward", false).expect("the first spawn is admitted");
    let refusal = begin(&mut ws, &forge(), args("steward"), None, false)
        .expect_err("the second spawn for a live label is refused");
    assert!(
        refusal.contains("already live"),
        "it never comes to a row to record: {refusal}",
    );
}

#[test]
fn spawn_worker_over_limit_refuses_and_creates_nothing() {
    let mut ws = workspace_with_cap(Some(2));
    put_live(&mut ws, &forge(), entry("w1"));
    put_live(&mut ws, &forge(), entry("w2"));

    let err = spawn(&mut ws, &forge(), "w3", false).expect_err("at-limit spawn must refuse");
    assert!(err.contains("worker limit reached"), "names the refusal: {err}");
    assert!(err.contains("cap is 2"), "names the cap: {err}");
    assert_eq!(live(&ws, &forge()).len(), 2, "the refused spawn creates no worker");

    let err = spawn(&mut ws, &forge(), "w1", false).expect_err("a live label must refuse");
    assert!(
        err.contains("already live") && !err.contains("worker limit reached"),
        "the collision wins over the cap: {err}"
    );
}

#[test]
fn the_cap_is_per_project() {
    let mut ws = workspace_with_cap(Some(1));
    put_live(&mut ws, &forge(), entry("w1"));

    assert!(
        spawn(&mut ws, &notes(), "w2", false).is_ok(),
        "a worker in another project must not consume notes' budget",
    );

    put_live(&mut ws, &notes(), entry("w3"));
    let err = spawn(&mut ws, &notes(), "w4", false).expect_err("notes at its cap must refuse");
    assert!(err.contains("worker limit reached"), "names the refusal: {err}");
    assert!(err.contains("cap is 2"), "names notes' own cap: {err}");
    assert!(
        err.contains("project '-projects-notes' has 2 workers live"),
        "notes' refusal counts only notes' workers: {err}"
    );

    let err = spawn(&mut ws, &forge(), "w5", false).expect_err("forge at its cap must refuse");
    assert!(err.contains("cap is 1"), "names forge's override: {err}");
    assert!(
        err.contains("project '-projects-forge' has 1 worker live"),
        "forge's refusal counts only forge's workers, singular: {err}"
    );
}

#[test]
fn a_cap_above_the_default_admits_past_two() {
    let mut ws = workspace_with_cap(Some(3));
    put_live(&mut ws, &forge(), entry("w1"));
    put_live(&mut ws, &forge(), entry("w2"));
    assert!(
        spawn(&mut ws, &forge(), "w3", false).is_ok(),
        "the override must raise the cap past the default",
    );
    assert_eq!(live(&ws, &forge()).len(), 3, "the admitted spawn creates its worker");
    assert_eq!(DEFAULT_MAX_WORKERS_PER_PROJECT, 2);
}

#[test]
fn a_worker_spawned_onto_a_degraded_account_reports_it() {
    let mut ws = workspace_with_cap(Some(2));
    let pending = begin(&mut ws, &forge(), args("w1"), None, false).expect("admitted");
    let (_, reply) =
        spawn_worker_spawned(&mut ws, &pending, None, Ok(Some(text("Stargate"))));
    assert_eq!(
        reply.expect("spawned").rate_limited_account.as_deref(),
        Some("Stargate"),
        "the bailed account is named in the reply",
    );
}

#[test]
fn concurrent_cap_gate_admits_exactly_one() {
    let mut workers = LiveWorkers::new();
    let mut admitted = 0;
    let mut refused = 0;
    for n in 0..32 {
        match workers.insert_live_worker_if_label_absent(
            &forge(),
            entry(&format!("w{n}")),
            Some(1),
        ) {
            Ok(()) => admitted += 1,
            Err(LiveWorkerRefusal::AtCap { live, cap }) => {
                refused += 1;
                assert_eq!((live, cap), (1, 1), "the refusal names the count and the cap");
            }
            Err(other) => panic!("no label collisions at distinct labels: {other:?}"),
        }
    }
    assert_eq!(admitted, 1, "exactly one insert wins the cap");
    assert_eq!(refused, 31, "every other insert is refused by the cap");
    assert_eq!(workers.workers.len(), 1, "the pool holds exactly the one admitted entry");
}

#[test]
fn concurrent_spawns_keep_the_live_count_under_the_cap() {
    let mut ws = workspace_with_cap(Some(1));
    let mut winners = 0;
    for n in 0..8 {
        match spawn(&mut ws, &forge(), &format!("w{n}"), false) {
            Ok(_) => winners += 1,
            Err(message) => assert!(message.contains("worker limit reached"), "{message}"),
        }
    }
    assert!(winners >= 1, "the first arrival always gets the free slot");
    assert!(ws.live_workers.count_up(&forge()) <= 1, "no overshoot past the cap");
}

#[test]
fn boot_respawn_spawn_is_exempt_from_the_limit() {
    let mut ws = workspace_with_cap(Some(2));
    put_live(&mut ws, &forge(), entry("w1"));
    put_live(&mut ws, &forge(), entry("w2"));
    assert!(
        spawn(&mut ws, &forge(), "w3", true).is_ok(),
        "boot respawn must not be refused by the cap",
    );
    assert_eq!(live(&ws, &forge()).len(), 3, "the exempt spawn creates its worker");
}

#[test]
fn despawn_frees_a_spawn_slot() {
    let mut ws = workspace_with_cap(Some(1));
    put_live(&mut ws, &forge(), entry("w1"));
    let err = spawn(&mut ws, &forge(), "w2", false).expect_err("at-limit spawn must refuse");
    assert!(err.contains("worker limit reached"), "names the refusal: {err}");

    let (_, outcome) = despawn(&mut ws, "w1", false, None, WorktreeRemoval::Nothing, false);
    assert_eq!(outcome, clean(), "the worker despawns");

    assert!(
        spawn(&mut ws, &forge(), "w2", false).is_ok(),
        "the freed slot lets the next spawn through",
    );
}

#[test]
fn a_failed_worker_does_not_consume_a_cap_slot() {
    let mut ws = workspace_with_cap(Some(1));
    let mut failed = entry("dead");
    failed.status = WorkerLiveness::Failed;
    put_live(&mut ws, &forge(), failed);
    assert!(
        spawn(&mut ws, &forge(), "fresh", false).is_ok(),
        "the Failed worker must not consume the slot",
    );
}

#[test]
fn a_limit_is_told_in_words() {
    assert_eq!(
        worker_limit_reached_message("p", 1, 1).contains("has 1 worker live"),
        true,
    );
    let two = worker_limit_reached_message("p", 2, 3);
    assert!(two.contains("has 2 workers live") && two.contains("cap is 3"), "{two}");
}

#[test]
fn close_worker_removes_entry_and_emits_removed() {
    let mut ws = workspace_with_cap(None);
    put_live(&mut ws, &forge(), entry("r1"));
    let actions = handle_close_worker(&mut ws, &forge(), &text("r1"));
    assert!(live(&ws, &forge()).is_empty());
    assert_eq!(removed_dispositions(&actions).len(), 1, "Removed event was emitted");
}

#[test]
fn close_one_worker_leaves_other_workers_intact() {
    let mut ws = workspace_with_cap(None);
    for label in ["worker-a", "worker-b", "worker-c"] {
        put_live(&mut ws, &forge(), entry(label));
    }
    let actions = handle_close_worker(&mut ws, &forge(), &text("worker-b"));
    assert_eq!(live(&ws, &forge()), vec![text("worker-a"), text("worker-c")]);
    assert_eq!(
        actions
            .iter()
            .filter(|action| matches!(action, Action::ReleaseSession { .. }))
            .collect::<Vec<_>>(),
        vec![&Action::ReleaseSession { slot: worker_slot("worker-b") }],
        "only the closed worker's session is released",
    );
}

#[test]
fn close_worker_unknown_label_is_noop() {
    let mut ws = workspace_with_cap(None);
    assert!(
        handle_close_worker(&mut ws, &forge(), &text("missing")).is_empty(),
        "no events emitted for unknown label",
    );
}

#[test]
fn close_worker_takes_the_one_spawned_last() {
    let mut ws = workspace_with_cap(None);
    let mut first = entry("twice");
    first.status = WorkerLiveness::Failed;
    put_live(&mut ws, &forge(), first);
    put_live(&mut ws, &forge(), git_entry("twice"));
    let actions = handle_close_worker(&mut ws, &forge(), &text("twice"));
    assert_eq!(removed_dispositions(&actions), vec![WorktreeDisposition::Intact]);
    assert_eq!(ws.live_workers.workers[0].entry.status, WorkerLiveness::Failed);
}

#[test]
fn close_worker_expires_inflight_asks_addressed_to_it() {
    let mut ws = workspace_with_cap(None);
    put_live(&mut ws, &forge(), entry("examiner"));
    let actions = handle_close_worker(&mut ws, &forge(), &text("examiner"));
    assert!(
        actions.contains(&Action::ExpireInflightForClosedWorker {
            project_key: forge(),
            label: text("examiner"),
        }),
        "asks must be expired when the worker they target closes",
    );
}

#[test]
fn close_worker_records_the_delivery_parked_for_its_label() {
    let mut ws = workspace_with_cap(None);
    put_live(&mut ws, &forge(), entry("examiner"));
    ws.parked.park_slack(&worker_slot("examiner"), slack_message("buffered while spawning"));
    let actions = handle_close_worker(&mut ws, &forge(), &text("examiner"));
    assert!(actions.iter().any(|action| matches!(
        action,
        Action::ExpireParked { parked, .. } if parked.slack.len() == 1
    )));
    assert_eq!(
        parked_slack(&mut ws, &worker_slot("examiner")),
        0,
        "the closed worker's parked delivery is recorded, not left for a later session",
    );
}

#[test]
fn close_worker_reports_the_worktree_intact() {
    let mut ws = workspace_with_cap(None);
    put_live(&mut ws, &forge(), git_entry("examiner"));
    let actions = handle_close_worker(&mut ws, &forge(), &text("examiner"));
    assert_eq!(removed_dispositions(&actions), vec![WorktreeDisposition::Intact]);
}

#[test]
fn despawn_non_git_worker_tears_down_without_worktree_step() {
    let mut ws = workspace_with_cap(None);
    put_live(&mut ws, &forge(), entry("r1"));
    let plan =
        plan_of(handle_despawn_worker(&ws, &forge(), &text("r1"), &worktrees(), &Ok(None)));
    assert_eq!(plan.worktree, None);
    let (actions, result) = despawn(&mut ws, "r1", false, None, WorktreeRemoval::Nothing, false);
    assert_eq!(result, clean(), "non-git worker despawns cleanly");
    assert!(live(&ws, &forge()).is_empty(), "worker removed");
    assert_eq!(
        removed_dispositions(&actions),
        vec![WorktreeDisposition::Absent],
        "a worker that never had a worktree must not claim one",
    );
}

#[test]
fn despawn_clears_a_stranded_row_with_no_live_worker() {
    let mut ws = workspace_with_cap(None);
    let plan = plan_of(handle_despawn_worker(
        &ws,
        &forge(),
        &text("stranded"),
        &worktrees(),
        &Ok(Some(false)),
    ));
    assert_eq!(despawn_checked(&mut ws, &plan, false, None), DespawnTeardown::DeleteRow);
    let DespawnTeardown::TornDown(actions) = despawn_stranded(&mut ws, &plan, Ok(true)) else {
        panic!("the row was there");
    };
    assert!(removed_dispositions(&actions).is_empty(), "nothing live was torn down");
    let (more, result) = despawn_finished(&plan, &WorktreeRemoval::Nothing, false);
    assert_eq!(result, clean());
    assert!(removed_dispositions(&more).is_empty());
}

#[test]
fn despawn_clears_a_stranded_workers_subscriptions_and_crons() {
    let mut ws = workspace_with_cap(None);
    ws.add_slack_subscription(
        SlackSubscription {
            id: 5,
            workspace: text("acme"),
            project: text("forge"),
            team_role: Some(text("stranded")),
            target: SlackSubscriptionTarget::Mentions,
            created_at: Timestamp { secs: 0, nanos: 0 },
        },
        true,
    );
    let plan = plan_of(handle_despawn_worker(
        &ws,
        &forge(),
        &text("stranded"),
        &worktrees(),
        &Ok(Some(false)),
    ));
    let DespawnTeardown::TornDown(actions) = despawn_stranded(&mut ws, &plan, Ok(true)) else {
        panic!("the row was there");
    };
    assert!(actions.contains(&Action::RemoveGotifySubscriptions {
        project_key: forge(),
        label: text("stranded"),
    }));
    assert!(actions.contains(&Action::DeleteCrons { project_key: forge(), label: text("stranded") }));
    assert!(actions.contains(&Action::DeleteSlackSubscription { id: 5 }));
    assert!(ws.slack.subs.is_empty());
}

#[test]
fn despawn_refuses_to_clear_the_lead_row() {
    let ws = workspace_with_cap(None);
    let step =
        handle_despawn_worker(&ws, &forge(), &text("lead"), &worktrees(), &Ok(Some(false)));
    assert_eq!(step, DespawnStep::Done(DespawnResult::NotFound));
}

#[test]
fn despawn_unknown_label_reports_not_found() {
    let mut ws = workspace_with_cap(None);
    let step = handle_despawn_worker(&ws, &forge(), &text("missing"), &worktrees(), &Ok(None));
    assert_eq!(step, DespawnStep::Done(DespawnResult::NotFound));
    let plan = plan_of(handle_despawn_worker(
        &ws,
        &forge(),
        &text("raced"),
        &worktrees(),
        &Ok(Some(false)),
    ));
    assert_eq!(
        despawn_stranded(&mut ws, &plan, Ok(false)),
        DespawnTeardown::Done(DespawnResult::NotFound),
    );
}

#[test]
fn despawn_reports_a_store_failure_apart_from_an_absent_label() {
    let mut ws = workspace_with_cap(None);
    let step = handle_despawn_worker(
        &ws,
        &forge(),
        &text("stranded"),
        &worktrees(),
        &Err(text("no store")),
    );
    let DespawnStep::Done(DespawnResult::Failed { reason }) = step else {
        panic!("an unreadable store must not be reported as an absent row; got {step:?}");
    };
    assert!(reason.contains("stranded") && reason.contains("no store"), "{reason}");

    let plan = plan_of(handle_despawn_worker(
        &ws,
        &forge(),
        &text("stranded"),
        &worktrees(),
        &Ok(Some(false)),
    ));
    let DespawnTeardown::Done(DespawnResult::Failed { reason }) =
        despawn_stranded(&mut ws, &plan, Err(text("read-only")))
    else {
        panic!("a row that cannot be deleted is a failure");
    };
    assert!(reason.contains("stranded") && reason.contains("read-only"), "{reason}");
}

fn removed(reap: BranchReapOutcome, branch: Option<&str>, exists: bool) -> WorktreeRemoval {
    WorktreeRemoval::Removed {
        reap: Some(reap),
        branch: branch.map(str::to_owned),
        branch_exists: exists,
    }
}

#[test]
fn despawn_git_worker_removes_clean_worktree() {
    let mut ws = workspace_with_cap(None);
    put_live(&mut ws, &forge(), git_entry("examiner"));
    let plan =
        plan_of(handle_despawn_worker(&ws, &forge(), &text("examiner"), &worktrees(), &Ok(None)));
    assert_eq!(plan.worktree.as_deref(), Some("/projects/forge/.worktrees/examiner"));
    assert_eq!(despawn_removal(&plan, true), plan.worktree);
    let (actions, result) = despawn(
        &mut ws,
        "examiner",
        false,
        None,
        removed(BranchReapOutcome::Reaped, None, false),
        false,
    );
    assert_eq!(result, clean(), "clean git worktree despawns + removes");
    assert!(live(&ws, &forge()).is_empty(), "worker removed");
    assert_eq!(removed_dispositions(&actions), vec![WorktreeDisposition::Removed]);
}

#[test]
fn despawn_clears_a_stranded_git_workers_worktree() {
    let ws = workspace_with_cap(None);
    let plan = plan_of(handle_despawn_worker(
        &ws,
        &forge(),
        &text("examiner"),
        &worktrees(),
        &Ok(Some(true)),
    ));
    assert!(plan.is_git_repo);
    assert_eq!(
        despawn_removal(&plan, true).as_deref(),
        Some("/projects/forge/.worktrees/examiner"),
    );
}

#[test]
fn a_stranded_row_whose_worktree_is_gone_despawns_quietly() {
    let ws = workspace_with_cap(None);
    let plan = plan_of(handle_despawn_worker(
        &ws,
        &forge(),
        &text("examiner"),
        &worktrees(),
        &Ok(Some(true)),
    ));
    assert_eq!(despawn_removal(&plan, false), None, "there is nothing to remove");
    let (_, result) = despawn_finished(&plan, &WorktreeRemoval::Nothing, false);
    assert_eq!(result, clean());
}

#[test]
fn a_dirty_stranded_worktree_blocks_before_the_row_goes() {
    let mut ws = workspace_with_cap(None);
    let plan = plan_of(handle_despawn_worker(
        &ws,
        &forge(),
        &text("examiner"),
        &worktrees(),
        &Ok(Some(true)),
    ));
    assert_eq!(
        despawn_checked(&mut ws, &plan, false, Some(text("1 uncommitted file"))),
        DespawnTeardown::Done(DespawnResult::Blocked { reason: text("1 uncommitted file") }),
    );
}

#[test]
fn despawn_reports_the_worktree_removed() {
    let mut ws = workspace_with_cap(None);
    put_live(&mut ws, &forge(), git_entry("examiner"));
    let (actions, _) = despawn(
        &mut ws,
        "examiner",
        false,
        None,
        removed(BranchReapOutcome::NotPresent, None, false),
        false,
    );
    assert_eq!(removed_dispositions(&actions), vec![WorktreeDisposition::Removed]);
}

#[test]
fn despawn_reports_a_failed_removal_apart_from_a_successful_one() {
    let mut ws = workspace_with_cap(None);
    put_live(&mut ws, &forge(), git_entry("examiner"));
    let failed = WorktreeRemoval::Failed { error: text("not a working tree") };
    let (actions, result) = despawn(&mut ws, "examiner", true, None, failed, true);
    assert_eq!(
        result,
        DespawnResult::Despawned {
            worktree_cleanup_warning: Some(text("not a working tree")),
            branch_cleanup_warning: None,
        },
    );
    assert_eq!(removed_dispositions(&actions), vec![WorktreeDisposition::RemovalFailed]);
}

#[test]
fn despawn_reports_removed_when_the_worktree_is_already_off_disk() {
    let mut ws = workspace_with_cap(None);
    put_live(&mut ws, &forge(), git_entry("examiner"));
    let failed = WorktreeRemoval::Failed { error: text("not a working tree") };
    let (actions, result) = despawn(&mut ws, "examiner", true, None, failed, false);
    assert!(matches!(
        result,
        DespawnResult::Despawned { worktree_cleanup_warning: Some(_), .. }
    ));
    assert_eq!(removed_dispositions(&actions), vec![WorktreeDisposition::Removed]);
}

#[test]
fn spawn_rollback_reports_no_worktree_to_preserve() {
    let mut ws = workspace_with_cap(None);
    let pending = begin(&mut ws, &forge(), args("examiner"), None, false).expect("admitted");
    let (actions, reply) = spawn_worker_spawned(&mut ws, &pending, None, Err(text("no binary")));
    let err = reply.expect_err("the agent spawn fails");
    assert!(err.contains("agent spawn failed"), "the rollback path is the one taken: {err}");
    assert!(live(&ws, &forge()).is_empty(), "the entry rolled back");
    assert_eq!(
        removed_dispositions(&actions),
        vec![WorktreeDisposition::Absent],
        "nothing was created, so the toast must not name a worktree",
    );
}

#[test]
fn despawn_keeps_a_worktree_branch_holding_unique_commits() {
    let mut ws = workspace_with_cap(None);
    put_live(&mut ws, &forge(), git_entry("examiner"));
    let kept = BranchReapOutcome::Kept { count: 1, tip: text("abc1234") };
    let (_, result) =
        despawn(&mut ws, "examiner", false, None, removed(kept, None, false), false);
    let DespawnResult::Despawned {
        worktree_cleanup_warning: None,
        branch_cleanup_warning: Some(warning),
    } = result
    else {
        panic!("despawn succeeds with a branch warning, got {result:?}");
    };
    assert!(warning.contains("worktree-examiner"), "warning names the branch: {warning}");
    assert!(warning.contains("1 commit reachable"), "warning names the commit count: {warning}");
    assert!(warning.contains("git log"), "warning is executable: {warning}");
}

#[test]
fn reap_worker_branch_warns_only_when_it_cannot_verify() {
    let label = text("examiner");
    let warning = reap_worker_branch(
        &label,
        &BranchReapOutcome::KeptOnError { reason: text("not a git repository") },
    )
    .expect("an unreadable repo warns");
    assert!(warning.contains("could not verify"), "names the real cause: {warning}");
    assert!(
        reap_worker_branch(&label, &BranchReapOutcome::NotPresent).is_none(),
        "no such branch is silent, not a spurious warning on every despawn",
    );
    assert!(reap_worker_branch(&label, &BranchReapOutcome::Reaped).is_none());
    let failed =
        reap_worker_branch(&label, &BranchReapOutcome::DeleteFailed { reason: text("locked") })
            .expect("a branch that is left warns");
    assert!(failed.contains("the delete failed (locked)"), "{failed}");
    let kept = reap_worker_branch(
        &label,
        &BranchReapOutcome::Kept { count: 3, tip: text("abc") },
    )
    .expect("kept");
    assert!(kept.contains("3 commits reachable") && kept.contains("git log -3 abc"), "{kept}");
}

#[test]
fn despawn_reaps_the_conventional_branch_not_the_checked_out_one() {
    assert_eq!(worker_branch(&text("examiner")), "worktree-examiner");
}

#[test]
fn despawn_keeps_review_state_for_a_branch_that_still_exists() {
    let mut ws = workspace_with_cap(None);
    put_live(&mut ws, &forge(), git_entry("examiner"));
    let (actions, _) = despawn(
        &mut ws,
        "examiner",
        false,
        None,
        removed(BranchReapOutcome::Reaped, Some("feature-x"), true),
        false,
    );
    assert!(!actions.iter().any(|action| matches!(action, Action::DeleteBranchReviewState { .. })));
}

#[test]
fn despawn_deletes_that_branch_reviews_and_threads() {
    let mut ws = workspace_with_cap(None);
    put_live(&mut ws, &forge(), git_entry("examiner"));
    let (actions, _) = despawn(
        &mut ws,
        "examiner",
        false,
        None,
        removed(BranchReapOutcome::Reaped, Some("worktree-examiner"), false),
        false,
    );
    assert!(actions.contains(&Action::DeleteBranchReviewState {
        project: text("forge"),
        branch: text("worktree-examiner"),
    }));
}

#[test]
fn despawn_with_detached_head_skips_cleanup_gracefully() {
    let mut ws = workspace_with_cap(None);
    put_live(&mut ws, &forge(), git_entry("examiner"));
    let (actions, result) = despawn(
        &mut ws,
        "examiner",
        false,
        None,
        removed(BranchReapOutcome::Reaped, None, false),
        false,
    );
    assert_eq!(result, clean());
    assert!(!actions.iter().any(|action| matches!(action, Action::DeleteBranchReviewState { .. })));
}

#[test]
fn despawn_dirty_worktree_without_force_blocks() {
    let mut ws = workspace_with_cap(None);
    put_live(&mut ws, &forge(), git_entry("examiner"));
    let (_, result) = despawn(
        &mut ws,
        "examiner",
        false,
        Some("uncommitted changes"),
        WorktreeRemoval::Nothing,
        true,
    );
    assert_eq!(result, DespawnResult::Blocked { reason: text("uncommitted changes") });
    assert_eq!(live(&ws, &forge()).len(), 1, "worker stays live when blocked");
}

#[test]
fn despawn_dirty_worktree_force_discards() {
    let mut ws = workspace_with_cap(None);
    put_live(&mut ws, &forge(), git_entry("examiner"));
    let (_, result) = despawn(
        &mut ws,
        "examiner",
        true,
        Some("uncommitted changes"),
        removed(BranchReapOutcome::Reaped, None, false),
        false,
    );
    assert!(matches!(result, DespawnResult::Despawned { .. }), "force despawns a dirty worktree");
    assert!(live(&ws, &forge()).is_empty(), "worker removed under force");
}

#[test]
fn a_worktree_stands_below_its_project() {
    assert_eq!(worker_worktree_dir(&text("/p"), &text("w"), &text("l")), "/p/w/l");
    assert_eq!(worker_worktree_dir(&text("/p/"), &text("w"), &text("l")), "/p/w/l");
    assert_eq!(worker_worktree_dir(&text(""), &text("w"), &text("l")), "w/l");
}
