//! A project's workers: spawning one, closing one, and taking one away with
//! its worktree.

use crate::clock::{fresh_id, is_fresh_id};
use crate::deliver::is_within;
use crate::launch::{are_worker_args, build_worker_extra_args, SessionLaunchSettings};
use crate::protocol::{
    untouched, Action, SessionTarget, SlackSubscription, SessionUpdate, SpawnRole, WorkerLiveness,
    WorkerStatusAction, WorktreeDisposition,
};
use crate::seqs::{any, count, is_last, last_index, last_match};
use crate::slack::{
    disconnected, is_idle_label, is_watched_label, not_owned_by_worker, owned_by_worker, SlackState,
};
use crate::slot::{clone_option, slot_text, worker_slot, SessionSlot, SlotId};
use crate::spawn::{
    expire_parked_for_slot, is_expiry, spawn_failure, spawn_failure_message, SpawnRequest,
};
use crate::text::{decimal, decimal_text};
use crate::workers::{
    a_found_worker_bears_its_label, a_worker_is_refused_for_its_label_or_the_cap, labelled,
    labelled_up, latest_at, nobody_bears,
    nobody_up_bears, refusal, status_of, up, LiveWorker, LiveWorkerRefusal, WorkerEntry,
    DEFAULT_MAX_WORKERS_PER_PROJECT,
};
use crate::workspace::{nothing_parked, ProjectView, Workspace};
use vstd::prelude::*;

verus! {

/// What a worker is spawned for.
#[derive(Debug, PartialEq, Eq)]
pub struct WorkerSpawnArgs {
    pub label: String,
    pub charter: String,
    /// Its first turn.
    pub kick: Option<String>,
    /// Its first turn after a restart.
    pub resume_kick: Option<String>,
    /// It may ask the user.
    pub interactive: bool,
}

/// What a caller that spawned a worker is told.
#[derive(Debug, PartialEq, Eq)]
pub struct WorkerSpawnReply {
    pub session_id: String,
    pub tag: String,
    /// The account it runs on, where that one is at its limit.
    pub rate_limited_account: Option<String>,
    /// Why it will not survive a restart, where it will not.
    pub durability_warning: Option<String>,
}

/// A worker that was admitted and not started yet.
#[derive(Debug, PartialEq, Eq)]
pub struct PendingSpawn {
    pub project_key: String,
    pub entry: WorkerEntry,
    pub session_id: String,
    pub resume_kick: Option<String>,
    pub interactive: bool,
    pub is_resume: bool,
    pub from_boot_respawn: bool,
}

/// What is stored of a worker, so that a boot can bring it back.
#[derive(Debug, PartialEq, Eq)]
pub struct WorkerRow {
    pub project_key: String,
    pub label: String,
    pub session_id: String,
    pub charter: String,
    /// Left as it is where there is none.
    pub kick: Option<String>,
    pub resume_kick: Option<String>,
    pub interactive: bool,
    pub is_git_repo: bool,
}

/// Where the directory a worker starts in is known from.
#[derive(Debug, PartialEq, Eq)]
pub enum Gitness {
    /// Its row says whether the project is a git repository.
    Recorded(bool),
    /// Nothing says; look at this path.
    Probe(String),
}

/// The first step of spawning a worker.
#[derive(Debug, PartialEq, Eq)]
pub enum SpawnWorkerStep {
    Refused(String),
    /// Store the worker's row; go on with [`spawn_worker_recorded`].
    Record(PendingSpawn),
}

/// The second step of spawning a worker: announce it and start its agent; go
/// on with [`spawn_worker_spawned`].
#[derive(Debug, PartialEq, Eq)]
pub struct SpawnWorkerLaunch {
    pub action: Action,
    pub durability_warning: Option<String>,
    pub request: SpawnRequest,
}

/// The tag that marks a worker's transcript.
pub open spec fn worker_tag(label: Seq<char>) -> Seq<char> {
    "forge:worker:"@ + label
}

/// Said of a project that is not there.
pub open spec fn no_project_message(project_key: Seq<char>) -> Seq<char> {
    "project not found: "@ + project_key
}

/// Said of a label under which a worker is up.
pub open spec fn label_live_message(label: Seq<char>, existing: Seq<char>) -> Seq<char> {
    "a worker labeled '"@ + label + "' is already live (session "@ + existing
        + "); message it with workers__tell / workers__ask or close it first (one live worker per label)"@
}

/// Said of a project that has as many workers up as it may.
pub open spec fn limit_message(project: Seq<char>, live: nat, cap: nat) -> Seq<char> {
    "worker limit reached: project '"@ + project + "' has "@ + decimal(live) + (if live == 1 {
        " worker"@
    } else {
        " workers"@
    }) + " live and its cap is "@ + decimal(cap)
        + " (the project's max_workers in forge.toml, default "@ + decimal(
        DEFAULT_MAX_WORKERS_PER_PROJECT as nat,
    ) + "); despawn one first, or raise/remove max_workers"@
}

/// Said of a worker that will not survive a restart.
pub open spec fn durability_message(error: Seq<char>) -> Seq<char> {
    "recording this worker for durability failed ("@ + error
        + "); it will not survive a forge restart"@
}

/// Said of a project that has as many workers up as it may.
pub fn worker_limit_reached_message(project: &str, live: usize, cap: usize) -> (message: String)
    ensures
        message@ == limit_message(project@, live as nat, cap as nat),
{
    let mut message = "worker limit reached: project '".to_owned();
    message.append(project);
    message.append("' has ");
    message.append(decimal_text(live as u64).as_str());
    if live == 1 {
        message.append(" worker");
    } else {
        message.append(" workers");
    }
    message.append(" live and its cap is ");
    message.append(decimal_text(cap as u64).as_str());
    message.append(" (the project's max_workers in forge.toml, default ");
    message.append(decimal_text(DEFAULT_MAX_WORKERS_PER_PROJECT as u64).as_str());
    message.append("); despawn one first, or raise/remove max_workers");
    message
}

/// Where it is known from whether a worker starts in a repository.
pub open spec fn gitness_known(
    workspace: Workspace,
    project_key: String,
    recorded: Result<Option<bool>, String>,
    gitness: Result<Gitness, String>,
) -> bool {
    match (workspace.project_keyed(project_key@), gitness) {
        (None, Err(reply)) => reply@ == no_project_message(project_key@),
        (Some(project), Ok(gitness)) => gitness == match recorded {
            Ok(Some(is_git)) => Gitness::Recorded(is_git),
            _ => Gitness::Probe(project.path),
        },
        _ => false,
    }
}

/// Whether the project of a worker is a git repository, as far as the
/// worker's row says. A row that cannot be read says nothing. An unknown
/// project is answered.
pub fn spawn_worker_gitness(
    workspace: &Workspace,
    project_key: &String,
    recorded: &Result<Option<bool>, String>,
) -> (gitness: Result<Gitness, String>)
    ensures
        gitness_known(*workspace, *project_key, *recorded, gitness),
{
    match workspace.project_for_key(project_key) {
        None => Err(no_project(project_key)),
        Some(project) => match recorded {
            Ok(Some(is_git)) => Ok(Gitness::Recorded(*is_git)),
            _ => Ok(Gitness::Probe(project.path.clone())),
        },
    }
}

/// Said of a project that is not there.
fn no_project(project_key: &String) -> (message: String)
    ensures
        message@ == no_project_message(project_key@),
{
    let mut message = "project not found: ".to_owned();
    message.append(project_key.as_str());
    message
}

/// The entry of a worker that is spawned.
pub open spec fn spawning_entry(
    project: ProjectView,
    args: WorkerSpawnArgs,
    spawned_by: SessionSlot,
    session_id: String,
    is_resume: bool,
    is_git: bool,
    now: u64,
) -> WorkerEntry {
    WorkerEntry {
        label: args.label,
        charter: args.charter,
        slot: worker_slot(project.org, project.name, args.label),
        session_id: Some(session_id),
        status: WorkerLiveness::Spawning,
        spawned_at: now,
        spawned_by,
        needs_tag: !is_resume,
        is_git_repo_at_spawn: is_git,
        diagnostic: None,
        kick: args.kick,
    }
}

/// The most workers that a project may have up when one more is spawned. A
/// boot brings back what was there, however many.
pub open spec fn spawn_cap(project: ProjectView, from_boot_respawn: bool) -> Option<usize> {
    if from_boot_respawn {
        None
    } else {
        match project.max_workers {
            Some(cap) => Some(cap),
            None => Some(DEFAULT_MAX_WORKERS_PER_PROJECT),
        }
    }
}

/// `after` is `before` with one more worker.
pub open spec fn worker_added(before: Workspace, after: Workspace, worker: LiveWorker) -> bool {
    after == (Workspace { live_workers: after.live_workers, ..before }) && after.live_workers@
        == before.live_workers@.push(worker)
}

/// What asking for a worker comes to: `after` is the workspace then, `step`
/// what is to be done.
pub open spec fn spawn_asked(
    before: Workspace,
    after: Workspace,
    project_key: String,
    args: WorkerSpawnArgs,
    spawned_by: SessionSlot,
    session_id: String,
    is_resume: bool,
    from_boot_respawn: bool,
    is_git: bool,
    now: u64,
    step: SpawnWorkerStep,
) -> bool {
    match before.project_keyed(project_key@) {
        None => after == before && (step matches SpawnWorkerStep::Refused(
            reply,
        ) && reply@ == no_project_message(project_key@)),
        Some(project) => match refusal(
            before.live_workers@,
            project_key@,
            args.label@,
            spawn_cap(project, from_boot_respawn),
        ) {
            Some(LiveWorkerRefusal::LabelLive(existing)) => after == before
                && (step matches SpawnWorkerStep::Refused(reply) && reply@
                == label_live_message(args.label@, slot_text(existing))),
            Some(LiveWorkerRefusal::AtCap { live, cap }) => after == before
                && (step matches SpawnWorkerStep::Refused(reply) && reply@ == limit_message(
                project_key@,
                live as nat,
                cap as nat,
            )),
            None => {
                let entry = spawning_entry(
                    project,
                    args,
                    spawned_by,
                    session_id,
                    is_resume,
                    is_git,
                    now,
                );
                &&& worker_added(
                    before,
                    after,
                    LiveWorker { project_key, entry },
                )
                &&& step == SpawnWorkerStep::Record(
                    PendingSpawn {
                        project_key,
                        entry,
                        session_id,
                        resume_kick: args.resume_kick,
                        interactive: args.interactive,
                        is_resume,
                        from_boot_respawn,
                    },
                )
            },
        },
    }
}

/// Spawn a worker that runs under `session_id`: the id to resume, or a fresh
/// one. A label has one worker that is up, and a project no more than its
/// cap; a worker that is refused leaves no trace. `now` is in seconds.
pub fn handle_spawn_worker_as(
    workspace: &mut Workspace,
    project_key: &String,
    args: WorkerSpawnArgs,
    spawned_by: SessionSlot,
    session_id: String,
    is_resume: bool,
    from_boot_respawn: bool,
    is_git: bool,
    now: u64,
) -> (step: SpawnWorkerStep)
    ensures
        spawn_asked(
            *old(workspace),
            *final(workspace),
            *project_key,
            args,
            spawned_by,
            session_id,
            is_resume,
            from_boot_respawn,
            is_git,
            now,
            step,
        ),
{
    let (slot, own_cap) = match workspace.project_for_key(project_key) {
        None => {
            return SpawnWorkerStep::Refused(no_project(project_key));
        },
        Some(project) => (
            SessionSlot::worker(&project.org, &project.name, &args.label),
            project.max_workers,
        ),
    };
    let cap: Option<usize> = if from_boot_respawn {
        None
    } else {
        match own_cap {
            Some(cap) => Some(cap),
            None => Some(DEFAULT_MAX_WORKERS_PER_PROJECT),
        }
    };
    let label = args.label.clone();
    let entry = WorkerEntry {
        label: args.label,
        charter: args.charter,
        slot,
        session_id: Some(session_id.clone()),
        status: WorkerLiveness::Spawning,
        spawned_at: now,
        spawned_by,
        needs_tag: !is_resume,
        is_git_repo_at_spawn: is_git,
        diagnostic: None,
        kick: args.kick,
    };
    match workspace.live_workers.insert_live_worker_if_label_absent(
        project_key,
        entry.clone(),
        cap,
    ) {
        Err(LiveWorkerRefusal::LabelLive(existing)) => {
            let mut reply = "a worker labeled '".to_owned();
            reply.append(label.as_str());
            reply.append("' is already live (session ");
            reply.append(existing.display().as_str());
            reply.append(
                "); message it with workers__tell / workers__ask or close it first (one live worker per label)",
            );
            SpawnWorkerStep::Refused(reply)
        },
        Err(LiveWorkerRefusal::AtCap { live, cap }) => {
            SpawnWorkerStep::Refused(worker_limit_reached_message(project_key.as_str(), live, cap))
        },
        Ok(()) => SpawnWorkerStep::Record(
            PendingSpawn {
                project_key: project_key.clone(),
                entry,
                session_id,
                resume_kick: args.resume_kick,
                interactive: args.interactive,
                is_resume,
                from_boot_respawn,
            },
        ),
    }
}

/// What asking for a worker comes to, under the id it resumes or a fresh one.
pub open spec fn spawn_answered(
    before: Workspace,
    after: Workspace,
    project_key: String,
    args: WorkerSpawnArgs,
    spawned_by: SessionSlot,
    resume_existing: Option<String>,
    from_boot_respawn: bool,
    is_git: bool,
    now: u64,
    step: SpawnWorkerStep,
) -> bool {
    match before.project_keyed(project_key@) {
        None => after == before && (step matches SpawnWorkerStep::Refused(
            reply,
        ) && reply@ == no_project_message(project_key@)),
        Some(project) => match refusal(
            before.live_workers@,
            project_key@,
            args.label@,
            spawn_cap(project, from_boot_respawn),
        ) {
            Some(LiveWorkerRefusal::LabelLive(existing)) => after == before
                && (step matches SpawnWorkerStep::Refused(reply) && reply@
                == label_live_message(args.label@, slot_text(existing))),
            Some(LiveWorkerRefusal::AtCap { live, cap }) => after == before
                && (step matches SpawnWorkerStep::Refused(reply) && reply@ == limit_message(
                project_key@,
                live as nat,
                cap as nat,
            )),
            None => step matches SpawnWorkerStep::Record(pending) && ({
                &&& match resume_existing {
                    Some(id) => pending.session_id == id,
                    None => is_fresh_id(pending.session_id@),
                }
                &&& pending == (PendingSpawn {
                    project_key,
                    entry: spawning_entry(
                        project,
                        args,
                        spawned_by,
                        pending.session_id,
                        resume_existing is Some,
                        is_git,
                        now,
                    ),
                    session_id: pending.session_id,
                    resume_kick: args.resume_kick,
                    interactive: args.interactive,
                    is_resume: resume_existing is Some,
                    from_boot_respawn,
                })
                &&& worker_added(
                    before,
                    after,
                    LiveWorker { project_key, entry: pending.entry },
                )
            }),
        },
    }
}

/// Spawn a worker: one that resumes under the id it had, a new one under a
/// fresh one.
pub fn handle_spawn_worker(
    workspace: &mut Workspace,
    project_key: &String,
    args: WorkerSpawnArgs,
    spawned_by: SessionSlot,
    resume_existing: Option<String>,
    from_boot_respawn: bool,
    is_git: bool,
    now: u64,
) -> (step: SpawnWorkerStep)
    ensures
        spawn_answered(
            *old(workspace),
            *final(workspace),
            *project_key,
            args,
            spawned_by,
            resume_existing,
            from_boot_respawn,
            is_git,
            now,
            step,
        ),
{
    let is_resume = resume_existing.is_some();
    let session_id = match resume_existing {
        Some(id) => id,
        None => fresh_id(),
    };
    handle_spawn_worker_as(
        workspace,
        project_key,
        args,
        spawned_by,
        session_id,
        is_resume,
        from_boot_respawn,
        is_git,
        now,
    )
}

/// The row of a worker that was admitted. A worker that resumes does not
/// state its first turn again.
pub open spec fn row_of(pending: PendingSpawn) -> WorkerRow {
    WorkerRow {
        project_key: pending.project_key,
        label: pending.entry.label,
        session_id: pending.session_id,
        charter: pending.entry.charter,
        kick: if pending.is_resume {
            None
        } else {
            pending.entry.kick
        },
        resume_kick: pending.resume_kick,
        interactive: pending.interactive,
        is_git_repo: pending.entry.is_git_repo_at_spawn,
    }
}

impl PendingSpawn {
    /// The row to store for the worker.
    pub fn row(&self) -> (row: WorkerRow)
        ensures
            row == row_of(*self),
    {
        WorkerRow {
            project_key: self.project_key.clone(),
            label: self.entry.label.clone(),
            session_id: self.session_id.clone(),
            charter: self.entry.charter.clone(),
            kick: if self.is_resume {
                None
            } else {
                clone_option(&self.entry.kick)
            },
            resume_kick: clone_option(&self.resume_kick),
            interactive: self.interactive,
            is_git_repo: self.entry.is_git_repo_at_spawn,
        }
    }

    /// The spawn made the worker's row, and may take it away again.
    pub open spec fn minted_row(self) -> bool {
        !self.is_resume && !self.from_boot_respawn
    }
}

/// The news of a worker that came or went.
pub open spec fn worker_news(
    project_key: String,
    action: WorkerStatusAction,
    entry: WorkerEntry,
    worktree: WorktreeDisposition,
) -> Action {
    Action::Emit(
        SessionUpdate::WorkerStatusChanged {
            project_key,
            action,
            status: status_of(entry),
            worktree,
        },
    )
}

/// What a worker is announced and launched with.
pub open spec fn spawn_announced(
    pending: PendingSpawn,
    recorded: Result<(), String>,
    launch: SpawnWorkerLaunch,
) -> bool {
    &&& launch.action == worker_news(
        pending.project_key,
        WorkerStatusAction::Added,
        pending.entry,
        untouched(pending.entry.is_git_repo_at_spawn),
    )
    &&& match (recorded, launch.durability_warning) {
        (Ok(()), None) => true,
        (Err(error), Some(warning)) => warning@ == durability_message(error@),
        _ => false,
    }
    &&& launch.request.target == if pending.is_resume {
        SessionTarget::Session(pending.entry.slot)
    } else {
        SessionTarget::FreshInProject { slot: pending.entry.slot }
    }
    &&& launch.request.settings.charter == Some(pending.entry.charter)
    &&& are_worker_args(
        launch.request.settings.extra_args@,
        pending.entry.is_git_repo_at_spawn,
        pending.entry.label@,
        pending.interactive,
    )
    &&& launch.request.settings.settings is None
    &&& launch.request.key is None
    &&& launch.request.role == (SpawnRole::Worker {
        label: pending.entry.label,
        wrote_row: pending.minted_row(),
    })
}

/// Announce a worker that was admitted, and start its agent. `recorded` is
/// what became of its row; a worker without one runs all the same.
pub fn spawn_worker_recorded(pending: &PendingSpawn, recorded: Result<(), String>) -> (launch:
    SpawnWorkerLaunch)
    ensures
        spawn_announced(*pending, recorded, launch),
{
    let durability_warning = match recorded {
        Ok(()) => None,
        Err(error) => {
            let mut warning = "recording this worker for durability failed (".to_owned();
            warning.append(error.as_str());
            warning.append("); it will not survive a forge restart");
            Some(warning)
        },
    };
    let action = Action::Emit(
        SessionUpdate::WorkerStatusChanged {
            project_key: pending.project_key.clone(),
            action: WorkerStatusAction::Added,
            status: pending.entry.to_status(),
            worktree: WorktreeDisposition::untouched(pending.entry.is_git_repo_at_spawn),
        },
    );
    let settings = SessionLaunchSettings {
        charter: Some(pending.entry.charter.clone()),
        extra_args: build_worker_extra_args(
            pending.entry.is_git_repo_at_spawn,
            pending.entry.label.as_str(),
            pending.interactive,
        ),
        settings: None,
    };
    let target = if pending.is_resume {
        SessionTarget::Session(pending.entry.slot.clone())
    } else {
        SessionTarget::FreshInProject { slot: pending.entry.slot.clone() }
    };
    let role = SpawnRole::Worker {
        label: pending.entry.label.clone(),
        wrote_row: !pending.is_resume && !pending.from_boot_respawn,
    };
    SpawnWorkerLaunch {
        action,
        durability_warning,
        request: SpawnRequest { target, settings, key: None, role },
    }
}

/// What is done when a worker's agent did not start. Its row goes only if the
/// spawn made it.
pub open spec fn rollback_actions(
    workers: Seq<LiveWorker>,
    pending: PendingSpawn,
) -> Seq<Action> {
    let row = if pending.minted_row() {
        seq![
            Action::DeleteWorkerRow {
                project_key: pending.project_key,
                label: pending.entry.label,
            },
        ]
    } else {
        Seq::<Action>::empty()
    };
    match last_match(workers, labelled(pending.project_key@, pending.entry.label@)) {
        Some(worker) => row.push(
            worker_news(
                pending.project_key,
                WorkerStatusAction::Removed,
                worker.entry,
                WorktreeDisposition::Absent,
            ),
        ),
        None => row,
    }
}

/// What becomes of a worker once its agent was started, or not.
pub open spec fn spawn_settled(
    before: Workspace,
    after: Workspace,
    pending: PendingSpawn,
    durability_warning: Option<String>,
    spawned: Result<Option<String>, String>,
    outcome: (Vec<Action>, Result<WorkerSpawnReply, String>),
) -> bool {
    match spawned {
        Ok(rate_limited_account) => {
            &&& after == before
            &&& outcome.0@.len() == 0
            &&& outcome.1 matches Ok(reply)
            &&& reply == (WorkerSpawnReply {
                session_id: pending.session_id,
                tag: reply.tag,
                rate_limited_account,
                durability_warning,
            })
            &&& reply.tag@ == worker_tag(pending.entry.label@)
        },
        Err(err) => {
            &&& after == (Workspace {
                live_workers: after.live_workers,
                ..before
            })
            &&& after.live_workers@ == without_latest(
                before.live_workers@,
                pending.project_key@,
                pending.entry.label@,
            )
            &&& outcome.0@ == rollback_actions(before.live_workers@, pending)
            &&& outcome.1 matches Err(reply)
            &&& reply@ == spawn_failure(err@)
        },
    }
}

/// Answer the caller that spawned a worker. `spawned` is what became of its
/// agent: the account it runs on, where that one is at its limit, or why it
/// did not start, and then the worker is taken out again.
pub fn spawn_worker_spawned(
    workspace: &mut Workspace,
    pending: &PendingSpawn,
    durability_warning: Option<String>,
    spawned: Result<Option<String>, String>,
) -> (outcome: (Vec<Action>, Result<WorkerSpawnReply, String>))
    ensures
        spawn_settled(
            *old(workspace),
            *final(workspace),
            *pending,
            durability_warning,
            spawned,
            outcome,
        ),
{
    let mut actions: Vec<Action> = Vec::new();
    match spawned {
        Ok(rate_limited_account) => {
            let mut tag = "forge:worker:".to_owned();
            tag.append(pending.entry.label.as_str());
            let reply = WorkerSpawnReply {
                session_id: pending.session_id.clone(),
                tag,
                rate_limited_account,
                durability_warning,
            };
            (actions, Ok(reply))
        },
        Err(err) => {
            if !pending.is_resume && !pending.from_boot_respawn {
                actions.push(
                    Action::DeleteWorkerRow {
                        project_key: pending.project_key.clone(),
                        label: pending.entry.label.clone(),
                    },
                );
            }
            match workspace.live_workers.remove_latest_worker(
                &pending.project_key,
                &pending.entry.label,
            ) {
                Some(entry) => {
                    actions.push(
                        Action::Emit(
                            SessionUpdate::WorkerStatusChanged {
                                project_key: pending.project_key.clone(),
                                action: WorkerStatusAction::Removed,
                                status: entry.to_status(),
                                worktree: WorktreeDisposition::Absent,
                            },
                        ),
                    );
                },
                None => {},
            }
            assert(actions@ =~= rollback_actions(old(workspace).live_workers@, *pending));
            (actions, Err(spawn_failure_message(&err)))
        },
    }
}

/// The workers without the one that was spawned last under a label.
pub open spec fn without_latest(
    workers: Seq<LiveWorker>,
    project_key: Seq<char>,
    label: Seq<char>,
) -> Seq<LiveWorker> {
    match last_index(workers, labelled(project_key, label)) {
        Some(i) => workers.remove(i),
        None => workers,
    }
}

/// No two workers of a project are up under one label.
pub open spec fn one_per_label(workers: Seq<LiveWorker>) -> bool {
    forall|i: int, j: int|
        0 <= i < j < workers.len() && (#[trigger] workers[i]).project_key@ == (
        #[trigger] workers[j]).project_key@ && workers[i].entry.label@ == workers[j].entry.label@
            ==> workers[i].entry.status == WorkerLiveness::Failed || workers[j].entry.status
            == WorkerLiveness::Failed
}

/// A worker that is admitted under a cap does not take its project over it.
pub proof fn admitted_worker_respects_the_cap(
    workers: Seq<LiveWorker>,
    worker: LiveWorker,
    cap: usize,
)
    requires
        refusal(workers, worker.project_key@, worker.entry.label@, Some(cap)) is None,
    ensures
        count(workers.push(worker), up(worker.project_key@)) <= cap,
{
    let p = up(worker.project_key@);
    lemma_count_push(workers, worker, p);
}

/// A worker that is admitted is the only one that is up under its label.
pub proof fn admitted_worker_is_alone_under_its_label(
    workers: Seq<LiveWorker>,
    worker: LiveWorker,
    cap: Option<usize>,
)
    requires
        one_per_label(workers),
        refusal(workers, worker.project_key@, worker.entry.label@, cap) is None,
    ensures
        one_per_label(workers.push(worker)),
{
    let after = workers.push(worker);
    let p = labelled_up(worker.project_key@, worker.entry.label@);
    assert(!any(workers, p)) by {
        if any(workers, p) {
            crate::seqs::lemma_first_exists(workers, p);
        }
    }
    assert forall|i: int, j: int|
        0 <= i < j < after.len() && (#[trigger] after[i]).project_key@ == (
        #[trigger] after[j]).project_key@ && after[i].entry.label@
            == after[j].entry.label@ implies after[i].entry.status == WorkerLiveness::Failed
        || after[j].entry.status == WorkerLiveness::Failed by {
        if j == workers.len() {
            assert(!p(workers[i]));
        }
    }
}

/// A worker that failed takes no place under the cap.
pub proof fn failed_worker_takes_no_place(
    workers: Seq<LiveWorker>,
    worker: LiveWorker,
    project_key: Seq<char>,
)
    requires
        worker.entry.status == WorkerLiveness::Failed,
    ensures
        count(workers.push(worker), up(project_key)) == count(workers, up(project_key)),
{
    lemma_count_push(workers, worker, up(project_key));
}

/// The workers of one project take no place under the cap of another.
pub proof fn cap_is_per_project(workers: Seq<LiveWorker>, worker: LiveWorker, other: Seq<char>)
    requires
        worker.project_key@ != other,
    ensures
        count(workers.push(worker), up(other)) == count(workers, up(other)),
{
    lemma_count_push(workers, worker, up(other));
}

/// A worker that is brought back at boot is refused for no cap.
pub proof fn boot_respawn_knows_no_cap(
    workers: Seq<LiveWorker>,
    project_key: Seq<char>,
    label: Seq<char>,
    project: ProjectView,
)
    ensures
        !(refusal(workers, project_key, label, spawn_cap(project, true)) matches Some(
            LiveWorkerRefusal::AtCap { .. },
        )),
{
}

/// A spawn that fails leaves the workers as they were before it.
pub proof fn failed_spawn_restores_the_workers(workers: Seq<LiveWorker>, worker: LiveWorker)
    ensures
        without_latest(workers.push(worker), worker.project_key@, worker.entry.label@) == workers,
{
    let after = workers.push(worker);
    let p = labelled(worker.project_key@, worker.entry.label@);
    assert(is_last(after, p, workers.len() as int));
    crate::seqs::lemma_last_index_is(after, p, workers.len() as int);
    assert(after.remove(workers.len() as int) =~= workers);
}

/// A worker that goes frees its place under the cap, if it was up.
pub proof fn removed_worker_frees_its_place(
    workers: Seq<LiveWorker>,
    project_key: Seq<char>,
    label: Seq<char>,
)
    ensures
        match last_match(workers, labelled(project_key, label)) {
            Some(worker) => count(workers, up(project_key)) == count(
                without_latest(workers, project_key, label),
                up(project_key),
            ) + if worker.entry.status == WorkerLiveness::Failed {
                0nat
            } else {
                1nat
            },
            None => without_latest(workers, project_key, label) == workers,
        },
{
    let p = labelled(project_key, label);
    if any(workers, p) {
        crate::seqs::lemma_last_exists(workers, p);
        lemma_count_remove(workers, last_index(workers, p)->0, up(project_key));
    }
}

/// Taking one worker out leaves every other label with the worker it had.
pub proof fn removal_spares_other_labels(
    workers: Seq<LiveWorker>,
    project_key: Seq<char>,
    label: Seq<char>,
    other_key: Seq<char>,
    other_label: Seq<char>,
)
    requires
        other_key != project_key || other_label != label,
    ensures
        last_match(
            without_latest(workers, project_key, label),
            labelled(other_key, other_label),
        ) == last_match(workers, labelled(other_key, other_label)),
{
    let p = labelled(project_key, label);
    let q = labelled(other_key, other_label);
    if any(workers, p) {
        crate::seqs::lemma_last_exists(workers, p);
        let i = last_index(workers, p)->0;
        let after = workers.remove(i);
        if any(workers, q) {
            crate::seqs::lemma_last_exists(workers, q);
            let f = last_index(workers, q)->0;
            let g = if f < i { f } else { f - 1 };
            assert(after[g] == workers[f]);
            assert(is_last(after, q, g)) by {
                assert forall|j: int| g < j < after.len() implies !q(#[trigger] after[j]) by {
                    if j < i {
                        assert(!q(workers[j]));
                    } else {
                        assert(!q(workers[j + 1]));
                    }
                }
            }
            crate::seqs::lemma_last_index_is(after, q, g);
        } else if any(after, q) {
            let k = choose|k: int| 0 <= k < after.len() && q(#[trigger] after[k]);
            if k < i {
                assert(q(workers[k]));
            } else {
                assert(q(workers[k + 1]));
            }
        }
    }
}

/// Taking a worker out leaves no two up under one label.
pub proof fn removal_keeps_labels_apart(
    workers: Seq<LiveWorker>,
    project_key: Seq<char>,
    label: Seq<char>,
)
    requires
        one_per_label(workers),
    ensures
        one_per_label(without_latest(workers, project_key, label)),
{
    let p = labelled(project_key, label);
    if any(workers, p) {
        crate::seqs::lemma_last_exists(workers, p);
    }
}

/// One more element counts or does not.
proof fn lemma_count_push(workers: Seq<LiveWorker>, worker: LiveWorker, p: spec_fn(
    LiveWorker,
) -> bool)
    ensures
        count(workers.push(worker), p) == count(workers, p) + if p(worker) {
            1nat
        } else {
            0nat
        },
{
    let after = workers.push(worker);
    crate::seqs::lemma_filter_step(after, p, workers.len() as int);
    crate::seqs::lemma_filter_ends(after, p);
    assert(after.take(workers.len() as int) =~= workers);
}

/// One element less counts or does not.
proof fn lemma_count_remove(workers: Seq<LiveWorker>, i: int, p: spec_fn(LiveWorker) -> bool)
    requires
        0 <= i < workers.len(),
    ensures
        count(workers, p) == count(workers.remove(i), p) + if p(workers[i]) {
            1nat
        } else {
            0nat
        },
    decreases workers.len(),
{
    let last = workers.last();
    let init = workers.drop_last();
    assert(init.push(last) =~= workers);
    lemma_count_push(init, last, p);
    if i == workers.len() - 1 {
        assert(workers.remove(i) =~= init);
    } else {
        lemma_count_remove(init, i, p);
        assert(workers.remove(i) =~= init.remove(i).push(last));
        lemma_count_push(init.remove(i), last, p);
    }
}

/// What is still watched once a worker is gone.
pub open spec fn subs_kept(workspace: Workspace, project_key: Seq<char>, label: Seq<char>) -> Seq<
    SlackSubscription,
> {
    match workspace.project_keyed(project_key) {
        Some(project) => workspace.slack.subs@.filter(not_owned_by_worker(project.name@, label)),
        None => workspace.slack.subs@,
    }
}

/// The stored subscriptions that go with a worker.
pub open spec fn subs_deleted(
    workspace: Workspace,
    project_key: Seq<char>,
    label: Seq<char>,
) -> Seq<Action> {
    match workspace.project_keyed(project_key) {
        Some(project) => workspace.slack.subs@.filter(
            owned_by_worker(project.name@, label),
        ).map_values(|sub: SlackSubscription| Action::DeleteSlackSubscription { id: sub.id }),
        None => Seq::empty(),
    }
}

/// The pollers that stop once a worker is gone.
pub open spec fn pollers_stopped(
    workspace: Workspace,
    project_key: Seq<char>,
    label: Seq<char>,
) -> Seq<String> {
    workspace.slack.running@.filter(is_idle_label(subs_kept(workspace, project_key, label)))
}

/// What the workspace knows of Slack once a worker is gone.
pub open spec fn slack_cleared(
    before: Workspace,
    after: SlackState,
    project_key: Seq<char>,
    label: Seq<char>,
) -> bool {
    &&& after == (SlackState {
        subs: after.subs,
        running: after.running,
        connected: after.connected,
        ..before.slack
    })
    &&& after.subs@ == subs_kept(before, project_key, label)
    &&& after.running@ == before.slack.running@.filter(is_watched_label(after.subs@))
    &&& after.connected@ == disconnected(
        before.slack.connected@,
        pollers_stopped(before, project_key, label),
    )
}

/// What is done about the records of a worker that is gone: its push
/// subscriptions, its Slack subscriptions, the pollers that nothing needs
/// any more, and its crons.
pub open spec fn record_actions(workspace: Workspace, project_key: String, label: String) -> Seq<
    Action,
> {
    seq![Action::RemoveGotifySubscriptions { project_key, label }] + subs_deleted(
        workspace,
        project_key@,
        label@,
    ) + pollers_stopped(workspace, project_key@, label@).map_values(
        |poller: String| Action::StopSlackWorkspace { label: poller },
    ) + seq![Action::DeleteCrons { project_key, label }]
}

/// Forget the records of a worker.
fn clear_worker_records(workspace: &mut Workspace, project_key: &String, label: &String) -> (
actions: Vec<Action>)
    requires
        old(workspace).wf(),
    ensures
        final(workspace).wf(),
        *final(workspace) == (Workspace { slack: final(workspace).slack, ..*old(workspace) }),
        slack_cleared(*old(workspace), final(workspace).slack, project_key@, label@),
        actions@ == record_actions(*old(workspace), *project_key, *label),
{
    let ghost before = *workspace;
    let mut actions: Vec<Action> = Vec::new();
    actions.push(
        Action::RemoveGotifySubscriptions {
            project_key: project_key.clone(),
            label: label.clone(),
        },
    );
    let mut deleted = workspace.remove_slack_subscriptions_for_worker(project_key, label);
    assert(deleted@ =~= subs_deleted(before, project_key@, label@));
    actions.append(&mut deleted);
    let mut stopped = workspace.stop_slack_subsystem_if_idle();
    actions.append(&mut stopped);
    actions.push(
        Action::DeleteCrons { project_key: project_key.clone(), label: label.clone() },
    );
    assert(actions@ =~= record_actions(before, *project_key, *label));
    actions
}

/// What is done when a worker is torn down, before what is parked for it
/// expires.
pub open spec fn teardown_actions(
    workspace: Workspace,
    project_key: String,
    label: String,
    slot: SessionSlot,
) -> Seq<Action> {
    seq![Action::DeleteWorkerRow { project_key, label }] + record_actions(
        workspace,
        project_key,
        label,
    ) + seq![
        Action::ReleaseSession { slot },
        Action::ExpireInflightForClosedWorker { project_key, label },
    ]
}

/// `after` is `before` once the worker at `i` was torn down with `actions`.
pub open spec fn torn_down(
    before: Workspace,
    after: Workspace,
    project_key: String,
    label: String,
    i: int,
    actions: Seq<Action>,
) -> bool {
    let slot = before.live_workers@[i].entry.slot;
    &&& after.wf()
    &&& after == (Workspace {
        live_workers: after.live_workers,
        slack: after.slack,
        parked: after.parked,
        ..before
    })
    &&& after.live_workers@ == before.live_workers@.remove(i)
    &&& slack_cleared(before, after.slack, project_key@, label@)
    &&& after.parked.at(slot@) == nothing_parked()
    &&& forall|other: SlotId|
        other != slot@ ==> #[trigger] after.parked.at(other) == before.parked.at(other)
    &&& actions.len() > 0
    &&& actions.drop_last() == teardown_actions(before, project_key, label, slot)
    &&& is_expiry(actions.last(), slot, before.parked.at(slot@))
}

/// What taking a worker down comes to.
pub open spec fn teardown_answered(
    before: Workspace,
    after: Workspace,
    project_key: String,
    label: String,
    removed: Option<(WorkerEntry, Vec<Action>)>,
) -> bool {
    match last_index(before.live_workers@, labelled(project_key@, label@)) {
        Some(i) => removed matches Some((entry, actions)) && entry == before.live_workers@[i].entry && torn_down(
            before,
            after,
            project_key,
            label,
            i,
            actions@,
        ),
        None => removed is None && after == before,
    }
}

/// Tear down the worker that was spawned last under `label`: it leaves the
/// workers, and its row, its records, its session and what waits for it go.
pub fn teardown_worker(workspace: &mut Workspace, project_key: &String, label: &String) -> (
removed: Option<(WorkerEntry, Vec<Action>)>)
    requires
        old(workspace).wf(),
    ensures
        final(workspace).wf(),
        teardown_answered(*old(workspace), *final(workspace), *project_key, *label, removed),
{
    let ghost before = *workspace;
    match workspace.live_workers.remove_latest_worker(project_key, label) {
        Some(entry) => {
            let mut actions: Vec<Action> = Vec::new();
            actions.push(
                Action::DeleteWorkerRow { project_key: project_key.clone(), label: label.clone() },
            );
            let ghost mid = *workspace;
            let mut records = clear_worker_records(workspace, project_key, label);
            assert(record_actions(mid, *project_key, *label) =~= record_actions(
                before,
                *project_key,
                *label,
            ));
            actions.append(&mut records);
            actions.push(Action::ReleaseSession { slot: entry.slot.clone() });
            actions.push(
                Action::ExpireInflightForClosedWorker {
                    project_key: project_key.clone(),
                    label: label.clone(),
                },
            );
            assert(actions@ =~= teardown_actions(before, *project_key, *label, entry.slot));
            let ghost so_far = actions@;
            let expiry = expire_parked_for_slot(workspace, &entry.slot);
            actions.push(expiry);
            assert(actions@.drop_last() =~= so_far);
            Some((entry, actions))
        },
        None => None,
    }
}

/// Announce a worker that was torn down.
pub fn emit_worker_removed(
    project_key: &String,
    entry: &WorkerEntry,
    worktree: WorktreeDisposition,
) -> (action: Action)
    ensures
        action == worker_news(*project_key, WorkerStatusAction::Removed, *entry, worktree),
{
    Action::Emit(
        SessionUpdate::WorkerStatusChanged {
            project_key: project_key.clone(),
            action: WorkerStatusAction::Removed,
            status: entry.to_status(),
            worktree,
        },
    )
}

/// What closing a worker comes to.
pub open spec fn close_answered(
    before: Workspace,
    after: Workspace,
    project_key: String,
    label: String,
    actions: Vec<Action>,
) -> bool {
    match last_index(before.live_workers@, labelled(project_key@, label@)) {
        Some(i) => {
            let entry = before.live_workers@[i].entry;
            &&& actions@.len() > 0
            &&& torn_down(
                before,
                after,
                project_key,
                label,
                i,
                actions@.drop_last(),
            )
            &&& actions@.last() == worker_news(
                project_key,
                WorkerStatusAction::Removed,
                entry,
                untouched(entry.is_git_repo_at_spawn),
            )
        },
        None => actions@.len() == 0 && after == before,
    }
}

/// Close the worker that was spawned last under `label`. Its worktree stays.
pub fn handle_close_worker(workspace: &mut Workspace, project_key: &String, label: &String) -> (
actions: Vec<Action>)
    requires
        old(workspace).wf(),
    ensures
        final(workspace).wf(),
        close_answered(*old(workspace), *final(workspace), *project_key, *label, actions),
{
    match teardown_worker(workspace, project_key, label) {
        Some((entry, torn)) => {
            let mut actions = torn;
            let ghost so_far = actions@;
            let worktree = WorktreeDisposition::untouched(entry.is_git_repo_at_spawn);
            actions.push(emit_worker_removed(project_key, &entry, worktree));
            assert(actions@.drop_last() =~= so_far);
            actions
        },
        None => Vec::new(),
    }
}

/// What a caller that despawned a worker is told.
#[derive(Debug, PartialEq, Eq)]
pub enum DespawnResult {
    NotFound,
    /// Whether there is such a worker is not known.
    Failed { reason: String },
    /// Its worktree holds work that would be lost. Nothing was done.
    Blocked { reason: String },
    Despawned {
        worktree_cleanup_warning: Option<String>,
        branch_cleanup_warning: Option<String>,
    },
}

/// A worker to despawn.
#[derive(Debug, PartialEq, Eq)]
pub struct DespawnPlan {
    pub project_key: String,
    pub label: String,
    pub is_git_repo: bool,
    /// Its entry; a stranded worker has a row alone.
    pub live: Option<WorkerEntry>,
    pub project: Option<ProjectView>,
    /// Where its worktree is, where it has one.
    pub worktree: Option<String>,
}

/// The first step of a despawn.
#[derive(Debug, PartialEq, Eq)]
pub enum DespawnStep {
    Done(DespawnResult),
    /// Look whether the worktree is dirty; go on with [`despawn_checked`].
    Check(DespawnPlan),
}

/// A later step of a despawn.
#[derive(Debug, PartialEq, Eq)]
pub enum DespawnTeardown {
    Done(DespawnResult),
    /// Delete the worker's row; go on with [`despawn_stranded`].
    DeleteRow,
    /// The worker is gone; see to its worktree, and go on with
    /// [`despawn_finished`].
    TornDown(Vec<Action>),
}

/// Where the worktree of a worker is: under its label in the directory
/// `worktrees`, below that of its project.
pub open spec fn worktree_path(root: Seq<char>, worktrees: Seq<char>, label: Seq<char>) -> Seq<
    char,
> {
    if root.len() == 0 || root.last() == '/' {
        root + worktrees + "/"@ + label
    } else {
        root + "/"@ + worktrees + "/"@ + label
    }
}

/// Where the worktree of a worker is.
pub fn worker_worktree_dir(root: &String, worktrees: &String, label: &String) -> (path: String)
    ensures
        path@ == worktree_path(root@, worktrees@, label@),
{
    let mut path = root.clone();
    let n = root.as_str().unicode_len();
    if n > 0 && root.as_str().get_char(n - 1) != '/' {
        path.append("/");
    }
    path.append(worktrees.as_str());
    path.append("/");
    path.append(label.as_str());
    path
}

/// Said of a row that cannot be read.
pub open spec fn unreadable_row_message(label: Seq<char>, error: Seq<char>) -> Seq<char> {
    "could not read the durable row for '"@ + label + "': "@ + error
        + "; whether one exists is unknown"@
}

/// Said of a row that cannot be deleted.
pub open spec fn undeletable_row_message(label: Seq<char>, error: Seq<char>) -> Seq<char> {
    "could not clear the durable row for '"@ + label + "': "@ + error
        + "; whether one exists is unknown, so nothing was reported as removed"@
}

/// `plan` is the despawn of a worker whose repository is one of git or not.
pub open spec fn plans(
    plan: DespawnPlan,
    workspace: Workspace,
    project_key: String,
    label: String,
    worktrees: Seq<char>,
    live: Option<WorkerEntry>,
    is_git_repo: bool,
) -> bool {
    &&& plan.project_key == project_key
    &&& plan.label == label
    &&& plan.live == live
    &&& plan.is_git_repo == is_git_repo
    &&& plan.project == workspace.project_keyed(project_key@)
    &&& match (is_git_repo, plan.project, plan.worktree) {
        (true, Some(project), Some(path)) => path@ == worktree_path(
            project.path@,
            worktrees,
            label@,
        ),
        (true, None, None) => true,
        (false, _, None) => true,
        _ => false,
    }
}

/// What a despawn begins with.
pub open spec fn despawn_planned(
    workspace: Workspace,
    project_key: String,
    label: String,
    worktrees: String,
    recorded: Result<Option<bool>, String>,
    step: DespawnStep,
) -> bool {
    if label@ == "lead"@ {
        step == DespawnStep::Done(DespawnResult::NotFound)
    } else {
        match last_match(workspace.live_workers@, labelled(project_key@, label@)) {
            Some(worker) => step matches DespawnStep::Check(plan) && plans(
                plan,
                workspace,
                project_key,
                label,
                worktrees@,
                Some(worker.entry),
                worker.entry.is_git_repo_at_spawn,
            ),
            None => match recorded {
                Err(error) => step matches DespawnStep::Done(DespawnResult::Failed { reason })
                    && reason@ == unreadable_row_message(label@, error@),
                Ok(None) => step == DespawnStep::Done(DespawnResult::NotFound),
                Ok(Some(is_git)) => step matches DespawnStep::Check(plan) && plans(
                    plan,
                    workspace,
                    project_key,
                    label,
                    worktrees@,
                    None,
                    is_git,
                ),
            },
        }
    }
}

/// Despawn the worker that was spawned last under `label`, or the one that
/// only its row is left of. `recorded` is what the row says of its
/// repository, and `worktrees` is where worktrees stand below a project's
/// directory. The lead is no worker.
pub fn handle_despawn_worker(
    workspace: &Workspace,
    project_key: &String,
    label: &String,
    worktrees: &String,
    recorded: &Result<Option<bool>, String>,
) -> (step: DespawnStep)
    ensures
        despawn_planned(*workspace, *project_key, *label, *worktrees, *recorded, step),
{
    let lead = "lead".to_owned();
    if *label == lead {
        return DespawnStep::Done(DespawnResult::NotFound);
    }
    let live = match workspace.live_workers.latest(project_key, label) {
        Some(entry) => Some(entry.clone()),
        None => None,
    };
    let is_git_repo = match &live {
        Some(entry) => entry.is_git_repo_at_spawn,
        None => match recorded {
            Ok(Some(is_git)) => *is_git,
            Ok(None) => {
                return DespawnStep::Done(DespawnResult::NotFound);
            },
            Err(error) => {
                let mut reason = "could not read the durable row for '".to_owned();
                reason.append(label.as_str());
                reason.append("': ");
                reason.append(error.as_str());
                reason.append("; whether one exists is unknown");
                return DespawnStep::Done(DespawnResult::Failed { reason });
            },
        },
    };
    let project = match workspace.project_for_key(project_key) {
        Some(project) => Some(project.clone()),
        None => None,
    };
    let worktree = if is_git_repo {
        match &project {
            Some(project) => Some(worker_worktree_dir(&project.path, worktrees, label)),
            None => None,
        }
    } else {
        None
    };
    DespawnStep::Check(
        DespawnPlan {
            project_key: project_key.clone(),
            label: label.clone(),
            is_git_repo,
            live,
            project,
            worktree,
        },
    )
}

/// What a despawn does once the worktree was looked at.
pub open spec fn despawn_answered(
    before: Workspace,
    after: Workspace,
    plan: DespawnPlan,
    force: bool,
    dirty: Option<String>,
    step: DespawnTeardown,
) -> bool {
    if !force && dirty is Some {
        after == before && step == DespawnTeardown::Done(
            DespawnResult::Blocked { reason: dirty->0 },
        )
    } else if plan.live is None {
        after == before && step == DespawnTeardown::DeleteRow
    } else {
        match last_index(
            before.live_workers@,
            labelled(plan.project_key@, plan.label@),
        ) {
            Some(i) => step matches DespawnTeardown::TornDown(actions) && torn_down(
                before,
                after,
                plan.project_key,
                plan.label,
                i,
                actions@,
            ),
            None => after == before && step == DespawnTeardown::Done(
                DespawnResult::NotFound,
            ),
        }
    }
}

/// Tear the worker down, unless its worktree is dirty. `force` takes a dirty
/// one as well. Only the row of a stranded worker is left to delete.
pub fn despawn_checked(
    workspace: &mut Workspace,
    plan: &DespawnPlan,
    force: bool,
    dirty: Option<String>,
) -> (step: DespawnTeardown)
    requires
        old(workspace).wf(),
    ensures
        final(workspace).wf(),
        despawn_answered(*old(workspace), *final(workspace), *plan, force, dirty, step),
{
    if !force {
        match dirty {
            Some(reason) => {
                return DespawnTeardown::Done(DespawnResult::Blocked { reason });
            },
            None => {},
        }
    }
    match &plan.live {
        None => DespawnTeardown::DeleteRow,
        Some(_) => match teardown_worker(workspace, &plan.project_key, &plan.label) {
            Some((_, actions)) => DespawnTeardown::TornDown(actions),
            None => DespawnTeardown::Done(DespawnResult::NotFound),
        },
    }
}

/// What is done about a stranded worker whose row is gone, before what is
/// parked for it expires.
pub open spec fn stranded_actions(workspace: Workspace, project_key: String, label: String) -> Seq<
    Action,
> {
    record_actions(workspace, project_key, label).push(
        Action::ExpireInflightForClosedWorker { project_key, label },
    )
}

/// What a despawn does where the worker has a row alone.
pub open spec fn stranded_answered(
    before: Workspace,
    after: Workspace,
    plan: DespawnPlan,
    deleted: Result<bool, String>,
    step: DespawnTeardown,
) -> bool {
    match deleted {
        Ok(true) => {
            &&& step matches DespawnTeardown::TornDown(actions)
            &&& after == (Workspace {
                slack: after.slack,
                parked: after.parked,
                ..before
            })
            &&& slack_cleared(
                before,
                after.slack,
                plan.project_key@,
                plan.label@,
            )
            &&& match plan.project {
                Some(project) => {
                    let slot = worker_slot(project.org, project.name, plan.label);
                    &&& actions@.len() > 0
                    &&& actions@.drop_last() == stranded_actions(
                        before,
                        plan.project_key,
                        plan.label,
                    )
                    &&& is_expiry(actions@.last(), slot, before.parked.at(slot@))
                    &&& after.parked.at(slot@) == nothing_parked()
                    &&& forall|other: SlotId|
                        other != slot@ ==> #[trigger] after.parked.at(other) == before.parked.at(other)
                },
                None => actions@ == stranded_actions(
                    before,
                    plan.project_key,
                    plan.label,
                ) && after.parked == before.parked,
            }
        },
        Ok(false) => after == before && step == DespawnTeardown::Done(
            DespawnResult::NotFound,
        ),
        Err(error) => after == before && (step matches DespawnTeardown::Done(
            DespawnResult::Failed { reason },
        ) && reason@ == undeletable_row_message(plan.label@, error@)),
    }
}

/// Clear what a stranded worker owned, once its row is gone. `deleted` is
/// what became of the row; without it nothing is cleared.
pub fn despawn_stranded(
    workspace: &mut Workspace,
    plan: &DespawnPlan,
    deleted: Result<bool, String>,
) -> (step: DespawnTeardown)
    requires
        old(workspace).wf(),
    ensures
        final(workspace).wf(),
        stranded_answered(*old(workspace), *final(workspace), *plan, deleted, step),
{
    match deleted {
        Ok(true) => {},
        Ok(false) => {
            return DespawnTeardown::Done(DespawnResult::NotFound);
        },
        Err(error) => {
            let mut reason = "could not clear the durable row for '".to_owned();
            reason.append(plan.label.as_str());
            reason.append("': ");
            reason.append(error.as_str());
            reason.append("; whether one exists is unknown, so nothing was reported as removed");
            return DespawnTeardown::Done(DespawnResult::Failed { reason });
        },
    }
    let ghost before = *workspace;
    let mut actions = clear_worker_records(workspace, &plan.project_key, &plan.label);
    actions.push(
        Action::ExpireInflightForClosedWorker {
            project_key: plan.project_key.clone(),
            label: plan.label.clone(),
        },
    );
    assert(actions@ =~= stranded_actions(before, plan.project_key, plan.label));
    let ghost so_far = actions@;
    match &plan.project {
        Some(project) => {
            let slot = SessionSlot::worker(&project.org, &project.name, &plan.label);
            let expiry = expire_parked_for_slot(workspace, &slot);
            actions.push(expiry);
            assert(actions@.drop_last() =~= so_far);
        },
        None => {},
    }
    DespawnTeardown::TornDown(actions)
}

/// What is to be removed of a despawned worker's worktree.
pub open spec fn removal_planned(
    plan: DespawnPlan,
    worktree_exists: bool,
    path: Option<String>,
) -> bool {
    path == if plan.live is None && !worktree_exists {
        None
    } else {
        plan.worktree
    }
}

/// The worktree to remove. That of a stranded worker may be gone already;
/// that of a worker that was up is asked for all the same.
pub fn despawn_removal(plan: &DespawnPlan, worktree_exists: bool) -> (path: Option<String>)
    ensures
        removal_planned(*plan, worktree_exists, path),
{
    match &plan.live {
        None => if worktree_exists {
            clone_option(&plan.worktree)
        } else {
            None
        },
        Some(_) => clone_option(&plan.worktree),
    }
}

/// What became of the branch that a worker's worktree was made on.
#[derive(Debug, PartialEq, Eq)]
pub enum BranchReapOutcome {
    Reaped,
    NotPresent,
    /// It holds commits that nothing else does.
    Kept { count: u64, tip: String },
    KeptOnError { reason: String },
    DeleteFailed { reason: String },
}

/// The branch that a worker's worktree is made on, whatever it has checked
/// out since.
pub open spec fn worktree_branch(label: Seq<char>) -> Seq<char> {
    "worktree-"@ + label
}

/// The branch that a worker's worktree is made on.
pub fn worker_branch(label: &String) -> (branch: String)
    ensures
        branch@ == worktree_branch(label@),
{
    let mut branch = "worktree-".to_owned();
    branch.append(label.as_str());
    branch
}

/// What is said of a branch that was left in place.
pub open spec fn branch_warning(label: Seq<char>, outcome: BranchReapOutcome) -> Option<Seq<char>> {
    let branch = worktree_branch(label);
    match outcome {
        BranchReapOutcome::Reaped => None,
        BranchReapOutcome::NotPresent => None,
        BranchReapOutcome::Kept { count, tip } => Some(
            "branch '"@ + branch + "' kept: "@ + decimal(count as nat) + (if count == 1 {
                " commit"@
            } else {
                " commits"@
            }) + " reachable from no other ref (tip "@ + tip@ + "). Inspect with 'git log -"@
                + decimal(count as nat) + " "@ + tip@ + "', then 'git branch -D "@ + branch
                + "' once it has landed."@,
        ),
        BranchReapOutcome::KeptOnError { reason } => Some(
            "branch '"@ + branch + "' kept: could not verify it holds no unique commits ("@
                + reason@ + "). Check 'git log "@ + branch + "' and delete it by hand."@,
        ),
        BranchReapOutcome::DeleteFailed { reason } => Some(
            "branch '"@ + branch + "' holds no unique commits, but the delete failed ("@ + reason@
                + "). Retry with 'git branch -D "@ + branch + "'."@,
        ),
    }
}

/// What is said of a branch that was left in place; nothing of one that is
/// gone.
pub fn reap_worker_branch(label: &String, outcome: &BranchReapOutcome) -> (warning: Option<String>)
    ensures
        match (warning, branch_warning(label@, *outcome)) {
            (Some(warning), Some(text)) => warning@ == text,
            (None, None) => true,
            _ => false,
        },
{
    let branch = worker_branch(label);
    let mut warning = "branch '".to_owned();
    warning.append(branch.as_str());
    match outcome {
        BranchReapOutcome::Reaped => None,
        BranchReapOutcome::NotPresent => None,
        BranchReapOutcome::Kept { count, tip } => {
            warning.append("' kept: ");
            warning.append(decimal_text(*count).as_str());
            if *count == 1 {
                warning.append(" commit");
            } else {
                warning.append(" commits");
            }
            warning.append(" reachable from no other ref (tip ");
            warning.append(tip.as_str());
            warning.append("). Inspect with 'git log -");
            warning.append(decimal_text(*count).as_str());
            warning.append(" ");
            warning.append(tip.as_str());
            warning.append("', then 'git branch -D ");
            warning.append(branch.as_str());
            warning.append("' once it has landed.");
            Some(warning)
        },
        BranchReapOutcome::KeptOnError { reason } => {
            warning.append("' kept: could not verify it holds no unique commits (");
            warning.append(reason.as_str());
            warning.append("). Check 'git log ");
            warning.append(branch.as_str());
            warning.append("' and delete it by hand.");
            Some(warning)
        },
        BranchReapOutcome::DeleteFailed { reason } => {
            warning.append("' holds no unique commits, but the delete failed (");
            warning.append(reason.as_str());
            warning.append("). Retry with 'git branch -D ");
            warning.append(branch.as_str());
            warning.append("'.");
            Some(warning)
        },
    }
}

/// What became of a worker's worktree.
#[derive(Debug, PartialEq, Eq)]
pub enum WorktreeRemoval {
    /// There was none to remove.
    Nothing,
    Removed {
        /// What became of the branch it was made on.
        reap: Option<BranchReapOutcome>,
        /// What it had checked out, where that is known.
        branch: Option<String>,
        /// That branch is still there.
        branch_exists: bool,
    },
    Failed { error: String },
}

/// What is said of the worktree once the worker is gone. `exists` is whether
/// the directory is still there: what git answers does not settle that.
pub open spec fn despawn_disposition(
    plan: DespawnPlan,
    removal: WorktreeRemoval,
    exists: bool,
) -> WorktreeDisposition {
    if plan.worktree is None {
        untouched(plan.is_git_repo)
    } else if removal is Failed && exists {
        WorktreeDisposition::RemovalFailed
    } else {
        WorktreeDisposition::Removed
    }
}

/// The reviews that go with a worktree: those of the branch it had checked
/// out, once that branch is gone.
pub open spec fn reviews_orphaned(plan: DespawnPlan, removal: WorktreeRemoval) -> Seq<Action> {
    match (removal, plan.project) {
        (
            WorktreeRemoval::Removed { branch: Some(branch), branch_exists: false, .. },
            Some(project),
        ) => seq![Action::DeleteBranchReviewState { project: project.name, branch }],
        _ => Seq::empty(),
    }
}

/// What a despawn reports at its end.
pub open spec fn despawn_reported(
    plan: DespawnPlan,
    removal: WorktreeRemoval,
    worktree_exists: bool,
    outcome: (Vec<Action>, DespawnResult),
) -> bool {
    &&& outcome.0@ == reviews_orphaned(plan, removal) + match plan.live {
        Some(entry) => seq![
            worker_news(
                plan.project_key,
                WorkerStatusAction::Removed,
                entry,
                despawn_disposition(plan, removal, worktree_exists),
            ),
        ],
        None => Seq::<Action>::empty(),
    }
    &&& outcome.1 matches DespawnResult::Despawned {
        worktree_cleanup_warning,
        branch_cleanup_warning,
    } && worktree_cleanup_warning == (match removal {
        WorktreeRemoval::Failed { error } => Some(error),
        _ => None,
    }) && match removal {
        WorktreeRemoval::Removed { reap: Some(reap), .. } => match (
            branch_cleanup_warning,
            branch_warning(plan.label@, reap),
        ) {
            (Some(warning), Some(text)) => warning@ == text,
            (None, None) => true,
            _ => false,
        },
        _ => branch_cleanup_warning is None,
    }
}

/// Finish a despawn: forget the reviews of a branch that is gone, announce a
/// worker that was up, and answer the caller.
pub fn despawn_finished(plan: &DespawnPlan, removal: &WorktreeRemoval, worktree_exists: bool) -> (
outcome: (Vec<Action>, DespawnResult))
    ensures
        despawn_reported(*plan, *removal, worktree_exists, outcome),
{
    let mut actions: Vec<Action> = Vec::new();
    let mut worktree_cleanup_warning: Option<String> = None;
    let mut branch_cleanup_warning: Option<String> = None;
    match removal {
        WorktreeRemoval::Nothing => {},
        WorktreeRemoval::Removed { reap, branch, branch_exists } => {
            match reap {
                Some(reap) => {
                    branch_cleanup_warning = reap_worker_branch(&plan.label, reap);
                },
                None => {},
            }
            match (branch, &plan.project) {
                (Some(branch), Some(project)) => {
                    if !*branch_exists {
                        actions.push(
                            Action::DeleteBranchReviewState {
                                project: project.name.clone(),
                                branch: branch.clone(),
                            },
                        );
                    }
                },
                _ => {},
            }
        },
        WorktreeRemoval::Failed { error } => {
            worktree_cleanup_warning = Some(error.clone());
        },
    }
    assert(actions@ =~= reviews_orphaned(*plan, *removal));
    let failed = match removal {
        WorktreeRemoval::Failed { .. } => true,
        _ => false,
    };
    let worktree = match &plan.worktree {
        None => WorktreeDisposition::untouched(plan.is_git_repo),
        Some(_) => if failed && worktree_exists {
            WorktreeDisposition::RemovalFailed
        } else {
            WorktreeDisposition::Removed
        },
    };
    match &plan.live {
        Some(entry) => {
            actions.push(emit_worker_removed(&plan.project_key, entry, worktree));
        },
        None => {},
    }
    assert(actions@ =~= reviews_orphaned(*plan, *removal) + match plan.live {
        Some(entry) => seq![
            worker_news(
                plan.project_key,
                WorkerStatusAction::Removed,
                entry,
                despawn_disposition(*plan, *removal, worktree_exists),
            ),
        ],
        None => Seq::<Action>::empty(),
    });
    (actions, DespawnResult::Despawned { worktree_cleanup_warning, branch_cleanup_warning })
}

/// A Slack subscription is the worker's: it is of the worker's project, and of
/// its label.
pub open spec fn belongs_to(
    sub: SlackSubscription,
    project: ProjectView,
    label: Seq<char>,
) -> bool {
    sub.project@ == project.name@ && (sub.team_role matches Some(role) && role@ == label)
}

/// Clearing a worker's records asks for its push subscriptions and its crons
/// to go, for every Slack subscription of its own and no other, and for every
/// poller that nothing is left to watch for.
pub proof fn a_workers_records_are_cleared(workspace: Workspace, project_key: String, label: String)
    ensures
        ({
            let actions = record_actions(workspace, project_key, label);
            &&& actions.contains(Action::RemoveGotifySubscriptions { project_key, label })
            &&& actions.contains(Action::DeleteCrons { project_key, label })
            &&& (workspace.project_keyed(project_key@) matches Some(project) ==> forall|i: int|
                0 <= i < workspace.slack.subs@.len() && belongs_to(
                    #[trigger] workspace.slack.subs@[i],
                    project,
                    label@,
                ) ==> actions.contains(
                    Action::DeleteSlackSubscription { id: workspace.slack.subs@[i].id },
                ))
            &&& forall|k: int|
                0 <= k < actions.len() ==> (#[trigger] actions[k] matches
                    Action::DeleteSlackSubscription { id } ==> (workspace.project_keyed(
                    project_key@,
                ) matches Some(project) && exists|i: int|
                    0 <= i < workspace.slack.subs@.len() && belongs_to(
                        #[trigger] workspace.slack.subs@[i],
                        project,
                        label@,
                    ) && workspace.slack.subs@[i].id == id))
        }),
{
    let actions = record_actions(workspace, project_key, label);
    let gone = subs_deleted(workspace, project_key@, label@);
    let stop = pollers_stopped(workspace, project_key@, label@).map_values(
        |poller: String| Action::StopSlackWorkspace { label: poller },
    );
    assert(actions[0] == (Action::RemoveGotifySubscriptions { project_key, label }));
    assert(actions[actions.len() - 1] == (Action::DeleteCrons { project_key, label }));
    assert forall|k: int| 0 <= k < gone.len() implies actions[1 + k] == gone[k] by {}
    assert forall|k: int| 0 <= k < stop.len() implies actions[1 + gone.len() + k] == stop[k] by {}
    if workspace.project_keyed(project_key@) is Some {
        let project = workspace.project_keyed(project_key@)->0;
        let p = owned_by_worker(project.name@, label@);
        let kept = workspace.slack.subs@.filter(p);
        crate::seqs::lemma_filter_keeps(workspace.slack.subs@, p);
        assert forall|i: int|
            0 <= i < workspace.slack.subs@.len() && belongs_to(
                #[trigger] workspace.slack.subs@[i],
                project,
                label@,
            ) implies actions.contains(
            Action::DeleteSlackSubscription { id: workspace.slack.subs@[i].id },
        ) by {
            let sub = workspace.slack.subs@[i];
            assert(p(sub));
            crate::seqs::lemma_filter_holds(workspace.slack.subs@, p, i);
            let k = choose|k: int| 0 <= k < kept.len() && kept[k] == sub;
            assert(gone[k] == (Action::DeleteSlackSubscription { id: sub.id }));
            assert(actions[1 + k] == gone[k]);
        }
    }
    assert forall|k: int| 0 <= k < actions.len() implies (#[trigger] actions[k] matches
        Action::DeleteSlackSubscription { id } ==> (workspace.project_keyed(
        project_key@,
    ) matches Some(project) && exists|i: int|
        0 <= i < workspace.slack.subs@.len() && belongs_to(
            #[trigger] workspace.slack.subs@[i],
            project,
            label@,
        ) && workspace.slack.subs@[i].id == id)) by {
        if actions[k] is DeleteSlackSubscription {
            if k == 0 || k == actions.len() - 1 {
            } else if k - 1 < gone.len() {
                assert(actions[k] == gone[k - 1]);
                let project = workspace.project_keyed(project_key@)->0;
                let p = owned_by_worker(project.name@, label@);
                let kept = workspace.slack.subs@.filter(p);
                let sub = kept[k - 1];
                assert(p(sub));
                let i = choose|i: int|
                    0 <= i < workspace.slack.subs@.len() && workspace.slack.subs@[i] == sub;
                assert(belongs_to(workspace.slack.subs@[i], project, label@));
            } else {
                assert(actions[k] == stop[k - 1 - gone.len()]);
            }
        }
    }
}

/// Clearing a worker's Slack subscriptions leaves every other one where it
/// was, and none of the worker's. A poller runs on exactly where a
/// subscription of its workspace is left; one that stops is asked to.
pub proof fn a_workers_slack_is_cleared(
    before: Workspace,
    after: SlackState,
    project_key: String,
    label: String,
    project: ProjectView,
)
    requires
        slack_cleared(before, after, project_key@, label@),
        before.project_keyed(project_key@) == Some(project),
    ensures
        forall|i: int|
            0 <= i < after.subs@.len() ==> !belongs_to(#[trigger] after.subs@[i], project, label@)
                && before.slack.subs@.contains(after.subs@[i]),
        forall|i: int|
            0 <= i < before.slack.subs@.len() && !belongs_to(
                #[trigger] before.slack.subs@[i],
                project,
                label@,
            ) ==> after.subs@.contains(before.slack.subs@[i]),
        forall|i: int|
            #![trigger before.slack.running@[i]]
            0 <= i < before.slack.running@.len() ==> {
                let name = before.slack.running@[i];
                let left = exists|k: int|
                    0 <= k < after.subs@.len() && (#[trigger] after.subs@[k]).workspace@ == name@;
                &&& left ==> after.running@.contains(name)
                &&& !left ==> !after.running@.contains(name) && record_actions(
                    before,
                    project_key,
                    label,
                ).contains(Action::StopSlackWorkspace { label: name })
            },
        after.drafts == before.slack.drafts,
        after.delivered == before.slack.delivered,
{
    let p = owned_by_worker(project.name@, label@);
    let q = not_owned_by_worker(project.name@, label@);
    let subs = before.slack.subs@;
    crate::seqs::lemma_filter_keeps(subs, q);
    assert forall|i: int| 0 <= i < after.subs@.len() implies !belongs_to(
        #[trigger] after.subs@[i],
        project,
        label@,
    ) && subs.contains(after.subs@[i]) by {
        assert(q(after.subs@[i]));
        assert(!p(after.subs@[i]));
    }
    assert forall|i: int|
        0 <= i < subs.len() && !belongs_to(#[trigger] subs[i], project, label@) implies after.subs@.contains(
    subs[i]) by {
        assert(q(subs[i]));
        crate::seqs::lemma_filter_holds(subs, q, i);
    }
    let running = before.slack.running@;
    let on = is_watched_label(after.subs@);
    let off = is_idle_label(after.subs@);
    crate::seqs::lemma_filter_keeps(running, on);
    let stopped = pollers_stopped(before, project_key@, label@);
    let stop = stopped.map_values(|poller: String| Action::StopSlackWorkspace { label: poller });
    let gone = subs_deleted(before, project_key@, label@);
    let actions = record_actions(before, project_key, label);
    assert forall|i: int|
        #![trigger running[i]]
        0 <= i < running.len() implies {
        let name = running[i];
        let left = exists|k: int|
            0 <= k < after.subs@.len() && (#[trigger] after.subs@[k]).workspace@ == name@;
        &&& left ==> after.running@.contains(name)
        &&& !left ==> !after.running@.contains(name) && actions.contains(
            Action::StopSlackWorkspace { label: name },
        )
    } by {
        let name = running[i];
        let left = exists|k: int|
            0 <= k < after.subs@.len() && (#[trigger] after.subs@[k]).workspace@ == name@;
        let w = crate::slack::in_workspace(name@);
        if left {
            let k = choose|k: int|
                0 <= k < after.subs@.len() && (#[trigger] after.subs@[k]).workspace@ == name@;
            assert(w(after.subs@[k]));
            assert(on(name));
            crate::seqs::lemma_filter_holds(running, on, i);
        } else {
            if any(after.subs@, w) {
                let k = choose|k: int| 0 <= k < after.subs@.len() && w(#[trigger] after.subs@[k]);
                assert(after.subs@[k].workspace@ == name@);
            }
            assert(off(name));
            crate::seqs::lemma_filter_holds(running, off, i);
            let k = choose|k: int| 0 <= k < stopped.len() && stopped[k] == name;
            assert(stop[k] == (Action::StopSlackWorkspace { label: name }));
            assert(actions[1 + gone.len() + k] == stop[k]);
        }
    }
}

/// Where a live worker is taken down, all that was its own is asked to go: its
/// row, its push subscriptions, its crons, its own Slack subscriptions, its
/// session, the questions that wait for it, and last what was parked for it.
/// Nothing is parked for it then, and no other worker is touched.
pub proof fn a_teardown_takes_all_that_was_the_workers(
    before: Workspace,
    after: Workspace,
    project_key: String,
    label: String,
    removed: Option<(WorkerEntry, Vec<Action>)>,
    i: int,
)
    requires
        teardown_answered(before, after, project_key, label, removed),
        latest_at(before.live_workers@, project_key@, label@, i),
    ensures
        removed matches Some((entry, actions)) && {
            let worker = before.live_workers@[i].entry;
            &&& entry == worker
            &&& actions@.contains(Action::DeleteWorkerRow { project_key, label })
            &&& actions@.contains(Action::RemoveGotifySubscriptions { project_key, label })
            &&& actions@.contains(Action::DeleteCrons { project_key, label })
            &&& actions@.contains(Action::ReleaseSession { slot: worker.slot })
            &&& actions@.contains(Action::ExpireInflightForClosedWorker { project_key, label })
            &&& (before.project_keyed(project_key@) matches Some(project) ==> forall|k: int|
                0 <= k < before.slack.subs@.len() && belongs_to(
                    #[trigger] before.slack.subs@[k],
                    project,
                    label@,
                ) ==> actions@.contains(
                    Action::DeleteSlackSubscription { id: before.slack.subs@[k].id },
                ))
            &&& actions@.last() matches Action::ExpireParked { slot, parked }
            &&& slot == worker.slot
            &&& parked@ == before.parked.at(worker.slot@)
            &&& after.parked.at(worker.slot@).peer.len() == 0
            &&& after.parked.at(worker.slot@).cron.len() == 0
            &&& after.parked.at(worker.slot@).gotify.len() == 0
            &&& after.parked.at(worker.slot@).slack.len() == 0
            &&& forall|other: SlotId|
                other != worker.slot@ ==> #[trigger] after.parked.at(other) == before.parked.at(
                    other,
                )
            &&& after.live_workers@.len() == before.live_workers@.len() - 1
            &&& forall|k: int|
                0 <= k < i ==> #[trigger] after.live_workers@[k] == before.live_workers@[k]
            &&& forall|k: int|
                i <= k < after.live_workers@.len() ==> #[trigger] after.live_workers@[k]
                    == before.live_workers@[k + 1]
            &&& after.projects == before.projects
            &&& after.pool == before.pool
            &&& after.sessions == before.sessions
        },
{
    crate::seqs::lemma_last_index_is(before.live_workers@, labelled(project_key@, label@), i);
    let actions = (removed->0).1@;
    let slot = before.live_workers@[i].entry.slot;
    let all = teardown_actions(before, project_key, label, slot);
    let records = record_actions(before, project_key, label);
    let n = records.len() as int;
    a_workers_records_are_cleared(before, project_key, label);
    assert(actions.drop_last() == all);
    assert(all.len() == n + 3);
    lemma_records_among(actions, all, records);
    assert(actions[0] == actions.drop_last()[0]);
    assert(actions[n + 1] == actions.drop_last()[n + 1]);
    assert(actions[n + 2] == actions.drop_last()[n + 2]);
}

/// What stands among a worker's records stands among all that is asked for.
proof fn lemma_records_among(actions: Seq<Action>, all: Seq<Action>, records: Seq<Action>)
    requires
        actions.len() > 0,
        actions.drop_last() == all,
        all.len() >= records.len() + 1,
        forall|k: int| 0 <= k < records.len() ==> all[k + 1] == #[trigger] records[k],
    ensures
        forall|action: Action| #[trigger] records.contains(action) ==> actions.contains(action),
{
    assert forall|action: Action| #[trigger] records.contains(action) implies actions.contains(
        action,
    ) by {
        let k = choose|k: int| 0 <= k < records.len() && records[k] == action;
        assert(all[k + 1] == action);
        assert(actions[k + 1] == actions.drop_last()[k + 1]);
    }
}

/// Where no worker bears the label there is nobody to take down, and nothing
/// changes; closing such a one asks for nothing either.
pub proof fn nobody_is_taken_down_under_a_free_label(
    before: Workspace,
    after: Workspace,
    project_key: String,
    label: String,
    removed: Option<(WorkerEntry, Vec<Action>)>,
    closed: Workspace,
    actions: Vec<Action>,
)
    requires
        teardown_answered(before, after, project_key, label, removed),
        close_answered(before, closed, project_key, label, actions),
        nobody_bears(before.live_workers@, project_key@, label@),
    ensures
        removed is None,
        after == before,
        closed == before,
        actions@.len() == 0,
{
    a_found_worker_bears_its_label(before.live_workers@, project_key@, label@, 0);
}

/// A closed worker is taken down like any other, and last of all it is said
/// that it is gone, with its report; its worktree is left alone.
pub proof fn a_close_takes_the_worker_down_and_tells(
    before: Workspace,
    after: Workspace,
    project_key: String,
    label: String,
    actions: Vec<Action>,
    i: int,
)
    requires
        close_answered(before, after, project_key, label, actions),
        latest_at(before.live_workers@, project_key@, label@, i),
    ensures
        ({
            let worker = before.live_workers@[i].entry;
            &&& actions@.contains(Action::DeleteWorkerRow { project_key, label })
            &&& actions@.contains(Action::RemoveGotifySubscriptions { project_key, label })
            &&& actions@.contains(Action::DeleteCrons { project_key, label })
            &&& actions@.contains(Action::ReleaseSession { slot: worker.slot })
            &&& actions@.contains(Action::ExpireInflightForClosedWorker { project_key, label })
            &&& after.live_workers@ == before.live_workers@.remove(i)
            &&& actions@.last() matches Action::Emit(
                SessionUpdate::WorkerStatusChanged { project_key: k, action, status, worktree },
            )
            &&& k == project_key
            &&& action == WorkerStatusAction::Removed
            &&& status.label == worker.label
            &&& status.slot == worker.slot
            &&& status.session_id == worker.session_id
            &&& worker.is_git_repo_at_spawn ==> worktree == WorktreeDisposition::Intact
            &&& !worker.is_git_repo_at_spawn ==> worktree == WorktreeDisposition::Absent
        }),
{
    crate::seqs::lemma_last_index_is(before.live_workers@, labelled(project_key@, label@), i);
    let torn = actions@.drop_last();
    let slot = before.live_workers@[i].entry.slot;
    let all = teardown_actions(before, project_key, label, slot);
    let records = record_actions(before, project_key, label);
    let n = records.len() as int;
    a_workers_records_are_cleared(before, project_key, label);
    assert(torn.drop_last() == all);
    assert(all.len() == n + 3);
    lemma_records_among(torn, all, records);
    assert(torn[0] == torn.drop_last()[0]);
    assert(torn[n + 1] == torn.drop_last()[n + 1]);
    assert(torn[n + 2] == torn.drop_last()[n + 2]);
    assert forall|action: Action| #[trigger] torn.contains(action) implies actions@.contains(
        action,
    ) by {
        let k = choose|k: int| 0 <= k < torn.len() && torn[k] == action;
        assert(actions@[k] == torn[k]);
    }
    assert(torn.contains(Action::RemoveGotifySubscriptions { project_key, label }));
    assert(torn.contains(Action::DeleteCrons { project_key, label }));
    assert(torn.contains(Action::DeleteWorkerRow { project_key, label }));
    assert(torn.contains(Action::ReleaseSession { slot }));
    assert(torn.contains(Action::ExpireInflightForClosedWorker { project_key, label }));
}

/// A worker is admitted exactly where its project is known, no other worker of
/// the project that has not failed bears its label, and the project's cap is
/// not reached. The cap is the project's own or the default; a boot that
/// brings a worker back knows none. A refusal changes nothing.
pub proof fn a_worker_is_admitted_under_the_cap(
    before: Workspace,
    after: Workspace,
    project_key: String,
    args: WorkerSpawnArgs,
    spawned_by: SessionSlot,
    session_id: String,
    is_resume: bool,
    from_boot_respawn: bool,
    is_git: bool,
    now: u64,
    step: SpawnWorkerStep,
)
    requires
        spawn_asked(
            before,
            after,
            project_key,
            args,
            spawned_by,
            session_id,
            is_resume,
            from_boot_respawn,
            is_git,
            now,
            step,
        ),
        before.live_workers@.len() <= usize::MAX,
    ensures
        step is Record <==> (before.project_keyed(project_key@) matches Some(project)
            && nobody_up_bears(before.live_workers@, project_key@, args.label@) && (
        from_boot_respawn || before.live_workers@.filter(
            |w: LiveWorker|
                w.project_key@ == project_key@ && w.entry.status != WorkerLiveness::Failed,
        ).len() < (match project.max_workers {
            Some(cap) => cap,
            None => 2,
        }))),
        step is Refused ==> after == before,
        step matches SpawnWorkerStep::Refused(reply) ==> reply@.len() > 0,
{
    a_worker_is_refused_for_its_label_or_the_cap(
        before.live_workers@,
        project_key@,
        args.label@,
        None,
    );
    reveal_strlit("project not found: ");
    reveal_strlit("a worker labeled '");
    reveal_strlit("worker limit reached: project '");
    if before.project_keyed(project_key@) is Some {
        let project = before.project_keyed(project_key@)->0;
        a_worker_is_refused_for_its_label_or_the_cap(
            before.live_workers@,
            project_key@,
            args.label@,
            spawn_cap(project, from_boot_respawn),
        );
    }
}

/// An admitted worker is added behind the others, starting, in the seat of its
/// label in its project, as it was asked for; nothing else changes. What is
/// recorded is that same worker.
pub proof fn an_admitted_worker_is_what_was_asked_for(
    before: Workspace,
    after: Workspace,
    project_key: String,
    args: WorkerSpawnArgs,
    spawned_by: SessionSlot,
    session_id: String,
    is_resume: bool,
    from_boot_respawn: bool,
    is_git: bool,
    now: u64,
    step: SpawnWorkerStep,
)
    requires
        spawn_asked(
            before,
            after,
            project_key,
            args,
            spawned_by,
            session_id,
            is_resume,
            from_boot_respawn,
            is_git,
            now,
            step,
        ),
    ensures
        step matches SpawnWorkerStep::Record(pending) ==> {
            let n = before.live_workers@.len() as int;
            let entry = pending.entry;
            &&& after == (Workspace { live_workers: after.live_workers, ..before })
            &&& after.live_workers@.len() == n + 1
            &&& after.live_workers@.take(n) == before.live_workers@
            &&& after.live_workers@[n].project_key == project_key
            &&& after.live_workers@[n].entry == entry
            &&& entry.label == args.label
            &&& entry.charter == args.charter
            &&& entry.kick == args.kick
            &&& entry.session_id == Some(session_id)
            &&& entry.status == WorkerLiveness::Spawning
            &&& entry.spawned_at == now
            &&& entry.spawned_by == spawned_by
            &&& entry.needs_tag == !is_resume
            &&& entry.is_git_repo_at_spawn == is_git
            &&& entry.diagnostic is None
            &&& entry.slot.label == Some(args.label)
            &&& (before.project_keyed(project_key@) matches Some(project) && entry.slot.org
                == project.org && entry.slot.project == project.name)
            &&& pending.project_key == project_key
            &&& pending.session_id == session_id
            &&& pending.resume_kick == args.resume_kick
            &&& pending.interactive == args.interactive
            &&& pending.is_resume == is_resume
            &&& pending.from_boot_respawn == from_boot_respawn
        },
{
    let n = before.live_workers@.len() as int;
    if step is Record {
        assert(after.live_workers@.take(n) =~= before.live_workers@);
    }
}

/// A worker that is asked for runs under the id it resumes, or under a fresh
/// one, and is otherwise admitted and refused as under any id.
pub proof fn a_worker_runs_under_its_id_or_a_fresh_one(
    before: Workspace,
    after: Workspace,
    project_key: String,
    args: WorkerSpawnArgs,
    spawned_by: SessionSlot,
    resume_existing: Option<String>,
    from_boot_respawn: bool,
    is_git: bool,
    now: u64,
    step: SpawnWorkerStep,
)
    requires
        spawn_answered(
            before,
            after,
            project_key,
            args,
            spawned_by,
            resume_existing,
            from_boot_respawn,
            is_git,
            now,
            step,
        ),
    ensures
        exists|id: String|
            {
                &&& #[trigger] spawn_asked(
                    before,
                    after,
                    project_key,
                    args,
                    spawned_by,
                    id,
                    resume_existing is Some,
                    from_boot_respawn,
                    is_git,
                    now,
                    step,
                )
                &&& resume_existing matches Some(resumed) ==> id == resumed
                &&& resume_existing is None && step is Record ==> is_fresh_id(id@)
            },
{
    let id = match (step, resume_existing) {
        (SpawnWorkerStep::Record(pending), _) => pending.session_id,
        (_, Some(resumed)) => resumed,
        _ => project_key,
    };
    assert(spawn_asked(
        before,
        after,
        project_key,
        args,
        spawned_by,
        id,
        resume_existing is Some,
        from_boot_respawn,
        is_git,
        now,
        step,
    ));
}

/// What is stored of a worker is what brings it back: its project, its label,
/// its id and its charter. A resumed one does not store its first turn again.
pub proof fn a_stored_worker_can_be_brought_back(pending: PendingSpawn)
    ensures
        row_of(pending).project_key == pending.project_key,
        row_of(pending).label == pending.entry.label,
        row_of(pending).session_id == pending.session_id,
        row_of(pending).charter == pending.entry.charter,
        row_of(pending).resume_kick == pending.resume_kick,
        row_of(pending).interactive == pending.interactive,
        row_of(pending).is_git_repo == pending.entry.is_git_repo_at_spawn,
        pending.is_resume ==> row_of(pending).kick is None,
        !pending.is_resume ==> row_of(pending).kick == pending.entry.kick,
{
}

/// A worker is announced as added, with its report. It is launched in its own
/// seat, with its charter, as the worker of its label; its row is its spawn's
/// own exactly where it neither resumes nor comes from a boot. A row that could
/// not be written is told of.
pub proof fn a_worker_is_launched_as_itself(
    pending: PendingSpawn,
    recorded: Result<(), String>,
    launch: SpawnWorkerLaunch,
)
    requires
        spawn_announced(pending, recorded, launch),
    ensures
        launch.action matches Action::Emit(
            SessionUpdate::WorkerStatusChanged { project_key, action, status, worktree },
        ) && project_key == pending.project_key && action == WorkerStatusAction::Added
            && status.label == pending.entry.label && status.slot == pending.entry.slot
            && status.status == pending.entry.status && status.session_id
            == pending.entry.session_id && (worktree == WorktreeDisposition::Intact
            <==> pending.entry.is_git_repo_at_spawn),
        launch.durability_warning is Some <==> recorded is Err,
        pending.is_resume ==> launch.request.target == SessionTarget::Session(pending.entry.slot),
        !pending.is_resume ==> launch.request.target == (SessionTarget::FreshInProject {
            slot: pending.entry.slot,
        }),
        launch.request.settings.charter == Some(pending.entry.charter),
        launch.request.role matches SpawnRole::Worker { label, wrote_row } && label
            == pending.entry.label && (wrote_row <==> !pending.is_resume
            && !pending.from_boot_respawn),
        launch.request.settings.settings is None,
        launch.request.key is None,
        ({
            let args = launch.request.settings.extra_args@;
            &&& args.len() == if pending.entry.is_git_repo_at_spawn {
                2int
            } else {
                1
            }
            &&& pending.entry.is_git_repo_at_spawn ==> args[0].0@ == "worktree"@ && (
            args[0].1 matches Some(given) && given@ == pending.entry.label@)
            &&& args.last().0@ == "disallowedTools"@
            &&& args.last().1 matches Some(given)
            &&& pending.interactive ==> given@ == "EnterWorktree,ExitWorktree"@
            &&& !pending.interactive ==> given@ == "EnterWorktree,ExitWorktree"@
                + ",AskUserQuestion"@
        }),
        recorded matches Err(error) ==> (launch.durability_warning matches Some(warning)
            && is_within(error@, warning@)),
{
    if recorded is Err {
        what_is_said_of_a_row_holds_the_reason(Seq::empty(), recorded->Err_0@);
    }
}

/// A worker whose agent started is left as it is, and answered with its id and
/// its tag. One whose agent did not is taken out again, the last under its
/// label; its row goes where its spawn wrote it, and only there, and it is
/// told as removed. The reason is answered.
pub proof fn a_failed_launch_is_rolled_back(
    before: Workspace,
    after: Workspace,
    pending: PendingSpawn,
    durability_warning: Option<String>,
    spawned: Result<Option<String>, String>,
    outcome: (Vec<Action>, Result<WorkerSpawnReply, String>),
    i: int,
)
    requires
        spawn_settled(before, after, pending, durability_warning, spawned, outcome),
        latest_at(before.live_workers@, pending.project_key@, pending.entry.label@, i),
    ensures
        spawned matches Ok(account) ==> {
            &&& after == before
            &&& outcome.0@.len() == 0
            &&& outcome.1 matches Ok(reply)
            &&& reply.session_id == pending.session_id
            &&& reply.rate_limited_account == account
            &&& reply.durability_warning == durability_warning
            &&& reply.tag@ == "forge:worker:"@ + pending.entry.label@
        },
        spawned matches Err(reason) ==> {
            let worker = before.live_workers@[i].entry;
            &&& outcome.1 matches Err(reply)
            &&& reply@ == "agent spawn failed: "@ + reason@
            &&& after == (Workspace { live_workers: after.live_workers, ..before })
            &&& after.live_workers@ == before.live_workers@.remove(i)
            &&& outcome.0@.contains(
                Action::DeleteWorkerRow {
                    project_key: pending.project_key,
                    label: pending.entry.label,
                },
            ) <==> !pending.is_resume && !pending.from_boot_respawn
            &&& outcome.0@.last() matches Action::Emit(
                SessionUpdate::WorkerStatusChanged { project_key, action, status, worktree },
            )
            &&& project_key == pending.project_key
            &&& action == WorkerStatusAction::Removed
            &&& worktree == WorktreeDisposition::Absent
            &&& status.label == worker.label
            &&& status.slot == worker.slot
        },
{
    crate::seqs::lemma_last_index_is(
        before.live_workers@,
        labelled(pending.project_key@, pending.entry.label@),
        i,
    );
    if spawned is Err {
        let row = Action::DeleteWorkerRow {
            project_key: pending.project_key,
            label: pending.entry.label,
        };
        if pending.minted_row() {
            assert(outcome.0@[0] == row);
        }
    }
}

/// A worktree stands under the project's root, in the directory of worktrees,
/// under the worker's label, with one separator between them.
pub proof fn a_worktree_stands_under_the_root(
    root: Seq<char>,
    worktrees: Seq<char>,
    label: Seq<char>,
)
    ensures
        ({
            let path = worktree_path(root, worktrees, label);
            let n = path.len() - label.len();
            let m = n - 1 - worktrees.len();
            &&& path.skip(n) == label
            &&& path[n - 1] == '/'
            &&& path.subrange(m, n - 1) == worktrees
            &&& path.take(root.len() as int) == root
            &&& m == root.len() <==> root.len() == 0 || root.last() == '/'
            &&& m == root.len() || (m == root.len() + 1 && path[m - 1] == '/')
        }),
{
    reveal_strlit("/");
    let path = worktree_path(root, worktrees, label);
    let n = path.len() - label.len();
    let m = n - 1 - worktrees.len();
    assert(path.skip(n) =~= label);
    assert(path.subrange(m, n - 1) =~= worktrees);
    assert(path.take(root.len() as int) =~= root);
}

/// A despawn goes for the live worker that was spawned last under the label,
/// and for a stored one where none is live. The lead cannot be despawned; one
/// that is neither live nor stored is not found, and a store that cannot be
/// read is told of.
pub proof fn a_despawn_finds_its_worker(
    workspace: Workspace,
    project_key: String,
    label: String,
    worktrees: String,
    recorded: Result<Option<bool>, String>,
    step: DespawnStep,
    i: int,
)
    requires
        despawn_planned(workspace, project_key, label, worktrees, recorded, step),
    ensures
        label@ == "lead"@ ==> step == DespawnStep::Done(DespawnResult::NotFound),
        label@ != "lead"@ && latest_at(workspace.live_workers@, project_key@, label@, i) ==> {
            let worker = workspace.live_workers@[i].entry;
            &&& step matches DespawnStep::Check(plan)
            &&& plan.project_key == project_key
            &&& plan.label == label
            &&& plan.live == Some(worker)
            &&& plan.is_git_repo == worker.is_git_repo_at_spawn
            &&& plan.project == workspace.project_keyed(project_key@)
            &&& plan.worktree is Some <==> worker.is_git_repo_at_spawn && workspace.project_keyed(
                project_key@,
            ) is Some
        },
        label@ != "lead"@ && nobody_bears(workspace.live_workers@, project_key@, label@)
            ==> match recorded {
            Ok(Some(is_git)) => {
                &&& step matches DespawnStep::Check(plan)
                &&& plan.project_key == project_key
                &&& plan.label == label
                &&& plan.live is None
                &&& plan.is_git_repo == is_git
                &&& plan.project == workspace.project_keyed(project_key@)
                &&& plan.worktree is Some <==> is_git && workspace.project_keyed(
                    project_key@,
                ) is Some
            },
            Ok(None) => step == DespawnStep::Done(DespawnResult::NotFound),
            Err(_) => step matches DespawnStep::Done(DespawnResult::Failed { .. }),
        },
        step matches DespawnStep::Check(plan) ==> (plan.worktree matches Some(path) ==> (
        plan.project matches Some(project) && path@ == worktree_path(
            project.path@,
            worktrees@,
            label@,
        ))),
{
    a_found_worker_bears_its_label(workspace.live_workers@, project_key@, label@, i);
}

/// A worktree with work in it blocks a despawn unless it is forced, and then
/// nothing changes. Otherwise a live worker is taken down, and for one with a
/// row alone that row is to be deleted.
pub proof fn only_force_despawns_over_unsaved_work(
    before: Workspace,
    after: Workspace,
    plan: DespawnPlan,
    force: bool,
    dirty: Option<String>,
    step: DespawnTeardown,
    i: int,
)
    requires
        despawn_answered(before, after, plan, force, dirty, step),
    ensures
        dirty matches Some(reason) ==> !force ==> after == before && step
            == DespawnTeardown::Done(DespawnResult::Blocked { reason }),
        (force || dirty is None) && plan.live is None ==> after == before && step
            == DespawnTeardown::DeleteRow,
        (force || dirty is None) && plan.live is Some && latest_at(
            before.live_workers@,
            plan.project_key@,
            plan.label@,
            i,
        ) ==> (step matches DespawnTeardown::TornDown(actions) && after.live_workers@
            == before.live_workers@.remove(i) && actions@.contains(
            Action::DeleteWorkerRow { project_key: plan.project_key, label: plan.label },
        ) && actions@.contains(
            Action::ReleaseSession { slot: before.live_workers@[i].entry.slot },
        ) && actions@.contains(
            Action::DeleteCrons { project_key: plan.project_key, label: plan.label },
        ) && actions@.contains(
            Action::RemoveGotifySubscriptions {
                project_key: plan.project_key,
                label: plan.label,
            },
        ) && actions@.contains(
            Action::ExpireInflightForClosedWorker {
                project_key: plan.project_key,
                label: plan.label,
            },
        )),
        (force || dirty is None) && plan.live is Some && nobody_bears(
            before.live_workers@,
            plan.project_key@,
            plan.label@,
        ) ==> after == before && step == DespawnTeardown::Done(DespawnResult::NotFound),
{
    let workers = before.live_workers@;
    a_found_worker_bears_its_label(workers, plan.project_key@, plan.label@, i);
    if (force || dirty is None) && plan.live is Some && latest_at(
        workers,
        plan.project_key@,
        plan.label@,
        i,
    ) {
        crate::seqs::lemma_last_index_is(workers, labelled(plan.project_key@, plan.label@), i);
        if let DespawnTeardown::TornDown(list) = step {
            let removed = Some((workers[i].entry, list));
            a_teardown_takes_all_that_was_the_workers(
                before,
                after,
                plan.project_key,
                plan.label,
                removed,
                i,
            );
        }
    }
}

/// Where a worker had a row alone and the row is gone, all else that was its
/// own is asked to go, with what was parked in its seat. Where there was no
/// row it is not found; where the row could not be deleted that is told, and
/// nothing is cleared.
pub proof fn a_stranded_worker_is_cleared_away(
    before: Workspace,
    after: Workspace,
    plan: DespawnPlan,
    deleted: Result<bool, String>,
    step: DespawnTeardown,
)
    requires
        stranded_answered(before, after, plan, deleted, step),
    ensures
        deleted == Ok::<bool, String>(true) ==> (step matches DespawnTeardown::TornDown(actions) && {
            &&& actions@.contains(
                Action::RemoveGotifySubscriptions {
                    project_key: plan.project_key,
                    label: plan.label,
                },
            )
            &&& actions@.contains(
                Action::DeleteCrons { project_key: plan.project_key, label: plan.label },
            )
            &&& actions@.contains(
                Action::ExpireInflightForClosedWorker {
                    project_key: plan.project_key,
                    label: plan.label,
                },
            )
            &&& (before.project_keyed(plan.project_key@) matches Some(project) ==> forall|k: int|
                0 <= k < before.slack.subs@.len() && belongs_to(
                    #[trigger] before.slack.subs@[k],
                    project,
                    plan.label@,
                ) ==> actions@.contains(
                    Action::DeleteSlackSubscription { id: before.slack.subs@[k].id },
                ))
            &&& after.live_workers == before.live_workers
            &&& plan.project matches Some(project) ==> {
                let seat = SessionSlot {
                    org: project.org,
                    project: project.name,
                    label: Some(plan.label),
                };
                &&& actions@.last() matches Action::ExpireParked { slot, parked }
                &&& slot == seat
                &&& parked@ == before.parked.at(seat@)
                &&& after.parked.at(seat@).peer.len() == 0
                &&& after.parked.at(seat@).cron.len() == 0
                &&& after.parked.at(seat@).gotify.len() == 0
                &&& after.parked.at(seat@).slack.len() == 0
            }
        }),
        deleted == Ok::<bool, String>(false) ==> after == before && step == DespawnTeardown::Done(
            DespawnResult::NotFound,
        ),
        deleted is Err ==> after == before && (step matches DespawnTeardown::Done(
            DespawnResult::Failed { .. },
        )),
{
    if deleted == Ok::<bool, String>(true) {
        if let DespawnTeardown::TornDown(list) = step {
            let actions = list@;
            let records = record_actions(before, plan.project_key, plan.label);
            let all = stranded_actions(before, plan.project_key, plan.label);
            let n = records.len() as int;
            a_workers_records_are_cleared(before, plan.project_key, plan.label);
            if plan.project is Some {
                assert(actions.drop_last() == all);
            }
            assert forall|k: int| 0 <= k <= n implies #[trigger] actions[k] == all[k] by {
                if plan.project is Some {
                    assert(actions[k] == actions.drop_last()[k]);
                }
            }
            assert(actions[n] == all[n]);
            assert forall|action: Action| #[trigger] records.contains(action) implies actions.contains(
            action) by {
                let k = choose|k: int| 0 <= k < records.len() && records[k] == action;
                assert(actions[k] == all[k]);
            }
        }
    }
}

/// A despawned worker is told as removed, with what became of its worktree: a
/// worktree that was not removed and is still there is told as such, one that
/// is gone as removed, and one that was never there as it was. The reviews of
/// a branch that was checked out and is gone are forgotten, and no others. A
/// failed removal is told with its reason.
pub proof fn a_despawn_tells_what_became_of_the_worktree(
    plan: DespawnPlan,
    removal: WorktreeRemoval,
    worktree_exists: bool,
    outcome: (Vec<Action>, DespawnResult),
)
    requires
        despawn_reported(plan, removal, worktree_exists, outcome),
    ensures
        ({
            let actions = outcome.0@;
            let orphaned = removal matches WorktreeRemoval::Removed {
                branch: Some(branch),
                branch_exists: false,
                ..
            } && plan.project is Some;
            &&& (plan.live matches Some(entry) ==> {
                &&& actions.len() == if orphaned {
                    2int
                } else {
                    1
                }
                &&& actions.last() matches Action::Emit(
                    SessionUpdate::WorkerStatusChanged { project_key, action, status, worktree },
                )
                &&& project_key == plan.project_key
                &&& action == WorkerStatusAction::Removed
                &&& status.label == entry.label
                &&& status.slot == entry.slot
                &&& worktree == WorktreeDisposition::RemovalFailed <==> plan.worktree is Some
                    && removal is Failed && worktree_exists
                &&& worktree == WorktreeDisposition::Removed <==> plan.worktree is Some && !(removal
                    is Failed && worktree_exists)
                &&& worktree == WorktreeDisposition::Intact <==> plan.worktree is None
                    && plan.is_git_repo
                &&& worktree == WorktreeDisposition::Absent <==> plan.worktree is None
                    && !plan.is_git_repo
            })
            &&& plan.live is None ==> actions.len() == if orphaned {
                1int
            } else {
                0
            }
            &&& (removal matches WorktreeRemoval::Removed {
                branch: Some(branch),
                branch_exists: false,
                ..
            } ==> plan.project matches Some(project) ==> actions[0] == (
            Action::DeleteBranchReviewState { project: project.name, branch }))
            &&& outcome.1 matches DespawnResult::Despawned {
                worktree_cleanup_warning,
                branch_cleanup_warning,
            }
            &&& (removal matches WorktreeRemoval::Failed { error } ==> worktree_cleanup_warning
                == Some(error))
            &&& !(removal is Failed) ==> worktree_cleanup_warning is None
            &&& branch_cleanup_warning is Some <==> (removal matches WorktreeRemoval::Removed {
                reap: Some(reap),
                ..
            } && !(reap is Reaped) && !(reap is NotPresent))
        }),
{
}

/// A branch that was kept is warned of by its name, with its tip or the
/// reason; one that is gone, or was never there, is not.
pub proof fn a_kept_branch_is_warned_of(label: Seq<char>, outcome: BranchReapOutcome)
    ensures
        ({
            let head = "branch '"@ + ("worktree-"@ + label);
            match (outcome, branch_warning(label, outcome)) {
                (BranchReapOutcome::Reaped, warning) => warning is None,
                (BranchReapOutcome::NotPresent, warning) => warning is None,
                (_, None) => false,
                (_, Some(warning)) => {
                    &&& warning.take(head.len() as int) == head
                    &&& (outcome matches BranchReapOutcome::Kept { count, tip }
                        ==> is_within(tip@, warning))
                    &&& (outcome matches BranchReapOutcome::KeptOnError { reason }
                        ==> is_within(reason@, warning))
                    &&& (outcome matches BranchReapOutcome::DeleteFailed { reason }
                        ==> is_within(reason@, warning))
                },
            }
        }),
{
    let branch = worktree_branch(label);
    let head = "branch '"@ + ("worktree-"@ + label);
    if branch_warning(label, outcome) is Some {
        let warning = branch_warning(label, outcome)->0;
        match outcome {
            BranchReapOutcome::Kept { count, tip } => {
                let mid = decimal(count as nat) + (if count == 1 {
                    " commit"@
                } else {
                    " commits"@
                });
                let front = "branch '"@ + branch + "' kept: "@ + mid
                    + " reachable from no other ref (tip "@;
                let back = "). Inspect with 'git log -"@ + decimal(count as nat) + " "@ + tip@
                    + "', then 'git branch -D "@ + branch + "' once it has landed."@;
                assert(warning =~= front + tip@ + back);
            },
            BranchReapOutcome::KeptOnError { reason } => {
                let front = "branch '"@ + branch
                    + "' kept: could not verify it holds no unique commits ("@;
                let back = "). Check 'git log "@ + branch + "' and delete it by hand."@;
                assert(warning =~= front + reason@ + back);
            },
            BranchReapOutcome::DeleteFailed { reason } => {
                let front = "branch '"@ + branch
                    + "' holds no unique commits, but the delete failed ("@;
                let back = "). Retry with 'git branch -D "@ + branch + "'."@;
                assert(warning =~= front + reason@ + back);
            },
            _ => {},
        }
        assert(warning.take(head.len() as int) =~= head);
    }
}

/// Where no project has the key, no Slack subscription is touched and none is
/// deleted.
pub proof fn without_a_project_no_subscription_goes(
    before: Workspace,
    after: SlackState,
    project_key: String,
    label: String,
)
    requires
        slack_cleared(before, after, project_key@, label@),
        before.project_keyed(project_key@) is None,
    ensures
        after.subs@ == before.slack.subs@,
        subs_deleted(before, project_key@, label@).len() == 0,
{
}

/// A poller that stops with a worker is told as disconnected, and every other
/// workspace as it was.
pub proof fn a_stopped_poller_is_disconnected(
    before: Workspace,
    after: SlackState,
    project_key: String,
    label: String,
    i: int,
)
    requires
        slack_cleared(before, after, project_key@, label@),
        0 <= i < before.slack.running@.len(),
    ensures
        ({
            let name = before.slack.running@[i]@;
            let left = exists|k: int|
                0 <= k < after.subs@.len() && (#[trigger] after.subs@[k]).workspace@ == name;
            &&& !left ==> after.connected@.dom().contains(name) && !after.connected@[name]
            &&& left ==> after.connected@.dom().contains(name)
                == before.slack.connected@.dom().contains(name)
            &&& left && before.slack.connected@.dom().contains(name) ==> after.connected@[name]
                == before.slack.connected@[name]
        }),
{
    let running = before.slack.running@;
    let name = running[i]@;
    let off = is_idle_label(after.subs@);
    let stopped = pollers_stopped(before, project_key@, label@);
    crate::slack::what_is_stopped_is_disconnected(before.slack.connected@, stopped, name);
    crate::slack::a_watched_workspace_has_a_subscription(after.subs@, running, name);
    crate::seqs::lemma_filter_keeps(running, off);
    if off(running[i]) {
        crate::seqs::lemma_filter_holds(running, off, i);
        let k = choose|k: int| 0 <= k < stopped.len() && stopped[k] == running[i];
        assert(stopped[k]@ == name);
    } else {
        assert forall|k: int| 0 <= k < stopped.len() implies (#[trigger] stopped[k])@ != name by {
            assert(off(stopped[k]));
        }
    }
}

/// A failed launch of a worker that is there no more asks for its row alone to
/// go, where its spawn wrote it, and takes nobody out.
pub proof fn a_failed_launch_without_its_worker_takes_nobody_out(
    before: Workspace,
    after: Workspace,
    pending: PendingSpawn,
    durability_warning: Option<String>,
    reason: String,
    outcome: (Vec<Action>, Result<WorkerSpawnReply, String>),
)
    requires
        spawn_settled(before, after, pending, durability_warning, Err(reason), outcome),
        nobody_bears(before.live_workers@, pending.project_key@, pending.entry.label@),
    ensures
        after.live_workers@ == before.live_workers@,
        pending.is_resume || pending.from_boot_respawn ==> outcome.0@.len() == 0,
        !pending.is_resume && !pending.from_boot_respawn ==> outcome.0@.len() == 1 && outcome.0@[0]
            == (Action::DeleteWorkerRow {
            project_key: pending.project_key,
            label: pending.entry.label,
        }),
{
    a_found_worker_bears_its_label(
        before.live_workers@,
        pending.project_key@,
        pending.entry.label@,
        0,
    );
}

/// A refusal says which project is not known, or which label is taken and by
/// which session, or how many workers the project has and may have.
pub proof fn a_refusal_says_why(
    project: Seq<char>,
    label: Seq<char>,
    existing: Seq<char>,
    live: nat,
    cap: nat,
)
    ensures
        is_within(project, no_project_message(project)),
        is_within(label, label_live_message(label, existing)),
        is_within(existing, label_live_message(label, existing)),
        is_within(project, limit_message(project, live, cap)),
        is_within(
            decimal(live) + (if live == 1 {
                " worker "@
            } else {
                " workers "@
            }),
            limit_message(project, live, cap),
        ),
        is_within(" is "@ + decimal(cap) + " "@, limit_message(project, live, cap)),
{
    let none = Seq::<char>::empty();
    assert(no_project_message(project) =~= "project not found: "@ + project + none);
    let tail = "); message it with workers__tell / workers__ask or close it first (one live worker per label)"@;
    assert(label_live_message(label, existing) =~= "a worker labeled '"@ + label + (
    "' is already live (session "@ + existing + tail));
    assert(label_live_message(label, existing) =~= ("a worker labeled '"@ + label
        + "' is already live (session "@) + existing + tail);
    reveal_strlit(" worker");
    reveal_strlit(" workers");
    reveal_strlit(" worker ");
    reveal_strlit(" workers ");
    reveal_strlit(" live and its cap is ");
    reveal_strlit(" is ");
    reveal_strlit(" ");
    reveal_strlit(" (the project's max_workers in forge.toml, default ");
    let noun = if live == 1 {
        " worker"@
    } else {
        " workers"@
    };
    let spaced = if live == 1 {
        " worker "@
    } else {
        " workers "@
    };
    let caps = " live and its cap is "@;
    let note = " (the project's max_workers in forge.toml, default "@;
    let rest = decimal(DEFAULT_MAX_WORKERS_PER_PROJECT as nat)
        + "); despawn one first, or raise/remove max_workers"@;
    let front = "worker limit reached: project '"@ + project + "' has "@;
    let whole = limit_message(project, live, cap);
    assert(whole =~= "worker limit reached: project '"@ + project + ("' has "@ + decimal(live)
        + noun + caps + decimal(cap) + note + rest));
    assert(noun + caps =~= spaced + caps.skip(1));
    assert(whole =~= front + (decimal(live) + spaced) + (caps.skip(1) + decimal(cap) + note
        + rest));
    assert(caps =~= caps.take(caps.len() - 4) + " is "@);
    assert(note =~= " "@ + note.skip(1));
    assert(whole =~= (front + decimal(live) + noun + caps.take(caps.len() - 4)) + (" is "@
        + decimal(cap) + " "@) + (note.skip(1) + rest));
}

/// What is said of a row that could not be read, deleted or written names the
/// worker and holds the reason.
pub proof fn what_is_said_of_a_row_holds_the_reason(label: Seq<char>, reason: Seq<char>)
    ensures
        is_within(reason, durability_message(reason)),
        is_within(label, unreadable_row_message(label, reason)),
        is_within(reason, unreadable_row_message(label, reason)),
        is_within(label, undeletable_row_message(label, reason)),
        is_within(reason, undeletable_row_message(label, reason)),
{
    let a = "could not read the durable row for '"@;
    let b = "could not clear the durable row for '"@;
    let x = "; whether one exists is unknown"@;
    let y = "; whether one exists is unknown, so nothing was reported as removed"@;
    assert(durability_message(reason) =~= "recording this worker for durability failed ("@ + reason
        + "); it will not survive a forge restart"@);
    assert(unreadable_row_message(label, reason) =~= a + label + ("': "@ + reason + x));
    assert(unreadable_row_message(label, reason) =~= (a + label + "': "@) + reason + x);
    assert(undeletable_row_message(label, reason) =~= b + label + ("': "@ + reason + y));
    assert(undeletable_row_message(label, reason) =~= (b + label + "': "@) + reason + y);
}

/// Whether a worker starts in a repository is known from its row where the row
/// says so, and is looked up in the project's directory otherwise; for a
/// project that is not known it is refused.
pub proof fn a_row_knows_its_repository(
    workspace: Workspace,
    project_key: String,
    recorded: Result<Option<bool>, String>,
    gitness: Result<Gitness, String>,
)
    requires
        gitness_known(workspace, project_key, recorded, gitness),
    ensures
        gitness is Err <==> workspace.project_keyed(project_key@) is None,
        gitness matches Err(reply) ==> is_within(project_key@, reply@),
        gitness matches Ok(Gitness::Recorded(is_git)) ==> (recorded matches Ok(Some(said)) && said
            == is_git),
        gitness matches Ok(Gitness::Probe(path)) ==> !(recorded matches Ok(Some(_))) && (
        workspace.project_keyed(project_key@) matches Some(project) && path == project.path),
{
    a_refusal_says_why(project_key@, Seq::empty(), Seq::empty(), 0, 0);
}

/// The worktree of a live worker is removed, and that of a worker with a row
/// alone where it is still there; a worker without one has none to remove.
pub proof fn a_worktree_that_is_there_is_removed(
    plan: DespawnPlan,
    worktree_exists: bool,
    path: Option<String>,
)
    requires
        removal_planned(plan, worktree_exists, path),
    ensures
        plan.live is Some ==> path == plan.worktree,
        worktree_exists ==> path == plan.worktree,
        plan.live is None && !worktree_exists ==> path is None,
        plan.worktree is None ==> path is None,
{
}

/// A refused worker is told why: that its project is not known, that its label
/// is taken, or else that the limit is reached, and of which project.
pub proof fn a_refused_worker_is_told_why(
    before: Workspace,
    after: Workspace,
    project_key: String,
    args: WorkerSpawnArgs,
    spawned_by: SessionSlot,
    session_id: String,
    is_resume: bool,
    from_boot_respawn: bool,
    is_git: bool,
    now: u64,
    reply: String,
)
    requires
        spawn_asked(
            before,
            after,
            project_key,
            args,
            spawned_by,
            session_id,
            is_resume,
            from_boot_respawn,
            is_git,
            now,
            SpawnWorkerStep::Refused(reply),
        ),
        before.live_workers@.len() <= usize::MAX,
    ensures
        before.project_keyed(project_key@) is None ==> reply@ == "project not found: "@
            + project_key@,
        before.project_keyed(project_key@) is Some && !nobody_up_bears(
            before.live_workers@,
            project_key@,
            args.label@,
        ) ==> {
            let head = "a worker labeled '"@ + args.label@ + "' is already live (session "@;
            reply@.take(head.len() as int) == head
        },
        before.project_keyed(project_key@) is Some && nobody_up_bears(
            before.live_workers@,
            project_key@,
            args.label@,
        ) ==> {
            let head = "worker limit reached: project '"@ + project_key@ + "' has "@ + decimal(
                before.live_workers@.filter(
                    |w: LiveWorker|
                        w.project_key@ == project_key@ && w.entry.status != WorkerLiveness::Failed,
                ).len(),
            );
            reply@.take(head.len() as int) == head
        },
{
    if before.project_keyed(project_key@) is Some {
        let project = before.project_keyed(project_key@)->0;
        let cap = spawn_cap(project, from_boot_respawn);
        let workers = before.live_workers@;
        a_worker_is_refused_for_its_label_or_the_cap(workers, project_key@, args.label@, cap);
        a_found_worker_bears_its_label(workers, project_key@, args.label@, 0);
        if nobody_up_bears(workers, project_key@, args.label@) {
            let live = workers.filter(
                |w: LiveWorker|
                    w.project_key@ == project_key@ && w.entry.status != WorkerLiveness::Failed,
            ).len();
            let head = "worker limit reached: project '"@ + project_key@ + "' has "@ + decimal(
                live,
            );
            assert(reply@.take(head.len() as int) =~= head);
        } else {
            let head = "a worker labeled '"@ + args.label@ + "' is already live (session "@;
            assert(reply@.take(head.len() as int) =~= head);
        }
    }
}

/// A despawn that fails on the store says which worker it was and why.
pub proof fn a_despawn_that_fails_says_why(
    workspace: Workspace,
    after: Workspace,
    plan: DespawnPlan,
    worktrees: String,
    error: String,
    step: DespawnStep,
    teardown: DespawnTeardown,
)
    requires
        despawn_planned(workspace, plan.project_key, plan.label, worktrees, Err(error), step),
        stranded_answered(workspace, after, plan, Err(error), teardown),
    ensures
        step matches DespawnStep::Done(DespawnResult::Failed { reason }) ==> is_within(
            plan.label@,
            reason@,
        ) && is_within(error@, reason@),
        teardown matches DespawnTeardown::Done(DespawnResult::Failed { reason }) && is_within(
            plan.label@,
            reason@,
        ) && is_within(error@, reason@),
{
    what_is_said_of_a_row_holds_the_reason(plan.label@, error@);
}

} // verus!
