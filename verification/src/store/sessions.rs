//! Which session stands under which organisation, project and label.
//!
//! A project's lead has its row under [`LEAD_LABEL`], a worker under its own
//! label. The row is what a worker is spawned again from at the next boot.

use super::db::{are_rows3, bare, fits_in_key, has_context, key3, refuses_key, Db, StoreError};
use super::dynamic_workers::DynamicWorker;
use super::rows::{decoded, keep_decoded};
use crate::seqs::{
    any, first_index, first_match, lemma_filter_ends, lemma_filter_keeps, lemma_filter_step,
    lemma_first_exists, lemma_first_index_is,
};
use crate::slot::clone_option;
use vstd::prelude::*;

verus! {

/// The table's name.
pub const SESSIONS: &'static str = "sessions";

/// The label of a project's lead.
pub const LEAD_LABEL: &'static str = "lead";

/// What is kept of a session. A lead has none of the fields after its id.
#[derive(Debug, PartialEq, Eq)]
pub struct SessionRecord {
    pub org: String,
    pub project: String,
    pub label: String,
    /// The session to resume.
    pub session_id: Option<String>,
    pub charter: Option<String>,
    pub kick: Option<String>,
    pub resume_kick: Option<String>,
    pub interactive: Option<bool>,
    /// Whether the worker runs in a worktree.
    pub is_git_repo: Option<bool>,
}

/// A configured project: its catalog key, and what its rows are kept under.
#[derive(Debug, PartialEq, Eq)]
pub struct ProjectIdentity {
    pub key: String,
    pub org: String,
    pub name: String,
}

/// What a sweep of the retired table accounted for.
#[derive(Debug, Clone, Copy, PartialEq, Eq, Structural)]
pub struct SweepOutcome {
    /// Rows that now stand among the sessions, and no longer in the table.
    pub moved: usize,
    /// Rows of a project that is no longer configured, left in place.
    pub unkeyable: usize,
    /// Rows that the table held when the sweep began.
    pub rows: usize,
}

impl SweepOutcome {
    /// Nothing is left in the retired table, so that it can be dropped.
    pub fn drained(&self) -> (drained: bool)
        ensures
            drained == (self.moved == self.rows),
    {
        self.moved == self.rows
    }
}

/// A row without what its worker is told.
#[derive(Debug, PartialEq, Eq)]
pub struct WorkerRowIndex {
    pub org: String,
    pub project: String,
    pub label: String,
    pub session_id: Option<String>,
    pub is_git_repo: Option<bool>,
}

/// What [`worker_row_index`] reads of a row.
#[derive(Debug, PartialEq, Eq)]
pub struct RowStart {
    pub session_id: Option<String>,
    pub is_git_repo: Option<bool>,
}

impl Clone for SessionRecord {
    fn clone(&self) -> (copy: Self)
        ensures
            copy == *self,
    {
        SessionRecord {
            org: self.org.clone(),
            project: self.project.clone(),
            label: self.label.clone(),
            session_id: clone_option(&self.session_id),
            charter: clone_option(&self.charter),
            kick: clone_option(&self.kick),
            resume_kick: clone_option(&self.resume_kick),
            interactive: self.interactive,
            is_git_repo: self.is_git_repo,
        }
    }
}

/// An id that is an empty text is no id.
pub open spec fn real_id(id: Option<String>) -> Option<String> {
    match id {
        Some(text) => if text@.len() == 0 {
            None
        } else {
            id
        },
        None => None,
    }
}

fn keep_real_id(id: Option<String>) -> (kept: Option<String>)
    ensures
        kept == real_id(id),
{
    match id {
        Some(text) => {
            if text.as_str().is_empty() {
                None
            } else {
                Some(text)
            }
        },
        None => None,
    }
}

/// A record as it is read: an id that is an empty text is no id.
pub open spec fn read_as(record: SessionRecord) -> SessionRecord {
    SessionRecord { session_id: real_id(record.session_id), ..record }
}

/// What a stored record reads as.
pub fn decode(record: SessionRecord) -> (read: SessionRecord)
    ensures
        read == read_as(record),
{
    let mut record = record;
    record.session_id = keep_real_id(record.session_id);
    record
}

/// The bytes of a session's row.
pub fn get(db: &Db, org: &str, project: &str, label: &str) -> (row: Result<
    Option<Vec<u8>>,
    StoreError,
>)
    ensures
        row matches Ok(Some(value)) ==> db.rows().dom().contains(
            key3(SESSIONS@, org@, project@, label@),
        ) && db.rows()[key3(SESSIONS@, org@, project@, label@)] == value@,
        row matches Ok(None) ==> !db.rows().dom().contains(
            key3(SESSIONS@, org@, project@, label@),
        ),
        !(fits_in_key(org@) && fits_in_key(project@)) ==> refuses_key(row),
        has_context(row) <==> !(fits_in_key(org@) && fits_in_key(project@)),
{
    proof {
        reveal_strlit("sessions");
    }
    db.get3(SESSIONS, org, project, label)
}

/// Write a record's bytes in its row, in place of what stood there.
pub fn put(db: &mut Db, record: &SessionRecord, encoded: &Vec<u8>) -> (done: Result<
    (),
    StoreError,
>)
    ensures
        final(db).has_texts(
            *old(db),
            SESSIONS@,
            old(db).rows().insert(
                key3(SESSIONS@, record.org@, record.project@, record.label@),
                encoded@,
            ),
        ) || done is Err && final(db).same_as(*old(db)),
        !(fits_in_key(record.org@) && fits_in_key(record.project@)) ==> refuses_key(done) && *final(db) == *old(db),
        has_context(done) <==> !(fits_in_key(record.org@) && fits_in_key(record.project@)),
{
    proof {
        reveal_strlit("sessions");
    }
    db.put3(
        SESSIONS,
        record.org.as_str(),
        record.project.as_str(),
        record.label.as_str(),
        encoded,
    )
}

/// Remove a session's row. Whether there was one.
pub fn delete(db: &mut Db, org: &str, project: &str, label: &str) -> (existed: Result<
    bool,
    StoreError,
>)
    ensures
        existed matches Ok(existed) ==> existed == old(db).rows().dom().contains(
            key3(SESSIONS@, org@, project@, label@),
        ),
        final(db).has_texts(
            *old(db),
            SESSIONS@,
            old(db).rows().remove(key3(SESSIONS@, org@, project@, label@)),
        ) || existed is Err && final(db).same_as(*old(db)),
        !(fits_in_key(org@) && fits_in_key(project@)) ==> refuses_key(existed) && *final(db) == *old(db),
        has_context(existed) <==> !(fits_in_key(org@) && fits_in_key(project@)),
{
    proof {
        reveal_strlit("sessions");
    }
    db.remove3(SESSIONS, org, project, label)
}

/// Every session's row, in key order.
pub fn rows(db: &Db) -> (rows: Result<Vec<(String, String, String, Vec<u8>)>, StoreError>)
    ensures
        rows matches Ok(rows) ==> are_rows3(rows@, db.rows(), SESSIONS@),
        bare(rows),
{
    proof {
        reveal_strlit("sessions");
    }
    db.list3(SESSIONS)
}

/// Every session that could be read, in the order of the rows.
pub fn list_all(rows: Vec<Option<SessionRecord>>) -> (sessions: Vec<SessionRecord>)
    ensures
        sessions@ == decoded(rows@).map_values(|record: SessionRecord| read_as(record)),
{
    let mut kept = keep_decoded(rows);
    let mut sessions: Vec<SessionRecord> = Vec::new();
    let ghost all = kept@;
    let ghost mut done: int = 0;
    proof {
        assert(all.skip(0) =~= all);
    }
    while kept.len() > 0
        invariant
            0 <= done <= all.len(),
            kept@ == all.skip(done),
            sessions@.len() == done,
            forall|i: int| 0 <= i < done ==> #[trigger] sessions@[i] == read_as(all[i]),
        decreases kept.len(),
    {
        let record = kept.remove(0);
        sessions.push(decode(record));
        proof {
            assert(all.skip(done).remove(0) =~= all.skip(done + 1));
            done = done + 1;
        }
    }
    sessions
}

/// The record is of the project `org`/`project`.
pub open spec fn in_project(org: Seq<char>, project: Seq<char>) -> spec_fn(SessionRecord) -> bool {
    |record: SessionRecord| record.org@ == org && record.project@ == project
}

/// The sessions of a project, in the order of the rows.
pub fn list_for_project(sessions: Vec<SessionRecord>, org: &String, project: &String) -> (kept: Vec<
    SessionRecord,
>)
    ensures
        kept@ == sessions@.filter(in_project(org@, project@)),
{
    let ghost all = sessions@;
    let ghost p = in_project(org@, project@);
    let ghost mut done: int = 0;
    let mut sessions = sessions;
    let mut kept: Vec<SessionRecord> = Vec::new();
    proof {
        lemma_filter_ends(all, p);
        assert(all.skip(0) =~= all);
    }
    while sessions.len() > 0
        invariant
            0 <= done <= all.len(),
            sessions@ == all.skip(done),
            kept@ == all.take(done).filter(p),
            p == in_project(org@, project@),
        decreases sessions.len(),
    {
        let record = sessions.remove(0);
        proof {
            lemma_filter_step(all, p, done);
            assert(all.skip(done).remove(0) =~= all.skip(done + 1));
            done = done + 1;
        }
        if record.org == *org && record.project == *project {
            kept.push(record);
        }
    }
    proof {
        assert(all.take(done) =~= all);
    }
    kept
}

/// What the index says of a row of which `start` could be read.
pub open spec fn indexed(
    row: (String, String, String, Vec<u8>),
    start: Option<RowStart>,
) -> WorkerRowIndex {
    WorkerRowIndex {
        org: row.0,
        project: row.1,
        label: row.2,
        session_id: match start {
            Some(start) => real_id(start.session_id),
            None => None,
        },
        is_git_repo: match start {
            Some(start) => start.is_git_repo,
            None => None,
        },
    }
}

/// Every row under its key, with what says whether its worker can still
/// start. A row that could not be read stays, with both absent.
pub fn worker_row_index(
    rows: &Vec<(String, String, String, Vec<u8>)>,
    starts: &Vec<Option<RowStart>>,
) -> (index: Vec<WorkerRowIndex>)
    requires
        rows@.len() == starts@.len(),
    ensures
        index@.len() == rows@.len(),
        forall|i: int|
            0 <= i < rows@.len() ==> #[trigger] index@[i] == indexed(rows@[i], starts@[i]),
{
    let mut index: Vec<WorkerRowIndex> = Vec::new();
    for i in 0..rows.len()
        invariant
            rows@.len() == starts@.len(),
            index@.len() == i,
            forall|j: int| 0 <= j < i ==> #[trigger] index@[j] == indexed(rows@[j], starts@[j]),
    {
        let (session_id, is_git_repo) = match &starts[i] {
            Some(start) => (keep_real_id(clone_option(&start.session_id)), start.is_git_repo),
            None => (None, None),
        };
        index.push(
            WorkerRowIndex {
                org: rows[i].0.clone(),
                project: rows[i].1.clone(),
                label: rows[i].2.clone(),
                session_id,
                is_git_repo,
            },
        );
    }
    index
}

/// `over`, or `under` where it is absent.
pub open spec fn or_stored<T>(over: Option<T>, under: Option<T>) -> Option<T> {
    match over {
        Some(_) => over,
        None => under,
    }
}

/// `row` with the fields that `fields` has.
pub open spec fn merged(row: SessionRecord, fields: SessionRecord) -> SessionRecord {
    SessionRecord {
        org: row.org,
        project: row.project,
        label: row.label,
        session_id: or_stored(fields.session_id, row.session_id),
        charter: or_stored(fields.charter, row.charter),
        kick: or_stored(fields.kick, row.kick),
        resume_kick: or_stored(fields.resume_kick, row.resume_kick),
        interactive: or_stored(fields.interactive, row.interactive),
        is_git_repo: or_stored(fields.is_git_repo, row.is_git_repo),
    }
}

fn take_or_stored(over: &Option<String>, under: Option<String>) -> (taken: Option<String>)
    ensures
        taken == or_stored(*over, under),
{
    match over {
        Some(_) => clone_option(over),
        None => under,
    }
}

fn flag_or_stored(over: Option<bool>, under: Option<bool>) -> (taken: Option<bool>)
    ensures
        taken == or_stored(over, under),
{
    match over {
        Some(_) => over,
        None => under,
    }
}

/// Merge `fields` onto a stored row: what is to be written in its place. A
/// field that is absent stays as it was, and where there is no row none is
/// made.
pub fn update(row: Option<SessionRecord>, fields: &SessionRecord) -> (written: Option<
    SessionRecord,
>)
    ensures
        written == (match row {
            Some(row) => Some(merged(row, *fields)),
            None => None,
        }),
{
    match row {
        Some(row) => Some(
            SessionRecord {
                org: row.org,
                project: row.project,
                label: row.label,
                session_id: take_or_stored(&fields.session_id, row.session_id),
                charter: take_or_stored(&fields.charter, row.charter),
                kick: take_or_stored(&fields.kick, row.kick),
                resume_kick: take_or_stored(&fields.resume_kick, row.resume_kick),
                interactive: flag_or_stored(fields.interactive, row.interactive),
                is_git_repo: flag_or_stored(fields.is_git_repo, row.is_git_repo),
            },
        ),
        None => None,
    }
}

/// A session's row, with its record where it could be read.
#[derive(Debug, PartialEq, Eq)]
pub struct StoredSession {
    pub org: String,
    pub project: String,
    pub label: String,
    pub record: Option<SessionRecord>,
}

/// What becomes of one row of the retired table.
#[derive(Debug, PartialEq, Eq)]
pub enum SweepStep {
    /// No configured project has its key: it stays.
    Leave { project_key: String, label: String },
    /// `record` is written among the sessions, and then the row is removed.
    Move { record: SessionRecord, project_key: String, label: String },
}

/// A sweep of the retired table.
#[derive(Debug, PartialEq, Eq)]
pub struct Sweep {
    /// What is done, in order.
    pub steps: Vec<SweepStep>,
    /// What it accounted for; absent where it stopped at a session's row that
    /// could not be read.
    pub outcome: Option<SweepOutcome>,
}

/// How far a sweep has come.
#[verifier::ext_equal]
pub struct SweepState {
    pub steps: Seq<SweepStep>,
    /// The sessions' rows by now.
    pub stored: Seq<StoredSession>,
    pub stopped: bool,
}

/// The project has the catalog key `key`.
pub open spec fn keyed(key: Seq<char>) -> spec_fn(ProjectIdentity) -> bool {
    |project: ProjectIdentity| project.key@ == key
}

/// The row stands where `record` does.
pub open spec fn stands_with(record: SessionRecord) -> spec_fn(StoredSession) -> bool {
    |row: StoredSession|
        row.org@ == record.org@ && row.project@ == record.project@ && row.label@ == record.label@
}

/// What the retired table knew of a worker of `project`.
pub open spec fn fields_of(worker: DynamicWorker, project: ProjectIdentity) -> SessionRecord {
    SessionRecord {
        org: project.org,
        project: project.name,
        label: worker.label,
        session_id: None,
        charter: Some(worker.charter),
        kick: worker.kick,
        resume_kick: worker.resume_kick,
        interactive: Some(worker.interactive),
        is_git_repo: None,
    }
}

/// The row of `record`.
pub open spec fn row_of(record: SessionRecord) -> StoredSession {
    StoredSession {
        org: record.org,
        project: record.project,
        label: record.label,
        record: Some(record),
    }
}

/// The rows with `record` written in its own.
pub open spec fn written(stored: Seq<StoredSession>, record: SessionRecord) -> Seq<StoredSession> {
    match first_index(stored, stands_with(record)) {
        Some(i) => stored.update(i, StoredSession { record: Some(record), ..stored[i] }),
        None => stored.push(row_of(record)),
    }
}

/// What is written for `fields` over `stored`; absent where its row cannot be
/// read.
pub open spec fn landed(stored: Seq<StoredSession>, fields: SessionRecord) -> Option<
    SessionRecord,
> {
    match first_match(stored, stands_with(fields)) {
        Some(row) => match row.record {
            Some(record) => Some(merged(record, fields)),
            None => None,
        },
        None => Some(fields),
    }
}

/// The sweep after one more worker.
pub open spec fn swept_one(
    state: SweepState,
    worker: DynamicWorker,
    projects: Seq<ProjectIdentity>,
) -> SweepState {
    if state.stopped {
        state
    } else {
        match first_match(projects, keyed(worker.project_key@)) {
            None => SweepState {
                steps: state.steps.push(
                    SweepStep::Leave { project_key: worker.project_key, label: worker.label },
                ),
                ..state
            },
            Some(project) => match landed(state.stored, fields_of(worker, project)) {
                None => SweepState { stopped: true, ..state },
                Some(record) => SweepState {
                    steps: state.steps.push(
                        SweepStep::Move {
                            record,
                            project_key: worker.project_key,
                            label: worker.label,
                        },
                    ),
                    stored: written(state.stored, record),
                    stopped: false,
                },
            },
        }
    }
}

/// The sweep of `workers` over the sessions' rows `stored`.
pub open spec fn swept(
    stored: Seq<StoredSession>,
    workers: Seq<DynamicWorker>,
    projects: Seq<ProjectIdentity>,
) -> SweepState
    decreases workers.len(),
{
    if workers.len() == 0 {
        SweepState { steps: Seq::empty(), stored, stopped: false }
    } else {
        swept_one(swept(stored, workers.drop_last(), projects), workers.last(), projects)
    }
}

/// The step moves its row.
pub open spec fn is_move() -> spec_fn(SweepStep) -> bool {
    |step: SweepStep| step is Move
}

/// The step leaves its row.
pub open spec fn is_leave() -> spec_fn(SweepStep) -> bool {
    |step: SweepStep| step is Leave
}

fn project_keyed<'a>(projects: &'a Vec<ProjectIdentity>, key: &String) -> (found: Option<
    &'a ProjectIdentity,
>)
    ensures
        found is Some == first_match(projects@, keyed(key@)) is Some,
        found matches Some(project) ==> first_match(projects@, keyed(key@)) == Some(*project),
{
    for i in 0..projects.len()
        invariant
            forall|j: int| 0 <= j < i ==> !keyed(key@)(#[trigger] projects@[j]),
    {
        if projects[i].key == *key {
            proof {
                lemma_first_index_is(projects@, keyed(key@), i as int);
            }
            return Some(&projects[i]);
        }
    }
    None
}

fn row_index(stored: &Vec<StoredSession>, record: &SessionRecord) -> (found: Option<usize>)
    ensures
        found matches Some(i) ==> i < stored@.len() && first_index(stored@, stands_with(*record))
            == Some(i as int),
        found is None ==> first_index(stored@, stands_with(*record)) is None,
{
    for i in 0..stored.len()
        invariant
            forall|j: int| 0 <= j < i ==> !stands_with(*record)(#[trigger] stored@[j]),
    {
        if stored[i].org == record.org && stored[i].project == record.project && stored[i].label
            == record.label {
            proof {
                lemma_first_index_is(stored@, stands_with(*record), i as int);
            }
            return Some(i);
        }
    }
    None
}

/// One worker's part of a sweep. Absent where its session's row cannot be
/// read.
fn sweep_worker(
    worker: &DynamicWorker,
    projects: &Vec<ProjectIdentity>,
    stored: &mut Vec<StoredSession>,
) -> (step: Option<SweepStep>)
    ensures
        forall|steps: Seq<SweepStep>|
            #![trigger swept_one(
                SweepState { steps, stored: old(stored)@, stopped: false },
                *worker,
                projects@,
            )]
            swept_one(
                SweepState { steps, stored: old(stored)@, stopped: false },
                *worker,
                projects@,
            ) == (match step {
                Some(step) => SweepState {
                    steps: steps.push(step),
                    stored: final(stored)@,
                    stopped: false,
                },
                None => SweepState { steps, stored: old(stored)@, stopped: true },
            }),
{
    let project = match project_keyed(projects, &worker.project_key) {
        Some(project) => project,
        None => {
            return Some(
                SweepStep::Leave {
                    project_key: worker.project_key.clone(),
                    label: worker.label.clone(),
                },
            );
        },
    };
    let fields = SessionRecord {
        org: project.org.clone(),
        project: project.name.clone(),
        label: worker.label.clone(),
        session_id: None,
        charter: Some(worker.charter.clone()),
        kick: clone_option(&worker.kick),
        resume_kick: clone_option(&worker.resume_kick),
        interactive: Some(worker.interactive),
        is_git_repo: None,
    };
    assert(fields == fields_of(*worker, *project));
    let record = match row_index(stored, &fields) {
        Some(at) => match &stored[at].record {
            Some(record) => update(Some(record.clone()), &fields),
            None => None,
        },
        None => Some(fields),
    };
    let record = match record {
        Some(record) => record,
        None => {
            return None;
        },
    };
    match row_index(stored, &record) {
        Some(at) => {
            let row = StoredSession {
                org: stored[at].org.clone(),
                project: stored[at].project.clone(),
                label: stored[at].label.clone(),
                record: Some(record.clone()),
            };
            stored.set(at, row);
        },
        None => {
            stored.push(
                StoredSession {
                    org: record.org.clone(),
                    project: record.project.clone(),
                    label: record.label.clone(),
                    record: Some(record.clone()),
                },
            );
        },
    }
    Some(
        SweepStep::Move {
            record,
            project_key: worker.project_key.clone(),
            label: worker.label.clone(),
        },
    )
}

/// Sweep the retired table onto the sessions: what is to be written and
/// removed, in order. `rows` is how many rows the table holds, `workers` are
/// those that could be read, and `stored` are the sessions' rows.
///
/// A worker's fields are merged onto the row that stands under its label, so
/// that the session it names stays; where there is none one is made. A worker
/// whose project is no longer configured is left. A session's row that cannot
/// be read stops the sweep.
#[verifier::loop_isolation(false)]
pub fn migrate_from_dynamic_workers(
    rows: usize,
    workers: &Vec<DynamicWorker>,
    projects: &Vec<ProjectIdentity>,
    stored: Vec<StoredSession>,
) -> (sweep: Sweep)
    ensures
        sweep.steps@ == swept(stored@, workers@, projects@).steps,
        sweep.outcome is None == swept(stored@, workers@, projects@).stopped,
        sweep.outcome matches Some(outcome) ==> outcome.rows == rows && outcome.moved
            == sweep.steps@.filter(is_move()).len() && outcome.unkeyable == sweep.steps@.filter(
            is_leave(),
        ).len() && outcome.moved + outcome.unkeyable == workers@.len(),
{
    let ghost first = stored@;
    let mut stored = stored;
    let mut steps: Vec<SweepStep> = Vec::new();
    let mut moved: usize = 0;
    let mut unkeyable: usize = 0;
    proof {
        assert(workers@.take(0) =~= Seq::empty());
        reveal(Seq::filter);
    }
    for i in 0..workers.len()
        invariant
            swept(first, workers@.take(i as int), projects@) == (SweepState {
                steps: steps@,
                stored: stored@,
                stopped: false,
            }),
            moved == steps@.filter(is_move()).len(),
            unkeyable == steps@.filter(is_leave()).len(),
            moved + unkeyable == i,
    {
        let ghost before = SweepState { steps: steps@, stored: stored@, stopped: false };
        proof {
            let so_far = workers@.take(i + 1);
            assert(so_far.drop_last() =~= workers@.take(i as int));
            assert(so_far.last() == workers@[i as int]);
            assert(swept(first, so_far, projects@) == swept_one(
                before,
                workers@[i as int],
                projects@,
            ));
        }
        match sweep_worker(&workers[i], projects, &mut stored) {
            Some(step) => {
                proof {
                    lemma_filter_push(steps@, is_move(), step);
                    lemma_filter_push(steps@, is_leave(), step);
                }
                match &step {
                    SweepStep::Leave { .. } => {
                        unkeyable = unkeyable + 1;
                    },
                    SweepStep::Move { .. } => {
                        moved = moved + 1;
                    },
                }
                steps.push(step);
            },
            None => {
                proof {
                    lemma_stopped(first, workers@, projects@, i + 1);
                }
                return Sweep { steps, outcome: None };
            },
        }
    }
    proof {
        assert(workers@.take(workers@.len() as int) =~= workers@);
    }
    Sweep { steps, outcome: Some(SweepOutcome { moved, unkeyable, rows }) }
}

/// What a filter makes of one more element.
proof fn lemma_filter_push<A>(s: Seq<A>, p: spec_fn(A) -> bool, x: A)
    ensures
        s.push(x).filter(p) == (if p(x) {
            s.filter(p).push(x)
        } else {
            s.filter(p)
        }),
{
    reveal(Seq::filter);
    assert(s.push(x).drop_last() =~= s);
}

/// A sweep that has stopped does nothing more.
proof fn lemma_stopped(
    stored: Seq<StoredSession>,
    workers: Seq<DynamicWorker>,
    projects: Seq<ProjectIdentity>,
    n: int,
)
    requires
        0 <= n <= workers.len(),
        swept(stored, workers.take(n), projects).stopped,
    ensures
        swept(stored, workers, projects) == swept(stored, workers.take(n), projects),
    decreases workers.len() - n,
{
    if n == workers.len() {
        assert(workers.take(n) =~= workers);
    } else {
        let more = workers.take(n + 1);
        assert(more.drop_last() =~= workers.take(n));
        lemma_stopped(stored, workers, projects, n + 1);
    }
}

/// A session that is written is read back, and no other row has changed.
pub proof fn put_then_get(
    before: Map<(Seq<char>, Seq<Seq<char>>), Seq<u8>>,
    record: SessionRecord,
    encoded: Seq<u8>,
    org: Seq<char>,
    project: Seq<char>,
    label: Seq<char>,
)
    ensures
        ({
            let at = key3(SESSIONS@, record.org@, record.project@, record.label@);
            let after = before.insert(at, encoded);
            let asked = key3(SESSIONS@, org, project, label);
            if org == record.org@ && project == record.project@ && label == record.label@ {
                after.dom().contains(asked) && after[asked] == encoded
            } else {
                &&& after.dom().contains(asked) == before.dom().contains(asked)
                &&& before.dom().contains(asked) ==> after[asked] == before[asked]
            }
        }),
{
    let at = key3(SESSIONS@, record.org@, record.project@, record.label@);
    let asked = key3(SESSIONS@, org, project, label);
    if asked == at {
        assert(asked.1[0] == at.1[0]);
        assert(asked.1[1] == at.1[1]);
        assert(asked.1[2] == at.1[2]);
    }
}

/// Merging the same fields a second time changes nothing.
pub proof fn update_is_idempotent(row: SessionRecord, fields: SessionRecord)
    ensures
        merged(merged(row, fields), fields) == merged(row, fields),
{
}

/// Whatever a worker's retired row knew, the session that its own row names
/// stays.
pub proof fn sweep_keeps_the_occupant(
    row: SessionRecord,
    worker: DynamicWorker,
    project: ProjectIdentity,
)
    ensures
        merged(row, fields_of(worker, project)).session_id == row.session_id,
{
}

/// A worker's retired row is left exactly where no configured project has its
/// key.
pub proof fn sweep_leaves_only_the_unconfigured(
    stored: Seq<StoredSession>,
    workers: Seq<DynamicWorker>,
    projects: Seq<ProjectIdentity>,
)
    requires
        !swept(stored, workers, projects).stopped,
    ensures
        swept(stored, workers, projects).steps.len() == workers.len(),
        forall|i: int|
            0 <= i < workers.len() ==> (#[trigger] swept(
                stored,
                workers,
                projects,
            ).steps[i] is Leave <==> !any(projects, keyed(workers[i].project_key@))),
    decreases workers.len(),
{
    if workers.len() > 0 {
        let fewer = workers.drop_last();
        sweep_leaves_only_the_unconfigured(stored, fewer, projects);
        assert forall|i: int| 0 <= i < workers.len() implies (#[trigger] swept(
            stored,
            workers,
            projects,
        ).steps[i] is Leave <==> !any(projects, keyed(workers[i].project_key@))) by {
            if i < fewer.len() {
                assert(fewer[i] == workers[i]);
                assert(swept(stored, fewer, projects).steps[i] == swept(
                    stored,
                    workers,
                    projects,
                ).steps[i]);
            }
        }
    }
}

/// The filter that keeps everything keeps only what meets it.
proof fn lemma_filter_full<A>(s: Seq<A>, p: spec_fn(A) -> bool)
    requires
        s.filter(p).len() == s.len(),
    ensures
        forall|i: int| 0 <= i < s.len() ==> p(#[trigger] s[i]),
    decreases s.len(),
{
    reveal(Seq::filter);
    if s.len() > 0 {
        let fewer = s.drop_last();
        lemma_filter_keeps(fewer, p);
        lemma_filter_full(fewer, p);
        assert forall|i: int| 0 <= i < s.len() implies p(#[trigger] s[i]) by {
            if i < fewer.len() {
                assert(fewer[i] == s[i]);
            }
        }
    }
}

/// Where a sweep drained the retired table, every row that it held was read
/// and moved, so that dropping the table loses nothing.
pub proof fn drained_lost_nothing(
    stored: Seq<StoredSession>,
    workers: Seq<DynamicWorker>,
    projects: Seq<ProjectIdentity>,
    outcome: SweepOutcome,
)
    requires
        !swept(stored, workers, projects).stopped,
        outcome.moved == swept(stored, workers, projects).steps.filter(is_move()).len(),
        workers.len() <= outcome.rows,
        outcome.moved == outcome.rows,
    ensures
        workers.len() == outcome.rows,
        forall|i: int|
            0 <= i < workers.len() ==> #[trigger] swept(stored, workers, projects).steps[i] is Move,
{
    sweep_leaves_only_the_unconfigured(stored, workers, projects);
    let steps = swept(stored, workers, projects).steps;
    lemma_filter_keeps(steps, is_move());
    lemma_filter_full(steps, is_move());
    assert forall|i: int| 0 <= i < workers.len() implies #[trigger] swept(
        stored,
        workers,
        projects,
    ).steps[i] is Move by {
        assert(is_move()(steps[i]));
    }
}

/// A boot that was interrupted between the copy and the removal copies the
/// worker once more: what is written, and every row, comes out the same.
pub proof fn copying_again_changes_nothing(stored: Seq<StoredSession>, fields: SessionRecord)
    requires
        forall|i: int|
            0 <= i < stored.len() ==> ((#[trigger] stored[i]).record matches Some(record)
                ==> record.org@ == stored[i].org@ && record.project@ == stored[i].project@
                && record.label@ == stored[i].label@),
        landed(stored, fields) is Some,
    ensures
        ({
            let record = landed(stored, fields)->0;
            let once = written(stored, record);
            landed(once, fields) == Some(record) && written(once, record) == once
        }),
{
    let record = landed(stored, fields)->0;
    let once = written(stored, record);
    let p = stands_with(fields);
    if any(stored, p) {
        lemma_first_exists(stored, p);
        let i = first_index(stored, p)->0;
        assert(p(stored[i]));
        assert(record == merged(stored[i].record->0, fields));
        assert forall|j: int| 0 <= j < i implies !stands_with(record)(#[trigger] stored[j]) by {
            assert(!p(stored[j]));
        }
        lemma_first_index_is(stored, stands_with(record), i);
        assert forall|j: int| 0 <= j < i implies !p(#[trigger] once[j]) by {
            assert(!p(stored[j]));
        }
        lemma_first_index_is(once, p, i);
        assert forall|j: int| 0 <= j < i implies !stands_with(record)(#[trigger] once[j]) by {
            assert(!stands_with(record)(stored[j]));
        }
        lemma_first_index_is(once, stands_with(record), i);
        assert(written(once, record) =~= once);
    } else {
        let i = stored.len() as int;
        assert(record == fields);
        assert(once == stored.push(row_of(fields)));
        assert forall|j: int| 0 <= j < i implies !p(#[trigger] once[j]) by {
            assert(!p(stored[j]));
        }
        assert(p(once[i]));
        lemma_first_index_is(once, p, i);
        assert(written(once, record) =~= once);
    }
}

/// A record is read as it stands, but for an empty id, which is none.
pub proof fn an_empty_id_is_none(record: SessionRecord)
    ensures
        ({
            let read = read_as(record);
            &&& (record.session_id matches Some(id) ==> id@.len() == 0) ==> read.session_id is None
            &&& (record.session_id matches Some(id) && id@.len() > 0) ==> read.session_id
                == record.session_id
            &&& read.org == record.org
            &&& read.project == record.project
            &&& read.label == record.label
            &&& read.charter == record.charter
            &&& read.kick == record.kick
            &&& read.resume_kick == record.resume_kick
            &&& read.interactive == record.interactive
            &&& read.is_git_repo == record.is_git_repo
        }),
{
}

/// An update changes exactly the fields it has: each that it has is taken, and
/// each that it has not stays. The row stays in its seat.
pub proof fn an_update_changes_only_what_it_has(row: SessionRecord, fields: SessionRecord)
    ensures
        ({
            let after = merged(row, fields);
            &&& after.org == row.org
            &&& after.project == row.project
            &&& after.label == row.label
            &&& fields.session_id is Some ==> after.session_id == fields.session_id
            &&& fields.session_id is None ==> after.session_id == row.session_id
            &&& fields.charter is Some ==> after.charter == fields.charter
            &&& fields.charter is None ==> after.charter == row.charter
            &&& fields.kick is Some ==> after.kick == fields.kick
            &&& fields.kick is None ==> after.kick == row.kick
            &&& fields.resume_kick is Some ==> after.resume_kick == fields.resume_kick
            &&& fields.resume_kick is None ==> after.resume_kick == row.resume_kick
            &&& fields.interactive is Some ==> after.interactive == fields.interactive
            &&& fields.interactive is None ==> after.interactive == row.interactive
            &&& fields.is_git_repo is Some ==> after.is_git_repo == fields.is_git_repo
            &&& fields.is_git_repo is None ==> after.is_git_repo == row.is_git_repo
        }),
{
}

/// A project's sessions are those of all that have its organisation and its
/// name, in their order.
pub proof fn a_projects_sessions_are_its_own(
    sessions: Seq<SessionRecord>,
    org: Seq<char>,
    project: Seq<char>,
    i: int,
)
    ensures
        ({
            let kept = sessions.filter(in_project(org, project));
            &&& 0 <= i < kept.len() ==> kept[i].org@ == org && kept[i].project@ == project
                && sessions.contains(kept[i])
            &&& 0 <= i < sessions.len() && sessions[i].org@ == org && sessions[i].project@
                == project ==> kept.contains(sessions[i])
        }),
{
    let p = in_project(org, project);
    crate::seqs::lemma_filter_keeps(sessions, p);
    if 0 <= i < sessions.filter(p).len() {
        assert(p(sessions.filter(p)[i]));
    }
    if 0 <= i < sessions.len() && sessions[i].org@ == org && sessions[i].project@ == project {
        crate::seqs::lemma_filter_holds(sessions, p, i);
    }
}

/// A row of the index names its seat, whether or not the row can be read; its
/// id and whether it is in a repository are told where it can be.
pub proof fn an_indexed_row_names_its_seat(
    row: (String, String, String, Vec<u8>),
    start: Option<RowStart>,
)
    ensures
        indexed(row, start).org == row.0,
        indexed(row, start).project == row.1,
        indexed(row, start).label == row.2,
        start is None ==> indexed(row, start).session_id is None && indexed(
            row,
            start,
        ).is_git_repo is None,
        start matches Some(start) ==> {
            &&& indexed(row, Some(start)).is_git_repo == start.is_git_repo
            &&& (start.session_id matches Some(id) && id@.len() > 0) ==> indexed(
                row,
                Some(start),
            ).session_id == start.session_id
            &&& (start.session_id matches Some(id) ==> id@.len() == 0) ==> indexed(
                row,
                Some(start),
            ).session_id is None
        },
{
}

/// A worker whose project is known is moved into its own seat there: with its
/// charter, its turns and whether it is interactive, and with the id that was
/// stored for the seat. A seat that cannot be read stops the sweep, and a
/// worker of an unknown project is left where it is.
pub proof fn a_swept_worker_lands_in_its_seat(
    state: SweepState,
    worker: DynamicWorker,
    projects: Seq<ProjectIdentity>,
    p: int,
    r: int,
)
    requires
        !state.stopped,
        0 <= p < projects.len(),
        projects[p].key@ == worker.project_key@,
        forall|j: int| 0 <= j < p ==> (#[trigger] projects[j]).key@ != worker.project_key@,
    ensures
        ({
            let after = swept_one(state, worker, projects);
            let project = projects[p];
            let here = |row: StoredSession|
                row.org@ == project.org@ && row.project@ == project.name@ && row.label@
                    == worker.label@;
            let vacant = forall|j: int| 0 <= j < state.stored.len() ==> !here(
                #[trigger] state.stored[j],
            );
            let held = 0 <= r < state.stored.len() && here(state.stored[r]) && forall|j: int|
                0 <= j < r ==> !here(#[trigger] state.stored[j]);
            &&& vacant ==> {
                &&& !after.stopped
                &&& after.steps.len() == state.steps.len() + 1
                &&& after.steps.last() matches SweepStep::Move { record, project_key, label }
                &&& project_key == worker.project_key
                &&& label == worker.label
                &&& record.org == project.org
                &&& record.project == project.name
                &&& record.label == worker.label
                &&& record.session_id is None
                &&& record.charter == Some(worker.charter)
                &&& record.kick == worker.kick
                &&& record.resume_kick == worker.resume_kick
                &&& record.interactive == Some(worker.interactive)
                &&& after.stored.len() == state.stored.len() + 1
                &&& after.stored.last().record == Some(record)
                &&& after.stored.last().org == project.org
                &&& after.stored.last().project == project.name
                &&& after.stored.last().label == worker.label
            }
            &&& held && state.stored[r].record is None ==> after.stopped && after.steps
                == state.steps && after.stored == state.stored
            &&& held && state.stored[r].record is Some && state.stored[r].record->0.org@
                == state.stored[r].org@ && state.stored[r].record->0.project@
                == state.stored[r].project@ && state.stored[r].record->0.label@
                == state.stored[r].label@ ==> {
                let old_record = state.stored[r].record->0;
                &&& !after.stopped
                &&& after.steps.len() == state.steps.len() + 1
                &&& after.steps.last() matches SweepStep::Move { record, project_key, label }
                &&& project_key == worker.project_key
                &&& label == worker.label
                &&& record.session_id == old_record.session_id
                &&& record.is_git_repo == old_record.is_git_repo
                &&& record.charter == Some(worker.charter)
                &&& record.interactive == Some(worker.interactive)
                &&& worker.kick is Some ==> record.kick == worker.kick
                &&& worker.kick is None ==> record.kick == old_record.kick
                &&& worker.resume_kick is Some ==> record.resume_kick == worker.resume_kick
                &&& worker.resume_kick is None ==> record.resume_kick == old_record.resume_kick
                &&& after.stored.len() == state.stored.len()
                &&& after.stored[r].record == Some(record)
                &&& forall|j: int|
                    0 <= j < state.stored.len() && j != r ==> #[trigger] after.stored[j]
                        == state.stored[j]
            }
            &&& after.steps.take(state.steps.len() as int) == state.steps
        }),
{
    crate::seqs::lemma_first_index_is(projects, keyed(worker.project_key@), p);
    let project = projects[p];
    let fields = fields_of(worker, project);
    let q = stands_with(fields);
    let here = |row: StoredSession|
        row.org@ == project.org@ && row.project@ == project.name@ && row.label@ == worker.label@;
    assert forall|row: StoredSession| #[trigger] q(row) == here(row) by {}
    let after = swept_one(state, worker, projects);
    if forall|j: int| 0 <= j < state.stored.len() ==> !here(#[trigger] state.stored[j]) {
        assert forall|j: int| 0 <= j < state.stored.len() implies !q(#[trigger] state.stored[j]) by {
            assert(!here(state.stored[j]));
        }
        assert(!any(state.stored, q));
        assert(!any(state.stored, stands_with(fields)));
    }
    if 0 <= r < state.stored.len() && here(state.stored[r]) && forall|j: int|
        0 <= j < r ==> !here(#[trigger] state.stored[j]) {
        assert forall|j: int| 0 <= j < r implies !q(#[trigger] state.stored[j]) by {
            assert(!here(state.stored[j]));
        }
        assert(q(state.stored[r]));
        crate::seqs::lemma_first_index_is(state.stored, q, r);
        if state.stored[r].record is Some && state.stored[r].record->0.org@
            == state.stored[r].org@ && state.stored[r].record->0.project@
            == state.stored[r].project@ && state.stored[r].record->0.label@
            == state.stored[r].label@ {
            let record = merged(state.stored[r].record->0, fields);
            assert(stands_with(record) =~= q);
            crate::seqs::lemma_first_index_is(state.stored, stands_with(record), r);
        }
    }
    assert(after.steps.take(state.steps.len() as int) =~= state.steps);
}

/// A worker of an unknown project is left where it is, by its project's key
/// and its label, and nothing else changes. A sweep that has stopped does
/// nothing more.
pub proof fn a_worker_of_no_project_is_left(
    state: SweepState,
    worker: DynamicWorker,
    projects: Seq<ProjectIdentity>,
)
    ensures
        !state.stopped && (forall|j: int|
            0 <= j < projects.len() ==> (#[trigger] projects[j]).key@ != worker.project_key@) ==> {
            let after = swept_one(state, worker, projects);
            &&& !after.stopped
            &&& after.stored == state.stored
            &&& after.steps == state.steps.push(
                SweepStep::Leave { project_key: worker.project_key, label: worker.label },
            )
        },
        state.stopped ==> swept_one(state, worker, projects) == state,
{
    if forall|j: int|
        0 <= j < projects.len() ==> (#[trigger] projects[j]).key@ != worker.project_key@ {
        assert(!any(projects, keyed(worker.project_key@)));
    }
}

/// The workers are swept one after the other, in their order, and none before
/// the first.
pub proof fn workers_are_swept_in_their_order(
    stored: Seq<StoredSession>,
    workers: Seq<DynamicWorker>,
    projects: Seq<ProjectIdentity>,
    worker: DynamicWorker,
)
    ensures
        swept(stored, Seq::empty(), projects) == (SweepState {
            steps: Seq::empty(),
            stored,
            stopped: false,
        }),
        swept(stored, workers.push(worker), projects) == swept_one(
            swept(stored, workers, projects),
            worker,
            projects,
        ),
{
    assert(workers.push(worker).drop_last() =~= workers);
}

/// A step moves a worker or leaves it, and is counted as what it is.
pub proof fn a_step_moves_or_leaves(step: SweepStep)
    ensures
        is_move()(step) <==> (step matches SweepStep::Move { .. }),
        is_leave()(step) <==> (step matches SweepStep::Leave { .. }),
{
}

} // verus!
