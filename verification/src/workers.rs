//! The workers of a project that are up, and the rule that admits one more.

use crate::protocol::{WorkerLiveness, WorkerStatus};
use crate::seqs::{any, count, first_match, is_first, is_last, last_index, last_match};
use crate::slot::{clone_option, SessionSlot};
use vstd::prelude::*;

verus! {

/// How many workers a project may have up where it states no cap.
pub const DEFAULT_MAX_WORKERS_PER_PROJECT: usize = 2;

/// A worker that was spawned and not yet torn down.
#[derive(Debug, PartialEq, Eq)]
pub struct WorkerEntry {
    pub label: String,
    pub charter: String,
    pub slot: SessionSlot,
    pub session_id: Option<String>,
    pub status: WorkerLiveness,
    /// Seconds since the epoch.
    pub spawned_at: u64,
    pub spawned_by: SessionSlot,
    /// The worker's transcript does not carry its tag yet.
    pub needs_tag: bool,
    pub is_git_repo_at_spawn: bool,
    pub diagnostic: Option<String>,
    pub kick: Option<String>,
}

impl Clone for WorkerEntry {
    fn clone(&self) -> (copy: Self)
        ensures
            copy == *self,
    {
        WorkerEntry {
            label: self.label.clone(),
            charter: self.charter.clone(),
            slot: self.slot.clone(),
            session_id: clone_option(&self.session_id),
            status: self.status,
            spawned_at: self.spawned_at,
            spawned_by: self.spawned_by.clone(),
            needs_tag: self.needs_tag,
            is_git_repo_at_spawn: self.is_git_repo_at_spawn,
            diagnostic: clone_option(&self.diagnostic),
            kick: clone_option(&self.kick),
        }
    }
}

/// What the user interface shows of `entry`.
pub open spec fn status_of(entry: WorkerEntry) -> WorkerStatus {
    WorkerStatus {
        label: entry.label,
        slot: entry.slot,
        session_id: entry.session_id,
        status: entry.status,
        spawned_by: entry.spawned_by,
        diagnostic: entry.diagnostic,
    }
}

impl WorkerEntry {
    pub fn to_status(&self) -> (status: WorkerStatus)
        ensures
            status == status_of(*self),
    {
        WorkerStatus {
            label: self.label.clone(),
            slot: self.slot.clone(),
            session_id: clone_option(&self.session_id),
            status: self.status,
            spawned_by: self.spawned_by.clone(),
            diagnostic: clone_option(&self.diagnostic),
        }
    }
}

/// A worker with the project it belongs to.
#[derive(Debug, PartialEq, Eq)]
pub struct LiveWorker {
    pub project_key: String,
    pub entry: WorkerEntry,
}

/// The workers of one project under one label.
pub open spec fn labelled(project_key: Seq<char>, label: Seq<char>) -> spec_fn(LiveWorker) -> bool {
    |w: LiveWorker| w.project_key@ == project_key && w.entry.label@ == label
}

/// The workers of one project that count as up.
pub open spec fn up(project_key: Seq<char>) -> spec_fn(LiveWorker) -> bool {
    |w: LiveWorker| w.project_key@ == project_key && w.entry.status != WorkerLiveness::Failed
}

/// The workers of one project under one label that count as up.
pub open spec fn labelled_up(project_key: Seq<char>, label: Seq<char>) -> spec_fn(
    LiveWorker,
) -> bool {
    |w: LiveWorker|
        w.project_key@ == project_key && w.entry.label@ == label && w.entry.status
            != WorkerLiveness::Failed
}

/// The workers of one project.
pub open spec fn of_project(project_key: Seq<char>) -> spec_fn(LiveWorker) -> bool {
    |w: LiveWorker| w.project_key@ == project_key
}

/// Why a worker was not admitted.
#[derive(Debug, PartialEq, Eq)]
pub enum LiveWorkerRefusal {
    /// A worker is up under the label, in this slot.
    LabelLive(SessionSlot),
    AtCap { live: usize, cap: usize },
}

/// The workers of all projects, in the order they were spawned.
#[derive(Debug, PartialEq, Eq)]
pub struct LiveWorkers {
    pub workers: Vec<LiveWorker>,
}

impl View for LiveWorkers {
    type V = Seq<LiveWorker>;

    open spec fn view(&self) -> Seq<LiveWorker> {
        self.workers@
    }
}

/// What the admission rule answers for a worker of `project_key` under
/// `label`: the label has to be free, then the project has to be under its
/// cap.
pub open spec fn refusal(
    workers: Seq<LiveWorker>,
    project_key: Seq<char>,
    label: Seq<char>,
    cap: Option<usize>,
) -> Option<LiveWorkerRefusal> {
    match first_match(workers, labelled_up(project_key, label)) {
        Some(worker) => Some(LiveWorkerRefusal::LabelLive(worker.entry.slot)),
        None => match cap {
            Some(cap) => if count(workers, up(project_key)) >= cap {
                Some(
                    LiveWorkerRefusal::AtCap {
                        live: count(workers, up(project_key)) as usize,
                        cap,
                    },
                )
            } else {
                None
            },
            None => None,
        },
    }
}

/// What admitting a worker comes to.
pub open spec fn worker_inserted(
    before: LiveWorkers,
    after: LiveWorkers,
    project_key: String,
    entry: WorkerEntry,
    cap: Option<usize>,
    admitted: Result<(), LiveWorkerRefusal>,
) -> bool {
    match admitted {
        Ok(()) => refusal(before@, project_key@, entry.label@, cap) is None && after@
            == before@.push(LiveWorker { project_key, entry }),
        Err(why) => refusal(before@, project_key@, entry.label@, cap) == Some(why)
            && after == before,
    }
}

/// What removing a worker comes to.
pub open spec fn latest_removed(
    before: LiveWorkers,
    after: LiveWorkers,
    project_key: String,
    label: String,
    removed: Option<WorkerEntry>,
) -> bool {
    match last_index(before@, labelled(project_key@, label@)) {
        Some(i) => removed == Some(before@[i].entry) && after@ == before@.remove(i),
        None => removed is None && after == before,
    }
}

impl LiveWorkers {
    /// No worker is up.
    pub fn new() -> (workers: Self)
        ensures
            workers@ == Seq::<LiveWorker>::empty(),
    {
        LiveWorkers { workers: Vec::new() }
    }

    /// Where the worker spawned last under `label` stands.
    fn latest_index(&self, project_key: &String, label: &String) -> (found: Option<usize>)
        ensures
            match found {
                Some(i) => i < self@.len() && last_index(
                    self@,
                    labelled(project_key@, label@),
                ) == Some(i as int),
                None => last_index(self@, labelled(project_key@, label@)) is None,
            },
    {
        let ghost p = labelled(project_key@, label@);
        let mut i: usize = self.workers.len();
        while i > 0
            invariant
                i <= self.workers@.len(),
                p == labelled(project_key@, label@),
                forall|j: int| i <= j < self.workers@.len() ==> !p(#[trigger] self.workers@[j]),
            decreases i,
        {
            let worker = &self.workers[i - 1];
            if worker.project_key == *project_key && worker.entry.label == *label {
                proof {
                    assert(is_last(self@, p, i - 1));
                    crate::seqs::lemma_last_index_is(self@, p, i - 1);
                }
                return Some(i - 1);
            }
            i = i - 1;
        }
        assert(!any(self@, p));
        None
    }

    /// The worker spawned last under `label`.
    pub fn latest(&self, project_key: &String, label: &String) -> (found: Option<&WorkerEntry>)
        ensures
            match found {
                Some(entry) => last_match(self@, labelled(project_key@, label@)) matches Some(
                    worker,
                ) && worker.entry == *entry,
                None => last_match(self@, labelled(project_key@, label@)) is None,
            },
    {
        match self.latest_index(project_key, label) {
            Some(i) => Some(&self.workers[i].entry),
            None => None,
        }
    }

    /// The worker spawned first under `label`, up or not.
    pub fn earliest(&self, project_key: &String, label: &String) -> (found: Option<&WorkerEntry>)
        ensures
            match found {
                Some(entry) => first_match(self@, labelled(project_key@, label@)) matches Some(
                    worker,
                ) && worker.entry == *entry,
                None => first_match(self@, labelled(project_key@, label@)) is None,
            },
    {
        let ghost p = labelled(project_key@, label@);
        let mut i: usize = 0;
        while i < self.workers.len()
            invariant
                i <= self.workers@.len(),
                p == labelled(project_key@, label@),
                forall|j: int| 0 <= j < i ==> !p(#[trigger] self.workers@[j]),
            decreases self.workers@.len() - i,
        {
            let worker = &self.workers[i];
            if worker.project_key == *project_key && worker.entry.label == *label {
                proof {
                    assert(is_first(self@, p, i as int));
                    crate::seqs::lemma_first_index_is(self@, p, i as int);
                }
                return Some(&worker.entry);
            }
            i = i + 1;
        }
        assert(!any(self@, p));
        None
    }

    /// The worker that is up under `label`.
    pub fn up_with_label(&self, project_key: &String, label: &String) -> (found: Option<
        &WorkerEntry,
    >)
        ensures
            match found {
                Some(entry) => first_match(self@, labelled_up(project_key@, label@)) matches Some(
                    worker,
                ) && worker.entry == *entry,
                None => first_match(self@, labelled_up(project_key@, label@)) is None,
            },
    {
        let ghost p = labelled_up(project_key@, label@);
        let mut i: usize = 0;
        while i < self.workers.len()
            invariant
                i <= self.workers@.len(),
                p == labelled_up(project_key@, label@),
                forall|j: int| 0 <= j < i ==> !p(#[trigger] self.workers@[j]),
            decreases self.workers@.len() - i,
        {
            let worker = &self.workers[i];
            if worker.project_key == *project_key && worker.entry.label == *label
                && worker.entry.status != WorkerLiveness::Failed {
                proof {
                    assert(is_first(self@, p, i as int));
                    crate::seqs::lemma_first_index_is(self@, p, i as int);
                }
                return Some(&worker.entry);
            }
            i = i + 1;
        }
        assert(!any(self@, p));
        None
    }

    /// How many workers of a project are up.
    pub fn count_up(&self, project_key: &String) -> (live: usize)
        ensures
            live == count(self@, up(project_key@)),
    {
        let ghost p = up(project_key@);
        let mut live: usize = 0;
        let mut i: usize = 0;
        proof {
            crate::seqs::lemma_filter_ends(self@, p);
        }
        while i < self.workers.len()
            invariant
                i <= self.workers@.len(),
                p == up(project_key@),
                live == self@.take(i as int).filter(p).len(),
                live <= i,
            decreases self.workers@.len() - i,
        {
            proof {
                crate::seqs::lemma_filter_step(self@, p, i as int);
            }
            let worker = &self.workers[i];
            if worker.project_key == *project_key && worker.entry.status
                != WorkerLiveness::Failed {
                live = live + 1;
            }
            i = i + 1;
        }
        proof {
            crate::seqs::lemma_filter_ends(self@, p);
        }
        live
    }

    /// Whether a project has no worker, up or not.
    pub fn is_empty_for(&self, project_key: &String) -> (empty: bool)
        ensures
            empty == !any(self@, of_project(project_key@)),
    {
        let ghost p = of_project(project_key@);
        let mut i: usize = 0;
        while i < self.workers.len()
            invariant
                i <= self.workers@.len(),
                p == of_project(project_key@),
                forall|j: int| 0 <= j < i ==> !p(#[trigger] self.workers@[j]),
            decreases self.workers@.len() - i,
        {
            if self.workers[i].project_key == *project_key {
                assert(p(self@[i as int]));
                return false;
            }
            i = i + 1;
        }
        true
    }

    /// Whether some worker fills `slot`.
    pub fn holds_slot(&self, slot: &SessionSlot) -> (held: bool)
        ensures
            held == any(self@, |w: LiveWorker| w.entry.slot@ == slot@),
    {
        let ghost p = |w: LiveWorker| w.entry.slot@ == slot@;
        let mut i: usize = 0;
        while i < self.workers.len()
            invariant
                i <= self.workers@.len(),
                p == (|w: LiveWorker| w.entry.slot@ == slot@),
                forall|j: int| 0 <= j < i ==> !p(#[trigger] self.workers@[j]),
            decreases self.workers@.len() - i,
        {
            if self.workers[i].entry.slot.same(slot) {
                assert(p(self@[i as int]));
                return true;
            }
            i = i + 1;
        }
        assert(!any(self@, p));
        false
    }

    /// Admit a worker, or say why not. `cap` is the most workers the project
    /// may have up; a worker brought back at boot is admitted past it.
    pub fn insert_live_worker_if_label_absent(
        &mut self,
        project_key: &String,
        entry: WorkerEntry,
        cap: Option<usize>,
    ) -> (admitted: Result<(), LiveWorkerRefusal>)
        ensures
            worker_inserted(*old(self), *final(self), *project_key, entry, cap, admitted),
    {
        match self.up_with_label(project_key, &entry.label) {
            Some(existing) => {
                return Err(LiveWorkerRefusal::LabelLive(existing.slot.clone()));
            },
            None => {},
        }
        match cap {
            Some(cap) => {
                let live = self.count_up(project_key);
                if live >= cap {
                    return Err(LiveWorkerRefusal::AtCap { live, cap });
                }
            },
            None => {},
        }
        self.workers.push(LiveWorker { project_key: project_key.clone(), entry });
        Ok(())
    }

    /// Take out the worker spawned last under `label`.
    pub fn remove_latest_worker(&mut self, project_key: &String, label: &String) -> (removed:
        Option<WorkerEntry>)
        ensures
            latest_removed(*old(self), *final(self), *project_key, *label, removed),
    {
        match self.latest_index(project_key, label) {
            Some(i) => {
                let worker = self.workers.remove(i);
                Some(worker.entry)
            },
            None => None,
        }
    }
}

/// The worker at `i` is the first of the project that bears the label.
pub open spec fn earliest_at(
    workers: Seq<LiveWorker>,
    project_key: Seq<char>,
    label: Seq<char>,
    i: int,
) -> bool {
    &&& 0 <= i < workers.len()
    &&& workers[i].project_key@ == project_key
    &&& workers[i].entry.label@ == label
    &&& forall|j: int|
        0 <= j < i ==> (#[trigger] workers[j]).project_key@ != project_key
            || workers[j].entry.label@ != label
}

/// The worker at `i` is the last of the project that bears the label.
pub open spec fn latest_at(
    workers: Seq<LiveWorker>,
    project_key: Seq<char>,
    label: Seq<char>,
    i: int,
) -> bool {
    &&& 0 <= i < workers.len()
    &&& workers[i].project_key@ == project_key
    &&& workers[i].entry.label@ == label
    &&& forall|j: int|
        i < j < workers.len() ==> (#[trigger] workers[j]).project_key@ != project_key
            || workers[j].entry.label@ != label
}

/// No worker of the project bears the label.
pub open spec fn nobody_bears(
    workers: Seq<LiveWorker>,
    project_key: Seq<char>,
    label: Seq<char>,
) -> bool {
    forall|j: int|
        0 <= j < workers.len() ==> (#[trigger] workers[j]).project_key@ != project_key
            || workers[j].entry.label@ != label
}

/// No worker of the project that bears the label is other than failed.
pub open spec fn nobody_up_bears(
    workers: Seq<LiveWorker>,
    project_key: Seq<char>,
    label: Seq<char>,
) -> bool {
    forall|j: int|
        0 <= j < workers.len() ==> (#[trigger] workers[j]).project_key@ != project_key
            || workers[j].entry.label@ != label || workers[j].entry.status
            == WorkerLiveness::Failed
}

/// The worker that is found under a label is the first, or the last, of its
/// project that bears it.
pub proof fn a_found_worker_bears_its_label(
    workers: Seq<LiveWorker>,
    project_key: Seq<char>,
    label: Seq<char>,
    i: int,
)
    ensures
        earliest_at(workers, project_key, label, i) ==> first_match(
            workers,
            labelled(project_key, label),
        ) == Some(workers[i]),
        latest_at(workers, project_key, label, i) ==> last_match(
            workers,
            labelled(project_key, label),
        ) == Some(workers[i]),
        nobody_bears(workers, project_key, label) <==> first_match(
            workers,
            labelled(project_key, label),
        ) is None,
        nobody_bears(workers, project_key, label) <==> last_match(
            workers,
            labelled(project_key, label),
        ) is None,
        nobody_up_bears(workers, project_key, label) <==> first_match(
            workers,
            labelled_up(project_key, label),
        ) is None,
{
    let p = labelled(project_key, label);
    let q = labelled_up(project_key, label);
    if earliest_at(workers, project_key, label, i) {
        crate::seqs::lemma_first_index_is(workers, p, i);
    }
    if latest_at(workers, project_key, label, i) {
        crate::seqs::lemma_last_index_is(workers, p, i);
    }
    if any(workers, p) {
        let k = choose|k: int| 0 <= k < workers.len() && p(#[trigger] workers[k]);
        assert(workers[k].project_key@ == project_key && workers[k].entry.label@ == label);
    }
    if !nobody_bears(workers, project_key, label) {
        let k = choose|k: int|
            0 <= k < workers.len() && !((#[trigger] workers[k]).project_key@ != project_key
                || workers[k].entry.label@ != label);
        assert(p(workers[k]));
    }
    if any(workers, q) {
        let k = choose|k: int| 0 <= k < workers.len() && q(#[trigger] workers[k]);
        assert(workers[k].entry.status != WorkerLiveness::Failed);
    }
    if !nobody_up_bears(workers, project_key, label) {
        let k = choose|k: int|
            0 <= k < workers.len() && !((#[trigger] workers[k]).project_key@ != project_key
                || workers[k].entry.label@ != label || workers[k].entry.status
                == WorkerLiveness::Failed);
        assert(q(workers[k]));
    }
}

/// A worker is refused for its label exactly where another of the project
/// bears it and has not failed. One that is not is refused exactly where the
/// project's workers that have not failed are as many as its cap.
pub proof fn a_worker_is_refused_for_its_label_or_the_cap(
    workers: Seq<LiveWorker>,
    project_key: Seq<char>,
    label: Seq<char>,
    cap: Option<usize>,
)
    requires
        workers.len() <= usize::MAX,
    ensures
        ({
            let answer = refusal(workers, project_key, label, cap);
            let live = workers.filter(
                |w: LiveWorker|
                    w.project_key@ == project_key && w.entry.status != WorkerLiveness::Failed,
            ).len();
            &&& answer is None <==> nobody_up_bears(workers, project_key, label) && (
            cap matches Some(cap) ==> live < cap)
            &&& (answer matches Some(LiveWorkerRefusal::LabelLive(slot)) ==> exists|i: int|
                {
                    &&& 0 <= i < workers.len()
                    &&& (#[trigger] workers[i]).entry.slot == slot
                    &&& workers[i].project_key@ == project_key
                    &&& workers[i].entry.label@ == label
                    &&& workers[i].entry.status != WorkerLiveness::Failed
                })
            &&& (answer matches Some(LiveWorkerRefusal::AtCap { live: l, cap: c }) ==> l == live
                && cap == Some(c) && nobody_up_bears(workers, project_key, label))
        }),
{
    a_found_worker_bears_its_label(workers, project_key, label, 0);
    let q = labelled_up(project_key, label);
    if any(workers, q) {
        crate::seqs::lemma_first_exists(workers, q);
    }
    let counted = |w: LiveWorker|
        w.project_key@ == project_key && w.entry.status != WorkerLiveness::Failed;
    assert(counted =~= up(project_key));
    crate::seqs::lemma_filter_keeps(workers, up(project_key));
}

/// A worker's report says of it what its entry does.
pub proof fn a_report_is_of_its_worker(entry: WorkerEntry)
    ensures
        status_of(entry).label == entry.label,
        status_of(entry).slot == entry.slot,
        status_of(entry).session_id == entry.session_id,
        status_of(entry).status == entry.status,
        status_of(entry).spawned_by == entry.spawned_by,
        status_of(entry).diagnostic == entry.diagnostic,
{
}

/// An admitted worker stands behind the others, and one that is refused
/// changes nothing; which it is follows from the workers there are.
pub proof fn a_worker_is_admitted_or_nothing_changes(
    before: LiveWorkers,
    after: LiveWorkers,
    project_key: String,
    entry: WorkerEntry,
    cap: Option<usize>,
    admitted: Result<(), LiveWorkerRefusal>,
)
    requires
        worker_inserted(before, after, project_key, entry, cap, admitted),
        before@.len() <= usize::MAX,
    ensures
        admitted is Ok <==> nobody_up_bears(before@, project_key@, entry.label@) && (
        cap matches Some(cap) ==> before@.filter(
            |w: LiveWorker|
                w.project_key@ == project_key@ && w.entry.status != WorkerLiveness::Failed,
        ).len() < cap),
        admitted is Ok ==> after@.len() == before@.len() + 1 && after@.last().entry == entry
            && after@.last().project_key == project_key && after@.drop_last() == before@,
        admitted is Err ==> after == before,
{
    a_worker_is_refused_for_its_label_or_the_cap(before@, project_key@, entry.label@, cap);
    if admitted is Ok {
        assert(after@.drop_last() =~= before@);
    }
}

/// A removed worker is the last of its project that bears the label; those
/// before and behind it keep their order.
pub proof fn the_latest_worker_is_removed(
    before: LiveWorkers,
    after: LiveWorkers,
    project_key: String,
    label: String,
    removed: Option<WorkerEntry>,
    i: int,
)
    requires
        latest_removed(before, after, project_key, label, removed),
    ensures
        latest_at(before@, project_key@, label@, i) ==> removed == Some(before@[i].entry) && after@
            == before@.take(i) + before@.skip(i + 1),
        nobody_bears(before@, project_key@, label@) ==> removed is None && after == before,
{
    a_found_worker_bears_its_label(before@, project_key@, label@, i);
    if latest_at(before@, project_key@, label@, i) {
        crate::seqs::lemma_last_index_is(before@, labelled(project_key@, label@), i);
        assert(before@.remove(i) =~= before@.take(i) + before@.skip(i + 1));
    }
}

} // verus!
