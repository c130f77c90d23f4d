//! What the workspace knows: its projects, the sessions that run, the
//! workers that are up, and what waits for a session to connect.

use crate::protocol::{
    GotifyNotification, PendingCron, SlackMessage, WrappedPrompt,
};
use crate::seqs::{any, first_index, first_match, is_first};
use crate::slack::{SlackConfig, SlackState};
use crate::slot::{SessionSlot, SlotId};
use crate::workers::LiveWorkers;
use vstd::prelude::*;

verus! {

/// A project of the configuration.
#[derive(Debug, PartialEq, Eq)]
pub struct ProjectView {
    pub key: String,
    pub org: String,
    pub name: String,
    pub path: String,
    pub display_path: String,
    /// The most workers it may have up, where it states one.
    pub max_workers: Option<usize>,
}

impl Clone for ProjectView {
    fn clone(&self) -> (copy: Self)
        ensures
            copy == *self,
    {
        ProjectView {
            key: self.key.clone(),
            org: self.org.clone(),
            name: self.name.clone(),
            path: self.path.clone(),
            display_path: self.display_path.clone(),
            max_workers: self.max_workers,
        }
    }
}

/// A session the workspace started: its slot, and the id it runs under
/// once it has connected.
#[derive(Debug, PartialEq, Eq)]
pub struct SessionPresence {
    pub slot: SessionSlot,
    pub session_id: Option<String>,
}

/// What waits for a slot's session to connect, each kind in the order it
/// came.
#[derive(Debug, PartialEq, Eq)]
pub struct Parked {
    pub peer: Vec<WrappedPrompt>,
    pub cron: Vec<PendingCron>,
    pub gotify: Vec<GotifyNotification>,
    pub slack: Vec<SlackMessage>,
}

/// The contents of what is parked.
#[verifier::ext_equal]
pub struct ParkedView {
    pub peer: Seq<WrappedPrompt>,
    pub cron: Seq<PendingCron>,
    pub gotify: Seq<GotifyNotification>,
    pub slack: Seq<SlackMessage>,
}

impl View for Parked {
    type V = ParkedView;

    open spec fn view(&self) -> ParkedView {
        ParkedView {
            peer: self.peer@,
            cron: self.cron@,
            gotify: self.gotify@,
            slack: self.slack@,
        }
    }
}

/// Nothing is parked.
pub open spec fn nothing_parked() -> ParkedView {
    ParkedView {
        peer: Seq::empty(),
        cron: Seq::empty(),
        gotify: Seq::empty(),
        slack: Seq::empty(),
    }
}

impl Parked {
    pub fn empty() -> (parked: Self)
        ensures
            parked@ == nothing_parked(),
    {
        Parked { peer: Vec::new(), cron: Vec::new(), gotify: Vec::new(), slack: Vec::new() }
    }
}

/// The bucket of one slot.
#[derive(Debug, PartialEq, Eq)]
pub struct ParkedBucket {
    pub slot: SessionSlot,
    pub parked: Parked,
}

/// What is parked, by slot.
#[derive(Debug, PartialEq, Eq)]
pub struct ParkedPayloads {
    pub buckets: Vec<ParkedBucket>,
}

/// The bucket of `slot`.
pub open spec fn bucket_of(slot: SlotId) -> spec_fn(ParkedBucket) -> bool {
    |b: ParkedBucket| b.slot@ == slot
}

impl ParkedPayloads {
    /// No slot has two buckets.
    pub open spec fn wf(self) -> bool {
        forall|i: int, j: int|
            0 <= i < j < self.buckets@.len() ==> (#[trigger] self.buckets@[i]).slot@ != (
            #[trigger] self.buckets@[j]).slot@
    }

    /// What is parked for `slot`.
    pub open spec fn at(self, slot: SlotId) -> ParkedView {
        parked_in(self.buckets@, slot)
    }

    pub fn new() -> (payloads: Self)
        ensures
            payloads.wf(),
            forall|slot: SlotId| #[trigger] payloads.at(slot) == nothing_parked(),
    {
        let payloads = ParkedPayloads { buckets: Vec::new() };
        assert forall|slot: SlotId| #[trigger] payloads.at(slot) == nothing_parked() by {
            assert(!any(payloads.buckets@, bucket_of(slot)));
        }
        payloads
    }

    /// Where the bucket of `slot` stands.
    fn index_of(&self, slot: &SessionSlot) -> (found: Option<usize>)
        ensures
            match found {
                Some(i) => i < self.buckets@.len() && self.buckets@[i as int].slot@ == slot@
                    && first_index(self.buckets@, bucket_of(slot@)) == Some(i as int),
                None => !any(self.buckets@, bucket_of(slot@)),
            },
    {
        let ghost p = bucket_of(slot@);
        let mut i: usize = 0;
        while i < self.buckets.len()
            invariant
                i <= self.buckets@.len(),
                p == bucket_of(slot@),
                forall|j: int| 0 <= j < i ==> !p(#[trigger] self.buckets@[j]),
            decreases self.buckets@.len() - i,
        {
            if self.buckets[i].slot.same(slot) {
                proof {
                    assert(is_first(self.buckets@, p, i as int));
                    crate::seqs::lemma_first_index_is(self.buckets@, p, i as int);
                }
                return Some(i);
            }
            i = i + 1;
        }
        None
    }

    /// Take what is parked for `slot`, leaving nothing there.
    pub fn take(&mut self, slot: &SessionSlot) -> (parked: Parked)
        requires
            old(self).wf(),
        ensures
            final(self).wf(),
            parked@ == old(self).at(slot@),
            final(self).at(slot@) == nothing_parked(),
            forall|other: SlotId|
                other != slot@ ==> #[trigger] final(self).at(other) == old(self).at(other),
    {
        match self.index_of(slot) {
            Some(i) => {
                let ghost before = self.buckets@;
                let bucket = self.buckets.remove(i);
                proof {
                    let after = self.buckets@;
                    assert(after =~= before.remove(i as int));
                    assert(!any(after, bucket_of(slot@))) by {
                        if any(after, bucket_of(slot@)) {
                            let k = choose|k: int|
                                0 <= k < after.len() && bucket_of(slot@)(#[trigger] after[k]);
                            if k < i {
                                assert(before[k].slot@ != before[i as int].slot@);
                            } else {
                                assert(after[k] == before[k + 1]);
                                assert(before[i as int].slot@ != before[k + 1].slot@);
                            }
                        }
                    }
                    assert forall|other: SlotId| other != slot@ implies #[trigger] self.at(other)
                        == old(self).at(other) by {
                        lemma_removal_keeps_others(before, i as int, other);
                    }
                    assert forall|a: int, b: int| 0 <= a < b < after.len() implies (
                    #[trigger] after[a]).slot@ != (#[trigger] after[b]).slot@ by {
                        let x = if a < i { a } else { a + 1 };
                        let y = if b < i { b } else { b + 1 };
                        assert(after[a] == before[x]);
                        assert(after[b] == before[y]);
                    }
                }
                bucket.parked
            },
            None => Parked::empty(),
        }
    }

    /// Where the bucket of `slot` stands, after making one if there was none.
    fn bucket_at(&mut self, slot: &SessionSlot) -> (i: usize)
        requires
            old(self).wf(),
        ensures
            final(self).wf(),
            i < final(self).buckets@.len(),
            final(self).buckets@[i as int].slot@ == slot@,
            forall|other: SlotId| #[trigger] final(self).at(other) == old(self).at(other),
            final(self).buckets@[i as int].parked@ == old(self).at(slot@),
    {
        match self.index_of(slot) {
            Some(i) => i,
            None => {
                let ghost before = self.buckets@;
                let i = self.buckets.len();
                let parked = Parked::empty();
                self.buckets.push(ParkedBucket { slot: slot.clone(), parked });
                proof {
                    let after = self.buckets@;
                    assert forall|other: SlotId| #[trigger] self.at(other) == old(self).at(
                        other,
                    ) by {
                        lemma_push_bucket(before, after.last(), other);
                    }
                    assert forall|a: int, b: int| 0 <= a < b < after.len() implies (
                    #[trigger] after[a]).slot@ != (#[trigger] after[b]).slot@ by {
                        if b == before.len() {
                            assert(!bucket_of(slot@)(before[a]));
                        }
                    }
                }
                i
            },
        }
    }

    /// Park an envelope for `slot`, behind what is parked there.
    pub fn park_peer_prompt(&mut self, slot: &SessionSlot, wrapped: WrappedPrompt)
        requires
            old(self).wf(),
        ensures
            final(self).wf(),
            final(self).at(slot@) == (ParkedView {
                peer: old(self).at(slot@).peer.push(wrapped),
                ..old(self).at(slot@)
            }),
            forall|other: SlotId|
                other != slot@ ==> #[trigger] final(self).at(other) == old(self).at(other),
    {
        let i = self.bucket_at(slot);
        let ghost mid = *self;
        self.buckets[i].parked.peer.push(wrapped);
        proof {
            lemma_bucket_changed(mid.buckets@, self.buckets@, i as int);
            assert forall|other: SlotId| other != slot@ implies #[trigger] self.at(other) == old(
                self).at(other) by {
                assert(mid.at(other) == old(self).at(other));
            }
        }
    }

    /// Park a cron's prompt for `slot`, behind what is parked there.
    pub fn park_cron(&mut self, slot: &SessionSlot, text: String, missed: bool)
        requires
            old(self).wf(),
        ensures
            final(self).wf(),
            final(self).at(slot@) == (ParkedView {
                cron: old(self).at(slot@).cron.push(PendingCron { text, missed }),
                ..old(self).at(slot@)
            }),
            forall|other: SlotId|
                other != slot@ ==> #[trigger] final(self).at(other) == old(self).at(other),
    {
        let i = self.bucket_at(slot);
        let ghost mid = *self;
        self.buckets[i].parked.cron.push(PendingCron { text, missed });
        proof {
            lemma_bucket_changed(mid.buckets@, self.buckets@, i as int);
            assert forall|other: SlotId| other != slot@ implies #[trigger] self.at(other) == old(
                self).at(other) by {
                assert(mid.at(other) == old(self).at(other));
            }
        }
    }

    /// Park a notification for `slot`, behind what is parked there.
    pub fn park_gotify(&mut self, slot: &SessionSlot, notification: GotifyNotification)
        requires
            old(self).wf(),
        ensures
            final(self).wf(),
            final(self).at(slot@) == (ParkedView {
                gotify: old(self).at(slot@).gotify.push(notification),
                ..old(self).at(slot@)
            }),
            forall|other: SlotId|
                other != slot@ ==> #[trigger] final(self).at(other) == old(self).at(other),
    {
        let i = self.bucket_at(slot);
        let ghost mid = *self;
        self.buckets[i].parked.gotify.push(notification);
        proof {
            lemma_bucket_changed(mid.buckets@, self.buckets@, i as int);
            assert forall|other: SlotId| other != slot@ implies #[trigger] self.at(other) == old(
                self).at(other) by {
                assert(mid.at(other) == old(self).at(other));
            }
        }
    }

    /// Park a Slack message for `slot`, behind what is parked there.
    pub fn park_slack(&mut self, slot: &SessionSlot, message: SlackMessage)
        requires
            old(self).wf(),
        ensures
            final(self).wf(),
            final(self).at(slot@) == (ParkedView {
                slack: old(self).at(slot@).slack.push(message),
                ..old(self).at(slot@)
            }),
            forall|other: SlotId|
                other != slot@ ==> #[trigger] final(self).at(other) == old(self).at(other),
    {
        let i = self.bucket_at(slot);
        let ghost mid = *self;
        self.buckets[i].parked.slack.push(message);
        proof {
            lemma_bucket_changed(mid.buckets@, self.buckets@, i as int);
            assert forall|other: SlotId| other != slot@ implies #[trigger] self.at(other) == old(
                self).at(other) by {
                assert(mid.at(other) == old(self).at(other));
            }
        }
    }
}

/// What the buckets hold for a slot.
pub open spec fn parked_in(buckets: Seq<ParkedBucket>, slot: SlotId) -> ParkedView {
    match first_match(buckets, bucket_of(slot)) {
        Some(bucket) => bucket.parked@,
        None => nothing_parked(),
    }
}

proof fn lemma_removal_keeps_others(before: Seq<ParkedBucket>, i: int, other: SlotId)
    requires
        0 <= i < before.len(),
        before[i].slot@ != other,
    ensures
        parked_in(before.remove(i), other) == parked_in(before, other),
{
    let p = bucket_of(other);
    let after = before.remove(i);
    if any(before, p) {
        crate::seqs::lemma_first_exists(before, p);
        let f = first_index(before, p)->0;
        let g = if f < i { f } else { f - 1 };
        assert(after[g] == before[f]);
        assert(is_first(after, p, g)) by {
            assert forall|j: int| 0 <= j < g implies !p(#[trigger] after[j]) by {
                if j < i {
                    assert(!p(before[j]));
                } else {
                    assert(!p(before[j + 1]));
                }
            }
        }
        crate::seqs::lemma_first_index_is(after, p, g);
    } else {
        if any(after, p) {
            let k = choose|k: int| 0 <= k < after.len() && p(#[trigger] after[k]);
            if k < i {
                assert(p(before[k]));
            } else {
                assert(p(before[k + 1]));
            }
        }
    }
}

proof fn lemma_push_bucket(before: Seq<ParkedBucket>, bucket: ParkedBucket, other: SlotId)
    requires
        bucket.parked@ == nothing_parked(),
    ensures
        parked_in(before.push(bucket), other) == parked_in(before, other),
{
    let p = bucket_of(other);
    let after = before.push(bucket);
    if any(before, p) {
        crate::seqs::lemma_first_exists(before, p);
        let f = first_index(before, p)->0;
        assert(is_first(after, p, f)) by {
            assert forall|j: int| 0 <= j < f implies !p(#[trigger] after[j]) by {
                assert(!p(before[j]));
            }
        }
        crate::seqs::lemma_first_index_is(after, p, f);
    } else if any(after, p) {
        crate::seqs::lemma_first_exists(after, p);
        let f = first_index(after, p)->0;
        if f < before.len() {
            assert(p(before[f]));
        }
    }
}

proof fn lemma_bucket_changed(before: Seq<ParkedBucket>, after: Seq<ParkedBucket>, i: int)
    requires
        0 <= i < before.len(),
        after.len() == before.len(),
        after[i].slot == before[i].slot,
        forall|j: int| 0 <= j < before.len() && j != i ==> after[j] == before[j],
        forall|a: int, b: int|
            0 <= a < b < before.len() ==> (#[trigger] before[a]).slot@ != (
            #[trigger] before[b]).slot@,
    ensures
        forall|a: int, b: int|
            0 <= a < b < after.len() ==> (#[trigger] after[a]).slot@ != (
            #[trigger] after[b]).slot@,
        parked_in(after, before[i].slot@) == after[i].parked@,
        parked_in(before, before[i].slot@) == before[i].parked@,
        forall|other: SlotId|
            other != before[i].slot@ ==> #[trigger] parked_in(after, other) == parked_in(
                before,
                other,
            ),
{
    assert forall|a: int, b: int| 0 <= a < b < after.len() implies (#[trigger] after[a]).slot@
        != (#[trigger] after[b]).slot@ by {
        assert(after[a].slot == before[a].slot);
        assert(after[b].slot == before[b].slot);
    }
    let p = bucket_of(before[i].slot@);
    assert(is_first(before, p, i));
    assert(is_first(after, p, i)) by {
        assert forall|j: int| 0 <= j < i implies !p(#[trigger] after[j]) by {
            assert(!p(before[j]));
        }
    }
    crate::seqs::lemma_first_index_is(before, p, i);
    crate::seqs::lemma_first_index_is(after, p, i);
    assert forall|other: SlotId| other != before[i].slot@ implies #[trigger] parked_in(
        after,
        other,
    ) == parked_in(before, other) by {
        let q = bucket_of(other);
        if any(before, q) {
            crate::seqs::lemma_first_exists(before, q);
            let f = first_index(before, q)->0;
            assert(is_first(after, q, f)) by {
                assert forall|j: int| 0 <= j < f implies !q(#[trigger] after[j]) by {
                    assert(!q(before[j]));
                }
            }
            crate::seqs::lemma_first_index_is(after, q, f);
        } else if any(after, q) {
            let k = choose|k: int| 0 <= k < after.len() && q(#[trigger] after[k]);
            assert(q(before[k]));
        }
    }
}

/// What the workspace knows.
#[derive(Debug, PartialEq, Eq)]
pub struct Workspace {
    /// The projects of the configuration, in its order.
    pub projects: Vec<ProjectView>,
    /// The project that starts where none is named.
    pub default_project: ProjectView,
    pub live_workers: LiveWorkers,
    /// The slots whose agent is running.
    pub pool: Vec<SessionSlot>,
    /// The sessions that were started.
    pub sessions: Vec<SessionPresence>,
    pub parked: ParkedPayloads,
    pub slack: SlackState,
}

/// The projects of one name.
pub open spec fn has_name(name: Seq<char>) -> spec_fn(ProjectView) -> bool {
    |p: ProjectView| p.name@ == name
}

/// The projects of one key.
pub open spec fn has_key(key: Seq<char>) -> spec_fn(ProjectView) -> bool {
    |p: ProjectView| p.key@ == key
}

/// The projects that declare a slot.
pub open spec fn declares(slot: SlotId) -> spec_fn(ProjectView) -> bool {
    |p: ProjectView| p.org@ == slot.org && p.name@ == slot.project
}

/// The sessions of one slot.
pub open spec fn fills(slot: SlotId) -> spec_fn(SessionPresence) -> bool {
    |s: SessionPresence| s.slot@ == slot
}

/// The slots that are the same seat as `slot`.
pub open spec fn is_slot(slot: SlotId) -> spec_fn(SessionSlot) -> bool {
    |s: SessionSlot| s@ == slot
}

/// The slots that are another seat than `slot`.
pub open spec fn other_slot(slot: SlotId) -> spec_fn(SessionSlot) -> bool {
    |s: SessionSlot| s@ != slot
}

/// The sessions of other slots.
pub open spec fn fills_other(slot: SlotId) -> spec_fn(SessionPresence) -> bool {
    |s: SessionPresence| s.slot@ != slot
}

/// A session once that of `slot` runs under `session_id`.
pub open spec fn connected_as(slot: SlotId, session_id: String) -> spec_fn(
    SessionPresence,
) -> SessionPresence {
    |s: SessionPresence|
        if s.slot@ == slot {
            SessionPresence { session_id: Some(session_id), ..s }
        } else {
            s
        }
}

/// What registering a session comes to.
pub open spec fn session_registered(
    before: Workspace,
    after: Workspace,
    slot: SessionSlot,
) -> bool {
    &&& after.pool@ == before.pool@.filter(other_slot(slot@)).push(slot)
    &&& after.sessions@ == before.sessions@.filter(fills_other(slot@)).push(
        SessionPresence { slot, session_id: None },
    )
    &&& after == (Workspace {
        pool: after.pool,
        sessions: after.sessions,
        ..before
    })
}

/// What noting a session's id comes to.
pub open spec fn session_noted(
    before: Workspace,
    after: Workspace,
    slot: SessionSlot,
    session_id: String,
) -> bool {
    &&& after.sessions@ == before.sessions@.map_values(
        connected_as(slot@, session_id),
    )
    &&& after == (Workspace { sessions: after.sessions, ..before })
}

/// What forgetting a session comes to.
pub open spec fn session_forgotten(
    before: Workspace,
    after: Workspace,
    slot: SessionSlot,
) -> bool {
    &&& after.pool@ == before.pool@.filter(other_slot(slot@))
    &&& after.sessions@ == before.sessions@.filter(fills_other(slot@))
    &&& after == (Workspace {
        pool: after.pool,
        sessions: after.sessions,
        ..before
    })
}

impl Workspace {
    pub open spec fn wf(self) -> bool {
        self.parked.wf() && self.slack.wf()
    }

    /// A workspace of the configured projects in which nothing runs yet.
    pub fn new(
        projects: Vec<ProjectView>,
        default_project: ProjectView,
        slack: Vec<SlackConfig>,
    ) -> (workspace: Self)
        ensures
            workspace.wf(),
            workspace.projects == projects,
            workspace.default_project == default_project,
            workspace.live_workers@.len() == 0,
            workspace.pool@.len() == 0,
            workspace.sessions@.len() == 0,
            forall|slot: SlotId| #[trigger] workspace.parked.at(slot) == nothing_parked(),
            workspace.slack.configs == slack,
            workspace.slack.subs@.len() == 0,
            workspace.slack.running@.len() == 0,
            workspace.slack.connected@ == Map::<Seq<char>, bool>::empty(),
            workspace.slack.delivered@.len() == 0,
            workspace.slack.drafts@.len() == 0,
            workspace.slack.user_ids@ == Map::<Seq<char>, String>::empty(),
            !workspace.slack.verification_started,
    {
        Workspace {
            projects,
            default_project,
            live_workers: LiveWorkers::new(),
            pool: Vec::new(),
            sessions: Vec::new(),
            parked: ParkedPayloads::new(),
            slack: SlackState::new(slack),
        }
    }

    /// The project called `name`.
    pub open spec fn project_named(self, name: Seq<char>) -> Option<ProjectView> {
        first_match(self.projects@, has_name(name))
    }

    /// The project with `key`.
    pub open spec fn project_keyed(self, key: Seq<char>) -> Option<ProjectView> {
        first_match(self.projects@, has_key(key))
    }

    /// The agent of `slot` is running.
    pub open spec fn pooled(self, slot: SlotId) -> bool {
        any(self.pool@, is_slot(slot))
    }

    /// The session of `slot`, if one was started.
    pub open spec fn presence(self, slot: SlotId) -> Option<SessionPresence> {
        first_match(self.sessions@, fills(slot))
    }

    /// The session of `slot` has connected: it has an id to be addressed by.
    pub open spec fn connected(self, slot: SlotId) -> bool {
        self.presence(slot) matches Some(session) && session.session_id is Some
    }

    /// The lead's slot of the project called `name`, where its agent is
    /// running.
    pub open spec fn running_lead(self, name: Seq<char>) -> Option<SessionSlot> {
        match self.project_named(name) {
            Some(project) => {
                let slot = crate::slot::lead_slot(project.org, project.name);
                if self.pooled(slot@) {
                    Some(slot)
                } else {
                    None
                }
            },
            None => None,
        }
    }

    pub fn find_project_view_by_name(&self, name: &String) -> (found: Option<&ProjectView>)
        ensures
            match found {
                Some(project) => self.project_named(name@) == Some(*project),
                None => self.project_named(name@) is None,
            },
    {
        let ghost p = has_name(name@);
        let mut i: usize = 0;
        while i < self.projects.len()
            invariant
                i <= self.projects@.len(),
                p == has_name(name@),
                forall|j: int| 0 <= j < i ==> !p(#[trigger] self.projects@[j]),
            decreases self.projects@.len() - i,
        {
            if self.projects[i].name == *name {
                proof {
                    assert(is_first(self.projects@, p, i as int));
                    crate::seqs::lemma_first_index_is(self.projects@, p, i as int);
                }
                return Some(&self.projects[i]);
            }
            i = i + 1;
        }
        assert(!any(self.projects@, p));
        None
    }

    pub fn project_for_key(&self, key: &String) -> (found: Option<&ProjectView>)
        ensures
            match found {
                Some(project) => self.project_keyed(key@) == Some(*project),
                None => self.project_keyed(key@) is None,
            },
    {
        let ghost p = has_key(key@);
        let mut i: usize = 0;
        while i < self.projects.len()
            invariant
                i <= self.projects@.len(),
                p == has_key(key@),
                forall|j: int| 0 <= j < i ==> !p(#[trigger] self.projects@[j]),
            decreases self.projects@.len() - i,
        {
            if self.projects[i].key == *key {
                proof {
                    assert(is_first(self.projects@, p, i as int));
                    crate::seqs::lemma_first_index_is(self.projects@, p, i as int);
                }
                return Some(&self.projects[i]);
            }
            i = i + 1;
        }
        assert(!any(self.projects@, p));
        None
    }

    /// The project that declares `slot`.
    pub fn project_for_slot(&self, slot: &SessionSlot) -> (found: Option<&ProjectView>)
        ensures
            match found {
                Some(project) => first_match(self.projects@, declares(slot@)) == Some(*project),
                None => first_match(self.projects@, declares(slot@)) is None,
            },
    {
        let ghost p = declares(slot@);
        let mut i: usize = 0;
        while i < self.projects.len()
            invariant
                i <= self.projects@.len(),
                p == declares(slot@),
                forall|j: int| 0 <= j < i ==> !p(#[trigger] self.projects@[j]),
            decreases self.projects@.len() - i,
        {
            if self.projects[i].org == slot.org && self.projects[i].name == slot.project {
                proof {
                    assert(is_first(self.projects@, p, i as int));
                    crate::seqs::lemma_first_index_is(self.projects@, p, i as int);
                }
                return Some(&self.projects[i]);
            }
            i = i + 1;
        }
        assert(!any(self.projects@, p));
        None
    }

    pub fn session_is_pooled(&self, slot: &SessionSlot) -> (pooled: bool)
        ensures
            pooled == self.pooled(slot@),
    {
        let ghost p = is_slot(slot@);
        let mut i: usize = 0;
        while i < self.pool.len()
            invariant
                i <= self.pool@.len(),
                p == is_slot(slot@),
                forall|j: int| 0 <= j < i ==> !p(#[trigger] self.pool@[j]),
            decreases self.pool@.len() - i,
        {
            if self.pool[i].same(slot) {
                assert(p(self.pool@[i as int]));
                return true;
            }
            i = i + 1;
        }
        assert(!any(self.pool@, p));
        false
    }

    /// The session of `slot`, if one was started.
    pub fn domain_session_for(&self, slot: &SessionSlot) -> (found: Option<&SessionPresence>)
        ensures
            match found {
                Some(session) => self.presence(slot@) == Some(*session),
                None => self.presence(slot@) is None,
            },
    {
        let ghost p = fills(slot@);
        let mut i: usize = 0;
        while i < self.sessions.len()
            invariant
                i <= self.sessions@.len(),
                p == fills(slot@),
                forall|j: int| 0 <= j < i ==> !p(#[trigger] self.sessions@[j]),
            decreases self.sessions@.len() - i,
        {
            if self.sessions[i].slot.same(slot) {
                proof {
                    assert(is_first(self.sessions@, p, i as int));
                    crate::seqs::lemma_first_index_is(self.sessions@, p, i as int);
                }
                return Some(&self.sessions[i]);
            }
            i = i + 1;
        }
        assert(!any(self.sessions@, p));
        None
    }

    /// A session was started under `slot`, with its agent running and no id
    /// yet; one that was there before it is gone.
    pub fn register_session(&mut self, slot: &SessionSlot)
        ensures
            session_registered(*old(self), *final(self), *slot),
    {
        self.forget_session(slot);
        self.pool.push(slot.clone());
        self.sessions.push(SessionPresence { slot: slot.clone(), session_id: None });
    }

    /// The session of `slot` runs under `session_id`.
    pub fn note_session_id(&mut self, slot: &SessionSlot, session_id: &String)
        ensures
            session_noted(*old(self), *final(self), *slot, *session_id),
    {
        let ghost before = self.sessions@;
        let ghost f = connected_as(slot@, *session_id);
        let mut i: usize = 0;
        while i < self.sessions.len()
            invariant
                i <= self.sessions@.len(),
                f == connected_as(slot@, *session_id),
                self.sessions@.len() == before.len(),
                forall|j: int| 0 <= j < i ==> #[trigger] self.sessions@[j] == f(before[j]),
                forall|j: int| i <= j < before.len() ==> #[trigger] self.sessions@[j] == before[j],
                *self == (Workspace { sessions: self.sessions, ..*old(self) }),
            decreases self.sessions@.len() - i,
        {
            if self.sessions[i].slot.same(slot) {
                self.sessions[i].session_id = Some(session_id.clone());
            }
            i = i + 1;
        }
        assert(self.sessions@ =~= before.map_values(f));
    }

    /// The session of `slot` is gone, and its agent with it.
    pub fn forget_session(&mut self, slot: &SessionSlot)
        ensures
            session_forgotten(*old(self), *final(self), *slot),
    {
        let ghost pool = self.pool@;
        let ghost sessions = self.sessions@;
        let ghost p = other_slot(slot@);
        let ghost q = fills_other(slot@);
        let mut kept: Vec<SessionSlot> = Vec::new();
        proof {
            crate::seqs::lemma_filter_ends(pool, p);
            crate::seqs::lemma_filter_ends(sessions, q);
        }
        for i in 0..self.pool.len()
            invariant
                pool == self.pool@,
                p == other_slot(slot@),
                kept@ == pool.take(i as int).filter(p),
        {
            proof {
                crate::seqs::lemma_filter_step(pool, p, i as int);
            }
            if !self.pool[i].same(slot) {
                kept.push(self.pool[i].clone());
            }
        }
        let mut stay: Vec<SessionPresence> = Vec::new();
        for i in 0..self.sessions.len()
            invariant
                sessions == self.sessions@,
                q == fills_other(slot@),
                stay@ == sessions.take(i as int).filter(q),
        {
            proof {
                crate::seqs::lemma_filter_step(sessions, q, i as int);
            }
            if !self.sessions[i].slot.same(slot) {
                stay.push(
                    SessionPresence {
                        slot: self.sessions[i].slot.clone(),
                        session_id: crate::slot::clone_option(&self.sessions[i].session_id),
                    },
                );
            }
        }
        self.pool = kept;
        self.sessions = stay;
    }

    /// Whether the session of `slot` has an id to be addressed by.
    pub fn is_connected(&self, slot: &SessionSlot) -> (connected: bool)
        ensures
            connected == self.connected(slot@),
    {
        match self.domain_session_for(slot) {
            Some(session) => match &session.session_id {
                Some(_) => true,
                None => false,
            },
            None => false,
        }
    }

    /// The lead of the project called `name`, where its agent is running.
    pub fn running_lead_slot(&self, name: &String) -> (found: Option<SessionSlot>)
        ensures
            found == self.running_lead(name@),
    {
        match self.find_project_view_by_name(name) {
            Some(project) => {
                let slot = SessionSlot::lead(&project.org, &project.name);
                if self.session_is_pooled(&slot) {
                    Some(slot)
                } else {
                    None
                }
            },
            None => None,
        }
    }
}

/// A session that was registered is the one of its slot, with its agent
/// running; once its id is noted it is connected, and once it is forgotten
/// neither it nor its agent is there. No other slot notices.
pub proof fn registered_then_forgotten(
    pool: Seq<SessionSlot>,
    sessions: Seq<SessionPresence>,
    slot: SessionSlot,
    session_id: String,
    other: SlotId,
)
    requires
        other != slot@,
    ensures
        ({
            let fresh = SessionPresence { slot, session_id: None };
            let with = sessions.filter(fills_other(slot@)).push(fresh);
            let noted = with.map_values(connected_as(slot@, session_id));
            &&& any(pool.filter(other_slot(slot@)).push(slot), is_slot(slot@))
            &&& first_match(with, fills(slot@)) == Some(fresh)
            &&& first_match(noted, fills(slot@)) == Some(
                SessionPresence { slot, session_id: Some(session_id) },
            )
            &&& !any(pool.filter(other_slot(slot@)), is_slot(slot@))
            &&& !any(sessions.filter(fills_other(slot@)), fills(slot@))
            &&& first_match(sessions.filter(fills_other(slot@)), fills(other)) == first_match(
                sessions,
                fills(other),
            )
        }),
{
    let p = other_slot(slot@);
    let q = fills_other(slot@);
    let fresh = SessionPresence { slot, session_id: None };
    let left = sessions.filter(q);
    let with = left.push(fresh);
    let noted = with.map_values(connected_as(slot@, session_id));
    crate::seqs::lemma_filter_keeps(pool, p);
    crate::seqs::lemma_filter_keeps(sessions, q);
    assert(is_slot(slot@)(pool.filter(p).push(slot)[pool.filter(p).len() as int]));
    assert forall|j: int| 0 <= j < left.len() implies !fills(slot@)(#[trigger] with[j])
        && !fills(slot@)(noted[j]) by {
        assert(q(left[j]));
    }
    crate::seqs::lemma_first_index_is(with, fills(slot@), left.len() as int);
    crate::seqs::lemma_first_index_is(noted, fills(slot@), left.len() as int);
    crate::seqs::lemma_filter_first(sessions, q, fills(other));
}

/// A seat is pooled exactly where an entry of the pool has its organisation,
/// its project and its label.
pub proof fn a_pooled_seat_is_in_the_pool(workspace: Workspace, slot: SessionSlot)
    ensures
        workspace.pooled(slot@) <==> exists|i: int|
            {
                &&& 0 <= i < workspace.pool@.len()
                &&& (#[trigger] workspace.pool@[i]).org@ == slot.org@
                &&& workspace.pool@[i].project@ == slot.project@
                &&& match (workspace.pool@[i].label, slot.label) {
                    (Some(a), Some(b)) => a@ == b@,
                    (None, None) => true,
                    _ => false,
                }
            },
{
    if workspace.pooled(slot@) {
        let i = choose|i: int|
            0 <= i < workspace.pool@.len() && is_slot(slot@)(#[trigger] workspace.pool@[i]);
        assert(workspace.pool@[i]@ == slot@);
    }
    if exists|i: int|
        {
            &&& 0 <= i < workspace.pool@.len()
            &&& (#[trigger] workspace.pool@[i]).org@ == slot.org@
            &&& workspace.pool@[i].project@ == slot.project@
            &&& match (workspace.pool@[i].label, slot.label) {
                (Some(a), Some(b)) => a@ == b@,
                (None, None) => true,
                _ => false,
            }
        } {
        let i = choose|i: int|
            {
                &&& 0 <= i < workspace.pool@.len()
                &&& (#[trigger] workspace.pool@[i]).org@ == slot.org@
                &&& workspace.pool@[i].project@ == slot.project@
                &&& match (workspace.pool@[i].label, slot.label) {
                    (Some(a), Some(b)) => a@ == b@,
                    (None, None) => true,
                    _ => false,
                }
            };
        assert(is_slot(slot@)(workspace.pool@[i]));
    }
}

/// A seat is connected exactly where the first session that fills it has an
/// id.
pub proof fn a_connected_seat_has_an_id(workspace: Workspace, slot: SlotId, i: int)
    requires
        0 <= i < workspace.sessions@.len(),
        workspace.sessions@[i].slot@ == slot,
        forall|j: int| 0 <= j < i ==> (#[trigger] workspace.sessions@[j]).slot@ != slot,
    ensures
        workspace.presence(slot) == Some(workspace.sessions@[i]),
        workspace.connected(slot) <==> workspace.sessions@[i].session_id is Some,
{
    crate::seqs::lemma_first_index_is(workspace.sessions@, fills(slot), i);
}

/// A seat that no session fills is neither present nor connected.
pub proof fn an_empty_seat_is_not_connected(workspace: Workspace, slot: SlotId)
    requires
        forall|j: int|
            0 <= j < workspace.sessions@.len() ==> (#[trigger] workspace.sessions@[j]).slot@
                != slot,
    ensures
        workspace.presence(slot) is None,
        !workspace.connected(slot),
{
    assert(!any(workspace.sessions@, fills(slot)));
}

/// A project is found under a name, and under a key, exactly where it is the
/// first that bears it.
pub proof fn the_first_project_is_found(workspace: Workspace, text: Seq<char>, i: int)
    requires
        0 <= i < workspace.projects@.len(),
    ensures
        workspace.projects@[i].name@ == text && (forall|j: int|
            0 <= j < i ==> (#[trigger] workspace.projects@[j]).name@ != text)
            ==> workspace.project_named(text) == Some(workspace.projects@[i]),
        workspace.projects@[i].key@ == text && (forall|j: int|
            0 <= j < i ==> (#[trigger] workspace.projects@[j]).key@ != text)
            ==> workspace.project_keyed(text) == Some(workspace.projects@[i]),
        workspace.project_named(text) is None ==> workspace.projects@[i].name@ != text,
        workspace.project_keyed(text) is None ==> workspace.projects@[i].key@ != text,
{
    if workspace.projects@[i].name@ == text && (forall|j: int|
        0 <= j < i ==> (#[trigger] workspace.projects@[j]).name@ != text) {
        crate::seqs::lemma_first_index_is(workspace.projects@, has_name(text), i);
    }
    if workspace.projects@[i].key@ == text && (forall|j: int|
        0 <= j < i ==> (#[trigger] workspace.projects@[j]).key@ != text) {
        crate::seqs::lemma_first_index_is(workspace.projects@, has_key(text), i);
    }
    if workspace.projects@[i].name@ == text {
        assert(has_name(text)(workspace.projects@[i]));
        assert(any(workspace.projects@, has_name(text)));
    }
    if workspace.projects@[i].key@ == text {
        assert(has_key(text)(workspace.projects@[i]));
        assert(any(workspace.projects@, has_key(text)));
    }
}

/// What is found under a name bears it, and what is found under a key bears
/// that.
pub proof fn a_found_project_bears_its_name(workspace: Workspace, text: Seq<char>)
    ensures
        workspace.project_named(text) matches Some(project) ==> project.name@ == text
            && workspace.projects@.contains(project),
        workspace.project_keyed(text) matches Some(project) ==> project.key@ == text
            && workspace.projects@.contains(project),
{
    if workspace.project_named(text) is Some {
        crate::seqs::lemma_first_exists(workspace.projects@, has_name(text));
    }
    if workspace.project_keyed(text) is Some {
        crate::seqs::lemma_first_exists(workspace.projects@, has_key(text));
    }
}

/// A project's lead runs exactly where the project is known and the seat
/// without a label is pooled.
pub proof fn a_running_lead_is_pooled(workspace: Workspace, name: Seq<char>)
    ensures
        workspace.running_lead(name) is Some <==> (workspace.project_named(name) matches Some(
            project,
        ) && workspace.pooled(
            SlotId { org: project.org@, project: project.name@, label: None },
        )),
        workspace.running_lead(name) matches Some(slot) ==> slot.label is None && (
        workspace.project_named(name) matches Some(project) && slot.org == project.org
            && slot.project == project.name),
{
}

/// What waits in a bucket is what waits at its slot, and nothing waits at a
/// slot without a bucket.
pub proof fn what_waits_is_in_the_bucket(parked: ParkedPayloads, slot: SlotId)
    requires
        parked.wf(),
    ensures
        forall|i: int|
            0 <= i < parked.buckets@.len() && (#[trigger] parked.buckets@[i]).slot@ == slot ==> {
                &&& parked.at(slot).peer == parked.buckets@[i].parked.peer@
                &&& parked.at(slot).cron == parked.buckets@[i].parked.cron@
                &&& parked.at(slot).gotify == parked.buckets@[i].parked.gotify@
                &&& parked.at(slot).slack == parked.buckets@[i].parked.slack@
            },
        (forall|i: int|
            0 <= i < parked.buckets@.len() ==> (#[trigger] parked.buckets@[i]).slot@ != slot) ==> {
            &&& parked.at(slot).peer.len() == 0
            &&& parked.at(slot).cron.len() == 0
            &&& parked.at(slot).gotify.len() == 0
            &&& parked.at(slot).slack.len() == 0
        },
{
    assert forall|i: int|
        0 <= i < parked.buckets@.len() && (#[trigger] parked.buckets@[i]).slot@
            == slot implies parked.at(slot) == parked.buckets@[i].parked@ by {
        crate::seqs::lemma_first_index_is(parked.buckets@, bucket_of(slot), i);
    }
    if forall|i: int|
        0 <= i < parked.buckets@.len() ==> (#[trigger] parked.buckets@[i]).slot@ != slot {
        assert(!any(parked.buckets@, bucket_of(slot)));
    }
}

/// A noted id is that of the session in the seat, and no other session
/// changes; every session stays in its seat.
pub proof fn a_noted_id_is_of_its_seat_alone(
    sessions: Seq<SessionPresence>,
    slot: SlotId,
    session_id: String,
    i: int,
)
    requires
        0 <= i < sessions.len(),
    ensures
        ({
            let after = sessions.map_values(connected_as(slot, session_id));
            &&& after.len() == sessions.len()
            &&& after[i].slot == sessions[i].slot
            &&& sessions[i].slot@ == slot ==> after[i].session_id == Some(session_id)
            &&& sessions[i].slot@ != slot ==> after[i] == sessions[i]
        }),
{
}

/// What is registered in a seat replaces what was there, and what is forgotten
/// leaves it empty; every other seat keeps what it has.
pub proof fn a_seat_is_taken_and_left_alone(
    pool: Seq<SessionSlot>,
    sessions: Seq<SessionPresence>,
    slot: SlotId,
    i: int,
)
    ensures
        ({
            let others = pool.filter(other_slot(slot));
            let rest = sessions.filter(fills_other(slot));
            &&& 0 <= i < others.len() ==> others[i]@ != slot && pool.contains(others[i])
            &&& 0 <= i < rest.len() ==> rest[i].slot@ != slot && sessions.contains(rest[i])
            &&& 0 <= i < pool.len() && pool[i]@ != slot ==> others.contains(pool[i])
            &&& 0 <= i < sessions.len() && sessions[i].slot@ != slot ==> rest.contains(sessions[i])
        }),
{
    let p = other_slot(slot);
    let q = fills_other(slot);
    crate::seqs::lemma_filter_keeps(pool, p);
    crate::seqs::lemma_filter_keeps(sessions, q);
    if 0 <= i < pool.filter(p).len() {
        assert(p(pool.filter(p)[i]));
    }
    if 0 <= i < sessions.filter(q).len() {
        assert(q(sessions.filter(q)[i]));
    }
    if 0 <= i < pool.len() && pool[i]@ != slot {
        crate::seqs::lemma_filter_holds(pool, p, i);
    }
    if 0 <= i < sessions.len() && sessions[i].slot@ != slot {
        crate::seqs::lemma_filter_holds(sessions, q, i);
    }
}

/// A registered session is pooled and present, and not connected until its id
/// is noted; every other seat stays as it is.
pub proof fn a_registered_session_is_pooled(
    before: Workspace,
    after: Workspace,
    slot: SessionSlot,
    other: SlotId,
)
    requires
        session_registered(before, after, slot),
    ensures
        after.pooled(slot@),
        after.presence(slot@) is Some,
        !after.connected(slot@),
        other != slot@ ==> after.pooled(other) == before.pooled(other) && after.presence(other)
            == before.presence(other) && after.connected(other) == before.connected(other),
        after.parked == before.parked,
        after.live_workers == before.live_workers,
        after.projects == before.projects,
{
    let any_id = vstd::pervasive::arbitrary::<String>();
    if other != slot@ {
        registered_then_forgotten(before.pool@, before.sessions@, slot, any_id, other);
        lemma_other_seats(before, slot, other);
        let kept = before.pool@.filter(other_slot(slot@));
        let p = is_slot(other);
        let fresh = SessionPresence { slot, session_id: None };
        let rest = before.sessions@.filter(fills_other(slot@));
        if any(kept, p) {
            let i = choose|i: int| 0 <= i < kept.len() && p(#[trigger] kept[i]);
            assert(p(after.pool@[i]));
        }
        if any(after.pool@, p) {
            let i = choose|i: int| 0 <= i < after.pool@.len() && p(#[trigger] after.pool@[i]);
            assert(after.pool@[i] == kept[i]);
        }
        lemma_push_other(rest, fresh, other);
    }
    let elsewhere = SlotId {
        org: slot@.org,
        project: slot@.project,
        label: match slot@.label {
            Some(_) => None,
            None => Some(Seq::empty()),
        },
    };
    registered_then_forgotten(before.pool@, before.sessions@, slot, any_id, elsewhere);
}

/// A session pushed into another seat does not change who sits in a seat.
proof fn lemma_push_other(sessions: Seq<SessionPresence>, fresh: SessionPresence, other: SlotId)
    requires
        fresh.slot@ != other,
    ensures
        first_match(sessions.push(fresh), fills(other)) == first_match(sessions, fills(other)),
{
    let p = fills(other);
    let more = sessions.push(fresh);
    if any(sessions, p) {
        crate::seqs::lemma_first_exists(sessions, p);
        let i = first_index(sessions, p)->0;
        assert(more[i] == sessions[i]);
        assert forall|j: int| 0 <= j < i implies !p(#[trigger] more[j]) by {
            assert(more[j] == sessions[j]);
        }
        crate::seqs::lemma_first_index_is(more, p, i);
    } else {
        if any(more, p) {
            let i = choose|i: int| 0 <= i < more.len() && p(#[trigger] more[i]);
            if i < sessions.len() {
                assert(p(sessions[i]));
            }
        }
    }
}

/// Leaving one seat does not change who is pooled in another.
proof fn lemma_other_seats(before: Workspace, slot: SessionSlot, other: SlotId)
    requires
        other != slot@,
    ensures
        any(before.pool@.filter(other_slot(slot@)), is_slot(other)) == before.pooled(other),
{
    let kept = before.pool@.filter(other_slot(slot@));
    let p = is_slot(other);
    crate::seqs::lemma_filter_keeps(before.pool@, other_slot(slot@));
    if any(kept, p) {
        let i = choose|i: int| 0 <= i < kept.len() && p(#[trigger] kept[i]);
        let j = choose|j: int| 0 <= j < before.pool@.len() && before.pool@[j] == kept[i];
        assert(p(before.pool@[j]));
    }
    if before.pooled(other) {
        let j = choose|j: int| 0 <= j < before.pool@.len() && p(#[trigger] before.pool@[j]);
        assert(other_slot(slot@)(before.pool@[j]));
        crate::seqs::lemma_filter_holds(before.pool@, other_slot(slot@), j);
        let i = choose|i: int| 0 <= i < kept.len() && kept[i] == before.pool@[j];
        assert(p(kept[i]));
    }
}

/// A forgotten session is neither pooled nor present; every other seat stays
/// as it is.
pub proof fn a_forgotten_session_leaves_its_seat(
    before: Workspace,
    after: Workspace,
    slot: SessionSlot,
    other: SlotId,
)
    requires
        session_forgotten(before, after, slot),
    ensures
        !after.pooled(slot@),
        after.presence(slot@) is None,
        !after.connected(slot@),
        other != slot@ ==> after.pooled(other) == before.pooled(other) && after.presence(other)
            == before.presence(other) && after.connected(other) == before.connected(other),
        after.parked == before.parked,
        after.live_workers == before.live_workers,
{
    let any_id = vstd::pervasive::arbitrary::<String>();
    let elsewhere = SlotId {
        org: slot@.org,
        project: slot@.project,
        label: match slot@.label {
            Some(_) => None,
            None => Some(Seq::empty()),
        },
    };
    registered_then_forgotten(before.pool@, before.sessions@, slot, any_id, elsewhere);
    if other != slot@ {
        registered_then_forgotten(before.pool@, before.sessions@, slot, any_id, other);
        lemma_other_seats(before, slot, other);
    }
}

/// A session whose id is noted is connected under that id; every other seat
/// stays as it is, and a seat that was empty stays empty.
pub proof fn a_noted_session_is_connected(
    before: Workspace,
    after: Workspace,
    slot: SessionSlot,
    session_id: String,
    other: SlotId,
)
    requires
        session_noted(before, after, slot, session_id),
    ensures
        before.presence(slot@) is Some ==> after.connected(slot@) && (after.presence(
            slot@,
        ) matches Some(session) && session.session_id == Some(session_id)),
        before.presence(slot@) is None ==> after.presence(slot@) is None,
        other != slot@ ==> after.presence(other) == before.presence(other) && after.connected(other)
            == before.connected(other),
        after.pool == before.pool,
        after.parked == before.parked,
        after.live_workers == before.live_workers,
{
    lemma_noted(before.sessions@, after.sessions@, slot@, session_id, slot@);
    lemma_noted(before.sessions@, after.sessions@, slot@, session_id, other);
}

/// Noting an id moves nobody.
proof fn lemma_noted(
    before: Seq<SessionPresence>,
    after: Seq<SessionPresence>,
    slot: SlotId,
    session_id: String,
    asked: SlotId,
)
    requires
        after == before.map_values(connected_as(slot, session_id)),
    ensures
        first_match(after, fills(asked)) == match first_match(before, fills(asked)) {
            Some(session) => Some(connected_as(slot, session_id)(session)),
            None => None,
        },
        first_match(before, fills(asked)) matches Some(session) ==> session.slot@ == asked,
{
    let p = fills(asked);
    assert forall|i: int| 0 <= i < before.len() implies p(#[trigger] after[i]) == p(before[i]) by {}
    if any(before, p) {
        crate::seqs::lemma_first_exists(before, p);
        let i = first_index(before, p)->0;
        assert(p(after[i]));
        assert forall|j: int| 0 <= j < i implies !p(#[trigger] after[j]) by {
            assert(!p(before[j]));
        }
        crate::seqs::lemma_first_index_is(after, p, i);
    } else if any(after, p) {
        let i = choose|i: int| 0 <= i < after.len() && p(#[trigger] after[i]);
        assert(p(before[i]));
    }
}

} // verus!
