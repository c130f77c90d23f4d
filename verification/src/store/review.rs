//! Review threads and the reviews they are filed into.
//!
//! A branch has a list of threads and a list of submitted reviews. A turn
//! of a thread is filed once, into the review that was submitted when it
//! stood unfiled, and never moves again.

use super::db::{fits_in_key, has_context, key2, refuses_key, Db, StoreError};
use crate::clock::{fresh_id, is_fresh_id, is_utc_instant, rfc3339_now};
use crate::seqs::{any, first_index, first_match, is_first, is_last, last_match};
use crate::order::text_less;
use crate::slot::clone_option;
use vstd::prelude::*;

verus! {

#[derive(Debug, Clone, Copy, PartialEq, Eq, Structural)]
pub enum ReviewSide {
    Old,
    New,
}

/// The line a thread is about.
#[derive(Debug, PartialEq, Eq)]
pub struct ReviewAnchor {
    pub path: String,
    pub side: ReviewSide,
    pub line: u32,
    pub content_hash: u64,
    pub context: Vec<String>,
    pub base_ref: String,
}

#[derive(Debug, PartialEq, Eq)]
pub enum ReviewAuthor {
    User,
    Agent { label: String },
}

/// One turn of a thread.
#[derive(Debug, PartialEq, Eq)]
pub struct ReviewComment {
    pub author: ReviewAuthor,
    pub text: String,
    pub at: String,
    /// The review it was filed into.
    pub review_id: Option<String>,
}

#[derive(Debug, Clone, Copy, PartialEq, Eq, Structural)]
pub enum ReviewStatus {
    Open,
    Addressed,
    Resolved,
    Outdated,
}

#[derive(Debug, PartialEq, Eq)]
pub struct ReviewThread {
    pub id: String,
    pub anchor: ReviewAnchor,
    pub comments: Vec<ReviewComment>,
    pub status: ReviewStatus,
    pub created_at: String,
    pub updated_at: String,
    pub commit: Option<String>,
}

/// A submitted review.
#[derive(Debug, PartialEq, Eq)]
pub struct ReviewSet {
    pub id: String,
    pub number: u32,
    pub summary: Option<String>,
    pub created_at: String,
}

impl Clone for ReviewSet {
    fn clone(&self) -> (copy: Self)
        ensures
            copy == *self,
    {
        ReviewSet {
            id: self.id.clone(),
            number: self.number,
            summary: clone_option(&self.summary),
            created_at: self.created_at.clone(),
        }
    }
}

/// The contents of a thread.
#[verifier::ext_equal]
pub struct ThreadView {
    pub id: String,
    pub anchor: ReviewAnchor,
    pub comments: Seq<ReviewComment>,
    pub status: ReviewStatus,
    pub created_at: String,
    pub updated_at: String,
    pub commit: Option<String>,
}

impl View for ReviewThread {
    type V = ThreadView;

    open spec fn view(&self) -> ThreadView {
        ThreadView {
            id: self.id,
            anchor: self.anchor,
            comments: self.comments@,
            status: self.status,
            created_at: self.created_at,
            updated_at: self.updated_at,
            commit: self.commit,
        }
    }
}

/// The contents of a list of threads.
pub open spec fn contents(threads: Seq<ReviewThread>) -> Seq<ThreadView> {
    threads.map_values(|t: ReviewThread| t@)
}

/// The threads with `id`.
pub open spec fn with_id(id: Seq<char>) -> spec_fn(ThreadView) -> bool {
    |t: ThreadView| t.id@ == id
}

/// The threads without `id`.
pub open spec fn without_id(id: Seq<char>) -> spec_fn(ThreadView) -> bool {
    |t: ThreadView| t.id@ != id
}

/// A turn that says when it was made.
pub open spec fn stamped(turn: ReviewComment, now: String) -> ReviewComment {
    if turn.at@.len() == 0 {
        ReviewComment { at: now, ..turn }
    } else {
        turn
    }
}

/// A thread as it is stored: changed now, and each of its turns with a time.
pub open spec fn touched(thread: ThreadView, now: String) -> ThreadView {
    ThreadView {
        updated_at: now,
        comments: thread.comments.map_values(|c: ReviewComment| stamped(c, now)),
        ..thread
    }
}

/// The threads after `thread` was put among them.
pub open spec fn upserted(threads: Seq<ThreadView>, thread: ThreadView, now: String) -> Seq<
    ThreadView,
> {
    match first_index(threads, with_id(thread.id@)) {
        Some(i) => threads.update(
            i,
            ThreadView { created_at: threads[i].created_at, ..touched(thread, now) },
        ),
        None => threads.push(
            ThreadView {
                created_at: if thread.created_at@.len() == 0 {
                    now
                } else {
                    thread.created_at
                },
                ..touched(thread, now)
            },
        ),
    }
}

/// The threads after the status of the first with `id` was set.
pub open spec fn status_set(
    threads: Seq<ThreadView>,
    id: Seq<char>,
    status: ReviewStatus,
    now: String,
) -> Seq<ThreadView> {
    match first_index(threads, with_id(id)) {
        Some(i) => threads.update(i, ThreadView { status, updated_at: now, ..threads[i] }),
        None => threads,
    }
}

/// An agent's turn.
pub open spec fn agent_turn(label: String, text: String, at: String) -> ReviewComment {
    ReviewComment { author: ReviewAuthor::Agent { label }, text, at, review_id: None }
}

/// The status of a thread that an agent replied to.
pub open spec fn after_reply(status: ReviewStatus) -> ReviewStatus {
    if status == ReviewStatus::Open {
        ReviewStatus::Addressed
    } else {
        status
    }
}

/// A thread that an agent replied to.
pub open spec fn replied(thread: ThreadView, label: String, text: String, at: String) -> ThreadView {
    ThreadView {
        comments: thread.comments.push(agent_turn(label, text, at)),
        status: after_reply(thread.status),
        updated_at: at,
        ..thread
    }
}

/// A user's turn that no review holds.
pub open spec fn unfiled(turn: ReviewComment) -> bool {
    turn.author is User && turn.review_id is None
}

/// A turn after a submit.
pub open spec fn sealed(turn: ReviewComment, review_id: String) -> ReviewComment {
    if unfiled(turn) {
        ReviewComment { review_id: Some(review_id), ..turn }
    } else {
        turn
    }
}

/// Some turn of a thread is unfiled.
pub open spec fn has_unfiled(thread: ThreadView) -> bool {
    any(thread.comments, |c: ReviewComment| unfiled(c))
}

/// A thread after a submit that lists it. One that gains a turn is owed an
/// answer again.
pub open spec fn thread_sealed(thread: ThreadView, review_id: String) -> ThreadView {
    ThreadView {
        comments: thread.comments.map_values(|c: ReviewComment| sealed(c, review_id)),
        status: if has_unfiled(thread) && thread.status == ReviewStatus::Addressed {
            ReviewStatus::Open
        } else {
            thread.status
        },
        ..thread
    }
}

/// A submit lists `id`.
pub open spec fn lists(ids: Seq<String>, id: Seq<char>) -> bool {
    exists|i: int| 0 <= i < ids.len() && (#[trigger] ids[i])@ == id
}

/// The threads after a submit.
pub open spec fn submitted(threads: Seq<ThreadView>, ids: Seq<String>, review_id: String) -> Seq<
    ThreadView,
> {
    threads.map_values(
        |t: ThreadView|
            if lists(ids, t.id@) {
                thread_sealed(t, review_id)
            } else {
                t
            },
    )
}

/// Some thread that a submit lists gains a turn.
pub open spec fn seals_something(threads: Seq<ThreadView>, ids: Seq<String>) -> bool {
    any(threads, |t: ThreadView| lists(ids, t.id@) && has_unfiled(t))
}

/// The number of the review after `count` others.
pub open spec fn next_number(count: nat) -> u32 {
    if count >= u32::MAX {
        u32::MAX
    } else {
        (count + 1) as u32
    }
}

/// A turn of a thread that was filed as a whole.
pub open spec fn filed(turn: ReviewComment, review_id: String) -> ReviewComment {
    if turn.author is User {
        ReviewComment { review_id: Some(review_id), ..turn }
    } else {
        turn
    }
}

/// Some turn of a thread is filed.
pub open spec fn has_filed(thread: ThreadView) -> bool {
    any(thread.comments, |c: ReviewComment| c.review_id is Some)
}

/// A thread once it carries its membership on its turns.
pub open spec fn lifted(thread: ThreadView, review_id: Option<String>) -> ThreadView {
    match review_id {
        Some(review_id) => if has_filed(thread) {
            thread
        } else {
            ThreadView {
                comments: thread.comments.map_values(|c: ReviewComment| filed(c, review_id)),
                ..thread
            }
        },
        None => thread,
    }
}

/// The threads once they carry their membership on their turns.
pub open spec fn all_lifted(threads: Seq<ThreadView>, stored: Seq<Option<String>>) -> Seq<
    ThreadView,
> {
    Seq::new(
        threads.len(),
        |i: int|
            if i < stored.len() {
                lifted(threads[i], stored[i])
            } else {
                threads[i]
            },
    )
}

/// Where the first thread with `id` stands.
fn position(threads: &Vec<ReviewThread>, id: &String) -> (found: Option<usize>)
    ensures
        match found {
            Some(i) => i < threads@.len() && first_index(contents(threads@), with_id(id@)) == Some(
                i as int,
            ),
            None => first_index(contents(threads@), with_id(id@)) is None,
        },
{
    let ghost p = with_id(id@);
    let ghost all = contents(threads@);
    let mut i: usize = 0;
    while i < threads.len()
        invariant
            i <= threads@.len(),
            all == contents(threads@),
            p == with_id(id@),
            forall|j: int| 0 <= j < i ==> !p(#[trigger] all[j]),
        decreases threads@.len() - i,
    {
        assert(all[i as int] == threads@[i as int]@);
        if threads[i].id == *id {
            proof {
                assert(is_first(all, p, i as int));
                crate::seqs::lemma_first_index_is(all, p, i as int);
            }
            return Some(i);
        }
        i = i + 1;
    }
    assert(!any(all, p));
    None
}

/// Put `thread` among `threads`: in place of the one with its id, which
/// keeps the time it was created, or behind the others. `now` is when.
pub fn upsert_at(threads: &mut Vec<ReviewThread>, thread: ReviewThread, now: &String)
    ensures
        contents(final(threads)@) == upserted(contents(old(threads)@), thread@, *now),
{
    let ghost before = contents(threads@);
    let ghost given = thread@;
    let mut thread = thread;
    let mut i: usize = 0;
    while i < thread.comments.len()
        invariant
            i <= thread.comments@.len(),
            thread.comments@.len() == given.comments.len(),
            forall|j: int|
                0 <= j < i ==> #[trigger] thread.comments@[j] == stamped(given.comments[j], *now),
            forall|j: int|
                i <= j < thread.comments@.len() ==> #[trigger] thread.comments@[j]
                    == given.comments[j],
            thread@ == (ThreadView { comments: thread.comments@, ..given }),
        decreases thread.comments@.len() - i,
    {
        if thread.comments[i].at.as_str().is_empty() {
            thread.comments[i].at = now.clone();
        }
        i = i + 1;
    }
    thread.updated_at = now.clone();
    assert(thread@ =~= touched(given, *now));
    match position(threads, &thread.id) {
        Some(i) => {
            thread.created_at = threads[i].created_at.clone();
            threads.set(i, thread);
        },
        None => {
            if thread.created_at.as_str().is_empty() {
                thread.created_at = now.clone();
            }
            threads.push(thread);
        },
    }
    assert(contents(threads@) =~= upserted(before, given, *now));
}

/// Put `thread` among `threads`, now.
pub fn upsert(threads: &mut Vec<ReviewThread>, thread: ReviewThread)
    ensures
        exists|now: String|
            is_utc_instant(now@) && contents(final(threads)@) == #[trigger] upserted(
                contents(old(threads)@),
                thread@,
                now,
            ),
{
    let now = rfc3339_now();
    upsert_at(threads, thread, &now);
}

/// Take out the threads with `id`. Whether there were any.
pub fn remove_thread(threads: &mut Vec<ReviewThread>, id: &String) -> (removed: bool)
    ensures
        contents(final(threads)@) == contents(old(threads)@).filter(without_id(id@)),
        removed == any(contents(old(threads)@), with_id(id@)),
{
    let ghost p = without_id(id@);
    let ghost before = contents(threads@);
    let ghost mut done: int = 0;
    let mut removed = false;
    let mut i: usize = 0;
    proof {
        crate::seqs::lemma_filter_ends(before, p);
        assert(contents(threads@) =~= before.take(0).filter(p) + before.skip(0));
    }
    while i < threads.len()
        invariant
            p == without_id(id@),
            0 <= done <= before.len(),
            i <= threads@.len(),
            threads@.len() - i == before.len() - done,
            i == before.take(done).filter(p).len(),
            contents(threads@) == before.take(done).filter(p) + before.skip(done),
            removed == exists|j: int| 0 <= j < done && with_id(id@)(#[trigger] before[j]),
        decreases threads@.len() - i,
    {
        let ghost now = contents(threads@);
        assert(now[i as int] == before[done]);
        proof {
            crate::seqs::lemma_filter_step(before, p, done);
        }
        if threads[i].id == *id {
            removed = true;
            let _ = threads.remove(i);
            assert(contents(threads@) =~= now.remove(i as int));
        } else {
            i = i + 1;
        }
        proof {
            done = done + 1;
            assert(contents(threads@) =~= before.take(done).filter(p) + before.skip(done));
        }
    }
    proof {
        crate::seqs::lemma_filter_ends(before, p);
        assert(contents(threads@) =~= before.filter(p));
    }
    removed
}

/// Set the status of the first thread with `id`. Whether there is one.
pub fn set_status_at(
    threads: &mut Vec<ReviewThread>,
    id: &String,
    status: ReviewStatus,
    now: &String,
) -> (found: bool)
    ensures
        contents(final(threads)@) == status_set(contents(old(threads)@), id@, status, *now),
        found == any(contents(old(threads)@), with_id(id@)),
        !found ==> *final(threads) == *old(threads),
{
    let ghost before = contents(threads@);
    match position(threads, id) {
        Some(i) => {
            proof {
                lemma_index_some(before, with_id(id@));
            }
            threads[i].status = status;
            threads[i].updated_at = now.clone();
            assert(contents(threads@) =~= status_set(before, id@, status, *now));
            true
        },
        None => false,
    }
}

proof fn lemma_index_some(threads: Seq<ThreadView>, p: spec_fn(ThreadView) -> bool)
    requires
        first_index(threads, p) is Some,
    ensures
        any(threads, p),
        is_first(threads, p, first_index(threads, p)->0),
{
    crate::seqs::lemma_first_exists(threads, p);
}

/// Set the status of the first thread with `id`, now. Whether there is one.
pub fn set_status(threads: &mut Vec<ReviewThread>, id: &String, status: ReviewStatus) -> (found:
    bool)
    ensures
        exists|now: String|
            is_utc_instant(now@) && contents(final(threads)@) == #[trigger] status_set(
                contents(old(threads)@),
                id@,
                status,
                now,
            ),
        found == any(contents(old(threads)@), with_id(id@)),
{
    let now = rfc3339_now();
    set_status_at(threads, id, status, &now)
}

/// The first thread with `id`.
pub fn find_thread_by_id<'a>(threads: &'a Vec<ReviewThread>, id: &String) -> (found: Option<
    &'a ReviewThread,
>)
    ensures
        match found {
            Some(thread) => first_match(contents(threads@), with_id(id@)) == Some(thread@),
            None => !any(contents(threads@), with_id(id@)),
        },
{
    match position(threads, id) {
        Some(i) => {
            assert(contents(threads@)[i as int] == threads@[i as int]@);
            Some(&threads[i])
        },
        None => None,
    }
}

/// What is said of a thread that is not there.
pub open spec fn no_thread_message(id: Seq<char>, project: Seq<char>, branch: Seq<char>) -> Seq<
    char,
> {
    "no review thread "@ + id + " in ("@ + project + ", "@ + branch + ")"@
}

/// What is said of a thread that is not there.
fn no_thread(id: &String, project: &String, branch: &String) -> (message: String)
    ensures
        message@ == no_thread_message(id@, project@, branch@),
{
    let mut message = "no review thread ".to_owned();
    message.append(id.as_str());
    message.append(" in (");
    message.append(project.as_str());
    message.append(", ");
    message.append(branch.as_str());
    message.append(")");
    message
}

/// `after` is `before` with a reply on the first thread with `id`, whose
/// status is then `status`.
pub open spec fn reply_appended(
    before: Seq<ThreadView>,
    after: Seq<ThreadView>,
    id: Seq<char>,
    reply: (String, String, String),
    status: ReviewStatus,
) -> bool {
    first_index(before, with_id(id)) matches Some(i) && after == before.update(
        i,
        replied(before[i], reply.0, reply.1, reply.2),
    ) && status == after_reply(before[i].status)
}

/// Append an agent's reply, made at `at`, to the first thread with `id`. An
/// open thread is addressed by it; another keeps its status, which is what
/// comes back. `project` and `branch` name the list where it is missing.
pub fn append_reply_at(
    threads: &mut Vec<ReviewThread>,
    project: &String,
    branch: &String,
    id: &String,
    author_label: &String,
    text: &String,
    at: &String,
) -> (status: Result<ReviewStatus, String>)
    ensures
        match status {
            Ok(status) => reply_appended(
                contents(old(threads)@),
                contents(final(threads)@),
                id@,
                (*author_label, *text, *at),
                status,
            ),
            Err(message) => !any(contents(old(threads)@), with_id(id@)) && message@
                == no_thread_message(id@, project@, branch@) && *final(threads) == *old(threads),
        },
{
    let ghost before = contents(threads@);
    match position(threads, id) {
        Some(i) => {
            let turn = ReviewComment {
                author: ReviewAuthor::Agent { label: author_label.clone() },
                text: text.clone(),
                at: at.clone(),
                review_id: None,
            };
            threads[i].comments.push(turn);
            if threads[i].status == ReviewStatus::Open {
                threads[i].status = ReviewStatus::Addressed;
            }
            threads[i].updated_at = at.clone();
            proof {
                let after = contents(threads@);
                let expected = replied(before[i as int], *author_label, *text, *at);
                assert(after[i as int] =~= expected);
                assert(after =~= before.update(i as int, expected));
            }
            Ok(threads[i].status)
        },
        None => Err(no_thread(id, project, branch)),
    }
}

/// Append an agent's reply; one without a time is made now.
pub fn append_reply(
    threads: &mut Vec<ReviewThread>,
    project: &String,
    branch: &String,
    id: &String,
    author_label: &String,
    text: &String,
    at: &String,
) -> (status: Result<ReviewStatus, String>)
    ensures
        match status {
            Ok(status) => exists|stamp: String|
                (if at@.len() == 0 {
                    is_utc_instant(stamp@)
                } else {
                    stamp == *at
                }) && #[trigger] reply_appended(
                    contents(old(threads)@),
                    contents(final(threads)@),
                    id@,
                    (*author_label, *text, stamp),
                    status,
                ),
            Err(message) => !any(contents(old(threads)@), with_id(id@)) && message@
                == no_thread_message(id@, project@, branch@) && *final(threads) == *old(threads),
        },
{
    let stamp = if at.as_str().is_empty() {
        rfc3339_now()
    } else {
        at.clone()
    };
    append_reply_at(threads, project, branch, id, author_label, text, &stamp)
}

/// Whether `ids` holds `id`.
fn listed(ids: &Vec<String>, id: &String) -> (found: bool)
    ensures
        found == lists(ids@, id@),
{
    let mut i: usize = 0;
    while i < ids.len()
        invariant
            i <= ids@.len(),
            forall|j: int| 0 <= j < i ==> (#[trigger] ids@[j])@ != id@,
        decreases ids@.len() - i,
    {
        if ids[i] == *id {
            assert(ids@[i as int]@ == id@);
            return true;
        }
        i = i + 1;
    }
    false
}

/// File the unfiled turns of a thread. Whether there were any.
fn seal_thread(thread: &mut ReviewThread, review_id: &String) -> (gained: bool)
    ensures
        final(thread)@ == thread_sealed(old(thread)@, *review_id),
        gained == has_unfiled(old(thread)@),
{
    let ghost before = thread@;
    let ghost p = |c: ReviewComment| unfiled(c);
    let mut gained = false;
    let mut i: usize = 0;
    while i < thread.comments.len()
        invariant
            i <= thread.comments@.len(),
            thread.comments@.len() == before.comments.len(),
            p == (|c: ReviewComment| unfiled(c)),
            forall|j: int|
                0 <= j < i ==> #[trigger] thread.comments@[j] == sealed(
                    before.comments[j],
                    *review_id,
                ),
            forall|j: int|
                i <= j < thread.comments@.len() ==> #[trigger] thread.comments@[j]
                    == before.comments[j],
            thread@ == (ThreadView { comments: thread.comments@, ..before }),
            gained == exists|j: int| 0 <= j < i && p(#[trigger] before.comments[j]),
        decreases thread.comments@.len() - i,
    {
        let of_user = match &thread.comments[i].author {
            ReviewAuthor::User => true,
            ReviewAuthor::Agent { .. } => false,
        };
        let free = match &thread.comments[i].review_id {
            Some(_) => false,
            None => true,
        };
        if of_user && free {
            assert(p(before.comments[i as int]));
            thread.comments[i].review_id = Some(review_id.clone());
            gained = true;
        }
        i = i + 1;
    }
    assert(gained == any(before.comments, p));
    assert(thread.comments@ =~= before.comments.map_values(
        |c: ReviewComment| sealed(c, *review_id),
    ));
    if gained && thread.status == ReviewStatus::Addressed {
        thread.status = ReviewStatus::Open;
    }
    assert(thread@ =~= thread_sealed(before, *review_id));
    gained
}

/// Seal a review called `review_id`, made at `now`: file the unfiled turns
/// of the threads it lists into it, and append it to the branch's reviews.
/// The review comes back, and whether any thread changed.
pub fn submit_review_as(
    threads: &mut Vec<ReviewThread>,
    reviews: &mut Vec<ReviewSet>,
    summary: Option<String>,
    thread_ids: &Vec<String>,
    review_id: &String,
    now: &String,
) -> (sealed_review: (ReviewSet, bool))
    ensures
        contents(final(threads)@) == submitted(contents(old(threads)@), thread_ids@, *review_id),
        sealed_review.0 == (ReviewSet {
            id: *review_id,
            number: next_number(old(reviews)@.len()),
            summary,
            created_at: *now,
        }),
        final(reviews)@ == old(reviews)@.push(sealed_review.0),
        sealed_review.1 == seals_something(contents(old(threads)@), thread_ids@),
{
    let ghost before = contents(threads@);
    let ghost p = |t: ThreadView| lists(thread_ids@, t.id@) && has_unfiled(t);
    let count = reviews.len();
    let number: u32 = if count >= u32::MAX as usize {
        u32::MAX
    } else {
        count as u32 + 1
    };
    let review = ReviewSet {
        id: review_id.clone(),
        number,
        summary,
        created_at: now.clone(),
    };
    let mut changed = false;
    let mut i: usize = 0;
    while i < threads.len()
        invariant
            i <= threads@.len(),
            threads@.len() == before.len(),
            p == (|t: ThreadView| lists(thread_ids@, t.id@) && has_unfiled(t)),
            forall|j: int|
                0 <= j < i ==> (#[trigger] threads@[j])@ == submitted(
                    before,
                    thread_ids@,
                    *review_id,
                )[j],
            forall|j: int| i <= j < threads@.len() ==> (#[trigger] threads@[j])@ == before[j],
            changed == exists|j: int| 0 <= j < i && p(#[trigger] before[j]),
        decreases threads@.len() - i,
    {
        assert(threads@[i as int]@ == before[i as int]);
        if listed(thread_ids, &threads[i].id) {
            let gained = seal_thread(&mut threads[i], review_id);
            if gained {
                assert(p(before[i as int]));
                changed = true;
            }
        }
        i = i + 1;
    }
    assert(changed == any(before, p));
    assert(contents(threads@) =~= submitted(before, thread_ids@, *review_id));
    reviews.push(review.clone());
    (review, changed)
}

/// Seal a review under a fresh id, now.
pub fn submit_review(
    threads: &mut Vec<ReviewThread>,
    reviews: &mut Vec<ReviewSet>,
    summary: Option<String>,
    thread_ids: &Vec<String>,
) -> (sealed_review: (ReviewSet, bool))
    ensures
        is_fresh_id(sealed_review.0.id@),
        is_utc_instant(sealed_review.0.created_at@),
        sealed_review.0.number == next_number(old(reviews)@.len()),
        sealed_review.0.summary == summary,
        contents(final(threads)@) == submitted(
            contents(old(threads)@),
            thread_ids@,
            sealed_review.0.id,
        ),
        final(reviews)@ == old(reviews)@.push(sealed_review.0),
        sealed_review.1 == seals_something(contents(old(threads)@), thread_ids@),
{
    let now = rfc3339_now();
    let id = fresh_id();
    submit_review_as(threads, reviews, summary, thread_ids, &id, &now)
}

/// Whether some turn of a thread is filed.
fn any_filed(thread: &ReviewThread) -> (found: bool)
    ensures
        found == has_filed(thread@),
{
    let ghost p = |c: ReviewComment| c.review_id is Some;
    let mut i: usize = 0;
    while i < thread.comments.len()
        invariant
            i <= thread.comments@.len(),
            p == (|c: ReviewComment| c.review_id is Some),
            forall|j: int| 0 <= j < i ==> !p(#[trigger] thread.comments@[j]),
        decreases thread.comments@.len() - i,
    {
        match &thread.comments[i].review_id {
            Some(_) => {
                assert(p(thread@.comments[i as int]));
                return true;
            },
            None => {},
        }
        i = i + 1;
    }
    assert(!any(thread@.comments, p));
    false
}

/// File the user's turns of a thread that was filed as a whole.
fn lift_thread(thread: &mut ReviewThread, review_id: &String)
    ensures
        final(thread)@ == lifted(old(thread)@, Some(*review_id)),
{
    let ghost before = thread@;
    if any_filed(thread) {
        return;
    }
    let mut i: usize = 0;
    while i < thread.comments.len()
        invariant
            i <= thread.comments@.len(),
            thread.comments@.len() == before.comments.len(),
            forall|j: int|
                0 <= j < i ==> #[trigger] thread.comments@[j] == filed(
                    before.comments[j],
                    *review_id,
                ),
            forall|j: int|
                i <= j < thread.comments@.len() ==> #[trigger] thread.comments@[j]
                    == before.comments[j],
            thread@ == (ThreadView { comments: thread.comments@, ..before }),
        decreases thread.comments@.len() - i,
    {
        let of_user = match &thread.comments[i].author {
            ReviewAuthor::User => true,
            ReviewAuthor::Agent { .. } => false,
        };
        if of_user {
            thread.comments[i].review_id = Some(review_id.clone());
        }
        i = i + 1;
    }
    assert(thread@ =~= lifted(before, Some(*review_id)));
}

/// Carry the membership of threads that were filed as a whole over to their
/// turns. `stored` is what each thread's row says of it, by position; a
/// thread with a filed turn already is left alone.
pub fn lift_thread_membership(threads: &mut Vec<ReviewThread>, stored: &Vec<Option<String>>)
    ensures
        contents(final(threads)@) == all_lifted(contents(old(threads)@), stored@),
{
    let ghost before = contents(threads@);
    let mut i: usize = 0;
    while i < threads.len() && i < stored.len()
        invariant
            i <= threads@.len(),
            i <= stored@.len(),
            threads@.len() == before.len(),
            forall|j: int|
                0 <= j < i ==> (#[trigger] threads@[j])@ == all_lifted(before, stored@)[j],
            forall|j: int| i <= j < threads@.len() ==> (#[trigger] threads@[j])@ == before[j],
        decreases threads@.len() - i,
    {
        assert(threads@[i as int]@ == before[i as int]);
        match &stored[i] {
            Some(review_id) => {
                lift_thread(&mut threads[i], review_id);
            },
            None => {},
        }
        i = i + 1;
    }
    assert(contents(threads@) =~= all_lifted(before, stored@));
}

impl ReviewThread {
    /// The review that the first filed turn is in.
    pub fn origin_review(&self) -> (review: Option<&String>)
        ensures
            match (review, first_match(self@.comments, |c: ReviewComment| c.review_id is Some)) {
                (Some(review), Some(turn)) => turn.review_id == Some(*review),
                (None, None) => true,
                _ => false,
            },
    {
        let ghost p = |c: ReviewComment| c.review_id is Some;
        let mut i: usize = 0;
        while i < self.comments.len()
            invariant
                i <= self.comments@.len(),
                p == (|c: ReviewComment| c.review_id is Some),
                forall|j: int| 0 <= j < i ==> !p(#[trigger] self.comments@[j]),
            decreases self.comments@.len() - i,
        {
            match &self.comments[i].review_id {
                Some(review) => {
                    proof {
                        assert(is_first(self@.comments, p, i as int));
                        crate::seqs::lemma_first_index_is(self@.comments, p, i as int);
                    }
                    return Some(review);
                },
                None => {},
            }
            i = i + 1;
        }
        assert(!any(self@.comments, p));
        None
    }

    /// The review that the last filed turn is in.
    pub fn latest_review(&self) -> (review: Option<&String>)
        ensures
            match (review, last_match(self@.comments, |c: ReviewComment| c.review_id is Some)) {
                (Some(review), Some(turn)) => turn.review_id == Some(*review),
                (None, None) => true,
                _ => false,
            },
    {
        let ghost p = |c: ReviewComment| c.review_id is Some;
        let mut i: usize = self.comments.len();
        while i > 0
            invariant
                i <= self.comments@.len(),
                p == (|c: ReviewComment| c.review_id is Some),
                forall|j: int| i <= j < self.comments@.len() ==> !p(#[trigger] self.comments@[j]),
            decreases i,
        {
            match &self.comments[i - 1].review_id {
                Some(review) => {
                    proof {
                        assert(is_last(self@.comments, p, i - 1));
                        crate::seqs::lemma_last_index_is(self@.comments, p, i - 1);
                    }
                    return Some(review);
                },
                None => {},
            }
            i = i - 1;
        }
        assert(!any(self@.comments, p));
        None
    }

    /// Whether some turn is filed into the review called `review_id`.
    pub fn is_in_review(&self, review_id: &String) -> (found: bool)
        ensures
            found == in_review(self@, review_id@),
    {
        let mut i: usize = 0;
        while i < self.comments.len()
            invariant
                i <= self.comments@.len(),
                forall|j: int|
                    0 <= j < i ==> !filed_into(#[trigger] self.comments@[j], review_id@),
            decreases self.comments@.len() - i,
        {
            match &self.comments[i].review_id {
                Some(review) => {
                    if *review == *review_id {
                        assert(filed_into(self@.comments[i as int], review_id@));
                        return true;
                    }
                },
                None => {},
            }
            i = i + 1;
        }
        false
    }

    /// Whether some turn of the user's is in no review.
    pub fn has_unfiled_user_turn(&self) -> (found: bool)
        ensures
            found == has_unfiled(self@),
    {
        let ghost p = |c: ReviewComment| unfiled(c);
        let mut i: usize = 0;
        while i < self.comments.len()
            invariant
                i <= self.comments@.len(),
                p == (|c: ReviewComment| unfiled(c)),
                forall|j: int| 0 <= j < i ==> !p(#[trigger] self.comments@[j]),
            decreases self.comments@.len() - i,
        {
            let of_user = match &self.comments[i].author {
                ReviewAuthor::User => true,
                ReviewAuthor::Agent { .. } => false,
            };
            let free = match &self.comments[i].review_id {
                Some(_) => false,
                None => true,
            };
            if of_user && free {
                assert(p(self@.comments[i as int]));
                return true;
            }
            i = i + 1;
        }
        assert(!any(self@.comments, p));
        false
    }
}

/// A turn is filed into the review called `review_id`.
pub open spec fn filed_into(turn: ReviewComment, review_id: Seq<char>) -> bool {
    turn.review_id matches Some(review) && review@ == review_id
}

/// Some turn of a thread is filed into the review called `review_id`.
pub open spec fn in_review(thread: ThreadView, review_id: Seq<char>) -> bool {
    exists|i: int|
        0 <= i < thread.comments.len() && filed_into(#[trigger] thread.comments[i], review_id)
}

/// No two threads have the same id.
pub open spec fn distinct_ids(threads: Seq<ThreadView>) -> bool {
    forall|i: int, j: int|
        0 <= i < j < threads.len() ==> (#[trigger] threads[i]).id@ != (#[trigger] threads[j]).id@
}

/// A submit moves no turn that is filed, and files no agent's turn.
pub proof fn submit_keeps_filed_turns(
    threads: Seq<ThreadView>,
    ids: Seq<String>,
    review_id: String,
    i: int,
    j: int,
)
    requires
        0 <= i < threads.len(),
        0 <= j < threads[i].comments.len(),
        threads[i].comments[j].review_id is Some || threads[i].comments[j].author is Agent,
    ensures
        submitted(threads, ids, review_id)[i].comments[j] == threads[i].comments[j],
{
}

/// A submit leaves no unfiled turn on a thread that it lists, and each turn
/// that was unfiled is in the new review.
pub proof fn submit_files_listed_turns(
    threads: Seq<ThreadView>,
    ids: Seq<String>,
    review_id: String,
    i: int,
)
    requires
        0 <= i < threads.len(),
        lists(ids, threads[i].id@),
    ensures
        !has_unfiled(submitted(threads, ids, review_id)[i]),
        forall|j: int|
            0 <= j < threads[i].comments.len() && unfiled(threads[i].comments[j])
                ==> #[trigger] submitted(threads, ids, review_id)[i].comments[j].review_id == Some(
                review_id,
            ),
{
}

/// A submit leaves a thread alone that it does not list.
pub proof fn submit_spares_unlisted(
    threads: Seq<ThreadView>,
    ids: Seq<String>,
    review_id: String,
    i: int,
)
    requires
        0 <= i < threads.len(),
        !lists(ids, threads[i].id@),
    ensures
        submitted(threads, ids, review_id)[i] == threads[i],
{
}

/// A submit changes the status of a thread only where an addressed one gains
/// a turn; that one is open again.
pub proof fn submit_reopens_only_addressed(
    threads: Seq<ThreadView>,
    ids: Seq<String>,
    review_id: String,
    i: int,
)
    requires
        0 <= i < threads.len(),
    ensures
        submitted(threads, ids, review_id)[i].status == if lists(ids, threads[i].id@)
            && has_unfiled(threads[i]) && threads[i].status == ReviewStatus::Addressed {
            ReviewStatus::Open
        } else {
            threads[i].status
        },
{
}

/// A second submit of the same threads, with no turn between, files nothing.
pub proof fn submit_again_files_nothing(
    threads: Seq<ThreadView>,
    ids: Seq<String>,
    first: String,
    second: String,
)
    ensures
        submitted(submitted(threads, ids, first), ids, second) == submitted(threads, ids, first),
        !seals_something(submitted(threads, ids, first), ids),
{
    let once = submitted(threads, ids, first);
    let twice = submitted(once, ids, second);
    assert forall|i: int| 0 <= i < once.len() implies #[trigger] twice[i] == once[i] by {
        assert(once[i].id == threads[i].id);
        if lists(ids, threads[i].id@) {
            submit_files_listed_turns(threads, ids, first, i);
            assert(!has_unfiled(once[i]));
            let p = |c: ReviewComment| unfiled(c);
            assert forall|j: int| 0 <= j < once[i].comments.len() implies !p(
                #[trigger] once[i].comments[j],
            ) by {
                assert(!any(once[i].comments, p));
            }
            assert(twice[i].comments =~= once[i].comments);
            assert(twice[i] =~= once[i]);
        }
    }
    assert(twice =~= once);
    let q = |t: ThreadView| lists(ids, t.id@) && has_unfiled(t);
    if any(once, q) {
        let i = choose|i: int| 0 <= i < once.len() && q(#[trigger] once[i]);
        assert(once[i].id == threads[i].id);
        submit_files_listed_turns(threads, ids, first, i);
    }
}

/// The thread that an upsert put in is the one found under its id, as it
/// was given but for its times; no other id finds another thread than before.
pub proof fn upsert_then_find(
    threads: Seq<ThreadView>,
    thread: ThreadView,
    now: String,
    other: Seq<char>,
)
    requires
        other != thread.id@,
    ensures
        first_match(upserted(threads, thread, now), with_id(thread.id@)) matches Some(found)
            && found == (ThreadView { created_at: found.created_at, ..touched(thread, now) }),
        first_match(upserted(threads, thread, now), with_id(other)) == first_match(
            threads,
            with_id(other),
        ),
{
    let after = upserted(threads, thread, now);
    let p = with_id(thread.id@);
    let q = with_id(other);
    let k = if any(threads, p) {
        crate::seqs::lemma_first_exists(threads, p);
        first_index(threads, p)->0
    } else {
        threads.len() as int
    };
    assert(is_first(after, p, k)) by {
        assert forall|j: int| 0 <= j < k implies !p(#[trigger] after[j]) by {
            assert(!p(threads[j]));
        }
    }
    crate::seqs::lemma_first_index_is(after, p, k);
    if any(threads, q) {
        crate::seqs::lemma_first_exists(threads, q);
        let f = first_index(threads, q)->0;
        assert(is_first(after, q, f)) by {
            assert forall|j: int| 0 <= j < f implies !q(#[trigger] after[j]) by {
                assert(!q(threads[j]));
            }
        }
        crate::seqs::lemma_first_index_is(after, q, f);
    } else if any(after, q) {
        let f = choose|f: int| 0 <= f < after.len() && q(#[trigger] after[f]);
        assert(q(threads[f]));
    }
}

/// An upsert keeps the ids distinct, and adds a thread only under a new id.
pub proof fn upsert_keeps_ids_distinct(threads: Seq<ThreadView>, thread: ThreadView, now: String)
    requires
        distinct_ids(threads),
    ensures
        distinct_ids(upserted(threads, thread, now)),
        upserted(threads, thread, now).len() == threads.len() + if any(
            threads,
            with_id(thread.id@),
        ) {
            0int
        } else {
            1int
        },
{
    let after = upserted(threads, thread, now);
    let p = with_id(thread.id@);
    if any(threads, p) {
        crate::seqs::lemma_first_exists(threads, p);
    }
    assert forall|i: int, j: int| 0 <= i < j < after.len() implies (#[trigger] after[i]).id@ != (
    #[trigger] after[j]).id@ by {
        if any(threads, p) {
            assert(after[i].id@ == threads[i].id@);
            assert(after[j].id@ == threads[j].id@);
        } else if j == threads.len() {
            assert(!p(threads[i]));
        }
    }
}

/// After a removal nothing is found under the id, and every thread that is
/// still there was there before.
pub proof fn remove_then_find(threads: Seq<ThreadView>, id: Seq<char>)
    ensures
        !any(threads.filter(without_id(id)), with_id(id)),
        forall|i: int|
            0 <= i < threads.len() && (#[trigger] threads[i]).id@ != id ==> threads.filter(
                without_id(id),
            ).contains(threads[i]),
{
    let p = without_id(id);
    crate::seqs::lemma_filter_keeps(threads, p);
    assert forall|i: int| 0 <= i < threads.len() && (#[trigger] threads[i]).id@
        != id implies threads.filter(p).contains(threads[i]) by {
        crate::seqs::lemma_filter_holds(threads, p, i);
    }
}

/// Setting a status leaves every other thread alone, and of the one it finds
/// everything but its status and the time it changed.
pub proof fn set_status_touches_one(
    threads: Seq<ThreadView>,
    id: Seq<char>,
    status: ReviewStatus,
    now: String,
    i: int,
)
    requires
        0 <= i < threads.len(),
    ensures
        status_set(threads, id, status, now).len() == threads.len(),
        if first_index(threads, with_id(id)) == Some(i) {
            status_set(threads, id, status, now)[i] == (ThreadView {
                status,
                updated_at: now,
                ..threads[i]
            })
        } else {
            status_set(threads, id, status, now)[i] == threads[i]
        },
{
    if any(threads, with_id(id)) {
        crate::seqs::lemma_first_exists(threads, with_id(id));
    }
}

/// Carrying memberships over twice does what doing it once does, and files
/// no agent's turn.
pub proof fn lift_is_idempotent(threads: Seq<ThreadView>, stored: Seq<Option<String>>)
    ensures
        all_lifted(all_lifted(threads, stored), stored) == all_lifted(threads, stored),
        forall|i: int, j: int|
            0 <= i < threads.len() && 0 <= j < threads[i].comments.len()
                && threads[i].comments[j].author is Agent ==> (#[trigger] all_lifted(
                threads,
                stored,
            )[i].comments[j]) == threads[i].comments[j],
{
    let once = all_lifted(threads, stored);
    let twice = all_lifted(once, stored);
    assert forall|i: int| 0 <= i < once.len() implies #[trigger] twice[i] == once[i] by {
        if i < stored.len() && stored[i] is Some && !has_filed(once[i]) {
            let rid = stored[i]->0;
            let p = |c: ReviewComment| c.review_id is Some;
            assert forall|j: int| 0 <= j < once[i].comments.len() implies #[trigger] filed(
                once[i].comments[j],
                rid,
            ) == once[i].comments[j] by {
                assert(!p(once[i].comments[j]));
                if threads[i].comments[j].author is User && !has_filed(threads[i]) {
                    assert(once[i].comments[j].review_id == Some(rid));
                }
                if has_filed(threads[i]) {
                    assert(once[i] == threads[i]);
                }
            }
            assert(twice[i].comments =~= once[i].comments);
            assert(twice[i] =~= once[i]);
        }
    }
    assert(twice =~= once);
}

/// The name of the table of threads, one row for each project and branch.
pub const REVIEW_THREADS: &'static str = "review_threads";

/// The name of the table of reviews, one row for each project and branch.
pub const REVIEWS: &'static str = "reviews";

/// The bytes of a branch's threads, where it has any.
pub fn load(db: &Db, project: &str, branch: &str) -> (row: Result<Option<Vec<u8>>, StoreError>)
    ensures
        row matches Ok(Some(value)) ==> db.rows().dom().contains(
            key2(REVIEW_THREADS@, project@, branch@),
        ) && db.rows()[key2(REVIEW_THREADS@, project@, branch@)] == value@,
        row matches Ok(None) ==> !db.rows().dom().contains(
            key2(REVIEW_THREADS@, project@, branch@),
        ),
        !fits_in_key(project@) ==> refuses_key(row),
        has_context(row) <==> !fits_in_key(project@),
{
    proof {
        reveal_strlit("review_threads");
    }
    db.get2(REVIEW_THREADS, project, branch)
}

/// Write a branch's threads, in place of what it had. With no threads it has
/// no row.
pub fn save(
    db: &mut Db,
    project: &str,
    branch: &str,
    threads: &Vec<ReviewThread>,
    encoded: &Vec<u8>,
) -> (done: Result<(), StoreError>)
    ensures
        final(db).has_texts(
            *old(db),
            REVIEW_THREADS@,
            if threads@.len() == 0 {
                old(db).rows().remove(key2(REVIEW_THREADS@, project@, branch@))
            } else {
                old(db).rows().insert(key2(REVIEW_THREADS@, project@, branch@), encoded@)
            },
        ) || done is Err && final(db).same_as(*old(db)),
        !fits_in_key(project@) ==> refuses_key(done) && *final(db) == *old(db),
        has_context(done) <==> !fits_in_key(project@),
{
    proof {
        reveal_strlit("review_threads");
    }
    if threads.len() == 0 {
        return match delete(db, project, branch) {
            Ok(_) => Ok(()),
            Err(error) => Err(error),
        };
    }
    db.put2(REVIEW_THREADS, project, branch, encoded)
}

/// Remove a branch's threads. Whether it had a row.
pub fn delete(db: &mut Db, project: &str, branch: &str) -> (existed: Result<bool, StoreError>)
    ensures
        existed matches Ok(existed) ==> existed == old(db).rows().dom().contains(
            key2(REVIEW_THREADS@, project@, branch@),
        ),
        final(db).has_texts(
            *old(db),
            REVIEW_THREADS@,
            old(db).rows().remove(key2(REVIEW_THREADS@, project@, branch@)),
        ) || existed is Err && final(db).same_as(*old(db)),
        !fits_in_key(project@) ==> refuses_key(existed) && *final(db) == *old(db),
        has_context(existed) <==> !fits_in_key(project@),
{
    proof {
        reveal_strlit("review_threads");
    }
    db.remove2(REVIEW_THREADS, project, branch)
}

/// The bytes of a branch's reviews, where it has any.
pub fn load_reviews(db: &Db, project: &str, branch: &str) -> (row: Result<
    Option<Vec<u8>>,
    StoreError,
>)
    ensures
        row matches Ok(Some(value)) ==> db.rows().dom().contains(key2(REVIEWS@, project@, branch@))
            && db.rows()[key2(REVIEWS@, project@, branch@)] == value@,
        row matches Ok(None) ==> !db.rows().dom().contains(key2(REVIEWS@, project@, branch@)),
        !fits_in_key(project@) ==> refuses_key(row),
        has_context(row) <==> !fits_in_key(project@),
{
    proof {
        reveal_strlit("reviews");
    }
    db.get2(REVIEWS, project, branch)
}

/// Write a branch's reviews, in place of what it had. With no reviews it has
/// no row.
pub fn save_reviews(
    db: &mut Db,
    project: &str,
    branch: &str,
    reviews: &Vec<ReviewSet>,
    encoded: &Vec<u8>,
) -> (done: Result<(), StoreError>)
    ensures
        final(db).has_texts(
            *old(db),
            REVIEWS@,
            if reviews@.len() == 0 {
                old(db).rows().remove(key2(REVIEWS@, project@, branch@))
            } else {
                old(db).rows().insert(key2(REVIEWS@, project@, branch@), encoded@)
            },
        ) || done is Err && final(db).same_as(*old(db)),
        !fits_in_key(project@) ==> refuses_key(done) && *final(db) == *old(db),
        has_context(done) <==> !fits_in_key(project@),
{
    proof {
        reveal_strlit("reviews");
    }
    if reviews.len() == 0 {
        return delete_reviews(db, project, branch);
    }
    db.put2(REVIEWS, project, branch, encoded)
}

/// Remove a branch's reviews, so that a branch that takes its name has none.
pub fn delete_reviews(db: &mut Db, project: &str, branch: &str) -> (done: Result<(), StoreError>)
    ensures
        final(db).has_texts(
            *old(db),
            REVIEWS@,
            old(db).rows().remove(key2(REVIEWS@, project@, branch@)),
        ) || done is Err && final(db).same_as(*old(db)),
        !fits_in_key(project@) ==> refuses_key(done) && *final(db) == *old(db),
        has_context(done) <==> !fits_in_key(project@),
{
    proof {
        reveal_strlit("reviews");
    }
    match db.remove2(REVIEWS, project, branch) {
        Ok(_) => Ok(()),
        Err(error) => Err(error),
    }
}

/// Remove a branch's threads and reviews, both or neither.
pub fn delete_branch_state(db: &mut Db, project: &str, branch: &str) -> (done: Result<
    (),
    StoreError,
>)
    ensures
        final(db).has_both(
            *old(db),
            (REVIEW_THREADS@, REVIEWS@),
            old(db).rows().remove(key2(REVIEW_THREADS@, project@, branch@)).remove(
                key2(REVIEWS@, project@, branch@),
            ),
        ) || done is Err && final(db).same_as(*old(db)),
        !fits_in_key(project@) ==> refuses_key(done) && *final(db) == *old(db),
        has_context(done) <==> !fits_in_key(project@),
{
    proof {
        reveal_strlit("review_threads");
        reveal_strlit("reviews");
    }
    db.remove2_in_both((REVIEW_THREADS, REVIEWS), project, branch)
}

/// Write what submitting a review made of a branch: its reviews, and its
/// threads where any changed, both or neither.
pub fn save_submitted(
    db: &mut Db,
    project: &str,
    branch: &str,
    reviews: &Vec<u8>,
    threads: Option<Vec<u8>>,
) -> (done: Result<(), StoreError>)
    ensures
        (match threads {
            Some(threads) => final(db).has_both(
                *old(db),
                (REVIEW_THREADS@, REVIEWS@),
                old(db).rows().insert(key2(REVIEW_THREADS@, project@, branch@), threads@).insert(
                    key2(REVIEWS@, project@, branch@),
                    reviews@,
                ),
            ),
            None => final(db).has_texts(
                *old(db),
                REVIEWS@,
                old(db).rows().insert(key2(REVIEWS@, project@, branch@), reviews@),
            ),
        }) || done is Err && final(db).same_as(*old(db)),
        !fits_in_key(project@) ==> refuses_key(done) && *final(db) == *old(db),
        has_context(done) <==> !fits_in_key(project@),
{
    proof {
        reveal_strlit("review_threads");
        reveal_strlit("reviews");
    }
    match threads {
        Some(threads) => db.put2_in_both(
            (REVIEW_THREADS, REVIEWS),
            project,
            branch,
            (&threads, reviews),
        ),
        None => db.put2(REVIEWS, project, branch, reviews),
    }
}

/// Some branch of `branches` is called `name`.
pub open spec fn names_branch(branches: Seq<String>, name: Seq<char>) -> bool {
    exists|i: int| 0 <= i < branches.len() && (#[trigger] branches[i])@ == name
}

/// The row is of `project`.
pub open spec fn row_of_project(project: Seq<char>) -> spec_fn((String, String, Vec<u8>)) -> bool {
    |row: (String, String, Vec<u8>)| row.0@ == project
}

/// The branches that the rows of `project` are of, in their order.
pub fn branches_of(rows: &Vec<(String, String, Vec<u8>)>, project: &String) -> (branches: Vec<
    String,
>)
    ensures
        branches@ == rows@.filter(row_of_project(project@)).map_values(
            |row: (String, String, Vec<u8>)| row.1,
        ),
{
    let ghost p = row_of_project(project@);
    let ghost branch = |row: (String, String, Vec<u8>)| row.1;
    let mut branches: Vec<String> = Vec::new();
    proof {
        crate::seqs::lemma_filter_ends(rows@, p);
        assert(branches@ =~= rows@.take(0).filter(p).map_values(branch));
    }
    for i in 0..rows.len()
        invariant
            p == row_of_project(project@),
            branch == (|row: (String, String, Vec<u8>)| row.1),
            branches@ == rows@.take(i as int).filter(p).map_values(branch),
    {
        proof {
            crate::seqs::lemma_filter_step(rows@, p, i as int);
        }
        if rows[i].0 == *project {
            branches.push(rows[i].1.clone());
        }
        assert(branches@ =~= rows@.take(i + 1).filter(p).map_values(branch));
    }
    proof {
        crate::seqs::lemma_filter_ends(rows@, p);
    }
    branches
}

/// The branches of a project that have reviews, each once and in order.
pub fn review_branches(db: &Db, project: &String) -> (branches: Result<Vec<String>, StoreError>)
    ensures
        branches matches Ok(branches) ==> {
            &&& forall|i: int, j: int|
                0 <= i < j < branches@.len() ==> text_less(
                    (#[trigger] branches@[i])@,
                    (#[trigger] branches@[j])@,
                )
            &&& forall|name: Seq<char>| #[trigger]
                names_branch(branches@, name) <==> db.rows().dom().contains(
                    key2(REVIEWS@, project@, name),
                )
        },
        !fits_in_key(project@) ==> refuses_key(branches),
        has_context(branches) <==> !fits_in_key(project@),
{
    proof {
        reveal_strlit("reviews");
    }
    let rows = match db.list2_of(REVIEWS, project) {
        Ok(rows) => rows,
        Err(error) => return Err(error),
    };
    let branches = branches_of(&rows, project);
    proof {
        let p = row_of_project(project@);
        crate::seqs::lemma_filter_all(rows@, p);
        assert(branches@.len() == rows@.len());
        assert forall|name: Seq<char>| #[trigger]
            names_branch(branches@, name) <==> db.rows().dom().contains(
                key2(REVIEWS@, project@, name),
            ) by {
            if names_branch(branches@, name) {
                let j = choose|j: int| 0 <= j < branches@.len() && (#[trigger] branches@[j])@ == name;
                assert(rows@[j].1@ == name);
            }
            if db.rows().dom().contains(key2(REVIEWS@, project@, name)) {
                let k = choose|k: int| 0 <= k < rows@.len() && (#[trigger] rows@[k]).1@ == name;
                assert(branches@[k]@ == name);
            }
        }
    }
    Ok(branches)
}

/// What an error is told under where a branch's `what` do not decode.
pub open spec fn decode_context(what: Seq<char>, project: Seq<char>, branch: Seq<char>) -> Seq<
    char,
> {
    "decode "@ + what + " for ("@ + project + ", "@ + branch + ")"@
}

/// The words for the threads of a branch.
pub const THREADS_WORDS: &'static str = "review threads";

/// The words for the reviews of a branch.
pub const REVIEWS_WORDS: &'static str = "reviews";

/// The error for a row that does not decode, with what the decoder says.
pub open spec fn is_undecoded(
    error: StoreError,
    what: Seq<char>,
    project: Seq<char>,
    branch: Seq<char>,
    message: String,
) -> bool {
    error.context matches Some(context) && context@ == decode_context(what, project, branch)
        && error.message == message
}

/// The error for a row that does not decode, with what the decoder says.
fn undecoded(what: &str, project: &String, branch: &String, message: String) -> (error: StoreError)
    ensures
        is_undecoded(error, what@, project@, branch@, message),
{
    let mut context = "decode ".to_owned();
    context.append(what);
    context.append(" for (");
    context.append(project.as_str());
    context.append(", ");
    context.append(branch.as_str());
    context.append(")");
    StoreError { context: Some(context), message }
}

/// What a branch's row of threads reads as. Without a row it has none; a row
/// that does not decode is an error, not an empty list.
pub fn read_threads(
    row: Option<Result<Vec<ReviewThread>, String>>,
    project: &String,
    branch: &String,
) -> (read: Result<Vec<ReviewThread>, StoreError>)
    ensures
        match row {
            None => read matches Ok(threads) && threads@.len() == 0,
            Some(Ok(threads)) => read == Ok::<Vec<ReviewThread>, StoreError>(threads),
            Some(Err(message)) => read matches Err(error) && is_undecoded(
                error,
                THREADS_WORDS@,
                project@,
                branch@,
                message,
            ),
        },
{
    match row {
        None => Ok(Vec::new()),
        Some(Ok(threads)) => Ok(threads),
        Some(Err(message)) => Err(undecoded(THREADS_WORDS, project, branch, message)),
    }
}

/// What a branch's row of reviews reads as. Without a row it has none; a row
/// that does not decode is an error, not an empty list.
pub fn read_reviews(
    row: Option<Result<Vec<ReviewSet>, String>>,
    project: &String,
    branch: &String,
) -> (read: Result<Vec<ReviewSet>, StoreError>)
    ensures
        match row {
            None => read matches Ok(reviews) && reviews@.len() == 0,
            Some(Ok(reviews)) => read == Ok::<Vec<ReviewSet>, StoreError>(reviews),
            Some(Err(message)) => read matches Err(error) && is_undecoded(
                error,
                REVIEWS_WORDS@,
                project@,
                branch@,
                message,
            ),
        },
{
    match row {
        None => Ok(Vec::new()),
        Some(Ok(reviews)) => Ok(reviews),
        Some(Err(message)) => Err(undecoded(REVIEWS_WORDS, project, branch, message)),
    }
}

/// What is to be written of a branch's threads once they are changed by
/// `step`: nothing at all where they could not be read, and none where `step`
/// leaves them.
pub open spec fn stepped(
    read: Result<Vec<ReviewThread>, StoreError>,
    step: spec_fn(Seq<ThreadView>) -> Option<Seq<ThreadView>>,
) -> Result<Option<Seq<ThreadView>>, StoreError> {
    match read {
        Ok(threads) => Ok(step(contents(threads@))),
        Err(error) => Err(error),
    }
}

/// What a change is to write.
pub open spec fn to_write(change: Result<Option<Vec<ReviewThread>>, StoreError>) -> Result<
    Option<Seq<ThreadView>>,
    StoreError,
> {
    match change {
        Ok(Some(threads)) => Ok(Some(contents(threads@))),
        Ok(None) => Ok(None),
        Err(error) => Err(error),
    }
}

/// Putting `thread` among the threads.
pub open spec fn upsert_step(thread: ThreadView, now: String) -> spec_fn(Seq<ThreadView>) -> Option<
    Seq<ThreadView>,
> {
    |threads: Seq<ThreadView>| Some(upserted(threads, thread, now))
}

/// Taking out the threads with `id`; without any there is nothing to write.
pub open spec fn remove_step(id: Seq<char>) -> spec_fn(Seq<ThreadView>) -> Option<Seq<ThreadView>> {
    |threads: Seq<ThreadView>|
        if any(threads, with_id(id)) {
            Some(threads.filter(without_id(id)))
        } else {
            None
        }
}

/// Setting the status of the first thread with `id`; without one there is
/// nothing to write.
pub open spec fn status_step(id: Seq<char>, status: ReviewStatus, now: String) -> spec_fn(
    Seq<ThreadView>,
) -> Option<Seq<ThreadView>> {
    |threads: Seq<ThreadView>|
        if any(threads, with_id(id)) {
            Some(status_set(threads, id, status, now))
        } else {
            None
        }
}

/// Put `thread` among the threads that were read, at `now`: what is to be
/// written.
pub fn upsert_change_at(
    read: Result<Vec<ReviewThread>, StoreError>,
    thread: ReviewThread,
    now: &String,
) -> (change: Result<Option<Vec<ReviewThread>>, StoreError>)
    ensures
        to_write(change) == stepped(read, upsert_step(thread@, *now)),
{
    match read {
        Ok(threads) => {
            let mut threads = threads;
            upsert_at(&mut threads, thread, now);
            Ok(Some(threads))
        },
        Err(error) => Err(error),
    }
}

/// Put `thread` among the threads that were read, now: what is to be written.
pub fn upsert_change(read: Result<Vec<ReviewThread>, StoreError>, thread: ReviewThread) -> (change:
    Result<Option<Vec<ReviewThread>>, StoreError>)
    ensures
        exists|now: String|
            is_utc_instant(now@) && to_write(change) == stepped(
                read,
                #[trigger] upsert_step(thread@, now),
            ),
{
    let now = rfc3339_now();
    upsert_change_at(read, thread, &now)
}

/// Take the threads with `id` out of those that were read: what is to be
/// written.
pub fn remove_change(read: Result<Vec<ReviewThread>, StoreError>, id: &String) -> (change: Result<
    Option<Vec<ReviewThread>>,
    StoreError,
>)
    ensures
        to_write(change) == stepped(read, remove_step(id@)),
{
    match read {
        Ok(threads) => {
            let mut threads = threads;
            if remove_thread(&mut threads, id) {
                Ok(Some(threads))
            } else {
                Ok(None)
            }
        },
        Err(error) => Err(error),
    }
}

/// Set the status of the first thread with `id` of those that were read, at
/// `now`: what is to be written.
pub fn set_status_change_at(
    read: Result<Vec<ReviewThread>, StoreError>,
    id: &String,
    status: ReviewStatus,
    now: &String,
) -> (change: Result<Option<Vec<ReviewThread>>, StoreError>)
    ensures
        to_write(change) == stepped(read, status_step(id@, status, *now)),
{
    match read {
        Ok(threads) => {
            let mut threads = threads;
            if set_status_at(&mut threads, id, status, now) {
                Ok(Some(threads))
            } else {
                Ok(None)
            }
        },
        Err(error) => Err(error),
    }
}

/// Set the status of the first thread with `id` of those that were read, now:
/// what is to be written.
pub fn set_status_change(
    read: Result<Vec<ReviewThread>, StoreError>,
    id: &String,
    status: ReviewStatus,
) -> (change: Result<Option<Vec<ReviewThread>>, StoreError>)
    ensures
        exists|now: String|
            is_utc_instant(now@) && to_write(change) == stepped(
                read,
                #[trigger] status_step(id@, status, now),
            ),
{
    let now = rfc3339_now();
    set_status_change_at(read, id, status, &now)
}

/// A reply that was appended: the status of its thread then, and the threads
/// to write.
#[derive(Debug, PartialEq, Eq)]
pub struct AppendedReply {
    pub status: ReviewStatus,
    pub threads: Vec<ReviewThread>,
}

/// What a reply by `reply`, to the thread `id` of those that were read, comes
/// to. Where they could not be read that is the error, and where there is no
/// such thread it is one that names it.
pub open spec fn reply_answered(
    read: Result<Vec<ReviewThread>, StoreError>,
    answered: Result<AppendedReply, StoreError>,
    place: (Seq<char>, Seq<char>, Seq<char>),
    reply: (String, String, String),
) -> bool {
    match read {
        Err(error) => answered == Err::<AppendedReply, StoreError>(error),
        Ok(threads) => match answered {
            Ok(appended) => reply_appended(
                contents(threads@),
                contents(appended.threads@),
                place.2,
                reply,
                appended.status,
            ),
            Err(error) => !any(contents(threads@), with_id(place.2)) && error.context is None
                && error.message@ == no_thread_message(place.2, place.0, place.1),
        },
    }
}

/// Append an agent's reply, made at `at`, to the first thread with `id` of
/// those that were read: what is to be written.
pub fn append_reply_change_at(
    read: Result<Vec<ReviewThread>, StoreError>,
    project: &String,
    branch: &String,
    id: &String,
    author_label: &String,
    text: &String,
    at: &String,
) -> (answered: Result<AppendedReply, StoreError>)
    ensures
        reply_answered(
            read,
            answered,
            (project@, branch@, id@),
            (*author_label, *text, *at),
        ),
{
    match read {
        Ok(threads) => {
            let mut threads = threads;
            match append_reply_at(&mut threads, project, branch, id, author_label, text, at) {
                Ok(status) => Ok(AppendedReply { status, threads }),
                Err(message) => Err(StoreError { context: None, message }),
            }
        },
        Err(error) => Err(error),
    }
}

/// Append an agent's reply to the first thread with `id` of those that were
/// read; one without a time is made now.
pub fn append_reply_change(
    read: Result<Vec<ReviewThread>, StoreError>,
    project: &String,
    branch: &String,
    id: &String,
    author_label: &String,
    text: &String,
    at: &String,
) -> (answered: Result<AppendedReply, StoreError>)
    ensures
        exists|stamp: String|
            (if at@.len() == 0 {
                is_utc_instant(stamp@)
            } else {
                stamp == *at
            }) && #[trigger] reply_answered(
                read,
                answered,
                (project@, branch@, id@),
                (*author_label, *text, stamp),
            ),
{
    let stamp = if at.as_str().is_empty() {
        rfc3339_now()
    } else {
        at.clone()
    };
    append_reply_change_at(read, project, branch, id, author_label, text, &stamp)
}

/// A review that was sealed: the branch's reviews to write, and its threads
/// where any changed.
#[derive(Debug, PartialEq, Eq)]
pub struct Submission {
    pub review: ReviewSet,
    pub reviews: Vec<ReviewSet>,
    pub threads: Option<Vec<ReviewThread>>,
}

/// What sealing `review` over the threads `ids` makes of what was read. Where
/// either could not be read that is the error, the reviews' first.
pub open spec fn submission_answered(
    reviews: Result<Vec<ReviewSet>, StoreError>,
    threads: Result<Vec<ReviewThread>, StoreError>,
    answered: Result<Submission, StoreError>,
    summary: Option<String>,
    ids: Seq<String>,
    sealed_as: (String, String),
) -> bool {
    match (reviews, threads) {
        (Err(error), _) => answered == Err::<Submission, StoreError>(error),
        (Ok(_), Err(error)) => answered == Err::<Submission, StoreError>(error),
        (Ok(reviews), Ok(threads)) => answered matches Ok(submission) && {
            &&& submission.review == (ReviewSet {
                id: sealed_as.0,
                number: next_number(reviews@.len()),
                summary,
                created_at: sealed_as.1,
            })
            &&& submission.reviews@ == reviews@.push(submission.review)
            &&& match submission.threads {
                Some(written) => seals_something(contents(threads@), ids) && contents(written@)
                    == submitted(contents(threads@), ids, sealed_as.0),
                None => !seals_something(contents(threads@), ids),
            }
        },
    }
}

/// Seal a review called `review_id`, made at `now`, over what was read: what
/// is to be written.
pub fn submit_change_as(
    reviews: Result<Vec<ReviewSet>, StoreError>,
    threads: Result<Vec<ReviewThread>, StoreError>,
    summary: Option<String>,
    thread_ids: &Vec<String>,
    review_id: &String,
    now: &String,
) -> (answered: Result<Submission, StoreError>)
    ensures
        submission_answered(
            reviews,
            threads,
            answered,
            summary,
            thread_ids@,
            (*review_id, *now),
        ),
{
    let mut reviews = match reviews {
        Ok(reviews) => reviews,
        Err(error) => return Err(error),
    };
    let mut threads = match threads {
        Ok(threads) => threads,
        Err(error) => return Err(error),
    };
    let (review, changed) = submit_review_as(
        &mut threads,
        &mut reviews,
        summary,
        thread_ids,
        review_id,
        now,
    );
    let threads = if changed {
        Some(threads)
    } else {
        None
    };
    Ok(Submission { review, reviews, threads })
}

/// Seal a review under a fresh id, now, over what was read: what is to be
/// written.
pub fn submit_change(
    reviews: Result<Vec<ReviewSet>, StoreError>,
    threads: Result<Vec<ReviewThread>, StoreError>,
    summary: Option<String>,
    thread_ids: &Vec<String>,
) -> (answered: Result<Submission, StoreError>)
    ensures
        exists|sealed_as: (String, String)|
            is_fresh_id(sealed_as.0@) && is_utc_instant(sealed_as.1@)
                && #[trigger] submission_answered(
                reviews,
                threads,
                answered,
                summary,
                thread_ids@,
                sealed_as,
            ),
{
    let now = rfc3339_now();
    let id = fresh_id();
    let answered = submit_change_as(reviews, threads, summary, thread_ids, &id, &now);
    assert(submission_answered(reviews, threads, answered, summary, thread_ids@, (id, now)));
    answered
}

/// The rows once a change of a branch's threads is settled, `encoded` being
/// what they are written as.
pub open spec fn settled_rows(
    before: Map<(Seq<char>, Seq<Seq<char>>), Seq<u8>>,
    project: Seq<char>,
    branch: Seq<char>,
    change: Result<Option<Seq<ThreadView>>, StoreError>,
    encoded: Seq<u8>,
) -> Map<(Seq<char>, Seq<Seq<char>>), Seq<u8>> {
    match change {
        Ok(Some(threads)) => if threads.len() == 0 {
            before.remove(key2(REVIEW_THREADS@, project, branch))
        } else {
            before.insert(key2(REVIEW_THREADS@, project, branch), encoded)
        },
        _ => before,
    }
}

/// Write what a change of a branch's threads is to write, as `encoded`.
/// Whether there was anything. Where the threads could not be read nothing is
/// touched, and the error is passed on.
pub fn settle(
    db: &mut Db,
    project: &str,
    branch: &str,
    change: Result<Option<Vec<ReviewThread>>, StoreError>,
    encoded: &Vec<u8>,
) -> (wrote: Result<bool, StoreError>)
    ensures
        change matches Err(error) ==> wrote == Err::<bool, StoreError>(error) && *final(db) == *old(
            db,
        ),
        change matches Ok(None) ==> wrote == Ok::<bool, StoreError>(false) && *final(db) == *old(db),
        change matches Ok(Some(_)) ==> {
            &&& wrote matches Ok(wrote) ==> wrote
            &&& final(db).has_texts(
                *old(db),
                REVIEW_THREADS@,
                settled_rows(old(db).rows(), project@, branch@, to_write(change), encoded@),
            ) || wrote is Err && final(db).same_as(*old(db))
            &&& !fits_in_key(project@) ==> refuses_key(wrote) && *final(db) == *old(db)
            &&& has_context(wrote) <==> !fits_in_key(project@)
        },
        final(db).rows() == settled_rows(
            old(db).rows(),
            project@,
            branch@,
            to_write(change),
            encoded@,
        ) || wrote is Err && final(db).rows() == old(db).rows(),
        final(db).ids() == old(db).ids(),
        final(db).path() == old(db).path(),
{
    match change {
        Ok(Some(threads)) => {
            match save(db, project, branch, &threads, encoded) {
                Ok(()) => Ok(true),
                Err(error) => Err(error),
            }
        },
        Ok(None) => Ok(false),
        Err(error) => Err(error),
    }
}

/// What an appended reply is to write.
pub open spec fn reply_to_write(answered: Result<AppendedReply, StoreError>) -> Result<
    Option<Seq<ThreadView>>,
    StoreError,
> {
    match answered {
        Ok(appended) => Ok(Some(contents(appended.threads@))),
        Err(error) => Err(error),
    }
}

/// Write the threads that a reply was appended to, as `encoded`. The status of
/// its thread then; without a reply nothing is touched, and the error is
/// passed on.
pub fn settle_reply(
    db: &mut Db,
    project: &str,
    branch: &str,
    answered: Result<AppendedReply, StoreError>,
    encoded: &Vec<u8>,
) -> (status: Result<ReviewStatus, StoreError>)
    ensures
        match answered {
            Err(error) => status == Err::<ReviewStatus, StoreError>(error) && *final(db) == *old(db),
            Ok(appended) => {
                &&& status matches Ok(status) ==> status == appended.status
                &&& !fits_in_key(project@) ==> refuses_key(status) && *final(db) == *old(db)
                &&& has_context(status) <==> !fits_in_key(project@)
            },
        },
        final(db).rows() == settled_rows(
            old(db).rows(),
            project@,
            branch@,
            reply_to_write(answered),
            encoded@,
        ) || status is Err && final(db).rows() == old(db).rows(),
        final(db).ids() == old(db).ids(),
        final(db).path() == old(db).path(),
{
    match answered {
        Ok(appended) => {
            match save(db, project, branch, &appended.threads, encoded) {
                Ok(()) => Ok(appended.status),
                Err(error) => Err(error),
            }
        },
        Err(error) => Err(error),
    }
}

/// The rows once a submission is settled, `encoded` being what the reviews and
/// the threads are written as.
pub open spec fn submission_rows(
    before: Map<(Seq<char>, Seq<Seq<char>>), Seq<u8>>,
    project: Seq<char>,
    branch: Seq<char>,
    answered: Result<Submission, StoreError>,
    encoded: (Seq<u8>, Seq<u8>),
) -> Map<(Seq<char>, Seq<Seq<char>>), Seq<u8>> {
    match answered {
        Ok(submission) => (if submission.threads is Some {
            before.insert(key2(REVIEW_THREADS@, project, branch), encoded.1)
        } else {
            before
        }).insert(key2(REVIEWS@, project, branch), encoded.0),
        Err(_) => before,
    }
}

/// Write what a submission is to write, both tables or neither. The review
/// that was sealed; where something could not be read nothing is touched, and
/// the error is passed on.
pub fn settle_submission(
    db: &mut Db,
    project: &str,
    branch: &str,
    answered: Result<Submission, StoreError>,
    reviews: &Vec<u8>,
    threads: Vec<u8>,
) -> (sealed_review: Result<ReviewSet, StoreError>)
    ensures
        match answered {
            Err(error) => sealed_review == Err::<ReviewSet, StoreError>(error) && *final(db)
                == *old(db),
            Ok(submission) => {
                &&& sealed_review matches Ok(review) ==> review == submission.review
                &&& !fits_in_key(project@) ==> refuses_key(sealed_review) && *final(db) == *old(db)
                &&& has_context(sealed_review) <==> !fits_in_key(project@)
            },
        },
        final(db).rows() == submission_rows(
            old(db).rows(),
            project@,
            branch@,
            answered,
            (reviews@, threads@),
        ) || sealed_review is Err && final(db).rows() == old(db).rows(),
        final(db).ids() == old(db).ids(),
        final(db).path() == old(db).path(),
{
    match answered {
        Ok(submission) => {
            let threads = match submission.threads {
                Some(_) => Some(threads),
                None => None,
            };
            match save_submitted(db, project, branch, reviews, threads) {
                Ok(()) => Ok(submission.review),
                Err(error) => Err(error),
            }
        },
        Err(error) => Err(error),
    }
}

/// Where a branch's row of threads cannot be read, whatever was to be done to
/// it is an error and writes nothing; a reply and a review that was to be
/// sealed over it are too. Every row keeps its bytes.
pub proof fn an_unreadable_row_is_never_overwritten(
    before: Map<(Seq<char>, Seq<Seq<char>>), Seq<u8>>,
    project: Seq<char>,
    branch: Seq<char>,
    read: Result<Vec<ReviewThread>, StoreError>,
    step: spec_fn(Seq<ThreadView>) -> Option<Seq<ThreadView>>,
    reply: Result<AppendedReply, StoreError>,
    replied_as: (Seq<char>, (String, String, String)),
    reviews: Result<Vec<ReviewSet>, StoreError>,
    submission: Result<Submission, StoreError>,
    sealed_as: (Option<String>, Seq<String>, (String, String)),
    encoded: (Seq<u8>, Seq<u8>),
)
    requires
        read is Err,
        reply_answered(read, reply, (project, branch, replied_as.0), replied_as.1),
        submission_answered(reviews, read, submission, sealed_as.0, sealed_as.1, sealed_as.2),
    ensures
        stepped(read, step) is Err,
        settled_rows(before, project, branch, stepped(read, step), encoded.0) == before,
        reply is Err,
        settled_rows(before, project, branch, reply_to_write(reply), encoded.0) == before,
        submission is Err,
        submission_rows(before, project, branch, submission, encoded) == before,
{
}

/// What is saved for a branch is what is loaded for it, and the rows of every
/// other branch stay.
pub proof fn saved_is_loaded(
    before: Map<(Seq<char>, Seq<Seq<char>>), Seq<u8>>,
    table: Seq<char>,
    project: Seq<char>,
    branch: Seq<char>,
    encoded: Seq<u8>,
    other_project: Seq<char>,
    other_branch: Seq<char>,
)
    ensures
        ({
            let after = before.insert(key2(table, project, branch), encoded);
            let asked = key2(table, other_project, other_branch);
            if other_project == project && other_branch == branch {
                after.dom().contains(asked) && after[asked] == encoded
            } else {
                &&& after.dom().contains(asked) == before.dom().contains(asked)
                &&& before.dom().contains(asked) ==> after[asked] == before[asked]
            }
        }),
{
    let at = key2(table, project, branch);
    let asked = key2(table, other_project, other_branch);
    if asked == at {
        assert(asked.1[0] == at.1[0]);
        assert(asked.1[1] == at.1[1]);
    }
}

/// Once a branch's state is deleted it has neither threads nor reviews, and
/// every other branch keeps its own.
pub proof fn deleted_state_is_gone(
    before: Map<(Seq<char>, Seq<Seq<char>>), Seq<u8>>,
    project: Seq<char>,
    branch: Seq<char>,
    table: Seq<char>,
    other_branch: Seq<char>,
)
    requires
        table == REVIEW_THREADS@ || table == REVIEWS@,
    ensures
        ({
            let after = before.remove(key2(REVIEW_THREADS@, project, branch)).remove(
                key2(REVIEWS@, project, branch),
            );
            let asked = key2(table, project, other_branch);
            if other_branch == branch {
                !after.dom().contains(asked)
            } else {
                &&& after.dom().contains(asked) == before.dom().contains(asked)
                &&& before.dom().contains(asked) ==> after[asked] == before[asked]
            }
        }),
{
    let asked = key2(table, project, other_branch);
    let threads = key2(REVIEW_THREADS@, project, branch);
    let reviews = key2(REVIEWS@, project, branch);
    if asked == threads {
        assert(asked.1[1] == threads.1[1]);
    }
    if asked == reviews {
        assert(asked.1[1] == reviews.1[1]);
    }
}

/// A thread's contents are its fields.
pub proof fn a_thread_is_seen_whole(thread: ReviewThread)
    ensures
        thread@.id == thread.id,
        thread@.anchor == thread.anchor,
        thread@.comments == thread.comments@,
        thread@.status == thread.status,
        thread@.created_at == thread.created_at,
        thread@.updated_at == thread.updated_at,
        thread@.commit == thread.commit,
{
}

/// `stored` is the thread that was given, brought up to date: the same thread
/// about the same line, with as many turns. A turn whose time was given is as
/// it was given; one without a time differs in that alone, and has the present
/// one.
pub open spec fn is_given_thread(stored: ReviewThread, given: ReviewThread, now: String) -> bool {
    &&& stored.id == given.id
    &&& stored.anchor == given.anchor
    &&& stored.status == given.status
    &&& stored.commit == given.commit
    &&& stored.updated_at == now
    &&& stored.comments@.len() == given.comments@.len()
    &&& forall|j: int|
        0 <= j < given.comments@.len() ==> {
            &&& (#[trigger] stored.comments@[j]).author == given.comments@[j].author
            &&& stored.comments@[j].text == given.comments@[j].text
            &&& stored.comments@[j].review_id == given.comments@[j].review_id
            &&& given.comments@[j].at@.len() > 0 ==> stored.comments@[j].at
                == given.comments@[j].at
            &&& given.comments@[j].at@.len() == 0 ==> stored.comments@[j].at == now
        }
}

/// An upsert of a known thread puts it in the place of the first with its id,
/// as it was given but for the times that were missing; when it was created
/// stays. Every other thread stays as it is.
pub proof fn an_upsert_replaces_a_known_thread(
    before: Seq<ReviewThread>,
    after: Seq<ReviewThread>,
    thread: ReviewThread,
    now: String,
    i: int,
)
    requires
        contents(after) == upserted(contents(before), thread@, now),
        0 <= i < before.len(),
        before[i].id@ == thread.id@,
        forall|j: int| 0 <= j < i ==> (#[trigger] before[j]).id@ != thread.id@,
    ensures
        after.len() == before.len(),
        is_given_thread(after[i], thread, now),
        after[i].created_at == before[i].created_at,
        forall|j: int|
            0 <= j < before.len() && j != i ==> (#[trigger] after[j])@ == before[j]@,
{
    let views = contents(before);
    assert forall|j: int| 0 <= j < i implies !with_id(thread.id@)(#[trigger] views[j]) by {
        assert(views[j] == before[j]@);
    }
    crate::seqs::lemma_first_index_is(views, with_id(thread.id@), i);
    assert(contents(after).len() == after.len());
    assert(contents(after)[i] == after[i]@);
    let turns = thread@.comments.map_values(|c: ReviewComment| stamped(c, now));
    assert(after[i]@.comments == turns);
    assert forall|j: int| 0 <= j < thread.comments@.len() implies #[trigger] after[i].comments@[j]
        == stamped(thread.comments@[j], now) by {
        assert(after[i]@.comments[j] == turns[j]);
    }
    assert forall|j: int| 0 <= j < before.len() && j != i implies (#[trigger] after[j])@
        == before[j]@ by {
        assert(contents(after)[j] == after[j]@);
        assert(views[j] == before[j]@);
    }
}

/// An upsert of a thread that is not known adds it behind the others, as it
/// was given but for the times that were missing: that it was created, too, is
/// told by the present time only where no time was given.
pub proof fn an_upsert_adds_an_unknown_thread(
    before: Seq<ReviewThread>,
    after: Seq<ReviewThread>,
    thread: ReviewThread,
    now: String,
)
    requires
        contents(after) == upserted(contents(before), thread@, now),
        forall|j: int| 0 <= j < before.len() ==> (#[trigger] before[j]).id@ != thread.id@,
    ensures
        after.len() == before.len() + 1,
        is_given_thread(after.last(), thread, now),
        thread.created_at@.len() > 0 ==> after.last().created_at == thread.created_at,
        thread.created_at@.len() == 0 ==> after.last().created_at == now,
        forall|j: int| 0 <= j < before.len() ==> (#[trigger] after[j])@ == before[j]@,
{
    let views = contents(before);
    let p = with_id(thread.id@);
    assert forall|j: int| 0 <= j < views.len() implies !p(#[trigger] views[j]) by {
        assert(views[j] == before[j]@);
    }
    assert(!any(views, p));
    assert(contents(after).len() == after.len());
    let n = before.len() as int;
    assert(contents(after)[n] == after[n]@);
    let turns = thread@.comments.map_values(|c: ReviewComment| stamped(c, now));
    assert(after[n]@.comments == turns);
    assert forall|j: int| 0 <= j < thread.comments@.len() implies #[trigger] after[n].comments@[j]
        == stamped(thread.comments@[j], now) by {
        assert(after[n]@.comments[j] == turns[j]);
    }
    assert forall|j: int| 0 <= j < before.len() implies (#[trigger] after[j])@ == before[j]@ by {
        assert(contents(after)[j] == after[j]@);
        assert(views[j] == before[j]@);
    }
}

/// A status that is set is the first thread's with that id, which is as new as
/// that; its turns, its line and when it was created stay, and so does every
/// other thread.
pub proof fn a_set_status_changes_nothing_else(
    before: Seq<ReviewThread>,
    after: Seq<ReviewThread>,
    id: Seq<char>,
    status: ReviewStatus,
    now: String,
    i: int,
)
    requires
        contents(after) == status_set(contents(before), id, status, now),
        0 <= i < before.len(),
        before[i].id@ == id,
        forall|j: int| 0 <= j < i ==> (#[trigger] before[j]).id@ != id,
    ensures
        after.len() == before.len(),
        after[i].status == status,
        after[i].updated_at == now,
        after[i].id == before[i].id,
        after[i].anchor == before[i].anchor,
        after[i].comments@ == before[i].comments@,
        after[i].created_at == before[i].created_at,
        after[i].commit == before[i].commit,
        forall|j: int|
            0 <= j < before.len() && j != i ==> (#[trigger] after[j])@ == before[j]@,
{
    let views = contents(before);
    assert forall|j: int| 0 <= j < i implies !with_id(id)(#[trigger] views[j]) by {
        assert(views[j] == before[j]@);
    }
    crate::seqs::lemma_first_index_is(views, with_id(id), i);
    assert(contents(after).len() == after.len());
    assert(contents(after)[i] == after[i]@);
    assert(views[i] == before[i]@);
    assert forall|j: int| 0 <= j < before.len() && j != i implies (#[trigger] after[j])@
        == before[j]@ by {
        assert(contents(after)[j] == after[j]@);
        assert(views[j] == before[j]@);
    }
}

/// A reply is the last turn of the first thread with that id, by that agent,
/// unfiled, with its text and its time; the turns before it stay. An open
/// thread is addressed by it; every other status stays. The status that is
/// answered is the thread's.
pub proof fn a_reply_is_the_threads_last_turn(
    before: Seq<ReviewThread>,
    after: Seq<ReviewThread>,
    id: Seq<char>,
    reply: (String, String, String),
    status: ReviewStatus,
    i: int,
)
    requires
        reply_appended(contents(before), contents(after), id, reply, status),
        0 <= i < before.len(),
        before[i].id@ == id,
        forall|j: int| 0 <= j < i ==> (#[trigger] before[j]).id@ != id,
    ensures
        after.len() == before.len(),
        ({
            let n = before[i].comments@.len() as int;
            let last = after[i].comments@[n];
            &&& after[i].comments@.len() == n + 1
            &&& after[i].comments@.take(n) == before[i].comments@
            &&& last.author matches ReviewAuthor::Agent { label }
            &&& label == reply.0
            &&& last.text == reply.1
            &&& last.at == reply.2
            &&& last.review_id is None
        }),
        before[i].status == ReviewStatus::Open ==> after[i].status == ReviewStatus::Addressed,
        before[i].status != ReviewStatus::Open ==> after[i].status == before[i].status,
        status == after[i].status,
        after[i].updated_at == reply.2,
        after[i].id == before[i].id,
        after[i].anchor == before[i].anchor,
        after[i].created_at == before[i].created_at,
        after[i].commit == before[i].commit,
        forall|j: int|
            0 <= j < before.len() && j != i ==> (#[trigger] after[j])@ == before[j]@,
{
    let views = contents(before);
    assert forall|j: int| 0 <= j < i implies !with_id(id)(#[trigger] views[j]) by {
        assert(views[j] == before[j]@);
    }
    crate::seqs::lemma_first_index_is(views, with_id(id), i);
    assert(contents(after).len() == after.len());
    assert(contents(after)[i] == after[i]@);
    assert(views[i] == before[i]@);
    let n = before[i].comments@.len() as int;
    assert(after[i].comments@.take(n) =~= before[i].comments@);
    assert forall|j: int| 0 <= j < before.len() && j != i implies (#[trigger] after[j])@
        == before[j]@ by {
        assert(contents(after)[j] == after[j]@);
        assert(views[j] == before[j]@);
    }
}

/// A review that is submitted files exactly the user's turns of the listed
/// threads that were in no review, and changes nothing else of any turn. A
/// thread that was addressed opens again exactly where it gained a turn.
pub proof fn a_review_files_the_users_open_turns(
    before: Seq<ReviewThread>,
    after: Seq<ReviewThread>,
    ids: Seq<String>,
    review_id: String,
    i: int,
)
    requires
        contents(after) == submitted(contents(before), ids, review_id),
        0 <= i < before.len(),
    ensures
        after.len() == before.len(),
        ({
            let named = exists|k: int| 0 <= k < ids.len() && (#[trigger] ids[k])@ == before[i].id@;
            let gains = named && exists|j: int|
                0 <= j < before[i].comments@.len() && (
                #[trigger] before[i].comments@[j]).review_id is None
                    && before[i].comments@[j].author is User;
            &&& after[i].comments@.len() == before[i].comments@.len()
            &&& forall|j: int|
                0 <= j < before[i].comments@.len() ==> {
                    let old_turn = before[i].comments@[j];
                    let new_turn = #[trigger] after[i].comments@[j];
                    &&& new_turn.author == old_turn.author
                    &&& new_turn.text == old_turn.text
                    &&& new_turn.at == old_turn.at
                    &&& named && old_turn.author is User && old_turn.review_id is None
                        ==> new_turn.review_id == Some(review_id)
                    &&& !(named && old_turn.author is User && old_turn.review_id is None)
                        ==> new_turn.review_id == old_turn.review_id
                }
            &&& gains && before[i].status == ReviewStatus::Addressed ==> after[i].status
                == ReviewStatus::Open
            &&& !(gains && before[i].status == ReviewStatus::Addressed) ==> after[i].status
                == before[i].status
            &&& after[i].id == before[i].id
            &&& after[i].anchor == before[i].anchor
            &&& after[i].created_at == before[i].created_at
            &&& after[i].updated_at == before[i].updated_at
            &&& after[i].commit == before[i].commit
        }),
{
    let views = contents(before);
    let old_thread = before[i]@;
    assert(contents(after).len() == after.len());
    assert(contents(after)[i] == after[i]@);
    assert(views[i] == old_thread);
    assert forall|j: int| 0 <= j < before[i].comments@.len() implies {
        let old_turn = before[i].comments@[j];
        let new_turn = #[trigger] after[i].comments@[j];
        new_turn == if lists(ids, before[i].id@) {
            sealed(old_turn, review_id)
        } else {
            old_turn
        }
    } by {
        assert(after[i]@.comments[j] == after[i].comments@[j]);
        assert(old_thread.comments[j] == before[i].comments@[j]);
    }
    let p = |c: ReviewComment| unfiled(c);
    if has_unfiled(old_thread) {
        let j = choose|j: int|
            0 <= j < old_thread.comments.len() && p(#[trigger] old_thread.comments[j]);
        assert(before[i].comments@[j].review_id is None);
    }
    if exists|j: int|
        0 <= j < before[i].comments@.len() && (#[trigger] before[i].comments@[j]).review_id is None
            && before[i].comments@[j].author is User {
        let j = choose|j: int|
            0 <= j < before[i].comments@.len() && (
            #[trigger] before[i].comments@[j]).review_id is None
                && before[i].comments@[j].author is User;
        assert(p(old_thread.comments[j]));
    }
}

/// A review is numbered one above those before it, counted as far as a number
/// goes.
pub proof fn a_review_is_numbered_next(count: nat)
    ensures
        count < u32::MAX ==> next_number(count) == count + 1,
        count >= u32::MAX ==> next_number(count) == u32::MAX,
{
}

/// A membership that was stored for a thread as a whole goes to the user's
/// turns, where none of its turns has one of its own; agents' turns, and
/// threads without a stored one, stay as they are.
pub proof fn a_stored_membership_goes_to_the_users_turns(
    thread: ThreadView,
    review_id: Option<String>,
    j: int,
)
    requires
        0 <= j < thread.comments.len(),
    ensures
        ({
            let after = lifted(thread, review_id);
            let own = exists|k: int|
                0 <= k < thread.comments.len() && (
                #[trigger] thread.comments[k]).review_id is Some;
            &&& after.comments.len() == thread.comments.len()
            &&& after.comments[j].author == thread.comments[j].author
            &&& after.comments[j].text == thread.comments[j].text
            &&& after.comments[j].at == thread.comments[j].at
            &&& review_id is Some && !own && thread.comments[j].author is User
                ==> after.comments[j].review_id == review_id
            &&& review_id is None || own || thread.comments[j].author is Agent
                ==> after.comments[j].review_id == thread.comments[j].review_id
            &&& after.id == thread.id
            &&& after.status == thread.status
            &&& after.anchor == thread.anchor
            &&& after.created_at == thread.created_at
            &&& after.updated_at == thread.updated_at
            &&& after.commit == thread.commit
        }),
{
    let p = |c: ReviewComment| c.review_id is Some;
    if any(thread.comments, p) {
        let k = choose|k: int| 0 <= k < thread.comments.len() && p(#[trigger] thread.comments[k]);
        assert(thread.comments[k].review_id is Some);
    }
    if exists|k: int|
        0 <= k < thread.comments.len() && (#[trigger] thread.comments[k]).review_id is Some {
        let k = choose|k: int|
            0 <= k < thread.comments.len() && (#[trigger] thread.comments[k]).review_id is Some;
        assert(p(thread.comments[k]));
    }
}

/// Each thread is lifted by what was stored for it.
pub proof fn every_thread_is_lifted_by_its_own(
    threads: Seq<ThreadView>,
    stored: Seq<Option<String>>,
    i: int,
)
    requires
        0 <= i < threads.len(),
    ensures
        all_lifted(threads, stored).len() == threads.len(),
        i < stored.len() ==> all_lifted(threads, stored)[i] == lifted(threads[i], stored[i]),
        i >= stored.len() ==> all_lifted(threads, stored)[i] == threads[i],
{
}

/// A thread is in a review exactly where one of its turns was filed into it,
/// and has something to file exactly where a turn of the user is in none.
pub proof fn a_thread_is_in_the_reviews_of_its_turns(thread: ThreadView, review_id: Seq<char>)
    ensures
        in_review(thread, review_id) <==> exists|j: int|
            0 <= j < thread.comments.len() && ((#[trigger] thread.comments[j]).review_id matches Some(
                review,
            ) && review@ == review_id),
        has_unfiled(thread) <==> exists|j: int|
            0 <= j < thread.comments.len() && (#[trigger] thread.comments[j]).review_id is None
                && thread.comments[j].author is User,
{
    let p = |c: ReviewComment| unfiled(c);
    if has_unfiled(thread) {
        let j = choose|j: int| 0 <= j < thread.comments.len() && p(#[trigger] thread.comments[j]);
        assert(thread.comments[j].review_id is None);
    }
    if exists|j: int|
        0 <= j < thread.comments.len() && (#[trigger] thread.comments[j]).review_id is None
            && thread.comments[j].author is User {
        let j = choose|j: int|
            0 <= j < thread.comments.len() && (#[trigger] thread.comments[j]).review_id is None
                && thread.comments[j].author is User;
        assert(p(thread.comments[j]));
    }
    if in_review(thread, review_id) {
        let j = choose|j: int|
            0 <= j < thread.comments.len() && filed_into(#[trigger] thread.comments[j], review_id);
        assert(thread.comments[j].review_id matches Some(review) && review@ == review_id);
    }
    if exists|j: int|
        0 <= j < thread.comments.len() && ((#[trigger] thread.comments[j]).review_id matches Some(
            review,
        ) && review@ == review_id) {
        let j = choose|j: int|
            0 <= j < thread.comments.len() && ((#[trigger] thread.comments[j]).review_id matches Some(
                review,
            ) && review@ == review_id);
        assert(filed_into(thread.comments[j], review_id));
    }
}

/// What is read is changed only where there is something to change: an upsert
/// always writes, a removal and a status only where a thread has the id. What
/// could not be read is not changed.
pub proof fn a_change_is_written_only_where_there_is_one(
    read: Result<Vec<ReviewThread>, StoreError>,
    thread: ThreadView,
    id: Seq<char>,
    status: ReviewStatus,
    now: String,
)
    ensures
        read matches Err(error) ==> {
            &&& stepped(read, upsert_step(thread, now)) == Err::<Option<Seq<ThreadView>>, StoreError>(
                error,
            )
            &&& stepped(read, remove_step(id)) == Err::<Option<Seq<ThreadView>>, StoreError>(error)
            &&& stepped(read, status_step(id, status, now)) == Err::<
                Option<Seq<ThreadView>>,
                StoreError,
            >(error)
        },
        read matches Ok(threads) ==> {
            let known = exists|i: int|
                0 <= i < threads@.len() && (#[trigger] threads@[i]).id@ == id;
            &&& stepped(read, upsert_step(thread, now)) == Ok::<Option<Seq<ThreadView>>, StoreError>(
                Some(upserted(contents(threads@), thread, now)),
            )
            &&& (stepped(read, remove_step(id)) matches Ok(Some(left)) && known && left == contents(
                threads@,
            ).filter(|t: ThreadView| t.id@ != id)) || (stepped(read, remove_step(id)) == Ok::<
                Option<Seq<ThreadView>>,
                StoreError,
            >(None) && !known)
            &&& stepped(read, status_step(id, status, now)) == Ok::<
                Option<Seq<ThreadView>>,
                StoreError,
            >(
                if known {
                    Some(status_set(contents(threads@), id, status, now))
                } else {
                    None
                },
            )
        },
{
    if read is Ok {
        let threads = read->Ok_0@;
        let views = contents(threads);
        let p = with_id(id);
        if any(views, p) {
            let i = choose|i: int| 0 <= i < views.len() && p(#[trigger] views[i]);
            assert(views[i] == threads[i]@);
            assert(threads[i].id@ == id);
        }
        if exists|i: int| 0 <= i < threads.len() && (#[trigger] threads[i]).id@ == id {
            let i = choose|i: int| 0 <= i < threads.len() && (#[trigger] threads[i]).id@ == id;
            assert(views[i] == threads[i]@);
            assert(p(views[i]));
        }
        let others = |t: ThreadView| t.id@ != id;
        assert(others =~= without_id(id));
    }
}

/// What a change leaves in the store: the branch's row is gone where no thread
/// is left, holds what was written where one is, and stays where nothing was
/// to be written. Every other row stays.
pub proof fn a_change_settles_one_row(
    before: Map<(Seq<char>, Seq<Seq<char>>), Seq<u8>>,
    project: Seq<char>,
    branch: Seq<char>,
    change: Result<Option<Seq<ThreadView>>, StoreError>,
    encoded: Seq<u8>,
    other: (Seq<char>, Seq<Seq<char>>),
)
    ensures
        ({
            let after = settled_rows(before, project, branch, change, encoded);
            let row = key2(REVIEW_THREADS@, project, branch);
            &&& other != row ==> after.dom().contains(other) == before.dom().contains(other)
            &&& other != row && before.dom().contains(other) ==> after[other] == before[other]
            &&& match change {
                Ok(Some(threads)) => if threads.len() == 0 {
                    !after.dom().contains(row)
                } else {
                    after.dom().contains(row) && after[row] == encoded
                },
                _ => after == before,
            }
        }),
{
}

/// What a submission leaves in the store: the branch's reviews with the new
/// one, its threads where one gained a turn, and every other row as it was.
pub proof fn a_submission_settles_reviews_and_threads(
    before: Map<(Seq<char>, Seq<Seq<char>>), Seq<u8>>,
    project: Seq<char>,
    branch: Seq<char>,
    answered: Result<Submission, StoreError>,
    encoded: (Seq<u8>, Seq<u8>),
    other: (Seq<char>, Seq<Seq<char>>),
)
    requires
        other != key2(REVIEWS@, project, branch),
        other != key2(REVIEW_THREADS@, project, branch),
    ensures
        ({
            let after = submission_rows(before, project, branch, answered, encoded);
            let reviews = key2(REVIEWS@, project, branch);
            let threads = key2(REVIEW_THREADS@, project, branch);
            &&& after.dom().contains(other) == before.dom().contains(other)
            &&& before.dom().contains(other) ==> after[other] == before[other]
            &&& answered is Err ==> after == before
            &&& (answered matches Ok(submission) ==> {
                &&& after.dom().contains(reviews)
                &&& after[reviews] == encoded.0
                &&& submission.threads is Some ==> after.dom().contains(threads) && after[threads]
                    == encoded.1
                &&& submission.threads is None ==> after.dom().contains(threads)
                    == before.dom().contains(threads)
                &&& submission.threads is None && before.dom().contains(threads) ==> after[threads]
                    == before[threads]
            })
        }),
{
    reveal_strlit("reviews");
    reveal_strlit("review_threads");
    assert(REVIEWS@.len() != REVIEW_THREADS@.len());
}

/// A submission appends one review, with its id, its number, its summary and
/// its time, and writes threads exactly where one of them gains a turn. What
/// could not be read is answered with that, and nothing is submitted.
pub proof fn a_submission_appends_one_review(
    reviews: Vec<ReviewSet>,
    threads: Vec<ReviewThread>,
    answered: Result<Submission, StoreError>,
    summary: Option<String>,
    ids: Seq<String>,
    sealed_as: (String, String),
)
    requires
        submission_answered(Ok(reviews), Ok(threads), answered, summary, ids, sealed_as),
    ensures
        answered matches Ok(submission) && {
            &&& submission.reviews@.len() == reviews@.len() + 1
            &&& submission.reviews@.take(reviews@.len() as int) == reviews@
            &&& submission.reviews@.last() == submission.review
            &&& submission.review.id == sealed_as.0
            &&& submission.review.created_at == sealed_as.1
            &&& submission.review.summary == summary
            &&& reviews@.len() < u32::MAX ==> submission.review.number == reviews@.len() + 1
            &&& submission.threads is Some <==> exists|i: int, j: int|
                {
                    &&& 0 <= i < threads@.len()
                    &&& 0 <= j < threads@[i].comments@.len()
                    &&& (#[trigger] threads@[i].comments@[j]).review_id is None
                    &&& threads@[i].comments@[j].author is User
                    &&& lists(ids, threads@[i].id@)
                }
        },
{
    let submission = answered->Ok_0;
    assert(submission.reviews@.take(reviews@.len() as int) =~= reviews@);
    let views = contents(threads@);
    let q = |t: ThreadView| lists(ids, t.id@) && has_unfiled(t);
    if any(views, q) {
        let i = choose|i: int| 0 <= i < views.len() && q(#[trigger] views[i]);
        assert(views[i] == threads@[i]@);
        a_thread_is_in_the_reviews_of_its_turns(views[i], Seq::empty());
        let j = choose|j: int|
            0 <= j < views[i].comments.len() && (#[trigger] views[i].comments[j]).review_id is None
                && views[i].comments[j].author is User;
        assert(threads@[i].comments@[j].review_id is None);
    }
    if exists|i: int, j: int|
        {
            &&& 0 <= i < threads@.len()
            &&& 0 <= j < threads@[i].comments@.len()
            &&& (#[trigger] threads@[i].comments@[j]).review_id is None
            &&& threads@[i].comments@[j].author is User
            &&& lists(ids, threads@[i].id@)
        } {
        let (i, j) = choose|i: int, j: int|
            {
                &&& 0 <= i < threads@.len()
                &&& 0 <= j < threads@[i].comments@.len()
                &&& (#[trigger] threads@[i].comments@[j]).review_id is None
                &&& threads@[i].comments@[j].author is User
                &&& lists(ids, threads@[i].id@)
            };
        assert(views[i] == threads@[i]@);
        assert(views[i].comments[j].review_id is None);
        a_thread_is_in_the_reviews_of_its_turns(views[i], Seq::empty());
        assert(q(views[i]));
    }
}

/// An id is listed exactly where one of the ids is it, and a branch is named
/// exactly where one of the branches has the name.
pub proof fn what_is_listed_is_one_of_the_list(list: Seq<String>, text: Seq<char>)
    ensures
        lists(list, text) <==> exists|i: int| 0 <= i < list.len() && (#[trigger] list[i])@ == text,
        names_branch(list, text) <==> exists|i: int|
            0 <= i < list.len() && (#[trigger] list[i])@ == text,
{
}

/// A thread is found under an id exactly as the first that has it.
pub proof fn the_first_thread_with_an_id_is_found(threads: Seq<ReviewThread>, id: Seq<char>, i: int)
    ensures
        0 <= i < threads.len() && threads[i].id@ == id && (forall|j: int|
            0 <= j < i ==> (#[trigger] threads[j]).id@ != id) ==> first_match(
            contents(threads),
            with_id(id),
        ) == Some(threads[i]@),
        (forall|j: int| 0 <= j < threads.len() ==> (#[trigger] threads[j]).id@ != id)
            <==> first_match(contents(threads), with_id(id)) is None,
{
    let views = contents(threads);
    let p = with_id(id);
    assert forall|j: int| 0 <= j < views.len() implies views[j] == threads[j]@ by {}
    if 0 <= i < threads.len() && threads[i].id@ == id && (forall|j: int|
        0 <= j < i ==> (#[trigger] threads[j]).id@ != id) {
        assert forall|j: int| 0 <= j < i implies !p(#[trigger] views[j]) by {
            assert(views[j] == threads[j]@);
        }
        crate::seqs::lemma_first_index_is(views, p, i);
    }
    if any(views, p) {
        let k = choose|k: int| 0 <= k < views.len() && p(#[trigger] views[k]);
        assert(threads[k].id@ == id);
    }
    if exists|j: int| 0 <= j < threads.len() && (#[trigger] threads[j]).id@ == id {
        let k = choose|k: int| 0 <= k < threads.len() && (#[trigger] threads[k]).id@ == id;
        assert(p(views[k]));
    }
}

/// A reply to a thread that is not there is refused by the thread's id and its
/// place, and what could not be read is answered with that; a reply to one
/// that is there is never refused.
pub proof fn only_a_reply_to_no_thread_is_refused(
    read: Result<Vec<ReviewThread>, StoreError>,
    answered: Result<AppendedReply, StoreError>,
    place: (Seq<char>, Seq<char>, Seq<char>),
    reply: (String, String, String),
)
    requires
        reply_answered(read, answered, place, reply),
    ensures
        read matches Err(error) ==> answered == Err::<AppendedReply, StoreError>(error),
        read matches Ok(threads) ==> (answered is Err <==> forall|i: int|
            0 <= i < threads@.len() ==> (#[trigger] threads@[i]).id@ != place.2),
        read is Ok ==> (answered matches Err(error) ==> error.context is None
            && crate::deliver::is_within(place.2, error.message@) && crate::deliver::is_within(
            place.0,
            error.message@,
        ) && crate::deliver::is_within(place.1, error.message@)),
{
    if read is Ok {
        let threads = read->Ok_0@;
        the_first_thread_with_an_id_is_found(threads, place.2, 0);
        let a = "no review thread "@;
        let text = no_thread_message(place.2, place.0, place.1);
        assert(text =~= a + place.2 + (" in ("@ + place.0 + ", "@ + place.1 + ")"@));
        assert(text =~= (a + place.2 + " in ("@) + place.0 + (", "@ + place.1 + ")"@));
        assert(text =~= (a + place.2 + " in ("@ + place.0 + ", "@) + place.1 + ")"@);
    }
}

/// A row that cannot be decoded is told with its place and with what the
/// decoder says.
pub proof fn an_undecoded_row_names_its_place(
    error: StoreError,
    what: Seq<char>,
    project: Seq<char>,
    branch: Seq<char>,
    message: String,
)
    requires
        is_undecoded(error, what, project, branch, message),
    ensures
        error.message == message,
        error.context matches Some(context) && crate::deliver::is_within(what, context@)
            && crate::deliver::is_within(project, context@) && crate::deliver::is_within(
            branch,
            context@,
        ),
{
    let text = decode_context(what, project, branch);
    assert(text =~= "decode "@ + what + (" for ("@ + project + ", "@ + branch + ")"@));
    assert(text =~= ("decode "@ + what + " for ("@) + project + (", "@ + branch + ")"@));
    assert(text =~= ("decode "@ + what + " for ("@ + project + ", "@) + branch + ")"@);
}

/// The branches that are listed for a project are those of its rows, in their
/// order.
pub proof fn listed_branches_are_the_projects(
    rows: Seq<(String, String, Vec<u8>)>,
    project: Seq<char>,
    i: int,
)
    ensures
        ({
            let branches = rows.filter(row_of_project(project)).map_values(
                |row: (String, String, Vec<u8>)| row.1,
            );
            &&& 0 <= i < rows.len() && rows[i].0@ == project ==> branches.contains(rows[i].1)
            &&& 0 <= i < branches.len() ==> exists|k: int|
                0 <= k < rows.len() && (#[trigger] rows[k]).0@ == project && rows[k].1
                    == branches[i]
        }),
{
    let p = row_of_project(project);
    let own = rows.filter(p);
    let branches = own.map_values(|row: (String, String, Vec<u8>)| row.1);
    crate::seqs::lemma_filter_keeps(rows, p);
    if 0 <= i < rows.len() && rows[i].0@ == project {
        crate::seqs::lemma_filter_holds(rows, p, i);
        let k = choose|k: int| 0 <= k < own.len() && own[k] == rows[i];
        assert(branches[k] == rows[i].1);
    }
    if 0 <= i < branches.len() {
        assert(p(own[i]));
        let k = choose|k: int| 0 <= k < rows.len() && rows[k] == own[i];
        assert(rows[k].0@ == project);
    }
}

} // verus!
