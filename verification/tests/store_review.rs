//! Review threads and reviews, in a real database.

use forge_workspace::store::review::{
    self, ReviewAnchor, ReviewAuthor, ReviewComment, ReviewSet, ReviewSide, ReviewStatus,
    ReviewThread, Submission,
};
use forge_workspace::store::{Db, StoreError};
use serde_json::Value;
use tempfile::{tempdir, TempDir};

fn open_db() -> (TempDir, Db) {
    let dir = tempdir().expect("tempdir");
    let path = dir.path().join("db.redb");
    let db = Db::open(path.to_str().expect("utf-8 path")).expect("open db");
    (dir, db)
}

fn text(value: &str) -> Value {
    Value::String(value.to_owned())
}

fn optional(value: &Option<String>) -> Value {
    match value {
        Some(value) => text(value),
        None => Value::Null,
    }
}

fn object(fields: Vec<(&str, Value)>) -> Value {
    let mut object = serde_json::Map::new();
    for (name, value) in fields {
        object.insert(name.to_owned(), value);
    }
    Value::Object(object)
}

fn string_of(value: &Value, name: &str) -> Option<String> {
    value.get(name)?.as_str().map(str::to_owned)
}

fn side_name(side: ReviewSide) -> &'static str {
    match side {
        ReviewSide::Old => "Old",
        ReviewSide::New => "New",
    }
}

fn status_name(status: ReviewStatus) -> &'static str {
    match status {
        ReviewStatus::Open => "Open",
        ReviewStatus::Addressed => "Addressed",
        ReviewStatus::Resolved => "Resolved",
        ReviewStatus::Outdated => "Outdated",
    }
}

fn comment_value(comment: &ReviewComment) -> Value {
    let author = match &comment.author {
        ReviewAuthor::User => text("User"),
        ReviewAuthor::Agent { label } => {
            object(vec![("Agent", object(vec![("label", text(label))]))])
        }
    };
    object(vec![
        ("author", author),
        ("text", text(&comment.text)),
        ("at", text(&comment.at)),
        ("review_id", optional(&comment.review_id)),
    ])
}

fn thread_value(thread: &ReviewThread) -> Value {
    let anchor = object(vec![
        ("path", text(&thread.anchor.path)),
        ("side", text(side_name(thread.anchor.side))),
        ("line", Value::from(thread.anchor.line)),
        ("content_hash", Value::from(thread.anchor.content_hash)),
        ("context", Value::Array(thread.anchor.context.iter().map(|line| text(line)).collect())),
        ("base_ref", text(&thread.anchor.base_ref)),
    ]);
    object(vec![
        ("id", text(&thread.id)),
        ("anchor", anchor),
        ("comments", Value::Array(thread.comments.iter().map(comment_value).collect())),
        ("status", text(status_name(thread.status))),
        ("created_at", text(&thread.created_at)),
        ("updated_at", text(&thread.updated_at)),
        ("commit", optional(&thread.commit)),
    ])
}

fn comment_of(value: &Value) -> Option<ReviewComment> {
    let author = match value.get("author")? {
        Value::String(_) => ReviewAuthor::User,
        other => ReviewAuthor::Agent { label: string_of(other.get("Agent")?, "label")? },
    };
    Some(ReviewComment {
        author,
        text: string_of(value, "text")?,
        at: string_of(value, "at")?,
        review_id: string_of(value, "review_id"),
    })
}

fn thread_of(value: &Value) -> Option<ReviewThread> {
    let anchor = value.get("anchor")?;
    let side = match anchor.get("side")?.as_str()? {
        "Old" => ReviewSide::Old,
        _ => ReviewSide::New,
    };
    let status = match value.get("status")?.as_str()? {
        "Open" => ReviewStatus::Open,
        "Addressed" => ReviewStatus::Addressed,
        "Resolved" => ReviewStatus::Resolved,
        _ => ReviewStatus::Outdated,
    };
    Some(ReviewThread {
        id: string_of(value, "id")?,
        anchor: ReviewAnchor {
            path: string_of(anchor, "path")?,
            side,
            line: u32::try_from(anchor.get("line")?.as_u64()?).ok()?,
            content_hash: anchor.get("content_hash")?.as_u64()?,
            context: anchor
                .get("context")?
                .as_array()?
                .iter()
                .map(|line| line.as_str().map(str::to_owned))
                .collect::<Option<Vec<String>>>()?,
            base_ref: string_of(anchor, "base_ref")?,
        },
        comments: value
            .get("comments")?
            .as_array()?
            .iter()
            .map(comment_of)
            .collect::<Option<Vec<ReviewComment>>>()?,
        status,
        created_at: string_of(value, "created_at")?,
        updated_at: string_of(value, "updated_at")?,
        commit: string_of(value, "commit"),
    })
}

fn set_value(set: &ReviewSet) -> Value {
    object(vec![
        ("id", text(&set.id)),
        ("number", Value::from(set.number)),
        ("summary", optional(&set.summary)),
        ("created_at", text(&set.created_at)),
    ])
}

fn set_of(value: &Value) -> Option<ReviewSet> {
    Some(ReviewSet {
        id: string_of(value, "id")?,
        number: u32::try_from(value.get("number")?.as_u64()?).ok()?,
        summary: string_of(value, "summary"),
        created_at: string_of(value, "created_at")?,
    })
}

fn encode_threads(threads: &[ReviewThread]) -> Vec<u8> {
    serde_json::to_vec(&Value::Array(threads.iter().map(thread_value).collect())).expect("encode")
}

fn encode_reviews(reviews: &[ReviewSet]) -> Vec<u8> {
    serde_json::to_vec(&Value::Array(reviews.iter().map(set_value).collect())).expect("encode")
}

fn decode_threads(bytes: &[u8]) -> Result<Vec<ReviewThread>, String> {
    let value: Value = serde_json::from_slice(bytes).map_err(|error| error.to_string())?;
    let rows = value.as_array().ok_or("not a list")?;
    let mut threads = rows
        .iter()
        .map(thread_of)
        .collect::<Option<Vec<ReviewThread>>>()
        .ok_or("not a thread")?;
    let stored: Vec<Option<String>> =
        rows.iter().map(|row| string_of(row, "review_id")).collect();
    review::lift_thread_membership(&mut threads, &stored);
    Ok(threads)
}

fn load(db: &Db, project: &str, branch: &str) -> Result<Vec<ReviewThread>, StoreError> {
    let row = review::load(db, project, branch)?.map(|bytes| decode_threads(&bytes));
    review::read_threads(row, &project.to_owned(), &branch.to_owned())
}

fn save(db: &mut Db, project: &str, branch: &str, threads: &Vec<ReviewThread>) {
    review::save(db, project, branch, threads, &encode_threads(threads)).expect("save");
}

fn decode_reviews(bytes: &[u8]) -> Result<Vec<ReviewSet>, String> {
    let value: Value = serde_json::from_slice(bytes).map_err(|error| error.to_string())?;
    let rows = value.as_array().ok_or("not a list")?;
    Ok(rows.iter().map(set_of).collect::<Option<Vec<ReviewSet>>>().ok_or("not a set")?)
}

fn read_reviews(db: &Db, project: &str, branch: &str) -> Result<Vec<ReviewSet>, StoreError> {
    let row = review::load_reviews(db, project, branch)?.map(|bytes| decode_reviews(&bytes));
    review::read_reviews(row, &project.to_owned(), &branch.to_owned())
}

fn load_reviews(db: &Db, project: &str, branch: &str) -> Vec<ReviewSet> {
    read_reviews(db, project, branch).expect("load reviews")
}

fn save_reviews(db: &mut Db, project: &str, branch: &str, reviews: &Vec<ReviewSet>) {
    review::save_reviews(db, project, branch, reviews, &encode_reviews(reviews)).expect("save");
}

fn settle(
    db: &mut Db,
    change: Result<Option<Vec<ReviewThread>>, StoreError>,
) -> Result<bool, StoreError> {
    let encoded = match &change {
        Ok(Some(threads)) => encode_threads(threads),
        _ => Vec::new(),
    };
    review::settle(db, "forge", "feat", change, &encoded)
}

fn upsert(db: &mut Db, thread: ReviewThread) -> Result<(), StoreError> {
    let change = review::upsert_change(load(db, "forge", "feat"), thread);
    settle(db, change).map(|_| ())
}

fn set_status(db: &mut Db, id: &str, status: ReviewStatus) -> Result<bool, StoreError> {
    let change = review::set_status_change(load(db, "forge", "feat"), &id.to_owned(), status);
    settle(db, change)
}

fn remove_thread(db: &mut Db, id: &str) -> Result<bool, StoreError> {
    let change = review::remove_change(load(db, "forge", "feat"), &id.to_owned());
    settle(db, change)
}

fn append_reply(
    db: &mut Db,
    id: &str,
    label: &str,
    said: &str,
    at: &str,
) -> Result<ReviewStatus, StoreError> {
    let answered = review::append_reply_change(
        load(db, "forge", "feat"),
        &"forge".to_owned(),
        &"feat".to_owned(),
        &id.to_owned(),
        &label.to_owned(),
        &said.to_owned(),
        &at.to_owned(),
    );
    let encoded = match &answered {
        Ok(appended) => encode_threads(&appended.threads),
        Err(_) => Vec::new(),
    };
    review::settle_reply(db, "forge", "feat", answered, &encoded)
}

fn try_submit(db: &mut Db, summary: Option<&str>, ids: &[&str]) -> Result<ReviewSet, StoreError> {
    let ids: Vec<String> = ids.iter().map(|id| (*id).to_owned()).collect();
    let answered = review::submit_change(
        read_reviews(db, "forge", "feat"),
        load(db, "forge", "feat"),
        summary.map(str::to_owned),
        &ids,
    );
    let (reviews, threads) = match &answered {
        Ok(Submission { reviews, threads, .. }) => (
            encode_reviews(reviews),
            threads.as_ref().map(|threads| encode_threads(threads)).unwrap_or_default(),
        ),
        Err(_) => (Vec::new(), Vec::new()),
    };
    review::settle_submission(db, "forge", "feat", answered, &reviews, threads)
}

fn submit(db: &mut Db, summary: Option<&str>, ids: &[&str]) -> ReviewSet {
    try_submit(db, summary, ids).expect("submit")
}

fn status_of(db: &Db, id: &str) -> ReviewStatus {
    let threads = load(db, "forge", "feat").expect("load");
    review::find_thread_by_id(&threads, &id.to_owned()).expect("thread").status
}

fn thread(id: &str, line: u32) -> ReviewThread {
    ReviewThread {
        id: id.to_owned(),
        anchor: ReviewAnchor {
            path: "src/x.rs".to_owned(),
            side: ReviewSide::New,
            line,
            content_hash: u64::from(line),
            context: vec!["ctx".to_owned()],
            base_ref: "main".to_owned(),
        },
        comments: vec![ReviewComment {
            author: ReviewAuthor::User,
            text: format!("comment {id}"),
            at: "2026-07-19T10:00:00Z".to_owned(),
            review_id: None,
        }],
        status: ReviewStatus::Open,
        created_at: "2026-07-19T10:00:00Z".to_owned(),
        updated_at: "2026-07-19T10:00:00Z".to_owned(),
        commit: None,
    }
}

fn reply(db: &mut Db, id: &str, said: &str) {
    let threads = load(db, "forge", "feat").expect("load");
    let at = threads.iter().position(|thread| thread.id == id).expect("thread for reply");
    let mut threads = threads;
    let mut replied = threads.swap_remove(at);
    replied.comments.push(ReviewComment {
        author: ReviewAuthor::User,
        text: said.to_owned(),
        at: String::new(),
        review_id: None,
    });
    upsert(db, replied).expect("upsert reply");
}

fn review_set(number: u32, summary: Option<&str>) -> ReviewSet {
    ReviewSet {
        id: format!("review-{number}"),
        number,
        summary: summary.map(str::to_owned),
        created_at: "2026-07-23T10:00:00Z".to_owned(),
    }
}

#[test]
fn save_then_load_round_trips() {
    let (_dir, mut db) = open_db();
    let threads = vec![thread("a", 10), thread("b", 20)];
    save(&mut db, "forge", "feat", &threads);
    assert_eq!(load(&db, "forge", "feat").expect("load"), threads);
}

#[test]
fn load_is_empty_on_miss() {
    let (_dir, db) = open_db();
    assert!(load(&db, "forge", "nope").expect("load").is_empty());
}

#[test]
fn upsert_replaces_by_id_and_appends_new() {
    let (_dir, mut db) = open_db();
    upsert(&mut db, thread("a", 10)).expect("upsert a");
    upsert(&mut db, thread("b", 20)).expect("upsert b");
    let mut a2 = thread("a", 10);
    a2.anchor.line = 99;
    upsert(&mut db, a2).expect("re-upsert a");
    let loaded = load(&db, "forge", "feat").expect("load");
    assert_eq!(loaded.len(), 2, "re-upsert replaced, no duplicate");
    assert_eq!(loaded.iter().find(|t| t.id == "a").expect("a present").anchor.line, 99);
}

#[test]
fn set_status_mutates_one_and_reports_missing() {
    let (_dir, mut db) = open_db();
    save(&mut db, "forge", "feat", &vec![thread("a", 10), thread("b", 20)]);
    assert!(set_status(&mut db, "a", ReviewStatus::Resolved).expect("set"));
    assert_eq!(status_of(&db, "a"), ReviewStatus::Resolved);
    assert_eq!(status_of(&db, "b"), ReviewStatus::Open);
    assert!(
        !set_status(&mut db, "missing", ReviewStatus::Resolved).expect("set"),
        "an unknown id reports not-found",
    );
}

#[test]
fn upsert_stamps_an_empty_comment_at() {
    let (_dir, mut db) = open_db();
    let mut t = thread("a", 10);
    t.comments[0].at = String::new();
    upsert(&mut db, t).expect("upsert");
    let loaded = load(&db, "forge", "feat").expect("load");
    assert!(!loaded[0].comments[0].at.is_empty(), "upsert stamps an empty comment `at`");
}

#[test]
fn remove_thread_drops_one_and_reports_missing() {
    let (_dir, mut db) = open_db();
    save(&mut db, "forge", "feat", &vec![thread("a", 10), thread("b", 20)]);
    assert!(remove_thread(&mut db, "a").expect("remove a"));
    let loaded = load(&db, "forge", "feat").expect("load");
    assert_eq!(loaded.len(), 1);
    assert_eq!(loaded[0].id, "b");
    assert!(!remove_thread(&mut db, "a").expect("remove again"), "already gone");
    assert!(remove_thread(&mut db, "b").expect("remove b"));
    assert!(load(&db, "forge", "feat").expect("load").is_empty());
    assert_eq!(review::load(&db, "forge", "feat"), Ok(None), "the last one takes the row with it");
}

#[test]
fn delete_removes_the_branch_set() {
    let (_dir, mut db) = open_db();
    save(&mut db, "forge", "feat", &vec![thread("a", 10)]);
    assert!(
        review::delete(&mut db, "forge", "feat").expect("delete"),
        "existing row deletes to true",
    );
    assert!(load(&db, "forge", "feat").expect("load").is_empty());
    assert!(
        !review::delete(&mut db, "forge", "feat").expect("delete"),
        "absent row deletes to false",
    );
}

#[test]
fn distinct_project_branch_keys_do_not_collide() {
    let (_dir, mut db) = open_db();
    save(&mut db, "forge", "feat", &vec![thread("a", 10)]);
    save(&mut db, "forge", "other", &vec![thread("b", 20), thread("c", 30)]);
    save(&mut db, "elsewhere", "feat", &vec![thread("d", 40)]);
    assert_eq!(load(&db, "forge", "feat").expect("load").len(), 1);
    assert_eq!(load(&db, "forge", "other").expect("load").len(), 2);
    assert_eq!(load(&db, "elsewhere", "feat").expect("load").len(), 1);
    review::delete(&mut db, "forge", "feat").expect("delete");
    assert!(load(&db, "forge", "feat").expect("load").is_empty());
    assert_eq!(load(&db, "forge", "other").expect("load").len(), 2);
    assert_eq!(load(&db, "elsewhere", "feat").expect("load").len(), 1);
}

#[test]
fn corrupt_row_surfaces_error_and_is_never_clobbered() {
    let (_dir, mut db) = open_db();
    db.put2(review::REVIEW_THREADS, "forge", "feat", &b"not json".to_vec()).expect("insert");
    assert!(load(&db, "forge", "feat").is_err(), "a corrupt row is an error, not empty");
    assert!(upsert(&mut db, thread("a", 1)).is_err(), "upsert aborts");
    assert!(set_status(&mut db, "a", ReviewStatus::Resolved).is_err(), "set_status aborts");
    assert!(remove_thread(&mut db, "a").is_err(), "remove aborts");
    assert_eq!(
        review::load(&db, "forge", "feat"),
        Ok(Some(b"not json".to_vec())),
        "the corrupt bytes were never overwritten",
    );
}

#[test]
fn an_unreadable_row_takes_neither_a_reply_nor_a_review() {
    let (_dir, mut db) = open_db();
    db.put2(review::REVIEW_THREADS, "forge", "feat", &b"not json".to_vec()).expect("insert");

    let replied = append_reply(&mut db, "a", "impl", "done", "2026-07-23T11:00:00Z");
    let sealed = try_submit(&mut db, None, &["a"]);

    let context = Some("decode review threads for (forge, feat)".to_owned());
    assert_eq!(replied.expect_err("the reply aborts").context, context);
    assert_eq!(sealed.expect_err("the submit aborts").context, context);
    assert_eq!(review::load(&db, "forge", "feat"), Ok(Some(b"not json".to_vec())));
    assert_eq!(review::load_reviews(&db, "forge", "feat"), Ok(None), "and no review is there");
}

#[test]
fn unreadable_reviews_are_not_added_to() {
    let (_dir, mut db) = open_db();
    save(&mut db, "forge", "feat", &vec![thread("a", 10)]);
    db.put2(review::REVIEWS, "forge", "feat", &b"not json".to_vec()).expect("insert");

    let error = try_submit(&mut db, None, &["a"]).expect_err("the submit aborts");

    assert_eq!(error.context, Some("decode reviews for (forge, feat)".to_owned()));
    assert_eq!(review::load_reviews(&db, "forge", "feat"), Ok(Some(b"not json".to_vec())));
    assert_eq!(load(&db, "forge", "feat"), Ok(vec![thread("a", 10)]), "no turn was filed");
}

#[test]
fn a_change_without_its_thread_writes_nothing() {
    let (_dir, mut db) = open_db();
    save(&mut db, "forge", "feat", &vec![thread("a", 10)]);
    assert_eq!(set_status(&mut db, "b", ReviewStatus::Resolved), Ok(false));
    assert_eq!(remove_thread(&mut db, "b"), Ok(false));
    let error = append_reply(&mut db, "b", "impl", "x", "t").expect_err("no such thread");
    assert_eq!(error.message, "no review thread b in (forge, feat)");
    assert_eq!(load(&db, "forge", "feat"), Ok(vec![thread("a", 10)]));
}

#[test]
fn save_empty_slice_clears_the_row() {
    let (_dir, mut db) = open_db();
    save(&mut db, "forge", "feat", &vec![thread("a", 10)]);
    save(&mut db, "forge", "feat", &Vec::new());
    assert!(load(&db, "forge", "feat").expect("load").is_empty());
}

#[test]
fn append_reply_appends_agent_comment_and_flips_open_to_addressed() {
    let (_dir, mut db) = open_db();
    save(&mut db, "forge", "feat", &vec![thread("a", 10)]);
    let status = append_reply(&mut db, "a", "implementer", "fixed it", "2026-07-23T11:00:00Z")
        .expect("append");
    assert_eq!(status, ReviewStatus::Addressed, "an Open thread flips to Addressed on reply");
    let loaded = load(&db, "forge", "feat").expect("load");
    let a = loaded.iter().find(|t| t.id == "a").expect("a present");
    assert_eq!(a.comments.len(), 2, "the agent reply appends to the thread");
    assert_eq!(a.comments[1].author, ReviewAuthor::Agent { label: "implementer".to_owned() });
    assert_eq!(a.comments[1].text, "fixed it");
    assert_eq!(a.comments[1].at, "2026-07-23T11:00:00Z");
    assert_eq!(a.status, ReviewStatus::Addressed);
}

#[test]
fn append_reply_on_resolved_thread_appends_but_keeps_resolved() {
    let (_dir, mut db) = open_db();
    let mut t = thread("a", 10);
    t.status = ReviewStatus::Resolved;
    save(&mut db, "forge", "feat", &vec![t]);
    let status =
        append_reply(&mut db, "a", "impl", "more", "2026-07-23T11:00:00Z").expect("append");
    assert_eq!(status, ReviewStatus::Resolved, "a resolved thread stays resolved");
    let loaded = load(&db, "forge", "feat").expect("load");
    let a = loaded.iter().find(|t| t.id == "a").expect("a");
    assert_eq!(a.comments.len(), 2, "the reply still appends");
    assert_eq!(a.status, ReviewStatus::Resolved);
}

#[test]
fn append_reply_unknown_id_errors() {
    let (_dir, mut db) = open_db();
    save(&mut db, "forge", "feat", &vec![thread("a", 10)]);
    assert!(
        append_reply(&mut db, "missing", "impl", "x", "2026-07-23T11:00:00Z").is_err(),
        "an unknown comment_id is an error, not a silent no-op",
    );
}

#[test]
fn find_thread_by_id_returns_the_thread_or_none() {
    let (_dir, mut db) = open_db();
    save(&mut db, "forge", "feat", &vec![thread("a", 10), thread("b", 20)]);
    let threads = load(&db, "forge", "feat").expect("load");
    let found = review::find_thread_by_id(&threads, &"b".to_owned());
    assert_eq!(found.map(|t| t.id.clone()), Some("b".to_owned()));
    assert!(
        review::find_thread_by_id(&threads, &"missing".to_owned()).is_none(),
        "an unknown id resolves to None",
    );
}

#[test]
fn reviews_save_then_load_round_trips() {
    let (_dir, mut db) = open_db();
    let reviews = vec![review_set(1, Some("first")), review_set(2, None)];
    save_reviews(&mut db, "forge", "feat", &reviews);
    assert_eq!(load_reviews(&db, "forge", "feat"), reviews);
}

#[test]
fn load_reviews_is_empty_on_miss() {
    let (_dir, db) = open_db();
    assert!(load_reviews(&db, "forge", "nope").is_empty());
}

#[test]
fn review_branches_lists_only_the_projects_own_branches() {
    let (_dir, mut db) = open_db();
    save_reviews(&mut db, "forge", "feat/a", &vec![review_set(1, None)]);
    save_reviews(&mut db, "forge", "feat/b", &vec![review_set(1, None)]);
    save_reviews(&mut db, "elsewhere", "feat/c", &vec![review_set(1, None)]);
    save(&mut db, "forge", "drafts-only", &vec![thread("a", 10)]);
    assert_eq!(
        review::review_branches(&db, &"forge".to_owned()).expect("branches"),
        vec!["feat/a".to_owned(), "feat/b".to_owned()],
    );
    assert_eq!(
        review::review_branches(&db, &"nosuch".to_owned()).expect("branches"),
        Vec::<String>::new(),
    );
}

#[test]
fn review_branches_does_not_bleed_across_adjacent_projects() {
    let (_dir, mut db) = open_db();
    save_reviews(&mut db, "aaa", "feat/x", &vec![review_set(1, None)]);
    save_reviews(&mut db, "aaa-suffix", "feat/y", &vec![review_set(1, None)]);
    save_reviews(&mut db, "bbb", "feat/z", &vec![review_set(1, None)]);
    assert_eq!(
        review::review_branches(&db, &"aaa".to_owned()).expect("branches"),
        vec!["feat/x".to_owned()],
    );
    assert_eq!(
        review::review_branches(&db, &"aaa-suffix".to_owned()).expect("branches"),
        vec!["feat/y".to_owned()],
    );
}

#[test]
fn delete_branch_state_clears_both_tables_and_spares_other_branches() {
    let (_dir, mut db) = open_db();
    save(&mut db, "forge", "feat", &vec![thread("a", 10)]);
    save_reviews(&mut db, "forge", "feat", &vec![review_set(1, None)]);
    save(&mut db, "forge", "other", &vec![thread("b", 20)]);
    save_reviews(&mut db, "forge", "other", &vec![review_set(1, None)]);

    review::delete_branch_state(&mut db, "forge", "feat").expect("delete");

    assert!(load(&db, "forge", "feat").expect("load").is_empty(), "threads gone");
    assert!(load_reviews(&db, "forge", "feat").is_empty(), "reviews gone too");
    assert_eq!(load(&db, "forge", "other").expect("load").len(), 1, "scoped to its branch");
    assert_eq!(load_reviews(&db, "forge", "other").len(), 1);
    review::delete_branch_state(&mut db, "forge", "absent").expect("absent branch deletes cleanly");
}

#[test]
fn save_reviews_empty_slice_clears_the_row() {
    let (_dir, mut db) = open_db();
    save_reviews(&mut db, "forge", "feat", &vec![review_set(1, None)]);
    save_reviews(&mut db, "forge", "feat", &Vec::new());
    assert!(load_reviews(&db, "forge", "feat").is_empty());
    save_reviews(&mut db, "forge", "feat", &vec![review_set(1, None)]);
    review::delete_reviews(&mut db, "forge", "feat").expect("delete");
    assert_eq!(review::load_reviews(&db, "forge", "feat"), Ok(None));
}

#[test]
fn submit_review_mints_number_and_files_listed_unfiled_threads() {
    let (_dir, mut db) = open_db();
    save(&mut db, "forge", "feat", &vec![thread("a", 10), thread("b", 20), thread("c", 30)]);

    let filed = |db: &Db, id: &str| {
        load(db, "forge", "feat")
            .expect("load")
            .into_iter()
            .find(|t| t.id == id)
            .expect("thread")
            .origin_review()
            .cloned()
    };

    let r1 = submit(&mut db, Some("first pass"), &["a", "b"]);
    assert_eq!(r1.number, 1);
    assert_eq!(r1.summary.as_deref(), Some("first pass"));
    assert_eq!(filed(&db, "a"), Some(r1.id.clone()), "a filed into r1");
    assert_eq!(filed(&db, "b"), Some(r1.id.clone()), "b filed into r1");
    assert_eq!(filed(&db, "c"), None, "c not listed, stays unfiled");
    assert_eq!(load_reviews(&db, "forge", "feat").len(), 1);

    let r2 = submit(&mut db, None, &["c"]);
    assert_eq!(r2.number, 2);
    assert_ne!(r2.id, r1.id, "each review has a distinct id");
    assert_eq!(filed(&db, "a"), Some(r1.id.clone()), "a stays in r1");
    assert_eq!(filed(&db, "c"), Some(r2.id.clone()), "c filed into r2");
    assert_eq!(load_reviews(&db, "forge", "feat").len(), 2);
}

#[test]
fn submit_review_leaves_an_already_filed_turn_untouched() {
    let (_dir, mut db) = open_db();
    let mut a = thread("a", 10);
    a.comments[0].review_id = Some("prior".to_owned());
    save(&mut db, "forge", "feat", &vec![a]);
    let r = submit(&mut db, None, &["a"]);
    let stored = load(&db, "forge", "feat").expect("load");
    assert_eq!(
        stored[0].comments[0].review_id,
        Some("prior".to_owned()),
        "a sealed turn never moves to a later review",
    );
    assert!(!stored[0].is_in_review(&r.id), "with nothing new to seal it joins no review");
    assert_eq!(r.number, 1, "the review still mints even if it files nothing new");
}

#[test]
fn a_reply_on_a_filed_thread_joins_the_next_review() {
    let (_dir, mut db) = open_db();
    save(&mut db, "forge", "feat", &vec![thread("a", 10)]);
    let r1 = submit(&mut db, None, &["a"]);
    append_reply(&mut db, "a", "implementer", "done", "").expect("agent reply");
    reply(&mut db, "a", "not quite");
    let r2 = submit(&mut db, None, &["a"]);

    let stored = load(&db, "forge", "feat").expect("load").remove(0);
    assert!(stored.is_in_review(&r1.id), "the first round stays attributed to r1");
    assert!(stored.is_in_review(&r2.id), "the reply puts the thread in r2 as well");
    assert_eq!(
        stored.comments.iter().map(|c| c.review_id.clone()).collect::<Vec<_>>(),
        vec![Some(r1.id.clone()), None, Some(r2.id.clone())],
        "turns are attributed per round; the agent reply carries no membership",
    );
    assert_eq!(stored.origin_review(), Some(&r1.id));
    assert_eq!(stored.latest_review(), Some(&r2.id));
}

#[test]
fn sealing_a_new_turn_reopens_an_addressed_thread() {
    let (_dir, mut db) = open_db();
    save(&mut db, "forge", "feat", &vec![thread("a", 10)]);
    submit(&mut db, None, &["a"]);
    let status = append_reply(&mut db, "a", "implementer", "done", "").expect("reply");
    assert_eq!(status, ReviewStatus::Addressed, "the agent's answer addressed it");
    reply(&mut db, "a", "not quite");
    assert_eq!(
        status_of(&db, "a"),
        ReviewStatus::Addressed,
        "typing a reply alone does not change state",
    );
    submit(&mut db, None, &["a"]);
    assert_eq!(
        status_of(&db, "a"),
        ReviewStatus::Open,
        "sealing the reply hands the thread back to the agent",
    );
}

#[test]
fn submitting_without_a_new_turn_leaves_an_addressed_thread_addressed() {
    let (_dir, mut db) = open_db();
    save(&mut db, "forge", "feat", &vec![thread("a", 10), thread("b", 20)]);
    submit(&mut db, None, &["a"]);
    append_reply(&mut db, "a", "implementer", "done", "").expect("reply");
    submit(&mut db, None, &["a", "b"]);
    assert_eq!(
        status_of(&db, "a"),
        ReviewStatus::Addressed,
        "no new turn on a, so its state is untouched",
    );
}

#[test]
fn sealing_does_not_reopen_a_resolved_thread() {
    let (_dir, mut db) = open_db();
    save(&mut db, "forge", "feat", &vec![thread("a", 10)]);
    submit(&mut db, None, &["a"]);
    reply(&mut db, "a", "one more thought");
    set_status(&mut db, "a", ReviewStatus::Resolved).expect("resolve");
    submit(&mut db, None, &["a"]);
    assert_eq!(
        status_of(&db, "a"),
        ReviewStatus::Resolved,
        "a resolve outranks the reopen nudge",
    );
}

#[test]
fn a_thread_filed_before_per_turn_membership_keeps_its_history() {
    let (_dir, mut db) = open_db();
    let comments = Value::Array(vec![
        object(vec![
            ("author", text("User")),
            ("text", text("why?")),
            ("at", text("2026-07-19T10:00:00Z")),
        ]),
        object(vec![
            ("author", object(vec![("Agent", object(vec![("label", text("implementer"))]))])),
            ("text", text("because")),
            ("at", text("2026-07-19T10:05:00Z")),
        ]),
    ]);
    let anchor = object(vec![
        ("path", text("src/x.rs")),
        ("side", text("New")),
        ("line", Value::from(10)),
        ("content_hash", Value::from(10)),
        ("context", Value::Array(vec![text("ctx")])),
        ("base_ref", text("main")),
    ]);
    let stored = Value::Array(vec![object(vec![
        ("id", text("a")),
        ("anchor", anchor),
        ("comments", comments),
        ("status", text("Addressed")),
        ("created_at", text("2026-07-19T10:00:00Z")),
        ("updated_at", text("2026-07-19T10:05:00Z")),
        ("review_id", text("review-1")),
    ])]);
    let bytes = serde_json::to_vec(&stored).expect("encode");
    db.put2(review::REVIEW_THREADS, "forge", "feat", &bytes).expect("insert");

    let loaded = load(&db, "forge", "feat").expect("load").remove(0);
    assert!(
        loaded.is_in_review(&"review-1".to_owned()),
        "the thread still belongs to its review",
    );
    assert_eq!(loaded.comments[0].review_id.as_deref(), Some("review-1"));
    assert_eq!(loaded.comments[1].review_id, None, "the agent reply gains no membership");
    assert!(!loaded.has_unfiled_user_turn(), "filed history does not read as pending work");
}

#[test]
fn an_upsert_keeps_when_a_thread_was_made() {
    let mut threads = vec![thread("a", 10)];
    let mut again = thread("a", 11);
    again.created_at = "later".to_owned();
    review::upsert_at(&mut threads, again, &"now".to_owned());
    assert_eq!(threads[0].created_at, "2026-07-19T10:00:00Z");
    assert_eq!(threads[0].updated_at, "now");
    let mut fresh = thread("b", 1);
    fresh.created_at = String::new();
    review::upsert_at(&mut threads, fresh, &"now".to_owned());
    assert_eq!(threads[1].created_at, "now");
}

#[test]
fn a_submitted_review_is_made_of_what_it_was_given() {
    let mut threads = vec![thread("a", 10)];
    let mut reviews = Vec::new();
    let (set, changed) = review::submit_review_as(
        &mut threads,
        &mut reviews,
        None,
        &vec!["a".to_owned()],
        &"r".to_owned(),
        &"t".to_owned(),
    );
    assert!(changed);
    assert_eq!(
        set,
        ReviewSet { id: "r".to_owned(), number: 1, summary: None, created_at: "t".to_owned() },
    );
    let (_, changed) = review::submit_review_as(
        &mut threads,
        &mut reviews,
        None,
        &vec!["a".to_owned()],
        &"s".to_owned(),
        &"t".to_owned(),
    );
    assert!(!changed, "submitting again files nothing");
    assert_eq!(threads[0].comments[0].review_id.as_deref(), Some("r"));
    assert_eq!(reviews.len(), 2);
}

#[test]
fn a_minted_review_has_an_id_and_a_time() {
    let mut threads = Vec::new();
    let mut reviews = Vec::new();
    let (set, changed) =
        review::submit_review(&mut threads, &mut reviews, None, &vec!["a".to_owned()]);
    assert!(!changed);
    let id = set.id.as_bytes();
    assert_eq!(id.len(), 36);
    assert_eq!((id[8], id[13], id[18], id[23]), (b'-', b'-', b'-', b'-'));
    assert_eq!(id[14], b'4');
    assert!(set.created_at.len() >= 20 && set.created_at.ends_with('Z'));
    assert!(set.created_at.as_str() > "2020");
}

#[test]
fn only_the_rows_of_the_project_name_its_branches() {
    let (_dir, mut db) = open_db();
    for (project, branch) in
        [("forge", "b"), ("forge", "a"), ("forg", "x"), ("forge\0", "y"), ("forge2", "z")]
    {
        save_reviews(&mut db, project, branch, &vec![review_set(1, None)]);
    }
    let forge = "forge".to_owned();
    assert_eq!(
        review::review_branches(&db, &forge),
        Ok(vec!["a".to_owned(), "b".to_owned()]),
        "neither a project before it nor one after it",
    );
    let rows = db.list2(review::REVIEWS).expect("list");
    assert_eq!(rows.len(), 5);
    assert_eq!(review::branches_of(&rows, &forge), vec!["a".to_owned(), "b".to_owned()]);
    assert_eq!(db.list2_of(review::REVIEWS, &forge).expect("range").len(), 2);
}
