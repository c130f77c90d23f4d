//! Sessions and the retired table of workers, in a real database.

use forge_workspace::store::dynamic_workers::{self, DynamicWorker};
use forge_workspace::store::rows::keep_decoded;
use forge_workspace::store::sessions::{
    self, ProjectIdentity, RowStart, SessionRecord, StoredSession, Sweep, SweepOutcome, SweepStep,
    WorkerRowIndex,
};
use forge_workspace::store::Db;
use serde_json::Value;
use tempfile::{tempdir, TempDir};

fn open_db() -> (TempDir, Db) {
    let dir = tempdir().expect("tempdir");
    let path = dir.path().join("db.redb");
    let db = Db::open(path.to_str().expect("utf-8 path")).expect("open db");
    (dir, db)
}

fn text_value(text: &Option<String>) -> Value {
    match text {
        Some(text) => Value::String(text.clone()),
        None => Value::Null,
    }
}

fn flag_value(flag: Option<bool>) -> Value {
    match flag {
        Some(flag) => Value::Bool(flag),
        None => Value::Null,
    }
}

fn text_field(object: &serde_json::Map<String, Value>, name: &str) -> Option<String> {
    object.get(name).and_then(Value::as_str).map(str::to_owned)
}

fn encode_record(record: &SessionRecord) -> Vec<u8> {
    let mut object = serde_json::Map::new();
    object.insert("org".to_owned(), Value::String(record.org.clone()));
    object.insert("project".to_owned(), Value::String(record.project.clone()));
    object.insert("label".to_owned(), Value::String(record.label.clone()));
    object.insert("session_id".to_owned(), text_value(&record.session_id));
    object.insert("charter".to_owned(), text_value(&record.charter));
    object.insert("kick".to_owned(), text_value(&record.kick));
    object.insert("resume_kick".to_owned(), text_value(&record.resume_kick));
    object.insert("interactive".to_owned(), flag_value(record.interactive));
    object.insert("is_git_repo".to_owned(), flag_value(record.is_git_repo));
    serde_json::to_vec(&Value::Object(object)).expect("serialize")
}

fn decode_record(bytes: &[u8]) -> Option<SessionRecord> {
    let value: Value = serde_json::from_slice(bytes).ok()?;
    let object = value.as_object()?;
    Some(SessionRecord {
        org: text_field(object, "org")?,
        project: text_field(object, "project")?,
        label: text_field(object, "label")?,
        session_id: text_field(object, "session_id"),
        charter: text_field(object, "charter"),
        kick: text_field(object, "kick"),
        resume_kick: text_field(object, "resume_kick"),
        interactive: object.get("interactive").and_then(Value::as_bool),
        is_git_repo: object.get("is_git_repo").and_then(Value::as_bool),
    })
}

fn decode_start(bytes: &[u8]) -> Option<RowStart> {
    let value: Value = serde_json::from_slice(bytes).ok()?;
    let object = value.as_object()?;
    Some(RowStart {
        session_id: text_field(object, "session_id"),
        is_git_repo: object.get("is_git_repo").and_then(Value::as_bool),
    })
}

fn encode_worker(worker: &DynamicWorker) -> Vec<u8> {
    let mut object = serde_json::Map::new();
    object.insert("project_key".to_owned(), Value::String(worker.project_key.clone()));
    object.insert("label".to_owned(), Value::String(worker.label.clone()));
    object.insert("charter".to_owned(), Value::String(worker.charter.clone()));
    object.insert("kick".to_owned(), text_value(&worker.kick));
    object.insert("resume_kick".to_owned(), text_value(&worker.resume_kick));
    object.insert("interactive".to_owned(), Value::Bool(worker.interactive));
    serde_json::to_vec(&Value::Object(object)).expect("serialize")
}

fn decode_worker(bytes: &[u8]) -> Option<DynamicWorker> {
    let value: Value = serde_json::from_slice(bytes).ok()?;
    let object = value.as_object()?;
    Some(DynamicWorker {
        project_key: text_field(object, "project_key")?,
        label: text_field(object, "label")?,
        charter: text_field(object, "charter")?,
        kick: text_field(object, "kick"),
        resume_kick: text_field(object, "resume_kick"),
        interactive: object.get("interactive").and_then(Value::as_bool).unwrap_or(false),
    })
}

fn put(db: &mut Db, record: &SessionRecord) {
    sessions::put(db, record, &encode_record(record)).expect("put");
}

fn get(db: &Db, org: &str, project: &str, label: &str) -> Option<SessionRecord> {
    let bytes = sessions::get(db, org, project, label).expect("get")?;
    Some(sessions::decode(decode_record(&bytes).expect("decode")))
}

fn list_all(db: &Db) -> Vec<SessionRecord> {
    let rows = sessions::rows(db).expect("rows");
    sessions::list_all(rows.iter().map(|row| decode_record(&row.3)).collect())
}

fn update(db: &mut Db, fields: &SessionRecord) -> bool {
    let row = get(db, &fields.org, &fields.project, &fields.label);
    match sessions::update(row, fields) {
        Some(written) => {
            put(db, &written);
            true
        }
        None => false,
    }
}

fn list_workers(db: &Db) -> Vec<DynamicWorker> {
    let rows = dynamic_workers::list_all(db).expect("list workers");
    keep_decoded(rows.iter().map(|row| decode_worker(&row.2)).collect())
}

fn stored(db: &Db) -> Vec<StoredSession> {
    let rows = sessions::rows(db).expect("rows");
    rows.into_iter()
        .map(|(org, project, label, bytes)| StoredSession {
            org,
            project,
            label,
            record: decode_record(&bytes).map(sessions::decode),
        })
        .collect()
}

fn migrate(db: &mut Db, projects: &Vec<ProjectIdentity>) -> SweepOutcome {
    let rows = dynamic_workers::count(db).expect("count");
    let workers = list_workers(db);
    let sweep = sessions::migrate_from_dynamic_workers(rows, &workers, projects, stored(db));
    for step in &sweep.steps {
        if let SweepStep::Move { record, project_key, label } = step {
            put(db, record);
            dynamic_workers::delete(db, project_key, label).expect("delete");
        }
    }
    sweep.outcome.expect("every row is readable")
}

fn seed_worker(db: &mut Db, worker: &DynamicWorker) {
    db.put2(
        dynamic_workers::DYNAMIC_WORKERS,
        &worker.project_key,
        &worker.label,
        &encode_worker(worker),
    )
    .expect("seed worker");
}

fn worker(project: &str, label: &str, interactive: bool) -> DynamicWorker {
    DynamicWorker {
        project_key: project.to_owned(),
        label: label.to_owned(),
        charter: format!("charter for {label}"),
        kick: Some(format!("kick for {label}")),
        resume_kick: Some(format!("resume kick for {label}")),
        interactive,
    }
}

fn project(key: &str, org: &str, name: &str) -> ProjectIdentity {
    ProjectIdentity { key: key.to_owned(), org: org.to_owned(), name: name.to_owned() }
}

fn record(org: &str, project: &str, label: &str, session_id: Option<&str>) -> SessionRecord {
    SessionRecord {
        org: org.to_owned(),
        project: project.to_owned(),
        label: label.to_owned(),
        session_id: session_id.map(str::to_owned),
        charter: None,
        kick: None,
        resume_kick: None,
        interactive: None,
        is_git_repo: None,
    }
}

fn record_fields(
    org: &str,
    project: &str,
    label: &str,
    session_id: Option<&str>,
    kick: Option<&str>,
) -> SessionRecord {
    let mut fields = record(org, project, label, session_id);
    fields.kick = kick.map(str::to_owned);
    fields
}

#[test]
fn the_first_open_copies_the_persisted_workers_over_once() {
    let (_dir, mut db) = open_db();
    seed_worker(&mut db, &worker("proj-a", "steward", true));
    seed_worker(&mut db, &worker("proj-a", "quartermaster", false));

    let projects = vec![project("proj-a", "Personal", "forge")];
    let outcome = migrate(&mut db, &projects);
    assert_eq!(outcome.moved, 2, "both persisted workers cross over");
    assert!(outcome.drained(), "and nothing is left in the retired table");

    let steward = get(&db, "Personal", "forge", "steward").expect("steward row");
    assert_eq!(
        steward,
        SessionRecord {
            org: "Personal".to_owned(),
            project: "forge".to_owned(),
            label: "steward".to_owned(),
            session_id: None,
            charter: Some("charter for steward".to_owned()),
            kick: Some("kick for steward".to_owned()),
            resume_kick: Some("resume kick for steward".to_owned()),
            interactive: Some(true),
            is_git_repo: None,
        },
        "the row carries the worker's fields and no id",
    );

    let second = migrate(&mut db, &projects);
    assert_eq!(second.moved, 0, "a second boot copies nothing");
    assert!(second.drained(), "and it is a clean drain");
    assert!(
        get(&db, "Personal", "forge", "quartermaster").is_some(),
        "and leaves the rows it copied where they were",
    );
}

#[test]
fn a_worker_whose_project_is_no_longer_configured_is_left_behind() {
    let (_dir, mut db) = open_db();
    seed_worker(&mut db, &worker("proj-gone", "steward", false));

    let outcome = migrate(&mut db, &vec![project("proj-a", "Personal", "forge")]);
    assert_eq!(outcome.moved, 0, "a worker with no configured project is not copied");
    assert_eq!(outcome.unkeyable, 1, "and it is counted as left behind rather than dropped");
    assert!(!outcome.drained(), "so the retired table is not safe to drop");
    assert!(get(&db, "Personal", "forge", "steward").is_none());
    assert_eq!(list_workers(&db).len(), 1, "its row is still where it was");
}

#[test]
fn a_row_without_an_id_and_one_with_it_both_round_trip() {
    let (_dir, mut db) = open_db();

    put(&mut db, &record("Personal", "forge", "lead", Some("id-1")));
    put(&mut db, &record("Personal", "forge", "steward", None));

    assert_eq!(
        get(&db, "Personal", "forge", "lead").and_then(|row| row.session_id),
        Some("id-1".to_owned()),
    );
    assert_eq!(get(&db, "Personal", "forge", "steward").map(|row| row.session_id), Some(None));
    assert_eq!(get(&db, "Personal", "forge", "ghost"), None);
}

#[test]
fn list_update_and_delete_are_scoped_to_the_row() {
    let (_dir, mut db) = open_db();
    let mut steward = record("Personal", "forge", "steward", Some("id-1"));
    steward.charter = Some("charter".to_owned());
    put(&mut db, &steward);
    put(&mut db, &record("Personal", "forge", "lead", Some("id-2")));
    put(&mut db, &record("Personal", "other", "steward", None));

    let of_forge = sessions::list_for_project(
        list_all(&db),
        &"Personal".to_owned(),
        &"forge".to_owned(),
    );
    assert_eq!(of_forge.len(), 2, "a project's rows are scoped by org and project");
    assert_eq!(list_all(&db).len(), 3, "and the whole table lists");

    assert!(
        update(&mut db, &record_fields("Personal", "forge", "steward", None, Some("new kick"))),
        "an existing row updates",
    );
    let updated = get(&db, "Personal", "forge", "steward").expect("row");
    assert_eq!(updated.kick.as_deref(), Some("new kick"), "the supplied field lands");
    assert_eq!(
        updated.session_id.as_deref(),
        Some("id-1"),
        "and an absent field keeps its stored value",
    );
    assert_eq!(updated.charter.as_deref(), Some("charter"), "including the charter");

    assert!(
        !update(&mut db, &record_fields("Personal", "forge", "ghost", None, Some("k"))),
        "an absent row is not created",
    );
    assert!(get(&db, "Personal", "forge", "ghost").is_none());

    assert!(sessions::delete(&mut db, "Personal", "forge", "steward").expect("delete"));
    assert!(get(&db, "Personal", "forge", "steward").is_none());
    assert!(
        !sessions::delete(&mut db, "Personal", "forge", "steward").expect("delete again"),
        "a second delete reports nothing removed",
    );
    assert!(
        get(&db, "Personal", "other", "steward").is_some(),
        "deleting one project's row leaves another's alone",
    );
}

#[test]
fn list_all_skips_an_undecodable_row() {
    let (_dir, mut db) = open_db();
    put(&mut db, &record("Personal", "forge", "lead", Some("id-1")));
    db.put3(sessions::SESSIONS, "Personal", "forge", "corrupt", &b"not a record".to_vec())
        .expect("plant the undecodable row");

    let rows = list_all(&db);
    assert_eq!(rows.len(), 1, "the good row survives a corrupt sibling");
    assert_eq!(rows[0].label, "lead");
}

#[test]
fn a_table_holding_an_undecodable_entry_is_never_reported_as_drained() {
    let (_dir, mut db) = open_db();
    seed_worker(&mut db, &worker("proj-a", "steward", false));
    db.put2(
        dynamic_workers::DYNAMIC_WORKERS,
        "proj-a",
        "unreadable",
        &b"not a worker".to_vec(),
    )
    .expect("plant a retired row that will not decode");

    let outcome = migrate(&mut db, &vec![project("proj-a", "Personal", "forge")]);
    assert_eq!(outcome.moved, 1, "the readable row crosses over");
    assert_eq!(outcome.rows, 2, "and the count is what the table holds, not what decoded");
    assert!(!outcome.drained(), "so the caller must not drop the table");
}

#[test]
fn worker_row_index_reports_labels_without_the_row_body() {
    let (_dir, mut db) = open_db();
    put(&mut db, &record("Personal", "forge", "lead", Some("id-1")));
    let mut listed = record("Personal", "forge", "worker", Some("id-2"));
    listed.is_git_repo = Some(true);
    put(&mut db, &listed);
    db.put3(sessions::SESSIONS, "Personal", "forge", "corrupt", &b"not a record".to_vec())
        .expect("plant the undecodable row");

    let stored = sessions::rows(&db).expect("rows");
    let starts: Vec<Option<RowStart>> = stored.iter().map(|row| decode_start(&row.3)).collect();
    let rows: Vec<WorkerRowIndex> = sessions::worker_row_index(&stored, &starts);
    let labels: Vec<&str> = rows.iter().map(|row| row.label.as_str()).collect();
    assert_eq!(
        labels,
        vec!["corrupt", "lead", "worker"],
        "every label survives, including the one whose body does not decode",
    );
    let worker = rows.iter().find(|row| row.label == "worker").expect("the worker row");
    assert_eq!(worker.session_id.as_deref(), Some("id-2"), "the stored id is projected");
    assert_eq!(worker.is_git_repo, Some(true), "and so is the gitness");
    let corrupt = rows.iter().find(|row| row.label == "corrupt").expect("the corrupt row");
    assert_eq!(
        (corrupt.session_id.as_deref(), corrupt.is_git_repo),
        (None, None),
        "an unreadable body reads as unknown",
    );
}

#[test]
fn an_empty_session_id_is_absent() {
    let (_dir, mut db) = open_db();
    put(&mut db, &record("Personal", "forge", "lead", Some("")));
    assert_eq!(get(&db, "Personal", "forge", "lead").and_then(|row| row.session_id), None);
}

#[test]
fn an_empty_session_id_is_absent_from_the_index_too() {
    let rows = vec![("o".to_owned(), "p".to_owned(), "l".to_owned(), Vec::new())];
    let starts = vec![Some(RowStart { session_id: Some(String::new()), is_git_repo: None })];
    let index = sessions::worker_row_index(&rows, &starts);
    assert_eq!(index[0].session_id, None);
}

#[test]
fn a_row_written_before_interactive_existed_still_sweeps() {
    let (_dir, mut db) = open_db();
    let mut held = record("Personal", "forge", "steward", Some("id-9"));
    held.kick = Some("stored kick".to_owned());
    put(&mut db, &held);
    let mut retired = worker("proj-a", "steward", true);
    retired.kick = None;
    seed_worker(&mut db, &retired);

    let outcome = migrate(&mut db, &vec![project("proj-a", "Personal", "forge")]);
    assert_eq!((outcome.moved, outcome.unkeyable, outcome.rows), (1, 0, 1));
    let merged = get(&db, "Personal", "forge", "steward").expect("row");
    assert_eq!(merged.session_id.as_deref(), Some("id-9"), "the occupant stays");
    assert_eq!(merged.kick.as_deref(), Some("stored kick"), "an absent field stays as it was");
    assert_eq!(merged.charter.as_deref(), Some("charter for steward"));
    assert_eq!(merged.interactive, Some(true));
}

#[test]
fn a_session_row_that_cannot_be_read_stops_the_sweep() {
    let workers =
        vec![worker("gone", "a", false), worker("proj-a", "b", false), worker("proj-a", "c", false)];
    let projects = vec![project("proj-a", "Personal", "forge")];
    let stored = vec![StoredSession {
        org: "Personal".to_owned(),
        project: "forge".to_owned(),
        label: "b".to_owned(),
        record: None,
    }];
    let sweep: Sweep = sessions::migrate_from_dynamic_workers(3, &workers, &projects, stored);
    assert_eq!(
        sweep.steps,
        vec![SweepStep::Leave { project_key: "gone".to_owned(), label: "a".to_owned() }],
    );
    assert_eq!(sweep.outcome, None);
}

#[test]
fn merging_twice_is_merging_once() {
    let row = record("o", "p", "l", Some("id"));
    let fields = record_fields("o", "p", "l", None, Some("kick"));
    let once = sessions::update(Some(row), &fields).expect("a row");
    let twice = sessions::update(Some(once.clone()), &fields).expect("a row");
    assert_eq!(once, twice);
    assert_eq!(sessions::update(None, &fields), None);
}

#[test]
fn row_written_before_interactive_existed_loads_as_not_interactive() {
    let (_dir, mut db) = open_db();

    let mut object = serde_json::Map::new();
    object.insert("project_key".to_owned(), Value::String("proj-a".to_owned()));
    object.insert("label".to_owned(), Value::String("steward".to_owned()));
    object.insert("charter".to_owned(), Value::String("mind the queues".to_owned()));
    object.insert("kick".to_owned(), Value::String("begin".to_owned()));
    object.insert("resume_kick".to_owned(), Value::String("re-read the notes".to_owned()));
    let value = serde_json::to_vec(&Value::Object(object)).expect("serialize old row");
    db.put2(dynamic_workers::DYNAMIC_WORKERS, "proj-a", "steward", &value)
        .expect("insert old row");

    let loaded = list_workers(&db);
    assert_eq!(loaded.len(), 1, "a row written before `interactive` existed still decodes");
    assert_eq!(
        loaded[0],
        DynamicWorker {
            project_key: "proj-a".to_owned(),
            label: "steward".to_owned(),
            charter: "mind the queues".to_owned(),
            kick: Some("begin".to_owned()),
            resume_kick: Some("re-read the notes".to_owned()),
            interactive: false,
        },
        "every prior field survives and an absent `interactive` reads as not-interactive",
    );
}

#[test]
fn list_all_round_trips_and_skips_a_corrupt_row() {
    let (_dir, mut db) = open_db();
    seed_worker(&mut db, &worker("proj-a", "examiner", false));
    seed_worker(&mut db, &worker("proj-b", "tester", false));
    db.put2(
        dynamic_workers::DYNAMIC_WORKERS,
        "proj-a",
        "corrupt",
        &b"not a worker".to_vec(),
    )
    .expect("insert corrupt");

    let all = list_workers(&db);
    assert_eq!(all.len(), 2, "the good records survive a corrupt sibling");
    assert_eq!(
        all[1].resume_kick.as_deref(),
        Some("resume kick for tester"),
        "the record round-trips through redb",
    );
}

#[test]
fn dynamic_workers_drop_table_reports_whether_the_table_was_there() {
    let (_dir, mut db) = open_db();
    assert!(
        !dynamic_workers::drop_table(&mut db).expect("drop an absent table"),
        "a store that never had the table drops nothing",
    );

    seed_worker(&mut db, &worker("proj-a", "examiner", false));
    assert!(
        dynamic_workers::drop_table(&mut db).expect("drop the table"),
        "a planted table drops to true",
    );
    assert!(list_workers(&db).is_empty(), "and its rows are gone");
    assert!(db.compact().is_ok());
}

#[test]
fn deleting_a_retired_row_reports_whether_there_was_one() {
    let (_dir, mut db) = open_db();
    assert_eq!(dynamic_workers::delete(&mut db, "proj-a", "x"), Ok(false));
    seed_worker(&mut db, &worker("proj-a", "x", false));
    seed_worker(&mut db, &worker("proj-a", "y", false));
    assert_eq!(dynamic_workers::count(&db), Ok(2));
    assert_eq!(dynamic_workers::delete(&mut db, "proj-a", "x"), Ok(true));
    assert_eq!(dynamic_workers::count(&db), Ok(1));
}

#[test]
fn compacting_keeps_the_rows() {
    let (_dir, mut db) = open_db();
    put(&mut db, &record("o", "p", "lead", Some("id-1")));
    db.compact().expect("compact");
    assert_eq!(get(&db, "o", "p", "lead").and_then(|row| row.session_id), Some("id-1".to_owned()));
}

#[test]
fn a_database_that_is_held_is_not_opened_twice() {
    let dir = tempdir().expect("tempdir");
    let path = dir.path().join("db.redb");
    let path = path.to_str().expect("utf-8 path");
    let held = Db::open(path).expect("open db");
    match Db::open(path) {
        Ok(_) => panic!("the file is held"),
        Err(error) => {
            assert_eq!(error.context, Some(format!("open redb database at {path}")));
            assert_eq!(error.message, "Database already open. Cannot acquire lock.");
        }
    }
    drop(held);
    assert!(Db::open(path).is_ok(), "once it is let go it opens again");
}
