//! The other tables, in a real database.

use forge_workspace::order::TextMap;
use forge_workspace::protocol::Timestamp;
use forge_workspace::store::cron::{self, SeedOutcome};
use forge_workspace::store::db::{tell, tell_words};
use forge_workspace::store::pricing::CachedPricing;
use forge_workspace::store::plugins::{self, EncodedUpdate};
use forge_workspace::store::rows::{keep_decoded, keep_decoded_by_key};
use forge_workspace::store::{gotify, model_catalog, pricing, session_tags, slack, state};
use forge_workspace::store::{Db, StoreError};
use serde_json::Value;
use std::path::Path;
use tempfile::{tempdir, TempDir};

fn open_at(path: &Path) -> Db {
    Db::open(path.to_str().expect("utf-8 path")).expect("open db")
}

fn open_db() -> (TempDir, Db) {
    let dir = tempdir().expect("tempdir");
    let db = open_at(&dir.path().join("db.redb"));
    (dir, db)
}

fn object(fields: &[(&str, Value)]) -> Vec<u8> {
    let mut object = serde_json::Map::new();
    for (name, value) in fields {
        object.insert((*name).to_owned(), value.clone());
    }
    serde_json::to_vec(&Value::Object(object)).expect("serialize")
}

fn field(bytes: &[u8], name: &str) -> Option<Value> {
    let value: Value = serde_json::from_slice(bytes).ok()?;
    value.as_object()?.get(name).cloned()
}

fn text_field(bytes: &[u8], name: &str) -> Option<String> {
    field(bytes, name)?.as_str().map(str::to_owned)
}

#[derive(Debug, Clone, PartialEq)]
struct CronEntry {
    id: String,
    project_name: String,
    schedule: String,
    prompt: String,
    created_at: u64,
    next_fire: u64,
}

fn cron_entry(id: &str) -> CronEntry {
    CronEntry {
        id: id.to_owned(),
        project_name: "forge".to_owned(),
        schedule: "0 9 * * *".to_owned(),
        prompt: "stand-up".to_owned(),
        created_at: 1_700_000_000,
        next_fire: 1_700_032_400,
    }
}

fn cron_row(id: &str) -> (String, Vec<u8>) {
    let entry = cron_entry(id);
    let bytes = object(&[
        ("id", Value::String(entry.id.clone())),
        ("project_name", Value::String(entry.project_name)),
        ("schedule", Value::String(entry.schedule)),
        ("prompt", Value::String(entry.prompt)),
        ("created_at", Value::from(entry.created_at)),
        ("next_fire", Value::from(entry.next_fire)),
    ]);
    (entry.id, bytes)
}

fn decode_cron(bytes: &[u8]) -> Option<CronEntry> {
    Some(CronEntry {
        id: text_field(bytes, "id")?,
        project_name: text_field(bytes, "project_name")?,
        schedule: text_field(bytes, "schedule")?,
        prompt: text_field(bytes, "prompt")?,
        created_at: field(bytes, "created_at")?.as_u64()?,
        next_fire: field(bytes, "next_fire")?.as_u64()?,
    })
}

fn insert_cron(db: &mut Db, id: &str) {
    let (id, bytes) = cron_row(id);
    cron::insert(db, &id, &bytes).expect("insert");
}

fn crons(db: &Db) -> Vec<CronEntry> {
    let rows = cron::list(db).expect("list");
    keep_decoded(rows.iter().map(|row| decode_cron(&row.1)).collect())
}

fn seed(db: &mut Db, existing: &[&str]) -> (SeedOutcome, Vec<CronEntry>) {
    let rows: Vec<(String, Vec<u8>)> = existing.iter().map(|id| cron_row(id)).collect();
    let seeding = cron::seed_crons_from_toml_once(db, &rows);
    assert!(seeding.marker.is_ok() && seeding.listed, "the store answers");
    (seeding.outcome, keep_decoded(seeding.crons.iter().map(|row| decode_cron(&row.1)).collect()))
}

#[test]
fn cron_store_round_trip() {
    let (_dir, mut db) = open_db();

    insert_cron(&mut db, "c1");
    insert_cron(&mut db, "c2");

    let all = crons(&db);
    assert_eq!(all.len(), 2);
    assert!(all.iter().any(|c| c.id == "c1") && all.iter().any(|c| c.id == "c2"));

    let c1 = "c1".to_owned();
    assert!(cron::remove(&mut db, &c1).expect("remove"), "an existing id removes to true");
    assert!(!cron::remove(&mut db, &c1).expect("remove again"), "an absent id removes to false");
    assert_eq!(crons(&db).len(), 1);
}

#[test]
fn replace_all_clears_then_inserts() {
    let (_dir, mut db) = open_db();

    insert_cron(&mut db, "old-1");
    insert_cron(&mut db, "old-2");

    cron::replace_all(&mut db, &vec![cron_row("old-1"), cron_row("new-3")]).expect("replace");
    let all = crons(&db);
    assert_eq!(all.len(), 2, "replace mirrors exactly the new set");
    assert!(all.iter().any(|c| c.id == "old-1"));
    assert!(all.iter().any(|c| c.id == "new-3"));
    assert!(!all.iter().any(|c| c.id == "old-2"), "the dropped id is gone");

    cron::replace_all(&mut db, &Vec::new()).expect("replace with empty");
    assert!(crons(&db).is_empty(), "an empty replace clears the table");
}

#[test]
fn cron_survives_db_reopen() {
    let dir = tempdir().expect("tempdir");
    let path = dir.path().join("db.redb");
    {
        let mut db = open_at(&path);
        insert_cron(&mut db, "persist-me");
    }
    let db = open_at(&path);
    assert_eq!(
        crons(&db),
        vec![cron_entry("persist-me")],
        "a durable cron survives a restart intact",
    );
}

#[test]
fn cron_corrupt_record_is_skipped_not_fatal() {
    let (_dir, mut db) = open_db();

    insert_cron(&mut db, "good");
    cron::insert(&mut db, &"corrupt".to_owned(), &b"not a cron".to_vec()).expect("insert corrupt");

    let all = crons(&db);
    assert_eq!(all.len(), 1, "the good record survives a corrupt sibling");
    assert_eq!(all[0].id, "good");
}

#[test]
fn seed_marker_prevents_reseed_after_deletion() {
    let (_dir, mut db) = open_db();

    assert_eq!(seed(&mut db, &["c1", "c2"]).1.len(), 2, "first run seeds both");

    cron::replace_all(&mut db, &Vec::new()).expect("clear");

    let (outcome, after) = seed(&mut db, &["c1", "c2"]);
    assert!(after.is_empty(), "the marker prevents re-seeding deleted crons from a stale toml");
    assert_eq!(outcome, SeedOutcome::Skipped);
}

#[test]
fn what_the_store_answers_decides_the_seeding() {
    let failed = || StoreError { context: None, message: "disk".to_owned() };
    let file = vec![cron_row("c1")];
    assert!(cron::seeds(&Ok(false), &file));
    assert!(cron::seeds(&Err(failed()), &file), "a mark that cannot be read is none");
    assert!(!cron::seeds(&Ok(true), &file));
    assert!(!cron::seeds(&Ok(false), &Vec::new()));

    assert_eq!(cron::seed_outcome(false, Ok(()), Ok(())), SeedOutcome::Skipped);
    assert_eq!(cron::seed_outcome(true, Ok(()), Ok(())), SeedOutcome::Seeded);
    assert_eq!(
        cron::seed_outcome(true, Ok(()), Err(failed())),
        SeedOutcome::Unmarked { error: failed() },
    );
    assert_eq!(
        cron::seed_outcome(true, Err(failed()), Ok(())),
        SeedOutcome::Failed { error: failed() },
    );

    assert_eq!(cron::listed_or_none(Ok(file.clone())), file);
    assert!(cron::listed_or_none(Err(failed())).is_empty());
}

#[test]
fn seed_from_toml_sets_the_marker_and_returns_the_crons() {
    let (_dir, mut db) = open_db();

    assert!(!cron::seeded(&db).expect("seeded query"), "unseeded before the first run");

    let (outcome, loaded) = seed(&mut db, &["c1", "c2"]);
    assert_eq!(loaded.len(), 2, "both crons seed into the store");
    assert_eq!(outcome, SeedOutcome::Seeded);
    assert!(cron::seeded(&db).expect("seeded query"), "the marker is set after seeding");
}

#[test]
fn seed_ignores_later_toml_growth() {
    let (_dir, mut db) = open_db();

    assert_eq!(seed(&mut db, &["c1", "c2"]).1.len(), 2);

    let (_, after) = seed(&mut db, &["c1", "c2", "c3"]);
    assert_eq!(after.len(), 2, "a post-seed cron.toml edit does not re-seed");
    assert!(!after.iter().any(|c| c.id == "c3"));
}

#[test]
fn seed_with_no_toml_is_empty_and_leaves_marker_unset() {
    let (_dir, mut db) = open_db();

    let (_, loaded) = seed(&mut db, &[]);
    assert!(loaded.is_empty(), "a missing cron.toml seeds nothing, no panic");
    assert!(
        !cron::seeded(&db).expect("seeded query"),
        "an empty cron.toml leaves the marker unset so a later synced file can still seed",
    );
}

#[test]
fn marking_the_seed_is_remembered() {
    let (_dir, mut db) = open_db();
    cron::mark_seeded(&mut db).expect("mark");
    assert_eq!(cron::seeded(&db), Ok(true));
    assert!(crons(&db).is_empty(), "the mark is no cron");
}

fn id(n: u8) -> [u8; 16] {
    let mut bytes = [n; 16];
    bytes[15] = 7;
    bytes
}

fn gotify_sub(project: &str, team_role: Option<&str>) -> Vec<u8> {
    let role = match team_role {
        Some(role) => Value::String(role.to_owned()),
        None => Value::Null,
    };
    object(&[("project", Value::String(project.to_owned())), ("team_role", role)])
}

#[test]
fn gotify_subscription_store_round_trip() {
    let (_dir, mut db) = open_db();

    gotify::insert(&mut db, &id(1), &gotify_sub("p1", None)).expect("insert s1");
    gotify::insert(&mut db, &id(2), &gotify_sub("p2", None)).expect("insert s2");

    let all = gotify::list(&db).expect("list");
    assert_eq!(all.len(), 2);
    assert!(all.iter().any(|s| s.0 == id(1)) && all.iter().any(|s| s.0 == id(2)));

    assert!(gotify::remove(&mut db, &id(1)).expect("remove"), "an existing id removes to true");
    assert!(
        !gotify::remove(&mut db, &id(1)).expect("remove again"),
        "an absent id removes to false",
    );
    assert_eq!(gotify::list(&db).expect("list").len(), 1);
}

#[test]
fn dynamic_worker_subscription_survives_db_reopen() {
    let dir = tempdir().expect("tempdir");
    let path = dir.path().join("db.redb");
    {
        let mut db = open_at(&path);
        gotify::insert(&mut db, &id(3), &gotify_sub("forge", Some("scratch"))).expect("insert");
    }

    let db = open_at(&path);
    let restored = gotify::list(&db).expect("list after reopen");
    assert_eq!(restored.len(), 1);
    assert_eq!(restored[0].0, id(3));
    assert_eq!(
        text_field(&restored[0].1, "team_role").as_deref(),
        Some("scratch"),
        "a dynamic worker's durable sub survives a restart with its label intact",
    );
}

#[test]
fn gotify_corrupt_record_is_skipped_not_fatal() {
    let (_dir, mut db) = open_db();

    gotify::insert(&mut db, &id(1), &gotify_sub("p1", None)).expect("insert good");
    gotify::insert(&mut db, &[0u8; 16], &b"not a subscription".to_vec()).expect("insert corrupt");

    let rows = gotify::list(&db).expect("list tolerates the corrupt blob");
    let all: Vec<([u8; 16], String)> = keep_decoded(
        rows.iter().map(|row| text_field(&row.1, "project").map(|p| (row.0, p))).collect(),
    );
    assert_eq!(all.len(), 1, "the good record survives a corrupt sibling");
    assert_eq!(all[0].0, id(1));
}

#[test]
fn model_catalog_drop_table_reports_whether_the_table_was_there() {
    let (_dir, mut db) = open_db();
    assert!(
        !model_catalog::drop_table(&mut db).expect("drop an absent table"),
        "a store that never cached a catalog drops nothing",
    );

    db.put1(
        model_catalog::MODEL_CATALOG,
        &vec![("https://openrouter.ai/api/v1".to_owned(), b"cached".to_vec())],
    )
    .expect("insert a cached catalog");

    assert!(
        model_catalog::drop_table(&mut db).expect("drop the table"),
        "a planted table drops to true",
    );
    assert!(
        !model_catalog::drop_table(&mut db).expect("drop again"),
        "the table is gone rather than emptied",
    );
}

fn update(plugin_id: &str, to_version: &str) -> EncodedUpdate {
    EncodedUpdate {
        plugin_id: plugin_id.to_owned(),
        scope: "user".to_owned(),
        encoded: object(&[
            ("plugin_id", Value::String(plugin_id.to_owned())),
            ("marketplace", Value::String("probe-market".to_owned())),
            ("to_version", Value::String(to_version.to_owned())),
        ]),
    }
}

fn updates(db: &Db) -> TextMap<(String, String)> {
    let rows = plugins::update_records(db).expect("read");
    keep_decoded_by_key(
        rows.into_iter()
            .map(|(key, bytes)| {
                let version = text_field(&bytes, "to_version");
                let market = text_field(&bytes, "marketplace");
                (key, version.zip(market))
            })
            .collect(),
    )
}

#[test]
fn records_round_trip_and_replace_by_key() {
    let (_dir, mut db) = open_db();

    plugins::record_updates(&mut db, &vec![update("hello@probe-market", "0.2.0")]).expect("write");
    plugins::record_updates(&mut db, &vec![update("pensive@night-market", "1.7.3")])
        .expect("write");
    plugins::record_updates(&mut db, &vec![update("hello@probe-market", "0.3.0")])
        .expect("overwrite");

    let records = updates(&db);
    assert_eq!(records.entries.len(), 2, "one row per installed entry");
    let hello = records.get(&"hello@probe-market|user".to_owned()).expect("hello");
    assert_eq!(hello.0, "0.3.0");
    assert_eq!(hello.1, "probe-market");
}

#[test]
fn records_survive_db_reopen() {
    let dir = tempdir().expect("tempdir");
    let path = dir.path().join("db.redb");
    {
        let mut db = open_at(&path);
        plugins::record_updates(&mut db, &vec![update("hello@probe-market", "0.2.0")])
            .expect("write");
    }
    let reopened = open_at(&path);
    assert_eq!(updates(&reopened).entries.len(), 1);
}

#[test]
fn an_empty_store_reads_as_no_records() {
    let (_dir, db) = open_db();
    assert!(updates(&db).entries.is_empty());
}

#[test]
fn clear_removes_only_the_target_record() {
    let (_dir, mut db) = open_db();
    plugins::record_updates(
        &mut db,
        &vec![update("hello@probe-market", "0.2.0"), update("pensive@night-market", "1.7.3")],
    )
    .expect("write");

    plugins::clear_update_record(&mut db, "hello@probe-market", "user").expect("clear");

    let records = updates(&db);
    assert_eq!(records.entries.len(), 1, "only the rolled-back entry is forgotten");
    assert!(records.contains_key(&"pensive@night-market|user".to_owned()));
}

#[test]
fn a_plugin_record_that_cannot_be_read_is_left_out() {
    let (_dir, mut db) = open_db();
    plugins::record_updates(&mut db, &vec![update("hello@probe-market", "0.2.0")]).expect("write");
    db.put1(plugins::PLUGIN_UPDATES, &vec![("corrupt|user".to_owned(), b"no record".to_vec())])
        .expect("plant");
    let records = updates(&db);
    assert_eq!(records.keys(), vec!["hello@probe-market|user".to_owned()]);
    assert_eq!(plugins::record_key("a", "b"), "a|b");
}

fn pricing_row(fetched_at: u64, json: &str) -> Vec<u8> {
    object(&[("fetched_at", Value::from(fetched_at)), ("json", Value::String(json.to_owned()))])
}

#[test]
fn load_is_none_before_any_fetch() {
    let (_dir, db) = open_db();
    assert!(pricing::load(&db).expect("load").is_none());
}

#[test]
fn store_then_load_round_trips_and_overwrites() {
    let (_dir, mut db) = open_db();
    let first = pricing_row(1_700_000_000, r#"{"m":{}}"#);
    pricing::store(&mut db, first.clone()).expect("store");
    assert_eq!(pricing::load(&db).expect("load"), Some(first));

    pricing::store(&mut db, pricing_row(1_800_000_000, r#"{"n":{}}"#)).expect("store again");
    let loaded = pricing::load(&db).expect("load").expect("present");
    assert_eq!(text_field(&loaded, "json").as_deref(), Some(r#"{"n":{}}"#));
}

fn cached_pricing(db: &Db) -> Result<Option<CachedPricing>, StoreError> {
    let row = pricing::load(db)?.map(|bytes| {
        let value: Value = serde_json::from_slice(&bytes).map_err(|error| error.to_string())?;
        let fetched_at = value.get("fetched_at").and_then(Value::as_u64).ok_or("no fetched_at")?;
        let json = value.get("json").and_then(Value::as_str).ok_or("no json")?;
        Ok(CachedPricing {
            fetched_at: Timestamp { secs: fetched_at, nanos: 0 },
            json: json.to_owned(),
        })
    });
    pricing::read(row)
}

#[test]
fn load_surfaces_a_corrupt_blob_as_error() {
    let (_dir, mut db) = open_db();
    assert_eq!(cached_pricing(&db), Ok(None));
    pricing::store(&mut db, pricing_row(1_700_000_000, r#"{"m":{}}"#)).expect("store");
    assert!(matches!(cached_pricing(&db), Ok(Some(cached)) if cached.json == r#"{"m":{}}"#));

    db.put1(pricing::PRICING_CACHE, &vec![(pricing::KEY.to_owned(), b"not json".to_vec())])
        .expect("insert corrupt");
    let error = cached_pricing(&db).expect_err("a corrupt blob is an error");
    assert_eq!(error.context.as_deref(), Some("decode cached pricing"));
}

#[test]
fn a_stored_scan_round_trips() {
    let (_dir, mut db) = open_db();

    assert!(session_tags::load_all(&db).expect("load").is_empty(), "a fresh database caches nothing");

    let scan =
        object(&[("tag", Value::String("forge:worker:x".to_owned())), ("scanned_len", Value::from(4096))]);
    session_tags::store_all(&mut db, &vec![("/p/a.jsonl".to_owned(), scan.clone())]).expect("store");

    let loaded = session_tags::load_all(&db).expect("load");
    assert_eq!(loaded, vec![("/p/a.jsonl".to_owned(), scan)], "both halves must survive");
}

#[test]
fn prune_drops_rows_of_missing_transcripts_only() {
    let (dir, mut db) = open_db();
    let live = dir.path().join("live.jsonl").to_string_lossy().into_owned();
    let scan = object(&[("tag", Value::Null), ("scanned_len", Value::from(3))]);
    session_tags::store_all(
        &mut db,
        &vec![(live.clone(), scan.clone()), ("/p/deleted.jsonl".to_owned(), scan)],
    )
    .expect("store");

    let scans = vec![(live.clone(), true), ("/p/deleted.jsonl".to_owned(), false)];
    let pruned = session_tags::prune_missing(&mut db, &scans).expect("prune");
    assert_eq!(pruned, 1, "only the missing transcript's row goes");
    let loaded = session_tags::load_all(&db).expect("load");
    assert_eq!(loaded.len(), 1, "the live transcript's row survives");
    assert_eq!(loaded[0].0, live);
    assert_eq!(session_tags::prune_missing(&mut db, &vec![(live, true)]), Ok(0));
}

#[test]
fn storing_no_scan_makes_no_table() {
    let (_dir, mut db) = open_db();
    session_tags::store_all(&mut db, &Vec::new()).expect("store nothing");
    assert_eq!(db.drop_table(session_tags::SESSION_TAGS), Ok(false));
}

fn slack_sub(project: &str, target: &str, team_role: Option<&str>) -> Vec<u8> {
    let role = match team_role {
        Some(role) => Value::String(role.to_owned()),
        None => Value::Null,
    };
    object(&[
        ("workspace", Value::String("acme".to_owned())),
        ("project", Value::String(project.to_owned())),
        ("target", Value::String(target.to_owned())),
        ("team_role", role),
    ])
}

#[test]
fn slack_subscription_store_round_trip() {
    let (_dir, mut db) = open_db();

    slack::insert(&mut db, &id(1), &slack_sub("p1", "dm", None)).expect("insert s1");
    slack::insert(&mut db, &id(2), &slack_sub("p2", "dm", None)).expect("insert s2");
    assert_eq!(slack::list(&db).expect("list").len(), 2);

    assert!(slack::remove(&mut db, &id(1)).expect("remove"));
    let left = slack::list(&db).expect("list");
    assert_eq!(left.len(), 1);
    assert_eq!(left[0].0, id(2));
}

#[test]
fn an_absent_table_reads_as_empty_rather_than_erroring() {
    let (_dir, db) = open_db();
    assert!(slack::list(&db).expect("a fresh database has no table yet").is_empty());
}

#[test]
fn a_record_round_trips_with_the_mention_target() {
    let (_dir, mut db) = open_db();
    slack::insert(&mut db, &id(1), &slack_sub("p1", "mentions", None)).expect("insert");
    let back = slack::list(&db).expect("list");
    assert_eq!(text_field(&back[0].1, "target").as_deref(), Some("mentions"));
}

#[test]
fn a_conversation_subscription_keeps_its_mode() {
    let (_dir, mut db) = open_db();
    slack::insert(&mut db, &id(1), &slack_sub("p1", "C1/mentions_only", Some("tester")))
        .expect("insert");
    let back = slack::list(&db).expect("list");
    assert_eq!(text_field(&back[0].1, "target").as_deref(), Some("C1/mentions_only"));
    assert_eq!(text_field(&back[0].1, "team_role").as_deref(), Some("tester"));
}

#[test]
fn the_two_subscription_tables_are_kept_apart() {
    let (_dir, mut db) = open_db();
    slack::insert(&mut db, &id(1), &slack_sub("p1", "dm", None)).expect("insert");
    assert!(gotify::list(&db).expect("list").is_empty());
    assert_eq!(gotify::remove(&mut db, &id(1)), Ok(false));
    assert_eq!(slack::list(&db).expect("list").len(), 1);
}

#[test]
fn a_watermark_round_trips_as_the_string_slack_sent() {
    let (_dir, mut db) = open_db();

    let ts = "1700000000.000100";
    slack::set_watermark(&mut db, "acme", "C1", ts).expect("set");
    assert_eq!(
        slack::watermark(&db, "acme", "C1").expect("get"),
        Some(ts.to_owned()),
        "the ts must survive verbatim, never as a number",
    );
}

#[test]
fn an_unset_watermark_reads_as_none() {
    let (_dir, db) = open_db();
    assert_eq!(
        slack::watermark(&db, "acme", "C1").expect("a fresh database has no table yet"),
        None,
        "a conversation never swept has no cursor, which is not an error",
    );
}

#[test]
fn a_watermark_is_scoped_to_its_workspace_and_conversation() {
    let (_dir, mut db) = open_db();

    slack::set_watermark(&mut db, "acme", "C1", "100.000001").expect("set acme/C1");
    slack::set_watermark(&mut db, "acme", "C2", "200.000002").expect("set acme/C2");
    slack::set_watermark(&mut db, "beta", "C1", "300.000003").expect("set beta/C1");

    let get = |workspace: &str, conversation: &str| {
        slack::watermark(&db, workspace, conversation).expect("get")
    };
    assert_eq!(get("acme", "C1"), Some("100.000001".to_owned()));
    assert_eq!(get("acme", "C2"), Some("200.000002".to_owned()));
    assert_eq!(
        get("beta", "C1"),
        Some("300.000003".to_owned()),
        "the same conversation id in another workspace keeps its own cursor",
    );
    assert_eq!(get("beta", "C2"), None);
    assert_eq!(slack::watermark_key("acme", "C1"), "acme\u{0}C1");
}

fn spinner(db: &Db) -> Option<String> {
    state::read_spinner(state::spinner(db).expect("read").map(|bytes| decode_style(&bytes)))
}

fn decode_style(bytes: &[u8]) -> Option<String> {
    let style: Value = serde_json::from_slice(bytes).ok()?;
    style.as_str().filter(|name| ["ember", "star"].contains(name)).map(str::to_owned)
}

fn style(name: &str) -> Option<Vec<u8>> {
    Some(serde_json::to_vec(&Value::String(name.to_owned())).expect("serialize"))
}

fn usage_rows(pairs: &[(&str, f64)]) -> Vec<(String, Vec<u8>)> {
    pairs
        .iter()
        .map(|(name, utilization)| {
            ((*name).to_owned(), object(&[("utilization", Value::from(*utilization))]))
        })
        .collect()
}

fn usage(db: &Db) -> TextMap<f64> {
    let rows = state::account_usage(db).expect("read");
    keep_decoded_by_key(
        rows.into_iter()
            .map(|(name, bytes)| {
                let utilization = field(&bytes, "utilization").and_then(|u| u.as_f64());
                (name, utilization)
            })
            .collect(),
    )
}

#[test]
fn spinner_round_trips_and_clears() {
    let (_dir, mut db) = open_db();

    assert_eq!(spinner(&db), None, "a fresh store has no override");

    state::set_spinner(&mut db, style("ember")).expect("set");
    assert_eq!(spinner(&db).as_deref(), Some("ember"), "the override round-trips");

    state::set_spinner(&mut db, None).expect("clear");
    assert_eq!(spinner(&db), None, "None clears the override");
}

#[test]
fn account_usage_replace_mirrors_the_map() {
    let (_dir, mut db) = open_db();

    state::replace_account_usage(&mut db, &usage_rows(&[("Granite", 42.0), ("Subspace", 10.0)]))
        .expect("first write");
    let loaded = usage(&db);
    assert_eq!(loaded.entries.len(), 2);
    assert_eq!(loaded.get(&"Granite".to_owned()), Some(&42.0));

    state::replace_account_usage(&mut db, &usage_rows(&[("Granite", 99.0)])).expect("second write");
    let loaded = usage(&db);
    assert_eq!(loaded.entries.len(), 1, "replace mirrors exactly the new map");
    assert!(!loaded.contains_key(&"Subspace".to_owned()), "the dropped account is gone");
    assert_eq!(
        loaded.get(&"Granite".to_owned()),
        Some(&99.0),
        "the surviving account's snapshot is the new value",
    );
}

#[test]
fn corrupt_account_usage_record_is_skipped_not_fatal() {
    let (_dir, mut db) = open_db();

    state::replace_account_usage(&mut db, &usage_rows(&[("Granite", 42.0)])).expect("write good");
    db.put1(state::ACCOUNT_USAGE, &vec![("corrupt".to_owned(), b"not usage".to_vec())])
        .expect("insert corrupt");

    let loaded = usage(&db);
    assert_eq!(loaded.entries.len(), 1, "the good record survives a corrupt sibling");
    assert!(loaded.contains_key(&"Granite".to_owned()));
}

#[test]
fn undecodable_spinner_resolves_to_none() {
    let (_dir, mut db) = open_db();

    db.put1(state::SETTINGS, &vec![("spinner".to_owned(), b"\"forge_dot\"".to_vec())])
        .expect("insert bogus");

    assert_eq!(spinner(&db), None, "an undecodable spinner falls back to None, not an error");
}

#[test]
fn state_survives_db_reopen() {
    let dir = tempdir().expect("tempdir");
    let path = dir.path().join("db.redb");
    {
        let mut db = open_at(&path);
        state::set_spinner(&mut db, style("star")).expect("set spinner");
        state::replace_account_usage(&mut db, &usage_rows(&[("Granite", 42.0)]))
            .expect("write usage");
    }
    let db = open_at(&path);
    assert_eq!(spinner(&db).as_deref(), Some("star"), "spinner survives restart");
    assert!(
        usage(&db).contains_key(&"Granite".to_owned()),
        "the usage cache survives restart",
    );
}

#[test]
fn account_usage_writes_leave_the_spinner_untouched() {
    let dir = tempdir().expect("tempdir");
    let path = dir.path().join("db.redb");
    {
        let mut db = open_at(&path);
        state::set_spinner(&mut db, style("ember")).expect("set spinner");
        state::replace_account_usage(&mut db, &usage_rows(&[("Granite", 42.0)]))
            .expect("write usage");
        state::replace_account_usage(&mut db, &usage_rows(&[("Subspace", 10.0)]))
            .expect("churn usage");
        assert_eq!(
            spinner(&db).as_deref(),
            Some("ember"),
            "usage churn leaves the spinner row untouched",
        );
    }
    let db = open_at(&path);
    assert_eq!(
        spinner(&db).as_deref(),
        Some("ember"),
        "the spinner survives usage churn across a restart",
    );
}

#[test]
fn a_table_is_read_only_as_what_it_was_written() {
    let (_dir, mut db) = open_db();
    slack::set_watermark(&mut db, "acme", "C1", "1.0").expect("set");
    let read = db.get2(slack::WATERMARKS, "acme", "C1");
    assert_eq!(
        read.expect_err("keys of another shape are refused").context,
        None,
        "with no more than the database says",
    );
}

#[test]
fn a_write_that_fails_leaves_nothing_half_written() {
    let (_dir, mut db) = open_db();
    db.put2("first", "forge", "feat", &vec![1]).expect("a table of two texts");
    db.put1("second", &vec![("a".to_owned(), vec![2])]).expect("a table of one text");

    let both = db.put2_in_both(("first", "second"), "forge", "feat", (&vec![8], &vec![9]));

    assert!(both.is_err(), "the second table has keys of another shape");
    assert_eq!(db.get2("first", "forge", "feat"), Ok(Some(vec![1])), "so the first is not written");
    assert_eq!(db.get1("second", "a"), Ok(Some(vec![2])));
}

#[test]
fn what_the_database_answers_is_told_as_it_came() {
    let answered: Result<u8, redb::Error> = Ok(7);
    assert_eq!(tell(answered, Some("read".to_owned())), Ok(7));

    assert_eq!(
        tell_words::<u8>(Err("full".to_owned()), None),
        Err(StoreError { context: None, message: "full".to_owned() }),
    );
    assert_eq!(tell_words(Ok::<u8, String>(7), None), Ok(7));

    let refused: Result<u8, redb::Error> = Err(redb::Error::DatabaseAlreadyOpen);
    let error = tell(refused, Some("read".to_owned())).expect_err("an error stays one");
    assert_eq!(error.context.as_deref(), Some("read"));
    assert_eq!(error.message, "Database already open. Cannot acquire lock.");
}
