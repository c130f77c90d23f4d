//! The state file, the lock file, and the texts in them.

use forge_workspace::clock::{fresh_id, rfc3339_now, written_or_epoch};
use forge_workspace::order::TextMap;
use forge_workspace::single_instance::{
    acquire, lock_file_name, read_pid, record_pid, AcquireError, Guard, LockAttempt, LOCK_DIR_NAME,
};
use forge_workspace::state::{
    load_or_default, saved, PersistedState, PersistedUiState, SavedPanes, StateFile,
    STATE_FILE_NAME,
};
use forge_workspace::text::{decimal_text, parse_number, prefix_before_stop, trim};
use rustix::fs::{flock, FlockOperation, Mode, OFlags};
use std::io::Write;
use std::path::{Path, PathBuf};
use tempfile::tempdir;

fn panes(projects: Option<bool>, inspector: Option<bool>) -> StateFile {
    StateFile::Parsed {
        panes: Some(SavedPanes {
            projects_pane_visible: projects,
            inspector_pane_visible: inspector,
        }),
    }
}

fn read_file(path: &Path) -> Option<String> {
    let file = rustix::fs::open(path, OFlags::RDONLY, Mode::empty()).ok()?;
    let mut text = Vec::new();
    let mut chunk = [0u8; 512];
    loop {
        let read = rustix::io::read(&file, &mut chunk[..]).ok()?;
        if read == 0 {
            return String::from_utf8(text).ok();
        }
        text.extend_from_slice(&chunk[..read]);
    }
}

fn write_file(dir: &Path, name: &str, text: &str) {
    let mut temp = tempfile::NamedTempFile::new_in(dir).expect("temp file");
    temp.write_all(text.as_bytes()).expect("write");
    temp.persist(dir.join(name)).expect("persist");
}

fn load_state(dir: &Path) -> PersistedState {
    let Some(raw) = read_file(&dir.join(STATE_FILE_NAME)) else {
        return load_or_default(StateFile::Absent);
    };
    let Ok(parsed) = toml::from_str::<toml::Table>(&raw) else {
        return load_or_default(StateFile::Unparseable);
    };
    let panes = parsed.get("ui").map(|ui| SavedPanes {
        projects_pane_visible: ui.get("projects_pane_visible").and_then(toml::Value::as_bool),
        inspector_pane_visible: ui.get("inspector_pane_visible").and_then(toml::Value::as_bool),
    });
    load_or_default(StateFile::Parsed { panes })
}

fn save_state(dir: &Path, state: &PersistedState) {
    let panes = saved(state);
    let mut ui = toml::Table::new();
    for (name, shown) in [
        ("projects_pane_visible", panes.projects_pane_visible),
        ("inspector_pane_visible", panes.inspector_pane_visible),
    ] {
        if let Some(shown) = shown {
            ui.insert(name.to_owned(), toml::Value::Boolean(shown));
        }
    }
    let mut file = toml::Table::new();
    file.insert("ui".to_owned(), toml::Value::Table(ui));
    write_file(dir, STATE_FILE_NAME, &toml::to_string_pretty(&file).expect("serialise"));
}

#[test]
fn missing_state_loads_default() {
    let dir = tempdir().expect("tempdir");
    let state = load_state(dir.path());
    assert!(
        state.ui.projects_pane_visible,
        "ui.projects_pane_visible defaults to true on missing state",
    );
    assert!(state.ui.inspector_pane_visible);
}

#[test]
fn ui_section_round_trips() {
    let dir = tempdir().expect("tempdir");
    let mut state = PersistedState::default();
    state.ui.projects_pane_visible = false;

    save_state(dir.path(), &state);
    let loaded = load_state(dir.path());
    assert!(!loaded.ui.projects_pane_visible);

    let mut state = loaded;
    state.ui.projects_pane_visible = true;
    save_state(dir.path(), &state);
    let loaded = load_state(dir.path());
    assert!(loaded.ui.projects_pane_visible);
}

#[test]
fn legacy_state_with_retired_sections_loads_default() {
    let dir = tempdir().expect("tempdir");
    write_file(
        dir.path(),
        STATE_FILE_NAME,
        "[selection]\nround_robin_next = 1\n\n[accounts.\"Subspace\"]\nlast_used_at = \"2026-05-09T10:23:14Z\"\n",
    );
    let state = load_state(dir.path());
    assert!(state.ui.projects_pane_visible);
    assert_eq!(state, PersistedState::default());
}

#[test]
fn malformed_state_loads_default() {
    let dir = tempdir().expect("tempdir");
    write_file(dir.path(), STATE_FILE_NAME, "not valid = = toml");
    let state = load_state(dir.path());
    assert!(state.ui.projects_pane_visible);
}

#[test]
fn what_is_saved_of_the_panes_is_what_is_loaded() {
    for projects in [false, true] {
        for inspector in [false, true] {
            let ui = PersistedUiState {
                projects_pane_visible: projects,
                inspector_pane_visible: inspector,
            };
            let panes = saved(&PersistedState { ui });
            assert_eq!(load_or_default(StateFile::Parsed { panes: Some(panes) }).ui, ui);
        }
    }
}

#[test]
fn a_pane_that_is_not_spoken_of_is_shown() {
    let state = load_or_default(panes(None, Some(false)));
    assert_eq!(
        state.ui,
        PersistedUiState { projects_pane_visible: true, inspector_pane_visible: false },
    );
    assert_eq!(STATE_FILE_NAME, "forge-state.toml");
}

const PID: u32 = 4711;

fn lock_path(hash: &str, base: &Path) -> PathBuf {
    base.join(LOCK_DIR_NAME).join(lock_file_name(hash))
}

/// Take the lock of the directory that hashes to `hash`, as the process `PID`.
fn take_lock(hash: &str, base: &Path) -> Result<Option<rustix::fd::OwnedFd>, AcquireError> {
    let _ = rustix::fs::mkdir(base.join(LOCK_DIR_NAME), Mode::RWXU);
    let path = lock_path(hash, base);
    let opened =
        rustix::fs::open(&path, OFlags::CREATE | OFlags::RDWR, Mode::RUSR | Mode::WUSR);
    let (attempt, file) = match opened {
        Ok(file) => match flock(&file, FlockOperation::NonBlockingLockExclusive) {
            Ok(()) => (LockAttempt::Locked, Some(file)),
            Err(_) => (LockAttempt::Contended { contents: read_file(&path) }, None),
        },
        Err(_) => (LockAttempt::NoFile, None),
    };
    match acquire(&attempt)? {
        Guard::Skip => Ok(None),
        Guard::Hold => {
            let file = file.expect("a lock that is held has a file");
            rustix::io::write(&file, record_pid(PID).as_bytes()).expect("write");
            Ok(Some(file))
        }
    }
}

#[test]
fn lock_lives_under_locks_subdir_of_the_base() {
    let base = tempdir().expect("tempdir");
    let _lock = take_lock("9f86d081", base.path()).expect("acquire ok").expect("holds the lock");
    let path = lock_path("9f86d081", base.path());
    assert!(path.is_file(), "lock is a real file");
    assert_eq!(
        path.parent().and_then(Path::file_name).and_then(|s| s.to_str()),
        Some("locks"),
        "lock lives under <base>/locks/",
    );
    assert_eq!(lock_file_name("9f86d081"), "9f86d081.lock");
}

#[test]
fn distinct_config_dirs_get_distinct_locks_held_at_once() {
    let base = tempdir().expect("tempdir");
    let a = take_lock("aa", base.path()).expect("a ok").expect("a holds");
    let b = take_lock("bb", base.path()).expect("b ok").expect("b holds");
    assert_ne!(
        lock_path("aa", base.path()),
        lock_path("bb", base.path()),
        "different hashes give different lock files",
    );
    drop((a, b));
}

#[test]
fn acquire_succeeds_on_fresh_dir_and_records_pid() {
    let base = tempdir().expect("tempdir");
    let lock = take_lock("aa", base.path()).expect("acquire ok");
    assert!(lock.is_some(), "a fresh config dir acquires the lock");
    let contents = read_file(&lock_path("aa", base.path())).expect("read lock");
    assert_eq!(contents.trim().parse::<u32>(), Ok(PID), "the lockfile records our PID");
    assert_eq!(read_pid(&Some(contents)), Some(PID));
}

#[test]
fn second_acquire_reports_already_running_with_pid() {
    let base = tempdir().expect("tempdir");
    let _first = take_lock("aa", base.path()).expect("first ok").expect("first holds");
    match take_lock("aa", base.path()) {
        Err(AcquireError::AlreadyRunning { pid }) => {
            assert_eq!(pid, Some(PID), "refusal names the holder's PID");
        }
        other => panic!("expected AlreadyRunning, got {other:?}"),
    }
}

#[test]
fn lock_releases_on_drop_allowing_reacquire() {
    let base = tempdir().expect("tempdir");
    {
        let _first = take_lock("aa", base.path()).expect("first ok").expect("first holds");
    }
    let second = take_lock("aa", base.path()).expect("second ok");
    assert!(second.is_some(), "the lock is reacquirable after the holder drops it");
}

#[test]
fn a_lock_that_cannot_be_had_is_gone_without() {
    assert_eq!(acquire(&LockAttempt::NoDirectory), Ok(Guard::Skip));
    assert_eq!(acquire(&LockAttempt::NoFile), Ok(Guard::Skip));
    assert_eq!(acquire(&LockAttempt::Unsupported), Ok(Guard::Skip));
}

#[test]
fn a_holder_that_is_not_named_is_still_a_holder() {
    for contents in [None, Some(String::new()), Some("pid".to_owned())] {
        assert_eq!(
            acquire(&LockAttempt::Contended { contents }),
            Err(AcquireError::AlreadyRunning { pid: None }),
        );
    }
    assert_eq!(read_pid(&Some("  12\n".to_owned())), Some(12));
    assert_eq!(read_pid(&Some("4294967295".to_owned())), Some(u32::MAX));
    assert_eq!(read_pid(&Some("4294967296".to_owned())), None);
    assert_eq!(read_pid(&Some(record_pid(0))), Some(0));
}

#[test]
fn numbers_are_written_and_read() {
    assert_eq!(decimal_text(0), "0");
    assert_eq!(decimal_text(1_700_032_400), "1700032400");
    assert_eq!(decimal_text(u64::MAX), u64::MAX.to_string());
    assert_eq!(parse_number("+7", 10), Some(7));
    assert_eq!(parse_number("007", 10), Some(7));
    assert_eq!(parse_number("11", 10), None);
    assert_eq!(parse_number("", 10), None);
    assert_eq!(parse_number("+", 10), None);
    assert_eq!(parse_number("-1", 10), None);
    assert_eq!(parse_number("18446744073709551616", u64::MAX), None);
}

#[test]
fn white_space_at_the_ends_goes() {
    for text in ["", " ", " a b ", "\t\nx\u{3000}", "\u{a0}y", "plain"] {
        assert_eq!(trim(text), text.trim());
    }
}

#[test]
fn what_stands_before_the_stop_is_the_prefix() {
    assert_eq!(prefix_before_stop("1700000000.000100"), "1700000000");
    assert_eq!(prefix_before_stop("17"), "17");
    assert_eq!(prefix_before_stop(".5"), "");
}

#[test]
fn a_fresh_id_is_a_random_uuid() {
    let id = fresh_id();
    let bytes = id.as_bytes();
    assert_eq!(bytes.len(), 36);
    assert_eq!(bytes[14], b'4');
    assert!(matches!(bytes[19], b'8' | b'9' | b'a' | b'b'));
    assert!(id.chars().all(|c| c == '-' || c.is_ascii_digit() || ('a'..='f').contains(&c)));
    assert_ne!(id, fresh_id());
}

#[test]
fn the_time_is_written_with_its_offset() {
    let now = rfc3339_now();
    assert!(now.len() >= 20 && now.ends_with('Z') && now.as_bytes()[10] == b'T');
}

#[test]
fn a_text_map_keeps_its_keys_in_order() {
    let mut map: TextMap<u32> = TextMap::new();
    map.insert("b".to_owned(), 2);
    map.insert("a".to_owned(), 1);
    map.insert("\u{e9}".to_owned(), 4);
    map.insert("ab".to_owned(), 3);
    map.insert("a".to_owned(), 10);
    assert_eq!(
        map.keys(),
        vec!["a".to_owned(), "ab".to_owned(), "b".to_owned(), "\u{e9}".to_owned()],
    );
    assert_eq!(map.get(&"a".to_owned()), Some(&10));
    assert_eq!(map.remove(&"a".to_owned()), Some(10));
    assert_eq!(map.remove(&"a".to_owned()), None);
    assert!(!map.contains_key(&"a".to_owned()));
}

#[test]
fn an_instant_that_cannot_be_written_is_the_epoch() {
    assert_eq!(written_or_epoch(None), "1970-01-01T00:00:00Z");
    assert_eq!(
        written_or_epoch(Some("2026-07-23T11:00:00Z".to_owned())),
        "2026-07-23T11:00:00Z",
    );
    let now = rfc3339_now();
    assert!(now.as_str() > "2020-01-01T00:00:00Z", "the clock can be written: {now}");
}
