//! What a session is launched with.

use forge_workspace::launch::{
    apply_lead_charter, build_worker_extra_args, stamp_permission_mode, SessionLaunchSettings,
};
use serde_json::Value;

fn object(fields: Vec<(&str, Value)>) -> Value {
    let mut object = serde_json::Map::new();
    for (name, value) in fields {
        object.insert(name.to_owned(), value);
    }
    Value::Object(object)
}

fn text(value: &str) -> Value {
    Value::String(value.to_owned())
}

fn mode_of(settings: &SessionLaunchSettings) -> Option<&str> {
    settings
        .settings
        .as_ref()
        .and_then(|s| s.get("permissions"))
        .and_then(|p| p.get("defaultMode"))
        .and_then(Value::as_str)
}

fn denied(args: &[(String, Option<String>)]) -> String {
    let blocked = args.iter().find(|(flag, _)| flag == "disallowedTools");
    let (_, value) = blocked.expect("expected --disallowedTools entry");
    value.clone().expect("expected value for --disallowedTools")
}

#[test]
fn project_permission_mode_stamps_into_absent_settings() {
    let mut settings = SessionLaunchSettings::default();
    stamp_permission_mode(&mut settings, "bypassPermissions");
    assert_eq!(
        mode_of(&settings),
        Some("bypassPermissions"),
        "the project mode reaches the settings JSON",
    );
}

#[test]
fn project_permission_mode_overrides_the_launcher_default_and_keeps_siblings() {
    let mut settings = SessionLaunchSettings {
        settings: Some(object(vec![
            ("permissions", object(vec![("defaultMode", text("default"))])),
            ("model", text("haiku")),
        ])),
        ..SessionLaunchSettings::default()
    };
    stamp_permission_mode(&mut settings, "bypassPermissions");
    assert_eq!(
        mode_of(&settings),
        Some("bypassPermissions"),
        "the project mode wins over the launcher's session default",
    );
    let record = settings.settings.as_ref().expect("settings kept");
    assert_eq!(
        record.get("model").and_then(Value::as_str),
        Some("haiku"),
        "sibling settings keys survive the stamp",
    );
}

#[test]
fn a_mode_is_stamped_beside_the_other_rules() {
    let mut settings = SessionLaunchSettings {
        settings: Some(object(vec![("permissions", object(vec![("allow", text("Read"))]))])),
        ..SessionLaunchSettings::default()
    };
    stamp_permission_mode(&mut settings, "plan");
    assert_eq!(
        settings.settings,
        Some(object(vec![(
            "permissions",
            object(vec![("allow", text("Read")), ("defaultMode", text("plan"))]),
        )])),
    );
}

#[test]
fn what_is_no_object_is_left_alone() {
    let mut settings = SessionLaunchSettings {
        settings: Some(text("odd")),
        ..SessionLaunchSettings::default()
    };
    stamp_permission_mode(&mut settings, "plan");
    assert_eq!(settings.settings, Some(text("odd")));

    let odd_rules = object(vec![("permissions", text("odd"))]);
    let mut settings = SessionLaunchSettings {
        settings: Some(odd_rules.clone()),
        ..SessionLaunchSettings::default()
    };
    stamp_permission_mode(&mut settings, "plan");
    assert_eq!(settings.settings, Some(odd_rules));
}

#[test]
fn worker_in_git_repo_gets_worktree_flag() {
    let args = build_worker_extra_args(true, "examiner", false);
    assert!(
        args.iter().any(|(flag, value)| flag == "worktree" && value.as_deref() == Some("examiner")),
        "expected the worktree flag in {args:?}"
    );
}

#[test]
fn worker_in_non_git_repo_gets_no_worktree_flag() {
    let args = build_worker_extra_args(false, "examiner", false);
    assert!(
        !args.iter().any(|(flag, _)| flag == "worktree"),
        "expected no worktree entry in {args:?}"
    );
}

#[test]
fn worker_in_git_repo_blocks_enter_and_exit_worktree() {
    let is_git = true;
    let args = build_worker_extra_args(is_git, "examiner", false);
    let value = denied(&args);
    assert!(value.contains("EnterWorktree"), "EnterWorktree must be blocked, got {value:?}");
    assert!(value.contains("ExitWorktree"), "ExitWorktree must be blocked, got {value:?}");
}

#[test]
fn worker_in_non_git_repo_also_blocks_worktree_tools() {
    let is_git = false;
    let args = build_worker_extra_args(is_git, "examiner", false);
    let value = denied(&args);
    assert!(value.contains("EnterWorktree"));
    assert!(value.contains("ExitWorktree"));
}

#[test]
fn worker_spawned_without_interactive_is_denied_ask_user_question() {
    let args = build_worker_extra_args(true, "examiner", false);
    let value = denied(&args);
    assert!(
        value.contains("AskUserQuestion"),
        "a worker spawned without interactive must not be offered AskUserQuestion, got {value:?}",
    );
}

#[test]
fn worker_spawned_interactive_keeps_ask_user_question() {
    let args = build_worker_extra_args(true, "examiner", true);
    let value = denied(&args);
    assert!(
        !value.contains("AskUserQuestion"),
        "an interactive worker must keep AskUserQuestion, got {value:?}",
    );
    assert!(
        value.contains("EnterWorktree") && value.contains("ExitWorktree"),
        "opting into interactive must not lift the worktree-hop denial, got {value:?}",
    );
}

#[test]
fn the_arguments_of_a_worker_are_exactly_these() {
    assert_eq!(
        build_worker_extra_args(true, "w", false),
        vec![
            ("worktree".to_owned(), Some("w".to_owned())),
            (
                "disallowedTools".to_owned(),
                Some("EnterWorktree,ExitWorktree,AskUserQuestion".to_owned()),
            ),
        ],
    );
}

#[test]
fn lead_without_a_charter_gets_the_bundled_one() {
    let bundled = "lead the workers".to_owned();
    let mut settings = SessionLaunchSettings::default();
    apply_lead_charter(&mut settings, &bundled);
    assert_eq!(settings.charter.as_deref(), Some("lead the workers"));
}

#[test]
fn existing_charter_is_preserved_not_overwritten() {
    let mut settings = SessionLaunchSettings {
        charter: Some("pre-existing".into()),
        ..SessionLaunchSettings::default()
    };
    apply_lead_charter(&mut settings, &"lead the workers".to_owned());
    assert_eq!(settings.charter.as_deref(), Some("pre-existing"));
}
