//! How a session is launched: its charter, its extra arguments and its
//! settings.

use vstd::prelude::*;

verus! {

/// `serde_json::Value`, a JSON value. What is inside is told by
/// [`object_members`] and [`text_of`].
#[verifier::external_type_specification]
#[verifier::external_body]
pub struct ExJsonValue(serde_json::Value);

/// The members of a JSON object; none where the value is no object.
pub uninterp spec fn object_members(value: serde_json::Value) -> Option<
    Map<Seq<char>, serde_json::Value>,
>;

/// The text of a JSON string; none where the value is no string.
pub uninterp spec fn text_of(value: serde_json::Value) -> Option<Seq<char>>;

/// `serde_json::Value::Object` of `serde_json::Map::new`: an object without
/// members.
#[verifier::external_body]
fn empty_object() -> (value: serde_json::Value)
    ensures
        object_members(value) == Some(Map::<Seq<char>, serde_json::Value>::empty()),
{
    serde_json::Value::Object(serde_json::Map::new())
}

/// `serde_json::Value::String`: a string, which is no object.
#[verifier::external_body]
fn text_value(text: &str) -> (value: serde_json::Value)
    ensures
        text_of(value) == Some(text@),
        object_members(value) is None,
{
    serde_json::Value::String(text.to_owned())
}

/// `serde_json::Value::is_object`: whether the value has members.
#[verifier::external_body]
fn is_object(value: &serde_json::Value) -> (yes: bool)
    ensures
        yes == (object_members(*value) is Some),
{
    value.is_object()
}

/// `serde_json::Map::remove` on the members of an object: the member under
/// `key` leaves and comes back; the others stay.
#[verifier::external_body]
fn remove_member(object: &mut serde_json::Value, key: &str) -> (removed: Option<serde_json::Value>)
    requires
        object_members(*old(object)) is Some,
    ensures
        object_members(*final(object)) == Some(object_members(*old(object))->0.remove(key@)),
        removed == if object_members(*old(object))->0.dom().contains(key@) {
            Some(object_members(*old(object))->0[key@])
        } else {
            None
        },
{
    match object {
        serde_json::Value::Object(members) => members.remove(key),
        _ => None,
    }
}

/// `serde_json::Map::insert` on the members of an object: `value` stands
/// under `key` afterwards; the other members stay.
#[verifier::external_body]
fn set_member(object: &mut serde_json::Value, key: &str, value: serde_json::Value)
    requires
        object_members(*old(object)) is Some,
    ensures
        object_members(*final(object)) == Some(
            object_members(*old(object))->0.insert(key@, value),
        ),
{
    if let serde_json::Value::Object(members) = object {
        members.insert(key.to_owned(), value);
    }
}

/// What a session is launched with.
#[derive(Debug, PartialEq, Eq)]
pub struct SessionLaunchSettings {
    /// What the session is for, behind its system prompt.
    pub charter: Option<String>,
    /// Flags of the command line, with their values.
    pub extra_args: Vec<(String, Option<String>)>,
    /// The settings object that is passed on.
    pub settings: Option<serde_json::Value>,
}

impl Default for SessionLaunchSettings {
    fn default() -> (settings: Self)
        ensures
            settings.charter is None,
            settings.extra_args@.len() == 0,
            settings.settings is None,
    {
        SessionLaunchSettings { charter: None, extra_args: Vec::new(), settings: None }
    }
}

/// The member of the settings that holds the permission rules.
pub const PERMISSIONS_KEY: &'static str = "permissions";

/// The member of the permission rules that holds the mode.
pub const PERMISSIONS_DEFAULT_MODE_KEY: &'static str = "defaultMode";

/// The tools that a worker is denied.
pub open spec fn denied_tools(interactive: bool) -> Seq<char> {
    if interactive {
        "EnterWorktree,ExitWorktree"@
    } else {
        "EnterWorktree,ExitWorktree"@ + ",AskUserQuestion"@
    }
}

/// `arg` is the flag `name` with a value.
pub open spec fn is_arg(arg: (String, Option<String>), name: Seq<char>, value: Seq<char>) -> bool {
    arg.0@ == name && (arg.1 matches Some(given) && given@ == value)
}

/// `args` are those of a worker: a worktree of its own in a git repository,
/// and never the tools that leave it.
pub open spec fn are_worker_args(
    args: Seq<(String, Option<String>)>,
    is_git_repo: bool,
    label: Seq<char>,
    interactive: bool,
) -> bool {
    if is_git_repo {
        args.len() == 2 && is_arg(args[0], "worktree"@, label) && is_arg(
            args[1],
            "disallowedTools"@,
            denied_tools(interactive),
        )
    } else {
        args.len() == 1 && is_arg(args[0], "disallowedTools"@, denied_tools(interactive))
    }
}

/// The arguments that a worker is launched with. Unless it is `interactive`
/// it cannot ask the user anything.
pub fn build_worker_extra_args(is_git_repo: bool, label: &str, interactive: bool) -> (args: Vec<
    (String, Option<String>),
>)
    ensures
        are_worker_args(args@, is_git_repo, label@, interactive),
{
    let mut args: Vec<(String, Option<String>)> = Vec::new();
    if is_git_repo {
        args.push(("worktree".to_owned(), Some(label.to_owned())));
    }
    let mut disallowed = "EnterWorktree,ExitWorktree".to_owned();
    if !interactive {
        disallowed.append(",AskUserQuestion");
    }
    args.push(("disallowedTools".to_owned(), Some(disallowed)));
    args
}

/// The settings with a charter.
pub open spec fn chartered(settings: SessionLaunchSettings, charter: String) -> SessionLaunchSettings {
    SessionLaunchSettings {
        charter: match settings.charter {
            Some(own) => Some(own),
            None => Some(charter),
        },
        ..settings
    }
}

/// Give a lead the charter that every lead has, unless it has its own.
pub fn apply_lead_charter(settings: &mut SessionLaunchSettings, lead_charter: &String)
    ensures
        *final(settings) == chartered(*old(settings), *lead_charter),
{
    match &settings.charter {
        Some(_) => {},
        None => {
            settings.charter = Some(lead_charter.clone());
        },
    }
}

/// The members of a settings value, where it can have any: one that is not
/// there has none yet.
pub open spec fn settings_members(settings: Option<serde_json::Value>) -> Option<
    Map<Seq<char>, serde_json::Value>,
> {
    match settings {
        Some(value) => object_members(value),
        None => Some(Map::empty()),
    }
}

/// The permission rules among the members of the settings, where they can
/// hold a mode.
pub open spec fn permission_rules(members: Map<Seq<char>, serde_json::Value>) -> Option<
    Map<Seq<char>, serde_json::Value>,
> {
    if members.dom().contains(PERMISSIONS_KEY@) {
        object_members(members[PERMISSIONS_KEY@])
    } else {
        Some(Map::empty())
    }
}

/// `after` is `rules` with the mode `mode`.
pub open spec fn holds_mode(
    after: Option<Map<Seq<char>, serde_json::Value>>,
    rules: Map<Seq<char>, serde_json::Value>,
    mode: Seq<char>,
) -> bool {
    after matches Some(after) && after.dom().contains(PERMISSIONS_DEFAULT_MODE_KEY@) && text_of(
        after[PERMISSIONS_DEFAULT_MODE_KEY@],
    ) == Some(mode) && after == rules.insert(
        PERMISSIONS_DEFAULT_MODE_KEY@,
        after[PERMISSIONS_DEFAULT_MODE_KEY@],
    )
}

/// `after` is `before` with the permission mode `mode`: in the object under
/// `permissions`, with everything beside it as it was. Where there is
/// something else than an object, it stays.
pub open spec fn mode_stamped(
    before: Option<serde_json::Value>,
    after: Option<serde_json::Value>,
    mode: Seq<char>,
) -> bool {
    match settings_members(before) {
        None => after == before,
        Some(members) => after is Some && (object_members(after->0) matches Some(now)
            && now.dom().contains(PERMISSIONS_KEY@) && now == members.insert(
            PERMISSIONS_KEY@,
            now[PERMISSIONS_KEY@],
        ) && match permission_rules(members) {
            Some(rules) => holds_mode(object_members(now[PERMISSIONS_KEY@]), rules, mode),
            None => now[PERMISSIONS_KEY@] == members[PERMISSIONS_KEY@],
        }),
    }
}

/// Put the permission mode of a project, in its wire form, into the settings
/// of a session. It overrides one that is there.
pub fn stamp_permission_mode(settings: &mut SessionLaunchSettings, mode: &str)
    ensures
        mode_stamped(old(settings).settings, final(settings).settings, mode@),
        *final(settings) == (SessionLaunchSettings {
            settings: final(settings).settings,
            ..*old(settings)
        }),
{
    let taken = settings.settings.take();
    let mut object = match taken {
        Some(value) => value,
        None => empty_object(),
    };
    if !is_object(&object) {
        settings.settings = Some(object);
        return;
    }
    let ghost members = object_members(object)->0;
    let mut rules = match remove_member(&mut object, PERMISSIONS_KEY) {
        Some(value) => value,
        None => empty_object(),
    };
    let ghost rules_before = rules;
    if is_object(&rules) {
        let value = text_value(mode);
        set_member(&mut rules, PERMISSIONS_DEFAULT_MODE_KEY, value);
    }
    set_member(&mut object, PERMISSIONS_KEY, rules);
    proof {
        let now = object_members(object)->0;
        assert(now =~= members.insert(PERMISSIONS_KEY@, now[PERMISSIONS_KEY@]));
        if object_members(rules_before) is Some {
            let after = object_members(rules)->0;
            assert(after =~= object_members(rules_before)->0.insert(
                PERMISSIONS_DEFAULT_MODE_KEY@,
                after[PERMISSIONS_DEFAULT_MODE_KEY@],
            ));
        }
    }
    settings.settings = Some(object);
}

/// A worker may not move between worktrees. It may ask the user only where it
/// is interactive.
pub proof fn only_an_interactive_worker_asks_the_user(interactive: bool)
    ensures
        ({
            let head = "EnterWorktree,ExitWorktree"@;
            let denied = denied_tools(interactive);
            &&& denied.take(head.len() as int) == head
            &&& interactive ==> denied.len() == head.len()
            &&& !interactive ==> denied.skip(head.len() as int) == ",AskUserQuestion"@
        }),
{
    let head = "EnterWorktree,ExitWorktree"@;
    let denied = denied_tools(interactive);
    assert(denied.take(head.len() as int) =~= head);
    if !interactive {
        assert(denied.skip(head.len() as int) =~= ",AskUserQuestion"@);
    }
}

/// A worker is given a worktree under its label exactly where its project is a
/// git repository, and is always told which tools it may not use.
pub proof fn a_worker_in_a_repository_gets_a_worktree(
    args: Seq<(String, Option<String>)>,
    is_git_repo: bool,
    label: Seq<char>,
    interactive: bool,
)
    requires
        are_worker_args(args, is_git_repo, label, interactive),
    ensures
        is_git_repo ==> args.len() == 2 && args[0].0@ == "worktree"@ && (
        args[0].1 matches Some(given) && given@ == label),
        !is_git_repo ==> args.len() == 1,
        args.last().0@ == "disallowedTools"@,
        args.last().1 matches Some(given) && given@ == denied_tools(interactive),
{
}

/// A charter of its own is kept, one that is missing is the charter of leads,
/// and nothing else of the settings changes.
pub proof fn an_own_charter_is_kept(settings: SessionLaunchSettings, charter: String)
    ensures
        settings.charter is Some ==> chartered(settings, charter) == settings,
        settings.charter is None ==> chartered(settings, charter).charter == Some(charter),
        chartered(settings, charter).extra_args == settings.extra_args,
        chartered(settings, charter).settings == settings.settings,
{
}

/// A stamped mode is the default mode of the permissions, beside every rule
/// and every setting that was there. Settings that are no object stay as they
/// are, and so do permissions that are none.
pub proof fn a_stamped_mode_leaves_the_other_settings(
    before: Option<serde_json::Value>,
    after: Option<serde_json::Value>,
    mode: Seq<char>,
    member: Seq<char>,
)
    requires
        mode_stamped(before, after, mode),
    ensures
        before matches Some(value) && object_members(value) is None ==> after == before,
        before matches Some(value) ==> (object_members(value) matches Some(members) ==> (
        after matches Some(now) && (object_members(now) matches Some(stamped) && {
            &&& member != "permissions"@ ==> stamped.dom().contains(member)
                == members.dom().contains(member)
            &&& member != "permissions"@ && members.dom().contains(member) ==> stamped[member]
                == members[member]
            &&& stamped.dom().contains("permissions"@)
            &&& !members.dom().contains("permissions"@) ==> (object_members(
                stamped["permissions"@],
            ) matches Some(rules) && rules.dom().contains("defaultMode"@) && text_of(
                rules["defaultMode"@],
            ) == Some(mode) && (member != "defaultMode"@ ==> !rules.dom().contains(member)))
            &&& members.dom().contains("permissions"@) ==> match object_members(
                members["permissions"@],
            ) {
                Some(old_rules) => object_members(stamped["permissions"@]) matches Some(rules)
                    && rules.dom().contains("defaultMode"@) && text_of(rules["defaultMode"@])
                    == Some(mode) && (member != "defaultMode"@ ==> rules.dom().contains(member)
                    == old_rules.dom().contains(member)) && (member != "defaultMode"@
                    && old_rules.dom().contains(member) ==> rules[member] == old_rules[member]),
                None => stamped["permissions"@] == members["permissions"@],
            }
        }))),
        before is None ==> (after matches Some(now) && (object_members(now) matches Some(stamped)
            && stamped.dom().contains("permissions"@) && (member != "permissions"@
            ==> !stamped.dom().contains(member)) && (object_members(
            stamped["permissions"@],
        ) matches Some(rules) && rules.dom().contains("defaultMode"@) && text_of(
            rules["defaultMode"@],
        ) == Some(mode)))),
{
}

} // verus!
