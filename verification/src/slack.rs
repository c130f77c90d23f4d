//! The Slack side of the workspace: its configured Slack workspaces, what
//! its sessions watch in them, and the posts that wait for an approval.

use crate::clock::{is_v4, new_v4};
use crate::order::{text_less, TextMap};
use crate::protocol::{
    Action, SessionUpdate, SlackDraft, SlackMessage, SlackSubscription, SlackSubscriptionTarget,
    SlackWatchMode, Timestamp,
};
use crate::seqs::{any, first_index, first_match, is_first};
use crate::slot::{clone_option, option_view, same_option, SessionSlot, SlotId};
use crate::text::{before_stop, parse_number, parsed, prefix_before_stop, trim, trimmed};
use crate::workspace::Workspace;
use vstd::prelude::*;

verus! {

/// How long a delivered message is remembered, in nanoseconds.
pub const DELIVERY_REMEMBER: u64 = 300_000_000_000;

/// How many days without a reply a followed thread is dropped after.
pub const THREAD_IDLE_DROP_DAYS: u64 = 14;

/// How often a Slack workspace is polled where its entry does not say.
pub const DEFAULT_POLL_SECONDS: u64 = 30;

const SECONDS_PER_DAY: u64 = 86_400;

/// A `[[slack]]` entry of the configuration.
#[derive(Debug, PartialEq, Eq)]
pub struct SlackConfig {
    pub workspace: String,
    pub token: String,
    pub poll_seconds: u64,
}

/// A message that was handed to a session, and when.
#[derive(Debug, PartialEq, Eq)]
pub struct Delivery {
    pub project: String,
    pub team_role: Option<String>,
    pub conversation: String,
    pub ts: String,
    pub at: u64,
}

/// A post that waits for the session it is addressed to.
#[derive(Debug, PartialEq, Eq)]
pub struct PendingDraft {
    pub id: u128,
    pub owner: SessionSlot,
}

/// What the workspace knows of Slack.
#[derive(Debug, PartialEq, Eq)]
pub struct SlackState {
    pub configs: Vec<SlackConfig>,
    pub subs: Vec<SlackSubscription>,
    /// The Slack workspaces whose poller runs.
    pub running: Vec<String>,
    /// Whether each poller that reported has a connection.
    pub connected: TextMap<bool>,
    pub delivered: Vec<Delivery>,
    pub drafts: Vec<PendingDraft>,
    /// The user each token belongs to.
    pub user_ids: TextMap<String>,
    pub verification_started: bool,
}

impl SlackState {
    pub open spec fn wf(self) -> bool {
        self.connected.wf() && self.user_ids.wf()
    }

    pub fn new(configs: Vec<SlackConfig>) -> (state: Self)
        ensures
            state.wf(),
            state.configs == configs,
            state.subs@.len() == 0,
            state.running@.len() == 0,
            state.connected@ == Map::<Seq<char>, bool>::empty(),
            state.delivered@.len() == 0,
            state.drafts@.len() == 0,
            state.user_ids@ == Map::<Seq<char>, String>::empty(),
            !state.verification_started,
    {
        SlackState {
            configs,
            subs: Vec::new(),
            running: Vec::new(),
            connected: TextMap::new(),
            delivered: Vec::new(),
            drafts: Vec::new(),
            user_ids: TextMap::new(),
            verification_started: false,
        }
    }
}

/// How many whole days before `now`, in seconds, a timestamp lies. Its
/// fraction does not count; one that is no number lies at the epoch.
pub open spec fn idle_days(cursor: Seq<char>, now: u64) -> int {
    let at = match parsed(before_stop(cursor), u64::MAX as nat) {
        Some(secs) => secs as int,
        None => 0,
    };
    if now < at {
        0
    } else {
        (now - at) / 86_400
    }
}

/// How many whole days before `now` the timestamp `cursor` lies.
pub fn thread_idle_days(cursor: &str, now: u64) -> (days: u64)
    ensures
        days == idle_days(cursor@, now),
{
    let prefix = prefix_before_stop(cursor);
    let at: u64 = match parse_number(prefix.as_str(), u64::MAX) {
        Some(secs) => secs,
        None => 0,
    };
    if now < at {
        0
    } else {
        (now - at) / SECONDS_PER_DAY
    }
}

/// The configured Slack workspaces: the token of each, by label.
#[derive(Debug, PartialEq, Eq)]
pub struct SlackWorkspaces {
    pub clients: TextMap<String>,
}

/// What is wrong with the entry at `i`, after those before it.
pub open spec fn config_error(configs: Seq<SlackConfig>, i: int) -> Option<Seq<char>> {
    let label = trimmed(configs[i].workspace@);
    if label.len() == 0 {
        Some("a [[slack]] entry has an empty workspace label"@)
    } else if trimmed(configs[i].token@).len() == 0 {
        Some("slack workspace '"@ + label + "' has an empty token"@)
    } else if exists|j: int| 0 <= j < i && trimmed((#[trigger] configs[j]).workspace@) == label {
        Some("two [[slack]] entries share the label '"@ + label + "'"@)
    } else {
        None
    }
}

/// A message around a label.
fn around(head: &str, label: &String, tail: &str) -> (message: String)
    ensures
        message@ == head@ + label@ + tail@,
{
    let mut message = head.to_owned();
    message.append(label.as_str());
    message.append(tail);
    message
}

/// What the configured workspaces are, or why there are none.
pub open spec fn configured(
    configs: Vec<SlackConfig>,
    made: Result<SlackWorkspaces, String>,
) -> bool {
    match made {
        Ok(workspaces) => {
            &&& workspaces.wf()
            &&& forall|i: int|
                0 <= i < configs@.len() ==> #[trigger] config_error(configs@, i) is None
            &&& forall|i: int|
                #![trigger configs@[i]]
                0 <= i < configs@.len() ==> {
                    let label = trimmed(configs@[i].workspace@);
                    workspaces.clients@.dom().contains(label) && workspaces.clients@[label]
                        == configs@[i].token
                }
            &&& forall|label: Seq<char>|
                workspaces.clients@.dom().contains(label) ==> exists|i: int|
                    0 <= i < configs@.len() && trimmed((#[trigger] configs@[i]).workspace@)
                        == label
        },
        Err(message) => exists|i: int|
            0 <= i < configs@.len() && #[trigger] config_error(configs@, i) == Some(
                message@,
            ) && forall|j: int|
                0 <= j < i ==> #[trigger] config_error(configs@, j) is None,
    }
}

impl SlackWorkspaces {
    pub open spec fn wf(self) -> bool {
        self.clients.wf()
    }

    /// The workspaces that `configs` describe. Labels have to be there, to be
    /// distinct, and to come with a token; the first entry that breaks this
    /// is named.
    pub fn from_config(configs: &Vec<SlackConfig>) -> (made: Result<Self, String>)
        ensures
            configured(*configs, made),
    {
        let mut clients: TextMap<String> = TextMap::new();
        let mut i: usize = 0;
        while i < configs.len()
            invariant
                i <= configs@.len(),
                clients.wf(),
                forall|j: int| 0 <= j < i ==> #[trigger] config_error(configs@, j) is None,
                forall|j: int|
                    #![trigger configs@[j]]
                    0 <= j < i ==> {
                        let label = trimmed(configs@[j].workspace@);
                        clients@.dom().contains(label) && clients@[label] == configs@[j].token
                    },
                forall|label: Seq<char>|
                    clients@.dom().contains(label) ==> exists|j: int|
                        0 <= j < i && trimmed((#[trigger] configs@[j]).workspace@) == label,
            decreases configs@.len() - i,
        {
            let label = trim(configs[i].workspace.as_str());
            let ghost before = clients@;
            if label.as_str().is_empty() {
                let message = "a [[slack]] entry has an empty workspace label".to_owned();
                assert(config_error(configs@, i as int) == Some(message@));
                return Err(message);
            }
            let token = trim(configs[i].token.as_str());
            if token.as_str().is_empty() {
                let message = around("slack workspace '", &label, "' has an empty token");
                assert(config_error(configs@, i as int) == Some(message@));
                return Err(message);
            }
            if clients.contains_key(&label) {
                let message = around("two [[slack]] entries share the label '", &label, "'");
                assert(config_error(configs@, i as int) == Some(message@));
                return Err(message);
            }
            clients.insert(label, configs[i].token.clone());
            proof {
                assert(config_error(configs@, i as int) is None) by {
                    if exists|j: int|
                        0 <= j < i && trimmed((#[trigger] configs@[j]).workspace@) == label@ {
                        let j = choose|j: int|
                            0 <= j < i && trimmed((#[trigger] configs@[j]).workspace@) == label@;
                        assert(before.dom().contains(label@));
                    }
                }
                assert forall|l: Seq<char>| clients@.dom().contains(l) implies exists|j: int|
                    0 <= j < i + 1 && trimmed((#[trigger] configs@[j]).workspace@) == l by {
                    if l == label@ {
                        assert(trimmed(configs@[i as int].workspace@) == l);
                    } else {
                        assert(before.dom().contains(l));
                        let j = choose|j: int|
                            0 <= j < i && trimmed((#[trigger] configs@[j]).workspace@) == l;
                        assert(trimmed(configs@[j].workspace@) == l);
                    }
                }
            }
            i = i + 1;
        }
        Ok(SlackWorkspaces { clients })
    }

    pub fn is_empty(&self) -> (empty: bool)
        ensures
            empty == (self.clients.entries@.len() == 0),
    {
        self.clients.entries.len() == 0
    }

    /// Every label, in order.
    pub fn labels(&self) -> (labels: Vec<String>)
        requires
            self.wf(),
        ensures
            labels@ == self.clients.entries@.map_values(|entry: (String, String)| entry.0),
            forall|i: int, j: int|
                0 <= i < j < labels@.len() ==> text_less(
                    (#[trigger] labels@[i])@,
                    (#[trigger] labels@[j])@,
                ),
            forall|label: Seq<char>|
                self.clients@.dom().contains(label) <==> exists|i: int|
                    0 <= i < labels@.len() && (#[trigger] labels@[i])@ == label,
    {
        self.clients.keys()
    }

    /// The token of the workspace called `label`.
    pub fn client(&self, label: &String) -> (token: Option<&String>)
        requires
            self.wf(),
        ensures
            match token {
                Some(token) => self.clients@.dom().contains(label@) && self.clients@[label@]
                    == *token,
                None => !self.clients@.dom().contains(label@),
            },
    {
        self.clients.get(label)
    }
}

/// `after` differs from `before` in what it knows of Slack alone.
pub open spec fn only_slack(before: Workspace, after: Workspace) -> bool {
    after == (Workspace { slack: after.slack, ..before })
}

/// `after` differs from `before` in its Slack subscriptions alone.
pub open spec fn only_subs(before: Workspace, after: Workspace) -> bool {
    only_slack(before, after) && after.slack == (SlackState {
        subs: after.slack.subs,
        ..before.slack
    })
}

/// A delivery is still remembered at `now`.
pub open spec fn fresh(delivery: Delivery, now: u64) -> bool {
    now - delivery.at < DELIVERY_REMEMBER
}

/// A delivery of the message `ts` of `conversation` to a session.
pub open spec fn delivery_of(
    project: Seq<char>,
    team_role: Option<Seq<char>>,
    conversation: Seq<char>,
    ts: Seq<char>,
) -> spec_fn(Delivery) -> bool {
    |d: Delivery|
        d.project@ == project && option_view(d.team_role) == team_role && d.conversation@
            == conversation && d.ts@ == ts
}

/// A message was handed to a session and is still remembered.
pub open spec fn remembered(
    delivered: Seq<Delivery>,
    project: Seq<char>,
    team_role: Option<Seq<char>>,
    message: SlackMessage,
    now: u64,
) -> bool {
    any(
        delivered,
        |d: Delivery|
            fresh(d, now) && delivery_of(project, team_role, message.conversation@, message.ts@)(d),
    )
}

/// What is remembered once a message was handed to a session: what is still
/// fresh of the rest, and the message.
pub open spec fn after_delivery(
    delivered: Seq<Delivery>,
    project: String,
    team_role: Option<String>,
    message: SlackMessage,
    now: u64,
) -> Seq<Delivery> {
    delivered.filter(
        |d: Delivery|
            fresh(d, now) && !delivery_of(
                project@,
                option_view(team_role),
                message.conversation@,
                message.ts@,
            )(d),
    ).push(
        Delivery {
            project,
            team_role,
            conversation: message.conversation,
            ts: message.ts,
            at: now,
        },
    )
}

/// The subscriptions of one worker.
pub open spec fn owned_by_worker(project: Seq<char>, label: Seq<char>) -> spec_fn(
    SlackSubscription,
) -> bool {
    |sub: SlackSubscription|
        sub.project@ == project && option_view(sub.team_role) == Some(label)
}

/// The subscriptions that are not of one worker.
pub open spec fn not_owned_by_worker(project: Seq<char>, label: Seq<char>) -> spec_fn(
    SlackSubscription,
) -> bool {
    |sub: SlackSubscription| !owned_by_worker(project, label)(sub)
}

/// The subscription `id`, where it belongs to `owner` in `project`.
pub open spec fn owned_subscription(id: u128, project: Seq<char>, owner: Option<Seq<char>>) -> spec_fn(
    SlackSubscription,
) -> bool {
    |sub: SlackSubscription|
        sub.id == id && sub.project@ == project && option_view(sub.team_role) == owner
}

/// Every subscription but `id` where it belongs to `owner` in `project`.
pub open spec fn not_owned_subscription(
    id: u128,
    project: Seq<char>,
    owner: Option<Seq<char>>,
) -> spec_fn(SlackSubscription) -> bool {
    |sub: SlackSubscription| !owned_subscription(id, project, owner)(sub)
}

/// The subscriptions of one project.
pub open spec fn of_project(project: Seq<char>) -> spec_fn(SlackSubscription) -> bool {
    |sub: SlackSubscription| sub.project@ == project
}

/// The subscriptions in one Slack workspace.
pub open spec fn in_workspace(workspace: Seq<char>) -> spec_fn(SlackSubscription) -> bool {
    |sub: SlackSubscription| sub.workspace@ == workspace
}

/// Something watches the Slack workspace `label`.
pub open spec fn watched(subs: Seq<SlackSubscription>, label: Seq<char>) -> bool {
    any(subs, in_workspace(label))
}

/// The draft `id`.
pub open spec fn is_draft(id: u128) -> spec_fn(PendingDraft) -> bool {
    |d: PendingDraft| d.id == id
}

/// The drafts but `id`.
pub open spec fn not_draft(id: u128) -> spec_fn(PendingDraft) -> bool {
    |d: PendingDraft| d.id != id
}

/// The subscriptions to mentions in a Slack workspace.
pub open spec fn mentions_in(workspace: Seq<char>) -> spec_fn(SlackSubscription) -> bool {
    |sub: SlackSubscription| sub.workspace@ == workspace && sub.target is Mentions
}

/// The subscriptions of the owner of `sub` to one conversation.
pub open spec fn covers(
    workspace: Seq<char>,
    conversation: Seq<char>,
    owner: SlackSubscription,
) -> spec_fn(SlackSubscription) -> bool {
    |sub: SlackSubscription|
        sub.workspace@ == workspace && sub.project@ == owner.project@ && option_view(sub.team_role)
            == option_view(owner.team_role) && (sub.target matches
            SlackSubscriptionTarget::Conversation { id, .. } && id@ == conversation)
}

/// Who a conversation that a mention came from is watched for: whoever
/// watches mentions in its workspace, unless they watch it already.
pub open spec fn auto_owner(
    subs: Seq<SlackSubscription>,
    workspace: Seq<char>,
    conversation: Seq<char>,
) -> Option<SlackSubscription> {
    match first_match(subs, mentions_in(workspace)) {
        Some(owner) => if any(subs, covers(workspace, conversation, owner)) {
            None
        } else {
            Some(owner)
        },
        None => None,
    }
}

/// The subscription that watches such a conversation.
pub open spec fn auto_subscription(
    owner: SlackSubscription,
    id: u128,
    workspace: String,
    conversation: String,
    created_at: Timestamp,
) -> SlackSubscription {
    SlackSubscription {
        id,
        workspace,
        project: owner.project,
        team_role: owner.team_role,
        target: SlackSubscriptionTarget::Conversation {
            id: conversation,
            mode: SlackWatchMode::All,
        },
        created_at,
    }
}

/// What asking whether a message is new comes to.
pub open spec fn newly_delivered(
    before: Workspace,
    after: Workspace,
    project: String,
    message: SlackMessage,
    now: u64,
    new: bool,
) -> bool {
    &&& new == !remembered(before.slack.delivered@, project@, None, message, now)
    &&& only_slack(before, after)
    &&& after.slack == (SlackState {
        delivered: after.slack.delivered,
        ..before.slack
    })
    &&& after.slack.delivered@ == after_delivery(
        before.slack.delivered@,
        project,
        None,
        message,
        now,
    )
}

/// What adding a subscription comes to.
pub open spec fn subscribed(
    before: Workspace,
    after: Workspace,
    sub: SlackSubscription,
    durable: bool,
    actions: Vec<Action>,
) -> bool {
    &&& only_subs(before, after)
    &&& after.slack.subs@ == before.slack.subs@.push(sub)
    &&& actions@ == if durable {
        seq![Action::StoreSlackSubscription { sub }]
    } else {
        Seq::<Action>::empty()
    }
}

impl Workspace {
    /// Watch something. A durable subscription is stored as well.
    pub fn add_slack_subscription(&mut self, sub: SlackSubscription, durable: bool) -> (actions:
        Vec<Action>)
        ensures
            subscribed(*old(self), *final(self), sub, durable, actions),
    {
        let mut actions: Vec<Action> = Vec::new();
        if durable {
            actions.push(Action::StoreSlackSubscription { sub: sub.clone() });
        }
        self.slack.subs.push(sub);
        actions
    }

    /// Whether `message` was handed to a session and is still remembered.
    pub fn slack_delivery_seen(
        &self,
        project: &String,
        team_role: &Option<String>,
        message: &SlackMessage,
        now: u64,
    ) -> (seen: bool)
        ensures
            seen == remembered(
                self.slack.delivered@,
                project@,
                option_view(*team_role),
                *message,
                now,
            ),
    {
        let ghost p = |d: Delivery|
            fresh(d, now) && delivery_of(
                project@,
                option_view(*team_role),
                message.conversation@,
                message.ts@,
            )(d);
        let mut i: usize = 0;
        while i < self.slack.delivered.len()
            invariant
                i <= self.slack.delivered@.len(),
                p == (|d: Delivery|
                    fresh(d, now) && delivery_of(
                        project@,
                        option_view(*team_role),
                        message.conversation@,
                        message.ts@,
                    )(d)),
                forall|j: int| 0 <= j < i ==> !p(#[trigger] self.slack.delivered@[j]),
            decreases self.slack.delivered@.len() - i,
        {
            let d = &self.slack.delivered[i];
            if (now < d.at || now - d.at < DELIVERY_REMEMBER) && d.project == *project
                && same_option(&d.team_role, team_role) && d.conversation == message.conversation
                && d.ts == message.ts {
                assert(p(self.slack.delivered@[i as int]));
                return true;
            }
            i = i + 1;
        }
        assert(!any(self.slack.delivered@, p));
        false
    }

    /// Remember that `message` was handed to a session, and forget what is
    /// no longer fresh.
    pub fn slack_delivery_commit(
        &mut self,
        project: &String,
        team_role: &Option<String>,
        message: &SlackMessage,
        now: u64,
    )
        ensures
            only_slack(*old(self), *final(self)),
            final(self).slack == (SlackState {
                delivered: final(self).slack.delivered,
                ..old(self).slack
            }),
            final(self).slack.delivered@ == after_delivery(
                old(self).slack.delivered@,
                *project,
                *team_role,
                *message,
                now,
            ),
    {
        let ghost p = |d: Delivery|
            fresh(d, now) && !delivery_of(
                project@,
                option_view(*team_role),
                message.conversation@,
                message.ts@,
            )(d);
        let ghost before = self.slack.delivered@;
        let ghost whole = *self;
        let ghost mut done: int = 0;
        let mut i: usize = 0;
        proof {
            crate::seqs::lemma_filter_ends(before, p);
            assert(before =~= before.take(0).filter(p) + before.skip(0));
        }
        while i < self.slack.delivered.len()
            invariant
                p == (|d: Delivery|
                    fresh(d, now) && !delivery_of(
                        project@,
                        option_view(*team_role),
                        message.conversation@,
                        message.ts@,
                    )(d)),
                0 <= done <= before.len(),
                i <= self.slack.delivered@.len(),
                self.slack.delivered@.len() - i == before.len() - done,
                i == before.take(done).filter(p).len(),
                self.slack.delivered@ == before.take(done).filter(p) + before.skip(done),
                *self == (Workspace { slack: self.slack, ..whole }),
                self.slack == (SlackState { delivered: self.slack.delivered, ..whole.slack }),
            decreases self.slack.delivered@.len() - i,
        {
            let ghost listed = self.slack.delivered@;
            assert(listed[i as int] == before[done]);
            proof {
                crate::seqs::lemma_filter_step(before, p, done);
            }
            let d = &self.slack.delivered[i];
            let keep = (now < d.at || now - d.at < DELIVERY_REMEMBER) && !(d.project == *project
                && same_option(&d.team_role, team_role) && d.conversation == message.conversation
                && d.ts == message.ts);
            if keep {
                i = i + 1;
            } else {
                let _ = self.slack.delivered.remove(i);
            }
            proof {
                done = done + 1;
                assert(self.slack.delivered@ =~= before.take(done).filter(p) + before.skip(done));
            }
        }
        proof {
            crate::seqs::lemma_filter_ends(before, p);
            assert(self.slack.delivered@ =~= before.filter(p));
        }
        self.slack.delivered.push(
            Delivery {
                project: project.clone(),
                team_role: clone_option(team_role),
                conversation: message.conversation.clone(),
                ts: message.ts.clone(),
                at: now,
            },
        );
    }

    /// Whether `message` has not been handed to a project's lead, and
    /// remember that it is now.
    pub fn slack_delivery_is_new(&mut self, project: &String, message: &SlackMessage, now: u64) -> (
    new: bool)
        ensures
            newly_delivered(*old(self), *final(self), *project, *message, now, new),
    {
        let lead: Option<String> = None;
        let seen = self.slack_delivery_seen(project, &lead, message, now);
        self.slack_delivery_commit(project, &lead, message, now);
        !seen
    }
}

/// A message is remembered once it was handed over, for as long as the limit
/// says, and then it is not.
pub proof fn delivery_is_remembered(
    delivered: Seq<Delivery>,
    project: String,
    team_role: Option<String>,
    message: SlackMessage,
    now: u64,
    later: u64,
)
    requires
        now <= later,
    ensures
        remembered(
            after_delivery(delivered, project, team_role, message, now),
            project@,
            option_view(team_role),
            message,
            later,
        ) == (later - now < DELIVERY_REMEMBER),
{
    let key = delivery_of(project@, option_view(team_role), message.conversation@, message.ts@);
    let keep = |d: Delivery| fresh(d, now) && !key(d);
    let kept = delivered.filter(keep);
    let after = after_delivery(delivered, project, team_role, message, now);
    let p = |d: Delivery| fresh(d, later) && key(d);
    assert(after == kept.push(after.last()));
    crate::seqs::lemma_filter_keeps(delivered, keep);
    if later - now < DELIVERY_REMEMBER {
        assert(p(after[after.len() - 1]));
    } else if any(after, p) {
        let i = choose|i: int| 0 <= i < after.len() && p(#[trigger] after[i]);
        if i < kept.len() {
            assert(keep(kept[i]));
        }
    }
}

/// Handing one message over does not touch what is remembered of another.
pub proof fn delivery_leaves_others(
    delivered: Seq<Delivery>,
    project: String,
    team_role: Option<String>,
    message: SlackMessage,
    now: u64,
    other: SlackMessage,
)
    requires
        other.conversation@ != message.conversation@ || other.ts@ != message.ts@,
    ensures
        remembered(
            after_delivery(delivered, project, team_role, message, now),
            project@,
            option_view(team_role),
            other,
            now,
        ) == remembered(delivered, project@, option_view(team_role), other, now),
{
    let role = option_view(team_role);
    let key = delivery_of(project@, role, message.conversation@, message.ts@);
    let other_key = delivery_of(project@, role, other.conversation@, other.ts@);
    let keep = |d: Delivery| fresh(d, now) && !key(d);
    let kept = delivered.filter(keep);
    let after = after_delivery(delivered, project, team_role, message, now);
    let p = |d: Delivery| fresh(d, now) && other_key(d);
    assert(after == kept.push(after.last()));
    crate::seqs::lemma_filter_keeps(delivered, keep);
    if any(after, p) {
        let i = choose|i: int| 0 <= i < after.len() && p(#[trigger] after[i]);
        assert(i < kept.len());
        assert(delivered.contains(kept[i]));
        let k = choose|k: int| 0 <= k < delivered.len() && delivered[k] == kept[i];
        assert(p(delivered[k]));
    }
    if any(delivered, p) {
        let i = choose|i: int| 0 <= i < delivered.len() && p(#[trigger] delivered[i]);
        assert(keep(delivered[i]));
        crate::seqs::lemma_filter_holds(delivered, keep, i);
        let k = choose|k: int| 0 <= k < kept.len() && kept[k] == delivered[i];
        assert(p(after[k]));
    }
}

/// Who the draft `id` waits for.
pub open spec fn draft_owner(drafts: Seq<PendingDraft>, id: u128) -> Option<SlotId> {
    match first_match(drafts, is_draft(id)) {
        Some(draft) => Some(draft.owner@),
        None => None,
    }
}

/// `after` differs from `before` in its drafts alone.
pub open spec fn only_drafts(before: Workspace, after: Workspace) -> bool {
    only_slack(before, after) && after.slack == (SlackState {
        drafts: after.slack.drafts,
        ..before.slack
    })
}

/// What a mention in a conversation comes to: `after` is the workspace then,
/// `outcome` says whether it is followed from now on, and what is to be done.
pub open spec fn auto_subscribed(
    before: Workspace,
    after: Workspace,
    workspace: String,
    conversation: String,
    since: String,
    id: u128,
    created_at: Timestamp,
    outcome: (bool, Vec<Action>),
) -> bool {
    &&& only_subs(before, after)
    &&& match auto_owner(before.slack.subs@, workspace@, conversation@) {
        Some(owner) => {
            let sub = auto_subscription(
                owner,
                id,
                workspace,
                conversation,
                created_at,
            );
            &&& outcome.0
            &&& after.slack.subs@ == before.slack.subs@.push(sub)
            &&& outcome.1@ == seq![
                Action::SetSlackWatermark {
                    workspace,
                    conversation,
                    ts: since,
                },
                Action::StoreSlackSubscription { sub },
            ]
        },
        None => !outcome.0 && outcome.1@.len() == 0 && after == before,
    }
}

/// What forgetting a worker's subscriptions comes to.
pub open spec fn worker_unsubscribed(
    before: Workspace,
    after: Workspace,
    project_key: String,
    label: String,
    actions: Vec<Action>,
) -> bool {
    &&& only_subs(before, after)
    &&& match before.project_keyed(project_key@) {
        Some(project) => {
            &&& after.slack.subs@ == before.slack.subs@.filter(
                not_owned_by_worker(project.name@, label@),
            )
            &&& actions@ == before.slack.subs@.filter(
                owned_by_worker(project.name@, label@),
            ).map_values(
                |sub: SlackSubscription| Action::DeleteSlackSubscription { id: sub.id },
            )
        },
        None => after.slack.subs == before.slack.subs && actions@.len() == 0,
    }
}

/// What forgetting one subscription comes to.
pub open spec fn unsubscribed(
    before: Workspace,
    after: Workspace,
    project: String,
    id: u128,
    owner: Option<String>,
    removed: bool,
) -> bool {
    &&& only_subs(before, after)
    &&& after.slack.subs@ == before.slack.subs@.filter(
        not_owned_subscription(id, project@, option_view(owner)),
    )
    &&& removed == any(
        before.slack.subs@,
        owned_subscription(id, project@, option_view(owner)),
    )
}

/// What the answer to a draft comes to.
pub open spec fn draft_resolved(
    before: Workspace,
    after: Workspace,
    id: u128,
    caller: SessionSlot,
    answered: bool,
) -> bool {
    &&& answered == (draft_owner(before.slack.drafts@, id) == Some(caller@))
    &&& only_drafts(before, after)
    &&& after.slack.drafts@ == if answered {
        before.slack.drafts@.filter(not_draft(id))
    } else {
        before.slack.drafts@
    }
}

/// What putting a draft to the user comes to.
pub open spec fn draft_registered(
    before: Workspace,
    after: Workspace,
    caller: SessionSlot,
    draft: SlackDraft,
    action: Action,
) -> bool {
    &&& only_drafts(before, after)
    &&& after.slack.drafts@ == before.slack.drafts@.filter(not_draft(draft.id)).push(
        PendingDraft { id: draft.id, owner: caller },
    )
    &&& action == Action::Emit(SessionUpdate::SlackPostPending { key: caller, draft })
}

impl Workspace {
    /// Forget the draft `id`.
    fn drop_draft(&mut self, id: u128)
        ensures
            only_drafts(*old(self), *final(self)),
            final(self).slack.drafts@ == old(self).slack.drafts@.filter(not_draft(id)),
    {
        let ghost p = not_draft(id);
        let ghost before = self.slack.drafts@;
        let ghost whole = *self;
        let ghost mut done: int = 0;
        let mut i: usize = 0;
        proof {
            crate::seqs::lemma_filter_ends(before, p);
            assert(before =~= before.take(0).filter(p) + before.skip(0));
        }
        while i < self.slack.drafts.len()
            invariant
                p == not_draft(id),
                0 <= done <= before.len(),
                i <= self.slack.drafts@.len(),
                self.slack.drafts@.len() - i == before.len() - done,
                i == before.take(done).filter(p).len(),
                self.slack.drafts@ == before.take(done).filter(p) + before.skip(done),
                *self == (Workspace { slack: self.slack, ..whole }),
                self.slack == (SlackState { drafts: self.slack.drafts, ..whole.slack }),
            decreases self.slack.drafts@.len() - i,
        {
            assert(self.slack.drafts@[i as int] == before[done]);
            proof {
                crate::seqs::lemma_filter_step(before, p, done);
            }
            if self.slack.drafts[i].id == id {
                let _ = self.slack.drafts.remove(i);
            } else {
                i = i + 1;
            }
            proof {
                done = done + 1;
                assert(self.slack.drafts@ =~= before.take(done).filter(p) + before.skip(done));
            }
        }
        proof {
            crate::seqs::lemma_filter_ends(before, p);
            assert(self.slack.drafts@ =~= before.filter(p));
        }
    }

    /// Hold a draft for `caller`, and show it to them. Where it cannot be
    /// shown, [`Workspace::slack_draft_unsent`] drops it again.
    pub fn register_slack_draft(&mut self, caller: &SessionSlot, draft: SlackDraft) -> (action:
        Action)
        ensures
            draft_registered(*old(self), *final(self), *caller, draft, action),
    {
        self.drop_draft(draft.id);
        self.slack.drafts.push(PendingDraft { id: draft.id, owner: caller.clone() });
        Action::Emit(SessionUpdate::SlackPostPending { key: caller.clone(), draft })
    }

    /// Drop a draft that nobody can be shown.
    pub fn slack_draft_unsent(&mut self, id: u128)
        ensures
            only_drafts(*old(self), *final(self)),
            final(self).slack.drafts@ == old(self).slack.drafts@.filter(not_draft(id)),
    {
        self.drop_draft(id);
    }

    /// Answer the draft `id` for `caller`. Whether it waited for them: only
    /// then is it answered, and it waits no longer.
    pub fn resolve_slack_draft(&mut self, id: u128, caller: &SessionSlot) -> (answered: bool)
        ensures
            draft_resolved(*old(self), *final(self), id, *caller, answered),
    {
        let ghost p = is_draft(id);
        let mut i: usize = 0;
        while i < self.slack.drafts.len()
            invariant
                p == is_draft(id),
                i <= self.slack.drafts@.len(),
                forall|j: int| 0 <= j < i ==> !p(#[trigger] self.slack.drafts@[j]),
                *self == *old(self),
            decreases self.slack.drafts@.len() - i,
        {
            if self.slack.drafts[i].id == id {
                proof {
                    assert(is_first(self.slack.drafts@, p, i as int));
                    crate::seqs::lemma_first_index_is(self.slack.drafts@, p, i as int);
                }
                if self.slack.drafts[i].owner.same(caller) {
                    self.drop_draft(id);
                    return true;
                }
                return false;
            }
            i = i + 1;
        }
        assert(!any(self.slack.drafts@, p));
        false
    }

    /// Forget what the worker `label` of a project watches, stored or not.
    /// A project that is not configured any more has none to find.
    pub fn remove_slack_subscriptions_for_worker(
        &mut self,
        project_key: &String,
        label: &String,
    ) -> (actions: Vec<Action>)
        ensures
            worker_unsubscribed(*old(self), *final(self), *project_key, *label, actions),
    {
        let mut actions: Vec<Action> = Vec::new();
        let name = match self.project_for_key(project_key) {
            Some(project) => project.name.clone(),
            None => {
                return actions;
            },
        };
        let ghost p = not_owned_by_worker(name@, label@);
        let ghost q = owned_by_worker(name@, label@);
        let ghost to_action = |sub: SlackSubscription| Action::DeleteSlackSubscription {
            id: sub.id,
        };
        let ghost before = self.slack.subs@;
        let ghost whole = *self;
        let ghost mut done: int = 0;
        let mut i: usize = 0;
        proof {
            crate::seqs::lemma_filter_ends(before, p);
            crate::seqs::lemma_filter_ends(before, q);
            assert(before =~= before.take(0).filter(p) + before.skip(0));
            assert(actions@ =~= before.take(0).filter(q).map_values(to_action));
        }
        while i < self.slack.subs.len()
            invariant
                p == not_owned_by_worker(name@, label@),
                q == owned_by_worker(name@, label@),
                to_action == (|sub: SlackSubscription| Action::DeleteSlackSubscription {
                    id: sub.id,
                }),
                0 <= done <= before.len(),
                i <= self.slack.subs@.len(),
                self.slack.subs@.len() - i == before.len() - done,
                i == before.take(done).filter(p).len(),
                self.slack.subs@ == before.take(done).filter(p) + before.skip(done),
                actions@ == before.take(done).filter(q).map_values(to_action),
                *self == (Workspace { slack: self.slack, ..whole }),
                self.slack == (SlackState { subs: self.slack.subs, ..whole.slack }),
            decreases self.slack.subs@.len() - i,
        {
            assert(self.slack.subs@[i as int] == before[done]);
            proof {
                crate::seqs::lemma_filter_step(before, p, done);
                crate::seqs::lemma_filter_step(before, q, done);
            }
            let owned = match &self.slack.subs[i].team_role {
                Some(role) => self.slack.subs[i].project == name && *role == *label,
                None => false,
            };
            let ghost listed = actions@;
            if owned {
                actions.push(Action::DeleteSlackSubscription { id: self.slack.subs[i].id });
                assert(actions@ =~= before.take(done + 1).filter(q).map_values(to_action));
                let _ = self.slack.subs.remove(i);
            } else {
                i = i + 1;
            }
            proof {
                done = done + 1;
                assert(self.slack.subs@ =~= before.take(done).filter(p) + before.skip(done));
            }
        }
        proof {
            crate::seqs::lemma_filter_ends(before, p);
            crate::seqs::lemma_filter_ends(before, q);
            assert(self.slack.subs@ =~= before.filter(p));
        }
        actions
    }

    /// What the sessions of a project watch.
    pub fn slack_subscriptions_for_project(&self, project: &String) -> (subs: Vec<
        SlackSubscription,
    >)
        ensures
            subs@ == self.slack.subs@.filter(of_project(project@)),
    {
        let ghost p = of_project(project@);
        let mut subs: Vec<SlackSubscription> = Vec::new();
        let mut i: usize = 0;
        proof {
            crate::seqs::lemma_filter_ends(self.slack.subs@, p);
        }
        while i < self.slack.subs.len()
            invariant
                p == of_project(project@),
                i <= self.slack.subs@.len(),
                subs@ == self.slack.subs@.take(i as int).filter(p),
            decreases self.slack.subs@.len() - i,
        {
            proof {
                crate::seqs::lemma_filter_step(self.slack.subs@, p, i as int);
            }
            if self.slack.subs[i].project == *project {
                subs.push(self.slack.subs[i].clone());
            }
            i = i + 1;
        }
        proof {
            crate::seqs::lemma_filter_ends(self.slack.subs@, p);
        }
        subs
    }

    /// Forget the subscription `id` of `project` where it is `owner`'s: the
    /// lead's where there is none. Whether it was there; its stored record
    /// then goes too.
    pub fn remove_slack_subscription_owned_by(
        &mut self,
        project: &String,
        id: u128,
        owner: &Option<String>,
    ) -> (removed: bool)
        ensures
            unsubscribed(*old(self), *final(self), *project, id, *owner, removed),
    {
        let ghost q = owned_subscription(id, project@, option_view(*owner));
        let ghost p = not_owned_subscription(id, project@, option_view(*owner));
        let ghost before = self.slack.subs@;
        let ghost whole = *self;
        let ghost mut done: int = 0;
        let mut removed = false;
        let mut i: usize = 0;
        proof {
            crate::seqs::lemma_filter_ends(before, p);
            assert(before =~= before.take(0).filter(p) + before.skip(0));
        }
        while i < self.slack.subs.len()
            invariant
                q == owned_subscription(id, project@, option_view(*owner)),
                p == not_owned_subscription(id, project@, option_view(*owner)),
                0 <= done <= before.len(),
                i <= self.slack.subs@.len(),
                self.slack.subs@.len() - i == before.len() - done,
                i == before.take(done).filter(p).len(),
                self.slack.subs@ == before.take(done).filter(p) + before.skip(done),
                removed == exists|j: int| 0 <= j < done && q(#[trigger] before[j]),
                *self == (Workspace { slack: self.slack, ..whole }),
                self.slack == (SlackState { subs: self.slack.subs, ..whole.slack }),
            decreases self.slack.subs@.len() - i,
        {
            assert(self.slack.subs@[i as int] == before[done]);
            proof {
                crate::seqs::lemma_filter_step(before, p, done);
            }
            if self.slack.subs[i].id == id && self.slack.subs[i].project == *project
                && same_option(&self.slack.subs[i].team_role, owner) {
                assert(q(before[done]));
                removed = true;
                let _ = self.slack.subs.remove(i);
            } else {
                i = i + 1;
            }
            proof {
                done = done + 1;
                assert(self.slack.subs@ =~= before.take(done).filter(p) + before.skip(done));
            }
        }
        proof {
            crate::seqs::lemma_filter_ends(before, p);
            assert(self.slack.subs@ =~= before.filter(p));
        }
        removed
    }

    /// Watch `conversation`, because a mention came from it, for whoever
    /// watches mentions in `workspace`, from the mention at `since` on. The
    /// subscription is called `id` and made at `created_at`. Whether there is
    /// one now that was not there, and what is left to do.
    pub fn auto_subscribe_slack_conversation_as(
        &mut self,
        workspace: &String,
        conversation: &String,
        since: &String,
        id: u128,
        created_at: Timestamp,
    ) -> (outcome: (bool, Vec<Action>))
        ensures
            auto_subscribed(
                *old(self),
                *final(self),
                *workspace,
                *conversation,
                *since,
                id,
                created_at,
                outcome,
            ),
    {
        let ghost p = mentions_in(workspace@);
        let ghost subs = self.slack.subs@;
        let mut actions: Vec<Action> = Vec::new();
        let mut i: usize = 0;
        while i < self.slack.subs.len() && !is_mentions_in(&self.slack.subs[i], workspace)
            invariant
                p == mentions_in(workspace@),
                i <= self.slack.subs@.len(),
                forall|j: int| 0 <= j < i ==> !p(#[trigger] self.slack.subs@[j]),
            decreases self.slack.subs@.len() - i,
        {
            i = i + 1;
        }
        if i == self.slack.subs.len() {
            assert(!any(self.slack.subs@, p));
            return (false, actions);
        }
        proof {
            assert(is_first(subs, p, i as int));
            crate::seqs::lemma_first_index_is(subs, p, i as int);
        }
        let ghost owner = self.slack.subs@[i as int];
        let ghost q = covers(workspace@, conversation@, owner);
        let mut k: usize = 0;
        while k < self.slack.subs.len()
            invariant
                q == covers(workspace@, conversation@, owner),
                i < self.slack.subs@.len(),
                owner == self.slack.subs@[i as int],
                k <= self.slack.subs@.len(),
                forall|j: int| 0 <= j < k ==> !q(#[trigger] self.slack.subs@[j]),
                *self == *old(self),
                auto_owner(self.slack.subs@, workspace@, conversation@) == if any(
                    self.slack.subs@,
                    q,
                ) {
                    None
                } else {
                    Some(owner)
                },
                actions@.len() == 0,
            decreases self.slack.subs@.len() - k,
        {
            if is_covered(&self.slack.subs[k], &self.slack.subs[i], workspace, conversation) {
                assert(q(self.slack.subs@[k as int]));
                return (false, actions);
            }
            k = k + 1;
        }
        assert(!any(self.slack.subs@, q));
        let sub = SlackSubscription {
            id,
            workspace: workspace.clone(),
            project: self.slack.subs[i].project.clone(),
            team_role: clone_option(&self.slack.subs[i].team_role),
            target: SlackSubscriptionTarget::Conversation {
                id: conversation.clone(),
                mode: SlackWatchMode::All,
            },
            created_at,
        };
        actions.push(
            Action::SetSlackWatermark {
                workspace: workspace.clone(),
                conversation: conversation.clone(),
                ts: since.clone(),
            },
        );
        let mut stored = self.add_slack_subscription(sub, true);
        actions.append(&mut stored);
        assert(actions@ =~= seq![
            Action::SetSlackWatermark {
                workspace: *workspace,
                conversation: *conversation,
                ts: *since,
            },
            Action::StoreSlackSubscription { sub },
        ]);
        (true, actions)
    }

    /// Watch `conversation`, because a mention came from it, under a fresh
    /// id.
    pub fn auto_subscribe_slack_conversation(
        &mut self,
        workspace: &String,
        conversation: &String,
        since: &String,
        created_at: Timestamp,
    ) -> (outcome: (bool, Vec<Action>))
        ensures
            only_subs(*old(self), *final(self)),
            match auto_owner(old(self).slack.subs@, workspace@, conversation@) {
                Some(owner) => outcome.0 && exists|id: u128|
                    {
                        let sub = #[trigger] auto_subscription(
                            owner,
                            id,
                            *workspace,
                            *conversation,
                            created_at,
                        );
                        &&& is_v4(id)
                        &&& final(self).slack.subs@ == old(self).slack.subs@.push(sub)
                        &&& outcome.1@ == seq![
                            Action::SetSlackWatermark {
                                workspace: *workspace,
                                conversation: *conversation,
                                ts: *since,
                            },
                            Action::StoreSlackSubscription { sub },
                        ]
                    },
                None => !outcome.0 && outcome.1@.len() == 0 && *final(self) == *old(self),
            },
    {
        let id: u128 = new_v4();
        self.auto_subscribe_slack_conversation_as(workspace, conversation, since, id, created_at)
    }
}

/// Whether `sub` watches mentions in `workspace`.
fn is_mentions_in(sub: &SlackSubscription, workspace: &String) -> (yes: bool)
    ensures
        yes == mentions_in(workspace@)(*sub),
{
    match &sub.target {
        SlackSubscriptionTarget::Mentions => sub.workspace == *workspace,
        _ => false,
    }
}

/// Whether `sub` watches `conversation` for the owner of another one.
fn is_covered(
    sub: &SlackSubscription,
    owner: &SlackSubscription,
    workspace: &String,
    conversation: &String,
) -> (yes: bool)
    ensures
        yes == covers(workspace@, conversation@, *owner)(*sub),
{
    match &sub.target {
        SlackSubscriptionTarget::Conversation { id, .. } => sub.workspace == *workspace
            && sub.project == owner.project && same_option(&sub.team_role, &owner.team_role) && *id
            == *conversation,
        _ => false,
    }
}

/// The session a followed thread is delivered to.
#[derive(Debug, PartialEq, Eq)]
pub struct SlackThreadOwner {
    pub project: String,
    pub team_role: Option<String>,
}

impl Clone for SlackThreadOwner {
    fn clone(&self) -> (copy: Self)
        ensures
            copy == *self,
    {
        SlackThreadOwner {
            project: self.project.clone(),
            team_role: clone_option(&self.team_role),
        }
    }
}

/// What tells one owner from another.
pub open spec fn owner_id(owner: SlackThreadOwner) -> (Seq<char>, Option<Seq<char>>) {
    (owner.project@, option_view(owner.team_role))
}

impl SlackThreadOwner {
    /// Whether two owners are the same.
    pub fn same(&self, other: &SlackThreadOwner) -> (same: bool)
        ensures
            same == (owner_id(*self) == owner_id(*other)),
    {
        self.project == other.project && same_option(&self.team_role, &other.team_role)
    }
}

/// How far a followed thread has been read, and for whom.
#[derive(Debug, PartialEq, Eq)]
pub struct SlackThreadRecord {
    pub cursor: String,
    pub owners: Vec<SlackThreadOwner>,
}

/// A followed thread, by the message it hangs on.
#[derive(Debug, PartialEq, Eq)]
pub struct SlackFollowedThread {
    pub parent_ts: String,
    pub owners: Vec<SlackThreadOwner>,
}

/// `owner` is among `owners`.
pub open spec fn has_owner(owners: Seq<SlackThreadOwner>, owner: SlackThreadOwner) -> bool {
    any(owners, |o: SlackThreadOwner| owner_id(o) == owner_id(owner))
}

/// What following a thread makes of its record.
pub open spec fn thread_followed(
    record: Option<SlackThreadRecord>,
    parent_ts: String,
    owner: SlackThreadOwner,
    followed: SlackThreadRecord,
) -> bool {
    match record {
        Some(record) => followed.cursor == record.cursor && followed.owners@ == if has_owner(
            record.owners@,
            owner,
        ) {
            record.owners@
        } else {
            record.owners@.push(owner)
        },
        None => followed.cursor == parent_ts && followed.owners@ == seq![owner],
    }
}

/// The record of a thread once `owner` follows it too. A new one begins at
/// its parent; one that is there keeps its place.
pub fn follow_slack_thread(
    record: Option<SlackThreadRecord>,
    parent_ts: &String,
    owner: SlackThreadOwner,
) -> (followed: SlackThreadRecord)
    ensures
        thread_followed(record, *parent_ts, owner, followed),
{
    let mut record = match record {
        Some(record) => record,
        None => SlackThreadRecord { cursor: parent_ts.clone(), owners: Vec::new() },
    };
    let ghost p = |o: SlackThreadOwner| owner_id(o) == owner_id(owner);
    let mut known = false;
    let mut i: usize = 0;
    while i < record.owners.len() && !known
        invariant
            i <= record.owners@.len(),
            p == (|o: SlackThreadOwner| owner_id(o) == owner_id(owner)),
            known == exists|j: int| 0 <= j < i && p(#[trigger] record.owners@[j]),
        decreases record.owners@.len() - i,
    {
        if record.owners[i].same(&owner) {
            assert(p(record.owners@[i as int]));
            known = true;
        }
        i = i + 1;
    }
    assert(known == any(record.owners@, p));
    let ghost owners = record.owners@;
    if !known {
        record.owners.push(owner);
        assert(owners.len() == 0 ==> record.owners@ =~= seq![owner]);
    }
    record
}

/// How far a thread has been read, where it is followed.
pub fn slack_thread_watermark(record: Option<SlackThreadRecord>) -> (cursor: Option<String>)
    ensures
        cursor == match record {
            Some(record) => Some(record.cursor),
            None => None,
        },
{
    match record {
        Some(record) => Some(record.cursor),
        None => None,
    }
}

/// The record of a thread that has been read up to `ts`. Its owners stay.
pub fn set_slack_thread_watermark(record: Option<SlackThreadRecord>, ts: &String) -> (advanced:
    SlackThreadRecord)
    ensures
        advanced.cursor == *ts,
        match record {
            Some(record) => advanced.owners == record.owners,
            None => advanced.owners@.len() == 0,
        },
{
    match record {
        Some(record) => SlackThreadRecord { cursor: ts.clone(), owners: record.owners },
        None => SlackThreadRecord { cursor: ts.clone(), owners: Vec::new() },
    }
}

/// An owner still watches something in the Slack workspace `workspace`.
pub open spec fn alive(subs: Seq<SlackSubscription>, workspace: Seq<char>) -> spec_fn(
    SlackThreadOwner,
) -> bool {
    |o: SlackThreadOwner|
        any(
            subs,
            |sub: SlackSubscription|
                sub.workspace@ == workspace && (sub.project@, option_view(sub.team_role))
                    == owner_id(o),
        )
}

/// A followed thread with its record.
pub struct ThreadRow {
    pub parent_ts: String,
    pub record: SlackThreadRecord,
}

/// A thread is still followed: an owner is alive, and it was read lately.
pub open spec fn still_followed(
    subs: Seq<SlackSubscription>,
    workspace: Seq<char>,
    now: u64,
) -> spec_fn(ThreadRow) -> bool {
    |row: ThreadRow|
        any(row.record.owners@, alive(subs, workspace)) && idle_days(row.record.cursor@, now)
            < THREAD_IDLE_DROP_DAYS
}

/// A thread is not followed any more.
pub open spec fn not_followed(
    subs: Seq<SlackSubscription>,
    workspace: Seq<char>,
    now: u64,
) -> spec_fn(ThreadRow) -> bool {
    |row: ThreadRow| !still_followed(subs, workspace, now)(row)
}

/// `listed` holds the rows of `rows`, each with its living owners.
pub open spec fn lists_rows(
    listed: Seq<SlackFollowedThread>,
    rows: Seq<ThreadRow>,
    is_alive: spec_fn(SlackThreadOwner) -> bool,
) -> bool {
    &&& listed.len() == rows.len()
    &&& forall|i: int|
        0 <= i < listed.len() ==> (#[trigger] listed[i]).parent_ts == rows[i].parent_ts
            && listed[i].owners@ == rows[i].record.owners@.filter(is_alive)
}

/// A thread is still followed, and an owner of it watches nothing any more.
pub open spec fn loses_an_owner(
    subs: Seq<SlackSubscription>,
    workspace: Seq<char>,
    now: u64,
) -> spec_fn(ThreadRow) -> bool {
    |row: ThreadRow|
        still_followed(subs, workspace, now)(row) && row.record.owners@.filter(
            alive(subs, workspace),
        ).len() < row.record.owners@.len()
}

/// `pruned` holds the rows of `rows`, each with its living owners and read as
/// far as it was.
pub open spec fn prunes_rows(
    pruned: Seq<ThreadRow>,
    rows: Seq<ThreadRow>,
    is_alive: spec_fn(SlackThreadOwner) -> bool,
) -> bool {
    &&& pruned.len() == rows.len()
    &&& forall|i: int|
        0 <= i < pruned.len() ==> (#[trigger] pruned[i]).parent_ts == rows[i].parent_ts
            && pruned[i].record.cursor == rows[i].record.cursor && pruned[i].record.owners@
            == rows[i].record.owners@.filter(is_alive)
}

/// The followed threads of a conversation, and what becomes of their rows.
pub struct FollowedThreads {
    pub threads: Vec<SlackFollowedThread>,
    /// The rows to write, for owners that are gone from them.
    pub pruned: Vec<ThreadRow>,
    /// The parents of the rows to delete.
    pub dropped: Vec<String>,
}

/// The rows of a conversation once they were listed: those that are still
/// followed, each with its living owners.
pub open spec fn rows_left(
    left: Seq<ThreadRow>,
    rows: Seq<ThreadRow>,
    subs: Seq<SlackSubscription>,
    workspace: Seq<char>,
    now: u64,
) -> bool {
    prunes_rows(
        left,
        rows.filter(still_followed(subs, workspace, now)),
        alive(subs, workspace),
    )
}

/// An owner that watched nothing when the threads were listed is gone from
/// every row that is left, so that watching again later does not bring it
/// back on them.
pub proof fn a_pruned_owner_stays_away(
    rows: Seq<ThreadRow>,
    left: Seq<ThreadRow>,
    subs: Seq<SlackSubscription>,
    later: Seq<SlackSubscription>,
    workspace: Seq<char>,
    now: u64,
    i: int,
    owner: SlackThreadOwner,
)
    requires
        rows_left(left, rows, subs, workspace, now),
        0 <= i < left.len(),
        !alive(subs, workspace)(owner),
    ensures
        !left[i].record.owners@.contains(owner),
        !left[i].record.owners@.filter(alive(later, workspace)).contains(owner),
{
    let followed = rows.filter(still_followed(subs, workspace, now));
    crate::seqs::lemma_filter_keeps(followed[i].record.owners@, alive(subs, workspace));
    crate::seqs::lemma_filter_keeps(left[i].record.owners@, alive(later, workspace));
}

/// Whether `owner` still watches something in `workspace`.
fn owner_alive(subs: &Vec<SlackSubscription>, workspace: &String, owner: &SlackThreadOwner) -> (
yes: bool)
    ensures
        yes == alive(subs@, workspace@)(*owner),
{
    let ghost p = |sub: SlackSubscription|
        sub.workspace@ == workspace@ && (sub.project@, option_view(sub.team_role)) == owner_id(
            *owner,
        );
    let mut i: usize = 0;
    while i < subs.len()
        invariant
            i <= subs@.len(),
            p == (|sub: SlackSubscription|
                sub.workspace@ == workspace@ && (sub.project@, option_view(sub.team_role))
                    == owner_id(*owner)),
            forall|j: int| 0 <= j < i ==> !p(#[trigger] subs@[j]),
        decreases subs@.len() - i,
    {
        if subs[i].workspace == *workspace && subs[i].project == owner.project && same_option(
            &subs[i].team_role,
            &owner.team_role,
        ) {
            assert(p(subs@[i as int]));
            return true;
        }
        i = i + 1;
    }
    assert(!any(subs@, p));
    false
}

/// The owners that still watch something in `workspace`.
fn living_owners(
    subs: &Vec<SlackSubscription>,
    workspace: &String,
    owners: &Vec<SlackThreadOwner>,
) -> (living: Vec<SlackThreadOwner>)
    ensures
        living@ == owners@.filter(alive(subs@, workspace@)),
{
    let ghost p = alive(subs@, workspace@);
    let mut living: Vec<SlackThreadOwner> = Vec::new();
    let mut i: usize = 0;
    proof {
        crate::seqs::lemma_filter_ends(owners@, p);
    }
    while i < owners.len()
        invariant
            i <= owners@.len(),
            p == alive(subs@, workspace@),
            living@ == owners@.take(i as int).filter(p),
        decreases owners@.len() - i,
    {
        proof {
            crate::seqs::lemma_filter_step(owners@, p, i as int);
        }
        if owner_alive(subs, workspace, &owners[i]) {
            living.push(owners[i].clone());
        }
        i = i + 1;
    }
    proof {
        crate::seqs::lemma_filter_ends(owners@, p);
    }
    living
}

/// What is followed of a workspace's threads, and what is not any more.
pub open spec fn threads_followed(
    this: Workspace,
    workspace: String,
    rows: Vec<ThreadRow>,
    now: u64,
    followed: FollowedThreads,
) -> bool {
    &&& lists_rows(
        followed.threads@,
        rows@.filter(still_followed(this.slack.subs@, workspace@, now)),
        alive(this.slack.subs@, workspace@),
    )
    &&& prunes_rows(
        followed.pruned@,
        rows@.filter(loses_an_owner(this.slack.subs@, workspace@, now)),
        alive(this.slack.subs@, workspace@),
    )
    &&& followed.dropped@ == rows@.filter(
        not_followed(this.slack.subs@, workspace@, now),
    ).map_values(|row: ThreadRow| row.parent_ts)
}

/// What starting the pollers comes to.
pub open spec fn slack_started(
    before: Workspace,
    after: Workspace,
    workspaces: SlackWorkspaces,
    actions: Vec<Action>,
) -> bool {
    &&& only_slack(before, after)
    &&& after.slack == (SlackState {
        running: after.slack.running,
        ..before.slack
    })
    &&& after.slack.running@ == before.slack.running@ + to_start(
        before,
        workspaces,
    )
    &&& actions@ == to_start(before, workspaces).map_values(
        |label: String| Action::StartSlackWorkspace {
            label,
            poll_seconds: poll_seconds(before.slack.configs@, label@),
        },
    )
}

/// What stopping the idle pollers comes to.
pub open spec fn slack_stopped(
    before: Workspace,
    after: Workspace,
    actions: Vec<Action>,
) -> bool {
    &&& only_slack(before, after)
    &&& after.slack == (SlackState {
        running: after.slack.running,
        connected: after.slack.connected,
        ..before.slack
    })
    &&& after.slack.running@ == before.slack.running@.filter(
        is_watched_label(before.slack.subs@),
    )
    &&& actions@ == idle_labels(before.slack).map_values(
        |label: String| Action::StopSlackWorkspace { label },
    )
    &&& after.slack.connected@ == disconnected(
        before.slack.connected@,
        idle_labels(before.slack),
    )
}

/// What beginning to verify the workspaces comes to.
pub open spec fn verification_begun(
    before: Workspace,
    after: Workspace,
    workspaces: SlackWorkspaces,
    start: bool,
) -> bool {
    &&& start == (workspaces.clients.entries@.len() > 0 && !before.slack.verification_started)
    &&& after == (Workspace {
        slack: SlackState {
            verification_started: before.slack.verification_started
                || workspaces.clients.entries@.len() > 0,
            ..before.slack
        },
        ..before
    })
}

impl Workspace {
    /// The threads of a conversation that are still followed, each with the
    /// owners that still watch something in `workspace`; the rows of those
    /// that lose an owner, to write; and the parents of the threads that are
    /// not followed any more: their rows go. `now` is in seconds.
    pub fn slack_followed_threads(&self, workspace: &String, rows: &Vec<ThreadRow>, now: u64) -> (
    followed: FollowedThreads)
        ensures
            threads_followed(*self, *workspace, *rows, now, followed),
    {
        let ghost p = still_followed(self.slack.subs@, workspace@, now);
        let ghost q = not_followed(self.slack.subs@, workspace@, now);
        let ghost r = loses_an_owner(self.slack.subs@, workspace@, now);
        let ghost is_alive = alive(self.slack.subs@, workspace@);
        let ghost parent = |row: ThreadRow| row.parent_ts;
        let mut listed: Vec<SlackFollowedThread> = Vec::new();
        let mut pruned: Vec<ThreadRow> = Vec::new();
        let mut dropped: Vec<String> = Vec::new();
        let mut i: usize = 0;
        proof {
            crate::seqs::lemma_filter_ends(rows@, p);
            crate::seqs::lemma_filter_ends(rows@, q);
            crate::seqs::lemma_filter_ends(rows@, r);
            assert(dropped@ =~= rows@.take(0).filter(q).map_values(parent));
        }
        while i < rows.len()
            invariant
                i <= rows@.len(),
                p == still_followed(self.slack.subs@, workspace@, now),
                q == not_followed(self.slack.subs@, workspace@, now),
                r == loses_an_owner(self.slack.subs@, workspace@, now),
                is_alive == alive(self.slack.subs@, workspace@),
                parent == (|row: ThreadRow| row.parent_ts),
                lists_rows(listed@, rows@.take(i as int).filter(p), is_alive),
                prunes_rows(pruned@, rows@.take(i as int).filter(r), is_alive),
                dropped@ == rows@.take(i as int).filter(q).map_values(parent),
            decreases rows@.len() - i,
        {
            proof {
                crate::seqs::lemma_filter_step(rows@, p, i as int);
                crate::seqs::lemma_filter_step(rows@, q, i as int);
                crate::seqs::lemma_filter_step(rows@, r, i as int);
            }
            let row = &rows[i];
            let living = living_owners(&self.slack.subs, workspace, &row.record.owners);
            proof {
                let owners = row.record.owners@;
                crate::seqs::lemma_filter_keeps(owners, is_alive);
                if any(owners, is_alive) {
                    let k = choose|k: int| 0 <= k < owners.len() && is_alive(#[trigger] owners[k]);
                    crate::seqs::lemma_filter_holds(owners, is_alive, k);
                } else {
                    crate::seqs::lemma_filter_none(owners, is_alive);
                }
                assert((living@.len() > 0) == any(owners, is_alive)) by {
                    if living@.len() > 0 {
                        assert(is_alive(owners.filter(is_alive)[0]));
                    }
                }
            }
            if living.len() == 0 || thread_idle_days(row.record.cursor.as_str(), now)
                >= THREAD_IDLE_DROP_DAYS {
                dropped.push(row.parent_ts.clone());
                assert(dropped@ =~= rows@.take(i + 1).filter(q).map_values(parent));
            } else {
                if living.len() < row.record.owners.len() {
                    pruned.push(
                        ThreadRow {
                            parent_ts: row.parent_ts.clone(),
                            record: SlackThreadRecord {
                                cursor: row.record.cursor.clone(),
                                owners: living_owners(
                                    &self.slack.subs,
                                    workspace,
                                    &row.record.owners,
                                ),
                            },
                        },
                    );
                }
                listed.push(
                    SlackFollowedThread { parent_ts: row.parent_ts.clone(), owners: living },
                );
            }
            i = i + 1;
        }
        proof {
            crate::seqs::lemma_filter_ends(rows@, p);
            crate::seqs::lemma_filter_ends(rows@, q);
            crate::seqs::lemma_filter_ends(rows@, r);
        }
        FollowedThreads { threads: listed, pruned, dropped }
    }

    /// Whether each poller that reported has a connection, by label.
    pub fn slack_connected_workspaces(&self) -> (connected: TextMap<bool>)
        requires
            self.wf(),
        ensures
            connected.wf(),
            connected@ == self.slack.connected@,
            connected.entries@ == self.slack.connected.entries@,
    {
        let mut entries: Vec<(String, bool)> = Vec::new();
        let mut i: usize = 0;
        while i < self.slack.connected.entries.len()
            invariant
                i <= self.slack.connected.entries@.len(),
                entries@ == self.slack.connected.entries@.take(i as int),
            decreases self.slack.connected.entries@.len() - i,
        {
            let entry = &self.slack.connected.entries[i];
            entries.push((entry.0.clone(), entry.1));
            i = i + 1;
            assert(entries@ =~= self.slack.connected.entries@.take(i as int));
        }
        assert(entries@ =~= self.slack.connected.entries@);
        let connected = TextMap { entries };
        assert(connected@ =~= self.slack.connected@);
        connected
    }

    /// Note whether the poller of `workspace` has a connection.
    pub fn set_slack_connected(&mut self, workspace: &String, connected: bool)
        requires
            old(self).wf(),
        ensures
            final(self).wf(),
            only_slack(*old(self), *final(self)),
            final(self).slack == (SlackState {
                connected: final(self).slack.connected,
                ..old(self).slack
            }),
            final(self).slack.connected@ == old(self).slack.connected@.insert(
                workspace@,
                connected,
            ),
    {
        self.slack.connected.insert(workspace.clone(), connected);
    }

    /// Note the user that the token of `label` was proved to be.
    pub fn note_slack_user(&mut self, label: &String, user_id: String)
        requires
            old(self).wf(),
        ensures
            final(self).wf(),
            only_slack(*old(self), *final(self)),
            final(self).slack == (SlackState {
                user_ids: final(self).slack.user_ids,
                ..old(self).slack
            }),
            final(self).slack.user_ids@ == old(self).slack.user_ids@.insert(label@, user_id),
    {
        self.slack.user_ids.insert(label.clone(), user_id);
    }

    /// Whether the tokens are to be proved: once, and only where there are
    /// any.
    pub fn start_slack_verification(&mut self, workspaces: &SlackWorkspaces) -> (start: bool)
        ensures
            verification_begun(*old(self), *final(self), *workspaces, start),
    {
        if workspaces.is_empty() || self.slack.verification_started {
            return false;
        }
        self.slack.verification_started = true;
        true
    }

    /// Whether something watches the Slack workspace `label`.
    fn is_watched(&self, label: &String) -> (yes: bool)
        ensures
            yes == watched(self.slack.subs@, label@),
    {
        let ghost p = in_workspace(label@);
        let mut i: usize = 0;
        while i < self.slack.subs.len()
            invariant
                i <= self.slack.subs@.len(),
                p == in_workspace(label@),
                forall|j: int| 0 <= j < i ==> !p(#[trigger] self.slack.subs@[j]),
            decreases self.slack.subs@.len() - i,
        {
            if self.slack.subs[i].workspace == *label {
                assert(p(self.slack.subs@[i as int]));
                return true;
            }
            i = i + 1;
        }
        assert(!any(self.slack.subs@, p));
        false
    }

    /// Whether the poller of `label` runs.
    fn is_running(&self, label: &String) -> (yes: bool)
        ensures
            yes == runs(self.slack.running@, label@),
    {
        let ghost p = |l: String| l@ == label@;
        let mut i: usize = 0;
        while i < self.slack.running.len()
            invariant
                i <= self.slack.running@.len(),
                p == (|l: String| l@ == label@),
                forall|j: int| 0 <= j < i ==> !p(#[trigger] self.slack.running@[j]),
            decreases self.slack.running@.len() - i,
        {
            if self.slack.running[i] == *label {
                assert(p(self.slack.running@[i as int]));
                return true;
            }
            i = i + 1;
        }
        assert(!any(self.slack.running@, p));
        false
    }

    /// How often the Slack workspace `label` is polled.
    fn poll_seconds_for(&self, label: &String) -> (seconds: u64)
        ensures
            seconds == poll_seconds(self.slack.configs@, label@),
    {
        let ghost p = entry_of(label@);
        let mut i: usize = 0;
        while i < self.slack.configs.len()
            invariant
                i <= self.slack.configs@.len(),
                p == entry_of(label@),
                forall|j: int| 0 <= j < i ==> !p(#[trigger] self.slack.configs@[j]),
            decreases self.slack.configs@.len() - i,
        {
            let trimmed_label = trim(self.slack.configs[i].workspace.as_str());
            if trimmed_label == *label {
                proof {
                    assert(is_first(self.slack.configs@, p, i as int));
                    crate::seqs::lemma_first_index_is(self.slack.configs@, p, i as int);
                }
                return self.slack.configs[i].poll_seconds;
            }
            i = i + 1;
        }
        assert(!any(self.slack.configs@, p));
        DEFAULT_POLL_SECONDS
    }

    /// Start a poller for each configured Slack workspace that something
    /// watches and that has none, in the order of the labels.
    pub fn start_slack_subsystem(&mut self, workspaces: &SlackWorkspaces) -> (actions: Vec<Action>)
        requires
            workspaces.wf(),
        ensures
            slack_started(*old(self), *final(self), *workspaces, actions),
    {
        let labels = workspaces.labels();
        let ghost before = *self;
        let ghost p = startable(before);
        let ghost to_action = |label: String| Action::StartSlackWorkspace {
            label,
            poll_seconds: poll_seconds(before.slack.configs@, label@),
        };
        let mut actions: Vec<Action> = Vec::new();
        let mut i: usize = 0;
        proof {
            crate::seqs::lemma_filter_ends(labels@, p);
            assert(self.slack.running@ =~= before.slack.running@ + labels@.take(0).filter(p));
            assert(actions@ =~= labels@.take(0).filter(p).map_values(to_action));
        }
        while i < labels.len()
            invariant
                i <= labels@.len(),
                p == startable(before),
                to_action == (|label: String| Action::StartSlackWorkspace {
                    label,
                    poll_seconds: poll_seconds(before.slack.configs@, label@),
                }),
                forall|a: int, b: int|
                    0 <= a < b < labels@.len() ==> text_less(
                        (#[trigger] labels@[a])@,
                        (#[trigger] labels@[b])@,
                    ),
                *self == (Workspace { slack: self.slack, ..before }),
                self.slack == (SlackState { running: self.slack.running, ..before.slack }),
                self.slack.running@ == before.slack.running@ + labels@.take(i as int).filter(p),
                actions@ == labels@.take(i as int).filter(p).map_values(to_action),
            decreases labels@.len() - i,
        {
            let label = &labels[i];
            proof {
                crate::seqs::lemma_filter_step(labels@, p, i as int);
                lemma_not_started_yet(before.slack.running@, labels@, p, i as int);
            }
            if self.is_watched(label) && !self.is_running(label) {
                self.slack.running.push(label.clone());
                actions.push(
                    Action::StartSlackWorkspace {
                        label: label.clone(),
                        poll_seconds: self.poll_seconds_for(label),
                    },
                );
                proof {
                    assert(self.slack.running@ =~= before.slack.running@ + labels@.take(
                        i + 1,
                    ).filter(p));
                    assert(actions@ =~= labels@.take(i + 1).filter(p).map_values(to_action));
                }
            }
            i = i + 1;
        }
        proof {
            crate::seqs::lemma_filter_ends(labels@, p);
        }
        actions
    }

    /// Stop the pollers of the Slack workspaces that nothing watches, and
    /// note that they have no connection.
    pub fn stop_slack_subsystem_if_idle(&mut self) -> (actions: Vec<Action>)
        requires
            old(self).wf(),
        ensures
            final(self).wf(),
            slack_stopped(*old(self), *final(self), actions),
    {
        let ghost before = *self;
        let ghost p = is_watched_label(before.slack.subs@);
        let ghost q = is_idle_label(before.slack.subs@);
        let ghost all = before.slack.running@;
        let ghost to_action = |label: String| Action::StopSlackWorkspace { label };
        let mut actions: Vec<Action> = Vec::new();
        let ghost mut done: int = 0;
        let mut i: usize = 0;
        proof {
            crate::seqs::lemma_filter_ends(all, p);
            crate::seqs::lemma_filter_ends(all, q);
            assert(self.slack.running@ =~= all.take(0).filter(p) + all.skip(0));
            assert(actions@ =~= all.take(0).filter(q).map_values(to_action));
        }
        while i < self.slack.running.len()
            invariant
                p == is_watched_label(before.slack.subs@),
                q == is_idle_label(before.slack.subs@),
                all == before.slack.running@,
                to_action == (|label: String| Action::StopSlackWorkspace { label }),
                0 <= done <= all.len(),
                i <= self.slack.running@.len(),
                self.slack.running@.len() - i == all.len() - done,
                i == all.take(done).filter(p).len(),
                self.slack.running@ == all.take(done).filter(p) + all.skip(done),
                actions@ == all.take(done).filter(q).map_values(to_action),
                self.slack.connected.wf(),
                self.slack.connected@ == disconnected(
                    before.slack.connected@,
                    all.take(done).filter(q),
                ),
                *self == (Workspace { slack: self.slack, ..before }),
                self.slack == (SlackState {
                    running: self.slack.running,
                    connected: self.slack.connected,
                    ..before.slack
                }),
            decreases self.slack.running@.len() - i,
        {
            assert(self.slack.running@[i as int] == all[done]);
            proof {
                crate::seqs::lemma_filter_step(all, p, done);
                crate::seqs::lemma_filter_step(all, q, done);
            }
            let label = self.slack.running[i].clone();
            if self.is_watched(&label) {
                i = i + 1;
            } else {
                let ghost idle = all.take(done).filter(q);
                self.slack.connected.insert(label.clone(), false);
                proof {
                    assert(all.take(done + 1).filter(q) == idle.push(label));
                    assert(idle.push(label).drop_last() =~= idle);
                }
                actions.push(Action::StopSlackWorkspace { label });
                assert(actions@ =~= all.take(done + 1).filter(q).map_values(to_action));
                let _ = self.slack.running.remove(i);
            }
            proof {
                done = done + 1;
                assert(self.slack.running@ =~= all.take(done).filter(p) + all.skip(done));
            }
        }
        proof {
            crate::seqs::lemma_filter_ends(all, p);
            crate::seqs::lemma_filter_ends(all, q);
            assert(self.slack.running@ =~= all.filter(p));
        }
        actions
    }
}

/// The poller of `label` runs.
pub open spec fn runs(running: Seq<String>, label: Seq<char>) -> bool {
    any(running, |l: String| l@ == label)
}

/// The entries of the Slack workspace `label`.
pub open spec fn entry_of(label: Seq<char>) -> spec_fn(SlackConfig) -> bool {
    |c: SlackConfig| trimmed(c.workspace@) == label
}

/// How often the Slack workspace `label` is polled.
pub open spec fn poll_seconds(configs: Seq<SlackConfig>, label: Seq<char>) -> u64 {
    match first_match(configs, entry_of(label)) {
        Some(config) => config.poll_seconds,
        None => DEFAULT_POLL_SECONDS,
    }
}

/// A Slack workspace that something watches and that has no poller.
pub open spec fn startable(workspace: Workspace) -> spec_fn(String) -> bool {
    |label: String|
        watched(workspace.slack.subs@, label@) && !runs(workspace.slack.running@, label@)
}

/// The configured Slack workspaces to start a poller for.
pub open spec fn to_start(workspace: Workspace, configured: SlackWorkspaces) -> Seq<String> {
    configured.clients.entries@.map_values(|entry: (String, String)| entry.0).filter(
        startable(workspace),
    )
}

/// A label that something watches.
pub open spec fn is_watched_label(subs: Seq<SlackSubscription>) -> spec_fn(String) -> bool {
    |label: String| watched(subs, label@)
}

/// A label that nothing watches.
pub open spec fn is_idle_label(subs: Seq<SlackSubscription>) -> spec_fn(String) -> bool {
    |label: String| !watched(subs, label@)
}

/// The pollers that run for nothing.
pub open spec fn idle_labels(slack: SlackState) -> Seq<String> {
    slack.running.view().filter(is_idle_label(slack.subs@))
}

/// What is known of connections once the pollers of `labels` are stopped.
pub open spec fn disconnected(connected: Map<Seq<char>, bool>, labels: Seq<String>) -> Map<
    Seq<char>,
    bool,
>
    decreases labels.len(),
{
    if labels.len() == 0 {
        connected
    } else {
        disconnected(connected, labels.drop_last()).insert(labels.last()@, false)
    }
}

/// A label is not among those before it in order.
proof fn lemma_not_started_yet(
    running: Seq<String>,
    labels: Seq<String>,
    p: spec_fn(String) -> bool,
    i: int,
)
    requires
        0 <= i < labels.len(),
        forall|a: int, b: int|
            0 <= a < b < labels.len() ==> text_less(
                (#[trigger] labels[a])@,
                (#[trigger] labels[b])@,
            ),
    ensures
        runs(running + labels.take(i).filter(p), labels[i]@) == runs(running, labels[i]@),
{
    let q = |l: String| l@ == labels[i]@;
    let started = labels.take(i).filter(p);
    let all = running + started;
    crate::seqs::lemma_filter_keeps(labels.take(i), p);
    if any(all, q) {
        let k = choose|k: int| 0 <= k < all.len() && q(#[trigger] all[k]);
        if k >= running.len() {
            let m = k - running.len();
            assert(all[k] == started[m]);
            assert(labels.take(i).contains(started[m]));
            let n = choose|n: int| 0 <= n < i && labels.take(i)[n] == started[m];
            assert(text_less(labels[n]@, labels[i]@));
            crate::order::lemma_irreflexive(labels[i]@);
        } else {
            assert(q(running[k]));
        }
    }
    if any(running, q) {
        let k = choose|k: int| 0 <= k < running.len() && q(#[trigger] running[k]);
        assert(q(all[k]));
    }
}

/// What a poller sees of the workspace, which may be gone.
pub struct SlackSubsystemHost<'a> {
    pub workspace: Option<&'a Workspace>,
}

impl<'a> SlackSubsystemHost<'a> {
    pub fn new(workspace: Option<&'a Workspace>) -> (host: Self)
        ensures
            host.workspace == workspace,
    {
        SlackSubsystemHost { workspace }
    }

    /// The token to call the Slack workspace `label` with.
    pub fn client(&self, label: &String) -> (token: Result<&'a String, String>)
        ensures
            match (self.workspace, token) {
                (None, Err(message)) => message@ == "the workspace is gone"@,
                (Some(workspace), Ok(token)) => first_match(
                    workspace.slack.configs@,
                    entry_of(label@),
                ) matches Some(config) && config.token == *token,
                (Some(workspace), Err(message)) => first_match(
                    workspace.slack.configs@,
                    entry_of(label@),
                ) is None && message@ == "no [[slack]] entry named '"@ + label@ + "'"@,
                (None, Ok(_)) => false,
            },
    {
        let workspace = match self.workspace {
            Some(workspace) => workspace,
            None => {
                return Err("the workspace is gone".to_owned());
            },
        };
        let ghost p = entry_of(label@);
        let mut i: usize = 0;
        while i < workspace.slack.configs.len()
            invariant
                i <= workspace.slack.configs@.len(),
                p == entry_of(label@),
                self.workspace == Some(workspace),
                forall|j: int| 0 <= j < i ==> !p(#[trigger] workspace.slack.configs@[j]),
            decreases workspace.slack.configs@.len() - i,
        {
            let trimmed_label = trim(workspace.slack.configs[i].workspace.as_str());
            if trimmed_label == *label {
                proof {
                    assert(is_first(workspace.slack.configs@, p, i as int));
                    crate::seqs::lemma_first_index_is(workspace.slack.configs@, p, i as int);
                }
                return Ok(&workspace.slack.configs[i].token);
            }
            i = i + 1;
        }
        assert(!any(workspace.slack.configs@, p));
        Err(around("no [[slack]] entry named '", label, "'"))
    }

    /// The user that the token of `label` belongs to.
    pub fn user_id(&self, label: &String) -> (user: Option<String>)
        requires
            self.workspace matches Some(workspace) ==> workspace.wf(),
        ensures
            user == match self.workspace {
                Some(workspace) => if workspace.slack.user_ids@.dom().contains(label@) {
                    Some(workspace.slack.user_ids@[label@])
                } else {
                    None
                },
                None => None,
            },
    {
        match self.workspace {
            Some(workspace) => match workspace.slack.user_ids.get(label) {
                Some(user) => Some(user.clone()),
                None => None,
            },
            None => None,
        }
    }

    /// What is watched in the Slack workspace `label`.
    pub fn subscriptions(&self, label: &String) -> (subs: Vec<SlackSubscription>)
        ensures
            subs@ == match self.workspace {
                Some(workspace) => workspace.slack.subs@.filter(in_workspace(label@)),
                None => Seq::<SlackSubscription>::empty(),
            },
    {
        let mut subs: Vec<SlackSubscription> = Vec::new();
        let workspace = match self.workspace {
            Some(workspace) => workspace,
            None => {
                return subs;
            },
        };
        let ghost p = in_workspace(label@);
        let ghost all = workspace.slack.subs@;
        let mut i: usize = 0;
        proof {
            crate::seqs::lemma_filter_ends(all, p);
        }
        while i < workspace.slack.subs.len()
            invariant
                p == in_workspace(label@),
                all == workspace.slack.subs@,
                i <= all.len(),
                subs@ == all.take(i as int).filter(p),
            decreases all.len() - i,
        {
            proof {
                crate::seqs::lemma_filter_step(all, p, i as int);
            }
            if workspace.slack.subs[i].workspace == *label {
                subs.push(workspace.slack.subs[i].clone());
            }
            i = i + 1;
        }
        proof {
            crate::seqs::lemma_filter_ends(all, p);
        }
        subs
    }
}

/// A draft is answered once: after an answer it waits for nobody, and other
/// drafts wait as they did.
pub proof fn draft_is_answered_once(drafts: Seq<PendingDraft>, id: u128, other: u128)
    requires
        other != id,
    ensures
        draft_owner(drafts.filter(not_draft(id)), id) is None,
        draft_owner(drafts.filter(not_draft(id)), other) == draft_owner(drafts, other),
    decreases drafts.len(),
{
    let p = not_draft(id);
    let kept = drafts.filter(p);
    crate::seqs::lemma_filter_keeps(drafts, p);
    if any(kept, is_draft(id)) {
        let k = choose|k: int| 0 <= k < kept.len() && is_draft(id)(#[trigger] kept[k]);
        assert(p(kept[k]));
    }
    crate::seqs::lemma_filter_first(drafts, p, is_draft(other));
}

/// A draft that was registered waits for the session that asked, and for no
/// other.
pub proof fn draft_waits_for_its_caller(drafts: Seq<PendingDraft>, id: u128, caller: SessionSlot)
    ensures
        draft_owner(drafts.filter(not_draft(id)).push(PendingDraft { id, owner: caller }), id)
            == Some(caller@),
{
    let p = not_draft(id);
    let kept = drafts.filter(p);
    let after = kept.push(PendingDraft { id, owner: caller });
    let q = is_draft(id);
    crate::seqs::lemma_filter_keeps(drafts, p);
    assert(is_first(after, q, kept.len() as int)) by {
        assert forall|j: int| 0 <= j < kept.len() implies !q(#[trigger] after[j]) by {
            assert(p(kept[j]));
        }
    }
    crate::seqs::lemma_first_index_is(after, q, kept.len() as int);
}

/// A conversation that was just put under watch is not put there again.
pub proof fn auto_subscription_is_not_repeated(
    subs: Seq<SlackSubscription>,
    owner: SlackSubscription,
    id: u128,
    workspace: String,
    conversation: String,
    created_at: Timestamp,
)
    requires
        auto_owner(subs, workspace@, conversation@) == Some(owner),
    ensures
        auto_owner(
            subs.push(auto_subscription(owner, id, workspace, conversation, created_at)),
            workspace@,
            conversation@,
        ) is None,
{
    let sub = auto_subscription(owner, id, workspace, conversation, created_at);
    let after = subs.push(sub);
    let p = mentions_in(workspace@);
    crate::seqs::lemma_first_exists(subs, p);
    let f = first_index(subs, p)->0;
    assert(is_first(after, p, f)) by {
        assert forall|j: int| 0 <= j < f implies !p(#[trigger] after[j]) by {
            assert(!p(subs[j]));
        }
    }
    crate::seqs::lemma_first_index_is(after, p, f);
    assert(covers(workspace@, conversation@, owner)(after[subs.len() as int]));
}

/// After the idle pollers are stopped every poller that runs has something to
/// watch, and one that had something to watch still runs.
pub proof fn stop_leaves_watched_running(slack: SlackState, label: Seq<char>)
    ensures
        runs(slack.running@.filter(is_watched_label(slack.subs@)), label) == (runs(
            slack.running@,
            label,
        ) && watched(slack.subs@, label)),
{
    let p = is_watched_label(slack.subs@);
    let all = slack.running@;
    let kept = all.filter(p);
    let q = |l: String| l@ == label;
    crate::seqs::lemma_filter_keeps(all, p);
    if any(kept, q) {
        let k = choose|k: int| 0 <= k < kept.len() && q(#[trigger] kept[k]);
        assert(p(kept[k]));
        assert(all.contains(kept[k]));
        let m = choose|m: int| 0 <= m < all.len() && all[m] == kept[k];
        assert(q(all[m]));
    }
    if any(all, q) && watched(slack.subs@, label) {
        let m = choose|m: int| 0 <= m < all.len() && q(#[trigger] all[m]);
        assert(p(all[m]));
        crate::seqs::lemma_filter_holds(all, p, m);
        let k = choose|k: int| 0 <= k < kept.len() && kept[k] == all[m];
        assert(q(kept[k]));
    }
}

/// Forgetting what a worker watches leaves nothing of theirs, and everything
/// of everyone else's.
pub proof fn removal_is_scoped_to_the_worker(
    subs: Seq<SlackSubscription>,
    project: Seq<char>,
    label: Seq<char>,
)
    ensures
        !any(subs.filter(not_owned_by_worker(project, label)), owned_by_worker(project, label)),
        forall|i: int|
            0 <= i < subs.len() && !owned_by_worker(project, label)(#[trigger] subs[i])
                ==> subs.filter(not_owned_by_worker(project, label)).contains(subs[i]),
{
    let p = not_owned_by_worker(project, label);
    crate::seqs::lemma_filter_keeps(subs, p);
    let kept = subs.filter(p);
    if any(kept, owned_by_worker(project, label)) {
        let k = choose|k: int|
            0 <= k < kept.len() && owned_by_worker(project, label)(#[trigger] kept[k]);
        assert(p(kept[k]));
    }
    assert forall|i: int|
        0 <= i < subs.len() && !owned_by_worker(project, label)(
            #[trigger] subs[i],
        ) implies subs.filter(p).contains(subs[i]) by {
        crate::seqs::lemma_filter_holds(subs, p, i);
    }
}

/// A message was delivered to an owner in the last five minutes exactly where
/// the log holds it: under that project and role, with its conversation and
/// its time stamp.
pub proof fn what_is_remembered_is_in_the_log(
    delivered: Seq<Delivery>,
    project: Seq<char>,
    team_role: Option<Seq<char>>,
    message: SlackMessage,
    now: u64,
)
    ensures
        remembered(delivered, project, team_role, message, now) <==> exists|i: int|
            {
                &&& 0 <= i < delivered.len()
                &&& (#[trigger] delivered[i]).project@ == project
                &&& (match delivered[i].team_role {
                    Some(role) => team_role == Some(role@),
                    None => team_role is None,
                })
                &&& delivered[i].conversation@ == message.conversation@
                &&& delivered[i].ts@ == message.ts@
                &&& now - delivered[i].at < 300 * 1_000_000_000
            },
{
    let p = |d: Delivery|
        fresh(d, now) && delivery_of(project, team_role, message.conversation@, message.ts@)(d);
    if any(delivered, p) {
        let i = choose|i: int| 0 <= i < delivered.len() && p(#[trigger] delivered[i]);
        assert(delivered[i].project@ == project);
    }
    if exists|i: int|
        {
            &&& 0 <= i < delivered.len()
            &&& (#[trigger] delivered[i]).project@ == project
            &&& (match delivered[i].team_role {
                Some(role) => team_role == Some(role@),
                None => team_role is None,
            })
            &&& delivered[i].conversation@ == message.conversation@
            &&& delivered[i].ts@ == message.ts@
            &&& now - delivered[i].at < 300 * 1_000_000_000
        } {
        let i = choose|i: int|
            {
                &&& 0 <= i < delivered.len()
                &&& (#[trigger] delivered[i]).project@ == project
                &&& (match delivered[i].team_role {
                    Some(role) => team_role == Some(role@),
                    None => team_role is None,
                })
                &&& delivered[i].conversation@ == message.conversation@
                &&& delivered[i].ts@ == message.ts@
                &&& now - delivered[i].at < 300 * 1_000_000_000
            };
        assert(p(delivered[i]));
    }
}

/// A delivery is logged last, as what it was and when; every other delivery of
/// the last five minutes stays in the log, and no older one does.
pub proof fn a_delivery_is_logged_as_what_it_was(
    delivered: Seq<Delivery>,
    project: String,
    team_role: Option<String>,
    message: SlackMessage,
    now: u64,
    i: int,
)
    ensures
        ({
            let after = after_delivery(delivered, project, team_role, message, now);
            let last = after.last();
            &&& after.len() >= 1
            &&& last.project == project
            &&& last.team_role == team_role
            &&& last.conversation == message.conversation
            &&& last.ts == message.ts
            &&& last.at == now
            &&& 0 <= i < delivered.len() && now - delivered[i].at < 300 * 1_000_000_000 && (
            delivered[i].project@ != project@ || option_view(delivered[i].team_role)
                != option_view(team_role) || delivered[i].conversation@ != message.conversation@
                || delivered[i].ts@ != message.ts@) ==> after.contains(delivered[i])
            &&& 0 <= i < after.len() - 1 ==> delivered.contains(after[i]) && now - after[i].at < 300
                * 1_000_000_000
        }),
{
    let p = |d: Delivery|
        fresh(d, now) && !delivery_of(
            project@,
            option_view(team_role),
            message.conversation@,
            message.ts@,
        )(d);
    let kept = delivered.filter(p);
    crate::seqs::lemma_filter_keeps(delivered, p);
    let after = after_delivery(delivered, project, team_role, message, now);
    if 0 <= i < delivered.len() && p(delivered[i]) {
        crate::seqs::lemma_filter_holds(delivered, p, i);
        let k = choose|k: int| 0 <= k < kept.len() && kept[k] == delivered[i];
        assert(after[k] == delivered[i]);
    }
    if 0 <= i < after.len() - 1 {
        assert(after[i] == kept[i]);
        assert(p(kept[i]));
    }
}

/// A thread is idle for as many whole days as lie between the last message
/// that was read of it and now. A time that cannot be read counts from the
/// epoch, and one that is yet to come not at all.
pub proof fn idle_days_are_whole_days(cursor: Seq<char>, now: u64)
    ensures
        ({
            let days = idle_days(cursor, now);
            let at = match parsed(before_stop(cursor), u64::MAX as nat) {
                Some(secs) => secs as int,
                None => 0,
            };
            &&& days >= 0
            &&& now <= at ==> days == 0
            &&& now >= at ==> at + 86_400 * days <= now < at + 86_400 * (days + 1)
        }),
{
}

/// A workspace is refused where its label or its token is blank, or where an
/// earlier one has its label, and not otherwise.
pub proof fn a_workspace_needs_a_label_of_its_own_and_a_token(configs: Seq<SlackConfig>, i: int)
    requires
        0 <= i < configs.len(),
    ensures
        config_error(configs, i) is None <==> trimmed(configs[i].workspace@).len() > 0 && trimmed(
            configs[i].token@,
        ).len() > 0 && forall|j: int|
            0 <= j < i ==> trimmed((#[trigger] configs[j]).workspace@) != trimmed(
                configs[i].workspace@,
            ),
        config_error(configs, i) matches Some(message) ==> trimmed(configs[i].workspace@).len()
            == 0 || crate::deliver::is_within(trimmed(configs[i].workspace@), message),
{
    let label = trimmed(configs[i].workspace@);
    assert("slack workspace '"@ + label + "' has an empty token"@ == "slack workspace '"@ + label
        + "' has an empty token"@);
    assert(crate::deliver::is_within(
        label,
        "slack workspace '"@ + label + "' has an empty token"@,
    ));
    assert(crate::deliver::is_within(
        label,
        "two [[slack]] entries share the label '"@ + label + "'"@,
    ));
}

/// A mention in a conversation subscribes the owner of the first subscription
/// to mentions of the workspace, unless that owner has the conversation
/// already: to every message of it, read from the mention on. Otherwise nothing
/// changes.
pub proof fn a_mention_subscribes_who_asked_for_mentions(
    before: Workspace,
    after: Workspace,
    workspace: String,
    conversation: String,
    since: String,
    id: u128,
    created_at: Timestamp,
    outcome: (bool, Vec<Action>),
    i: int,
)
    requires
        auto_subscribed(
            before,
            after,
            workspace,
            conversation,
            since,
            id,
            created_at,
            outcome,
        ),
    ensures
        ({
            let subs = before.slack.subs@;
            let first = 0 <= i < subs.len() && subs[i].workspace@ == workspace@
                && subs[i].target is Mentions && forall|j: int|
                0 <= j < i ==> !((#[trigger] subs[j]).workspace@ == workspace@
                    && subs[j].target is Mentions);
            let has_it = exists|j: int|
                {
                    &&& 0 <= j < subs.len()
                    &&& (#[trigger] subs[j]).workspace@ == workspace@
                    &&& subs[j].project@ == subs[i].project@
                    &&& option_view(subs[j].team_role) == option_view(subs[i].team_role)
                    &&& subs[j].target matches SlackSubscriptionTarget::Conversation { id, mode }
                    &&& id@ == conversation@
                };
            &&& first && !has_it ==> {
                let sub = after.slack.subs@.last();
                &&& outcome.0
                &&& after.slack.subs@ == subs.push(sub)
                &&& sub.id == id
                &&& sub.workspace == workspace
                &&& sub.project == subs[i].project
                &&& sub.team_role == subs[i].team_role
                &&& sub.created_at == created_at
                &&& sub.target matches SlackSubscriptionTarget::Conversation { id: c, mode }
                &&& c == conversation
                &&& mode == SlackWatchMode::All
                &&& outcome.1@.len() == 2
                &&& outcome.1@[0] == (Action::SetSlackWatermark {
                    workspace,
                    conversation,
                    ts: since,
                })
                &&& outcome.1@[1] == (Action::StoreSlackSubscription { sub })
            }
            &&& first && has_it ==> !outcome.0 && outcome.1@.len() == 0 && after == before
            &&& (forall|j: int|
                0 <= j < subs.len() ==> !((#[trigger] subs[j]).workspace@ == workspace@
                    && subs[j].target is Mentions)) ==> !outcome.0 && outcome.1@.len() == 0 && after
                == before
        }),
{
    let subs = before.slack.subs@;
    let p = mentions_in(workspace@);
    if 0 <= i < subs.len() && p(subs[i]) && forall|j: int|
        0 <= j < i ==> !((#[trigger] subs[j]).workspace@ == workspace@
            && subs[j].target is Mentions) {
        crate::seqs::lemma_first_index_is(subs, p, i);
        let q = covers(workspace@, conversation@, subs[i]);
        if any(subs, q) {
            let j = choose|j: int| 0 <= j < subs.len() && q(#[trigger] subs[j]);
            assert(subs[j].workspace@ == workspace@);
        } else {
            assert(forall|j: int| 0 <= j < subs.len() ==> !q(#[trigger] subs[j]));
        }
        let sub = auto_subscription(subs[i], id, workspace, conversation, created_at);
        assert(subs.push(sub).last() == sub);
    }
    if any(subs, p) {
        let j = choose|j: int| 0 <= j < subs.len() && p(#[trigger] subs[j]);
        assert(subs[j].workspace@ == workspace@ && subs[j].target is Mentions);
    }
}

/// Forgetting a worker's subscriptions forgets those of its project's name and
/// of its label, and no others; each that goes is deleted from the store.
pub proof fn a_workers_subscriptions_go_and_no_others(
    before: Workspace,
    after: Workspace,
    project_key: String,
    label: String,
    actions: Vec<Action>,
    project: crate::workspace::ProjectView,
    i: int,
)
    requires
        worker_unsubscribed(before, after, project_key, label, actions),
        before.project_keyed(project_key@) == Some(project),
        0 <= i < before.slack.subs@.len(),
    ensures
        ({
            let sub = before.slack.subs@[i];
            let own = sub.project@ == project.name@ && (sub.team_role matches Some(role) && role@
                == label@);
            &&& own ==> !after.slack.subs@.contains(sub) && actions@.contains(
                Action::DeleteSlackSubscription { id: sub.id },
            )
            &&& !own ==> after.slack.subs@.contains(sub)
        }),
        forall|k: int|
            0 <= k < after.slack.subs@.len() ==> before.slack.subs@.contains(
                #[trigger] after.slack.subs@[k],
            ),
{
    let subs = before.slack.subs@;
    let p = owned_by_worker(project.name@, label@);
    let q = not_owned_by_worker(project.name@, label@);
    let sub = subs[i];
    crate::seqs::lemma_filter_keeps(subs, q);
    if p(sub) {
        crate::seqs::lemma_filter_holds(subs, p, i);
        let gone = subs.filter(p);
        let k = choose|k: int| 0 <= k < gone.len() && gone[k] == sub;
        assert(actions@[k] == (Action::DeleteSlackSubscription { id: sub.id }));
        if after.slack.subs@.contains(sub) {
            let k = choose|k: int| 0 <= k < after.slack.subs@.len() && after.slack.subs@[k] == sub;
            assert(q(after.slack.subs@[k]));
        }
    } else {
        assert(q(sub));
        crate::seqs::lemma_filter_holds(subs, q, i);
    }
}

/// Forgetting one subscription needs its id, its project and its owner: what
/// has them all goes, and nothing else does.
pub proof fn only_its_owner_forgets_a_subscription(
    before: Workspace,
    after: Workspace,
    project: String,
    id: u128,
    owner: Option<String>,
    removed: bool,
    i: int,
)
    requires
        unsubscribed(before, after, project, id, owner, removed),
        0 <= i < before.slack.subs@.len(),
    ensures
        ({
            let sub = before.slack.subs@[i];
            let own = sub.id == id && sub.project@ == project@ && (match (sub.team_role, owner) {
                (Some(a), Some(b)) => a@ == b@,
                (None, None) => true,
                _ => false,
            });
            &&& own ==> removed && !after.slack.subs@.contains(sub)
            &&& !own ==> after.slack.subs@.contains(sub)
        }),
        (forall|k: int|
            0 <= k < before.slack.subs@.len() ==> (#[trigger] before.slack.subs@[k]).id != id)
            ==> !removed,
{
    let subs = before.slack.subs@;
    let p = owned_subscription(id, project@, option_view(owner));
    let q = not_owned_subscription(id, project@, option_view(owner));
    let sub = subs[i];
    crate::seqs::lemma_filter_keeps(subs, q);
    if p(sub) {
        assert(any(subs, p));
        if after.slack.subs@.contains(sub) {
            let k = choose|k: int| 0 <= k < after.slack.subs@.len() && after.slack.subs@[k] == sub;
            assert(q(after.slack.subs@[k]));
        }
    } else {
        assert(q(sub));
        crate::seqs::lemma_filter_holds(subs, q, i);
    }
    if removed {
        let k = choose|k: int| 0 <= k < subs.len() && p(#[trigger] subs[k]);
        assert(subs[k].id == id);
    }
}

/// An owner of a thread is alive exactly where a subscription of the workspace
/// is of its project and its role.
pub proof fn an_owner_lives_by_its_subscription(
    subs: Seq<SlackSubscription>,
    workspace: Seq<char>,
    owner: SlackThreadOwner,
)
    ensures
        alive(subs, workspace)(owner) <==> exists|k: int|
            {
                &&& 0 <= k < subs.len()
                &&& (#[trigger] subs[k]).workspace@ == workspace
                &&& subs[k].project@ == owner.project@
                &&& (match (subs[k].team_role, owner.team_role) {
                    (Some(a), Some(b)) => a@ == b@,
                    (None, None) => true,
                    _ => false,
                })
            },
{
    let p = |sub: SlackSubscription|
        sub.workspace@ == workspace && (sub.project@, option_view(sub.team_role)) == owner_id(
            owner,
        );
    assert(alive(subs, workspace)(owner) == any(subs, p));
    if any(subs, p) {
        let k = choose|k: int| 0 <= k < subs.len() && p(#[trigger] subs[k]);
        assert(subs[k].workspace@ == workspace);
        assert(subs[k].project@ == owner.project@);
        assert(option_view(subs[k].team_role) == option_view(owner.team_role));
    }
    if exists|k: int|
        {
            &&& 0 <= k < subs.len()
            &&& (#[trigger] subs[k]).workspace@ == workspace
            &&& subs[k].project@ == owner.project@
            &&& (match (subs[k].team_role, owner.team_role) {
                (Some(a), Some(b)) => a@ == b@,
                (None, None) => true,
                _ => false,
            })
        } {
        let k = choose|k: int|
            {
                &&& 0 <= k < subs.len()
                &&& (#[trigger] subs[k]).workspace@ == workspace
                &&& subs[k].project@ == owner.project@
                &&& (match (subs[k].team_role, owner.team_role) {
                    (Some(a), Some(b)) => a@ == b@,
                    (None, None) => true,
                    _ => false,
                })
            };
        assert(p(subs[k]));
    }
}

/// A thread stays followed exactly where one of its owners is alive and it was
/// read in the last fourteen days. It is then listed with its living owners
/// alone, and written anew where one of them is gone; otherwise it is dropped.
pub proof fn a_thread_is_followed_while_an_owner_lives(
    state: Workspace,
    workspace: String,
    rows: Vec<ThreadRow>,
    now: u64,
    followed: FollowedThreads,
    i: int,
)
    requires
        threads_followed(state, workspace, rows, now, followed),
        0 <= i < rows@.len(),
    ensures
        ({
            let row = rows@[i];
            let lives = alive(state.slack.subs@, workspace@);
            let living = row.record.owners@.filter(lives);
            let stays = (exists|k: int|
                0 <= k < row.record.owners@.len() && lives(#[trigger] row.record.owners@[k]))
                && idle_days(row.record.cursor@, now) < 14;
            &&& stays ==> exists|k: int|
                {
                    &&& 0 <= k < followed.threads@.len()
                    &&& (#[trigger] followed.threads@[k]).parent_ts == row.parent_ts
                    &&& followed.threads@[k].owners@ == living
                }
            &&& stays && living.len() < row.record.owners@.len() ==> exists|k: int|
                {
                    &&& 0 <= k < followed.pruned@.len()
                    &&& (#[trigger] followed.pruned@[k]).parent_ts == row.parent_ts
                    &&& followed.pruned@[k].record.cursor == row.record.cursor
                    &&& followed.pruned@[k].record.owners@ == living
                }
            &&& !stays ==> followed.dropped@.contains(row.parent_ts)
        }),
        forall|k: int|
            0 <= k < followed.dropped@.len() ==> exists|j: int|
                {
                    &&& 0 <= j < rows@.len()
                    &&& (#[trigger] rows@[j]).parent_ts == #[trigger] followed.dropped@[k]
                    &&& (idle_days(rows@[j].record.cursor@, now) >= 14 || forall|o: int|
                        0 <= o < rows@[j].record.owners@.len() ==> !alive(
                            state.slack.subs@,
                            workspace@,
                        )(#[trigger] rows@[j].record.owners@[o]))
                },
        followed.threads@.len() + followed.dropped@.len() == rows@.len(),
{
    let subs = state.slack.subs@;
    let row = rows@[i];
    let on = still_followed(subs, workspace@, now);
    let off = not_followed(subs, workspace@, now);
    let loses = loses_an_owner(subs, workspace@, now);
    let lives = alive(subs, workspace@);
    crate::seqs::lemma_filter_keeps(rows@, off);
    if on(row) {
        crate::seqs::lemma_filter_holds(rows@, on, i);
        let kept = rows@.filter(on);
        let k = choose|k: int| 0 <= k < kept.len() && kept[k] == row;
        assert(followed.threads@[k].parent_ts == row.parent_ts);
        if loses(row) {
            crate::seqs::lemma_filter_holds(rows@, loses, i);
            let lost = rows@.filter(loses);
            let k = choose|k: int| 0 <= k < lost.len() && lost[k] == row;
            assert(followed.pruned@[k].parent_ts == row.parent_ts);
        }
    } else {
        assert(off(row));
        crate::seqs::lemma_filter_holds(rows@, off, i);
        let gone = rows@.filter(off);
        let k = choose|k: int| 0 <= k < gone.len() && gone[k] == row;
        assert(followed.dropped@[k] == row.parent_ts);
    }
    assert forall|k: int| 0 <= k < followed.dropped@.len() implies exists|j: int|
        {
            &&& 0 <= j < rows@.len()
            &&& (#[trigger] rows@[j]).parent_ts == #[trigger] followed.dropped@[k]
            &&& (idle_days(rows@[j].record.cursor@, now) >= 14 || forall|o: int|
                0 <= o < rows@[j].record.owners@.len() ==> !alive(subs, workspace@)(
                    #[trigger] rows@[j].record.owners@[o],
                ))
        } by {
        let gone = rows@.filter(off);
        let it = gone[k];
        assert(off(it));
        let j = choose|j: int| 0 <= j < rows@.len() && rows@[j] == it;
        assert(!on(it));
        assert(rows@[j].parent_ts == followed.dropped@[k]);
    }
    lemma_split(rows@, on, off);
}

/// A sequence falls into what meets a condition and what does not.
proof fn lemma_split<A>(s: Seq<A>, on: spec_fn(A) -> bool, off: spec_fn(A) -> bool)
    requires
        forall|a: A| #[trigger] off(a) == !on(a),
    ensures
        s.filter(on).len() + s.filter(off).len() == s.len(),
    decreases s.len(),
{
    reveal(Seq::filter);
    if s.len() > 0 {
        lemma_split(s.drop_last(), on, off);
        assert(off(s.last()) == !on(s.last()));
    }
}

/// A thread that is followed has each owner once: an owner that it has is not
/// added again, and a new one is added last. How far it was read stays; a
/// thread that was not followed is read from its parent on.
pub proof fn a_followed_thread_has_each_owner_once(
    record: Option<SlackThreadRecord>,
    parent_ts: String,
    owner: SlackThreadOwner,
    followed: SlackThreadRecord,
)
    requires
        thread_followed(record, parent_ts, owner, followed),
    ensures
        record is None ==> followed.cursor == parent_ts && followed.owners@.len() == 1
            && followed.owners@[0] == owner,
        record matches Some(record) ==> {
            let known = exists|k: int|
                {
                    &&& 0 <= k < record.owners@.len()
                    &&& (#[trigger] record.owners@[k]).project@ == owner.project@
                    &&& (match (record.owners@[k].team_role, owner.team_role) {
                        (Some(a), Some(b)) => a@ == b@,
                        (None, None) => true,
                        _ => false,
                    })
                };
            &&& followed.cursor == record.cursor
            &&& known ==> followed.owners@ == record.owners@
            &&& !known ==> followed.owners@ == record.owners@.push(owner)
        },
{
    if record is Some {
        let owners = (record->0).owners@;
        let p = |o: SlackThreadOwner| owner_id(o) == owner_id(owner);
        if any(owners, p) {
            let k = choose|k: int| 0 <= k < owners.len() && p(#[trigger] owners[k]);
            assert(owners[k].project@ == owner.project@);
            assert(option_view(owners[k].team_role) == option_view(owner.team_role));
        }
        if exists|k: int|
            {
                &&& 0 <= k < owners.len()
                &&& (#[trigger] owners[k]).project@ == owner.project@
                &&& (match (owners[k].team_role, owner.team_role) {
                    (Some(a), Some(b)) => a@ == b@,
                    (None, None) => true,
                    _ => false,
                })
            } {
            let k = choose|k: int|
                {
                    &&& 0 <= k < owners.len()
                    &&& (#[trigger] owners[k]).project@ == owner.project@
                    &&& (match (owners[k].team_role, owner.team_role) {
                        (Some(a), Some(b)) => a@ == b@,
                        (None, None) => true,
                        _ => false,
                    })
                };
            assert(p(owners[k]));
        }
    }
}

/// A draft is answered exactly by the session that it waits for, and then
/// waits no more; every other draft waits on.
pub proof fn only_its_owner_answers_a_draft(
    before: Workspace,
    after: Workspace,
    id: u128,
    caller: SessionSlot,
    answered: bool,
    i: int,
)
    requires
        draft_resolved(before, after, id, caller, answered),
    ensures
        0 <= i < before.slack.drafts@.len() && before.slack.drafts@[i].id == id && (forall|j: int|
            0 <= j < i ==> (#[trigger] before.slack.drafts@[j]).id != id) ==> (answered
            <==> before.slack.drafts@[i].owner@ == caller@),
        (forall|j: int|
            0 <= j < before.slack.drafts@.len() ==> (#[trigger] before.slack.drafts@[j]).id != id)
            ==> !answered,
        answered ==> forall|j: int|
            0 <= j < after.slack.drafts@.len() ==> (#[trigger] after.slack.drafts@[j]).id != id,
        0 <= i < before.slack.drafts@.len() && before.slack.drafts@[i].id != id
            ==> after.slack.drafts@.contains(before.slack.drafts@[i]),
        !answered ==> after.slack.drafts@ == before.slack.drafts@,
{
    let drafts = before.slack.drafts@;
    let p = is_draft(id);
    let q = not_draft(id);
    crate::seqs::lemma_filter_keeps(drafts, q);
    if 0 <= i < drafts.len() && drafts[i].id == id && (forall|j: int|
        0 <= j < i ==> (#[trigger] drafts[j]).id != id) {
        crate::seqs::lemma_first_index_is(drafts, p, i);
    }
    if any(drafts, p) {
        let k = choose|k: int| 0 <= k < drafts.len() && p(#[trigger] drafts[k]);
        assert(drafts[k].id == id);
    }
    if answered {
        assert forall|j: int| 0 <= j < after.slack.drafts@.len() implies (
        #[trigger] after.slack.drafts@[j]).id != id by {
            assert(q(after.slack.drafts@[j]));
        }
    }
    if 0 <= i < drafts.len() && drafts[i].id != id {
        if answered {
            crate::seqs::lemma_filter_holds(drafts, q, i);
        } else {
            assert(after.slack.drafts@[i] == drafts[i]);
        }
    }
}

/// A draft that is put to the user waits for its caller alone, and is shown
/// there; every other draft waits on.
pub proof fn a_draft_waits_for_its_caller(
    before: Workspace,
    after: Workspace,
    caller: SessionSlot,
    draft: SlackDraft,
    action: Action,
    i: int,
)
    requires
        draft_registered(before, after, caller, draft, action),
    ensures
        ({
            let drafts = after.slack.drafts@;
            &&& drafts.len() >= 1
            &&& drafts.last().id == draft.id
            &&& drafts.last().owner == caller
            &&& 0 <= i < drafts.len() - 1 ==> drafts[i].id != draft.id
                && before.slack.drafts@.contains(drafts[i])
            &&& 0 <= i < before.slack.drafts@.len() && before.slack.drafts@[i].id != draft.id
                ==> drafts.contains(before.slack.drafts@[i])
        }),
        action == Action::Emit(SessionUpdate::SlackPostPending { key: caller, draft }),
{
    let drafts = before.slack.drafts@;
    let q = not_draft(draft.id);
    let kept = drafts.filter(q);
    crate::seqs::lemma_filter_keeps(drafts, q);
    if 0 <= i < kept.len() {
        assert(q(kept[i]));
        assert(after.slack.drafts@[i] == kept[i]);
    }
    if 0 <= i < drafts.len() && drafts[i].id != draft.id {
        crate::seqs::lemma_filter_holds(drafts, q, i);
        let k = choose|k: int| 0 <= k < kept.len() && kept[k] == drafts[i];
        assert(after.slack.drafts@[k] == drafts[i]);
    }
}

/// A workspace is watched exactly where a subscription is in it, and runs
/// exactly where its label is among those that do.
pub proof fn a_watched_workspace_has_a_subscription(
    subs: Seq<SlackSubscription>,
    running: Seq<String>,
    label: Seq<char>,
)
    ensures
        watched(subs, label) <==> exists|k: int|
            0 <= k < subs.len() && (#[trigger] subs[k]).workspace@ == label,
        runs(running, label) <==> exists|k: int|
            0 <= k < running.len() && (#[trigger] running[k])@ == label,
{
    let p = in_workspace(label);
    let q = |l: String| l@ == label;
    if any(subs, p) {
        let k = choose|k: int| 0 <= k < subs.len() && p(#[trigger] subs[k]);
        assert(subs[k].workspace@ == label);
    }
    if exists|k: int| 0 <= k < subs.len() && (#[trigger] subs[k]).workspace@ == label {
        let k = choose|k: int| 0 <= k < subs.len() && (#[trigger] subs[k]).workspace@ == label;
        assert(p(subs[k]));
    }
    if any(running, q) {
        let k = choose|k: int| 0 <= k < running.len() && q(#[trigger] running[k]);
        assert(running[k]@ == label);
    }
    if exists|k: int| 0 <= k < running.len() && (#[trigger] running[k])@ == label {
        let k = choose|k: int| 0 <= k < running.len() && (#[trigger] running[k])@ == label;
        assert(q(running[k]));
    }
}

/// The poller of a configured workspace is started exactly where a
/// subscription is in it and it does not run yet, at the pace of its entry;
/// those that run go on.
pub proof fn a_watched_workspace_is_started(
    before: Workspace,
    after: Workspace,
    workspaces: SlackWorkspaces,
    actions: Vec<Action>,
    i: int,
)
    requires
        slack_started(before, after, workspaces, actions),
        0 <= i < workspaces.clients.entries@.len(),
    ensures
        ({
            let label = workspaces.clients.entries@[i].0;
            let start = watched(before.slack.subs@, label@) && !runs(
                before.slack.running@,
                label@,
            );
            &&& start ==> after.slack.running@.contains(label) && actions@.contains(
                Action::StartSlackWorkspace {
                    label,
                    poll_seconds: poll_seconds(before.slack.configs@, label@),
                },
            )
            &&& forall|k: int|
                0 <= k < actions@.len() ==> (#[trigger] actions@[k] matches
                    Action::StartSlackWorkspace { label: l, poll_seconds: pace } && watched(
                    before.slack.subs@,
                    l@,
                ) && !runs(before.slack.running@, l@) && pace == poll_seconds(
                    before.slack.configs@,
                    l@,
                ))
            &&& forall|k: int|
                0 <= k < before.slack.running@.len() ==> #[trigger] after.slack.running@[k]
                    == before.slack.running@[k]
            &&& after.slack.subs == before.slack.subs
            &&& after.slack.connected == before.slack.connected
        }),
{
    let labels = workspaces.clients.entries@.map_values(|entry: (String, String)| entry.0);
    let p = startable(before);
    let list = to_start(before, workspaces);
    crate::seqs::lemma_filter_keeps(labels, p);
    assert(labels[i] == workspaces.clients.entries@[i].0);
    let paced = list.map_values(
        |label: String| Action::StartSlackWorkspace {
            label,
            poll_seconds: poll_seconds(before.slack.configs@, label@),
        },
    );
    assert(actions@ == paced);
    if p(labels[i]) {
        crate::seqs::lemma_filter_holds(labels, p, i);
        let k = choose|k: int| 0 <= k < list.len() && list[k] == labels[i];
        assert(paced[k] == (Action::StartSlackWorkspace {
            label: labels[i],
            poll_seconds: poll_seconds(before.slack.configs@, labels[i]@),
        }));
        assert(after.slack.running@[before.slack.running@.len() + k] == labels[i]);
    }
    assert forall|k: int| 0 <= k < actions@.len() implies (#[trigger] actions@[k] matches
        Action::StartSlackWorkspace { label: l, poll_seconds: pace } && watched(
        before.slack.subs@,
        l@,
    ) && !runs(before.slack.running@, l@) && pace == poll_seconds(
        before.slack.configs@,
        l@,
    )) by {
        assert(actions@[k] == paced[k]);
        assert(p(list[k]));
    }
}

/// A workspace is polled at the pace of the first entry with its label, and
/// every thirty seconds where it has none.
pub proof fn a_workspace_is_polled_at_its_pace(
    configs: Seq<SlackConfig>,
    label: Seq<char>,
    i: int,
)
    ensures
        0 <= i < configs.len() && trimmed(configs[i].workspace@) == label && (forall|j: int|
            0 <= j < i ==> trimmed((#[trigger] configs[j]).workspace@) != label) ==> poll_seconds(
            configs,
            label,
        ) == configs[i].poll_seconds && first_match(configs, entry_of(label)) == Some(configs[i]),
        (forall|j: int| 0 <= j < configs.len() ==> trimmed((#[trigger] configs[j]).workspace@) != label)
            ==> poll_seconds(configs, label) == 30 && first_match(configs, entry_of(label)) is None,
{
    let p = entry_of(label);
    if 0 <= i < configs.len() && trimmed(configs[i].workspace@) == label && (forall|j: int|
        0 <= j < i ==> trimmed((#[trigger] configs[j]).workspace@) != label) {
        crate::seqs::lemma_first_index_is(configs, p, i);
    }
    if any(configs, p) {
        let k = choose|k: int| 0 <= k < configs.len() && p(#[trigger] configs[k]);
        assert(trimmed(configs[k].workspace@) == label);
    }
}

/// A poller stops exactly where no subscription is in its workspace; it is
/// asked to and told as disconnected then. Every other one runs on, and is
/// told as it was.
pub proof fn an_idle_workspace_is_stopped(
    before: Workspace,
    after: Workspace,
    actions: Vec<Action>,
    i: int,
)
    requires
        slack_stopped(before, after, actions),
        0 <= i < before.slack.running@.len(),
    ensures
        ({
            let label = before.slack.running@[i];
            if watched(before.slack.subs@, label@) {
                after.slack.running@.contains(label)
            } else {
                &&& !after.slack.running@.contains(label)
                &&& actions@.contains(Action::StopSlackWorkspace { label })
                &&& after.slack.connected@.dom().contains(label@)
                &&& !after.slack.connected@[label@]
            }
        }),
        forall|k: int|
            0 <= k < actions@.len() ==> (#[trigger] actions@[k] matches
                Action::StopSlackWorkspace { label } && !watched(before.slack.subs@, label@)
                && runs(before.slack.running@, label@)),
        forall|name: Seq<char>|
            #![trigger after.slack.connected@.dom().contains(name)]
            watched(before.slack.subs@, name) ==> {
                &&& after.slack.connected@.dom().contains(name)
                    == before.slack.connected@.dom().contains(name)
                &&& before.slack.connected@.dom().contains(name) ==> after.slack.connected@[name]
                    == before.slack.connected@[name]
            },
        after.slack.subs == before.slack.subs,
{
    let running = before.slack.running@;
    let label = running[i];
    let on = is_watched_label(before.slack.subs@);
    let off = is_idle_label(before.slack.subs@);
    let idle = idle_labels(before.slack);
    crate::seqs::lemma_filter_keeps(running, on);
    crate::seqs::lemma_filter_keeps(running, off);
    let stops = idle.map_values(|label: String| Action::StopSlackWorkspace { label });
    assert(actions@ == stops);
    if on(label) {
        crate::seqs::lemma_filter_holds(running, on, i);
    } else {
        assert(off(label));
        crate::seqs::lemma_filter_holds(running, off, i);
        let k = choose|k: int| 0 <= k < idle.len() && idle[k] == label;
        assert(stops[k] == (Action::StopSlackWorkspace { label }));
        if after.slack.running@.contains(label) {
            let k = choose|k: int|
                0 <= k < after.slack.running@.len() && after.slack.running@[k] == label;
            assert(on(after.slack.running@[k]));
        }
        what_is_stopped_is_disconnected(before.slack.connected@, idle, label@);
    }
    assert forall|k: int| 0 <= k < actions@.len() implies (#[trigger] actions@[k] matches
        Action::StopSlackWorkspace { label } && !watched(before.slack.subs@, label@) && runs(
        running,
        label@,
    )) by {
        assert(actions@[k] == stops[k]);
        assert(off(idle[k]));
        let j = choose|j: int| 0 <= j < running.len() && running[j] == idle[k];
        let q = |l: String| l@ == idle[k]@;
        assert(q(running[j]));
    }
    assert forall|name: Seq<char>|
        #![trigger after.slack.connected@.dom().contains(name)]
        watched(before.slack.subs@, name) implies {
        &&& after.slack.connected@.dom().contains(name) == before.slack.connected@.dom().contains(
            name,
        )
        &&& before.slack.connected@.dom().contains(name) ==> after.slack.connected@[name]
            == before.slack.connected@[name]
    } by {
        what_is_stopped_is_disconnected(before.slack.connected@, idle, name);
        assert forall|k: int| 0 <= k < idle.len() implies (#[trigger] idle[k])@ != name by {
            assert(off(idle[k]));
        }
    }
}

/// Each workspace that was stopped is told as disconnected, and every other
/// one as it was.
pub proof fn what_is_stopped_is_disconnected(
    connected: Map<Seq<char>, bool>,
    labels: Seq<String>,
    name: Seq<char>,
)
    ensures
        ({
            let after = disconnected(connected, labels);
            let stopped = exists|k: int| 0 <= k < labels.len() && (#[trigger] labels[k])@ == name;
            &&& stopped ==> after.dom().contains(name) && !after[name]
            &&& !stopped ==> after.dom().contains(name) == connected.dom().contains(name)
            &&& !stopped && connected.dom().contains(name) ==> after[name] == connected[name]
        }),
    decreases labels.len(),
{
    if labels.len() > 0 {
        let rest = labels.drop_last();
        let n = labels.len() - 1;
        what_is_stopped_is_disconnected(connected, rest, name);
        if exists|k: int| 0 <= k < labels.len() && (#[trigger] labels[k])@ == name {
            let k = choose|k: int| 0 <= k < labels.len() && (#[trigger] labels[k])@ == name;
            if k < n {
                assert(rest[k] == labels[k]);
            }
        }
        if exists|k: int| 0 <= k < rest.len() && (#[trigger] rest[k])@ == name {
            let k = choose|k: int| 0 <= k < rest.len() && (#[trigger] rest[k])@ == name;
            assert(labels[k] == rest[k]);
        }
        assert(labels[n] == labels.last());
    }
}

/// The subscriptions of a project, and those of a workspace, are all that are
/// of it and no others.
pub proof fn subscriptions_are_listed_by_what_they_are_of(
    subs: Seq<SlackSubscription>,
    name: Seq<char>,
    i: int,
)
    ensures
        ({
            let own = subs.filter(of_project(name));
            let there = subs.filter(in_workspace(name));
            &&& 0 <= i < own.len() ==> own[i].project@ == name && subs.contains(own[i])
            &&& 0 <= i < there.len() ==> there[i].workspace@ == name && subs.contains(there[i])
            &&& 0 <= i < subs.len() && subs[i].project@ == name ==> own.contains(subs[i])
            &&& 0 <= i < subs.len() && subs[i].workspace@ == name ==> there.contains(subs[i])
        }),
{
    let p = of_project(name);
    let q = in_workspace(name);
    crate::seqs::lemma_filter_keeps(subs, p);
    crate::seqs::lemma_filter_keeps(subs, q);
    if 0 <= i < subs.filter(p).len() {
        assert(p(subs.filter(p)[i]));
    }
    if 0 <= i < subs.filter(q).len() {
        assert(q(subs.filter(q)[i]));
    }
    if 0 <= i < subs.len() && subs[i].project@ == name {
        crate::seqs::lemma_filter_holds(subs, p, i);
    }
    if 0 <= i < subs.len() && subs[i].workspace@ == name {
        crate::seqs::lemma_filter_holds(subs, q, i);
    }
}

/// What changes the Slack state alone leaves the rest of the workspace as it
/// is; what changes the subscriptions, or the drafts, leaves the rest of the
/// Slack state too.
pub proof fn only_the_slack_state_changes(before: Workspace, after: Workspace)
    ensures
        only_slack(before, after) || only_subs(before, after) || only_drafts(before, after) ==> {
            &&& after.projects == before.projects
            &&& after.default_project == before.default_project
            &&& after.live_workers == before.live_workers
            &&& after.pool == before.pool
            &&& after.sessions == before.sessions
            &&& after.parked == before.parked
        },
        only_subs(before, after) ==> {
            &&& after.slack.drafts == before.slack.drafts
            &&& after.slack.delivered == before.slack.delivered
            &&& after.slack.running == before.slack.running
            &&& after.slack.connected == before.slack.connected
            &&& after.slack.user_ids == before.slack.user_ids
            &&& after.slack.configs == before.slack.configs
        },
        only_drafts(before, after) ==> {
            &&& after.slack.subs == before.slack.subs
            &&& after.slack.delivered == before.slack.delivered
            &&& after.slack.running == before.slack.running
            &&& after.slack.connected == before.slack.connected
            &&& after.slack.user_ids == before.slack.user_ids
            &&& after.slack.configs == before.slack.configs
        },
{
}

/// A delivery to one owner is not remembered for another.
pub proof fn a_delivery_is_remembered_for_its_owner_alone(
    delivered: Seq<Delivery>,
    project: String,
    team_role: Option<String>,
    message: SlackMessage,
    now: u64,
    other_project: Seq<char>,
    other_role: Option<Seq<char>>,
)
    requires
        other_project != project@ || other_role != option_view(team_role),
    ensures
        remembered(
            after_delivery(delivered, project, team_role, message, now),
            other_project,
            other_role,
            message,
            now,
        ) == remembered(delivered, other_project, other_role, message, now),
{
    let after = after_delivery(delivered, project, team_role, message, now);
    let p = |d: Delivery|
        fresh(d, now) && delivery_of(
            other_project,
            other_role,
            message.conversation@,
            message.ts@,
        )(d);
    if any(after, p) {
        let k = choose|k: int| 0 <= k < after.len() && p(#[trigger] after[k]);
        a_delivery_is_logged_as_what_it_was(delivered, project, team_role, message, now, k);
        assert(k < after.len() - 1);
        let j = choose|j: int| 0 <= j < delivered.len() && delivered[j] == after[k];
        assert(p(delivered[j]));
    }
    if any(delivered, p) {
        let j = choose|j: int| 0 <= j < delivered.len() && p(#[trigger] delivered[j]);
        a_delivery_is_logged_as_what_it_was(delivered, project, team_role, message, now, j);
        let k = choose|k: int| 0 <= k < after.len() && after[k] == delivered[j];
        assert(p(after[k]));
    }
}

/// A message that is asked for again within five minutes is not new.
pub proof fn a_message_is_new_once(
    before: Workspace,
    between: Workspace,
    after: Workspace,
    project: String,
    message: SlackMessage,
    now: u64,
    later: u64,
    first: bool,
    second: bool,
)
    requires
        newly_delivered(before, between, project, message, now, first),
        newly_delivered(between, after, project, message, later, second),
        now <= later,
    ensures
        second <==> later - now >= 300 * 1_000_000_000,
        between.slack.subs == before.slack.subs,
        between.parked == before.parked,
{
    delivery_is_remembered(before.slack.delivered@, project, None, message, now, later);
}

/// A subscription that is added is in force: its workspace is watched. It is
/// stored exactly where it is to last, and those before it stay.
pub proof fn an_added_subscription_is_in_force(
    before: Workspace,
    after: Workspace,
    sub: SlackSubscription,
    durable: bool,
    actions: Vec<Action>,
)
    requires
        subscribed(before, after, sub, durable, actions),
    ensures
        watched(after.slack.subs@, sub.workspace@),
        after.slack.subs@.last() == sub,
        after.slack.subs@.drop_last() == before.slack.subs@,
        durable ==> actions@.len() == 1 && actions@[0] == (Action::StoreSlackSubscription { sub }),
        !durable ==> actions@.len() == 0,
{
    let subs = after.slack.subs@;
    assert(in_workspace(sub.workspace@)(subs[subs.len() - 1]));
    assert(subs.drop_last() =~= before.slack.subs@);
}

/// The configured workspaces are there exactly where every entry has a label
/// of its own and a token: each under its label without the blanks around it,
/// with its token.
pub proof fn every_entry_is_configured_or_none_is(
    configs: Vec<SlackConfig>,
    made: Result<SlackWorkspaces, String>,
    i: int,
)
    requires
        configured(configs, made),
    ensures
        made is Ok <==> forall|k: int|
            #![trigger configs@[k]]
            0 <= k < configs@.len() ==> trimmed(configs@[k].workspace@).len() > 0 && trimmed(
                configs@[k].token@,
            ).len() > 0 && forall|j: int|
                0 <= j < k ==> trimmed((#[trigger] configs@[j]).workspace@) != trimmed(
                    configs@[k].workspace@,
                ),
        made matches Ok(workspaces) ==> 0 <= i < configs@.len() ==> {
            let label = trimmed(configs@[i].workspace@);
            workspaces.clients@.dom().contains(label) && workspaces.clients@[label]
                == configs@[i].token
        },
{
    let good = forall|k: int|
        #![trigger configs@[k]]
        0 <= k < configs@.len() ==> trimmed(configs@[k].workspace@).len() > 0 && trimmed(
            configs@[k].token@,
        ).len() > 0 && forall|j: int|
            0 <= j < k ==> trimmed((#[trigger] configs@[j]).workspace@) != trimmed(
                configs@[k].workspace@,
            );
    if made is Ok {
        assert forall|k: int|
            #![trigger configs@[k]]
            0 <= k < configs@.len() implies trimmed(configs@[k].workspace@).len() > 0 && trimmed(
            configs@[k].token@,
        ).len() > 0 && forall|j: int|
            0 <= j < k ==> trimmed((#[trigger] configs@[j]).workspace@) != trimmed(
                configs@[k].workspace@,
            ) by {
            assert(config_error(configs@, k) is None);
            a_workspace_needs_a_label_of_its_own_and_a_token(configs@, k);
        }
    } else {
        let k = choose|k: int|
            0 <= k < configs@.len() && #[trigger] config_error(configs@, k) == Some(
                made->Err_0@,
            ) && forall|j: int| 0 <= j < k ==> #[trigger] config_error(configs@, j) is None;
        a_workspace_needs_a_label_of_its_own_and_a_token(configs@, k);
        assert(config_error(configs@, k) is Some);
        assert(!good) by {
            let it = configs@[k];
        }
    }
}

/// The workspaces are verified once, and only where there are any.
pub proof fn workspaces_are_verified_once(
    before: Workspace,
    between: Workspace,
    after: Workspace,
    workspaces: SlackWorkspaces,
    first: bool,
    second: bool,
)
    requires
        verification_begun(before, between, workspaces, first),
        verification_begun(between, after, workspaces, second),
    ensures
        !second,
        first <==> workspaces.clients.entries@.len() > 0 && !before.slack.verification_started,
        between.slack.subs == before.slack.subs,
        between.parked == before.parked,
{
}

} // verus!
