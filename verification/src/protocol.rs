//! What flows between the workspace, its sessions and the user interface:
//! the updates a session sends out, the events an agent reports, the
//! commands a session is given, and the actions the workspace asks for.

use crate::launch::SessionLaunchSettings;
use crate::slot::{clone_option, SessionSlot};
use crate::workspace::Parked;
use vstd::prelude::*;

verus! {

/// A payload that is handed on without being read, in its wire form.
#[derive(Debug, PartialEq, Eq)]
pub struct WireValue {
    pub json: String,
}

impl Clone for WireValue {
    fn clone(&self) -> (copy: Self)
        ensures
            copy == *self,
    {
        WireValue { json: self.json.clone() }
    }
}

/// What a model is called on each surface that names it.
#[derive(Debug, PartialEq, Eq)]
pub struct CurrentModel {
    pub resolved_id: String,
    pub display_name_short: String,
    pub display_name_long: String,
    pub requested_id: Option<String>,
    pub catalog_id: Option<String>,
    pub supports_effort: bool,
    pub supported_effort_levels: Vec<String>,
    pub supports_auto_mode: Option<bool>,
    pub supports_adaptive_thinking: Option<bool>,
    pub is_authoritative: bool,
}

/// Whether a session's subprocess is working on a turn.
#[derive(Debug, Clone, Copy, PartialEq, Eq, Structural)]
pub enum RuntimeSessionState {
    Idle,
    Running,
    RequiresAction,
}

/// Why a spawn failed, as far as the agent can tell.
#[derive(Debug, Clone, Copy, PartialEq, Eq, Structural)]
pub enum SpawnFailureKind {
    Unclassified,
    WorkingDirMissing,
    WorktreeCreation,
}

/// Where an account stands against its rate limit.
#[derive(Debug, Clone, Copy, PartialEq, Eq, Structural)]
pub enum RateLimitStatus {
    Allowed,
    AllowedWarning,
    Rejected,
    Unknown,
}

/// One message of the agent's stream, as far as the workspace reads it.
/// `raw` is the whole message.
#[derive(Debug, PartialEq, Eq)]
pub enum SdkMessage {
    RateLimitEvent { status: RateLimitStatus, resets_at: Option<i64>, raw: WireValue },
    /// `state` is what the message's `state` member parses to.
    System { subtype: String, state: Option<RuntimeSessionState>, raw: WireValue },
    Result { raw: WireValue },
    Error { error: String, raw: WireValue },
    Other { raw: WireValue },
}

/// What the agent of a session reports.
#[derive(Debug, PartialEq, Eq)]
pub enum AgentEvent {
    Connected {
        session_id: String,
        cwd: String,
        current_model: CurrentModel,
        available_models: Vec<WireValue>,
        mode: Option<WireValue>,
        history_updates: Option<Vec<WireValue>>,
        compaction_count: u64,
    },
    AuthRequired { method_name: String, method_description: String },
    ConnectionFailed { message: String, kind: SpawnFailureKind },
    PermissionRequest { session_id: String, tool_call_id: String, request: WireValue },
    QuestionRequest { session_id: String, tool_call_id: String, request: WireValue },
    McpOperationError { error: WireValue },
    RuntimeReloadCompleted,
    RuntimeReloadFailed { message: String },
    SetModeFailed { mode: String, message: String },
    SetModelFailed { model: String, message: String },
    TurnError { message: String },
    SessionsListed { sessions: Vec<WireValue> },
    StatusSnapshot { account: WireValue, forge_account: Option<WireValue> },
    OauthCredentialsSnapshot { credentials: WireValue },
    ContextUsage { percentage: Option<u8>, max_tokens: Option<u64> },
    McpSnapshot { servers: Vec<WireValue>, error: Option<String> },
    SdkMessage { msg: SdkMessage },
    HookObservation {
        tool_use_id: Option<String>,
        permission_mode: Option<String>,
        effort: Option<String>,
        agent_id: Option<String>,
        agent_type: Option<String>,
    },
}

/// How loud a service notice is.
#[derive(Debug, Clone, Copy, PartialEq, Eq, Structural)]
pub enum ServiceSeverity {
    Warning,
    Error,
}

/// The failures that end the application.
#[derive(Debug, Clone, Copy, PartialEq, Eq, Structural)]
pub enum AppError {
    ConnectionFailed,
}

/// What a session's dictation departs from the defaults in; nothing where it
/// does not.
#[derive(Debug, PartialEq, Eq)]
pub struct DictateOverrides {
    pub changed: Option<WireValue>,
}

/// The kinds of envelope one session can send another.
#[derive(Debug, Clone, Copy, PartialEq, Eq, Structural)]
pub enum WrappedKind {
    Question,
    Message,
    Reply,
    DeliveryFailureNotice,
    WorkerSpawnFailedNotice,
}

/// An envelope from one session to another. `prose` is the text its
/// recipient's agent reads.
#[derive(Debug, PartialEq, Eq)]
pub struct WrappedPrompt {
    pub correlation_id: String,
    pub kind: WrappedKind,
    pub sender_name: String,
    pub sender_org: String,
    pub body: String,
    pub prose: String,
}

impl Clone for WrappedPrompt {
    fn clone(&self) -> (copy: Self)
        ensures
            copy == *self,
    {
        WrappedPrompt {
            correlation_id: self.correlation_id.clone(),
            kind: self.kind,
            sender_name: self.sender_name.clone(),
            sender_org: self.sender_org.clone(),
            body: self.body.clone(),
            prose: self.prose.clone(),
        }
    }
}

/// A push notification. `prose` is the text the recipient's agent reads.
#[derive(Debug, PartialEq, Eq)]
pub struct GotifyNotification {
    pub title: String,
    pub message: String,
    pub prose: String,
}

impl Clone for GotifyNotification {
    fn clone(&self) -> (copy: Self)
        ensures
            copy == *self,
    {
        GotifyNotification {
            title: self.title.clone(),
            message: self.message.clone(),
            prose: self.prose.clone(),
        }
    }
}

/// A file attached to a Slack message.
#[derive(Debug, PartialEq, Eq)]
pub struct SlackFile {
    pub id: String,
    pub name: String,
}

/// A message read from Slack.
#[derive(Debug, PartialEq, Eq)]
pub struct SlackMessage {
    pub workspace: String,
    pub conversation: String,
    pub conversation_label: String,
    pub ts: String,
    pub thread_ts: Option<String>,
    pub user: Option<String>,
    pub text: String,
    pub files: Vec<SlackFile>,
}

/// A point in time: seconds and nanoseconds since the epoch.
#[derive(Debug, Clone, Copy, PartialEq, Eq, Structural)]
pub struct Timestamp {
    pub secs: u64,
    pub nanos: u32,
}

/// Which messages of a conversation are delivered.
#[derive(Debug, Clone, Copy, PartialEq, Eq, Structural)]
pub enum SlackWatchMode {
    All,
    MentionsOnly,
}

/// What a Slack subscription watches.
#[derive(Debug, PartialEq, Eq)]
pub enum SlackSubscriptionTarget {
    DirectMessages,
    Mentions,
    Conversation { id: String, mode: SlackWatchMode },
}

impl Clone for SlackSubscriptionTarget {
    fn clone(&self) -> (copy: Self)
        ensures
            copy == *self,
    {
        match self {
            SlackSubscriptionTarget::DirectMessages => SlackSubscriptionTarget::DirectMessages,
            SlackSubscriptionTarget::Mentions => SlackSubscriptionTarget::Mentions,
            SlackSubscriptionTarget::Conversation { id, mode } =>
                SlackSubscriptionTarget::Conversation { id: id.clone(), mode: *mode },
        }
    }
}

/// What a session watches in a Slack workspace. The lead of `project` owns
/// it, or the worker that `team_role` labels.
#[derive(Debug, PartialEq, Eq)]
pub struct SlackSubscription {
    pub id: u128,
    pub workspace: String,
    pub project: String,
    pub team_role: Option<String>,
    pub target: SlackSubscriptionTarget,
    pub created_at: Timestamp,
}

impl Clone for SlackSubscription {
    fn clone(&self) -> (copy: Self)
        ensures
            copy == *self,
    {
        SlackSubscription {
            id: self.id,
            workspace: self.workspace.clone(),
            project: self.project.clone(),
            team_role: clone_option(&self.team_role),
            target: self.target.clone(),
            created_at: self.created_at,
        }
    }
}

/// A post that waits for its author's approval.
#[derive(Debug, PartialEq, Eq)]
pub struct SlackDraft {
    pub id: u128,
    pub workspace: String,
    pub conversation: String,
    pub thread_ts: Option<String>,
    pub text: String,
}

/// A cron's prompt that waits for its owner.
#[derive(Debug, PartialEq, Eq)]
pub struct PendingCron {
    pub text: String,
    pub missed: bool,
}

/// Whether a worker's session is up.
#[derive(Debug, Clone, Copy, PartialEq, Eq, Structural)]
pub enum WorkerLiveness {
    Spawning,
    Running,
    /// Kept for its diagnostic; it is neither live nor counted.
    Failed,
}

/// What became of a worker's git worktree.
#[derive(Debug, Clone, Copy, PartialEq, Eq, Structural)]
pub enum WorktreeDisposition {
    /// There is none.
    Absent,
    /// It was not touched.
    Intact,
    Removed,
    RemovalFailed,
}

/// What a close that leaves the worktree alone says of it.
pub open spec fn untouched(is_git_repo: bool) -> WorktreeDisposition {
    if is_git_repo {
        WorktreeDisposition::Intact
    } else {
        WorktreeDisposition::Absent
    }
}

impl WorktreeDisposition {
    pub fn untouched(is_git_repo: bool) -> (disposition: Self)
        ensures
            disposition == untouched(is_git_repo),
    {
        if is_git_repo {
            WorktreeDisposition::Intact
        } else {
            WorktreeDisposition::Absent
        }
    }
}

/// Whether a worker came or went.
#[derive(Debug, Clone, Copy, PartialEq, Eq, Structural)]
pub enum WorkerStatusAction {
    Added,
    Removed,
}

/// What the user interface shows of a worker.
#[derive(Debug, PartialEq, Eq)]
pub struct WorkerStatus {
    pub label: String,
    pub slot: SessionSlot,
    pub session_id: Option<String>,
    pub status: WorkerLiveness,
    pub spawned_by: SessionSlot,
    pub diagnostic: Option<String>,
}

/// What a session tells the user interface.
#[derive(Debug, PartialEq, Eq)]
pub enum SessionUpdate {
    Spawning { key: SessionSlot, project_name: String, cwd: String, display_name: String },
    Connected {
        key: SessionSlot,
        session_id: String,
        cwd: String,
        current_model: CurrentModel,
        available_models: Vec<WireValue>,
        mode: Option<WireValue>,
        history: Vec<WireValue>,
        compaction_count: u64,
    },
    SessionReplaced {
        key: SessionSlot,
        session_id: String,
        cwd: String,
        current_model: CurrentModel,
        available_models: Vec<WireValue>,
        mode: Option<WireValue>,
        history: Vec<WireValue>,
        compaction_count: u64,
    },
    DictateOverrides { key: SessionSlot, overrides: DictateOverrides },
    ForgeAccountIdentity { key: SessionSlot, display_name: String },
    AuthRequired { key: SessionSlot, method_name: String, method_description: String },
    ConnectionFailed { key: SessionSlot, message: String, fatal: bool },
    FatalError(AppError),
    ServiceStatus { severity: ServiceSeverity, message: String },
    PermissionRequest { key: SessionSlot, tool_id: String, request: WireValue },
    QuestionRequest { key: SessionSlot, tool_id: String, request: WireValue },
    McpOperationError { key: SessionSlot, error: WireValue },
    RuntimeReloadCompleted { key: SessionSlot },
    RuntimeReloadFailed { key: SessionSlot, message: String },
    SetModeFailed { key: SessionSlot, mode: String, message: String },
    SetModelFailed { key: SessionSlot, model: String, message: String },
    TurnError {
        key: SessionSlot,
        message: String,
        class: Option<String>,
        terminal_reason: Option<String>,
    },
    SessionsListed { key: SessionSlot, sessions: Vec<WireValue> },
    StatusSnapshot { key: SessionSlot, account: WireValue, forge_account: Option<WireValue> },
    OauthCredentialsSnapshot { key: SessionSlot, credentials: WireValue },
    ContextUsageSnapshot { key: SessionSlot, percentage: Option<u8>, max_tokens: Option<u64> },
    McpSnapshot { key: SessionSlot, servers: Vec<WireValue>, error: Option<String> },
    ChatAppended { key: SessionSlot, msg: SdkMessage },
    HookObservation {
        key: SessionSlot,
        tool_use_id: Option<String>,
        permission_mode: Option<String>,
        effort: Option<String>,
        agent_id: Option<String>,
        agent_type: Option<String>,
    },
    PeerEnvelopeAppended { key: SessionSlot, wrapped: WrappedPrompt },
    GotifyNotificationAppended { key: SessionSlot, notification: GotifyNotification },
    CronPromptAppended { key: SessionSlot, text: String },
    SlackMessageAppended { key: SessionSlot, prose: String },
    SlackPostPending { key: SessionSlot, draft: SlackDraft },
    WorkerStatusChanged {
        project_key: String,
        action: WorkerStatusAction,
        status: WorkerStatus,
        worktree: WorktreeDisposition,
    },
}

/// What a session waits for the user to answer.
#[derive(Debug, Clone, Copy, PartialEq, Eq, Structural)]
pub enum InteractionKind {
    Permission,
    Question,
}

/// What a session is told to do.
#[derive(Debug, PartialEq, Eq)]
pub enum Command {
    Prompt { text: String, attachments: Vec<WireValue> },
    Cancel,
    SetMode { mode: String },
    SetModel { model: String },
    NewSession { cwd: String, launch_settings: SessionLaunchSettings },
    ResumeSession { session_id: String, cwd: String, launch_settings: SessionLaunchSettings },
    ReconnectMcpServer { server_name: String },
    ToggleMcpServer { server_name: String, enabled: bool },
    RespondPermission { tool_id: String, outcome: WireValue },
    RespondQuestion { tool_id: String, outcome: WireValue },
    /// One for the workspace, which is of no concern to a session.
    App { name: String },
}

/// What an agent is told to do.
#[derive(Debug, PartialEq, Eq)]
pub enum AgentCommand {
    Prompt { session_id: String, text: String, attachments: Vec<WireValue> },
    Cancel { session_id: String },
    SetMode { session_id: String, mode: String },
    SetModel { session_id: String, model: String },
    NewSession {
        /// The id it runs under; it picks one itself where there is none.
        session_id: Option<String>,
        cwd: String,
        launch_settings: SessionLaunchSettings,
    },
    ResumeSession { session_id: String, cwd: String, launch_settings: SessionLaunchSettings },
    ReconnectMcpServer { session_id: String, server_name: String },
    ToggleMcpServer { session_id: String, server_name: String, enabled: bool },
}

/// How a session is found and started.
#[derive(Debug, PartialEq, Eq)]
pub enum SessionTarget {
    Default,
    Named(String),
    Session(SessionSlot),
    FreshInProject { slot: SessionSlot },
}

/// What a session is started as.
#[derive(Debug, PartialEq, Eq)]
pub enum SpawnRole {
    Lead,
    Worker {
        label: String,
        /// The spawn wrote the worker's row, and takes it away if it fails.
        wrote_row: bool,
    },
}

/// Something the workspace asks to be done, outside the rules it keeps.
#[derive(Debug, PartialEq, Eq)]
pub enum Action {
    /// Tell the user interface.
    Emit(SessionUpdate),
    /// Give a session a prompt.
    Prompt { key: SessionSlot, text: String },
    /// Wake a project's lead.
    SpawnProject { project_name: String },
    /// Count one more question that waits for a reply.
    BumpIncoming { key: SessionSlot },
    /// Note which session a question went to.
    StampInflightTarget { correlation_id: String, key: SessionSlot },
    /// Fail the questions that wait for a session.
    ExpireTargetInflight { key: SessionSlot },
    /// Fail the questions that wait for a worker that is gone.
    ExpireInflightForClosedWorker { project_key: String, label: String },
    /// Fail what was parked for a slot, which nothing will connect to.
    ExpireParked { slot: SessionSlot, parked: Parked },
    /// Fail what is parked for a slot, which nothing will connect to.
    ExpireParkedForSlot { slot: SessionSlot },
    /// Deliver what is parked for a slot.
    DrainParked { slot: SessionSlot },
    /// End a session.
    ReleaseSession { slot: SessionSlot },
    /// End a session, unless another one has taken its slot.
    ReleaseSessionIfCurrent { slot: SessionSlot },
    /// Forget a worker's durable row.
    DeleteWorkerRow { project_key: String, label: String },
    /// Forget a worker's push subscriptions.
    RemoveGotifySubscriptions { project_key: String, label: String },
    /// Forget a worker's crons.
    DeleteCrons { project_key: String, label: String },
    /// Store a Slack subscription.
    StoreSlackSubscription { sub: SlackSubscription },
    /// Store how far a conversation has been read.
    SetSlackWatermark { workspace: String, conversation: String, ts: String },
    /// Start the poller of a Slack workspace.
    StartSlackWorkspace { label: String, poll_seconds: u64 },
    /// Forget a stored Slack subscription.
    DeleteSlackSubscription { id: u128 },
    /// Stop the poller of a Slack workspace.
    StopSlackWorkspace { label: String },
    /// Say in one notice what a session's turn did to the branch's threads.
    DrainReviewActivity { caller: SessionSlot },
    /// Record the id a slot's session runs under.
    NoteRunningSessionId { key: SessionSlot, session_id: String },
    /// List a session among its project's.
    RecordConnectedSession { cwd: String, session_id: String },
    /// Bring a project's stored workers back.
    RespawnWorkers { slot: SessionSlot, project_key: String, force_new: bool },
    /// Queue a worker's first turn.
    EnqueueKick { slot: SessionSlot, prompt_body: String },
    /// Tag a worker's transcript, and roll the spawn back if that fails.
    ApplyWorkerTag { key: SessionSlot, session_id: String, cwd: String, minted_row: bool },
    /// Try again to tag a worker's transcript.
    RetryWorkerTag {
        project_key: String,
        key: SessionSlot,
        session_id: String,
        label: String,
        cwd: String,
        is_git_repo: bool,
    },
    /// Roll a worker back whose spawn failed.
    AsyncWorkerSpawnFailure { key: SessionSlot, message: String, kind: SpawnFailureKind },
    /// Cool an account down.
    ReportRateLimit {
        org: String,
        project: String,
        session_id: String,
        reset_at: Option<u64>,
    },
    /// Forget the reviews of a branch that is gone.
    DeleteBranchReviewState { project: String, branch: String },
}

} // verus!
