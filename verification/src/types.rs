//! Data model shared by the supervisor core: session phases, run modes,
//! and the plain request/response records of the command surface.

use vstd::prelude::*;

verus! {

/// Lifecycle phase of a desktop session.
#[derive(Debug, Clone, Copy, PartialEq, Eq, Structural)]
pub enum SessionPhase {
    IdeaInput,
    AwaitingApproval,
    Running,
    Completed,
    Failed,
}

/// The user's intent for a new run.
#[derive(Debug, Clone, Copy, PartialEq, Eq, Structural)]
pub enum RunMode {
    Idea,
    EditPlan,
    Approve,
}

/// Overrides accepted when starting the backend supervisor.
#[derive(Debug, Clone)]
pub struct BackendStartConfig {
    pub host: Option<String>,
    pub port: Option<u16>,
    pub repo_root: Option<String>,
    pub force_restart: Option<bool>,
}

/// Snapshot of the backend supervisor's externally visible state.
#[derive(Debug, Clone)]
pub struct BackendStatus {
    pub running: bool,
    pub port: u16,
    pub health: bool,
    pub app_name: Option<String>,
    pub host: String,
    pub base_url: String,
    pub last_error: Option<String>,
}

/// A session row of the local store.
#[derive(Debug, Clone)]
pub struct SessionMeta {
    pub id: String,
    pub title: String,
    pub app_name: String,
    pub user_id: String,
    pub phase: SessionPhase,
    pub read_only: bool,
    pub created_at_ms: i64,
    pub updated_at_ms: i64,
}

/// Input of `create_session`.
#[derive(Debug, Clone)]
pub struct SessionCreateInput {
    pub app_name: String,
    pub user_id: String,
    pub session_id: Option<String>,
}

/// Input of `list_sessions`.
#[derive(Debug, Clone)]
pub struct SessionListInput {
    pub app_name: String,
    pub user_id: String,
}

/// Input of the session delete command.
#[derive(Debug, Clone)]
pub struct SessionDeleteInput {
    pub session_id: String,
}

/// Input of the message list command.
#[derive(Debug, Clone)]
pub struct SessionMessagesGetInput {
    pub session_id: String,
}

/// Input of `message_append`.
#[derive(Debug, Clone)]
pub struct SessionMessageAppendInput {
    pub session_id: String,
    pub role: String,
    pub text: String,
    pub status: String,
    pub created_at_ms: Option<i64>,
}

/// A message row of the local store.
#[derive(Debug, Clone)]
pub struct SessionMessage {
    pub id: String,
    pub session_id: String,
    pub role: String,
    pub text: String,
    pub status: String,
    pub created_at_ms: i64,
}

/// Input of the phase read command.
#[derive(Debug, Clone)]
pub struct SessionPhaseGetInput {
    pub session_id: String,
}

/// A session's phase together with its read-only flag.
#[derive(Debug, Clone, Copy, PartialEq, Eq, Structural)]
pub struct SessionPhaseState {
    pub phase: SessionPhase,
    pub read_only: bool,
}

/// Input of the phase write command.
#[derive(Debug, Clone)]
pub struct SessionPhaseSetInput {
    pub session_id: String,
    pub phase: SessionPhase,
    pub read_only: bool,
}

/// Input of the streaming run command.
#[derive(Debug, Clone)]
pub struct StreamRunInput {
    pub request_id: String,
    pub app_name: String,
    pub user_id: String,
    pub session_id: String,
    pub text: String,
    pub run_mode: RunMode,
    pub invocation_id: Option<String>,
}

/// The three credential values, each optional.
#[derive(Debug, Clone)]
pub struct KeysInput {
    pub google_api_key: Option<String>,
    pub brave_api_key: Option<String>,
    pub gemini_api_key: Option<String>,
}

/// Which credentials are stored, with a mask of each stored value.
#[derive(Debug, Clone)]
pub struct KeyPresence {
    pub google_api_key_set: bool,
    pub brave_api_key_set: bool,
    pub gemini_api_key_set: bool,
    pub google_api_key_masked: Option<String>,
    pub brave_api_key_masked: Option<String>,
    pub gemini_api_key_masked: Option<String>,
}

/// Generic acknowledgement returned by commands.
#[derive(Debug, Clone)]
pub struct Ack {
    pub ok: bool,
    pub message: Option<String>,
}

impl SessionPhase {
    /// The canonical lower-case name of the phase, as stored in the database.
    pub fn as_str(self) -> (r: &'static str)
        ensures
            self == SessionPhase::IdeaInput ==> r@ == "idea_input"@,
            self == SessionPhase::AwaitingApproval ==> r@ == "awaiting_approval"@,
            self == SessionPhase::Running ==> r@ == "running"@,
            self == SessionPhase::Completed ==> r@ == "completed"@,
            self == SessionPhase::Failed ==> r@ == "failed"@,
    {
        match self {
            SessionPhase::IdeaInput => "idea_input",
            SessionPhase::AwaitingApproval => "awaiting_approval",
            SessionPhase::Running => "running",
            SessionPhase::Completed => "completed",
            SessionPhase::Failed => "failed",
        }
    }
}

/// The canonical lower-case name of a run mode.
pub fn run_mode_as_str(run_mode: RunMode) -> (r: &'static str)
    ensures
        run_mode == RunMode::Idea ==> r@ == "idea"@,
        run_mode == RunMode::EditPlan ==> r@ == "edit_plan"@,
        run_mode == RunMode::Approve ==> r@ == "approve"@,
{
    match run_mode {
        RunMode::Idea => "idea",
        RunMode::EditPlan => "edit_plan",
        RunMode::Approve => "approve",
    }
}

} // verus!
