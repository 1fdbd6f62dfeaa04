//! What the server tells the interface and what the interface answers, as
//! plain values.
use vstd::prelude::*;
use crate::text::{owned, same_text};

verus! {

// ---------------------------------------------------------------------------
// Identifiers
// ---------------------------------------------------------------------------

/// A thread's identifier, in its canonical text form.
#[derive(Debug)]
pub struct ThreadId {
    pub text: String,
}

impl View for ThreadId {
    type V = Seq<char>;

    open spec fn view(&self) -> Seq<char> {
        self.text@
    }
}

impl ThreadId {
    pub fn new(text: &str) -> (r: ThreadId)
        ensures
            r@ == text@,
    {
        ThreadId { text: owned(text) }
    }

    pub fn duplicate(&self) -> (r: ThreadId)
        ensures
            r == *self,
    {
        ThreadId { text: self.text.clone() }
    }

    pub fn same(&self, other: &ThreadId) -> (r: bool)
        ensures
            r == (self@ == other@),
    {
        same_text(self.text.as_str(), other.text.as_str())
    }
}

/// A thread identifier as it was received: its text, and what reading it gave,
/// an identifier or the reason why it is none.
#[derive(Debug)]
pub struct ThreadRef {
    pub text: String,
    pub parsed: Result<ThreadId, String>,
}

#[derive(Clone, Copy, Debug, PartialEq, Eq, Structural)]
pub struct RequestId(pub usize);

pub open spec fn opt_text(o: Option<String>) -> Option<Seq<char>> {
    match o {
        Some(s) => Some(s@),
        None => None,
    }
}

pub open spec fn opt_thread(o: Option<ThreadId>) -> Option<Seq<char>> {
    match o {
        Some(t) => Some(t@),
        None => None,
    }
}

/// A copy of an optional text.
pub fn dup_text(o: &Option<String>) -> (r: Option<String>)
    ensures
        r == *o,
{
    match o {
        Some(s) => Some(s.clone()),
        None => None,
    }
}

/// A copy of an optional thread identifier.
pub fn dup_thread(o: &Option<ThreadId>) -> (r: Option<ThreadId>)
    ensures
        r == *o,
{
    match o {
        Some(t) => Some(t.duplicate()),
        None => None,
    }
}

/// Whether an optional text is there and reads `text`.
pub fn is_text(o: &Option<String>, text: &str) -> (r: bool)
    ensures
        r == (opt_text(*o) == Some(text@)),
{
    match o {
        Some(s) => same_text(s.as_str(), text),
        None => false,
    }
}

// ---------------------------------------------------------------------------
// Payloads
// ---------------------------------------------------------------------------

#[derive(Clone, Copy, Debug, PartialEq, Eq, Structural)]
pub enum TodoStatus {
    Pending,
    InProgress,
    Completed,
}

#[derive(Debug)]
pub struct TodoItem {
    pub content: String,
    pub status: TodoStatus,
}

impl TodoItem {
    pub fn duplicate(&self) -> (r: TodoItem)
        ensures
            r == *self,
    {
        TodoItem { content: self.content.clone(), status: self.status }
    }
}

#[derive(Clone, Copy, Debug, PartialEq, Eq, Structural)]
pub enum FileChangeOperation {
    Add,
    Delete,
    Update,
}

#[derive(Debug)]
pub enum FileChange {
    Add { content: String },
    Delete { content: String },
    Update { unified_diff: String, move_path: Option<String> },
    Omitted {
        operation: FileChangeOperation,
        reason: String,
        added: usize,
        removed: usize,
        bytes: usize,
    },
}

#[derive(Debug)]
pub struct FileChangeOutput {
    pub path: String,
    pub change: FileChange,
}

impl FileChangeOutput {
    pub fn duplicate(&self) -> (r: FileChangeOutput)
        ensures
            r == *self,
    {
        let change: FileChange = match &self.change {
            FileChange::Add { content } => FileChange::Add { content: content.clone() },
            FileChange::Delete { content } => FileChange::Delete { content: content.clone() },
            FileChange::Update { unified_diff, move_path } => FileChange::Update {
                unified_diff: unified_diff.clone(),
                move_path: dup_text(move_path),
            },
            FileChange::Omitted { operation, reason, added, removed, bytes } => {
                FileChange::Omitted {
                    operation: *operation,
                    reason: reason.clone(),
                    added: *added,
                    removed: *removed,
                    bytes: *bytes,
                }
            },
        };
        FileChangeOutput { path: self.path.clone(), change }
    }
}

/// Copies `todos`.
pub fn dup_todos(todos: &Vec<TodoItem>) -> (r: Vec<TodoItem>)
    ensures
        r@ == todos@,
{
    let mut out: Vec<TodoItem> = Vec::new();
    let mut i: usize = 0;
    while i < todos.len()
        invariant
            i <= todos@.len(),
            out@ =~= todos@.take(i as int),
        decreases todos@.len() - i,
    {
        out.push(todos[i].duplicate());
        i += 1;
    }
    out
}

#[derive(Debug)]
pub struct ErrorInfo {
    pub message: String,
}

#[derive(Debug)]
pub enum AgentStatus {
    PendingInit,
    Running,
    Interrupted,
    Completed(Option<String>),
    Errored(ErrorInfo),
    Shutdown,
    NotFound,
}

impl AgentStatus {
    pub fn duplicate(&self) -> (r: AgentStatus)
        ensures
            r == *self,
    {
        match self {
            AgentStatus::PendingInit => AgentStatus::PendingInit,
            AgentStatus::Running => AgentStatus::Running,
            AgentStatus::Interrupted => AgentStatus::Interrupted,
            AgentStatus::Completed(text) => AgentStatus::Completed(dup_text(text)),
            AgentStatus::Errored(error) => AgentStatus::Errored(
                ErrorInfo { message: error.message.clone() },
            ),
            AgentStatus::Shutdown => AgentStatus::Shutdown,
            AgentStatus::NotFound => AgentStatus::NotFound,
        }
    }
}

/// The words for a status.
pub open spec fn status_label(status: AgentStatus) -> Seq<char> {
    match status {
        AgentStatus::PendingInit => "pending"@,
        AgentStatus::Running => "running"@,
        AgentStatus::Interrupted => "interrupted"@,
        AgentStatus::Completed(Some(text)) => "completed ("@ + text@ + ")"@,
        AgentStatus::Completed(None) => "completed"@,
        AgentStatus::Errored(error) => "errored ("@ + error.message@ + ")"@,
        AgentStatus::Shutdown => "shutdown"@,
        AgentStatus::NotFound => "not_found"@,
    }
}

/// The words for `status`.
pub fn agent_status_label(status: &AgentStatus) -> (r: String)
    ensures
        r@ == status_label(*status),
{
    match status {
        AgentStatus::PendingInit => owned("pending"),
        AgentStatus::Running => owned("running"),
        AgentStatus::Interrupted => owned("interrupted"),
        AgentStatus::Completed(Some(text)) => {
            let mut out: String = owned("completed (");
            out.push_str(text.as_str());
            out.push_str(")");
            out
        },
        AgentStatus::Completed(None) => owned("completed"),
        AgentStatus::Errored(error) => {
            let mut out: String = owned("errored (");
            out.push_str(error.message.as_str());
            out.push_str(")");
            out
        },
        AgentStatus::Shutdown => owned("shutdown"),
        AgentStatus::NotFound => owned("not_found"),
    }
}

// ---------------------------------------------------------------------------
// Session events
// ---------------------------------------------------------------------------

#[derive(Clone, Copy, Debug, PartialEq, Eq, Structural)]
pub enum ToolCallResultKind {
    Final,
    StatusUpdate,
}

#[derive(Debug)]
pub struct ToolCallStartedEvent {
    pub call_id: String,
    pub tool_name: String,
    pub args_preview: String,
}

#[derive(Debug)]
pub struct ToolCallCompletedEvent {
    pub call_id: String,
    pub success: bool,
    pub output_preview: Option<String>,
    pub error: Option<String>,
    pub result_kind: ToolCallResultKind,
    pub related_thread_id: Option<ThreadId>,
    pub file_change: Option<FileChangeOutput>,
    pub file_changes: Vec<FileChangeOutput>,
    pub todos: Vec<TodoItem>,
}

#[derive(Debug)]
pub struct CollabAgentCompletedEvent {
    pub child_thread_id: ThreadId,
    pub agent_path: String,
    pub agent_nickname: Option<String>,
    pub status: AgentStatus,
}

#[derive(Debug)]
pub enum EventMsg {
    SessionConfigured { thread_id: ThreadRef },
    TurnStarted { turn_id: String },
    TurnCompleted { turn_id: String, last_assistant_message: Option<String> },
    TurnInterrupted { turn_id: String, reason: String },
    AgentStatusChanged { status: AgentStatus },
    UserMessage { text: String },
    AgentMessage { text: String },
    AgentMessageDelta { item_id: String, delta: String },
    AgentMessageCompleted { item_id: String, text: String },
    AgentReasoningDelta { item_id: String, delta: String },
    AgentReasoningCompleted { item_id: String, text: String },
    ToolCallStarted(ToolCallStartedEvent),
    ToolCallCompleted(ToolCallCompletedEvent),
    Error { error: ErrorInfo },
    StreamError { message: String },
    CollabAgentSpawnBegin { call_id: String },
    CollabAgentSpawnEnd { call_id: String, new_thread_id: Option<ThreadId> },
    CollabAgentCompleted(CollabAgentCompletedEvent),
    CollabResumeBegin { call_id: String },
    CollabResumeEnd { call_id: String },
    PlanModeChanged { enabled: bool },
}

/// A session event with the identifier under which it was sent.
#[derive(Debug)]
pub struct SessionEvent {
    pub id: String,
    pub msg: EventMsg,
}

// ---------------------------------------------------------------------------
// Requests of the server
// ---------------------------------------------------------------------------

#[derive(Debug)]
pub struct AskUserQuestionOption {
    pub label: String,
    pub description: String,
    pub preview: Option<String>,
}

#[derive(Debug)]
pub struct AskUserQuestion {
    pub question: String,
    pub header: String,
    pub multi_select: bool,
    pub options: Vec<AskUserQuestionOption>,
}

#[derive(Debug)]
pub struct AskUserQuestionParams {
    pub thread_id: ThreadRef,
    pub turn_id: String,
    pub questions: Vec<AskUserQuestion>,
}

#[derive(Debug)]
pub struct AskUserQuestionAnswer {
    pub question: String,
    pub selected: Vec<String>,
    pub preview: Option<String>,
}

#[derive(Debug)]
pub struct AskUserQuestionResponse {
    pub answers: Vec<AskUserQuestionAnswer>,
}

#[verifier::ext_equal]
pub struct AnswerView {
    pub question: Seq<char>,
    pub selected: Seq<Seq<char>>,
    pub preview: Option<Seq<char>>,
}

impl View for AskUserQuestionAnswer {
    type V = AnswerView;

    open spec fn view(&self) -> AnswerView {
        AnswerView {
            question: self.question@,
            selected: crate::text::texts(self.selected@),
            preview: opt_text(self.preview),
        }
    }
}

pub open spec fn answer_views(answers: Seq<AskUserQuestionAnswer>) -> Seq<AnswerView> {
    answers.map_values(|a: AskUserQuestionAnswer| a@)
}

#[derive(Debug)]
pub struct RequestPlanApprovalParams {
    pub thread_id: ThreadRef,
    pub turn_id: String,
    pub call_id: String,
    pub plan: String,
    pub reason: Option<String>,
}

#[derive(Clone, Copy, Debug, PartialEq, Eq, Structural)]
pub enum PlanApprovalDecision {
    Approved,
    Rejected,
}

#[derive(Debug)]
pub struct RequestPlanApprovalResponse {
    pub decision: PlanApprovalDecision,
    pub feedback: Option<String>,
}

#[allow(inconsistent_fields)]
#[derive(Debug)]
pub enum ServerRequest {
    AskUserQuestion { request_id: RequestId, params: AskUserQuestionParams },
    RequestPlanApproval { request_id: RequestId, params: RequestPlanApprovalParams },
}

/// An error that answers a request.
#[derive(Debug)]
pub struct JsonRpcError {
    pub code: i64,
    pub kind: String,
    pub message: String,
    pub source: String,
}

#[verifier::ext_equal]
pub struct RpcErrorView {
    pub code: i64,
    pub kind: Seq<char>,
    pub message: Seq<char>,
    pub source: Seq<char>,
}

impl View for JsonRpcError {
    type V = RpcErrorView;

    open spec fn view(&self) -> RpcErrorView {
        RpcErrorView {
            code: self.code,
            kind: self.kind@,
            message: self.message@,
            source: self.source@,
        }
    }
}

// ---------------------------------------------------------------------------
// Responses of the server
// ---------------------------------------------------------------------------

#[derive(Debug)]
pub struct ThreadListItem {
    pub thread_id: ThreadRef,
    pub updated_at: String,
    pub last_user_message: Option<String>,
    pub last_assistant_message: Option<String>,
}

#[derive(Debug)]
pub struct ThreadListResponse {
    pub data: Vec<ThreadListItem>,
    pub next_cursor: Option<String>,
}

#[derive(Debug)]
pub struct ThreadStartResponse {
    pub thread_id: ThreadRef,
}

#[derive(Debug)]
pub struct ThreadResumeResponse {
    pub thread_id: ThreadRef,
    pub initial_messages: Vec<EventMsg>,
}

#[derive(Debug)]
pub struct ThreadPreviewResponse {
    pub thread_id: ThreadRef,
    pub agent_path: Option<String>,
    pub agent_nickname: Option<String>,
    pub status: AgentStatus,
    pub is_live: bool,
    pub initial_messages: Vec<EventMsg>,
}

#[derive(Debug)]
pub struct TurnStartResponse {
    pub turn_id: String,
}

#[derive(Debug)]
pub struct TurnCancelResponse {
    pub cancelled_threads: usize,
}

#[derive(Debug)]
pub struct SetPlanModeResponse {
    pub enabled: bool,
}

// ---------------------------------------------------------------------------
// Laws
// ---------------------------------------------------------------------------

/// Each status has its own words, with what was said last or went wrong in
/// brackets.
pub proof fn statuses_have_their_words(text: String, error: ErrorInfo)
    ensures
        status_label(AgentStatus::PendingInit) == "pending"@,
        status_label(AgentStatus::Running) == "running"@,
        status_label(AgentStatus::Interrupted) == "interrupted"@,
        status_label(AgentStatus::Completed(None)) == "completed"@,
        status_label(AgentStatus::Completed(Some(text))) == "completed ("@ + text@ + ")"@,
        status_label(AgentStatus::Errored(error)) == "errored ("@ + error.message@ + ")"@,
        status_label(AgentStatus::Shutdown) == "shutdown"@,
        status_label(AgentStatus::NotFound) == "not_found"@,
{
}

} // verus!
