//! Full-screen, read-only live view of a subagent session, opened with Enter
//! from transcript-select mode. Views stack to support nested subagents.
use vstd::prelude::*;
use crate::config::ConfigView;
use crate::copying::{
    choice_of, choose_copy, chord_completes, completes, CopyChoice, PendingArgs,
    DOUBLE_ESC_WINDOW, GOTO_CHORD_WINDOW,
};
use crate::highlight::RenderContext;
use crate::history_cell::{
    error_kind, info_kind, GroupView, KindView, ToolCallGroupCell, ToolCallState, TranscriptItem,
};
use crate::keys::{no_modifiers, KeyCode, KeyEvent};
use crate::protocol::{
    agent_status_label, dup_text, is_text, opt_text, status_label, AgentStatus,
    CollabAgentCompletedEvent, ErrorInfo, EventMsg, ThreadId, ThreadPreviewResponse,
    ToolCallCompletedEvent, ToolCallResultKind, ToolCallStartedEvent,
};
use crate::style::{line_views, Line, LineView};
use crate::text::owned;
use crate::text_map::{filed, found, TextMap};
use crate::transcript::{
    empty_transcript, keeps_rows, Mark, Selection, Transcript, TranscriptView,
};

verus! {

/// One stacked preview of a subagent thread. A reduced, self-contained
/// counterpart of the main transcript state: it replays the thread's persisted
/// events and then applies its live broadcast events, but never reacts to
/// UI-global concerns (pickers, modes, effects).
#[derive(Debug)]
pub struct SubagentPreviewView {
    pub thread_id: ThreadId,
    pub agent_path: Option<String>,
    pub agent_nickname: Option<String>,
    pub status: AgentStatus,
    pub is_live: bool,
    /// Its call rows are never cleared, so a duplicate `ToolCallStarted` from the
    /// subscribe-then-snapshot overlap is dropped.
    pub transcript: Transcript,
    /// Final completions already applied; a duplicate `ToolCallCompleted`
    /// must not fall into the "unknown call" error fallback.
    pub completed_tool_call_ids: TextMap<()>,
    pub committed_assistant_item_id: Option<String>,
    pub committed_reasoning_item_id: Option<String>,
    /// Whether a row is selected; otherwise keys scroll.
    pub select_mode: bool,
    pub selected: usize,
    pub selected_tool_entry: Option<usize>,
    /// Armed by `y` on a call: a second `y` copies its arguments.
    pub pending_args: Option<(usize, Option<usize>, u64)>,
    /// Armed by `g` for the `gg` chord.
    pub pending_g: Option<u64>,
    /// Armed by Esc for the Esc-Esc chord.
    pub pending_esc: Option<u64>,
    pub scroll: u16,
    pub auto_scroll: bool,
}

#[verifier::ext_equal]
pub struct PreviewView {
    pub thread_id: Seq<char>,
    pub agent_path: Option<Seq<char>>,
    pub agent_nickname: Option<Seq<char>>,
    pub status: AgentStatus,
    pub is_live: bool,
    pub transcript: TranscriptView,
    pub completed: Seq<(Seq<char>, ())>,
    pub committed_assistant: Option<Seq<char>>,
    pub committed_reasoning: Option<Seq<char>>,
    pub select_mode: bool,
    pub at: Selection,
    pub pending_args: Option<(usize, Option<usize>, u64)>,
    pub pending_g: Option<u64>,
    pub pending_esc: Option<u64>,
    pub scroll: u16,
    pub auto_scroll: bool,
}

impl View for SubagentPreviewView {
    type V = PreviewView;

    open spec fn view(&self) -> PreviewView {
        PreviewView {
            thread_id: self.thread_id@,
            agent_path: opt_text(self.agent_path),
            agent_nickname: opt_text(self.agent_nickname),
            status: self.status,
            is_live: self.is_live,
            transcript: self.transcript@,
            completed: self.completed_tool_call_ids@,
            committed_assistant: opt_text(self.committed_assistant_item_id),
            committed_reasoning: opt_text(self.committed_reasoning_item_id),
            select_mode: self.select_mode,
            at: Selection { item: self.selected, entry: self.selected_tool_entry },
            pending_args: self.pending_args,
            pending_g: self.pending_g,
            pending_esc: self.pending_esc,
            scroll: self.scroll,
            auto_scroll: self.auto_scroll,
        }
    }
}

// ---------------------------------------------------------------------------
// Events
// ---------------------------------------------------------------------------

/// The status that an event tells, where it tells one.
pub open spec fn told_status(msg: EventMsg) -> Option<AgentStatus> {
    match msg {
        EventMsg::AgentStatusChanged { status } => Some(status),
        EventMsg::TurnStarted { turn_id } => Some(AgentStatus::Running),
        EventMsg::TurnCompleted { turn_id, last_assistant_message } => Some(
            AgentStatus::Completed(last_assistant_message),
        ),
        EventMsg::TurnInterrupted { turn_id, reason } => Some(AgentStatus::Interrupted),
        EventMsg::Error { error } => Some(AgentStatus::Errored(error)),
        _ => None,
    }
}

/// Whether an agent of that status has ended.
pub open spec fn ended(status: AgentStatus) -> bool {
    status is Interrupted || status is Completed || status is Errored || status is Shutdown
}

/// What went wrong in a call.
pub open spec fn call_error(tool: ToolCallCompletedEvent) -> Option<Seq<char>> {
    if tool.success {
        None
    } else {
        match tool.error {
            Some(error) => Some(error@),
            None => Some("tool failed"@),
        }
    }
}

pub open spec fn call_state(tool: ToolCallCompletedEvent) -> ToolCallState {
    if tool.success {
        ToolCallState::Success
    } else {
        ToolCallState::Failure
    }
}

pub open spec fn nested_notice(event: CollabAgentCompletedEvent) -> Seq<char> {
    "nested subagent "@ + match event.agent_nickname {
        Some(name) => name@,
        None => event.agent_path@,
    } + " finished: "@ + status_label(event.status)
}

impl PreviewView {
    pub open spec fn with_transcript(self, transcript: TranscriptView) -> PreviewView {
        PreviewView { transcript, ..self }
    }

    pub open spec fn told(self, msg: EventMsg) -> PreviewView {
        match told_status(msg) {
            Some(status) => PreviewView {
                status,
                is_live: self.is_live && !ended(status),
                ..self
            },
            None => self,
        }
    }

    /// Both streams become rows.
    pub open spec fn settled(self) -> PreviewView {
        self.with_transcript(self.transcript.reasoning_committed().0.assistant_committed().0)
    }

    pub open spec fn started(self, tool: ToolCallStartedEvent) -> PreviewView {
        if found(self.transcript.tool_rows, tool.call_id@) is Some {
            self
        } else {
            let settled = self.settled();
            settled.with_transcript(
                settled.transcript.call_started(
                    tool.call_id@,
                    tool.tool_name@,
                    tool.args_preview@,
                ),
            )
        }
    }

    pub open spec fn related(self, call_id: Seq<char>, thread: Option<ThreadId>) -> PreviewView {
        match (found(self.transcript.tool_rows, call_id), thread) {
            (Some((i, entry)), Some(id)) => self.with_transcript(
                self.transcript.call_related(i as int, entry as int, id@),
            ),
            _ => self,
        }
    }

    pub open spec fn completed_call(self, tool: ToolCallCompletedEvent) -> PreviewView {
        let known = self.settled().related(tool.call_id@, tool.related_thread_id);
        let row = found(known.transcript.tool_rows, tool.call_id@);
        if tool.result_kind == ToolCallResultKind::StatusUpdate && tool.success {
            match row {
                Some((i, entry)) => known.with_transcript(
                    known.transcript.call_ended(
                        i as int,
                        entry as int,
                        ToolCallState::Running,
                        None,
                    ),
                ),
                None => known,
            }
        } else if found(known.completed, tool.call_id@) is Some {
            known
        } else {
            let noted = PreviewView {
                completed: filed(known.completed, tool.call_id@, ()),
                ..known
            };
            match row {
                Some((i, entry)) => noted.with_transcript(
                    noted.transcript.call_finished(
                        i as int,
                        entry as int,
                        opt_text(tool.output_preview),
                        call_state(tool),
                        call_error(tool),
                    ),
                ),
                None => match call_error(tool) {
                    Some(error) => noted.with_transcript(
                        noted.transcript.with_error(
                            "tool "@ + tool.call_id@ + " failed: "@ + error,
                        ),
                    ),
                    None => noted,
                },
            }
        }
    }

    /// The full text of an answer: it goes before what streamed of it.
    pub open spec fn answered(self, item_id: Seq<char>, text: Seq<char>) -> PreviewView {
        if self.committed_assistant == Some(item_id) {
            self
        } else {
            PreviewView {
                transcript: (TranscriptView {
                    assistant: None,
                    active_assistant: None,
                    ..self.transcript
                }).with_assistant_text(text),
                committed_assistant: Some(item_id),
                ..self
            }
        }
    }

    pub open spec fn reasoned(self, item_id: Seq<char>, text: Seq<char>) -> PreviewView {
        let open = self.with_transcript(self.transcript.grouping_ended());
        if self.committed_reasoning == Some(item_id) {
            open
        } else {
            PreviewView {
                transcript: (TranscriptView {
                    reasoning: None,
                    active_reasoning: None,
                    ..open.transcript
                }).with_reasoning_text(text),
                committed_reasoning: Some(item_id),
                ..open
            }
        }
    }

    /// The view after an event of its thread.
    #[verifier::opaque]
    pub open spec fn event(self, msg: EventMsg, width: u16) -> PreviewView {
        let view = self.told(msg);
        let t = view.transcript;
        match msg {
            EventMsg::UserMessage { text } => view.with_transcript(
                t.reasoning_committed().0.with_item(KindView::User { message: text@ }),
            ),
            EventMsg::AgentMessage { text } => view.with_transcript(
                t.reasoning_committed().0.with_assistant_text(text@),
            ),
            EventMsg::AgentMessageDelta { item_id, delta } => view.with_transcript(
                t.assistant_streamed(delta@, width),
            ),
            EventMsg::AgentMessageCompleted { item_id, text } => view.answered(item_id@, text@),
            EventMsg::AgentReasoningDelta { item_id, delta } => view.with_transcript(
                t.reasoning_streamed(delta@, width),
            ),
            EventMsg::AgentReasoningCompleted { item_id, text } => view.reasoned(item_id@, text@),
            EventMsg::ToolCallStarted(tool) => view.started(tool),
            EventMsg::ToolCallCompleted(tool) => view.completed_call(tool),
            EventMsg::TurnStarted { turn_id } => view.with_transcript(t.grouping_ended()),
            EventMsg::TurnCompleted { turn_id, last_assistant_message } => view.settled(),
            EventMsg::TurnInterrupted { turn_id, reason } => view.settled(),
            EventMsg::Error { error } => {
                let settled = view.settled();
                settled.with_transcript(settled.transcript.with_error(error.message@))
            },
            EventMsg::CollabAgentCompleted(event) => view.with_transcript(
                t.with_info(nested_notice(event)),
            ),
            EventMsg::CollabAgentSpawnEnd { call_id, new_thread_id } => view.related(
                call_id@,
                new_thread_id,
            ),
            _ => view,
        }
    }

    /// The view after the first `n` of the events.
    pub open spec fn events(self, msgs: Seq<EventMsg>, width: u16, n: nat) -> PreviewView
        decreases n,
    {
        if n == 0 {
            self
        } else {
            self.events(msgs, width, (n - 1) as nat).event(msgs[n - 1], width)
        }
    }

    pub open spec fn ended_by_parent(self, status: AgentStatus) -> PreviewView {
        PreviewView { status, is_live: false, ..self }
    }
}

/// A view of a thread before any of its events.
pub open spec fn blank_preview(thread_id: Seq<char>, response: ThreadPreviewResponse) -> PreviewView {
    PreviewView {
        thread_id,
        agent_path: opt_text(response.agent_path),
        agent_nickname: opt_text(response.agent_nickname),
        status: response.status,
        is_live: response.is_live,
        transcript: empty_transcript(0),
        completed: Seq::empty(),
        committed_assistant: None,
        committed_reasoning: None,
        select_mode: false,
        at: Selection { item: 0, entry: None },
        pending_args: None,
        pending_g: None,
        pending_esc: None,
        scroll: 0,
        auto_scroll: true,
    }
}

/// The view that a response opens: its events replayed, its status on top of
/// theirs, the last row selected.
pub open spec fn opened_preview(
    thread_id: Seq<char>,
    response: ThreadPreviewResponse,
    width: u16,
) -> PreviewView {
    let replayed = blank_preview(thread_id, response).events(
        response.initial_messages@,
        width,
        response.initial_messages@.len(),
    );
    PreviewView {
        status: response.status,
        at: Selection { item: replayed.transcript.last_item(), ..replayed.at },
        ..replayed
    }
}

impl SubagentPreviewView {
    pub open spec fn wf(&self, config: ConfigView) -> bool {
        self.transcript.wf(config)
    }

    pub open spec fn keeps(before: SubagentPreviewView, after: SubagentPreviewView) -> bool {
        keeps_rows(before.transcript, after.transcript)
    }

    /// Mirror of the agent's own status tracking, applied to every event so
    /// the header tracks terminal turn states even when no explicit
    /// `AgentStatusChanged` arrives on this channel.
    fn update_status_from_event(&mut self, msg: &EventMsg)
        ensures
            final(self)@ == old(self)@.told(*msg),
            Self::keeps(*old(self), *final(self)),
    {
        let status: AgentStatus = match msg {
            EventMsg::AgentStatusChanged { status } => status.duplicate(),
            EventMsg::TurnStarted { turn_id } => AgentStatus::Running,
            EventMsg::TurnCompleted { turn_id, last_assistant_message } => AgentStatus::Completed(
                dup_text(last_assistant_message),
            ),
            EventMsg::TurnInterrupted { turn_id, reason } => AgentStatus::Interrupted,
            EventMsg::Error { error } => AgentStatus::Errored(
                ErrorInfo { message: error.message.clone() },
            ),
            _ => {
                return;
            },
        };
        match &status {
            AgentStatus::Interrupted | AgentStatus::Completed(_) | AgentStatus::Errored(_)
            | AgentStatus::Shutdown => {
                self.is_live = false;
            },
            _ => {},
        }
        self.status = status;
    }

    /// Patch the status from the parent's `CollabAgentCompleted` (the child's
    /// own channel may close before its final status broadcast arrives).
    pub fn complete_from_parent(&mut self, status: AgentStatus)
        ensures
            final(self)@ == old(self)@.ended_by_parent(status),
            Self::keeps(*old(self), *final(self)),
    {
        self.status = status;
        self.is_live = false;
    }

    /// Commit any active streams as items. Used for turn boundaries and tool
    /// starts; the completed handlers instead discard the stream because the
    /// full text follows.
    fn finalize_assistant_stream(&mut self)
        ensures
            final(self)@ == old(self)@.settled(),
            Self::keeps(*old(self), *final(self)),
    {
        self.transcript.commit_reasoning_stream();
        self.transcript.commit_assistant_stream();
    }

    fn relate(&mut self, call_id: &str, thread_id: &Option<ThreadId>)
        ensures
            final(self)@ == old(self)@.related(call_id@, *thread_id),
            Self::keeps(*old(self), *final(self)),
    {
        match (self.transcript.call_row(call_id), thread_id) {
            (Some((cell_idx, entry_idx)), Some(id)) => {
                self.transcript.relate_call(cell_idx, entry_idx, id.duplicate());
            },
            _ => {},
        }
    }

    fn apply_tool_started(&mut self, tool: &ToolCallStartedEvent)
        ensures
            final(self)@ == old(self)@.started(*tool),
            Self::keeps(*old(self), *final(self)),
    {
        if self.transcript.tool_call_rows.contains_key(tool.call_id.as_str()) {
            return;
        }
        self.finalize_assistant_stream();
        self.transcript.start_call(
            tool.call_id.as_str(),
            tool.tool_name.as_str(),
            tool.args_preview.as_str(),
        );
    }

    fn apply_tool_completed(&mut self, tool: &ToolCallCompletedEvent)
        ensures
            final(self)@ == old(self)@.completed_call(*tool),
            Self::keeps(*old(self), *final(self)),
    {
        self.finalize_assistant_stream();
        self.relate(tool.call_id.as_str(), &tool.related_thread_id);
        let row: Option<(usize, usize)> = self.transcript.call_row(tool.call_id.as_str());
        if tool.result_kind == ToolCallResultKind::StatusUpdate && tool.success {
            match row {
                Some((cell_idx, entry_idx)) => {
                    self.transcript.end_call(cell_idx, entry_idx, ToolCallState::Running, None);
                },
                None => {},
            }
            return;
        }
        if self.completed_tool_call_ids.contains_key(tool.call_id.as_str()) {
            return;
        }
        self.completed_tool_call_ids.insert(tool.call_id.clone(), ());
        // Patch/todo events are rendered as plain tool rows here; the
        // structured replacements stay a main-transcript affordance.
        let state: ToolCallState = if tool.success {
            ToolCallState::Success
        } else {
            ToolCallState::Failure
        };
        let error: Option<String> = call_failure(tool);
        match row {
            Some((cell_idx, entry_idx)) => {
                self.transcript.finish_call(
                    cell_idx,
                    entry_idx,
                    dup_text(&tool.output_preview),
                    state,
                    error,
                );
            },
            None => match error {
                Some(error) => {
                    let message: String = failure_notice(tool.call_id.as_str(), error.as_str());
                    self.transcript.push_error(message.as_str());
                },
                None => {},
            },
        }
    }

    fn apply_answer(&mut self, item_id: &String, text: &str, width: u16)
        ensures
            final(self)@ == old(self)@.answered(item_id@, text@),
            Self::keeps(*old(self), *final(self)),
    {
        if is_text(&self.committed_assistant_item_id, item_id.as_str()) {
            return;
        }
        // Full text wins: discard the (possibly tail-only) stream.
        self.transcript.drop_assistant_stream();
        self.transcript.push_rendered_assistant_message(text, width);
        self.committed_assistant_item_id = Some(item_id.clone());
    }

    fn apply_reasoning(&mut self, item_id: &String, text: &str, width: u16)
        ensures
            final(self)@ == old(self)@.reasoned(item_id@, text@),
            Self::keeps(*old(self), *final(self)),
    {
        self.transcript.end_grouping();
        if is_text(&self.committed_reasoning_item_id, item_id.as_str()) {
            return;
        }
        self.transcript.drop_reasoning_stream();
        self.transcript.push_rendered_reasoning_message(text, width);
        self.committed_reasoning_item_id = Some(item_id.clone());
    }

    /// Apply one protocol event from this thread (replayed or live). Reduced
    /// against the main transcript, with two deliberate differences: completed
    /// full-text events win over the active streamed tail (a preview opened
    /// mid-stream has no earlier deltas, so committing the tail would truncate
    /// the message), and duplicate started/completed tool calls are dropped
    /// (subscribe-then-snapshot can duplicate persisted events).
    pub fn apply_event(&mut self, msg: &EventMsg, width: u16)
        ensures
            final(self)@ == old(self)@.event(*msg, width),
            Self::keeps(*old(self), *final(self)),
    {
        reveal(PreviewView::event);
        self.update_status_from_event(msg);
        match msg {
            EventMsg::UserMessage { text } => {
                self.transcript.commit_reasoning_stream();
                self.transcript.push_user(text.as_str());
            },
            EventMsg::AgentMessage { text } => {
                self.transcript.commit_reasoning_stream();
                self.transcript.push_rendered_assistant_message(text.as_str(), width);
            },
            EventMsg::AgentMessageDelta { item_id, delta } => {
                self.transcript.handle_assistant_delta(delta.as_str(), width);
            },
            EventMsg::AgentMessageCompleted { item_id, text } => {
                self.apply_answer(item_id, text.as_str(), width);
            },
            EventMsg::AgentReasoningDelta { item_id, delta } => {
                self.transcript.handle_reasoning_delta(delta.as_str(), width);
            },
            EventMsg::AgentReasoningCompleted { item_id, text } => {
                self.apply_reasoning(item_id, text.as_str(), width);
            },
            EventMsg::ToolCallStarted(tool) => self.apply_tool_started(tool),
            EventMsg::ToolCallCompleted(tool) => self.apply_tool_completed(tool),
            EventMsg::TurnStarted { turn_id } => self.transcript.end_grouping(),
            EventMsg::TurnCompleted { turn_id, last_assistant_message } => {
                self.finalize_assistant_stream();
            },
            EventMsg::TurnInterrupted { turn_id, reason } => self.finalize_assistant_stream(),
            EventMsg::Error { error } => {
                self.finalize_assistant_stream();
                self.transcript.push_error(error.message.as_str());
            },
            EventMsg::CollabAgentCompleted(event) => {
                let message: String = format_args_completed(event);
                self.transcript.push_info(message.as_str());
            },
            EventMsg::CollabAgentSpawnEnd { call_id, new_thread_id } => {
                self.relate(call_id.as_str(), new_thread_id);
            },
            // UI-global or cosmetic events have no preview rendering.
            _ => {},
        }
    }

    /// The view that a response opens.
    pub fn from_preview_response(
        thread_id: ThreadId,
        response: &ThreadPreviewResponse,
        width: u16,
    ) -> (r: SubagentPreviewView)
        ensures
            r@ == opened_preview(thread_id@, *response, width),
            forall|config: ConfigView| #[trigger] r.wf(config),
    {
        let ghost id = thread_id@;
        let mut view: SubagentPreviewView = SubagentPreviewView {
            thread_id,
            agent_path: dup_text(&response.agent_path),
            agent_nickname: dup_text(&response.agent_nickname),
            status: response.status.duplicate(),
            is_live: response.is_live,
            transcript: Transcript::new(0),
            completed_tool_call_ids: TextMap::new(),
            committed_assistant_item_id: None,
            committed_reasoning_item_id: None,
            select_mode: false,
            selected: 0,
            selected_tool_entry: None,
            pending_args: None,
            pending_g: None,
            pending_esc: None,
            scroll: 0,
            auto_scroll: true,
        };
        let ghost start = view@;
        assert(start == blank_preview(id, *response));
        let mut i: usize = 0;
        while i < response.initial_messages.len()
            invariant
                i <= response.initial_messages@.len(),
                view@ == start.events(response.initial_messages@, width, i as nat),
                forall|config: ConfigView| #[trigger] view.transcript.wf(config),
            decreases response.initial_messages@.len() - i,
        {
            let ghost before = view;
            view.apply_event(&response.initial_messages[i], width);
            assert forall|config: ConfigView| #[trigger] view.transcript.wf(config) by {
                assert(before.transcript.wf(config));
            }
            i += 1;
        }
        // Replayed events may lag the live status (and a live thread has no
        // terminal event at all), so the response status wins.
        view.status = response.status.duplicate();
        view.selected = view.transcript.last_index();
        view
    }
}

/// What went wrong in a call.
pub fn call_failure(tool: &ToolCallCompletedEvent) -> (r: Option<String>)
    ensures
        opt_text(r) == call_error(*tool),
{
    if tool.success {
        None
    } else {
        match &tool.error {
            Some(error) => Some(error.clone()),
            None => Some(owned("tool failed")),
        }
    }
}

/// The notice of a call that failed.
pub fn failure_notice(call_id: &str, error: &str) -> (r: String)
    ensures
        r@ == "tool "@ + call_id@ + " failed: "@ + error@,
{
    let mut out: String = owned("tool ");
    out.push_str(call_id);
    out.push_str(" failed: ");
    out.push_str(error);
    out
}

fn format_args_completed(event: &CollabAgentCompletedEvent) -> (r: String)
    ensures
        r@ == nested_notice(*event),
{
    let mut out: String = owned("nested subagent ");
    match &event.agent_nickname {
        Some(name) => out.push_str(name.as_str()),
        None => out.push_str(event.agent_path.as_str()),
    }
    out.push_str(" finished: ");
    let label: String = agent_status_label(&event.status);
    out.push_str(label.as_str());
    out
}

// ---------------------------------------------------------------------------
// Rows
// ---------------------------------------------------------------------------

pub open spec fn empty_notice() -> Seq<char> {
    "Subagent transcript is empty."@
}

impl PreviewView {
    #[verifier::opaque]
    pub open spec fn header(self) -> Seq<char> {
        "subagent "@ + match self.agent_nickname {
            Some(name) => name,
            None => match self.agent_path {
                Some(path) => path,
                None => self.thread_id,
            },
        } + " — "@ + status_label(self.status)
    }

    pub open spec fn farthest(self, config: ConfigView, width: u16, height: u16) -> u16 {
        self.transcript.farthest(config, width, false, height)
    }

    pub open spec fn at_bottom(self, config: ConfigView, width: u16, height: u16) -> PreviewView {
        PreviewView { scroll: self.farthest(config, width, height), ..self }
    }

    /// The view when its window follows the stream.
    pub open spec fn followed(self, config: ConfigView, width: u16, height: u16) -> PreviewView {
        if self.auto_scroll {
            self.at_bottom(config, width, height)
        } else {
            self
        }
    }

    /// The view with the selection on screen.
    pub open spec fn with_selection_shown(
        self,
        config: ConfigView,
        width: u16,
        height: u16,
    ) -> PreviewView {
        PreviewView {
            scroll: self.transcript.scrolled_to(
                config,
                self.at,
                width,
                false,
                height,
                self.scroll,
            ),
            auto_scroll: false,
            ..self
        }
    }

    /// What is marked on screen.
    pub open spec fn mark(self) -> Mark {
        if self.select_mode {
            Some((self.at.item, self.at.entry))
        } else {
            None
        }
    }

    pub open spec fn visible(self, config: ConfigView, width: u16, height: u16) -> Seq<LineView> {
        self.transcript.visible(
            config,
            width,
            false,
            self.mark(),
            self.scroll,
            height,
            empty_notice(),
        )
    }

    /// The first item, from `i` on, that ends below the top of the window; the
    /// last one where none does.
    pub open spec fn top_item_from(self, config: ConfigView, width: u16, i: nat) -> usize
        decreases self.transcript.items.len() - i,
    {
        if i + 1 >= self.transcript.items.len() {
            self.transcript.last_item()
        } else {
            let (start, rows) = self.transcript.item_extent(config, width, false, i);
            if start + rows > self.scroll {
                i as usize
            } else {
                self.top_item_from(config, width, i + 1)
            }
        }
    }
}

impl SubagentPreviewView {
    pub fn header_label(&self) -> (r: String)
        ensures
            r@ == self@.header(),
    {
        reveal(PreviewView::header);
        let mut out: String = owned("subagent ");
        match &self.agent_nickname {
            Some(name) => out.push_str(name.as_str()),
            None => match &self.agent_path {
                Some(path) => out.push_str(path.as_str()),
                None => out.push_str(self.thread_id.text.as_str()),
            },
        }
        out.push_str(" — ");
        let label: String = agent_status_label(&self.status);
        out.push_str(label.as_str());
        out
    }

    /// The group of calls in the selected row.
    pub fn selected_tool_group(&self) -> (r: Option<&ToolCallGroupCell>)
        ensures
            match r {
                Some(cell) => self@.transcript.group_at(self@.at.item) == Some(cell@),
                None => self@.transcript.group_at(self@.at.item) is None,
            },
    {
        self.transcript.group(self.selected)
    }

    /// The selected row.
    pub fn selected_item(&self) -> (r: Option<&TranscriptItem>)
        ensures
            match r {
                Some(item) => self@.at.item < self@.transcript.items.len()
                    && self@.transcript.items[self@.at.item as int] == item@,
                None => self@.at.item >= self@.transcript.items.len(),
            },
    {
        if self.selected < self.transcript.items.len() {
            assert(self@.transcript.items[self.selected as int]
                == self.transcript.items@[self.selected as int]@);
            Some(&self.transcript.items[self.selected])
        } else {
            None
        }
    }

    pub fn item_count(&self) -> (r: usize)
        ensures
            r == self@.transcript.items.len(),
    {
        self.transcript.items.len()
    }

    pub fn max_scroll(&mut self, ctx: &RenderContext, width: u16, viewport_height: u16) -> (r: u16)
        requires
            old(self).wf(ctx.config@),
        ensures
            final(self).wf(ctx.config@),
            final(self)@ == old(self)@,
            r == old(self)@.farthest(ctx.config@, width, viewport_height),
    {
        self.transcript.max_scroll(ctx, width, false, viewport_height)
    }

    pub fn scroll_to_bottom(&mut self, ctx: &RenderContext, width: u16, viewport_height: u16)
        requires
            old(self).wf(ctx.config@),
        ensures
            final(self).wf(ctx.config@),
            final(self)@ == old(self)@.at_bottom(ctx.config@, width, viewport_height),
    {
        self.scroll = self.transcript.max_scroll(ctx, width, false, viewport_height);
    }

    /// Follows the stream where the window does.
    pub fn follow(&mut self, ctx: &RenderContext, width: u16, viewport_height: u16)
        requires
            old(self).wf(ctx.config@),
        ensures
            final(self).wf(ctx.config@),
            final(self)@ == old(self)@.followed(ctx.config@, width, viewport_height),
    {
        if self.auto_scroll {
            self.scroll_to_bottom(ctx, width, viewport_height);
        }
    }

    pub fn selection(&self) -> (r: Selection)
        ensures
            r == self@.at,
    {
        Selection { item: self.selected, entry: self.selected_tool_entry }
    }

    fn set_selection(&mut self, at: Selection)
        ensures
            final(self)@ == (PreviewView { at, ..old(self)@ }),
            Self::keeps(*old(self), *final(self)),
    {
        self.selected = at.item;
        self.selected_tool_entry = at.entry;
    }

    pub fn ensure_selected_visible(
        &mut self,
        ctx: &RenderContext,
        width: u16,
        viewport_height: u16,
    )
        requires
            old(self).wf(ctx.config@),
        ensures
            final(self).wf(ctx.config@),
            final(self)@ == old(self)@.with_selection_shown(ctx.config@, width, viewport_height),
    {
        let at: Selection = self.selection();
        self.scroll = self.transcript.scroll_to_selection(
            ctx,
            at,
            width,
            false,
            viewport_height,
            self.scroll,
        );
        self.auto_scroll = false;
    }

    /// The first item on screen.
    pub fn first_visible_item(&mut self, ctx: &RenderContext, width: u16) -> (r: usize)
        requires
            old(self).wf(ctx.config@),
        ensures
            final(self).wf(ctx.config@),
            final(self)@ == old(self)@,
            r == old(self)@.top_item_from(ctx.config@, width, 0),
    {
        let top: usize = self.scroll as usize;
        let last: usize = self.transcript.last_index();
        let mut i: usize = 0;
        while i < last
            invariant
                self.wf(ctx.config@),
                self@ == old(self)@,
                top == self@.scroll,
                last == self@.transcript.last_item(),
                i <= last,
                self@.top_item_from(ctx.config@, width, 0) == self@.top_item_from(
                    ctx.config@,
                    width,
                    i as nat,
                ),
            decreases last - i,
        {
            let (start, rows): (usize, usize) = self.transcript.item_row_extent(
                ctx,
                i,
                width,
                false,
            );
            if start > top || rows > top - start {
                return i;
            }
            i += 1;
        }
        assert(self@.transcript.items.len() == self.transcript.items.len());
        last
    }

    pub fn visible_lines(&mut self, ctx: &RenderContext, width: u16, viewport_height: u16) -> (r:
        Vec<Line>)
        requires
            old(self).wf(ctx.config@),
        ensures
            final(self).wf(ctx.config@),
            final(self)@ == old(self)@,
            line_views(r@) == old(self)@.visible(ctx.config@, width, viewport_height),
    {
        let mark: Mark = if self.select_mode {
            Some((self.selected, self.selected_tool_entry))
        } else {
            None
        };
        let scroll: u16 = self.scroll;
        self.transcript.visible_lines(
            ctx,
            width,
            false,
            mark,
            scroll,
            viewport_height,
            "Subagent transcript is empty.",
        )
    }
}

// ---------------------------------------------------------------------------
// Keys
// ---------------------------------------------------------------------------

/// What a key in a preview asks of the interface around it.
#[derive(Debug)]
pub enum PreviewOutcome {
    Nothing,
    /// Say something.
    Say(String),
    /// Open the preview of a thread.
    Open(ThreadId),
    /// Copy a text, and say what was copied.
    Copy { payload: String, status: String },
}

#[verifier::ext_equal]
pub enum PreviewOutcomeView {
    Nothing,
    Say(Seq<char>),
    Open(Seq<char>),
    Copy { payload: Seq<char>, status: Seq<char> },
}

impl View for PreviewOutcome {
    type V = PreviewOutcomeView;

    open spec fn view(&self) -> PreviewOutcomeView {
        match *self {
            PreviewOutcome::Nothing => PreviewOutcomeView::Nothing,
            PreviewOutcome::Say(text) => PreviewOutcomeView::Say(text@),
            PreviewOutcome::Open(thread) => PreviewOutcomeView::Open(thread@),
            PreviewOutcome::Copy { payload, status } => PreviewOutcomeView::Copy {
                payload: payload@,
                status: status@,
            },
        }
    }
}

pub open spec fn less(a: u16, b: u16) -> u16 {
    if a >= b {
        (a - b) as u16
    } else {
        0
    }
}

pub open spec fn more(a: u16, b: u16, limit: u16) -> u16 {
    if a + b <= limit {
        (a + b) as u16
    } else {
        limit
    }
}

/// What Enter on a row asks for.
pub open spec fn entered_row(group: Option<GroupView>, entry: Option<usize>) -> PreviewOutcomeView {
    match group {
        Some(g) => {
            let thread = if g.is_batch() {
                match entry {
                    Some(e) => g.entry_thread(e as int),
                    None => None,
                }
            } else {
                g.entry_thread(0)
            };
            match thread {
                Some(id) => PreviewOutcomeView::Open(id),
                None => if g.name == "spawn_agent"@ {
                    PreviewOutcomeView::Say("Subagent not started yet — no session to open"@)
                } else {
                    PreviewOutcomeView::Say(
                        "Not a subagent row (Enter opens spawn_agent sessions)"@,
                    )
                },
            }
        },
        None => PreviewOutcomeView::Say("Not a subagent row (Enter opens spawn_agent sessions)"@),
    }
}

/// What Enter on a row asks for.
pub fn enter_row(group: Option<&ToolCallGroupCell>, entry: Option<usize>) -> (r: PreviewOutcome)
    ensures
        r@ == entered_row(
            match group {
                Some(g) => Some(g@),
                None => None,
            },
            entry,
        ),
{
    match group {
        Some(g) => {
            let thread: Option<ThreadId> = if g.is_batch() {
                match entry {
                    Some(e) => g.entry_subagent_thread_id(e),
                    None => None,
                }
            } else {
                g.subagent_thread_id()
            };
            match thread {
                Some(id) => PreviewOutcome::Open(id),
                None => {
                    if g.is_spawn_agent() {
                        PreviewOutcome::Say(
                            owned("Subagent not started yet — no session to open"),
                        )
                    } else {
                        PreviewOutcome::Say(
                            owned("Not a subagent row (Enter opens spawn_agent sessions)"),
                        )
                    }
                },
            }
        },
        None => PreviewOutcome::Say(
            owned("Not a subagent row (Enter opens spawn_agent sessions)"),
        ),
    }
}

impl PreviewView {
    pub open spec fn unarmed(self) -> PreviewView {
        PreviewView { pending_esc: None, pending_g: None, ..self }
    }

    pub open spec fn scrolled_up(self, n: u16) -> PreviewView {
        PreviewView { scroll: less(self.scroll, n), auto_scroll: false, ..self }
    }

    pub open spec fn scrolled_down(self, config: ConfigView, n: u16, width: u16, height: u16) -> PreviewView {
        let limit = self.farthest(config, width, height);
        let scroll = more(self.scroll, n, limit);
        PreviewView { scroll, auto_scroll: scroll >= limit, ..self }
    }

    pub open spec fn at_top(self) -> PreviewView {
        PreviewView { scroll: 0, auto_scroll: false, ..self }
    }

    /// Esc-Esc: the first row on screen is selected.
    pub open spec fn selecting(self, config: ConfigView, width: u16, height: u16) -> PreviewView {
        let top = self.top_item_from(config, width, 0);
        (PreviewView {
            select_mode: true,
            at: self.transcript.selected_at(top, false),
            ..self.unarmed()
        }).with_selection_shown(config, width, height)
    }

    /// A key while keys scroll.
    #[verifier::opaque]
    pub open spec fn scroll_keyed(
        self,
        config: ConfigView,
        key: KeyEvent,
        now: u64,
        width: u16,
        height: u16,
    ) -> (PreviewView, PreviewOutcomeView) {
        let nothing = PreviewOutcomeView::Nothing;
        let idle = self.unarmed();
        match key.code {
            KeyCode::Esc => if completes(self.pending_esc, now, DOUBLE_ESC_WINDOW) {
                (
                    self.selecting(config, width, height),
                    PreviewOutcomeView::Say(
                        "Subagent select — j/k move, Enter open, Esc scroll, Ctrl-O back"@,
                    ),
                )
            } else {
                (PreviewView { pending_esc: Some(now), ..self }, nothing)
            },
            KeyCode::Up | KeyCode::Char('k') => (idle.scrolled_up(1), nothing),
            KeyCode::Down | KeyCode::Char('j') => (
                idle.scrolled_down(config, 1, width, height),
                nothing,
            ),
            KeyCode::Char('g') => if completes(self.pending_g, now, GOTO_CHORD_WINDOW) {
                (idle.at_top(), nothing)
            } else {
                (PreviewView { pending_esc: None, pending_g: Some(now), ..self }, nothing)
            },
            KeyCode::Home => (idle.at_top(), nothing),
            KeyCode::End | KeyCode::Char('G') => (
                (PreviewView { auto_scroll: true, ..idle }).at_bottom(config, width, height),
                nothing,
            ),
            KeyCode::PageUp => (idle.scrolled_up(height), nothing),
            KeyCode::PageDown => (idle.scrolled_down(config, height, width, height), nothing),
            _ => (idle, nothing),
        }
    }

    pub open spec fn unchorded(self) -> PreviewView {
        PreviewView { pending_g: None, pending_args: None, ..self }
    }

    pub open spec fn selected_to(self, config: ConfigView, at: Selection, width: u16, height: u16) -> PreviewView {
        (PreviewView { at, ..self }).with_selection_shown(config, width, height)
    }

    /// `y` on the selected row.
    #[verifier::opaque]
    pub open spec fn copied(self, now: u64) -> (PreviewView, PreviewOutcomeView) {
        let idle = PreviewView { pending_g: None, ..self };
        if self.at.item >= self.transcript.items.len() {
            (PreviewView { pending_args: None, ..idle }, PreviewOutcomeView::Nothing)
        } else {
            let choice = choice_of(
                self.transcript.items[self.at.item as int],
                self.at,
                self.pending_args,
                now,
            );
            let after = PreviewView { pending_args: choice.pending, ..idle };
            match choice.payload {
                Some(payload) => (
                    after,
                    PreviewOutcomeView::Copy { payload, status: choice.status },
                ),
                None => (after, PreviewOutcomeView::Say(choice.status)),
            }
        }
    }

    /// A key while a row is selected.
    #[verifier::opaque]
    pub open spec fn select_keyed(
        self,
        config: ConfigView,
        key: KeyEvent,
        now: u64,
        width: u16,
        height: u16,
    ) -> (PreviewView, PreviewOutcomeView) {
        let nothing = PreviewOutcomeView::Nothing;
        let idle = self.unchorded();
        let t = self.transcript;
        match key.code {
            KeyCode::Esc => (
                PreviewView { select_mode: false, pending_esc: None, ..idle },
                PreviewOutcomeView::Say(
                    "Subagent preview — Ctrl-O back, Ctrl-I forward, Esc Esc select"@,
                ),
            ),
            KeyCode::Up | KeyCode::Char('k') => (
                idle.selected_to(config, t.selected_above(self.at), width, height),
                nothing,
            ),
            KeyCode::Down | KeyCode::Char('j') => (
                idle.selected_to(config, t.selected_below(self.at), width, height),
                nothing,
            ),
            KeyCode::Char('g') => if completes(self.pending_g, now, GOTO_CHORD_WINDOW) {
                (idle.selected_to(config, t.selected_at(0, false), width, height), nothing)
            } else {
                (PreviewView { pending_g: Some(now), ..idle }, nothing)
            },
            KeyCode::Enter => (idle, entered_row(t.group_at(self.at.item), self.at.entry)),
            KeyCode::Char('y') => self.copied(now),
            KeyCode::Home => (
                idle.selected_to(config, t.selected_at(0, false), width, height),
                nothing,
            ),
            KeyCode::End | KeyCode::Char('G') => (
                PreviewView {
                    auto_scroll: true,
                    ..idle.selected_to(
                        config,
                        t.selected_at(t.last_item(), true),
                        width,
                        height,
                    )
                },
                nothing,
            ),
            KeyCode::PageUp => (idle.scrolled_up(height), nothing),
            KeyCode::PageDown => (idle.scrolled_down(config, height, width, height), nothing),
            _ => (idle, nothing),
        }
    }
}

impl SubagentPreviewView {
    fn disarm(&mut self)
        ensures
            final(self)@ == old(self)@.unarmed(),
            Self::keeps(*old(self), *final(self)),
    {
        self.pending_esc = None;
        self.pending_g = None;
    }

    fn scroll_up(&mut self, amount: u16)
        ensures
            final(self)@ == old(self)@.scrolled_up(amount),
            Self::keeps(*old(self), *final(self)),
    {
        self.scroll = self.scroll.saturating_sub(amount);
        self.auto_scroll = false;
    }

    fn scroll_down(&mut self, ctx: &RenderContext, amount: u16, width: u16, viewport: u16)
        requires
            old(self).wf(ctx.config@),
        ensures
            final(self).wf(ctx.config@),
            final(self)@ == old(self)@.scrolled_down(ctx.config@, amount, width, viewport),
    {
        let max: u16 = self.max_scroll(ctx, width, viewport);
        let wanted: u16 = self.scroll.saturating_add(amount);
        self.scroll = if wanted <= max {
            wanted
        } else {
            max
        };
        self.auto_scroll = self.scroll >= max;
    }

    fn enter_select_mode(&mut self, ctx: &RenderContext, width: u16, viewport: u16)
        requires
            old(self).wf(ctx.config@),
        ensures
            final(self).wf(ctx.config@),
            final(self)@ == old(self)@.selecting(ctx.config@, width, viewport),
    {
        let top: usize = self.first_visible_item(ctx, width);
        self.disarm();
        self.select_mode = true;
        let at: Selection = self.transcript.select(top, false);
        self.set_selection(at);
        self.ensure_selected_visible(ctx, width, viewport);
    }

    /// A preview's default sub-mode: Normal-like line/page scrolling with no
    /// selection highlight. Esc Esc enters the select sub-mode.
    pub fn handle_scroll_key(
        &mut self,
        ctx: &RenderContext,
        key_event: KeyEvent,
        now: u64,
        width: u16,
        viewport: u16,
    ) -> (r: PreviewOutcome)
        requires
            old(self).wf(ctx.config@),
        ensures
            final(self).wf(ctx.config@),
            (final(self)@, r@) == old(self)@.scroll_keyed(
                ctx.config@,
                key_event,
                now,
                width,
                viewport,
            ),
    {
        reveal(PreviewView::scroll_keyed);
        match key_event.code {
            KeyCode::Esc => {
                if chord_completes(self.pending_esc, now, DOUBLE_ESC_WINDOW) {
                    self.enter_select_mode(ctx, width, viewport);
                    return PreviewOutcome::Say(
                        owned("Subagent select — j/k move, Enter open, Esc scroll, Ctrl-O back"),
                    );
                }
                self.pending_esc = Some(now);
            },
            KeyCode::Char('g') => {
                self.pending_esc = None;
                if chord_completes(self.pending_g, now, GOTO_CHORD_WINDOW) {
                    self.pending_g = None;
                    self.scroll = 0;
                    self.auto_scroll = false;
                } else {
                    self.pending_g = Some(now);
                }
            },
            KeyCode::Up | KeyCode::Char('k') => {
                self.disarm();
                self.scroll_up(1);
            },
            KeyCode::Down | KeyCode::Char('j') => {
                self.disarm();
                self.scroll_down(ctx, 1, width, viewport);
            },
            KeyCode::Home => {
                self.disarm();
                self.scroll = 0;
                self.auto_scroll = false;
            },
            KeyCode::End | KeyCode::Char('G') => {
                self.disarm();
                self.auto_scroll = true;
                self.scroll_to_bottom(ctx, width, viewport);
            },
            KeyCode::PageUp => {
                self.disarm();
                self.scroll_up(viewport);
            },
            KeyCode::PageDown => {
                self.disarm();
                self.scroll_down(ctx, viewport, width, viewport);
            },
            _ => self.disarm(),
        }
        PreviewOutcome::Nothing
    }

    fn unchord(&mut self)
        ensures
            final(self)@ == old(self)@.unchorded(),
            Self::keeps(*old(self), *final(self)),
    {
        self.pending_g = None;
        self.pending_args = None;
    }

    fn select_at(&mut self, ctx: &RenderContext, at: Selection, width: u16, viewport: u16)
        requires
            old(self).wf(ctx.config@),
        ensures
            final(self).wf(ctx.config@),
            final(self)@ == old(self)@.unchorded().selected_to(ctx.config@, at, width, viewport),
    {
        self.unchord();
        self.set_selection(at);
        self.ensure_selected_visible(ctx, width, viewport);
    }

    /// Copies the selected row: tool rows copy their result first, a second `y`
    /// upgrades to the arguments.
    pub fn copy_selected_row(&mut self, now: u64) -> (r: PreviewOutcome)
        ensures
            (final(self)@, r@) == old(self)@.copied(now),
            Self::keeps(*old(self), *final(self)),
    {
        reveal(PreviewView::copied);
        self.pending_g = None;
        let at: Selection = self.selection();
        let pending: PendingArgs = self.pending_args;
        let choice: CopyChoice = match self.selected_item() {
            Some(item) => choose_copy(item, at, pending, now),
            None => {
                self.pending_args = None;
                return PreviewOutcome::Nothing;
            },
        };
        self.pending_args = choice.pending;
        match choice.payload {
            Some(payload) => PreviewOutcome::Copy { payload, status: choice.status },
            None => PreviewOutcome::Say(choice.status),
        }
    }

    /// A preview's transcript-select sub-mode (entered with Esc Esc): a
    /// highlighted row, `j`/`k` move the selection, `gg`/`G`/Home/End move it,
    /// Enter nests a deeper preview, `y`/`yy` copy. Esc returns to scroll.
    pub fn handle_select_key(
        &mut self,
        ctx: &RenderContext,
        key_event: KeyEvent,
        now: u64,
        width: u16,
        viewport: u16,
    ) -> (r: PreviewOutcome)
        requires
            old(self).wf(ctx.config@),
        ensures
            final(self).wf(ctx.config@),
            (final(self)@, r@) == old(self)@.select_keyed(
                ctx.config@,
                key_event,
                now,
                width,
                viewport,
            ),
    {
        reveal(PreviewView::select_keyed);
        match key_event.code {
            KeyCode::Esc => {
                self.unchord();
                self.select_mode = false;
                self.pending_esc = None;
                return PreviewOutcome::Say(
                    owned("Subagent preview — Ctrl-O back, Ctrl-I forward, Esc Esc select"),
                );
            },
            KeyCode::Up | KeyCode::Char('k') => {
                let at: Selection = self.transcript.selection_above(self.selection());
                self.select_at(ctx, at, width, viewport);
            },
            KeyCode::Down | KeyCode::Char('j') => {
                let at: Selection = self.transcript.selection_below(self.selection());
                self.select_at(ctx, at, width, viewport);
            },
            KeyCode::Char('g') => {
                if chord_completes(self.pending_g, now, GOTO_CHORD_WINDOW) {
                    let at: Selection = self.transcript.select(0, false);
                    self.select_at(ctx, at, width, viewport);
                } else {
                    self.pending_args = None;
                    self.pending_g = Some(now);
                }
            },
            KeyCode::Enter => {
                self.unchord();
                return enter_row(self.selected_tool_group(), self.selected_tool_entry);
            },
            KeyCode::Char('y') => {
                return self.copy_selected_row(now);
            },
            KeyCode::Home => {
                let at: Selection = self.transcript.select(0, false);
                self.select_at(ctx, at, width, viewport);
            },
            KeyCode::End | KeyCode::Char('G') => {
                let last: usize = self.transcript.last_index();
                let at: Selection = self.transcript.select(last, true);
                self.select_at(ctx, at, width, viewport);
                self.auto_scroll = true;
            },
            KeyCode::PageUp => {
                self.unchord();
                self.scroll_up(viewport);
            },
            KeyCode::PageDown => {
                self.unchord();
                self.scroll_down(ctx, viewport, width, viewport);
            },
            _ => self.unchord(),
        }
        PreviewOutcome::Nothing
    }
}

// ---------------------------------------------------------------------------
// Laws
// ---------------------------------------------------------------------------

/// A call that starts again changes nothing.
pub proof fn duplicate_calls_are_dropped(
    view: PreviewView,
    tool: ToolCallStartedEvent,
    width: u16,
)
    requires
        found(view.transcript.tool_rows, tool.call_id@) is Some,
    ensures
        view.event(EventMsg::ToolCallStarted(tool), width) == view,
{
    reveal(PreviewView::event);
}

/// A completion that was applied before adds no row: what streamed becomes rows
/// as with any completion, and a final one then does no more than record the
/// subagent that it names.
pub proof fn duplicate_completions_add_no_row(
    view: PreviewView,
    tool: ToolCallCompletedEvent,
    width: u16,
)
    requires
        found(view.completed, tool.call_id@) is Some,
    ensures
        ({
            let after = view.event(EventMsg::ToolCallCompleted(tool), width);
            &&& after.completed == view.completed
            &&& after.transcript.items.len() == view.settled().transcript.items.len()
            &&& view.transcript.assistant is None && view.transcript.reasoning is None
                ==> after.transcript.items.len() == view.transcript.items.len()
            &&& tool.result_kind == ToolCallResultKind::Final ==> after == view.settled().related(
                tool.call_id@,
                tool.related_thread_id,
            )
        }),
{
    reveal(PreviewView::event);
    reveal(TranscriptView::touched);
    reveal(TranscriptView::reasoning_committed);
    reveal(TranscriptView::assistant_committed);
}

/// The full text of an answer takes the place of what streamed of it.
pub proof fn full_text_wins(view: PreviewView, item_id: String, text: String, width: u16)
    requires
        view.committed_assistant != Some(item_id@),
    ensures
        ({
            let after = view.event(EventMsg::AgentMessageCompleted { item_id, text }, width);
            &&& after.transcript.items.len() == view.transcript.items.len() + 1
            &&& after.transcript.items.last().kind matches KindView::Assistant { lines, first, raw }
                && raw == text@
            &&& after.transcript.assistant is None
        }),
{
    reveal(PreviewView::event);
    reveal(TranscriptView::with_item);
}

/// Whatever event comes in, every row of a preview that groups calls groups at
/// least one.
pub proof fn previewed_groups_are_never_empty(view: PreviewView, msg: EventMsg, width: u16)
    requires
        view.transcript.groups_hold_calls(),
    ensures
        view.event(msg, width).transcript.groups_hold_calls(),
{
    reveal(PreviewView::event);
    reveal(TranscriptView::with_item);
    reveal(TranscriptView::touched);
    reveal(TranscriptView::reasoning_committed);
    reveal(TranscriptView::assistant_committed);
    match msg {
        EventMsg::ToolCallStarted(tool) => {
            reveal(TranscriptView::call_started);
        },
        EventMsg::ToolCallCompleted(tool) => {
            reveal(TranscriptView::call_finished);
            assert(view.settled().transcript.groups_hold_calls());
            assert(view.settled().related(
                tool.call_id@,
                tool.related_thread_id,
            ).transcript.groups_hold_calls());
        },
        _ => {
            reveal(TranscriptView::assistant_streamed);
            reveal(TranscriptView::reasoning_streamed);
        },
    }
}

/// Keys that scroll keep the selection, and the offset within the rows.
pub proof fn scrolling_keeps_selection(
    view: PreviewView,
    config: ConfigView,
    key: KeyEvent,
    now: u64,
    width: u16,
    height: u16,
)
    requires
        key.code != KeyCode::Esc,
        view.scroll <= view.farthest(config, width, height),
    ensures
        ({
            let after = view.scroll_keyed(config, key, now, width, height).0;
            &&& after.at == view.at
            &&& after.transcript == view.transcript
            &&& after.scroll <= after.farthest(config, width, height)
        }),
{
    reveal(PreviewView::scroll_keyed);
}

proof fn lemma_event_keeps_thread(view: PreviewView, msg: EventMsg, width: u16)
    ensures
        view.event(msg, width).thread_id == view.thread_id,
        view.event(msg, width).agent_path == view.agent_path,
        view.event(msg, width).agent_nickname == view.agent_nickname,
{
    reveal(PreviewView::event);
}

proof fn lemma_events_keep_thread(view: PreviewView, msgs: Seq<EventMsg>, width: u16, n: nat)
    ensures
        view.events(msgs, width, n).thread_id == view.thread_id,
        view.events(msgs, width, n).agent_path == view.agent_path,
        view.events(msgs, width, n).agent_nickname == view.agent_nickname,
    decreases n,
{
    if n > 0 {
        lemma_events_keep_thread(view, msgs, width, (n - 1) as nat);
        lemma_event_keeps_thread(
            view.events(msgs, width, (n - 1) as nat),
            msgs[n - 1],
            width,
        );
    }
}

/// A view shows the thread that it was opened for, under the agent's name and
/// with the status that came along.
pub proof fn lemma_opened_thread(thread_id: Seq<char>, response: ThreadPreviewResponse, width: u16)
    ensures
        ({
            let view = opened_preview(thread_id, response, width);
            &&& view.thread_id == thread_id
            &&& view.agent_path == opt_text(response.agent_path)
            &&& view.agent_nickname == opt_text(response.agent_nickname)
            &&& view.status == response.status
        }),
{
    lemma_events_keep_thread(
        blank_preview(thread_id, response),
        response.initial_messages@,
        width,
        response.initial_messages@.len(),
    );
}

/// The heading names the agent by its nickname, else its path, else its
/// thread, and tells its status.
pub proof fn headings_name_the_agent(view: PreviewView)
    ensures
        view.agent_nickname is Some ==> view.header() == "subagent "@ + view.agent_nickname->0
            + " — "@ + status_label(view.status),
        view.agent_nickname is None && view.agent_path is Some ==> view.header() == "subagent "@
            + view.agent_path->0 + " — "@ + status_label(view.status),
        view.agent_nickname is None && view.agent_path is None ==> view.header() == "subagent "@
            + view.thread_id + " — "@ + status_label(view.status),
{
    reveal(PreviewView::header);
}

/// The status follows the turns of the agent, and an agent that ended is live
/// no more.
pub proof fn previews_follow_the_status(
    view: PreviewView,
    turn_id: String,
    message: Option<String>,
    reason: String,
    error: ErrorInfo,
    status: AgentStatus,
    width: u16,
)
    ensures
        ({
            let running = view.event(EventMsg::TurnStarted { turn_id }, width);
            let done = view.event(
                EventMsg::TurnCompleted { turn_id, last_assistant_message: message },
                width,
            );
            let stopped = view.event(EventMsg::TurnInterrupted { turn_id, reason }, width);
            let failed = view.event(EventMsg::Error { error }, width);
            let told = view.event(EventMsg::AgentStatusChanged { status }, width);
            &&& running.status is Running && running.is_live == view.is_live
            &&& done.status == AgentStatus::Completed(message) && !done.is_live
            &&& stopped.status is Interrupted && !stopped.is_live
            &&& failed.status == AgentStatus::Errored(error) && !failed.is_live
            &&& failed.transcript.items.len() > 0
            &&& failed.transcript.items.last().kind == error_kind(error.message@)
            &&& told.status == status
            &&& status is Running || status is PendingInit || status is NotFound ==> told.is_live
                == view.is_live
            &&& status is Interrupted || status is Completed || status is Errored || status
                is Shutdown ==> !told.is_live
            &&& told.transcript == view.transcript
        }),
{
    reveal(PreviewView::event);
    reveal(TranscriptView::with_item);
}

/// What is said in the thread is shown in its view.
pub proof fn previews_show_messages(
    view: PreviewView,
    item_id: String,
    text: String,
    width: u16,
)
    ensures
        ({
            let asked = view.event(EventMsg::UserMessage { text }, width).transcript;
            let told = view.event(EventMsg::AgentMessage { text }, width).transcript;
            let done = view.event(EventMsg::AgentMessageCompleted { item_id, text }, width);
            let thought = view.event(EventMsg::AgentReasoningCompleted { item_id, text }, width);
            &&& asked.items.last().kind == (KindView::User { message: text@ })
            &&& asked.items.len() > view.transcript.items.len()
            &&& told.items.last().kind matches KindView::Assistant { raw, .. } && raw == text@
            &&& told.items.len() > view.transcript.items.len()
            &&& done.committed_assistant == Some(item_id@)
            &&& view.committed_assistant != Some(item_id@) ==> done.transcript.items.len()
                == view.transcript.items.len() + 1
            &&& view.committed_assistant != Some(item_id@) ==> (
            done.transcript.items.last().kind matches KindView::Assistant { raw, .. } && raw
                == text@)
            &&& view.committed_assistant == Some(item_id@) ==> done.transcript.items
                == view.transcript.items
            &&& thought.committed_reasoning == Some(item_id@)
            &&& view.committed_reasoning != Some(item_id@) ==> thought.transcript.items.len()
                == view.transcript.items.len() + 1
            &&& view.committed_reasoning != Some(item_id@) ==> (
            thought.transcript.items.last().kind matches KindView::Reasoning { raw, .. } && raw
                == text@)
            &&& view.committed_reasoning == Some(item_id@) ==> thought.transcript.items
                == view.transcript.items
        }),
{
    reveal(PreviewView::event);
    reveal(TranscriptView::with_item);
    reveal(TranscriptView::reasoning_committed);
}

/// The end of a call shows in its row of the view: how it went, and what it
/// printed.
pub proof fn previewed_calls_show_their_outcome(
    view: PreviewView,
    tool: ToolCallCompletedEvent,
    i: usize,
    entry: usize,
    group: GroupView,
    width: u16,
)
    requires
        found(view.transcript.tool_rows, tool.call_id@) == Some((i, entry)),
        found(view.completed, tool.call_id@) is None,
        i < view.transcript.items.len(),
        view.transcript.items[i as int].kind == KindView::Group(group),
        entry < group.entries.len(),
    ensures
        ({
            let after = view.event(EventMsg::ToolCallCompleted(tool), width);
            let goes_on = tool.success && tool.result_kind == ToolCallResultKind::StatusUpdate;
            &&& after.transcript.items[i as int].kind matches KindView::Group(shown) && {
                let done = shown.entries[entry as int];
                &&& shown.entries.len() == group.entries.len()
                &&& shown.name == group.name
                &&& done.args == group.entries[entry as int].args
                &&& goes_on ==> done.state == ToolCallState::Running
                &&& !goes_on && tool.success ==> done.state == ToolCallState::Success
                    && done.error is None
                &&& !tool.success ==> done.state == ToolCallState::Failure
                &&& !tool.success && tool.error is Some ==> done.error == Some(tool.error->0@)
                &&& !tool.success && tool.error is None ==> done.error == Some("tool failed"@)
                &&& !goes_on && tool.output_preview is Some ==> done.output == Some(
                    tool.output_preview->0@,
                )
                &&& tool.related_thread_id is Some ==> done.related == Some(
                    tool.related_thread_id->0@,
                )
                &&& forall|k: int|
                    0 <= k < shown.entries.len() && k != entry ==> #[trigger] shown.entries[k]
                        == group.entries[k]
            }
        }),
{
    lemma_settled_view(view);
    assert(view.event(EventMsg::ToolCallCompleted(tool), width) == view.completed_call(tool)) by {
        reveal(PreviewView::event);
    }
    reveal(TranscriptView::call_finished);
    reveal(TranscriptView::touched);
}

proof fn lemma_settled_view(view: PreviewView)
    ensures
        ({
            let after = view.settled();
            &&& after.transcript.items.len() >= view.transcript.items.len()
            &&& forall|j: int|
                0 <= j < view.transcript.items.len() ==> #[trigger] after.transcript.items[j]
                    == view.transcript.items[j]
            &&& after.transcript.tool_rows == view.transcript.tool_rows
            &&& after.completed == view.completed
        }),
{
    reveal(TranscriptView::with_item);
    reveal(TranscriptView::reasoning_committed);
    reveal(TranscriptView::assistant_committed);
}

/// A call that starts in the thread shows as running in its view.
pub proof fn previewed_calls_run(view: PreviewView, tool: ToolCallStartedEvent, width: u16)
    requires
        found(view.transcript.tool_rows, tool.call_id@) is None,
        view.settled().transcript.pending is None,
    ensures
        ({
            let after = view.event(EventMsg::ToolCallStarted(tool), width).transcript;
            &&& after.items.len() == view.settled().transcript.items.len() + 1
            &&& after.items.last().kind matches KindView::Group(group) && group.name
                == tool.tool_name@ && group.entries.len() == 1 && group.entries[0].args
                == tool.args_preview@ && group.entries[0].state == ToolCallState::Running
        }),
{
    reveal(PreviewView::event);
    reveal(TranscriptView::call_started);
}

/// A subagent of the thread that is done is told in a row of the view.
pub proof fn nested_subagents_are_told(
    view: PreviewView,
    event: CollabAgentCompletedEvent,
    width: u16,
)
    ensures
        ({
            let after = view.event(EventMsg::CollabAgentCompleted(event), width).transcript;
            let name = if event.agent_nickname is Some {
                event.agent_nickname->0@
            } else {
                event.agent_path@
            };
            &&& after.items.len() == view.transcript.items.len() + 1
            &&& after.items.last().kind == info_kind(
                "nested subagent "@ + name + " finished: "@ + status_label(event.status),
            )
        }),
{
    reveal(PreviewView::event);
    reveal(TranscriptView::with_item);
}

/// While a view is scrolled, page keys go by the rows that the window shows, line
/// keys go by a row, and Home and End go to the ends.
pub proof fn preview_keys_scroll(
    view: PreviewView,
    config: ConfigView,
    key: KeyEvent,
    now: u64,
    width: u16,
    height: u16,
)
    requires
        key.modifiers == no_modifiers(),
    ensures
        ({
            let (after, outcome) = view.scroll_keyed(config, key, now, width, height);
            let end = view.farthest(config, width, height);
            let steps = if key.code == KeyCode::PageUp || key.code == KeyCode::PageDown {
                height as int
            } else {
                1
            };
            let up = key.code == KeyCode::PageUp || key.code == KeyCode::Up || key.code
                == KeyCode::Char('k');
            let down = key.code == KeyCode::PageDown || key.code == KeyCode::Down || key.code
                == KeyCode::Char('j');
            &&& up ==> after.scroll == if view.scroll > steps {
                view.scroll - steps
            } else {
                0
            }
            &&& up ==> !after.auto_scroll
            &&& down ==> after.scroll == if view.scroll + steps < end {
                view.scroll + steps
            } else {
                end as int
            }
            &&& down ==> (after.auto_scroll <==> after.scroll == end)
            &&& key.code == KeyCode::Home ==> after.scroll == 0 && !after.auto_scroll
            &&& key.code == KeyCode::End || key.code == KeyCode::Char('G') ==> after.scroll == end
                && after.auto_scroll
            &&& up || down || key.code == KeyCode::Home || key.code == KeyCode::End ==> outcome
                is Nothing && after.transcript == view.transcript && after.at == view.at
                && !after.select_mode == !view.select_mode
        }),
{
    reveal(PreviewView::scroll_keyed);
}

/// While a row of a view is selected, arrows take a step, Home and End go to the
/// ends, Enter asks for the thread of the call, `y` copies, and Esc goes back to
/// scrolling; page keys scroll without moving the selection.
pub proof fn preview_keys_select(
    view: PreviewView,
    config: ConfigView,
    key: KeyEvent,
    now: u64,
    width: u16,
    height: u16,
)
    ensures
        ({
            let (after, outcome) = view.select_keyed(config, key, now, width, height);
            let t = view.transcript;
            let end = view.farthest(config, width, height);
            let code = key.code;
            &&& after.transcript == t
            &&& code == KeyCode::Up || code == KeyCode::Char('k') ==> after.at == t.selected_above(
                view.at,
            ) && outcome is Nothing
            &&& code == KeyCode::Down || code == KeyCode::Char('j') ==> after.at
                == t.selected_below(view.at) && outcome is Nothing
            &&& code == KeyCode::Home ==> after.at == t.selected_at(0, false)
            &&& code == KeyCode::End || code == KeyCode::Char('G') ==> after.at == t.selected_at(
                t.last_item(),
                true,
            ) && after.auto_scroll
            &&& code == KeyCode::Esc ==> !after.select_mode && after.at == view.at
            &&& code != KeyCode::Esc ==> after.select_mode == view.select_mode
            &&& code == KeyCode::PageUp ==> after.at == view.at && after.scroll == if view.scroll
                > height {
                view.scroll - height
            } else {
                0
            }
            &&& code == KeyCode::PageDown ==> after.at == view.at && after.scroll == if view.scroll
                + height < end {
                view.scroll + height
            } else {
                end as int
            }
            &&& code == KeyCode::Enter && view.at.item < t.items.len()
                && t.items[view.at.item as int].kind is User ==> outcome
                == PreviewOutcomeView::Say(
                "Not a subagent row (Enter opens spawn_agent sessions)"@,
            )
        }),
{
    reveal(PreviewView::select_keyed);
    reveal(PreviewView::copied);
}

/// Enter on a call asks for the thread that it started, and says so where there
/// is none.
pub proof fn enter_opens_the_thread_of_a_call(group: GroupView, entry: Option<usize>, e: int)
    requires
        0 <= e < group.entries.len(),
        group.entries.len() == 1 ==> e == 0,
        group.entries.len() > 1 ==> entry is Some && entry->0 == e,
    ensures
        ({
            let outcome = entered_row(Some(group), entry);
            let thread = group.entries[e].related;
            &&& thread is Some ==> outcome == PreviewOutcomeView::Open(thread->0)
            &&& thread is None && group.name == "spawn_agent"@ ==> outcome
                == PreviewOutcomeView::Say("Subagent not started yet — no session to open"@)
            &&& thread is None && group.name != "spawn_agent"@ ==> outcome
                == PreviewOutcomeView::Say(
                "Not a subagent row (Enter opens spawn_agent sessions)"@,
            )
            &&& entered_row(None, entry) == PreviewOutcomeView::Say(
                "Not a subagent row (Enter opens spawn_agent sessions)"@,
            )
        }),
{
}

/// Pressed twice within half a second, Esc selects a row of the view that is on
/// screen; once it only arms the chord.
pub proof fn double_esc_selects_in_previews(
    view: PreviewView,
    config: ConfigView,
    key: KeyEvent,
    now: u64,
    later: u64,
    width: u16,
    height: u16,
)
    requires
        key.code == KeyCode::Esc,
        view.pending_esc is None,
        !view.select_mode,
        now <= later,
    ensures
        ({
            let (once, first) = view.scroll_keyed(config, key, now, width, height);
            let (twice, second) = once.scroll_keyed(config, key, later, width, height);
            &&& first is Nothing
            &&& once == (PreviewView { pending_esc: Some(now), ..view })
            &&& twice.select_mode <==> later - now <= 500_000_000
            &&& twice.select_mode ==> !twice.auto_scroll && twice.pending_esc is None && second
                is Say
        }),
{
    reveal(PreviewView::scroll_keyed);
}

/// The item on top of the window is the first that ends below the scroll offset,
/// or the last one.
pub proof fn top_items_end_below_the_top(
    view: PreviewView,
    config: ConfigView,
    width: u16,
    i: nat,
    j: nat,
)
    requires
        i <= j < view.transcript.items.len() <= usize::MAX,
    ensures
        ({
            let top = view.top_item_from(config, width, i);
            let (start, rows) = view.transcript.item_extent(config, width, false, top as nat);
            &&& i <= top < view.transcript.items.len()
            &&& top + 1 < view.transcript.items.len() ==> start + rows > view.scroll
            &&& j < top ==> {
                let (above, height) = view.transcript.item_extent(config, width, false, j);
                above + height <= view.scroll
            }
        }),
    decreases view.transcript.items.len() - i,
{
    if i + 1 < view.transcript.items.len() {
        let (start, rows) = view.transcript.item_extent(config, width, false, i);
        if start + rows <= view.scroll {
            if j == i {
                top_items_end_below_the_top(view, config, width, i + 1, i + 1);
            } else {
                top_items_end_below_the_top(view, config, width, i + 1, j);
            }
        }
    }
}

/// A view whose window follows the stream is at its end; otherwise it stays.
pub proof fn followed_previews_are_at_their_end(
    view: PreviewView,
    config: ConfigView,
    width: u16,
    height: u16,
)
    ensures
        view.auto_scroll ==> view.followed(config, width, height) == (PreviewView {
            scroll: view.transcript.farthest(config, width, false, height),
            ..view
        }),
        !view.auto_scroll ==> view.followed(config, width, height) == view,
        view.select_mode ==> view.mark() == Some((view.at.item, view.at.entry)),
        !view.select_mode ==> view.mark() is None,
{
}

/// A view opens unselected at its last row and follows the stream.
pub proof fn previews_open_at_their_end(thread_id: Seq<char>, response: ThreadPreviewResponse, width: u16)
    requires
        response.initial_messages@.len() == 0,
    ensures
        ({
            let view = opened_preview(thread_id, response, width);
            &&& view.auto_scroll
            &&& !view.select_mode
            &&& view.is_live == response.is_live
            &&& view.transcript.items.len() == 0
            &&& view.committed_assistant is None && view.committed_reasoning is None
        }),
{
}

} // verus!
