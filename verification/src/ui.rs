//! The state of the interface, the events that change it and the effects that
//! it asks for.
pub mod actions;
pub mod effects;
pub mod input;
pub mod panes;
pub mod preview;
pub mod protocol;
pub mod render;
pub mod run;
pub mod scroll;
pub mod select;
pub mod update;

use std::collections::HashMap;
use vstd::prelude::*;
use crate::composer::{empty_composer, ComposerState, ComposerView};
use crate::config::ConfigView;
use crate::copying::PendingArgs;
use crate::highlight::RenderContext;
use crate::keys::TerminalEvent;
use crate::plan_approval::{ApprovalView, OverlayView, PlanApprovalOverlay};
use crate::protocol::{
    answer_views, opt_text, opt_thread, AnswerView, AskUserQuestionResponse, FileChangeOutput,
    JsonRpcError, RequestId, RequestPlanApprovalResponse, RpcErrorView, ServerRequest,
    SessionEvent, SetPlanModeResponse, ThreadId, ThreadListItem, ThreadListResponse,
    ThreadPreviewResponse, ThreadResumeResponse, ThreadStartResponse, TurnCancelResponse,
    TurnStartResponse,
};
use crate::question_picker::{PickerView, QuestionPicker};
use crate::skill_popup::{PopupView, SkillMeta, SkillPopup};
use crate::subagent_preview::{PreviewView, SubagentPreviewView};
use crate::text::owned;
use crate::text_map::TextMap;
use crate::transcript::{empty_transcript, next_number, Selection, Transcript, TranscriptView};

verus! {

broadcast use vstd::std_specs::hash::group_hash_axioms;

// ---------------------------------------------------------------------------
// Effects
// ---------------------------------------------------------------------------

#[derive(Clone, Copy, Debug, PartialEq, Eq, Structural)]
pub struct EffectId(pub u64);

/// Work that the interface asks for; its outcome comes back under the same
/// number.
#[derive(Debug)]
pub struct UiEffect {
    pub effect_id: EffectId,
    pub kind: UiEffectKind,
}

#[allow(inconsistent_fields)]
#[derive(Debug)]
pub enum UiEffectKind {
    ThreadStart,
    ThreadList { cursor: Option<String>, limit: Option<u32> },
    ThreadResume { thread_id: ThreadId },
    ThreadPreview { thread_id: ThreadId },
    ThreadUnwatch { thread_id: ThreadId },
    TurnStart { thread_id: ThreadId, input: String },
    TurnCancel { thread_id: ThreadId },
    SetPlanMode { thread_id: ThreadId, enabled: bool },
    AnswerQuestion { request_id: RequestId, response: AskUserQuestionResponse },
    RespondPlanApproval { request_id: RequestId, response: RequestPlanApprovalResponse },
    FailQuestion { request_id: RequestId, error: JsonRpcError },
    FailServerRequest { request_id: RequestId, error: JsonRpcError },
    CopyToClipboard { content: String },
    /// Open the plan of a thread in the user's editor.
    OpenEditor { thread_id: ThreadId },
    Exit,
}

#[allow(inconsistent_fields)]
#[verifier::ext_equal]
pub enum EffectKindView {
    ThreadStart,
    ThreadList { cursor: Option<Seq<char>>, limit: Option<u32> },
    ThreadResume { thread: Seq<char> },
    ThreadPreview { thread: Seq<char> },
    ThreadUnwatch { thread: Seq<char> },
    TurnStart { thread: Seq<char>, input: Seq<char> },
    TurnCancel { thread: Seq<char> },
    SetPlanMode { thread: Seq<char>, enabled: bool },
    AnswerQuestion { request_id: RequestId, answers: Seq<AnswerView> },
    RespondPlanApproval { request_id: RequestId, response: ApprovalView },
    FailQuestion { request_id: RequestId, error: RpcErrorView },
    FailServerRequest { request_id: RequestId, error: RpcErrorView },
    CopyToClipboard { content: Seq<char> },
    OpenEditor { thread: Seq<char> },
    Exit,
}

#[verifier::ext_equal]
pub struct EffectView {
    pub id: u64,
    pub kind: EffectKindView,
}

impl View for UiEffectKind {
    type V = EffectKindView;

    open spec fn view(&self) -> EffectKindView {
        match *self {
            UiEffectKind::ThreadStart => EffectKindView::ThreadStart,
            UiEffectKind::ThreadList { cursor, limit } => EffectKindView::ThreadList {
                cursor: opt_text(cursor),
                limit,
            },
            UiEffectKind::ThreadResume { thread_id } => EffectKindView::ThreadResume {
                thread: thread_id@,
            },
            UiEffectKind::ThreadPreview { thread_id } => EffectKindView::ThreadPreview {
                thread: thread_id@,
            },
            UiEffectKind::ThreadUnwatch { thread_id } => EffectKindView::ThreadUnwatch {
                thread: thread_id@,
            },
            UiEffectKind::TurnStart { thread_id, input } => EffectKindView::TurnStart {
                thread: thread_id@,
                input: input@,
            },
            UiEffectKind::TurnCancel { thread_id } => EffectKindView::TurnCancel {
                thread: thread_id@,
            },
            UiEffectKind::SetPlanMode { thread_id, enabled } => EffectKindView::SetPlanMode {
                thread: thread_id@,
                enabled,
            },
            UiEffectKind::AnswerQuestion { request_id, response } => {
                EffectKindView::AnswerQuestion {
                    request_id,
                    answers: answer_views(response.answers@),
                }
            },
            UiEffectKind::RespondPlanApproval { request_id, response } => {
                EffectKindView::RespondPlanApproval { request_id, response: response@ }
            },
            UiEffectKind::FailQuestion { request_id, error } => EffectKindView::FailQuestion {
                request_id,
                error: error@,
            },
            UiEffectKind::FailServerRequest { request_id, error } => {
                EffectKindView::FailServerRequest { request_id, error: error@ }
            },
            UiEffectKind::CopyToClipboard { content } => EffectKindView::CopyToClipboard {
                content: content@,
            },
            UiEffectKind::OpenEditor { thread_id } => EffectKindView::OpenEditor {
                thread: thread_id@,
            },
            UiEffectKind::Exit => EffectKindView::Exit,
        }
    }
}

impl View for UiEffect {
    type V = EffectView;

    open spec fn view(&self) -> EffectView {
        EffectView { id: self.effect_id.0, kind: self.kind@ }
    }
}

pub open spec fn effect_views(effects: Seq<UiEffect>) -> Seq<EffectView> {
    effects.map_values(|e: UiEffect| e@)
}

pub open spec fn no_effects() -> Seq<EffectView> {
    Seq::empty()
}

pub fn nothing() -> (r: Vec<UiEffect>)
    ensures
        effect_views(r@) == no_effects(),
{
    let r: Vec<UiEffect> = Vec::new();
    assert(effect_views(r@) =~= no_effects());
    r
}

pub fn one_effect(effect: UiEffect) -> (r: Vec<UiEffect>)
    ensures
        effect_views(r@) == seq![effect@],
{
    let mut r: Vec<UiEffect> = Vec::new();
    let ghost view = effect@;
    r.push(effect);
    assert(effect_views(r@) =~= seq![view]);
    r
}

/// What came of an effect.
#[derive(Debug)]
pub enum UiEffectResult {
    ThreadStart(ThreadStartResponse),
    ThreadList(ThreadListResponse),
    ThreadResume(ThreadResumeResponse),
    ThreadPreview(ThreadPreviewResponse),
    ThreadUnwatched,
    TurnStart(TurnStartResponse),
    TurnCancel(TurnCancelResponse),
    SetPlanMode(SetPlanModeResponse),
    ServerRequestAnswered,
    ClipboardWritten,
}

/// What is kept of an effect until its outcome is known.
#[derive(Debug)]
pub enum EffectContext {
    ThreadStart,
    ThreadList,
    ThreadResume { thread_id: ThreadId },
    ThreadPreview { thread_id: ThreadId },
    ThreadUnwatch,
    TurnStart { thread_id: ThreadId, input: String },
    TurnCancel { thread_id: ThreadId },
    SetPlanMode { previous: bool, desired: bool },
    ServerRequest,
    Clipboard,
    OpenEditor,
    Exit,
}

#[verifier::ext_equal]
pub enum ContextView {
    ThreadStart,
    ThreadList,
    ThreadResume { thread: Seq<char> },
    ThreadPreview { thread: Seq<char> },
    ThreadUnwatch,
    TurnStart { thread: Seq<char>, input: Seq<char> },
    TurnCancel { thread: Seq<char> },
    SetPlanMode { previous: bool, desired: bool },
    ServerRequest,
    Clipboard,
    OpenEditor,
    Exit,
}

impl View for EffectContext {
    type V = ContextView;

    open spec fn view(&self) -> ContextView {
        match *self {
            EffectContext::ThreadStart => ContextView::ThreadStart,
            EffectContext::ThreadList => ContextView::ThreadList,
            EffectContext::ThreadResume { thread_id } => ContextView::ThreadResume {
                thread: thread_id@,
            },
            EffectContext::ThreadPreview { thread_id } => ContextView::ThreadPreview {
                thread: thread_id@,
            },
            EffectContext::ThreadUnwatch => ContextView::ThreadUnwatch,
            EffectContext::TurnStart { thread_id, input } => ContextView::TurnStart {
                thread: thread_id@,
                input: input@,
            },
            EffectContext::TurnCancel { thread_id } => ContextView::TurnCancel {
                thread: thread_id@,
            },
            EffectContext::SetPlanMode { previous, desired } => ContextView::SetPlanMode {
                previous,
                desired,
            },
            EffectContext::ServerRequest => ContextView::ServerRequest,
            EffectContext::Clipboard => ContextView::Clipboard,
            EffectContext::OpenEditor => ContextView::OpenEditor,
            EffectContext::Exit => ContextView::Exit,
        }
    }
}

pub open spec fn context_views(contexts: Map<u64, EffectContext>) -> Map<u64, ContextView> {
    contexts.map_values(|c: EffectContext| c@)
}

pub open spec fn opt_context(context: Option<EffectContext>) -> Option<ContextView> {
    match context {
        Some(c) => Some(c@),
        None => None,
    }
}

// ---------------------------------------------------------------------------
// Events
// ---------------------------------------------------------------------------

#[allow(inconsistent_fields)]
#[derive(Debug)]
pub enum UiEvent {
    Startup { viewport_height: u16 },
    /// `now` is the time of the event in nanoseconds, from any fixed start.
    Terminal { event: TerminalEvent, viewport_height: u16, now: u64 },
    Protocol {
        source_thread_id: Option<ThreadId>,
        event: SessionEvent,
        viewport_height: u16,
    },
    ServerRequest(ServerRequest),
    EffectCompleted { effect_id: EffectId, result: UiEffectResult, viewport_height: u16 },
    EffectFailed { effect_id: EffectId, error: String, viewport_height: u16 },
}

// ---------------------------------------------------------------------------
// State
// ---------------------------------------------------------------------------

#[derive(Clone, Copy, Debug, PartialEq, Eq, Structural)]
pub enum Screen {
    Dashboard,
    Workspace,
}

#[derive(Clone, Copy, Debug, PartialEq, Eq, Structural)]
pub enum UiMode {
    Normal,
    Insert,
    Command,
    Overlay,
    TranscriptSelect,
}

#[derive(Clone, Copy, Debug, PartialEq, Eq, Structural)]
pub enum FocusTarget {
    Dashboard,
    Transcript,
    Inspector,
    Composer,
    Overlay,
}

#[derive(Debug)]
pub struct DashboardState {
    pub items: Vec<ThreadListItem>,
    pub selected: usize,
    pub scroll_offset: usize,
    pub loading: bool,
    pub error: Option<String>,
    pub next_cursor: Option<String>,
}

#[verifier::ext_equal]
pub struct DashboardView {
    pub items: Seq<ThreadListItem>,
    pub selected: usize,
    pub scroll_offset: usize,
    pub loading: bool,
    pub error: Option<Seq<char>>,
    pub next_cursor: Option<Seq<char>>,
}

impl View for DashboardState {
    type V = DashboardView;

    open spec fn view(&self) -> DashboardView {
        DashboardView {
            items: self.items@,
            selected: self.selected,
            scroll_offset: self.scroll_offset,
            loading: self.loading,
            error: opt_text(self.error),
            next_cursor: opt_text(self.next_cursor),
        }
    }
}

#[derive(Debug)]
pub struct RunningToolInfo {
    pub tool_name: String,
    pub args_preview: String,
}

/// State for transcript-select mode: which row/optional batch entry is selected
/// and, after a `y` on a tool row, the pending chance to upgrade the copy to the
/// selected tool args.
#[derive(Clone, Copy, Debug)]
pub struct TranscriptSelectState {
    pub selected: usize,
    pub selected_tool_entry: Option<usize>,
    pub pending_args: PendingArgs,
    /// Armed by `g`: a second `g` within the chord window jumps to the top (`gg`).
    pub pending_g: Option<u64>,
}

pub open spec fn selection_of(state: TranscriptSelectState) -> Selection {
    Selection { item: state.selected, entry: state.selected_tool_entry }
}

pub struct UiModel {
    /// How rows are drawn.
    pub context: RenderContext,
    pub current_thread_id: Option<ThreadId>,
    pub transcript: Transcript,
    /// For each subagent that runs, the call that spawned it.
    pub subagent_tool_calls: TextMap<String>,
    pub current_turn_id: Option<String>,
    pub committed_assistant_item_id: Option<String>,
    pub committed_assistant_for_current_turn: bool,
    pub committed_reasoning_item_id: Option<String>,
    pub in_flight_reasoning_item_id: Option<String>,
    pub composer: ComposerState,
    pub command: String,
    pub status_line: String,
    pub scroll: u16,
    pub auto_scroll: bool,
    pub is_turn_running: bool,
    pub is_turn_cancelling: bool,
    pub plan_mode: bool,
    pub inspector_visible: bool,
    pub terminal_width: u16,
    pub viewport_height: u16,
    /// Inner width of the transcript pane as last drawn. Row counting must use
    /// this, not `terminal_width`: in the split workspace the transcript only
    /// gets ~70% of the width, so wrapping (and therefore the row count that
    /// drives `max_scroll`) differs from the full terminal width.
    pub transcript_inner_width: u16,
    pub question_picker: Option<QuestionPicker>,
    pub plan_approval: Option<PlanApprovalOverlay>,
    pub skill_popup: Option<SkillPopup>,
    /// The skills that there are, as last scanned. The popup takes them when it
    /// opens.
    pub available_skills: Vec<SkillMeta>,
    pub effect_counter: u64,
    pub effect_contexts: HashMap<u64, EffectContext>,
    pub screen: Screen,
    pub mode: UiMode,
    pub focus: FocusTarget,
    pub dashboard: DashboardState,
    pub transcript_select: Option<TranscriptSelectState>,
    /// Stacked full-screen subagent previews opened from transcript-select mode;
    /// the top view receives keys and is rendered, nesting pushes deeper.
    pub preview_stack: Vec<SubagentPreviewView>,
    /// Subagent previews left with Ctrl-O, newest last; Ctrl-I opens them again.
    pub preview_forward_stack: Vec<ThreadId>,
    /// Time of the last Esc press in Normal mode (or leaving Insert), armed for
    /// double-Esc detection.
    pub last_esc: Option<u64>,
    pub running_tools: TextMap<RunningToolInfo>,
    pub recent_file_changes: Vec<FileChangeOutput>,
}

pub struct ModelView {
    pub config: ConfigView,
    pub thread: Option<Seq<char>>,
    pub transcript: TranscriptView,
    pub subagents: Seq<(Seq<char>, String)>,
    pub turn: Option<Seq<char>>,
    pub committed_assistant: Option<Seq<char>>,
    pub committed_this_turn: bool,
    pub committed_reasoning: Option<Seq<char>>,
    pub in_flight_reasoning: Option<Seq<char>>,
    pub composer: ComposerView,
    pub command: Seq<char>,
    pub status: Seq<char>,
    pub scroll: u16,
    pub auto_scroll: bool,
    pub running: bool,
    pub cancelling: bool,
    pub plan_mode: bool,
    pub inspector: bool,
    pub terminal_width: u16,
    pub viewport: u16,
    pub inner_width: u16,
    pub picker: Option<PickerView>,
    pub approval: Option<OverlayView>,
    pub popup: Option<PopupView>,
    pub skills: Seq<SkillMeta>,
    pub counter: u64,
    pub contexts: Map<u64, ContextView>,
    pub screen: Screen,
    pub mode: UiMode,
    pub focus: FocusTarget,
    pub dashboard: DashboardView,
    pub select: Option<TranscriptSelectState>,
    pub previews: Seq<PreviewView>,
    pub forward: Seq<Seq<char>>,
    pub last_esc: Option<u64>,
    pub running_tools: Seq<(Seq<char>, RunningToolInfo)>,
    pub recent: Seq<FileChangeOutput>,
}

pub open spec fn opt_picker(picker: Option<QuestionPicker>) -> Option<PickerView> {
    match picker {
        Some(p) => Some(p@),
        None => None,
    }
}

pub open spec fn opt_overlay(overlay: Option<PlanApprovalOverlay>) -> Option<OverlayView> {
    match overlay {
        Some(o) => Some(o@),
        None => None,
    }
}

pub open spec fn opt_popup(popup: Option<SkillPopup>) -> Option<PopupView> {
    match popup {
        Some(p) => Some(p@),
        None => None,
    }
}

pub open spec fn preview_views(views: Seq<SubagentPreviewView>) -> Seq<PreviewView> {
    views.map_values(|v: SubagentPreviewView| v@)
}

pub open spec fn thread_views(threads: Seq<ThreadId>) -> Seq<Seq<char>> {
    threads.map_values(|t: ThreadId| t@)
}

impl View for UiModel {
    type V = ModelView;

    open spec fn view(&self) -> ModelView {
        ModelView {
            config: self.context.config@,
            thread: opt_thread(self.current_thread_id),
            transcript: self.transcript@,
            subagents: self.subagent_tool_calls@,
            turn: opt_text(self.current_turn_id),
            committed_assistant: opt_text(self.committed_assistant_item_id),
            committed_this_turn: self.committed_assistant_for_current_turn,
            committed_reasoning: opt_text(self.committed_reasoning_item_id),
            in_flight_reasoning: opt_text(self.in_flight_reasoning_item_id),
            composer: self.composer@,
            command: self.command@,
            status: self.status_line@,
            scroll: self.scroll,
            auto_scroll: self.auto_scroll,
            running: self.is_turn_running,
            cancelling: self.is_turn_cancelling,
            plan_mode: self.plan_mode,
            inspector: self.inspector_visible,
            terminal_width: self.terminal_width,
            viewport: self.viewport_height,
            inner_width: self.transcript_inner_width,
            picker: opt_picker(self.question_picker),
            approval: opt_overlay(self.plan_approval),
            popup: opt_popup(self.skill_popup),
            skills: self.available_skills@,
            counter: self.effect_counter,
            contexts: context_views(self.effect_contexts@),
            screen: self.screen,
            mode: self.mode,
            focus: self.focus,
            dashboard: self.dashboard@,
            select: self.transcript_select,
            previews: preview_views(self.preview_stack@),
            forward: thread_views(self.preview_forward_stack@),
            last_esc: self.last_esc,
            running_tools: self.running_tools@,
            recent: self.recent_file_changes@,
        }
    }
}

impl UiModel {
    /// Every part is well formed, and rows that are kept are what drawing would
    /// give.
    pub open spec fn wf(&self) -> bool {
        &&& self.composer.wf()
        &&& self.transcript.wf(self.context.config@)
        &&& picker_ok(self.question_picker)
        &&& overlay_ok(self.plan_approval)
        &&& popup_ok(self.skill_popup)
        &&& previews_ok(self.preview_stack@, self.context.config@)
    }
}

#[verifier::opaque]
pub open spec fn picker_ok(picker: Option<QuestionPicker>) -> bool {
    match picker {
        Some(p) => p.wf(),
        None => true,
    }
}

#[verifier::opaque]
pub open spec fn overlay_ok(overlay: Option<PlanApprovalOverlay>) -> bool {
    match overlay {
        Some(o) => o.wf(),
        None => true,
    }
}

#[verifier::opaque]
pub open spec fn popup_ok(popup: Option<SkillPopup>) -> bool {
    match popup {
        Some(p) => p@.wf(),
        None => true,
    }
}

#[verifier::opaque]
pub open spec fn previews_ok(previews: Seq<SubagentPreviewView>, config: ConfigView) -> bool {
    forall|i: int| 0 <= i < previews.len() ==> (#[trigger] previews[i]).wf(config)
}

/// The interface as it starts.
pub open spec fn fresh_model(config: ConfigView) -> ModelView {
    ModelView {
        config,
        thread: None,
        transcript: empty_transcript(1),
        subagents: Seq::empty(),
        turn: None,
        committed_assistant: None,
        committed_this_turn: false,
        committed_reasoning: None,
        in_flight_reasoning: None,
        composer: empty_composer(),
        command: Seq::empty(),
        status: "Idle"@,
        scroll: 0,
        auto_scroll: true,
        running: false,
        cancelling: false,
        plan_mode: false,
        inspector: true,
        terminal_width: 80,
        viewport: 20,
        inner_width: 78,
        picker: None,
        approval: None,
        popup: None,
        skills: Seq::empty(),
        counter: 0,
        contexts: Map::empty(),
        screen: Screen::Dashboard,
        mode: UiMode::Normal,
        focus: FocusTarget::Dashboard,
        dashboard: DashboardView {
            items: Seq::empty(),
            selected: 0,
            scroll_offset: 0,
            loading: false,
            error: None,
            next_cursor: None,
        },
        select: None,
        previews: Seq::empty(),
        forward: Seq::empty(),
        last_esc: None,
        running_tools: Seq::empty(),
        recent: Seq::empty(),
    }
}

impl ModelView {
    pub open spec fn saying(self, status: Seq<char>) -> ModelView {
        ModelView { status, ..self }
    }

    pub open spec fn with_info(self, message: Seq<char>) -> ModelView {
        ModelView { transcript: self.transcript.with_info(message), ..self }
    }

    pub open spec fn with_error(self, message: Seq<char>) -> ModelView {
        ModelView { transcript: self.transcript.with_error(message), ..self }
    }

    /// The model once it asked for an effect.
    pub open spec fn asking(self, context: ContextView) -> ModelView {
        ModelView {
            counter: next_number(self.counter),
            contexts: self.contexts.insert(next_number(self.counter), context),
            ..self
        }
    }

    /// The effect that comes with it.
    pub open spec fn asked(self, kind: EffectKindView) -> EffectView {
        EffectView { id: next_number(self.counter), kind }
    }

    /// Asks for one effect.
    pub open spec fn with_effect(self, context: ContextView, kind: EffectKindView) -> (
        ModelView,
        Seq<EffectView>,
    ) {
        (self.asking(context), seq![self.asked(kind)])
    }

    /// Asks for nothing.
    pub open spec fn quietly(self) -> (ModelView, Seq<EffectView>) {
        (self, no_effects())
    }
}

impl UiModel {
    pub fn new(context: RenderContext) -> (r: UiModel)
        ensures
            r.wf(),
            r@ == fresh_model(context.config@),
    {
        let r: UiModel = UiModel {
            context,
            current_thread_id: None,
            transcript: Transcript::new(1),
            subagent_tool_calls: TextMap::new(),
            current_turn_id: None,
            committed_assistant_item_id: None,
            committed_assistant_for_current_turn: false,
            committed_reasoning_item_id: None,
            in_flight_reasoning_item_id: None,
            composer: ComposerState::new(),
            command: String::new(),
            status_line: owned("Idle"),
            scroll: 0,
            auto_scroll: true,
            is_turn_running: false,
            is_turn_cancelling: false,
            plan_mode: false,
            inspector_visible: true,
            terminal_width: 80,
            viewport_height: 20,
            transcript_inner_width: 78,
            question_picker: None,
            plan_approval: None,
            skill_popup: None,
            available_skills: Vec::new(),
            effect_counter: 0,
            effect_contexts: HashMap::new(),
            screen: Screen::Dashboard,
            mode: UiMode::Normal,
            focus: FocusTarget::Dashboard,
            dashboard: DashboardState {
                items: Vec::new(),
                selected: 0,
                scroll_offset: 0,
                loading: false,
                error: None,
                next_cursor: None,
            },
            transcript_select: None,
            preview_stack: Vec::new(),
            preview_forward_stack: Vec::new(),
            last_esc: None,
            running_tools: TextMap::new(),
            recent_file_changes: Vec::new(),
        };
        proof {
            assert(r@.contexts =~= Map::empty());
            assert(r@.previews =~= Seq::empty());
            assert(r@.forward =~= Seq::empty());
            reveal(picker_ok);
            reveal(overlay_ok);
            reveal(popup_ok);
            reveal(previews_ok);
        }
        r
    }

    pub fn set_status(&mut self, text: &str)
        requires
            old(self).wf(),
        ensures
            final(self).wf(),
            final(self)@ == old(self)@.saying(text@),
    {
        self.status_line = owned(text);
    }

    pub fn push_info(&mut self, message: &str)
        requires
            old(self).wf(),
        ensures
            final(self).wf(),
            final(self)@ == old(self)@.with_info(message@),
    {
        self.transcript.push_info(message);
    }

    pub fn push_error(&mut self, message: &str)
        requires
            old(self).wf(),
        ensures
            final(self).wf(),
            final(self)@ == old(self)@.with_error(message@),
    {
        self.transcript.push_error(message);
    }

    /// Numbers an effect and keeps what its outcome needs.
    pub fn effect(&mut self, context: EffectContext, kind: UiEffectKind) -> (r: UiEffect)
        requires
            old(self).wf(),
        ensures
            final(self).wf(),
            final(self)@ == old(self)@.asking(context@),
            r@ == old(self)@.asked(kind@),
    {
        let ghost before = self@.contexts;
        let ghost view = context@;
        self.effect_counter = self.effect_counter.saturating_add(1);
        let id: u64 = self.effect_counter;
        self.effect_contexts.insert(id, context);
        assert(self@.contexts =~= before.insert(id, view));
        UiEffect { effect_id: EffectId(id), kind }
    }

    /// Asks for one effect.
    pub fn ask(&mut self, context: EffectContext, kind: UiEffectKind) -> (r: Vec<UiEffect>)
        requires
            old(self).wf(),
        ensures
            final(self).wf(),
            (final(self)@, effect_views(r@)) == old(self)@.with_effect(context@, kind@),
    {
        let effect: UiEffect = self.effect(context, kind);
        one_effect(effect)
    }

    /// Takes out what was kept of an effect.
    pub fn take_context(&mut self, effect_id: EffectId) -> (r: Option<EffectContext>)
        requires
            old(self).wf(),
        ensures
            final(self).wf(),
            final(self)@ == old(self)@.forgetting(effect_id.0),
            opt_context(r) == old(self)@.kept(effect_id.0),
    {
        let ghost before = self@.contexts;
        let r: Option<EffectContext> = self.effect_contexts.remove(&effect_id.0);
        assert(self@.contexts =~= before.remove(effect_id.0));
        r
    }
}

impl ModelView {
    pub open spec fn forgetting(self, id: u64) -> ModelView {
        ModelView { contexts: self.contexts.remove(id), ..self }
    }

    pub open spec fn kept(self, id: u64) -> Option<ContextView> {
        if self.contexts.dom().contains(id) {
            Some(self.contexts[id])
        } else {
            None
        }
    }
}

// ---------------------------------------------------------------------------
// Laws
// ---------------------------------------------------------------------------

/// The interface starts on the dashboard, idle and empty, and follows the
/// transcript.
pub proof fn interfaces_start_idle(config: ConfigView)
    ensures
        ({
            let m = fresh_model(config);
            &&& m.config == config
            &&& m.screen == Screen::Dashboard
            &&& m.mode == UiMode::Normal
            &&& m.focus == FocusTarget::Dashboard
            &&& m.status == "Idle"@
            &&& m.thread is None && m.turn is None
            &&& !m.running && !m.cancelling && !m.plan_mode
            &&& m.inspector && m.auto_scroll
            &&& m.transcript.items.len() == 0
            &&& m.composer.text.len() == 0 && m.composer.cursor == 0
            &&& m.picker is None && m.approval is None && m.popup is None
            &&& m.previews.len() == 0 && m.forward.len() == 0
            &&& m.running_tools.len() == 0 && m.recent.len() == 0
            &&& m.dashboard.items.len() == 0 && !m.dashboard.loading && m.dashboard.error is None
            &&& m.contexts =~= Map::empty()
        }),
{
}

/// Asking for an effect gives it the next number and keeps what it is for; what
/// is kept is found until it is forgotten.
pub proof fn effects_are_kept_track_of(model: ModelView, context: ContextView, kind: EffectKindView)
    requires
        model.counter < u64::MAX,
    ensures
        ({
            let (after, effects) = model.with_effect(context, kind);
            let id = (model.counter + 1) as u64;
            &&& effects.len() == 1
            &&& effects[0].id == id
            &&& effects[0].kind == kind
            &&& after.counter == id
            &&& after.kept(id) == Some(context)
            &&& after.forgetting(id).kept(id) is None
            &&& forall|other: u64| other != id ==> #[trigger] after.kept(other) == model.kept(other)
            &&& forall|other: u64|
                other != id ==> #[trigger] after.forgetting(id).kept(other) == model.kept(other)
            &&& after.transcript == model.transcript
            &&& after.status == model.status
            &&& after.mode == model.mode
        }),
{
}

} // verus!
