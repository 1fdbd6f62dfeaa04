//! A plan that waits for the user to approve or reject it.
use vstd::prelude::*;
use crate::composer::{
    empty_composer, line_end, line_start, lines_lie_between_line_feeds, ComposerState, ComposerView,
};
use crate::diff_render::columns_of;
use crate::frame::{
    draw_lines, draw_views, new_ops, separator, separator_line, shown, window, window_lines, DrawOp,
    Rect,
};
use crate::history_cell::pane_columns;
use crate::keys::{no_modifiers, types_text, KeyCode, KeyEvent, KeyEventKind};
use crate::markdown_render::{render_markdown_text, rendered};
use crate::protocol::{
    dup_thread, opt_text, opt_thread, PlanApprovalDecision, RequestId, RequestPlanApprovalParams,
    RequestPlanApprovalResponse, ThreadId,
};
use crate::style::{
    append_lines, blank_line, fg_style, line_of, line_views, new_lines, plain, push_line, push_span,
    raw_of, span_of, span_views, Color, Line, LineView, Span, SpanView, Style,
};
use crate::text::{chars_of, trim, trimmed, with_breaks};
use crate::width::unicode_text_width;
use crate::wrap::{all_wrapped, display_width, word_wrapped, wrap_line_hanging, wrap_lines};

verus! {

// ---------------------------------------------------------------------------
// State
// ---------------------------------------------------------------------------

#[derive(Debug)]
pub enum PlanApprovalOutcome {
    Nothing,
    Respond(RequestPlanApprovalResponse),
    /// Hide the overlay without deciding; the approval request stays pending so
    /// the user can return to the transcript and resume review later.
    Defer,
    /// Open the plan file in the user's `$EDITOR` (handled up in the run loop,
    /// which owns the terminal).
    OpenEditor,
}

#[verifier::ext_equal]
pub enum ApprovalOutcomeView {
    Nothing,
    Respond(ApprovalView),
    Defer,
    OpenEditor,
}

#[verifier::ext_equal]
pub struct ApprovalView {
    pub decision: PlanApprovalDecision,
    pub feedback: Option<Seq<char>>,
}

impl View for RequestPlanApprovalResponse {
    type V = ApprovalView;

    open spec fn view(&self) -> ApprovalView {
        ApprovalView { decision: self.decision, feedback: opt_text(self.feedback) }
    }
}

impl View for PlanApprovalOutcome {
    type V = ApprovalOutcomeView;

    open spec fn view(&self) -> ApprovalOutcomeView {
        match *self {
            PlanApprovalOutcome::Nothing => ApprovalOutcomeView::Nothing,
            PlanApprovalOutcome::Respond(response) => ApprovalOutcomeView::Respond(response@),
            PlanApprovalOutcome::Defer => ApprovalOutcomeView::Defer,
            PlanApprovalOutcome::OpenEditor => ApprovalOutcomeView::OpenEditor,
        }
    }
}

#[derive(Clone, Copy, Debug, PartialEq, Eq, Structural)]
pub enum Stage {
    Reviewing,
    EditingFeedback,
}

/// Whether the overlay currently owns the screen (`Active`) or has been parked
/// with Esc (`Deferred`) while its approval request stays pending.
#[derive(Clone, Copy, Debug, PartialEq, Eq, Structural)]
pub enum Presentation {
    Active,
    Deferred,
}

/// Overlay presenting a plan submitted via `exit_plan_mode` for the user to
/// approve, reject (with feedback), open in `$EDITOR`, or defer. Rendered
/// full-screen: the header and footer stay pinned while the plan body scrolls.
#[derive(Debug)]
pub struct PlanApprovalOverlay {
    pub request_id: RequestId,
    /// Parsed from the request so `Ctrl+G` can locate the plan file on disk.
    pub thread_id: Option<ThreadId>,
    pub plan: String,
    /// The model's optional `exit_plan_mode` note, shown above the plan.
    pub reason: Option<String>,
    pub scroll: usize,
    pub stage: Stage,
    pub presentation: Presentation,
    pub feedback: ComposerState,
    /// Max scroll offset from the last render, so key handling (which has no
    /// dimensions) can clamp `scroll` to the body height.
    pub max_scroll: usize,
    /// Width of the last render, so feedback Up/Down can move by visual row.
    pub feedback_width: u16,
}

#[verifier::ext_equal]
pub struct OverlayView {
    pub request_id: RequestId,
    pub thread_id: Option<Seq<char>>,
    pub plan: Seq<char>,
    pub reason: Option<Seq<char>>,
    pub scroll: usize,
    pub stage: Stage,
    pub presentation: Presentation,
    pub feedback: ComposerView,
    pub max_scroll: usize,
    pub feedback_width: u16,
}

impl View for PlanApprovalOverlay {
    type V = OverlayView;

    open spec fn view(&self) -> OverlayView {
        OverlayView {
            request_id: self.request_id,
            thread_id: opt_thread(self.thread_id),
            plan: self.plan@,
            reason: opt_text(self.reason),
            scroll: self.scroll,
            stage: self.stage,
            presentation: self.presentation,
            feedback: self.feedback@,
            max_scroll: self.max_scroll,
            feedback_width: self.feedback_width,
        }
    }
}

/// The overlay for a request that just came in.
pub open spec fn fresh_overlay(request_id: RequestId, params: RequestPlanApprovalParams) -> OverlayView {
    OverlayView {
        request_id,
        thread_id: match params.thread_id.parsed {
            Ok(id) => Some(id@),
            Err(_) => None,
        },
        plan: params.plan@,
        reason: opt_text(params.reason),
        scroll: 0,
        stage: Stage::Reviewing,
        presentation: Presentation::Active,
        feedback: empty_composer(),
        max_scroll: 0,
        feedback_width: 80,
    }
}

// ---------------------------------------------------------------------------
// Keys
// ---------------------------------------------------------------------------

impl OverlayView {
    pub open spec fn is_active(self) -> bool {
        self.presentation == Presentation::Active
    }

    pub open spec fn deferred(self) -> OverlayView {
        OverlayView { presentation: Presentation::Deferred, stage: Stage::Reviewing, ..self }
    }

    pub open spec fn resumed(self) -> OverlayView {
        OverlayView { presentation: Presentation::Active, ..self }
    }

    pub open spec fn with_plan(self, plan: Seq<char>) -> OverlayView {
        OverlayView { plan, scroll: 0, ..self }
    }

    pub open spec fn with_feedback(self, feedback: ComposerView) -> OverlayView {
        OverlayView { feedback, ..self }
    }

    #[verifier::opaque]
    pub open spec fn pasted(self, text: Seq<char>) -> OverlayView {
        let kept = with_breaks(text, '\n', '\t');
        if self.stage == Stage::EditingFeedback && kept.len() > 0 {
            self.with_feedback(self.feedback.with_inserted(kept))
        } else {
            self
        }
    }

    pub open spec fn scrolled_up(self, n: nat) -> OverlayView {
        OverlayView {
            scroll: if self.scroll >= n {
                (self.scroll - n) as usize
            } else {
                0
            },
            ..self
        }
    }

    pub open spec fn scrolled_down(self, n: nat) -> OverlayView {
        OverlayView {
            scroll: if self.scroll + n <= self.max_scroll {
                (self.scroll + n) as usize
            } else {
                self.max_scroll
            },
            ..self
        }
    }

    /// A key while the plan is read.
    pub open spec fn reviewed(self, key: KeyEvent) -> (OverlayView, ApprovalOutcomeView) {
        let nothing = ApprovalOutcomeView::Nothing;
        if key.code == KeyCode::Char('g') && key.modifiers.control {
            (self, ApprovalOutcomeView::OpenEditor)
        } else {
            match key.code {
                KeyCode::Char('a') => if key.modifiers == no_modifiers() {
                    (
                        self,
                        ApprovalOutcomeView::Respond(
                            ApprovalView {
                                decision: PlanApprovalDecision::Approved,
                                feedback: None,
                            },
                        ),
                    )
                } else {
                    (self, nothing)
                },
                KeyCode::Char('r') => if key.modifiers == no_modifiers() {
                    (OverlayView { stage: Stage::EditingFeedback, ..self }, nothing)
                } else {
                    (self, nothing)
                },
                KeyCode::Esc => (self, ApprovalOutcomeView::Defer),
                KeyCode::Up | KeyCode::Char('k') => (self.scrolled_up(1), nothing),
                KeyCode::Down | KeyCode::Char('j') => (self.scrolled_down(1), nothing),
                KeyCode::PageUp => (self.scrolled_up(10), nothing),
                KeyCode::PageDown => (self.scrolled_down(10), nothing),
                KeyCode::Home => (OverlayView { scroll: 0, ..self }, nothing),
                KeyCode::End | KeyCode::Char('G') => (
                    OverlayView { scroll: self.max_scroll, ..self },
                    nothing,
                ),
                _ => (self, nothing),
            }
        }
    }

    /// What Ctrl+Enter hands in.
    pub open spec fn rejection(self) -> ApprovalView {
        ApprovalView {
            decision: PlanApprovalDecision::Rejected,
            feedback: if trimmed(self.feedback.text).len() == 0 {
                None
            } else {
                Some(trimmed(self.feedback.text))
            },
        }
    }

    /// The feedback after a key that edits it.
    pub open spec fn edited(self, key: KeyEvent) -> ComposerView {
        let f = self.feedback;
        match key.code {
            KeyCode::Enter => f.with_inserted(seq!['\n']),
            KeyCode::Backspace => f.backspaced(),
            KeyCode::Delete => f.deleted(),
            KeyCode::Left => f.moved_left(),
            KeyCode::Right => f.moved_right(),
            KeyCode::Home => f.moved_to(line_start(f.text, f.cursor)),
            KeyCode::End => f.moved_to(line_end(f.text, f.cursor)),
            KeyCode::Up => f.moved_up(columns_of(self.feedback_width)),
            KeyCode::Down => f.moved_down(columns_of(self.feedback_width)),
            KeyCode::Char(ch) => if types_text(key.modifiers) {
                f.with_inserted(seq![ch])
            } else {
                f
            },
            _ => f,
        }
    }

    /// A key while feedback is typed.
    pub open spec fn typed(self, key: KeyEvent) -> (OverlayView, ApprovalOutcomeView) {
        if key.code == KeyCode::Enter && key.modifiers.control {
            (self, ApprovalOutcomeView::Respond(self.rejection()))
        } else if key.code == KeyCode::Esc {
            (OverlayView { stage: Stage::Reviewing, ..self }, ApprovalOutcomeView::Nothing)
        } else {
            (self.with_feedback(self.edited(key)), ApprovalOutcomeView::Nothing)
        }
    }

    /// What a key does, and what comes of it.
    #[verifier::opaque]
    pub open spec fn keyed(self, key: KeyEvent) -> (OverlayView, ApprovalOutcomeView) {
        if key.kind != KeyEventKind::Press {
            (self, ApprovalOutcomeView::Nothing)
        } else if self.stage == Stage::Reviewing {
            self.reviewed(key)
        } else {
            self.typed(key)
        }
    }
}

impl PlanApprovalOverlay {
    pub open spec fn wf(&self) -> bool {
        self.feedback.wf()
    }

    pub fn new(request_id: RequestId, params: RequestPlanApprovalParams) -> (r: PlanApprovalOverlay)
        ensures
            r.wf(),
            r@ == fresh_overlay(request_id, params),
    {
        let thread_id: Option<ThreadId> = match params.thread_id.parsed {
            Ok(id) => Some(id),
            Err(_) => None,
        };
        PlanApprovalOverlay {
            request_id,
            thread_id,
            plan: params.plan,
            reason: params.reason,
            scroll: 0,
            stage: Stage::Reviewing,
            presentation: Presentation::Active,
            feedback: ComposerState::new(),
            max_scroll: 0,
            feedback_width: 80,
        }
    }

    pub fn is_active(&self) -> (r: bool)
        ensures
            r == self@.is_active(),
    {
        self.presentation == Presentation::Active
    }

    /// Park the overlay (Esc): keep the pending approval request alive but stop
    /// owning the screen so the user can read the transcript.
    pub fn defer(&mut self)
        requires
            old(self).wf(),
        ensures
            final(self).wf(),
            final(self)@ == old(self)@.deferred(),
    {
        self.presentation = Presentation::Deferred;
        self.stage = Stage::Reviewing;
    }

    pub fn resume(&mut self)
        requires
            old(self).wf(),
        ensures
            final(self).wf(),
            final(self)@ == old(self)@.resumed(),
    {
        self.presentation = Presentation::Active;
    }

    pub fn thread_id(&self) -> (r: Option<ThreadId>)
        ensures
            opt_thread(r) == self@.thread_id,
    {
        dup_thread(&self.thread_id)
    }

    /// Replace the displayed plan after the user edits it in `$EDITOR`. The
    /// refreshed plan may be shorter than what was scrolled through, so the
    /// scroll offset starts over.
    pub fn set_plan(&mut self, plan: String)
        requires
            old(self).wf(),
        ensures
            final(self).wf(),
            final(self)@ == old(self)@.with_plan(plan@),
    {
        self.plan = plan;
        self.scroll = 0;
    }

    /// Insert pasted text into the feedback editor (only while editing).
    pub fn handle_paste(&mut self, text: &str)
        requires
            old(self).wf(),
        ensures
            final(self).wf(),
            final(self)@ == old(self)@.pasted(text@),
    {
        reveal(OverlayView::pasted);
        if self.stage == Stage::EditingFeedback {
            self.feedback.insert_paste(text);
        }
    }

    /// Handles a key.
    pub fn handle_key(&mut self, key: KeyEvent) -> (r: PlanApprovalOutcome)
        requires
            old(self).wf(),
        ensures
            final(self).wf(),
            (final(self)@, r@) == old(self)@.keyed(key),
    {
        reveal(OverlayView::keyed);
        if key.kind != KeyEventKind::Press {
            return PlanApprovalOutcome::Nothing;
        }
        match self.stage {
            Stage::Reviewing => self.handle_review_key(key),
            Stage::EditingFeedback => self.handle_feedback_key(key),
        }
    }

    fn handle_review_key(&mut self, key: KeyEvent) -> (r: PlanApprovalOutcome)
        requires
            old(self).wf(),
        ensures
            final(self).wf(),
            (final(self)@, r@) == old(self)@.reviewed(key),
    {
        // Ctrl+G opens the plan in the external editor (distinguishable from a
        // bare `g` thanks to the kitty keyboard flags pushed at startup).
        if key.code == KeyCode::Char('g') && key.modifiers.control {
            return PlanApprovalOutcome::OpenEditor;
        }
        let max: usize = self.max_scroll;
        match key.code {
            // Approve / reject are deliberate; Esc never decides (it defers).
            KeyCode::Char('a') => {
                if key.modifiers.is_empty() {
                    return PlanApprovalOutcome::Respond(
                        RequestPlanApprovalResponse {
                            decision: PlanApprovalDecision::Approved,
                            feedback: None,
                        },
                    );
                }
            },
            KeyCode::Char('r') => {
                if key.modifiers.is_empty() {
                    self.stage = Stage::EditingFeedback;
                }
            },
            KeyCode::Esc => {
                return PlanApprovalOutcome::Defer;
            },
            KeyCode::Up | KeyCode::Char('k') => {
                self.scroll = self.scroll.saturating_sub(1);
            },
            KeyCode::Down | KeyCode::Char('j') => {
                self.scroll = lesser(self.scroll.saturating_add(1), max);
            },
            KeyCode::PageUp => {
                self.scroll = self.scroll.saturating_sub(10);
            },
            KeyCode::PageDown => {
                self.scroll = lesser(self.scroll.saturating_add(10), max);
            },
            KeyCode::Home => {
                self.scroll = 0;
            },
            KeyCode::End | KeyCode::Char('G') => {
                self.scroll = max;
            },
            _ => {},
        }
        PlanApprovalOutcome::Nothing
    }

    fn handle_feedback_key(&mut self, key: KeyEvent) -> (r: PlanApprovalOutcome)
        requires
            old(self).wf(),
        ensures
            final(self).wf(),
            (final(self)@, r@) == old(self)@.typed(key),
    {
        // Ctrl+Enter submits the rejection (so bare Enter can add newlines),
        // mirroring the main composer's submit chord.
        if key.code == KeyCode::Enter && key.modifiers.control {
            let feedback: String = trim(self.feedback.as_str());
            return PlanApprovalOutcome::Respond(
                RequestPlanApprovalResponse {
                    decision: PlanApprovalDecision::Rejected,
                    feedback: if feedback.as_str().is_empty() {
                        None
                    } else {
                        Some(feedback)
                    },
                },
            );
        }
        let width: usize = pane_columns(self.feedback_width);
        match key.code {
            KeyCode::Esc => {
                self.stage = Stage::Reviewing;
            },
            KeyCode::Enter => self.feedback.insert_char('\n'),
            KeyCode::Backspace => self.feedback.backspace(),
            KeyCode::Delete => self.feedback.delete(),
            KeyCode::Left => self.feedback.move_left(),
            KeyCode::Right => self.feedback.move_right(),
            KeyCode::Home => self.feedback.move_line_start(),
            KeyCode::End => self.feedback.move_line_end(),
            KeyCode::Up => self.feedback.move_visual_up(width),
            KeyCode::Down => self.feedback.move_visual_down(width),
            KeyCode::Char(ch) => {
                if key.modifiers.types() {
                    self.feedback.insert_char(ch);
                }
            },
            _ => {},
        }
        PlanApprovalOutcome::Nothing
    }
}

/// The smaller of two numbers.
pub fn lesser(a: usize, b: usize) -> (r: usize)
    ensures
        r == if a <= b {
            a
        } else {
            b
        },
{
    if a <= b {
        a
    } else {
        b
    }
}

// ---------------------------------------------------------------------------
// Drawing
// ---------------------------------------------------------------------------

/// The rows of an editor up to character `n`: those that are complete, and the
/// spans of the one that is not.
#[verifier::ext_equal]
pub struct EditorScan {
    pub done: Seq<LineView>,
    pub spans: Seq<SpanView>,
}

impl EditorScan {
    pub open spec fn spanned(self, text: Seq<char>, style: Style) -> EditorScan {
        EditorScan { done: self.done, spans: self.spans.push(span_of(text, style)) }
    }

    pub open spec fn broken(self) -> EditorScan {
        EditorScan { done: self.done.push(line_of(self.spans)), spans: Seq::empty() }
    }
}

pub open spec fn editor_heading() -> LineView {
    line_of(
        seq![
            span_of(
                "Feedback (type · Ctrl+Enter submit rejection · Esc back to review):"@,
                fg_style(Color::Yellow),
            ),
        ],
    )
}

/// Every character is a span, the one under the cursor reversed; a cursor on a
/// line feed shows as a reversed blank.
pub open spec fn editor_scan(text: Seq<char>, cursor: nat, n: nat) -> EditorScan
    decreases n,
{
    if n == 0 {
        EditorScan { done: seq![editor_heading()], spans: Seq::empty() }
    } else {
        let before = editor_scan(text, cursor, (n - 1) as nat);
        let ch = text[n - 1];
        let marked = if cursor == n - 1 {
            if ch == '\n' {
                before.spanned(" "@, plain().with_reversed())
            } else {
                before.spanned(seq![ch], plain().with_reversed())
            }
        } else if ch == '\n' {
            before
        } else {
            before.spanned(seq![ch], plain())
        };
        if ch == '\n' {
            marked.broken()
        } else {
            marked
        }
    }
}

/// The feedback editor with its cursor.
pub open spec fn editor_rows(feedback: ComposerView) -> Seq<LineView> {
    let scan = editor_scan(feedback.text, feedback.cursor, feedback.text.len());
    let ended = if feedback.cursor < feedback.text.len() {
        scan
    } else {
        scan.spanned(" "@, plain().with_reversed())
    };
    ended.broken().done
}

pub open spec fn review_hint() -> Seq<char> {
    "a approve   r reject (feedback)   Ctrl+G edit in $EDITOR   Esc defer (R resume)   ↑/↓ PgUp/PgDn Home/End scroll"@
}

impl OverlayView {
    pub open spec fn footer(self, width: nat) -> Seq<LineView> {
        seq![blank_line()] + if self.stage == Stage::Reviewing {
            word_wrapped(
                line_of(seq![span_of(review_hint(), fg_style(Color::DarkGray))]),
                width,
                0,
            )
        } else {
            editor_rows(self.feedback)
        }
    }

    /// The model's note where it left one, and the plan.
    pub open spec fn body(self, width: u16) -> Seq<LineView> {
        let plan = all_wrapped(rendered(self.plan), columns_of(width));
        match self.reason {
            Some(reason) => word_wrapped(
                line_of(
                    seq![
                        span_of("Model's note: "@, fg_style(Color::Cyan).with_bold()),
                        raw_of(reason),
                    ],
                ),
                columns_of(width),
                unicode_text_width("Model's note: "@) as nat,
            ).push(separator(width, "plan"@, fg_style(Color::DarkGray))) + plan,
            None => plan,
        }
    }

    /// The rows of the body that an area has room for.
    pub open spec fn budget(self, area: Rect) -> nat {
        let pinned = 1 + self.footer(columns_of(area.width)).len();
        if columns_of(area.height) > pinned {
            (columns_of(area.height) - pinned) as nat
        } else {
            0
        }
    }

    /// The farthest that the body scrolls in an area.
    pub open spec fn farthest(self, area: Rect) -> nat {
        let rows = self.body(area.width).len();
        if rows > self.budget(area) {
            (rows - self.budget(area)) as nat
        } else {
            0
        }
    }

    /// The overlay after it was drawn in `area`.
    #[verifier::opaque]
    pub open spec fn drawn(self, area: Rect) -> OverlayView {
        OverlayView {
            max_scroll: self.farthest(area) as usize,
            feedback_width: columns_of(area.width) as u16,
            ..self
        }
    }

    /// The rows that are drawn in `area`.
    #[verifier::opaque]
    pub open spec fn rows(self, area: Rect) -> Seq<LineView> {
        let start = if self.scroll < self.farthest(area) {
            self.scroll as nat
        } else {
            self.farthest(area)
        };
        seq![separator(area.width, "Plan approval"@, fg_style(Color::Magenta))] + window(
            self.body(area.width),
            start,
            start + self.budget(area),
        ) + self.footer(columns_of(area.width))
    }
}

fn char_span(ch: char, style: Style) -> (r: Span)
    ensures
        r@ == span_of(seq![ch], style),
{
    let mut text: String = String::new();
    text.push(ch);
    assert(text@ =~= seq![ch]);
    Span::styled(text.as_str(), style)
}

/// Ends a row of spans.
fn take_spans(spans: &mut Vec<Span>) -> (r: Line)
    ensures
        r@ == line_of(span_views(old(spans)@)),
        span_views(final(spans)@) == Seq::<SpanView>::empty(),
{
    let mut taken: Vec<Span> = Vec::new();
    core::mem::swap(&mut taken, spans);
    assert(span_views(spans@) =~= Seq::<SpanView>::empty());
    Line::from_spans(taken)
}

impl PlanApprovalOverlay {
    /// Render the feedback editor as styled lines with a reversed cursor cell,
    /// so the multi-line text shows the caret without a hardware cursor.
    fn feedback_editor_lines(&self) -> (r: Vec<Line>)
        requires
            self.wf(),
        ensures
            line_views(r@) == editor_rows(self@.feedback),
    {
        let chars: Vec<char> = chars_of(self.feedback.as_str());
        let cursor: usize = self.feedback.cursor_index();
        let ghost text = self@.feedback.text;
        let normal: Style = Style::new();
        let cursor_style: Style = normal.reversed();
        let mut out: Vec<Line> = new_lines();
        push_line(
            &mut out,
            Line::from_span(
                Span::styled(
                    "Feedback (type · Ctrl+Enter submit rejection · Esc back to review):",
                    Style::new().fg(Color::Yellow),
                ),
            ),
        );
        let mut spans: Vec<Span> = Vec::new();
        assert(line_views(out@) =~= seq![editor_heading()]);
        assert(span_views(spans@) =~= Seq::<SpanView>::empty());
        let mut i: usize = 0;
        while i < chars.len()
            invariant
                chars@ == text,
                normal == plain(),
                cursor_style == plain().with_reversed(),
                i <= chars@.len(),
                (EditorScan { done: line_views(out@), spans: span_views(spans@) }) == editor_scan(
                    text,
                    cursor as nat,
                    i as nat,
                ),
            decreases chars@.len() - i,
        {
            let ch: char = chars[i];
            if ch == '\n' {
                if i == cursor {
                    push_span(&mut spans, Span::styled(" ", cursor_style));
                }
                push_line(&mut out, take_spans(&mut spans));
            } else if i == cursor {
                push_span(&mut spans, char_span(ch, cursor_style));
            } else {
                push_span(&mut spans, char_span(ch, normal));
            }
            i += 1;
        }
        if cursor >= chars.len() {
            push_span(&mut spans, Span::styled(" ", cursor_style));
        }
        push_line(&mut out, take_spans(&mut spans));
        out
    }

    fn footer_lines(&self, wrap_width: usize) -> (r: Vec<Line>)
        requires
            self.wf(),
        ensures
            line_views(r@) == self@.footer(wrap_width as nat),
    {
        let mut footer: Vec<Line> = new_lines();
        push_line(&mut footer, Line::blank());
        assert(line_views(footer@) =~= seq![blank_line()]);
        match self.stage {
            Stage::Reviewing => {
                let hint: Line = Line::from_span(
                    Span::styled(
                        "a approve   r reject (feedback)   Ctrl+G edit in $EDITOR   Esc defer (R resume)   ↑/↓ PgUp/PgDn Home/End scroll",
                        Style::new().fg(Color::DarkGray),
                    ),
                );
                append_lines(&mut footer, wrap_line_hanging(&hint, wrap_width, 0));
            },
            Stage::EditingFeedback => append_lines(&mut footer, self.feedback_editor_lines()),
        }
        footer
    }

    fn body_lines(&self, width: u16) -> (r: Vec<Line>)
        ensures
            line_views(r@) == self@.body(width),
    {
        let wrap_width: usize = pane_columns(width);
        let mut body: Vec<Line> = new_lines();
        match &self.reason {
            Some(reason) => {
                let note: Line = Line::of_two(
                    Span::styled("Model's note: ", Style::new().fg(Color::Cyan).bold()),
                    Span::raw(reason.as_str()),
                );
                append_lines(
                    &mut body,
                    wrap_line_hanging(&note, wrap_width, display_width("Model's note: ")),
                );
                push_line(
                    &mut body,
                    separator_line(width, "plan", Style::new().fg(Color::DarkGray)),
                );
            },
            None => {},
        }
        let ghost head = line_views(body@);
        append_lines(
            &mut body,
            wrap_lines(&render_markdown_text(self.plan.as_str()), wrap_width),
        );
        assert(line_views(body@) =~= self@.body(width));
        body
    }

    /// Draws the overlay, and keeps what key handling needs of the area.
    pub fn render(&mut self, area: Rect) -> (r: Vec<DrawOp>)
        requires
            old(self).wf(),
        ensures
            final(self).wf(),
            final(self)@ == old(self)@.drawn(area),
            draw_views(r@) == seq![shown(area, old(self)@.rows(area))],
    {
        reveal(OverlayView::rows);
        reveal(OverlayView::drawn);
        let ghost before = self@;
        let wrap_width: usize = pane_columns(area.width);
        self.feedback_width = wrap_width as u16;
        let footer: Vec<Line> = self.footer_lines(wrap_width);
        let body: Vec<Line> = self.body_lines(area.width);
        assert(line_views(footer@).len() == footer@.len());
        assert(line_views(body@).len() == body@.len());

        // The header is one line; the footer height varies (feedback editor).
        let total_height: usize = pane_columns(area.height);
        let budget: usize = total_height.saturating_sub(footer.len().saturating_add(1));
        let max_start: usize = body.len().saturating_sub(budget);
        self.max_scroll = max_start;
        let start: usize = lesser(self.scroll, max_start);
        let end: usize = start.saturating_add(budget);
        let mut lines: Vec<Line> = new_lines();
        push_line(
            &mut lines,
            separator_line(area.width, "Plan approval", Style::new().fg(Color::Magenta)),
        );
        append_lines(&mut lines, window_lines(&body, start, end));
        append_lines(&mut lines, footer);
        assert(line_views(lines@) =~= before.rows(area));
        let mut ops: Vec<DrawOp> = new_ops();
        draw_lines(&mut ops, area, lines);
        assert(draw_views(ops@) =~= seq![shown(area, before.rows(area))]);
        ops
    }
}

// ---------------------------------------------------------------------------
// Laws
// ---------------------------------------------------------------------------

/// Only `a` approves and only Ctrl+Enter rejects; Esc never decides.
pub proof fn decisions_are_deliberate(overlay: OverlayView, key: KeyEvent)
    ensures
        overlay.keyed(key).1 is Respond ==> overlay.keyed(key).0 == overlay && (
        overlay.stage == Stage::Reviewing && key.code == KeyCode::Char('a') && key.modifiers
            == no_modifiers() || overlay.stage == Stage::EditingFeedback && key.code
            == KeyCode::Enter && key.modifiers.control),
        key.code == KeyCode::Esc ==> !(overlay.keyed(key).1 is Respond),
{
    reveal(OverlayView::keyed);
}

/// A deferred overlay that is resumed shows the plan as before.
pub proof fn resume_undoes_defer(overlay: OverlayView)
    requires
        overlay.is_active(),
        overlay.stage == Stage::Reviewing,
    ensures
        overlay.deferred().resumed() == overlay,
        !overlay.deferred().is_active(),
{
}

/// Keys keep the scroll offset within what the last drawing allowed.
pub proof fn keys_keep_scroll_in_range(overlay: OverlayView, key: KeyEvent)
    requires
        overlay.scroll <= overlay.max_scroll,
    ensures
        overlay.keyed(key).0.scroll <= overlay.keyed(key).0.max_scroll,
{
    reveal(OverlayView::keyed);
}

/// At the farthest offset the last row of the body is drawn, where there is
/// room for any.
pub proof fn tail_is_reachable(overlay: OverlayView, area: Rect)
    requires
        overlay.budget(area) > 0,
        overlay.body(area.width).len() > 0,
        overlay.scroll >= overlay.farthest(area),
    ensures
        overlay.rows(area)[overlay.rows(area).len() - 1 - overlay.footer(
            columns_of(area.width),
        ).len()] == overlay.body(area.width).last(),
{
    reveal(OverlayView::rows);
}

/// While a plan is reviewed, `a` approves it without feedback, `r` starts the
/// feedback of a rejection, Esc defers, and Ctrl-G asks for the editor; none of
/// them changes the plan.
pub proof fn review_keys_decide(overlay: OverlayView, key: KeyEvent)
    requires
        overlay.stage == Stage::Reviewing,
        key.kind == KeyEventKind::Press,
    ensures
        ({
            let (after, outcome) = overlay.keyed(key);
            let bare = key.modifiers == no_modifiers();
            &&& after.plan == overlay.plan
            &&& key.code == KeyCode::Char('a') && bare ==> after == overlay && (
            outcome matches ApprovalOutcomeView::Respond(response) && response.decision
                == PlanApprovalDecision::Approved && response.feedback is None)
            &&& key.code == KeyCode::Char('r') && bare ==> after == (OverlayView {
                stage: Stage::EditingFeedback,
                ..overlay
            }) && outcome is Nothing
            &&& key.code == KeyCode::Esc ==> after == overlay && outcome is Defer
            &&& key.code == KeyCode::Char('g') && key.modifiers.control ==> after == overlay
                && outcome is OpenEditor
            &&& outcome is OpenEditor ==> key.code == KeyCode::Char('g') && key.modifiers.control
            &&& outcome is Defer ==> key.code == KeyCode::Esc
        }),
{
    reveal(OverlayView::keyed);
}

/// While a plan is reviewed, arrows scroll it by a row, page keys by ten, Home
/// and End to its ends.
pub proof fn review_keys_scroll(overlay: OverlayView, key: KeyEvent)
    requires
        overlay.stage == Stage::Reviewing,
        key.kind == KeyEventKind::Press,
    ensures
        ({
            let (after, outcome) = overlay.keyed(key);
            let up = key.code == KeyCode::Up || key.code == KeyCode::Char('k');
            let down = key.code == KeyCode::Down || key.code == KeyCode::Char('j');
            let end = overlay.max_scroll;
            &&& up ==> after.scroll == if overlay.scroll > 0 {
                overlay.scroll - 1
            } else {
                0
            }
            &&& key.code == KeyCode::PageUp ==> after.scroll == if overlay.scroll > 10 {
                overlay.scroll - 10
            } else {
                0
            }
            &&& down ==> after.scroll == if overlay.scroll < end {
                overlay.scroll + 1
            } else {
                end as int
            }
            &&& key.code == KeyCode::PageDown ==> after.scroll == if overlay.scroll + 10 < end {
                overlay.scroll + 10
            } else {
                end as int
            }
            &&& key.code == KeyCode::Home ==> after.scroll == 0
            &&& key.code == KeyCode::End ==> after.scroll == end
            &&& up || down || key.code == KeyCode::PageUp || key.code == KeyCode::PageDown
                || key.code == KeyCode::Home || key.code == KeyCode::End ==> outcome is Nothing
                && after == (OverlayView { scroll: after.scroll, ..overlay })
        }),
{
    reveal(OverlayView::keyed);
}

/// While the feedback is written, Ctrl-Enter rejects the plan with what was
/// written, without the white space around it and not at all where there is
/// nothing else; Esc goes back to the review and keeps it.
pub proof fn feedback_comes_with_the_rejection(overlay: OverlayView, key: KeyEvent)
    requires
        overlay.stage == Stage::EditingFeedback,
        key.kind == KeyEventKind::Press,
    ensures
        ({
            let (after, outcome) = overlay.keyed(key);
            let text = overlay.feedback.text;
            &&& key.code == KeyCode::Enter && key.modifiers.control ==> after == overlay && (
            outcome matches ApprovalOutcomeView::Respond(response) && response.decision
                == PlanApprovalDecision::Rejected && response.feedback == if trimmed(text).len()
                > 0 {
                Some(trimmed(text))
            } else {
                None
            })
            &&& key.code == KeyCode::Esc ==> after == (OverlayView {
                stage: Stage::Reviewing,
                ..overlay
            }) && outcome is Nothing
            &&& !(key.code == KeyCode::Enter && key.modifiers.control) ==> outcome is Nothing
            &&& after.plan == overlay.plan && after.scroll == overlay.scroll
        }),
{
    reveal(OverlayView::keyed);
}

/// While the feedback is written, keys edit it as they edit a draft.
pub proof fn keys_write_the_feedback(overlay: OverlayView, key: KeyEvent, ch: char)
    requires
        overlay.stage == Stage::EditingFeedback,
        key.kind == KeyEventKind::Press,
        key.modifiers == no_modifiers(),
        overlay.feedback.cursor <= overlay.feedback.text.len(),
    ensures
        ({
            let f = overlay.feedback;
            let after = overlay.keyed(key).0.feedback;
            &&& key.code == KeyCode::Char(ch) ==> after.text =~= f.text.take(f.cursor as int).push(
                ch,
            ) + f.text.skip(f.cursor as int) && after.cursor == f.cursor + 1
            &&& key.code == KeyCode::Enter ==> after.text =~= f.text.take(f.cursor as int).push(
                '\n',
            ) + f.text.skip(f.cursor as int) && after.cursor == f.cursor + 1
            &&& key.code == KeyCode::Backspace && f.cursor > 0 ==> after.text =~= f.text.take(
                f.cursor - 1,
            ) + f.text.skip(f.cursor as int) && after.cursor == f.cursor - 1
            &&& key.code == KeyCode::Delete && f.cursor < f.text.len() ==> after.text =~= f.text.take(
                f.cursor as int,
            ) + f.text.skip(f.cursor + 1int) && after.cursor == f.cursor
            &&& key.code == KeyCode::Left && f.cursor > 0 ==> after.text == f.text && after.cursor
                == f.cursor - 1
            &&& key.code == KeyCode::Right && f.cursor < f.text.len() ==> after.text == f.text
                && after.cursor == f.cursor + 1
            &&& key.code == KeyCode::Home ==> after.text == f.text && after.cursor <= f.cursor
            &&& key.code == KeyCode::End ==> after.text == f.text && after.cursor >= f.cursor
            &&& key.code == KeyCode::Up ==> after == f.moved_up(columns_of(overlay.feedback_width))
            &&& key.code == KeyCode::Down ==> after == f.moved_down(
                columns_of(overlay.feedback_width),
            )
        }),
{
    reveal(OverlayView::keyed);
    lines_lie_between_line_feeds(overlay.feedback.text, overlay.feedback.cursor);
}

/// A plan that comes in is under review from its first row, without feedback;
/// a plan that was put aside is decided no more than before.
pub proof fn plans_start_under_review(request_id: RequestId, params: RequestPlanApprovalParams, plan: Seq<char>)
    ensures
        ({
            let fresh = fresh_overlay(request_id, params);
            &&& fresh.request_id == request_id
            &&& fresh.plan == params.plan@
            &&& fresh.reason == opt_text(params.reason)
            &&& fresh.scroll == 0
            &&& fresh.stage == Stage::Reviewing
            &&& fresh.is_active()
            &&& fresh.feedback.text.len() == 0
            &&& params.thread_id.parsed matches Ok(id) ==> fresh.thread_id == Some(id@)
            &&& params.thread_id.parsed is Err ==> fresh.thread_id is None
            &&& fresh.with_plan(plan).plan == plan
            &&& fresh.with_plan(plan).scroll == 0
            &&& fresh.with_plan(plan).request_id == request_id
        }),
{
}

/// Pasted text goes into the feedback while it is written, and nowhere else.
pub proof fn pasted_text_joins_the_feedback(overlay: OverlayView, text: Seq<char>)
    requires
        overlay.feedback.cursor <= overlay.feedback.text.len(),
    ensures
        ({
            let f = overlay.feedback;
            let kept = with_breaks(text, '\n', '\t');
            let after = overlay.pasted(text);
            &&& overlay.stage == Stage::Reviewing ==> after == overlay
            &&& overlay.stage == Stage::EditingFeedback ==> after.feedback.text =~= f.text.take(
                f.cursor as int,
            ) + kept + f.text.skip(f.cursor as int) && after.feedback.cursor == f.cursor
                + kept.len()
            &&& after.plan == overlay.plan && after.stage == overlay.stage
        }),
{
    reveal(OverlayView::pasted);
}

/// The plan is drawn under its heading and above its footer, from its scroll
/// offset on and never past its end; what the model noted comes first.
pub proof fn plans_are_drawn(overlay: OverlayView, area: Rect)
    requires
        area.width > 0,
    ensures
        ({
            let rows = overlay.rows(area);
            let body = overlay.body(area.width);
            let footer = overlay.footer(area.width as nat);
            let top = if overlay.scroll < overlay.farthest(area) {
                overlay.scroll as int
            } else {
                overlay.farthest(area) as int
            };
            let n = rows.len() - 1 - footer.len();
            &&& rows[0] == separator(area.width, "Plan approval"@, fg_style(Color::Magenta))
            &&& 0 <= n <= body.len()
            &&& forall|i: int| 0 <= i < n ==> #[trigger] rows[i + 1] == body[top + i]
            &&& forall|i: int| 0 <= i < footer.len() ==> #[trigger] rows[1 + n + i] == footer[i]
            &&& footer[0].spans.len() == 0
            &&& overlay.reason is None ==> body == all_wrapped(
                rendered(overlay.plan),
                area.width as nat,
            )
            &&& overlay.reason is Some ==> body =~= word_wrapped(
                line_of(
                    seq![
                        span_of("Model's note: "@, fg_style(Color::Cyan).with_bold()),
                        raw_of(overlay.reason->0),
                    ],
                ),
                area.width as nat,
                unicode_text_width("Model's note: "@) as nat,
            ).push(separator(area.width, "plan"@, fg_style(Color::DarkGray))) + all_wrapped(
                rendered(overlay.plan),
                area.width as nat,
            )
        }),
{
    reveal(OverlayView::rows);
}

/// The character under the cursor of the feedback stands out: the editor shows
/// the text itself, line by line, behind its heading.
pub proof fn feedback_shows_its_cursor(text: Seq<char>, cursor: nat, n: nat)
    requires
        n < text.len(),
    ensures
        ({
            let before = editor_scan(text, cursor, n);
            let after = editor_scan(text, cursor, n + 1);
            let ch = text[n as int];
            let style = if cursor == n {
                plain().with_reversed()
            } else {
                plain()
            };
            &&& ch != '\n' ==> after.done == before.done && after.spans =~= before.spans.push(
                span_of(seq![ch], style),
            )
            &&& ch == '\n' && cursor != n ==> after.done =~= before.done.push(
                line_of(before.spans),
            ) && after.spans.len() == 0
            &&& ch == '\n' && cursor == n ==> after.done =~= before.done.push(
                line_of(before.spans.push(span_of(" "@, style))),
            ) && after.spans.len() == 0
        }),
{
}

/// The editor of the feedback shows its heading first; where the cursor is at
/// the end, a blank stands out there.
pub proof fn feedback_editors_show_their_heading(feedback: ComposerView)
    ensures
        ({
            let rows = editor_rows(feedback);
            let scan = editor_scan(feedback.text, feedback.cursor, feedback.text.len());
            &&& rows.len() == scan.done.len() + 1
            &&& scan.done.len() >= 1
            &&& rows[0].spans[0].content
                == "Feedback (type · Ctrl+Enter submit rejection · Esc back to review):"@
            &&& feedback.cursor >= feedback.text.len() ==> rows.last().spans =~= scan.spans.push(
                span_of(" "@, plain().with_reversed()),
            )
            &&& feedback.cursor < feedback.text.len() ==> rows.last().spans == scan.spans
        }),
{
    lemma_heading_first(feedback.text, feedback.cursor, feedback.text.len());
}

proof fn lemma_heading_first(text: Seq<char>, cursor: nat, n: nat)
    ensures
        editor_scan(text, cursor, n).done.len() >= 1,
        editor_scan(text, cursor, n).done[0] == editor_heading(),
    decreases n,
{
    if n > 0 {
        lemma_heading_first(text, cursor, (n - 1) as nat);
    }
}

/// Below a plan under review stand its keys, behind a blank line.
pub proof fn reviews_tell_their_keys(overlay: OverlayView, width: nat)
    ensures
        overlay.stage == Stage::Reviewing ==> overlay.footer(width) =~= seq![blank_line()]
            + word_wrapped(
            line_of(
                seq![
                    span_of(
                        "a approve   r reject (feedback)   Ctrl+G edit in $EDITOR   Esc defer (R resume)   ↑/↓ PgUp/PgDn Home/End scroll"@,
                        fg_style(Color::DarkGray),
                    ),
                ],
            ),
            width,
            0,
        ),
        overlay.stage == Stage::EditingFeedback ==> overlay.footer(width) =~= seq![blank_line()]
            + editor_rows(overlay.feedback),
{
}

} // verus!
