//! The rows of the transcript.
use vstd::prelude::*;
use crate::composer::capped;
use crate::config::ConfigView;
use crate::diff_render::{columns_of, create_diff_summary, diff_summary};
use crate::highlight::RenderContext;
use crate::markdown_render::CODE_COLOR;
use crate::protocol::{
    answer_views, dup_thread, opt_text, opt_thread, AnswerView, AskUserQuestionAnswer, FileChange,
    FileChangeOperation, FileChangeOutput, ThreadId, TodoItem, TodoStatus,
};
use crate::style::{
    append_lines, bg_style, blank_line, fg_style, line_of, line_text, line_views, new_lines,
    no_lines, plain, push_line, push_span, raw_of, span_of, span_views, text_of_line, Color, Line,
    LineView, Span, SpanView, Style,
};
use crate::text::{
    decimal, numeral, owned, repeat_char, repeated, same_text, split_on, split_text, texts,
};
use crate::width::unicode_text_width;
use crate::wrap::{
    all_wrapped, char_wrapped, display_width, word_wrapped, wrap_line, wrap_line_char,
    wrap_line_char_hanging, wrap_line_hanging, wrap_lines,
};

verus! {

// ---------------------------------------------------------------------------
// Joining texts
// ---------------------------------------------------------------------------

/// The texts one after the other, `sep` between them.
pub open spec fn join(parts: Seq<Seq<char>>, sep: Seq<char>) -> Seq<char>
    decreases parts.len(),
{
    if parts.len() == 0 {
        Seq::empty()
    } else if parts.len() == 1 {
        parts[0]
    } else {
        join(parts.drop_last(), sep) + sep + parts.last()
    }
}

/// Joins `parts`, `sep` between them.
pub fn join_texts(parts: &Vec<String>, sep: &str) -> (r: String)
    ensures
        r@ == join(texts(parts@), sep@),
{
    let ghost views = texts(parts@);
    let mut out: String = String::new();
    let mut i: usize = 0;
    while i < parts.len()
        invariant
            views == texts(parts@),
            i <= parts@.len(),
            out@ == join(views.take(i as int), sep@),
        decreases parts@.len() - i,
    {
        if i > 0 {
            out.push_str(sep);
        }
        out.push_str(parts[i].as_str());
        proof {
            assert(views.take(i + 1).drop_last() =~= views.take(i as int));
            assert(views.take(i + 1).last() == parts@[i as int]@);
            if i == 0 {
                assert(out@ =~= parts@[0]@);
            }
        }
        i += 1;
    }
    assert(views.take(i as int) =~= views);
    out
}

// ---------------------------------------------------------------------------
// Tool calls
// ---------------------------------------------------------------------------

#[derive(Clone, Copy, Debug, PartialEq, Eq, Structural)]
pub enum ToolCallState {
    Running,
    Success,
    Failure,
}

/// One call of a tool.
#[derive(Debug)]
pub struct ToolCallEntry {
    pub args_preview: String,
    pub state: ToolCallState,
    pub error: Option<String>,
    pub output: Option<String>,
    /// The thread of the subagent that the call spawned.
    pub related_thread: Option<ThreadId>,
}

#[verifier::ext_equal]
pub struct EntryView {
    pub args: Seq<char>,
    pub state: ToolCallState,
    pub error: Option<Seq<char>>,
    pub output: Option<Seq<char>>,
    pub related: Option<Seq<char>>,
}

impl View for ToolCallEntry {
    type V = EntryView;

    open spec fn view(&self) -> EntryView {
        EntryView {
            args: self.args_preview@,
            state: self.state,
            error: opt_text(self.error),
            output: opt_text(self.output),
            related: opt_thread(self.related_thread),
        }
    }
}

pub open spec fn entry_views(entries: Seq<ToolCallEntry>) -> Seq<EntryView> {
    entries.map_values(|e: ToolCallEntry| e@)
}

/// Consecutive calls of one tool.
#[derive(Debug)]
pub struct ToolCallGroupCell {
    pub tool_name: String,
    pub entries: Vec<ToolCallEntry>,
}

#[verifier::ext_equal]
pub struct GroupView {
    pub name: Seq<char>,
    pub entries: Seq<EntryView>,
}

impl View for ToolCallGroupCell {
    type V = GroupView;

    open spec fn view(&self) -> GroupView {
        GroupView { name: self.tool_name@, entries: entry_views(self.entries@) }
    }
}

/// A call that has just started.
pub open spec fn started_entry(args: Seq<char>) -> EntryView {
    EntryView { args, state: ToolCallState::Running, error: None, output: None, related: None }
}

/// What there is to copy of a call's outcome: its output or its error once it
/// has finished, nothing while it runs.
pub open spec fn entry_result(entry: EntryView) -> Option<Seq<char>> {
    if entry.state == ToolCallState::Running {
        None
    } else {
        match entry.output {
            Some(output) => Some(output),
            None => match entry.error {
                Some(error) => Some("error: "@ + error),
                None => None,
            },
        }
    }
}

/// The outcomes of those calls that have one.
pub open spec fn entry_results(entries: Seq<EntryView>) -> Seq<Seq<char>>
    decreases entries.len(),
{
    if entries.len() == 0 {
        Seq::empty()
    } else {
        match entry_result(entries.last()) {
            Some(text) => entry_results(entries.drop_last()).push(text),
            None => entry_results(entries.drop_last()),
        }
    }
}

pub open spec fn entry_args(entries: Seq<EntryView>) -> Seq<Seq<char>> {
    entries.map_values(|e: EntryView| e.args)
}

pub open spec fn any_in_state(entries: Seq<EntryView>, state: ToolCallState) -> bool {
    exists|i: int| 0 <= i < entries.len() && (#[trigger] entries[i]).state == state
}

impl GroupView {
    /// A group holds at least one call.
    pub open spec fn wf(self) -> bool {
        self.entries.len() > 0
    }

    pub open spec fn with_entry(self, args: Seq<char>) -> GroupView {
        GroupView { entries: self.entries.push(started_entry(args)), ..self }
    }

    pub open spec fn with_outcome(
        self,
        i: int,
        state: ToolCallState,
        error: Option<Seq<char>>,
    ) -> GroupView {
        if 0 <= i < self.entries.len() {
            GroupView {
                entries: self.entries.update(i, EntryView { state, error, ..self.entries[i] }),
                ..self
            }
        } else {
            self
        }
    }

    pub open spec fn with_output(self, i: int, output: Seq<char>) -> GroupView {
        if 0 <= i < self.entries.len() {
            GroupView {
                entries: self.entries.update(
                    i,
                    EntryView { output: Some(output), ..self.entries[i] },
                ),
                ..self
            }
        } else {
            self
        }
    }

    pub open spec fn with_related(self, i: int, thread: Seq<char>) -> GroupView {
        if 0 <= i < self.entries.len() {
            GroupView {
                entries: self.entries.update(
                    i,
                    EntryView { related: Some(thread), ..self.entries[i] },
                ),
                ..self
            }
        } else {
            self
        }
    }

    pub open spec fn is_batch(self) -> bool {
        self.entries.len() > 1
    }

    pub open spec fn result(self) -> Option<Seq<char>> {
        let parts = entry_results(self.entries);
        if parts.len() == 0 {
            None
        } else {
            Some(join(parts, "\n\n"@))
        }
    }

    pub open spec fn args(self) -> Seq<char> {
        join(entry_args(self.entries), "\n\n"@)
    }

    /// A group failed if any call failed, and runs while any call runs.
    pub open spec fn state(self) -> ToolCallState {
        if any_in_state(self.entries, ToolCallState::Failure) {
            ToolCallState::Failure
        } else if any_in_state(self.entries, ToolCallState::Running) {
            ToolCallState::Running
        } else {
            ToolCallState::Success
        }
    }

    pub open spec fn entry_thread(self, i: int) -> Option<Seq<char>> {
        if 0 <= i < self.entries.len() {
            self.entries[i].related
        } else {
            None
        }
    }
}

impl ToolCallGroupCell {
    pub fn new(tool_name: String, args_preview: String) -> (r: ToolCallGroupCell)
        ensures
            r@ == (GroupView {
                name: tool_name@,
                entries: seq![started_entry(args_preview@)],
            }),
            r@.wf(),
    {
        let mut entries: Vec<ToolCallEntry> = Vec::new();
        let ghost args = args_preview@;
        entries.push(
            ToolCallEntry {
                args_preview,
                state: ToolCallState::Running,
                error: None,
                output: None,
                related_thread: None,
            },
        );
        assert(entry_views(entries@) =~= seq![started_entry(args)]);
        ToolCallGroupCell { tool_name, entries }
    }

    pub fn tool_name(&self) -> (r: &str)
        ensures
            r@ == self@.name,
    {
        self.tool_name.as_str()
    }

    /// Adds a call; returns its index.
    pub fn push_entry(&mut self, args_preview: String) -> (r: usize)
        ensures
            final(self)@ == old(self)@.with_entry(args_preview@),
            final(self)@.wf(),
            r == old(self)@.entries.len(),
    {
        let entry_idx: usize = self.entries.len();
        let ghost args = args_preview@;
        self.entries.push(
            ToolCallEntry {
                args_preview,
                state: ToolCallState::Running,
                error: None,
                output: None,
                related_thread: None,
            },
        );
        assert(self@.entries =~= old(self)@.entries.push(started_entry(args)));
        entry_idx
    }

    pub fn entry_count(&self) -> (r: usize)
        ensures
            r == self@.entries.len(),
    {
        self.entries.len()
    }

    /// Whether the group holds more than one call.
    pub fn is_batch(&self) -> (r: bool)
        ensures
            r == self@.is_batch(),
    {
        self.entries.len() > 1
    }

    pub fn set_entry_outcome(
        &mut self,
        entry_idx: usize,
        state: ToolCallState,
        error: Option<String>,
    )
        ensures
            final(self)@ == old(self)@.with_outcome(entry_idx as int, state, opt_text(error)),
            old(self)@.wf() ==> final(self)@.wf(),
    {
        if entry_idx < self.entries.len() {
            let entry: &mut ToolCallEntry = &mut self.entries[entry_idx];
            entry.state = state;
            entry.error = error;
            assert(self@.entries =~= old(self)@.with_outcome(
                entry_idx as int,
                state,
                opt_text(error),
            ).entries);
        }
    }

    pub fn set_entry_output(&mut self, entry_idx: usize, output: String)
        ensures
            final(self)@ == old(self)@.with_output(entry_idx as int, output@),
            old(self)@.wf() ==> final(self)@.wf(),
    {
        if entry_idx < self.entries.len() {
            let ghost text = output@;
            let entry: &mut ToolCallEntry = &mut self.entries[entry_idx];
            entry.output = Some(output);
            assert(self@.entries =~= old(self)@.with_output(entry_idx as int, text).entries);
        }
    }

    /// Records the subagent that a call spawned.
    pub fn set_entry_related_thread(&mut self, entry_idx: usize, thread_id: ThreadId)
        ensures
            final(self)@ == old(self)@.with_related(entry_idx as int, thread_id@),
            old(self)@.wf() ==> final(self)@.wf(),
    {
        if entry_idx < self.entries.len() {
            let ghost thread = thread_id@;
            let entry: &mut ToolCallEntry = &mut self.entries[entry_idx];
            entry.related_thread = Some(thread_id);
            assert(self@.entries =~= old(self)@.with_related(entry_idx as int, thread).entries);
        }
    }

    /// Whether the calls spawn subagents.
    pub fn is_spawn_agent(&self) -> (r: bool)
        ensures
            r == (self@.name == "spawn_agent"@),
    {
        same_text(self.tool_name.as_str(), "spawn_agent")
    }

    /// The subagent of one call.
    pub fn entry_subagent_thread_id(&self, entry_idx: usize) -> (r: Option<ThreadId>)
        ensures
            opt_thread(r) == self@.entry_thread(entry_idx as int),
    {
        if entry_idx < self.entries.len() {
            assert(self@.entries[entry_idx as int] == self.entries@[entry_idx as int]@);
            dup_thread(&self.entries[entry_idx].related_thread)
        } else {
            None
        }
    }

    /// The subagent of the first call.
    pub fn subagent_thread_id(&self) -> (r: Option<ThreadId>)
        ensures
            opt_thread(r) == self@.entry_thread(0),
    {
        self.entry_subagent_thread_id(0)
    }

    /// What there is to copy of one call's outcome; nothing while it runs.
    pub fn copy_entry_result(&self, entry_idx: usize) -> (r: Option<String>)
        ensures
            opt_text(r) == if entry_idx < self@.entries.len() {
                entry_result(self@.entries[entry_idx as int])
            } else {
                None
            },
    {
        if entry_idx >= self.entries.len() {
            return None;
        }
        let entry: &ToolCallEntry = &self.entries[entry_idx];
        assert(self@.entries[entry_idx as int] == entry@);
        if entry.state == ToolCallState::Running {
            return None;
        }
        match &entry.output {
            Some(output) => Some(output.clone()),
            None => match &entry.error {
                Some(error) => {
                    let mut out: String = owned("error: ");
                    out.push_str(error.as_str());
                    Some(out)
                },
                None => None,
            },
        }
    }

    /// The arguments of one call.
    pub fn copy_entry_args(&self, entry_idx: usize) -> (r: Option<String>)
        ensures
            opt_text(r) == if entry_idx < self@.entries.len() {
                Some(self@.entries[entry_idx as int].args)
            } else {
                None
            },
    {
        if entry_idx >= self.entries.len() {
            return None;
        }
        assert(self@.entries[entry_idx as int] == self.entries@[entry_idx as int]@);
        Some(self.entries[entry_idx].args_preview.clone())
    }

    /// The real tool results for copying: each finished entry contributes its
    /// stored output (or its error), running entries are skipped. `None` when
    /// no entry has anything to report yet.
    pub fn copy_result(&self) -> (r: Option<String>)
        ensures
            opt_text(r) == self@.result(),
    {
        let ghost views = self@.entries;
        let mut parts: Vec<String> = Vec::new();
        let mut i: usize = 0;
        assert(texts(parts@) =~= entry_results(views.take(0)));
        while i < self.entries.len()
            invariant
                views == self@.entries,
                i <= self.entries@.len(),
                texts(parts@) == entry_results(views.take(i as int)),
            decreases self.entries@.len() - i,
        {
            let ghost before = texts(parts@);
            proof {
                assert(views.take(i + 1).drop_last() =~= views.take(i as int));
                assert(views.take(i + 1).last() == views[i as int]);
            }
            if let Some(text) = self.copy_entry_result(i) {
                let ghost added = text@;
                parts.push(text);
                assert(texts(parts@) =~= before.push(added));
            }
            i += 1;
        }
        assert(views.take(i as int) =~= views);
        assert(texts(parts@).len() == parts@.len());
        if parts.len() == 0 {
            None
        } else {
            Some(join_texts(&parts, "\n\n"))
        }
    }

    /// The real tool parameters for copying: the full JSON args of every entry.
    pub fn copy_args(&self) -> (r: String)
        ensures
            r@ == self@.args(),
    {
        let ghost views = entry_args(self@.entries);
        let mut parts: Vec<String> = Vec::new();
        let mut i: usize = 0;
        while i < self.entries.len()
            invariant
                views == entry_args(self@.entries),
                i <= self.entries@.len(),
                texts(parts@) =~= views.take(i as int),
            decreases self.entries@.len() - i,
        {
            let ghost before = texts(parts@);
            assert(self@.entries[i as int] == self.entries@[i as int]@);
            let args: String = self.entries[i].args_preview.clone();
            let ghost added = args@;
            parts.push(args);
            assert(texts(parts@) =~= before.push(added));
            i += 1;
        }
        assert(views.take(i as int) =~= views);
        join_texts(&parts, "\n\n")
    }

    fn has_state(&self, state: ToolCallState) -> (r: bool)
        ensures
            r == any_in_state(self@.entries, state),
    {
        let mut i: usize = 0;
        while i < self.entries.len()
            invariant
                i <= self.entries@.len(),
                forall|k: int| 0 <= k < i ==> (#[trigger] self@.entries[k]).state != state,
            decreases self.entries@.len() - i,
        {
            assert(self@.entries[i as int] == self.entries@[i as int]@);
            if self.entries[i].state == state {
                return true;
            }
            i += 1;
        }
        false
    }

    fn header_state(&self) -> (r: ToolCallState)
        ensures
            r == self@.state(),
    {
        if self.has_state(ToolCallState::Failure) {
            ToolCallState::Failure
        } else if self.has_state(ToolCallState::Running) {
            ToolCallState::Running
        } else {
            ToolCallState::Success
        }
    }
}

// ---------------------------------------------------------------------------
// Drawing tool calls
// ---------------------------------------------------------------------------

pub open spec fn glyph_of(state: ToolCallState) -> SpanView {
    match state {
        ToolCallState::Running => span_of("⠋ "@, fg_style(Color::Yellow).with_bold()),
        ToolCallState::Success => span_of("✓ "@, fg_style(Color::Green).with_bold()),
        ToolCallState::Failure => span_of("✗ "@, fg_style(Color::Red).with_bold()),
    }
}

fn tool_call_glyph(state: ToolCallState) -> (r: Span)
    ensures
        r@ == glyph_of(state),
{
    match state {
        ToolCallState::Running => Span::styled("⠋ ", Style::new().fg(Color::Yellow).bold()),
        ToolCallState::Success => Span::styled("✓ ", Style::new().fg(Color::Green).bold()),
        ToolCallState::Failure => Span::styled("✗ ", Style::new().fg(Color::Red).bold()),
    }
}

/// A tool-call row: prefix, glyph, label and arguments.
pub open spec fn call_spans(
    prefix: Seq<char>,
    state: ToolCallState,
    label: Option<Seq<char>>,
    args: Seq<char>,
) -> Seq<SpanView> {
    let head = if prefix.len() > 0 {
        seq![raw_of(prefix), glyph_of(state)]
    } else {
        seq![glyph_of(state)]
    };
    let named = match label {
        Some(label) => head.push(raw_of(label)),
        None => head,
    };
    if args.len() == 0 {
        named
    } else if label is Some {
        named.push(raw_of(" "@)).push(span_of(args, plain().with_dim()))
    } else {
        named.push(span_of(args, plain().with_dim()))
    }
}

/// The column at which the arguments of a tool-call row start.
pub open spec fn call_column(
    prefix: Seq<char>,
    state: ToolCallState,
    label: Option<Seq<char>>,
    args: Seq<char>,
) -> usize {
    let indent = if prefix.len() > 0 {
        unicode_text_width(prefix) as nat
    } else {
        0
    };
    let named = match label {
        Some(label) => unicode_text_width(label) as nat,
        None => 0,
    };
    let gap = if args.len() > 0 && label is Some {
        1nat
    } else {
        0
    };
    capped(
        (indent + unicode_text_width(glyph_of(state).content) as nat + named + gap) as nat,
    )
}

pub open spec fn opt_label(label: Option<&str>) -> Option<Seq<char>> {
    match label {
        Some(label) => Some(label@),
        None => None,
    }
}

/// Build a tool-call row and report the column at which its args content starts,
/// so wrapped continuation rows can hang-indent under the args rather than the
/// glyph or tool name.
fn tool_call_line(
    prefix: &str,
    state: ToolCallState,
    label: Option<&str>,
    args_preview: &str,
) -> (r: (Line, usize))
    ensures
        r.0@ == line_of(call_spans(prefix@, state, opt_label(label), args_preview@)),
        r.1 == call_column(prefix@, state, opt_label(label), args_preview@),
{
    let mut spans: Vec<Span> = Vec::new();
    let mut content_col: usize = 0;
    if !prefix.is_empty() {
        push_span(&mut spans, Span::raw(prefix));
        content_col = display_width(prefix);
    }
    let glyph: Span = tool_call_glyph(state);
    content_col = content_col.saturating_add(display_width(glyph.content.as_str()));
    push_span(&mut spans, glyph);
    if let Some(label) = label {
        content_col = content_col.saturating_add(display_width(label));
        push_span(&mut spans, Span::raw(label));
    }
    if !args_preview.is_empty() {
        if label.is_some() {
            push_span(&mut spans, Span::raw(" "));
            content_col = content_col.saturating_add(1);
        }
        push_span(&mut spans, Span::styled(args_preview, Style::new().dim()));
    }
    assert(span_views(spans@) =~= call_spans(prefix@, state, opt_label(label), args_preview@));
    (Line::from_spans(spans), content_col)
}

pub open spec fn error_spans(indent: Seq<char>, error: Seq<char>) -> Seq<SpanView> {
    seq![
        raw_of(indent),
        span_of("! "@, fg_style(Color::Red).with_bold()),
        span_of(error, fg_style(Color::Red).with_dim()),
    ]
}

/// Two columns behind the indent.
pub open spec fn behind_mark(indent: Seq<char>) -> usize {
    capped((unicode_text_width(indent) + 2) as nat)
}

/// Build a tool failure row and report the column after the `! ` marker so
/// wrapped continuation rows hang-indent under the error text.
fn tool_error_line(indent: &str, error: &str) -> (r: (Line, usize))
    ensures
        r.0@ == line_of(error_spans(indent@, error@)),
        r.1 == behind_mark(indent@),
{
    let mut spans: Vec<Span> = Vec::new();
    push_span(&mut spans, Span::raw(indent));
    push_span(&mut spans, Span::styled("! ", Style::new().fg(Color::Red).bold()));
    push_span(&mut spans, Span::styled(error, Style::new().fg(Color::Red).dim()));
    assert(span_views(spans@) =~= error_spans(indent@, error@));
    (Line::from_spans(spans), display_width(indent).saturating_add(2))
}

pub open spec fn subagent_spans(indent: Seq<char>) -> Seq<SpanView> {
    seq![raw_of(indent), span_of("↳ subagent"@, fg_style(Color::Cyan).with_dim())]
}

/// A row that marks a call with a subagent behind it.
fn subagent_line(indent: &str) -> (r: (Line, usize))
    ensures
        r.0@ == line_of(subagent_spans(indent@)),
        r.1 == behind_mark(indent@),
{
    let mut spans: Vec<Span> = Vec::new();
    push_span(&mut spans, Span::raw(indent));
    push_span(&mut spans, Span::styled("↳ subagent", Style::new().fg(Color::Cyan).dim()));
    assert(span_views(spans@) =~= subagent_spans(indent@));
    (Line::from_spans(spans), display_width(indent).saturating_add(2))
}

/// The rows of one call: the call, its error if it failed, its subagent if it
/// has one.
pub open spec fn entry_rows(
    entry: EntryView,
    prefix: Seq<char>,
    label: Option<Seq<char>>,
    note_indent: Seq<char>,
    width: nat,
) -> Seq<LineView> {
    let call = char_wrapped(
        line_of(call_spans(prefix, entry.state, label, entry.args)),
        width,
        call_column(prefix, entry.state, label, entry.args) as nat,
    );
    let failed = match entry.error {
        Some(error) => if entry.state == ToolCallState::Failure {
            char_wrapped(
                line_of(error_spans(note_indent, error)),
                width,
                behind_mark(note_indent) as nat,
            )
        } else {
            no_lines()
        },
        None => no_lines(),
    };
    let spawned = if entry.related is Some {
        char_wrapped(
            line_of(subagent_spans(note_indent)),
            width,
            behind_mark(note_indent) as nat,
        )
    } else {
        no_lines()
    };
    call + failed + spawned
}

fn render_entry(
    entry: &ToolCallEntry,
    prefix: &str,
    label: Option<&str>,
    note_indent: &str,
    width: usize,
) -> (r: Vec<Line>)
    ensures
        line_views(r@) == entry_rows(
            entry@,
            prefix@,
            opt_label(label),
            note_indent@,
            width as nat,
        ),
{
    let (line, indent) = tool_call_line(prefix, entry.state, label, entry.args_preview.as_str());
    let mut lines: Vec<Line> = wrap_line_char_hanging(&line, width, indent);
    let ghost call = line_views(lines@);
    assert(call + no_lines() =~= call);
    if entry.state == ToolCallState::Failure {
        if let Some(error) = &entry.error {
            let (line, indent) = tool_error_line(note_indent, error.as_str());
            append_lines(&mut lines, wrap_line_char_hanging(&line, width, indent));
        }
    }
    let ghost failed = line_views(lines@);
    assert(failed + no_lines() =~= failed);
    if entry.related_thread.is_some() {
        let (line, indent) = subagent_line(note_indent);
        append_lines(&mut lines, wrap_line_char_hanging(&line, width, indent));
    }
    lines
}

/// The number in front of a call of a batch.
pub open spec fn entry_prefix(i: nat) -> Seq<char> {
    "   "@ + numeral(i + 1) + ". "@
}

fn numbered_prefix(i: usize) -> (r: String)
    ensures
        r@ == entry_prefix(i as nat),
{
    let mut out: String = owned("   ");
    let number: String = decimal(i as u128 + 1);
    out.push_str(number.as_str());
    out.push_str(". ");
    out
}

/// A row of the selected item.
pub open spec fn highlighted_row(line: LineView) -> LineView {
    LineView { style: line.style.patched(bg_style(Color::DarkGray)), ..line }
}

pub open spec fn highlighted_rows(lines: Seq<LineView>) -> Seq<LineView> {
    lines.map_values(|l: LineView| highlighted_row(l))
}

/// Marks every row as selected.
pub fn highlight_rows(lines: &mut Vec<Line>)
    ensures
        line_views(final(lines)@) == highlighted_rows(line_views(old(lines)@)),
{
    let ghost all = old(lines)@;
    let mut i: usize = 0;
    while i < lines.len()
        invariant
            i <= lines@.len(),
            lines@.len() == all.len(),
            forall|k: int| i <= k < all.len() ==> #[trigger] lines@[k] == all[k],
            forall|k: int|
                0 <= k < i ==> (#[trigger] lines@[k])@ == highlighted_row(all[k]@),
        decreases lines@.len() - i,
    {
        let line: &mut Line = &mut lines[i];
        line.style = line.style.patch(Style::new().bg(Color::DarkGray));
        i += 1;
    }
    assert(line_views(lines@) =~= highlighted_rows(line_views(all)));
}

/// The rows of call `i` of a batch.
pub open spec fn batch_entry_rows(group: GroupView, i: nat, width: nat) -> Seq<LineView> {
    entry_rows(group.entries[i as int], entry_prefix(i), None, "        "@, width)
}

/// The row that heads a batch.
pub open spec fn batch_header(group: GroupView, width: nat) -> Seq<LineView> {
    char_wrapped(
        line_of(call_spans(Seq::empty(), group.state(), Some(group.name), Seq::empty())),
        width,
        call_column(Seq::empty(), group.state(), Some(group.name), Seq::empty()) as nat,
    )
}

/// A batch with its first `n` calls; those of the selected one are marked.
pub open spec fn batch_rows(group: GroupView, width: nat, selected: Option<usize>, n: nat) -> Seq<
    LineView,
>
    decreases n,
{
    if n == 0 {
        batch_header(group, width)
    } else {
        let rows = batch_entry_rows(group, (n - 1) as nat, width);
        batch_rows(group, width, selected, (n - 1) as nat) + if selected == Some((n - 1) as usize) {
            highlighted_rows(rows)
        } else {
            rows
        }
    }
}

/// The rows of a group. A single call is shown with the tool's name, a batch
/// under a heading.
pub open spec fn group_rows(group: GroupView, width: nat, selected: Option<usize>) -> Seq<
    LineView,
> {
    if group.entries.len() == 1 {
        entry_rows(group.entries[0], Seq::empty(), Some(group.name), "      "@, width)
    } else {
        batch_rows(group, width, selected, group.entries.len())
    }
}

impl ToolCallGroupCell {
    pub fn display_lines(&self, width: usize) -> (r: Vec<Line>)
        ensures
            line_views(r@) == group_rows(self@, width as nat, None),
    {
        self.display_lines_with_selected_entry(width, None)
    }

    fn render_batch_header(&self, width: usize) -> (r: Vec<Line>)
        ensures
            line_views(r@) == batch_header(self@, width as nat),
    {
        proof {
            reveal_strlit("");
            assert(""@ =~= Seq::<char>::empty());
        }
        let (header, indent) = tool_call_line("", self.header_state(), Some(self.tool_name()), "");
        wrap_line_char_hanging(&header, width, indent)
    }

    fn render_batch_entry(&self, i: usize, width: usize) -> (r: Vec<Line>)
        requires
            i < self@.entries.len(),
        ensures
            line_views(r@) == batch_entry_rows(self@, i as nat, width as nat),
    {
        assert(self@.entries[i as int] == self.entries@[i as int]@);
        let prefix: String = numbered_prefix(i);
        render_entry(&self.entries[i], prefix.as_str(), None, "        ", width)
    }

    /// The rows of the group, those of one call of a batch marked as selected.
    pub fn display_lines_with_selected_entry(&self, width: usize, selected: Option<usize>) -> (r:
        Vec<Line>)
        ensures
            line_views(r@) == group_rows(self@, width as nat, selected),
    {
        if self.entries.len() == 1 {
            proof {
                reveal_strlit("");
                assert(""@ =~= Seq::<char>::empty());
                assert(self@.entries[0] == self.entries@[0]@);
            }
            return render_entry(&self.entries[0], "", Some(self.tool_name()), "      ", width);
        }
        let mut lines: Vec<Line> = self.render_batch_header(width);
        let mut i: usize = 0;
        while i < self.entries.len()
            invariant
                i <= self.entries@.len(),
                self@.entries.len() == self.entries@.len(),
                line_views(lines@) == batch_rows(self@, width as nat, selected, i as nat),
            decreases self.entries@.len() - i,
        {
            let mut rows: Vec<Line> = self.render_batch_entry(i, width);
            let marked: bool = match selected {
                Some(s) => s == i,
                None => false,
            };
            if marked {
                highlight_rows(&mut rows);
            }
            append_lines(&mut lines, rows);
            i += 1;
        }
        lines
    }
}

/// Where the rows of call `i` of a batch start, and how many they are.
pub open spec fn entry_extent(group: GroupView, width: nat, i: nat) -> Option<(usize, usize)> {
    if i < group.entries.len() && group.is_batch() {
        Some(
            (
                capped(batch_rows(group, width, None, i).len()),
                capped(batch_entry_rows(group, i, width).len()),
            ),
        )
    } else {
        None
    }
}

impl ToolCallGroupCell {
    /// Row range `(start, height)` of one call inside a batch.
    pub fn entry_row_extent(&self, width: usize, entry_idx: usize) -> (r: Option<(usize, usize)>)
        ensures
            r == entry_extent(self@, width as nat, entry_idx as nat),
    {
        if entry_idx >= self.entries.len() || !self.is_batch() {
            return None;
        }
        let header: Vec<Line> = self.render_batch_header(width);
        let mut start: usize = header.len();
        assert(line_views(header@).len() == header@.len());
        let mut i: usize = 0;
        while i < entry_idx
            invariant
                i <= entry_idx < self.entries@.len(),
                self@.entries.len() == self.entries@.len(),
                start == capped(batch_rows(self@, width as nat, None, i as nat).len()),
            decreases entry_idx - i,
        {
            let rows: Vec<Line> = self.render_batch_entry(i, width);
            assert(line_views(rows@).len() == rows@.len());
            start = start.saturating_add(rows.len());
            i += 1;
        }
        let rows: Vec<Line> = self.render_batch_entry(entry_idx, width);
        assert(line_views(rows@).len() == rows@.len());
        Some((start, rows.len()))
    }
}

// ---------------------------------------------------------------------------
// Transcript items
// ---------------------------------------------------------------------------

pub type TranscriptItemId = u64;

#[derive(Debug)]
pub enum TranscriptItemKind {
    User { message: String },
    Assistant { lines: Vec<Line>, is_first_line: bool, raw: String },
    Reasoning { lines: Vec<Line>, is_first_line: bool, raw: String },
    Plain { lines: Vec<Line>, hang_indent: usize },
    Patch { file_change: FileChangeOutput },
    TodoList { todos: Vec<TodoItem> },
    ToolCallGroup(ToolCallGroupCell),
}

/// A row of the transcript. `version` grows with every change of the row.
#[derive(Debug)]
pub struct TranscriptItem {
    pub id: TranscriptItemId,
    pub version: u64,
    pub kind: TranscriptItemKind,
}

#[verifier::ext_equal]
pub enum KindView {
    User { message: Seq<char> },
    Assistant { lines: Seq<LineView>, first: bool, raw: Seq<char> },
    Reasoning { lines: Seq<LineView>, first: bool, raw: Seq<char> },
    Plain { lines: Seq<LineView>, hang: usize },
    Patch { change: FileChangeOutput },
    TodoList { todos: Seq<TodoItem> },
    Group(GroupView),
}

#[verifier::ext_equal]
pub struct ItemView {
    pub id: u64,
    pub version: u64,
    pub kind: KindView,
}

impl View for TranscriptItemKind {
    type V = KindView;

    open spec fn view(&self) -> KindView {
        match *self {
            TranscriptItemKind::User { message } => KindView::User { message: message@ },
            TranscriptItemKind::Assistant { lines, is_first_line, raw } => KindView::Assistant {
                lines: line_views(lines@),
                first: is_first_line,
                raw: raw@,
            },
            TranscriptItemKind::Reasoning { lines, is_first_line, raw } => KindView::Reasoning {
                lines: line_views(lines@),
                first: is_first_line,
                raw: raw@,
            },
            TranscriptItemKind::Plain { lines, hang_indent } => KindView::Plain {
                lines: line_views(lines@),
                hang: hang_indent,
            },
            TranscriptItemKind::Patch { file_change } => KindView::Patch { change: file_change },
            TranscriptItemKind::TodoList { todos } => KindView::TodoList { todos: todos@ },
            TranscriptItemKind::ToolCallGroup(cell) => KindView::Group(cell@),
        }
    }
}

impl View for TranscriptItem {
    type V = ItemView;

    open spec fn view(&self) -> ItemView {
        ItemView { id: self.id, version: self.version, kind: self.kind@ }
    }
}

pub open spec fn item_views(items: Seq<TranscriptItem>) -> Seq<ItemView> {
    items.map_values(|i: TranscriptItem| i@)
}

/// A row that was never changed.
pub open spec fn fresh_item(id: u64, kind: KindView) -> ItemView {
    ItemView { id, version: 0, kind }
}

/// The marks in front of an answer.
pub open spec fn answer_rows(answers: Seq<AnswerView>) -> Seq<LineView>
    decreases answers.len(),
{
    if answers.len() == 0 {
        no_lines()
    } else {
        let a = answers.last();
        answer_rows(answers.drop_last()).push(
            line_of(
                seq![
                    span_of("? "@, fg_style(Color::Cyan).with_bold()),
                    span_of(a.question, plain().with_dim()),
                ],
            ),
        ).push(
            line_of(
                seq![
                    raw_of("  → "@),
                    span_of(join(a.selected, ", "@), fg_style(Color::Cyan)),
                ],
            ),
        )
    }
}

/// A glyph in its style, and a message in another.
pub open spec fn marked_line(
    glyph: Seq<char>,
    glyph_style: Style,
    message: Seq<char>,
    style: Style,
) -> LineView {
    line_of(seq![span_of(glyph, glyph_style), span_of(message, style)])
}

pub open spec fn info_kind(message: Seq<char>) -> KindView {
    KindView::Plain {
        lines: seq![
            marked_line(
                "i "@,
                fg_style(Color::Yellow).with_bold(),
                message,
                plain().with_dim(),
            ),
        ],
        hang: 2,
    }
}

pub open spec fn error_kind(message: Seq<char>) -> KindView {
    KindView::Plain {
        lines: seq![
            marked_line("! "@, fg_style(Color::Red).with_bold(), message, fg_style(Color::Red)),
        ],
        hang: 2,
    }
}

impl TranscriptItem {
    pub fn of_kind(id: TranscriptItemId, kind: TranscriptItemKind) -> (r: TranscriptItem)
        ensures
            r@ == fresh_item(id, kind@),
    {
        TranscriptItem { id, version: 0, kind }
    }

    pub fn user(id: TranscriptItemId, message: String) -> (r: TranscriptItem)
        ensures
            r@ == fresh_item(id, (KindView::User { message: message@ })),
    {
        TranscriptItem::of_kind(id, TranscriptItemKind::User { message })
    }

    pub fn assistant(
        id: TranscriptItemId,
        lines: Vec<Line>,
        is_first_line: bool,
        raw: String,
    ) -> (r: TranscriptItem)
        ensures
            r@ == fresh_item(
                id,
                (KindView::Assistant {
                    lines: line_views(lines@),
                    first: is_first_line,
                    raw: raw@,
                }),
            ),
    {
        TranscriptItem::of_kind(id, TranscriptItemKind::Assistant { lines, is_first_line, raw })
    }

    pub fn reasoning(
        id: TranscriptItemId,
        lines: Vec<Line>,
        is_first_line: bool,
        raw: String,
    ) -> (r: TranscriptItem)
        ensures
            r@ == fresh_item(
                id,
                (KindView::Reasoning {
                    lines: line_views(lines@),
                    first: is_first_line,
                    raw: raw@,
                }),
            ),
    {
        TranscriptItem::of_kind(id, TranscriptItemKind::Reasoning { lines, is_first_line, raw })
    }

    /// Plain transcript rows whose continuation lines hang-indent by
    /// `hang_indent` columns, so a glyph-prefixed message keeps its alignment
    /// when it wraps.
    fn plain_hanging(id: TranscriptItemId, lines: Vec<Line>, hang_indent: usize) -> (r:
        TranscriptItem)
        ensures
            r@ == fresh_item(
                id,
                (KindView::Plain { lines: line_views(lines@), hang: hang_indent }),
            ),
    {
        TranscriptItem::of_kind(id, TranscriptItemKind::Plain { lines, hang_indent })
    }

    /// Summary row pushed when the user answers a question, so the Q→A
    /// exchange stays visible in scrollback.
    pub fn question_answers(id: TranscriptItemId, answers: &Vec<AskUserQuestionAnswer>) -> (r:
        TranscriptItem)
        ensures
            r@ == fresh_item(
                id,
                (KindView::Plain { lines: answer_rows(answer_views(answers@)), hang: 4 }),
            ),
    {
        let ghost views = answer_views(answers@);
        let mut lines: Vec<Line> = new_lines();
        let mut i: usize = 0;
        while i < answers.len()
            invariant
                views == answer_views(answers@),
                i <= answers@.len(),
                line_views(lines@) == answer_rows(views.take(i as int)),
            decreases answers@.len() - i,
        {
            let answer: &AskUserQuestionAnswer = &answers[i];
            proof {
                assert(views.take(i + 1).drop_last() =~= views.take(i as int));
                assert(views.take(i + 1).last() == answer@);
            }
            push_line(
                &mut lines,
                Line::of_two(
                    Span::styled("? ", Style::new().fg(Color::Cyan).bold()),
                    Span::styled(answer.question.as_str(), Style::new().dim()),
                ),
            );
            let chosen: String = join_texts(&answer.selected, ", ");
            push_line(
                &mut lines,
                Line::of_two(
                    Span::raw("  → "),
                    Span::styled(chosen.as_str(), Style::new().fg(Color::Cyan)),
                ),
            );
            i += 1;
        }
        assert(views.take(i as int) =~= views);
        TranscriptItem::plain_hanging(id, lines, 4)
    }

    pub fn info(id: TranscriptItemId, message: &str) -> (r: TranscriptItem)
        ensures
            r@ == fresh_item(id, info_kind(message@)),
    {
        let mut lines: Vec<Line> = new_lines();
        push_line(
            &mut lines,
            Line::of_two(
                Span::styled("i ", Style::new().fg(Color::Yellow).bold()),
                Span::styled(message, Style::new().dim()),
            ),
        );
        let r: TranscriptItem = TranscriptItem::plain_hanging(id, lines, 2);
        assert(r@.kind =~~= info_kind(message@));
        r
    }

    pub fn error(id: TranscriptItemId, message: &str) -> (r: TranscriptItem)
        ensures
            r@ == fresh_item(id, error_kind(message@)),
    {
        let mut lines: Vec<Line> = new_lines();
        push_line(
            &mut lines,
            Line::of_two(
                Span::styled("! ", Style::new().fg(Color::Red).bold()),
                Span::styled(message, Style::new().fg(Color::Red)),
            ),
        );
        let r: TranscriptItem = TranscriptItem::plain_hanging(id, lines, 2);
        assert(r@.kind =~~= error_kind(message@));
        r
    }

    pub fn patch(id: TranscriptItemId, file_change: FileChangeOutput) -> (r: TranscriptItem)
        ensures
            r@ == fresh_item(id, (KindView::Patch { change: file_change })),
    {
        TranscriptItem::of_kind(id, TranscriptItemKind::Patch { file_change })
    }

    /// Checklist snapshot left in the transcript by a successful `todo_write`
    /// call, replacing the generic tool row.
    pub fn todo_list(id: TranscriptItemId, todos: Vec<TodoItem>) -> (r: TranscriptItem)
        ensures
            r@ == fresh_item(id, (KindView::TodoList { todos: todos@ })),
    {
        TranscriptItem::of_kind(id, TranscriptItemKind::TodoList { todos })
    }

    pub fn tool_group(id: TranscriptItemId, cell: ToolCallGroupCell) -> (r: TranscriptItem)
        ensures
            r@ == fresh_item(id, KindView::Group(cell@)),
    {
        TranscriptItem::of_kind(id, TranscriptItemKind::ToolCallGroup(cell))
    }

    pub fn id(&self) -> (r: TranscriptItemId)
        ensures
            r == self@.id,
    {
        self.id
    }

    pub fn version(&self) -> (r: u64)
        ensures
            r == self@.version,
    {
        self.version
    }

    pub fn is_user(&self) -> (r: bool)
        ensures
            r == (self@.kind is User),
    {
        match &self.kind {
            TranscriptItemKind::User { message } => true,
            _ => false,
        }
    }

    pub fn tool_group_cell(&self) -> (r: Option<&ToolCallGroupCell>)
        ensures
            match r {
                Some(cell) => self@.kind == KindView::Group(cell@),
                None => !(self@.kind is Group),
            },
    {
        match &self.kind {
            TranscriptItemKind::ToolCallGroup(cell) => Some(cell),
            _ => None,
        }
    }

    pub fn replace_with_patch(&mut self, file_change: FileChangeOutput)
        ensures
            final(self)@ == (ItemView {
                kind: KindView::Patch { change: file_change },
                ..old(self)@.mutated()
            }),
    {
        self.kind = TranscriptItemKind::Patch { file_change };
        self.version = self.version.saturating_add(1);
    }

    pub fn replace_with_todos(&mut self, todos: Vec<TodoItem>)
        ensures
            final(self)@ == (ItemView {
                kind: KindView::TodoList { todos: todos@ },
                ..old(self)@.mutated()
            }),
    {
        self.kind = TranscriptItemKind::TodoList { todos };
        self.version = self.version.saturating_add(1);
    }

    pub fn mark_mutated(&mut self)
        ensures
            final(self)@ == old(self)@.mutated(),
    {
        self.version = self.version.saturating_add(1);
    }
}

impl KindView {
    pub open spec fn with_outcome(
        self,
        i: int,
        state: ToolCallState,
        error: Option<Seq<char>>,
    ) -> KindView {
        match self {
            KindView::Group(group) => KindView::Group(group.with_outcome(i, state, error)),
            _ => self,
        }
    }

    pub open spec fn with_output(self, i: int, output: Seq<char>) -> KindView {
        match self {
            KindView::Group(group) => KindView::Group(group.with_output(i, output)),
            _ => self,
        }
    }

    pub open spec fn with_related(self, i: int, thread: Seq<char>) -> KindView {
        match self {
            KindView::Group(group) => KindView::Group(group.with_related(i, thread)),
            _ => self,
        }
    }

    pub open spec fn with_entry(self, args: Seq<char>) -> KindView {
        match self {
            KindView::Group(group) => KindView::Group(group.with_entry(args)),
            _ => self,
        }
    }

    /// A row that groups calls groups at least one.
    pub open spec fn wf(self) -> bool {
        self matches KindView::Group(group) ==> group.wf()
    }

    /// The number of calls that a row groups.
    pub open spec fn calls(self) -> nat {
        match self {
            KindView::Group(group) => group.entries.len(),
            _ => 0,
        }
    }
}

impl TranscriptItem {
    /// Sets how a call of the group ended; a row that is no group stays as it
    /// is.
    pub fn set_call_outcome(
        &mut self,
        entry_idx: usize,
        state: ToolCallState,
        error: Option<String>,
    )
        ensures
            final(self)@ == (ItemView {
                kind: old(self)@.kind.with_outcome(entry_idx as int, state, opt_text(error)),
                ..old(self)@
            }),
    {
        match &mut self.kind {
            TranscriptItemKind::ToolCallGroup(cell) => cell.set_entry_outcome(
                entry_idx,
                state,
                error,
            ),
            _ => {},
        }
    }

    pub fn set_call_output(&mut self, entry_idx: usize, output: String)
        ensures
            final(self)@ == (ItemView {
                kind: old(self)@.kind.with_output(entry_idx as int, output@),
                ..old(self)@
            }),
    {
        match &mut self.kind {
            TranscriptItemKind::ToolCallGroup(cell) => cell.set_entry_output(entry_idx, output),
            _ => {},
        }
    }

    pub fn set_call_related_thread(&mut self, entry_idx: usize, thread_id: ThreadId)
        ensures
            final(self)@ == (ItemView {
                kind: old(self)@.kind.with_related(entry_idx as int, thread_id@),
                ..old(self)@
            }),
    {
        match &mut self.kind {
            TranscriptItemKind::ToolCallGroup(cell) => cell.set_entry_related_thread(
                entry_idx,
                thread_id,
            ),
            _ => {},
        }
    }

    /// Adds a call to the group; the result is its place.
    pub fn push_call(&mut self, args_preview: String) -> (r: usize)
        ensures
            final(self)@ == (ItemView {
                kind: old(self)@.kind.with_entry(args_preview@),
                ..old(self)@
            }),
            r == old(self)@.kind.calls(),
    {
        match &mut self.kind {
            TranscriptItemKind::ToolCallGroup(cell) => cell.push_entry(args_preview),
            _ => 0,
        }
    }

    /// The number of calls that the row groups.
    pub fn call_count(&self) -> (r: usize)
        ensures
            r == self@.kind.calls(),
    {
        match &self.kind {
            TranscriptItemKind::ToolCallGroup(cell) => cell.entry_count(),
            _ => 0,
        }
    }
}

impl ItemView {
    /// The row with its next version.
    pub open spec fn mutated(self) -> ItemView {
        ItemView {
            version: if self.version < u64::MAX {
                (self.version + 1) as u64
            } else {
                self.version
            },
            ..self
        }
    }

    pub open spec fn group(self) -> Option<GroupView> {
        match self.kind {
            KindView::Group(group) => Some(group),
            _ => None,
        }
    }
}

// ---------------------------------------------------------------------------
// Drawing items
// ---------------------------------------------------------------------------

pub open spec fn todo_line(todo: TodoItem) -> LineView {
    match todo.status {
        TodoStatus::Pending => marked_line(
            "☐ "@,
            plain().with_dim(),
            todo.content@,
            plain().with_dim(),
        ),
        TodoStatus::InProgress => marked_line(
            "◐ "@,
            fg_style(Color::Cyan).with_bold(),
            todo.content@,
            plain().with_bold(),
        ),
        TodoStatus::Completed => marked_line(
            "☑ "@,
            fg_style(Color::Green),
            todo.content@,
            plain().with_dim().with_crossed_out(),
        ),
    }
}

/// A checklist: a glyph for the state of each entry, its text hanging behind.
pub open spec fn todo_rows(todos: Seq<TodoItem>, width: nat) -> Seq<LineView>
    decreases todos.len(),
{
    if todos.len() == 0 {
        no_lines()
    } else {
        todo_rows(todos.drop_last(), width) + word_wrapped(todo_line(todos.last()), width, 2)
    }
}

/// Render a `todo_write` checklist snapshot: one glyph-prefixed row per todo,
/// continuation rows hang-indented under the content.
fn render_todo_list(todos: &Vec<TodoItem>, width: usize) -> (r: Vec<Line>)
    ensures
        line_views(r@) == todo_rows(todos@, width as nat),
{
    let mut lines: Vec<Line> = new_lines();
    let mut i: usize = 0;
    while i < todos.len()
        invariant
            i <= todos@.len(),
            line_views(lines@) == todo_rows(todos@.take(i as int), width as nat),
        decreases todos@.len() - i,
    {
        let todo: &TodoItem = &todos[i];
        let (glyph, style) = match todo.status {
            TodoStatus::Pending => (Span::styled("☐ ", Style::new().dim()), Style::new().dim()),
            TodoStatus::InProgress => (
                Span::styled("◐ ", Style::new().fg(Color::Cyan).bold()),
                Style::new().bold(),
            ),
            TodoStatus::Completed => (
                Span::styled("☑ ", Style::new().fg(Color::Green)),
                Style::new().dim().crossed_out(),
            ),
        };
        let line: Line = Line::of_two(glyph, Span::styled(todo.content.as_str(), style));
        append_lines(&mut lines, wrap_line_hanging(&line, width, 2));
        assert(todos@.take(i + 1).drop_last() =~= todos@.take(i as int));
        i += 1;
    }
    assert(todos@.take(i as int) =~= todos@);
    lines
}

/// Whether a line was marked as fenced code.
pub open spec fn is_preformatted(line: LineView) -> bool {
    line.spans.len() > 0 && line.style.fg == Some(CODE_COLOR)
}

/// A markdown line is preformatted (column-faithful wrapping) when the markdown
/// renderer marked the whole line as fenced code. Inline code only colors spans,
/// so even an inline-code-only paragraph still word-wraps as prose.
pub fn is_preformatted_line(line: &Line) -> (r: bool)
    ensures
        r == is_preformatted(line@),
{
    line.spans.len() > 0 && match line.style.fg {
        Some(color) => color == CODE_COLOR,
        None => false,
    }
}

/// The first `n` lines of a message, each behind its prefix: prose wrapped
/// between words, code at the exact column.
pub open spec fn message_rows(
    lines: Seq<LineView>,
    first_prefix: SpanView,
    rest_prefix: SpanView,
    dim: bool,
    width: nat,
    n: nat,
) -> Seq<LineView>
    decreases n,
{
    if n == 0 {
        no_lines()
    } else {
        let raw = lines[n - 1];
        let prefix = if n == 1 {
            first_prefix
        } else {
            rest_prefix
        };
        let prefixed = LineView {
            spans: seq![prefix] + raw.spans,
            style: if dim {
                plain().with_dim()
            } else {
                raw.style
            },
        };
        message_rows(lines, first_prefix, rest_prefix, dim, width, (n - 1) as nat) + if is_preformatted(
            raw,
        ) {
            char_wrapped(prefixed, width, 0)
        } else {
            word_wrapped(prefixed, width, 0)
        }
    }
}

/// Wrap markdown-rendered content, choosing the wrap policy per logical line:
/// prose word-wraps, while fenced code lines (marked at the line level)
/// wrap column-faithfully so indentation and alignment survive. `dim` applies
/// the reasoning styling. The prefix is added to the first row of each logical
/// line.
fn wrap_markdown_lines(
    lines: &Vec<Line>,
    first_prefix: &Span,
    rest_prefix: &Span,
    dim: bool,
    width: usize,
) -> (r: Vec<Line>)
    ensures
        line_views(r@) == message_rows(
            line_views(lines@),
            first_prefix@,
            rest_prefix@,
            dim,
            width as nat,
            lines@.len(),
        ),
{
    let ghost views = line_views(lines@);
    let mut out: Vec<Line> = new_lines();
    let mut i: usize = 0;
    while i < lines.len()
        invariant
            views == line_views(lines@),
            i <= lines@.len(),
            line_views(out@) == message_rows(
                views,
                first_prefix@,
                rest_prefix@,
                dim,
                width as nat,
                i as nat,
            ),
        decreases lines@.len() - i,
    {
        let raw: &Line = &lines[i];
        assert(views[i as int] == raw@);
        let style: Style = if dim {
            Style::new().dim()
        } else {
            raw.style
        };
        let prefix: Span = if i == 0 {
            first_prefix.duplicate()
        } else {
            rest_prefix.duplicate()
        };
        let prefixed: Line = prefixed_line(prefix, raw, style);
        if is_preformatted_line(raw) {
            append_lines(&mut out, wrap_line_char(&prefixed, width));
        } else {
            append_lines(&mut out, wrap_line(&prefixed, width));
        }
        i += 1;
    }
    out
}

fn prefixed_line(prefix: Span, line: &Line, style: Style) -> (r: Line)
    ensures
        r@ == (LineView { spans: seq![prefix@] + line@.spans, style }),
{
    let mut spans: Vec<Span> = Vec::new();
    let ghost head = prefix@;
    push_span(&mut spans, prefix);
    assert(span_views(spans@) =~= seq![head] + line@.spans.take(0));
    let mut i: usize = 0;
    while i < line.spans.len()
        invariant
            i <= line.spans@.len(),
            span_views(spans@) == seq![head] + line@.spans.take(i as int),
        decreases line.spans@.len() - i,
    {
        push_span(&mut spans, line.spans[i].duplicate());
        assert(line@.spans[i as int] == line.spans@[i as int]@);
        assert(seq![head] + line@.spans.take(i + 1) =~= (seq![head] + line@.spans.take(
            i as int,
        )).push(line@.spans[i as int]));
        i += 1;
    }
    assert(line@.spans.take(i as int) =~= line@.spans);
    Line { spans, style }
}

/// Every line behind a prefix.
pub open spec fn prefixed_lines(lines: Seq<LineView>, first: SpanView, rest: SpanView) -> Seq<
    LineView,
> {
    Seq::new(lines.len(), |i: int| prefixed_with(lines[i], if i == 0 { first } else { rest }))
}

pub open spec fn prefixed_with(line: LineView, prefix: SpanView) -> LineView {
    LineView { spans: seq![prefix] + line.spans, style: line.style }
}

/// Puts a prefix in front of every line.
pub fn prefix_lines(lines: &Vec<Line>, first_prefix: &Span, rest_prefix: &Span) -> (r: Vec<Line>)
    ensures
        line_views(r@) == prefixed_lines(line_views(lines@), first_prefix@, rest_prefix@),
{
    let ghost views = line_views(lines@);
    let ghost all = prefixed_lines(views, first_prefix@, rest_prefix@);
    let mut out: Vec<Line> = new_lines();
    let mut i: usize = 0;
    assert(line_views(out@) =~= all.take(0));
    while i < lines.len()
        invariant
            views == line_views(lines@),
            all == prefixed_lines(views, first_prefix@, rest_prefix@),
            i <= lines@.len(),
            line_views(out@) == all.take(i as int),
        decreases lines@.len() - i,
    {
        assert(views[i as int] == lines@[i as int]@);
        let prefix: Span = if i == 0 {
            first_prefix.duplicate()
        } else {
            rest_prefix.duplicate()
        };
        push_line(&mut out, prefixed_line(prefix, &lines[i], lines[i].style));
        assert(all.take(i + 1) =~= all.take(i as int).push(all[i as int]));
        i += 1;
    }
    assert(all.take(i as int) =~= all);
    out
}

/// A rule over the whole width.
pub open spec fn rule_line(width: u16) -> LineView {
    line_of(seq![span_of(repeated('─', columns_of(width)), fg_style(Color::DarkGray))])
}

/// Full-width muted rule used to bracket a user message above and below,
/// setting it apart from the surrounding assistant output.
fn user_separator(width: u16) -> (r: Line)
    ensures
        r@ == rule_line(width),
{
    let n: usize = if width > 0 {
        width as usize
    } else {
        1
    };
    let rule: String = repeat_char('─', n);
    Line::from_span(Span::styled(rule.as_str(), Style::new().fg(Color::DarkGray)))
}

/// The lines of a text, one per line feed.
pub open spec fn raw_lines(parts: Seq<Seq<char>>) -> Seq<LineView> {
    parts.map_values(|p: Seq<char>| line_of(seq![raw_of(p)]))
}

pub open spec fn message_lines(message: Seq<char>) -> Seq<LineView> {
    if message.len() == 0 {
        seq![blank_line()]
    } else {
        raw_lines(split_on(message, '\n'))
    }
}

pub open spec fn gutter_span() -> SpanView {
    span_of("▌ "@, fg_style(Color::Blue).with_bold())
}

/// Columns left beside the gutter of a user message.
pub open spec fn body_room(width: u16) -> nat {
    let gutter = unicode_text_width("▌ "@) as nat;
    if columns_of(width) > gutter + 1 {
        (columns_of(width) - gutter) as nat
    } else {
        1
    }
}

/// A user message: a gutter on every row, a rule above and below.
pub open spec fn user_rows(message: Seq<char>, width: u16) -> Seq<LineView> {
    let body = all_wrapped(message_lines(message), body_room(width));
    (seq![rule_line(width)] + prefixed_lines(body, gutter_span(), gutter_span())).push(
        rule_line(width),
    )
}

/// User messages are bracketed by a blue left gutter bar on every wrapped row,
/// setting them apart from the assistant's single `•` glyph. The body is wrapped
/// to the reduced width *first* so the gutter column is reserved on continuation
/// rows too (unlike a prefix-then-wrap approach, which only marks the first row).
fn render_user_message(message: &str, width: u16) -> (r: Vec<Line>)
    ensures
        line_views(r@) == user_rows(message@, width),
{
    let gutter_width: usize = display_width("▌ ");
    let columns: usize = if width > 0 {
        width as usize
    } else {
        1
    };
    let rest: usize = columns.saturating_sub(gutter_width);
    let body_width: usize = if rest > 1 {
        rest
    } else {
        1
    };
    let mut body: Vec<Line> = new_lines();
    if message.is_empty() {
        push_line(&mut body, Line::blank());
        assert(line_views(body@) =~= message_lines(message@));
    } else {
        let parts: Vec<String> = split_text(message, '\n');
        let ghost views = split_on(message@, '\n');
        let mut i: usize = 0;
        assert(line_views(body@) =~= raw_lines(views).take(0));
        while i < parts.len()
            invariant
                texts(parts@) == views,
                i <= parts@.len(),
                line_views(body@) == raw_lines(views).take(i as int),
            decreases parts@.len() - i,
        {
            assert(texts(parts@)[i as int] == parts@[i as int]@);
            push_line(&mut body, Line::from_span(Span::raw(parts[i].as_str())));
            assert(raw_lines(views).take(i + 1) =~= raw_lines(views).take(i as int).push(
                raw_lines(views)[i as int],
            ));
            i += 1;
        }
        assert(texts(parts@).len() == parts@.len());
        assert(raw_lines(views).take(i as int) =~= raw_lines(views));
    }
    let wrapped: Vec<Line> = wrap_lines(&body, body_width);
    let gutter: Span = Span::styled("▌ ", Style::new().fg(Color::Blue).bold());
    let mut lines: Vec<Line> = new_lines();
    push_line(&mut lines, user_separator(width));
    assert(line_views(lines@) =~= seq![rule_line(width)]);
    append_lines(&mut lines, prefix_lines(&wrapped, &gutter, &gutter));
    push_line(&mut lines, user_separator(width));
    lines
}

/// Plain rows, each with its hanging indent.
pub open spec fn plain_hanging_rows(lines: Seq<LineView>, width: nat, hang: nat) -> Seq<LineView>
    decreases lines.len(),
{
    if lines.len() == 0 {
        no_lines()
    } else {
        plain_hanging_rows(lines.drop_last(), width, hang) + word_wrapped(
            lines.last(),
            width,
            hang,
        )
    }
}

pub open spec fn assistant_prefix(first: bool) -> SpanView {
    if first {
        span_of("• "@, fg_style(Color::Green).with_bold())
    } else {
        span_of("  "@, fg_style(Color::Green))
    }
}

pub open spec fn reasoning_prefix(first: bool) -> SpanView {
    if first {
        span_of("… "@, fg_style(Color::Magenta).with_dim().with_bold())
    } else {
        span_of("  "@, fg_style(Color::Magenta).with_dim())
    }
}

/// The rows that show an item.
pub open spec fn item_rows(config: ConfigView, kind: KindView, width: u16) -> Seq<LineView> {
    match kind {
        KindView::User { message } => user_rows(message, width),
        KindView::Assistant { lines, first, raw } => message_rows(
            lines,
            assistant_prefix(first),
            assistant_prefix(false),
            false,
            columns_of(width),
            lines.len(),
        ),
        KindView::Reasoning { lines, first, raw } => message_rows(
            lines,
            reasoning_prefix(first),
            reasoning_prefix(false),
            true,
            columns_of(width),
            lines.len(),
        ),
        KindView::Plain { lines, hang } => plain_hanging_rows(
            lines,
            columns_of(width),
            hang as nat,
        ),
        KindView::Patch { change } => diff_summary(config, change, width),
        KindView::TodoList { todos } => todo_rows(todos, columns_of(width)),
        KindView::Group(group) => group_rows(group, columns_of(width), None),
    }
}

/// The columns of a pane, one at the least.
pub fn pane_columns(width: u16) -> (r: usize)
    ensures
        r == columns_of(width),
        1 <= r <= u16::MAX,
{
    if width > 0 {
        width as usize
    } else {
        1
    }
}

/// Draws the lines of an assistant message.
pub fn render_assistant_lines(lines: &Vec<Line>, is_first_line: bool, width: u16) -> (r: Vec<Line>)
    ensures
        line_views(r@) == message_rows(
            line_views(lines@),
            assistant_prefix(is_first_line),
            assistant_prefix(false),
            false,
            columns_of(width),
            lines@.len(),
        ),
{
    let first: Span = if is_first_line {
        Span::styled("• ", Style::new().fg(Color::Green).bold())
    } else {
        Span::styled("  ", Style::new().fg(Color::Green))
    };
    let rest: Span = Span::styled("  ", Style::new().fg(Color::Green));
    wrap_markdown_lines(lines, &first, &rest, false, pane_columns(width))
}

/// Draws the lines of a reasoning message.
pub fn render_reasoning_lines(lines: &Vec<Line>, is_first_line: bool, width: u16) -> (r: Vec<Line>)
    ensures
        line_views(r@) == message_rows(
            line_views(lines@),
            reasoning_prefix(is_first_line),
            reasoning_prefix(false),
            true,
            columns_of(width),
            lines@.len(),
        ),
{
    let first: Span = if is_first_line {
        Span::styled("… ", Style::new().fg(Color::Magenta).dim().bold())
    } else {
        Span::styled("  ", Style::new().fg(Color::Magenta).dim())
    };
    let rest: Span = Span::styled("  ", Style::new().fg(Color::Magenta).dim());
    wrap_markdown_lines(lines, &first, &rest, true, pane_columns(width))
}

fn render_plain(lines: &Vec<Line>, width: usize, hang: usize) -> (r: Vec<Line>)
    ensures
        line_views(r@) == plain_hanging_rows(line_views(lines@), width as nat, hang as nat),
{
    let ghost views = line_views(lines@);
    let mut out: Vec<Line> = new_lines();
    let mut i: usize = 0;
    while i < lines.len()
        invariant
            views == line_views(lines@),
            i <= lines@.len(),
            line_views(out@) == plain_hanging_rows(
                views.take(i as int),
                width as nat,
                hang as nat,
            ),
        decreases lines@.len() - i,
    {
        proof {
            assert(views.take(i + 1).drop_last() =~= views.take(i as int));
            assert(views.take(i + 1).last() == lines@[i as int]@);
        }
        append_lines(&mut out, wrap_line_hanging(&lines[i], width, hang));
        i += 1;
    }
    assert(views.take(i as int) =~= views);
    out
}

impl TranscriptItem {
    /// The rows that show the item at `width` columns.
    pub fn display_lines(&self, ctx: &RenderContext, width: u16) -> (r: Vec<Line>)
        ensures
            line_views(r@) == item_rows(ctx.config@, self@.kind, width),
    {
        match &self.kind {
            TranscriptItemKind::User { message } => render_user_message(message.as_str(), width),
            TranscriptItemKind::Assistant { lines, is_first_line, raw } => render_assistant_lines(
                lines,
                *is_first_line,
                width,
            ),
            TranscriptItemKind::Reasoning { lines, is_first_line, raw } => render_reasoning_lines(
                lines,
                *is_first_line,
                width,
            ),
            TranscriptItemKind::Plain { lines, hang_indent } => render_plain(
                lines,
                pane_columns(width),
                *hang_indent,
            ),
            TranscriptItemKind::Patch { file_change } => create_diff_summary(
                ctx,
                file_change,
                width,
            ),
            TranscriptItemKind::TodoList { todos } => render_todo_list(todos, pane_columns(width)),
            TranscriptItemKind::ToolCallGroup(cell) => cell.display_lines(pane_columns(width)),
        }
    }
}

// ---------------------------------------------------------------------------
// Copying items
// ---------------------------------------------------------------------------

/// The text of every line.
pub open spec fn lines_text(lines: Seq<LineView>) -> Seq<Seq<char>> {
    lines.map_values(|l: LineView| line_text(l))
}

pub open spec fn flattened(lines: Seq<LineView>) -> Seq<char> {
    join(lines_text(lines), "\n"@)
}

/// Flatten rendered lines to plain text: spans concatenated per line, lines
/// joined with newlines.
fn flatten_lines(lines: &Vec<Line>) -> (r: String)
    ensures
        r@ == flattened(line_views(lines@)),
{
    let ghost views = lines_text(line_views(lines@));
    let mut parts: Vec<String> = Vec::new();
    let mut i: usize = 0;
    while i < lines.len()
        invariant
            views == lines_text(line_views(lines@)),
            i <= lines@.len(),
            texts(parts@) =~= views.take(i as int),
        decreases lines@.len() - i,
    {
        let ghost before = texts(parts@);
        let text: String = text_of_line(&lines[i]);
        let ghost added = text@;
        parts.push(text);
        proof {
            assert(line_views(lines@)[i as int] == lines@[i as int]@);
            assert(texts(parts@) =~= before.push(added));
        }
        i += 1;
    }
    assert(views.take(i as int) =~= views);
    join_texts(&parts, "\n")
}

pub open spec fn operation_name(operation: FileChangeOperation) -> Seq<char> {
    match operation {
        FileChangeOperation::Add => "Add"@,
        FileChangeOperation::Delete => "Delete"@,
        FileChangeOperation::Update => "Update"@,
    }
}

/// What is copied of a file change.
pub open spec fn change_text(change: FileChangeOutput) -> Seq<char> {
    match change.change {
        FileChange::Add { content } => "add "@ + change.path@ + "\n"@ + content@,
        FileChange::Delete { content } => "delete "@ + change.path@ + "\n"@ + content@,
        FileChange::Update { unified_diff, move_path } => match move_path {
            Some(to) => "rename to "@ + to@ + "\n"@ + unified_diff@,
            None => unified_diff@,
        },
        FileChange::Omitted { operation, reason, added, removed, bytes } => operation_name(
            operation,
        ) + " "@ + change.path@ + ": omitted ("@ + reason@ + ", +"@ + numeral(added as nat) + "/-"@
            + numeral(removed as nat) + ", "@ + numeral(bytes as nat) + " bytes)"@,
    }
}

fn copy_change(change: &FileChangeOutput) -> (r: String)
    ensures
        r@ == change_text(*change),
{
    match &change.change {
        FileChange::Add { content } => {
            let mut out: String = owned("add ");
            out.push_str(change.path.as_str());
            out.push_str("\n");
            out.push_str(content.as_str());
            out
        },
        FileChange::Delete { content } => {
            let mut out: String = owned("delete ");
            out.push_str(change.path.as_str());
            out.push_str("\n");
            out.push_str(content.as_str());
            out
        },
        FileChange::Update { unified_diff, move_path } => match move_path {
            Some(to) => {
                let mut out: String = owned("rename to ");
                out.push_str(to.as_str());
                out.push_str("\n");
                out.push_str(unified_diff.as_str());
                out
            },
            None => unified_diff.clone(),
        },
        FileChange::Omitted { operation, reason, added, removed, bytes } => {
            let mut out: String = match operation {
                FileChangeOperation::Add => owned("Add"),
                FileChangeOperation::Delete => owned("Delete"),
                FileChangeOperation::Update => owned("Update"),
            };
            out.push_str(" ");
            out.push_str(change.path.as_str());
            out.push_str(": omitted (");
            out.push_str(reason.as_str());
            out.push_str(", +");
            let added_text: String = decimal(*added as u128);
            out.push_str(added_text.as_str());
            out.push_str("/-");
            let removed_text: String = decimal(*removed as u128);
            out.push_str(removed_text.as_str());
            out.push_str(", ");
            let bytes_text: String = decimal(*bytes as u128);
            out.push_str(bytes_text.as_str());
            out.push_str(" bytes)");
            out
        },
    }
}

pub open spec fn todo_text(todo: TodoItem) -> Seq<char> {
    match todo.status {
        TodoStatus::Pending => "- [ ] "@ + todo.content@,
        TodoStatus::InProgress => "- [~] "@ + todo.content@,
        TodoStatus::Completed => "- [x] "@ + todo.content@,
    }
}

pub open spec fn todo_texts(todos: Seq<TodoItem>) -> Seq<Seq<char>> {
    todos.map_values(|t: TodoItem| todo_text(t))
}

fn copy_todos(todos: &Vec<TodoItem>) -> (r: String)
    ensures
        r@ == join(todo_texts(todos@), "\n"@),
{
    let ghost views = todo_texts(todos@);
    let mut parts: Vec<String> = Vec::new();
    let mut i: usize = 0;
    while i < todos.len()
        invariant
            views == todo_texts(todos@),
            i <= todos@.len(),
            texts(parts@) =~= views.take(i as int),
        decreases todos@.len() - i,
    {
        let ghost before = texts(parts@);
        let mut text: String = match todos[i].status {
            TodoStatus::Pending => owned("- [ ] "),
            TodoStatus::InProgress => owned("- [~] "),
            TodoStatus::Completed => owned("- [x] "),
        };
        text.push_str(todos[i].content.as_str());
        let ghost added = text@;
        parts.push(text);
        assert(texts(parts@) =~= before.push(added));
        i += 1;
    }
    assert(views.take(i as int) =~= views);
    join_texts(&parts, "\n")
}

/// The real content of an item, for copying.
pub open spec fn item_text(kind: KindView) -> Option<Seq<char>> {
    match kind {
        KindView::User { message } => Some(message),
        KindView::Assistant { lines, first, raw } => Some(
            if raw.len() == 0 {
                flattened(lines)
            } else {
                raw
            },
        ),
        KindView::Reasoning { lines, first, raw } => Some(
            if raw.len() == 0 {
                flattened(lines)
            } else {
                raw
            },
        ),
        KindView::Plain { lines, hang } => Some(flattened(lines)),
        KindView::Patch { change } => Some(change_text(change)),
        KindView::TodoList { todos } => Some(join(todo_texts(todos), "\n"@)),
        KindView::Group(group) => group.result(),
    }
}

impl TranscriptItem {
    /// The real (unrendered) content of this row for copying to the clipboard.
    /// Tool groups yield their result; the args variant is reached separately
    /// through [`ToolCallGroupCell::copy_args`].
    pub fn copy_text(&self) -> (r: Option<String>)
        ensures
            opt_text(r) == item_text(self@.kind),
    {
        match &self.kind {
            TranscriptItemKind::User { message } => Some(message.clone()),
            TranscriptItemKind::Assistant { lines, is_first_line, raw } => {
                if raw.as_str().is_empty() {
                    Some(flatten_lines(lines))
                } else {
                    Some(raw.clone())
                }
            },
            TranscriptItemKind::Reasoning { lines, is_first_line, raw } => {
                if raw.as_str().is_empty() {
                    Some(flatten_lines(lines))
                } else {
                    Some(raw.clone())
                }
            },
            TranscriptItemKind::Plain { lines, hang_indent } => Some(flatten_lines(lines)),
            TranscriptItemKind::Patch { file_change } => Some(copy_change(file_change)),
            TranscriptItemKind::TodoList { todos } => Some(copy_todos(todos)),
            TranscriptItemKind::ToolCallGroup(cell) => cell.copy_result(),
        }
    }
}

// ---------------------------------------------------------------------------
// Laws
// ---------------------------------------------------------------------------

/// Marking a row as selected changes no text, so a marked batch takes the same
/// rows as an unmarked one.
pub proof fn selection_keeps_rows(group: GroupView, width: nat, selected: Option<usize>, n: nat)
    requires
        n <= group.entries.len(),
    ensures
        batch_rows(group, width, selected, n).len() == batch_rows(group, width, None, n).len(),
        forall|i: int|
            0 <= i < batch_rows(group, width, None, n).len() ==> (#[trigger] batch_rows(
                group,
                width,
                selected,
                n,
            )[i]).spans == batch_rows(group, width, None, n)[i].spans,
    decreases n,
{
    if n > 0 {
        selection_keeps_rows(group, width, selected, (n - 1) as nat);
    }
}

/// Adding a call appends its arguments after a blank line, and changes neither
/// the tool nor what there is to copy of the outcomes.
pub proof fn added_calls_append_arguments(group: GroupView, args: Seq<char>)
    requires
        group.wf(),
    ensures
        group.with_entry(args).wf(),
        group.with_entry(args).name == group.name,
        group.with_entry(args).entries.len() == group.entries.len() + 1,
        group.with_entry(args).args() == group.args() + "\n\n"@ + args,
        group.with_entry(args).result() == group.result(),
{
    let after = group.with_entry(args);
    assert(after.entries.drop_last() =~= group.entries);
    assert(entry_args(after.entries).drop_last() =~= entry_args(group.entries));
    assert(entry_args(after.entries).last() == args);
}

/// A call that runs has nothing to copy, whatever output it has stored.
pub proof fn running_calls_have_no_result(group: GroupView, i: int, output: Seq<char>)
    requires
        0 <= i < group.entries.len(),
        group.entries[i].state == ToolCallState::Running,
    ensures
        entry_result(group.entries[i]) is None,
        group.with_output(i, output).result() == group.result(),
{
    lemma_running_output(group.entries, i, output);
}

proof fn lemma_running_output(entries: Seq<EntryView>, i: int, output: Seq<char>)
    requires
        0 <= i < entries.len(),
        entries[i].state == ToolCallState::Running,
    ensures
        entry_results(entries.update(i, EntryView { output: Some(output), ..entries[i] }))
            == entry_results(entries),
    decreases entries.len(),
{
    let entry = EntryView { output: Some(output), ..entries[i] };
    let after = entries.update(i, entry);
    if i == entries.len() - 1 {
        assert(after.drop_last() =~= entries.drop_last());
    } else {
        lemma_running_output(entries.drop_last(), i, output);
        assert(after.drop_last() =~= entries.drop_last().update(i, entry));
    }
}

/// A user message always shows a rule above and below its text.
pub proof fn user_message_is_framed(message: Seq<char>, width: u16)
    ensures
        user_rows(message, width).len() >= 2,
        user_rows(message, width)[0] == rule_line(width),
        user_rows(message, width).last() == rule_line(width),
        forall|i: int|
            0 < i < user_rows(message, width).len() - 1 ==> (#[trigger] user_rows(
                message,
                width,
            )[i]).spans[0] == gutter_span(),
{
}

/// The glyph of a call tells how it stands: it runs, it went well, or it
/// failed.
pub proof fn glyphs_tell_the_state()
    ensures
        glyph_of(ToolCallState::Running).content == "⠋ "@,
        glyph_of(ToolCallState::Running).style.fg == Some(Color::Yellow),
        glyph_of(ToolCallState::Success).content == "✓ "@,
        glyph_of(ToolCallState::Success).style.fg == Some(Color::Green),
        glyph_of(ToolCallState::Failure).content == "✗ "@,
        glyph_of(ToolCallState::Failure).style.fg == Some(Color::Red),
        glyph_of(ToolCallState::Running).style.add_modifier.bold,
        glyph_of(ToolCallState::Success).style.add_modifier.bold,
        glyph_of(ToolCallState::Failure).style.add_modifier.bold,
{
}

/// A single call shows its glyph, its tool and its arguments on one line that
/// is broken at the edge; the error follows where it failed, and a note where
/// it started a subagent.
pub proof fn single_calls_show_everything(group: GroupView, width: nat)
    requires
        group.entries.len() == 1,
    ensures
        ({
            let call = group.entries[0];
            let rows = group_rows(group, width, None);
            let glyph = glyph_of(call.state);
            let spans = if call.args.len() > 0 {
                seq![
                    glyph,
                    raw_of(group.name),
                    raw_of(" "@),
                    span_of(call.args, plain().with_dim()),
                ]
            } else {
                seq![glyph, raw_of(group.name)]
            };
            let column = unicode_text_width(glyph.content) + unicode_text_width(group.name) + if call.args.len()
                > 0 {
                1int
            } else {
                0
            };
            let head = char_wrapped(line_of(spans), width, capped(column as nat) as nat);
            let failed = call.state == ToolCallState::Failure && call.error is Some;
            let error = if failed {
                char_wrapped(
                    line_of(
                        seq![
                            raw_of("      "@),
                            span_of("! "@, fg_style(Color::Red).with_bold()),
                            span_of(call.error->0, fg_style(Color::Red).with_dim()),
                        ],
                    ),
                    width,
                    capped((unicode_text_width("      "@) + 2) as nat) as nat,
                )
            } else {
                Seq::empty()
            };
            let note = if call.related is Some {
                char_wrapped(
                    line_of(
                        seq![
                            raw_of("      "@),
                            span_of("↳ subagent"@, fg_style(Color::Cyan).with_dim()),
                        ],
                    ),
                    width,
                    capped((unicode_text_width("      "@) + 2) as nat) as nat,
                )
            } else {
                Seq::empty()
            };
            rows =~= head + error + note
        }),
{
    let call = group.entries[0];
    let glyph = glyph_of(call.state);
    let spans = call_spans(Seq::empty(), call.state, Some(group.name), call.args);
    if call.args.len() > 0 {
        assert(spans =~= seq![
            glyph,
            raw_of(group.name),
            raw_of(" "@),
            span_of(call.args, plain().with_dim()),
        ]);
    } else {
        assert(spans =~= seq![glyph, raw_of(group.name)]);
    }
}

/// The rows of a call of a batch, as they show below the heading: its number,
/// its glyph and its arguments, then its error and its subagent.
pub proof fn batched_calls_are_numbered(group: GroupView, i: nat, width: nat)
    requires
        i < group.entries.len(),
    ensures
        ({
            let call = group.entries[i as int];
            let rows = batch_entry_rows(group, i, width);
            let number = "   "@ + numeral(i + 1) + ". "@;
            let spans = if call.args.len() > 0 {
                seq![
                    raw_of(number),
                    glyph_of(call.state),
                    span_of(call.args, plain().with_dim()),
                ]
            } else {
                seq![raw_of(number), glyph_of(call.state)]
            };
            let column = unicode_text_width(number) + unicode_text_width(
                glyph_of(call.state).content,
            );
            let head = char_wrapped(line_of(spans), width, capped(column as nat) as nat);
            let quiet = call.related is None && !(call.state == ToolCallState::Failure
                && call.error is Some);
            &&& rows.len() >= head.len()
            &&& rows.take(head.len() as int) =~= head
            &&& quiet ==> rows =~= head
        }),
{
    let call = group.entries[i as int];
    let number = entry_prefix(i);
    reveal_strlit("   ");
    assert(number.len() > 0);
    let spans = call_spans(number, call.state, None, call.args);
    if call.args.len() > 0 {
        assert(spans =~= seq![
            raw_of(number),
            glyph_of(call.state),
            span_of(call.args, plain().with_dim()),
        ]);
    } else {
        assert(spans =~= seq![raw_of(number), glyph_of(call.state)]);
    }
}

/// A batch shows its tool once, under the glyph of the worst of its calls, and
/// then every call in order.
pub proof fn batches_show_every_call(group: GroupView, width: nat, n: nat)
    requires
        group.entries.len() > 1,
        n < group.entries.len(),
    ensures
        ({
            let rows = group_rows(group, width, None);
            let name = seq![glyph_of(group.state()), raw_of(group.name)];
            let column = unicode_text_width(glyph_of(group.state()).content) + unicode_text_width(
                group.name,
            );
            &&& batch_rows(group, width, None, 0) =~= char_wrapped(
                line_of(name),
                width,
                capped(column as nat) as nat,
            )
            &&& batch_rows(group, width, None, n + 1) =~= batch_rows(group, width, None, n)
                + batch_entry_rows(group, n, width)
            &&& rows == batch_rows(group, width, None, group.entries.len())
        }),
{
    let spans = call_spans(Seq::empty(), group.state(), Some(group.name), Seq::empty());
    assert(spans =~= seq![glyph_of(group.state()), raw_of(group.name)]);
}

/// A batch failed if any of its calls did; otherwise it runs while any call
/// does; otherwise it went well.
pub proof fn batches_are_as_their_worst_call(group: GroupView, i: int)
    requires
        0 <= i < group.entries.len(),
    ensures
        group.entries[i].state == ToolCallState::Failure ==> group.state()
            == ToolCallState::Failure,
        group.entries[i].state == ToolCallState::Running ==> group.state()
            != ToolCallState::Success,
        group.state() == ToolCallState::Success ==> group.entries[i].state
            == ToolCallState::Success,
        (forall|j: int|
            0 <= j < group.entries.len() ==> (#[trigger] group.entries[j]).state
                == ToolCallState::Success) ==> group.state() == ToolCallState::Success,
        (forall|j: int|
            0 <= j < group.entries.len() ==> (#[trigger] group.entries[j]).state
                != ToolCallState::Failure) ==> group.state() != ToolCallState::Failure,
{
}

/// What a call gives to copy: its output once it has ended, else its error.
pub proof fn outcomes_are_output_or_error(entry: EntryView)
    ensures
        entry.state == ToolCallState::Running ==> entry_result(entry) is None,
        entry.state != ToolCallState::Running && entry.output is Some ==> entry_result(entry)
            == entry.output,
        entry.state != ToolCallState::Running && entry.output is None && entry.error is Some
            ==> entry_result(entry) == Some("error: "@ + entry.error->0),
        entry.output is None && entry.error is None ==> entry_result(entry) is None,
{
}

/// The outcome of a group is that of its calls, with a blank line between two.
pub proof fn group_outcomes_are_joined(group: GroupView, entry: EntryView)
    ensures
        ({
            let longer = GroupView { entries: group.entries.push(entry), ..group };
            let own = entry_result(entry);
            &&& own is None ==> longer.result() == group.result()
            &&& own is Some && group.result() is None ==> longer.result() == own
            &&& own is Some && group.result() is Some ==> longer.result() == Some(
                group.result()->0 + "\n\n"@ + own->0,
            )
        }),
{
    let longer = group.entries.push(entry);
    assert(longer.drop_last() =~= group.entries);
    if entry_result(entry) is Some {
        let before = entry_results(group.entries);
        let after = entry_results(longer);
        assert(after =~= before.push(entry_result(entry)->0));
        assert(after.drop_last() =~= before);
    }
}

/// A notice shows behind a yellow `i`, an error behind a red `!`, and both in
/// their own words.
pub proof fn notices_show_their_words(message: Seq<char>)
    ensures
        ({
            let info = info_kind(message);
            let error = error_kind(message);
            &&& info matches KindView::Plain { lines, hang } && lines.len() == 1 && hang == 2
                && lines[0].spans =~= seq![
                span_of("i "@, fg_style(Color::Yellow).with_bold()),
                span_of(message, plain().with_dim()),
            ]
            &&& error matches KindView::Plain { lines, hang } && lines.len() == 1 && hang == 2
                && lines[0].spans =~= seq![
                span_of("! "@, fg_style(Color::Red).with_bold()),
                span_of(message, fg_style(Color::Red)),
            ]
        }),
{
}

/// Each answer shows its question and below it what was chosen.
pub proof fn answers_follow_their_question(answers: Seq<AnswerView>, i: int)
    requires
        0 <= i < answers.len(),
    ensures
        ({
            let rows = answer_rows(answers);
            &&& rows.len() == 2 * answers.len()
            &&& rows[2 * i].spans =~= seq![
                span_of("? "@, fg_style(Color::Cyan).with_bold()),
                span_of(answers[i].question, plain().with_dim()),
            ]
            &&& rows[2 * i + 1].spans =~= seq![
                raw_of("  → "@),
                span_of(join(answers[i].selected, ", "@), fg_style(Color::Cyan)),
            ]
        }),
    decreases answers.len(),
{
    let init = answers.drop_last();
    if i < init.len() {
        answers_follow_their_question(init, i);
    } else {
        lemma_two_rows_per_answer(init);
    }
}

proof fn lemma_two_rows_per_answer(answers: Seq<AnswerView>)
    ensures
        answer_rows(answers).len() == 2 * answers.len(),
    decreases answers.len(),
{
    if answers.len() > 0 {
        lemma_two_rows_per_answer(answers.drop_last());
    }
}

/// Joining puts the separator between two texts and nowhere else.
pub proof fn joined_texts_are_separated(parts: Seq<Seq<char>>, part: Seq<char>, sep: Seq<char>)
    ensures
        join(Seq::empty(), sep).len() == 0,
        join(seq![part], sep) == part,
        parts.len() > 0 ==> join(parts.push(part), sep) == join(parts, sep) + sep + part,
{
    assert(parts.push(part).drop_last() =~= parts);
}

/// An entry of a checklist shows whether it is open, in work or done.
pub proof fn todos_show_their_status(todo: TodoItem)
    ensures
        ({
            let line = todo_line(todo);
            &&& line.spans.len() == 2
            &&& line.spans[1].content == todo.content@
            &&& todo.status == TodoStatus::Pending ==> line.spans[0].content == "☐ "@
                && line.spans[1].style == plain().with_dim() && todo_text(todo) == "- [ ] "@
                + todo.content@
            &&& todo.status == TodoStatus::InProgress ==> line.spans[0].content == "◐ "@
                && line.spans[0].style.fg == Some(Color::Cyan) && line.spans[1].style
                == plain().with_bold() && todo_text(todo) == "- [~] "@ + todo.content@
            &&& todo.status == TodoStatus::Completed ==> line.spans[0].content == "☑ "@
                && line.spans[0].style.fg == Some(Color::Green)
                && line.spans[1].style.add_modifier.crossed_out && todo_text(todo) == "- [x] "@
                + todo.content@
        }),
{
}

/// A checklist shows its entries in order, each broken between words behind its
/// mark.
pub proof fn todos_show_in_order(todos: Seq<TodoItem>, todo: TodoItem, width: nat)
    ensures
        todo_rows(todos.push(todo), width) == todo_rows(todos, width) + word_wrapped(
            todo_line(todo),
            width,
            2,
        ),
        todo_rows(Seq::empty(), width).len() == 0,
{
    assert(todos.push(todo).drop_last() =~= todos);
}

/// Answers start with a green bullet and reasoning with a dim ellipsis; the
/// lines below are indented as far. Reasoning is dim throughout, and code is
/// broken at the edge instead of between words.
pub proof fn messages_start_with_their_mark(lines: Seq<LineView>, width: u16, n: nat)
    requires
        n < lines.len(),
    ensures
        ({
            let w = columns_of(width);
            let bullet = if n == 0 {
                span_of("• "@, fg_style(Color::Green).with_bold())
            } else {
                span_of("  "@, fg_style(Color::Green))
            };
            let dots = if n == 0 {
                span_of("… "@, fg_style(Color::Magenta).with_dim().with_bold())
            } else {
                span_of("  "@, fg_style(Color::Magenta).with_dim())
            };
            let said = LineView { spans: seq![bullet] + lines[n as int].spans, style: lines[n as int].style };
            let thought = LineView {
                spans: seq![dots] + lines[n as int].spans,
                style: plain().with_dim(),
            };
            let code = lines[n as int].spans.len() > 0 && lines[n as int].style.fg == Some(
                CODE_COLOR,
            );
            &&& message_rows(lines, assistant_prefix(true), assistant_prefix(false), false, w, n + 1)
                =~= message_rows(lines, assistant_prefix(true), assistant_prefix(false), false, w, n)
                + if code {
                char_wrapped(said, w, 0)
            } else {
                word_wrapped(said, w, 0)
            }
            &&& message_rows(lines, reasoning_prefix(true), reasoning_prefix(false), true, w, n + 1)
                =~= message_rows(lines, reasoning_prefix(true), reasoning_prefix(false), true, w, n)
                + if code {
                char_wrapped(thought, w, 0)
            } else {
                word_wrapped(thought, w, 0)
            }
        }),
{
}

/// Each kind of row is drawn as what it is, over the whole width.
pub proof fn rows_are_drawn_by_kind(
    config: ConfigView,
    lines: Seq<LineView>,
    raw: Seq<char>,
    first: bool,
    hang: usize,
    change: FileChangeOutput,
    todos: Seq<TodoItem>,
    group: GroupView,
    message: Seq<char>,
    width: u16,
)
    requires
        width > 0,
    ensures
        item_rows(config, KindView::Assistant { lines, first, raw }, width) == message_rows(
            lines,
            assistant_prefix(first),
            assistant_prefix(false),
            false,
            width as nat,
            lines.len(),
        ),
        item_rows(config, KindView::Reasoning { lines, first, raw }, width) == message_rows(
            lines,
            reasoning_prefix(first),
            reasoning_prefix(false),
            true,
            width as nat,
            lines.len(),
        ),
        item_rows(config, KindView::Patch { change }, width) == diff_summary(config, change, width),
        item_rows(config, KindView::TodoList { todos }, width) == todo_rows(todos, width as nat),
        item_rows(config, KindView::Group(group), width) == group_rows(group, width as nat, None),
        item_rows(config, KindView::User { message }, width) == user_rows(message, width),
        lines.len() == 1 ==> item_rows(config, KindView::Plain { lines, hang }, width)
            =~= word_wrapped(lines[0], width as nat, hang as nat),
{
    reveal_with_fuel(plain_hanging_rows, 2);
}

/// A user message shows its lines between two rules, each behind a blue bar; the
/// rules span the width.
pub proof fn user_messages_show_their_lines(message: Seq<char>, width: u16)
    requires
        width > 0,
    ensures
        ({
            let rows = user_rows(message, width);
            let room = body_room(width);
            let body = if message.len() == 0 {
                all_wrapped(seq![blank_line()], room)
            } else {
                all_wrapped(
                    split_on(message, '\n').map_values(|p: Seq<char>| line_of(seq![raw_of(p)])),
                    room,
                )
            };
            &&& rows.len() == body.len() + 2
            &&& rows[0].spans.len() == 1
            &&& rows[0].spans[0].content =~= Seq::new(width as nat, |i: int| '─')
            &&& rows.last() == rows[0]
            &&& forall|i: int|
                0 <= i < body.len() ==> (#[trigger] rows[i + 1]).spans =~= seq![
                    span_of("▌ "@, fg_style(Color::Blue).with_bold()),
                ] + body[i].spans
        }),
{
}

/// What is copied of a file change: its path and what it is, with its content
/// or its diff.
pub proof fn changes_are_copied_whole(change: FileChangeOutput)
    ensures
        match change.change {
            FileChange::Add { content } => change_text(change) == "add "@ + change.path@ + "\n"@
                + content@,
            FileChange::Delete { content } => change_text(change) == "delete "@ + change.path@
                + "\n"@ + content@,
            FileChange::Update { unified_diff, move_path } => if move_path is Some {
                change_text(change) == "rename to "@ + move_path->0@ + "\n"@ + unified_diff@
            } else {
                change_text(change) == unified_diff@
            },
            FileChange::Omitted { operation, reason, added, removed, bytes } => {
                let name = match operation {
                    FileChangeOperation::Add => "Add"@,
                    FileChangeOperation::Delete => "Delete"@,
                    FileChangeOperation::Update => "Update"@,
                };
                change_text(change) == name + " "@ + change.path@ + ": omitted ("@ + reason@
                    + ", +"@ + numeral(added as nat) + "/-"@ + numeral(removed as nat) + ", "@
                    + numeral(bytes as nat) + " bytes)"@
            },
        },
{
}

/// A row that changes takes a new version, and keeps its number.
pub proof fn changed_rows_take_a_new_version(item: ItemView)
    ensures
        item.mutated().id == item.id,
        item.mutated().kind == item.kind,
        item.version < u64::MAX ==> item.mutated().version == item.version + 1,
{
}

/// The rows of a call of a batch stand where they are said to: behind the heading
/// and the calls in front of it.
pub proof fn calls_stand_at_their_place(group: GroupView, width: nat, i: nat, n: nat)
    requires
        i < n <= group.entries.len(),
        group.entries.len() > 1,
        batch_rows(group, width, None, i).len() <= usize::MAX,
        batch_entry_rows(group, i, width).len() <= usize::MAX,
    ensures
        ({
            let rows = batch_rows(group, width, None, n);
            let own = batch_entry_rows(group, i, width);
            &&& entry_extent(group, width, i) is Some
            &&& ({
                let (first, count) = entry_extent(group, width, i)->0;
                &&& count == own.len()
                &&& first + count <= rows.len()
                &&& rows.subrange(first as int, first + count) =~= own
            })
        }),
    decreases n,
{
    let before = batch_rows(group, width, None, (n - 1) as nat);
    if i < n - 1 {
        calls_stand_at_their_place(group, width, i, (n - 1) as nat);
        let (first, count) = entry_extent(group, width, i)->0;
        assert(batch_rows(group, width, None, n).subrange(first as int, first + count)
            =~= before.subrange(first as int, first + count));
    } else {
        let own = batch_entry_rows(group, i, width);
        assert(batch_rows(group, width, None, n) =~= before + own);
    }
}

/// The selected call of a batch stands on a grey ground, and no other does.
pub proof fn selected_calls_stand_out(group: GroupView, width: nat, selected: usize, n: nat)
    requires
        n < group.entries.len() <= usize::MAX,
    ensures
        ({
            let before = batch_rows(group, width, Some(selected), n);
            let after = batch_rows(group, width, Some(selected), n + 1);
            let own = batch_entry_rows(group, n, width);
            &&& after.len() == before.len() + own.len()
            &&& forall|i: int| 0 <= i < before.len() ==> #[trigger] after[i] == before[i]
            &&& n != selected ==> forall|i: int|
                0 <= i < own.len() ==> #[trigger] after[before.len() + i] == own[i]
            &&& n == selected ==> forall|i: int|
                0 <= i < own.len() ==> (#[trigger] after[before.len() + i]).spans == own[i].spans
                    && after[before.len() + i].style.bg == Some(Color::DarkGray)
        }),
{
}

/// A notice is copied as it shows, and a checklist entry by entry.
pub proof fn notices_are_copied_as_shown(message: Seq<char>, todos: Seq<TodoItem>, todo: TodoItem)
    ensures
        item_text(info_kind(message)) == Some("i "@ + message),
        item_text(error_kind(message)) == Some("! "@ + message),
        todos.len() == 0 ==> item_text(KindView::TodoList { todos: todos.push(todo) }) == Some(
            todo_text(todo),
        ),
        todos.len() > 0 ==> item_text(KindView::TodoList { todos: todos.push(todo) }) == Some(
            item_text(KindView::TodoList { todos })->0 + "\n"@ + todo_text(todo),
        ),
{
    let info = marked_line(
        "i "@,
        fg_style(Color::Yellow).with_bold(),
        message,
        plain().with_dim(),
    );
    let error = marked_line(
        "! "@,
        fg_style(Color::Red).with_bold(),
        message,
        fg_style(Color::Red),
    );
    lemma_marked_text(info, "i "@, message);
    lemma_marked_text(error, "! "@, message);
    assert(lines_text(seq![info]) =~= seq!["i "@ + message]);
    assert(lines_text(seq![error]) =~= seq!["! "@ + message]);
    let all = todo_texts(todos.push(todo));
    assert(all.drop_last() =~= todo_texts(todos));
    assert(all.last() == todo_text(todo));
}

proof fn lemma_marked_text(line: LineView, mark: Seq<char>, message: Seq<char>)
    requires
        line.spans.len() == 2,
        line.spans[0].content == mark,
        line.spans[1].content == message,
    ensures
        line_text(line) == mark + message,
{
    let one = line.spans.drop_last();
    assert(one.drop_last() =~= Seq::<SpanView>::empty());
    assert(crate::style::spans_text(one.drop_last()) =~= Seq::<char>::empty());
    assert(crate::style::spans_text(one) =~= mark);
}

} // verus!
