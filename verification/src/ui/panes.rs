//! What each pane shows.
use vstd::prelude::*;
use crate::composer::{position_in, row_chars, rows_of, rows_view, ComposerVisualRow, RowView};
use crate::diff_render::{columns_of, file_change_path_label, path_label};
use crate::frame::{
    draw_cursor, draw_lines, draw_views, new_ops, shown, window, DrawOp, DrawView, Rect,
};
use crate::history_cell::pane_columns;
use crate::protocol::{FileChangeOutput, ThreadListItem};
use crate::style::{
    append_lines, blank_line, fg_style, line_of, line_views, new_lines, no_lines, plain, push_line,
    push_span, raw_line, raw_of, span_of, span_views, Color, Line, LineView, Span, SpanView, Style,
};
use crate::subagent_preview::more;
use crate::transcript::Mark;
use crate::ui::scroll::sessions_shown;
use crate::ui::{DashboardView, ModelView, RunningToolInfo, UiMode, UiModel};
use crate::width::unicode_text_width;
use crate::wrap::{display_width, truncate_display, truncated, word_wrapped, wrap_line_hanging};

verus! {

// ---------------------------------------------------------------------------
// Dashboard
// ---------------------------------------------------------------------------

pub open spec fn dashboard_title() -> LineView {
    line_of(
        seq![
            span_of("cazean"@, fg_style(Color::Cyan).with_bold()),
            raw_of("  "@),
            span_of("sessions"@, plain().with_dim()),
        ],
    )
}

pub open spec fn dashboard_hint() -> LineView {
    line_of(
        seq![
            span_of(
                "n new  Enter resume  j/k move  PgUp/PgDn scroll  : command  Ctrl-C quit"@,
                fg_style(Color::DarkGray),
            ),
        ],
    )
}

pub open spec fn loading_line() -> LineView {
    line_of(seq![span_of("Loading recent sessions..."@, plain().with_dim())])
}

pub open spec fn error_lines(error: Seq<char>, width: nat) -> Seq<LineView> {
    word_wrapped(
        line_of(
            seq![
                span_of("! "@, fg_style(Color::Red).with_bold()),
                span_of(error, fg_style(Color::Red)),
            ],
        ),
        width,
        2,
    )
}

/// What stands for a session: the last message of its user, else that of the
/// assistant.
pub open spec fn session_preview(item: ThreadListItem) -> Seq<char> {
    match item.last_user_message {
        Some(text) => text@,
        None => match item.last_assistant_message {
            Some(text) => text@,
            None => "(no messages)"@,
        },
    }
}

pub open spec fn session_prefix(selected: bool) -> Seq<char> {
    if selected {
        "› "@
    } else {
        "  "@
    }
}

pub open spec fn session_style(selected: bool) -> Style {
    if selected {
        fg_style(Color::Cyan).with_bold()
    } else {
        plain()
    }
}

/// The columns left for the preview of a session.
pub open spec fn preview_room(item: ThreadListItem, selected: bool, width: nat) -> nat {
    let used = unicode_text_width(session_prefix(selected)) + unicode_text_width(item.updated_at@)
        + 2;
    if used <= width {
        (width - used) as nat
    } else {
        0
    }
}

/// The two rows of a session.
pub open spec fn session_lines(item: ThreadListItem, selected: bool, width: nat) -> Seq<LineView> {
    seq![
        line_of(
            seq![
                span_of(session_prefix(selected), session_style(selected)),
                span_of(item.updated_at@, fg_style(Color::Yellow)),
                raw_of("  "@),
                span_of(
                    truncated(session_preview(item), preview_room(item, selected, width)),
                    session_style(selected),
                ),
            ],
        ),
        line_of(
            seq![
                raw_of("    "@),
                span_of(item.thread_id.text@, fg_style(Color::DarkGray)),
            ],
        ),
    ]
}

impl DashboardView {
    /// The rows of the sessions from `from` up to `to`.
    pub open spec fn session_rows(self, from: nat, to: nat, width: nat) -> Seq<LineView>
        decreases to,
    {
        if to <= from {
            no_lines()
        } else {
            self.session_rows(from, (to - 1) as nat, width) + session_lines(
                self.items[to - 1],
                to - 1 == self.selected,
                width,
            )
        }
    }

    /// The first session on screen.
    pub open spec fn first_shown(self, height: u16) -> nat {
        let farthest = self.farthest(sessions_shown(height));
        if self.scroll_offset < farthest {
            self.scroll_offset as nat
        } else {
            farthest
        }
    }

    /// The session after the last one on screen.
    pub open spec fn end_shown(self, height: u16) -> nat {
        let end = self.first_shown(height) + sessions_shown(height);
        if end < self.items.len() {
            end
        } else {
            self.items.len()
        }
    }

    pub open spec fn body(self, area: Rect) -> Seq<LineView> {
        if self.loading {
            seq![loading_line()]
        } else {
            match self.error {
                Some(error) => error_lines(error, columns_of(area.width)),
                None => if self.items.len() == 0 {
                    seq![line_of(seq![raw_of("No saved sessions."@)])]
                } else {
                    self.session_rows(
                        self.first_shown(area.height),
                        self.end_shown(area.height),
                        columns_of(area.width),
                    )
                },
            }
        }
    }

    pub open spec fn lines(self, area: Rect) -> Seq<LineView> {
        seq![dashboard_title(), blank_line()] + self.body(area) + seq![
            blank_line(),
            dashboard_hint(),
        ]
    }
}

/// Appends the two rows of a session. Each stays two rows tall: the preview is
/// cut to the space left after the selection prefix, date and gap, so that it
/// never wraps and breaks the scrolling of the dashboard.
fn push_session(lines: &mut Vec<Line>, item: &ThreadListItem, selected: bool, width: usize)
    ensures
        line_views(final(lines)@) == line_views(old(lines)@) + session_lines(
            *item,
            selected,
            width as nat,
        ),
{
    let ghost before = line_views(lines@);
    let prefix: &str = if selected {
        "› "
    } else {
        "  "
    };
    let style: Style = if selected {
        Style::new().fg(Color::Cyan).bold()
    } else {
        Style::new()
    };
    let preview: &str = match &item.last_user_message {
        Some(text) => text.as_str(),
        None => match &item.last_assistant_message {
            Some(text) => text.as_str(),
            None => "(no messages)",
        },
    };
    let used: usize = display_width(prefix).saturating_add(
        display_width(item.updated_at.as_str()),
    ).saturating_add(2);
    let room: usize = width.saturating_sub(used);
    let cut: String = truncate_display(preview, room);
    push_line(
        lines,
        Line::of_four(
            Span::styled(prefix, style),
            Span::styled(item.updated_at.as_str(), Style::new().fg(Color::Yellow)),
            Span::raw("  "),
            Span::styled(cut.as_str(), style),
        ),
    );
    push_line(
        lines,
        Line::of_two(
            Span::raw("    "),
            Span::styled(item.thread_id.text.as_str(), Style::new().fg(Color::DarkGray)),
        ),
    );
    proof {
        assert(room == preview_room(*item, selected, width as nat));
        assert(line_views(lines@) =~= before + session_lines(*item, selected, width as nat));
    }
}

impl UiModel {
    fn dashboard_body(&self, area: Rect) -> (r: Vec<Line>)
        ensures
            line_views(r@) == self@.dashboard.body(area),
    {
        let width: usize = pane_columns(area.width);
        let mut lines: Vec<Line> = new_lines();
        if self.dashboard.loading {
            push_line(
                &mut lines,
                Line::from_span(Span::styled("Loading recent sessions...", Style::new().dim())),
            );
            assert(line_views(lines@) =~= seq![loading_line()]);
            return lines;
        }
        match &self.dashboard.error {
            Some(error) => {
                return wrap_line_hanging(
                    &Line::of_two(
                        Span::styled("! ", Style::new().fg(Color::Red).bold()),
                        Span::styled(error.as_str(), Style::new().fg(Color::Red)),
                    ),
                    width,
                    2,
                );
            },
            None => {},
        }
        if self.dashboard.items.len() == 0 {
            push_line(&mut lines, Line::from_span(Span::raw("No saved sessions.")));
            assert(line_views(lines@) =~= seq![line_of(seq![raw_of("No saved sessions."@)])]);
            return lines;
        }
        let visible_count: usize = self.dashboard_visible_item_count(area.height);
        let max_offset: usize = self.dashboard_max_scroll_offset(visible_count);
        let start: usize = if self.dashboard.scroll_offset < max_offset {
            self.dashboard.scroll_offset
        } else {
            max_offset
        };
        let total: usize = self.dashboard.items.len();
        let end: usize = if start.saturating_add(visible_count) < total {
            start.saturating_add(visible_count)
        } else {
            total
        };
        let mut i: usize = start;
        while i < end
            invariant
                start <= i <= end <= self.dashboard.items@.len(),
                width == columns_of(area.width),
                line_views(lines@) == self@.dashboard.session_rows(
                    start as nat,
                    i as nat,
                    width as nat,
                ),
            decreases end - i,
        {
            let selected: bool = i == self.dashboard.selected;
            push_session(&mut lines, &self.dashboard.items[i], selected, width);
            i += 1;
        }
        lines
    }

    /// Draws the list of sessions.
    pub fn render_dashboard_body(&self, area: Rect) -> (r: Vec<DrawOp>)
        ensures
            draw_views(r@) == seq![shown(area, self@.dashboard.lines(area))],
    {
        let mut lines: Vec<Line> = new_lines();
        push_line(
            &mut lines,
            Line::of_three(
                Span::styled("cazean", Style::new().bold().fg(Color::Cyan)),
                Span::raw("  "),
                Span::styled("sessions", Style::new().dim()),
            ),
        );
        push_line(&mut lines, Line::blank());
        let body: Vec<Line> = self.dashboard_body(area);
        append_lines(&mut lines, body);
        push_line(&mut lines, Line::blank());
        push_line(
            &mut lines,
            Line::from_span(
                Span::styled(
                    "n new  Enter resume  j/k move  PgUp/PgDn scroll  : command  Ctrl-C quit",
                    Style::new().fg(Color::DarkGray),
                ),
            ),
        );
        assert(line_views(lines@) =~= self@.dashboard.lines(area));
        let mut ops: Vec<DrawOp> = new_ops();
        draw_lines(&mut ops, area, lines);
        assert(draw_views(ops@) =~= seq![shown(area, self@.dashboard.lines(area))]);
        ops
    }
}

// ---------------------------------------------------------------------------
// Inspector
// ---------------------------------------------------------------------------

/// The name under which a mode is shown.
pub open spec fn mode_text(mode: UiMode) -> Seq<char> {
    match mode {
        UiMode::Normal => "Normal"@,
        UiMode::Insert => "Insert"@,
        UiMode::Command => "Command"@,
        UiMode::Overlay => "Overlay"@,
        UiMode::TranscriptSelect => "TranscriptSelect"@,
    }
}

pub fn mode_name(mode: UiMode) -> (r: &'static str)
    ensures
        r@ == mode_text(mode),
{
    match mode {
        UiMode::Normal => "Normal",
        UiMode::Insert => "Insert",
        UiMode::Command => "Command",
        UiMode::Overlay => "Overlay",
        UiMode::TranscriptSelect => "TranscriptSelect",
    }
}

pub open spec fn label_style() -> Style {
    fg_style(Color::Yellow).with_bold()
}

/// A labelled entry, its continuation rows under the value.
pub open spec fn entry(label: Seq<char>, value: Seq<char>, style: Style, width: nat) -> Seq<
    LineView,
> {
    word_wrapped(
        line_of(seq![span_of(label, label_style()), span_of(value, style)]),
        width,
        unicode_text_width(label) as nat,
    )
}

pub open spec fn agent_entry(plan_mode: bool, width: nat) -> Seq<LineView> {
    word_wrapped(
        line_of(
            seq![
                span_of("Agent "@, label_style()),
                if plan_mode {
                    span_of("PLAN"@, fg_style(Color::Magenta).with_bold())
                } else {
                    span_of("FULL"@, plain().with_dim())
                },
                span_of("  Shift+Tab"@, plain().with_dim()),
            ],
        ),
        width,
        unicode_text_width("Agent "@) as nat,
    )
}

pub open spec fn none_line() -> LineView {
    line_of(seq![span_of("none"@, plain().with_dim())])
}

/// A heading with a blank row above it.
pub open spec fn heading(text: Seq<char>) -> Seq<LineView> {
    seq![blank_line(), line_of(seq![span_of(text, plain().with_bold())])]
}

/// The rows of a tool that runs, continuation rows under its arguments.
pub open spec fn tool_lines(tool: RunningToolInfo, width: nat) -> Seq<LineView> {
    word_wrapped(
        line_of(
            seq![
                span_of("⠋ "@, label_style()),
                raw_of(tool.tool_name@),
                raw_of(" "@),
                span_of(tool.args_preview@, plain().with_dim()),
            ],
        ),
        width,
        (unicode_text_width(tool.tool_name@) + 3) as nat,
    )
}

/// The rows of the first `n` tools.
pub open spec fn tools_lines(tools: Seq<(Seq<char>, RunningToolInfo)>, n: nat, width: nat) -> Seq<
    LineView,
>
    decreases n,
{
    if n == 0 {
        no_lines()
    } else {
        tools_lines(tools, (n - 1) as nat, width) + tool_lines(tools[n - 1].1, width)
    }
}

pub open spec fn change_lines(change: FileChangeOutput, width: nat) -> Seq<LineView> {
    word_wrapped(line_of(seq![raw_of("• "@), raw_of(path_label(change))]), width, 2)
}

/// The rows of the `n` newest changes, newest first.
pub open spec fn changes_lines(changes: Seq<FileChangeOutput>, n: nat, width: nat) -> Seq<LineView>
    decreases n,
{
    if n == 0 {
        no_lines()
    } else {
        changes_lines(changes, (n - 1) as nat, width) + change_lines(
            changes[changes.len() - n],
            width,
        )
    }
}

impl ModelView {
    pub open spec fn turn_text(self) -> Seq<char> {
        match self.turn {
            Some(turn) => turn,
            None => if self.running {
                "running"@
            } else {
                "idle"@
            },
        }
    }

    /// Where the session stands.
    pub open spec fn session_summary(self, width: nat) -> Seq<LineView> {
        seq![
            line_of(seq![span_of("Inspector"@, fg_style(Color::Cyan).with_bold())]),
            blank_line(),
        ] + entry("Turn "@, self.turn_text(), plain(), width) + entry(
            "Editor "@,
            mode_text(self.mode),
            plain(),
            width,
        ) + agent_entry(self.plan_mode, width) + match self.thread {
            Some(thread) => entry("Thread "@, thread, fg_style(Color::DarkGray), width),
            None => no_lines(),
        }
    }

    pub open spec fn tools_summary(self, width: nat) -> Seq<LineView> {
        heading("Running Tools"@) + if self.running_tools.len() == 0 {
            seq![none_line()]
        } else {
            tools_lines(self.running_tools, self.running_tools.len(), width)
        }
    }

    pub open spec fn changes_summary(self, width: nat) -> Seq<LineView> {
        heading("Recent File Changes"@) + if self.recent.len() == 0 {
            seq![none_line()]
        } else {
            changes_lines(
                self.recent,
                if self.recent.len() < 4 {
                    self.recent.len()
                } else {
                    4
                },
                width,
            )
        }
    }

    #[verifier::opaque]
    pub open spec fn inspector_lines(self, width: u16) -> Seq<LineView> {
        self.session_summary(columns_of(width)) + self.tools_summary(columns_of(width))
            + self.changes_summary(columns_of(width))
    }
}

fn push_entry(lines: &mut Vec<Line>, label: &str, value: &str, style: Style, width: usize)
    ensures
        line_views(final(lines)@) == line_views(old(lines)@) + entry(
            label@,
            value@,
            style,
            width as nat,
        ),
{
    let rows: Vec<Line> = wrap_line_hanging(
        &Line::of_two(
            Span::styled(label, Style::new().fg(Color::Yellow).bold()),
            Span::styled(value, style),
        ),
        width,
        display_width(label),
    );
    append_lines(lines, rows);
}

fn push_heading(lines: &mut Vec<Line>, text: &str)
    ensures
        line_views(final(lines)@) == line_views(old(lines)@) + heading(text@),
{
    let ghost before = line_views(lines@);
    push_line(lines, Line::blank());
    push_line(lines, Line::from_span(Span::styled(text, Style::new().bold())));
    assert(line_views(lines@) =~= before + heading(text@));
}

fn push_none(lines: &mut Vec<Line>)
    ensures
        line_views(final(lines)@) == line_views(old(lines)@) + seq![none_line()],
{
    let ghost before = line_views(lines@);
    push_line(lines, Line::from_span(Span::styled("none", Style::new().dim())));
    assert(line_views(lines@) =~= before + seq![none_line()]);
}

fn push_tool(lines: &mut Vec<Line>, tool: &RunningToolInfo, width: usize)
    requires
        0 < width < usize::MAX,
    ensures
        line_views(final(lines)@) == line_views(old(lines)@) + tool_lines(*tool, width as nat),
{
    // Align continuation rows under the args text (glyph + name + space).
    let indent: usize = display_width(tool.tool_name.as_str()).saturating_add(3);
    let rows: Vec<Line> = wrap_line_hanging(
        &Line::of_four(
            Span::styled("⠋ ", Style::new().fg(Color::Yellow).bold()),
            Span::raw(tool.tool_name.as_str()),
            Span::raw(" "),
            Span::styled(tool.args_preview.as_str(), Style::new().dim()),
        ),
        width,
        indent,
    );
    append_lines(lines, rows);
}

impl UiModel {
    fn push_session_summary(&self, lines: &mut Vec<Line>, width: usize)
        ensures
            line_views(final(lines)@) == line_views(old(lines)@) + self@.session_summary(
                width as nat,
            ),
    {
        let ghost before = line_views(lines@);
        push_line(
            lines,
            Line::from_span(Span::styled("Inspector", Style::new().fg(Color::Cyan).bold())),
        );
        push_line(lines, Line::blank());
        let turn: &str = match &self.current_turn_id {
            Some(turn) => turn.as_str(),
            None => if self.is_turn_running {
                "running"
            } else {
                "idle"
            },
        };
        push_entry(lines, "Turn ", turn, Style::new(), width);
        push_entry(lines, "Editor ", mode_name(self.mode), Style::new(), width);
        let agent: Span = if self.plan_mode {
            Span::styled("PLAN", Style::new().fg(Color::Magenta).bold())
        } else {
            Span::styled("FULL", Style::new().dim())
        };
        let rows: Vec<Line> = wrap_line_hanging(
            &Line::of_three(
                Span::styled("Agent ", Style::new().fg(Color::Yellow).bold()),
                agent,
                Span::styled("  Shift+Tab", Style::new().dim()),
            ),
            width,
            display_width("Agent "),
        );
        append_lines(lines, rows);
        match &self.current_thread_id {
            Some(thread) => push_entry(
                lines,
                "Thread ",
                thread.text.as_str(),
                Style::new().fg(Color::DarkGray),
                width,
            ),
            None => {},
        }
        assert(line_views(lines@) =~= before + self@.session_summary(width as nat));
    }

    fn push_tools_summary(&self, lines: &mut Vec<Line>, width: usize)
        requires
            0 < width < usize::MAX,
        ensures
            line_views(final(lines)@) == line_views(old(lines)@) + self@.tools_summary(
                width as nat,
            ),
    {
        let ghost before = line_views(lines@);
        push_heading(lines, "Running Tools");
        let ghost headed = line_views(lines@);
        let tools: usize = self.running_tools.len();
        if tools == 0 {
            push_none(lines);
        } else {
            let mut i: usize = 0;
            assert(line_views(lines@) =~= headed + tools_lines(
                self@.running_tools,
                0,
                width as nat,
            ));
            while i < tools
                invariant
                    0 < width < usize::MAX,
                    i <= tools == self@.running_tools.len(),
                    line_views(lines@) == headed + tools_lines(
                        self@.running_tools,
                        i as nat,
                        width as nat,
                    ),
                decreases tools - i,
            {
                push_tool(lines, self.running_tools.value_at(i), width);
                i += 1;
                assert(line_views(lines@) =~= headed + tools_lines(
                    self@.running_tools,
                    i as nat,
                    width as nat,
                ));
            }
        }
        assert(line_views(lines@) =~= before + self@.tools_summary(width as nat));
    }

    fn push_changes_summary(&self, lines: &mut Vec<Line>, width: usize)
        ensures
            line_views(final(lines)@) == line_views(old(lines)@) + self@.changes_summary(
                width as nat,
            ),
    {
        let ghost before = line_views(lines@);
        push_heading(lines, "Recent File Changes");
        let ghost headed = line_views(lines@);
        let total: usize = self.recent_file_changes.len();
        if total == 0 {
            push_none(lines);
        } else {
            let count: usize = if total < 4 {
                total
            } else {
                4
            };
            let mut i: usize = 0;
            assert(line_views(lines@) =~= headed + changes_lines(self@.recent, 0, width as nat));
            while i < count
                invariant
                    i <= count <= total == self@.recent.len(),
                    line_views(lines@) == headed + changes_lines(
                        self@.recent,
                        i as nat,
                        width as nat,
                    ),
                decreases count - i,
            {
                let change: &FileChangeOutput = &self.recent_file_changes[total - 1 - i];
                let label: String = file_change_path_label(change);
                let rows: Vec<Line> = wrap_line_hanging(
                    &Line::of_two(Span::raw("• "), Span::raw(label.as_str())),
                    width,
                    2,
                );
                append_lines(lines, rows);
                i += 1;
                assert(line_views(lines@) =~= headed + changes_lines(
                    self@.recent,
                    i as nat,
                    width as nat,
                ));
            }
        }
        assert(line_views(lines@) =~= before + self@.changes_summary(width as nat));
    }

    /// Draws the inspector.
    pub fn render_inspector(&self, area: Rect) -> (r: Vec<DrawOp>)
        ensures
            draw_views(r@) == seq![shown(area, self@.inspector_lines(area.width))],
    {
        reveal(ModelView::inspector_lines);
        let width: usize = pane_columns(area.width);
        let mut lines: Vec<Line> = new_lines();
        self.push_session_summary(&mut lines, width);
        self.push_tools_summary(&mut lines, width);
        self.push_changes_summary(&mut lines, width);
        assert(line_views(lines@) =~= self@.inspector_lines(area.width));
        let mut ops: Vec<DrawOp> = new_ops();
        draw_lines(&mut ops, area, lines);
        assert(draw_views(ops@) =~= seq![shown(area, self@.inspector_lines(area.width))]);
        ops
    }
}

// ---------------------------------------------------------------------------
// Status and command
// ---------------------------------------------------------------------------

/// A hint, set apart by two blanks.
pub open spec fn apart(text: Seq<char>, style: Style) -> Seq<SpanView> {
    seq![raw_of("  "@), span_of(text, style)]
}

pub open spec fn select_hint() -> Seq<char> {
    "j/k move  y copy selected tool  yy copy selected args  gg top  G bottom  Enter subagent  Esc exit"@
}

impl ModelView {
    pub open spec fn agent_text(self) -> Seq<char> {
        if self.cancelling {
            "agent cancelling"@
        } else if self.running {
            "agent running"@
        } else {
            "agent idle"@
        }
    }

    pub open spec fn status_hints(self) -> Seq<SpanView> {
        (if self.mode == UiMode::TranscriptSelect {
            apart(select_hint(), fg_style(Color::DarkGray))
        } else {
            Seq::empty()
        }) + (if self.plan_mode {
            apart("⏸ PLAN MODE"@, fg_style(Color::Magenta).with_bold())
        } else {
            Seq::empty()
        }) + (if self.mode == UiMode::Normal || self.mode == UiMode::Insert {
            apart("Shift+Tab plan/full"@, fg_style(Color::DarkGray))
        } else {
            Seq::empty()
        })
    }

    pub open spec fn status_row(self) -> LineView {
        line_of(
            seq![span_of("Status "@, label_style()), raw_of(self.status)] + apart(
                self.agent_text(),
                plain().with_dim(),
            ) + apart(mode_text(self.mode), fg_style(Color::Cyan)) + self.status_hints(),
        )
    }

    pub open spec fn command_row(self) -> LineView {
        line_of(seq![span_of(":"@, fg_style(Color::Cyan).with_bold()), raw_of(self.command)])
    }
}

fn push_apart(spans: &mut Vec<Span>, text: &str, style: Style)
    ensures
        span_views(final(spans)@) == span_views(old(spans)@) + apart(text@, style),
{
    let ghost before = span_views(spans@);
    push_span(spans, Span::raw("  "));
    push_span(spans, Span::styled(text, style));
    assert(span_views(spans@) =~= before + apart(text@, style));
}

/// Draws one line.
fn one_line(area: Rect, line: Line) -> (r: Vec<DrawOp>)
    ensures
        draw_views(r@) == seq![shown(area, seq![line@])],
{
    let ghost view = line@;
    let mut lines: Vec<Line> = new_lines();
    push_line(&mut lines, line);
    assert(line_views(lines@) =~= seq![view]);
    let mut ops: Vec<DrawOp> = new_ops();
    draw_lines(&mut ops, area, lines);
    assert(draw_views(ops@) =~= seq![shown(area, seq![view])]);
    ops
}

impl UiModel {
    /// Draws the status line.
    pub fn render_status(&self, area: Rect) -> (r: Vec<DrawOp>)
        ensures
            draw_views(r@) == seq![shown(area, seq![self@.status_row()])],
    {
        let mut spans: Vec<Span> = Vec::new();
        assert(span_views(spans@) =~= Seq::empty());
        push_span(&mut spans, Span::styled("Status ", Style::new().fg(Color::Yellow).bold()));
        push_span(&mut spans, Span::raw(self.status_line.as_str()));
        let agent: &str = if self.is_turn_cancelling {
            "agent cancelling"
        } else if self.is_turn_running {
            "agent running"
        } else {
            "agent idle"
        };
        push_apart(&mut spans, agent, Style::new().dim());
        push_apart(&mut spans, mode_name(self.mode), Style::new().fg(Color::Cyan));
        if self.mode == UiMode::TranscriptSelect {
            push_apart(
                &mut spans,
                "j/k move  y copy selected tool  yy copy selected args  gg top  G bottom  Enter subagent  Esc exit",
                Style::new().fg(Color::DarkGray),
            );
        }
        if self.plan_mode {
            push_apart(&mut spans, "⏸ PLAN MODE", Style::new().fg(Color::Magenta).bold());
        }
        if self.mode == UiMode::Normal || self.mode == UiMode::Insert {
            push_apart(&mut spans, "Shift+Tab plan/full", Style::new().fg(Color::DarkGray));
        }
        assert(span_views(spans@) =~= self@.status_row().spans);
        one_line(area, Line::from_spans(spans))
    }

    /// Draws the command line.
    pub fn render_command(&self, area: Rect) -> (r: Vec<DrawOp>)
        ensures
            draw_views(r@) == seq![shown(area, seq![self@.command_row()])],
    {
        one_line(
            area,
            Line::of_two(
                Span::styled(":", Style::new().fg(Color::Cyan).bold()),
                Span::raw(self.command.as_str()),
            ),
        )
    }
}

// ---------------------------------------------------------------------------
// Composer
// ---------------------------------------------------------------------------

pub open spec fn draft_line(text: Seq<char>, row: RowView) -> LineView {
    raw_line(row_chars(text, row))
}

pub open spec fn draft_lines(text: Seq<char>, rows: Seq<RowView>) -> Seq<LineView> {
    rows.map_values(|row: RowView| draft_line(text, row))
}

impl ModelView {
    /// Row and column of the cursor in the draft.
    pub open spec fn cursor_place(self, width: u16) -> (nat, usize) {
        position_in(
            self.composer.text,
            self.composer.cursor,
            rows_of(self.composer.text, columns_of(width)),
        )
    }

    /// The first row of the draft on screen: the one of the cursor is the last,
    /// where it would lie below.
    pub open spec fn draft_top(self, area: Rect) -> nat {
        let row = self.cursor_place(area.width).0;
        if row < columns_of(area.height) {
            0
        } else {
            (row + 1 - columns_of(area.height)) as nat
        }
    }

    /// The rows of the draft on screen.
    pub open spec fn draft_shown(self, area: Rect) -> Seq<LineView> {
        window(
            draft_lines(
                self.composer.text,
                rows_of(self.composer.text, columns_of(area.width)),
            ),
            self.draft_top(area),
            self.draft_top(area) + columns_of(area.height),
        )
    }

    /// Where the cursor is drawn.
    pub open spec fn cursor_shown(self, area: Rect) -> DrawView {
        let (row, col) = self.cursor_place(area.width);
        DrawView::Cursor {
            x: more(
                area.x,
                (if col < columns_of(area.width) {
                    col as nat
                } else {
                    (columns_of(area.width) - 1) as nat
                }) as u16,
                u16::MAX,
            ),
            y: more(area.y, (row - self.draft_top(area)) as u16, u16::MAX),
        }
    }

    /// Text is typed only in insert mode, between turns.
    pub open spec fn takes_text(self) -> bool {
        self.mode == UiMode::Insert && !self.running
    }

    #[verifier::opaque]
    pub open spec fn composer_ops(self, area: Rect) -> Seq<DrawView> {
        let text = seq![shown(area, self.draft_shown(area))];
        if self.takes_text() {
            text.push(self.cursor_shown(area))
        } else {
            text
        }
    }

    pub open spec fn composer_label(self) -> Seq<char> {
        if self.plan_mode {
            "Input (plan)"@
        } else {
            "Input"@
        }
    }

    pub open spec fn composer_accent(self) -> Style {
        if self.plan_mode {
            fg_style(Color::Magenta)
        } else if self.takes_text() {
            fg_style(Color::Cyan)
        } else {
            fg_style(Color::DarkGray)
        }
    }
}

impl UiModel {
    /// The rows of the draft from `top` on, `height` at most.
    fn draft_window(&self, rows: &Vec<ComposerVisualRow>, top: usize, height: usize) -> (r: Vec<Line>)
        requires
            crate::composer::rows_valid(self@.composer.text, rows@),
        ensures
            line_views(r@) == window(
                draft_lines(self@.composer.text, rows_view(self@.composer.text, rows@)),
                top as nat,
                (top + height) as nat,
            ),
    {
        let ghost all = draft_lines(self@.composer.text, rows_view(self@.composer.text, rows@));
        let total: usize = rows.len();
        let end: usize = if top.saturating_add(height) < total {
            top.saturating_add(height)
        } else {
            total
        };
        let mut lines: Vec<Line> = new_lines();
        if top < end {
            let mut i: usize = top;
            assert(line_views(lines@) =~= all.subrange(top as int, top as int));
            while i < end
                invariant
                    crate::composer::rows_valid(self@.composer.text, rows@),
                    all == draft_lines(
                        self@.composer.text,
                        rows_view(self@.composer.text, rows@),
                    ),
                    top <= i <= end <= rows@.len(),
                    line_views(lines@) == all.subrange(top as int, i as int),
                decreases end - i,
            {
                let text: String = self.composer.row_text(&rows[i]);
                push_line(&mut lines, Line::raw(text.as_str()));
                assert(all.subrange(top as int, i + 1) =~= all.subrange(
                    top as int,
                    i as int,
                ).push(all[i as int]));
                i += 1;
            }
        }
        lines
    }

    /// Draws the draft, and the cursor while text is typed.
    pub fn render_composer(&self, area: Rect) -> (r: Vec<DrawOp>)
        requires
            self.wf(),
        ensures
            draw_views(r@) == self@.composer_ops(area),
    {
        reveal(ModelView::composer_ops);
        let width: usize = pane_columns(area.width);
        let height: usize = pane_columns(area.height);
        let rows: Vec<ComposerVisualRow> = self.composer.visual_rows(width);
        let (row, col): (usize, usize) = self.composer.cursor_visual_position_in_rows(&rows);
        let top: usize = if row < height {
            0
        } else {
            row - height + 1
        };
        let lines: Vec<Line> = self.draft_window(&rows, top, height);
        let mut ops: Vec<DrawOp> = new_ops();
        draw_lines(&mut ops, area, lines);
        if self.mode == UiMode::Insert && !self.is_turn_running {
            let x_offset: usize = if col < width {
                col
            } else {
                width - 1
            };
            let y_offset: usize = row - top;
            draw_cursor(
                &mut ops,
                area.x.saturating_add(x_offset as u16),
                area.y.saturating_add(y_offset as u16),
            );
        }
        assert(draw_views(ops@) =~= self@.composer_ops(area));
        ops
    }

    pub fn composer_title(&self) -> (r: &'static str)
        ensures
            r@ == self@.composer_label(),
    {
        if self.plan_mode {
            "Input (plan)"
        } else {
            "Input"
        }
    }

    pub fn composer_accent_style(&self) -> (r: Style)
        ensures
            r == self@.composer_accent(),
    {
        if self.plan_mode {
            Style::new().fg(Color::Magenta)
        } else if self.is_turn_running {
            Style::new().fg(Color::DarkGray)
        } else if self.mode == UiMode::Insert {
            Style::new().fg(Color::Cyan)
        } else {
            Style::new().fg(Color::DarkGray)
        }
    }
}

// ---------------------------------------------------------------------------
// Transcript
// ---------------------------------------------------------------------------

pub open spec fn transcript_placeholder() -> Seq<char> {
    "No transcript yet. Type a message and use :send."@
}

impl ModelView {
    /// What is marked in the transcript.
    pub open spec fn mark(self) -> Mark {
        if self.mode == UiMode::TranscriptSelect {
            match self.select {
                Some(state) => Some((state.selected, state.selected_tool_entry)),
                None => None,
            }
        } else {
            None
        }
    }

    /// The rows of the transcript on screen.
    pub open spec fn transcript_lines(self, width: u16, height: u16) -> Seq<LineView> {
        self.transcript.visible(
            self.config,
            width,
            true,
            self.mark(),
            self.scroll,
            height,
            transcript_placeholder(),
        )
    }

    /// The model once the transcript is drawn: it keeps the width that it was
    /// drawn at, so that scrolling counts the same rows.
    pub open spec fn transcript_drawn(self, area: Rect) -> ModelView {
        (ModelView { inner_width: columns_of(area.width) as u16, ..self }).followed(
            columns_of(area.height) as u16,
        )
    }

    pub open spec fn transcript_ops(self, area: Rect) -> Seq<DrawView> {
        seq![
            shown(
                area,
                self.transcript_drawn(area).transcript_lines(
                    columns_of(area.width) as u16,
                    columns_of(area.height) as u16,
                ),
            ),
        ]
    }
}

impl UiModel {
    /// The rows of the transcript on screen.
    pub fn visible_transcript_lines(&mut self, width: u16, viewport_height: u16) -> (r: Vec<Line>)
        requires
            old(self).wf(),
        ensures
            final(self).wf(),
            final(self)@ == old(self)@,
            line_views(r@) == old(self)@.transcript_lines(width, viewport_height),
    {
        let mark: Mark = if self.mode == UiMode::TranscriptSelect {
            match self.transcript_select {
                Some(state) => Some((state.selected, state.selected_tool_entry)),
                None => None,
            }
        } else {
            None
        };
        let scroll: u16 = self.scroll;
        self.transcript.visible_lines(
            &self.context,
            width,
            true,
            mark,
            scroll,
            viewport_height,
            "No transcript yet. Type a message and use :send.",
        )
    }

    /// The number of rows of the transcript.
    pub fn total_transcript_rows(&mut self, width: u16) -> (r: usize)
        requires
            old(self).wf(),
        ensures
            final(self).wf(),
            final(self)@ == old(self)@,
            r == crate::composer::capped(
                old(self)@.transcript.row_count(old(self)@.config, width, true),
            ),
    {
        self.transcript.total_rows(&self.context, width, true)
    }

    /// Draws the transcript.
    pub fn render_transcript(&mut self, area: Rect) -> (r: Vec<DrawOp>)
        requires
            old(self).wf(),
        ensures
            final(self).wf(),
            final(self)@ == old(self)@.transcript_drawn(area),
            draw_views(r@) == old(self)@.transcript_ops(area),
    {
        let ghost before = self@;
        let width: u16 = pane_columns(area.width) as u16;
        let height: u16 = pane_columns(area.height) as u16;
        // Keep the width that rows are drawn at, so that `max_scroll` (which
        // also runs from key handlers, before the next draw) counts the same rows.
        self.transcript_inner_width = width;
        self.follow(height);
        let lines: Vec<Line> = self.visible_transcript_lines(width, height);
        let mut ops: Vec<DrawOp> = new_ops();
        draw_lines(&mut ops, area, lines);
        assert(draw_views(ops@) =~= before.transcript_ops(area));
        ops
    }
}

// ---------------------------------------------------------------------------
// Laws
// ---------------------------------------------------------------------------

/// A session shows when it was last used and what was last said in it, by the
/// user where the user said anything; below that stands its thread. The selected
/// one is marked.
pub proof fn sessions_show_what_was_said(item: ThreadListItem, selected: bool, width: nat)
    ensures
        ({
            let lines = session_lines(item, selected, width);
            let said = if item.last_user_message is Some {
                item.last_user_message->0@
            } else if item.last_assistant_message is Some {
                item.last_assistant_message->0@
            } else {
                "(no messages)"@
            };
            let mark = if selected {
                "› "@
            } else {
                "  "@
            };
            let used = unicode_text_width(mark) + unicode_text_width(item.updated_at@) + 2;
            let room = if width > used {
                width - used
            } else {
                0
            };
            &&& lines.len() == 2
            &&& lines[0].spans.len() == 4
            &&& lines[0].spans[0].content == mark
            &&& lines[0].spans[0].style.add_modifier.bold <==> selected
            &&& lines[0].spans[1].content == item.updated_at@
            &&& lines[0].spans[1].style.fg == Some(Color::Yellow)
            &&& lines[0].spans[2].content == "  "@
            &&& lines[0].spans[3].content == truncated(said, room as nat)
            &&& lines[1].spans =~= seq![
                raw_of("    "@),
                span_of(item.thread_id.text@, fg_style(Color::DarkGray)),
            ]
        }),
{
}

/// The dashboard shows that it waits, or what went wrong, or that there is
/// nothing, or its sessions: two rows each, from the first one that is shown on.
pub proof fn dashboards_show_their_sessions(dashboard: DashboardView, area: Rect)
    requires
        area.width > 0,
    ensures
        ({
            let body = dashboard.body(area);
            let lines = dashboard.lines(area);
            &&& lines.len() == body.len() + 4
            &&& forall|i: int| 0 <= i < body.len() ==> #[trigger] lines[i + 2] == body[i]
            &&& lines[0].spans[0].content == "cazean"@
            &&& lines[1].spans.len() == 0
            &&& dashboard.loading ==> body.len() == 1 && body[0].spans[0].content
                == "Loading recent sessions..."@
            &&& !dashboard.loading && dashboard.error is Some ==> body == word_wrapped(
                line_of(
                    seq![
                        span_of("! "@, fg_style(Color::Red).with_bold()),
                        span_of(dashboard.error->0, fg_style(Color::Red)),
                    ],
                ),
                area.width as nat,
                2,
            )
            &&& !dashboard.loading && dashboard.error is None && dashboard.items.len() == 0
                ==> body.len() == 1 && body[0].spans[0].content == "No saved sessions."@
            &&& !dashboard.loading && dashboard.error is None && dashboard.items.len() > 0
                ==> body == dashboard.session_rows(
                dashboard.first_shown(area.height),
                dashboard.end_shown(area.height),
                area.width as nat,
            )
        }),
{
}

/// The sessions that are shown stand in order, two rows each, and only the
/// selected one is marked.
pub proof fn shown_sessions_stand_in_order(dashboard: DashboardView, from: nat, to: nat, width: nat, k: int)
    requires
        from <= k < to,
    ensures
        ({
            let rows = dashboard.session_rows(from, to, width);
            let lines = session_lines(dashboard.items[k], k == dashboard.selected, width);
            &&& rows.len() == 2 * (to - from)
            &&& rows[2 * (k - from)] == lines[0]
            &&& rows[2 * (k - from) + 1] == lines[1]
        }),
    decreases to,
{
    lemma_session_rows_count(dashboard, from, (to - 1) as nat, width);
    if k < to - 1 {
        shown_sessions_stand_in_order(dashboard, from, (to - 1) as nat, width, k);
    }
}

proof fn lemma_session_rows_count(dashboard: DashboardView, from: nat, to: nat, width: nat)
    requires
        from <= to,
    ensures
        dashboard.session_rows(from, to, width).len() == 2 * (to - from),
    decreases to,
{
    if from < to {
        lemma_session_rows_count(dashboard, from, (to - 1) as nat, width);
    }
}

/// As many sessions are shown as there is room for, from the scroll offset on.
pub proof fn sessions_fill_the_room(dashboard: DashboardView, height: u16)
    ensures
        ({
            let room = if height >= 6 {
                (height - 4) / 2
            } else {
                1
            };
            let first = dashboard.first_shown(height);
            let end = dashboard.end_shown(height);
            let n = dashboard.items.len();
            &&& first <= end <= n || n == 0
            &&& n <= room ==> first == 0 && end == n
            &&& n > room ==> end - first == room
            &&& n > room && dashboard.scroll_offset + room <= n ==> first
                == dashboard.scroll_offset
        }),
{
}

/// The status line tells the status, what the agent does, the mode, and whether
/// plans are made.
pub proof fn the_status_line_tells_the_state(model: ModelView)
    ensures
        ({
            let spans = model.status_row().spans;
            let doing = if model.cancelling {
                "agent cancelling"@
            } else if model.running {
                "agent running"@
            } else {
                "agent idle"@
            };
            let mode = match model.mode {
                UiMode::Normal => "Normal"@,
                UiMode::Insert => "Insert"@,
                UiMode::Command => "Command"@,
                UiMode::Overlay => "Overlay"@,
                UiMode::TranscriptSelect => "TranscriptSelect"@,
            };
            &&& spans.len() >= 6
            &&& spans[0].content == "Status "@
            &&& spans[1].content == model.status
            &&& spans[3].content == doing
            &&& spans[5].content == mode
            &&& model.mode == UiMode::TranscriptSelect && !model.plan_mode ==> spans.len() == 8
                && spans[7].content == select_hint()
            &&& model.plan_mode && model.mode != UiMode::TranscriptSelect ==> spans.len() >= 8
                && spans[7].content == "⏸ PLAN MODE"@ && spans[7].style.fg == Some(Color::Magenta)
            &&& !model.plan_mode && (model.mode == UiMode::Normal || model.mode == UiMode::Insert)
                ==> spans.len() == 8 && spans[7].content == "Shift+Tab plan/full"@
            &&& !model.plan_mode && (model.mode == UiMode::Command || model.mode == UiMode::Overlay)
                ==> spans.len() == 6
        }),
{
}

/// The command line shows what was typed behind a colon.
pub proof fn the_command_line_is_shown(model: ModelView)
    ensures
        model.command_row().spans.len() == 2,
        model.command_row().spans[0].content == ":"@,
        model.command_row().spans[1].content == model.command,
{
}

/// The inspector tells the turn, the mode, what the agent may do and the thread.
pub proof fn the_inspector_tells_the_session(model: ModelView, width: nat)
    ensures
        ({
            let turn = if model.turn is Some {
                model.turn->0
            } else if model.running {
                "running"@
            } else {
                "idle"@
            };
            let label = fg_style(Color::Yellow).with_bold();
            let may = if model.plan_mode {
                span_of("PLAN"@, fg_style(Color::Magenta).with_bold())
            } else {
                span_of("FULL"@, plain().with_dim())
            };
            let head = seq![
                line_of(seq![span_of("Inspector"@, fg_style(Color::Cyan).with_bold())]),
                blank_line(),
            ];
            model.session_summary(width) =~= head + word_wrapped(
                line_of(seq![span_of("Turn "@, label), span_of(turn, plain())]),
                width,
                unicode_text_width("Turn "@) as nat,
            ) + word_wrapped(
                line_of(seq![span_of("Editor "@, label), span_of(mode_text(model.mode), plain())]),
                width,
                unicode_text_width("Editor "@) as nat,
            ) + word_wrapped(
                line_of(
                    seq![
                        span_of("Agent "@, label),
                        may,
                        span_of("  Shift+Tab"@, plain().with_dim()),
                    ],
                ),
                width,
                unicode_text_width("Agent "@) as nat,
            ) + if model.thread is Some {
                word_wrapped(
                    line_of(
                        seq![
                            span_of("Thread "@, label),
                            span_of(model.thread->0, fg_style(Color::DarkGray)),
                        ],
                    ),
                    width,
                    unicode_text_width("Thread "@) as nat,
                )
            } else {
                Seq::empty()
            }
        }),
{
}

/// The inspector lists the tools that run, in the order in which they started,
/// each with its arguments.
pub proof fn the_inspector_lists_running_tools(model: ModelView, width: nat, n: nat)
    requires
        n < model.running_tools.len(),
    ensures
        ({
            let tool = model.running_tools[n as int].1;
            &&& tools_lines(model.running_tools, n + 1, width) =~= tools_lines(
                model.running_tools,
                n,
                width,
            ) + word_wrapped(
                line_of(
                    seq![
                        span_of("⠋ "@, fg_style(Color::Yellow).with_bold()),
                        raw_of(tool.tool_name@),
                        raw_of(" "@),
                        span_of(tool.args_preview@, plain().with_dim()),
                    ],
                ),
                width,
                (unicode_text_width(tool.tool_name@) + 3) as nat,
            )
            &&& model.tools_summary(width).len() >= 2
            &&& model.tools_summary(width)[1].spans[0].content == "Running Tools"@
            &&& model.tools_summary(width).skip(2) =~= tools_lines(
                model.running_tools,
                model.running_tools.len(),
                width,
            )
        }),
{
}

/// The inspector lists the four latest changes, the newest first.
pub proof fn the_inspector_lists_recent_changes(model: ModelView, width: nat, n: nat)
    requires
        n < model.recent.len(),
    ensures
        ({
            let last = model.recent[model.recent.len() - 1 - n];
            let shown = if model.recent.len() < 4 {
                model.recent.len()
            } else {
                4
            };
            &&& changes_lines(model.recent, n + 1, width) =~= changes_lines(model.recent, n, width)
                + word_wrapped(
                line_of(seq![raw_of("• "@), raw_of(path_label(last))]),
                width,
                2,
            )
            &&& model.changes_summary(width).len() >= 2
            &&& model.changes_summary(width)[1].spans[0].content == "Recent File Changes"@
            &&& model.changes_summary(width).skip(2) =~= changes_lines(model.recent, shown, width)
        }),
{
}

/// Where nothing runs or nothing changed the inspector says so.
pub proof fn the_inspector_says_none(model: ModelView, width: nat)
    ensures
        model.running_tools.len() == 0 ==> model.tools_summary(width).len() == 3
            && model.tools_summary(width)[2].spans[0].content == "none"@,
        model.recent.len() == 0 ==> model.changes_summary(width).len() == 3
            && model.changes_summary(width)[2].spans[0].content == "none"@,
{
}

/// The composer shows the rows of the draft that hold the cursor, as many as
/// there is room for.
pub proof fn the_composer_shows_the_draft(model: ModelView, area: Rect)
    requires
        area.width > 0,
        area.height > 0,
    ensures
        ({
            let c = model.composer;
            let rows = rows_of(c.text, area.width as nat);
            let row = position_in(c.text, c.cursor, rows).0;
            let top = model.draft_top(area);
            let lines = model.draft_shown(area);
            &&& row < area.height ==> top == 0
            &&& row >= area.height ==> top == row + 1 - area.height
            &&& top <= row < top + area.height
            &&& lines.len() <= area.height
            &&& forall|i: int|
                0 <= i < lines.len() ==> #[trigger] lines[i] == raw_line(
                    row_chars(c.text, rows[top + i]),
                )
            &&& rows.len() >= top + area.height ==> lines.len() == area.height
            &&& top <= rows.len() < top + area.height ==> lines.len() == rows.len() - top
        }),
{
}

/// The cursor shows exactly while a draft can be written: in Insert mode, and
/// not while a turn runs. It stands at its place in the draft.
pub proof fn the_cursor_shows_while_writing(model: ModelView, area: Rect)
    requires
        area.width > 0,
        area.height > 0,
        area.x + area.width <= u16::MAX,
        area.y + area.height <= u16::MAX,
    ensures
        ({
            let ops = model.composer_ops(area);
            let rows = rows_of(model.composer.text, area.width as nat);
            let (row, col) = position_in(model.composer.text, model.composer.cursor, rows);
            let writing = model.mode == UiMode::Insert && !model.running;
            &&& ops.len() == if writing {
                2int
            } else {
                1
            }
            &&& ops[0] matches DrawView::Lines { area: at, lines } && at == area && lines
                == model.draft_shown(area)
            &&& writing ==> (ops[1] matches DrawView::Cursor { x, y } && y == area.y + row
                - model.draft_top(area) && (col < area.width ==> x == area.x + col) && (col
                >= area.width ==> x == area.x + area.width - 1))
        }),
{
    reveal(ModelView::composer_ops);
}

/// The composer says whether plans are made, and its rule takes the colour of
/// that, or of being written in.
pub proof fn the_composer_shows_the_mode(model: ModelView)
    ensures
        model.plan_mode ==> model.composer_label() == "Input (plan)"@ && model.composer_accent().fg
            == Some(Color::Magenta),
        !model.plan_mode ==> model.composer_label() == "Input"@,
        !model.plan_mode && model.mode == UiMode::Insert && !model.running
            ==> model.composer_accent().fg == Some(Color::Cyan),
        !model.plan_mode && (model.mode != UiMode::Insert || model.running)
            ==> model.composer_accent().fg == Some(Color::DarkGray),
{
}

/// The selected row is marked while rows are selected, and only then.
pub proof fn only_selected_rows_are_marked(model: ModelView)
    ensures
        model.mode == UiMode::TranscriptSelect && model.select is Some ==> model.mark() == Some(
            (model.select->0.selected, model.select->0.selected_tool_entry),
        ),
        model.mode != UiMode::TranscriptSelect || model.select is None ==> model.mark() is None,
{
}

/// The transcript is drawn at the size of its pane, and its window is at the
/// end while it follows the stream.
pub proof fn the_transcript_fills_its_pane(model: ModelView, area: Rect)
    requires
        area.width > 0,
        area.height > 0,
    ensures
        ({
            let after = model.transcript_drawn(area);
            let ops = model.transcript_ops(area);
            &&& after.inner_width == area.width
            &&& after.transcript == model.transcript
            &&& !model.auto_scroll ==> after.scroll == model.scroll
            &&& model.auto_scroll ==> after.scroll == model.transcript.farthest(
                model.config,
                area.width,
                true,
                area.height,
            )
            &&& ops.len() == 1
            &&& ops[0] matches DrawView::Lines { area: at, lines } && at == area && lines
                == model.transcript.visible(
                model.config,
                area.width,
                true,
                model.mark(),
                after.scroll,
                area.height,
                "No transcript yet. Type a message and use :send."@,
            )
        }),
{
}

} // verus!
