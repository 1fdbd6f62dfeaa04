//! How the screen is divided, and what is drawn in each part.
use vstd::prelude::*;
use crate::diff_render::columns_of;
use crate::frame::{
    append_ops, draw_lines, draw_views, horizontal_rule, inside, may_split, muted,
    muted_separator_style, new_ops, no_ops, render_horizontal_separator, render_vertical_separator,
    separator, separator_line, shown, side_by_side, split_horizontal, split_vertical, stacked,
    vertical_rule, Constraint, Direction, DrawOp, DrawView, Rect,
};
use crate::history_cell::pane_columns;
use crate::question_picker::picker_ops;
use crate::style::{
    fg_style, line_of, line_views, new_lines, push_line, raw_of, span_of, Color, Line, LineView,
    Span, Style,
};
use crate::subagent_preview::{PreviewView, SubagentPreviewView};
use crate::text::{decimal, numeral};
use crate::ui::scroll::at_most;
use crate::ui::{
    overlay_ok, picker_ok, popup_ok, previews_ok, FocusTarget, ModelView, Screen, UiMode, UiModel,
};

verus! {

// ---------------------------------------------------------------------------
// Subagent preview
// ---------------------------------------------------------------------------

pub open spec fn preview_hint(select_mode: bool) -> Seq<char> {
    if select_mode {
        "j/k move  Enter nested  y copy selected tool  yy args  Esc scroll  Ctrl-O back"@
    } else {
        "j/k scroll  gg/G top/bottom  Esc Esc select  Ctrl-O back  Ctrl-I forward"@
    }
}

impl ModelView {
    /// The header of the preview on top: the agent, its status, and how deep it
    /// is nested.
    pub open spec fn preview_header(self) -> Seq<char> {
        let header = self.previews.last().header();
        if self.previews.len() > 1 {
            header + " · nested ×"@ + numeral((self.previews.len() - 1) as nat)
        } else {
            header
        }
    }

    /// The preview on top as it is drawn.
    pub open spec fn preview_top(self, area: Rect) -> PreviewView {
        self.previews.last().followed(
            self.config,
            columns_of(area.width) as u16,
            columns_of(area.height) as u16,
        )
    }

    pub open spec fn preview_footer(self) -> LineView {
        line_of(
            seq![
                raw_of(self.status),
                raw_of("  "@),
                span_of(
                    preview_hint(self.previews.last().select_mode),
                    fg_style(Color::DarkGray),
                ),
            ],
        )
    }

    /// The screen of a preview: a header, the transcript of the agent, a footer.
    #[verifier::opaque]
    pub open spec fn preview_drawn(self, area: Rect, chunks: Seq<Rect>) -> (
        ModelView,
        Seq<DrawView>,
    ) {
        (
            ModelView {
                previews: self.previews.drop_last().push(self.preview_top(chunks[1])),
                ..self
            },
            seq![
                shown(
                    chunks[0],
                    seq![separator(area.width, self.preview_header(), fg_style(Color::Cyan))],
                ),
                shown(
                    chunks[1],
                    self.preview_top(chunks[1]).visible(
                        self.config,
                        columns_of(chunks[1].width) as u16,
                        columns_of(chunks[1].height) as u16,
                    ),
                ),
                shown(chunks[2], seq![self.preview_footer()]),
            ],
        )
    }
}

impl UiModel {
    fn preview_title(&self) -> (r: String)
        requires
            self.preview_stack@.len() > 0,
        ensures
            r@ == self@.preview_header(),
    {
        let depth: usize = self.preview_stack.len();
        let mut header: String = self.preview_stack[depth - 1].header_label();
        if depth > 1 {
            header.push_str(" · nested ×");
            let nested: String = decimal((depth - 1) as u128);
            header.push_str(nested.as_str());
        }
        assert(self@.previews.last() == self.preview_stack@[depth - 1]@);
        header
    }

    /// Draws the preview on top in `chunks`: a header naming the agent and its
    /// live status, the read-only transcript, and a key-hint footer. The status
    /// line stays visible: feedback from inside the preview would otherwise be
    /// seen only after leaving it.
    pub fn render_preview(&mut self, area: Rect, chunks: &Vec<Rect>) -> (r: Vec<DrawOp>)
        requires
            old(self).wf(),
            old(self).preview_stack@.len() > 0,
            chunks@.len() == 3,
        ensures
            final(self).wf(),
            (final(self)@, draw_views(r@)) == old(self)@.preview_drawn(area, chunks@),
    {
        reveal(ModelView::preview_drawn);
        let ghost before = self@;
        let mut ops: Vec<DrawOp> = new_ops();
        let title: String = self.preview_title();
        let mut header: Vec<Line> = new_lines();
        push_line(
            &mut header,
            separator_line(area.width, title.as_str(), Style::new().fg(Color::Cyan)),
        );
        assert(line_views(header@) =~= seq![
            separator(area.width, before.preview_header(), fg_style(Color::Cyan)),
        ]);
        draw_lines(&mut ops, chunks[0], header);
        let width: u16 = pane_columns(chunks[1].width) as u16;
        let height: u16 = pane_columns(chunks[1].height) as u16;
        let last: usize = self.preview_stack.len() - 1;
        assert(before.previews.last() == self.preview_stack@[last as int]@);
        let hint: &str = if self.preview_stack[last].select_mode {
            "j/k move  Enter nested  y copy selected tool  yy args  Esc scroll  Ctrl-O back"
        } else {
            "j/k scroll  gg/G top/bottom  Esc Esc select  Ctrl-O back  Ctrl-I forward"
        };
        reveal(previews_ok);
        let view: &mut SubagentPreviewView = &mut self.preview_stack[last];
        view.follow(&self.context, width, height);
        let lines: Vec<Line> = view.visible_lines(&self.context, width, height);
        draw_lines(&mut ops, chunks[1], lines);
        let mut footer: Vec<Line> = new_lines();
        push_line(
            &mut footer,
            Line::of_three(
                Span::raw(self.status_line.as_str()),
                Span::raw("  "),
                Span::styled(hint, Style::new().fg(Color::DarkGray)),
            ),
        );
        assert(line_views(footer@) =~= seq![before.preview_footer()]);
        draw_lines(&mut ops, chunks[2], footer);
        assert(self@.previews =~= before.preview_drawn(area, chunks@).0.previews);
        assert(draw_views(ops@) =~= before.preview_drawn(area, chunks@).1);
        ops
    }
}

// ---------------------------------------------------------------------------
// Workspace
// ---------------------------------------------------------------------------

impl ModelView {
    /// Whether the transcript and the inspector stand side by side.
    pub open spec fn splits(self, area: Rect) -> bool {
        area.width >= 110 && self.inspector
    }

    /// The widths that the transcript, the rule beside it and the inspector are
    /// meant to have.
    pub open spec fn pane_parts(self) -> Seq<Constraint> {
        seq![Constraint::Percentage(70), Constraint::Length(1), Constraint::Percentage(30)]
    }

    /// The panes above the composer: the transcript beside the inspector where
    /// there is room, else the one that has the focus.
    #[verifier::opaque]
    pub open spec fn body_drawn(self, area: Rect, panes: Seq<Rect>) -> (ModelView, Seq<DrawView>) {
        if self.splits(area) {
            let m = self.transcript_drawn(panes[0]);
            (
                m,
                self.transcript_ops(panes[0]) + vertical_rule(panes[1]) + seq![
                    shown(panes[2], m.inspector_lines(panes[2].width)),
                ],
            )
        } else if self.inspector && self.focus == FocusTarget::Inspector {
            (self, seq![shown(area, self.inspector_lines(area.width))])
        } else {
            (self.transcript_drawn(area), self.transcript_ops(area))
        }
    }

    /// The rows that the list of skills takes.
    pub open spec fn popup_rows(self) -> u16 {
        match self.popup {
            Some(popup) => at_most(popup.height(), 8),
            None => 0,
        }
    }

    /// The parts of the workspace below one another.
    pub open spec fn workspace_parts(self, width: u16) -> Seq<Constraint> {
        let picker = self.picker_rows(width);
        let popup = self.popup_rows();
        seq![Constraint::Min(5)] + (if picker > 0 {
            seq![Constraint::Length(picker)]
        } else {
            Seq::empty()
        }) + (if popup > 0 {
            seq![Constraint::Length(popup)]
        } else {
            Seq::empty()
        }) + seq![Constraint::Length(1), Constraint::Length(self.composer_rows())] + (if self.mode
            == UiMode::Command {
            seq![Constraint::Length(1)]
        } else {
            Seq::empty()
        }) + seq![Constraint::Length(1), Constraint::Length(1)]
    }

    /// What a pending question shows.
    pub open spec fn question_ops(self, area: Rect) -> Seq<DrawView> {
        match self.picker {
            Some(picker) => picker_ops(picker, area),
            None => no_ops(),
        }
    }

    pub open spec fn skills_ops(self, area: Rect) -> Seq<DrawView> {
        match self.popup {
            Some(popup) => seq![shown(area, popup.visible(area.height))],
            None => no_ops(),
        }
    }

    /// What stands between the panes and the composer.
    pub open spec fn overlay_ops(self, width: u16, chunks: Seq<Rect>) -> Seq<DrawView> {
        let a: int = if self.picker_rows(width) > 0 {
            1
        } else {
            0
        };
        (if a == 1 {
            self.question_ops(chunks[1])
        } else {
            no_ops()
        }) + (if self.popup_rows() > 0 {
            self.skills_ops(chunks[1 + a])
        } else {
            no_ops()
        })
    }

    /// The composer, the command line and the status line, from part `i` on.
    pub open spec fn foot_ops(self, chunks: Seq<Rect>, i: int) -> Seq<DrawView> {
        let c: int = if self.mode == UiMode::Command {
            1
        } else {
            0
        };
        horizontal_rule(chunks[i], self.composer_label(), self.composer_accent())
            + self.composer_ops(chunks[i + 1]) + (if c == 1 {
            seq![shown(chunks[i + 2], seq![self.command_row()])]
        } else {
            no_ops()
        }) + horizontal_rule(chunks[i + 2 + c], "Status"@, muted()) + seq![
            shown(chunks[i + 3 + c], seq![self.status_row()]),
        ]
    }

    /// The part of the composer's rule.
    pub open spec fn foot_index(self, width: u16) -> int {
        1 + (if self.picker_rows(width) > 0 {
            1int
        } else {
            0
        }) + (if self.popup_rows() > 0 {
            1int
        } else {
            0
        })
    }

    /// The workspace in `chunks` below one another, the first in `panes`.
    pub open spec fn workspace_drawn(self, area: Rect, chunks: Seq<Rect>, panes: Seq<Rect>) -> (
        ModelView,
        Seq<DrawView>,
    ) {
        let (m, body) = self.body_drawn(chunks[0], panes);
        (
            m,
            body + self.overlay_ops(area.width, chunks) + m.foot_ops(
                chunks,
                self.foot_index(area.width),
            ),
        )
    }
}

impl UiModel {
    fn popup_height(&self) -> (r: u16)
        requires
            self.wf(),
        ensures
            r == self@.popup_rows(),
    {
        reveal(popup_ok);
        match &self.skill_popup {
            Some(popup) => {
                let wanted: u16 = popup.desired_height();
                if wanted <= 8 {
                    wanted
                } else {
                    8
                }
            },
            None => 0,
        }
    }

    /// The parts of the workspace below one another.
    pub fn workspace_constraints(&self, width: u16) -> (r: Vec<Constraint>)
        requires
            self.wf(),
        ensures
            r@ == self@.workspace_parts(width),
    {
        let picker_height: u16 = self.question_height(width);
        let skill_popup_height: u16 = self.popup_height();
        let mut constraints: Vec<Constraint> = Vec::new();
        constraints.push(Constraint::Min(5));
        if picker_height > 0 {
            constraints.push(Constraint::Length(picker_height));
        }
        if skill_popup_height > 0 {
            constraints.push(Constraint::Length(skill_popup_height));
        }
        constraints.push(Constraint::Length(1));
        constraints.push(Constraint::Length(self.composer_height()));
        if self.mode == UiMode::Command {
            constraints.push(Constraint::Length(1));
        }
        constraints.push(Constraint::Length(1));
        constraints.push(Constraint::Length(1));
        assert(constraints@ =~= self@.workspace_parts(width));
        constraints
    }

    /// Divides the area above the composer, where the inspector stands beside
    /// the transcript.
    pub fn split_panes(&self, area: Rect) -> (r: Vec<Rect>)
        ensures
            self@.splits(area) ==> side_by_side(area, r@, 3) && may_split(
                area,
                Direction::Horizontal,
                self@.pane_parts(),
                r@,
            ),
            !self@.splits(area) ==> r@.len() == 0,
    {
        if area.width >= 110 && self.inspector_visible {
            let mut constraints: Vec<Constraint> = Vec::new();
            constraints.push(Constraint::Percentage(70));
            constraints.push(Constraint::Length(1));
            constraints.push(Constraint::Percentage(30));
            assert(constraints@ =~= self@.pane_parts());
            split_horizontal(area, &constraints)
        } else {
            Vec::new()
        }
    }

    /// Draws the panes above the composer.
    pub fn render_workspace_body(&mut self, area: Rect, panes: &Vec<Rect>) -> (r: Vec<DrawOp>)
        requires
            old(self).wf(),
            old(self)@.splits(area) ==> panes@.len() == 3,
        ensures
            final(self).wf(),
            (final(self)@, draw_views(r@)) == old(self)@.body_drawn(area, panes@),
    {
        reveal(ModelView::body_drawn);
        let ghost before = self@;
        if area.width >= 110 && self.inspector_visible {
            let mut ops: Vec<DrawOp> = self.render_transcript(panes[0]);
            append_ops(&mut ops, render_vertical_separator(panes[1]));
            append_ops(&mut ops, self.render_inspector(panes[2]));
            assert(draw_views(ops@) =~= before.body_drawn(area, panes@).1);
            ops
        } else if self.inspector_visible && self.focus == FocusTarget::Inspector {
            self.render_inspector(area)
        } else {
            self.render_transcript(area)
        }
    }

    fn render_overlays(&self, width: u16, chunks: &Vec<Rect>) -> (r: Vec<DrawOp>)
        requires
            self.wf(),
            chunks@.len() >= self@.foot_index(width),
        ensures
            draw_views(r@) == self@.overlay_ops(width, chunks@),
    {
        reveal(picker_ok);
        reveal(popup_ok);
        let mut ops: Vec<DrawOp> = new_ops();
        let mut idx: usize = 1;
        if self.question_height(width) > 0 {
            match &self.question_picker {
                Some(picker) => append_ops(&mut ops, picker.render(chunks[idx])),
                None => {},
            }
            idx += 1;
        }
        if self.popup_height() > 0 {
            match &self.skill_popup {
                Some(popup) => append_ops(&mut ops, popup.render(chunks[idx])),
                None => {},
            }
        }
        assert(draw_views(ops@) =~= self@.overlay_ops(width, chunks@));
        ops
    }

    fn render_foot(&self, chunks: &Vec<Rect>, from: usize) -> (r: Vec<DrawOp>)
        requires
            self.wf(),
            from + self@.command_rows() + 4 <= chunks@.len(),
        ensures
            draw_views(r@) == self@.foot_ops(chunks@, from as int),
    {
        assert(chunks@.len() == chunks.len());
        let mut idx: usize = from;
        let mut ops: Vec<DrawOp> = render_horizontal_separator(
            chunks[idx],
            self.composer_title(),
            self.composer_accent_style(),
        );
        idx += 1;
        append_ops(&mut ops, self.render_composer(chunks[idx]));
        idx += 1;
        if self.mode == UiMode::Command {
            append_ops(&mut ops, self.render_command(chunks[idx]));
            idx += 1;
        }
        append_ops(
            &mut ops,
            render_horizontal_separator(chunks[idx], "Status", muted_separator_style()),
        );
        idx += 1;
        append_ops(&mut ops, self.render_status(chunks[idx]));
        assert(draw_views(ops@) =~= self@.foot_ops(chunks@, from as int));
        ops
    }

    fn foot_start(&self, width: u16) -> (r: usize)
        requires
            self.wf(),
        ensures
            r == self@.foot_index(width),
    {
        let mut idx: usize = 1;
        if self.question_height(width) > 0 {
            idx += 1;
        }
        if self.popup_height() > 0 {
            idx += 1;
        }
        idx
    }

    /// Draws the workspace in `chunks` below one another, the first in `panes`.
    pub fn render_workspace(&mut self, area: Rect, chunks: &Vec<Rect>, panes: &Vec<Rect>) -> (r: Vec<
        DrawOp,
    >)
        requires
            old(self).wf(),
            chunks@.len() == old(self)@.workspace_parts(area.width).len(),
            old(self)@.splits(chunks@[0]) ==> panes@.len() == 3,
        ensures
            final(self).wf(),
            (final(self)@, draw_views(r@)) == old(self)@.workspace_drawn(area, chunks@, panes@),
    {
        let ghost before = self@;
        let from: usize = self.foot_start(area.width);
        let overlays: Vec<DrawOp> = self.render_overlays(area.width, chunks);
        let mut ops: Vec<DrawOp> = self.render_workspace_body(chunks[0], panes);
        append_ops(&mut ops, overlays);
        assert(self@.mode == before.mode) by {
            reveal(ModelView::body_drawn);
        }
        append_ops(&mut ops, self.render_foot(chunks, from));
        ops
    }
}

// ---------------------------------------------------------------------------
// The screen
// ---------------------------------------------------------------------------

/// What is on the screen.
pub enum Shown {
    Sessions,
    Preview,
    Approval,
    Workspace,
}

impl ModelView {
    pub open spec fn on_screen(self) -> Shown {
        if self.screen == Screen::Dashboard {
            Shown::Sessions
        } else if self.previews.len() > 0 {
            Shown::Preview
        } else if self.reviewing() {
            Shown::Approval
        } else {
            Shown::Workspace
        }
    }

    /// The parts of a preview below one another: header, rows and hint.
    pub open spec fn preview_parts(self) -> Seq<Constraint> {
        seq![Constraint::Length(1), Constraint::Min(1), Constraint::Length(1)]
    }

    /// Whether `chunks` and `panes` divide `area` as what is shown needs it.
    pub open spec fn laid_out(self, area: Rect, chunks: Seq<Rect>, panes: Seq<Rect>) -> bool {
        match self.on_screen() {
            Shown::Preview => stacked(area, chunks, 3),
            Shown::Workspace => stacked(area, chunks, self.workspace_parts(area.width).len()) && (
            self.splits(chunks[0]) ==> side_by_side(chunks[0], panes, 3)),
            _ => true,
        }
    }

    /// Whether `chunks` and `panes` are what dividing `area` for what is shown
    /// comes to.
    pub open spec fn divided(self, area: Rect, chunks: Seq<Rect>, panes: Seq<Rect>) -> bool {
        match self.on_screen() {
            Shown::Preview => may_split(area, Direction::Vertical, self.preview_parts(), chunks),
            Shown::Workspace => may_split(
                area,
                Direction::Vertical,
                self.workspace_parts(area.width),
                chunks,
            ) && (self.splits(chunks[0]) ==> may_split(
                chunks[0],
                Direction::Horizontal,
                self.pane_parts(),
                panes,
            )),
            _ => true,
        }
    }

    /// The plan under review, once it is drawn.
    pub open spec fn approval_drawn(self, area: Rect) -> (ModelView, Seq<DrawView>) {
        match self.approval {
            Some(overlay) => (
                ModelView { approval: Some(overlay.drawn(area)), ..self },
                seq![shown(area, overlay.rows(area))],
            ),
            None => (self, no_ops()),
        }
    }

    /// The screen, divided as given.
    pub open spec fn drawn(self, area: Rect, chunks: Seq<Rect>, panes: Seq<Rect>) -> (
        ModelView,
        Seq<DrawView>,
    ) {
        match self.on_screen() {
            Shown::Sessions => (self, seq![shown(area, self.dashboard.lines(area))]),
            Shown::Preview => self.preview_drawn(area, chunks),
            Shown::Approval => self.approval_drawn(area),
            Shown::Workspace => self.workspace_drawn(area, chunks, panes),
        }
    }

    pub open spec fn as_wide_as(self, area: Rect) -> ModelView {
        ModelView { terminal_width: area.width, ..self }
    }
}

impl UiModel {
    fn render_approval(&mut self, area: Rect) -> (r: Vec<DrawOp>)
        requires
            old(self).wf(),
        ensures
            final(self).wf(),
            (final(self)@, draw_views(r@)) == old(self)@.approval_drawn(area),
    {
        reveal(overlay_ok);
        match &mut self.plan_approval {
            Some(overlay) => overlay.render(area),
            None => new_ops(),
        }
    }

    /// Divides `area` from top to bottom as what is shown needs it.
    fn split_screen(&self, area: Rect) -> (r: Vec<Rect>)
        requires
            self.wf(),
        ensures
            self@.on_screen() is Preview ==> stacked(area, r@, 3) && may_split(
                area,
                Direction::Vertical,
                self@.preview_parts(),
                r@,
            ),
            self@.on_screen() is Workspace ==> stacked(
                area,
                r@,
                self@.workspace_parts(area.width).len(),
            ) && may_split(area, Direction::Vertical, self@.workspace_parts(area.width), r@),
    {
        if self.screen == Screen::Dashboard {
            Vec::new()
        } else if self.preview_stack.len() > 0 {
            let mut constraints: Vec<Constraint> = Vec::new();
            constraints.push(Constraint::Length(1));
            constraints.push(Constraint::Min(1));
            constraints.push(Constraint::Length(1));
            assert(constraints@ =~= self@.preview_parts());
            split_vertical(area, &constraints)
        } else if self.is_reviewing() {
            Vec::new()
        } else {
            split_vertical(area, &self.workspace_constraints(area.width))
        }
    }

    /// Draws the screen, divided as given.
    pub fn draw(&mut self, area: Rect, chunks: &Vec<Rect>, panes: &Vec<Rect>) -> (r: Vec<DrawOp>)
        requires
            old(self).wf(),
            old(self)@.laid_out(area, chunks@, panes@),
        ensures
            final(self).wf(),
            (final(self)@, draw_views(r@)) == old(self)@.drawn(area, chunks@, panes@),
    {
        if self.screen == Screen::Dashboard {
            self.render_dashboard_body(area)
        } else if self.preview_stack.len() > 0 {
            self.render_preview(area, chunks)
        } else if self.is_reviewing() {
            // An active plan-approval overlay owns the whole screen.
            self.render_approval(area)
        } else {
            self.render_workspace(area, chunks, panes)
        }
    }

    /// Draws the screen. How it is divided comes out of a constraint solver;
    /// what is drawn in each part is fixed.
    pub fn render(&mut self, area: Rect) -> (r: Vec<DrawOp>)
        requires
            old(self).wf(),
        ensures
            final(self).wf(),
            exists|chunks: Seq<Rect>, panes: Seq<Rect>|
                old(self)@.as_wide_as(area).laid_out(area, chunks, panes) && old(
                    self,
                )@.as_wide_as(area).divided(area, chunks, panes) && (
                    final(self)@,
                    draw_views(r@),
                ) == #[trigger] old(self)@.as_wide_as(area).drawn(area, chunks, panes),
    {
        self.terminal_width = area.width;
        let chunks: Vec<Rect> = self.split_screen(area);
        let panes: Vec<Rect> = if chunks.len() > 0 {
            self.split_panes(chunks[0])
        } else {
            Vec::new()
        };
        assert(self@ == old(self)@.as_wide_as(area));
        assert(self@.laid_out(area, chunks@, panes@));
        assert(self@.divided(area, chunks@, panes@));
        self.draw(area, &chunks, &panes)
    }
}

// ---------------------------------------------------------------------------
// Laws
// ---------------------------------------------------------------------------

/// Drawing changes nothing of the model but what it keeps of the sizes that it
/// was drawn at and the windows that follow their streams.
pub proof fn drawing_keeps_the_session(
    model: ModelView,
    area: Rect,
    chunks: Seq<Rect>,
    panes: Seq<Rect>,
)
    requires
        model.laid_out(area, chunks, panes),
    ensures
        ({
            let after = model.drawn(area, chunks, panes).0;
            &&& after.transcript == model.transcript
            &&& after.composer == model.composer
            &&& after.mode == model.mode
            &&& after.screen == model.screen
            &&& after.status == model.status
            &&& after.picker == model.picker
            &&& after.previews.len() == model.previews.len()
            &&& !model.auto_scroll ==> after.scroll == model.scroll
        }),
{
    reveal(ModelView::body_drawn);
    reveal(ModelView::preview_drawn);
}

/// The cursor is drawn inside the composer.
pub proof fn cursor_stays_in_composer(model: ModelView, area: Rect)
    requires
        area.width > 0,
        area.height > 0,
        area.x + area.width <= u16::MAX,
        area.y + area.height <= u16::MAX,
    ensures
        model.cursor_shown(area) matches DrawView::Cursor { x, y } && area.x <= x < area.x
            + area.width && area.y <= y < area.y + area.height,
{
}

/// Whether a drawing step stays inside of `area`.
pub open spec fn on_area(op: DrawView, area: Rect) -> bool {
    match op {
        DrawView::Lines { area: part, .. } => inside(area, part),
        DrawView::Cursor { .. } => true,
    }
}

pub open spec fn all_on_area(ops: Seq<DrawView>, area: Rect) -> bool {
    forall|i: int| 0 <= i < ops.len() ==> on_area(#[trigger] ops[i], area)
}

/// Every line is drawn inside of the screen, however it is divided.
pub proof fn lines_stay_on_screen(
    model: ModelView,
    area: Rect,
    chunks: Seq<Rect>,
    panes: Seq<Rect>,
)
    requires
        model.laid_out(area, chunks, panes),
    ensures
        all_on_area(model.drawn(area, chunks, panes).1, area),
{
    match model.on_screen() {
        Shown::Preview => {
            lemma_preview_on_area(model, area, chunks);
        },
        Shown::Workspace => {
            lemma_workspace_on_area(model, area, chunks, panes);
        },
        _ => {},
    }
}

proof fn lemma_preview_on_area(model: ModelView, area: Rect, chunks: Seq<Rect>)
    requires
        stacked(area, chunks, 3),
    ensures
        all_on_area(model.preview_drawn(area, chunks).1, area),
{
    reveal(ModelView::preview_drawn);
}

proof fn lemma_foot_is_last(model: ModelView, width: u16)
    ensures
        0 <= model.foot_index(width),
        model.workspace_parts(width).len() == model.foot_index(width) + model.command_rows() + 4,
{
}

proof fn lemma_workspace_on_area(model: ModelView, area: Rect, chunks: Seq<Rect>, panes: Seq<Rect>)
    requires
        stacked(area, chunks, model.workspace_parts(area.width).len()),
        model.splits(chunks[0]) ==> side_by_side(chunks[0], panes, 3),
    ensures
        all_on_area(model.workspace_drawn(area, chunks, panes).1, area),
{
    lemma_foot_is_last(model, area.width);
    let foot = model.foot_index(area.width);
    let (m, body) = model.body_drawn(chunks[0], panes);
    let overlays = model.overlay_ops(area.width, chunks);
    assert(inside(area, chunks[0]));
    lemma_body_on_area(model, chunks[0], panes, area);
    lemma_overlays_on_area(model, area.width, area, chunks);
    assert(m.command_rows() == model.command_rows());
    lemma_foot_on_area(m, area, chunks, foot);
    lemma_both_on_area(body, overlays, area);
    lemma_both_on_area(body + overlays, m.foot_ops(chunks, foot), area);
}

proof fn lemma_both_on_area(first: Seq<DrawView>, second: Seq<DrawView>, area: Rect)
    requires
        all_on_area(first, area),
        all_on_area(second, area),
    ensures
        all_on_area(first + second, area),
{
}

proof fn lemma_body_on_area(model: ModelView, part: Rect, panes: Seq<Rect>, area: Rect)
    requires
        inside(area, part),
        model.splits(part) ==> side_by_side(part, panes, 3),
    ensures
        all_on_area(model.body_drawn(part, panes).1, area),
        model.body_drawn(part, panes).0.mode == model.mode,
{
    reveal(ModelView::body_drawn);
}

proof fn lemma_overlays_on_area(model: ModelView, width: u16, area: Rect, chunks: Seq<Rect>)
    requires
        model.foot_index(width) <= chunks.len(),
        stacked(area, chunks, chunks.len()),
    ensures
        all_on_area(model.overlay_ops(width, chunks), area),
{
}

proof fn lemma_foot_on_area(model: ModelView, area: Rect, chunks: Seq<Rect>, i: int)
    requires
        0 <= i,
        i + model.command_rows() + 4 <= chunks.len(),
        stacked(area, chunks, chunks.len()),
    ensures
        all_on_area(model.foot_ops(chunks, i), area),
{
    reveal(ModelView::composer_ops);
    let c: int = if model.mode == UiMode::Command {
        1
    } else {
        0
    };
    let rule = horizontal_rule(chunks[i], model.composer_label(), model.composer_accent());
    let command = if c == 1 {
        seq![shown(chunks[i + 2], seq![model.command_row()])]
    } else {
        no_ops()
    };
    let below = horizontal_rule(chunks[i + 2 + c], "Status"@, muted());
    let status = seq![shown(chunks[i + 3 + c], seq![model.status_row()])];
    lemma_both_on_area(rule, model.composer_ops(chunks[i + 1]), area);
    lemma_both_on_area(rule + model.composer_ops(chunks[i + 1]), command, area);
    lemma_both_on_area(rule + model.composer_ops(chunks[i + 1]) + command, below, area);
    lemma_both_on_area(rule + model.composer_ops(chunks[i + 1]) + command + below, status, area);
}

/// The dashboard never draws more rows than there are, once there is room for
/// one session.
pub proof fn dashboard_fits(model: ModelView, area: Rect)
    requires
        area.height >= 6,
        !model.dashboard.loading,
        model.dashboard.error is None,
    ensures
        model.dashboard.lines(area).len() <= area.height,
{
    let dash = model.dashboard;
    let from = dash.first_shown(area.height);
    let to = dash.end_shown(area.height);
    if dash.items.len() > 0 && from < to {
        lemma_two_rows_each(dash, from, to, columns_of(area.width));
    }
}

proof fn lemma_two_rows_each(
    dash: crate::ui::DashboardView,
    from: nat,
    to: nat,
    width: nat,
)
    requires
        from <= to,
    ensures
        dash.session_rows(from, to, width).len() == 2 * (to - from),
    decreases to,
{
    if from < to {
        lemma_two_rows_each(dash, from, (to - 1) as nat, width);
    }
}

/// What is on screen: the sessions on the dashboard; in the workspace a preview
/// first, then a plan under review, then the workspace itself.
pub proof fn previews_lie_on_top(model: ModelView)
    ensures
        model.screen == Screen::Dashboard ==> model.on_screen() is Sessions,
        model.screen == Screen::Workspace && model.previews.len() > 0 ==> model.on_screen()
            is Preview,
        model.screen == Screen::Workspace && model.previews.len() == 0 && model.reviewing()
            ==> model.on_screen() is Approval,
        model.screen == Screen::Workspace && model.previews.len() == 0 && !model.reviewing()
            ==> model.on_screen() is Workspace,
{
}

/// The heading of a preview tells how deep it is nested.
pub proof fn nested_previews_are_counted(model: ModelView)
    requires
        model.previews.len() > 0,
    ensures
        model.previews.len() == 1 ==> model.preview_header() == model.previews.last().header(),
        model.previews.len() > 1 ==> model.preview_header() == model.previews.last().header()
            + " · nested ×"@ + numeral((model.previews.len() - 1) as nat),
{
}

/// A preview is drawn as its heading, its rows and its status with the keys that
/// it takes; its window is at the end while it follows the stream.
pub proof fn previews_are_drawn(model: ModelView, area: Rect, chunks: Seq<Rect>)
    requires
        model.previews.len() > 0,
        area.width > 0,
        chunks.len() == 3,
        chunks[1].width > 0,
        chunks[1].height > 0,
    ensures
        ({
            let (after, ops) = model.preview_drawn(area, chunks);
            let top = model.previews.last();
            let scroll = if top.auto_scroll {
                top.transcript.farthest(model.config, chunks[1].width, false, chunks[1].height)
            } else {
                top.scroll
            };
            let shown_top = PreviewView { scroll, ..top };
            &&& after.previews =~= model.previews.drop_last().push(shown_top)
            &&& ops.len() == 3
            &&& ops[0] matches DrawView::Lines { area: at, lines } && at == chunks[0] && lines
                =~= seq![separator(area.width, model.preview_header(), fg_style(Color::Cyan))]
            &&& ops[1] matches DrawView::Lines { area: at, lines } && at == chunks[1] && lines
                == shown_top.visible(model.config, chunks[1].width, chunks[1].height)
            &&& ops[2] matches DrawView::Lines { area: at, lines } && at == chunks[2] && lines.len()
                == 1 && lines[0].spans[0].content == model.status && lines[0].spans[2].content
                == preview_hint(top.select_mode)
        }),
{
    reveal(ModelView::preview_drawn);
}

/// The inspector stands beside the transcript where there is room, in its place
/// where it has the focus, and otherwise not at all.
pub proof fn the_inspector_is_placed(model: ModelView, area: Rect, panes: Seq<Rect>)
    requires
        panes.len() == 3,
    ensures
        ({
            let (after, ops) = model.body_drawn(area, panes);
            let beside = area.width >= 110 && model.inspector;
            let instead = !beside && model.inspector && model.focus == FocusTarget::Inspector;
            &&& beside ==> ops.len() >= 2 && ops[0] == model.transcript_ops(panes[0])[0]
                && ops.last() == (DrawView::Lines {
                area: panes[2],
                lines: model.transcript_drawn(panes[0]).inspector_lines(panes[2].width),
            }) && after == model.transcript_drawn(panes[0])
            &&& instead ==> ops =~= seq![
                DrawView::Lines { area, lines: model.inspector_lines(area.width) },
            ] && after == model
            &&& !beside && !instead ==> ops == model.transcript_ops(area) && after
                == model.transcript_drawn(area)
        }),
{
    reveal(ModelView::body_drawn);
}

/// The workspace is divided into the transcript, a question, the skills that are
/// offered, the draft with its rule, the command line, and the status with its
/// rule; what is not there takes no part.
pub proof fn workspaces_are_divided(model: ModelView, width: u16)
    ensures
        ({
            let parts = model.workspace_parts(width);
            let question = model.picker_rows(width) > 0;
            let skills = model.popup_rows() > 0;
            let command = model.mode == UiMode::Command;
            let foot = 1 + if question {
                1int
            } else {
                0
            } + if skills {
                1int
            } else {
                0
            };
            &&& parts.len() == foot + 4 + if command {
                1int
            } else {
                0
            }
            &&& parts[0] == Constraint::Min(5)
            &&& question ==> parts[1] == Constraint::Length(model.picker_rows(width))
            &&& skills ==> parts[foot - 1] == Constraint::Length(model.popup_rows())
            &&& parts[foot] == Constraint::Length(1)
            &&& parts[foot + 1] == Constraint::Length(model.composer_rows())
            &&& command ==> parts[foot + 2] == Constraint::Length(1)
            &&& parts[parts.len() - 2] == Constraint::Length(1)
            &&& parts[parts.len() - 1] == Constraint::Length(1)
            &&& model.foot_index(width) == foot
            &&& model.popup is None ==> !skills
            &&& model.popup_rows() <= 8
        }),
{
}

/// Below the transcript come the rule of the draft and the draft, then the
/// command line while it is open, and the status under its rule at the very end.
pub proof fn the_foot_ends_with_the_status(model: ModelView, chunks: Seq<Rect>, i: int)
    ensures
        ({
            let ops = model.foot_ops(chunks, i);
            let c = if model.mode == UiMode::Command {
                1int
            } else {
                0
            };
            let rule = horizontal_rule(chunks[i], model.composer_label(), model.composer_accent());
            let draft = model.composer_ops(chunks[i + 1]);
            &&& ops.len() > 0
            &&& ops.last() == (DrawView::Lines {
                area: chunks[i + 3 + c],
                lines: seq![model.status_row()],
            })
            &&& ops.len() >= rule.len() + draft.len() + c
            &&& forall|k: int| 0 <= k < rule.len() ==> #[trigger] ops[k] == rule[k]
            &&& forall|k: int| 0 <= k < draft.len() ==> #[trigger] draft[k] == ops[rule.len() + k]
            &&& c == 1 ==> ops[rule.len() + draft.len() as int] == (DrawView::Lines {
                area: chunks[i + 2],
                lines: seq![model.command_row()],
            })
        }),
{
}

/// A question and the skills that are offered are drawn in their own parts, and
/// only while there are any.
pub proof fn questions_and_skills_are_drawn(model: ModelView, width: u16, chunks: Seq<Rect>)
    ensures
        ({
            let ops = model.overlay_ops(width, chunks);
            &&& model.picker is None && model.popup is None ==> ops.len() == 0
            &&& model.picker is None && model.popup is Some && model.popup->0.filtered.len() > 0
                ==> ops =~= seq![
                DrawView::Lines {
                    area: chunks[1],
                    lines: model.popup->0.visible(chunks[1].height),
                },
            ]
            &&& model.picker is Some && model.popup is None && model.picker_rows(width) > 0 ==> ops
                =~= picker_ops(model.picker->0, chunks[1])
        }),
{
}

/// A plan under review takes the whole screen, and what it was drawn at is kept
/// for its keys.
pub proof fn plans_take_the_screen(model: ModelView, area: Rect)
    requires
        model.approval is Some,
        area.width > 0,
    ensures
        ({
            let overlay = model.approval->0;
            let (after, ops) = model.approval_drawn(area);
            &&& ops =~= seq![DrawView::Lines { area, lines: overlay.rows(area) }]
            &&& after.approval is Some
            &&& after.approval->0.feedback_width == area.width
            &&& overlay.farthest(area) <= usize::MAX ==> after.approval->0.max_scroll
                == overlay.farthest(area)
            &&& after.approval->0.plan == overlay.plan
            &&& after.approval->0.scroll == overlay.scroll
        }),
{
    reveal(crate::plan_approval::OverlayView::drawn);
}

/// The workspace is drawn from top to bottom: its body, what lies between, and
/// its foot.
pub proof fn workspaces_are_drawn_in_order(
    model: ModelView,
    area: Rect,
    chunks: Seq<Rect>,
    panes: Seq<Rect>,
)
    requires
        model.on_screen() is Workspace,
    ensures
        ({
            let (after, ops) = model.drawn(area, chunks, panes);
            let (m, body) = model.body_drawn(chunks[0], panes);
            let between = model.overlay_ops(area.width, chunks);
            let foot = m.foot_ops(chunks, model.foot_index(area.width));
            &&& after == m
            &&& ops.len() == body.len() + between.len() + foot.len()
            &&& forall|i: int| 0 <= i < body.len() ==> #[trigger] body[i] == ops[i]
            &&& forall|i: int|
                0 <= i < between.len() ==> #[trigger] between[i] == ops[body.len() + i]
            &&& forall|i: int|
                0 <= i < foot.len() ==> #[trigger] foot[i] == ops[body.len() + between.len() + i]
        }),
{
}

/// The transcript takes seven tenths of a shared workspace, the inspector three,
/// with a bar between; a preview leaves a row above it and one below.
pub proof fn panes_have_their_shares(model: ModelView)
    ensures
        model.pane_parts() =~= seq![
            Constraint::Percentage(70),
            Constraint::Length(1),
            Constraint::Percentage(30),
        ],
        model.preview_parts() =~= seq![
            Constraint::Length(1),
            Constraint::Min(1),
            Constraint::Length(1),
        ],
{
}

} // verus!
