//! Scrolling, focus and the sizes of panes.
use vstd::prelude::*;
use crate::composer::{rows_of, rows_view, ComposerVisualRow};
use crate::diff_render::columns_of;
use crate::history_cell::pane_columns;
use crate::question_picker::picker_height;
use crate::subagent_preview::{less, more};
use crate::transcript::{Selection, TranscriptView};
use crate::ui::{
    selection_of, DashboardState, DashboardView, FocusTarget, ModelView, Screen,
    TranscriptSelectState, UiMode, UiModel,
};

verus! {

// ---------------------------------------------------------------------------
// Sizes
// ---------------------------------------------------------------------------

pub open spec fn at_most(a: u16, b: u16) -> u16 {
    if a <= b {
        a
    } else {
        b
    }
}

impl ModelView {
    /// The rows of the composer: those of its text, four at most.
    pub open spec fn composer_rows(self) -> u16 {
        let rows = rows_of(self.composer.text, columns_of(self.terminal_width)).len();
        if rows == 0 {
            1
        } else if rows <= 4 {
            rows as u16
        } else {
            4
        }
    }

    /// The rows that a pending question takes.
    pub open spec fn picker_rows(self, width: u16) -> u16 {
        match self.picker {
            Some(picker) => at_most(picker_height(picker, width), 20),
            None => 0,
        }
    }

    pub open spec fn command_rows(self) -> u16 {
        if self.mode == UiMode::Command {
            1
        } else {
            0
        }
    }

    /// The rows left for the transcript in a terminal of that size.
    pub open spec fn transcript_height(self, width: u16, height: u16) -> u16 {
        if self.screen == Screen::Dashboard {
            columns_of(height) as u16
        } else if self.previews.len() > 0 {
            columns_of(less(height, 2)) as u16
        } else {
            let taken = self.picker_rows(width) + self.command_rows() + self.composer_rows() + 3;
            if height > taken {
                (height - taken) as u16
            } else {
                1
            }
        }
    }

    /// The width at which the transcript will be drawn.
    pub open spec fn width_hint(self, width: u16) -> u16 {
        if self.screen == Screen::Workspace && width >= 110 && self.inspector {
            ((width - 1) * 70 / 100) as u16
        } else {
            columns_of(width) as u16
        }
    }
}

impl UiModel {
    pub fn composer_inner_width(&self) -> (r: usize)
        ensures
            r == columns_of(self@.terminal_width),
    {
        pane_columns(self.terminal_width)
    }

    pub fn composer_height(&self) -> (r: u16)
        ensures
            r == self@.composer_rows(),
    {
        let rows: Vec<ComposerVisualRow> = self.composer.visual_rows(self.composer_inner_width());
        assert(rows_view(self@.composer.text, rows@).len() == rows@.len());
        if rows.len() <= 4 {
            rows.len() as u16
        } else {
            4
        }
    }

    /// The rows that a pending question takes.
    pub fn question_height(&self, width: u16) -> (r: u16)
        requires
            self.wf(),
        ensures
            r == self@.picker_rows(width),
    {
        reveal(crate::ui::picker_ok);
        match &self.question_picker {
            Some(picker) => {
                let wanted: u16 = picker.desired_height(width);
                if wanted <= 20 {
                    wanted
                } else {
                    20
                }
            },
            None => 0,
        }
    }

    pub fn transcript_cache_width_hint(&self, terminal_width: u16) -> (r: u16)
        ensures
            r == self@.width_hint(terminal_width),
    {
        if self.screen == Screen::Workspace && terminal_width >= 110 && self.inspector_visible {
            let available: u32 = (terminal_width - 1) as u32;
            (available * 70 / 100) as u16
        } else {
            pane_columns(terminal_width) as u16
        }
    }

    pub fn transcript_viewport_height(&self, width: u16, height: u16) -> (r: u16)
        requires
            self.wf(),
        ensures
            r == self@.transcript_height(width, height),
    {
        if self.screen == Screen::Dashboard {
            return pane_columns(height) as u16;
        }
        // Full-screen subagent preview: everything except its header and the
        // key-hint footer.
        if self.preview_stack.len() > 0 {
            return pane_columns(height.saturating_sub(2)) as u16;
        }
        // The plan-approval overlay renders full-screen, so it does not
        // subtract from the transcript viewport.
        let picker_height: u16 = self.question_height(width);
        let command_height: u16 = if self.mode == UiMode::Command {
            1
        } else {
            0
        };
        let rows: u16 = height.saturating_sub(picker_height).saturating_sub(2).saturating_sub(
            command_height,
        ).saturating_sub(1).saturating_sub(self.composer_height());
        pane_columns(rows) as u16
    }
}

// ---------------------------------------------------------------------------
// Focus
// ---------------------------------------------------------------------------

impl ModelView {
    pub open spec fn focus_moved(self) -> ModelView {
        ModelView {
            focus: match self.focus {
                FocusTarget::Dashboard => FocusTarget::Transcript,
                FocusTarget::Transcript => if self.inspector {
                    FocusTarget::Inspector
                } else {
                    FocusTarget::Composer
                },
                FocusTarget::Inspector => FocusTarget::Composer,
                FocusTarget::Composer => FocusTarget::Transcript,
                FocusTarget::Overlay => FocusTarget::Transcript,
            },
            ..self
        }
    }

    pub open spec fn with_inspector(self, visible: bool) -> ModelView {
        ModelView {
            inspector: visible,
            focus: if !visible && self.focus == FocusTarget::Inspector {
                FocusTarget::Transcript
            } else {
                self.focus
            },
            ..self
        }
    }
}

impl UiModel {
    pub fn focus_next(&mut self)
        requires
            old(self).wf(),
        ensures
            final(self).wf(),
            final(self)@ == old(self)@.focus_moved(),
    {
        self.focus = match self.focus {
            FocusTarget::Dashboard => FocusTarget::Transcript,
            FocusTarget::Transcript => if self.inspector_visible {
                FocusTarget::Inspector
            } else {
                FocusTarget::Composer
            },
            FocusTarget::Inspector => FocusTarget::Composer,
            FocusTarget::Composer => FocusTarget::Transcript,
            FocusTarget::Overlay => FocusTarget::Transcript,
        };
    }

    pub fn set_inspector_visible(&mut self, visible: bool)
        requires
            old(self).wf(),
        ensures
            final(self).wf(),
            final(self)@ == old(self)@.with_inspector(visible),
    {
        self.inspector_visible = visible;
        if !visible && self.focus == FocusTarget::Inspector {
            self.focus = FocusTarget::Transcript;
        }
    }

    pub fn toggle_inspector_visible(&mut self)
        requires
            old(self).wf(),
        ensures
            final(self).wf(),
            final(self)@ == old(self)@.with_inspector(!old(self)@.inspector),
    {
        let visible: bool = !self.inspector_visible;
        self.set_inspector_visible(visible);
    }
}

// ---------------------------------------------------------------------------
// Dashboard
// ---------------------------------------------------------------------------

/// The sessions that a dashboard of `height` rows shows, two rows each.
pub open spec fn sessions_shown(height: u16) -> nat {
    let n = less(height, 4) / 2;
    if n > 0 {
        n as nat
    } else {
        1
    }
}

impl DashboardView {
    /// The farthest that the sessions scroll.
    pub open spec fn farthest(self, shown: nat) -> nat {
        let room = if shown > 0 {
            shown
        } else {
            1
        };
        if self.items.len() > room {
            (self.items.len() - room) as nat
        } else {
            0
        }
    }

    pub open spec fn last(self) -> usize {
        if self.items.len() > 0 {
            (self.items.len() - 1) as usize
        } else {
            0
        }
    }

    pub open spec fn selecting(self, selected: usize) -> DashboardView {
        DashboardView { selected, ..self }
    }

    /// The dashboard with its selection among the sessions and on screen.
    pub open spec fn with_selection_shown(self, height: u16) -> DashboardView {
        if self.items.len() == 0 {
            DashboardView { selected: 0, scroll_offset: 0, ..self }
        } else {
            let shown = sessions_shown(height);
            let selected = if self.selected < self.last() {
                self.selected
            } else {
                self.last()
            };
            let offset: nat = if selected < self.scroll_offset {
                selected as nat
            } else if selected >= self.scroll_offset + shown {
                (selected + 1 - shown) as nat
            } else {
                self.scroll_offset as nat
            };
            DashboardView {
                selected,
                scroll_offset: if offset < self.farthest(shown) {
                    offset as usize
                } else {
                    self.farthest(shown) as usize
                },
                ..self
            }
        }
    }
}

impl DashboardState {
    pub fn max_scroll_offset(&self, visible_count: usize) -> (r: usize)
        ensures
            r == self@.farthest(visible_count as nat),
    {
        let room: usize = if visible_count > 0 {
            visible_count
        } else {
            1
        };
        self.items.len().saturating_sub(room)
    }

    pub fn last_index(&self) -> (r: usize)
        ensures
            r == self@.last(),
    {
        self.items.len().saturating_sub(1)
    }

    pub fn ensure_selected_visible(&mut self, height: u16)
        ensures
            final(self)@ == old(self)@.with_selection_shown(height),
    {
        if self.items.len() == 0 {
            self.selected = 0;
            self.scroll_offset = 0;
            return;
        }
        let last: usize = self.last_index();
        if self.selected > last {
            self.selected = last;
        }
        let visible_count: usize = visible_sessions(height);
        if self.selected < self.scroll_offset {
            self.scroll_offset = self.selected;
        } else {
            let visible_end: usize = self.scroll_offset.saturating_add(visible_count);
            if self.selected >= visible_end {
                self.scroll_offset = self.selected.saturating_add(1).saturating_sub(visible_count);
            }
        }
        let max_offset: usize = self.max_scroll_offset(visible_count);
        if self.scroll_offset > max_offset {
            self.scroll_offset = max_offset;
        }
    }
}

/// The sessions that a dashboard of `height` rows shows.
pub fn visible_sessions(height: u16) -> (r: usize)
    ensures
        r == sessions_shown(height),
{
    let n: u16 = height.saturating_sub(4) / 2;
    if n > 0 {
        n as usize
    } else {
        1
    }
}

impl UiModel {
    pub fn dashboard_visible_item_count(&self, height: u16) -> (r: usize)
        ensures
            r == sessions_shown(height),
    {
        visible_sessions(height)
    }

    pub fn dashboard_max_scroll_offset(&self, visible_count: usize) -> (r: usize)
        ensures
            r == self@.dashboard.farthest(visible_count as nat),
    {
        self.dashboard.max_scroll_offset(visible_count)
    }

    pub fn dashboard_ensure_selected_visible(&mut self, height: u16)
        requires
            old(self).wf(),
        ensures
            final(self).wf(),
            final(self)@ == (ModelView {
                dashboard: old(self)@.dashboard.with_selection_shown(height),
                ..old(self)@
            }),
    {
        self.dashboard.ensure_selected_visible(height);
    }
}

// ---------------------------------------------------------------------------
// Transcript
// ---------------------------------------------------------------------------

impl ModelView {
    /// The farthest that the transcript scrolls.
    pub open spec fn farthest(self, height: u16) -> u16 {
        self.transcript.farthest(self.config, self.inner_width, true, height)
    }

    pub open spec fn scrolled_up(self, amount: u16) -> ModelView {
        ModelView { scroll: less(self.scroll, amount), auto_scroll: false, ..self }
    }

    pub open spec fn scrolled_down(self, amount: u16, height: u16) -> ModelView {
        let scroll = more(self.scroll, amount, self.farthest(height));
        ModelView { scroll, auto_scroll: scroll >= self.farthest(height), ..self }
    }

    pub open spec fn at_bottom(self, height: u16) -> ModelView {
        ModelView { scroll: self.farthest(height), ..self }
    }

    /// The model when its window follows the stream.
    pub open spec fn followed(self, height: u16) -> ModelView {
        if self.auto_scroll {
            self.at_bottom(height)
        } else {
            self
        }
    }

    /// The model with the selected row on screen.
    pub open spec fn with_selection_shown(self, height: u16) -> ModelView {
        match self.select {
            Some(state) => ModelView {
                scroll: self.transcript.scrolled_to(
                    self.config,
                    selection_of(state),
                    self.inner_width,
                    true,
                    height,
                    self.scroll,
                ),
                ..self
            },
            None => self,
        }
    }
}

impl UiModel {
    pub fn max_scroll(&mut self, viewport_height: u16) -> (r: u16)
        requires
            old(self).wf(),
        ensures
            final(self).wf(),
            final(self)@ == old(self)@,
            r == old(self)@.farthest(viewport_height),
    {
        let width: u16 = self.transcript_inner_width;
        self.transcript.max_scroll(&self.context, width, true, viewport_height)
    }

    pub fn scroll_up(&mut self, amount: u16)
        requires
            old(self).wf(),
        ensures
            final(self).wf(),
            final(self)@ == old(self)@.scrolled_up(amount),
    {
        self.scroll = self.scroll.saturating_sub(amount);
        self.auto_scroll = false;
    }

    pub fn scroll_down(&mut self, amount: u16, viewport_height: u16)
        requires
            old(self).wf(),
        ensures
            final(self).wf(),
            final(self)@ == old(self)@.scrolled_down(amount, viewport_height),
    {
        let max_scroll: u16 = self.max_scroll(viewport_height);
        let wanted: u16 = self.scroll.saturating_add(amount);
        self.scroll = if wanted <= max_scroll {
            wanted
        } else {
            max_scroll
        };
        self.auto_scroll = self.scroll >= max_scroll;
    }

    pub fn scroll_to_bottom(&mut self, viewport_height: u16)
        requires
            old(self).wf(),
        ensures
            final(self).wf(),
            final(self)@ == old(self)@.at_bottom(viewport_height),
    {
        self.scroll = self.max_scroll(viewport_height);
    }

    /// Follows the stream where the window does.
    pub fn follow(&mut self, viewport_height: u16)
        requires
            old(self).wf(),
        ensures
            final(self).wf(),
            final(self)@ == old(self)@.followed(viewport_height),
    {
        if self.auto_scroll {
            self.scroll_to_bottom(viewport_height);
        }
    }

    /// Row range `(start, height)` of the item at `target_idx`, walking items
    /// exactly like the row count: one separator row before each item but the
    /// first, cached heights, and the trailing user rule omitted when nothing
    /// streams below it.
    pub fn transcript_item_row_extent(&mut self, target_idx: usize, width: u16) -> (r: (
        usize,
        usize,
    ))
        requires
            old(self).wf(),
        ensures
            final(self).wf(),
            final(self)@ == old(self)@,
            r == old(self)@.transcript.item_extent(
                old(self)@.config,
                width,
                true,
                target_idx as nat,
            ),
    {
        self.transcript.item_row_extent(&self.context, target_idx, width, true)
    }

    pub fn transcript_selected_row_extent(&mut self, state: TranscriptSelectState, width: u16) -> (r: (
        usize,
        usize,
    ))
        requires
            old(self).wf(),
        ensures
            final(self).wf(),
            final(self)@ == old(self)@,
            r == old(self)@.transcript.selection_extent(
                old(self)@.config,
                width,
                true,
                selection_of(state),
            ),
    {
        let at: Selection = Selection { item: state.selected, entry: state.selected_tool_entry };
        self.transcript.selected_row_extent(&self.context, at, width, true)
    }

    /// Scroll just enough that the selected transcript row is on screen;
    /// selected entries inside batched tool rows scroll independently. Items or
    /// entries taller than the viewport pin to their top.
    pub fn transcript_select_ensure_visible(&mut self, viewport_height: u16)
        requires
            old(self).wf(),
        ensures
            final(self).wf(),
            final(self)@ == old(self)@.with_selection_shown(viewport_height),
    {
        match self.transcript_select {
            Some(state) => {
                let at: Selection = Selection {
                    item: state.selected,
                    entry: state.selected_tool_entry,
                };
                let width: u16 = self.transcript_inner_width;
                let scroll: u16 = self.scroll;
                self.scroll = self.transcript.scroll_to_selection(
                    &self.context,
                    at,
                    width,
                    true,
                    viewport_height,
                    scroll,
                );
            },
            None => {},
        }
    }
}

// ---------------------------------------------------------------------------
// Laws
// ---------------------------------------------------------------------------

/// After any change of it the selection of the dashboard is a session, and on
/// screen.
pub proof fn dashboard_selection_is_visible(dashboard: DashboardView, height: u16)
    requires
        0 < dashboard.items.len() <= usize::MAX,
    ensures
        ({
            let after = dashboard.with_selection_shown(height);
            &&& after.selected < after.items.len()
            &&& after.scroll_offset <= after.selected < after.scroll_offset + sessions_shown(height)
            &&& after.scroll_offset <= after.farthest(sessions_shown(height))
        }),
{
}

/// However the transcript is scrolled, the offset stays within its rows, and
/// scrolling to the bottom follows the stream again.
pub proof fn scrolling_stays_in_range(model: ModelView, amount: u16, height: u16)
    requires
        model.scroll <= model.farthest(height),
    ensures
        model.scrolled_up(amount).scroll <= model.farthest(height),
        model.scrolled_down(amount, height).scroll <= model.farthest(height),
        model.at_bottom(height).scroll == model.farthest(height),
        model.with_selection_shown(height).scroll <= model.farthest(height),
        model.scrolled_down(amount, height).auto_scroll <==> model.scrolled_down(
            amount,
            height,
        ).scroll == model.farthest(height),
{
    reveal(TranscriptView::farthest);
    reveal(TranscriptView::scrolled_to);
}

/// Hiding the inspector never leaves the focus on it.
pub proof fn focus_leaves_hidden_inspector(model: ModelView)
    ensures
        model.with_inspector(false).focus != FocusTarget::Inspector,
        !model.inspector ==> model.focus_moved().focus != FocusTarget::Inspector || model.focus
            == FocusTarget::Inspector,
{
}

/// The composer takes a row for each row of the draft, at least one and four at
/// most.
pub proof fn the_composer_grows_to_four_rows(model: ModelView)
    ensures
        ({
            let width = if model.terminal_width > 0 {
                model.terminal_width as nat
            } else {
                1
            };
            let rows = rows_of(model.composer.text, width).len();
            &&& 1 <= model.composer_rows() <= 4
            &&& 1 <= rows <= 4 ==> model.composer_rows() == rows
            &&& rows > 4 ==> model.composer_rows() == 4
        }),
{
}

/// The transcript gets what the rest of the workspace leaves: the question, the
/// command line, the draft, two rules and the status.
pub proof fn the_transcript_gets_the_rest(model: ModelView, width: u16, height: u16)
    ensures
        ({
            let got = model.transcript_height(width, height);
            let question = model.picker_rows(width);
            let command = if model.mode == UiMode::Command {
                1int
            } else {
                0
            };
            let rest = height - question - command - model.composer_rows() - 3;
            let plain_workspace = model.screen == Screen::Workspace && model.previews.len() == 0;
            &&& got >= 1
            &&& plain_workspace && rest >= 1 ==> got == rest
            &&& plain_workspace && rest < 1 ==> got == 1
            &&& model.picker is None ==> question == 0
            &&& question <= 20
            &&& model.screen == Screen::Dashboard && height > 0 ==> got == height
            &&& model.screen == Screen::Workspace && model.previews.len() > 0 && height > 2 ==> got
                == height - 2
        }),
{
}

/// The inspector takes its share of a wide workspace only.
pub proof fn wide_workspaces_are_shared(model: ModelView, width: u16)
    ensures
        ({
            let shared = model.screen == Screen::Workspace && model.inspector && width >= 110;
            &&& !shared && width > 0 ==> model.width_hint(width) == width
            &&& shared ==> model.width_hint(width) == (width - 1) * 70 / 100
        }),
{
}

/// A session takes two rows of the dashboard, and four rows are taken already.
pub proof fn sessions_take_two_rows(height: u16)
    ensures
        sessions_shown(height) >= 1,
        height >= 6 ==> 2 * sessions_shown(height) <= height - 4 < 2 * sessions_shown(height) + 2,
        height < 6 ==> sessions_shown(height) == 1,
{
}

/// The dashboard scrolls no farther than needed to show the selection.
pub proof fn dashboards_scroll_no_more_than_needed(dashboard: DashboardView, height: u16)
    requires
        dashboard.selected < dashboard.items.len() <= usize::MAX,
        dashboard.scroll_offset <= dashboard.selected < dashboard.scroll_offset + sessions_shown(
            height,
        ),
        dashboard.scroll_offset <= dashboard.farthest(sessions_shown(height)),
    ensures
        dashboard.with_selection_shown(height) == dashboard,
{
}

/// The selected row of the transcript is on screen, or its top is where it does
/// not fit.
pub proof fn selections_are_brought_on_screen(model: ModelView, height: u16)
    ensures
        model.select is None ==> model.with_selection_shown(height) == model,
        model.with_selection_shown(height) == (ModelView {
            scroll: model.with_selection_shown(height).scroll,
            ..model
        }),
{
}

} // verus!
