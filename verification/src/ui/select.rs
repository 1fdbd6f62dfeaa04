//! Transcript-select mode: a row of the transcript is selected to be copied or
//! opened.
use vstd::prelude::*;
use crate::copying::{
    choice_of, choose_copy, chord_completes, completes, copy_notice, CopyChoice, GOTO_CHORD_WINDOW,
};
use crate::history_cell::{GroupView, KindView};
use crate::keys::{KeyCode, KeyEvent};
use crate::subagent_preview::{enter_row, entered_row, PreviewOutcome};
use crate::text::within_bytes;
use crate::transcript::Selection;
use crate::ui::input::plain_key;
use crate::ui::{
    effect_views, nothing, selection_of, ContextView, EffectKindView, EffectView, FocusTarget,
    ModelView, Screen, TranscriptSelectState, UiEffect, UiMode, UiModel,
};

verus! {

/// A selection without any chord armed.
pub open spec fn selected_state(at: Selection) -> TranscriptSelectState {
    TranscriptSelectState {
        selected: at.item,
        selected_tool_entry: at.entry,
        pending_args: None,
        pending_g: None,
    }
}

impl ModelView {
    /// The selection goes on with `state`.
    pub open spec fn with_select(self, state: TranscriptSelectState) -> ModelView {
        ModelView { select: Some(state), ..self }
    }

    /// Transcript-select mode starts on the last row.
    #[verifier::opaque]
    pub open spec fn select_entered(self) -> ModelView {
        if self.screen != Screen::Workspace || self.mode != UiMode::Normal {
            self
        } else if self.transcript.items.len() == 0 {
            self.saying("Transcript is empty"@)
        } else {
            (ModelView {
                mode: UiMode::TranscriptSelect,
                focus: FocusTarget::Transcript,
                auto_scroll: false,
                ..self
            }).with_select(
                selected_state(
                    self.transcript.selected_at(self.transcript.last_item(), true),
                ),
            ).with_selection_shown(self.viewport).saying("Transcript select"@)
        }
    }

    /// The selection moves, and is brought on screen.
    pub open spec fn selected_to(self, at: Selection) -> (ModelView, Seq<EffectView>) {
        self.with_select(selected_state(at)).with_selection_shown(self.viewport).quietly()
    }

    /// `y` on the selected row.
    #[verifier::opaque]
    pub open spec fn row_copied(self, state: TranscriptSelectState, now: u64) -> (
        ModelView,
        Seq<EffectView>,
    ) {
        if state.selected >= self.transcript.items.len() {
            self.with_select(state).quietly()
        } else {
            let choice = choice_of(
                self.transcript.items[state.selected as int],
                selection_of(state),
                state.pending_args,
                now,
            );
            let m = self.with_select(
                TranscriptSelectState { pending_args: choice.pending, ..state },
            );
            match choice.payload {
                Some(payload) => m.copying(payload, choice.status),
                None => m.saying(choice.status).quietly(),
            }
        }
    }

    /// Enter on the selected row.
    #[verifier::opaque]
    pub open spec fn row_entered(self, state: TranscriptSelectState) -> (
        ModelView,
        Seq<EffectView>,
    ) {
        self.with_select(state).preview_served(
            entered_row(
                self.transcript.group_at(state.selected),
                state.selected_tool_entry,
            ),
        )
    }

    #[verifier::opaque]
    pub open spec fn select_keyed(self, key: KeyEvent, now: u64) -> (ModelView, Seq<EffectView>) {
        match self.select {
            None => self.select_left().quietly(),
            Some(state) => {
                let t = self.transcript;
                match key.code {
                    KeyCode::Esc | KeyCode::Char('q') => self.select_left().quietly(),
                    KeyCode::Up | KeyCode::Char('k') => self.selected_to(
                        t.selected_above(selection_of(state)),
                    ),
                    KeyCode::Down | KeyCode::Char('j') => self.selected_to(
                        t.selected_below(selection_of(state)),
                    ),
                    KeyCode::Char('g') => if completes(state.pending_g, now, GOTO_CHORD_WINDOW) {
                        self.selected_to(t.selected_at(0, false))
                    } else {
                        self.with_select(
                            TranscriptSelectState {
                                pending_args: None,
                                pending_g: Some(now),
                                ..state
                            },
                        ).quietly()
                    },
                    KeyCode::Home => self.selected_to(t.selected_at(0, false)),
                    KeyCode::End | KeyCode::Char('G') => self.selected_to(
                        t.selected_at(t.last_item(), true),
                    ),
                    KeyCode::Char('y') => self.row_copied(
                        TranscriptSelectState { pending_g: None, ..state },
                        now,
                    ),
                    KeyCode::Enter => self.row_entered(selected_state(selection_of(state))),
                    _ => self.quietly(),
                }
            },
        }
    }
}

impl UiModel {
    /// Enter transcript-select mode (double-Esc). Selection starts on the last
    /// transcript row; follow-mode is suspended so streaming output doesn't
    /// yank the view while the user navigates.
    pub fn enter_transcript_select(&mut self)
        requires
            old(self).wf(),
        ensures
            final(self).wf(),
            final(self)@ == old(self)@.select_entered(),
    {
        reveal(ModelView::select_entered);
        if self.screen != Screen::Workspace || self.mode != UiMode::Normal {
            return;
        }
        if self.transcript.items.len() == 0 {
            self.set_status("Transcript is empty");
            return;
        }
        self.mode = UiMode::TranscriptSelect;
        self.focus = FocusTarget::Transcript;
        self.auto_scroll = false;
        let last: usize = self.transcript.last_index();
        let at: Selection = self.transcript.select(last, true);
        self.transcript_select = Some(unarmed_state(at));
        self.transcript_select_ensure_visible(self.viewport_height);
        self.set_status("Transcript select");
    }

    fn move_selection(&mut self, at: Selection) -> (r: Vec<UiEffect>)
        requires
            old(self).wf(),
        ensures
            final(self).wf(),
            (final(self)@, effect_views(r@)) == old(self)@.selected_to(at),
    {
        self.transcript_select = Some(unarmed_state(at));
        self.transcript_select_ensure_visible(self.viewport_height);
        nothing()
    }

    /// `y` in transcript-select mode. Tool rows copy their result first; a
    /// second `y` within the chord window upgrades the clipboard to the tool
    /// arguments. Rows with nothing finished yet fall back to the arguments.
    pub fn copy_selected_transcript_row(&mut self, state: TranscriptSelectState, now: u64) -> (r:
        Vec<UiEffect>)
        requires
            old(self).wf(),
        ensures
            final(self).wf(),
            (final(self)@, effect_views(r@)) == old(self)@.row_copied(state, now),
    {
        reveal(ModelView::row_copied);
        if state.selected >= self.transcript.items.len() {
            self.transcript_select = Some(state);
            return nothing();
        }
        let at: Selection = Selection { item: state.selected, entry: state.selected_tool_entry };
        assert(self@.transcript.items[state.selected as int]
            == self.transcript.items@[state.selected as int]@);
        let choice: CopyChoice = choose_copy(
            &self.transcript.items[state.selected],
            at,
            state.pending_args,
            now,
        );
        self.transcript_select = Some(
            TranscriptSelectState {
                selected: state.selected,
                selected_tool_entry: state.selected_tool_entry,
                pending_args: choice.pending,
                pending_g: state.pending_g,
            },
        );
        match choice.payload {
            Some(payload) => self.copy_text(payload, choice.status.as_str()),
            None => {
                self.status_line = choice.status;
                nothing()
            },
        }
    }

    /// Enter in transcript-select mode: open the selected `spawn_agent` row's
    /// subagent session as a live preview. The selection and scroll state are
    /// left untouched, so closing the preview restores this view exactly.
    pub fn goto_selected_subagent(&mut self, state: TranscriptSelectState) -> (r: Vec<UiEffect>)
        requires
            old(self).wf(),
        ensures
            final(self).wf(),
            (final(self)@, effect_views(r@)) == old(self)@.row_entered(state),
    {
        reveal(ModelView::row_entered);
        self.transcript_select = Some(state);
        let outcome: PreviewOutcome = enter_row(
            self.transcript.group(state.selected),
            state.selected_tool_entry,
        );
        self.serve_preview(outcome)
    }

    pub fn handle_transcript_select_key(&mut self, key_event: KeyEvent, now: u64) -> (r: Vec<
        UiEffect,
    >)
        requires
            old(self).wf(),
        ensures
            final(self).wf(),
            (final(self)@, effect_views(r@)) == old(self)@.select_keyed(key_event, now),
    {
        reveal(ModelView::select_keyed);
        let state: TranscriptSelectState = match self.transcript_select {
            Some(state) => state,
            None => {
                self.exit_transcript_select();
                return nothing();
            },
        };
        let at: Selection = Selection { item: state.selected, entry: state.selected_tool_entry };
        match key_event.code {
            // Unlike Normal mode, `q` exits the selection, not the app.
            KeyCode::Esc | KeyCode::Char('q') => {
                self.exit_transcript_select();
                nothing()
            },
            KeyCode::Up | KeyCode::Char('k') => {
                let to: Selection = self.transcript.selection_above(at);
                self.move_selection(to)
            },
            KeyCode::Down | KeyCode::Char('j') => {
                let to: Selection = self.transcript.selection_below(at);
                self.move_selection(to)
            },
            // `g` is a prefix: `gg` jumps to the top. `Home` keeps the direct
            // jump.
            KeyCode::Char('g') => {
                if chord_completes(state.pending_g, now, GOTO_CHORD_WINDOW) {
                    let to: Selection = self.transcript.select(0, false);
                    self.move_selection(to)
                } else {
                    self.transcript_select = Some(
                        TranscriptSelectState {
                            selected: state.selected,
                            selected_tool_entry: state.selected_tool_entry,
                            pending_args: None,
                            pending_g: Some(now),
                        },
                    );
                    nothing()
                }
            },
            KeyCode::Home => {
                let to: Selection = self.transcript.select(0, false);
                self.move_selection(to)
            },
            KeyCode::End | KeyCode::Char('G') => {
                let last: usize = self.transcript.last_index();
                let to: Selection = self.transcript.select(last, true);
                self.move_selection(to)
            },
            KeyCode::Char('y') => self.copy_selected_transcript_row(
                TranscriptSelectState {
                    selected: state.selected,
                    selected_tool_entry: state.selected_tool_entry,
                    pending_args: state.pending_args,
                    pending_g: None,
                },
                now,
            ),
            KeyCode::Enter => self.goto_selected_subagent(unarmed_state(at)),
            _ => nothing(),
        }
    }
}

fn unarmed_state(at: Selection) -> (r: TranscriptSelectState)
    ensures
        r == selected_state(at),
{
    TranscriptSelectState {
        selected: at.item,
        selected_tool_entry: at.entry,
        pending_args: None,
        pending_g: None,
    }
}

// ---------------------------------------------------------------------------
// Laws
// ---------------------------------------------------------------------------

/// While rows are there, transcript-select mode has one of them selected: it
/// starts on the last one, and no key takes the selection off the transcript.
pub proof fn selected_row_exists(model: ModelView, key: KeyEvent, now: u64)
    requires
        0 < model.transcript.items.len() <= usize::MAX,
        model.select matches Some(state) && state.selected < model.transcript.items.len(),
    ensures
        model.select_keyed(key, now).0.select matches Some(state) ==> state.selected
            < model.transcript.items.len(),
        model.select_keyed(key, now).0.transcript == model.transcript,
{
    reveal(ModelView::preview_served);
    reveal(ModelView::select_keyed);
    reveal(ModelView::row_copied);
    reveal(ModelView::row_entered);
}

/// Leaving the mode with Esc goes back to Normal mode, and never leaves the
/// program.
pub proof fn select_mode_is_left_quietly(model: ModelView, key: KeyEvent, now: u64)
    requires
        key.code == KeyCode::Esc || key.code == KeyCode::Char('q'),
        model.mode == UiMode::TranscriptSelect,
    ensures
        model.select_keyed(key, now).0.mode == UiMode::Normal,
        model.select_keyed(key, now).0.select is None,
        model.select_keyed(key, now).1.len() == 0,
{
    reveal(ModelView::select_keyed);
}

impl ModelView {
    /// The keys belong to the selection of transcript rows.
    pub open spec fn selecting_rows(self) -> bool {
        self.in_workspace() && self.mode == UiMode::TranscriptSelect && self.select is Some
    }
}

/// In the transcript's selection, Up and `k` take a step up, Down and `j` one
/// down, Home goes to the first row, End and `G` go to the last one; no chord
/// is left armed.
pub proof fn select_keys_move_the_selection(model: ModelView, now: u64)
    requires
        model.selecting_rows(),
    ensures
        ({
            let t = model.transcript;
            let at = selection_of(model.select->0);
            let up = model.keyed(plain_key(KeyCode::Up), now).0;
            let down = model.keyed(plain_key(KeyCode::Down), now).0;
            let home = model.keyed(plain_key(KeyCode::Home), now).0;
            let end = model.keyed(plain_key(KeyCode::End), now).0;
            &&& up.select is Some && selection_of(up.select->0) == t.selected_above(at)
            &&& up.select->0.pending_args is None && up.select->0.pending_g is None
            &&& model.keyed(plain_key(KeyCode::Char('k')), now).0 == up
            &&& down.select is Some && selection_of(down.select->0) == t.selected_below(at)
            &&& down.select->0.pending_args is None && down.select->0.pending_g is None
            &&& model.keyed(plain_key(KeyCode::Char('j')), now).0 == down
            &&& home.select is Some && selection_of(home.select->0) == t.selected_at(0, false)
            &&& end.select is Some && selection_of(end.select->0) == t.selected_at(
                t.last_item(),
                true,
            )
            &&& model.keyed(plain_key(KeyCode::Char('G')), now).0 == end
            &&& up.mode == model.mode && down.mode == model.mode
            &&& up.transcript == t && down.transcript == t
        }),
{
    reveal(ModelView::pressed);
    reveal(ModelView::select_keyed);
}

/// `g` alone only arms the chord; a second `g` within half a second goes to the
/// first row.
pub proof fn double_g_selects_the_first_row(model: ModelView, now: u64, later: u64)
    requires
        model.selecting_rows(),
        model.select->0.pending_g is None,
        now <= later,
    ensures
        ({
            let once = model.keyed(plain_key(KeyCode::Char('g')), now).0;
            let twice = once.keyed(plain_key(KeyCode::Char('g')), later).0;
            let at = selection_of(model.select->0);
            &&& once.select is Some
            &&& selection_of(once.select->0) == at
            &&& once.scroll == model.scroll
            &&& twice.select is Some
            &&& later - now <= 500_000_000 ==> twice.select->0.selected == 0
            &&& later - now > 500_000_000 ==> selection_of(twice.select->0) == at
        }),
{
    reveal(ModelView::pressed);
    reveal(ModelView::select_keyed);
}

/// `y` copies what the selected row gives, and says so.
pub proof fn selected_rows_are_copied(model: ModelView, now: u64)
    requires
        model.selecting_rows(),
        model.select->0.selected < model.transcript.items.len(),
    ensures
        ({
            let state = model.select->0;
            let choice = choice_of(
                model.transcript.items[state.selected as int],
                selection_of(state),
                state.pending_args,
                now,
            );
            let (after, effects) = model.keyed(plain_key(KeyCode::Char('y')), now);
            &&& after.select is Some
            &&& selection_of(after.select->0) == selection_of(state)
            &&& after.select->0.pending_args == choice.pending
            &&& choice.payload is None ==> effects.len() == 0 && after.status == choice.status
            &&& choice.payload is Some ==> after.asks_for(
                effects,
                EffectKindView::CopyToClipboard {
                    content: within_bytes(choice.payload->0, 100_000),
                },
                ContextView::Clipboard,
            ) && after.status == copy_notice(choice.status, choice.payload->0)
        }),
{
    reveal(ModelView::pressed);
    reveal(ModelView::select_keyed);
    reveal(ModelView::row_copied);
}

/// Enter opens the thread that the selected call started; a row without one
/// opens nothing and says why.
pub proof fn selected_threads_are_opened(model: ModelView, group: GroupView, e: int, now: u64)
    requires
        model.selecting_rows(),
        model.select->0.selected < model.transcript.items.len(),
        model.transcript.items[model.select->0.selected as int].kind == KindView::Group(group),
        0 <= e < group.entries.len(),
        group.entries.len() == 1 ==> e == 0,
        group.entries.len() > 1 ==> model.select->0.selected_tool_entry is Some
            && model.select->0.selected_tool_entry->0 == e,
    ensures
        ({
            let (after, effects) = model.keyed(plain_key(KeyCode::Enter), now);
            let thread = group.entries[e].related;
            &&& thread is Some ==> after.asks_for(
                effects,
                EffectKindView::ThreadPreview { thread: thread->0 },
                ContextView::ThreadPreview { thread: thread->0 },
            ) && after.forward.len() == 0 && after.status == "Opening subagent…"@
            &&& thread is None ==> effects.len() == 0
            &&& thread is None && group.name == "spawn_agent"@ ==> after.status
                == "Subagent not started yet — no session to open"@
            &&& thread is None && group.name != "spawn_agent"@ ==> after.status
                == "Not a subagent row (Enter opens spawn_agent sessions)"@
        }),
{
    reveal(ModelView::pressed);
    reveal(ModelView::select_keyed);
    reveal(ModelView::row_entered);
    reveal(ModelView::preview_served);
}

/// The selection starts on the last row, shows it and stops following the
/// stream; an empty transcript has nothing to select.
pub proof fn selecting_starts_at_the_end(model: ModelView)
    requires
        model.reading(),
        model.transcript.items.len() <= usize::MAX,
    ensures
        ({
            let after = model.select_entered();
            &&& model.transcript.items.len() == 0 ==> after == (ModelView {
                status: "Transcript is empty"@,
                ..model
            })
            &&& model.transcript.items.len() > 0 ==> {
                &&& after.mode == UiMode::TranscriptSelect
                &&& after.focus == FocusTarget::Transcript
                &&& !after.auto_scroll
                &&& after.status == "Transcript select"@
                &&& after.select is Some
                &&& after.select->0.selected == model.transcript.items.len() - 1
                &&& after.select->0.pending_args is None
                &&& after.select->0.pending_g is None
            }
        }),
{
    reveal(ModelView::select_entered);
}

} // verus!
