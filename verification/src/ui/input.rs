//! What keys and pasted text do.
use vstd::prelude::*;
use crate::composer::{line_end, line_start, lines_lie_between_line_feeds, ComposerView};
use crate::copying::{chord_completes, completes, DOUBLE_ESC_WINDOW};
use crate::diff_render::columns_of;
use crate::history_cell::{answer_rows, error_kind, info_kind, KindView};
use crate::keys::{
    no_modifiers, only_control, types_text, KeyCode, KeyEvent, KeyEventKind, KeyModifiers,
    TerminalEvent,
};
use crate::plan_approval::{
    ApprovalOutcomeView, OverlayView, PlanApprovalOutcome, PlanApprovalOverlay,
};
use crate::protocol::{opt_text, JsonRpcError, RequestId, RpcErrorView, ThreadId};
use crate::question_picker::{OutcomeView, PickerOutcome, PickerView, QuestionPicker};
use crate::skill_popup::{dup_skills, matching, PopupView, SkillPopup};
use crate::subagent_preview::less;
use crate::text::{
    blank_texts_are_white_space, chars_of, owned, same_text, string_of, trim_start, white_space, with_breaks,
};
use crate::transcript::TranscriptView;
use crate::ui::protocol::prefixed;
use crate::ui::scroll::{sessions_shown, visible_sessions};
use crate::ui::{
    effect_views, nothing, ContextView, DashboardView, EffectContext, EffectKindView, EffectView,
    FocusTarget, ModelView, Screen, UiEffect, UiEffectKind, UiMode, UiModel,
};

verus! {

// ---------------------------------------------------------------------------
// Words
// ---------------------------------------------------------------------------

/// The index of the first white space at or after `i`, or the end.
pub open spec fn first_space(text: Seq<char>, i: nat) -> nat
    decreases text.len() - i,
{
    if i >= text.len() {
        text.len()
    } else if white_space(text[i as int]) {
        i
    } else {
        first_space(text, i + 1)
    }
}

/// The first word of a text; empty where there is none.
pub open spec fn first_word(text: Seq<char>) -> Seq<char> {
    let start = trim_start(text);
    start.take(first_space(start, 0) as int)
}

/// What follows the first word.
pub open spec fn after_first_word(text: Seq<char>) -> Seq<char> {
    let start = trim_start(text);
    start.skip(first_space(start, 0) as int)
}

pub open spec fn second_word(text: Seq<char>) -> Seq<char> {
    first_word(after_first_word(text))
}

proof fn lemma_first_space(text: Seq<char>, i: nat)
    requires
        i <= text.len(),
    ensures
        i <= first_space(text, i) <= text.len(),
    decreases text.len() - i,
{
    if i < text.len() && !white_space(text[i as int]) {
        lemma_first_space(text, i + 1);
    }
}

/// The index of the first white space of `chars`, or the end.
fn find_space(chars: &Vec<char>) -> (r: usize)
    ensures
        r == first_space(chars@, 0),
        r <= chars@.len(),
{
    let mut i: usize = 0;
    while i < chars.len()
        invariant
            i <= chars@.len(),
            first_space(chars@, 0) == first_space(chars@, i as nat),
        decreases chars@.len() - i,
    {
        if chars[i].is_whitespace() {
            return i;
        }
        i += 1;
    }
    i
}

/// The first word of a text and what follows it.
fn split_word(text: &str) -> (r: (String, String))
    ensures
        r.0@ == first_word(text@),
        r.1@ == after_first_word(text@),
{
    let chars: Vec<char> = chars_of(text);
    let mut i: usize = 0;
    assert(text@.skip(0) =~= text@);
    while i < chars.len() && chars[i].is_whitespace()
        invariant
            chars@ == text@,
            i <= chars@.len(),
            trim_start(text@) == trim_start(text@.skip(i as int)),
        decreases chars@.len() - i,
    {
        assert(text@.skip(i as int)[0] == text@[i as int]);
        assert(text@.skip(i as int).drop_first() =~= text@.skip(i + 1));
        i += 1;
    }
    let rest: String = string_of(&chars, i, chars.len());
    assert(rest@ =~= text@.skip(i as int));
    assert(trim_start(text@) == rest@) by {
        if i < chars@.len() {
            assert(text@.skip(i as int)[0] == text@[i as int]);
        }
    }
    let tail: Vec<char> = chars_of(rest.as_str());
    let end: usize = find_space(&tail);
    let word: String = string_of(&tail, 0, end);
    let after: String = string_of(&tail, end, tail.len());
    assert(word@ =~= rest@.take(end as int));
    assert(after@ =~= rest@.skip(end as int));
    (word, after)
}

// ---------------------------------------------------------------------------
// Skills
// ---------------------------------------------------------------------------

pub open spec fn has_space(text: Seq<char>) -> bool {
    exists|i: int| 0 <= i < text.len() && white_space(#[trigger] text[i])
}

/// What is typed behind a leading slash, up to the cursor, while the cursor
/// sits in that word.
pub open spec fn skill_query(composer: ComposerView) -> Option<Seq<char>> {
    if composer.text.len() > 0 && composer.text[0] == '/' && composer.cursor >= 1 {
        let typed = composer.text.subrange(1, composer.cursor as int);
        if has_space(typed) {
            None
        } else {
            Some(typed)
        }
    } else {
        None
    }
}

/// The popup for a query, where any skill matches.
pub open spec fn popup_for(popup: PopupView, query: Seq<char>) -> Option<PopupView> {
    let asked = popup.queried(query);
    if asked.filtered.len() == 0 {
        None
    } else {
        Some(asked)
    }
}

/// The text with its leading slash word completed.
pub open spec fn completed_text(text: Seq<char>, name: Seq<char>) -> Seq<char> {
    let rest = text.skip(first_space(text, 0) as int);
    if rest.len() == 0 {
        "/"@ + name + " "@
    } else {
        "/"@ + name + rest
    }
}

impl ModelView {
    /// The popup as the composer wants it: open while a skill may be named.
    #[verifier::opaque]
    pub open spec fn popup_synced(self) -> ModelView {
        ModelView {
            popup: match skill_query(self.composer) {
                None => None,
                Some(query) => match self.popup {
                    Some(popup) => popup_for(popup, query),
                    None => if self.skills.len() == 0 {
                        None
                    } else {
                        popup_for(
                            PopupView {
                                skills: self.skills,
                                filtered: Seq::new(self.skills.len(), |i: int| i as usize),
                                selected: 0,
                            },
                            query,
                        )
                    },
                },
            },
            ..self
        }
    }

    /// The selected skill is named in the composer.
    #[verifier::opaque]
    pub open spec fn skill_accepted(self) -> ModelView {
        let name = match self.popup {
            Some(popup) => popup.chosen(),
            None => None,
        };
        match name {
            Some(n) => ModelView {
                popup: None,
                ..self.with_draft(completed_text(self.composer.text, n))
            },
            None => ModelView { popup: None, ..self },
        }
    }
}

impl UiModel {
    /// Query for the skill popup: the text after the leading slash, up to the
    /// cursor, while the cursor sits inside a leading `/token` (no whitespace
    /// between the slash and the cursor), `None` otherwise.
    pub fn skill_popup_query(&self) -> (r: Option<String>)
        requires
            self.wf(),
        ensures
            opt_text(r) == skill_query(self@.composer),
    {
        let chars: Vec<char> = chars_of(self.composer.as_str());
        let cursor: usize = self.composer.cursor_index();
        proof {
            self.composer.lemma_cursor_in_text();
        }
        if chars.len() == 0 || chars[0] != '/' || cursor < 1 {
            return None;
        }
        let ghost typed = self@.composer.text.subrange(1, cursor as int);
        let mut i: usize = 1;
        while i < cursor
            invariant
                chars@ == self@.composer.text,
                chars@[0] == '/',
                cursor == self@.composer.cursor,
                1 <= i <= cursor <= chars@.len(),
                typed == self@.composer.text.subrange(1, cursor as int),
                forall|j: int| 0 <= j < i - 1 ==> !white_space(#[trigger] typed[j]),
            decreases cursor - i,
        {
            assert(typed[i - 1] == chars@[i as int]);
            if chars[i].is_whitespace() {
                return None;
            }
            i += 1;
        }
        Some(string_of(&chars, 1, cursor))
    }

    /// Open, refresh, or dismiss the skill popup to match the composer state.
    /// The skills are those last scanned when the popup transitions to open, so
    /// newly added skills show up without restarting.
    pub fn sync_skill_popup(&mut self)
        requires
            old(self).wf(),
        ensures
            final(self).wf(),
            final(self)@ == old(self)@.popup_synced(),
    {
        reveal(crate::ui::popup_ok);
        reveal(ModelView::popup_synced);
        let query: String = match self.skill_popup_query() {
            Some(query) => query,
            None => {
                self.skill_popup = None;
                return;
            },
        };
        let mut popup: Option<SkillPopup> = None;
        core::mem::swap(&mut popup, &mut self.skill_popup);
        let mut opened: SkillPopup = match popup {
            Some(popup) => popup,
            None => {
                if self.available_skills.len() == 0 {
                    return;
                }
                SkillPopup::new(dup_skills(&self.available_skills))
            },
        };
        opened.set_query(query.as_str());
        if !opened.is_empty() {
            self.skill_popup = Some(opened);
        }
    }

    /// Replace the leading `/token` in the composer with the selected skill
    /// name and close the popup, leaving the cursor at the end of the text.
    pub fn accept_skill_completion(&mut self)
        requires
            old(self).wf(),
        ensures
            final(self).wf(),
            final(self)@ == old(self)@.skill_accepted(),
    {
        reveal(crate::ui::popup_ok);
        reveal(ModelView::skill_accepted);
        let name: Option<String> = match &self.skill_popup {
            Some(popup) => match popup.selected_name() {
                Some(name) => Some(owned(name)),
                None => None,
            },
            None => None,
        };
        self.skill_popup = None;
        match name {
            Some(name) => {
                let text: String = self.composer.take_text();
                let chars: Vec<char> = chars_of(text.as_str());
                let token_end: usize = find_space(&chars);
                let remainder: String = string_of(&chars, token_end, chars.len());
                assert(remainder@ =~= text@.skip(token_end as int));
                let mut replaced: String = owned("/");
                replaced.push_str(name.as_str());
                if remainder.as_str().is_empty() {
                    replaced.push_str(" ");
                } else {
                    replaced.push_str(remainder.as_str());
                }
                self.composer.set_text(replaced);
            },
            None => {},
        }
    }
}

// ---------------------------------------------------------------------------
// Insert mode
// ---------------------------------------------------------------------------

/// Enter submits only with Ctrl.
pub open spec fn submits(key: KeyEvent) -> bool {
    key.code == KeyCode::Enter && key.modifiers.control
}

/// Enter submits only with Ctrl. Cmd/Super is intentionally not accepted:
/// macOS terminals reserve Cmd for their own bindings (e.g. Ghostty maps
/// `super+enter` to toggle-fullscreen), so it never reaches the app.
/// Distinguishing Ctrl+Enter from a bare Enter requires the kitty keyboard
/// protocol.
pub fn is_submit_key(key_event: KeyEvent) -> (r: bool)
    ensures
        r == submits(key_event),
{
    key_event.code == KeyCode::Enter && key_event.modifiers.control
}

/// The draft after a key that edits it.
pub open spec fn edited(c: ComposerView, key: KeyEvent, width: nat) -> ComposerView {
    match key.code {
        KeyCode::Enter => c.with_inserted(seq!['\n']),
        KeyCode::Backspace => c.backspaced(),
        KeyCode::Delete => c.deleted(),
        KeyCode::Tab => c.with_inserted("    "@),
        KeyCode::Left => c.moved_left(),
        KeyCode::Right => c.moved_right(),
        KeyCode::Up => c.moved_up(width),
        KeyCode::Down => c.moved_down(width),
        KeyCode::Home => c.moved_to(line_start(c.text, c.cursor)),
        KeyCode::End => c.moved_to(line_end(c.text, c.cursor)),
        KeyCode::Char(ch) => if types_text(key.modifiers) {
            c.with_inserted(seq![ch])
        } else {
            c
        },
        _ => c,
    }
}

impl ModelView {
    /// A key in the composer.
    #[verifier::opaque]
    pub open spec fn draft_keyed(self, key: KeyEvent, now: u64) -> (ModelView, Seq<EffectView>) {
        if key.code == KeyCode::Esc {
            // The chord is armed so Esc-Esc from the composer reaches
            // transcript-select mode.
            (ModelView {
                mode: UiMode::Normal,
                focus: FocusTarget::Transcript,
                last_esc: Some(now),
                ..self
            }).quietly()
        } else if submits(key) {
            self.insert_turn_requested()
        } else if key.code == KeyCode::BackTab {
            self.plan_toggled()
        } else {
            (ModelView {
                composer: edited(self.composer, key, columns_of(self.terminal_width)),
                ..self
            }).quietly()
        }
    }

    /// A key that the skill popup takes for itself, where it does.
    #[verifier::opaque]
    pub open spec fn popup_keyed(self, key: KeyEvent) -> Option<(ModelView, Seq<EffectView>)> {
        match self.popup {
            Some(popup) => if submits(key) {
                Some((ModelView { popup: None, ..self }).insert_turn_requested())
            } else {
                match key.code {
                    KeyCode::Esc => Some((ModelView { popup: None, ..self }).quietly()),
                    KeyCode::Up => Some(
                        (ModelView { popup: Some(popup.moved_up()), ..self }).quietly(),
                    ),
                    KeyCode::Down => Some(
                        (ModelView { popup: Some(popup.moved_down()), ..self }).quietly(),
                    ),
                    KeyCode::Tab => Some(self.skill_accepted().quietly()),
                    KeyCode::Enter => Some(self.skill_accepted().quietly()),
                    _ => None,
                }
            },
            None => None,
        }
    }

    #[verifier::opaque]
    pub open spec fn insert_keyed(self, key: KeyEvent, now: u64) -> (ModelView, Seq<EffectView>) {
        match self.popup_keyed(key) {
            Some(result) => result,
            None => {
                let (m, effects) = self.draft_keyed(key, now);
                (m.popup_synced(), effects)
            },
        }
    }
}

impl UiModel {
    fn edit_draft(&mut self, key_event: KeyEvent, now: u64) -> (r: Vec<UiEffect>)
        requires
            old(self).wf(),
        ensures
            final(self).wf(),
            (final(self)@, effect_views(r@)) == old(self)@.draft_keyed(key_event, now),
    {
        reveal(ModelView::draft_keyed);
        if is_submit_key(key_event) {
            return self.request_insert_turn_start();
        }
        let width: usize = self.composer_inner_width();
        match key_event.code {
            KeyCode::Esc => {
                self.mode = UiMode::Normal;
                self.focus = FocusTarget::Transcript;
                self.last_esc = Some(now);
            },
            KeyCode::BackTab => {
                return self.request_plan_toggle();
            },
            KeyCode::Enter => self.composer.insert_char('\n'),
            KeyCode::Backspace => self.composer.backspace(),
            KeyCode::Delete => self.composer.delete(),
            KeyCode::Tab => {
                proof {
                    reveal_strlit("    ");
                }
                self.composer.insert_str("    ");
            },
            KeyCode::Left => self.composer.move_left(),
            KeyCode::Right => self.composer.move_right(),
            KeyCode::Up => self.composer.move_visual_up(width),
            KeyCode::Down => self.composer.move_visual_down(width),
            KeyCode::Home => self.composer.move_line_start(),
            KeyCode::End => self.composer.move_line_end(),
            KeyCode::Char(ch) => {
                if key_event.modifiers.types() {
                    self.composer.insert_char(ch);
                }
            },
            _ => {},
        }
        nothing()
    }

    /// The skill popup is an Insert-mode adornment: it intercepts only
    /// navigation/accept/dismiss keys.
    fn offer_to_popup(&mut self, key_event: KeyEvent) -> (r: Option<Vec<UiEffect>>)
        requires
            old(self).wf(),
        ensures
            final(self).wf(),
            match r {
                Some(effects) => old(self)@.popup_keyed(key_event) == Some(
                    (final(self)@, effect_views(effects@)),
                ),
                None => old(self)@.popup_keyed(key_event) is None && final(self)@ == old(self)@,
            },
    {
        reveal(crate::ui::popup_ok);
        reveal(ModelView::popup_keyed);
        if self.skill_popup.is_none() {
            return None;
        }
        if is_submit_key(key_event) {
            self.skill_popup = None;
            return Some(self.request_insert_turn_start());
        }
        match key_event.code {
            KeyCode::Esc => {
                self.skill_popup = None;
                Some(nothing())
            },
            KeyCode::Up => {
                match &mut self.skill_popup {
                    Some(popup) => popup.move_up(),
                    None => {},
                }
                Some(nothing())
            },
            KeyCode::Down => {
                match &mut self.skill_popup {
                    Some(popup) => popup.move_down(),
                    None => {},
                }
                Some(nothing())
            },
            KeyCode::Tab | KeyCode::Enter => {
                self.accept_skill_completion();
                Some(nothing())
            },
            _ => None,
        }
    }

    pub fn handle_insert_key(&mut self, key_event: KeyEvent, now: u64) -> (r: Vec<UiEffect>)
        requires
            old(self).wf(),
        ensures
            final(self).wf(),
            (final(self)@, effect_views(r@)) == old(self)@.insert_keyed(key_event, now),
    {
        reveal(ModelView::insert_keyed);
        match self.offer_to_popup(key_event) {
            Some(effects) => {
                return effects;
            },
            None => {},
        }
        let effects: Vec<UiEffect> = self.edit_draft(key_event, now);
        self.sync_skill_popup();
        effects
    }
}

// ---------------------------------------------------------------------------
// Normal mode
// ---------------------------------------------------------------------------

pub open spec fn page(height: u16) -> u16 {
    columns_of(less(height, 1)) as u16
}

impl ModelView {
    pub open spec fn leaving(self) -> (ModelView, Seq<EffectView>) {
        self.with_effect(ContextView::Exit, EffectKindView::Exit)
    }

    /// The command line opens.
    pub open spec fn commanding(self) -> ModelView {
        ModelView { mode: UiMode::Command, command: Seq::empty(), ..self }
    }

    /// A deferred plan is shown again.
    pub open spec fn review_resumed(self) -> ModelView {
        match self.approval {
            Some(overlay) => ModelView {
                approval: Some(overlay.resumed()),
                mode: UiMode::Overlay,
                focus: FocusTarget::Overlay,
                ..self
            },
            None => self,
        }
    }

    #[verifier::opaque]
    pub open spec fn normal_keyed(self, key: KeyEvent, now: u64) -> (ModelView, Seq<EffectView>) {
        match key.code {
            KeyCode::Char('i') => if key.modifiers == no_modifiers() {
                (ModelView {
                    mode: UiMode::Insert,
                    focus: FocusTarget::Composer,
                    ..self
                }).quietly()
            } else {
                self.quietly()
            },
            KeyCode::Char('I') => if types_text(key.modifiers) {
                self.with_inspector(!self.inspector).quietly()
            } else {
                self.quietly()
            },
            KeyCode::Char('R') => if types_text(key.modifiers) {
                self.review_resumed().quietly()
            } else {
                self.quietly()
            },
            KeyCode::Char(':') => self.commanding().quietly(),
            KeyCode::Char('q') => if self.composer.text.len() == 0 {
                self.leaving()
            } else {
                self.quietly()
            },
            KeyCode::Tab => self.focus_moved().quietly(),
            KeyCode::BackTab => self.plan_toggled(),
            KeyCode::Up | KeyCode::Char('k') => self.scrolled_up(1).quietly(),
            KeyCode::Down | KeyCode::Char('j') => self.scrolled_down(
                1,
                self.viewport,
            ).quietly(),
            KeyCode::PageUp => self.scrolled_up(page(self.viewport)).quietly(),
            KeyCode::PageDown => self.scrolled_down(
                page(self.viewport),
                self.viewport,
            ).quietly(),
            KeyCode::Home => (ModelView { scroll: 0, auto_scroll: false, ..self }).quietly(),
            KeyCode::End => (ModelView { auto_scroll: true, ..self }).at_bottom(
                self.viewport,
            ).quietly(),
            KeyCode::Esc => if completes(self.last_esc, now, DOUBLE_ESC_WINDOW) {
                (ModelView { last_esc: None, ..self }).select_entered().quietly()
            } else {
                (ModelView { last_esc: Some(now), ..self }).quietly()
            },
            _ => self.quietly(),
        }
    }
}

impl UiModel {
    fn resume_review(&mut self)
        requires
            old(self).wf(),
        ensures
            final(self).wf(),
            final(self)@ == old(self)@.review_resumed(),
    {
        reveal(crate::ui::overlay_ok);
        let pending: bool = match &mut self.plan_approval {
            Some(overlay) => {
                overlay.resume();
                true
            },
            None => false,
        };
        if pending {
            self.mode = UiMode::Overlay;
            self.focus = FocusTarget::Overlay;
        }
    }

    fn leave(&mut self) -> (r: Vec<UiEffect>)
        requires
            old(self).wf(),
        ensures
            final(self).wf(),
            (final(self)@, effect_views(r@)) == old(self)@.leaving(),
    {
        self.ask(EffectContext::Exit, UiEffectKind::Exit)
    }

    fn open_command_line(&mut self)
        requires
            old(self).wf(),
        ensures
            final(self).wf(),
            final(self)@ == old(self)@.commanding(),
    {
        self.mode = UiMode::Command;
        self.command = String::new();
        assert(self@.command =~= Seq::empty());
    }

    pub fn handle_normal_key(&mut self, key_event: KeyEvent, now: u64) -> (r: Vec<UiEffect>)
        requires
            old(self).wf(),
        ensures
            final(self).wf(),
            (final(self)@, effect_views(r@)) == old(self)@.normal_keyed(key_event, now),
    {
        reveal(ModelView::normal_keyed);
        let viewport: u16 = self.viewport_height;
        let rows: u16 = viewport.saturating_sub(1);
        let page_rows: u16 = if rows > 0 {
            rows
        } else {
            1
        };
        match key_event.code {
            KeyCode::Char('i') => {
                if key_event.modifiers.is_empty() {
                    self.mode = UiMode::Insert;
                    self.focus = FocusTarget::Composer;
                }
            },
            KeyCode::Char('I') => {
                if key_event.modifiers.types() {
                    self.toggle_inspector_visible();
                }
            },
            KeyCode::Char('R') => {
                if key_event.modifiers.types() {
                    self.resume_review();
                }
            },
            KeyCode::Char(':') => self.open_command_line(),
            KeyCode::Char('q') => {
                if self.composer.is_empty() {
                    return self.leave();
                }
            },
            KeyCode::Tab => self.focus_next(),
            KeyCode::BackTab => {
                return self.request_plan_toggle();
            },
            KeyCode::Up | KeyCode::Char('k') => self.scroll_up(1),
            KeyCode::Down | KeyCode::Char('j') => self.scroll_down(1, viewport),
            KeyCode::PageUp => self.scroll_up(page_rows),
            KeyCode::PageDown => self.scroll_down(page_rows, viewport),
            KeyCode::Home => {
                self.scroll = 0;
                self.auto_scroll = false;
            },
            KeyCode::End => {
                self.auto_scroll = true;
                self.scroll_to_bottom(viewport);
            },
            KeyCode::Esc => {
                if chord_completes(self.last_esc, now, DOUBLE_ESC_WINDOW) {
                    self.last_esc = None;
                    self.enter_transcript_select();
                } else {
                    self.last_esc = Some(now);
                }
            },
            _ => {},
        }
        nothing()
    }

    pub fn handle_workspace_key(&mut self, key_event: KeyEvent, now: u64) -> (r: Vec<UiEffect>)
        requires
            old(self).wf(),
        ensures
            final(self).wf(),
            (final(self)@, effect_views(r@)) == old(self)@.workspace_keyed(key_event, now),
    {
        match self.mode {
            UiMode::Normal => self.handle_normal_key(key_event, now),
            UiMode::Insert => self.handle_insert_key(key_event, now),
            UiMode::TranscriptSelect => self.handle_transcript_select_key(key_event, now),
            UiMode::Command | UiMode::Overlay => nothing(),
        }
    }
}

impl ModelView {
    pub open spec fn workspace_keyed(self, key: KeyEvent, now: u64) -> (
        ModelView,
        Seq<EffectView>,
    ) {
        match self.mode {
            UiMode::Normal => self.normal_keyed(key, now),
            UiMode::Insert => self.insert_keyed(key, now),
            UiMode::TranscriptSelect => self.select_keyed(key, now),
            UiMode::Command => self.quietly(),
            UiMode::Overlay => self.quietly(),
        }
    }
}

// ---------------------------------------------------------------------------
// Dashboard
// ---------------------------------------------------------------------------

impl ModelView {
    /// The selection of the dashboard goes to `selected`, and on screen.
    pub open spec fn session_selected(self, selected: usize) -> ModelView {
        ModelView {
            dashboard: self.dashboard.selecting(selected).with_selection_shown(self.viewport),
            ..self
        }
    }

    pub open spec fn session_above(self, n: nat) -> usize {
        if self.dashboard.selected >= n {
            (self.dashboard.selected - n) as usize
        } else {
            0
        }
    }

    pub open spec fn session_below(self, n: nat) -> usize {
        if self.dashboard.selected + n < self.dashboard.last() {
            (self.dashboard.selected + n) as usize
        } else {
            self.dashboard.last()
        }
    }

    /// The selected session is asked for.
    pub open spec fn session_opened(self) -> (ModelView, Seq<EffectView>) {
        if self.dashboard.selected < self.dashboard.items.len() {
            let item = self.dashboard.items[self.dashboard.selected as int];
            match item.thread_id.parsed {
                Ok(id) => self.saying("Resuming thread "@ + item.thread_id.text@).with_effect(
                    ContextView::ThreadResume { thread: id@ },
                    EffectKindView::ThreadResume { thread: id@ },
                ),
                Err(reason) => (ModelView {
                    dashboard: DashboardView {
                        error: Some("invalid thread id: "@ + reason@),
                        ..self.dashboard
                    },
                    ..self
                }).quietly(),
            }
        } else {
            self.quietly()
        }
    }

    #[verifier::opaque]
    pub open spec fn dashboard_keyed(self, key: KeyEvent) -> (ModelView, Seq<EffectView>) {
        match key.code {
            KeyCode::Char('n') => self.saying("Starting new thread"@).with_effect(
                ContextView::ThreadStart,
                EffectKindView::ThreadStart,
            ),
            KeyCode::Enter => self.session_opened(),
            KeyCode::Char(':') => self.commanding().quietly(),
            KeyCode::Up | KeyCode::Char('k') => self.session_selected(
                self.session_above(1),
            ).quietly(),
            KeyCode::Down | KeyCode::Char('j') => self.session_selected(
                self.session_below(1),
            ).quietly(),
            KeyCode::PageUp => self.session_selected(
                self.session_above(sessions_shown(self.viewport)),
            ).quietly(),
            KeyCode::PageDown => self.session_selected(
                self.session_below(sessions_shown(self.viewport)),
            ).quietly(),
            KeyCode::Home => self.session_selected(0).quietly(),
            KeyCode::End => self.session_selected(self.dashboard.last()).quietly(),
            KeyCode::Char('q') | KeyCode::Esc => self.leaving(),
            _ => self.quietly(),
        }
    }
}

impl UiModel {
    fn select_session(&mut self, selected: usize)
        requires
            old(self).wf(),
        ensures
            final(self).wf(),
            final(self)@ == old(self)@.session_selected(selected),
    {
        self.dashboard.selected = selected;
        self.dashboard_ensure_selected_visible(self.viewport_height);
    }

    fn below(&self, n: usize) -> (r: usize)
        ensures
            r == self@.session_below(n as nat),
    {
        let last: usize = self.dashboard.last_index();
        let wanted: usize = self.dashboard.selected.saturating_add(n);
        if wanted < last {
            wanted
        } else {
            last
        }
    }

    fn open_session(&mut self) -> (r: Vec<UiEffect>)
        requires
            old(self).wf(),
        ensures
            final(self).wf(),
            (final(self)@, effect_views(r@)) == old(self)@.session_opened(),
    {
        if self.dashboard.selected >= self.dashboard.items.len() {
            return nothing();
        }
        let at: usize = self.dashboard.selected;
        match &self.dashboard.items[at].thread_id.parsed {
            Ok(id) => {
                let thread_id: ThreadId = id.duplicate();
                self.status_line = prefixed(
                    "Resuming thread ",
                    self.dashboard.items[at].thread_id.text.as_str(),
                );
                self.ask(
                    EffectContext::ThreadResume { thread_id: thread_id.duplicate() },
                    UiEffectKind::ThreadResume { thread_id },
                )
            },
            Err(reason) => {
                let message: String = prefixed("invalid thread id: ", reason.as_str());
                self.dashboard.error = Some(message);
                nothing()
            },
        }
    }

    pub fn handle_dashboard_key(&mut self, key_event: KeyEvent) -> (r: Vec<UiEffect>)
        requires
            old(self).wf(),
        ensures
            final(self).wf(),
            (final(self)@, effect_views(r@)) == old(self)@.dashboard_keyed(key_event),
    {
        reveal(ModelView::dashboard_keyed);
        let amount: usize = visible_sessions(self.viewport_height);
        match key_event.code {
            KeyCode::Char('n') => {
                self.set_status("Starting new thread");
                return self.ask(EffectContext::ThreadStart, UiEffectKind::ThreadStart);
            },
            KeyCode::Enter => {
                return self.open_session();
            },
            KeyCode::Char(':') => self.open_command_line(),
            KeyCode::Up | KeyCode::Char('k') => {
                let to: usize = self.dashboard.selected.saturating_sub(1);
                self.select_session(to);
            },
            KeyCode::Down | KeyCode::Char('j') => {
                let to: usize = self.below(1);
                self.select_session(to);
            },
            KeyCode::PageUp => {
                let to: usize = self.dashboard.selected.saturating_sub(amount);
                self.select_session(to);
            },
            KeyCode::PageDown => {
                let to: usize = self.below(amount);
                self.select_session(to);
            },
            KeyCode::Home => self.select_session(0),
            KeyCode::End => {
                let to: usize = self.dashboard.last_index();
                self.select_session(to);
            },
            KeyCode::Char('q') | KeyCode::Esc => {
                return self.leave();
            },
            _ => {},
        }
        nothing()
    }
}

// ---------------------------------------------------------------------------
// Commands
// ---------------------------------------------------------------------------

pub open spec fn command_help() -> Seq<char> {
    ":send  :cancel  :plan  :quit  :clear  :focus transcript|inspector|composer|dashboard  :inspector toggle|show|hide  I toggle inspector  :help"@
}

impl ModelView {
    /// `:focus`
    pub open spec fn focused(self, target: Seq<char>) -> ModelView {
        if target == "transcript"@ || target == "main"@ {
            ModelView { focus: FocusTarget::Transcript, ..self }
        } else if target == "inspector"@ || target == "side"@ {
            ModelView { inspector: true, focus: FocusTarget::Inspector, ..self }
        } else if target == "composer"@ || target == "input"@ {
            ModelView { focus: FocusTarget::Composer, mode: UiMode::Insert, ..self }
        } else if target == "dashboard"@ {
            ModelView {
                focus: FocusTarget::Dashboard,
                screen: Screen::Dashboard,
                ..self.select_left()
            }
        } else {
            self.with_info("usage: :focus transcript|inspector|composer|dashboard"@)
        }
    }

    /// `:inspector`
    pub open spec fn inspector_commanded(self, action: Seq<char>) -> ModelView {
        if action == "toggle"@ || action.len() == 0 {
            self.with_inspector(!self.inspector)
        } else if action == "show"@ {
            self.with_inspector(true)
        } else if action == "hide"@ {
            self.with_inspector(false)
        } else {
            self.with_info("usage: :inspector toggle|show|hide"@)
        }
    }

    #[verifier::opaque]
    pub open spec fn commanded(self, command: Seq<char>) -> (ModelView, Seq<EffectView>) {
        let word = first_word(command);
        if word.len() == 0 {
            self.quietly()
        } else if word == "send"@ {
            self.turn_requested()
        } else if word == "cancel"@ {
            self.cancel_requested()
        } else if word == "plan"@ {
            self.plan_toggled()
        } else if word == "quit"@ || word == "q"@ {
            self.leaving()
        } else if word == "clear"@ {
            self.transcript_cleared().quietly()
        } else if word == "focus"@ {
            self.focused(second_word(command)).quietly()
        } else if word == "inspector"@ {
            self.inspector_commanded(second_word(command)).quietly()
        } else if word == "help"@ {
            self.with_info(command_help()).quietly()
        } else {
            self.with_error("unknown command: "@ + word).quietly()
        }
    }

    /// The command line is left: for the overlay below it where there is one.
    pub open spec fn command_closed(self) -> ModelView {
        ModelView {
            command: Seq::empty(),
            mode: if self.screen == Screen::Workspace && self.has_overlay() {
                UiMode::Overlay
            } else {
                UiMode::Normal
            },
            ..self
        }
    }

    #[verifier::opaque]
    pub open spec fn command_keyed(self, key: KeyEvent) -> (ModelView, Seq<EffectView>) {
        match key.code {
            KeyCode::Esc => self.command_closed().quietly(),
            KeyCode::Enter => (ModelView {
                command: Seq::empty(),
                mode: UiMode::Normal,
                ..self
            }).commanded(self.command),
            KeyCode::Backspace => (ModelView {
                command: if self.command.len() > 0 {
                    self.command.drop_last()
                } else {
                    self.command
                },
                ..self
            }).quietly(),
            KeyCode::Char(ch) => if types_text(key.modifiers) {
                (ModelView { command: self.command.push(ch), ..self }).quietly()
            } else {
                self.quietly()
            },
            _ => self.quietly(),
        }
    }
}

impl UiModel {
    fn focus_on(&mut self, target: &str)
        requires
            old(self).wf(),
        ensures
            final(self).wf(),
            final(self)@ == old(self)@.focused(target@),
    {
        if same_text(target, "transcript") || same_text(target, "main") {
            self.focus = FocusTarget::Transcript;
        } else if same_text(target, "inspector") || same_text(target, "side") {
            self.inspector_visible = true;
            self.focus = FocusTarget::Inspector;
        } else if same_text(target, "composer") || same_text(target, "input") {
            self.focus = FocusTarget::Composer;
            self.mode = UiMode::Insert;
        } else if same_text(target, "dashboard") {
            self.exit_transcript_select();
            self.focus = FocusTarget::Dashboard;
            self.screen = Screen::Dashboard;
        } else {
            self.push_info("usage: :focus transcript|inspector|composer|dashboard");
        }
    }

    fn command_inspector(&mut self, action: &str)
        requires
            old(self).wf(),
        ensures
            final(self).wf(),
            final(self)@ == old(self)@.inspector_commanded(action@),
    {
        if same_text(action, "toggle") || action.is_empty() {
            self.toggle_inspector_visible();
        } else if same_text(action, "show") {
            self.set_inspector_visible(true);
        } else if same_text(action, "hide") {
            self.set_inspector_visible(false);
        } else {
            self.push_info("usage: :inspector toggle|show|hide");
        }
    }

    pub fn execute_command(&mut self, command: &str) -> (r: Vec<UiEffect>)
        requires
            old(self).wf(),
        ensures
            final(self).wf(),
            (final(self)@, effect_views(r@)) == old(self)@.commanded(command@),
    {
        reveal(ModelView::commanded);
        let (word, rest): (String, String) = split_word(command);
        let name: &str = word.as_str();
        if name.is_empty() {
            nothing()
        } else if same_text(name, "send") {
            self.request_turn_start()
        } else if same_text(name, "cancel") {
            self.request_turn_cancel()
        } else if same_text(name, "plan") {
            self.request_plan_toggle()
        } else if same_text(name, "quit") || same_text(name, "q") {
            self.leave()
        } else if same_text(name, "clear") {
            self.clear_transcript();
            nothing()
        } else if same_text(name, "focus") {
            let (target, _rest): (String, String) = split_word(rest.as_str());
            self.focus_on(target.as_str());
            nothing()
        } else if same_text(name, "inspector") {
            let (action, _rest): (String, String) = split_word(rest.as_str());
            self.command_inspector(action.as_str());
            nothing()
        } else if same_text(name, "help") {
            self.push_info(
                ":send  :cancel  :plan  :quit  :clear  :focus transcript|inspector|composer|dashboard  :inspector toggle|show|hide  I toggle inspector  :help",
            );
            nothing()
        } else {
            let message: String = prefixed("unknown command: ", name);
            self.push_error(message.as_str());
            nothing()
        }
    }

    fn close_command_line(&mut self)
        requires
            old(self).wf(),
        ensures
            final(self).wf(),
            final(self)@ == old(self)@.command_closed(),
    {
        let overlay: bool = self.question_picker.is_some() || self.is_reviewing();
        self.command = String::new();
        assert(self@.command =~= Seq::empty());
        self.mode = if self.screen == Screen::Workspace && overlay {
            UiMode::Overlay
        } else {
            UiMode::Normal
        };
    }

    pub fn handle_command_key(&mut self, key_event: KeyEvent) -> (r: Vec<UiEffect>)
        requires
            old(self).wf(),
        ensures
            final(self).wf(),
            (final(self)@, effect_views(r@)) == old(self)@.command_keyed(key_event),
    {
        reveal(ModelView::command_keyed);
        match key_event.code {
            KeyCode::Esc => {
                self.close_command_line();
                nothing()
            },
            KeyCode::Enter => {
                let mut command: String = String::new();
                core::mem::swap(&mut command, &mut self.command);
                assert(self@.command =~= Seq::empty());
                self.mode = UiMode::Normal;
                self.execute_command(command.as_str())
            },
            KeyCode::Backspace => {
                let chars: Vec<char> = chars_of(self.command.as_str());
                if chars.len() > 0 {
                    self.command = string_of(&chars, 0, chars.len() - 1);
                    assert(self@.command =~= old(self)@.command.drop_last());
                }
                nothing()
            },
            KeyCode::Char(ch) => {
                if key_event.modifiers.types() {
                    self.command.push(ch);
                }
                nothing()
            },
            _ => nothing(),
        }
    }
}

// ---------------------------------------------------------------------------
// Overlays
// ---------------------------------------------------------------------------

pub open spec fn declined_error() -> RpcErrorView {
    RpcErrorView {
        code: -32001i64,
        kind: "user_declined"@,
        message: "user declined to answer"@,
        source: "smooth-tui"@,
    }
}

impl ModelView {
    /// The overlay is closed, and the transcript has the keys again.
    pub open spec fn overlay_closed(self) -> ModelView {
        ModelView { mode: UiMode::Normal, focus: FocusTarget::Transcript, ..self }
    }

    /// What the user made of a question.
    pub open spec fn picker_done(self, picker: PickerView, outcome: OutcomeView) -> (
        ModelView,
        Seq<EffectView>,
    ) {
        let closed = (ModelView { picker: None, ..self }).overlay_closed();
        match outcome {
            OutcomeView::Nothing => (ModelView { picker: Some(picker), ..self }).quietly(),
            OutcomeView::Confirm(answers) => closed.with_transcript(
                closed.transcript.with_item(
                    KindView::Plain { lines: answer_rows(answers), hang: 4 },
                ),
            ).with_effect(
                ContextView::ServerRequest,
                EffectKindView::AnswerQuestion { request_id: picker.request_id, answers },
            ),
            OutcomeView::Cancel => closed.with_effect(
                ContextView::ServerRequest,
                EffectKindView::FailQuestion {
                    request_id: picker.request_id,
                    error: declined_error(),
                },
            ),
        }
    }

    #[verifier::opaque]
    pub open spec fn picker_keyed(self, key: KeyEvent) -> (ModelView, Seq<EffectView>) {
        match self.picker {
            Some(picker) => self.picker_done(picker.keyed(key).0, picker.keyed(key).1),
            None => self.quietly(),
        }
    }

    /// What the user made of a plan.
    pub open spec fn approval_done(self, overlay: OverlayView, outcome: ApprovalOutcomeView) -> (
        ModelView,
        Seq<EffectView>,
    ) {
        let kept = ModelView { approval: Some(overlay), ..self };
        match outcome {
            ApprovalOutcomeView::Nothing => kept.quietly(),
            ApprovalOutcomeView::Respond(response) => (ModelView {
                approval: None,
                ..self
            }).overlay_closed().with_effect(
                ContextView::ServerRequest,
                EffectKindView::RespondPlanApproval { request_id: overlay.request_id, response },
            ),
            ApprovalOutcomeView::Defer => (ModelView {
                approval: Some(overlay.deferred()),
                ..self
            }).overlay_closed().quietly(),
            ApprovalOutcomeView::OpenEditor => match overlay.thread_id {
                Some(thread) => kept.with_effect(
                    ContextView::OpenEditor,
                    EffectKindView::OpenEditor { thread },
                ),
                None => kept.quietly(),
            },
        }
    }

    #[verifier::opaque]
    pub open spec fn approval_keyed(self, key: KeyEvent) -> (ModelView, Seq<EffectView>) {
        match self.approval {
            Some(overlay) => self.approval_done(overlay.keyed(key).0, overlay.keyed(key).1),
            None => self.quietly(),
        }
    }

    pub open spec fn reviewing(self) -> bool {
        match self.approval {
            Some(overlay) => overlay.is_active(),
            None => false,
        }
    }

    /// Whether a question or a plan is on top of the workspace. A plan that was
    /// deferred is not.
    pub open spec fn has_overlay(self) -> bool {
        self.picker is Some || self.reviewing()
    }

    /// The keys belong to an overlay only while there is one.
    pub open spec fn overlay_keys_ok(self) -> bool {
        self.mode == UiMode::Overlay ==> self.screen == Screen::Workspace && self.has_overlay()
    }
}

impl UiModel {
    fn close_overlay(&mut self)
        requires
            old(self).wf(),
        ensures
            final(self).wf(),
            final(self)@ == old(self)@.overlay_closed(),
    {
        self.mode = UiMode::Normal;
        self.focus = FocusTarget::Transcript;
    }

    fn finish_picker(&mut self, picker: QuestionPicker, outcome: PickerOutcome) -> (r: Vec<UiEffect>)
        requires
            old(self).wf(),
            picker.wf(),
            old(self)@.picker is None,
        ensures
            final(self).wf(),
            (final(self)@, effect_views(r@)) == old(self)@.picker_done(picker@, outcome@),
    {
        reveal(crate::ui::picker_ok);
        let request_id: RequestId = picker.request_id;
        match outcome {
            PickerOutcome::Nothing => {
                self.question_picker = Some(picker);
                nothing()
            },
            PickerOutcome::Confirm(response) => {
                self.close_overlay();
                self.transcript.push_answers(&response.answers);
                self.ask(
                    EffectContext::ServerRequest,
                    UiEffectKind::AnswerQuestion { request_id, response },
                )
            },
            PickerOutcome::Cancel => {
                self.close_overlay();
                self.ask(
                    EffectContext::ServerRequest,
                    UiEffectKind::FailQuestion {
                        request_id,
                        error: JsonRpcError {
                            code: -32001,
                            kind: owned("user_declined"),
                            message: owned("user declined to answer"),
                            source: owned("smooth-tui"),
                        },
                    },
                )
            },
        }
    }

    pub fn dispatch_picker_key(&mut self, key_event: KeyEvent) -> (r: Vec<UiEffect>)
        requires
            old(self).wf(),
        ensures
            final(self).wf(),
            (final(self)@, effect_views(r@)) == old(self)@.picker_keyed(key_event),
    {
        reveal(crate::ui::picker_ok);
        reveal(ModelView::picker_keyed);
        let mut taken: Option<QuestionPicker> = None;
        core::mem::swap(&mut taken, &mut self.question_picker);
        match taken {
            Some(picker) => {
                let mut picker: QuestionPicker = picker;
                let outcome: PickerOutcome = picker.handle_key(key_event);
                self.finish_picker(picker, outcome)
            },
            None => nothing(),
        }
    }

    fn finish_review(&mut self, overlay: PlanApprovalOverlay, outcome: PlanApprovalOutcome) -> (r:
        Vec<UiEffect>)
        requires
            old(self).wf(),
            overlay.wf(),
            old(self)@.approval is None,
        ensures
            final(self).wf(),
            (final(self)@, effect_views(r@)) == old(self)@.approval_done(overlay@, outcome@),
    {
        reveal(crate::ui::overlay_ok);
        match outcome {
            PlanApprovalOutcome::Nothing => {
                self.plan_approval = Some(overlay);
                nothing()
            },
            PlanApprovalOutcome::Respond(response) => {
                self.close_overlay();
                self.ask(
                    EffectContext::ServerRequest,
                    UiEffectKind::RespondPlanApproval { request_id: overlay.request_id, response },
                )
            },
            PlanApprovalOutcome::Defer => {
                let mut overlay: PlanApprovalOverlay = overlay;
                overlay.defer();
                self.plan_approval = Some(overlay);
                self.close_overlay();
                nothing()
            },
            PlanApprovalOutcome::OpenEditor => {
                let thread: Option<ThreadId> = overlay.thread_id();
                self.plan_approval = Some(overlay);
                match thread {
                    Some(thread_id) => self.ask(
                        EffectContext::OpenEditor,
                        UiEffectKind::OpenEditor { thread_id },
                    ),
                    None => nothing(),
                }
            },
        }
    }

    pub fn dispatch_plan_approval_key(&mut self, key_event: KeyEvent) -> (r: Vec<UiEffect>)
        requires
            old(self).wf(),
        ensures
            final(self).wf(),
            (final(self)@, effect_views(r@)) == old(self)@.approval_keyed(key_event),
    {
        reveal(crate::ui::overlay_ok);
        reveal(ModelView::approval_keyed);
        let mut taken: Option<PlanApprovalOverlay> = None;
        core::mem::swap(&mut taken, &mut self.plan_approval);
        match taken {
            Some(overlay) => {
                let mut overlay: PlanApprovalOverlay = overlay;
                let outcome: PlanApprovalOutcome = overlay.handle_key(key_event);
                self.finish_review(overlay, outcome)
            },
            None => nothing(),
        }
    }

    /// Whether a plan is on screen for approval.
    pub fn is_reviewing(&self) -> (r: bool)
        ensures
            r == self@.reviewing(),
    {
        match &self.plan_approval {
            Some(overlay) => overlay.is_active(),
            None => false,
        }
    }
}

// ---------------------------------------------------------------------------
// Plan files
// ---------------------------------------------------------------------------

impl ModelView {
    /// The thread whose plan is being reviewed.
    pub open spec fn plan_under_review(self) -> Option<Seq<char>> {
        match self.approval {
            Some(overlay) => if overlay.is_active() {
                overlay.thread_id
            } else {
                None
            },
            None => None,
        }
    }

    /// The plan under review reads `plan` from now on.
    pub open spec fn plan_reloaded(self, plan: Seq<char>) -> ModelView {
        match self.approval {
            Some(overlay) => if self.plan_under_review() is Some {
                ModelView { approval: Some(overlay.with_plan(plan)), ..self }
            } else {
                self
            },
            None => self,
        }
    }
}

impl UiModel {
    /// The thread whose plan file is shown, and may have been edited.
    pub fn plan_edit_target(&self) -> (r: Option<ThreadId>)
        ensures
            crate::protocol::opt_thread(r) == self@.plan_under_review(),
    {
        match &self.plan_approval {
            Some(overlay) => {
                if overlay.is_active() {
                    overlay.thread_id()
                } else {
                    None
                }
            },
            None => None,
        }
    }

    /// Shows the plan file as it reads after the user edited it. Nothing
    /// happens where no plan is under review, or its thread is not known.
    pub fn reload_plan_after_edit(&mut self, plan: String)
        requires
            old(self).wf(),
        ensures
            final(self).wf(),
            final(self)@ == old(self)@.plan_reloaded(plan@),
    {
        reveal(crate::ui::overlay_ok);
        let known: bool = self.plan_edit_target().is_some();
        if known {
            match &mut self.plan_approval {
                Some(overlay) => overlay.set_plan(plan),
                None => {},
            }
        }
    }
}

// ---------------------------------------------------------------------------
// Terminal events
// ---------------------------------------------------------------------------

/// Whether a key is Ctrl-I that the terminal tells from Tab.
pub open spec fn is_ctrl_i(key: KeyEvent) -> bool {
    (key.code == KeyCode::Char('i') || key.code == KeyCode::Char('I')) && key.modifiers.control
}

pub fn is_disambiguated_ctrl_i(key_event: KeyEvent) -> (r: bool)
    ensures
        r == is_ctrl_i(key_event),
{
    (key_event.code == KeyCode::Char('i') || key_event.code == KeyCode::Char('I'))
        && key_event.modifiers.control
}

impl ModelView {
    /// Whether a key goes forward to a preview that was left.
    pub open spec fn goes_forward(self, key: KeyEvent) -> bool {
        is_ctrl_i(key) || self.forward.len() > 0 && key.code == KeyCode::Tab && (key.modifiers
            == no_modifiers() || key.modifiers == only_control())
    }

    /// Whether previews can be gone forward to at all.
    pub open spec fn forward_allowed(self) -> bool {
        self.screen == Screen::Workspace && self.picker is None && self.approval is None
            && self.mode != UiMode::Command && self.mode != UiMode::Insert && self.mode
            != UiMode::Overlay
    }

    /// What a pressed key does: Ctrl-C first, then what is on top of the screen.
    #[verifier::opaque]
    pub open spec fn pressed(self, key: KeyEvent, now: u64) -> (ModelView, Seq<EffectView>) {
        // Any non-Esc key breaks the double-Esc chord.
        let m = if key.code == KeyCode::Esc {
            self
        } else {
            ModelView { last_esc: None, ..self }
        };
        if key.code == KeyCode::Char('c') && key.modifiers.control {
            if m.running {
                m.cancel_requested()
            } else {
                m.leaving()
            }
        } else if m.forward_allowed() && m.forward.len() > 0 && m.goes_forward(key) {
            m.preview_resumed()
        } else if m.screen == Screen::Workspace && m.previews.len() > 0 {
            m.preview_keyed(key, now)
        } else if m.screen == Screen::Workspace && m.picker is Some {
            m.picker_keyed(key)
        } else if m.screen == Screen::Workspace && m.reviewing() {
            m.approval_keyed(key)
        } else if m.mode == UiMode::Command {
            m.command_keyed(key)
        } else if m.screen == Screen::Dashboard {
            m.dashboard_keyed(key)
        } else {
            m.workspace_keyed(key, now)
        }
    }

    pub open spec fn keyed(self, key: KeyEvent, now: u64) -> (ModelView, Seq<EffectView>) {
        if key.kind == KeyEventKind::Press {
            self.pressed(key, now)
        } else {
            self.quietly()
        }
    }

    /// Pasted text goes where text is typed.
    #[verifier::opaque]
    pub open spec fn pasted(self, text: Seq<char>) -> ModelView {
        let kept = with_breaks(text, '\n', '\t');
        if self.screen != Screen::Workspace {
            self
        } else if self.picker is Some {
            ModelView { picker: Some(self.picker->0.pasted(text)), ..self }
        } else if self.reviewing() {
            ModelView { approval: Some(self.approval->0.pasted(text)), ..self }
        } else if self.mode == UiMode::Insert {
            (ModelView {
                composer: if kept.len() == 0 {
                    self.composer
                } else {
                    self.composer.with_inserted(kept)
                },
                ..self
            }).popup_synced()
        } else {
            self
        }
    }

    pub open spec fn resized(self, width: u16, height: u16) -> ModelView {
        let m = ModelView { terminal_width: width, ..self };
        ModelView { viewport: m.transcript_height(width, height), ..m }
    }

    /// What an event of the terminal does.
    pub open spec fn terminal_event(self, event: TerminalEvent, now: u64) -> (
        ModelView,
        Seq<EffectView>,
    ) {
        match event {
            TerminalEvent::Key(key) => self.keyed(key, now),
            TerminalEvent::Paste(text) => self.pasted(text@).quietly(),
            TerminalEvent::Resize { width, height } => self.resized(width, height).quietly(),
            TerminalEvent::Other => self.quietly(),
        }
    }
}

impl UiModel {
    pub fn is_preview_forward_key(&self, key_event: KeyEvent) -> (r: bool)
        ensures
            r == self@.goes_forward(key_event),
    {
        is_disambiguated_ctrl_i(key_event) || (self.preview_forward_stack.len() > 0
            && key_event.code == KeyCode::Tab && (key_event.modifiers.is_empty()
            || key_event.modifiers == KeyModifiers::control()))
    }

    pub fn preview_forward_allowed_in_current_context(&self) -> (r: bool)
        ensures
            r == self@.forward_allowed(),
    {
        self.screen == Screen::Workspace && self.question_picker.is_none()
            && self.plan_approval.is_none() && self.mode != UiMode::Command && self.mode
            != UiMode::Insert && self.mode != UiMode::Overlay
    }

    fn press(&mut self, key_event: KeyEvent, now: u64) -> (r: Vec<UiEffect>)
        requires
            old(self).wf(),
        ensures
            final(self).wf(),
            (final(self)@, effect_views(r@)) == old(self)@.pressed(key_event, now),
    {
        reveal(ModelView::pressed);
        // Any non-Esc key breaks the double-Esc chord.
        if key_event.code != KeyCode::Esc {
            self.last_esc = None;
        }
        if key_event.code == KeyCode::Char('c') && key_event.modifiers.control {
            if self.is_turn_running {
                return self.request_turn_cancel();
            }
            return self.leave();
        }
        if self.preview_forward_allowed_in_current_context() && self.preview_forward_stack.len()
            > 0 && self.is_preview_forward_key(key_event) {
            return self.reopen_forward_preview();
        }
        // A stacked subagent preview owns the keyboard (server-driven
        // overlays clear the stack on arrival, so they cannot coexist).
        if self.screen == Screen::Workspace && self.preview_stack.len() > 0 {
            return self.handle_preview_key(key_event, now);
        }
        if self.screen == Screen::Workspace && self.question_picker.is_some() {
            return self.dispatch_picker_key(key_event);
        }
        // A deferred plan review leaves the keys to the transcript.
        if self.screen == Screen::Workspace && self.is_reviewing() {
            return self.dispatch_plan_approval_key(key_event);
        }
        if self.mode == UiMode::Command {
            return self.handle_command_key(key_event);
        }
        match self.screen {
            Screen::Dashboard => self.handle_dashboard_key(key_event),
            Screen::Workspace => self.handle_workspace_key(key_event, now),
        }
    }

    /// Handles a key at a time.
    pub fn handle_key_event_at(&mut self, key_event: KeyEvent, now: u64) -> (r: Vec<UiEffect>)
        requires
            old(self).wf(),
        ensures
            final(self).wf(),
            (final(self)@, effect_views(r@)) == old(self)@.keyed(key_event, now),
    {
        if key_event.kind != KeyEventKind::Press {
            return nothing();
        }
        self.press(key_event, now)
    }

    pub fn handle_paste_event(&mut self, text: &str) -> (r: Vec<UiEffect>)
        requires
            old(self).wf(),
        ensures
            final(self).wf(),
            (final(self)@, effect_views(r@)) == old(self)@.pasted(text@).quietly(),
    {
        reveal(crate::ui::picker_ok);
        reveal(crate::ui::overlay_ok);
        reveal(ModelView::pasted);
        let reviewing: bool = self.is_reviewing();
        if self.screen == Screen::Workspace {
            match &mut self.question_picker {
                Some(picker) => {
                    picker.handle_paste(text);
                },
                None => {
                    if reviewing {
                        match &mut self.plan_approval {
                            Some(overlay) => overlay.handle_paste(text),
                            None => {},
                        }
                    } else if self.mode == UiMode::Insert {
                        self.composer.insert_paste(text);
                        self.sync_skill_popup();
                    }
                },
            }
        }
        nothing()
    }

    pub fn handle_terminal_event(&mut self, event: TerminalEvent, now: u64) -> (r: Vec<UiEffect>)
        requires
            old(self).wf(),
        ensures
            final(self).wf(),
            (final(self)@, effect_views(r@)) == old(self)@.terminal_event(event, now),
    {
        match event {
            TerminalEvent::Key(key_event) => self.handle_key_event_at(key_event, now),
            TerminalEvent::Paste(text) => self.handle_paste_event(text.as_str()),
            TerminalEvent::Resize { width, height } => {
                self.terminal_width = width;
                self.viewport_height = self.transcript_viewport_height(width, height);
                let hint: u16 = self.transcript_cache_width_hint(width);
                self.transcript.evict_stale_widths(hint);
                nothing()
            },
            TerminalEvent::Other => nothing(),
        }
    }
}

// ---------------------------------------------------------------------------
// Laws
// ---------------------------------------------------------------------------

/// Ctrl-C always answers: it cancels the turn that runs, or leaves.
pub proof fn ctrl_c_cancels_or_leaves(model: ModelView, key: KeyEvent, now: u64)
    requires
        key.kind == KeyEventKind::Press,
        key.code == KeyCode::Char('c'),
        key.modifiers.control,
    ensures
        ({
            let (after, effects) = model.keyed(key, now);
            &&& !model.running ==> effects.len() == 1 && effects[0].kind == EffectKindView::Exit
            &&& model.running && !model.cancelling && model.thread is Some ==> effects.len() == 1
                && effects[0].kind == (EffectKindView::TurnCancel { thread: model.thread->0 })
                && after.cancelling
            &&& model.running && model.cancelling ==> effects.len() == 0
        }),
{
    reveal(ModelView::cancel_requested);
    reveal(ModelView::pressed);
}

/// Keys that are released or held down do nothing.
pub proof fn only_presses_count(model: ModelView, key: KeyEvent, now: u64)
    requires
        key.kind != KeyEventKind::Press,
    ensures
        model.keyed(key, now) == model.quietly(),
{
}

/// Esc never leaves the program from the workspace, nor cancels a turn.
pub proof fn esc_is_harmless_in_normal_mode(model: ModelView, key: KeyEvent, now: u64)
    requires
        key.code == KeyCode::Esc,
    ensures
        model.normal_keyed(key, now).1.len() == 0,
        model.normal_keyed(key, now).0.running == model.running,
        model.normal_keyed(key, now).0.cancelling == model.cancelling,
{
    reveal(ModelView::normal_keyed);
    reveal(ModelView::select_entered);
}

/// Pressed twice within the window, Esc selects the last row of a transcript
/// that has any.
pub proof fn double_esc_selects_last_row(model: ModelView, key: KeyEvent, now: u64, later: u64)
    requires
        key.code == KeyCode::Esc,
        model.screen == Screen::Workspace,
        model.mode == UiMode::Normal,
        !completes(model.last_esc, now, DOUBLE_ESC_WINDOW),
        completes(Some(now), later, DOUBLE_ESC_WINDOW),
        0 < model.transcript.items.len() <= usize::MAX,
    ensures
        ({
            let after = model.normal_keyed(key, now).0.normal_keyed(key, later).0;
            &&& after.mode == UiMode::TranscriptSelect
            &&& after.select matches Some(state) && state.selected
                == model.transcript.items.len() - 1
            &&& !after.auto_scroll
        }),
{
    reveal(ModelView::normal_keyed);
    reveal(ModelView::select_entered);
}

/// A plan that was deferred is not decided, and `R` shows it again.
pub proof fn deferred_plans_come_back(model: ModelView, key: KeyEvent, overlay: OverlayView, now: u64)
    requires
        key.code == KeyCode::Char('R'),
        key.modifiers == no_modifiers(),
    ensures
        ({
            let (deferred, effects) = model.approval_done(overlay, ApprovalOutcomeView::Defer);
            let back = deferred.normal_keyed(key, now).0;
            &&& effects.len() == 0
            &&& deferred.approval is Some
            &&& !deferred.reviewing()
            &&& back.reviewing()
            &&& back.mode == UiMode::Overlay
        }),
{
    reveal(ModelView::normal_keyed);
}

/// Closing the command line while a plan is deferred gives the keys back to the
/// transcript, so that `R` shows the plan again.
pub proof fn command_line_keeps_plans_deferred(
    model: ModelView,
    esc: KeyEvent,
    key: KeyEvent,
    now: u64,
)
    requires
        esc.code == KeyCode::Esc,
        key.code == KeyCode::Char('R'),
        key.modifiers == no_modifiers(),
        model.approval is Some,
        !model.has_overlay(),
    ensures
        ({
            let closed = model.commanding().command_keyed(esc).0;
            &&& closed.mode == UiMode::Normal
            &&& closed.normal_keyed(key, now).0.reviewing()
            &&& closed.normal_keyed(key, now).0.mode == UiMode::Overlay
        }),
{
    reveal(ModelView::command_keyed);
    reveal(ModelView::normal_keyed);
}

proof fn lemma_review_stays_active(overlay: OverlayView, key: KeyEvent)
    requires
        overlay.is_active(),
    ensures
        overlay.keyed(key).0.is_active(),
{
    reveal(OverlayView::keyed);
}

proof fn lemma_preview_keys(m: ModelView, key: KeyEvent, now: u64)
    requires
        m.overlay_keys_ok(),
    ensures
        m.preview_keyed(key, now).0.overlay_keys_ok(),
{
    reveal(ModelView::preview_keyed);
    reveal(ModelView::preview_served);
    reveal(ModelView::preview_left);
    reveal(ModelView::preview_resumed);
}

proof fn lemma_turn_requests(m: ModelView)
    requires
        m.mode != UiMode::Overlay,
    ensures
        m.turn_requested().0.mode != UiMode::Overlay,
        m.cancel_requested().0.mode != UiMode::Overlay,
        m.plan_toggled().0.mode != UiMode::Overlay,
{
    reveal(ModelView::turn_requested);
    reveal(ModelView::cancel_requested);
    reveal(ModelView::plan_toggled);
}

proof fn lemma_commands(m: ModelView, command: Seq<char>)
    requires
        m.mode == UiMode::Normal,
    ensures
        m.commanded(command).0.mode != UiMode::Overlay,
{
    reveal(ModelView::commanded);
    lemma_turn_requests(m);
}

proof fn lemma_command_keys(m: ModelView, key: KeyEvent)
    requires
        m.mode == UiMode::Command,
    ensures
        m.command_keyed(key).0.overlay_keys_ok(),
{
    reveal(ModelView::command_keyed);
    lemma_commands(
        ModelView { command: Seq::empty(), mode: UiMode::Normal, ..m },
        m.command,
    );
}

proof fn lemma_insert_keys(m: ModelView, key: KeyEvent, now: u64)
    requires
        m.mode == UiMode::Insert,
    ensures
        m.insert_keyed(key, now).0.overlay_keys_ok(),
{
    reveal(ModelView::insert_keyed);
    reveal(ModelView::draft_keyed);
    reveal(ModelView::popup_keyed);
    reveal(ModelView::popup_synced);
    reveal(ModelView::skill_accepted);
    reveal(ModelView::insert_turn_requested);
    reveal(ModelView::turn_requested);
    reveal(ModelView::plan_toggled);
}

proof fn lemma_normal_keys(m: ModelView, key: KeyEvent, now: u64)
    requires
        m.mode == UiMode::Normal,
        m.screen == Screen::Workspace,
    ensures
        m.normal_keyed(key, now).0.overlay_keys_ok(),
{
    reveal(ModelView::normal_keyed);
    reveal(ModelView::select_entered);
    lemma_turn_requests(m);
}

proof fn lemma_select_keys(m: ModelView, key: KeyEvent, now: u64)
    requires
        m.mode == UiMode::TranscriptSelect,
    ensures
        m.select_keyed(key, now).0.mode != UiMode::Overlay,
{
    reveal(ModelView::select_keyed);
    reveal(ModelView::row_copied);
    reveal(ModelView::row_entered);
    reveal(ModelView::preview_served);
}

proof fn lemma_workspace_keys(m: ModelView, key: KeyEvent, now: u64)
    requires
        m.overlay_keys_ok(),
        m.screen == Screen::Workspace,
    ensures
        m.workspace_keyed(key, now).0.overlay_keys_ok(),
{
    match m.mode {
        UiMode::Normal => {
            lemma_normal_keys(m, key, now);
        },
        UiMode::Insert => {
            lemma_insert_keys(m, key, now);
        },
        UiMode::TranscriptSelect => {
            lemma_select_keys(m, key, now);
        },
        _ => {},
    }
}

/// A key leaves the keys with an overlay only where there is one.
pub proof fn pressed_keys_keep_overlays(model: ModelView, key: KeyEvent, now: u64)
    requires
        model.overlay_keys_ok(),
    ensures
        model.pressed(key, now).0.overlay_keys_ok(),
{
    reveal(ModelView::pressed);
    let m = if key.code == KeyCode::Esc {
        model
    } else {
        ModelView { last_esc: None, ..model }
    };
    if m.forward_allowed() && m.forward.len() > 0 && m.goes_forward(key) {
        reveal(ModelView::preview_resumed);
    } else if m.screen == Screen::Workspace && m.previews.len() > 0 {
        lemma_preview_keys(m, key, now);
    } else if m.screen == Screen::Workspace && m.picker is Some {
        reveal(ModelView::picker_keyed);
    } else if m.screen == Screen::Workspace && m.reviewing() {
        reveal(ModelView::approval_keyed);
        lemma_review_stays_active(m.approval->0, key);
    } else if m.mode == UiMode::Command {
        lemma_command_keys(m, key);
    } else if m.screen == Screen::Dashboard {
        reveal(ModelView::dashboard_keyed);
    } else {
        lemma_workspace_keys(m, key, now);
    }
    reveal(ModelView::cancel_requested);
}

/// A key without modifiers, pressed.
pub open spec fn plain_key(code: KeyCode) -> KeyEvent {
    KeyEvent { code, modifiers: no_modifiers(), kind: KeyEventKind::Press }
}

impl ModelView {
    /// The keys belong to the workspace: nothing lies on top of it.
    pub open spec fn in_workspace(self) -> bool {
        &&& self.screen == Screen::Workspace
        &&& self.previews.len() == 0
        &&& self.forward.len() == 0
        &&& self.picker is None
        &&& !self.reviewing()
    }

    /// The keys belong to the transcript.
    pub open spec fn reading(self) -> bool {
        self.in_workspace() && self.mode == UiMode::Normal
    }

    /// The keys belong to the composer, and no skills are offered.
    pub open spec fn writing(self) -> bool {
        self.in_workspace() && self.mode == UiMode::Insert && self.popup is None
    }

    /// The keys belong to the dashboard.
    pub open spec fn browsing(self) -> bool {
        self.screen == Screen::Dashboard && self.mode == UiMode::Normal
    }

    /// The keys belong to the command line.
    pub open spec fn entering_command(self) -> bool {
        self.in_workspace() && self.mode == UiMode::Command
    }

    /// All but the window on the transcript is as in `before`.
    pub open spec fn scrolled_from(self, before: ModelView) -> bool {
        self == (ModelView {
            scroll: self.scroll,
            auto_scroll: self.auto_scroll,
            last_esc: None,
            ..before
        })
    }

    /// Exactly the effect `kind` was asked for, and `context` is kept for it.
    pub open spec fn asks_for(
        self,
        effects: Seq<EffectView>,
        kind: EffectKindView,
        context: ContextView,
    ) -> bool {
        &&& effects.len() == 1
        &&& effects[0].kind == kind
        &&& effects[0].id == self.counter
        &&& self.contexts.dom().contains(self.counter)
        &&& self.contexts[self.counter] == context
    }
}

/// Page keys scroll the transcript by a page, which is a row less than the
/// window shows but at least one: PageUp towards the start and PageDown
/// towards the end, neither beyond it.
pub proof fn page_keys_scroll_by_a_page(model: ModelView, now: u64)
    requires
        model.reading(),
    ensures
        ({
            let step = if model.viewport > 2 {
                model.viewport - 1
            } else {
                1
            };
            let (up, up_effects) = model.keyed(plain_key(KeyCode::PageUp), now);
            let (down, down_effects) = model.keyed(plain_key(KeyCode::PageDown), now);
            let end = model.farthest(model.viewport);
            &&& up.scroll <= model.scroll
            &&& up.scroll == if model.scroll > step {
                model.scroll - step
            } else {
                0
            }
            &&& !up.auto_scroll
            &&& up.scrolled_from(model)
            &&& up_effects.len() == 0
            &&& model.scroll <= end ==> model.scroll <= down.scroll <= end
            &&& down.scroll == if model.scroll + step < end {
                model.scroll + step
            } else {
                end as int
            }
            &&& down.auto_scroll <==> down.scroll == end
            &&& down.scrolled_from(model)
            &&& down_effects.len() == 0
        }),
{
    reveal(ModelView::pressed);
    reveal(ModelView::normal_keyed);
}

/// Up and `k` scroll the transcript up by a row, Down and `j` down by one;
/// Home goes to its start and End to its end.
pub proof fn line_keys_scroll_by_a_row(model: ModelView, now: u64)
    requires
        model.reading(),
    ensures
        ({
            let up = model.keyed(plain_key(KeyCode::Up), now).0;
            let down = model.keyed(plain_key(KeyCode::Down), now).0;
            let home = model.keyed(plain_key(KeyCode::Home), now).0;
            let last = model.keyed(plain_key(KeyCode::End), now).0;
            let end = model.farthest(model.viewport);
            &&& up.scroll == if model.scroll > 0 {
                model.scroll - 1
            } else {
                0
            }
            &&& !up.auto_scroll
            &&& up.scrolled_from(model)
            &&& model.keyed(plain_key(KeyCode::Char('k')), now).0 == up
            &&& down.scroll == if model.scroll < end {
                model.scroll + 1
            } else {
                end as int
            }
            &&& down.auto_scroll <==> down.scroll == end
            &&& down.scrolled_from(model)
            &&& model.keyed(plain_key(KeyCode::Char('j')), now).0 == down
            &&& home.scroll == 0
            &&& !home.auto_scroll
            &&& home.scrolled_from(model)
            &&& last.scroll == end
            &&& last.auto_scroll
            &&& last.scrolled_from(model)
        }),
{
    reveal(ModelView::pressed);
    reveal(ModelView::normal_keyed);
}

/// From the transcript, `i` goes to the composer, `:` opens an empty command
/// line, `I` shows or hides the inspector, and `q` leaves unless a draft would
/// be lost.
pub proof fn letters_command_the_workspace(model: ModelView, now: u64)
    requires
        model.reading(),
    ensures
        ({
            let insert = model.keyed(plain_key(KeyCode::Char('i')), now).0;
            let command = model.keyed(plain_key(KeyCode::Char(':')), now).0;
            let toggled = model.keyed(plain_key(KeyCode::Char('I')), now).0;
            let (left, effects) = model.keyed(plain_key(KeyCode::Char('q')), now);
            &&& insert == (ModelView {
                mode: UiMode::Insert,
                focus: FocusTarget::Composer,
                last_esc: None,
                ..model
            })
            &&& command == (ModelView {
                mode: UiMode::Command,
                command: Seq::empty(),
                last_esc: None,
                ..model
            })
            &&& toggled.inspector == !model.inspector
            &&& toggled.mode == model.mode
            &&& model.inspector && model.focus == FocusTarget::Inspector ==> toggled.focus
                == FocusTarget::Transcript
            &&& model.focus != FocusTarget::Inspector ==> toggled.focus == model.focus
            &&& model.composer.text.len() == 0 ==> left.asks_for(
                effects,
                EffectKindView::Exit,
                ContextView::Exit,
            )
            &&& model.composer.text.len() > 0 ==> effects.len() == 0 && left == (ModelView {
                last_esc: None,
                ..model
            })
        }),
{
    reveal(ModelView::pressed);
    reveal(ModelView::normal_keyed);
}

/// Tab takes the focus round the panes that are shown.
pub proof fn tab_goes_round_the_panes(model: ModelView, now: u64)
    requires
        model.reading(),
    ensures
        ({
            let after = model.keyed(plain_key(KeyCode::Tab), now).0;
            &&& model.focus == FocusTarget::Transcript && model.inspector ==> after.focus
                == FocusTarget::Inspector
            &&& model.focus == FocusTarget::Transcript && !model.inspector ==> after.focus
                == FocusTarget::Composer
            &&& model.focus == FocusTarget::Inspector ==> after.focus == FocusTarget::Composer
            &&& model.focus == FocusTarget::Composer ==> after.focus == FocusTarget::Transcript
            &&& model.focus == FocusTarget::Dashboard || model.focus == FocusTarget::Overlay
                ==> after.focus == FocusTarget::Transcript
            &&& after.mode == model.mode
            &&& after.scroll == model.scroll
        }),
{
    reveal(ModelView::pressed);
    reveal(ModelView::normal_keyed);
}

/// In the composer, a character is typed where the cursor is, Enter breaks the
/// line there, and Tab puts in four spaces.
pub proof fn keys_write_the_draft(model: ModelView, ch: char, shifted: bool, now: u64)
    requires
        model.writing(),
        model.composer.cursor <= model.composer.text.len(),
    ensures
        ({
            let c = model.composer;
            let key = KeyEvent {
                code: KeyCode::Char(ch),
                modifiers: KeyModifiers { shift: shifted, ..no_modifiers() },
                kind: KeyEventKind::Press,
            };
            let typed = model.keyed(key, now).0.composer;
            let broken = model.keyed(plain_key(KeyCode::Enter), now).0.composer;
            let spaced = model.keyed(plain_key(KeyCode::Tab), now).0.composer;
            let back = model.keyed(plain_key(KeyCode::Backspace), now).0.composer;
            let del = model.keyed(plain_key(KeyCode::Delete), now).0.composer;
            &&& typed.text =~= c.text.take(c.cursor as int).push(ch) + c.text.skip(c.cursor as int)
            &&& typed.cursor == c.cursor + 1
            &&& broken.text =~= c.text.take(c.cursor as int).push('\n') + c.text.skip(
                c.cursor as int,
            )
            &&& broken.cursor == c.cursor + 1
            &&& spaced.text =~= c.text.take(c.cursor as int) + seq![' ', ' ', ' ', ' ']
                + c.text.skip(c.cursor as int)
            &&& spaced.cursor == c.cursor + 4
            &&& c.cursor > 0 ==> back.text =~= c.text.take(c.cursor - 1) + c.text.skip(
                c.cursor as int,
            ) && back.cursor == c.cursor - 1
            &&& c.cursor == 0 ==> back == c
            &&& c.cursor < c.text.len() ==> del.text =~= c.text.take(c.cursor as int)
                + c.text.skip((c.cursor + 1) as int) && del.cursor == c.cursor
            &&& c.cursor == c.text.len() ==> del == c
        }),
{
    reveal(ModelView::pressed);
    reveal(ModelView::insert_keyed);
    reveal(ModelView::popup_keyed);
    reveal(ModelView::draft_keyed);
    reveal(ModelView::popup_synced);
    reveal_strlit("    ");
    assert("    "@ =~= seq![' ', ' ', ' ', ' ']);
}

/// In the composer, arrows, Home and End move the cursor and change no text;
/// Esc goes back to the transcript and keeps the draft.
pub proof fn keys_move_in_the_draft(model: ModelView, now: u64)
    requires
        model.writing(),
        model.composer.cursor <= model.composer.text.len(),
    ensures
        ({
            let c = model.composer;
            let left = model.keyed(plain_key(KeyCode::Left), now).0.composer;
            let right = model.keyed(plain_key(KeyCode::Right), now).0.composer;
            let home = model.keyed(plain_key(KeyCode::Home), now).0.composer;
            let end = model.keyed(plain_key(KeyCode::End), now).0.composer;
            let up = model.keyed(plain_key(KeyCode::Up), now).0.composer;
            let down = model.keyed(plain_key(KeyCode::Down), now).0.composer;
            let width = columns_of(model.terminal_width);
            let left_off = model.keyed(plain_key(KeyCode::Esc), now).0;
            &&& left.text == c.text && right.text == c.text && home.text == c.text && end.text
                == c.text && up.text == c.text && down.text == c.text
            &&& left.cursor == if c.cursor > 0 {
                c.cursor - 1
            } else {
                0
            }
            &&& right.cursor == if c.cursor < c.text.len() {
                c.cursor + 1
            } else {
                c.cursor
            }
            &&& home.cursor <= c.cursor <= end.cursor <= c.text.len()
            &&& forall|i: int| home.cursor <= i < end.cursor ==> #[trigger] c.text[i] != '\n'
            &&& home.cursor == 0 || c.text[home.cursor - 1] == '\n'
            &&& end.cursor == c.text.len() || c.text[end.cursor as int] == '\n'
            &&& up == c.moved_up(width)
            &&& down == c.moved_down(width)
            &&& left_off.mode == UiMode::Normal
            &&& left_off.focus == FocusTarget::Transcript
            &&& left_off.composer == c
            &&& left_off.last_esc == Some(now)
        }),
{
    reveal(ModelView::pressed);
    reveal(ModelView::insert_keyed);
    reveal(ModelView::popup_keyed);
    reveal(ModelView::draft_keyed);
    reveal(ModelView::popup_synced);
    lines_lie_between_line_feeds(model.composer.text, model.composer.cursor);
}

/// Ctrl-Enter sends the draft and goes back to the transcript; a bare Enter
/// sends nothing.
pub proof fn only_ctrl_enter_sends(model: ModelView, now: u64)
    requires
        model.writing(),
    ensures
        ({
            let key = KeyEvent {
                code: KeyCode::Enter,
                modifiers: only_control(),
                kind: KeyEventKind::Press,
            };
            let (sent, effects) = model.keyed(key, now);
            &&& model.keyed(plain_key(KeyCode::Enter), now).1.len() == 0
            &&& !model.running && model.thread is Some && !blank(model.composer.text) ==> {
                &&& sent.asks_for(
                    effects,
                    EffectKindView::TurnStart {
                        thread: model.thread->0,
                        input: model.composer.text,
                    },
                    ContextView::TurnStart { thread: model.thread->0, input: model.composer.text },
                )
                &&& sent.composer.text.len() == 0
                &&& sent.composer.cursor == 0
                &&& sent.mode == UiMode::Normal
                &&& sent.focus == FocusTarget::Transcript
                &&& sent.status == "Starting turn"@
            }
            &&& model.running || model.thread is None || blank(model.composer.text)
                ==> effects.len() == 0 && sent.mode == UiMode::Insert
            &&& model.running ==> sent.composer == model.composer
        }),
{
    reveal(ModelView::pressed);
    reveal(ModelView::insert_keyed);
    reveal(ModelView::popup_keyed);
    reveal(ModelView::draft_keyed);
    reveal(ModelView::popup_synced);
    reveal(ModelView::insert_turn_requested);
    reveal(ModelView::turn_requested);
    blank_texts_are_white_space(model.composer.text);
}

/// A text of white space alone.
pub open spec fn blank(text: Seq<char>) -> bool {
    forall|i: int| 0 <= i < text.len() ==> white_space(#[trigger] text[i])
}

/// A word: some characters, none of them white space.
pub open spec fn is_word(word: Seq<char>) -> bool {
    word.len() > 0 && forall|i: int| 0 <= i < word.len() ==> !white_space(#[trigger] word[i])
}

/// What may follow a word: nothing, or white space first.
pub open spec fn ends_word(rest: Seq<char>) -> bool {
    rest.len() == 0 || white_space(rest[0])
}

/// The first word of a text stands behind leading white space and ends at the
/// next white space.
pub proof fn first_words_are_found(pad: Seq<char>, word: Seq<char>, rest: Seq<char>)
    requires
        blank(pad),
        is_word(word),
        ends_word(rest),
    ensures
        first_word(pad + word + rest) == word,
        after_first_word(pad + word + rest) == rest,
    decreases pad.len(),
{
    let text = pad + word + rest;
    if pad.len() > 0 {
        assert(text[0] == pad[0]);
        assert(text.drop_first() =~= pad.drop_first() + word + rest);
        assert(trim_start(text) == trim_start(text.drop_first()));
        first_words_are_found(pad.drop_first(), word, rest);
    } else {
        assert(text =~= word + rest);
        assert(text[0] == word[0]);
        assert(trim_start(text) == text);
        lemma_space_behind(text, word.len(), 0);
        assert(text.take(word.len() as int) =~= word);
        assert(text.skip(word.len() as int) =~= rest);
    }
}

proof fn lemma_space_behind(text: Seq<char>, n: nat, i: nat)
    requires
        i <= n <= text.len(),
        forall|j: int| 0 <= j < n ==> !white_space(#[trigger] text[j]),
        n == text.len() || white_space(text[n as int]),
    ensures
        first_space(text, i) == n,
    decreases n - i,
{
    if i < n {
        lemma_space_behind(text, n, i + 1);
    }
}

/// A text of white space holds no word.
pub proof fn blank_texts_hold_no_word(text: Seq<char>)
    requires
        blank(text),
    ensures
        first_word(text).len() == 0,
    decreases text.len(),
{
    if text.len() > 0 {
        assert(white_space(text[0]));
        assert forall|i: int| 0 <= i < text.drop_first().len() implies white_space(
            #[trigger] text.drop_first()[i],
        ) by {
            assert(text.drop_first()[i] == text[i + 1]);
        }
        blank_texts_hold_no_word(text.drop_first());
    }
}

/// The words of the command line differ.
proof fn lemma_command_words()
    ensures
        "send"@.len() == 4 && "send"@[0] == 's',
        "cancel"@.len() == 6,
        "plan"@.len() == 4 && "plan"@[0] == 'p',
        "quit"@.len() == 4 && "quit"@[0] == 'q',
        "q"@.len() == 1,
        "clear"@.len() == 5 && "clear"@[0] == 'c',
        "focus"@.len() == 5 && "focus"@[0] == 'f',
        "inspector"@.len() == 9 && "inspector"@[0] == 'i',
        "help"@.len() == 4 && "help"@[0] == 'h',
        "transcript"@.len() == 10,
        "main"@.len() == 4 && "main"@[0] == 'm',
        "side"@.len() == 4 && "side"@[0] == 's',
        "composer"@.len() == 8,
        "input"@.len() == 5,
        "dashboard"@.len() == 9 && "dashboard"@[0] == 'd',
        "toggle"@.len() == 6,
        "show"@.len() == 4 && "show"@[0] == 's',
        "hide"@.len() == 4 && "hide"@[0] == 'h',
{
    reveal_strlit("send");
    reveal_strlit("cancel");
    reveal_strlit("plan");
    reveal_strlit("quit");
    reveal_strlit("q");
    reveal_strlit("clear");
    reveal_strlit("focus");
    reveal_strlit("inspector");
    reveal_strlit("help");
    reveal_strlit("transcript");
    reveal_strlit("main");
    reveal_strlit("side");
    reveal_strlit("composer");
    reveal_strlit("input");
    reveal_strlit("dashboard");
    reveal_strlit("toggle");
    reveal_strlit("show");
    reveal_strlit("hide");
}

/// Enter carries out the command that was typed and leaves the command line:
/// `quit` and `q` leave, `clear` empties the transcript, `help` lists the
/// commands, `send`, `cancel` and `plan` do what their keys do, and any other
/// word is reported.
pub proof fn commands_are_carried_out(
    model: ModelView,
    pad: Seq<char>,
    word: Seq<char>,
    rest: Seq<char>,
    now: u64,
)
    requires
        model.entering_command(),
        blank(pad),
        is_word(word),
        ends_word(rest),
        model.command == pad + word + rest,
    ensures
        ({
            let (after, effects) = model.keyed(plain_key(KeyCode::Enter), now);
            let before = ModelView {
                command: Seq::empty(),
                mode: UiMode::Normal,
                last_esc: None,
                ..model
            };
            &&& after.command.len() == 0
            &&& word == "quit"@ || word == "q"@ ==> after.asks_for(
                effects,
                EffectKindView::Exit,
                ContextView::Exit,
            )
            &&& word == "clear"@ ==> effects.len() == 0 && after.transcript.items.len() == 0
            &&& word == "help"@ ==> effects.len() == 0 && after.transcript.extends(
                model.transcript,
                1,
            ) && after.transcript.items.last().kind == info_kind(command_help())
            &&& word == "send"@ ==> (after, effects) == before.turn_requested()
            &&& word == "cancel"@ ==> (after, effects) == before.cancel_requested()
            &&& word == "plan"@ ==> (after, effects) == before.plan_toggled()
            &&& word != "send"@ && word != "cancel"@ && word != "plan"@ && word != "quit"@ && word
                != "q"@ && word != "clear"@ && word != "focus"@ && word != "inspector"@ && word
                != "help"@ ==> effects.len() == 0 && after.transcript.extends(model.transcript, 1)
                && after.transcript.items.last().kind == error_kind("unknown command: "@ + word)
        }),
{
    reveal(ModelView::pressed);
    reveal(ModelView::command_keyed);
    reveal(ModelView::commanded);
    reveal(TranscriptView::with_item);
    first_words_are_found(pad, word, rest);
    lemma_command_words();
    lemma_requests_keep_command(
        ModelView { command: Seq::empty(), mode: UiMode::Normal, last_esc: None, ..model },
    );
}

proof fn lemma_requests_keep_command(model: ModelView)
    ensures
        model.turn_requested().0.command == model.command,
        model.cancel_requested().0.command == model.command,
        model.plan_toggled().0.command == model.command,
{
    reveal(ModelView::turn_requested);
    reveal(ModelView::cancel_requested);
    reveal(ModelView::plan_toggled);
}

/// `focus` and `inspector` take a second word that says where to and how; other
/// words are answered by the usage.
pub proof fn commands_take_a_word(
    model: ModelView,
    command: Seq<char>,
    between: Seq<char>,
    word: Seq<char>,
    rest: Seq<char>,
    now: u64,
)
    requires
        model.entering_command(),
        command == "focus"@ || command == "inspector"@,
        between.len() > 0,
        blank(between),
        is_word(word),
        ends_word(rest),
        model.command == command + (between + word + rest),
    ensures
        ({
            let (after, effects) = model.keyed(plain_key(KeyCode::Enter), now);
            let told = after.transcript.extends(model.transcript, 1);
            &&& effects.len() == 0
            &&& command == "focus"@ ==> {
                &&& word == "transcript"@ || word == "main"@ ==> after.focus
                    == FocusTarget::Transcript && after.mode == UiMode::Normal
                &&& word == "inspector"@ || word == "side"@ ==> after.focus
                    == FocusTarget::Inspector && after.inspector
                &&& word == "composer"@ || word == "input"@ ==> after.focus
                    == FocusTarget::Composer && after.mode == UiMode::Insert
                &&& word == "dashboard"@ ==> after.focus == FocusTarget::Dashboard && after.screen
                    == Screen::Dashboard && after.select is None
                &&& word != "transcript"@ && word != "main"@ && word != "inspector"@ && word
                    != "side"@ && word != "composer"@ && word != "input"@ && word
                    != "dashboard"@ ==> told && after.transcript.items.last().kind
                    == info_kind("usage: :focus transcript|inspector|composer|dashboard"@)
            }
            &&& command == "inspector"@ ==> {
                &&& word == "show"@ ==> after.inspector
                &&& word == "hide"@ ==> !after.inspector && after.focus != FocusTarget::Inspector
                &&& word == "toggle"@ ==> after.inspector == !model.inspector
                &&& word != "show"@ && word != "hide"@ && word != "toggle"@ ==> told
                    && after.transcript.items.last().kind == info_kind(
                    "usage: :inspector toggle|show|hide"@,
                ) && after.inspector == model.inspector
            }
        }),
{
    reveal(ModelView::pressed);
    reveal(ModelView::command_keyed);
    reveal(ModelView::commanded);
    reveal(TranscriptView::with_item);
    lemma_command_words();
    reveal_strlit("focus");
    reveal_strlit("inspector");
    lemma_command_is_word(command);
    let tail = between + word + rest;
    assert(tail[0] == between[0]);
    first_words_are_found(Seq::empty(), command, tail);
    assert(Seq::<char>::empty() + command + tail =~= model.command);
    first_words_are_found(between, word, rest);
}

proof fn lemma_command_is_word(command: Seq<char>)
    requires
        command == "focus"@ || command == "inspector"@,
    ensures
        is_word(command),
{
    reveal_strlit("focus");
    reveal_strlit("inspector");
}

/// The command line is typed character by character, Backspace takes the last
/// one, and Esc drops it all.
pub proof fn keys_write_the_command(model: ModelView, ch: char, now: u64)
    requires
        model.entering_command(),
    ensures
        ({
            let typed = model.keyed(plain_key(KeyCode::Char(ch)), now).0;
            let back = typed.keyed(plain_key(KeyCode::Backspace), now).0;
            let dropped = model.keyed(plain_key(KeyCode::Esc), now).0;
            let none = (ModelView { command: Seq::empty(), ..model }).keyed(
                plain_key(KeyCode::Backspace),
                now,
            ).0;
            &&& typed.command =~= model.command.push(ch)
            &&& typed.mode == UiMode::Command
            &&& back.command =~= model.command
            &&& back.mode == UiMode::Command
            &&& none.command.len() == 0
            &&& none.mode == UiMode::Command
            &&& dropped.command.len() == 0
            &&& dropped.mode == UiMode::Normal
        }),
{
    reveal(ModelView::pressed);
    reveal(ModelView::command_keyed);
}

/// On the dashboard, `n` starts a thread, `q` and Esc leave, and Enter resumes
/// the selected session.
pub proof fn dashboard_keys_ask(model: ModelView, now: u64)
    requires
        model.browsing(),
    ensures
        ({
            let (fresh, fresh_effects) = model.keyed(plain_key(KeyCode::Char('n')), now);
            let (left, left_effects) = model.keyed(plain_key(KeyCode::Char('q')), now);
            let (gone, gone_effects) = model.keyed(plain_key(KeyCode::Esc), now);
            let (opened, effects) = model.keyed(plain_key(KeyCode::Enter), now);
            let d = model.dashboard;
            &&& fresh.asks_for(
                fresh_effects,
                EffectKindView::ThreadStart,
                ContextView::ThreadStart,
            )
            &&& fresh.status == "Starting new thread"@
            &&& left.asks_for(left_effects, EffectKindView::Exit, ContextView::Exit)
            &&& gone.asks_for(gone_effects, EffectKindView::Exit, ContextView::Exit)
            &&& d.selected >= d.items.len() ==> effects.len() == 0
            &&& d.selected < d.items.len() ==> match d.items[d.selected as int].thread_id.parsed {
                Ok(id) => {
                    &&& opened.asks_for(
                        effects,
                        EffectKindView::ThreadResume { thread: id@ },
                        ContextView::ThreadResume { thread: id@ },
                    )
                    &&& opened.status == "Resuming thread "@
                        + d.items[d.selected as int].thread_id.text@
                },
                Err(reason) => {
                    &&& effects.len() == 0
                    &&& opened.dashboard.error == Some("invalid thread id: "@ + reason@)
                },
            }
        }),
{
    reveal(ModelView::pressed);
    reveal(ModelView::dashboard_keyed);
}

/// On the dashboard, arrows and page keys move the selection up and down, by
/// one session or by as many as are shown, and it stays among the sessions.
pub proof fn dashboard_keys_select(model: ModelView, now: u64)
    requires
        model.browsing(),
        model.dashboard.selected < model.dashboard.items.len() <= usize::MAX,
    ensures
        ({
            let at = model.dashboard.selected;
            let last = model.dashboard.items.len() - 1;
            let page = if model.viewport >= 6 {
                (model.viewport - 4) / 2
            } else {
                1
            };
            let up = model.keyed(plain_key(KeyCode::Up), now).0.dashboard;
            let down = model.keyed(plain_key(KeyCode::Down), now).0.dashboard;
            let page_up = model.keyed(plain_key(KeyCode::PageUp), now).0.dashboard;
            let page_down = model.keyed(plain_key(KeyCode::PageDown), now).0.dashboard;
            let home = model.keyed(plain_key(KeyCode::Home), now).0.dashboard;
            let end = model.keyed(plain_key(KeyCode::End), now).0.dashboard;
            &&& up.selected == if at > 0 {
                at - 1
            } else {
                0
            }
            &&& model.keyed(plain_key(KeyCode::Char('k')), now).0.dashboard == up
            &&& down.selected == if at < last {
                at + 1
            } else {
                last
            }
            &&& model.keyed(plain_key(KeyCode::Char('j')), now).0.dashboard == down
            &&& page_up.selected == if at > page {
                at - page
            } else {
                0
            }
            &&& page_down.selected == if at + page < last {
                at + page
            } else {
                last
            }
            &&& home.selected == 0
            &&& end.selected == last
            &&& up.items == model.dashboard.items && down.items == model.dashboard.items
            &&& up.scroll_offset <= up.selected < up.scroll_offset + page
            &&& down.scroll_offset <= down.selected < down.scroll_offset + page
        }),
{
    reveal(ModelView::pressed);
    reveal(ModelView::dashboard_keyed);
}

/// The answer to a question goes to the server and into the transcript, a
/// question that is declined fails, and either closes the question; any other
/// key leaves it open.
pub proof fn questions_are_answered(model: ModelView, picker: PickerView, key: KeyEvent, now: u64)
    requires
        model.screen == Screen::Workspace,
        model.previews.len() == 0,
        model.forward.len() == 0,
        model.picker == Some(picker),
        key.kind == KeyEventKind::Press,
        !(key.code == KeyCode::Char('c') && key.modifiers.control),
    ensures
        ({
            let (after, effects) = model.keyed(key, now);
            let (next, outcome) = picker.keyed(key);
            match outcome {
                OutcomeView::Nothing => {
                    &&& after.picker == Some(next)
                    &&& effects.len() == 0
                    &&& after.mode == model.mode
                    &&& after.transcript == model.transcript
                },
                OutcomeView::Confirm(answers) => {
                    &&& after.picker is None
                    &&& after.asks_for(
                        effects,
                        EffectKindView::AnswerQuestion { request_id: next.request_id, answers },
                        ContextView::ServerRequest,
                    )
                    &&& after.mode == UiMode::Normal
                    &&& after.focus == FocusTarget::Transcript
                    &&& after.transcript.extends(model.transcript, 1)
                    &&& after.transcript.items.last().kind matches KindView::Plain { lines, .. }
                        && lines == answer_rows(answers)
                },
                OutcomeView::Cancel => {
                    &&& after.picker is None
                    &&& effects.len() == 1
                    &&& effects[0].kind matches EffectKindView::FailQuestion { request_id, error }
                        && request_id == next.request_id && error.code == -32001 && error.kind
                        == "user_declined"@ && error.message == "user declined to answer"@
                    &&& after.mode == UiMode::Normal
                    &&& after.transcript == model.transcript
                },
            }
        }),
{
    reveal(ModelView::pressed);
    reveal(ModelView::picker_keyed);
    reveal(TranscriptView::with_item);
}

/// The decision on a plan goes to the server and closes the plan; a deferred
/// plan is put aside and nothing is sent; the editor is asked for where the
/// plan belongs to a thread.
pub proof fn plans_are_decided(model: ModelView, overlay: OverlayView, key: KeyEvent, now: u64)
    requires
        model.screen == Screen::Workspace,
        model.previews.len() == 0,
        model.forward.len() == 0,
        model.picker is None,
        model.approval == Some(overlay),
        overlay.is_active(),
        key.kind == KeyEventKind::Press,
        !(key.code == KeyCode::Char('c') && key.modifiers.control),
    ensures
        ({
            let (after, effects) = model.keyed(key, now);
            let (next, outcome) = overlay.keyed(key);
            match outcome {
                ApprovalOutcomeView::Nothing => {
                    &&& after.approval == Some(next)
                    &&& effects.len() == 0
                    &&& after.mode == model.mode
                },
                ApprovalOutcomeView::Respond(response) => {
                    &&& after.approval is None
                    &&& after.asks_for(
                        effects,
                        EffectKindView::RespondPlanApproval {
                            request_id: next.request_id,
                            response,
                        },
                        ContextView::ServerRequest,
                    )
                    &&& after.mode == UiMode::Normal
                    &&& after.focus == FocusTarget::Transcript
                },
                ApprovalOutcomeView::Defer => {
                    &&& after.approval is Some
                    &&& !after.approval->0.is_active()
                    &&& after.approval->0.plan == next.plan
                    &&& effects.len() == 0
                    &&& after.mode == UiMode::Normal
                    &&& after.focus == FocusTarget::Transcript
                },
                ApprovalOutcomeView::OpenEditor => {
                    &&& after.approval == Some(next)
                    &&& next.thread_id is None ==> effects.len() == 0
                    &&& next.thread_id is Some ==> after.asks_for(
                        effects,
                        EffectKindView::OpenEditor { thread: next.thread_id->0 },
                        ContextView::OpenEditor,
                    )
                },
            }
        }),
{
    reveal(ModelView::pressed);
    reveal(ModelView::approval_keyed);
}

/// A plan that was edited replaces the one under review, from its first row;
/// a plan that is not under review stays.
pub proof fn edited_plans_are_shown(model: ModelView, plan: Seq<char>)
    ensures
        ({
            let after = model.plan_reloaded(plan);
            &&& model.reviewing() && model.approval->0.thread_id is Some ==> {
                &&& after.approval is Some
                &&& after.approval->0.plan == plan
                &&& after.approval->0.scroll == 0
                &&& after.approval->0.is_active()
                &&& after.approval->0.request_id == model.approval->0.request_id
            }
            &&& !(model.reviewing() && model.approval->0.thread_id is Some) ==> after == model
        }),
{
}

/// Pasted text goes into the draft where it is being written, with uniform line
/// breaks, and nowhere else in the workspace.
pub proof fn pasted_text_joins_the_draft(model: ModelView, text: String, now: u64)
    requires
        model.in_workspace(),
        model.composer.cursor <= model.composer.text.len(),
    ensures
        ({
            let (after, effects) = model.terminal_event(TerminalEvent::Paste(text), now);
            let c = model.composer;
            let kept = with_breaks(text@, '\n', '\t');
            &&& effects.len() == 0
            &&& model.mode == UiMode::Insert ==> after.composer.text =~= c.text.take(
                c.cursor as int,
            ) + kept + c.text.skip(c.cursor as int) && after.composer.cursor == c.cursor
                + kept.len()
            &&& model.mode != UiMode::Insert ==> after == model
        }),
{
    reveal(ModelView::pasted);
    reveal(ModelView::popup_synced);
}

/// What the terminal reports reaches the model: keys, sizes, and nothing else.
pub proof fn terminal_events_are_followed(model: ModelView, key: KeyEvent, width: u16, height: u16, now: u64)
    ensures
        model.terminal_event(TerminalEvent::Key(key), now) == model.keyed(key, now),
        model.terminal_event(TerminalEvent::Other, now) == model.quietly(),
        ({
            let (after, effects) = model.terminal_event(
                TerminalEvent::Resize { width, height },
                now,
            );
            &&& effects.len() == 0
            &&& after.terminal_width == width
            &&& after == (ModelView {
                terminal_width: width,
                viewport: after.viewport,
                ..model
            })
            &&& model.screen == Screen::Dashboard && height > 0 ==> after.viewport == height
            &&& model.in_workspace() && model.mode != UiMode::Command && height > 7
                ==> after.viewport + after.composer_rows() + 3 == height
            &&& model.in_workspace() && model.mode == UiMode::Command && height > 8
                ==> after.viewport + after.composer_rows() + 4 == height
            &&& after.viewport >= 1
        }),
{
}

/// Skills are offered exactly while the cursor is in a leading slash word that
/// some skill matches; what is typed behind the slash is what is asked for.
pub proof fn skills_are_offered(model: ModelView, word: Seq<char>, rest: Seq<char>)
    requires
        model.popup is None,
        model.composer.text == seq!['/'] + word + rest,
        model.composer.cursor == word.len() + 1,
    ensures
        ({
            let after = model.popup_synced();
            let clean = forall|i: int| 0 <= i < word.len() ==> !white_space(#[trigger] word[i]);
            &&& !clean ==> after.popup is None
            &&& after.popup is Some ==> after.popup->0.skills == model.skills
                && after.popup->0.filtered == matching(model.skills, word)
                && after.popup->0.filtered.len() > 0
            &&& clean && matching(model.skills, word).len() > 0 && model.skills.len() > 0
                ==> after.popup is Some
            &&& after.composer == model.composer
        }),
{
    reveal(ModelView::popup_synced);
    let c = model.composer;
    assert(c.text[0] == '/');
    assert(c.text.subrange(1, c.cursor as int) =~= word);
}

/// Nothing is offered for a draft that does not start with a slash.
pub proof fn plain_drafts_offer_no_skills(model: ModelView)
    requires
        model.composer.text.len() == 0 || model.composer.text[0] != '/' || model.composer.cursor == 0,
    ensures
        model.popup_synced().popup is None,
{
    reveal(ModelView::popup_synced);
}

/// While skills are offered, arrows choose among them, Esc closes the list and
/// keeps the draft, and Enter or Tab puts the chosen name in place of the slash
/// word, with a space behind it where nothing follows.
pub proof fn offered_skills_are_taken(
    model: ModelView,
    popup: PopupView,
    word: Seq<char>,
    rest: Seq<char>,
    now: u64,
)
    requires
        model.in_workspace(),
        model.mode == UiMode::Insert,
        model.popup == Some(popup),
        popup.selected < popup.filtered.len(),
        forall|i: int| 0 <= i < word.len() ==> !white_space(#[trigger] word[i]),
        ends_word(rest),
        model.composer.text == seq!['/'] + word + rest,
    ensures
        ({
            let name = popup.skills[popup.filtered[popup.selected as int] as int].name@;
            let taken = model.keyed(plain_key(KeyCode::Enter), now).0;
            let tabbed = model.keyed(plain_key(KeyCode::Tab), now).0;
            let closed = model.keyed(plain_key(KeyCode::Esc), now).0;
            let up = model.keyed(plain_key(KeyCode::Up), now).0;
            let down = model.keyed(plain_key(KeyCode::Down), now).0;
            &&& taken.popup is None
            &&& taken.composer.text =~= seq!['/'] + name + if rest.len() == 0 {
                seq![' ']
            } else {
                rest
            }
            &&& taken.composer.cursor == taken.composer.text.len()
            &&& tabbed == taken
            &&& closed.popup is None
            &&& closed.composer == model.composer
            &&& closed.mode == UiMode::Insert
            &&& up.popup == Some(
                PopupView {
                    selected: if popup.selected > 0 {
                        (popup.selected - 1) as usize
                    } else {
                        0
                    },
                    ..popup
                },
            )
            &&& down.popup == Some(
                PopupView {
                    selected: if popup.selected < popup.filtered.len() - 1 {
                        (popup.selected + 1) as usize
                    } else {
                        popup.selected
                    },
                    ..popup
                },
            )
            &&& up.composer == model.composer
            &&& down.composer == model.composer
        }),
{
    reveal(ModelView::pressed);
    reveal(ModelView::insert_keyed);
    reveal(ModelView::popup_keyed);
    reveal(ModelView::skill_accepted);
    reveal_strlit("/");
    reveal_strlit(" ");
    assert("/"@ =~= seq!['/']);
    assert(" "@ =~= seq![' ']);
    let text = model.composer.text;
    assert(!white_space('/'));
    assert forall|j: int| 0 <= j < word.len() + 1 implies !white_space(#[trigger] text[j]) by {
        if j == 0 {
            assert(text[0] == '/');
        } else {
            assert(text[j] == word[j - 1]);
        }
    }
    if rest.len() > 0 {
        assert(text[(word.len() + 1) as int] == rest[0]);
    }
    lemma_space_behind(text, word.len() + 1, 0);
    assert(text.skip((word.len() + 1) as int) =~= rest);
}

} // verus!
