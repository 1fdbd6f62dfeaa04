//! Questions that the agent puts to the user: a list of options per question,
//! and a row for an answer of one's own.
use std::collections::HashSet;
use vstd::prelude::*;
use crate::composer::{
    empty_composer, line_end, line_start, ComposerState, ComposerView,
};
use crate::diff_render::columns_of;
use crate::frame::{
    draw_lines, draw_views, new_ops, separator, separator_line, shown, window, window_lines,
    DrawOp, DrawView, Rect,
};
use crate::history_cell::pane_columns;
use crate::keys::{types_text, KeyCode, KeyEvent, KeyEventKind};
use crate::protocol::{
    answer_views, dup_text, opt_text, AnswerView, AskUserQuestion, AskUserQuestionAnswer,
    AskUserQuestionOption, AskUserQuestionParams, AskUserQuestionResponse, RequestId,
};
use crate::style::{
    append_lines, blank_line, duplicate_lines, fg_style, line_of, line_views, new_lines, no_lines,
    plain, push_line, push_span, raw_of, span_of, span_views, Color, Line, LineView, Span, SpanView,
    Style,
};
use crate::text::{
    chars_of, decimal, numeral, owned, replace_breaks, string_of, texts, trim, trimmed,
    with_breaks,
};
use crate::width::unicode_text_width;
use crate::wrap::{display_width, word_wrapped, wrap_line_hanging};

verus! {

broadcast use vstd::std_specs::hash::group_hash_axioms;

// ---------------------------------------------------------------------------
// State
// ---------------------------------------------------------------------------

#[derive(Debug)]
pub enum PickerOutcome {
    Nothing,
    Confirm(AskUserQuestionResponse),
    Cancel,
}

#[verifier::ext_equal]
pub enum OutcomeView {
    Nothing,
    Confirm(Seq<AnswerView>),
    Cancel,
}

impl View for PickerOutcome {
    type V = OutcomeView;

    open spec fn view(&self) -> OutcomeView {
        match *self {
            PickerOutcome::Nothing => OutcomeView::Nothing,
            PickerOutcome::Confirm(response) => OutcomeView::Confirm(
                answer_views(response.answers@),
            ),
            PickerOutcome::Cancel => OutcomeView::Cancel,
        }
    }
}

/// How far the user has come with one question.
#[derive(Debug)]
pub struct QuestionState {
    pub cursor: usize,
    pub multi_selected: HashSet<usize>,
    pub other_editor: ComposerState,
    pub other_editing: bool,
}

#[verifier::ext_equal]
pub struct StateView {
    pub cursor: usize,
    pub chosen: Set<usize>,
    pub editor: ComposerView,
    pub editing: bool,
}

impl View for QuestionState {
    type V = StateView;

    open spec fn view(&self) -> StateView {
        StateView {
            cursor: self.cursor,
            chosen: self.multi_selected@,
            editor: self.other_editor@,
            editing: self.other_editing,
        }
    }
}

pub open spec fn state_views(states: Seq<QuestionState>) -> Seq<StateView> {
    states.map_values(|s: QuestionState| s@)
}

/// A question that nobody has looked at.
pub open spec fn fresh_state() -> StateView {
    StateView { cursor: 0, chosen: Set::empty(), editor: empty_composer(), editing: false }
}

#[derive(Debug)]
pub struct QuestionPicker {
    pub request_id: RequestId,
    pub questions: Vec<AskUserQuestion>,
    pub current: usize,
    pub states: Vec<QuestionState>,
    pub hint: Option<String>,
}

#[verifier::ext_equal]
pub struct PickerView {
    pub request_id: RequestId,
    pub questions: Seq<AskUserQuestion>,
    pub current: usize,
    pub states: Seq<StateView>,
    pub hint: Option<Seq<char>>,
}

impl View for QuestionPicker {
    type V = PickerView;

    open spec fn view(&self) -> PickerView {
        PickerView {
            request_id: self.request_id,
            questions: self.questions@,
            current: self.current,
            states: state_views(self.states@),
            hint: opt_text(self.hint),
        }
    }
}

/// The picker for a request that just came in.
pub open spec fn fresh_picker(request_id: RequestId, params: AskUserQuestionParams) -> PickerView {
    PickerView {
        request_id,
        questions: params.questions@,
        current: 0,
        states: Seq::new(params.questions@.len(), |i: int| fresh_state()),
        hint: None,
    }
}

impl QuestionPicker {
    /// There is a state for every question, one question is the current one,
    /// and every cursor is on an option or on the row for one's own answer.
    pub open spec fn wf(&self) -> bool {
        &&& self@.wf()
        &&& forall|i: int|
            0 <= i < self.states@.len() ==> (#[trigger] self.states@[i]).other_editor.wf()
    }
}

impl PickerView {
    pub open spec fn wf(self) -> bool {
        &&& self.states.len() == self.questions.len()
        &&& self.questions.len() <= usize::MAX
        &&& self.current < self.questions.len() || self.current == 0
        &&& forall|i: int|
            0 <= i < self.states.len() ==> (#[trigger] self.states[i]).cursor
                <= self.questions[i].options@.len()
    }

    pub open spec fn state(self) -> StateView {
        self.states[self.current as int]
    }

    pub open spec fn question(self) -> AskUserQuestion {
        self.questions[self.current as int]
    }

    pub open spec fn with_state(self, state: StateView) -> PickerView {
        PickerView { states: self.states.update(self.current as int, state), ..self }
    }

    pub open spec fn hinting(self, hint: Seq<char>) -> PickerView {
        PickerView { hint: Some(hint), ..self }
    }
}

// ---------------------------------------------------------------------------
// Answers
// ---------------------------------------------------------------------------

/// The row for an answer of one's own, behind all options.
pub open spec fn other_row(question: AskUserQuestion) -> nat {
    question.options@.len()
}

/// What choosing row `i` answers.
pub open spec fn picked(question: AskUserQuestion, state: StateView, i: nat) -> Option<Seq<char>> {
    if !state.chosen.contains(i as usize) {
        None
    } else if i == other_row(question) {
        if trimmed(state.editor.text).len() == 0 {
            None
        } else {
            Some(trimmed(state.editor.text))
        }
    } else {
        Some(question.options@[i as int].label@)
    }
}

/// What the chosen rows before `n` answer, from the top.
pub open spec fn picks(question: AskUserQuestion, state: StateView, n: nat) -> Seq<Seq<char>>
    decreases n,
{
    if n == 0 {
        Seq::empty()
    } else {
        let before = picks(question, state, (n - 1) as nat);
        match picked(question, state, (n - 1) as nat) {
            Some(label) => before.push(label),
            None => before,
        }
    }
}

/// The answer to a question, where there is one.
pub open spec fn answer_of(question: AskUserQuestion, state: StateView) -> Option<AnswerView> {
    if question.multi_select {
        let selected = picks(question, state, other_row(question) + 1);
        if selected.len() == 0 {
            None
        } else {
            Some(AnswerView { question: question.question@, selected, preview: None })
        }
    } else if state.cursor == other_row(question) {
        if trimmed(state.editor.text).len() == 0 {
            None
        } else {
            Some(
                AnswerView {
                    question: question.question@,
                    selected: seq![trimmed(state.editor.text)],
                    preview: None,
                },
            )
        }
    } else if state.cursor < other_row(question) {
        let option = question.options@[state.cursor as int];
        Some(
            AnswerView {
                question: question.question@,
                selected: seq![option.label@],
                preview: opt_text(option.preview),
            },
        )
    } else {
        None
    }
}

/// The answers to the first `n` questions, where all of them have one.
pub open spec fn answers(picker: PickerView, n: nat) -> Option<Seq<AnswerView>>
    decreases n,
{
    if n == 0 {
        Some(Seq::empty())
    } else {
        match (
            answers(picker, (n - 1) as nat),
            answer_of(picker.questions[n - 1], picker.states[n - 1]),
        ) {
            (Some(before), Some(answer)) => Some(before.push(answer)),
            _ => None,
        }
    }
}

pub open spec fn opt_response(r: Option<AskUserQuestionResponse>) -> Option<Seq<AnswerView>> {
    match r {
        Some(response) => Some(answer_views(response.answers@)),
        None => None,
    }
}

fn one_text(text: String) -> (r: Vec<String>)
    ensures
        texts(r@) == seq![text@],
{
    let mut out: Vec<String> = Vec::new();
    let ghost view = text@;
    out.push(text);
    assert(texts(out@) =~= seq![view]);
    out
}

fn push_text(out: &mut Vec<String>, text: String)
    ensures
        texts(final(out)@) == texts(old(out)@).push(text@),
{
    let ghost before = texts(out@);
    let ghost view = text@;
    out.push(text);
    assert(texts(out@) =~= before.push(view));
}

impl QuestionState {
    pub fn new() -> (r: QuestionState)
        ensures
            r@ == fresh_state(),
            r.other_editor.wf(),
    {
        QuestionState {
            cursor: 0,
            multi_selected: HashSet::new(),
            other_editor: ComposerState::new(),
            other_editing: false,
        }
    }

    /// The labels of the chosen rows.
    fn labels(&self, question: &AskUserQuestion) -> (r: Vec<String>)
        ensures
            texts(r@) == picks(*question, self@, other_row(*question) + 1),
    {
        let mut out: Vec<String> = Vec::new();
        let total: usize = question.options.len();
        let mut i: usize = 0;
        assert(texts(out@) =~= picks(*question, self@, 0));
        while i < total
            invariant
                i <= total,
                total == question.options@.len(),
                texts(out@) == picks(*question, self@, i as nat),
            decreases total - i,
        {
            if self.multi_selected.contains(&i) {
                push_text(&mut out, question.options[i].label.clone());
            }
            i += 1;
        }
        if self.multi_selected.contains(&total) {
            let own: String = trim(self.other_editor.as_str());
            if !own.as_str().is_empty() {
                push_text(&mut out, own);
            }
        }
        out
    }

    /// The answer that the state gives to `question`.
    fn answer(&self, question: &AskUserQuestion) -> (r: Option<AskUserQuestionAnswer>)
        ensures
            match r {
                Some(a) => answer_of(*question, self@) == Some(a@),
                None => answer_of(*question, self@) is None,
            },
    {
        let total: usize = question.options.len();
        let (selected, preview): (Vec<String>, Option<String>) = if question.multi_select {
            let labels: Vec<String> = self.labels(question);
            assert(texts(labels@).len() == labels@.len());
            if labels.len() == 0 {
                return None;
            }
            (labels, None)
        } else if self.cursor == total {
            let own: String = trim(self.other_editor.as_str());
            if own.as_str().is_empty() {
                return None;
            }
            (one_text(own), None)
        } else if self.cursor < total {
            let option: &AskUserQuestionOption = &question.options[self.cursor];
            (one_text(option.label.clone()), dup_text(&option.preview))
        } else {
            return None;
        };
        Some(AskUserQuestionAnswer { question: question.question.clone(), selected, preview })
    }
}

impl QuestionPicker {
    /// The answers to all questions, where each has one.
    pub fn build_response(&self) -> (r: Option<AskUserQuestionResponse>)
        requires
            self.wf(),
        ensures
            opt_response(r) == answers(self@, self@.questions.len()),
    {
        let mut out: Vec<AskUserQuestionAnswer> = Vec::new();
        assert(answer_views(out@) =~= Seq::empty());
        let mut i: usize = 0;
        while i < self.questions.len()
            invariant
                self.wf(),
                i <= self.questions@.len(),
                answers(self@, i as nat) == Some(answer_views(out@)),
            decreases self.questions@.len() - i,
        {
            assert(self@.states[i as int] == self.states@[i as int]@);
            match self.states[i].answer(&self.questions[i]) {
                Some(answer) => {
                    let ghost before = answer_views(out@);
                    let ghost added = answer@;
                    out.push(answer);
                    assert(answer_views(out@) =~= before.push(added));
                },
                None => {
                    proof {
                        lemma_missing_answer(self@, (i + 1) as nat, self@.questions.len());
                    }
                    return None;
                },
            }
            i += 1;
        }
        Some(AskUserQuestionResponse { answers: out })
    }
}

proof fn lemma_missing_answer(picker: PickerView, m: nat, n: nat)
    requires
        m <= n,
        answers(picker, m) is None,
    ensures
        answers(picker, n) is None,
    decreases n,
{
    if m < n {
        lemma_missing_answer(picker, m, (n - 1) as nat);
    }
}

// ---------------------------------------------------------------------------
// Keys
// ---------------------------------------------------------------------------

impl StateView {
    pub open spec fn with_editor(self, editor: ComposerView) -> StateView {
        StateView { editor, ..self }
    }

    /// A key that edits the text of one's own answer.
    pub open spec fn edited(self, key: KeyEvent) -> StateView {
        match key.code {
            KeyCode::Esc => StateView { editing: false, ..self },
            KeyCode::Backspace => self.with_editor(self.editor.backspaced()),
            KeyCode::Delete => self.with_editor(self.editor.deleted()),
            KeyCode::Left => self.with_editor(self.editor.moved_left()),
            KeyCode::Right => self.with_editor(self.editor.moved_right()),
            KeyCode::Home => self.with_editor(
                self.editor.moved_to(line_start(self.editor.text, self.editor.cursor)),
            ),
            KeyCode::End => self.with_editor(
                self.editor.moved_to(line_end(self.editor.text, self.editor.cursor)),
            ),
            KeyCode::Char(ch) => if types_text(key.modifiers) {
                self.with_editor(self.editor.with_inserted(seq![ch]))
            } else {
                self
            },
            _ => self,
        }
    }

    /// Chooses row `i`.
    pub open spec fn choosing(self, i: nat) -> StateView {
        StateView { chosen: self.chosen.insert(i as usize), ..self }
    }

    /// Leaves the typing, with one's own answer among the chosen rows or not.
    pub open spec fn accepted(self, choose: bool, other: nat) -> StateView {
        let done = StateView { editing: false, ..self };
        if choose {
            done.choosing(other)
        } else {
            done
        }
    }

    /// The space bar in a question with several answers.
    pub open spec fn toggled(self, other: nat) -> StateView {
        if self.cursor == other {
            StateView { editing: true, ..self }
        } else if self.chosen.contains(self.cursor) {
            StateView { chosen: self.chosen.remove(self.cursor), ..self }
        } else {
            StateView { chosen: self.chosen.insert(self.cursor), ..self }
        }
    }
}

impl PickerView {
    /// Goes on to the next question or, behind the last one, hands in the
    /// answers.
    pub open spec fn advanced(self) -> (PickerView, OutcomeView) {
        if self.current + 1 < self.questions.len() {
            (PickerView { current: (self.current + 1) as usize, ..self }, OutcomeView::Nothing)
        } else {
            match answers(self, self.questions.len()) {
                Some(all) => (self, OutcomeView::Confirm(all)),
                None => (
                    self.hinting("Each question needs at least one selection"@),
                    OutcomeView::Nothing,
                ),
            }
        }
    }

    /// A key while one's own answer is typed.
    pub open spec fn typed(self, key: KeyEvent) -> (PickerView, OutcomeView) {
        let state = self.state();
        if key.code == KeyCode::Enter {
            if trimmed(state.editor.text).len() == 0 {
                (self.hinting("Type an answer or press Esc to cancel"@), OutcomeView::Nothing)
            } else {
                self.with_state(
                    state.accepted(self.question().multi_select, other_row(self.question())),
                ).advanced()
            }
        } else {
            (self.with_state(state.edited(key)), OutcomeView::Nothing)
        }
    }

    /// Enter on a row.
    pub open spec fn entered(self) -> (PickerView, OutcomeView) {
        let state = self.state();
        let other = other_row(self.question());
        if state.cursor == other && trimmed(state.editor.text).len() == 0 {
            (self.with_state(StateView { editing: true, ..state }), OutcomeView::Nothing)
        } else if state.cursor == other && self.question().multi_select {
            self.with_state(state.choosing(other)).advanced()
        } else {
            self.advanced()
        }
    }

    /// A key among the rows.
    pub open spec fn browsed(self, key: KeyEvent) -> (PickerView, OutcomeView) {
        let state = self.state();
        let other = other_row(self.question());
        if key.code == KeyCode::Esc {
            (self, OutcomeView::Cancel)
        } else if key.code == KeyCode::Up || key.code == KeyCode::Char('k') {
            if state.cursor > 0 {
                (
                    self.with_state(StateView { cursor: (state.cursor - 1) as usize, ..state }),
                    OutcomeView::Nothing,
                )
            } else {
                (self, OutcomeView::Nothing)
            }
        } else if key.code == KeyCode::Down || key.code == KeyCode::Char('j') {
            if state.cursor < other {
                (
                    self.with_state(StateView { cursor: (state.cursor + 1) as usize, ..state }),
                    OutcomeView::Nothing,
                )
            } else {
                (self, OutcomeView::Nothing)
            }
        } else if key.code == KeyCode::Tab {
            if self.current + 1 < self.questions.len() {
                (PickerView { current: (self.current + 1) as usize, ..self }, OutcomeView::Nothing)
            } else {
                (self, OutcomeView::Nothing)
            }
        } else if key.code == KeyCode::BackTab {
            if self.current > 0 {
                (PickerView { current: (self.current - 1) as usize, ..self }, OutcomeView::Nothing)
            } else {
                (self, OutcomeView::Nothing)
            }
        } else if key.code == KeyCode::Char(' ') && self.question().multi_select {
            (self.with_state(state.toggled(other)), OutcomeView::Nothing)
        } else if key.code == KeyCode::Enter {
            self.entered()
        } else {
            (self, OutcomeView::Nothing)
        }
    }

    /// What a key does, and what comes of it.
    #[verifier::opaque]
    pub open spec fn keyed(self, key: KeyEvent) -> (PickerView, OutcomeView) {
        if key.kind != KeyEventKind::Press {
            (self, OutcomeView::Nothing)
        } else {
            let cleared = PickerView { hint: None, ..self };
            if self.current >= self.questions.len() {
                (cleared, OutcomeView::Nothing)
            } else if self.state().editing {
                cleared.typed(key)
            } else {
                cleared.browsed(key)
            }
        }
    }

    /// Text pasted while one's own answer is typed, as one line.
    #[verifier::opaque]
    pub open spec fn pasted(self, text: Seq<char>) -> PickerView {
        if self.current >= self.questions.len() || !self.state().editing {
            self
        } else {
            let flat = with_breaks(text, ' ', ' ');
            let state = self.state();
            if flat.len() == 0 {
                self
            } else {
                self.with_state(state.with_editor(state.editor.with_inserted(flat)))
            }
        }
    }
}

impl QuestionState {
    fn edit(&mut self, key: KeyEvent)
        requires
            old(self).other_editor.wf(),
        ensures
            final(self).other_editor.wf(),
            final(self)@ == old(self)@.edited(key),
    {
        match key.code {
            KeyCode::Esc => {
                self.other_editing = false;
            },
            KeyCode::Backspace => self.other_editor.backspace(),
            KeyCode::Delete => self.other_editor.delete(),
            KeyCode::Left => self.other_editor.move_left(),
            KeyCode::Right => self.other_editor.move_right(),
            KeyCode::Home => self.other_editor.move_line_start(),
            KeyCode::End => self.other_editor.move_line_end(),
            KeyCode::Char(ch) => {
                if key.modifiers.types() {
                    self.other_editor.insert_char(ch);
                }
            },
            _ => {},
        }
    }

    fn toggle(&mut self, other: usize)
        requires
            old(self).other_editor.wf(),
        ensures
            final(self).other_editor.wf(),
            final(self)@ == old(self)@.toggled(other as nat),
    {
        let cursor: usize = self.cursor;
        if cursor == other {
            self.other_editing = true;
        } else if self.multi_selected.contains(&cursor) {
            self.multi_selected.remove(&cursor);
        } else {
            self.multi_selected.insert(cursor);
        }
    }

    /// Leaves the typing with the text as the answer.
    fn accept(&mut self, choose: bool, other: usize)
        requires
            old(self).other_editor.wf(),
        ensures
            final(self).other_editor.wf(),
            final(self)@ == old(self)@.accepted(choose, other as nat),
    {
        self.other_editing = false;
        if choose {
            self.multi_selected.insert(other);
        }
    }
}

impl QuestionPicker {
    pub fn new(request_id: RequestId, params: AskUserQuestionParams) -> (r: QuestionPicker)
        ensures
            r.wf(),
            r@ == fresh_picker(request_id, params),
    {
        let total: usize = params.questions.len();
        let mut states: Vec<QuestionState> = Vec::new();
        let mut i: usize = 0;
        while i < total
            invariant
                i <= total,
                state_views(states@) =~= Seq::new(i as nat, |j: int| fresh_state()),
                states@.len() == i,
                forall|j: int|
                    0 <= j < states@.len() ==> (#[trigger] states@[j]).other_editor.wf(),
            decreases total - i,
        {
            let ghost before = states@;
            let state: QuestionState = QuestionState::new();
            let ghost added = state@;
            states.push(state);
            assert(state_views(states@) =~= state_views(before).push(added));
            i += 1;
        }
        let r: QuestionPicker = QuestionPicker {
            request_id,
            questions: params.questions,
            current: 0,
            states,
            hint: None,
        };
        proof {
            assert(total <= usize::MAX);
            assert forall|j: int| 0 <= j < r@.states.len() implies (#[trigger] r@.states[j]).cursor
                <= r@.questions[j].options@.len() by {
                assert(r@.states[j] == fresh_state());
            }
        }
        r
    }

    fn advance_or_confirm(&mut self) -> (r: PickerOutcome)
        requires
            old(self).wf(),
            old(self)@.current < old(self)@.questions.len(),
        ensures
            final(self).wf(),
            (final(self)@, r@) == old(self)@.advanced(),
    {
        let total: usize = self.questions.len();
        if self.current < total - 1 {
            self.current = self.current + 1;
            PickerOutcome::Nothing
        } else {
            match self.build_response() {
                Some(response) => PickerOutcome::Confirm(response),
                None => {
                    self.hint = Some(owned("Each question needs at least one selection"));
                    PickerOutcome::Nothing
                },
            }
        }
    }

    fn type_key(&mut self, key: KeyEvent) -> (r: PickerOutcome)
        requires
            old(self).wf(),
            old(self)@.current < old(self)@.questions.len(),
        ensures
            final(self).wf(),
            (final(self)@, r@) == old(self)@.typed(key),
    {
        let idx: usize = self.current;
        let multi: bool = self.questions[idx].multi_select;
        let other: usize = self.questions[idx].options.len();
        let ghost before = self@;
        assert(self@.states[idx as int] == self.states@[idx as int]@);
        if key.code == KeyCode::Enter {
            let own: String = trim(self.states[idx].other_editor.as_str());
            if own.as_str().is_empty() {
                self.hint = Some(owned("Type an answer or press Esc to cancel"));
                PickerOutcome::Nothing
            } else {
                let state: &mut QuestionState = &mut self.states[idx];
                state.accept(multi, other);
                assert(self@.states =~= before.states.update(
                    idx as int,
                    self.states@[idx as int]@,
                ));
                self.advance_or_confirm()
            }
        } else {
            let state: &mut QuestionState = &mut self.states[idx];
            state.edit(key);
            assert(self@.states =~= before.states.update(idx as int, self.states@[idx as int]@));
            PickerOutcome::Nothing
        }
    }

    fn enter_row(&mut self) -> (r: PickerOutcome)
        requires
            old(self).wf(),
            old(self)@.current < old(self)@.questions.len(),
        ensures
            final(self).wf(),
            (final(self)@, r@) == old(self)@.entered(),
    {
        let idx: usize = self.current;
        let multi: bool = self.questions[idx].multi_select;
        let other: usize = self.questions[idx].options.len();
        let ghost before = self@;
        assert(self@.states[idx as int] == self.states@[idx as int]@);
        if self.states[idx].cursor == other {
            let own: String = trim(self.states[idx].other_editor.as_str());
            if own.as_str().is_empty() {
                let state: &mut QuestionState = &mut self.states[idx];
                state.other_editing = true;
                assert(self@.states =~= before.states.update(
                    idx as int,
                    self.states@[idx as int]@,
                ));
                return PickerOutcome::Nothing;
            }
            if multi {
                let state: &mut QuestionState = &mut self.states[idx];
                state.multi_selected.insert(other);
                assert(self@.states =~= before.states.update(
                    idx as int,
                    self.states@[idx as int]@,
                ));
            }
        }
        self.advance_or_confirm()
    }

    fn browse(&mut self, key: KeyEvent) -> (r: PickerOutcome)
        requires
            old(self).wf(),
            old(self)@.current < old(self)@.questions.len(),
        ensures
            final(self).wf(),
            (final(self)@, r@) == old(self)@.browsed(key),
    {
        let idx: usize = self.current;
        let multi: bool = self.questions[idx].multi_select;
        let other: usize = self.questions[idx].options.len();
        let total: usize = self.questions.len();
        let ghost before = self@;
        assert(self@.states[idx as int] == self.states@[idx as int]@);
        match key.code {
            KeyCode::Esc => {
                return PickerOutcome::Cancel;
            },
            KeyCode::Up | KeyCode::Char('k') => {
                if self.states[idx].cursor > 0 {
                    let state: &mut QuestionState = &mut self.states[idx];
                    state.cursor = state.cursor - 1;
                    assert(self@.states =~= before.states.update(
                        idx as int,
                        self.states@[idx as int]@,
                    ));
                }
            },
            KeyCode::Down | KeyCode::Char('j') => {
                if self.states[idx].cursor < other {
                    let state: &mut QuestionState = &mut self.states[idx];
                    state.cursor = state.cursor + 1;
                    assert(self@.states =~= before.states.update(
                        idx as int,
                        self.states@[idx as int]@,
                    ));
                }
            },
            KeyCode::Tab => {
                if idx < total - 1 {
                    self.current = idx + 1;
                }
            },
            KeyCode::BackTab => {
                if idx > 0 {
                    self.current = idx - 1;
                }
            },
            KeyCode::Enter => {
                return self.enter_row();
            },
            KeyCode::Char(' ') => {
                if multi {
                    let state: &mut QuestionState = &mut self.states[idx];
                    state.toggle(other);
                    assert(self@.states =~= before.states.update(
                        idx as int,
                        self.states@[idx as int]@,
                    ));
                }
            },
            _ => {},
        }
        PickerOutcome::Nothing
    }

    /// Handles a key.
    pub fn handle_key(&mut self, key: KeyEvent) -> (r: PickerOutcome)
        requires
            old(self).wf(),
        ensures
            final(self).wf(),
            (final(self)@, r@) == old(self)@.keyed(key),
    {
        reveal(PickerView::keyed);
        if key.kind != KeyEventKind::Press {
            return PickerOutcome::Nothing;
        }
        assert(self.current < self.states@.len() ==> self@.states[self.current as int]
            == self.states@[self.current as int]@);
        self.hint = None;
        if self.current >= self.questions.len() {
            return PickerOutcome::Nothing;
        }
        if self.states[self.current].other_editing {
            self.type_key(key)
        } else {
            self.browse(key)
        }
    }

    /// Insert pasted text into the "Other" field. The field is single-line, so
    /// line breaks and tabs are flattened to spaces.
    pub fn handle_paste(&mut self, text: &str)
        requires
            old(self).wf(),
        ensures
            final(self).wf(),
            final(self)@ == old(self)@.pasted(text@),
    {
        reveal(PickerView::pasted);
        if self.current >= self.states.len() {
            return;
        }
        let idx: usize = self.current;
        let ghost before = self@;
        assert(self@.states[idx as int] == self.states@[idx as int]@);
        if !self.states[idx].other_editing {
            return;
        }
        let flat: String = replace_breaks(text, ' ', ' ');
        let state: &mut QuestionState = &mut self.states[idx];
        state.other_editor.insert_str(flat.as_str());
        assert(self@.states =~= before.states.update(idx as int, self.states@[idx as int]@));
    }
}

// ---------------------------------------------------------------------------
// Drawing
// ---------------------------------------------------------------------------

/// Pre-wrapped picker rows, split so `render` can keep the header and footer
/// pinned while scrolling only the option list. `blocks` holds one wrapped block
/// per selectable row (the options followed by the virtual "Other" row), and
/// `active` indexes the block under the cursor.
#[derive(Debug)]
pub struct PickerLayout {
    pub header: Vec<Line>,
    pub blocks: Vec<Vec<Line>>,
    pub footer: Vec<Line>,
    pub active: usize,
}

#[verifier::ext_equal]
pub struct LayoutView {
    pub header: Seq<LineView>,
    pub blocks: Seq<Seq<LineView>>,
    pub footer: Seq<LineView>,
    pub active: nat,
}

pub open spec fn block_views(blocks: Seq<Vec<Line>>) -> Seq<Seq<LineView>> {
    blocks.map_values(|b: Vec<Line>| line_views(b@))
}

impl View for PickerLayout {
    type V = LayoutView;

    open spec fn view(&self) -> LayoutView {
        LayoutView {
            header: line_views(self.header@),
            blocks: block_views(self.blocks@),
            footer: line_views(self.footer@),
            active: self.active as nat,
        }
    }
}

pub open spec fn header_text(picker: PickerView) -> Seq<char> {
    let question = picker.question();
    let text = "["@ + question.header@ + "] "@ + question.question@ + " ("@ + numeral(
        (picker.current + 1) as nat,
    ) + "/"@ + numeral(picker.questions.len()) + ")"@;
    if question.multi_select {
        text + "  multi-select"@
    } else {
        text
    }
}

/// What stands in front of row `i`: whether the cursor is there, and whether
/// the row is chosen.
pub open spec fn row_marks(state: StateView, multi: bool, i: nat) -> Seq<char> {
    let here = if state.cursor == i {
        "› "@
    } else {
        "  "@
    };
    let mark = if multi {
        if state.chosen.contains(i as usize) {
            "[x] "@
        } else {
            "[ ] "@
        }
    } else if state.cursor == i {
        "(•) "@
    } else {
        "( ) "@
    };
    here + mark
}

pub open spec fn row_style(state: StateView, i: nat) -> Style {
    if state.cursor == i {
        Style { fg: Some(Color::Cyan), ..plain().with_bold() }
    } else {
        plain()
    }
}

pub open spec fn preview_rows(preview: Option<Seq<char>>, width: nat) -> Seq<LineView> {
    match preview {
        Some(text) => word_wrapped(
            line_of(seq![span_of("       preview: "@ + text, fg_style(Color::DarkGray))]),
            width,
            7,
        ),
        None => no_lines(),
    }
}

/// The rows of option `i`.
pub open spec fn option_block(picker: PickerView, i: int, width: nat) -> Seq<LineView> {
    let option = picker.question().options@[i];
    let marks = row_marks(picker.state(), picker.question().multi_select, i as nat);
    word_wrapped(
        line_of(
            seq![
                raw_of(marks),
                span_of(option.label@, row_style(picker.state(), i as nat)),
                raw_of("  "@),
                span_of(option.description@, fg_style(Color::DarkGray)),
            ],
        ),
        width,
        unicode_text_width(marks) as nat,
    ) + preview_rows(opt_text(option.preview), width)
}

/// One's own answer, the cell under the text cursor reversed while it is typed.
pub open spec fn other_spans(state: StateView, style: Style) -> Seq<SpanView> {
    let text = state.editor.text;
    let cursor = state.editor.cursor as int;
    if state.editing {
        let typing = style.with_underlined();
        seq![span_of("Other: "@, typing), span_of(text.take(cursor), typing)]
            + if cursor < text.len() {
            seq![
                span_of(seq![text[cursor]], typing.with_reversed()),
                span_of(text.skip(cursor + 1), typing),
            ]
        } else {
            seq![span_of(" "@, typing.with_reversed())]
        }
    } else if text.len() == 0 {
        seq![span_of("Other (type your own answer)"@, style)]
    } else {
        seq![span_of("Other: "@ + text, style)]
    }
}

pub open spec fn other_block(picker: PickerView, width: nat) -> Seq<LineView> {
    let other = other_row(picker.question());
    let marks = row_marks(picker.state(), picker.question().multi_select, other);
    word_wrapped(
        line_of(
            seq![raw_of(marks)] + other_spans(picker.state(), row_style(picker.state(), other)),
        ),
        width,
        unicode_text_width(marks) as nat,
    )
}

/// The options, and behind them the row for an answer of one's own.
pub open spec fn option_blocks(picker: PickerView, width: nat) -> Seq<Seq<LineView>> {
    Seq::new(other_row(picker.question()), |i: int| option_block(picker, i, width)).push(
        other_block(picker, width),
    )
}

pub open spec fn footer_text(picker: PickerView) -> Seq<char> {
    if picker.state().editing {
        "Enter to confirm  ←/→ Home End move  Esc to cancel typing"@
    } else if picker.question().multi_select {
        "Space toggle  Enter next/submit  Tab switch question  Esc cancel"@
    } else {
        "↑/↓ move  Enter next/submit  Tab switch question  Esc cancel"@
    }
}

pub open spec fn styled_rows(text: Seq<char>, style: Style, width: nat) -> Seq<LineView> {
    word_wrapped(line_of(seq![span_of(text, style)]), width, 0)
}

pub open spec fn footer_rows(picker: PickerView, width: nat) -> Seq<LineView> {
    let rows = seq![blank_line()] + styled_rows(
        footer_text(picker),
        fg_style(Color::DarkGray),
        width,
    );
    match picker.hint {
        Some(hint) => rows + styled_rows(hint, fg_style(Color::Yellow), width),
        None => rows,
    }
}

/// How the current question is laid out.
pub open spec fn layout_of(picker: PickerView, width: u16) -> LayoutView {
    LayoutView {
        header: seq![separator(width, header_text(picker), fg_style(Color::Cyan))],
        blocks: option_blocks(picker, columns_of(width)),
        footer: footer_rows(picker, columns_of(width)),
        active: picker.state().cursor as nat,
    }
}

fn styled_lines(text: &str, style: Style, width: usize) -> (r: Vec<Line>)
    ensures
        line_views(r@) == styled_rows(text@, style, width as nat),
{
    wrap_line_hanging(&Line::from_span(Span::styled(text, style)), width, 0)
}

impl QuestionState {
    fn marks(&self, multi: bool, i: usize) -> (r: String)
        ensures
            r@ == row_marks(self@, multi, i as nat),
    {
        let mut out: String = if self.cursor == i {
            owned("› ")
        } else {
            owned("  ")
        };
        if multi {
            if self.multi_selected.contains(&i) {
                out.push_str("[x] ");
            } else {
                out.push_str("[ ] ");
            }
        } else if self.cursor == i {
            out.push_str("(•) ");
        } else {
            out.push_str("( ) ");
        }
        out
    }

    fn style_at(&self, i: usize) -> (r: Style)
        ensures
            r == row_style(self@, i as nat),
    {
        if self.cursor == i {
            Style::new().bold().fg(Color::Cyan)
        } else {
            Style::new()
        }
    }

    fn other_line(&self, multi: bool, other: usize) -> (r: Line)
        requires
            self.other_editor.wf(),
        ensures
            r@ == line_of(
                seq![raw_of(row_marks(self@, multi, other as nat))] + other_spans(
                    self@,
                    row_style(self@, other as nat),
                ),
            ),
    {
        let marks: String = self.marks(multi, other);
        let style: Style = self.style_at(other);
        let mut spans: Vec<Span> = Vec::new();
        push_span(&mut spans, Span::raw(marks.as_str()));
        let ghost head = raw_of(marks@);
        assert(span_views(spans@) =~= seq![head]);
        if self.other_editing {
            // Split the text at the editing cursor so a reversed cell marks it.
            let typing: Style = style.underlined();
            let chars: Vec<char> = chars_of(self.other_editor.as_str());
            let cursor: usize = self.other_editor.cursor_index();
            proof {
                self.other_editor.lemma_cursor_in_text();
            }
            push_span(&mut spans, Span::styled("Other: ", typing));
            let before: String = string_of(&chars, 0, cursor);
            assert(before@ =~= self@.editor.text.take(cursor as int));
            push_span(&mut spans, Span::styled(before.as_str(), typing));
            if cursor < chars.len() {
                let under: String = string_of(&chars, cursor, cursor + 1);
                assert(under@ =~= seq![self@.editor.text[cursor as int]]);
                push_span(&mut spans, Span::styled(under.as_str(), typing.reversed()));
                let after: String = string_of(&chars, cursor + 1, chars.len());
                assert(after@ =~= self@.editor.text.skip(cursor + 1));
                push_span(&mut spans, Span::styled(after.as_str(), typing));
            } else {
                push_span(&mut spans, Span::styled(" ", typing.reversed()));
            }
        } else if self.other_editor.is_empty() {
            push_span(&mut spans, Span::styled("Other (type your own answer)", style));
        } else {
            let mut text: String = owned("Other: ");
            text.push_str(self.other_editor.as_str());
            push_span(&mut spans, Span::styled(text.as_str(), style));
        }
        assert(span_views(spans@) =~= seq![head] + other_spans(self@, style));
        Line::from_spans(spans)
    }
}

fn push_block(blocks: &mut Vec<Vec<Line>>, block: Vec<Line>)
    ensures
        block_views(final(blocks)@) == block_views(old(blocks)@).push(line_views(block@)),
{
    let ghost before = block_views(blocks@);
    let ghost view = line_views(block@);
    blocks.push(block);
    assert(block_views(blocks@) =~= before.push(view));
}

impl QuestionPicker {
    fn header_label(&self) -> (r: String)
        requires
            self.wf(),
            self@.current < self@.questions.len(),
        ensures
            r@ == header_text(self@),
    {
        let question: &AskUserQuestion = &self.questions[self.current];
        let mut text: String = owned("[");
        text.push_str(question.header.as_str());
        text.push_str("] ");
        text.push_str(question.question.as_str());
        text.push_str(" (");
        let number: String = decimal(self.current as u128 + 1);
        text.push_str(number.as_str());
        text.push_str("/");
        let total: String = decimal(self.questions.len() as u128);
        text.push_str(total.as_str());
        text.push_str(")");
        if question.multi_select {
            text.push_str("  multi-select");
        }
        text
    }

    fn option_lines(&self, i: usize, width: usize) -> (r: Vec<Line>)
        requires
            self.wf(),
            self@.current < self@.questions.len(),
            i < self@.question().options@.len(),
        ensures
            line_views(r@) == option_block(self@, i as int, width as nat),
    {
        let question: &AskUserQuestion = &self.questions[self.current];
        let state: &QuestionState = &self.states[self.current];
        assert(self@.state() == state@);
        let option: &AskUserQuestionOption = &question.options[i];
        let marks: String = state.marks(question.multi_select, i);
        let indent: usize = display_width(marks.as_str());
        let line: Line = Line::of_four(
            Span::raw(marks.as_str()),
            Span::styled(option.label.as_str(), state.style_at(i)),
            Span::raw("  "),
            Span::styled(option.description.as_str(), Style::new().fg(Color::DarkGray)),
        );
        let mut block: Vec<Line> = wrap_line_hanging(&line, width, indent);
        match &option.preview {
            Some(preview) => {
                let mut text: String = owned("       preview: ");
                text.push_str(preview.as_str());
                let shown: Line = Line::from_span(
                    Span::styled(text.as_str(), Style::new().fg(Color::DarkGray)),
                );
                append_lines(&mut block, wrap_line_hanging(&shown, width, 7));
            },
            None => {
                assert(line_views(block@) + no_lines() =~= line_views(block@));
            },
        }
        block
    }

    fn footer_lines(&self, width: usize) -> (r: Vec<Line>)
        requires
            self.wf(),
            self@.current < self@.questions.len(),
        ensures
            line_views(r@) == footer_rows(self@, width as nat),
    {
        let state: &QuestionState = &self.states[self.current];
        assert(self@.state() == state@);
        let text: &str = if state.other_editing {
            "Enter to confirm  ←/→ Home End move  Esc to cancel typing"
        } else if self.questions[self.current].multi_select {
            "Space toggle  Enter next/submit  Tab switch question  Esc cancel"
        } else {
            "↑/↓ move  Enter next/submit  Tab switch question  Esc cancel"
        };
        let mut footer: Vec<Line> = new_lines();
        push_line(&mut footer, Line::blank());
        assert(line_views(footer@) =~= seq![blank_line()]);
        append_lines(&mut footer, styled_lines(text, Style::new().fg(Color::DarkGray), width));
        match &self.hint {
            Some(hint) => append_lines(
                &mut footer,
                styled_lines(hint.as_str(), Style::new().fg(Color::Yellow), width),
            ),
            None => {},
        }
        footer
    }

    /// Build the pre-wrapped header/option/footer rows for the current question.
    /// `render` and `desired_height` both go through this so their row counts can
    /// never drift.
    pub fn layout(&self, width: u16) -> (r: Option<PickerLayout>)
        requires
            self.wf(),
        ensures
            match r {
                Some(layout) => self@.current < self@.questions.len() && layout@ == layout_of(
                    self@,
                    width,
                ),
                None => self@.current >= self@.questions.len(),
            },
    {
        if self.current >= self.questions.len() {
            return None;
        }
        let wrap_width: usize = pane_columns(width);
        let question: &AskUserQuestion = &self.questions[self.current];
        let state: &QuestionState = &self.states[self.current];
        assert(self@.state() == state@);
        let total: usize = question.options.len();
        let label: String = self.header_label();
        let mut header: Vec<Line> = new_lines();
        push_line(
            &mut header,
            separator_line(width, label.as_str(), Style::new().fg(Color::Cyan)),
        );
        let ghost all = option_blocks(self@, wrap_width as nat);
        let mut blocks: Vec<Vec<Line>> = Vec::new();
        let mut i: usize = 0;
        assert(block_views(blocks@) =~= all.take(0));
        while i < total
            invariant
                self.wf(),
                self@.current < self@.questions.len(),
                total == self@.question().options@.len(),
                all == option_blocks(self@, wrap_width as nat),
                i <= total,
                block_views(blocks@) == all.take(i as int),
            decreases total - i,
        {
            push_block(&mut blocks, self.option_lines(i, wrap_width));
            assert(all.take(i + 1) =~= all.take(i as int).push(all[i as int]));
            i += 1;
        }
        let marks: String = state.marks(question.multi_select, total);
        let indent: usize = display_width(marks.as_str());
        push_block(
            &mut blocks,
            wrap_line_hanging(&state.other_line(question.multi_select, total), wrap_width, indent),
        );
        let footer: Vec<Line> = self.footer_lines(wrap_width);
        proof {
            assert(block_views(blocks@) =~= all);
            assert(line_views(header@) =~= layout_of(self@, width).header);
            assert(self@.states[self.current as int].cursor
                <= self@.questions[self.current as int].options@.len());
        }
        Some(PickerLayout { header, blocks, footer, active: state.cursor })
    }
}

// ---------------------------------------------------------------------------
// Scrolling
// ---------------------------------------------------------------------------

/// The first visible row of a window of `budget` rows that shows the active
/// block.
pub open spec fn window_top(total: nat, active_start: nat, active_end: nat, budget: nat) -> nat {
    if budget == 0 || total <= budget {
        0
    } else if active_end - active_start >= budget {
        active_start
    } else if active_end >= budget {
        (active_end - budget) as nat
    } else {
        0
    }
}

/// Choose the first visible option-row index so a `budget`-tall window keeps the
/// active block (`active_start..active_end`) visible. When the active block alone
/// is taller than the window its top is pinned and the bottom is clipped.
pub fn window_start(total: usize, active_start: usize, active_end: usize, budget: usize) -> (r:
    usize)
    ensures
        r == window_top(total as nat, active_start as nat, active_end as nat, budget as nat),
{
    if budget == 0 || total <= budget {
        return 0;
    }
    let block_height: usize = active_end.saturating_sub(active_start);
    if block_height >= budget {
        active_start
    } else {
        active_end.saturating_sub(budget)
    }
}

/// All rows of the first `n` blocks.
pub open spec fn flat(blocks: Seq<Seq<LineView>>, n: nat) -> Seq<LineView>
    decreases n,
{
    if n == 0 {
        no_lines()
    } else {
        flat(blocks, (n - 1) as nat) + blocks[n - 1]
    }
}

/// The rows of a picker in a window of `height` rows.
pub open spec fn picker_rows(layout: LayoutView, height: u16) -> Seq<LineView> {
    let all = flat(layout.blocks, layout.blocks.len());
    let pinned = layout.header.len() + layout.footer.len();
    let budget: nat = if columns_of(height) > pinned {
        (columns_of(height) - pinned) as nat
    } else {
        0
    };
    let top = window_top(
        all.len(),
        flat(layout.blocks, layout.active).len(),
        flat(layout.blocks, layout.active + 1).len(),
        budget,
    );
    layout.header + window(all, top, top + budget) + layout.footer
}

pub open spec fn picker_ops(picker: PickerView, area: Rect) -> Seq<DrawView> {
    if picker.current < picker.questions.len() {
        seq![shown(area, picker_rows(layout_of(picker, area.width), area.height))]
    } else {
        Seq::empty()
    }
}

/// The rows that the picker asks for.
pub open spec fn picker_height(picker: PickerView, width: u16) -> u16 {
    if picker.current < picker.questions.len() {
        let layout = layout_of(picker, width);
        let total = layout.header.len() + flat(layout.blocks, layout.blocks.len()).len()
            + layout.footer.len();
        if total <= u16::MAX {
            total as u16
        } else {
            u16::MAX
        }
    } else {
        1
    }
}

impl QuestionPicker {
    /// Draws the picker.
    pub fn render(&self, area: Rect) -> (r: Vec<DrawOp>)
        requires
            self.wf(),
        ensures
            draw_views(r@) == picker_ops(self@, area),
    {
        let mut ops: Vec<DrawOp> = new_ops();
        match self.layout(area.width) {
            Some(layout) => {
                let ghost view = layout@;
                proof {
                    assert(self@.states[self.current as int].cursor
                        <= self@.questions[self.current as int].options@.len());
                }
                let total_height: usize = pane_columns(area.height);
                let pinned: usize = layout.header.len().saturating_add(layout.footer.len());
                let budget: usize = total_height.saturating_sub(pinned);
                let active: usize = layout.active;
                assert(view.header.len() == layout.header@.len());
                assert(view.footer.len() == layout.footer@.len());
                assert(view.blocks.len() == layout.blocks@.len());
                assert(view.blocks.len() == self@.question().options@.len() + 1);

                // Flatten the option blocks, tracking the active block's row
                // range so the window can keep it fully visible.
                let mut option_lines: Vec<Line> = new_lines();
                let mut active_start: usize = 0;
                let mut active_end: usize = 0;
                let mut i: usize = 0;
                while i < layout.blocks.len()
                    invariant
                        view == layout@,
                        active == view.active,
                        active < layout.blocks@.len(),
                        i <= layout.blocks@.len(),
                        line_views(option_lines@) == flat(view.blocks, i as nat),
                        i > active ==> active_start == flat(view.blocks, view.active).len(),
                        i > active ==> active_end == flat(view.blocks, view.active + 1).len(),
                    decreases layout.blocks@.len() - i,
                {
                    assert(line_views(option_lines@).len() == option_lines@.len());
                    if i == active {
                        active_start = option_lines.len();
                    }
                    assert(view.blocks[i as int] == line_views(layout.blocks@[i as int]@));
                    append_lines(&mut option_lines, duplicate_lines(&layout.blocks[i]));
                    assert(line_views(option_lines@).len() == option_lines@.len());
                    if i == active {
                        active_end = option_lines.len();
                    }
                    i += 1;
                }
                assert(line_views(option_lines@).len() == option_lines@.len());
                let start: usize = window_start(
                    option_lines.len(),
                    active_start,
                    active_end,
                    budget,
                );
                let end: usize = start.saturating_add(budget);
                let mut lines: Vec<Line> = layout.header;
                append_lines(&mut lines, window_lines(&option_lines, start, end));
                append_lines(&mut lines, layout.footer);
                assert(line_views(lines@) =~= picker_rows(view, area.height));
                draw_lines(&mut ops, area, lines);
            },
            None => {},
        }
        assert(draw_views(ops@) =~= picker_ops(self@, area));
        ops
    }

    /// The rows that the picker asks for.
    pub fn desired_height(&self, area_width: u16) -> (r: u16)
        requires
            self.wf(),
        ensures
            r == picker_height(self@, area_width),
    {
        match self.layout(area_width) {
            Some(layout) => {
                let ghost view = layout@;
                assert(view.header.len() == layout.header@.len());
                assert(view.footer.len() == layout.footer@.len());
                let mut total: u128 = 0;
                let mut i: usize = 0;
                while i < layout.blocks.len()
                    invariant
                        view == layout@,
                        i <= layout.blocks.len(),
                        total == flat(view.blocks, i as nat).len(),
                        total <= i * (usize::MAX as int),
                    decreases layout.blocks@.len() - i,
                {
                    assert(view.blocks[i as int] == line_views(layout.blocks@[i as int]@));
                    assert(line_views(layout.blocks@[i as int]@).len() == layout.blocks[i as int].len());
                    assert(i * (usize::MAX as int) + usize::MAX == (i + 1) * (usize::MAX as int))
                        by (nonlinear_arith);
                    assert((i + 1) * (usize::MAX as int) <= (u64::MAX as int) * (u64::MAX as int))
                        by (nonlinear_arith)
                        requires
                            i < usize::MAX,
                    ;
                    total = total + layout.blocks[i].len() as u128;
                    i += 1;
                }
                assert(layout.blocks.len() * (usize::MAX as int) <= (u64::MAX as int) * (
                u64::MAX as int)) by (nonlinear_arith)
                    requires
                        layout.blocks.len() <= usize::MAX,
                ;
                let all: u128 = total + layout.header.len() as u128 + layout.footer.len() as u128;
                if all <= 65535 {
                    all as u16
                } else {
                    65535
                }
            },
            None => 1,
        }
    }
}

// ---------------------------------------------------------------------------
// Laws
// ---------------------------------------------------------------------------

/// The window shows the top row of the active block, and all of its rows where
/// they fit.
pub proof fn active_block_stays_visible(
    total: nat,
    active_start: nat,
    active_end: nat,
    budget: nat,
)
    requires
        active_start < active_end <= total,
        budget > 0,
    ensures
        ({
            let top = window_top(total, active_start, active_end, budget);
            &&& top <= active_start < top + budget
            &&& active_end - active_start <= budget ==> active_end <= top + budget
            &&& top < total
        }),
{
}

/// Header and footer stay in place whatever is scrolled.
pub proof fn header_and_footer_stay(layout: LayoutView, height: u16)
    ensures
        ({
            let rows = picker_rows(layout, height);
            &&& rows.len() >= layout.header.len() + layout.footer.len()
            &&& rows.take(layout.header.len() as int) == layout.header
            &&& rows.skip(rows.len() - layout.footer.len()) == layout.footer
            &&& layout.header.len() + layout.footer.len() <= columns_of(height) ==> rows.len()
                <= columns_of(height)
        }),
{
    let rows = picker_rows(layout, height);
    assert(rows.take(layout.header.len() as int) =~= layout.header);
    assert(rows.skip(rows.len() - layout.footer.len()) =~= layout.footer);
}

/// Answers are handed in only when every question has one, in the order of the
/// questions.
pub proof fn confirmed_answers_are_complete(picker: PickerView, n: nat)
    requires
        answers(picker, n) is Some,
    ensures
        answers(picker, n)->0.len() == n,
        forall|i: int|
            0 <= i < n ==> answer_of(picker.questions[i], picker.states[i]) == Some(
                #[trigger] answers(picker, n)->0[i],
            ),
    decreases n,
{
    if n > 0 {
        confirmed_answers_are_complete(picker, (n - 1) as nat);
    }
}

/// No key takes a cursor or the current question out of range.
pub proof fn keys_stay_in_range(picker: PickerView, key: KeyEvent)
    requires
        picker.wf(),
    ensures
        picker.keyed(key).0.wf(),
        picker.keyed(key).0.questions == picker.questions,
        picker.keyed(key).0.request_id == picker.request_id,
{
    reveal(PickerView::keyed);
}

/// A key that was pressed.
pub open spec fn pressed(key: KeyEvent, code: KeyCode) -> bool {
    key.kind == KeyEventKind::Press && key.code == code
}

impl PickerView {
    /// Whether the cursor moves among the rows of a question.
    pub open spec fn browsing(self) -> bool {
        self.wf() && self.current < self.questions.len() && !self.state().editing
    }

    /// Whether an answer of one's own is typed.
    pub open spec fn typing(self) -> bool {
        self.wf() && self.current < self.questions.len() && self.state().editing
    }

    /// Whether nothing but the state of the current question differs.
    pub open spec fn differs_in_state(self, other: PickerView) -> bool {
        &&& self.questions == other.questions
        &&& self.current == other.current
        &&& self.states.len() == other.states.len()
        &&& forall|i: int|
            0 <= i < self.states.len() && i != self.current ==> self.states[i]
                == #[trigger] other.states[i]
    }
}

/// Where several answers are allowed, Space flips whether the option under the
/// cursor is chosen and touches no other row, so that twice is as if never.
pub proof fn space_flips_one_choice(picker: PickerView, key: KeyEvent, row: usize)
    requires
        picker.browsing(),
        pressed(key, KeyCode::Char(' ')),
        picker.question().multi_select,
        picker.state().cursor < picker.question().options@.len(),
    ensures
        ({
            let (after, outcome) = picker.keyed(key);
            &&& outcome is Nothing
            &&& after.differs_in_state(picker)
            &&& after.state().cursor == picker.state().cursor
            &&& after.state().editor == picker.state().editor
            &&& !after.state().editing
            &&& after.state().chosen.contains(row) == if row == picker.state().cursor {
                !picker.state().chosen.contains(row)
            } else {
                picker.state().chosen.contains(row)
            }
            &&& after.keyed(key).0.state() == picker.state()
        }),
{
    reveal(PickerView::keyed);
    let after = picker.keyed(key).0;
    let twice = after.keyed(key).0;
    assert(twice.state().chosen =~= picker.state().chosen);
}

/// Space chooses nothing where only one answer is allowed; on the row behind
/// the options of a question with several it starts the typing.
pub proof fn space_elsewhere(picker: PickerView, key: KeyEvent)
    requires
        picker.browsing(),
        pressed(key, KeyCode::Char(' ')),
    ensures
        !picker.question().multi_select ==> picker.keyed(key).0.state() == picker.state(),
        picker.question().multi_select && picker.state().cursor == picker.question().options@.len()
            ==> picker.keyed(key).0.typing() && picker.keyed(key).0.state().chosen
            == picker.state().chosen,
        picker.keyed(key).1 is Nothing,
{
    reveal(PickerView::keyed);
}

/// Down and `j` go to the next row, up and `k` to the one before, from the first
/// option to the row behind the last one and no further; nothing else changes.
pub proof fn arrows_move_by_one_row(picker: PickerView, key: KeyEvent)
    requires
        picker.browsing(),
        key.kind == KeyEventKind::Press,
        key.code == KeyCode::Down || key.code == KeyCode::Char('j') || key.code == KeyCode::Up
            || key.code == KeyCode::Char('k'),
        picker.question().options@.len() <= usize::MAX,
    ensures
        ({
            let (after, outcome) = picker.keyed(key);
            let down = key.code == KeyCode::Down || key.code == KeyCode::Char('j');
            let at = picker.state().cursor;
            &&& outcome is Nothing
            &&& after.differs_in_state(picker)
            &&& after.state().chosen == picker.state().chosen
            &&& after.state().editor == picker.state().editor
            &&& down && at < picker.question().options@.len() ==> after.state().cursor == at + 1
            &&& down && at == picker.question().options@.len() ==> after.state().cursor == at
            &&& !down && at > 0 ==> after.state().cursor == at - 1
            &&& !down && at == 0 ==> after.state().cursor == 0
        }),
{
    reveal(PickerView::keyed);
    assert(picker.states[picker.current as int].cursor <= picker.questions[
        picker.current as int
    ].options@.len());
}

/// Tab goes to the next question and Shift+Tab back, the states of all questions
/// kept.
pub proof fn tab_switches_questions(picker: PickerView, key: KeyEvent)
    requires
        picker.browsing(),
        key.kind == KeyEventKind::Press,
        key.code == KeyCode::Tab || key.code == KeyCode::BackTab,
    ensures
        ({
            let (after, outcome) = picker.keyed(key);
            &&& outcome is Nothing
            &&& after.states == picker.states
            &&& after.questions == picker.questions
            &&& key.code == KeyCode::Tab ==> after.current == if picker.current + 1
                < picker.questions.len() {
                picker.current + 1
            } else {
                picker.current as int
            }
            &&& key.code == KeyCode::BackTab ==> after.current == if picker.current > 0 {
                picker.current - 1
            } else {
                0
            }
        }),
{
    reveal(PickerView::keyed);
}

/// Esc declines the questions while rows are browsed, and only ends the typing
/// while an answer is typed, whose text stays.
pub proof fn esc_declines_or_ends_typing(picker: PickerView, key: KeyEvent)
    requires
        picker.wf(),
        picker.current < picker.questions.len(),
        pressed(key, KeyCode::Esc),
    ensures
        !picker.state().editing ==> picker.keyed(key).1 is Cancel,
        picker.state().editing ==> picker.keyed(key).1 is Nothing && picker.keyed(
            key,
        ).0.browsing() && picker.keyed(key).0.state().editor == picker.state().editor
            && picker.keyed(key).0.state().chosen == picker.state().chosen,
{
    reveal(PickerView::keyed);
    keys_stay_in_range(picker, key);
}

/// Enter on an option goes on to the next question, or hands in the answers
/// behind the last one; answers are handed in only where every question has
/// one, and nothing is lost where one has none.
pub proof fn enter_goes_on_or_confirms(picker: PickerView, key: KeyEvent)
    requires
        picker.browsing(),
        pressed(key, KeyCode::Enter),
        picker.state().cursor < picker.question().options@.len(),
    ensures
        ({
            let (after, outcome) = picker.keyed(key);
            let last = picker.current + 1 == picker.questions.len();
            let complete = forall|i: int|
                0 <= i < picker.questions.len() ==> answer_of(
                    #[trigger] picker.questions[i],
                    picker.states[i],
                ) is Some;
            &&& after.states == picker.states
            &&& !last ==> outcome is Nothing && after.current == picker.current + 1
            &&& last ==> after.current == picker.current && (outcome is Confirm <==> complete)
            &&& !(outcome is Cancel)
            &&& outcome matches OutcomeView::Confirm(all) ==> all.len() == picker.questions.len()
                && forall|i: int|
                0 <= i < all.len() ==> answer_of(picker.questions[i], picker.states[i]) == Some(
                    #[trigger] all[i],
                )
            &&& last && !complete ==> after.hint == Some(
                "Each question needs at least one selection"@,
            )
        }),
{
    reveal(PickerView::keyed);
    let cleared = PickerView { hint: None, ..picker };
    lemma_answers_complete(cleared, cleared.questions.len());
    if answers(cleared, cleared.questions.len()) is Some {
        confirmed_answers_are_complete(cleared, cleared.questions.len());
    }
}

proof fn lemma_answers_complete(picker: PickerView, n: nat)
    requires
        n <= picker.questions.len(),
    ensures
        answers(picker, n) is Some <==> forall|i: int|
            0 <= i < n ==> answer_of(#[trigger] picker.questions[i], picker.states[i]) is Some,
    decreases n,
{
    if n > 0 {
        lemma_answers_complete(picker, (n - 1) as nat);
        assert(picker.questions[n - 1] == picker.questions[n - 1]);
    }
}

/// The answer to a question with one answer is the label of the option under
/// the cursor, with what the option previews, or what was typed, without the
/// white space around it.
pub proof fn single_answers_are_under_the_cursor(question: AskUserQuestion, state: StateView)
    requires
        !question.multi_select,
        state.cursor <= question.options@.len(),
    ensures
        state.cursor < question.options@.len() ==> answer_of(question, state) == Some(
            AnswerView {
                question: question.question@,
                selected: seq![question.options@[state.cursor as int].label@],
                preview: opt_text(question.options@[state.cursor as int].preview),
            },
        ),
        state.cursor == question.options@.len() && trimmed(state.editor.text).len() > 0
            ==> answer_of(question, state) == Some(
            AnswerView {
                question: question.question@,
                selected: seq![trimmed(state.editor.text)],
                preview: None,
            },
        ),
        state.cursor == question.options@.len() && trimmed(state.editor.text).len() == 0
            ==> answer_of(question, state) is None,
{
}

/// The rows before `n` that are chosen.
pub open spec fn chosen_before(chosen: Set<usize>, n: nat) -> nat
    decreases n,
{
    if n == 0 {
        0
    } else {
        chosen_before(chosen, (n - 1) as nat) + if chosen.contains((n - 1) as usize) {
            1nat
        } else {
            0
        }
    }
}

proof fn lemma_picks_of_options(question: AskUserQuestion, state: StateView, n: nat)
    requires
        n <= question.options@.len() <= usize::MAX,
    ensures
        picks(question, state, n).len() == chosen_before(state.chosen, n),
        forall|i: int|
            #![trigger question.options@[i]]
            0 <= i < n && state.chosen.contains(i as usize) ==> chosen_before(state.chosen, i as nat)
                < picks(question, state, n).len() && picks(question, state, n)[chosen_before(
                state.chosen,
                i as nat,
            ) as int] == question.options@[i].label@,
    decreases n,
{
    if n > 0 {
        lemma_picks_of_options(question, state, (n - 1) as nat);
        assert forall|i: int|
            #![trigger question.options@[i]]
            0 <= i < n && state.chosen.contains(i as usize) implies chosen_before(
            state.chosen,
            i as nat,
        ) < picks(question, state, n).len() && picks(question, state, n)[chosen_before(
            state.chosen,
            i as nat,
        ) as int] == question.options@[i].label@ by {
            if i < n - 1 {
                assert(question.options@[i] == question.options@[i]);
            }
        }
    }
}

/// The answer to a question with several answers has the labels of the chosen
/// options in the order of the options, none of an option that is not chosen,
/// and what was typed behind them where the row for it is chosen.
pub proof fn chosen_labels_are_answered(question: AskUserQuestion, state: StateView)
    requires
        question.multi_select,
        question.options@.len() < usize::MAX,
    ensures
        ({
            let n = question.options@.len();
            let own = state.chosen.contains(n as usize) && trimmed(state.editor.text).len() > 0;
            let count = chosen_before(state.chosen, n);
            &&& answer_of(question, state) is Some <==> count > 0 || own
            &&& answer_of(question, state) matches Some(answer) ==> {
                &&& answer.question == question.question@
                &&& answer.selected.len() == count + if own {
                    1int
                } else {
                    0
                }
                &&& own ==> answer.selected.last() == trimmed(state.editor.text)
                &&& forall|i: int|
                    #![trigger question.options@[i]]
                    0 <= i < n && state.chosen.contains(i as usize)
                        ==> answer.selected[chosen_before(state.chosen, i as nat) as int]
                        == question.options@[i].label@
            }
        }),
{
    let n = question.options@.len();
    lemma_picks_of_options(question, state, n);
    let before = picks(question, state, n);
    let all = picks(question, state, n + 1);
    assert forall|i: int|
        #![trigger question.options@[i]]
        0 <= i < n && state.chosen.contains(i as usize) implies all[chosen_before(
        state.chosen,
        i as nat,
    ) as int] == question.options@[i].label@ by {
        assert(before[chosen_before(state.chosen, i as nat) as int] == question.options@[i].label@);
    }
}

/// A typed character joins the text at its cursor, and choices stay; Enter on a
/// blank text keeps typing and says why.
pub proof fn typing_edits_the_own_answer(picker: PickerView, key: KeyEvent, ch: char)
    requires
        picker.typing(),
        key.kind == KeyEventKind::Press,
        picker.state().editor.cursor <= picker.state().editor.text.len(),
    ensures
        key.code == KeyCode::Char(ch) && types_text(key.modifiers) ==> ({
            let (after, outcome) = picker.keyed(key);
            let at = picker.state().editor.cursor as int;
            let text = picker.state().editor.text;
            &&& outcome is Nothing
            &&& after.differs_in_state(picker)
            &&& after.state().editing
            &&& after.state().cursor == picker.state().cursor
            &&& after.state().chosen == picker.state().chosen
            &&& after.state().editor.text == text.take(at) + seq![ch] + text.skip(at)
            &&& after.state().editor.cursor == at + 1
        }),
        key.code == KeyCode::Enter && trimmed(picker.state().editor.text).len() == 0 ==> ({
            let (after, outcome) = picker.keyed(key);
            &&& outcome is Nothing
            &&& after.states == picker.states
            &&& after.current == picker.current
            &&& after.hint == Some("Type an answer or press Esc to cancel"@)
        }),
{
    reveal(PickerView::keyed);
}

/// Enter on a typed text ends the typing; where several answers are allowed the
/// text counts as chosen from then on. The text itself stays.
pub proof fn typed_answers_are_taken(picker: PickerView, key: KeyEvent)
    requires
        picker.typing(),
        pressed(key, KeyCode::Enter),
        trimmed(picker.state().editor.text).len() > 0,
    ensures
        ({
            let after = picker.keyed(key).0;
            let state = after.states[picker.current as int];
            let other = picker.question().options@.len() as usize;
            &&& !state.editing
            &&& state.editor == picker.state().editor
            &&& state.cursor == picker.state().cursor
            &&& picker.question().multi_select ==> state.chosen == picker.state().chosen.insert(
                other,
            )
            &&& !picker.question().multi_select ==> state.chosen == picker.state().chosen
            &&& picker.current + 1 < picker.questions.len() ==> after.current == picker.current + 1
        }),
{
    reveal(PickerView::keyed);
}

/// Enter on the row for an answer of one's own starts the typing where nothing
/// is typed yet.
pub proof fn enter_starts_typing(picker: PickerView, key: KeyEvent)
    requires
        picker.browsing(),
        pressed(key, KeyCode::Enter),
        picker.state().cursor == picker.question().options@.len(),
        trimmed(picker.state().editor.text).len() == 0,
    ensures
        picker.keyed(key).0.typing(),
        picker.keyed(key).1 is Nothing,
        picker.keyed(key).0.state().chosen == picker.state().chosen,
{
    reveal(PickerView::keyed);
    keys_stay_in_range(picker, key);
}

/// A key that is not pressed does nothing; any that is takes the last hint away
/// or puts another in its place.
pub proof fn hints_last_until_the_next_key(picker: PickerView, key: KeyEvent)
    ensures
        key.kind != KeyEventKind::Press ==> picker.keyed(key) == (picker, OutcomeView::Nothing),
        key.kind == KeyEventKind::Press && key.code != KeyCode::Enter ==> picker.keyed(
            key,
        ).0.hint is None,
{
    reveal(PickerView::keyed);
}

/// Every option shows whether the cursor is on it and whether it is chosen,
/// then its label and its description; the row under the cursor stands out.
pub proof fn options_show_their_state(picker: PickerView, i: int, width: nat)
    requires
        0 <= i < picker.question().options@.len() < usize::MAX,
    ensures
        ({
            let option = picker.question().options@[i];
            let here = picker.state().cursor == i;
            let marks = (if here {
                "› "@
            } else {
                "  "@
            }) + (if picker.question().multi_select {
                if picker.state().chosen.contains(i as usize) {
                    "[x] "@
                } else {
                    "[ ] "@
                }
            } else if here {
                "(•) "@
            } else {
                "( ) "@
            });
            &&& option_blocks(picker, width).len() == picker.question().options@.len() + 1
            &&& exists|line: LineView, hang: nat|
                #![trigger word_wrapped(line, width, hang)]
                {
                    &&& line.spans.len() == 4
                    &&& line.spans[0].content == marks
                    &&& line.spans[1].content == option.label@
                    &&& line.spans[1].style.add_modifier.bold == here
                    &&& line.spans[1].style.fg == if here {
                        Some(Color::Cyan)
                    } else {
                        None
                    }
                    &&& line.spans[3].content == option.description@
                    &&& option_blocks(picker, width)[i].take(
                        word_wrapped(line, width, hang).len() as int,
                    ) == word_wrapped(line, width, hang)
                    &&& option.preview is None ==> option_blocks(picker, width)[i] == word_wrapped(
                        line,
                        width,
                        hang,
                    )
                }
        }),
{
    let option = picker.question().options@[i];
    let marks = row_marks(picker.state(), picker.question().multi_select, i as nat);
    let line = line_of(
        seq![
            raw_of(marks),
            span_of(option.label@, row_style(picker.state(), i as nat)),
            raw_of("  "@),
            span_of(option.description@, fg_style(Color::DarkGray)),
        ],
    );
    let hang = unicode_text_width(marks) as nat;
    let rows = word_wrapped(line, width, hang);
    let block = option_blocks(picker, width)[i];
    assert(block == option_block(picker, i, width));
    assert(block.take(rows.len() as int) =~= rows);
    if option.preview is None {
        assert(block =~= rows);
    }
}

/// The block under the cursor is the active one.
pub proof fn active_block_is_under_the_cursor(picker: PickerView, width: u16)
    requires
        picker.wf(),
        picker.current < picker.questions.len(),
    ensures
        layout_of(picker, width).active == picker.state().cursor,
        layout_of(picker, width).active < layout_of(picker, width).blocks.len(),
        layout_of(picker, width).header.len() == 1,
{
    assert(picker.states[picker.current as int].cursor <= picker.questions[
        picker.current as int
    ].options@.len());
}

/// A question that comes in starts at its first question and its first option,
/// with nothing chosen or typed.
pub proof fn questions_start_afresh(request_id: RequestId, params: AskUserQuestionParams, i: int)
    requires
        0 <= i < params.questions@.len(),
    ensures
        ({
            let picker = fresh_picker(request_id, params);
            &&& picker.request_id == request_id
            &&& picker.questions == params.questions@
            &&& picker.current == 0
            &&& picker.hint is None
            &&& picker.states.len() == params.questions@.len()
            &&& picker.states[i].cursor == 0
            &&& picker.states[i].chosen =~= Set::empty()
            &&& picker.states[i].editor.text.len() == 0
            &&& !picker.states[i].editing
        }),
{
}

/// No key changes which request is answered, nor the questions.
pub proof fn keys_keep_the_request(picker: PickerView, key: KeyEvent, text: Seq<char>)
    ensures
        picker.keyed(key).0.request_id == picker.request_id,
        picker.keyed(key).0.questions == picker.questions,
        picker.pasted(text).request_id == picker.request_id,
        picker.pasted(text).questions == picker.questions,
{
    reveal(PickerView::keyed);
    reveal(PickerView::pasted);
}

/// The heading tells the header of the question, the question, its place among
/// the questions, and whether several answers are allowed.
pub proof fn headings_tell_the_question(picker: PickerView)
    ensures
        ({
            let question = picker.question();
            let text = "["@ + question.header@ + "] "@ + question.question@ + " ("@ + numeral(
                picker.current as nat + 1,
            ) + "/"@ + numeral(picker.questions.len()) + ")"@;
            &&& !question.multi_select ==> header_text(picker) == text
            &&& question.multi_select ==> header_text(picker) == text + "  multi-select"@
        }),
{
}

/// The footer tells the keys of what is being done, and the hint where there is
/// one.
pub proof fn footers_tell_the_keys(picker: PickerView, width: nat)
    ensures
        ({
            let rows = footer_rows(picker, width);
            let keys = if picker.state().editing {
                "Enter to confirm  ←/→ Home End move  Esc to cancel typing"@
            } else if picker.question().multi_select {
                "Space toggle  Enter next/submit  Tab switch question  Esc cancel"@
            } else {
                "↑/↓ move  Enter next/submit  Tab switch question  Esc cancel"@
            };
            let shown = seq![blank_line()] + word_wrapped(
                line_of(seq![span_of(keys, fg_style(Color::DarkGray))]),
                width,
                0,
            );
            &&& picker.hint is None ==> rows == shown
            &&& picker.hint is Some ==> rows == shown + word_wrapped(
                line_of(seq![span_of(picker.hint->0, fg_style(Color::Yellow))]),
                width,
                0,
            )
        }),
{
}

/// The row behind the options shows the own answer: while it is typed with the
/// cursor standing out, else as it stands, and else what it is for.
pub proof fn own_answers_are_shown(state: StateView, style: Style)
    requires
        state.editor.cursor <= state.editor.text.len(),
    ensures
        ({
            let text = state.editor.text;
            let cursor = state.editor.cursor as int;
            let spans = other_spans(state, style);
            &&& !state.editing && text.len() == 0 ==> spans =~= seq![
                span_of("Other (type your own answer)"@, style),
            ]
            &&& !state.editing && text.len() > 0 ==> spans =~= seq![
                span_of("Other: "@ + text, style),
            ]
            &&& state.editing ==> spans.len() >= 3 && spans[0].content == "Other: "@
                && spans[1].content == text.take(cursor)
            &&& state.editing && !style.add_modifier.reversed
                ==> !spans[1].style.add_modifier.reversed
            &&& state.editing && cursor < text.len() ==> spans.len() == 4 && spans[2].content
                =~= seq![text[cursor]] && spans[3].content == text.skip(cursor + 1)
            &&& state.editing && cursor == text.len() ==> spans.len() == 3 && spans[2].content
                == " "@
            &&& state.editing ==> spans[2].style.add_modifier.reversed
                && spans[0].style.add_modifier.underlined && spans[1].style.add_modifier.underlined
        }),
{
}

/// Pasted text goes into the answer while it is typed, on one line, and nowhere
/// else.
pub proof fn pasted_text_joins_the_answer(picker: PickerView, text: Seq<char>)
    requires
        picker.wf(),
        picker.current < picker.questions.len(),
        picker.state().editor.cursor <= picker.state().editor.text.len(),
    ensures
        ({
            let after = picker.pasted(text);
            let e = picker.state().editor;
            let kept = with_breaks(text, ' ', ' ');
            &&& !picker.state().editing ==> after == picker
            &&& picker.state().editing ==> after.state().editor.text =~= e.text.take(
                e.cursor as int,
            ) + kept + e.text.skip(e.cursor as int) && after.state().editor.cursor == e.cursor
                + kept.len() && after.differs_in_state(picker) && after.state().chosen
                == picker.state().chosen
        }),
{
    reveal(PickerView::pasted);
}

/// A question takes its heading, its options and its footer; where they do not
/// fit, the window on the options moves no farther than the active one needs.
pub proof fn questions_take_their_rows(picker: PickerView, width: u16, height: u16)
    requires
        picker.current < picker.questions.len(),
    ensures
        ({
            let layout = layout_of(picker, width);
            let options = flat(layout.blocks, layout.blocks.len());
            let total = layout.header.len() + options.len() + layout.footer.len();
            &&& total <= u16::MAX ==> picker_height(picker, width) == total
            &&& total > u16::MAX ==> picker_height(picker, width) == u16::MAX
            &&& total <= height ==> picker_rows(layout, height) =~= layout.header + options
                + layout.footer
        }),
{
}

/// The window on the options starts at their start where the active option
/// fits there, and otherwise ends with it or, where it is too tall, starts with
/// it.
pub proof fn windows_follow_the_active_option(total: nat, start: nat, end: nat, budget: nat)
    requires
        start < end <= total,
        budget > 0,
    ensures
        ({
            let top = window_top(total, start, end, budget);
            &&& total <= budget ==> top == 0
            &&& end < budget ==> top == 0
            &&& total > budget && end - start >= budget ==> top == start
            &&& total > budget && end - start < budget && end >= budget ==> top + budget == end
        }),
{
}

} // verus!
