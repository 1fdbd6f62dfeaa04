//! Cursor-aware text editor state.
use vstd::prelude::*;
use crate::text::{
    byte_len, char_len, chars_of, lemma_byte_len_bounds, lemma_byte_len_concat, lemma_byte_len_step,
    lemma_byte_len_take, replace_breaks, str_len, string_of, with_breaks,
};
use crate::width::{char_columns, columns};

verus! {

// ---------------------------------------------------------------------------
// Byte offsets and character indices
// ---------------------------------------------------------------------------

/// Whether the byte offset `offset` falls between two characters of `text`.
pub open spec fn at_boundary(text: Seq<char>, offset: nat) -> bool {
    exists|n: nat| n <= text.len() && byte_len(#[trigger] text.take(n as int)) == offset
}

/// The number of characters in front of a byte offset.
pub open spec fn index_at(text: Seq<char>, offset: nat) -> nat {
    choose|n: nat| n <= text.len() && byte_len(#[trigger] text.take(n as int)) == offset
}

/// The byte offset behind the first `n` characters.
pub open spec fn offset_at(text: Seq<char>, n: nat) -> nat {
    byte_len(text.take(n as int))
}

pub proof fn lemma_offset_index(text: Seq<char>, n: nat)
    requires
        n <= text.len(),
    ensures
        at_boundary(text, offset_at(text, n)),
        index_at(text, offset_at(text, n)) == n,
        offset_at(text, n) <= byte_len(text),
        n == text.len() ==> offset_at(text, n) == byte_len(text),
        n == 0 ==> offset_at(text, n) == 0,
{
    assert(text.take(text.len() as int) =~= text);
    lemma_byte_len_take(text, n as int, text.len() as int);
    lemma_byte_len_bounds(text.take(0));
    let m = index_at(text, offset_at(text, n));
    assert(m <= text.len() && byte_len(text.take(m as int)) == offset_at(text, n));
    if m < n {
        lemma_byte_len_take(text, m as int, n as int);
    } else if n < m {
        lemma_byte_len_take(text, n as int, m as int);
    }
}

pub proof fn lemma_index_offset(text: Seq<char>, offset: nat)
    requires
        at_boundary(text, offset),
    ensures
        index_at(text, offset) <= text.len(),
        offset_at(text, index_at(text, offset)) == offset,
        offset <= byte_len(text),
        (index_at(text, offset) == 0) == (offset == 0),
        (index_at(text, offset) == text.len()) == (offset == byte_len(text)),
{
    let n = index_at(text, offset);
    lemma_offset_index(text, n);
    lemma_offset_index(text, 0);
    lemma_offset_index(text, text.len());
}

/// Offsets are ordered as the indices are.
pub proof fn lemma_index_order(text: Seq<char>, a: nat, b: nat)
    requires
        at_boundary(text, a),
        at_boundary(text, b),
    ensures
        (a < b) == (index_at(text, a) < index_at(text, b)),
        (a == b) == (index_at(text, a) == index_at(text, b)),
{
    lemma_index_offset(text, a);
    lemma_index_offset(text, b);
    let i = index_at(text, a);
    let j = index_at(text, b);
    if i < j {
        lemma_byte_len_take(text, i as int, j as int);
    } else if j < i {
        lemma_byte_len_take(text, j as int, i as int);
    }
}

/// The number of characters in front of a byte offset.
fn index_of(chars: &Vec<char>, offset: usize) -> (n: usize)
    requires
        at_boundary(chars@, offset as nat),
    ensures
        n == index_at(chars@, offset as nat),
        n <= chars@.len(),
{
    let ghost target = index_at(chars@, offset as nat);
    proof {
        lemma_index_offset(chars@, offset as nat);
        lemma_offset_index(chars@, 0);
    }
    let mut n: usize = 0;
    let mut seen: usize = 0;
    while seen < offset
        invariant
            target == index_at(chars@, offset as nat),
            target <= chars.len(),
            offset_at(chars@, target) == offset,
            n <= target,
            seen == offset_at(chars@, n as nat),
            seen <= offset,
        decreases target - n,
    {
        proof {
            if n == target {
                assert(false);
            }
            lemma_byte_len_step(chars@, n as int);
            lemma_byte_len_take(chars@, n + 1, target as int);
        }
        seen = seen + char_len(chars[n]);
        n += 1;
    }
    proof {
        lemma_offset_index(chars@, n as nat);
    }
    n
}

/// The byte offset behind the first `n` characters.
fn offset_of(chars: &Vec<char>, n: usize) -> (offset: usize)
    requires
        n <= chars@.len(),
        byte_len(chars@) <= usize::MAX,
    ensures
        offset == offset_at(chars@, n as nat),
{
    let mut i: usize = 0;
    let mut offset: usize = 0;
    proof {
        lemma_offset_index(chars@, 0);
    }
    while i < n
        invariant
            i <= n <= chars@.len(),
            byte_len(chars@) <= usize::MAX,
            offset == offset_at(chars@, i as nat),
        decreases n - i,
    {
        proof {
            lemma_byte_len_step(chars@, i as int);
            lemma_offset_index(chars@, (i + 1) as nat);
        }
        offset = offset + char_len(chars[i]);
        i += 1;
    }
    offset
}

// ---------------------------------------------------------------------------
// The editor
// ---------------------------------------------------------------------------

/// Cursor-aware single/multi-line text editor state, shared by the main
/// composer and the question picker's "Other" field. The cursor is a byte
/// offset between two characters.
#[derive(Debug)]
pub struct ComposerState {
    text: String,
    cursor: usize,
    visual_goal_col: Option<usize>,
}

/// A row of the wrapped text: byte offsets of its ends, and its columns.
#[derive(Debug, Clone, Copy)]
pub struct ComposerVisualRow {
    pub start: usize,
    pub end: usize,
    pub width: usize,
}

/// The edited text, the number of characters in front of the cursor, and the
/// column that vertical moves aim at.
#[verifier::ext_equal]
pub struct ComposerView {
    pub text: Seq<char>,
    pub cursor: nat,
    pub goal: Option<usize>,
}

/// A row of the wrapped text: character indices of its ends, and its columns.
#[verifier::ext_equal]
pub struct RowView {
    pub first: nat,
    pub last: nat,
    pub width: nat,
}

pub open spec fn empty_composer() -> ComposerView {
    ComposerView { text: Seq::empty(), cursor: 0, goal: None }
}

/// Columns that a character takes in the editor.
pub open spec fn editor_columns(ch: char) -> nat {
    if ch == '\t' {
        4
    } else {
        columns(ch)
    }
}

/// Columns that `text` takes in the editor.
pub open spec fn editor_width(text: Seq<char>) -> nat
    decreases text.len(),
{
    if text.len() == 0 {
        0
    } else {
        editor_width(text.drop_last()) + editor_columns(text.last())
    }
}

pub open spec fn capped(n: nat) -> usize {
    if n <= usize::MAX {
        n as usize
    } else {
        usize::MAX
    }
}

/// Rows ended within the first characters of a text, the index where the open
/// row starts, and its columns.
#[verifier::ext_equal]
pub struct RowScan {
    pub rows: Seq<RowView>,
    pub start: nat,
    pub width: nat,
}

/// The rows of the first `n` characters of `text`: a row ends at a line feed,
/// or in front of a character that does not fit behind what the row holds.
pub open spec fn scan_rows(text: Seq<char>, n: nat, width: nat) -> RowScan
    decreases n,
{
    if n == 0 {
        RowScan { rows: Seq::empty(), start: 0, width: 0 }
    } else {
        let s = scan_rows(text, (n - 1) as nat, width);
        let ch = text[n - 1];
        let row = RowView { first: s.start, last: (n - 1) as nat, width: s.width };
        if ch == '\n' {
            RowScan { rows: s.rows.push(row), start: n, width: 0 }
        } else if s.width > 0 && s.width + editor_columns(ch) > width {
            RowScan { rows: s.rows.push(row), start: (n - 1) as nat, width: editor_columns(ch) }
        } else {
            RowScan { width: s.width + editor_columns(ch), ..s }
        }
    }
}

/// The rows of `text` at `width` columns. A last row that is full has an empty
/// row behind it, where the cursor goes.
pub open spec fn rows_of(text: Seq<char>, width: nat) -> Seq<RowView> {
    let w = if width == 0 {
        1
    } else {
        width
    };
    let s = scan_rows(text, text.len(), w);
    let rows = s.rows.push(RowView { first: s.start, last: text.len(), width: s.width });
    if text.len() > 0 && text.last() != '\n' && s.width >= w {
        rows.push(RowView { first: text.len(), last: text.len(), width: 0 })
    } else {
        rows
    }
}

/// A row given by byte offsets, in character indices.
pub open spec fn row_view(text: Seq<char>, row: ComposerVisualRow) -> RowView {
    RowView {
        first: index_at(text, row.start as nat),
        last: index_at(text, row.end as nat),
        width: row.width as nat,
    }
}

pub open spec fn rows_view(text: Seq<char>, rows: Seq<ComposerVisualRow>) -> Seq<RowView> {
    rows.map_values(|r: ComposerVisualRow| row_view(text, r))
}

/// The characters of a row.
pub open spec fn row_chars(text: Seq<char>, row: RowView) -> Seq<char> {
    text.subrange(row.first as int, row.last as int)
}

/// The ends of every row fall between characters of `text`, in order.
pub open spec fn rows_valid(text: Seq<char>, rows: Seq<ComposerVisualRow>) -> bool {
    forall|i: int|
        0 <= i < rows.len() ==> at_boundary(text, (#[trigger] rows[i]).start as nat)
            && at_boundary(text, rows[i].end as nat) && rows[i].start <= rows[i].end
}

/// Whether the cursor is shown on row `i`. At the end of a row it is, unless
/// the next row starts there or the text goes on in the same line.
pub open spec fn cursor_on_row(text: Seq<char>, cursor: nat, rows: Seq<RowView>, i: int) -> bool {
    let row = rows[i];
    let next_starts_here = i + 1 < rows.len() && rows[i + 1].first == cursor;
    cursor >= row.first && (cursor < row.last || (cursor == row.last && !next_starts_here && (cursor
        == text.len() || text[cursor as int] == '\n' || row.first == row.last)))
}

/// Row and column of the cursor, searched from row `i` on.
pub open spec fn position_from(text: Seq<char>, cursor: nat, rows: Seq<RowView>, i: nat) -> (
    nat,
    usize,
)
    decreases rows.len() - i,
{
    if i >= rows.len() {
        if rows.len() == 0 {
            (0, 0)
        } else {
            ((rows.len() - 1) as nat, capped(rows.last().width))
        }
    } else if cursor_on_row(text, cursor, rows, i as int) {
        (i, capped(editor_width(text.subrange(rows[i as int].first as int, cursor as int))))
    } else {
        position_from(text, cursor, rows, i + 1)
    }
}

/// Row and column where the cursor is shown.
pub open spec fn position_in(text: Seq<char>, cursor: nat, rows: Seq<RowView>) -> (nat, usize) {
    position_from(text, cursor, rows, 0)
}

/// The index reached from `i` when `room` columns may be crossed before `last`.
pub open spec fn walk(text: Seq<char>, i: nat, last: nat, room: nat) -> nat
    decreases last - i,
{
    if i < last && editor_columns(text[i as int]) <= room {
        walk(text, i + 1, last, (room - editor_columns(text[i as int])) as nat)
    } else {
        i
    }
}

/// The index on row `row` that is nearest to column `col` without passing it.
pub open spec fn index_for(text: Seq<char>, rows: Seq<RowView>, row: nat, col: nat) -> nat {
    if row >= rows.len() {
        text.len()
    } else {
        walk(text, rows[row as int].first, rows[row as int].last, col)
    }
}

/// The index behind the last line feed among the first `n` characters.
pub open spec fn line_start(text: Seq<char>, n: nat) -> nat
    decreases n,
{
    if n == 0 || text[n - 1] == '\n' {
        n
    } else {
        line_start(text, (n - 1) as nat)
    }
}

/// The index of the first line feed from `n` on, or the end of the text.
pub open spec fn line_end(text: Seq<char>, n: nat) -> nat
    decreases text.len() - n,
{
    if n >= text.len() || text[n as int] == '\n' {
        n
    } else {
        line_end(text, n + 1)
    }
}

impl ComposerView {
    pub open spec fn with_inserted(self, ins: Seq<char>) -> ComposerView {
        ComposerView {
            text: self.text.take(self.cursor as int) + ins + self.text.skip(self.cursor as int),
            cursor: self.cursor + ins.len(),
            goal: None,
        }
    }

    pub open spec fn backspaced(self) -> ComposerView {
        if self.cursor == 0 {
            self
        } else {
            ComposerView {
                text: self.text.remove(self.cursor - 1),
                cursor: (self.cursor - 1) as nat,
                goal: None,
            }
        }
    }

    pub open spec fn deleted(self) -> ComposerView {
        if self.cursor >= self.text.len() {
            self
        } else {
            ComposerView { text: self.text.remove(self.cursor as int), goal: None, ..self }
        }
    }

    pub open spec fn moved_to(self, cursor: nat) -> ComposerView {
        ComposerView { cursor, goal: None, ..self }
    }

    pub open spec fn moved_left(self) -> ComposerView {
        self.moved_to(
            if self.cursor == 0 {
                0
            } else {
                (self.cursor - 1) as nat
            },
        )
    }

    pub open spec fn moved_right(self) -> ComposerView {
        self.moved_to(
            if self.cursor >= self.text.len() {
                self.cursor
            } else {
                self.cursor + 1
            },
        )
    }

    /// The column that a vertical move aims at: the one remembered, else the
    /// one where the cursor is.
    pub open spec fn goal_column(self, width: nat) -> usize {
        match self.goal {
            Some(col) => col,
            None => position_in(self.text, self.cursor, rows_of(self.text, width)).1,
        }
    }

    pub open spec fn moved_up(self, width: nat) -> ComposerView {
        let rows = rows_of(self.text, width);
        let row = position_in(self.text, self.cursor, rows).0;
        let goal = self.goal_column(width);
        ComposerView {
            cursor: if row > 0 {
                index_for(self.text, rows, (row - 1) as nat, goal as nat)
            } else {
                self.cursor
            },
            goal: Some(goal),
            ..self
        }
    }

    pub open spec fn moved_down(self, width: nat) -> ComposerView {
        let rows = rows_of(self.text, width);
        let row = position_in(self.text, self.cursor, rows).0;
        let goal = self.goal_column(width);
        ComposerView {
            cursor: if row + 1 < rows.len() {
                index_for(self.text, rows, row + 1, goal as nat)
            } else {
                self.cursor
            },
            goal: Some(goal),
            ..self
        }
    }
}

impl View for ComposerState {
    type V = ComposerView;

    closed spec fn view(&self) -> ComposerView {
        ComposerView {
            text: self.text@,
            cursor: index_at(self.text@, self.cursor as nat),
            goal: self.visual_goal_col,
        }
    }
}

impl ComposerState {
    /// The cursor stands between two characters of the text.
    pub closed spec fn wf(&self) -> bool {
        at_boundary(self.text@, self.cursor as nat)
    }

    pub proof fn lemma_cursor_in_text(&self)
        requires
            self.wf(),
        ensures
            self@.cursor <= self@.text.len(),
    {
        lemma_index_offset(self.text@, self.cursor as nat);
    }

    pub fn new() -> (c: ComposerState)
        ensures
            c.wf(),
            c@ == empty_composer(),
    {
        let c: ComposerState = ComposerState {
            text: String::new(),
            cursor: 0,
            visual_goal_col: None,
        };
        proof {
            lemma_offset_index(c.text@, 0);
        }
        c
    }

    pub fn as_str(&self) -> (r: &str)
        ensures
            r@ == self@.text,
    {
        self.text.as_str()
    }

    pub fn is_empty(&self) -> (r: bool)
        ensures
            r == (self@.text.len() == 0),
    {
        self.text.as_str().is_empty()
    }

    /// The byte offset of the cursor.
    pub fn cursor(&self) -> (r: usize)
        requires
            self.wf(),
        ensures
            r == offset_at(self@.text, self@.cursor),
            at_boundary(self@.text, r as nat),
    {
        proof {
            lemma_index_offset(self.text@, self.cursor as nat);
        }
        self.cursor
    }

    /// The index of the character under the cursor.
    pub fn cursor_index(&self) -> (r: usize)
        requires
            self.wf(),
        ensures
            r == self@.cursor,
    {
        let chars: Vec<char> = chars_of(self.text.as_str());
        index_of(&chars, self.cursor)
    }

    /// Replaces the text; the cursor goes to its end.
    pub fn set_text(&mut self, text: String)
        ensures
            final(self).wf(),
            final(self)@ == (ComposerView { text: text@, cursor: text@.len(), goal: None }),
    {
        self.cursor = str_len(text.as_str());
        self.text = text;
        self.visual_goal_col = None;
        proof {
            lemma_offset_index(self.text@, self.text@.len());
        }
    }

    /// Empties the editor and hands out its text.
    pub fn take_text(&mut self) -> (r: String)
        ensures
            final(self).wf(),
            final(self)@ == empty_composer(),
            r@ == old(self)@.text,
    {
        let mut text: String = String::new();
        core::mem::swap(&mut text, &mut self.text);
        self.cursor = 0;
        self.visual_goal_col = None;
        proof {
            lemma_offset_index(self.text@, 0);
        }
        text
    }

    pub fn insert_char(&mut self, ch: char)
        requires
            old(self).wf(),
        ensures
            final(self).wf(),
            final(self)@ == old(self)@.with_inserted(seq![ch]),
    {
        let mut text: String = String::new();
        text.push(ch);
        assert(text@ =~= seq![ch]);
        self.insert_text(text.as_str());
    }

    pub fn insert_str(&mut self, text: &str)
        requires
            old(self).wf(),
        ensures
            final(self).wf(),
            final(self)@ == if text@.len() == 0 {
                old(self)@
            } else {
                old(self)@.with_inserted(text@)
            },
    {
        if text.is_empty() {
            return;
        }
        self.insert_text(text);
    }

    fn insert_text(&mut self, ins: &str)
        requires
            old(self).wf(),
        ensures
            final(self).wf(),
            final(self)@ == old(self)@.with_inserted(ins@),
    {
        let chars: Vec<char> = chars_of(self.text.as_str());
        let n: usize = index_of(&chars, self.cursor);
        let mut text: String = string_of(&chars, 0, n);
        let ghost head = text@;
        text.push_str(ins);
        let tail: String = string_of(&chars, n, chars.len());
        text.push_str(tail.as_str());
        let size: usize = str_len(text.as_str());
        proof {
            lemma_index_offset(old(self).text@, self.cursor as nat);
            assert(head =~= chars@.take(n as int));
            assert(tail@ =~= chars@.skip(n as int));
            assert(text@.take((n + ins@.len()) as int) =~= head + ins@);
            lemma_byte_len_concat(head, ins@);
            lemma_offset_index(text@, (n + ins@.len()) as nat);
        }
        self.cursor = self.cursor + str_len(ins);
        self.text = text;
        self.visual_goal_col = None;
    }

    /// Inserts pasted text, its line breaks turned into line feeds.
    pub fn insert_paste(&mut self, text: &str)
        requires
            old(self).wf(),
        ensures
            final(self).wf(),
            final(self)@ == if with_breaks(text@, '\n', '\t').len() == 0 {
                old(self)@
            } else {
                old(self)@.with_inserted(with_breaks(text@, '\n', '\t'))
            },
    {
        let normalized: String = replace_breaks(text, '\n', '\t');
        self.insert_str(normalized.as_str());
    }

    /// The byte offset in front of the character before the cursor.
    pub fn prev_cursor_boundary(&self) -> (r: Option<usize>)
        requires
            self.wf(),
        ensures
            self@.cursor == 0 ==> r is None,
            self@.cursor > 0 ==> r == Some(offset_at(self@.text, (self@.cursor - 1) as nat) as usize)
                && offset_at(self@.text, (self@.cursor - 1) as nat) <= usize::MAX,
    {
        proof {
            lemma_index_offset(self.text@, self.cursor as nat);
        }
        if self.cursor == 0 {
            return None;
        }
        let chars: Vec<char> = chars_of(self.text.as_str());
        let n: usize = index_of(&chars, self.cursor);
        proof {
            lemma_offset_index(chars@, (n - 1) as nat);
        }
        let size: usize = str_len(self.text.as_str());
        Some(offset_of(&chars, n - 1))
    }

    /// The byte offset behind the character after the cursor.
    pub fn next_cursor_boundary(&self) -> (r: Option<usize>)
        requires
            self.wf(),
        ensures
            self@.cursor >= self@.text.len() ==> r is None,
            self@.cursor < self@.text.len() ==> r == Some(
                offset_at(self@.text, self@.cursor + 1) as usize,
            ) && offset_at(self@.text, self@.cursor + 1) <= usize::MAX,
    {
        proof {
            lemma_index_offset(self.text@, self.cursor as nat);
        }
        let chars: Vec<char> = chars_of(self.text.as_str());
        let size: usize = str_len(self.text.as_str());
        if self.cursor >= size {
            return None;
        }
        let n: usize = index_of(&chars, self.cursor);
        proof {
            lemma_byte_len_step(chars@, n as int);
            lemma_offset_index(chars@, (n + 1) as nat);
        }
        Some(self.cursor + char_len(chars[n]))
    }

    /// Removes the character before the cursor.
    pub fn backspace(&mut self)
        requires
            old(self).wf(),
        ensures
            final(self).wf(),
            final(self)@ == old(self)@.backspaced(),
    {
        let prev: usize = match self.prev_cursor_boundary() {
            Some(prev) => prev,
            None => return ,
        };
        proof {
            old(self).lemma_cursor_in_text();
        }
        let chars: Vec<char> = chars_of(self.text.as_str());
        let n: usize = index_of(&chars, self.cursor);
        let mut text: String = string_of(&chars, 0, n - 1);
        let tail: String = string_of(&chars, n, chars.len());
        text.push_str(tail.as_str());
        proof {
            assert(text@ =~= chars@.remove(n - 1));
            assert(text@.take(n - 1) =~= chars@.take(n - 1));
            lemma_offset_index(text@, (n - 1) as nat);
        }
        self.text = text;
        self.cursor = prev;
        self.visual_goal_col = None;
    }

    /// Removes the character after the cursor.
    pub fn delete(&mut self)
        requires
            old(self).wf(),
        ensures
            final(self).wf(),
            final(self)@ == old(self)@.deleted(),
    {
        proof {
            old(self).lemma_cursor_in_text();
            lemma_index_offset(self.text@, self.cursor as nat);
        }
        if self.next_cursor_boundary().is_none() {
            return;
        }
        let chars: Vec<char> = chars_of(self.text.as_str());
        let n: usize = index_of(&chars, self.cursor);
        let total: usize = chars.len();
        let mut text: String = string_of(&chars, 0, n);
        let tail: String = string_of(&chars, n + 1, total);
        text.push_str(tail.as_str());
        proof {
            assert(text@ =~= chars@.remove(n as int));
            assert(text@.take(n as int) =~= chars@.take(n as int));
            lemma_offset_index(text@, n as nat);
        }
        self.text = text;
        self.visual_goal_col = None;
    }

    pub fn move_left(&mut self)
        requires
            old(self).wf(),
        ensures
            final(self).wf(),
            final(self)@ == old(self)@.moved_left(),
    {
        proof {
            old(self).lemma_cursor_in_text();
        }
        if let Some(prev) = self.prev_cursor_boundary() {
            proof {
                lemma_offset_index(self.text@, (self@.cursor - 1) as nat);
            }
            self.cursor = prev;
        }
        self.visual_goal_col = None;
    }

    pub fn move_right(&mut self)
        requires
            old(self).wf(),
        ensures
            final(self).wf(),
            final(self)@ == old(self)@.moved_right(),
    {
        proof {
            old(self).lemma_cursor_in_text();
        }
        if let Some(next) = self.next_cursor_boundary() {
            proof {
                lemma_offset_index(self.text@, self@.cursor + 1);
            }
            self.cursor = next;
        }
        self.visual_goal_col = None;
    }

    /// The byte offset where the cursor's line starts.
    pub fn current_line_start(&self) -> (r: usize)
        requires
            self.wf(),
        ensures
            r == offset_at(self@.text, line_start(self@.text, self@.cursor)),
            line_start(self@.text, self@.cursor) <= self@.cursor,
    {
        let chars: Vec<char> = chars_of(self.text.as_str());
        let size: usize = str_len(self.text.as_str());
        let start: usize = index_of(&chars, self.cursor);
        let mut n: usize = start;
        while n > 0 && chars[n - 1] != '\n'
            invariant
                n <= start <= chars@.len(),
                line_start(chars@, start as nat) == line_start(chars@, n as nat),
            decreases n,
        {
            n -= 1;
        }
        offset_of(&chars, n)
    }

    /// The byte offset where the cursor's line ends.
    pub fn current_line_end(&self) -> (r: usize)
        requires
            self.wf(),
        ensures
            r == offset_at(self@.text, line_end(self@.text, self@.cursor)),
            self@.cursor <= line_end(self@.text, self@.cursor) <= self@.text.len(),
    {
        let chars: Vec<char> = chars_of(self.text.as_str());
        let size: usize = str_len(self.text.as_str());
        let start: usize = index_of(&chars, self.cursor);
        let mut n: usize = start;
        while n < chars.len() && chars[n] != '\n'
            invariant
                start <= n <= chars@.len(),
                line_end(chars@, start as nat) == line_end(chars@, n as nat),
            decreases chars@.len() - n,
        {
            n += 1;
        }
        offset_of(&chars, n)
    }

    pub fn move_line_start(&mut self)
        requires
            old(self).wf(),
        ensures
            final(self).wf(),
            final(self)@ == old(self)@.moved_to(line_start(old(self)@.text, old(self)@.cursor)),
    {
        self.cursor = self.current_line_start();
        self.visual_goal_col = None;
        proof {
            old(self).lemma_cursor_in_text();
            lemma_offset_index(self.text@, line_start(self.text@, old(self)@.cursor));
        }
    }

    pub fn move_line_end(&mut self)
        requires
            old(self).wf(),
        ensures
            final(self).wf(),
            final(self)@ == old(self)@.moved_to(line_end(old(self)@.text, old(self)@.cursor)),
    {
        self.cursor = self.current_line_end();
        self.visual_goal_col = None;
        proof {
            lemma_offset_index(self.text@, line_end(self.text@, old(self)@.cursor));
        }
    }
}

/// Columns that `ch` takes in the editor.
fn char_width(ch: char) -> (n: usize)
    ensures
        n == editor_columns(ch),
        n <= 4,
{
    if ch == '\t' {
        4
    } else {
        char_columns(ch)
    }
}

proof fn lemma_scan_rows(text: Seq<char>, n: nat, width: nat)
    requires
        n <= text.len(),
    ensures
        scan_rows(text, n, width).start <= n,
    decreases n,
{
    if n > 0 {
        lemma_scan_rows(text, (n - 1) as nat, width);
    }
}

proof fn lemma_walk(text: Seq<char>, i: nat, last: nat, room: nat)
    requires
        i <= last,
    ensures
        i <= walk(text, i, last, room) <= last,
    decreases last - i,
{
    if i < last && editor_columns(text[i as int]) <= room {
        lemma_walk(text, i + 1, last, (room - editor_columns(text[i as int])) as nat);
    }
}

proof fn lemma_position_row(text: Seq<char>, cursor: nat, rows: Seq<RowView>, i: nat)
    requires
        rows.len() > 0,
    ensures
        position_from(text, cursor, rows, i).0 < rows.len(),
    decreases rows.len() - i,
{
    if i < rows.len() && !cursor_on_row(text, cursor, rows, i as int) {
        lemma_position_row(text, cursor, rows, i + 1);
    }
}

/// Appends a row given by character indices.
fn push_row(
    rows: &mut Vec<ComposerVisualRow>,
    chars: &Vec<char>,
    first: usize,
    last: usize,
    start: usize,
    end: usize,
    width: usize,
)
    requires
        first <= last <= chars@.len(),
        start == offset_at(chars@, first as nat),
        end == offset_at(chars@, last as nat),
        rows_valid(chars@, old(rows)@),
    ensures
        rows_valid(chars@, final(rows)@),
        rows_view(chars@, final(rows)@) == rows_view(chars@, old(rows)@).push(
            RowView { first: first as nat, last: last as nat, width: width as nat },
        ),
{
    rows.push(ComposerVisualRow { start, end, width });
    proof {
        lemma_offset_index(chars@, first as nat);
        lemma_offset_index(chars@, last as nat);
        lemma_byte_len_take(chars@, first as int, last as int);
        assert(rows_view(chars@, rows@) =~= rows_view(chars@, old(rows)@).push(
            RowView { first: first as nat, last: last as nat, width: width as nat },
        ));
    }
}

impl ComposerState {
    /// The rows of the text at `width` columns.
    pub fn visual_rows(&self, width: usize) -> (r: Vec<ComposerVisualRow>)
        ensures
            rows_valid(self@.text, r@),
            rows_view(self@.text, r@) == rows_of(self@.text, width as nat),
            r@.len() > 0,
    {
        let width: usize = if width > 0 {
            width
        } else {
            1
        };
        let chars: Vec<char> = chars_of(self.text.as_str());
        let size: usize = str_len(self.text.as_str());
        let ghost text = self.text@;
        let mut rows: Vec<ComposerVisualRow> = Vec::new();
        let mut row_first: usize = 0;
        let mut row_start: usize = 0;
        let mut row_width: usize = 0;
        let mut i: usize = 0;
        let mut offset: usize = 0;
        proof {
            lemma_offset_index(text, 0);
            assert(rows_view(text, rows@) =~= scan_rows(text, 0, width as nat).rows);
        }
        while i < chars.len()
            invariant
                chars@ == text,
                size == byte_len(text),
                width > 0,
                i <= chars@.len(),
                offset == offset_at(text, i as nat),
                row_first <= i,
                row_start == offset_at(text, row_first as nat),
                rows_valid(text, rows@),
                (RowScan {
                    rows: rows_view(text, rows@),
                    start: row_first as nat,
                    width: row_width as nat,
                }) == scan_rows(text, i as nat, width as nat),
                row_width <= width || row_width <= 4,
            decreases chars@.len() - i,
        {
            let ch: char = chars[i];
            let n: usize = char_len(ch);
            proof {
                lemma_byte_len_step(text, i as int);
                lemma_offset_index(text, (i + 1) as nat);
            }
            if ch == '\n' {
                push_row(&mut rows, &chars, row_first, i, row_start, offset, row_width);
                row_first = i + 1;
                row_start = offset + n;
                row_width = 0;
            } else {
                let columns: usize = char_width(ch);
                if row_width > 0 && (columns > width || row_width > width - columns) {
                    push_row(&mut rows, &chars, row_first, i, row_start, offset, row_width);
                    row_first = i;
                    row_start = offset;
                    row_width = 0;
                }
                row_width = row_width + columns;
            }
            offset = offset + n;
            i += 1;
        }
        proof {
            lemma_offset_index(text, text.len());
        }
        push_row(&mut rows, &chars, row_first, i, row_start, offset, row_width);
        assert(rows_view(text, rows@).len() == rows@.len());
        if i > 0 && chars[i - 1] != '\n' && row_width >= width {
            push_row(&mut rows, &chars, i, i, offset, offset, 0);
        }
        assert(rows_view(text, rows@).len() == rows@.len());
        rows
    }

    /// Columns of the text between two byte offsets.
    pub fn display_width(&self, start: usize, end: usize) -> (r: usize)
        requires
            at_boundary(self@.text, start as nat),
            at_boundary(self@.text, end as nat),
            start <= end,
        ensures
            r == capped(
                editor_width(
                    self@.text.subrange(
                        index_at(self@.text, start as nat) as int,
                        index_at(self@.text, end as nat) as int,
                    ),
                ),
            ),
    {
        let chars: Vec<char> = chars_of(self.text.as_str());
        let first: usize = index_of(&chars, start);
        let last: usize = index_of(&chars, end);
        proof {
            lemma_index_order(self.text@, start as nat, end as nat);
        }
        let mut i: usize = first;
        let mut sum: usize = 0;
        assert(chars@.subrange(first as int, first as int) =~= Seq::<char>::empty());
        while i < last
            invariant
                first <= i <= last <= chars@.len(),
                sum == capped(editor_width(chars@.subrange(first as int, i as int))),
            decreases last - i,
        {
            assert(chars@.subrange(first as int, i + 1).drop_last() =~= chars@.subrange(
                first as int,
                i as int,
            ));
            sum = sum.saturating_add(char_width(chars[i]));
            i += 1;
        }
        sum
    }

    /// The text of a row.
    pub fn row_text(&self, row: &ComposerVisualRow) -> (r: String)
        requires
            at_boundary(self@.text, row.start as nat),
            at_boundary(self@.text, row.end as nat),
            row.start <= row.end,
        ensures
            r@ == row_chars(self@.text, row_view(self@.text, *row)),
    {
        let chars: Vec<char> = chars_of(self.text.as_str());
        let first: usize = index_of(&chars, row.start);
        let last: usize = index_of(&chars, row.end);
        proof {
            lemma_index_order(self.text@, row.start as nat, row.end as nat);
        }
        string_of(&chars, first, last)
    }

    /// Row and column of the cursor in `rows`.
    pub fn cursor_visual_position_in_rows(&self, rows: &Vec<ComposerVisualRow>) -> (r: (
        usize,
        usize,
    ))
        requires
            self.wf(),
            rows_valid(self@.text, rows@),
        ensures
            (r.0 as nat, r.1) == position_in(
                self@.text,
                self@.cursor,
                rows_view(self@.text, rows@),
            ),
    {
        let chars: Vec<char> = chars_of(self.text.as_str());
        let cursor: usize = index_of(&chars, self.cursor);
        let ghost views = rows_view(self@.text, rows@);
        let mut i: usize = 0;
        while i < rows.len()
            invariant
                self.wf(),
                chars@ == self@.text,
                cursor == self@.cursor,
                cursor <= chars@.len(),
                at_boundary(self@.text, self.cursor as nat),
                self@.cursor == index_at(self@.text, self.cursor as nat),
                rows_valid(self@.text, rows@),
                views == rows_view(self@.text, rows@),
                i <= rows@.len(),
                position_in(self@.text, self@.cursor, views) == position_from(
                    self@.text,
                    self@.cursor,
                    views,
                    i as nat,
                ),
            decreases rows@.len() - i,
        {
            let row: ComposerVisualRow = rows[i];
            assert(rows@[i as int].start <= rows@[i as int].end);
            assert(views[i as int] == row_view(self@.text, row));
            let next_starts_here: bool = if i + 1 < rows.len() {
                let next: ComposerVisualRow = rows[i + 1];
                assert(rows@[i + 1].start <= rows@[i + 1].end);
                assert(views[i + 1] == row_view(self@.text, next));
                proof {
                    lemma_index_order(self@.text, next.start as nat, self.cursor as nat);
                }
                next.start == self.cursor
            } else {
                false
            };
            proof {
                lemma_index_order(self@.text, row.start as nat, self.cursor as nat);
                lemma_index_order(self@.text, row.end as nat, self.cursor as nat);
                lemma_index_order(self@.text, row.start as nat, row.end as nat);
            }
            let at_end: bool = self.cursor == row.end && !next_starts_here && (cursor
                == chars.len() || chars[cursor] == '\n' || row.start == row.end);
            if self.cursor >= row.start && (self.cursor < row.end || at_end) {
                return (i, self.display_width(row.start, self.cursor));
            }
            i += 1;
        }
        let n: usize = rows.len();
        if n == 0 {
            (0, 0)
        } else {
            assert(views.last() == row_view(self@.text, rows@[n - 1]));
            (n - 1, rows[n - 1].width)
        }
    }

    pub fn cursor_visual_position(&self, width: usize) -> (r: (usize, usize))
        requires
            self.wf(),
        ensures
            (r.0 as nat, r.1) == position_in(
                self@.text,
                self@.cursor,
                rows_of(self@.text, width as nat),
            ),
    {
        let rows: Vec<ComposerVisualRow> = self.visual_rows(width);
        self.cursor_visual_position_in_rows(&rows)
    }

    /// The byte offset on row `row` nearest to column `target_col` without
    /// passing it; the end of the text where there is no such row.
    pub fn byte_offset_for_visual_position_in_rows(
        &self,
        rows: &Vec<ComposerVisualRow>,
        row: usize,
        target_col: usize,
    ) -> (r: usize)
        requires
            rows_valid(self@.text, rows@),
        ensures
            r == offset_at(
                self@.text,
                index_for(
                    self@.text,
                    rows_view(self@.text, rows@),
                    row as nat,
                    target_col as nat,
                ),
            ),
            index_for(self@.text, rows_view(self@.text, rows@), row as nat, target_col as nat)
                <= self@.text.len(),
    {
        let chars: Vec<char> = chars_of(self.text.as_str());
        let size: usize = str_len(self.text.as_str());
        let ghost views = rows_view(self@.text, rows@);
        if row >= rows.len() {
            proof {
                lemma_offset_index(chars@, chars@.len());
            }
            return size;
        }
        let r: ComposerVisualRow = rows[row];
        assert(rows@[row as int].start <= rows@[row as int].end);
        assert(views[row as int] == row_view(self@.text, r));
        let first: usize = index_of(&chars, r.start);
        let last: usize = index_of(&chars, r.end);
        proof {
            lemma_index_order(self@.text, r.start as nat, r.end as nat);
        }
        let mut i: usize = first;
        let mut room: usize = target_col;
        while i < last && char_width(chars[i]) <= room
            invariant
                first <= i <= last <= chars@.len(),
                walk(chars@, first as nat, last as nat, target_col as nat) == walk(
                    chars@,
                    i as nat,
                    last as nat,
                    room as nat,
                ),
            decreases last - i,
        {
            room = room - char_width(chars[i]);
            i += 1;
        }
        offset_of(&chars, i)
    }

    pub fn byte_offset_for_visual_position(&self, row: usize, target_col: usize, width: usize) -> (r:
        usize)
        ensures
            r == offset_at(
                self@.text,
                index_for(
                    self@.text,
                    rows_of(self@.text, width as nat),
                    row as nat,
                    target_col as nat,
                ),
            ),
            index_for(self@.text, rows_of(self@.text, width as nat), row as nat, target_col as nat)
                <= self@.text.len(),
    {
        let rows: Vec<ComposerVisualRow> = self.visual_rows(width);
        self.byte_offset_for_visual_position_in_rows(&rows, row, target_col)
    }

    /// Moves the cursor one row up, keeping the column it aims at.
    pub fn move_visual_up(&mut self, width: usize)
        requires
            old(self).wf(),
        ensures
            final(self).wf(),
            final(self)@ == old(self)@.moved_up(width as nat),
    {
        let (row, col) = self.cursor_visual_position(width);
        let goal: usize = match self.visual_goal_col {
            Some(goal) => goal,
            None => col,
        };
        if row > 0 {
            self.cursor = self.byte_offset_for_visual_position(row - 1, goal, width);
            proof {
                let rows = rows_of(self.text@, width as nat);
                lemma_offset_index(
                    self.text@,
                    index_for(self.text@, rows, (row - 1) as nat, goal as nat),
                );
            }
        }
        self.visual_goal_col = Some(goal);
    }

    /// Moves the cursor one row down, keeping the column it aims at.
    pub fn move_visual_down(&mut self, width: usize)
        requires
            old(self).wf(),
        ensures
            final(self).wf(),
            final(self)@ == old(self)@.moved_down(width as nat),
    {
        let rows: Vec<ComposerVisualRow> = self.visual_rows(width);
        let (row, col) = self.cursor_visual_position_in_rows(&rows);
        let goal: usize = match self.visual_goal_col {
            Some(goal) => goal,
            None => col,
        };
        proof {
            lemma_position_row(self@.text, self@.cursor, rows_view(self@.text, rows@), 0);
        }
        let total: usize = rows.len();
        if row + 1 < total {
            self.cursor = self.byte_offset_for_visual_position_in_rows(&rows, row + 1, goal);
            proof {
                lemma_offset_index(
                    self.text@,
                    index_for(
                        self.text@,
                        rows_of(self.text@, width as nat),
                        (row + 1) as nat,
                        goal as nat,
                    ),
                );
            }
        }
        self.visual_goal_col = Some(goal);
    }
}

// ---------------------------------------------------------------------------
// Laws
// ---------------------------------------------------------------------------

/// Backspace takes back what was typed.
pub proof fn backspace_undoes_insert(c: ComposerView, ch: char)
    requires
        c.cursor <= c.text.len(),
    ensures
        c.with_inserted(seq![ch]).backspaced() == (ComposerView { goal: None, ..c }),
{
    assert(c.with_inserted(seq![ch]).text.remove(c.cursor as int) =~= c.text);
}

/// Deleting in front of the character just typed takes it back as well.
pub proof fn delete_undoes_insert(c: ComposerView, ch: char)
    requires
        c.cursor <= c.text.len(),
    ensures
        c.with_inserted(seq![ch]).moved_left().deleted() == (ComposerView { goal: None, ..c }),
{
    assert(c.with_inserted(seq![ch]).text.remove(c.cursor as int) =~= c.text);
}

/// A step to the left takes back a step to the right.
pub proof fn left_undoes_right(c: ComposerView)
    requires
        c.cursor < c.text.len(),
    ensures
        c.moved_right().moved_left() == (ComposerView { goal: None, ..c }),
{
}

proof fn lemma_scan_cover(text: Seq<char>, n: nat, width: nat)
    requires
        n <= text.len(),
    ensures
        ({
            let s = scan_rows(text, n, width);
            &&& s.rows.len() == 0 ==> s.start == 0
            &&& s.rows.len() > 0 ==> s.rows[0].first == 0
            &&& s.rows.len() > 0 ==> s.start == s.rows.last().last || (s.start
                == s.rows.last().last + 1 && text[s.rows.last().last as int] == '\n')
            &&& forall|i: int|
                0 <= i < s.rows.len() ==> (#[trigger] s.rows[i]).first <= s.rows[i].last < n
            &&& forall|i: int, j: int|
                0 <= i && j == i + 1 && j < s.rows.len() ==> (#[trigger] s.rows[j]).first == (
                #[trigger] s.rows[i]).last || (s.rows[j].first == s.rows[i].last + 1
                    && text[s.rows[i].last as int] == '\n')
        }),
    decreases n,
{
    if n > 0 {
        lemma_scan_cover(text, (n - 1) as nat, width);
        lemma_scan_rows(text, (n - 1) as nat, width);
    }
}

/// The rows cover the text: the first starts at its start, the last ends at
/// its end, and each begins where the one before it ends or, behind a line
/// feed, one character further.
pub proof fn rows_cover_text(text: Seq<char>, width: nat)
    ensures
        ({
            let rows = rows_of(text, width);
            &&& rows.len() > 0
            &&& rows[0].first == 0
            &&& rows.last().last == text.len()
            &&& forall|i: int|
                0 <= i < rows.len() ==> (#[trigger] rows[i]).first <= rows[i].last <= text.len()
            &&& forall|i: int, j: int|
                0 <= i && j == i + 1 && j < rows.len() ==> (#[trigger] rows[j]).first == (
                #[trigger] rows[i]).last || (rows[j].first == rows[i].last + 1
                    && text[rows[i].last as int] == '\n')
        }),
{
    let w = if width == 0 {
        1
    } else {
        width
    };
    lemma_scan_cover(text, text.len(), w);
    lemma_scan_rows(text, text.len(), w);
}

/// Vertical moves leave the text alone, keep the cursor inside it, and keep
/// aiming at one column however often they are repeated.
pub proof fn vertical_moves_keep_goal(c: ComposerView, width: nat)
    requires
        c.cursor <= c.text.len(),
    ensures
        c.moved_up(width).text == c.text,
        c.moved_down(width).text == c.text,
        c.moved_up(width).cursor <= c.text.len(),
        c.moved_down(width).cursor <= c.text.len(),
        c.moved_up(width).goal_column(width) == c.goal_column(width),
        c.moved_down(width).goal_column(width) == c.goal_column(width),
{
    rows_cover_text(c.text, width);
    let rows = rows_of(c.text, width);
    let row = position_in(c.text, c.cursor, rows).0;
    let goal = c.goal_column(width) as nat;
    if 0 < row <= rows.len() {
        let r = rows[row - 1];
        lemma_walk(c.text, r.first, r.last, goal);
    }
    if row + 1 < rows.len() {
        let r = rows[(row + 1) as int];
        lemma_walk(c.text, r.first, r.last, goal);
    }
}

/// What is inserted stands in front of where the cursor was; the text on
/// either side stays, and the cursor goes behind what was inserted.
pub proof fn inserted_text_stands_at_the_cursor(c: ComposerView, ins: Seq<char>)
    requires
        c.cursor <= c.text.len(),
    ensures
        ({
            let after = c.with_inserted(ins);
            &&& after.text.len() == c.text.len() + ins.len()
            &&& after.cursor == c.cursor + ins.len()
            &&& forall|i: int| 0 <= i < c.cursor ==> #[trigger] after.text[i] == c.text[i]
            &&& forall|i: int|
                0 <= i < ins.len() ==> #[trigger] after.text[c.cursor + i] == ins[i]
            &&& forall|i: int|
                c.cursor <= i < c.text.len() ==> #[trigger] after.text[i + ins.len()] == c.text[i]
        }),
{
}

/// Backspace takes the character in front of the cursor, Delete the one behind
/// it; where there is none they do nothing.
pub proof fn one_character_is_taken(c: ComposerView)
    requires
        c.cursor <= c.text.len(),
    ensures
        ({
            let back = c.backspaced();
            let del = c.deleted();
            &&& c.cursor == 0 ==> back == c
            &&& c.cursor > 0 ==> {
                &&& back.cursor == c.cursor - 1
                &&& back.text.len() == c.text.len() - 1
                &&& forall|i: int| 0 <= i < c.cursor - 1 ==> #[trigger] back.text[i] == c.text[i]
                &&& forall|i: int|
                    c.cursor - 1 <= i < back.text.len() ==> #[trigger] back.text[i] == c.text[i + 1]
            }
            &&& c.cursor == c.text.len() ==> del == c
            &&& c.cursor < c.text.len() ==> {
                &&& del.cursor == c.cursor
                &&& del.text.len() == c.text.len() - 1
                &&& forall|i: int| 0 <= i < c.cursor ==> #[trigger] del.text[i] == c.text[i]
                &&& forall|i: int|
                    c.cursor <= i < del.text.len() ==> #[trigger] del.text[i] == c.text[i + 1]
            }
        }),
{
}

/// Steps go by one character and stop at the ends of the text.
pub proof fn steps_go_by_one(c: ComposerView)
    requires
        c.cursor <= c.text.len(),
    ensures
        c.moved_left().text == c.text,
        c.moved_right().text == c.text,
        c.cursor > 0 ==> c.moved_left().cursor == c.cursor - 1,
        c.cursor == 0 ==> c.moved_left().cursor == 0,
        c.cursor < c.text.len() ==> c.moved_right().cursor == c.cursor + 1,
        c.cursor == c.text.len() ==> c.moved_right().cursor == c.cursor,
{
}

/// A line starts behind the line feed in front of it and ends in front of the
/// one behind it.
pub proof fn lines_lie_between_line_feeds(text: Seq<char>, n: nat)
    requires
        n <= text.len(),
    ensures
        ({
            let a = line_start(text, n);
            let b = line_end(text, n);
            &&& a <= n <= b <= text.len()
            &&& forall|i: int| a <= i < b ==> #[trigger] text[i] != '\n'
            &&& a == 0 || text[a - 1] == '\n'
            &&& b == text.len() || text[b as int] == '\n'
        }),
{
    lemma_line_start(text, n);
    lemma_line_end(text, n);
}

proof fn lemma_line_start(text: Seq<char>, n: nat)
    requires
        n <= text.len(),
    ensures
        line_start(text, n) <= n,
        forall|i: int| line_start(text, n) <= i < n ==> #[trigger] text[i] != '\n',
        line_start(text, n) == 0 || text[line_start(text, n) - 1] == '\n',
    decreases n,
{
    if n == 0 || text[n - 1] == '\n' {
    } else {
        lemma_line_start(text, (n - 1) as nat);
    }
}

proof fn lemma_line_end(text: Seq<char>, n: nat)
    requires
        n <= text.len(),
    ensures
        n <= line_end(text, n) <= text.len(),
        forall|i: int| n <= i < line_end(text, n) ==> #[trigger] text[i] != '\n',
        line_end(text, n) == text.len() || text[line_end(text, n) as int] == '\n',
    decreases text.len() - n,
{
    if n >= text.len() || text[n as int] == '\n' {
    } else {
        lemma_line_end(text, n + 1);
    }
}

/// What is known of a row of wrapped text: it holds no line feed, tells its
/// own width, and only a character that is too wide by itself passes the edge.
pub open spec fn row_sound(text: Seq<char>, row: RowView, width: nat) -> bool {
    &&& row.first <= row.last <= text.len()
    &&& row.width == editor_width(row_chars(text, row))
    &&& forall|i: int| row.first <= i < row.last ==> #[trigger] text[i] != '\n'
    &&& row.width <= width || editor_width(row_chars(text, row).drop_last()) == 0
}

proof fn lemma_scan_sound(text: Seq<char>, n: nat, width: nat)
    requires
        n <= text.len(),
    ensures
        ({
            let s = scan_rows(text, n, width);
            &&& forall|i: int| 0 <= i < s.rows.len() ==> row_sound(text, #[trigger] s.rows[i], width)
            &&& row_sound(text, RowView { first: s.start, last: n, width: s.width }, width)
            &&& forall|i: int|
                0 <= i < s.rows.len() ==> text[(#[trigger] s.rows[i]).last as int] == '\n'
                    || s.rows[i].width + editor_columns(text[s.rows[i].last as int]) > width
        }),
    decreases n,
{
    if n > 0 {
        lemma_scan_sound(text, (n - 1) as nat, width);
        let before = scan_rows(text, (n - 1) as nat, width);
        let s = scan_rows(text, n, width);
        let ch = text[n - 1];
        let open = RowView { first: before.start, last: (n - 1) as nat, width: before.width };
        let row = RowView { first: s.start, last: n, width: s.width };
        if ch == '\n' {
            assert(row_chars(text, row) =~= Seq::<char>::empty());
        } else if before.width > 0 && before.width + editor_columns(ch) > width {
            assert(row_chars(text, row).drop_last() =~= Seq::<char>::empty());
            assert(row_chars(text, row).last() == ch);
            assert(editor_width(Seq::<char>::empty()) == 0);
        } else {
            assert(row_chars(text, row).drop_last() =~= row_chars(text, open));
            assert(row_chars(text, row).last() == ch);
        }
    } else {
        assert(text.subrange(0, 0) =~= Seq::<char>::empty());
    }
}

/// Rows hold no line feed and fit the width, as far as single characters do;
/// a line is broken only where its next character fits no more.
pub proof fn composer_rows_fit(text: Seq<char>, width: nat)
    requires
        width > 0,
    ensures
        ({
            let rows = rows_of(text, width);
            &&& forall|i: int| 0 <= i < rows.len() ==> row_sound(text, #[trigger] rows[i], width)
            &&& forall|i: int|
                0 <= i < rows.len() - 1 && (#[trigger] rows[i]).last < text.len()
                    ==> text[rows[i].last as int] == '\n' || rows[i].width + editor_columns(
                    text[rows[i].last as int],
                ) > width
        }),
{
    lemma_scan_sound(text, text.len(), width);
    let tail = RowView { first: text.len(), last: text.len(), width: 0 };
    assert(row_chars(text, tail) =~= Seq::<char>::empty());
}

/// The cursor is shown on a row that holds its place, behind the columns of
/// what stands in front of it there.
pub proof fn cursor_is_on_its_row(text: Seq<char>, cursor: nat, width: nat)
    requires
        cursor <= text.len(),
    ensures
        ({
            let rows = rows_of(text, width);
            let (row, column) = position_in(text, cursor, rows);
            &&& row < rows.len()
            &&& rows[row as int].first <= cursor <= rows[row as int].last
            &&& cursor == rows[row as int].last ==> cursor == text.len() || text[cursor as int]
                == '\n' || rows[row as int].first == cursor
            &&& column == capped(
                editor_width(text.subrange(rows[row as int].first as int, cursor as int)),
            )
        }),
{
    rows_cover_text(text, width);
    let k = lemma_some_row(text, cursor, rows_of(text, width), 0);
    lemma_position_found(text, cursor, rows_of(text, width), 0, k);
}

proof fn lemma_some_row(text: Seq<char>, cursor: nat, rows: Seq<RowView>, i: nat) -> (k: nat)
    requires
        i < rows.len(),
        rows[i as int].first <= cursor <= text.len(),
        rows.last().last == text.len(),
        forall|a: int, b: int|
            0 <= a && b == a + 1 && b < rows.len() ==> (#[trigger] rows[b]).first == (
            #[trigger] rows[a]).last || (rows[b].first == rows[a].last + 1
                && text[rows[a].last as int] == '\n'),
    ensures
        i <= k < rows.len(),
        cursor_on_row(text, cursor, rows, k as int),
    decreases rows.len() - i,
{
    if i + 1 < rows.len() && rows[(i + 1) as int].first <= cursor {
        lemma_some_row(text, cursor, rows, i + 1)
    } else {
        if i + 1 < rows.len() {
            assert(rows[i as int].last <= rows[(i + 1) as int].first);
        }
        i
    }
}

proof fn lemma_position_found(text: Seq<char>, cursor: nat, rows: Seq<RowView>, i: nat, k: nat)
    requires
        i <= k < rows.len(),
        cursor_on_row(text, cursor, rows, k as int),
    ensures
        ({
            let (row, column) = position_from(text, cursor, rows, i);
            &&& i <= row <= k
            &&& cursor_on_row(text, cursor, rows, row as int)
            &&& column == capped(
                editor_width(text.subrange(rows[row as int].first as int, cursor as int)),
            )
        }),
    decreases rows.len() - i,
{
    if !cursor_on_row(text, cursor, rows, i as int) {
        lemma_position_found(text, cursor, rows, i + 1, k);
    }
}

/// A vertical move ends on the row above or below, as near to the column that
/// it aims at as that row allows; on the first and the last row the cursor
/// stays.
pub proof fn vertical_moves_change_the_row(c: ComposerView, width: nat)
    requires
        c.cursor <= c.text.len(),
    ensures
        ({
            let rows = rows_of(c.text, width);
            let row = position_in(c.text, c.cursor, rows).0;
            let goal = c.goal_column(width) as nat;
            &&& row == 0 ==> c.moved_up(width).cursor == c.cursor
            &&& 0 < row < rows.len() ==> nearest(
                c.text,
                rows[row - 1],
                goal,
                c.moved_up(width).cursor,
            )
            &&& row + 1 >= rows.len() ==> c.moved_down(width).cursor == c.cursor
            &&& row + 1 < rows.len() ==> nearest(
                c.text,
                rows[(row + 1) as int],
                goal,
                c.moved_down(width).cursor,
            )
        }),
{
    rows_cover_text(c.text, width);
    let rows = rows_of(c.text, width);
    let row = position_in(c.text, c.cursor, rows).0;
    let goal = c.goal_column(width) as nat;
    if 0 < row < rows.len() {
        lemma_walk_nearest(c.text, rows[row - 1], rows[row - 1].first, goal, goal);
    }
    if row + 1 < rows.len() {
        lemma_walk_nearest(c.text, rows[(row + 1) as int], rows[(row + 1) as int].first, goal, goal);
    }
}

/// Whether `at` is the place of a row that is nearest to a column from the
/// left.
pub open spec fn nearest(text: Seq<char>, row: RowView, col: nat, at: nat) -> bool {
    &&& row.first <= at <= row.last
    &&& editor_width(text.subrange(row.first as int, at as int)) <= col
    &&& at < row.last ==> editor_width(text.subrange(row.first as int, at as int))
        + editor_columns(text[at as int]) > col
}

proof fn lemma_walk_nearest(text: Seq<char>, row: RowView, i: nat, room: nat, col: nat)
    requires
        row.first <= i <= row.last <= text.len(),
        editor_width(text.subrange(row.first as int, i as int)) + room == col,
    ensures
        nearest(text, row, col, walk(text, i, row.last, room)),
    decreases row.last - i,
{
    if i < row.last && editor_columns(text[i as int]) <= room {
        let more = text.subrange(row.first as int, (i + 1) as int);
        assert(more.drop_last() =~= text.subrange(row.first as int, i as int));
        assert(more.last() == text[i as int]);
        lemma_walk_nearest(
            text,
            row,
            i + 1,
            (room - editor_columns(text[i as int])) as nat,
            col,
        );
    }
}

/// A tab takes four columns of the editor; any other character takes what it
/// takes on screen.
pub proof fn tabs_take_four_columns(text: Seq<char>, ch: char)
    ensures
        editor_columns('\t') == 4,
        ch != '\t' ==> editor_columns(ch) == columns(ch),
        editor_width(text.push(ch)) == editor_width(text) + editor_columns(ch),
        editor_width(Seq::empty()) == 0,
{
    assert(text.push(ch).drop_last() =~= text);
}

} // verus!
