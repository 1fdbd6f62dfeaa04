//! Wrapping of styled lines to a number of columns, by character or by word,
//! with a hanging indent on continuation rows.
use vstd::prelude::*;
use crate::style::{
    append_lines, line_views, no_lines, plain, push_line, span_views, Line, LineView, Span,
    SpanView, Style,
};
use crate::text::{chars_of, owned, repeated};
use crate::width::{char_columns, columns, unicode_str_width, unicode_text_width};

verus! {

// ---------------------------------------------------------------------------
// Cells
// ---------------------------------------------------------------------------

/// One character in its style.
#[derive(Clone, Copy, Debug, PartialEq, Eq, Structural)]
pub struct Cell {
    pub ch: char,
    pub style: Style,
}

impl Cell {
    pub fn new(ch: char, style: Style) -> (c: Cell)
        ensures
            c == cell_of(ch, style),
    {
        Cell { ch, style }
    }
}

pub open spec fn cell_of(ch: char, style: Style) -> Cell {
    Cell { ch, style }
}

/// The characters of `text`, all in one style.
pub open spec fn text_cells(text: Seq<char>, style: Style) -> Seq<Cell> {
    text.map_values(|ch: char| cell_of(ch, style))
}

proof fn lemma_text_cells_push(text: Seq<char>, ch: char, style: Style)
    ensures
        text_cells(text.push(ch), style) == text_cells(text, style).push(Cell { ch, style }),
{
    let a = text_cells(text.push(ch), style);
    let b = text_cells(text, style).push(Cell { ch, style });
    assert forall|i: int| 0 <= i < a.len() implies a[i] == b[i] by {
        if i < text.len() {
            assert(text.push(ch)[i] == text[i]);
        }
    }
    assert(a =~= b);
}

/// The characters of `spans` in order, each with the style of its span.
pub open spec fn cells_of(spans: Seq<SpanView>) -> Seq<Cell>
    decreases spans.len(),
{
    if spans.len() == 0 {
        Seq::empty()
    } else {
        cells_of(spans.drop_last()) + text_cells(spans.last().content, spans.last().style)
    }
}

/// `spans` with one more cell: it joins the last span if the styles agree.
pub open spec fn joined(spans: Seq<SpanView>, cell: Cell) -> Seq<SpanView> {
    if spans.len() > 0 && spans.last().style == cell.style {
        spans.drop_last().push(
            SpanView { content: spans.last().content.push(cell.ch), style: cell.style },
        )
    } else {
        spans.push(SpanView { content: seq![cell.ch], style: cell.style })
    }
}

/// The shortest list of spans that shows `cells`.
pub open spec fn spans_of(cells: Seq<Cell>) -> Seq<SpanView>
    decreases cells.len(),
{
    if cells.len() == 0 {
        Seq::empty()
    } else {
        joined(spans_of(cells.drop_last()), cells.last())
    }
}

/// Columns that `cells` take, character by character.
pub open spec fn cells_width(cells: Seq<Cell>) -> nat
    decreases cells.len(),
{
    if cells.len() == 0 {
        0
    } else {
        cells_width(cells.drop_last()) + columns(cells.last().ch)
    }
}

/// Number of usable content columns of a row: the first row gets the full
/// `width`; continuation rows reserve `indent` columns for the hanging prefix.
pub open spec fn budget(completed_rows: nat, width: nat, indent: nat) -> nat {
    if completed_rows == 0 {
        width
    } else if width > indent + 1 {
        (width - indent) as nat
    } else {
        1
    }
}

pub fn row_budget(completed_rows: usize, width: usize, indent: usize) -> (r: usize)
    ensures
        r == budget(completed_rows as nat, width as nat, indent as nat),
{
    if completed_rows == 0 {
        width
    } else {
        let rest: usize = width.saturating_sub(indent);
        if rest > 1 {
            rest
        } else {
            1
        }
    }
}

// ---------------------------------------------------------------------------
// The rows of a wrapped line
// ---------------------------------------------------------------------------

/// Rows laid out so far, and the row being filled with the columns it uses.
#[verifier::ext_equal]
pub struct Rows {
    pub done: Seq<Seq<Cell>>,
    pub current: Seq<Cell>,
    pub used: nat,
}

pub open spec fn no_rows() -> Rows {
    Rows { done: Seq::empty(), current: Seq::empty(), used: 0 }
}

impl Rows {
    /// Ends the current row.
    pub open spec fn broken(self) -> Rows {
        Rows { done: self.done.push(self.current), current: Seq::empty(), used: 0 }
    }

    pub open spec fn extended(self, cell: Cell) -> Rows {
        Rows {
            current: self.current.push(cell),
            used: self.used + columns(cell.ch),
            ..self
        }
    }

    pub open spec fn room(self, width: nat, indent: nat) -> nat {
        budget(self.done.len(), width, indent)
    }

    /// Places a cell, on a new row if it does not fit behind what is there.
    pub open spec fn filled(self, cell: Cell, width: nat, indent: nat) -> Rows {
        if self.used > 0 && self.used + columns(cell.ch) > self.room(width, indent) {
            self.broken().extended(cell)
        } else {
            self.extended(cell)
        }
    }

    pub open spec fn filled_all(self, cells: Seq<Cell>, width: nat, indent: nat) -> Rows
        decreases cells.len(),
    {
        if cells.len() == 0 {
            self
        } else {
            self.filled_all(cells.drop_last(), width, indent).filled(cells.last(), width, indent)
        }
    }

    /// Places a blank: one that does not fit ends the row and vanishes, and so
    /// does one at the start of a continuation row.
    pub open spec fn spaced(self, cell: Cell, width: nat, indent: nat) -> Rows {
        if self.used + columns(cell.ch) > self.room(width, indent) {
            self.broken()
        } else if self.used == 0 && self.done.len() > 0 {
            self
        } else {
            self.extended(cell)
        }
    }

    /// Ends the row before a word that fits the next row but not this one.
    pub open spec fn before_word(self, word: Seq<Cell>, width: nat, indent: nat) -> Rows {
        if self.used > 0 && self.used + cells_width(word) > self.room(width, indent)
            && cells_width(word) <= budget(self.done.len() + 1, width, indent) {
            self.broken()
        } else {
            self
        }
    }

    /// Places a word whole where it fits, else broken at the columns.
    pub open spec fn worded(self, word: Seq<Cell>, width: nat, indent: nat) -> Rows {
        if word.len() == 0 {
            self
        } else {
            self.before_word(word, width, indent).filled_all(word, width, indent)
        }
    }

    /// The rows once nothing more comes.
    pub open spec fn finished(self) -> Seq<Seq<Cell>> {
        if self.current.len() > 0 || self.done.len() == 0 {
            self.done.push(self.current)
        } else {
            self.done
        }
    }
}

pub open spec fn is_blank(cell: Cell) -> bool {
    cell.ch == ' '
}

/// The rows after `cells`, and the word that has begun and is not placed yet.
pub open spec fn word_rows_from(cells: Seq<Cell>, width: nat, indent: nat) -> (Rows, Seq<Cell>)
    decreases cells.len(),
{
    if cells.len() == 0 {
        (no_rows(), Seq::empty())
    } else {
        let (rows, word) = word_rows_from(cells.drop_last(), width, indent);
        if is_blank(cells.last()) {
            (
                rows.worded(word, width, indent).spaced(cells.last(), width, indent),
                Seq::empty(),
            )
        } else {
            (rows, word.push(cells.last()))
        }
    }
}

/// Rows of `cells` broken at the exact column.
pub open spec fn char_rows(cells: Seq<Cell>, width: nat, indent: nat) -> Seq<Seq<Cell>> {
    no_rows().filled_all(cells, width, indent).finished()
}

/// Rows of `cells` broken between words.
pub open spec fn word_rows(cells: Seq<Cell>, width: nat, indent: nat) -> Seq<Seq<Cell>> {
    let (rows, word) = word_rows_from(cells, width, indent);
    rows.worded(word, width, indent).finished()
}

pub open spec fn at_least_one(n: nat) -> nat {
    if n == 0 {
        1
    } else {
        n
    }
}

/// The indent kept below the width, so that every row has a column left.
pub open spec fn usable_indent(indent: nat, width: nat) -> nat {
    if indent < width {
        indent
    } else {
        (width - 1) as nat
    }
}

/// The blanks in front of a continuation row.
pub open spec fn hanging_cells(row: nat, indent: nat) -> Seq<Cell> {
    if row > 0 {
        text_cells(repeated(' ', indent), plain())
    } else {
        Seq::empty()
    }
}

pub open spec fn hanging_line(cells: Seq<Cell>, row: nat, indent: nat, style: Style) -> LineView {
    LineView { spans: spans_of(hanging_cells(row, indent) + cells), style }
}

pub open spec fn hanging_lines(rows: Seq<Seq<Cell>>, indent: nat, style: Style) -> Seq<LineView> {
    Seq::new(rows.len(), |i: int| hanging_line(rows[i], i as nat, indent, style))
}

/// `line` wrapped at the exact column, continuation rows indented.
pub open spec fn char_wrapped(line: LineView, width: nat, indent: nat) -> Seq<LineView> {
    let w = at_least_one(width);
    let n = usable_indent(indent, w);
    hanging_lines(char_rows(cells_of(line.spans), w, n), n, line.style)
}

/// `line` wrapped between words, continuation rows indented.
pub open spec fn word_wrapped(line: LineView, width: nat, indent: nat) -> Seq<LineView> {
    let w = at_least_one(width);
    let n = usable_indent(indent, w);
    hanging_lines(word_rows(cells_of(line.spans), w, n), n, line.style)
}

/// All of `lines`, each wrapped between words.
pub open spec fn all_wrapped(lines: Seq<LineView>, width: nat) -> Seq<LineView>
    decreases lines.len(),
{
    if lines.len() == 0 {
        Seq::empty()
    } else {
        all_wrapped(lines.drop_last(), width) + word_wrapped(lines.last(), width, 0)
    }
}

// ---------------------------------------------------------------------------
// Wrapping
// ---------------------------------------------------------------------------

pub open spec fn row_views(rows: Seq<Vec<Cell>>) -> Seq<Seq<Cell>> {
    rows.map_values(|r: Vec<Cell>| r@)
}

/// The rows under construction.
struct WrapState {
    rows: Vec<Vec<Cell>>,
    current: Vec<Cell>,
    current_width: usize,
    width: usize,
    indent: usize,
}

impl WrapState {
    spec fn view(&self) -> Rows {
        Rows {
            done: row_views(self.rows@),
            current: self.current@,
            used: self.current_width as nat,
        }
    }

    spec fn same_room(&self, other: &WrapState) -> bool {
        self.width == other.width && self.indent == other.indent
    }

    fn new(width: usize, indent: usize) -> (s: WrapState)
        ensures
            s@ == no_rows(),
            s.width == width,
            s.indent == indent,
    {
        let s: WrapState = WrapState {
            rows: Vec::new(),
            current: Vec::new(),
            current_width: 0,
            width,
            indent,
        };
        assert(s@ =~= no_rows());
        s
    }

    fn end_row(&mut self)
        ensures
            final(self)@ == old(self)@.broken(),
            final(self).same_room(old(self)),
    {
        let mut row: Vec<Cell> = Vec::new();
        core::mem::swap(&mut row, &mut self.current);
        self.rows.push(row);
        self.current_width = 0;
        assert(self@ =~= old(self)@.broken());
    }

    fn fill(&mut self, cell: Cell)
        ensures
            final(self)@ == old(self)@.filled(
                cell,
                old(self).width as nat,
                old(self).indent as nat,
            ),
            final(self).same_room(old(self)),
    {
        let columns: usize = char_columns(cell.ch);
        let room: usize = row_budget(self.rows.len(), self.width, self.indent);
        if self.current_width > 0 && (columns > room || self.current_width > room - columns) {
            self.end_row();
        }
        self.current.push(cell);
        self.current_width = self.current_width + columns;
    }
}

impl WrapState {
    fn space(&mut self, cell: Cell)
        ensures
            final(self)@ == old(self)@.spaced(
                cell,
                old(self).width as nat,
                old(self).indent as nat,
            ),
            final(self).same_room(old(self)),
    {
        let columns: usize = char_columns(cell.ch);
        let room: usize = row_budget(self.rows.len(), self.width, self.indent);
        if columns > room || self.current_width > room - columns {
            self.end_row();
        } else if self.current_width == 0 && self.rows.len() > 0 {
        } else {
            self.current.push(cell);
            self.current_width = self.current_width + columns;
        }
    }

    fn fill_all(&mut self, cells: &Vec<Cell>)
        ensures
            final(self)@ == old(self)@.filled_all(
                cells@,
                old(self).width as nat,
                old(self).indent as nat,
            ),
            final(self).same_room(old(self)),
    {
        let mut i: usize = 0;
        while i < cells.len()
            invariant
                i <= cells@.len(),
                self.same_room(old(self)),
                self@ == old(self)@.filled_all(
                    cells@.take(i as int),
                    old(self).width as nat,
                    old(self).indent as nat,
                ),
            decreases cells@.len() - i,
        {
            self.fill(cells[i]);
            assert(cells@.take(i + 1).drop_last() =~= cells@.take(i as int));
            i += 1;
        }
        assert(cells@.take(i as int) =~= cells@);
    }

    /// Places a word, accounting for the indent of continuation rows. A word
    /// moves to a fresh row only where it fits there; one that is too wide for
    /// the next row starts in the room that the current row has left.
    fn place_word(&mut self, word: &Vec<Cell>)
        ensures
            final(self)@ == old(self)@.worded(
                word@,
                old(self).width as nat,
                old(self).indent as nat,
            ),
            final(self).same_room(old(self)),
    {
        if word.len() == 0 {
            return;
        }
        let columns: u128 = cell_columns(word);
        let room: usize = row_budget(self.rows.len(), self.width, self.indent);
        let next: usize = row_budget(1, self.width, self.indent);
        if self.current_width > 0 && self.current_width as u128 + columns > room as u128 && columns
            <= next as u128 {
            self.end_row();
        }
        self.fill_all(word);
    }

    fn finish(self, style: Style) -> (r: Vec<Line>)
        ensures
            line_views(r@) == hanging_lines(self@.finished(), self.indent as nat, style),
    {
        let indent: usize = self.indent;
        let mut rows: Vec<Vec<Cell>> = self.rows;
        if self.current.len() > 0 || rows.len() == 0 {
            let ghost before = row_views(rows@);
            rows.push(self.current);
            assert(row_views(rows@) =~= before.push(self.current@));
        }
        build_hanging_lines(&rows, style, indent)
    }
}

/// Columns of `cells`, character by character.
fn cell_columns(cells: &Vec<Cell>) -> (n: u128)
    ensures
        n == cells_width(cells@),
        n <= 3 * cells@.len(),
{
    let mut n: u128 = 0;
    let mut i: usize = 0;
    while i < cells.len()
        invariant
            i <= cells@.len(),
            n == cells_width(cells@.take(i as int)),
            n <= 3 * i,
        decreases cells@.len() - i,
    {
        assert(cells@.take(i + 1).drop_last() =~= cells@.take(i as int));
        n = n + char_columns(cells[i].ch) as u128;
        i += 1;
    }
    assert(cells@.take(i as int) =~= cells@);
    n
}

/// Appends the characters of `text`, all in one style.
fn push_text_cells(out: &mut Vec<Cell>, text: &str, style: Style)
    ensures
        final(out)@ == old(out)@ + text_cells(text@, style),
{
    let chars: Vec<char> = chars_of(text);
    let mut k: usize = 0;
    assert(out@ + text_cells(chars@.take(0), style) =~= out@);
    while k < chars.len()
        invariant
            chars@ == text@,
            k <= chars@.len(),
            out@ == old(out)@ + text_cells(chars@.take(k as int), style),
        decreases chars@.len() - k,
    {
        let cell: Cell = Cell::new(chars[k], style);
        out.push(cell);
        proof {
            let placed = text_cells(chars@.take(k as int), style);
            assert(chars@.take(k + 1) =~= chars@.take(k as int).push(chars@[k as int]));
            lemma_text_cells_push(chars@.take(k as int), chars@[k as int], style);
            assert((old(out)@ + placed).push(cell) =~= old(out)@ + placed.push(cell));
        }
        k += 1;
    }
    assert(chars@.take(k as int) =~= chars@);
}

/// The characters of a line, each with the style of its span.
pub fn line_cells(line: &Line) -> (r: Vec<Cell>)
    ensures
        r@ == cells_of(line@.spans),
{
    let mut out: Vec<Cell> = Vec::new();
    let mut i: usize = 0;
    while i < line.spans.len()
        invariant
            i <= line.spans@.len(),
            out@ == cells_of(line@.spans.take(i as int)),
        decreases line.spans@.len() - i,
    {
        let span: &Span = &line.spans[i];
        push_text_cells(&mut out, span.content.as_str(), span.style);
        assert(line@.spans.take(i + 1).drop_last() =~= line@.spans.take(i as int));
        i += 1;
    }
    assert(line@.spans.take(i as int) =~= line@.spans);
    out
}

/// The spans that show `cells`, neighbours of one style joined.
pub fn spans_from_cells(cells: &Vec<Cell>) -> (r: Vec<Span>)
    ensures
        span_views(r@) == spans_of(cells@),
{
    let mut out: Vec<Span> = Vec::new();
    let mut i: usize = 0;
    assert(span_views(out@) =~= spans_of(cells@.take(0)));
    while i < cells.len()
        invariant
            i <= cells@.len(),
            span_views(out@) == spans_of(cells@.take(i as int)),
        decreases cells@.len() - i,
    {
        let cell: Cell = cells[i];
        let ghost before = span_views(out@);
        push_cell(&mut out, cell);
        assert(cells@.take(i + 1).drop_last() =~= cells@.take(i as int));
        i += 1;
    }
    assert(cells@.take(i as int) =~= cells@);
    out
}

/// Adds a cell to the last span if the styles agree, else as a new span.
fn push_cell(out: &mut Vec<Span>, cell: Cell)
    ensures
        span_views(final(out)@) == joined(span_views(old(out)@), cell),
{
    let n: usize = out.len();
    let ghost before = span_views(out@);
    if n > 0 {
        assert(before.last() == out@[n - 1]@);
    }
    if n > 0 && out[n - 1].style == cell.style {
        let last: &mut Span = &mut out[n - 1];
        last.content.push(cell.ch);
        assert(span_views(out@) =~= joined(before, cell));
    } else {
        let mut content: String = String::new();
        content.push(cell.ch);
        assert(content@ =~= seq![cell.ch]);
        out.push(Span { content, style: cell.style });
        assert(span_views(out@) =~= joined(before, cell));
    }
}

fn build_hanging_lines(rows: &Vec<Vec<Cell>>, style: Style, indent: usize) -> (r: Vec<Line>)
    ensures
        line_views(r@) == hanging_lines(row_views(rows@), indent as nat, style),
{
    let mut out: Vec<Line> = Vec::new();
    let mut i: usize = 0;
    let ghost views = row_views(rows@);
    while i < rows.len()
        invariant
            views == row_views(rows@),
            i <= rows@.len(),
            line_views(out@) =~= hanging_lines(views, indent as nat, style).take(i as int),
        decreases rows@.len() - i,
    {
        let mut cells: Vec<Cell> = Vec::new();
        if i > 0 {
            let mut k: usize = 0;
            while k < indent
                invariant
                    k <= indent,
                    cells@ =~= text_cells(repeated(' ', k as nat), plain()),
                decreases indent - k,
            {
                cells.push(Cell { ch: ' ', style: Style::new() });
                k += 1;
            }
        }
        assert(cells@ =~= hanging_cells(i as nat, indent as nat));
        let row: &Vec<Cell> = &rows[i];
        let mut k: usize = 0;
        assert(cells@ =~= hanging_cells(i as nat, indent as nat) + row@.take(0));
        while k < row.len()
            invariant
                k <= row@.len(),
                cells@ == hanging_cells(i as nat, indent as nat) + row@.take(k as int),
            decreases row@.len() - k,
        {
            cells.push(row[k]);
            assert(cells@ =~= hanging_cells(i as nat, indent as nat) + row@.take(k + 1));
            k += 1;
        }
        assert(row@.take(k as int) =~= views[i as int]);
        let line: Line = Line { spans: spans_from_cells(&cells), style };
        push_line(&mut out, line);
        i += 1;
    }
    out
}

/// Wraps `line` between words.
pub fn wrap_line(line: &Line, width: usize) -> (r: Vec<Line>)
    ensures
        line_views(r@) == word_wrapped(line@, width as nat, 0),
{
    wrap_line_hanging(line, width, 0)
}

/// Wraps every line of `lines` between words.
pub fn wrap_lines(lines: &Vec<Line>, width: usize) -> (r: Vec<Line>)
    ensures
        line_views(r@) == all_wrapped(line_views(lines@), width as nat),
{
    let mut out: Vec<Line> = Vec::new();
    let mut i: usize = 0;
    let ghost views = line_views(lines@);
    assert(line_views(out@) =~= no_lines());
    while i < lines.len()
        invariant
            views == line_views(lines@),
            i <= lines@.len(),
            line_views(out@) == all_wrapped(views.take(i as int), width as nat),
        decreases lines@.len() - i,
    {
        append_lines(&mut out, wrap_line(&lines[i], width));
        assert(views.take(i + 1).drop_last() =~= views.take(i as int));
        i += 1;
    }
    assert(views.take(i as int) =~= views);
    out
}

/// Character/column-faithful wrapping: breaks at the exact column rather than
/// at word boundaries, and never drops leading whitespace. Used for code blocks
/// and tool rows where column alignment and indentation must be preserved.
pub fn wrap_line_char(line: &Line, width: usize) -> (r: Vec<Line>)
    ensures
        line_views(r@) == char_wrapped(line@, width as nat, 0),
{
    wrap_line_char_hanging(line, width, 0)
}

/// Character/column-faithful wrapping with a hanging indent. Like
/// `wrap_line_char`, but continuation rows are prefixed with `indent` spaces so
/// wrapped content (e.g. a long tool-args preview or diff summary) aligns under
/// the first row's content instead of falling back to column 0.
pub fn wrap_line_char_hanging(line: &Line, width: usize, indent: usize) -> (r: Vec<Line>)
    ensures
        line_views(r@) == char_wrapped(line@, width as nat, indent as nat),
{
    let width: usize = if width > 1 {
        width
    } else {
        1
    };
    let indent: usize = if indent < width {
        indent
    } else {
        width - 1
    };
    let cells: Vec<Cell> = line_cells(line);
    let mut state: WrapState = WrapState::new(width, indent);
    state.fill_all(&cells);
    state.finish(line.style)
}

/// Word-aware wrapping with a hanging indent: like `wrap_line`, but continuation
/// rows are prefixed with `indent` spaces so wrapped prose (e.g. an option
/// description or an info/error message) aligns under the first row's content.
pub fn wrap_line_hanging(line: &Line, width: usize, indent: usize) -> (r: Vec<Line>)
    ensures
        line_views(r@) == word_wrapped(line@, width as nat, indent as nat),
{
    let width: usize = if width > 1 {
        width
    } else {
        1
    };
    let indent: usize = if indent < width {
        indent
    } else {
        width - 1
    };
    let cells: Vec<Cell> = line_cells(line);
    let mut state: WrapState = WrapState::new(width, indent);
    let mut word: Vec<Cell> = Vec::new();
    let mut i: usize = 0;
    while i < cells.len()
        invariant
            i <= cells@.len(),
            state.width == width,
            state.indent == indent,
            (state@, word@) == word_rows_from(cells@.take(i as int), width as nat, indent as nat),
        decreases cells@.len() - i,
    {
        let cell: Cell = cells[i];
        assert(cells@.take(i + 1).drop_last() =~= cells@.take(i as int));
        if cell.ch == ' ' {
            state.place_word(&word);
            word = Vec::new();
            assert(word@ =~= Seq::<Cell>::empty());
            state.space(cell);
        } else {
            word.push(cell);
        }
        i += 1;
    }
    assert(cells@.take(i as int) =~= cells@);
    state.place_word(&word);
    state.finish(line.style)
}

// ---------------------------------------------------------------------------
// Display width
// ---------------------------------------------------------------------------

/// Columns that `text` takes.
pub fn display_width(text: &str) -> (r: usize)
    ensures
        r == unicode_text_width(text@),
{
    unicode_str_width(text)
}

/// Columns of the characters of `text`, one by one.
pub open spec fn text_columns(text: Seq<char>) -> nat
    decreases text.len(),
{
    if text.len() == 0 {
        0
    } else {
        text_columns(text.drop_last()) + columns(text.last())
    }
}

/// The longest prefix of `text` that takes at most `room` columns.
pub open spec fn fitting(text: Seq<char>, room: nat) -> Seq<char>
    decreases text.len(),
{
    if text.len() == 0 || text_columns(text) <= room {
        text
    } else {
        fitting(text.drop_last(), room)
    }
}

pub open spec fn truncated(text: Seq<char>, max_width: nat) -> Seq<char> {
    if unicode_text_width(text) <= max_width {
        text
    } else if max_width == 0 {
        Seq::empty()
    } else {
        fitting(text, (max_width - 1) as nat).push('…')
    }
}

proof fn lemma_text_columns_grow(text: Seq<char>, i: int)
    requires
        0 <= i <= text.len(),
    ensures
        text_columns(text.take(i)) <= text_columns(text),
    decreases text.len(),
{
    if i == text.len() {
        assert(text.take(i) =~= text);
    } else {
        lemma_text_columns_grow(text.drop_last(), i);
        assert(text.drop_last().take(i) =~= text.take(i));
    }
}

proof fn lemma_fitting_is(text: Seq<char>, room: nat, k: int)
    requires
        0 <= k <= text.len(),
        text_columns(text.take(k)) <= room,
        k < text.len() ==> text_columns(text.take(k + 1)) > room,
    ensures
        fitting(text, room) == text.take(k),
    decreases text.len(),
{
    if k == text.len() {
        assert(text.take(k) =~= text);
    } else {
        lemma_text_columns_grow(text, k + 1);
        let init = text.drop_last();
        assert(init.take(k) =~= text.take(k));
        if k < init.len() {
            assert(init.take(k + 1) =~= text.take(k + 1));
        }
        lemma_fitting_is(init, room, k);
    }
}

/// Truncate `text` to at most `max_width` display columns, replacing the cut
/// tail with a single-column ellipsis. Width-aware, so wide characters are never
/// split across the boundary.
pub fn truncate_display(text: &str, max_width: usize) -> (r: String)
    ensures
        r@ == truncated(text@, max_width as nat),
{
    if display_width(text) <= max_width {
        return owned(text);
    }
    if max_width == 0 {
        return String::new();
    }
    let room: usize = max_width - 1;
    let chars: Vec<char> = chars_of(text);
    let mut out: String = String::new();
    let mut used: usize = 0;
    let mut i: usize = 0;
    assert(text@.take(0) =~= Seq::<char>::empty());
    while i < chars.len()
        invariant
            chars@ == text@,
            i <= chars@.len(),
            used <= room,
            out@ == text@.take(i as int),
            used == text_columns(text@.take(i as int)),
        ensures
            i <= chars@.len(),
            out@ == text@.take(i as int),
            text_columns(text@.take(i as int)) <= room,
            i < chars@.len() ==> text_columns(text@.take(i + 1)) > room,
        decreases chars@.len() - i,
    {
        let ch: char = chars[i];
        let n: usize = char_columns(ch);
        assert(text@.take(i + 1).drop_last() =~= text@.take(i as int));
        if n > room - used {
            break;
        }
        out.push(ch);
        assert(text@.take(i + 1) =~= text@.take(i as int).push(ch));
        used = used + n;
        i += 1;
    }
    proof {
        lemma_fitting_is(text@, room as nat, i as int);
    }
    out.push('…');
    out
}

/// A cut text is a prefix of the text followed by an ellipsis, and the
/// prefix leaves a column for it.
pub proof fn truncation_respects_width(text: Seq<char>, max_width: nat)
    requires
        max_width > 0,
        unicode_text_width(text) > max_width,
    ensures
        ({
            let kept = truncated(text, max_width).drop_last();
            &&& truncated(text, max_width).last() == '…'
            &&& kept.len() <= text.len()
            &&& kept == text.take(kept.len() as int)
            &&& text_columns(kept) + 1 <= max_width
        }),
    decreases text.len(),
{
    let room = (max_width - 1) as nat;
    lemma_fitting_prefix(text, room);
    assert(truncated(text, max_width).drop_last() =~= fitting(text, room));
}

proof fn lemma_fitting_prefix(text: Seq<char>, room: nat)
    ensures
        fitting(text, room).len() <= text.len(),
        fitting(text, room) == text.take(fitting(text, room).len() as int),
        text_columns(fitting(text, room)) <= room,
    decreases text.len(),
{
    if text.len() == 0 || text_columns(text) <= room {
        assert(text.take(text.len() as int) =~= text);
    } else {
        lemma_fitting_prefix(text.drop_last(), room);
        let k = fitting(text, room).len() as int;
        assert(text.drop_last().take(k) =~= text.take(k));
    }
}

// ---------------------------------------------------------------------------
// Laws
// ---------------------------------------------------------------------------

/// The cells of all rows, row after row.
pub open spec fn all_cells(rows: Seq<Seq<Cell>>) -> Seq<Cell>
    decreases rows.len(),
{
    if rows.len() == 0 {
        Seq::empty()
    } else {
        all_cells(rows.drop_last()) + rows.last()
    }
}

proof fn lemma_all_cells_push(rows: Seq<Seq<Cell>>, row: Seq<Cell>)
    ensures
        all_cells(rows.push(row)) == all_cells(rows) + row,
{
    assert(rows.push(row).drop_last() =~= rows);
}

impl Rows {
    /// The cells placed so far.
    pub open spec fn placed(self) -> Seq<Cell> {
        all_cells(self.done) + self.current
    }

    pub(crate) proof fn lemma_broken_placed(self)
        ensures
            self.broken().placed() == self.placed(),
    {
        lemma_all_cells_push(self.done, self.current);
        assert(self.broken().placed() =~= self.placed());
    }

    proof fn lemma_filled_placed(self, cell: Cell, width: nat, indent: nat)
        ensures
            self.filled(cell, width, indent).placed() == self.placed().push(cell),
    {
        self.lemma_broken_placed();
        assert(self.filled(cell, width, indent).placed() =~= self.placed().push(cell));
    }

    proof fn lemma_filled_all_placed(self, cells: Seq<Cell>, width: nat, indent: nat)
        ensures
            self.filled_all(cells, width, indent).placed() == self.placed() + cells,
        decreases cells.len(),
    {
        if cells.len() == 0 {
            assert(self.placed() + cells =~= self.placed());
        } else {
            self.lemma_filled_all_placed(cells.drop_last(), width, indent);
            self.filled_all(cells.drop_last(), width, indent).lemma_filled_placed(
                cells.last(),
                width,
                indent,
            );
            assert((self.placed() + cells.drop_last()).push(cells.last()) =~= self.placed()
                + cells);
        }
    }

    pub(crate) proof fn lemma_finished_cells(self)
        ensures
            all_cells(self.finished()) == self.placed(),
    {
        if self.current.len() > 0 || self.done.len() == 0 {
            lemma_all_cells_push(self.done, self.current);
        } else {
            assert(self.placed() =~= all_cells(self.done));
        }
    }
}

/// Character wrapping keeps every character with its style, in order.
pub proof fn char_wrapping_keeps_everything(cells: Seq<Cell>, width: nat, indent: nat)
    ensures
        all_cells(char_rows(cells, width, indent)) == cells,
{
    no_rows().lemma_filled_all_placed(cells, width, indent);
    no_rows().filled_all(cells, width, indent).lemma_finished_cells();
    assert(no_rows().placed() + cells =~= cells);
}

/// The cells that are not blank.
pub open spec fn inked(cells: Seq<Cell>) -> Seq<Cell>
    decreases cells.len(),
{
    if cells.len() == 0 {
        Seq::empty()
    } else if is_blank(cells.last()) {
        inked(cells.drop_last())
    } else {
        inked(cells.drop_last()).push(cells.last())
    }
}

proof fn lemma_inked_push(cells: Seq<Cell>, cell: Cell)
    ensures
        inked(cells.push(cell)) == if is_blank(cell) {
            inked(cells)
        } else {
            inked(cells).push(cell)
        },
{
    assert(cells.push(cell).drop_last() =~= cells);
}

proof fn lemma_inked_concat(a: Seq<Cell>, b: Seq<Cell>)
    ensures
        inked(a + b) == inked(a) + inked(b),
    decreases b.len(),
{
    if b.len() == 0 {
        assert(a + b =~= a);
        assert(inked(a) + inked(b) =~= inked(a));
    } else {
        assert((a + b).drop_last() =~= a + b.drop_last());
        lemma_inked_concat(a, b.drop_last());
        assert(inked(a + b) =~= inked(a) + inked(b));
    }
}

proof fn lemma_word_rows_inked(cells: Seq<Cell>, width: nat, indent: nat)
    ensures
        ({
            let (rows, word) = word_rows_from(cells, width, indent);
            inked(rows.placed()) + inked(word) == inked(cells)
        }),
    decreases cells.len(),
{
    let (rows, word) = word_rows_from(cells, width, indent);
    if cells.len() == 0 {
        assert(rows.placed() =~= Seq::<Cell>::empty());
        assert(inked(rows.placed()) + inked(word) =~= inked(cells));
    } else {
        lemma_word_rows_inked(cells.drop_last(), width, indent);
        let (before, pending) = word_rows_from(cells.drop_last(), width, indent);
        let cell = cells.last();
        if is_blank(cell) {
            let put = before.worded(pending, width, indent);
            lemma_worded_inked(before, pending, width, indent);
            put.lemma_broken_placed();
            if put.used + columns(cell.ch) > put.room(width, indent) {
            } else if put.used == 0 && put.done.len() > 0 {
            } else {
                assert(put.extended(cell).placed() =~= put.placed().push(cell));
                lemma_inked_push(put.placed(), cell);
            }
            assert(inked(rows.placed()) + inked(word) =~= inked(cells));
        } else {
            lemma_inked_push(pending, cell);
            assert(inked(rows.placed()) + inked(word) =~= inked(cells));
        }
    }
}

proof fn lemma_worded_inked(rows: Rows, word: Seq<Cell>, width: nat, indent: nat)
    ensures
        inked(rows.worded(word, width, indent).placed()) == inked(rows.placed()) + inked(word),
{
    if word.len() == 0 {
        assert(inked(rows.placed()) + inked(word) =~= inked(rows.placed()));
    } else {
        rows.lemma_broken_placed();
        let start = rows.before_word(word, width, indent);
        start.lemma_filled_all_placed(word, width, indent);
        lemma_inked_concat(start.placed(), word);
    }
}

/// Word wrapping drops nothing but blanks: every other character stays, with
/// its style and in order.
pub proof fn word_wrapping_keeps_ink(cells: Seq<Cell>, width: nat, indent: nat)
    ensures
        inked(all_cells(word_rows(cells, width, indent))) == inked(cells),
{
    let (rows, word) = word_rows_from(cells, width, indent);
    lemma_word_rows_inked(cells, width, indent);
    lemma_worded_inked(rows, word, width, indent);
    rows.worded(word, width, indent).lemma_finished_cells();
}

/// Every character is narrow enough for a continuation row.
pub open spec fn narrow(cells: Seq<Cell>, width: nat, indent: nat) -> bool {
    forall|i: int|
        0 <= i < cells.len() ==> columns(#[trigger] cells[i].ch) <= budget(1, width, indent)
}

pub open spec fn rows_fit(rows: Seq<Seq<Cell>>, width: nat, indent: nat) -> bool {
    forall|i: int|
        0 <= i < rows.len() ==> cells_width(#[trigger] rows[i]) <= budget(i as nat, width, indent)
}

impl Rows {
    /// Nothing laid out so far is wider than its row.
    pub open spec fn fits(self, width: nat, indent: nat) -> bool {
        &&& self.used == cells_width(self.current)
        &&& self.used <= self.room(width, indent)
        &&& rows_fit(self.done, width, indent)
    }

    proof fn lemma_broken_fits(self, width: nat, indent: nat)
        requires
            self.fits(width, indent),
        ensures
            self.broken().fits(width, indent),
    {
    }

    proof fn lemma_filled_fits(self, cell: Cell, width: nat, indent: nat)
        requires
            1 <= width,
            self.fits(width, indent),
            columns(cell.ch) <= budget(1, width, indent),
        ensures
            self.filled(cell, width, indent).fits(width, indent),
    {
        self.lemma_broken_fits(width, indent);
        let start = if self.used > 0 && self.used + columns(cell.ch) > self.room(width, indent) {
            self.broken()
        } else {
            self
        };
        assert(start.current.push(cell).drop_last() =~= start.current);
    }

    proof fn lemma_filled_all_fits(self, cells: Seq<Cell>, width: nat, indent: nat)
        requires
            1 <= width,
            self.fits(width, indent),
            narrow(cells, width, indent),
        ensures
            self.filled_all(cells, width, indent).fits(width, indent),
        decreases cells.len(),
    {
        if cells.len() > 0 {
            assert(narrow(cells.drop_last(), width, indent)) by {
                assert forall|i: int| 0 <= i < cells.drop_last().len() implies columns(
                    #[trigger] cells.drop_last()[i].ch,
                ) <= budget(1, width, indent) by {
                    assert(cells.drop_last()[i] == cells[i]);
                }
            }
            self.lemma_filled_all_fits(cells.drop_last(), width, indent);
            let last = cells[cells.len() - 1];
            assert(columns(last.ch) <= budget(1, width, indent));
            self.filled_all(cells.drop_last(), width, indent).lemma_filled_fits(
                last,
                width,
                indent,
            );
        }
    }

    proof fn lemma_worded_fits(self, word: Seq<Cell>, width: nat, indent: nat)
        requires
            1 <= width,
            self.fits(width, indent),
            narrow(word, width, indent),
        ensures
            self.worded(word, width, indent).fits(width, indent),
    {
        if word.len() > 0 {
            self.lemma_broken_fits(width, indent);
            self.before_word(word, width, indent).lemma_filled_all_fits(word, width, indent);
        }
    }

    proof fn lemma_spaced_fits(self, cell: Cell, width: nat, indent: nat)
        requires
            1 <= width,
            self.fits(width, indent),
        ensures
            self.spaced(cell, width, indent).fits(width, indent),
    {
        self.lemma_broken_fits(width, indent);
        assert(self.current.push(cell).drop_last() =~= self.current);
    }

    proof fn lemma_finished_fits(self, width: nat, indent: nat)
        requires
            self.fits(width, indent),
        ensures
            rows_fit(self.finished(), width, indent),
    {
    }
}

proof fn lemma_word_rows_fit(cells: Seq<Cell>, width: nat, indent: nat)
    requires
        1 <= width,
        narrow(cells, width, indent),
    ensures
        word_rows_from(cells, width, indent).0.fits(width, indent),
        narrow(word_rows_from(cells, width, indent).1, width, indent),
    decreases cells.len(),
{
    if cells.len() > 0 {
        let init = cells.drop_last();
        assert forall|i: int| 0 <= i < init.len() implies columns(#[trigger] init[i].ch) <= budget(
            1,
            width,
            indent,
        ) by {
            assert(init[i] == cells[i]);
        }
        lemma_word_rows_fit(init, width, indent);
        let (rows, word) = word_rows_from(init, width, indent);
        let cell = cells[cells.len() - 1];
        assert(columns(cell.ch) <= budget(1, width, indent));
        if is_blank(cell) {
            rows.lemma_worded_fits(word, width, indent);
            rows.worded(word, width, indent).lemma_spaced_fits(cell, width, indent);
        }
    }
}

/// No row of a wrapped line is wider than its columns, as long as no single
/// character is wider than a continuation row.
pub proof fn wrapped_rows_fit(cells: Seq<Cell>, width: nat, indent: nat)
    requires
        1 <= width,
        narrow(cells, width, indent),
    ensures
        rows_fit(char_rows(cells, width, indent), width, indent),
        rows_fit(word_rows(cells, width, indent), width, indent),
{
    no_rows().lemma_filled_all_fits(cells, width, indent);
    no_rows().filled_all(cells, width, indent).lemma_finished_fits(width, indent);
    lemma_word_rows_fit(cells, width, indent);
    let (rows, word) = word_rows_from(cells, width, indent);
    rows.lemma_worded_fits(word, width, indent);
    rows.worded(word, width, indent).lemma_finished_fits(width, indent);
}

/// Whether `cells[a..b]` is a word: no blank in it, and none of its neighbours
/// belongs to it.
pub open spec fn is_word(cells: Seq<Cell>, a: int, b: int) -> bool {
    &&& 0 <= a < b <= cells.len()
    &&& a > 0 ==> is_blank(cells[a - 1])
    &&& b < cells.len() ==> is_blank(cells[b])
    &&& forall|i: int| a <= i < b ==> !is_blank(#[trigger] cells[i])
}

/// Whether `word` stands unbroken in `row`, from its cell `k` on.
pub open spec fn stands_in(row: Seq<Cell>, word: Seq<Cell>, k: int) -> bool {
    0 <= k && k + word.len() <= row.len() && row.subrange(k, k + word.len() as int) == word
}

impl Rows {
    spec fn all(self) -> Seq<Seq<Cell>> {
        self.done.push(self.current)
    }

    /// Whether `other` is what these rows become: each row stays where it is,
    /// and at most its end is added to.
    spec fn grows_to(self, other: Rows) -> bool {
        self.all().len() <= other.all().len() && forall|i: int|
            0 <= i < self.all().len() ==> (#[trigger] self.all()[i]).is_prefix_of(other.all()[i])
    }

    proof fn lemma_grows_on(self, middle: Rows, other: Rows)
        requires
            self.grows_to(middle),
            middle.grows_to(other),
        ensures
            self.grows_to(other),
    {
        assert forall|i: int| 0 <= i < self.all().len() implies (
        #[trigger] self.all()[i]).is_prefix_of(other.all()[i]) by {
            assert(self.all()[i].is_prefix_of(middle.all()[i]));
            assert(middle.all()[i].is_prefix_of(other.all()[i]));
        }
    }

    proof fn lemma_broken_grows(self)
        ensures
            self.grows_to(self),
            self.grows_to(self.broken()),
    {
        assert forall|i: int| 0 <= i < self.all().len() implies (
        #[trigger] self.all()[i]).is_prefix_of(self.broken().all()[i]) by {
            assert(self.broken().all()[i] == self.all()[i]);
        }
    }

    proof fn lemma_extended_grows(self, cell: Cell)
        ensures
            self.grows_to(self.extended(cell)),
    {
        assert forall|i: int| 0 <= i < self.all().len() implies (
        #[trigger] self.all()[i]).is_prefix_of(self.extended(cell).all()[i]) by {
            if i < self.done.len() {
                assert(self.extended(cell).all()[i] == self.all()[i]);
            } else {
                assert(self.extended(cell).all()[i] == self.current.push(cell));
            }
        }
    }

    proof fn lemma_filled_all_grows(self, cells: Seq<Cell>, width: nat, indent: nat)
        ensures
            self.grows_to(self.filled_all(cells, width, indent)),
        decreases cells.len(),
    {
        if cells.len() == 0 {
            self.lemma_broken_grows();
        } else {
            let before = self.filled_all(cells.drop_last(), width, indent);
            let cell = cells.last();
            self.lemma_filled_all_grows(cells.drop_last(), width, indent);
            before.lemma_broken_grows();
            before.lemma_extended_grows(cell);
            before.broken().lemma_extended_grows(cell);
            before.lemma_grows_on(before.broken(), before.broken().extended(cell));
            self.lemma_grows_on(before, self.filled_all(cells, width, indent));
        }
    }

    proof fn lemma_worded_grows(self, word: Seq<Cell>, width: nat, indent: nat)
        ensures
            self.grows_to(self.worded(word, width, indent)),
    {
        self.lemma_broken_grows();
        if word.len() > 0 {
            let start = self.before_word(word, width, indent);
            start.lemma_filled_all_grows(word, width, indent);
            self.lemma_grows_on(start, self.worded(word, width, indent));
        }
    }

    /// Cells that fit behind what the row holds all join it.
    proof fn lemma_filled_unbroken(self, cells: Seq<Cell>, width: nat, indent: nat)
        requires
            self.used + cells_width(cells) <= self.room(width, indent),
        ensures
            self.filled_all(cells, width, indent) == (Rows {
                done: self.done,
                current: self.current + cells,
                used: self.used + cells_width(cells),
            }),
        decreases cells.len(),
    {
        if cells.len() == 0 {
            assert(self.current + cells =~= self.current);
        } else {
            self.lemma_filled_unbroken(cells.drop_last(), width, indent);
            assert(self.current + cells =~= (self.current + cells.drop_last()).push(cells.last()));
        }
    }

    /// A word that fits a continuation row ends up at the end of one row.
    proof fn lemma_word_unbroken(self, word: Seq<Cell>, width: nat, indent: nat)
        requires
            1 <= width,
            word.len() > 0,
            cells_width(word) <= budget(1, width, indent),
        ensures
            ({
                let row = self.worded(word, width, indent).current;
                row.len() >= word.len() && stands_in(row, word, row.len() - word.len())
            }),
    {
        let start = self.before_word(word, width, indent);
        start.lemma_filled_unbroken(word, width, indent);
        let row = start.current + word;
        assert(row.subrange(row.len() - word.len(), row.len() as int) =~= word);
    }

    /// A word that stands in a row still does once more is laid out.
    proof fn lemma_still_stands(self, other: Rows, word: Seq<Cell>, k: int)
        requires
            self.grows_to(other),
            word.len() > 0,
            stands_in(self.current, word, k),
        ensures
            exists|r: int|
                0 <= r < other.finished().len() && #[trigger] stands_in(
                    other.finished()[r],
                    word,
                    k,
                ),
    {
        let r = self.done.len() as int;
        assert(self.all()[r] == self.current);
        let row = other.all()[r];
        assert(self.current.is_prefix_of(row));
        assert(row.subrange(k, k + word.len() as int) =~= self.current.subrange(
            k,
            k + word.len() as int,
        ));
        assert(stands_in(row, word, k));
        assert(other.finished()[r] == row);
    }
}

proof fn lemma_word_is_pending(cells: Seq<Cell>, a: int, width: nat, indent: nat)
    requires
        0 <= a <= cells.len(),
        a > 0 ==> is_blank(cells[a - 1]),
        forall|i: int| a <= i < cells.len() ==> !is_blank(#[trigger] cells[i]),
    ensures
        word_rows_from(cells, width, indent).1 == cells.subrange(a, cells.len() as int),
    decreases cells.len(),
{
    let n = cells.len() as int;
    if a == n {
        assert(cells.subrange(a, n) =~= Seq::<Cell>::empty());
    } else {
        let init = cells.drop_last();
        assert forall|i: int| a <= i < init.len() implies !is_blank(#[trigger] init[i]) by {
            assert(init[i] == cells[i]);
        }
        lemma_word_is_pending(init, a, width, indent);
        assert(!is_blank(cells[n - 1]));
        assert(cells.subrange(a, n) =~= init.subrange(a, n - 1).push(cells.last()));
    }
}

proof fn lemma_word_rows_grow(cells: Seq<Cell>, n: int, width: nat, indent: nat)
    requires
        0 <= n <= cells.len(),
    ensures
        word_rows_from(cells.take(n), width, indent).0.grows_to(
            word_rows_from(cells, width, indent).0,
        ),
    decreases cells.len(),
{
    let first = word_rows_from(cells.take(n), width, indent).0;
    if n == cells.len() {
        assert(cells.take(n) =~= cells);
        first.lemma_broken_grows();
    } else {
        let init = cells.drop_last();
        let cell = cells.last();
        lemma_word_rows_grow(init, n, width, indent);
        assert(init.take(n) =~= cells.take(n));
        let (rows, word) = word_rows_from(init, width, indent);
        if is_blank(cell) {
            let put = rows.worded(word, width, indent);
            rows.lemma_worded_grows(word, width, indent);
            put.lemma_broken_grows();
            put.lemma_extended_grows(cell);
            rows.lemma_grows_on(put, put.spaced(cell, width, indent));
            first.lemma_grows_on(rows, put.spaced(cell, width, indent));
        }
    }
}

/// A word that is no wider than a continuation row stands unbroken in one row.
pub proof fn words_stay_whole(cells: Seq<Cell>, a: int, b: int, width: nat, indent: nat)
    requires
        1 <= width,
        is_word(cells, a, b),
        cells_width(cells.subrange(a, b)) <= budget(1, width, indent),
    ensures
        exists|r: int, k: int|
            0 <= r < word_rows(cells, width, indent).len() && #[trigger] stands_in(
                word_rows(cells, width, indent)[r],
                cells.subrange(a, b),
                k,
            ),
{
    let word = cells.subrange(a, b);
    let head = cells.take(b);
    assert forall|i: int| a <= i < head.len() implies !is_blank(#[trigger] head[i]) by {
        assert(head[i] == cells[i]);
    }
    lemma_word_is_pending(head, a, width, indent);
    assert(head.subrange(a, b) =~= word);
    let rows = word_rows_from(head, width, indent).0;
    let put = rows.worded(word, width, indent);
    rows.lemma_word_unbroken(word, width, indent);
    let k = put.current.len() - word.len();
    let (last, pending) = word_rows_from(cells, width, indent);
    let end = last.worded(pending, width, indent);
    if b == cells.len() {
        assert(head =~= cells);
        put.lemma_broken_grows();
    } else {
        let next = cells.take(b + 1);
        let cell = cells[b];
        assert(next.drop_last() =~= head);
        assert(next.last() == cell);
        let spaced = put.spaced(cell, width, indent);
        put.lemma_broken_grows();
        put.lemma_extended_grows(cell);
        lemma_word_rows_grow(cells, b + 1, width, indent);
        put.lemma_grows_on(spaced, last);
        last.lemma_worded_grows(pending, width, indent);
        put.lemma_grows_on(last, end);
    }
    put.lemma_still_stands(end, word, k);
    let r = choose|r: int|
        0 <= r < end.finished().len() && #[trigger] stands_in(end.finished()[r], word, k);
    assert(stands_in(word_rows(cells, width, indent)[r], word, k));
}

/// A wrapped line has at least one row, and every row keeps the line's style.
pub proof fn wrapped_lines_keep_style(line: LineView, width: nat, indent: nat)
    ensures
        char_wrapped(line, width, indent).len() > 0,
        word_wrapped(line, width, indent).len() > 0,
        forall|i: int|
            0 <= i < char_wrapped(line, width, indent).len() ==> (#[trigger] char_wrapped(
                line,
                width,
                indent,
            )[i]).style == line.style,
        forall|i: int|
            0 <= i < word_wrapped(line, width, indent).len() ==> (#[trigger] word_wrapped(
                line,
                width,
                indent,
            )[i]).style == line.style,
{
}

/// Turning cells into spans loses nothing, and gives no empty span and no two
/// neighbours of one style.
pub proof fn spans_show_their_cells(cells: Seq<Cell>)
    ensures
        cells_of(spans_of(cells)) == cells,
        forall|i: int|
            0 <= i < spans_of(cells).len() ==> (#[trigger] spans_of(cells)[i]).content.len() > 0,
        forall|i: int, j: int|
            0 <= i && j == i + 1 && j < spans_of(cells).len() ==> (#[trigger] spans_of(
                cells,
            )[i]).style != (#[trigger] spans_of(cells)[j]).style,
    decreases cells.len(),
{
    if cells.len() > 0 {
        let init = cells.drop_last();
        let cell = cells.last();
        spans_show_their_cells(init);
        let spans = spans_of(init);
        let all = joined(spans, cell);
        assert(Cell { ch: cell.ch, style: cell.style } == cell);
        assert(all.drop_last() =~= if spans.len() > 0 && spans.last().style == cell.style {
            spans.drop_last()
        } else {
            spans
        });
        if spans.len() > 0 && spans.last().style == cell.style {
            let content = spans.last().content;
            lemma_text_cells_push(content, cell.ch, cell.style);
            assert(cells_of(all) =~= cells_of(spans).push(cell));
        } else {
            lemma_text_cells_push(Seq::empty(), cell.ch, cell.style);
            assert(Seq::<char>::empty().push(cell.ch) =~= seq![cell.ch]);
            assert(text_cells(Seq::empty(), cell.style) =~= Seq::<Cell>::empty());
            assert(cells_of(all) =~= cells_of(spans).push(cell));
        }
        assert(cells_of(all) =~= cells);
        assert forall|i: int, j: int| 0 <= i && j == i + 1 && j < all.len() implies (
        #[trigger] all[i]).style != (#[trigger] all[j]).style by {
            if j < spans.len() {
                assert(spans[i].style != spans[j].style);
            }
        }
    }
}

/// The rows below the first one are indented, by as much as leaves a column;
/// the first one is not.
pub proof fn continuation_rows_are_indented(line: LineView, width: nat, indent: nat, i: int)
    requires
        width > 0,
    ensures
        ({
            let n = if indent < width {
                indent
            } else {
                (width - 1) as nat
            };
            let chars = char_rows(cells_of(line.spans), width, n);
            let words = word_rows(cells_of(line.spans), width, n);
            &&& char_wrapped(line, width, indent).len() == chars.len()
            &&& word_wrapped(line, width, indent).len() == words.len()
            &&& 0 <= i < chars.len() ==> cells_of(char_wrapped(line, width, indent)[i].spans)
                == indented(chars[i], i, n)
            &&& 0 <= i < words.len() ==> cells_of(word_wrapped(line, width, indent)[i].spans)
                == indented(words[i], i, n)
        }),
{
    let n = if indent < width {
        indent
    } else {
        (width - 1) as nat
    };
    let chars = char_rows(cells_of(line.spans), width, n);
    let words = word_rows(cells_of(line.spans), width, n);
    let blanks = Seq::new(n, |k: int| Cell { ch: ' ', style: plain() });
    assert(text_cells(repeated(' ', n), plain()) =~= blanks);
    if 0 <= i < chars.len() {
        spans_show_their_cells(hanging_cells(i as nat, n) + chars[i]);
        assert(hanging_cells(i as nat, n) + chars[i] =~= indented(chars[i], i, n));
    }
    if 0 <= i < words.len() {
        spans_show_their_cells(hanging_cells(i as nat, n) + words[i]);
        assert(hanging_cells(i as nat, n) + words[i] =~= indented(words[i], i, n));
    }
}

/// The cells of row `i`, behind `n` plain blanks where it is not the first.
pub open spec fn indented(cells: Seq<Cell>, i: int, n: nat) -> Seq<Cell> {
    if i > 0 {
        Seq::new(n, |k: int| Cell { ch: ' ', style: plain() }) + cells
    } else {
        cells
    }
}

proof fn lemma_chars_on_one_row(cells: Seq<Cell>, width: nat, indent: nat)
    requires
        cells_width(cells) <= width,
    ensures
        no_rows().filled_all(cells, width, indent) == (Rows {
            done: Seq::empty(),
            current: cells,
            used: cells_width(cells),
        }),
    decreases cells.len(),
{
    if cells.len() > 0 {
        lemma_chars_on_one_row(cells.drop_last(), width, indent);
        assert(cells.drop_last().push(cells.last()) =~= cells);
    }
}

proof fn lemma_word_on_row(rows: Rows, word: Seq<Cell>, width: nat, indent: nat)
    requires
        rows.done.len() == 0,
        rows.used + cells_width(word) <= width,
    ensures
        rows.filled_all(word, width, indent) == (Rows {
            done: rows.done,
            current: rows.current + word,
            used: rows.used + cells_width(word),
        }),
    decreases word.len(),
{
    if word.len() == 0 {
        assert(rows.current + word =~= rows.current);
    } else {
        lemma_word_on_row(rows, word.drop_last(), width, indent);
        assert((rows.current + word.drop_last()).push(word.last()) =~= rows.current + word);
    }
}

proof fn lemma_words_on_one_row(cells: Seq<Cell>, width: nat, indent: nat)
    requires
        cells_width(cells) <= width,
    ensures
        ({
            let (rows, word) = word_rows_from(cells, width, indent);
            &&& rows.done.len() == 0
            &&& rows.current + word == cells
            &&& rows.used + cells_width(word) == cells_width(cells)
        }),
    decreases cells.len(),
{
    if cells.len() == 0 {
        assert(no_rows().current + Seq::<Cell>::empty() =~= cells);
    } else {
        let init = cells.drop_last();
        let cell = cells.last();
        lemma_words_on_one_row(init, width, indent);
        let (rows, word) = word_rows_from(init, width, indent);
        lemma_word_on_row(rows, word, width, indent);
        assert(init.push(cell) =~= cells);
        if is_blank(cell) {
            assert(rows.current.push(cell).len() > 0);
            if word.len() == 0 {
                assert(rows.current + word =~= rows.current);
            }
            assert(init.push(cell) + Seq::<Cell>::empty() =~= cells);
            assert(cells_width(Seq::<Cell>::empty()) == 0);
        } else {
            assert(rows.current + word.push(cell) =~= cells);
            assert(word.push(cell).drop_last() =~= word);
        }
    }
}

/// A line that fits is not broken.
pub proof fn short_lines_stay_whole(cells: Seq<Cell>, width: nat, indent: nat)
    requires
        cells_width(cells) <= width,
    ensures
        char_rows(cells, width, indent) =~= seq![cells],
        word_rows(cells, width, indent) =~= seq![cells],
{
    lemma_chars_on_one_row(cells, width, indent);
    lemma_words_on_one_row(cells, width, indent);
    let (rows, word) = word_rows_from(cells, width, indent);
    lemma_word_on_row(rows, word, width, indent);
    assert(rows.current + Seq::<Cell>::empty() =~= rows.current);
}

/// A text is cut only where it is too wide, and then no earlier than it has to
/// be.
pub proof fn truncation_cuts_no_more_than_needed(text: Seq<char>, max_width: nat)
    ensures
        unicode_text_width(text) <= max_width ==> truncated(text, max_width) == text,
        unicode_text_width(text) > max_width && max_width == 0 ==> truncated(text, max_width).len()
            == 0,
        unicode_text_width(text) > max_width && max_width > 0 ==> {
            let kept = truncated(text, max_width).len() - 1;
            &&& 0 <= kept <= text.len()
            &&& truncated(text, max_width)[kept] == '…'
            &&& kept < text.len() ==> text_columns(text.take(kept + 1)) > max_width - 1
        },
{
    if unicode_text_width(text) > max_width && max_width > 0 {
        lemma_fitting_longest(text, (max_width - 1) as nat);
    }
}

proof fn lemma_fitting_longest(text: Seq<char>, room: nat)
    ensures
        fitting(text, room).len() <= text.len(),
        fitting(text, room).len() < text.len() ==> text_columns(
            text.take(fitting(text, room).len() + 1int),
        ) > room,
    decreases text.len(),
{
    if text.len() > 0 && text_columns(text) > room {
        let init = text.drop_last();
        lemma_fitting_longest(init, room);
        let k = fitting(text, room).len() as int;
        if k < init.len() {
            assert(init.take(k + 1) =~= text.take(k + 1));
        } else {
            assert(text.take(k + 1) =~= text);
        }
    }
}

} // verus!
