//! File changes as styled diffs.
use diffy::{Line as PatchLine, Patch};
use vstd::prelude::*;
use crate::composer::{capped, editor_columns};
use crate::config::{to_color, ConfigView, TuiConfig};
use crate::highlight::{
    exceeds_highlight_limits, exceeds_limits, highlight_code_to_styled_spans, highlighted,
    opt_span_rows, span_rows, RenderContext,
};
use crate::protocol::{FileChange, FileChangeOperation, FileChangeOutput};
use crate::style::{
    append_lines, bg_style, fg_style, line_of, line_text, line_views, new_lines, no_lines, plain,
    push_line, push_span, raw_of, span_of, span_views, spans_text, Color, Line, LineView, Span, SpanView, Style,
};
use crate::text::{
    byte_len, chars_of, decimal, lines_of, numeral, owned, pad_left, padded_left, repeat_char,
    repeated, same_text, split_on, split_text, starts_with, str_len, string_of, text_lines,
    text_starts_with, texts, trim_end_chars, trim_end_of,
};
use crate::width::char_columns;
use crate::wrap::{
    cells_of, char_wrapped, line_cells, spans_from_cells, spans_of, wrap_line_char,
    wrap_line_char_hanging, Cell, Rows,
};

verus! {

// ---------------------------------------------------------------------------
// Patches
// ---------------------------------------------------------------------------

#[derive(Clone, Copy, Debug, PartialEq, Eq, Structural)]
pub enum DiffLineKind {
    Insert,
    Delete,
    Context,
}

#[derive(Debug)]
pub struct DiffLine {
    pub kind: DiffLineKind,
    pub text: String,
}

/// A group of neighbouring changes: where it starts and how many lines it
/// spans in the old and in the new file, and its lines.
#[derive(Debug)]
pub struct DiffHunk {
    pub old_start: usize,
    pub old_len: usize,
    pub new_start: usize,
    pub new_len: usize,
    pub lines: Vec<DiffLine>,
}

#[verifier::ext_equal]
pub struct DiffLineView {
    pub kind: DiffLineKind,
    pub text: Seq<char>,
}

#[verifier::ext_equal]
pub struct HunkView {
    pub old_start: usize,
    pub old_len: usize,
    pub new_start: usize,
    pub new_len: usize,
    pub lines: Seq<DiffLineView>,
}

impl View for DiffLine {
    type V = DiffLineView;

    open spec fn view(&self) -> DiffLineView {
        DiffLineView { kind: self.kind, text: self.text@ }
    }
}

pub open spec fn diff_line_views(lines: Seq<DiffLine>) -> Seq<DiffLineView> {
    lines.map_values(|l: DiffLine| l@)
}

impl View for DiffHunk {
    type V = HunkView;

    open spec fn view(&self) -> HunkView {
        HunkView {
            old_start: self.old_start,
            old_len: self.old_len,
            new_start: self.new_start,
            new_len: self.new_len,
            lines: diff_line_views(self.lines@),
        }
    }
}

pub open spec fn hunk_views(hunks: Seq<DiffHunk>) -> Seq<HunkView> {
    hunks.map_values(|h: DiffHunk| h@)
}

pub open spec fn opt_hunks(hunks: Option<Vec<DiffHunk>>) -> Option<Seq<HunkView>> {
    match hunks {
        Some(hunks) => Some(hunk_views(hunks@)),
        None => None,
    }
}

/// The value of the run of digits that ends `text`.
pub open spec fn trailing_number(text: Seq<char>) -> nat
    decreases text.len(),
{
    if text.len() > 0 && '0' <= text.last() <= '9' {
        (trailing_number(text.drop_last()) * 10 + (text.last() as nat - '0' as nat)) as nat
    } else {
        0
    }
}

/// Whether a line of a diff heads a hunk.
pub open spec fn heads_hunk(line: Seq<char>) -> bool {
    starts_with(line, "@@ "@)
}

/// The two ranges that the head of a hunk names: what stands between the marks
/// around them.
pub open spec fn named_ranges(line: Seq<char>) -> Seq<char> {
    split_on(line.skip(3), '@')[0]
}

/// The line behind a range: its start and its length, which is one where it is
/// not given.
pub open spec fn range_end(range: Seq<char>) -> nat {
    let parts = split_on(range, ',');
    trailing_number(parts[0]) + if parts.len() > 1 {
        trailing_number(parts[1])
    } else {
        1
    }
}

/// Whether both ranges that the head of a hunk names end within the line
/// numbers.
pub open spec fn ends_fit(line: Seq<char>) -> bool {
    let ranges = split_on(named_ranges(line), ' ');
    forall|i: int| 0 <= i < ranges.len() ==> range_end(#[trigger] ranges[i]) <= usize::MAX
}

/// Where one hunk follows another, the first ends within the line numbers.
pub open spec fn heads_fit(lines: Seq<Seq<char>>) -> bool {
    forall|i: int, j: int|
        0 <= i < j < lines.len() && #[trigger] heads_hunk(lines[i]) && #[trigger] heads_hunk(
            lines[j],
        ) ==> ends_fit(lines[i])
}

/// The end of every hunk that another follows is a line number.
pub open spec fn line_numbers_fit(text: Seq<char>) -> bool {
    heads_fit(split_on(text, '\n'))
}

/// The hunks of a unified diff.
pub uninterp spec fn diff_hunks(text: Seq<char>) -> Option<Seq<HunkView>>;

/// `diffy::Patch::from_str`: the hunks of a unified diff, with the start and
/// length of their two ranges and their lines; none where the text is no such
/// diff. They depend on the text alone. To tell whether a hunk ends before the
/// next one, the parser adds the start and the length that its head names, so
/// the two have to add up to a line number.
#[verifier::external_body]
fn parse_patch(text: &str) -> (r: Option<Vec<DiffHunk>>)
    requires
        line_numbers_fit(text@),
    ensures
        opt_hunks(r) == diff_hunks(text@),
{
    let line = |l: &PatchLine<'_, str>| match *l {
        PatchLine::Insert(t) => DiffLine { kind: DiffLineKind::Insert, text: t.to_string() },
        PatchLine::Delete(t) => DiffLine { kind: DiffLineKind::Delete, text: t.to_string() },
        PatchLine::Context(t) => DiffLine { kind: DiffLineKind::Context, text: t.to_string() },
    };
    Some(Patch::from_str(text).ok()?.hunks().iter().map(|h| DiffHunk {
        old_start: h.old_range().start(), old_len: h.old_range().len(),
        new_start: h.new_range().start(), new_len: h.new_range().len(),
        lines: h.lines().iter().map(line).collect(),
    }).collect())
}

/// The hunks of `text`; none where it is no diff, or where a hunk that another
/// follows ends past the largest line number.
pub open spec fn hunks_of(text: Seq<char>) -> Option<Seq<HunkView>> {
    if line_numbers_fit(text) {
        diff_hunks(text)
    } else {
        None
    }
}

fn digit_value(ch: char) -> (r: Option<u128>)
    ensures
        match r {
            Some(d) => '0' <= ch <= '9' && d == ch as nat - '0' as nat && d <= 9,
            None => !('0' <= ch <= '9'),
        },
{
    match ch {
        '0' => Some(0),
        '1' => Some(1),
        '2' => Some(2),
        '3' => Some(3),
        '4' => Some(4),
        '5' => Some(5),
        '6' => Some(6),
        '7' => Some(7),
        '8' => Some(8),
        '9' => Some(9),
        _ => None,
    }
}

/// The number that ends `text`; none where it is too large.
fn number_at_end(text: &str) -> (r: Option<usize>)
    ensures
        match r {
            Some(n) => n == trailing_number(text@),
            None => trailing_number(text@) > usize::MAX,
        },
{
    let chars: Vec<char> = chars_of(text);
    let mut value: Option<usize> = Some(0);
    let mut i: usize = 0;
    while i < chars.len()
        invariant
            chars@ == text@,
            i <= chars@.len(),
            match value {
                Some(n) => n == trailing_number(text@.take(i as int)),
                None => trailing_number(text@.take(i as int)) > usize::MAX,
            },
        decreases chars@.len() - i,
    {
        assert(text@.take(i + 1).drop_last() =~= text@.take(i as int));
        value = match (digit_value(chars[i]), value) {
            (Some(d), Some(n)) => {
                let next: u128 = n as u128 * 10 + d;
                if next <= usize::MAX as u128 {
                    Some(next as usize)
                } else {
                    None
                }
            },
            (Some(d), None) => None,
            (None, _) => Some(0),
        };
        i += 1;
    }
    assert(text@.take(i as int) =~= text@);
    value
}

fn range_fits(range: &str) -> (r: bool)
    ensures
        r == (range_end(range@) <= usize::MAX),
{
    let parts: Vec<String> = split_text(range, ',');
    assert(texts(parts@).len() == parts@.len());
    assert(texts(parts@)[0] == parts@[0]@);
    let start: Option<usize> = number_at_end(parts[0].as_str());
    let length: Option<usize> = if parts.len() > 1 {
        assert(texts(parts@)[1] == parts@[1]@);
        number_at_end(parts[1].as_str())
    } else {
        Some(1)
    };
    match (start, length) {
        (Some(start), Some(length)) => length <= usize::MAX - start,
        _ => false,
    }
}

fn ranges_fit(ranges: &str) -> (r: bool)
    ensures
        r == (forall|i: int|
            0 <= i < split_on(ranges@, ' ').len() ==> range_end(
                #[trigger] split_on(ranges@, ' ')[i],
            ) <= usize::MAX),
{
    let parts: Vec<String> = split_text(ranges, ' ');
    let ghost views = split_on(ranges@, ' ');
    assert(views.len() == parts@.len());
    let mut i: usize = 0;
    while i < parts.len()
        invariant
            texts(parts@) == views,
            views == split_on(ranges@, ' '),
            views.len() == parts@.len(),
            i <= parts@.len(),
            forall|k: int| 0 <= k < i ==> range_end(#[trigger] views[k]) <= usize::MAX,
        decreases parts@.len() - i,
    {
        assert(views[i as int] == parts@[i as int]@);
        if !range_fits(parts[i].as_str()) {
            return false;
        }
        i += 1;
    }
    true
}

/// The ranges that the head of a hunk names; none for another line.
fn ranges_in(line: &str) -> (r: Option<String>)
    ensures
        match r {
            Some(ranges) => heads_hunk(line@) && ranges@ == named_ranges(line@),
            None => !heads_hunk(line@),
        },
{
    if !text_starts_with(line, "@@ ") {
        return None;
    }
    proof {
        reveal_strlit("@@ ");
    }
    let chars: Vec<char> = chars_of(line);
    let rest: String = string_of(&chars, 3, chars.len());
    assert(rest@ =~= line@.skip(3));
    let parts: Vec<String> = split_text(rest.as_str(), '@');
    assert(texts(parts@)[0] == parts@[0]@);
    Some(parts[0].clone())
}

fn numbers_fit(text: &str) -> (r: bool)
    ensures
        r == line_numbers_fit(text@),
{
    let lines: Vec<String> = split_text(text, '\n');
    let ghost views = split_on(text@, '\n');
    assert(views.len() == lines@.len());
    let mut passed: bool = false;
    let mut i: usize = 0;
    while i < lines.len()
        invariant
            texts(lines@) == views,
            views == split_on(text@, '\n'),
            views.len() == lines@.len(),
            i <= lines@.len(),
            passed <==> exists|k: int|
                0 <= k < i && #[trigger] heads_hunk(views[k]) && !ends_fit(views[k]),
            forall|k: int, j: int|
                0 <= k < j < i && #[trigger] heads_hunk(views[k]) && #[trigger] heads_hunk(
                    views[j],
                ) ==> ends_fit(views[k]),
        decreases lines@.len() - i,
    {
        assert(views[i as int] == lines@[i as int]@);
        match ranges_in(lines[i].as_str()) {
            Some(ranges) => {
                if passed {
                    return false;
                }
                if !ranges_fit(ranges.as_str()) {
                    assert(heads_hunk(views[i as int]));
                    passed = true;
                }
            },
            None => {},
        }
        i += 1;
    }
    true
}

fn patch_hunks(text: &str) -> (r: Option<Vec<DiffHunk>>)
    ensures
        opt_hunks(r) == hunks_of(text@),
{
    if numbers_fit(text) {
        parse_patch(text)
    } else {
        None
    }
}

// ---------------------------------------------------------------------------
// Counting
// ---------------------------------------------------------------------------

/// The lines of all hunks, hunk after hunk.
pub open spec fn all_lines(hunks: Seq<HunkView>) -> Seq<DiffLineView>
    decreases hunks.len(),
{
    if hunks.len() == 0 {
        Seq::empty()
    } else {
        all_lines(hunks.drop_last()) + hunks.last().lines
    }
}

pub open spec fn count_kind(lines: Seq<DiffLineView>, kind: DiffLineKind) -> nat
    decreases lines.len(),
{
    if lines.len() == 0 {
        0
    } else {
        count_kind(lines.drop_last(), kind) + if lines.last().kind == kind {
            1nat
        } else {
            0
        }
    }
}

/// Bytes of all lines.
pub open spec fn lines_size(lines: Seq<DiffLineView>) -> nat
    decreases lines.len(),
{
    if lines.len() == 0 {
        0
    } else {
        lines_size(lines.drop_last()) + byte_len(lines.last().text)
    }
}

/// What the lines of a diff add up to.
struct Totals {
    inserted: usize,
    deleted: usize,
    bytes: usize,
    lines: usize,
}

impl Totals {
    spec fn are(&self, lines: Seq<DiffLineView>) -> bool {
        &&& self.inserted == capped(count_kind(lines, DiffLineKind::Insert))
        &&& self.deleted == capped(count_kind(lines, DiffLineKind::Delete))
        &&& self.bytes == capped(lines_size(lines))
        &&& self.lines == capped(lines.len())
    }
}

fn diff_totals(hunks: &Vec<DiffHunk>) -> (t: Totals)
    ensures
        t.are(all_lines(hunk_views(hunks@))),
{
    let ghost views = hunk_views(hunks@);
    let mut t: Totals = Totals { inserted: 0, deleted: 0, bytes: 0, lines: 0 };
    let mut h: usize = 0;
    while h < hunks.len()
        invariant
            views == hunk_views(hunks@),
            h <= hunks@.len(),
            t.are(all_lines(views.take(h as int))),
        decreases hunks@.len() - h,
    {
        let hunk: &DiffHunk = &hunks[h];
        let ghost before = all_lines(views.take(h as int));
        let ghost lines = hunk@.lines;
        let mut i: usize = 0;
        assert(before + lines.take(0) =~= before);
        while i < hunk.lines.len()
            invariant
                lines == hunk@.lines,
                i <= hunk.lines@.len(),
                t.are(before + lines.take(i as int)),
            decreases hunk.lines@.len() - i,
        {
            let line: &DiffLine = &hunk.lines[i];
            proof {
                assert(lines[i as int] == line@);
                assert((before + lines.take(i + 1)).drop_last() =~= before + lines.take(
                    i as int,
                ));
                assert((before + lines.take(i + 1)).last() == lines[i as int]);
            }
            match line.kind {
                DiffLineKind::Insert => {
                    t.inserted = t.inserted.saturating_add(1);
                },
                DiffLineKind::Delete => {
                    t.deleted = t.deleted.saturating_add(1);
                },
                DiffLineKind::Context => {},
            }
            t.bytes = t.bytes.saturating_add(str_len(line.text.as_str()));
            t.lines = t.lines.saturating_add(1);
            i += 1;
        }
        proof {
            assert(lines.take(i as int) =~= lines);
            assert(views.take(h + 1).drop_last() =~= views.take(h as int));
            assert(views.take(h + 1).last() == hunk@);
        }
        h += 1;
    }
    assert(views.take(h as int) =~= views);
    t
}

/// Lines added and removed by a change.
pub open spec fn counts_of(change: FileChange) -> (usize, usize) {
    match change {
        FileChange::Add { content } => (lines_of(content@).len() as usize, 0),
        FileChange::Delete { content } => (0, lines_of(content@).len() as usize),
        FileChange::Omitted { operation, reason, added, removed, bytes } => (added, removed),
        FileChange::Update { unified_diff, move_path } => match hunks_of(unified_diff@) {
            Some(hunks) => (
                capped(count_kind(all_lines(hunks), DiffLineKind::Insert)),
                capped(count_kind(all_lines(hunks), DiffLineKind::Delete)),
            ),
            None => (0, 0),
        },
    }
}

/// Lines added and removed by `change`.
pub fn line_counts(change: &FileChange) -> (r: (usize, usize))
    ensures
        r == counts_of(*change),
{
    match change {
        FileChange::Add { content } => {
            let lines: Vec<String> = text_lines(content.as_str());
            assert(texts(lines@).len() == lines@.len());
            (lines.len(), 0)
        },
        FileChange::Delete { content } => {
            let lines: Vec<String> = text_lines(content.as_str());
            assert(texts(lines@).len() == lines@.len());
            (0, lines.len())
        },
        FileChange::Omitted { operation, reason, added, removed, bytes } => (*added, *removed),
        FileChange::Update { unified_diff, move_path } => {
            match patch_hunks(unified_diff.as_str()) {
                Some(hunks) => {
                    let t: Totals = diff_totals(&hunks);
                    (t.inserted, t.deleted)
                },
                None => (0, 0),
            }
        },
    }
}

// ---------------------------------------------------------------------------
// One line of a diff
// ---------------------------------------------------------------------------

/// Places a cell, a tab taking four columns.
pub open spec fn tab_filled(rows: Rows, cell: Cell, width: nat) -> Rows {
    let columns = editor_columns(cell.ch);
    if rows.used > 0 && rows.used + columns > width {
        Rows { done: rows.done.push(rows.current), current: seq![cell], used: columns }
    } else {
        Rows { current: rows.current.push(cell), used: rows.used + columns, ..rows }
    }
}

pub open spec fn tab_filled_all(cells: Seq<Cell>, width: nat) -> Rows
    decreases cells.len(),
{
    if cells.len() == 0 {
        crate::wrap::no_rows()
    } else {
        tab_filled(tab_filled_all(cells.drop_last(), width), cells.last(), width)
    }
}

/// Rows of at most `width` columns, as spans.
pub open spec fn tab_rows(spans: Seq<SpanView>, width: nat) -> Seq<Seq<SpanView>> {
    tab_filled_all(cells_of(spans), width).finished().map_values(|r: Seq<Cell>| spans_of(r))
}

fn char_columns_with_tabs(ch: char) -> (n: usize)
    ensures
        n == editor_columns(ch),
        n <= 4,
{
    if ch == '\t' {
        4
    } else {
        char_columns(ch)
    }
}

fn push_row(out: &mut Vec<Vec<Span>>, row: &Vec<Cell>)
    ensures
        span_rows(final(out)@) == span_rows(old(out)@).push(spans_of(row@)),
{
    let spans: Vec<Span> = spans_from_cells(row);
    out.push(spans);
    assert(span_rows(out@) =~= span_rows(old(out)@).push(spans_of(row@)));
}

/// Breaks styled text at `max_cols` columns, a tab taking four of them.
pub fn wrap_styled_spans(spans: Vec<Span>, max_cols: usize) -> (r: Vec<Vec<Span>>)
    ensures
        span_rows(r@) == tab_rows(
            span_views(spans@),
            if max_cols == 0 {
                1
            } else {
                max_cols as nat
            },
        ),
{
    let ghost views = span_views(spans@);
    let width: usize = if max_cols > 0 {
        max_cols
    } else {
        1
    };
    let line: Line = Line::from_spans(spans);
    let cells: Vec<Cell> = line_cells(&line);
    let mut rows: Vec<Vec<Span>> = Vec::new();
    let mut current: Vec<Cell> = Vec::new();
    let mut used: usize = 0;
    let mut i: usize = 0;
    let ghost mut state: Rows = crate::wrap::no_rows();
    assert(span_rows(rows@) =~= state.done.map_values(|r: Seq<Cell>| spans_of(r)));
    assert(current@ =~= state.current);
    while i < cells.len()
        invariant
            width > 0,
            i <= cells@.len(),
            state == tab_filled_all(cells@.take(i as int), width as nat),
            span_rows(rows@) == state.done.map_values(|r: Seq<Cell>| spans_of(r)),
            current@ == state.current,
            used == state.used,
            used <= width || used <= 4,
        decreases cells@.len() - i,
    {
        let cell: Cell = cells[i];
        let columns: usize = char_columns_with_tabs(cell.ch);
        let ghost before = state;
        proof {
            assert(cells@.take(i + 1).drop_last() =~= cells@.take(i as int));
            state = tab_filled(before, cell, width as nat);
        }
        if used > 0 && (columns > width || used > width - columns) {
            push_row(&mut rows, &current);
            assert(span_rows(rows@) =~= state.done.map_values(|r: Seq<Cell>| spans_of(r)));
            current = Vec::new();
            used = 0;
            current.push(cell);
            assert(current@ =~= seq![cell]);
        } else {
            current.push(cell);
        }
        used = used + columns;
        i += 1;
    }
    assert(cells@.take(i as int) =~= cells@);
    if current.len() > 0 || rows.len() == 0 {
        assert(rows@.len() == span_rows(rows@).len());
        push_row(&mut rows, &current);
        assert(span_rows(rows@) =~= state.finished().map_values(|r: Seq<Cell>| spans_of(r)));
    } else {
        assert(rows@.len() == span_rows(rows@).len());
    }
    rows
}

pub open spec fn kind_sign(kind: DiffLineKind) -> Seq<char> {
    match kind {
        DiffLineKind::Insert => "+ "@,
        DiffLineKind::Delete => "- "@,
        DiffLineKind::Context => "  "@,
    }
}

pub open spec fn kind_style(kind: DiffLineKind) -> Style {
    match kind {
        DiffLineKind::Insert => fg_style(Color::Green),
        DiffLineKind::Delete => fg_style(Color::Red),
        DiffLineKind::Context => plain().with_dim(),
    }
}

/// The style of a whole row.
pub open spec fn row_style(config: ConfigView, kind: DiffLineKind) -> Style {
    match kind {
        DiffLineKind::Insert => bg_style(config.add_bg),
        DiffLineKind::Delete => bg_style(config.delete_bg),
        DiffLineKind::Context => plain().with_dim(),
    }
}

/// Highlighted text as it stands in a diff: dimmed unless it was added.
pub open spec fn syntax_span(span: SpanView, kind: DiffLineKind) -> SpanView {
    SpanView {
        content: span.content,
        style: if kind == DiffLineKind::Insert {
            span.style
        } else {
            span.style.with_dim()
        },
    }
}

pub open spec fn syntax_spans(spans: Seq<SpanView>, kind: DiffLineKind) -> Seq<SpanView> {
    spans.map_values(|s: SpanView| syntax_span(s, kind))
}

pub open spec fn content_spans(
    kind: DiffLineKind,
    text: Seq<char>,
    syntax: Option<Seq<SpanView>>,
) -> Seq<SpanView> {
    match syntax {
        Some(spans) => syntax_spans(spans, kind),
        None => seq![span_of(text, kind_style(kind))],
    }
}

/// Columns left for the text behind the line number and the sign.
pub open spec fn content_room(width: nat, number_width: nat) -> nat {
    if width > number_width + 4 {
        (width - number_width - 3) as nat
    } else {
        1
    }
}

/// Row `i` of a diff line: the number on the first row only.
pub open spec fn diff_row(
    config: ConfigView,
    number: nat,
    kind: DiffLineKind,
    number_width: nat,
    chunk: Seq<SpanView>,
    i: int,
) -> LineView {
    let shown = if i == 0 {
        padded_left(numeral(number), number_width)
    } else {
        repeated(' ', number_width)
    };
    LineView {
        spans: seq![
            span_of(shown + " "@, plain().with_dim()),
            span_of(kind_sign(kind), kind_style(kind)),
        ] + chunk,
        style: row_style(config, kind),
    }
}

/// The rows that show one line of a diff.
pub open spec fn diff_line_rows(
    config: ConfigView,
    number: nat,
    kind: DiffLineKind,
    text: Seq<char>,
    width: nat,
    number_width: nat,
    syntax: Option<Seq<SpanView>>,
) -> Seq<LineView> {
    let chunks = tab_rows(
        content_spans(kind, text, syntax),
        content_room(width, number_width),
    );
    Seq::new(
        chunks.len(),
        |i: int| diff_row(config, number, kind, number_width, chunks[i], i),
    )
}

pub open spec fn opt_span_views(spans: Option<&Vec<Span>>) -> Option<Seq<SpanView>> {
    match spans {
        Some(spans) => Some(span_views(spans@)),
        None => None,
    }
}

fn dimmed_spans(spans: &Vec<Span>, kind: DiffLineKind) -> (r: Vec<Span>)
    ensures
        span_views(r@) == syntax_spans(span_views(spans@), kind),
{
    let mut out: Vec<Span> = Vec::new();
    let ghost views = syntax_spans(span_views(spans@), kind);
    let mut i: usize = 0;
    assert(span_views(out@) =~= views.take(0));
    while i < spans.len()
        invariant
            views == syntax_spans(span_views(spans@), kind),
            i <= spans@.len(),
            span_views(out@) == views.take(i as int),
        decreases spans@.len() - i,
    {
        let style: Style = match kind {
            DiffLineKind::Insert => spans[i].style,
            _ => spans[i].style.dim(),
        };
        push_span(&mut out, Span::styled(spans[i].content.as_str(), style));
        proof {
            assert(span_views(spans@)[i as int] == spans@[i as int]@);
            assert(views.take(i + 1) =~= views.take(i as int).push(views[i as int]));
        }
        i += 1;
    }
    assert(views.take(i as int) =~= views);
    out
}

fn diff_line_style(config: &TuiConfig, kind: DiffLineKind) -> (s: Style)
    ensures
        s == row_style(config@, kind),
{
    match kind {
        DiffLineKind::Insert => Style::new().bg(to_color(config.diff_add_bg)),
        DiffLineKind::Delete => Style::new().bg(to_color(config.diff_delete_bg)),
        DiffLineKind::Context => Style::new().dim(),
    }
}

/// Draws one line of a diff.
pub fn render_diff_line(
    config: &TuiConfig,
    line_number: u128,
    kind: DiffLineKind,
    text: &str,
    width: usize,
    line_number_width: usize,
    syntax_spans: Option<&Vec<Span>>,
) -> (r: Vec<Line>)
    ensures
        line_views(r@) == diff_line_rows(
            config@,
            line_number as nat,
            kind,
            text@,
            width as nat,
            line_number_width as nat,
            opt_span_views(syntax_spans),
        ),
{
    let rest: usize = width.saturating_sub(line_number_width).saturating_sub(3);
    let available: usize = if rest > 1 {
        rest
    } else {
        1
    };
    let (sign, style) = match kind {
        DiffLineKind::Insert => ("+ ", Style::new().fg(Color::Green)),
        DiffLineKind::Delete => ("- ", Style::new().fg(Color::Red)),
        DiffLineKind::Context => ("  ", Style::new().dim()),
    };
    let content: Vec<Span> = match syntax_spans {
        Some(spans) => dimmed_spans(spans, kind),
        None => {
            let mut spans: Vec<Span> = Vec::new();
            push_span(&mut spans, Span::styled(text, style));
            assert(span_views(spans@) =~= seq![span_of(text@, style)]);
            spans
        },
    };
    let ghost content_view = span_views(content@);
    let mut chunks: Vec<Vec<Span>> = wrap_styled_spans(content, available);
    let ghost rows = tab_rows(content_view, available as nat);
    let ghost lines = diff_line_rows(
        config@,
        line_number as nat,
        kind,
        text@,
        width as nat,
        line_number_width as nat,
        opt_span_views(syntax_spans),
    );
    let mut out: Vec<Line> = new_lines();
    let mut i: usize = 0;
    assert(line_views(out@) =~= lines.take(0));
    while i < chunks.len()
        invariant
            i <= chunks@.len(),
            chunks@.len() == rows.len(),
            lines.len() == rows.len(),
            forall|k: int| i <= k < rows.len() ==> span_views((#[trigger] chunks@[k])@) == rows[k],
            forall|k: int|
                0 <= k < rows.len() ==> #[trigger] lines[k] == diff_row(
                    config@,
                    line_number as nat,
                    kind,
                    line_number_width as nat,
                    rows[k],
                    k,
                ),
            sign@ == kind_sign(kind),
            style == kind_style(kind),
            line_views(out@) == lines.take(i as int),
        decreases chunks@.len() - i,
    {
        let mut number_text: String = if i == 0 {
            let number: String = decimal(line_number);
            pad_left(number.as_str(), line_number_width)
        } else {
            repeat_char(' ', line_number_width)
        };
        number_text.push_str(" ");
        let mut spans: Vec<Span> = Vec::new();
        push_span(&mut spans, Span::styled(number_text.as_str(), Style::new().dim()));
        push_span(&mut spans, Span::styled(sign, style));
        let ghost head = span_views(spans@);
        let mut chunk: Vec<Span> = Vec::new();
        core::mem::swap(&mut chunk, &mut chunks[i]);
        let ghost body = chunk@;
        spans.append(&mut chunk);
        let line: Line = Line { spans, style: diff_line_style(config, kind) };
        proof {
            assert(head =~= seq![
                span_of(number_text@, plain().with_dim()),
                span_of(kind_sign(kind), kind_style(kind)),
            ]);
            assert(span_views(spans@) =~= head + span_views(body));
            assert(lines.take(i + 1) =~= lines.take(i as int).push(lines[i as int]));
        }
        push_line(&mut out, line);
        i += 1;
    }
    assert(lines.take(i as int) =~= lines);
    out
}

// ---------------------------------------------------------------------------
// Whole changes
// ---------------------------------------------------------------------------

/// Columns of the largest line number.
pub open spec fn number_columns(max_line_number: nat) -> nat {
    numeral(
        if max_line_number == 0 {
            1
        } else {
            max_line_number
        },
    ).len()
}

/// Columns that the line numbers up to `max_line_number` take.
pub fn line_number_width(max_line_number: u128) -> (r: usize)
    ensures
        r == number_columns(max_line_number as nat),
{
    let shown: String = decimal(
        if max_line_number > 0 {
            max_line_number
        } else {
            1
        },
    );
    let chars: Vec<char> = chars_of(shown.as_str());
    chars.len()
}

/// The entry of a line's highlighting.
pub open spec fn row_at(rows: Option<Seq<Seq<SpanView>>>, i: int) -> Option<Seq<SpanView>> {
    match rows {
        Some(rows) => if 0 <= i < rows.len() {
            Some(rows[i])
        } else {
            None
        },
        None => None,
    }
}

fn row_spans(rows: &Option<Vec<Vec<Span>>>, i: usize) -> (r: Option<&Vec<Span>>)
    ensures
        opt_span_views(r) == row_at(opt_span_rows(*rows), i as int),
{
    match rows {
        Some(rows) => {
            if i < rows.len() {
                assert(span_rows(rows@)[i as int] == span_views(rows@[i as int]@));
                Some(&rows[i])
            } else {
                None
            }
        },
        None => None,
    }
}

pub open spec fn opt_highlighted(
    config: ConfigView,
    code: Seq<char>,
    lang: Option<Seq<char>>,
) -> Option<Seq<Seq<SpanView>>> {
    match lang {
        Some(lang) => highlighted(config, code, lang),
        None => None,
    }
}

/// The first `n` lines of a file that was added or deleted.
pub open spec fn file_rows(
    config: ConfigView,
    lines: Seq<Seq<char>>,
    kind: DiffLineKind,
    width: nat,
    number_width: nat,
    syntax: Option<Seq<Seq<SpanView>>>,
    n: nat,
) -> Seq<LineView>
    decreases n,
{
    if n == 0 {
        no_lines()
    } else {
        file_rows(config, lines, kind, width, number_width, syntax, (n - 1) as nat)
            + diff_line_rows(
            config,
            n,
            kind,
            lines[n - 1],
            width,
            number_width,
            row_at(syntax, n - 1),
        )
    }
}

pub open spec fn whole_file(
    config: ConfigView,
    content: Seq<char>,
    kind: DiffLineKind,
    width: nat,
    lang: Option<Seq<char>>,
) -> Seq<LineView> {
    let lines = lines_of(content);
    file_rows(
        config,
        lines,
        kind,
        width,
        number_columns(lines.len()),
        opt_highlighted(config, content, lang),
        lines.len(),
    )
}

pub open spec fn opt_str(o: Option<&str>) -> Option<Seq<char>> {
    match o {
        Some(s) => Some(s@),
        None => None,
    }
}

fn highlight_opt(ctx: &RenderContext, code: &str, lang: Option<&str>) -> (r: Option<Vec<Vec<Span>>>)
    ensures
        opt_span_rows(r) == opt_highlighted(ctx.config@, code@, opt_str(lang)),
{
    match lang {
        Some(lang) => highlight_code_to_styled_spans(&ctx.config, &ctx.library, code, lang),
        None => None,
    }
}

/// Draws a file that was added or deleted.
pub fn render_whole_file(
    ctx: &RenderContext,
    content: &str,
    kind: DiffLineKind,
    width: usize,
    lang: Option<&str>,
) -> (r: Vec<Line>)
    ensures
        line_views(r@) == whole_file(ctx.config@, content@, kind, width as nat, opt_str(lang)),
{
    let lines: Vec<String> = text_lines(content);
    let ghost views = lines_of(content@);
    assert(texts(lines@).len() == lines@.len());
    let number_width: usize = line_number_width(lines.len() as u128);
    let syntax: Option<Vec<Vec<Span>>> = highlight_opt(ctx, content, lang);
    let mut out: Vec<Line> = new_lines();
    let mut i: usize = 0;
    while i < lines.len()
        invariant
            texts(lines@) == views,
            i <= lines@.len(),
            line_views(out@) == file_rows(
                ctx.config@,
                views,
                kind,
                width as nat,
                number_width as nat,
                opt_span_rows(syntax),
                i as nat,
            ),
        decreases lines@.len() - i,
    {
        assert(texts(lines@)[i as int] == lines@[i as int]@);
        let rows: Vec<Line> = render_diff_line(
            &ctx.config,
            i as u128 + 1,
            kind,
            lines[i].as_str(),
            width,
            number_width,
            row_spans(&syntax, i),
        );
        append_lines(&mut out, rows);
        i += 1;
    }
    out
}

/// The largest line number behind any hunk.
pub open spec fn last_line_number(hunks: Seq<HunkView>) -> nat
    decreases hunks.len(),
{
    if hunks.len() == 0 {
        0
    } else {
        let before = last_line_number(hunks.drop_last());
        let h = hunks.last();
        let old_end = (h.old_start + h.old_len) as nat;
        let new_end = (h.new_start + h.new_len) as nat;
        if before >= old_end && before >= new_end {
            before
        } else if old_end >= new_end {
            old_end
        } else {
            new_end
        }
    }
}

fn max_line_number(hunks: &Vec<DiffHunk>) -> (r: u128)
    ensures
        r == last_line_number(hunk_views(hunks@)),
{
    let ghost views = hunk_views(hunks@);
    let mut max: u128 = 0;
    let mut i: usize = 0;
    while i < hunks.len()
        invariant
            views == hunk_views(hunks@),
            i <= hunks@.len(),
            max == last_line_number(views.take(i as int)),
        decreases hunks@.len() - i,
    {
        proof {
            assert(views.take(i + 1).drop_last() =~= views.take(i as int));
            assert(views.take(i + 1).last() == hunks@[i as int]@);
        }
        let old_end: u128 = hunks[i].old_start as u128 + hunks[i].old_len as u128;
        let new_end: u128 = hunks[i].new_start as u128 + hunks[i].new_len as u128;
        if old_end > max {
            max = old_end;
        }
        if new_end > max {
            max = new_end;
        }
        i += 1;
    }
    assert(views.take(i as int) =~= views);
    max
}

/// The text of a hunk's lines, one after the other.
pub open spec fn hunk_text(lines: Seq<DiffLineView>) -> Seq<char>
    decreases lines.len(),
{
    if lines.len() == 0 {
        Seq::empty()
    } else {
        hunk_text(lines.drop_last()) + lines.last().text
    }
}

fn joined_text(lines: &Vec<DiffLine>) -> (r: String)
    ensures
        r@ == hunk_text(diff_line_views(lines@)),
{
    let ghost views = diff_line_views(lines@);
    let mut out: String = String::new();
    let mut i: usize = 0;
    while i < lines.len()
        invariant
            views == diff_line_views(lines@),
            i <= lines@.len(),
            out@ == hunk_text(views.take(i as int)),
        decreases lines@.len() - i,
    {
        out.push_str(lines[i].text.as_str());
        proof {
            assert(views.take(i + 1).drop_last() =~= views.take(i as int));
            assert(views.take(i + 1).last() == lines@[i as int]@);
        }
        i += 1;
    }
    assert(views.take(i as int) =~= views);
    out
}

/// A hunk highlighted as one block of source; used only where the lines match.
pub open spec fn hunk_syntax(
    config: ConfigView,
    hunk: HunkView,
    lang: Option<Seq<char>>,
) -> Option<Seq<Seq<SpanView>>> {
    match opt_highlighted(config, hunk_text(hunk.lines), lang) {
        Some(rows) => if rows.len() == hunk.lines.len() {
            Some(rows)
        } else {
            None
        },
        None => None,
    }
}

/// Line numbers in the old and the new file behind the first `n` lines of a
/// hunk.
pub open spec fn numbers_behind(hunk: HunkView, n: nat) -> (nat, nat)
    decreases n,
{
    if n == 0 {
        (hunk.old_start as nat, hunk.new_start as nat)
    } else {
        let (old_line, new_line) = numbers_behind(hunk, (n - 1) as nat);
        match hunk.lines[n - 1].kind {
            DiffLineKind::Insert => (old_line, new_line + 1),
            DiffLineKind::Delete => (old_line + 1, new_line),
            DiffLineKind::Context => (old_line + 1, new_line + 1),
        }
    }
}

/// The number shown beside line `i`: in the old file for a deleted line.
pub open spec fn shown_number(hunk: HunkView, i: nat) -> nat {
    let (old_line, new_line) = numbers_behind(hunk, i);
    if hunk.lines[i as int].kind == DiffLineKind::Delete {
        old_line
    } else {
        new_line
    }
}

/// The first `n` lines of a hunk.
pub open spec fn hunk_rows(
    config: ConfigView,
    hunk: HunkView,
    width: nat,
    number_width: nat,
    syntax: Option<Seq<Seq<SpanView>>>,
    n: nat,
) -> Seq<LineView>
    decreases n,
{
    if n == 0 {
        no_lines()
    } else {
        let line = hunk.lines[n - 1];
        hunk_rows(config, hunk, width, number_width, syntax, (n - 1) as nat) + diff_line_rows(
            config,
            shown_number(hunk, (n - 1) as nat),
            line.kind,
            trim_end_chars(line.text, '\n', '\n'),
            width,
            number_width,
            row_at(syntax, n - 1),
        )
    }
}

fn render_hunk(
    config: &TuiConfig,
    hunk: &DiffHunk,
    width: usize,
    number_width: usize,
    syntax: &Option<Vec<Vec<Span>>>,
) -> (r: Vec<Line>)
    ensures
        line_views(r@) == hunk_rows(
            config@,
            hunk@,
            width as nat,
            number_width as nat,
            opt_span_rows(*syntax),
            hunk@.lines.len(),
        ),
{
    let mut out: Vec<Line> = new_lines();
    let mut old_line: u128 = hunk.old_start as u128;
    let mut new_line: u128 = hunk.new_start as u128;
    let mut i: usize = 0;
    while i < hunk.lines.len()
        invariant
            i <= hunk.lines@.len(),
            (old_line as nat, new_line as nat) == numbers_behind(hunk@, i as nat),
            old_line <= hunk.old_start + i,
            new_line <= hunk.new_start + i,
            line_views(out@) == hunk_rows(
                config@,
                hunk@,
                width as nat,
                number_width as nat,
                opt_span_rows(*syntax),
                i as nat,
            ),
        decreases hunk.lines@.len() - i,
    {
        let line: &DiffLine = &hunk.lines[i];
        assert(hunk@.lines[i as int] == line@);
        let text: String = trim_end_of(line.text.as_str(), '\n', '\n');
        let number: u128 = match line.kind {
            DiffLineKind::Delete => old_line,
            _ => new_line,
        };
        let rows: Vec<Line> = render_diff_line(
            config,
            number,
            line.kind,
            text.as_str(),
            width,
            number_width,
            row_spans(syntax, i),
        );
        append_lines(&mut out, rows);
        match line.kind {
            DiffLineKind::Insert => {
                new_line = new_line + 1;
            },
            DiffLineKind::Delete => {
                old_line = old_line + 1;
            },
            DiffLineKind::Context => {
                old_line = old_line + 1;
                new_line = new_line + 1;
            },
        }
        i += 1;
    }
    out
}

/// The row between two hunks.
pub open spec fn gap_row(number_width: nat) -> LineView {
    line_of(
        seq![
            span_of(repeated(' ', number_width) + "  "@, plain().with_dim()),
            span_of("⋮"@, plain().with_dim()),
        ],
    )
}

fn gap_line(number_width: usize) -> (r: Line)
    ensures
        r@ == gap_row(number_width as nat),
{
    let mut gutter: String = repeat_char(' ', number_width);
    gutter.push_str("  ");
    let mut spans: Vec<Span> = Vec::new();
    push_span(&mut spans, Span::styled(gutter.as_str(), Style::new().dim()));
    push_span(&mut spans, Span::styled("⋮", Style::new().dim()));
    assert(span_views(spans@) =~= gap_row(number_width as nat).spans);
    Line::from_spans(spans)
}

/// The first `n` hunks, a gap in front of each but the first.
pub open spec fn hunks_rows(
    config: ConfigView,
    hunks: Seq<HunkView>,
    width: nat,
    number_width: nat,
    lang: Option<Seq<char>>,
    n: nat,
) -> Seq<LineView>
    decreases n,
{
    if n == 0 {
        no_lines()
    } else {
        let before = hunks_rows(config, hunks, width, number_width, lang, (n - 1) as nat);
        let gapped = if n > 1 {
            before.push(gap_row(number_width))
        } else {
            before
        };
        let hunk = hunks[n - 1];
        gapped + hunk_rows(
            config,
            hunk,
            width,
            number_width,
            hunk_syntax(config, hunk, lang),
            hunk.lines.len(),
        )
    }
}

/// The language used for highlighting: none where the diff is too large.
pub open spec fn diff_language(
    config: ConfigView,
    hunks: Seq<HunkView>,
    lang: Option<Seq<char>>,
) -> Option<Seq<char>> {
    let lines = all_lines(hunks);
    if exceeds_limits(config, capped(lines_size(lines)) as nat, capped(lines.len()) as nat) {
        None
    } else {
        lang
    }
}

/// The rows that show the hunks of a diff.
pub open spec fn shown_hunks(
    config: ConfigView,
    hunks: Seq<HunkView>,
    width: nat,
    lang: Option<Seq<char>>,
) -> Seq<LineView> {
    hunks_rows(
        config,
        hunks,
        width,
        number_columns(last_line_number(hunks)),
        diff_language(config, hunks, lang),
        hunks.len(),
    )
}

/// Draws the hunks of a diff.
pub fn render_hunks(
    ctx: &RenderContext,
    hunks: &Vec<DiffHunk>,
    width: usize,
    lang: Option<&str>,
) -> (r: Vec<Line>)
    ensures
        line_views(r@) == shown_hunks(
            ctx.config@,
            hunk_views(hunks@),
            width as nat,
            opt_str(lang),
        ),
{
    let ghost views = hunk_views(hunks@);
    let number_width: usize = line_number_width(max_line_number(hunks));
    let totals: Totals = diff_totals(hunks);
    let diff_lang: Option<&str> = if exceeds_highlight_limits(
        &ctx.config,
        totals.bytes,
        totals.lines,
    ) {
        None
    } else {
        lang
    };
    let mut out: Vec<Line> = new_lines();
    let mut i: usize = 0;
    while i < hunks.len()
        invariant
            views == hunk_views(hunks@),
            i <= hunks@.len(),
            opt_str(diff_lang) == diff_language(ctx.config@, views, opt_str(lang)),
            line_views(out@) == hunks_rows(
                ctx.config@,
                views,
                width as nat,
                number_width as nat,
                opt_str(diff_lang),
                i as nat,
            ),
        decreases hunks@.len() - i,
    {
        let hunk: &DiffHunk = &hunks[i];
        assert(views[i as int] == hunk@);
        if i > 0 {
            push_line(&mut out, gap_line(number_width));
        }
        let source: String = joined_text(&hunk.lines);
        let syntax: Option<Vec<Vec<Span>>> = match highlight_opt(ctx, source.as_str(), diff_lang) {
            Some(rows) => {
                assert(span_rows(rows@).len() == rows@.len());
                if rows.len() == hunk.lines.len() {
                    Some(rows)
                } else {
                    None
                }
            },
            None => None,
        };
        let rows: Vec<Line> = render_hunk(&ctx.config, hunk, width, number_width, &syntax);
        append_lines(&mut out, rows);
        i += 1;
    }
    out
}

/// The first `n` lines of a text, wrapped at the exact column.
pub open spec fn plain_rows(lines: Seq<Seq<char>>, width: nat, n: nat) -> Seq<LineView>
    decreases n,
{
    if n == 0 {
        no_lines()
    } else {
        plain_rows(lines, width, (n - 1) as nat) + char_wrapped(
            line_of(seq![raw_of(lines[n - 1])]),
            width,
            0,
        )
    }
}

/// A unified diff; the text as it is where it cannot be read as one.
pub open spec fn unified_diff_rows(
    config: ConfigView,
    diff: Seq<char>,
    width: nat,
    lang: Option<Seq<char>>,
) -> Seq<LineView> {
    match hunks_of(diff) {
        Some(hunks) => shown_hunks(config, hunks, width, lang),
        None => plain_rows(lines_of(diff), width, lines_of(diff).len()),
    }
}

/// Draws a unified diff.
pub fn render_unified_diff(
    ctx: &RenderContext,
    unified_diff: &str,
    width: usize,
    lang: Option<&str>,
) -> (r: Vec<Line>)
    ensures
        line_views(r@) == unified_diff_rows(
            ctx.config@,
            unified_diff@,
            width as nat,
            opt_str(lang),
        ),
{
    if let Some(hunks) = patch_hunks(unified_diff) {
        return render_hunks(ctx, &hunks, width, lang);
    }
    let lines: Vec<String> = text_lines(unified_diff);
    let ghost views = lines_of(unified_diff@);
    let mut out: Vec<Line> = new_lines();
    let mut i: usize = 0;
    while i < lines.len()
        invariant
            texts(lines@) == views,
            i <= lines@.len(),
            line_views(out@) == plain_rows(views, width as nat, i as nat),
        decreases lines@.len() - i,
    {
        assert(texts(lines@)[i as int] == lines@[i as int]@);
        append_lines(&mut out, wrap_line_char(&Line::from_span(Span::raw(lines[i].as_str())), width));
        i += 1;
    }
    assert(texts(lines@).len() == lines@.len());
    out
}

// ---------------------------------------------------------------------------
// Paths
// ---------------------------------------------------------------------------

/// Whether a piece of a path names something: not empty, not the directory
/// itself.
pub open spec fn names_entry(piece: Seq<char>) -> bool {
    piece.len() > 0 && piece != "."@
}

/// The last component of a path that names something.
pub open spec fn last_component(pieces: Seq<Seq<char>>) -> Option<Seq<char>>
    decreases pieces.len(),
{
    if pieces.len() == 0 {
        None
    } else if names_entry(pieces.last()) {
        Some(pieces.last())
    } else {
        last_component(pieces.drop_last())
    }
}

/// The part of a file name behind its last dot; none without a dot, or with
/// only a leading one.
pub open spec fn name_extension(name: Seq<char>) -> Option<Seq<char>> {
    if name == ".."@ {
        None
    } else {
        match crate::markdown_stream::last_index(name, '.') {
            Some(i) => if i == 0 {
                None
            } else {
                Some(name.skip((i + 1) as int))
            },
            None => None,
        }
    }
}

pub open spec fn path_extension(path: Seq<char>) -> Option<Seq<char>> {
    match last_component(split_on(path, '/')) {
        Some(name) => name_extension(name),
        None => None,
    }
}

fn extension_of(path: &str) -> (r: Option<String>)
    ensures
        crate::protocol::opt_text(r) == path_extension(path@),
{
    let pieces: Vec<String> = split_text(path, '/');
    let ghost views = split_on(path@, '/');
    let mut n: usize = pieces.len();
    assert(views.take(n as int) =~= views) by {
        assert(texts(pieces@).len() == pieces@.len());
    }
    while n > 0
        invariant
            texts(pieces@) == views,
            views == split_on(path@, '/'),
            n <= pieces@.len(),
            last_component(views) == last_component(views.take(n as int)),
        decreases n,
    {
        let piece: &String = &pieces[n - 1];
        proof {
            assert(views[n - 1] == piece@);
            assert(views.take(n as int).drop_last() =~= views.take(n - 1));
        }
        if !piece.as_str().is_empty() && !same_text(piece.as_str(), ".") {
            if same_text(piece.as_str(), "..") {
                return None;
            }
            let chars: Vec<char> = chars_of(piece.as_str());
            return match crate::markdown_stream::find_last(&chars, '.') {
                Some(i) => {
                    if i == 0 {
                        None
                    } else {
                        let out: String = string_of(&chars, i + 1, chars.len());
                        assert(out@ =~= piece@.skip(i + 1));
                        Some(out)
                    }
                },
                None => None,
            };
        }
        n -= 1;
    }
    None
}

/// The name under which a change is shown; a move shows both paths.
pub open spec fn path_label(change: FileChangeOutput) -> Seq<char> {
    match change.change {
        FileChange::Update { unified_diff, move_path: Some(to) } => change.path@ + " -> "@ + to@,
        _ => change.path@,
    }
}

/// The name under which `change` is shown.
pub fn file_change_path_label(change: &FileChangeOutput) -> (r: String)
    ensures
        r@ == path_label(*change),
{
    match &change.change {
        FileChange::Update { unified_diff, move_path: Some(to) } => {
            let mut out: String = change.path.clone();
            out.push_str(" -> ");
            out.push_str(to.as_str());
            out
        },
        _ => change.path.clone(),
    }
}

/// The language of a changed file: the extension of its new path.
pub open spec fn change_language(change: FileChangeOutput) -> Option<Seq<char>> {
    match change.change {
        FileChange::Update { unified_diff, move_path: Some(to) } => path_extension(to@),
        _ => path_extension(change.path@),
    }
}

fn detect_lang_for_change(change: &FileChangeOutput) -> (r: Option<String>)
    ensures
        crate::protocol::opt_text(r) == change_language(*change),
{
    match &change.change {
        FileChange::Update { unified_diff, move_path: Some(to) } => extension_of(to.as_str()),
        _ => extension_of(change.path.as_str()),
    }
}

// ---------------------------------------------------------------------------
// Summaries
// ---------------------------------------------------------------------------

pub open spec fn operation_word(operation: FileChangeOperation) -> Seq<char> {
    match operation {
        FileChangeOperation::Add => "Added"@,
        FileChangeOperation::Delete => "Deleted"@,
        FileChangeOperation::Update => "Edited"@,
    }
}

pub open spec fn change_word(change: FileChange) -> Seq<char> {
    match change {
        FileChange::Add { content } => "Added"@,
        FileChange::Delete { content } => "Deleted"@,
        FileChange::Update { unified_diff, move_path } => if move_path is Some {
            "Moved"@
        } else {
            "Edited"@
        },
        FileChange::Omitted { operation, reason, added, removed, bytes } => operation_word(
            operation,
        ),
    }
}

fn change_verb(change: &FileChange) -> (r: &'static str)
    ensures
        r@ == change_word(*change),
{
    match change {
        FileChange::Add { content } => "Added",
        FileChange::Delete { content } => "Deleted",
        FileChange::Update { unified_diff, move_path } => {
            if move_path.is_some() {
                "Moved"
            } else {
                "Edited"
            }
        },
        FileChange::Omitted { operation, reason, added, removed, bytes } => match operation {
            FileChangeOperation::Add => "Added",
            FileChangeOperation::Delete => "Deleted",
            FileChangeOperation::Update => "Edited",
        },
    }
}

/// The body of a change, without its summary.
pub open spec fn change_rows(config: ConfigView, change: FileChangeOutput, width: nat) -> Seq<
    LineView,
> {
    let lang = change_language(change);
    match change.change {
        FileChange::Add { content } => whole_file(
            config,
            content@,
            DiffLineKind::Insert,
            width,
            lang,
        ),
        FileChange::Delete { content } => whole_file(
            config,
            content@,
            DiffLineKind::Delete,
            width,
            lang,
        ),
        FileChange::Update { unified_diff, move_path } => unified_diff_rows(
            config,
            unified_diff@,
            width,
            lang,
        ),
        FileChange::Omitted { operation, reason, added, removed, bytes } => char_wrapped(
            line_of(
                seq![
                    span_of("⋮ "@, plain().with_dim()),
                    span_of(
                        "diff omitted ("@ + numeral(bytes as nat) + " bytes): "@ + reason@,
                        plain().with_dim(),
                    ),
                ],
            ),
            width,
            0,
        ),
    }
}

fn render_change(ctx: &RenderContext, change: &FileChangeOutput, width: usize) -> (r: Vec<Line>)
    ensures
        line_views(r@) == change_rows(ctx.config@, *change, width as nat),
{
    let detected: Option<String> = detect_lang_for_change(change);
    let lang: Option<&str> = match &detected {
        Some(lang) => Some(lang.as_str()),
        None => None,
    };
    assert(opt_str(lang) == change_language(*change));
    match &change.change {
        FileChange::Add { content } => render_whole_file(
            ctx,
            content.as_str(),
            DiffLineKind::Insert,
            width,
            lang,
        ),
        FileChange::Delete { content } => render_whole_file(
            ctx,
            content.as_str(),
            DiffLineKind::Delete,
            width,
            lang,
        ),
        FileChange::Update { unified_diff, move_path } => render_unified_diff(
            ctx,
            unified_diff.as_str(),
            width,
            lang,
        ),
        FileChange::Omitted { operation, reason, added, removed, bytes } => {
            let mut text: String = owned("diff omitted (");
            let number: String = decimal(*bytes as u128);
            text.push_str(number.as_str());
            text.push_str(" bytes): ");
            text.push_str(reason.as_str());
            let mut spans: Vec<Span> = Vec::new();
            push_span(&mut spans, Span::styled("⋮ ", Style::new().dim()));
            push_span(&mut spans, Span::styled(text.as_str(), Style::new().dim()));
            assert(span_views(spans@) =~= seq![
                span_of("⋮ "@, plain().with_dim()),
                span_of(text@, plain().with_dim()),
            ]);
            wrap_line_char(&Line::from_spans(spans), width)
        },
    }
}

/// The counts in brackets behind a summary.
pub open spec fn count_spans(added: usize, removed: usize) -> Seq<SpanView> {
    seq![
        raw_of("("@),
        span_of("+"@ + numeral(added as nat), fg_style(Color::Green)),
        raw_of(" "@),
        span_of("-"@ + numeral(removed as nat), fg_style(Color::Red)),
        raw_of(")"@),
    ]
}

fn push_counts(spans: &mut Vec<Span>, added: usize, removed: usize)
    ensures
        span_views(final(spans)@) == span_views(old(spans)@) + count_spans(added, removed),
{
    let mut plus: String = owned("+");
    let added_text: String = decimal(added as u128);
    plus.push_str(added_text.as_str());
    let mut minus: String = owned("-");
    let removed_text: String = decimal(removed as u128);
    minus.push_str(removed_text.as_str());
    push_span(spans, Span::raw("("));
    push_span(spans, Span::styled(plus.as_str(), Style::new().fg(Color::Green)));
    push_span(spans, Span::raw(" "));
    push_span(spans, Span::styled(minus.as_str(), Style::new().fg(Color::Red)));
    push_span(spans, Span::raw(")"));
    assert(span_views(spans@) =~= span_views(old(spans)@) + count_spans(added, removed));
}

/// A row of the body, indented under the summary.
pub open spec fn indented(line: LineView) -> LineView {
    LineView { spans: seq![raw_of("    "@)] + line.spans, style: line.style }
}

pub open spec fn indented_lines(lines: Seq<LineView>) -> Seq<LineView> {
    lines.map_values(|l: LineView| indented(l))
}

pub open spec fn truncation_row(max_rendered: usize) -> LineView {
    line_of(
        seq![
            raw_of("    "@),
            span_of(
                "⋮ diff truncated after "@ + numeral(max_rendered as nat) + " rendered lines"@,
                plain().with_dim(),
            ),
        ],
    )
}

/// At most the configured number of body rows.
pub open spec fn shown_body(config: ConfigView, rows: Seq<LineView>) -> Seq<LineView> {
    if rows.len() > config.max_diff_lines {
        indented_lines(rows.take(config.max_diff_lines as int)).push(
            truncation_row(config.max_diff_lines),
        )
    } else {
        indented_lines(rows)
    }
}

pub open spec fn diff_room(width: u16) -> nat {
    if width > 5 {
        (width - 4) as nat
    } else {
        1
    }
}

pub open spec fn columns_of(width: u16) -> nat {
    if width == 0 {
        1
    } else {
        width as nat
    }
}

/// The summary of a change and its body.
pub open spec fn diff_summary(config: ConfigView, change: FileChangeOutput, width: u16) -> Seq<
    LineView,
> {
    let (added, removed) = counts_of(change.change);
    let head = line_of(
        seq![
            span_of("• "@, plain().with_dim()),
            raw_of(change_word(change.change) + " 1 file "@),
        ] + count_spans(added, removed),
    );
    let path = line_of(
        seq![raw_of("  "@), raw_of(path_label(change)), raw_of(" "@)] + count_spans(
            added,
            removed,
        ),
    );
    char_wrapped(head, columns_of(width), 2) + char_wrapped(path, columns_of(width), 2)
        + shown_body(config, change_rows(config, change, diff_room(width)))
}

/// The configured number of body rows that a diff may take.
pub fn max_rendered_diff_lines(config: &TuiConfig) -> (r: usize)
    ensures
        r == config@.max_diff_lines,
{
    config.max_rendered_diff_lines
}

/// Draws a change: what was done, the file's name, and the diff.
pub fn create_diff_summary(ctx: &RenderContext, change: &FileChangeOutput, width: u16) -> (r: Vec<
    Line,
>)
    ensures
        line_views(r@) == diff_summary(ctx.config@, *change, width),
{
    let (added, removed) = line_counts(&change.change);
    let wrap_width: usize = if width > 0 {
        width as usize
    } else {
        1
    };
    let mut verb: String = owned(change_verb(&change.change));
    verb.push_str(" 1 file ");
    let mut head: Vec<Span> = Vec::new();
    push_span(&mut head, Span::styled("• ", Style::new().dim()));
    push_span(&mut head, Span::raw(verb.as_str()));
    assert(span_views(head@) =~= seq![span_of("• "@, plain().with_dim()), raw_of(verb@)]);
    push_counts(&mut head, added, removed);
    let mut lines: Vec<Line> = wrap_line_char_hanging(&Line::from_spans(head), wrap_width, 2);
    let label: String = file_change_path_label(change);
    let mut path: Vec<Span> = Vec::new();
    push_span(&mut path, Span::raw("  "));
    push_span(&mut path, Span::raw(label.as_str()));
    push_span(&mut path, Span::raw(" "));
    assert(span_views(path@) =~= seq![raw_of("  "@), raw_of(label@), raw_of(" "@)]);
    push_counts(&mut path, added, removed);
    append_lines(&mut lines, wrap_line_char_hanging(&Line::from_spans(path), wrap_width, 2));
    let ghost summary = line_views(lines@);

    let room: usize = if width > 5 {
        (width - 4) as usize
    } else {
        1
    };
    let body: Vec<Line> = render_change(ctx, change, room);
    let ghost rows = line_views(body@);
    let max_rendered: usize = max_rendered_diff_lines(&ctx.config);
    let shown: usize = if body.len() > max_rendered {
        max_rendered
    } else {
        body.len()
    };
    let mut i: usize = 0;
    assert(summary + indented_lines(rows.take(0)) =~= summary);
    while i < shown
        invariant
            rows == line_views(body@),
            i <= shown <= body@.len(),
            line_views(lines@) == summary + indented_lines(rows.take(i as int)),
        decreases shown - i,
    {
        let row: &Line = &body[i];
        let copy: Line = row.duplicate();
        let style: Style = copy.style;
        let mut spans: Vec<Span> = Vec::new();
        push_span(&mut spans, Span::raw("    "));
        assert(span_views(spans@) =~= seq![raw_of("    "@)]);
        let mut rest: Vec<Span> = copy.spans;
        let ghost tail = rest@;
        spans.append(&mut rest);
        assert(span_views(spans@) =~= seq![raw_of("    "@)] + span_views(tail));
        push_line(&mut lines, Line { spans, style });
        proof {
            assert(rows[i as int] == row@);
            assert(rows.take(i + 1) =~= rows.take(i as int).push(rows[i as int]));
            assert(indented_lines(rows.take(i + 1)) =~= indented_lines(rows.take(i as int)).push(
                indented(rows[i as int]),
            ));
            assert(line_views(lines@) =~= summary + indented_lines(rows.take(i + 1)));
        }
        i += 1;
    }
    if body.len() > max_rendered {
        let mut text: String = owned("⋮ diff truncated after ");
        let number: String = decimal(max_rendered as u128);
        text.push_str(number.as_str());
        text.push_str(" rendered lines");
        let mut spans: Vec<Span> = Vec::new();
        push_span(&mut spans, Span::raw("    "));
        push_span(&mut spans, Span::styled(text.as_str(), Style::new().dim()));
        assert(span_views(spans@) =~= truncation_row(max_rendered).spans);
        push_line(&mut lines, Line::from_spans(spans));
    } else {
        assert(rows.take(i as int) =~= rows);
    }
    assert(line_views(lines@) =~= summary + shown_body(ctx.config@, rows));
    lines
}

/// However long a diff is, its body takes at most the configured number of
/// rows and one more that tells what was left out.
pub proof fn diff_body_is_capped(config: ConfigView, rows: Seq<LineView>)
    ensures
        shown_body(config, rows).len() <= config.max_diff_lines + 1,
        rows.len() <= config.max_diff_lines ==> shown_body(config, rows).len() == rows.len(),
{
}

// ---------------------------------------------------------------------------
// What a diff shows
// ---------------------------------------------------------------------------

/// Every row of a diff line carries the sign of its kind in the colour of its
/// kind; the number stands right-aligned on the first row, and the rows below
/// it are indented as far.
pub proof fn diff_rows_carry_number_and_sign(
    config: ConfigView,
    number: nat,
    kind: DiffLineKind,
    text: Seq<char>,
    width: nat,
    number_width: nat,
    syntax: Option<Seq<SpanView>>,
)
    ensures
        ({
            let rows = diff_line_rows(config, number, kind, text, width, number_width, syntax);
            &&& rows.len() > 0
            &&& rows[0].spans[0].content == padded_left(numeral(number), number_width) + " "@
            &&& forall|i: int|
                1 <= i < rows.len() ==> (#[trigger] rows[i]).spans[0].content == repeated(
                    ' ',
                    number_width,
                ) + " "@
            &&& forall|i: int|
                0 <= i < rows.len() ==> (#[trigger] rows[i]).spans.len() >= 2
                    && rows[i].spans[1].content == (match kind {
                    DiffLineKind::Insert => "+ "@,
                    DiffLineKind::Delete => "- "@,
                    DiffLineKind::Context => "  "@,
                })
            &&& forall|i: int|
                0 <= i < rows.len() ==> match kind {
                    DiffLineKind::Insert => (#[trigger] rows[i]).style.bg == Some(config.add_bg)
                        && rows[i].spans[1].style.fg == Some(Color::Green),
                    DiffLineKind::Delete => rows[i].style.bg == Some(config.delete_bg)
                        && rows[i].spans[1].style.fg == Some(Color::Red),
                    DiffLineKind::Context => rows[i].style.bg is None
                        && rows[i].spans[1].style.fg is None,
                }
        }),
{
}

/// The cells of rows, one row after the other.
pub open spec fn rows_cells(rows: Seq<Seq<SpanView>>) -> Seq<Cell>
    decreases rows.len(),
{
    if rows.len() == 0 {
        Seq::empty()
    } else {
        rows_cells(rows.drop_last()) + cells_of(rows.last())
    }
}

proof fn lemma_tab_filled_keeps(cells: Seq<Cell>, width: nat)
    ensures
        tab_filled_all(cells, width).placed() == cells,
    decreases cells.len(),
{
    if cells.len() == 0 {
        assert(crate::wrap::no_rows().placed() =~= cells);
    } else {
        let init = cells.drop_last();
        let before = tab_filled_all(init, width);
        lemma_tab_filled_keeps(init, width);
        before.lemma_broken_placed();
        let cell = cells.last();
        assert(before.extended(cell).placed() =~= before.placed().push(cell));
        assert(before.broken().extended(cell).placed() =~= before.broken().placed().push(cell));
        assert(init.push(cell) =~= cells);
    }
}

/// Breaking the text of a diff line over rows keeps every character of it, with
/// its style and in order.
pub proof fn diff_text_is_kept(spans: Seq<SpanView>, width: nat)
    ensures
        rows_cells(tab_rows(spans, width)) == cells_of(spans),
        tab_rows(spans, width).len() > 0,
{
    let cells = cells_of(spans);
    let state = tab_filled_all(cells, width);
    lemma_tab_filled_keeps(cells, width);
    state.lemma_finished_cells();
    lemma_rows_cells(state.finished());
}

proof fn lemma_rows_cells(rows: Seq<Seq<Cell>>)
    ensures
        rows_cells(rows.map_values(|r: Seq<Cell>| spans_of(r))) == crate::wrap::all_cells(rows),
    decreases rows.len(),
{
    let mapped = rows.map_values(|r: Seq<Cell>| spans_of(r));
    if rows.len() > 0 {
        lemma_rows_cells(rows.drop_last());
        assert(mapped.drop_last() =~= rows.drop_last().map_values(|r: Seq<Cell>| spans_of(r)));
        crate::wrap::spans_show_their_cells(rows.last());
    }
}

/// The rows behind the number and the sign of a diff line hold its text.
pub proof fn diff_lines_show_their_text(
    config: ConfigView,
    number: nat,
    kind: DiffLineKind,
    text: Seq<char>,
    width: nat,
    number_width: nat,
)
    ensures
        ({
            let rows = diff_line_rows(config, number, kind, text, width, number_width, None);
            rows_cells(Seq::new(rows.len(), |i: int| rows[i].spans.skip(2))) == cells_of(
                seq![
                    SpanView {
                        content: text,
                        style: match kind {
                            DiffLineKind::Insert => fg_style(Color::Green),
                            DiffLineKind::Delete => fg_style(Color::Red),
                            DiffLineKind::Context => plain().with_dim(),
                        },
                    },
                ],
            )
        }),
{
    let spans = content_spans(kind, text, None);
    let room = content_room(width, number_width);
    let chunks = tab_rows(spans, room);
    let rows = diff_line_rows(config, number, kind, text, width, number_width, None);
    diff_text_is_kept(spans, room);
    assert forall|i: int| 0 <= i < rows.len() implies (#[trigger] rows[i]).spans.skip(2)
        == chunks[i] by {
        assert(rows[i].spans.skip(2) =~= chunks[i]);
    }
    assert(Seq::new(rows.len(), |i: int| rows[i].spans.skip(2)) =~= chunks);
}

proof fn lemma_counts(hunk: HunkView, i: nat)
    requires
        i <= hunk.lines.len(),
    ensures
        numbers_behind(hunk, i).0 == hunk.old_start + count_kind(
            hunk.lines.take(i as int),
            DiffLineKind::Delete,
        ) + count_kind(hunk.lines.take(i as int), DiffLineKind::Context),
        numbers_behind(hunk, i).1 == hunk.new_start + count_kind(
            hunk.lines.take(i as int),
            DiffLineKind::Insert,
        ) + count_kind(hunk.lines.take(i as int), DiffLineKind::Context),
    decreases i,
{
    if i > 0 {
        lemma_counts(hunk, (i - 1) as nat);
        assert(hunk.lines.take(i as int).drop_last() =~= hunk.lines.take(i - 1));
        assert(hunk.lines.take(i as int).last() == hunk.lines[i - 1]);
    }
}

proof fn lemma_hunk_rows_grow(
    config: ConfigView,
    hunk: HunkView,
    width: nat,
    number_width: nat,
    syntax: Option<Seq<Seq<SpanView>>>,
    i: nat,
    n: nat,
)
    requires
        i <= n,
    ensures
        hunk_rows(config, hunk, width, number_width, syntax, i).is_prefix_of(
            hunk_rows(config, hunk, width, number_width, syntax, n),
        ),
    decreases n,
{
    let all = hunk_rows(config, hunk, width, number_width, syntax, n);
    let some = hunk_rows(config, hunk, width, number_width, syntax, i);
    if i < n {
        lemma_hunk_rows_grow(config, hunk, width, number_width, syntax, i, (n - 1) as nat);
        assert(all.subrange(0, some.len() as int) =~= some);
    } else {
        assert(all.subrange(0, some.len() as int) =~= some);
    }
}

/// Line `i` of a hunk starts a row with its number and its sign: a deleted line
/// has the number that it had in the old file, and any other line the one that
/// it has in the new file. The old number of a line is the start of the old
/// range and the number of deleted and context lines before it; the new number
/// is the start of the new range and the number of inserted and context lines.
pub proof fn hunk_lines_are_numbered(
    config: ConfigView,
    hunk: HunkView,
    width: nat,
    number_width: nat,
    syntax: Option<Seq<Seq<SpanView>>>,
    i: nat,
)
    requires
        i < hunk.lines.len(),
    ensures
        ({
            let before = hunk.lines.take(i as int);
            let kind = hunk.lines[i as int].kind;
            let number: nat = if kind == DiffLineKind::Delete {
                (hunk.old_start + count_kind(before, DiffLineKind::Delete) + count_kind(
                    before,
                    DiffLineKind::Context,
                )) as nat
            } else {
                (hunk.new_start + count_kind(before, DiffLineKind::Insert) + count_kind(
                    before,
                    DiffLineKind::Context,
                )) as nat
            };
            let rows = hunk_rows(config, hunk, width, number_width, syntax, hunk.lines.len());
            let at = hunk_rows(config, hunk, width, number_width, syntax, i).len() as int;
            &&& at < rows.len()
            &&& rows[at].spans[0].content == padded_left(numeral(number), number_width) + " "@
            &&& rows[at].spans[1].content == (match kind {
                DiffLineKind::Insert => "+ "@,
                DiffLineKind::Delete => "- "@,
                DiffLineKind::Context => "  "@,
            })
        }),
{
    lemma_counts(hunk, i);
    let line = hunk.lines[i as int];
    let before = hunk_rows(config, hunk, width, number_width, syntax, i);
    let own = diff_line_rows(
        config,
        shown_number(hunk, i),
        line.kind,
        trim_end_chars(line.text, '\n', '\n'),
        width,
        number_width,
        row_at(syntax, i as int),
    );
    let upto = hunk_rows(config, hunk, width, number_width, syntax, i + 1);
    diff_rows_carry_number_and_sign(
        config,
        shown_number(hunk, i),
        line.kind,
        trim_end_chars(line.text, '\n', '\n'),
        width,
        number_width,
        row_at(syntax, i as int),
    );
    assert(upto[before.len() as int] == own[0]);
    let rows = hunk_rows(config, hunk, width, number_width, syntax, hunk.lines.len());
    lemma_hunk_rows_grow(config, hunk, width, number_width, syntax, i + 1, hunk.lines.len());
    assert(rows.subrange(0, upto.len() as int) == upto);
    assert(rows[before.len() as int] == upto[before.len() as int]);
}

/// A file that was added or deleted is numbered from one, line by line.
pub proof fn whole_files_are_numbered_from_one(
    config: ConfigView,
    lines: Seq<Seq<char>>,
    kind: DiffLineKind,
    width: nat,
    number_width: nat,
    syntax: Option<Seq<Seq<SpanView>>>,
    n: nat,
    i: nat,
)
    requires
        i < n,
    ensures
        ({
            let rows = file_rows(config, lines, kind, width, number_width, syntax, n);
            let at = file_rows(config, lines, kind, width, number_width, syntax, i).len() as int;
            &&& at < rows.len()
            &&& rows[at].spans[0].content == padded_left(numeral(i + 1), number_width) + " "@
            &&& rows[at].spans[1].content == (match kind {
                DiffLineKind::Insert => "+ "@,
                DiffLineKind::Delete => "- "@,
                DiffLineKind::Context => "  "@,
            })
        }),
    decreases n,
{
    let before = file_rows(config, lines, kind, width, number_width, syntax, (n - 1) as nat);
    if i < n - 1 {
        whole_files_are_numbered_from_one(
            config,
            lines,
            kind,
            width,
            number_width,
            syntax,
            (n - 1) as nat,
            i,
        );
    } else {
        diff_rows_carry_number_and_sign(
            config,
            n,
            kind,
            lines[n - 1],
            width,
            number_width,
            row_at(syntax, n - 1),
        );
    }
}

/// An added file shows its lines as inserted and a deleted one as deleted; the
/// counts say the same.
pub proof fn whole_files_are_one_kind(config: ConfigView, content: String, path: String, width: nat)
    requires
        lines_of(content@).len() <= usize::MAX,
    ensures
        counts_of(FileChange::Add { content }) == (lines_of(content@).len() as usize, 0usize),
        counts_of(FileChange::Delete { content }) == (0usize, lines_of(content@).len() as usize),
        forall|i: int|
            #![trigger change_rows(
                config,
                FileChangeOutput { path, change: FileChange::Add { content } },
                width,
            )[i]]
            0 <= i < change_rows(
                config,
                FileChangeOutput { path, change: FileChange::Add { content } },
                width,
            ).len() ==> change_rows(
                config,
                FileChangeOutput { path, change: FileChange::Add { content } },
                width,
            )[i].spans[1].content == "+ "@,
        forall|i: int|
            #![trigger change_rows(
                config,
                FileChangeOutput { path, change: FileChange::Delete { content } },
                width,
            )[i]]
            0 <= i < change_rows(
                config,
                FileChangeOutput { path, change: FileChange::Delete { content } },
                width,
            ).len() ==> change_rows(
                config,
                FileChangeOutput { path, change: FileChange::Delete { content } },
                width,
            )[i].spans[1].content == "- "@,
{
    let lines = lines_of(content@);
    let lang = path_extension(path@);
    let syntax = opt_highlighted(config, content@, lang);
    let columns = number_columns(lines.len());
    lemma_file_signs(config, lines, DiffLineKind::Insert, width, columns, syntax, lines.len());
    lemma_file_signs(config, lines, DiffLineKind::Delete, width, columns, syntax, lines.len());
}

proof fn lemma_file_signs(
    config: ConfigView,
    lines: Seq<Seq<char>>,
    kind: DiffLineKind,
    width: nat,
    number_width: nat,
    syntax: Option<Seq<Seq<SpanView>>>,
    n: nat,
)
    ensures
        forall|i: int|
            0 <= i < file_rows(config, lines, kind, width, number_width, syntax, n).len() ==> (
            #[trigger] file_rows(
                config,
                lines,
                kind,
                width,
                number_width,
                syntax,
                n,
            )[i]).spans[1].content == (match kind {
                DiffLineKind::Insert => "+ "@,
                DiffLineKind::Delete => "- "@,
                DiffLineKind::Context => "  "@,
            }),
    decreases n,
{
    if n > 0 {
        lemma_file_signs(config, lines, kind, width, number_width, syntax, (n - 1) as nat);
        diff_rows_carry_number_and_sign(
            config,
            n,
            kind,
            lines[n - 1],
            width,
            number_width,
            row_at(syntax, n - 1),
        );
    }
}

/// Two hunks stand apart: between the rows of one and those of the next there
/// is one row with nothing but dots.
pub proof fn hunks_stand_apart(
    config: ConfigView,
    hunks: Seq<HunkView>,
    width: nat,
    number_width: nat,
    lang: Option<Seq<char>>,
    n: nat,
)
    requires
        0 < n < hunks.len(),
    ensures
        ({
            let before = hunks_rows(config, hunks, width, number_width, lang, n);
            let rows = hunks_rows(config, hunks, width, number_width, lang, n + 1);
            let next = hunk_rows(
                config,
                hunks[n as int],
                width,
                number_width,
                hunk_syntax(config, hunks[n as int], lang),
                hunks[n as int].lines.len(),
            );
            &&& rows.len() == before.len() + 1 + next.len()
            &&& rows.take(before.len() as int) == before
            &&& line_text(rows[before.len() as int]) == repeated(' ', number_width) + "  "@ + "⋮"@
            &&& rows.skip((before.len() + 1) as int) == next
        }),
{
    let before = hunks_rows(config, hunks, width, number_width, lang, n);
    let rows = hunks_rows(config, hunks, width, number_width, lang, n + 1);
    let next = hunk_rows(
        config,
        hunks[n as int],
        width,
        number_width,
        hunk_syntax(config, hunks[n as int], lang),
        hunks[n as int].lines.len(),
    );
    assert(rows.take(before.len() as int) =~= before);
    assert(rows.skip((before.len() + 1) as int) =~= next);
    let spans = gap_row(number_width).spans;
    reveal_with_fuel(spans_text, 3);
    assert(spans.drop_last().drop_last() =~= Seq::<SpanView>::empty());
    assert(spans_text(spans.drop_last()) =~= spans[0].content);
}

/// The numbers of a diff have room for the largest one that any hunk reaches,
/// in the old file or in the new one.
pub proof fn numbers_have_room(hunks: Seq<HunkView>, i: int)
    requires
        0 <= i < hunks.len(),
    ensures
        last_line_number(hunks) >= hunks[i].old_start + hunks[i].old_len,
        last_line_number(hunks) >= hunks[i].new_start + hunks[i].new_len,
        exists|k: int|
            0 <= k < hunks.len() && (last_line_number(hunks) == (#[trigger] hunks[k]).old_start
                + hunks[k].old_len || last_line_number(hunks) == hunks[k].new_start
                + hunks[k].new_len || last_line_number(hunks) == 0),
    decreases hunks.len(),
{
    let init = hunks.drop_last();
    let h = hunks.last();
    assert(hunks[hunks.len() - 1] == h);
    if init.len() > 0 {
        let j = if i < init.len() {
            i
        } else {
            0
        };
        numbers_have_room(init, j);
        assert(init[j] == hunks[j]);
        let k = choose|k: int|
            0 <= k < init.len() && (last_line_number(init) == (#[trigger] init[k]).old_start
                + init[k].old_len || last_line_number(init) == init[k].new_start + init[k].new_len
                || last_line_number(init) == 0);
        assert(init[k] == hunks[k]);
    } else {
        assert(last_line_number(init) == 0);
    }
}

/// The summary of a change: what was done to the file, its name, and how many
/// lines came and went, each on rows of its own above the body.
pub proof fn summaries_tell_the_change(config: ConfigView, change: FileChangeOutput, width: u16)
    ensures
        exists|head: LineView, path: LineView|
            #![trigger char_wrapped(head, columns_of(width), 2), char_wrapped(
                path,
                columns_of(width),
                2,
            )]
            ({
                let counts = "(+"@ + numeral(counts_of(change.change).0 as nat) + " -"@ + numeral(
                    counts_of(change.change).1 as nat,
                ) + ")"@;
                &&& line_text(head) == "• "@ + change_word(change.change) + " 1 file "@ + counts
                &&& line_text(path) == "  "@ + path_label(change) + " "@ + counts
                &&& diff_summary(config, change, width) == char_wrapped(head, columns_of(width), 2)
                    + char_wrapped(path, columns_of(width), 2) + shown_body(
                    config,
                    change_rows(config, change, diff_room(width)),
                )
            }),
{
    let (added, removed) = counts_of(change.change);
    let word = change_word(change.change) + " 1 file "@;
    let counted = count_spans(added, removed);
    let head_spans = seq![span_of("• "@, plain().with_dim()), raw_of(word)] + counted;
    let path_spans = seq![raw_of("  "@), raw_of(path_label(change)), raw_of(" "@)] + counted;
    lemma_spans_text_concat(seq![span_of("• "@, plain().with_dim()), raw_of(word)], counted);
    lemma_spans_text_concat(
        seq![raw_of("  "@), raw_of(path_label(change)), raw_of(" "@)],
        counted,
    );
    let counts = "(+"@ + numeral(added as nat) + " -"@ + numeral(removed as nat) + ")"@;
    assert(spans_text(counted) =~= counts) by {
        reveal_with_fuel(spans_text, 6);
        reveal_strlit("(");
        reveal_strlit("+");
        reveal_strlit("(+");
        reveal_strlit(" ");
        reveal_strlit("-");
        reveal_strlit(" -");
        reveal_strlit(")");
        assert(counted.drop_last() =~= counted.take(4));
        assert(counted.take(4).drop_last() =~= counted.take(3));
        assert(counted.take(3).drop_last() =~= counted.take(2));
        assert(counted.take(2).drop_last() =~= counted.take(1));
        assert(counted.take(1).drop_last() =~= Seq::<SpanView>::empty());
    }
    let first = seq![span_of("• "@, plain().with_dim()), raw_of(word)];
    let second = seq![raw_of("  "@), raw_of(path_label(change)), raw_of(" "@)];
    assert(spans_text(first) =~= "• "@ + word) by {
        reveal_with_fuel(spans_text, 3);
        assert(first.drop_last() =~= first.take(1));
        assert(first.take(1).drop_last() =~= Seq::<SpanView>::empty());
    }
    assert(spans_text(second) =~= "  "@ + path_label(change) + " "@) by {
        reveal_with_fuel(spans_text, 4);
        assert(second.drop_last() =~= second.take(2));
        assert(second.take(2).drop_last() =~= second.take(1));
        assert(second.take(1).drop_last() =~= Seq::<SpanView>::empty());
    }
    let head = line_of(head_spans);
    let path = line_of(path_spans);
    assert(line_text(head) =~= "• "@ + change_word(change.change) + " 1 file "@ + counts);
    assert(line_text(path) =~= "  "@ + path_label(change) + " "@ + counts);
    assert(diff_summary(config, change, width) == char_wrapped(head, columns_of(width), 2)
        + char_wrapped(path, columns_of(width), 2) + shown_body(
        config,
        change_rows(config, change, diff_room(width)),
    ));
}

proof fn lemma_spans_text_concat(a: Seq<SpanView>, b: Seq<SpanView>)
    ensures
        spans_text(a + b) == spans_text(a) + spans_text(b),
    decreases b.len(),
{
    if b.len() == 0 {
        assert(a + b =~= a);
        assert(spans_text(a) + spans_text(b) =~= spans_text(a));
    } else {
        assert((a + b).drop_last() =~= a + b.drop_last());
        lemma_spans_text_concat(a, b.drop_last());
        assert(spans_text(a + b) =~= spans_text(a) + spans_text(b));
    }
}

/// The word of a summary, by what was done: a change that also renames the file
/// is a move.
pub proof fn summary_words(content: String, diff: String, to: String)
    ensures
        change_word(FileChange::Add { content }) == "Added"@,
        change_word(FileChange::Delete { content }) == "Deleted"@,
        change_word(FileChange::Update { unified_diff: diff, move_path: None }) == "Edited"@,
        change_word(FileChange::Update { unified_diff: diff, move_path: Some(to) }) == "Moved"@,
{
}

/// The counts of a diff: what is inserted and what is deleted add up over its
/// hunks, and context counts for neither.
pub proof fn counts_add_up(lines: Seq<DiffLineView>, line: DiffLineView, kind: DiffLineKind)
    ensures
        count_kind(lines.push(line), kind) == count_kind(lines, kind) + if line.kind == kind {
            1nat
        } else {
            0
        },
        count_kind(Seq::empty(), kind) == 0,
        count_kind(lines, DiffLineKind::Insert) + count_kind(lines, DiffLineKind::Delete)
            + count_kind(lines, DiffLineKind::Context) == lines.len(),
{
    assert(lines.push(line).drop_last() =~= lines);
    lemma_kinds_partition(lines);
}

proof fn lemma_kinds_partition(lines: Seq<DiffLineView>)
    ensures
        count_kind(lines, DiffLineKind::Insert) + count_kind(lines, DiffLineKind::Delete)
            + count_kind(lines, DiffLineKind::Context) == lines.len(),
    decreases lines.len(),
{
    if lines.len() > 0 {
        lemma_kinds_partition(lines.drop_last());
    }
}

/// The counts of an update are those of its hunks' lines: inserted first, then
/// deleted.
pub proof fn update_counts(diff: String, to: Option<String>)
    ensures
        ({
            let counts = counts_of(FileChange::Update { unified_diff: diff, move_path: to });
            match hunks_of(diff@) {
                Some(hunks) => all_lines(hunks).len() <= usize::MAX ==> counts.0 == count_kind(
                    all_lines(hunks),
                    DiffLineKind::Insert,
                ) && counts.1 == count_kind(all_lines(hunks), DiffLineKind::Delete),
                None => counts == (0usize, 0usize),
            }
        }),
{
    match hunks_of(diff@) {
        Some(hunks) => lemma_kinds_partition(all_lines(hunks)),
        None => {},
    }
}

/// Body rows stand behind four blanks, in order, and nothing of them is
/// dropped up to the configured number of rows; a row that tells of the cut
/// comes last where there are more.
pub proof fn body_rows_are_indented(config: ConfigView, rows: Seq<LineView>, i: int)
    requires
        0 <= i < rows.len(),
        i < config.max_diff_lines,
    ensures
        shown_body(config, rows)[i].spans[0].content == "    "@,
        shown_body(config, rows)[i].spans.skip(1) == rows[i].spans,
        shown_body(config, rows)[i].style == rows[i].style,
        rows.len() > config.max_diff_lines ==> shown_body(config, rows).len()
            == config.max_diff_lines + 1 && line_text(shown_body(config, rows).last()) == "    "@
            + ("⋮ diff truncated after "@ + numeral(config.max_diff_lines as nat)
            + " rendered lines"@),
{
    assert(shown_body(config, rows)[i].spans.skip(1) =~= rows[i].spans);
    if rows.len() > config.max_diff_lines {
        let spans = truncation_row(config.max_diff_lines).spans;
        reveal_with_fuel(spans_text, 3);
        assert(spans.drop_last() =~= spans.take(1));
        assert(spans.take(1).drop_last() =~= Seq::<SpanView>::empty());
        assert(spans_text(spans.take(1)) =~= "    "@);
    }
}

/// A moved file is shown with both of its paths, and highlighted by the new
/// one; any other by its own.
pub proof fn moves_show_both_paths(path: String, diff: String, to: String)
    ensures
        path_label(
            FileChangeOutput {
                path,
                change: FileChange::Update { unified_diff: diff, move_path: Some(to) },
            },
        ) == path@ + " -> "@ + to@,
        path_label(
            FileChangeOutput {
                path,
                change: FileChange::Update { unified_diff: diff, move_path: None },
            },
        ) == path@,
        path_label(FileChangeOutput { path, change: FileChange::Add { content: diff } }) == path@,
        path_label(FileChangeOutput { path, change: FileChange::Delete { content: diff } }) == path@,
        change_language(
            FileChangeOutput {
                path,
                change: FileChange::Update { unified_diff: diff, move_path: Some(to) },
            },
        ) == path_extension(to@),
        change_language(FileChangeOutput { path, change: FileChange::Add { content: diff } })
            == path_extension(path@),
{
}

/// Columns of cells in a diff, where a tab takes four.
pub open spec fn tabbed_width(cells: Seq<Cell>) -> nat
    decreases cells.len(),
{
    if cells.len() == 0 {
        0
    } else {
        tabbed_width(cells.drop_last()) + if cells.last().ch == '\t' {
            4nat
        } else {
            crate::width::columns(cells.last().ch)
        }
    }
}

/// Whether a row fits; only a character that is too wide by itself may not.
pub open spec fn tabbed_fits(cells: Seq<Cell>, width: nat) -> bool {
    tabbed_width(cells) <= width || tabbed_width(cells.drop_last()) == 0
}

proof fn lemma_tab_rows_fit(cells: Seq<Cell>, width: nat)
    ensures
        ({
            let rows = tab_filled_all(cells, width);
            &&& rows.used == tabbed_width(rows.current)
            &&& tabbed_fits(rows.current, width)
            &&& forall|i: int| 0 <= i < rows.done.len() ==> tabbed_fits(#[trigger] rows.done[i], width)
        }),
    decreases cells.len(),
{
    if cells.len() > 0 {
        let before = tab_filled_all(cells.drop_last(), width);
        lemma_tab_rows_fit(cells.drop_last(), width);
        let cell = cells.last();
        assert(before.current.push(cell).drop_last() =~= before.current);
        assert(seq![cell].drop_last() =~= Seq::<Cell>::empty());
        assert(tabbed_width(Seq::<Cell>::empty()) == 0);
        assert(tabbed_width(seq![cell]) == crate::composer::editor_columns(cell.ch)) by {
            assert(seq![cell].last() == cell);
        }
    }
}

/// The rows of a diff line fit the room beside its number and sign.
pub proof fn diff_rows_fit(spans: Seq<SpanView>, width: nat, i: int)
    requires
        0 <= i < tab_rows(spans, width).len(),
    ensures
        tabbed_fits(cells_of(tab_rows(spans, width)[i]), width),
{
    let cells = cells_of(spans);
    lemma_tab_rows_fit(cells, width);
    let rows = tab_filled_all(cells, width).finished();
    crate::wrap::spans_show_their_cells(rows[i]);
}

/// The room for the text of a diff line: what its number, its sign and the
/// blanks between them leave.
pub proof fn numbers_leave_room(width: nat, number_width: nat)
    ensures
        content_room(width, number_width) >= 1,
        width > number_width + 4 ==> content_room(width, number_width) + number_width + 3 == width,
{
}

/// Highlighted code keeps its colours in a diff; what is not new is dimmed.
pub proof fn highlighting_is_kept_in_diffs(
    kind: DiffLineKind,
    text: Seq<char>,
    syntax: Seq<SpanView>,
    i: int,
)
    requires
        0 <= i < syntax.len(),
    ensures
        ({
            let spans = content_spans(kind, text, Some(syntax));
            &&& spans.len() == syntax.len()
            &&& spans[i].content == syntax[i].content
            &&& spans[i].style.fg == syntax[i].style.fg
            &&& kind == DiffLineKind::Insert ==> spans[i].style == syntax[i].style
            &&& kind != DiffLineKind::Insert ==> spans[i].style.add_modifier.dim
        }),
{
}

/// A diff that cannot be read is shown line by line as it stands; one that was
/// left out is shown as its size and the reason.
pub proof fn other_changes_are_told(
    config: ConfigView,
    change: FileChangeOutput,
    diff: Seq<char>,
    lang: Option<Seq<char>>,
    width: nat,
    n: nat,
)
    ensures
        hunks_of(diff) is None && n < lines_of(diff).len() ==> plain_rows(
            lines_of(diff),
            width,
            n + 1,
        ) =~= plain_rows(lines_of(diff), width, n) + char_wrapped(
            line_of(seq![raw_of(lines_of(diff)[n as int])]),
            width,
            0,
        ),
        hunks_of(diff) is None ==> unified_diff_rows(config, diff, width, lang) == plain_rows(
            lines_of(diff),
            width,
            lines_of(diff).len(),
        ),
        change.change matches FileChange::Omitted { reason, bytes, .. } ==> change_rows(
            config,
            change,
            width,
        ) == char_wrapped(
            line_of(
                seq![
                    span_of("⋮ "@, plain().with_dim()),
                    span_of(
                        "diff omitted ("@ + numeral(bytes as nat) + " bytes): "@ + reason@,
                        plain().with_dim(),
                    ),
                ],
            ),
            width,
            0,
        ),
{
}

/// The extension of a name is what stands behind its last dot, unless that dot
/// starts the name.
pub proof fn extensions_follow_the_last_dot(stem: Seq<char>, ext: Seq<char>)
    requires
        forall|i: int| 0 <= i < ext.len() ==> #[trigger] ext[i] != '.',
    ensures
        stem.len() > 0 && (stem.len() > 1 || stem[0] != '.' || ext.len() > 0) ==> name_extension(
            stem.push('.') + ext,
        ) == Some(ext),
        stem.len() == 0 ==> name_extension(stem.push('.') + ext) is None,
        name_extension(ext) is None,
{
    let name = stem.push('.') + ext;
    crate::markdown_stream::last_places_are_last(name, '.');
    crate::markdown_stream::last_places_are_last(ext, '.');
    reveal_strlit("..");
    assert(name[stem.len() as int] == '.');
    assert forall|j: int| stem.len() < j < name.len() implies #[trigger] name[j] != '.' by {
        assert(name[j] == ext[j - stem.len() - 1]);
    }
    assert(name.skip(stem.len() + 1int) =~= ext);
    if name == ".."@ {
        assert(name.len() == 2);
        assert(name[0] == '.' && name[1] == '.');
        if stem.len() > 0 {
            assert(name[0] == stem[0]);
        }
        if stem.len() == 0 {
            assert(name[1] == ext[0]);
        }
    }
}

/// The language of a change is told by the extension of its file, of the new
/// one where it moved.
pub proof fn languages_follow_the_file(change: FileChangeOutput, dir: Seq<char>, name: Seq<char>)
    requires
        name.len() > 0,
        name != "."@,
        forall|i: int| 0 <= i < name.len() ==> #[trigger] name[i] != '/',
    ensures
        path_extension(dir.push('/') + name) == name_extension(name),
        path_extension(name) == name_extension(name),
        change.change matches FileChange::Update { move_path: Some(to), .. } ==> change_language(
            change,
        ) == path_extension(to@),
        !(change.change matches FileChange::Update { move_path: Some(to), .. }) ==> change_language(
            change,
        ) == path_extension(change.path@),
{
    crate::text::splits_run_on(dir, name, '/');
    crate::text::unseparated_texts_stay_whole(name, '/');
    crate::text::lemma_split_nonempty(dir, '/');
    let all = split_on(dir.push('/') + name, '/');
    assert(all.last() == name);
    assert(split_on(name, '/').last() == name);
}

/// A diff beyond the limits is shown without highlighting.
pub proof fn large_diffs_are_not_highlighted(
    config: ConfigView,
    hunks: Seq<HunkView>,
    lang: Option<Seq<char>>,
)
    requires
        lines_size(all_lines(hunks)) <= usize::MAX,
        all_lines(hunks).len() <= usize::MAX,
    ensures
        lines_size(all_lines(hunks)) > config.max_bytes ==> diff_language(config, hunks, lang) is None,
        all_lines(hunks).len() > config.max_lines ==> diff_language(config, hunks, lang) is None,
        lines_size(all_lines(hunks)) <= config.max_bytes && all_lines(hunks).len()
            <= config.max_lines ==> diff_language(config, hunks, lang) == lang,
{
}

/// What is counted and measured of hunks is that of all their lines.
pub proof fn hunks_add_up(hunks: Seq<HunkView>, hunk: HunkView, lines: Seq<DiffLineView>, line: DiffLineView)
    ensures
        all_lines(hunks.push(hunk)) == all_lines(hunks) + hunk.lines,
        all_lines(Seq::empty()).len() == 0,
        hunk_text(lines.push(line)) == hunk_text(lines) + line.text,
        lines_size(lines.push(line)) == lines_size(lines) + byte_len(line.text),
        count_kind(lines.push(line), line.kind) == count_kind(lines, line.kind) + 1,
        forall|kind: DiffLineKind|
            kind != line.kind ==> #[trigger] count_kind(lines.push(line), kind) == count_kind(
                lines,
                kind,
            ),
{
    assert(hunks.push(hunk).drop_last() =~= hunks);
    assert(lines.push(line).drop_last() =~= lines);
}

proof fn lemma_trailing_digits(text: Seq<char>, digits: Seq<char>)
    requires
        text.len() == 0 || !('0' <= text.last() <= '9'),
        forall|i: int| 0 <= i < digits.len() ==> '0' <= #[trigger] digits[i] <= '9',
    ensures
        trailing_number(text + digits) == crate::text::denoted(digits),
    decreases digits.len(),
{
    if digits.len() == 0 {
        assert(text + digits =~= text);
    } else {
        let init = digits.drop_last();
        assert((text + digits).drop_last() =~= text + init);
        assert((text + digits).last() == digits.last());
        assert(digits[digits.len() - 1] == digits.last());
        assert forall|i: int| 0 <= i < init.len() implies '0' <= #[trigger] init[i] <= '9' by {
            assert(init[i] == digits[i]);
        }
        lemma_trailing_digits(text, init);
    }
}

/// A range of a hunk ends as many lines behind its start as it is long, and one
/// line behind it where no length is given.
pub proof fn ranges_end_behind_their_lines(sign: char, start: nat, len: nat)
    requires
        sign == '-' || sign == '+',
    ensures
        range_end(seq![sign] + numeral(start)) == start + 1,
        range_end((seq![sign] + numeral(start)).push(',') + numeral(len)) == start + len,
{
    let head = seq![sign] + numeral(start);
    let tail = numeral(len);
    crate::text::numerals_denote_their_number(start);
    crate::text::numerals_denote_their_number(len);
    assert forall|i: int| 0 <= i < head.len() implies #[trigger] head[i] != ',' by {
        if i > 0 {
            assert(head[i] == numeral(start)[i - 1]);
        }
    }
    crate::text::unseparated_texts_stay_whole(head, ',');
    crate::text::unseparated_texts_stay_whole(tail, ',');
    crate::text::splits_run_on(head, tail, ',');
    lemma_trailing_digits(seq![sign], numeral(start));
    lemma_trailing_digits(Seq::empty(), tail);
    assert(Seq::<char>::empty() + tail =~= tail);
    let both = split_on(head.push(',') + tail, ',');
    assert(both =~= seq![head, tail]);
}

} // verus!
