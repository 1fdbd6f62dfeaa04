//! What is drawn: lines in rectangles and the place of the cursor.
use ratatui::layout::{
    Constraint as RatatuiConstraint, Direction as RatatuiDirection, Layout, Rect as RatatuiRect,
};
use vstd::prelude::*;
use crate::style::{
    fg_style, line_of, line_views, new_lines, no_lines, push_line, span_of, Color, Line, LineView,
    Span, Style,
};
use crate::text::{chars_of, owned, repeat_char, repeated, string_of};

verus! {

#[derive(Clone, Copy, Debug, PartialEq, Eq, Structural)]
pub struct Rect {
    pub x: u16,
    pub y: u16,
    pub width: u16,
    pub height: u16,
}

/// A step of drawing a screen: `lines` from the top of `area`, what does not
/// fit cut off; or the place of the cursor.
#[derive(Debug)]
pub enum DrawOp {
    Lines { area: Rect, lines: Vec<Line> },
    Cursor { x: u16, y: u16 },
}

#[verifier::ext_equal]
pub enum DrawView {
    Lines { area: Rect, lines: Seq<LineView> },
    Cursor { x: u16, y: u16 },
}

impl View for DrawOp {
    type V = DrawView;

    open spec fn view(&self) -> DrawView {
        match *self {
            DrawOp::Lines { area, lines } => DrawView::Lines { area, lines: line_views(lines@) },
            DrawOp::Cursor { x, y } => DrawView::Cursor { x, y },
        }
    }
}

pub open spec fn draw_views(ops: Seq<DrawOp>) -> Seq<DrawView> {
    ops.map_values(|op: DrawOp| op@)
}

pub open spec fn no_ops() -> Seq<DrawView> {
    Seq::empty()
}

/// The step that draws `lines` in `area`.
pub open spec fn shown(area: Rect, lines: Seq<LineView>) -> DrawView {
    DrawView::Lines { area, lines }
}

pub fn new_ops() -> (r: Vec<DrawOp>)
    ensures
        draw_views(r@) == no_ops(),
{
    let r: Vec<DrawOp> = Vec::new();
    assert(draw_views(r@) =~= no_ops());
    r
}

/// Adds a step that draws `lines` in `area`.
pub fn draw_lines(ops: &mut Vec<DrawOp>, area: Rect, lines: Vec<Line>)
    ensures
        draw_views(final(ops)@) == draw_views(old(ops)@).push(shown(area, line_views(lines@))),
{
    let ghost before = draw_views(ops@);
    let ghost views = line_views(lines@);
    ops.push(DrawOp::Lines { area, lines });
    assert(draw_views(ops@) =~= before.push(shown(area, views)));
}

/// Adds a step that places the cursor.
pub fn draw_cursor(ops: &mut Vec<DrawOp>, x: u16, y: u16)
    ensures
        draw_views(final(ops)@) == draw_views(old(ops)@).push(DrawView::Cursor { x, y }),
{
    let ghost before = draw_views(ops@);
    ops.push(DrawOp::Cursor { x, y });
    assert(draw_views(ops@) =~= before.push(DrawView::Cursor { x, y }));
}

/// Adds the steps `more` after `ops`.
pub fn append_ops(ops: &mut Vec<DrawOp>, more: Vec<DrawOp>)
    ensures
        draw_views(final(ops)@) == draw_views(old(ops)@) + draw_views(more@),
{
    let mut rest: Vec<DrawOp> = more;
    let ghost before = ops@;
    let ghost tail = rest@;
    ops.append(&mut rest);
    assert(ops@ =~= before + tail);
    assert(draw_views(ops@) =~= draw_views(before) + draw_views(tail));
}

// ---------------------------------------------------------------------------
// Dividing an area
// ---------------------------------------------------------------------------

#[derive(Clone, Copy, Debug, PartialEq, Eq, Structural)]
pub enum Constraint {
    Min(u16),
    Length(u16),
    Percentage(u16),
}

/// Which way an area is divided.
#[derive(Clone, Copy, Debug, PartialEq, Eq, Structural)]
pub enum Direction {
    Vertical,
    Horizontal,
}

/// Whether `part` lies in `area`.
pub open spec fn inside(area: Rect, part: Rect) -> bool {
    &&& area.x <= part.x
    &&& area.y <= part.y
    &&& part.x + part.width <= area.x + area.width
    &&& part.y + part.height <= area.y + area.height
}

/// What every division of `area` from top to bottom has: a part per
/// constraint, each inside of the area and over its whole width.
pub open spec fn stacked(area: Rect, parts: Seq<Rect>, n: nat) -> bool {
    parts.len() == n && forall|i: int|
        0 <= i < n ==> inside(area, #[trigger] parts[i]) && parts[i].x == area.x && parts[i].width
            == area.width
}

/// What every division of `area` from left to right has: a part per
/// constraint, each inside of the area and over its whole height.
pub open spec fn side_by_side(area: Rect, parts: Seq<Rect>, n: nat) -> bool {
    parts.len() == n && forall|i: int|
        0 <= i < n ==> inside(area, #[trigger] parts[i]) && parts[i].y == area.y && parts[i].height
            == area.height
}

/// Whether `parts` is one of the divisions of `area` that
/// `ratatui::layout::Layout::split` comes to for `constraints`.
pub uninterp spec fn may_split(
    area: Rect,
    direction: Direction,
    constraints: Seq<Constraint>,
    parts: Seq<Rect>,
) -> bool;

/// `ratatui::layout::Layout::split`: divides `area` by `constraints`, along its
/// height or along its width. There is one part per constraint; every part lies
/// in `area` and spans its other side. How long each part is comes out of a
/// constraint solver that walks hash maps, each seeded anew: the parts are one
/// of the divisions that it can come to for these arguments, and nothing is
/// claimed of which, nor that two calls agree.
#[verifier::external_body]
fn split(area: Rect, direction: Direction, constraints: &Vec<Constraint>) -> (r: Vec<Rect>)
    ensures
        may_split(area, direction, constraints@, r@),
        direction is Vertical ==> stacked(area, r@, constraints@.len()),
        direction is Horizontal ==> side_by_side(area, r@, constraints@.len()),
{
    let along = match direction {
        Direction::Vertical => RatatuiDirection::Vertical,
        Direction::Horizontal => RatatuiDirection::Horizontal,
    };
    let wanted = constraints.iter().map(|c| match *c {
        Constraint::Min(n) => RatatuiConstraint::Min(n),
        Constraint::Length(n) => RatatuiConstraint::Length(n),
        Constraint::Percentage(n) => RatatuiConstraint::Percentage(n),
    });
    let whole = RatatuiRect { x: area.x, y: area.y, width: area.width, height: area.height };
    Layout::new(along, wanted).split(whole).iter().map(|p| Rect {
        x: p.x, y: p.y, width: p.width, height: p.height,
    }).collect()
}

/// Divides `area` from top to bottom.
pub fn split_vertical(area: Rect, constraints: &Vec<Constraint>) -> (r: Vec<Rect>)
    ensures
        stacked(area, r@, constraints@.len()),
        may_split(area, Direction::Vertical, constraints@, r@),
{
    split(area, Direction::Vertical, constraints)
}

/// Divides `area` from left to right.
pub fn split_horizontal(area: Rect, constraints: &Vec<Constraint>) -> (r: Vec<Rect>)
    ensures
        side_by_side(area, r@, constraints@.len()),
        may_split(area, Direction::Horizontal, constraints@, r@),
{
    split(area, Direction::Horizontal, constraints)
}

// ---------------------------------------------------------------------------
// Rules between panes
// ---------------------------------------------------------------------------

pub open spec fn muted() -> Style {
    fg_style(Color::DarkGray)
}

pub fn muted_separator_style() -> (r: Style)
    ensures
        r == muted(),
{
    Style::new().fg(Color::DarkGray)
}

/// A rule of `width` columns, `label` near its start.
pub open spec fn rule_text(width: nat, label: Seq<char>) -> Seq<char> {
    if label.len() == 0 {
        repeated('─', width)
    } else {
        let prefix = "─ "@ + label + " "@;
        if prefix.len() >= width {
            prefix.take(width as int)
        } else {
            prefix + repeated('─', (width - prefix.len()) as nat)
        }
    }
}

pub open spec fn separator(width: u16, label: Seq<char>, style: Style) -> LineView {
    if width == 0 {
        line_of(Seq::empty())
    } else {
        line_of(seq![span_of(rule_text(width as nat, label), style)])
    }
}

/// A rule of `width` columns, `label` near its start.
pub fn separator_line(width: u16, label: &str, style: Style) -> (r: Line)
    ensures
        r@ == separator(width, label@, style),
{
    let width: usize = width as usize;
    if width == 0 {
        return Line::blank();
    }
    let text: String = if label.is_empty() {
        repeat_char('─', width)
    } else {
        let mut prefix: String = owned("─ ");
        prefix.push_str(label);
        prefix.push_str(" ");
        let chars: Vec<char> = chars_of(prefix.as_str());
        if chars.len() >= width {
            let cut: String = string_of(&chars, 0, width);
            assert(cut@ =~= prefix@.take(width as int));
            cut
        } else {
            let tail: String = repeat_char('─', width - chars.len());
            prefix.push_str(tail.as_str());
            prefix
        }
    };
    Line::from_span(Span::styled(text.as_str(), style))
}

pub open spec fn horizontal_rule(area: Rect, label: Seq<char>, style: Style) -> Seq<DrawView> {
    if area.height == 0 {
        no_ops()
    } else {
        seq![shown(area, seq![separator(area.width, label, style)])]
    }
}

/// Draws a rule across `area`.
pub fn render_horizontal_separator(area: Rect, label: &str, style: Style) -> (r: Vec<DrawOp>)
    ensures
        draw_views(r@) == horizontal_rule(area, label@, style),
{
    let mut ops: Vec<DrawOp> = new_ops();
    if area.height > 0 {
        let mut lines: Vec<Line> = new_lines();
        push_line(&mut lines, separator_line(area.width, label, style));
        assert(line_views(lines@) =~= seq![separator(area.width, label@, style)]);
        draw_lines(&mut ops, area, lines);
    }
    assert(draw_views(ops@) =~= horizontal_rule(area, label@, style));
    ops
}

pub open spec fn bar_line() -> LineView {
    line_of(seq![span_of("│"@, muted())])
}

pub open spec fn bars(n: nat) -> Seq<LineView> {
    Seq::new(n, |i: int| bar_line())
}

pub open spec fn vertical_rule(area: Rect) -> Seq<DrawView> {
    if area.width == 0 || area.height == 0 {
        no_ops()
    } else {
        seq![shown(area, bars(area.height as nat))]
    }
}

/// Draws a rule down `area`.
pub fn render_vertical_separator(area: Rect) -> (r: Vec<DrawOp>)
    ensures
        draw_views(r@) == vertical_rule(area),
{
    let mut ops: Vec<DrawOp> = new_ops();
    if area.width > 0 && area.height > 0 {
        let mut lines: Vec<Line> = new_lines();
        assert(line_views(lines@) =~= bars(0));
        let mut i: u16 = 0;
        while i < area.height
            invariant
                i <= area.height,
                line_views(lines@) == bars(i as nat),
            decreases area.height - i,
        {
            push_line(&mut lines, Line::from_span(Span::styled("│", muted_separator_style())));
            assert(bars((i + 1) as nat) =~= bars(i as nat).push(bar_line()));
            i += 1;
        }
        draw_lines(&mut ops, area, lines);
    }
    assert(draw_views(ops@) =~= vertical_rule(area));
    ops
}

// ---------------------------------------------------------------------------
// Windows on rows
// ---------------------------------------------------------------------------

/// `lines` with `line` after them when `row` lies in the window from `start`
/// up to `end`.
pub open spec fn with_visible(
    lines: Seq<LineView>,
    line: LineView,
    row: nat,
    start: nat,
    end: nat,
) -> Seq<LineView> {
    if start <= row < end {
        lines.push(line)
    } else {
        lines
    }
}

/// Adds `line` when its row lies in the window.
pub fn append_visible_line(lines: &mut Vec<Line>, line: Line, row: usize, start: usize, end: usize)
    ensures
        line_views(final(lines)@) == with_visible(
            line_views(old(lines)@),
            line@,
            row as nat,
            start as nat,
            end as nat,
        ),
{
    if row >= start && row < end {
        push_line(lines, line);
    }
}

/// The rows of a window: those at `start` and after it, before `end`.
pub open spec fn window(rows: Seq<LineView>, start: nat, end: nat) -> Seq<LineView> {
    let to = if end < rows.len() {
        end
    } else {
        rows.len()
    };
    if start < to {
        rows.subrange(start as int, to as int)
    } else {
        no_lines()
    }
}

/// Copies the rows of a window.
pub fn window_lines(rows: &Vec<Line>, start: usize, end: usize) -> (r: Vec<Line>)
    ensures
        line_views(r@) == window(line_views(rows@), start as nat, end as nat),
{
    let ghost views = line_views(rows@);
    let to: usize = if end < rows.len() {
        end
    } else {
        rows.len()
    };
    let mut out: Vec<Line> = new_lines();
    if start < to {
        let mut i: usize = start;
        assert(line_views(out@) =~= views.subrange(start as int, start as int));
        while i < to
            invariant
                views == line_views(rows@),
                start <= i <= to <= rows@.len(),
                line_views(out@) == views.subrange(start as int, i as int),
            decreases to - i,
        {
            assert(views[i as int] == rows@[i as int]@);
            push_line(&mut out, rows[i].duplicate());
            assert(views.subrange(start as int, i + 1) =~= views.subrange(
                start as int,
                i as int,
            ).push(views[i as int]));
            i += 1;
        }
    }
    out
}

// ---------------------------------------------------------------------------
// Laws
// ---------------------------------------------------------------------------

/// A rule is exactly as wide as the area that it crosses.
pub proof fn rules_fill_their_width(width: nat, label: Seq<char>)
    ensures
        rule_text(width, label).len() == width,
{
}

/// Feeding rows one by one through the visibility test shows the window.
pub proof fn visible_rows_are_a_window(rows: Seq<LineView>, start: nat, end: nat, n: nat)
    requires
        n < rows.len(),
    ensures
        window(rows.take((n + 1) as int), start, end) == with_visible(
            window(rows.take(n as int), start, end),
            rows[n as int],
            n,
            start,
            end,
        ),
{
    assert(window(rows.take((n + 1) as int), start, end) =~= with_visible(
        window(rows.take(n as int), start, end),
        rows[n as int],
        n,
        start,
        end,
    ));
}

/// A rule starts with its label between strokes; without a label, and behind
/// it, it is strokes all the way.
pub proof fn rules_show_their_label(width: nat, label: Seq<char>)
    ensures
        ({
            let text = rule_text(width, label);
            &&& text.len() == width
            &&& label.len() == 0 ==> forall|i: int|
                0 <= i < width ==> #[trigger] text[i] == '─'
            &&& label.len() > 0 ==> {
                &&& width > 0 ==> text[0] == '─'
                &&& width > 1 ==> text[1] == ' '
                &&& forall|i: int|
                    0 <= i < label.len() && i + 2 < width ==> #[trigger] label[i] == text[i + 2]
                &&& width > label.len() + 2 ==> text[label.len() + 2int] == ' '
                &&& forall|i: int| label.len() + 2 < i < width ==> #[trigger] text[i] == '─'
            }
        }),
{
    reveal_strlit("─ ");
    reveal_strlit(" ");
}

/// A window of rows starts where it should, ends where it should or with the
/// rows, and shows nothing past them.
pub proof fn windows_cut_rows(rows: Seq<LineView>, start: nat, end: nat)
    ensures
        ({
            let cut = window(rows, start, end);
            &&& start <= end <= rows.len() ==> cut.len() == end - start
            &&& start <= rows.len() < end ==> cut.len() == rows.len() - start
            &&& start >= rows.len() || start >= end ==> cut.len() == 0
            &&& forall|i: int| 0 <= i < cut.len() ==> #[trigger] cut[i] == rows[start + i]
        }),
{
}

/// Rules are drawn where there is room for them: a vertical one on every row, a
/// horizontal one over the width.
pub proof fn rules_are_drawn(area: Rect, label: Seq<char>, style: Style)
    ensures
        area.width == 0 || area.height == 0 ==> vertical_rule(area).len() == 0,
        area.width > 0 && area.height > 0 ==> vertical_rule(area).len() == 1 && (vertical_rule(
            area,
        )[0] matches DrawView::Lines { area: at, lines } && at == area && lines.len()
            == area.height && forall|i: int|
            0 <= i < lines.len() ==> (#[trigger] lines[i]).spans =~= seq![
                span_of("│"@, fg_style(Color::DarkGray)),
            ]),
        area.height == 0 ==> horizontal_rule(area, label, style).len() == 0,
        area.width > 0 && area.height > 0 ==> horizontal_rule(area, label, style).len() == 1 && (
        horizontal_rule(area, label, style)[0] matches DrawView::Lines { area: at, lines } && at
            == area && lines.len() == 1 && lines[0].spans.len() == 1
            && lines[0].spans[0].content.len() == area.width && lines[0].spans[0].style == style),
{
    rules_fill_their_width(area.width as nat, label);
}

} // verus!
