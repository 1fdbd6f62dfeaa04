//! Styled text: colours, modifiers, spans and lines as plain values.
use vstd::prelude::*;
use crate::text::{lines_of, owned, text_lines, texts};

verus! {

#[derive(Clone, Copy, Debug, PartialEq, Eq, Structural)]
pub enum Color {
    Black,
    Red,
    Green,
    Yellow,
    Blue,
    Magenta,
    Cyan,
    Gray,
    DarkGray,
    LightRed,
    LightGreen,
    LightYellow,
    LightBlue,
    LightMagenta,
    LightCyan,
    White,
    Indexed(u8),
    Rgb(u8, u8, u8),
}

#[derive(Clone, Copy, Debug, PartialEq, Eq, Structural)]
pub struct Modifier {
    pub bold: bool,
    pub dim: bool,
    pub italic: bool,
    pub underlined: bool,
    pub reversed: bool,
    pub crossed_out: bool,
}

/// Colours and modifiers that a piece of text adds to what lies below it.
#[derive(Clone, Copy, Debug, PartialEq, Eq, Structural)]
pub struct Style {
    pub fg: Option<Color>,
    pub bg: Option<Color>,
    pub add_modifier: Modifier,
}

pub open spec fn no_modifier() -> Modifier {
    Modifier {
        bold: false,
        dim: false,
        italic: false,
        underlined: false,
        reversed: false,
        crossed_out: false,
    }
}

/// The style that changes nothing.
pub open spec fn plain() -> Style {
    Style { fg: None, bg: None, add_modifier: no_modifier() }
}

pub open spec fn fg_style(c: Color) -> Style {
    Style { fg: Some(c), ..plain() }
}

pub open spec fn bg_style(c: Color) -> Style {
    Style { bg: Some(c), ..plain() }
}

impl Style {
    pub open spec fn with_bold(self) -> Style {
        Style { add_modifier: Modifier { bold: true, ..self.add_modifier }, ..self }
    }

    pub open spec fn with_dim(self) -> Style {
        Style { add_modifier: Modifier { dim: true, ..self.add_modifier }, ..self }
    }

    pub open spec fn with_italic(self) -> Style {
        Style { add_modifier: Modifier { italic: true, ..self.add_modifier }, ..self }
    }

    pub open spec fn with_underlined(self) -> Style {
        Style { add_modifier: Modifier { underlined: true, ..self.add_modifier }, ..self }
    }

    pub open spec fn with_reversed(self) -> Style {
        Style { add_modifier: Modifier { reversed: true, ..self.add_modifier }, ..self }
    }

    pub open spec fn with_crossed_out(self) -> Style {
        Style { add_modifier: Modifier { crossed_out: true, ..self.add_modifier }, ..self }
    }

    /// `self` overlaid with `other`: the colours that `other` sets win, and
    /// its modifiers are added.
    pub open spec fn patched(self, other: Style) -> Style {
        Style {
            fg: if other.fg is Some {
                other.fg
            } else {
                self.fg
            },
            bg: if other.bg is Some {
                other.bg
            } else {
                self.bg
            },
            add_modifier: Modifier {
                bold: self.add_modifier.bold || other.add_modifier.bold,
                dim: self.add_modifier.dim || other.add_modifier.dim,
                italic: self.add_modifier.italic || other.add_modifier.italic,
                underlined: self.add_modifier.underlined || other.add_modifier.underlined,
                reversed: self.add_modifier.reversed || other.add_modifier.reversed,
                crossed_out: self.add_modifier.crossed_out || other.add_modifier.crossed_out,
            },
        }
    }

    pub fn new() -> (s: Style)
        ensures
            s == plain(),
    {
        Style {
            fg: None,
            bg: None,
            add_modifier: Modifier {
                bold: false,
                dim: false,
                italic: false,
                underlined: false,
                reversed: false,
                crossed_out: false,
            },
        }
    }

    pub fn fg(self, color: Color) -> (s: Style)
        ensures
            s == (Style { fg: Some(color), ..self }),
    {
        Style { fg: Some(color), bg: self.bg, add_modifier: self.add_modifier }
    }

    pub fn bg(self, color: Color) -> (s: Style)
        ensures
            s == (Style { bg: Some(color), ..self }),
    {
        Style { fg: self.fg, bg: Some(color), add_modifier: self.add_modifier }
    }

    pub fn bold(self) -> (s: Style)
        ensures
            s == self.with_bold(),
    {
        let mut s: Style = self;
        s.add_modifier.bold = true;
        s
    }

    pub fn dim(self) -> (s: Style)
        ensures
            s == self.with_dim(),
    {
        let mut s: Style = self;
        s.add_modifier.dim = true;
        s
    }

    pub fn italic(self) -> (s: Style)
        ensures
            s == self.with_italic(),
    {
        let mut s: Style = self;
        s.add_modifier.italic = true;
        s
    }

    pub fn underlined(self) -> (s: Style)
        ensures
            s == self.with_underlined(),
    {
        let mut s: Style = self;
        s.add_modifier.underlined = true;
        s
    }

    pub fn reversed(self) -> (s: Style)
        ensures
            s == self.with_reversed(),
    {
        let mut s: Style = self;
        s.add_modifier.reversed = true;
        s
    }

    pub fn crossed_out(self) -> (s: Style)
        ensures
            s == self.with_crossed_out(),
    {
        let mut s: Style = self;
        s.add_modifier.crossed_out = true;
        s
    }

    /// Overlays `self` with `other`.
    pub fn patch(self, other: Style) -> (s: Style)
        ensures
            s == self.patched(other),
    {
        let fg: Option<Color> = if other.fg.is_some() {
            other.fg
        } else {
            self.fg
        };
        let bg: Option<Color> = if other.bg.is_some() {
            other.bg
        } else {
            self.bg
        };
        let a: Modifier = self.add_modifier;
        let b: Modifier = other.add_modifier;
        Style {
            fg,
            bg,
            add_modifier: Modifier {
                bold: a.bold || b.bold,
                dim: a.dim || b.dim,
                italic: a.italic || b.italic,
                underlined: a.underlined || b.underlined,
                reversed: a.reversed || b.reversed,
                crossed_out: a.crossed_out || b.crossed_out,
            },
        }
    }
}

impl Default for Style {
    fn default() -> (s: Style)
        ensures
            s == plain(),
    {
        Style::new()
    }
}

// ---------------------------------------------------------------------------
// Spans and lines
// ---------------------------------------------------------------------------

/// A piece of text in one style.
#[derive(Debug)]
pub struct Span {
    pub content: String,
    pub style: Style,
}

#[verifier::ext_equal]
pub struct SpanView {
    pub content: Seq<char>,
    pub style: Style,
}

impl View for Span {
    type V = SpanView;

    open spec fn view(&self) -> SpanView {
        SpanView { content: self.content@, style: self.style }
    }
}

/// A row of spans; `style` applies to the whole row.
#[derive(Debug)]
pub struct Line {
    pub spans: Vec<Span>,
    pub style: Style,
}

#[verifier::ext_equal]
pub struct LineView {
    pub spans: Seq<SpanView>,
    pub style: Style,
}

impl View for Line {
    type V = LineView;

    open spec fn view(&self) -> LineView {
        LineView { spans: span_views(self.spans@), style: self.style }
    }
}

pub open spec fn span_views(spans: Seq<Span>) -> Seq<SpanView> {
    spans.map_values(|s: Span| s@)
}

pub open spec fn line_views(lines: Seq<Line>) -> Seq<LineView> {
    lines.map_values(|l: Line| l@)
}

pub open spec fn span_of(content: Seq<char>, style: Style) -> SpanView {
    SpanView { content, style }
}

pub open spec fn raw_of(content: Seq<char>) -> SpanView {
    SpanView { content, style: plain() }
}

/// An unstyled line made of `spans`.
pub open spec fn line_of(spans: Seq<SpanView>) -> LineView {
    LineView { spans, style: plain() }
}

/// A text as one unstyled line: a span for each line of the text, its ending
/// left out, so that an empty text has none.
pub open spec fn raw_line(content: Seq<char>) -> LineView {
    line_of(lines_of(content).map_values(|text: Seq<char>| raw_of(text)))
}

/// A line without any span.
pub open spec fn blank_line() -> LineView {
    line_of(Seq::empty())
}

impl Span {
    pub fn raw(content: &str) -> (s: Span)
        ensures
            s@ == raw_of(content@),
    {
        Span { content: owned(content), style: Style::new() }
    }

    pub fn styled(content: &str, style: Style) -> (s: Span)
        ensures
            s@ == span_of(content@, style),
    {
        Span { content: owned(content), style }
    }

    pub fn duplicate(&self) -> (s: Span)
        ensures
            s@ == self@,
    {
        Span { content: owned(self.content.as_str()), style: self.style }
    }
}

impl Line {
    /// A line without spans.
    pub fn blank() -> (l: Line)
        ensures
            l@ == blank_line(),
    {
        let l: Line = Line { spans: Vec::new(), style: Style::new() };
        assert(l@.spans =~= Seq::<SpanView>::empty());
        l
    }

    pub fn from_spans(spans: Vec<Span>) -> (l: Line)
        ensures
            l@ == line_of(span_views(spans@)),
    {
        Line { spans, style: Style::new() }
    }

    /// A line of two spans.
    pub fn of_two(a: Span, b: Span) -> (l: Line)
        ensures
            l@ == line_of(seq![a@, b@]),
    {
        let mut spans: Vec<Span> = Vec::new();
        let ghost views = seq![a@, b@];
        spans.push(a);
        spans.push(b);
        assert(span_views(spans@) =~= views);
        Line { spans, style: Style::new() }
    }

    /// A line of three spans.
    pub fn of_three(a: Span, b: Span, c: Span) -> (l: Line)
        ensures
            l@ == line_of(seq![a@, b@, c@]),
    {
        let mut spans: Vec<Span> = Vec::new();
        let ghost views = seq![a@, b@, c@];
        spans.push(a);
        spans.push(b);
        spans.push(c);
        assert(span_views(spans@) =~= views);
        Line { spans, style: Style::new() }
    }

    /// A line of four spans.
    pub fn of_four(a: Span, b: Span, c: Span, d: Span) -> (l: Line)
        ensures
            l@ == line_of(seq![a@, b@, c@, d@]),
    {
        let mut spans: Vec<Span> = Vec::new();
        let ghost views = seq![a@, b@, c@, d@];
        spans.push(a);
        spans.push(b);
        spans.push(c);
        spans.push(d);
        assert(span_views(spans@) =~= views);
        Line { spans, style: Style::new() }
    }

    /// A line of one span.
    pub fn from_span(span: Span) -> (l: Line)
        ensures
            l@ == line_of(seq![span@]),
    {
        let mut spans: Vec<Span> = Vec::new();
        spans.push(span);
        assert(span_views(spans@) =~= seq![span@]);
        Line { spans, style: Style::new() }
    }

    /// A text as one unstyled line, without the line endings in it.
    pub fn raw(content: &str) -> (l: Line)
        ensures
            l@ == raw_line(content@),
    {
        let parts: Vec<String> = text_lines(content);
        let ghost views = raw_line(content@).spans;
        let mut spans: Vec<Span> = Vec::new();
        let mut i: usize = 0;
        while i < parts.len()
            invariant
                texts(parts@) == lines_of(content@),
                views == raw_line(content@).spans,
                i <= parts@.len(),
                span_views(spans@) =~= views.take(i as int),
            decreases parts@.len() - i,
        {
            let ghost before = span_views(spans@);
            assert(texts(parts@)[i as int] == parts@[i as int]@);
            let span: Span = Span::raw(parts[i].as_str());
            spans.push(span);
            assert(span_views(spans@) =~= before.push(span@));
            i += 1;
        }
        assert(texts(parts@).len() == parts@.len());
        assert(views.take(i as int) =~= views);
        Line { spans, style: Style::new() }
    }

    pub fn styled(self, style: Style) -> (l: Line)
        ensures
            l@ == (LineView { style, ..self@ }),
    {
        Line { spans: self.spans, style }
    }

    pub fn duplicate(&self) -> (l: Line)
        ensures
            l@ == self@,
    {
        let mut spans: Vec<Span> = Vec::new();
        let mut i: usize = 0;
        while i < self.spans.len()
            invariant
                i <= self.spans@.len(),
                span_views(spans@) =~= self@.spans.take(i as int),
            decreases self.spans@.len() - i,
        {
            let ghost before = span_views(spans@);
            let s: Span = self.spans[i].duplicate();
            spans.push(s);
            assert(span_views(spans@) =~= before.push(s@));
            i += 1;
        }
        Line { spans, style: self.style }
    }
}

/// Appends one line.
pub fn push_line(out: &mut Vec<Line>, line: Line)
    ensures
        line_views(final(out)@) == line_views(old(out)@).push(line@),
{
    out.push(line);
    assert(line_views(out@) =~= line_views(old(out)@).push(line@));
}

/// Appends all of `more`.
pub fn append_lines(out: &mut Vec<Line>, more: Vec<Line>)
    ensures
        line_views(final(out)@) == line_views(old(out)@) + line_views(more@),
{
    let mut more: Vec<Line> = more;
    let ghost added = more@;
    out.append(&mut more);
    assert(line_views(out@) =~= line_views(old(out)@) + line_views(added));
}

/// A copy of `lines`.
pub fn duplicate_lines(lines: &Vec<Line>) -> (r: Vec<Line>)
    ensures
        line_views(r@) == line_views(lines@),
{
    let mut out: Vec<Line> = Vec::new();
    let mut i: usize = 0;
    assert(line_views(out@) =~= line_views(lines@).take(0));
    while i < lines.len()
        invariant
            i <= lines@.len(),
            line_views(out@) == line_views(lines@).take(i as int),
        decreases lines@.len() - i,
    {
        let copy: Line = lines[i].duplicate();
        push_line(&mut out, copy);
        assert(line_views(lines@).take(i + 1) =~= line_views(lines@).take(i as int).push(
            lines@[i as int]@,
        ));
        i += 1;
    }
    assert(line_views(lines@).take(i as int) =~= line_views(lines@));
    out
}

pub open spec fn no_lines() -> Seq<LineView> {
    Seq::empty()
}

/// A list without lines.
pub fn new_lines() -> (r: Vec<Line>)
    ensures
        line_views(r@) == no_lines(),
{
    let r: Vec<Line> = Vec::new();
    assert(line_views(r@) =~= no_lines());
    r
}

/// Appends one span.
pub fn push_span(out: &mut Vec<Span>, span: Span)
    ensures
        span_views(final(out)@) == span_views(old(out)@).push(span@),
{
    out.push(span);
    assert(span_views(out@) =~= span_views(old(out)@).push(span@));
}

/// The text of a line, its styles left out.
pub open spec fn line_text(line: LineView) -> Seq<char> {
    spans_text(line.spans)
}

pub open spec fn spans_text(spans: Seq<SpanView>) -> Seq<char>
    decreases spans.len(),
{
    if spans.len() == 0 {
        Seq::empty()
    } else {
        spans_text(spans.drop_last()) + spans.last().content
    }
}

/// The text of `line`.
pub fn text_of_line(line: &Line) -> (r: String)
    ensures
        r@ == line_text(line@),
{
    let mut out: String = String::new();
    let mut i: usize = 0;
    while i < line.spans.len()
        invariant
            i <= line.spans@.len(),
            out@ == spans_text(line@.spans.take(i as int)),
        decreases line.spans@.len() - i,
    {
        out.push_str(line.spans[i].content.as_str());
        assert(line@.spans.take(i + 1).drop_last() =~= line@.spans.take(i as int));
        i += 1;
    }
    assert(line@.spans.take(i as int) =~= line@.spans);
    out
}

// ---------------------------------------------------------------------------
// Laws
// ---------------------------------------------------------------------------

/// Each modifier sets itself and nothing else, and setting it again changes
/// nothing.
pub proof fn modifiers_set_themselves(s: Style)
    ensures
        s.with_bold().add_modifier == (Modifier { bold: true, ..s.add_modifier }),
        s.with_dim().add_modifier == (Modifier { dim: true, ..s.add_modifier }),
        s.with_italic().add_modifier == (Modifier { italic: true, ..s.add_modifier }),
        s.with_underlined().add_modifier == (Modifier { underlined: true, ..s.add_modifier }),
        s.with_reversed().add_modifier == (Modifier { reversed: true, ..s.add_modifier }),
        s.with_crossed_out().add_modifier == (Modifier { crossed_out: true, ..s.add_modifier }),
        s.with_bold().fg == s.fg && s.with_bold().bg == s.bg,
        s.with_dim().fg == s.fg && s.with_dim().bg == s.bg,
        s.with_italic().fg == s.fg && s.with_italic().bg == s.bg,
        s.with_underlined().fg == s.fg && s.with_underlined().bg == s.bg,
        s.with_reversed().fg == s.fg && s.with_reversed().bg == s.bg,
        s.with_crossed_out().fg == s.fg && s.with_crossed_out().bg == s.bg,
{
}

/// Patching a style with another sets what the other sets and keeps the rest.
/// Nothing is patched by the plain style, and the plain style takes all of the
/// other.
pub proof fn patches_win(s: Style, other: Style, more: Style)
    ensures
        s.patched(plain()) == s,
        plain().patched(other) == other,
        other.fg is Some ==> s.patched(other).fg == other.fg,
        other.fg is None ==> s.patched(other).fg == s.fg,
        other.bg is Some ==> s.patched(other).bg == other.bg,
        other.bg is None ==> s.patched(other).bg == s.bg,
        other.add_modifier.bold || s.add_modifier.bold <==> s.patched(other).add_modifier.bold,
        other.add_modifier.dim || s.add_modifier.dim <==> s.patched(other).add_modifier.dim,
        other.add_modifier.italic || s.add_modifier.italic <==> s.patched(other).add_modifier.italic,
        other.add_modifier.underlined || s.add_modifier.underlined <==> s.patched(
            other,
        ).add_modifier.underlined,
        other.add_modifier.reversed || s.add_modifier.reversed <==> s.patched(
            other,
        ).add_modifier.reversed,
        other.add_modifier.crossed_out || s.add_modifier.crossed_out <==> s.patched(
            other,
        ).add_modifier.crossed_out,
        s.patched(other).patched(more) == s.patched(other.patched(more)),
{
}

/// A colour is set on text or behind it, alone.
pub proof fn colors_are_set_alone(c: Color)
    ensures
        fg_style(c).fg == Some(c),
        fg_style(c).bg is None,
        fg_style(c).add_modifier == plain().add_modifier,
        bg_style(c).bg == Some(c),
        bg_style(c).fg is None,
        bg_style(c).add_modifier == plain().add_modifier,
        plain().fg is None,
        plain().bg is None,
        !plain().add_modifier.bold && !plain().add_modifier.dim && !plain().add_modifier.italic,
        !plain().add_modifier.underlined && !plain().add_modifier.reversed
            && !plain().add_modifier.crossed_out,
{
}

/// The text of a line is that of its spans, one behind the other.
pub proof fn line_texts_run_on(spans: Seq<SpanView>, span: SpanView, style: Style)
    ensures
        line_text(LineView { spans: spans.push(span), style }) == line_text(
            LineView { spans, style },
        ) + span.content,
        line_text(LineView { spans: Seq::empty(), style }).len() == 0,
{
    assert(spans.push(span).drop_last() =~= spans);
}

} // verus!
