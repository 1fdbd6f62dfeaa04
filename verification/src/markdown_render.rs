//! Markdown documents as styled lines.
use vstd::prelude::*;
use crate::markdown_events::{
    event_views, markdown_events, read_markdown, MdEvent, MdEventView, MdTag, MdTagEnd, MdTagView,
};
use crate::protocol::{dup_text, opt_text};
use crate::style::{
    blank_line, fg_style, line_of, line_text, line_views, plain, push_line, push_span, raw_of,
    span_of, span_views, spans_text, Color, Line, LineView, Span, SpanView, Style,
};
use crate::text::{
    blank_texts_are_white_space, decimal, lines_of, numeral, numerals_denote_their_number, owned,
    repeat_char, repeated, split_on, split_text, text_lines, texts, trim, trimmed,
    unseparated_texts_stay_whole, white_space,
};

verus! {

/// The colour of code; on a whole line it marks the line as fenced code.
pub const CODE_COLOR: Color = Color::Cyan;

#[verifier::ext_equal]
pub struct RendererView {
    pub lines: Seq<LineView>,
    pub current: Seq<SpanView>,
    pub styles: Seq<Style>,
    /// The open lists, each with its next number if it is ordered.
    pub lists: Seq<Option<u64>>,
    pub quote_depth: usize,
    pub in_code: bool,
    pub lang: Option<Seq<char>>,
    pub code: Seq<char>,
}

pub open spec fn fresh_renderer() -> RendererView {
    RendererView {
        lines: Seq::empty(),
        current: Seq::empty(),
        styles: Seq::empty(),
        lists: Seq::empty(),
        quote_depth: 0,
        in_code: false,
        lang: None,
        code: Seq::empty(),
    }
}

/// The styles laid over one another.
pub open spec fn overlaid(styles: Seq<Style>) -> Style
    decreases styles.len(),
{
    if styles.len() == 0 {
        plain()
    } else {
        overlaid(styles.drop_last()).patched(styles.last())
    }
}

pub open spec fn heading_style(level: u8) -> Style {
    if level == 1 {
        plain().with_bold().with_underlined()
    } else if level == 2 {
        plain().with_bold()
    } else if level == 3 {
        plain().with_bold().with_italic()
    } else {
        plain().with_italic()
    }
}

pub open spec fn code_style() -> Style {
    fg_style(CODE_COLOR)
}

/// A line of fenced code.
pub open spec fn code_line(spans: Seq<SpanView>) -> LineView {
    LineView { spans, style: code_style() }
}

pub open spec fn code_lines(texts: Seq<Seq<char>>) -> Seq<LineView> {
    texts.map_values(|t: Seq<char>| code_line(seq![span_of("    "@ + t, code_style())]))
}

/// The mark in front of the items of a list, and the list for its next item.
pub open spec fn item_mark(list: Option<u64>) -> (Seq<char>, Option<u64>) {
    match list {
        Some(n) => (
            numeral(n as nat) + ". "@,
            Some(
                if n < u64::MAX {
                    (n + 1) as u64
                } else {
                    n
                },
            ),
        ),
        None => ("- "@, None),
    }
}

impl RendererView {
    /// Ends the current line. An empty one leaves a blank line behind text,
    /// but none inside a list.
    pub open spec fn flushed(self) -> RendererView {
        if self.current.len() == 0 {
            if self.lists.len() == 0 && self.lines.len() > 0 && self.lines.last().spans.len() > 0 {
                RendererView { lines: self.lines.push(blank_line()), ..self }
            } else {
                self
            }
        } else {
            let bar = if self.quote_depth > 0 {
                seq![
                    span_of(
                        repeated('│', self.quote_depth as nat) + " "@,
                        fg_style(Color::Green).with_bold(),
                    ),
                ]
            } else {
                Seq::empty()
            };
            RendererView {
                lines: self.lines.push(line_of(bar + self.current)),
                current: Seq::empty(),
                ..self
            }
        }
    }

    pub open spec fn with_span(self, span: SpanView) -> RendererView {
        RendererView { current: self.current.push(span), ..self }
    }

    /// The first `n` of the segments of a text, each on a line of its own.
    pub open spec fn with_segments(self, segments: Seq<Seq<char>>, style: Style, n: nat) -> RendererView
        decreases n,
    {
        if n == 0 {
            self
        } else {
            let before = self.with_segments(segments, style, (n - 1) as nat);
            let at = if n > 1 {
                before.flushed()
            } else {
                before
            };
            let segment = segments[n - 1];
            if segment.len() > 0 {
                at.with_span(span_of(segment, style))
            } else {
                at
            }
        }
    }

    pub open spec fn with_text(self, text: Seq<char>) -> RendererView {
        if text.len() == 0 {
            self
        } else {
            let segments = split_on(text, '\n');
            self.with_segments(segments, overlaid(self.styles), segments.len())
        }
    }

    pub open spec fn with_style(self, style: Style) -> RendererView {
        RendererView { styles: self.styles.push(style), ..self }
    }

    pub open spec fn without_style(self) -> RendererView {
        if self.styles.len() == 0 {
            self
        } else {
            RendererView { styles: self.styles.drop_last(), ..self }
        }
    }

    pub open spec fn with_item(self) -> RendererView {
        let at = self.flushed();
        if at.lists.len() == 0 {
            at.with_text("- "@)
        } else {
            let (mark, next) = item_mark(at.lists.last());
            RendererView { lists: at.lists.drop_last().push(next), ..at }.with_text(mark)
        }
    }

    pub open spec fn started(self, tag: MdTagView) -> RendererView {
        match tag {
            MdTagView::Paragraph
            | MdTagView::HtmlBlock
            | MdTagView::Image
            | MdTagView::Other => self,
            MdTagView::Heading(level) => self.flushed().with_style(heading_style(level)),
            MdTagView::BlockQuote => {
                let at = self.flushed();
                RendererView {
                    quote_depth: if at.quote_depth < usize::MAX {
                        (at.quote_depth + 1) as usize
                    } else {
                        at.quote_depth
                    },
                    ..at
                }
            },
            MdTagView::CodeBlock(lang) => RendererView { in_code: true, lang, ..self.flushed() },
            MdTagView::List(first) => RendererView { lists: self.lists.push(first), ..self },
            MdTagView::Item => self.with_item(),
            MdTagView::Emphasis => self.with_style(plain().with_italic()),
            MdTagView::Strong => self.with_style(plain().with_bold()),
            MdTagView::Strikethrough => self.with_style(plain().with_crossed_out()),
            MdTagView::Link => self.with_style(fg_style(Color::Blue).with_underlined()),
        }
    }

    /// The gathered code block, as lines.
    pub open spec fn code_shown(self) -> Seq<LineView> {
        let head = match self.lang {
            Some(lang) => if lang.len() > 0 {
                seq![
                    code_line(seq![span_of("```"@, code_style()), span_of(lang, code_style())]),
                ]
            } else {
                Seq::empty()
            },
            None => Seq::empty(),
        };
        let tail = if self.code.len() > 0 && self.code.last() == '\n' && trimmed(self.code).len()
            == 0 {
            seq![code_line(seq![span_of("    "@, code_style())])]
        } else {
            Seq::empty()
        };
        head + code_lines(lines_of(self.code)) + tail
    }

    pub open spec fn code_ended(self) -> RendererView {
        RendererView {
            lines: self.lines + self.code_shown(),
            in_code: false,
            lang: None,
            code: Seq::empty(),
            ..self
        }
    }

    pub open spec fn ended(self, tag: MdTagEnd) -> RendererView {
        match tag {
            MdTagEnd::Paragraph | MdTagEnd::Item => self.flushed(),
            MdTagEnd::Heading => {
                let at = self.without_style().flushed();
                RendererView { lines: at.lines.push(blank_line()), ..at }
            },
            MdTagEnd::BlockQuote => {
                let at = self.flushed();
                RendererView {
                    quote_depth: if at.quote_depth > 0 {
                        (at.quote_depth - 1) as usize
                    } else {
                        0
                    },
                    ..at
                }
            },
            MdTagEnd::CodeBlock => self.code_ended(),
            MdTagEnd::List => {
                let at = self.flushed();
                if at.lists.len() == 0 {
                    at
                } else {
                    RendererView { lists: at.lists.drop_last(), ..at }
                }
            },
            MdTagEnd::Emphasis | MdTagEnd::Strong | MdTagEnd::Strikethrough | MdTagEnd::Link => {
                self.without_style()
            },
            MdTagEnd::HtmlBlock | MdTagEnd::Image | MdTagEnd::Other => self,
        }
    }

    /// Text goes to the code block while one is open.
    pub open spec fn with_text_or_code(self, text: Seq<char>) -> RendererView {
        if self.in_code {
            RendererView { code: self.code + text, ..self }
        } else {
            self.with_text(text)
        }
    }

    pub open spec fn handled(self, event: MdEventView) -> RendererView {
        match event {
            MdEventView::Start(tag) => self.started(tag),
            MdEventView::End(tag) => self.ended(tag),
            MdEventView::Text(text) => self.with_text_or_code(text),
            MdEventView::Html(text) => self.with_text_or_code(text),
            MdEventView::Code(text) => self.with_span(span_of(text, code_style())),
            MdEventView::Math(text) => self.with_span(span_of(text, fg_style(Color::Magenta))),
            MdEventView::Footnote(text) => self.with_text(text),
            MdEventView::Break => if self.in_code {
                RendererView { code: self.code.push('\n'), ..self }
            } else {
                self.flushed()
            },
            MdEventView::Rule => {
                let at = self.flushed();
                RendererView {
                    lines: at.lines.push(
                        LineView { spans: seq![raw_of("───"@)], style: plain().with_dim() },
                    ),
                    ..at
                }
            },
            MdEventView::Task(checked) => self.with_text(
                if checked {
                    "[x] "@
                } else {
                    "[ ] "@
                },
            ),
        }
    }

    pub open spec fn handled_all(self, events: Seq<MdEventView>) -> RendererView
        decreases events.len(),
    {
        if events.len() == 0 {
            self
        } else {
            self.handled_all(events.drop_last()).handled(events.last())
        }
    }

    pub open spec fn finished(self) -> Seq<LineView> {
        let at = if self.in_code {
            self.code_ended()
        } else {
            self
        };
        without_blank_tail(at.flushed().lines)
    }
}

/// Whether every span of a line is white space.
pub open spec fn is_blank(line: LineView) -> bool {
    forall|i: int| 0 <= i < line.spans.len() ==> trimmed(#[trigger] line.spans[i].content).len() == 0
}

pub open spec fn without_blank_tail(lines: Seq<LineView>) -> Seq<LineView>
    decreases lines.len(),
{
    if lines.len() > 0 && is_blank(lines.last()) {
        without_blank_tail(lines.drop_last())
    } else {
        lines
    }
}

/// The lines that a document's events draw.
pub open spec fn rendered_events(events: Seq<MdEventView>) -> Seq<LineView> {
    fresh_renderer().handled_all(events).finished()
}

/// The lines of the document `text`.
pub open spec fn rendered(text: Seq<char>) -> Seq<LineView> {
    rendered_events(markdown_events(text))
}

// ---------------------------------------------------------------------------
// The renderer
// ---------------------------------------------------------------------------

struct Renderer {
    lines: Vec<Line>,
    current_line: Vec<Span>,
    inline_styles: Vec<Style>,
    list_stack: Vec<Option<u64>>,
    blockquote_depth: usize,
    in_code_block: bool,
    code_block_lang: Option<String>,
    code_block_buffer: String,
}

impl Renderer {
    spec fn view(&self) -> RendererView {
        RendererView {
            lines: line_views(self.lines@),
            current: span_views(self.current_line@),
            styles: self.inline_styles@,
            lists: self.list_stack@,
            quote_depth: self.blockquote_depth,
            in_code: self.in_code_block,
            lang: opt_text(self.code_block_lang),
            code: self.code_block_buffer@,
        }
    }

    fn new() -> (r: Renderer)
        ensures
            r@ == fresh_renderer(),
    {
        let r: Renderer = Renderer {
            lines: Vec::new(),
            current_line: Vec::new(),
            inline_styles: Vec::new(),
            list_stack: Vec::new(),
            blockquote_depth: 0,
            in_code_block: false,
            code_block_lang: None,
            code_block_buffer: String::new(),
        };
        assert(r@ =~= fresh_renderer());
        r
    }

    fn flush_line(&mut self)
        ensures
            final(self)@ == old(self)@.flushed(),
    {
        let n: usize = self.lines.len();
        if self.current_line.len() == 0 {
            if self.list_stack.len() > 0 {
                return;
            }
            if n > 0 {
                assert(self@.lines.last() == self.lines@[n - 1]@);
                if self.lines[n - 1].spans.len() > 0 {
                    push_line(&mut self.lines, Line::blank());
                }
            }
            return;
        }
        let mut spans: Vec<Span> = Vec::new();
        if self.blockquote_depth > 0 {
            let mut bar: String = repeat_char('│', self.blockquote_depth);
            bar.push_str(" ");
            push_span(&mut spans, Span::styled(bar.as_str(), Style::new().fg(Color::Green).bold()));
        }
        let ghost head = span_views(spans@);
        let ghost body = self.current_line@;
        spans.append(&mut self.current_line);
        proof {
            assert(span_views(spans@) =~= head + span_views(body));
            if self.blockquote_depth > 0 {
                assert(head =~= seq![
                    span_of(
                        repeated('│', self.blockquote_depth as nat) + " "@,
                        fg_style(Color::Green).with_bold(),
                    ),
                ]);
            } else {
                assert(head =~= Seq::<SpanView>::empty());
            }
        }
        push_line(&mut self.lines, Line::from_spans(spans));
        assert(self@.current =~= Seq::<SpanView>::empty());
    }

    fn current_style(&self) -> (s: Style)
        ensures
            s == overlaid(self@.styles),
    {
        let mut style: Style = Style::new();
        let mut i: usize = 0;
        while i < self.inline_styles.len()
            invariant
                i <= self.inline_styles@.len(),
                style == overlaid(self.inline_styles@.take(i as int)),
            decreases self.inline_styles@.len() - i,
        {
            style = style.patch(self.inline_styles[i]);
            assert(self.inline_styles@.take(i + 1).drop_last() =~= self.inline_styles@.take(
                i as int,
            ));
            i += 1;
        }
        assert(self.inline_styles@.take(i as int) =~= self.inline_styles@);
        style
    }

    fn push_current(&mut self, span: Span)
        ensures
            final(self)@ == old(self)@.with_span(span@),
    {
        push_span(&mut self.current_line, span);
    }

    fn push_text(&mut self, text: &str)
        ensures
            final(self)@ == old(self)@.with_text(text@),
    {
        if text.is_empty() {
            return;
        }
        let style: Style = self.current_style();
        let segments: Vec<String> = split_text(text, '\n');
        let ghost views = split_on(text@, '\n');
        let mut i: usize = 0;
        while i < segments.len()
            invariant
                texts(segments@) == views,
                i <= segments@.len(),
                self@ == old(self)@.with_segments(views, style, i as nat),
            decreases segments@.len() - i,
        {
            assert(texts(segments@)[i as int] == segments@[i as int]@);
            if i > 0 {
                self.flush_line();
            }
            if !segments[i].as_str().is_empty() {
                self.push_current(Span::styled(segments[i].as_str(), style));
            }
            i += 1;
        }
    }

    fn apply_style(&mut self, style: Style)
        ensures
            final(self)@ == old(self)@.with_style(style),
    {
        self.inline_styles.push(style);
    }

    fn pop_style(&mut self)
        ensures
            final(self)@ == old(self)@.without_style(),
    {
        let popped: Option<Style> = self.inline_styles.pop();
        assert(self@ =~= old(self)@.without_style());
    }

    fn start_item(&mut self)
        ensures
            final(self)@ == old(self)@.with_item(),
    {
        self.flush_line();
        let ghost at = self@;
        let n: usize = self.list_stack.len();
        if n == 0 {
            self.push_text("- ");
            return;
        }
        match self.list_stack[n - 1] {
            Some(next) => {
                let mut mark: String = decimal(next as u128);
                mark.push_str(". ");
                let following: Option<u64> = Some(
                    if next < u64::MAX {
                        next + 1
                    } else {
                        next
                    },
                );
                self.list_stack.set(n - 1, following);
                assert(self.list_stack@ =~= at.lists.drop_last().push(following));
                self.push_text(mark.as_str());
            },
            None => {
                assert(self.list_stack@ =~= at.lists.drop_last().push(None));
                self.push_text("- ");
            },
        }
    }

    fn start_tag(&mut self, tag: &MdTag)
        ensures
            final(self)@ == old(self)@.started(tag@),
    {
        match tag {
            MdTag::Paragraph => {},
            MdTag::Heading(level) => {
                self.flush_line();
                self.apply_style(style_for_heading(*level));
            },
            MdTag::BlockQuote => {
                self.flush_line();
                self.blockquote_depth = self.blockquote_depth.saturating_add(1);
            },
            MdTag::CodeBlock(lang) => {
                self.flush_line();
                self.in_code_block = true;
                self.code_block_lang = dup_text(lang);
            },
            MdTag::List(first) => {
                self.list_stack.push(*first);
            },
            MdTag::Item => {
                self.start_item();
            },
            MdTag::Emphasis => {
                self.apply_style(Style::new().italic());
            },
            MdTag::Strong => {
                self.apply_style(Style::new().bold());
            },
            MdTag::Strikethrough => {
                self.apply_style(Style::new().crossed_out());
            },
            MdTag::Link => {
                self.apply_style(Style::new().fg(Color::Blue).underlined());
            },
            MdTag::HtmlBlock | MdTag::Image | MdTag::Other => {},
        }
    }

    fn end_code_block(&mut self)
        ensures
            final(self)@ == old(self)@.code_ended(),
    {
        let ghost start = self@;
        self.in_code_block = false;
        let style: Style = Style::new().fg(CODE_COLOR);
        let ghost mut shown: Seq<LineView> = Seq::empty();
        match self.code_block_lang.take() {
            Some(lang) => {
                if !lang.as_str().is_empty() {
                    let mut spans: Vec<Span> = Vec::new();
                    push_span(&mut spans, Span::styled("```", style));
                    push_span(&mut spans, Span::styled(lang.as_str(), style));
                    assert(span_views(spans@) =~= seq![
                        span_of("```"@, code_style()),
                        span_of(lang@, code_style()),
                    ]);
                    push_line(&mut self.lines, Line { spans, style });
                    proof {
                        shown = seq![
                            code_line(
                                seq![span_of("```"@, code_style()), span_of(lang@, code_style())],
                            ),
                        ];
                    }
                }
            },
            None => {},
        }
        assert(line_views(self.lines@) =~= start.lines + shown);
        let texts_: Vec<String> = text_lines(self.code_block_buffer.as_str());
        let ghost views = lines_of(start.code);
        let mut i: usize = 0;
        assert(start.lines + shown + code_lines(views.take(0)) =~= start.lines + shown);
        while i < texts_.len()
            invariant
                texts(texts_@) == views,
                i <= texts_@.len(),
                style == code_style(),
                line_views(self.lines@) == start.lines + shown + code_lines(views.take(i as int)),
                (RendererView { lines: start.lines, ..self@ }) == (RendererView {
                    in_code: false,
                    lang: None,
                    ..start
                }),
            decreases texts_@.len() - i,
        {
            assert(texts(texts_@)[i as int] == texts_@[i as int]@);
            let mut shown_text: String = owned("    ");
            shown_text.push_str(texts_[i].as_str());
            let span: Span = Span::styled(shown_text.as_str(), style);
            let line: Line = Line::from_span(span).styled(style);
            push_line(&mut self.lines, line);
            proof {
                assert(views.take(i + 1) =~= views.take(i as int).push(views[i as int]));
                assert(code_lines(views.take(i + 1)) =~= code_lines(views.take(i as int)).push(
                    line@,
                ));
                assert(line_views(self.lines@) =~= start.lines + shown + code_lines(
                    views.take(i + 1),
                ));
            }
            i += 1;
        }
        assert(views.take(i as int) =~= views);
        let blank: String = trim(self.code_block_buffer.as_str());
        let chars: Vec<char> = crate::text::chars_of(self.code_block_buffer.as_str());
        if chars.len() > 0 && chars[chars.len() - 1] == '\n' && blank.as_str().is_empty() {
            push_line(&mut self.lines, Line::from_span(Span::styled("    ", style)).styled(style));
        }
        self.code_block_buffer = String::new();
        assert(self@.lines =~= start.lines + start.code_shown());
    }

    fn end_tag(&mut self, tag: MdTagEnd)
        ensures
            final(self)@ == old(self)@.ended(tag),
    {
        match tag {
            MdTagEnd::Paragraph | MdTagEnd::Item => {
                self.flush_line();
            },
            MdTagEnd::Heading => {
                self.pop_style();
                self.flush_line();
                push_line(&mut self.lines, Line::blank());
            },
            MdTagEnd::BlockQuote => {
                self.flush_line();
                self.blockquote_depth = self.blockquote_depth.saturating_sub(1);
            },
            MdTagEnd::CodeBlock => {
                self.end_code_block();
            },
            MdTagEnd::List => {
                self.flush_line();
                let ghost at = self@;
                let popped: Option<Option<u64>> = self.list_stack.pop();
                assert(at.lists.len() > 0 ==> self@.lists =~= at.lists.drop_last());
            },
            MdTagEnd::Emphasis
            | MdTagEnd::Strong
            | MdTagEnd::Strikethrough
            | MdTagEnd::Link => {
                self.pop_style();
            },
            MdTagEnd::HtmlBlock | MdTagEnd::Image | MdTagEnd::Other => {},
        }
    }

    fn text_or_code(&mut self, text: &str)
        ensures
            final(self)@ == old(self)@.with_text_or_code(text@),
    {
        if self.in_code_block {
            self.code_block_buffer.push_str(text);
        } else {
            self.push_text(text);
        }
    }

    fn handle_event(&mut self, event: &MdEvent)
        ensures
            final(self)@ == old(self)@.handled(event@),
    {
        match event {
            MdEvent::Start(tag) => {
                self.start_tag(tag);
            },
            MdEvent::End(tag) => {
                self.end_tag(*tag);
            },
            MdEvent::Text(text) => {
                self.text_or_code(text.as_str());
            },
            MdEvent::Html(text) => {
                self.text_or_code(text.as_str());
            },
            MdEvent::Code(text) => {
                self.push_current(Span::styled(text.as_str(), Style::new().fg(CODE_COLOR)));
            },
            MdEvent::Math(text) => {
                self.push_current(Span::styled(text.as_str(), Style::new().fg(Color::Magenta)));
            },
            MdEvent::Footnote(text) => {
                self.push_text(text.as_str());
            },
            MdEvent::Break => {
                if self.in_code_block {
                    self.code_block_buffer.push('\n');
                } else {
                    self.flush_line();
                }
            },
            MdEvent::Rule => {
                self.flush_line();
                push_line(&mut self.lines, Line::from_span(Span::raw("───")).styled(Style::new().dim()));
            },
            MdEvent::Task(checked) => {
                if *checked {
                    self.push_text("[x] ");
                } else {
                    self.push_text("[ ] ");
                }
            },
        }
    }

    fn finish(self) -> (r: Vec<Line>)
        ensures
            line_views(r@) == self@.finished(),
    {
        let mut renderer: Renderer = self;
        if renderer.in_code_block {
            renderer.end_code_block();
        }
        renderer.flush_line();
        let mut lines: Vec<Line> = renderer.lines;
        let ghost all = line_views(lines@);
        while lines.len() > 0 && blank_row(&lines[lines.len() - 1])
            invariant
                without_blank_tail(all) == without_blank_tail(line_views(lines@)),
            decreases lines@.len(),
        {
            let ghost before = line_views(lines@);
            assert(before.last() == lines@[lines@.len() - 1]@);
            let popped: Option<Line> = lines.pop();
            assert(line_views(lines@) =~= before.drop_last());
        }
        assert(lines@.len() > 0 ==> line_views(lines@).last() == lines@[lines@.len() - 1]@);
        lines
    }
}

/// Whether every span of `line` is white space.
fn blank_row(line: &Line) -> (r: bool)
    ensures
        r == is_blank(line@),
{
    let mut i: usize = 0;
    while i < line.spans.len()
        invariant
            i <= line.spans@.len(),
            forall|k: int|
                0 <= k < i ==> trimmed(#[trigger] line@.spans[k].content).len() == 0,
        decreases line.spans@.len() - i,
    {
        let inner: String = trim(line.spans[i].content.as_str());
        assert(line@.spans[i as int].content == line.spans@[i as int].content@);
        if !inner.as_str().is_empty() {
            return false;
        }
        i += 1;
    }
    true
}

fn style_for_heading(level: u8) -> (s: Style)
    ensures
        s == heading_style(level),
{
    match level {
        1 => Style::new().bold().underlined(),
        2 => Style::new().bold(),
        3 => Style::new().bold().italic(),
        _ => Style::new().italic(),
    }
}

/// Draws the events of a document.
pub fn render_events(events: &Vec<MdEvent>) -> (r: Vec<Line>)
    ensures
        line_views(r@) == rendered_events(event_views(events@)),
{
    let mut renderer: Renderer = Renderer::new();
    let ghost views = event_views(events@);
    let mut i: usize = 0;
    while i < events.len()
        invariant
            views == event_views(events@),
            i <= events@.len(),
            renderer@ == fresh_renderer().handled_all(views.take(i as int)),
        decreases events@.len() - i,
    {
        renderer.handle_event(&events[i]);
        proof {
            assert(views.take(i + 1).drop_last() =~= views.take(i as int));
            assert(views[i as int] == events@[i as int]@);
        }
        i += 1;
    }
    assert(views.take(i as int) =~= views);
    renderer.finish()
}

/// Draws the Markdown document `input`.
pub fn render_markdown_text(input: &str) -> (r: Vec<Line>)
    ensures
        line_views(r@) == rendered(input@),
{
    render_markdown_text_with_width(input, None)
}

/// Draws the Markdown document `input`. Lines are not wrapped here, so the
/// width makes no difference.
pub fn render_markdown_text_with_width(input: &str, _width: Option<usize>) -> (r: Vec<Line>)
    ensures
        line_views(r@) == rendered(input@),
{
    let events: Vec<MdEvent> = read_markdown(input);
    render_events(&events)
}

/// Appends the lines of the Markdown document `markdown_source`.
pub fn append_markdown(markdown_source: &str, width: Option<usize>, lines: &mut Vec<Line>)
    ensures
        line_views(final(lines)@) == line_views(old(lines)@) + rendered(markdown_source@),
{
    let drawn: Vec<Line> = render_markdown_text_with_width(markdown_source, width);
    crate::style::append_lines(lines, drawn);
}

/// A rendered document does not end in a blank line.
pub proof fn rendered_has_no_blank_tail(events: Seq<MdEventView>)
    ensures
        rendered_events(events).len() > 0 ==> !is_blank(rendered_events(events).last()),
{
    let r = fresh_renderer().handled_all(events);
    let at = if r.in_code {
        r.code_ended()
    } else {
        r
    };
    lemma_without_blank_tail(at.flushed().lines);
}

proof fn lemma_without_blank_tail(lines: Seq<LineView>)
    ensures
        without_blank_tail(lines).len() > 0 ==> !is_blank(without_blank_tail(lines).last()),
    decreases lines.len(),
{
    if lines.len() > 0 && is_blank(lines.last()) {
        lemma_without_blank_tail(lines.drop_last());
    }
}

// ---------------------------------------------------------------------------
// What a document shows
// ---------------------------------------------------------------------------

/// Whether a text stays on one line.
pub open spec fn on_one_line(text: Seq<char>) -> bool {
    text.len() > 0 && forall|i: int| 0 <= i < text.len() ==> #[trigger] text[i] != '\n'
}

/// Text of one line joins the current line as one span, in the style of the
/// marks that are open.
pub proof fn text_joins_the_line(r: RendererView, text: Seq<char>)
    requires
        !r.in_code,
        on_one_line(text),
    ensures
        ({
            let after = r.handled(MdEventView::Text(text));
            &&& after.current.len() == r.current.len() + 1
            &&& after.current.drop_last() == r.current
            &&& after.current.last().content == text
            &&& after.current.last().style == overlaid(r.styles)
            &&& after.lines == r.lines
            &&& after.styles == r.styles
            &&& after.lists == r.lists
            &&& after.quote_depth == r.quote_depth
            &&& !after.in_code
        }),
{
    lemma_one_segment(r, text);
    assert(r.current.push(span_of(text, overlaid(r.styles))).drop_last() =~= r.current);
}

proof fn lemma_one_segment(r: RendererView, text: Seq<char>)
    requires
        on_one_line(text),
    ensures
        r.with_text(text) == r.with_span(span_of(text, overlaid(r.styles))),
{
    unseparated_texts_stay_whole(text, '\n');
    let segments = split_on(text, '\n');
    assert(segments[0] == text);
    reveal_with_fuel(RendererView::with_segments, 2);
}

proof fn lemma_mark_is_one_line(n: nat)
    ensures
        on_one_line(numeral(n) + ". "@),
        !white_space((numeral(n) + ". "@)[0]),
{
    reveal_strlit(". ");
    numerals_denote_their_number(n);
    let mark = numeral(n) + ". "@;
    assert forall|i: int| 0 <= i < mark.len() implies #[trigger] mark[i] != '\n' by {
        if i < numeral(n).len() {
            assert('0' <= numeral(n)[i] <= '9');
        }
    }
    assert('0' <= numeral(n)[0] <= '9');
}

/// An item of an ordered list starts a line with the list's number and a dot,
/// and the next item counts one further; an item of another list starts with a
/// dash. Lists around it are not touched.
pub proof fn items_start_with_their_mark(r: RendererView)
    requires
        r.lists.len() > 0,
    ensures
        ({
            let after = r.handled(MdEventView::Start(MdTagView::Item));
            &&& after.current.len() == 1
            &&& after.lists.len() == r.lists.len()
            &&& after.lists.drop_last() == r.lists.drop_last()
            &&& r.lists.last() matches Some(n) ==> after.current[0].content == numeral(n as nat)
                + ". "@ && (n < u64::MAX ==> after.lists.last() == Some((n + 1) as u64))
            &&& r.lists.last() is None ==> after.current[0].content == "- "@
                && after.lists.last() is None
            &&& after.lines.len() == r.lines.len() + if r.current.len() > 0 {
                1int
            } else {
                0
            }
        }),
{
    let at = r.flushed();
    let (mark, next) = item_mark(at.lists.last());
    let moved = RendererView { lists: at.lists.drop_last().push(next), ..at };
    match at.lists.last() {
        Some(n) => {
            lemma_mark_is_one_line(n as nat);
        },
        None => {
            reveal_strlit("- ");
        },
    }
    lemma_one_segment(moved, mark);
    assert(moved.lists.drop_last() =~= at.lists.drop_last());
}

/// The events of the first `k` items of a list, each with one line of text.
pub open spec fn item_events(texts: Seq<Seq<char>>, k: nat) -> Seq<MdEventView>
    decreases k,
{
    if k == 0 {
        Seq::empty()
    } else {
        item_events(texts, (k - 1) as nat).push(MdEventView::Start(MdTagView::Item)).push(
            MdEventView::Text(texts[k - 1]),
        ).push(MdEventView::End(MdTagEnd::Item))
    }
}

/// The events of a document that is one list.
pub open spec fn list_events(first: Option<u64>, texts: Seq<Seq<char>>) -> Seq<MdEventView> {
    (seq![MdEventView::Start(MdTagView::List(first))] + item_events(texts, texts.len())).push(
        MdEventView::End(MdTagEnd::List),
    )
}

proof fn lemma_handled_push(r: RendererView, events: Seq<MdEventView>, event: MdEventView)
    ensures
        r.handled_all(events.push(event)) == r.handled_all(events).handled(event),
{
    assert(events.push(event).drop_last() =~= events);
}

proof fn lemma_items(first: u64, texts: Seq<Seq<char>>, k: nat)
    requires
        k <= texts.len(),
        first + texts.len() <= u64::MAX,
        forall|i: int| 0 <= i < texts.len() ==> on_one_line(#[trigger] texts[i]),
    ensures
        ({
            let head = seq![MdEventView::Start(MdTagView::List(Some(first)))];
            let r = fresh_renderer().handled_all(head + item_events(texts, k));
            &&& r.lines.len() == k
            &&& r.current.len() == 0
            &&& r.styles.len() == 0
            &&& r.quote_depth == 0
            &&& !r.in_code
            &&& r.lists == seq![Some((first + k) as u64)]
            &&& forall|i: int|
                0 <= i < k ==> (#[trigger] r.lines[i]).spans.len() == 2 && r.lines[i].spans[0].content
                    == numeral((first + i) as nat) + ". "@ && r.lines[i].spans[1].content == texts[i]
        }),
    decreases k,
{
    let head = seq![MdEventView::Start(MdTagView::List(Some(first)))];
    if k == 0 {
        assert(head + item_events(texts, 0) =~= Seq::<MdEventView>::empty().push(head[0]));
        lemma_handled_push(fresh_renderer(), Seq::empty(), head[0]);
        assert(fresh_renderer().handled_all(Seq::empty()) == fresh_renderer());
        assert(fresh_renderer().handled(head[0]).lists =~= seq![Some(first)]);
    } else {
        let before = item_events(texts, (k - 1) as nat);
        let start = MdEventView::Start(MdTagView::Item);
        let text = MdEventView::Text(texts[k - 1]);
        let end = MdEventView::End(MdTagEnd::Item);
        lemma_items(first, texts, (k - 1) as nat);
        let events = head + before;
        assert(head + item_events(texts, k) =~= events.push(start).push(text).push(end));
        let r = fresh_renderer().handled_all(events);
        lemma_handled_push(fresh_renderer(), events, start);
        lemma_handled_push(fresh_renderer(), events.push(start), text);
        lemma_handled_push(fresh_renderer(), events.push(start).push(text), end);
        let opened = r.handled(start);
        items_start_with_their_mark(r);
        assert(r.lists.last() == Some((first + k - 1) as u64));
        assert(opened.lists =~= seq![Some((first + k) as u64)]);
        assert(!opened.in_code && opened.quote_depth == 0 && opened.styles.len() == 0
            && opened.lines == r.lines) by {
            lemma_mark_is_one_line((first + k - 1) as nat);
            let at = r.flushed();
            let (mark, next) = item_mark(at.lists.last());
            lemma_one_segment(
                RendererView { lists: at.lists.drop_last().push(next), ..at },
                mark,
            );
        }
        text_joins_the_line(opened, texts[k - 1]);
        let filled = opened.handled(text);
        let done = filled.handled(end);
        assert(filled.current[0] == opened.current[0]) by {
            assert(filled.current.drop_last()[0] == filled.current[0]);
        }
        assert(Seq::<SpanView>::empty() + filled.current =~= filled.current);
        assert(done.lines =~= r.lines.push(line_of(filled.current)));
    }
}

/// A document of one ordered list renders a row for each item, numbered one
/// after the other from the list's first number.
pub proof fn ordered_lists_count_up(first: u64, texts: Seq<Seq<char>>)
    requires
        first + texts.len() <= u64::MAX,
        forall|i: int| 0 <= i < texts.len() ==> on_one_line(#[trigger] texts[i]),
    ensures
        ({
            let rows = rendered_events(list_events(Some(first), texts));
            &&& rows.len() == texts.len()
            &&& forall|i: int|
                0 <= i < texts.len() ==> line_text(#[trigger] rows[i]) == numeral(
                    (first + i) as nat,
                ) + ". "@ + texts[i]
        }),
{
    let head = seq![MdEventView::Start(MdTagView::List(Some(first)))];
    let events = head + item_events(texts, texts.len());
    let end = MdEventView::End(MdTagEnd::List);
    lemma_items(first, texts, texts.len());
    lemma_handled_push(fresh_renderer(), events, end);
    let r = fresh_renderer().handled_all(events);
    let closed = r.handled(end);
    assert(closed.lists =~= Seq::<Option<u64>>::empty());
    assert(closed.lines == r.lines && closed.current.len() == 0 && !closed.in_code);
    let all = closed.flushed().lines;
    if texts.len() > 0 {
        let last = r.lines[texts.len() - 1];
        assert(last == r.lines.last());
        lemma_mark_is_one_line((first + texts.len() - 1) as nat);
        let mark = last.spans[0].content;
        blank_texts_are_white_space(mark);
        assert(!white_space(mark[0]));
        assert(!is_blank(last));
        assert(last.spans.len() > 0);
        assert(all == r.lines.push(blank_line()));
        assert(is_blank(blank_line()));
        assert(all.drop_last() =~= r.lines);
        reveal_with_fuel(without_blank_tail, 3);
        assert(without_blank_tail(all) == r.lines);
    } else {
        assert(all == r.lines);
    }
    let rows = rendered_events(list_events(Some(first), texts));
    assert(rows == r.lines);
    assert forall|i: int| 0 <= i < texts.len() implies line_text(#[trigger] rows[i]) == numeral(
        (first + i) as nat,
    ) + ". "@ + texts[i] by {
        let spans = rows[i].spans;
        assert(spans.drop_last().drop_last() =~= Seq::<SpanView>::empty());
        reveal_with_fuel(spans_text, 3);
        assert(spans_text(spans.drop_last()) =~= spans[0].content);
    }
}

/// The mark in front of text inside `tag`: what its style adds.
pub open spec fn marks(tag: MdTagView, style: Style) -> bool {
    match tag {
        MdTagView::Emphasis => style.add_modifier.italic,
        MdTagView::Strong => style.add_modifier.bold,
        MdTagView::Strikethrough => style.add_modifier.crossed_out,
        MdTagView::Link => style.add_modifier.underlined && style.fg == Some(Color::Blue),
        _ => true,
    }
}

pub open spec fn end_of(tag: MdTagView) -> MdTagEnd {
    match tag {
        MdTagView::Emphasis => MdTagEnd::Emphasis,
        MdTagView::Strong => MdTagEnd::Strong,
        MdTagView::Strikethrough => MdTagEnd::Strikethrough,
        _ => MdTagEnd::Link,
    }
}

/// Text between the start and the end of an inline mark shows the mark, on top
/// of those around it, and text behind it does not.
pub proof fn inline_marks_end(r: RendererView, tag: MdTagView, inside: Seq<char>, behind: Seq<char>)
    requires
        !r.in_code,
        tag is Emphasis || tag is Strong || tag is Strikethrough || tag is Link,
        on_one_line(inside),
        on_one_line(behind),
    ensures
        ({
            let after = r.handled(MdEventView::Start(tag)).handled(
                MdEventView::Text(inside),
            ).handled(MdEventView::End(end_of(tag))).handled(MdEventView::Text(behind));
            let n = r.current.len() as int;
            &&& after.current.len() == n + 2
            &&& after.current.take(n) == r.current
            &&& after.current[n].content == inside
            &&& marks(tag, after.current[n].style)
            &&& overlaid(r.styles).add_modifier.bold ==> after.current[n].style.add_modifier.bold
            &&& overlaid(r.styles).add_modifier.italic
                ==> after.current[n].style.add_modifier.italic
            &&& after.current[n + 1] == r.handled(MdEventView::Text(behind)).current.last()
            &&& after.styles == r.styles
            &&& after.lines == r.lines
        }),
{
    let opened = r.handled(MdEventView::Start(tag));
    text_joins_the_line(opened, inside);
    let filled = opened.handled(MdEventView::Text(inside));
    assert(opened.styles.drop_last() =~= r.styles);
    let closed = filled.handled(MdEventView::End(end_of(tag)));
    assert(closed.styles =~= r.styles);
    text_joins_the_line(closed, behind);
    text_joins_the_line(r, behind);
    let after = closed.handled(MdEventView::Text(behind));
    let n = r.current.len() as int;
    assert(after.current.drop_last() == filled.current);
    assert(filled.current.drop_last() == r.current);
    assert(after.current[n] == filled.current[n]) by {
        assert(after.current.drop_last()[n] == after.current[n]);
    }
    assert(filled.current[n] == filled.current.last());
    assert(after.current.take(n) =~= r.current) by {
        assert forall|i: int| 0 <= i < n implies after.current[i] == r.current[i] by {
            assert(after.current.drop_last()[i] == after.current[i]);
            assert(filled.current.drop_last()[i] == filled.current[i]);
        }
    }
}

/// The text of a heading is emphasised by its level: bold and underlined, bold,
/// bold and italic, and italic from the fourth on. A blank line follows it, and
/// the emphasis ends with it.
pub proof fn headings_stand_out(r: RendererView, level: u8, text: Seq<char>)
    requires
        !r.in_code,
        r.current.len() == 0,
        r.styles.len() == 0,
        r.quote_depth == 0,
        on_one_line(text),
    ensures
        ({
            let after = r.handled(MdEventView::Start(MdTagView::Heading(level))).handled(
                MdEventView::Text(text),
            ).handled(MdEventView::End(MdTagEnd::Heading));
            let n = after.lines.len() as int;
            let shown = after.lines[n - 2];
            &&& n >= r.lines.len() + 2
            &&& shown.spans.len() == 1
            &&& shown.spans[0].content == text
            &&& shown.spans[0].style.add_modifier.bold == (level == 1 || level == 2 || level == 3)
            &&& shown.spans[0].style.add_modifier.underlined == (level == 1)
            &&& shown.spans[0].style.add_modifier.italic == (level != 1 && level != 2)
            &&& shown.spans[0].style.fg is None
            &&& after.lines[n - 1].spans.len() == 0
            &&& after.styles == r.styles
            &&& after.current.len() == 0
        }),
{
    let opened = r.handled(MdEventView::Start(MdTagView::Heading(level)));
    text_joins_the_line(opened, text);
    let filled = opened.handled(MdEventView::Text(text));
    assert(opened.styles.drop_last() =~= r.styles);
    reveal_with_fuel(overlaid, 2);
    assert(Seq::<SpanView>::empty() + filled.current =~= filled.current);
    assert(filled.current.drop_last() =~= Seq::<SpanView>::empty());
}

/// Text in a quote stands behind one bar for each quote that it is in; a quote
/// that ends takes its bar with it.
pub proof fn quotes_stand_behind_bars(r: RendererView, text: Seq<char>)
    requires
        !r.in_code,
        r.current.len() == 0,
        r.quote_depth < usize::MAX,
        on_one_line(text),
    ensures
        ({
            let after = r.handled(MdEventView::Start(MdTagView::BlockQuote)).handled(
                MdEventView::Text(text),
            ).handled(MdEventView::End(MdTagEnd::Paragraph));
            let shown = after.lines.last();
            &&& after.lines.len() > r.lines.len()
            &&& shown.spans.len() == 2
            &&& shown.spans[0].content == repeated('│', (r.quote_depth + 1) as nat) + " "@
            &&& shown.spans[0].style.fg == Some(Color::Green)
            &&& shown.spans[1].content == text
            &&& after.handled(MdEventView::End(MdTagEnd::BlockQuote)).quote_depth == r.quote_depth
        }),
{
    let opened = r.handled(MdEventView::Start(MdTagView::BlockQuote));
    text_joins_the_line(opened, text);
    let filled = opened.handled(MdEventView::Text(text));
    assert(filled.current.drop_last() =~= Seq::<SpanView>::empty());
    assert(filled.current =~= seq![filled.current.last()]);
}

/// Code between fences is shown line by line and unchanged, behind four blanks
/// and in the colour of code; the language comes first where there is one.
pub proof fn fenced_code_is_shown_verbatim(r: RendererView, lang: Seq<char>, code: Seq<char>)
    requires
        !r.in_code,
        r.code.len() == 0,
    ensures
        ({
            let after = r.handled(MdEventView::Start(MdTagView::CodeBlock(Some(lang)))).handled(
                MdEventView::Text(code),
            ).handled(MdEventView::End(MdTagEnd::CodeBlock));
            let opened = r.flushed().lines;
            let head: int = if lang.len() > 0 {
                1
            } else {
                0
            };
            &&& !after.in_code
            &&& after.code.len() == 0
            &&& after.lines.len() >= opened.len() + head + lines_of(code).len()
            &&& after.lines.take(opened.len() as int) == opened
            &&& lang.len() > 0 ==> line_text(after.lines[opened.len() as int]) == "```"@ + lang
            &&& forall|i: int|
                0 <= i < lines_of(code).len() ==> (#[trigger] after.lines[opened.len() + head
                    + i]).spans.len() == 1 && after.lines[opened.len() + head + i].spans[0].content
                    == "    "@ + lines_of(code)[i] && after.lines[opened.len() + head
                    + i].spans[0].style.fg == Some(Color::Cyan) && after.lines[opened.len() + head
                    + i].style.fg == Some(Color::Cyan)
        }),
{
    let begun = r.handled(MdEventView::Start(MdTagView::CodeBlock(Some(lang))));
    let filled = begun.handled(MdEventView::Text(code));
    assert(filled.code =~= code);
    let after = filled.handled(MdEventView::End(MdTagEnd::CodeBlock));
    let opened = r.flushed().lines;
    assert(after.lines.take(opened.len() as int) =~= opened);
    if lang.len() > 0 {
        let spans = after.lines[opened.len() as int].spans;
        assert(spans =~= seq![span_of("```"@, code_style()), span_of(lang, code_style())]);
        reveal_with_fuel(spans_text, 3);
        assert(spans.drop_last().drop_last() =~= Seq::<SpanView>::empty());
        assert(spans_text(spans.drop_last()) =~= "```"@);
    }
}

/// A line break inside a paragraph ends the row; inside code it is a line feed
/// of the code.
pub proof fn breaks_end_rows(r: RendererView, before: Seq<char>, behind: Seq<char>)
    requires
        !r.in_code,
        r.current.len() == 0,
        r.quote_depth == 0,
        on_one_line(before),
        on_one_line(behind),
    ensures
        ({
            let after = r.handled(MdEventView::Text(before)).handled(MdEventView::Break).handled(
                MdEventView::Text(behind),
            );
            &&& after.lines.len() == r.lines.len() + 1
            &&& after.lines.drop_last() == r.lines
            &&& after.lines.last().spans.len() == 1
            &&& after.lines.last().spans[0].content == before
            &&& after.current.len() == 1
            &&& after.current[0].content == behind
        }),
        (RendererView { in_code: true, ..r }).handled(MdEventView::Break).code == r.code.push('\n'),
{
    text_joins_the_line(r, before);
    let filled = r.handled(MdEventView::Text(before));
    let broken = filled.handled(MdEventView::Break);
    text_joins_the_line(broken, behind);
    assert(Seq::<SpanView>::empty() + filled.current =~= filled.current);
    assert(broken.lines.drop_last() =~= r.lines);
}

/// Inline code keeps its text and shows it in the colour of code; a rule and
/// the boxes of a task list have fixed signs.
pub proof fn signs_are_fixed(r: RendererView, text: Seq<char>, checked: bool)
    requires
        r.current.len() == 0,
    ensures
        r.handled(MdEventView::Code(text)).current.len() == 1,
        r.handled(MdEventView::Code(text)).current[0].content == text,
        r.handled(MdEventView::Code(text)).current[0].style.fg == Some(Color::Cyan),
        r.handled(MdEventView::Task(checked)).current.len() == 1,
        r.handled(MdEventView::Task(checked)).current[0].content == if checked {
            "[x] "@
        } else {
            "[ ] "@
        },
        line_text(r.handled(MdEventView::Rule).lines.last()) == "───"@,
{
    reveal_strlit("[x] ");
    reveal_strlit("[ ] ");
    lemma_one_segment(r, if checked {
        "[x] "@
    } else {
        "[ ] "@
    });
    let spans = r.handled(MdEventView::Rule).lines.last().spans;
    reveal_with_fuel(spans_text, 2);
    assert(spans.drop_last() =~= Seq::<SpanView>::empty());
    assert(spans_text(spans) =~= "───"@);
}

/// A paragraph of one line becomes a row of its own, and leaves nothing open.
pub proof fn paragraphs_become_rows(r: RendererView, text: Seq<char>)
    requires
        r.current.len() == 0,
        !r.in_code,
        r.quote_depth == 0,
        on_one_line(text),
    ensures
        ({
            let after = r.handled(MdEventView::Start(MdTagView::Paragraph)).handled(
                MdEventView::Text(text),
            ).handled(MdEventView::End(MdTagEnd::Paragraph));
            &&& after.lines.len() == r.lines.len() + 1
            &&& after.lines.last().spans =~= seq![span_of(text, overlaid(r.styles))]
            &&& forall|i: int| 0 <= i < r.lines.len() ==> #[trigger] after.lines[i] == r.lines[i]
            &&& after.current.len() == 0
            &&& after.styles == r.styles && after.lists == r.lists
        }),
{
    text_joins_the_line(r, text);
    assert(Seq::<SpanView>::empty() + r.current.push(span_of(text, overlaid(r.styles)))
        =~= seq![span_of(text, overlaid(r.styles))]);
}

/// A line feed in a text ends the row there.
pub proof fn line_feeds_end_rows(r: RendererView, a: Seq<char>, b: Seq<char>)
    requires
        on_one_line(a),
        on_one_line(b),
        r.quote_depth == 0,
        !r.in_code,
    ensures
        ({
            let after = r.handled(MdEventView::Text(a.push('\n') + b));
            let style = overlaid(r.styles);
            &&& after.lines =~= r.lines.push(line_of(r.current.push(span_of(a, style))))
            &&& after.current =~= seq![span_of(b, style)]
        }),
{
    let text = a.push('\n') + b;
    let style = overlaid(r.styles);
    crate::text::splits_run_on(a, b, '\n');
    crate::text::unseparated_texts_stay_whole(a, '\n');
    crate::text::unseparated_texts_stay_whole(b, '\n');
    let segments = split_on(text, '\n');
    assert(segments =~= seq![a, b]);
    reveal_with_fuel(RendererView::with_segments, 3);
    let one = r.with_segments(segments, style, 1);
    assert(one.current =~= r.current.push(span_of(a, style)));
    assert(Seq::<SpanView>::empty() + one.current =~= one.current);
}

/// A list that ends gives back the list around it, with its count as it was.
pub proof fn lists_end_where_they_began(r: RendererView, first: Option<u64>)
    ensures
        ({
            let inside = r.handled(MdEventView::Start(MdTagView::List(first)));
            let after = inside.handled(MdEventView::End(MdTagEnd::List));
            &&& inside.lists.len() == r.lists.len() + 1
            &&& inside.lists.last() == first
            &&& after.lists =~= r.lists
        }),
{
    assert(r.lists.push(first).drop_last() =~= r.lists);
}

/// Only blank lines are dropped from the end of a document.
pub proof fn only_blank_tails_are_dropped(lines: Seq<LineView>)
    ensures
        ({
            let kept = without_blank_tail(lines);
            &&& kept.len() <= lines.len()
            &&& kept =~= lines.take(kept.len() as int)
            &&& kept.len() > 0 ==> !is_blank(kept.last())
            &&& forall|i: int| kept.len() <= i < lines.len() ==> is_blank(#[trigger] lines[i])
        }),
    decreases lines.len(),
{
    if lines.len() > 0 && is_blank(lines.last()) {
        let init = lines.drop_last();
        only_blank_tails_are_dropped(init);
        let kept = without_blank_tail(lines);
        assert(init.take(kept.len() as int) =~= lines.take(kept.len() as int));
        assert forall|i: int| kept.len() <= i < lines.len() implies is_blank(#[trigger] lines[i]) by {
            if i < init.len() {
                assert(init[i] == lines[i]);
            }
        }
    } else {
        assert(lines.take(lines.len() as int) =~= lines);
    }
}

/// Formulas show in magenta, footnotes and markup as text; images and paragraphs
/// open nothing by themselves.
pub proof fn other_marks_show_their_text(r: RendererView, text: Seq<char>)
    requires
        on_one_line(text),
        !r.in_code,
    ensures
        ({
            let style = overlaid(r.styles);
            &&& r.handled(MdEventView::Math(text)).current =~= r.current.push(
                span_of(text, fg_style(Color::Magenta)),
            )
            &&& r.handled(MdEventView::Footnote(text)).current =~= r.current.push(
                span_of(text, style),
            )
            &&& r.handled(MdEventView::Html(text)).current =~= r.current.push(span_of(text, style))
            &&& r.handled(MdEventView::Start(MdTagView::Image)) == r
            &&& r.handled(MdEventView::Start(MdTagView::Paragraph)) == r
            &&& r.handled(MdEventView::End(MdTagEnd::Image)) == r
        }),
{
    text_joins_the_line(r, text);
}

/// Events are handled one after the other, and code that is not ended is shown
/// all the same.
pub proof fn documents_are_rendered_in_order(r: RendererView, events: Seq<MdEventView>, event: MdEventView)
    ensures
        r.handled_all(events.push(event)) == r.handled_all(events).handled(event),
        r.handled_all(Seq::empty()) == r,
        r.in_code ==> r.finished() == r.code_ended().finished(),
{
    assert(events.push(event).drop_last() =~= events);
}

} // verus!
