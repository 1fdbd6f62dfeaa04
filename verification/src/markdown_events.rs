//! The events of a Markdown document, read with `pulldown_cmark`.
use pulldown_cmark::{CodeBlockKind, Event, Options, Parser, Tag, TagEnd};
use vstd::prelude::*;
use crate::protocol::opt_text;

verus! {

/// An event of the parser, opaque.
#[verifier::external_type_specification]
#[verifier::external_body]
pub struct ExEvent<'a>(pulldown_cmark::Event<'a>);

/// The start of an element, opaque.
#[verifier::external_type_specification]
#[verifier::external_body]
pub struct ExTag<'a>(pulldown_cmark::Tag<'a>);

/// The end of an element, opaque.
#[verifier::external_type_specification]
#[verifier::external_body]
pub struct ExTagEnd(pulldown_cmark::TagEnd);

/// The start of an element; `Other` stands for those of extensions that are
/// switched off.
#[derive(Debug)]
pub enum MdTag {
    Paragraph,
    /// A heading, with its level from one to six.
    Heading(u8),
    BlockQuote,
    HtmlBlock,
    /// A code block, with its info string if it is fenced.
    CodeBlock(Option<String>),
    /// A list, with the number of its first item if it is ordered.
    List(Option<u64>),
    Item,
    Emphasis,
    Strong,
    Strikethrough,
    Link,
    Image,
    Other,
}

/// The end of an element; `Other` stands for those of extensions that are
/// switched off.
#[derive(Clone, Copy, Debug, PartialEq, Eq, Structural)]
pub enum MdTagEnd {
    Paragraph,
    Heading,
    BlockQuote,
    HtmlBlock,
    CodeBlock,
    List,
    Item,
    Emphasis,
    Strong,
    Strikethrough,
    Link,
    Image,
    Other,
}

/// An event of a document.
#[derive(Debug)]
pub enum MdEvent {
    Start(MdTag),
    End(MdTagEnd),
    Text(String),
    Code(String),
    Math(String),
    Html(String),
    Footnote(String),
    Break,
    Rule,
    Task(bool),
}

#[verifier::ext_equal]
pub enum MdTagView {
    Paragraph,
    Heading(u8),
    BlockQuote,
    HtmlBlock,
    CodeBlock(Option<Seq<char>>),
    List(Option<u64>),
    Item,
    Emphasis,
    Strong,
    Strikethrough,
    Link,
    Image,
    Other,
}

#[verifier::ext_equal]
pub enum MdEventView {
    Start(MdTagView),
    End(MdTagEnd),
    Text(Seq<char>),
    Code(Seq<char>),
    Math(Seq<char>),
    Html(Seq<char>),
    Footnote(Seq<char>),
    Break,
    Rule,
    Task(bool),
}

impl View for MdTag {
    type V = MdTagView;

    open spec fn view(&self) -> MdTagView {
        match *self {
            MdTag::Paragraph => MdTagView::Paragraph,
            MdTag::Heading(level) => MdTagView::Heading(level),
            MdTag::BlockQuote => MdTagView::BlockQuote,
            MdTag::HtmlBlock => MdTagView::HtmlBlock,
            MdTag::CodeBlock(lang) => MdTagView::CodeBlock(opt_text(lang)),
            MdTag::List(first) => MdTagView::List(first),
            MdTag::Item => MdTagView::Item,
            MdTag::Emphasis => MdTagView::Emphasis,
            MdTag::Strong => MdTagView::Strong,
            MdTag::Strikethrough => MdTagView::Strikethrough,
            MdTag::Link => MdTagView::Link,
            MdTag::Image => MdTagView::Image,
            MdTag::Other => MdTagView::Other,
        }
    }
}

impl View for MdEvent {
    type V = MdEventView;

    open spec fn view(&self) -> MdEventView {
        match *self {
            MdEvent::Start(tag) => MdEventView::Start(tag@),
            MdEvent::End(tag) => MdEventView::End(tag),
            MdEvent::Text(text) => MdEventView::Text(text@),
            MdEvent::Code(text) => MdEventView::Code(text@),
            MdEvent::Math(text) => MdEventView::Math(text@),
            MdEvent::Html(text) => MdEventView::Html(text@),
            MdEvent::Footnote(text) => MdEventView::Footnote(text@),
            MdEvent::Break => MdEventView::Break,
            MdEvent::Rule => MdEventView::Rule,
            MdEvent::Task(checked) => MdEventView::Task(checked),
        }
    }
}

pub open spec fn event_views(events: Seq<MdEvent>) -> Seq<MdEventView> {
    events.map_values(|e: MdEvent| e@)
}

/// An event whose tag has not been looked at; one variant for each of the
/// parser's.
pub enum RawEvent {
    Start(Tag<'static>),
    End(TagEnd),
    Text(String),
    Code(String),
    InlineMath(String),
    DisplayMath(String),
    Html(String),
    InlineHtml(String),
    Footnote(String),
    SoftBreak,
    HardBreak,
    Rule,
    Task(bool),
}

#[verifier::ext_equal]
pub enum RawEventView {
    Start(Tag<'static>),
    End(TagEnd),
    Text(Seq<char>),
    Code(Seq<char>),
    InlineMath(Seq<char>),
    DisplayMath(Seq<char>),
    Html(Seq<char>),
    InlineHtml(Seq<char>),
    Footnote(Seq<char>),
    SoftBreak,
    HardBreak,
    Rule,
    Task(bool),
}

impl View for RawEvent {
    type V = RawEventView;

    open spec fn view(&self) -> RawEventView {
        match *self {
            RawEvent::Start(tag) => RawEventView::Start(tag),
            RawEvent::End(tag) => RawEventView::End(tag),
            RawEvent::Text(text) => RawEventView::Text(text@),
            RawEvent::Code(text) => RawEventView::Code(text@),
            RawEvent::InlineMath(text) => RawEventView::InlineMath(text@),
            RawEvent::DisplayMath(text) => RawEventView::DisplayMath(text@),
            RawEvent::Html(text) => RawEventView::Html(text@),
            RawEvent::InlineHtml(text) => RawEventView::InlineHtml(text@),
            RawEvent::Footnote(text) => RawEventView::Footnote(text@),
            RawEvent::SoftBreak => RawEventView::SoftBreak,
            RawEvent::HardBreak => RawEventView::HardBreak,
            RawEvent::Rule => RawEventView::Rule,
            RawEvent::Task(checked) => RawEventView::Task(checked),
        }
    }
}

/// The events that the parser yields for a text.
pub uninterp spec fn parsed_events(text: Seq<char>) -> Seq<Event<'static>>;

/// The variant of an event and what it holds.
pub uninterp spec fn event_parts(event: Event<'static>) -> RawEventView;

/// The variant of a start tag and what it holds.
pub uninterp spec fn tag_parts(tag: Tag<'static>) -> MdTagView;

/// The variant of an end tag.
pub uninterp spec fn tag_end_parts(tag: TagEnd) -> MdTagEnd;

/// `pulldown_cmark::Parser::new_ext` with strikethrough enabled: the events of
/// the CommonMark document `text`, in order. They depend on the text alone.
#[verifier::external_body]
fn parse_events(text: &str) -> (r: Vec<Event<'static>>)
    ensures
        r@ == parsed_events(text@),
{
    Parser::new_ext(text, Options::ENABLE_STRIKETHROUGH).map(|e| e.into_static()).collect()
}

/// Tells the variants of `pulldown_cmark::Event` apart and hands out what the
/// event holds, texts by `CowStr::into_string`.
#[verifier::external_body]
fn read_event(event: Event<'static>) -> (r: RawEvent)
    ensures
        r@ == event_parts(event),
{
    match event {
        Event::Start(tag) => RawEvent::Start(tag),
        Event::End(tag) => RawEvent::End(tag),
        Event::Text(t) => RawEvent::Text(t.into_string()),
        Event::Code(t) => RawEvent::Code(t.into_string()),
        Event::InlineMath(t) => RawEvent::InlineMath(t.into_string()),
        Event::DisplayMath(t) => RawEvent::DisplayMath(t.into_string()),
        Event::Html(t) => RawEvent::Html(t.into_string()),
        Event::InlineHtml(t) => RawEvent::InlineHtml(t.into_string()),
        Event::FootnoteReference(t) => RawEvent::Footnote(t.into_string()),
        Event::SoftBreak => RawEvent::SoftBreak,
        Event::HardBreak => RawEvent::HardBreak,
        Event::Rule => RawEvent::Rule,
        Event::TaskListMarker(checked) => RawEvent::Task(checked),
    }
}

/// Tells the variants of `pulldown_cmark::Tag` apart; those of extensions that
/// are switched off become `Other`. A heading level lies between one and six.
#[verifier::external_body]
fn read_tag(tag: Tag<'static>) -> (r: MdTag)
    ensures
        r@ == tag_parts(tag),
        r matches MdTag::Heading(level) ==> 1 <= level <= 6,
{
    match tag {
        Tag::Paragraph => MdTag::Paragraph,
        Tag::Heading { level, .. } => MdTag::Heading(level as u8),
        Tag::BlockQuote(_) => MdTag::BlockQuote,
        Tag::HtmlBlock => MdTag::HtmlBlock,
        Tag::CodeBlock(CodeBlockKind::Indented) => MdTag::CodeBlock(None),
        Tag::CodeBlock(CodeBlockKind::Fenced(t)) => MdTag::CodeBlock(Some(t.into_string())),
        Tag::List(first) => MdTag::List(first),
        Tag::Item => MdTag::Item,
        Tag::Emphasis => MdTag::Emphasis,
        Tag::Strong => MdTag::Strong,
        Tag::Strikethrough => MdTag::Strikethrough,
        Tag::Link { .. } => MdTag::Link, Tag::Image { .. } => MdTag::Image,
        _ => MdTag::Other,
    }
}

/// Tells the variants of `pulldown_cmark::TagEnd` apart; those of extensions
/// that are switched off become `Other`.
#[verifier::external_body]
fn read_tag_end(tag: TagEnd) -> (r: MdTagEnd)
    ensures
        r == tag_end_parts(tag),
{
    match tag {
        TagEnd::Paragraph => MdTagEnd::Paragraph,
        TagEnd::Heading(_) => MdTagEnd::Heading,
        TagEnd::BlockQuote(_) => MdTagEnd::BlockQuote,
        TagEnd::HtmlBlock => MdTagEnd::HtmlBlock,
        TagEnd::CodeBlock => MdTagEnd::CodeBlock,
        TagEnd::List(_) => MdTagEnd::List,
        TagEnd::Item => MdTagEnd::Item,
        TagEnd::Emphasis => MdTagEnd::Emphasis,
        TagEnd::Strong => MdTagEnd::Strong,
        TagEnd::Strikethrough => MdTagEnd::Strikethrough,
        TagEnd::Link => MdTagEnd::Link,
        TagEnd::Image => MdTagEnd::Image,
        _ => MdTagEnd::Other,
    }
}

/// An event with its tag read.
pub open spec fn event_value(event: Event<'static>) -> MdEventView {
    match event_parts(event) {
        RawEventView::Start(tag) => MdEventView::Start(tag_parts(tag)),
        RawEventView::End(tag) => MdEventView::End(tag_end_parts(tag)),
        RawEventView::Text(text) => MdEventView::Text(text),
        RawEventView::Code(text) => MdEventView::Code(text),
        RawEventView::InlineMath(text) => MdEventView::Math(text),
        RawEventView::DisplayMath(text) => MdEventView::Math(text),
        RawEventView::Html(text) => MdEventView::Html(text),
        RawEventView::InlineHtml(text) => MdEventView::Html(text),
        RawEventView::Footnote(text) => MdEventView::Footnote(text),
        RawEventView::SoftBreak => MdEventView::Break,
        RawEventView::HardBreak => MdEventView::Break,
        RawEventView::Rule => MdEventView::Rule,
        RawEventView::Task(checked) => MdEventView::Task(checked),
    }
}

/// The events of the document `text`.
pub open spec fn markdown_events(text: Seq<char>) -> Seq<MdEventView> {
    parsed_events(text).map_values(|e: Event<'static>| event_value(e))
}

fn convert_event(event: Event<'static>) -> (r: MdEvent)
    ensures
        r@ == event_value(event),
{
    match read_event(event) {
        RawEvent::Start(tag) => MdEvent::Start(read_tag(tag)),
        RawEvent::End(tag) => MdEvent::End(read_tag_end(tag)),
        RawEvent::Text(text) => MdEvent::Text(text),
        RawEvent::Code(text) => MdEvent::Code(text),
        RawEvent::InlineMath(text) => MdEvent::Math(text),
        RawEvent::DisplayMath(text) => MdEvent::Math(text),
        RawEvent::Html(text) => MdEvent::Html(text),
        RawEvent::InlineHtml(text) => MdEvent::Html(text),
        RawEvent::Footnote(text) => MdEvent::Footnote(text),
        RawEvent::SoftBreak => MdEvent::Break,
        RawEvent::HardBreak => MdEvent::Break,
        RawEvent::Rule => MdEvent::Rule,
        RawEvent::Task(checked) => MdEvent::Task(checked),
    }
}

/// Reads the Markdown document `text`.
pub fn read_markdown(text: &str) -> (r: Vec<MdEvent>)
    ensures
        event_views(r@) == markdown_events(text@),
{
    let mut raw: Vec<Event<'static>> = parse_events(text);
    let ghost all = raw@;
    let mut reversed: Vec<MdEvent> = Vec::new();
    while raw.len() > 0
        invariant
            raw@.len() + reversed@.len() == all.len(),
            raw@ == all.take(raw@.len() as int),
            forall|i: int|
                0 <= i < reversed@.len() ==> (#[trigger] reversed@[i])@ == event_value(
                    all[all.len() - 1 - i],
                ),
        decreases raw@.len(),
    {
        if let Some(event) = raw.pop() {
            assert(event == all[raw@.len() as int]);
            reversed.push(convert_event(event));
        }
    }
    let mut out: Vec<MdEvent> = Vec::new();
    let ghost turned = reversed@;
    while reversed.len() > 0
        invariant
            reversed@.len() + out@.len() == all.len(),
            turned.len() == all.len(),
            reversed@ == turned.take(reversed@.len() as int),
            forall|i: int|
                0 <= i < turned.len() ==> (#[trigger] turned[i])@ == event_value(
                    all[all.len() - 1 - i],
                ),
            forall|i: int| 0 <= i < out@.len() ==> (#[trigger] out@[i])@ == event_value(all[i]),
        decreases reversed@.len(),
    {
        if let Some(event) = reversed.pop() {
            assert(event == turned[reversed@.len() as int]);
            out.push(event);
        }
    }
    assert(event_views(out@) =~= markdown_events(text@));
    out
}

// ---------------------------------------------------------------------------
// Laws
// ---------------------------------------------------------------------------

/// Every event of the parser comes through, in order, as what it is.
pub proof fn events_come_through(text: Seq<char>, i: int)
    requires
        0 <= i < parsed_events(text).len(),
    ensures
        markdown_events(text).len() == parsed_events(text).len(),
        ({
            let event = markdown_events(text)[i];
            let raw = event_parts(parsed_events(text)[i]);
            &&& raw matches RawEventView::Text(t) ==> event == MdEventView::Text(t)
            &&& raw matches RawEventView::Code(t) ==> event == MdEventView::Code(t)
            &&& raw matches RawEventView::InlineMath(t) ==> event == MdEventView::Math(t)
            &&& raw matches RawEventView::DisplayMath(t) ==> event == MdEventView::Math(t)
            &&& raw matches RawEventView::Html(t) ==> event == MdEventView::Html(t)
            &&& raw matches RawEventView::InlineHtml(t) ==> event == MdEventView::Html(t)
            &&& raw matches RawEventView::Footnote(t) ==> event == MdEventView::Footnote(t)
            &&& raw matches RawEventView::Task(done) ==> event == MdEventView::Task(done)
            &&& raw is SoftBreak || raw is HardBreak <==> event is Break
            &&& raw is Rule <==> event is Rule
            &&& raw matches RawEventView::Start(tag) ==> event == MdEventView::Start(
                tag_parts(tag),
            )
            &&& raw matches RawEventView::End(tag) ==> event == MdEventView::End(
                tag_end_parts(tag),
            )
        }),
{
}

} // verus!
