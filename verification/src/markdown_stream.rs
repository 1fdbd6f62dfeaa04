//! Markdown that arrives in pieces: complete lines are drawn as they come.
use vstd::prelude::*;
use crate::markdown_render::{append_markdown, rendered};
use crate::style::{line_views, new_lines, no_lines, Line, LineView};
use crate::text::{chars_of, owned, string_of};

verus! {

/// Index of the last occurrence of `ch`.
pub open spec fn last_index(text: Seq<char>, ch: char) -> Option<nat>
    decreases text.len(),
{
    if text.len() == 0 {
        None
    } else if text.last() == ch {
        Some((text.len() - 1) as nat)
    } else {
        last_index(text.drop_last(), ch)
    }
}

proof fn lemma_last_index(text: Seq<char>, ch: char)
    ensures
        last_index(text, ch) matches Some(i) ==> i < text.len() && text[i as int] == ch,
    decreases text.len(),
{
    if text.len() > 0 && text.last() != ch {
        lemma_last_index(text.drop_last(), ch);
    }
}

pub fn find_last(chars: &Vec<char>, ch: char) -> (r: Option<usize>)
    ensures
        match r {
            Some(i) => last_index(chars@, ch) == Some(i as nat) && i < chars.len(),
            None => last_index(chars@, ch) is None,
        },
{
    let mut n: usize = chars.len();
    assert(chars@.take(n as int) =~= chars@);
    while n > 0
        invariant
            n <= chars@.len(),
            last_index(chars@, ch) == last_index(chars@.take(n as int), ch),
        decreases n,
    {
        if chars[n - 1] == ch {
            return Some(n - 1);
        }
        assert(chars@.take(n as int).drop_last() =~= chars@.take(n - 1));
        n -= 1;
    }
    None
}

/// The text behind the last line feed.
pub open spec fn tail_of(text: Seq<char>) -> Seq<char> {
    match last_index(text, '\n') {
        Some(i) => text.skip((i + 1) as int),
        None => text,
    }
}

/// `text`, ended by a line feed.
pub open spec fn line_ended(text: Seq<char>) -> Seq<char> {
    if text.len() > 0 && text.last() == '\n' {
        text
    } else {
        text.push('\n')
    }
}

/// What is drawn of `lines` behind the first `n`.
pub open spec fn behind(lines: Seq<LineView>, n: nat) -> Seq<LineView> {
    if n >= lines.len() {
        no_lines()
    } else {
        lines.skip(n as int)
    }
}

/// The text so far, how many of its lines were handed out, the line feed up to
/// which it was drawn last, and how often it was drawn.
#[verifier::ext_equal]
pub struct CollectorView {
    pub buffer: Seq<char>,
    pub committed: usize,
    pub parsed_to: Option<usize>,
    pub width: Option<usize>,
    pub parse_count: usize,
}

pub open spec fn fresh_collector(width: Option<usize>) -> CollectorView {
    CollectorView {
        buffer: Seq::empty(),
        committed: 0,
        parsed_to: None,
        width,
        parse_count: 0,
    }
}

pub open spec fn bumped(n: usize) -> usize {
    if n < usize::MAX {
        (n + 1) as usize
    } else {
        n
    }
}

impl CollectorView {
    pub open spec fn with_delta(self, delta: Seq<char>) -> CollectorView {
        CollectorView { buffer: self.buffer + delta, ..self }
    }

    /// Draws up to the last line feed unless that was done already, and hands
    /// out the lines that are new.
    pub open spec fn commit(self) -> (CollectorView, Seq<LineView>) {
        match last_index(self.buffer, '\n') {
            None => (self, no_lines()),
            Some(i) => if self.parsed_to == Some(i as usize) {
                (self, no_lines())
            } else {
                let lines = rendered(self.buffer.take((i + 1) as int));
                let parsed = CollectorView {
                    parsed_to: Some(i as usize),
                    parse_count: bumped(self.parse_count),
                    ..self
                };
                if self.committed >= lines.len() {
                    (parsed, no_lines())
                } else {
                    (
                        CollectorView { committed: lines.len() as usize, ..parsed },
                        lines.skip(self.committed as int),
                    )
                }
            },
        }
    }

    /// The lines of the whole text that were not handed out.
    pub open spec fn remaining(self) -> Seq<LineView> {
        behind(rendered(line_ended(self.buffer)), self.committed as nat)
    }
}

/// Collects Markdown deltas and hands out the lines they complete.
#[derive(Debug)]
pub struct MarkdownStreamCollector {
    buffer: String,
    committed_line_count: usize,
    last_parsed_newline_idx: Option<usize>,
    width: Option<usize>,
    parse_count: usize,
}

impl View for MarkdownStreamCollector {
    type V = CollectorView;

    closed spec fn view(&self) -> CollectorView {
        CollectorView {
            buffer: self.buffer@,
            committed: self.committed_line_count,
            parsed_to: self.last_parsed_newline_idx,
            width: self.width,
            parse_count: self.parse_count,
        }
    }
}

impl MarkdownStreamCollector {
    pub fn new(width: Option<usize>) -> (r: MarkdownStreamCollector)
        ensures
            r@ == fresh_collector(width),
    {
        MarkdownStreamCollector {
            buffer: String::new(),
            committed_line_count: 0,
            last_parsed_newline_idx: None,
            width,
            parse_count: 0,
        }
    }

    pub fn push_delta(&mut self, delta: &str)
        ensures
            final(self)@ == old(self)@.with_delta(delta@),
    {
        self.buffer.push_str(delta);
    }

    /// The text behind the last complete line.
    pub fn pending_tail(&self) -> (r: String)
        ensures
            r@ == tail_of(self@.buffer),
    {
        let chars: Vec<char> = chars_of(self.buffer.as_str());
        let start: usize = match find_last(&chars, '\n') {
            Some(i) => i + 1,
            None => 0,
        };
        let out: String = string_of(&chars, start, chars.len());
        assert(out@ =~= tail_of(self@.buffer));
        out
    }

    /// The whole text so far.
    pub fn source(&self) -> (r: String)
        ensures
            r@ == self@.buffer,
    {
        owned(self.buffer.as_str())
    }

    /// The lines completed since the last call.
    pub fn commit_complete_lines(&mut self) -> (r: Vec<Line>)
        ensures
            (final(self)@, line_views(r@)) == old(self)@.commit(),
    {
        let chars: Vec<char> = chars_of(self.buffer.as_str());
        let last: usize = match find_last(&chars, '\n') {
            Some(i) => i,
            None => return new_lines(),
        };
        if let Some(seen) = self.last_parsed_newline_idx {
            if seen == last {
                return new_lines();
            }
        }
        let source: String = string_of(&chars, 0, last + 1);
        assert(source@ =~= self.buffer@.take(last + 1));
        let mut rendered: Vec<Line> = new_lines();
        self.parse_count = self.parse_count.saturating_add(1);
        append_markdown(source.as_str(), self.width, &mut rendered);
        assert(no_lines() + crate::markdown_render::rendered(source@)
            =~= crate::markdown_render::rendered(source@));
        self.last_parsed_newline_idx = Some(last);
        if self.committed_line_count >= rendered.len() {
            return new_lines();
        }
        let total: usize = rendered.len();
        let ghost all = rendered@;
        let out: Vec<Line> = rendered.split_off(self.committed_line_count);
        assert(line_views(out@) =~= line_views(all).skip(self.committed_line_count as int));
        self.committed_line_count = total;
        out
    }

    /// The lines of the text that were not handed out, its last line taken as
    /// complete; the collector starts anew.
    pub fn finalize_and_drain(&mut self) -> (r: Vec<Line>)
        ensures
            final(self)@ == fresh_collector(old(self)@.width),
            line_views(r@) == old(self)@.remaining(),
    {
        let chars: Vec<char> = chars_of(self.buffer.as_str());
        let mut source: String = self.buffer.clone();
        if chars.len() == 0 || chars[chars.len() - 1] != '\n' {
            source.push('\n');
        }
        assert(source@ == line_ended(self.buffer@));
        let mut rendered: Vec<Line> = new_lines();
        append_markdown(source.as_str(), self.width, &mut rendered);
        assert(no_lines() + crate::markdown_render::rendered(source@)
            =~= crate::markdown_render::rendered(source@));
        let out: Vec<Line> = if self.committed_line_count >= rendered.len() {
            new_lines()
        } else {
            let ghost all = rendered@;
            let rest: Vec<Line> = rendered.split_off(self.committed_line_count);
            assert(line_views(rest@) =~= line_views(all).skip(self.committed_line_count as int));
            rest
        };
        self.clear();
        out
    }

    pub fn clear(&mut self)
        ensures
            final(self)@ == fresh_collector(old(self)@.width),
    {
        self.buffer = String::new();
        self.committed_line_count = 0;
        self.last_parsed_newline_idx = None;
        self.parse_count = 0;
    }

    /// How often the text was drawn.
    pub fn parse_count(&self) -> (r: usize)
        ensures
            r == self@.parse_count,
    {
        self.parse_count
    }
}

// ---------------------------------------------------------------------------
// A message being streamed
// ---------------------------------------------------------------------------

#[verifier::ext_equal]
pub struct StreamView {
    pub collector: CollectorView,
    pub committed: Seq<LineView>,
}

pub open spec fn fresh_stream(width: Option<usize>) -> StreamView {
    StreamView { collector: fresh_collector(width), committed: no_lines() }
}

impl StreamView {
    pub open spec fn pushed(self, delta: Seq<char>) -> StreamView {
        let (collector, lines) = self.collector.with_delta(delta).commit();
        StreamView { collector, committed: self.committed + lines }
    }

    /// The complete lines, and the rest as it stands.
    pub open spec fn snapshot(self) -> Option<Seq<LineView>> {
        let tail = tail_of(self.collector.buffer);
        let lines = if tail.len() > 0 {
            self.committed.push(crate::style::raw_line(tail))
        } else {
            self.committed
        };
        if lines.len() > 0 {
            Some(lines)
        } else {
            None
        }
    }

    /// The lines of the whole message and its source.
    pub open spec fn parts(self) -> Option<(Seq<LineView>, Seq<char>)> {
        let lines = self.committed + self.collector.remaining();
        if lines.len() > 0 {
            Some((lines, self.collector.buffer))
        } else {
            None
        }
    }
}

/// A message that is being streamed.
#[derive(Debug)]
pub struct StreamController {
    collector: MarkdownStreamCollector,
    committed_lines: Vec<Line>,
}

impl View for StreamController {
    type V = StreamView;

    closed spec fn view(&self) -> StreamView {
        StreamView { collector: self.collector@, committed: line_views(self.committed_lines@) }
    }
}

pub open spec fn parts_view(parts: Option<(Vec<Line>, String)>) -> Option<
    (Seq<LineView>, Seq<char>),
> {
    match parts {
        Some((lines, raw)) => Some((line_views(lines@), raw@)),
        None => None,
    }
}

pub open spec fn opt_lines(lines: Option<Vec<Line>>) -> Option<Seq<LineView>> {
    match lines {
        Some(lines) => Some(line_views(lines@)),
        None => None,
    }
}

impl StreamController {
    pub fn new(width: Option<usize>) -> (r: StreamController)
        ensures
            r@ == fresh_stream(width),
    {
        StreamController { collector: MarkdownStreamCollector::new(width), committed_lines: new_lines() }
    }

    /// Takes the next piece; tells whether it completed any lines.
    pub fn push(&mut self, delta: &str) -> (r: bool)
        ensures
            final(self)@ == old(self)@.pushed(delta@),
            r == (old(self)@.collector.with_delta(delta@).commit().1.len() > 0),
    {
        self.collector.push_delta(delta);
        let new_lines: Vec<Line> = self.collector.commit_complete_lines();
        if new_lines.len() == 0 {
            assert(old(self)@.committed + line_views(new_lines@) =~= old(self)@.committed);
            return false;
        }
        crate::style::append_lines(&mut self.committed_lines, new_lines);
        true
    }

    pub fn snapshot_lines(&self) -> (r: Option<Vec<Line>>)
        ensures
            opt_lines(r) == self@.snapshot(),
    {
        let mut lines: Vec<Line> = crate::style::duplicate_lines(&self.committed_lines);
        let tail: String = self.collector.pending_tail();
        if !tail.as_str().is_empty() {
            crate::style::push_line(&mut lines, Line::raw(tail.as_str()));
        }
        if lines.len() > 0 {
            Some(lines)
        } else {
            None
        }
    }

    /// Ends the message: its lines and its source, if there is anything.
    pub fn finalize_parts(self) -> (r: Option<(Vec<Line>, String)>)
        ensures
            parts_view(r) == self@.parts(),
    {
        let mut collector: MarkdownStreamCollector = self.collector;
        let mut lines: Vec<Line> = self.committed_lines;
        let raw: String = collector.source();
        let rest: Vec<Line> = collector.finalize_and_drain();
        crate::style::append_lines(&mut lines, rest);
        if lines.len() > 0 {
            Some((lines, raw))
        } else {
            None
        }
    }

    /// Ends the message: its lines, if there are any.
    pub fn finalize_lines(self) -> (r: Option<Vec<Line>>)
        ensures
            opt_lines(r) == match self@.parts() {
                Some((lines, _)) => Some(lines),
                None => None,
            },
    {
        match self.finalize_parts() {
            Some((lines, _)) => Some(lines),
            None => None,
        }
    }
}

// ---------------------------------------------------------------------------
// Laws
// ---------------------------------------------------------------------------

/// A second commit without a new line feed hands out nothing and draws
/// nothing, whatever was added behind the last line.
pub proof fn commit_is_idempotent(c: CollectorView, delta: Seq<char>)
    requires
        c.buffer.len() <= usize::MAX,
        last_index(delta, '\n') is None,
    ensures
        c.commit().0.with_delta(delta).commit() == (
            c.commit().0.with_delta(delta),
            no_lines(),
        ),
{
    lemma_last_index_concat(c.buffer, delta, '\n');
    lemma_last_index(c.buffer, '\n');
}

proof fn lemma_last_index_concat(a: Seq<char>, b: Seq<char>, ch: char)
    requires
        last_index(b, ch) is None,
    ensures
        last_index(a + b, ch) == last_index(a, ch),
    decreases b.len(),
{
    if b.len() == 0 {
        assert(a + b =~= a);
    } else {
        assert((a + b).drop_last() =~= a + b.drop_last());
        lemma_last_index_concat(a, b.drop_last(), ch);
    }
}

/// Nothing is handed out before the first line feed.
pub proof fn no_commit_without_line_feed(c: CollectorView)
    requires
        last_index(c.buffer, '\n') is None,
    ensures
        c.commit() == (c, no_lines()),
{
}

/// However a message is cut into pieces, its source is their concatenation.
pub proof fn stream_keeps_source(s: StreamView, delta: Seq<char>)
    ensures
        s.pushed(delta).collector.buffer == s.collector.buffer + delta,
        s.pushed(delta).parts() matches Some((_, raw)) ==> raw == s.collector.buffer + delta,
{
}

/// The last place of a character is one of its places, and none comes behind.
pub proof fn last_places_are_last(text: Seq<char>, ch: char)
    ensures
        match last_index(text, ch) {
            Some(i) => i < text.len() && text[i as int] == ch && forall|j: int|
                i < j < text.len() ==> #[trigger] text[j] != ch,
            None => forall|j: int| 0 <= j < text.len() ==> #[trigger] text[j] != ch,
        },
    decreases text.len(),
{
    if text.len() > 0 && text.last() != ch {
        let init = text.drop_last();
        last_places_are_last(init, ch);
        assert forall|j: int| 0 <= j < text.len() implies text[j] == if j < init.len() {
            init[j]
        } else {
            text.last()
        } by {}
    }
}

/// The open line of a text is what stands behind its last line feed.
pub proof fn open_lines_end_the_text(text: Seq<char>)
    ensures
        ({
            let tail = tail_of(text);
            let start = text.len() - tail.len();
            &&& 0 <= start
            &&& forall|i: int| 0 <= i < tail.len() ==> #[trigger] tail[i] == text[start + i]
            &&& forall|i: int| 0 <= i < tail.len() ==> #[trigger] tail[i] != '\n'
            &&& start == 0 || text[start - 1] == '\n'
        }),
{
    last_places_are_last(text, '\n');
}

/// While a message streams, its complete lines are shown and below them the
/// line that is still open, as it stands.
pub proof fn open_lines_are_shown(s: StreamView)
    ensures
        ({
            let tail = tail_of(s.collector.buffer);
            &&& tail.len() == 0 && s.committed.len() == 0 ==> s.snapshot() is None
            &&& tail.len() == 0 && s.committed.len() > 0 ==> s.snapshot() == Some(s.committed)
            &&& tail.len() > 0 ==> s.snapshot() is Some && s.snapshot()->0.len()
                == s.committed.len() + 1 && s.snapshot()->0.last() == crate::style::raw_line(tail)
                && forall|i: int|
                0 <= i < s.committed.len() ==> #[trigger] s.snapshot()->0[i] == s.committed[i]
        }),
{
}

/// A piece that ends a line hands out the lines of the whole text that were not
/// handed out before; a piece that ends none hands out nothing.
pub proof fn ended_lines_are_handed_out(s: StreamView, delta: Seq<char>)
    requires
        s.collector.committed == s.committed.len(),
        s.collector.buffer.len() + delta.len() <= usize::MAX,
        s.collector.parsed_to is Some ==> s.collector.parsed_to->0 < s.collector.buffer.len(),
        rendered(s.collector.buffer + delta).len() <= usize::MAX,
    ensures
        ({
            let after = s.pushed(delta);
            let text = s.collector.buffer + delta;
            &&& after.collector.buffer == text
            &&& last_index(delta, '\n') is None && last_index(s.collector.buffer, '\n') is None
                ==> after.committed == s.committed
            &&& after.committed.len() >= s.committed.len()
            &&& forall|i: int|
                0 <= i < s.committed.len() ==> #[trigger] after.committed[i] == s.committed[i]
            &&& delta.len() > 0 && delta.last() == '\n' ==> {
                let lines = rendered(text);
                &&& lines.len() > s.committed.len() ==> after.committed.len() == lines.len()
                &&& forall|i: int|
                    s.committed.len() <= i < lines.len() ==> #[trigger] after.committed[i]
                        == lines[i]
            }
        }),
{
    let text = s.collector.buffer + delta;
    last_places_are_last(text, '\n');
    last_places_are_last(delta, '\n');
    last_places_are_last(s.collector.buffer, '\n');
    if last_index(delta, '\n') is None && last_index(s.collector.buffer, '\n') is None {
        lemma_last_index_concat(s.collector.buffer, delta, '\n');
    }
    if delta.len() > 0 && delta.last() == '\n' {
        assert(text.last() == '\n');
        assert(text.take(text.len() as int) =~= text);
    }
}

/// A message that ends without a line feed is drawn as if it had one, and the
/// lines that were handed out are followed by the rest.
pub proof fn ended_messages_are_complete(s: StreamView)
    requires
        s.collector.committed == s.committed.len(),
    ensures
        ({
            let text = s.collector.buffer;
            let whole = if text.len() > 0 && text.last() == '\n' {
                rendered(text)
            } else {
                rendered(text.push('\n'))
            };
            match s.parts() {
                Some((lines, raw)) => {
                    &&& raw == text
                    &&& forall|i: int|
                        0 <= i < s.committed.len() ==> #[trigger] lines[i] == s.committed[i]
                    &&& whole.len() >= s.committed.len() ==> lines.len() == whole.len()
                    &&& forall|i: int|
                        s.committed.len() <= i < whole.len() ==> #[trigger] lines[i] == whole[i]
                },
                None => whole.len() == 0 && s.committed.len() == 0,
            }
        }),
{
}

} // verus!
