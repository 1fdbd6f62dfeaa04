//! A transcript: the rows that were committed, the streams that still run
//! below them, and what of both is on screen.
use vstd::prelude::*;
use crate::composer::capped;
use crate::config::ConfigView;
use crate::diff_render::columns_of;
use crate::frame::{append_visible_line, window, with_visible};
use crate::highlight::RenderContext;
use crate::history_cell::{
    answer_rows, assistant_prefix, entry_extent, error_kind, fresh_item, group_rows, highlight_rows,
    highlighted_rows, info_kind, item_rows, item_views, message_rows, pane_columns,
    reasoning_prefix, render_assistant_lines, render_reasoning_lines, selection_keeps_rows,
    started_entry, GroupView, ItemView, KindView, ToolCallGroupCell, ToolCallState, TranscriptItem,
    TranscriptItemId,
};
use crate::markdown_render::{append_markdown, rendered};
use crate::markdown_stream::{fresh_stream, opt_lines, StreamController, StreamView};
use crate::protocol::{
    answer_views, opt_text, AskUserQuestionAnswer, FileChangeOutput, ThreadId, TodoItem,
};
use crate::style::{
    blank_line, duplicate_lines, fg_style, line_views, new_lines, no_lines, plain, push_line, raw_of,
    span_of, Color, Line, LineView, Span, Style,
};
use crate::text::{owned, same_text};
use crate::text_map::{filed, found, unfiled, TextMap};

verus! {

// ---------------------------------------------------------------------------
// State
// ---------------------------------------------------------------------------

/// The rows of an item as drawn at one width.
#[derive(Debug)]
pub struct CachedRenderedRows {
    pub version: u64,
    pub width: u16,
    pub lines: Vec<Line>,
}

/// The rows of the items of a transcript, each kept until its item changes or
/// the width does.
#[derive(Debug)]
pub struct RenderedTranscriptCache {
    pub slots: Vec<Option<CachedRenderedRows>>,
    pub width: Option<u16>,
}

/// Wrapped active assistant/reasoning streams, kept for one width.
#[derive(Debug)]
pub struct ActiveWrap {
    pub width: u16,
    pub reasoning: Vec<Line>,
    pub assistant: Vec<Line>,
}

#[derive(Debug)]
pub struct Transcript {
    pub items: Vec<TranscriptItem>,
    pub next_item_id: TranscriptItemId,
    pub assistant_stream: Option<StreamController>,
    pub reasoning_stream: Option<StreamController>,
    pub active_assistant_lines: Option<Vec<Line>>,
    pub active_reasoning_lines: Option<Vec<Line>>,
    /// For each call, the item and the entry in it that show the call.
    pub tool_call_rows: TextMap<(usize, usize)>,
    /// The group that takes a further call of the same tool.
    pub pending_tool_group: Option<(usize, String)>,
    pub render_cache: RenderedTranscriptCache,
    /// Active (in-flight) streams are not in `render_cache` (they mutate every
    /// delta). Their wrapped rows are kept across row counting and drawing
    /// within a frame, and dropped with every change.
    pub active_wrap: Option<ActiveWrap>,
    /// How often the active streams were wrapped.
    pub active_wrap_computes: usize,
}

#[verifier::ext_equal]
pub struct TranscriptView {
    pub items: Seq<ItemView>,
    pub next_id: u64,
    pub assistant: Option<StreamView>,
    pub reasoning: Option<StreamView>,
    pub active_assistant: Option<Seq<LineView>>,
    pub active_reasoning: Option<Seq<LineView>>,
    pub tool_rows: Seq<(Seq<char>, (usize, usize))>,
    pub pending: Option<(usize, Seq<char>)>,
}

pub open spec fn opt_stream(stream: Option<StreamController>) -> Option<StreamView> {
    match stream {
        Some(s) => Some(s@),
        None => None,
    }
}

pub open spec fn pending_view(pending: Option<(usize, String)>) -> Option<(usize, Seq<char>)> {
    match pending {
        Some((i, name)) => Some((i, name@)),
        None => None,
    }
}

impl View for Transcript {
    type V = TranscriptView;

    open spec fn view(&self) -> TranscriptView {
        TranscriptView {
            items: item_views(self.items@),
            next_id: self.next_item_id,
            assistant: opt_stream(self.assistant_stream),
            reasoning: opt_stream(self.reasoning_stream),
            active_assistant: opt_lines(self.active_assistant_lines),
            active_reasoning: opt_lines(self.active_reasoning_lines),
            tool_rows: self.tool_call_rows@,
            pending: pending_view(self.pending_tool_group),
        }
    }
}

/// A transcript with nothing in it; the next item is number `id`.
pub open spec fn empty_transcript(id: u64) -> TranscriptView {
    TranscriptView {
        items: Seq::empty(),
        next_id: id,
        assistant: None,
        reasoning: None,
        active_assistant: None,
        active_reasoning: None,
        tool_rows: Seq::empty(),
        pending: None,
    }
}

// ---------------------------------------------------------------------------
// Rows
// ---------------------------------------------------------------------------

/// What is marked: an item, and where it is a batch of calls, one of them.
pub type Mark = Option<(usize, Option<usize>)>;

/// The rows of the reasoning that still streams.
pub open spec fn active_reasoning_rows(lines: Option<Seq<LineView>>, width: u16) -> Seq<LineView> {
    match lines {
        Some(l) => message_rows(
            l,
            reasoning_prefix(true),
            reasoning_prefix(false),
            true,
            columns_of(width),
            l.len(),
        ),
        None => no_lines(),
    }
}

/// The rows of the answer that still streams.
pub open spec fn active_assistant_rows(lines: Option<Seq<LineView>>, width: u16) -> Seq<LineView> {
    match lines {
        Some(l) => message_rows(
            l,
            assistant_prefix(true),
            assistant_prefix(false),
            false,
            columns_of(width),
            l.len(),
        ),
        None => no_lines(),
    }
}

pub open spec fn some_lines(lines: Option<Seq<LineView>>) -> bool {
    match lines {
        Some(l) => l.len() > 0,
        None => false,
    }
}

/// The call that is marked in a batch.
pub open spec fn marked_entry(group: GroupView, entry: usize) -> usize {
    if entry < group.entries.len() {
        entry
    } else if group.entries.len() > 0 {
        (group.entries.len() - 1) as usize
    } else {
        0
    }
}

/// The rows of an item, with the mark inside of it where there is one.
pub open spec fn rows_with_entry(
    config: ConfigView,
    item: ItemView,
    width: u16,
    entry: Option<usize>,
) -> Seq<LineView> {
    match (entry, item.kind) {
        (Some(e), KindView::Group(group)) => if group.is_batch() {
            group_rows(group, columns_of(width), Some(marked_entry(group, e)))
        } else {
            item_rows(config, item.kind, width)
        },
        _ => item_rows(config, item.kind, width),
    }
}

impl TranscriptView {
    /// Whether a stream shows rows below the committed items.
    pub open spec fn streaming(self) -> bool {
        some_lines(self.active_reasoning) || some_lines(self.active_assistant)
    }

    /// Whether item `i` goes without its last row: a user message that nothing
    /// follows ends without a rule.
    pub open spec fn open_ended(self, i: int, trim: bool) -> bool {
        trim && i + 1 == self.items.len() && !self.streaming() && self.items[i].kind is User
    }

    /// The rows that show item `i`.
    #[verifier::opaque]
    pub open spec fn shown_item(
        self,
        config: ConfigView,
        width: u16,
        trim: bool,
        mark: Mark,
        i: int,
    ) -> Seq<LineView> {
        let entry = match mark {
            Some((at, entry)) => if at == i {
                entry
            } else {
                None
            },
            None => None,
        };
        let rows = rows_with_entry(config, self.items[i], width, entry);
        let kept = if self.open_ended(i, trim) && rows.len() > 0 {
            rows.drop_last()
        } else {
            rows
        };
        if mark == Some((i as usize, None::<usize>)) && i <= usize::MAX {
            highlighted_rows(kept)
        } else {
            kept
        }
    }

    /// The rows of the first `n` items, a blank row between two of them.
    pub open spec fn item_rows_to(
        self,
        config: ConfigView,
        width: u16,
        trim: bool,
        mark: Mark,
        n: nat,
    ) -> Seq<LineView>
        decreases n,
    {
        if n == 0 {
            no_lines()
        } else {
            separated(self.item_rows_to(config, width, trim, mark, (n - 1) as nat), n > 1)
                + self.shown_item(config, width, trim, mark, n - 1)
        }
    }

    /// All rows, those of the active streams below the items.
    pub open spec fn all_rows(self, config: ConfigView, width: u16, trim: bool, mark: Mark) -> Seq<
        LineView,
    > {
        let above = self.item_rows_to(config, width, trim, mark, self.items.len());
        let reasoning = active_reasoning_rows(self.active_reasoning, width);
        let assistant = active_assistant_rows(self.active_assistant, width);
        let first = separated(
            above,
            (reasoning.len() > 0 || assistant.len() > 0) && above.len() > 0,
        ) + reasoning;
        separated(first, reasoning.len() > 0 && assistant.len() > 0) + assistant
    }

    /// The number of rows; an empty transcript shows one.
    pub open spec fn row_count(self, config: ConfigView, width: u16, trim: bool) -> nat {
        if self.items.len() == 0 && self.active_assistant is None && self.active_reasoning is None {
            1
        } else {
            self.all_rows(config, width, trim, None).len()
        }
    }

    /// The farthest that the rows scroll in a window of `height` rows.
    #[verifier::opaque]
    pub open spec fn farthest(self, config: ConfigView, width: u16, trim: bool, height: u16) -> u16 {
        let rows = self.row_count(config, width, trim);
        if rows <= height {
            0
        } else if rows - height <= u16::MAX {
            (rows - height) as u16
        } else {
            u16::MAX
        }
    }

    /// The first row of item `i`, and the number of its rows.
    pub open spec fn item_extent(self, config: ConfigView, width: u16, trim: bool, i: nat) -> (
        usize,
        usize,
    ) {
        if i < self.items.len() {
            (
                capped(
                    separated(self.item_rows_to(config, width, trim, None, i), i > 0).len(),
                ),
                capped(self.shown_item(config, width, trim, None, i as int).len()),
            )
        } else {
            (capped(self.item_rows_to(config, width, trim, None, self.items.len()).len()), 0)
        }
    }

    /// The rows on screen; `empty` where there are none at all.
    #[verifier::opaque]
    pub open spec fn visible(
        self,
        config: ConfigView,
        width: u16,
        trim: bool,
        mark: Mark,
        scroll: u16,
        height: u16,
        empty: Seq<char>,
    ) -> Seq<LineView> {
        let rows = self.all_rows(config, width, trim, mark);
        if rows.len() == 0 {
            seq![placeholder(empty)]
        } else {
            window(rows, scroll as nat, (scroll + height) as nat)
        }
    }
}

/// Rows with a blank row after them, where they are to be set apart.
pub open spec fn separated(rows: Seq<LineView>, apart: bool) -> Seq<LineView> {
    if apart {
        rows.push(blank_line())
    } else {
        rows
    }
}

pub open spec fn placeholder(text: Seq<char>) -> LineView {
    LineView { spans: seq![raw_of(text)], style: plain().with_dim() }
}

// ---------------------------------------------------------------------------
// Kept rows
// ---------------------------------------------------------------------------

impl RenderedTranscriptCache {
    /// Every slot that is up to date holds the rows of its item.
    pub open spec fn coherent(&self, config: ConfigView, items: Seq<ItemView>) -> bool {
        &&& self.slots@.len() <= items.len()
        &&& forall|i: int|
            0 <= i < self.slots@.len() ==> slot_fits(
                config,
                #[trigger] self.slots@[i],
                items[i],
            )
    }

    pub fn new() -> (r: RenderedTranscriptCache)
        ensures
            forall|config: ConfigView, items: Seq<ItemView>|
                #![trigger r.coherent(config, items)]
                r.coherent(config, items),
    {
        RenderedTranscriptCache { slots: Vec::new(), width: None }
    }

    pub fn clear(&mut self)
        ensures
            forall|config: ConfigView, items: Seq<ItemView>|
                #![trigger final(self).coherent(config, items)]
                final(self).coherent(config, items),
    {
        self.slots.clear();
        self.width = None;
    }

    /// Drops what is kept of item `idx`.
    pub fn forget(&mut self, idx: usize)
        ensures
            forall|config: ConfigView, items: Seq<ItemView>, item: ItemView|
                #![trigger final(self).coherent(config, items.update(idx as int, item))]
                idx < items.len() && old(self).coherent(config, items) ==> final(self).coherent(
                    config,
                    items.update(idx as int, item),
                ),
    {
        if idx < self.slots.len() {
            self.slots.set(idx, None);
        }
        assert forall|config: ConfigView, items: Seq<ItemView>, item: ItemView|
            idx < items.len() && old(self).coherent(
                config,
                items,
            ) implies #[trigger] self.coherent(config, items.update(idx as int, item)) by {
            let after = items.update(idx as int, item);
            assert forall|j: int| 0 <= j < self.slots@.len() implies slot_fits(
                config,
                #[trigger] self.slots@[j],
                after[j],
            ) by {
                if j != idx {
                    assert(slot_fits(config, old(self).slots@[j], items[j]));
                }
            }
        }
    }

    /// Drops the rows that were drawn at another width.
    pub fn evict_stale_widths(&mut self, width: u16)
        ensures
            evicted(*old(self), *final(self), width),
            forall|config: ConfigView, items: Seq<ItemView>|
                #![trigger final(self).coherent(config, items)]
                old(self).coherent(config, items) ==> final(self).coherent(config, items),
    {
        let current: bool = match self.width {
            Some(w) => w == width,
            None => false,
        };
        if current {
            return;
        }
        self.width = Some(width);
        let mut i: usize = 0;
        while i < self.slots.len()
            invariant
                i <= self.slots@.len(),
                self.width == Some(width),
                self.slots@.len() == old(self).slots@.len(),
                forall|j: int|
                    0 <= j < i ==> #[trigger] self.slots@[j] == kept_at(
                        old(self).slots@[j],
                        width,
                    ),
                forall|j: int|
                    i <= j < self.slots@.len() ==> #[trigger] self.slots@[j] == old(
                        self,
                    ).slots@[j],
            decreases self.slots@.len() - i,
        {
            let stale: bool = match &self.slots[i] {
                Some(rows) => rows.width != width,
                None => false,
            };
            if stale {
                self.slots.set(i, None);
            }
            i += 1;
        }
        assert(self.slots@ =~= Seq::new(
            old(self).slots@.len(),
            |j: int| kept_at(old(self).slots@[j], width),
        ));
        assert forall|config: ConfigView, items: Seq<ItemView>| old(self).coherent(
            config,
            items,
        ) implies #[trigger] self.coherent(config, items) by {
            assert forall|j: int| 0 <= j < self.slots@.len() implies slot_fits(
                config,
                #[trigger] self.slots@[j],
                items[j],
            ) by {
                assert(slot_fits(config, old(self).slots@[j], items[j]));
            }
        }
    }

    /// Makes sure that the rows of item `idx` are kept.
    fn refresh(&mut self, ctx: &RenderContext, items: &Vec<TranscriptItem>, idx: usize, width: u16)
        requires
            idx < items@.len(),
            old(self).coherent(ctx.config@, item_views(items@)),
        ensures
            final(self).coherent(ctx.config@, item_views(items@)),
            idx < final(self).slots@.len(),
            final(self).slots@[idx as int] matches Some(rows) && line_views(rows.lines@)
                == item_rows(ctx.config@, item_views(items@)[idx as int].kind, width),
    {
        let ghost views = item_views(items@);
        while self.slots.len() <= idx
            invariant
                idx < items@.len(),
                views == item_views(items@),
                self.coherent(ctx.config@, views),
            decreases idx + 1 - self.slots@.len(),
        {
            self.slots.push(None);
        }
        let item: &TranscriptItem = &items[idx];
        assert(views[idx as int] == item@);
        let hit: bool = match &self.slots[idx] {
            Some(rows) => rows.width == width && rows.version == item.version(),
            None => false,
        };
        if hit {
            assert(slot_fits(ctx.config@, self.slots@[idx as int], views[idx as int]));
        } else {
            let rows: CachedRenderedRows = CachedRenderedRows {
                version: item.version(),
                width,
                lines: item.display_lines(ctx, width),
            };
            self.slots.set(idx, Some(rows));
        }
    }

    pub fn item_lines(
        &mut self,
        ctx: &RenderContext,
        items: &Vec<TranscriptItem>,
        idx: usize,
        width: u16,
    ) -> (r: Vec<Line>)
        requires
            idx < items@.len(),
            old(self).coherent(ctx.config@, item_views(items@)),
        ensures
            final(self).coherent(ctx.config@, item_views(items@)),
            line_views(r@) == item_rows(
                ctx.config@,
                item_views(items@)[idx as int].kind,
                width,
            ),
    {
        self.refresh(ctx, items, idx, width);
        match &self.slots[idx] {
            Some(rows) => duplicate_lines(&rows.lines),
            None => new_lines(),
        }
    }

    pub fn item_height(
        &mut self,
        ctx: &RenderContext,
        items: &Vec<TranscriptItem>,
        idx: usize,
        width: u16,
    ) -> (r: usize)
        requires
            idx < items@.len(),
            old(self).coherent(ctx.config@, item_views(items@)),
        ensures
            final(self).coherent(ctx.config@, item_views(items@)),
            r == item_rows(ctx.config@, item_views(items@)[idx as int].kind, width).len(),
    {
        self.refresh(ctx, items, idx, width);
        match &self.slots[idx] {
            Some(rows) => {
                assert(line_views(rows.lines@).len() == rows.lines@.len());
                rows.lines.len()
            },
            None => 0,
        }
    }
}

/// What stays of a slot once only rows of `width` columns are kept.
pub open spec fn kept_at(slot: Option<CachedRenderedRows>, width: u16) -> Option<
    CachedRenderedRows,
> {
    match slot {
        Some(rows) => if rows.width == width {
            slot
        } else {
            None
        },
        None => None,
    }
}

/// Whether `after` is `before` once it is meant for `width`: where that is the
/// width it was meant for, nothing changes; else every slot that was drawn at
/// another width is empty, and every other slot is as it was.
pub open spec fn evicted(
    before: RenderedTranscriptCache,
    after: RenderedTranscriptCache,
    width: u16,
) -> bool {
    if before.width == Some(width) {
        after == before
    } else {
        &&& after.width == Some(width)
        &&& after.slots@ == Seq::new(
            before.slots@.len(),
            |i: int| kept_at(before.slots@[i], width),
        )
    }
}

pub open spec fn slot_fits(
    config: ConfigView,
    slot: Option<CachedRenderedRows>,
    item: ItemView,
) -> bool {
    match slot {
        Some(rows) => rows.version == item.version ==> line_views(rows.lines@) == item_rows(
            config,
            item.kind,
            rows.width,
        ),
        None => true,
    }
}

// ---------------------------------------------------------------------------
// Counting and showing rows
// ---------------------------------------------------------------------------

proof fn lemma_window_push(rows: Seq<LineView>, line: LineView, start: nat, end: nat)
    ensures
        window(rows.push(line), start, end) == with_visible(
            window(rows, start, end),
            line,
            rows.len(),
            start,
            end,
        ),
{
    assert(window(rows.push(line), start, end) =~= with_visible(
        window(rows, start, end),
        line,
        rows.len(),
        start,
        end,
    ));
}

proof fn lemma_window_skip(rows: Seq<LineView>, more: Seq<LineView>, start: nat, end: nat)
    requires
        rows.len() >= end || rows.len() + more.len() <= start,
    ensures
        window(rows + more, start, end) == window(rows, start, end),
{
    assert(window(rows + more, start, end) =~= window(rows, start, end));
}

impl TranscriptView {
    proof fn lemma_mark_keeps_height(
        self,
        config: ConfigView,
        width: u16,
        trim: bool,
        mark: Mark,
        i: int,
    )
        ensures
            self.shown_item(config, width, trim, mark, i).len() == self.shown_item(
                config,
                width,
                trim,
                None,
                i,
            ).len(),
    {
        reveal(TranscriptView::shown_item);
        if let Some((at, Some(entry))) = mark {
            if at == i {
                if let KindView::Group(group) = self.items[i].kind {
                    selection_keeps_rows(
                        group,
                        columns_of(width),
                        Some(marked_entry(group, entry)),
                        group.entries.len(),
                    );
                }
            }
        }
    }

    /// Marking an item changes no row count.
    pub proof fn marks_keep_rows(
        self,
        config: ConfigView,
        width: u16,
        trim: bool,
        mark: Mark,
        n: nat,
    )
        ensures
            self.item_rows_to(config, width, trim, mark, n).len() == self.item_rows_to(
                config,
                width,
                trim,
                None,
                n,
            ).len(),
        decreases n,
    {
        if n > 0 {
            self.marks_keep_rows(config, width, trim, mark, (n - 1) as nat);
            self.lemma_mark_keeps_height(config, width, trim, mark, n - 1);
        }
    }
}

/// The number of rows of an item.
fn shown_height(
    cache: &mut RenderedTranscriptCache,
    ctx: &RenderContext,
    items: &Vec<TranscriptItem>,
    idx: usize,
    width: u16,
    open_end: bool,
    Ghost(t): Ghost<TranscriptView>,
    Ghost(trim): Ghost<bool>,
) -> (r: usize)
    requires
        idx < items@.len(),
        t.items == item_views(items@),
        open_end == (trim && !t.streaming()),
        old(cache).coherent(ctx.config@, t.items),
    ensures
        final(cache).coherent(ctx.config@, t.items),
        r == t.shown_item(ctx.config@, width, trim, None, idx as int).len(),
{
    let height: usize = cache.item_height(ctx, items, idx, width);
    reveal(TranscriptView::shown_item);
    assert(t.items[idx as int] == items@[idx as int]@);
    if idx == items.len() - 1 && open_end && items[idx].is_user() {
        height.saturating_sub(1)
    } else {
        height
    }
}

/// The number of rows of the first `n` items.
fn count_rows(
    cache: &mut RenderedTranscriptCache,
    ctx: &RenderContext,
    items: &Vec<TranscriptItem>,
    n: usize,
    width: u16,
    open_end: bool,
    Ghost(t): Ghost<TranscriptView>,
    Ghost(trim): Ghost<bool>,
) -> (r: usize)
    requires
        n <= items@.len(),
        t.items == item_views(items@),
        open_end == (trim && !t.streaming()),
        old(cache).coherent(ctx.config@, t.items),
    ensures
        final(cache).coherent(ctx.config@, t.items),
        r == capped(t.item_rows_to(ctx.config@, width, trim, None, n as nat).len()),
{
    let mut rows: usize = 0;
    let mut i: usize = 0;
    while i < n
        invariant
            i <= n <= items@.len(),
            t.items == item_views(items@),
            open_end == (trim && !t.streaming()),
            cache.coherent(ctx.config@, t.items),
            rows == capped(t.item_rows_to(ctx.config@, width, trim, None, i as nat).len()),
        decreases n - i,
    {
        if i > 0 {
            rows = rows.saturating_add(1);
        }
        let height: usize = shown_height(
            cache,
            ctx,
            items,
            i,
            width,
            open_end,
            Ghost(t),
            Ghost(trim),
        );
        rows = rows.saturating_add(height);
        i += 1;
    }
    rows
}

/// Adds rows to what is seen through a window; `row` is the number of rows so
/// far.
fn append_rows(
    lines: &mut Vec<Line>,
    more: &Vec<Line>,
    row: usize,
    start: usize,
    end: usize,
    Ghost(rows): Ghost<Seq<LineView>>,
) -> (r: usize)
    requires
        line_views(old(lines)@) == window(rows, start as nat, end as nat),
        row == capped(rows.len()),
        end < usize::MAX,
    ensures
        line_views(final(lines)@) == window(
            rows + line_views(more@),
            start as nat,
            end as nat,
        ),
        r == capped(rows.len() + more@.len()),
{
    let ghost views = line_views(more@);
    let mut at: usize = row;
    let mut i: usize = 0;
    assert(rows + views.take(0) =~= rows);
    while i < more.len()
        invariant
            views == line_views(more@),
            end < usize::MAX,
            i <= more@.len(),
            line_views(lines@) == window(rows + views.take(i as int), start as nat, end as nat),
            at == capped(rows.len() + i as nat),
        decreases more@.len() - i,
    {
        let ghost so_far = rows + views.take(i as int);
        proof {
            assert(views[i as int] == more@[i as int]@);
            lemma_window_push(so_far, views[i as int], start as nat, end as nat);
            assert(rows + views.take(i + 1) =~= so_far.push(views[i as int]));
        }
        append_visible_line(lines, more[i].duplicate(), at, start, end);
        at = at.saturating_add(1);
        i += 1;
    }
    assert(views.take(i as int) =~= views);
    at
}

/// Adds a blank row where one is wanted.
fn append_blank(
    lines: &mut Vec<Line>,
    apart: bool,
    row: usize,
    start: usize,
    end: usize,
    Ghost(rows): Ghost<Seq<LineView>>,
) -> (r: usize)
    requires
        line_views(old(lines)@) == window(rows, start as nat, end as nat),
        row == capped(rows.len()),
        end < usize::MAX,
    ensures
        line_views(final(lines)@) == window(separated(rows, apart), start as nat, end as nat),
        r == capped(separated(rows, apart).len()),
{
    if apart {
        proof {
            lemma_window_push(rows, blank_line(), start as nat, end as nat);
        }
        append_visible_line(lines, Line::blank(), row, start, end);
        row.saturating_add(1)
    } else {
        row
    }
}

/// The rows of an item with the mark on it.
fn marked_lines(
    cache: &mut RenderedTranscriptCache,
    ctx: &RenderContext,
    items: &Vec<TranscriptItem>,
    idx: usize,
    width: u16,
    open_end: bool,
    mark: Mark,
    Ghost(t): Ghost<TranscriptView>,
    Ghost(trim): Ghost<bool>,
) -> (r: Vec<Line>)
    requires
        idx < items@.len(),
        t.items == item_views(items@),
        open_end == (trim && !t.streaming()),
        old(cache).coherent(ctx.config@, t.items),
    ensures
        final(cache).coherent(ctx.config@, t.items),
        line_views(r@) == t.shown_item(ctx.config@, width, trim, mark, idx as int),
{
    reveal(TranscriptView::shown_item);
    assert(t.items[idx as int] == items@[idx as int]@);
    let mut lines: Vec<Line> = match mark {
        Some((at, Some(entry))) => {
            if at == idx {
                match items[idx].tool_group_cell() {
                    Some(group) => {
                        if group.is_batch() {
                            let last: usize = group.entry_count() - 1;
                            let marked: usize = if entry <= last {
                                entry
                            } else {
                                last
                            };
                            group.display_lines_with_selected_entry(
                                pane_columns(width),
                                Some(marked),
                            )
                        } else {
                            cache.item_lines(ctx, items, idx, width)
                        }
                    },
                    None => cache.item_lines(ctx, items, idx, width),
                }
            } else {
                cache.item_lines(ctx, items, idx, width)
            }
        },
        _ => cache.item_lines(ctx, items, idx, width),
    };
    let ghost rows = line_views(lines@);
    if idx == items.len() - 1 && open_end && items[idx].is_user() {
        lines.pop();
        assert(rows.len() > 0 ==> line_views(lines@) =~= rows.drop_last());
        assert(rows.len() == 0 ==> line_views(lines@) =~= rows);
    }
    match mark {
        Some((at, None)) => {
            if at == idx {
                highlight_rows(&mut lines);
            }
        },
        _ => {},
    }
    lines
}

/// What a window shows of the items; the result is the number of their rows.
fn append_items(
    lines: &mut Vec<Line>,
    cache: &mut RenderedTranscriptCache,
    ctx: &RenderContext,
    items: &Vec<TranscriptItem>,
    width: u16,
    open_end: bool,
    mark: Mark,
    start: usize,
    end: usize,
    Ghost(t): Ghost<TranscriptView>,
    Ghost(trim): Ghost<bool>,
) -> (r: usize)
    requires
        line_views(old(lines)@) == no_lines(),
        start <= end < usize::MAX,
        t.items == item_views(items@),
        open_end == (trim && !t.streaming()),
        old(cache).coherent(ctx.config@, t.items),
    ensures
        final(cache).coherent(ctx.config@, t.items),
        ({
            let rows = t.item_rows_to(ctx.config@, width, trim, mark, t.items.len());
            &&& line_views(final(lines)@) == window(rows, start as nat, end as nat)
            &&& r == capped(rows.len())
        }),
{
    let mut all_rows: usize = 0;
    let mut i: usize = 0;
    assert(window(no_lines(), start as nat, end as nat) =~= no_lines());
    while i < items.len()
        invariant
            start <= end < usize::MAX,
            i <= items@.len(),
            t.items == item_views(items@),
            open_end == (trim && !t.streaming()),
            cache.coherent(ctx.config@, t.items),
            line_views(lines@) == window(
                t.item_rows_to(ctx.config@, width, trim, mark, i as nat),
                start as nat,
                end as nat,
            ),
            all_rows == capped(t.item_rows_to(ctx.config@, width, trim, mark, i as nat).len()),
        decreases items@.len() - i,
    {
        let ghost so_far = t.item_rows_to(ctx.config@, width, trim, mark, i as nat);
        let ghost apart = separated(so_far, i > 0);
        let ghost shown = t.shown_item(ctx.config@, width, trim, mark, i as int);
        all_rows = append_blank(lines, i > 0, all_rows, start, end, Ghost(so_far));
        let height: usize = shown_height(
            cache,
            ctx,
            items,
            i,
            width,
            open_end,
            Ghost(t),
            Ghost(trim),
        );
        proof {
            t.lemma_mark_keeps_height(ctx.config@, width, trim, mark, i as int);
        }
        if all_rows >= end || all_rows.saturating_add(height) <= start {
            proof {
                lemma_window_skip(apart, shown, start as nat, end as nat);
            }
            all_rows = all_rows.saturating_add(height);
        } else {
            let item_lines: Vec<Line> = marked_lines(
                cache,
                ctx,
                items,
                i,
                width,
                open_end,
                mark,
                Ghost(t),
                Ghost(trim),
            );
            assert(line_views(item_lines@).len() == item_lines@.len());
            all_rows = append_rows(lines, &item_lines, all_rows, start, end, Ghost(apart));
        }
        i += 1;
    }
    all_rows
}

impl Transcript {
    /// What is kept of drawn rows is what drawing would give.
    #[verifier::opaque]
    pub open spec fn wf(&self, config: ConfigView) -> bool {
        &&& self.render_cache.coherent(config, self@.items)
        &&& match self.active_wrap {
            Some(wrap) => {
                &&& line_views(wrap.reasoning@) == active_reasoning_rows(
                    self@.active_reasoning,
                    wrap.width,
                )
                &&& line_views(wrap.assistant@) == active_assistant_rows(
                    self@.active_assistant,
                    wrap.width,
                )
            },
            None => true,
        }
    }

    /// Whether an active reasoning/assistant stream is currently rendered below
    /// the committed transcript items. Used to decide whether the last user
    /// message has anything following it: when nothing does, its bottom
    /// separator is dropped so the transcript doesn't end on a dangling rule.
    pub fn has_active_stream_lines(&self) -> (r: bool)
        ensures
            r == self@.streaming(),
    {
        let reasoning: bool = match &self.active_reasoning_lines {
            Some(lines) => {
                assert(line_views(lines@).len() == lines@.len());
                lines.len() > 0
            },
            None => false,
        };
        let assistant: bool = match &self.active_assistant_lines {
            Some(lines) => {
                assert(line_views(lines@).len() == lines@.len());
                lines.len() > 0
            },
            None => false,
        };
        reasoning || assistant
    }

    /// Whether the streams are wrapped at `width` already.
    pub open spec fn wrapped_at(&self, width: u16) -> bool {
        match self.active_wrap {
            Some(wrap) => wrap.width == width,
            None => false,
        }
    }

    /// Ensure `active_wrap` holds the active streams wrapped at `width`,
    /// recomputing only on a miss. The active streams mutate every delta so they
    /// stay out of `render_cache`; this memo keeps them from being re-wrapped
    /// twice per frame (row count + visible lines) and on idle frames where
    /// nothing streamed.
    pub fn refresh_active_wrap(&mut self, width: u16)
        ensures
            final(self)@ == old(self)@,
            final(self).wrapped_at(width),
            final(self).render_cache == old(self).render_cache,
            final(self).active_wrap_computes == if old(self).wrapped_at(width) {
                old(self).active_wrap_computes
            } else {
                crate::markdown_stream::bumped(old(self).active_wrap_computes)
            },
            forall|config: ConfigView|
                #![trigger final(self).wf(config)]
                old(self).wf(config) ==> final(self).wf(config),
    {
        reveal(Transcript::wf);
        let current: bool = match &self.active_wrap {
            Some(wrap) => wrap.width == width,
            None => false,
        };
        if current {
            return;
        }
        self.active_wrap_computes = self.active_wrap_computes.saturating_add(1);
        let reasoning: Vec<Line> = match &self.active_reasoning_lines {
            Some(lines) => {
                assert(line_views(lines@).len() == lines@.len());
                render_reasoning_lines(lines, true, width)
            },
            None => new_lines(),
        };
        let assistant: Vec<Line> = match &self.active_assistant_lines {
            Some(lines) => {
                assert(line_views(lines@).len() == lines@.len());
                render_assistant_lines(lines, true, width)
            },
            None => new_lines(),
        };
        self.active_wrap = Some(ActiveWrap { width, reasoning, assistant });
    }

    /// The number of rows at `width` columns.
    pub fn total_rows(&mut self, ctx: &RenderContext, width: u16, trim: bool) -> (r: usize)
        requires
            old(self).wf(ctx.config@),
        ensures
            final(self).wf(ctx.config@),
            final(self)@ == old(self)@,
            r == capped(old(self)@.row_count(ctx.config@, width, trim)),
    {
        reveal(Transcript::wf);
        let ghost t = self@;
        if self.items.len() == 0 && self.active_assistant_lines.is_none()
            && self.active_reasoning_lines.is_none() {
            return 1;
        }
        let open_end: bool = trim && !self.has_active_stream_lines();
        self.render_cache.evict_stale_widths(width);
        let total: usize = self.items.len();
        let mut rows: usize = count_rows(
            &mut self.render_cache,
            ctx,
            &self.items,
            total,
            width,
            open_end,
            Ghost(t),
            Ghost(trim),
        );
        self.refresh_active_wrap(width);
        assert(self.wf(ctx.config@));
        match &self.active_wrap {
            Some(wrap) => {
                let reasoning: usize = wrap.reasoning.len();
                let assistant: usize = wrap.assistant.len();
                assert(line_views(wrap.reasoning@).len() == reasoning);
                assert(line_views(wrap.assistant@).len() == assistant);
                if reasoning > 0 {
                    if rows > 0 {
                        rows = rows.saturating_add(1);
                    }
                    rows = rows.saturating_add(reasoning);
                }
                if assistant > 0 {
                    if rows > 0 {
                        rows = rows.saturating_add(1);
                    }
                    rows = rows.saturating_add(assistant);
                }
            },
            None => {},
        }
        rows
    }

    /// The farthest that the rows scroll in a window of `height` rows.
    pub fn max_scroll(&mut self, ctx: &RenderContext, width: u16, trim: bool, height: u16) -> (r:
        u16)
        requires
            old(self).wf(ctx.config@),
        ensures
            final(self).wf(ctx.config@),
            final(self)@ == old(self)@,
            r == old(self)@.farthest(ctx.config@, width, trim, height),
    {
        reveal(Transcript::wf);
        reveal(TranscriptView::farthest);
        let total: usize = self.total_rows(ctx, width, trim);
        let hidden: usize = total.saturating_sub(height as usize);
        if hidden <= 65535 {
            hidden as u16
        } else {
            65535
        }
    }

    /// Row range `(start, height)` of the item at `target_idx`: one separator
    /// row before each item but the first, and the trailing user rule omitted
    /// when nothing streams below it.
    pub fn item_row_extent(
        &mut self,
        ctx: &RenderContext,
        target_idx: usize,
        width: u16,
        trim: bool,
    ) -> (r: (usize, usize))
        requires
            old(self).wf(ctx.config@),
        ensures
            final(self).wf(ctx.config@),
            final(self)@ == old(self)@,
            r == old(self)@.item_extent(ctx.config@, width, trim, target_idx as nat),
    {
        reveal(Transcript::wf);
        let ghost t = self@;
        let open_end: bool = trim && !self.has_active_stream_lines();
        self.render_cache.evict_stale_widths(width);
        let total: usize = self.items.len();
        if target_idx < total {
            let above: usize = count_rows(
                &mut self.render_cache,
                ctx,
                &self.items,
                target_idx,
                width,
                open_end,
                Ghost(t),
                Ghost(trim),
            );
            let height: usize = shown_height(
                &mut self.render_cache,
                ctx,
                &self.items,
                target_idx,
                width,
                open_end,
                Ghost(t),
                Ghost(trim),
            );
            if target_idx > 0 {
                (above.saturating_add(1), height)
            } else {
                (above, height)
            }
        } else {
            let above: usize = count_rows(
                &mut self.render_cache,
                ctx,
                &self.items,
                total,
                width,
                open_end,
                Ghost(t),
                Ghost(trim),
            );
            (above, 0)
        }
    }

    /// The rows on screen.
    pub fn visible_lines(
        &mut self,
        ctx: &RenderContext,
        width: u16,
        trim: bool,
        mark: Mark,
        scroll: u16,
        height: u16,
        empty: &str,
    ) -> (r: Vec<Line>)
        requires
            old(self).wf(ctx.config@),
        ensures
            final(self).wf(ctx.config@),
            final(self)@ == old(self)@,
            line_views(r@) == old(self)@.visible(
                ctx.config@,
                width,
                trim,
                mark,
                scroll,
                height,
                empty@,
            ),
    {
        reveal(Transcript::wf);
        reveal(TranscriptView::visible);
        let ghost t = self@;
        let ghost config = ctx.config@;
        let start: usize = scroll as usize;
        let end: usize = start + height as usize;
        let open_end: bool = trim && !self.has_active_stream_lines();
        self.render_cache.evict_stale_widths(width);
        let mut lines: Vec<Line> = new_lines();
        let ghost above = t.item_rows_to(config, width, trim, mark, t.items.len());
        let mut all_rows: usize = append_items(
            &mut lines,
            &mut self.render_cache,
            ctx,
            &self.items,
            width,
            open_end,
            mark,
            start,
            end,
            Ghost(t),
            Ghost(trim),
        );
        self.refresh_active_wrap(width);
        assert(self.wf(ctx.config@));
        match &self.active_wrap {
            Some(wrap) => {
                let ghost reasoning = line_views(wrap.reasoning@);
                let ghost assistant = line_views(wrap.assistant@);
                assert(reasoning.len() == wrap.reasoning@.len());
                assert(assistant.len() == wrap.assistant@.len());
                let has_reasoning: bool = wrap.reasoning.len() > 0;
                let has_assistant: bool = wrap.assistant.len() > 0;
                let first: bool = (has_reasoning || has_assistant) && all_rows > 0;
                all_rows = append_blank(&mut lines, first, all_rows, start, end, Ghost(above));
                let ghost apart = separated(above, first);
                all_rows = append_rows(
                    &mut lines,
                    &wrap.reasoning,
                    all_rows,
                    start,
                    end,
                    Ghost(apart),
                );
                let both: bool = has_reasoning && has_assistant;
                all_rows = append_blank(
                    &mut lines,
                    both,
                    all_rows,
                    start,
                    end,
                    Ghost(apart + reasoning),
                );
                all_rows = append_rows(
                    &mut lines,
                    &wrap.assistant,
                    all_rows,
                    start,
                    end,
                    Ghost(separated(apart + reasoning, both)),
                );
                assert(separated(apart + reasoning, both) + assistant == t.all_rows(
                    config,
                    width,
                    trim,
                    mark,
                ));
            },
            None => {},
        }
        if all_rows == 0 {
            let mut line: Line = Line::from_span(Span::raw(empty));
            line.style = Style::new().dim();
            let ghost view = line@;
            assert(view == placeholder(empty@));
            let mut only: Vec<Line> = new_lines();
            push_line(&mut only, line);
            assert(line_views(only@) =~= seq![placeholder(empty@)]);
            return only;
        }
        lines
    }
}

// ---------------------------------------------------------------------------
// Changes
// ---------------------------------------------------------------------------

pub open spec fn next_number(id: u64) -> u64 {
    if id < u64::MAX {
        (id + 1) as u64
    } else {
        id
    }
}

/// The columns at which a stream is rendered in a terminal of `width` columns.
pub open spec fn stream_columns(width: u16) -> usize {
    if width >= 26 {
        (width - 6) as usize
    } else {
        20
    }
}

impl TranscriptView {
    /// A new row at the end.
    #[verifier::opaque]
    pub open spec fn with_item(self, kind: KindView) -> TranscriptView {
        TranscriptView {
            items: self.items.push(fresh_item(self.next_id, kind)),
            next_id: next_number(self.next_id),
            pending: None,
            ..self
        }
    }

    pub open spec fn with_info(self, message: Seq<char>) -> TranscriptView {
        self.with_item(info_kind(message))
    }

    pub open spec fn with_error(self, message: Seq<char>) -> TranscriptView {
        self.with_item(error_kind(message))
    }

    pub open spec fn with_assistant_text(self, message: Seq<char>) -> TranscriptView {
        self.with_item(
            KindView::Assistant { lines: rendered(message), first: true, raw: message },
        )
    }

    pub open spec fn with_reasoning_text(self, message: Seq<char>) -> TranscriptView {
        self.with_item(
            KindView::Reasoning { lines: rendered(message), first: true, raw: message },
        )
    }

    /// The answer that streamed becomes a row.
    #[verifier::opaque]
    pub open spec fn assistant_committed(self) -> (TranscriptView, bool) {
        match self.assistant {
            Some(stream) => {
                let ended = TranscriptView {
                    assistant: None,
                    active_assistant: None,
                    pending: None,
                    ..self
                };
                match stream.parts() {
                    Some((lines, raw)) => (
                        ended.with_item(KindView::Assistant { lines, first: true, raw }),
                        true,
                    ),
                    None => (ended, false),
                }
            },
            None => (TranscriptView { active_assistant: None, ..self }, false),
        }
    }

    /// The reasoning that streamed becomes a row.
    #[verifier::opaque]
    pub open spec fn reasoning_committed(self) -> (TranscriptView, bool) {
        let ended = TranscriptView { reasoning: None, active_reasoning: None, ..self };
        match self.reasoning {
            Some(stream) => match stream.parts() {
                Some((lines, raw)) => (
                    ended.with_item(KindView::Reasoning { lines, first: true, raw }),
                    true,
                ),
                None => (ended, false),
            },
            None => (ended, false),
        }
    }

    /// More of the answer came.
    #[verifier::opaque]
    pub open spec fn assistant_streamed(self, delta: Seq<char>, width: u16) -> TranscriptView {
        let stream = match self.assistant {
            Some(s) => s,
            None => fresh_stream(Some(stream_columns(width))),
        }.pushed(delta);
        TranscriptView { assistant: Some(stream), active_assistant: stream.snapshot(), ..self }
    }

    /// More of the reasoning came.
    #[verifier::opaque]
    pub open spec fn reasoning_streamed(self, delta: Seq<char>, width: u16) -> TranscriptView {
        let stream = match self.reasoning {
            Some(s) => s,
            None => fresh_stream(Some(stream_columns(width))),
        }.pushed(delta);
        TranscriptView {
            reasoning: Some(stream),
            active_reasoning: stream.snapshot(),
            pending: None,
            ..self
        }
    }

    /// Item `i` shows `kind` from now on.
    #[verifier::opaque]
    pub open spec fn touched(self, i: int, kind: KindView) -> TranscriptView {
        if 0 <= i < self.items.len() {
            TranscriptView {
                items: self.items.update(i, ItemView { kind, ..self.items[i].mutated() }),
                ..self
            }
        } else {
            self
        }
    }

    pub open spec fn call_related(self, i: int, entry: int, thread: Seq<char>) -> TranscriptView {
        self.touched(i, self.items[i].kind.with_related(entry, thread))
    }

    pub open spec fn call_ended(
        self,
        i: int,
        entry: int,
        state: ToolCallState,
        error: Option<Seq<char>>,
    ) -> TranscriptView {
        self.touched(i, self.items[i].kind.with_outcome(entry, state, error))
    }

    /// A call ended, and what it printed is kept where it printed anything.
    #[verifier::opaque]
    pub open spec fn call_finished(
        self,
        i: int,
        entry: int,
        output: Option<Seq<char>>,
        state: ToolCallState,
        error: Option<Seq<char>>,
    ) -> TranscriptView {
        let kind = self.items[i].kind;
        let printed = match output {
            Some(text) => kind.with_output(entry, text),
            None => kind,
        };
        self.touched(i, printed.with_outcome(entry, state, error))
    }

    /// A new group of calls at the end, open for more of them.
    pub open spec fn with_group(self, group: GroupView) -> TranscriptView {
        TranscriptView {
            items: self.items.push(fresh_item(self.next_id, KindView::Group(group))),
            next_id: next_number(self.next_id),
            pending: Some((self.items.len() as usize, group.name)),
            ..self
        }
    }

    /// A call started: it joins the open group of its tool, or opens one.
    #[verifier::opaque]
    pub open spec fn call_started(
        self,
        call_id: Seq<char>,
        name: Seq<char>,
        args: Seq<char>,
    ) -> TranscriptView {
        match self.pending {
            Some((i, group)) if group == name => {
                let entry = if i < self.items.len() {
                    self.items[i as int].kind.calls()
                } else {
                    0
                };
                TranscriptView {
                    tool_rows: filed(self.tool_rows, call_id, (i, entry as usize)),
                    ..self.touched(i as int, self.items[i as int].kind.with_entry(args))
                }
            },
            _ => {
                let group = GroupView { name, entries: seq![started_entry(args)] };
                TranscriptView {
                    tool_rows: filed(
                        self.tool_rows,
                        call_id,
                        (self.items.len() as usize, 0usize),
                    ),
                    ..self.with_group(group)
                }
            },
        }
    }

    /// Item `i` becomes a file change.
    pub open spec fn patched(self, i: int, change: FileChangeOutput) -> TranscriptView {
        self.touched(i, KindView::Patch { change })
    }

    /// Item `i` becomes a checklist.
    pub open spec fn listed(self, i: int, todos: Seq<TodoItem>) -> TranscriptView {
        self.touched(i, KindView::TodoList { todos })
    }

    /// No group takes further calls.
    pub open spec fn grouping_ended(self) -> TranscriptView {
        TranscriptView { pending: None, ..self }
    }

    pub open spec fn cleared(self) -> TranscriptView {
        empty_transcript(self.next_id)
    }

    /// Every row that groups calls groups at least one.
    pub open spec fn groups_hold_calls(self) -> bool {
        forall|i: int| 0 <= i < self.items.len() ==> (#[trigger] self.items[i]).kind.wf()
    }
}

/// Whether rows that were kept before are still right after.
pub open spec fn keeps_rows(before: Transcript, after: Transcript) -> bool {
    forall|config: ConfigView| before.wf(config) ==> #[trigger] after.wf(config)
}

impl Transcript {
    pub fn new(first_id: u64) -> (r: Transcript)
        ensures
            r@ == empty_transcript(first_id),
            forall|config: ConfigView| #[trigger] r.wf(config),
    {
        reveal(Transcript::wf);
        let r: Transcript = Transcript {
            items: Vec::new(),
            next_item_id: first_id,
            assistant_stream: None,
            reasoning_stream: None,
            active_assistant_lines: None,
            active_reasoning_lines: None,
            tool_call_rows: TextMap::new(),
            pending_tool_group: None,
            render_cache: RenderedTranscriptCache::new(),
            active_wrap: None,
            active_wrap_computes: 0,
        };
        assert(r@.items =~= Seq::empty());
        r
    }

    pub fn next_item_id(&mut self) -> (r: TranscriptItemId)
        ensures
            r == old(self)@.next_id,
            final(self)@ == (TranscriptView {
                next_id: next_number(old(self)@.next_id),
                ..old(self)@
            }),
            keeps_rows(*old(self), *final(self)),
    {
        reveal(Transcript::wf);
        let id: u64 = self.next_item_id;
        self.next_item_id = id.saturating_add(1);
        id
    }

    /// Adds a row at the end; no group takes calls across it.
    pub fn push_history(&mut self, item: TranscriptItem)
        ensures
            final(self)@ == (TranscriptView {
                items: old(self)@.items.push(item@),
                pending: None,
                ..old(self)@
            }),
            keeps_rows(*old(self), *final(self)),
    {
        reveal(Transcript::wf);
        let ghost before = self@.items;
        let ghost added = item@;
        self.pending_tool_group = None;
        self.items.push(item);
        assert(self@.items =~= before.push(added));
    }

    pub fn push_info(&mut self, message: &str)
        ensures
            final(self)@ == old(self)@.with_info(message@),
            keeps_rows(*old(self), *final(self)),
    {
        reveal(Transcript::wf);
        reveal(TranscriptView::with_item);
        let id: u64 = self.next_item_id();
        self.push_history(TranscriptItem::info(id, message));
    }

    pub fn push_error(&mut self, message: &str)
        ensures
            final(self)@ == old(self)@.with_error(message@),
            keeps_rows(*old(self), *final(self)),
    {
        reveal(Transcript::wf);
        reveal(TranscriptView::with_item);
        let id: u64 = self.next_item_id();
        self.push_history(TranscriptItem::error(id, message));
    }

    pub fn push_user(&mut self, message: &str)
        ensures
            final(self)@ == old(self)@.with_item(KindView::User { message: message@ }),
            keeps_rows(*old(self), *final(self)),
    {
        reveal(Transcript::wf);
        reveal(TranscriptView::with_item);
        let id: u64 = self.next_item_id();
        self.push_history(TranscriptItem::user(id, owned(message)));
    }

    pub fn push_patch(&mut self, file_change: FileChangeOutput)
        ensures
            final(self)@ == old(self)@.with_item(KindView::Patch { change: file_change }),
            keeps_rows(*old(self), *final(self)),
    {
        reveal(Transcript::wf);
        reveal(TranscriptView::with_item);
        let id: u64 = self.next_item_id();
        self.push_history(TranscriptItem::patch(id, file_change));
    }

    pub fn push_todo_list(&mut self, todos: Vec<TodoItem>)
        ensures
            final(self)@ == old(self)@.with_item(KindView::TodoList { todos: todos@ }),
            keeps_rows(*old(self), *final(self)),
    {
        reveal(Transcript::wf);
        reveal(TranscriptView::with_item);
        let id: u64 = self.next_item_id();
        self.push_history(TranscriptItem::todo_list(id, todos));
    }

    /// Leaves the answers to a question in the transcript.
    pub fn push_answers(&mut self, answers: &Vec<AskUserQuestionAnswer>)
        ensures
            final(self)@ == old(self)@.with_item(
                KindView::Plain { lines: answer_rows(answer_views(answers@)), hang: 4 },
            ),
            keeps_rows(*old(self), *final(self)),
    {
        reveal(Transcript::wf);
        reveal(TranscriptView::with_item);
        let id: u64 = self.next_item_id();
        self.push_history(TranscriptItem::question_answers(id, answers));
    }

    /// Drops the rows that were drawn at another width.
    pub fn evict_stale_widths(&mut self, width: u16)
        ensures
            final(self)@ == old(self)@,
            keeps_rows(*old(self), *final(self)),
            evicted(old(self).render_cache, final(self).render_cache, width),
            final(self).active_wrap == old(self).active_wrap,
            final(self).active_wrap_computes == old(self).active_wrap_computes,
    {
        reveal(Transcript::wf);
        self.render_cache.evict_stale_widths(width);
    }

    pub fn push_rendered_assistant_message(&mut self, message: &str, width: u16)
        ensures
            final(self)@ == old(self)@.with_assistant_text(message@),
            keeps_rows(*old(self), *final(self)),
    {
        reveal(Transcript::wf);
        reveal(TranscriptView::with_item);
        let lines: Vec<Line> = render_markdown_lines(message, width);
        let id: u64 = self.next_item_id();
        self.push_history(TranscriptItem::assistant(id, lines, true, owned(message)));
    }

    pub fn push_rendered_reasoning_message(&mut self, message: &str, width: u16)
        ensures
            final(self)@ == old(self)@.with_reasoning_text(message@),
            keeps_rows(*old(self), *final(self)),
    {
        reveal(Transcript::wf);
        reveal(TranscriptView::with_item);
        let lines: Vec<Line> = render_markdown_lines(message, width);
        let id: u64 = self.next_item_id();
        self.push_history(TranscriptItem::reasoning(id, lines, true, owned(message)));
    }

    /// Set the active assistant lines and drop their wrapped rows. All writes to
    /// the active lines go through here so the memo in `refresh_active_wrap` can
    /// never go stale.
    pub fn set_active_assistant_lines(&mut self, lines: Option<Vec<Line>>)
        ensures
            final(self)@ == (TranscriptView { active_assistant: opt_lines(lines), ..old(self)@ }),
            keeps_rows(*old(self), *final(self)),
    {
        reveal(Transcript::wf);
        self.active_assistant_lines = lines;
        self.active_wrap = None;
    }

    pub fn set_active_reasoning_lines(&mut self, lines: Option<Vec<Line>>)
        ensures
            final(self)@ == (TranscriptView { active_reasoning: opt_lines(lines), ..old(self)@ }),
            keeps_rows(*old(self), *final(self)),
    {
        reveal(Transcript::wf);
        self.active_reasoning_lines = lines;
        self.active_wrap = None;
    }

    pub fn end_grouping(&mut self)
        ensures
            final(self)@ == old(self)@.grouping_ended(),
            keeps_rows(*old(self), *final(self)),
    {
        reveal(Transcript::wf);
        self.pending_tool_group = None;
    }

    /// Takes in more of the answer.
    pub fn handle_assistant_delta(&mut self, delta: &str, width: u16)
        ensures
            final(self)@ == old(self)@.assistant_streamed(delta@, width),
            keeps_rows(*old(self), *final(self)),
    {
        reveal(Transcript::wf);
        reveal(TranscriptView::assistant_streamed);
        let mut stream: Option<StreamController> = None;
        core::mem::swap(&mut stream, &mut self.assistant_stream);
        let mut controller: StreamController = match stream {
            Some(s) => s,
            None => StreamController::new(Some(stream_width(width))),
        };
        controller.push(delta);
        let snapshot: Option<Vec<Line>> = controller.snapshot_lines();
        self.assistant_stream = Some(controller);
        self.set_active_assistant_lines(snapshot);
    }

    /// Takes in more of the reasoning.
    pub fn handle_reasoning_delta(&mut self, delta: &str, width: u16)
        ensures
            final(self)@ == old(self)@.reasoning_streamed(delta@, width),
            keeps_rows(*old(self), *final(self)),
    {
        reveal(Transcript::wf);
        reveal(TranscriptView::reasoning_streamed);
        self.pending_tool_group = None;
        let mut stream: Option<StreamController> = None;
        core::mem::swap(&mut stream, &mut self.reasoning_stream);
        let mut controller: StreamController = match stream {
            Some(s) => s,
            None => StreamController::new(Some(stream_width(width))),
        };
        controller.push(delta);
        let snapshot: Option<Vec<Line>> = controller.snapshot_lines();
        self.reasoning_stream = Some(controller);
        self.set_active_reasoning_lines(snapshot);
    }

    /// Drops what streamed of the answer.
    pub fn drop_assistant_stream(&mut self)
        ensures
            final(self)@ == (TranscriptView {
                assistant: None,
                active_assistant: None,
                ..old(self)@
            }),
            keeps_rows(*old(self), *final(self)),
    {
        reveal(Transcript::wf);
        self.assistant_stream = None;
        self.active_assistant_lines = None;
        self.active_wrap = None;
    }

    /// Drops what streamed of the reasoning.
    pub fn drop_reasoning_stream(&mut self)
        ensures
            final(self)@ == (TranscriptView {
                reasoning: None,
                active_reasoning: None,
                ..old(self)@
            }),
            keeps_rows(*old(self), *final(self)),
    {
        reveal(Transcript::wf);
        self.reasoning_stream = None;
        self.active_reasoning_lines = None;
        self.active_wrap = None;
    }

    /// Commits the answer that streamed; says whether there was any.
    pub fn commit_assistant_stream(&mut self) -> (r: bool)
        ensures
            (final(self)@, r) == old(self)@.assistant_committed(),
            keeps_rows(*old(self), *final(self)),
    {
        reveal(Transcript::wf);
        reveal(TranscriptView::assistant_committed);
        reveal(TranscriptView::with_item);
        let mut stream: Option<StreamController> = None;
        core::mem::swap(&mut stream, &mut self.assistant_stream);
        self.set_active_assistant_lines(None);
        match stream {
            Some(controller) => {
                self.end_grouping();
                match controller.finalize_parts() {
                    Some((lines, raw)) => {
                        let id: u64 = self.next_item_id();
                        self.push_history(TranscriptItem::assistant(id, lines, true, raw));
                        true
                    },
                    None => false,
                }
            },
            None => false,
        }
    }

    /// Commits the reasoning that streamed; says whether there was any.
    pub fn commit_reasoning_stream(&mut self) -> (r: bool)
        ensures
            (final(self)@, r) == old(self)@.reasoning_committed(),
            keeps_rows(*old(self), *final(self)),
    {
        reveal(Transcript::wf);
        reveal(TranscriptView::reasoning_committed);
        reveal(TranscriptView::with_item);
        let mut stream: Option<StreamController> = None;
        core::mem::swap(&mut stream, &mut self.reasoning_stream);
        self.set_active_reasoning_lines(None);
        match stream {
            Some(controller) => match controller.finalize_parts() {
                Some((lines, raw)) => {
                    let id: u64 = self.next_item_id();
                    self.push_history(TranscriptItem::reasoning(id, lines, true, raw));
                    true
                },
                None => false,
            },
            None => false,
        }
    }

    /// Records that a call spawned a thread.
    pub fn relate_call(&mut self, idx: usize, entry_idx: usize, thread_id: ThreadId)
        ensures
            final(self)@ == old(self)@.call_related(idx as int, entry_idx as int, thread_id@),
            keeps_rows(*old(self), *final(self)),
    {
        reveal(Transcript::wf);
        reveal(TranscriptView::touched);
        if idx < self.items.len() {
            let ghost before = self@.items;
            assert(before[idx as int] == self.items@[idx as int]@);
            let item: &mut TranscriptItem = &mut self.items[idx];
            item.set_call_related_thread(entry_idx, thread_id);
            item.mark_mutated();
            self.render_cache.forget(idx);
            assert(self@.items =~= before.update(idx as int, self.items@[idx as int]@));
        }
    }

    /// Records how a call stands.
    pub fn end_call(
        &mut self,
        idx: usize,
        entry_idx: usize,
        state: ToolCallState,
        error: Option<String>,
    )
        ensures
            final(self)@ == old(self)@.call_ended(
                idx as int,
                entry_idx as int,
                state,
                opt_text(error),
            ),
            keeps_rows(*old(self), *final(self)),
    {
        reveal(Transcript::wf);
        reveal(TranscriptView::touched);
        if idx < self.items.len() {
            let ghost before = self@.items;
            assert(before[idx as int] == self.items@[idx as int]@);
            let item: &mut TranscriptItem = &mut self.items[idx];
            item.set_call_outcome(entry_idx, state, error);
            item.mark_mutated();
            self.render_cache.forget(idx);
            assert(self@.items =~= before.update(idx as int, self.items@[idx as int]@));
        }
    }

    /// Records how a call ended and what it printed.
    pub fn finish_call(
        &mut self,
        idx: usize,
        entry_idx: usize,
        output: Option<String>,
        state: ToolCallState,
        error: Option<String>,
    )
        ensures
            final(self)@ == old(self)@.call_finished(
                idx as int,
                entry_idx as int,
                opt_text(output),
                state,
                opt_text(error),
            ),
            keeps_rows(*old(self), *final(self)),
    {
        reveal(Transcript::wf);
        reveal(TranscriptView::touched);
        reveal(TranscriptView::call_finished);
        if idx < self.items.len() {
            let ghost before = self@.items;
            assert(before[idx as int] == self.items@[idx as int]@);
            let item: &mut TranscriptItem = &mut self.items[idx];
            match output {
                Some(text) => item.set_call_output(entry_idx, text),
                None => {},
            }
            item.set_call_outcome(entry_idx, state, error);
            item.mark_mutated();
            self.render_cache.forget(idx);
            assert(self@.items =~= before.update(idx as int, self.items@[idx as int]@));
        }
    }

    /// Opens a group of calls; the result is its place.
    pub fn push_tool_group_cell(&mut self, cell: ToolCallGroupCell) -> (r: usize)
        ensures
            final(self)@ == old(self)@.with_group(cell@),
            r == old(self)@.items.len(),
            keeps_rows(*old(self), *final(self)),
    {
        reveal(Transcript::wf);
        let ghost before = self@.items;
        let cell_idx: usize = self.items.len();
        let tool_name: String = owned(cell.tool_name());
        let id: u64 = self.next_item_id;
        self.next_item_id = id.saturating_add(1);
        let item: TranscriptItem = TranscriptItem::tool_group(id, cell);
        let ghost added = item@;
        self.items.push(item);
        assert(self@.items =~= before.push(added));
        self.pending_tool_group = Some((cell_idx, tool_name));
        cell_idx
    }

    /// Adds a call to the group at `idx`; the result is its place there.
    fn join_group(&mut self, idx: usize, args_preview: &str) -> (r: usize)
        ensures
            final(self)@ == old(self)@.touched(
                idx as int,
                old(self)@.items[idx as int].kind.with_entry(args_preview@),
            ),
            r == if idx < old(self)@.items.len() {
                old(self)@.items[idx as int].kind.calls()
            } else {
                0
            },
            keeps_rows(*old(self), *final(self)),
    {
        reveal(Transcript::wf);
        reveal(TranscriptView::touched);
        if idx < self.items.len() {
            let ghost before = self@.items;
            assert(before[idx as int] == self.items@[idx as int]@);
            let item: &mut TranscriptItem = &mut self.items[idx];
            let entry_idx: usize = item.push_call(owned(args_preview));
            item.mark_mutated();
            self.render_cache.forget(idx);
            assert(self@.items =~= before.update(idx as int, self.items@[idx as int]@));
            entry_idx
        } else {
            0
        }
    }

    /// Keeps where a call is shown.
    fn track_call(&mut self, call_id: &str, idx: usize, entry_idx: usize)
        ensures
            final(self)@ == (TranscriptView {
                tool_rows: filed(old(self)@.tool_rows, call_id@, (idx, entry_idx)),
                ..old(self)@
            }),
            keeps_rows(*old(self), *final(self)),
    {
        reveal(Transcript::wf);
        self.tool_call_rows.insert(owned(call_id), (idx, entry_idx));
    }

    /// Drops where a call is shown; the result is where that was.
    pub fn untrack_call(&mut self, call_id: &str) -> (r: Option<(usize, usize)>)
        ensures
            final(self)@ == (TranscriptView {
                tool_rows: unfiled(old(self)@.tool_rows, call_id@),
                ..old(self)@
            }),
            r == found(old(self)@.tool_rows, call_id@),
            keeps_rows(*old(self), *final(self)),
    {
        reveal(Transcript::wf);
        self.tool_call_rows.remove(call_id)
    }

    /// Where a call is shown.
    pub fn call_row(&self, call_id: &str) -> (r: Option<(usize, usize)>)
        ensures
            r == found(self@.tool_rows, call_id@),
    {
        match self.tool_call_rows.get(call_id) {
            Some(row) => Some(*row),
            None => None,
        }
    }

    /// Forgets where calls are shown.
    pub fn untrack_all(&mut self)
        ensures
            final(self)@ == (TranscriptView { tool_rows: Seq::empty(), ..old(self)@ }),
            keeps_rows(*old(self), *final(self)),
    {
        reveal(Transcript::wf);
        self.tool_call_rows.clear();
    }

    /// Shows a call that started: in the open group of its tool, or in a new
    /// one.
    pub fn start_call(&mut self, call_id: &str, tool_name: &str, args_preview: &str)
        ensures
            final(self)@ == old(self)@.call_started(call_id@, tool_name@, args_preview@),
            keeps_rows(*old(self), *final(self)),
    {
        reveal(Transcript::wf);
        reveal(TranscriptView::call_started);
        reveal(TranscriptView::touched);
        let ghost before = self@;
        let joined: Option<usize> = match &self.pending_tool_group {
            Some((idx, name)) => if same_text(name.as_str(), tool_name) {
                Some(*idx)
            } else {
                None
            },
            None => None,
        };
        match joined {
            Some(idx) => {
                let entry_idx: usize = self.join_group(idx, args_preview);
                self.track_call(call_id, idx, entry_idx);
            },
            None => {
                let cell: ToolCallGroupCell = ToolCallGroupCell::new(
                    owned(tool_name),
                    owned(args_preview),
                );
                let cell_idx: usize = self.push_tool_group_cell(cell);
                self.track_call(call_id, cell_idx, 0);
            },
        }
    }

    /// Turns an item into a file change.
    pub fn replace_with_patch(&mut self, idx: usize, file_change: FileChangeOutput)
        ensures
            final(self)@ == old(self)@.patched(idx as int, file_change),
            keeps_rows(*old(self), *final(self)),
    {
        reveal(Transcript::wf);
        reveal(TranscriptView::touched);
        if idx < self.items.len() {
            let ghost before = self@.items;
            assert(before[idx as int] == self.items@[idx as int]@);
            let item: &mut TranscriptItem = &mut self.items[idx];
            item.replace_with_patch(file_change);
            self.render_cache.forget(idx);
            assert(self@.items =~= before.update(idx as int, self.items@[idx as int]@));
        }
    }

    /// Turns an item into a checklist.
    pub fn replace_with_todos(&mut self, idx: usize, todos: Vec<TodoItem>)
        ensures
            final(self)@ == old(self)@.listed(idx as int, todos@),
            keeps_rows(*old(self), *final(self)),
    {
        reveal(Transcript::wf);
        reveal(TranscriptView::touched);
        if idx < self.items.len() {
            let ghost before = self@.items;
            assert(before[idx as int] == self.items@[idx as int]@);
            let item: &mut TranscriptItem = &mut self.items[idx];
            item.replace_with_todos(todos);
            self.render_cache.forget(idx);
            assert(self@.items =~= before.update(idx as int, self.items@[idx as int]@));
        }
    }

    /// Empties the transcript.
    pub fn clear(&mut self)
        ensures
            final(self)@ == old(self)@.cleared(),
            forall|config: ConfigView| #[trigger] final(self).wf(config),
    {
        reveal(Transcript::wf);
        self.items.clear();
        self.set_active_assistant_lines(None);
        self.set_active_reasoning_lines(None);
        self.assistant_stream = None;
        self.reasoning_stream = None;
        self.tool_call_rows.clear();
        self.pending_tool_group = None;
        self.render_cache.clear();
        self.active_wrap = None;
        assert(self@.items =~= Seq::empty());
    }
}

fn stream_width(width: u16) -> (r: usize)
    ensures
        r == stream_columns(width),
{
    if width >= 26 {
        (width - 6) as usize
    } else {
        20
    }
}

/// The lines of a message.
pub fn render_markdown_lines(message: &str, width: u16) -> (r: Vec<Line>)
    ensures
        line_views(r@) == rendered(message@),
{
    let mut lines: Vec<Line> = new_lines();
    append_markdown(message, Some(width.saturating_sub(6) as usize), &mut lines);
    assert(no_lines() + rendered(message@) =~= rendered(message@));
    lines
}

// ---------------------------------------------------------------------------
// Selecting rows
// ---------------------------------------------------------------------------

/// A selected item, and in a batch of calls the selected call.
#[derive(Clone, Copy, Debug, PartialEq, Eq, Structural)]
pub struct Selection {
    pub item: usize,
    pub entry: Option<usize>,
}

impl TranscriptView {
    /// The group of calls at `i`.
    pub open spec fn group_at(self, i: usize) -> Option<GroupView> {
        if i < self.items.len() {
            self.items[i as int].group()
        } else {
            None
        }
    }

    /// The call that is selected when the selection comes to item `i`: the last
    /// or the first of a batch.
    pub open spec fn first_choice(self, i: usize, prefer_last: bool) -> Option<usize> {
        match self.group_at(i) {
            Some(group) => if group.is_batch() {
                if prefer_last {
                    Some((group.entries.len() - 1) as usize)
                } else {
                    Some(0usize)
                }
            } else {
                None
            },
            None => None,
        }
    }

    /// The last item.
    pub open spec fn last_item(self) -> usize {
        if self.items.len() > 0 {
            (self.items.len() - 1) as usize
        } else {
            0
        }
    }

    pub open spec fn selected_at(self, i: usize, prefer_last: bool) -> Selection {
        Selection { item: i, entry: self.first_choice(i, prefer_last) }
    }

    /// The selection one step up.
    pub open spec fn selected_above(self, at: Selection) -> Selection {
        match at.entry {
            Some(entry) if entry > 0 => Selection { entry: Some((entry - 1) as usize), ..at },
            _ => self.selected_at(
                if at.item > 0 {
                    (at.item - 1) as usize
                } else {
                    0
                },
                true,
            ),
        }
    }

    /// The selection one step down.
    pub open spec fn selected_below(self, at: Selection) -> Selection {
        let inside = match (at.entry, self.group_at(at.item)) {
            (Some(entry), Some(group)) => entry + 1 < group.entries.len(),
            _ => false,
        };
        if inside {
            Selection { entry: Some((at.entry->0 + 1) as usize), ..at }
        } else {
            self.selected_at(
                if at.item < self.last_item() {
                    (at.item + 1) as usize
                } else {
                    self.last_item()
                },
                false,
            )
        }
    }

    /// The rows of the selection: its first row and their number.
    pub open spec fn selection_extent(
        self,
        config: ConfigView,
        width: u16,
        trim: bool,
        at: Selection,
    ) -> (usize, usize) {
        let (start, height) = self.item_extent(config, width, trim, at.item as nat);
        match (at.entry, self.group_at(at.item)) {
            (Some(entry), Some(group)) => match entry_extent(
                group,
                columns_of(width),
                entry as nat,
            ) {
                Some((first, rows)) => (capped((start + first) as nat), rows),
                None => (start, height),
            },
            _ => (start, height),
        }
    }
}

/// The scroll offset, nearest to `scroll`, from which a window of `height` rows
/// shows `rows` rows from `start` on, or their top where they do not fit; never
/// past `farthest`.
pub open spec fn scroll_to_show(
    start: usize,
    rows: usize,
    height: u16,
    scroll: u16,
    farthest: u16,
) -> u16 {
    let room = columns_of(height);
    let end = capped((start + rows) as nat);
    let wanted: nat = if start < scroll {
        start as nat
    } else if end > scroll + room {
        if end - room < start {
            (end - room) as nat
        } else {
            start as nat
        }
    } else {
        scroll as nat
    };
    if wanted < farthest {
        wanted as u16
    } else {
        farthest
    }
}

/// The scroll offset that shows `rows` rows from `start` on.
pub fn scroll_showing(start: usize, rows: usize, height: u16, scroll: u16, farthest: u16) -> (r:
    u16)
    ensures
        r == scroll_to_show(start, rows, height, scroll, farthest),
{
    let room: usize = pane_columns(height);
    let at: usize = scroll as usize;
    let end: usize = start.saturating_add(rows);
    let wanted: usize = if start < at {
        start
    } else if end > at.saturating_add(room) {
        let top: usize = end.saturating_sub(room);
        if top < start {
            top
        } else {
            start
        }
    } else {
        at
    };
    if wanted < farthest as usize {
        wanted as u16
    } else {
        farthest
    }
}

impl Transcript {
    /// The group of calls at `idx`.
    pub fn group(&self, idx: usize) -> (r: Option<&ToolCallGroupCell>)
        ensures
            match r {
                Some(cell) => self@.group_at(idx) == Some(cell@),
                None => self@.group_at(idx) is None,
            },
    {
        if idx < self.items.len() {
            assert(self@.items[idx as int] == self.items@[idx as int]@);
            self.items[idx].tool_group_cell()
        } else {
            None
        }
    }

    /// The call to select in item `selected`.
    pub fn default_tool_entry_for_selection(&self, selected: usize, prefer_last: bool) -> (r:
        Option<usize>)
        ensures
            r == self@.first_choice(selected, prefer_last),
    {
        match self.group(selected) {
            Some(group) => {
                if !group.is_batch() {
                    None
                } else if prefer_last {
                    Some(group.entry_count() - 1)
                } else {
                    Some(0)
                }
            },
            None => None,
        }
    }

    pub fn last_index(&self) -> (r: usize)
        ensures
            r == self@.last_item(),
    {
        self.items.len().saturating_sub(1)
    }

    pub fn select(&self, item: usize, prefer_last: bool) -> (r: Selection)
        ensures
            r == self@.selected_at(item, prefer_last),
    {
        Selection { item, entry: self.default_tool_entry_for_selection(item, prefer_last) }
    }

    /// The selection one step up.
    pub fn selection_above(&self, at: Selection) -> (r: Selection)
        ensures
            r == self@.selected_above(at),
    {
        match at.entry {
            Some(entry) => {
                if entry > 0 {
                    return Selection { item: at.item, entry: Some(entry - 1) };
                }
            },
            None => {},
        }
        self.select(at.item.saturating_sub(1), true)
    }

    /// The selection one step down.
    pub fn selection_below(&self, at: Selection) -> (r: Selection)
        ensures
            r == self@.selected_below(at),
    {
        match (at.entry, self.group(at.item)) {
            (Some(entry), Some(group)) => {
                let calls: usize = group.entry_count();
                if calls > 0 && entry < calls - 1 {
                    return Selection { item: at.item, entry: Some(entry + 1) };
                }
            },
            _ => {},
        }
        let last: usize = self.last_index();
        if at.item < last {
            self.select(at.item + 1, false)
        } else {
            self.select(last, false)
        }
    }

    /// The rows of the selection.
    pub fn selected_row_extent(
        &mut self,
        ctx: &RenderContext,
        at: Selection,
        width: u16,
        trim: bool,
    ) -> (r: (usize, usize))
        requires
            old(self).wf(ctx.config@),
        ensures
            final(self).wf(ctx.config@),
            final(self)@ == old(self)@,
            r == old(self)@.selection_extent(ctx.config@, width, trim, at),
    {
        reveal(Transcript::wf);
        let (start, height): (usize, usize) = self.item_row_extent(ctx, at.item, width, trim);
        match (at.entry, self.group(at.item)) {
            (Some(entry), Some(group)) => match group.entry_row_extent(
                pane_columns(width),
                entry,
            ) {
                Some((first, rows)) => (start.saturating_add(first), rows),
                None => (start, height),
            },
            _ => (start, height),
        }
    }

    /// The scroll offset that brings the selection on screen.
    pub fn scroll_to_selection(
        &mut self,
        ctx: &RenderContext,
        at: Selection,
        width: u16,
        trim: bool,
        height: u16,
        scroll: u16,
    ) -> (r: u16)
        requires
            old(self).wf(ctx.config@),
        ensures
            final(self).wf(ctx.config@),
            final(self)@ == old(self)@,
            r == old(self)@.scrolled_to(ctx.config@, at, width, trim, height, scroll),
    {
        reveal(Transcript::wf);
        reveal(TranscriptView::scrolled_to);
        let (start, rows): (usize, usize) = self.selected_row_extent(ctx, at, width, trim);
        let farthest: u16 = self.max_scroll(ctx, width, trim, height);
        scroll_showing(start, rows, height, scroll, farthest)
    }
}

impl TranscriptView {
    /// The scroll offset that brings the selection on screen.
    #[verifier::opaque]
    pub open spec fn scrolled_to(
        self,
        config: ConfigView,
        at: Selection,
        width: u16,
        trim: bool,
        height: u16,
        scroll: u16,
    ) -> u16 {
        let (start, rows) = self.selection_extent(config, width, trim, at);
        scroll_to_show(start, rows, height, scroll, self.farthest(config, width, trim, height))
    }
}

// ---------------------------------------------------------------------------
// Laws
// ---------------------------------------------------------------------------

/// Where the rows before the farthest offset reach, the top row of what is to
/// be shown is in the window, and all of its rows where they fit.
pub proof fn shown_rows_are_in_window(
    start: usize,
    rows: usize,
    height: u16,
    scroll: u16,
    farthest: u16,
)
    requires
        height > 0,
        rows > 0,
        start + rows <= farthest + height,
        start + rows <= usize::MAX,
    ensures
        ({
            let top = scroll_to_show(start, rows, height, scroll, farthest);
            &&& top <= farthest
            &&& top <= start < top + height
            &&& rows <= height ==> start + rows <= top + height
        }),
{
}

/// Moving a selection in a transcript stays among its items, and where the item
/// is a batch, among its calls.
pub proof fn selection_stays_in_range(t: TranscriptView, at: Selection)
    requires
        0 < t.items.len() <= usize::MAX,
        at.item < t.items.len(),
        at.entry matches Some(entry) ==> t.group_at(at.item) matches Some(group) && entry
            < group.entries.len(),
        forall|i: int|
            0 <= i < t.items.len() ==> (#[trigger] t.items[i]).kind.calls() <= usize::MAX,
    ensures
        forall|to: Selection|
            to == t.selected_above(at) || to == t.selected_below(at) ==> #[trigger] to.item
                < t.items.len() && (to.entry matches Some(entry) ==> t.group_at(to.item) matches
            Some(group) && entry < group.entries.len()),
{
    let up = t.selected_above(at);
    let down = t.selected_below(at);
    assert(t.items[up.item as int].kind.calls() <= usize::MAX);
    assert(t.items[down.item as int].kind.calls() <= usize::MAX);
}

/// Counting rows and showing them agree: a window over everything shows as many
/// rows as were counted.
pub proof fn counted_rows_are_shown(
    t: TranscriptView,
    config: ConfigView,
    width: u16,
    trim: bool,
    mark: Mark,
)
    ensures
        t.all_rows(config, width, trim, mark).len() == t.all_rows(config, width, trim, None).len(),
        t.items.len() > 0 ==> t.row_count(config, width, trim) == t.all_rows(
            config,
            width,
            trim,
            mark,
        ).len(),
{
    t.marks_keep_rows(config, width, trim, mark, t.items.len());
}

/// The number of calls that can be chosen from at item `i`: those of a batch,
/// none elsewhere.
pub open spec fn choices_at(t: TranscriptView, i: int) -> nat {
    match t.items[i].kind {
        KindView::Group(group) => if group.entries.len() > 1 {
            group.entries.len()
        } else {
            0
        },
        _ => 0,
    }
}

/// A step up goes to the call above in the same batch, or to the row above, and
/// there to the last call of a batch. On the first row it stays there.
pub proof fn steps_up_visit_each_row(t: TranscriptView, at: Selection)
    requires
        at.item < t.items.len() <= usize::MAX,
        at.entry matches Some(e) ==> e < choices_at(t, at.item as int) <= usize::MAX,
        at.entry is None ==> choices_at(t, at.item as int) == 0,
        at.item > 0 ==> choices_at(t, at.item - 1) <= usize::MAX,
    ensures
        ({
            let up = t.selected_above(at);
            let inside = at.entry is Some && at.entry->0 > 0;
            &&& inside ==> up.item == at.item && up.entry is Some && up.entry->0 == at.entry->0 - 1
            &&& !inside && at.item > 0 ==> {
                let n = choices_at(t, at.item - 1);
                &&& up.item == at.item - 1
                &&& n == 0 ==> up.entry is None
                &&& n > 0 ==> up.entry is Some && up.entry->0 == n - 1
            }
            &&& !inside && at.item == 0 ==> up.item == 0
        }),
{
}

/// A step down goes to the call below in the same batch, or to the row below,
/// and there to the first call of a batch. On the last row it stays there.
pub proof fn steps_down_visit_each_row(t: TranscriptView, at: Selection)
    requires
        at.item < t.items.len() <= usize::MAX,
        at.entry matches Some(e) ==> e < choices_at(t, at.item as int) <= usize::MAX,
        at.entry is None ==> choices_at(t, at.item as int) == 0,
    ensures
        ({
            let down = t.selected_below(at);
            let inside = at.entry is Some && at.entry->0 + 1 < choices_at(t, at.item as int);
            &&& inside ==> down.item == at.item && down.entry is Some && down.entry->0
                == at.entry->0 + 1
            &&& !inside && at.item + 1 < t.items.len() ==> {
                let n = choices_at(t, at.item + 1);
                &&& down.item == at.item + 1
                &&& n == 0 ==> down.entry is None
                &&& n > 0 ==> down.entry is Some && down.entry->0 == 0
            }
            &&& !inside && at.item + 1 == t.items.len() ==> down.item == at.item
        }),
{
}

/// A step up takes back a step down that moved the selection.
pub proof fn steps_up_undo_steps_down(t: TranscriptView, at: Selection)
    requires
        at.item < t.items.len() <= usize::MAX,
        at.entry matches Some(e) ==> e < choices_at(t, at.item as int) <= usize::MAX,
        at.entry is None ==> choices_at(t, at.item as int) == 0,
        at.item + 1 < t.items.len() || at.entry is Some && at.entry->0 + 1 < choices_at(
            t,
            at.item as int,
        ),
    ensures
        t.selected_above(t.selected_below(at)) == at,
{
}

/// The selection starts at the ends of the transcript: at the first call of the
/// first row, or at the last call of the last one.
pub proof fn ends_of_the_transcript_are_selected(t: TranscriptView)
    requires
        0 < t.items.len() <= usize::MAX,
        choices_at(t, 0) <= usize::MAX,
        choices_at(t, t.items.len() - 1) <= usize::MAX,
    ensures
        ({
            let first = t.selected_at(0, false);
            let last = t.selected_at(t.last_item(), true);
            let n = choices_at(t, t.items.len() - 1);
            &&& first.item == 0
            &&& first.entry is Some <==> choices_at(t, 0) > 0
            &&& first.entry is Some ==> first.entry->0 == 0
            &&& last.item == t.items.len() - 1
            &&& last.entry is Some <==> n > 0
            &&& last.entry is Some ==> last.entry->0 == n - 1
        }),
{
}

/// The transcript scrolls so far that its last row ends the window, and not at
/// all where every row fits.
pub proof fn transcripts_scroll_to_their_end(
    t: TranscriptView,
    config: ConfigView,
    width: u16,
    trim: bool,
    height: u16,
)
    requires
        t.row_count(config, width, trim) <= u16::MAX,
    ensures
        ({
            let rows = t.row_count(config, width, trim);
            let far = t.farthest(config, width, trim, height);
            &&& rows <= height ==> far == 0
            &&& rows > height ==> far + height == rows
        }),
{
    reveal(TranscriptView::farthest);
}

/// Between the rows of two items stands one blank row.
pub proof fn items_stand_apart(
    t: TranscriptView,
    config: ConfigView,
    width: u16,
    trim: bool,
    mark: Mark,
    n: nat,
)
    requires
        0 < n < t.items.len(),
    ensures
        ({
            let above = t.item_rows_to(config, width, trim, mark, n);
            let rows = t.item_rows_to(config, width, trim, mark, n + 1);
            let item = t.shown_item(config, width, trim, mark, n as int);
            &&& rows.len() == above.len() + 1 + item.len()
            &&& forall|i: int| 0 <= i < above.len() ==> #[trigger] rows[i] == above[i]
            &&& rows[above.len() as int].spans.len() == 0
            &&& forall|i: int|
                0 <= i < item.len() ==> #[trigger] rows[above.len() + 1 + i] == item[i]
        }),
{
}

/// The rows on screen are those from the scroll offset on, as many as fit.
pub proof fn the_window_shows_what_it_covers(
    t: TranscriptView,
    config: ConfigView,
    width: u16,
    trim: bool,
    mark: Mark,
    scroll: u16,
    height: u16,
    empty: Seq<char>,
)
    requires
        t.all_rows(config, width, trim, mark).len() > 0,
    ensures
        ({
            let rows = t.all_rows(config, width, trim, mark);
            let shown = t.visible(config, width, trim, mark, scroll, height, empty);
            &&& scroll + height <= rows.len() ==> shown.len() == height
            &&& scroll <= rows.len() < scroll + height ==> shown.len() == rows.len() - scroll
            &&& forall|i: int| 0 <= i < shown.len() ==> #[trigger] shown[i] == rows[scroll + i]
        }),
{
    reveal(TranscriptView::visible);
}

/// A marked item shows on a grey ground, and only its colours change.
pub proof fn marked_items_stand_out(
    t: TranscriptView,
    config: ConfigView,
    width: u16,
    trim: bool,
    i: usize,
    j: usize,
)
    requires
        i < t.items.len(),
        j < t.items.len(),
    ensures
        ({
            let bare = t.shown_item(config, width, trim, None, j as int);
            let shown = t.shown_item(config, width, trim, Some((i, None)), j as int);
            &&& i != j ==> shown == bare
            &&& i == j ==> shown.len() == bare.len()
            &&& i == j ==> forall|k: int|
                0 <= k < shown.len() ==> (#[trigger] shown[k]).spans == bare[k].spans
                    && shown[k].style.bg == Some(Color::DarkGray)
        }),
{
    reveal(TranscriptView::shown_item);
}

/// A user message that ends the transcript goes without its last row while
/// nothing streams; in front of other rows it is whole.
pub proof fn last_messages_stay_open(
    t: TranscriptView,
    config: ConfigView,
    width: u16,
    i: int,
)
    requires
        0 <= i < t.items.len(),
    ensures
        ({
            let whole = item_rows(config, t.items[i].kind, width);
            let shown = t.shown_item(config, width, true, None, i);
            let open = t.items[i].kind is User && i == t.items.len() - 1 && !(
            t.active_reasoning is Some && t.active_reasoning->0.len() > 0) && !(
            t.active_assistant is Some && t.active_assistant->0.len() > 0);
            &&& open && whole.len() > 0 ==> shown =~= whole.take(whole.len() - 1)
            &&& !open ==> shown == whole
            &&& t.shown_item(config, width, false, None, i) == whole
        }),
{
    reveal(TranscriptView::shown_item);
}

/// The rows of an item stand where they are said to.
pub proof fn items_stand_at_their_place(
    t: TranscriptView,
    config: ConfigView,
    width: u16,
    trim: bool,
    i: nat,
    n: nat,
)
    requires
        i < n <= t.items.len(),
        t.item_rows_to(config, width, trim, None, n).len() <= usize::MAX,
    ensures
        ({
            let rows = t.item_rows_to(config, width, trim, None, n);
            let own = t.shown_item(config, width, trim, None, i as int);
            let (start, count) = t.item_extent(config, width, trim, i);
            &&& count == own.len()
            &&& start + count <= rows.len()
            &&& rows.subrange(start as int, start + count) =~= own
        }),
    decreases n,
{
    let before = t.item_rows_to(config, width, trim, None, (n - 1) as nat);
    let rows = t.item_rows_to(config, width, trim, None, n);
    let (start, count) = t.item_extent(config, width, trim, i);
    if i < n - 1 {
        items_stand_at_their_place(t, config, width, trim, i, (n - 1) as nat);
        assert(rows.subrange(start as int, start + count) =~= before.subrange(
            start as int,
            start + count,
        ));
    } else {
        assert(rows =~= separated(before, n > 1) + t.shown_item(
            config,
            width,
            trim,
            None,
            i as int,
        ));
    }
}

/// Rows that are on screen already are not scrolled.
pub proof fn visible_rows_are_not_scrolled(
    start: usize,
    rows: usize,
    height: u16,
    scroll: u16,
    farthest: u16,
)
    requires
        height > 0,
        scroll <= farthest,
        scroll <= start,
        start + rows <= scroll + height,
    ensures
        scroll_to_show(start, rows, height, scroll, farthest) == scroll,
{
}

/// Rows get numbers in the order in which they come, and nothing changes the
/// number of a row.
pub proof fn rows_are_numbered(t: TranscriptView, kind: KindView, i: int)
    requires
        t.next_id < u64::MAX,
    ensures
        ({
            let after = t.with_item(kind);
            &&& after.items.len() == t.items.len() + 1
            &&& after.items.last().id == t.next_id
            &&& after.items.last().version == 0
            &&& after.items.last().kind == kind
            &&& after.next_id == t.next_id + 1
            &&& after.pending is None
            &&& 0 <= i < t.items.len() ==> after.items[i] == t.items[i]
            &&& 0 <= i < t.items.len() ==> t.touched(i, kind).items[i].id == t.items[i].id
            &&& 0 <= i < t.items.len() && t.items[i].version < u64::MAX ==> t.touched(
                i,
                kind,
            ).items[i].version == t.items[i].version + 1
        }),
{
    reveal(TranscriptView::with_item);
    reveal(TranscriptView::touched);
}

/// What streams shows below the items, the reasoning first, each behind its
/// mark and a blank row.
pub proof fn streams_show_below_the_items(
    t: TranscriptView,
    config: ConfigView,
    width: u16,
    trim: bool,
    mark: Mark,
    lines: Seq<LineView>,
)
    requires
        width > 0,
        t.items.len() > 0,
        t.item_rows_to(config, width, trim, mark, t.items.len()).len() > 0,
    ensures
        ({
            let above = t.item_rows_to(config, width, trim, mark, t.items.len());
            let rows = t.all_rows(config, width, trim, mark);
            let said = message_rows(
                lines,
                span_of("• "@, fg_style(Color::Green).with_bold()),
                span_of("  "@, fg_style(Color::Green)),
                false,
                width as nat,
                lines.len(),
            );
            let thought = message_rows(
                lines,
                span_of("… "@, fg_style(Color::Magenta).with_dim().with_bold()),
                span_of("  "@, fg_style(Color::Magenta).with_dim()),
                true,
                width as nat,
                lines.len(),
            );
            &&& t.active_reasoning is None && t.active_assistant is None ==> rows =~= above
            &&& t.active_reasoning is None && t.active_assistant == Some(lines) && said.len() > 0
                ==> rows =~= above.push(blank_line()) + said
            &&& t.active_reasoning == Some(lines) && t.active_assistant is None && thought.len() > 0
                ==> rows =~= above.push(blank_line()) + thought
        }),
{
}

/// The selected call of a batch is brought on screen by its own rows, any other
/// selection by those of its item.
pub proof fn selections_extend_over_their_rows(
    t: TranscriptView,
    config: ConfigView,
    width: u16,
    trim: bool,
    at: Selection,
    group: GroupView,
)
    requires
        width > 0,
        at.item < t.items.len(),
    ensures
        at.entry is None ==> t.selection_extent(config, width, trim, at) == t.item_extent(
            config,
            width,
            trim,
            at.item as nat,
        ),
        at.entry is Some && t.items[at.item as int].kind == KindView::Group(group)
            && group.entries.len() > 1 && at.entry->0 < group.entries.len() ==> ({
            let (start, height) = t.item_extent(config, width, trim, at.item as nat);
            let (first, rows) = entry_extent(group, width as nat, at.entry->0 as nat)->0;
            let (from, count) = t.selection_extent(config, width, trim, at);
            count == rows && (start + first <= usize::MAX ==> from == start + first)
        }),
{
}

/// A stream is drawn for the width of the terminal less its margins, and never
/// for less than twenty columns.
pub proof fn streams_have_twenty_columns(width: u16)
    ensures
        stream_columns(width) >= 20,
        width >= 26 ==> stream_columns(width) + 6 == width,
{
}

} // verus!
