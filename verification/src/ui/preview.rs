//! The stack of subagent previews.
use vstd::prelude::*;
use crate::clipboard::MAX_CLIPBOARD_BYTES;
use crate::copying::{copy_notice, prepare_copy};
use crate::diff_render::columns_of;
use crate::history_cell::pane_columns;
use crate::keys::{only_control, KeyCode, KeyEvent, KeyEventKind};
use crate::protocol::{opt_thread, ThreadId, ThreadPreviewResponse};
use crate::subagent_preview::{
    lemma_opened_thread, opened_preview, PreviewOutcome, PreviewOutcomeView, PreviewView, SubagentPreviewView,
};
use crate::text::{owned, within_bytes};
use crate::ui::{
    effect_views, nothing, opt_context, preview_views, ContextView, EffectContext, EffectKindView,
    EffectView, ModelView, Screen, UiEffect, UiEffectKind, UiMode, UiModel,
};

verus! {

/// Whether a key is Ctrl-O.
pub open spec fn goes_back(key: KeyEvent) -> bool {
    (key.code == KeyCode::Char('o') || key.code == KeyCode::Char('O')) && key.modifiers.control
}

pub fn is_ctrl_o(key_event: KeyEvent) -> (r: bool)
    ensures
        r == goes_back(key_event),
{
    (key_event.code == KeyCode::Char('o') || key_event.code == KeyCode::Char('O'))
        && key_event.modifiers.control
}

/// The width of a preview: all of the terminal.
pub open spec fn full_width(model: ModelView) -> u16 {
    columns_of(model.terminal_width) as u16
}

// ---------------------------------------------------------------------------
// Back and forward
// ---------------------------------------------------------------------------

impl ModelView {
    /// Asks for the preview of a thread.
    pub open spec fn opening(self, thread: Seq<char>) -> (ModelView, Seq<EffectView>) {
        self.saying("Opening subagent…"@).with_effect(
            ContextView::ThreadPreview { thread },
            EffectKindView::ThreadPreview { thread },
        )
    }

    /// The preview on top is left; one watcher of its thread is released.
    #[verifier::opaque]
    pub open spec fn preview_left(self) -> (ModelView, Seq<EffectView>) {
        if self.previews.len() == 0 {
            self.quietly()
        } else {
            let thread = self.previews.last().thread_id;
            let rest = self.previews.drop_last();
            (ModelView {
                previews: rest,
                forward: self.forward.push(thread),
                status: if rest.len() > 0 {
                    rest.last().header() + " — Ctrl-O back, Ctrl-I forward"@
                } else {
                    "Returned to parent session — Ctrl-I forward"@
                },
                ..self
            }).with_effect(ContextView::ThreadUnwatch, EffectKindView::ThreadUnwatch { thread })
        }
    }

    /// The preview that was left last is asked for again.
    #[verifier::opaque]
    pub open spec fn preview_resumed(self) -> (ModelView, Seq<EffectView>) {
        if self.forward.len() == 0 {
            self.quietly()
        } else {
            (ModelView { forward: self.forward.drop_last(), ..self }).opening(self.forward.last())
        }
    }

    /// One watcher is released for each of the first `n` views.
    pub open spec fn releasing(self, views: Seq<PreviewView>, n: nat) -> (
        ModelView,
        Seq<EffectView>,
    )
        decreases n,
    {
        if n == 0 {
            self.quietly()
        } else {
            let (m, effects) = self.releasing(views, (n - 1) as nat);
            (
                m.asking(ContextView::ThreadUnwatch),
                effects.push(
                    m.asked(EffectKindView::ThreadUnwatch { thread: views[n - 1].thread_id }),
                ),
            )
        }
    }

    /// Every preview is closed.
    #[verifier::opaque]
    pub open spec fn previews_closed(self) -> (ModelView, Seq<EffectView>) {
        (ModelView { previews: Seq::empty(), forward: Seq::empty(), ..self }).releasing(
            self.previews,
            self.previews.len(),
        )
    }
}

fn header_with(view: &SubagentPreviewView, hint: &str) -> (r: String)
    ensures
        r@ == view@.header() + hint@,
{
    let mut out: String = view.header_label();
    out.push_str(hint);
    out
}

impl UiModel {
    fn open_preview(&mut self, thread_id: ThreadId) -> (r: Vec<UiEffect>)
        requires
            old(self).wf(),
        ensures
            final(self).wf(),
            (final(self)@, effect_views(r@)) == old(self)@.opening(thread_id@),
    {
        self.set_status("Opening subagent…");
        self.ask(
            EffectContext::ThreadPreview { thread_id: thread_id.duplicate() },
            UiEffectKind::ThreadPreview { thread_id },
        )
    }

    pub fn pop_preview_back(&mut self) -> (r: Vec<UiEffect>)
        requires
            old(self).wf(),
        ensures
            final(self).wf(),
            (final(self)@, effect_views(r@)) == old(self)@.preview_left(),
    {
        reveal(crate::ui::previews_ok);
        reveal(ModelView::preview_left);
        let ghost before = self@;
        match self.preview_stack.pop() {
            Some(popped) => {
                assert(self@.previews =~= before.previews.drop_last());
                assert(before.previews.last() == popped@);
                let thread_id: ThreadId = popped.thread_id;
                let ghost id = thread_id@;
                self.preview_forward_stack.push(thread_id.duplicate());
                assert(self@.forward =~= before.forward.push(id));
                let depth: usize = self.preview_stack.len();
                self.status_line = if depth > 0 {
                    assert(self@.previews.last() == self.preview_stack@[depth - 1]@);
                    header_with(
                        &self.preview_stack[depth - 1],
                        " — Ctrl-O back, Ctrl-I forward",
                    )
                } else {
                    owned("Returned to parent session — Ctrl-I forward")
                };
                self.ask(EffectContext::ThreadUnwatch, UiEffectKind::ThreadUnwatch { thread_id })
            },
            None => nothing(),
        }
    }

    pub fn reopen_forward_preview(&mut self) -> (r: Vec<UiEffect>)
        requires
            old(self).wf(),
        ensures
            final(self).wf(),
            (final(self)@, effect_views(r@)) == old(self)@.preview_resumed(),
    {
        reveal(ModelView::preview_resumed);
        let ghost before = self@;
        match self.preview_forward_stack.pop() {
            Some(thread_id) => {
                assert(self@.forward =~= before.forward.drop_last());
                assert(before.forward.last() == thread_id@);
                self.open_preview(thread_id)
            },
            None => nothing(),
        }
    }

    /// Pop every preview view, emitting one `ThreadUnwatch` per view — the
    /// server refcounts watchers, so each successful preview needs exactly
    /// one release, duplicates included.
    pub fn clear_preview_stack(&mut self) -> (r: Vec<UiEffect>)
        requires
            old(self).wf(),
        ensures
            final(self).wf(),
            (final(self)@, effect_views(r@)) == old(self)@.previews_closed(),
    {
        reveal(crate::ui::previews_ok);
        reveal(ModelView::previews_closed);
        let ghost before = self@;
        self.preview_forward_stack.clear();
        let mut views: Vec<SubagentPreviewView> = Vec::new();
        core::mem::swap(&mut views, &mut self.preview_stack);
        let ghost closed = self@;
        let mut effects: Vec<UiEffect> = nothing();
        proof {
            assert(closed.forward =~= Seq::empty());
            assert(closed.previews =~= Seq::empty());
            assert(preview_views(views@) == before.previews);
        }
        let mut i: usize = 0;
        while i < views.len()
            invariant
                self.wf(),
                i <= views@.len(),
                preview_views(views@) == before.previews,
                (self@, effect_views(effects@)) == closed.releasing(before.previews, i as nat),
            decreases views@.len() - i,
        {
            assert(before.previews[i as int] == views@[i as int]@);
            let ghost so_far = effect_views(effects@);
            let effect: UiEffect = self.effect(
                EffectContext::ThreadUnwatch,
                UiEffectKind::ThreadUnwatch { thread_id: views[i].thread_id.duplicate() },
            );
            let ghost added = effect@;
            effects.push(effect);
            assert(effect_views(effects@) =~= so_far.push(added));
            i += 1;
        }
        effects
    }
}

// ---------------------------------------------------------------------------
// Keys
// ---------------------------------------------------------------------------

impl ModelView {
    /// Copies a text, and says so.
    pub open spec fn copying(self, payload: Seq<char>, status: Seq<char>) -> (
        ModelView,
        Seq<EffectView>,
    ) {
        self.saying(copy_notice(status, payload)).with_effect(
            ContextView::Clipboard,
            EffectKindView::CopyToClipboard {
                content: within_bytes(payload, MAX_CLIPBOARD_BYTES as nat),
            },
        )
    }

    /// What a preview asks for is done.
    #[verifier::opaque]
    pub open spec fn preview_served(self, outcome: PreviewOutcomeView) -> (
        ModelView,
        Seq<EffectView>,
    ) {
        match outcome {
            PreviewOutcomeView::Nothing => self.quietly(),
            PreviewOutcomeView::Say(text) => self.saying(text).quietly(),
            PreviewOutcomeView::Open(thread) => (ModelView {
                forward: Seq::empty(),
                ..self
            }).opening(thread),
            PreviewOutcomeView::Copy { payload, status } => self.copying(payload, status),
        }
    }

    /// The preview on top becomes `view`.
    pub open spec fn with_top(self, view: PreviewView) -> ModelView {
        ModelView { previews: self.previews.update(self.previews.len() - 1, view), ..self }
    }

    pub open spec fn preview_scroll_keyed(
        self,
        key: KeyEvent,
        now: u64,
        width: u16,
        height: u16,
    ) -> (ModelView, Seq<EffectView>) {
        if goes_back(key) {
            self.preview_left()
        } else if self.previews.len() == 0 {
            self.quietly()
        } else {
            let (view, outcome) = self.previews.last().scroll_keyed(
                self.config,
                key,
                now,
                width,
                height,
            );
            self.with_top(view).preview_served(outcome)
        }
    }

    pub open spec fn preview_select_keyed(
        self,
        key: KeyEvent,
        now: u64,
        width: u16,
        height: u16,
    ) -> (ModelView, Seq<EffectView>) {
        if goes_back(key) {
            self.preview_left()
        } else if self.previews.len() == 0 {
            self.quietly()
        } else {
            let (view, outcome) = self.previews.last().select_keyed(
                self.config,
                key,
                now,
                width,
                height,
            );
            self.with_top(view).preview_served(outcome)
        }
    }

    pub open spec fn preview_row_copied(self, now: u64) -> (ModelView, Seq<EffectView>) {
        if self.previews.len() == 0 {
            self.quietly()
        } else {
            let (view, outcome) = self.previews.last().copied(now);
            self.with_top(view).preview_served(outcome)
        }
    }

    #[verifier::opaque]
    pub open spec fn preview_keyed(self, key: KeyEvent, now: u64) -> (
        ModelView,
        Seq<EffectView>,
    ) {
        if self.previews.len() == 0 {
            self.quietly()
        } else if self.previews.last().select_mode {
            self.preview_select_keyed(key, now, full_width(self), self.viewport)
        } else {
            self.preview_scroll_keyed(key, now, full_width(self), self.viewport)
        }
    }
}

impl UiModel {
    pub fn copy_text(&mut self, payload: String, status: &str) -> (r: Vec<UiEffect>)
        requires
            old(self).wf(),
        ensures
            final(self).wf(),
            (final(self)@, effect_views(r@)) == old(self)@.copying(payload@, status@),
    {
        let (content, notice): (String, String) = prepare_copy(status, payload);
        self.status_line = notice;
        self.ask(EffectContext::Clipboard, UiEffectKind::CopyToClipboard { content })
    }

    pub fn serve_preview(&mut self, outcome: PreviewOutcome) -> (r: Vec<UiEffect>)
        requires
            old(self).wf(),
        ensures
            final(self).wf(),
            (final(self)@, effect_views(r@)) == old(self)@.preview_served(outcome@),
    {
        reveal(ModelView::preview_served);
        match outcome {
            PreviewOutcome::Nothing => nothing(),
            PreviewOutcome::Say(text) => {
                self.status_line = text;
                nothing()
            },
            PreviewOutcome::Open(thread_id) => {
                self.preview_forward_stack.clear();
                assert(self@.forward =~= Seq::empty());
                self.open_preview(thread_id)
            },
            PreviewOutcome::Copy { payload, status } => self.copy_text(payload, status.as_str()),
        }
    }

    /// A preview's default sub-mode: Normal-like line/page scrolling with no
    /// selection highlight. Ctrl-O pops the preview (one `ThreadUnwatch` per
    /// pop — the server refcounts watchers); Esc Esc enters the select sub-mode.
    pub fn handle_preview_scroll_key(
        &mut self,
        key_event: KeyEvent,
        now: u64,
        width: u16,
        viewport: u16,
    ) -> (r: Vec<UiEffect>)
        requires
            old(self).wf(),
        ensures
            final(self).wf(),
            (final(self)@, effect_views(r@)) == old(self)@.preview_scroll_keyed(
                key_event,
                now,
                width,
                viewport,
            ),
    {
        reveal(crate::ui::previews_ok);
        if is_ctrl_o(key_event) {
            return self.pop_preview_back();
        }
        let depth: usize = self.preview_stack.len();
        if depth == 0 {
            return nothing();
        }
        let ghost before = self@;
        assert(before.previews.last() == self.preview_stack@[depth - 1]@);
        let view: &mut SubagentPreviewView = &mut self.preview_stack[depth - 1];
        let outcome: PreviewOutcome = view.handle_scroll_key(
            &self.context,
            key_event,
            now,
            width,
            viewport,
        );
        assert(self@.previews =~= before.previews.update(
            depth - 1,
            self.preview_stack@[depth - 1]@,
        ));
        self.serve_preview(outcome)
    }

    /// A preview's transcript-select sub-mode (entered with Esc Esc): a
    /// highlighted row, `j`/`k` move the selection, `gg`/`G`/Home/End move it,
    /// Enter nests a deeper preview, `y`/`yy` copy. Esc returns to scroll and
    /// Ctrl-O returns to the parent preview/session.
    pub fn handle_preview_select_key(
        &mut self,
        key_event: KeyEvent,
        now: u64,
        width: u16,
        viewport: u16,
    ) -> (r: Vec<UiEffect>)
        requires
            old(self).wf(),
        ensures
            final(self).wf(),
            (final(self)@, effect_views(r@)) == old(self)@.preview_select_keyed(
                key_event,
                now,
                width,
                viewport,
            ),
    {
        reveal(crate::ui::previews_ok);
        if is_ctrl_o(key_event) {
            return self.pop_preview_back();
        }
        let depth: usize = self.preview_stack.len();
        if depth == 0 {
            return nothing();
        }
        let ghost before = self@;
        assert(before.previews.last() == self.preview_stack@[depth - 1]@);
        let view: &mut SubagentPreviewView = &mut self.preview_stack[depth - 1];
        let outcome: PreviewOutcome = view.handle_select_key(
            &self.context,
            key_event,
            now,
            width,
            viewport,
        );
        assert(self@.previews =~= before.previews.update(
            depth - 1,
            self.preview_stack@[depth - 1]@,
        ));
        self.serve_preview(outcome)
    }

    /// `y` in a preview's select sub-mode: tool rows copy their result first, a
    /// second `y` upgrades to the arguments.
    pub fn copy_preview_selected_row(&mut self, now: u64) -> (r: Vec<UiEffect>)
        requires
            old(self).wf(),
        ensures
            final(self).wf(),
            (final(self)@, effect_views(r@)) == old(self)@.preview_row_copied(now),
    {
        reveal(crate::ui::previews_ok);
        let depth: usize = self.preview_stack.len();
        if depth == 0 {
            return nothing();
        }
        let ghost before = self@;
        assert(before.previews.last() == self.preview_stack@[depth - 1]@);
        let view: &mut SubagentPreviewView = &mut self.preview_stack[depth - 1];
        let outcome: PreviewOutcome = view.copy_selected_row(now);
        assert(self@.previews =~= before.previews.update(
            depth - 1,
            self.preview_stack@[depth - 1]@,
        ));
        assert(self.wf());
        self.serve_preview(outcome)
    }

    /// Keys while a subagent preview is open. The top view owns the keyboard
    /// and starts in a Normal-like scroll sub-mode; Esc Esc switches it into
    /// a transcript-select sub-mode (mirroring the main view) for Enter/copy.
    pub fn handle_preview_key(&mut self, key_event: KeyEvent, now: u64) -> (r: Vec<UiEffect>)
        requires
            old(self).wf(),
        ensures
            final(self).wf(),
            (final(self)@, effect_views(r@)) == old(self)@.preview_keyed(key_event, now),
    {
        reveal(ModelView::preview_keyed);
        let width: u16 = pane_columns(self.terminal_width) as u16;
        let viewport: u16 = self.viewport_height;
        let depth: usize = self.preview_stack.len();
        if depth == 0 {
            return nothing();
        }
        assert(self@.previews.last() == self.preview_stack@[depth - 1]@);
        if self.preview_stack[depth - 1].select_mode {
            self.handle_preview_select_key(key_event, now, width, viewport)
        } else {
            self.handle_preview_scroll_key(key_event, now, width, viewport)
        }
    }
}

// ---------------------------------------------------------------------------
// Responses
// ---------------------------------------------------------------------------

/// The thread of a response.
pub open spec fn response_thread(response: ThreadPreviewResponse) -> Option<Seq<char>> {
    match response.thread_id.parsed {
        Ok(id) => Some(id@),
        Err(_) => None,
    }
}

pub open spec fn requested_thread(context: Option<ContextView>) -> Option<Seq<char>> {
    match context {
        Some(ContextView::ThreadPreview { thread }) => Some(thread),
        _ => None,
    }
}

impl ModelView {
    /// One watcher of a thread is released.
    pub open spec fn unwatching(self, thread: Seq<char>) -> (ModelView, Seq<EffectView>) {
        self.with_effect(ContextView::ThreadUnwatch, EffectKindView::ThreadUnwatch { thread })
    }

    /// A response that does not fit what was asked for opens nothing.
    pub open spec fn preview_refused(
        self,
        requested: Option<Seq<char>>,
        actual: Option<Seq<char>>,
    ) -> (ModelView, Seq<EffectView>) {
        let m = self.saying("Could not open subagent: unexpected response"@);
        match (requested, actual) {
            (Some(thread), _) => m.unwatching(thread),
            (None, Some(thread)) => m.unwatching(thread),
            (None, None) => m.quietly(),
        }
    }

    #[verifier::opaque]
    pub open spec fn preview_opened(self, thread: Seq<char>, response: ThreadPreviewResponse) -> ModelView {
        let view = opened_preview(thread, response, full_width(self)).at_bottom(
            self.config,
            full_width(self),
            self.viewport,
        );
        ModelView {
            status: view.header() + if self.forward.len() == 0 {
                " — Ctrl-O back"@
            } else {
                " — Ctrl-O back, Ctrl-I forward"@
            },
            previews: self.previews.push(view),
            ..self
        }
    }

    #[verifier::opaque]
    pub open spec fn preview_arrived(
        self,
        context: Option<ContextView>,
        response: ThreadPreviewResponse,
    ) -> (ModelView, Seq<EffectView>) {
        match (requested_thread(context), response_thread(response)) {
            (Some(requested), Some(actual)) => if requested == actual {
                self.preview_opened(actual, response).quietly()
            } else {
                self.preview_refused(Some(requested), Some(actual))
            },
            (requested, actual) => self.preview_refused(requested, actual),
        }
    }
}

impl UiModel {
    fn unwatch(&mut self, thread_id: ThreadId) -> (r: Vec<UiEffect>)
        requires
            old(self).wf(),
        ensures
            final(self).wf(),
            (final(self)@, effect_views(r@)) == old(self)@.unwatching(thread_id@),
    {
        self.ask(EffectContext::ThreadUnwatch, UiEffectKind::ThreadUnwatch { thread_id })
    }

    fn push_preview(&mut self, thread_id: ThreadId, response: &ThreadPreviewResponse)
        requires
            old(self).wf(),
        ensures
            final(self).wf(),
            final(self)@ == old(self)@.preview_opened(thread_id@, *response),
    {
        reveal(crate::ui::previews_ok);
        reveal(ModelView::preview_opened);
        let ghost before = self@;
        let width: u16 = pane_columns(self.terminal_width) as u16;
        let viewport: u16 = self.viewport_height;
        let mut view: SubagentPreviewView = SubagentPreviewView::from_preview_response(
            thread_id,
            response,
            width,
        );
        view.scroll_to_bottom(&self.context, width, viewport);
        self.status_line = if self.preview_forward_stack.len() == 0 {
            header_with(&view, " — Ctrl-O back")
        } else {
            header_with(&view, " — Ctrl-O back, Ctrl-I forward")
        };
        let ghost added = view@;
        self.preview_stack.push(view);
        assert(self@.previews =~= before.previews.push(added));
    }

    /// A successful `threadPreview` response: validate it against the
    /// requested thread and push the view. Any mismatch fails defensively —
    /// the server holds a watcher that only an unwatch will release, and no
    /// view means no pop will ever send one.
    pub fn apply_thread_preview(
        &mut self,
        context: Option<EffectContext>,
        response: &ThreadPreviewResponse,
    ) -> (r: Vec<UiEffect>)
        requires
            old(self).wf(),
        ensures
            final(self).wf(),
            (final(self)@, effect_views(r@)) == old(self)@.preview_arrived(
                opt_context(context),
                *response,
            ),
    {
        reveal(ModelView::preview_arrived);
        let requested: Option<ThreadId> = match context {
            Some(EffectContext::ThreadPreview { thread_id }) => Some(thread_id),
            _ => None,
        };
        assert(opt_thread(requested) == requested_thread(opt_context(context)));
        let actual: Option<ThreadId> = match &response.thread_id.parsed {
            Ok(id) => Some(id.duplicate()),
            Err(_) => None,
        };
        assert(opt_thread(actual) == response_thread(*response));
        match (requested, actual) {
            (Some(wanted), Some(got)) => {
                if wanted.same(&got) {
                    self.push_preview(got, response);
                    nothing()
                } else {
                    self.set_status("Could not open subagent: unexpected response");
                    // Unwatch whichever id the server may have taken a watcher for.
                    self.unwatch(wanted)
                }
            },
            (Some(wanted), None) => {
                self.set_status("Could not open subagent: unexpected response");
                self.unwatch(wanted)
            },
            (None, Some(got)) => {
                self.set_status("Could not open subagent: unexpected response");
                self.unwatch(got)
            },
            (None, None) => {
                self.set_status("Could not open subagent: unexpected response");
                nothing()
            },
        }
    }
}

// ---------------------------------------------------------------------------
// Laws
// ---------------------------------------------------------------------------

/// Closing all previews releases exactly one watcher per view, in order, and
/// leaves none to come back to.
pub proof fn closed_previews_release_each_watcher(model: ModelView)
    ensures
        model.previews_closed().0.previews.len() == 0,
        model.previews_closed().0.forward.len() == 0,
        model.previews_closed().1.len() == model.previews.len(),
        forall|i: int|
            0 <= i < model.previews.len() ==> (#[trigger] model.previews_closed().1[i]).kind
                == (EffectKindView::ThreadUnwatch { thread: model.previews[i].thread_id }),
{
    reveal(ModelView::previews_closed);
    let closed = ModelView { previews: Seq::empty(), forward: Seq::empty(), ..model };
    lemma_releases(closed, model.previews, model.previews.len());
}

proof fn lemma_releases(model: ModelView, views: Seq<PreviewView>, n: nat)
    requires
        n <= views.len(),
    ensures
        model.releasing(views, n).0.previews == model.previews,
        model.releasing(views, n).0.forward == model.forward,
        model.releasing(views, n).1.len() == n,
        forall|i: int|
            0 <= i < n ==> (#[trigger] model.releasing(views, n).1[i]).kind == (
            EffectKindView::ThreadUnwatch { thread: views[i].thread_id }),
    decreases n,
{
    if n > 0 {
        lemma_releases(model, views, (n - 1) as nat);
    }
}

/// Leaving a preview and going forward again asks for the thread that was left,
/// and the way forward is as it was.
pub proof fn forward_undoes_back(model: ModelView)
    requires
        model.previews.len() > 0,
    ensures
        ({
            let (left, released) = model.preview_left();
            let (back, asked) = left.preview_resumed();
            &&& released.len() == 1
            &&& released[0].kind == (EffectKindView::ThreadUnwatch {
                thread: model.previews.last().thread_id,
            })
            &&& asked.len() == 1
            &&& asked[0].kind == (EffectKindView::ThreadPreview {
                thread: model.previews.last().thread_id,
            })
            &&& back.forward == model.forward
            &&& back.previews == model.previews.drop_last()
        }),
{
    reveal(ModelView::preview_left);
    reveal(ModelView::preview_resumed);
    assert(model.forward.push(model.previews.last().thread_id).drop_last() =~= model.forward);
}

/// A response opens a view only for the thread that was asked for; any other
/// one opens none, and releases one watcher where a thread is known.
pub proof fn mismatched_previews_open_nothing(
    model: ModelView,
    context: Option<ContextView>,
    response: ThreadPreviewResponse,
)
    requires
        requested_thread(context) is None || requested_thread(context) != response_thread(
            response,
        ),
    ensures
        ({
            let (after, effects) = model.preview_arrived(context, response);
            &&& after.previews == model.previews
            &&& requested_thread(context) is Some || response_thread(response) is Some
                ==> effects.len() == 1 && effects[0].kind is ThreadUnwatch
        }),
{
    reveal(ModelView::preview_arrived);
}

/// Ctrl-O leaves the preview on top: its watcher is released, and the way
/// forward leads to it.
pub proof fn ctrl_o_leaves_the_preview(model: ModelView, now: u64)
    requires
        model.screen == Screen::Workspace,
        model.previews.len() > 0,
    ensures
        ({
            let key = KeyEvent {
                code: KeyCode::Char('o'),
                modifiers: only_control(),
                kind: KeyEventKind::Press,
            };
            let (after, effects) = model.keyed(key, now);
            let top = model.previews.last();
            &&& after.previews =~= model.previews.drop_last()
            &&& after.forward =~= model.forward.push(top.thread_id)
            &&& after.asks_for(
                effects,
                EffectKindView::ThreadUnwatch { thread: top.thread_id },
                ContextView::ThreadUnwatch,
            )
            &&& model.previews.len() == 1 ==> after.status
                == "Returned to parent session — Ctrl-I forward"@
        }),
{
    reveal(ModelView::pressed);
    reveal(ModelView::preview_keyed);
    reveal(ModelView::preview_left);
}

/// Ctrl-I asks again for the preview that was left last.
pub proof fn ctrl_i_goes_forward(model: ModelView, now: u64)
    requires
        model.screen == Screen::Workspace,
        model.picker is None,
        model.approval is None,
        model.mode == UiMode::Normal || model.mode == UiMode::TranscriptSelect,
        model.forward.len() > 0,
    ensures
        ({
            let key = KeyEvent {
                code: KeyCode::Char('i'),
                modifiers: only_control(),
                kind: KeyEventKind::Press,
            };
            let (after, effects) = model.keyed(key, now);
            let thread = model.forward.last();
            &&& after.asks_for(
                effects,
                EffectKindView::ThreadPreview { thread },
                ContextView::ThreadPreview { thread },
            )
            &&& after.forward =~= model.forward.drop_last()
            &&& after.previews == model.previews
            &&& after.status == "Opening subagent…"@
        }),
{
    reveal(ModelView::pressed);
    reveal(ModelView::preview_resumed);
}

/// A preview that arrives as asked for opens on top of the others.
pub proof fn asked_previews_are_opened(
    model: ModelView,
    context: Option<ContextView>,
    response: ThreadPreviewResponse,
    id: ThreadId,
)
    requires
        context == Some(ContextView::ThreadPreview { thread: id@ }),
        response.thread_id.parsed == Ok::<ThreadId, String>(id),
    ensures
        ({
            let (after, effects) = model.preview_arrived(context, response);
            &&& effects.len() == 0
            &&& after.previews.len() == model.previews.len() + 1
            &&& after.previews.last().thread_id == id@
            &&& forall|i: int|
                0 <= i < model.previews.len() ==> #[trigger] after.previews[i] == model.previews[i]
            &&& after.transcript == model.transcript
        }),
{
    reveal(ModelView::preview_arrived);
    reveal(ModelView::preview_opened);
    lemma_opened_thread(id@, response, full_width(model));
}

/// Keys go to the preview on top: it scrolls, or moves its selection, and what
/// it asks for is done; the previews below stay.
pub proof fn keys_go_to_the_top_preview(model: ModelView, code: KeyCode, now: u64)
    requires
        model.screen == Screen::Workspace,
        model.previews.len() > 0,
        code != KeyCode::Tab,
    ensures
        ({
            let key = crate::ui::input::plain_key(code);
            let top = model.previews.last();
            let width = if model.terminal_width > 0 {
                model.terminal_width
            } else {
                1
            };
            let (view, outcome) = if top.select_mode {
                top.select_keyed(model.config, key, now, width, model.viewport)
            } else {
                top.scroll_keyed(model.config, key, now, width, model.viewport)
            };
            let (after, effects) = model.keyed(key, now);
            &&& after.previews.len() == model.previews.len()
            &&& after.previews.last() == view
            &&& forall|i: int|
                0 <= i < model.previews.len() - 1 ==> #[trigger] after.previews[i]
                    == model.previews[i]
            &&& outcome is Nothing ==> effects.len() == 0 && after.status == model.status
            &&& outcome matches PreviewOutcomeView::Say(text) ==> effects.len() == 0 && after.status
                == text
            &&& outcome matches PreviewOutcomeView::Open(thread) ==> after.asks_for(
                effects,
                EffectKindView::ThreadPreview { thread },
                ContextView::ThreadPreview { thread },
            ) && after.forward.len() == 0
            &&& outcome matches PreviewOutcomeView::Copy { payload, status } ==> after.asks_for(
                effects,
                EffectKindView::CopyToClipboard { content: within_bytes(payload, 100_000) },
                ContextView::Clipboard,
            ) && after.status == copy_notice(status, payload)
            &&& after.transcript == model.transcript
        }),
{
    let key = crate::ui::input::plain_key(code);
    let m = if code == KeyCode::Esc {
        model
    } else {
        ModelView { last_esc: None, ..model }
    };
    assert(model.keyed(key, now) == m.preview_keyed(key, now)) by {
        reveal(ModelView::pressed);
    }
    let top = model.previews.last();
    let (view, outcome) = if top.select_mode {
        top.select_keyed(model.config, key, now, full_width(m), model.viewport)
    } else {
        top.scroll_keyed(model.config, key, now, full_width(m), model.viewport)
    };
    assert(m.preview_keyed(key, now) == m.with_top(view).preview_served(outcome)) by {
        reveal(ModelView::preview_keyed);
    }
    reveal(ModelView::preview_served);
}

} // verus!
