//! One step of the interface: an event comes in, effects go out.
use vstd::prelude::*;
use crate::history_cell::pane_columns;
use crate::protocol::{
    opt_thread, AgentStatus, EventMsg, ServerRequest, SessionEvent, ThreadId, ThreadRef,
    ToolCallCompletedEvent,
};
use crate::subagent_preview::{PreviewView, SubagentPreviewView};
use crate::ui::input::pressed_keys_keep_overlays;
use crate::ui::preview::full_width;
use crate::ui::{
    effect_views, nothing, previews_ok, ContextView, EffectContext, EffectId, EffectKindView,
    EffectView,
    FocusTarget, ModelView, Screen, TerminalEvent, UiEffect, UiEffectKind, UiEffectResult, UiEvent,
    UiMode, UiModel,
};

verus! {

// ---------------------------------------------------------------------------
// Events of previewed threads
// ---------------------------------------------------------------------------

/// A view after the completion that its parent told.
pub open spec fn told_by_parent(view: PreviewView, child: Seq<char>, status: AgentStatus) -> PreviewView {
    if view.thread_id == child {
        view.ended_by_parent(status)
    } else {
        view
    }
}

/// The views after a completion that a parent told.
pub open spec fn all_told(views: Seq<PreviewView>, child: Seq<char>, status: AgentStatus) -> Seq<
    PreviewView,
> {
    views.map_values(|v: PreviewView| told_by_parent(v, child, status))
}

impl ModelView {
    /// A view after an event of a thread, with its window.
    pub open spec fn fed_view(self, view: PreviewView, source: Seq<char>, msg: EventMsg, height: u16) -> PreviewView {
        if view.thread_id == source {
            view.event(msg, full_width(self)).followed(self.config, full_width(self), height)
        } else {
            view
        }
    }

    pub open spec fn all_fed(self, source: Seq<char>, msg: EventMsg, height: u16) -> ModelView {
        ModelView {
            previews: self.previews.map_values(
                |v: PreviewView| self.fed_view(v, source, msg, height),
            ),
            ..self
        }
    }

    pub open spec fn previews_thread(self, thread: Seq<char>) -> bool {
        exists|i: int|
            0 <= i < self.previews.len() && (#[trigger] self.previews[i]).thread_id == thread
    }

    /// Whether an event of a thread is for the main transcript.
    pub open spec fn applies(self, source: Option<Seq<char>>) -> bool {
        match (self.thread, source) {
            (Some(current), Some(thread)) => current == thread,
            _ => true,
        }
    }

    /// What a parent tells of a previewed child is shown there first.
    pub open spec fn parent_told(self, msg: EventMsg) -> ModelView {
        match msg {
            EventMsg::CollabAgentCompleted(completed) => ModelView {
                previews: all_told(
                    self.previews,
                    completed.child_thread_id@,
                    completed.status,
                ),
                ..self
            },
            _ => self,
        }
    }

    /// An event of the main session.
    pub open spec fn session_event(self, msg: EventMsg, height: u16) -> ModelView {
        (ModelView { screen: Screen::Workspace, ..self }).event(msg).followed(height)
    }

    /// An event of a session goes to the previews of its thread where there are
    /// any, and to the main transcript else.
    #[verifier::opaque]
    pub open spec fn routed(self, source: Option<Seq<char>>, msg: EventMsg, height: u16) -> ModelView {
        let m = (ModelView { viewport: height, ..self }).parent_told(msg);
        match source {
            Some(thread) => if m.previews_thread(thread) {
                m.all_fed(thread, msg, height)
            } else if m.applies(source) {
                m.session_event(msg, height)
            } else {
                m
            },
            None => m.session_event(msg, height),
        }
    }
}

impl UiModel {
    pub fn should_apply_protocol_event(&self, source_thread_id: &Option<ThreadId>) -> (r: bool)
        ensures
            r == self@.applies(opt_thread(*source_thread_id)),
    {
        match (&self.current_thread_id, source_thread_id) {
            (Some(current), Some(source)) => current.same(source),
            _ => true,
        }
    }

    fn is_previewed(&self, thread_id: &ThreadId) -> (r: bool)
        ensures
            r == self@.previews_thread(thread_id@),
    {
        let mut i: usize = 0;
        while i < self.preview_stack.len()
            invariant
                i <= self.preview_stack@.len(),
                forall|j: int|
                    0 <= j < i ==> (#[trigger] self@.previews[j]).thread_id != thread_id@,
            decreases self.preview_stack@.len() - i,
        {
            assert(self@.previews[i as int] == self.preview_stack@[i as int]@);
            if self.preview_stack[i].thread_id.same(thread_id) {
                return true;
            }
            i += 1;
        }
        false
    }

    /// A parent's completion event names a previewed child by id, not by source
    /// thread: every matching view is patched (with a nested stack [A, B], B's
    /// completion arrives with source A).
    fn patch_previews(&mut self, msg: &EventMsg)
        requires
            old(self).wf(),
        ensures
            final(self).wf(),
            final(self)@ == old(self)@.parent_told(*msg),
    {
        match msg {
            EventMsg::CollabAgentCompleted(completed) => {
                let ghost before = self@;
                let ghost told = all_told(
                    before.previews,
                    completed.child_thread_id@,
                    completed.status,
                );
                let ghost config = self.context.config@;
                let mut i: usize = 0;
                assert(before.previews =~= told.take(0) + before.previews.skip(0));
                while i < self.preview_stack.len()
                    invariant
                        self.wf(),
                        config == self.context.config@,
                        told == all_told(
                            before.previews,
                            completed.child_thread_id@,
                            completed.status,
                        ),
                        i <= self.preview_stack@.len(),
                        self.preview_stack@.len() == before.previews.len(),
                        self@ == (ModelView {
                            previews: told.take(i as int) + before.previews.skip(i as int),
                            ..before
                        }),
                    decreases self.preview_stack@.len() - i,
                {
                    let ghost now = self@;
                    assert(now.previews[i as int] == self.preview_stack@[i as int]@);
                    assert(now.previews[i as int] == before.previews[i as int]);
                    if self.preview_stack[i].thread_id.same(&completed.child_thread_id) {
                        reveal(previews_ok);
                        let view: &mut SubagentPreviewView = &mut self.preview_stack[i];
                        view.complete_from_parent(completed.status.duplicate());
                        assert(self@.previews =~= now.previews.update(
                            i as int,
                            self.preview_stack@[i as int]@,
                        ));
                    }
                    assert(self@.previews =~= told.take(i + 1) + before.previews.skip(i + 1));
                    i += 1;
                }
                assert(self@.previews =~= told);
            },
            _ => {},
        }
    }

    /// Events from previewed threads feed their stack views and never touch the
    /// main transcript.
    fn feed_previews(&mut self, source: &ThreadId, msg: &EventMsg, viewport_height: u16)
        requires
            old(self).wf(),
        ensures
            final(self).wf(),
            final(self)@ == old(self)@.all_fed(source@, *msg, viewport_height),
    {
        let ghost before = self@;
        let ghost fed = before.all_fed(source@, *msg, viewport_height).previews;
        // Previews render full-screen, so wrap at terminal width.
        let width: u16 = pane_columns(self.terminal_width) as u16;
        let mut i: usize = 0;
        assert(before.previews =~= fed.take(0) + before.previews.skip(0));
        while i < self.preview_stack.len()
            invariant
                self.wf(),
                width == full_width(before),
                fed == before.all_fed(source@, *msg, viewport_height).previews,
                i <= self.preview_stack@.len(),
                self.preview_stack@.len() == before.previews.len(),
                self.context.config@ == before.config,
                self@ == (ModelView {
                    previews: fed.take(i as int) + before.previews.skip(i as int),
                    ..before
                }),
            decreases self.preview_stack@.len() - i,
        {
            let ghost now = self@;
            assert(now.previews[i as int] == self.preview_stack@[i as int]@);
            assert(now.previews[i as int] == before.previews[i as int]);
            if self.preview_stack[i].thread_id.same(source) {
                reveal(previews_ok);
                let view: &mut SubagentPreviewView = &mut self.preview_stack[i];
                view.apply_event(msg, width);
                view.follow(&self.context, width, viewport_height);
                assert(self@.previews =~= now.previews.update(
                    i as int,
                    self.preview_stack@[i as int]@,
                ));
            }
            assert(self@.previews =~= fed.take(i + 1) + before.previews.skip(i + 1));
            i += 1;
        }
        assert(self@.previews =~= fed);
    }

    fn apply_session_event(&mut self, event: &SessionEvent, viewport_height: u16)
        requires
            old(self).wf(),
        ensures
            final(self).wf(),
            final(self)@ == old(self)@.session_event(event.msg, viewport_height),
    {
        self.screen = Screen::Workspace;
        self.apply_protocol_event(event);
        self.follow(viewport_height);
    }

    fn route_event(
        &mut self,
        source_thread_id: &Option<ThreadId>,
        event: &SessionEvent,
        viewport_height: u16,
    )
        requires
            old(self).wf(),
        ensures
            final(self).wf(),
            final(self)@ == old(self)@.routed(
                opt_thread(*source_thread_id),
                event.msg,
                viewport_height,
            ),
    {
        reveal(ModelView::routed);
        self.viewport_height = viewport_height;
        self.patch_previews(&event.msg);
        match source_thread_id {
            Some(source) => {
                if self.is_previewed(source) {
                    self.feed_previews(source, &event.msg, viewport_height);
                } else if self.should_apply_protocol_event(source_thread_id) {
                    self.apply_session_event(event, viewport_height);
                }
            },
            None => self.apply_session_event(event, viewport_height),
        }
    }
}

// ---------------------------------------------------------------------------
// Steps
// ---------------------------------------------------------------------------

impl ModelView {
    pub open spec fn sized(self, height: u16) -> ModelView {
        ModelView { viewport: height, ..self }
    }

    /// The interface starts with the list of sessions.
    pub open spec fn started(self, height: u16) -> (ModelView, Seq<EffectView>) {
        let m = self.sized(height);
        (ModelView {
            dashboard: crate::ui::DashboardView { loading: true, ..m.dashboard },
            ..m
        }).with_effect(
            ContextView::ThreadList,
            EffectKindView::ThreadList { cursor: None, limit: Some(50u32) },
        )
    }

    /// One step of the interface.
    pub open spec fn step(self, event: UiEvent) -> (ModelView, Seq<EffectView>) {
        match event {
            UiEvent::Startup { viewport_height } => self.started(viewport_height),
            UiEvent::Terminal { event, viewport_height, now } => self.sized(
                viewport_height,
            ).terminal_event(event, now),
            UiEvent::Protocol { source_thread_id, event, viewport_height } => self.routed(
                opt_thread(source_thread_id),
                event.msg,
                viewport_height,
            ).quietly(),
            UiEvent::ServerRequest(request) => self.requested(request),
            UiEvent::EffectCompleted { effect_id, result, viewport_height } => {
                let m = self.sized(viewport_height);
                let (done, effects) = m.forgetting(effect_id.0).effect_done(
                    m.kept(effect_id.0),
                    result,
                );
                (done.followed(viewport_height), effects)
            },
            UiEvent::EffectFailed { effect_id, error, viewport_height } => {
                let (failed, effects) = self.sized(viewport_height).effect_failed(
                    effect_id.0,
                    error@,
                );
                (failed.followed(viewport_height), effects)
            },
        }
    }
}

impl UiModel {
    fn start(&mut self, viewport_height: u16) -> (r: Vec<UiEffect>)
        requires
            old(self).wf(),
        ensures
            final(self).wf(),
            (final(self)@, effect_views(r@)) == old(self)@.started(viewport_height),
    {
        self.viewport_height = viewport_height;
        self.dashboard.loading = true;
        self.ask(
            EffectContext::ThreadList,
            UiEffectKind::ThreadList { cursor: None, limit: Some(50) },
        )
    }

    /// One step of the interface.
    pub fn update(&mut self, event: UiEvent) -> (r: Vec<UiEffect>)
        requires
            old(self).wf(),
        ensures
            final(self).wf(),
            (final(self)@, effect_views(r@)) == old(self)@.step(event),
    {
        match event {
            UiEvent::Startup { viewport_height } => self.start(viewport_height),
            UiEvent::Terminal { event, viewport_height, now } => {
                self.viewport_height = viewport_height;
                self.handle_terminal_event(event, now)
            },
            UiEvent::Protocol { source_thread_id, event, viewport_height } => {
                self.route_event(&source_thread_id, &event, viewport_height);
                nothing()
            },
            UiEvent::ServerRequest(request) => self.handle_server_request(request),
            UiEvent::EffectCompleted { effect_id, result, viewport_height } => {
                self.viewport_height = viewport_height;
                let context: Option<EffectContext> = self.take_context(effect_id);
                let effects: Vec<UiEffect> = self.apply_effect_result(context, result);
                self.follow(viewport_height);
                effects
            },
            UiEvent::EffectFailed { effect_id, error, viewport_height } => {
                self.viewport_height = viewport_height;
                let effects: Vec<UiEffect> = self.apply_effect_failure(effect_id, error);
                self.follow(viewport_height);
                effects
            },
        }
    }
}

// ---------------------------------------------------------------------------
// Laws
// ---------------------------------------------------------------------------

/// Events of a previewed thread never touch the main transcript, and reach
/// every view of that thread.
pub proof fn previewed_events_stay_in_previews(
    model: ModelView,
    source: Seq<char>,
    msg: EventMsg,
    height: u16,
)
    requires
        model.previews_thread(source),
        !(msg is CollabAgentCompleted),
    ensures
        ({
            let after = model.routed(Some(source), msg, height);
            &&& after.transcript == model.transcript
            &&& after.screen == model.screen
            &&& after.previews.len() == model.previews.len()
            &&& forall|i: int|
                0 <= i < model.previews.len() && (#[trigger] model.previews[i]).thread_id == source
                    ==> after.previews[i] == model.previews[i].event(
                    msg,
                    full_width(model),
                ).followed(model.config, full_width(model), height)
            &&& forall|i: int|
                0 <= i < model.previews.len() && (#[trigger] model.previews[i]).thread_id != source
                    ==> after.previews[i] == model.previews[i]
        }),
{
    reveal(ModelView::routed);
    let m = ModelView { viewport: height, ..model };
    assert(m.previews_thread(source)) by {
        let i = choose|i: int|
            0 <= i < model.previews.len() && (#[trigger] model.previews[i]).thread_id == source;
        assert(m.previews[i].thread_id == source);
    }
}

/// Events of another thread change nothing but the height of the window.
pub proof fn foreign_events_are_dropped(
    model: ModelView,
    source: Seq<char>,
    msg: EventMsg,
    height: u16,
)
    requires
        model.thread is Some,
        model.thread != Some(source),
        !model.previews_thread(source),
        !(msg is CollabAgentCompleted),
    ensures
        model.routed(Some(source), msg, height) == model.sized(height),
{
    reveal(ModelView::routed);
    let m = ModelView { viewport: height, ..model };
    if m.previews_thread(source) {
        let i = choose|i: int|
            0 <= i < m.previews.len() && (#[trigger] m.previews[i]).thread_id == source;
        assert(model.previews[i].thread_id == source);
    }
}

/// Whether both models show the same on top of the same screen.
spec fn same_overlay(a: ModelView, b: ModelView) -> bool {
    &&& a.mode == b.mode
    &&& a.screen == b.screen
    &&& a.picker == b.picker
    &&& a.approval == b.approval
}

proof fn lemma_turn_overlay(m: ModelView, turn_id: Seq<char>, message: Option<String>)
    ensures
        same_overlay(m.turn_started(turn_id), m),
        same_overlay(m.turn_completed(turn_id, message), m),
{
    reveal(ModelView::turn_started);
    reveal(ModelView::turn_completed);
}

proof fn lemma_interrupted_overlay(m: ModelView, turn_id: Seq<char>, reason: Seq<char>)
    ensures
        m.turn_interrupted(turn_id, reason).mode != UiMode::Overlay,
{
    reveal(ModelView::turn_interrupted);
}

proof fn lemma_told_overlay(m: ModelView, thread_id: ThreadRef)
    requires
        m.overlay_keys_ok(),
    ensures
        m.configured(thread_id).overlay_keys_ok(),
{
    reveal(ModelView::configured);
}

proof fn lemma_call_overlay(m: ModelView, tool: ToolCallCompletedEvent)
    ensures
        same_overlay(m.call_completed(tool), m),
{
    reveal(ModelView::call_completed);
}

proof fn lemma_text_overlay(m: ModelView, item_id: Seq<char>, text: Seq<char>)
    ensures
        same_overlay(m.answer_completed(item_id, text), m),
        same_overlay(m.reasoning_completed(item_id, text), m),
{
    reveal(ModelView::answer_completed);
    reveal(ModelView::reasoning_completed);
}

proof fn lemma_event_overlay(m: ModelView, msg: EventMsg)
    requires
        m.overlay_keys_ok(),
    ensures
        m.event(msg).overlay_keys_ok(),
{
    reveal(ModelView::event);
    match msg {
        EventMsg::SessionConfigured { thread_id } => {
            lemma_told_overlay(m, thread_id);
        },
        EventMsg::PlanModeChanged { enabled } => {
            reveal(ModelView::plan_mode_told);
        },
        EventMsg::TurnStarted { turn_id } => {
            lemma_turn_overlay(m, turn_id@, None);
        },
        EventMsg::TurnCompleted { turn_id, last_assistant_message } => {
            lemma_turn_overlay(m, turn_id@, last_assistant_message);
        },
        EventMsg::TurnInterrupted { turn_id, reason } => {
            lemma_interrupted_overlay(m, turn_id@, reason@);
        },
        EventMsg::AgentMessageCompleted { item_id, text } => {
            lemma_text_overlay(m, item_id@, text@);
        },
        EventMsg::AgentReasoningCompleted { item_id, text } => {
            lemma_text_overlay(m, item_id@, text@);
        },
        EventMsg::ToolCallCompleted(tool) => {
            lemma_call_overlay(m, tool);
        },
        EventMsg::CollabAgentCompleted(event) => {
            reveal(ModelView::subagent_completed);
        },
        _ => {},
    }
}

proof fn lemma_events_overlay(m: ModelView, msgs: Seq<EventMsg>, n: nat)
    requires
        m.overlay_keys_ok(),
    ensures
        m.events(msgs, n).overlay_keys_ok(),
    decreases n,
{
    if n > 0 {
        lemma_events_overlay(m, msgs, (n - 1) as nat);
        lemma_event_overlay(m.events(msgs, (n - 1) as nat), msgs[n - 1]);
    }
}

proof fn lemma_releasing_overlay(m: ModelView, views: Seq<PreviewView>, n: nat)
    ensures
        m.releasing(views, n).0.mode == m.mode,
        m.releasing(views, n).0.screen == m.screen,
        m.releasing(views, n).0.picker == m.picker,
        m.releasing(views, n).0.approval == m.approval,
    decreases n,
{
    if n > 0 {
        lemma_releasing_overlay(m, views, (n - 1) as nat);
    }
}

proof fn lemma_request_overlay(m: ModelView, request: ServerRequest)
    requires
        m.overlay_keys_ok(),
    ensures
        m.requested(request).0.overlay_keys_ok(),
{
    reveal(ModelView::requested);
    reveal(ModelView::request_rejected);
    reveal(ModelView::making_room);
}

proof fn lemma_done_overlay(m: ModelView, context: Option<ContextView>, result: UiEffectResult)
    requires
        m.overlay_keys_ok(),
    ensures
        m.effect_done(context, result).0.overlay_keys_ok(),
{
    let bare = ModelView { previews: Seq::empty(), forward: Seq::empty(), ..m };
    lemma_releasing_overlay(bare, m.previews, m.previews.len());
    reveal(ModelView::previews_closed);
    reveal(ModelView::preview_arrived);
    reveal(ModelView::preview_opened);
    match result {
        UiEffectResult::ThreadResume(response) => {
            match response.thread_id.parsed {
                Ok(id) => {
                    let closed = m.previews_closed().0;
                    let fresh = (ModelView {
                        thread: Some(id@),
                        screen: Screen::Workspace,
                        mode: UiMode::Normal,
                        focus: FocusTarget::Transcript,
                        status: "Resumed thread "@ + response.thread_id.text@,
                        ..closed
                    }).turn_forgotten().transcript_cleared();
                    lemma_events_overlay(
                        fresh,
                        response.initial_messages@,
                        response.initial_messages@.len(),
                    );
                },
                Err(reason) => {},
            }
        },
        _ => {},
    }
}

/// Whatever happens, the keys belong to an overlay only while a question or a
/// plan is on top of the workspace: a plan that was deferred takes no keys.
pub proof fn overlays_own_the_keys_only_while_shown(model: ModelView, event: UiEvent)
    requires
        model.overlay_keys_ok(),
    ensures
        model.step(event).0.overlay_keys_ok(),
{
    match event {
        UiEvent::Startup { viewport_height } => {},
        UiEvent::Terminal { event, viewport_height, now } => {
            let m = model.sized(viewport_height);
            match event {
                TerminalEvent::Key(key) => {
                    pressed_keys_keep_overlays(m, key, now);
                },
                TerminalEvent::Paste(text) => {
                    reveal(ModelView::pasted);
                    reveal(ModelView::popup_synced);
                    reveal(crate::plan_approval::OverlayView::pasted);
                },
                _ => {},
            }
        },
        UiEvent::Protocol { source_thread_id, event, viewport_height } => {
            reveal(ModelView::routed);
            let m = model.sized(viewport_height).parent_told(event.msg);
            lemma_event_overlay(ModelView { screen: Screen::Workspace, ..m }, event.msg);
        },
        UiEvent::ServerRequest(request) => {
            lemma_request_overlay(model, request);
        },
        UiEvent::EffectCompleted { effect_id, result, viewport_height } => {
            let m = model.sized(viewport_height);
            lemma_done_overlay(m.forgetting(effect_id.0), m.kept(effect_id.0), result);
        },
        UiEvent::EffectFailed { effect_id, error, viewport_height } => {},
    }
}

/// When the interface starts, the first fifty sessions are asked for and the
/// dashboard says that it waits.
pub proof fn startup_lists_sessions(model: ModelView, height: u16)
    ensures
        ({
            let (after, effects) = model.step(UiEvent::Startup { viewport_height: height });
            &&& after.asks_for(
                effects,
                EffectKindView::ThreadList { cursor: None, limit: Some(50u32) },
                ContextView::ThreadList,
            )
            &&& after.dashboard.loading
            &&& after.viewport == height
            &&& after.screen == model.screen
        }),
{
}

/// What the terminal reports is taken at the height that comes with it.
pub proof fn terminal_steps_take_the_height(model: ModelView, event: TerminalEvent, height: u16, now: u64)
    ensures
        model.step(UiEvent::Terminal { event, viewport_height: height, now }) == (ModelView {
            viewport: height,
            ..model
        }).terminal_event(event, now),
{
}

/// An event of the thread that is shown is applied, the workspace comes up, and
/// a window that follows the stream stays at its end.
pub proof fn own_events_are_applied(
    model: ModelView,
    source: Option<Seq<char>>,
    msg: EventMsg,
    height: u16,
)
    requires
        source is None || model.thread is None || model.thread == source,
        model.previews.len() == 0,
    ensures
        ({
            let after = model.routed(source, msg, height);
            let applied = (ModelView { viewport: height, screen: Screen::Workspace, ..model }).event(
                msg,
            );
            &&& !applied.auto_scroll ==> after == applied
            &&& applied.auto_scroll ==> after == (ModelView {
                scroll: applied.farthest(height),
                ..applied
            })
        }),
{
    reveal(ModelView::routed);
    let m = ModelView { viewport: height, ..model };
    if msg is CollabAgentCompleted {
        assert(m.parent_told(msg).previews =~= m.previews);
    }
    assert(m.parent_told(msg) == m);
}

/// When the parent tells that a subagent is done, every preview of it shows the
/// status and is live no more; other previews stay.
pub proof fn parents_end_previews(
    model: ModelView,
    event: crate::protocol::CollabAgentCompletedEvent,
    i: int,
)
    requires
        0 <= i < model.previews.len(),
    ensures
        ({
            let after = model.parent_told(EventMsg::CollabAgentCompleted(event));
            let view = model.previews[i];
            &&& after.previews.len() == model.previews.len()
            &&& view.thread_id == event.child_thread_id@ ==> after.previews[i] == (PreviewView {
                status: event.status,
                is_live: false,
                ..view
            })
            &&& view.thread_id != event.child_thread_id@ ==> after.previews[i] == view
            &&& after.transcript == model.transcript
        }),
{
}

/// The outcome of an effect reaches what was kept for it, which is then
/// forgotten.
pub proof fn outcomes_reach_their_effect(
    model: ModelView,
    id: EffectId,
    result: UiEffectResult,
    error: String,
    height: u16,
)
    ensures
        ({
            let sized = ModelView { viewport: height, ..model };
            let forgot = ModelView { contexts: model.contexts.remove(id.0), ..sized };
            let context = if model.contexts.dom().contains(id.0) {
                Some(model.contexts[id.0])
            } else {
                None
            };
            let (done, done_effects) = model.step(
                UiEvent::EffectCompleted { effect_id: id, result, viewport_height: height },
            );
            let (failed, failed_effects) = model.step(
                UiEvent::EffectFailed { effect_id: id, error, viewport_height: height },
            );
            let (a, a_effects) = forgot.effect_done(context, result);
            let (b, b_effects) = sized.effect_failed(id.0, error@);
            &&& done_effects == a_effects
            &&& !a.auto_scroll ==> done == a
            &&& a.auto_scroll ==> done == (ModelView { scroll: a.farthest(height), ..a })
            &&& failed_effects == b_effects
            &&& !b.auto_scroll ==> failed == b
            &&& b.auto_scroll ==> failed == (ModelView { scroll: b.farthest(height), ..b })
        }),
{
}

} // verus!
