//! What comes of the effects that the interface asked for.
use vstd::prelude::*;
use crate::history_cell::error_kind;
use crate::protocol::{
    is_text, opt_text, EventMsg, SetPlanModeResponse, ThreadId, ThreadListResponse, ThreadRef,
    ThreadResumeResponse, ThreadStartResponse, TurnCancelResponse, TurnStartResponse,
};
use crate::text::{decimal, numeral, owned};
use crate::transcript::TranscriptView;
use crate::ui::protocol::prefixed;
use crate::ui::{
    effect_views, nothing, opt_context, ContextView, DashboardView, EffectContext, EffectId,
    EffectKindView, EffectView, FocusTarget, ModelView, Screen, UiEffect, UiEffectKind, UiEffectResult, UiMode,
    UiModel,
};

verus! {

// ---------------------------------------------------------------------------
// Success
// ---------------------------------------------------------------------------

impl ModelView {
    /// A new thread starts with an empty transcript and the composer open.
    pub open spec fn thread_started(self, thread_id: ThreadRef) -> ModelView {
        match thread_id.parsed {
            Ok(id) => (ModelView {
                thread: Some(id@),
                screen: Screen::Workspace,
                mode: UiMode::Insert,
                focus: FocusTarget::Composer,
                status: "Thread "@ + thread_id.text@,
                ..self
            }).turn_forgotten().transcript_cleared(),
            Err(reason) => self.with_error("Invalid started thread id: "@ + reason@),
        }
    }

    /// A thread comes back with its history replayed.
    pub open spec fn thread_resumed(self, response: ThreadResumeResponse) -> ModelView {
        match response.thread_id.parsed {
            Ok(id) => (ModelView {
                thread: Some(id@),
                screen: Screen::Workspace,
                mode: UiMode::Normal,
                focus: FocusTarget::Transcript,
                status: "Resumed thread "@ + response.thread_id.text@,
                ..self
            }).turn_forgotten().transcript_cleared().events(
                response.initial_messages@,
                response.initial_messages@.len(),
            ),
            Err(reason) => self.with_error("Invalid resumed thread id: "@ + reason@),
        }
    }

    pub open spec fn threads_listed(self, response: ThreadListResponse) -> ModelView {
        ModelView {
            dashboard: (DashboardView {
                loading: false,
                error: None,
                next_cursor: opt_text(response.next_cursor),
                items: response.data@,
                ..self.dashboard
            }).with_selection_shown(self.viewport),
            status: if response.data@.len() == 0 {
                "No saved threads"@
            } else {
                numeral(response.data@.len()) + " saved threads"@
            },
            ..self
        }
    }

    pub open spec fn turn_confirmed(self, turn_id: Seq<char>) -> ModelView {
        if self.turn == Some(turn_id) {
            self
        } else {
            ModelView {
                turn: Some(turn_id),
                running: true,
                cancelling: false,
                status: "Running turn "@ + turn_id,
                ..self
            }
        }
    }

    pub open spec fn cancel_confirmed(self, threads: nat) -> ModelView {
        ModelView {
            cancelling: false,
            status: if threads == 1 {
                "Cancel requested for 1 thread"@
            } else {
                "Cancel requested for "@ + numeral(threads) + " threads"@
            },
            ..self
        }
    }

    /// The model once an effect succeeded.
    pub open spec fn effect_done(self, context: Option<ContextView>, result: UiEffectResult) -> (
        ModelView,
        Seq<EffectView>,
    ) {
        match result {
            UiEffectResult::ThreadStart(response) => {
                let (m, effects) = self.previews_closed();
                (m.thread_started(response.thread_id), effects)
            },
            UiEffectResult::ThreadList(response) => self.threads_listed(response).quietly(),
            UiEffectResult::ThreadResume(response) => {
                let (m, effects) = self.previews_closed();
                (m.thread_resumed(response), effects)
            },
            UiEffectResult::ThreadPreview(response) => self.preview_arrived(context, response),
            UiEffectResult::ThreadUnwatched => self.quietly(),
            UiEffectResult::TurnStart(response) => self.turn_confirmed(
                response.turn_id@,
            ).quietly(),
            UiEffectResult::TurnCancel(response) => self.cancel_confirmed(
                response.cancelled_threads as nat,
            ).quietly(),
            UiEffectResult::SetPlanMode(response) => (ModelView {
                plan_mode: response.enabled,
                ..self
            }).quietly(),
            UiEffectResult::ServerRequestAnswered => self.quietly(),
            UiEffectResult::ClipboardWritten => self.quietly(),
        }
    }
}

impl UiModel {
    pub fn apply_thread_start_response(&mut self, response: &ThreadStartResponse)
        requires
            old(self).wf(),
        ensures
            final(self).wf(),
            final(self)@ == old(self)@.thread_started(response.thread_id),
    {
        match &response.thread_id.parsed {
            Ok(thread_id) => {
                self.current_thread_id = Some(thread_id.duplicate());
                self.screen = Screen::Workspace;
                self.mode = UiMode::Insert;
                self.focus = FocusTarget::Composer;
                self.status_line = prefixed("Thread ", response.thread_id.text.as_str());
                self.reset_turn_tracking();
                self.clear_transcript();
            },
            Err(reason) => {
                let message: String = prefixed("Invalid started thread id: ", reason.as_str());
                self.push_error(message.as_str());
            },
        }
    }

    pub fn apply_thread_resume_response(&mut self, response: &ThreadResumeResponse)
        requires
            old(self).wf(),
        ensures
            final(self).wf(),
            final(self)@ == old(self)@.thread_resumed(*response),
    {
        match &response.thread_id.parsed {
            Ok(thread_id) => {
                self.current_thread_id = Some(thread_id.duplicate());
                self.screen = Screen::Workspace;
                self.mode = UiMode::Normal;
                self.focus = FocusTarget::Transcript;
                self.status_line = prefixed("Resumed thread ", response.thread_id.text.as_str());
                self.reset_turn_tracking();
                self.clear_transcript();
                let ghost start = self@;
                let mut i: usize = 0;
                while i < response.initial_messages.len()
                    invariant
                        self.wf(),
                        i <= response.initial_messages@.len(),
                        self@ == start.events(response.initial_messages@, i as nat),
                    decreases response.initial_messages@.len() - i,
                {
                    self.apply_event_msg(&response.initial_messages[i]);
                    i += 1;
                }
            },
            Err(reason) => {
                let message: String = prefixed("Invalid resumed thread id: ", reason.as_str());
                self.push_error(message.as_str());
            },
        }
    }

    fn apply_thread_list(&mut self, response: ThreadListResponse)
        requires
            old(self).wf(),
        ensures
            final(self).wf(),
            final(self)@ == old(self)@.threads_listed(response),
    {
        let total: usize = response.data.len();
        self.dashboard.loading = false;
        self.dashboard.error = None;
        self.dashboard.next_cursor = response.next_cursor;
        self.dashboard.items = response.data;
        self.dashboard_ensure_selected_visible(self.viewport_height);
        self.status_line = if total == 0 {
            owned("No saved threads")
        } else {
            let mut text: String = decimal(total as u128);
            text.push_str(" saved threads");
            text
        };
    }

    fn apply_turn_start(&mut self, response: TurnStartResponse)
        requires
            old(self).wf(),
        ensures
            final(self).wf(),
            final(self)@ == old(self)@.turn_confirmed(response.turn_id@),
    {
        if !is_text(&self.current_turn_id, response.turn_id.as_str()) {
            self.is_turn_running = true;
            self.is_turn_cancelling = false;
            self.status_line = prefixed("Running turn ", response.turn_id.as_str());
            self.current_turn_id = Some(response.turn_id);
        }
    }

    fn apply_turn_cancel(&mut self, cancelled: usize)
        requires
            old(self).wf(),
        ensures
            final(self).wf(),
            final(self)@ == old(self)@.cancel_confirmed(cancelled as nat),
    {
        self.is_turn_cancelling = false;
        self.status_line = if cancelled == 1 {
            owned("Cancel requested for 1 thread")
        } else {
            let mut text: String = owned("Cancel requested for ");
            let count: String = decimal(cancelled as u128);
            text.push_str(count.as_str());
            text.push_str(" threads");
            text
        };
    }

    /// Applies the outcome of an effect that succeeded.
    pub fn apply_effect_result(&mut self, context: Option<EffectContext>, result: UiEffectResult) -> (r:
        Vec<UiEffect>)
        requires
            old(self).wf(),
        ensures
            final(self).wf(),
            (final(self)@, effect_views(r@)) == old(self)@.effect_done(
                opt_context(context),
                result,
            ),
    {
        match result {
            UiEffectResult::ThreadStart(response) => {
                let effects: Vec<UiEffect> = self.clear_preview_stack();
                self.apply_thread_start_response(&response);
                effects
            },
            UiEffectResult::ThreadList(response) => {
                self.apply_thread_list(response);
                nothing()
            },
            UiEffectResult::ThreadResume(response) => {
                let effects: Vec<UiEffect> = self.clear_preview_stack();
                self.apply_thread_resume_response(&response);
                effects
            },
            UiEffectResult::TurnStart(response) => {
                self.apply_turn_start(response);
                nothing()
            },
            UiEffectResult::TurnCancel(response) => {
                self.apply_turn_cancel(response.cancelled_threads);
                nothing()
            },
            UiEffectResult::SetPlanMode(response) => {
                self.plan_mode = response.enabled;
                nothing()
            },
            UiEffectResult::ThreadPreview(response) => self.apply_thread_preview(
                context,
                &response,
            ),
            UiEffectResult::ServerRequestAnswered => nothing(),
            UiEffectResult::ClipboardWritten => nothing(),
            UiEffectResult::ThreadUnwatched => nothing(),
        }
    }
}

// ---------------------------------------------------------------------------
// Failure
// ---------------------------------------------------------------------------

impl ModelView {
    pub open spec fn dashboard_failed(self, error: Seq<char>) -> ModelView {
        ModelView {
            dashboard: DashboardView { loading: false, error: Some(error), ..self.dashboard },
            ..self
        }
    }

    /// A turn that did not start gives its draft back, unless another one was
    /// begun.
    pub open spec fn turn_refused(self, thread: Seq<char>, input: Seq<char>, error: Seq<char>) -> ModelView {
        let ended = ModelView { running: false, cancelling: false, ..self };
        let m = if self.composer.text.len() == 0 {
            ModelView {
                mode: UiMode::Insert,
                focus: FocusTarget::Composer,
                ..ended.with_draft(input)
            }
        } else {
            ended
        };
        m.with_error("could not start turn on "@ + thread + ": "@ + error)
    }

    pub open spec fn cancel_refused(self, thread: Seq<char>, error: Seq<char>) -> ModelView {
        (ModelView {
            cancelling: false,
            status: match self.turn {
                Some(turn) => "Running turn "@ + turn,
                None => "Running turn"@,
            },
            ..self
        }).with_error("could not cancel turn on "@ + thread + ": "@ + error)
    }

    pub open spec fn plan_mode_refused(self, previous: bool, desired: bool, error: Seq<char>) -> ModelView {
        (ModelView { plan_mode: previous, ..self }).with_error(
            "could not "@ + if desired {
                "enable"@
            } else {
                "disable"@
            } + " plan mode: "@ + error,
        )
    }

    /// The model once an effect failed.
    pub open spec fn effect_failed(self, id: u64, error: Seq<char>) -> (
        ModelView,
        Seq<EffectView>,
    ) {
        let m = self.forgetting(id);
        match self.kept(id) {
            Some(ContextView::SetPlanMode { previous, desired }) => m.plan_mode_refused(
                previous,
                desired,
                error,
            ).quietly(),
            Some(ContextView::ThreadList) => m.dashboard_failed(error).saying(
                "Could not list threads"@,
            ).quietly(),
            Some(ContextView::TurnStart { thread, input }) => m.turn_refused(
                thread,
                input,
                error,
            ).quietly(),
            Some(ContextView::TurnCancel { thread }) => m.cancel_refused(thread, error).quietly(),
            Some(ContextView::ThreadStart) => {
                let message = "could not start thread: "@ + error;
                m.dashboard_failed(message).saying("Could not start thread"@).with_error(
                    message,
                ).quietly()
            },
            Some(ContextView::ThreadResume { thread }) => {
                let message = "could not resume thread "@ + thread + ": "@ + error;
                m.dashboard_failed(message).saying("Could not resume thread"@).with_error(
                    message,
                ).quietly()
            },
            Some(ContextView::ServerRequest) => m.with_error(
                "could not answer server request: "@ + error,
            ).quietly(),
            Some(ContextView::ThreadPreview { thread }) => m.saying(
                "Could not open subagent "@ + thread,
            ).with_error("could not open subagent "@ + thread + ": "@ + error).unwatching(thread),
            Some(ContextView::Clipboard) => m.saying("Copy failed"@).with_error(
                "could not copy to clipboard: "@ + error,
            ).quietly(),
            Some(ContextView::ThreadUnwatch) => m.quietly(),
            Some(ContextView::OpenEditor) => m.quietly(),
            Some(ContextView::Exit) => m.quietly(),
            None => m.quietly(),
        }
    }
}

/// A prefix, a name, and an error behind a colon.
fn failure(prefix: &str, name: &str, error: &str) -> (r: String)
    ensures
        r@ == prefix@ + name@ + ": "@ + error@,
{
    let mut out: String = owned(prefix);
    out.push_str(name);
    out.push_str(": ");
    out.push_str(error);
    out
}

impl UiModel {
    fn fail_dashboard(&mut self, error: &str)
        requires
            old(self).wf(),
        ensures
            final(self).wf(),
            final(self)@ == old(self)@.dashboard_failed(error@),
    {
        self.dashboard.loading = false;
        self.dashboard.error = Some(owned(error));
    }

    fn fail_turn_start(&mut self, thread: &str, input: String, error: &str)
        requires
            old(self).wf(),
        ensures
            final(self).wf(),
            final(self)@ == old(self)@.turn_refused(thread@, input@, error@),
    {
        self.is_turn_running = false;
        self.is_turn_cancelling = false;
        if self.composer.is_empty() {
            self.composer.set_text(input);
            self.mode = UiMode::Insert;
            self.focus = FocusTarget::Composer;
        }
        let message: String = failure("could not start turn on ", thread, error);
        self.push_error(message.as_str());
    }

    fn fail_turn_cancel(&mut self, thread: &str, error: &str)
        requires
            old(self).wf(),
        ensures
            final(self).wf(),
            final(self)@ == old(self)@.cancel_refused(thread@, error@),
    {
        self.is_turn_cancelling = false;
        self.status_line = match &self.current_turn_id {
            Some(turn_id) => prefixed("Running turn ", turn_id.as_str()),
            None => owned("Running turn"),
        };
        let message: String = failure("could not cancel turn on ", thread, error);
        self.push_error(message.as_str());
    }

    fn fail_plan_mode(&mut self, previous: bool, desired: bool, error: &str)
        requires
            old(self).wf(),
        ensures
            final(self).wf(),
            final(self)@ == old(self)@.plan_mode_refused(previous, desired, error@),
    {
        self.plan_mode = previous;
        let mut message: String = owned("could not ");
        if desired {
            message.push_str("enable");
        } else {
            message.push_str("disable");
        }
        message.push_str(" plan mode: ");
        message.push_str(error);
        self.push_error(message.as_str());
    }

    /// Applies the outcome of an effect that failed.
    pub fn apply_effect_failure(&mut self, effect_id: EffectId, error: String) -> (r: Vec<UiEffect>)
        requires
            old(self).wf(),
        ensures
            final(self).wf(),
            (final(self)@, effect_views(r@)) == old(self)@.effect_failed(effect_id.0, error@),
    {
        let context: Option<EffectContext> = self.take_context(effect_id);
        match context {
            Some(EffectContext::SetPlanMode { previous, desired }) => {
                self.fail_plan_mode(previous, desired, error.as_str());
            },
            Some(EffectContext::ThreadList) => {
                self.fail_dashboard(error.as_str());
                self.set_status("Could not list threads");
            },
            Some(EffectContext::TurnStart { thread_id, input }) => {
                self.fail_turn_start(thread_id.text.as_str(), input, error.as_str());
            },
            Some(EffectContext::TurnCancel { thread_id }) => {
                self.fail_turn_cancel(thread_id.text.as_str(), error.as_str());
            },
            Some(EffectContext::ThreadStart) => {
                let message: String = prefixed("could not start thread: ", error.as_str());
                self.fail_dashboard(message.as_str());
                self.set_status("Could not start thread");
                self.push_error(message.as_str());
            },
            Some(EffectContext::ThreadResume { thread_id }) => {
                let message: String = failure(
                    "could not resume thread ",
                    thread_id.text.as_str(),
                    error.as_str(),
                );
                self.fail_dashboard(message.as_str());
                self.set_status("Could not resume thread");
                self.push_error(message.as_str());
            },
            Some(EffectContext::ServerRequest) => {
                let message: String = prefixed(
                    "could not answer server request: ",
                    error.as_str(),
                );
                self.push_error(message.as_str());
            },
            Some(EffectContext::ThreadPreview { thread_id }) => {
                self.status_line = prefixed(
                    "Could not open subagent ",
                    thread_id.text.as_str(),
                );
                let message: String = failure(
                    "could not open subagent ",
                    thread_id.text.as_str(),
                    error.as_str(),
                );
                self.push_error(message.as_str());
                // The server may have taken a preview watcher before the
                // failure surfaced client-side; no view was pushed, so no pop
                // will release it. Unwatching with no watcher is a no-op.
                return self.ask(
                    EffectContext::ThreadUnwatch,
                    UiEffectKind::ThreadUnwatch { thread_id },
                );
            },
            // Releasing a watcher is best-effort; a stale server-side
            // subscription only forwards events the interface will drop.
            Some(EffectContext::ThreadUnwatch) => {},
            Some(EffectContext::Clipboard) => {
                self.set_status("Copy failed");
                let message: String = prefixed("could not copy to clipboard: ", error.as_str());
                self.push_error(message.as_str());
            },
            Some(EffectContext::OpenEditor) => {},
            Some(EffectContext::Exit) => {},
            None => {},
        }
        nothing()
    }
}

// ---------------------------------------------------------------------------
// Laws
// ---------------------------------------------------------------------------

/// Effects are numbered apart: as long as the counter has not run out, an
/// effect gets a number above all before it, and what is kept under it is its
/// own context.
pub proof fn effect_numbers_are_fresh(model: ModelView, context: ContextView)
    requires
        model.counter < u64::MAX,
        forall|id: u64| model.contexts.dom().contains(id) ==> id <= model.counter,
    ensures
        ({
            let after = model.asking(context);
            &&& !model.contexts.dom().contains(after.counter)
            &&& after.kept(after.counter) == Some(context)
            &&& forall|id: u64| after.contexts.dom().contains(id) ==> id <= after.counter
            &&& forall|id: u64| id <= model.counter ==> after.kept(id) == model.kept(id)
        }),
{
}

/// Plan mode that the server refuses goes back to what it was.
pub proof fn refused_plan_mode_reverts(model: ModelView, error: Seq<char>)
    requires
        model.thread is Some,
    ensures
        ({
            let (asked, effects) = model.plan_toggled();
            let after = asked.effect_failed(effects[0].id, error).0;
            &&& asked.plan_mode == !model.plan_mode
            &&& after.plan_mode == model.plan_mode
        }),
{
    reveal(ModelView::plan_toggled);
}

/// A turn that could not start gives the draft back when the composer is empty,
/// and leaves a newer draft alone.
pub proof fn refused_turn_gives_draft_back(model: ModelView, draft: Seq<char>, error: Seq<char>)
    requires
        !model.running,
        model.thread is Some,
        crate::text::trimmed(model.composer.text).len() > 0,
    ensures
        ({
            let (asked, effects) = model.turn_requested();
            let unchanged = asked.effect_failed(effects[0].id, error).0;
            let newer = asked.with_draft(draft).effect_failed(effects[0].id, error).0;
            &&& effects.len() == 1
            &&& asked.composer.text.len() == 0
            &&& unchanged.composer.text == model.composer.text
            &&& unchanged.mode == UiMode::Insert
            &&& draft.len() > 0 ==> newer.composer.text == draft
        }),
{
    reveal(ModelView::turn_requested);
}

/// The failure of an effect that is not pending, or was reported before,
/// changes nothing.
pub proof fn unknown_failures_change_nothing(model: ModelView, id: u64, error: Seq<char>)
    requires
        !model.contexts.dom().contains(id),
    ensures
        model.effect_failed(id, error) == model.quietly(),
{
    assert(model.contexts.remove(id) =~= model.contexts);
}

/// A thread that was started is worked on at once: its transcript is empty and
/// the composer has the keys.
pub proof fn started_threads_are_opened(model: ModelView, thread_id: ThreadRef, id: ThreadId)
    requires
        thread_id.parsed == Ok::<ThreadId, String>(id),
    ensures
        ({
            let after = model.thread_started(thread_id);
            &&& after.thread == Some(id@)
            &&& after.screen == Screen::Workspace
            &&& after.mode == UiMode::Insert
            &&& after.focus == FocusTarget::Composer
            &&& after.status == "Thread "@ + thread_id.text@
            &&& after.transcript.items.len() == 0
            &&& !after.running
            &&& !after.plan_mode
            &&& after.turn is None
            &&& after.scroll == 0
            &&& after.composer == model.composer
        }),
{
}

/// A thread without history that is resumed is read first: the transcript has
/// the keys. With history, its events are replayed in order.
pub proof fn resumed_threads_are_opened(model: ModelView, response: ThreadResumeResponse, id: ThreadId)
    requires
        response.thread_id.parsed == Ok::<ThreadId, String>(id),
    ensures
        ({
            let after = model.thread_resumed(response);
            let opened = (ModelView {
                thread: Some(id@),
                screen: Screen::Workspace,
                mode: UiMode::Normal,
                focus: FocusTarget::Transcript,
                status: "Resumed thread "@ + response.thread_id.text@,
                ..model
            }).turn_forgotten().transcript_cleared();
            &&& opened.transcript.items.len() == 0
            &&& response.initial_messages@.len() == 0 ==> after == opened
            &&& response.initial_messages@.len() == 1 ==> after == opened.event(
                response.initial_messages@[0],
            )
            &&& response.initial_messages@.len() > 0 ==> after == opened.events(
                response.initial_messages@.drop_last(),
                (response.initial_messages@.len() - 1) as nat,
            ).event(response.initial_messages@.last())
        }),
{
    reveal_with_fuel(ModelView::events, 2);
    let msgs = response.initial_messages@;
    if msgs.len() > 0 {
        let opened = (ModelView {
            thread: Some(id@),
            screen: Screen::Workspace,
            mode: UiMode::Normal,
            focus: FocusTarget::Transcript,
            status: "Resumed thread "@ + response.thread_id.text@,
            ..model
        }).turn_forgotten().transcript_cleared();
        lemma_events_prefix(opened, msgs, msgs.drop_last(), (msgs.len() - 1) as nat);
    }
}

proof fn lemma_events_prefix(model: ModelView, a: Seq<EventMsg>, b: Seq<EventMsg>, n: nat)
    requires
        n <= a.len(),
        n <= b.len(),
        forall|i: int| 0 <= i < n ==> a[i] == b[i],
    ensures
        model.events(a, n) == model.events(b, n),
    decreases n,
{
    if n > 0 {
        lemma_events_prefix(model, a, b, (n - 1) as nat);
    }
}

/// Threads whose number cannot be read are reported and change nothing else.
pub proof fn unreadable_threads_are_reported(
    model: ModelView,
    thread_id: ThreadRef,
    response: ThreadResumeResponse,
    reason: String,
)
    requires
        thread_id.parsed == Err::<ThreadId, String>(reason),
        response.thread_id.parsed == Err::<ThreadId, String>(reason),
    ensures
        ({
            let started = model.thread_started(thread_id);
            let resumed = model.thread_resumed(response);
            &&& started.transcript.extends(model.transcript, 1)
            &&& started.transcript.items.last().kind == error_kind(
                "Invalid started thread id: "@ + reason@,
            )
            &&& started.thread == model.thread && started.screen == model.screen
            &&& resumed.transcript.extends(model.transcript, 1)
            &&& resumed.transcript.items.last().kind == error_kind(
                "Invalid resumed thread id: "@ + reason@,
            )
            &&& resumed.thread == model.thread && resumed.screen == model.screen
        }),
{
    reveal(TranscriptView::with_item);
}

/// The dashboard shows the sessions that were listed and says how many there
/// are.
pub proof fn listed_threads_are_shown(model: ModelView, response: ThreadListResponse)
    ensures
        ({
            let after = model.threads_listed(response);
            let n = response.data@.len();
            &&& after.dashboard.items == response.data@
            &&& !after.dashboard.loading
            &&& after.dashboard.error is None
            &&& after.dashboard.next_cursor == opt_text(response.next_cursor)
            &&& 0 < n <= usize::MAX ==> after.dashboard.selected < n
            &&& n == 0 ==> after.status == "No saved threads"@
            &&& n > 0 ==> after.status == numeral(n) + " saved threads"@
            &&& after.transcript == model.transcript
        }),
{
}

/// A turn that the server confirms runs, unless its start was told already; a
/// cancelled turn is confirmed with the number of threads; plan mode follows
/// the server.
pub proof fn confirmations_are_followed(
    model: ModelView,
    context: Option<ContextView>,
    turn: TurnStartResponse,
    cancel: TurnCancelResponse,
    plan: SetPlanModeResponse,
)
    ensures
        ({
            let started = model.effect_done(context, UiEffectResult::TurnStart(turn));
            let cancelled = model.effect_done(context, UiEffectResult::TurnCancel(cancel));
            let planned = model.effect_done(context, UiEffectResult::SetPlanMode(plan));
            &&& started.1.len() == 0 && cancelled.1.len() == 0 && planned.1.len() == 0
            &&& model.turn == Some(turn.turn_id@) ==> started.0 == model
            &&& model.turn != Some(turn.turn_id@) ==> {
                &&& started.0.running
                &&& !started.0.cancelling
                &&& started.0.turn == Some(turn.turn_id@)
                &&& started.0.status == "Running turn "@ + turn.turn_id@
            }
            &&& !cancelled.0.cancelling
            &&& cancelled.0.running == model.running
            &&& cancel.cancelled_threads == 1 ==> cancelled.0.status
                == "Cancel requested for 1 thread"@
            &&& cancel.cancelled_threads != 1 ==> cancelled.0.status == "Cancel requested for "@
                + numeral(cancel.cancelled_threads as nat) + " threads"@
            &&& planned.0 == (ModelView { plan_mode: plan.enabled, ..model })
        }),
{
}

/// A failure is reported in the words of what failed, and what waited for the
/// effect waits no more.
pub proof fn failures_are_reported(model: ModelView, id: u64, context: ContextView, error: Seq<char>)
    requires
        model.contexts.dom().contains(id),
        model.contexts[id] == context,
    ensures
        ({
            let (after, effects) = model.effect_failed(id, error);
            let told = after.transcript.extends(model.transcript, 1);
            let row = after.transcript.items.last().kind;
            &&& !(context is ThreadPreview) ==> !after.contexts.dom().contains(id) && effects.len()
                == 0
            &&& context matches ContextView::SetPlanMode { previous, desired } ==> {
                &&& after.plan_mode == previous
                &&& told && row == error_kind(
                    if desired {
                        "could not "@ + "enable"@ + " plan mode: "@ + error
                    } else {
                        "could not "@ + "disable"@ + " plan mode: "@ + error
                    },
                )
            }
            &&& context is ThreadList ==> after.dashboard.error == Some(error)
                && !after.dashboard.loading && after.status == "Could not list threads"@
                && after.transcript == model.transcript
            &&& context matches ContextView::TurnStart { thread, input } ==> {
                &&& told && row == error_kind(
                    "could not start turn on "@ + thread + ": "@ + error,
                )
                &&& !after.running && !after.cancelling
                &&& model.composer.text.len() == 0 ==> after.composer.text == input && after.mode
                    == UiMode::Insert && after.focus == FocusTarget::Composer
                &&& model.composer.text.len() > 0 ==> after.composer == model.composer && after.mode
                    == model.mode
            }
            &&& context matches ContextView::TurnCancel { thread } ==> {
                &&& told && row == error_kind(
                    "could not cancel turn on "@ + thread + ": "@ + error,
                )
                &&& !after.cancelling && after.running == model.running
                &&& model.turn is Some ==> after.status == "Running turn "@ + model.turn->0
            }
            &&& context is ThreadStart ==> {
                &&& told && row == error_kind("could not start thread: "@ + error)
                &&& after.dashboard.error == Some("could not start thread: "@ + error)
                &&& after.status == "Could not start thread"@
            }
            &&& context matches ContextView::ThreadResume { thread } ==> {
                &&& told && row == error_kind(
                    "could not resume thread "@ + thread + ": "@ + error,
                )
                &&& after.dashboard.error == Some(
                    "could not resume thread "@ + thread + ": "@ + error,
                )
                &&& after.status == "Could not resume thread"@
            }
            &&& context is ServerRequest ==> told && row == error_kind(
                "could not answer server request: "@ + error,
            )
            &&& context matches ContextView::ThreadPreview { thread } ==> {
                &&& told && row == error_kind("could not open subagent "@ + thread + ": "@ + error)
                &&& after.asks_for(
                    effects,
                    EffectKindView::ThreadUnwatch { thread },
                    ContextView::ThreadUnwatch,
                )
                &&& after.status == "Could not open subagent "@ + thread
            }
            &&& context is Clipboard ==> told && row == error_kind(
                "could not copy to clipboard: "@ + error,
            ) && after.status == "Copy failed"@
            &&& context is ThreadUnwatch || context is OpenEditor || context is Exit
                ==> after.transcript == model.transcript && after.status == model.status
        }),
{
    reveal(TranscriptView::with_item);
}

/// A thread that opens closes every preview and releases its watchers; other
/// outcomes of effects that only confirm change nothing.
pub proof fn opened_threads_close_previews(
    model: ModelView,
    context: Option<ContextView>,
    started: ThreadStartResponse,
    resumed: ThreadResumeResponse,
)
    ensures
        ({
            let (a, a_effects) = model.effect_done(context, UiEffectResult::ThreadStart(started));
            let (b, b_effects) = model.effect_done(context, UiEffectResult::ThreadResume(resumed));
            let (closed, effects) = model.previews_closed();
            &&& a == closed.thread_started(started.thread_id)
            &&& b == closed.thread_resumed(resumed)
            &&& a_effects == effects && b_effects == effects
            &&& effects.len() == model.previews.len()
            &&& closed.previews.len() == 0 && closed.forward.len() == 0
            &&& model.effect_done(context, UiEffectResult::ThreadUnwatched) == model.quietly()
            &&& model.effect_done(context, UiEffectResult::ServerRequestAnswered)
                == model.quietly()
            &&& model.effect_done(context, UiEffectResult::ClipboardWritten) == model.quietly()
        }),
{
    crate::ui::preview::closed_previews_release_each_watcher(model);
}

} // verus!
