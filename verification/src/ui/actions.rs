//! What the user asks of the server, and what the server asks of the user.
use vstd::prelude::*;
use crate::composer::{empty_composer, ComposerView};
use crate::history_cell::{error_kind, info_kind};
use crate::plan_approval::{fresh_overlay, PlanApprovalOverlay};
use crate::protocol::{
    dup_thread, JsonRpcError, RequestId, RpcErrorView, ServerRequest, ThreadId, ThreadRef,
};
use crate::question_picker::{fresh_picker, QuestionPicker};
use crate::text::{blank_texts_are_white_space, owned, trim, trimmed};
use crate::transcript::TranscriptView;
use crate::ui::input::blank;
use crate::ui::protocol::prefixed;
use crate::ui::{
    effect_views, nothing, ContextView, EffectContext, EffectKindView, EffectView, FocusTarget,
    ModelView, Screen, UiEffect, UiEffectKind, UiMode, UiModel,
};

verus! {

// ---------------------------------------------------------------------------
// Requests of the user
// ---------------------------------------------------------------------------

impl ModelView {
    pub open spec fn with_draft(self, text: Seq<char>) -> ModelView {
        ModelView {
            composer: ComposerView { text, cursor: text.len(), goal: None },
            ..self
        }
    }

    /// Sends the draft. Without a thread the draft stays.
    #[verifier::opaque]
    pub open spec fn turn_requested(self) -> (ModelView, Seq<EffectView>) {
        if self.running {
            self.with_info("turn already running"@).quietly()
        } else {
            let input = self.composer.text;
            let m = ModelView { composer: empty_composer(), ..self };
            if trimmed(input).len() == 0 {
                m.quietly()
            } else {
                match self.thread {
                    Some(thread) => m.saying("Starting turn"@).with_effect(
                        ContextView::TurnStart { thread, input },
                        EffectKindView::TurnStart { thread, input },
                    ),
                    None => m.with_error(
                        "no active thread; start or resume a session before sending"@,
                    ).with_draft(input).quietly(),
                }
            }
        }
    }

    /// Sends the draft from the composer; the composer is left when it went.
    #[verifier::opaque]
    pub open spec fn insert_turn_requested(self) -> (ModelView, Seq<EffectView>) {
        let (m, effects) = self.turn_requested();
        if effects.len() > 0 {
            (ModelView { mode: UiMode::Normal, focus: FocusTarget::Transcript, ..m }, effects)
        } else {
            (m, effects)
        }
    }

    #[verifier::opaque]
    pub open spec fn cancel_requested(self) -> (ModelView, Seq<EffectView>) {
        if !self.running {
            self.with_info("no running turn to cancel"@).quietly()
        } else if self.cancelling {
            self.saying("Cancelling turn"@).quietly()
        } else {
            match self.thread {
                Some(thread) => (ModelView { cancelling: true, ..self }).saying(
                    "Cancelling turn"@,
                ).with_effect(
                    ContextView::TurnCancel { thread },
                    EffectKindView::TurnCancel { thread },
                ),
                None => self.with_error("no active thread to cancel"@).quietly(),
            }
        }
    }

    /// Plan mode is switched at once; the server is asked to follow.
    #[verifier::opaque]
    pub open spec fn plan_toggled(self) -> (ModelView, Seq<EffectView>) {
        match self.thread {
            Some(thread) => (ModelView { plan_mode: !self.plan_mode, ..self }).with_effect(
                ContextView::SetPlanMode { previous: self.plan_mode, desired: !self.plan_mode },
                EffectKindView::SetPlanMode { thread, enabled: !self.plan_mode },
            ),
            None => self.with_info(
                "no active thread; start a session before toggling plan mode"@,
            ).quietly(),
        }
    }
}

impl UiModel {
    pub fn request_insert_turn_start(&mut self) -> (r: Vec<UiEffect>)
        requires
            old(self).wf(),
        ensures
            final(self).wf(),
            (final(self)@, effect_views(r@)) == old(self)@.insert_turn_requested(),
    {
        reveal(ModelView::insert_turn_requested);
        let effects: Vec<UiEffect> = self.request_turn_start();
        assert(effect_views(effects@).len() == effects@.len());
        if effects.len() > 0 {
            self.mode = UiMode::Normal;
            self.focus = FocusTarget::Transcript;
        }
        effects
    }

    pub fn request_turn_start(&mut self) -> (r: Vec<UiEffect>)
        requires
            old(self).wf(),
        ensures
            final(self).wf(),
            (final(self)@, effect_views(r@)) == old(self)@.turn_requested(),
    {
        reveal(ModelView::turn_requested);
        if self.is_turn_running {
            self.push_info("turn already running");
            return nothing();
        }
        let input: String = self.composer.take_text();
        let blank: String = trim(input.as_str());
        if blank.as_str().is_empty() {
            return nothing();
        }
        match dup_thread(&self.current_thread_id) {
            Some(thread_id) => {
                self.set_status("Starting turn");
                self.ask(
                    EffectContext::TurnStart {
                        thread_id: thread_id.duplicate(),
                        input: input.clone(),
                    },
                    UiEffectKind::TurnStart { thread_id, input },
                )
            },
            None => {
                self.push_error("no active thread; start or resume a session before sending");
                self.composer.set_text(input);
                nothing()
            },
        }
    }

    pub fn request_turn_cancel(&mut self) -> (r: Vec<UiEffect>)
        requires
            old(self).wf(),
        ensures
            final(self).wf(),
            (final(self)@, effect_views(r@)) == old(self)@.cancel_requested(),
    {
        reveal(ModelView::cancel_requested);
        if !self.is_turn_running {
            self.push_info("no running turn to cancel");
            return nothing();
        }
        if self.is_turn_cancelling {
            self.set_status("Cancelling turn");
            return nothing();
        }
        match dup_thread(&self.current_thread_id) {
            Some(thread_id) => {
                self.is_turn_cancelling = true;
                self.set_status("Cancelling turn");
                self.ask(
                    EffectContext::TurnCancel { thread_id: thread_id.duplicate() },
                    UiEffectKind::TurnCancel { thread_id },
                )
            },
            None => {
                self.push_error("no active thread to cancel");
                nothing()
            },
        }
    }

    pub fn request_plan_toggle(&mut self) -> (r: Vec<UiEffect>)
        requires
            old(self).wf(),
        ensures
            final(self).wf(),
            (final(self)@, effect_views(r@)) == old(self)@.plan_toggled(),
    {
        reveal(ModelView::plan_toggled);
        match dup_thread(&self.current_thread_id) {
            Some(thread_id) => {
                let previous: bool = self.plan_mode;
                let desired: bool = !self.plan_mode;
                self.plan_mode = desired;
                self.ask(
                    EffectContext::SetPlanMode { previous, desired },
                    UiEffectKind::SetPlanMode { thread_id, enabled: desired },
                )
            },
            None => {
                self.push_info("no active thread; start a session before toggling plan mode");
                nothing()
            },
        }
    }
}

// ---------------------------------------------------------------------------
// Requests of the server
// ---------------------------------------------------------------------------

pub open spec fn request_error(message: Seq<char>) -> RpcErrorView {
    RpcErrorView {
        code: -32000i64,
        kind: "server_request_failed"@,
        message,
        source: "cazean-tui"@,
    }
}

pub open spec fn id_of(request: ServerRequest) -> RequestId {
    match request {
        ServerRequest::AskUserQuestion { request_id, params } => request_id,
        ServerRequest::RequestPlanApproval { request_id, params } => request_id,
    }
}

pub open spec fn thread_of(request: ServerRequest) -> ThreadRef {
    match request {
        ServerRequest::AskUserQuestion { request_id, params } => params.thread_id,
        ServerRequest::RequestPlanApproval { request_id, params } => params.thread_id,
    }
}

impl ModelView {
    pub open spec fn request_failed(self, request_id: RequestId, message: Seq<char>) -> (
        ModelView,
        Seq<EffectView>,
    ) {
        self.with_effect(
            ContextView::ServerRequest,
            EffectKindView::FailServerRequest { request_id, error: request_error(message) },
        )
    }

    /// Whether the user looks at a thread, or did in a preview that can be
    /// resumed.
    pub open spec fn attends(self, thread: Seq<char>) -> bool {
        ||| self.thread == Some(thread)
        ||| exists|i: int|
            0 <= i < self.previews.len() && (#[trigger] self.previews[i]).thread_id == thread
        ||| exists|i: int| 0 <= i < self.forward.len() && (#[trigger] self.forward[i]) == thread
    }

    /// The answer to a request of a thread that the user does not look at.
    #[verifier::opaque]
    pub open spec fn request_rejected(self, request: ServerRequest) -> Option<
        (ModelView, Seq<EffectView>),
    > {
        match thread_of(request).parsed {
            Ok(id) => if self.attends(id@) {
                None
            } else {
                Some(
                    self.request_failed(
                        id_of(request),
                        "ignored server request for inactive thread "@ + id@,
                    ),
                )
            },
            Err(reason) => Some(
                self.request_failed(
                    id_of(request),
                    "invalid server request thread id: "@ + reason@,
                ),
            ),
        }
    }

    /// Previewed subagents can ask too; the stack is closed so the overlay is
    /// visible and receives keys.
    #[verifier::opaque]
    pub open spec fn making_room(self) -> (ModelView, Seq<EffectView>) {
        let (m, effects) = self.previews_closed();
        let left = (ModelView { screen: Screen::Workspace, ..m }).select_left();
        (
            ModelView { mode: UiMode::Overlay, focus: FocusTarget::Overlay, ..left },
            effects,
        )
    }

    /// A request is put to the user.
    pub open spec fn request_shown(self, request: ServerRequest) -> (ModelView, Seq<EffectView>) {
        let (m, effects) = self.making_room();
        match request {
            ServerRequest::AskUserQuestion { request_id, params } => (
                ModelView { picker: Some(fresh_picker(request_id, params)), ..m },
                effects,
            ),
            ServerRequest::RequestPlanApproval { request_id, params } => (
                ModelView { approval: Some(fresh_overlay(request_id, params)), ..m },
                effects,
            ),
        }
    }

    #[verifier::opaque]
    pub open spec fn requested(self, request: ServerRequest) -> (ModelView, Seq<EffectView>) {
        match self.request_rejected(request) {
            Some(answer) => answer,
            None => if self.picker is Some || self.approval is Some {
                self.request_failed(
                    id_of(request),
                    "another interactive request is already pending"@,
                )
            } else {
                self.request_shown(request)
            },
        }
    }
}

impl UiModel {
    pub fn fail_server_request(&mut self, request_id: RequestId, message: String) -> (r: Vec<
        UiEffect,
    >)
        requires
            old(self).wf(),
        ensures
            final(self).wf(),
            (final(self)@, effect_views(r@)) == old(self)@.request_failed(request_id, message@),
    {
        self.ask(
            EffectContext::ServerRequest,
            UiEffectKind::FailServerRequest {
                request_id,
                error: JsonRpcError {
                    code: -32000,
                    kind: owned("server_request_failed"),
                    message,
                    source: owned("cazean-tui"),
                },
            },
        )
    }

    fn is_attended(&self, thread_id: &ThreadId) -> (r: bool)
        ensures
            r == self@.attends(thread_id@),
    {
        match &self.current_thread_id {
            Some(current) => {
                if current.same(thread_id) {
                    return true;
                }
            },
            None => {},
        }
        let mut i: usize = 0;
        while i < self.preview_stack.len()
            invariant
                i <= self.preview_stack@.len(),
                forall|j: int|
                    0 <= j < i ==> (#[trigger] self@.previews[j]).thread_id != thread_id@,
            decreases self.preview_stack@.len() - i,
        {
            assert(self@.previews[i as int] == self.preview_stack@[i as int]@);
            if self.preview_stack[i].thread_id.same(thread_id) {
                return true;
            }
            i += 1;
        }
        let mut k: usize = 0;
        while k < self.preview_forward_stack.len()
            invariant
                k <= self.preview_forward_stack@.len(),
                forall|j: int| 0 <= j < k ==> (#[trigger] self@.forward[j]) != thread_id@,
            decreases self.preview_forward_stack@.len() - k,
        {
            assert(self@.forward[k as int] == self.preview_forward_stack@[k as int]@);
            if self.preview_forward_stack[k].same(thread_id) {
                return true;
            }
            k += 1;
        }
        false
    }

    pub fn reject_inactive_server_request(&mut self, request: &ServerRequest) -> (r: Option<
        Vec<UiEffect>,
    >)
        requires
            old(self).wf(),
        ensures
            final(self).wf(),
            match r {
                Some(effects) => old(self)@.request_rejected(*request) == Some(
                    (final(self)@, effect_views(effects@)),
                ),
                None => old(self)@.request_rejected(*request) is None && final(self)@ == old(
                    self,
                )@,
            },
    {
        reveal(ModelView::request_rejected);
        let (request_id, thread_ref): (RequestId, &ThreadRef) = match request {
            ServerRequest::AskUserQuestion { request_id, params } => (
                *request_id,
                &params.thread_id,
            ),
            ServerRequest::RequestPlanApproval { request_id, params } => (
                *request_id,
                &params.thread_id,
            ),
        };
        match &thread_ref.parsed {
            Ok(thread_id) => {
                if self.is_attended(thread_id) {
                    None
                } else {
                    Some(
                        self.fail_server_request(
                            request_id,
                            prefixed(
                                "ignored server request for inactive thread ",
                                thread_id.text.as_str(),
                            ),
                        ),
                    )
                }
            },
            Err(reason) => Some(
                self.fail_server_request(
                    request_id,
                    prefixed("invalid server request thread id: ", reason.as_str()),
                ),
            ),
        }
    }

    fn make_room(&mut self) -> (r: Vec<UiEffect>)
        requires
            old(self).wf(),
        ensures
            final(self).wf(),
            (final(self)@, effect_views(r@)) == old(self)@.making_room(),
    {
        reveal(ModelView::making_room);
        let effects: Vec<UiEffect> = self.clear_preview_stack();
        self.screen = Screen::Workspace;
        self.exit_transcript_select();
        self.mode = UiMode::Overlay;
        self.focus = FocusTarget::Overlay;
        effects
    }

    pub fn handle_server_request(&mut self, request: ServerRequest) -> (r: Vec<UiEffect>)
        requires
            old(self).wf(),
        ensures
            final(self).wf(),
            (final(self)@, effect_views(r@)) == old(self)@.requested(request),
    {
        reveal(ModelView::requested);
        match self.reject_inactive_server_request(&request) {
            Some(effects) => {
                return effects;
            },
            None => {},
        }
        if self.question_picker.is_some() || self.plan_approval.is_some() {
            let request_id: RequestId = match request {
                ServerRequest::AskUserQuestion { request_id, params } => request_id,
                ServerRequest::RequestPlanApproval { request_id, params } => request_id,
            };
            return self.fail_server_request(
                request_id,
                owned("another interactive request is already pending"),
            );
        }
        self.show_request(request)
    }

    fn show_request(&mut self, request: ServerRequest) -> (r: Vec<UiEffect>)
        requires
            old(self).wf(),
        ensures
            final(self).wf(),
            (final(self)@, effect_views(r@)) == old(self)@.request_shown(request),
    {
        reveal(crate::ui::picker_ok);
        reveal(crate::ui::overlay_ok);
        let effects: Vec<UiEffect> = self.make_room();
        match request {
            ServerRequest::AskUserQuestion { request_id, params } => {
                self.question_picker = Some(QuestionPicker::new(request_id, params));
            },
            ServerRequest::RequestPlanApproval { request_id, params } => {
                self.plan_approval = Some(PlanApprovalOverlay::new(request_id, params));
            },
        }
        effects
    }
}

// ---------------------------------------------------------------------------
// Laws
// ---------------------------------------------------------------------------

/// A request of a thread that the user does not look at is answered with an
/// error under its own number, and nothing is shown.
pub proof fn inactive_requests_are_refused(model: ModelView, request: ServerRequest)
    requires
        thread_of(request).parsed matches Ok(id) ==> !model.attends(id@),
    ensures
        ({
            let (after, effects) = model.requested(request);
            &&& after.picker == model.picker
            &&& after.approval == model.approval
            &&& after.mode == model.mode
            &&& effects.len() == 1
            &&& effects[0].kind matches EffectKindView::FailServerRequest { request_id, error }
                && request_id == id_of(request) && error.code == -32000
        }),
{
    reveal(ModelView::request_rejected);
    reveal(ModelView::requested);
}

/// No request puts a second overlay over a pending one.
pub proof fn one_overlay_at_a_time(model: ModelView, request: ServerRequest)
    requires
        !(model.picker is Some && model.approval is Some),
    ensures
        ({
            let (after, effects) = model.requested(request);
            &&& !(after.picker is Some && after.approval is Some)
            &&& model.picker is Some || model.approval is Some ==> after.picker == model.picker
                && after.approval == model.approval && effects.len() == 1
                && effects[0].kind is FailServerRequest
        }),
{
    reveal(ModelView::request_rejected);
    reveal(ModelView::requested);
    lemma_room_keeps_overlays(model);
}

proof fn lemma_room_keeps_overlays(model: ModelView)
    ensures
        model.making_room().0.picker == model.picker,
        model.making_room().0.approval == model.approval,
{
    reveal(ModelView::making_room);
    reveal(ModelView::previews_closed);
    let closed = ModelView { previews: Seq::empty(), forward: Seq::empty(), ..model };
    lemma_releasing_keeps(closed, model.previews, model.previews.len());
}

proof fn lemma_releasing_keeps(
    model: ModelView,
    views: Seq<crate::subagent_preview::PreviewView>,
    n: nat,
)
    ensures
        model.releasing(views, n).0.picker == model.picker,
        model.releasing(views, n).0.approval == model.approval,
        model.releasing(views, n).0.previews == model.previews,
        model.releasing(views, n).0.composer == model.composer,
        model.releasing(views, n).0.transcript == model.transcript,
    decreases n,
{
    if n > 0 {
        lemma_releasing_keeps(model, views, (n - 1) as nat);
    }
}

/// A draft is never lost: it goes out with a turn, or it stays in the composer,
/// unless it is blank.
pub proof fn drafts_are_not_lost(model: ModelView)
    requires
        trimmed(model.composer.text).len() > 0,
    ensures
        ({
            let (after, effects) = model.turn_requested();
            ||| after.composer.text == model.composer.text && effects.len() == 0
            ||| effects.len() == 1 && (effects[0].kind matches EffectKindView::TurnStart {
                thread,
                input,
            } && input == model.composer.text)
        }),
{
    reveal(ModelView::turn_requested);
}

/// A turn is started with the whole draft, and only where a thread is there
/// and no turn runs; a draft of white space is dropped and sends nothing.
pub proof fn drafts_start_turns(model: ModelView)
    ensures
        ({
            let (after, effects) = model.turn_requested();
            let text = model.composer.text;
            let told = after.transcript.extends(model.transcript, 1);
            &&& model.running ==> {
                &&& effects.len() == 0
                &&& after.composer == model.composer
                &&& told && after.transcript.items.last().kind == info_kind(
                    "turn already running"@,
                )
            }
            &&& !model.running && blank(text) ==> {
                &&& effects.len() == 0
                &&& after.composer.text.len() == 0
                &&& after.transcript == model.transcript
                &&& after.status == model.status
            }
            &&& !model.running && !blank(text) && model.thread is None ==> {
                &&& effects.len() == 0
                &&& after.composer.text == text
                &&& told && after.transcript.items.last().kind == error_kind(
                    "no active thread; start or resume a session before sending"@,
                )
            }
            &&& !model.running && !blank(text) && model.thread is Some ==> {
                &&& after.asks_for(
                    effects,
                    EffectKindView::TurnStart { thread: model.thread->0, input: text },
                    ContextView::TurnStart { thread: model.thread->0, input: text },
                )
                &&& after.composer.text.len() == 0
                &&& after.composer.cursor == 0
                &&& after.status == "Starting turn"@
                &&& after.transcript == model.transcript
            }
        }),
{
    reveal(ModelView::turn_requested);
    reveal(TranscriptView::with_item);
    blank_texts_are_white_space(model.composer.text);
}

/// A running turn is cancelled once; without one, or without a thread, that is
/// said instead.
pub proof fn turns_are_cancelled_once(model: ModelView)
    ensures
        ({
            let (after, effects) = model.cancel_requested();
            let told = after.transcript.extends(model.transcript, 1);
            &&& !model.running ==> effects.len() == 0 && told && after.transcript.items.last().kind
                == info_kind("no running turn to cancel"@) && after.cancelling == model.cancelling
            &&& model.running && model.cancelling ==> effects.len() == 0 && after == (ModelView {
                status: "Cancelling turn"@,
                ..model
            })
            &&& model.running && !model.cancelling && model.thread is None ==> effects.len() == 0
                && told && after.transcript.items.last().kind == error_kind(
                "no active thread to cancel"@,
            ) && !after.cancelling
            &&& model.running && !model.cancelling && model.thread is Some ==> {
                &&& after.asks_for(
                    effects,
                    EffectKindView::TurnCancel { thread: model.thread->0 },
                    ContextView::TurnCancel { thread: model.thread->0 },
                )
                &&& after.cancelling
                &&& after.running
                &&& after.status == "Cancelling turn"@
            }
        }),
{
    reveal(ModelView::cancel_requested);
    reveal(TranscriptView::with_item);
}

/// Plan mode is switched to the other side and the server is told which; twice
/// gives it back. Without a thread nothing is switched.
pub proof fn plan_mode_is_switched(model: ModelView)
    ensures
        ({
            let (after, effects) = model.plan_toggled();
            &&& model.thread is Some ==> {
                &&& after.plan_mode == !model.plan_mode
                &&& after.asks_for(
                    effects,
                    EffectKindView::SetPlanMode {
                        thread: model.thread->0,
                        enabled: !model.plan_mode,
                    },
                    ContextView::SetPlanMode {
                        previous: model.plan_mode,
                        desired: !model.plan_mode,
                    },
                )
                &&& after.plan_toggled().0.plan_mode == model.plan_mode
            }
            &&& model.thread is None ==> {
                &&& after.plan_mode == model.plan_mode
                &&& effects.len() == 0
                &&& after.transcript.extends(model.transcript, 1)
                &&& after.transcript.items.last().kind == info_kind(
                    "no active thread; start a session before toggling plan mode"@,
                )
            }
        }),
{
    reveal(ModelView::plan_toggled);
    reveal(TranscriptView::with_item);
}

/// Where the user looks at the thread of a request and nothing else is asked,
/// the request is put on top of the workspace and has the keys.
pub proof fn requests_are_put_to_the_user(model: ModelView, request: ServerRequest, id: ThreadId)
    requires
        thread_of(request).parsed == Ok::<ThreadId, String>(id),
        model.thread == Some(id@),
        model.picker is None,
        model.approval is None,
        model.previews.len() == 0,
    ensures
        ({
            let (after, effects) = model.requested(request);
            &&& effects.len() == 0
            &&& after.screen == Screen::Workspace
            &&& after.mode == UiMode::Overlay
            &&& after.focus == FocusTarget::Overlay
            &&& after.select is None
            &&& request matches ServerRequest::AskUserQuestion { request_id, params }
                ==> after.picker == Some(fresh_picker(request_id, params)) && after.approval is None
            &&& request matches ServerRequest::RequestPlanApproval { request_id, params }
                ==> after.approval == Some(fresh_overlay(request_id, params)) && after.picker
                is None
            &&& after.composer == model.composer
            &&& after.transcript == model.transcript
        }),
{
    reveal(ModelView::requested);
    reveal(ModelView::request_rejected);
    reveal(ModelView::making_room);
    reveal(ModelView::previews_closed);
}

/// A refused request is answered with the reason.
pub proof fn refusals_tell_the_reason(model: ModelView, request: ServerRequest)
    ensures
        ({
            let (after, effects) = model.requested(request);
            let thread = thread_of(request).parsed;
            let busy = model.picker is Some || model.approval is Some;
            &&& thread matches Err(reason) ==> refuses(
                effects,
                id_of(request),
                "invalid server request thread id: "@ + reason@,
            )
            &&& thread matches Ok(id) ==> {
                &&& !model.attends(id@) ==> refuses(
                    effects,
                    id_of(request),
                    "ignored server request for inactive thread "@ + id@,
                )
                &&& model.attends(id@) && busy ==> refuses(
                    effects,
                    id_of(request),
                    "another interactive request is already pending"@,
                )
            }
        }),
{
    reveal(ModelView::requested);
    reveal(ModelView::request_rejected);
}

/// Whether the only effect refuses a request for that reason.
pub open spec fn refuses(effects: Seq<EffectView>, id: RequestId, reason: Seq<char>) -> bool {
    &&& effects.len() == 1
    &&& effects[0].kind matches EffectKindView::FailServerRequest { request_id, error }
        && request_id == id && error.code == -32000 && error.kind == "server_request_failed"@
        && error.message == reason && error.source == "cazean-tui"@
}

/// The user looks at the thread in the workspace, at those in previews, and at
/// those that previews were left of; at no other.
pub proof fn attention_covers_what_is_open(model: ModelView, thread: Seq<char>, i: int)
    ensures
        model.thread == Some(thread) ==> model.attends(thread),
        0 <= i < model.previews.len() && model.previews[i].thread_id == thread ==> model.attends(
            thread,
        ),
        0 <= i < model.forward.len() && model.forward[i] == thread ==> model.attends(thread),
        model.thread != Some(thread) && model.previews.len() == 0 && model.forward.len() == 0
            ==> !model.attends(thread),
{
}

/// A request that is put to the user closes every preview and releases its
/// watchers, so that it can be seen.
pub proof fn requests_close_previews(model: ModelView, request: ServerRequest, id: ThreadId)
    requires
        thread_of(request).parsed == Ok::<ThreadId, String>(id),
        model.attends(id@),
        model.picker is None,
        model.approval is None,
    ensures
        ({
            let (after, effects) = model.requested(request);
            &&& after.previews.len() == 0
            &&& after.forward.len() == 0
            &&& effects.len() == model.previews.len()
            &&& forall|i: int|
                0 <= i < effects.len() ==> (#[trigger] effects[i]).kind
                    == (EffectKindView::ThreadUnwatch { thread: model.previews[i].thread_id })
            &&& after.mode == UiMode::Overlay
            &&& after.picker is Some || after.approval is Some
        }),
{
    reveal(ModelView::requested);
    reveal(ModelView::request_rejected);
    reveal(ModelView::making_room);
    crate::ui::preview::closed_previews_release_each_watcher(model);
}

} // verus!
