//! Which effects are performed, and in which order.
use vstd::prelude::*;
use crate::protocol::ThreadId;
use crate::ui::{
    effect_views, EffectId, EffectKindView, EffectView, UiEffect, UiEffectKind, UiEffectResult,
    UiEvent, UiModel,
};

verus! {

/// How the run loop goes on.
#[derive(Debug)]
pub enum RunControl {
    Continue,
    Exit,
    /// Suspend the interface and open the plan of this thread in the user's
    /// editor; the run loop owns the terminal.
    OpenEditor { thread_id: ThreadId },
}

/// What is to be done next: an effect, or nothing more.
#[derive(Debug)]
pub enum RunStep {
    Done(RunControl),
    Perform(UiEffect),
}

#[verifier::ext_equal]
pub enum StepView {
    Continue,
    Exit,
    OpenEditor { thread: Seq<char> },
    Perform(EffectView),
}

impl View for RunStep {
    type V = StepView;

    open spec fn view(&self) -> StepView {
        match *self {
            RunStep::Done(RunControl::Continue) => StepView::Continue,
            RunStep::Done(RunControl::Exit) => StepView::Exit,
            RunStep::Done(RunControl::OpenEditor { thread_id }) => StepView::OpenEditor {
                thread: thread_id@,
            },
            RunStep::Perform(effect) => StepView::Perform(effect@),
        }
    }
}

/// The effects that wait, oldest first.
#[derive(Debug)]
pub struct EffectQueue {
    pending: Vec<UiEffect>,
}

impl View for EffectQueue {
    type V = Seq<EffectView>;

    closed spec fn view(&self) -> Seq<EffectView> {
        effect_views(self.pending@)
    }
}

/// The next step, and what still waits then. Leaving the loop drops the rest.
pub open spec fn next_step(queue: Seq<EffectView>) -> (Seq<EffectView>, StepView) {
    if queue.len() == 0 {
        (queue, StepView::Continue)
    } else {
        match queue[0].kind {
            EffectKindView::Exit => (Seq::empty(), StepView::Exit),
            EffectKindView::OpenEditor { thread } => (
                Seq::empty(),
                StepView::OpenEditor { thread },
            ),
            _ => (queue.drop_first(), StepView::Perform(queue[0])),
        }
    }
}

/// The event that tells what came of an effect.
pub open spec fn outcome_event(
    effect_id: EffectId,
    outcome: Result<UiEffectResult, String>,
    viewport_height: u16,
) -> UiEvent {
    match outcome {
        Ok(result) => UiEvent::EffectCompleted { effect_id, result, viewport_height },
        Err(error) => UiEvent::EffectFailed { effect_id, error, viewport_height },
    }
}

impl EffectQueue {
    pub fn new(effects: Vec<UiEffect>) -> (r: EffectQueue)
        ensures
            r@ == effect_views(effects@),
    {
        EffectQueue { pending: effects }
    }

    /// Takes the next step out.
    pub fn next_step(&mut self) -> (r: RunStep)
        ensures
            (final(self)@, r@) == next_step(old(self)@),
    {
        let ghost before = self@;
        if self.pending.len() == 0 {
            return RunStep::Done(RunControl::Continue);
        }
        assert(before[0] == self.pending@[0]@);
        let first: UiEffect = self.pending.remove(0);
        match first.kind {
            UiEffectKind::Exit => {
                self.pending = Vec::new();
                assert(self@ =~= Seq::empty());
                RunStep::Done(RunControl::Exit)
            },
            UiEffectKind::OpenEditor { thread_id } => {
                self.pending = Vec::new();
                assert(self@ =~= Seq::empty());
                RunStep::Done(RunControl::OpenEditor { thread_id })
            },
            kind => {
                assert(self@ =~= before.drop_first());
                RunStep::Perform(UiEffect { effect_id: first.effect_id, kind })
            },
        }
    }

    fn add(&mut self, effects: Vec<UiEffect>)
        ensures
            final(self)@ == old(self)@ + effect_views(effects@),
    {
        let mut more: Vec<UiEffect> = effects;
        let ghost before = self.pending@;
        let ghost tail = more@;
        self.pending.append(&mut more);
        assert(self.pending@ =~= before + tail);
        assert(self@ =~= effect_views(before) + effect_views(tail));
    }
}

impl UiModel {
    /// Tells the model what came of an effect; what it asks for in turn waits
    /// behind the rest.
    pub fn settle(
        &mut self,
        queue: &mut EffectQueue,
        effect_id: EffectId,
        outcome: Result<UiEffectResult, String>,
        viewport_height: u16,
    )
        requires
            old(self).wf(),
        ensures
            final(self).wf(),
            (final(self)@, final(queue)@) == ({
                let (model, more) = old(self)@.step(
                    outcome_event(effect_id, outcome, viewport_height),
                );
                (model, old(queue)@ + more)
            }),
    {
        let effects: Vec<UiEffect> = match outcome {
            Ok(result) => self.update(
                UiEvent::EffectCompleted { effect_id, result, viewport_height },
            ),
            Err(error) => self.update(
                UiEvent::EffectFailed { effect_id, error, viewport_height },
            ),
        };
        queue.add(effects);
    }
}

// ---------------------------------------------------------------------------
// Laws
// ---------------------------------------------------------------------------

/// Effects are performed in the order in which they were asked for: what is
/// added later does not change the next step.
pub proof fn effects_run_in_order(queue: Seq<EffectView>, more: Seq<EffectView>)
    requires
        queue.len() > 0,
    ensures
        next_step(queue + more).1 == next_step(queue).1,
        next_step(queue).1 is Perform ==> next_step(queue + more).0 == next_step(queue).0 + more,
{
    assert((queue + more).drop_first() =~= queue.drop_first() + more);
}

/// The loop goes on only once nothing waits, and nothing waits once it ends.
pub proof fn loop_ends_with_nothing_waiting(queue: Seq<EffectView>)
    ensures
        !(next_step(queue).1 is Perform) ==> next_step(queue).0.len() == 0,
        next_step(queue).1 is Continue <==> queue.len() == 0,
{
}

/// The oldest effect is next. Leaving and the editor are for the run loop, which
/// drops what else waits; any other effect is performed and the rest waits on.
pub proof fn the_oldest_effect_is_next(queue: Seq<EffectView>)
    requires
        queue.len() > 0,
    ensures
        ({
            let (rest, step) = next_step(queue);
            let kind = queue[0].kind;
            &&& kind is Exit ==> step is Exit && rest.len() == 0
            &&& kind matches EffectKindView::OpenEditor { thread } ==> step
                == (StepView::OpenEditor { thread }) && rest.len() == 0
            &&& !(kind is Exit) && !(kind is OpenEditor) ==> {
                &&& step == StepView::Perform(queue[0])
                &&& rest.len() == queue.len() - 1
                &&& forall|i: int| 0 <= i < rest.len() ==> #[trigger] rest[i] == queue[i + 1]
            }
        }),
{
}

/// What came of an effect is told under its number, as a success or a failure.
pub proof fn outcomes_are_told(id: EffectId, result: UiEffectResult, error: String, height: u16)
    ensures
        outcome_event(id, Ok(result), height) == (UiEvent::EffectCompleted {
            effect_id: id,
            result,
            viewport_height: height,
        }),
        outcome_event(id, Err(error), height) == (UiEvent::EffectFailed {
            effect_id: id,
            error,
            viewport_height: height,
        }),
{
}

} // verus!
