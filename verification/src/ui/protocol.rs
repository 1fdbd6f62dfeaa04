//! What the events of a session do to the interface.
use vstd::prelude::*;
use crate::history_cell::{error_kind, info_kind, EntryView, KindView, ToolCallState};
use crate::markdown_render::rendered;
use crate::markdown_stream::StreamView;
use crate::protocol::{
    agent_status_label, dup_text, dup_todos, is_text, opt_text, status_label, AgentStatus,
    CollabAgentCompletedEvent, ErrorInfo, EventMsg, FileChangeOutput, SessionEvent, ThreadId, ThreadRef, TodoItem, ToolCallCompletedEvent,
    ToolCallResultKind, ToolCallStartedEvent,
};
use crate::subagent_preview::{call_error, call_failure, call_state, failure_notice};
use crate::text::owned;
use crate::text_map::{
    distinct_keys, filed, filed_values_are_found, found, lemma_place, place_of, unfiled,
    unfiled_values_are_gone,
};
use crate::transcript::TranscriptView;
use crate::ui::{FocusTarget, ModelView, RunningToolInfo, Screen, UiMode, UiModel};

verus! {

// ---------------------------------------------------------------------------
// Streams
// ---------------------------------------------------------------------------

impl ModelView {
    pub open spec fn with_transcript(self, transcript: TranscriptView) -> ModelView {
        ModelView { transcript, ..self }
    }

    /// The reasoning that streamed becomes a row.
    pub open spec fn reasoning_settled(self) -> (ModelView, bool) {
        let had = self.transcript.reasoning is Some || self.transcript.active_reasoning is Some;
        let (transcript, committed) = self.transcript.reasoning_committed();
        (
            ModelView {
                transcript: if had && !committed {
                    transcript.grouping_ended()
                } else {
                    transcript
                },
                in_flight_reasoning: None,
                committed_reasoning: if committed && self.in_flight_reasoning is Some {
                    self.in_flight_reasoning
                } else {
                    self.committed_reasoning
                },
                ..self
            },
            committed,
        )
    }

    /// The answer that streamed becomes a row.
    pub open spec fn answer_settled(self, item_id: Option<Seq<char>>) -> (ModelView, bool) {
        let (transcript, committed) = self.transcript.assistant_committed();
        (
            ModelView {
                transcript,
                committed_assistant: if committed {
                    item_id
                } else {
                    self.committed_assistant
                },
                committed_this_turn: self.committed_this_turn || committed,
                ..self
            },
            committed,
        )
    }

    /// Both streams become rows.
    pub open spec fn settled(self, item_id: Option<Seq<char>>) -> (ModelView, bool) {
        self.reasoning_settled().0.answer_settled(item_id)
    }

    pub open spec fn turn_ended(self) -> ModelView {
        ModelView { running: false, cancelling: false, running_tools: Seq::empty(), ..self }
    }
}

impl UiModel {
    pub fn finalize_reasoning_stream(&mut self) -> (r: bool)
        requires
            old(self).wf(),
        ensures
            final(self).wf(),
            (final(self)@, r) == old(self)@.reasoning_settled(),
    {
        let had_reasoning: bool = self.transcript.reasoning_stream.is_some()
            || self.transcript.active_reasoning_lines.is_some();
        let mut in_flight: Option<String> = None;
        core::mem::swap(&mut in_flight, &mut self.in_flight_reasoning_item_id);
        if self.transcript.commit_reasoning_stream() {
            if in_flight.is_some() {
                self.committed_reasoning_item_id = in_flight;
            }
            return true;
        }
        if had_reasoning {
            self.transcript.end_grouping();
        }
        false
    }

    pub fn commit_assistant_stream(&mut self, item_id: Option<String>) -> (r: bool)
        requires
            old(self).wf(),
        ensures
            final(self).wf(),
            (final(self)@, r) == old(self)@.answer_settled(opt_text(item_id)),
    {
        if self.transcript.commit_assistant_stream() {
            self.committed_assistant_item_id = item_id;
            self.committed_assistant_for_current_turn = true;
            return true;
        }
        false
    }

    pub fn finalize_assistant_stream(&mut self, item_id: Option<String>) -> (r: bool)
        requires
            old(self).wf(),
        ensures
            final(self).wf(),
            (final(self)@, r) == old(self)@.settled(opt_text(item_id)),
    {
        self.finalize_reasoning_stream();
        self.commit_assistant_stream(item_id)
    }

    fn end_turn(&mut self)
        requires
            old(self).wf(),
        ensures
            final(self).wf(),
            final(self)@ == old(self)@.turn_ended(),
    {
        self.is_turn_running = false;
        self.is_turn_cancelling = false;
        self.running_tools.clear();
    }
}

// ---------------------------------------------------------------------------
// Transcript-select mode ends
// ---------------------------------------------------------------------------

impl ModelView {
    pub open spec fn select_left(self) -> ModelView {
        if self.mode == UiMode::TranscriptSelect {
            ModelView {
                select: None,
                mode: UiMode::Normal,
                focus: FocusTarget::Transcript,
                auto_scroll: self.scroll >= self.farthest(self.viewport),
                ..self
            }
        } else {
            ModelView { select: None, ..self }
        }
    }

    /// The transcript and everything that tells of it is emptied.
    pub open spec fn transcript_cleared(self) -> ModelView {
        let left = self.select_left();
        ModelView {
            transcript: left.transcript.cleared(),
            subagents: Seq::empty(),
            running_tools: Seq::empty(),
            recent: Seq::empty(),
            scroll: 0,
            auto_scroll: true,
            ..left
        }
    }

    pub open spec fn turn_forgotten(self) -> ModelView {
        ModelView {
            running: false,
            cancelling: false,
            turn: None,
            committed_assistant: None,
            committed_this_turn: false,
            committed_reasoning: None,
            in_flight_reasoning: None,
            plan_mode: false,
            ..self
        }
    }
}

impl UiModel {
    /// Leave transcript-select mode. Safe to call when not in it (no-op apart
    /// from clearing any stale selection state).
    pub fn exit_transcript_select(&mut self)
        requires
            old(self).wf(),
        ensures
            final(self).wf(),
            final(self)@ == old(self)@.select_left(),
    {
        self.transcript_select = None;
        if self.mode == UiMode::TranscriptSelect {
            self.mode = UiMode::Normal;
            self.focus = FocusTarget::Transcript;
            let max_scroll: u16 = self.max_scroll(self.viewport_height);
            self.auto_scroll = self.scroll >= max_scroll;
        }
    }

    pub fn clear_transcript(&mut self)
        requires
            old(self).wf(),
        ensures
            final(self).wf(),
            final(self)@ == old(self)@.transcript_cleared(),
    {
        self.exit_transcript_select();
        self.transcript.clear();
        self.subagent_tool_calls.clear();
        self.running_tools.clear();
        self.recent_file_changes.clear();
        self.scroll = 0;
        self.auto_scroll = true;
    }

    pub fn reset_turn_tracking(&mut self)
        requires
            old(self).wf(),
        ensures
            final(self).wf(),
            final(self)@ == old(self)@.turn_forgotten(),
    {
        self.is_turn_running = false;
        self.is_turn_cancelling = false;
        self.current_turn_id = None;
        self.committed_assistant_item_id = None;
        self.committed_assistant_for_current_turn = false;
        self.committed_reasoning_item_id = None;
        self.in_flight_reasoning_item_id = None;
        self.plan_mode = false;
    }
}

// ---------------------------------------------------------------------------
// Calls of tools
// ---------------------------------------------------------------------------

/// The rows of the first `n` of the changes, behind a transcript.
pub open spec fn with_patches(t: TranscriptView, changes: Seq<FileChangeOutput>, n: nat) -> TranscriptView
    decreases n,
{
    if n == 0 {
        t
    } else {
        with_patches(t, changes, (n - 1) as nat).with_item(
            KindView::Patch { change: changes[n - 1] },
        )
    }
}

/// The last 20 of the changes.
pub open spec fn latest(changes: Seq<FileChangeOutput>) -> Seq<FileChangeOutput> {
    if changes.len() > 20 {
        changes.skip(changes.len() - 20)
    } else {
        changes
    }
}

/// The files that a call changed.
pub open spec fn changed_files(tool: ToolCallCompletedEvent) -> Seq<FileChangeOutput> {
    if tool.file_changes@.len() > 0 {
        tool.file_changes@
    } else {
        match tool.file_change {
            Some(change) => seq![change],
            None => Seq::empty(),
        }
    }
}

impl TranscriptView {
    pub open spec fn untracked(self, call_id: Seq<char>) -> TranscriptView {
        TranscriptView { tool_rows: unfiled(self.tool_rows, call_id), ..self }
    }

    /// No further call joins the group at `i`.
    pub open spec fn group_closed(self, i: usize) -> TranscriptView {
        match self.pending {
            Some((at, name)) => if at == i {
                self.grouping_ended()
            } else {
                self
            },
            None => self,
        }
    }

    /// The number of calls that item `i` groups.
    pub open spec fn calls_at(self, i: usize) -> nat {
        if i < self.items.len() {
            self.items[i as int].kind.calls()
        } else {
            0
        }
    }

    /// A call becomes the changes that it made: a row that shows this call
    /// alone turns into the first of them.
    #[verifier::opaque]
    pub open spec fn call_patched(self, call_id: Seq<char>, changes: Seq<FileChangeOutput>) -> TranscriptView {
        match found(self.tool_rows, call_id) {
            None => with_patches(self, changes, changes.len()),
            Some((i, entry)) => {
                let t = self.untracked(call_id);
                if self.calls_at(i) == 1 {
                    with_patches(
                        t.patched(i as int, changes[0]).group_closed(i),
                        changes.skip(1),
                        (changes.len() - 1) as nat,
                    )
                } else {
                    with_patches(
                        t.call_ended(i as int, entry as int, ToolCallState::Success, None),
                        changes,
                        changes.len(),
                    )
                }
            },
        }
    }

    /// A call becomes the checklist that it wrote.
    #[verifier::opaque]
    pub open spec fn call_listed(self, call_id: Seq<char>, todos: Seq<TodoItem>) -> TranscriptView {
        match found(self.tool_rows, call_id) {
            None => self.with_item(KindView::TodoList { todos }),
            Some((i, entry)) => {
                let t = self.untracked(call_id);
                if self.calls_at(i) == 1 {
                    t.listed(i as int, todos).listed(i as int, todos).group_closed(i)
                } else {
                    t.call_ended(
                        i as int,
                        entry as int,
                        ToolCallState::Success,
                        None,
                    ).with_item(KindView::TodoList { todos })
                }
            },
        }
    }
}

/// How a subagent's call stands once the subagent has that status.
pub open spec fn subagent_outcome(status: AgentStatus) -> (ToolCallState, Option<Seq<char>>) {
    match status {
        AgentStatus::Completed(_) => (ToolCallState::Success, None),
        AgentStatus::Errored(error) => (ToolCallState::Failure, Some(error.message@)),
        AgentStatus::Interrupted => (ToolCallState::Failure, Some("interrupted"@)),
        AgentStatus::Shutdown => (ToolCallState::Failure, Some("shutdown"@)),
        AgentStatus::NotFound => (ToolCallState::Failure, Some("not found"@)),
        AgentStatus::PendingInit => (ToolCallState::Running, None),
        AgentStatus::Running => (ToolCallState::Running, None),
    }
}

impl ModelView {
    pub open spec fn call_started(self, tool: ToolCallStartedEvent) -> ModelView {
        let m = self.settled(None).0;
        ModelView {
            transcript: m.transcript.call_started(
                tool.call_id@,
                tool.tool_name@,
                tool.args_preview@,
            ),
            running_tools: filed(
                m.running_tools,
                tool.call_id@,
                RunningToolInfo { tool_name: tool.tool_name, args_preview: tool.args_preview },
            ),
            ..m
        }
    }

    pub open spec fn call_related(self, call_id: Seq<char>, thread: Option<ThreadId>) -> ModelView {
        match (found(self.transcript.tool_rows, call_id), thread) {
            (Some((i, entry)), Some(id)) => self.with_transcript(
                self.transcript.call_related(i as int, entry as int, id@),
            ),
            _ => self,
        }
    }

    /// A call goes on in the background.
    pub open spec fn call_running(self, tool: ToolCallCompletedEvent) -> ModelView {
        let m = match tool.related_thread_id {
            Some(id) => ModelView {
                subagents: filed(self.subagents, id@, tool.call_id),
                ..self
            },
            None => self,
        };
        match found(m.transcript.tool_rows, tool.call_id@) {
            Some((i, entry)) => m.with_transcript(
                m.transcript.call_ended(i as int, entry as int, ToolCallState::Running, None),
            ),
            None => m,
        }
    }

    /// A call ended and shows as such.
    pub open spec fn call_shown(self, tool: ToolCallCompletedEvent) -> ModelView {
        match found(self.transcript.tool_rows, tool.call_id@) {
            Some((i, entry)) => self.with_transcript(
                self.transcript.untracked(tool.call_id@).call_finished(
                    i as int,
                    entry as int,
                    opt_text(tool.output_preview),
                    call_state(tool),
                    call_error(tool),
                ),
            ),
            None => match call_error(tool) {
                Some(error) => self.with_error(
                    "tool "@ + tool.call_id@ + " failed: "@ + error,
                ),
                None => self.with_info("tool "@ + tool.call_id@ + " completed"@),
            },
        }
    }

    /// A call shows as the changes that it made, where there are any.
    pub open spec fn with_changes_shown(
        self,
        call_id: Seq<char>,
        changes: Seq<FileChangeOutput>,
    ) -> (ModelView, bool) {
        if changes.len() == 0 {
            (self, false)
        } else {
            (
                ModelView {
                    recent: latest(self.recent + changes),
                    transcript: self.transcript.call_patched(call_id, changes),
                    ..self
                },
                true,
            )
        }
    }

    /// A call shows as the checklist that it wrote, where it has any entry.
    pub open spec fn with_todos_shown(self, call_id: Seq<char>, todos: Seq<TodoItem>) -> (
        ModelView,
        bool,
    ) {
        if todos.len() == 0 {
            (self, false)
        } else {
            (self.with_transcript(self.transcript.call_listed(call_id, todos)), true)
        }
    }

    #[verifier::opaque]
    pub open spec fn call_completed(self, tool: ToolCallCompletedEvent) -> ModelView {
        let m = self.settled(None).0.call_related(tool.call_id@, tool.related_thread_id);
        if tool.result_kind == ToolCallResultKind::StatusUpdate && tool.success {
            m.call_running(tool)
        } else {
            let ended = ModelView {
                running_tools: unfiled(m.running_tools, tool.call_id@),
                ..m
            };
            if tool.success && tool.todos@.len() > 0 {
                ended.with_todos_shown(tool.call_id@, tool.todos@).0
            } else if tool.success && changed_files(tool).len() > 0 {
                ended.with_changes_shown(tool.call_id@, changed_files(tool)).0
            } else {
                ended.call_shown(tool)
            }
        }
    }

    #[verifier::opaque]
    pub open spec fn subagent_completed(self, child: Seq<char>, status: AgentStatus) -> ModelView {
        match found(self.subagents, child) {
            Some(call_id) => {
                let m = ModelView {
                    subagents: unfiled(self.subagents, child),
                    running_tools: unfiled(self.running_tools, call_id@),
                    ..self
                };
                match found(m.transcript.tool_rows, call_id@) {
                    Some((i, entry)) => m.with_transcript(
                        m.transcript.untracked(call_id@).call_ended(
                            i as int,
                            entry as int,
                            subagent_outcome(status).0,
                            subagent_outcome(status).1,
                        ),
                    ),
                    None => m,
                }
            },
            None => self,
        }
    }
}

impl UiModel {
    fn relate_call(&mut self, call_id: &str, thread_id: &Option<ThreadId>)
        requires
            old(self).wf(),
        ensures
            final(self).wf(),
            final(self)@ == old(self)@.call_related(call_id@, *thread_id),
    {
        match (self.transcript.call_row(call_id), thread_id) {
            (Some((cell_idx, entry_idx)), Some(id)) => {
                self.transcript.relate_call(cell_idx, entry_idx, id.duplicate());
            },
            _ => {},
        }
    }

    fn apply_tool_started(&mut self, tool: &ToolCallStartedEvent)
        requires
            old(self).wf(),
        ensures
            final(self).wf(),
            final(self)@ == old(self)@.call_started(*tool),
    {
        self.finalize_assistant_stream(None);
        self.running_tools.insert(
            tool.call_id.clone(),
            RunningToolInfo {
                tool_name: tool.tool_name.clone(),
                args_preview: tool.args_preview.clone(),
            },
        );
        self.transcript.start_call(
            tool.call_id.as_str(),
            tool.tool_name.as_str(),
            tool.args_preview.as_str(),
        );
    }

    fn push_patches(&mut self, changes: &Vec<FileChangeOutput>, from: usize)
        requires
            old(self).wf(),
            from <= changes@.len(),
        ensures
            final(self).wf(),
            final(self)@ == old(self)@.with_transcript(
                with_patches(
                    old(self)@.transcript,
                    changes@.skip(from as int),
                    (changes@.len() - from) as nat,
                ),
            ),
    {
        let ghost rest = changes@.skip(from as int);
        let ghost before = self@;
        let mut i: usize = from;
        while i < changes.len()
            invariant
                self.wf(),
                from <= i <= changes@.len(),
                rest == changes@.skip(from as int),
                self@ == before.with_transcript(
                    with_patches(before.transcript, rest, (i - from) as nat),
                ),
            decreases changes@.len() - i,
        {
            assert(rest[i - from] == changes@[i as int]);
            self.transcript.push_patch(changes[i].duplicate());
            i += 1;
        }
    }

    fn note_changes(&mut self, changes: &Vec<FileChangeOutput>)
        requires
            old(self).wf(),
        ensures
            final(self).wf(),
            final(self)@ == (ModelView {
                recent: latest(old(self)@.recent + changes@),
                ..old(self)@
            }),
    {
        let ghost before = self@;
        let mut i: usize = 0;
        assert(before.recent + changes@.take(0) =~= before.recent);
        while i < changes.len()
            invariant
                self.wf(),
                i <= changes@.len(),
                self@ == (ModelView {
                    recent: before.recent + changes@.take(i as int),
                    ..before
                }),
            decreases changes@.len() - i,
        {
            self.recent_file_changes.push(changes[i].duplicate());
            assert(before.recent + changes@.take(i + 1) =~= (before.recent + changes@.take(
                i as int,
            )).push(changes@[i as int]));
            i += 1;
        }
        let ghost all = before.recent + changes@;
        assert(changes@.take(i as int) =~= changes@);
        assert(all.skip(0) =~= all);
        while self.recent_file_changes.len() > 20
            invariant
                self.wf(),
                self.recent_file_changes@.len() <= all.len(),
                all.len() > 20 ==> self.recent_file_changes@.len() >= 20,
                all.len() <= 20 ==> self.recent_file_changes@.len() == all.len(),
                self@ == (ModelView {
                    recent: all.skip(all.len() - self.recent_file_changes@.len()),
                    ..before
                }),
            decreases self.recent_file_changes@.len(),
        {
            let ghost now = self.recent_file_changes@;
            self.recent_file_changes.remove(0);
            assert(self.recent_file_changes@ =~= all.skip(
                all.len() - self.recent_file_changes@.len(),
            ));
        }
        assert(self@.recent =~= latest(all));
    }

    /// Turns a call into the changes that it made; says whether there were any.
    pub fn replace_tool_call_with_file_changes(
        &mut self,
        call_id: &str,
        file_changes: &Vec<FileChangeOutput>,
    ) -> (r: bool)
        requires
            old(self).wf(),
        ensures
            final(self).wf(),
            (final(self)@, r) == old(self)@.with_changes_shown(call_id@, file_changes@),
    {
        reveal(TranscriptView::call_patched);
        if file_changes.len() == 0 {
            return false;
        }
        self.note_changes(file_changes);
        assert(file_changes@.skip(0) =~= file_changes@);
        match self.transcript.untrack_call(call_id) {
            None => {
                proof {
                    crate::text_map::lemma_place(self@.transcript.tool_rows, call_id@, 0);
                }
                self.push_patches(file_changes, 0);
            },
            Some((cell_idx, entry_idx)) => {
                if self.calls_at(cell_idx) == 1 {
                    self.transcript.replace_with_patch(cell_idx, file_changes[0].duplicate());
                    self.close_group(cell_idx);
                    self.push_patches(file_changes, 1);
                } else {
                    self.transcript.end_call(cell_idx, entry_idx, ToolCallState::Success, None);
                    self.push_patches(file_changes, 0);
                }
            },
        }
        true
    }

    fn calls_at(&self, idx: usize) -> (r: usize)
        ensures
            r == self@.transcript.calls_at(idx),
    {
        if idx < self.transcript.items.len() {
            assert(self@.transcript.items[idx as int] == self.transcript.items@[idx as int]@);
            self.transcript.items[idx].call_count()
        } else {
            0
        }
    }

    fn close_group(&mut self, idx: usize)
        requires
            old(self).wf(),
        ensures
            final(self).wf(),
            final(self)@ == old(self)@.with_transcript(old(self)@.transcript.group_closed(idx)),
    {
        let open: bool = match &self.transcript.pending_tool_group {
            Some((at, _)) => *at == idx,
            None => false,
        };
        if open {
            self.transcript.end_grouping();
        }
    }

    /// Turns a call into the checklist that it wrote; says whether there was
    /// anything on it.
    pub fn replace_tool_call_with_todo_list(&mut self, call_id: &str, todos: &Vec<TodoItem>) -> (r:
        bool)
        requires
            old(self).wf(),
        ensures
            final(self).wf(),
            (final(self)@, r) == old(self)@.with_todos_shown(call_id@, todos@),
    {
        reveal(TranscriptView::call_listed);
        if todos.len() == 0 {
            return false;
        }
        match self.transcript.untrack_call(call_id) {
            None => {
                proof {
                    crate::text_map::lemma_place(self@.transcript.tool_rows, call_id@, 0);
                }
                self.transcript.push_todo_list(dup_todos(todos));
            },
            Some((cell_idx, entry_idx)) => {
                if self.calls_at(cell_idx) == 1 {
                    self.transcript.replace_with_todos(cell_idx, dup_todos(todos));
                    self.transcript.replace_with_todos(cell_idx, dup_todos(todos));
                    self.close_group(cell_idx);
                } else {
                    self.transcript.end_call(cell_idx, entry_idx, ToolCallState::Success, None);
                    self.transcript.push_todo_list(dup_todos(todos));
                }
            },
        }
        true
    }

    fn apply_tool_running(&mut self, tool: &ToolCallCompletedEvent)
        requires
            old(self).wf(),
        ensures
            final(self).wf(),
            final(self)@ == old(self)@.call_running(*tool),
    {
        match &tool.related_thread_id {
            Some(id) => {
                self.subagent_tool_calls.insert(id.text.clone(), tool.call_id.clone());
            },
            None => {},
        }
        match self.transcript.call_row(tool.call_id.as_str()) {
            Some((cell_idx, entry_idx)) => {
                self.transcript.end_call(cell_idx, entry_idx, ToolCallState::Running, None);
            },
            None => {},
        }
    }

    fn show_call(&mut self, tool: &ToolCallCompletedEvent)
        requires
            old(self).wf(),
        ensures
            final(self).wf(),
            final(self)@ == old(self)@.call_shown(*tool),
    {
        let state: ToolCallState = if tool.success {
            ToolCallState::Success
        } else {
            ToolCallState::Failure
        };
        let error: Option<String> = call_failure(tool);
        let ghost rows = self@.transcript.tool_rows;
        match self.transcript.untrack_call(tool.call_id.as_str()) {
            Some((cell_idx, entry_idx)) => {
                self.transcript.finish_call(
                    cell_idx,
                    entry_idx,
                    dup_text(&tool.output_preview),
                    state,
                    error,
                );
            },
            None => {
                assert(unfiled(rows, tool.call_id@) == rows);
                match error {
                    Some(error) => {
                        let message: String = failure_notice(
                            tool.call_id.as_str(),
                            error.as_str(),
                        );
                        self.push_error(message.as_str());
                    },
                    None => {
                        let mut message: String = owned("tool ");
                        message.push_str(tool.call_id.as_str());
                        message.push_str(" completed");
                        self.push_info(message.as_str());
                    },
                }
            },
        }
    }

    fn apply_tool_completed(&mut self, tool: &ToolCallCompletedEvent)
        requires
            old(self).wf(),
        ensures
            final(self).wf(),
            final(self)@ == old(self)@.call_completed(*tool),
    {
        reveal(ModelView::call_completed);
        self.finalize_assistant_stream(None);
        // Record the spawned child on the tool row (both the live StatusUpdate
        // and the fast-finish Final paths carry it), so Enter can resolve the
        // row to a subagent session later.
        self.relate_call(tool.call_id.as_str(), &tool.related_thread_id);
        if tool.result_kind == ToolCallResultKind::StatusUpdate && tool.success {
            self.apply_tool_running(tool);
            return;
        }
        self.running_tools.remove(tool.call_id.as_str());
        let handled_structured: bool = if tool.success {
            if tool.todos.len() == 0 {
                let changes: Vec<FileChangeOutput> = files_of(tool);
                self.replace_tool_call_with_file_changes(tool.call_id.as_str(), &changes)
            } else {
                self.replace_tool_call_with_todo_list(tool.call_id.as_str(), &tool.todos)
            }
        } else {
            false
        };
        if !handled_structured {
            self.show_call(tool);
        }
    }

    pub fn complete_subagent_tool_call(&mut self, child_thread_id: &ThreadId, status: &AgentStatus)
        requires
            old(self).wf(),
        ensures
            final(self).wf(),
            final(self)@ == old(self)@.subagent_completed(child_thread_id@, *status),
    {
        reveal(ModelView::subagent_completed);
        match self.subagent_tool_calls.remove(child_thread_id.text.as_str()) {
            Some(call_id) => {
                self.running_tools.remove(call_id.as_str());
                let ghost rows = self@.transcript.tool_rows;
                match self.transcript.untrack_call(call_id.as_str()) {
                    Some((cell_idx, entry_idx)) => {
                        let (state, error): (ToolCallState, Option<String>) = match status {
                            AgentStatus::Completed(_) => (ToolCallState::Success, None),
                            AgentStatus::Errored(error) => (
                                ToolCallState::Failure,
                                Some(error.message.clone()),
                            ),
                            AgentStatus::Interrupted => (
                                ToolCallState::Failure,
                                Some(owned("interrupted")),
                            ),
                            AgentStatus::Shutdown => (
                                ToolCallState::Failure,
                                Some(owned("shutdown")),
                            ),
                            AgentStatus::NotFound => (
                                ToolCallState::Failure,
                                Some(owned("not found")),
                            ),
                            AgentStatus::PendingInit | AgentStatus::Running => (
                                ToolCallState::Running,
                                None,
                            ),
                        };
                        self.transcript.end_call(cell_idx, entry_idx, state, error);
                    },
                    None => {
                        assert(unfiled(rows, call_id@) == rows);
                    },
                }
            },
            None => {},
        }
    }
}

/// The files that a call changed.
fn files_of(tool: &ToolCallCompletedEvent) -> (r: Vec<FileChangeOutput>)
    ensures
        r@ == changed_files(*tool),
{
    let mut out: Vec<FileChangeOutput> = Vec::new();
    if tool.file_changes.len() > 0 {
        let mut i: usize = 0;
        while i < tool.file_changes.len()
            invariant
                i <= tool.file_changes@.len(),
                out@ =~= tool.file_changes@.take(i as int),
            decreases tool.file_changes@.len() - i,
        {
            out.push(tool.file_changes[i].duplicate());
            i += 1;
        }
    } else {
        match &tool.file_change {
            Some(change) => out.push(change.duplicate()),
            None => {},
        }
    }
    assert(out@ =~= changed_files(*tool));
    out
}

// ---------------------------------------------------------------------------
// Events
// ---------------------------------------------------------------------------

impl ModelView {
    #[verifier::opaque]
    pub open spec fn configured(self, thread_id: ThreadRef) -> ModelView {
        let m = self.reasoning_settled().0;
        match thread_id.parsed {
            Ok(id) => (ModelView {
                thread: Some(id@),
                screen: Screen::Workspace,
                ..m
            }).with_info("Session configured for thread "@ + thread_id.text@),
            Err(reason) => m.with_error("Invalid configured thread id: "@ + reason@),
        }
    }

    #[verifier::opaque]
    pub open spec fn turn_started(self, turn_id: Seq<char>) -> ModelView {
        ModelView {
            running: true,
            cancelling: false,
            transcript: (TranscriptView {
                tool_rows: Seq::empty(),
                ..self.transcript
            }).grouping_ended(),
            subagents: Seq::empty(),
            running_tools: Seq::empty(),
            turn: Some(turn_id),
            committed_assistant: None,
            committed_this_turn: false,
            committed_reasoning: None,
            in_flight_reasoning: None,
            status: "Running turn "@ + turn_id,
            ..self
        }
    }

    /// An answer that no stream brought, where the turn has none yet.
    pub open spec fn answered(self, text: Seq<char>) -> ModelView {
        if self.committed_this_turn {
            self
        } else {
            ModelView {
                transcript: self.transcript.with_assistant_text(text),
                committed_this_turn: true,
                ..self
            }
        }
    }

    #[verifier::opaque]
    pub open spec fn turn_completed(self, turn_id: Seq<char>, message: Option<String>) -> ModelView {
        let (settled, committed) = self.settled(None);
        let m = settled.turn_ended().saying("Completed turn "@ + turn_id);
        match message {
            Some(text) => if committed {
                m
            } else {
                m.answered(text@)
            },
            None => m,
        }
    }

    #[verifier::opaque]
    pub open spec fn turn_interrupted(self, turn_id: Seq<char>, reason: Seq<char>) -> ModelView {
        let closed = ModelView {
            picker: None,
            approval: None,
            ..self.settled(None).0.turn_ended()
        };
        let left = closed.select_left();
        let back = if left.mode == UiMode::Overlay {
            ModelView { mode: UiMode::Normal, focus: FocusTarget::Transcript, ..left }
        } else {
            left
        };
        back.with_info("Turn "@ + turn_id + " interrupted: "@ + reason).saying("Interrupted"@)
    }

    #[verifier::opaque]
    pub open spec fn answer_completed(self, item_id: Seq<char>, text: Seq<char>) -> ModelView {
        let (m, committed) = self.settled(Some(item_id));
        if committed || m.committed_assistant == Some(item_id) {
            m
        } else {
            ModelView {
                transcript: m.transcript.with_assistant_text(text),
                committed_assistant: Some(item_id),
                committed_this_turn: true,
                ..m
            }
        }
    }

    #[verifier::opaque]
    pub open spec fn reasoning_completed(self, item_id: Seq<char>, text: Seq<char>) -> ModelView {
        let open = self.with_transcript(self.transcript.grouping_ended());
        if open.committed_reasoning == Some(item_id) {
            open
        } else {
            let (m, committed) = open.reasoning_settled();
            if committed {
                m
            } else {
                ModelView {
                    transcript: m.transcript.with_reasoning_text(text),
                    committed_reasoning: Some(item_id),
                    ..m
                }
            }
        }
    }

    #[verifier::opaque]
    pub open spec fn plan_mode_told(self, enabled: bool) -> ModelView {
        let m = if self.plan_mode == enabled {
            self
        } else if enabled {
            self.with_info(
                "plan mode enabled — file mutations are locked while the agent plans"@,
            )
        } else {
            self.with_info("plan mode disabled — agent back to the full tool set"@)
        };
        ModelView { plan_mode: enabled, ..m }
    }

    /// The model after an event of its session.
    #[verifier::opaque]
    pub open spec fn event(self, msg: EventMsg) -> ModelView {
        match msg {
            EventMsg::SessionConfigured { thread_id } => self.configured(thread_id),
            EventMsg::TurnStarted { turn_id } => self.turn_started(turn_id@),
            EventMsg::TurnCompleted { turn_id, last_assistant_message } => self.turn_completed(
                turn_id@,
                last_assistant_message,
            ),
            EventMsg::TurnInterrupted { turn_id, reason } => self.turn_interrupted(
                turn_id@,
                reason@,
            ),
            EventMsg::AgentStatusChanged { status } => self.saying(
                "Status: "@ + status_label(status),
            ),
            EventMsg::UserMessage { text } => {
                let m = self.reasoning_settled().0;
                m.with_transcript(m.transcript.with_item(KindView::User { message: text@ }))
            },
            EventMsg::AgentMessage { text } => self.reasoning_settled().0.answered(text@),
            EventMsg::AgentMessageDelta { item_id, delta } => self.with_transcript(
                self.transcript.assistant_streamed(delta@, self.terminal_width),
            ),
            EventMsg::AgentMessageCompleted { item_id, text } => self.answer_completed(
                item_id@,
                text@,
            ),
            EventMsg::AgentReasoningDelta { item_id, delta } => ModelView {
                transcript: self.transcript.reasoning_streamed(delta@, self.terminal_width),
                in_flight_reasoning: Some(item_id@),
                ..self
            },
            EventMsg::AgentReasoningCompleted { item_id, text } => self.reasoning_completed(
                item_id@,
                text@,
            ),
            EventMsg::ToolCallStarted(tool) => self.call_started(tool),
            EventMsg::ToolCallCompleted(tool) => self.call_completed(tool),
            EventMsg::Error { error } => self.settled(None).0.with_error(
                error.message@,
            ).turn_ended().saying("Error"@),
            EventMsg::StreamError { message } => self.settled(None).0.with_info(message@),
            EventMsg::CollabAgentSpawnBegin { call_id } => self,
            EventMsg::CollabAgentSpawnEnd { call_id, new_thread_id } => self.call_related(
                call_id@,
                new_thread_id,
            ),
            EventMsg::CollabAgentCompleted(event) => self.subagent_completed(
                event.child_thread_id@,
                event.status,
            ),
            EventMsg::CollabResumeBegin { call_id } => self,
            EventMsg::CollabResumeEnd { call_id } => self,
            EventMsg::PlanModeChanged { enabled } => self.plan_mode_told(enabled),
        }
    }
}

impl ModelView {
    /// The model after the first `n` of the events.
    pub open spec fn events(self, msgs: Seq<EventMsg>, n: nat) -> ModelView
        decreases n,
    {
        if n == 0 {
            self
        } else {
            self.events(msgs, (n - 1) as nat).event(msgs[n - 1])
        }
    }
}

/// A prefix and a text.
pub fn prefixed(prefix: &str, text: &str) -> (r: String)
    ensures
        r@ == prefix@ + text@,
{
    let mut out: String = owned(prefix);
    out.push_str(text);
    out
}

impl UiModel {
    fn apply_configured(&mut self, thread_id: &ThreadRef)
        requires
            old(self).wf(),
        ensures
            final(self).wf(),
            final(self)@ == old(self)@.configured(*thread_id),
    {
        reveal(ModelView::configured);
        self.finalize_reasoning_stream();
        match &thread_id.parsed {
            Ok(id) => {
                self.current_thread_id = Some(id.duplicate());
                self.screen = Screen::Workspace;
                let message: String = prefixed(
                    "Session configured for thread ",
                    thread_id.text.as_str(),
                );
                self.push_info(message.as_str());
            },
            Err(reason) => {
                let message: String = prefixed("Invalid configured thread id: ", reason.as_str());
                self.push_error(message.as_str());
            },
        }
    }

    fn apply_turn_started(&mut self, turn_id: &String)
        requires
            old(self).wf(),
        ensures
            final(self).wf(),
            final(self)@ == old(self)@.turn_started(turn_id@),
    {
        reveal(ModelView::turn_started);
        self.is_turn_running = true;
        self.is_turn_cancelling = false;
        self.transcript.untrack_all();
        self.subagent_tool_calls.clear();
        self.running_tools.clear();
        self.transcript.end_grouping();
        self.current_turn_id = Some(turn_id.clone());
        self.committed_assistant_item_id = None;
        self.committed_assistant_for_current_turn = false;
        self.committed_reasoning_item_id = None;
        self.in_flight_reasoning_item_id = None;
        self.status_line = prefixed("Running turn ", turn_id.as_str());
    }

    fn apply_answer(&mut self, text: &str)
        requires
            old(self).wf(),
        ensures
            final(self).wf(),
            final(self)@ == old(self)@.answered(text@),
    {
        if !self.committed_assistant_for_current_turn {
            let width: u16 = self.terminal_width;
            self.transcript.push_rendered_assistant_message(text, width);
            self.committed_assistant_for_current_turn = true;
        }
    }

    fn apply_turn_completed(&mut self, turn_id: &str, message: &Option<String>)
        requires
            old(self).wf(),
        ensures
            final(self).wf(),
            final(self)@ == old(self)@.turn_completed(turn_id@, *message),
    {
        reveal(ModelView::turn_completed);
        let committed_from_stream: bool = self.finalize_assistant_stream(None);
        self.end_turn();
        self.status_line = prefixed("Completed turn ", turn_id);
        match message {
            Some(text) => {
                if !committed_from_stream {
                    self.apply_answer(text.as_str());
                }
            },
            None => {},
        }
    }

    fn apply_turn_interrupted(&mut self, turn_id: &str, reason: &str)
        requires
            old(self).wf(),
        ensures
            final(self).wf(),
            final(self)@ == old(self)@.turn_interrupted(turn_id@, reason@),
    {
        reveal(crate::ui::picker_ok);
        reveal(crate::ui::overlay_ok);
        reveal(ModelView::turn_interrupted);
        self.finalize_assistant_stream(None);
        self.end_turn();
        self.question_picker = None;
        self.plan_approval = None;
        self.exit_transcript_select();
        if self.mode == UiMode::Overlay {
            self.mode = UiMode::Normal;
            self.focus = FocusTarget::Transcript;
        }
        let mut message: String = prefixed("Turn ", turn_id);
        message.push_str(" interrupted: ");
        message.push_str(reason);
        self.push_info(message.as_str());
        self.set_status("Interrupted");
    }

    fn apply_answer_completed(&mut self, item_id: &String, text: &str)
        requires
            old(self).wf(),
        ensures
            final(self).wf(),
            final(self)@ == old(self)@.answer_completed(item_id@, text@),
    {
        reveal(ModelView::answer_completed);
        let committed_from_stream: bool = self.finalize_assistant_stream(Some(item_id.clone()));
        if !committed_from_stream && !is_text(
            &self.committed_assistant_item_id,
            item_id.as_str(),
        ) {
            let width: u16 = self.terminal_width;
            self.transcript.push_rendered_assistant_message(text, width);
            self.committed_assistant_item_id = Some(item_id.clone());
            self.committed_assistant_for_current_turn = true;
        }
    }

    fn apply_reasoning_completed(&mut self, item_id: &String, text: &str)
        requires
            old(self).wf(),
        ensures
            final(self).wf(),
            final(self)@ == old(self)@.reasoning_completed(item_id@, text@),
    {
        reveal(ModelView::reasoning_completed);
        self.transcript.end_grouping();
        if !is_text(&self.committed_reasoning_item_id, item_id.as_str()) {
            if !self.finalize_reasoning_stream() {
                let width: u16 = self.terminal_width;
                self.transcript.push_rendered_reasoning_message(text, width);
                self.committed_reasoning_item_id = Some(item_id.clone());
            }
        }
    }

    fn apply_plan_mode(&mut self, enabled: bool)
        requires
            old(self).wf(),
        ensures
            final(self).wf(),
            final(self)@ == old(self)@.plan_mode_told(enabled),
    {
        reveal(ModelView::plan_mode_told);
        // Resume replays historical PlanModeChanged events to restore the
        // badge; only narrate actual state changes.
        if self.plan_mode != enabled {
            if enabled {
                self.push_info(
                    "plan mode enabled — file mutations are locked while the agent plans",
                );
            } else {
                self.push_info("plan mode disabled — agent back to the full tool set");
            }
        }
        self.plan_mode = enabled;
    }

    /// Applies an event of the session.
    pub fn apply_protocol_event(&mut self, event: &SessionEvent)
        requires
            old(self).wf(),
        ensures
            final(self).wf(),
            final(self)@ == old(self)@.event(event.msg),
    {
        self.apply_event_msg(&event.msg);
    }

    /// Applies what an event tells.
    #[verifier::rlimit(40)]
    pub fn apply_event_msg(&mut self, msg: &EventMsg)
        requires
            old(self).wf(),
        ensures
            final(self).wf(),
            final(self)@ == old(self)@.event(*msg),
    {
        reveal(ModelView::event);
        let width: u16 = self.terminal_width;
        match msg {
            EventMsg::SessionConfigured { thread_id } => self.apply_configured(thread_id),
            EventMsg::TurnStarted { turn_id } => self.apply_turn_started(turn_id),
            EventMsg::TurnCompleted { turn_id, last_assistant_message } => {
                self.apply_turn_completed(turn_id.as_str(), last_assistant_message);
            },
            EventMsg::TurnInterrupted { turn_id, reason } => {
                self.apply_turn_interrupted(turn_id.as_str(), reason.as_str());
            },
            EventMsg::AgentStatusChanged { status } => {
                let label: String = agent_status_label(status);
                self.status_line = prefixed("Status: ", label.as_str());
            },
            EventMsg::UserMessage { text } => {
                self.finalize_reasoning_stream();
                self.transcript.push_user(text.as_str());
            },
            EventMsg::AgentMessage { text } => {
                self.finalize_reasoning_stream();
                self.apply_answer(text.as_str());
            },
            EventMsg::AgentMessageDelta { item_id, delta } => {
                self.transcript.handle_assistant_delta(delta.as_str(), width);
            },
            EventMsg::AgentMessageCompleted { item_id, text } => {
                self.apply_answer_completed(item_id, text.as_str());
            },
            EventMsg::AgentReasoningDelta { item_id, delta } => {
                self.transcript.handle_reasoning_delta(delta.as_str(), width);
                self.in_flight_reasoning_item_id = Some(item_id.clone());
            },
            EventMsg::AgentReasoningCompleted { item_id, text } => {
                self.apply_reasoning_completed(item_id, text.as_str());
            },
            EventMsg::ToolCallStarted(tool) => self.apply_tool_started(tool),
            EventMsg::ToolCallCompleted(tool) => self.apply_tool_completed(tool),
            EventMsg::Error { error } => {
                self.finalize_assistant_stream(None);
                self.push_error(error.message.as_str());
                self.end_turn();
                self.set_status("Error");
            },
            EventMsg::StreamError { message } => {
                self.finalize_assistant_stream(None);
                self.push_info(message.as_str());
            },
            EventMsg::CollabAgentSpawnBegin { call_id } => {},
            EventMsg::CollabAgentSpawnEnd { call_id, new_thread_id } => {
                self.relate_call(call_id.as_str(), new_thread_id);
            },
            EventMsg::CollabAgentCompleted(completed) => {
                self.complete_subagent_tool_call(&completed.child_thread_id, &completed.status);
            },
            EventMsg::CollabResumeBegin { call_id } => {},
            EventMsg::CollabResumeEnd { call_id } => {},
            EventMsg::PlanModeChanged { enabled } => self.apply_plan_mode(*enabled),
        }
    }
}

// ---------------------------------------------------------------------------
// Laws
// ---------------------------------------------------------------------------

/// An answer is shown once: telling it again adds no row.
pub proof fn answers_are_shown_once(model: ModelView, item_id: String, text: String, again: String)
    ensures
        ({
            let told = model.event(EventMsg::AgentMessageCompleted { item_id, text });
            let twice = told.event(EventMsg::AgentMessageCompleted { item_id, text: again });
            &&& told.committed_assistant == Some(item_id@)
            &&& twice.transcript.items == told.transcript.items
        }),
{
    reveal(ModelView::event);
    reveal(ModelView::answer_completed);
    reveal(TranscriptView::assistant_committed);
    reveal(TranscriptView::reasoning_committed);
    reveal(TranscriptView::with_item);
}

/// Once the turn has its answer, the summary of the turn and late answers
/// without a stream add no row.
pub proof fn settled_turns_add_no_answer(
    model: ModelView,
    turn_id: String,
    message: Option<String>,
    text: String,
)
    requires
        model.committed_this_turn,
        model.transcript.assistant is None,
        model.transcript.active_assistant is None,
        model.transcript.reasoning is None,
        model.transcript.active_reasoning is None,
    ensures
        model.event(
            EventMsg::TurnCompleted { turn_id, last_assistant_message: message },
        ).transcript.items == model.transcript.items,
        model.event(EventMsg::AgentMessage { text }).transcript.items == model.transcript.items,
{
    reveal(ModelView::event);
    reveal(ModelView::turn_completed);
    reveal(TranscriptView::assistant_committed);
    reveal(TranscriptView::reasoning_committed);
}

/// Reasoning is shown once: telling it again adds no row.
pub proof fn reasoning_is_shown_once(model: ModelView, item_id: String, text: String, again: String)
    requires
        model.in_flight_reasoning is None || model.in_flight_reasoning == Some(item_id@),
        model.transcript.reasoning is None || model.in_flight_reasoning is Some,
    ensures
        ({
            let told = model.event(EventMsg::AgentReasoningCompleted { item_id, text });
            let twice = told.event(EventMsg::AgentReasoningCompleted { item_id, text: again });
            twice.transcript.items == told.transcript.items
        }),
{
    reveal(ModelView::event);
    reveal(ModelView::reasoning_completed);
    reveal(TranscriptView::reasoning_committed);
    reveal(TranscriptView::with_item);
}

/// Only a turn that runs is being cancelled, whatever event comes in.
pub proof fn only_running_turns_are_cancelled(model: ModelView, msg: EventMsg)
    requires
        model.cancelling ==> model.running,
    ensures
        model.event(msg).cancelling ==> model.event(msg).running,
{
    reveal(ModelView::event);
    reveal(ModelView::configured);
    reveal(ModelView::turn_started);
    reveal(ModelView::turn_completed);
    reveal(ModelView::turn_interrupted);
    reveal(ModelView::answer_completed);
    reveal(ModelView::reasoning_completed);
    reveal(ModelView::plan_mode_told);
    reveal(ModelView::call_completed);
    reveal(ModelView::subagent_completed);
}

/// No more than the latest changes are kept, whatever event comes in.
pub proof fn recent_changes_are_bounded(model: ModelView, msg: EventMsg)
    requires
        model.recent.len() <= 20,
    ensures
        model.event(msg).recent.len() <= 20,
{
    reveal(ModelView::event);
    reveal(ModelView::configured);
    reveal(ModelView::turn_started);
    reveal(ModelView::turn_completed);
    reveal(ModelView::turn_interrupted);
    reveal(ModelView::answer_completed);
    reveal(ModelView::reasoning_completed);
    reveal(ModelView::plan_mode_told);
    reveal(ModelView::call_completed);
    reveal(ModelView::subagent_completed);
}

/// Every row under which a call is kept is below `n`.
pub open spec fn rows_below(rows: Seq<(Seq<char>, (usize, usize))>, n: nat) -> bool {
    forall|k: int| 0 <= k < rows.len() ==> (#[trigger] rows[k]).1.0 < n
}

impl TranscriptView {
    /// The calls that are kept, and the group that takes further calls, have
    /// rows of the transcript.
    pub open spec fn calls_have_rows(self) -> bool {
        rows_below(self.tool_rows, self.items.len()) && match self.pending {
            Some((i, _)) => i < self.items.len(),
            None => true,
        }
    }
}

proof fn lemma_filed_below(
    rows: Seq<(Seq<char>, (usize, usize))>,
    call_id: Seq<char>,
    row: (usize, usize),
    n: nat,
)
    requires
        rows_below(rows, n),
        row.0 < n,
    ensures
        rows_below(filed(rows, call_id, row), n),
{
    lemma_place(rows, call_id, 0);
}

proof fn lemma_unfiled_below(rows: Seq<(Seq<char>, (usize, usize))>, call_id: Seq<char>, n: nat)
    requires
        rows_below(rows, n),
    ensures
        rows_below(unfiled(rows, call_id), n),
{
    lemma_place(rows, call_id, 0);
    let after = unfiled(rows, call_id);
    assert forall|k: int| 0 <= k < after.len() implies (#[trigger] after[k]).1.0 < n by {
        match place_of(rows, call_id, 0) {
            Some(i) => {
                let at = if k < i {
                    k
                } else {
                    k + 1
                };
                assert(after[k] == rows[at]);
            },
            None => {
                assert(after[k] == rows[k]);
            },
        }
    }
}

proof fn lemma_patches_have_rows(t: TranscriptView, changes: Seq<FileChangeOutput>, n: nat)
    requires
        t.calls_have_rows(),
    ensures
        with_patches(t, changes, n).calls_have_rows(),
    decreases n,
{
    if n > 0 {
        lemma_patches_have_rows(t, changes, (n - 1) as nat);
        reveal(TranscriptView::with_item);
    }
}

proof fn lemma_settled_calls(model: ModelView, item_id: Option<Seq<char>>)
    requires
        model.transcript.calls_have_rows(),
    ensures
        model.reasoning_settled().0.transcript.calls_have_rows(),
        model.settled(item_id).0.transcript.calls_have_rows(),
{
    reveal(TranscriptView::reasoning_committed);
    reveal(TranscriptView::assistant_committed);
    reveal(TranscriptView::with_item);
}

proof fn lemma_started_call(t: TranscriptView, call_id: Seq<char>, name: Seq<char>, args: Seq<char>)
    requires
        t.calls_have_rows(),
        t.items.len() < usize::MAX,
    ensures
        t.call_started(call_id, name, args).calls_have_rows(),
{
    reveal(TranscriptView::call_started);
    reveal(TranscriptView::touched);
    reveal(TranscriptView::with_item);
    let after = t.call_started(call_id, name, args);
    match t.pending {
        Some((i, group)) if group == name => {
            let entry = t.items[i as int].kind.calls() as usize;
            lemma_filed_below(t.tool_rows, call_id, (i, entry), t.items.len());
        },
        _ => {
            lemma_filed_below(
                t.tool_rows,
                call_id,
                (t.items.len() as usize, 0usize),
                t.items.len() + 1,
            );
        },
    }
}

proof fn lemma_patched_call(t: TranscriptView, call_id: Seq<char>, changes: Seq<FileChangeOutput>)
    requires
        t.calls_have_rows(),
    ensures
        t.call_patched(call_id, changes).calls_have_rows(),
{
    reveal(TranscriptView::call_patched);
    reveal(TranscriptView::touched);
    lemma_unfiled_below(t.tool_rows, call_id, t.items.len());
    match found(t.tool_rows, call_id) {
        None => {
            lemma_patches_have_rows(t, changes, changes.len());
        },
        Some((i, entry)) => {
            let open = t.untracked(call_id);
            if t.calls_at(i) == 1 {
                lemma_patches_have_rows(
                    open.patched(i as int, changes[0]).group_closed(i),
                    changes.skip(1),
                    (changes.len() - 1) as nat,
                );
            } else {
                lemma_patches_have_rows(
                    open.call_ended(i as int, entry as int, ToolCallState::Success, None),
                    changes,
                    changes.len(),
                );
            }
        },
    }
}

proof fn lemma_listed_call(t: TranscriptView, call_id: Seq<char>, todos: Seq<TodoItem>)
    requires
        t.calls_have_rows(),
    ensures
        t.call_listed(call_id, todos).calls_have_rows(),
{
    reveal(TranscriptView::call_listed);
    reveal(TranscriptView::touched);
    reveal(TranscriptView::with_item);
    lemma_unfiled_below(t.tool_rows, call_id, t.items.len());
}

proof fn lemma_completed_call(model: ModelView, tool: ToolCallCompletedEvent)
    requires
        model.transcript.calls_have_rows(),
    ensures
        model.call_completed(tool).transcript.calls_have_rows(),
{
    reveal(ModelView::call_completed);
    reveal(TranscriptView::touched);
    reveal(TranscriptView::call_finished);
    reveal(TranscriptView::with_item);
    lemma_settled_calls(model, None);
    let m = model.settled(None).0.call_related(tool.call_id@, tool.related_thread_id);
    assert(m.transcript.calls_have_rows());
    lemma_unfiled_below(m.transcript.tool_rows, tool.call_id@, m.transcript.items.len());
    lemma_patched_call(m.transcript, tool.call_id@, changed_files(tool));
    lemma_listed_call(m.transcript, tool.call_id@, tool.todos@);
}

/// Whatever event comes in, every call that is kept has a row of the
/// transcript, and so has the group that takes further calls.
pub proof fn calls_keep_their_rows(model: ModelView, msg: EventMsg)
    requires
        model.transcript.calls_have_rows(),
        model.transcript.items.len() + 2 < usize::MAX,
    ensures
        model.event(msg).transcript.calls_have_rows(),
{
    reveal(ModelView::event);
    reveal(TranscriptView::with_item);
    match msg {
        EventMsg::ToolCallStarted(tool) => {
            lemma_settled_calls(model, None);
            assert(model.settled(None).0.transcript.items.len() <= model.transcript.items.len() + 2)
                by {
                reveal(TranscriptView::reasoning_committed);
                reveal(TranscriptView::assistant_committed);
            }
            lemma_started_call(
                model.settled(None).0.transcript,
                tool.call_id@,
                tool.tool_name@,
                tool.args_preview@,
            );
        },
        EventMsg::ToolCallCompleted(tool) => {
            lemma_completed_call(model, tool);
        },
        EventMsg::CollabAgentCompleted(event) => {
            reveal(ModelView::subagent_completed);
            reveal(TranscriptView::touched);
            match found(model.subagents, event.child_thread_id@) {
                Some(call_id) => {
                    lemma_unfiled_below(
                        model.transcript.tool_rows,
                        call_id@,
                        model.transcript.items.len(),
                    );
                },
                None => {},
            }
        },
        EventMsg::CollabAgentSpawnEnd { call_id, new_thread_id } => {
            reveal(TranscriptView::touched);
        },
        EventMsg::AgentMessageDelta { item_id, delta } => {
            reveal(TranscriptView::assistant_streamed);
        },
        EventMsg::AgentReasoningDelta { item_id, delta } => {
            reveal(TranscriptView::reasoning_streamed);
        },
        EventMsg::AgentMessageCompleted { item_id, text } => {
            reveal(ModelView::answer_completed);
            lemma_settled_calls(model, Some(item_id@));
        },
        EventMsg::AgentReasoningCompleted { item_id, text } => {
            reveal(ModelView::reasoning_completed);
            lemma_settled_calls(
                model.with_transcript(model.transcript.grouping_ended()),
                None,
            );
        },
        _ => {
            reveal(ModelView::configured);
            reveal(ModelView::turn_started);
            reveal(ModelView::turn_completed);
            reveal(ModelView::turn_interrupted);
            reveal(ModelView::plan_mode_told);
            lemma_settled_calls(model, None);
        },
    }
}

proof fn lemma_settled_groups(model: ModelView, item_id: Option<Seq<char>>)
    requires
        model.transcript.groups_hold_calls(),
    ensures
        model.reasoning_settled().0.transcript.groups_hold_calls(),
        model.settled(item_id).0.transcript.groups_hold_calls(),
{
    reveal(TranscriptView::reasoning_committed);
    reveal(TranscriptView::assistant_committed);
    reveal(TranscriptView::with_item);
}

proof fn lemma_patches_keep_groups(t: TranscriptView, changes: Seq<FileChangeOutput>, n: nat)
    requires
        t.groups_hold_calls(),
    ensures
        with_patches(t, changes, n).groups_hold_calls(),
    decreases n,
{
    reveal(TranscriptView::with_item);
    if n > 0 {
        lemma_patches_keep_groups(t, changes, (n - 1) as nat);
    }
}

proof fn lemma_patched_groups(t: TranscriptView, call_id: Seq<char>, changes: Seq<FileChangeOutput>)
    requires
        t.groups_hold_calls(),
    ensures
        t.call_patched(call_id, changes).groups_hold_calls(),
{
    reveal(TranscriptView::call_patched);
    reveal(TranscriptView::touched);
    match found(t.tool_rows, call_id) {
        None => {
            lemma_patches_keep_groups(t, changes, changes.len());
        },
        Some((i, entry)) => {
            let open = t.untracked(call_id);
            if t.calls_at(i) == 1 {
                lemma_patches_keep_groups(
                    open.patched(i as int, changes[0]).group_closed(i),
                    changes.skip(1),
                    (changes.len() - 1) as nat,
                );
            } else {
                lemma_patches_keep_groups(
                    open.call_ended(i as int, entry as int, ToolCallState::Success, None),
                    changes,
                    changes.len(),
                );
            }
        },
    }
}

proof fn lemma_listed_groups(t: TranscriptView, call_id: Seq<char>, todos: Seq<TodoItem>)
    requires
        t.groups_hold_calls(),
    ensures
        t.call_listed(call_id, todos).groups_hold_calls(),
{
    reveal(TranscriptView::call_listed);
    reveal(TranscriptView::touched);
    reveal(TranscriptView::with_item);
}

proof fn lemma_completed_groups(model: ModelView, tool: ToolCallCompletedEvent)
    requires
        model.transcript.groups_hold_calls(),
    ensures
        model.call_completed(tool).transcript.groups_hold_calls(),
{
    reveal(ModelView::call_completed);
    reveal(TranscriptView::touched);
    reveal(TranscriptView::call_finished);
    reveal(TranscriptView::with_item);
    lemma_settled_groups(model, None);
    let m = model.settled(None).0.call_related(tool.call_id@, tool.related_thread_id);
    assert(m.transcript.groups_hold_calls());
    lemma_patched_groups(m.transcript, tool.call_id@, changed_files(tool));
    lemma_listed_groups(m.transcript, tool.call_id@, tool.todos@);
}

/// Whatever event comes in, every row that groups calls groups at least one.
pub proof fn groups_are_never_empty(model: ModelView, msg: EventMsg)
    requires
        model.transcript.groups_hold_calls(),
    ensures
        model.event(msg).transcript.groups_hold_calls(),
{
    reveal(ModelView::event);
    reveal(TranscriptView::with_item);
    match msg {
        EventMsg::ToolCallStarted(tool) => {
            reveal(TranscriptView::call_started);
            reveal(TranscriptView::touched);
            lemma_settled_groups(model, None);
        },
        EventMsg::ToolCallCompleted(tool) => {
            lemma_completed_groups(model, tool);
        },
        EventMsg::CollabAgentCompleted(event) => {
            reveal(ModelView::subagent_completed);
            reveal(TranscriptView::touched);
        },
        EventMsg::CollabAgentSpawnEnd { call_id, new_thread_id } => {
            reveal(TranscriptView::touched);
        },
        EventMsg::AgentMessageDelta { item_id, delta } => {
            reveal(TranscriptView::assistant_streamed);
        },
        EventMsg::AgentReasoningDelta { item_id, delta } => {
            reveal(TranscriptView::reasoning_streamed);
        },
        EventMsg::AgentMessageCompleted { item_id, text } => {
            reveal(ModelView::answer_completed);
            lemma_settled_groups(model, Some(item_id@));
        },
        EventMsg::AgentReasoningCompleted { item_id, text } => {
            reveal(ModelView::reasoning_completed);
            lemma_settled_groups(
                model.with_transcript(model.transcript.grouping_ended()),
                None,
            );
        },
        _ => {
            reveal(ModelView::configured);
            reveal(ModelView::turn_started);
            reveal(ModelView::turn_completed);
            reveal(ModelView::turn_interrupted);
            reveal(ModelView::plan_mode_told);
            lemma_settled_groups(model, None);
        },
    }
}

impl TranscriptView {
    /// The call at place `entry` of row `i`.
    pub open spec fn call_at(self, i: int, entry: int) -> Option<EntryView> {
        if 0 <= i < self.items.len() {
            match self.items[i].kind {
                KindView::Group(group) => if 0 <= entry < group.entries.len() {
                    Some(group.entries[entry])
                } else {
                    None
                },
                _ => None,
            }
        } else {
            None
        }
    }

    /// Nothing streams.
    pub open spec fn quiet(self) -> bool {
        &&& self.assistant is None
        &&& self.active_assistant is None
        &&& self.reasoning is None
        &&& self.active_reasoning is None
    }

    /// The rows of `before` stand unchanged in front of `more` new ones.
    pub open spec fn extends(self, before: TranscriptView, more: int) -> bool {
        &&& self.items.len() == before.items.len() + more
        &&& forall|j: int|
            0 <= j < before.items.len() ==> #[trigger] self.items[j] == before.items[j]
    }

    /// All calls but the one at place `entry` of row `i` are as in `before`.
    pub open spec fn differs_in_call(self, before: TranscriptView, i: int, entry: int) -> bool {
        &&& forall|j: int|
            0 <= j < before.items.len() && j != i ==> #[trigger] self.items[j] == before.items[j]
        &&& forall|k: int|
            k != entry ==> #[trigger] self.call_at(i, k) == before.call_at(i, k)
    }
}

proof fn lemma_settled_rows(model: ModelView, item_id: Option<Seq<char>>)
    ensures
        ({
            let after = model.settled(item_id).0;
            &&& after.transcript.items.len() >= model.transcript.items.len()
            &&& forall|j: int|
                0 <= j < model.transcript.items.len() ==> #[trigger] after.transcript.items[j]
                    == model.transcript.items[j]
            &&& after.transcript.quiet()
            &&& after.transcript.tool_rows == model.transcript.tool_rows
            &&& after.running_tools == model.running_tools
            &&& after.subagents == model.subagents
            &&& after.recent == model.recent
            &&& model.transcript.quiet() ==> after.transcript.items == model.transcript.items
                && after.transcript.pending == model.transcript.pending
                && after.committed_this_turn == model.committed_this_turn
                && after.committed_assistant == model.committed_assistant
        }),
{
    reveal(TranscriptView::assistant_committed);
    reveal(TranscriptView::reasoning_committed);
    reveal(TranscriptView::with_item);
}

/// Once a subagent is done, the call that started it shows how it went: it
/// succeeded only where the subagent completed, and tells the reason where it
/// failed. Everything else about the call, and every other call, stays.
pub proof fn finished_subagents_settle_their_call(
    model: ModelView,
    event: CollabAgentCompletedEvent,
    call_id: String,
    i: usize,
    entry: usize,
)
    requires
        found(model.subagents, event.child_thread_id@) == Some(call_id),
        found(model.transcript.tool_rows, call_id@) == Some((i, entry)),
        model.transcript.call_at(i as int, entry as int) is Some,
    ensures
        ({
            let after = model.event(EventMsg::CollabAgentCompleted(event));
            let call = model.transcript.call_at(i as int, entry as int)->0;
            let done = after.transcript.call_at(i as int, entry as int);
            &&& done is Some
            &&& done->0.state == ToolCallState::Success <==> event.status is Completed
            &&& done->0.state == ToolCallState::Running <==> event.status is Running
                || event.status is PendingInit
            &&& done->0.error is Some <==> done->0.state == ToolCallState::Failure
            &&& event.status matches AgentStatus::Errored(e) ==> done->0.error == Some(e.message@)
            &&& event.status is Interrupted ==> done->0.error == Some("interrupted"@)
            &&& event.status is Shutdown ==> done->0.error == Some("shutdown"@)
            &&& event.status is NotFound ==> done->0.error == Some("not found"@)
            &&& done->0.args == call.args
            &&& done->0.output == call.output
            &&& done->0.related == call.related
            &&& after.transcript.items.len() == model.transcript.items.len()
            &&& after.transcript.differs_in_call(model.transcript, i as int, entry as int)
        }),
{
    reveal(ModelView::event);
    reveal(ModelView::subagent_completed);
    reveal(TranscriptView::touched);
}

/// Once a subagent is done, neither it nor the call that started it is
/// tracked any more.
pub proof fn finished_subagents_are_forgotten(
    model: ModelView,
    event: CollabAgentCompletedEvent,
    call_id: String,
    other: Seq<char>,
)
    requires
        found(model.subagents, event.child_thread_id@) == Some(call_id),
        distinct_keys(model.subagents),
        distinct_keys(model.running_tools),
        distinct_keys(model.transcript.tool_rows),
    ensures
        ({
            let after = model.event(EventMsg::CollabAgentCompleted(event));
            &&& found(after.subagents, event.child_thread_id@) is None
            &&& other != event.child_thread_id@ ==> found(after.subagents, other) == found(
                model.subagents,
                other,
            )
            &&& found(after.running_tools, call_id@) is None
            &&& other != call_id@ ==> found(after.running_tools, other) == found(
                model.running_tools,
                other,
            )
            &&& found(after.transcript.tool_rows, call_id@) is None
            &&& other != call_id@ ==> found(after.transcript.tool_rows, other) == found(
                model.transcript.tool_rows,
                other,
            )
        }),
{
    reveal(ModelView::event);
    reveal(ModelView::subagent_completed);
    reveal(TranscriptView::touched);
    unfiled_values_are_gone(model.subagents, event.child_thread_id@, other);
    unfiled_values_are_gone(model.running_tools, call_id@, other);
    unfiled_values_are_gone(model.transcript.tool_rows, call_id@, other);
}

/// A subagent that no call started changes nothing when it is done.
pub proof fn unknown_subagents_change_nothing(model: ModelView, event: CollabAgentCompletedEvent)
    requires
        found(model.subagents, event.child_thread_id@) is None,
    ensures
        model.event(EventMsg::CollabAgentCompleted(event)) == model,
{
    reveal(ModelView::event);
    reveal(ModelView::subagent_completed);
}

/// A call that starts shows as running, under its tool and with its
/// arguments, and is listed among the running tools.
pub proof fn started_calls_run(model: ModelView, tool: ToolCallStartedEvent)
    requires
        distinct_keys(model.transcript.tool_rows),
        distinct_keys(model.running_tools),
        model.settled(None).0.transcript.items.len() < usize::MAX,
        model.settled(None).0.transcript.pending matches Some((at, name)) ==> {
            &&& at < model.settled(None).0.transcript.items.len()
            &&& model.settled(None).0.transcript.items[at as int].kind matches KindView::Group(group)
                && group.name == name && group.entries.len() < usize::MAX
        },
    ensures
        ({
            let after = model.event(EventMsg::ToolCallStarted(tool));
            let place = found(after.transcript.tool_rows, tool.call_id@);
            &&& place matches Some((i, entry)) && {
                &&& after.transcript.call_at(i as int, entry as int) == Some(
                    EntryView {
                        args: tool.args_preview@,
                        state: ToolCallState::Running,
                        error: None,
                        output: None,
                        related: None,
                    },
                )
                &&& after.transcript.items[i as int].kind matches KindView::Group(group)
                    && group.name == tool.tool_name@ && entry == group.entries.len() - 1
                &&& after.transcript.pending matches Some((at, name)) && at == i && name
                    == tool.tool_name@
            }
            &&& found(after.running_tools, tool.call_id@) == Some(
                RunningToolInfo { tool_name: tool.tool_name, args_preview: tool.args_preview },
            )
        }),
{
    reveal(ModelView::event);
    reveal(TranscriptView::call_started);
    reveal(TranscriptView::touched);
    lemma_settled_rows(model, None);
    let t = model.settled(None).0.transcript;
    let name = tool.tool_name@;
    if t.pending is Some && (t.pending->0).1 == name {
        let at = (t.pending->0).0;
        let entry = t.items[at as int].kind.calls() as usize;
        filed_values_are_found(t.tool_rows, tool.call_id@, (at, entry), tool.call_id@);
    } else {
        filed_values_are_found(
            t.tool_rows,
            tool.call_id@,
            (t.items.len() as usize, 0usize),
            tool.call_id@,
        );
    }
    filed_values_are_found(
        model.running_tools,
        tool.call_id@,
        RunningToolInfo { tool_name: tool.tool_name, args_preview: tool.args_preview },
        tool.call_id@,
    );
}

/// Calls of one tool in a row share a row of the transcript; a call of another
/// tool opens a row of its own.
pub proof fn calls_of_one_tool_share_a_row(model: ModelView, tool: ToolCallStartedEvent)
    requires
        model.transcript.quiet(),
        model.transcript.pending matches Some((at, name)) ==> at < model.transcript.items.len(),
    ensures
        ({
            let after = model.event(EventMsg::ToolCallStarted(tool));
            let joins = model.transcript.pending matches Some((at, name)) && name
                == tool.tool_name@;
            &&& after.transcript.items.len() == model.transcript.items.len() + if joins {
                0int
            } else {
                1
            }
            &&& !joins ==> after.transcript.extends(model.transcript, 1)
            &&& joins ==> forall|j: int|
                0 <= j < model.transcript.items.len() && j != (model.transcript.pending->0).0
                    ==> #[trigger] after.transcript.items[j] == model.transcript.items[j]
        }),
{
    reveal(ModelView::event);
    reveal(TranscriptView::call_started);
    reveal(TranscriptView::touched);
    lemma_settled_rows(model, None);
}

/// A call that ends shows whether it succeeded, the error where it did not,
/// and what it printed where it printed anything.
pub proof fn ended_calls_show_their_outcome(
    model: ModelView,
    tool: ToolCallCompletedEvent,
    i: usize,
    entry: usize,
)
    requires
        found(model.transcript.tool_rows, tool.call_id@) == Some((i, entry)),
        model.transcript.call_at(i as int, entry as int) is Some,
        tool.success ==> tool.result_kind == ToolCallResultKind::Final && tool.todos@.len() == 0
            && tool.file_changes@.len() == 0 && tool.file_change is None,
    ensures
        ({
            let after = model.event(EventMsg::ToolCallCompleted(tool));
            let call = model.transcript.call_at(i as int, entry as int)->0;
            let done = after.transcript.call_at(i as int, entry as int);
            &&& done is Some
            &&& done->0.state == if tool.success {
                ToolCallState::Success
            } else {
                ToolCallState::Failure
            }
            &&& done->0.error is Some <==> !tool.success
            &&& !tool.success && tool.error is Some ==> done->0.error == Some(tool.error->0@)
            &&& !tool.success && tool.error is None ==> done->0.error == Some("tool failed"@)
            &&& done->0.output == if tool.output_preview is Some {
                Some(tool.output_preview->0@)
            } else {
                call.output
            }
            &&& done->0.related == if tool.related_thread_id is Some {
                Some(tool.related_thread_id->0@)
            } else {
                call.related
            }
            &&& done->0.args == call.args
            &&& after.transcript.differs_in_call(model.transcript, i as int, entry as int)
        }),
{
    reveal(ModelView::event);
    reveal(ModelView::call_completed);
    reveal(TranscriptView::call_finished);
    reveal(TranscriptView::touched);
    lemma_settled_rows(model, None);
}

/// A call that ended, whatever it shows as, runs no more and is not tracked.
pub proof fn ended_calls_run_no_more(
    model: ModelView,
    tool: ToolCallCompletedEvent,
    other: Seq<char>,
)
    requires
        !tool.success || tool.result_kind == ToolCallResultKind::Final,
        distinct_keys(model.running_tools),
        distinct_keys(model.transcript.tool_rows),
    ensures
        ({
            let after = model.event(EventMsg::ToolCallCompleted(tool));
            &&& found(after.running_tools, tool.call_id@) is None
            &&& other != tool.call_id@ ==> found(after.running_tools, other) == found(
                model.running_tools,
                other,
            )
            &&& found(after.transcript.tool_rows, tool.call_id@) is None
            &&& other != tool.call_id@ ==> found(after.transcript.tool_rows, other) == found(
                model.transcript.tool_rows,
                other,
            )
        }),
{
    reveal(ModelView::event);
    reveal(ModelView::call_completed);
    reveal(TranscriptView::call_finished);
    reveal(TranscriptView::call_patched);
    reveal(TranscriptView::call_listed);
    reveal(TranscriptView::touched);
    reveal(TranscriptView::with_item);
    lemma_settled_rows(model, None);
    unfiled_values_are_gone(model.running_tools, tool.call_id@, other);
    unfiled_values_are_gone(model.transcript.tool_rows, tool.call_id@, other);
    let changes = changed_files(tool);
    if changes.len() > 0 {
        let m = model.settled(None).0.call_related(tool.call_id@, tool.related_thread_id);
        let t = m.transcript;
        lemma_patch_rows(t, changes, changes.len());
        if let Some((i, entry)) = found(t.tool_rows, tool.call_id@) {
            let u = t.untracked(tool.call_id@);
            lemma_patch_rows(
                u.patched(i as int, changes[0]).group_closed(i),
                changes.skip(1),
                (changes.len() - 1) as nat,
            );
            lemma_patch_rows(
                u.call_ended(i as int, entry as int, ToolCallState::Success, None),
                changes,
                changes.len(),
            );
        }
    }
}

/// The first `n` changes stand behind the rows, one row each.
proof fn lemma_patch_rows(t: TranscriptView, changes: Seq<FileChangeOutput>, n: nat)
    requires
        n <= changes.len(),
    ensures
        with_patches(t, changes, n).extends(t, n as int),
        forall|k: int|
            0 <= k < n ==> #[trigger] with_patches(t, changes, n).items[t.items.len() + k].kind == (
            KindView::Patch { change: changes[k] }),
        with_patches(t, changes, n).tool_rows == t.tool_rows,
    decreases n,
{
    reveal(TranscriptView::with_item);
    if n > 0 {
        lemma_patch_rows(t, changes, (n - 1) as nat);
    }
}

/// A call that goes on in the background stays in its row and among the
/// running tools, and is remembered as the call of its subagent.
pub proof fn background_calls_keep_running(
    model: ModelView,
    tool: ToolCallCompletedEvent,
    i: usize,
    entry: usize,
    child: ThreadId,
)
    requires
        found(model.transcript.tool_rows, tool.call_id@) == Some((i, entry)),
        model.transcript.call_at(i as int, entry as int) is Some,
        tool.success,
        tool.result_kind == ToolCallResultKind::StatusUpdate,
        tool.related_thread_id == Some(child),
        distinct_keys(model.subagents),
    ensures
        ({
            let after = model.event(EventMsg::ToolCallCompleted(tool));
            let done = after.transcript.call_at(i as int, entry as int);
            &&& done is Some
            &&& done->0.state == ToolCallState::Running
            &&& done->0.error is None
            &&& done->0.related == Some(child@)
            &&& after.transcript.tool_rows == model.transcript.tool_rows
            &&& after.running_tools == model.running_tools
            &&& found(after.subagents, child@) == Some(tool.call_id)
        }),
{
    reveal(ModelView::event);
    reveal(ModelView::call_completed);
    reveal(TranscriptView::touched);
    lemma_settled_rows(model, None);
    filed_values_are_found(model.subagents, child@, tool.call_id, child@);
}

/// A successful call that changed files shows as these changes: a row of its
/// own becomes the first of them, a call in a group ends well and its changes
/// follow the transcript. The changes are the latest ones of the session.
pub proof fn changes_are_shown(model: ModelView, tool: ToolCallCompletedEvent)
    requires
        tool.success,
        tool.result_kind == ToolCallResultKind::Final,
        tool.todos@.len() == 0,
        tool.file_changes@.len() > 0,
        model.transcript.quiet(),
    ensures
        ({
            let before = model.transcript;
            let after = model.event(EventMsg::ToolCallCompleted(tool));
            let n = tool.file_changes@.len();
            let rows = before.items.len();
            &&& match found(before.tool_rows, tool.call_id@) {
                Some((i, entry)) => if i < rows && before.items[i as int].kind.calls() == 1 {
                    &&& after.transcript.items.len() == rows + n - 1
                    &&& after.transcript.items[i as int].kind == (KindView::Patch {
                        change: tool.file_changes@[0],
                    })
                    &&& forall|k: int|
                        1 <= k < n ==> #[trigger] after.transcript.items[rows - 1 + k].kind == (
                        KindView::Patch { change: tool.file_changes@[k] })
                } else {
                    &&& after.transcript.items.len() == rows + n
                    &&& forall|k: int|
                        0 <= k < n ==> #[trigger] after.transcript.items[rows + k].kind == (
                        KindView::Patch { change: tool.file_changes@[k] })
                    &&& before.call_at(i as int, entry as int) is Some ==> {
                        let done = after.transcript.call_at(i as int, entry as int);
                        done is Some && done->0.state == ToolCallState::Success && done->0.error
                            is None
                    }
                },
                None => {
                    &&& after.transcript.extends(before, n as int)
                    &&& forall|k: int|
                        0 <= k < n ==> #[trigger] after.transcript.items[rows + k].kind == (
                        KindView::Patch { change: tool.file_changes@[k] })
                },
            }
            &&& after.recent.len() <= 20
            &&& forall|k: int|
                0 <= k < n && n <= 20 ==> #[trigger] after.recent[after.recent.len() - n + k]
                    == tool.file_changes@[k]
            &&& model.recent.len() + n <= 20 ==> after.recent =~= model.recent + tool.file_changes@
        }),
{
    reveal(ModelView::event);
    reveal(ModelView::call_completed);
    reveal(TranscriptView::call_patched);
    reveal(TranscriptView::touched);
    lemma_settled_rows(model, None);
    let changes = tool.file_changes@;
    let n = changes.len();
    let rows = model.transcript.items.len();
    let m = model.settled(None).0.call_related(tool.call_id@, tool.related_thread_id);
    let t = m.transcript;
    let after = model.event(EventMsg::ToolCallCompleted(tool));
    lemma_patch_rows(t, changes, n);
    if let Some((i, entry)) = found(t.tool_rows, tool.call_id@) {
        let u = t.untracked(tool.call_id@);
        let one = u.patched(i as int, changes[0]).group_closed(i);
        let more = u.call_ended(i as int, entry as int, ToolCallState::Success, None);
        lemma_patch_rows(one, changes.skip(1), (n - 1) as nat);
        lemma_patch_rows(more, changes, n);
        if i < rows && model.transcript.items[i as int].kind.calls() == 1 {
            assert(after.transcript == with_patches(one, changes.skip(1), (n - 1) as nat));
            assert forall|k: int| 1 <= k < n implies #[trigger] after.transcript.items[rows - 1
                + k].kind == (KindView::Patch { change: changes[k] }) by {
                assert(after.transcript.items[one.items.len() + (k - 1)].kind == (KindView::Patch {
                    change: changes.skip(1)[k - 1],
                }));
            }
        } else {
            assert(after.transcript == with_patches(more, changes, n));
        }
    }
}

/// A successful call that wrote a checklist shows as that checklist, in its
/// own row where it has one.
pub proof fn checklists_are_shown(model: ModelView, tool: ToolCallCompletedEvent)
    requires
        tool.success,
        tool.result_kind == ToolCallResultKind::Final,
        tool.todos@.len() > 0,
        model.transcript.quiet(),
    ensures
        ({
            let before = model.transcript;
            let after = model.event(EventMsg::ToolCallCompleted(tool)).transcript;
            let list = KindView::TodoList { todos: tool.todos@ };
            let rows = before.items.len();
            match found(before.tool_rows, tool.call_id@) {
                Some((i, entry)) => if i < rows && before.items[i as int].kind.calls() == 1 {
                    &&& after.items.len() == rows
                    &&& after.items[i as int].kind == list
                } else {
                    &&& after.items.len() == rows + 1
                    &&& after.items[rows as int].kind == list
                },
                None => {
                    &&& after.extends(before, 1)
                    &&& after.items[rows as int].kind == list
                },
            }
        }),
{
    reveal(ModelView::event);
    reveal(ModelView::call_completed);
    reveal(TranscriptView::call_listed);
    reveal(TranscriptView::touched);
    reveal(TranscriptView::with_item);
    lemma_settled_rows(model, None);
}

/// The end of a call that has no row is told in a row of its own.
pub proof fn unknown_calls_are_told(model: ModelView, tool: ToolCallCompletedEvent)
    requires
        found(model.transcript.tool_rows, tool.call_id@) is None,
        model.transcript.quiet(),
        tool.success ==> tool.result_kind == ToolCallResultKind::Final && tool.todos@.len() == 0
            && tool.file_changes@.len() == 0 && tool.file_change is None,
    ensures
        ({
            let after = model.event(EventMsg::ToolCallCompleted(tool)).transcript;
            &&& after.extends(model.transcript, 1)
            &&& after.items.last().kind == if tool.success {
                info_kind("tool "@ + tool.call_id@ + " completed"@)
            } else {
                error_kind(
                    "tool "@ + tool.call_id@ + " failed: "@ + if tool.error is Some {
                        tool.error->0@
                    } else {
                        "tool failed"@
                    },
                )
            }
        }),
{
    reveal(ModelView::event);
    reveal(ModelView::call_completed);
    reveal(TranscriptView::with_item);
    lemma_settled_rows(model, None);
}

/// What the user said ends the transcript.
pub proof fn user_messages_are_shown(model: ModelView, text: String)
    ensures
        ({
            let after = model.event(EventMsg::UserMessage { text }).transcript;
            &&& after.items.len() > model.transcript.items.len()
            &&& after.items.last().kind == (KindView::User { message: text@ })
            &&& model.transcript.quiet() ==> after.extends(model.transcript, 1)
        }),
{
    reveal(ModelView::event);
    reveal(TranscriptView::reasoning_committed);
    reveal(TranscriptView::with_item);
}

/// An answer that did not stream ends the transcript, unless it was shown
/// already.
pub proof fn whole_answers_are_shown(model: ModelView, item_id: String, text: String)
    requires
        model.transcript.quiet(),
    ensures
        ({
            let told = model.event(EventMsg::AgentMessage { text });
            let done = model.event(EventMsg::AgentMessageCompleted { item_id, text });
            let row = KindView::Assistant { lines: rendered(text@), first: true, raw: text@ };
            &&& told.committed_this_turn
            &&& !model.committed_this_turn ==> told.transcript.extends(model.transcript, 1)
                && told.transcript.items.last().kind == row
            &&& model.committed_this_turn ==> told.transcript.items == model.transcript.items
            &&& done.committed_assistant == Some(item_id@)
            &&& model.committed_assistant != Some(item_id@) ==> done.transcript.extends(
                model.transcript,
                1,
            ) && done.transcript.items.last().kind == row && done.committed_this_turn
            &&& model.committed_assistant == Some(item_id@) ==> done.transcript.items
                == model.transcript.items
        }),
{
    reveal(ModelView::event);
    reveal(ModelView::answer_completed);
    reveal(TranscriptView::reasoning_committed);
    reveal(TranscriptView::with_item);
    lemma_settled_rows(model, Some(item_id@));
}

/// What streams is gathered, the answer and the reasoning apart from each
/// other, and no row changes meanwhile.
pub proof fn streamed_text_is_gathered(model: ModelView, item_id: String, delta: String)
    ensures
        ({
            let before = model.transcript;
            let said = model.event(EventMsg::AgentMessageDelta { item_id, delta }).transcript;
            let thought = model.event(EventMsg::AgentReasoningDelta { item_id, delta });
            &&& said.items == before.items
            &&& said.reasoning == before.reasoning
            &&& said.assistant matches Some(stream) && stream.collector.buffer =~= (
            if before.assistant is Some {
                before.assistant->0.collector.buffer
            } else {
                Seq::empty()
            }) + delta@
            &&& said.active_assistant == said.assistant->0.snapshot()
            &&& thought.transcript.items == before.items
            &&& thought.transcript.assistant == before.assistant
            &&& thought.transcript.reasoning matches Some(stream) && stream.collector.buffer =~= (
            if before.reasoning is Some {
                before.reasoning->0.collector.buffer
            } else {
                Seq::empty()
            }) + delta@
            &&& thought.transcript.active_reasoning == thought.transcript.reasoning->0.snapshot()
            &&& thought.in_flight_reasoning == Some(item_id@)
        }),
{
    reveal(ModelView::event);
    reveal(TranscriptView::assistant_streamed);
    reveal(TranscriptView::reasoning_streamed);
}

/// An answer that streamed becomes a row that holds all of it, and so does
/// reasoning.
pub proof fn streamed_text_becomes_a_row(
    model: ModelView,
    item_id: String,
    text: String,
    stream: StreamView,
)
    requires
        stream.parts() is Some,
    ensures
        ({
            let said = model.event(EventMsg::AgentMessageCompleted { item_id, text });
            let thought = model.event(EventMsg::AgentReasoningCompleted { item_id, text });
            &&& model.transcript.assistant == Some(stream) && model.transcript.reasoning is None
                && model.transcript.active_reasoning is None ==> {
                &&& said.transcript.extends(model.transcript, 1)
                &&& said.transcript.items.last().kind matches KindView::Assistant { raw, .. }
                    && raw == stream.collector.buffer
                &&& said.transcript.quiet()
                &&& said.committed_assistant == Some(item_id@)
                &&& said.committed_this_turn
            }
            &&& model.transcript.reasoning == Some(stream) && model.committed_reasoning != Some(
                item_id@,
            ) ==> {
                &&& thought.transcript.extends(model.transcript, 1)
                &&& thought.transcript.items.last().kind matches KindView::Reasoning { raw, .. }
                    && raw == stream.collector.buffer
                &&& thought.transcript.reasoning is None
                &&& thought.transcript.assistant == model.transcript.assistant
                &&& model.in_flight_reasoning is Some ==> thought.committed_reasoning
                    == model.in_flight_reasoning
            }
        }),
{
    reveal(ModelView::event);
    reveal(ModelView::answer_completed);
    reveal(ModelView::reasoning_completed);
    reveal(TranscriptView::assistant_committed);
    reveal(TranscriptView::reasoning_committed);
    reveal(TranscriptView::with_item);
}

/// Reasoning that did not stream ends the transcript, unless it was shown
/// already.
pub proof fn whole_reasoning_is_shown(model: ModelView, item_id: String, text: String)
    requires
        model.transcript.reasoning is None,
    ensures
        ({
            let done = model.event(EventMsg::AgentReasoningCompleted { item_id, text });
            &&& done.committed_reasoning == Some(item_id@)
            &&& model.committed_reasoning == Some(item_id@) ==> done.transcript.items
                == model.transcript.items
            &&& model.committed_reasoning != Some(item_id@) ==> done.transcript.extends(
                model.transcript,
                1,
            ) && done.transcript.items.last().kind == (KindView::Reasoning {
                lines: rendered(text@),
                first: true,
                raw: text@,
            })
        }),
{
    reveal(ModelView::event);
    reveal(ModelView::reasoning_completed);
    reveal(TranscriptView::reasoning_committed);
    reveal(TranscriptView::with_item);
}

/// A turn runs from its start on and starts with a clean slate.
pub proof fn turns_start_afresh(model: ModelView, turn_id: String)
    ensures
        ({
            let after = model.event(EventMsg::TurnStarted { turn_id });
            &&& after.running
            &&& !after.cancelling
            &&& after.turn == Some(turn_id@)
            &&& after.status == "Running turn "@ + turn_id@
            &&& after.running_tools.len() == 0
            &&& after.subagents.len() == 0
            &&& after.transcript.tool_rows.len() == 0
            &&& after.transcript.items == model.transcript.items
            &&& after.transcript.pending is None
            &&& !after.committed_this_turn
            &&& after.committed_assistant is None
            &&& after.committed_reasoning is None
        }),
{
    reveal(ModelView::event);
    reveal(ModelView::turn_started);
}

/// A turn that completes, is interrupted or fails runs no more, and the status
/// says which of these it was.
pub proof fn turns_end(
    model: ModelView,
    turn_id: String,
    message: Option<String>,
    reason: String,
    error: ErrorInfo,
)
    ensures
        ({
            let completed = model.event(
                EventMsg::TurnCompleted { turn_id, last_assistant_message: message },
            );
            let interrupted = model.event(EventMsg::TurnInterrupted { turn_id, reason });
            let failed = model.event(EventMsg::Error { error });
            &&& !completed.running && !completed.cancelling
            &&& completed.running_tools.len() == 0
            &&& completed.status == "Completed turn "@ + turn_id@
            &&& !interrupted.running && !interrupted.cancelling
            &&& interrupted.running_tools.len() == 0
            &&& interrupted.status == "Interrupted"@
            &&& interrupted.picker is None && interrupted.approval is None
            &&& interrupted.select is None
            &&& interrupted.mode != UiMode::Overlay
            &&& interrupted.mode != UiMode::TranscriptSelect
            &&& interrupted.transcript.items.last().kind == info_kind(
                "Turn "@ + turn_id@ + " interrupted: "@ + reason@,
            )
            &&& !failed.running && !failed.cancelling
            &&& failed.running_tools.len() == 0
            &&& failed.status == "Error"@
            &&& failed.transcript.items.last().kind == error_kind(error.message@)
        }),
{
    reveal(ModelView::event);
    reveal(ModelView::turn_completed);
    reveal(ModelView::turn_interrupted);
    reveal(TranscriptView::assistant_committed);
    reveal(TranscriptView::reasoning_committed);
    reveal(TranscriptView::with_item);
}

/// The answer that comes with the end of a turn is shown where the turn has
/// shown none.
pub proof fn last_answers_are_shown(model: ModelView, turn_id: String, text: String)
    requires
        model.transcript.quiet(),
    ensures
        ({
            let after = model.event(
                EventMsg::TurnCompleted { turn_id, last_assistant_message: Some(text) },
            ).transcript;
            let silent = model.event(
                EventMsg::TurnCompleted { turn_id, last_assistant_message: None },
            ).transcript;
            &&& silent.items == model.transcript.items
            &&& model.committed_this_turn ==> after.items == model.transcript.items
            &&& !model.committed_this_turn ==> after.extends(model.transcript, 1)
                && after.items.last().kind == (KindView::Assistant {
                lines: rendered(text@),
                first: true,
                raw: text@,
            })
        }),
{
    reveal(ModelView::event);
    reveal(ModelView::turn_completed);
    reveal(TranscriptView::with_item);
    lemma_settled_rows(model, None);
}

/// What else a session tells is shown in its own words.
pub proof fn notices_are_shown(model: ModelView, message: String, thread_id: ThreadRef, enabled: bool)
    requires
        model.transcript.quiet(),
    ensures
        ({
            let before = model.transcript;
            let trouble = model.event(EventMsg::StreamError { message });
            let ready = model.event(EventMsg::SessionConfigured { thread_id });
            let planning = model.event(EventMsg::PlanModeChanged { enabled });
            &&& trouble.transcript.extends(before, 1)
            &&& trouble.transcript.items.last().kind == info_kind(message@)
            &&& trouble.running == model.running
            &&& ready.transcript.extends(before, 1)
            &&& match thread_id.parsed {
                Ok(id) => {
                    &&& ready.thread == Some(id@)
                    &&& ready.screen == Screen::Workspace
                    &&& ready.transcript.items.last().kind == info_kind(
                        "Session configured for thread "@ + thread_id.text@,
                    )
                },
                Err(reason) => {
                    &&& ready.thread == model.thread
                    &&& ready.screen == model.screen
                    &&& ready.transcript.items.last().kind == error_kind(
                        "Invalid configured thread id: "@ + reason@,
                    )
                },
            }
            &&& planning.plan_mode == enabled
            &&& model.plan_mode == enabled ==> planning == model
            &&& model.plan_mode != enabled ==> planning.transcript.extends(before, 1)
                && planning.transcript.items.last().kind == info_kind(
                if enabled {
                    "plan mode enabled — file mutations are locked while the agent plans"@
                } else {
                    "plan mode disabled — agent back to the full tool set"@
                },
            )
        }),
{
    reveal(ModelView::event);
    reveal(ModelView::configured);
    reveal(ModelView::plan_mode_told);
    reveal(TranscriptView::reasoning_committed);
    reveal(TranscriptView::with_item);
    lemma_settled_rows(model, None);
}

/// The status tells how the agent stands.
pub proof fn agent_status_is_told(model: ModelView, status: AgentStatus)
    ensures
        ({
            let said = model.event(EventMsg::AgentStatusChanged { status });
            &&& status is PendingInit ==> said.status == "Status: "@ + "pending"@
            &&& status is Running ==> said.status == "Status: "@ + "running"@
            &&& status is Interrupted ==> said.status == "Status: "@ + "interrupted"@
            &&& status is Shutdown ==> said.status == "Status: "@ + "shutdown"@
            &&& status is NotFound ==> said.status == "Status: "@ + "not_found"@
            &&& status matches AgentStatus::Completed(None) ==> said.status == "Status: "@
                + "completed"@
            &&& status matches AgentStatus::Completed(Some(text)) ==> said.status == "Status: "@
                + ("completed ("@ + text@ + ")"@)
            &&& status matches AgentStatus::Errored(error) ==> said.status == "Status: "@
                + ("errored ("@ + error.message@ + ")"@)
            &&& said.transcript == model.transcript
            &&& said.running == model.running
        }),
{
    reveal(ModelView::event);
}

/// The thread that a call started is shown with the call.
pub proof fn spawned_threads_are_related(
    model: ModelView,
    call_id: String,
    child: ThreadId,
    i: usize,
    entry: usize,
)
    requires
        found(model.transcript.tool_rows, call_id@) == Some((i, entry)),
        model.transcript.call_at(i as int, entry as int) is Some,
    ensures
        ({
            let after = model.event(
                EventMsg::CollabAgentSpawnEnd { call_id, new_thread_id: Some(child) },
            ).transcript;
            let call = model.transcript.call_at(i as int, entry as int)->0;
            &&& after.call_at(i as int, entry as int) == Some(
                EntryView { related: Some(child@), ..call },
            )
            &&& after.differs_in_call(model.transcript, i as int, entry as int)
        }),
{
    reveal(ModelView::event);
    reveal(TranscriptView::touched);
}

/// Leaving the transcript's selection goes back to reading it; clearing the
/// transcript leaves nothing of it.
pub proof fn cleared_transcripts_are_empty(model: ModelView)
    ensures
        ({
            let left = model.select_left();
            let cleared = model.transcript_cleared();
            &&& left.select is None
            &&& left.mode == if model.mode == UiMode::TranscriptSelect {
                UiMode::Normal
            } else {
                model.mode
            }
            &&& left.transcript == model.transcript
            &&& cleared.select is None
            &&& cleared.transcript.items.len() == 0
            &&& cleared.transcript.quiet()
            &&& cleared.transcript.tool_rows.len() == 0
            &&& cleared.transcript.next_id == model.transcript.next_id
            &&& cleared.subagents.len() == 0
            &&& cleared.running_tools.len() == 0
            &&& cleared.recent.len() == 0
            &&& cleared.scroll == 0
            &&& cleared.auto_scroll
        }),
{
}

/// A turn that is forgotten leaves no trace in what is tracked of turns.
pub proof fn forgotten_turns_leave_no_trace(model: ModelView)
    ensures
        ({
            let after = model.turn_forgotten();
            &&& !after.running
            &&& !after.cancelling
            &&& !after.plan_mode
            &&& !after.committed_this_turn
            &&& after.turn is None
            &&& after.committed_assistant is None
            &&& after.committed_reasoning is None
            &&& after.in_flight_reasoning is None
            &&& after.transcript == model.transcript
        }),
{
}

} // verus!
