use cazean_tui::clipboard::{clip_for_clipboard, MAX_CLIPBOARD_BYTES};
use cazean_tui::config::{ColorSpec, TuiConfig};
use cazean_tui::frame::{DrawOp, Rect};
use cazean_tui::highlight::{RenderContext, SyntaxLibrary};
use cazean_tui::history_cell::{ToolCallGroupCell, TranscriptItem};
use cazean_tui::keys::{KeyCode, KeyEvent, KeyEventKind, KeyModifiers, TerminalEvent};
use cazean_tui::markdown_stream::StreamController;
use cazean_tui::plan_approval::PlanApprovalOverlay;
use cazean_tui::protocol::{
    AgentStatus, AskUserQuestion, AskUserQuestionOption, AskUserQuestionParams,
    CollabAgentCompletedEvent, ErrorInfo, EventMsg, FileChange, FileChangeOutput, PlanApprovalDecision,
    RequestId, RequestPlanApprovalParams, ServerRequest, SessionEvent, ThreadId, ThreadListItem,
    ThreadListResponse, ThreadPreviewResponse, ThreadRef, ThreadResumeResponse,
    ThreadStartResponse, TodoItem, TodoStatus, ToolCallCompletedEvent, ToolCallResultKind,
    ToolCallStartedEvent, TurnStartResponse,
};
use cazean_tui::question_picker::QuestionPicker;
use cazean_tui::skill_popup::SkillMeta;
use cazean_tui::style::{Color, Line};
use cazean_tui::subagent_preview::SubagentPreviewView;
use cazean_tui::ui::run::{EffectQueue, RunControl, RunStep};
use cazean_tui::ui::{
    EffectContext, EffectId, FocusTarget, RunningToolInfo, Screen, UiEffect, UiEffectKind,
    UiEffectResult, UiEvent, UiMode, UiModel,
};
use ratatui::backend::TestBackend;
use ratatui::widgets::Paragraph;
use ratatui::Terminal;

fn context() -> RenderContext {
    RenderContext {
        config: TuiConfig {
            max_rendered_diff_lines: 1000,
            max_highlight_bytes: 512 * 1024,
            max_highlight_lines: 10_000,
            diff_add_bg: ColorSpec::Rgb { r: 33, g: 58, b: 43 },
            diff_delete_bg: ColorSpec::Rgb { r: 74, g: 34, b: 29 },
            highlight_theme: "OneHalfDark".to_string(),
        },
        library: SyntaxLibrary::load(),
    }
}

fn fresh_model() -> UiModel {
    UiModel::new(context())
}

/// The time at which the tests start, in nanoseconds.
const START: u64 = 5_000_000_000;

fn millis(n: u64) -> u64 {
    n * 1_000_000
}

/// Thread identifiers by number.
#[derive(Clone, Copy, Debug, PartialEq)]
struct Thread(u32);

impl Thread {
    fn text(self) -> String {
        format!("00000000-0000-4000-8000-{:012}", self.0)
    }

    fn id(self) -> ThreadId {
        ThreadId::new(&self.text())
    }

    fn reference(self) -> ThreadRef {
        ThreadRef {
            text: self.text(),
            parsed: Ok(self.id()),
        }
    }
}

fn unread(text: &str) -> ThreadRef {
    ThreadRef {
        text: text.to_string(),
        parsed: Err("no identifier".to_string()),
    }
}

fn is_thread(id: &ThreadId, thread: Thread) -> bool {
    id.text == thread.text()
}

fn texts_of(threads: &[Thread]) -> Vec<String> {
    threads.iter().map(|thread| thread.text()).collect()
}

fn forward_texts(model: &UiModel) -> Vec<String> {
    model
        .preview_forward_stack
        .iter()
        .map(|thread| thread.text.clone())
        .collect()
}

struct App {
    model: UiModel,
}

impl App {
    fn new() -> App {
        App {
            model: fresh_model(),
        }
    }

    fn handle_session_event(&mut self, event: SessionEvent, viewport_height: u16) {
        let effects = self.model.update(UiEvent::Protocol {
            source_thread_id: None,
            event,
            viewport_height,
        });
        assert!(effects.is_empty());
    }

    fn max_scroll(&mut self, viewport_height: u16) -> u16 {
        self.model.max_scroll(viewport_height)
    }
}

fn press(model: &mut UiModel, key: KeyEvent) -> Vec<UiEffect> {
    model.handle_key_event_at(key, START)
}

fn lines_text(line: &Line) -> String {
    line.spans
        .iter()
        .map(|span| span.content.as_str())
        .collect()
}

fn transcript_rows(model: &mut UiModel, width: u16) -> Vec<String> {
    model
        .transcript
        .visible_lines(
            &model.context,
            width,
            true,
            None,
            0,
            u16::MAX,
            "No transcript yet. Type a message and use :send.",
        )
        .iter()
        .map(lines_text)
        .collect()
}

fn transcript_strings(app: &mut App) -> Vec<String> {
    transcript_rows(&mut app.model, 80)
}

/// Draws the screen of `model`, and gives the rows of the screen.
fn screen_rows(model: &mut UiModel, width: u16, height: u16) -> Vec<String> {
    let ops = model.render(Rect {
        x: 0,
        y: 0,
        width,
        height,
    });
    let mut terminal = Terminal::new(TestBackend::new(width, height)).expect("a terminal");
    terminal
        .draw(|frame| {
            for op in &ops {
                match op {
                    DrawOp::Lines { area, lines } => {
                        let rows: Vec<String> = lines.iter().map(lines_text).collect();
                        let lines: Vec<ratatui::text::Line> =
                            rows.into_iter().map(ratatui::text::Line::from).collect();
                        let place = ratatui::layout::Rect {
                            x: area.x,
                            y: area.y,
                            width: area.width,
                            height: area.height,
                        };
                        frame.render_widget(Paragraph::new(lines), place);
                    }
                    DrawOp::Cursor { x, y } => frame.set_cursor_position((*x, *y)),
                }
            }
        })
        .expect("a frame");
    terminal
        .backend()
        .buffer()
        .content()
        .iter()
        .map(|cell| cell.symbol())
        .collect::<Vec<_>>()
        .chunks(usize::from(width))
        .map(|row| row.concat())
        .collect()
}

fn screen_text(model: &mut UiModel, width: u16, height: u16) -> String {
    screen_rows(model, width, height).concat()
}

fn event(id: &str, msg: EventMsg) -> SessionEvent {
    SessionEvent {
        id: id.to_owned(),
        msg,
    }
}

fn key(code: KeyCode) -> KeyEvent {
    KeyEvent::new(code, KeyModifiers::none())
}

fn modified_key(code: KeyCode, modifiers: KeyModifiers) -> KeyEvent {
    KeyEvent::new(code, modifiers)
}

fn workspace_insert_model() -> UiModel {
    let mut model = fresh_model();
    model.screen = Screen::Workspace;
    model.mode = UiMode::Insert;
    model.focus = FocusTarget::Composer;
    model
}

fn workspace_normal_model() -> UiModel {
    let mut model = fresh_model();
    model.screen = Screen::Workspace;
    model.mode = UiMode::Normal;
    model.focus = FocusTarget::Transcript;
    model
}

fn dashboard_thread(idx: usize) -> ThreadListItem {
    ThreadListItem {
        thread_id: unread(&format!("thread-{idx}")),
        updated_at: format!("2026-05-31T00:{idx:02}:00Z"),
        last_user_message: Some(format!("message-{idx}")),
        last_assistant_message: None,
    }
}

fn start_turn(app: &mut App) {
    app.handle_session_event(
        event(
            "turn-start",
            EventMsg::TurnStarted {
                turn_id: String::from("turn-1"),
            },
        ),
        20,
    );
}

fn start_tool_call(app: &mut App, event_id: &str, call_id: &str, tool_name: &str, args: &str) {
    app.handle_session_event(
        event(
            event_id,
            EventMsg::ToolCallStarted(ToolCallStartedEvent {
                call_id: call_id.to_owned(),
                tool_name: tool_name.to_owned(),
                args_preview: args.to_owned(),
            }),
        ),
        20,
    );
}

fn complete_tool_call(
    app: &mut App,
    event_id: &str,
    call_id: &str,
    success: bool,
    error: Option<&str>,
) {
    app.handle_session_event(
        event(
            event_id,
            EventMsg::ToolCallCompleted(ToolCallCompletedEvent {
                call_id: call_id.to_owned(),
                success,
                output_preview: Some(String::from("BIG CONTENT")),
                error: error.map(str::to_owned),
                result_kind: ToolCallResultKind::Final,
                related_thread_id: None,
                file_change: None,
                file_changes: Vec::new(),
                todos: Vec::new(),
            }),
        ),
        20,
    );
}

fn complete_agent_message(app: &mut App, event_id: &str, item_id: &str, text: &str) {
    app.handle_session_event(
        event(
            event_id,
            EventMsg::AgentMessageCompleted {
                item_id: item_id.to_owned(),
                text: text.to_owned(),
            },
        ),
        20,
    );
}

fn reasoning_delta(app: &mut App, event_id: &str, item_id: &str, delta: &str) {
    app.handle_session_event(
        event(
            event_id,
            EventMsg::AgentReasoningDelta {
                item_id: item_id.to_owned(),
                delta: delta.to_owned(),
            },
        ),
        20,
    );
}

fn complete_reasoning(app: &mut App, event_id: &str, item_id: &str, text: &str) {
    app.handle_session_event(
        event(
            event_id,
            EventMsg::AgentReasoningCompleted {
                item_id: item_id.to_owned(),
                text: text.to_owned(),
            },
        ),
        20,
    );
}

/// A model in insert mode that knows two skills.
fn skills_fixture() -> UiModel {
    let mut model = workspace_insert_model();
    for (name, description) in [("deploy", "Deploy the app"), ("review", "Review a PR")] {
        model.available_skills.push(SkillMeta {
            name: name.to_string(),
            description: description.to_string(),
        });
    }
    model
}

fn plan_approval_params(thread: Thread) -> RequestPlanApprovalParams {
    RequestPlanApprovalParams {
        thread_id: thread.reference(),
        turn_id: "turn-1".to_string(),
        call_id: "call-1".to_string(),
        plan: "# The plan\n\n1. Refactor the module.".to_string(),
        reason: None,
    }
}

fn select_model_with_items(count: usize) -> UiModel {
    let mut model = workspace_normal_model();
    for idx in 0..count {
        model.push_info(&format!("item {idx}"));
    }
    model
}

fn enter_select(model: &mut UiModel, t0: u64) {
    let _ = model.handle_key_event_at(key(KeyCode::Esc), t0);
    let _ = model.handle_key_event_at(key(KeyCode::Esc), t0 + millis(100));
}

fn clipboard_content(effects: &[UiEffect]) -> Option<&str> {
    effects.iter().find_map(|effect| match &effect.kind {
        UiEffectKind::CopyToClipboard { content } => Some(content.as_str()),
        _ => None,
    })
}

fn preview_response(thread: Thread, initial_messages: Vec<EventMsg>) -> ThreadPreviewResponse {
    ThreadPreviewResponse {
        thread_id: thread.reference(),
        agent_path: Some("/root/worker".to_string()),
        agent_nickname: Some("worker".to_string()),
        status: AgentStatus::Running,
        is_live: true,
        initial_messages,
    }
}

fn open_preview(model: &mut UiModel, thread: Thread, messages: Vec<EventMsg>) {
    let effect = model.effect(
        EffectContext::ThreadPreview {
            thread_id: thread.id(),
        },
        UiEffectKind::ThreadPreview {
            thread_id: thread.id(),
        },
    );
    let effects = model.update(UiEvent::EffectCompleted {
        effect_id: effect.effect_id,
        result: UiEffectResult::ThreadPreview(preview_response(thread, messages)),
        viewport_height: 20,
    });
    assert!(effects.is_empty(), "a valid preview push emits no effects");
}

fn unwatch_targets(effects: &[UiEffect]) -> Vec<String> {
    effects
        .iter()
        .filter_map(|effect| match &effect.kind {
            UiEffectKind::ThreadUnwatch { thread_id } => Some(thread_id.text.clone()),
            _ => None,
        })
        .collect()
}

fn preview_targets(effects: &[UiEffect]) -> Vec<String> {
    effects
        .iter()
        .filter_map(|effect| match &effect.kind {
            UiEffectKind::ThreadPreview { thread_id } => Some(thread_id.text.clone()),
            _ => None,
        })
        .collect()
}

#[test]
fn failed_turn_start_restores_empty_composer_draft() {
    let mut model = fresh_model();
    let thread_id = Thread(1);
    model.current_thread_id = Some(thread_id.id());
    model.screen = Screen::Workspace;
    model.composer.set_text("draft prompt".to_string());

    let effects = model.request_turn_start();

    assert_eq!(effects.len(), 1);
    assert!(model.composer.is_empty());
    assert_eq!(model.composer.cursor(), 0);

    let _ = model.update(UiEvent::EffectFailed {
        effect_id: effects[0].effect_id,
        error: "temporary failure".to_string(),
        viewport_height: 20,
    });

    assert_eq!(model.composer.as_str(), "draft prompt");
    assert_eq!(model.composer.cursor(), "draft prompt".len());
    assert_eq!(model.mode, UiMode::Insert);
    assert_eq!(model.focus, FocusTarget::Composer);
}

#[test]
fn failed_turn_start_does_not_overwrite_new_composer_text() {
    let mut model = fresh_model();
    let thread_id = Thread(2);
    model.current_thread_id = Some(thread_id.id());
    model.screen = Screen::Workspace;
    model.composer.set_text("old draft".to_string());

    let effects = model.request_turn_start();
    model.composer.set_text("new draft".to_string());
    let _ = model.update(UiEvent::EffectFailed {
        effect_id: effects[0].effect_id,
        error: "temporary failure".to_string(),
        viewport_height: 20,
    });

    assert_eq!(model.composer.as_str(), "new draft");
}

#[test]
fn dashboard_thread_start_and_resume_failures_are_visible() {
    let mut model = fresh_model();
    let start_effect = model.effect(EffectContext::ThreadStart, UiEffectKind::ThreadStart);

    let _ = model.update(UiEvent::EffectFailed {
        effect_id: start_effect.effect_id,
        error: "server down".to_string(),
        viewport_height: 20,
    });

    assert_eq!(
        model.dashboard.error.as_deref(),
        Some("could not start thread: server down")
    );
    assert_eq!(model.screen, Screen::Dashboard);

    let thread_id = Thread(3);
    let resume_effect = model.effect(
        EffectContext::ThreadResume { thread_id: thread_id.id() },
        UiEffectKind::ThreadResume { thread_id: thread_id.id() },
    );
    let _ = model.update(UiEvent::EffectFailed {
        effect_id: resume_effect.effect_id,
        error: "missing".to_string(),
        viewport_height: 20,
    });

    assert_eq!(
        model.dashboard.error.as_deref(),
        Some(format!("could not resume thread {}: missing", thread_id.text()).as_str())
    );
    assert_eq!(model.screen, Screen::Dashboard);
}

#[test]
fn plan_mode_effect_is_optimistic_and_failure_reverts() {
    let mut model = fresh_model();
    let thread_id = Thread(4);
    model.current_thread_id = Some(thread_id.id());

    let effects = model.execute_command("plan");

    assert_eq!(effects.len(), 1);
    assert!(model.plan_mode);
    assert_eq!(model.effect_contexts.len(), 1);

    let _ = model.update(UiEvent::EffectFailed {
        effect_id: effects[0].effect_id,
        error: "nope".to_string(),
        viewport_height: 20,
    });

    assert!(!model.plan_mode);
    assert!(model.effect_contexts.is_empty());
    assert!(
        transcript_rows(&mut model, 80).join("\n")
            .contains("could not enable plan mode")
    );
}

#[test]
fn turn_start_effect_before_and_after_protocol_yields_one_running_turn() {
    let mut model = fresh_model();
    let response = || TurnStartResponse {
        turn_id: "turn-1".to_string(),
    };

    let _ = model.update(UiEvent::EffectCompleted {
        effect_id: EffectId(1),
        result: UiEffectResult::TurnStart(response()),
        viewport_height: 20,
    });
    model.apply_protocol_event(&event(
        "turn-start",
        EventMsg::TurnStarted {
            turn_id: "turn-1".to_string(),
        },
    ));
    let _ = model.update(UiEvent::EffectCompleted {
        effect_id: EffectId(2),
        result: UiEffectResult::TurnStart(response()),
        viewport_height: 20,
    });

    assert!(model.is_turn_running);
    assert_eq!(model.current_turn_id.as_deref(), Some("turn-1"));
}

#[test]
fn active_ask_user_request_switches_to_workspace_overlay() {
    let mut model = fresh_model();
    let thread_id = Thread(6);
    model.current_thread_id = Some(thread_id.id());
    let _ = model.update(UiEvent::ServerRequest(ServerRequest::AskUserQuestion {
        request_id: RequestId(42),
        params: AskUserQuestionParams {
            thread_id: thread_id.reference(),
            turn_id: "turn".to_string(),
            questions: vec![AskUserQuestion {
                question: "Pick a path?".to_string(),
                header: "Choice".to_string(),
                options: vec![AskUserQuestionOption {
                    label: "A".to_string(),
                    description: "Use option A".to_string(),
                    preview: None,
                }],
                multi_select: false,
            }],
        },
    }));

    assert_eq!(model.screen, Screen::Workspace);
    assert_eq!(model.mode, UiMode::Overlay);

    let rendered = screen_text(&mut model, 80, 24);

    assert!(rendered.contains("Pick a path?"), "{rendered}");
    assert!(rendered.contains("Use option A"), "{rendered}");
}

#[test]
fn confirming_question_picker_pushes_answer_summary_row() {
    let mut model = fresh_model();
    let thread_id = Thread(7);
    model.current_thread_id = Some(thread_id.id());
    let _ = model.update(UiEvent::ServerRequest(ServerRequest::AskUserQuestion {
        request_id: RequestId(42),
        params: AskUserQuestionParams {
            thread_id: thread_id.reference(),
            turn_id: "turn".to_string(),
            questions: vec![AskUserQuestion {
                question: "Pick a path?".to_string(),
                header: "Choice".to_string(),
                options: vec![
                    AskUserQuestionOption {
                        label: "A".to_string(),
                        description: "Use option A".to_string(),
                        preview: None,
                    },
                    AskUserQuestionOption {
                        label: "B".to_string(),
                        description: "Use option B".to_string(),
                        preview: None,
                    },
                ],
                multi_select: false,
            }],
        },
    }));

    let effects = press(&mut model, key(KeyCode::Enter));

    assert!(model.question_picker.is_none());
    assert!(matches!(
        &effects[0].kind,
        UiEffectKind::AnswerQuestion { request_id, .. } if *request_id == RequestId(42)
    ));

    let rendered = screen_text(&mut model, 80, 24);
    assert!(rendered.contains("? Pick a path?"), "{rendered}");
    assert!(rendered.contains("→ A"), "{rendered}");
}

#[test]
fn dashboard_does_not_render_question_picker_overlay() {
    let mut model = fresh_model();
    model.question_picker = Some(QuestionPicker::new(
        RequestId(42),
        AskUserQuestionParams {
            thread_id: unread("thread"),
            turn_id: "turn".to_string(),
            questions: vec![AskUserQuestion {
                question: "Pick a path?".to_string(),
                header: "Choice".to_string(),
                options: vec![AskUserQuestionOption {
                    label: "A".to_string(),
                    description: "Use option A".to_string(),
                    preview: None,
                }],
                multi_select: false,
            }],
        },
    ));
    model.screen = Screen::Dashboard;

    let rendered = screen_text(&mut model, 80, 24);

    assert!(!rendered.contains("Pick a path?"), "{rendered}");
    assert!(!rendered.contains("Use option A"), "{rendered}");
    assert!(rendered.contains("cazean"), "{rendered}");
}

#[test]
fn ask_user_request_from_inactive_thread_is_failed_without_picker() {
    let mut model = fresh_model();
    let active_thread = Thread(8);
    let stale_thread = Thread(9);
    model.current_thread_id = Some(active_thread.id());

    let effects = model.update(UiEvent::ServerRequest(ServerRequest::AskUserQuestion {
        request_id: RequestId(43),
        params: AskUserQuestionParams {
            thread_id: stale_thread.reference(),
            turn_id: "turn".to_string(),
            questions: vec![AskUserQuestion {
                question: "Pick a path?".to_string(),
                header: "Choice".to_string(),
                options: vec![AskUserQuestionOption {
                    label: "A".to_string(),
                    description: "Use option A".to_string(),
                    preview: None,
                }],
                multi_select: false,
            }],
        },
    }));

    assert_eq!(effects.len(), 1);
    assert!(model.question_picker.is_none());
    assert_ne!(model.mode, UiMode::Overlay);
    assert!(matches!(
        &effects[0].kind,
        UiEffectKind::FailServerRequest { request_id, error }
            if *request_id == RequestId(43)
                && error.message.contains("inactive thread")
    ));
}

#[test]
fn cancel_command_emits_turn_cancel_effect() {
    let mut model = fresh_model();
    let thread_id = Thread(10);
    model.current_thread_id = Some(thread_id.id());
    model.screen = Screen::Workspace;
    model.is_turn_running = true;

    let effects = model.execute_command("cancel");

    assert_eq!(effects.len(), 1);
    assert!(matches!(&effects[0].kind,
        UiEffectKind::TurnCancel { thread_id: got } if is_thread(got, thread_id)
    ));
    assert!(model.is_turn_cancelling);
}

#[test]
fn failed_cancel_restores_running_status_and_reports_error() {
    let mut model = fresh_model();
    let thread_id = Thread(11);
    model.current_thread_id = Some(thread_id.id());
    model.screen = Screen::Workspace;
    model.is_turn_running = true;
    model.current_turn_id = Some("turn-1".to_string());

    let effects = model.request_turn_cancel();
    assert_eq!(effects.len(), 1);
    assert!(model.is_turn_cancelling);

    let _ = model.update(UiEvent::EffectFailed {
        effect_id: effects[0].effect_id,
        error: "server down".to_string(),
        viewport_height: 20,
    });

    assert!(model.is_turn_running);
    assert!(!model.is_turn_cancelling);
    assert_eq!(model.status_line, "Running turn turn-1");
    assert!(
        transcript_rows(&mut model, 80).join("\n")
            .contains("could not cancel turn")
    );
}

#[test]
fn turn_interrupted_closes_question_picker_overlay() {
    let mut model = fresh_model();
    let thread_id = Thread(12);
    model.current_thread_id = Some(thread_id.id());
    model.screen = Screen::Workspace;
    model.mode = UiMode::Overlay;
    model.focus = FocusTarget::Overlay;
    model.is_turn_running = true;
    model.is_turn_cancelling = true;
    model.question_picker = Some(QuestionPicker::new(
        RequestId(1),
        AskUserQuestionParams {
            thread_id: thread_id.reference(),
            turn_id: "turn-1".into(),
            questions: Vec::new(),
        },
    ));

    model.apply_protocol_event(&event(
        "interrupted",
        EventMsg::TurnInterrupted {
            turn_id: "turn-1".to_string(),
            reason: "interrupted".to_string(),
        },
    ));

    assert!(model.question_picker.is_none());
    assert_eq!(model.mode, UiMode::Normal);
    assert_eq!(model.focus, FocusTarget::Transcript);
    assert!(!model.is_turn_running);
    assert!(!model.is_turn_cancelling);
}

#[test]
fn active_plan_approval_request_opens_overlay_and_renders_plan() {
    let mut model = fresh_model();
    let thread_id = Thread(13);
    model.current_thread_id = Some(thread_id.id());

    let effects = model.update(UiEvent::ServerRequest(ServerRequest::RequestPlanApproval {
        request_id: RequestId(50),
        params: plan_approval_params(thread_id),
    }));

    assert!(effects.is_empty());
    assert_eq!(model.screen, Screen::Workspace);
    assert_eq!(model.mode, UiMode::Overlay);
    assert!(model.plan_approval.is_some());

    let rendered = screen_text(&mut model, 80, 24);
    assert!(rendered.contains("Plan approval"), "{rendered}");
    assert!(rendered.contains("The plan"), "{rendered}");
    assert!(rendered.contains("Refactor the module."), "{rendered}");
}

#[test]
fn plan_approval_request_from_inactive_thread_is_failed() {
    let mut model = fresh_model();
    model.current_thread_id = Some(Thread(14).id());
    let stale_thread = Thread(15);

    let effects = model.update(UiEvent::ServerRequest(ServerRequest::RequestPlanApproval {
        request_id: RequestId(51),
        params: plan_approval_params(stale_thread),
    }));

    assert_eq!(effects.len(), 1);
    assert!(model.plan_approval.is_none());
    assert!(matches!(
        &effects[0].kind,
        UiEffectKind::FailServerRequest { request_id, error }
            if *request_id == RequestId(51)
                && error.message.contains("inactive thread")
    ));
}

#[test]
fn plan_approval_request_while_picker_pending_is_failed() {
    let mut model = fresh_model();
    let thread_id = Thread(16);
    model.current_thread_id = Some(thread_id.id());
    model.question_picker = Some(QuestionPicker::new(
        RequestId(1),
        AskUserQuestionParams {
            thread_id: thread_id.reference(),
            turn_id: "turn-1".into(),
            questions: Vec::new(),
        },
    ));

    let effects = model.update(UiEvent::ServerRequest(ServerRequest::RequestPlanApproval {
        request_id: RequestId(52),
        params: plan_approval_params(thread_id),
    }));

    assert!(model.plan_approval.is_none());
    assert!(matches!(
        &effects[0].kind,
        UiEffectKind::FailServerRequest { request_id, error }
            if *request_id == RequestId(52)
                && error.message.contains("already pending")
    ));
}

#[test]
fn ask_user_question_request_while_overlay_pending_is_failed() {
    let mut model = fresh_model();
    let thread_id = Thread(17);
    model.current_thread_id = Some(thread_id.id());
    model.question_picker = Some(QuestionPicker::new(
        RequestId(1),
        AskUserQuestionParams {
            thread_id: thread_id.reference(),
            turn_id: "turn-1".into(),
            questions: Vec::new(),
        },
    ));

    let effects = model.update(UiEvent::ServerRequest(ServerRequest::AskUserQuestion {
        request_id: RequestId(2),
        params: AskUserQuestionParams {
            thread_id: thread_id.reference(),
            turn_id: "turn-1".into(),
            questions: Vec::new(),
        },
    }));

    // The new request fails; the first picker stays untouched.
    assert!(matches!(
        &effects[0].kind,
        UiEffectKind::FailServerRequest { request_id, error }
            if *request_id == RequestId(2)
                && error.message.contains("already pending")
    ));
    let Some(picker) = model.question_picker.as_ref() else {
        panic!("first picker should remain pending");
    };
    assert_eq!(picker.request_id, RequestId(1));
}

#[test]
fn approving_plan_emits_respond_effect_and_closes_overlay() {
    let mut model = fresh_model();
    let thread_id = Thread(18);
    model.current_thread_id = Some(thread_id.id());
    let _ = model.update(UiEvent::ServerRequest(ServerRequest::RequestPlanApproval {
        request_id: RequestId(53),
        params: plan_approval_params(thread_id),
    }));

    let effects = press(&mut model, key(KeyCode::Char('a')));

    assert!(model.plan_approval.is_none());
    assert_eq!(model.mode, UiMode::Normal);
    assert_eq!(model.focus, FocusTarget::Transcript);
    assert!(matches!(
        &effects[0].kind,
        UiEffectKind::RespondPlanApproval { request_id, response }
            if *request_id == RequestId(53)
                && response.decision == PlanApprovalDecision::Approved
                && response.feedback.is_none()
    ));
}

#[test]
fn rejecting_plan_on_ctrl_enter_emits_respond_effect() {
    let mut model = fresh_model();
    let thread_id = Thread(19);
    model.current_thread_id = Some(thread_id.id());
    let _ = model.update(UiEvent::ServerRequest(ServerRequest::RequestPlanApproval {
        request_id: RequestId(54),
        params: plan_approval_params(thread_id),
    }));

    let _ = press(&mut model, key(KeyCode::Char('r')));
    for ch in "no tests".chars() {
        let _ = press(&mut model, key(KeyCode::Char(ch)));
    }
    let effects = press(&mut model, modified_key(KeyCode::Enter, KeyModifiers::control()));

    assert!(model.plan_approval.is_none());
    assert!(matches!(
        &effects[0].kind,
        UiEffectKind::RespondPlanApproval { request_id, response }
            if *request_id == RequestId(54)
                && response.decision == PlanApprovalDecision::Rejected
                && response.feedback.as_deref() == Some("no tests")
    ));
}

#[test]
fn turn_interrupted_closes_plan_approval_overlay() {
    let mut model = fresh_model();
    let thread_id = Thread(20);
    model.current_thread_id = Some(thread_id.id());
    model.screen = Screen::Workspace;
    model.mode = UiMode::Overlay;
    model.focus = FocusTarget::Overlay;
    model.is_turn_running = true;
    model.plan_approval = Some(PlanApprovalOverlay::new(
        RequestId(55),
        plan_approval_params(thread_id),
    ));

    model.apply_protocol_event(&event(
        "interrupted",
        EventMsg::TurnInterrupted {
            turn_id: "turn-1".to_string(),
            reason: "interrupted".to_string(),
        },
    ));

    assert!(model.plan_approval.is_none());
    assert_eq!(model.mode, UiMode::Normal);
    assert_eq!(model.focus, FocusTarget::Transcript);
}

#[test]
fn replaying_initial_messages_reconstructs_without_active_streams() {
    let mut model = fresh_model();
    let thread_id = Thread(21);
    let _ = model.update(UiEvent::EffectCompleted {
        effect_id: EffectId(7),
        result: UiEffectResult::ThreadResume(ThreadResumeResponse {
            thread_id: thread_id.reference(),
            initial_messages: vec![
                EventMsg::UserMessage {
                    text: "hello".to_string(),
                },
                EventMsg::AgentReasoningCompleted {
                    item_id: "r1".to_string(),
                    text: "thinking".to_string(),
                },
                EventMsg::AgentMessageCompleted {
                    item_id: "a1".to_string(),
                    text: "world".to_string(),
                },
            ],
        }),
        viewport_height: 20,
    });

    let joined = transcript_rows(&mut model, 80).join("\n");
    assert!(joined.contains("▌ hello"));
    assert!(joined.contains("thinking"));
    assert!(joined.contains("• world"));
    assert!(model.transcript.active_assistant_lines.is_none());
    assert!(model.transcript.active_reasoning_lines.is_none());
}

#[test]
fn insert_mode_paste_inserts_at_cursor_and_normalizes_newlines() {
    let mut model = workspace_insert_model();
    model.composer.set_text("ab".to_string());

    let _ = press(&mut model, key(KeyCode::Left));
    let effects = model.handle_terminal_event(TerminalEvent::Paste("X\r\nY\rZ".to_string()), START);

    assert!(effects.is_empty());
    assert_eq!(model.composer.as_str(), "aX\nY\nZb");
    assert_eq!(model.composer.cursor(), "aX\nY\nZ".len());
}

#[test]
fn paste_while_other_editing_inserts_into_answer() {
    let mut model = fresh_model();
    let thread_id = Thread(22);
    model.current_thread_id = Some(thread_id.id());
    let _ = model.update(UiEvent::ServerRequest(ServerRequest::AskUserQuestion {
        request_id: RequestId(42),
        params: AskUserQuestionParams {
            thread_id: thread_id.reference(),
            turn_id: "turn".to_string(),
            questions: vec![AskUserQuestion {
                question: "Pick a path?".to_string(),
                header: "Choice".to_string(),
                options: vec![
                    AskUserQuestionOption {
                        label: "A".to_string(),
                        description: "Use option A".to_string(),
                        preview: None,
                    },
                    AskUserQuestionOption {
                        label: "B".to_string(),
                        description: "Use option B".to_string(),
                        preview: None,
                    },
                ],
                multi_select: false,
            }],
        },
    }));

    // Move to the "Other" row and start editing, then paste.
    let _ = press(&mut model, key(KeyCode::Down));
    let _ = press(&mut model, key(KeyCode::Down));
    let _ = press(&mut model, key(KeyCode::Enter));
    let _ = model.handle_terminal_event(TerminalEvent::Paste("pasted\nanswer".to_string()), START);
    let effects = press(&mut model, key(KeyCode::Enter));

    assert!(matches!(
        &effects[0].kind,
        UiEffectKind::AnswerQuestion { request_id, response }
            if *request_id == RequestId(42)
                && response.answers[0].selected == vec!["pasted answer".to_string()]
    ));
}

#[test]
fn insert_mode_left_and_right_edit_inside_composer() {
    let mut model = workspace_insert_model();
    model.composer.set_text("helo".to_string());

    let _ = press(&mut model, key(KeyCode::Left));
    let _ = press(&mut model, key(KeyCode::Char('l')));
    let _ = press(&mut model, key(KeyCode::Right));
    let _ = press(&mut model, key(KeyCode::Char('!')));

    assert_eq!(model.composer.as_str(), "hello!");
    assert_eq!(model.composer.cursor(), "hello!".len());
}

#[test]
fn insert_mode_backspace_and_delete_edit_around_cursor() {
    let mut model = workspace_insert_model();
    model.composer.set_text("abc".to_string());

    let _ = press(&mut model, key(KeyCode::Left));
    let _ = press(&mut model, key(KeyCode::Backspace));
    assert_eq!(model.composer.as_str(), "ac");
    assert_eq!(model.composer.cursor(), "a".len());

    let _ = press(&mut model, key(KeyCode::Delete));
    assert_eq!(model.composer.as_str(), "a");
    assert_eq!(model.composer.cursor(), "a".len());
}

#[test]
fn insert_mode_home_and_end_move_within_current_line() {
    let mut model = workspace_insert_model();
    model.composer.set_text("abc\ndef".to_string());

    let _ = press(&mut model, key(KeyCode::Home));
    assert_eq!(model.composer.cursor(), "abc\n".len());

    let _ = press(&mut model, key(KeyCode::End));
    assert_eq!(model.composer.cursor(), "abc\ndef".len());
}

#[test]
fn insert_mode_up_and_down_preserve_visual_column() {
    let mut model = workspace_insert_model();
    model.composer.set_text("abcdef\nx\nabcdef".to_string());

    let _ = press(&mut model, key(KeyCode::Up));
    assert_eq!(model.composer.cursor(), "abcdef\nx".len());

    let _ = press(&mut model, key(KeyCode::Up));
    assert_eq!(model.composer.cursor(), "abcdef".len());

    let _ = press(&mut model, key(KeyCode::Down));
    assert_eq!(model.composer.cursor(), "abcdef\nx".len());

    let _ = press(&mut model, key(KeyCode::Down));
    assert_eq!(model.composer.cursor(), "abcdef\nx\nabcdef".len());
}

#[test]
fn insert_mode_up_and_down_use_wrapped_visual_rows() {
    let mut model = workspace_insert_model();
    model.terminal_width = 5;
    model.composer.set_text("abcdef".to_string());

    let _ = press(&mut model, key(KeyCode::Up));

    assert_eq!(model.composer.cursor(), "a".len());
}

#[test]
fn ctrl_enter_sends_full_composer_text_and_clears_cursor_state() {
    let mut model = workspace_insert_model();
    let thread_id = Thread(23);
    model.current_thread_id = Some(thread_id.id());
    model.composer.set_text("hello\nworld".to_string());

    let effects = press(&mut model, modified_key(KeyCode::Enter, KeyModifiers::control()));

    assert_eq!(effects.len(), 1);
    assert!(matches!(
        &effects[0].kind,
        UiEffectKind::TurnStart {
            thread_id: got,
            input,
        } if is_thread(got, thread_id) && input == "hello\nworld"
    ));
    assert!(model.composer.is_empty());
    assert_eq!(model.composer.cursor(), 0);
    assert_eq!(model.mode, UiMode::Normal);
    assert_eq!(model.focus, FocusTarget::Transcript);
}

#[test]
fn typing_slash_opens_skill_popup_and_filters() {
    let mut model = skills_fixture();

    let _ = press(&mut model, key(KeyCode::Char('/')));
    let Some(popup) = model.skill_popup.as_ref() else {
        panic!("expected popup to open on '/'");
    };
    assert_eq!(popup.selected_name(), Some("deploy"));

    let _ = press(&mut model, key(KeyCode::Char('r')));
    let Some(popup) = model.skill_popup.as_ref() else {
        panic!("expected popup to stay open while filtering");
    };
    assert_eq!(popup.selected_name(), Some("review"));

    // No match closes the popup; backspacing back into a match reopens it.
    let _ = press(&mut model, key(KeyCode::Char('z')));
    assert!(model.skill_popup.is_none());
    let _ = press(&mut model, key(KeyCode::Backspace));
    assert!(model.skill_popup.is_some());
}

#[test]
fn slash_without_skills_does_not_open_popup() {
    let mut model = workspace_insert_model();

    let _ = press(&mut model, key(KeyCode::Char('/')));
    assert!(model.skill_popup.is_none());
}

#[test]
fn slash_mid_text_does_not_open_popup() {
    let mut model = skills_fixture();
    for ch in "run /".chars() {
        let _ = press(&mut model, key(KeyCode::Char(ch)));
    }
    assert!(model.skill_popup.is_none());
}

#[test]
fn tab_accepts_selected_skill_completion() {
    let mut model = skills_fixture();

    let _ = press(&mut model, key(KeyCode::Char('/')));
    let _ = press(&mut model, key(KeyCode::Down));
    let _ = press(&mut model, key(KeyCode::Tab));

    assert_eq!(model.composer.as_str(), "/review ");
    assert!(model.skill_popup.is_none());
    assert_eq!(model.mode, UiMode::Insert);
}

#[test]
fn enter_accepts_skill_completion_instead_of_newline() {
    let mut model = skills_fixture();

    for ch in "/dep".chars() {
        let _ = press(&mut model, key(KeyCode::Char(ch)));
    }
    let _ = press(&mut model, key(KeyCode::Enter));

    assert_eq!(model.composer.as_str(), "/deploy ");
    assert!(model.skill_popup.is_none());
}

#[test]
fn esc_closes_skill_popup_but_stays_in_insert_mode() {
    let mut model = skills_fixture();

    let _ = press(&mut model, key(KeyCode::Char('/')));
    assert!(model.skill_popup.is_some());

    let _ = press(&mut model, key(KeyCode::Esc));
    assert!(model.skill_popup.is_none());
    assert_eq!(model.mode, UiMode::Insert);
    assert_eq!(model.composer.as_str(), "/");

    // A second Esc leaves Insert mode as usual.
    let _ = press(&mut model, key(KeyCode::Esc));
    assert_eq!(model.mode, UiMode::Normal);
}

#[test]
fn ctrl_enter_with_skill_popup_open_still_submits() {
    let mut model = skills_fixture();
    let thread_id = Thread(24);
    model.current_thread_id = Some(thread_id.id());

    for ch in "/deploy".chars() {
        let _ = press(&mut model, key(KeyCode::Char(ch)));
    }
    assert!(model.skill_popup.is_some());
    let effects = press(&mut model, modified_key(KeyCode::Enter, KeyModifiers::control()));

    assert_eq!(effects.len(), 1);
    assert!(matches!(
        &effects[0].kind,
        UiEffectKind::TurnStart { input, .. } if input == "/deploy"
    ));
    assert!(model.skill_popup.is_none());
    assert_eq!(model.mode, UiMode::Normal);
    assert_eq!(model.focus, FocusTarget::Transcript);
}

#[test]
fn super_enter_inserts_newline() {
    let mut model = workspace_insert_model();
    let thread_id = Thread(25);
    model.current_thread_id = Some(thread_id.id());
    model.composer.set_text("hello".to_string());

    let effects = press(&mut model, modified_key(
        KeyCode::Enter,
        KeyModifiers {
            super_key: true,
            ..KeyModifiers::none()
        },
    ));

    assert!(effects.is_empty());
    assert_eq!(model.composer.as_str(), "hello\n");
}

#[test]
fn dashboard_keys_do_not_dispatch_hidden_question_picker() {
    let mut model = fresh_model();
    let thread_id = Thread(26);
    model.dashboard.items = vec![ThreadListItem {
        thread_id: thread_id.reference(),
        updated_at: "2026-05-31T00:01:00Z".to_string(),
        last_user_message: Some("hello".to_string()),
        last_assistant_message: None,
    }];
    model.question_picker = Some(QuestionPicker::new(
        RequestId(42),
        AskUserQuestionParams {
            thread_id: thread_id.reference(),
            turn_id: "turn".to_string(),
            questions: vec![AskUserQuestion {
                question: "Pick a path?".to_string(),
                header: "Choice".to_string(),
                options: vec![AskUserQuestionOption {
                    label: "A".to_string(),
                    description: "Use option A".to_string(),
                    preview: None,
                }],
                multi_select: false,
            }],
        },
    ));
    model.screen = Screen::Dashboard;

    let effects = press(&mut model, key(KeyCode::Enter));

    assert_eq!(effects.len(), 1);
    assert!(matches!(&effects[0].kind,
        UiEffectKind::ThreadResume { thread_id: got } if is_thread(got, thread_id)
    ));
    assert!(model.question_picker.is_some());
}

#[test]
fn dashboard_enter_resumes_selected_thread() {
    let mut model = fresh_model();
    let thread_id = Thread(27);
    model.dashboard.items = vec![ThreadListItem {
        thread_id: thread_id.reference(),
        updated_at: "2026-05-31T00:01:00Z".to_string(),
        last_user_message: Some("hello".to_string()),
        last_assistant_message: None,
    }];

    let effects = press(&mut model, key(KeyCode::Enter));

    assert_eq!(effects.len(), 1);
    assert!(matches!(&effects[0].kind,
        UiEffectKind::ThreadResume { thread_id: got } if is_thread(got, thread_id)
    ));
}

#[test]
fn vim_modes_and_send_command_start_turn() {
    let mut model = fresh_model();
    let thread_id = Thread(28);
    model.current_thread_id = Some(thread_id.id());
    model.screen = Screen::Workspace;
    model.composer.set_text("hello".to_string());

    let _ = press(&mut model, key(KeyCode::Char(':')));
    for ch in "send".chars() {
        let _ = press(&mut model, key(KeyCode::Char(ch)));
    }
    let effects = press(&mut model, key(KeyCode::Enter));

    assert_eq!(effects.len(), 1);
    assert!(matches!(
        &effects[0].kind,
        UiEffectKind::TurnStart {
            thread_id: got,
            input,
        } if is_thread(got, thread_id) && input == "hello"
    ));
    assert!(model.composer.is_empty());
    assert_eq!(model.composer.cursor(), 0);
}

#[test]
fn ctrl_c_exits_across_modes() {
    for mode in [
        UiMode::Normal,
        UiMode::Insert,
        UiMode::Command,
        UiMode::Overlay,
    ] {
        let mut model = fresh_model();
        model.screen = Screen::Workspace;
        model.mode = mode;
        if mode == UiMode::Overlay {
            model.question_picker = Some(QuestionPicker::new(
                RequestId(1),
                AskUserQuestionParams {
                    thread_id: unread("t"),
                    turn_id: "u".into(),
                    questions: Vec::new(),
                },
            ));
        }
        let effects =
            press(&mut model, KeyEvent::new(KeyCode::Char('c'), KeyModifiers::control()));
        assert_eq!(effects.len(), 1);
        assert!(matches!(&effects[0].kind, UiEffectKind::Exit));
    }
}

#[test]
fn ctrl_c_cancels_running_turn_across_modes() {
    for mode in [
        UiMode::Normal,
        UiMode::Insert,
        UiMode::Command,
        UiMode::Overlay,
    ] {
        let mut model = fresh_model();
        let thread_id = Thread(29);
        model.current_thread_id = Some(thread_id.id());
        model.screen = Screen::Workspace;
        model.mode = mode;
        model.is_turn_running = true;
        model.current_turn_id = Some("turn-1".to_string());
        if mode == UiMode::Overlay {
            model.question_picker = Some(QuestionPicker::new(
                RequestId(1),
                AskUserQuestionParams {
                    thread_id: thread_id.reference(),
                    turn_id: "turn-1".into(),
                    questions: Vec::new(),
                },
            ));
        }

        let effects =
            press(&mut model, KeyEvent::new(KeyCode::Char('c'), KeyModifiers::control()));

        assert_eq!(effects.len(), 1);
        assert!(matches!(&effects[0].kind,
            UiEffectKind::TurnCancel { thread_id: got } if is_thread(got, thread_id)
        ));
        assert!(model.is_turn_cancelling);
        assert_eq!(model.status_line, "Cancelling turn");
    }
}

#[test]
fn esc_does_not_cancel_running_turn_in_normal_mode() {
    let mut model = fresh_model();
    let thread_id = Thread(30);
    model.current_thread_id = Some(thread_id.id());
    model.screen = Screen::Workspace;
    model.mode = UiMode::Normal;
    model.is_turn_running = true;
    model.current_turn_id = Some("turn-1".to_string());

    let effects = press(&mut model, KeyEvent::new(KeyCode::Esc, KeyModifiers::none()));

    assert!(
        effects.is_empty(),
        "interrupting is reserved for Ctrl-C; Esc must be a no-op"
    );
    assert!(!model.is_turn_cancelling);
}

#[test]
fn esc_dismisses_overlay_instead_of_cancelling_turn() {
    let mut model = fresh_model();
    let thread_id = Thread(31);
    model.current_thread_id = Some(thread_id.id());
    model.screen = Screen::Workspace;
    model.mode = UiMode::Overlay;
    model.is_turn_running = true;
    model.current_turn_id = Some("turn-1".to_string());
    model.question_picker = Some(QuestionPicker::new(
        RequestId(1),
        AskUserQuestionParams {
            thread_id: thread_id.reference(),
            turn_id: "turn-1".into(),
            questions: vec![AskUserQuestion {
                question: "Proceed?".to_string(),
                header: "Choice".to_string(),
                options: vec![AskUserQuestionOption {
                    label: "Yes".to_string(),
                    description: "go ahead".to_string(),
                    preview: None,
                }],
                multi_select: false,
            }],
        },
    ));

    let effects = press(&mut model, KeyEvent::new(KeyCode::Esc, KeyModifiers::none()));

    assert!(
        !effects
            .iter()
            .any(|effect| matches!(effect.kind, UiEffectKind::TurnCancel { .. })),
        "overlay Esc must dismiss the picker, not cancel the turn"
    );
    assert!(
        effects
            .iter()
            .any(|effect| matches!(effect.kind, UiEffectKind::FailQuestion { .. })),
        "overlay Esc should decline the question"
    );
    assert!(!model.is_turn_cancelling);
    assert!(model.question_picker.is_none());
}

#[test]
fn esc_in_insert_mode_returns_to_normal_even_while_turn_running() {
    let mut model = fresh_model();
    let thread_id = Thread(32);
    model.current_thread_id = Some(thread_id.id());
    model.screen = Screen::Workspace;
    model.mode = UiMode::Insert;
    model.is_turn_running = true;

    let effects = press(&mut model, KeyEvent::new(KeyCode::Esc, KeyModifiers::none()));

    assert!(
        !effects
            .iter()
            .any(|effect| matches!(effect.kind, UiEffectKind::TurnCancel { .. })),
        "insert-mode Esc must switch modes, not cancel the turn"
    );
    assert_eq!(model.mode, UiMode::Normal);
    assert!(!model.is_turn_cancelling);
}

#[test]
fn double_esc_within_window_enters_transcript_select() {
    let mut model = select_model_with_items(3);
    enter_select(&mut model, START);

    assert_eq!(model.mode, UiMode::TranscriptSelect);
    assert!(!model.auto_scroll);
    assert_eq!(model.transcript_select.map(|state| state.selected), Some(2));
}

#[test]
fn slow_double_esc_stays_normal() {
    let mut model = select_model_with_items(1);
    let t0 = START;
    let _ = model.handle_key_event_at(key(KeyCode::Esc), t0);
    let _ = model.handle_key_event_at(key(KeyCode::Esc), t0 + millis(600));

    assert_eq!(model.mode, UiMode::Normal);
    assert!(model.transcript_select.is_none());
}

#[test]
fn esc_from_insert_then_esc_enters_select() {
    let mut model = workspace_insert_model();
    let id = model.transcript.next_item_id();
    model.transcript.push_history(TranscriptItem::info(id, "row"));

    let t0 = START;
    let _ = model.handle_key_event_at(key(KeyCode::Esc), t0);
    assert_eq!(model.mode, UiMode::Normal);
    let _ = model.handle_key_event_at(key(KeyCode::Esc), t0 + millis(100));

    assert_eq!(model.mode, UiMode::TranscriptSelect);
}

#[test]
fn key_between_escs_breaks_chord() {
    let mut model = select_model_with_items(1);
    let t0 = START;
    let _ = model.handle_key_event_at(key(KeyCode::Esc), t0);
    let _ = model.handle_key_event_at(key(KeyCode::Char('j')), t0 + millis(50));
    let _ = model.handle_key_event_at(key(KeyCode::Esc), t0 + millis(100));

    assert_eq!(model.mode, UiMode::Normal);
}

#[test]
fn double_esc_on_empty_transcript_stays_normal() {
    let mut model = workspace_normal_model();
    enter_select(&mut model, START);

    assert_eq!(model.mode, UiMode::Normal);
    assert!(model.transcript_select.is_none());
    assert_eq!(model.status_line, "Transcript is empty");
}

#[test]
fn select_navigation_clamps_and_scrolls() {
    let mut model = select_model_with_items(8);
    model.viewport_height = 4;
    model.transcript_inner_width = 40;
    let t0 = START;
    enter_select(&mut model, t0);

    // Starts on the last item, scrolled so it is visible.
    assert_eq!(model.transcript_select.map(|state| state.selected), Some(7));
    assert!(model.scroll > 0);

    let t = t0 + millis(200);
    let _ = model.handle_key_event_at(key(KeyCode::Char('j')), t);
    assert_eq!(
        model.transcript_select.map(|state| state.selected),
        Some(7),
        "j clamps at the last item"
    );

    let _ = model.handle_key_event_at(key(KeyCode::Char('g')), t);
    let _ = model.handle_key_event_at(key(KeyCode::Char('g')), t);
    assert_eq!(
        model.transcript_select.map(|state| state.selected),
        Some(0),
        "gg jumps to the first item"
    );
    assert_eq!(model.scroll, 0, "jumping to the first item scrolls to top");

    let _ = model.handle_key_event_at(key(KeyCode::Char('k')), t);
    assert_eq!(
        model.transcript_select.map(|state| state.selected),
        Some(0),
        "k clamps at the first item"
    );
}

#[test]
fn select_esc_and_q_exit_without_app_exit() {
    for code in [KeyCode::Esc, KeyCode::Char('q')] {
        let mut model = select_model_with_items(2);
        let t0 = START;
        enter_select(&mut model, t0);
        assert_eq!(model.mode, UiMode::TranscriptSelect);

        let effects = model.handle_key_event_at(key(code), t0 + millis(2000));
        assert!(effects.is_empty(), "{code:?} must not exit the app");
        assert_eq!(model.mode, UiMode::Normal);
        assert!(model.transcript_select.is_none());
    }
}

fn complete_tool_call_with_output(app: &mut App, event_id: &str, call_id: &str, output: &str) {
    app.handle_session_event(
        event(
            event_id,
            EventMsg::ToolCallCompleted(ToolCallCompletedEvent {
                call_id: call_id.to_owned(),
                success: true,
                output_preview: Some(output.to_owned()),
                error: None,
                result_kind: ToolCallResultKind::Final,
                related_thread_id: None,
                file_change: None,
                file_changes: Vec::new(),
                todos: Vec::new(),
            }),
        ),
        20,
    );
}

#[test]
fn y_copies_tool_result_then_second_y_copies_args() {
    let mut app = App::new();
    start_turn(&mut app);
    start_tool_call(&mut app, "1", "call-1", "run_command", "{\"cmd\":\"ls\"}");
    complete_tool_call(&mut app, "2", "call-1", true, None);

    let t0 = START;
    enter_select(&mut app.model, t0);
    assert_eq!(app.model.mode, UiMode::TranscriptSelect);

    let effects = app
        .model
        .handle_key_event_at(key(KeyCode::Char('y')), t0 + millis(200));
    assert_eq!(clipboard_content(&effects), Some("BIG CONTENT"));

    let effects = app
        .model
        .handle_key_event_at(key(KeyCode::Char('y')), t0 + millis(300));
    assert_eq!(clipboard_content(&effects), Some("{\"cmd\":\"ls\"}"));

    // After the chord window the next y copies the result again.
    let effects = app
        .model
        .handle_key_event_at(key(KeyCode::Char('y')), t0 + millis(1200));
    assert_eq!(clipboard_content(&effects), Some("BIG CONTENT"));
}

#[test]
fn y_on_running_tool_falls_back_to_args() {
    let mut app = App::new();
    start_turn(&mut app);
    start_tool_call(
        &mut app,
        "1",
        "call-1",
        "run_command",
        "{\"cmd\":\"sleep\"}",
    );

    let t0 = START;
    enter_select(&mut app.model, t0);
    let effects = app
        .model
        .handle_key_event_at(key(KeyCode::Char('y')), t0 + millis(200));
    assert_eq!(clipboard_content(&effects), Some("{\"cmd\":\"sleep\"}"));
}

#[test]
fn batch_tool_selection_moves_between_entries_and_y_copies_one_entry() {
    let mut app = App::new();
    start_turn(&mut app);
    start_tool_call(&mut app, "1", "call-1", "run_command", "{\"cmd\":\"one\"}");
    start_tool_call(&mut app, "2", "call-2", "run_command", "{\"cmd\":\"two\"}");
    complete_tool_call_with_output(&mut app, "3", "call-1", "output one");
    complete_tool_call_with_output(&mut app, "4", "call-2", "output two");

    let t0 = START;
    enter_select(&mut app.model, t0);
    assert_eq!(
        app.model
            .transcript_select
            .and_then(|state| state.selected_tool_entry),
        Some(1),
        "selecting a final batch row starts on its last entry"
    );

    let effects = app
        .model
        .handle_key_event_at(key(KeyCode::Char('y')), t0 + millis(100));
    assert_eq!(clipboard_content(&effects), Some("output two"));

    let _ = app
        .model
        .handle_key_event_at(key(KeyCode::Char('k')), t0 + millis(200));
    assert_eq!(
        app.model
            .transcript_select
            .and_then(|state| state.selected_tool_entry),
        Some(0)
    );
    let effects = app
        .model
        .handle_key_event_at(key(KeyCode::Char('y')), t0 + millis(300));
    assert_eq!(clipboard_content(&effects), Some("output one"));
}

#[test]
fn yy_on_batch_tool_entry_copies_only_that_entry_args() {
    let mut app = App::new();
    start_turn(&mut app);
    start_tool_call(&mut app, "1", "call-1", "run_command", "{\"cmd\":\"one\"}");
    start_tool_call(&mut app, "2", "call-2", "run_command", "{\"cmd\":\"two\"}");
    complete_tool_call_with_output(&mut app, "3", "call-1", "output one");
    complete_tool_call_with_output(&mut app, "4", "call-2", "output two");

    let t0 = START;
    enter_select(&mut app.model, t0);
    let _ = app
        .model
        .handle_key_event_at(key(KeyCode::Char('y')), t0 + millis(100));
    let effects = app
        .model
        .handle_key_event_at(key(KeyCode::Char('y')), t0 + millis(200));
    assert_eq!(clipboard_content(&effects), Some("{\"cmd\":\"two\"}"));
}

#[test]
fn y_on_running_batch_tool_entry_falls_back_to_that_entry_args() {
    let mut app = App::new();
    start_turn(&mut app);
    start_tool_call(&mut app, "1", "call-1", "run_command", "{\"cmd\":\"one\"}");
    start_tool_call(&mut app, "2", "call-2", "run_command", "{\"cmd\":\"two\"}");

    let t0 = START;
    enter_select(&mut app.model, t0);
    let effects = app
        .model
        .handle_key_event_at(key(KeyCode::Char('y')), t0 + millis(100));
    assert_eq!(clipboard_content(&effects), Some("{\"cmd\":\"two\"}"));
}

#[test]
fn batch_tool_selection_leaves_row_after_last_entry() {
    let mut app = App::new();
    start_turn(&mut app);
    start_tool_call(&mut app, "1", "call-1", "run_command", "{\"cmd\":\"one\"}");
    start_tool_call(&mut app, "2", "call-2", "run_command", "{\"cmd\":\"two\"}");
    complete_agent_message(&mut app, "3", "assistant-1", "done");

    let t0 = START;
    enter_select(&mut app.model, t0);
    let _ = app
        .model
        .handle_key_event_at(key(KeyCode::Char('k')), t0 + millis(100));
    assert_eq!(
        app.model
            .transcript_select
            .and_then(|state| state.selected_tool_entry),
        Some(1)
    );
    let _ = app
        .model
        .handle_key_event_at(key(KeyCode::Char('j')), t0 + millis(200));
    assert_eq!(
        app.model.transcript_select.map(|state| state.selected),
        Some(1),
        "j from the last batch entry moves to the next transcript item"
    );
}

#[test]
fn y_copies_user_message_and_assistant_raw_markdown() {
    let mut app = App::new();
    start_turn(&mut app);
    app.handle_session_event(
        event(
            "1",
            EventMsg::UserMessage {
                text: String::from("hello there"),
            },
        ),
        20,
    );
    let markdown = "answer:\n\n```rust\nlet x = 1;\n```";
    complete_agent_message(&mut app, "2", "assistant-1", markdown);

    let t0 = START;
    enter_select(&mut app.model, t0);
    // Last item is the assistant message.
    let effects = app
        .model
        .handle_key_event_at(key(KeyCode::Char('y')), t0 + millis(200));
    assert_eq!(clipboard_content(&effects), Some(markdown));

    let t = t0 + millis(2000);
    let _ = app.model.handle_key_event_at(key(KeyCode::Char('k')), t);
    let effects = app
        .model
        .handle_key_event_at(key(KeyCode::Char('y')), t + millis(100));
    assert_eq!(clipboard_content(&effects), Some("hello there"));
}

#[test]
fn turn_interrupted_exits_select_mode() {
    let mut model = select_model_with_items(2);
    let thread_id = Thread(33);
    model.current_thread_id = Some(thread_id.id());
    enter_select(&mut model, START);
    assert_eq!(model.mode, UiMode::TranscriptSelect);

    model.apply_protocol_event(&event(
        "interrupted",
        EventMsg::TurnInterrupted {
            turn_id: "turn-1".to_string(),
            reason: "interrupted".to_string(),
        },
    ));

    assert_eq!(model.mode, UiMode::Normal);
    assert!(model.transcript_select.is_none());
}

#[test]
fn clipboard_payload_truncates_on_char_boundary() {
    let long = "é".repeat(MAX_CLIPBOARD_BYTES);
    let (clipped, truncated) = clip_for_clipboard(long);
    assert!(truncated);
    assert!(clipped.len() <= MAX_CLIPBOARD_BYTES);
    assert!(clipped.chars().all(|c| c == 'é'));

    let (kept, truncated) = clip_for_clipboard(String::from("short"));
    assert!(!truncated);
    assert_eq!(kept, "short");
}

fn tool_started(call_id: &str, args: &str) -> EventMsg {
    EventMsg::ToolCallStarted(ToolCallStartedEvent {
        call_id: call_id.to_owned(),
        tool_name: String::from("run_command"),
        args_preview: args.to_owned(),
    })
}

fn tool_completed(call_id: &str, output: &str) -> EventMsg {
    EventMsg::ToolCallCompleted(ToolCallCompletedEvent {
        call_id: call_id.to_owned(),
        success: true,
        output_preview: Some(output.to_owned()),
        error: None,
        result_kind: ToolCallResultKind::Final,
        related_thread_id: None,
        file_changes: Vec::new(),
        todos: Vec::new(),
        file_change: None,
    })
}

#[test]
fn preview_batch_selection_y_copies_one_entry() {
    let mut model = workspace_normal_model();
    let child = Thread(34);
    open_preview(
        &mut model,
        child,
        vec![
            tool_started("call-1", "{\"cmd\":\"one\"}"),
            tool_started("call-2", "{\"cmd\":\"two\"}"),
            tool_completed("call-1", "output one"),
            tool_completed("call-2", "output two"),
        ],
    );

    let t0 = START;
    let _ = model.handle_key_event_at(key(KeyCode::Esc), t0);
    let _ = model.handle_key_event_at(key(KeyCode::Esc), t0 + millis(50));
    let view = model
        .preview_stack
        .last()
        .unwrap_or_else(|| panic!("preview view"));
    assert!(view.select_mode);
    assert_eq!(view.selected_tool_entry, Some(0));

    let effects =
        model.handle_key_event_at(key(KeyCode::Char('y')), t0 + millis(100));
    assert_eq!(clipboard_content(&effects), Some("output one"));
    let _ = model.handle_key_event_at(key(KeyCode::Char('j')), t0 + millis(150));
    let effects =
        model.handle_key_event_at(key(KeyCode::Char('y')), t0 + millis(200));
    assert_eq!(clipboard_content(&effects), Some("output two"));
}

#[test]
fn final_spawn_completion_records_related_thread_on_entry() {
    let mut app = App::new();
    let child_thread_id = Thread(35);

    start_turn(&mut app);
    start_tool_call(
        &mut app,
        "2",
        "c1",
        "spawn_agent",
        "{\"description\":\"inspect\",\"prompt\":\"inspect\"}",
    );
    app.handle_session_event(
        event(
            "3",
            EventMsg::ToolCallCompleted(ToolCallCompletedEvent {
                call_id: String::from("c1"),
                success: true,
                output_preview: Some(String::from("{\"status\":\"completed\"}")),
                error: None,
                result_kind: ToolCallResultKind::Final,
                related_thread_id: Some(child_thread_id.id()),
                file_changes: Vec::new(),
                todos: Vec::new(),
                file_change: None,
            }),
        ),
        20,
    );

    let group = app
        .model
        .transcript.items
        .iter()
        .find_map(|item| item.tool_group_cell())
        .expect("spawn tool row");
    assert_eq!(
        group.subagent_thread_id().map(|id| id.text),
        Some(child_thread_id.text())
    );
    assert!(group.is_spawn_agent());

    let joined = transcript_strings(&mut app).join("\n");
    assert!(joined.contains("↳ subagent"), "{joined}");
}

#[test]
fn enter_on_subagent_row_emits_one_preview_effect_and_preserves_selection() {
    let mut app = App::new();
    let child_thread_id = Thread(36);

    start_turn(&mut app);
    start_tool_call(
        &mut app,
        "2",
        "c1",
        "spawn_agent",
        "{\"description\":\"inspect\",\"prompt\":\"inspect\"}",
    );
    app.handle_session_event(
        event(
            "3",
            EventMsg::ToolCallCompleted(ToolCallCompletedEvent {
                call_id: String::from("c1"),
                success: true,
                output_preview: Some(String::from("{\"status\":\"running\"}")),
                error: None,
                result_kind: ToolCallResultKind::StatusUpdate,
                related_thread_id: Some(child_thread_id.id()),
                file_changes: Vec::new(),
                todos: Vec::new(),
                file_change: None,
            }),
        ),
        20,
    );

    let t0 = START;
    enter_select(&mut app.model, t0);
    assert_eq!(app.model.mode, UiMode::TranscriptSelect);
    let tool_row = app
        .model
        .transcript.items
        .iter()
        .position(|item| item.tool_group_cell().is_some())
        .expect("spawn tool row index");
    if let Some(state) = app.model.transcript_select.as_mut() {
        state.selected = tool_row;
    }
    app.model.preview_forward_stack.push(Thread(37).id());

    let t = t0 + millis(300);
    let effects = app.model.handle_key_event_at(key(KeyCode::Char('g')), t);
    assert!(effects.is_empty(), "g alone arms only the gg chord");
    let effects = app
        .model
        .handle_key_event_at(key(KeyCode::Char('d')), t + millis(100));
    assert!(
        preview_targets(&effects).is_empty(),
        "gd no longer opens a subagent preview"
    );

    let effects = app
        .model
        .handle_key_event_at(key(KeyCode::Enter), t + millis(200));

    let preview_targets = preview_targets(&effects);
    assert_eq!(preview_targets, texts_of(&[child_thread_id]));
    assert!(app.model.preview_forward_stack.is_empty());
    assert_eq!(app.model.mode, UiMode::TranscriptSelect);
    assert_eq!(
        app.model.transcript_select.map(|state| state.selected),
        Some(tool_row),
        "Enter leaves the parent selection untouched"
    );
}

#[test]
fn enter_on_plain_row_is_noop_with_status() {
    let mut model = select_model_with_items(3);
    let t0 = START;
    enter_select(&mut model, t0);

    let t = t0 + millis(300);
    let effects = model.handle_key_event_at(key(KeyCode::Enter), t);

    assert!(effects.is_empty());
    assert_eq!(
        model.status_line,
        "Not a subagent row (Enter opens spawn_agent sessions)"
    );
    assert_eq!(model.mode, UiMode::TranscriptSelect);
}

#[test]
fn enter_on_spawn_row_without_child_id_reports_pending() {
    let mut app = App::new();
    start_turn(&mut app);
    start_tool_call(
        &mut app,
        "2",
        "c1",
        "spawn_agent",
        "{\"description\":\"inspect\",\"prompt\":\"inspect\"}",
    );

    let t0 = START;
    enter_select(&mut app.model, t0);
    let tool_row = app
        .model
        .transcript.items
        .iter()
        .position(|item| item.tool_group_cell().is_some())
        .expect("spawn tool row index");
    if let Some(state) = app.model.transcript_select.as_mut() {
        state.selected = tool_row;
    }

    let t = t0 + millis(300);
    let effects = app.model.handle_key_event_at(key(KeyCode::Enter), t);

    assert!(effects.is_empty());
    assert_eq!(
        app.model.status_line,
        "Subagent not started yet — no session to open"
    );
}

#[test]
fn enter_on_spawn_row_after_spawn_end_opens_before_tool_result() {
    let mut app = App::new();
    let child_thread_id = Thread(38);

    start_turn(&mut app);
    start_tool_call(
        &mut app,
        "2",
        "c1",
        "spawn_agent",
        "{\"description\":\"inspect\",\"prompt\":\"inspect\"}",
    );
    app.handle_session_event(
        event(
            "3",
            EventMsg::CollabAgentSpawnEnd {
                call_id: String::from("c1"),
                new_thread_id: Some(child_thread_id.id()),
            },
        ),
        20,
    );

    let t0 = START;
    enter_select(&mut app.model, t0);
    let Some(tool_row) = app
        .model
        .transcript.items
        .iter()
        .position(|item| item.tool_group_cell().is_some())
    else {
        panic!("spawn tool row index");
    };
    if let Some(state) = app.model.transcript_select.as_mut() {
        state.selected = tool_row;
    }

    let t = t0 + millis(300);
    let effects = app.model.handle_key_event_at(key(KeyCode::Enter), t);

    let preview_targets = preview_targets(&effects);
    assert_eq!(preview_targets, texts_of(&[child_thread_id]));
    assert_eq!(app.model.status_line, "Opening subagent…");
}

#[test]
fn preview_effect_result_pushes_view_and_replays_initial_messages() {
    let mut model = workspace_normal_model();
    let child = Thread(39);
    open_preview(
        &mut model,
        child,
        vec![
            EventMsg::UserMessage {
                text: String::from("inspect the rollout"),
            },
            EventMsg::TurnStarted {
                turn_id: String::from("0"),
            },
        ],
    );

    assert_eq!(model.preview_stack.len(), 1);
    let view = model.preview_stack.last().expect("view");
    assert!(is_thread(&view.thread_id, child));
    assert_eq!(view.item_count(), 1, "the user message becomes one item");
    // The response status wins over replayed turn-lifecycle events.
    assert!(matches!(view.status, AgentStatus::Running));

    let rendered = screen_text(&mut model, 60, 12);
    assert!(rendered.contains("subagent worker"), "{rendered}");
    assert!(rendered.contains("running"), "{rendered}");
    assert!(rendered.contains("inspect the rollout"), "{rendered}");
    assert!(rendered.contains("Ctrl-O back"), "{rendered}");
}

#[test]
fn preview_renders_status_line_for_in_preview_enter_failures() {
    let mut model = workspace_normal_model();
    let child = Thread(40);
    open_preview(
        &mut model,
        child,
        vec![EventMsg::UserMessage {
            text: String::from("not a tool row"),
        }],
    );

    // `Enter` on a non-subagent row inside the preview: the feedback must be
    // visible without leaving the preview. `Enter` opens only in the select
    // sub-mode, reached with `Esc Esc`.
    let t0 = START;
    let _ = model.handle_key_event_at(key(KeyCode::Esc), t0);
    let _ = model.handle_key_event_at(key(KeyCode::Esc), t0 + millis(50));
    let effects =
        model.handle_key_event_at(key(KeyCode::Enter), t0 + millis(100));
    assert!(effects.is_empty());

    let rendered = screen_text(&mut model, 80, 12);
    assert!(rendered.contains("Not a subagent row"), "{rendered}");
}

#[test]
fn child_events_route_to_every_matching_preview_not_main_transcript() {
    let mut model = workspace_normal_model();
    let parent = Thread(41);
    let child = Thread(42);
    model.current_thread_id = Some(parent.id());
    let main_items_before = model.transcript.items.len();

    // The same thread pushed twice: both views must receive the event.
    open_preview(&mut model, child, Vec::new());
    open_preview(&mut model, child, Vec::new());

    let effects = model.update(UiEvent::Protocol {
        source_thread_id: Some(child.id()),
        event: event(
            "c1",
            EventMsg::UserMessage {
                text: String::from("child input"),
            },
        ),
        viewport_height: 20,
    });
    assert!(effects.is_empty());
    for view in &model.preview_stack {
        assert_eq!(view.item_count(), 1, "both duplicate views update");
    }
    assert_eq!(
        model.transcript.items.len(),
        main_items_before,
        "child events must not leak into the main transcript"
    );

    // Current-thread events still reach the main transcript.
    let _ = model.update(UiEvent::Protocol {
        source_thread_id: Some(parent.id()),
        event: event(
            "p1",
            EventMsg::UserMessage {
                text: String::from("parent input"),
            },
        ),
        viewport_height: 20,
    });
    assert_eq!(model.transcript.items.len(), main_items_before + 1);
}

#[test]
fn nested_parent_completion_patches_child_view_status() {
    let mut model = workspace_normal_model();
    let parent = Thread(43);
    let view_a = Thread(44);
    let view_b = Thread(45);
    model.current_thread_id = Some(parent.id());
    open_preview(&mut model, view_a, Vec::new());
    open_preview(&mut model, view_b, Vec::new());

    // B's completion arrives on A's channel (A spawned B): view B's
    // status must be patched even though source routing feeds view A.
    let _ = model.update(UiEvent::Protocol {
        source_thread_id: Some(view_a.id()),
        event: event(
            "done",
            EventMsg::CollabAgentCompleted(CollabAgentCompletedEvent {
                child_thread_id: view_b.id(),
                agent_path: "/root/a/b".to_string(),
                agent_nickname: Some(String::from("b")),
                status: AgentStatus::Completed(Some(String::from("done"))),
            }),
        ),
        viewport_height: 20,
    });

    let b = model
        .preview_stack
        .iter()
        .find(|view| is_thread(&view.thread_id, view_b))
        .unwrap_or_else(|| panic!("view B"));
    assert!(matches!(&b.status, AgentStatus::Completed(Some(text)) if text == "done"));
    assert!(!b.is_live);
    let a = model
        .preview_stack
        .iter()
        .find(|view| is_thread(&view.thread_id, view_a))
        .unwrap_or_else(|| panic!("view A"));
    assert_eq!(a.item_count(), 1, "view A renders the completion info row");
}

#[test]
fn preview_ctrl_o_pops_one_view_and_ctrl_i_reopens_forward() {
    let mut model = select_model_with_items(4);
    let t0 = START;
    enter_select(&mut model, t0);
    if let Some(state) = model.transcript_select.as_mut() {
        state.selected = 2;
    }
    let parent_scroll = model.scroll;

    let child = Thread(46);
    open_preview(&mut model, child, Vec::new());
    open_preview(&mut model, child, Vec::new());

    let t = t0 + millis(300);
    let ctrl_o = modified_key(KeyCode::Char('o'), KeyModifiers::control());
    let ctrl_i = modified_key(KeyCode::Char('i'), KeyModifiers::control());
    let effects = model.handle_key_event_at(ctrl_o, t);
    assert_eq!(
        unwatch_targets(&effects),
        texts_of(&[child]),
        "first back unwatches"
    );
    assert_eq!(model.preview_stack.len(), 1);
    assert_eq!(forward_texts(&model), texts_of(&[child]));

    let effects = model.handle_key_event_at(ctrl_i, t + millis(50));
    assert_eq!(preview_targets(&effects), texts_of(&[child]));
    assert!(model.preview_forward_stack.is_empty());
    open_preview(&mut model, child, Vec::new());
    assert_eq!(model.preview_stack.len(), 2);

    let effects = model.handle_key_event_at(ctrl_o, t + millis(100));
    assert_eq!(
        unwatch_targets(&effects),
        texts_of(&[child]),
        "second back unwatches"
    );
    assert_eq!(model.preview_stack.len(), 1);

    let effects = model.handle_key_event_at(ctrl_o, t + millis(150));
    assert_eq!(
        unwatch_targets(&effects),
        texts_of(&[child]),
        "third back unwatches again — the server refcount drains to zero"
    );
    assert!(model.preview_stack.is_empty());

    assert_eq!(model.mode, UiMode::TranscriptSelect);
    assert_eq!(model.transcript_select.map(|state| state.selected), Some(2));
    assert_eq!(model.scroll, parent_scroll);
    assert_eq!(forward_texts(&model), texts_of(&[child, child]));

    let effects = model.handle_key_event_at(ctrl_i, t + millis(200));
    assert_eq!(preview_targets(&effects), texts_of(&[child]));
    assert_eq!(forward_texts(&model), texts_of(&[child]));
}

#[test]
fn nested_enter_pushes_second_view_and_duplicates_are_dropped() {
    let mut model = workspace_normal_model();
    let child = Thread(47);
    let grandchild = Thread(48);
    let started = || EventMsg::ToolCallStarted(ToolCallStartedEvent {
        call_id: String::from("spawn-1"),
        tool_name: String::from("spawn_agent"),
        args_preview: String::from("{\"prompt\":\"dig deeper\"}"),
    });
    let completed = || EventMsg::ToolCallCompleted(ToolCallCompletedEvent {
        call_id: String::from("spawn-1"),
        success: true,
        output_preview: Some(String::from("{\"status\":\"completed\"}")),
        error: None,
        result_kind: ToolCallResultKind::Final,
        related_thread_id: Some(grandchild.id()),
        file_changes: Vec::new(),
        todos: Vec::new(),
        file_change: None,
    });
    open_preview(&mut model, child, vec![started(), completed()]);
    let items_after_replay = model
        .preview_stack
        .last()
        .map(SubagentPreviewView::item_count)
        .unwrap_or_default();

    // The subscribe-then-snapshot overlap can replay both events again.
    for (id, msg) in [("dup-1", started()), ("dup-2", completed())] {
        let _ = model.update(UiEvent::Protocol {
            source_thread_id: Some(child.id()),
            event: event(id, msg),
            viewport_height: 20,
        });
    }
    let view = model
        .preview_stack
        .last()
        .unwrap_or_else(|| panic!("preview view"));
    assert_eq!(
        view.item_count(),
        items_after_replay,
        "duplicate started/completed events must not add rows"
    );

    // `Enter` on the spawn row nests a second preview. `Enter` lives in the
    // select sub-mode, reached with `Esc Esc`. A fresh `Enter` branch clears
    // any Ctrl-I forward history left by prior back navigation.
    model.preview_forward_stack.push(Thread(49).id());
    let t0 = START;
    let _ = model.handle_key_event_at(key(KeyCode::Esc), t0);
    let _ = model.handle_key_event_at(key(KeyCode::Esc), t0 + millis(50));
    let effects =
        model.handle_key_event_at(key(KeyCode::Enter), t0 + millis(100));
    let targets = preview_targets(&effects);
    assert_eq!(targets, texts_of(&[grandchild]));
    assert!(model.preview_forward_stack.is_empty());
    open_preview(&mut model, grandchild, Vec::new());
    assert_eq!(model.preview_stack.len(), 2);
}

#[test]
fn preview_opens_in_scroll_mode_and_jk_keeps_selection() {
    let mut model = workspace_normal_model();
    let child = Thread(50);
    open_preview(
        &mut model,
        child,
        vec![
            EventMsg::UserMessage {
                text: String::from("first"),
            },
            EventMsg::AgentMessage {
                text: String::from("second"),
            },
            EventMsg::UserMessage {
                text: String::from("third"),
            },
        ],
    );
    let view = model.preview_stack.last().expect("view");
    assert!(!view.select_mode, "preview opens in the scroll sub-mode");
    let selected_before = view.selected;

    let t0 = START;
    let _ = model.handle_key_event_at(key(KeyCode::Char('k')), t0);
    let _ = model.handle_key_event_at(key(KeyCode::Char('j')), t0 + millis(10));
    let view = model.preview_stack.last().expect("view");
    assert!(!view.select_mode);
    assert_eq!(
        view.selected, selected_before,
        "scroll-mode j/k must not move the selection cursor"
    );
}

#[test]
fn preview_double_esc_enters_select_mode_and_jk_moves_selection() {
    let mut model = workspace_normal_model();
    let child = Thread(51);
    open_preview(
        &mut model,
        child,
        vec![
            EventMsg::UserMessage {
                text: String::from("first"),
            },
            EventMsg::AgentMessage {
                text: String::from("second"),
            },
            EventMsg::UserMessage {
                text: String::from("third"),
            },
        ],
    );

    let t0 = START;
    let _ = model.handle_key_event_at(key(KeyCode::Esc), t0);
    let _ = model.handle_key_event_at(key(KeyCode::Esc), t0 + millis(50));
    let view = model.preview_stack.last().expect("view");
    assert!(view.select_mode, "double-Esc enters the select sub-mode");
    let selected_after_enter = view.selected;

    let _ = model.handle_key_event_at(key(KeyCode::Char('j')), t0 + millis(100));
    let view = model.preview_stack.last().expect("view");
    assert!(view.select_mode);
    assert_eq!(
        view.selected,
        selected_after_enter + 1,
        "select-mode j moves the selection down"
    );
}

#[test]
fn preview_enter_in_scroll_mode_does_not_open_nested() {
    let mut model = workspace_normal_model();
    let child = Thread(52);
    let grandchild = Thread(53);
    let started = EventMsg::ToolCallStarted(ToolCallStartedEvent {
        call_id: String::from("spawn-1"),
        tool_name: String::from("spawn_agent"),
        args_preview: String::from("{\"prompt\":\"dig\"}"),
    });
    let completed = EventMsg::ToolCallCompleted(ToolCallCompletedEvent {
        call_id: String::from("spawn-1"),
        success: true,
        output_preview: Some(String::from("{\"status\":\"completed\"}")),
        error: None,
        result_kind: ToolCallResultKind::Final,
        related_thread_id: Some(grandchild.id()),
        file_changes: Vec::new(),
        todos: Vec::new(),
        file_change: None,
    });
    open_preview(&mut model, child, vec![started, completed]);

    // In scroll mode `Enter` must not open the nested subagent (it lives in
    // the select sub-mode); the preview stack is unchanged.
    let t0 = START;
    let effects = model.handle_key_event_at(key(KeyCode::Enter), t0);
    assert!(
        effects
            .iter()
            .all(|effect| !matches!(effect.kind, UiEffectKind::ThreadPreview { .. })),
        "Enter in scroll mode must not emit a ThreadPreview effect"
    );
    assert_eq!(model.preview_stack.len(), 1);
}

#[test]
fn preview_esc_exits_select_to_scroll_while_ctrl_o_pops_and_q_is_noop() {
    let mut model = workspace_normal_model();
    let child = Thread(54);
    open_preview(
        &mut model,
        child,
        vec![EventMsg::UserMessage {
            text: String::from("hi"),
        }],
    );

    let t0 = START;
    // Enter select, then Esc back to scroll — the preview stays open.
    let _ = model.handle_key_event_at(key(KeyCode::Esc), t0);
    let _ = model.handle_key_event_at(key(KeyCode::Esc), t0 + millis(50));
    assert!(model.preview_stack.last().expect("view").select_mode);
    let _ = model.handle_key_event_at(key(KeyCode::Esc), t0 + millis(100));
    let view = model.preview_stack.last().expect("view");
    assert!(!view.select_mode, "Esc in select returns to scroll");
    assert_eq!(
        model.preview_stack.len(),
        1,
        "Esc in select must not pop the preview"
    );

    // `q` no longer pops the preview.
    let effects =
        model.handle_key_event_at(key(KeyCode::Char('q')), t0 + millis(150));
    assert!(effects.is_empty());
    assert_eq!(model.preview_stack.len(), 1);

    // `Ctrl-O` in scroll mode pops the preview with exactly one unwatch.
    let effects = model.handle_key_event_at(
        modified_key(KeyCode::Char('o'), KeyModifiers::control()),
        t0 + millis(200),
    );
    assert!(model.preview_stack.is_empty());
    assert_eq!(unwatch_targets(&effects), texts_of(&[child]));
}

#[test]
fn server_request_for_previewed_child_is_accepted_and_clears_stack() {
    let mut model = workspace_normal_model();
    let parent = Thread(55);
    let child = Thread(56);
    model.current_thread_id = Some(parent.id());
    open_preview(&mut model, child, Vec::new());

    let request = ServerRequest::AskUserQuestion {
        request_id: RequestId(7),
        params: AskUserQuestionParams {
            thread_id: child.reference(),
            turn_id: String::from("0"),
            questions: vec![AskUserQuestion {
                question: String::from("Proceed?"),
                header: String::from("Confirm"),
                multi_select: false,
                options: vec![
                    AskUserQuestionOption {
                        label: String::from("Yes"),
                        description: String::from("go"),
                        preview: None,
                    },
                    AskUserQuestionOption {
                        label: String::from("No"),
                        description: String::from("stop"),
                        preview: None,
                    },
                ],
            }],
        },
    };
    let effects = model.update(UiEvent::ServerRequest(request));
    assert!(model.question_picker.is_some(), "the picker is shown");
    assert!(model.preview_stack.is_empty(), "the stack is closed first");
    assert_eq!(unwatch_targets(&effects), texts_of(&[child]));

    // A request for an unrelated thread is still rejected.
    let unrelated = ServerRequest::AskUserQuestion {
        request_id: RequestId(8),
        params: AskUserQuestionParams {
            thread_id: Thread(57).reference(),
            turn_id: String::from("0"),
            questions: Vec::new(),
        },
    };
    model.question_picker = None;
    let effects = model.update(UiEvent::ServerRequest(unrelated));
    assert!(model.question_picker.is_none());
    assert!(
        effects
            .iter()
            .any(|effect| matches!(effect.kind, UiEffectKind::FailServerRequest { .. }))
    );
}

#[test]
fn preview_mid_stream_completion_uses_full_text_not_tail() {
    let mut model = workspace_normal_model();
    let child = Thread(58);
    open_preview(&mut model, child, Vec::new());

    // The preview joined mid-stream: only the tail delta arrives.
    let _ = model.update(UiEvent::Protocol {
        source_thread_id: Some(child.id()),
        event: event(
            "d1",
            EventMsg::AgentMessageDelta {
                item_id: String::from("m1"),
                delta: String::from("tail of the message"),
            },
        ),
        viewport_height: 20,
    });
    let _ = model.update(UiEvent::Protocol {
        source_thread_id: Some(child.id()),
        event: event(
            "c1",
            EventMsg::AgentMessageCompleted {
                item_id: String::from("m1"),
                text: String::from("the full message including the tail of the message"),
            },
        ),
        viewport_height: 20,
    });

    let view = model
        .preview_stack
        .last()
        .unwrap_or_else(|| panic!("preview view"));
    assert_eq!(view.item_count(), 1, "one assistant item, not tail + full");
    let raw = view.transcript.items[0]
        .copy_text()
        .unwrap_or_else(|| panic!("assistant raw text"));
    assert_eq!(
        raw, "the full message including the tail of the message",
        "the completed full text wins over the streamed tail"
    );
}

#[test]
fn mismatched_preview_response_pushes_no_view_and_unwatches() {
    let mut model = workspace_normal_model();
    let requested = Thread(59);
    let other = Thread(60);

    let effect = model.effect(
        EffectContext::ThreadPreview { thread_id: requested.id() },
        UiEffectKind::ThreadPreview { thread_id: requested.id() },
    );
    let effects = model.update(UiEvent::EffectCompleted {
        effect_id: effect.effect_id,
        result: UiEffectResult::ThreadPreview(preview_response(other, Vec::new())),
        viewport_height: 20,
    });

    assert!(model.preview_stack.is_empty());
    assert_eq!(unwatch_targets(&effects), texts_of(&[requested]));
    assert!(model.status_line.contains("Could not open subagent"));
}

#[test]
fn preview_effect_failure_defensively_unwatches() {
    let mut model = workspace_normal_model();
    let child = Thread(61);
    let effect = model.effect(
        EffectContext::ThreadPreview { thread_id: child.id() },
        UiEffectKind::ThreadPreview { thread_id: child.id() },
    );
    let effects = model.update(UiEvent::EffectFailed {
        effect_id: effect.effect_id,
        error: String::from("rollout missing"),
        viewport_height: 20,
    });
    assert!(model.preview_stack.is_empty());
    assert_eq!(unwatch_targets(&effects), texts_of(&[child]));
}

#[test]
fn thread_switch_clears_preview_stack_with_unwatches() {
    let mut model = workspace_normal_model();
    let child = Thread(62);
    open_preview(&mut model, child, Vec::new());

    let effect = model.effect(EffectContext::ThreadStart, UiEffectKind::ThreadStart);
    let effects = model.update(UiEvent::EffectCompleted {
        effect_id: effect.effect_id,
        result: UiEffectResult::ThreadStart(ThreadStartResponse {
            thread_id: Thread(63).reference(),
        }),
        viewport_height: 20,
    });
    assert!(model.preview_stack.is_empty());
    assert_eq!(unwatch_targets(&effects), texts_of(&[child]));
}

#[test]
fn stream_error_finalizes_partial_and_shows_reconnect_notice() {
    let mut app = App::new();

    start_turn(&mut app);
    app.handle_session_event(
        event(
            "1",
            EventMsg::AgentMessageDelta {
                item_id: String::from("assistant-1"),
                delta: String::from("partial"),
            },
        ),
        20,
    );
    app.handle_session_event(
        event(
            "2",
            EventMsg::AgentMessageCompleted {
                item_id: String::from("assistant-1"),
                text: String::from("partial"),
            },
        ),
        20,
    );
    app.handle_session_event(
        event(
            "3",
            EventMsg::StreamError {
                message: String::from("Reconnecting… 1/8"),
            },
        ),
        20,
    );
    app.handle_session_event(
        event(
            "4",
            EventMsg::AgentMessageDelta {
                item_id: String::from("assistant-1#1"),
                delta: String::from("continued"),
            },
        ),
        20,
    );

    assert_eq!(
        transcript_strings(&mut app),
        vec![
            String::from("• partial"),
            String::new(),
            String::from("i Reconnecting… 1/8"),
            String::new(),
            String::from("• continued"),
        ]
    );
}

#[test]
fn subagent_completion_finishes_status_update_tool_row() {
    let mut app = App::new();
    let child_thread_id = Thread(64);

    start_turn(&mut app);
    start_tool_call(
        &mut app,
        "2",
        "c1",
        "spawn_agent",
        "{\"description\":\"inspect\",\"prompt\":\"inspect\"}",
    );
    app.handle_session_event(
        event(
            "3",
            EventMsg::ToolCallCompleted(ToolCallCompletedEvent {
                call_id: String::from("c1"),
                success: true,
                output_preview: Some(String::from("{\"status\":\"running\"}")),
                error: None,
                result_kind: ToolCallResultKind::StatusUpdate,
                related_thread_id: Some(child_thread_id.id()),
                file_change: None,
                file_changes: Vec::new(),
                todos: Vec::new(),
            }),
        ),
        20,
    );
    app.handle_session_event(
        event(
            "4",
            EventMsg::CollabAgentCompleted(CollabAgentCompletedEvent {
                child_thread_id: child_thread_id.id(),
                agent_path: "/root/child".to_string(),
                agent_nickname: Some("child".to_string()),
                status: AgentStatus::Completed(Some("Done".to_string())),
            }),
        ),
        20,
    );

    let joined = transcript_strings(&mut app).join("\n");
    assert!(
        joined.contains("✓ spawn_agent {\"description\":\"inspect\",\"prompt\":\"inspect\"}")
    );
    assert!(
        !joined.contains("⠋ spawn_agent {\"description\":\"inspect\",\"prompt\":\"inspect\"}")
    );
    assert!(!joined.contains("Sub-agent"));
    assert!(!joined.contains("Done"));
}

#[test]
fn spawn_lifecycle_events_do_not_duplicate_tool_prompt() {
    let mut app = App::new();
    let prompt = "inspect protocol";

    start_turn(&mut app);
    start_tool_call(
        &mut app,
        "2",
        "c1",
        "spawn_agent",
        "{\"description\":\"protocol scan\",\"prompt\":\"inspect protocol\"}",
    );
    app.handle_session_event(
        event(
            "3",
            EventMsg::CollabAgentSpawnBegin {
                call_id: String::from("call"),
            },
        ),
        20,
    );
    app.handle_session_event(
        event(
            "4",
            EventMsg::CollabAgentSpawnEnd {
                call_id: String::from("call"),
                new_thread_id: Some(Thread(65).id()),
            },
        ),
        20,
    );

    let joined = transcript_strings(&mut app).join("\n");
    assert!(joined.contains(
        "spawn_agent {\"description\":\"protocol scan\",\"prompt\":\"inspect protocol\"}"
    ));
    assert_eq!(joined.matches(prompt).count(), 1);
    assert!(!joined.contains("Spawning sub-agent"));
    assert!(!joined.contains("Spawn ended"));
}

#[test]
fn resume_lifecycle_events_are_transcript_silent() {
    let mut app = App::new();

    app.handle_session_event(
        event(
            "1",
            EventMsg::CollabResumeBegin {
                call_id: String::from("resume-child"),
            },
        ),
        20,
    );
    app.handle_session_event(
        event(
            "2",
            EventMsg::CollabResumeEnd {
                call_id: String::from("resume-child"),
            },
        ),
        20,
    );

    assert!(app.model.transcript.items.is_empty());
    let rendered = transcript_strings(&mut app).join("\n");
    assert!(!rendered.contains("Resuming agent"));
    assert!(!rendered.contains("Resume finished"));
}

#[test]
fn protocol_event_from_inactive_thread_is_ignored() {
    let mut model = fresh_model();
    let active_thread = Thread(68);
    let stale_thread = Thread(69);
    model.current_thread_id = Some(active_thread.id());
    model.screen = Screen::Dashboard;

    let effects = model.update(UiEvent::Protocol {
        source_thread_id: Some(stale_thread.id()),
        event: event(
            "stale",
            EventMsg::UserMessage {
                text: "old prompt".to_string(),
            },
        ),
        viewport_height: 20,
    });

    assert!(effects.is_empty());
    assert!(model
        .current_thread_id
        .as_ref()
        .is_some_and(|id| is_thread(id, active_thread)));
    assert_eq!(model.screen, Screen::Dashboard);
    assert!(model.transcript.items.is_empty());
}

#[test]
fn tool_output_is_stored_on_completion() {
    let mut app = App::new();
    start_turn(&mut app);
    start_tool_call(&mut app, "1", "call-1", "run_command", "{}");
    complete_tool_call(&mut app, "2", "call-1", true, None);

    let stored = app
        .model
        .transcript.items
        .iter()
        .find_map(|item| item.tool_group_cell())
        .and_then(|cell| cell.copy_result());
    assert_eq!(stored.as_deref(), Some("BIG CONTENT"));
}

#[test]
fn assistant_message_delta_complete_and_turn_complete_render_once() {
    let mut app = App::new();

    start_turn(&mut app);
    app.handle_session_event(
        event(
            "1",
            EventMsg::AgentMessageDelta {
                item_id: String::from("assistant-1"),
                delta: String::from("Hi! What can I help with?\n"),
            },
        ),
        20,
    );
    complete_agent_message(&mut app, "2", "assistant-1", "Hi! What can I help with?");
    app.handle_session_event(
        event(
            "3",
            EventMsg::TurnCompleted {
                turn_id: String::from("turn-1"),
                last_assistant_message: Some(String::from("Hi! What can I help with?")),
            },
        ),
        20,
    );

    let joined = transcript_strings(&mut app).join("\n");
    assert_eq!(joined.matches("Hi! What can I help with?").count(), 1);
}

#[test]
fn completed_assistant_message_followed_by_agent_message_renders_once() {
    let mut app = App::new();

    start_turn(&mut app);
    complete_agent_message(&mut app, "2", "assistant-1", "Done.");
    app.handle_session_event(
        event(
            "3",
            EventMsg::AgentMessage {
                text: "Done.".to_string(),
            },
        ),
        20,
    );

    let joined = transcript_strings(&mut app).join("\n");
    assert_eq!(joined.matches("Done.").count(), 1);
}

#[test]
fn assistant_delta_without_newline_renders_while_streaming() {
    let mut app = App::new();

    start_turn(&mut app);
    app.handle_session_event(
        event(
            "1",
            EventMsg::AgentMessageDelta {
                item_id: String::from("assistant-1"),
                delta: String::from("hello"),
            },
        ),
        20,
    );

    assert_eq!(transcript_strings(&mut app), vec![String::from("• hello")]);
}

#[test]
fn last_user_message_drops_its_bottom_separator() {
    let mut app = App::new();
    start_turn(&mut app);
    app.handle_session_event(
        event(
            "u1",
            EventMsg::UserMessage {
                text: "hello".to_string(),
            },
        ),
        20,
    );

    let texts = transcript_strings(&mut app);
    let rule = "─".repeat(80);
    // Only the top rule is drawn; the bottom rule is dropped because the
    // user message is the last thing in the transcript.
    assert_eq!(texts.iter().filter(|t| **t == rule).count(), 1, "{texts:?}");
    assert_eq!(
        texts.last().map(String::as_str),
        Some("▌ hello"),
        "{texts:?}"
    );
}

#[test]
fn user_message_keeps_bottom_separator_when_followed_by_reply() {
    let mut app = App::new();
    start_turn(&mut app);
    app.handle_session_event(
        event(
            "u1",
            EventMsg::UserMessage {
                text: "hello".to_string(),
            },
        ),
        20,
    );
    complete_agent_message(&mut app, "a1", "assistant-1", "world");

    let texts = transcript_strings(&mut app);
    let rule = "─".repeat(80);
    // The user message now has a reply after it, so both rules are drawn.
    assert_eq!(texts.iter().filter(|t| **t == rule).count(), 2, "{texts:?}");
}

#[test]
fn reasoning_delta_then_completed_renders_once() {
    let mut app = App::new();

    start_turn(&mut app);
    reasoning_delta(&mut app, "2", "reasoning-1", "Thinking through this...\n");
    complete_reasoning(&mut app, "3", "reasoning-1", "Thinking through this...");

    let transcript = transcript_strings(&mut app);
    let joined = transcript.join("\n");

    assert_eq!(joined.matches("Thinking through this...").count(), 1);
    assert!(
        transcript
            .iter()
            .any(|line| line == "… Thinking through this...")
    );
}

#[test]
fn late_reasoning_completion_after_stream_finalized_via_assistant_does_not_duplicate() {
    let mut app = App::new();

    start_turn(&mut app);
    reasoning_delta(&mut app, "2", "r-1", "Planning\n");
    app.handle_session_event(
        event(
            "3",
            EventMsg::AgentMessageDelta {
                item_id: String::from("a-1"),
                delta: String::from("Done.\n"),
            },
        ),
        20,
    );
    complete_agent_message(&mut app, "4", "a-1", "Done.");
    complete_reasoning(&mut app, "5", "r-1", "Planning");

    let joined = transcript_strings(&mut app).join("\n");
    assert_eq!(joined.matches("Planning").count(), 1);
}

#[test]
fn tool_call_start_then_complete_renders_single_row() {
    let mut app = App::new();

    start_turn(&mut app);
    start_tool_call(&mut app, "2", "c1", "read", "foo.rs");
    complete_tool_call(&mut app, "3", "c1", true, None);

    let transcript = transcript_strings(&mut app);
    let joined = transcript.join("\n");

    assert_eq!(
        transcript
            .iter()
            .filter(|line| line.contains("read foo.rs"))
            .count(),
        1
    );
    assert!(joined.contains("✓ read foo.rs"));
    assert!(!joined.contains("BIG CONTENT"));
}

#[test]
fn consecutive_same_tool_calls_render_as_group() {
    let mut app = App::new();

    start_turn(&mut app);
    start_tool_call(&mut app, "2", "c1", "read", "foo.rs");
    start_tool_call(&mut app, "3", "c2", "read", "bar.rs");
    complete_tool_call(&mut app, "4", "c1", true, None);
    complete_tool_call(&mut app, "5", "c2", true, None);

    let joined = transcript_strings(&mut app).join("\n");
    assert!(joined.contains("✓ read\n   1. ✓ foo.rs\n   2. ✓ bar.rs"));
    assert!(!joined.contains("✓ read foo.rs"));
}

#[test]
fn reasoning_breaks_tool_group() {
    let mut app = App::new();

    start_turn(&mut app);
    start_tool_call(&mut app, "2", "c1", "read", "foo.rs");
    complete_tool_call(&mut app, "3", "c1", true, None);
    complete_reasoning(&mut app, "4", "reasoning-1", "Checking context");
    start_tool_call(&mut app, "5", "c2", "read", "bar.rs");
    complete_tool_call(&mut app, "6", "c2", true, None);

    assert_eq!(
        transcript_strings(&mut app),
        vec![
            String::from("✓ read foo.rs"),
            String::new(),
            String::from("… Checking context"),
            String::new(),
            String::from("✓ read bar.rs"),
        ]
    );
}

#[test]
fn phantom_stream_breaks_group() {
    let mut app = App::new();

    start_turn(&mut app);
    start_tool_call(&mut app, "2", "c1", "read", "foo.rs");
    complete_tool_call(&mut app, "3", "c1", true, None);

    app.model.transcript.assistant_stream = Some(StreamController::new(Some(20)));

    start_tool_call(&mut app, "4", "c2", "read", "bar.rs");
    complete_tool_call(&mut app, "5", "c2", true, None);

    let transcript = transcript_strings(&mut app);
    assert!(transcript.iter().any(|line| line == "✓ read foo.rs"));
    assert!(transcript.iter().any(|line| line == "✓ read bar.rs"));
    assert!(!transcript.iter().any(|line| line == "✓ read"));
}

#[test]
fn failed_entry_inside_group_shows_error_reason() {
    let mut app = App::new();

    start_turn(&mut app);
    start_tool_call(&mut app, "2", "c1", "read", "foo.rs");
    start_tool_call(&mut app, "3", "c2", "read", "bar.rs");
    complete_tool_call(&mut app, "4", "c1", true, None);
    complete_tool_call(&mut app, "5", "c2", false, Some("permission denied"));

    assert_eq!(
        transcript_strings(&mut app),
        vec![
            String::from("✗ read"),
            String::from("   1. ✓ foo.rs"),
            String::from("   2. ✗ bar.rs"),
            String::from("        ! permission denied"),
        ]
    );
}

#[test]
fn file_change_completion_renders_diff_in_transcript() {
    let mut app = App::new();

    start_turn(&mut app);
    start_tool_call(&mut app, "2", "c1", "edit", "src/lib.rs");
    app.handle_session_event(
        event(
            "3",
            EventMsg::ToolCallCompleted(ToolCallCompletedEvent {
                call_id: String::from("c1"),
                success: true,
                output_preview: Some(String::from("edited src/lib.rs (1 replacement)")),
                error: None,
                result_kind: ToolCallResultKind::Final,
                related_thread_id: None,
                file_changes: vec![FileChangeOutput {
                    path: "src/lib.rs".to_string(),
                    change: FileChange::Update {
                        unified_diff: diffy::create_patch("old\n", "new\n").to_string(),
                        move_path: None,
                    },
                }],
                todos: Vec::new(),
                file_change: None,
            }),
        ),
        20,
    );

    let joined = transcript_strings(&mut app).join("\n");
    assert!(joined.contains("• Edited 1 file (+1 -1)"));
    assert!(joined.contains("src/lib.rs (+1 -1)"));
    assert!(joined.contains("1 - old"));
    assert!(joined.contains("1 + new"));
    assert!(!joined.contains("✓ edit src/lib.rs"));
    assert_eq!(app.model.recent_file_changes.len(), 1);

    app.model.screen = Screen::Workspace;
    app.model.focus = FocusTarget::Transcript;
    let rendered = screen_text(&mut app.model, 120, 24);
    assert!(rendered.contains("1 - old"), "{rendered}");
    assert!(rendered.contains("1 + new"), "{rendered}");
    assert!(!rendered.contains("Selected Diff"), "{rendered}");
}

#[test]
fn todo_write_completion_renders_checklist_in_transcript() {
    let mut app = App::new();

    start_turn(&mut app);
    start_tool_call(&mut app, "2", "c1", "todo_write", "{\"todos\":[...]}");
    app.handle_session_event(
        event(
            "3",
            EventMsg::ToolCallCompleted(ToolCallCompletedEvent {
                call_id: String::from("c1"),
                success: true,
                output_preview: Some(String::from("Todo list updated: 2 items")),
                error: None,
                result_kind: ToolCallResultKind::Final,
                related_thread_id: None,
                file_changes: Vec::new(),
                todos: vec![
                    TodoItem {
                        content: String::from("add module"),
                        status: TodoStatus::Completed,
                    },
                    TodoItem {
                        content: String::from("register tool"),
                        status: TodoStatus::InProgress,
                    },
                ],
                file_change: None,
            }),
        ),
        80,
    );

    let joined = transcript_strings(&mut app).join("\n");
    assert!(joined.contains("☑ add module"), "{joined}");
    assert!(joined.contains("◐ register tool"), "{joined}");
    assert!(!joined.contains("todo_write"), "{joined}");
}

#[test]
fn move_file_change_renders_destination() {
    let mut app = App::new();

    start_turn(&mut app);
    start_tool_call(&mut app, "2", "c1", "edit", "src/old.rs");
    app.handle_session_event(
        event(
            "3",
            EventMsg::ToolCallCompleted(ToolCallCompletedEvent {
                call_id: String::from("c1"),
                success: true,
                output_preview: Some(String::from("applied edits (1 file changed)")),
                error: None,
                result_kind: ToolCallResultKind::Final,
                related_thread_id: None,
                file_changes: vec![FileChangeOutput {
                    path: "src/old.rs".to_string(),
                    change: FileChange::Update {
                        unified_diff: String::new(),
                        move_path: Some("src/new.rs".to_string()),
                    },
                }],
                todos: Vec::new(),
                file_change: None,
            }),
        ),
        20,
    );

    let joined = transcript_strings(&mut app).join("\n");
    assert!(joined.contains("• Moved 1 file (+0 -0)"));
    assert!(joined.contains("src/old.rs -> src/new.rs (+0 -0)"));

    app.model.screen = Screen::Workspace;
    app.model.focus = FocusTarget::Transcript;
    let rendered = screen_text(&mut app.model, 120, 24);
    assert!(rendered.contains("src/old.rs -> src/new.rs"), "{rendered}");
}

#[test]
fn multi_file_change_completion_renders_multiple_patch_items() {
    let mut app = App::new();

    start_turn(&mut app);
    start_tool_call(
        &mut app,
        "2",
        "c1",
        "edit",
        "{\"updates\":[{\"file_path\":\"one.txt\",\"hunks\":[]}]}",
    );
    app.handle_session_event(
        event(
            "3",
            EventMsg::ToolCallCompleted(ToolCallCompletedEvent {
                call_id: String::from("c1"),
                success: true,
                output_preview: Some(String::from("applied edits (2 files changed)")),
                error: None,
                result_kind: ToolCallResultKind::Final,
                related_thread_id: None,
                file_changes: vec![
                    FileChangeOutput {
                        path: "one.txt".to_string(),
                        change: FileChange::Update {
                            unified_diff: diffy::create_patch("one\n", "uno\n").to_string(),
                            move_path: None,
                        },
                    },
                    FileChangeOutput {
                        path: "two.txt".to_string(),
                        change: FileChange::Add {
                            content: "dos\n".to_string(),
                        },
                    },
                ],
                todos: Vec::new(),
                file_change: None,
            }),
        ),
        20,
    );

    let joined = transcript_strings(&mut app).join("\n");
    assert!(joined.contains("one.txt (+1 -1)"));
    assert!(joined.contains("two.txt (+1 -0)"));
    assert!(!joined.contains("✓ edit"));
    assert_eq!(app.model.recent_file_changes.len(), 2);
}

#[test]
fn file_change_completion_auto_scrolls_after_summary_expands() {
    let mut app = App::new();
    let viewport_height = 1;

    start_turn(&mut app);
    start_tool_call(&mut app, "2", "c1", "write", "large.txt");
    app.handle_session_event(
        event(
            "3",
            EventMsg::ToolCallCompleted(ToolCallCompletedEvent {
                call_id: String::from("c1"),
                success: true,
                output_preview: Some(String::from("wrote bytes to large.txt")),
                error: None,
                result_kind: ToolCallResultKind::Final,
                related_thread_id: None,
                file_changes: vec![FileChangeOutput {
                    path: "large.txt".to_string(),
                    change: FileChange::Add {
                        content: (0..40)
                            .map(|idx| format!("line {idx}"))
                            .collect::<Vec<_>>()
                            .join("\n"),
                    },
                }],
                todos: Vec::new(),
                file_change: None,
            }),
        ),
        viewport_height,
    );

    assert!(app.model.scroll > 0);
    let max_scroll = app.max_scroll(viewport_height);
    assert_eq!(app.model.scroll, max_scroll);
}

#[test]
fn long_edit_diff_rows_do_not_hide_bottom_marker() {
    let mut app = App::new();
    app.model.screen = Screen::Workspace;
    app.model.focus = FocusTarget::Transcript;
    app.model.inspector_visible = false;
    let old = (0..20)
        .map(|_| "a".repeat(80))
        .collect::<Vec<_>>()
        .join("\n");
    let new = (0..20)
        .map(|_| "b".repeat(80))
        .collect::<Vec<_>>()
        .join("\n");

    start_turn(&mut app);
    start_tool_call(&mut app, "2", "c1", "edit", "src/lib.rs");
    app.handle_session_event(
        event(
            "3",
            EventMsg::ToolCallCompleted(ToolCallCompletedEvent {
                call_id: String::from("c1"),
                success: true,
                output_preview: Some(String::from("edited src/lib.rs")),
                error: None,
                result_kind: ToolCallResultKind::Final,
                related_thread_id: None,
                file_changes: vec![FileChangeOutput {
                    path: "src/lib.rs".to_string(),
                    change: FileChange::Update {
                        unified_diff: diffy::create_patch(
                            &format!("{old}\n"),
                            &format!("{new}\n"),
                        )
                        .to_string(),
                        move_path: None,
                    },
                }],
                todos: Vec::new(),
                file_change: None,
            }),
        ),
        8,
    );
    app.model.push_info("bottom marker");
    let viewport_height = app.model.transcript_viewport_height(40, 12);
    app.model.transcript_inner_width = 40;
    app.model.scroll_to_bottom(viewport_height);
    app.model.auto_scroll = false;

    let rendered = screen_text(&mut app.model, 40, 12);

    assert!(rendered.contains("bottom marker"), "{rendered}");
}

#[test]
fn skill_popup_renders_above_composer() {
    let mut model = skills_fixture();
    let _ = press(&mut model, key(KeyCode::Char('/')));

    let rendered = screen_text(&mut model, 80, 18);
    let Some(deploy_idx) = rendered.find("/deploy  Deploy the app") else {
        panic!("popup row missing:\n{rendered}");
    };
    let Some(review_idx) = rendered.find("/review  Review a PR") else {
        panic!("popup row missing:\n{rendered}");
    };
    let Some(status_idx) = rendered.find("─ Status ") else {
        panic!("status separator missing:\n{rendered}");
    };
    assert!(deploy_idx < review_idx, "{rendered}");
    assert!(review_idx < status_idx, "{rendered}");
}

#[test]
fn visible_transcript_lines_at_bottom_are_exact_viewport_rows() {
    let mut model = fresh_model();
    for idx in 1..=5 {
        model.push_info(&format!("line {idx}"));
    }
    model.terminal_width = 80;
    model.scroll_to_bottom(3);

    let lines = model.visible_transcript_lines(78, 3);
    let rendered = lines
        .iter()
        .map(lines_text)
        .collect::<Vec<_>>();

    assert_eq!(rendered.len(), 3);
    assert_eq!(rendered.last().map(String::as_str), Some("i line 5"));
}

#[test]
fn rendered_transcript_bottom_includes_newest_row() {
    let mut model = fresh_model();
    model.screen = Screen::Workspace;
    model.focus = FocusTarget::Transcript;
    for idx in 1..=12 {
        model.push_info(&format!("line {idx}"));
    }
    model.terminal_width = 50;
    let viewport_height = model.transcript_viewport_height(50, 10);
    model.scroll = model.max_scroll(viewport_height);
    model.auto_scroll = false;

    let rendered = screen_text(&mut model, 50, 10);
    assert!(rendered.contains("i line 12"), "{rendered}");
}

#[test]
fn split_view_auto_scroll_reaches_wrapping_bottom() {
    let mut model = fresh_model();
    model.screen = Screen::Workspace;
    model.focus = FocusTarget::Transcript;
    // A wide terminal (>= 110) enables the split workspace, so the transcript
    // pane is only ~70% of the width. These lines wrap at the pane width but
    // would not wrap at the full terminal width — the case where row counting
    // at the wrong width left the newest content unreachable.
    for idx in 1..=20 {
        model.push_info(&format!("{} marker{idx}", "x".repeat(90)));
    }
    model.auto_scroll = true;

    let rendered = screen_text(&mut model, 120, 24);
    assert!(
        rendered.contains("marker20"),
        "newest content missing:\n{rendered}"
    );
}

#[test]
fn active_wrap_is_cached_by_width_and_version() {
    let mut model = fresh_model();
    model.transcript.set_active_assistant_lines(Some(vec![Line::raw("streaming text here")]));

    model.transcript.refresh_active_wrap(40);
    assert_eq!(model.transcript.active_wrap_computes, 1);

    // Same width and unchanged version: cache hit, no recompute.
    model.transcript.refresh_active_wrap(40);
    assert_eq!(model.transcript.active_wrap_computes, 1);

    // A different width is a miss.
    model.transcript.refresh_active_wrap(20);
    assert_eq!(model.transcript.active_wrap_computes, 2);

    // A new delta bumps the version, so even the same width recomputes.
    model.transcript.set_active_assistant_lines(Some(vec![Line::raw("streaming text and more")]));
    model.transcript.refresh_active_wrap(20);
    assert_eq!(model.transcript.active_wrap_computes, 3);
}

#[test]
fn visible_transcript_lines_counts_active_separator_above_viewport() {
    let mut model = fresh_model();
    model.push_info("history");
    model.transcript.set_active_assistant_lines(Some(vec![
        Line::raw("active one"),
        Line::raw("active two"),
        Line::raw("active three"),
    ]));
    model.terminal_width = 80;
    model.scroll_to_bottom(3);

    let rendered = model
        .visible_transcript_lines(78, 3)
        .iter()
        .map(lines_text)
        .collect::<Vec<_>>();

    assert_eq!(
        rendered,
        vec![
            "• active one".to_string(),
            "  active two".to_string(),
            "  active three".to_string(),
        ]
    );
}

#[test]
fn long_tool_call_rows_are_counted_after_wrapping() {
    let mut model = fresh_model();
    let item_id = model.transcript.next_item_id();
    model.transcript.push_history(TranscriptItem::tool_group(
        item_id,
        ToolCallGroupCell::new("read".to_string(), "x".repeat(80)),
    ));

    let rendered = model.visible_transcript_lines(20, 20);
    let total_rows = model.total_transcript_rows(20);

    assert!(rendered.len() > 1);
    assert_eq!(total_rows, rendered.len());
}

#[test]
fn workspace_renders_input_above_status_footer() {
    let mut model = workspace_insert_model();
    model.composer.set_text("draft".to_string());

    let rendered = screen_text(&mut model, 80, 16);
    let Some(input_idx) = rendered.find("─ Input ") else {
        panic!("input separator missing:\n{rendered}");
    };
    let Some(status_idx) = rendered.find("─ Status ") else {
        panic!("status separator missing:\n{rendered}");
    };
    assert!(input_idx < status_idx, "{rendered}");
}

#[test]
fn command_line_renders_above_status_footer() {
    let mut model = workspace_normal_model();
    model.mode = UiMode::Command;
    model.command = "help".to_string();
    model
        .composer
        .set_text("first input row\nsecond input row".to_string());

    let rendered = screen_text(&mut model, 80, 18);
    let Some(first_input_idx) = rendered.find("first input row") else {
        panic!("composer text missing:\n{rendered}");
    };
    let Some(second_input_idx) = rendered.find("second input row") else {
        panic!("multi-line composer text missing:\n{rendered}");
    };
    let Some(command_idx) = rendered.find(":help") else {
        panic!("command line missing:\n{rendered}");
    };
    let Some(status_idx) = rendered.find("─ Status ") else {
        panic!("status separator missing:\n{rendered}");
    };

    assert!(first_input_idx < second_input_idx, "{rendered}");
    assert!(second_input_idx < command_idx, "{rendered}");
    assert!(command_idx < status_idx, "{rendered}");
}

#[test]
fn hidden_inspector_renders_transcript_across_full_workspace_body() {
    let mut model = workspace_normal_model();
    model.inspector_visible = false;
    model.push_info("body marker");

    let rendered = screen_text(&mut model, 120, 24);
    assert!(!rendered.contains("Inspector"), "{rendered}");
    assert!(rendered.contains("body marker"), "{rendered}");
    assert_eq!(model.transcript_inner_width, 120);
}

#[test]
fn dashboard_render_shows_only_visible_scrolled_sessions() {
    let mut model = fresh_model();
    model.viewport_height = 8;
    model.dashboard.items = (0..8).map(dashboard_thread).collect();
    model.dashboard.selected = 3;
    model.dashboard_ensure_selected_visible(8);

    let rendered = screen_text(&mut model, 80, 8);

    assert!(!rendered.contains("message-0"), "{rendered}");
    assert!(rendered.contains("message-2"), "{rendered}");
    assert!(
        rendered.contains("› 2026-05-31T00:03:00Z  message-3"),
        "{rendered}"
    );
    assert!(!rendered.contains("message-4"), "{rendered}");
}

#[test]
fn dashboard_truncates_long_previews_and_keeps_footer_visible() {
    let mut model = fresh_model();
    let items: Vec<ThreadListItem> = (0..3)
        .map(|idx| {
            let mut item = dashboard_thread(idx);
            item.last_user_message = Some(format!("preview-{idx} ").repeat(40));
            item
        })
        .collect();
    model.dashboard.items = items;

    // header (2) + 3 sessions * 2 + footer (2) == 10 rows: only fits if the
    // long previews are truncated to one row each rather than wrapped.
    let rows = screen_rows(&mut model, 50, 10);

    assert!(
        rows.iter().any(|r| r.contains("n new")),
        "footer clipped by wrapped previews: {rows:?}"
    );
    assert!(
        rows.iter().any(|r| r.contains('…')),
        "preview was not truncated: {rows:?}"
    );
    let id_rows = rows.iter().filter(|r| r.contains("thread-")).count();
    assert_eq!(id_rows, 3, "each session should stay two rows: {rows:?}");
}

#[test]
fn inspector_wraps_long_running_tool_args_with_hanging_indent() {
    let mut model = workspace_normal_model();
    model.inspector_visible = true;
    model.focus = FocusTarget::Inspector;
    model.running_tools.insert(
        "call-1".to_string(),
        RunningToolInfo {
            tool_name: "run_command".to_string(),
            args_preview: "echo this is a really long command preview that must wrap"
                .to_string(),
        },
    );

    let rows = screen_rows(&mut model, 40, 20);

    assert!(
        rows.iter().any(|r| r.contains("run_command")),
        "tool name missing: {rows:?}"
    );
    // glyph (2) + "run_command" (11) + space (1) = 14-column hanging indent.
    let indent = " ".repeat(14);
    assert!(
        rows.iter()
            .any(|r| r.starts_with(&indent) && !r.trim().is_empty()),
        "args did not hang-indent on continuation: {rows:?}"
    );
}

#[test]
fn selected_item_lines_get_background_highlight() {
    let mut model = select_model_with_items(2);
    model.transcript_inner_width = 40;
    enter_select(&mut model, START);

    let lines = model.visible_transcript_lines(40, 10);
    // Layout: item0 row, separator, item1 row (selected).
    assert_eq!(lines.len(), 3);
    assert_eq!(lines[0].style.bg, None);
    assert_eq!(lines[2].style.bg, Some(Color::DarkGray));
}

#[test]
fn inspector_commands_hide_show_and_toggle_visibility() {
    let mut model = fresh_model();

    assert!(model.inspector_visible);

    let effects = model.execute_command("inspector hide");
    assert!(effects.is_empty());
    assert!(!model.inspector_visible);

    let effects = model.execute_command("inspector show");
    assert!(effects.is_empty());
    assert!(model.inspector_visible);

    let effects = model.execute_command("inspector toggle");
    assert!(effects.is_empty());
    assert!(!model.inspector_visible);

    let effects = model.execute_command("inspector");
    assert!(effects.is_empty());
    assert!(model.inspector_visible);
}

#[test]
fn normal_mode_uppercase_i_toggles_inspector_visibility() {
    let mut model = workspace_normal_model();

    let effects = press(&mut model, key(KeyCode::Char('I')));
    assert!(effects.is_empty());
    assert!(!model.inspector_visible);

    let effects = press(&mut model, key(KeyCode::Char('I')));
    assert!(effects.is_empty());
    assert!(model.inspector_visible);
}

#[test]
fn hidden_inspector_is_skipped_by_tab() {
    let mut model = workspace_normal_model();
    model.inspector_visible = false;

    let _ = press(&mut model, key(KeyCode::Tab));
    assert_eq!(model.focus, FocusTarget::Composer);

    let _ = press(&mut model, key(KeyCode::Tab));
    assert_eq!(model.focus, FocusTarget::Transcript);
}

#[test]
fn hiding_focused_inspector_falls_back_to_transcript() {
    let mut model = workspace_normal_model();
    model.focus = FocusTarget::Inspector;

    let effects = model.execute_command("inspector hide");

    assert!(effects.is_empty());
    assert!(!model.inspector_visible);
    assert_eq!(model.focus, FocusTarget::Transcript);
}

#[test]
fn wide_workspace_defaults_to_transcript_and_inspector() {
    let mut model = workspace_normal_model();

    let rendered = screen_text(&mut model, 120, 24);
    assert!(
        rendered.contains("No transcript yet. Type a message and use :send."),
        "{rendered}"
    );
    assert!(rendered.contains("│"), "{rendered}");
    assert!(rendered.contains("Inspector"), "{rendered}");
}

#[test]
fn focus_inspector_command_restores_inspector_visibility_on_wide_workspace() {
    let mut model = workspace_normal_model();
    let _ = model.execute_command("inspector hide");

    let effects = model.execute_command("focus inspector");

    assert!(effects.is_empty());
    assert!(model.inspector_visible);
    assert_eq!(model.focus, FocusTarget::Inspector);

    let rendered = screen_text(&mut model, 120, 24);
    assert!(rendered.contains("Inspector"), "{rendered}");
}

#[test]
fn dashboard_down_keeps_selected_item_visible_by_scrolling() {
    let mut model = fresh_model();
    model.viewport_height = 10;
    model.dashboard.items = (0..8).map(dashboard_thread).collect();

    for _ in 0..3 {
        let _ = press(&mut model, key(KeyCode::Down));
    }

    assert_eq!(model.dashboard.selected, 3);
    assert_eq!(model.dashboard.scroll_offset, 1);

    let _ = press(&mut model, key(KeyCode::Up));
    assert_eq!(model.dashboard.selected, 2);
    assert_eq!(model.dashboard.scroll_offset, 1);

    let _ = press(&mut model, key(KeyCode::Up));
    assert_eq!(model.dashboard.selected, 1);
    assert_eq!(model.dashboard.scroll_offset, 1);

    let _ = press(&mut model, key(KeyCode::Up));
    assert_eq!(model.dashboard.selected, 0);
    assert_eq!(model.dashboard.scroll_offset, 0);
}

#[test]
fn dashboard_page_home_end_update_scroll_offset() {
    let mut model = fresh_model();
    model.viewport_height = 8;
    model.dashboard.items = (0..10).map(dashboard_thread).collect();

    let _ = press(&mut model, key(KeyCode::PageDown));
    assert_eq!(model.dashboard.selected, 2);
    assert_eq!(model.dashboard.scroll_offset, 1);

    let _ = press(&mut model, key(KeyCode::End));
    assert_eq!(model.dashboard.selected, 9);
    assert_eq!(model.dashboard.scroll_offset, 8);

    let _ = press(&mut model, key(KeyCode::PageUp));
    assert_eq!(model.dashboard.selected, 7);
    assert_eq!(model.dashboard.scroll_offset, 7);

    let _ = press(&mut model, key(KeyCode::Home));
    assert_eq!(model.dashboard.selected, 0);
    assert_eq!(model.dashboard.scroll_offset, 0);
}

#[test]
fn startup_asks_for_the_list_of_sessions() {
    let mut model = fresh_model();
    let effects = model.update(UiEvent::Startup { viewport_height: 9 });

    assert!(model.dashboard.loading);
    assert_eq!(model.viewport_height, 9);
    assert_eq!(effects.len(), 1);
    assert_eq!(effects[0].effect_id, EffectId(1));
    assert!(matches!(
        &effects[0].kind,
        UiEffectKind::ThreadList { cursor: None, limit: Some(50) }
    ));
    let rendered = screen_text(&mut model, 60, 10);
    assert!(rendered.contains("Loading recent sessions..."), "{rendered}");

    let effects = model.update(UiEvent::EffectCompleted {
        effect_id: EffectId(1),
        result: UiEffectResult::ThreadList(ThreadListResponse {
            data: vec![dashboard_thread(3)],
            next_cursor: None,
        }),
        viewport_height: 9,
    });
    assert!(effects.is_empty());
    assert!(!model.dashboard.loading);
    let rendered = screen_text(&mut model, 60, 10);
    assert!(rendered.contains("› 2026-05-31T00:03:00Z  message-3"), "{rendered}");
    assert!(rendered.contains("thread-3"), "{rendered}");
}

#[test]
fn failed_session_list_is_reported_on_the_dashboard() {
    let mut model = fresh_model();
    let effects = model.update(UiEvent::Startup { viewport_height: 9 });
    let _ = model.update(UiEvent::EffectFailed {
        effect_id: effects[0].effect_id,
        error: "server down".to_string(),
        viewport_height: 9,
    });
    assert!(!model.dashboard.loading);
    let rendered = screen_text(&mut model, 60, 10);
    assert!(rendered.contains("! "), "{rendered}");
    assert!(rendered.contains("server down"), "{rendered}");
}

#[test]
fn unknown_failures_change_nothing() {
    let mut model = select_model_with_items(2);
    let before = transcript_rows(&mut model, 80);
    let effects = model.update(UiEvent::EffectFailed {
        effect_id: EffectId(77),
        error: "late".to_string(),
        viewport_height: 20,
    });
    assert!(effects.is_empty());
    assert_eq!(transcript_rows(&mut model, 80), before);
    assert_eq!(model.status_line, "Idle");
}

#[test]
fn effect_numbers_are_never_used_twice() {
    let mut model = fresh_model();
    let first = model.effect(EffectContext::ThreadStart, UiEffectKind::ThreadStart);
    let second = model.effect(EffectContext::ThreadStart, UiEffectKind::ThreadStart);
    assert_ne!(first.effect_id, second.effect_id);
    assert!(model.take_context(first.effect_id).is_some());
    assert!(model.take_context(first.effect_id).is_none());
    assert!(model.take_context(second.effect_id).is_some());
}

#[test]
fn effects_run_in_the_order_in_which_they_were_asked_for() {
    let mut model = fresh_model();
    let first = model.effect(EffectContext::ThreadStart, UiEffectKind::ThreadStart);
    let second = model.effect(
        EffectContext::ThreadPreview {
            thread_id: Thread(1).id(),
        },
        UiEffectKind::ThreadPreview {
            thread_id: Thread(1).id(),
        },
    );
    let (first_id, second_id) = (first.effect_id, second.effect_id);
    let mut queue = EffectQueue::new(vec![first, second]);

    match queue.next_step() {
        RunStep::Perform(effect) => assert_eq!(effect.effect_id, first_id),
        other => panic!("expected the first effect, got {other:?}"),
    }
    model.settle(&mut queue, first_id, Err("down".to_string()), 20);
    match queue.next_step() {
        RunStep::Perform(effect) => assert_eq!(effect.effect_id, second_id),
        other => panic!("expected the second effect, got {other:?}"),
    }
    // The failed preview asks to stop watching, behind what waits.
    model.settle(&mut queue, second_id, Err("missing".to_string()), 20);
    match queue.next_step() {
        RunStep::Perform(effect) => assert!(matches!(
            &effect.kind,
            UiEffectKind::ThreadUnwatch { thread_id } if is_thread(thread_id, Thread(1))
        )),
        other => panic!("expected an unwatch, got {other:?}"),
    }
    assert!(matches!(
        queue.next_step(),
        RunStep::Done(RunControl::Continue)
    ));
}

#[test]
fn leaving_the_loop_drops_what_waits() {
    let mut model = fresh_model();
    let exit = model.effect(EffectContext::Exit, UiEffectKind::Exit);
    let start = model.effect(EffectContext::ThreadStart, UiEffectKind::ThreadStart);
    let mut queue = EffectQueue::new(vec![exit, start]);
    assert!(matches!(queue.next_step(), RunStep::Done(RunControl::Exit)));
    assert!(matches!(
        queue.next_step(),
        RunStep::Done(RunControl::Continue)
    ));

    let edit = model.effect(
        EffectContext::OpenEditor,
        UiEffectKind::OpenEditor {
            thread_id: Thread(2).id(),
        },
    );
    let mut queue = EffectQueue::new(vec![edit]);
    assert!(matches!(
        queue.next_step(),
        RunStep::Done(RunControl::OpenEditor { thread_id }) if is_thread(&thread_id, Thread(2))
    ));
}

#[test]
fn released_keys_do_nothing() {
    let mut model = workspace_insert_model();
    let mut release = key(KeyCode::Char('x'));
    release.kind = KeyEventKind::Release;
    assert!(press(&mut model, release).is_empty());
    assert!(model.composer.is_empty());
    let mut repeat = key(KeyCode::Char('x'));
    repeat.kind = KeyEventKind::Press;
    let _ = press(&mut model, repeat);
    assert_eq!(model.composer.as_str(), "x");
}

#[test]
fn deferred_plan_is_resumed_in_normal_mode() {
    let mut model = fresh_model();
    model.current_thread_id = Some(Thread(9).id());
    let _ = model.update(UiEvent::ServerRequest(ServerRequest::RequestPlanApproval {
        request_id: RequestId(60),
        params: plan_approval_params(Thread(9)),
    }));
    assert!(model.is_reviewing());
    assert!(model
        .plan_edit_target()
        .is_some_and(|thread| is_thread(&thread, Thread(9))));

    let effects = press(&mut model, key(KeyCode::Esc));
    assert!(effects.is_empty(), "the request stays pending");
    assert!(model.plan_approval.is_some());
    assert!(!model.is_reviewing());
    assert_eq!(model.mode, UiMode::Normal);

    let _ = press(&mut model, key(KeyCode::Char('R')));
    assert!(model.is_reviewing());
    assert_eq!(model.mode, UiMode::Overlay);

    model.reload_plan_after_edit("# Edited\n\nNew text.".to_string());
    let rendered = screen_text(&mut model, 60, 16);
    assert!(rendered.contains("New text."), "{rendered}");
}

#[test]
fn editor_request_names_the_thread_of_the_plan() {
    let mut model = fresh_model();
    model.current_thread_id = Some(Thread(9).id());
    let _ = model.update(UiEvent::ServerRequest(ServerRequest::RequestPlanApproval {
        request_id: RequestId(61),
        params: plan_approval_params(Thread(9)),
    }));
    let effects = press(
        &mut model,
        modified_key(KeyCode::Char('g'), KeyModifiers::control()),
    );
    assert!(matches!(
        &effects[0].kind,
        UiEffectKind::OpenEditor { thread_id } if is_thread(thread_id, Thread(9))
    ));
    assert!(model.is_reviewing());
}

#[test]
fn cursor_is_drawn_inside_the_composer() {
    let mut model = workspace_insert_model();
    model.composer.set_text("abc\ndefgh".to_string());
    let ops = model.render(Rect {
        x: 0,
        y: 0,
        width: 30,
        height: 12,
    });
    let cursors: Vec<(u16, u16)> = ops
        .iter()
        .filter_map(|op| match op {
            DrawOp::Cursor { x, y } => Some((*x, *y)),
            DrawOp::Lines { .. } => None,
        })
        .collect();
    // Two rows of text above the status rule and the status line.
    assert_eq!(cursors, vec![(5, 9)]);

    model.is_turn_running = true;
    let ops = model.render(Rect {
        x: 0,
        y: 0,
        width: 30,
        height: 12,
    });
    assert!(ops.iter().all(|op| matches!(op, DrawOp::Lines { .. })));
}

#[test]
fn status_line_tells_agent_and_mode() {
    let mut model = workspace_normal_model();
    model.plan_mode = true;
    let rendered = screen_text(&mut model, 100, 12);
    assert!(
        rendered.contains("Status Idle  agent idle  Normal  ⏸ PLAN MODE  Shift+Tab plan/full"),
        "{rendered}"
    );
    assert!(rendered.contains("─ Input (plan) "), "{rendered}");

    model.is_turn_running = true;
    let rendered = screen_text(&mut model, 100, 12);
    assert!(rendered.contains("agent running"), "{rendered}");
    model.is_turn_cancelling = true;
    let rendered = screen_text(&mut model, 100, 12);
    assert!(rendered.contains("agent cancelling"), "{rendered}");
}

#[test]
fn inspector_tells_turn_mode_and_thread() {
    let mut model = workspace_normal_model();
    model.focus = FocusTarget::Inspector;
    model.current_thread_id = Some(Thread(4).id());
    for n in 0..6 {
        model.recent_file_changes.push(FileChangeOutput {
            path: format!("f{n}.txt"),
            change: FileChange::Add {
                content: String::new(),
            },
        });
    }
    let rows = screen_rows(&mut model, 80, 24);
    let has = |text: &str| rows.iter().any(|row| row.trim_end() == text);
    assert!(has("Turn idle"), "{rows:?}");
    assert!(has("Editor Normal"), "{rows:?}");
    assert!(has("Agent FULL  Shift+Tab"), "{rows:?}");
    assert!(has(&format!("Thread {}", Thread(4).text())), "{rows:?}");
    assert!(has("none"), "{rows:?}");
    // Newest first, four at most.
    let changes: Vec<&str> = rows
        .iter()
        .filter(|row| row.starts_with("• "))
        .map(|row| row.trim_end())
        .collect();
    assert_eq!(changes, vec!["• f5.txt", "• f4.txt", "• f3.txt", "• f2.txt"]);
}

#[test]
fn nested_preview_tells_its_depth() {
    let mut model = workspace_normal_model();
    open_preview(&mut model, Thread(1), Vec::new());
    let rendered = screen_text(&mut model, 80, 10);
    assert!(!rendered.contains("nested"), "{rendered}");
    open_preview(&mut model, Thread(2), Vec::new());
    let rendered = screen_text(&mut model, 80, 10);
    assert!(
        rendered.contains("─ subagent worker — running · nested ×1 ─"),
        "{rendered}"
    );
    let rendered = screen_text(&mut model, 120, 10);
    assert!(rendered.contains("Esc Esc select"), "{rendered}");
}

#[test]
fn scrolling_stays_within_the_rows() {
    let mut model = select_model_with_items(20);
    model.transcript_inner_width = 40;
    model.scroll_down(500, 10);
    assert_eq!(model.scroll, 29);
    assert!(model.auto_scroll);
    model.scroll_up(4);
    assert_eq!(model.scroll, 25);
    assert!(!model.auto_scroll);
    model.scroll_up(400);
    assert_eq!(model.scroll, 0);
    assert_eq!(model.total_transcript_rows(40), 39);
}

#[test]
fn sizes_follow_what_is_on_screen() {
    let mut model = workspace_normal_model();
    assert_eq!(model.transcript_viewport_height(80, 24), 20);
    model.mode = UiMode::Command;
    assert_eq!(model.transcript_viewport_height(80, 24), 19);
    model.composer.set_text("a\nb\nc\nd\ne\nf".to_string());
    assert_eq!(model.composer_height(), 4);
    assert_eq!(model.transcript_viewport_height(80, 24), 16);
    assert_eq!(model.transcript_cache_width_hint(120), 83);
    assert_eq!(model.transcript_cache_width_hint(80), 80);
    open_preview(&mut model, Thread(1), Vec::new());
    assert_eq!(model.transcript_viewport_height(80, 24), 22);
    model.screen = Screen::Dashboard;
    assert_eq!(model.transcript_viewport_height(80, 24), 24);
}

#[test]
fn highlighted_rows_keep_their_text() {
    let mut model = select_model_with_items(3);
    let plain = transcript_rows(&mut model, 40);
    enter_select(&mut model, START);
    model.scroll = 0;
    let marked: Vec<String> = model
        .visible_transcript_lines(40, 50)
        .iter()
        .map(lines_text)
        .collect();
    assert_eq!(marked, plain);
}

#[test]
fn unknown_commands_are_reported() {
    let mut model = workspace_normal_model();
    let effects = model.execute_command("frobnicate");
    assert!(effects.is_empty());
    let joined = transcript_rows(&mut model, 80).join("\n");
    assert!(joined.contains("frobnicate"), "{joined}");
}

fn write_file(app: &mut App, call_id: &str, path: &str) {
    app.handle_session_event(
        event(
            call_id,
            EventMsg::ToolCallCompleted(ToolCallCompletedEvent {
                call_id: call_id.to_owned(),
                success: true,
                output_preview: None,
                error: None,
                result_kind: ToolCallResultKind::Final,
                related_thread_id: None,
                file_change: Some(FileChangeOutput {
                    path: path.to_owned(),
                    change: FileChange::Add {
                        content: String::from("x"),
                    },
                }),
                file_changes: Vec::new(),
                todos: Vec::new(),
            }),
        ),
        20,
    );
}

#[test]
fn only_the_latest_changes_are_kept() {
    let mut app = App::new();
    start_turn(&mut app);
    for n in 0..25 {
        write_file(&mut app, &format!("c{n}"), &format!("f{n}.txt"));
    }
    assert_eq!(app.model.recent_file_changes.len(), 20);
    assert_eq!(app.model.recent_file_changes[0].path, "f5.txt");
    assert_eq!(app.model.recent_file_changes[19].path, "f24.txt");
}

#[test]
fn repeated_answers_add_no_row() {
    let mut app = App::new();
    start_turn(&mut app);
    complete_agent_message(&mut app, "1", "a1", "first");
    complete_agent_message(&mut app, "2", "a1", "first again");
    assert_eq!(app.model.transcript.items.len(), 1);
    complete_agent_message(&mut app, "3", "a2", "second");
    assert_eq!(app.model.transcript.items.len(), 2);
    app.handle_session_event(
        event(
            "4",
            EventMsg::TurnCompleted {
                turn_id: String::from("turn-1"),
                last_assistant_message: Some(String::from("second")),
            },
        ),
        20,
    );
    assert_eq!(app.model.transcript.items.len(), 2);
    assert!(!app.model.is_turn_running);
}

#[test]
fn repeated_reasoning_adds_no_row() {
    let mut app = App::new();
    start_turn(&mut app);
    reasoning_delta(&mut app, "1", "r1", "why");
    complete_reasoning(&mut app, "2", "r1", "why");
    complete_reasoning(&mut app, "3", "r1", "why not");
    assert_eq!(app.model.transcript.items.len(), 1);
}

#[test]
fn ending_a_turn_ends_its_cancellation() {
    let mut app = App::new();
    app.model.current_thread_id = Some(Thread(3).id());
    start_turn(&mut app);
    let effects = app.model.request_turn_cancel();
    assert_eq!(effects.len(), 1);
    assert!(app.model.is_turn_cancelling);
    assert!(app.model.request_turn_cancel().is_empty(), "one request at a time");
    app.handle_session_event(
        event(
            "1",
            EventMsg::Error {
                error: ErrorInfo {
                    message: String::from("lost"),
                },
            },
        ),
        20,
    );
    assert!(!app.model.is_turn_running);
    assert!(!app.model.is_turn_cancelling);
    assert_eq!(app.model.status_line, "Error");
}

#[test]
fn tracked_calls_name_rows_of_the_transcript() {
    let mut app = App::new();
    start_turn(&mut app);
    start_tool_call(&mut app, "1", "c1", "read", "a");
    start_tool_call(&mut app, "2", "c2", "read", "b");
    complete_agent_message(&mut app, "3", "m1", "between");
    start_tool_call(&mut app, "4", "c3", "read", "c");
    assert_eq!(app.model.transcript.call_row("c1"), Some((0, 0)));
    assert_eq!(app.model.transcript.call_row("c2"), Some((0, 1)));
    assert_eq!(app.model.transcript.call_row("c3"), Some((2, 0)));
    complete_tool_call(&mut app, "5", "c2", true, None);
    assert_eq!(app.model.transcript.call_row("c2"), None);
    assert_eq!(app.model.transcript.call_row("c1"), Some((0, 0)));
}

#[test]
fn drawing_changes_no_text_and_stays_on_the_screen() {
    for (width, height) in [(120, 24), (80, 10), (40, 3), (1, 1), (0, 0)] {
        let mut model = select_model_with_items(9);
        model.mode = UiMode::Command;
        model.composer.set_text("draft".to_string());
        let before = transcript_rows(&mut model, 50);
        let ops = model.render(Rect {
            x: 0,
            y: 0,
            width,
            height,
        });
        for op in &ops {
            if let DrawOp::Lines { area, .. } = op {
                assert!(area.x + area.width <= width, "{area:?}");
                assert!(area.y + area.height <= height, "{area:?}");
            }
        }
        assert_eq!(transcript_rows(&mut model, 50), before);
        assert_eq!(model.composer.as_str(), "draft");
        assert_eq!(model.mode, UiMode::Command);
    }
}

#[test]
fn refused_draft_comes_back_only_to_an_empty_composer() {
    let mut model = workspace_insert_model();
    model.composer.set_text("no thread yet".to_string());
    let effects = model.request_turn_start();
    assert!(effects.is_empty());
    assert_eq!(model.composer.as_str(), "no thread yet");
}

#[test]
fn closing_the_command_line_leaves_a_plan_deferred() {
    let mut model = fresh_model();
    let thread_id = Thread(81);
    model.current_thread_id = Some(thread_id.id());
    let _ = model.update(UiEvent::ServerRequest(ServerRequest::RequestPlanApproval {
        request_id: RequestId(81),
        params: plan_approval_params(thread_id),
    }));
    let _ = press(&mut model, key(KeyCode::Esc));
    assert_eq!(model.mode, UiMode::Normal);

    let _ = press(&mut model, key(KeyCode::Char(':')));
    assert_eq!(model.mode, UiMode::Command);
    let _ = press(&mut model, key(KeyCode::Esc));
    assert_eq!(model.mode, UiMode::Normal);
    assert!(model.plan_approval.is_some());

    let _ = press(&mut model, key(KeyCode::Char('R')));
    assert_eq!(model.mode, UiMode::Overlay);
    assert!(model.is_reviewing());
}
