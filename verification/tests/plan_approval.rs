use cazean_tui::frame::{DrawOp, Rect};
use cazean_tui::keys::{KeyCode, KeyEvent, KeyModifiers};
use cazean_tui::plan_approval::{PlanApprovalOutcome, PlanApprovalOverlay};
use cazean_tui::protocol::{
    PlanApprovalDecision, RequestId, RequestPlanApprovalParams, ThreadRef,
};
use ratatui::backend::TestBackend;
use ratatui::widgets::Paragraph;
use ratatui::Terminal;

/// Draws `ops` on a screen of that size and gives its rows.
fn drawn_rows(ops: &[DrawOp], width: u16, height: u16) -> Vec<String> {
    let mut terminal = Terminal::new(TestBackend::new(width, height)).expect("a terminal");
    terminal
        .draw(|frame| {
            for op in ops {
                if let DrawOp::Lines { area, lines } = op {
                    let rows: Vec<String> = lines
                        .iter()
                        .map(|line| line.spans.iter().map(|span| span.content.as_str()).collect())
                        .collect();
                    let lines: Vec<ratatui::text::Line> =
                        rows.into_iter().map(ratatui::text::Line::from).collect();
                    let place = ratatui::layout::Rect {
                        x: area.x,
                        y: area.y,
                        width: area.width,
                        height: area.height,
                    };
                    frame.render_widget(Paragraph::new(lines), place);
                }
            }
        })
        .expect("a frame");
    terminal
        .backend()
        .buffer()
        .content()
        .iter()
        .map(|cell| cell.symbol())
        .collect::<Vec<_>>()
        .chunks(usize::from(width))
        .map(|row| row.concat())
        .collect()
}

fn whole(width: u16, height: u16) -> Rect {
    Rect { x: 0, y: 0, width, height }
}

fn unread(text: &str) -> ThreadRef {
    ThreadRef {
        text: text.to_string(),
        parsed: Err("no identifier".to_string()),
    }
}

fn key(code: KeyCode) -> KeyEvent {
    KeyEvent::new(code, KeyModifiers::none())
}

fn ctrl(code: KeyCode) -> KeyEvent {
    KeyEvent::new(code, KeyModifiers::control())
}

fn sample_params() -> RequestPlanApprovalParams {
    RequestPlanApprovalParams {
        thread_id: unread("t"),
        turn_id: "u".into(),
        call_id: "c".into(),
        plan: "# Refactor plan\n\n1. Move the parser.\n2. Add tests.".into(),
        reason: None,
    }
}

fn render_rows(overlay: &mut PlanApprovalOverlay, width: u16, height: u16) -> Vec<String> {
    let ops = overlay.render(whole(width, height));
    drawn_rows(&ops, width, height)
}

#[test]
fn a_approves_without_feedback() {
    let mut overlay = PlanApprovalOverlay::new(RequestId(1), sample_params());
    match overlay.handle_key(key(KeyCode::Char('a'))) {
        PlanApprovalOutcome::Respond(response) => {
            assert_eq!(response.decision, PlanApprovalDecision::Approved);
            assert_eq!(response.feedback, None);
        }
        _ => panic!("expected approval response"),
    }
}

#[test]
fn esc_defers_without_deciding() {
    let mut overlay = PlanApprovalOverlay::new(RequestId(1), sample_params());
    assert!(matches!(
        overlay.handle_key(key(KeyCode::Esc)),
        PlanApprovalOutcome::Defer
    ));
    // Defer parks the overlay but keeps it for resume.
    overlay.defer();
    assert!(!overlay.is_active());
    overlay.resume();
    assert!(overlay.is_active());
}

#[test]
fn ctrl_g_requests_editor() {
    let mut overlay = PlanApprovalOverlay::new(RequestId(1), sample_params());
    assert!(matches!(
        overlay.handle_key(ctrl(KeyCode::Char('g'))),
        PlanApprovalOutcome::OpenEditor
    ));
}

#[test]
fn r_collects_feedback_then_ctrl_enter_rejects() {
    let mut overlay = PlanApprovalOverlay::new(RequestId(1), sample_params());
    assert!(matches!(
        overlay.handle_key(key(KeyCode::Char('r'))),
        PlanApprovalOutcome::Nothing
    ));
    for ch in "use sqlite".chars() {
        overlay.handle_key(key(KeyCode::Char(ch)));
    }
    match overlay.handle_key(ctrl(KeyCode::Enter)) {
        PlanApprovalOutcome::Respond(response) => {
            assert_eq!(response.decision, PlanApprovalDecision::Rejected);
            assert_eq!(response.feedback.as_deref(), Some("use sqlite"));
        }
        _ => panic!("expected rejection with feedback"),
    }
}

#[test]
fn bare_enter_in_feedback_adds_newline_not_submit() {
    let mut overlay = PlanApprovalOverlay::new(RequestId(1), sample_params());
    overlay.handle_key(key(KeyCode::Char('r')));
    overlay.handle_key(key(KeyCode::Char('a')));
    assert!(matches!(
        overlay.handle_key(key(KeyCode::Enter)),
        PlanApprovalOutcome::Nothing
    ));
    overlay.handle_key(key(KeyCode::Char('b')));
    match overlay.handle_key(ctrl(KeyCode::Enter)) {
        PlanApprovalOutcome::Respond(response) => {
            assert_eq!(response.feedback.as_deref(), Some("a\nb"));
        }
        _ => panic!("expected rejection with multi-line feedback"),
    }
}

#[test]
fn esc_while_editing_returns_to_review() {
    let mut overlay = PlanApprovalOverlay::new(RequestId(1), sample_params());
    overlay.handle_key(key(KeyCode::Char('r')));
    // While editing, 'a' is text input, not approval.
    assert!(matches!(
        overlay.handle_key(key(KeyCode::Char('a'))),
        PlanApprovalOutcome::Nothing
    ));
    assert!(matches!(
        overlay.handle_key(key(KeyCode::Esc)),
        PlanApprovalOutcome::Nothing
    ));
    match overlay.handle_key(key(KeyCode::Char('a'))) {
        PlanApprovalOutcome::Respond(response) => {
            assert_eq!(response.decision, PlanApprovalDecision::Approved);
        }
        _ => panic!("expected approval after returning to review"),
    }
}

#[test]
fn paste_into_feedback_appends_text() {
    let mut overlay = PlanApprovalOverlay::new(RequestId(1), sample_params());
    // Paste is ignored while reviewing.
    overlay.handle_paste("ignored");
    overlay.handle_key(key(KeyCode::Char('r')));
    overlay.handle_paste("pasted\nfeedback");
    match overlay.handle_key(ctrl(KeyCode::Enter)) {
        PlanApprovalOutcome::Respond(response) => {
            assert_eq!(response.feedback.as_deref(), Some("pasted\nfeedback"));
        }
        _ => panic!("expected rejection with pasted feedback"),
    }
}

#[test]
fn feedback_up_moves_cursor_to_previous_line() {
    let mut overlay = PlanApprovalOverlay::new(RequestId(1), sample_params());
    overlay.handle_key(key(KeyCode::Char('r')));
    for ch in "ab".chars() {
        overlay.handle_key(key(KeyCode::Char(ch)));
    }
    overlay.handle_key(key(KeyCode::Enter));
    for ch in "cd".chars() {
        overlay.handle_key(key(KeyCode::Char(ch)));
    }
    // feedback is "ab\ncd" with the cursor at the end; a render primes the
    // editor width that Up/Down navigation needs.
    let _ = render_rows(&mut overlay, 40, 8);
    overlay.handle_key(key(KeyCode::Up));
    overlay.handle_key(key(KeyCode::End));
    overlay.handle_key(key(KeyCode::Char('X')));
    match overlay.handle_key(ctrl(KeyCode::Enter)) {
        PlanApprovalOutcome::Respond(response) => {
            assert_eq!(response.feedback.as_deref(), Some("abX\ncd"));
        }
        _ => panic!("expected rejection with edited feedback"),
    }
}

#[test]
fn reason_is_displayed() {
    let mut params = sample_params();
    params.reason = Some("ready for review".into());
    let mut overlay = PlanApprovalOverlay::new(RequestId(1), params);
    let rows = render_rows(&mut overlay, 60, 12);
    assert!(
        rows.iter().any(|row| row.contains("Model's note")),
        "reason callout missing: {rows:?}"
    );
    assert!(
        rows.iter().any(|row| row.contains("ready for review")),
        "reason text missing: {rows:?}"
    );
}

#[test]
fn set_plan_refreshes_body() {
    let mut overlay = PlanApprovalOverlay::new(RequestId(1), sample_params());
    overlay.set_plan("# Edited plan\n\nNew content here.".into());
    let rows = render_rows(&mut overlay, 60, 12);
    assert!(
        rows.iter().any(|row| row.contains("New content here")),
        "edited plan body missing: {rows:?}"
    );
}

#[test]
fn renders_plan_markdown_with_pinned_header_and_footer() {
    let mut overlay = PlanApprovalOverlay::new(RequestId(1), sample_params());
    let rows = render_rows(&mut overlay, 60, 12);
    assert!(
        rows.iter().any(|row| row.contains("Plan approval")),
        "header missing: {rows:?}"
    );
    assert!(
        rows.iter().any(|row| row.contains("Refactor plan")),
        "plan body missing: {rows:?}"
    );
    assert!(
        rows.iter().any(|row| row.contains("a approve")),
        "footer missing: {rows:?}"
    );
}

#[test]
fn scrolling_keeps_tail_reachable() {
    let mut params = sample_params();
    params.plan = (0..40)
        .map(|i| format!("Step number {i} of the plan."))
        .collect::<Vec<_>>()
        .join("\n\n");
    let mut overlay = PlanApprovalOverlay::new(RequestId(1), params);
    // Prime max_scroll with a render, then jump to the bottom.
    let _ = render_rows(&mut overlay, 60, 10);
    overlay.handle_key(key(KeyCode::End));

    let rows = render_rows(&mut overlay, 60, 10);
    assert!(
        rows.iter().any(|row| row.contains("Step number 39")),
        "tail not reachable after scrolling: {rows:?}"
    );
}
