use cazean_tui::frame::{DrawOp, Rect};
use cazean_tui::keys::{KeyCode, KeyEvent, KeyModifiers};
use cazean_tui::protocol::{
    AskUserQuestion, AskUserQuestionOption, AskUserQuestionParams, RequestId, ThreadRef,
};
use cazean_tui::question_picker::{window_start, PickerOutcome, QuestionPicker};
use ratatui::backend::TestBackend;
use ratatui::widgets::Paragraph;
use ratatui::Terminal;

/// Draws `ops` on a screen of that size and gives its rows.
fn drawn_rows(ops: &[DrawOp], width: u16, height: u16) -> Vec<String> {
    let mut terminal = Terminal::new(TestBackend::new(width, height)).expect("a terminal");
    terminal
        .draw(|frame| {
            for op in ops {
                if let DrawOp::Lines { area, lines } = op {
                    let rows: Vec<String> = lines
                        .iter()
                        .map(|line| line.spans.iter().map(|span| span.content.as_str()).collect())
                        .collect();
                    let lines: Vec<ratatui::text::Line> =
                        rows.into_iter().map(ratatui::text::Line::from).collect();
                    let place = ratatui::layout::Rect {
                        x: area.x,
                        y: area.y,
                        width: area.width,
                        height: area.height,
                    };
                    frame.render_widget(Paragraph::new(lines), place);
                }
            }
        })
        .expect("a frame");
    terminal
        .backend()
        .buffer()
        .content()
        .iter()
        .map(|cell| cell.symbol())
        .collect::<Vec<_>>()
        .chunks(usize::from(width))
        .map(|row| row.concat())
        .collect()
}

fn whole(width: u16, height: u16) -> Rect {
    Rect { x: 0, y: 0, width, height }
}

fn unread(text: &str) -> ThreadRef {
    ThreadRef {
        text: text.to_string(),
        parsed: Err("no identifier".to_string()),
    }
}

fn key(code: KeyCode) -> KeyEvent {
    KeyEvent::new(code, KeyModifiers::none())
}

fn sample_params() -> AskUserQuestionParams {
    AskUserQuestionParams {
        thread_id: unread("t"),
        turn_id: "u".into(),
        questions: vec![AskUserQuestion {
            question: "Pick one".into(),
            header: "Pick".into(),
            multi_select: false,
            options: vec![
                AskUserQuestionOption {
                    label: "First".into(),
                    description: "the first".into(),
                    preview: None,
                },
                AskUserQuestionOption {
                    label: "Second".into(),
                    description: "the second".into(),
                    preview: None,
                },
            ],
        }],
    }
}

#[test]
fn enter_on_single_select_confirms() {
    let mut picker = QuestionPicker::new(RequestId(1), sample_params());
    match picker.handle_key(key(KeyCode::Enter)) {
        PickerOutcome::Confirm(resp) => {
            assert_eq!(resp.answers.len(), 1);
            assert_eq!(resp.answers[0].selected, vec!["First".to_string()]);
        }
        _ => panic!("expected confirm"),
    }
}

#[test]
fn arrow_down_then_enter_selects_second() {
    let mut picker = QuestionPicker::new(RequestId(1), sample_params());
    assert!(matches!(
        picker.handle_key(key(KeyCode::Down)),
        PickerOutcome::Nothing
    ));
    match picker.handle_key(key(KeyCode::Enter)) {
        PickerOutcome::Confirm(resp) => {
            assert_eq!(resp.answers[0].selected, vec!["Second".to_string()]);
        }
        _ => panic!("expected confirm"),
    }
}

#[test]
fn esc_cancels() {
    let mut picker = QuestionPicker::new(RequestId(1), sample_params());
    assert!(matches!(
        picker.handle_key(key(KeyCode::Esc)),
        PickerOutcome::Cancel
    ));
}

#[test]
fn other_free_text_flow() {
    let mut picker = QuestionPicker::new(RequestId(1), sample_params());
    // Move to "Other" row (index 2).
    picker.handle_key(key(KeyCode::Down));
    picker.handle_key(key(KeyCode::Down));
    // Enter starts editing.
    picker.handle_key(key(KeyCode::Enter));
    // Type "hi".
    picker.handle_key(key(KeyCode::Char('h')));
    picker.handle_key(key(KeyCode::Char('i')));
    // Confirm.
    match picker.handle_key(key(KeyCode::Enter)) {
        PickerOutcome::Confirm(resp) => {
            assert_eq!(resp.answers[0].selected, vec!["hi".to_string()]);
        }
        _ => panic!("expected confirm with free-text"),
    }
}

#[test]
fn other_editor_cursor_movement() {
    let mut picker = QuestionPicker::new(RequestId(1), sample_params());
    picker.handle_key(key(KeyCode::Down));
    picker.handle_key(key(KeyCode::Down));
    picker.handle_key(key(KeyCode::Enter));
    // Type "ab", move left, type "c" -> "acb".
    picker.handle_key(key(KeyCode::Char('a')));
    picker.handle_key(key(KeyCode::Char('b')));
    picker.handle_key(key(KeyCode::Left));
    picker.handle_key(key(KeyCode::Char('c')));
    match picker.handle_key(key(KeyCode::Enter)) {
        PickerOutcome::Confirm(resp) => {
            assert_eq!(resp.answers[0].selected, vec!["acb".to_string()]);
        }
        _ => panic!("expected confirm with edited free-text"),
    }
}

#[test]
fn other_editor_home_end_delete() {
    let mut picker = QuestionPicker::new(RequestId(1), sample_params());
    picker.handle_key(key(KeyCode::Down));
    picker.handle_key(key(KeyCode::Down));
    picker.handle_key(key(KeyCode::Enter));
    // Type "xab", Home, Delete -> "ab", End, type "c" -> "abc".
    picker.handle_key(key(KeyCode::Char('x')));
    picker.handle_key(key(KeyCode::Char('a')));
    picker.handle_key(key(KeyCode::Char('b')));
    picker.handle_key(key(KeyCode::Home));
    picker.handle_key(key(KeyCode::Delete));
    picker.handle_key(key(KeyCode::End));
    picker.handle_key(key(KeyCode::Char('c')));
    match picker.handle_key(key(KeyCode::Enter)) {
        PickerOutcome::Confirm(resp) => {
            assert_eq!(resp.answers[0].selected, vec!["abc".to_string()]);
        }
        _ => panic!("expected confirm with edited free-text"),
    }
}

#[test]
fn handle_paste_flattens_newlines() {
    let mut picker = QuestionPicker::new(RequestId(1), sample_params());
    picker.handle_key(key(KeyCode::Down));
    picker.handle_key(key(KeyCode::Down));
    picker.handle_key(key(KeyCode::Enter));
    picker.handle_paste("multi\r\nline\tpaste");
    match picker.handle_key(key(KeyCode::Enter)) {
        PickerOutcome::Confirm(resp) => {
            assert_eq!(
                resp.answers[0].selected,
                vec!["multi line paste".to_string()]
            );
        }
        _ => panic!("expected confirm with pasted free-text"),
    }
}

#[test]
fn handle_paste_ignored_when_not_editing() {
    let mut picker = QuestionPicker::new(RequestId(1), sample_params());
    picker.handle_paste("ignored");
    match picker.handle_key(key(KeyCode::Enter)) {
        PickerOutcome::Confirm(resp) => {
            assert_eq!(resp.answers[0].selected, vec!["First".to_string()]);
        }
        _ => panic!("expected confirm of the first option"),
    }
}

#[test]
fn multi_select_toggles_with_space() {
    let mut params = sample_params();
    params.questions[0].multi_select = true;
    let mut picker = QuestionPicker::new(RequestId(1), params);
    picker.handle_key(key(KeyCode::Char(' ')));
    picker.handle_key(key(KeyCode::Down));
    picker.handle_key(key(KeyCode::Char(' ')));
    match picker.handle_key(key(KeyCode::Enter)) {
        PickerOutcome::Confirm(resp) => {
            assert_eq!(
                resp.answers[0].selected,
                vec!["First".to_string(), "Second".to_string()]
            );
        }
        _ => panic!("expected confirm"),
    }
}

#[test]
fn window_start_keeps_active_block_visible() {
    // Everything fits: no scrolling.
    assert_eq!(window_start(5, 0, 1, 10), 0);
    // Active block near the end anchors to the window bottom.
    assert_eq!(window_start(20, 18, 20, 5), 15);
    // Active block taller than the window pins its top.
    assert_eq!(window_start(20, 2, 12, 5), 2);
    // Active block early stays at the top.
    assert_eq!(window_start(20, 0, 2, 5), 0);
}

#[test]
fn desired_height_counts_wrapped_rows() {
    let mut params = sample_params();
    params.questions[0].options[0].description =
        "a very long description that will certainly wrap across several lines at a narrow width"
            .into();
    let picker = QuestionPicker::new(RequestId(1), params);

    let wide = picker.desired_height(200);
    let narrow = picker.desired_height(24);
    assert!(narrow > wide, "narrow={narrow} wide={wide}");

    // desired_height must equal the flattened layout that render draws.
    let Some(layout) = picker.layout(24) else {
        panic!("expected a layout");
    };
    let sum = layout.header.len()
        + layout.blocks.iter().map(Vec::len).sum::<usize>()
        + layout.footer.len();
    assert_eq!(usize::from(narrow), sum);
}

#[test]
fn active_option_stays_visible_under_height_cap() {
    let mut params = sample_params();
    for i in 0..30 {
        params.questions[0].options.push(AskUserQuestionOption {
            label: format!("Option{i:02}"),
            description: format!("description for option {i}"),
            preview: None,
        });
    }
    let mut picker = QuestionPicker::new(RequestId(1), params);
    // Move the cursor to the last real option (First, Second, Option00..29).
    for _ in 0..31 {
        picker.handle_key(key(KeyCode::Down));
    }

    let rows = drawn_rows(&picker.render(whole(40, 20)), 40, 20);

    // Header and footer stay pinned, the active option stays visible.
    assert!(
        rows.iter().any(|r| r.contains("Pick")),
        "header missing: {rows:?}"
    );
    assert!(
        rows.iter().any(|r| r.contains("Esc cancel")),
        "footer missing: {rows:?}"
    );
    assert!(
        rows.iter().any(|r| r.contains("Option29")),
        "active option not visible: {rows:?}"
    );
}
