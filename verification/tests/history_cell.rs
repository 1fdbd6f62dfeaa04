use cazean_tui::config::{ColorSpec, TuiConfig};
use cazean_tui::highlight::{RenderContext, SyntaxLibrary};
use cazean_tui::history_cell::{
    is_preformatted_line, ToolCallGroupCell, ToolCallState, TranscriptItem,
};
use cazean_tui::markdown_render::CODE_COLOR;
use cazean_tui::protocol::{
    FileChange, FileChangeOperation, FileChangeOutput, TodoItem, TodoStatus,
};
use cazean_tui::style::{Color, Line, Span, Style};
use cazean_tui::wrap::display_width;

fn context() -> RenderContext {
    RenderContext {
        config: TuiConfig {
            max_rendered_diff_lines: 1000,
            max_highlight_bytes: 512 * 1024,
            max_highlight_lines: 10_000,
            diff_add_bg: ColorSpec::Rgb { r: 33, g: 58, b: 43 },
            diff_delete_bg: ColorSpec::Rgb { r: 74, g: 34, b: 29 },
            highlight_theme: "OneHalfDark".to_string(),
        },
        library: SyntaxLibrary::load(),
    }
}

#[test]
fn fenced_code_line_marker_is_preformatted() {
    let line = Line::from_spans(vec![Span::styled(
        "    let x = 1;",
        Style::default().fg(CODE_COLOR),
    )])
    .styled(Style::default().fg(CODE_COLOR));
    assert!(is_preformatted_line(&line));
}

#[test]
fn prose_with_inline_code_is_not_preformatted() {
    let line = Line::from_spans(vec![
        Span::raw("use the "),
        Span::styled("foo", Style::default().fg(CODE_COLOR)),
        Span::raw(" helper"),
    ]);
    assert!(!is_preformatted_line(&line));
}

#[test]
fn inline_code_only_line_is_not_preformatted() {
    let line = Line::from_spans(vec![Span::styled(
        "cargo test -p smooth-tui",
        Style::default().fg(CODE_COLOR),
    )]);
    assert!(!is_preformatted_line(&line));
}

#[test]
fn blank_line_is_not_preformatted() {
    assert!(!is_preformatted_line(&Line::blank()));
}

fn line_text(line: &Line) -> String {
    line.spans
        .iter()
        .map(|span| span.content.as_str())
        .collect()
}

fn within_width(lines: &[Line], width: usize) {
    for line in lines {
        assert!(
            display_width(&line_text(line)) <= width,
            "line exceeds width {width}: {:?}",
            line_text(line)
        );
    }
}

#[test]
fn single_tool_args_hang_indent_under_args() {
    let cell = ToolCallGroupCell::new(
        "run_command".to_string(),
        "echo hello world this is a long command line".to_string(),
    );
    let lines = cell.display_lines(20);
    let texts: Vec<String> = lines.iter().map(line_text).collect();

    assert!(texts.len() > 1, "expected wrapping: {texts:?}");
    // glyph (2) + "run_command" (11) + space (1) = 14.
    let indent = " ".repeat(14);
    for cont in &texts[1..] {
        assert!(cont.starts_with(&indent), "continuation not hung: {cont:?}");
    }
    within_width(&lines, 20);
}

#[test]
fn grouped_tool_entries_hang_indent_under_nested_args() {
    let mut cell = ToolCallGroupCell::new(
        "run".to_string(),
        "first command that is quite long indeed yes".to_string(),
    );
    cell.push_entry("second command also long enough to wrap nicely".to_string());
    let lines = cell.display_lines(24);
    let texts: Vec<String> = lines.iter().map(line_text).collect();

    // entry indent "      " (6) + glyph (2) = 8.
    let indent = " ".repeat(8);
    assert!(
        texts.iter().skip(1).any(|t| t.starts_with(&indent)),
        "no nested continuation found: {texts:?}"
    );
    within_width(&lines, 24);
}

#[test]
fn failed_tool_error_hangs_indent_under_message() {
    let mut cell = ToolCallGroupCell::new("run".to_string(), "do thing".to_string());
    cell.set_entry_outcome(
        0,
        ToolCallState::Failure,
        Some("a long failure explanation that needs to wrap across rows".to_string()),
    );
    let lines = cell.display_lines(20);
    let texts: Vec<String> = lines.iter().map(line_text).collect();

    // error indent "      " (6) + "! " (2) = 8.
    let indent = " ".repeat(8);
    assert!(
        texts.iter().any(|t| t.starts_with(&indent)),
        "error not hung: {texts:?}"
    );
    within_width(&lines, 20);
}

#[test]
fn info_row_hangs_indent_under_message() {
    let item = TranscriptItem::info(
        1,
        "this is a fairly long informational message that should wrap",
    );
    let lines = item.display_lines(&context(), 20);
    let texts: Vec<String> = lines.iter().map(line_text).collect();

    assert!(texts.len() > 1, "expected wrapping: {texts:?}");
    assert!(texts[0].starts_with("i "));
    for cont in &texts[1..] {
        assert!(
            cont.starts_with("  "),
            "info continuation not hung: {cont:?}"
        );
    }
    within_width(&lines, 20);
}

#[test]
fn error_row_hangs_indent_under_message() {
    let item = TranscriptItem::error(
        1,
        "this is a fairly long error message that should certainly wrap",
    );
    let lines = item.display_lines(&context(), 20);
    let texts: Vec<String> = lines.iter().map(line_text).collect();

    assert!(texts.len() > 1, "expected wrapping: {texts:?}");
    assert!(texts[0].starts_with("! "));
    for cont in &texts[1..] {
        assert!(
            cont.starts_with("  "),
            "error continuation not hung: {cont:?}"
        );
    }
    within_width(&lines, 20);
}

#[test]
fn todo_list_renders_status_glyphs_and_wraps() {
    let item = TranscriptItem::todo_list(
        1,
        vec![
            TodoItem {
                content: "a finished step".to_string(),
                status: TodoStatus::Completed,
            },
            TodoItem {
                content: "the step currently being worked on right now".to_string(),
                status: TodoStatus::InProgress,
            },
            TodoItem {
                content: "a future step".to_string(),
                status: TodoStatus::Pending,
            },
        ],
    );
    let lines = item.display_lines(&context(), 24);
    let texts: Vec<String> = lines.iter().map(line_text).collect();

    assert!(texts[0].starts_with("☑ "));
    assert_eq!(lines[0].spans[0].style.fg, Some(Color::Green));
    assert!(
        lines[0].spans[1]
            .style
            .add_modifier
            .crossed_out
    );

    assert!(texts[1].starts_with("◐ "));
    assert_eq!(lines[1].spans[0].style.fg, Some(Color::Cyan));

    // The long in-progress item wraps with a hanging indent.
    assert!(texts.len() > 3, "expected wrapping: {texts:?}");
    assert!(
        texts[2].starts_with("  "),
        "continuation not hung: {:?}",
        texts[2]
    );

    assert!(texts.last().is_some_and(|t| t.starts_with("☐ ")));
    within_width(&lines, 24);
}

#[test]
fn copy_text_returns_user_message_verbatim() {
    let item = TranscriptItem::user(1, "hello\nworld".to_string());
    assert_eq!(item.copy_text().as_deref(), Some("hello\nworld"));
}

#[test]
fn copy_text_returns_assistant_raw_markdown() {
    let raw = "# Title\n\n```rust\nlet x = 1;\n```";
    let item = TranscriptItem::assistant(1, vec![Line::raw("Title")], true, raw.to_string());
    assert_eq!(item.copy_text().as_deref(), Some(raw));
}

#[test]
fn copy_text_falls_back_to_flattened_lines_when_raw_empty() {
    let item = TranscriptItem::assistant(
        1,
        vec![
            Line::from_spans(vec![Span::raw("first "), Span::raw("line")]),
            Line::raw("second"),
        ],
        true,
        String::new(),
    );
    assert_eq!(item.copy_text().as_deref(), Some("first line\nsecond"));
}

#[test]
fn copy_text_flattens_plain_rows() {
    let item = TranscriptItem::info(1, "something happened");
    assert_eq!(item.copy_text().as_deref(), Some("i something happened"));
}

#[test]
fn copy_text_renders_todo_checkboxes() {
    let item = TranscriptItem::todo_list(
        1,
        vec![
            TodoItem {
                content: "done".to_string(),
                status: TodoStatus::Completed,
            },
            TodoItem {
                content: "doing".to_string(),
                status: TodoStatus::InProgress,
            },
            TodoItem {
                content: "later".to_string(),
                status: TodoStatus::Pending,
            },
        ],
    );
    assert_eq!(
        item.copy_text().as_deref(),
        Some("- [x] done\n- [~] doing\n- [ ] later")
    );
}

#[test]
fn copy_text_returns_patch_content_with_header() {
    let item = TranscriptItem::patch(
        1,
        FileChangeOutput {
            path: "src/new.rs".to_string(),
            change: FileChange::Add {
                content: "fn main() {}".to_string(),
            },
        },
    );
    assert_eq!(
        item.copy_text().as_deref(),
        Some("add src/new.rs\nfn main() {}")
    );

    let item = TranscriptItem::patch(
        1,
        FileChangeOutput {
            path: "src/lib.rs".to_string(),
            change: FileChange::Update {
                unified_diff: "@@ -1 +1 @@\n-a\n+b".to_string(),
                move_path: None,
            },
        },
    );
    assert_eq!(item.copy_text().as_deref(), Some("@@ -1 +1 @@\n-a\n+b"));

    let item = TranscriptItem::patch(
        1,
        FileChangeOutput {
            path: "big.bin".to_string(),
            change: FileChange::Omitted {
                operation: FileChangeOperation::Update,
                reason: "too large".to_string(),
                added: 10,
                removed: 2,
                bytes: 4096,
            },
        },
    );
    assert_eq!(
        item.copy_text().as_deref(),
        Some("Update big.bin: omitted (too large, +10/-2, 4096 bytes)")
    );
}

#[test]
fn tool_copy_result_joins_outputs_and_errors() {
    let mut cell = ToolCallGroupCell::new("run".to_string(), "{\"a\":1}".to_string());
    cell.set_entry_output(0, "first output".to_string());
    cell.set_entry_outcome(0, ToolCallState::Success, None);
    let second = cell.push_entry("{\"b\":2}".to_string());
    cell.set_entry_outcome(second, ToolCallState::Failure, Some("boom".to_string()));

    assert_eq!(
        cell.copy_result().as_deref(),
        Some("first output\n\nerror: boom")
    );
}

#[test]
fn tool_copy_result_is_none_while_running() {
    let cell = ToolCallGroupCell::new("run".to_string(), "{}".to_string());
    assert_eq!(cell.copy_result(), None);
}

#[test]
fn tool_copy_args_joins_full_json_args() {
    let mut cell = ToolCallGroupCell::new("run".to_string(), "{\"a\":1}".to_string());
    cell.push_entry("{\"b\":2}".to_string());
    assert_eq!(cell.copy_args(), "{\"a\":1}\n\n{\"b\":2}");
}

#[test]
fn user_message_is_framed_by_gutter_and_separators() {
    let item = TranscriptItem::user(
        1,
        "this is a fairly long user message that should wrap across several rows".to_string(),
    );
    let lines = item.display_lines(&context(), 20);

    assert!(lines.len() > 3, "expected top/bottom rules + wrapped body");

    // The first and last rows are full-width muted rules bracketing the
    // message above and below.
    for sep in [&lines[0], &lines[lines.len() - 1]] {
        let sep_text = line_text(sep);
        assert!(
            !sep_text.is_empty() && sep_text.chars().all(|c| c == '─'),
            "expected a rule, got: {sep_text:?}"
        );
        assert_eq!(sep.spans[0].style.fg, Some(Color::DarkGray));
    }

    // Every body row between the rules carries the blue gutter, including
    // wrapped continuations.
    for line in &lines[1..lines.len() - 1] {
        let gutter = &line.spans[0];
        assert_eq!(gutter.content.as_str(), "▌ ");
        assert_eq!(gutter.style.fg, Some(Color::Blue));
    }
    within_width(&lines, 20);
}

#[test]
fn stored_output_of_a_running_call_is_not_copied() {
    let mut cell = ToolCallGroupCell::new("run".to_string(), "{}".to_string());
    cell.set_entry_output(0, "partial".to_string());
    assert_eq!(cell.copy_result(), None);
    assert_eq!(cell.copy_entry_result(0), None);

    cell.set_entry_outcome(0, ToolCallState::Success, None);
    assert_eq!(cell.copy_result().as_deref(), Some("partial"));
    assert_eq!(cell.copy_entry_result(0).as_deref(), Some("partial"));
}

#[test]
fn adding_a_call_appends_its_arguments_alone() {
    let mut cell = ToolCallGroupCell::new("run".to_string(), "{\"a\":1}".to_string());
    cell.set_entry_output(0, "done".to_string());
    cell.set_entry_outcome(0, ToolCallState::Success, None);
    let (args, result) = (cell.copy_args(), cell.copy_result());

    assert_eq!(cell.push_entry("{\"b\":2}".to_string()), 1);
    assert_eq!(cell.entry_count(), 2);
    assert_eq!(cell.tool_name(), "run");
    assert_eq!(cell.copy_args(), args + "\n\n" + "{\"b\":2}");
    assert_eq!(cell.copy_result(), result);
}
