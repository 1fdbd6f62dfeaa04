use cazean_tui::config::{to_color, ColorSpec, TuiConfig};
use cazean_tui::diff_render::{create_diff_summary, line_counts};
use cazean_tui::highlight::{RenderContext, SyntaxLibrary};
use cazean_tui::protocol::{FileChange, FileChangeOperation, FileChangeOutput};
use cazean_tui::style::{Line, Style};
use cazean_tui::wrap::display_width;

fn context() -> RenderContext {
    RenderContext {
        config: TuiConfig {
            max_rendered_diff_lines: 1000,
            max_highlight_bytes: 512 * 1024,
            max_highlight_lines: 10_000,
            diff_add_bg: ColorSpec::Rgb { r: 33, g: 58, b: 43 },
            diff_delete_bg: ColorSpec::Rgb { r: 74, g: 34, b: 29 },
            highlight_theme: "OneHalfDark".to_string(),
        },
        library: SyntaxLibrary::load(),
    }
}

fn line_texts(lines: Vec<Line>) -> Vec<String> {
    lines
        .into_iter()
        .map(|line| line.spans.into_iter().map(|span| span.content).collect())
        .collect()
}

fn line_text(line: &Line) -> String {
    line.spans
        .iter()
        .map(|span| span.content.as_str())
        .collect()
}

#[test]
fn renders_added_file_summary_and_lines() {
    let output = FileChangeOutput {
        path: "src/new.rs".to_string(),
        change: FileChange::Add {
            content: "fn main() {}\n".to_string(),
        },
    };

    let rendered = line_texts(create_diff_summary(&context(),&output, 80));

    assert_eq!(rendered[0], "• Added 1 file (+1 -0)");
    assert_eq!(rendered[1], "  src/new.rs (+1 -0)");
    assert!(
        rendered
            .iter()
            .any(|line| line.contains("1 + fn main() {}"))
    );
}

#[test]
fn syntax_highlights_added_rust_file() {
    let output = FileChangeOutput {
        path: "src/new.rs".to_string(),
        change: FileChange::Add {
            content: "fn main() {}\n".to_string(),
        },
    };

    let rendered = create_diff_summary(&context(),&output, 80);
    let fn_span = rendered
        .iter()
        .flat_map(|line| line.spans.iter())
        .find(|span| span.content.as_str() == "fn");
    let Some(fn_span) = fn_span else {
        panic!("expected a highlighted fn span in rendered diff");
    };

    assert!(fn_span.style.fg.is_some() || fn_span.style.add_modifier != Style::new().add_modifier);
    assert!(
        rendered
            .iter()
            .any(|line| line_text(line).contains("1 + fn main() {}")
                && line.style.bg == Some(to_color(context().config.diff_add_bg)))
    );
}

#[test]
fn renders_update_summary_and_diff_lines() {
    let diff = diffy::create_patch("old\n", "new\n").to_string();
    let output = FileChangeOutput {
        path: "src/lib.rs".to_string(),
        change: FileChange::Update {
            unified_diff: diff,
            move_path: None,
        },
    };

    let rendered = line_texts(create_diff_summary(&context(),&output, 80));

    assert_eq!(rendered[0], "• Edited 1 file (+1 -1)");
    assert!(rendered.iter().any(|line| line.contains("1 - old")));
    assert!(rendered.iter().any(|line| line.contains("1 + new")));
}

#[test]
fn syntax_highlights_update_using_move_destination_extension() {
    let diff = diffy::create_patch("plain\n", "fn main() {}\n").to_string();
    let output = FileChangeOutput {
        path: "scripts/generated.txt".to_string(),
        change: FileChange::Update {
            unified_diff: diff,
            move_path: Some("src/generated.rs".to_string()),
        },
    };

    let rendered = create_diff_summary(&context(),&output, 80);
    assert!(
        rendered
            .iter()
            .any(|line| line_text(line).contains("1 + fn main() {}"))
    );
    let fn_span = rendered
        .iter()
        .flat_map(|line| line.spans.iter())
        .find(|span| span.content.as_str() == "fn");
    let Some(fn_span) = fn_span else {
        panic!("expected moved Rust file to use destination extension for highlighting");
    };
    assert!(fn_span.style.fg.is_some() || fn_span.style.add_modifier != Style::new().add_modifier);
    assert!(
        rendered
            .iter()
            .any(|line| line_text(line).contains("1 + fn main() {}")
                && line.style.bg == Some(to_color(context().config.diff_add_bg)))
    );
}

#[test]
fn renders_move_summary_and_destination() {
    let output = FileChangeOutput {
        path: "src/old.rs".to_string(),
        change: FileChange::Update {
            unified_diff: String::new(),
            move_path: Some("src/new.rs".to_string()),
        },
    };

    let rendered = line_texts(create_diff_summary(&context(),&output, 80));

    assert_eq!(rendered[0], "• Moved 1 file (+0 -0)");
    assert_eq!(rendered[1], "  src/old.rs -> src/new.rs (+0 -0)");
}

#[test]
fn renders_omitted_file_change_message() {
    let output = FileChangeOutput {
        path: "large.txt".to_string(),
        change: FileChange::Omitted {
            operation: FileChangeOperation::Update,
            reason: "too large".to_string(),
            added: 10,
            removed: 0,
            bytes: 600_000,
        },
    };

    let rendered = line_texts(create_diff_summary(&context(),&output, 80));

    assert_eq!(rendered[0], "• Edited 1 file (+10 -0)");
    assert!(
        rendered
            .iter()
            .any(|line| { line.contains("diff omitted (600000 bytes): too large") })
    );
}

#[test]
fn renders_omitted_added_file_as_added() {
    let output = FileChangeOutput {
        path: "large.txt".to_string(),
        change: FileChange::Omitted {
            operation: FileChangeOperation::Add,
            reason: "too large".to_string(),
            added: 10,
            removed: 0,
            bytes: 600_000,
        },
    };

    let rendered = line_texts(create_diff_summary(&context(),&output, 80));

    assert_eq!(rendered[0], "• Added 1 file (+10 -0)");
}

#[test]
fn wraps_long_summary_paths_with_hanging_indent() {
    let output = FileChangeOutput {
        path: format!("src/{}{}", "very_long_path_segment_".repeat(4), "file.rs"),
        change: FileChange::Add {
            content: "line\n".to_string(),
        },
    };

    let rendered = line_texts(create_diff_summary(&context(),&output, 24));

    assert!(
        rendered
            .iter()
            .all(|line| display_width(line) <= 24),
        "{rendered:?}"
    );
    assert_eq!(rendered[0], "• Added 1 file (+1 -0)");

    // Path rows follow the summary until the four-column diff body begins;
    // every path row keeps the two-column hanging indent.
    let mut path_rows = Vec::new();
    for line in &rendered[1..] {
        if line.starts_with("    ") {
            break;
        }
        path_rows.push(line.clone());
    }
    assert!(path_rows.len() > 1, "path did not wrap: {path_rows:?}");
    for row in &path_rows {
        assert!(row.starts_with("  "), "path row not hung: {row:?}");
    }
}

#[test]
fn wraps_long_summary_line_with_hanging_indent() {
    let output = FileChangeOutput {
        path: "f.rs".to_string(),
        change: FileChange::Add {
            content: "line\n".to_string(),
        },
    };

    let rendered = line_texts(create_diff_summary(&context(),&output, 12));

    assert!(rendered[0].starts_with("• "));
    // The summary wraps at this width; its continuation hangs under "Added…".
    assert!(rendered[1].starts_with("  "), "{rendered:?}");
    assert!(
        rendered
            .iter()
            .all(|line| display_width(line) <= 12),
        "{rendered:?}"
    );
}

#[test]
fn wraps_long_diff_content_within_width() {
    let old = format!("{}\n", "a".repeat(80));
    let new = format!("{}\n", "b".repeat(80));
    let output = FileChangeOutput {
        path: "src/lib.rs".to_string(),
        change: FileChange::Update {
            unified_diff: diffy::create_patch(&old, &new).to_string(),
            move_path: None,
        },
    };
    let width = 24;

    let rendered = line_texts(create_diff_summary(&context(),&output, width));

    assert!(rendered.iter().any(|line| line.contains("- a")));
    assert!(rendered.iter().any(|line| line.contains("+ b")));
    assert!(
        rendered
            .iter()
            .all(|line| display_width(line) <= usize::from(width)),
        "line exceeded width: {rendered:?}"
    );
}

#[test]
fn caps_rendered_diff_lines() {
    let content = (0..1_010)
        .map(|idx| format!("line {idx}"))
        .collect::<Vec<_>>()
        .join("\n");
    let output = FileChangeOutput {
        path: "large.txt".to_string(),
        change: FileChange::Add { content },
    };

    let rendered = line_texts(create_diff_summary(&context(),&output, 80));

    assert!(rendered.len() <= 1_003);
    assert!(
        rendered
            .iter()
            .any(|line| { line.contains("diff truncated after 1000 rendered lines") })
    );
}

fn update(unified_diff: &str) -> FileChange {
    FileChange::Update {
        unified_diff: unified_diff.to_string(),
        move_path: None,
    }
}

#[test]
fn large_numbers_in_changed_lines_are_ordinary_text() {
    let diff = "@@ -1 +1 @@\n-18446744073709551614\n+18446744073709551615\n";
    assert_eq!(line_counts(&update(diff)), (1, 1));
    let output = FileChangeOutput {
        path: "limits.txt".to_string(),
        change: update(diff),
    };
    let rendered = line_texts(create_diff_summary(&context(), &output, 80));
    assert_eq!(rendered[0], "• Edited 1 file (+1 -1)");
    assert!(
        rendered
            .iter()
            .any(|line| line.contains("1 + 18446744073709551615"))
    );

    // So are those in the line that a hunk's head quotes, and in the text above.
    let quoted = "index 99999999999999999999\n@@ -1 +1 @@ fn f(99999999999999999999)\n-a\n+b\n";
    assert_eq!(line_counts(&update(quoted)), (1, 1));
}

#[test]
fn line_numbers_of_hunks_are_bounded() {
    let last = "@@ -18446744073709551615 +18446744073709551615 @@\n-a\n+b\n";
    assert_eq!(line_counts(&update(last)), (1, 1));
    // The end of the first hunk is no line number.
    let first = format!("{last}@@ -1 +1 @@\n-a\n+b\n");
    assert_eq!(line_counts(&update(&first)), (0, 0));
    let past = "@@ -18446744073709551616 +1 @@\n-a\n+b\n";
    assert_eq!(line_counts(&update(past)), (0, 0));
}

#[test]
fn hunks_close_to_the_largest_line_number_are_read() {
    let diff = "@@ -18446744073709551613 +18446744073709551613 @@\n-a\n+b\n\
                @@ -18446744073709551614 +18446744073709551614 @@\n-c\n+d\n";
    assert_eq!(line_counts(&update(diff)), (2, 2));
}
