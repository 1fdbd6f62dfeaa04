use cazean_tui::markdown_render::{append_markdown, render_markdown_text};
use cazean_tui::markdown_stream::{MarkdownStreamCollector, StreamController};
use cazean_tui::style::Line;

fn line_texts_of(lines: &[Line]) -> Vec<String> {
    lines
        .iter()
        .map(|line| {
            line.spans
                .iter()
                .map(|span| span.content.as_str())
                .collect::<String>()
        })
        .collect()
}

#[test]
fn snapshot_includes_pending_tail_before_newline() -> Result<(), Box<dyn std::error::Error>> {
    let mut controller = StreamController::new(None);
    let _ = controller.push("hello");

    let lines = controller
        .snapshot_lines()
        .ok_or_else(|| std::io::Error::other("pending tail should render"))?;
    assert_eq!(line_texts_of(&lines), vec![String::from("hello")]);
    Ok(())
}

#[test]
fn snapshot_replaces_pending_tail_after_newline_commit()
-> Result<(), Box<dyn std::error::Error>> {
    let mut controller = StreamController::new(None);
    let _ = controller.push("hello");
    let _ = controller.push(" world\n");

    let lines = controller
        .snapshot_lines()
        .ok_or_else(|| std::io::Error::other("committed markdown line should render"))?;
    assert_eq!(line_texts_of(&lines), vec![String::from("hello world")]);
    Ok(())
}

#[test]
fn snapshot_includes_committed_lines_and_pending_tail() -> Result<(), Box<dyn std::error::Error>>
{
    let mut controller = StreamController::new(None);
    let _ = controller.push("hello\nwor");

    let lines = controller.snapshot_lines().ok_or_else(|| {
        std::io::Error::other("committed line and pending tail should render")
    })?;
    assert_eq!(
        line_texts_of(&lines),
        vec![String::from("hello"), String::from("wor")]
    );
    Ok(())
}

fn line_texts(lines: Vec<Line>) -> Vec<String> {
    lines
        .into_iter()
        .map(|line| {
            line.spans
                .into_iter()
                .map(|span| span.content)
                .collect()
        })
        .collect()
}

#[test]
fn no_commit_until_newline() {
    let mut collector = MarkdownStreamCollector::new(None);
    collector.push_delta("hello");
    assert!(collector.commit_complete_lines().is_empty());
    collector.push_delta("\n");
    assert_eq!(collector.commit_complete_lines().len(), 1);
}

#[test]
fn commit_is_idempotent_without_new_newline() {
    let mut collector = MarkdownStreamCollector::new(None);

    collector.push_delta("hello\n");
    assert_eq!(line_texts(collector.commit_complete_lines()), vec!["hello"]);
    assert_eq!(collector.parse_count(), 1);

    collector.push_delta("more");
    assert!(collector.commit_complete_lines().is_empty());
    assert_eq!(collector.parse_count(), 1);

    collector.push_delta("\n");
    assert_eq!(line_texts(collector.commit_complete_lines()), vec!["more"]);
    assert_eq!(collector.parse_count(), 2);
}

#[test]
fn commit_skips_reparse_after_zero_diff_newline() {
    let mut collector = MarkdownStreamCollector::new(None);

    collector.push_delta("# h\n");
    assert_eq!(line_texts(collector.commit_complete_lines()), vec!["h"]);
    assert_eq!(collector.parse_count(), 1);

    collector.push_delta("\n");
    assert!(collector.commit_complete_lines().is_empty());
    assert_eq!(collector.parse_count(), 2);

    collector.push_delta("tail");
    assert!(collector.commit_complete_lines().is_empty());
    assert_eq!(collector.parse_count(), 2);

    collector.push_delta("\n");
    assert_eq!(
        line_texts(collector.commit_complete_lines()),
        vec![String::new(), "tail".to_owned()]
    );
    assert_eq!(collector.parse_count(), 3);
}

#[test]
fn clear_resets_parsed_newline_marker() {
    let mut collector = MarkdownStreamCollector::new(None);

    collector.push_delta("a\n");
    assert_eq!(line_texts(collector.commit_complete_lines()), vec!["a"]);
    assert_eq!(collector.parse_count(), 1);

    collector.clear();
    assert_eq!(collector.parse_count(), 0);

    collector.push_delta("a\n");
    assert_eq!(line_texts(collector.commit_complete_lines()), vec!["a"]);
    assert_eq!(collector.parse_count(), 1);
}

#[test]
fn append_markdown_keeps_plain_text_on_one_line() {
    let mut lines = Vec::new();
    append_markdown("hello world\n", None, &mut lines);
    assert_eq!(line_texts_of(&lines), vec!["hello world".to_string()]);
}

#[test]
fn renders_lists_and_code_blocks() {
    let text = render_markdown_text("- one\n- two\n\n```rust\nfn main() {}\n```\n");
    assert_eq!(
        line_texts_of(&text),
        vec![
            "- one".to_string(),
            "- two".to_string(),
            "".to_string(),
            "```rust".to_string(),
            "    fn main() {}".to_string(),
        ]
    );
}

#[test]
fn rendered_documents_end_without_a_blank_row() {
    for source in ["# h\n\n", "a\n\nb\n\n\n", "- x\n\n", "```\ncode\n```\n\n", "> q\n"] {
        let lines = render_markdown_text(source);
        let last = lines.last().expect("rows");
        assert!(!last.spans.is_empty(), "{source:?}");
    }
    assert!(render_markdown_text("").is_empty());
}

#[test]
fn inline_marks_become_styles() {
    let lines = render_markdown_text("a *b* **c** `d` ~~e~~\n");
    assert_eq!(line_texts_of(&lines), vec!["a b c d e"]);
    let style_of = |text: &str| {
        lines[0]
            .spans
            .iter()
            .find(|span| span.content == text)
            .expect("a span")
            .style
    };
    assert!(style_of("b").add_modifier.italic);
    assert!(style_of("c").add_modifier.bold);
    assert!(style_of("d").fg.is_some());
    assert!(style_of("e").add_modifier.crossed_out);
}

#[test]
fn streams_end_with_the_text_that_came_in() {
    let mut controller = StreamController::new(None);
    for delta in ["# T", "itle\nbo", "dy"] {
        let _ = controller.push(delta);
    }
    let (lines, raw) = controller.finalize_parts().expect("a message");
    assert_eq!(raw, "# Title\nbody");
    assert_eq!(line_texts_of(&lines), vec!["Title", "", "body"]);
}

#[test]
fn breaks_images_and_html_keep_their_text() {
    assert_eq!(line_texts_of(&render_markdown_text("a\nb")), vec!["a", "b"]);
    assert_eq!(line_texts_of(&render_markdown_text("a  \nb")), vec!["a", "b"]);
    assert_eq!(
        line_texts_of(&render_markdown_text("see ![alt](picture.png)")),
        vec!["see alt"]
    );
    assert_eq!(
        line_texts_of(&render_markdown_text("a <b>x</b>")),
        vec!["a <b>x</b>"]
    );
    assert_eq!(
        line_texts_of(&render_markdown_text("<div>\nx\n</div>\n")),
        vec!["<div>", "x", "</div>"]
    );
}
