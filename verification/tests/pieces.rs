use cazean_tui::clipboard::{clipboard_sequence, framed};
use cazean_tui::composer::ComposerState;
use cazean_tui::config::{to_color, ColorSpec, NamedColor};
use cazean_tui::copying::{chord_completes, prepare_copy, within_window};
use cazean_tui::error::TuiError;
use cazean_tui::frame::{
    append_visible_line, render_horizontal_separator, render_vertical_separator, separator_line,
    split_horizontal, split_vertical, window_lines, Constraint, DrawOp, Rect,
};
use cazean_tui::keys::KeyModifiers;
use cazean_tui::style::{Color, Line, Style};
use cazean_tui::text::{
    cut_to_bytes, decimal, lines_with_endings, pad_left, replace_breaks, split_text, text_contains, text_lines,
    text_starts_with, trim, trim_end_of,
};
use cazean_tui::text_map::TextMap;
use cazean_tui::transcript::{CachedRenderedRows, RenderedTranscriptCache};

fn line_text(line: &Line) -> String {
    line.spans
        .iter()
        .map(|span| span.content.as_str())
        .collect()
}

fn composer(text: &str) -> ComposerState {
    let mut composer = ComposerState::new();
    composer.set_text(text.to_string());
    composer
}

#[test]
fn texts_are_cut_and_searched() {
    assert_eq!(text_lines("a\nb\r\nc"), vec!["a", "b", "c"]);
    assert_eq!(text_lines("a\n\n"), vec!["a", ""]);
    assert!(text_lines("").is_empty());
    assert_eq!(split_text("a,,b", ','), vec!["a", "", "b"]);
    assert_eq!(trim(" \t\u{a0}x y\n"), "x y");
    assert_eq!(trim_end_of("a\r\n\n", '\n', '\r'), "a");
    assert!(text_contains("hello", "ell"));
    assert!(text_contains("hello", ""));
    assert!(!text_contains("hello", "elo"));
    assert!(text_starts_with("hello", "he"));
    assert!(!text_starts_with("he", "hello"));
    assert_eq!(replace_breaks("a\r\nb\rc\nd\te", ' ', '>'), "a b c d>e");
    assert_eq!(cut_to_bytes("añb", 2), ("a".to_string(), true));
    assert_eq!(cut_to_bytes("añb", 4), ("añb".to_string(), false));
}

#[test]
fn numbers_read_as_decimals() {
    assert_eq!(decimal(0), "0");
    assert_eq!(decimal(1_000_407), "1000407");
    assert_eq!(pad_left("42", 5), "   42");
    assert_eq!(pad_left("12345", 3), "12345");
}

#[test]
fn backspace_and_delete_undo_an_insertion() {
    for ch in ['x', 'é', '你', '\n'] {
        let mut edited = composer("añb");
        edited.move_left();
        edited.insert_char(ch);
        edited.backspace();
        assert_eq!(edited.as_str(), "añb");
        assert_eq!(edited.cursor(), "añ".len());

        edited.insert_char(ch);
        edited.move_left();
        edited.delete();
        assert_eq!(edited.as_str(), "añb");
        assert_eq!(edited.cursor(), "añ".len());
    }
}

#[test]
fn left_and_right_undo_each_other() {
    let mut moved = composer("a你b");
    moved.move_left();
    let before = moved.cursor();
    moved.move_left();
    moved.move_right();
    assert_eq!(moved.cursor(), before);

    let mut start = composer("a");
    start.move_left();
    start.move_left();
    assert_eq!(start.cursor(), 0);
    start.move_right();
    start.move_right();
    assert_eq!(start.cursor(), 1);
}

#[test]
fn rows_of_the_composer_cover_its_text() {
    let wrapped = composer("ab你cd\n\nef");
    let rows = wrapped.visual_rows(3);
    let texts: Vec<String> = rows.iter().map(|row| wrapped.row_text(row)).collect();
    assert_eq!(texts, vec!["ab", "你c", "d", "", "ef"]);
    let widths: Vec<usize> = rows.iter().map(|row| row.width).collect();
    assert_eq!(widths, vec![2, 3, 1, 0, 2]);
    assert_eq!(wrapped.cursor_visual_position(3), (4, 2));
    assert_eq!(wrapped.byte_offset_for_visual_position(1, 2, 3), "ab你".len());
}

#[test]
fn full_last_row_has_an_empty_row_for_the_cursor() {
    let full = composer("abcd");
    assert_eq!(full.visual_rows(4).len(), 2);
    assert_eq!(full.cursor_visual_position(4), (1, 0));
    assert_eq!(composer("").visual_rows(4).len(), 1);
    assert_eq!(composer("a\tb").display_width(0, 3), 6);
}

#[test]
fn vertical_moves_aim_at_one_column() {
    let mut moved = composer("abcdef\nx\nabcdef");
    moved.move_visual_up(20);
    assert_eq!(moved.cursor(), "abcdef\nx".len());
    moved.move_visual_up(20);
    assert_eq!(moved.cursor(), "abcdef".len());
    moved.move_visual_down(20);
    moved.move_visual_down(20);
    assert_eq!(moved.cursor(), "abcdef\nx\nabcdef".len());
    moved.move_line_start();
    assert_eq!(moved.cursor(), "abcdef\nx\n".len());
    moved.move_line_end();
    assert_eq!(moved.cursor(), "abcdef\nx\nabcdef".len());
}

#[test]
fn pasted_line_ends_become_line_feeds() {
    let mut pasted = composer("ab");
    pasted.move_left();
    pasted.insert_paste("1\r\n2\r3\n");
    assert_eq!(pasted.as_str(), "a1\n2\n3\nb");
    assert_eq!(pasted.take_text(), "a1\n2\n3\nb");
    assert!(pasted.is_empty());
    assert_eq!(pasted.cursor(), 0);
}

#[test]
fn rules_fill_the_width_that_they_cross() {
    let style = Style::new().fg(Color::DarkGray);
    assert_eq!(line_text(&separator_line(6, "", style)), "──────");
    assert_eq!(line_text(&separator_line(10, "Input", style)), "─ Input ──");
    assert_eq!(line_text(&separator_line(4, "Input", style)), "─ In");
    assert!(separator_line(0, "Input", style).spans.is_empty());
}

#[test]
fn rules_are_drawn_only_where_there_is_room() {
    let style = Style::new();
    let flat = Rect { x: 1, y: 2, width: 5, height: 0 };
    assert!(render_horizontal_separator(flat, "x", style).is_empty());
    assert!(render_vertical_separator(flat).is_empty());

    let tall = Rect { x: 1, y: 2, width: 1, height: 3 };
    let ops = render_vertical_separator(tall);
    assert_eq!(ops.len(), 1);
    match &ops[0] {
        DrawOp::Lines { area, lines } => {
            assert_eq!(*area, tall);
            assert_eq!(lines.len(), 3);
            assert!(lines.iter().all(|line| line_text(line) == "│"));
        }
        DrawOp::Cursor { .. } => panic!("expected lines"),
    }
}

#[test]
fn areas_are_divided_side_by_side_and_below_one_another() {
    let whole = Rect { x: 2, y: 3, width: 40, height: 20 };
    let parts = split_vertical(
        whole,
        &vec![Constraint::Length(1), Constraint::Min(1), Constraint::Length(1)],
    );
    assert_eq!(
        parts,
        vec![
            Rect { x: 2, y: 3, width: 40, height: 1 },
            Rect { x: 2, y: 4, width: 40, height: 18 },
            Rect { x: 2, y: 22, width: 40, height: 1 },
        ]
    );
    let panes = split_horizontal(
        whole,
        &vec![Constraint::Percentage(50), Constraint::Length(1), Constraint::Min(0)],
    );
    assert_eq!(panes.len(), 3);
    assert!(panes.iter().all(|pane| pane.y == 3 && pane.height == 20));
    assert_eq!(panes[1].width, 1);
}

#[test]
fn windows_show_the_rows_between_their_ends() {
    let rows: Vec<Line> = ["a", "b", "c", "d"].iter().map(|text| Line::raw(text)).collect();
    let shown = |start, end| -> String {
        window_lines(&rows, start, end).iter().map(line_text).collect()
    };
    assert_eq!(shown(1, 3), "bc");
    assert_eq!(shown(2, 9), "cd");
    assert_eq!(shown(4, 9), "");
    assert_eq!(shown(3, 1), "");

    let mut fed = Vec::new();
    for (row, text) in ["a", "b", "c", "d"].iter().enumerate() {
        append_visible_line(&mut fed, Line::raw(text), row, 1, 3);
    }
    let fed: String = fed.iter().map(line_text).collect();
    assert_eq!(fed, "bc");
}

#[test]
fn clipboard_payloads_are_encoded_and_framed() {
    assert_eq!(framed("abc"), "\u{1b}]52;c;abc\u{7}");
    assert_eq!(clipboard_sequence("hello"), "\u{1b}]52;c;aGVsbG8=\u{7}");
    assert_eq!(clipboard_sequence("é"), "\u{1b}]52;c;w6k=\u{7}");
}

#[test]
fn copies_say_when_they_were_cut() {
    assert_eq!(
        prepare_copy("Copied", "short".to_string()),
        ("short".to_string(), "Copied (5 bytes)".to_string())
    );
    let (payload, status) = prepare_copy("Copied", "a".repeat(100_001));
    assert_eq!(payload.len(), 100_000);
    assert_eq!(status, "Copied (100000 bytes, truncated)");
}

#[test]
fn chords_complete_within_their_window() {
    assert!(within_window(1_500, 1_000, 500));
    assert!(!within_window(1_501, 1_000, 500));
    assert!(chord_completes(Some(1_000), 1_200, 500));
    assert!(!chord_completes(None, 1_200, 500));
}

#[test]
fn errors_have_their_words() {
    let source = || "x".to_string();
    assert_eq!(TuiError::TtyRequired.message(), "cazean-tui requires a TTY");
    assert_eq!(TuiError::AppServer(source()).message(), "app-server error: x");
    assert_eq!(TuiError::JsonRpc(source()).message(), "app-server request failed: x");
    assert_eq!(
        TuiError::Decode(source()).message(),
        "failed to decode app-server response: x"
    );
    assert_eq!(TuiError::Terminal(source()).message(), "terminal I/O error: x");
    assert_eq!(TuiError::Telemetry(source()).message(), "telemetry error: x");
    assert_eq!(TuiError::Config(source()).message(), "invalid TUI config: x");
}

#[test]
fn configured_colours_are_converted() {
    assert_eq!(to_color(ColorSpec::Indexed(7)), Color::Indexed(7));
    assert_eq!(to_color(ColorSpec::Rgb { r: 1, g: 2, b: 3 }), Color::Rgb(1, 2, 3));
    assert_eq!(to_color(ColorSpec::Named(NamedColor::LightCyan)), Color::LightCyan);
}

#[test]
fn filed_values_are_found_until_they_are_taken_out() {
    let mut map = TextMap::new();
    map.insert("b".to_string(), 1);
    map.insert("a".to_string(), 2);
    map.insert("b".to_string(), 3);
    assert_eq!(map.len(), 2);
    assert_eq!(map.get("b"), Some(&3));
    assert_eq!(*map.value_at(0), 3);
    assert_eq!(map.remove("b"), Some(3));
    assert_eq!(map.remove("b"), None);
    assert!(!map.contains_key("b"));
    assert!(map.contains_key("a"));
    map.clear();
    assert!(map.is_empty());
}

#[test]
fn only_plain_and_shifted_keys_type_text() {
    assert!(KeyModifiers::none().types());
    assert!(KeyModifiers::shift().types());
    assert!(!KeyModifiers::control().types());
    assert!(KeyModifiers::none().is_empty());
    assert!(!KeyModifiers::shift().is_empty());
}

#[test]
fn rows_of_another_width_are_dropped() {
    let rows = |width: u16| {
        Some(CachedRenderedRows {
            version: 0,
            width,
            lines: vec![Line::raw("row")],
        })
    };
    let widths = |cache: &RenderedTranscriptCache| -> Vec<Option<u16>> {
        cache
            .slots
            .iter()
            .map(|slot| slot.as_ref().map(|rows| rows.width))
            .collect()
    };
    let mut cache = RenderedTranscriptCache::new();
    cache.slots = vec![rows(80), None, rows(40)];

    cache.evict_stale_widths(40);
    assert_eq!(cache.width, Some(40));
    assert_eq!(widths(&cache), vec![None, None, Some(40)]);

    // The width that is current already drops nothing.
    cache.slots[0] = rows(80);
    cache.evict_stale_widths(40);
    assert_eq!(widths(&cache), vec![Some(80), None, Some(40)]);
}

#[test]
fn lines_keep_their_endings() {
    assert_eq!(lines_with_endings("foo\nbar\r\n\nbaz"), vec!["foo\n", "bar\r\n", "\n", "baz"]);
    assert_eq!(lines_with_endings("a\n"), vec!["a\n"]);
    assert!(lines_with_endings("").is_empty());
}

#[test]
fn raw_lines_have_a_span_for_each_line_of_their_text() {
    let contents = |text: &str| -> Vec<String> {
        Line::raw(text)
            .spans
            .iter()
            .map(|span| span.content.clone())
            .collect()
    };
    assert!(contents("").is_empty());
    assert_eq!(contents("a b"), vec!["a b"]);
    assert_eq!(contents("a\r\nb\n"), vec!["a", "b"]);
    for text in ["", "a b", "a\r\nb\n", "\n"] {
        let outside: Vec<String> = ratatui::text::Line::raw(text)
            .spans
            .iter()
            .map(|span| span.content.to_string())
            .collect();
        assert_eq!(contents(text), outside);
    }
}
