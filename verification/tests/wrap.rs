use cazean_tui::style::{Color, Line, Span, Style};
use cazean_tui::wrap::{
    display_width, truncate_display, wrap_line, wrap_line_char, wrap_line_char_hanging,
    wrap_line_hanging, wrap_lines,
};

fn line_text(line: &Line) -> String {
    line.spans
        .iter()
        .map(|span| span.content.as_str())
        .collect()
}

fn lines_signature(lines: &[Line]) -> Vec<(Style, Vec<(String, Style)>)> {
    lines
        .iter()
        .map(|line| {
            (
                line.style,
                line.spans
                    .iter()
                    .map(|span| (span.content.to_string(), span.style))
                    .collect(),
            )
        })
        .collect()
}

#[test]
fn wrap_line_hanging_coalesces_adjacent_same_style_output_spans() {
    let green = Style::default().fg(Color::Green);
    let red = Style::default().fg(Color::Red);
    let line = Line::from_spans(vec![
        Span::styled("alpha", green),
        Span::styled(" ", green),
        Span::styled("beta", green),
        Span::styled("!", red),
    ]);

    let wrapped = wrap_line_hanging(&line, 20, 2);

    assert_eq!(wrapped.len(), 1);
    assert_eq!(line_text(&wrapped[0]), "alpha beta!");
    assert_eq!(wrapped[0].spans.len(), 2);
    assert_eq!(wrapped[0].spans[0].content.as_str(), "alpha beta");
    assert_eq!(wrapped[0].spans[0].style.fg, Some(Color::Green));
    assert_eq!(wrapped[0].spans[1].content.as_str(), "!");
    assert_eq!(wrapped[0].spans[1].style.fg, Some(Color::Red));
}

#[test]
fn cjk_width_is_counted_as_two_columns() {
    let wrapped = wrap_line_char(&Line::raw("你好ab"), 4);
    let texts: Vec<String> = wrapped.iter().map(line_text).collect();

    assert_eq!(texts, vec!["你好".to_string(), "ab".to_string()]);
    assert_eq!(display_width(&texts[0]), 4);
}

#[test]
fn combining_mark_stays_with_base_width() {
    let wrapped = wrap_line_char(&Line::raw("e\u{301}xy"), 2);
    let texts: Vec<String> = wrapped.iter().map(line_text).collect();

    assert_eq!(display_width(&texts[0]), 2);
    assert_eq!(texts[0], "e\u{301}x");
}

#[test]
fn wrap_line_preserves_span_styles() {
    let line = Line::from_spans(vec![
        Span::styled("你好", Style::default().fg(Color::Green)),
        Span::styled("ab", Style::default().fg(Color::Red)),
    ]);

    let wrapped = wrap_line(&line, 4);

    assert_eq!(wrapped.len(), 2);
    assert_eq!(line_text(&wrapped[0]), "你好");
    assert_eq!(line_text(&wrapped[1]), "ab");
    assert_eq!(wrapped[0].spans.len(), 1);
    assert_eq!(wrapped[1].spans.len(), 1);
    assert_eq!(wrapped[0].spans[0].style.fg, Some(Color::Green));
    assert_eq!(wrapped[1].spans[0].style.fg, Some(Color::Red));
}

#[test]
fn wrap_line_breaks_on_word_boundary_not_mid_word() {
    let wrapped = wrap_line(&Line::raw("I really like it"), 8);
    let texts: Vec<String> = wrapped.iter().map(line_text).collect();

    // "like" must stay intact rather than splitting into "lik" / "e".
    assert_eq!(texts, vec!["I really".to_string(), "like it".to_string()]);
    for line in &wrapped {
        assert!(display_width(&line_text(line)) <= 8);
    }
}

#[test]
fn wrap_line_hard_breaks_word_longer_than_width() {
    let wrapped = wrap_line(&Line::raw("supercalifragilistic"), 5);
    let texts: Vec<String> = wrapped.iter().map(line_text).collect();

    // A single word with no break opportunity is still split to fit.
    assert_eq!(
        texts,
        vec![
            "super".to_string(),
            "calif".to_string(),
            "ragil".to_string(),
            "istic".to_string(),
        ]
    );
}

#[test]
fn wrap_line_keeps_leading_indent_on_first_row_only() {
    let wrapped = wrap_line(&Line::raw("  hello world"), 9);
    let texts: Vec<String> = wrapped.iter().map(line_text).collect();

    // Leading indent stays on the first row; the wrapped row is flush-left.
    assert_eq!(texts[0], "  hello ");
    assert_eq!(texts[1], "world");
}

#[test]
fn wrap_line_char_breaks_at_column_not_word_boundary() {
    // Character wrapping is column-faithful: it splits within a token at the
    // exact width, unlike the word-aware wrapper which would break at spaces.
    let texts: Vec<String> = wrap_line_char(&Line::raw("ab cd ef"), 4)
        .iter()
        .map(line_text)
        .collect();
    assert_eq!(texts, vec!["ab c".to_string(), "d ef".to_string()]);

    let word: Vec<String> = wrap_line(&Line::raw("ab cd ef"), 4)
        .iter()
        .map(line_text)
        .collect();
    assert_ne!(texts, word);
}

#[test]
fn wrap_line_char_hanging_indents_continuation_rows() {
    let wrapped = wrap_line_char_hanging(&Line::raw("abcdefghij"), 5, 2);
    let texts: Vec<String> = wrapped.iter().map(line_text).collect();

    assert_eq!(
        texts,
        vec!["abcde".to_string(), "  fgh".to_string(), "  ij".to_string()]
    );
    for line in &wrapped {
        assert!(display_width(&line_text(line)) <= 5);
    }
}

#[test]
fn wrap_line_char_hanging_coalesces_adjacent_same_style_output_spans() {
    let green = Style::default().fg(Color::Green);
    let red = Style::default().fg(Color::Red);
    let line = Line::from_spans(vec![
        Span::styled("ab", green),
        Span::styled("cd", green),
        Span::styled("ef", red),
    ]);

    let wrapped = wrap_line_char_hanging(&line, 10, 2);

    assert_eq!(wrapped.len(), 1);
    assert_eq!(line_text(&wrapped[0]), "abcdef");
    assert_eq!(wrapped[0].spans.len(), 2);
    assert_eq!(wrapped[0].spans[0].content.as_str(), "abcd");
    assert_eq!(wrapped[0].spans[0].style.fg, Some(Color::Green));
    assert_eq!(wrapped[0].spans[1].content.as_str(), "ef");
    assert_eq!(wrapped[0].spans[1].style.fg, Some(Color::Red));
}

#[test]
fn wrap_line_char_hanging_preserves_styles_and_wide_chars() {
    let green = Style::default().fg(Color::Green);
    let red = Style::default().fg(Color::Red);
    let line = Line::from_spans(vec![Span::styled("你好", green), Span::styled("ab", red)]);

    let wrapped = wrap_line_char_hanging(&line, 5, 2);
    let texts: Vec<String> = wrapped.iter().map(line_text).collect();

    assert_eq!(texts, vec!["你好a".to_string(), "  b".to_string()]);
    for line in &wrapped {
        assert!(display_width(&line_text(line)) <= 5);
    }
    assert_eq!(wrapped[0].spans[0].style.fg, Some(Color::Green));
    assert_eq!(wrapped[0].spans[1].style.fg, Some(Color::Red));
    assert_eq!(wrapped[1].spans[1].style.fg, Some(Color::Red));
}

#[test]
fn wrap_line_char_matches_hanging_with_zero_indent() {
    let line = Line::from_spans(vec![
        Span::styled("ab", Style::default().fg(Color::Green)),
        Span::styled(" cd", Style::default().fg(Color::Red)),
        Span::styled("你好", Style::default().fg(Color::Blue)),
    ])
    .styled(Style::default().bg(Color::DarkGray));

    let direct = wrap_line_char(&line, 5);
    let hanging = wrap_line_char_hanging(&line, 5, 0);

    assert_eq!(lines_signature(&direct), lines_signature(&hanging));
}

#[test]
fn wrap_line_matches_hanging_with_zero_indent() {
    let line = Line::from_spans(vec![
        Span::raw("  alpha "),
        Span::styled("betagamma", Style::default().fg(Color::Green)),
        Span::styled(" delta", Style::default().fg(Color::Red)),
    ])
    .styled(Style::default().bg(Color::DarkGray));

    let direct = wrap_line(&line, 9);
    let hanging = wrap_line_hanging(&line, 9, 0);

    assert_eq!(lines_signature(&direct), lines_signature(&hanging));
}

#[test]
fn wrap_line_hanging_aligns_continuations_under_content() {
    // indent 2 mimics a "X " glyph prefix; continuations align under the text.
    let wrapped = wrap_line_hanging(&Line::raw("X aaa bbb ccc ddd"), 7, 2);
    let texts: Vec<String> = wrapped.iter().map(line_text).collect();

    assert!(texts.len() > 1);
    assert!(texts[0].starts_with("X "));
    for cont in &texts[1..] {
        assert!(
            cont.starts_with("  "),
            "continuation not indented: {cont:?}"
        );
    }
    for line in &wrapped {
        assert!(display_width(&line_text(line)) <= 7);
    }
}

#[test]
fn wrap_line_hanging_preserves_styles_and_wide_chars() {
    let line = Line::from_spans(vec![
        Span::styled("你好 ", Style::default().fg(Color::Green)),
        Span::styled("world", Style::default().fg(Color::Red)),
    ]);
    let wrapped = wrap_line_hanging(&line, 5, 2);

    for line in &wrapped {
        assert!(display_width(&line_text(line)) <= 5);
    }
    assert!(
        wrapped
            .iter()
            .any(|l| l.spans.iter().any(|s| s.style.fg == Some(Color::Red)))
    );
}

#[test]
fn wrap_line_hanging_with_zero_indent_is_flush_left() {
    let wrapped = wrap_line_hanging(&Line::raw("alpha beta gamma"), 6, 0);
    let texts: Vec<String> = wrapped.iter().map(line_text).collect();
    for cont in &texts[1..] {
        assert!(!cont.starts_with(' '), "unexpected indent: {cont:?}");
    }
}

#[test]
fn wrap_line_hanging_fills_first_row_before_breaking_long_token() {
    // A long unbreakable token after a prefix must start filling the first
    // row, not strand the prefix ("Thread ") alone with the value on row two.
    let wrapped = wrap_line_hanging(&Line::raw("Thread 01234567890123456789"), 20, 7);
    let texts: Vec<String> = wrapped.iter().map(line_text).collect();

    assert!(texts.len() > 1, "expected wrapping: {texts:?}");
    assert!(
        texts[0].contains('0'),
        "long token did not start on the first row: {texts:?}"
    );
    for line in &wrapped {
        assert!(display_width(&line_text(line)) <= 20);
    }
}

#[test]
fn wrap_line_hanging_keeps_styled_fragments_in_one_word() {
    let green = Style::default().fg(Color::Green);
    let red = Style::default().fg(Color::Red);
    let line = Line::from_spans(vec![
        Span::raw("X "),
        Span::styled("abc", green),
        Span::styled("def", red),
    ]);

    let wrapped = wrap_line_hanging(&line, 7, 2);
    let texts: Vec<String> = wrapped.iter().map(line_text).collect();

    // "abcdef" crosses a span/style boundary. It is still one logical word,
    // so it hard-breaks from the first row instead of moving "def" whole to
    // the continuation row.
    assert_eq!(texts, vec!["X abcde".to_string(), "  f".to_string()]);
    assert!(
        wrapped[0].spans.iter().any(|span| {
            span.content.as_str() == "abc" && span.style.fg == Some(Color::Green)
        })
    );
    assert!(wrapped.iter().any(|line| {
        line.spans.iter().any(|span| {
            span.content.as_str().contains('f') && span.style.fg == Some(Color::Red)
        })
    }));
}

#[test]
fn truncate_display_adds_ellipsis_and_respects_width() {
    assert_eq!(truncate_display("hello", 10), "hello");
    assert_eq!(truncate_display("hello world", 5), "hell…");
    assert_eq!(display_width(&truncate_display("hello world", 5)), 5);

    // Wide characters are not split across the boundary.
    let wide = truncate_display("你好世界", 5);
    assert!(display_width(&wide) <= 5);
    assert!(wide.ends_with('…'));

    assert_eq!(truncate_display("anything", 0), "");
}

#[test]
fn character_wrapping_loses_nothing() {
    let text = "ab cd  你好 efgh";
    for width in 2..20 {
        let joined: String = wrap_line_char(&Line::raw(text), width)
            .iter()
            .map(line_text)
            .collect();
        assert_eq!(joined, text);
    }
}

#[test]
fn word_wrapping_keeps_every_visible_character() {
    let text = "ab cd  你好 efghijklmnop";
    let visible = |text: &str| -> String { text.chars().filter(|ch| *ch != ' ').collect() };
    for width in 3..30 {
        let rows = wrap_line_hanging(&Line::raw(text), width, 1);
        let joined: String = rows.iter().map(line_text).collect();
        assert_eq!(visible(&joined), visible(text));
        assert!(rows.iter().all(|row| display_width(&line_text(row)) <= width));
    }
    let rows = wrap_lines(&vec![Line::raw("one two"), Line::raw("three")], 4);
    let texts: Vec<String> = rows.iter().map(line_text).collect();
    assert_eq!(texts, vec!["one ", "two", "thre", "e"]);
}

#[test]
fn words_that_fit_a_row_stay_whole() {
    let text = "the quick 你好 fox jumps over it";
    for indent in 0..3 {
        for width in (5 + indent)..30 {
            let rows: Vec<String> = wrap_line_hanging(&Line::raw(text), width, indent)
                .iter()
                .map(line_text)
                .collect();
            for word in text.split(' ') {
                assert!(rows.iter().any(|row| row.contains(word)), "{word}: {rows:?}");
            }
        }
    }
}
