use cazean_tui::config::{ColorSpec, TuiConfig};
use cazean_tui::highlight::{highlight_code_to_styled_spans, RenderContext, SyntaxLibrary};
use cazean_tui::style::{Line, Style};

fn context() -> RenderContext {
    RenderContext {
        config: TuiConfig {
            max_rendered_diff_lines: 1000,
            max_highlight_bytes: 512 * 1024,
            max_highlight_lines: 10_000,
            diff_add_bg: ColorSpec::Rgb { r: 33, g: 58, b: 43 },
            diff_delete_bg: ColorSpec::Rgb { r: 74, g: 34, b: 29 },
            highlight_theme: "OneHalfDark".to_string(),
        },
        library: SyntaxLibrary::load(),
    }
}

fn reconstructed(lines: &[Line]) -> String {
    lines
        .iter()
        .map(|line| {
            line.spans
                .iter()
                .map(|span| span.content.as_str())
                .collect::<String>()
        })
        .collect::<Vec<_>>()
        .join("\n")
}

#[test]
fn highlights_rust_keywords() {
    let ctx = context();
    let Some(lines) = highlight_code_to_styled_spans(&ctx.config, &ctx.library, "fn main() {}", "rust") else {
        panic!("expected Rust code to highlight");
    };
    let lines: Vec<Line> = lines.into_iter().map(Line::from_spans).collect();

    assert_eq!(reconstructed(&lines), "fn main() {}");
    let fn_span = lines[0]
        .spans
        .iter()
        .find(|span| span.content.as_str() == "fn");
    let Some(fn_span) = fn_span else {
        panic!("expected a span containing the fn keyword");
    };
    assert!(fn_span.style.fg.is_some() || fn_span.style.add_modifier != Style::new().add_modifier);
}

#[test]
fn unknown_language_returns_plain_fallback_lines() {
    let ctx = context();
    let lines = highlight_code_to_styled_spans(&ctx.config, &ctx.library, "plain text", "unknown-cazean-language");

    assert!(lines.is_none());
}

#[test]
fn what_a_line_leaves_open_reaches_into_the_next() {
    let ctx = context();
    let rows = highlight_code_to_styled_spans(
        &ctx.config,
        &ctx.library,
        "/* first\nsecond */\nlet x = 1;",
        "rust",
    )
    .expect("highlighted rows");
    assert_eq!(rows.len(), 3);
    let colour = |row: usize, text: &str| {
        rows[row]
            .iter()
            .find(|span| span.content.contains(text))
            .expect("a span")
            .style
            .fg
    };
    assert_eq!(colour(0, "first"), colour(1, "second"));
    assert_ne!(colour(1, "second"), colour(2, "let"));
}

#[test]
fn highlighted_rows_show_the_whole_code() {
    let ctx = context();
    for ending in ["\n", "\r\n"] {
        let lines = ["fn main() {", "", "    let s = \"a b\"; // note", "}"];
        let code = lines.join(ending);
        let rows = highlight_code_to_styled_spans(&ctx.config, &ctx.library, &code, "rust")
            .expect("highlighted rows");
        let shown: Vec<Line> = rows.into_iter().map(Line::from_spans).collect();
        assert_eq!(reconstructed(&shown), lines.join("\n"));
    }
}
