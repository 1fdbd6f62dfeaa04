//! Syntax highlighting with the syntaxes and themes that `two_face` embeds.
use syntect::easy::HighlightLines;
use syntect::highlighting::FontStyle;
use two_face::theme::EmbeddedLazyThemeSet;
use vstd::prelude::*;
use crate::config::{ConfigView, TuiConfig};
use crate::style::{
    plain, push_span, raw_of, span_of, span_views, spans_text, Color, Modifier, Span, SpanView, Style,
};
use crate::text::{
    byte_len, chars_of, ended_lines, lines_of, lines_with_endings, owned, same_text, str_len,
    text_lines, texts, trim_end_chars, trim_end_of,
};

verus! {

/// The embedded syntaxes, opaque.
#[verifier::external_type_specification]
#[verifier::external_body]
pub struct ExSyntaxSet(syntect::parsing::SyntaxSet);

/// The embedded themes, opaque.
#[verifier::external_type_specification]
#[verifier::external_body]
pub struct ExEmbeddedLazyThemeSet(two_face::theme::EmbeddedLazyThemeSet);

/// The embedded themes, in the order in which `two_face` lists them.
#[derive(Clone, Copy, Debug, PartialEq, Eq, Structural)]
pub enum ThemeName {
    Ansi,
    Base16,
    Base16EightiesDark,
    Base16MochaDark,
    Base16OceanDark,
    Base16OceanLight,
    Base16_256,
    CatppuccinFrappe,
    CatppuccinLatte,
    CatppuccinMacchiato,
    CatppuccinMocha,
    ColdarkCold,
    ColdarkDark,
    DarkNeon,
    Dracula,
    Github,
    GruvboxDark,
    GruvboxLight,
    InspiredGithub,
    Leet,
    MonokaiExtended,
    MonokaiExtendedBright,
    MonokaiExtendedLight,
    MonokaiExtendedOrigin,
    Nord,
    OneHalfDark,
    OneHalfLight,
    SolarizedDark,
    SolarizedLight,
    SublimeSnazzy,
    TwoDark,
    Zenburn,
}

/// A piece of a highlighted line: its colour, whether it is bold, its text.
#[derive(Debug)]
pub struct Piece {
    pub r: u8,
    pub g: u8,
    pub b: u8,
    pub a: u8,
    pub bold: bool,
    pub text: String,
}

#[verifier::ext_equal]
pub struct PieceView {
    pub r: u8,
    pub g: u8,
    pub b: u8,
    pub a: u8,
    pub bold: bool,
    pub text: Seq<char>,
}

impl View for Piece {
    type V = PieceView;

    open spec fn view(&self) -> PieceView {
        PieceView {
            r: self.r,
            g: self.g,
            b: self.b,
            a: self.a,
            bold: self.bold,
            text: self.text@,
        }
    }
}

pub open spec fn piece_views(pieces: Seq<Piece>) -> Seq<PieceView> {
    pieces.map_values(|p: Piece| p@)
}

pub open spec fn piece_rows(rows: Option<Vec<Vec<Piece>>>) -> Option<Seq<Seq<PieceView>>> {
    match rows {
        Some(rows) => Some(rows@.map_values(|r: Vec<Piece>| piece_views(r@))),
        None => None,
    }
}

/// The texts of the pieces, one after the other.
pub open spec fn pieces_text(pieces: Seq<PieceView>) -> Seq<char>
    decreases pieces.len(),
{
    if pieces.len() == 0 {
        Seq::empty()
    } else {
        pieces_text(pieces.drop_last()) + pieces.last().text
    }
}

/// The embedded syntax that a token names, by its index.
pub uninterp spec fn syntax_by_token(token: Seq<char>) -> Option<usize>;

/// The embedded syntax of a name, by its index.
pub uninterp spec fn syntax_by_name(name: Seq<char>) -> Option<usize>;

/// The embedded syntax of a file extension, by its index.
pub uninterp spec fn syntax_by_extension(extension: Seq<char>) -> Option<usize>;

/// The name of the embedded syntax at an index.
pub uninterp spec fn syntax_name_at(index: usize) -> Option<Seq<char>>;

/// The pieces of every one of the lines, in an embedded syntax and theme.
pub uninterp spec fn highlighted_pieces(
    lines: Seq<Seq<char>>,
    syntax: usize,
    theme: ThemeName,
) -> Option<Seq<Seq<PieceView>>>;

/// The embedded syntaxes and themes. Every value is made by `load`, so all of
/// them hold the same syntaxes and themes.
pub struct SyntaxLibrary {
    syntaxes: syntect::parsing::SyntaxSet,
    themes: two_face::theme::EmbeddedLazyThemeSet,
}

/// `two_face::syntax::extra_newlines` unpacks the embedded syntaxes. Nothing is
/// stated of the opaque result.
#[verifier::external_body]
fn embedded_syntaxes() -> syntect::parsing::SyntaxSet {
    two_face::syntax::extra_newlines()
}

/// `two_face::theme::extra` unpacks the embedded themes. Nothing is stated of
/// the opaque result.
#[verifier::external_body]
fn embedded_themes() -> two_face::theme::EmbeddedLazyThemeSet {
    two_face::theme::extra()
}

impl SyntaxLibrary {
    /// Unpacks the embedded syntaxes and themes.
    pub fn load() -> SyntaxLibrary {
        SyntaxLibrary { syntaxes: embedded_syntaxes(), themes: embedded_themes() }
    }

    /// `SyntaxSet::find_syntax_by_token` searches by extension and then by
    /// name; the result is given by its index in `SyntaxSet::syntaxes`.
    #[verifier::external_body]
    fn find_by_token(&self, token: &str) -> (r: Option<usize>)
        ensures
            r == syntax_by_token(token@),
    {
        let found = self.syntaxes.find_syntax_by_token(token)?;
        self.syntaxes.syntaxes().iter().position(|s| std::ptr::eq(s, found))
    }

    /// `SyntaxSet::find_syntax_by_name` searches by the exact name; the result
    /// is given by its index in `SyntaxSet::syntaxes`.
    #[verifier::external_body]
    fn find_by_name(&self, name: &str) -> (r: Option<usize>)
        ensures
            r == syntax_by_name(name@),
    {
        let found = self.syntaxes.find_syntax_by_name(name)?;
        self.syntaxes.syntaxes().iter().position(|s| std::ptr::eq(s, found))
    }

    /// `SyntaxSet::find_syntax_by_extension` searches by file extension; the
    /// result is given by its index in `SyntaxSet::syntaxes`.
    #[verifier::external_body]
    fn find_by_extension(&self, extension: &str) -> (r: Option<usize>)
        ensures
            r == syntax_by_extension(extension@),
    {
        let found = self.syntaxes.find_syntax_by_extension(extension)?;
        self.syntaxes.syntaxes().iter().position(|s| std::ptr::eq(s, found))
    }

    /// The name of an entry of `SyntaxSet::syntaxes`; none past the end.
    #[verifier::external_body]
    fn name_at(&self, index: usize) -> (r: Option<String>)
        ensures
            crate::protocol::opt_text(r) == syntax_name_at(index),
    {
        self.syntaxes.syntaxes().get(index).map(|s| s.name.clone())
    }

    /// `HighlightLines::highlight_line` on each of `lines` in turn, in the syntax
    /// at the index and an embedded theme. What a line leaves open reaches into
    /// the next one, so the pieces depend on all lines, the syntax and the theme.
    /// There are pieces for each line; as the crate documents it, their texts one
    /// after the other are that line. None are given where the index names no
    /// syntax or a line cannot be parsed.
    #[verifier::external_body]
    fn highlight(&self, lines: &Vec<String>, syntax: usize, theme: ThemeName) -> (r: Option<
        Vec<Vec<Piece>>,
    >)
        ensures
            piece_rows(r) == highlighted_pieces(texts(lines@), syntax, theme),
            r matches Some(rows) ==> rows@.len() == lines@.len() && forall|i: int|
                0 <= i < rows@.len() ==> pieces_text(piece_views((#[trigger] rows@[i])@))
                    == lines@[i]@,
    {
        let theme = self.themes.get(EmbeddedLazyThemeSet::theme_names()[theme as usize]);
        let mut state = HighlightLines::new(self.syntaxes.syntaxes().get(syntax)?, theme);
        let mut row = |line| {
            let ranges = state.highlight_line(line, &self.syntaxes).ok()?;
            Some(ranges.into_iter().map(|(s, text)| {
                let (c, bold) = (s.foreground, s.font_style.contains(FontStyle::BOLD));
                Piece { r: c.r, g: c.g, b: c.b, a: c.a, bold, text: text.to_string() }
            }).collect())
        };
        lines.iter().map(|line| row(line.as_str())).collect()
    }
}

// ---------------------------------------------------------------------------
// Themes and limits
// ---------------------------------------------------------------------------

/// The theme that a configured name stands for.
pub open spec fn theme_named(name: Seq<char>) -> Option<ThemeName> {
    if name == "Ansi"@ {
        Some(ThemeName::Ansi)
    } else if name == "Base16"@ {
        Some(ThemeName::Base16)
    } else if name == "Base16EightiesDark"@ {
        Some(ThemeName::Base16EightiesDark)
    } else if name == "Base16MochaDark"@ {
        Some(ThemeName::Base16MochaDark)
    } else if name == "Base16OceanDark"@ {
        Some(ThemeName::Base16OceanDark)
    } else if name == "Base16OceanLight"@ {
        Some(ThemeName::Base16OceanLight)
    } else if name == "Base16_256"@ {
        Some(ThemeName::Base16_256)
    } else if name == "CatppuccinFrappe"@ {
        Some(ThemeName::CatppuccinFrappe)
    } else if name == "CatppuccinLatte"@ {
        Some(ThemeName::CatppuccinLatte)
    } else if name == "CatppuccinMacchiato"@ {
        Some(ThemeName::CatppuccinMacchiato)
    } else if name == "CatppuccinMocha"@ {
        Some(ThemeName::CatppuccinMocha)
    } else if name == "ColdarkCold"@ {
        Some(ThemeName::ColdarkCold)
    } else if name == "ColdarkDark"@ {
        Some(ThemeName::ColdarkDark)
    } else if name == "DarkNeon"@ {
        Some(ThemeName::DarkNeon)
    } else if name == "Dracula"@ {
        Some(ThemeName::Dracula)
    } else if name == "Github"@ {
        Some(ThemeName::Github)
    } else if name == "GruvboxDark"@ {
        Some(ThemeName::GruvboxDark)
    } else if name == "GruvboxLight"@ {
        Some(ThemeName::GruvboxLight)
    } else if name == "InspiredGithub"@ {
        Some(ThemeName::InspiredGithub)
    } else if name == "Leet"@ {
        Some(ThemeName::Leet)
    } else if name == "MonokaiExtended"@ {
        Some(ThemeName::MonokaiExtended)
    } else if name == "MonokaiExtendedBright"@ {
        Some(ThemeName::MonokaiExtendedBright)
    } else if name == "MonokaiExtendedLight"@ {
        Some(ThemeName::MonokaiExtendedLight)
    } else if name == "MonokaiExtendedOrigin"@ {
        Some(ThemeName::MonokaiExtendedOrigin)
    } else if name == "Nord"@ {
        Some(ThemeName::Nord)
    } else if name == "OneHalfDark"@ {
        Some(ThemeName::OneHalfDark)
    } else if name == "OneHalfLight"@ {
        Some(ThemeName::OneHalfLight)
    } else if name == "SolarizedDark"@ {
        Some(ThemeName::SolarizedDark)
    } else if name == "SolarizedLight"@ {
        Some(ThemeName::SolarizedLight)
    } else if name == "SublimeSnazzy"@ {
        Some(ThemeName::SublimeSnazzy)
    } else if name == "TwoDark"@ {
        Some(ThemeName::TwoDark)
    } else if name == "Zenburn"@ {
        Some(ThemeName::Zenburn)
    } else {
        None
    }
}

/// Maps a configured theme name to the theme; `None` for an unknown name.
pub fn embedded_theme_name(name: &str) -> (r: Option<ThemeName>)
    ensures
        r == theme_named(name@),
{
    if same_text(name, "Ansi") {
        Some(ThemeName::Ansi)
    } else if same_text(name, "Base16") {
        Some(ThemeName::Base16)
    } else if same_text(name, "Base16EightiesDark") {
        Some(ThemeName::Base16EightiesDark)
    } else if same_text(name, "Base16MochaDark") {
        Some(ThemeName::Base16MochaDark)
    } else if same_text(name, "Base16OceanDark") {
        Some(ThemeName::Base16OceanDark)
    } else if same_text(name, "Base16OceanLight") {
        Some(ThemeName::Base16OceanLight)
    } else if same_text(name, "Base16_256") {
        Some(ThemeName::Base16_256)
    } else if same_text(name, "CatppuccinFrappe") {
        Some(ThemeName::CatppuccinFrappe)
    } else if same_text(name, "CatppuccinLatte") {
        Some(ThemeName::CatppuccinLatte)
    } else if same_text(name, "CatppuccinMacchiato") {
        Some(ThemeName::CatppuccinMacchiato)
    } else if same_text(name, "CatppuccinMocha") {
        Some(ThemeName::CatppuccinMocha)
    } else if same_text(name, "ColdarkCold") {
        Some(ThemeName::ColdarkCold)
    } else if same_text(name, "ColdarkDark") {
        Some(ThemeName::ColdarkDark)
    } else if same_text(name, "DarkNeon") {
        Some(ThemeName::DarkNeon)
    } else if same_text(name, "Dracula") {
        Some(ThemeName::Dracula)
    } else if same_text(name, "Github") {
        Some(ThemeName::Github)
    } else if same_text(name, "GruvboxDark") {
        Some(ThemeName::GruvboxDark)
    } else if same_text(name, "GruvboxLight") {
        Some(ThemeName::GruvboxLight)
    } else if same_text(name, "InspiredGithub") {
        Some(ThemeName::InspiredGithub)
    } else if same_text(name, "Leet") {
        Some(ThemeName::Leet)
    } else if same_text(name, "MonokaiExtended") {
        Some(ThemeName::MonokaiExtended)
    } else if same_text(name, "MonokaiExtendedBright") {
        Some(ThemeName::MonokaiExtendedBright)
    } else if same_text(name, "MonokaiExtendedLight") {
        Some(ThemeName::MonokaiExtendedLight)
    } else if same_text(name, "MonokaiExtendedOrigin") {
        Some(ThemeName::MonokaiExtendedOrigin)
    } else if same_text(name, "Nord") {
        Some(ThemeName::Nord)
    } else if same_text(name, "OneHalfDark") {
        Some(ThemeName::OneHalfDark)
    } else if same_text(name, "OneHalfLight") {
        Some(ThemeName::OneHalfLight)
    } else if same_text(name, "SolarizedDark") {
        Some(ThemeName::SolarizedDark)
    } else if same_text(name, "SolarizedLight") {
        Some(ThemeName::SolarizedLight)
    } else if same_text(name, "SublimeSnazzy") {
        Some(ThemeName::SublimeSnazzy)
    } else if same_text(name, "TwoDark") {
        Some(ThemeName::TwoDark)
    } else if same_text(name, "Zenburn") {
        Some(ThemeName::Zenburn)
    } else {
        None
    }
}

/// The configured theme, or the built-in one where the name is unknown.
pub open spec fn theme_of(config: ConfigView) -> ThemeName {
    match theme_named(config.theme) {
        Some(theme) => theme,
        None => ThemeName::CatppuccinMocha,
    }
}

fn theme(config: &TuiConfig) -> (r: ThemeName)
    ensures
        r == theme_of(config@),
{
    match embedded_theme_name(config.highlight_theme.as_str()) {
        Some(theme) => theme,
        None => ThemeName::CatppuccinMocha,
    }
}

/// Whether a text is too large to be highlighted.
pub open spec fn exceeds_limits(config: ConfigView, total_bytes: nat, total_lines: nat) -> bool {
    total_bytes > config.max_bytes || total_lines > config.max_lines
}

/// Whether a text of that size is too large to be highlighted.
pub fn exceeds_highlight_limits(config: &TuiConfig, total_bytes: usize, total_lines: usize) -> (r:
    bool)
    ensures
        r == exceeds_limits(config@, total_bytes as nat, total_lines as nat),
{
    total_bytes > config.max_highlight_bytes || total_lines > config.max_highlight_lines
}

// ---------------------------------------------------------------------------
// Styles
// ---------------------------------------------------------------------------

pub open spec fn palette_color(index: u8) -> Color {
    match index {
        0x00 => Color::Black,
        0x01 => Color::Red,
        0x02 => Color::Green,
        0x03 => Color::Yellow,
        0x04 => Color::Blue,
        0x05 => Color::Magenta,
        0x06 => Color::Cyan,
        0x07 => Color::Gray,
        n => Color::Indexed(n),
    }
}

fn ansi_palette_color(index: u8) -> (r: Color)
    ensures
        r == palette_color(index),
{
    match index {
        0x00 => Color::Black,
        0x01 => Color::Red,
        0x02 => Color::Green,
        0x03 => Color::Yellow,
        0x04 => Color::Blue,
        0x05 => Color::Magenta,
        0x06 => Color::Cyan,
        0x07 => Color::Gray,
        n => Color::Indexed(n),
    }
}

/// The colour of a theme. Themes for terminals use the alpha channel as a
/// mark: zero for an index into the palette, one for the terminal's default.
pub open spec fn theme_color(r: u8, g: u8, b: u8, a: u8) -> Option<Color> {
    if a == 0 {
        Some(palette_color(r))
    } else if a == 1 {
        None
    } else {
        Some(Color::Rgb(r, g, b))
    }
}

fn convert_syntect_color(r: u8, g: u8, b: u8, a: u8) -> (c: Option<Color>)
    ensures
        c == theme_color(r, g, b, a),
{
    match a {
        0x00 => Some(ansi_palette_color(r)),
        0x01 => None,
        _ => Some(Color::Rgb(r, g, b)),
    }
}

pub open spec fn piece_style(piece: PieceView) -> Style {
    let color = theme_color(piece.r, piece.g, piece.b, piece.a);
    let base = Style { fg: color, ..plain() };
    if piece.bold {
        base.with_bold()
    } else {
        base
    }
}

fn convert_style(piece: &Piece) -> (s: Style)
    ensures
        s == piece_style(piece@),
{
    let mut style: Style = Style::new();
    if let Some(fg) = convert_syntect_color(piece.r, piece.g, piece.b, piece.a) {
        style = style.fg(fg);
    }
    if piece.bold {
        style = style.bold();
    }
    style
}

// ---------------------------------------------------------------------------
// Syntaxes
// ---------------------------------------------------------------------------

/// The token under which a language is looked up.
pub open spec fn language_token(lang: Seq<char>) -> Seq<char> {
    if lang == "csharp"@ || lang == "c-sharp"@ {
        "c#"@
    } else if lang == "golang"@ {
        "go"@
    } else if lang == "python3"@ {
        "python"@
    } else if lang == "shell"@ {
        "bash"@
    } else {
        lang
    }
}

fn patched_language(lang: &str) -> (r: String)
    ensures
        r@ == language_token(lang@),
{
    if same_text(lang, "csharp") || same_text(lang, "c-sharp") {
        owned("c#")
    } else if same_text(lang, "golang") {
        owned("go")
    } else if same_text(lang, "python3") {
        owned("python")
    } else if same_text(lang, "shell") {
        owned("bash")
    } else {
        owned(lang)
    }
}

pub open spec fn ascii_lower(ch: char) -> char {
    if 'A' <= ch <= 'Z' {
        (ch as u32 + 32) as char
    } else {
        ch
    }
}

/// `text` with the ASCII capitals turned into small letters.
pub open spec fn ascii_lowercase(text: Seq<char>) -> Seq<char> {
    text.map_values(|ch: char| ascii_lower(ch))
}

fn lower_char(ch: char) -> (r: char)
    ensures
        r == ascii_lower(ch),
{
    match ch {
        'A' => 'a',
        'B' => 'b',
        'C' => 'c',
        'D' => 'd',
        'E' => 'e',
        'F' => 'f',
        'G' => 'g',
        'H' => 'h',
        'I' => 'i',
        'J' => 'j',
        'K' => 'k',
        'L' => 'l',
        'M' => 'm',
        'N' => 'n',
        'O' => 'o',
        'P' => 'p',
        'Q' => 'q',
        'R' => 'r',
        'S' => 's',
        'T' => 't',
        'U' => 'u',
        'V' => 'v',
        'W' => 'w',
        'X' => 'x',
        'Y' => 'y',
        'Z' => 'z',
        _ => ch,
    }
}

fn to_ascii_lowercase(text: &str) -> (r: String)
    ensures
        r@ == ascii_lowercase(text@),
{
    let chars: Vec<char> = chars_of(text);
    let mut out: String = String::new();
    let mut i: usize = 0;
    assert(ascii_lowercase(text@.take(0)) =~= Seq::<char>::empty());
    while i < chars.len()
        invariant
            chars@ == text@,
            i <= chars@.len(),
            out@ == ascii_lowercase(text@.take(i as int)),
        decreases chars@.len() - i,
    {
        out.push(lower_char(chars[i]));
        assert(out@ =~= ascii_lowercase(text@.take(i + 1)));
        i += 1;
    }
    assert(text@.take(i as int) =~= text@);
    out
}

/// The first embedded syntax from index `i` on whose name is `lower` when
/// capitals do not count.
pub open spec fn syntax_folded_from(lower: Seq<char>, i: usize) -> Option<usize>
    decreases usize::MAX - i,
{
    match syntax_name_at(i) {
        None => None,
        Some(name) => if ascii_lowercase(name) == lower {
            Some(i)
        } else if i < usize::MAX {
            syntax_folded_from(lower, (i + 1) as usize)
        } else {
            None
        },
    }
}

/// The syntax of a language: by token, by name, by name without regard to
/// capitals, and last by file extension.
pub open spec fn syntax_of(lang: Seq<char>) -> Option<usize> {
    let token = language_token(lang);
    if syntax_by_token(token) is Some {
        syntax_by_token(token)
    } else if syntax_by_name(token) is Some {
        syntax_by_name(token)
    } else if syntax_folded_from(ascii_lowercase(token), 0) is Some {
        syntax_folded_from(ascii_lowercase(token), 0)
    } else {
        syntax_by_extension(lang)
    }
}

impl SyntaxLibrary {
    fn find_folded(&self, lower: &str) -> (r: Option<usize>)
        ensures
            r == syntax_folded_from(lower@, 0),
    {
        let mut i: usize = 0;
        loop
            invariant
                syntax_folded_from(lower@, 0) == syntax_folded_from(lower@, i),
            decreases usize::MAX - i,
        {
            match self.name_at(i) {
                None => {
                    return None;
                },
                Some(name) => {
                    let folded: String = to_ascii_lowercase(name.as_str());
                    if same_text(folded.as_str(), lower) {
                        return Some(i);
                    }
                },
            }
            if i == usize::MAX {
                return None;
            }
            i += 1;
        }
    }

    fn find_syntax(&self, lang: &str) -> (r: Option<usize>)
        ensures
            r == syntax_of(lang@),
    {
        let patched: String = patched_language(lang);
        if let Some(i) = self.find_by_token(patched.as_str()) {
            return Some(i);
        }
        if let Some(i) = self.find_by_name(patched.as_str()) {
            return Some(i);
        }
        let lower: String = to_ascii_lowercase(patched.as_str());
        if let Some(i) = self.find_folded(lower.as_str()) {
            return Some(i);
        }
        self.find_by_extension(lang)
    }
}

// ---------------------------------------------------------------------------
// Highlighted lines
// ---------------------------------------------------------------------------

/// The spans of a line's pieces, line terminators and empty pieces left out.
pub open spec fn spans_of_pieces(pieces: Seq<PieceView>) -> Seq<SpanView>
    decreases pieces.len(),
{
    if pieces.len() == 0 {
        Seq::empty()
    } else {
        let before = spans_of_pieces(pieces.drop_last());
        let text = trim_end_chars(pieces.last().text, '\n', '\r');
        if text.len() > 0 {
            before.push(span_of(text, piece_style(pieces.last())))
        } else {
            before
        }
    }
}

/// A highlighted line; one without text has an empty span.
pub open spec fn highlighted_line(pieces: Seq<PieceView>) -> Seq<SpanView> {
    let spans = spans_of_pieces(pieces);
    if spans.len() == 0 {
        seq![raw_of(Seq::empty())]
    } else {
        spans
    }
}

/// The spans of every line, from the pieces of every line.
pub open spec fn highlighted_lines(rows: Seq<Seq<PieceView>>) -> Seq<Seq<SpanView>> {
    rows.map_values(|r: Seq<PieceView>| highlighted_line(r))
}

/// The spans of every line of `code`; none where it is empty, too large, or in
/// a language that is not known.
pub open spec fn highlighted(config: ConfigView, code: Seq<char>, lang: Seq<char>) -> Option<
    Seq<Seq<SpanView>>,
> {
    if code.len() == 0 || exceeds_limits(config, byte_len(code), lines_of(code).len()) {
        None
    } else {
        match syntax_of(lang) {
            None => None,
            Some(syntax) => match highlighted_pieces(
                ended_lines(code),
                syntax,
                theme_of(config),
            ) {
                None => None,
                Some(rows) => Some(highlighted_lines(rows)),
            },
        }
    }
}

pub open spec fn span_rows(rows: Seq<Vec<Span>>) -> Seq<Seq<SpanView>> {
    rows.map_values(|r: Vec<Span>| span_views(r@))
}

pub open spec fn opt_span_rows(rows: Option<Vec<Vec<Span>>>) -> Option<Seq<Seq<SpanView>>> {
    match rows {
        Some(rows) => Some(span_rows(rows@)),
        None => None,
    }
}

fn line_spans(pieces: &Vec<Piece>) -> (r: Vec<Span>)
    ensures
        span_views(r@) == highlighted_line(piece_views(pieces@)),
{
    let mut spans: Vec<Span> = Vec::new();
    let ghost views = piece_views(pieces@);
    let mut i: usize = 0;
    assert(span_views(spans@) =~= spans_of_pieces(views.take(0)));
    while i < pieces.len()
        invariant
            views == piece_views(pieces@),
            i <= pieces@.len(),
            span_views(spans@) == spans_of_pieces(views.take(i as int)),
        decreases pieces@.len() - i,
    {
        let text: String = trim_end_of(pieces[i].text.as_str(), '\n', '\r');
        proof {
            assert(views.take(i + 1).drop_last() =~= views.take(i as int));
            assert(views.take(i + 1).last() == pieces@[i as int]@);
        }
        if !text.as_str().is_empty() {
            push_span(&mut spans, Span::styled(text.as_str(), convert_style(&pieces[i])));
        }
        i += 1;
    }
    assert(views.take(i as int) =~= views);
    if spans.len() == 0 {
        push_span(&mut spans, Span::raw(""));
        proof {
            reveal_strlit("");
            assert(""@ =~= Seq::<char>::empty());
            assert(span_views(spans@) =~= seq![raw_of(Seq::empty())]);
        }
    }
    spans
}

/// Turns the pieces of every line into spans.
pub fn pieces_to_line_spans(rows: &Vec<Vec<Piece>>) -> (r: Vec<Vec<Span>>)
    ensures
        span_rows(r@) == highlighted_lines(
            rows@.map_values(|r: Vec<Piece>| piece_views(r@)),
        ),
{
    let mut out: Vec<Vec<Span>> = Vec::new();
    let ghost views = rows@.map_values(|r: Vec<Piece>| piece_views(r@));
    let mut i: usize = 0;
    while i < rows.len()
        invariant
            views == rows@.map_values(|r: Vec<Piece>| piece_views(r@)),
            i <= rows@.len(),
            span_rows(out@) =~= highlighted_lines(views).take(i as int),
        decreases rows@.len() - i,
    {
        let ghost before = span_rows(out@);
        let spans: Vec<Span> = line_spans(&rows[i]);
        out.push(spans);
        assert(span_rows(out@) =~= before.push(span_views(spans@)));
        i += 1;
    }
    assert(highlighted_lines(views).take(i as int) =~= highlighted_lines(views));
    out
}

/// Whether a character belongs to a line ending.
pub open spec fn is_break(ch: char) -> bool {
    ch == '\n' || ch == '\r'
}

/// `text` without the characters of line endings.
pub open spec fn unbroken(text: Seq<char>) -> Seq<char>
    decreases text.len(),
{
    if text.len() == 0 {
        Seq::empty()
    } else if is_break(text.last()) {
        unbroken(text.drop_last())
    } else {
        unbroken(text.drop_last()).push(text.last())
    }
}

/// Whether the characters of line endings in `text` all stand at its end.
pub open spec fn breaks_at_end(text: Seq<char>) -> bool {
    forall|i: int, j: int|
        0 <= i <= j < text.len() && is_break(#[trigger] text[i]) ==> is_break(#[trigger] text[j])
}

/// Whether each row shows the text of its line: all of it but characters of
/// line endings, and none of these where they end the line.
pub open spec fn rows_show(rows: Seq<Seq<SpanView>>, lines: Seq<Seq<char>>) -> bool {
    &&& rows.len() == lines.len()
    &&& forall|i: int|
        0 <= i < rows.len() ==> unbroken(spans_text(#[trigger] rows[i])) == unbroken(lines[i]) && (
        breaks_at_end(lines[i]) ==> spans_text(rows[i]) == unbroken(lines[i]))
}

proof fn lemma_unbroken_concat(a: Seq<char>, b: Seq<char>)
    ensures
        unbroken(a + b) == unbroken(a) + unbroken(b),
    decreases b.len(),
{
    if b.len() == 0 {
        assert(a + b =~= a);
        assert(unbroken(a) + unbroken(b) =~= unbroken(a));
    } else {
        assert((a + b).drop_last() =~= a + b.drop_last());
        lemma_unbroken_concat(a, b.drop_last());
        assert(unbroken(a + b) =~= unbroken(a) + unbroken(b));
    }
}

proof fn lemma_trimmed_unbroken(text: Seq<char>)
    ensures
        unbroken(trim_end_chars(text, '\n', '\r')) == unbroken(text),
        breaks_at_end(text) ==> trim_end_chars(text, '\n', '\r') == unbroken(text),
    decreases text.len(),
{
    if text.len() > 0 {
        let init = text.drop_last();
        if is_break(text.last()) {
            lemma_trimmed_unbroken(init);
            if breaks_at_end(text) {
                assert forall|i: int, j: int|
                    0 <= i <= j < init.len() && is_break(#[trigger] init[i]) implies is_break(
                    #[trigger] init[j],
                ) by {
                    assert(is_break(text[i]));
                    assert(text[j] == init[j]);
                }
            }
        } else if breaks_at_end(text) {
            assert forall|i: int| 0 <= i < text.len() implies !is_break(#[trigger] text[i]) by {
                if is_break(text[i]) {
                    assert(is_break(text[text.len() - 1]));
                }
            }
            lemma_unbroken_whole(text);
        }
    }
}

proof fn lemma_unbroken_whole(text: Seq<char>)
    requires
        forall|i: int| 0 <= i < text.len() ==> !is_break(#[trigger] text[i]),
    ensures
        unbroken(text) == text,
    decreases text.len(),
{
    if text.len() > 0 {
        let init = text.drop_last();
        assert forall|i: int| 0 <= i < init.len() implies !is_break(#[trigger] init[i]) by {
            assert(init[i] == text[i]);
        }
        lemma_unbroken_whole(init);
        assert(!is_break(text[text.len() - 1]));
        assert(init.push(text.last()) =~= text);
    } else {
        assert(text =~= Seq::<char>::empty());
    }
}

proof fn lemma_spans_show_pieces(pieces: Seq<PieceView>)
    ensures
        unbroken(spans_text(spans_of_pieces(pieces))) == unbroken(pieces_text(pieces)),
        breaks_at_end(pieces_text(pieces)) ==> spans_text(spans_of_pieces(pieces)) == unbroken(
            pieces_text(pieces),
        ),
    decreases pieces.len(),
{
    if pieces.len() > 0 {
        let init = pieces.drop_last();
        let before = pieces_text(init);
        let last = pieces.last().text;
        let kept = trim_end_chars(last, '\n', '\r');
        let spans = spans_of_pieces(init);
        lemma_spans_show_pieces(init);
        lemma_trimmed_unbroken(last);
        lemma_unbroken_concat(before, last);
        lemma_unbroken_concat(spans_text(spans), kept);
        if kept.len() > 0 {
            assert(spans_of_pieces(pieces).drop_last() =~= spans);
        } else {
            assert(spans_text(spans) + kept =~= spans_text(spans));
        }
        assert(spans_text(spans_of_pieces(pieces)) == spans_text(spans) + kept);
        let line = pieces_text(pieces);
        if breaks_at_end(line) {
            assert forall|i: int, j: int|
                0 <= i <= j < before.len() && is_break(#[trigger] before[i]) implies is_break(
                #[trigger] before[j],
            ) by {
                assert(line[i] == before[i] && line[j] == before[j]);
            }
            assert forall|i: int, j: int|
                0 <= i <= j < last.len() && is_break(#[trigger] last[i]) implies is_break(
                #[trigger] last[j],
            ) by {
                assert(line[before.len() + i] == last[i] && line[before.len() + j] == last[j]);
            }
        }
    }
}

/// Highlighting shows the text of a line, whatever its pieces: all of it but
/// characters of line endings, and none of these where they end the line.
pub proof fn highlighting_keeps_the_text(pieces: Seq<PieceView>)
    ensures
        unbroken(spans_text(highlighted_line(pieces))) == unbroken(pieces_text(pieces)),
        breaks_at_end(pieces_text(pieces)) ==> spans_text(highlighted_line(pieces)) == unbroken(
            pieces_text(pieces),
        ),
{
    lemma_spans_show_pieces(pieces);
    let spans = spans_of_pieces(pieces);
    if spans.len() == 0 {
        let empty = seq![raw_of(Seq::empty())];
        assert(spans_text(spans) =~= Seq::<char>::empty());
        assert(spans_text(empty.drop_last()) =~= Seq::<char>::empty());
        assert(spans_text(empty) =~= Seq::<char>::empty());
    }
}

/// Highlights `code`, line by line.
pub fn highlight_code_to_styled_spans(
    config: &TuiConfig,
    library: &SyntaxLibrary,
    code: &str,
    lang: &str,
) -> (r: Option<Vec<Vec<Span>>>)
    ensures
        opt_span_rows(r) == highlighted(config@, code@, lang@),
        r matches Some(rows) ==> rows_show(span_rows(rows@), ended_lines(code@)),
{
    if code.is_empty() {
        return None;
    }
    let lines: Vec<String> = text_lines(code);
    assert(texts(lines@).len() == lines@.len());
    if exceeds_highlight_limits(config, str_len(code), lines.len()) {
        return None;
    }
    let syntax: usize = match library.find_syntax(lang) {
        Some(syntax) => syntax,
        None => return None,
    };
    let ended: Vec<String> = lines_with_endings(code);
    match library.highlight(&ended, syntax, theme(config)) {
        Some(rows) => {
            let spans: Vec<Vec<Span>> = pieces_to_line_spans(&rows);
            proof {
                let shown = span_rows(spans@);
                let pieces = rows@.map_values(|r: Vec<Piece>| piece_views(r@));
                assert(texts(ended@).len() == ended@.len());
                assert(shown.len() == pieces.len());
                assert forall|i: int| 0 <= i < shown.len() implies unbroken(
                    spans_text(#[trigger] shown[i]),
                ) == unbroken(ended_lines(code@)[i]) && (breaks_at_end(ended_lines(code@)[i])
                    ==> spans_text(shown[i]) == unbroken(ended_lines(code@)[i])) by {
                    assert(texts(ended@)[i] == ended@[i]@);
                    assert(pieces[i] == piece_views(rows@[i]@));
                    assert(shown[i] == highlighted_line(pieces[i]));
                    highlighting_keeps_the_text(pieces[i]);
                }
            }
            Some(spans)
        },
        None => None,
    }
}

/// What drawing code and diffs takes: the settings, and the syntaxes.
pub struct RenderContext {
    pub config: TuiConfig,
    pub library: SyntaxLibrary,
}

/// A theme is used only under its own name.
pub proof fn themes_go_by_their_name(name: Seq<char>)
    ensures
        theme_named(name) == Some(ThemeName::Ansi) ==> name == "Ansi"@,
        theme_named(name) == Some(ThemeName::Base16) ==> name == "Base16"@,
        theme_named(name) == Some(ThemeName::Base16EightiesDark) ==> name == "Base16EightiesDark"@,
        theme_named(name) == Some(ThemeName::Base16MochaDark) ==> name == "Base16MochaDark"@,
        theme_named(name) == Some(ThemeName::Base16OceanDark) ==> name == "Base16OceanDark"@,
        theme_named(name) == Some(ThemeName::Base16OceanLight) ==> name == "Base16OceanLight"@,
        theme_named(name) == Some(ThemeName::Base16_256) ==> name == "Base16_256"@,
        theme_named(name) == Some(ThemeName::CatppuccinFrappe) ==> name == "CatppuccinFrappe"@,
        theme_named(name) == Some(ThemeName::CatppuccinLatte) ==> name == "CatppuccinLatte"@,
        theme_named(name) == Some(ThemeName::CatppuccinMacchiato) ==> name == "CatppuccinMacchiato"@,
        theme_named(name) == Some(ThemeName::CatppuccinMocha) ==> name == "CatppuccinMocha"@,
        theme_named(name) == Some(ThemeName::ColdarkCold) ==> name == "ColdarkCold"@,
        theme_named(name) == Some(ThemeName::ColdarkDark) ==> name == "ColdarkDark"@,
        theme_named(name) == Some(ThemeName::DarkNeon) ==> name == "DarkNeon"@,
        theme_named(name) == Some(ThemeName::Dracula) ==> name == "Dracula"@,
        theme_named(name) == Some(ThemeName::Github) ==> name == "Github"@,
        theme_named(name) == Some(ThemeName::GruvboxDark) ==> name == "GruvboxDark"@,
        theme_named(name) == Some(ThemeName::GruvboxLight) ==> name == "GruvboxLight"@,
        theme_named(name) == Some(ThemeName::InspiredGithub) ==> name == "InspiredGithub"@,
        theme_named(name) == Some(ThemeName::Leet) ==> name == "Leet"@,
        theme_named(name) == Some(ThemeName::MonokaiExtended) ==> name == "MonokaiExtended"@,
        theme_named(name) == Some(ThemeName::MonokaiExtendedBright) ==> name == "MonokaiExtendedBright"@,
        theme_named(name) == Some(ThemeName::MonokaiExtendedLight) ==> name == "MonokaiExtendedLight"@,
        theme_named(name) == Some(ThemeName::MonokaiExtendedOrigin) ==> name == "MonokaiExtendedOrigin"@,
        theme_named(name) == Some(ThemeName::Nord) ==> name == "Nord"@,
        theme_named(name) == Some(ThemeName::OneHalfDark) ==> name == "OneHalfDark"@,
        theme_named(name) == Some(ThemeName::OneHalfLight) ==> name == "OneHalfLight"@,
        theme_named(name) == Some(ThemeName::SolarizedDark) ==> name == "SolarizedDark"@,
        theme_named(name) == Some(ThemeName::SolarizedLight) ==> name == "SolarizedLight"@,
        theme_named(name) == Some(ThemeName::SublimeSnazzy) ==> name == "SublimeSnazzy"@,
        theme_named(name) == Some(ThemeName::TwoDark) ==> name == "TwoDark"@,
        theme_named(name) == Some(ThemeName::Zenburn) ==> name == "Zenburn"@,
{
}

/// Every theme can be asked for: no name of a theme is refused, and a name that
/// is none falls back to one theme.
pub proof fn every_theme_is_known(config: ConfigView)
    ensures
        theme_named("Ansi"@) is Some,
        theme_named("Base16"@) is Some,
        theme_named("Base16EightiesDark"@) is Some,
        theme_named("Base16MochaDark"@) is Some,
        theme_named("Base16OceanDark"@) is Some,
        theme_named("Base16OceanLight"@) is Some,
        theme_named("Base16_256"@) is Some,
        theme_named("CatppuccinFrappe"@) is Some,
        theme_named("CatppuccinLatte"@) is Some,
        theme_named("CatppuccinMacchiato"@) is Some,
        theme_named("CatppuccinMocha"@) is Some,
        theme_named("ColdarkCold"@) is Some,
        theme_named("ColdarkDark"@) is Some,
        theme_named("DarkNeon"@) is Some,
        theme_named("Dracula"@) is Some,
        theme_named("Github"@) is Some,
        theme_named("GruvboxDark"@) is Some,
        theme_named("GruvboxLight"@) is Some,
        theme_named("InspiredGithub"@) is Some,
        theme_named("Leet"@) is Some,
        theme_named("MonokaiExtended"@) is Some,
        theme_named("MonokaiExtendedBright"@) is Some,
        theme_named("MonokaiExtendedLight"@) is Some,
        theme_named("MonokaiExtendedOrigin"@) is Some,
        theme_named("Nord"@) is Some,
        theme_named("OneHalfDark"@) is Some,
        theme_named("OneHalfLight"@) is Some,
        theme_named("SolarizedDark"@) is Some,
        theme_named("SolarizedLight"@) is Some,
        theme_named("SublimeSnazzy"@) is Some,
        theme_named("TwoDark"@) is Some,
        theme_named("Zenburn"@) is Some,
        theme_named(config.theme) is None ==> theme_of(config) == ThemeName::CatppuccinMocha,
        theme_named(config.theme) is Some ==> theme_named(config.theme) == Some(theme_of(config)),
{
}

/// Colours of a theme: full ones by their parts, the ones of the terminal by
/// their place in its palette, and the default one not at all.
pub proof fn theme_colors_are_told_apart(r: u8, g: u8, b: u8, a: u8)
    ensures
        a > 1 ==> theme_color(r, g, b, a) == Some(Color::Rgb(r, g, b)),
        a == 1 ==> theme_color(r, g, b, a) is None,
        a == 0 && r == 0 ==> theme_color(r, g, b, a) == Some(Color::Black),
        a == 0 && r == 1 ==> theme_color(r, g, b, a) == Some(Color::Red),
        a == 0 && r == 2 ==> theme_color(r, g, b, a) == Some(Color::Green),
        a == 0 && r == 3 ==> theme_color(r, g, b, a) == Some(Color::Yellow),
        a == 0 && r == 4 ==> theme_color(r, g, b, a) == Some(Color::Blue),
        a == 0 && r == 5 ==> theme_color(r, g, b, a) == Some(Color::Magenta),
        a == 0 && r == 6 ==> theme_color(r, g, b, a) == Some(Color::Cyan),
        a == 0 && r == 7 ==> theme_color(r, g, b, a) == Some(Color::Gray),
        a == 0 && r > 7 ==> theme_color(r, g, b, a) == Some(Color::Indexed(r)),
{
}

/// A piece is drawn in its colour, bold where it is bold, and otherwise plain.
pub proof fn pieces_keep_their_look(piece: PieceView)
    ensures
        piece_style(piece).fg == theme_color(piece.r, piece.g, piece.b, piece.a),
        piece_style(piece).bg is None,
        piece_style(piece).add_modifier == (Modifier {
            bold: piece.bold,
            ..plain().add_modifier
        }),
{
}

/// Other names of a language stand for it; any other name stands for itself.
pub proof fn language_names_are_folded(lang: Seq<char>)
    ensures
        lang == "csharp"@ || lang == "c-sharp"@ ==> language_token(lang) == "c#"@,
        lang == "golang"@ ==> language_token(lang) == "go"@,
        lang == "python3"@ ==> language_token(lang) == "python"@,
        lang == "shell"@ ==> language_token(lang) == "bash"@,
        lang != "csharp"@ && lang != "c-sharp"@ && lang != "golang"@ && lang != "python3"@ && lang
            != "shell"@ ==> language_token(lang) == lang,
{
    reveal_strlit("csharp");
    reveal_strlit("c-sharp");
    reveal_strlit("golang");
    reveal_strlit("python3");
    reveal_strlit("shell");
    assert("csharp"@[0] == 'c');
    assert("c-sharp"@[0] == 'c');
    assert("golang"@[0] == 'g');
    assert("python3"@[0] == 'p');
}

/// Folding case turns capital letters of ASCII into small ones and leaves every
/// other character.
pub proof fn folding_lowers_ascii(text: Seq<char>, i: int)
    requires
        0 <= i < text.len(),
    ensures
        ascii_lowercase(text).len() == text.len(),
        'A' <= text[i] <= 'Z' ==> ascii_lowercase(text)[i] as u32 == text[i] as u32 + 32,
        !('A' <= text[i] <= 'Z') ==> ascii_lowercase(text)[i] == text[i],
{
}

/// Code is highlighted only where there is any, it is within the limits, and
/// its language is known.
pub proof fn highlighting_has_limits(config: ConfigView, code: Seq<char>, lang: Seq<char>)
    ensures
        code.len() == 0 ==> highlighted(config, code, lang) is None,
        byte_len(code) > config.max_bytes ==> highlighted(config, code, lang) is None,
        lines_of(code).len() > config.max_lines ==> highlighted(config, code, lang) is None,
        syntax_of(lang) is None ==> highlighted(config, code, lang) is None,
        code.len() > 0 && byte_len(code) <= config.max_bytes && lines_of(code).len()
            <= config.max_lines && syntax_of(lang) is Some && highlighted_pieces(
            ended_lines(code),
            syntax_of(lang)->0,
            theme_of(config),
        ) is Some ==> highlighted(config, code, lang) is Some,
{
}

/// A language is looked up by its token first, then by its name in any case,
/// and by its extension last.
pub proof fn languages_are_looked_up_in_order(lang: Seq<char>)
    ensures
        ({
            let token = language_token(lang);
            &&& syntax_by_token(token) is Some ==> syntax_of(lang) == syntax_by_token(token)
            &&& syntax_by_token(token) is None && syntax_by_name(token) is Some ==> syntax_of(lang)
                == syntax_by_name(token)
            &&& syntax_by_token(token) is None && syntax_by_name(token) is None
                && syntax_folded_from(ascii_lowercase(token), 0) is None ==> syntax_of(lang)
                == syntax_by_extension(lang)
            &&& syntax_of(lang) is None ==> syntax_by_extension(lang) is None
        }),
{
}

} // verus!
