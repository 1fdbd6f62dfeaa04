//! Appearance settings.
use vstd::prelude::*;
use crate::style::Color;

verus! {

#[derive(Clone, Copy, Debug, PartialEq, Eq, Structural)]
pub enum NamedColor {
    Black,
    Red,
    Green,
    Yellow,
    Blue,
    Magenta,
    Cyan,
    Gray,
    DarkGray,
    LightRed,
    LightGreen,
    LightYellow,
    LightBlue,
    LightMagenta,
    LightCyan,
    White,
}

/// A colour as it is configured.
#[derive(Clone, Copy, Debug, PartialEq, Eq, Structural)]
pub enum ColorSpec {
    Indexed(u8),
    Rgb { r: u8, g: u8, b: u8 },
    Named(NamedColor),
}

pub open spec fn named_color(named: NamedColor) -> Color {
    match named {
        NamedColor::Black => Color::Black,
        NamedColor::Red => Color::Red,
        NamedColor::Green => Color::Green,
        NamedColor::Yellow => Color::Yellow,
        NamedColor::Blue => Color::Blue,
        NamedColor::Magenta => Color::Magenta,
        NamedColor::Cyan => Color::Cyan,
        NamedColor::Gray => Color::Gray,
        NamedColor::DarkGray => Color::DarkGray,
        NamedColor::LightRed => Color::LightRed,
        NamedColor::LightGreen => Color::LightGreen,
        NamedColor::LightYellow => Color::LightYellow,
        NamedColor::LightBlue => Color::LightBlue,
        NamedColor::LightMagenta => Color::LightMagenta,
        NamedColor::LightCyan => Color::LightCyan,
        NamedColor::White => Color::White,
    }
}

/// The colour that a setting stands for.
pub open spec fn color_of(spec: ColorSpec) -> Color {
    match spec {
        ColorSpec::Indexed(index) => Color::Indexed(index),
        ColorSpec::Rgb { r, g, b } => Color::Rgb(r, g, b),
        ColorSpec::Named(named) => named_color(named),
    }
}

/// Converts a configured colour.
pub fn to_color(spec: ColorSpec) -> (r: Color)
    ensures
        r == color_of(spec),
{
    match spec {
        ColorSpec::Indexed(index) => Color::Indexed(index),
        ColorSpec::Rgb { r, g, b } => Color::Rgb(r, g, b),
        ColorSpec::Named(named) => match named {
            NamedColor::Black => Color::Black,
            NamedColor::Red => Color::Red,
            NamedColor::Green => Color::Green,
            NamedColor::Yellow => Color::Yellow,
            NamedColor::Blue => Color::Blue,
            NamedColor::Magenta => Color::Magenta,
            NamedColor::Cyan => Color::Cyan,
            NamedColor::Gray => Color::Gray,
            NamedColor::DarkGray => Color::DarkGray,
            NamedColor::LightRed => Color::LightRed,
            NamedColor::LightGreen => Color::LightGreen,
            NamedColor::LightYellow => Color::LightYellow,
            NamedColor::LightBlue => Color::LightBlue,
            NamedColor::LightMagenta => Color::LightMagenta,
            NamedColor::LightCyan => Color::LightCyan,
            NamedColor::White => Color::White,
        },
    }
}

/// Settings of the drawing code.
#[derive(Debug)]
pub struct TuiConfig {
    pub max_rendered_diff_lines: usize,
    pub max_highlight_bytes: usize,
    pub max_highlight_lines: usize,
    pub diff_add_bg: ColorSpec,
    pub diff_delete_bg: ColorSpec,
    pub highlight_theme: String,
}

/// The settings with the theme's name as text.
#[verifier::ext_equal]
pub struct ConfigView {
    pub max_diff_lines: usize,
    pub max_bytes: usize,
    pub max_lines: usize,
    pub add_bg: Color,
    pub delete_bg: Color,
    pub theme: Seq<char>,
}

impl View for TuiConfig {
    type V = ConfigView;

    open spec fn view(&self) -> ConfigView {
        ConfigView {
            max_diff_lines: self.max_rendered_diff_lines,
            max_bytes: self.max_highlight_bytes,
            max_lines: self.max_highlight_lines,
            add_bg: color_of(self.diff_add_bg),
            delete_bg: color_of(self.diff_delete_bg),
            theme: self.highlight_theme@,
        }
    }
}

// ---------------------------------------------------------------------------
// Laws
// ---------------------------------------------------------------------------

/// A colour is drawn as it is configured: by its index, its parts or its name.
pub proof fn colors_are_as_configured(index: u8, r: u8, g: u8, b: u8)
    ensures
        color_of(ColorSpec::Indexed(index)) == Color::Indexed(index),
        color_of(ColorSpec::Rgb { r, g, b }) == Color::Rgb(r, g, b),
        color_of(ColorSpec::Named(NamedColor::Black)) == Color::Black,
        color_of(ColorSpec::Named(NamedColor::Red)) == Color::Red,
        color_of(ColorSpec::Named(NamedColor::Green)) == Color::Green,
        color_of(ColorSpec::Named(NamedColor::Yellow)) == Color::Yellow,
        color_of(ColorSpec::Named(NamedColor::Blue)) == Color::Blue,
        color_of(ColorSpec::Named(NamedColor::Magenta)) == Color::Magenta,
        color_of(ColorSpec::Named(NamedColor::Cyan)) == Color::Cyan,
        color_of(ColorSpec::Named(NamedColor::Gray)) == Color::Gray,
        color_of(ColorSpec::Named(NamedColor::DarkGray)) == Color::DarkGray,
        color_of(ColorSpec::Named(NamedColor::LightRed)) == Color::LightRed,
        color_of(ColorSpec::Named(NamedColor::LightGreen)) == Color::LightGreen,
        color_of(ColorSpec::Named(NamedColor::LightYellow)) == Color::LightYellow,
        color_of(ColorSpec::Named(NamedColor::LightBlue)) == Color::LightBlue,
        color_of(ColorSpec::Named(NamedColor::LightMagenta)) == Color::LightMagenta,
        color_of(ColorSpec::Named(NamedColor::LightCyan)) == Color::LightCyan,
        color_of(ColorSpec::Named(NamedColor::White)) == Color::White,
{
}

} // verus!
