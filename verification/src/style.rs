//! Colors and text styles of the picker's cards and footer, as plain values.
use vstd::prelude::*;

verus! {

/// A terminal color.
#[derive(Clone, Copy, Debug, PartialEq, Eq, Structural)]
pub enum TermColor {
    Reset,
    Black,
    Red,
    Green,
    Yellow,
    Blue,
    Magenta,
    Cyan,
    Gray,
    DarkGray,
    LightRed,
    LightGreen,
    LightYellow,
    LightBlue,
    LightMagenta,
    LightCyan,
    White,
    Rgb(u8, u8, u8),
    Indexed(u8),
}

/// Bold text.
pub const BOLD: u16 = 1;

/// Italic text.
pub const ITALIC: u16 = 4;

/// Underlined text.
pub const UNDERLINED: u16 = 8;

/// A text style: optional foreground and background colors, the modifiers it
/// adds and the modifiers it removes (as bit sets).
#[derive(Clone, Copy, Debug, PartialEq, Eq, Structural)]
pub struct Style {
    pub fg: Option<TermColor>,
    pub bg: Option<TermColor>,
    pub add_modifier: u16,
    pub sub_modifier: u16,
}

/// The style that sets nothing.
pub open spec fn plain() -> Style {
    Style { fg: None, bg: None, add_modifier: 0, sub_modifier: 0 }
}

/// `s` with foreground `c`.
pub open spec fn with_fg(s: Style, c: TermColor) -> Style {
    Style { fg: Some(c), ..s }
}

/// `s` with background `c`.
pub open spec fn with_bg(s: Style, c: TermColor) -> Style {
    Style { bg: Some(c), ..s }
}

/// `s` adding the modifiers `m` (and no longer removing them).
pub open spec fn adding(s: Style, m: u16) -> Style {
    Style { add_modifier: s.add_modifier | m, sub_modifier: s.sub_modifier & !m, ..s }
}

/// `s` removing the modifiers `m` (and no longer adding them).
pub open spec fn removing(s: Style, m: u16) -> Style {
    Style { add_modifier: s.add_modifier & !m, sub_modifier: s.sub_modifier | m, ..s }
}

impl Style {
    /// The style that sets nothing.
    pub fn new() -> (r: Style)
        ensures
            r == plain(),
    {
        Style { fg: None, bg: None, add_modifier: 0, sub_modifier: 0 }
    }

    /// This style with foreground `c`.
    pub fn fg(self, c: TermColor) -> (r: Style)
        ensures
            r == with_fg(self, c),
    {
        Style { fg: Some(c), ..self }
    }

    /// This style with background `c`.
    pub fn bg(self, c: TermColor) -> (r: Style)
        ensures
            r == with_bg(self, c),
    {
        Style { bg: Some(c), ..self }
    }

    /// This style adding the modifiers `m`.
    pub fn add_modifier(self, m: u16) -> (r: Style)
        ensures
            r == adding(self, m),
    {
        Style { add_modifier: self.add_modifier | m, sub_modifier: self.sub_modifier & !m, ..self }
    }

    /// This style removing the modifiers `m`.
    pub fn remove_modifier(self, m: u16) -> (r: Style)
        ensures
            r == removing(self, m),
    {
        Style { add_modifier: self.add_modifier & !m, sub_modifier: self.sub_modifier | m, ..self }
    }
}

/// A piece of text in one style.
#[derive(Clone, Debug, PartialEq, Eq)]
pub struct StyledText {
    pub content: String,
    pub style: Style,
}

/// A styled text as plain values.
pub struct StyledTextView {
    pub content: Seq<char>,
    pub style: Style,
}

impl View for StyledText {
    type V = StyledTextView;

    open spec fn view(&self) -> StyledTextView {
        StyledTextView { content: self.content@, style: self.style }
    }
}

/// The views of a line of styled texts.
pub open spec fn line_view(line: Seq<StyledText>) -> Seq<StyledTextView> {
    line.map_values(|t: StyledText| t@)
}

/// A styled text from its content and style.
pub open spec fn styled(content: Seq<char>, style: Style) -> StyledTextView {
    StyledTextView { content, style }
}

} // verus!
