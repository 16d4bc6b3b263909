use vstd::prelude::*;

verus! {

/// Terminal text color.
#[derive(Debug, Clone, Copy, PartialEq, Eq, Structural)]
pub enum Color {
    /// Default foreground/background.
    Default,
    /// One of the 256 indexed colors.
    Indexed(u8),
    /// 24-bit RGB color.
    Rgb(u8, u8, u8),
}

impl Default for Color {
    fn default() -> (c: Self)
        ensures
            c == Color::Default,
    {
        Color::Default
    }
}

/// Cell attributes (style + color).
#[derive(Debug, Clone, Copy, PartialEq, Eq, Structural)]
pub struct Attr {
    pub fg: Color,
    pub bg: Color,
    pub bold: bool,
    pub dim: bool,
    pub italic: bool,
    pub underline: bool,
    pub blink: bool,
    pub inverse: bool,
    pub hidden: bool,
    pub strikethrough: bool,
}

/// The attributes of freshly reset text: default colors, no styling.
pub open spec fn plain_attr() -> Attr {
    Attr {
        fg: Color::Default,
        bg: Color::Default,
        bold: false,
        dim: false,
        italic: false,
        underline: false,
        blink: false,
        inverse: false,
        hidden: false,
        strikethrough: false,
    }
}

impl Default for Attr {
    fn default() -> (a: Self)
        ensures
            a == plain_attr(),
    {
        Attr {
            fg: Color::Default,
            bg: Color::Default,
            bold: false,
            dim: false,
            italic: false,
            underline: false,
            blink: false,
            inverse: false,
            hidden: false,
            strikethrough: false,
        }
    }
}

impl Attr {
    /// Reset all attributes to default.
    pub fn reset(&mut self)
        ensures
            *final(self) == plain_attr(),
    {
        *self = Self::default();
    }
}

} // verus!
