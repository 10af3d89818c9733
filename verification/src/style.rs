//! Colours, icons, and values rendered in colours.

use vstd::prelude::*;
use vstd::std_specs::convert::FromSpecImpl;
use crate::format::{utf8, Format, Formatter};
use crate::numeral::{hex, push_hex};
use crate::util::Error;

verus! {

/// The colours of the palette, and `Default` for the colour that the
/// renderer was started with. The colours are listed by their code, lowest
/// first, so that they are ordered as their codes are.
#[allow(dead_code)]
#[derive(Debug, Clone, Copy, PartialEq, Eq, Structural, PartialOrd, Ord)]
pub enum Color {
    Default,
    Base03,
    Base02,
    Blue,
    Cyan,
    Base01,
    Base00,
    Violet,
    Base0,
    Green,
    Base1,
    Yellow,
    Orange,
    Magenta,
    Red,
    Base2,
    Base3,
}

/// The code of a colour: red, green and blue, eight bits each. `Default`
/// has the code zero.
pub open spec fn color_code(color: Color) -> nat {
    match color {
        Color::Default => 0,
        Color::Base03 => 0x002b36,
        Color::Base02 => 0x073642,
        Color::Blue => 0x268bd2,
        Color::Cyan => 0x2aa198,
        Color::Base01 => 0x586e75,
        Color::Base00 => 0x657b83,
        Color::Violet => 0x6c71c4,
        Color::Base0 => 0x839496,
        Color::Green => 0x859900,
        Color::Base1 => 0x93a1a1,
        Color::Yellow => 0xb58900,
        Color::Orange => 0xcb4b16,
        Color::Magenta => 0xd33682,
        Color::Red => 0xdc322f,
        Color::Base2 => 0xeee8d5,
        Color::Base3 => 0xfdf6e3,
    }
}

/// A colour as the renderer reads it: `-` for `Default`, and the code in
/// hexadecimal, without leading zeros, for any other.
pub open spec fn color_text(color: Color) -> Seq<char> {
    if color == Color::Default {
        seq!['-']
    } else {
        hex(color_code(color))
    }
}

impl Color {
    /// The code of this colour.
    pub fn code(self) -> (code: u32)
        ensures
            code == color_code(self),
    {
        match self {
            Color::Default => 0,
            Color::Base03 => 0x002b36,
            Color::Base02 => 0x073642,
            Color::Blue => 0x268bd2,
            Color::Cyan => 0x2aa198,
            Color::Base01 => 0x586e75,
            Color::Base00 => 0x657b83,
            Color::Violet => 0x6c71c4,
            Color::Base0 => 0x839496,
            Color::Green => 0x859900,
            Color::Base1 => 0x93a1a1,
            Color::Yellow => 0xb58900,
            Color::Orange => 0xcb4b16,
            Color::Magenta => 0xd33682,
            Color::Red => 0xdc322f,
            Color::Base2 => 0xeee8d5,
            Color::Base3 => 0xfdf6e3,
        }
    }

    /// This colour as the renderer reads it.
    pub fn to_string(&self) -> (text: String)
        ensures
            text@ == color_text(*self),
    {
        let mut text = String::new();
        if *self == Color::Default {
            text.append("-");
            proof {
                reveal_strlit("-");
            }
        } else {
            push_hex(&mut text, self.code() as usize);
        }
        text
    }
}

/// The icons of the bar's font. The icons are listed by their code point,
/// lowest first, so that they are ordered as their code points are.
#[allow(dead_code)]
#[derive(Debug, Clone, Copy, PartialEq, Eq, Structural, PartialOrd, Ord)]
pub enum Icon {
    BatCharging,
    BatEmpty,
    BatFull,
    BatHalf,
    BatLow,
    DotOn,
    DotOff,
}

/// The character of the bar's font that draws `icon`.
pub open spec fn icon_char(icon: Icon) -> char {
    match icon {
        Icon::BatCharging => '\u{f111}',
        Icon::BatEmpty => '\u{f112}',
        Icon::BatFull => '\u{f113}',
        Icon::BatHalf => '\u{f114}',
        Icon::BatLow => '\u{f115}',
        Icon::DotOn => '\u{f3a6}',
        Icon::DotOff => '\u{f3a7}',
    }
}

impl Icon {
    /// The character that draws this icon.
    pub fn glyph(self) -> (glyph: char)
        ensures
            glyph == icon_char(self),
    {
        match self {
            Icon::BatCharging => '\u{f111}',
            Icon::BatEmpty => '\u{f112}',
            Icon::BatFull => '\u{f113}',
            Icon::BatHalf => '\u{f114}',
            Icon::BatLow => '\u{f115}',
            Icon::DotOn => '\u{f3a6}',
            Icon::DotOff => '\u{f3a7}',
        }
    }

    /// The code point of the character that draws this icon.
    pub fn code(self) -> (code: u32)
        ensures
            code == icon_char(self) as u32,
    {
        self.glyph() as u32
    }
}

impl Format for Icon {
    /// An icon writes its character.
    open spec fn rendered(&self) -> Seq<u8> {
        utf8(seq![icon_char(*self)])
    }

    open spec fn renders(&self) -> bool {
        true
    }

    fn fmt(&self, fmt: &mut Formatter) -> (done: Result<(), Error>)
        ensures
            done is Ok,
    {
        self.glyph().fmt(fmt)
    }
}

/// What switches the renderer to the colours `fg` and `bg`.
pub open spec fn style_start(fg: Color, bg: Color) -> Seq<char> {
    "%{F"@ + color_text(fg) + " B"@ + color_text(bg) + "}"@
}

/// What switches the renderer back to the colours it was started with.
pub open spec fn style_end() -> Seq<char> {
    "%{F- B-}"@
}

/// A value that is rendered in colours of its own.
pub struct Styled<T> {
    pub inner: T,
    /// The colour of what is drawn.
    pub fg: Color,
    /// The colour behind it.
    pub bg: Color,
}

impl<T> Styled<T> where T: Format {
    pub fn set_fg(&mut self, fg: Color) -> (changed: &mut Self)
        ensures
            changed.fg == fg,
            changed.bg == old(self).bg,
            changed.inner == old(self).inner,
            *final(self) == *final(changed),
    {
        self.fg = fg;
        self
    }

    pub fn set_bg(&mut self, bg: Color) -> (changed: &mut Self)
        ensures
            changed.bg == bg,
            changed.fg == old(self).fg,
            changed.inner == old(self).inner,
            *final(self) == *final(changed),
    {
        self.bg = bg;
        self
    }
}

impl<T> From<T> for Styled<T> where T: Format {
    fn from(inner: T) -> (styled: Styled<T>) {
        Styled { inner, fg: Color::Default, bg: Color::Default }
    }
}

impl<T> FromSpecImpl<T> for Styled<T> where T: Format {
    open spec fn obeys_from_spec() -> bool {
        true
    }

    /// A value starts out in the colours of the renderer.
    open spec fn from_spec(inner: T) -> Styled<T> {
        Styled { inner, fg: Color::Default, bg: Color::Default }
    }
}

impl<T> Format for Styled<T> where T: Format {
    /// A styled value writes the switch to its colours, the value, and the
    /// switch back.
    open spec fn rendered(&self) -> Seq<u8> {
        utf8(style_start(self.fg, self.bg)) + self.inner.rendered() + utf8(style_end())
    }

    /// A styled value can be rendered where the value itself can.
    open spec fn renders(&self) -> bool {
        self.inner.renders()
    }

    fn fmt(&self, fmt: &mut Formatter) -> (done: Result<(), Error>)
        ensures
            done is Ok <==> self.inner.renders(),
    {
        let mut start = String::from_str("%{F");
        start.append(self.fg.to_string().as_str());
        start.append(" B");
        start.append(self.bg.to_string().as_str());
        start.append("}");
        let end = "%{F- B-}";

        let _ = start.as_str().fmt(fmt);
        match self.inner.fmt(fmt) {
            Ok(()) => {},
            Err(e) => {
                return Err(e);
            },
        }
        let _ = end.fmt(fmt);
        Ok(())
    }
}

} // verus!
