//! Styled-cell colour resolution.
//!
//! A `Style` carries optional colours and emphasis flags for a run of
//! text.  Resolution against the editor's default colours follows a
//! fixed policy: the `reverse` flag swaps foreground and background, an
//! unset colour falls back to the matching default, and the `special`
//! decoration colour falls back to the resolved foreground.  Asking for
//! a fallback that the defaults do not provide is a configuration error.

use vstd::prelude::*;

verus! {

/// An opaque RGBA colour value, eight bits per channel.
#[derive(Clone, Copy, Debug, PartialEq, Eq, Structural)]
pub struct Color {
    pub r: u8,
    pub g: u8,
    pub b: u8,
    pub a: u8,
}

/// The optional colour triple a style or the editor defaults carry.
#[derive(Clone, Copy, Debug, PartialEq)]
pub struct Colors {
    pub foreground: Option<Color>,
    pub background: Option<Color>,
    pub special: Option<Color>,
}

/// The underline decoration variants the editor can request.
#[derive(PartialEq, Debug, Clone, Copy)]
pub enum UnderlineStyle {
    Underline,
    UnderDouble,
    UnderDash,
    UnderDot,
    UnderCurl,
}

/// The style of one run of text: colours plus emphasis flags.
#[derive(Debug, Clone, Copy, PartialEq)]
pub struct Style {
    pub colors: Colors,
    pub reverse: bool,
    pub italic: bool,
    pub bold: bool,
    pub strikethrough: bool,
    pub blend: u8,
    pub underline: Option<UnderlineStyle>,
}

/// The resolved foreground of a style: the style's own foreground — or
/// its background, when reversed — falling back to the matching
/// default; `None` when the fallback is needed but unset.
pub open spec fn fg_source(s: Style, d: Colors) -> Option<Color> {
    if s.reverse {
        match s.colors.background {
            Some(c) => Some(c),
            None => d.background,
        }
    } else {
        match s.colors.foreground {
            Some(c) => Some(c),
            None => d.foreground,
        }
    }
}

/// The resolved background of a style, mirroring `fg_source`.
pub open spec fn bg_source(s: Style, d: Colors) -> Option<Color> {
    if s.reverse {
        match s.colors.foreground {
            Some(c) => Some(c),
            None => d.foreground,
        }
    } else {
        match s.colors.background {
            Some(c) => Some(c),
            None => d.background,
        }
    }
}

/// The resolved decoration colour: the style's `special`, falling back
/// to the resolved foreground.
pub open spec fn special_source(s: Style, d: Colors) -> Option<Color> {
    match s.colors.special {
        Some(c) => Some(c),
        None => fg_source(s, d),
    }
}

impl Style {
    /// The resolved foreground, or `None` on a missing fallback.
    pub fn try_foreground(&self, default_colors: &Colors) -> (r: Option<Color>)
        ensures
            r == fg_source(*self, *default_colors),
    {
        if self.reverse {
            match self.colors.background {
                Some(c) => Some(c),
                None => default_colors.background,
            }
        } else {
            match self.colors.foreground {
                Some(c) => Some(c),
                None => default_colors.foreground,
            }
        }
    }

    /// The resolved background, or `None` on a missing fallback.
    pub fn try_background(&self, default_colors: &Colors) -> (r: Option<Color>)
        ensures
            r == bg_source(*self, *default_colors),
    {
        if self.reverse {
            match self.colors.foreground {
                Some(c) => Some(c),
                None => default_colors.foreground,
            }
        } else {
            match self.colors.background {
                Some(c) => Some(c),
                None => default_colors.background,
            }
        }
    }

    /// The resolved decoration colour, or `None` on a missing fallback.
    pub fn try_special(&self, default_colors: &Colors) -> (r: Option<Color>)
        ensures
            r == special_source(*self, *default_colors),
    {
        match self.colors.special {
            Some(c) => Some(c),
            None => self.try_foreground(default_colors),
        }
    }

    /// The resolved foreground; the needed fallback must be configured.
    pub fn foreground(&self, default_colors: &Colors) -> (r: Color)
        requires
            fg_source(*self, *default_colors) is Some,
        ensures
            Some(r) == fg_source(*self, *default_colors),
    {
        self.try_foreground(default_colors).unwrap()
    }

    /// The resolved background; the needed fallback must be configured.
    pub fn background(&self, default_colors: &Colors) -> (r: Color)
        requires
            bg_source(*self, *default_colors) is Some,
        ensures
            Some(r) == bg_source(*self, *default_colors),
    {
        self.try_background(default_colors).unwrap()
    }

    /// The resolved decoration colour; the needed fallback must be
    /// configured.
    pub fn special(&self, default_colors: &Colors) -> (r: Color)
        requires
            special_source(*self, *default_colors) is Some,
        ensures
            Some(r) == special_source(*self, *default_colors),
    {
        self.try_special(default_colors).unwrap()
    }
}

} // verus!
