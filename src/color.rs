//! The top-level color value and the dispatcher that tells solids from gradients.
use vstd::prelude::*;
use crate::error::{Error, ErrorKind};
use crate::gradient::{Gradient, gradient_agrees, parse_gradient, parse_gradient_with_theme};
use crate::theme::{ThemeColors, parse_solid_with_theme, theme_target};
use crate::solid::{Solid, agrees, parse_solid_chars, solid_message, solid_of};
use crate::text::{chars_of, has_prefix, starts_with_str};

verus! {

/// A parsed color: a single color or a gradient.
#[derive(Debug, PartialEq)]
pub enum ColorValue {
    Solid(Solid),
    Gradient(Gradient),
}

/// A parsed color string.
#[derive(Debug, PartialEq)]
pub struct Color(pub ColorValue);

/// Whether `s` is a gradient expression.
pub open spec fn is_gradient(s: Seq<char>) -> bool {
    has_prefix(s, "gradient("@)
}

/// Whether `r` is what parsing `s` with the theme entries `e` gives: a
/// gradient for text that starts with `gradient(`, else a solid color.
pub open spec fn color_agrees(
    s: Seq<char>,
    e: Seq<(Seq<char>, Seq<char>)>,
    r: Result<Color, Error>,
) -> bool {
    if is_gradient(s) {
        match r {
            Ok(Color(ColorValue::Gradient(g))) => gradient_agrees(s, e, Ok(g)),
            Err(x) => gradient_agrees(s, e, Err(x)),
            _ => false,
        }
    } else {
        match solid_of(theme_target(s, e)) {
            Ok(c) => r matches Ok(Color(ColorValue::Solid(x))) && x == c,
            Err(k) => r matches Err(x) && x.spec_kind() == k && x.spec_message() == solid_message(
                theme_target(s, e),
            ),
        }
    }
}

/// Without theme entries, a theme changes nothing.
proof fn lemma_no_theme(s: Seq<char>)
    ensures
        theme_target(s, Seq::empty()) == s,
{
}

/// Parses a solid color string: named colors, `transparent`, `accent`,
/// `accent_inactive`, hex literals with or without `#`, `rgb()`, `rgba()`,
/// `hsl()`, `hsla()`, `darken()` and `lighten()`; case and surrounding white
/// space do not matter.
pub fn parse_solid(s: &str) -> (r: Result<Solid, Error>)
    ensures
        agrees(r, s@),
{
    let v = chars_of(s);
    parse_solid_chars(&v)
}

/// Parses a color string: a gradient when it starts with `gradient(`, else a
/// solid color.
pub fn parse(s: &str) -> (r: Result<Color, Error>)
    ensures
        color_agrees(s@, Seq::empty(), r),
{
    let v = chars_of(s);
    proof {
        reveal_strlit("gradient(");
        lemma_no_theme(s@);
    }
    if starts_with_str(&v, "gradient(") {
        match parse_gradient(s) {
            Ok(g) => Ok(Color(ColorValue::Gradient(g))),
            Err(e) => Err(e),
        }
    } else {
        match parse_solid_chars(&v) {
            Ok(c) => Ok(Color(ColorValue::Solid(c))),
            Err(e) => Err(e),
        }
    }
}

/// Parses a color string with a theme: as `parse`, with the theme's keys
/// standing for their colors, in a gradient's stops too.
pub fn parse_with_theme(s: &str, theme: &ThemeColors) -> (r: Result<Color, Error>)
    ensures
        color_agrees(s@, theme.view(), r),
{
    let v = chars_of(s);
    proof {
        reveal_strlit("gradient(");
    }
    if starts_with_str(&v, "gradient(") {
        match parse_gradient_with_theme(s, theme) {
            Ok(g) => Ok(Color(ColorValue::Gradient(g))),
            Err(e) => Err(e),
        }
    } else {
        match parse_solid_with_theme(s, theme) {
            Ok(c) => Ok(Color(ColorValue::Solid(c))),
            Err(e) => Err(e),
        }
    }
}

impl Color {
    /// Parses a color string (see `parse`).
    pub fn from_html(s: &str) -> (r: Result<Color, Error>)
        ensures
            color_agrees(s@, Seq::empty(), r),
    {
        parse(s)
    }

    /// Parses a color string with a theme (see `parse_with_theme`).
    pub fn from_html_with_theme(s: &str, theme: &ThemeColors) -> (r: Result<Color, Error>)
        ensures
            color_agrees(s@, theme.view(), r),
    {
        parse_with_theme(s, theme)
    }

    /// The gradient, or `InvalidFunction` for a solid color.
    pub fn to_gradient(&self) -> (r: Result<Gradient, Error>)
        ensures
            match self.0 {
                ColorValue::Gradient(g) => r matches Ok(x) && x.direction == g.direction && x.colors@
                    == g.colors@,
                ColorValue::Solid(_) => r matches Err(e) && e.spec_kind() == ErrorKind::InvalidFunction,
            },
    {
        match &self.0 {
            ColorValue::Gradient(g) => Ok(g.clone()),
            ColorValue::Solid(_) => Err(Error::new(ErrorKind::InvalidFunction, "not a gradient")),
        }
    }

    /// The solid color, or `InvalidFunction` for a gradient.
    pub fn to_solid(&self) -> (r: Result<Solid, Error>)
        ensures
            match self.0 {
                ColorValue::Solid(c) => r == Ok::<Solid, Error>(c),
                ColorValue::Gradient(_) => r matches Err(e) && e.spec_kind() == ErrorKind::InvalidFunction,
            },
    {
        match &self.0 {
            ColorValue::Solid(c) => Ok(c.clone()),
            ColorValue::Gradient(_) => Err(Error::new(ErrorKind::InvalidFunction, "not a solid color")),
        }
    }
}

} // verus!
