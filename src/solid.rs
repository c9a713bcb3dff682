//! Single colors: the parsed forms of a solid color string, and the parser
//! that resolves named colors, hex literals, `rgb()`, `hsl()`, `darken()` and
//! `lighten()`.
use vstd::prelude::*;
use crate::error::{Error, ErrorKind};
use crate::named::{lookup_name, lookup_named, name_of_rgb, named_rgb};
use crate::number::{
    Angle,
    Number,
    angle,
    decimal,
    drop_end,
    is_digit,
    lemma_decimal_chars,
    scaled,
    percent_or_255,
    percent_or_float,
    parse_angle,
    parse_percent_or_255,
    parse_percent_or_float,
};
use crate::text::{
    arg_tokens,
    is_arg_sep,
    lemma_tokens_cons,
    lemma_tokens_sep,
    lemma_index_of,
    lemma_last_index_of,
    has_suffix,
    is_space,
    lower_char,
    trim_start,
    ascii_lower,
    copy_range,
    equals_str,
    find_char,
    index_of,
    last_index_of,
    lemma_index_of_bounds,
    lemma_trimmed_len,
    rfind_char,
    split_args,
    string_of,
    to_ascii_lowercase,
    trim,
    trim_end,
    trim_end_chars,
    trimmed,
};

verus! {

/// Red, green, blue and alpha as exact values in `[0, 1]`.
#[derive(Debug, Clone, Copy, PartialEq, Eq, Structural)]
pub struct Channels {
    pub r: Number,
    pub g: Number,
    pub b: Number,
    pub a: Number,
}

/// A solid color as a color string describes it.
///
/// `Rgba` holds the channels exactly. The other forms are finished with
/// floating-point arithmetic (hue conversion, the system's accent color), which
/// is left to the caller.
#[derive(Debug, PartialEq)]
pub enum Solid {
    /// Exact channels: hex literals, named colors, `transparent`, `rgb()`.
    Rgba(Channels),
    /// `hsl()`: a hue angle, saturation, lightness and alpha; the last three in `[0, 1]`.
    Hsla { h: Angle, s: Number, l: Number, a: Number },
    /// The system accent color, active or inactive.
    Accent { active: bool },
    /// `darken()` (`lighten == false`) or `lighten()`: the base color with its
    /// HSL lightness moved by `amount` (a fraction of the full scale), unclamped.
    Shift { base: Box<Solid>, amount: Number, lighten: bool },
}

/// An 8-bit channel as an exact fraction.
pub open spec fn byte(v: u8) -> Number {
    Number { negative: false, num: v as u64, den: 255 }
}

/// The color of four 8-bit channels.
pub open spec fn rgba8(r: u8, g: u8, b: u8, a: u8) -> Solid {
    Solid::Rgba(Channels { r: byte(r), g: byte(g), b: byte(b), a: byte(a) })
}

pub open spec fn zero() -> Number {
    Number { negative: false, num: 0, den: 1 }
}

pub open spec fn one() -> Number {
    Number { negative: false, num: 1, den: 1 }
}

/// `n` limited to `[0, 1]`.
pub open spec fn clamp01(n: Number) -> Number {
    if n.negative {
        Number { negative: false, num: 0, den: n.den }
    } else if n.num > n.den {
        Number { negative: false, num: n.den, den: n.den }
    } else {
        n
    }
}

fn clamp_unit(n: Number) -> (r: Number)
    ensures
        r == clamp01(n),
{
    if n.negative {
        Number { negative: false, num: 0, den: n.den }
    } else if n.num > n.den {
        Number { negative: false, num: n.den, den: n.den }
    } else {
        n
    }
}

pub open spec fn is_hex_digit(c: char) -> bool {
    ('0' <= c && c <= '9') || ('a' <= c && c <= 'f') || ('A' <= c && c <= 'F')
}

pub open spec fn hex_value(c: char) -> nat {
    if '0' <= c && c <= '9' {
        (c as u32 - '0' as u32) as nat
    } else if 'a' <= c && c <= 'f' {
        (c as u32 - 'a' as u32 + 10) as nat
    } else {
        (c as u32 - 'A' as u32 + 10) as nat
    }
}

/// A one-digit channel, doubled: `d` reads as `dd`.
pub open spec fn short_channel(s: Seq<char>, i: int) -> u8 {
    (17 * hex_value(s[i])) as u8
}

/// A two-digit channel.
pub open spec fn long_channel(s: Seq<char>, i: int) -> u8 {
    (16 * hex_value(s[i]) + hex_value(s[i + 1])) as u8
}

/// The channels that hex digits `s` (no `#`) denote: 3, 4, 6 or 8 digits, the
/// 4th or 7th-8th giving alpha, which is otherwise 255.
pub open spec fn hex_channels(s: Seq<char>) -> Option<(u8, u8, u8, u8)> {
    if !(forall|i: int| 0 <= i < s.len() ==> is_hex_digit(#[trigger] s[i])) {
        None
    } else if s.len() == 3 {
        Some((short_channel(s, 0), short_channel(s, 1), short_channel(s, 2), 255))
    } else if s.len() == 4 {
        Some((short_channel(s, 0), short_channel(s, 1), short_channel(s, 2), short_channel(s, 3)))
    } else if s.len() == 6 {
        Some((long_channel(s, 0), long_channel(s, 2), long_channel(s, 4), 255))
    } else if s.len() == 8 {
        Some((long_channel(s, 0), long_channel(s, 2), long_channel(s, 4), long_channel(s, 6)))
    } else {
        None
    }
}

pub open spec fn hex_of(s: Seq<char>) -> Result<Solid, ErrorKind> {
    match hex_channels(s) {
        Some((r, g, b, a)) => Ok(rgba8(r, g, b, a)),
        None => Err(ErrorKind::InvalidHex),
    }
}

/// The alpha argument of `rgb()` / `hsl()`: the fourth, or full opacity.
pub open spec fn alpha_arg(p: Seq<Seq<char>>) -> Option<(Number, bool)> {
    if p.len() == 4 {
        percent_or_float(p[3])
    } else {
        Some((one(), true))
    }
}

/// The channels of `rgb(...)` with arguments `p`: three channels, all
/// percentages or all absolute, and an optional alpha; each clamped to `[0, 1]`.
pub open spec fn rgb_channels(p: Seq<Seq<char>>) -> Option<Channels> {
    if p.len() != 3 && p.len() != 4 {
        None
    } else {
        match (percent_or_255(p[0]), percent_or_255(p[1]), percent_or_255(p[2]), alpha_arg(p)) {
            (Some((r, fr)), Some((g, fg)), Some((b, fb)), Some((a, _))) => if fr == fg && fg
                == fb {
                Some(Channels { r: clamp01(r), g: clamp01(g), b: clamp01(b), a: clamp01(a) })
            } else {
                None
            },
            _ => None,
        }
    }
}

/// The color of `hsl(...)` with arguments `p`: a hue angle, saturation and
/// lightness both percentages or both plain numbers, and an optional alpha;
/// saturation, lightness and alpha clamped to `[0, 1]`.
pub open spec fn hsl_color(p: Seq<Seq<char>>) -> Option<Solid> {
    if p.len() != 3 && p.len() != 4 {
        None
    } else {
        match (angle(p[0]), percent_or_float(p[1]), percent_or_float(p[2]), alpha_arg(p)) {
            (Some(h), Some((s, fs)), Some((l, fl)), Some((a, _))) => if fs == fl {
                Some(Solid::Hsla { h, s: clamp01(s), l: clamp01(l), a: clamp01(a) })
            } else {
                None
            },
            _ => None,
        }
    }
}

/// The string trimmed and folded to ASCII lower case.
pub open spec fn normalized(s: Seq<char>) -> Seq<char> {
    ascii_lower(trimmed(s))
}

/// A call `name(args)`: the string has a `(` and ends with `)`.
pub open spec fn is_call(t: Seq<char>) -> bool {
    index_of(t, '(') >= 0 && t.len() > 0 && t.last() == ')'
}

/// The function name of a call, without trailing white space.
pub open spec fn call_name(t: Seq<char>) -> Seq<char> {
    trim_end(t.subrange(0, index_of(t, '(')))
}

/// The text between a call's first `(` and its final `)`.
pub open spec fn call_args(t: Seq<char>) -> Seq<char> {
    t.subrange(index_of(t, '(') + 1, t.len() - 1)
}

/// The color part of `darken`/`lighten` arguments: what precedes the last comma.
pub open spec fn shift_color(args: Seq<char>) -> Seq<char> {
    trimmed(args.subrange(0, last_index_of(args, ',')))
}

/// The amount of `darken`/`lighten` arguments: a non-negative percentage after
/// the last comma.
pub open spec fn shift_amount(args: Seq<char>) -> Option<Number> {
    match percent_or_float(trimmed(args.subrange(last_index_of(args, ',') + 1, args.len() as int))) {
        Some((n, true)) => if n.negative {
            None
        } else {
            Some(n)
        },
        _ => None,
    }
}

/// The result of parsing `s` as a solid color.
pub open spec fn solid_of(s: Seq<char>) -> Result<Solid, ErrorKind>
    decreases s.len() via solid_of_decreases
{
    let t = normalized(s);
    if t.len() > 0 && t[0] == '#' {
        hex_of(t.drop_first())
    } else if is_call(t) {
        let name = call_name(t);
        let args = call_args(t);
        if name == "rgb"@ || name == "rgba"@ {
            match rgb_channels(arg_tokens(args)) {
                Some(c) => Ok(Solid::Rgba(c)),
                None => Err(ErrorKind::InvalidRgb),
            }
        } else if name == "hsl"@ || name == "hsla"@ {
            match hsl_color(arg_tokens(args)) {
                Some(c) => Ok(c),
                None => Err(ErrorKind::InvalidHsl),
            }
        } else if name == "darken"@ || name == "lighten"@ {
            let lighten = name == "lighten"@;
            let kind = if lighten {
                ErrorKind::InvalidLighten
            } else {
                ErrorKind::InvalidDarken
            };
            if last_index_of(args, ',') < 0 {
                Err(kind)
            } else {
                match (solid_of(shift_color(args)), shift_amount(args)) {
                    (Ok(base), Some(amount)) => Ok(
                        Solid::Shift { base: Box::new(base), amount, lighten },
                    ),
                    _ => Err(kind),
                }
            }
        } else {
            Err(ErrorKind::InvalidFunction)
        }
    } else if hex_channels(t) is Some {
        hex_of(t)
    } else if t == "transparent"@ {
        Ok(Solid::Rgba(Channels { r: zero(), g: zero(), b: zero(), a: zero() }))
    } else if t == "accent"@ {
        Ok(Solid::Accent { active: true })
    } else if t == "accent_inactive"@ {
        Ok(Solid::Accent { active: false })
    } else if named_rgb(t) is Some {
        let (r, g, b) = named_rgb(t)->Some_0;
        Ok(rgba8(r, g, b, 255))
    } else {
        match hex_of(t) {
            Ok(c) => Ok(c),
            Err(_) => Err(ErrorKind::InvalidUnknown),
        }
    }
}

proof fn lemma_last_index_of_bounds(s: Seq<char>, c: char)
    ensures
        -1 <= last_index_of(s, c) < s.len(),
    decreases s.len(),
{
    if s.len() > 0 && s.last() != c {
        lemma_last_index_of_bounds(s.drop_last(), c);
    }
}

/// The color inside `darken(...)` / `lighten(...)` is shorter than the whole.
proof fn lemma_shift_shorter(s: Seq<char>)
    requires
        is_call(normalized(s)),
        last_index_of(call_args(normalized(s)), ',') >= 0,
    ensures
        shift_color(call_args(normalized(s))).len() < s.len(),
{
    let t = normalized(s);
    lemma_trimmed_len(s);
    assert(t.len() == trimmed(s).len());
    lemma_index_of_bounds(t, '(');
    let args = call_args(t);
    assert(args.len() < t.len());
    lemma_last_index_of_bounds(args, ',');
    let k = last_index_of(args, ',');
    lemma_trimmed_len(args.subrange(0, k));
    assert(args.subrange(0, k).len() == k);
}

#[via_fn]
proof fn solid_of_decreases(s: Seq<char>) {
    let t = normalized(s);
    if is_call(t) && last_index_of(call_args(t), ',') >= 0 {
        lemma_shift_shorter(s);
    }
}

fn fail(kind: ErrorKind, t: &Vec<char>) -> (e: Error)
    ensures
        e.spec_kind() == kind,
        e.spec_message() == t@,
{
    let m = string_of(t.as_slice());
    Error::new(kind, m.as_str())
}

fn hex_digit(c: char) -> (r: Option<u8>)
    ensures
        match r {
            Some(d) => is_hex_digit(c) && d as nat == hex_value(c) && d < 16,
            None => !is_hex_digit(c),
        },
{
    if '0' <= c && c <= '9' {
        Some((c as u32 - '0' as u32) as u8)
    } else if 'a' <= c && c <= 'f' {
        Some((c as u32 - 'a' as u32 + 10) as u8)
    } else if 'A' <= c && c <= 'F' {
        Some((c as u32 - 'A' as u32 + 10) as u8)
    } else {
        None
    }
}

/// The values of the hex digits `v`, if all of them are hex digits.
fn hex_digits(v: &Vec<char>) -> (r: Option<Vec<u8>>)
    ensures
        match r {
            Some(d) => (forall|i: int| 0 <= i < v@.len() ==> is_hex_digit(#[trigger] v@[i]))
                && d@.len() == v@.len() && forall|i: int|
                0 <= i < v@.len() ==> (#[trigger] d@[i]) as nat == hex_value(v@[i]) && d@[i] < 16,
            None => !(forall|i: int| 0 <= i < v@.len() ==> is_hex_digit(#[trigger] v@[i])),
        },
{
    let mut d: Vec<u8> = Vec::new();
    let mut i: usize = 0;
    while i < v.len()
        invariant
            i <= v@.len(),
            d@.len() == i,
            forall|k: int| 0 <= k < i ==> is_hex_digit(#[trigger] v@[k]),
            forall|k: int| 0 <= k < i ==> (#[trigger] d@[k]) as nat == hex_value(v@[k]) && d@[k] < 16,
        decreases v@.len() - i,
    {
        match hex_digit(v[i]) {
            Some(x) => d.push(x),
            None => return None,
        }
        i = i + 1;
    }
    Some(d)
}

impl Solid {
    /// The color of four 8-bit channels.
    pub fn from_rgba8(r: u8, g: u8, b: u8, a: u8) -> (c: Solid)
        ensures
            c == rgba8(r, g, b, a),
    {
        Solid::Rgba(
            Channels {
                r: Number { negative: false, num: r as u64, den: 255 },
                g: Number { negative: false, num: g as u64, den: 255 },
                b: Number { negative: false, num: b as u64, den: 255 },
                a: Number { negative: false, num: a as u64, den: 255 },
            },
        )
    }
}

/// Parses hex digits (without `#`) into a color.
pub fn parse_hex(v: &Vec<char>) -> (r: Result<Solid, Error>)
    ensures
        match hex_of(v@) {
            Ok(c) => r == Ok::<Solid, Error>(c),
            Err(k) => r is Err && r->Err_0.spec_kind() == k && r->Err_0.spec_message() == v@,
        },
{
    let n = v.len();
    if n != 3 && n != 4 && n != 6 && n != 8 {
        return Err(fail(ErrorKind::InvalidHex, v));
    }
    let d = match hex_digits(v) {
        Some(d) => d,
        None => return Err(fail(ErrorKind::InvalidHex, v)),
    };
    if n == 3 || n == 4 {
        let a = if n == 4 {
            17 * d[3]
        } else {
            255
        };
        Ok(Solid::from_rgba8(17 * d[0], 17 * d[1], 17 * d[2], a))
    } else {
        let a = if n == 8 {
            16 * d[6] + d[7]
        } else {
            255
        };
        Ok(Solid::from_rgba8(16 * d[0] + d[1], 16 * d[2] + d[3], 16 * d[4] + d[5], a))
    }
}

/// The alpha argument, if any (see `alpha_arg`).
fn parse_alpha(p: &Vec<Vec<char>>) -> (r: Option<(Number, bool)>)
    requires
        p@.len() == 3 || p@.len() == 4,
    ensures
        r == alpha_arg(crate::text::views(p@)),
{
    if p.len() == 4 {
        parse_percent_or_float(&p[3])
    } else {
        Some((Number { negative: false, num: 1, den: 1 }, true))
    }
}

/// The channels of `rgb(...)` arguments (see `rgb_channels`).
pub fn parse_rgb_or_rgba(p: &Vec<Vec<char>>) -> (r: Option<Channels>)
    ensures
        r == rgb_channels(crate::text::views(p@)),
{
    if p.len() != 3 && p.len() != 4 {
        return None;
    }
    let r = parse_percent_or_255(&p[0]);
    let g = parse_percent_or_255(&p[1]);
    let b = parse_percent_or_255(&p[2]);
    let a = parse_alpha(p);
    match (r, g, b, a) {
        (Some((r, fr)), Some((g, fg)), Some((b, fb)), Some((a, _))) => {
            if fr == fg && fg == fb {
                Some(
                    Channels {
                        r: clamp_unit(r),
                        g: clamp_unit(g),
                        b: clamp_unit(b),
                        a: clamp_unit(a),
                    },
                )
            } else {
                None
            }
        },
        _ => None,
    }
}

/// The color of `hsl(...)` arguments (see `hsl_color`).
pub fn parse_hsl_or_hsla(p: &Vec<Vec<char>>) -> (r: Option<Solid>)
    ensures
        r == hsl_color(crate::text::views(p@)),
{
    if p.len() != 3 && p.len() != 4 {
        return None;
    }
    let h = parse_angle(&p[0]);
    let s = parse_percent_or_float(&p[1]);
    let l = parse_percent_or_float(&p[2]);
    let a = parse_alpha(p);
    match (h, s, l, a) {
        (Some(h), Some((s, fs)), Some((l, fl)), Some((a, _))) => {
            if fs == fl {
                Some(Solid::Hsla { h, s: clamp_unit(s), l: clamp_unit(l), a: clamp_unit(a) })
            } else {
                None
            }
        },
        _ => None,
    }
}

/// Whether a parse result of `s` agrees with its specification: the same
/// color, or an error of the same kind carrying `solid_message(s)`.
pub open spec fn agrees(r: Result<Solid, Error>, s: Seq<char>) -> bool {
    match solid_of(s) {
        Ok(c) => r == Ok::<Solid, Error>(c),
        Err(k) => r is Err && r->Err_0.spec_kind() == k && r->Err_0.spec_message()
            == solid_message(s),
    }
}

/// The text that an error about `s` carries: `s` trimmed and in lower case,
/// or, for a `#` literal, the digits after the `#`.
pub open spec fn solid_message(s: Seq<char>) -> Seq<char> {
    let t = normalized(s);
    if t.len() > 0 && t[0] == '#' {
        t.drop_first()
    } else {
        t
    }
}

/// Parses a solid color given as characters (see `solid_of`).
#[verifier::rlimit(80)]
pub fn parse_solid_chars(s: &Vec<char>) -> (r: Result<Solid, Error>)
    ensures
        agrees(r, s@),
    decreases s@.len(),
{
    let tr = trim(s);
    let t = to_ascii_lowercase(&tr);
    assert(t@ == normalized(s@));
    let n = t.len();
    if n > 0 && t[0] == '#' {
        let digits = copy_range(&t, 1, n);
        assert(digits@ =~= t@.drop_first());
        return parse_hex(&digits);
    }
    let open = find_char(&t, '(');
    if open.is_some() && n > 0 && t[n - 1] == ')' {
        let i = open.unwrap();
        let head = copy_range(&t, 0, i);
        let name = trim_end_chars(&head);
        let args = copy_range(&t, i + 1, n - 1);
        assert(name@ == call_name(t@));
        assert(args@ == call_args(t@));
        if equals_str(&name, "rgb") || equals_str(&name, "rgba") {
            let p = split_args(&args);
            return match parse_rgb_or_rgba(&p) {
                Some(c) => Ok(Solid::Rgba(c)),
                None => Err(fail(ErrorKind::InvalidRgb, &t)),
            };
        }
        if equals_str(&name, "hsl") || equals_str(&name, "hsla") {
            let p = split_args(&args);
            return match parse_hsl_or_hsla(&p) {
                Some(c) => Ok(c),
                None => Err(fail(ErrorKind::InvalidHsl, &t)),
            };
        }
        let is_darken = equals_str(&name, "darken");
        let is_lighten = equals_str(&name, "lighten");
        if is_darken || is_lighten {
            let kind = if is_lighten {
                ErrorKind::InvalidLighten
            } else {
                ErrorKind::InvalidDarken
            };
            let comma = match rfind_char(&args, ',') {
                Some(k) => k,
                None => return Err(fail(kind, &t)),
            };
            let color = trim(&copy_range(&args, 0, comma));
            let amount_text = trim(&copy_range(&args, comma + 1, args.len()));
            proof {
                lemma_shift_shorter(s@);
            }
            let base = parse_solid_chars(&color);
            let amount = match parse_percent_or_float(&amount_text) {
                Some((a, true)) => if a.negative {
                    None
                } else {
                    Some(a)
                },
                _ => None,
            };
            return match (base, amount) {
                (Ok(base), Some(amount)) => Ok(
                    Solid::Shift { base: Box::new(base), amount, lighten: is_lighten },
                ),
                _ => Err(fail(kind, &t)),
            };
        }
        return Err(fail(ErrorKind::InvalidFunction, &t));
    }
    if let Ok(c) = parse_hex(&t) {
        return Ok(c);
    }
    if equals_str(&t, "transparent") {
        let z = Number { negative: false, num: 0, den: 1 };
        return Ok(Solid::Rgba(Channels { r: z, g: z, b: z, a: z }));
    }
    if equals_str(&t, "accent") {
        return Ok(Solid::Accent { active: true });
    }
    if equals_str(&t, "accent_inactive") {
        return Ok(Solid::Accent { active: false });
    }
    if let Some((r, g, b)) = lookup_named(&t) {
        return Ok(Solid::from_rgba8(r, g, b, 255));
    }
    match parse_hex(&t) {
        Ok(c) => Ok(c),
        Err(_) => Err(fail(ErrorKind::InvalidUnknown, &t)),
    }
}

/// An exact channel scaled to 8 bits and rounded half up, as `x * 255 + 0.5`
/// truncated; negative values give 0 and values above 1 give 255.
pub open spec fn to_byte(n: Number) -> u8 {
    if n.negative || n.den == 0 {
        0
    } else {
        let v = (n.num * 510 + n.den) / (2 * n.den);
        if v > 255 {
            255
        } else {
            v as u8
        }
    }
}

/// The lower-case hex digit of `d < 16`.
pub open spec fn hex_char(d: nat) -> char {
    if d < 10 {
        ((d + 48) as u8) as char
    } else {
        ((d + 87) as u8) as char
    }
}

/// Two lower-case hex digits of a byte.
pub open spec fn hex2(b: u8) -> Seq<char> {
    seq![hex_char(b as nat / 16), hex_char(b as nat % 16)]
}

/// `#rrggbb`, or `#rrggbbaa` when alpha is below 255.
pub open spec fn hex_string(c: Channels) -> Seq<char> {
    let a = to_byte(c.a);
    seq!['#'] + hex2(to_byte(c.r)) + hex2(to_byte(c.g)) + hex2(to_byte(c.b)) + if a < 255 {
        hex2(a)
    } else {
        Seq::<char>::empty()
    }
}

/// Rounds an exact channel to 8 bits (see `to_byte`).
pub fn channel_to_byte(n: Number) -> (r: u8)
    ensures
        r == to_byte(n),
{
    if n.negative || n.den == 0 {
        return 0;
    }
    let v: u128 = (n.num as u128 * 510 + n.den as u128) / (2 * n.den as u128);
    if v > 255 {
        255
    } else {
        v as u8
    }
}

fn push_hex2(out: &mut Vec<char>, b: u8)
    ensures
        final(out)@ == old(out)@ + hex2(b),
{
    let hi = b / 16;
    let lo = b % 16;
    let h = if hi < 10 {
        (hi + 48) as char
    } else {
        (hi + 87) as char
    };
    let l = if lo < 10 {
        (lo + 48) as char
    } else {
        (lo + 87) as char
    };
    out.push(h);
    out.push(l);
    assert(final(out)@ =~= old(out)@ + hex2(b));
}

impl Channels {
    /// The four channels rounded to 8 bits.
    pub fn to_rgba8(&self) -> (r: [u8; 4])
        ensures
            r@ == seq![to_byte(self.r), to_byte(self.g), to_byte(self.b), to_byte(self.a)],
    {
        let r = [
            channel_to_byte(self.r),
            channel_to_byte(self.g),
            channel_to_byte(self.b),
            channel_to_byte(self.a),
        ];
        assert(r@ =~= seq![to_byte(self.r), to_byte(self.g), to_byte(self.b), to_byte(self.a)]);
        r
    }

    /// The hex string of the color: `#rrggbb`, or `#rrggbbaa` when alpha is
    /// below 255 once rounded to 8 bits.
    pub fn to_hex_string(&self) -> (r: String)
        ensures
            r@ == hex_string(*self),
    {
        let mut out: Vec<char> = Vec::new();
        out.push('#');
        push_hex2(&mut out, channel_to_byte(self.r));
        push_hex2(&mut out, channel_to_byte(self.g));
        push_hex2(&mut out, channel_to_byte(self.b));
        let a = channel_to_byte(self.a);
        if a < 255 {
            push_hex2(&mut out, a);
        }
        assert(out@ =~= hex_string(*self));
        string_of(out.as_slice())
    }
}

impl Solid {
    /// The hex string of a color with exact channels; `None` for the forms
    /// that need floating-point arithmetic to finish.
    pub fn to_hex_string(&self) -> (r: Option<String>)
        ensures
            match self {
                Solid::Rgba(c) => r is Some && r->Some_0@ == hex_string(*c),
                _ => r is None,
            },
    {
        match self {
            Solid::Rgba(c) => Some(c.to_hex_string()),
            _ => None,
        }
    }
}

/// Hex digits as a color literal takes them: 3, 4, 6 or 8 of them.
pub open spec fn is_hex_literal(s: Seq<char>) -> bool {
    (s.len() == 3 || s.len() == 4 || s.len() == 6 || s.len() == 8) && forall|i: int|
        0 <= i < s.len() ==> is_hex_digit(#[trigger] s[i])
}

/// The digits in lower case, each digit of a short form written twice.
pub open spec fn expand_hex(s: Seq<char>) -> Seq<char> {
    if s.len() == 3 || s.len() == 4 {
        Seq::new(2 * s.len(), |i: int| lower_char(s[i / 2]))
    } else {
        ascii_lower(s)
    }
}

/// The canonical hex string of a literal: `#`, the expanded digits, and the
/// alpha pair only when it is not `ff`.
pub open spec fn canonical_hex(s: Seq<char>) -> Seq<char> {
    let e = expand_hex(s);
    if e.len() == 8 && !(e[6] == 'f' && e[7] == 'f') {
        seq!['#'] + e
    } else {
        seq!['#'] + e.subrange(0, 6)
    }
}

proof fn lemma_hex_char(c: char)
    requires
        is_hex_digit(c),
    ensures
        hex_value(c) < 16,
        hex_char(hex_value(c)) == lower_char(c),
        is_hex_digit(lower_char(c)),
        hex_value(lower_char(c)) == hex_value(c),
        hex_value(c) == 15 <==> lower_char(c) == 'f',
{
}

proof fn lemma_byte(v: u8)
    ensures
        to_byte(byte(v)) == v,
{
    let x = v as int;
    assert((x * 510 + 255) / 510 == x) by (nonlinear_arith)
        requires
            0 <= x <= 255,
    ;
}

proof fn lemma_hex2(a: nat, b: nat)
    requires
        a < 16,
        b < 16,
    ensures
        hex2((16 * a + b) as u8) == seq![hex_char(a), hex_char(b)],
{
    assert((16 * a + b) / 16 == a && (16 * a + b) % 16 == b) by (nonlinear_arith)
        requires
            a < 16,
            b < 16,
    ;
}

proof fn lemma_normalized_hex(s: Seq<char>)
    requires
        is_hex_literal(s),
    ensures
        normalized(seq!['#'] + s) == seq!['#'] + ascii_lower(s),
{
    let t = seq!['#'] + s;
    assert(!is_space(t[0]));
    assert(trim_start(t) == t);
    assert(t.last() == s.last());
    assert(is_hex_digit(s[s.len() - 1]));
    assert(trim_end(t) == t);
    assert(ascii_lower(t) =~= seq!['#'] + ascii_lower(s));
}

proof fn lemma_hex_digits_lower(s: Seq<char>)
    requires
        is_hex_literal(s),
    ensures
        forall|i: int|
            0 <= i < s.len() ==> is_hex_digit(#[trigger] ascii_lower(s)[i]) && hex_value(
                ascii_lower(s)[i],
            ) == hex_value(s[i]) && hex_char(hex_value(s[i])) == ascii_lower(s)[i] && hex_value(
                s[i],
            ) < 16 && (hex_value(s[i]) == 15 <==> ascii_lower(s)[i] == 'f'),
{
    assert forall|i: int| 0 <= i < s.len() implies is_hex_digit(#[trigger] ascii_lower(s)[i])
        && hex_value(ascii_lower(s)[i]) == hex_value(s[i]) && hex_char(hex_value(s[i]))
        == ascii_lower(s)[i] && hex_value(s[i]) < 16 && (hex_value(s[i]) == 15 <==> ascii_lower(
        s,
    )[i] == 'f') by {
        lemma_hex_char(s[i]);
    }
}

proof fn lemma_hash_dispatch(s: Seq<char>)
    requires
        is_hex_literal(s),
    ensures
        solid_of(seq!['#'] + s) == hex_of(ascii_lower(s)),
{
    lemma_normalized_hex(s);
    let t = seq!['#'] + ascii_lower(s);
    assert(t.drop_first() =~= ascii_lower(s));
}

proof fn lemma_short_round_trip(s: Seq<char>)
    requires
        is_hex_literal(s),
        s.len() == 3 || s.len() == 4,
    ensures
        hex_of(ascii_lower(s)) matches Ok(Solid::Rgba(c)) && hex_string(c) == canonical_hex(s),
{
    let l = ascii_lower(s);
    lemma_hex_digits_lower(s);
    let e = expand_hex(s);
    let a = if s.len() == 4 {
        short_channel(l, 3)
    } else {
        255u8
    };
    let c = Channels {
        r: byte(short_channel(l, 0)),
        g: byte(short_channel(l, 1)),
        b: byte(short_channel(l, 2)),
        a: byte(a),
    };
    assert(hex_of(l) == Ok::<Solid, ErrorKind>(Solid::Rgba(c)));
    lemma_byte(short_channel(l, 0));
    lemma_byte(short_channel(l, 1));
    lemma_byte(short_channel(l, 2));
    lemma_byte(a);
    lemma_hex2(hex_value(s[0]), hex_value(s[0]));
    lemma_hex2(hex_value(s[1]), hex_value(s[1]));
    lemma_hex2(hex_value(s[2]), hex_value(s[2]));
    if s.len() == 4 {
        lemma_hex2(hex_value(s[3]), hex_value(s[3]));
        assert(e =~= seq![l[0], l[0], l[1], l[1], l[2], l[2], l[3], l[3]]);
    } else {
        assert(e =~= seq![l[0], l[0], l[1], l[1], l[2], l[2]]);
    }
    assert(hex_string(c) =~= canonical_hex(s));
}

proof fn lemma_long_round_trip(s: Seq<char>)
    requires
        is_hex_literal(s),
        s.len() == 6 || s.len() == 8,
    ensures
        hex_of(ascii_lower(s)) matches Ok(Solid::Rgba(c)) && hex_string(c) == canonical_hex(s),
{
    let l = ascii_lower(s);
    lemma_hex_digits_lower(s);
    let a = if s.len() == 8 {
        long_channel(l, 6)
    } else {
        255u8
    };
    let c = Channels {
        r: byte(long_channel(l, 0)),
        g: byte(long_channel(l, 2)),
        b: byte(long_channel(l, 4)),
        a: byte(a),
    };
    assert(hex_of(l) == Ok::<Solid, ErrorKind>(Solid::Rgba(c)));
    lemma_byte(long_channel(l, 0));
    lemma_byte(long_channel(l, 2));
    lemma_byte(long_channel(l, 4));
    lemma_byte(a);
    lemma_hex2(hex_value(s[0]), hex_value(s[1]));
    lemma_hex2(hex_value(s[2]), hex_value(s[3]));
    lemma_hex2(hex_value(s[4]), hex_value(s[5]));
    if s.len() == 8 {
        lemma_hex2(hex_value(s[6]), hex_value(s[7]));
    }
    assert(hex_string(c) =~= canonical_hex(s));
}

/// Any 3, 4, 6 or 8 hex digits after `#` parse to a color whose hex string is
/// the canonical form of those digits: in lower case, a short form written out
/// in full, and an alpha of `ff` left out.
pub proof fn lemma_hex_round_trip(s: Seq<char>)
    requires
        is_hex_literal(s),
    ensures
        solid_of(seq!['#'] + s) matches Ok(Solid::Rgba(c)) && hex_string(c) == canonical_hex(s),
{
    lemma_hash_dispatch(s);
    if s.len() == 3 || s.len() == 4 {
        lemma_short_round_trip(s);
    } else {
        lemma_long_round_trip(s);
    }
}

/// An exact channel scaled to 16 bits and rounded half up; negative values
/// give 0 and values above 1 give 65535.
pub open spec fn to_word(n: Number) -> u16 {
    if n.negative || n.den == 0 {
        0
    } else {
        let v = (n.num * 131070 + n.den) / (2 * n.den);
        if v > 65535 {
            65535
        } else {
            v as u16
        }
    }
}

/// An 8-bit channel widened to 16 bits: `v * 257`, so 255 becomes 65535.
pub open spec fn widen(v: u8) -> u16 {
    (v * 257) as u16
}

/// A 16-bit channel narrowed to 8 bits: `v / 257`, rounded to nearest.
pub open spec fn narrow(v: u16) -> u8 {
    ((2 * v + 257) / 514) as u8
}

/// Rounds an exact channel to 16 bits (see `to_word`).
pub fn channel_to_word(n: Number) -> (r: u16)
    ensures
        r == to_word(n),
{
    if n.negative || n.den == 0 {
        return 0;
    }
    let v: u128 = (n.num as u128 * 131070 + n.den as u128) / (2 * n.den as u128);
    if v > 65535 {
        65535
    } else {
        v as u16
    }
}

/// Widens four 8-bit channels to 16 bits (see `widen`).
pub fn rgba8_to_rgba16(c: [u8; 4]) -> (r: [u16; 4])
    ensures
        forall|i: int| 0 <= i < 4 ==> r@[i] == widen(#[trigger] c@[i]),
{
    let r = [c[0] as u16 * 257, c[1] as u16 * 257, c[2] as u16 * 257, c[3] as u16 * 257];
    assert(forall|i: int| 0 <= i < 4 ==> r@[i] == widen(#[trigger] c@[i])) by {
        assert(r@[0] == widen(c@[0]));
        assert(r@[1] == widen(c@[1]));
        assert(r@[2] == widen(c@[2]));
        assert(r@[3] == widen(c@[3]));
    }
    r
}

fn narrow_one(v: u16) -> (r: u8)
    ensures
        r == narrow(v),
{
    assert((2 * v + 257) / 514 <= 255) by (nonlinear_arith)
        requires
            v <= 65535,
    ;
    ((2 * v as u32 + 257) / 514) as u8
}

/// Narrows four 16-bit channels to 8 bits (see `narrow`).
pub fn rgba16_to_rgba8(c: [u16; 4]) -> (r: [u8; 4])
    ensures
        forall|i: int| 0 <= i < 4 ==> r@[i] == narrow(#[trigger] c@[i]),
{
    let r = [narrow_one(c[0]), narrow_one(c[1]), narrow_one(c[2]), narrow_one(c[3])];
    assert(forall|i: int| 0 <= i < 4 ==> r@[i] == narrow(#[trigger] c@[i])) by {
        assert(r@[0] == narrow(c@[0]));
        assert(r@[1] == narrow(c@[1]));
        assert(r@[2] == narrow(c@[2]));
        assert(r@[3] == narrow(c@[3]));
    }
    r
}

/// Widening an 8-bit channel to 16 bits and narrowing it back gives it again.
pub proof fn lemma_widen_narrow(v: u8)
    ensures
        narrow(widen(v)) == v,
{
    let x = v as int;
    assert((2 * (x * 257) + 257) / 514 == x) by (nonlinear_arith)
        requires
            0 <= x <= 255,
    ;
}

impl Channels {
    /// The four channels rounded to 16 bits.
    pub fn to_rgba16(&self) -> (r: [u16; 4])
        ensures
            r@ == seq![to_word(self.r), to_word(self.g), to_word(self.b), to_word(self.a)],
    {
        let r = [
            channel_to_word(self.r),
            channel_to_word(self.g),
            channel_to_word(self.b),
            channel_to_word(self.a),
        ];
        assert(r@ =~= seq![to_word(self.r), to_word(self.g), to_word(self.b), to_word(self.a)]);
        r
    }
}

impl Solid {
    /// The color of four 16-bit channels.
    pub fn from_rgba16(r: u16, g: u16, b: u16, a: u16) -> (c: Solid)
        ensures
            c == Solid::Rgba(
                Channels {
                    r: Number { negative: false, num: r as u64, den: 65535 },
                    g: Number { negative: false, num: g as u64, den: 65535 },
                    b: Number { negative: false, num: b as u64, den: 65535 },
                    a: Number { negative: false, num: a as u64, den: 65535 },
                },
            ),
    {
        Solid::Rgba(
            Channels {
                r: Number { negative: false, num: r as u64, den: 65535 },
                g: Number { negative: false, num: g as u64, den: 65535 },
                b: Number { negative: false, num: b as u64, den: 65535 },
                a: Number { negative: false, num: a as u64, den: 65535 },
            },
        )
    }
}

/// A channel in `[0, 1]` that rounds to the 8-bit value `x` lies within
/// 1/255 of `x / 255`: so a percentage written for the same 8-bit color as an
/// absolute `rgb()` value gives a channel at most 1/255 away from it.
pub proof fn lemma_same_byte_close(p: Number, x: u8)
    requires
        !p.negative,
        p.den > 0,
        p.num <= p.den,
        to_byte(p) == x,
    ensures
        -(p.den as int) <= 255 * (p.num as int) - (x as int) * (p.den as int) <= p.den as int,
{
    let n = p.num as int;
    let d = p.den as int;
    let q = (n * 510 + d) / (2 * d);
    assert(q <= 255) by (nonlinear_arith)
        requires
            0 <= n <= d,
            d > 0,
            q == (n * 510 + d) / (2 * d),
    ;
    assert(q == x as int);
    assert(q * (2 * d) <= n * 510 + d < (q + 1) * (2 * d)) by (nonlinear_arith)
        requires
            d > 0,
            n >= 0,
            q == (n * 510 + d) / (2 * d),
    ;
    assert(-d <= 255 * n - q * d <= d) by (nonlinear_arith)
        requires
            d > 0,
            q * (2 * d) <= n * 510 + d < (q + 1) * (2 * d),
    ;
}

impl Solid {
    /// A copy of the color.
    pub(crate) fn duplicate(&self) -> (r: Solid)
        ensures
            r == *self,
        decreases self,
    {
        match self {
            Solid::Rgba(c) => Solid::Rgba(*c),
            Solid::Hsla { h, s, l, a } => Solid::Hsla { h: *h, s: *s, l: *l, a: *a },
            Solid::Accent { active } => Solid::Accent { active: *active },
            Solid::Shift { base, amount, lighten } => Solid::Shift {
                base: Box::new((**base).duplicate()),
                amount: *amount,
                lighten: *lighten,
            },
        }
    }
}

impl Clone for Solid {
    fn clone(&self) -> (r: Solid)
        ensures
            r == *self,
    {
        self.duplicate()
    }
}

/// The text `name(c, p%)`.
pub open spec fn shift_text(name: Seq<char>, c: Seq<char>, p: Seq<char>) -> Seq<char> {
    name + seq!['('] + c + seq![',', ' '] + p + seq!['%', ')']
}

pub open spec fn darken_name() -> Seq<char> {
    seq!['d', 'a', 'r', 'k', 'e', 'n']
}

proof fn lemma_shift_text_normal(c: Seq<char>, p: Seq<char>)
    requires
        trimmed(c) == c,
        ascii_lower(c) == c,
        ascii_lower(p) == p,
        decimal(p) is Some,
    ensures
        normalized(shift_text(darken_name(), c, p)) == shift_text(darken_name(), c, p),
{
    let t = shift_text(darken_name(), c, p);
    lemma_decimal_chars(p);
    assert(t[0] == 'd');
    assert(!is_space(t[0]));
    assert(trim_start(t) == t);
    assert(t.last() == ')');
    assert(trim_end(t) == t);
    let k = 7 + c.len();
    assert forall|i: int| 0 <= i < t.len() implies lower_char(#[trigger] t[i]) == t[i] by {
        if 7 <= i < k {
            assert(t[i] == c[i - 7]);
            assert(ascii_lower(c)[i - 7] == lower_char(c[i - 7]));
        } else if k + 2 <= i < k + 2 + p.len() {
            assert(t[i] == p[i - k - 2]);
            assert(ascii_lower(p)[i - k - 2] == lower_char(p[i - k - 2]));
        }
    }
    assert(ascii_lower(t) =~= t);
}

proof fn lemma_darken_call(c: Seq<char>, p: Seq<char>)
    ensures
        is_call(shift_text(darken_name(), c, p)),
        call_name(shift_text(darken_name(), c, p)) == "darken"@,
        call_args(shift_text(darken_name(), c, p)) == c + seq![','] + (seq![' '] + p + seq!['%']),
        shift_text(darken_name(), c, p)[0] != '#',
{
    let t = shift_text(darken_name(), c, p);
    assert forall|j: int| 0 <= j < 6 implies t[j] != '(' by {}
    lemma_index_of(t, '(', 6);
    assert(t.subrange(0, 6) =~= darken_name());
    assert(!is_space(darken_name().last()));
    reveal_strlit("darken");
    assert(darken_name() =~= "darken"@);
    assert(call_args(t) =~= c + seq![','] + (seq![' '] + p + seq!['%']));
}

proof fn lemma_darken_args(c: Seq<char>, p: Seq<char>)
    requires
        trimmed(c) == c,
        decimal(p) matches Some(n) && !n.negative,
    ensures
        last_index_of(c + seq![','] + (seq![' '] + p + seq!['%']), ',') == c.len(),
        shift_color(c + seq![','] + (seq![' '] + p + seq!['%'])) == c,
        shift_amount(c + seq![','] + (seq![' '] + p + seq!['%'])) == Some(
            scaled(decimal(p)->Some_0, 100),
        ),
{
    lemma_decimal_chars(p);
    let k = c.len() as int;
    let rest = seq![' '] + p + seq!['%'];
    let args = c + seq![','] + rest;
    assert forall|j: int| k + 1 <= j < args.len() implies args[j] != ',' by {
        if k + 2 <= j < k + 2 + p.len() {
            assert(args[j] == p[j - k - 2]);
        }
    }
    lemma_last_index_of(args, ',', k + 1);
    assert(args.subrange(0, k + 1).last() == ',');
    assert(last_index_of(args, ',') == k);
    assert(args.subrange(0, k) =~= c);
    assert(args.subrange(k + 1, args.len() as int) =~= rest);
    assert(rest.drop_first() =~= p + seq!['%']);
    let q = p + seq!['%'];
    assert(!is_space(q[0]));
    assert(trim_start(q) == q);
    assert(trim_start(rest) == trim_start(rest.drop_first()));
    assert(trim_start(rest) == q);
    assert(trim_end(q) == q);
    assert(q.subrange(q.len() - 1, q.len() as int) =~= seq!['%']);
    assert(has_suffix(q, seq!['%']));
    assert(drop_end(q, 1) =~= p);
}

/// `darken(c, p%)`, for a color text `c` already trimmed and in lower case
/// and a non-negative number `p` in lower case, is the color of `c` with its lightness to
/// be lowered by exactly `p` points: the amount is `p / 100` as written, with
/// no clamping.
pub proof fn lemma_darken_amount(c: Seq<char>, p: Seq<char>)
    requires
        trimmed(c) == c,
        ascii_lower(c) == c,
        ascii_lower(p) == p,
        solid_of(c) is Ok,
        decimal(p) matches Some(n) && !n.negative,
    ensures
        solid_of(shift_text(darken_name(), c, p)) == Ok::<Solid, ErrorKind>(
            Solid::Shift {
                base: Box::new(solid_of(c)->Ok_0),
                amount: scaled(decimal(p)->Some_0, 100),
                lighten: false,
            },
        ),
{
    lemma_shift_text_normal(c, p);
    lemma_darken_call(c, p);
    lemma_darken_args(c, p);
    lemma_darken_not_other();
}

proof fn lemma_darken_not_other()
    ensures
        "darken"@ != "lighten"@,
        "darken"@ != "rgb"@,
        "darken"@ != "rgba"@,
        "darken"@ != "hsl"@,
        "darken"@ != "hsla"@,
{
    reveal_strlit("darken");
    reveal_strlit("lighten");
    reveal_strlit("rgb");
    reveal_strlit("rgba");
    reveal_strlit("hsl");
    reveal_strlit("hsla");
    assert("darken"@.len() == 6);
    assert("lighten"@.len() == 7);
    assert("rgb"@.len() == 3);
    assert("rgba"@.len() == 4);
    assert("hsl"@.len() == 3);
    assert("hsla"@.len() == 4);
}

impl Channels {
    /// The name of the color, when its red, green and blue channels rounded
    /// to 8 bits are those of a named color (alpha is not looked at); where
    /// several names share the channels (`aqua` and `cyan`), the first in
    /// alphabetical order. Each of red, green and blue is compared with the
    /// same channel of the table: a lookup that compared red with blue and
    /// green with red would name colors wrongly, and this one does not.
    pub fn name(&self) -> (n: Option<&'static str>)
        ensures
            match name_of_rgb(to_byte(self.r), to_byte(self.g), to_byte(self.b)) {
                Some(s) => n is Some && n->Some_0@ == s,
                None => n is None,
            },
    {
        lookup_name(channel_to_byte(self.r), channel_to_byte(self.g), channel_to_byte(self.b))
    }
}

proof fn lemma_bare_dispatch(s: Seq<char>)
    requires
        is_hex_literal(s),
    ensures
        solid_of(s) == hex_of(ascii_lower(s)),
{
    let t = ascii_lower(s);
    lemma_hex_digits_lower(s);
    assert(is_hex_digit(s[0]) && !is_space(s[0]));
    assert(trim_start(s) == s);
    assert(is_hex_digit(s[s.len() - 1]));
    assert(trim_end(s) == s);
    assert(normalized(s) == t);
    assert(is_hex_digit(t[0]));
    assert(is_hex_digit(t[t.len() - 1]));
    assert(!is_call(t));
    assert(hex_channels(t) is Some);
}

/// Any 3, 4, 6 or 8 hex digits without `#` parse, as with it, to a color
/// whose hex string is the canonical form of the digits.
pub proof fn lemma_bare_hex_round_trip(s: Seq<char>)
    requires
        is_hex_literal(s),
    ensures
        solid_of(s) matches Ok(Solid::Rgba(c)) && hex_string(c) == canonical_hex(s),
{
    lemma_bare_dispatch(s);
    if s.len() == 3 || s.len() == 4 {
        lemma_short_round_trip(s);
    } else {
        lemma_long_round_trip(s);
    }
}

/// `t` is an absolute channel value written as the integer `x`.
pub open spec fn absolute_token(t: Seq<char>, x: u8) -> bool {
    !has_suffix(t, seq!['%']) && decimal(t) == Some(Number { negative: false, num: x as u64, den: 1 })
}

/// `t` is a percentage in `[0, 100]` that rounds to the 8-bit value `x`.
pub open spec fn percent_token(t: Seq<char>, x: u8) -> bool {
    has_suffix(t, seq!['%']) && match decimal(drop_end(t, 1)) {
        Some(n) => !n.negative && n.num <= 100 * n.den && to_byte(scaled(n, 100)) == x,
        None => false,
    }
}

/// `p` lies within 1/255 of `x / 255`.
pub open spec fn within_step(p: Number, x: u8) -> bool {
    -(p.den as int) <= 255 * (p.num as int) - (x as int) * (p.den as int) <= p.den as int
}

proof fn lemma_percent_channel(t: Seq<char>, x: u8)
    requires
        percent_token(t, x),
    ensures
        percent_or_255(t) matches Some((c, true)) && clamp01(c) == c && within_step(c, x),
{
    let n = decimal(drop_end(t, 1))->Some_0;
    crate::number::lemma_decimal_bounds(drop_end(t, 1));
    let c = scaled(n, 100);
    assert(c.den == n.den * 100);
    assert(c.num <= c.den);
    lemma_same_byte_close(c, x);
}

/// `rgb()` with three absolute integer channels and `rgb()` with three
/// percentages, each rounding to the same 8-bit value, give channels within
/// 1/255 of each other, both fully opaque: the first exactly `x / 255`.
pub proof fn lemma_rgb_percent_close(a: Seq<Seq<char>>, q: Seq<Seq<char>>, x: Seq<u8>)
    requires
        a.len() == 3,
        q.len() == 3,
        x.len() == 3,
        forall|i: int| 0 <= i < 3 ==> absolute_token(#[trigger] a[i], x[i]),
        forall|i: int| 0 <= i < 3 ==> percent_token(#[trigger] q[i], x[i]),
    ensures
        rgb_channels(a) == Some(Channels { r: byte(x[0]), g: byte(x[1]), b: byte(x[2]), a: one() }),
        rgb_channels(q) matches Some(c) && within_step(c.r, x[0]) && within_step(c.g, x[1])
            && within_step(c.b, x[2]) && c.a == one(),
{
    assert(absolute_token(a[0], x[0]) && absolute_token(a[1], x[1]) && absolute_token(a[2], x[2]));
    assert(percent_token(q[0], x[0]) && percent_token(q[1], x[1]) && percent_token(q[2], x[2]));
    lemma_percent_channel(q[0], x[0]);
    lemma_percent_channel(q[1], x[1]);
    lemma_percent_channel(q[2], x[2]);
}

/// The text `rgb(a0,a1,a2)`.
pub open spec fn rgb_text(a: Seq<Seq<char>>) -> Seq<char> {
    seq!['r', 'g', 'b', '('] + a[0] + seq![','] + a[1] + seq![','] + a[2] + seq![')']
}

/// A token made of what numbers and percentages are written with, in lower case.
pub open spec fn plain_token(t: Seq<char>) -> bool {
    t.len() > 0 && forall|i: int|
        0 <= i < t.len() ==> is_digit(#[trigger] t[i]) || t[i] == '.' || t[i] == '+' || t[i]
            == '-' || t[i] == 'e' || t[i] == '%'
}

proof fn lemma_plain_absolute(t: Seq<char>, x: u8)
    requires
        absolute_token(t, x),
        ascii_lower(t) == t,
    ensures
        plain_token(t),
{
    lemma_decimal_chars(t);
    assert forall|i: int| 0 <= i < t.len() implies t[i] != 'E' by {
        assert(ascii_lower(t)[i] == lower_char(t[i]));
    }
}

proof fn lemma_plain_percent(t: Seq<char>, x: u8)
    requires
        percent_token(t, x),
        ascii_lower(t) == t,
    ensures
        plain_token(t),
{
    let d = drop_end(t, 1);
    lemma_decimal_chars(d);
    assert(t[t.len() - 1] == '%') by {
        assert(t.subrange(t.len() - 1, t.len() as int) =~= seq!['%']);
        assert(t.subrange(t.len() - 1, t.len() as int)[0] == t[t.len() - 1]);
    }
    assert forall|i: int| 0 <= i < t.len() implies is_digit(#[trigger] t[i]) || t[i] == '.'
        || t[i] == '+' || t[i] == '-' || t[i] == 'e' || t[i] == '%' by {
        assert(ascii_lower(t)[i] == lower_char(t[i]));
        if i < t.len() - 1 {
            assert(t[i] == d[i]);
        }
    }
}

proof fn lemma_rgb_args(a: Seq<Seq<char>>)
    requires
        a.len() == 3,
        forall|i: int| 0 <= i < 3 ==> plain_token(#[trigger] a[i]),
    ensures
        arg_tokens(a[0] + seq![','] + a[1] + seq![','] + a[2]) == a,
{
    assert(plain_token(a[0]) && plain_token(a[1]) && plain_token(a[2]));
    let t2 = a[2];
    let r1 = seq![','] + t2;
    let t1r = a[1] + r1;
    let r0 = seq![','] + t1r;
    assert(forall|i: int| 0 <= i < a[0].len() ==> !is_arg_sep(#[trigger] a[0][i]));
    assert(forall|i: int| 0 <= i < a[1].len() ==> !is_arg_sep(#[trigger] a[1][i]));
    assert(forall|i: int| 0 <= i < a[2].len() ==> !is_arg_sep(#[trigger] a[2][i]));
    lemma_tokens_cons(t2, Seq::<char>::empty());
    assert(t2 + Seq::<char>::empty() =~= t2);
    assert(arg_tokens(Seq::<char>::empty()) =~= Seq::<Seq<char>>::empty());
    lemma_tokens_sep(r1);
    assert(r1.drop_first() =~= t2);
    lemma_tokens_cons(a[1], r1);
    lemma_tokens_sep(r0);
    assert(r0.drop_first() =~= t1r);
    lemma_tokens_cons(a[0], r0);
    assert(a[0] + seq![','] + a[1] + seq![','] + a[2] =~= a[0] + r0);
    assert(seq![a[0]] + (seq![a[1]] + seq![t2]) =~= a);
}

proof fn lemma_rgb_text_normal(a: Seq<Seq<char>>)
    requires
        a.len() == 3,
        forall|i: int| 0 <= i < 3 ==> plain_token(#[trigger] a[i]),
    ensures
        normalized(rgb_text(a)) == rgb_text(a),
        is_call(rgb_text(a)),
        call_name(rgb_text(a)) == "rgb"@,
        call_args(rgb_text(a)) == a[0] + seq![','] + a[1] + seq![','] + a[2],
        rgb_text(a)[0] == 'r',
{
    let t = rgb_text(a);
    assert(plain_token(a[0]) && plain_token(a[1]) && plain_token(a[2]));
    assert(!is_space(t[0]));
    assert(trim_start(t) == t);
    assert(t.last() == ')');
    assert(trim_end(t) == t);
    let l0 = 4 + a[0].len();
    let l1 = l0 + 1 + a[1].len();
    assert forall|i: int| 0 <= i < t.len() implies lower_char(#[trigger] t[i]) == t[i] by {
        if 4 <= i < l0 {
            assert(t[i] == a[0][i - 4]);
        } else if l0 + 1 <= i < l1 {
            assert(t[i] == a[1][i - l0 - 1]);
        } else if l1 + 1 <= i < t.len() - 1 {
            assert(t[i] == a[2][i - l1 - 1]);
        }
    }
    assert(ascii_lower(t) =~= t);
    assert forall|j: int| 0 <= j < 3 implies t[j] != '(' by {}
    lemma_index_of(t, '(', 3);
    assert(t.subrange(0, 3) =~= seq!['r', 'g', 'b']);
    assert(!is_space(t.subrange(0, 3).last()));
    reveal_strlit("rgb");
    assert(seq!['r', 'g', 'b'] =~= "rgb"@);
    assert(call_args(t) =~= a[0] + seq![','] + a[1] + seq![','] + a[2]);
}

/// `rgb(a0,a1,a2)` with argument tokens as numbers and percentages are
/// written parses to the channels of those tokens.
proof fn lemma_rgb_text(a: Seq<Seq<char>>)
    requires
        a.len() == 3,
        forall|i: int| 0 <= i < 3 ==> plain_token(#[trigger] a[i]),
    ensures
        solid_of(rgb_text(a)) == match rgb_channels(a) {
            Some(c) => Ok::<Solid, ErrorKind>(Solid::Rgba(c)),
            None => Err(ErrorKind::InvalidRgb),
        },
{
    lemma_rgb_text_normal(a);
    lemma_rgb_args(a);
}

/// `rgb(r,g,b)` with integer channels and `rgb(r%,g%,b%)` with percentages
/// that round to the same 8-bit values, as text, both parse: the first to
/// exactly `x / 255`, the second to channels within 1/255 of it, both fully
/// opaque.
pub proof fn lemma_rgb_percent_text(a: Seq<Seq<char>>, q: Seq<Seq<char>>, x: Seq<u8>)
    requires
        a.len() == 3,
        q.len() == 3,
        x.len() == 3,
        forall|i: int| 0 <= i < 3 ==> absolute_token(#[trigger] a[i], x[i]) && ascii_lower(a[i]) == a[i],
        forall|i: int| 0 <= i < 3 ==> percent_token(#[trigger] q[i], x[i]) && ascii_lower(q[i]) == q[i],
    ensures
        solid_of(rgb_text(a)) == Ok::<Solid, ErrorKind>(
            Solid::Rgba(Channels { r: byte(x[0]), g: byte(x[1]), b: byte(x[2]), a: one() }),
        ),
        solid_of(rgb_text(q)) matches Ok(Solid::Rgba(c)) && within_step(c.r, x[0]) && within_step(
            c.g,
            x[1],
        ) && within_step(c.b, x[2]) && c.a == one(),
{
    assert forall|i: int| 0 <= i < 3 implies plain_token(#[trigger] a[i]) by {
        lemma_plain_absolute(a[i], x[i]);
    }
    assert forall|i: int| 0 <= i < 3 implies plain_token(#[trigger] q[i]) by {
        lemma_plain_percent(q[i], x[i]);
    }
    lemma_rgb_percent_close(a, q, x);
    lemma_rgb_text(a);
    lemma_rgb_text(q);
}

} // verus!
