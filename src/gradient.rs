//! Gradients: `gradient(<color>, <color>, ..., [<direction>])`, its color
//! stops and its direction.
use vstd::prelude::*;
use crate::error::{Error, ErrorKind};
use crate::number::{Angle, Number, angle, decimal, drop_end, parse_angle};
use crate::solid::Solid;
use crate::theme::{ThemeColors, parse_solid_with_theme, solid_in_theme};
use crate::text::{
    chars_of,
    copy_range,
    ends_with_str,
    equals_str,
    find_char,
    has_prefix,
    has_suffix,
    index_of,
    lemma_index_of_bounds,
    starts_with_str,
    string_of,
    trim,
    trimmed,
};

verus! {

/// The start and end of a gradient line in the unit square, exactly.
#[derive(Debug, Clone, Copy, PartialEq)]
pub struct GradientCoordinates {
    pub start: [Number; 2],
    pub end: [Number; 2],
}

/// Where a gradient runs: one of the eight keyword directions, resolved to its
/// line, or an angle, whose line takes trigonometry to find.
#[derive(Debug, Clone, Copy, PartialEq)]
pub enum Direction {
    Line(GradientCoordinates),
    Angle(Angle),
}

/// A gradient: its direction and the color stops that parsed, in order.
#[derive(Debug, PartialEq)]
pub struct Gradient {
    pub direction: Direction,
    pub colors: Vec<Solid>,
}

impl Clone for Gradient {
    fn clone(&self) -> (r: Gradient)
        ensures
            r.direction == self.direction,
            r.colors@ == self.colors@,
    {
        let mut colors: Vec<Solid> = Vec::new();
        let mut i: usize = 0;
        while i < self.colors.len()
            invariant
                i <= self.colors@.len(),
                colors@ == self.colors@.subrange(0, i as int),
            decreases self.colors@.len() - i,
        {
            colors.push(self.colors[i].duplicate());
            assert(colors@ =~= self.colors@.subrange(0, i + 1));
            i = i + 1;
        }
        assert(self.colors@.subrange(0, self.colors@.len() as int) =~= self.colors@);
        Gradient { direction: self.direction, colors }
    }
}

/// `k / 2`.
pub open spec fn half(k: u64) -> Number {
    Number { negative: false, num: k, den: 2 }
}

/// The line from `(x0/2, y0/2)` to `(x1/2, y1/2)`.
pub open spec fn line(x0: u64, y0: u64, x1: u64, y1: u64) -> GradientCoordinates {
    GradientCoordinates { start: [half(x0), half(y0)], end: [half(x1), half(y1)] }
}

/// The line of a keyword direction, with `y` growing downwards.
pub open spec fn keyword_line(s: Seq<char>) -> Option<GradientCoordinates> {
    if s == "to right"@ {
        Some(line(0, 1, 2, 1))
    } else if s == "to left"@ {
        Some(line(2, 1, 0, 1))
    } else if s == "to top"@ {
        Some(line(1, 2, 1, 0))
    } else if s == "to bottom"@ {
        Some(line(1, 0, 1, 2))
    } else if s == "to top right"@ {
        Some(line(0, 2, 2, 0))
    } else if s == "to top left"@ {
        Some(line(2, 2, 0, 0))
    } else if s == "to bottom right"@ {
        Some(line(0, 0, 2, 2))
    } else if s == "to bottom left"@ {
        Some(line(2, 0, 0, 2))
    } else {
        None
    }
}

/// An angle with an explicit unit: a number followed by `deg`, `grad`, `rad` or `turn`.
pub open spec fn valid_angle(s: Seq<char>) -> bool {
    (has_suffix(s, "deg"@) && decimal(drop_end(s, 3)) is Some) || (has_suffix(s, "grad"@)
        && decimal(drop_end(s, 4)) is Some) || (has_suffix(s, "rad"@) && decimal(drop_end(s, 3))
        is Some) || (has_suffix(s, "turn"@) && decimal(drop_end(s, 4)) is Some)
}

/// A keyword direction or an angle with a unit.
pub open spec fn valid_direction(s: Seq<char>) -> bool {
    keyword_line(s) is Some || valid_angle(s)
}

/// The direction that a direction token denotes: an angle (a bare number is
/// degrees) or a keyword.
pub open spec fn direction_of(s: Seq<char>) -> Result<Direction, ErrorKind> {
    match angle(s) {
        Some(a) => Ok(Direction::Angle(a)),
        None => match keyword_line(s) {
            Some(c) => Ok(Direction::Line(c)),
            None => Err(ErrorKind::InvalidGradientCoordinates),
        },
    }
}

fn half_of(k: u64) -> (r: Number)
    ensures
        r == half(k),
{
    Number { negative: false, num: k, den: 2 }
}

fn make_line(x0: u64, y0: u64, x1: u64, y1: u64) -> (r: GradientCoordinates)
    ensures
        r == line(x0, y0, x1, y1),
{
    GradientCoordinates { start: [half_of(x0), half_of(y0)], end: [half_of(x1), half_of(y1)] }
}

/// The line of a keyword direction (see `keyword_line`).
fn parse_keyword(s: &Vec<char>) -> (r: Option<GradientCoordinates>)
    ensures
        r == keyword_line(s@),
{
    if equals_str(s, "to right") {
        Some(make_line(0, 1, 2, 1))
    } else if equals_str(s, "to left") {
        Some(make_line(2, 1, 0, 1))
    } else if equals_str(s, "to top") {
        Some(make_line(1, 2, 1, 0))
    } else if equals_str(s, "to bottom") {
        Some(make_line(1, 0, 1, 2))
    } else if equals_str(s, "to top right") {
        Some(make_line(0, 2, 2, 0))
    } else if equals_str(s, "to top left") {
        Some(make_line(2, 2, 0, 0))
    } else if equals_str(s, "to bottom right") {
        Some(make_line(0, 0, 2, 2))
    } else if equals_str(s, "to bottom left") {
        Some(make_line(2, 0, 0, 2))
    } else {
        None
    }
}

/// Whether the number before a suffix of `k` characters parses.
fn number_before(s: &Vec<char>, k: usize) -> (r: bool)
    requires
        k <= s@.len(),
    ensures
        r == decimal(drop_end(s@, k as nat)) is Some,
{
    let head = copy_range(s, 0, s.len() - k);
    crate::number::parse_decimal(&head).is_some()
}

fn valid_angle_chars(s: &Vec<char>) -> (r: bool)
    ensures
        r == valid_angle(s@),
{
    proof {
        reveal_strlit("deg");
        reveal_strlit("grad");
        reveal_strlit("rad");
        reveal_strlit("turn");
    }
    (ends_with_str(s, "deg") && number_before(s, 3)) || (ends_with_str(s, "grad") && number_before(
        s,
        4,
    )) || (ends_with_str(s, "rad") && number_before(s, 3)) || (ends_with_str(s, "turn")
        && number_before(s, 4))
}

fn valid_direction_chars(s: &Vec<char>) -> (r: bool)
    ensures
        r == valid_direction(s@),
{
    parse_keyword(s).is_some() || valid_angle_chars(s)
}

/// Whether `direction` is a keyword direction or an angle with a unit.
pub fn is_valid_direction(direction: &str) -> (r: bool)
    ensures
        r == valid_direction(direction@),
{
    let v = chars_of(direction);
    valid_direction_chars(&v)
}

/// Whether `direction` is a number followed by `deg`, `grad`, `rad` or `turn`.
pub fn is_valid_angle(direction: &str) -> (r: bool)
    ensures
        r == valid_angle(direction@),
{
    let v = chars_of(direction);
    valid_angle_chars(&v)
}

fn parse_direction_chars(s: &Vec<char>) -> (r: Result<Direction, Error>)
    ensures
        match direction_of(s@) {
            Ok(d) => r == Ok::<Direction, Error>(d),
            Err(k) => r is Err && r->Err_0.spec_kind() == k && r->Err_0.spec_message() == s@,
        },
{
    match parse_angle(s) {
        Some(a) => Ok(Direction::Angle(a)),
        None => match parse_keyword(s) {
            Some(c) => Ok(Direction::Line(c)),
            None => {
                let m = string_of(s.as_slice());
                Err(Error::new(ErrorKind::InvalidGradientCoordinates, m.as_str()))
            },
        },
    }
}

/// Resolves a direction token: an angle (a bare number is degrees) or one of
/// the eight keywords; anything else is `InvalidGradientCoordinates`.
pub fn parse_coordinates(coordinates: &str) -> (r: Result<Direction, Error>)
    ensures
        match direction_of(coordinates@) {
            Ok(d) => r == Ok::<Direction, Error>(d),
            Err(k) => r is Err && r->Err_0.spec_kind() == k && r->Err_0.spec_message()
                == coordinates@,
        },
{
    let v = chars_of(coordinates);
    parse_direction_chars(&v)
}

/// What the regular expression `pattern` matches in `text`: for each
/// successive non-overlapping match, the text up to the match's end and the
/// match itself; `None` where the pattern does not compile.
pub uninterp spec fn regex_find_all(pattern: Seq<char>, text: Seq<char>) -> Option<Seq<(Seq<char>, Seq<char>)>>;

/// The views of a list of pairs of strings.
pub open spec fn pair_views(v: Seq<(String, String)>) -> Seq<(Seq<char>, Seq<char>)> {
    v.map_values(|p: (String, String)| (p.0@, p.1@))
}

/// The matched texts of a list of matches.
pub open spec fn match_texts(m: Seq<(Seq<char>, Seq<char>)>) -> Seq<Seq<char>> {
    m.map_values(|p: (Seq<char>, Seq<char>)| p.1)
}

/// Relies on `regex::Regex::new`, `regex::Regex::find_iter` and
/// `regex::Match::end`/`as_str`: for each successive non-overlapping match of
/// `pattern` in `text`, the text up to the match's end and the match's text.
#[verifier::external_body]
fn find_all(pattern: &str, text: &str) -> (r: Option<Vec<(String, String)>>)
    ensures
        match regex_find_all(pattern@, text@) {
            Some(m) => r is Some && pair_views(r->Some_0@) == m,
            None => r is None,
        },
{
    regex::Regex::new(pattern).ok().map(
        |re| re.find_iter(text).map(|m| (text[..m.end()].to_string(), m.as_str().to_string())).collect(),
    )
}

/// The patterns of hex literals, `rgb()`/`rgba()` literals,
/// `accent`/`transparent` and `darken()`/`lighten()`, in that order.
pub closed spec fn base_pattern_text() -> Seq<char> {
    r"#[0-9A-F]{3,8}|rgba?\([0-9]{1,3},\s*[0-9]{1,3},\s*[0-9]{1,3}(?:,\s*[0-9]*(?:\.[0-9]+)?)?\)|(accent|transparent|accent_inactive)|(?:darken|lighten)\(\s*(?:#[0-9A-F]{3,8}|rgba?\([0-9]{1,3},\s*[0-9]{1,3},\s*[0-9]{1,3}(?:,\s*[0-9]*(?:\.[0-9]+)?)?\)|(?:aliceblue|antiquewhite|aqua|aquamarine|azure|beige|bisque|black|blanchedalmond|blue|blueviolet|brown|burlywood|cadetblue|chartreuse|chocolate|coral|cornflowerblue|cornsilk|crimson|cyan|darkblue|darkcyan|darkgoldenrod|darkgray|darkgreen|darkgrey|darkkhaki|darkmagenta|darkolivegreen|darkorange|darkorchid|darkred|darksalmon|darkseagreen|darkslateblue|darkslategray|darkslategrey|darkturquoise|darkviolet|deeppink|deepskyblue|dimgray|dimgrey|dodgerblue|firebrick|floralwhite|forestgreen|fuchsia|gainsboro|ghostwhite|gold|goldenrod|gray|green|greenyellow|grey|honeydew|hotpink|indianred|indigo|ivory|khaki|lavender|lavenderblush|lawngreen|lemonchiffon|lightblue|lightcoral|lightcyan|lightgoldenrodyellow|lightgray|lightgreen|lightgrey|lightpink|lightsalmon|lightseagreen|lightskyblue|lightslategray|lightslategrey|lightsteelblue|lightyellow|lime|limegreen|linen|magenta|maroon|mediumaquamarine|mediumblue|mediumorchid|mediumpurple|mediumseagreen|mediumslateblue|mediumspringgreen|mediumturquoise|mediumvioletred|midnightblue|mintcream|mistyrose|moccasin|navajowhite|navy|oldlace|olive|olivedrab|orange|orangered|orchid|palegoldenrod|palegreen|paleturquoise|palevioletred|papayawhip|peachpuff|peru|pink|plum|powderblue|purple|rebeccapurple|red|rosybrown|royalblue|saddlebrown|salmon|sandybrown|seagreen|seashell|sienna|silver|skyblue|slateblue|slategray|slategrey|snow|springgreen|steelblue|tan|teal|thistle|tomato|turquoise|violet|wheat|white|whitesmoke|yellow|yellowgreen))\s*,\s*\d+(?:\.\d+)?%\s*\)"@
}

fn base_pattern() -> (r: &'static str)
    ensures
        r@ == base_pattern_text(),
{
    r"#[0-9A-F]{3,8}|rgba?\([0-9]{1,3},\s*[0-9]{1,3},\s*[0-9]{1,3}(?:,\s*[0-9]*(?:\.[0-9]+)?)?\)|(accent|transparent|accent_inactive)|(?:darken|lighten)\(\s*(?:#[0-9A-F]{3,8}|rgba?\([0-9]{1,3},\s*[0-9]{1,3},\s*[0-9]{1,3}(?:,\s*[0-9]*(?:\.[0-9]+)?)?\)|(?:aliceblue|antiquewhite|aqua|aquamarine|azure|beige|bisque|black|blanchedalmond|blue|blueviolet|brown|burlywood|cadetblue|chartreuse|chocolate|coral|cornflowerblue|cornsilk|crimson|cyan|darkblue|darkcyan|darkgoldenrod|darkgray|darkgreen|darkgrey|darkkhaki|darkmagenta|darkolivegreen|darkorange|darkorchid|darkred|darksalmon|darkseagreen|darkslateblue|darkslategray|darkslategrey|darkturquoise|darkviolet|deeppink|deepskyblue|dimgray|dimgrey|dodgerblue|firebrick|floralwhite|forestgreen|fuchsia|gainsboro|ghostwhite|gold|goldenrod|gray|green|greenyellow|grey|honeydew|hotpink|indianred|indigo|ivory|khaki|lavender|lavenderblush|lawngreen|lemonchiffon|lightblue|lightcoral|lightcyan|lightgoldenrodyellow|lightgray|lightgreen|lightgrey|lightpink|lightsalmon|lightseagreen|lightskyblue|lightslategray|lightslategrey|lightsteelblue|lightyellow|lime|limegreen|linen|magenta|maroon|mediumaquamarine|mediumblue|mediumorchid|mediumpurple|mediumseagreen|mediumslateblue|mediumspringgreen|mediumturquoise|mediumvioletred|midnightblue|mintcream|mistyrose|moccasin|navajowhite|navy|oldlace|olive|olivedrab|orange|orangered|orchid|palegoldenrod|palegreen|paleturquoise|palevioletred|papayawhip|peachpuff|peru|pink|plum|powderblue|purple|rebeccapurple|red|rosybrown|royalblue|saddlebrown|salmon|sandybrown|seagreen|seashell|sienna|silver|skyblue|slateblue|slategray|slategrey|snow|springgreen|steelblue|tan|teal|thistle|tomato|turquoise|violet|wheat|white|whitesmoke|yellow|yellowgreen))\s*,\s*\d+(?:\.\d+)?%\s*\)"
}

/// The pattern of the named colors, as whole words.
pub closed spec fn named_pattern_text() -> Seq<char> {
    r"\b(?:aliceblue|antiquewhite|aqua|aquamarine|azure|beige|bisque|black|blanchedalmond|blue|blueviolet|brown|burlywood|cadetblue|chartreuse|chocolate|coral|cornflowerblue|cornsilk|crimson|cyan|darkblue|darkcyan|darkgoldenrod|darkgray|darkgreen|darkgrey|darkkhaki|darkmagenta|darkolivegreen|darkorange|darkorchid|darkred|darksalmon|darkseagreen|darkslateblue|darkslategray|darkslategrey|darkturquoise|darkviolet|deeppink|deepskyblue|dimgray|dimgrey|dodgerblue|firebrick|floralwhite|forestgreen|fuchsia|gainsboro|ghostwhite|gold|goldenrod|gray|green|greenyellow|grey|honeydew|hotpink|indianred|indigo|ivory|khaki|lavender|lavenderblush|lawngreen|lemonchiffon|lightblue|lightcoral|lightcyan|lightgoldenrodyellow|lightgray|lightgreen|lightgrey|lightpink|lightsalmon|lightseagreen|lightskyblue|lightslategray|lightslategrey|lightsteelblue|lightyellow|lime|limegreen|linen|magenta|maroon|mediumaquamarine|mediumblue|mediumorchid|mediumpurple|mediumseagreen|mediumslateblue|mediumspringgreen|mediumturquoise|mediumvioletred|midnightblue|mintcream|mistyrose|moccasin|navajowhite|navy|oldlace|olive|olivedrab|orange|orangered|orchid|palegoldenrod|palegreen|paleturquoise|palevioletred|papayawhip|peachpuff|peru|pink|plum|powderblue|purple|rebeccapurple|red|rosybrown|royalblue|saddlebrown|salmon|sandybrown|seagreen|seashell|sienna|silver|skyblue|slateblue|slategray|slategrey|snow|springgreen|steelblue|tan|teal|thistle|tomato|turquoise|violet|wheat|white|whitesmoke|yellow|yellowgreen)\b"@
}

fn named_pattern() -> (r: &'static str)
    ensures
        r@ == named_pattern_text(),
{
    r"\b(?:aliceblue|antiquewhite|aqua|aquamarine|azure|beige|bisque|black|blanchedalmond|blue|blueviolet|brown|burlywood|cadetblue|chartreuse|chocolate|coral|cornflowerblue|cornsilk|crimson|cyan|darkblue|darkcyan|darkgoldenrod|darkgray|darkgreen|darkgrey|darkkhaki|darkmagenta|darkolivegreen|darkorange|darkorchid|darkred|darksalmon|darkseagreen|darkslateblue|darkslategray|darkslategrey|darkturquoise|darkviolet|deeppink|deepskyblue|dimgray|dimgrey|dodgerblue|firebrick|floralwhite|forestgreen|fuchsia|gainsboro|ghostwhite|gold|goldenrod|gray|green|greenyellow|grey|honeydew|hotpink|indianred|indigo|ivory|khaki|lavender|lavenderblush|lawngreen|lemonchiffon|lightblue|lightcoral|lightcyan|lightgoldenrodyellow|lightgray|lightgreen|lightgrey|lightpink|lightsalmon|lightseagreen|lightskyblue|lightslategray|lightslategrey|lightsteelblue|lightyellow|lime|limegreen|linen|magenta|maroon|mediumaquamarine|mediumblue|mediumorchid|mediumpurple|mediumseagreen|mediumslateblue|mediumspringgreen|mediumturquoise|mediumvioletred|midnightblue|mintcream|mistyrose|moccasin|navajowhite|navy|oldlace|olive|olivedrab|orange|orangered|orchid|palegoldenrod|palegreen|paleturquoise|palevioletred|papayawhip|peachpuff|peru|pink|plum|powderblue|purple|rebeccapurple|red|rosybrown|royalblue|saddlebrown|salmon|sandybrown|seagreen|seashell|sienna|silver|skyblue|slateblue|slategray|slategrey|snow|springgreen|steelblue|tan|teal|thistle|tomato|turquoise|violet|wheat|white|whitesmoke|yellow|yellowgreen)\b"
}

/// `k` with each `.` escaped for a regular expression.
pub open spec fn escape_dots(k: Seq<char>) -> Seq<char>
    decreases k.len(),
{
    if k.len() == 0 {
        seq![]
    } else {
        escape_dots(k.drop_last()) + if k.last() == '.' {
            seq!['\\', '.']
        } else {
            seq![k.last()]
        }
    }
}

/// The escaped keys of the entries `e`, separated by `|`.
pub open spec fn key_alternation(e: Seq<(Seq<char>, Seq<char>)>) -> Seq<char>
    decreases e.len(),
{
    if e.len() == 0 {
        seq![]
    } else if e.len() == 1 {
        escape_dots(e[0].0)
    } else {
        key_alternation(e.drop_last()) + seq!['|'] + escape_dots(e.last().0)
    }
}

/// The pattern that finds the color stops in a gradient's arguments,
/// case-insensitively: the base patterns, then the theme's keys as whole
/// words when there are any, then the named colors.
pub open spec fn gradient_pattern(e: Seq<(Seq<char>, Seq<char>)>) -> Seq<char> {
    if e.len() == 0 {
        "(?i)"@ + base_pattern_text() + "|"@ + named_pattern_text()
    } else {
        "(?i)"@ + base_pattern_text() + "|"@ + "\\b(?:"@ + key_alternation(e) + ")\\b"@ + "|"@
            + named_pattern_text()
    }
}

fn append(out: &mut Vec<char>, s: &str)
    ensures
        final(out)@ == old(out)@ + s@,
{
    let v = chars_of(s);
    let mut i: usize = 0;
    while i < v.len()
        invariant
            i <= v@.len(),
            v@ == s@,
            out@ == old(out)@ + v@.subrange(0, i as int),
        decreases v@.len() - i,
    {
        out.push(v[i]);
        assert(v@.subrange(0, i + 1) =~= v@.subrange(0, i as int).push(v@[i as int]));
        i = i + 1;
    }
    assert(v@.subrange(0, v@.len() as int) =~= v@);
}

fn append_escaped(out: &mut Vec<char>, key: &str)
    ensures
        final(out)@ == old(out)@ + escape_dots(key@),
{
    let v = chars_of(key);
    let mut i: usize = 0;
    assert(escape_dots(v@.subrange(0, 0)) =~= Seq::<char>::empty());
    while i < v.len()
        invariant
            i <= v@.len(),
            v@ == key@,
            out@ == old(out)@ + escape_dots(v@.subrange(0, i as int)),
        decreases v@.len() - i,
    {
        let ghost before = out@;
        assert(v@.subrange(0, i + 1).drop_last() =~= v@.subrange(0, i as int));
        if v[i] == '.' {
            out.push('\\');
            out.push('.');
            assert(out@ =~= before + seq!['\\', '.']);
        } else {
            out.push(v[i]);
            assert(out@ =~= before + seq![v@[i as int]]);
        }
        assert(out@ =~= old(out)@ + escape_dots(v@.subrange(0, i + 1)));
        i = i + 1;
    }
    assert(v@.subrange(0, v@.len() as int) =~= v@);
}

/// Builds `gradient_pattern` for a theme.
fn build_pattern(theme: &ThemeColors) -> (r: String)
    ensures
        r@ == gradient_pattern(theme.view()),
{
    let ghost e = theme.view();
    let mut out: Vec<char> = Vec::new();
    append(&mut out, "(?i)");
    append(&mut out, base_pattern());
    append(&mut out, "|");
    let n = theme.len();
    if n > 0 {
        append(&mut out, "\\b(?:");
        let ghost start = out@;
        append_escaped(&mut out, theme.key(0).as_str());
        assert(e.subrange(0, 1).len() == 1 && e.subrange(0, 1)[0] == e[0]);
        let mut i: usize = 1;
        while i < n
            invariant
                1 <= i <= n == e.len(),
                e == theme.view(),
                out@ == start + key_alternation(e.subrange(0, i as int)),
            decreases n - i,
        {
            let ghost prev = out@;
            append(&mut out, "|");
            append_escaped(&mut out, theme.key(i).as_str());
            proof {
                reveal_strlit("|");
                assert(e.subrange(0, i + 1).drop_last() =~= e.subrange(0, i as int));
                assert(out@ =~= prev + seq!['|'] + escape_dots(e[i as int].0));
            }
            i = i + 1;
        }
        assert(e.subrange(0, n as int) =~= e);
        append(&mut out, ")\\b");
        append(&mut out, "|");
    }
    append(&mut out, named_pattern());
    assert(out@ =~= gradient_pattern(e));
    string_of(out.as_slice())
}

/// The text after a gradient's last color match, which ends where the text
/// up to it does.
pub open spec fn after_last_match(inner: Seq<char>, matches: Seq<(Seq<char>, Seq<char>)>) -> Seq<char> {
    if matches.len() == 0 {
        inner
    } else {
        let end = matches.last().0.len();
        if end <= inner.len() {
            inner.subrange(end as int, inner.len() as int)
        } else {
            inner
        }
    }
}

/// The first comma-separated piece of `s` that, trimmed, is a valid direction.
pub open spec fn first_direction(s: Seq<char>) -> Option<Seq<char>>
    decreases s.len(),
{
    let k = index_of(s, ',');
    let piece = if k < 0 {
        s
    } else {
        s.subrange(0, k)
    };
    if valid_direction(trimmed(piece)) {
        Some(trimmed(piece))
    } else if k < 0 || k >= s.len() {
        None
    } else {
        first_direction(s.subrange(k + 1, s.len() as int))
    }
}

/// The colors among `stops` that parse with the theme entries `e`, in
/// order; the others are dropped.
pub open spec fn parsed_stops(stops: Seq<Seq<char>>, e: Seq<(Seq<char>, Seq<char>)>) -> Seq<Solid>
    decreases stops.len(),
{
    if stops.len() == 0 {
        seq![]
    } else {
        let rest = parsed_stops(stops.drop_last(), e);
        match solid_in_theme(stops.last(), e) {
            Ok(c) => rest.push(c),
            Err(_) => rest,
        }
    }
}

/// The arguments of `gradient(...)`: without the prefix and one final `)`.
pub open spec fn gradient_args(s: Seq<char>) -> Seq<char> {
    let t = s.subrange(9, s.len() as int);
    if t.len() > 0 && t.last() == ')' {
        t.drop_last()
    } else {
        t
    }
}

/// The direction token of a gradient with arguments `inner` and color
/// matches `m`: the first valid one after the last match, else `to right`.
pub open spec fn gradient_direction(inner: Seq<char>, m: Seq<(Seq<char>, Seq<char>)>) -> Seq<char> {
    match first_direction(after_last_match(inner, m)) {
        Some(d) => d,
        None => "to right"@,
    }
}

/// Finds the first valid direction piece (see `first_direction`).
fn find_direction(s: &Vec<char>) -> (r: Option<Vec<char>>)
    ensures
        match first_direction(s@) {
            Some(d) => r is Some && r->Some_0@ == d,
            None => r is None,
        },
    decreases s@.len(),
{
    let k = find_char(s, ',');
    proof {
        lemma_index_of_bounds(s@, ',');
    }
    let piece = match k {
        Some(k) => copy_range(s, 0, k),
        None => copy_range(s, 0, s.len()),
    };
    assert(k is None ==> s@.subrange(0, s@.len() as int) =~= s@);
    let t = trim(&piece);
    if valid_direction_chars(&t) {
        return Some(t);
    }
    match k {
        Some(j) => {
            let n = s.len();
            assert(j < n);
            let rest = copy_range(s, j + 1, n);
            find_direction(&rest)
        },
        None => None,
    }
}

/// Whether `r` is what parsing the gradient text `s` with the theme entries
/// `e` gives: `InvalidGradient` carrying `s` for text that is not a gradient
/// expression; else the stops that parse among the pattern's matches, and
/// the direction that the chosen token denotes (an error carries the token).
pub open spec fn gradient_agrees(
    s: Seq<char>,
    e: Seq<(Seq<char>, Seq<char>)>,
    r: Result<Gradient, Error>,
) -> bool {
    if !has_prefix(s, "gradient("@) {
        r is Err && r->Err_0.spec_kind() == ErrorKind::InvalidGradient && r->Err_0.spec_message()
            == s
    } else {
        match regex_find_all(gradient_pattern(e), gradient_args(s)) {
            Some(m) => match direction_of(gradient_direction(gradient_args(s), m)) {
                Ok(d) => r is Ok && r->Ok_0.direction == d && r->Ok_0.colors@ == parsed_stops(
                    match_texts(m),
                    e,
                ),
                Err(k) => r is Err && r->Err_0.spec_kind() == k && r->Err_0.spec_message()
                    == gradient_direction(gradient_args(s), m),
            },
            None => r is Err && r->Err_0.spec_kind() == ErrorKind::InvalidGradient
                && r->Err_0.spec_message() == s,
        }
    }
}

/// The text of `inner` after the last of `matches` (see `after_last_match`).
fn text_after_last(inner: &Vec<char>, matches: &Vec<(String, String)>) -> (r: Vec<char>)
    ensures
        r@ == after_last_match(inner@, pair_views(matches@)),
{
    let ghost ms = pair_views(matches@);
    let n = inner.len();
    assert(inner@.subrange(0, n as int) =~= inner@);
    if matches.len() == 0 {
        return copy_range(inner, 0, n);
    }
    let upto = chars_of(matches[matches.len() - 1].0.as_str());
    assert(upto@ == ms.last().0);
    let end = upto.len();
    if end <= n {
        copy_range(inner, end, n)
    } else {
        copy_range(inner, 0, n)
    }
}

/// Parses each stop, keeping those that parse (see `parsed_stops`).
fn parse_stops(matches: &Vec<(String, String)>, theme: &ThemeColors) -> (r: Vec<Solid>)
    ensures
        r@ == parsed_stops(match_texts(pair_views(matches@)), theme.view()),
{
    let ghost ms = match_texts(pair_views(matches@));
    let mut colors: Vec<Solid> = Vec::new();
    let mut i: usize = 0;
    while i < matches.len()
        invariant
            i <= matches@.len(),
            ms == match_texts(pair_views(matches@)),
            colors@ == parsed_stops(ms.subrange(0, i as int), theme.view()),
        decreases matches@.len() - i,
    {
        let parsed = parse_solid_with_theme(matches[i].1.as_str(), theme);
        let ghost c = matches@[i as int].1@;
        assert(ms.subrange(0, i + 1).drop_last() =~= ms.subrange(0, i as int));
        assert(ms.subrange(0, i + 1).last() == c);
        match parsed {
            Ok(col) => colors.push(col),
            Err(_) => {},
        }
        i = i + 1;
    }
    assert(ms.subrange(0, ms.len() as int) =~= ms);
    colors
}

/// Builds a gradient from its arguments `args` and the color matches found
/// in them, each given as the text up to its end and its own text: the
/// matches that parse with the theme become the stops, and the
/// direction is the first valid comma-separated piece after the last match,
/// else `to right`.
pub fn gradient_from_matches(
    args: &str,
    matches: &Vec<(String, String)>,
    theme: &ThemeColors,
) -> (r: Result<Gradient, Error>)
    ensures
        match direction_of(gradient_direction(args@, pair_views(matches@))) {
            Ok(d) => r is Ok && r->Ok_0.direction == d && r->Ok_0.colors@ == parsed_stops(
                match_texts(pair_views(matches@)),
                theme.view(),
            ),
            Err(k) => r is Err && r->Err_0.spec_kind() == k && r->Err_0.spec_message()
                == gradient_direction(args@, pair_views(matches@)),
        },
{
    let inner = chars_of(args);
    let rest = text_after_last(&inner, matches);
    let direction = match find_direction(&rest) {
        Some(d) => d,
        None => chars_of("to right"),
    };
    let colors = parse_stops(matches, theme);
    let direction = parse_direction_chars(&direction)?;
    Ok(Gradient { direction, colors })
}

fn gradient_with(s: &str, theme: &ThemeColors) -> (r: Result<Gradient, Error>)
    ensures
        gradient_agrees(s@, theme.view(), r),
{
    let v = chars_of(s);
    proof {
        reveal_strlit("gradient(");
    }
    if !starts_with_str(&v, "gradient(") {
        return Err(Error::new(ErrorKind::InvalidGradient, s));
    }
    let n = v.len();
    let mut inner = copy_range(&v, 9, n);
    let m = inner.len();
    if m > 0 && inner[m - 1] == ')' {
        inner = copy_range(&inner, 0, m - 1);
    }
    assert(inner@ == gradient_args(s@));
    let text = string_of(inner.as_slice());
    let pattern = build_pattern(theme);
    let matches = match find_all(pattern.as_str(), text.as_str()) {
        Some(ms) => ms,
        None => return Err(Error::new(ErrorKind::InvalidGradient, s)),
    };
    gradient_from_matches(text.as_str(), &matches, theme)
}

/// Parses `gradient(...)`.
///
/// The color stops are what `gradient_pattern` matches in the arguments;
/// those that do not parse as colors are dropped. The direction is the first
/// comma-separated piece after the last match that is a keyword or an angle
/// with a unit, else `to right`.
pub fn parse_gradient(s: &str) -> (r: Result<Gradient, Error>)
    ensures
        gradient_agrees(s@, Seq::empty(), r),
{
    let theme = ThemeColors::new();
    gradient_with(s, &theme)
}

/// Parses `gradient(...)` with a theme, whose keys are recognized as color
/// stops and resolved (see `parse_gradient`).
pub fn parse_gradient_with_theme(s: &str, theme: &ThemeColors) -> (r: Result<Gradient, Error>)
    ensures
        gradient_agrees(s@, theme.view(), r),
{
    gradient_with(s, theme)
}

} // verus!
