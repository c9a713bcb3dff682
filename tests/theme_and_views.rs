use colorparser_css::{
    gradient_from_matches, parse_gradient_with_theme, parse_with_theme, rgba16_to_rgba8,
    rgba8_to_rgba16, Color, ColorValue, Direction, ErrorKind, Number, Solid, ThemeColors,
};
use colorparser_css::{clean, parse_solid_with_theme};

fn theme() -> ThemeColors {
    let mut t = ThemeColors::new();
    t.insert("blue".to_string(), "#89b4fa".to_string());
    t.insert("text.dark.grey".to_string(), "#313244".to_string());
    t.insert("red".to_string(), "#f38ba8".to_string());
    t.insert("loop".to_string(), "loop".to_string());
    t
}

fn hex_of(s: &Solid) -> String {
    s.to_hex_string().unwrap()
}

#[test]
fn theme_keys_resolve_before_named_colors() {
    let t = theme();
    assert_eq!(t.len(), 4);
    assert_eq!(hex_of(&parse_solid_with_theme("blue", &t).unwrap()), "#89b4fa");
    assert_eq!(hex_of(&parse_solid_with_theme(" Text.Dark.Grey ", &t).unwrap()), "#313244");
    assert_eq!(hex_of(&parse_solid_with_theme("green", &t).unwrap()), "#008000");
}

#[test]
fn theme_does_not_shadow_keywords() {
    let mut t = ThemeColors::new();
    t.insert("transparent".to_string(), "#ffffff".to_string());
    assert_eq!(hex_of(&parse_solid_with_theme("transparent", &t).unwrap()), "#00000000");
}

#[test]
fn theme_value_is_parsed_without_the_theme() {
    let t = theme();
    let e = parse_solid_with_theme("loop", &t).unwrap_err();
    assert_eq!(e.kind(), ErrorKind::InvalidUnknown);
}

#[test]
fn insert_replaces_a_key() {
    let mut t = ThemeColors::new();
    t.insert("accentish".to_string(), "#010203".to_string());
    t.insert("other".to_string(), "#0a0b0c".to_string());
    t.insert("accentish".to_string(), "#040506".to_string());
    assert_eq!(t.len(), 2);
    assert_eq!(hex_of(&parse_solid_with_theme("accentish", &t).unwrap()), "#040506");
    assert_eq!(hex_of(&parse_solid_with_theme("other", &t).unwrap()), "#0a0b0c");
}

#[test]
fn gradient_with_theme_keys() {
    let t = theme();
    let g = parse_gradient_with_theme("gradient(blue, text.dark.grey, to left)", &t).unwrap();
    let hexes: Vec<String> = g.colors.iter().map(hex_of).collect();
    assert_eq!(hexes, vec!["#89b4fa".to_string(), "#313244".to_string()]);
    match g.direction {
        Direction::Line(c) => {
            assert_eq!(c.start[0], Number { negative: false, num: 2, den: 2 });
            assert_eq!(c.end[0], Number { negative: false, num: 0, den: 2 });
        }
        other => panic!("{:?}", other),
    }
}

#[test]
fn parse_with_theme_dispatches() {
    let t = theme();
    match parse_with_theme("red", &t).unwrap() {
        Color(ColorValue::Solid(s)) => assert_eq!(hex_of(&s), "#f38ba8"),
        other => panic!("{:?}", other),
    }
    match parse_with_theme("gradient(red, blue)", &t).unwrap() {
        Color(ColorValue::Gradient(g)) => assert_eq!(g.colors.len(), 2),
        other => panic!("{:?}", other),
    }
}

#[test]
fn stops_that_do_not_parse_are_dropped() {
    let t = ThemeColors::new();
    let matches = vec![
        ("red".to_string(), "red".to_string()),
        ("red, nocolor".to_string(), "nocolor".to_string()),
        ("red, nocolor, #00f".to_string(), "#00f".to_string()),
    ];
    let g = gradient_from_matches("red, nocolor, #00f, 90deg", &matches, &t).unwrap();
    assert_eq!(g.colors.len(), 2);
    assert_eq!(hex_of(&g.colors[1]), "#0000ff");
    match g.direction {
        Direction::Angle(a) => assert_eq!(a, colorparser_css::Angle::Degrees(Number { negative: false, num: 90, den: 1 })),
        other => panic!("{:?}", other),
    }
}

#[test]
fn direction_search_skips_invalid_pieces() {
    let t = ThemeColors::new();
    let matches = vec![("red".to_string(), "red".to_string())];
    let g = gradient_from_matches("red, sideways, , to top", &matches, &t).unwrap();
    match g.direction {
        Direction::Line(c) => {
            assert_eq!(c.start[1], Number { negative: false, num: 2, den: 2 });
            assert_eq!(c.end[1], Number { negative: false, num: 0, den: 2 });
        }
        other => panic!("{:?}", other),
    }
    let g = gradient_from_matches("", &Vec::new(), &t).unwrap();
    assert!(g.colors.is_empty());
}

#[test]
fn eight_and_sixteen_bits() {
    assert_eq!(rgba8_to_rgba16([0, 1, 128, 255]), [0, 257, 32896, 65535]);
    assert_eq!(rgba16_to_rgba8([0, 257, 32896, 65535]), [0, 1, 128, 255]);
    assert_eq!(rgba16_to_rgba8([128, 129, 65535, 385]), [0, 1, 255, 1]);
    for v in 0..=255u8 {
        assert_eq!(rgba16_to_rgba8(rgba8_to_rgba16([v, v, v, v]))[0], v);
    }
}

#[test]
fn channel_views() {
    let c = match colorparser_css::parse_solid("rgb(50%, 0%, 100%, 0.25)").unwrap() {
        Solid::Rgba(c) => c,
        other => panic!("{:?}", other),
    };
    assert_eq!(c.to_rgba8(), [128, 0, 255, 64]);
    assert_eq!(c.to_rgba16(), [32768, 0, 65535, 16384]);
    assert_eq!(c.to_hex_string(), "#8000ff40");
    let s = Solid::from_rgba16(65535, 0, 32768, 65535);
    assert_eq!(s.to_hex_string().unwrap(), "#ff0080");
}

#[test]
fn hex_string_only_for_exact_channels() {
    let h = colorparser_css::parse_solid("hsl(0, 100%, 50%)").unwrap();
    assert!(h.to_hex_string().is_none());
}

#[test]
fn path_cleaning() {
    assert_eq!(clean("a/b/../c"), "a/c");
    assert_eq!(clean("/../a"), "/a");
    assert_eq!(clean("../a/.."), "..");
    assert_eq!(clean(""), ".");
    assert_eq!(clean("./"), ".");
    assert_eq!(clean("//a//b/"), "/a/b");
    assert_eq!(clean("a/./b"), "a/b");
    assert_eq!(clean("/"), "/");
    assert_eq!(clean("a/../../b"), "../b");
    assert_eq!(clean("themes/dark.json"), "themes/dark.json");
}

#[test]
fn direction_is_read_after_the_last_match_position() {
    let g = colorparser_css::parse_gradient("gradient(red, blue, 45deg, blueish)").unwrap();
    assert_eq!(g.colors.len(), 2);
    assert_eq!(
        g.direction,
        Direction::Angle(colorparser_css::Angle::Degrees(Number { negative: false, num: 45, den: 1 }))
    );
}
