use colorparser_css::{
    parse, parse_coordinates, parse_gradient, parse_solid, strip_string, Angle, Channels, Color,
    ColorValue, Direction, Error, ErrorKind, GradientCoordinates, Number, Solid,
};

fn frac(num: u64, den: u64) -> Number {
    Number { negative: false, num, den }
}

fn rgba8(r: u8, g: u8, b: u8, a: u8) -> Solid {
    Solid::from_rgba8(r, g, b, a)
}

fn value(n: &Number) -> f64 {
    let v = n.num as f64 / n.den as f64;
    if n.negative {
        -v
    } else {
        v
    }
}

fn channels(s: &str) -> Channels {
    match parse_solid(s) {
        Ok(Solid::Rgba(c)) => c,
        other => panic!("not exact channels: {:?}", other),
    }
}

fn kind_of(s: &str) -> ErrorKind {
    match parse_solid(s) {
        Err(e) => e.kind(),
        Ok(c) => panic!("parsed: {:?}", c),
    }
}

fn hex(s: &str) -> String {
    parse_solid(s).unwrap().to_hex_string().unwrap()
}

#[test]
fn hex_short_forms_expand() {
    assert_eq!(hex("#0f0"), "#00ff00");
    assert_eq!(hex("#0f08"), "#00ff0088");
    assert_eq!(hex("#ABC"), "#aabbcc");
    assert_eq!(hex("#abcf"), "#aabbcc");
}

#[test]
fn hex_long_forms_round_trip() {
    assert_eq!(hex("#00FF00"), "#00ff00");
    assert_eq!(hex("#00ff00ff"), "#00ff00");
    assert_eq!(hex("#12345678"), "#12345678");
    assert_eq!(hex("#fedcba"), "#fedcba");
}

#[test]
fn hex_channels_are_bytes_over_255() {
    assert_eq!(parse_solid("#ff8000").unwrap(), rgba8(255, 128, 0, 255));
    assert_eq!(parse_solid("#f80").unwrap(), rgba8(255, 136, 0, 255));
}

#[test]
fn hex_without_hash() {
    assert_eq!(hex("0f0"), "#00ff00");
    assert_eq!(hex("  00ff0080 "), "#00ff0080");
}

#[test]
fn hex_errors() {
    assert_eq!(kind_of("#12345"), ErrorKind::InvalidHex);
    assert_eq!(kind_of("#ggg"), ErrorKind::InvalidHex);
    assert_eq!(kind_of("#"), ErrorKind::InvalidHex);
    assert_eq!(kind_of("zzz"), ErrorKind::InvalidUnknown);
    assert_eq!(kind_of(""), ErrorKind::InvalidUnknown);
}

#[test]
fn named_colors() {
    assert_eq!(parse_solid("red").unwrap(), rgba8(255, 0, 0, 255));
    assert_eq!(parse_solid("  RebeccaPurple ").unwrap(), rgba8(102, 51, 153, 255));
    assert_eq!(parse_solid("yellowgreen").unwrap(), rgba8(154, 205, 50, 255));
    assert_eq!(hex("aliceblue"), "#f0f8ff");
}

#[test]
fn keywords() {
    let z = frac(0, 1);
    assert_eq!(parse_solid("transparent").unwrap(), Solid::Rgba(Channels { r: z, g: z, b: z, a: z }));
    assert_eq!(hex("Transparent"), "#00000000");
    assert_eq!(parse_solid("accent").unwrap(), Solid::Accent { active: true });
    assert_eq!(parse_solid("accent_inactive").unwrap(), Solid::Accent { active: false });
}

#[test]
fn rgb_absolute_and_percent() {
    let c = channels("rgb(255, 0, 0)");
    assert_eq!(c, Channels { r: frac(255, 255), g: frac(0, 255), b: frac(0, 255), a: frac(1, 1) });
    let c = channels("rgb(100%, 0%, 0%)");
    assert_eq!(c, Channels { r: frac(100, 100), g: frac(0, 100), b: frac(0, 100), a: frac(1, 1) });
    assert_eq!(hex("rgb(0 255 0 / 50%)"), "#00ff0080");
    assert_eq!(hex("rgba(0,255,0,1)"), "#00ff00");
}

#[test]
fn rgb_and_percent_agree_within_one_step() {
    let a = channels("rgb(255, 128, 64)");
    let b = channels("rgb(100%, 50.2%, 25.1%)");
    for (x, y) in [(a.r, b.r), (a.g, b.g), (a.b, b.b)] {
        assert!((value(&x) - value(&y)).abs() <= 1.0 / 255.0);
    }
}

#[test]
fn rgb_clamps_channels() {
    let c = channels("rgb(300, -5, 128, 2)");
    assert_eq!(c.r, frac(255, 255));
    assert_eq!(c.g, frac(0, 255));
    assert_eq!(c.b, frac(128, 255));
    assert_eq!(c.a, frac(1, 1));
}

#[test]
fn rgb_mixed_formats_fail() {
    assert_eq!(kind_of("rgb(50%, 100, 0)"), ErrorKind::InvalidRgb);
    assert_eq!(kind_of("rgb(1, 2)"), ErrorKind::InvalidRgb);
    assert_eq!(kind_of("rgb(1, 2, x)"), ErrorKind::InvalidRgb);
}

#[test]
fn unknown_function_fails() {
    assert_eq!(kind_of("cmyk(0,0,0,0)"), ErrorKind::InvalidFunction);
}

#[test]
fn hsl_forms() {
    let red = parse_solid("hsl(0,100%,50%)").unwrap();
    assert_eq!(
        red,
        Solid::Hsla { h: Angle::Degrees(frac(0, 1)), s: frac(100, 100), l: frac(50, 100), a: frac(1, 1) }
    );
    let green = parse_solid("hsl(120deg 100% 50%)").unwrap();
    assert_eq!(
        green,
        Solid::Hsla { h: Angle::Degrees(frac(120, 1)), s: frac(100, 100), l: frac(50, 100), a: frac(1, 1) }
    );
    match parse_solid("hsl(0.5turn, 1, 0.5)").unwrap() {
        Solid::Hsla { h, .. } => assert_eq!(h, Angle::Degrees(frac(1800, 10))),
        other => panic!("{:?}", other),
    }
    match parse_solid("hsl(100grad 100% 50%)").unwrap() {
        Solid::Hsla { h, .. } => assert_eq!(h, Angle::Degrees(frac(900, 10))),
        other => panic!("{:?}", other),
    }
    match parse_solid("hsl(2rad 100% 50%)").unwrap() {
        Solid::Hsla { h, .. } => assert_eq!(h, Angle::Radians(frac(2, 1))),
        other => panic!("{:?}", other),
    }
    match parse_solid("hsl(-240 100% 50%)").unwrap() {
        Solid::Hsla { h, .. } => assert_eq!(h, Angle::Degrees(Number { negative: true, num: 240, den: 1 })),
        other => panic!("{:?}", other),
    }
}

#[test]
fn hsl_errors() {
    assert_eq!(kind_of("hsl(120, 100%, 0.5)"), ErrorKind::InvalidHsl);
    assert_eq!(kind_of("hsl(x, 100%, 50%)"), ErrorKind::InvalidHsl);
    assert_eq!(kind_of("hsla(1, 2%, 3%, 4, 5)"), ErrorKind::InvalidHsl);
}

#[test]
fn darken_and_lighten() {
    let d = parse_solid("darken(#ff0000, 10%)").unwrap();
    assert_eq!(
        d,
        Solid::Shift { base: Box::new(rgba8(255, 0, 0, 255)), amount: frac(10, 100), lighten: false }
    );
    let l = parse_solid("lighten(rgb(0, 0, 255), 25.5%)").unwrap();
    match l {
        Solid::Shift { base, amount, lighten } => {
            assert!(lighten);
            assert_eq!(amount, frac(255, 1000));
            assert_eq!(base.to_hex_string().unwrap(), "#0000ff");
        }
        other => panic!("{:?}", other),
    }
    assert_eq!(kind_of("darken(#ff0000)"), ErrorKind::InvalidDarken);
    assert_eq!(kind_of("darken(#ff0000, 10)"), ErrorKind::InvalidDarken);
    assert_eq!(kind_of("darken(nocolor, 10%)"), ErrorKind::InvalidDarken);
    assert_eq!(kind_of("lighten(red, -5%)"), ErrorKind::InvalidLighten);
}

#[test]
fn gradient_keyword_direction() {
    let g = match parse("gradient(red, blue, to right)").unwrap() {
        Color(ColorValue::Gradient(g)) => g,
        other => panic!("{:?}", other),
    };
    assert_eq!(
        g.direction,
        Direction::Line(GradientCoordinates { start: [frac(0, 2), frac(1, 2)], end: [frac(2, 2), frac(1, 2)] })
    );
    assert_eq!(g.colors, vec![rgba8(255, 0, 0, 255), rgba8(0, 0, 255, 255)]);
}

#[test]
fn gradient_angle_direction() {
    let g = parse_gradient("gradient(red, blue, 45deg)").unwrap();
    assert_eq!(g.direction, Direction::Angle(Angle::Degrees(frac(45, 1))));
    assert_eq!(g.colors.len(), 2);
}

#[test]
fn gradient_defaults_and_mixed_stops() {
    let g = parse_gradient("gradient(#0f0, rgb(0, 255, 0))").unwrap();
    assert_eq!(
        g.direction,
        Direction::Line(GradientCoordinates { start: [frac(0, 2), frac(1, 2)], end: [frac(2, 2), frac(1, 2)] })
    );
    assert_eq!(g.colors.len(), 2);
    assert_eq!(g.colors[0].to_hex_string().unwrap(), "#00ff00");
    assert_eq!(g.colors[1].to_hex_string().unwrap(), "#00ff00");
    let g = parse_gradient("gradient(red, #00f, to bottom left)").unwrap();
    assert_eq!(
        g.direction,
        Direction::Line(GradientCoordinates { start: [frac(2, 2), frac(0, 2)], end: [frac(0, 2), frac(2, 2)] })
    );
}

#[test]
fn gradient_errors() {
    assert_eq!(parse_gradient("linear(red, blue)").unwrap_err().kind(), ErrorKind::InvalidGradient);
    let e = parse("gradientx").unwrap_err();
    assert_eq!(e.kind(), ErrorKind::InvalidUnknown);
}

#[test]
fn coordinates() {
    assert_eq!(
        parse_coordinates("to top left").unwrap(),
        Direction::Line(GradientCoordinates { start: [frac(2, 2), frac(2, 2)], end: [frac(0, 2), frac(0, 2)] })
    );
    assert_eq!(parse_coordinates("90").unwrap(), Direction::Angle(Angle::Degrees(frac(90, 1))));
    assert_eq!(parse_coordinates("sideways").unwrap_err().kind(), ErrorKind::InvalidGradientCoordinates);
}

#[test]
fn directions_and_angles() {
    assert!(colorparser_css::is_valid_direction("to bottom right"));
    assert!(colorparser_css::is_valid_direction("45deg"));
    assert!(!colorparser_css::is_valid_direction("45"));
    assert!(!colorparser_css::is_valid_direction("to the moon"));
    assert!(colorparser_css::is_valid_angle("1.5turn"));
    assert!(colorparser_css::is_valid_angle("-20grad"));
    assert!(colorparser_css::is_valid_angle("3rad"));
    assert!(!colorparser_css::is_valid_angle("deg"));
}

#[test]
fn strip_string_removes_first_prefix_and_suffix() {
    assert_eq!(strip_string("gradient(red)".to_string(), &["gradient("], ')'), "red");
    assert_eq!(strip_string("abc".to_string(), &["x", "a", "ab"], 'c'), "b");
    assert_eq!(strip_string("abc".to_string(), &["x"], 'z'), "abc");
}

#[test]
fn errors_carry_kind_and_message() {
    let e = Error::new(ErrorKind::InvalidRgb, "rgb(1)");
    assert_eq!(e.kind(), ErrorKind::InvalidRgb);
    assert_eq!(e.message(), "rgb(1)");
    let e = parse_solid("cmyk(1)").unwrap_err();
    assert_eq!(e.message(), "cmyk(1)");
}

#[test]
fn color_accessors() {
    let c = Color::from_html("red").unwrap();
    assert_eq!(c.to_solid().unwrap(), rgba8(255, 0, 0, 255));
    let c = Color::from_html("gradient(red, blue)").unwrap();
    assert_eq!(c.to_solid().unwrap_err().kind(), ErrorKind::InvalidFunction);
    let c = Color::from_html("gradient(red, blue)").unwrap();
    assert_eq!(c.to_gradient().unwrap().colors.len(), 2);
}

#[test]
fn error_text() {
    assert_eq!(Error::new(ErrorKind::InvalidHex, "#12").to_text(), "invalid hex format (#12)");
    assert_eq!(Error::new(ErrorKind::InvalidUnknown, "").to_text(), "invalid unknown format");
    assert_eq!(ErrorKind::InvalidGradientCoordinates.as_str(), "invalid gradient coordinates format");
    assert_eq!(ErrorKind::InvalidFunction.as_str(), "invalid color function");
}

#[test]
fn numbers_with_exponents() {
    assert!(colorparser_css::is_valid_direction("1e3deg"));
    assert!(colorparser_css::is_valid_angle("2.5E-1turn"));
    let c = channels("rgb(1e2, 0, 2.55E2)");
    assert_eq!(c.r, frac(100, 255));
    assert_eq!(c.b, frac(255, 255));
    match parse_solid("hsl(1.2e2, 1e2%, 5E1%)").unwrap() {
        Solid::Hsla { h, s, l, .. } => {
            assert_eq!(h, Angle::Degrees(frac(120, 1)));
            assert_eq!(s, frac(100, 100));
            assert_eq!(l, frac(50, 100));
        }
        other => panic!("{:?}", other),
    }
    assert_eq!(parse_coordinates("2.5e-1turn").unwrap(), Direction::Angle(Angle::Degrees(frac(9000, 100))));
    assert_eq!(parse_coordinates("0e99").unwrap(), Direction::Angle(Angle::Degrees(frac(0, 1))));
    assert_eq!(
        parse_coordinates("1e-20deg").unwrap(),
        Direction::Angle(Angle::Degrees(frac(0, 1_000_000_000_000_000)))
    );
    assert_eq!(kind_of("rgb(1e, 0, 0)"), ErrorKind::InvalidRgb);
    assert_eq!(kind_of("rgb(1e+, 0, 0)"), ErrorKind::InvalidRgb);
    assert_eq!(channels("rgb(1e20, 0, 0)").r, frac(255, 255));
    let d = parse_solid("darken(red, 1e1%)").unwrap();
    assert_eq!(d, Solid::Shift { base: Box::new(rgba8(255, 0, 0, 255)), amount: frac(10, 100), lighten: false });
}

#[test]
fn error_messages_carry_the_text() {
    let e = parse_solid("  RGB(50%, 100, 0) ").unwrap_err();
    assert_eq!(e.kind(), ErrorKind::InvalidRgb);
    assert_eq!(e.message(), "rgb(50%, 100, 0)");
    let e = parse_solid("#12345").unwrap_err();
    assert_eq!(e.message(), "12345");
    let e = parse_gradient("linear(red)").unwrap_err();
    assert_eq!(e.message(), "linear(red)");
    let e = parse_coordinates("sideways").unwrap_err();
    assert_eq!(e.message(), "sideways");
}

#[test]
fn names_of_colors() {
    assert_eq!(channels("#ff0000").name(), Some("red"));
    assert_eq!(channels("rgb(0, 255, 255)").name(), Some("aqua"));
    assert_eq!(channels("rgb(0, 128, 0)").name(), Some("green"));
    assert_eq!(channels("#123456").name(), None);
    assert_eq!(channels("rgba(102, 51, 153, 0.5)").name(), Some("rebeccapurple"));
}

#[test]
fn long_and_large_numbers() {
    assert!(colorparser_css::is_valid_direction("1e15deg"));
    assert!(colorparser_css::is_valid_direction("51.42857142857143deg"));
    assert_eq!(
        parse_coordinates("51.42857142857143deg").unwrap(),
        Direction::Angle(Angle::Degrees(frac(514285714285714, 10_000_000_000_000)))
    );
    // rounded half up on the first digit dropped
    assert_eq!(
        parse_coordinates("0.12345678901234567").unwrap(),
        Direction::Angle(Angle::Degrees(frac(123456789012346, 1_000_000_000_000_000)))
    );
    // a carry out of fifteen nines moves up a power of ten
    assert_eq!(
        parse_coordinates("9.9999999999999999").unwrap(),
        Direction::Angle(Angle::Degrees(frac(100_000_000_000_000, 10_000_000_000_000)))
    );
    // magnitudes of 10^15 and more are held at 10^15
    assert_eq!(
        parse_coordinates("-1e300deg").unwrap(),
        Direction::Angle(Angle::Degrees(Number { negative: true, num: 1_000_000_000_000_000, den: 1 }))
    );
    assert_eq!(
        parse_coordinates("1234567890123456789").unwrap(),
        Direction::Angle(Angle::Degrees(frac(1_000_000_000_000_000, 1)))
    );
    // values finer than 10^-15 round to fifteen decimal places
    assert_eq!(
        parse_coordinates("5e-16").unwrap(),
        Direction::Angle(Angle::Degrees(frac(1, 1_000_000_000_000_000)))
    );
    let c = channels("rgb(33.33333333333333%, 0%, 0%)");
    assert_eq!(c.r, frac(333333333333333, 10_000_000_000_000 * 100));
    assert_eq!(c.to_rgba8()[0], 85);
    assert_eq!(channels("rgb(1234567890123456, 0, 0)").r, frac(255, 255));
}
