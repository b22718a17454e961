use std::mem::size_of;
use tego::color::Color;
use tego::decimal::Decimal;
use tego::gid::GID;
use tego::math::{ivec2, Rect};
use tego::number::{decimal, signed, unsigned};
use tego::parse::FromText;
use tego::text::{same, split, split_words, trim};
use tego::tilemap::{Orientation, Renderorder};
use tego::version::Version;
use tego::Error;

#[test]
fn test_version_parsing() {
    assert_eq!("1.0".parse::<Version>().unwrap(), Version(1, 0, None));
    assert_eq!("4.5.3".parse::<Version>().unwrap(), Version(4, 5, Some(3)));
}

#[test]
fn test_gid_size_optimization() {
    assert_eq!(size_of::<Option<GID>>(), size_of::<u32>());
}

#[test]
fn test_color_parsing() {
    assert_eq!(Color::from_argb(255, 255, 255, 255), "#FFFFFFFF".parse().unwrap());
    assert_eq!(Color::from_argb(255, 0, 255, 255), "#00FFFF".parse().unwrap());

    // missing hashtag (#)
    assert!("00FFFF".parse::<Color>().is_err());

    // not enough components
    assert!("#FFFF".parse::<Color>().is_err());

    // too many enough components
    assert!("#FF00FF00FF".parse::<Color>().is_err());

    // invalid hex
    assert!("#FQ00FF".parse::<Color>().is_err());
}

#[test]
fn version_round_trips_through_its_text() {
    for version in [
        Version(0, 0, None),
        Version(1, 5, None),
        Version(1, 7, Some(2)),
        Version(10, 200, Some(3000)),
        Version(u32::MAX, u32::MAX, Some(u32::MAX)),
    ] {
        assert_eq!(Version::from_str(&version.to_text()).unwrap(), version);
    }
    assert_eq!(Version(1, 7, Some(2)).to_text(), "1.7.2");
    assert_eq!(Version(4, 0, None).to_text(), "4.0");
}

#[test]
fn version_needs_major_and_minor() {
    for text in ["", "1", ".5", "1.", ".", "a.b", "1.x", "1.2.", "1.2.x", "4294967296.0", "-1.0"] {
        assert!(
            matches!(Version::from_str(text), Err(Error::ParseError(_))),
            "{:?} should not be a version",
            text
        );
    }
}

#[test]
fn version_ignores_what_follows_the_patch() {
    assert_eq!(Version::from_str("1.2.3.4").unwrap(), Version(1, 2, Some(3)));
    assert_eq!(Version::from_str("+1.+2").unwrap(), Version(1, 2, None));
    assert_eq!(Version::from_str("01.002").unwrap(), Version(1, 2, None));
}

#[test]
fn gid_masks_the_flip_flags() {
    let plain = GID::new(5).unwrap();
    assert_eq!(plain.to_id(), 5);
    assert_eq!(plain.as_raw(), 5);
    assert!(!plain.flip_horizontal() && !plain.flip_vertical() && !plain.flip_diagonal());

    let horizontal = GID::new(0x8000_0005).unwrap();
    assert_eq!(horizontal.to_id(), 5);
    assert_eq!(horizontal.as_raw(), 0x8000_0005);
    assert!(horizontal.flip_horizontal());
    assert!(!horizontal.flip_vertical());
    assert!(!horizontal.flip_diagonal());

    let vertical = GID::new(0x4000_0005).unwrap();
    assert_eq!(vertical.to_id(), 5);
    assert!(!vertical.flip_horizontal() && vertical.flip_vertical() && !vertical.flip_diagonal());

    let diagonal = GID::new(0x2000_0005).unwrap();
    assert_eq!(diagonal.to_id(), 5);
    assert!(!diagonal.flip_horizontal() && !diagonal.flip_vertical() && diagonal.flip_diagonal());

    let all = GID::new(0xFFFF_FFFF).unwrap();
    assert_eq!(all.to_id(), 0x1FFF_FFFF);
    assert!(all.flip_horizontal() && all.flip_vertical() && all.flip_diagonal());

    let flags_only = GID::new(0xE000_0000).unwrap();
    assert_eq!(flags_only.to_id(), 0);
}

#[test]
fn gid_is_never_zero() {
    assert!(GID::new(0).is_none());
    assert!(matches!(GID::from_str("0"), Err(Error::ParseError(_))));
    assert!(matches!("000".parse::<GID>(), Err(Error::ParseError(_))));
    assert!(matches!(GID::from_str(""), Err(Error::ParseError(_))));
    assert!(matches!(GID::from_str("4294967296"), Err(Error::ParseError(_))));
    assert_eq!(GID::from_str("4294967295").unwrap().as_raw(), u32::MAX);
    assert_eq!(GID::from_str("17").unwrap(), GID::new(17).unwrap());
}

#[test]
fn gid_copies_and_orders_by_number() {
    let a = GID::new(3).unwrap();
    let b = a;
    let c = a.clone();
    assert_eq!(a, b);
    assert_eq!(a, c);
    assert!(GID::new(3).unwrap() < GID::new(4).unwrap());
}

#[test]
fn color_channels_reproduce_the_hex_pairs() {
    let c = Color::from_str("#12ab56EF").unwrap();
    assert_eq!((c.alpha(), c.red(), c.green(), c.blue()), (0x12, 0xAB, 0x56, 0xEF));
    assert_eq!(c.to_u32(), 0x12AB56EF);

    let c = Color::from_str("#FFCC00").unwrap();
    assert_eq!((c.alpha(), c.red(), c.green(), c.blue()), (0xFF, 0xFF, 0xCC, 0x00));
    assert_eq!(c.to_u32(), 0xFFFFCC00);

    let c = Color::from_str("#000000").unwrap();
    assert_eq!(c.to_u32(), 0xFF000000);
    let c = Color::from_str("#00000000").unwrap();
    assert_eq!(c.to_u32(), 0);
    assert_eq!(c, Color::default());
}

#[test]
fn color_rejects_everything_else() {
    for text in [
        "", "#", "FFCC00", "FFFFCC00", "#FFCC0", "#FFCC000", "#FFCC", "#FFCC00FFCC", "#GGCC00",
        "#+FFCC0", "#-FFCC0", "#+FFFFFFF", " #FFCC00", "#FFCC00 ", "#FF CC00", "##FFCC0",
        "#ÿÿÿ", "#FFCC0é",
    ] {
        assert!(
            matches!(Color::from_str(text), Err(Error::ParseError(_))),
            "{:?} should not be a color",
            text
        );
    }
}

#[test]
fn color_packs_its_channels() {
    let c = Color::from_argb(1, 2, 3, 4);
    assert_eq!(c.to_u32(), 0x01020304);
    assert_eq!((c.alpha(), c.red(), c.green(), c.blue()), (1, 2, 3, 4));
    assert_eq!(Color::from_argb(255, 160, 160, 164).to_u32(), 0xFFA0A0A4);
}

#[test]
fn unsigned_numbers() {
    assert_eq!(unsigned("0", 10), Some(0));
    assert_eq!(unsigned("10", 10), Some(10));
    assert_eq!(unsigned("11", 10), None);
    assert_eq!(unsigned("+7", 10), Some(7));
    assert_eq!(unsigned("007", 10), Some(7));
    assert_eq!(unsigned("18446744073709551615", u64::MAX), Some(u64::MAX));
    assert_eq!(unsigned("18446744073709551616", u64::MAX), None);
    assert_eq!(unsigned("99999999999999999999999999", u64::MAX), None);
    for text in ["", "+", "-", "-1", "-0", "1 ", " 1", "1_0", "0x10", "1.0", "１"] {
        assert_eq!(unsigned(text, u64::MAX), None, "{:?}", text);
    }
}

#[test]
fn signed_numbers() {
    assert_eq!(signed("0", -5, 5), Some(0));
    assert_eq!(signed("-0", -5, 5), Some(0));
    assert_eq!(signed("-5", -5, 5), Some(-5));
    assert_eq!(signed("-6", -5, 5), None);
    assert_eq!(signed("5", -5, 5), Some(5));
    assert_eq!(signed("+5", -5, 5), Some(5));
    assert_eq!(signed("6", -5, 5), None);
    assert_eq!(signed("-9223372036854775808", i64::MIN, i64::MAX), Some(i64::MIN));
    assert_eq!(signed("-9223372036854775809", i64::MIN, i64::MAX), None);
    assert_eq!(signed("9223372036854775807", i64::MIN, i64::MAX), Some(i64::MAX));
    assert_eq!(signed("9223372036854775808", i64::MIN, i64::MAX), None);
    for text in ["", "+", "-", "--1", "+-1", "-+1", "1-", "- 1"] {
        assert_eq!(signed(text, i64::MIN, i64::MAX), None, "{:?}", text);
    }
    // ranges on one side of zero
    assert_eq!(signed("5", 3, 10), Some(5));
    assert_eq!(signed("2", 3, 10), None);
    assert_eq!(signed("0", 1, 5), None);
    assert_eq!(signed("-0", 1, 5), None);
    assert_eq!(signed("-5", -10, -3), Some(-5));
    assert_eq!(signed("-2", -10, -3), None);
    assert_eq!(signed("-11", -10, -3), None);
    assert_eq!(signed("5", -10, -3), None);
    assert_eq!(signed("-0", 0, 0), Some(0));
    assert_eq!(signed("1", 5, 3), None);
}

#[test]
fn numbers_are_written_in_decimal() {
    assert_eq!(decimal(0), "0");
    assert_eq!(decimal(7), "7");
    assert_eq!(decimal(10), "10");
    assert_eq!(decimal(1234567890), "1234567890");
    assert_eq!(decimal(u64::MAX), "18446744073709551615");
}

#[test]
fn values_are_read_from_text() {
    assert_eq!(u32::from_text("4294967295").unwrap(), u32::MAX);
    assert!(u32::from_text("4294967296").is_err());
    assert_eq!(usize::from_text("12").unwrap(), 12);
    assert_eq!(i32::from_text("-2147483648").unwrap(), i32::MIN);
    assert!(i32::from_text("2147483648").is_err());
    assert_eq!(i64::from_text("-42").unwrap(), -42);
    assert_eq!(bool::from_text("true").unwrap(), true);
    assert_eq!(bool::from_text("false").unwrap(), false);
    assert!(bool::from_text("True").is_err());
    assert!(bool::from_text("1").is_err());
    assert_eq!(String::from_text("any text").unwrap(), "any text");
    assert_eq!(Version::from_text("1.2").unwrap(), Version(1, 2, None));
    assert_eq!(Color::from_text("#010203").unwrap(), Color::from_argb(255, 1, 2, 3));
    assert_eq!(GID::from_text("9").unwrap().as_raw(), 9);
    assert_eq!(Decimal::from_text("0.5").unwrap().as_str(), "0.5");
}

#[test]
fn decimal_numbers_keep_their_text() {
    for text in [
        "0", "1", "0.5", ".5", "5.", "-12.25", "+3", "1e5", "1E5", "1e+5", "1.5e-3", "1.e5",
        "inf", "-inf", "+Infinity", "NaN", "nan", "-nan", "0000.1000",
    ] {
        assert_eq!(Decimal::from_str(text).unwrap().as_str(), text);
    }
    assert_eq!(Decimal::zero().as_str(), "0");
    assert_eq!(Decimal::one().as_str(), "1");
    assert_eq!(Decimal::from_str("2.5").unwrap().clone().as_str(), "2.5");
}

#[test]
fn decimal_numbers_follow_the_grammar_of_the_standard_library() {
    let good = [
        "0", "0.5", ".5", "5.", "-12.25", "+3", "1e5", "1E-5", "1.e5", ".5e1", "inf", "INF",
        "infinity", "-Infinity", "nan", "+NaN",
    ];
    let bad = [
        "", ".", "+", "-", "e5", ".e5", "1e", "1e+", "1e5.0", "1..2", "1.2.3", "--1", " 1", "1 ",
        "1,5", "0x10", "infinit", "in", "nanx", "1f", "１",
    ];
    for text in good {
        assert!(text.parse::<f64>().is_ok(), "{:?}", text);
        assert!(text.parse::<f32>().is_ok(), "{:?}", text);
        assert!(Decimal::from_str(text).is_ok(), "{:?}", text);
    }
    for text in bad {
        assert!(text.parse::<f64>().is_err(), "{:?}", text);
        assert!(matches!(Decimal::from_str(text), Err(Error::ParseError(_))), "{:?}", text);
    }
}

#[test]
fn names_of_orientations_and_render_orders() {
    assert_eq!(Orientation::from_str("orthogonal").unwrap(), Orientation::Orthogonal);
    assert_eq!(Orientation::from_str("isometric").unwrap(), Orientation::Isometric);
    assert_eq!(Orientation::from_str("staggered").unwrap(), Orientation::Staggered);
    assert_eq!("hexagonal".parse::<Orientation>().unwrap(), Orientation::Hexagonal);
    assert!(matches!(Orientation::from_str("Orthogonal"), Err(Error::ParseError(_))));
    assert!(matches!(Orientation::from_str(""), Err(Error::ParseError(_))));

    assert_eq!(Renderorder::from_str("right-down").unwrap(), Renderorder::RightDown);
    assert_eq!(Renderorder::from_str("right-up").unwrap(), Renderorder::RightUp);
    assert_eq!(Renderorder::from_str("left-down").unwrap(), Renderorder::LeftDown);
    assert_eq!("left-up".parse::<Renderorder>().unwrap(), Renderorder::LeftUp);
    assert!(matches!(Renderorder::from_str("down-right"), Err(Error::ParseError(_))));
    assert_eq!(Renderorder::default(), Renderorder::RightDown);
}

#[test]
fn texts_are_compared_cut_and_trimmed() {
    assert!(same("", ""));
    assert!(same("layer", "layer"));
    assert!(!same("layer", "layers"));
    assert!(!same("layer", "Layer"));
    assert!(same("né", "né"));

    assert_eq!(split("1.2.3", '.'), vec!["1", "2", "3"]);
    assert_eq!(split("", '.'), vec![""]);
    assert_eq!(split(".", '.'), vec!["", ""]);
    assert_eq!(split("a..b.", '.'), vec!["a", "", "b", ""]);
    assert_eq!(split("né,é", ','), vec!["né", "é"]);

    assert_eq!(split_words("  a b\t\tc\n"), vec!["a", "b", "c"]);
    assert_eq!(split_words(""), Vec::<String>::new());
    assert_eq!(split_words(" \r\n\x0C"), Vec::<String>::new());
    assert_eq!(split_words("0,0 1.5,2\n-3,4"), vec!["0,0", "1.5,2", "-3,4"]);
    // a vertical tab is no ASCII white space
    assert_eq!(split_words("a\x0Bb"), vec!["a\x0Bb"]);

    assert_eq!(trim("  a b \n"), "a b");
    assert_eq!(trim(""), "");
    assert_eq!(trim(" \t\r\n"), "");
    assert_eq!(trim("\u{3000}x\u{a0}"), "x");
    assert_eq!(trim("x"), "x");
    for text in ["", " a", "a ", "\n\ta b\x0B\x0C", "\u{2003}é\u{205F}", "\u{200B}x"] {
        assert_eq!(trim(text), text.trim(), "{:?}", text);
    }
}

#[test]
fn vectors_and_rectangles() {
    let a = ivec2::new(6, -8);
    let b = ivec2::new(2, 4);
    assert_eq!(a + b, ivec2::new(8, -4));
    assert_eq!(a - b, ivec2::new(4, -12));
    assert_eq!(a * b, ivec2::new(12, -32));
    assert_eq!(a / b, ivec2::new(3, -2));
    assert_eq!(ivec2::new(-7, 7) / ivec2::new(2, -2), ivec2::new(-3, -3));
    assert_eq!(a * 3, ivec2::new(18, -24));
    assert_eq!(3 * a, ivec2::new(18, -24));
    assert_eq!(ivec2::default(), ivec2::new(0, 0));
    let r = Rect::new(a, b);
    assert_eq!(r.upper_left, a);
    assert_eq!(r.size, b);
}

#[test]
fn errors_describe_themselves() {
    let e = Error::StructureError { tag: "map".to_string(), msg: "broken".to_string() };
    assert_eq!(e.message(), "Error in the map data at 'map': \"broken\"");
    assert_eq!(Error::UnsupportedFeature("csv".to_string()).message(), "Feature not supported: csv");
    assert_eq!(Error::ParseError("bad number".to_string()).message(), "bad number");
    assert_eq!(Error::IO("no such file".to_string()).message(), "no such file");
    assert!(!Error::PropertyTypeError.message().is_empty());
}
