use tego::decimal::Decimal;
use tego::number::{signed, unsigned};
use tego::parse::FromText;
use tego::text::{same, split, split_words, trim};

/// A small generator of numbers that gives the same sequence on every run.
struct Sequence(u64);

impl Sequence {
    fn next(&mut self) -> u64 {
        self.0 = self.0.wrapping_mul(6364136223846793005).wrapping_add(1442695040888963407);
        self.0 >> 33
    }

    fn text(&mut self, alphabet: &[char], longest: u64) -> String {
        let len = self.next() % (longest + 1);
        (0..len).map(|_| alphabet[(self.next() % alphabet.len() as u64) as usize]).collect()
    }
}

#[test]
fn integers_are_read_as_the_standard_library_reads_them() {
    let alphabet: Vec<char> = "0123456789+-0123456789 _x".chars().collect();
    let mut sequence = Sequence(1);
    let mut read = 0;
    for _ in 0..20000 {
        let text = sequence.text(&alphabet, 12);
        assert_eq!(u32::from_text(&text).ok(), text.parse::<u32>().ok(), "{:?}", text);
        assert_eq!(usize::from_text(&text).ok(), text.parse::<usize>().ok(), "{:?}", text);
        assert_eq!(i32::from_text(&text).ok(), text.parse::<i32>().ok(), "{:?}", text);
        assert_eq!(i64::from_text(&text).ok(), text.parse::<i64>().ok(), "{:?}", text);
        assert_eq!(unsigned(&text, u64::MAX), text.parse::<u64>().ok(), "{:?}", text);
        assert_eq!(signed(&text, i64::MIN, i64::MAX), text.parse::<i64>().ok(), "{:?}", text);
        if text.parse::<i64>().is_ok() {
            read += 1;
        }
    }
    assert!(read > 1000);
    for text in [
        "2147483647", "2147483648", "-2147483648", "-2147483649", "4294967295", "4294967296",
        "9223372036854775807", "9223372036854775808", "-9223372036854775808",
        "-9223372036854775809", "18446744073709551615", "18446744073709551616",
        "00000000000000000000000000000000000000001", "+0", "-0", "+", "-", "",
    ] {
        assert_eq!(u32::from_text(text).ok(), text.parse::<u32>().ok(), "{:?}", text);
        assert_eq!(usize::from_text(text).ok(), text.parse::<usize>().ok(), "{:?}", text);
        assert_eq!(i32::from_text(text).ok(), text.parse::<i32>().ok(), "{:?}", text);
        assert_eq!(i64::from_text(text).ok(), text.parse::<i64>().ok(), "{:?}", text);
    }
}

#[test]
fn booleans_are_read_as_the_standard_library_reads_them() {
    for text in ["true", "false", "True", "FALSE", "", "1", "0", " true", "true ", "yes", "truefalse"] {
        assert_eq!(bool::from_text(text).ok(), text.parse::<bool>().ok(), "{:?}", text);
    }
}

#[test]
fn numbers_with_a_fraction_are_accepted_as_the_standard_library_accepts_them() {
    let alphabet: Vec<char> = "0123456789..++--eEeEinfatyINFATY 0123456789".chars().collect();
    let mut sequence = Sequence(2);
    let mut accepted = 0;
    for _ in 0..40000 {
        let text = sequence.text(&alphabet, 9);
        let ours = Decimal::from_str(&text).is_ok();
        assert_eq!(ours, text.parse::<f64>().is_ok(), "{:?}", text);
        assert_eq!(ours, text.parse::<f32>().is_ok(), "{:?}", text);
        if ours {
            accepted += 1;
        }
    }
    assert!(accepted > 1000);
    // digits and one of the other characters each: these are accepted more often
    let alphabet: Vec<char> = "0123456789".chars().collect();
    for extra in [".", "e", "E", "-", "+", "e-", ".e", "E+"] {
        for _ in 0..2000 {
            let mut text = sequence.text(&alphabet, 6);
            for piece in extra.chars() {
                let at = (sequence.next() % (text.len() as u64 + 1)) as usize;
                text.insert(at, piece);
                let more = sequence.text(&alphabet, 3);
                text.insert_str(at + 1, &more);
            }
            assert_eq!(Decimal::from_str(&text).is_ok(), text.parse::<f64>().is_ok(), "{:?}", text);
        }
    }
    for word in ["inf", "infinity", "nan", "Inf", "iNfInItY", "NAN", "infinit", "infinityy", "na", "nann"] {
        for sign in ["", "+", "-", "++", " "] {
            let text = format!("{}{}", sign, word);
            assert_eq!(Decimal::from_str(&text).is_ok(), text.parse::<f64>().is_ok(), "{:?}", text);
        }
    }
}

#[test]
fn text_is_cut_and_trimmed_as_the_standard_library_does_it() {
    let alphabet: Vec<char> =
        "ab,. \t\n\r\u{0B}\u{0C}\u{85}\u{A0}\u{1680}\u{2000}\u{200A}\u{200B}\u{2028}\u{2029}\u{202F}\u{205F}\u{3000}\u{FEFF}é"
            .chars()
            .collect();
    let mut sequence = Sequence(3);
    for _ in 0..20000 {
        let text = sequence.text(&alphabet, 10);
        assert_eq!(trim(&text), text.trim(), "{:?}", text);
        assert_eq!(
            split_words(&text),
            text.split_ascii_whitespace().collect::<Vec<_>>(),
            "{:?}",
            text
        );
        assert_eq!(split(&text, ','), text.split(',').collect::<Vec<_>>(), "{:?}", text);
        assert_eq!(split(&text, '.'), text.split('.').collect::<Vec<_>>(), "{:?}", text);
        let other = sequence.text(&alphabet, 10);
        assert_eq!(same(&text, &other), text == other, "{:?} {:?}", text, other);
        assert!(same(&text, &text.clone()));
    }
    for code in 0..0x3100u32 {
        if let Some(c) = char::from_u32(code) {
            assert_eq!(tego::text::space(c), c.is_whitespace(), "{:?}", c);
        }
    }
}
