//! Colors with eight bits for each of alpha, red, green and blue.

use crate::errors::{Error, Fault};
use crate::parse::FromText;
use crate::text::chars;
use vstd::prelude::*;
use vstd::string::StringExecFns;

verus! {

/// An 8 bit RGB color with alpha value, packed as `0xAARRGGBB`.
#[derive(Debug, PartialEq, Eq, Structural, Copy, Clone)]
pub struct Color(u32);

/// The packed value of four channels.
pub open spec fn argb(a: u8, r: u8, g: u8, b: u8) -> u32 {
    (a as u32 * 0x100_0000 + r as u32 * 0x1_0000 + g as u32 * 0x100 + b as u32) as u32
}

/// The number that a hexadecimal digit stands for, in either case.
pub open spec fn hex_digit(c: char) -> Option<u8> {
    let code = c as u32;
    if 48 <= code <= 57 {
        Some((code - 48) as u8)
    } else if 97 <= code <= 102 {
        Some((code - 87) as u8)
    } else if 65 <= code <= 70 {
        Some((code - 55) as u8)
    } else {
        None
    }
}

/// The byte that two hexadecimal digits write.
pub open spec fn hex_pair(high: char, low: char) -> Option<u8> {
    match (hex_digit(high), hex_digit(low)) {
        (Some(h), Some(l)) => Some((h * 16 + l) as u8),
        _ => None,
    }
}

/// The channels (alpha, red, green, blue) that a color text denotes:
/// `#AARRGGBB`, or `#RRGGBB` with full alpha.
pub open spec fn channels_of(s: Seq<char>) -> Option<(u8, u8, u8, u8)> {
    if s.len() == 9 && s[0] == '#' {
        match (hex_pair(s[1], s[2]), hex_pair(s[3], s[4]), hex_pair(s[5], s[6]), hex_pair(
            s[7],
            s[8],
        )) {
            (Some(a), Some(r), Some(g), Some(b)) => Some((a, r, g, b)),
            _ => None,
        }
    } else if s.len() == 7 && s[0] == '#' {
        match (hex_pair(s[1], s[2]), hex_pair(s[3], s[4]), hex_pair(s[5], s[6])) {
            (Some(r), Some(g), Some(b)) => Some((255u8, r, g, b)),
            _ => None,
        }
    } else {
        None
    }
}

/// A color text is read exactly when it is `#` followed by six or eight
/// hexadecimal digits; without the `#`, with another number of digits, or with
/// any other character in it, it is not.
pub proof fn lemma_color_text(s: Seq<char>)
    ensures
        channels_of(s) is Some <==> (s.len() == 7 || s.len() == 9) && s[0] == '#' && forall|
            i: int,
        |
            1 <= i < s.len() ==> hex_digit(#[trigger] s[i]) is Some,
{
    if channels_of(s) is Some {
        assert forall|i: int| 1 <= i < s.len() implies hex_digit(#[trigger] s[i]) is Some by {}
    }
    if (s.len() == 7 || s.len() == 9) && s[0] == '#' && forall|i: int|
        1 <= i < s.len() ==> hex_digit(#[trigger] s[i]) is Some {
        assert(hex_digit(s[1]) is Some && hex_digit(s[2]) is Some && hex_digit(s[3]) is Some);
        assert(hex_digit(s[4]) is Some && hex_digit(s[5]) is Some && hex_digit(s[6]) is Some);
        if s.len() == 9 {
            assert(hex_digit(s[7]) is Some && hex_digit(s[8]) is Some);
        }
    }
}

fn hex_of(c: char) -> (r: Option<u8>)
    ensures
        r == hex_digit(c),
{
    let code: u32 = c as u32;
    if 48 <= code && code <= 57 {
        Some((code - 48) as u8)
    } else if 97 <= code && code <= 102 {
        Some((code - 87) as u8)
    } else if 65 <= code && code <= 70 {
        Some((code - 55) as u8)
    } else {
        None
    }
}

fn pair_at(text: &Vec<char>, i: usize) -> (r: Option<u8>)
    requires
        i + 1 < text.len(),
    ensures
        r == hex_pair(text@[i as int], text@[i + 1]),
{
    match (hex_of(text[i]), hex_of(text[i + 1])) {
        (Some(h), Some(l)) => Some(h * 16 + l),
        _ => None,
    }
}

impl Color {
    /// The packed value `0xAARRGGBB`.
    pub closed spec fn bits(&self) -> u32 {
        self.0
    }

    pub open spec fn spec_alpha(&self) -> u8 {
        (self.bits() / 0x100_0000) as u8
    }

    pub open spec fn spec_red(&self) -> u8 {
        (self.bits() / 0x1_0000 % 0x100) as u8
    }

    pub open spec fn spec_green(&self) -> u8 {
        (self.bits() / 0x100 % 0x100) as u8
    }

    pub open spec fn spec_blue(&self) -> u8 {
        (self.bits() % 0x100) as u8
    }

    /// The color with the given channels.
    pub fn from_argb(a: u8, r: u8, g: u8, b: u8) -> (c: Self)
        ensures
            c.bits() == argb(a, r, g, b),
            c.alpha() == a,
            c.red() == r,
            c.green() == g,
            c.blue() == b,
    {
        let a32: u32 = a as u32;
        let r32: u32 = r as u32;
        let g32: u32 = g as u32;
        let b32: u32 = b as u32;
        assert((a32 << 24 | r32 << 16 | g32 << 8 | b32 << 0) == a32 * 0x100_0000 + r32 * 0x1_0000
            + g32 * 0x100 + b32) by (bit_vector)
            requires
                a32 < 256,
                r32 < 256,
                g32 < 256,
                b32 < 256,
        ;
        let packed: u32 = a32 << 24 | r32 << 16 | g32 << 8 | b32 << 0;
        assert(packed / 0x100_0000 == a32 && packed / 0x1_0000 % 0x100 == r32 && packed / 0x100
            % 0x100 == g32 && packed % 0x100 == b32) by (bit_vector)
            requires
                packed == a32 << 24 | r32 << 16 | g32 << 8 | b32 << 0,
                a32 < 256,
                r32 < 256,
                g32 < 256,
                b32 < 256,
        ;
        Color(packed)
    }

    #[verifier::when_used_as_spec(spec_alpha)]
    pub fn alpha(&self) -> (r: u8)
        ensures
            r == self.spec_alpha(),
    {
        let x: u32 = self.0;
        assert((x >> 24) & 0xFF == x / 0x100_0000) by (bit_vector);
        ((x >> 24) & 0xFF) as u8
    }

    #[verifier::when_used_as_spec(spec_red)]
    pub fn red(&self) -> (r: u8)
        ensures
            r == self.spec_red(),
    {
        let x: u32 = self.0;
        assert((x >> 16) & 0xFF == x / 0x1_0000 % 0x100) by (bit_vector);
        ((x >> 16) & 0xFF) as u8
    }

    #[verifier::when_used_as_spec(spec_green)]
    pub fn green(&self) -> (r: u8)
        ensures
            r == self.spec_green(),
    {
        let x: u32 = self.0;
        assert((x >> 8) & 0xFF == x / 0x100 % 0x100) by (bit_vector);
        ((x >> 8) & 0xFF) as u8
    }

    #[verifier::when_used_as_spec(spec_blue)]
    pub fn blue(&self) -> (r: u8)
        ensures
            r == self.spec_blue(),
    {
        let x: u32 = self.0;
        assert((x >> 0) & 0xFF == x % 0x100) by (bit_vector);
        ((x >> 0) & 0xFF) as u8
    }

    /// The packed value `0xAARRGGBB`.
    pub fn to_u32(&self) -> (r: u32)
        ensures
            r == self.bits(),
    {
        self.0
    }

    /// Reads a color from `#AARRGGBB` or `#RRGGBB`.
    pub fn from_str(s: &str) -> (r: Result<Color, Error>)
        ensures
            match r {
                Ok(c) => channels_of(s@) == Some((c.alpha(), c.red(), c.green(), c.blue())),
                Err(e) => channels_of(s@) is None && e@ == Fault::Parse,
            },
    {
        let text = chars(s);
        let n: usize = text.len();
        if (n == 9 || n == 7) && text[0] == '#' {
            let first = if n == 9 {
                pair_at(&text, 1)
            } else {
                Some(255u8)
            };
            let from: usize = if n == 9 {
                3
            } else {
                1
            };
            match (first, pair_at(&text, from), pair_at(&text, from + 2), pair_at(&text,
                from + 4)) {
                (Some(a), Some(r), Some(g), Some(b)) => {
                    return Ok(Color::from_argb(a, r, g, b));
                },
                _ => {},
            }
        }
        let mut msg = String::from_str("Invalid color string, expected #AARRGGBB, got '");
        msg.append(s);
        msg.append("'");
        Err(Error::ParseError(msg))
    }
}

/// The four channels of a color make up its packed value.
pub proof fn lemma_color_channels(c: Color)
    ensures
        c.bits() == argb(c.alpha(), c.red(), c.green(), c.blue()),
{
    let x: u32 = c.bits();
    assert(x == (x / 0x100_0000) * 0x100_0000 + (x / 0x1_0000 % 0x100) * 0x1_0000 + (x / 0x100
        % 0x100) * 0x100 + x % 0x100) by (bit_vector);
}

impl Default for Color {
    /// Transparent black.
    fn default() -> (c: Color)
        ensures
            c.bits() == 0,
    {
        Color(0)
    }
}

impl FromText for Color {
    open spec fn readable(text: Seq<char>) -> bool {
        channels_of(text) is Some
    }

    open spec fn writes(text: Seq<char>, value: Color) -> bool {
        channels_of(text) == Some((value.alpha(), value.red(), value.green(), value.blue()))
    }

    fn from_text(text: &str) -> (r: Result<Color, Error>) {
        Color::from_str(text)
    }
}

impl std::str::FromStr for Color {
    type Err = Error;

    fn from_str(s: &str) -> (r: Result<Color, Error>)
        ensures
            match r {
                Ok(c) => channels_of(s@) == Some((c.alpha(), c.red(), c.green(), c.blue())),
                Err(e) => channels_of(s@) is None && e@ == Fault::Parse,
            },
    {
        Color::from_str(s)
    }
}

} // verus!
