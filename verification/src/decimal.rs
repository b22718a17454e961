//! Numbers with a fractional part.
//!
//! This crate does no arithmetic on them. It checks that the text of such a
//! number is well formed and keeps the text, for the caller to convert.

use crate::errors::{Error, Fault};
use crate::number::{all_digits, is_digit};
use crate::parse::{unreadable, FromText};
use crate::text::chars;
use vstd::prelude::*;
use vstd::string::StringExecFns;

verus! {

/// The number of digits in `s` from position `from` on, up to the first
/// character that is no digit.
pub open spec fn digit_run(s: Seq<char>, from: int) -> nat
    decreases s.len() - from,
{
    if 0 <= from < s.len() && is_digit(s[from]) {
        1 + digit_run(s, from + 1)
    } else {
        0
    }
}

/// Whether `c` is `+` or `-`.
pub open spec fn is_sign(c: char) -> bool {
    c == '+' || c == '-'
}

/// Whether `c` is the letter `lower`, in either case. `lower` is a small letter.
pub open spec fn is_letter(c: char, lower: char) -> bool {
    c as u32 == lower as u32 || c as u32 + 32 == lower as u32
}

/// Whether `s` spells the word `word`, in any mix of cases. `word` is in small letters.
pub open spec fn spells(s: Seq<char>, word: Seq<char>) -> bool {
    s.len() == word.len() && forall|i: int| 0 <= i < s.len() ==> is_letter(s[i], #[trigger] word[i])
}

/// Whether `s` is an exponent: `e` or `E`, an optional sign, one or more digits.
pub open spec fn is_exponent(s: Seq<char>) -> bool {
    s.len() >= 2 && is_letter(s[0], 'e') && {
        let digits = if is_sign(s[1]) {
            s.skip(2)
        } else {
            s.skip(1)
        };
        digits.len() > 0 && all_digits(digits)
    }
}

/// Whether `s` is digits with at most one `.` among them and at least one
/// digit, followed by nothing or by an exponent.
pub open spec fn is_number(s: Seq<char>) -> bool {
    let whole = digit_run(s, 0) as int;
    let fraction = if whole < s.len() && s[whole] == '.' {
        digit_run(s, whole + 1) as int
    } else {
        0
    };
    let end = if whole < s.len() && s[whole] == '.' {
        whole + 1 + fraction
    } else {
        whole
    };
    whole + fraction > 0 && (end == s.len() || is_exponent(s.skip(end)))
}

/// Whether `s` writes a number: an optional sign, then `inf`, `infinity` or
/// `nan` in any case, or a decimal number with an optional exponent.
pub open spec fn is_decimal(s: Seq<char>) -> bool {
    let body = if s.len() > 0 && is_sign(s[0]) {
        s.skip(1)
    } else {
        s
    };
    spells(body, seq!['i', 'n', 'f']) || spells(
        body,
        seq!['i', 'n', 'f', 'i', 'n', 'i', 't', 'y'],
    ) || spells(body, seq!['n', 'a', 'n']) || is_number(body)
}

/// A number with a fractional part, kept as the text that writes it. Two
/// numbers are equal when they are written alike.
#[derive(Debug, PartialEq, Eq)]
pub struct Decimal {
    text: String,
}

impl Clone for Decimal {
    fn clone(&self) -> (r: Self)
        ensures
            r == *self,
    {
        proof {
            use_type_invariant(self);
        }
        Decimal { text: self.text.clone() }
    }
}

/// Counts the digits of `text` from `from` on.
fn run(text: &Vec<char>, from: usize) -> (r: usize)
    requires
        from <= text.len(),
    ensures
        r == digit_run(text@, from as int),
        from + r <= text.len(),
{
    let mut i: usize = from;
    while i < text.len() && 48 <= text[i] as u32 && text[i] as u32 <= 57
        invariant
            from <= i <= text.len(),
            digit_run(text@, from as int) == (i - from) + digit_run(text@, i as int),
        decreases text.len() - i,
    {
        i += 1;
    }
    i - from
}

/// Whether `text[from..]` spells `word`, in any mix of cases.
fn spelled(text: &Vec<char>, from: usize, word: &Vec<char>) -> (r: bool)
    requires
        from <= text.len(),
    ensures
        r == spells(text@.skip(from as int), word@),
{
    let ghost body = text@.skip(from as int);
    if text.len() - from != word.len() {
        return false;
    }
    let mut i: usize = 0;
    while i < word.len()
        invariant
            i <= word.len(),
            from + word.len() == text.len(),
            body == text@.skip(from as int),
            forall|j: int| 0 <= j < i ==> is_letter(body[j], #[trigger] word@[j]),
        decreases word.len() - i,
    {
        let c: u32 = text[from + i] as u32;
        let w: u32 = word[i] as u32;
        assert(body[i as int] == text@[from + i]);
        if !(c == w || (w >= 32 && c == w - 32)) {
            assert(!is_letter(body[i as int], word@[i as int]));
            return false;
        }
        i += 1;
    }
    true
}

/// Whether `text[from..]` is an exponent.
fn exponent(text: &Vec<char>, from: usize) -> (r: bool)
    requires
        from <= text.len(),
    ensures
        r == is_exponent(text@.skip(from as int)),
{
    let ghost s = text@.skip(from as int);
    let n: usize = text.len();
    if n - from < 2 {
        return false;
    }
    let e: u32 = text[from] as u32;
    assert(s[0] == text@[from as int]);
    assert(s[1] == text@[from + 1]);
    if !(e == 101 || e == 69) {
        return false;
    }
    let start: usize = if text[from + 1] == '+' || text[from + 1] == '-' {
        from + 2
    } else {
        from + 1
    };
    let ghost digits = text@.skip(start as int);
    assert(digits =~= if is_sign(s[1]) {
        s.skip(2)
    } else {
        s.skip(1)
    });
    if start == n {
        return false;
    }
    let mut i: usize = start;
    while i < n
        invariant
            start <= i <= n,
            start < n,
            n == text.len(),
            digits == text@.skip(start as int),
            is_exponent(text@.skip(from as int)) == all_digits(digits),
            forall|j: int| 0 <= j < i - start ==> is_digit(#[trigger] digits[j]),
        decreases n - i,
    {
        let c: u32 = text[i] as u32;
        assert(digits[i - start] == text@[i as int]);
        if c < 48 || c > 57 {
            return false;
        }
        i += 1;
    }
    true
}

/// Whether `text[from..]` is a decimal number with an optional exponent.
fn number(text: &Vec<char>, from: usize) -> (r: bool)
    requires
        from <= text.len(),
    ensures
        r == is_number(text@.skip(from as int)),
{
    let ghost s = text@.skip(from as int);
    let n: usize = text.len();
    let whole: usize = run(text, from);
    proof {
        lemma_run_skip(text@, from as int, 0);
    }
    let dotted: bool = from + whole < n && text[from + whole] == '.';
    assert(from + whole < n ==> s[whole as int] == text@[from + whole]);
    let fraction: usize = if dotted {
        proof {
            lemma_run_skip(text@, from as int, whole + 1);
        }
        run(text, from + whole + 1)
    } else {
        0
    };
    let end: usize = if dotted {
        from + whole + 1 + fraction
    } else {
        from + whole
    };
    if whole + fraction == 0 {
        return false;
    }
    if end == n {
        return true;
    }
    assert(s.skip(end - from) =~= text@.skip(end as int));
    exponent(text, end)
}

/// Counting digits in the rest of a text is counting them in the text, from
/// further on.
proof fn lemma_run_skip(s: Seq<char>, from: int, k: int)
    requires
        0 <= from,
        0 <= k,
        from + k <= s.len(),
    ensures
        digit_run(s.skip(from), k) == digit_run(s, from + k),
    decreases s.len() - from - k,
{
    let t = s.skip(from);
    if k < t.len() {
        assert(t[k] == s[from + k]);
        if is_digit(t[k]) {
            lemma_run_skip(s, from, k + 1);
        }
    }
}

impl Decimal {
    #[verifier::type_invariant]
    spec fn well_formed(self) -> bool {
        is_decimal(self.text@)
    }

    /// The text that writes the number.
    pub closed spec fn written(&self) -> Seq<char> {
        self.text@
    }

    /// The number written `0`.
    pub fn zero() -> (r: Decimal)
        ensures
            r.written() == seq!['0'],
    {
        proof {
            reveal_strlit("0");
        }
        let text = String::from_str("0");
        proof {
            assert(text@ =~= seq!['0']);
            lemma_single_digit(text@);
        }
        Decimal { text }
    }

    /// The number written `1`.
    pub fn one() -> (r: Decimal)
        ensures
            r.written() == seq!['1'],
    {
        proof {
            reveal_strlit("1");
        }
        let text = String::from_str("1");
        proof {
            assert(text@ =~= seq!['1']);
            lemma_single_digit(text@);
        }
        Decimal { text }
    }

    /// Reads a number; the text is kept as it is.
    pub fn from_str(s: &str) -> (r: Result<Decimal, Error>)
        ensures
            match r {
                Ok(d) => is_decimal(s@) && d.written() == s@,
                Err(e) => !is_decimal(s@) && e@ == Fault::Parse,
            },
    {
        let text = chars(s);
        let from: usize = if text.len() > 0 && (text[0] == '+' || text[0] == '-') {
            1
        } else {
            0
        };
        let ghost body = text@.skip(from as int);
        assert(body =~= if s@.len() > 0 && is_sign(s@[0]) {
            s@.skip(1)
        } else {
            s@
        });
        let inf = vec!['i', 'n', 'f'];
        let infinity = vec!['i', 'n', 'f', 'i', 'n', 'i', 't', 'y'];
        let nan = vec!['n', 'a', 'n'];
        assert(inf@ =~= seq!['i', 'n', 'f']);
        assert(infinity@ =~= seq!['i', 'n', 'f', 'i', 'n', 'i', 't', 'y']);
        assert(nan@ =~= seq!['n', 'a', 'n']);
        if spelled(&text, from, &inf) || spelled(&text, from, &infinity) || spelled(
            &text,
            from,
            &nan,
        ) || number(&text, from) {
            Ok(Decimal { text: String::from_str(s) })
        } else {
            Err(unreadable("number", s))
        }
    }

    /// The text that writes the number. It satisfies [`is_decimal`].
    pub fn as_str(&self) -> (r: &str)
        ensures
            r@ == self.written(),
            is_decimal(r@),
    {
        proof {
            use_type_invariant(self);
        }
        self.text.as_str()
    }
}

impl Default for Decimal {
    /// The number written `0`.
    fn default() -> (r: Decimal)
        ensures
            r.written() == seq!['0'],
    {
        Decimal::zero()
    }
}

/// A single digit writes a number.
proof fn lemma_single_digit(s: Seq<char>)
    requires
        s.len() == 1,
        is_digit(s[0]),
    ensures
        is_decimal(s),
{
    assert(digit_run(s, 1) == 0);
    assert(digit_run(s, 0) == 1);
    assert(is_number(s));
}

impl FromText for Decimal {
    open spec fn readable(text: Seq<char>) -> bool {
        is_decimal(text)
    }

    open spec fn writes(text: Seq<char>, value: Decimal) -> bool {
        value.written() == text
    }

    fn from_text(text: &str) -> (r: Result<Decimal, Error>) {
        Decimal::from_str(text)
    }
}

} // verus!
