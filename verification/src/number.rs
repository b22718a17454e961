//! Integers written in decimal: an optional sign, then digits and nothing else.

use crate::text::chars;
use vstd::prelude::*;
use vstd::string::StringExecFns;

verus! {

/// Whether `c` is one of `0` to `9`.
pub open spec fn is_digit(c: char) -> bool {
    48 <= c as u32 && c as u32 <= 57
}

/// The number that a digit stands for.
pub open spec fn digit_value(c: char) -> nat {
    (c as u32 - 48) as nat
}

/// Whether `s` holds digits only.
pub open spec fn all_digits(s: Seq<char>) -> bool {
    forall|i: int| 0 <= i < s.len() ==> is_digit(#[trigger] s[i])
}

/// The number that a run of digits denotes, the most significant digit first.
pub open spec fn decimal_value(s: Seq<char>) -> nat
    decreases s.len(),
{
    if s.len() == 0 {
        0
    } else {
        decimal_value(s.drop_last()) * 10 + digit_value(s.last())
    }
}

/// The number that `s` denotes if `s` is one or more digits.
pub open spec fn digits_value(s: Seq<char>) -> Option<nat> {
    if s.len() > 0 && all_digits(s) {
        Some(decimal_value(s))
    } else {
        None
    }
}

/// The number that an unsigned text denotes: an optional `+`, then one or more digits.
pub open spec fn unsigned_value(s: Seq<char>) -> Option<nat> {
    if s.len() > 0 && s[0] == '+' {
        digits_value(s.skip(1))
    } else {
        digits_value(s)
    }
}

/// The number that a signed text denotes: an optional `+` or `-`, then one or more digits.
pub open spec fn signed_value(s: Seq<char>) -> Option<int> {
    if s.len() > 0 && s[0] == '-' {
        match digits_value(s.skip(1)) {
            Some(v) => Some(-(v as int)),
            None => None,
        }
    } else {
        match unsigned_value(s) {
            Some(v) => Some(v as int),
            None => None,
        }
    }
}

/// [`unsigned_value`], when it is at most `max`.
pub open spec fn unsigned_within(s: Seq<char>, max: nat) -> Option<nat> {
    match unsigned_value(s) {
        Some(v) => if v <= max {
            Some(v)
        } else {
            None
        },
        None => None,
    }
}

/// [`signed_value`], when it lies between `min` and `max`.
pub open spec fn signed_within(s: Seq<char>, min: int, max: int) -> Option<int> {
    match signed_value(s) {
        Some(v) => if min <= v <= max {
            Some(v)
        } else {
            None
        },
        None => None,
    }
}

/// Reading more digits never makes the number smaller.
pub proof fn lemma_prefix_value(s: Seq<char>, k: int)
    requires
        all_digits(s),
        0 <= k <= s.len(),
    ensures
        decimal_value(s.take(k)) <= decimal_value(s),
    decreases s.len(),
{
    if k == s.len() {
        assert(s.take(k) =~= s);
    } else {
        assert(s.drop_last().take(k) =~= s.take(k));
        lemma_prefix_value(s.drop_last(), k);
    }
}

/// The digits of `text` from position `from` on, read as a number of at most `limit`.
fn magnitude(text: &Vec<char>, from: usize, limit: u64) -> (r: Option<u64>)
    requires
        from <= text.len(),
    ensures
        match r {
            Some(v) => digits_value(text@.skip(from as int)) == Some(v as nat) && v <= limit,
            None => match digits_value(text@.skip(from as int)) {
                Some(v) => v > limit,
                None => true,
            },
        },
{
    let n: usize = text.len();
    if from == n {
        return None;
    }
    let ghost d = text@.skip(from as int);
    let mut acc: u64 = 0;
    let mut i: usize = from;
    while i < n
        invariant
            from <= i <= n,
            n == text.len(),
            d == text@.skip(from as int),
            all_digits(d.take(i - from)),
            acc == decimal_value(d.take(i - from)),
            acc <= limit,
        decreases n - i,
    {
        let code: u32 = text[i] as u32;
        if code < 48 || code > 57 {
            assert(!is_digit(d[i - from]));
            return None;
        }
        let digit: u64 = (code - 48) as u64;
        let next: u128 = acc as u128 * 10 + digit as u128;
        proof {
            let longer = d.take(i + 1 - from);
            assert(longer.drop_last() =~= d.take(i - from));
            assert(longer.last() == text@[i as int]);
            assert(next == decimal_value(longer));
            assert forall|j: int| 0 <= j < longer.len() implies is_digit(#[trigger] longer[j]) by {
                if j < i - from {
                    assert(longer[j] == d.take(i - from)[j]);
                }
            }
        }
        if next > limit as u128 {
            proof {
                if all_digits(d) {
                    lemma_prefix_value(d, i + 1 - from);
                }
            }
            return None;
        }
        acc = next as u64;
        i += 1;
    }
    assert(d.take(n - from) =~= d);
    Some(acc)
}

/// Reads `s` as an unsigned number of at most `limit`.
pub fn unsigned(s: &str, limit: u64) -> (r: Option<u64>)
    ensures
        match r {
            Some(v) => v <= limit && unsigned_within(s@, limit as nat) == Some(v as nat),
            None => unsigned_within(s@, limit as nat) is None,
        },
{
    let text = chars(s);
    if text.len() > 0 && text[0] == '+' {
        magnitude(&text, 1, limit)
    } else {
        assert(text@.skip(0) =~= text@);
        magnitude(&text, 0, limit)
    }
}

/// Reads `s` as a signed number between `min` and `max`.
pub fn signed(s: &str, min: i64, max: i64) -> (r: Option<i64>)
    ensures
        match r {
            Some(v) => min <= v <= max && signed_within(s@, min as int, max as int) == Some(
                v as int,
            ),
            None => signed_within(s@, min as int, max as int) is None,
        },
{
    let text = chars(s);
    if text.len() > 0 && text[0] == '-' {
        let limit: u64 = if min <= 0 {
            (-(min as i128)) as u64
        } else {
            0
        };
        match magnitude(&text, 1, limit) {
            Some(m) => {
                let v: i128 = -(m as i128);
                if min as i128 <= v && v <= max as i128 {
                    Some(v as i64)
                } else {
                    None
                }
            },
            None => None,
        }
    } else if max < 0 {
        None
    } else {
        let from: usize = if text.len() > 0 && text[0] == '+' {
            1
        } else {
            0
        };
        assert(text@.skip(0) =~= text@);
        match magnitude(&text, from, max as u64) {
            Some(m) => if m as i128 >= min as i128 {
                Some(m as i64)
            } else {
                None
            },
            None => None,
        }
    }
}

/// The character that writes the digit `d`.
pub open spec fn digit_char(d: nat) -> char {
    ((48 + d) as u8) as char
}

/// The shortest decimal text that denotes `n`.
pub open spec fn decimal_text(n: nat) -> Seq<char>
    decreases n,
{
    if n < 10 {
        seq![digit_char(n)]
    } else {
        decimal_text(n / 10).push(digit_char(n % 10))
    }
}

/// Reading the decimal text of `n` gives `n` back.
pub proof fn lemma_decimal_text(n: nat)
    ensures
        decimal_text(n).len() > 0,
        all_digits(decimal_text(n)),
        decimal_value(decimal_text(n)) == n,
        unsigned_value(decimal_text(n)) == Some(n),
    decreases n,
{
    let t = decimal_text(n);
    if n < 10 {
        assert(t.drop_last() =~= Seq::<char>::empty());
        assert(decimal_value(t.drop_last()) == 0);
        assert(t.last() == digit_char(n));
    } else {
        lemma_decimal_text(n / 10);
        let head = decimal_text(n / 10);
        assert(t.drop_last() =~= head);
        assert(t.last() == digit_char(n % 10));
        assert forall|i: int| 0 <= i < t.len() implies is_digit(#[trigger] t[i]) by {
            if i < head.len() {
                assert(t[i] == head[i]);
            }
        }
    }
    assert(is_digit(t[0]));
}

/// The text of one digit.
fn digit_text(d: u64) -> (r: &'static str)
    requires
        d < 10,
    ensures
        r@ == seq![digit_char(d as nat)],
{
    proof {
        reveal_strlit("0");
        reveal_strlit("1");
        reveal_strlit("2");
        reveal_strlit("3");
        reveal_strlit("4");
        reveal_strlit("5");
        reveal_strlit("6");
        reveal_strlit("7");
        reveal_strlit("8");
        reveal_strlit("9");
    }
    let r = if d == 0 {
        "0"
    } else if d == 1 {
        "1"
    } else if d == 2 {
        "2"
    } else if d == 3 {
        "3"
    } else if d == 4 {
        "4"
    } else if d == 5 {
        "5"
    } else if d == 6 {
        "6"
    } else if d == 7 {
        "7"
    } else if d == 8 {
        "8"
    } else {
        "9"
    };
    assert(r@ =~= seq![digit_char(d as nat)]);
    r
}

/// Writes `n` in decimal.
pub fn decimal(n: u64) -> (r: String)
    ensures
        r@ == decimal_text(n as nat),
    decreases n,
{
    if n < 10 {
        String::from_str(digit_text(n))
    } else {
        let mut out = decimal(n / 10);
        out.append(digit_text(n % 10));
        assert(out@ =~= decimal_text(n as nat));
        out
    }
}

} // verus!
