//! Reading text: comparing it, cutting it into pieces, trimming it, and
//! joining paths.

use vstd::prelude::*;
use vstd::string::StrSliceExecFns;
use vstd::string::StringExecFns;
use vstd::string::StringSliceAdditionalSpecFns;
use vstd::utf8::encode_utf8_decode_utf8;

verus! {

/// The characters of `s`, in order.
pub fn chars(s: &str) -> (r: Vec<char>)
    ensures
        r@ == s@,
{
    let mut out: Vec<char> = Vec::new();
    for c in it: s.chars()
        invariant
            it.seq() == s@,
            out@ =~= it.seq().take(it.index()),
    {
        out.push(c);
    }
    assert(out@ =~= s@);
    out
}

/// Whether two texts hold the same characters.
pub fn same(a: &str, b: &str) -> (r: bool)
    ensures
        r == (a@ == b@),
{
    let x = a.as_bytes();
    let y = b.as_bytes();
    proof {
        encode_utf8_decode_utf8(a@);
        encode_utf8_decode_utf8(b@);
    }
    if x.len() != y.len() {
        return false;
    }
    let mut i: usize = 0;
    while i < x.len()
        invariant
            i <= x.len(),
            x.len() == y.len(),
            x@ == a.spec_bytes(),
            y@ == b.spec_bytes(),
            forall|j: int| 0 <= j < i ==> x@[j] == y@[j],
        decreases x.len() - i,
    {
        if x[i] != y[i] {
            return false;
        }
        i += 1;
    }
    assert(x@ =~= y@);
    true
}

/// The position of the first `sep` in `s`, or the length of `s` if there is none.
pub open spec fn first_index(s: Seq<char>, sep: char) -> int
    decreases s.len(),
{
    if s.len() == 0 || s[0] == sep {
        0
    } else {
        1 + first_index(s.drop_first(), sep)
    }
}

/// The pieces that `sep` cuts `s` into: one more than there are separators,
/// each possibly empty, in order.
pub open spec fn pieces(s: Seq<char>, sep: char) -> Seq<Seq<char>>
    decreases s.len(),
{
    let i = first_index(s, sep);
    if 0 <= i < s.len() {
        seq![s.take(i)] + pieces(s.skip(i + 1), sep)
    } else {
        seq![s]
    }
}

/// `first_index` is the position `k` when `sep` stands there and nowhere
/// before, and the length of `s` when `sep` is nowhere in `s`.
pub proof fn lemma_first_index(s: Seq<char>, sep: char, k: int)
    requires
        0 <= k <= s.len(),
        forall|j: int| 0 <= j < k ==> s[j] != sep,
        k < s.len() ==> s[k] == sep,
    ensures
        first_index(s, sep) == k,
    decreases s.len(),
{
    if k > 0 {
        let rest = s.drop_first();
        assert forall|j: int| 0 <= j < k - 1 implies rest[j] != sep by {
            assert(rest[j] == s[j + 1]);
        }
        lemma_first_index(rest, sep, k - 1);
    }
}

/// A text without `sep` is one piece.
pub proof fn lemma_one_piece(s: Seq<char>, sep: char)
    requires
        forall|j: int| 0 <= j < s.len() ==> s[j] != sep,
    ensures
        pieces(s, sep) == seq![s],
{
    lemma_first_index(s, sep, s.len() as int);
}

/// The first piece of a text ends at its first `sep`.
pub proof fn lemma_first_piece(head: Seq<char>, sep: char, tail: Seq<char>)
    requires
        forall|j: int| 0 <= j < head.len() ==> head[j] != sep,
    ensures
        pieces(head + seq![sep] + tail, sep) == seq![head] + pieces(tail, sep),
{
    let s = head + seq![sep] + tail;
    lemma_first_index(s, sep, head.len() as int);
    assert(s.take(head.len() as int) =~= head);
    assert(s.skip(head.len() as int + 1) =~= tail);
}

/// Cuts `s` at every `sep`.
pub fn split(s: &str, sep: char) -> (r: Vec<String>)
    ensures
        r@.len() == pieces(s@, sep).len(),
        forall|i: int| 0 <= i < r@.len() ==> (#[trigger] r@[i])@ == pieces(s@, sep)[i],
{
    let text = chars(s);
    let n: usize = text.len();
    let mut out: Vec<String> = Vec::new();
    let mut start: usize = 0;
    let mut i: usize = 0;
    let ghost mut done: Seq<Seq<char>> = Seq::empty();
    assert(s@.skip(0) =~= s@);
    while i < n
        invariant
            start <= i <= n,
            n == text.len(),
            text@ == s@,
            forall|j: int| start <= j < i ==> text@[j] != sep,
            pieces(s@, sep) == done + pieces(s@.skip(start as int), sep),
            out@.len() == done.len(),
            forall|j: int| 0 <= j < out@.len() ==> (#[trigger] out@[j])@ == done[j],
        decreases n - i,
    {
        if text[i] == sep {
            let piece = String::from_str(s.substring_char(start, i));
            proof {
                let rest = s@.skip(start as int);
                assert forall|j: int| 0 <= j < i - start implies rest[j] != sep by {
                    assert(rest[j] == text@[start + j]);
                }
                lemma_first_index(rest, sep, i - start);
                assert(rest.take(i - start) =~= s@.subrange(start as int, i as int));
                assert(rest.skip(i - start + 1) =~= s@.skip(i + 1));
                assert(done + (seq![rest.take(i - start)] + pieces(s@.skip(i + 1), sep)) =~= (
                done.push(piece@)) + pieces(s@.skip(i + 1), sep));
                done = done.push(piece@);
            }
            out.push(piece);
            start = i + 1;
        }
        i += 1;
    }
    let piece = String::from_str(s.substring_char(start, n));
    proof {
        let rest = s@.skip(start as int);
        assert forall|j: int| 0 <= j < rest.len() implies rest[j] != sep by {
            assert(rest[j] == text@[start + j]);
        }
        lemma_first_index(rest, sep, rest.len() as int);
        assert(rest =~= s@.subrange(start as int, n as int));
        assert(pieces(s@, sep) =~= done.push(piece@));
    }
    out.push(piece);
    out
}

/// Whether `c` is white space: a character with the Unicode property
/// `White_Space`.
pub open spec fn is_space(c: char) -> bool {
    let u = c as u32;
    (9 <= u <= 13) || u == 0x20 || u == 0x85 || u == 0xA0 || u == 0x1680 || (0x2000 <= u
        <= 0x200A) || u == 0x2028 || u == 0x2029 || u == 0x202F || u == 0x205F || u == 0x3000
}

/// The number of white space characters that `s` begins with.
pub open spec fn leading_spaces(s: Seq<char>) -> int
    decreases s.len(),
{
    if s.len() > 0 && is_space(s[0]) {
        1 + leading_spaces(s.drop_first())
    } else {
        0
    }
}

/// The number of white space characters that `s` ends with.
pub open spec fn trailing_spaces(s: Seq<char>) -> int
    decreases s.len(),
{
    if s.len() > 0 && is_space(s.last()) {
        1 + trailing_spaces(s.drop_last())
    } else {
        0
    }
}

/// `s` without the white space that it begins and ends with.
pub open spec fn trimmed(s: Seq<char>) -> Seq<char> {
    let from = leading_spaces(s);
    if from >= s.len() {
        Seq::empty()
    } else {
        s.subrange(from, s.len() - trailing_spaces(s))
    }
}

/// `s` begins with exactly `k` white space characters.
proof fn lemma_leading(s: Seq<char>, k: int)
    requires
        0 <= k <= s.len(),
        forall|j: int| 0 <= j < k ==> is_space(s[j]),
        k < s.len() ==> !is_space(s[k]),
    ensures
        leading_spaces(s) == k,
    decreases s.len(),
{
    if k > 0 {
        let rest = s.drop_first();
        assert forall|j: int| 0 <= j < k - 1 implies is_space(rest[j]) by {
            assert(rest[j] == s[j + 1]);
        }
        lemma_leading(rest, k - 1);
    }
}

/// `s` ends with exactly `k` white space characters.
proof fn lemma_trailing(s: Seq<char>, k: int)
    requires
        0 <= k <= s.len(),
        forall|j: int| s.len() - k <= j < s.len() ==> is_space(s[j]),
        k < s.len() ==> !is_space(s[s.len() - k - 1]),
    ensures
        trailing_spaces(s) == k,
    decreases s.len(),
{
    if k > 0 {
        let rest = s.drop_last();
        assert forall|j: int| rest.len() - (k - 1) <= j < rest.len() implies is_space(rest[j]) by {
            assert(rest[j] == s[j]);
        }
        lemma_trailing(rest, k - 1);
    }
}

/// Whether `c` is white space.
pub fn space(c: char) -> (r: bool)
    ensures
        r == is_space(c),
{
    let u: u32 = c as u32;
    (9 <= u && u <= 13) || u == 0x20 || u == 0x85 || u == 0xA0 || u == 0x1680 || (0x2000 <= u
        && u <= 0x200A) || u == 0x2028 || u == 0x2029 || u == 0x202F || u == 0x205F || u == 0x3000
}

/// `s` without the white space that it begins and ends with.
pub fn trim(s: &str) -> (r: &str)
    ensures
        r@ == trimmed(s@),
{
    let text = chars(s);
    let n: usize = text.len();
    let mut from: usize = 0;
    while from < n && space(text[from])
        invariant
            from <= n,
            n == text.len(),
            forall|j: int| 0 <= j < from ==> is_space(text@[j]),
        decreases n - from,
    {
        from += 1;
    }
    proof {
        lemma_leading(text@, from as int);
    }
    if from == n {
        return s.substring_char(0, 0);
    }
    let mut to: usize = n;
    while to > from && space(text[to - 1])
        invariant
            from < to <= n,
            n == text.len(),
            !is_space(text@[from as int]),
            forall|j: int| to <= j < n ==> is_space(text@[j]),
        decreases to,
    {
        to -= 1;
    }
    proof {
        lemma_trailing(text@, n - to);
    }
    s.substring_char(from, to)
}

/// Whether `c` is ASCII white space: space, tab, line feed, form feed or
/// carriage return.
pub open spec fn is_blank(c: char) -> bool {
    let u = c as u32;
    u == 0x20 || u == 0x09 || u == 0x0A || u == 0x0C || u == 0x0D
}

/// The number of characters of `s` before its first ASCII white space.
pub open spec fn word_len(s: Seq<char>) -> int
    decreases s.len(),
{
    if s.len() == 0 || is_blank(s[0]) {
        0
    } else {
        1 + word_len(s.drop_first())
    }
}

/// The words of `s`: the longest runs of characters without ASCII white
/// space, in order. None is empty.
pub open spec fn words(s: Seq<char>) -> Seq<Seq<char>>
    decreases s.len(),
{
    if s.len() == 0 {
        Seq::empty()
    } else if is_blank(s[0]) {
        words(s.drop_first())
    } else {
        let n = word_len(s);
        if 0 < n <= s.len() {
            seq![s.take(n)] + words(s.skip(n))
        } else {
            Seq::empty()
        }
    }
}

/// The first word of `s` has `k` characters.
proof fn lemma_word_len(s: Seq<char>, k: int)
    requires
        0 <= k <= s.len(),
        forall|j: int| 0 <= j < k ==> !is_blank(s[j]),
        k < s.len() ==> is_blank(s[k]),
    ensures
        word_len(s) == k,
    decreases s.len(),
{
    if k > 0 {
        let rest = s.drop_first();
        assert forall|j: int| 0 <= j < k - 1 implies !is_blank(rest[j]) by {
            assert(rest[j] == s[j + 1]);
        }
        lemma_word_len(rest, k - 1);
    }
}

/// Cuts `s` into its words.
pub fn split_words(s: &str) -> (r: Vec<String>)
    ensures
        r@.len() == words(s@).len(),
        forall|i: int| 0 <= i < r@.len() ==> (#[trigger] r@[i])@ == words(s@)[i],
{
    let text = chars(s);
    let n: usize = text.len();
    let mut out: Vec<String> = Vec::new();
    let mut i: usize = 0;
    let ghost mut done: Seq<Seq<char>> = Seq::empty();
    assert(s@.skip(0) =~= s@);
    while i < n
        invariant
            i <= n,
            n == text.len(),
            text@ == s@,
            words(s@) == done + words(s@.skip(i as int)),
            out@.len() == done.len(),
            forall|j: int| 0 <= j < out@.len() ==> (#[trigger] out@[j])@ == done[j],
        decreases n - i,
    {
        let ghost rest = s@.skip(i as int);
        assert(rest[0] == text@[i as int]);
        let u: u32 = text[i] as u32;
        if u == 0x20 || u == 0x09 || u == 0x0A || u == 0x0C || u == 0x0D {
            assert(rest.drop_first() =~= s@.skip(i + 1));
            i += 1;
        } else {
            let start: usize = i;
            let mut end: usize = i + 1;
            while end < n && !(text[end] as u32 == 0x20 || text[end] as u32 == 0x09
                || text[end] as u32
                == 0x0A || text[end] as u32 == 0x0C || text[end] as u32 == 0x0D)
                invariant
                    start < end <= n,
                    n == text.len(),
                    forall|j: int| start <= j < end ==> !is_blank(text@[j]),
                decreases n - end,
            {
                end += 1;
            }
            let word = String::from_str(s.substring_char(start, end));
            proof {
                assert forall|j: int| 0 <= j < end - start implies !is_blank(rest[j]) by {
                    assert(rest[j] == text@[start + j]);
                }
                if end < n {
                    assert(rest[end - start] == text@[end as int]);
                }
                lemma_word_len(rest, end - start);
                assert(rest.take(end - start) =~= s@.subrange(start as int, end as int));
                assert(rest.skip(end - start) =~= s@.skip(end as int));
                assert(done + (seq![rest.take(end - start)] + words(s@.skip(end as int)))
                    =~= done.push(
                    word@,
                ) + words(s@.skip(end as int)));
                done = done.push(word@);
            }
            out.push(word);
            i = end;
        }
    }
    assert(words(s@) =~= done);
    out
}

/// The path `path` below `base`.
pub open spec fn resolved(base: Seq<char>, path: Seq<char>) -> Seq<char> {
    base + seq!['/'] + path
}

/// Joins a path to a base path.
pub fn resolve(base: &str, path: &str) -> (r: String)
    ensures
        r@ == resolved(base@, path@),
{
    proof {
        reveal_strlit("/");
        assert("/"@ =~= seq!['/']);
    }
    let mut full = String::from_str(base);
    full.append("/");
    full.append(path);
    full
}

} // verus!
