//! Version numbers of the map format and of the editor.

use crate::errors::{Error, Fault};
use crate::number::{
    decimal,
    decimal_text,
    is_digit,
    lemma_decimal_text,
    unsigned_within,
};
use crate::parse::FromText;
use crate::text::{lemma_first_piece, lemma_one_piece, pieces, split};
use vstd::prelude::*;
use vstd::string::StringExecFns;

verus! {

/// A version: major, minor, and an optional patch number.
#[derive(Debug, PartialEq, Eq, Structural, Clone, Copy)]
pub struct Version(
    /// Major version
    pub u32,
    /// Minor version
    pub u32,
    /// Patch version
    pub Option<u32>,
);

/// The number that one part of a version text denotes.
pub open spec fn part(text: Seq<char>) -> Option<u32> {
    match unsigned_within(text, u32::MAX as nat) {
        Some(v) => Some(v as u32),
        None => None,
    }
}

/// The version that `s` denotes: `major.minor` or `major.minor.patch`, each
/// part an unsigned decimal number. What follows a third `.` is ignored.
pub open spec fn version_of(s: Seq<char>) -> Option<Version> {
    let parts = pieces(s, '.');
    if parts.len() < 2 {
        None
    } else {
        match (part(parts[0]), part(parts[1])) {
            (Some(major), Some(minor)) => if parts.len() == 2 {
                Some(Version(major, minor, None))
            } else {
                match part(parts[2]) {
                    Some(patch) => Some(Version(major, minor, Some(patch))),
                    None => None,
                }
            },
            _ => None,
        }
    }
}

impl Version {
    /// The text `major.minor`, or `major.minor.patch` where there is a patch number.
    pub open spec fn rendered(self) -> Seq<char> {
        let head = decimal_text(self.0 as nat) + seq!['.'] + decimal_text(self.1 as nat);
        match self.2 {
            Some(patch) => head + seq!['.'] + decimal_text(patch as nat),
            None => head,
        }
    }

    /// Reads a version from `major.minor` or `major.minor.patch`.
    pub fn from_str(s: &str) -> (r: Result<Version, Error>)
        ensures
            match r {
                Ok(v) => version_of(s@) == Some(v),
                Err(e) => version_of(s@) is None && e@ == Fault::Parse,
            },
    {
        let parts = split(s, '.');
        assert(parts@.len() >= 1);
        let major = match u32::from_text(parts[0].as_str()) {
            Ok(v) => v,
            Err(e) => {
                return Err(e);
            },
        };
        if parts.len() < 2 {
            return Err(
                Error::ParseError(String::from_str("Minor version is required but missing")),
            );
        }
        let minor = match u32::from_text(parts[1].as_str()) {
            Ok(v) => v,
            Err(e) => {
                return Err(e);
            },
        };
        if parts.len() == 2 {
            return Ok(Version(major, minor, None));
        }
        match u32::from_text(parts[2].as_str()) {
            Ok(patch) => Ok(Version(major, minor, Some(patch))),
            Err(e) => Err(e),
        }
    }

    /// Writes the version as `major.minor` or `major.minor.patch`.
    pub fn to_text(&self) -> (r: String)
        ensures
            r@ == self.rendered(),
    {
        proof {
            reveal_strlit(".");
            assert("."@ =~= seq!['.']);
        }
        let mut out = decimal(self.0 as u64);
        out.append(".");
        out.append(decimal(self.1 as u64).as_str());
        match self.2 {
            Some(patch) => {
                out.append(".");
                out.append(decimal(patch as u64).as_str());
            },
            None => {},
        }
        out
    }
}

impl FromText for Version {
    open spec fn readable(text: Seq<char>) -> bool {
        version_of(text) is Some
    }

    open spec fn writes(text: Seq<char>, value: Version) -> bool {
        version_of(text) == Some(value)
    }

    fn from_text(text: &str) -> (r: Result<Version, Error>) {
        Version::from_str(text)
    }
}

impl std::str::FromStr for Version {
    type Err = Error;

    fn from_str(s: &str) -> (r: Result<Version, Error>)
        ensures
            match r {
                Ok(v) => version_of(s@) == Some(v),
                Err(e) => version_of(s@) is None && e@ == Fault::Parse,
            },
    {
        Version::from_str(s)
    }
}

/// The decimal text of a number holds no `.` and denotes the number.
proof fn lemma_part_text(n: u32)
    ensures
        part(decimal_text(n as nat)) == Some(n),
        forall|j: int| 0 <= j < decimal_text(n as nat).len() ==> decimal_text(n as nat)[j] != '.',
{
    lemma_decimal_text(n as nat);
    let t = decimal_text(n as nat);
    assert forall|j: int| 0 <= j < t.len() implies t[j] != '.' by {
        assert(is_digit(t[j]));
    }
}

/// Two texts without `.`, joined by one, are cut into those two.
proof fn lemma_two_parts(a: Seq<char>, b: Seq<char>)
    requires
        forall|j: int| 0 <= j < a.len() ==> a[j] != '.',
        forall|j: int| 0 <= j < b.len() ==> b[j] != '.',
    ensures
        pieces(a + seq!['.'] + b, '.') == seq![a, b],
{
    lemma_one_piece(b, '.');
    lemma_first_piece(a, '.', b);
    assert(seq![a] + seq![b] =~= seq![a, b]);
}

/// Three texts without `.`, joined by two, are cut into those three.
proof fn lemma_three_parts(a: Seq<char>, b: Seq<char>, c: Seq<char>)
    requires
        forall|j: int| 0 <= j < a.len() ==> a[j] != '.',
        forall|j: int| 0 <= j < b.len() ==> b[j] != '.',
        forall|j: int| 0 <= j < c.len() ==> c[j] != '.',
    ensures
        pieces(a + seq!['.'] + b + seq!['.'] + c, '.') == seq![a, b, c],
{
    lemma_two_parts(b, c);
    lemma_first_piece(a, '.', b + seq!['.'] + c);
    assert(a + seq!['.'] + b + seq!['.'] + c =~= a + seq!['.'] + (b + seq!['.'] + c));
    assert(seq![a] + seq![b, c] =~= seq![a, b, c]);
}

/// Writing a version and reading the text again gives the same version.
pub proof fn lemma_version_round_trip(v: Version)
    ensures
        version_of(v.rendered()) == Some(v),
{
    let major = decimal_text(v.0 as nat);
    let minor = decimal_text(v.1 as nat);
    lemma_part_text(v.0);
    lemma_part_text(v.1);
    match v.2 {
        Some(p) => {
            let patch = decimal_text(p as nat);
            lemma_part_text(p);
            lemma_three_parts(major, minor, patch);
            let parts = pieces(v.rendered(), '.');
            assert(parts == seq![major, minor, patch]);
            assert(parts.len() == 3);
            assert(parts[0] == major && parts[1] == minor && parts[2] == patch);
        },
        None => {
            lemma_two_parts(major, minor);
            let parts = pieces(v.rendered(), '.');
            assert(parts == seq![major, minor]);
            assert(parts.len() == 2);
            assert(parts[0] == major && parts[1] == minor);
        },
    }
}

/// A text with fewer than two parts, or whose major or minor part is empty,
/// denotes no version.
pub proof fn lemma_version_needs_major_and_minor(s: Seq<char>)
    requires
        pieces(s, '.').len() < 2 || pieces(s, '.')[0].len() == 0 || pieces(s, '.')[1].len() == 0,
    ensures
        version_of(s) is None,
{
}

} // verus!
