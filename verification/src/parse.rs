//! Values that can be read from the text of an attribute.

use crate::errors::{Error, Fault};
use crate::number::{signed, signed_within, unsigned, unsigned_within};
use crate::text::same;
use crate::xml::{missing_attribute, Element};
use vstd::prelude::*;
use vstd::string::StringExecFns;

verus! {

/// A type whose values are written as text in a document.
pub trait FromText: Sized {
    /// Whether `text` is a way of writing some value of the type.
    spec fn readable(text: Seq<char>) -> bool;

    /// Whether `text` is a way of writing `value`.
    spec fn writes(text: Seq<char>, value: Self) -> bool;

    /// Reads a value; a text that writes none is a parse error.
    fn from_text(text: &str) -> (r: Result<Self, Error>)
        ensures
            match r {
                Ok(value) => Self::readable(text@) && Self::writes(text@, value),
                Err(e) => !Self::readable(text@) && e@ == Fault::Parse,
            },
    ;
}

/// The wording of the parse error for a text that does not write a value of
/// the kind `what`.
pub open spec fn unreadable_text(what: Seq<char>, text: Seq<char>) -> Seq<char> {
    "Invalid "@ + what + " '"@ + text + "'"@
}

/// A parse error that quotes the text that could not be read.
pub fn unreadable(what: &str, text: &str) -> (r: Error)
    ensures
        r@ == Fault::Parse,
        r.detail() == unreadable_text(what@, text@),
{
    let mut msg = String::from_str("Invalid ");
    msg.append(what);
    msg.append(" '");
    msg.append(text);
    msg.append("'");
    Error::ParseError(msg)
}

impl FromText for u32 {
    open spec fn readable(text: Seq<char>) -> bool {
        unsigned_within(text, u32::MAX as nat) is Some
    }

    open spec fn writes(text: Seq<char>, value: u32) -> bool {
        unsigned_within(text, u32::MAX as nat) == Some(value as nat)
    }

    fn from_text(text: &str) -> (r: Result<u32, Error>) {
        match unsigned(text, u32::MAX as u64) {
            Some(v) => {
                assert(<u32 as FromText>::readable(text@));
                assert(<u32 as FromText>::writes(text@, v as u32));
                Ok(v as u32)
            },
            None => Err(unreadable("integer", text)),
        }
    }
}

impl FromText for usize {
    open spec fn readable(text: Seq<char>) -> bool {
        unsigned_within(text, usize::MAX as nat) is Some
    }

    open spec fn writes(text: Seq<char>, value: usize) -> bool {
        unsigned_within(text, usize::MAX as nat) == Some(value as nat)
    }

    fn from_text(text: &str) -> (r: Result<usize, Error>) {
        match unsigned(text, usize::MAX as u64) {
            Some(v) => Ok(v as usize),
            None => Err(unreadable("integer", text)),
        }
    }
}

impl FromText for i32 {
    open spec fn readable(text: Seq<char>) -> bool {
        signed_within(text, i32::MIN as int, i32::MAX as int) is Some
    }

    open spec fn writes(text: Seq<char>, value: i32) -> bool {
        signed_within(text, i32::MIN as int, i32::MAX as int) == Some(value as int)
    }

    fn from_text(text: &str) -> (r: Result<i32, Error>) {
        match signed(text, i32::MIN as i64, i32::MAX as i64) {
            Some(v) => Ok(v as i32),
            None => Err(unreadable("integer", text)),
        }
    }
}

impl FromText for i64 {
    open spec fn readable(text: Seq<char>) -> bool {
        signed_within(text, i64::MIN as int, i64::MAX as int) is Some
    }

    open spec fn writes(text: Seq<char>, value: i64) -> bool {
        signed_within(text, i64::MIN as int, i64::MAX as int) == Some(value as int)
    }

    fn from_text(text: &str) -> (r: Result<i64, Error>) {
        match signed(text, i64::MIN, i64::MAX) {
            Some(v) => Ok(v),
            None => Err(unreadable("integer", text)),
        }
    }
}

impl FromText for bool {
    open spec fn readable(text: Seq<char>) -> bool {
        text == "true"@ || text == "false"@
    }

    open spec fn writes(text: Seq<char>, value: bool) -> bool {
        if value {
            text == "true"@
        } else {
            text == "false"@
        }
    }

    fn from_text(text: &str) -> (r: Result<bool, Error>) {
        if same(text, "true") {
            Ok(true)
        } else if same(text, "false") {
            Ok(false)
        } else {
            Err(unreadable("boolean", text))
        }
    }
}

impl FromText for String {
    open spec fn readable(text: Seq<char>) -> bool {
        true
    }

    open spec fn writes(text: Seq<char>, value: String) -> bool {
        value@ == text
    }

    fn from_text(text: &str) -> (r: Result<String, Error>) {
        Ok(String::from_str(text))
    }
}

/// The fault, if any, of reading the required attribute `name` of `node` as a `T`.
pub open spec fn attribute_fault<T: FromText>(node: &Element, name: Seq<char>) -> Option<Fault> {
    match node.attr(name) {
        None => Some(missing_attribute(node.tag@, name)),
        Some(text) => if T::readable(text) {
            None
        } else {
            Some(Fault::Parse)
        },
    }
}

/// The fault, if any, of reading the attribute `name` of `node` as a `T` where
/// the attribute may be absent.
pub open spec fn optional_fault<T: FromText>(node: &Element, name: Seq<char>) -> Option<Fault> {
    match node.attr(name) {
        None => None,
        Some(text) => if T::readable(text) {
            None
        } else {
            Some(Fault::Parse)
        },
    }
}

/// Whether the attribute `name` of `node` is there and writes `value`.
pub open spec fn is_attribute<T: FromText>(node: &Element, name: Seq<char>, value: T) -> bool {
    match node.attr(name) {
        Some(text) => T::writes(text, value),
        None => false,
    }
}

/// Whether `value` is what the attribute `name` of `node` writes, or
/// `alternative` where `node` has no such attribute.
pub open spec fn is_attribute_or<T: FromText>(
    node: &Element,
    name: Seq<char>,
    alternative: T,
    value: T,
) -> bool {
    match node.attr(name) {
        Some(text) => T::writes(text, value),
        None => value == alternative,
    }
}

/// Whether `value` is what the attribute `name` of `node` writes; where `node`
/// has no such attribute, whether `otherwise` holds.
pub open spec fn reads_or<T: FromText>(
    node: &Element,
    name: Seq<char>,
    value: T,
    otherwise: bool,
) -> bool {
    match node.attr(name) {
        Some(text) => T::writes(text, value),
        None => otherwise,
    }
}

/// The first of two faults in the order in which they are looked for.
pub open spec fn or_else(first: Option<Fault>, second: Option<Fault>) -> Option<Fault> {
    if first is Some {
        first
    } else {
        second
    }
}

/// Whether `value` is what the attribute `name` of `node` writes, or `None`
/// where `node` has no such attribute.
pub open spec fn is_optional<T: FromText>(
    node: &Element,
    name: Seq<char>,
    value: Option<T>,
) -> bool {
    match node.attr(name) {
        Some(text) => match value {
            Some(v) => T::writes(text, v),
            None => false,
        },
        None => value is None,
    }
}

/// The text of the attribute `name` of `node`, or the empty text where `node`
/// has no such attribute.
pub open spec fn attr_or_empty(node: &Element, name: Seq<char>) -> Seq<char> {
    match node.attr(name) {
        Some(text) => text,
        None => Seq::empty(),
    }
}

/// Reads a required attribute. A missing attribute is a structural error that
/// names the element and the attribute.
pub fn attribute<T: FromText>(node: &Element, name: &str) -> (r: Result<T, Error>)
    ensures
        match r {
            Ok(value) => attribute_fault::<T>(node, name@) is None && is_attribute(
                node,
                name@,
                value,
            ),
            Err(e) => attribute_fault::<T>(node, name@) == Some(e@),
        },
{
    match node.required(name) {
        Ok(text) => T::from_text(text),
        Err(e) => Err(e),
    }
}

/// Reads an attribute, or takes `alternative` where the element has none of that name.
pub fn attribute_or<T: FromText>(node: &Element, name: &str, alternative: T) -> (r: Result<
    T,
    Error,
>)
    ensures
        match r {
            Ok(value) => optional_fault::<T>(node, name@) is None && is_attribute_or(
                node,
                name@,
                alternative,
                value,
            ),
            Err(e) => optional_fault::<T>(node, name@) == Some(e@),
        },
{
    match node.attribute(name) {
        None => Ok(alternative),
        Some(text) => T::from_text(text),
    }
}

/// Reads an attribute, or takes the default value of the type where the
/// element has none of that name.
pub fn attribute_or_default<T: FromText + Default>(node: &Element, name: &str) -> (r: Result<
    T,
    Error,
>)
    ensures
        match r {
            Ok(value) => optional_fault::<T>(node, name@) is None && reads_or(
                node,
                name@,
                value,
                call_ensures(T::default, (), value),
            ),
            Err(e) => optional_fault::<T>(node, name@) == Some(e@),
        },
{
    match node.attribute(name) {
        None => Ok(T::default()),
        Some(text) => T::from_text(text),
    }
}

/// Reads an attribute that may be absent.
pub fn optional<T: FromText>(node: &Element, name: &str) -> (r: Result<Option<T>, Error>)
    ensures
        match r {
            Ok(value) => optional_fault::<T>(node, name@) is None && is_optional(
                node,
                name@,
                value,
            ),
            Err(e) => optional_fault::<T>(node, name@) == Some(e@),
        },
{
    match node.attribute(name) {
        None => Ok(None),
        Some(text) => match T::from_text(text) {
            Ok(value) => Ok(Some(value)),
            Err(e) => Err(e),
        },
    }
}

/// The text of an attribute, or the empty text where the element has none of that name.
pub fn text_or_empty(node: &Element, name: &str) -> (r: String)
    ensures
        r@ == attr_or_empty(node, name@),
{
    match node.attribute(name) {
        Some(text) => String::from_str(text),
        None => String::new(),
    }
}

} // verus!
