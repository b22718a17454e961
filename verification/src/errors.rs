//! What can go wrong while a map is loaded.

use vstd::prelude::*;
use vstd::string::StringExecFns;

verus! {

/// The result of an operation of this crate.
pub type Result<T> = std::result::Result<T, Error>;

/// A failure to load or to query a map.
#[derive(Debug, Clone, PartialEq, Eq)]
pub enum Error {
    /// The structure of the data is wrong, e.g. a required attribute is missing.
    /// `tag` names the element at which the problem was found.
    StructureError { tag: String, msg: String },
    /// A value could not be read as the type that its place asks for.
    /// The text describes the value or the underlying failure.
    ParseError(String),
    /// Bytes could not be obtained for a path.
    IO(String),
    /// The map uses a feature that is recognised but not supported.
    UnsupportedFeature(String),
    /// A property was read as a type that it does not hold.
    PropertyTypeError,
}

/// The mathematical content of an [`Error`]: its kind, and the texts that this
/// crate itself composes. The wording of a parse or I/O failure is not part of it.
pub enum Fault {
    Structure { tag: Seq<char>, msg: Seq<char> },
    Parse,
    Io,
    Unsupported(Seq<char>),
    PropertyType,
}

impl View for Error {
    type V = Fault;

    open spec fn view(&self) -> Fault {
        match *self {
            Error::StructureError { tag, msg } => Fault::Structure { tag: tag@, msg: msg@ },
            Error::ParseError(_) => Fault::Parse,
            Error::IO(_) => Fault::Io,
            Error::UnsupportedFeature(what) => Fault::Unsupported(what@),
            Error::PropertyTypeError => Fault::PropertyType,
        }
    }
}

impl Error {
    /// A human-readable description of the error.
    pub fn message(&self) -> (r: String)
        ensures
            r@ == describe(self@, self.detail()),
    {
        match self {
            Error::StructureError { tag, msg } => {
                let mut out = "Error in the map data at '".to_owned();
                out.append(tag.as_str());
                out.append("': \"");
                out.append(msg.as_str());
                out.append("\"");
                out
            },
            Error::ParseError(text) => text.clone(),
            Error::IO(text) => text.clone(),
            Error::UnsupportedFeature(what) => {
                let mut out = "Feature not supported: ".to_owned();
                out.append(what.as_str());
                out
            },
            Error::PropertyTypeError => "Property holds a value of another type".to_owned(),
        }
    }

    /// The wording that a parse or I/O failure carries; empty for the other kinds.
    pub open spec fn detail(&self) -> Seq<char> {
        match *self {
            Error::ParseError(text) => text@,
            Error::IO(text) => text@,
            _ => Seq::empty(),
        }
    }
}

/// The description of a fault; `detail` is the wording of a parse or I/O failure.
pub open spec fn describe(fault: Fault, detail: Seq<char>) -> Seq<char> {
    match fault {
        Fault::Structure { tag, msg } => "Error in the map data at '"@ + tag + "': \""@ + msg
            + "\""@,
        Fault::Parse => detail,
        Fault::Io => detail,
        Fault::Unsupported(what) => "Feature not supported: "@ + what,
        Fault::PropertyType => "Property holds a value of another type"@,
    }
}

} // verus!
