//! The tile data of a layer: base64 text, optionally compressed, that holds
//! one little-endian 32-bit number for each cell.
//!
//! Base64 is decoded by the `base64` crate and compressed data is inflated by
//! `libflate`. What they return is named here, not described: the contracts of
//! this module say which decoder is given what, and what is done with the
//! bytes that come back.

use crate::errors::{Error, Fault};
use crate::gid::GID;
use crate::text::{same, trim, trimmed};
use crate::xml::Element;
use base64::DecodeError;
use std::io::Error as IoError;
use vstd::prelude::*;
use vstd::string::StringExecFns;

verus! {

/// `base64::DecodeError`, whose inside the verifier does not see.
#[verifier::external_type_specification]
#[verifier::external_body]
pub struct ExDecodeError(DecodeError);

/// `std::io::Error`, whose inside the verifier does not see.
#[verifier::external_type_specification]
#[verifier::external_body]
pub struct ExIoError(IoError);

/// The bytes that `base64::decode` gives for `text`; `None` where it fails.
pub uninterp spec fn base64_decoded(text: Seq<char>) -> Option<Seq<u8>>;

/// The bytes that a `libflate::zlib::Decoder` over `data` gives when read to
/// the end; `None` where making the decoder or reading from it fails.
pub uninterp spec fn zlib_inflated(data: Seq<u8>) -> Option<Seq<u8>>;

/// The bytes that a `libflate::gzip::Decoder` over `data` gives when read to
/// the end; `None` where making the decoder or reading from it fails.
pub uninterp spec fn gzip_inflated(data: Seq<u8>) -> Option<Seq<u8>>;

/// Calls `base64::decode`, which decodes with the standard alphabet and
/// padding. Trusted: the outcome depends on `text` alone.
#[verifier::external_body]
fn base64_decode(text: &str) -> (r: std::result::Result<Vec<u8>, DecodeError>)
    ensures
        match r {
            Ok(bytes) => base64_decoded(text@) == Some(bytes@),
            Err(_) => base64_decoded(text@) is None,
        },
{
    base64::decode(text)
}

/// Makes a `libflate::zlib::Decoder` over `data` and reads it to the end.
/// Trusted: the outcome depends on `data` alone.
#[verifier::external_body]
fn zlib_inflate(data: &[u8]) -> (r: std::result::Result<Vec<u8>, IoError>)
    ensures
        match r {
            Ok(bytes) => zlib_inflated(data@) == Some(bytes@),
            Err(_) => zlib_inflated(data@) is None,
        },
{
    let mut decoded = Vec::new();
    let mut decoder = libflate::zlib::Decoder::new(data)?;
    std::io::Read::read_to_end(&mut decoder, &mut decoded)?;
    Ok(decoded)
}

/// Makes a `libflate::gzip::Decoder` over `data` and reads it to the end.
/// Trusted: the outcome depends on `data` alone.
#[verifier::external_body]
fn gzip_inflate(data: &[u8]) -> (r: std::result::Result<Vec<u8>, IoError>)
    ensures
        match r {
            Ok(bytes) => gzip_inflated(data@) == Some(bytes@),
            Err(_) => gzip_inflated(data@) is None,
        },
{
    let mut decoded = Vec::new();
    let mut decoder = libflate::gzip::Decoder::new(data)?;
    std::io::Read::read_to_end(&mut decoder, &mut decoded)?;
    Ok(decoded)
}

/// The wording of a `base64::DecodeError`, from its `Display` impl.
#[verifier::external_body]
fn decode_error_text(error: &DecodeError) -> String {
    error.to_string()
}

/// The wording of a `std::io::Error`, from its `Display` impl.
#[verifier::external_body]
fn io_error_text(error: &IoError) -> String {
    error.to_string()
}

/// The fault of a `data` element that does not say how it is encoded.
pub open spec fn missing_encoding(tag: Seq<char>) -> Fault {
    Fault::Structure { tag, msg: "Tile data without an encoding is not supported"@ }
}

/// The fault of a `data` element in an encoding that is not known.
pub open spec fn unknown_encoding(tag: Seq<char>, encoding: Seq<char>) -> Fault {
    Fault::Structure { tag, msg: "Unsupported data encoding '"@ + encoding + "'"@ }
}

/// The fault of a `data` element with a compression that is not known.
pub open spec fn unknown_compression(tag: Seq<char>, compression: Seq<char>) -> Fault {
    Fault::Structure { tag, msg: "Unsupported data compression '"@ + compression + "'"@ }
}

/// The fault of a `data` element in the encoding `csv`.
pub open spec fn csv_encoding() -> Fault {
    Fault::Unsupported("csv tile encoding is not implemented yet"@)
}

/// The bytes that `compression` makes of `raw`: inflated, or as they are.
pub open spec fn inflated(raw: Seq<u8>, compression: Option<Seq<char>>, tag: Seq<char>) -> Result<
    Seq<u8>,
    Fault,
> {
    match compression {
        None => Ok(raw),
        Some(name) => if name == "zlib"@ {
            match zlib_inflated(raw) {
                Some(bytes) => Ok(bytes),
                None => Err(Fault::Parse),
            }
        } else if name == "gzip"@ {
            match gzip_inflated(raw) {
                Some(bytes) => Ok(bytes),
                None => Err(Fault::Parse),
            }
        } else {
            Err(unknown_compression(tag, name))
        },
    }
}

/// The bytes that a `data` element holds, or the fault with which reading
/// them ends: the element must be encoded in base64; its text, without the
/// white space around it, is decoded, and the result is inflated as the
/// attribute `compression` says.
pub open spec fn data_of(node: &Element) -> Result<Seq<u8>, Fault> {
    match node.attr("encoding"@) {
        None => Err(missing_encoding(node.tag@)),
        Some(encoding) => if encoding == "csv"@ {
            Err(csv_encoding())
        } else if encoding == "base64"@ {
            match base64_decoded(trimmed(node.content())) {
                None => Err(Fault::Parse),
                Some(raw) => inflated(raw, node.attr("compression"@), node.tag@),
            }
        } else {
            Err(unknown_encoding(node.tag@, encoding))
        },
    }
}

/// The characters of a text that may be absent.
pub open spec fn characters(text: Option<&str>) -> Option<Seq<char>> {
    match text {
        Some(t) => Some(t@),
        None => None,
    }
}

/// Inflates `raw` as the attribute `compression` of a `data` element says.
/// `tag` is the name of the element, for the error.
pub fn inflate(raw: Vec<u8>, compression: Option<&str>, tag: &str) -> (r: Result<Vec<u8>, Error>)
    ensures
        match r {
            Ok(bytes) => inflated(raw@, characters(compression), tag@) == Ok::<Seq<u8>, Fault>(
                bytes@,
            ),
            Err(e) => inflated(raw@, characters(compression), tag@) == Err::<Seq<u8>, Fault>(e@),
        },
{
    match compression {
        None => Ok(raw),
        Some(name) => {
            if same(name, "zlib") {
                match zlib_inflate(raw.as_slice()) {
                    Ok(bytes) => Ok(bytes),
                    Err(e) => Err(Error::ParseError(io_error_text(&e))),
                }
            } else if same(name, "gzip") {
                match gzip_inflate(raw.as_slice()) {
                    Ok(bytes) => Ok(bytes),
                    Err(e) => Err(Error::ParseError(io_error_text(&e))),
                }
            } else {
                let mut msg = String::from_str("Unsupported data compression '");
                msg.append(name);
                msg.append("'");
                Err(Error::StructureError { tag: String::from_str(tag), msg })
            }
        },
    }
}

/// Reads the binary data contained in a `data` element.
pub fn read_data_tag(data_node: &Element) -> (r: Result<Vec<u8>, Error>)
    ensures
        match r {
            Ok(bytes) => data_of(data_node) == Ok::<Seq<u8>, Fault>(bytes@),
            Err(e) => data_of(data_node) == Err::<Seq<u8>, Fault>(e@),
        },
{
    let encoding = match data_node.attribute("encoding") {
        Some(encoding) => encoding,
        None => {
            return Err(
                Error::StructureError {
                    tag: data_node.tag.clone(),
                    msg: String::from_str("Tile data without an encoding is not supported"),
                },
            );
        },
    };
    if same(encoding, "csv") {
        Err(Error::UnsupportedFeature(String::from_str("csv tile encoding is not implemented yet")))
    } else if same(encoding, "base64") {
        match base64_decode(trim(data_node.text_or_empty())) {
            Err(e) => Err(Error::ParseError(decode_error_text(&e))),
            Ok(raw) => inflate(raw, data_node.attribute("compression"), data_node.tag.as_str()),
        }
    } else {
        let mut msg = String::from_str("Unsupported data encoding '");
        msg.append(encoding);
        msg.append("'");
        Err(Error::StructureError { tag: data_node.tag.clone(), msg })
    }
}

/// The number that the four bytes from `4 * i` on write, the least
/// significant byte first.
pub open spec fn word_at(bytes: Seq<u8>, i: int) -> u32 {
    (bytes[4 * i] as u32 + bytes[4 * i + 1] as u32 * 0x100 + bytes[4 * i + 2] as u32 * 0x1_0000
        + bytes[4 * i + 3] as u32 * 0x100_0000) as u32
}

/// Whether `tile` is the cell that `raw` writes: no tile for zero, and
/// otherwise a GID that holds all the bits of `raw`, flip flags included.
pub open spec fn is_tile(tile: Option<GID>, raw: u32) -> bool {
    match tile {
        Some(gid) => raw != 0 && gid.raw() == raw,
        None => raw == 0,
    }
}

/// Whether `tiles` are the cells that `bytes` write, four bytes each.
pub open spec fn are_tiles(tiles: Seq<Option<GID>>, bytes: Seq<u8>) -> bool {
    bytes.len() == 4 * tiles.len() && forall|i: int|
        0 <= i < tiles.len() ==> is_tile(#[trigger] tiles[i], word_at(bytes, i))
}

/// Turns bytes into tiles, four bytes each. A number of bytes that is no
/// multiple of four is a parse error.
pub fn tiles_from_bytes(bytes: &[u8]) -> (r: Result<Vec<Option<GID>>, Error>)
    ensures
        match r {
            Ok(tiles) => bytes@.len() % 4 == 0 && are_tiles(tiles@, bytes@),
            Err(e) => bytes@.len() % 4 != 0 && e@ == Fault::Parse,
        },
{
    let n: usize = bytes.len();
    if n % 4 != 0 {
        return Err(
            Error::ParseError(String::from_str("The size of the tile data is no multiple of four")),
        );
    }
    let count: usize = n / 4;
    let mut tiles: Vec<Option<GID>> = Vec::new();
    let mut i: usize = 0;
    while i < count
        invariant
            i <= count,
            n == bytes@.len(),
            n == 4 * count,
            tiles@.len() == i,
            forall|j: int| 0 <= j < i ==> is_tile(#[trigger] tiles@[j], word_at(bytes@, j)),
        decreases count - i,
    {
        let b0: u32 = bytes[4 * i] as u32;
        let b1: u32 = bytes[4 * i + 1] as u32;
        let b2: u32 = bytes[4 * i + 2] as u32;
        let b3: u32 = bytes[4 * i + 3] as u32;
        assert((b0 | b1 << 8 | b2 << 16 | b3 << 24) == b0 + b1 * 0x100 + b2 * 0x1_0000 + b3
            * 0x100_0000) by (bit_vector)
            requires
                b0 < 256,
                b1 < 256,
                b2 < 256,
                b3 < 256,
        ;
        let raw: u32 = b0 | b1 << 8 | b2 << 16 | b3 << 24;
        tiles.push(GID::new(raw));
        i += 1;
    }
    Ok(tiles)
}

} // verus!
