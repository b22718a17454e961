//! Global tile ids: 29 bits of index and three flip flags.

use crate::errors::{Error, Fault};
use crate::number::unsigned_within;
use crate::parse::{unreadable, FromText};
use vstd::prelude::*;

verus! {

/// Set when the tile is mirrored left to right.
pub const GID_HORIZONTAL_FLIP_FLAG: u32 = 0x8000_0000;

/// Set when the tile is mirrored top to bottom.
pub const GID_VERTICAL_FLIP_FLAG: u32 = 0x4000_0000;

/// Set when the tile is mirrored along its diagonal.
pub const GID_DIAGONAL_FLIP_FLAG: u32 = 0x2000_0000;

/// The three flip flags together.
pub const GID_FLIP_MASK: u32 = 0xE000_0000;

/// Global Tile ID.
/// A GID acts as an index into any tileset referenced in the map. It is never
/// zero, and an `Option<GID>` takes no more room than a `u32`: the absence of a
/// tile is `None`.
///
/// The number is kept in a `core::num::NonZeroU32`. That type cannot be
/// declared to the verifier, so the whole struct is hidden from it. All that
/// is assumed of the number is stated at [`nonzero`] and [`bits_of`], over the
/// name [`gid_bits`].
#[verifier::external_body]
#[derive(Debug, PartialEq, Eq, PartialOrd, Ord)]
pub struct GID(core::num::NonZeroU32);

/// The 32 bits that a GID holds: what `NonZeroU32::get` returns for it.
pub uninterp spec fn gid_bits(gid: GID) -> u32;

/// `NonZeroU32::new`: `None` for zero, and otherwise a value that holds `raw`.
#[verifier::external_body]
fn nonzero(raw: u32) -> (r: Option<GID>)
    ensures
        match r {
            Some(gid) => raw != 0 && gid_bits(gid) == raw,
            None => raw == 0,
        },
{
    match core::num::NonZeroU32::new(raw) {
        Some(n) => Some(GID(n)),
        None => None,
    }
}

/// `NonZeroU32::get`: the bits held, which are not all zero.
#[verifier::external_body]
fn bits_of(gid: &GID) -> (r: u32)
    ensures
        r == gid_bits(*gid),
        r != 0,
{
    gid.0.get()
}

impl Copy for GID {

}

impl Clone for GID {
    fn clone(&self) -> (r: Self)
        ensures
            r == *self,
    {
        *self
    }
}

impl GID {
    /// All 32 bits, flags included.
    pub open spec fn raw(&self) -> u32 {
        gid_bits(*self)
    }

    pub open spec fn spec_to_id(&self) -> u32 {
        self.raw() & 0x1FFF_FFFF
    }

    pub open spec fn spec_flip_horizontal(&self) -> bool {
        self.raw() & 0x8000_0000 != 0
    }

    pub open spec fn spec_flip_vertical(&self) -> bool {
        self.raw() & 0x4000_0000 != 0
    }

    pub open spec fn spec_flip_diagonal(&self) -> bool {
        self.raw() & 0x2000_0000 != 0
    }

    /// The GID with the given bits; `None` for zero, which stands for no tile.
    pub fn new(raw: u32) -> (r: Option<GID>)
        ensures
            match r {
                Some(gid) => raw != 0 && gid.raw() == raw,
                None => raw == 0,
            },
    {
        nonzero(raw)
    }

    /// All 32 bits, flags included.
    pub fn as_raw(&self) -> (r: u32)
        ensures
            r == self.raw(),
            r != 0,
    {
        bits_of(self)
    }

    /// Turn this GID into an u32 for indexing.
    /// This function masks the bits used for tile flipping,
    /// to get the flip information use [GID::flip_horizontal], [GID::flip_vertical] and
    /// [GID::flip_diagonal].
    #[verifier::when_used_as_spec(spec_to_id)]
    pub fn to_id(&self) -> (r: u32)
        ensures
            r == self.spec_to_id(),
            r == self.raw() % 0x2000_0000,
    {
        let raw: u32 = self.as_raw();
        assert(raw & !0xE000_0000u32 == raw & 0x1FFF_FFFF) by (bit_vector);
        assert(raw & 0x1FFF_FFFF == raw % 0x2000_0000) by (bit_vector);
        raw & !GID_FLIP_MASK
    }

    /// Return whether this tile is flipped horizontally or not
    #[verifier::when_used_as_spec(spec_flip_horizontal)]
    pub fn flip_horizontal(&self) -> (r: bool)
        ensures
            r == self.spec_flip_horizontal(),
    {
        let raw: u32 = self.as_raw();
        assert(((raw & 0x8000_0000) == 0x8000_0000) == (raw & 0x8000_0000 != 0)) by (bit_vector);
        (raw & GID_HORIZONTAL_FLIP_FLAG) == GID_HORIZONTAL_FLIP_FLAG
    }

    /// Return whether this tile is flipped vertically or not
    #[verifier::when_used_as_spec(spec_flip_vertical)]
    pub fn flip_vertical(&self) -> (r: bool)
        ensures
            r == self.spec_flip_vertical(),
    {
        let raw: u32 = self.as_raw();
        assert(((raw & 0x4000_0000) == 0x4000_0000) == (raw & 0x4000_0000 != 0)) by (bit_vector);
        (raw & GID_VERTICAL_FLIP_FLAG) == GID_VERTICAL_FLIP_FLAG
    }

    /// Return whether this tile is flipped diagonally or not
    #[verifier::when_used_as_spec(spec_flip_diagonal)]
    pub fn flip_diagonal(&self) -> (r: bool)
        ensures
            r == self.spec_flip_diagonal(),
    {
        let raw: u32 = self.as_raw();
        assert(((raw & 0x2000_0000) == 0x2000_0000) == (raw & 0x2000_0000 != 0)) by (bit_vector);
        (raw & GID_DIAGONAL_FLIP_FLAG) == GID_DIAGONAL_FLIP_FLAG
    }

    /// Reads a GID from an unsigned decimal number other than zero.
    pub fn from_str(s: &str) -> (r: Result<GID, Error>)
        ensures
            match r {
                Ok(gid) => gid.raw() != 0 && unsigned_within(s@, u32::MAX as nat) == Some(
                    gid.raw() as nat,
                ),
                Err(e) => e@ == Fault::Parse && match unsigned_within(s@, u32::MAX as nat) {
                    Some(v) => v == 0,
                    None => true,
                },
            },
    {
        match u32::from_text(s) {
            Ok(raw) => match GID::new(raw) {
                Some(gid) => Ok(gid),
                None => Err(unreadable("tile id", s)),
            },
            Err(e) => Err(e),
        }
    }
}

/// The bits of a GID are its index and its three flags, each flag in a place
/// of its own above the index: no flag changes the index or another flag.
pub proof fn lemma_gid_parts(gid: GID)
    ensures
        gid.to_id() < 0x2000_0000,
        gid.raw() == gid.to_id() + (if gid.flip_horizontal() {
            0x8000_0000int
        } else {
            0
        }) + (if gid.flip_vertical() {
            0x4000_0000int
        } else {
            0
        }) + (if gid.flip_diagonal() {
            0x2000_0000int
        } else {
            0
        }),
{
    let raw: u32 = gid.raw();
    assert((raw & 0x1FFF_FFFF) < 0x2000_0000) by (bit_vector);
    assert(raw == (raw & 0x1FFF_FFFF) + (raw & 0x8000_0000) + (raw & 0x4000_0000) + (raw
        & 0x2000_0000)) by (bit_vector);
    assert(raw & 0x8000_0000 == 0 || raw & 0x8000_0000 == 0x8000_0000) by (bit_vector);
    assert(raw & 0x4000_0000 == 0 || raw & 0x4000_0000 == 0x4000_0000) by (bit_vector);
    assert(raw & 0x2000_0000 == 0 || raw & 0x2000_0000 == 0x2000_0000) by (bit_vector);
}

impl FromText for GID {
    open spec fn readable(text: Seq<char>) -> bool {
        match unsigned_within(text, u32::MAX as nat) {
            Some(v) => v != 0,
            None => false,
        }
    }

    open spec fn writes(text: Seq<char>, value: GID) -> bool {
        unsigned_within(text, u32::MAX as nat) == Some(value.raw() as nat)
    }

    fn from_text(text: &str) -> (r: Result<GID, Error>) {
        GID::from_str(text)
    }
}

impl std::str::FromStr for GID {
    type Err = Error;

    fn from_str(s: &str) -> (r: Result<GID, Error>)
        ensures
            match r {
                Ok(gid) => gid.raw() != 0 && unsigned_within(s@, u32::MAX as nat) == Some(
                    gid.raw() as nat,
                ),
                Err(e) => e@ == Fault::Parse && match unsigned_within(s@, u32::MAX as nat) {
                    Some(v) => v == 0,
                    None => true,
                },
            },
    {
        GID::from_str(s)
    }
}

} // verus!
