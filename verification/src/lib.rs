//! Loads tile maps written in the TMX format of the Tiled editor into a
//! queryable model: tile sets, a tree of layers, objects and typed properties.
//!
//! A map is read with [`TileMap::from_xml_str`]. Its layers are walked with
//! [`TileMap::iter_layers`], and [`TileMap::tile_image`] tells which part of
//! which image shows a tile.
//!
//! Every function of this crate is verified against the contract in its
//! header. The XML reader, the base64 decoder and the zlib and gzip decoders
//! are outside crates; what is taken on trust about them is stated next to
//! each call. Numbers with a fractional part are checked and kept as text:
//! this crate does no floating point arithmetic.

pub mod color;
pub mod data;
pub mod decimal;
pub mod errors;
pub mod gid;
pub mod grid;
pub mod layer;
pub mod math;
pub mod number;
pub mod object;
pub mod parse;
pub mod property;
pub mod resource_manager;
pub mod text;
pub mod tilemap;
pub mod tileset;
pub mod version;
pub mod walk;
pub mod xml;

pub use color::Color;
pub use decimal::Decimal;
pub use errors::{Error, Fault, Result};
pub use gid::GID;
pub use grid::TileIterator;
pub use layer::{GroupLayer, Layer, ObjectLayer, TileLayer};
pub use object::{Object, ObjectKind, Templates};
pub use property::{ObjectReference, Property, PropertyContainer, PropertyValue};
pub use resource_manager::{ImageHandle, ImageLoader, LazyLoader, Provider, ResourceManager};
pub use tilemap::{Orientation, Renderorder, TileMap};
pub use tileset::{ImageStorage, TileSet};
pub use version::Version;
pub use walk::LayerIterator;
pub use xml::{Attribute, Element};
