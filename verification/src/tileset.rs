//! Tile sets: tiles of one size, cut from one image.

use crate::errors::{Error, Fault};
use crate::gid::GID;
use crate::math::ivec2;
use crate::parse::{
    attribute,
    attribute_fault,
    attribute_or,
    is_attribute,
    optional_fault,
    or_else,
    reads_or,
};
use crate::property::{are_properties_of, properties_fault, PropertyContainer};
use crate::resource_manager::{image_loaded, ImageHandle, ResourceManager};
use crate::text::resolved;
use crate::xml::{first_tagged, xml_document, Element};
use vstd::prelude::*;
use vstd::string::StringExecFns;

verus! {

/// Where the images of the tiles of a tile set are.
#[derive(Debug, Clone, Copy, PartialEq, Eq, Structural)]
pub enum ImageStorage {
    /// All tiles are cut from the one image with this handle.
    SpriteSheet(ImageHandle),
}

/// A collection of tiles of one size, backed by one image. It claims the
/// global tile ids from `firstgid` on.
#[derive(Debug)]
pub struct TileSet {
    pub firstgid: GID,
    pub name: String,
    /// The size of a tile, in pixels.
    pub tile_size: ivec2,
    /// The pixels between two tiles in the image.
    pub spacing: usize,
    /// The pixels around the tiles in the image.
    pub margin: usize,
    pub tilecount: usize,
    /// The number of tiles in a row of the image.
    pub columns: usize,
    pub image: ImageStorage,
    pub properties: PropertyContainer,
}

/// The fault of a tile set without an image of its own.
pub open spec fn image_collection() -> Fault {
    Fault::Unsupported("Image collection tilesets are not implemented yet"@)
}

/// The fault of an `image` element that does not say where the image is.
pub open spec fn missing_source(tag: Seq<char>) -> Fault {
    Fault::Structure { tag, msg: "Missing 'source' tag on image"@ }
}

/// The path of the image of the tile set that `data_node` describes: the
/// attribute `source` of its first child called `image`.
pub open spec fn image_source(data_node: &Element) -> Result<Seq<char>, Fault> {
    match first_tagged(data_node.children@, "image"@) {
        None => Err(image_collection()),
        Some(i) => match data_node.children@[i].attr("source"@) {
            None => Err(missing_source(data_node.children@[i].tag@)),
            Some(path) => Ok(path),
        },
    }
}

/// The fault, if any, of what a tile set says besides its image. `node` is
/// the `tileset` element of the map and `data_node` the element that
/// describes the tile set: `node` itself, or the root of another document.
/// Looked at in this order: `firstgid` of `node`; then, of `data_node`,
/// `name`, `tilewidth`, `tileheight`, `spacing`, `margin`, `tilecount`,
/// `columns` and the properties.
pub open spec fn parts_fault(node: &Element, data_node: &Element) -> Option<Fault> {
    or_else(
        attribute_fault::<GID>(node, "firstgid"@),
        or_else(
            attribute_fault::<String>(data_node, "name"@),
            or_else(
                attribute_fault::<i32>(data_node, "tilewidth"@),
                or_else(
                    attribute_fault::<i32>(data_node, "tileheight"@),
                    or_else(
                        optional_fault::<usize>(data_node, "spacing"@),
                        or_else(
                            optional_fault::<usize>(data_node, "margin"@),
                            or_else(
                                attribute_fault::<usize>(data_node, "tilecount"@),
                                or_else(
                                    attribute_fault::<usize>(data_node, "columns"@),
                                    properties_fault(data_node),
                                ),
                            ),
                        ),
                    ),
                ),
            ),
        ),
    )
}

/// Whether `tileset` is, but for its image, the tile set that `node` and
/// `data_node` describe. The first global id is that of `node`; everything
/// else is that of `data_node`.
pub open spec fn is_tileset_of(node: &Element, data_node: &Element, tileset: &TileSet) -> bool {
    &&& is_attribute(node, "firstgid"@, tileset.firstgid)
    &&& is_attribute(data_node, "name"@, tileset.name)
    &&& is_attribute(data_node, "tilewidth"@, tileset.tile_size.x)
    &&& is_attribute(data_node, "tileheight"@, tileset.tile_size.y)
    &&& reads_or(data_node, "spacing"@, tileset.spacing, tileset.spacing == 0)
    &&& reads_or(data_node, "margin"@, tileset.margin, tileset.margin == 0)
    &&& is_attribute(data_node, "tilecount"@, tileset.tilecount)
    &&& is_attribute(data_node, "columns"@, tileset.columns)
    &&& are_properties_of(data_node, tileset.properties@)
}

/// The handle that loading the image at `path` gives if it succeeds.
pub open spec fn handle_for<I>(manager: &ResourceManager<I>, path: Seq<char>) -> ImageHandle {
    let full = resolved(manager.base(), path);
    if manager.image_paths().contains_key(full) {
        manager.image_paths()[full]
    } else {
        ImageHandle(manager.images().len() as usize)
    }
}

/// What reading a tile set does: `after` and `result` are what it makes of
/// the manager `before` and the elements `node` and `data_node`.
///
/// A fault of the `image` element ends the reading before anything is
/// loaded. Otherwise the image is loaded, and if that fails, with that
/// error. Then the rest is read.
pub open spec fn tileset_read<I>(
    node: &Element,
    data_node: &Element,
    before: &ResourceManager<I>,
    after: &ResourceManager<I>,
    result: Result<TileSet, Error>,
) -> bool {
    match image_source(data_node) {
        Err(fault) => *after == *before && match result {
            Err(e) => e@ == fault,
            Ok(_) => false,
        },
        Ok(path) => match result {
            Ok(tileset) => {
                &&& image_loaded(before, path, after, Ok(handle_for(before, path)))
                &&& tileset.image == ImageStorage::SpriteSheet(handle_for(before, path))
                &&& parts_fault(node, data_node) is None
                &&& is_tileset_of(node, data_node, &tileset)
            },
            Err(e) => image_loaded(before, path, after, Err(e)) || (image_loaded(
                before,
                path,
                after,
                Ok(handle_for(before, path)),
            ) && parts_fault(node, data_node) == Some(e@)),
        },
    }
}

impl TileSet {
    /// The path of the image of the tile set that `data_node` describes.
    pub fn image_path(data_node: &Element) -> (r: Result<&str, Error>)
        ensures
            match r {
                Ok(path) => image_source(data_node) == Ok::<Seq<char>, Fault>(path@),
                Err(e) => image_source(data_node) == Err::<Seq<char>, Fault>(e@),
            },
    {
        match data_node.child("image") {
            None => Err(
                Error::UnsupportedFeature(
                    String::from_str("Image collection tilesets are not implemented yet"),
                ),
            ),
            Some(image) => match image.attribute("source") {
                Some(path) => Ok(path),
                None => Err(
                    Error::StructureError {
                        tag: image.tag.clone(),
                        msg: String::from_str("Missing 'source' tag on image"),
                    },
                ),
            },
        }
    }

    /// Makes a tile set of its image and of what `node` and `data_node` say
    /// about the rest.
    pub fn from_parts(node: &Element, data_node: &Element, image: ImageStorage) -> (r: Result<
        TileSet,
        Error,
    >)
        ensures
            match r {
                Ok(tileset) => parts_fault(node, data_node) is None && is_tileset_of(
                    node,
                    data_node,
                    &tileset,
                ) && tileset.image == image,
                Err(e) => parts_fault(node, data_node) == Some(e@),
            },
    {
        let firstgid = match attribute::<GID>(node, "firstgid") {
            Ok(v) => v,
            Err(e) => {
                return Err(e);
            },
        };
        let name = match attribute::<String>(data_node, "name") {
            Ok(v) => v,
            Err(e) => {
                return Err(e);
            },
        };
        let tilewidth = match attribute::<i32>(data_node, "tilewidth") {
            Ok(v) => v,
            Err(e) => {
                return Err(e);
            },
        };
        let tileheight = match attribute::<i32>(data_node, "tileheight") {
            Ok(v) => v,
            Err(e) => {
                return Err(e);
            },
        };
        let spacing = match attribute_or::<usize>(data_node, "spacing", 0) {
            Ok(v) => v,
            Err(e) => {
                return Err(e);
            },
        };
        let margin = match attribute_or::<usize>(data_node, "margin", 0) {
            Ok(v) => v,
            Err(e) => {
                return Err(e);
            },
        };
        let tilecount = match attribute::<usize>(data_node, "tilecount") {
            Ok(v) => v,
            Err(e) => {
                return Err(e);
            },
        };
        let columns = match attribute::<usize>(data_node, "columns") {
            Ok(v) => v,
            Err(e) => {
                return Err(e);
            },
        };
        let properties = match PropertyContainer::from_xml(data_node) {
            Ok(v) => v,
            Err(e) => {
                return Err(e);
            },
        };
        Ok(
            TileSet {
                firstgid,
                name,
                tile_size: ivec2::new(tilewidth, tileheight),
                spacing,
                margin,
                tilecount,
                columns,
                image,
                properties,
            },
        )
    }

    /// Reads the tile set that `node` refers to and `data_node` describes,
    /// and loads its image.
    pub fn from_nodes<I>(
        node: &Element,
        data_node: &Element,
        loader: &mut ResourceManager<I>,
    ) -> (r: Result<TileSet, Error>)
        ensures
            tileset_read(node, data_node, old(loader), final(loader), r),
    {
        let path = match TileSet::image_path(data_node) {
            Ok(path) => path,
            Err(e) => {
                return Err(e);
            },
        };
        let handle = match loader.load_image(path) {
            Ok(handle) => handle,
            Err(e) => {
                return Err(e);
            },
        };
        TileSet::from_parts(node, data_node, ImageStorage::SpriteSheet(handle))
    }

    /// Reads a tile set from a `tileset` element of a map and loads its
    /// image. Where the element has the attribute `source`, the tile set is
    /// described by the document at that path, which is loaded; its first
    /// global id is that of the element all the same.
    pub fn from_xml<I>(node: &Element, loader: &mut ResourceManager<I>) -> (r: Result<
        TileSet,
        Error,
    >)
        ensures
            node.attr("source"@) is None ==> tileset_read(node, node, old(loader), final(loader),
                r),
            r matches Ok(tileset) ==> is_attribute(node, "firstgid"@, tileset.firstgid),
            r matches Ok(tileset) ==> is_tileset_of(node, node, &tileset) || exists|text: Seq<char>|
                #![trigger xml_document(text)]
                xml_document(text) matches Some(root) && is_tileset_of(node, &root, &tileset),
            final(loader).base() == old(loader).base(),
            final(loader).templates() == old(loader).templates(),
    {
        match node.attribute("source") {
            Some(source) => {
                let text = match loader.load_text(source) {
                    Ok(text) => text,
                    Err(e) => {
                        return Err(e);
                    },
                };
                let root = match Element::parse(text.as_str()) {
                    Ok(root) => root,
                    Err(e) => {
                        return Err(e);
                    },
                };
                TileSet::from_nodes(node, &root, loader)
            },
            None => TileSet::from_nodes(node, node, loader),
        }
    }
}

} // verus!
