//! Layers: grids of tiles, collections of objects, and groups of layers.

use crate::color::{argb, Color};
use crate::data::{are_tiles, data_of, read_data_tag, tiles_from_bytes};
use crate::decimal::Decimal;
use crate::errors::{Error, Fault};
use crate::gid::GID;
use crate::math::ivec2;
use crate::number::signed_within;
use crate::object::{is_placed, placed_fault, Object, TemplateMap, Templates};
use crate::parse::{
    attr_or_empty,
    attribute,
    attribute_fault,
    attribute_or,
    is_attribute,
    is_optional,
    optional,
    optional_fault,
    or_else,
    reads_or,
    text_or_empty,
};
use crate::property::{are_properties_of, properties_fault, PropertyContainer};
use crate::xml::{first_tagged, Element};
use vstd::prelude::*;
use vstd::string::StringExecFns;

verus! {

/// This enum contains the different types of layers that can be found in a map
#[non_exhaustive]
#[derive(Debug)]
pub enum Layer {
    /// A layer containing a grid of tiles
    Tile(TileLayer),
    /// A layer grouping mutiple other layer together.
    /// Group Layers may be nested, forming a tree of layers.
    Group(GroupLayer),
    /// A layer containing objects.
    /// Objects are not aligned to the tile grid.
    /// Object layers are also called object groups.
    Object(ObjectLayer),
}

/// A grid of tiles.
#[derive(Debug)]
pub struct TileLayer {
    pub id: Option<usize>,
    pub name: String,
    /// The number of columns and of rows.
    pub size: ivec2,
    /// Color that is multiplied with the colors of the tiles in this layer.
    /// Defaults to opaque white, which acts as a no-op when multiplied.
    pub tintcolor: Color,
    /// The cells, row by row; `None` for an empty cell.
    pub tiles: Vec<Option<GID>>,
    pub properties: PropertyContainer,
}

/// A layer to group multiple sub-layers
#[derive(Debug)]
pub struct GroupLayer {
    pub id: Option<usize>,
    pub name: String,
    pub offset: ivec2,
    /// Between 0 and 1.
    pub opacity: Decimal,
    pub visible: bool,
    pub tintcolor: Color,
    pub content: Vec<Layer>,
    pub properties: PropertyContainer,
}

/// An ObjectLayer is a container of Objects.
/// Objects are not aligned to the tile grid,
/// and can be used to include extra information in a map.
#[derive(Debug)]
pub struct ObjectLayer {
    pub id: Option<usize>,
    pub name: String,
    /// Color that is used to render the objects in this layer.
    pub color: Color,
    /// Between 0 and 1.
    pub opacity: Decimal,
    pub visible: bool,
    /// Color that is multiplied with the color of tile-objects in this layer.
    pub tintcolor: Color,
    pub offset: ivec2,
    /// The objects contained in this layer
    pub content: Vec<Object>,
    pub properties: PropertyContainer,
}

/// The fault of an element that is not called as the reader expects.
pub open spec fn unexpected_tag(expected: Seq<char>, found: Seq<char>) -> Fault {
    Fault::Structure { tag: found, msg: "Expected tag '"@ + expected + "', got '"@ + found + "'."@ }
}

/// The fault of a `layer` element without a `data` element.
pub open spec fn missing_data(tag: Seq<char>) -> Fault {
    Fault::Structure { tag, msg: "Missing 'data' element"@ }
}

/// The fault of a `layer` element whose data does not fill its grid.
pub open spec fn wrong_size(tag: Seq<char>) -> Fault {
    Fault::Structure { tag, msg: "The tile data does not match the size of the layer"@ }
}

/// The number that the attribute `name` of `node` writes, where it writes
/// one that fits in 32 bits; otherwise 0.
pub open spec fn dimension(node: &Element, name: Seq<char>) -> int {
    match node.attr(name) {
        Some(text) => match signed_within(text, i32::MIN as int, i32::MAX as int) {
            Some(v) => v,
            None => 0,
        },
        None => 0,
    }
}

/// The fault, if any, of the tiles of a `data` element.
pub open spec fn tiles_fault(data_node: &Element) -> Option<Fault> {
    match data_of(data_node) {
        Err(fault) => Some(fault),
        Ok(bytes) => if bytes.len() % 4 != 0 {
            Some(Fault::Parse)
        } else {
            None
        },
    }
}

/// Whether `tiles` are the tiles that a `data` element holds.
pub open spec fn are_tiles_of(data_node: &Element, tiles: Seq<Option<GID>>) -> bool {
    match data_of(data_node) {
        Ok(bytes) => are_tiles(tiles, bytes),
        Err(_) => false,
    }
}

/// The fault, if any, of the grid of a `layer` element: it has no `data`
/// child, the data has a fault, or there are not as many tiles as the
/// width and the height of the layer ask for.
pub open spec fn grid_fault(node: &Element) -> Option<Fault> {
    match first_tagged(node.children@, "data"@) {
        None => Some(missing_data(node.tag@)),
        Some(i) => match data_of(&node.children@[i]) {
            Err(fault) => Some(fault),
            Ok(bytes) => if bytes.len() % 4 != 0 {
                Some(Fault::Parse)
            } else if dimension(node, "width"@) < 0 || dimension(node, "height"@) < 0 || bytes.len()
                / 4 != dimension(node, "width"@) * dimension(node, "height"@) {
                Some(wrong_size(node.tag@))
            } else {
                None
            },
        },
    }
}

/// The fault, if any, of a `layer` element. Looked at in this order: `id`,
/// `width`, `height`, `tintcolor`, the grid, the properties.
pub open spec fn tile_layer_fault(node: &Element) -> Option<Fault> {
    or_else(
        optional_fault::<usize>(node, "id"@),
        or_else(
            attribute_fault::<i32>(node, "width"@),
            or_else(
                attribute_fault::<i32>(node, "height"@),
                or_else(
                    optional_fault::<Color>(node, "tintcolor"@),
                    or_else(grid_fault(node), properties_fault(node)),
                ),
            ),
        ),
    )
}

/// Whether `color` is what the attribute `name` of `node` writes, or the
/// color with the given bits where `node` has no such attribute.
pub open spec fn is_color_or(node: &Element, name: Seq<char>, color: Color, bits: u32) -> bool {
    reads_or(node, name, color, color.bits() == bits)
}

/// Whether `layer` is the tile layer that the element `node` describes.
pub open spec fn is_tile_layer_of(node: &Element, layer: &TileLayer) -> bool {
    &&& is_optional(node, "id"@, layer.id)
    &&& layer.name@ == attr_or_empty(node, "name"@)
    &&& is_attribute(node, "width"@, layer.size.x)
    &&& is_attribute(node, "height"@, layer.size.y)
    &&& is_color_or(node, "tintcolor"@, layer.tintcolor, argb(255, 255, 255, 255))
    &&& match first_tagged(node.children@, "data"@) {
        Some(i) => are_tiles_of(&node.children@[i], layer.tiles@),
        None => false,
    }
    &&& layer.wf()
    &&& are_properties_of(node, layer.properties@)
}

impl TileLayer {
    /// Whether there is one tile for each cell of the grid.
    pub open spec fn wf(&self) -> bool {
        &&& self.size.x >= 0
        &&& self.size.y >= 0
        &&& self.tiles@.len() == self.size.x * self.size.y
    }

    /// Reads the tiles of a `data` element.
    pub fn parse_data(data_node: &Element) -> (r: Result<Vec<Option<GID>>, Error>)
        ensures
            match r {
                Ok(tiles) => tiles_fault(data_node) is None && are_tiles_of(data_node, tiles@),
                Err(e) => tiles_fault(data_node) == Some(e@),
            },
    {
        match read_data_tag(data_node) {
            Ok(bytes) => tiles_from_bytes(bytes.as_slice()),
            Err(e) => Err(e),
        }
    }

    /// Reads a tile layer from a `layer` element.
    pub fn from_xml(tmx: &Element) -> (r: Result<TileLayer, Error>)
        ensures
            match r {
                Ok(layer) => tile_layer_fault(tmx) is None && is_tile_layer_of(tmx, &layer),
                Err(e) => tile_layer_fault(tmx) == Some(e@),
            },
    {
        let id = match optional::<usize>(tmx, "id") {
            Ok(v) => v,
            Err(e) => {
                return Err(e);
            },
        };
        let name = text_or_empty(tmx, "name");
        let width = match attribute::<i32>(tmx, "width") {
            Ok(v) => v,
            Err(e) => {
                return Err(e);
            },
        };
        let height = match attribute::<i32>(tmx, "height") {
            Ok(v) => v,
            Err(e) => {
                return Err(e);
            },
        };
        let tintcolor = match attribute_or::<Color>(
            tmx,
            "tintcolor",
            Color::from_argb(255, 255, 255, 255),
        ) {
            Ok(v) => v,
            Err(e) => {
                return Err(e);
            },
        };
        let data_node = match tmx.child("data") {
            Some(node) => node,
            None => {
                return Err(
                    Error::StructureError {
                        tag: tmx.tag.clone(),
                        msg: String::from_str("Missing 'data' element"),
                    },
                );
            },
        };
        let tiles = match TileLayer::parse_data(data_node) {
            Ok(v) => v,
            Err(e) => {
                return Err(e);
            },
        };
        assert(dimension(tmx, "width"@) == width && dimension(tmx, "height"@) == height);
        let fits: bool = width >= 0 && height >= 0 && {
            assert(0 <= width * height <= 0x4000_0000_0000_0000) by (nonlinear_arith)
                requires
                    0 <= width <= 0x7FFF_FFFF,
                    0 <= height <= 0x7FFF_FFFF,
            ;
            tiles.len() as u128 == (width as u128) * (height as u128)
        };
        if !fits {
            return Err(
                Error::StructureError {
                    tag: tmx.tag.clone(),
                    msg: String::from_str("The tile data does not match the size of the layer"),
                },
            );
        }
        let properties = match PropertyContainer::from_xml(tmx) {
            Ok(v) => v,
            Err(e) => {
                return Err(e);
            },
        };
        Ok(TileLayer { id, name, size: ivec2::new(width, height), tintcolor, tiles, properties })
    }
}

/// The fault, if any, of the `object` elements among the first `upto` of
/// `nodes`: that of the first that has one.
pub open spec fn objects_fault(
    nodes: Seq<Element>,
    templates: TemplateMap,
    upto: int,
) -> Option<Fault>
    decreases upto,
{
    if upto <= 0 || upto > nodes.len() {
        None
    } else {
        or_else(
            objects_fault(nodes, templates, upto - 1),
            if nodes[upto - 1].tag@ == "object"@ {
                placed_fault(&nodes[upto - 1], templates)
            } else {
                None
            },
        )
    }
}

/// Whether `objects` are the objects that the `object` elements among the
/// first `upto` of `nodes` describe, in order.
pub open spec fn are_objects_of(
    nodes: Seq<Element>,
    templates: TemplateMap,
    objects: Seq<Object>,
    upto: int,
) -> bool
    decreases upto,
{
    if upto <= 0 || upto > nodes.len() {
        objects.len() == 0
    } else if nodes[upto - 1].tag@ == "object"@ {
        objects.len() > 0 && is_placed(&nodes[upto - 1], templates, &objects.last())
            && are_objects_of(nodes, templates, objects.drop_last(), upto - 1)
    } else {
        are_objects_of(nodes, templates, objects, upto - 1)
    }
}

/// What an `objectgroup` or a `group` element says of how its content is
/// drawn, besides the color of objects: the fault, if any, of `opacity`,
/// `visible` and `tintcolor`, in this order.
pub open spec fn drawing_fault(node: &Element) -> Option<Fault> {
    or_else(
        optional_fault::<Decimal>(node, "opacity"@),
        or_else(
            optional_fault::<bool>(node, "visible"@),
            optional_fault::<Color>(node, "tintcolor"@),
        ),
    )
}

/// The fault, if any, of the offset of a layer: of `offsetx`, then of `offsety`.
pub open spec fn offset_fault(node: &Element) -> Option<Fault> {
    or_else(optional_fault::<i32>(node, "offsetx"@), optional_fault::<i32>(node, "offsety"@))
}

/// Whether `offset` is the offset that `node` gives; a coordinate that it
/// does not give is 0.
pub open spec fn is_offset_of(node: &Element, offset: ivec2) -> bool {
    reads_or(node, "offsetx"@, offset.x, offset.x == 0) && reads_or(
        node,
        "offsety"@,
        offset.y,
        offset.y == 0,
    )
}

/// Whether `opacity` is the opacity that `node` gives, or 1 where it gives none.
pub open spec fn is_opacity_of(node: &Element, opacity: Decimal) -> bool {
    reads_or(node, "opacity"@, opacity, opacity.written() == seq!['1'])
}

/// The fault, if any, of an `objectgroup` element. Looked at in this order:
/// the tag, the objects, `id`, `color`, `opacity`, `visible`, `tintcolor`,
/// `offsetx`, `offsety`, the properties.
pub open spec fn object_layer_fault(node: &Element, templates: TemplateMap) -> Option<Fault> {
    if node.tag@ != "objectgroup"@ {
        Some(unexpected_tag("objectgroup"@, node.tag@))
    } else {
        or_else(
            objects_fault(node.children@, templates, node.children@.len() as int),
            or_else(
                optional_fault::<usize>(node, "id"@),
                or_else(
                    optional_fault::<Color>(node, "color"@),
                    or_else(
                        drawing_fault(node),
                        or_else(offset_fault(node), properties_fault(node)),
                    ),
                ),
            ),
        )
    }
}

/// Whether `layer` is the object layer that the element `node` describes.
pub open spec fn is_object_layer_of(
    node: &Element,
    templates: TemplateMap,
    layer: &ObjectLayer,
) -> bool {
    &&& is_optional(node, "id"@, layer.id)
    &&& layer.name@ == attr_or_empty(node, "name"@)
    &&& is_color_or(node, "color"@, layer.color, argb(255, 160, 160, 164))
    &&& is_opacity_of(node, layer.opacity)
    &&& reads_or(node, "visible"@, layer.visible, layer.visible)
    &&& is_color_or(node, "tintcolor"@, layer.tintcolor, argb(255, 255, 255, 255))
    &&& is_offset_of(node, layer.offset)
    &&& are_objects_of(node.children@, templates, layer.content@, node.children@.len() as int)
    &&& are_properties_of(node, layer.properties@)
}

/// Builds the error for an element that is not called as expected.
fn wrong_tag(expected: &str, node: &Element) -> (e: Error)
    ensures
        e@ == unexpected_tag(expected@, node.tag@),
{
    let mut msg = String::from_str("Expected tag '");
    msg.append(expected);
    msg.append("', got '");
    msg.append(node.tag.as_str());
    msg.append("'.");
    Error::StructureError { tag: node.tag.clone(), msg }
}

/// Reads `opacity`, `visible` and `tintcolor`.
fn read_drawing(node: &Element) -> (r: Result<(Decimal, bool, Color), Error>)
    ensures
        match r {
            Ok(drawing) => {
                &&& drawing_fault(node) is None
                &&& is_opacity_of(node, drawing.0)
                &&& reads_or(node, "visible"@, drawing.1, drawing.1)
                &&& is_color_or(node, "tintcolor"@, drawing.2, argb(255, 255, 255, 255))
            },
            Err(e) => drawing_fault(node) == Some(e@),
        },
{
    let opacity = match attribute_or::<Decimal>(node, "opacity", Decimal::one()) {
        Ok(v) => v,
        Err(e) => {
            return Err(e);
        },
    };
    let visible = match attribute_or::<bool>(node, "visible", true) {
        Ok(v) => v,
        Err(e) => {
            return Err(e);
        },
    };
    let tintcolor = match attribute_or::<Color>(
        node,
        "tintcolor",
        Color::from_argb(255, 255, 255, 255),
    ) {
        Ok(v) => v,
        Err(e) => {
            return Err(e);
        },
    };
    Ok((opacity, visible, tintcolor))
}

impl ObjectLayer {
    /// Reads an object layer from an `objectgroup` element.
    pub fn from_xml(tmx: &Element, templates: &Templates) -> (r: Result<ObjectLayer, Error>)
        ensures
            match r {
                Ok(layer) => object_layer_fault(tmx, templates@) is None && is_object_layer_of(tmx,
                    templates@, &layer),
                Err(e) => object_layer_fault(tmx, templates@) == Some(e@),
            },
    {
        if !tmx.has_tag("objectgroup") {
            return Err(wrong_tag("objectgroup", tmx));
        }
        let mut content: Vec<Object> = Vec::new();
        let mut i: usize = 0;
        while i < tmx.children.len()
            invariant
                i <= tmx.children.len(),
                tmx.tag@ == "objectgroup"@,
                objects_fault(tmx.children@, templates@, i as int) is None,
                are_objects_of(tmx.children@, templates@, content@, i as int),
            decreases tmx.children.len() - i,
        {
            let child = &tmx.children[i];
            if child.has_tag("object") {
                match Object::from_xml_with(child, templates) {
                    Ok(object) => {
                        let ghost before = content@;
                        content.push(object);
                        assert(content@.drop_last() =~= before);
                    },
                    Err(e) => {
                        proof {
                            assert(objects_fault(tmx.children@, templates@, i + 1) == Some(e@));
                            lemma_objects_fault(tmx.children@, templates@, i + 1,
                                tmx.children@.len() as int);
                        }
                        return Err(e);
                    },
                }
            }
            i += 1;
        }
        let id = match optional::<usize>(tmx, "id") {
            Ok(v) => v,
            Err(e) => {
                return Err(e);
            },
        };
        let name = text_or_empty(tmx, "name");
        let color = match attribute_or::<Color>(tmx, "color", Color::from_argb(255, 160, 160,
            164)) {
            Ok(v) => v,
            Err(e) => {
                return Err(e);
            },
        };
        let (opacity, visible, tintcolor) = match read_drawing(tmx) {
            Ok(v) => v,
            Err(e) => {
                return Err(e);
            },
        };
        let offset = match ivec2::from_tmx_or_default(tmx, "offsetx", "offsety") {
            Ok(v) => v,
            Err(e) => {
                return Err(e);
            },
        };
        let properties = match PropertyContainer::from_xml(tmx) {
            Ok(v) => v,
            Err(e) => {
                return Err(e);
            },
        };
        Ok(ObjectLayer { id, name, color, opacity, visible, tintcolor, offset, content,
            properties })
    }
}

/// A fault among the first `k` elements is the fault among the first `n`,
/// for `n` from `k` on.
pub proof fn lemma_objects_fault(
    nodes: Seq<Element>,
    templates: TemplateMap,
    k: int,
    n: int,
)
    requires
        0 <= k <= n <= nodes.len(),
        objects_fault(nodes, templates, k) is Some,
    ensures
        objects_fault(nodes, templates, n) == objects_fault(nodes, templates, k),
    decreases n - k,
{
    if k < n {
        lemma_objects_fault(nodes, templates, k, n - 1);
    }
}

/// Whether an element called `tag` describes a layer.
pub open spec fn is_layer_tag(tag: Seq<char>) -> bool {
    tag == "layer"@ || tag == "group"@ || tag == "objectgroup"@
}

/// The fault, if any, of an element that describes a layer.
pub open spec fn layer_fault(node: &Element, templates: TemplateMap) -> Option<Fault>
    decreases node, 1int,
{
    if node.tag@ == "layer"@ {
        tile_layer_fault(node)
    } else if node.tag@ == "group"@ {
        group_fault(node, templates)
    } else if node.tag@ == "objectgroup"@ {
        object_layer_fault(node, templates)
    } else {
        None
    }
}

/// The fault, if any, of the layers among the first `upto` of `nodes`: that
/// of the first that has one.
pub open spec fn layers_fault(
    nodes: Seq<Element>,
    templates: TemplateMap,
    upto: int,
) -> Option<Fault>
    decreases nodes, upto,
{
    if upto <= 0 || upto > nodes.len() {
        None
    } else {
        or_else(layers_fault(nodes, templates, upto - 1), layer_fault(&nodes[upto - 1], templates))
    }
}

/// The fault, if any, of a `group` element. Looked at in this order: the
/// tag, `id`, `offsetx`, `offsety`, `opacity`, `visible`, `tintcolor`, the
/// layers in the group, the properties.
pub open spec fn group_fault(node: &Element, templates: TemplateMap) -> Option<Fault>
    decreases node, 0int,
{
    if node.tag@ != "group"@ {
        Some(unexpected_tag("group"@, node.tag@))
    } else {
        or_else(
            optional_fault::<usize>(node, "id"@),
            or_else(
                offset_fault(node),
                or_else(
                    drawing_fault(node),
                    or_else(
                        layers_fault(node.children@, templates, node.children@.len() as int),
                        properties_fault(node),
                    ),
                ),
            ),
        )
    }
}

/// Whether `layer` is the layer that the element `node` describes.
pub open spec fn is_layer_of(node: &Element, templates: TemplateMap, layer: &Layer) -> bool
    decreases node, 1int,
{
    if node.tag@ == "layer"@ {
        match layer {
            Layer::Tile(tiles) => is_tile_layer_of(node, tiles),
            _ => false,
        }
    } else if node.tag@ == "group"@ {
        match layer {
            Layer::Group(group) => is_group_of(node, templates, group),
            _ => false,
        }
    } else if node.tag@ == "objectgroup"@ {
        match layer {
            Layer::Object(objects) => is_object_layer_of(node, templates, objects),
            _ => false,
        }
    } else {
        false
    }
}

/// Whether `layers` are the layers that the first `upto` of `nodes`
/// describe, in order. Elements that describe no layer are passed over.
pub open spec fn are_layers_of(
    nodes: Seq<Element>,
    templates: TemplateMap,
    layers: Seq<Layer>,
    upto: int,
) -> bool
    decreases nodes, upto,
{
    if upto <= 0 || upto > nodes.len() {
        layers.len() == 0
    } else if is_layer_tag(nodes[upto - 1].tag@) {
        layers.len() > 0 && is_layer_of(&nodes[upto - 1], templates, &layers.last())
            && are_layers_of(nodes, templates, layers.drop_last(), upto - 1)
    } else {
        are_layers_of(nodes, templates, layers, upto - 1)
    }
}

/// Whether `group` is the group layer that the element `node` describes.
pub open spec fn is_group_of(node: &Element, templates: TemplateMap, group: &GroupLayer) -> bool
    decreases node, 0int,
{
    &&& is_optional(node, "id"@, group.id)
    &&& group.name@ == attr_or_empty(node, "name"@)
    &&& is_offset_of(node, group.offset)
    &&& is_opacity_of(node, group.opacity)
    &&& reads_or(node, "visible"@, group.visible, group.visible)
    &&& is_color_or(node, "tintcolor"@, group.tintcolor, argb(255, 255, 255, 255))
    &&& are_layers_of(node.children@, templates, group.content@, node.children@.len() as int)
    &&& are_properties_of(node, group.properties@)
}

/// A fault among the first `k` elements is the fault among the first `n`,
/// for `n` from `k` on.
pub proof fn lemma_layers_fault(
    nodes: Seq<Element>,
    templates: TemplateMap,
    k: int,
    n: int,
)
    requires
        0 <= k <= n <= nodes.len(),
        layers_fault(nodes, templates, k) is Some,
    ensures
        layers_fault(nodes, templates, n) == layers_fault(nodes, templates, k),
    decreases n - k,
{
    if k < n {
        lemma_layers_fault(nodes, templates, k, n - 1);
    }
}

/// Reads the layers that `nodes` describe.
pub fn read_layers(nodes: &Vec<Element>, templates: &Templates) -> (r: Result<Vec<Layer>, Error>)
    ensures
        match r {
            Ok(layers) => layers_fault(nodes@, templates@, nodes@.len() as int) is None
                && are_layers_of(nodes@, templates@, layers@, nodes@.len() as int),
            Err(e) => layers_fault(nodes@, templates@, nodes@.len() as int) == Some(e@),
        },
    decreases nodes, 0int,
{
    let mut layers: Vec<Layer> = Vec::new();
    let mut i: usize = 0;
    while i < nodes.len()
        invariant
            i <= nodes.len(),
            layers_fault(nodes@, templates@, i as int) is None,
            are_layers_of(nodes@, templates@, layers@, i as int),
        decreases nodes.len() - i,
    {
        match Layer::try_from_xml(&nodes[i], templates) {
            Some(Ok(layer)) => {
                let ghost before = layers@;
                layers.push(layer);
                assert(layers@.drop_last() =~= before);
            },
            Some(Err(e)) => {
                proof {
                    assert(layers_fault(nodes@, templates@, i + 1) == Some(e@));
                    lemma_layers_fault(nodes@, templates@, i + 1, nodes@.len() as int);
                }
                return Err(e);
            },
            None => {},
        }
        i += 1;
    }
    Ok(layers)
}

impl Layer {
    /// Reads a layer from an element, if the element describes one: a
    /// `layer`, a `group` or an `objectgroup`.
    pub fn try_from_xml(node: &Element, templates: &Templates) -> (r: Option<Result<Layer, Error>>)
        ensures
            match r {
                Some(Ok(layer)) => is_layer_tag(node.tag@) && layer_fault(node, templates@) is None
                    && is_layer_of(node, templates@, &layer),
                Some(Err(e)) => is_layer_tag(node.tag@) && layer_fault(node, templates@)
                    == Some(e@),
                None => !is_layer_tag(node.tag@) && layer_fault(node, templates@) is None,
            },
        decreases node, 1int,
    {
        if node.has_tag("layer") {
            match TileLayer::from_xml(node) {
                Ok(layer) => Some(Ok(Layer::Tile(layer))),
                Err(e) => Some(Err(e)),
            }
        } else if node.has_tag("group") {
            match GroupLayer::from_xml(node, templates) {
                Ok(layer) => Some(Ok(Layer::Group(layer))),
                Err(e) => Some(Err(e)),
            }
        } else if node.has_tag("objectgroup") {
            match ObjectLayer::from_xml(node, templates) {
                Ok(layer) => Some(Ok(Layer::Object(layer))),
                Err(e) => Some(Err(e)),
            }
        } else {
            None
        }
    }
}

impl GroupLayer {
    /// Load a group layer from a `group` element.
    pub fn from_xml(node: &Element, templates: &Templates) -> (r: Result<GroupLayer, Error>)
        ensures
            match r {
                Ok(group) => group_fault(node, templates@) is None && is_group_of(node, templates@,
                    &group),
                Err(e) => group_fault(node, templates@) == Some(e@),
            },
        decreases node, 0int,
    {
        if !node.has_tag("group") {
            return Err(wrong_tag("group", node));
        }
        let id = match optional::<usize>(node, "id") {
            Ok(v) => v,
            Err(e) => {
                return Err(e);
            },
        };
        let name = text_or_empty(node, "name");
        let offset = match ivec2::from_tmx_or_default(node, "offsetx", "offsety") {
            Ok(v) => v,
            Err(e) => {
                return Err(e);
            },
        };
        let (opacity, visible, tintcolor) = match read_drawing(node) {
            Ok(v) => v,
            Err(e) => {
                return Err(e);
            },
        };
        let content = match read_layers(&node.children, templates) {
            Ok(v) => v,
            Err(e) => {
                return Err(e);
            },
        };
        let properties = match PropertyContainer::from_xml(node) {
            Ok(v) => v,
            Err(e) => {
                return Err(e);
            },
        };
        Ok(GroupLayer { id, name, offset, opacity, visible, tintcolor, content, properties })
    }
}

} // verus!
