//! The map: the top level container of tile sets and layers.

use crate::color::Color;
use crate::errors::{Error, Fault};
use crate::layer::{are_layers_of, layers_fault, read_layers, Layer};
use crate::object::{Object, TemplateMap, Templates};
use crate::math::{ivec2, Rect};
use crate::parse::{
    attribute,
    attribute_fault,
    attribute_or,
    is_attribute,
    is_optional,
    optional,
    optional_fault,
    or_else,
    reads_or,
    unreadable,
    FromText,
};
use crate::property::{are_properties_of, properties_fault, PropertyContainer};
use crate::resource_manager::{template_loaded, ResourceManager};
use crate::text::resolved;
use crate::text::same;
use crate::gid::GID;
use crate::resource_manager::ImageHandle;
use crate::tileset::{is_tileset_of, ImageStorage, TileSet};
use crate::version::Version;
use crate::walk::{walk, LayerIterator};
use crate::xml::{xml_document, Element};
use vstd::prelude::*;
use vstd::string::StringExecFns;

verus! {

/// How the grid of a map is laid out. Only orthogonal maps are interpreted.
#[derive(Debug, PartialEq, Eq, Structural, Copy, Clone)]
pub enum Orientation {
    Orthogonal,
    Isometric,
    Staggered,
    Hexagonal,
}

/// The order in which the tiles of a layer are drawn.
#[derive(Debug, PartialEq, Eq, Structural, Copy, Clone)]
pub enum Renderorder {
    RightDown,
    RightUp,
    LeftDown,
    LeftUp,
}

/// The orientation that `s` names.
pub open spec fn orientation_of(s: Seq<char>) -> Option<Orientation> {
    if s == "orthogonal"@ {
        Some(Orientation::Orthogonal)
    } else if s == "isometric"@ {
        Some(Orientation::Isometric)
    } else if s == "staggered"@ {
        Some(Orientation::Staggered)
    } else if s == "hexagonal"@ {
        Some(Orientation::Hexagonal)
    } else {
        None
    }
}

/// The render order that `s` names.
pub open spec fn renderorder_of(s: Seq<char>) -> Option<Renderorder> {
    if s == "right-down"@ {
        Some(Renderorder::RightDown)
    } else if s == "right-up"@ {
        Some(Renderorder::RightUp)
    } else if s == "left-down"@ {
        Some(Renderorder::LeftDown)
    } else if s == "left-up"@ {
        Some(Renderorder::LeftUp)
    } else {
        None
    }
}

impl Orientation {
    /// Reads an orientation from its name.
    pub fn from_str(s: &str) -> (r: Result<Orientation, Error>)
        ensures
            match r {
                Ok(v) => orientation_of(s@) == Some(v),
                Err(e) => orientation_of(s@) is None && e@ == Fault::Parse,
            },
    {
        if same(s, "orthogonal") {
            Ok(Orientation::Orthogonal)
        } else if same(s, "isometric") {
            Ok(Orientation::Isometric)
        } else if same(s, "staggered") {
            Ok(Orientation::Staggered)
        } else if same(s, "hexagonal") {
            Ok(Orientation::Hexagonal)
        } else {
            Err(unreadable("orientation", s))
        }
    }
}

impl Renderorder {
    /// Reads a render order from its name.
    pub fn from_str(s: &str) -> (r: Result<Renderorder, Error>)
        ensures
            match r {
                Ok(v) => renderorder_of(s@) == Some(v),
                Err(e) => renderorder_of(s@) is None && e@ == Fault::Parse,
            },
    {
        if same(s, "right-down") {
            Ok(Renderorder::RightDown)
        } else if same(s, "right-up") {
            Ok(Renderorder::RightUp)
        } else if same(s, "left-down") {
            Ok(Renderorder::LeftDown)
        } else if same(s, "left-up") {
            Ok(Renderorder::LeftUp)
        } else {
            Err(unreadable("render order", s))
        }
    }
}

impl Default for Renderorder {
    fn default() -> (r: Renderorder)
        ensures
            r == Renderorder::RightDown,
    {
        Renderorder::RightDown
    }
}

impl FromText for Orientation {
    open spec fn readable(text: Seq<char>) -> bool {
        orientation_of(text) is Some
    }

    open spec fn writes(text: Seq<char>, value: Orientation) -> bool {
        orientation_of(text) == Some(value)
    }

    fn from_text(text: &str) -> (r: Result<Orientation, Error>) {
        Orientation::from_str(text)
    }
}

impl FromText for Renderorder {
    open spec fn readable(text: Seq<char>) -> bool {
        renderorder_of(text) is Some
    }

    open spec fn writes(text: Seq<char>, value: Renderorder) -> bool {
        renderorder_of(text) == Some(value)
    }

    fn from_text(text: &str) -> (r: Result<Renderorder, Error>) {
        Renderorder::from_str(text)
    }
}

impl std::str::FromStr for Orientation {
    type Err = Error;

    fn from_str(s: &str) -> (r: Result<Orientation, Error>)
        ensures
            match r {
                Ok(v) => orientation_of(s@) == Some(v),
                Err(e) => orientation_of(s@) is None && e@ == Fault::Parse,
            },
    {
        Orientation::from_str(s)
    }
}

impl std::str::FromStr for Renderorder {
    type Err = Error;

    fn from_str(s: &str) -> (r: Result<Renderorder, Error>)
        ensures
            match r {
                Ok(v) => renderorder_of(s@) == Some(v),
                Err(e) => renderorder_of(s@) is None && e@ == Fault::Parse,
            },
    {
        Renderorder::from_str(s)
    }
}

/// The top level container for all relevant data inside of a Tiled map.
/// A map consists of tile sets and layers.
/// Stacking the layers in iteration order creates the final map image.
/// Each layer contains indices (GIDs) referencing a specific tile in a tile set.
#[derive(Debug)]
pub struct TileMap {
    pub version: Version,
    /// The version of the editor that wrote the map.
    pub editor_version: Option<Version>,
    pub orientation: Orientation,
    pub renderorder: Renderorder,
    /// The size of the map, in tiles.
    pub size: ivec2,
    /// The size of a tile, in pixels.
    pub tile_size: ivec2,
    pub tilesets: Vec<TileSet>,
    /// Background color of this map.
    /// By default fully transparent.
    pub backgroundcolor: Color,
    /// The Layers that make up this map.
    /// The final map image is rendered by stacking the layers in iteration order.
    pub layers: Vec<Layer>,
    /// Custom properties contained in this map.
    pub properties: PropertyContainer,
}

/// The fault of a document whose root is no `map` element.
pub open spec fn wrong_root(found: Seq<char>) -> Fault {
    Fault::Structure {
        tag: found,
        msg: "Expected tag 'map' at root level, got '"@ + found + "'."@,
    }
}

/// The fault, if any, of what a `map` element says besides its tile sets.
/// Looked at in this order: `version`, `orientation`, `renderorder`, `width`,
/// `height`, `tilewidth`, `tileheight`, `backgroundcolor`, the layers, the
/// properties, `tiledversion`.
pub open spec fn map_fault(node: &Element, templates: TemplateMap) -> Option<Fault> {
    or_else(
        attribute_fault::<Version>(node, "version"@),
        or_else(
            attribute_fault::<Orientation>(node, "orientation"@),
            or_else(
                optional_fault::<Renderorder>(node, "renderorder"@),
                grid_and_content_fault(node, templates),
            ),
        ),
    )
}

/// The second half of [`map_fault`], from `width` on.
pub open spec fn grid_and_content_fault(node: &Element, templates: TemplateMap) -> Option<
    Fault,
> {
    or_else(
        attribute_fault::<i32>(node, "width"@),
        or_else(
            attribute_fault::<i32>(node, "height"@),
            or_else(
                attribute_fault::<i32>(node, "tilewidth"@),
                or_else(
                    attribute_fault::<i32>(node, "tileheight"@),
                    or_else(
                        optional_fault::<Color>(node, "backgroundcolor"@),
                        or_else(
                            layers_fault(node.children@, templates, node.children@.len() as int),
                            or_else(
                                properties_fault(node),
                                optional_fault::<Version>(node, "tiledversion"@),
                            ),
                        ),
                    ),
                ),
            ),
        ),
    )
}

/// Whether `map` is, but for its tile sets, the map that the element `node`
/// describes. Where `node` gives no render order it is right-down, and where
/// it gives no background color that is transparent black.
pub open spec fn is_map_of(node: &Element, templates: TemplateMap, map: &TileMap) -> bool {
    &&& is_attribute(node, "version"@, map.version)
    &&& is_optional(node, "tiledversion"@, map.editor_version)
    &&& is_attribute(node, "orientation"@, map.orientation)
    &&& reads_or(node, "renderorder"@, map.renderorder, map.renderorder == Renderorder::RightDown)
    &&& is_attribute(node, "width"@, map.size.x)
    &&& is_attribute(node, "height"@, map.size.y)
    &&& is_attribute(node, "tilewidth"@, map.tile_size.x)
    &&& is_attribute(node, "tileheight"@, map.tile_size.y)
    &&& reads_or(node, "backgroundcolor"@, map.backgroundcolor, map.backgroundcolor.bits() == 0)
    &&& are_layers_of(node.children@, templates, map.layers@, node.children@.len() as int)
    &&& are_properties_of(node, map.properties@)
}

/// The number of `tileset` elements among the first `upto` of `nodes`.
pub open spec fn tileset_count(nodes: Seq<Element>, upto: int) -> nat
    decreases upto,
{
    if upto <= 0 || upto > nodes.len() {
        0
    } else if nodes[upto - 1].tag@ == "tileset"@ {
        tileset_count(nodes, upto - 1) + 1
    } else {
        tileset_count(nodes, upto - 1)
    }
}

/// Whether `tileset` is a tile set that the `tileset` element `node` gives:
/// its first global id is that of `node`, and the rest is described by
/// `node` or, where `node` refers to one, by another document.
pub open spec fn is_tileset_entry(node: &Element, tileset: &TileSet) -> bool {
    &&& is_attribute(node, "firstgid"@, tileset.firstgid)
    &&& (node.attr("source"@) is None ==> is_tileset_of(node, node, tileset))
}

/// Whether `tilesets` are tile sets that the `tileset` elements among the
/// first `upto` of `nodes` give, in order.
pub open spec fn are_tilesets_of(nodes: Seq<Element>, tilesets: Seq<TileSet>, upto: int) -> bool
    decreases upto,
{
    if upto <= 0 || upto > nodes.len() {
        tilesets.len() == 0
    } else if nodes[upto - 1].tag@ == "tileset"@ {
        tilesets.len() > 0 && is_tileset_entry(&nodes[upto - 1], &tilesets.last())
            && are_tilesets_of(nodes, tilesets.drop_last(), upto - 1)
    } else {
        are_tilesets_of(nodes, tilesets, upto - 1)
    }
}

/// Whether an `object` element among the first `upto` of `nodes` refers to
/// a template.
pub open spec fn objects_refer(nodes: Seq<Element>, upto: int) -> bool
    decreases upto,
{
    if upto <= 0 || upto > nodes.len() {
        false
    } else {
        objects_refer(nodes, upto - 1) || (nodes[upto - 1].tag@ == "object"@ && nodes[upto
            - 1].attr("template"@) is Some)
    }
}

/// Whether an object in the layer that `node` describes refers to a
/// template; for a group, an object in a layer of the group, at any depth.
pub open spec fn layer_refers(node: &Element) -> bool
    decreases node, 0int,
{
    if node.tag@ == "group"@ {
        layers_refer(node.children@, node.children@.len() as int)
    } else if node.tag@ == "objectgroup"@ {
        objects_refer(node.children@, node.children@.len() as int)
    } else {
        false
    }
}

/// Whether an object in one of the layers that the first `upto` of `nodes`
/// describe refers to a template.
pub open spec fn layers_refer(nodes: Seq<Element>, upto: int) -> bool
    decreases nodes, upto,
{
    if upto <= 0 || upto > nodes.len() {
        false
    } else {
        layers_refer(nodes, upto - 1) || layer_refers(&nodes[upto - 1])
    }
}

/// Whether every template that an `object` element among the first `upto`
/// of `nodes` refers to is among `templates`.
pub open spec fn objects_known(
    nodes: Seq<Element>,
    upto: int,
    templates: TemplateMap,
) -> bool
    decreases upto,
{
    if upto <= 0 || upto > nodes.len() {
        true
    } else {
        objects_known(nodes, upto - 1, templates) && (nodes[upto - 1].tag@ == "object"@
            ==> match nodes[upto - 1].attr("template"@) {
            Some(path) => templates.contains_key(path),
            None => true,
        })
    }
}

/// Whether every template that an object in the layer that `node`
/// describes refers to is among `templates`.
pub open spec fn layer_known(node: &Element, templates: TemplateMap) -> bool
    decreases node, 0int,
{
    if node.tag@ == "group"@ {
        layers_known(node.children@, node.children@.len() as int, templates)
    } else if node.tag@ == "objectgroup"@ {
        objects_known(node.children@, node.children@.len() as int, templates)
    } else {
        true
    }
}

/// Whether every template that an object in one of the layers that the
/// first `upto` of `nodes` describe refers to is among `templates`.
pub open spec fn layers_known(
    nodes: Seq<Element>,
    upto: int,
    templates: TemplateMap,
) -> bool
    decreases nodes, upto,
{
    if upto <= 0 || upto > nodes.len() {
        true
    } else {
        layers_known(nodes, upto - 1, templates) && layer_known(&nodes[upto - 1], templates)
    }
}

/// Whether `after` holds every template that `before` holds.
pub open spec fn kept(before: TemplateMap, after: TemplateMap) -> bool {
    forall|path: Seq<char>|
        #![trigger before.contains_key(path)]
        #![trigger after.contains_key(path)]
        before.contains_key(path) ==> after.contains_key(path) && after[path] == before[path]
}

/// Whether reading the map that `node` describes asks the manager for
/// anything: the map has a tile set, or an object in it refers to a template.
pub open spec fn uses_resources(node: &Element) -> bool {
    tileset_count(node.children@, node.children@.len() as int) > 0 || layers_refer(
        node.children@,
        node.children@.len() as int,
    )
}

/// What reading a map does: `after` and `result` are what it makes of the
/// manager `before` and the root element `node`.
///
/// A root that is no `map` element is a fault, and nothing is loaded. The
/// tile sets are read first and the templates that objects refer to are
/// loaded next, and with them the manager and whatever it asks decide.
/// Then the map is read, with the templates that the manager holds by then.
/// A map without tile sets and templates is decided by `node` alone.
pub open spec fn map_read<I>(
    node: &Element,
    before: &ResourceManager<I>,
    after: &ResourceManager<I>,
    result: Result<TileMap, Error>,
) -> bool {
    if node.tag@ != "map"@ {
        *after == *before && match result {
            Err(e) => e@ == wrong_root(node.tag@),
            Ok(_) => false,
        }
    } else {
        &&& after.base() == before.base()
        &&& !uses_resources(node) ==> *after == *before
        &&& match result {
            Ok(map) => {
                &&& map_fault(node, after.known_templates()) is None
                &&& is_map_of(node, after.known_templates(), &map)
                &&& are_tilesets_of(node.children@, map.tilesets@, node.children@.len() as int)
                &&& layers_known(
                    node.children@,
                    node.children@.len() as int,
                    after.known_templates(),
                )
            },
            Err(e) => !uses_resources(node) ==> map_fault(node, after.known_templates()) == Some(
                e@,
            ),
        }
    }
}

/// Once an object among the first `k` elements refers to a template, one
/// among the first `n` does, for `n` from `k` on.
proof fn lemma_objects_refer(nodes: Seq<Element>, k: int, n: int)
    requires
        0 <= k <= n <= nodes.len(),
        objects_refer(nodes, k),
    ensures
        objects_refer(nodes, n),
    decreases n - k,
{
    if k < n {
        lemma_objects_refer(nodes, k, n - 1);
    }
}

/// The same for layers.
proof fn lemma_layers_refer(nodes: Seq<Element>, k: int, n: int)
    requires
        0 <= k <= n <= nodes.len(),
        layers_refer(nodes, k),
    ensures
        layers_refer(nodes, n),
    decreases n - k,
{
    if k < n {
        lemma_layers_refer(nodes, k, n - 1);
    }
}

/// What is kept twice is kept.
proof fn lemma_kept_twice(
    first: TemplateMap,
    second: TemplateMap,
    third: TemplateMap,
)
    requires
        kept(first, second),
        kept(second, third),
    ensures
        kept(first, third),
{
    assert forall|path: Seq<char>| first.contains_key(path) implies third.contains_key(path)
        && third[path] == first[path] by {
        assert(second.contains_key(path));
    }
}

/// Templates that are known stay known when more are loaded.
proof fn lemma_objects_kept(
    nodes: Seq<Element>,
    upto: int,
    before: TemplateMap,
    after: TemplateMap,
)
    requires
        kept(before, after),
        objects_known(nodes, upto, before),
    ensures
        objects_known(nodes, upto, after),
    decreases upto,
{
    if 0 < upto <= nodes.len() {
        lemma_objects_kept(nodes, upto - 1, before, after);
    }
}

/// The same for layers.
proof fn lemma_layers_kept(
    nodes: Seq<Element>,
    upto: int,
    before: TemplateMap,
    after: TemplateMap,
)
    requires
        kept(before, after),
        layers_known(nodes, upto, before),
    ensures
        layers_known(nodes, upto, after),
    decreases nodes, upto,
{
    if 0 < upto <= nodes.len() {
        lemma_layers_kept(nodes, upto - 1, before, after);
        let node = &nodes[upto - 1];
        assert(layer_known(node, before));
        if node.tag@ == "group"@ {
            lemma_layers_kept(node.children@, node.children@.len() as int, before, after);
        } else if node.tag@ == "objectgroup"@ {
            lemma_objects_kept(node.children@, node.children@.len() as int, before, after);
        }
        assert(layer_known(node, after));
    }
}

/// Loading a template keeps the templates that were there and adds the
/// one that was asked for.
proof fn lemma_template_kept<I>(
    before: &ResourceManager<I>,
    path: Seq<char>,
    after: &ResourceManager<I>,
    loaded: Object,
)
    requires
        template_loaded(before, path, after, Ok(loaded)),
    ensures
        kept(before.known_templates(), after.known_templates()),
        after.known_templates().contains_key(path),
{
    let full = resolved(before.base(), path);
    assert forall|p: Seq<char>| before.known_templates().contains_key(p)
        implies after.known_templates().contains_key(
        p,
    ) && after.known_templates()[p] == before.known_templates()[p] by {
        assert(before.templates().contains_key(resolved(before.base(), p)));
    }
    assert(after.templates().contains_key(full));
}

/// Loads the templates that the objects among `nodes` refer to.
fn load_object_templates<I>(nodes: &Vec<Element>, manager: &mut ResourceManager<I>) -> (r: Result<
    (),
    Error,
>)
    ensures
        final(manager).base() == old(manager).base(),
        final(manager).images() == old(manager).images(),
        final(manager).image_paths() == old(manager).image_paths(),
        kept(old(manager).known_templates(), final(manager).known_templates()),
        !objects_refer(nodes@, nodes@.len() as int) ==> r is Ok && *final(manager) == *old(manager),
        r is Ok ==> objects_known(nodes@, nodes@.len() as int, final(manager).known_templates()),
{
    let mut i: usize = 0;
    while i < nodes.len()
        invariant
            i <= nodes.len(),
            manager.base() == old(manager).base(),
            manager.images() == old(manager).images(),
            manager.image_paths() == old(manager).image_paths(),
            kept(old(manager).known_templates(), manager.known_templates()),
            !objects_refer(nodes@, i as int) ==> *manager == *old(manager),
            objects_known(nodes@, i as int, manager.known_templates()),
        decreases nodes.len() - i,
    {
        let node = &nodes[i];
        if node.has_tag("object") {
            match node.attribute("template") {
                Some(path) => {
                    let ghost before = *manager;
                    match manager.load_object_template(path) {
                        Ok(loaded) => {
                            proof {
                                lemma_template_kept(&before, path@, &*manager, loaded);
                                lemma_kept_twice(
                                    old(manager).known_templates(),
                                    before.known_templates(),
                                    manager.known_templates(),
                                );
                                lemma_objects_kept(
                                    nodes@,
                                    i as int,
                                    before.known_templates(),
                                    manager.known_templates(),
                                );
                            }
                        },
                        Err(e) => {
                            proof {
                                lemma_objects_refer(nodes@, i + 1, nodes@.len() as int);
                                assert(kept(before.known_templates(), manager.known_templates()))
                                    by {
                                    assert(manager.templates() == before.templates());
                                }
                            }
                            return Err(e);
                        },
                    }
                },
                None => {},
            }
        }
        i += 1;
    }
    Ok(())
}

/// Loads the templates that the objects in the layers that `nodes` describe
/// refer to, at any depth.
pub fn load_templates<I>(nodes: &Vec<Element>, manager: &mut ResourceManager<I>) -> (r: Result<
    (),
    Error,
>)
    ensures
        final(manager).base() == old(manager).base(),
        final(manager).images() == old(manager).images(),
        final(manager).image_paths() == old(manager).image_paths(),
        kept(old(manager).known_templates(), final(manager).known_templates()),
        !layers_refer(nodes@, nodes@.len() as int) ==> r is Ok && *final(manager) == *old(manager),
        r is Ok ==> layers_known(nodes@, nodes@.len() as int, final(manager).known_templates()),
    decreases nodes,
{
    let mut i: usize = 0;
    while i < nodes.len()
        invariant
            i <= nodes.len(),
            manager.base() == old(manager).base(),
            manager.images() == old(manager).images(),
            manager.image_paths() == old(manager).image_paths(),
            kept(old(manager).known_templates(), manager.known_templates()),
            !layers_refer(nodes@, i as int) ==> *manager == *old(manager),
            layers_known(nodes@, i as int, manager.known_templates()),
        decreases nodes.len() - i,
    {
        let node = &nodes[i];
        let ghost before = *manager;
        let loaded = if node.has_tag("group") {
            load_templates(&node.children, manager)
        } else if node.has_tag("objectgroup") {
            load_object_templates(&node.children, manager)
        } else {
            Ok(())
        };
        proof {
            lemma_layers_kept(nodes@, i as int, before.known_templates(),
                manager.known_templates());
            lemma_kept_twice(
                old(manager).known_templates(),
                before.known_templates(),
                manager.known_templates(),
            );
        }
        match loaded {
            Ok(()) => {
                assert(layer_known(node, manager.known_templates()));
                assert(!layer_refers(node) ==> *manager == before);
            },
            Err(e) => {
                proof {
                    assert(layer_refers(node));
                    assert(layers_refer(nodes@, i + 1));
                    lemma_layers_refer(nodes@, i + 1, nodes@.len() as int);
                }
                return Err(e);
            },
        }
        i += 1;
    }
    Ok(())
}

/// The place, among the first `upto` of `tilesets`, of the tile set that owns
/// the tile `id`: the one with the largest first id that is not above `id`,
/// and of several such the last. `id` and the first ids are taken without
/// flip flags.
pub open spec fn owner(tilesets: Seq<TileSet>, id: u32, upto: int) -> Option<int>
    decreases upto,
{
    if upto <= 0 || upto > tilesets.len() {
        None
    } else {
        let before = owner(tilesets, id, upto - 1);
        let here = tilesets[upto - 1].firstgid.to_id();
        if here <= id && (match before {
            Some(k) => tilesets[k].firstgid.to_id() <= here,
            None => true,
        }) {
            Some(upto - 1)
        } else {
            before
        }
    }
}

/// The owner is a tile set whose first id is not above `id`, and no tile
/// set with such a first id has a larger one. There is no owner exactly
/// when every first id is above `id`.
pub proof fn lemma_owner(tilesets: Seq<TileSet>, id: u32, upto: int)
    requires
        0 <= upto <= tilesets.len(),
    ensures
        match owner(tilesets, id, upto) {
            Some(k) => 0 <= k < upto && tilesets[k].firstgid.to_id() <= id && forall|j: int|
                0 <= j < upto && (#[trigger] tilesets[j]).firstgid.to_id() <= id
                    ==> tilesets[j].firstgid.to_id() <= tilesets[k].firstgid.to_id(),
            None => forall|j: int| 0 <= j < upto ==> (#[trigger] tilesets[j]).firstgid.to_id() > id,
        },
    decreases upto,
{
    if upto > 0 {
        lemma_owner(tilesets, id, upto - 1);
    }
}

/// Tile sets in the order of their first ids part the tile ids among them:
/// a tile set owns the ids from its first id up to the first id of the next.
/// A tile id below all first ids has no owner.
pub proof fn lemma_owner_partition(tilesets: Seq<TileSet>, id: u32, i: int)
    requires
        forall|a: int, b: int|
            0 <= a < b < tilesets.len() ==> (#[trigger] tilesets[a]).firstgid.to_id() < (
            #[trigger] tilesets[b]).firstgid.to_id(),
        0 <= i < tilesets.len(),
        tilesets[i].firstgid.to_id() <= id,
        i + 1 < tilesets.len() ==> id < tilesets[i + 1].firstgid.to_id(),
    ensures
        owner(tilesets, id, tilesets.len() as int) == Some(i),
{
    lemma_owner(tilesets, id, tilesets.len() as int);
    match owner(tilesets, id, tilesets.len() as int) {
        Some(k) => {
            assert(tilesets[i].firstgid.to_id() <= tilesets[k].firstgid.to_id());
            if k < i {
                assert(tilesets[k].firstgid.to_id() < tilesets[i].firstgid.to_id());
            }
            if k > i {
                if k > i + 1 {
                    assert(tilesets[i + 1].firstgid.to_id() < tilesets[k].firstgid.to_id());
                }
            }
        },
        None => {
            assert(tilesets[i].firstgid.to_id() > id);
        },
    }
}

/// The pixels of the tile `id` in the image of the tile set that owns it.
/// The tiles are counted from the first id of the tile set, row by row with
/// `columns` tiles in a row; a tile is `spacing` pixels from the next and
/// `margin` pixels from the edge. There is no rectangle where the tile set
/// has no columns or a corner does not fit in 32 bits.
pub open spec fn tile_rect(tileset: &TileSet, id: u32) -> Option<Rect> {
    let local = id - tileset.firstgid.to_id();
    if tileset.columns == 0 || local < 0 {
        None
    } else {
        let x = tileset.margin + (local % (tileset.columns as int)) * (tileset.tile_size.x
            + tileset.spacing);
        let y = tileset.margin + (local / (tileset.columns as int)) * (tileset.tile_size.y
            + tileset.spacing);
        if i32::MIN <= x <= i32::MAX && i32::MIN <= y <= i32::MAX {
            Some(Rect { upper_left: ivec2 { x: x as i32, y: y as i32 }, size: tileset.tile_size })
        } else {
            None
        }
    }
}

/// The image of the tile `id` and the pixels of the tile in it.
pub open spec fn tile_of(tilesets: Seq<TileSet>, id: GID) -> Option<(ImageHandle, Rect)> {
    match owner(tilesets, id.to_id(), tilesets.len() as int) {
        None => None,
        Some(k) => match tile_rect(&tilesets[k], id.to_id()) {
            None => None,
            Some(rect) => match tilesets[k].image {
                ImageStorage::SpriteSheet(handle) => Some((handle, rect)),
            },
        },
    }
}

/// The corner of a tile along one axis.
fn corner(margin: usize, step: u32, tile: i32, spacing: usize) -> (r: Option<i32>)
    ensures
        match r {
            Some(v) => v == margin + step * (tile + spacing),
            None => !(i32::MIN <= margin + step * (tile + spacing) <= i32::MAX),
        },
{
    let stride: i128 = tile as i128 + spacing as i128;
    assert(-0x1_0000_0000_0000_0000_0000_0000int <= step * stride
        <= 0x2_0000_0000_0000_0000_0000_0000int) by (nonlinear_arith)
        requires
            0 <= step <= 0xFFFF_FFFF,
            -0x8000_0000 <= stride <= 0x1_0000_0000_8000_0000,
    ;
    let v: i128 = margin as i128 + (step as i128) * stride;
    if -0x8000_0000 <= v && v <= 0x7FFF_FFFF {
        Some(v as i32)
    } else {
        None
    }
}

impl TileMap {
    /// Makes a map of its tile sets and of what the `map` element `node`
    /// says about the rest.
    pub fn from_parts(node: &Element, tilesets: Vec<TileSet>, templates: &Templates) -> (r: Result<
        TileMap,
        Error,
    >)
        ensures
            match r {
                Ok(map) => map_fault(node, templates@) is None && is_map_of(node, templates@, &map)
                    && map.tilesets == tilesets,
                Err(e) => map_fault(node, templates@) == Some(e@),
            },
    {
        let version = match attribute::<Version>(node, "version") {
            Ok(v) => v,
            Err(e) => {
                return Err(e);
            },
        };
        let orientation = match attribute::<Orientation>(node, "orientation") {
            Ok(v) => v,
            Err(e) => {
                return Err(e);
            },
        };
        let renderorder = match attribute_or::<Renderorder>(
            node,
            "renderorder",
            Renderorder::RightDown,
        ) {
            Ok(v) => v,
            Err(e) => {
                return Err(e);
            },
        };
        let (size, tile_size) = match TileMap::read_sizes(node) {
            Ok(v) => v,
            Err(e) => {
                return Err(e);
            },
        };
        let backgroundcolor = match attribute_or::<Color>(node, "backgroundcolor",
            Color::default()) {
            Ok(v) => v,
            Err(e) => {
                return Err(e);
            },
        };
        let layers = match read_layers(&node.children, templates) {
            Ok(v) => v,
            Err(e) => {
                return Err(e);
            },
        };
        let properties = match PropertyContainer::from_xml(node) {
            Ok(v) => v,
            Err(e) => {
                return Err(e);
            },
        };
        let editor_version = match optional::<Version>(node, "tiledversion") {
            Ok(v) => v,
            Err(e) => {
                return Err(e);
            },
        };
        Ok(
            TileMap {
                version,
                editor_version,
                orientation,
                renderorder,
                size,
                tile_size,
                tilesets,
                backgroundcolor,
                layers,
                properties,
            },
        )
    }

    /// Reads the size of the map and the size of its tiles.
    fn read_sizes(node: &Element) -> (r: Result<(ivec2, ivec2), Error>)
        ensures
            match r {
                Ok(sizes) => {
                    &&& attribute_fault::<i32>(node, "width"@) is None
                    &&& attribute_fault::<i32>(node, "height"@) is None
                    &&& attribute_fault::<i32>(node, "tilewidth"@) is None
                    &&& attribute_fault::<i32>(node, "tileheight"@) is None
                    &&& is_attribute(node, "width"@, sizes.0.x)
                    &&& is_attribute(node, "height"@, sizes.0.y)
                    &&& is_attribute(node, "tilewidth"@, sizes.1.x)
                    &&& is_attribute(node, "tileheight"@, sizes.1.y)
                },
                Err(e) => or_else(
                    attribute_fault::<i32>(node, "width"@),
                    or_else(
                        attribute_fault::<i32>(node, "height"@),
                        or_else(
                            attribute_fault::<i32>(node, "tilewidth"@),
                            attribute_fault::<i32>(node, "tileheight"@),
                        ),
                    ),
                ) == Some(e@),
            },
    {
        let width = match attribute::<i32>(node, "width") {
            Ok(v) => v,
            Err(e) => {
                return Err(e);
            },
        };
        let height = match attribute::<i32>(node, "height") {
            Ok(v) => v,
            Err(e) => {
                return Err(e);
            },
        };
        let tilewidth = match attribute::<i32>(node, "tilewidth") {
            Ok(v) => v,
            Err(e) => {
                return Err(e);
            },
        };
        let tileheight = match attribute::<i32>(node, "tileheight") {
            Ok(v) => v,
            Err(e) => {
                return Err(e);
            },
        };
        Ok((ivec2::new(width, height), ivec2::new(tilewidth, tileheight)))
    }

    /// Reads a map from the root element of a document and loads what the
    /// map refers to: the images of its tile sets, tile sets that are
    /// documents of their own, and the templates of its objects.
    pub fn from_xml<I>(node: &Element, resource_manager: &mut ResourceManager<I>) -> (r: Result<
        TileMap,
        Error,
    >)
        ensures
            map_read(node, old(resource_manager), final(resource_manager), r),
    {
        if !node.has_tag("map") {
            let mut msg = String::from_str("Expected tag 'map' at root level, got '");
            msg.append(node.tag.as_str());
            msg.append("'.");
            return Err(Error::StructureError { tag: node.tag.clone(), msg });
        }
        let mut tilesets: Vec<TileSet> = Vec::new();
        let mut i: usize = 0;
        while i < node.children.len()
            invariant
                i <= node.children.len(),
                node.tag@ == "map"@,
                resource_manager.base() == old(resource_manager).base(),
                tileset_count(node.children@, i as int) == 0 ==> *resource_manager == *old(
                    resource_manager,
                ),
                are_tilesets_of(node.children@, tilesets@, i as int),
            decreases node.children.len() - i,
        {
            let child = &node.children[i];
            if child.has_tag("tileset") {
                match TileSet::from_xml(child, resource_manager) {
                    Ok(tileset) => {
                        let ghost before = tilesets@;
                        tilesets.push(tileset);
                        assert(tilesets@.drop_last() =~= before);
                    },
                    Err(e) => {
                        proof {
                            lemma_tileset_count(node.children@, i + 1, node.children@.len() as int);
                        }
                        return Err(e);
                    },
                }
            }
            i += 1;
        }
        proof {
            if tileset_count(node.children@, node.children@.len() as int) > 0 {
                assert(uses_resources(node));
            }
        }
        match load_templates(&node.children, resource_manager) {
            Ok(()) => {},
            Err(e) => {
                return Err(e);
            },
        }
        let templates = resource_manager.loaded_templates();
        TileMap::from_parts(node, tilesets, &templates)
    }

    /// Parse a map from xml data, and load what the map refers to.
    pub fn from_xml_str<I>(tmx: &str, resource_manager: &mut ResourceManager<I>) -> (r: Result<
        TileMap,
        Error,
    >)
        ensures
            match xml_document(tmx@) {
                Some(root) => map_read(&root, old(resource_manager), final(resource_manager), r),
                None => *final(resource_manager) == *old(resource_manager) && match r {
                    Err(e) => e@ == Fault::Parse,
                    Ok(_) => false,
                },
            },
    {
        match Element::parse(tmx) {
            Ok(root) => TileMap::from_xml(&root, resource_manager),
            Err(e) => Err(e),
        }
    }

    /// The place in `self.tilesets` of the tile set that owns the tile `id`.
    pub fn tileset_of(&self, id: GID) -> (r: Option<usize>)
        ensures
            match r {
                Some(k) => owner(self.tilesets@, id.to_id(), self.tilesets@.len() as int) == Some(
                    k as int,
                ) && k < self.tilesets@.len(),
                None => owner(self.tilesets@, id.to_id(), self.tilesets@.len() as int) is None,
            },
    {
        let wanted: u32 = id.to_id();
        let mut best: Option<usize> = None;
        let mut i: usize = 0;
        while i < self.tilesets.len()
            invariant
                i <= self.tilesets.len(),
                wanted == id.to_id(),
                match best {
                    Some(k) => owner(self.tilesets@, wanted, i as int) == Some(k as int) && k < i,
                    None => owner(self.tilesets@, wanted, i as int) is None,
                },
            decreases self.tilesets.len() - i,
        {
            let here: u32 = self.tilesets[i].firstgid.to_id();
            let better: bool = here <= wanted && match best {
                Some(k) => self.tilesets[k].firstgid.to_id() <= here,
                None => true,
            };
            if better {
                best = Some(i);
            }
            i += 1;
        }
        best
    }

    /// Fetch the image that belongs to a given GID.
    /// Returns the handle of the image and the pixel coordinates where the
    /// tile is inside of that image; `None` where no tile set owns the GID.
    ///
    /// Important: To correctly draw the tile, inspect the GID passed to this
    /// function for whether and how the tile is flipped.
    pub fn tile_image(&self, id: GID) -> (r: Option<(ImageHandle, Rect)>)
        ensures
            r == tile_of(self.tilesets@, id),
    {
        let k: usize = match self.tileset_of(id) {
            Some(k) => k,
            None => {
                return None;
            },
        };
        let tileset = &self.tilesets[k];
        if tileset.columns == 0 {
            return None;
        }
        let first: u32 = tileset.firstgid.to_id();
        proof {
            lemma_owner(self.tilesets@, id.to_id(), self.tilesets@.len() as int);
        }
        let local: u32 = id.to_id() - first;
        let (column, row): (u32, u32) = if tileset.columns > 0xFFFF_FFFF {
            assert(local as int % (tileset.columns as int) == local && local as int / (
            tileset.columns as int) == 0) by (nonlinear_arith)
                requires
                    0 <= local < tileset.columns,
            ;
            (local, 0)
        } else {
            let columns: u32 = tileset.columns as u32;
            (local % columns, local / columns)
        };
        let x = match corner(tileset.margin, column, tileset.tile_size.x, tileset.spacing) {
            Some(x) => x,
            None => {
                return None;
            },
        };
        let y = match corner(tileset.margin, row, tileset.tile_size.y, tileset.spacing) {
            Some(y) => y,
            None => {
                return None;
            },
        };
        match tileset.image {
            ImageStorage::SpriteSheet(handle) => Some(
                (handle, Rect::new(ivec2::new(x, y), tileset.tile_size)),
            ),
        }
    }

    /// All the layers in this map, recursively, depth first, each group
    /// before its content. The group layers are among them.
    ///
    /// With each layer comes the number of group layers that were left with
    /// this step. Some attributes of group layers affect all the layers in
    /// them. If those attributes are accumulated in a stack, the number is
    /// that of the elements to remove from the top of the stack.
    pub fn iter_layers(&self) -> (r: Vec<(&Layer, usize)>)
        ensures
            r@.len() == walk(self.layers@, 0).len(),
            forall|i: int|
                0 <= i < r@.len() ==> (*(#[trigger] r@[i]).0, r@[i].1 as nat) == walk(
                    self.layers@,
                    0,
                )[i],
    {
        let mut iter = LayerIterator::new(&self.layers);
        let mut out: Vec<(&Layer, usize)> = Vec::new();
        let ghost all = walk(self.layers@, 0);
        loop
            invariant
                out@.len() + iter.remaining().len() == all.len(),
                iter.remaining() == all.skip(out@.len() as int),
                forall|i: int|
                    0 <= i < out@.len() ==> (*(#[trigger] out@[i]).0, out@[i].1 as nat) == all[i],
                all == walk(self.layers@, 0),
            decreases iter.remaining().len(),
        {
            let ghost rest = iter.remaining();
            match iter.next() {
                Some(item) => {
                    assert(rest[0] == all[out@.len() as int]);
                    assert(rest.drop_first() =~= all.skip(out@.len() as int + 1));
                    out.push(item);
                },
                None => {
                    return out;
                },
            }
        }
    }
}

/// Once there is a tile set among the first `k` elements there is one among
/// the first `n`, for `n` from `k` on.
pub proof fn lemma_tileset_count(nodes: Seq<Element>, k: int, n: int)
    requires
        0 <= k <= n <= nodes.len(),
        tileset_count(nodes, k) > 0,
    ensures
        tileset_count(nodes, n) > 0,
    decreases n - k,
{
    if k < n {
        lemma_tileset_count(nodes, k, n - 1);
    }
}

} // verus!
