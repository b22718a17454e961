//! Objects: the entities of an object layer, which are not aligned to the
//! tile grid.

use crate::decimal::{is_decimal, Decimal};
use crate::errors::{Error, Fault};
use crate::gid::GID;
use crate::math::fvec2;
use crate::parse::{
    attr_or_empty,
    attribute,
    attribute_fault,
    attribute_or,
    attribute_or_default,
    is_attribute,
    is_optional,
    optional,
    optional_fault,
    or_else,
    reads_or,
    text_or_empty,
    FromText,
};
use crate::property::{
    are_properties_of,
    properties_fault,
    PropertyContainer,
};
use crate::text::{pieces, resolve, resolved, split, split_words, words};
use vstd::hash_map::StringHashMap;
use crate::xml::Element;
use vstd::prelude::*;
use vstd::string::StringExecFns;

verus! {

/// The shape of an object.
#[non_exhaustive]
#[derive(Debug, PartialEq)]
pub enum ObjectKind {
    Rect,
    Ellipse,
    Point,
    Polygon { points: Vec<fvec2> },
    Polyline { points: Vec<fvec2> },
    Text { content: String },
}

/// An element of an object layer.
/// Objects do not need to be aligned to the normal tile grid.
/// Objects can have different kinds (e.g. rect, ellipse, text).
#[non_exhaustive]
#[derive(Debug)]
pub struct Object {
    pub id: usize,
    pub name: String,
    pub type_: String,
    /// The position, in pixels.
    pub pos: fvec2,
    /// The size, in pixels.
    pub size: fvec2,
    /// The rotation, in degrees.
    pub rotation: Decimal,
    /// The tile that the object shows, if it is a tile object.
    pub tile_id: Option<GID>,
    pub visible: bool,
    pub kind: ObjectKind,
    pub properties: PropertyContainer,
}

/// Whether two shapes are the same: of one kind, with the same points or
/// the same text.
pub open spec fn same_kind(a: ObjectKind, b: ObjectKind) -> bool {
    match (a, b) {
        (ObjectKind::Rect, ObjectKind::Rect) => true,
        (ObjectKind::Ellipse, ObjectKind::Ellipse) => true,
        (ObjectKind::Point, ObjectKind::Point) => true,
        (ObjectKind::Polygon { points: p }, ObjectKind::Polygon { points: q }) => p@ == q@,
        (ObjectKind::Polyline { points: p }, ObjectKind::Polyline { points: q }) => p@ == q@,
        (ObjectKind::Text { content: c }, ObjectKind::Text { content: d }) => c@ == d@,
        _ => false,
    }
}

/// Whether `copy` says what `object` says.
pub open spec fn is_copy(object: &Object, copy: &Object) -> bool {
    &&& copy.id == object.id
    &&& copy.name@ == object.name@
    &&& copy.type_@ == object.type_@
    &&& copy.pos == object.pos
    &&& copy.size == object.size
    &&& copy.rotation == object.rotation
    &&& copy.tile_id == object.tile_id
    &&& copy.visible == object.visible
    &&& same_kind(object.kind, copy.kind)
    &&& copy.properties@ == object.properties@
}

/// Copies a list of points.
fn copy_points(points: &Vec<fvec2>) -> (r: Vec<fvec2>)
    ensures
        r@ == points@,
{
    let mut out: Vec<fvec2> = Vec::new();
    let mut i: usize = 0;
    while i < points.len()
        invariant
            i <= points.len(),
            out@ == points@.take(i as int),
        decreases points.len() - i,
    {
        out.push(points[i].clone());
        assert(out@ =~= points@.take(i + 1));
        i += 1;
    }
    assert(out@ =~= points@);
    out
}

impl Clone for ObjectKind {
    fn clone(&self) -> (r: Self)
        ensures
            same_kind(*self, r),
    {
        match self {
            ObjectKind::Rect => ObjectKind::Rect,
            ObjectKind::Ellipse => ObjectKind::Ellipse,
            ObjectKind::Point => ObjectKind::Point,
            ObjectKind::Polygon { points } => ObjectKind::Polygon { points: copy_points(points) },
            ObjectKind::Polyline { points } => ObjectKind::Polyline { points: copy_points(points) },
            ObjectKind::Text { content } => ObjectKind::Text { content: content.clone() },
        }
    }
}

impl Clone for Object {
    fn clone(&self) -> (r: Self)
        ensures
            is_copy(self, &r),
    {
        Object {
            id: self.id,
            name: self.name.clone(),
            type_: self.type_.clone(),
            pos: self.pos.clone(),
            size: self.size.clone(),
            rotation: self.rotation.clone(),
            tile_id: self.tile_id,
            visible: self.visible,
            kind: self.kind.clone(),
            properties: self.properties.clone(),
        }
    }
}

/// Whether `text` writes a point: two numbers with one `,` between them.
pub open spec fn is_point(text: Seq<char>) -> bool {
    let coords = pieces(text, ',');
    coords.len() == 2 && is_decimal(coords[0]) && is_decimal(coords[1])
}

/// Whether `point` is the point that `text` writes.
pub open spec fn is_point_of(text: Seq<char>, point: fvec2) -> bool {
    let coords = pieces(text, ',');
    coords.len() == 2 && point.x.written() == coords[0] && point.y.written() == coords[1]
}

/// Whether each of `list` writes a point.
pub open spec fn all_points(list: Seq<Seq<char>>) -> bool {
    forall|i: int| 0 <= i < list.len() ==> is_point(#[trigger] list[i])
}

/// Whether `points` are the points that the words of `text` write, in order.
pub open spec fn are_points_of(text: Seq<char>, points: Seq<fvec2>) -> bool {
    points.len() == words(text).len() && forall|i: int|
        0 <= i < points.len() ==> is_point_of(words(text)[i], #[trigger] points[i])
}

/// Reads a list of points: `x,y` pairs with white space between them.
pub fn as_point_list(text: &str) -> (r: Result<Vec<fvec2>, Error>)
    ensures
        match r {
            Ok(points) => all_points(words(text@)) && are_points_of(text@, points@),
            Err(e) => !all_points(words(text@)) && e@ == Fault::Parse,
        },
{
    let list = split_words(text);
    let mut points: Vec<fvec2> = Vec::new();
    let mut i: usize = 0;
    while i < list.len()
        invariant
            i <= list.len(),
            list@.len() == words(text@).len(),
            forall|j: int| 0 <= j < list@.len() ==> (#[trigger] list@[j])@ == words(text@)[j],
            points@.len() == i,
            forall|j: int| 0 <= j < i ==> is_point(#[trigger] words(text@)[j]),
            forall|j: int| 0 <= j < i ==> is_point_of(words(text@)[j], #[trigger] points@[j]),
        decreases list.len() - i,
    {
        let coords = split(list[i].as_str(), ',');
        assert(list@[i as int]@ == words(text@)[i as int]);
        if coords.len() != 2 {
            assert(!is_point(words(text@)[i as int]));
            let mut msg = list[i].clone();
            msg.append(" is not a valid point");
            return Err(Error::ParseError(msg));
        }
        let x = match Decimal::from_str(coords[0].as_str()) {
            Ok(x) => x,
            Err(e) => {
                assert(!is_point(words(text@)[i as int]));
                return Err(e);
            },
        };
        let y = match Decimal::from_str(coords[1].as_str()) {
            Ok(y) => y,
            Err(e) => {
                assert(!is_point(words(text@)[i as int]));
                return Err(e);
            },
        };
        points.push(fvec2::new(x, y));
        i += 1;
    }
    Ok(points)
}

/// Whether an element called `tag` gives an object its shape.
pub open spec fn is_shape(tag: Seq<char>) -> bool {
    tag == "ellipse"@ || tag == "point"@ || tag == "polygon"@ || tag == "polyline"@ || tag
        == "text"@
}

/// The place of the first of `nodes`, from `from` on, that gives a shape.
pub open spec fn first_shape(nodes: Seq<Element>, from: int) -> Option<int>
    decreases nodes.len() - from,
{
    if from < 0 || from >= nodes.len() {
        None
    } else if is_shape(nodes[from].tag@) {
        Some(from)
    } else {
        first_shape(nodes, from + 1)
    }
}

/// The fault of a `polygon` or `polyline` element without points.
pub open spec fn missing_points(tag: Seq<char>) -> Fault {
    Fault::Structure { tag, msg: "Missing attribute points"@ }
}

/// The fault, if any, of an element that gives a shape.
pub open spec fn shape_fault(shape: &Element) -> Option<Fault> {
    if shape.tag@ == "ellipse"@ || shape.tag@ == "point"@ {
        None
    } else if shape.tag@ == "polygon"@ || shape.tag@ == "polyline"@ {
        match shape.attr("points"@) {
            None => Some(missing_points(shape.tag@)),
            Some(text) => if all_points(words(text)) {
                None
            } else {
                Some(Fault::Parse)
            },
        }
    } else {
        None
    }
}

/// Whether `kind` is the shape that the element `shape` gives.
pub open spec fn is_shape_of(shape: &Element, kind: ObjectKind) -> bool {
    if shape.tag@ == "ellipse"@ {
        kind is Ellipse
    } else if shape.tag@ == "point"@ {
        kind is Point
    } else if shape.tag@ == "polygon"@ {
        kind matches ObjectKind::Polygon { points } && (shape.attr("points"@) matches Some(text)
            && are_points_of(text, points@))
    } else if shape.tag@ == "polyline"@ {
        kind matches ObjectKind::Polyline { points } && (shape.attr("points"@) matches Some(text)
            && are_points_of(text, points@))
    } else if shape.tag@ == "text"@ {
        kind matches ObjectKind::Text { content } && content@ == shape.content()
    } else {
        false
    }
}

/// The fault, if any, of the shape of the object that `node` describes.
pub open spec fn kind_fault(node: &Element) -> Option<Fault> {
    match first_shape(node.children@, 0) {
        Some(i) => shape_fault(&node.children@[i]),
        None => None,
    }
}

/// Whether `kind` is the shape of the object that `node` describes: that of
/// its first child that gives one, and a rectangle where no child does.
pub open spec fn is_kind_of(node: &Element, kind: ObjectKind) -> bool {
    match first_shape(node.children@, 0) {
        Some(i) => is_shape_of(&node.children@[i], kind),
        None => kind is Rect,
    }
}

impl ObjectKind {
    /// Reads the points of a `polygon` or `polyline` element.
    fn points_of(shape: &Element) -> (r: Result<Vec<fvec2>, Error>)
        requires
            shape.tag@ == "polygon"@ || shape.tag@ == "polyline"@,
            shape.tag@ != "ellipse"@,
            shape.tag@ != "point"@,
        ensures
            match r {
                Ok(points) => shape_fault(shape) is None && (shape.attr("points"@) matches Some(
                    text,
                ) && are_points_of(text, points@)),
                Err(e) => shape_fault(shape) == Some(e@),
            },
    {
        match shape.attribute("points") {
            None => Err(
                Error::StructureError {
                    tag: shape.tag.clone(),
                    msg: String::from_str("Missing attribute points"),
                },
            ),
            Some(text) => as_point_list(text),
        }
    }

    /// Reads the shape of the object that `node` describes.
    pub fn from_xml(node: &Element) -> (r: Result<ObjectKind, Error>)
        ensures
            match r {
                Ok(kind) => kind_fault(node) is None && is_kind_of(node, kind),
                Err(e) => kind_fault(node) == Some(e@),
            },
    {
        match ObjectKind::try_from_xml(node) {
            Ok(Some(kind)) => Ok(kind),
            Ok(None) => Ok(ObjectKind::Rect),
            Err(e) => Err(e),
        }
    }

    /// Reads the shape that `node` gives; `None` where no child of `node`
    /// gives one.
    pub fn try_from_xml(node: &Element) -> (r: Result<Option<ObjectKind>, Error>)
        ensures
            match r {
                Ok(Some(kind)) => kind_fault(node) is None && first_shape(node.children@, 0) is Some
                    && is_kind_of(node, kind),
                Ok(None) => kind_fault(node) is None && first_shape(node.children@, 0) is None,
                Err(e) => kind_fault(node) == Some(e@),
            },
    {
        let mut i: usize = 0;
        while i < node.children.len()
            invariant
                i <= node.children.len(),
                first_shape(node.children@, 0) == first_shape(node.children@, i as int),
            decreases node.children.len() - i,
        {
            let child = &node.children[i];
            if child.has_tag("ellipse") {
                return Ok(Some(ObjectKind::Ellipse));
            } else if child.has_tag("point") {
                return Ok(Some(ObjectKind::Point));
            } else if child.has_tag("polygon") {
                return match ObjectKind::points_of(child) {
                    Ok(points) => Ok(Some(ObjectKind::Polygon { points })),
                    Err(e) => Err(e),
                };
            } else if child.has_tag("polyline") {
                return match ObjectKind::points_of(child) {
                    Ok(points) => Ok(Some(ObjectKind::Polyline { points })),
                    Err(e) => Err(e),
                };
            } else if child.has_tag("text") {
                return Ok(
                    Some(ObjectKind::Text { content: String::from_str(child.text_or_empty()) }),
                );
            }
            i += 1;
        }
        Ok(None)
    }
}

/// The fault, if any, of the `object` element `node`. The attributes are
/// looked at in this order: `gid`, `id`, `x`, `y`, `width`, `height`,
/// `rotation`, `visible`; then the shape; then the properties.
pub open spec fn object_fault(node: &Element) -> Option<Fault> {
    or_else(
        optional_fault::<GID>(node, "gid"@),
        or_else(attribute_fault::<usize>(node, "id"@), rest_fault(node)),
    )
}

/// The fault, if any, of what an `object` element says besides `gid` and `id`.
pub open spec fn rest_fault(node: &Element) -> Option<Fault> {
    or_else(
        optional_fault::<Decimal>(node, "x"@),
        or_else(
            optional_fault::<Decimal>(node, "y"@),
            or_else(
                optional_fault::<Decimal>(node, "width"@),
                or_else(
                    optional_fault::<Decimal>(node, "height"@),
                    or_else(
                        optional_fault::<Decimal>(node, "rotation"@),
                        or_else(
                            optional_fault::<bool>(node, "visible"@),
                            or_else(kind_fault(node), properties_fault(node)),
                        ),
                    ),
                ),
            ),
        ),
    )
}

/// Whether `number` is what the attribute `name` of `node` writes, or `0`
/// where `node` has no such attribute.
pub open spec fn is_number_or_zero(node: &Element, name: Seq<char>, number: Decimal) -> bool {
    reads_or(node, name, number, number.written() == seq!['0'])
}

/// Whether `object` is the object that the element `node` describes. An
/// attribute that `node` does not have leaves the empty text, the number `0`,
/// no tile, or, for `visible`, `true`.
pub open spec fn is_object_of(node: &Element, object: &Object) -> bool {
    &&& is_attribute(node, "id"@, object.id)
    &&& object.name@ == attr_or_empty(node, "name"@)
    &&& object.type_@ == attr_or_empty(node, "type"@)
    &&& is_number_or_zero(node, "x"@, object.pos.x)
    &&& is_number_or_zero(node, "y"@, object.pos.y)
    &&& is_number_or_zero(node, "width"@, object.size.x)
    &&& is_number_or_zero(node, "height"@, object.size.y)
    &&& is_number_or_zero(node, "rotation"@, object.rotation)
    &&& is_optional(node, "gid"@, object.tile_id)
    &&& reads_or(node, "visible"@, object.visible, object.visible)
    &&& is_kind_of(node, object.kind)
    &&& are_properties_of(node, object.properties@)
}

impl Object {
    /// Whether the object is one that says nothing: the rectangle `id` without
    /// a name, at the origin, visible.
    pub open spec fn is_blank(&self, id: usize) -> bool {
        &&& self.id == id
        &&& self.name@ == Seq::<char>::empty()
        &&& self.type_@ == Seq::<char>::empty()
        &&& self.pos.x.written() == seq!['0']
        &&& self.pos.y.written() == seq!['0']
        &&& self.size.x.written() == seq!['0']
        &&& self.size.y.written() == seq!['0']
        &&& self.rotation.written() == seq!['0']
        &&& self.tile_id is None
        &&& self.visible
        &&& self.kind is Rect
        &&& self.properties@ == Map::<Seq<char>, crate::property::PropertyValue>::empty()
    }

    /// An object that says nothing.
    pub fn new(id: usize) -> (r: Object)
        ensures
            r.is_blank(id),
    {
        Object {
            id,
            name: String::new(),
            type_: String::new(),
            pos: fvec2::new(Decimal::zero(), Decimal::zero()),
            size: fvec2::new(Decimal::zero(), Decimal::zero()),
            rotation: Decimal::zero(),
            tile_id: None,
            visible: true,
            kind: ObjectKind::Rect,
            properties: PropertyContainer::new(),
        }
    }

    /// Reads an object from an `object` element.
    pub fn from_xml(node: &Element) -> (r: Result<Object, Error>)
        ensures
            match r {
                Ok(object) => object_fault(node) is None && is_object_of(node, &object),
                Err(e) => object_fault(node) == Some(e@),
            },
    {
        let tile_id = match optional::<GID>(node, "gid") {
            Ok(v) => v,
            Err(e) => {
                return Err(e);
            },
        };
        let id = match attribute::<usize>(node, "id") {
            Ok(v) => v,
            Err(e) => {
                return Err(e);
            },
        };
        let name = text_or_empty(node, "name");
        let type_ = text_or_empty(node, "type");
        let pos = match fvec2::from_tmx_or_default(node, "x", "y") {
            Ok(v) => v,
            Err(e) => {
                return Err(e);
            },
        };
        let size = match fvec2::from_tmx_or_default(node, "width", "height") {
            Ok(v) => v,
            Err(e) => {
                return Err(e);
            },
        };
        let rotation = match attribute_or_default::<Decimal>(node, "rotation") {
            Ok(v) => v,
            Err(e) => {
                return Err(e);
            },
        };
        let visible = match attribute_or::<bool>(node, "visible", true) {
            Ok(v) => v,
            Err(e) => {
                return Err(e);
            },
        };
        let kind = match ObjectKind::from_xml(node) {
            Ok(v) => v,
            Err(e) => {
                return Err(e);
            },
        };
        let properties = match PropertyContainer::from_xml(node) {
            Ok(v) => v,
            Err(e) => {
                return Err(e);
            },
        };
        Ok(
            Object {
                id,
                name,
                type_,
                pos,
                size,
                rotation,
                tile_id,
                visible,
                kind,
                properties,
            },
        )
    }
}

/// The fault, if any, of an `object` element that is written over an
/// object: that of [`object_fault`], but that `id` may be absent.
pub open spec fn fill_fault(node: &Element) -> Option<Fault> {
    or_else(
        optional_fault::<GID>(node, "gid"@),
        or_else(optional_fault::<usize>(node, "id"@), rest_fault(node)),
    )
}

/// The fault, if any, of what an `object` element says besides its
/// properties.
pub open spec fn fields_fault(node: &Element) -> Option<Fault> {
    or_else(
        optional_fault::<GID>(node, "gid"@),
        or_else(
            optional_fault::<usize>(node, "id"@),
            or_else(
                optional_fault::<Decimal>(node, "x"@),
                or_else(
                    optional_fault::<Decimal>(node, "y"@),
                    or_else(
                        optional_fault::<Decimal>(node, "width"@),
                        or_else(
                            optional_fault::<Decimal>(node, "height"@),
                            or_else(
                                optional_fault::<Decimal>(node, "rotation"@),
                                or_else(optional_fault::<bool>(node, "visible"@), kind_fault(node)),
                            ),
                        ),
                    ),
                ),
            ),
        ),
    )
}

/// Whether `number` is what the attribute `name` of `node` writes, or the
/// number `kept` where `node` has no such attribute.
pub open spec fn is_number_or(
    node: &Element,
    name: Seq<char>,
    number: Decimal,
    kept: Decimal,
) -> bool {
    reads_or(node, name, number, number.written() == kept.written())
}

/// Whether `after` is `before` with the element `node` written over it: what
/// `node` says replaces what `before` holds, a property of `node` replaces
/// one of the same name, and everything else stays.
pub open spec fn is_filled(before: &Object, node: &Element, after: &Object) -> bool {
    &&& reads_or(node, "id"@, after.id, after.id == before.id)
    &&& reads_or(node, "name"@, after.name, after.name@ == before.name@)
    &&& reads_or(node, "type"@, after.type_, after.type_@ == before.type_@)
    &&& is_number_or(node, "x"@, after.pos.x, before.pos.x)
    &&& is_number_or(node, "y"@, after.pos.y, before.pos.y)
    &&& is_number_or(node, "width"@, after.size.x, before.size.x)
    &&& is_number_or(node, "height"@, after.size.y, before.size.y)
    &&& is_number_or(node, "rotation"@, after.rotation, before.rotation)
    &&& match node.attr("gid"@) {
        Some(text) => match after.tile_id {
            Some(gid) => GID::writes(text, gid),
            None => false,
        },
        None => after.tile_id == before.tile_id,
    }
    &&& reads_or(node, "visible"@, after.visible, after.visible == before.visible)
    &&& if first_shape(node.children@, 0) is Some {
        is_kind_of(node, after.kind)
    } else {
        same_kind(before.kind, after.kind)
    }
    &&& crate::property::updated_by(
        before.properties@,
        after.properties@,
        crate::property::property_nodes(node),
        crate::property::property_nodes(node).len() as int,
    )
}

/// Whether two objects are the same in all but their properties.
pub open spec fn same_fields(a: &Object, b: &Object) -> bool {
    &&& a.id == b.id
    &&& a.name == b.name
    &&& a.type_ == b.type_
    &&& a.pos == b.pos
    &&& a.size == b.size
    &&& a.rotation == b.rotation
    &&& a.tile_id == b.tile_id
    &&& a.visible == b.visible
    &&& a.kind == b.kind
}

/// Whether `object` is the template that the element `node` describes: the
/// object that `node` describes, but that it has the id 0 where `node` gives
/// none.
pub open spec fn is_template_of(node: &Element, object: &Object) -> bool {
    &&& reads_or(node, "id"@, object.id, object.id == 0)
    &&& object.name@ == attr_or_empty(node, "name"@)
    &&& object.type_@ == attr_or_empty(node, "type"@)
    &&& is_number_or_zero(node, "x"@, object.pos.x)
    &&& is_number_or_zero(node, "y"@, object.pos.y)
    &&& is_number_or_zero(node, "width"@, object.size.x)
    &&& is_number_or_zero(node, "height"@, object.size.y)
    &&& is_number_or_zero(node, "rotation"@, object.rotation)
    &&& is_optional(node, "gid"@, object.tile_id)
    &&& reads_or(node, "visible"@, object.visible, object.visible)
    &&& is_kind_of(node, object.kind)
    &&& are_properties_of(node, object.properties@)
}

/// An element written over an object that says nothing gives the template
/// that the element describes.
pub proof fn lemma_filled_blank(blank: &Object, node: &Element, object: &Object)
    requires
        blank.is_blank(0),
        is_filled(blank, node, object),
    ensures
        is_template_of(node, object),
{
}

/// Puts `value` in `slot` if there is one.
fn put<T>(slot: &mut T, value: Option<T>)
    ensures
        match value {
            Some(v) => *final(slot) == v,
            None => *final(slot) == *old(slot),
        },
{
    match value {
        Some(v) => {
            *slot = v;
        },
        None => {},
    }
}

impl Object {
    /// Writes what the `object` element `node` says over this object: each
    /// attribute that `node` has replaces the field of its name, a shape of
    /// `node` replaces the shape, and the properties of `node` are written
    /// over the properties of this object.
    ///
    /// On an error no field has changed but, possibly, the properties: those
    /// of `node` before the faulty one have been written.
    pub fn fill_from_xml(&mut self, node: &Element) -> (r: Result<(), Error>)
        ensures
            match r {
                Ok(()) => fill_fault(node) is None && is_filled(old(self), node, final(self)),
                Err(e) => fill_fault(node) == Some(e@) && same_fields(old(self), final(self)) && (
                fields_fault(node) is Some ==> final(self).properties@ == old(self).properties@),
            },
    {
        let tile_id = match optional::<GID>(node, "gid") {
            Ok(v) => v,
            Err(e) => {
                return Err(e);
            },
        };
        let id = match optional::<usize>(node, "id") {
            Ok(v) => v,
            Err(e) => {
                return Err(e);
            },
        };
        let name = match node.attribute("name") {
            Some(text) => Some(String::from_str(text)),
            None => None,
        };
        let type_ = match node.attribute("type") {
            Some(text) => Some(String::from_str(text)),
            None => None,
        };
        let x = match optional::<Decimal>(node, "x") {
            Ok(v) => v,
            Err(e) => {
                return Err(e);
            },
        };
        let y = match optional::<Decimal>(node, "y") {
            Ok(v) => v,
            Err(e) => {
                return Err(e);
            },
        };
        let width = match optional::<Decimal>(node, "width") {
            Ok(v) => v,
            Err(e) => {
                return Err(e);
            },
        };
        let height = match optional::<Decimal>(node, "height") {
            Ok(v) => v,
            Err(e) => {
                return Err(e);
            },
        };
        let rotation = match optional::<Decimal>(node, "rotation") {
            Ok(v) => v,
            Err(e) => {
                return Err(e);
            },
        };
        let visible = match optional::<bool>(node, "visible") {
            Ok(v) => v,
            Err(e) => {
                return Err(e);
            },
        };
        let kind = match ObjectKind::try_from_xml(node) {
            Ok(v) => v,
            Err(e) => {
                return Err(e);
            },
        };
        assert(fields_fault(node) is None);
        match self.properties.update_from_xml(node) {
            Ok(()) => {},
            Err(e) => {
                return Err(e);
            },
        }
        match tile_id {
            Some(v) => {
                self.tile_id = Some(v);
            },
            None => {},
        }
        put(&mut self.id, id);
        put(&mut self.name, name);
        put(&mut self.type_, type_);
        put(&mut self.pos.x, x);
        put(&mut self.pos.y, y);
        put(&mut self.size.x, width);
        put(&mut self.size.y, height);
        put(&mut self.rotation, rotation);
        put(&mut self.visible, visible);
        put(&mut self.kind, kind);
        Ok(())
    }

    /// The object that the `object` element `node` makes of a template: a
    /// copy of `template` with `node` written over it. What `node` says and
    /// the properties that it has win over those of the template.
    pub fn from_template(template: &Object, node: &Element) -> (r: Result<Object, Error>)
        ensures
            match r {
                Ok(object) => fill_fault(node) is None && is_filled(template, node, &object),
                Err(e) => fill_fault(node) == Some(e@),
            },
    {
        let mut result = template.clone();
        match result.fill_from_xml(node) {
            Ok(()) => Ok(result),
            Err(e) => Err(e),
        }
    }

    /// Reads a template from an `object` element: the object that the element
    /// describes, with the id 0 where the element gives none.
    pub fn template_from_xml(node: &Element) -> (r: Result<Object, Error>)
        ensures
            match r {
                Ok(object) => fill_fault(node) is None && is_template_of(node, &object),
                Err(e) => fill_fault(node) == Some(e@),
            },
    {
        let mut result = Object::new(0);
        let ghost blank = result;
        match result.fill_from_xml(node) {
            Ok(()) => {
                proof {
                    lemma_filled_blank(&blank, node, &result);
                }
                Ok(result)
            },
            Err(e) => Err(e),
        }
    }
}

/// Templates, under the paths by which objects refer to them.
pub type TemplateMap = Map<Seq<char>, Object>;

/// The templates in `table`, which holds them under their full paths, under
/// the paths by which objects refer to them: the paths below `base`.
pub open spec fn templates_under(base: Seq<char>, table: TemplateMap) -> TemplateMap {
    Map::new(
        |path: Seq<char>| table.contains_key(resolved(base, path)),
        |path: Seq<char>| table[resolved(base, path)],
    )
}

/// The templates that objects may refer to.
pub struct Templates<'a> {
    base: &'a str,
    table: Option<&'a StringHashMap<Object>>,
}

impl<'a> View for Templates<'a> {
    type V = TemplateMap;

    /// The templates, under the paths by which objects refer to them.
    closed spec fn view(&self) -> TemplateMap {
        match self.table {
            Some(table) => templates_under(self.base@, table@),
            None => Map::empty(),
        }
    }
}

impl<'a> Templates<'a> {
    /// No templates.
    pub fn none() -> (r: Templates<'static>)
        ensures
            r@ == TemplateMap::empty(),
    {
        Templates { base: "", table: None }
    }

    /// The templates in `table`, which holds them under their paths below `base`.
    pub fn of(base: &'a str, table: &'a StringHashMap<Object>) -> (r: Self)
        ensures
            r@ == templates_under(base@, table@),
    {
        Templates { base, table: Some(table) }
    }

    /// The template that objects refer to by `path`.
    pub fn find(&self, path: &str) -> (r: Option<&'a Object>)
        ensures
            match r {
                Some(template) => self@.contains_key(path@) && *template == self@[path@],
                None => !self@.contains_key(path@),
            },
    {
        match self.table {
            Some(table) => {
                let full = resolve(self.base, path);
                match table.get(full.as_str()) {
                    Some(template) => Some(template),
                    None => None,
                }
            },
            None => None,
        }
    }
}

/// The fault of an object that refers to a template that is not there.
pub open spec fn unknown_template(tag: Seq<char>, path: Seq<char>) -> Fault {
    Fault::Structure { tag, msg: "Unknown template '"@ + path + "'"@ }
}

/// The fault, if any, of an `object` element in a layer. An object that
/// refers to a template need not have an id, but the template must be there.
pub open spec fn placed_fault(node: &Element, templates: TemplateMap) -> Option<Fault> {
    match node.attr("template"@) {
        None => object_fault(node),
        Some(path) => if templates.contains_key(path) {
            fill_fault(node)
        } else {
            Some(unknown_template(node.tag@, path))
        },
    }
}

/// Whether `object` is the object that the element `node` describes in a
/// layer: the object that `node` describes by itself or, where `node` refers
/// to a template, the template with `node` written over it.
pub open spec fn is_placed(node: &Element, templates: TemplateMap, object: &Object) -> bool {
    match node.attr("template"@) {
        None => is_object_of(node, object),
        Some(path) => templates.contains_key(path) && is_filled(&templates[path], node, object),
    }
}

impl Object {
    /// Reads an object from an `object` element of a layer. Where the
    /// element refers to a template, the object is the template with the
    /// element written over it: what the element says wins.
    pub fn from_xml_with(node: &Element, templates: &Templates) -> (r: Result<Object, Error>)
        ensures
            match r {
                Ok(object) => placed_fault(node, templates@) is None && is_placed(
                    node,
                    templates@,
                    &object,
                ),
                Err(e) => placed_fault(node, templates@) == Some(e@),
            },
    {
        match node.attribute("template") {
            None => Object::from_xml(node),
            Some(path) => match templates.find(path) {
                Some(template) => Object::from_template(template, node),
                None => {
                    let mut msg = String::from_str("Unknown template '");
                    msg.append(path);
                    msg.append("'");
                    Err(Error::StructureError { tag: node.tag.clone(), msg })
                },
            },
        }
    }
}

} // verus!
