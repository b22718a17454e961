//! Custom properties: typed values under unique names.

use crate::color::{channels_of, Color};
use crate::decimal::Decimal;
use crate::errors::{Error, Fault};
use crate::parse::{attr_or_empty, attribute_or, optional_fault, text_or_empty, FromText};
use crate::text::same;
use crate::xml::{first_tagged, Element};
use vstd::prelude::*;
use vstd::string::StringExecFns;

verus! {

/// Reference type to an object stored in this map.
#[derive(Debug, PartialEq, Eq, Structural, Copy, Clone)]
pub struct ObjectReference(pub i64);

/// The value of a property.
#[non_exhaustive]
#[derive(Debug, PartialEq)]
pub enum PropertyValue {
    String(String),
    Int(i64),
    /// A number with a fractional part, as it is written.
    Float(Decimal),
    Bool(bool),
    Color(Color),
    /// The path of a file.
    File(String),
    Object(ObjectReference),
}

/// A named value.
#[derive(Debug, PartialEq)]
pub struct Property {
    pub name: String,
    pub value: PropertyValue,
}

impl Clone for PropertyValue {
    fn clone(&self) -> (r: Self)
        ensures
            r == *self,
    {
        match self {
            PropertyValue::String(text) => PropertyValue::String(text.clone()),
            PropertyValue::Int(i) => PropertyValue::Int(*i),
            PropertyValue::Float(d) => PropertyValue::Float(d.clone()),
            PropertyValue::Bool(b) => PropertyValue::Bool(*b),
            PropertyValue::Color(c) => PropertyValue::Color(*c),
            PropertyValue::File(path) => PropertyValue::File(path.clone()),
            PropertyValue::Object(reference) => PropertyValue::Object(*reference),
        }
    }
}

impl Clone for Property {
    fn clone(&self) -> (r: Self)
        ensures
            r == *self,
    {
        Property { name: self.name.clone(), value: self.value.clone() }
    }
}

/// The type that a `property` element declares; `string` where it declares none.
pub open spec fn declared_type(node: &Element) -> Seq<char> {
    match node.attr("type"@) {
        Some(t) => t,
        None => "string"@,
    }
}

/// The fault of a `property` element whose type is not known.
pub open spec fn unknown_type(node: &Element) -> Fault {
    Fault::Unsupported(
        "Unknown property type '"@ + declared_type(node) + "' for property '"@ + attr_or_empty(
            node,
            "name"@,
        ) + "'"@,
    )
}

/// The fault, if any, of the value of a `property` element.
pub open spec fn value_fault(node: &Element) -> Option<Fault> {
    let kind = declared_type(node);
    if kind == "string"@ {
        None
    } else if kind == "int"@ {
        optional_fault::<i64>(node, "value"@)
    } else if kind == "float"@ {
        optional_fault::<Decimal>(node, "value"@)
    } else if kind == "bool"@ {
        optional_fault::<bool>(node, "value"@)
    } else if kind == "color"@ {
        optional_fault::<Color>(node, "value"@)
    } else if kind == "file"@ {
        None
    } else if kind == "object"@ {
        optional_fault::<i64>(node, "value"@)
    } else {
        Some(unknown_type(node))
    }
}

/// Whether `value` is the value that a `property` element gives: of the
/// declared type, read from the attribute `value`. Where that attribute is
/// absent, a string is the element's text, and any other value is the zero of
/// its type: `0`, `false`, transparent black, the empty path.
pub open spec fn is_value_of(node: &Element, value: PropertyValue) -> bool {
    let kind = declared_type(node);
    let written = node.attr("value"@);
    if kind == "string"@ {
        value matches PropertyValue::String(s) && s@ == (match written {
            Some(t) => t,
            None => node.content(),
        })
    } else if kind == "int"@ {
        value matches PropertyValue::Int(i) && (match written {
            Some(t) => i64::writes(t, i),
            None => i == 0,
        })
    } else if kind == "float"@ {
        value matches PropertyValue::Float(d) && (match written {
            Some(t) => d.written() == t,
            None => d.written() == seq!['0'],
        })
    } else if kind == "bool"@ {
        value matches PropertyValue::Bool(b) && (match written {
            Some(t) => bool::writes(t, b),
            None => !b,
        })
    } else if kind == "color"@ {
        value matches PropertyValue::Color(c) && (match written {
            Some(t) => Color::writes(t, c),
            None => c.bits() == 0,
        })
    } else if kind == "file"@ {
        value matches PropertyValue::File(path) && path@ == attr_or_empty(node, "value"@)
    } else if kind == "object"@ {
        value matches PropertyValue::Object(reference) && (match written {
            Some(t) => i64::writes(t, reference.0),
            None => reference.0 == 0,
        })
    } else {
        false
    }
}

impl PropertyValue {
    /// Parse a single property value from a `property` element.
    pub fn from_xml(node: &Element) -> (r: Result<PropertyValue, Error>)
        ensures
            match r {
                Ok(value) => value_fault(node) is None && is_value_of(node, value),
                Err(e) => value_fault(node) == Some(e@),
            },
    {
        let kind = match node.attribute("type") {
            Some(t) => t,
            None => "string",
        };
        if same(kind, "string") {
            let text = match node.attribute("value") {
                Some(t) => t,
                None => node.text_or_empty(),
            };
            Ok(PropertyValue::String(String::from_str(text)))
        } else if same(kind, "int") {
            match attribute_or::<i64>(node, "value", 0) {
                Ok(i) => Ok(PropertyValue::Int(i)),
                Err(e) => Err(e),
            }
        } else if same(kind, "float") {
            match attribute_or::<Decimal>(node, "value", Decimal::zero()) {
                Ok(d) => Ok(PropertyValue::Float(d)),
                Err(e) => Err(e),
            }
        } else if same(kind, "bool") {
            match attribute_or::<bool>(node, "value", false) {
                Ok(b) => Ok(PropertyValue::Bool(b)),
                Err(e) => Err(e),
            }
        } else if same(kind, "color") {
            match attribute_or::<Color>(node, "value", Color::default()) {
                Ok(c) => Ok(PropertyValue::Color(c)),
                Err(e) => Err(e),
            }
        } else if same(kind, "file") {
            Ok(PropertyValue::File(text_or_empty(node, "value")))
        } else if same(kind, "object") {
            match attribute_or::<i64>(node, "value", 0) {
                Ok(i) => Ok(PropertyValue::Object(ObjectReference(i))),
                Err(e) => Err(e),
            }
        } else {
            let mut msg = String::from_str("Unknown property type '");
            msg.append(kind);
            msg.append("' for property '");
            msg.append(text_or_empty(node, "name").as_str());
            msg.append("'");
            Err(Error::UnsupportedFeature(msg))
        }
    }
}

impl Property {
    /// Try to get the value of this property as a [&str].
    ///
    /// Returns a [Error::PropertyTypeError] if it contains a different type.
    pub fn as_str(&self) -> (r: Result<&str, Error>)
        ensures
            match r {
                Ok(text) => self.value matches PropertyValue::String(s) && text@ == s@,
                Err(e) => !(self.value is String) && e@ == Fault::PropertyType,
            },
    {
        match &self.value {
            PropertyValue::String(text) => Ok(text.as_str()),
            _ => Err(Error::PropertyTypeError),
        }
    }

    /// Try to get the value of this property as a [i64].
    ///
    /// Returns a [Error::PropertyTypeError] if it contains a different type.
    pub fn as_i64(&self) -> (r: Result<i64, Error>)
        ensures
            match r {
                Ok(i) => self.value == PropertyValue::Int(i),
                Err(e) => !(self.value is Int) && e@ == Fault::PropertyType,
            },
    {
        match &self.value {
            PropertyValue::Int(val) => Ok(*val),
            _ => Err(Error::PropertyTypeError),
        }
    }

    /// Try to get the value of this property as a number with a fractional
    /// part, which is handed out as it is written.
    ///
    /// Returns a [Error::PropertyTypeError] if it contains a different type.
    pub fn as_f64(&self) -> (r: Result<&Decimal, Error>)
        ensures
            match r {
                Ok(d) => self.value == PropertyValue::Float(*d),
                Err(e) => !(self.value is Float) && e@ == Fault::PropertyType,
            },
    {
        match &self.value {
            PropertyValue::Float(val) => Ok(val),
            _ => Err(Error::PropertyTypeError),
        }
    }

    /// Try to get the value of this property as a [bool].
    ///
    /// Returns a [Error::PropertyTypeError] if it contains a different type.
    pub fn as_bool(&self) -> (r: Result<bool, Error>)
        ensures
            match r {
                Ok(b) => self.value == PropertyValue::Bool(b),
                Err(e) => !(self.value is Bool) && e@ == Fault::PropertyType,
            },
    {
        match &self.value {
            PropertyValue::Bool(val) => Ok(*val),
            _ => Err(Error::PropertyTypeError),
        }
    }

    /// Try to get the value of this property as a [Color].
    ///
    /// Returns a [Error::PropertyTypeError] if it contains a different type.
    pub fn as_color(&self) -> (r: Result<Color, Error>)
        ensures
            match r {
                Ok(c) => self.value == PropertyValue::Color(c),
                Err(e) => !(self.value is Color) && e@ == Fault::PropertyType,
            },
    {
        match &self.value {
            PropertyValue::Color(val) => Ok(*val),
            _ => Err(Error::PropertyTypeError),
        }
    }

    /// Try to get the value of this property as a file path.
    /// This returns the path as a [&str].
    ///
    /// Returns a [Error::PropertyTypeError] if it contains a different type.
    pub fn as_file(&self) -> (r: Result<&str, Error>)
        ensures
            match r {
                Ok(text) => self.value matches PropertyValue::File(s) && text@ == s@,
                Err(e) => !(self.value is File) && e@ == Fault::PropertyType,
            },
    {
        match &self.value {
            PropertyValue::File(val) => Ok(val.as_str()),
            _ => Err(Error::PropertyTypeError),
        }
    }

    /// Try to get the value of this property as an [ObjectReference].
    ///
    /// Returns a [Error::PropertyTypeError] if it contains a different type.
    pub fn as_object_ref(&self) -> (r: Result<ObjectReference, Error>)
        ensures
            match r {
                Ok(reference) => self.value == PropertyValue::Object(reference),
                Err(e) => !(self.value is Object) && e@ == Fault::PropertyType,
            },
    {
        match &self.value {
            PropertyValue::Object(val) => Ok(*val),
            _ => Err(Error::PropertyTypeError),
        }
    }
}

/// The properties of an entity: values under names, each name once.
#[derive(Debug)]
pub struct PropertyContainer {
    properties: Vec<Property>,
}

/// Whether no two entries have the same name.
spec fn distinct(entries: Seq<Property>) -> bool {
    forall|i: int, j: int|
        0 <= i < j < entries.len() ==> (#[trigger] entries[i]).name@
            != (#[trigger] entries[j]).name@
}

/// Whether an entry is called `name`.
spec fn named(entries: Seq<Property>, name: Seq<char>) -> bool {
    exists|i: int| 0 <= i < entries.len() && (#[trigger] entries[i]).name@ == name
}

/// The values of the entries, under their names.
spec fn map_of(entries: Seq<Property>) -> Map<Seq<char>, PropertyValue> {
    Map::new(
        |name: Seq<char>| named(entries, name),
        |name: Seq<char>|
            entries[choose|i: int| 0 <= i < entries.len() && (#[trigger] entries[i]).name@
                == name].value,
    )
}

/// Each entry is found under its name.
proof fn lemma_entry(entries: Seq<Property>, i: int)
    requires
        distinct(entries),
        0 <= i < entries.len(),
    ensures
        map_of(entries).contains_key(entries[i].name@),
        map_of(entries)[entries[i].name@] == entries[i].value,
{
    let name = entries[i].name@;
    assert(named(entries, name));
    let k = choose|k: int| 0 <= k < entries.len() && (#[trigger] entries[k]).name@ == name;
    assert(k == i);
}

/// The place of the entry called `name`.
fn find(entries: &Vec<Property>, name: &str) -> (r: Option<usize>)
    ensures
        match r {
            Some(i) => i < entries.len() && entries@[i as int].name@ == name@,
            None => !named(entries@, name@),
        },
{
    let mut i: usize = 0;
    while i < entries.len()
        invariant
            i <= entries.len(),
            forall|j: int| 0 <= j < i ==> (#[trigger] entries@[j]).name@ != name@,
        decreases entries.len() - i,
    {
        if same(entries[i].name.as_str(), name) {
            return Some(i);
        }
        i += 1;
    }
    None
}

/// Puts `value` under `name`, in place of what was there.
fn put(entries: &mut Vec<Property>, name: String, value: PropertyValue)
    requires
        distinct(old(entries)@),
    ensures
        distinct(final(entries)@),
        map_of(final(entries)@) == map_of(old(entries)@).insert(name@, value),
{
    let ghost before = entries@;
    let ghost key = name@;
    match find(entries, name.as_str()) {
        Some(i) => {
            entries.set(i, Property { name, value });
            proof {
                let after = entries@;
                assert forall|a: int, b: int| 0 <= a < b < after.len()
                    implies (#[trigger] after[a]).name@
                    != (#[trigger] after[b]).name@ by {
                    assert(after[a].name@ == before[a].name@);
                    assert(after[b].name@ == before[b].name@);
                }
                assert forall|n: Seq<char>| named(after, n) == named(before, n) by {
                    if named(before, n) {
                        let k = choose|k: int| 0 <= k < before.len()
                            && (#[trigger] before[k]).name@ == n;
                        assert(after[k].name@ == n);
                    }
                    if named(after, n) {
                        let k = choose|k: int| 0 <= k < after.len() && (#[trigger] after[k]).name@
                            == n;
                        assert(before[k].name@ == n);
                    }
                }
                assert(named(before, key)) by {
                    assert(before[i as int].name@ == key);
                }
                assert forall|n: Seq<char>| named(after, n) implies #[trigger] map_of(after)[n]
                    == map_of(before).insert(key, value)[n] by {
                    let k = choose|k: int| 0 <= k < after.len() && (#[trigger] after[k]).name@ == n;
                    lemma_entry(after, k);
                    if k != i {
                        assert(after[k] == before[k]);
                        lemma_entry(before, k);
                    }
                }
                assert(map_of(after) =~= map_of(before).insert(key, value));
            }
        },
        None => {
            entries.push(Property { name, value });
            proof {
                let after = entries@;
                let last = after.len() - 1;
                assert forall|a: int, b: int| 0 <= a < b < after.len()
                    implies (#[trigger] after[a]).name@
                    != (#[trigger] after[b]).name@ by {
                    assert(after[a] == before[a]);
                    if b < last {
                        assert(after[b] == before[b]);
                    }
                }
                assert forall|n: Seq<char>| named(after, n) == (named(before, n) || n == key) by {
                    if named(before, n) {
                        let k = choose|k: int| 0 <= k < before.len()
                            && (#[trigger] before[k]).name@ == n;
                        assert(after[k].name@ == n);
                    }
                    if n == key {
                        assert(after[last].name@ == n);
                    }
                    if named(after, n) {
                        let k = choose|k: int| 0 <= k < after.len() && (#[trigger] after[k]).name@
                            == n;
                        if k < last {
                            assert(before[k].name@ == n);
                        }
                    }
                }
                assert forall|n: Seq<char>| named(after, n) implies #[trigger] map_of(after)[n]
                    == map_of(before).insert(key, value)[n] by {
                    let k = choose|k: int| 0 <= k < after.len() && (#[trigger] after[k]).name@ == n;
                    lemma_entry(after, k);
                    if k < last {
                        assert(after[k] == before[k]);
                        lemma_entry(before, k);
                    }
                }
                assert(map_of(after) =~= map_of(before).insert(key, value));
            }
        },
    }
}

/// The fault, if any, of one `property` element: it has no name, or its value
/// has a fault.
pub open spec fn property_fault(node: &Element) -> Option<Fault> {
    match node.attr("name"@) {
        None => Some(Fault::Structure { tag: node.tag@, msg: "Property is missing a name!"@ }),
        Some(_) => value_fault(node),
    }
}

/// The elements among which the properties of `node` are: the children of
/// its first child called `properties`.
pub open spec fn property_nodes(node: &Element) -> Seq<Element> {
    match first_tagged(node.children@, "properties"@) {
        Some(i) => node.children@[i].children@,
        None => Seq::empty(),
    }
}

/// The place in `nodes` of the first `property` element with a fault, from
/// `from` on.
pub open spec fn first_faulty(nodes: Seq<Element>, from: int) -> Option<int>
    decreases nodes.len() - from,
{
    if from < 0 || from >= nodes.len() {
        None
    } else if nodes[from].tag@ == "property"@ && property_fault(&nodes[from]) is Some {
        Some(from)
    } else {
        first_faulty(nodes, from + 1)
    }
}

/// The fault, if any, of the properties of `node`: that of the first
/// `property` element that has one.
pub open spec fn properties_fault(node: &Element) -> Option<Fault> {
    match first_faulty(property_nodes(node), 0) {
        Some(k) => property_fault(&property_nodes(node)[k]),
        None => None,
    }
}

/// Whether `properties` holds what `node` gives and nothing else.
pub open spec fn are_properties_of(
    node: &Element,
    properties: Map<Seq<char>, PropertyValue>,
) -> bool {
    updated_by(Map::empty(), properties, property_nodes(node), property_nodes(node).len() as int)
}

/// The place of the last `property` element called `name` among the first
/// `upto` of `nodes`.
pub open spec fn last_named(nodes: Seq<Element>, name: Seq<char>, upto: int) -> Option<int>
    decreases upto,
{
    if upto <= 0 || upto > nodes.len() {
        None
    } else if nodes[upto - 1].tag@ == "property"@ && nodes[upto - 1].attr("name"@) == Some(name) {
        Some(upto - 1)
    } else {
        last_named(nodes, name, upto - 1)
    }
}

/// Whether `after` is `before` with the `property` elements among the first
/// `upto` of `nodes` written over it in order: under each name that one of
/// them has, the value of the last that has it; under every other name, what
/// `before` holds.
pub open spec fn updated_by(
    before: Map<Seq<char>, PropertyValue>,
    after: Map<Seq<char>, PropertyValue>,
    nodes: Seq<Element>,
    upto: int,
) -> bool {
    forall|name: Seq<char>|
        #![trigger after.contains_key(name)]
        #![trigger last_named(nodes, name, upto)]
        after.contains_key(name) == (before.contains_key(name) || last_named(nodes, name, upto)
            is Some) && (after.contains_key(name) ==> match last_named(nodes, name, upto) {
            Some(k) => is_value_of(&nodes[k], after[name]),
            None => after[name] == before[name],
        })
}

impl Clone for PropertyContainer {
    fn clone(&self) -> (r: Self)
        ensures
            r@ == self@,
            r.entries() == self.entries(),
    {
        proof {
            use_type_invariant(self);
        }
        let mut properties: Vec<Property> = Vec::new();
        let mut i: usize = 0;
        while i < self.properties.len()
            invariant
                i <= self.properties.len(),
                properties@ == self.properties@.take(i as int),
            decreases self.properties.len() - i,
        {
            properties.push(self.properties[i].clone());
            assert(properties@ =~= self.properties@.take(i + 1));
            i += 1;
        }
        assert(properties@ =~= self.properties@);
        Self { properties }
    }
}

impl View for PropertyContainer {
    type V = Map<Seq<char>, PropertyValue>;

    closed spec fn view(&self) -> Map<Seq<char>, PropertyValue> {
        map_of(self.properties@)
    }
}

impl PropertyContainer {
    #[verifier::type_invariant]
    spec fn unique_names(self) -> bool {
        distinct(self.properties@)
    }

    /// The entries, in the order in which [`PropertyContainer::iter`] hands them out.
    pub closed spec fn entries(&self) -> Seq<Property> {
        self.properties@
    }

    /// A container without properties.
    pub fn new() -> (r: Self)
        ensures
            r@ == Map::<Seq<char>, PropertyValue>::empty(),
            r.entries() == Seq::<Property>::empty(),
    {
        let r = Self { properties: Vec::new() };
        assert(r@ =~= Map::<Seq<char>, PropertyValue>::empty());
        r
    }

    /// Puts `value` under `name`, in place of what was there.
    pub fn insert(&mut self, name: String, value: PropertyValue)
        ensures
            final(self)@ == old(self)@.insert(name@, value),
    {
        proof {
            use_type_invariant(&*self);
        }
        let mut entries: Vec<Property> = Vec::new();
        std::mem::swap(&mut entries, &mut self.properties);
        put(&mut entries, name, value);
        self.properties = entries;
    }

    /// The value under `name`, if there is one.
    pub fn get(&self, name: &str) -> (r: Option<&PropertyValue>)
        ensures
            match r {
                Some(value) => self@.contains_key(name@) && *value == self@[name@],
                None => !self@.contains_key(name@),
            },
    {
        proof {
            use_type_invariant(self);
        }
        match find(&self.properties, name) {
            Some(i) => {
                proof {
                    lemma_entry(self.properties@, i as int);
                }
                Some(&self.properties[i].value)
            },
            None => None,
        }
    }

    /// The value under `name`, which the container must hold.
    pub fn index(&self, name: &str) -> (r: &PropertyValue)
        requires
            self@.contains_key(name@),
        ensures
            *r == self@[name@],
    {
        proof {
            use_type_invariant(self);
        }
        let mut i: usize = 0;
        loop
            invariant
                distinct(self.properties@),
                exists|k: int|
                    i <= k < self.properties.len() && (#[trigger] self.properties@[k]).name@
                        == name@,
            decreases self.properties.len() - i,
        {
            if same(self.properties[i].name.as_str(), name) {
                proof {
                    lemma_entry(self.properties@, i as int);
                }
                return &self.properties[i].value;
            }
            i += 1;
        }
    }

    /// The number of properties.
    pub fn len(&self) -> (r: usize)
        ensures
            r == self.entries().len(),
    {
        self.properties.len()
    }

    /// All the properties stored in this container, each once, in no
    /// particular order.
    pub fn iter(&self) -> (r: &[Property])
        ensures
            r@ == self.entries(),
            forall|i: int|
                0 <= i < r@.len() ==> self@.contains_key((#[trigger] r@[i]).name@)
                    && self@[r@[i].name@]
                    == r@[i].value,
            forall|i: int, j: int|
                0 <= i < j < r@.len() ==> (#[trigger] r@[i]).name@ != (#[trigger] r@[j]).name@,
            forall|name: Seq<char>|
                #![trigger self@.contains_key(name)]
                self@.contains_key(name) ==> exists|i: int|
                    0 <= i < r@.len() && (#[trigger] r@[i]).name@ == name,
    {
        proof {
            use_type_invariant(self);
            assert forall|i: int| 0 <= i < self.properties@.len() implies self@.contains_key(
                (#[trigger] self.properties@[i]).name@,
            ) && self@[self.properties@[i].name@] == self.properties@[i].value by {
                lemma_entry(self.properties@, i);
            }
        }
        self.properties.as_slice()
    }

    /// Reads the properties of `node`: those of its first child called `properties`.
    pub fn from_xml(node: &Element) -> (r: Result<Self, Error>)
        ensures
            match r {
                Ok(container) => properties_fault(node) is None && are_properties_of(
                    node,
                    container@,
                ),
                Err(e) => properties_fault(node) == Some(e@),
            },
    {
        let mut this = Self::new();
        match this.update_from_xml(node) {
            Ok(()) => Ok(this),
            Err(e) => Err(e),
        }
    }

    /// Writes the properties of `node` over those of `self`, in document
    /// order: a property of `node` replaces one of the same name.
    ///
    /// The first `property` element without a name or with a value that cannot
    /// be read ends the update with its error; those before it have been
    /// written by then.
    pub fn update_from_xml(&mut self, node: &Element) -> (r: Result<(), Error>)
        ensures
            match r {
                Ok(()) => properties_fault(node) is None && updated_by(
                    old(self)@,
                    final(self)@,
                    property_nodes(node),
                    property_nodes(node).len() as int,
                ),
                Err(e) => properties_fault(node) == Some(e@) && (first_faulty(
                    property_nodes(node),
                    0,
                ) matches Some(k) && updated_by(old(self)@, final(self)@, property_nodes(node), k)),
            },
    {
        proof {
            use_type_invariant(&*self);
        }
        let properties = match node.child("properties") {
            Some(p) => p,
            None => {
                return Ok(());
            },
        };
        let ghost nodes = property_nodes(node);
        assert(nodes == properties.children@);
        let mut entries: Vec<Property> = Vec::new();
        std::mem::swap(&mut entries, &mut self.properties);
        let ghost before = map_of(entries@);
        let mut i: usize = 0;
        let mut failure: Option<Error> = None;
        while i < properties.children.len() && failure.is_none()
            invariant
                i <= properties.children.len(),
                nodes == properties.children@,
                distinct(entries@),
                match failure {
                    None => first_faulty(nodes, 0) == first_faulty(nodes, i as int) && updated_by(
                        before,
                        map_of(entries@),
                        nodes,
                        i as int,
                    ),
                    Some(e) => first_faulty(nodes, 0) matches Some(k) && property_fault(&nodes[k])
                        == Some(e@) && updated_by(before, map_of(entries@), nodes, k),
                },
            decreases properties.children.len() - i + (if failure is None { 1int } else { 0int }),
        {
            let property = &properties.children[i];
            let ghost current = map_of(entries@);
            if property.has_tag("property") {
                match property.attribute("name") {
                    None => {
                        failure = Some(
                            Error::StructureError {
                                tag: property.tag.clone(),
                                msg: String::from_str("Property is missing a name!"),
                            },
                        );
                    },
                    Some(name) => match PropertyValue::from_xml(property) {
                        Ok(value) => {
                            put(&mut entries, String::from_str(name), value);
                            proof {
                                let next = map_of(entries@);
                                assert forall|n: Seq<char>|
                                    next.contains_key(n) == (before.contains_key(n) || last_named(
                                        nodes,
                                        n,
                                        i + 1,
                                    ) is Some) && (next.contains_key(n) ==> match last_named(
                                        nodes,
                                        n,
                                        i + 1,
                                    ) {
                                        Some(k) => is_value_of(&nodes[k], next[n]),
                                        None => next[n] == before[n],
                                    }) by {
                                    assert(current.contains_key(n) == (before.contains_key(n)
                                        || last_named(nodes, n, i as int) is Some));
                                }
                            }
                            i += 1;
                        },
                        Err(e) => {
                            failure = Some(e);
                        },
                    },
                }
            } else {
                proof {
                    assert forall|n: Seq<char>|
                        current.contains_key(n) == (before.contains_key(n) || last_named(
                            nodes,
                            n,
                            i + 1,
                        ) is Some) && (current.contains_key(n) ==> match last_named(nodes, n,
                            i + 1) {
                            Some(k) => is_value_of(&nodes[k], current[n]),
                            None => current[n] == before[n],
                        }) by {
                        assert(current.contains_key(n) == (before.contains_key(n) || last_named(
                            nodes,
                            n,
                            i as int,
                        ) is Some));
                    }
                }
                i += 1;
            }
        }
        self.properties = entries;
        match failure {
            Some(e) => Err(e),
            None => Ok(()),
        }
    }
}

} // verus!
