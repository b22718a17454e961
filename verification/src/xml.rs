//! The document tree that a map is read from.
//!
//! The XML text itself is parsed by `roxmltree`. Its tree is copied, node by
//! node, into [`Element`] values, and everything else in this crate reads those.

use crate::errors::{Error, Fault};
use crate::text::same;
use roxmltree::Error as XmlError;
use vstd::prelude::*;
use vstd::string::StringExecFns;

verus! {

/// One attribute of an element.
#[derive(Debug, Clone)]
pub struct Attribute {
    /// The URI of the attribute's namespace, if it has one.
    pub namespace: Option<String>,
    /// The local name.
    pub name: String,
    pub value: String,
}

/// A node of a document: an element, or a piece of text, a comment or a
/// processing instruction between elements.
#[derive(Debug)]
pub struct Element {
    /// The local name of an element; empty for any other node.
    pub tag: String,
    /// The attributes of an element, in document order.
    pub attributes: Vec<Attribute>,
    /// For an element, the text of its first child if that is a text node;
    /// for a text node or a comment, its own text.
    pub text: Option<String>,
    /// All child nodes, in document order.
    pub children: Vec<Element>,
}

/// `roxmltree::Node`, whose inside the verifier does not see.
#[verifier::external_type_specification]
#[verifier::external_body]
pub struct ExXmlNode<'a, 'input: 'a>(roxmltree::Node<'a, 'input>);

/// `roxmltree::Error`, whose inside the verifier does not see.
#[verifier::external_type_specification]
#[verifier::external_body]
pub struct ExXmlError(XmlError);

/// The root element of the document that `text` holds, as `roxmltree` reads it;
/// `None` where `roxmltree` rejects the text.
pub uninterp spec fn xml_document(text: Seq<char>) -> Option<Element>;

/// Copies a node of a `roxmltree` document with everything below it: the local
/// name of `tag_name()`, each entry of `attributes()` with its `namespace()`,
/// `name()` and `value()`, `text()`, and the copies of `children()` in order.
/// Nothing is claimed of the result here; [`parse_document`] names it.
#[verifier::external_body]
fn copy_node(node: roxmltree::Node) -> Element {
    Element {
        tag: node.tag_name().name().to_string(),
        attributes: node.attributes().iter().map(|a| Attribute {
            namespace: a.namespace().map(|uri| uri.to_string()),
            name: a.name().to_string(),
            value: a.value().to_string(),
        }).collect(),
        text: node.text().map(|t| t.to_string()),
        children: node.children().map(copy_node).collect(),
    }
}

/// Calls `roxmltree::Document::parse` and copies the tree below
/// `Document::root_element`. Trusted: the outcome depends on `text` alone, so
/// it is the value that [`xml_document`] names, and the call fails exactly
/// where that is `None`.
#[verifier::external_body]
fn parse_document(text: &str) -> (r: std::result::Result<Element, XmlError>)
    ensures
        match r {
            Ok(root) => xml_document(text@) == Some(root),
            Err(_) => xml_document(text@) is None,
        },
{
    let document = roxmltree::Document::parse(text)?;
    Ok(copy_node(document.root_element()))
}

/// The wording of a `roxmltree::Error`, from its `Display` impl.
#[verifier::external_body]
fn xml_error_text(error: &XmlError) -> String {
    error.to_string()
}

/// The value of the first attribute in `attributes` that has no namespace and
/// is called `name`.
pub open spec fn first_attribute(attributes: Seq<Attribute>, name: Seq<char>) -> Option<Seq<char>>
    decreases attributes.len(),
{
    if attributes.len() == 0 {
        None
    } else if attributes[0].namespace is None && attributes[0].name@ == name {
        Some(attributes[0].value@)
    } else {
        first_attribute(attributes.drop_first(), name)
    }
}

/// The position of the first node in `nodes` whose tag is `tag`.
pub open spec fn first_tagged(nodes: Seq<Element>, tag: Seq<char>) -> Option<int>
    decreases nodes.len(),
{
    if nodes.len() == 0 {
        None
    } else if nodes[0].tag@ == tag {
        Some(0)
    } else {
        match first_tagged(nodes.drop_first(), tag) {
            Some(i) => Some(i + 1),
            None => None,
        }
    }
}

/// `first_tagged` finds a node with that tag, and none before it has it.
pub proof fn lemma_first_tagged(nodes: Seq<Element>, tag: Seq<char>)
    ensures
        match first_tagged(nodes, tag) {
            Some(i) => 0 <= i < nodes.len() && nodes[i].tag@ == tag && forall|j: int|
                0 <= j < i ==> (#[trigger] nodes[j]).tag@ != tag,
            None => forall|j: int| 0 <= j < nodes.len() ==> (#[trigger] nodes[j]).tag@ != tag,
        },
    decreases nodes.len(),
{
    if nodes.len() > 0 && nodes[0].tag@ != tag {
        let rest = nodes.drop_first();
        lemma_first_tagged(rest, tag);
        match first_tagged(rest, tag) {
            Some(i) => {
                assert forall|j: int| 0 <= j < i + 1 implies (#[trigger] nodes[j]).tag@ != tag by {
                    if j > 0 {
                        assert(nodes[j] == rest[j - 1]);
                    }
                }
            },
            None => {
                assert forall|j: int| 0 <= j < nodes.len() implies (#[trigger] nodes[j]).tag@
                    != tag by {
                    if j > 0 {
                        assert(nodes[j] == rest[j - 1]);
                    }
                }
            },
        }
    }
}

/// The fault of an element that lacks the attribute `name`.
pub open spec fn missing_attribute(tag: Seq<char>, name: Seq<char>) -> Fault {
    Fault::Structure { tag, msg: "Required attribute '"@ + name + "' missing"@ }
}

impl Element {
    /// The value of the attribute `name`, if the node has it.
    pub open spec fn attr(&self, name: Seq<char>) -> Option<Seq<char>> {
        first_attribute(self.attributes@, name)
    }

    /// The text of the node, or the empty text if it has none.
    pub open spec fn content(&self) -> Seq<char> {
        match self.text {
            Some(t) => t@,
            None => Seq::empty(),
        }
    }

    /// Parses an XML document and returns its root element.
    pub fn parse(text: &str) -> (r: Result<Element, Error>)
        ensures
            match r {
                Ok(root) => xml_document(text@) == Some(root),
                Err(e) => xml_document(text@) is None && e@ == Fault::Parse,
            },
    {
        match parse_document(text) {
            Ok(root) => Ok(root),
            Err(e) => Err(Error::ParseError(xml_error_text(&e))),
        }
    }

    /// Whether the node is an element called `tag`.
    pub fn has_tag(&self, tag: &str) -> (r: bool)
        ensures
            r == (self.tag@ == tag@),
    {
        same(self.tag.as_str(), tag)
    }

    /// The value of the attribute `name`, if the node has it.
    pub fn attribute(&self, name: &str) -> (r: Option<&str>)
        ensures
            match r {
                Some(value) => self.attr(name@) == Some(value@),
                None => self.attr(name@) is None,
            },
    {
        let mut i: usize = 0;
        assert(self.attributes@.skip(0) =~= self.attributes@);
        while i < self.attributes.len()
            invariant
                i <= self.attributes.len(),
                self.attr(name@) == first_attribute(self.attributes@.skip(i as int), name@),
            decreases self.attributes.len() - i,
        {
            let a = &self.attributes[i];
            proof {
                let rest = self.attributes@.skip(i as int);
                assert(rest[0] == self.attributes@[i as int]);
                assert(rest.drop_first() =~= self.attributes@.skip(i + 1));
            }
            if a.namespace.is_none() && same(a.name.as_str(), name) {
                return Some(a.value.as_str());
            }
            i += 1;
        }
        None
    }

    /// The value of the attribute `name`, which the node must have.
    pub fn required(&self, name: &str) -> (r: Result<&str, Error>)
        ensures
            match r {
                Ok(value) => self.attr(name@) == Some(value@),
                Err(e) => self.attr(name@) is None && e@ == missing_attribute(self.tag@, name@),
            },
    {
        match self.attribute(name) {
            Some(value) => Ok(value),
            None => {
                let mut msg = String::from_str("Required attribute '");
                msg.append(name);
                msg.append("' missing");
                Err(Error::StructureError { tag: self.tag.clone(), msg })
            },
        }
    }

    /// The first child that is an element called `tag`.
    pub fn child(&self, tag: &str) -> (r: Option<&Element>)
        ensures
            match r {
                Some(node) => first_tagged(self.children@, tag@) matches Some(i) && *node
                    == self.children@[i],
                None => first_tagged(self.children@, tag@) is None,
            },
    {
        let mut i: usize = 0;
        while i < self.children.len()
            invariant
                i <= self.children.len(),
                forall|j: int| 0 <= j < i ==> (#[trigger] self.children@[j]).tag@ != tag@,
            decreases self.children.len() - i,
        {
            if self.children[i].has_tag(tag) {
                proof {
                    lemma_first_tagged(self.children@, tag@);
                }
                return Some(&self.children[i]);
            }
            i += 1;
        }
        proof {
            lemma_first_tagged(self.children@, tag@);
        }
        None
    }

    /// The text of the node, or the empty text if it has none.
    pub fn text_or_empty(&self) -> (r: &str)
        ensures
            r@ == self.content(),
    {
        match &self.text {
            Some(t) => t.as_str(),
            None => {
                proof {
                    reveal_strlit("");
                    assert(""@ =~= Seq::<char>::empty());
                }
                ""
            },
        }
    }
}

} // verus!
