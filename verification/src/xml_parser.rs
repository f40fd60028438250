//! The node tree handed over by the XML collaborator that extracts script
//! text and component metadata from a template document.  The tree itself is
//! plain data; producing it from document text is the collaborator's job, not
//! this library's.
use vstd::prelude::*;

verus! {

/// One node of a parsed document: an element or a text value.
#[derive(Debug, PartialEq, Eq)]
pub enum Node {
    XmlElement(XmlElement),
    Value(String),
}

/// An element: a name, its attributes in document order, and its children.
#[derive(Debug, PartialEq, Eq)]
pub struct XmlElement {
    pub name: String,
    pub attributes: Vec<(String, String)>,
    pub children: Vec<Node>,
}

impl Node {
    /// The node's text, or the fixed placeholder for a node that is not a
    /// text value.
    pub fn as_value(&self) -> (r: &str)
        ensures
            match self {
                Node::Value(v) => r@ == v@,
                Node::XmlElement(_) => r@ == "undefined"@,
            },
    {
        match self {
            Node::Value(v) => v.as_str(),
            Node::XmlElement(_) => "undefined",
        }
    }

    /// The element a node holds.  Asking an element of a text value is a
    /// caller error and is ruled out.
    pub fn as_element(&self) -> (r: &XmlElement)
        requires
            self is XmlElement,
        ensures
            *self == Node::XmlElement(*r),
    {
        match self {
            Node::XmlElement(e) => e,
            Node::Value(_) => unreached(),
        }
    }
}

} // verus!
