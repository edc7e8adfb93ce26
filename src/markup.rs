use vstd::prelude::*;
use crate::css_ast::Sheet;

verus! {

/// A syntax-tree item.
#[derive(Debug, PartialEq, Eq)]
pub struct Expression<T> {
    pub item: T,
}

/// A node of markup.
#[derive(Debug, PartialEq, Eq)]
pub enum Node<'a> {
    Text(&'a str),
    Element(Element<'a>),
    StyleElement(StyleElement<'a>),
    Slot(&'a str),
    Fragment(Fragment<'a>),
}

#[derive(Debug, PartialEq, Eq)]
pub struct Element<'a> {
    pub tag_name: &'a str,
    pub attributes: Vec<Expression<Attribute<'a>>>,
    pub children: Vec<Expression<Node<'a>>>,
}

/// An element whose body is a style sheet.
#[derive(Debug, PartialEq, Eq)]
pub struct StyleElement<'a> {
    pub attributes: Vec<Expression<Attribute<'a>>>,
    pub sheet: Sheet,
}

/// Sibling nodes at the top of a source that holds more than one.
#[derive(Debug, PartialEq, Eq)]
pub struct Fragment<'a> {
    pub children: Vec<Expression<Node<'a>>>,
}

#[derive(Debug, PartialEq, Eq)]
pub struct Attribute<'a> {
    pub name: &'a str,
    pub value: Option<Expression<AttributeValue<'a>>>,
}

#[derive(Debug, PartialEq, Eq)]
pub enum AttributeValue<'a> {
    String(Str<'a>),
}

/// The text between the quotes of a quoted value.
#[derive(Debug, PartialEq, Eq)]
pub struct Str<'a> {
    pub value: &'a str,
}

pub open spec fn attributes_wf(attrs: Seq<Expression<Attribute>>) -> bool {
    forall|i: int| 0 <= i < attrs.len() ==> (#[trigger] attrs[i]).item.name@.len() > 0
}

/// What the parser guarantees of every tree it returns: text runs, tag names and
/// attribute names are non-empty, and a fragment never wraps exactly one node.
pub open spec fn node_wf(n: Node) -> bool
    decreases n,
{
    match n {
        Node::Text(s) => s@.len() > 0,
        Node::Slot(_) => true,
        Node::Element(e) => e.tag_name@.len() > 0 && attributes_wf(e.attributes@) && children_wf(e.children@),
        Node::StyleElement(e) => attributes_wf(e.attributes@),
        Node::Fragment(f) => f.children@.len() != 1 && children_wf(f.children@),
    }
}

pub open spec fn children_wf(cs: Seq<Expression<Node>>) -> bool
    decreases cs,
{
    cs.len() > 0 ==> children_wf(cs.drop_last()) && node_wf(cs.last().item)
}

} // verus!
