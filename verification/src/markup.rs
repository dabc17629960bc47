//! Parsing markup into the tree that the arena is built from.

use crate::tree::{Attribute, ParsedNode, Payload, TreeView};
use html5ever::tendril::TendrilSink;
use markup5ever_rcdom::{Node, NodeData, RcDom};
use vstd::prelude::*;

verus! {

/// `markup5ever_rcdom::Node`, opaque to the verifier.
#[verifier::external_type_specification]
#[verifier::external_body]
pub struct ExNode(Node);

/// `std::io::Error`, opaque to the verifier.
#[verifier::external_type_specification]
#[verifier::external_body]
pub struct ExIoError(std::io::Error);

/// The document tree that the HTML parser builds from a text, or none where
/// the text could not be read to its end.
pub uninterp spec fn parsed_markup(html: Seq<char>) -> Option<TreeView>;

/// Why no document could be built.
#[derive(Debug, Clone, Copy, PartialEq, Eq)]
pub enum ParseError {
    /// The markup could not be read to its end.
    Unreadable,
}

/// Calls `html5ever::parse_document` with an `RcDom` sink and the default
/// options, feeds it the bytes of `html` through `TendrilSink::read_from` and
/// copies the tree it built, which nothing else holds yet, into plain values.
/// The parser is a function of the text alone; `read_from` fails only where
/// reading the bytes fails.
#[verifier::external_body]
fn parse_document(html: &str) -> (outcome: Result<ParsedNode, std::io::Error>)
    ensures
        outcome matches Ok(tree) ==> parsed_markup(html@) == Some(tree@),
        outcome is Err ==> parsed_markup(html@) is None,
{
    let dom = html5ever::parse_document(RcDom::default(), Default::default())
        .from_utf8()
        .read_from(&mut html.as_bytes())?;
    Ok(plain_tree(&dom.document))
}

/// Copies a node of the parser's freshly built tree and, child by child in
/// document order, the nodes under it. It serves `parse_document` alone and
/// nothing is claimed of it.
#[verifier::external_body]
fn plain_tree(node: &Node) -> ParsedNode {
    ParsedNode {
        data: plain_payload(node),
        children: node.children.borrow().iter().map(|child| plain_tree(child)).collect(),
    }
}

/// Converts the `data` field of a `markup5ever_rcdom::Node`, variant by
/// variant: an element keeps its local name, its namespace and its
/// attributes' local names and values, a text keeps its contents. It serves
/// `plain_tree` alone and nothing is claimed of it.
#[verifier::external_body]
fn plain_payload(node: &Node) -> Payload {
    match &node.data {
        NodeData::Document => Payload::Document,
        NodeData::Doctype { .. } => Payload::Doctype,
        NodeData::Text { contents } => Payload::Text { contents: contents.borrow().to_string() },
        NodeData::Comment { .. } => Payload::Comment,
        NodeData::ProcessingInstruction { .. } => Payload::ProcessingInstruction,
        NodeData::Element { name, attrs, .. } => Payload::Element {
            local: name.local.to_string(),
            ns: name.ns.to_string(),
            attrs: attrs.borrow().iter().map(|a| Attribute {
                local: a.name.local.to_string(),
                value: a.value.to_string(),
            }).collect(),
        },
    }
}

/// Parses `html` into a tree of plain values.
pub fn parse(html: &str) -> (outcome: Result<ParsedNode, ParseError>)
    ensures
        parsed_markup(html@) matches Some(tree) ==> outcome is Ok && outcome->Ok_0@ == tree,
        parsed_markup(html@) is None ==> outcome == Err::<ParsedNode, ParseError>(
            ParseError::Unreadable,
        ),
{
    match parse_document(html) {
        Ok(tree) => Ok(tree),
        Err(_) => Err(ParseError::Unreadable),
    }
}

} // verus!
