//! The markup parser boundary.
//!
//! Parsing is done by the `html_parser` crate; the compiler trusts it only
//! to produce some node tree, and every later stage is verified for every
//! tree. This module declares the parser's types, wraps the calls the
//! pipeline makes, and converts the parser's tree into the compiler's own
//! [`MarkupNode`] tree.

use vstd::prelude::*;
use vstd::string::StringExecFns;
use crate::ir::CompileError;
use crate::markup::{Attr, MarkupElement, MarkupNode};

verus! {

#[verifier::external_type_specification]
#[verifier::external_body]
pub struct ExDom(html_parser::Dom);

#[verifier::external_type_specification]
#[verifier::external_body]
pub struct ExNode(html_parser::Node);

#[verifier::external_type_specification]
#[verifier::external_body]
pub struct ExElement(html_parser::Element);

/// Relies on `html_parser::Dom::parse`: parses markup text into a document
/// tree, or fails with an error whose message describes the parse failure.
#[verifier::external_body]
fn dom_parse(text: &str) -> (r: Result<html_parser::Dom, String>) {
    match html_parser::Dom::parse(text) {
        Ok(dom) => Ok(dom),
        Err(e) => Err(e.to_string()),
    }
}

/// Relies on the public `children` field of `html_parser::Dom`: the
/// document's top-level nodes, in source order.
#[verifier::external_body]
fn dom_children(dom: html_parser::Dom) -> (r: Vec<html_parser::Node>) {
    dom.children
}

/// One parsed node, decomposed variant by variant.
enum RawNode {
    Element(html_parser::Element),
    Text(String),
    Comment(String),
}

/// Relies on the variants of `html_parser::Node`: a node is an element, a
/// text run, or a comment.
#[verifier::external_body]
fn node_parts(n: html_parser::Node) -> (r: RawNode) {
    match n {
        html_parser::Node::Element(e) => RawNode::Element(e),
        html_parser::Node::Text(t) => RawNode::Text(t),
        html_parser::Node::Comment(t) => RawNode::Comment(t),
    }
}

/// Relies on the public fields of `html_parser::Element`: its tag name, its
/// attributes (a map whose pairs come out in no fixed order), its class
/// names, and its child nodes.
#[verifier::external_body]
fn element_parts(e: html_parser::Element) -> (r: (
    String,
    Vec<(String, Option<String>)>,
    Vec<String>,
    Vec<html_parser::Node>,
)) {
    let attrs: Vec<(String, Option<String>)> = e.attributes.into_iter().collect();
    (e.name, attrs, e.classes, e.children)
}

/// Converts the parser's tree into the compiler's own node tree. The depth
/// budget bounds the recursion; a tree deeper than the budget is rejected.
fn convert_nodes(nodes: Vec<html_parser::Node>, depth: usize) -> (r: Option<Vec<MarkupNode>>)
    decreases depth,
{
    if depth == 0 {
        return None;
    }
    let mut rest = nodes;
    let mut out: Vec<MarkupNode> = Vec::new();
    while rest.len() > 0
        invariant
            depth >= 1,
        decreases rest.len(),
    {
        let n = rest.remove(0);
        match node_parts(n) {
            RawNode::Element(e) => {
                let (name, raw_attrs, classes, children) = element_parts(e);
                let kids = match convert_nodes(children, depth - 1) {
                    Some(k) => k,
                    None => {
                        return None;
                    },
                };
                let mut attrs: Vec<Attr> = Vec::new();
                let mut raw_rest = raw_attrs;
                while raw_rest.len() > 0
                    decreases raw_rest.len(),
                {
                    let (key, value) = raw_rest.remove(0);
                    attrs.push(Attr { key, value });
                }
                out.push(
                    MarkupNode::Element(
                        MarkupElement { name, attributes: attrs, classes, children: kids },
                    ),
                );
            },
            RawNode::Text(t) => {
                out.push(MarkupNode::Text(t));
            },
            RawNode::Comment(t) => {
                out.push(MarkupNode::Comment(t));
            },
        }
    }
    Some(out)
}

/// Parses markup text into the compiler's node tree. A failure of the
/// underlying parser surfaces as a parse diagnostic carrying its message.
pub fn parse_markup(text: &str) -> (r: Result<Vec<MarkupNode>, CompileError>)
    ensures
        r matches Err(e) ==> e@ is Parse,
{
    match dom_parse(text) {
        Ok(dom) => {
            let raw = dom_children(dom);
            match convert_nodes(raw, usize::MAX) {
                Some(nodes) => Ok(nodes),
                None => Err(CompileError::Parse("markup tree too deep".to_owned())),
            }
        },
        Err(m) => Err(CompileError::Parse(m)),
    }
}

} // verus!
