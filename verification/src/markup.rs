//! The node tree that the compiler walks: elements with attributes, classes
//! and children, interleaved with text and comment nodes.
//!
//! The tree is plain data owned by the caller. The markup parser produces it
//! (see `parse`), and the compiler only reads it.

use vstd::prelude::*;

verus! {

/// One attribute of an element: a key with an optional value.
#[derive(Clone, Debug)]
pub struct Attr {
    pub key: String,
    pub value: Option<String>,
}

/// The mathematical value of an [`Attr`].
pub ghost struct AttrModel {
    pub key: Seq<char>,
    pub value: Option<Seq<char>>,
}

impl View for Attr {
    type V = AttrModel;

    open spec fn view(&self) -> AttrModel {
        AttrModel { key: self.key@, value: match self.value {
            Some(v) => Some(v@),
            None => None,
        } }
    }
}

/// The models of a sequence of attributes, in order.
pub open spec fn attrs_model(s: Seq<Attr>) -> Seq<AttrModel> {
    s.map_values(|a: Attr| a@)
}

/// The views of a sequence of strings, in order.
pub open spec fn strings_model(s: Seq<String>) -> Seq<Seq<char>> {
    s.map_values(|c: String| c@)
}

impl Attr {
    /// Copies the attribute.
    pub fn duplicate(&self) -> (r: Attr)
        ensures
            r@ == self@,
    {
        Attr {
            key: self.key.clone(),
            value: match &self.value {
                Some(v) => Some(v.clone()),
                None => None,
            },
        }
    }
}

/// Copies a vector of strings.
pub fn clone_strings(v: &Vec<String>) -> (r: Vec<String>)
    ensures
        r@ == v@,
{
    let mut out: Vec<String> = Vec::new();
    let mut i: usize = 0;
    while i < v.len()
        invariant
            i <= v.len(),
            out@ == v@.take(i as int),
        decreases v.len() - i,
    {
        out.push(v[i].clone());
        proof {
            assert(out@ =~= v@.take(i + 1 as int));
        }
        i = i + 1;
    }
    proof {
        assert(v@.take(i as int) =~= v@);
    }
    out
}

/// Copies a vector of attributes.
pub fn clone_attrs(v: &Vec<Attr>) -> (r: Vec<Attr>)
    ensures
        attrs_model(r@) == attrs_model(v@),
        r@.len() == v@.len(),
{
    let mut out: Vec<Attr> = Vec::new();
    let mut i: usize = 0;
    while i < v.len()
        invariant
            i <= v.len(),
            out@.len() == i,
            forall|k: int| 0 <= k < i ==> out@[k]@ == v@[k]@,
        decreases v.len() - i,
    {
        out.push(v[i].duplicate());
        i = i + 1;
    }
    proof {
        assert(attrs_model(out@) =~= attrs_model(v@));
    }
    out
}

/// One node of the parsed template: an element, a run of text, or a comment.
#[derive(Debug)]
pub enum MarkupNode {
    Element(MarkupElement),
    Text(String),
    Comment(String),
}

/// An element node: a tag name, attributes, class names and child nodes.
#[derive(Debug)]
pub struct MarkupElement {
    pub name: String,
    pub attributes: Vec<Attr>,
    pub classes: Vec<String>,
    pub children: Vec<MarkupNode>,
}

/// The mathematical value of a [`MarkupNode`].
pub ghost enum NodeModel {
    Element(ElementModel),
    Text(Seq<char>),
    Comment(Seq<char>),
}

/// The mathematical value of a [`MarkupElement`].
pub ghost struct ElementModel {
    pub name: Seq<char>,
    pub attributes: Seq<AttrModel>,
    pub classes: Seq<Seq<char>>,
    pub children: Seq<NodeModel>,
}

/// The model of one markup node.
pub open spec fn node_model(n: MarkupNode) -> NodeModel
    decreases n,
{
    match n {
        MarkupNode::Element(el) => NodeModel::Element(elem_model(el)),
        MarkupNode::Text(t) => NodeModel::Text(t@),
        MarkupNode::Comment(t) => NodeModel::Comment(t@),
    }
}

/// The model of one markup element.
pub open spec fn elem_model(el: MarkupElement) -> ElementModel
    decreases el,
{
    ElementModel {
        name: el.name@,
        attributes: attrs_model(el.attributes@),
        classes: strings_model(el.classes@),
        children: nodes_model(el.children@),
    }
}

/// The models of a sequence of markup nodes, in order.
pub open spec fn nodes_model(s: Seq<MarkupNode>) -> Seq<NodeModel>
    decreases s,
{
    if s.len() == 0 {
        Seq::empty()
    } else {
        seq![node_model(s[0])] + nodes_model(s.drop_first())
    }
}

/// The model sequence has one entry per node, each the node's own model.
pub proof fn lemma_nodes_model_index(s: Seq<MarkupNode>)
    ensures
        nodes_model(s).len() == s.len(),
        forall|i: int| 0 <= i < s.len() ==> nodes_model(s)[i] == node_model(s[i]),
    decreases s,
{
    if s.len() > 0 {
        lemma_nodes_model_index(s.drop_first());
    }
}

impl View for MarkupNode {
    type V = NodeModel;

    open spec fn view(&self) -> NodeModel {
        node_model(*self)
    }
}

impl View for MarkupElement {
    type V = ElementModel;

    open spec fn view(&self) -> ElementModel {
        elem_model(*self)
    }
}

} // verus!
