//! The compiler's output language: construction expressions, field bindings,
//! and the diagnostics the compiler can stop with.
//!
//! A construction expression says, for one element: build it, build and
//! append the children, apply the classes and attributes, set the inline
//! text, and optionally capture the node (or, for a repeated element, the
//! whole list of instances) into a named slot.

use vstd::prelude::*;
use vstd::string::StringExecFns;
use crate::catalog::BuiltinKind;
use crate::markup::{attrs_model, strings_model, Attr, AttrModel};

verus! {

/// What an element resolves to: a catalog entry, or a user-defined component
/// referenced by its tag name.
#[derive(Debug)]
pub enum ElementKind {
    Builtin(BuiltinKind),
    Custom(String),
}

/// The mathematical value of an [`ElementKind`].
pub ghost enum KindModel {
    Builtin(BuiltinKind),
    Custom(Seq<char>),
}

impl View for ElementKind {
    type V = KindModel;

    open spec fn view(&self) -> KindModel {
        match self {
            ElementKind::Builtin(k) => KindModel::Builtin(*k),
            ElementKind::Custom(name) => KindModel::Custom(name@),
        }
    }
}

/// A request to expose one constructed node (or list of nodes) as a named
/// field on the output object.
#[derive(Debug)]
pub struct FieldBinding {
    pub name: String,
    pub kind: ElementKind,
    pub repeated: bool,
}

/// The mathematical value of a [`FieldBinding`].
pub ghost struct BindingModel {
    pub name: Seq<char>,
    pub kind: KindModel,
    pub repeated: bool,
}

impl View for FieldBinding {
    type V = BindingModel;

    open spec fn view(&self) -> BindingModel {
        BindingModel { name: self.name@, kind: self.kind@, repeated: self.repeated }
    }
}

/// The construction expression for one element of the template.
///
/// `repeat` is the repeat count when the element carries a repeat directive;
/// such an element builds a list of instances rather than a single node.
#[derive(Debug)]
pub struct ConstructionExpr {
    pub kind: ElementKind,
    pub children: Vec<ConstructionExpr>,
    pub classes: Vec<String>,
    pub attributes: Vec<Attr>,
    pub text: Option<String>,
    pub capture: Option<String>,
    pub repeat: Option<usize>,
}

/// The mathematical value of a [`ConstructionExpr`].
pub ghost struct ExprModel {
    pub kind: KindModel,
    pub children: Seq<ExprModel>,
    pub classes: Seq<Seq<char>>,
    pub attributes: Seq<AttrModel>,
    pub text: Option<Seq<char>>,
    pub capture: Option<Seq<char>>,
    pub repeat: Option<int>,
}

/// The model of one construction expression.
pub open spec fn expr_model(e: ConstructionExpr) -> ExprModel
    decreases e,
{
    ExprModel {
        kind: e.kind@,
        children: exprs_model(e.children@),
        classes: strings_model(e.classes@),
        attributes: attrs_model(e.attributes@),
        text: match e.text {
            Some(t) => Some(t@),
            None => None,
        },
        capture: match e.capture {
            Some(c) => Some(c@),
            None => None,
        },
        repeat: match e.repeat {
            Some(n) => Some(n as int),
            None => None,
        },
    }
}

/// The models of a sequence of construction expressions, in order.
pub open spec fn exprs_model(s: Seq<ConstructionExpr>) -> Seq<ExprModel>
    decreases s,
{
    if s.len() == 0 {
        Seq::empty()
    } else {
        seq![expr_model(s[0])] + exprs_model(s.drop_first())
    }
}

/// The model sequence has one entry per expression, each its own model.
pub proof fn lemma_exprs_model_index(s: Seq<ConstructionExpr>)
    ensures
        exprs_model(s).len() == s.len(),
        forall|i: int| 0 <= i < s.len() ==> exprs_model(s)[i] == expr_model(s[i]),
    decreases s,
{
    if s.len() > 0 {
        lemma_exprs_model_index(s.drop_first());
    }
}

/// Appending one expression appends its model.
pub proof fn lemma_exprs_model_snoc(s: Seq<ConstructionExpr>, e: ConstructionExpr)
    ensures
        exprs_model(s.push(e)) == exprs_model(s).push(expr_model(e)),
{
    lemma_exprs_model_index(s.push(e));
    lemma_exprs_model_index(s);
    assert(exprs_model(s.push(e)) =~= exprs_model(s).push(expr_model(e)));
}

impl ElementKind {
    /// Copies the element kind.
    pub fn duplicate(&self) -> (r: ElementKind)
        ensures
            r@ == self@,
    {
        match self {
            ElementKind::Builtin(k) => ElementKind::Builtin(*k),
            ElementKind::Custom(name) => ElementKind::Custom(name.clone()),
        }
    }
}

impl View for ConstructionExpr {
    type V = ExprModel;

    open spec fn view(&self) -> ExprModel {
        expr_model(*self)
    }
}

/// A diagnostic that aborts compilation of the whole template.
#[derive(Debug)]
pub enum CompileError {
    /// The reconstructed text is not valid markup; carries the parser's
    /// message.
    Parse(String),
    /// The template has zero or several top-level nodes.
    RootCardinality,
    /// The template has exactly one top-level node, but it is not an element.
    RootNotElement,
    /// An element's tag is not in the catalog and the element carries no
    /// opaque-component directive; carries the lowercased tag name.
    UnknownElement(String),
    /// An element carries the opaque-component directive and has children.
    OpaqueWithChildren,
    /// A repeat directive without a value.
    RepeatNeedsValue,
    /// A repeat directive whose value is not a positive integer.
    RepeatNotPositive,
    /// Two field bindings use the same name; carries that name.
    DuplicateField(String),
}

/// The mathematical value of a [`CompileError`].
pub ghost enum ErrorModel {
    Parse(Seq<char>),
    RootCardinality,
    RootNotElement,
    UnknownElement(Seq<char>),
    OpaqueWithChildren,
    RepeatNeedsValue,
    RepeatNotPositive,
    DuplicateField(Seq<char>),
}

impl View for CompileError {
    type V = ErrorModel;

    open spec fn view(&self) -> ErrorModel {
        match self {
            CompileError::Parse(m) => ErrorModel::Parse(m@),
            CompileError::RootCardinality => ErrorModel::RootCardinality,
            CompileError::RootNotElement => ErrorModel::RootNotElement,
            CompileError::UnknownElement(t) => ErrorModel::UnknownElement(t@),
            CompileError::OpaqueWithChildren => ErrorModel::OpaqueWithChildren,
            CompileError::RepeatNeedsValue => ErrorModel::RepeatNeedsValue,
            CompileError::RepeatNotPositive => ErrorModel::RepeatNotPositive,
            CompileError::DuplicateField(n) => ErrorModel::DuplicateField(n@),
        }
    }
}

/// The diagnostic text of an error.
pub open spec fn message_of(e: ErrorModel) -> Seq<char> {
    match e {
        ErrorModel::Parse(m) => m,
        ErrorModel::RootCardinality => "template must have exactly one root"@,
        ErrorModel::RootNotElement => "no root found"@,
        ErrorModel::UnknownElement(t) => "element `"@ + t + "` not implemented"@,
        ErrorModel::OpaqueWithChildren => "`we_element` element cannot have any children"@,
        ErrorModel::RepeatNeedsValue => "`we_repeat` needs a value"@,
        ErrorModel::RepeatNotPositive => "`we_repeat` must have a positive integer value"@,
        ErrorModel::DuplicateField(n) => "duplicate field `"@ + n + "`"@,
    }
}

impl CompileError {
    /// Renders the diagnostic text of this error.
    pub fn message(&self) -> (r: String)
        ensures
            r@ == message_of(self@),
    {
        match self {
            CompileError::Parse(m) => m.clone(),
            CompileError::RootCardinality => "template must have exactly one root".to_owned(),
            CompileError::RootNotElement => "no root found".to_owned(),
            CompileError::UnknownElement(t) => "element `".to_owned().concat(t.as_str()).concat(
                "` not implemented",
            ),
            CompileError::OpaqueWithChildren => "`we_element` element cannot have any children"
                .to_owned(),
            CompileError::RepeatNeedsValue => "`we_repeat` needs a value".to_owned(),
            CompileError::RepeatNotPositive => "`we_repeat` must have a positive integer value"
                .to_owned(),
            CompileError::DuplicateField(n) => "duplicate field `".to_owned().concat(
                n.as_str(),
            ).concat("`"),
        }
    }
}

impl ErrorModel {
    /// Whether the diagnostic is a structural error: a violation of the
    /// template's shape rather than of one directive's value.
    pub open spec fn is_structural(self) -> bool {
        match self {
            ErrorModel::RootCardinality => true,
            ErrorModel::RootNotElement => true,
            ErrorModel::UnknownElement(_) => true,
            ErrorModel::OpaqueWithChildren => true,
            ErrorModel::DuplicateField(_) => true,
            _ => false,
        }
    }

    /// Whether the diagnostic is a directive error: a reserved attribute with
    /// a missing or malformed value.
    pub open spec fn is_directive(self) -> bool {
        self is RepeatNeedsValue || self is RepeatNotPositive
    }
}

} // verus!
