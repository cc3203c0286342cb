//! The directive resolver and the recursive tree compiler.
//!
//! For each element the resolver partitions the attribute list into the
//! three reserved directives (`we_field`, `we_repeat`, `we_element`) and the
//! ordinary pass-through attributes, and enforces each directive's legality.
//! The compiler then walks the node tree, resolves every element to a
//! builtin or custom kind, and emits one construction expression per
//! element while collecting the field bindings.
//!
//! Any violation aborts compilation of the whole template with exactly one
//! diagnostic; there is no partial output.

use vstd::prelude::*;
use crate::catalog::{builtin_of_tag, lookup_builtin};
use crate::ir::{BindingModel, CompileError, ConstructionExpr, ElementKind, ErrorModel, ExprModel, FieldBinding, KindModel, expr_model, exprs_model, lemma_exprs_model_snoc};
use crate::markup::{Attr, AttrModel, ElementModel, MarkupElement, MarkupNode, NodeModel, attrs_model, clone_strings, lemma_nodes_model_index, nodes_model};
use crate::text::{lower_seq, parse_dec, parse_dec_spec, str_eq, to_ascii_lower};

verus! {

/// Whether an attribute key is the field-binding directive.
pub open spec fn is_we_field(k: Seq<char>) -> bool {
    k == "we_field"@
}

/// Whether an attribute key is the repeat-count directive.
pub open spec fn is_we_repeat(k: Seq<char>) -> bool {
    k == "we_repeat"@
}

/// Whether an attribute key is the opaque-component directive.
pub open spec fn is_we_element(k: Seq<char>) -> bool {
    k == "we_element"@
}

/// Whether an attribute key is one of the three reserved directives.
pub open spec fn is_directive_key(k: Seq<char>) -> bool {
    is_we_field(k) || is_we_repeat(k) || is_we_element(k)
}

/// The field-binding name an attribute list requests: the value of the last
/// `we_field` occurrence, if any.
pub open spec fn field_directive(attrs: Seq<AttrModel>) -> Option<Seq<char>>
    decreases attrs.len(),
{
    if attrs.len() == 0 {
        None
    } else if is_we_field(attrs.last().key) {
        attrs.last().value
    } else {
        field_directive(attrs.drop_last())
    }
}

/// Whether the attribute list carries the opaque-component directive.
pub open spec fn has_we_element(attrs: Seq<AttrModel>) -> bool {
    exists|i: int| 0 <= i < attrs.len() && is_we_element(attrs[i].key)
}

/// The ordinary attributes: everything that is not a directive, in order.
pub open spec fn passthrough_of(attrs: Seq<AttrModel>) -> Seq<AttrModel>
    decreases attrs.len(),
{
    if attrs.len() == 0 {
        Seq::empty()
    } else if is_directive_key(attrs.last().key) {
        passthrough_of(attrs.drop_last())
    } else {
        passthrough_of(attrs.drop_last()).push(attrs.last())
    }
}

/// Scans the attribute list left to right for repeat directives. Each
/// occurrence must carry a value that is a positive integer no larger than
/// the machine word; the last valid occurrence wins.
pub open spec fn repeat_scan(attrs: Seq<AttrModel>, acc: Option<int>) -> Result<
    Option<int>,
    ErrorModel,
>
    decreases attrs.len(),
{
    if attrs.len() == 0 {
        Ok(acc)
    } else if is_we_repeat(attrs[0].key) {
        match attrs[0].value {
            None => Err(ErrorModel::RepeatNeedsValue),
            Some(v) => match parse_dec_spec(v) {
                None => Err(ErrorModel::RepeatNotPositive),
                Some(n) => if n >= 1 {
                    repeat_scan(attrs.drop_first(), Some(n))
                } else {
                    Err(ErrorModel::RepeatNotPositive)
                },
            },
        }
    } else {
        repeat_scan(attrs.drop_first(), acc)
    }
}

/// The outcome of resolving one element's attribute list.
pub ghost struct ResolvedModel {
    /// The requested field-binding name, if any.
    pub field: Option<Seq<char>>,
    /// Whether the element is an opaque component.
    pub custom: bool,
    /// The repeat count, if the element is repeated.
    pub repeat: Option<int>,
    /// The ordinary attributes, passed through to the built element.
    pub passthrough: Seq<AttrModel>,
}

/// Resolving an element's attributes: an opaque component must have no
/// children, every repeat directive must carry a positive integer, and the
/// remaining attributes pass through.
pub open spec fn resolve_spec(attrs: Seq<AttrModel>, has_children: bool) -> Result<
    ResolvedModel,
    ErrorModel,
> {
    if has_we_element(attrs) && has_children {
        Err(ErrorModel::OpaqueWithChildren)
    } else {
        match repeat_scan(attrs, None) {
            Err(e) => Err(e),
            Ok(rep) => Ok(
                ResolvedModel {
                    field: field_directive(attrs),
                    custom: has_we_element(attrs),
                    repeat: rep,
                    passthrough: passthrough_of(attrs),
                },
            ),
        }
    }
}

/// The outcome of resolving one element's attribute list.
#[derive(Debug)]
pub struct Resolved {
    pub field: Option<String>,
    pub custom: bool,
    pub repeat: Option<usize>,
    pub passthrough: Vec<Attr>,
}

impl View for Resolved {
    type V = ResolvedModel;

    open spec fn view(&self) -> ResolvedModel {
        ResolvedModel {
            field: match self.field {
                Some(ref f) => Some(f@),
                None => None,
            },
            custom: self.custom,
            repeat: match self.repeat {
                Some(n) => Some(n as int),
                None => None,
            },
            passthrough: attrs_model(self.passthrough@),
        }
    }
}

/// Partitions an element's attributes into directives and pass-through
/// attributes, enforcing each directive's legality.
pub fn resolve_directives(attrs: &Vec<Attr>, has_children: bool) -> (r: Result<
    Resolved,
    CompileError,
>)
    ensures
        match r {
            Ok(res) => resolve_spec(attrs_model(attrs@), has_children) == Ok::<
                ResolvedModel,
                ErrorModel,
            >(res@),
            Err(e) => resolve_spec(attrs_model(attrs@), has_children) == Err::<
                ResolvedModel,
                ErrorModel,
            >(e@),
        },
{
    let ghost models = attrs_model(attrs@);
    let n = attrs.len();
    // First pass: the opaque-component directive, which forbids children.
    let mut custom = false;
    let mut i: usize = 0;
    while i < n
        invariant
            i <= n,
            n == attrs.len(),
            models == attrs_model(attrs@),
            custom == has_we_element(models.take(i as int)),
        decreases n - i,
    {
        if str_eq(attrs[i].key.as_str(), "we_element") {
            custom = true;
        }
        proof {
            assert(models.take(i + 1 as int).drop_last() =~= models.take(i as int));
            assert(models.take(i + 1 as int).last() == models[i as int]);
            if custom {
                if is_we_element(models[i as int].key) {
                    assert(has_we_element(models.take(i + 1 as int)));
                } else {
                    let w = choose|j: int|
                        0 <= j < i && is_we_element(#[trigger] models.take(i as int)[j].key);
                    assert(is_we_element(models.take(i + 1 as int)[w].key));
                }
            } else {
                assert(forall|j: int|
                    0 <= j < i + 1 ==> !is_we_element(
                        #[trigger] models.take(i + 1 as int)[j].key,
                    )) by {
                    assert(forall|j: int|
                        0 <= j < i ==> models.take(i + 1 as int)[j] == models.take(i as int)[j]);
                };
            }
        }
        i = i + 1;
    }
    proof {
        assert(models.take(n as int) =~= models);
    }
    if custom && has_children {
        return Err(CompileError::OpaqueWithChildren);
    }
    // Second pass: the field and repeat directives, and the pass-through
    // attributes.
    let mut field: Option<String> = None;
    let mut repeat: Option<usize> = None;
    let mut pass: Vec<Attr> = Vec::new();
    let mut k: usize = 0;
    while k < n
        invariant
            k <= n,
            n == attrs.len(),
            models == attrs_model(attrs@),
            !(has_we_element(models) && has_children),
            match field {
                Some(ref f) => field_directive(models.take(k as int)) == Some(f@),
                None => field_directive(models.take(k as int)) is None,
            },
            repeat_scan(models, None) == repeat_scan(
                models.skip(k as int),
                match repeat {
                    Some(n) => Some(n as int),
                    None => None,
                },
            ),
            attrs_model(pass@) == passthrough_of(models.take(k as int)),
        decreases n - k,
    {
        let a = &attrs[k];
        proof {
            reveal_strlit("we_field");
            reveal_strlit("we_repeat");
            reveal_strlit("we_element");
            assert("we_field"@.len() == 8 && "we_repeat"@.len() == 9 && "we_element"@.len() == 10);
            assert("we_field"@ != "we_repeat"@ && "we_field"@ != "we_element"@ && "we_repeat"@
                != "we_element"@);
            assert(models.take(k + 1 as int).drop_last() =~= models.take(k as int));
            assert(models.take(k + 1 as int).last() == models[k as int]);
            assert(models.skip(k as int)[0] == models[k as int]);
            assert(models.skip(k as int).drop_first() =~= models.skip(k + 1 as int));
        }
        if str_eq(a.key.as_str(), "we_field") {
            field = match &a.value {
                Some(v) => Some(v.clone()),
                None => None,
            };
        } else if str_eq(a.key.as_str(), "we_element") {
            // Already handled in the first pass; not passed through.
        } else if str_eq(a.key.as_str(), "we_repeat") {
            match &a.value {
                None => {
                    return Err(CompileError::RepeatNeedsValue);
                },
                Some(v) => {
                    match parse_dec(v.as_str()) {
                        None => {
                            return Err(CompileError::RepeatNotPositive);
                        },
                        Some(count) => {
                            if count == 0 {
                                return Err(CompileError::RepeatNotPositive);
                            }
                            repeat = Some(count);
                        },
                    }
                },
            }
        } else {
            pass.push(a.duplicate());
            proof {
                assert(attrs_model(pass@) =~= passthrough_of(models.take(k + 1 as int)));
            }
        }
        k = k + 1;
    }
    proof {
        assert(models.take(n as int) =~= models);
        assert(models.skip(n as int) =~= Seq::empty());
    }
    Ok(Resolved { field, custom, repeat, passthrough: pass })
}

/// What an element's tag resolves to: an opaque component is referenced by
/// its tag name as written; otherwise the lowercased tag must be in the
/// builtin catalog.
pub open spec fn kind_of(name: Seq<char>, custom: bool) -> Option<KindModel> {
    if custom {
        Some(KindModel::Custom(name))
    } else {
        match builtin_of_tag(lower_seq(name)) {
            Some(b) => Some(KindModel::Builtin(b)),
            None => None,
        }
    }
}

/// The first text child of an element, if any; later text siblings are
/// ignored.
pub open spec fn first_text(children: Seq<NodeModel>) -> Option<Seq<char>>
    decreases children.len(),
{
    if children.len() == 0 {
        None
    } else {
        match children[0] {
            NodeModel::Text(t) => Some(t),
            _ => first_text(children.drop_first()),
        }
    }
}

/// The first diagnostic an element produces, if any: directive violations
/// first, then an unknown tag, then the children's diagnostics in order.
pub open spec fn elem_error(el: ElementModel) -> Option<ErrorModel>
    decreases el,
{
    match resolve_spec(el.attributes, el.children.len() > 0) {
        Err(e) => Some(e),
        Ok(r) => if kind_of(el.name, r.custom) is None {
            Some(ErrorModel::UnknownElement(lower_seq(el.name)))
        } else {
            nodes_error(el.children)
        },
    }
}

/// The first diagnostic a sequence of sibling nodes produces, if any.
pub open spec fn nodes_error(nodes: Seq<NodeModel>) -> Option<ErrorModel>
    decreases nodes,
{
    if nodes.len() == 0 {
        None
    } else {
        let first = match nodes[0] {
            NodeModel::Element(el) => elem_error(el),
            _ => None,
        };
        if first is Some {
            first
        } else {
            nodes_error(nodes.drop_first())
        }
    }
}

/// The construction expression of one element, defined when the element
/// produces no diagnostic.
pub open spec fn elem_ir(el: ElementModel) -> ExprModel
    decreases el,
{
    let r = resolve_spec(el.attributes, el.children.len() > 0)->Ok_0;
    ExprModel {
        kind: kind_of(el.name, r.custom)->Some_0,
        children: children_irs(el.children),
        classes: el.classes,
        attributes: r.passthrough,
        text: first_text(el.children),
        capture: r.field,
        repeat: r.repeat,
    }
}

/// The construction expressions of a sequence of sibling nodes: one per
/// element node, in order; text and comment nodes contribute none.
pub open spec fn children_irs(nodes: Seq<NodeModel>) -> Seq<ExprModel>
    decreases nodes,
{
    if nodes.len() == 0 {
        Seq::empty()
    } else {
        match nodes[0] {
            NodeModel::Element(el) => seq![elem_ir(el)] + children_irs(nodes.drop_first()),
            _ => children_irs(nodes.drop_first()),
        }
    }
}

/// The field bindings one element contributes: its own binding, if
/// field-bound, followed by its children's bindings.
pub open spec fn elem_bindings(el: ElementModel) -> Seq<BindingModel>
    decreases el,
{
    let r = resolve_spec(el.attributes, el.children.len() > 0)->Ok_0;
    let own: Seq<BindingModel> = match r.field {
        Some(f) => seq![
            BindingModel {
                name: f,
                kind: kind_of(el.name, r.custom)->Some_0,
                repeated: r.repeat is Some,
            },
        ],
        None => Seq::empty(),
    };
    own + nodes_bindings(el.children)
}

/// The field bindings a sequence of sibling nodes contributes, in order.
pub open spec fn nodes_bindings(nodes: Seq<NodeModel>) -> Seq<BindingModel>
    decreases nodes,
{
    if nodes.len() == 0 {
        Seq::empty()
    } else {
        match nodes[0] {
            NodeModel::Element(el) => elem_bindings(el) + nodes_bindings(nodes.drop_first()),
            _ => nodes_bindings(nodes.drop_first()),
        }
    }
}

/// The views of a sequence of field bindings, in order.
pub open spec fn bindings_model(s: Seq<FieldBinding>) -> Seq<BindingModel> {
    s.map_values(|b: FieldBinding| b@)
}

/// Finds an element's inline text: its first text child, if any.
pub fn first_text_of(children: &Vec<MarkupNode>) -> (r: Option<String>)
    ensures
        match r {
            Some(t) => first_text(nodes_model(children@)) == Some(t@),
            None => first_text(nodes_model(children@)) is None,
        },
{
    let ghost models = nodes_model(children@);
    proof {
        assert(models.skip(0) =~= models);
    }
    let mut i: usize = 0;
    while i < children.len()
        invariant
            i <= children.len(),
            models == nodes_model(children@),
            first_text(models) == first_text(models.skip(i as int)),
        decreases children.len() - i,
    {
        proof {
            lemma_nodes_model_index(children@);
            assert(models.skip(i as int)[0] == models[i as int]);
            assert(models.skip(i as int).drop_first() =~= models.skip(i + 1 as int));
        }
        match &children[i] {
            MarkupNode::Text(t) => {
                return Some(t.clone());
            },
            _ => {},
        }
        i = i + 1;
    }
    proof {
        lemma_nodes_model_index(children@);
        assert(models.skip(i as int) =~= Seq::empty());
    }
    None
}

/// Compiles one element: resolves its directives and kind, compiles its
/// children, and emits its construction expression and field bindings.
pub fn compile_element(el: &MarkupElement) -> (r: Result<
    (ConstructionExpr, Vec<FieldBinding>),
    CompileError,
>)
    ensures
        match r {
            Ok(p) => elem_error(el@) is None && expr_model(p.0) == elem_ir(el@)
                && bindings_model(p.1@) == elem_bindings(el@),
            Err(e) => elem_error(el@) == Some(e@),
        },
    decreases el,
{
    let has_children = el.children.len() > 0;
    proof {
        lemma_nodes_model_index(el.children@);
    }
    let resolved = match resolve_directives(&el.attributes, has_children) {
        Ok(res) => res,
        Err(e) => {
            return Err(e);
        },
    };
    let lowered = to_ascii_lower(el.name.as_str());
    let kind: ElementKind;
    if resolved.custom {
        kind = ElementKind::Custom(el.name.clone());
    } else {
        match lookup_builtin(lowered.as_str()) {
            Some(b) => {
                kind = ElementKind::Builtin(b);
            },
            None => {
                return Err(CompileError::UnknownElement(lowered));
            },
        }
    }
    proof {
        assert(decreases_to!(el => el.children));
        assert(decreases_to!(el.children => el.children@));
    }
    let (child_exprs, mut child_binds) = match compile_nodes(&el.children) {
        Ok(p) => p,
        Err(e) => {
            return Err(e);
        },
    };
    let ghost child_bind_models = bindings_model(child_binds@);
    let text = first_text_of(&el.children);
    let mut binds: Vec<FieldBinding> = Vec::new();
    let capture: Option<String>;
    match &resolved.field {
        Some(f) => {
            binds.push(
                FieldBinding {
                    name: f.clone(),
                    kind: kind.duplicate(),
                    repeated: resolved.repeat.is_some(),
                },
            );
            capture = Some(f.clone());
        },
        None => {
            capture = None;
        },
    }
    let ghost own_binds = binds@;
    binds.append(&mut child_binds);
    let expr = ConstructionExpr {
        kind,
        children: child_exprs,
        classes: clone_strings(&el.classes),
        attributes: resolved.passthrough,
        text,
        capture,
        repeat: resolved.repeat,
    };
    proof {
        let ghost r_spec = resolve_spec(el@.attributes, el@.children.len() > 0)->Ok_0;
        assert(expr_model(expr) == elem_ir(el@));
        assert(bindings_model(binds@) =~= bindings_model(own_binds) + child_bind_models);
        assert(bindings_model(binds@) == elem_bindings(el@));
    }
    Ok((expr, binds))
}

/// Compiles a sequence of sibling nodes: one construction expression per
/// element, and the field bindings of the whole subtree in order. The first
/// diagnostic of any node aborts the walk.
pub fn compile_nodes(nodes: &Vec<MarkupNode>) -> (r: Result<
    (Vec<ConstructionExpr>, Vec<FieldBinding>),
    CompileError,
>)
    ensures
        match r {
            Ok(p) => nodes_error(nodes_model(nodes@)) is None && exprs_model(p.0@) == children_irs(
                nodes_model(nodes@),
            ) && bindings_model(p.1@) == nodes_bindings(nodes_model(nodes@)),
            Err(e) => nodes_error(nodes_model(nodes@)) == Some(e@),
        },
    decreases nodes@,
{
    let ghost models = nodes_model(nodes@);
    proof {
        assert(models.skip(0) =~= models);
        assert(exprs_model(Seq::<ConstructionExpr>::empty()) + children_irs(models) =~= children_irs(models));
        assert(bindings_model(Seq::<FieldBinding>::empty()) + nodes_bindings(models) =~= nodes_bindings(models));
    }
    let mut exprs: Vec<ConstructionExpr> = Vec::new();
    let mut binds: Vec<FieldBinding> = Vec::new();
    let mut i: usize = 0;
    while i < nodes.len()
        invariant
            i <= nodes.len(),
            models == nodes_model(nodes@),
            nodes_error(models) == nodes_error(models.skip(i as int)),
            exprs_model(exprs@) + children_irs(models.skip(i as int)) == children_irs(models),
            bindings_model(binds@) + nodes_bindings(models.skip(i as int)) == nodes_bindings(
                models,
            ),
        decreases nodes.len() - i,
    {
        proof {
            lemma_nodes_model_index(nodes@);
            assert(models.skip(i as int)[0] == models[i as int]);
            assert(models.skip(i as int).drop_first() =~= models.skip(i + 1 as int));
        }
        match &nodes[i] {
            MarkupNode::Element(elsub) => {
                proof {
                    assert(decreases_to!(nodes@ => nodes@[i as int]));
                    assert(nodes@[i as int] == MarkupNode::Element(*elsub));
                    assert(decreases_to!(nodes@[i as int] => *elsub));
                }
                match compile_element(elsub) {
                    Ok(p) => {
                        let (expr, mut ebinds) = p;
                        proof {
                            lemma_exprs_model_snoc(exprs@, expr);
                            assert((exprs_model(exprs@).push(expr_model(expr))) + children_irs(
                                models.skip(i + 1 as int),
                            ) =~= exprs_model(exprs@) + (seq![expr_model(expr)] + children_irs(
                                models.skip(i + 1 as int),
                            )));
                            assert(bindings_model(binds@) + (bindings_model(ebinds@)
                                + nodes_bindings(models.skip(i + 1 as int))) =~= (bindings_model(
                                binds@,
                            ) + bindings_model(ebinds@)) + nodes_bindings(
                                models.skip(i + 1 as int),
                            ));
                            assert(bindings_model(binds@ + ebinds@) =~= bindings_model(binds@)
                                + bindings_model(ebinds@));
                        }
                        exprs.push(expr);
                        binds.append(&mut ebinds);
                    },
                    Err(e) => {
                        return Err(e);
                    },
                }
            },
            _ => {},
        }
        i = i + 1;
    }
    proof {
        lemma_nodes_model_index(nodes@);
        assert(models.skip(i as int) =~= Seq::empty());
        assert(exprs_model(exprs@) + children_irs(models.skip(i as int)) =~= exprs_model(exprs@));
        assert(bindings_model(binds@) + nodes_bindings(models.skip(i as int)) =~= bindings_model(
            binds@,
        ));
    }
    Ok((exprs, binds))
}


} // verus!
