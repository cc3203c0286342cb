//! The plan assembler and the declaration augmenter.
//!
//! The assembler validates the template's global shape — exactly one root
//! node, which must be an element — runs the tree compiler, rejects
//! duplicate field names, and records the declared object's outward element
//! type. The augmenter extends the user's declared field list with the root
//! handle and one field per binding.

use vstd::prelude::*;
use crate::catalog::{builtin_of_tag, lookup_builtin};
use crate::compile::{bindings_model, compile_element, elem_bindings, elem_error, elem_ir};
use crate::ir::{BindingModel, CompileError, ConstructionExpr, ElementKind, ErrorModel, ExprModel, FieldBinding, KindModel};
use crate::markup::{MarkupNode, NodeModel, lemma_nodes_model_index, nodes_model};
use crate::text::{lower_seq, str_eq, to_ascii_lower};

verus! {

/// The compiled form of one template: the root construction expression, the
/// collected field bindings, and the declared object's outward element type.
#[derive(Debug)]
pub struct ConstructionPlan {
    pub expr: ConstructionExpr,
    pub bindings: Vec<FieldBinding>,
    pub root_kind: ElementKind,
    pub root_is_element: bool,
}

/// The mathematical value of a [`ConstructionPlan`].
pub ghost struct PlanModel {
    pub expr: ExprModel,
    pub bindings: Seq<BindingModel>,
    pub root_kind: KindModel,
    pub root_is_element: bool,
}

impl View for ConstructionPlan {
    type V = PlanModel;

    open spec fn view(&self) -> PlanModel {
        PlanModel {
            expr: self.expr@,
            bindings: bindings_model(self.bindings@),
            root_kind: self.root_kind@,
            root_is_element: self.root_is_element,
        }
    }
}

/// What the root tag resolves to for the declared object's outward type: a
/// catalog entry when the lowercased tag is in the catalog, otherwise a
/// reference to a user-defined component with that tag name.
pub open spec fn root_kind_of(name: Seq<char>) -> KindModel {
    match builtin_of_tag(lower_seq(name)) {
        Some(b) => KindModel::Builtin(b),
        None => KindModel::Custom(name),
    }
}

/// The names of a sequence of bindings, in order.
pub open spec fn binding_names(bs: Seq<BindingModel>) -> Seq<Seq<char>> {
    bs.map_values(|b: BindingModel| b.name)
}

/// The first binding name that repeats an earlier one, if any.
pub open spec fn first_dup(bs: Seq<BindingModel>) -> Option<Seq<char>>
    decreases bs.len(),
{
    if bs.len() == 0 {
        None
    } else {
        match first_dup(bs.drop_last()) {
            Some(n) => Some(n),
            None => if binding_names(bs.drop_last()).contains(bs.last().name) {
                Some(bs.last().name)
            } else {
                None
            },
        }
    }
}

/// Assembling a template: exactly one root node, which must be an element;
/// the tree must compile; field names must be distinct. The outward type is
/// the catalog entry of the root tag, or the referenced component.
pub open spec fn assemble_spec(nodes: Seq<NodeModel>) -> Result<PlanModel, ErrorModel> {
    if nodes.len() != 1 {
        Err(ErrorModel::RootCardinality)
    } else {
        match nodes[0] {
            NodeModel::Element(el) => match elem_error(el) {
                Some(e) => Err(e),
                None => match first_dup(elem_bindings(el)) {
                    Some(n) => Err(ErrorModel::DuplicateField(n)),
                    None => Ok(
                        PlanModel {
                            expr: elem_ir(el),
                            bindings: elem_bindings(el),
                            root_kind: root_kind_of(el.name),
                            root_is_element: builtin_of_tag(lower_seq(el.name)) is Some,
                        },
                    ),
                },
            },
            _ => Err(ErrorModel::RootNotElement),
        }
    }
}

/// Checks a binding list for a repeated name.
fn find_dup(bindings: &Vec<FieldBinding>) -> (r: Option<String>)
    ensures
        match r {
            Some(n) => first_dup(bindings_model(bindings@)) == Some(n@),
            None => first_dup(bindings_model(bindings@)) is None,
        },
{
    let ghost models = bindings_model(bindings@);
    let mut i: usize = 0;
    while i < bindings.len()
        invariant
            i <= bindings.len(),
            models == bindings_model(bindings@),
            first_dup(models.take(i as int)) is None,
        decreases bindings.len() - i,
    {
        let mut j: usize = 0;
        while j < i
            invariant
                j <= i,
                i < bindings.len(),
                models == bindings_model(bindings@),
                first_dup(models.take(i as int)) is None,
                forall|t: int| 0 <= t < j ==> models[t].name != models[i as int].name,
            decreases i - j,
        {
            if str_eq(bindings[j].name.as_str(), bindings[i].name.as_str()) {
                proof {
                    assert(models.take(i + 1 as int).drop_last() =~= models.take(i as int));
                    assert(models.take(i + 1 as int).last() == models[i as int]);
                    assert(binding_names(models.take(i as int))[j as int] == models[
                        j as int
                    ].name);
                    assert(binding_names(models.take(i as int)).contains(models[i as int].name));
                    assert(first_dup(models.take(i + 1 as int)) == Some(models[i as int].name));
                    lemma_first_dup_extends(models, i + 1);
                }
                return Some(bindings[i].name.clone());
            }
            j = j + 1;
        }
        proof {
            assert(models.take(i + 1 as int).drop_last() =~= models.take(i as int));
            assert(models.take(i + 1 as int).last() == models[i as int]);
            if binding_names(models.take(i as int)).contains(models[i as int].name) {
                let w = choose|t: int|
                    0 <= t < i && binding_names(models.take(i as int))[t] == models[i as int].name;
                assert(binding_names(models.take(i as int))[w] == models.take(i as int)[w].name);
                assert(models[w].name == models[i as int].name);
            }
        }
        i = i + 1;
    }
    proof {
        assert(models.take(i as int) =~= models);
    }
    None
}

/// Once a prefix shows a duplicate, the whole list reports one.
proof fn lemma_first_dup_extends(bs: Seq<BindingModel>, i: int)
    requires
        0 <= i <= bs.len(),
        first_dup(bs.take(i)) is Some,
    ensures
        first_dup(bs) == first_dup(bs.take(i)),
    decreases bs.len() - i,
{
    if i < bs.len() {
        assert(bs.take(i + 1).drop_last() =~= bs.take(i));
        lemma_first_dup_extends(bs, i + 1);
    } else {
        assert(bs.take(i) =~= bs);
    }
}

/// Assembles a template's construction plan from its top-level nodes.
///
/// The template must have exactly one top-level node, and that node must be
/// an element; the whole tree must compile and the collected field names
/// must be distinct. The plan records whether the root is a builtin element
/// (`root_is_element`) and the declared object's outward element type.
pub fn assemble(nodes: &Vec<MarkupNode>) -> (r: Result<ConstructionPlan, CompileError>)
    ensures
        match r {
            Ok(plan) => assemble_spec(nodes_model(nodes@)) == Ok::<PlanModel, ErrorModel>(plan@),
            Err(e) => assemble_spec(nodes_model(nodes@)) == Err::<PlanModel, ErrorModel>(e@),
        },
{
    let ghost models = nodes_model(nodes@);
    proof {
        lemma_nodes_model_index(nodes@);
    }
    if nodes.len() != 1 {
        return Err(CompileError::RootCardinality);
    }
    match &nodes[0] {
        MarkupNode::Element(el) => {
            let (expr, bindings) = match compile_element(el) {
                Ok(p) => p,
                Err(e) => {
                    return Err(e);
                },
            };
            match find_dup(&bindings) {
                Some(n) => {
                    return Err(CompileError::DuplicateField(n));
                },
                None => {},
            }
            let lowered = to_ascii_lower(el.name.as_str());
            let (root_kind, root_is_element) = match lookup_builtin(lowered.as_str()) {
                Some(b) => (ElementKind::Builtin(b), true),
                None => (ElementKind::Custom(el.name.clone()), false),
            };
            Ok(ConstructionPlan { expr, bindings, root_kind, root_is_element })
        },
        _ => Err(CompileError::RootNotElement),
    }
}

/// One field the user declared on the object shape, with its type as
/// written.
#[derive(Clone, Debug)]
pub struct FieldDecl {
    pub name: String,
    pub ty: String,
}

/// The mathematical value of a [`FieldDecl`].
pub ghost struct DeclModel {
    pub name: Seq<char>,
    pub ty: Seq<char>,
}

impl View for FieldDecl {
    type V = DeclModel;

    open spec fn view(&self) -> DeclModel {
        DeclModel { name: self.name@, ty: self.ty@ }
    }
}

/// The models of a sequence of declared fields, in order.
pub open spec fn decls_model(s: Seq<FieldDecl>) -> Seq<DeclModel> {
    s.map_values(|d: FieldDecl| d@)
}

/// Where one field of the augmented object shape comes from.
#[derive(Debug)]
pub enum FieldSource {
    /// Declared by the user, with its type as written; initialized to its
    /// default when the object is built.
    Declared(String),
    /// The root handle, typed by the plan's outward element type.
    RootSlot,
    /// A captured binding: the bound element kind, and whether the field
    /// holds an ordered list of instances rather than a single node.
    Binding(ElementKind, bool),
}

/// One field of the augmented object shape.
#[derive(Debug)]
pub struct AugmentedField {
    pub name: String,
    pub source: FieldSource,
}

/// The mathematical value of a [`FieldSource`].
pub ghost enum SourceModel {
    Declared(Seq<char>),
    RootSlot,
    Binding(KindModel, bool),
}

/// The mathematical value of an [`AugmentedField`].
pub ghost struct AugFieldModel {
    pub name: Seq<char>,
    pub source: SourceModel,
}

impl View for AugmentedField {
    type V = AugFieldModel;

    open spec fn view(&self) -> AugFieldModel {
        AugFieldModel {
            name: self.name@,
            source: match &self.source {
                FieldSource::Declared(t) => SourceModel::Declared(t@),
                FieldSource::RootSlot => SourceModel::RootSlot,
                FieldSource::Binding(k, rep) => SourceModel::Binding(k@, *rep),
            },
        }
    }
}

/// The models of a sequence of augmented fields, in order.
pub open spec fn aug_fields_model(s: Seq<AugmentedField>) -> Seq<AugFieldModel> {
    s.map_values(|f: AugmentedField| f@)
}

/// The augmented field a user declaration becomes.
pub open spec fn decl_field(d: DeclModel) -> AugFieldModel {
    AugFieldModel { name: d.name, source: SourceModel::Declared(d.ty) }
}

/// The augmented field a binding becomes.
pub open spec fn binding_field(b: BindingModel) -> AugFieldModel {
    AugFieldModel { name: b.name, source: SourceModel::Binding(b.kind, b.repeated) }
}

/// The augmented fields of a sequence of user declarations.
pub open spec fn decl_fields(s: Seq<DeclModel>) -> Seq<AugFieldModel> {
    s.map_values(|d: DeclModel| decl_field(d))
}

/// The augmented fields of a sequence of bindings.
pub open spec fn binding_fields(s: Seq<BindingModel>) -> Seq<AugFieldModel> {
    s.map_values(|b: BindingModel| binding_field(b))
}

/// The augmented object shape: every user-declared field, then the root
/// handle, then one field per binding.
pub open spec fn augment_spec(declared: Seq<DeclModel>, plan: PlanModel) -> Seq<AugFieldModel> {
    decl_fields(declared) + seq![AugFieldModel { name: "root"@, source: SourceModel::RootSlot }]
        + binding_fields(plan.bindings)
}

/// Augments the user's declared field list with the synthesized fields: the
/// root handle and one field per collected binding, in binding order.
pub fn augment(declared: &Vec<FieldDecl>, plan: &ConstructionPlan) -> (r: Vec<AugmentedField>)
    ensures
        aug_fields_model(r@) == augment_spec(decls_model(declared@), plan@),
{
    let nd = declared.len();
    let mut out: Vec<AugmentedField> = Vec::new();
    let mut i: usize = 0;
    while i < nd
        invariant
            i <= nd,
            nd == declared.len(),
            out@.len() == i,
            forall|k: int| 0 <= k < i ==> out@[k]@ == decl_field(declared@[k]@),
        decreases nd - i,
    {
        let d = &declared[i];
        out.push(
            AugmentedField { name: d.name.clone(), source: FieldSource::Declared(d.ty.clone()) },
        );
        i = i + 1;
    }
    out.push(AugmentedField { name: "root".to_owned(), source: FieldSource::RootSlot });
    let nb = plan.bindings.len();
    let mut j: usize = 0;
    while j < nb
        invariant
            j <= nb,
            nb == plan.bindings.len(),
            nd == declared.len(),
            out@.len() == nd + 1 + j,
            forall|k: int| 0 <= k < nd ==> out@[k]@ == decl_field(declared@[k]@),
            out@[nd as int]@ == (AugFieldModel { name: "root"@, source: SourceModel::RootSlot }),
            forall|t: int|
                0 <= t < j ==> out@[nd + 1 + t]@ == binding_field(plan.bindings@[t]@),
        decreases nb - j,
    {
        let b = &plan.bindings[j];
        out.push(
            AugmentedField {
                name: b.name.clone(),
                source: FieldSource::Binding(b.kind.duplicate(), b.repeated),
            },
        );
        j = j + 1;
    }
    proof {
        assert(aug_fields_model(out@) =~= augment_spec(decls_model(declared@), plan@));
    }
    out
}

/// Compiles a template from its source tokens: reconstructs the text,
/// parses it with the markup parser, and assembles the construction plan.
///
/// The parser's output is outside this crate; what is guaranteed is that a
/// returned plan is the assembled form of some node tree, and that a
/// failure is either the parser's own diagnostic or the assembler's.
pub fn compile_template(tokens: &Vec<crate::tokens::SourceToken>) -> (r: Result<
    ConstructionPlan,
    CompileError,
>)
    requires
        crate::tokens::wf_token_seq(crate::tokens::tokens_model(tokens@)),
    ensures
        match r {
            Ok(plan) => exists|nodes: Seq<NodeModel>|
                #[trigger] assemble_spec(nodes) == Ok::<PlanModel, ErrorModel>(plan@),
            Err(e) => e@ is Parse || exists|nodes: Seq<NodeModel>|
                #[trigger] assemble_spec(nodes) == Err::<PlanModel, ErrorModel>(e@),
        },
{
    let text = crate::tokens::reconstruct(tokens);
    let nodes = match crate::parse::parse_markup(text.as_str()) {
        Ok(nodes) => nodes,
        Err(e) => {
            return Err(e);
        },
    };
    match assemble(&nodes) {
        Ok(plan) => {
            proof {
                assert(assemble_spec(nodes_model(nodes@)) == Ok::<PlanModel, ErrorModel>(plan@));
            }
            Ok(plan)
        },
        Err(e) => {
            proof {
                assert(assemble_spec(nodes_model(nodes@)) == Err::<PlanModel, ErrorModel>(e@));
            }
            Err(e)
        },
    }
}

} // verus!
