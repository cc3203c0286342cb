//! A reference evaluator for construction plans.
//!
//! The generated construction routine runs against the host at run time;
//! this module gives the same plan a pure meaning: evaluating an expression
//! yields the tree of built nodes — single children appended first, then the
//! items of every repeated child — and the sequence of slot captures the
//! routine performs, in execution order. A repeated element yields one
//! instance per iteration, each carrying its zero-based index string.

use vstd::prelude::*;
use crate::ir::{ConstructionExpr, ElementKind, ExprModel, KindModel, expr_model, exprs_model, lemma_exprs_model_index};
use crate::markup::{Attr, AttrModel, attrs_model, clone_attrs, clone_strings, strings_model};
use crate::text::{dec_digits, render_dec};

verus! {

/// One node of the built element tree.
#[derive(Debug)]
pub struct BuiltNode {
    pub kind: ElementKind,
    pub classes: Vec<String>,
    pub attributes: Vec<Attr>,
    pub text: Option<String>,
    pub children: Vec<BuiltNode>,
    /// The zero-based index string of this instance, when it was built by a
    /// repeat iteration.
    pub index: Option<String>,
}

/// The mathematical value of a [`BuiltNode`].
pub ghost struct BuiltModel {
    pub kind: KindModel,
    pub classes: Seq<Seq<char>>,
    pub attributes: Seq<AttrModel>,
    pub text: Option<Seq<char>>,
    pub children: Seq<BuiltModel>,
    pub index: Option<Seq<char>>,
}

/// The model of one built node.
pub open spec fn built_model(n: BuiltNode) -> BuiltModel
    decreases n,
{
    BuiltModel {
        kind: n.kind@,
        classes: strings_model(n.classes@),
        attributes: attrs_model(n.attributes@),
        text: match n.text {
            Some(t) => Some(t@),
            None => None,
        },
        children: builts_model(n.children@),
        index: match n.index {
            Some(s) => Some(s@),
            None => None,
        },
    }
}

/// The models of a sequence of built nodes, in order.
pub open spec fn builts_model(s: Seq<BuiltNode>) -> Seq<BuiltModel>
    decreases s,
{
    if s.len() == 0 {
        Seq::empty()
    } else {
        seq![built_model(s[0])] + builts_model(s.drop_first())
    }
}

/// The model sequence has one entry per node, each the node's own model.
pub proof fn lemma_builts_model_index(s: Seq<BuiltNode>)
    ensures
        builts_model(s).len() == s.len(),
        forall|i: int| 0 <= i < s.len() ==> builts_model(s)[i] == built_model(s[i]),
    decreases s,
{
    if s.len() > 0 {
        lemma_builts_model_index(s.drop_first());
    }
}

impl View for BuiltNode {
    type V = BuiltModel;

    open spec fn view(&self) -> BuiltModel {
        built_model(*self)
    }
}

/// What a capture stores in a named slot: one node, or the whole list of a
/// repeated element's instances.
#[derive(Debug)]
pub enum CaptureValue {
    Single(BuiltNode),
    List(Vec<BuiltNode>),
}

/// One slot assignment the construction routine performs.
#[derive(Debug)]
pub struct Capture {
    pub name: String,
    pub value: CaptureValue,
}

/// The mathematical value of a [`CaptureValue`].
pub ghost enum CapValModel {
    Single(BuiltModel),
    List(Seq<BuiltModel>),
}

/// The mathematical value of a [`Capture`].
pub ghost struct CaptureModel {
    pub name: Seq<char>,
    pub value: CapValModel,
}

impl View for Capture {
    type V = CaptureModel;

    open spec fn view(&self) -> CaptureModel {
        CaptureModel {
            name: self.name@,
            value: match &self.value {
                CaptureValue::Single(n) => CapValModel::Single(built_model(*n)),
                CaptureValue::List(l) => CapValModel::List(builts_model(l@)),
            },
        }
    }
}

/// The models of a sequence of captures, in order.
pub open spec fn captures_model(s: Seq<Capture>) -> Seq<CaptureModel> {
    s.map_values(|c: Capture| c@)
}

/// The number of instances a repeated expression builds.
pub open spec fn rep_count(e: ExprModel) -> nat {
    match e.repeat {
        Some(n) => if n >= 0 {
            n as nat
        } else {
            0
        },
        None => 0,
    }
}

/// One built instance of an expression: the element with its classes,
/// attributes and text, its single children in order followed by the items
/// of its repeated children, and the given index string.
pub open spec fn eval_expr(e: ExprModel, idx: Option<Seq<char>>) -> BuiltModel
    decreases e, 0int, 0int,
{
    BuiltModel {
        kind: e.kind,
        classes: e.classes,
        attributes: e.attributes,
        text: e.text,
        children: eval_singles(e.children) + eval_lists(e.children),
        index: idx,
    }
}

/// The instances of a repeated expression: one per iteration, indexed by
/// its zero-based decimal string.
pub open spec fn eval_list(e: ExprModel) -> Seq<BuiltModel>
    decreases e, 1int, 0int,
{
    Seq::new(rep_count(e), |j: int| eval_expr(e, Some(dec_digits(j as nat))))
}

/// The built nodes of the non-repeated children, in order.
pub open spec fn eval_singles(children: Seq<ExprModel>) -> Seq<BuiltModel>
    decreases children, 2int, 0int,
{
    if children.len() == 0 {
        Seq::empty()
    } else if children[0].repeat is None {
        seq![eval_expr(children[0], None)] + eval_singles(children.drop_first())
    } else {
        eval_singles(children.drop_first())
    }
}

/// The built nodes of the repeated children, flattened in order.
pub open spec fn eval_lists(children: Seq<ExprModel>) -> Seq<BuiltModel>
    decreases children, 2int, 0int,
{
    if children.len() == 0 {
        Seq::empty()
    } else if children[0].repeat is Some {
        eval_list(children[0]) + eval_lists(children.drop_first())
    } else {
        eval_lists(children.drop_first())
    }
}

/// The captures one instance of an expression performs, in execution order:
/// those of its single children, those of its repeated children, and — for
/// a non-repeated, field-bound element — its own single capture.
pub open spec fn captures_expr(e: ExprModel, idx: Option<Seq<char>>) -> Seq<CaptureModel>
    decreases e, 5int, 0int,
{
    captures_singles(e.children) + captures_lists(e.children) + (match e.capture {
        Some(f) => if e.repeat is None {
            seq![CaptureModel { name: f, value: CapValModel::Single(eval_expr(e, idx)) }]
        } else {
            Seq::empty()
        },
        None => Seq::empty(),
    })
}

/// The captures of the non-repeated children, in order.
pub open spec fn captures_singles(children: Seq<ExprModel>) -> Seq<CaptureModel>
    decreases children, 6int, 0int,
{
    if children.len() == 0 {
        Seq::empty()
    } else if children[0].repeat is None {
        captures_expr(children[0], None) + captures_singles(children.drop_first())
    } else {
        captures_singles(children.drop_first())
    }
}

/// The captures of the repeated children, in order.
pub open spec fn captures_lists(children: Seq<ExprModel>) -> Seq<CaptureModel>
    decreases children, 6int, 0int,
{
    if children.len() == 0 {
        Seq::empty()
    } else if children[0].repeat is Some {
        captures_list(children[0]) + captures_lists(children.drop_first())
    } else {
        captures_lists(children.drop_first())
    }
}

/// The captures a repeated element performs: the inner captures of every
/// iteration, then — if field-bound — one capture of the whole list.
pub open spec fn captures_list(e: ExprModel) -> Seq<CaptureModel>
    decreases e, 4int, 0int,
{
    iter_captures(e, rep_count(e)) + (match e.capture {
        Some(f) => seq![CaptureModel { name: f, value: CapValModel::List(eval_list(e)) }],
        None => Seq::empty(),
    })
}

/// The inner captures of the first `n` iterations of a repeated element.
/// The element's own per-instance capture is suppressed inside a repeat;
/// each iteration contributes its children's captures.
pub open spec fn iter_captures(e: ExprModel, n: nat) -> Seq<CaptureModel>
    decreases e, 3int, n,
{
    if n == 0 {
        Seq::empty()
    } else {
        iter_captures(e, (n - 1) as nat) + captures_singles(e.children) + captures_lists(
            e.children,
        )
    }
}

/// Copies a built node.
pub fn duplicate_node(n: &BuiltNode) -> (r: BuiltNode)
    ensures
        built_model(r) == built_model(*n),
    decreases n,
{
    proof {
        assert(decreases_to!(n => n.children));
        assert(decreases_to!(n.children => n.children@));
    }
    BuiltNode {
        kind: n.kind.duplicate(),
        classes: clone_strings(&n.classes),
        attributes: clone_attrs(&n.attributes),
        text: match &n.text {
            Some(t) => Some(t.clone()),
            None => None,
        },
        children: duplicate_nodes(&n.children),
        index: match &n.index {
            Some(s) => Some(s.clone()),
            None => None,
        },
    }
}

/// Copies a list of built nodes.
pub fn duplicate_nodes(ns: &Vec<BuiltNode>) -> (r: Vec<BuiltNode>)
    ensures
        builts_model(r@) == builts_model(ns@),
        r@.len() == ns@.len(),
    decreases ns@,
{
    let ghost models = builts_model(ns@);
    let mut out: Vec<BuiltNode> = Vec::new();
    let mut i: usize = 0;
    while i < ns.len()
        invariant
            i <= ns.len(),
            models == builts_model(ns@),
            out@.len() == i,
            forall|k: int| 0 <= k < i ==> built_model(out@[k]) == built_model(ns@[k]),
        decreases ns.len() - i,
    {
        proof {
            assert(decreases_to!(ns@ => ns@[i as int]));
        }
        let copy = duplicate_node(&ns[i]);
        out.push(copy);
        i = i + 1;
    }
    proof {
        lemma_builts_model_index(out@);
        lemma_builts_model_index(ns@);
        assert(builts_model(out@) =~= builts_model(ns@));
    }
    out
}

/// Builds one instance of an expression, returning the built node and the
/// slot captures performed, in execution order.
pub fn eval_single(e: &ConstructionExpr, idx: Option<String>) -> (r: (BuiltNode, Vec<Capture>))
    ensures
        built_model(r.0) == eval_expr(
            expr_model(*e),
            match idx {
                Some(s) => Some(s@),
                None => None,
            },
        ),
        captures_model(r.1@) == captures_expr(
            expr_model(*e),
            match idx {
                Some(s) => Some(s@),
                None => None,
            },
        ),
    decreases e, 0int,
{
    let ghost em = expr_model(*e);
    let ghost models = exprs_model(e.children@);
    let mut kids: Vec<BuiltNode> = Vec::new();
    let mut caps: Vec<Capture> = Vec::new();
    proof {
        assert(models.skip(0) =~= models);
        assert(builts_model(kids@) + eval_singles(models) =~= eval_singles(models));
        assert(captures_model(caps@) + captures_singles(models) =~= captures_singles(models));
    }
    let mut i: usize = 0;
    while i < e.children.len()
        invariant
            i <= e.children.len(),
            models == exprs_model(e.children@),
            builts_model(kids@) + eval_singles(models.skip(i as int)) == eval_singles(models),
            captures_model(caps@) + captures_singles(models.skip(i as int)) == captures_singles(
                models,
            ),
        decreases e.children.len() - i,
    {
        proof {
            lemma_exprs_model_index(e.children@);
            assert(models.skip(i as int)[0] == models[i as int]);
            assert(models.skip(i as int).drop_first() =~= models.skip(i + 1 as int));
        }
        let c = &e.children[i];
        if c.repeat.is_none() {
            proof {
                assert(decreases_to!(e => e.children));
                assert(decreases_to!(e.children => e.children@));
                assert(decreases_to!(e.children@ => e.children@[i as int]));
            }
            let (node, mut ccaps) = eval_single(c, None);
            let ghost ccap_models = captures_model(ccaps@);
            proof {
                lemma_builts_model_snoc(kids@, node);
                assert((builts_model(kids@).push(built_model(node))) + eval_singles(
                    models.skip(i + 1 as int),
                ) =~= builts_model(kids@) + (seq![built_model(node)] + eval_singles(
                    models.skip(i + 1 as int),
                )));
                assert(captures_model(caps@ + ccaps@) =~= captures_model(caps@) + ccap_models);
                assert((captures_model(caps@) + ccap_models) + captures_singles(
                    models.skip(i + 1 as int),
                ) =~= captures_model(caps@) + (ccap_models + captures_singles(
                    models.skip(i + 1 as int),
                )));
            }
            kids.push(node);
            caps.append(&mut ccaps);
        }
        i = i + 1;
    }
    proof {
        lemma_exprs_model_index(e.children@);
        assert(models.skip(i as int) =~= Seq::<ExprModel>::empty());
        assert(builts_model(kids@) + eval_singles(models.skip(i as int)) =~= builts_model(kids@));
        assert(captures_model(caps@) + captures_singles(models.skip(i as int)) =~= captures_model(
            caps@,
        ));
        assert(models.skip(0) =~= models);
    }
    let ghost singles_built = builts_model(kids@);
    let ghost singles_caps = captures_model(caps@);
    let mut j: usize = 0;
    while j < e.children.len()
        invariant
            j <= e.children.len(),
            models == exprs_model(e.children@),
            singles_built == eval_singles(models),
            singles_caps == captures_singles(models),
            builts_model(kids@) + eval_lists(models.skip(j as int)) == eval_singles(models)
                + eval_lists(models),
            captures_model(caps@) + captures_lists(models.skip(j as int)) == captures_singles(
                models,
            ) + captures_lists(models),
        decreases e.children.len() - j,
    {
        proof {
            lemma_exprs_model_index(e.children@);
            assert(models.skip(j as int)[0] == models[j as int]);
            assert(models.skip(j as int).drop_first() =~= models.skip(j + 1 as int));
        }
        let c = &e.children[j];
        if c.repeat.is_some() {
            proof {
                assert(decreases_to!(e => e.children));
                assert(decreases_to!(e.children => e.children@));
                assert(decreases_to!(e.children@ => e.children@[j as int]));
            }
            let (mut items, mut ccaps) = eval_repeated(c);
            let ghost item_models = builts_model(items@);
            let ghost ccap_models = captures_model(ccaps@);
            proof {
                lemma_builts_model_index(kids@);
                lemma_builts_model_index(items@);
                lemma_builts_model_index(kids@ + items@);
                assert(builts_model(kids@ + items@) =~= builts_model(kids@) + item_models);
                assert((builts_model(kids@) + item_models) + eval_lists(models.skip(j + 1 as int))
                    =~= builts_model(kids@) + (item_models + eval_lists(models.skip(j + 1 as int))));
                assert(captures_model(caps@ + ccaps@) =~= captures_model(caps@) + ccap_models);
                assert((captures_model(caps@) + ccap_models) + captures_lists(
                    models.skip(j + 1 as int),
                ) =~= captures_model(caps@) + (ccap_models + captures_lists(
                    models.skip(j + 1 as int),
                )));
            }
            kids.append(&mut items);
            caps.append(&mut ccaps);
        }
        j = j + 1;
    }
    proof {
        lemma_exprs_model_index(e.children@);
        assert(models.skip(j as int) =~= Seq::<ExprModel>::empty());
        assert(builts_model(kids@) + eval_lists(models.skip(j as int)) =~= builts_model(kids@));
        assert(captures_model(caps@) + captures_lists(models.skip(j as int)) =~= captures_model(
            caps@,
        ));
    }
    let node = BuiltNode {
        kind: e.kind.duplicate(),
        classes: clone_strings(&e.classes),
        attributes: clone_attrs(&e.attributes),
        text: match &e.text {
            Some(t) => Some(t.clone()),
            None => None,
        },
        children: kids,
        index: idx,
    };
    match &e.capture {
        Some(f) => {
            if e.repeat.is_none() {
                let copy = duplicate_node(&node);
                caps.push(Capture { name: f.clone(), value: CaptureValue::Single(copy) });
            }
        },
        None => {},
    }
    proof {
        assert(captures_model(caps@) =~= captures_expr(em, match idx {
            Some(ref s) => Some(s@),
            None => None,
        }));
    }
    (node, caps)
}

/// Builds every instance of a repeated expression, returning the instances
/// in iteration order and the captures performed: each iteration's inner
/// captures, then — if field-bound — one capture of the whole list.
pub fn eval_repeated(e: &ConstructionExpr) -> (r: (Vec<BuiltNode>, Vec<Capture>))
    requires
        expr_model(*e).repeat is Some,
    ensures
        builts_model(r.0@) == eval_list(expr_model(*e)),
        captures_model(r.1@) == captures_list(expr_model(*e)),
    decreases e, 1int,
{
    let ghost em = expr_model(*e);
    let n = match e.repeat {
        Some(n) => n,
        None => {
            // excluded by the precondition
            proof {
                assert(false);
            }
            0
        },
    };
    let mut items: Vec<BuiltNode> = Vec::new();
    let mut caps: Vec<Capture> = Vec::new();
    let mut j: usize = 0;
    while j < n
        invariant
            j <= n,
            em == expr_model(*e),
            em.repeat == Some(n as int),
            items@.len() == j,
            forall|t: int|
                0 <= t < j ==> built_model(items@[t]) == eval_expr(em, Some(dec_digits(t as nat))),
            captures_model(caps@) == iter_captures(em, j as nat),
        decreases n - j,
    {
        let idx_str = render_dec(j);
        let (node, mut ccaps) = eval_single(e, Some(idx_str));
        let ghost ccap_models = captures_model(ccaps@);
        proof {
            assert(captures_expr(em, Some(dec_digits(j as nat))) =~= captures_singles(em.children)
                + captures_lists(em.children));
            assert(captures_model(caps@ + ccaps@) =~= captures_model(caps@) + ccap_models);
            assert(captures_model(caps@) + ccap_models =~= iter_captures(em, (j + 1) as nat));
        }
        items.push(node);
        caps.append(&mut ccaps);
        j = j + 1;
    }
    match &e.capture {
        Some(f) => {
            let copy = duplicate_nodes(&items);
            proof {
                lemma_builts_model_index(items@);
                assert(builts_model(items@) =~= eval_list(em));
            }
            caps.push(Capture { name: f.clone(), value: CaptureValue::List(copy) });
        },
        None => {},
    }
    proof {
        lemma_builts_model_index(items@);
        assert(builts_model(items@) =~= eval_list(em));
        assert(captures_model(caps@) =~= captures_list(em));
    }
    (items, caps)
}

/// Appending one built node appends its model.
pub proof fn lemma_builts_model_snoc(s: Seq<BuiltNode>, n: BuiltNode)
    ensures
        builts_model(s.push(n)) == builts_model(s).push(built_model(n)),
{
    lemma_builts_model_index(s.push(n));
    lemma_builts_model_index(s);
    assert(builts_model(s.push(n)) =~= builts_model(s).push(built_model(n)));
}

} // verus!
