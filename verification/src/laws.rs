//! Properties of the compiler, stated and proved over the specification
//! functions that the public contracts use.

use vstd::prelude::*;
use crate::catalog::{builtin_of_tag, BuiltinKind};
use crate::compile::{elem_bindings, elem_error, elem_ir, field_directive, has_we_element, nodes_bindings, nodes_error, repeat_scan, resolve_spec};
use crate::eval::{eval_list, eval_expr, iter_captures, rep_count, CaptureModel};
use crate::ir::{BindingModel, ErrorModel, ExprModel, KindModel};
use crate::markup::{AttrModel, ElementModel, NodeModel};
use crate::plan::{assemble_spec, PlanModel};
use crate::text::{dec_digits, lemma_dec_digits_injective, lower_seq};

verus! {

/// How many of the top-level nodes are elements.
pub open spec fn element_count(nodes: Seq<NodeModel>) -> int
    decreases nodes.len(),
{
    if nodes.len() == 0 {
        0
    } else {
        (if nodes[0] is Element {
            1int
        } else {
            0int
        }) + element_count(nodes.drop_first())
    }
}

/// There are never more elements than nodes.
proof fn lemma_element_count_le(nodes: Seq<NodeModel>)
    ensures
        0 <= element_count(nodes) <= nodes.len(),
    decreases nodes.len(),
{
    if nodes.len() > 0 {
        lemma_element_count_le(nodes.drop_first());
    }
}

/// A template with exactly one top-level element whose lowercased tag is in
/// the builtin catalog compiles — when it compiles at all — to a plan whose
/// root is that builtin element: `root_is_element` holds and the outward
/// type is the catalog entry.
pub proof fn lemma_builtin_root_type(nodes: Seq<NodeModel>, b: BuiltinKind)
    requires
        nodes.len() == 1,
        nodes[0] is Element,
        builtin_of_tag(lower_seq(nodes[0]->Element_0.name)) == Some(b),
        assemble_spec(nodes) is Ok,
    ensures
        assemble_spec(nodes)->Ok_0.root_is_element,
        assemble_spec(nodes)->Ok_0.root_kind == KindModel::Builtin(b),
{
}

/// A template with zero or at least two top-level elements never compiles:
/// assembling it fails with a structural diagnostic.
pub proof fn lemma_root_cardinality(nodes: Seq<NodeModel>)
    requires
        element_count(nodes) == 0 || element_count(nodes) >= 2,
    ensures
        assemble_spec(nodes) is Err,
        assemble_spec(nodes)->Err_0.is_structural(),
{
    lemma_element_count_le(nodes);
    if nodes.len() == 1 {
        assert(element_count(nodes.drop_first()) == 0) by {
            lemma_element_count_le(nodes.drop_first());
        };
        assert(!(nodes[0] is Element));
    }
}

/// A valid repeat scan yields a positive count: zero and negative values
/// are rejected while scanning.
proof fn lemma_repeat_scan_positive(attrs: Seq<AttrModel>, acc: Option<int>)
    requires
        match acc {
            Some(m) => m >= 1,
            None => true,
        },
        repeat_scan(attrs, acc) matches Ok(rep) && rep is Some,
    ensures
        repeat_scan(attrs, acc)->Ok_0->Some_0 >= 1,
    decreases attrs.len(),
{
    if attrs.len() > 0 {
        if is_we_repeat_key(attrs) {
            lemma_repeat_scan_positive(attrs.drop_first(), Some(repeat_value_here(attrs)));
        } else {
            lemma_repeat_scan_positive(attrs.drop_first(), acc);
        }
    }
}

/// Whether the first attribute is a valid repeat directive occurrence.
spec fn is_we_repeat_key(attrs: Seq<AttrModel>) -> bool {
    attrs.len() > 0 && crate::compile::is_we_repeat(attrs[0].key)
}

/// The value the first attribute contributes when it is a valid repeat
/// occurrence.
spec fn repeat_value_here(attrs: Seq<AttrModel>) -> int {
    crate::text::parse_dec_spec(attrs[0].value->Some_0)->Some_0
}

/// An element that compiles with a repeat directive repeats a positive
/// number of times.
pub proof fn lemma_compiled_repeat_positive(el: ElementModel)
    requires
        elem_error(el) is None,
        elem_ir(el).repeat is Some,
    ensures
        elem_ir(el).repeat->Some_0 >= 1,
{
    let r = resolve_spec(el.attributes, el.children.len() > 0);
    assert(r is Ok);
    lemma_repeat_scan_positive(el.attributes, None);
}

/// An element carrying both a repeat directive and a field binding
/// contributes, first, a binding under that field name whose container is a
/// list; and its construction expression carries the repeat count.
pub proof fn lemma_repeat_field_binding(el: ElementModel)
    requires
        elem_error(el) is None,
        field_directive(el.attributes) is Some,
        repeat_scan(el.attributes, None) matches Ok(rep) && rep is Some,
    ensures
        elem_bindings(el).len() >= 1,
        elem_bindings(el)[0].name == field_directive(el.attributes)->Some_0,
        elem_bindings(el)[0].repeated,
        elem_ir(el).capture == field_directive(el.attributes),
        elem_ir(el).repeat == repeat_scan(el.attributes, None)->Ok_0,
{
}

/// Evaluating a repeated element with count `n` yields exactly `n`
/// instances; instance `j` carries the zero-based index string of `j`, and
/// no two instances carry the same index string.
pub proof fn lemma_repeat_instances(e: ExprModel)
    requires
        e.repeat is Some,
        e.repeat->Some_0 >= 0,
    ensures
        eval_list(e).len() == e.repeat->Some_0,
        forall|j: int|
            0 <= j < eval_list(e).len() ==> (#[trigger] eval_list(e)[j]).index == Some(
                dec_digits(j as nat),
            ),
        forall|i: int, j: int|
            0 <= i < j < eval_list(e).len() ==> (#[trigger] eval_list(e)[i]).index != (
            #[trigger] eval_list(e)[j]).index,
{
    assert(rep_count(e) == e.repeat->Some_0);
    assert forall|j: int| 0 <= j < eval_list(e).len() implies (#[trigger] eval_list(e)[j]).index
        == Some(dec_digits(j as nat)) by {
        assert(eval_list(e)[j] == eval_expr(e, Some(dec_digits(j as nat))));
    }
    assert forall|i: int, j: int| 0 <= i < j < eval_list(e).len() implies (
    #[trigger] eval_list(e)[i]).index != (#[trigger] eval_list(e)[j]).index by {
        if dec_digits(i as nat) == dec_digits(j as nat) {
            lemma_dec_digits_injective(i as nat, j as nat);
        }
    }
}

/// Whether some element of the tree carries the opaque-component directive
/// together with children.
pub open spec fn tree_has_opaque_violation(nodes: Seq<NodeModel>) -> bool
    decreases nodes, 1int,
{
    exists|i: int|
        0 <= i < nodes.len() && (#[trigger] nodes[i]) is Element && elem_has_opaque_violation(
            nodes[i]->Element_0,
        )
}

/// Whether this element, or one below it, carries the opaque-component
/// directive together with children.
pub open spec fn elem_has_opaque_violation(el: ElementModel) -> bool
    decreases el, 2int,
{
    (has_we_element(el.attributes) && el.children.len() > 0) || tree_has_opaque_violation(
        el.children,
    )
}

/// An element carrying the opaque-component directive and a non-empty
/// children set fails to resolve with exactly the structural diagnostic for
/// it, regardless of its other attributes.
pub proof fn lemma_opaque_with_children(el: ElementModel)
    requires
        has_we_element(el.attributes),
        el.children.len() > 0,
    ensures
        elem_error(el) == Some(ErrorModel::OpaqueWithChildren),
{
}

/// A template whose tree contains an opaque-component element with children
/// never compiles.
pub proof fn lemma_tree_opaque_violation_fails(nodes: Seq<NodeModel>)
    requires
        tree_has_opaque_violation(nodes),
    ensures
        nodes_error(nodes) is Some,
    decreases nodes, 1int,
{
    let i = choose|i: int|
        0 <= i < nodes.len() && (#[trigger] nodes[i]) is Element && elem_has_opaque_violation(
            nodes[i]->Element_0,
        );
    if nodes_error(nodes) is None {
        lemma_clean_tree_no_violation(nodes, i);
    }
}

/// In a tree whose walk produces no diagnostic, no element violates the
/// opaque-component rule.
proof fn lemma_clean_tree_no_violation(nodes: Seq<NodeModel>, i: int)
    requires
        nodes_error(nodes) is None,
        0 <= i < nodes.len(),
        nodes[i] is Element,
    ensures
        !elem_has_opaque_violation(nodes[i]->Element_0),
    decreases nodes, 1int,
{
    if i == 0 {
        let el = nodes[0]->Element_0;
        assert(elem_error(el) is None);
        assert(!(has_we_element(el.attributes) && el.children.len() > 0));
        assert(nodes_error(el.children) is None);
        if tree_has_opaque_violation(el.children) {
            let j = choose|j: int|
                0 <= j < el.children.len() && (#[trigger] el.children[j]) is Element
                    && elem_has_opaque_violation(el.children[j]->Element_0);
            lemma_clean_tree_no_violation(el.children, j);
        }
    } else {
        assert(nodes.drop_first()[i - 1] == nodes[i]);
        lemma_clean_tree_no_violation(nodes.drop_first(), i - 1);
    }
}

/// An element whose lowercased tag is not in the builtin catalog and which
/// carries no opaque-component directive fails to compile — once its
/// directives themselves are well formed — with the unknown-element
/// diagnostic that references exactly the lowercased tag name.
pub proof fn lemma_unknown_element(el: ElementModel)
    requires
        !has_we_element(el.attributes),
        builtin_of_tag(lower_seq(el.name)) is None,
        resolve_spec(el.attributes, el.children.len() > 0) is Ok,
    ensures
        elem_error(el) == Some(ErrorModel::UnknownElement(lower_seq(el.name))),
{
}

/// Whether some capture fills the binding: it writes the binding's slot,
/// with a list exactly when the binding asks for one.
pub open spec fn fills(caps: Seq<CaptureModel>, b: BindingModel) -> bool {
    exists|i: int|
        0 <= i < caps.len() && (#[trigger] caps[i]).name == b.name && ((caps[i].value is List)
            <==> b.repeated)
}

/// Whether the name belongs to some binding.
pub open spec fn bound_name(bs: Seq<BindingModel>, name: Seq<char>) -> bool {
    exists|j: int| 0 <= j < bs.len() && (#[trigger] bs[j]).name == name
}

/// The captures fill exactly the declared slots: every binding is filled by
/// a capture of matching arity, and every capture writes a declared slot.
pub open spec fn caps_match(caps: Seq<CaptureModel>, bs: Seq<BindingModel>) -> bool {
    (forall|j: int| 0 <= j < bs.len() ==> fills(caps, #[trigger] bs[j])) && (forall|i: int|
        0 <= i < caps.len() ==> bound_name(bs, (#[trigger] caps[i]).name))
}

/// A capture that fills a binding still fills it inside any concatenation.
proof fn lemma_fills_concat(a: Seq<CaptureModel>, c: Seq<CaptureModel>, b: BindingModel)
    requires
        fills(a, b) || fills(c, b),
    ensures
        fills(a + c, b),
{
    if fills(a, b) {
        let i = choose|i: int|
            0 <= i < a.len() && (#[trigger] a[i]).name == b.name && ((a[i].value is List) <==> b.repeated);
        assert((a + c)[i] == a[i]);
    } else {
        let i = choose|i: int|
            0 <= i < c.len() && (#[trigger] c[i]).name == b.name && ((c[i].value is List) <==> b.repeated);
        assert((a + c)[a.len() + i] == c[i]);
    }
}

/// A name bound in either part is bound in the concatenation.
proof fn lemma_bound_concat(a: Seq<BindingModel>, c: Seq<BindingModel>, name: Seq<char>)
    requires
        bound_name(a, name) || bound_name(c, name),
    ensures
        bound_name(a + c, name),
{
    if bound_name(a, name) {
        let j = choose|j: int| 0 <= j < a.len() && (#[trigger] a[j]).name == name;
        assert((a + c)[j] == a[j]);
    } else {
        let j = choose|j: int| 0 <= j < c.len() && (#[trigger] c[j]).name == name;
        assert((a + c)[a.len() + j] == c[j]);
    }
}

/// The first `n` iterations of a repeated element capture exactly what one
/// iteration's children capture, with the first iteration present as soon
/// as `n` is positive.
proof fn lemma_iter_captures_match(
    e: ExprModel,
    n: nat,
    bs: Seq<BindingModel>,
)
    requires
        caps_match(
            crate::eval::captures_singles(e.children) + crate::eval::captures_lists(e.children),
            bs,
        ),
    ensures
        forall|i: int|
            0 <= i < iter_captures(e, n).len() ==> bound_name(
                bs,
                (#[trigger] iter_captures(e, n)[i]).name,
            ),
        n >= 1 ==> forall|j: int| 0 <= j < bs.len() ==> fills(iter_captures(e, n), #[trigger] bs[j]),
    decreases n,
{
    let one = crate::eval::captures_singles(e.children) + crate::eval::captures_lists(e.children);
    if n == 0 {
    } else {
        lemma_iter_captures_match(e, (n - 1) as nat, bs);
        let prev = iter_captures(e, (n - 1) as nat);
        assert(iter_captures(e, n) == (prev + crate::eval::captures_singles(e.children))
            + crate::eval::captures_lists(e.children));
        assert forall|i: int| 0 <= i < iter_captures(e, n).len() implies bound_name(
            bs,
            (#[trigger] iter_captures(e, n)[i]).name,
        ) by {
            let whole = iter_captures(e, n);
            if i < prev.len() {
                assert(whole[i] == prev[i]);
            } else if i < prev.len() + crate::eval::captures_singles(e.children).len() {
                assert(whole[i] == crate::eval::captures_singles(e.children)[i - prev.len()]);
                assert(one[i - prev.len()] == crate::eval::captures_singles(e.children)[i
                    - prev.len()]);
            } else {
                let k = i - prev.len() - crate::eval::captures_singles(e.children).len();
                assert(whole[i] == crate::eval::captures_lists(e.children)[k]);
                assert(one[crate::eval::captures_singles(e.children).len() + k]
                    == crate::eval::captures_lists(e.children)[k]);
            }
        }
        if n >= 1 {
            assert forall|j: int| 0 <= j < bs.len() implies fills(
                iter_captures(e, n),
                #[trigger] bs[j],
            ) by {
                assert(fills(one, bs[j]));
                let i = choose|i: int|
                    0 <= i < one.len() && (#[trigger] one[i]).name == bs[j].name && ((one[i].value
                        is List) <==> bs[j].repeated);
                if i < crate::eval::captures_singles(e.children).len() {
                    assert(one[i] == crate::eval::captures_singles(e.children)[i]);
                    assert(fills(crate::eval::captures_singles(e.children), bs[j]));
                    lemma_fills_concat(prev, crate::eval::captures_singles(e.children), bs[j]);
                    lemma_fills_concat(
                        prev + crate::eval::captures_singles(e.children),
                        crate::eval::captures_lists(e.children),
                        bs[j],
                    );
                } else {
                    let k = i - crate::eval::captures_singles(e.children).len();
                    assert(one[i] == crate::eval::captures_lists(e.children)[k]);
                    assert(fills(crate::eval::captures_lists(e.children), bs[j]));
                    lemma_fills_concat(
                        prev + crate::eval::captures_singles(e.children),
                        crate::eval::captures_lists(e.children),
                        bs[j],
                    );
                }
            }
        }
    }
}

/// The captures of one built instance of a compiling, non-repeated element
/// fill exactly the element's bindings.
pub proof fn lemma_elem_captures_match(el: ElementModel, idx: Option<Seq<char>>)
    requires
        elem_error(el) is None,
        elem_ir(el).repeat is None,
    ensures
        caps_match(crate::eval::captures_expr(elem_ir(el), idx), elem_bindings(el)),
    decreases el, 4int,
{
    let e = elem_ir(el);
    let r = resolve_spec(el.attributes, el.children.len() > 0)->Ok_0;
    lemma_nodes_captures_match(el.children);
    let kids_caps = crate::eval::captures_singles(e.children) + crate::eval::captures_lists(
        e.children,
    );
    let own_caps: Seq<crate::eval::CaptureModel> = match e.capture {
        Some(f) => seq![
            crate::eval::CaptureModel {
                name: f,
                value: crate::eval::CapValModel::Single(crate::eval::eval_expr(e, idx)),
            },
        ],
        None => Seq::empty(),
    };
    assert(crate::eval::captures_expr(e, idx) == kids_caps + own_caps);
    let own_binds: Seq<BindingModel> = match r.field {
        Some(f) => seq![
            BindingModel {
                name: f,
                kind: crate::compile::kind_of(el.name, r.custom)->Some_0,
                repeated: r.repeat is Some,
            },
        ],
        None => Seq::empty(),
    };
    assert(elem_bindings(el) == own_binds + nodes_bindings(el.children));
    assert forall|j: int| 0 <= j < elem_bindings(el).len() implies fills(
        crate::eval::captures_expr(e, idx),
        #[trigger] elem_bindings(el)[j],
    ) by {
        let b = elem_bindings(el)[j];
        if j < own_binds.len() {
            assert(b == own_binds[0]);
            assert(own_caps[0].name == b.name);
            assert(!(own_caps[0].value is List) && !b.repeated);
            lemma_fills_concat(kids_caps, own_caps, b);
        } else {
            assert(b == nodes_bindings(el.children)[j - own_binds.len()]);
            lemma_fills_concat(kids_caps, own_caps, b);
        }
    }
    assert forall|i: int| 0 <= i < crate::eval::captures_expr(e, idx).len() implies bound_name(
        elem_bindings(el),
        (#[trigger] crate::eval::captures_expr(e, idx)[i]).name,
    ) by {
        let caps = crate::eval::captures_expr(e, idx);
        if i < kids_caps.len() {
            assert(caps[i] == kids_caps[i]);
            lemma_bound_concat(own_binds, nodes_bindings(el.children), caps[i].name);
        } else {
            assert(caps[i] == own_caps[i - kids_caps.len()]);
            assert(own_binds[0].name == caps[i].name);
            lemma_bound_concat(own_binds, nodes_bindings(el.children), caps[i].name);
        }
    }
}

/// The captures of a compiling, repeated element — every iteration's inner
/// captures and the final list capture — fill exactly the element's
/// bindings.
pub proof fn lemma_repeated_elem_captures_match(el: ElementModel)
    requires
        elem_error(el) is None,
        elem_ir(el).repeat is Some,
    ensures
        caps_match(crate::eval::captures_list(elem_ir(el)), elem_bindings(el)),
    decreases el, 4int,
{
    let e = elem_ir(el);
    let r = resolve_spec(el.attributes, el.children.len() > 0)->Ok_0;
    lemma_compiled_repeat_positive(el);
    lemma_nodes_captures_match(el.children);
    let kids_bs = nodes_bindings(el.children);
    let kids_caps = crate::eval::captures_singles(e.children) + crate::eval::captures_lists(
        e.children,
    );
    lemma_iter_captures_match(e, rep_count(e), kids_bs);
    let iters = iter_captures(e, rep_count(e));
    let own_caps: Seq<crate::eval::CaptureModel> = match e.capture {
        Some(f) => seq![
            crate::eval::CaptureModel {
                name: f,
                value: crate::eval::CapValModel::List(eval_list(e)),
            },
        ],
        None => Seq::empty(),
    };
    assert(crate::eval::captures_list(e) == iters + own_caps);
    let own_binds: Seq<BindingModel> = match r.field {
        Some(f) => seq![
            BindingModel {
                name: f,
                kind: crate::compile::kind_of(el.name, r.custom)->Some_0,
                repeated: r.repeat is Some,
            },
        ],
        None => Seq::empty(),
    };
    assert(elem_bindings(el) == own_binds + kids_bs);
    assert(rep_count(e) >= 1);
    assert forall|j: int| 0 <= j < elem_bindings(el).len() implies fills(
        crate::eval::captures_list(e),
        #[trigger] elem_bindings(el)[j],
    ) by {
        let b = elem_bindings(el)[j];
        if j < own_binds.len() {
            assert(b == own_binds[0]);
            assert(own_caps[0].name == b.name);
            assert((own_caps[0].value is List) && b.repeated);
            lemma_fills_concat(iters, own_caps, b);
        } else {
            assert(b == kids_bs[j - own_binds.len()]);
            assert(fills(iters, b));
            lemma_fills_concat(iters, own_caps, b);
        }
    }
    assert forall|i: int| 0 <= i < crate::eval::captures_list(e).len() implies bound_name(
        elem_bindings(el),
        (#[trigger] crate::eval::captures_list(e)[i]).name,
    ) by {
        let caps = crate::eval::captures_list(e);
        if i < iters.len() {
            assert(caps[i] == iters[i]);
            lemma_bound_concat(own_binds, kids_bs, caps[i].name);
        } else {
            assert(caps[i] == own_caps[i - iters.len()]);
            assert(own_binds[0].name == caps[i].name);
            lemma_bound_concat(own_binds, kids_bs, caps[i].name);
        }
    }
}

/// The captures of a compiling sibling sequence fill exactly the bindings
/// the sequence contributes.
pub proof fn lemma_nodes_captures_match(nodes: Seq<NodeModel>)
    requires
        nodes_error(nodes) is None,
    ensures
        caps_match(
            crate::eval::captures_singles(crate::compile::children_irs(nodes))
                + crate::eval::captures_lists(crate::compile::children_irs(nodes)),
            nodes_bindings(nodes),
        ),
    decreases nodes, 5int,
{
    let cirs = crate::compile::children_irs(nodes);
    let cs = crate::eval::captures_singles(cirs);
    let cl = crate::eval::captures_lists(cirs);
    if nodes.len() == 0 {
        assert(cirs == Seq::<ExprModel>::empty());
        assert(cs.len() == 0 && cl.len() == 0);
    } else {
        let rest = nodes.drop_first();
        assert(nodes_error(rest) is None);
        lemma_nodes_captures_match(rest);
        let rcirs = crate::compile::children_irs(rest);
        let rcs = crate::eval::captures_singles(rcirs);
        let rcl = crate::eval::captures_lists(rcirs);
        let rbs = nodes_bindings(rest);
        match nodes[0] {
            NodeModel::Element(el) => {
                assert(elem_error(el) is None);
                let e0 = elem_ir(el);
                assert(cirs == seq![e0] + rcirs);
                assert(cirs[0] == e0);
                assert(cirs.drop_first() =~= rcirs);
                let ebs = elem_bindings(el);
                assert(nodes_bindings(nodes) == ebs + rbs);
                if e0.repeat is None {
                    lemma_elem_captures_match(el, None);
                    let ecaps = crate::eval::captures_expr(e0, None);
                    assert(cs == ecaps + rcs);
                    assert(cl == rcl);
                    assert forall|j: int| 0 <= j < nodes_bindings(nodes).len() implies fills(
                        cs + cl,
                        #[trigger] nodes_bindings(nodes)[j],
                    ) by {
                        let b = nodes_bindings(nodes)[j];
                        if j < ebs.len() {
                            assert(b == ebs[j]);
                            assert(fills(ecaps, b));
                            lemma_fills_concat(ecaps, rcs, b);
                            lemma_fills_concat(ecaps + rcs, rcl, b);
                        } else {
                            assert(b == rbs[j - ebs.len()]);
                            assert(fills(rcs + rcl, b));
                            let i = choose|i: int|
                                0 <= i < (rcs + rcl).len() && (#[trigger] (rcs + rcl)[i]).name
                                    == b.name && (((rcs + rcl)[i].value is List) <==> b.repeated);
                            if i < rcs.len() {
                                assert((rcs + rcl)[i] == rcs[i]);
                                assert((ecaps + rcs)[ecaps.len() + i] == rcs[i]);
                                lemma_fills_concat(ecaps + rcs, rcl, b);
                            } else {
                                assert((rcs + rcl)[i] == rcl[i - rcs.len()]);
                                lemma_fills_concat(ecaps + rcs, rcl, b);
                            }
                        }
                    }
                    assert forall|i: int| 0 <= i < (cs + cl).len() implies bound_name(
                        nodes_bindings(nodes),
                        (#[trigger] (cs + cl)[i]).name,
                    ) by {
                        let name = (cs + cl)[i].name;
                        if i < ecaps.len() {
                            assert((cs + cl)[i] == cs[i] && cs[i] == ecaps[i]);
                            assert(bound_name(ebs, name));
                            lemma_bound_concat(ebs, rbs, name);
                        } else if i < cs.len() {
                            assert((cs + cl)[i] == cs[i] && cs[i] == rcs[i - ecaps.len()]);
                            assert((rcs + rcl)[i - ecaps.len()] == rcs[i - ecaps.len()]);
                            assert(bound_name(rbs, name));
                            lemma_bound_concat(ebs, rbs, name);
                        } else {
                            assert((cs + cl)[i] == cl[i - cs.len()] && cl[i - cs.len()] == rcl[i
                                - cs.len()]);
                            assert((rcs + rcl)[rcs.len() + (i - cs.len())] == rcl[i - cs.len()]);
                            assert(bound_name(rbs, name));
                            lemma_bound_concat(ebs, rbs, name);
                        }
                    }
                } else {
                    lemma_repeated_elem_captures_match(el);
                    let ecaps = crate::eval::captures_list(e0);
                    assert(cs == rcs);
                    assert(cl == ecaps + rcl);
                    assert forall|j: int| 0 <= j < nodes_bindings(nodes).len() implies fills(
                        cs + cl,
                        #[trigger] nodes_bindings(nodes)[j],
                    ) by {
                        let b = nodes_bindings(nodes)[j];
                        if j < ebs.len() {
                            assert(b == ebs[j]);
                            assert(fills(ecaps, b));
                            lemma_fills_concat(ecaps, rcl, b);
                            lemma_fills_concat(cs, ecaps + rcl, b);
                        } else {
                            assert(b == rbs[j - ebs.len()]);
                            assert(fills(rcs + rcl, b));
                            let i = choose|i: int|
                                0 <= i < (rcs + rcl).len() && (#[trigger] (rcs + rcl)[i]).name
                                    == b.name && (((rcs + rcl)[i].value is List) <==> b.repeated);
                            if i < rcs.len() {
                                assert((rcs + rcl)[i] == rcs[i]);
                                lemma_fills_concat(cs, ecaps + rcl, b);
                            } else {
                                assert((rcs + rcl)[i] == rcl[i - rcs.len()]);
                                assert((ecaps + rcl)[ecaps.len() + (i - rcs.len())] == rcl[i
                                    - rcs.len()]);
                                lemma_fills_concat(ecaps, rcl, b);
                                lemma_fills_concat(cs, ecaps + rcl, b);
                            }
                        }
                    }
                    assert forall|i: int| 0 <= i < (cs + cl).len() implies bound_name(
                        nodes_bindings(nodes),
                        (#[trigger] (cs + cl)[i]).name,
                    ) by {
                        let name = (cs + cl)[i].name;
                        if i < cs.len() {
                            assert((cs + cl)[i] == cs[i] && cs[i] == rcs[i]);
                            assert((rcs + rcl)[i] == rcs[i]);
                            assert(bound_name(rbs, name));
                            lemma_bound_concat(ebs, rbs, name);
                        } else if i - cs.len() < ecaps.len() {
                            assert((cs + cl)[i] == cl[i - cs.len()]);
                            assert(cl[i - cs.len()] == ecaps[i - cs.len()]);
                            assert(bound_name(ebs, name));
                            lemma_bound_concat(ebs, rbs, name);
                        } else {
                            let k = i - cs.len() - ecaps.len();
                            assert((cs + cl)[i] == cl[i - cs.len()]);
                            assert(cl[i - cs.len()] == rcl[k]);
                            assert((rcs + rcl)[rcs.len() + k] == rcl[k]);
                            assert(bound_name(rbs, name));
                            lemma_bound_concat(ebs, rbs, name);
                        }
                    }
                }
            },
            _ => {
                assert(cirs == rcirs);
                assert(nodes_bindings(nodes) == rbs);
            },
        }
    }
}

/// The captures a compiled plan performs when its routine runs once.
pub open spec fn plan_captures(p: PlanModel) -> Seq<crate::eval::CaptureModel> {
    if p.expr.repeat is Some {
        crate::eval::captures_list(p.expr)
    } else {
        crate::eval::captures_expr(p.expr, None)
    }
}

/// Running a compiled plan's construction routine once fills every declared
/// slot with a value of the declared arity, and writes no slot that was not
/// declared: unwrapping every slot at assembly time is sound.
pub proof fn lemma_plan_captures_match_bindings(nodes: Seq<NodeModel>)
    requires
        assemble_spec(nodes) is Ok,
    ensures
        caps_match(plan_captures(assemble_spec(nodes)->Ok_0), assemble_spec(nodes)->Ok_0.bindings),
{
    let el = nodes[0]->Element_0;
    if elem_ir(el).repeat is Some {
        lemma_repeated_elem_captures_match(el);
    } else {
        lemma_elem_captures_match(el, None);
    }
}

} // verus!
