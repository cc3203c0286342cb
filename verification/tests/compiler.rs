use webelements::catalog::BuiltinKind;
use webelements::eval::{eval_repeated, eval_single, Capture, CaptureValue};
use webelements::ir::{CompileError, ElementKind};
use webelements::markup::MarkupNode;
use webelements::parse::parse_markup;
use webelements::plan::{assemble, augment, compile_template, ConstructionPlan, FieldDecl, FieldSource};
use webelements::tokens::SourceToken;

fn compile(text: &str) -> Result<ConstructionPlan, CompileError> {
    let nodes = parse_markup(text)?;
    assemble(&nodes)
}

#[test]
fn builtin_root_is_element() {
    let plan = compile("<div></div>").unwrap();
    assert!(plan.root_is_element);
    assert!(matches!(plan.root_kind, ElementKind::Builtin(BuiltinKind::Div)));
    assert!(plan.bindings.is_empty());
}

#[test]
fn builtin_root_tag_is_case_insensitive() {
    let plan = compile("<DiV></DiV>").unwrap();
    assert!(plan.root_is_element);
    assert!(matches!(plan.root_kind, ElementKind::Builtin(BuiltinKind::Div)));
}

#[test]
fn custom_root_is_not_element() {
    let plan = compile("<MyElement we_element></MyElement>").unwrap();
    assert!(!plan.root_is_element);
    match &plan.root_kind {
        ElementKind::Custom(name) => assert_eq!(name, "MyElement"),
        _ => panic!("expected a custom root"),
    }
}

#[test]
fn two_roots_fail_with_cardinality_error() {
    let err = compile("<div></div><p></p>").unwrap_err();
    assert!(matches!(err, CompileError::RootCardinality));
}

#[test]
fn empty_template_fails_with_cardinality_error() {
    let err = compile("").unwrap_err();
    assert!(matches!(err, CompileError::RootCardinality));
}

#[test]
fn text_root_fails() {
    let err = compile("hello").unwrap_err();
    assert!(matches!(err, CompileError::RootNotElement));
}

#[test]
fn unknown_element_reports_lowercased_tag() {
    let err = compile("<Widget></Widget>").unwrap_err();
    match err {
        CompileError::UnknownElement(tag) => assert_eq!(tag, "widget"),
        _ => panic!("expected an unknown-element error"),
    }
}

#[test]
fn unknown_element_message_references_lowercased_tag() {
    let err = compile("<Widget></Widget>").unwrap_err();
    assert_eq!(err.message(), "element `widget` not implemented");
}

#[test]
fn unknown_element_in_child_aborts_whole_template() {
    let err = compile("<div><widget></widget></div>").unwrap_err();
    match err {
        CompileError::UnknownElement(tag) => assert_eq!(tag, "widget"),
        _ => panic!("expected an unknown-element error"),
    }
}

#[test]
fn opaque_component_with_children_fails() {
    let err = compile("<Part we_element><span></span></Part>").unwrap_err();
    assert!(matches!(err, CompileError::OpaqueWithChildren));
}

#[test]
fn opaque_component_with_children_fails_regardless_of_other_attributes() {
    let err = compile("<Part we_element we_repeat=\"x\" class=\"c\"><span></span></Part>")
        .unwrap_err();
    assert!(matches!(err, CompileError::OpaqueWithChildren));
}

#[test]
fn repeat_without_value_fails() {
    let err = compile("<div we_repeat></div>").unwrap_err();
    assert!(matches!(err, CompileError::RepeatNeedsValue));
}

#[test]
fn repeat_with_non_integer_fails() {
    let err = compile("<div we_repeat=\"abc\"></div>").unwrap_err();
    assert!(matches!(err, CompileError::RepeatNotPositive));
}

#[test]
fn repeat_with_zero_fails() {
    let err = compile("<div we_repeat=\"0\"></div>").unwrap_err();
    assert!(matches!(err, CompileError::RepeatNotPositive));
}

#[test]
fn duplicate_field_names_are_rejected() {
    let err = compile("<div we_field=\"x\"><p we_field=\"x\"></p></div>").unwrap_err();
    match err {
        CompileError::DuplicateField(name) => assert_eq!(name, "x"),
        _ => panic!("expected a duplicate-field error"),
    }
}

#[test]
fn round_trip_classes_and_attributes() {
    let plan = compile("<div class=\"a\" data-x=\"v\"></div>").unwrap();
    assert!(plan.bindings.is_empty());
    let (node, captures) = eval_single(&plan.expr, None);
    assert_eq!(node.classes, vec!["a".to_string()]);
    assert_eq!(node.attributes.len(), 1);
    assert_eq!(node.attributes[0].key, "data-x");
    assert_eq!(node.attributes[0].value, Some("v".to_string()));
    assert!(captures.is_empty());
    assert!(node.children.is_empty());
    assert!(node.text.is_none());
}

#[test]
fn field_binding_is_collected() {
    let plan = compile("<div><input we_field=\"value_input\"></input></div>").unwrap();
    assert_eq!(plan.bindings.len(), 1);
    assert_eq!(plan.bindings[0].name, "value_input");
    assert!(!plan.bindings[0].repeated);
    assert!(matches!(plan.bindings[0].kind, ElementKind::Builtin(BuiltinKind::Input)));
}

#[test]
fn repeated_field_builds_a_list_of_n_instances() {
    let plan = compile("<p><div we_field=\"child\" we_repeat=\"3\"><span></span></div></p>")
        .unwrap();
    assert_eq!(plan.bindings.len(), 1);
    assert_eq!(plan.bindings[0].name, "child");
    assert!(plan.bindings[0].repeated);
    assert!(matches!(plan.bindings[0].kind, ElementKind::Builtin(BuiltinKind::Div)));

    let (root, captures) = eval_single(&plan.expr, None);
    assert_eq!(root.children.len(), 3);
    for (j, inst) in root.children.iter().enumerate() {
        assert!(matches!(inst.kind, ElementKind::Builtin(BuiltinKind::Div)));
        assert_eq!(inst.index, Some(format!("{}", j)));
        assert_eq!(inst.children.len(), 1);
        assert!(matches!(inst.children[0].kind, ElementKind::Builtin(BuiltinKind::Span)));
    }
    assert_eq!(root.children[0].index, Some("0".to_string()));
    assert_eq!(root.children[1].index, Some("1".to_string()));
    assert_eq!(root.children[2].index, Some("2".to_string()));
    let list_caps: Vec<&Capture> = captures.iter().collect();
    assert_eq!(list_caps.len(), 1);
    assert_eq!(list_caps[0].name, "child");
    match &list_caps[0].value {
        CaptureValue::List(items) => assert_eq!(items.len(), 3),
        _ => panic!("expected a list capture"),
    }
}

#[test]
fn repeated_root_evaluates_to_instances() {
    let plan = compile("<div we_repeat=\"2\" we_field=\"items\"></div>").unwrap();
    let (items, captures) = eval_repeated(&plan.expr);
    assert_eq!(items.len(), 2);
    assert_eq!(items[0].index, Some("0".to_string()));
    assert_eq!(items[1].index, Some("1".to_string()));
    assert_eq!(captures.len(), 1);
    match &captures[0].value {
        CaptureValue::List(items) => assert_eq!(items.len(), 2),
        _ => panic!("expected a list capture"),
    }
}

#[test]
fn text_child_becomes_inline_text() {
    let plan = compile("<p>hello</p>").unwrap();
    let (node, _) = eval_single(&plan.expr, None);
    assert_eq!(node.text, Some("hello".to_string()));
    assert!(node.children.is_empty());
}

#[test]
fn single_capture_records_the_node() {
    let plan = compile("<div><button we_field=\"ok\"></button></div>").unwrap();
    let (_, captures) = eval_single(&plan.expr, None);
    assert_eq!(captures.len(), 1);
    assert_eq!(captures[0].name, "ok");
    match &captures[0].value {
        CaptureValue::Single(node) => {
            assert!(matches!(node.kind, ElementKind::Builtin(BuiltinKind::Button)));
        },
        _ => panic!("expected a single capture"),
    }
}

#[test]
fn augmented_fields_follow_declared_root_bindings_order() {
    let plan = compile("<div><input we_field=\"input\"></input></div>").unwrap();
    let declared = vec![FieldDecl { name: "count".to_string(), ty: "usize".to_string() }];
    let fields = augment(&declared, &plan);
    assert_eq!(fields.len(), 3);
    assert_eq!(fields[0].name, "count");
    assert!(matches!(fields[0].source, FieldSource::Declared(_)));
    assert_eq!(fields[1].name, "root");
    assert!(matches!(fields[1].source, FieldSource::RootSlot));
    assert_eq!(fields[2].name, "input");
    match &fields[2].source {
        FieldSource::Binding(kind, repeated) => {
            assert!(matches!(kind, ElementKind::Builtin(BuiltinKind::Input)));
            assert!(!repeated);
        },
        _ => panic!("expected a binding field"),
    }
}

#[test]
fn comments_are_ignored_by_the_walk_but_count_as_roots() {
    let nodes = parse_markup("<!-- note --><div></div>").unwrap();
    match nodes.len() {
        2 => {
            assert!(matches!(nodes[0], MarkupNode::Comment(_)));
            let err = assemble(&nodes).unwrap_err();
            assert!(matches!(err, CompileError::RootCardinality));
        },
        1 => {
            // The parser may drop comments entirely; then the template has
            // one root and compiles.
            assert!(assemble(&nodes).is_ok());
        },
        n => panic!("unexpected top-level node count {}", n),
    }
}

#[test]
fn malformed_markup_is_a_parse_error() {
    let result = parse_markup("<div");
    match result {
        Err(CompileError::Parse(msg)) => assert!(!msg.is_empty()),
        Err(e) => panic!("expected a parse error, got {:?}", e),
        Ok(nodes) => {
            // A lenient parser may accept the fragment; it must then hold
            // no compilable root element of a known kind.
            let _ = assemble(&nodes);
        },
    }
}

#[test]
fn compile_template_from_source_tokens() {
    // the token layout of `<div class="a"></div>` on one line
    let words: [(&str, usize, usize); 10] = [
        ("<", 0, 1),
        ("div", 1, 4),
        ("class", 5, 10),
        ("=", 10, 11),
        ("\"a\"", 11, 14),
        (">", 14, 15),
        ("<", 15, 16),
        ("/", 16, 17),
        ("div", 17, 20),
        (">", 20, 21),
    ];
    let mut tokens: Vec<SourceToken> = Vec::new();
    for (w, start, end) in words {
        tokens.push(SourceToken {
            text: w.to_string(),
            start_line: 1,
            start_col: start,
            end_line: 1,
            end_col: end,
        });
    }
    let plan = compile_template(&tokens).unwrap();
    assert!(plan.root_is_element);
    let (node, captures) = eval_single(&plan.expr, None);
    assert_eq!(node.classes, vec!["a".to_string()]);
    assert!(captures.is_empty());
}

#[test]
fn binding_under_a_repeat_is_captured_once_per_iteration() {
    let plan = compile("<div><p we_repeat=\"2\"><span we_field=\"s\"></span></p></div>")
        .unwrap();
    assert_eq!(plan.bindings.len(), 1);
    assert_eq!(plan.bindings[0].name, "s");
    assert!(!plan.bindings[0].repeated);
    let (root, captures) = eval_single(&plan.expr, None);
    assert_eq!(root.children.len(), 2);
    assert_eq!(captures.len(), 2);
    for c in &captures {
        assert_eq!(c.name, "s");
        assert!(matches!(c.value, CaptureValue::Single(_)));
    }
}

#[test]
fn repeated_custom_element_binds_a_list() {
    let plan = compile("<div><MyElement we_field=\"elem\" we_repeat=\"2\" we_element></MyElement></div>")
        .unwrap();
    assert_eq!(plan.bindings.len(), 1);
    assert_eq!(plan.bindings[0].name, "elem");
    assert!(plan.bindings[0].repeated);
    match &plan.bindings[0].kind {
        ElementKind::Custom(name) => assert_eq!(name, "MyElement"),
        _ => panic!("expected a custom element kind"),
    }
    let (root, captures) = eval_single(&plan.expr, None);
    assert_eq!(root.children.len(), 2);
    assert_eq!(captures.len(), 1);
    match &captures[0].value {
        CaptureValue::List(items) => {
            assert_eq!(items.len(), 2);
            assert_eq!(items[0].index, Some("0".to_string()));
            assert_eq!(items[1].index, Some("1".to_string()));
        },
        _ => panic!("expected a list capture"),
    }
}

#[test]
fn first_text_child_wins() {
    let plan = compile("<p>one<span></span>two</p>").unwrap();
    let (node, _) = eval_single(&plan.expr, None);
    assert_eq!(node.text, Some("one".to_string()));
    assert_eq!(node.children.len(), 1);
    assert!(matches!(node.children[0].kind, ElementKind::Builtin(BuiltinKind::Span)));
}
