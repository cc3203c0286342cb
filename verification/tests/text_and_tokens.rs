use webelements::catalog::{host_name, lookup_builtin, wrapper_name, BuiltinKind};
use webelements::text::{parse_dec, render_dec, str_eq, to_ascii_lower};
use webelements::tokens::{reconstruct, SourceToken};

fn tok(text: &str, sl: usize, sc: usize, el: usize, ec: usize) -> SourceToken {
    SourceToken {
        text: text.to_string(),
        start_line: sl,
        start_col: sc,
        end_line: el,
        end_col: ec,
    }
}

#[test]
fn reconstruct_empty_token_list() {
    assert_eq!(reconstruct(&Vec::new()), "");
}

#[test]
fn reconstruct_same_line_gaps() {
    let tokens = vec![tok("<", 1, 4, 1, 5), tok("div", 1, 5, 1, 8), tok(">", 1, 10, 1, 11)];
    assert_eq!(reconstruct(&tokens), "<div  >");
}

#[test]
fn reconstruct_line_break_indents_from_baseline() {
    let tokens = vec![tok("<div>", 1, 4, 1, 9), tok("<p>", 2, 8, 2, 11)];
    assert_eq!(reconstruct(&tokens), "<div>\n    <p>");
}

#[test]
fn reconstruct_indent_left_of_baseline_is_floored() {
    let tokens = vec![tok("<div>", 1, 8, 1, 13), tok("<p>", 2, 2, 2, 5)];
    assert_eq!(reconstruct(&tokens), "<div>\n<p>");
}

#[test]
fn render_dec_exact_values() {
    assert_eq!(render_dec(0), "0");
    assert_eq!(render_dec(7), "7");
    assert_eq!(render_dec(10), "10");
    assert_eq!(render_dec(90301), "90301");
}

#[test]
fn parse_dec_accepts_digit_runs() {
    assert_eq!(parse_dec("0"), Some(0));
    assert_eq!(parse_dec("42"), Some(42));
    assert_eq!(parse_dec("007"), Some(7));
}

#[test]
fn parse_dec_rejects_non_digits() {
    assert_eq!(parse_dec(""), None);
    assert_eq!(parse_dec("-1"), None);
    assert_eq!(parse_dec("3x"), None);
    assert_eq!(parse_dec("x3"), None);
    assert_eq!(parse_dec("99999999999999999999999999999999"), None);
}

#[test]
fn parse_dec_inverts_render_dec() {
    for n in [0usize, 1, 9, 10, 99, 100, 12345] {
        assert_eq!(parse_dec(&render_dec(n)), Some(n));
    }
}

#[test]
fn ascii_lowercase() {
    assert_eq!(to_ascii_lower("DiV"), "div");
    assert_eq!(to_ascii_lower("button"), "button");
    assert_eq!(to_ascii_lower("A-Z_09"), "a-z_09");
}

#[test]
fn string_equality_by_characters() {
    assert!(str_eq("we_field", "we_field"));
    assert!(!str_eq("we_field", "we_repeat"));
    assert!(!str_eq("", "a"));
}

#[test]
fn catalog_contents() {
    assert_eq!(lookup_builtin("body"), Some(BuiltinKind::Base));
    assert_eq!(lookup_builtin("div"), Some(BuiltinKind::Div));
    assert_eq!(lookup_builtin("p"), Some(BuiltinKind::Paragraph));
    assert_eq!(lookup_builtin("span"), Some(BuiltinKind::Span));
    assert_eq!(lookup_builtin("input"), Some(BuiltinKind::Input));
    assert_eq!(lookup_builtin("button"), Some(BuiltinKind::Button));
    assert_eq!(lookup_builtin("main"), None);
    assert_eq!(lookup_builtin("Div"), None);
}

#[test]
fn catalog_names() {
    assert_eq!(wrapper_name(BuiltinKind::Base), "Base");
    assert_eq!(wrapper_name(BuiltinKind::Paragraph), "Paragraph");
    assert_eq!(host_name(BuiltinKind::Base), "HtmlElement");
    assert_eq!(host_name(BuiltinKind::Span), "HtmlSpanElement");
    assert_eq!(host_name(BuiltinKind::Input), "HtmlInputElement");
    assert_eq!(host_name(BuiltinKind::Button), "HtmlButtonElement");
}
