//! The fixed catalog of built-in element kinds: the tags the compiler knows,
//! each paired with a wrapper type identifier and a host-native type
//! identifier.

use vstd::prelude::*;
use crate::text::str_eq;

verus! {

/// A built-in element kind, one per recognized tag name.
#[derive(Clone, Copy, Debug, PartialEq, Eq, Structural)]
pub enum BuiltinKind {
    Base,
    Div,
    Paragraph,
    Span,
    Input,
    Button,
}

/// The catalog entry for a lowercased tag name, if the tag is recognized.
pub open spec fn builtin_of_tag(tag: Seq<char>) -> Option<BuiltinKind> {
    if tag == "body"@ {
        Some(BuiltinKind::Base)
    } else if tag == "div"@ {
        Some(BuiltinKind::Div)
    } else if tag == "p"@ {
        Some(BuiltinKind::Paragraph)
    } else if tag == "span"@ {
        Some(BuiltinKind::Span)
    } else if tag == "input"@ {
        Some(BuiltinKind::Input)
    } else if tag == "button"@ {
        Some(BuiltinKind::Button)
    } else {
        None
    }
}

/// Looks a lowercased tag name up in the catalog.
pub fn lookup_builtin(tag: &str) -> (r: Option<BuiltinKind>)
    ensures
        r == builtin_of_tag(tag@),
{
    if str_eq(tag, "body") {
        Some(BuiltinKind::Base)
    } else if str_eq(tag, "div") {
        Some(BuiltinKind::Div)
    } else if str_eq(tag, "p") {
        Some(BuiltinKind::Paragraph)
    } else if str_eq(tag, "span") {
        Some(BuiltinKind::Span)
    } else if str_eq(tag, "input") {
        Some(BuiltinKind::Input)
    } else if str_eq(tag, "button") {
        Some(BuiltinKind::Button)
    } else {
        None
    }
}

/// The wrapper type identifier of a catalog entry.
pub open spec fn spec_wrapper_name(k: BuiltinKind) -> Seq<char> {
    match k {
        BuiltinKind::Base => "Base"@,
        BuiltinKind::Div => "Div"@,
        BuiltinKind::Paragraph => "Paragraph"@,
        BuiltinKind::Span => "Span"@,
        BuiltinKind::Input => "Input"@,
        BuiltinKind::Button => "Button"@,
    }
}

/// The wrapper type identifier of a catalog entry.
pub fn wrapper_name(k: BuiltinKind) -> (r: &'static str)
    ensures
        r@ == spec_wrapper_name(k),
{
    match k {
        BuiltinKind::Base => "Base",
        BuiltinKind::Div => "Div",
        BuiltinKind::Paragraph => "Paragraph",
        BuiltinKind::Span => "Span",
        BuiltinKind::Input => "Input",
        BuiltinKind::Button => "Button",
    }
}

/// The host-native type identifier of a catalog entry.
pub open spec fn spec_host_name(k: BuiltinKind) -> Seq<char> {
    match k {
        BuiltinKind::Base => "HtmlElement"@,
        BuiltinKind::Div => "HtmlElement"@,
        BuiltinKind::Paragraph => "HtmlElement"@,
        BuiltinKind::Span => "HtmlSpanElement"@,
        BuiltinKind::Input => "HtmlInputElement"@,
        BuiltinKind::Button => "HtmlButtonElement"@,
    }
}

/// The host-native type identifier of a catalog entry.
pub fn host_name(k: BuiltinKind) -> (r: &'static str)
    ensures
        r@ == spec_host_name(k),
{
    match k {
        BuiltinKind::Base => "HtmlElement",
        BuiltinKind::Div => "HtmlElement",
        BuiltinKind::Paragraph => "HtmlElement",
        BuiltinKind::Span => "HtmlSpanElement",
        BuiltinKind::Input => "HtmlInputElement",
        BuiltinKind::Button => "HtmlButtonElement",
    }
}

} // verus!
