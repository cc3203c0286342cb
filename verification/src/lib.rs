//! Compile-time template compiler for element trees.
//!
//! A template is a small markup fragment with three reserved attributes
//! (`we_field`, `we_repeat`, `we_element`). Compiling a template produces a
//! construction plan: an intermediate representation describing how to build
//! the element tree, which nodes are exposed as named fields on the declared
//! object, and how repeated sub-trees are unrolled.

pub mod catalog;
pub mod classes;
pub mod compile;
pub mod eval;
pub mod ir;
pub mod laws;
pub mod markup;
pub mod parse;
pub mod plan;
pub mod text;
pub mod tokens;

use vstd::prelude::*;

verus! {

/// The post-construction hook of a declared object.
///
/// The generated construction routine builds the element tree, binds the
/// named fields, and then calls `init` once before handing the object to
/// the caller. Implementors may override it to finish wiring the object;
/// the default behaviour is to do nothing and succeed. An `Err` carries the
/// host's failure message and aborts construction.
pub trait WebElement {
    fn init(&mut self) -> Result<(), String>;
}

} // verus!
