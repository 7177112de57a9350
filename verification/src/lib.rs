//! A verified core of the chili compiler front end: the HIR pretty printer,
//! the argument resolution of call checking, glob import expansion, the
//! function-prototype parser and the small pieces of session state around them.

pub mod span;
pub mod diagnostic;
pub mod text;
pub mod check;
pub mod hir;
pub mod pretty_spec;
pub mod pretty;
pub mod call;
pub mod ast;
pub mod import;
pub mod astgen;
pub mod parse_spec;
pub mod parse;
