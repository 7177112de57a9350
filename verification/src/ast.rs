use vstd::prelude::*;
use crate::span::Span;

verus! {

// Names are interned: a name is the number of its entry in the interner,
// and two names are the same exactly when their numbers are.

/// A module's name and the path of its source file, both interned.
#[derive(Clone, Copy, Debug, PartialEq, Eq, Structural)]
pub struct ModuleInfo {
    pub name: u64,
    pub file_path: u64,
}

#[derive(Clone, Copy, Debug, PartialEq, Eq, Structural)]
pub enum Visibility {
    Private,
    Public,
}

/// One step of an import path: a name, or `*`.
#[derive(Clone, Copy, Debug, PartialEq, Eq, Structural)]
pub enum ImportPathNode {
    Symbol(u64),
    Glob,
}

/// A step of an import path with its span.
#[derive(Clone, Copy, Debug, PartialEq, Eq, Structural)]
pub struct ImportPathItem {
    pub node: ImportPathNode,
    pub span: Span,
}

/// An import: `use module.path` bound to `alias`.
#[derive(Debug)]
pub struct Import {
    pub module_id: usize,
    pub module_info: ModuleInfo,
    pub alias: u64,
    pub target_binding_info: Option<usize>,
    pub import_path: Vec<ImportPathItem>,
    pub visibility: Visibility,
    pub span: Span,
    pub binding_info_id: usize,
}

/// An import is a glob import when its path ends in `*`.
pub open spec fn is_glob(i: Import) -> bool {
    i.import_path@.len() > 0 && i.import_path@.last().node == ImportPathNode::Glob
}

impl Import {
    pub fn is_glob(&self) -> (b: bool)
        ensures
            b == is_glob(*self),
    {
        let n = self.import_path.len();
        n > 0 && match self.import_path[n - 1].node {
            ImportPathNode::Glob => true,
            _ => false,
        }
    }
}

/// A name bound by a pattern.
#[derive(Clone, Copy, Debug, PartialEq, Eq, Structural)]
pub struct SymbolPattern {
    pub symbol: u64,
    pub binding_info_id: usize,
    pub span: Span,
    pub is_mutable: bool,
    pub ignore: bool,
}

#[derive(Debug)]
pub enum Pattern {
    Single(SymbolPattern),
    StructUnpack(Vec<SymbolPattern>),
    TupleUnpack(Vec<SymbolPattern>),
}

/// A top-level binding of a module.
#[derive(Debug)]
pub struct Binding {
    pub visibility: Visibility,
    pub pattern: Pattern,
}

/// The parsed source of one module.
#[derive(Debug)]
pub struct Ast {
    pub module_id: usize,
    pub imports: Vec<Import>,
    pub bindings: Vec<Binding>,
}

} // verus!
