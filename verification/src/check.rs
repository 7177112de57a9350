use vstd::prelude::*;
use crate::hir::{BindingInfo, Workspace};

verus! {

/// Whether a binding has been given a value yet.
#[derive(Clone, Copy, Debug, PartialEq, Eq)]
pub enum InitState {
    NotInit,
    Init,
}

impl InitState {
    pub fn is_not_init(&self) -> (b: bool)
        ensures
            b <==> *self == InitState::NotInit,
    {
        match self {
            InitState::NotInit => true,
            _ => false,
        }
    }

    pub fn is_init(&self) -> (b: bool)
        ensures
            b <==> *self == InitState::Init,
    {
        match self {
            InitState::Init => true,
            _ => false,
        }
    }
}


/// The state of type checking: the workspace whose binding types it fills
/// in, and a stack of scopes recording which bindings have been initialized.
pub struct CheckSess {
    pub workspace: Workspace,
    pub init_scopes: Vec<Vec<(usize, InitState)>>,
}

impl CheckSess {
    pub fn new(workspace: Workspace) -> (s: Self)
        ensures
            s.workspace == workspace,
            s.init_scopes@.len() == 0,
    {
        Self { workspace, init_scopes: Vec::new() }
    }

    /// Sets the type of the binding at index `idx`; every other binding, and
    /// this binding's name, stay as they were.
    pub fn update_binding_info_ty(&mut self, idx: usize, ty: usize)
        requires
            idx < old(self).workspace.binding_infos@.len(),
        ensures
            final(self).workspace.binding_infos@.len() == old(self).workspace.binding_infos@.len(),
            final(self).workspace.binding_infos@[idx as int].ty == ty,
            final(self).workspace.binding_infos@[idx as int].name == old(self).workspace.binding_infos@[idx as int].name,
            forall|j: int| 0 <= j < old(self).workspace.binding_infos@.len() && j != idx ==>
                final(self).workspace.binding_infos@[j] == old(self).workspace.binding_infos@[j],
            final(self).workspace.module_infos == old(self).workspace.module_infos,
            final(self).init_scopes == old(self).init_scopes,
    {
        let mut infos: Vec<BindingInfo> = Vec::new();
        std::mem::swap(&mut infos, &mut self.workspace.binding_infos);
        let old_info = infos.remove(idx);
        infos.insert(idx, BindingInfo { name: old_info.name, ty });
        self.workspace.binding_infos = infos;
    }
}

/// Where type checking stands inside a function body.
pub struct CheckFrame {
    pub depth: usize,
    pub loop_depth: usize,
    pub module_idx: usize,
    pub expected_return_ty: Option<usize>,
    pub self_types: Vec<usize>,
}

impl CheckFrame {
    /// A frame one level deeper than the one at `previous_depth`, outside any loop.
    pub fn new(previous_depth: usize, module_idx: usize, expected_return_ty: Option<usize>) -> (f: Self)
        requires
            previous_depth < usize::MAX,
        ensures
            f.depth == previous_depth + 1,
            f.loop_depth == 0,
            f.module_idx == module_idx,
            f.expected_return_ty == expected_return_ty,
            f.self_types@.len() == 0,
    {
        Self { depth: previous_depth + 1, loop_depth: 0, module_idx, expected_return_ty, self_types: vec![] }
    }
}

} // verus!
