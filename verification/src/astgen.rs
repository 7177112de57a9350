use vstd::prelude::*;
use crate::ast::{Ast, Import, ModuleInfo, Visibility};
use crate::span::Span;

verus! {

/// A module that the compiler provides: its name and file path, interned.
#[derive(Clone, Copy, Debug, PartialEq, Eq, Structural)]
pub struct IntrinsicModuleInfo {
    pub name: u64,
    pub file_path: u64,
}

/// The private import of an intrinsic module, bound to the module's name.
pub open spec fn is_intrinsic_import(i: Import, m: ModuleInfo) -> bool {
    &&& i.binding_info_id == 0
    &&& i.module_id == 0
    &&& i.module_info == m
    &&& i.alias == m.name
    &&& i.target_binding_info is None
    &&& i.import_path@.len() == 0
    &&& i.visibility == Visibility::Private
    &&& i.span == (Span { file_id: 0, start: 0, end: 0 })
}

/// Adds `m` to a set of modules held as a list without repetitions.
pub fn insert_module(imports: &mut Vec<ModuleInfo>, m: ModuleInfo)
    requires
        old(imports)@.no_duplicates(),
    ensures
        final(imports)@.no_duplicates(),
        final(imports)@.to_set() == old(imports)@.to_set().insert(m),
        old(imports)@.contains(m) ==> final(imports)@ == old(imports)@,
        !old(imports)@.contains(m) ==> final(imports)@ == old(imports)@.push(m),
{
    let n = imports.len();
    let mut i: usize = 0;
    while i < n
        invariant
            n == imports@.len(),
            i <= n,
            imports@.no_duplicates(),
            forall|j: int| 0 <= j < i ==> imports@[j] != m,
        decreases n - i,
    {
        if imports[i] == m {
            proof {
                assert(imports@.to_set().insert(m) =~= imports@.to_set());
            }
            return;
        }
        i += 1;
    }
    let ghost before = imports@;
    imports.push(m);
    proof {
        before.lemma_push_to_set_commute(m);
        assert(!before.contains(m));
        assert forall|a: int, b: int| 0 <= a < b < imports@.len() implies imports@[a] != imports@[b] by {
            if b == before.len() {
                assert(before[a] != m);
            }
        }
    }
}

/// Makes an intrinsic module importable in `ast`: adds its private import,
/// and adds the module to the set of modules to load.
pub fn add_intrinsic_module(ast: &mut Ast, imports: &mut Vec<ModuleInfo>, intrinsic_module_info: IntrinsicModuleInfo)
    requires
        old(imports)@.no_duplicates(),
    ensures
        final(ast).module_id == old(ast).module_id,
        final(ast).bindings == old(ast).bindings,
        final(ast).imports@.len() == old(ast).imports@.len() + 1,
        final(ast).imports@.drop_last() == old(ast).imports@,
        is_intrinsic_import(final(ast).imports@.last(),
            ModuleInfo { name: intrinsic_module_info.name, file_path: intrinsic_module_info.file_path }),
        final(imports)@.no_duplicates(),
        final(imports)@.to_set() == old(imports)@.to_set().insert(
            ModuleInfo { name: intrinsic_module_info.name, file_path: intrinsic_module_info.file_path }),
{
    let module_info = ModuleInfo { name: intrinsic_module_info.name, file_path: intrinsic_module_info.file_path };
    let ghost before = ast.imports@;
    ast.imports.push(Import {
        binding_info_id: 0,
        module_id: 0,
        module_info,
        alias: module_info.name,
        target_binding_info: None,
        import_path: Vec::new(),
        visibility: Visibility::Private,
        span: Span::unknown(),
    });
    assert(ast.imports@.drop_last() =~= before);
    insert_module(imports, module_info);
}

} // verus!
