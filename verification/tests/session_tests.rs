use chili::ast::{Ast, ImportPathItem, ModuleInfo, Visibility};
use chili::astgen::{add_intrinsic_module, insert_module, IntrinsicModuleInfo};
use chili::check::{CheckFrame, CheckSess, InitState};
use chili::hir::{BindingInfo, Workspace};
use chili::span::Span;

#[test]
fn init_states() {
    assert!(InitState::Init.is_init());
    assert!(!InitState::Init.is_not_init());
    assert!(InitState::NotInit.is_not_init());
    assert!(!InitState::NotInit.is_init());
}

#[test]
fn frames_go_one_level_deeper() {
    let f = CheckFrame::new(3, 7, Some(2));
    assert_eq!(f.depth, 4);
    assert_eq!(f.loop_depth, 0);
    assert_eq!(f.module_idx, 7);
    assert_eq!(f.expected_return_ty, Some(2));
    assert!(f.self_types.is_empty());
}

#[test]
fn binding_types_are_updated_in_place() {
    let ws = Workspace {
        binding_infos: vec![
            BindingInfo { name: "a".to_string(), ty: 0 },
            BindingInfo { name: "b".to_string(), ty: 0 },
        ],
        module_infos: vec![],
    };
    let mut sess = CheckSess::new(ws);
    assert!(sess.init_scopes.is_empty());
    sess.update_binding_info_ty(1, 5);
    assert_eq!(sess.workspace.binding_infos[1].ty, 5);
    assert_eq!(sess.workspace.binding_infos[1].name, "b");
    assert_eq!(sess.workspace.binding_infos[0].ty, 0);
}

#[test]
fn intrinsic_modules_are_imported_once() {
    let mut ast = Ast { module_id: 3, imports: vec![], bindings: vec![] };
    let mut modules: Vec<ModuleInfo> = vec![];
    let std_module = IntrinsicModuleInfo { name: 1, file_path: 2 };
    add_intrinsic_module(&mut ast, &mut modules, std_module);
    add_intrinsic_module(&mut ast, &mut modules, std_module);
    assert_eq!(ast.imports.len(), 2);
    assert_eq!(modules, vec![ModuleInfo { name: 1, file_path: 2 }]);
    let import = &ast.imports[0];
    assert_eq!(import.alias, 1);
    assert_eq!(import.module_info, ModuleInfo { name: 1, file_path: 2 });
    assert_eq!(import.visibility, Visibility::Private);
    assert_eq!(import.span, Span::unknown());
    assert!(import.import_path.is_empty());
    let _: Vec<ImportPathItem> = vec![];
    insert_module(&mut modules, ModuleInfo { name: 4, file_path: 5 });
    assert_eq!(modules.len(), 2);
}

#[test]
fn spans_merge_from_start_to_end() {
    let a = Span { file_id: 1, start: 3, end: 5 };
    let b = Span { file_id: 2, start: 8, end: 12 };
    assert_eq!(Span::merge(&a, &b), Span { file_id: 1, start: 3, end: 12 });
}

#[test]
fn decimal_text() {
    let mut s = String::from("n=");
    chili::text::push_decimal(&mut s, 0);
    assert_eq!(s, "n=0");
    let mut s = String::new();
    chili::text::push_decimal(&mut s, 1234567890);
    assert_eq!(s, "1234567890");
    let mut s = String::new();
    chili::text::push_spaces(&mut s, 3);
    assert_eq!(s, "   ");
}
