use std::collections::HashMap;
use chili::ast::{Ast, Binding, Import, ImportPathItem, ImportPathNode, ModuleInfo, Pattern, SymbolPattern, Visibility};
use chili::import::{collect_module_exports, expand_and_replace_glob_imports, expand_glob_import, ModuleExports};
use chili::span::Span;

fn sp(start: usize) -> Span {
    Span { file_id: 0, start, end: start + 1 }
}

fn import(module_id: usize, alias: u64, path: Vec<ImportPathNode>, visibility: Visibility, binding: usize) -> Import {
    Import {
        module_id,
        module_info: ModuleInfo { name: 10 + module_id as u64, file_path: 20 + module_id as u64 },
        alias,
        target_binding_info: None,
        import_path: path.into_iter().enumerate().map(|(i, node)| ImportPathItem { node, span: sp(i) }).collect(),
        visibility,
        span: sp(50),
        binding_info_id: binding,
    }
}

fn single(symbol: u64, id: usize, visibility: Visibility) -> Binding {
    Binding {
        visibility,
        pattern: Pattern::Single(SymbolPattern { symbol, binding_info_id: id, span: sp(0), is_mutable: false, ignore: false }),
    }
}

#[test]
fn exports_are_collected_per_module() {
    let asts = vec![
        Ast {
            module_id: 1,
            imports: vec![
                import(2, 100, vec![ImportPathNode::Symbol(100)], Visibility::Public, 7),
                import(2, 101, vec![ImportPathNode::Symbol(101)], Visibility::Private, 8),
            ],
            bindings: vec![
                single(200, 9, Visibility::Public),
                single(201, 10, Visibility::Private),
                Binding { visibility: Visibility::Private, pattern: Pattern::TupleUnpack(vec![]) },
            ],
        },
        Ast { module_id: 2, imports: vec![], bindings: vec![single(300, 11, Visibility::Public)] },
        Ast { module_id: 1, imports: vec![], bindings: vec![single(200, 12, Visibility::Public)] },
    ];
    let mut exports: ModuleExports = HashMap::new();
    collect_module_exports(&asts, &mut exports);
    assert_eq!(exports.len(), 2);
    let m1 = &exports[&1];
    assert_eq!(m1.len(), 2);
    assert_eq!(m1[&100], 7);
    assert_eq!(m1[&200], 12);
    assert!(!m1.contains_key(&101));
    assert!(!m1.contains_key(&201));
    assert_eq!(exports[&2][&300], 11);
}

#[test]
fn modules_without_public_items_get_an_empty_entry() {
    let asts = vec![Ast { module_id: 4, imports: vec![], bindings: vec![single(1, 1, Visibility::Private)] }];
    let mut exports: ModuleExports = HashMap::new();
    collect_module_exports(&asts, &mut exports);
    assert!(exports[&4].is_empty());
}

fn exports_of_module_3() -> ModuleExports {
    let mut inner = HashMap::new();
    inner.insert(400u64, 1usize);
    inner.insert(401u64, 2usize);
    inner.insert(402u64, 3usize);
    let mut exports: ModuleExports = HashMap::new();
    exports.insert(3, inner);
    exports.insert(5, HashMap::new());
    exports
}

#[test]
fn glob_expands_to_every_export() {
    let exports = exports_of_module_3();
    let glob = import(3, 0, vec![ImportPathNode::Symbol(33), ImportPathNode::Glob], Visibility::Public, 77);
    let expanded = expand_glob_import(&glob, &exports);
    assert_eq!(expanded.len(), 3);
    let mut aliases: Vec<u64> = expanded.iter().map(|i| i.alias).collect();
    aliases.sort();
    assert_eq!(aliases, vec![400, 401, 402]);
    for e in &expanded {
        assert_eq!(e.import_path.len(), 2);
        assert_eq!(e.import_path[0], glob.import_path[0]);
        assert_eq!(e.import_path[1], ImportPathItem { node: ImportPathNode::Symbol(e.alias), span: glob.span });
        assert_eq!(e.module_id, 3);
        assert_eq!(e.binding_info_id, 77);
        assert_eq!(e.visibility, Visibility::Public);
        assert!(!e.is_glob());
    }
}

#[test]
fn glob_of_a_module_without_exports_expands_to_nothing() {
    let exports = exports_of_module_3();
    let glob = import(5, 0, vec![ImportPathNode::Glob], Visibility::Private, 1);
    assert!(expand_glob_import(&glob, &exports).is_empty());
}

#[test]
fn globs_are_replaced_by_their_expansions_at_the_end() {
    let exports = exports_of_module_3();
    let mut imports = vec![
        import(3, 0, vec![ImportPathNode::Glob], Visibility::Private, 1),
        import(2, 90, vec![ImportPathNode::Symbol(90)], Visibility::Private, 2),
        import(5, 0, vec![ImportPathNode::Glob], Visibility::Private, 3),
        import(2, 91, vec![ImportPathNode::Symbol(91)], Visibility::Public, 4),
    ];
    assert!(imports[0].is_glob());
    assert!(!imports[1].is_glob());
    expand_and_replace_glob_imports(&mut imports, &exports);
    assert_eq!(imports.len(), 5);
    assert_eq!(imports[0].alias, 90);
    assert_eq!(imports[1].alias, 91);
    let mut aliases: Vec<u64> = imports[2..].iter().map(|i| i.alias).collect();
    aliases.sort();
    assert_eq!(aliases, vec![400, 401, 402]);
    assert!(imports.iter().all(|i| !i.is_glob()));
    assert!(imports[2..].iter().all(|i| i.binding_info_id == 1));
}

#[test]
fn imports_without_globs_stay_as_they_are() {
    let exports = exports_of_module_3();
    let mut imports = vec![import(2, 90, vec![ImportPathNode::Symbol(90)], Visibility::Private, 2)];
    expand_and_replace_glob_imports(&mut imports, &exports);
    assert_eq!(imports.len(), 1);
    assert_eq!(imports[0].alias, 90);
}

#[test]
fn glob_expansion_follows_the_walk_of_the_exports() {
    let exports = exports_of_module_3();
    let walk: Vec<u64> = exports[&3].iter().map(|(symbol, _)| *symbol).collect();
    let glob = import(3, 0, vec![ImportPathNode::Symbol(33), ImportPathNode::Glob], Visibility::Public, 77);
    let aliases: Vec<u64> = expand_glob_import(&glob, &exports).iter().map(|i| i.alias).collect();
    assert_eq!(aliases, walk);
}

#[test]
fn replaced_globs_append_exactly_their_expansions() {
    let exports = exports_of_module_3();
    let first = import(3, 0, vec![ImportPathNode::Glob], Visibility::Private, 1);
    let second = import(3, 0, vec![ImportPathNode::Symbol(8), ImportPathNode::Glob], Visibility::Public, 2);
    let mut expected = vec![import(2, 90, vec![ImportPathNode::Symbol(90)], Visibility::Private, 5)];
    expected.extend(expand_glob_import(&first, &exports));
    expected.extend(expand_glob_import(&second, &exports));
    let mut imports = vec![first, import(2, 90, vec![ImportPathNode::Symbol(90)], Visibility::Private, 5), second];
    expand_and_replace_glob_imports(&mut imports, &exports);
    assert_eq!(imports.len(), expected.len());
    for (got, want) in imports.iter().zip(expected.iter()) {
        assert_eq!(got.alias, want.alias);
        assert_eq!(got.import_path, want.import_path);
        assert_eq!(got.module_id, want.module_id);
        assert_eq!(got.module_info, want.module_info);
        assert_eq!(got.visibility, want.visibility);
        assert_eq!(got.span, want.span);
        assert_eq!(got.binding_info_id, want.binding_info_id);
    }
}
