use vstd::prelude::*;
use std::collections::HashMap;
use vstd::std_specs::iter::IteratorSpec;
use crate::ast::{is_glob, Ast, Binding, Import, ImportPathItem, ImportPathNode, Pattern, Visibility};

verus! {

broadcast use vstd::std_specs::hash::group_hash_axioms;

/// For each module, the names it exports and the binding each one stands for.
pub type ModuleExports = HashMap<usize, HashMap<u64, usize>>;

/// The exports of each module, as maps.
pub open spec fn exports_view(e: Map<usize, HashMap<u64, usize>>) -> Map<usize, Map<u64, usize>> {
    Map::new(|k: usize| e.dom().contains(k), |k: usize| e[k]@)
}

/// `m` with the public imports of `imports` added, later ones replacing
/// earlier ones of the same name.
pub open spec fn add_imports(m: Map<u64, usize>, imports: Seq<Import>) -> Map<u64, usize>
    decreases imports.len(),
{
    if imports.len() == 0 {
        m
    } else {
        let before = add_imports(m, imports.drop_last());
        let i = imports.last();
        if i.visibility == Visibility::Public {
            before.insert(i.alias, i.binding_info_id)
        } else {
            before
        }
    }
}

/// `m` with the public bindings of `bindings` added.
pub open spec fn add_bindings(m: Map<u64, usize>, bindings: Seq<Binding>) -> Map<u64, usize>
    decreases bindings.len(),
{
    if bindings.len() == 0 {
        m
    } else {
        let before = add_bindings(m, bindings.drop_last());
        let b = bindings.last();
        if b.visibility == Visibility::Public {
            match b.pattern {
                Pattern::Single(p) => before.insert(p.symbol, p.binding_info_id),
                _ => before,
            }
        } else {
            before
        }
    }
}

/// The exports of a module after one of its sources is added.
pub open spec fn ast_exports(m: Map<u64, usize>, ast: Ast) -> Map<u64, usize> {
    add_bindings(add_imports(m, ast.imports@), ast.bindings@)
}

/// The exports after the sources of `asts` are added in order.
pub open spec fn collect_exports(e: Map<usize, Map<u64, usize>>, asts: Seq<Ast>) -> Map<usize, Map<u64, usize>>
    decreases asts.len(),
{
    if asts.len() == 0 {
        e
    } else {
        let before = collect_exports(e, asts.drop_last());
        let a = asts.last();
        let m = if before.contains_key(a.module_id) { before[a.module_id] } else { Map::empty() };
        before.insert(a.module_id, ast_exports(m, a))
    }
}

/// Every public binding binds a single name.
pub open spec fn public_bindings_single(asts: Seq<Ast>) -> bool {
    forall|i: int, j: int| 0 <= i < asts.len() && 0 <= j < asts[i].bindings@.len()
        && (#[trigger] asts[i].bindings@[j]).visibility == Visibility::Public ==> asts[i].bindings@[j].pattern is Single
}

/// Records, for the module of each source, the public imports and public
/// bindings it declares.
pub fn collect_module_exports(asts: &Vec<Ast>, exports: &mut ModuleExports)
    requires
        public_bindings_single(asts@),
    ensures
        exports_view(final(exports)@) == collect_exports(exports_view(old(exports)@), asts@),
{
    let ghost start = exports_view(exports@);
    let n = asts.len();
    let mut a: usize = 0;
    while a < n
        invariant
            n == asts@.len(),
            a <= n,
            public_bindings_single(asts@),
            exports_view(exports@) == collect_exports(start, asts@.take(a as int)),
        decreases n - a,
    {
        let ast = &asts[a];
        assert(asts@.take(a + 1).drop_last() =~= asts@.take(a as int));
        let ghost before = exports_view(exports@);
        let mut entry = match exports.remove(&ast.module_id) {
            Some(m) => m,
            None => HashMap::new(),
        };
        let ghost base = if before.contains_key(ast.module_id) { before[ast.module_id] } else { Map::<u64, usize>::empty() };
        assert(entry@ == base);
        let ni = ast.imports.len();
        let mut i: usize = 0;
        while i < ni
            invariant
                ni == ast.imports@.len(),
                i <= ni,
                entry@ == add_imports(base, ast.imports@.take(i as int)),
            decreases ni - i,
        {
            let import = &ast.imports[i];
            assert(ast.imports@.take(i + 1).drop_last() =~= ast.imports@.take(i as int));
            if import.visibility == Visibility::Public {
                entry.insert(import.alias, import.binding_info_id);
            }
            i += 1;
        }
        assert(ast.imports@.take(ni as int) =~= ast.imports@);
        let nb = ast.bindings.len();
        let mut j: usize = 0;
        while j < nb
            invariant
                nb == ast.bindings@.len(),
                j <= nb,
                a < asts@.len(),
                *ast == asts@[a as int],
                public_bindings_single(asts@),
                entry@ == add_bindings(add_imports(base, ast.imports@), ast.bindings@.take(j as int)),
            decreases nb - j,
        {
            let binding = &ast.bindings[j];
            assert(ast.bindings@.take(j + 1).drop_last() =~= ast.bindings@.take(j as int));
            if binding.visibility == Visibility::Public {
                assert(asts@[a as int].bindings@[j as int].pattern is Single);
                match &binding.pattern {
                    Pattern::Single(pat) => {
                        entry.insert(pat.symbol, pat.binding_info_id);
                    },
                    _ => {},
                }
            }
            j += 1;
        }
        assert(ast.bindings@.take(nb as int) =~= ast.bindings@);
        exports.insert(ast.module_id, entry);
        assert(exports_view(exports@) =~= collect_exports(start, asts@.take(a + 1)));
        a += 1;
    }
    assert(asts@.take(n as int) =~= asts@);
}


/// The path of the import of `symbol` that a glob import expands to: the
/// glob's path with `*` replaced by the name, spanned by the import.
pub open spec fn expanded_path(import: Import, symbol: u64) -> Seq<ImportPathItem> {
    let path = import.import_path@;
    (if path.len() > 0 { path.drop_last() } else { path })
        .push(ImportPathItem { node: ImportPathNode::Symbol(symbol), span: import.span })
}

/// `e` is the import of `symbol` that the glob import `import` expands to:
/// everything but its alias and path is the glob's.
pub open spec fn is_expansion_of(e: Import, import: Import, symbol: u64) -> bool {
    &&& e.alias == symbol
    &&& e.import_path@ == expanded_path(import, symbol)
    &&& e.module_id == import.module_id
    &&& e.module_info == import.module_info
    &&& e.target_binding_info == import.target_binding_info
    &&& e.visibility == import.visibility
    &&& e.span == import.span
    &&& e.binding_info_id == import.binding_info_id
}

/// `block` expands the glob import `import` over the names `symbols`: one
/// import for each name, in some order.
pub open spec fn is_glob_expansion(block: Seq<Import>, import: Import, symbols: Set<u64>) -> bool {
    &&& block.len() == symbols.len()
    &&& forall|k: int| 0 <= k < block.len() ==> symbols.contains((#[trigger] block[k]).alias)
        && is_expansion_of(block[k], import, block[k].alias)
    &&& forall|k1: int, k2: int| 0 <= k1 < k2 < block.len() ==> (#[trigger] block[k1]).alias != (#[trigger] block[k2]).alias
    &&& forall|s: u64| #[trigger] symbols.contains(s) ==> exists|k: int| 0 <= k < block.len() && (#[trigger] block[k]).alias == s
}

/// The import of `symbol` that the glob import `import` expands to.
fn expand_one(import: &Import, symbol: u64) -> (e: Import)
    ensures
        is_expansion_of(e, *import, symbol),
{
    let mut import_path: Vec<ImportPathItem> = Vec::new();
    let n = import.import_path.len();
    let keep = if n > 0 { n - 1 } else { 0 };
    let mut i: usize = 0;
    while i < keep
        invariant
            keep <= n,
            n == import.import_path@.len(),
            keep == if n > 0 { n - 1 } else { 0 },
            i <= keep,
            import_path@ == import.import_path@.take(i as int),
        decreases keep - i,
    {
        import_path.push(import.import_path[i]);
        assert(import_path@ =~= import.import_path@.take(i + 1));
        i += 1;
    }
    import_path.push(ImportPathItem { node: ImportPathNode::Symbol(symbol), span: import.span });
    assert(import_path@ =~= expanded_path(*import, symbol));
    Import {
        module_id: import.module_id,
        module_info: import.module_info,
        alias: symbol,
        target_binding_info: import.target_binding_info,
        import_path,
        visibility: import.visibility,
        span: import.span,
        binding_info_id: import.binding_info_id,
    }
}

/// Expands a glob import of a module into one import of each name that the
/// module exports, in the order in which the module's exports are walked.
pub fn expand_glob_import(import: &Import, exports: &ModuleExports) -> (r: Vec<Import>)
    requires
        exports@.contains_key(import.module_id),
    ensures
        is_walk_expansion(r@, *import, export_walk(exports@, import.module_id)),
        export_walk(exports@, import.module_id) == vstd::std_specs::hash::spec_hash_map_iter(
            &exports@[import.module_id],
        ).remaining().map_values(|p: (&u64, &usize)| *p.0),
        is_glob_expansion(r@, *import, exports@[import.module_id]@.dom()),
        forall|k: int| 0 <= k < r@.len() ==> {
            &&& (#[trigger] r@[k]).visibility == import.visibility
            &&& r@[k].module_id == import.module_id
            &&& r@[k].module_info == import.module_info
            &&& r@[k].target_binding_info == import.target_binding_info
            &&& r@[k].span == import.span
            &&& r@[k].binding_info_id == import.binding_info_id
            &&& r@[k].alias == export_walk(exports@, import.module_id)[k]
            &&& import.import_path@.len() > 0 ==> {
                &&& r@[k].import_path@.len() == import.import_path@.len()
                &&& forall|t: int| 0 <= t < import.import_path@.len() - 1
                    ==> r@[k].import_path@[t] == import.import_path@[t]
                &&& r@[k].import_path@.last() == ImportPathItem {
                    node: ImportPathNode::Symbol(r@[k].alias),
                    span: import.span,
                }
            }
        },
{
    let module_exports = match exports.get(&import.module_id) {
        Some(m) => m,
        None => {
            assert(false);
            return Vec::new();
        },
    };
    let ghost m = module_exports@;
    let ghost seen = vstd::std_specs::hash::spec_hash_map_iter(module_exports).remaining();
    let mut result: Vec<Import> = Vec::new();
    for entry in it: module_exports.iter()
        invariant
            it.seq() == seen,
            result@.len() == it.index(),
            forall|k: int| 0 <= k < it.index() ==> is_expansion_of(#[trigger] result@[k], *import, *seen[k].0),
    {
        let (symbol, _) = entry;
        result.push(expand_one(import, *symbol));
    }
    assert(result@.len() == seen.len());
    proof {
        assert(exports@[import.module_id] == *module_exports);
        assert(export_walk(exports@, import.module_id) =~= seen.map_values(|p: (&u64, &usize)| *p.0));
        assert(is_walk_expansion(result@, *import, export_walk(exports@, import.module_id)));
        assert(seen.len() == m.dom().len());
        assert(seen.no_duplicates());
        assert forall|k: int| 0 <= k < result@.len() implies m.dom().contains((#[trigger] result@[k]).alias)
            && is_expansion_of(result@[k], *import, result@[k].alias) by {
            assert(m.contains_key(*seen[k].0));
        }
        assert forall|k1: int, k2: int| 0 <= k1 < k2 < result@.len() implies (#[trigger] result@[k1]).alias
            != (#[trigger] result@[k2]).alias by {
            assert(m.contains_key(*seen[k1].0) && m[*seen[k1].0] == *seen[k1].1);
            assert(m.contains_key(*seen[k2].0) && m[*seen[k2].0] == *seen[k2].1);
            assert(seen[k1] != seen[k2]);
        }
        assert forall|sym: u64| #[trigger] m.dom().contains(sym) implies exists|k: int| 0 <= k < result@.len()
            && (#[trigger] result@[k]).alias == sym by {
            assert(m.contains_key(sym));
            assert(seen.contains((&sym, &m[sym])));
            let k = choose|k: int| 0 <= k < seen.len() && seen[k] == (&sym, &m[sym]);
            assert(result@[k].alias == sym);
        }
    }
    result
}


/// The names that module `module_id` exports, in the order in which its
/// exports' hash map is walked.
pub open spec fn export_walk(e: Map<usize, HashMap<u64, usize>>, module_id: usize) -> Seq<u64> {
    vstd::std_specs::hash::into_iter(vstd::std_specs::hash::spec_hash_map_iter(&e[module_id])).map_values(
        |p: (u64, usize)| p.0,
    )
}

/// `block` expands the glob import `import` over `names`, in that order:
/// its `k`-th import is the import of the `k`-th name.
pub open spec fn is_walk_expansion(block: Seq<Import>, import: Import, names: Seq<u64>) -> bool {
    &&& block.len() == names.len()
    &&& forall|k: int| 0 <= k < block.len() ==> is_expansion_of(#[trigger] block[k], import, names[k])
}

/// The imports of `s` that are not glob imports, in order.
pub open spec fn non_globs(s: Seq<Import>) -> Seq<Import>
    decreases s.len(),
{
    if s.len() == 0 {
        seq![]
    } else if is_glob(s.last()) {
        non_globs(s.drop_last())
    } else {
        non_globs(s.drop_last()).push(s.last())
    }
}

/// The glob imports of `s`, in order.
pub open spec fn globs(s: Seq<Import>) -> Seq<Import>
    decreases s.len(),
{
    if s.len() == 0 {
        seq![]
    } else if is_glob(s.last()) {
        globs(s.drop_last()).push(s.last())
    } else {
        globs(s.drop_last())
    }
}

/// The number of names that the module of a glob import exports.
pub open spec fn export_count(e: Map<usize, HashMap<u64, usize>>, i: Import) -> int {
    export_walk(e, i.module_id).len() as int
}

/// Where the expansion of the `k`-th glob import of `gs` starts among all
/// the expansions.
pub open spec fn expansion_offset(e: Map<usize, HashMap<u64, usize>>, gs: Seq<Import>, k: int) -> int
    decreases k,
{
    if k <= 0 {
        0
    } else {
        expansion_offset(e, gs, k - 1) + export_count(e, gs[k - 1])
    }
}

/// `added` holds, one after another, the expansions of the glob imports
/// `gs`, each the one `expand_glob_import` gives: the imports of its
/// module's exported names, in the order in which they are walked.
pub open spec fn expansions(added: Seq<Import>, gs: Seq<Import>, e: Map<usize, HashMap<u64, usize>>) -> bool {
    &&& added.len() == expansion_offset(e, gs, gs.len() as int)
    &&& forall|k: int| 0 <= k < gs.len() ==> {
        let block = #[trigger] added.subrange(expansion_offset(e, gs, k), expansion_offset(e, gs, k + 1));
        &&& is_walk_expansion(block, gs[k], export_walk(e, gs[k].module_id))
        &&& is_glob_expansion(block, gs[k], e[gs[k].module_id]@.dom())
    }
}

/// `new` is `old` with its glob imports taken out and their expansions
/// added at the end, in the order of the glob imports.
pub open spec fn replaces_globs(old: Seq<Import>, new: Seq<Import>, e: Map<usize, HashMap<u64, usize>>) -> bool {
    let kept = non_globs(old);
    &&& new.take(kept.len() as int) == kept
    &&& new.len() >= kept.len()
    &&& expansions(new.skip(kept.len() as int), globs(old), e)
}

/// `gp` lists the positions of the glob imports of `s`, in increasing order.
pub open spec fn glob_positions(s: Seq<Import>, gp: Seq<usize>) -> bool {
    &&& forall|k: int| 0 <= k < gp.len() ==> #[trigger] gp[k] < s.len() && is_glob(s[gp[k] as int])
    &&& forall|k1: int, k2: int| 0 <= k1 < k2 < gp.len() ==> #[trigger] gp[k1] < #[trigger] gp[k2]
    &&& forall|j: int| 0 <= j < s.len() && #[trigger] is_glob(s[j]) ==> exists|k: int| 0 <= k < gp.len() && gp[k] == j
}

proof fn lemma_offset_prefix(e: Map<usize, HashMap<u64, usize>>, gs: Seq<Import>, gs2: Seq<Import>, k: int)
    requires
        0 <= k <= gs.len(),
        k <= gs2.len(),
        forall|j: int| 0 <= j < k ==> gs[j] == gs2[j],
    ensures
        expansion_offset(e, gs, k) == expansion_offset(e, gs2, k),
    decreases k,
{
    if k > 0 {
        lemma_offset_prefix(e, gs, gs2, k - 1);
    }
}

proof fn lemma_offset_monotone(e: Map<usize, HashMap<u64, usize>>, gs: Seq<Import>, k1: int, k2: int)
    requires
        0 <= k1 <= k2,
    ensures
        expansion_offset(e, gs, k1) <= expansion_offset(e, gs, k2),
    decreases k2,
{
    if k1 < k2 {
        lemma_offset_monotone(e, gs, k1, k2 - 1);
    }
}

/// With no glob import from `c` on, the non-glob imports of `s` are those
/// before `c`, then all of `s` from `c`.
proof fn lemma_non_globs_tail(s: Seq<Import>, c: int)
    requires
        0 <= c <= s.len(),
        forall|j: int| c <= j < s.len() ==> !is_glob(s[j]),
    ensures
        non_globs(s) == non_globs(s.take(c)) + s.skip(c),
    decreases s.len(),
{
    if c == s.len() {
        assert(s.take(c) =~= s);
        assert(s.skip(c) =~= Seq::<Import>::empty());
        assert(non_globs(s) + seq![] =~= non_globs(s));
    } else {
        let d = s.drop_last();
        lemma_non_globs_tail(d, c);
        assert(d.take(c) =~= s.take(c));
        assert(s.skip(c) =~= d.skip(c).push(s.last()));
        assert(non_globs(s) =~= non_globs(s.take(c)) + s.skip(c));
    }
}

/// Adding the expansion of one more glob import keeps the expansions in order.
proof fn lemma_expansions_push(
    added: Seq<Import>,
    gs: Seq<Import>,
    block: Seq<Import>,
    g: Import,
    e: Map<usize, HashMap<u64, usize>>,
)
    requires
        expansions(added, gs, e),
        is_walk_expansion(block, g, export_walk(e, g.module_id)),
        is_glob_expansion(block, g, e[g.module_id]@.dom()),
    ensures
        expansions(added + block, gs.push(g), e),
{
    let gs2 = gs.push(g);
    let all = added + block;
    assert forall|k: int| 0 <= k <= gs.len() implies expansion_offset(e, gs, k) == expansion_offset(e, gs2, k) by {
        lemma_offset_prefix(e, gs, gs2, k);
    }
    assert(expansion_offset(e, gs2, gs2.len() as int) == expansion_offset(e, gs2, gs.len() as int) + export_count(e, g));
    assert forall|k: int| 0 <= k < gs2.len() implies {
        let b = #[trigger] all.subrange(expansion_offset(e, gs2, k), expansion_offset(e, gs2, k + 1));
        &&& is_walk_expansion(b, gs2[k], export_walk(e, gs2[k].module_id))
        &&& is_glob_expansion(b, gs2[k], e[gs2[k].module_id]@.dom())
    } by {
        if k < gs.len() {
            lemma_offset_monotone(e, gs, 0, k);
            lemma_offset_monotone(e, gs, k, k + 1);
            lemma_offset_monotone(e, gs, k + 1, gs.len() as int);
            assert(all.subrange(expansion_offset(e, gs2, k), expansion_offset(e, gs2, k + 1))
                =~= added.subrange(expansion_offset(e, gs, k), expansion_offset(e, gs, k + 1)));
        } else {
            assert(all.subrange(expansion_offset(e, gs2, k), expansion_offset(e, gs2, k + 1)) =~= block);
        }
    }
}

/// The glob positions of a longer prefix: its last import's position is
/// added when it is a glob import.
proof fn lemma_positions_step(s: Seq<Import>, i: int, gp: Seq<usize>)
    requires
        0 <= i < s.len(),
        i <= usize::MAX,
        glob_positions(s.take(i), gp),
    ensures
        is_glob(s[i]) ==> glob_positions(s.take(i + 1), gp.push(i as usize)),
        !is_glob(s[i]) ==> glob_positions(s.take(i + 1), gp),
{
    let prefix = s.take(i);
    let next = s.take(i + 1);
    if is_glob(s[i]) {
        let gp2 = gp.push(i as usize);
        assert forall|j: int| 0 <= j < next.len() && #[trigger] is_glob(next[j]) implies exists|k: int|
            0 <= k < gp2.len() && gp2[k] == j by {
            if j < i {
                assert(prefix[j] == next[j]);
                assert(is_glob(prefix[j]));
                let k = choose|k: int| 0 <= k < gp.len() && gp[k] == j;
                assert(gp2[k] == j);
            } else {
                assert(gp2[gp.len() as int] == j);
            }
        }
        assert forall|k: int| 0 <= k < gp2.len() implies #[trigger] gp2[k] < next.len() && is_glob(next[gp2[k] as int]) by {
            if k < gp.len() {
                assert(gp2[k] == gp[k]);
                assert(prefix[gp[k] as int] == next[gp[k] as int]);
            }
        }
    } else {
        assert forall|j: int| 0 <= j < next.len() && #[trigger] is_glob(next[j]) implies exists|k: int|
            0 <= k < gp.len() && gp[k] == j by {
            assert(prefix[j] == next[j]);
            assert(is_glob(prefix[j]));
        }
        assert forall|k: int| 0 <= k < gp.len() implies #[trigger] gp[k] < next.len() && is_glob(next[gp[k] as int]) by {
            assert(prefix[gp[k] as int] == next[gp[k] as int]);
        }
    }
}

/// Finds the glob imports: their positions, and the imports they expand to.
fn collect_glob_expansions(imports: &Vec<Import>, exports: &ModuleExports) -> (r: (Vec<usize>, Vec<Import>))
    requires
        forall|i: int| 0 <= i < imports@.len() && #[trigger] is_glob(imports@[i])
            ==> exports@.contains_key(imports@[i].module_id),
    ensures
        glob_positions(imports@, r.0@),
        expansions(r.1@, globs(imports@), exports@),
{
    let mut to_remove: Vec<usize> = Vec::new();
    let mut to_add: Vec<Import> = Vec::new();
    let n = imports.len();
    let mut index: usize = 0;
    assert(globs(imports@.take(0)) =~= Seq::<Import>::empty());
    while index < n
        invariant
            n == imports@.len(),
            index <= n,
            forall|i: int| 0 <= i < imports@.len() && #[trigger] is_glob(imports@[i])
                ==> exports@.contains_key(imports@[i].module_id),
            glob_positions(imports@.take(index as int), to_remove@),
            expansions(to_add@, globs(imports@.take(index as int)), exports@),
        decreases n - index,
    {
        let ghost prefix = imports@.take(index as int);
        let ghost next = imports@.take(index + 1);
        assert(next.drop_last() =~= prefix);
        proof {
            lemma_positions_step(imports@, index as int, to_remove@);
        }
        let import = &imports[index];
        if import.is_glob() {
            let ghost before = to_add@;
            let mut expanded = expand_glob_import(import, exports);
            proof {
                lemma_expansions_push(before, globs(prefix), expanded@, *import, exports@);
            }
            to_remove.push(index);
            to_add.append(&mut expanded);
        }
        index += 1;
    }
    assert(imports@.take(n as int) =~= imports@);
    (to_remove, to_add)
}

/// Removing the glob import at position `g`, the first one from `c` on.
proof fn lemma_remove_step(s: Seq<Import>, c: int, g: int)
    requires
        0 <= c <= g < s.len(),
        is_glob(s[g]),
        forall|j: int| c <= j < g ==> !is_glob(#[trigger] s[j]),
    ensures
        (non_globs(s.take(c)) + s.skip(c)).remove(non_globs(s.take(c)).len() + (g - c))
            == non_globs(s.take(g + 1)) + s.skip(g + 1),
        non_globs(s.take(g + 1)).len() == non_globs(s.take(c)).len() + (g - c),
{
    lemma_non_globs_tail(s.take(g), c);
    assert(s.take(g).take(c) =~= s.take(c));
    assert(s.take(g).skip(c) =~= s.subrange(c, g));
    assert(s.take(g + 1).drop_last() =~= s.take(g));
    assert(non_globs(s.take(g + 1)) == non_globs(s.take(g)));
    assert((non_globs(s.take(c)) + s.skip(c)).remove(non_globs(s.take(c)).len() + (g - c))
        =~= non_globs(s.take(g + 1)) + s.skip(g + 1));
}

/// Removes the imports at the given positions, which are those of the glob
/// imports: each is shifted by the number of imports removed before it.
fn remove_positions(imports: &mut Vec<Import>, positions: &Vec<usize>)
    requires
        glob_positions(old(imports)@, positions@),
    ensures
        final(imports)@ == non_globs(old(imports)@),
{
    let ghost s = imports@;
    let nr = positions.len();
    let mut removed: usize = 0;
    assert(imports@ =~= non_globs(s.take(0)) + s.skip(0));
    while removed < nr
        invariant
            nr == positions@.len(),
            removed <= nr,
            glob_positions(s, positions@),
            ({
                let c = if removed == 0 { 0 } else { positions@[removed - 1] + 1 };
                &&& c <= s.len()
                &&& imports@ == non_globs(s.take(c)) + s.skip(c)
                &&& non_globs(s.take(c)).len() == c - removed
            }),
        decreases nr - removed,
    {
        let ghost c = if removed == 0 { 0 } else { positions@[removed - 1] + 1 };
        let index = positions[removed];
        let ghost g = index as int;
        proof {
            assert(g < s.len() && is_glob(s[g]));
            if removed > 0 {
                assert(positions@[removed - 1] < positions@[removed as int]);
            }
            assert forall|j: int| c <= j < g implies !is_glob(#[trigger] s[j]) by {
                if is_glob(s[j]) {
                    let k = choose|k: int| 0 <= k < positions@.len() && positions@[k] == j;
                    if k < removed {
                        if k < removed - 1 {
                            assert(positions@[k] < positions@[removed - 1]);
                        }
                    } else if k > removed {
                        assert(positions@[removed as int] < positions@[k]);
                    }
                }
            }
            lemma_remove_step(s, c, g);
        }
        imports.remove(index - removed);
        removed += 1;
    }
    proof {
        let c = if removed == 0 { 0 } else { positions@[removed - 1] + 1 };
        assert forall|j: int| c <= j < s.len() implies !is_glob(#[trigger] s[j]) by {
            if is_glob(s[j]) {
                let k = choose|k: int| 0 <= k < positions@.len() && positions@[k] == j;
                if k < removed - 1 {
                    assert(positions@[k] < positions@[removed - 1]);
                }
            }
        }
        lemma_non_globs_tail(s, c);
    }
}

/// No glob import is left among the non-glob imports.
proof fn lemma_non_globs_have_no_glob(s: Seq<Import>)
    ensures
        forall|i: int| 0 <= i < non_globs(s).len() ==> !is_glob(#[trigger] non_globs(s)[i]),
    decreases s.len(),
{
    if s.len() > 0 {
        let d = s.drop_last();
        lemma_non_globs_have_no_glob(d);
        assert forall|i: int| 0 <= i < non_globs(s).len() implies !is_glob(#[trigger] non_globs(s)[i]) by {
            if i < non_globs(d).len() {
                assert(non_globs(s)[i] == non_globs(d)[i]);
            }
        }
    }
}

/// Each position below the end of the expansions lies in the expansion of
/// some glob import.
proof fn lemma_offset_block(e: Map<usize, HashMap<u64, usize>>, gs: Seq<Import>, m: int, j: int)
    requires
        0 <= m <= gs.len(),
        0 <= j < expansion_offset(e, gs, m),
    ensures
        exists|k: int| 0 <= k < m && #[trigger] expansion_offset(e, gs, k) <= j < expansion_offset(e, gs, k + 1),
    decreases m,
{
    if j < expansion_offset(e, gs, m - 1) {
        lemma_offset_block(e, gs, m - 1, j);
        let k = choose|k: int| 0 <= k < m - 1 && #[trigger] expansion_offset(e, gs, k) <= j < expansion_offset(e, gs, k + 1);
        assert(0 <= k < m && expansion_offset(e, gs, k) <= j < expansion_offset(e, gs, k + 1));
    } else {
        assert(expansion_offset(e, gs, m - 1) <= j < expansion_offset(e, gs, m));
    }
}

/// `a` and `b` are the same import: equal in every field, the path by its items.
pub open spec fn same_import(a: Import, b: Import) -> bool {
    &&& a.module_id == b.module_id
    &&& a.module_info == b.module_info
    &&& a.alias == b.alias
    &&& a.target_binding_info == b.target_binding_info
    &&& a.import_path@ == b.import_path@
    &&& a.visibility == b.visibility
    &&& a.span == b.span
    &&& a.binding_info_id == b.binding_info_id
}

/// Replacing the glob imports appends, glob by glob, exactly what expanding
/// each glob gives: the `k`-th block of the added imports is, import for
/// import, the expansion `r` that `expand_glob_import` returns for the
/// `k`-th glob import.
pub proof fn law_replace_appends_glob_expansions(
    old: Seq<Import>,
    new: Seq<Import>,
    e: Map<usize, HashMap<u64, usize>>,
    k: int,
    r: Seq<Import>,
)
    requires
        replaces_globs(old, new, e),
        0 <= k < globs(old).len(),
        is_walk_expansion(r, globs(old)[k], export_walk(e, globs(old)[k].module_id)),
    ensures
        ({
            let added = new.skip(non_globs(old).len() as int);
            let block = added.subrange(
                expansion_offset(e, globs(old), k),
                expansion_offset(e, globs(old), k + 1),
            );
            &&& block.len() == r.len()
            &&& forall|j: int| 0 <= j < r.len() ==> same_import(#[trigger] block[j], r[j])
        }),
{
    let gs = globs(old);
    let added = new.skip(non_globs(old).len() as int);
    lemma_offset_monotone(e, gs, 0, k);
    lemma_offset_monotone(e, gs, k, k + 1);
    lemma_offset_monotone(e, gs, k + 1, gs.len() as int);
    let block = added.subrange(expansion_offset(e, gs, k), expansion_offset(e, gs, k + 1));
    assert(is_walk_expansion(block, gs[k], export_walk(e, gs[k].module_id)));
    assert forall|j: int| 0 <= j < r.len() implies same_import(#[trigger] block[j], r[j]) by {
        assert(is_expansion_of(block[j], gs[k], export_walk(e, gs[k].module_id)[j]));
        assert(is_expansion_of(r[j], gs[k], export_walk(e, gs[k].module_id)[j]));
    }
}

/// Every import that replacing the glob imports adds keeps the visibility,
/// the module, the target, the span and the binding of the glob import it
/// expands: a private glob import adds private imports only.
pub proof fn law_replace_keeps_glob_visibility(old: Seq<Import>, new: Seq<Import>, e: Map<usize, HashMap<u64, usize>>)
    requires
        replaces_globs(old, new, e),
    ensures
        forall|k: int, i: int|
            #![trigger new[i], globs(old)[k]]
            0 <= k < globs(old).len() && non_globs(old).len() + expansion_offset(e, globs(old), k) <= i
                < non_globs(old).len() + expansion_offset(e, globs(old), k + 1) ==> {
                &&& new[i].visibility == globs(old)[k].visibility
                &&& new[i].module_id == globs(old)[k].module_id
                &&& new[i].module_info == globs(old)[k].module_info
                &&& new[i].target_binding_info == globs(old)[k].target_binding_info
                &&& new[i].span == globs(old)[k].span
                &&& new[i].binding_info_id == globs(old)[k].binding_info_id
            },
{
    let kept = non_globs(old);
    let gs = globs(old);
    let added = new.skip(kept.len() as int);
    assert forall|k: int, i: int|
        #![trigger new[i], globs(old)[k]]
        0 <= k < gs.len() && kept.len() + expansion_offset(e, gs, k) <= i < kept.len() + expansion_offset(e, gs, k + 1)
        implies {
            &&& new[i].visibility == gs[k].visibility
            &&& new[i].module_id == gs[k].module_id
            &&& new[i].module_info == gs[k].module_info
            &&& new[i].target_binding_info == gs[k].target_binding_info
            &&& new[i].span == gs[k].span
            &&& new[i].binding_info_id == gs[k].binding_info_id
        } by {
        lemma_offset_monotone(e, gs, 0, k);
        lemma_offset_monotone(e, gs, k + 1, gs.len() as int);
        let block = added.subrange(expansion_offset(e, gs, k), expansion_offset(e, gs, k + 1));
        assert(is_walk_expansion(block, gs[k], export_walk(e, gs[k].module_id)));
        let j = i - kept.len() - expansion_offset(e, gs, k);
        assert(block[j] == added[i - kept.len()]);
        assert(added[i - kept.len()] == new[i]);
        assert(is_expansion_of(block[j], gs[k], export_walk(e, gs[k].module_id)[j]));
    }
}

/// After the glob imports are replaced by their expansions, no glob import
/// is left.
pub proof fn law_replace_leaves_no_globs(old: Seq<Import>, new: Seq<Import>, e: Map<usize, HashMap<u64, usize>>)
    requires
        replaces_globs(old, new, e),
    ensures
        forall|i: int| 0 <= i < new.len() ==> !is_glob(#[trigger] new[i]),
{
    let kept = non_globs(old);
    let gs = globs(old);
    let added = new.skip(kept.len() as int);
    lemma_non_globs_have_no_glob(old);
    assert forall|i: int| 0 <= i < new.len() implies !is_glob(#[trigger] new[i]) by {
        if i < kept.len() {
            assert(new.take(kept.len() as int)[i] == kept[i]);
        } else {
            let j = i - kept.len();
            assert(added[j] == new[i]);
            lemma_offset_block(e, gs, gs.len() as int, j);
            let k = choose|k: int| 0 <= k < gs.len() && #[trigger] expansion_offset(e, gs, k) <= j
                < expansion_offset(e, gs, k + 1);
            lemma_offset_monotone(e, gs, 0, k);
            lemma_offset_monotone(e, gs, k + 1, gs.len() as int);
            let block = added.subrange(expansion_offset(e, gs, k), expansion_offset(e, gs, k + 1));
            assert(is_glob_expansion(block, gs[k], e[gs[k].module_id]@.dom()));
            let b = j - expansion_offset(e, gs, k);
            assert(block[b] == added[j]);
            assert(is_expansion_of(block[b], gs[k], block[b].alias));
            assert(new[i].import_path@.last().node == ImportPathNode::Symbol(new[i].alias));
        }
    }
}

/// Adding imports or bindings keeps every name already exported.
proof fn lemma_add_imports_keeps(m: Map<u64, usize>, imports: Seq<Import>)
    ensures
        m.dom().subset_of(add_imports(m, imports).dom()),
    decreases imports.len(),
{
    if imports.len() > 0 {
        lemma_add_imports_keeps(m, imports.drop_last());
    }
}

proof fn lemma_add_bindings_keeps(m: Map<u64, usize>, bindings: Seq<Binding>)
    ensures
        m.dom().subset_of(add_bindings(m, bindings).dom()),
    decreases bindings.len(),
{
    if bindings.len() > 0 {
        lemma_add_bindings_keeps(m, bindings.drop_last());
    }
}

/// Every public import's alias is exported.
proof fn lemma_add_imports_exports(m: Map<u64, usize>, imports: Seq<Import>, i: int)
    requires
        0 <= i < imports.len(),
        imports[i].visibility == Visibility::Public,
    ensures
        add_imports(m, imports).contains_key(imports[i].alias),
    decreases imports.len(),
{
    if i < imports.len() - 1 {
        lemma_add_imports_exports(m, imports.drop_last(), i);
    }
}

/// Every public binding's name is exported.
proof fn lemma_add_bindings_exports(m: Map<u64, usize>, bindings: Seq<Binding>, i: int)
    requires
        0 <= i < bindings.len(),
        bindings[i].visibility == Visibility::Public,
        bindings[i].pattern is Single,
    ensures
        add_bindings(m, bindings).contains_key(bindings[i].pattern->Single_0.symbol),
    decreases bindings.len(),
{
    if i < bindings.len() - 1 {
        lemma_add_bindings_exports(m, bindings.drop_last(), i);
    }
}

/// A source exports `name` publicly: by a public import of that alias, or
/// by a public binding of that single name.
pub open spec fn source_exports(a: Ast, name: u64) -> bool {
    ||| exists|i: int| 0 <= i < a.imports@.len() && (#[trigger] a.imports@[i]).visibility == Visibility::Public
        && a.imports@[i].alias == name
    ||| exists|i: int| 0 <= i < a.bindings@.len() && binds_publicly(#[trigger] a.bindings@[i], name)
}

/// A public binding of the single name `name`.
pub open spec fn binds_publicly(b: Binding, name: u64) -> bool {
    &&& b.visibility == Visibility::Public
    &&& b.pattern is Single
    &&& b.pattern->Single_0.symbol == name
}

/// Some source of module `module_id` exports `name` publicly.
pub open spec fn exported_by(asts: Seq<Ast>, module_id: usize, name: u64) -> bool {
    exists|k: int| 0 <= k < asts.len() && (#[trigger] asts[k]).module_id == module_id && source_exports(asts[k], name)
}

/// Collecting exports keeps every module and name exported before, and
/// makes each module of the sources export every name that one of its
/// sources exports publicly.
pub proof fn law_collect_exports_complete(e: Map<usize, Map<u64, usize>>, asts: Seq<Ast>)
    ensures
        forall|mid: usize, name: u64| e.contains_key(mid) && #[trigger] e[mid].contains_key(name)
            ==> collect_exports(e, asts).contains_key(mid) && collect_exports(e, asts)[mid].contains_key(name),
        forall|mid: usize, name: u64| #[trigger] exported_by(asts, mid, name) ==> collect_exports(e, asts).contains_key(mid)
            && collect_exports(e, asts)[mid].contains_key(name),
    decreases asts.len(),
{
    if asts.len() > 0 {
        let d = asts.drop_last();
        let a = asts.last();
        law_collect_exports_complete(e, d);
        let before = collect_exports(e, d);
        let m = if before.contains_key(a.module_id) { before[a.module_id] } else { Map::empty() };
        lemma_add_imports_keeps(m, a.imports@);
        lemma_add_bindings_keeps(add_imports(m, a.imports@), a.bindings@);
        assert forall|mid: usize, name: u64| #[trigger] exported_by(asts, mid, name) implies collect_exports(e,
            asts).contains_key(mid) && collect_exports(e, asts)[mid].contains_key(name) by {
            let k = choose|k: int| 0 <= k < asts.len() && (#[trigger] asts[k]).module_id == mid
                && source_exports(asts[k], name);
            if k < asts.len() - 1 {
                assert(d[k] == asts[k]);
                assert(exported_by(d, mid, name));
            } else {
                if exists|i: int| 0 <= i < a.imports@.len() && (#[trigger] a.imports@[i]).visibility
                    == Visibility::Public && a.imports@[i].alias == name {
                    let i = choose|i: int| 0 <= i < a.imports@.len() && (#[trigger] a.imports@[i]).visibility
                        == Visibility::Public && a.imports@[i].alias == name;
                    lemma_add_imports_exports(m, a.imports@, i);
                } else {
                    let i = choose|i: int| 0 <= i < a.bindings@.len() && binds_publicly(#[trigger] a.bindings@[i], name);
                    lemma_add_bindings_exports(add_imports(m, a.imports@), a.bindings@, i);
                }
            }
        }
    }
}

/// Takes every glob import out of `imports` and adds, at the end, the
/// imports it expands to, glob after glob.
pub fn expand_and_replace_glob_imports(imports: &mut Vec<Import>, exports: &ModuleExports)
    requires
        forall|i: int| 0 <= i < old(imports)@.len() && #[trigger] is_glob(old(imports)@[i])
            ==> exports@.contains_key(old(imports)@[i].module_id),
    ensures
        replaces_globs(old(imports)@, final(imports)@, exports@),
{
    let ghost s = imports@;
    let (to_remove, mut to_add) = collect_glob_expansions(imports, exports);
    remove_positions(imports, &to_remove);
    let ghost added = to_add@;
    imports.append(&mut to_add);
    proof {
        let kept = non_globs(s);
        assert(imports@.take(kept.len() as int) =~= kept);
        assert(imports@.skip(kept.len() as int) =~= added);
    }
}

} // verus!
