use vstd::prelude::*;
use crate::hir::{Binary, Binding, Builtin, Cache, Control, Function, FunctionKind, Node, Sequence, TyCtx, Workspace};
use crate::text::spaces;

verus! {

/// What `write_indented` writes: the text, after `ind + 1` spaces when it
/// starts a line at a positive indentation.
pub open spec fn indented(s: Seq<char>, ind: int, line_start: bool) -> Seq<char> {
    if line_start && ind > 0 {
        spaces((ind + 1) as nat) + s
    } else {
        s
    }
}

/// An operator with a space on each side.
pub open spec fn spaced(op: Seq<char>) -> Seq<char> {
    " "@ + op + " "@
}

/// The display text of the type with id `ty`.
pub open spec fn ty_text(tcx: TyCtx, ty: usize) -> Seq<char> {
    tcx.types@[ty as int].display@
}

/// The text of the nodes of `s`, each followed by `sep`, except the node at
/// position `total - 1`, which is followed by `last_sep`.
pub open spec fn nodes_text(
    ws: Workspace,
    tcx: TyCtx,
    s: Seq<Node>,
    total: int,
    ind: int,
    line_start: bool,
    sep: Seq<char>,
    last_sep: Seq<char>,
) -> Seq<char>
    decreases s,
{
    if s.len() == 0 {
        seq![]
    } else {
        nodes_text(ws, tcx, s.drop_last(), total, ind, line_start, sep, last_sep)
            + node_text(ws, tcx, s.last(), ind, line_start)
            + (if s.len() < total { sep } else { last_sep })
    }
}

/// The text that printing `node` at indentation `ind` writes.
pub open spec fn node_text(ws: Workspace, tcx: TyCtx, node: Node, ind: int, line_start: bool) -> Seq<char>
    decreases node,
{
    match node {
        Node::Const(c) => indented(c.value@, ind, line_start),
        Node::Binding(b) => binding_text(ws, tcx, b, ind, line_start),
        Node::Id(id) => indented(ws.binding_infos@[id.id as int].name@, ind, line_start),
        Node::Assignment(a) => node_text(ws, tcx, *a.lhs, ind, line_start) + " = "@
            + node_text(ws, tcx, *a.rhs, ind, false),
        Node::MemberAccess(m) => node_text(ws, tcx, *m.value, ind, line_start) + "."@ + m.member@,
        Node::Call(c) => node_text(ws, tcx, *c.callee, ind, line_start) + "("@
            + nodes_text(ws, tcx, c.args@, c.args@.len() as int, ind, false, ", "@, seq![]) + ")"@,
        Node::Cast(c) => node_text(ws, tcx, *c.value, ind, line_start) + " as "@ + ty_text(tcx, c.ty),
        Node::Sequence(s) => sequence_text(ws, tcx, s, ind, line_start),
        Node::Control(c) => control_text(ws, tcx, c, ind, line_start),
        Node::Builtin(b) => builtin_text(ws, tcx, b, ind, line_start),
        Node::Literal(_) => seq![],
    }
}

pub open spec fn binding_text(ws: Workspace, tcx: TyCtx, b: Binding, ind: int, line_start: bool) -> Seq<char>
    decreases b,
{
    indented("let "@, ind, line_start) + b.name@ + " = "@ + node_text(ws, tcx, *b.value, ind, false)
}

/// A sequence: its statements one per line, each but the last ending in `;`;
/// a block is wrapped in braces and indents its statements by two more.
pub open spec fn sequence_text(ws: Workspace, tcx: TyCtx, s: Sequence, ind: int, line_start: bool) -> Seq<char>
    decreases s,
{
    let inner = if s.is_block { ind + 2 } else { ind };
    (if s.is_block { indented("{\n"@, ind, line_start) } else { seq![] })
        + nodes_text(ws, tcx, s.statements@, s.statements@.len() as int, inner, true, ";\n"@, "\n"@)
        + (if s.is_block { indented("}"@, ind, true) } else { seq![] })
}

pub open spec fn control_text(ws: Workspace, tcx: TyCtx, c: Control, ind: int, line_start: bool) -> Seq<char>
    decreases c,
{
    match c {
        Control::If(i) => indented("if "@, ind, line_start) + node_text(ws, tcx, *i.condition, ind, false)
            + node_text(ws, tcx, *i.then_branch, ind, false) + match i.otherwise {
                Some(o) => " else "@ + node_text(ws, tcx, *o, ind, false),
                None => seq![],
            },
        Control::While(w) => indented("while "@, ind, line_start) + node_text(ws, tcx, *w.condition, ind, false)
            + node_text(ws, tcx, *w.body, ind, false),
        Control::Return(r) => indented("return "@, ind, line_start) + node_text(ws, tcx, *r.value, ind, false),
        Control::Break => indented("break"@, ind, line_start),
        Control::Continue => indented("continue"@, ind, line_start),
    }
}

/// The operator text of a binary builtin.
pub open spec fn binary_op(b: Builtin) -> Seq<char> {
    match b {
        Builtin::Add(_) => "+"@,
        Builtin::Sub(_) => "-"@,
        Builtin::Mul(_) => "*"@,
        Builtin::Div(_) => "/"@,
        Builtin::Rem(_) => "%"@,
        Builtin::Shl(_) => "<<"@,
        Builtin::Shr(_) => ">>"@,
        Builtin::And(_) => "&&"@,
        Builtin::Or(_) => "||"@,
        Builtin::Lt(_) => "<"@,
        Builtin::Le(_) => "<="@,
        Builtin::Gt(_) => ">"@,
        Builtin::Ge(_) => ">="@,
        Builtin::Eq(_) => "=="@,
        Builtin::Ne(_) => "!="@,
        Builtin::BitAnd(_) => "&"@,
        Builtin::BitOr(_) => "|"@,
        _ => "^"@,
    }
}

pub open spec fn binary_text(ws: Workspace, tcx: TyCtx, op: Seq<char>, b: Binary, ind: int, line_start: bool) -> Seq<char>
    decreases b,
{
    node_text(ws, tcx, *b.lhs, ind, line_start) + spaced(op) + node_text(ws, tcx, *b.rhs, ind, false)
}

pub open spec fn builtin_text(ws: Workspace, tcx: TyCtx, b: Builtin, ind: int, line_start: bool) -> Seq<char>
    decreases b,
{
    match b {
        Builtin::Not(u) => indented("!"@, ind, line_start) + node_text(ws, tcx, *u.value, ind, false),
        Builtin::Neg(u) => indented("-"@, ind, line_start) + node_text(ws, tcx, *u.value, ind, false),
        Builtin::Ref(u) => indented("&"@, ind, line_start) + node_text(ws, tcx, *u.value, ind, false),
        Builtin::Deref(u) => node_text(ws, tcx, *u.value, ind, line_start) + ".*"@,
        Builtin::Offset(o) => node_text(ws, tcx, *o.value, ind, line_start) + "[offset: "@
            + node_text(ws, tcx, *o.offset, ind, false) + "]"@,
        Builtin::Slice(s) => node_text(ws, tcx, *s.value, ind, line_start) + "["@
            + node_text(ws, tcx, *s.low, ind, false) + ".."@ + node_text(ws, tcx, *s.high, ind, false) + "]"@,
        Builtin::Add(x) => binary_text(ws, tcx, binary_op(b), x, ind, line_start),
        Builtin::Sub(x) => binary_text(ws, tcx, binary_op(b), x, ind, line_start),
        Builtin::Mul(x) => binary_text(ws, tcx, binary_op(b), x, ind, line_start),
        Builtin::Div(x) => binary_text(ws, tcx, binary_op(b), x, ind, line_start),
        Builtin::Rem(x) => binary_text(ws, tcx, binary_op(b), x, ind, line_start),
        Builtin::Shl(x) => binary_text(ws, tcx, binary_op(b), x, ind, line_start),
        Builtin::Shr(x) => binary_text(ws, tcx, binary_op(b), x, ind, line_start),
        Builtin::And(x) => binary_text(ws, tcx, binary_op(b), x, ind, line_start),
        Builtin::Or(x) => binary_text(ws, tcx, binary_op(b), x, ind, line_start),
        Builtin::Lt(x) => binary_text(ws, tcx, binary_op(b), x, ind, line_start),
        Builtin::Le(x) => binary_text(ws, tcx, binary_op(b), x, ind, line_start),
        Builtin::Gt(x) => binary_text(ws, tcx, binary_op(b), x, ind, line_start),
        Builtin::Ge(x) => binary_text(ws, tcx, binary_op(b), x, ind, line_start),
        Builtin::Eq(x) => binary_text(ws, tcx, binary_op(b), x, ind, line_start),
        Builtin::Ne(x) => binary_text(ws, tcx, binary_op(b), x, ind, line_start),
        Builtin::BitAnd(x) => binary_text(ws, tcx, binary_op(b), x, ind, line_start),
        Builtin::BitOr(x) => binary_text(ws, tcx, binary_op(b), x, ind, line_start),
        Builtin::BitXor(x) => binary_text(ws, tcx, binary_op(b), x, ind, line_start),
    }
}

/// A node can be printed at indentation `ind`: it holds no literal, its
/// binding and type ids are in range, and no block nests so deep that the
/// indentation would leave a `u16`.
pub open spec fn printable(ws: Workspace, tcx: TyCtx, node: Node, ind: int) -> bool
    decreases node,
{
    match node {
        Node::Const(_) => true,
        Node::Binding(b) => printable(ws, tcx, *b.value, ind),
        Node::Id(id) => id.id < ws.binding_infos@.len(),
        Node::Assignment(a) => printable(ws, tcx, *a.lhs, ind) && printable(ws, tcx, *a.rhs, ind),
        Node::MemberAccess(m) => printable(ws, tcx, *m.value, ind),
        Node::Call(c) => printable(ws, tcx, *c.callee, ind) && all_printable(ws, tcx, c.args@, ind),
        Node::Cast(c) => printable(ws, tcx, *c.value, ind) && c.ty < tcx.types@.len(),
        Node::Sequence(s) => {
            &&& (s.is_block ==> ind + 2 <= u16::MAX)
            &&& all_printable(ws, tcx, s.statements@, if s.is_block { ind + 2 } else { ind })
        },
        Node::Control(c) => match c {
            Control::If(i) => printable(ws, tcx, *i.condition, ind) && printable(ws, tcx, *i.then_branch, ind)
                && match i.otherwise {
                    Some(o) => printable(ws, tcx, *o, ind),
                    None => true,
                },
            Control::While(w) => printable(ws, tcx, *w.condition, ind) && printable(ws, tcx, *w.body, ind),
            Control::Return(r) => printable(ws, tcx, *r.value, ind),
            _ => true,
        },
        Node::Builtin(b) => match b {
            Builtin::Not(u) => printable(ws, tcx, *u.value, ind),
            Builtin::Neg(u) => printable(ws, tcx, *u.value, ind),
            Builtin::Ref(u) => printable(ws, tcx, *u.value, ind),
            Builtin::Deref(u) => printable(ws, tcx, *u.value, ind),
            Builtin::Offset(o) => printable(ws, tcx, *o.value, ind) && printable(ws, tcx, *o.offset, ind),
            Builtin::Slice(s) => printable(ws, tcx, *s.value, ind) && printable(ws, tcx, *s.low, ind)
                && printable(ws, tcx, *s.high, ind),
            Builtin::Add(x) => printable(ws, tcx, *x.lhs, ind) && printable(ws, tcx, *x.rhs, ind),
            Builtin::Sub(x) => printable(ws, tcx, *x.lhs, ind) && printable(ws, tcx, *x.rhs, ind),
            Builtin::Mul(x) => printable(ws, tcx, *x.lhs, ind) && printable(ws, tcx, *x.rhs, ind),
            Builtin::Div(x) => printable(ws, tcx, *x.lhs, ind) && printable(ws, tcx, *x.rhs, ind),
            Builtin::Rem(x) => printable(ws, tcx, *x.lhs, ind) && printable(ws, tcx, *x.rhs, ind),
            Builtin::Shl(x) => printable(ws, tcx, *x.lhs, ind) && printable(ws, tcx, *x.rhs, ind),
            Builtin::Shr(x) => printable(ws, tcx, *x.lhs, ind) && printable(ws, tcx, *x.rhs, ind),
            Builtin::And(x) => printable(ws, tcx, *x.lhs, ind) && printable(ws, tcx, *x.rhs, ind),
            Builtin::Or(x) => printable(ws, tcx, *x.lhs, ind) && printable(ws, tcx, *x.rhs, ind),
            Builtin::Lt(x) => printable(ws, tcx, *x.lhs, ind) && printable(ws, tcx, *x.rhs, ind),
            Builtin::Le(x) => printable(ws, tcx, *x.lhs, ind) && printable(ws, tcx, *x.rhs, ind),
            Builtin::Gt(x) => printable(ws, tcx, *x.lhs, ind) && printable(ws, tcx, *x.rhs, ind),
            Builtin::Ge(x) => printable(ws, tcx, *x.lhs, ind) && printable(ws, tcx, *x.rhs, ind),
            Builtin::Eq(x) => printable(ws, tcx, *x.lhs, ind) && printable(ws, tcx, *x.rhs, ind),
            Builtin::Ne(x) => printable(ws, tcx, *x.lhs, ind) && printable(ws, tcx, *x.rhs, ind),
            Builtin::BitAnd(x) => printable(ws, tcx, *x.lhs, ind) && printable(ws, tcx, *x.rhs, ind),
            Builtin::BitOr(x) => printable(ws, tcx, *x.lhs, ind) && printable(ws, tcx, *x.rhs, ind),
            Builtin::BitXor(x) => printable(ws, tcx, *x.lhs, ind) && printable(ws, tcx, *x.rhs, ind),
        },
        Node::Literal(_) => false,
    }
}

/// Every node of `s` can be printed at indentation `ind`.
pub open spec fn all_printable(ws: Workspace, tcx: TyCtx, s: Seq<Node>, ind: int) -> bool
    decreases s,
{
    if s.len() == 0 {
        true
    } else {
        all_printable(ws, tcx, s.drop_last(), ind) && printable(ws, tcx, s.last(), ind)
    }
}


/// The texts of the types with the ids in `ps`, separated by `", "`.
pub open spec fn types_text(tcx: TyCtx, ps: Seq<usize>, total: int) -> Seq<char>
    decreases ps.len(),
{
    if ps.len() == 0 {
        seq![]
    } else {
        types_text(tcx, ps.drop_last(), total) + ty_text(tcx, ps.last())
            + (if ps.len() < total { ", "@ } else { seq![] })
    }
}

/// The keyword that opens a function of the given kind.
pub open spec fn function_head(kind: FunctionKind) -> Seq<char> {
    match kind {
        FunctionKind::Orphan { .. } => "fn "@,
        FunctionKind::Extern { lib } => match lib {
            Some(l) => "extern fn \""@ + l@ + "\" "@,
            None => "extern fn "@,
        },
        FunctionKind::Intrinsic(_) => "intrinsic fn "@,
    }
}

/// A function: its head, name, parameter types, return type and, when it has
/// one, its body.
pub open spec fn function_text(ws: Workspace, tcx: TyCtx, f: Function, ind: int, line_start: bool) -> Seq<char> {
    let fty = tcx.types@[f.ty as int].function.unwrap();
    indented(function_head(f.kind), ind, line_start) + f.name@ + "("@
        + types_text(tcx, fty.params@, fty.params@.len() as int) + ") -> "@
        + ty_text(tcx, fty.return_type) + " "@ + match f.kind {
            FunctionKind::Orphan { body } => node_text(ws, tcx, *body.unwrap(), ind, false),
            _ => seq![],
        }
}

/// A function can be printed: its type is a function type whose parameter
/// and return types exist, and a function with a body has its body present
/// and printable.
pub open spec fn function_printable(ws: Workspace, tcx: TyCtx, f: Function, ind: int) -> bool {
    &&& f.ty < tcx.types@.len()
    &&& tcx.types@[f.ty as int].function matches Some(fty) && {
        &&& forall|k: int| 0 <= k < fty.params@.len() ==> #[trigger] fty.params@[k] < tcx.types@.len()
        &&& fty.return_type < tcx.types@.len()
    }
    &&& match f.kind {
        FunctionKind::Orphan { body } => body matches Some(b) && printable(ws, tcx, *b, ind),
        _ => true,
    }
}

/// The number of top-level items of a cache: its bindings, then its functions.
pub open spec fn item_count(c: Cache) -> int {
    (c.bindings@.len() + c.functions@.len()) as int
}

/// The module of the top-level item at position `i`.
pub open spec fn item_module(c: Cache, i: int) -> usize {
    if i < c.bindings@.len() {
        c.bindings@[i].module_id
    } else {
        c.functions@[i - c.bindings@.len()].module_id
    }
}

/// The text of the top-level item at position `i`.
pub open spec fn item_text(ws: Workspace, tcx: TyCtx, c: Cache, i: int, ind: int) -> Seq<char> {
    if i < c.bindings@.len() {
        binding_text(ws, tcx, c.bindings@[i], ind, true)
    } else {
        function_text(ws, tcx, c.functions@[i - c.bindings@.len()], ind, true)
    }
}

/// The comment that opens the items of a module.
pub open spec fn module_comment(ws: Workspace, module_id: usize, ind: int) -> Seq<char> {
    let m = ws.module_infos@[module_id as int];
    indented("// "@ + m.name@ + " ("@ + m.file_path@ + ")\n\n"@, ind, true)
}

/// The comment written before the item at position `i`: present exactly when
/// the item starts a run of items of one module.
pub open spec fn item_header(ws: Workspace, c: Cache, i: int, ind: int) -> Seq<char> {
    if i == 0 || item_module(c, i - 1) != item_module(c, i) {
        module_comment(ws, item_module(c, i), ind)
    } else {
        seq![]
    }
}

/// The text of the first `n` top-level items, each after its header and
/// followed by `";\n\n"`.
pub open spec fn items_text(ws: Workspace, tcx: TyCtx, c: Cache, n: int, ind: int) -> Seq<char>
    decreases n,
{
    if n <= 0 {
        seq![]
    } else {
        items_text(ws, tcx, c, n - 1, ind) + item_header(ws, c, n - 1, ind) + item_text(ws, tcx, c, n - 1, ind)
            + ";\n\n"@
    }
}

/// The text of a whole cache.
pub open spec fn cache_text(ws: Workspace, tcx: TyCtx, c: Cache, ind: int) -> Seq<char> {
    items_text(ws, tcx, c, item_count(c), ind)
}

/// Every top-level item of a cache can be printed: its module exists and it
/// is printable.
pub open spec fn cache_printable(ws: Workspace, tcx: TyCtx, c: Cache, ind: int) -> bool {
    &&& forall|i: int| 0 <= i < item_count(c) ==> #[trigger] item_module(c, i) < ws.module_infos@.len()
    &&& forall|i: int| 0 <= i < c.bindings@.len() ==> printable(ws, tcx, *(#[trigger] c.bindings@[i]).value, ind)
    &&& forall|i: int| 0 <= i < c.functions@.len() ==> function_printable(ws, tcx, #[trigger] c.functions@[i], ind)
}

} // verus!
