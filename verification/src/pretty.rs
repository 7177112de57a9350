use vstd::prelude::*;
use crate::hir::{
    Assignment, Binary, Binding, Builtin, Cache, Call, Cast, Const, Control, Function, FunctionKind, Id,
    MemberAccess, Node, Sequence, TyCtx, Workspace,
};
use crate::pretty_spec::{
    all_printable, binary_text, binding_text, builtin_text, cache_printable, cache_text, control_text,
    function_head, function_printable, function_text, indented, item_count, item_header, item_module,
    item_text, items_text, module_comment, node_text, nodes_text, printable, sequence_text, ty_text,
    types_text,
};
use itertools::Itertools;
use crate::text::push_spaces;

verus! {

/// The step by which a block indents its statements.
pub const INDENT: u16 = 2;

/// Writes HIR as source-like text into `writer`.
pub struct Printer<'a> {
    pub workspace: &'a Workspace,
    pub tycx: &'a TyCtx,
    pub writer: String,
    pub identation: u16,
}

/// `new` is `old` with `text` appended to its output; its indentation and
/// tables are unchanged.
pub open spec fn appended(old_p: Printer, new_p: Printer, text: Seq<char>) -> bool {
    &&& new_p.writer@ == old_p.writer@ + text
    &&& new_p.identation == old_p.identation
    &&& new_p.workspace == old_p.workspace
    &&& new_p.tycx == old_p.tycx
}

/// The text that printing `node` with printer `p` writes.
pub open spec fn text_of(p: Printer, node: Node, line_start: bool) -> Seq<char> {
    node_text(*p.workspace, *p.tycx, node, p.identation as int, line_start)
}

/// `node` can be printed with printer `p`.
pub open spec fn fits(p: Printer, node: Node) -> bool {
    printable(*p.workspace, *p.tycx, node, p.identation as int)
}

/// Each node of an all-printable sequence is printable.
pub proof fn lemma_all_printable_index(ws: Workspace, tcx: TyCtx, s: Seq<Node>, ind: int, k: int)
    requires
        all_printable(ws, tcx, s, ind),
        0 <= k < s.len(),
    ensures
        printable(ws, tcx, s[k], ind),
    decreases s.len(),
{
    if k < s.len() - 1 {
        lemma_all_printable_index(ws, tcx, s.drop_last(), ind, k);
    }
}

/// The text of a prefix one node longer is the shorter prefix's text, then
/// that node's text and separator.
pub proof fn lemma_nodes_text_step(
    ws: Workspace,
    tcx: TyCtx,
    s: Seq<Node>,
    i: int,
    ind: int,
    line_start: bool,
    sep: Seq<char>,
    last_sep: Seq<char>,
)
    requires
        0 <= i < s.len(),
    ensures
        nodes_text(ws, tcx, s.take(i + 1), s.len() as int, ind, line_start, sep, last_sep)
            == nodes_text(ws, tcx, s.take(i), s.len() as int, ind, line_start, sep, last_sep)
            + node_text(ws, tcx, s[i], ind, line_start) + (if i < s.len() - 1 { sep } else { last_sep }),
{
    assert(s.take(i + 1).drop_last() =~= s.take(i));
}

impl<'a> Printer<'a> {
    pub fn new(workspace: &'a Workspace, tycx: &'a TyCtx, writer: String) -> (p: Self)
        ensures
            p.workspace == workspace,
            p.tycx == tycx,
            p.writer@ == writer@,
            p.identation == 0,
    {
        Self { workspace, tycx, writer, identation: 0 }
    }

    pub fn indent(&mut self)
        requires
            old(self).identation + INDENT <= u16::MAX,
        ensures
            final(self).identation == old(self).identation + INDENT,
            final(self).writer == old(self).writer,
            final(self).workspace == old(self).workspace,
            final(self).tycx == old(self).tycx,
    {
        self.identation += INDENT;
    }

    pub fn dedent(&mut self)
        requires
            old(self).identation >= INDENT,
        ensures
            final(self).identation == old(self).identation - INDENT,
            final(self).writer == old(self).writer,
            final(self).workspace == old(self).workspace,
            final(self).tycx == old(self).tycx,
    {
        self.identation -= INDENT;
    }

    pub fn write(&mut self, s: &str)
        ensures
            appended(*old(self), *final(self), s@),
    {
        self.writer.append(s);
    }

    /// Writes `s`, after `identation + 1` spaces when it starts a line at a
    /// positive indentation.
    pub fn write_indented(&mut self, s: &str, is_line_start: bool)
        ensures
            appended(*old(self), *final(self), indented(s@, old(self).identation as int, is_line_start)),
    {
        let ghost w0 = self.writer@;
        if is_line_start && self.identation > 0 {
            let mut pad = String::new();
            push_spaces(&mut pad, self.identation as usize + 1);
            self.write(pad.as_str());
        }
        self.write(s);
        assert(self.writer@ =~= w0 + indented(s@, self.identation as int, is_line_start));
    }

    /// Writes `s` as a line comment.
    pub fn write_comment(&mut self, s: &str, is_line_start: bool)
        ensures
            appended(*old(self), *final(self), indented("// "@ + s@, old(self).identation as int, is_line_start)),
    {
        let mut comment = String::new();
        comment.append("// ");
        comment.append(s);
        self.write_indented(comment.as_str(), is_line_start);
    }
}

impl Node {
    pub fn print(&self, p: &mut Printer, is_line_start: bool)
        requires
            fits(*old(p), *self),
        ensures
            appended(*old(p), *final(p), text_of(*old(p), *self, is_line_start)),
        decreases self,
    {
        match self {
            Node::Const(x) => x.print(p, is_line_start),
            Node::Binding(x) => x.print(p, is_line_start),
            Node::Id(x) => x.print(p, is_line_start),
            Node::Assignment(x) => x.print(p, is_line_start),
            Node::MemberAccess(x) => x.print(p, is_line_start),
            Node::Call(x) => x.print(p, is_line_start),
            Node::Cast(x) => x.print(p, is_line_start),
            Node::Sequence(x) => x.print(p, is_line_start),
            Node::Control(x) => x.print(p, is_line_start),
            Node::Builtin(x) => x.print(p, is_line_start),
            Node::Literal(_) => {},
        }
    }
}

impl Const {
    pub fn print(&self, p: &mut Printer, is_line_start: bool)
        ensures
            appended(*old(p), *final(p), indented(self.value@, old(p).identation as int, is_line_start)),
    {
        p.write_indented(self.value.as_str(), is_line_start);
    }
}

impl Binding {
    pub fn print(&self, p: &mut Printer, is_line_start: bool)
        requires
            fits(*old(p), *self.value),
        ensures
            appended(*old(p), *final(p),
                binding_text(*old(p).workspace, *old(p).tycx, *self, old(p).identation as int, is_line_start)),
        decreases self,
    {
        let ghost w0 = p.writer@;
        p.write_indented("let ", is_line_start);
        p.write(self.name.as_str());
        p.write(" = ");
        self.value.print(p, false);
        assert(p.writer@ =~= w0 + binding_text(*p.workspace, *p.tycx, *self, p.identation as int, is_line_start));
    }
}

impl Id {
    pub fn print(&self, p: &mut Printer, is_line_start: bool)
        requires
            self.id < old(p).workspace.binding_infos@.len(),
        ensures
            appended(*old(p), *final(p), indented(
                old(p).workspace.binding_infos@[self.id as int].name@, old(p).identation as int, is_line_start)),
    {
        let ws = p.workspace;
        p.write_indented(ws.binding_infos[self.id].name.as_str(), is_line_start);
    }
}

impl Assignment {
    pub fn print(&self, p: &mut Printer, is_line_start: bool)
        requires
            fits(*old(p), *self.lhs),
            fits(*old(p), *self.rhs),
        ensures
            appended(*old(p), *final(p), text_of(*old(p), *self.lhs, is_line_start) + " = "@
                + text_of(*old(p), *self.rhs, false)),
        decreases self,
    {
        let ghost old_p = *p;
        self.lhs.print(p, is_line_start);
        p.write(" = ");
        self.rhs.print(p, false);
        assert(p.writer@ =~= old_p.writer@ + (text_of(old_p, *self.lhs, is_line_start) + " = "@
            + text_of(old_p, *self.rhs, false)));
    }
}

impl MemberAccess {
    pub fn print(&self, p: &mut Printer, is_line_start: bool)
        requires
            fits(*old(p), *self.value),
        ensures
            appended(*old(p), *final(p), text_of(*old(p), *self.value, is_line_start) + "."@ + self.member@),
        decreases self,
    {
        let ghost old_p = *p;
        self.value.print(p, is_line_start);
        p.write(".");
        p.write(self.member.as_str());
        assert(p.writer@ =~= old_p.writer@ + (text_of(old_p, *self.value, is_line_start) + "."@ + self.member@));
    }
}

impl Call {
    pub fn print(&self, p: &mut Printer, is_line_start: bool)
        requires
            fits(*old(p), *self.callee),
            all_printable(*old(p).workspace, *old(p).tycx, self.args@, old(p).identation as int),
        ensures
            appended(*old(p), *final(p), text_of(*old(p), *self.callee, is_line_start) + "("@
                + nodes_text(*old(p).workspace, *old(p).tycx, self.args@, self.args@.len() as int,
                    old(p).identation as int, false, ", "@, seq![]) + ")"@),
        decreases self,
    {
        let ghost ws = *p.workspace;
        let ghost tcx = *p.tycx;
        let ghost ind = p.identation as int;
        let ghost old_p = *p;
        self.callee.print(p, is_line_start);
        p.write("(");
        let ghost base = p.writer@;
        let ghost p0 = *p;
        let n = self.args.len();
        let mut index: usize = 0;
        while index < n
            invariant
                n == self.args@.len(),
                index <= n,
                ws == *p.workspace,
                tcx == *p.tycx,
                ind == p.identation as int,
                all_printable(ws, tcx, self.args@, ind),
                appended(p0, *p, nodes_text(ws, tcx, self.args@.take(index as int), n as int, ind, false, ", "@, seq![])),
            decreases n - index,
        {
            proof {
                lemma_all_printable_index(ws, tcx, self.args@, ind, index as int);
                lemma_nodes_text_step(ws, tcx, self.args@, index as int, ind, false, ", "@, seq![]);
            }
            let ghost before = p.writer@;
            self.args[index].print(p, false);
            if index < n - 1 {
                p.write(", ");
            }
            assert(p.writer@ =~= p0.writer@ + (nodes_text(ws, tcx, self.args@.take(index as int), n as int, ind,
                false, ", "@, seq![]) + node_text(ws, tcx, self.args@[index as int], ind, false)
                + (if index < n - 1 { ", "@ } else { seq![] })));
            index += 1;
        }
        assert(self.args@.take(n as int) =~= self.args@);
        p.write(")");
        assert(p.writer@ =~= old_p.writer@ + (text_of(old_p, *self.callee, is_line_start) + "("@
            + nodes_text(ws, tcx, self.args@, self.args@.len() as int, ind, false, ", "@, seq![]) + ")"@));
    }
}

impl Cast {
    pub fn print(&self, p: &mut Printer, is_line_start: bool)
        requires
            fits(*old(p), *self.value),
            self.ty < old(p).tycx.types@.len(),
        ensures
            appended(*old(p), *final(p), text_of(*old(p), *self.value, is_line_start) + " as "@
                + ty_text(*old(p).tycx, self.ty)),
        decreases self,
    {
        let ghost old_p = *p;
        self.value.print(p, is_line_start);
        p.write(" as ");
        let tcx = p.tycx;
        p.write(tcx.types[self.ty].display.as_str());
        assert(p.writer@ =~= old_p.writer@ + (text_of(old_p, *self.value, is_line_start) + " as "@
            + ty_text(*old_p.tycx, self.ty)));
    }
}


impl Sequence {
    pub fn print(&self, p: &mut Printer, is_line_start: bool)
        requires
            self.is_block ==> old(p).identation + INDENT <= u16::MAX,
            all_printable(*old(p).workspace, *old(p).tycx, self.statements@,
                if self.is_block { old(p).identation + INDENT } else { old(p).identation as int }),
        ensures
            appended(*old(p), *final(p),
                sequence_text(*old(p).workspace, *old(p).tycx, *self, old(p).identation as int, is_line_start)),
        decreases self,
    {
        let ghost ws = *p.workspace;
        let ghost tcx = *p.tycx;
        let ghost outer = p.identation as int;
        let ghost start = *p;
        if self.is_block {
            p.write_indented("{\n", is_line_start);
            p.indent();
        }
        let ghost inner = p.identation as int;
        let ghost p0 = *p;
        let n = self.statements.len();
        let mut index: usize = 0;
        while index < n
            invariant
                n == self.statements@.len(),
                index <= n,
                ws == *p.workspace,
                tcx == *p.tycx,
                inner == p.identation as int,
                all_printable(ws, tcx, self.statements@, inner),
                appended(p0, *p, nodes_text(ws, tcx, self.statements@.take(index as int), n as int, inner, true,
                    ";\n"@, "\n"@)),
            decreases n - index,
        {
            proof {
                lemma_all_printable_index(ws, tcx, self.statements@, inner, index as int);
                lemma_nodes_text_step(ws, tcx, self.statements@, index as int, inner, true, ";\n"@, "\n"@);
            }
            self.statements[index].print(p, true);
            if index < n - 1 {
                p.write(";\n");
            } else {
                p.write("\n");
            }
            assert(p.writer@ =~= p0.writer@ + (nodes_text(ws, tcx, self.statements@.take(index as int), n as int,
                inner, true, ";\n"@, "\n"@) + node_text(ws, tcx, self.statements@[index as int], inner, true)
                + (if index < n - 1 { ";\n"@ } else { "\n"@ })));
            index += 1;
        }
        assert(self.statements@.take(n as int) =~= self.statements@);
        let ghost mid = p.writer@;
        if self.is_block {
            p.dedent();
            p.write_indented("}", true);
        }
        assert(p.writer@ =~= start.writer@
            + sequence_text(ws, tcx, *self, outer, is_line_start));
    }
}

impl Control {
    pub fn print(&self, p: &mut Printer, is_line_start: bool)
        requires
            fits(*old(p), Node::Control(*self)),
        ensures
            appended(*old(p), *final(p),
                control_text(*old(p).workspace, *old(p).tycx, *self, old(p).identation as int, is_line_start)),
        decreases self,
    {
        let ghost old_p = *p;
        let ghost ws = *p.workspace;
        let ghost tcx = *p.tycx;
        let ghost ind = p.identation as int;
        match self {
            Control::If(if_) => {
                p.write_indented("if ", is_line_start);
                if_.condition.print(p, false);
                if_.then_branch.print(p, false);
                if let Some(otherwise) = &if_.otherwise {
                    p.write(" else ");
                    otherwise.print(p, false);
                }
                assert(p.writer@ =~= old_p.writer@ + control_text(ws, tcx, *self, ind, is_line_start));
            },
            Control::While(while_) => {
                p.write_indented("while ", is_line_start);
                while_.condition.print(p, false);
                while_.body.print(p, false);
                assert(p.writer@ =~= old_p.writer@ + control_text(ws, tcx, *self, ind, is_line_start));
            },
            Control::Return(return_) => {
                p.write_indented("return ", is_line_start);
                return_.value.print(p, false);
                assert(p.writer@ =~= old_p.writer@ + control_text(ws, tcx, *self, ind, is_line_start));
            },
            Control::Break => p.write_indented("break", is_line_start),
            Control::Continue => p.write_indented("continue", is_line_start),
        }
    }
}

/// Prints a binary builtin: its operands with the operator between them.
fn write_binary(op: &str, binary: &Binary, p: &mut Printer, is_line_start: bool)
    requires
        fits(*old(p), *binary.lhs),
        fits(*old(p), *binary.rhs),
    ensures
        appended(*old(p), *final(p),
            binary_text(*old(p).workspace, *old(p).tycx, op@, *binary, old(p).identation as int, is_line_start)),
    decreases binary,
{
    let ghost old_p = *p;
    binary.lhs.print(p, is_line_start);
    p.write(" ");
    p.write(op);
    p.write(" ");
    binary.rhs.print(p, false);
    assert(p.writer@ =~= old_p.writer@ + binary_text(*old_p.workspace, *old_p.tycx, op@, *binary,
        old_p.identation as int, is_line_start));
}

impl Builtin {
    pub fn print(&self, p: &mut Printer, is_line_start: bool)
        requires
            fits(*old(p), Node::Builtin(*self)),
        ensures
            appended(*old(p), *final(p),
                builtin_text(*old(p).workspace, *old(p).tycx, *self, old(p).identation as int, is_line_start)),
        decreases self,
    {
        let ghost old_p = *p;
        let ghost ws = *p.workspace;
        let ghost tcx = *p.tycx;
        let ghost ind = p.identation as int;
        match self {
            Builtin::Add(binary) => write_binary("+", binary, p, is_line_start),
            Builtin::Sub(binary) => write_binary("-", binary, p, is_line_start),
            Builtin::Mul(binary) => write_binary("*", binary, p, is_line_start),
            Builtin::Div(binary) => write_binary("/", binary, p, is_line_start),
            Builtin::Rem(binary) => write_binary("%", binary, p, is_line_start),
            Builtin::Shl(binary) => write_binary("<<", binary, p, is_line_start),
            Builtin::Shr(binary) => write_binary(">>", binary, p, is_line_start),
            Builtin::And(binary) => write_binary("&&", binary, p, is_line_start),
            Builtin::Or(binary) => write_binary("||", binary, p, is_line_start),
            Builtin::Lt(binary) => write_binary("<", binary, p, is_line_start),
            Builtin::Le(binary) => write_binary("<=", binary, p, is_line_start),
            Builtin::Gt(binary) => write_binary(">", binary, p, is_line_start),
            Builtin::Ge(binary) => write_binary(">=", binary, p, is_line_start),
            Builtin::Eq(binary) => write_binary("==", binary, p, is_line_start),
            Builtin::Ne(binary) => write_binary("!=", binary, p, is_line_start),
            Builtin::BitAnd(binary) => write_binary("&", binary, p, is_line_start),
            Builtin::BitOr(binary) => write_binary("|", binary, p, is_line_start),
            Builtin::BitXor(binary) => write_binary("^", binary, p, is_line_start),
            Builtin::Not(unary) => {
                p.write_indented("!", is_line_start);
                unary.value.print(p, false);

                assert(p.writer@ =~= old_p.writer@ + builtin_text(ws, tcx, *self, ind, is_line_start));
            },
            Builtin::Neg(unary) => {
                p.write_indented("-", is_line_start);
                unary.value.print(p, false);

                assert(p.writer@ =~= old_p.writer@ + builtin_text(ws, tcx, *self, ind, is_line_start));
            },
            Builtin::Ref(unary) => {
                p.write_indented("&", is_line_start);
                unary.value.print(p, false);

                assert(p.writer@ =~= old_p.writer@ + builtin_text(ws, tcx, *self, ind, is_line_start));
            },
            Builtin::Deref(unary) => {
                unary.value.print(p, is_line_start);
                p.write(".*");

                assert(p.writer@ =~= old_p.writer@ + builtin_text(ws, tcx, *self, ind, is_line_start));
            },
            Builtin::Offset(offset) => {
                offset.value.print(p, is_line_start);
                p.write("[offset: ");
                offset.offset.print(p, false);
                p.write("]");

                assert(p.writer@ =~= old_p.writer@ + builtin_text(ws, tcx, *self, ind, is_line_start));
            },
            Builtin::Slice(slice) => {
                slice.value.print(p, is_line_start);
                p.write("[");
                slice.low.print(p, false);
                p.write("..");
                slice.high.print(p, false);
                p.write("]");

                assert(p.writer@ =~= old_p.writer@ + builtin_text(ws, tcx, *self, ind, is_line_start));
            },
        }
    }
}


impl Function {
    pub fn print(&self, p: &mut Printer, is_line_start: bool)
        requires
            function_printable(*old(p).workspace, *old(p).tycx, *self, old(p).identation as int),
        ensures
            appended(*old(p), *final(p),
                function_text(*old(p).workspace, *old(p).tycx, *self, old(p).identation as int, is_line_start)),
    {
        let ghost old_p = *p;
        let ghost ws = *p.workspace;
        let ghost tcx_v = *p.tycx;
        let ghost ind = p.identation as int;
        match &self.kind {
            FunctionKind::Orphan { .. } => p.write_indented("fn ", is_line_start),
            FunctionKind::Extern { lib } => {
                if let Some(lib) = lib {
                    let mut head = String::new();
                    head.append("extern fn \"");
                    head.append(lib.as_str());
                    head.append("\" ");
                    p.write_indented(head.as_str(), is_line_start);
                } else {
                    p.write_indented("extern fn ", is_line_start);
                }
            },
            FunctionKind::Intrinsic(_) => p.write_indented("intrinsic fn ", is_line_start),
        }
        let ghost w_head = p.writer@;
        assert(w_head == old_p.writer@ + indented(function_head(self.kind), ind, is_line_start));
        p.write(self.name.as_str());
        let tcx = p.tycx;
        let function_type = match &tcx.types[self.ty].function {
            Some(f) => f,
            None => {
                assert(false);
                return;
            },
        };
        p.write("(");
        let ghost w_open = p.writer@;
        let n = function_type.params.len();
        let mut index: usize = 0;
        while index < n
            invariant
                n == function_type.params@.len(),
                index <= n,
                tcx_v == *tcx,
                tcx_v == *p.tycx,
                ws == *p.workspace,
                ind == p.identation as int,
                forall|k: int| 0 <= k < n ==> #[trigger] function_type.params@[k] < tcx_v.types@.len(),
                p.writer@ == w_open + types_text(tcx_v, function_type.params@.take(index as int), n as int),
            decreases n - index,
        {
            let param = function_type.params[index];
            p.write(tcx.types[param].display.as_str());
            if index < n - 1 {
                p.write(", ");
            }
            assert(function_type.params@.take(index + 1).drop_last() =~= function_type.params@.take(index as int));
            assert(p.writer@ =~= w_open + types_text(tcx_v, function_type.params@.take(index + 1), n as int));
            index += 1;
        }
        assert(function_type.params@.take(n as int) =~= function_type.params@);
        p.write(") -> ");
        p.write(tcx.types[function_type.return_type].display.as_str());
        p.write(" ");
        match &self.kind {
            FunctionKind::Orphan { body } => match body {
                Some(b) => b.print(p, false),
                None => assert(false),
            },
            FunctionKind::Extern { .. } | FunctionKind::Intrinsic(..) => (),
        }
        assert(p.writer@ =~= old_p.writer@ + function_text(ws, tcx_v, *self, ind, is_line_start));
    }
}

/// The keys that a run-length encoding stands for: each run's key, repeated
/// as many times as the run's length.
pub open spec fn expand_runs(runs: Seq<(usize, usize)>) -> Seq<usize>
    decreases runs.len(),
{
    if runs.len() == 0 {
        seq![]
    } else {
        expand_runs(runs.drop_last()) + Seq::new(runs.last().1 as nat, |_i: int| runs.last().0)
    }
}

/// `runs` is the run-length encoding of `keys`: it expands to `keys`, every
/// run is nonempty, and neighbouring runs have different keys.
pub open spec fn is_run_encoding(keys: Seq<usize>, runs: Seq<(usize, usize)>) -> bool {
    &&& expand_runs(runs) == keys
    &&& forall|i: int| 0 <= i < runs.len() ==> (#[trigger] runs[i]).1 > 0
    &&& forall|i: int| 0 < i < runs.len() ==> runs[i - 1].0 != (#[trigger] runs[i]).0
}

/// Splits the runs of `keys` into maximal groups of equal consecutive keys,
/// as itertools' `group_by` does, and returns each group's key and length.
/// Its contract states what `group_by` documents: the groups are the runs of
/// consecutive equal keys, in order.
#[verifier::external_body]
fn group_runs(keys: &Vec<usize>) -> (runs: Vec<(usize, usize)>)
    ensures
        is_run_encoding(keys@, runs@),
{
    keys.iter().group_by(|k| **k).into_iter().map(|(k, group)| (k, group.count())).collect()
}

/// Expanding runs splits at any run boundary.
pub proof fn lemma_expand_runs_split(runs: Seq<(usize, usize)>, m: int)
    requires
        0 <= m <= runs.len(),
    ensures
        expand_runs(runs) == expand_runs(runs.take(m)) + expand_runs(runs.skip(m)),
    decreases runs.len(),
{
    if m == runs.len() {
        assert(runs.take(m) =~= runs);
        assert(runs.skip(m) =~= Seq::<(usize, usize)>::empty());
        assert(expand_runs(runs) + seq![] =~= expand_runs(runs));
    } else {
        let d = runs.drop_last();
        lemma_expand_runs_split(d, m);
        assert(d.take(m) =~= runs.take(m));
        assert(runs.skip(m).drop_last() =~= d.skip(m));
        assert(runs.skip(m).last() == runs.last());
        let rep = Seq::new(runs.last().1 as nat, |_i: int| runs.last().0);
        assert(expand_runs(runs.skip(m)) == expand_runs(d.skip(m)) + rep);
        assert(expand_runs(runs) =~= expand_runs(runs.take(m)) + expand_runs(runs.skip(m)));
    }
}

/// Expanding one run more appends that run's keys.
pub proof fn lemma_expand_runs_step(runs: Seq<(usize, usize)>, i: int)
    requires
        0 <= i < runs.len(),
    ensures
        expand_runs(runs.take(i + 1)) == expand_runs(runs.take(i))
            + Seq::new(runs[i].1 as nat, |_k: int| runs[i].0),
{
    assert(runs.take(i + 1).drop_last() =~= runs.take(i));
}

impl Cache {
    /// Prints the top-level item at position `item`: a binding, or past the
    /// bindings a function.
    fn print_item(&self, p: &mut Printer, item: usize)
        requires
            item < item_count(*self),
            cache_printable(*old(p).workspace, *old(p).tycx, *self, old(p).identation as int),
        ensures
            appended(*old(p), *final(p),
                item_text(*old(p).workspace, *old(p).tycx, *self, item as int, old(p).identation as int)),
    {
        if item < self.bindings.len() {
            self.bindings[item].print(p, true);
        } else {
            self.functions[item - self.bindings.len()].print(p, true);
        }
    }

    /// Prints every binding and function; before each maximal run of items
    /// of one module stands a comment that names the module.
    pub fn print(&self, p: &mut Printer, is_line_start: bool)
        requires
            cache_printable(*old(p).workspace, *old(p).tycx, *self, old(p).identation as int),
        ensures
            appended(*old(p), *final(p), cache_text(*old(p).workspace, *old(p).tycx, *self, old(p).identation as int)),
    {
        let ghost ws = *p.workspace;
        let ghost tcx = *p.tycx;
        let ghost ind = p.identation as int;
        let ghost p0 = *p;
        let nb = self.bindings.len();
        let nf = self.functions.len();
        let mut keys: Vec<usize> = Vec::new();
        let mut i: usize = 0;
        while i < nb
            invariant
                nb == self.bindings@.len(),
                i <= nb,
                keys@ =~= Seq::new(i as nat, |k: int| item_module(*self, k)),
            decreases nb - i,
        {
            keys.push(self.bindings[i].module_id);
            i += 1;
        }
        let mut j: usize = 0;
        while j < nf
            invariant
                nb == self.bindings@.len(),
                nf == self.functions@.len(),
                j <= nf,
                keys@ =~= Seq::new((nb + j) as nat, |k: int| item_module(*self, k)),
            decreases nf - j,
        {
            keys.push(self.functions[j].module_id);
            j += 1;
        }
        let ghost total = item_count(*self);
        assert(keys@.len() == total);
        let runs = group_runs(&keys);
        let mut pos: usize = 0;
        let mut ri: usize = 0;
        while ri < runs.len()
            invariant
                nb == self.bindings@.len(),
                nf == self.functions@.len(),
                keys@.len() == total,
                total == nb + nf,
                forall|k: int| 0 <= k < total ==> keys@[k] == #[trigger] item_module(*self, k),
                is_run_encoding(keys@, runs@),
                ri <= runs@.len(),
                pos == expand_runs(runs@.take(ri as int)).len(),
                ws == *p.workspace,
                tcx == *p.tycx,
                ind == p.identation as int,
                cache_printable(ws, tcx, *self, ind),
                appended(p0, *p, items_text(ws, tcx, *self, pos as int, ind)),
            decreases runs@.len() - ri,
        {
            let ghost done = expand_runs(runs@.take(ri as int));
            proof {
                lemma_expand_runs_split(runs@, ri as int);
                lemma_expand_runs_split(runs@.skip(ri as int), 1);
                let t = runs@.skip(ri as int).take(1);
                assert(t.drop_last() =~= Seq::<(usize, usize)>::empty());
                assert(expand_runs(t.drop_last()) == Seq::<usize>::empty());
                assert(t.last() == runs@[ri as int]);
                assert(expand_runs(t) =~= Seq::new(runs@[ri as int].1 as nat, |_k: int| runs@[ri as int].0));
                lemma_expand_runs_step(runs@, ri as int);
                if ri > 0 {
                    lemma_expand_runs_step(runs@, ri - 1);
                    assert(runs@[ri - 1].1 > 0);
                }
            }
            let (module_id, count) = runs[ri];
            let ghost rest = expand_runs(runs@.skip(ri as int).skip(1));
            assert(keys@ =~= done + Seq::new(count as nat, |_k: int| module_id) + rest);
            assert(count > 0);
            assert(pos + count <= total);
            assert(keys@[pos as int] == module_id);
            assert(item_module(*self, pos as int) == module_id);
            assert(keys@.subrange(pos as int, pos + count) =~= Seq::new(count as nat, |_k: int| module_id));
            assert(pos > 0 ==> keys@[pos - 1] != module_id);
            assert(ri == 0 ==> pos == 0);
            assert(ri > 0 ==> pos > 0);
            let ghost w_run = p.writer@;
            let wsr = p.workspace;
            let module_info = &wsr.module_infos[module_id];
            let mut comment = String::new();
            comment.append(module_info.name.as_str());
            comment.append(" (");
            comment.append(module_info.file_path.as_str());
            comment.append(")\n\n");
            p.write_comment(comment.as_str(), true);
            assert(p.writer@ =~= w_run + module_comment(ws, module_id, ind));
            let mut c: usize = 0;
            while c < count
                invariant
                    nb == self.bindings@.len(),
                    nf == self.functions@.len(),
                    total == nb + nf,
                    pos + count <= total,
                    keys@.len() == total,
                    c <= count,
                    forall|k: int| 0 <= k < total ==> keys@[k] == #[trigger] item_module(*self, k),
                    keys@.subrange(pos as int, pos + count) == Seq::new(count as nat, |_k: int| module_id),
                    pos > 0 ==> keys@[pos - 1] != module_id,
                    module_id < ws.module_infos@.len(),
                    w_run == p0.writer@ + items_text(ws, tcx, *self, pos as int, ind),
                    ws == *p.workspace,
                    tcx == *p.tycx,
                    ind == p.identation as int,
                    cache_printable(ws, tcx, *self, ind),
                    c == 0 ==> p.writer@ == w_run + module_comment(ws, module_id, ind),
                    c > 0 ==> p.writer@ == p0.writer@ + items_text(ws, tcx, *self, pos + c, ind),
                    p0.workspace == p.workspace,
                    p0.tycx == p.tycx,
                    p0.identation == p.identation,
                decreases count - c,
            {
                let item = pos + c;
                let ghost before = p.writer@;
                assert(keys@.subrange(pos as int, pos + count)[c as int] == module_id);
                assert(item_module(*self, item as int) == module_id);
                if c == 0 {
                    assert(item_header(ws, *self, item as int, ind) == module_comment(ws, module_id, ind));
                } else {
                    assert(keys@.subrange(pos as int, pos + count)[c - 1] == module_id);
                    assert(keys@[item - 1] == module_id);
                    assert(item_header(ws, *self, item as int, ind) == Seq::<char>::empty());
                }
                self.print_item(p, item);
                p.write(";\n\n");
                assert(p.writer@ =~= p0.writer@ + items_text(ws, tcx, *self, item + 1, ind));
                c += 1;
            }
            assert(pos + count <= keys.len());
            pos = pos + count;
            ri += 1;
        }
        proof {
            assert(runs@.take(runs@.len() as int) =~= runs@);
        }
        assert(pos == total);
    }
}

impl Node {
    /// Whether this node can be printed at indentation `ind`.
    pub fn can_print(&self, ws: &Workspace, tcx: &TyCtx, ind: u16) -> (b: bool)
        ensures
            b == printable(*ws, *tcx, *self, ind as int),
        decreases self,
    {
        match self {
            Node::Const(_) => true,
            Node::Binding(b) => b.value.can_print(ws, tcx, ind),
            Node::Id(id) => id.id < ws.binding_infos.len(),
            Node::Assignment(a) => a.lhs.can_print(ws, tcx, ind) && a.rhs.can_print(ws, tcx, ind),
            Node::MemberAccess(m) => m.value.can_print(ws, tcx, ind),
            Node::Call(c) => c.callee.can_print(ws, tcx, ind) && all_can_print(&c.args, ws, tcx, ind),
            Node::Cast(c) => c.value.can_print(ws, tcx, ind) && c.ty < tcx.types.len(),
            Node::Sequence(s) => {
                if s.is_block {
                    if ind > u16::MAX - INDENT {
                        false
                    } else {
                        all_can_print(&s.statements, ws, tcx, ind + INDENT)
                    }
                } else {
                    all_can_print(&s.statements, ws, tcx, ind)
                }
            },
            Node::Control(c) => match c {
                Control::If(i) => i.condition.can_print(ws, tcx, ind) && i.then_branch.can_print(ws, tcx, ind)
                    && match &i.otherwise {
                    Some(o) => o.can_print(ws, tcx, ind),
                    None => true,
                },
                Control::While(w) => w.condition.can_print(ws, tcx, ind) && w.body.can_print(ws, tcx, ind),
                Control::Return(r) => r.value.can_print(ws, tcx, ind),
                _ => true,
            },
            Node::Builtin(b) => match b {
                Builtin::Not(u) => u.value.can_print(ws, tcx, ind),
                Builtin::Neg(u) => u.value.can_print(ws, tcx, ind),
                Builtin::Ref(u) => u.value.can_print(ws, tcx, ind),
                Builtin::Deref(u) => u.value.can_print(ws, tcx, ind),
                Builtin::Offset(o) => o.value.can_print(ws, tcx, ind) && o.offset.can_print(ws, tcx, ind),
                Builtin::Slice(x) => x.value.can_print(ws, tcx, ind) && x.low.can_print(ws, tcx, ind)
                    && x.high.can_print(ws, tcx, ind),
                Builtin::Add(x) => x.lhs.can_print(ws, tcx, ind) && x.rhs.can_print(ws, tcx, ind),
                Builtin::Sub(x) => x.lhs.can_print(ws, tcx, ind) && x.rhs.can_print(ws, tcx, ind),
                Builtin::Mul(x) => x.lhs.can_print(ws, tcx, ind) && x.rhs.can_print(ws, tcx, ind),
                Builtin::Div(x) => x.lhs.can_print(ws, tcx, ind) && x.rhs.can_print(ws, tcx, ind),
                Builtin::Rem(x) => x.lhs.can_print(ws, tcx, ind) && x.rhs.can_print(ws, tcx, ind),
                Builtin::Shl(x) => x.lhs.can_print(ws, tcx, ind) && x.rhs.can_print(ws, tcx, ind),
                Builtin::Shr(x) => x.lhs.can_print(ws, tcx, ind) && x.rhs.can_print(ws, tcx, ind),
                Builtin::And(x) => x.lhs.can_print(ws, tcx, ind) && x.rhs.can_print(ws, tcx, ind),
                Builtin::Or(x) => x.lhs.can_print(ws, tcx, ind) && x.rhs.can_print(ws, tcx, ind),
                Builtin::Lt(x) => x.lhs.can_print(ws, tcx, ind) && x.rhs.can_print(ws, tcx, ind),
                Builtin::Le(x) => x.lhs.can_print(ws, tcx, ind) && x.rhs.can_print(ws, tcx, ind),
                Builtin::Gt(x) => x.lhs.can_print(ws, tcx, ind) && x.rhs.can_print(ws, tcx, ind),
                Builtin::Ge(x) => x.lhs.can_print(ws, tcx, ind) && x.rhs.can_print(ws, tcx, ind),
                Builtin::Eq(x) => x.lhs.can_print(ws, tcx, ind) && x.rhs.can_print(ws, tcx, ind),
                Builtin::Ne(x) => x.lhs.can_print(ws, tcx, ind) && x.rhs.can_print(ws, tcx, ind),
                Builtin::BitAnd(x) => x.lhs.can_print(ws, tcx, ind) && x.rhs.can_print(ws, tcx, ind),
                Builtin::BitOr(x) => x.lhs.can_print(ws, tcx, ind) && x.rhs.can_print(ws, tcx, ind),
                Builtin::BitXor(x) => x.lhs.can_print(ws, tcx, ind) && x.rhs.can_print(ws, tcx, ind),
            },
            Node::Literal(_) => false,
        }
    }
}

/// Whether every node of `nodes` can be printed at indentation `ind`.
pub fn all_can_print(nodes: &Vec<Node>, ws: &Workspace, tcx: &TyCtx, ind: u16) -> (b: bool)
    ensures
        b == all_printable(*ws, *tcx, nodes@, ind as int),
    decreases nodes,
{
    let n = nodes.len();
    let mut i: usize = 0;
    while i < n
        invariant
            n == nodes@.len(),
            i <= n,
            all_printable(*ws, *tcx, nodes@.take(i as int), ind as int),
        decreases n - i,
    {
        assert(nodes@.take(i + 1).drop_last() =~= nodes@.take(i as int));
        if !nodes[i].can_print(ws, tcx, ind) {
            proof {
                lemma_not_all_printable(*ws, *tcx, nodes@, ind as int, i as int);
            }
            return false;
        }
        i += 1;
    }
    assert(nodes@.take(n as int) =~= nodes@);
    true
}

/// A sequence with a node that cannot be printed is not all printable.
proof fn lemma_not_all_printable(ws: Workspace, tcx: TyCtx, s: Seq<Node>, ind: int, k: int)
    requires
        0 <= k < s.len(),
        !printable(ws, tcx, s[k], ind),
    ensures
        !all_printable(ws, tcx, s, ind),
{
    if all_printable(ws, tcx, s, ind) {
        lemma_all_printable_index(ws, tcx, s, ind, k);
    }
}

impl Function {
    /// Whether this function can be printed at indentation `ind`.
    pub fn can_print(&self, ws: &Workspace, tcx: &TyCtx, ind: u16) -> (b: bool)
        ensures
            b == function_printable(*ws, *tcx, *self, ind as int),
    {
        if self.ty >= tcx.types.len() {
            return false;
        }
        let fty = match &tcx.types[self.ty].function {
            Some(f) => f,
            None => return false,
        };
        let n = fty.params.len();
        let mut k: usize = 0;
        while k < n
            invariant
                n == fty.params@.len(),
                k <= n,
                self.ty < tcx.types@.len(),
                tcx.types@[self.ty as int].function == Some(*fty),
                forall|j: int| 0 <= j < k ==> #[trigger] fty.params@[j] < tcx.types@.len(),
            decreases n - k,
        {
            if fty.params[k] >= tcx.types.len() {
                assert(!(fty.params@[k as int] < tcx.types@.len()));
                return false;
            }
            k += 1;
        }
        if fty.return_type >= tcx.types.len() {
            return false;
        }
        match &self.kind {
            FunctionKind::Orphan { body } => match body {
                Some(b) => b.can_print(ws, tcx, ind),
                None => false,
            },
            _ => true,
        }
    }
}

impl Cache {
    /// Whether the whole cache can be printed at indentation `ind`.
    pub fn can_print(&self, ws: &Workspace, tcx: &TyCtx, ind: u16) -> (b: bool)
        ensures
            b == cache_printable(*ws, *tcx, *self, ind as int),
    {
        let nb = self.bindings.len();
        let mut i: usize = 0;
        while i < nb
            invariant
                nb == self.bindings@.len(),
                i <= nb,
                forall|j: int| 0 <= j < i ==> #[trigger] item_module(*self, j) < ws.module_infos@.len()
                    && printable(*ws, *tcx, *self.bindings@[j].value, ind as int),
            decreases nb - i,
        {
            if self.bindings[i].module_id >= ws.module_infos.len() || !self.bindings[i].value.can_print(ws, tcx, ind) {
                assert(item_module(*self, i as int) == self.bindings@[i as int].module_id);
                return false;
            }
            assert(item_module(*self, i as int) == self.bindings@[i as int].module_id);
            i += 1;
        }
        let nf = self.functions.len();
        let mut j: usize = 0;
        while j < nf
            invariant
                nb == self.bindings@.len(),
                nf == self.functions@.len(),
                j <= nf,
                forall|x: int| 0 <= x < nb ==> #[trigger] item_module(*self, x) < ws.module_infos@.len()
                    && printable(*ws, *tcx, *self.bindings@[x].value, ind as int),
                forall|x: int| 0 <= x < j ==> #[trigger] item_module(*self, nb + x) < ws.module_infos@.len()
                    && function_printable(*ws, *tcx, self.functions@[x], ind as int),
            decreases nf - j,
        {
            assert(item_module(*self, nb + j) == self.functions@[j as int].module_id);
            if self.functions[j].module_id >= ws.module_infos.len() || !self.functions[j].can_print(ws, tcx, ind) {
                return false;
            }
            j += 1;
        }
        assert forall|x: int| 0 <= x < item_count(*self) implies #[trigger] item_module(*self, x) < ws.module_infos@.len() by {
            if x >= nb {
                assert(item_module(*self, nb + (x - nb)) < ws.module_infos@.len());
            }
        }
        assert forall|x: int| 0 <= x < self.bindings@.len() implies printable(*ws, *tcx, *(#[trigger] self.bindings@[x]).value,
            ind as int) by {
            assert(item_module(*self, x) < ws.module_infos@.len());
        }
        assert forall|x: int| 0 <= x < self.functions@.len() implies function_printable(*ws, *tcx,
            #[trigger] self.functions@[x], ind as int) by {
            assert(item_module(*self, nb + x) < ws.module_infos@.len());
        }
        true
    }
}

/// Renders a whole cache: the text that printing it from indentation zero
/// writes into an empty buffer.
pub fn render(cache: &Cache, workspace: &Workspace, tycx: &TyCtx) -> (out: String)
    requires
        cache_printable(*workspace, *tycx, *cache, 0),
    ensures
        out@ == cache_text(*workspace, *tycx, *cache, 0),
{
    let mut printer = Printer::new(workspace, tycx, String::new());
    cache.print(&mut printer, true);
    assert(printer.writer@ =~= cache_text(*workspace, *tycx, *cache, 0));
    printer.writer
}

} // verus!
