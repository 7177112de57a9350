use chili::hir::{
    Assignment, Binary, Binding, BindingInfo, Builtin, Cache, Call, Cast, Const, Control, Function, FunctionKind,
    FunctionTy, Id, If, Literal, MemberAccess, ModuleInfo, Node, Offset, Return, Sequence, Slice, TyCtx, TyEntry,
    Unary, While, Workspace,
};
use chili::pretty::{render, Printer};

fn workspace() -> Workspace {
    Workspace {
        binding_infos: vec![
            BindingInfo { name: "x".to_string(), ty: 0 },
            BindingInfo { name: "y".to_string(), ty: 0 },
        ],
        module_infos: vec![
            ModuleInfo { name: "main".to_string(), file_path: "main.chili".to_string() },
            ModuleInfo { name: "lib".to_string(), file_path: "lib.chili".to_string() },
        ],
    }
}

fn tycx() -> TyCtx {
    TyCtx {
        types: vec![
            TyEntry { display: "i32".to_string(), function: None },
            TyEntry {
                display: "fn(i32, u8) -> i32".to_string(),
                function: Some(FunctionTy { params: vec![0, 2], return_type: 0 }),
            },
            TyEntry { display: "u8".to_string(), function: None },
            TyEntry { display: "fn() -> u8".to_string(), function: Some(FunctionTy { params: vec![], return_type: 2 }) },
        ],
    }
}

fn constant(v: &str) -> Node {
    Node::Const(Const { value: v.to_string(), ty: 0 })
}

fn id(i: usize) -> Node {
    Node::Id(Id { id: i, ty: 0 })
}

fn b(n: Node) -> Box<Node> {
    Box::new(n)
}

fn binary(lhs: Node, rhs: Node) -> Binary {
    Binary { lhs: b(lhs), rhs: b(rhs) }
}

fn print_node(node: &Node, indentation: u16, line_start: bool) -> String {
    let ws = workspace();
    let t = tycx();
    let mut p = Printer::new(&ws, &t, String::new());
    p.identation = indentation;
    assert!(node.can_print(&ws, &t, indentation));
    node.print(&mut p, line_start);
    assert_eq!(p.identation, indentation);
    p.writer
}

#[test]
fn printer_writes_and_indents() {
    let ws = workspace();
    let t = tycx();
    let mut p = Printer::new(&ws, &t, "start:".to_string());
    assert_eq!(p.identation, 0);
    p.write_indented("a", true);
    p.indent();
    assert_eq!(p.identation, 2);
    p.write_indented("b", true);
    p.write_indented("c", false);
    p.write_comment("note", true);
    p.dedent();
    assert_eq!(p.identation, 0);
    p.write("d");
    assert_eq!(p.writer, "start:a   bc   // noted");
}

#[test]
fn indentation_zero_writes_no_spaces() {
    let ws = workspace();
    let t = tycx();
    let mut p = Printer::new(&ws, &t, String::new());
    p.write_indented("x", true);
    assert_eq!(p.writer, "x");
}

#[test]
fn simple_nodes() {
    assert_eq!(print_node(&constant("42"), 0, true), "42");
    assert_eq!(print_node(&id(1), 4, true), "     y");
    assert_eq!(print_node(&id(1), 4, false), "y");
    let assign = Node::Assignment(Assignment { lhs: b(id(0)), rhs: b(constant("1")) });
    assert_eq!(print_node(&assign, 0, true), "x = 1");
    let member = Node::MemberAccess(MemberAccess { value: b(id(0)), member: "len".to_string() });
    assert_eq!(print_node(&member, 0, true), "x.len");
    let cast = Node::Cast(Cast { value: b(id(0)), ty: 2 });
    assert_eq!(print_node(&cast, 0, true), "x as u8");
    let binding = Node::Binding(Binding { module_id: 0, id: 0, name: "z".to_string(), value: b(constant("3")) });
    assert_eq!(print_node(&binding, 2, true), "   let z = 3");
}

#[test]
fn calls_separate_arguments_with_commas() {
    let call = Node::Call(Call { callee: b(id(0)), args: vec![constant("1"), id(1), constant("3")] });
    assert_eq!(print_node(&call, 0, true), "x(1, y, 3)");
    let empty = Node::Call(Call { callee: b(id(1)), args: vec![] });
    assert_eq!(print_node(&empty, 0, true), "y()");
}

#[test]
fn blocks_indent_their_statements() {
    let inner = Node::Sequence(Sequence { statements: vec![id(0)], is_block: true });
    let outer = Node::Sequence(Sequence {
        statements: vec![constant("1"), inner, Node::Control(Control::Break)],
        is_block: true,
    });
    assert_eq!(print_node(&outer, 0, true), "{\n   1;\n   {\n     x\n   };\n   break\n}");
    let flat = Node::Sequence(Sequence { statements: vec![constant("1"), constant("2")], is_block: false });
    assert_eq!(print_node(&flat, 0, true), "1;\n2\n");
    let empty = Node::Sequence(Sequence { statements: vec![], is_block: true });
    assert_eq!(print_node(&empty, 0, true), "{\n}");
}

#[test]
fn control_flow() {
    let if_ = Node::Control(Control::If(If {
        condition: b(id(0)),
        then_branch: b(Node::Sequence(Sequence { statements: vec![constant("1")], is_block: true })),
        otherwise: Some(b(Node::Sequence(Sequence { statements: vec![constant("2")], is_block: true }))),
    }));
    assert_eq!(print_node(&if_, 0, true), "if x{\n   1\n} else {\n   2\n}");
    let while_ = Node::Control(Control::While(While {
        condition: b(id(1)),
        body: b(Node::Sequence(Sequence { statements: vec![Node::Control(Control::Continue)], is_block: true })),
    }));
    assert_eq!(print_node(&while_, 0, true), "while y{\n   continue\n}");
    let ret = Node::Control(Control::Return(Return { value: b(constant("0")) }));
    assert_eq!(print_node(&ret, 2, true), "   return 0");
    let if_without_else = Node::Control(Control::If(If { condition: b(id(0)), then_branch: b(id(1)), otherwise: None }));
    assert_eq!(print_node(&if_without_else, 0, false), "if xy");
}

#[test]
fn builtins() {
    let ops = vec![
        (Builtin::Add(binary(id(0), id(1))), "x + y"),
        (Builtin::Sub(binary(id(0), id(1))), "x - y"),
        (Builtin::Mul(binary(id(0), id(1))), "x * y"),
        (Builtin::Div(binary(id(0), id(1))), "x / y"),
        (Builtin::Rem(binary(id(0), id(1))), "x % y"),
        (Builtin::Shl(binary(id(0), id(1))), "x << y"),
        (Builtin::Shr(binary(id(0), id(1))), "x >> y"),
        (Builtin::And(binary(id(0), id(1))), "x && y"),
        (Builtin::Or(binary(id(0), id(1))), "x || y"),
        (Builtin::Lt(binary(id(0), id(1))), "x < y"),
        (Builtin::Le(binary(id(0), id(1))), "x <= y"),
        (Builtin::Gt(binary(id(0), id(1))), "x > y"),
        (Builtin::Ge(binary(id(0), id(1))), "x >= y"),
        (Builtin::Eq(binary(id(0), id(1))), "x == y"),
        (Builtin::Ne(binary(id(0), id(1))), "x != y"),
        (Builtin::BitAnd(binary(id(0), id(1))), "x & y"),
        (Builtin::BitOr(binary(id(0), id(1))), "x | y"),
        (Builtin::BitXor(binary(id(0), id(1))), "x ^ y"),
        (Builtin::Not(Unary { value: b(id(0)) }), "!x"),
        (Builtin::Neg(Unary { value: b(id(0)) }), "-x"),
        (Builtin::Ref(Unary { value: b(id(0)) }), "&x"),
        (Builtin::Deref(Unary { value: b(id(0)) }), "x.*"),
        (Builtin::Offset(Offset { value: b(id(0)), offset: b(constant("2")) }), "x[offset: 2]"),
        (Builtin::Slice(Slice { value: b(id(0)), low: b(constant("1")), high: b(id(1)) }), "x[1..y]"),
    ];
    for (builtin, text) in ops {
        assert_eq!(print_node(&Node::Builtin(builtin), 0, true), text);
    }
    let indented_not = Node::Builtin(Builtin::Not(Unary { value: b(id(0)) }));
    assert_eq!(print_node(&indented_not, 2, true), "   !x");
}

#[test]
fn unprintable_nodes_are_detected() {
    let ws = workspace();
    let t = tycx();
    assert!(!Node::Literal(Literal { ty: 0 }).can_print(&ws, &t, 0));
    assert!(!id(7).can_print(&ws, &t, 0));
    assert!(!Node::Cast(Cast { value: b(id(0)), ty: 9 }).can_print(&ws, &t, 0));
    let block = Node::Sequence(Sequence { statements: vec![], is_block: true });
    assert!(!block.can_print(&ws, &t, u16::MAX - 1));
    assert!(block.can_print(&ws, &t, u16::MAX - 2));
}

fn sample_cache() -> Cache {
    Cache {
        bindings: vec![
            Binding { module_id: 0, id: 0, name: "a".to_string(), value: b(constant("1")) },
            Binding { module_id: 0, id: 1, name: "b".to_string(), value: b(id(0)) },
            Binding { module_id: 1, id: 2, name: "c".to_string(), value: b(constant("2")) },
        ],
        functions: vec![
            Function {
                module_id: 1,
                name: "f".to_string(),
                kind: FunctionKind::Orphan {
                    body: Some(b(Node::Sequence(Sequence {
                        statements: vec![Node::Control(Control::Return(Return { value: b(id(0)) }))],
                        is_block: true,
                    }))),
                },
                ty: 1,
            },
            Function { module_id: 0, name: "g".to_string(), kind: FunctionKind::Extern { lib: Some("libc".to_string()) }, ty: 3 },
            Function { module_id: 0, name: "h".to_string(), kind: FunctionKind::Extern { lib: None }, ty: 3 },
            Function { module_id: 0, name: "i".to_string(), kind: FunctionKind::Intrinsic("size_of".to_string()), ty: 3 },
        ],
    }
}

#[test]
fn cache_prints_one_comment_per_run_of_a_module() {
    let ws = workspace();
    let t = tycx();
    let cache = sample_cache();
    assert!(cache.can_print(&ws, &t, 0));
    let text = render(&cache, &ws, &t);
    assert_eq!(
        text,
        "// main (main.chili)\n\nlet a = 1;\n\nlet b = x;\n\n\
         // lib (lib.chili)\n\nlet c = 2;\n\nfn f(i32, u8) -> i32 {\n   return x\n};\n\n\
         // main (main.chili)\n\nextern fn \"libc\" g() -> u8 ;\n\nextern fn h() -> u8 ;\n\nintrinsic fn i() -> u8 ;\n\n"
    );
    assert_eq!(text.matches("// main").count(), 2);
    assert_eq!(text.matches("// lib").count(), 1);
}

#[test]
fn empty_cache_prints_nothing() {
    let ws = workspace();
    let t = tycx();
    let cache = Cache { bindings: vec![], functions: vec![] };
    assert_eq!(render(&cache, &ws, &t), "");
}

#[test]
fn unprintable_caches_are_detected() {
    let ws = workspace();
    let t = tycx();
    let mut cache = sample_cache();
    cache.bindings[0].module_id = 5;
    assert!(!cache.can_print(&ws, &t, 0));
    let mut cache = sample_cache();
    cache.functions[0].kind = FunctionKind::Orphan { body: None };
    assert!(!cache.can_print(&ws, &t, 0));
    let mut cache = sample_cache();
    cache.functions[1].ty = 0;
    assert!(!cache.can_print(&ws, &t, 0));
}
