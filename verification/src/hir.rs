use vstd::prelude::*;

verus! {

/// What the workspace knows of a binding: its name and the id of its type.
#[derive(Debug)]
pub struct BindingInfo {
    pub name: String,
    pub ty: usize,
}

/// A module's name and the path of its source file.
#[derive(Debug)]
pub struct ModuleInfo {
    pub name: String,
    pub file_path: String,
}

/// The workspace tables that the later passes read: bindings and modules,
/// each found by its index.
#[derive(Debug)]
pub struct Workspace {
    pub binding_infos: Vec<BindingInfo>,
    pub module_infos: Vec<ModuleInfo>,
}

/// A function type, its parameter and return types given by their ids.
#[derive(Debug)]
pub struct FunctionTy {
    pub params: Vec<usize>,
    pub return_type: usize,
}

/// A resolved type: the text it is displayed as and, for a function type,
/// its signature.
#[derive(Debug)]
pub struct TyEntry {
    pub display: String,
    pub function: Option<FunctionTy>,
}

/// The type context: every resolved type, found by its id.
#[derive(Debug)]
pub struct TyCtx {
    pub types: Vec<TyEntry>,
}

/// A node of the high-level intermediate representation.
#[derive(Debug)]
pub enum Node {
    Const(Const),
    Binding(Binding),
    Id(Id),
    Assignment(Assignment),
    MemberAccess(MemberAccess),
    Call(Call),
    Cast(Cast),
    Sequence(Sequence),
    Control(Control),
    Builtin(Builtin),
    Literal(Literal),
}

/// A compile-time value, held as the text it is displayed as.
#[derive(Debug)]
pub struct Const {
    pub value: String,
    pub ty: usize,
}

#[derive(Debug)]
pub struct Binding {
    pub module_id: usize,
    pub id: usize,
    pub name: String,
    pub value: Box<Node>,
}

/// A use of a binding, by the binding's index in the workspace.
#[derive(Debug)]
pub struct Id {
    pub id: usize,
    pub ty: usize,
}

#[derive(Debug)]
pub struct Assignment {
    pub lhs: Box<Node>,
    pub rhs: Box<Node>,
}

#[derive(Debug)]
pub struct MemberAccess {
    pub value: Box<Node>,
    pub member: String,
}

#[derive(Debug)]
pub struct Call {
    pub callee: Box<Node>,
    pub args: Vec<Node>,
}

#[derive(Debug)]
pub struct Cast {
    pub value: Box<Node>,
    pub ty: usize,
}

#[derive(Debug)]
pub struct Sequence {
    pub statements: Vec<Node>,
    pub is_block: bool,
}

#[derive(Debug)]
pub enum Control {
    If(If),
    While(While),
    Return(Return),
    Break,
    Continue,
}

#[derive(Debug)]
pub struct If {
    pub condition: Box<Node>,
    pub then_branch: Box<Node>,
    pub otherwise: Option<Box<Node>>,
}

#[derive(Debug)]
pub struct While {
    pub condition: Box<Node>,
    pub body: Box<Node>,
}

#[derive(Debug)]
pub struct Return {
    pub value: Box<Node>,
}

#[derive(Debug)]
pub struct Binary {
    pub lhs: Box<Node>,
    pub rhs: Box<Node>,
}

#[derive(Debug)]
pub struct Unary {
    pub value: Box<Node>,
}

#[derive(Debug)]
pub struct Offset {
    pub value: Box<Node>,
    pub offset: Box<Node>,
}

#[derive(Debug)]
pub struct Slice {
    pub value: Box<Node>,
    pub low: Box<Node>,
    pub high: Box<Node>,
}

#[derive(Debug)]
pub enum Builtin {
    Add(Binary),
    Sub(Binary),
    Mul(Binary),
    Div(Binary),
    Rem(Binary),
    Shl(Binary),
    Shr(Binary),
    And(Binary),
    Or(Binary),
    Lt(Binary),
    Le(Binary),
    Gt(Binary),
    Ge(Binary),
    Eq(Binary),
    Ne(Binary),
    BitAnd(Binary),
    BitOr(Binary),
    BitXor(Binary),
    Not(Unary),
    Neg(Unary),
    Ref(Unary),
    Deref(Unary),
    Offset(Offset),
    Slice(Slice),
}

/// A literal that the type checker has not folded into a constant.
#[derive(Debug)]
pub struct Literal {
    pub ty: usize,
}

/// How a function is defined: with a body, in an external library, or by the compiler.
#[derive(Debug)]
pub enum FunctionKind {
    Orphan { body: Option<Box<Node>> },
    Extern { lib: Option<String> },
    Intrinsic(String),
}

#[derive(Debug)]
pub struct Function {
    pub module_id: usize,
    pub name: String,
    pub kind: FunctionKind,
    pub ty: usize,
}

/// All top-level bindings and functions of a program.
#[derive(Debug)]
pub struct Cache {
    pub bindings: Vec<Binding>,
    pub functions: Vec<Function>,
}

} // verus!
