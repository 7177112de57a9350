use vstd::prelude::*;
use crate::span::Span;
use crate::diagnostic::{error_shape, simple_error, Diagnostic, Label, LabelKind};
use crate::text::{decimal, push_decimal};

verus! {

/// A resolved type, as far as call checking looks into it.
#[derive(Debug)]
pub enum Ty {
    /// Any type that call checking does not look into, by its id.
    Named(u64),
    /// A pointer to the inner type; the flag tells whether it is mutable.
    Pointer(Box<Ty>, bool),
    Slice(Box<Ty>),
    Array(Box<Ty>, u64),
    /// The type of a type.
    Type(Box<Ty>),
    AnyType,
    /// The type of a module.
    Module(u64),
}

/// Compares two types.
pub fn ty_eq(a: &Ty, b: &Ty) -> (r: bool)
    ensures
        r == (*a == *b),
    decreases a,
{
    match (a, b) {
        (Ty::Named(x), Ty::Named(y)) => *x == *y,
        (Ty::Pointer(x, m), Ty::Pointer(y, n)) => *m == *n && ty_eq(x, y),
        (Ty::Slice(x), Ty::Slice(y)) => ty_eq(x, y),
        (Ty::Array(x, m), Ty::Array(y, n)) => *m == *n && ty_eq(x, y),
        (Ty::Type(x), Ty::Type(y)) => ty_eq(x, y),
        (Ty::AnyType, Ty::AnyType) => true,
        (Ty::Module(x), Ty::Module(y)) => *x == *y,
        _ => false,
    }
}

/// Copies a type.
pub fn ty_clone(t: &Ty) -> (r: Ty)
    ensures
        r == *t,
    decreases t,
{
    match t {
        Ty::Named(x) => Ty::Named(*x),
        Ty::Pointer(x, m) => Ty::Pointer(Box::new(ty_clone(x)), *m),
        Ty::Slice(x) => Ty::Slice(Box::new(ty_clone(x))),
        Ty::Array(x, n) => Ty::Array(Box::new(ty_clone(x)), *n),
        Ty::Type(x) => Ty::Type(Box::new(ty_clone(x))),
        Ty::AnyType => Ty::AnyType,
        Ty::Module(x) => Ty::Module(*x),
    }
}

/// The type of an immutable pointer to a slice of `elem`.
pub open spec fn slice_pointer(elem: Ty) -> Ty {
    Ty::Pointer(Box::new(Ty::Slice(Box::new(elem))), false)
}

#[derive(Debug)]
pub struct FunctionTypeParam {
    pub name: String,
    pub ty: Ty,
    /// The parameter's default value, as the text it is displayed as.
    pub default_value: Option<String>,
}

/// The variadic part of a function type; an untyped one takes arguments of any type.
#[derive(Debug)]
pub struct FunctionTypeVarargs {
    pub ty: Option<Ty>,
}

#[derive(Debug)]
pub struct FunctionType {
    pub params: Vec<FunctionTypeParam>,
    pub return_type: Box<Ty>,
    pub varargs: Option<FunctionTypeVarargs>,
}

/// The type of a callee: a function type, or any other type.
#[derive(Debug)]
pub enum CalleeTy {
    Function(FunctionType),
    Other(Ty),
}

/// A checked argument of a call: its type, whether it is spread (`...x`),
/// its span, and whether its value coerces into the type of the parameter
/// (or of the typed variadic arguments) that it is passed to.
#[derive(Debug)]
pub struct CallArg {
    pub ty: Ty,
    pub spread: bool,
    pub span: Span,
    pub coerces: bool,
}

/// A call whose callee and arguments have been checked.
#[derive(Debug)]
pub struct CallExpr {
    pub callee_ty: CalleeTy,
    pub callee_span: Span,
    pub args: Vec<CallArg>,
    pub span: Span,
}

/// Where an argument of the checked call comes from.
#[derive(Clone, Copy, Debug, PartialEq, Eq, Structural)]
pub enum ArgSource {
    /// The caller's location, passed to a `track_caller` function.
    CallerLocation,
    /// The call's argument at this index.
    Arg(usize),
    /// A slice built of the `count` variadic arguments that start at `first`.
    VarargsSlice { first: usize, count: usize },
    /// The spread argument at this index, already a slice pointer.
    SpreadSlice(usize),
    /// The spread argument at this index, an array turned into a slice.
    SpreadArray(usize),
    /// The default value of the parameter at this index.
    Default(usize),
}

/// A call that checks: the source of each argument, in order, and the
/// type of its result.
#[derive(Debug)]
pub struct CheckedCall {
    pub args: Vec<ArgSource>,
    pub return_type: Ty,
}

/// Why a call does not check.
#[derive(Debug)]
pub enum CallError {
    NotCallable { ty: Ty, span: Span },
    ArgCountMismatch { expected_count: usize, actual_count: usize, span: Span },
    TypeMismatch { expected: Ty, found: Ty, span: Span },
    SpreadWithIndividual { span: Span, first_vararg: Span },
    SpreadTwice { span: Span, first_spread: Span },
    CannotSpread { ty: Ty, span: Span },
    SpreadNotLast { span: Span },
    SpreadUntyped { span: Span },
    TypeArgument { span: Span },
    ModuleArgument { span: Span },
}

/// Whether the first parameter of `ft` is the caller-location parameter
/// that `track_caller` functions take.
pub open spec fn has_location_param(ft: FunctionType) -> bool {
    ft.params@.len() > 0 && ft.params@[0].name@ == "track_caller@location"@
}

/// The number of parameters filled before the call's own arguments.
pub open spec fn location_offset(ft: FunctionType) -> int {
    if has_location_param(ft) { 1 } else { 0 }
}

/// The index of the first argument that no parameter takes.
pub open spec fn first_extra(ft: FunctionType) -> int {
    ft.params@.len() - location_offset(ft)
}

/// The error, if any, of spreading the last argument `a` into variadic
/// arguments of type `t`: it must be a slice pointer or an array of `t`.
pub open spec fn spread_error(t: Ty, a: CallArg) -> Option<CallError> {
    match a.ty {
        Ty::Pointer(inner, _) => match *inner {
            Ty::Slice(elem) => if *elem != t {
                Some(CallError::TypeMismatch { expected: t, found: *elem, span: a.span })
            } else {
                None
            },
            _ => Some(CallError::CannotSpread { ty: a.ty, span: a.span }),
        },
        Ty::Array(elem, _) => if *elem != t {
            Some(CallError::TypeMismatch { expected: t, found: *elem, span: a.span })
        } else {
            None
        },
        _ => Some(CallError::CannotSpread { ty: a.ty, span: a.span }),
    }
}

/// The error, if any, of the argument at index `i`, when no argument before
/// it has one.
pub open spec fn arg_error(call: CallExpr, ft: FunctionType, i: int) -> Option<CallError> {
    let args = call.args@;
    let a = args[i];
    let n = args.len() as int;
    let p = ft.params@.len() as int;
    if i < first_extra(ft) {
        let expected = ft.params@[i + location_offset(ft)].ty;
        if a.ty != expected && !a.coerces {
            Some(CallError::TypeMismatch { expected, found: a.ty, span: a.span })
        } else {
            None
        }
    } else {
        match ft.varargs {
            None => Some(CallError::ArgCountMismatch { expected_count: p as usize, actual_count: n as usize, span: call.span }),
            Some(v) => match v.ty {
                Some(t) => if a.spread {
                    if i == n - 1 {
                        if i > first_extra(ft) {
                            Some(CallError::SpreadWithIndividual { span: a.span, first_vararg: args[first_extra(ft)].span })
                        } else {
                            spread_error(t, a)
                        }
                    } else {
                        Some(CallError::SpreadNotLast { span: a.span })
                    }
                } else if a.ty != t && !a.coerces {
                    Some(CallError::TypeMismatch { expected: t, found: a.ty, span: a.span })
                } else {
                    None
                },
                None => if a.spread {
                    Some(CallError::SpreadUntyped { span: a.span })
                } else {
                    None
                },
            },
        }
    }
}

/// The error of the first argument at index `k` or later that has one.
pub open spec fn first_arg_error(call: CallExpr, ft: FunctionType, k: int) -> Option<CallError>
    decreases call.args@.len() - k,
{
    if k < 0 || k >= call.args@.len() {
        None
    } else if arg_error(call, ft, k) is Some {
        arg_error(call, ft, k)
    } else {
        first_arg_error(call, ft, k + 1)
    }
}

/// The source of a spread last argument at index `i`.
pub open spec fn spread_source(a: CallArg, i: int) -> ArgSource {
    match a.ty {
        Ty::Array(..) => ArgSource::SpreadArray(i as usize),
        _ => ArgSource::SpreadSlice(i as usize),
    }
}

/// The caller location, when the function takes it.
pub open spec fn location_sources(ft: FunctionType) -> Seq<ArgSource> {
    if has_location_param(ft) { seq![ArgSource::CallerLocation] } else { seq![] }
}

/// The sources of the arguments that fill the function's own parameters.
pub open spec fn fixed_sources(call: CallExpr, ft: FunctionType) -> Seq<ArgSource> {
    let n = call.args@.len() as int;
    let m = if n < first_extra(ft) { n } else { first_extra(ft) };
    Seq::new(m as nat, |i: int| ArgSource::Arg(i as usize))
}

/// The sources of the variadic arguments: one slice for typed variadic
/// arguments (the spread argument's, or one built of the individual
/// arguments), the arguments themselves for untyped ones.
pub open spec fn vararg_sources(call: CallExpr, ft: FunctionType) -> Seq<ArgSource> {
    let n = call.args@.len() as int;
    let e0 = first_extra(ft);
    if n <= e0 {
        seq![]
    } else {
        match ft.varargs {
            Some(v) => match v.ty {
                Some(_) => if call.args@[n - 1].spread {
                    seq![spread_source(call.args@[n - 1], n - 1)]
                } else {
                    seq![ArgSource::VarargsSlice { first: e0 as usize, count: (n - e0) as usize }]
                },
                None => Seq::new((n - e0) as nat, |k: int| ArgSource::Arg((e0 + k) as usize)),
            },
            None => seq![],
        }
    }
}

/// The sources of the arguments before defaults are filled in.
pub open spec fn given_sources(call: CallExpr, ft: FunctionType) -> Seq<ArgSource> {
    location_sources(ft) + fixed_sources(call, ft) + vararg_sources(call, ft)
}

/// The first parameter at index `j` or later that has no default value.
pub open spec fn first_missing_default(ft: FunctionType, j: int) -> Option<int>
    decreases ft.params@.len() - j,
{
    if j < 0 || j >= ft.params@.len() {
        None
    } else if ft.params@[j].default_value is None {
        Some(j)
    } else {
        first_missing_default(ft, j + 1)
    }
}

/// The given sources, followed by the defaults of the parameters that no
/// argument fills; an error when one of those has no default.
pub open spec fn with_defaults(call: CallExpr, ft: FunctionType) -> Result<Seq<ArgSource>, CallError> {
    let given = given_sources(call, ft);
    let l = given.len() as int;
    let p = ft.params@.len() as int;
    match first_missing_default(ft, l) {
        Some(j) => Err(CallError::ArgCountMismatch { expected_count: p as usize, actual_count: j as usize, span: call.span }),
        None => Ok(given + Seq::new(if l < p { (p - l) as nat } else { 0 }, |k: int| ArgSource::Default((l + k) as usize))),
    }
}

/// The type of the argument that a source stands for: an argument passed to
/// a parameter has the parameter's type, into which it was unified or coerced.
pub open spec fn source_ty(call: CallExpr, ft: FunctionType, s: ArgSource) -> Ty {
    match s {
        ArgSource::CallerLocation => ft.params@[0].ty,
        ArgSource::Arg(i) => if (i as int) < first_extra(ft) {
            ft.params@[i + location_offset(ft)].ty
        } else {
            call.args@[i as int].ty
        },
        ArgSource::SpreadSlice(i) => call.args@[i as int].ty,
        ArgSource::Default(j) => ft.params@[j as int].ty,
        _ => slice_pointer(ft.varargs.unwrap().ty.unwrap()),
    }
}

/// The span of the argument that a source stands for.
pub open spec fn source_span(call: CallExpr, s: ArgSource) -> Span {
    match s {
        ArgSource::Arg(i) => call.args@[i as int].span,
        ArgSource::SpreadSlice(i) => call.args@[i as int].span,
        _ => call.span,
    }
}

/// Whether a value of type `t` can be passed: it is neither a type nor a module.
pub open spec fn is_value_ty(t: Ty) -> bool {
    match t {
        Ty::Type(_) | Ty::AnyType | Ty::Module(_) => false,
        _ => true,
    }
}

/// The error of passing a value of type `t`: types and modules cannot be arguments.
pub open spec fn value_error(t: Ty, span: Span) -> Option<CallError> {
    match t {
        Ty::Type(_) | Ty::AnyType => Some(CallError::TypeArgument { span }),
        Ty::Module(_) => Some(CallError::ModuleArgument { span }),
        _ => None,
    }
}

/// The error of the first source at position `k` or later whose argument is
/// a type or a module.
pub open spec fn first_invalid(call: CallExpr, ft: FunctionType, plan: Seq<ArgSource>, k: int) -> Option<CallError>
    decreases plan.len() - k,
{
    if k < 0 || k >= plan.len() {
        None
    } else if value_error(source_ty(call, ft, plan[k]), source_span(call, plan[k])) is Some {
        value_error(source_ty(call, ft, plan[k]), source_span(call, plan[k]))
    } else {
        first_invalid(call, ft, plan, k + 1)
    }
}

/// What checking a call gives: the sources of its arguments, or the first
/// error met, in the order the checker meets them.
pub open spec fn resolve_call(call: CallExpr) -> Result<Seq<ArgSource>, CallError> {
    match call.callee_ty {
        CalleeTy::Other(t) => Err(CallError::NotCallable { ty: t, span: call.callee_span }),
        CalleeTy::Function(ft) => match first_arg_error(call, ft, 0) {
            Some(e) => Err(e),
            None => match with_defaults(call, ft) {
                Err(e) => Err(e),
                Ok(plan) => match first_invalid(call, ft, plan, 0) {
                    Some(e) => Err(e),
                    None => Ok(plan),
                },
            },
        },
    }
}


/// The variadic arguments met so far while checking a call.
pub enum Varargs {
    Empty,
    Individual { first: usize, count: usize },
    Spread(ArgSource),
}

/// The variadic arguments met among the first `i` arguments, when none of
/// them has an error.
pub open spec fn varargs_after(call: CallExpr, ft: FunctionType, i: int) -> Varargs {
    let e0 = first_extra(ft);
    if i <= e0 {
        Varargs::Empty
    } else {
        match ft.varargs {
            Some(v) => match v.ty {
                Some(_) => if call.args@[i - 1].spread {
                    Varargs::Spread(spread_source(call.args@[i - 1], i - 1))
                } else {
                    Varargs::Individual { first: e0 as usize, count: (i - e0) as usize }
                },
                None => Varargs::Empty,
            },
            None => Varargs::Empty,
        }
    }
}

/// The sources pushed while checking the first `i` arguments, when none of
/// them has an error.
pub open spec fn sources_after(call: CallExpr, ft: FunctionType, i: int) -> Seq<ArgSource> {
    let e0 = first_extra(ft);
    let m = if i < e0 { i } else { e0 };
    location_sources(ft) + Seq::new(m as nat, |k: int| ArgSource::Arg(k as usize)) + (
    if i > e0 && (ft.varargs matches Some(v) && v.ty is None) {
        Seq::new((i - e0) as nat, |k: int| ArgSource::Arg((e0 + k) as usize))
    } else {
        seq![]
    })
}

/// The first error is the one at `i` when the arguments from `k` to `i` have none.
proof fn lemma_first_arg_error_at(call: CallExpr, ft: FunctionType, k: int, i: int)
    requires
        0 <= k <= i < call.args@.len(),
        forall|j: int| k <= j < i ==> arg_error(call, ft, j) is None,
        arg_error(call, ft, i) is Some,
    ensures
        first_arg_error(call, ft, k) == arg_error(call, ft, i),
    decreases i - k,
{
    if k < i {
        lemma_first_arg_error_at(call, ft, k + 1, i);
    }
}

/// There is no first error when no argument from `k` on has one.
proof fn lemma_first_arg_error_none(call: CallExpr, ft: FunctionType, k: int)
    requires
        0 <= k <= call.args@.len(),
        forall|j: int| k <= j < call.args@.len() ==> arg_error(call, ft, j) is None,
    ensures
        first_arg_error(call, ft, k) is None,
    decreases call.args@.len() - k,
{
    if k < call.args@.len() {
        lemma_first_arg_error_none(call, ft, k + 1);
    }
}

proof fn lemma_first_missing_at(ft: FunctionType, k: int, j: int)
    requires
        0 <= k <= j < ft.params@.len(),
        forall|x: int| k <= x < j ==> ft.params@[x].default_value is Some,
        ft.params@[j].default_value is None,
    ensures
        first_missing_default(ft, k) == Some(j),
    decreases j - k,
{
    if k < j {
        lemma_first_missing_at(ft, k + 1, j);
    }
}

proof fn lemma_first_missing_none(ft: FunctionType, k: int)
    requires
        0 <= k,
        forall|x: int| k <= x < ft.params@.len() ==> ft.params@[x].default_value is Some,
    ensures
        first_missing_default(ft, k) is None,
    decreases ft.params@.len() - k,
{
    if k < ft.params@.len() {
        lemma_first_missing_none(ft, k + 1);
    }
}

proof fn lemma_first_invalid_at(call: CallExpr, ft: FunctionType, plan: Seq<ArgSource>, k: int, i: int)
    requires
        0 <= k <= i < plan.len(),
        forall|j: int| k <= j < i ==> value_error(source_ty(call, ft, plan[j]), source_span(call, plan[j])) is None,
        value_error(source_ty(call, ft, plan[i]), source_span(call, plan[i])) is Some,
    ensures
        first_invalid(call, ft, plan, k) == value_error(source_ty(call, ft, plan[i]), source_span(call, plan[i])),
    decreases i - k,
{
    if k < i {
        lemma_first_invalid_at(call, ft, plan, k + 1, i);
    }
}

proof fn lemma_first_invalid_none(call: CallExpr, ft: FunctionType, plan: Seq<ArgSource>, k: int)
    requires
        0 <= k <= plan.len(),
        forall|j: int| k <= j < plan.len() ==> value_error(source_ty(call, ft, plan[j]), source_span(call, plan[j])) is None,
    ensures
        first_invalid(call, ft, plan, k) is None,
    decreases plan.len() - k,
{
    if k < plan.len() {
        lemma_first_invalid_none(call, ft, plan, k + 1);
    }
}

/// When there is no first error from `k` on, no argument from `k` on has one.
proof fn lemma_first_arg_error_none_all(call: CallExpr, ft: FunctionType, k: int)
    requires
        0 <= k,
        first_arg_error(call, ft, k) is None,
    ensures
        forall|j: int| k <= j < call.args@.len() ==> arg_error(call, ft, j) is None,
    decreases call.args@.len() - k,
{
    if k < call.args@.len() {
        lemma_first_arg_error_none_all(call, ft, k + 1);
    }
}

proof fn lemma_first_invalid_none_all(call: CallExpr, ft: FunctionType, plan: Seq<ArgSource>, k: int)
    requires
        0 <= k,
        first_invalid(call, ft, plan, k) is None,
    ensures
        forall|j: int| k <= j < plan.len() ==> value_error(source_ty(call, ft, plan[j]), source_span(call, plan[j])) is None,
    decreases plan.len() - k,
{
    if k < plan.len() {
        lemma_first_invalid_none_all(call, ft, plan, k + 1);
    }
}

/// A call that checks passes one argument for each parameter of a function
/// that is not variadic, and at least one for each parameter of a variadic one.
pub proof fn law_checked_call_arity(call: CallExpr)
    requires
        call.callee_ty is Function,
        resolve_call(call) is Ok,
    ensures
        resolve_call(call)->Ok_0.len() >= (call.callee_ty->Function_0).params@.len(),
        (call.callee_ty->Function_0).varargs is None ==> resolve_call(call)->Ok_0.len()
            == (call.callee_ty->Function_0).params@.len(),
{
    let ft = call.callee_ty->Function_0;
    let n = call.args@.len() as int;
    lemma_first_arg_error_none_all(call, ft, 0);
    if ft.varargs is None && n > first_extra(ft) {
        assert(arg_error(call, ft, first_extra(ft)) is None);
    }
    let given = given_sources(call, ft);
    if ft.varargs is None {
        assert(vararg_sources(call, ft) =~= Seq::<ArgSource>::empty());
        assert(given.len() <= ft.params@.len());
    }
}

/// No argument of a call that checks is a type or a module.
pub proof fn law_checked_call_passes_values(call: CallExpr)
    requires
        call.callee_ty is Function,
        resolve_call(call) is Ok,
    ensures
        forall|k: int| 0 <= k < resolve_call(call)->Ok_0.len() ==> is_value_ty(#[trigger] source_ty(call,
            call.callee_ty->Function_0, resolve_call(call)->Ok_0[k])),
{
    let ft = call.callee_ty->Function_0;
    let plan = resolve_call(call)->Ok_0;
    lemma_first_invalid_none_all(call, ft, plan, 0);
    assert forall|k: int| 0 <= k < plan.len() implies is_value_ty(#[trigger] source_ty(call, ft, plan[k])) by {
        assert(value_error(source_ty(call, ft, plan[k]), source_span(call, plan[k])) is None);
    }
}

/// When no parameter has a missing default from `k` on, every parameter from
/// `k` on has a default value.
proof fn lemma_first_missing_none_all(ft: FunctionType, k: int)
    requires
        0 <= k,
        first_missing_default(ft, k) is None,
    ensures
        forall|x: int| k <= x < ft.params@.len() ==> (#[trigger] ft.params@[x]).default_value is Some,
    decreases ft.params@.len() - k,
{
    if k < ft.params@.len() {
        lemma_first_missing_none_all(ft, k + 1);
    }
}

/// In a call that checks, the `k`-th argument passed fills the `k`-th
/// parameter: the caller location fills the location parameter, the call's
/// argument `k - 1` or `k` (after or without a location parameter) fills
/// the parameter when the call has that argument, and otherwise the
/// parameter's own default value fills it, which it then has.
pub proof fn law_checked_call_fills_each_parameter(call: CallExpr)
    requires
        call.callee_ty is Function,
        resolve_call(call) is Ok,
    ensures
        ({
            let ft = call.callee_ty->Function_0;
            let plan = resolve_call(call)->Ok_0;
            let located = ft.params@.len() > 0 && ft.params@[0].name@ == "track_caller@location"@;
            let shift: int = if located { 1 } else { 0 };
            &&& plan.len() >= ft.params@.len()
            &&& forall|k: int| 0 <= k < ft.params@.len() ==> {
                &&& (located && k == 0) ==> plan[k] == ArgSource::CallerLocation
                &&& (k >= shift && k - shift < call.args@.len()) ==> plan[k] == ArgSource::Arg((k - shift) as usize)
                &&& (k >= shift && k - shift >= call.args@.len()) ==> {
                    &&& plan[k] == ArgSource::Default(k as usize)
                    &&& ft.params@[k].default_value is Some
                }
            }
        }),
{
    let ft = call.callee_ty->Function_0;
    let plan = resolve_call(call)->Ok_0;
    law_checked_call_arity(call);
    let given = given_sources(call, ft);
    let l = given.len() as int;
    let n = call.args@.len() as int;
    let off = location_offset(ft);
    assert(plan == with_defaults(call, ft)->Ok_0);
    lemma_first_missing_none_all(ft, l);
    assert forall|k: int| 0 <= k < ft.params@.len() implies {
        &&& (has_location_param(ft) && k == 0) ==> plan[k] == ArgSource::CallerLocation
        &&& (k >= off && k - off < n) ==> plan[k] == ArgSource::Arg((k - off) as usize)
        &&& (k >= off && k - off >= n) ==> {
            &&& plan[k] == ArgSource::Default(k as usize)
            &&& ft.params@[k].default_value is Some
        }
    } by {
        if k < off {
            assert(plan[k] == given[k]);
        } else if k - off < n {
            assert(k < l);
            assert(plan[k] == given[k]);
            assert(given[k] == fixed_sources(call, ft)[k - off]);
        } else {
            assert(vararg_sources(call, ft) =~= Seq::<ArgSource>::empty());
            assert(l == off + n);
            assert(plan[k] == ArgSource::Default((l + (k - l)) as usize));
        }
    }
}

/// In a call that checks and spreads its last argument past the function's
/// parameters, that argument is the function's only variadic argument and is
/// passed, as the last argument, by its own index in the call: as an array
/// turned into a slice when it is an array, as a slice pointer otherwise.
pub proof fn law_checked_call_passes_spread_argument(call: CallExpr)
    requires
        call.callee_ty is Function,
        resolve_call(call) is Ok,
        call.args@.len() > 0,
        call.args@.last().spread,
        call.args@.len() - 1 >= first_extra(call.callee_ty->Function_0),
    ensures
        ({
            let ft = call.callee_ty->Function_0;
            let plan = resolve_call(call)->Ok_0;
            let last = (call.args@.len() - 1) as usize;
            &&& ft.varargs matches Some(v) && v.ty is Some
            &&& call.args@.len() - 1 == first_extra(ft)
            &&& plan.len() == ft.params@.len() + 1
            &&& plan.last() == if call.args@.last().ty is Array {
                ArgSource::SpreadArray(last)
            } else {
                ArgSource::SpreadSlice(last)
            }
        }),
{
    let ft = call.callee_ty->Function_0;
    let plan = resolve_call(call)->Ok_0;
    let n = call.args@.len() as int;
    lemma_first_arg_error_none_all(call, ft, 0);
    assert(arg_error(call, ft, n - 1) is None);
    assert(plan == with_defaults(call, ft)->Ok_0);
    let given = given_sources(call, ft);
    assert(given.last() == vararg_sources(call, ft).last());
}

/// The element type of a slice pointer or of an array.
pub open spec fn element_ty(t: Ty) -> Option<Ty> {
    match t {
        Ty::Pointer(inner, _) => match *inner {
            Ty::Slice(elem) => Some(*elem),
            _ => None,
        },
        Ty::Array(elem, _) => Some(*elem),
        _ => None,
    }
}

/// In a call that checks, every argument fits where it goes: an argument
/// passed to a parameter has the parameter's type or coerces into it; an
/// individual typed variadic argument has the variadic type or coerces into
/// it; a spread argument is a slice pointer or an array of exactly the
/// variadic type; untyped variadic arguments are never spread; and a function
/// that is not variadic gets no more arguments than it has parameters.
pub proof fn law_checked_call_arguments_fit(call: CallExpr)
    requires
        call.callee_ty is Function,
        resolve_call(call) is Ok,
    ensures
        ({
            let ft = call.callee_ty->Function_0;
            let args = call.args@;
            let located = ft.params@.len() > 0 && ft.params@[0].name@ == "track_caller@location"@;
            let shift: int = if located { 1 } else { 0 };
            let fixed = ft.params@.len() - shift;
            &&& forall|i: int| 0 <= i < args.len() && i < fixed ==> (#[trigger] args[i]).ty == ft.params@[i + shift].ty
                || args[i].coerces
            &&& ft.varargs is None ==> args.len() <= fixed
            &&& forall|i: int| fixed <= i < args.len() ==> {
                let typed = ft.varargs is Some && ft.varargs->Some_0.ty is Some;
                &&& (typed && !(#[trigger] args[i]).spread) ==> (args[i].ty == ft.varargs->Some_0.ty->Some_0
                    || args[i].coerces)
                &&& (typed && args[i].spread) ==> element_ty(args[i].ty) == Some(ft.varargs->Some_0.ty->Some_0)
                &&& (ft.varargs is Some && ft.varargs->Some_0.ty is None) ==> !args[i].spread
            }
        }),
{
    let ft = call.callee_ty->Function_0;
    let n = call.args@.len() as int;
    lemma_first_arg_error_none_all(call, ft, 0);
    if ft.varargs is None && n > first_extra(ft) {
        assert(arg_error(call, ft, first_extra(ft)) is None);
    }
    let args = call.args@;
    let fixed = first_extra(ft);
    assert forall|i: int| 0 <= i < args.len() && i < fixed implies (#[trigger] args[i]).ty
        == ft.params@[i + location_offset(ft)].ty || args[i].coerces by {
        assert(arg_error(call, ft, i) is None);
    }
    assert forall|i: int| fixed <= i < args.len() && ft.varargs is Some && ft.varargs->Some_0.ty is Some
        && !(#[trigger] args[i]).spread implies args[i].ty == ft.varargs->Some_0.ty->Some_0 || args[i].coerces by {
        assert(arg_error(call, ft, i) is None);
    }
    assert forall|i: int| fixed <= i < args.len() && ft.varargs is Some && ft.varargs->Some_0.ty is None
        implies !(#[trigger] args[i]).spread by {
        assert(arg_error(call, ft, i) is None);
    }
    assert forall|i: int| first_extra(ft) <= i < n && ft.varargs is Some && ft.varargs->Some_0.ty is Some
        && (#[trigger] call.args@[i]).spread implies element_ty(call.args@[i].ty) == Some(
        ft.varargs->Some_0.ty->Some_0) by {
        assert(arg_error(call, ft, i) is None);
        assert(i == n - 1);
        assert(spread_error(ft.varargs->Some_0.ty->Some_0, call.args@[i]) is None);
    }
}

/// In a call that checks and does not spread its last argument, the
/// arguments past the function's parameters are its variadic arguments:
/// typed ones are passed together as one slice of all of them, after the
/// parameters; untyped ones are passed one by one, in order, after them.
pub proof fn law_checked_call_passes_variadic_arguments(call: CallExpr)
    requires
        call.callee_ty is Function,
        resolve_call(call) is Ok,
        call.args@.len() > first_extra(call.callee_ty->Function_0),
        !call.args@.last().spread,
    ensures
        ({
            let ft = call.callee_ty->Function_0;
            let plan = resolve_call(call)->Ok_0;
            let n = call.args@.len();
            let p = ft.params@.len();
            let e0 = first_extra(ft);
            &&& ft.varargs is Some
            &&& ft.varargs->Some_0.ty is Some ==> {
                &&& plan.len() == p + 1
                &&& plan[p as int] == ArgSource::VarargsSlice { first: e0 as usize, count: (n - e0) as usize }
            }
            &&& ft.varargs->Some_0.ty is None ==> {
                &&& plan.len() == p + n - e0
                &&& forall|i: int| p <= i < plan.len() ==> #[trigger] plan[i] == ArgSource::Arg((e0 + i - p) as usize)
            }
        }),
{
    let ft = call.callee_ty->Function_0;
    let plan = resolve_call(call)->Ok_0;
    let n = call.args@.len() as int;
    let e0 = first_extra(ft);
    lemma_first_arg_error_none_all(call, ft, 0);
    assert(arg_error(call, ft, e0) is None);
    assert(plan == with_defaults(call, ft)->Ok_0);
    let given = given_sources(call, ft);
    assert(given.len() >= ft.params@.len());
    if ft.varargs->Some_0.ty is None {
        let p = ft.params@.len() as int;
        assert forall|i: int| p <= i < plan.len() implies #[trigger] plan[i] == ArgSource::Arg((e0 + i - p) as usize) by {
            assert(plan[i] == given[i]);
        }
    }
}

/// Whether a parameter name is the caller-location parameter's.
fn is_location_param(name: &String) -> (b: bool)
    ensures
        b == (name@ == "track_caller@location"@),
{
    let location = "track_caller@location".to_owned();
    name.eq(&location)
}

/// The error of passing a value of type `t` with span `span`.
fn check_value(t: &Ty, span: Span) -> (r: Option<CallError>)
    ensures
        r == value_error(*t, span),
{
    match t {
        Ty::Type(_) | Ty::AnyType => Some(CallError::TypeArgument { span }),
        Ty::Module(_) => Some(CallError::ModuleArgument { span }),
        _ => None,
    }
}

/// A source refers only to arguments and parameters that exist, and a
/// slice source only to typed variadic arguments.
pub open spec fn source_valid(call: CallExpr, ft: FunctionType, s: ArgSource) -> bool {
    match s {
        ArgSource::CallerLocation => ft.params@.len() > 0,
        ArgSource::Arg(i) => i < call.args@.len(),
        ArgSource::SpreadSlice(i) => i < call.args@.len(),
        ArgSource::Default(j) => j < ft.params@.len(),
        _ => ft.varargs matches Some(v) && v.ty is Some,
    }
}

/// Checks that no argument of the call is a type or a module: the first
/// one that is gives the error.
pub fn validate_call_args(call: &CallExpr, ft: &FunctionType, args: &Vec<ArgSource>) -> (r: Result<(), CallError>)
    requires
        forall|k: int| 0 <= k < args@.len() ==> source_valid(*call, *ft, #[trigger] args@[k]),
    ensures
        match r {
            Ok(()) => first_invalid(*call, *ft, args@, 0) is None,
            Err(e) => first_invalid(*call, *ft, args@, 0) == Some(e),
        },
{
    let n = args.len();
    let p = ft.params.len();
    let offset: usize = if p > 0 && is_location_param(&ft.params[0].name) { 1 } else { 0 };
    let e0 = p - offset;
    let mut k: usize = 0;
    while k < n
        invariant
            n == args@.len(),
            p == ft.params@.len(),
            offset == location_offset(*ft),
            e0 == first_extra(*ft),
            e0 + offset == p,
            k <= n,
            forall|j: int| 0 <= j < args@.len() ==> source_valid(*call, *ft, #[trigger] args@[j]),
            forall|j: int| 0 <= j < k ==>
                value_error(source_ty(*call, *ft, args@[j]), source_span(*call, args@[j])) is None,
        decreases n - k,
    {
        let source = args[k];
        assert(source_valid(*call, *ft, args@[k as int]));
        let err = match source {
            ArgSource::CallerLocation => check_value(&ft.params[0].ty, call.span),
            ArgSource::Arg(i) => if i < e0 {
                check_value(&ft.params[i + offset].ty, call.args[i].span)
            } else {
                check_value(&call.args[i].ty, call.args[i].span)
            },
            ArgSource::SpreadSlice(i) => check_value(&call.args[i].ty, call.args[i].span),
            ArgSource::Default(j) => check_value(&ft.params[j].ty, call.span),
            _ => None,
        };
        if let Some(e) = err {
            proof {
                lemma_first_invalid_at(*call, *ft, args@, 0, k as int);
            }
            return Err(e);
        }
        k += 1;
    }
    proof {
        lemma_first_invalid_none(*call, *ft, args@, 0);
    }
    Ok(())
}


/// Checks a call against its callee's type: matches the arguments to the
/// parameters, gathers the variadic arguments into a slice, fills the missing
/// parameters with their defaults and rejects types and modules as arguments.
/// The arguments come checked, with resolved types; an argument fits where
/// its type is the one expected or its value coerces into that type (a
/// spread argument's elements must have the variadic type itself). It returns exactly what `resolve_call`
/// describes.
pub fn check_call(call: &CallExpr) -> (r: Result<CheckedCall, CallError>)
    ensures
        match r {
            Ok(c) => {
                &&& resolve_call(*call) == Ok::<Seq<ArgSource>, CallError>(c.args@)
                &&& call.callee_ty matches CalleeTy::Function(ft) && c.return_type == *ft.return_type
            },
            Err(e) => resolve_call(*call) == Err::<Seq<ArgSource>, CallError>(e),
        },
{
    let ft = match &call.callee_ty {
        CalleeTy::Function(ft) => ft,
        CalleeTy::Other(ty) => {
            return Err(CallError::NotCallable { ty: ty_clone(ty), span: call.callee_span });
        },
    };
    let p = ft.params.len();
    let n = call.args.len();
    let mut args: Vec<ArgSource> = Vec::new();
    let offset: usize = if p > 0 && is_location_param(&ft.params[0].name) {
        args.push(ArgSource::CallerLocation);
        1
    } else {
        0
    };
    let e0 = p - offset;
    let mut varargs = Varargs::Empty;
    assert(args@ =~= sources_after(*call, *ft, 0));
    let mut index: usize = 0;
    while index < n
        invariant
            call.callee_ty == CalleeTy::Function(*ft),
            n == call.args@.len(),
            p == ft.params@.len(),
            offset == location_offset(*ft),
            e0 == first_extra(*ft),
            e0 + offset == p,
            index <= n,
            forall|j: int| 0 <= j < index ==> arg_error(*call, *ft, j) is None,
            args@ == sources_after(*call, *ft, index as int),
            varargs == varargs_after(*call, *ft, index as int),
        decreases n - index,
    {
        let arg = &call.args[index];
        if index > 0 {
            assert(arg_error(*call, *ft, index - 1) is None);
        }
        if index + offset < p {
            let param = &ft.params[index + offset];
            if !ty_eq(&arg.ty, &param.ty) && !arg.coerces {
                proof {
                    lemma_first_arg_error_at(*call, *ft, 0, index as int);
                }
                return Err(CallError::TypeMismatch { expected: ty_clone(&param.ty), found: ty_clone(&arg.ty), span: arg.span });
            }
            args.push(ArgSource::Arg(index));
        } else if let Some(v) = &ft.varargs {
            if let Some(vt) = &v.ty {
                let is_last = index == n - 1;
                if arg.spread && is_last {
                    match varargs {
                        Varargs::Individual { first, .. } => {
                            proof {
                                lemma_first_arg_error_at(*call, *ft, 0, index as int);
                            }
                            return Err(CallError::SpreadWithIndividual { span: arg.span, first_vararg: call.args[first].span });
                        },
                        Varargs::Spread(_) => {
                            assert(false);
                            return Err(CallError::SpreadTwice { span: arg.span, first_spread: call.span });
                        },
                        Varargs::Empty => {
                            match &arg.ty {
                                Ty::Pointer(inner, _) => match &**inner {
                                    Ty::Slice(elem) => {
                                        if !ty_eq(elem, vt) {
                                            proof {
                                                lemma_first_arg_error_at(*call, *ft, 0, index as int);
                                            }
                                            return Err(CallError::TypeMismatch { expected: ty_clone(vt), found: ty_clone(elem), span: arg.span });
                                        }
                                        varargs = Varargs::Spread(ArgSource::SpreadSlice(index));
                                    },
                                    _ => {
                                        proof {
                                            lemma_first_arg_error_at(*call, *ft, 0, index as int);
                                        }
                                        return Err(CallError::CannotSpread { ty: ty_clone(&arg.ty), span: arg.span });
                                    },
                                },
                                Ty::Array(elem, _) => {
                                    if !ty_eq(elem, vt) {
                                        proof {
                                            lemma_first_arg_error_at(*call, *ft, 0, index as int);
                                        }
                                        return Err(CallError::TypeMismatch { expected: ty_clone(vt), found: ty_clone(elem), span: arg.span });
                                    }
                                    varargs = Varargs::Spread(ArgSource::SpreadArray(index));
                                },
                                _ => {
                                    proof {
                                        lemma_first_arg_error_at(*call, *ft, 0, index as int);
                                    }
                                    return Err(CallError::CannotSpread { ty: ty_clone(&arg.ty), span: arg.span });
                                },
                            }
                        },
                    }
                } else if arg.spread {
                    proof {
                        lemma_first_arg_error_at(*call, *ft, 0, index as int);
                    }
                    return Err(CallError::SpreadNotLast { span: arg.span });
                } else {
                    if !ty_eq(&arg.ty, vt) && !arg.coerces {
                        proof {
                            lemma_first_arg_error_at(*call, *ft, 0, index as int);
                        }
                        return Err(CallError::TypeMismatch { expected: ty_clone(vt), found: ty_clone(&arg.ty), span: arg.span });
                    }
                    varargs = match varargs {
                        Varargs::Individual { first, count } => Varargs::Individual { first, count: count + 1 },
                        Varargs::Spread(s) => {
                            assert(false);
                            Varargs::Spread(s)
                        },
                        Varargs::Empty => Varargs::Individual { first: index, count: 1 },
                    };
                }
            } else if arg.spread {
                proof {
                    lemma_first_arg_error_at(*call, *ft, 0, index as int);
                }
                return Err(CallError::SpreadUntyped { span: arg.span });
            } else {
                args.push(ArgSource::Arg(index));
            }
        } else {
            proof {
                lemma_first_arg_error_at(*call, *ft, 0, index as int);
            }
            return Err(CallError::ArgCountMismatch { expected_count: p, actual_count: n, span: call.span });
        }
        assert(arg_error(*call, *ft, index as int) is None);
        index += 1;
        assert(args@ =~= sources_after(*call, *ft, index as int));
    }
    proof {
        lemma_first_arg_error_none(*call, *ft, 0);
        if ft.varargs is None && n > e0 {
            assert(arg_error(*call, *ft, e0 as int) is None);
        }
    }
    if let Some(v) = &ft.varargs {
        if let Some(_) = &v.ty {
            match varargs {
                Varargs::Empty => {},
                Varargs::Individual { first, count } => args.push(ArgSource::VarargsSlice { first, count }),
                Varargs::Spread(source) => args.push(source),
            }
        }
    }
    assert(args@ =~= given_sources(*call, *ft));
    let given_len = args.len();
    if given_len < p {
        let mut j: usize = given_len;
        while j < p
            invariant
                p == ft.params@.len(),
                given_len <= j <= p,
                args@ =~= given_sources(*call, *ft) + Seq::new((j - given_len) as nat,
                    |k: int| ArgSource::Default((given_len + k) as usize)),
                given_len == given_sources(*call, *ft).len(),
                call.callee_ty == CalleeTy::Function(*ft),
                first_arg_error(*call, *ft, 0) is None,
                forall|x: int| given_len <= x < j ==> ft.params@[x].default_value is Some,
            decreases p - j,
        {
            if ft.params[j].default_value.is_some() {
                args.push(ArgSource::Default(j));
            } else {
                proof {
                    lemma_first_missing_at(*ft, given_len as int, j as int);
                }
                return Err(CallError::ArgCountMismatch { expected_count: p, actual_count: args.len(), span: call.span });
            }
            j += 1;
        }
    }
    proof {
        lemma_first_missing_none(*ft, given_len as int);
    }
    assert(args@ =~= with_defaults(*call, *ft)->Ok_0);
    match &ft.varargs {
        Some(_) => {
            if args.len() < p {
                return Err(CallError::ArgCountMismatch { expected_count: p, actual_count: args.len(), span: call.span });
            }
        },
        None => {
            assert(vararg_sources(*call, *ft) =~= Seq::<ArgSource>::empty());
            assert(given_len == offset + n);
            if args.len() != p {
                return Err(CallError::ArgCountMismatch { expected_count: p, actual_count: args.len(), span: call.span });
            }
        },
    }
    validate_call_args(call, ft, &args)?;
    Ok(CheckedCall { args, return_type: ty_clone(&ft.return_type) })
}


/// `"s"` after a count other than one.
pub open spec fn plural(n: nat) -> Seq<char> {
    if n == 0 || n > 1 { "s"@ } else { ""@ }
}

/// `"were"` after a count other than one, `"was"` after one.
pub open spec fn were_or_was(n: nat) -> Seq<char> {
    if n == 0 || n > 1 { "were"@ } else { "was"@ }
}

/// The message of an argument-count mismatch.
pub open spec fn arg_mismatch_message(expected: nat, actual: nat) -> Seq<char> {
    "function expects "@ + decimal(expected) + " argument"@ + plural(expected) + ", but "@ + decimal(actual)
        + " "@ + were_or_was(actual) + " supplied"@
}

/// The label text of an argument-count mismatch.
pub open spec fn arg_mismatch_label(expected: nat, actual: nat) -> Seq<char> {
    "expected "@ + decimal(expected) + " argument"@ + plural(expected) + ", got "@ + decimal(actual)
}

/// The error for a call of a function of type `function_type` (displayed as
/// `function_type_text`) with `arg_count` arguments.
pub fn arg_mismatch(function_type: &FunctionType, function_type_text: &str, arg_count: usize, span: Span) -> (d: Diagnostic)
    ensures
        error_shape(d, arg_mismatch_message(function_type.params@.len(), arg_count as nat),
            seq![(LabelKind::Primary, span, arg_mismatch_label(function_type.params@.len(), arg_count as nat))],
            seq!["function is of type `"@ + function_type_text@ + "`"@]),
{
    let expected = function_type.params.len();
    let actual = arg_count;
    let plural_s = if expected == 0 || expected > 1 { "s" } else { "" };
    let mut message = String::new();
    message.append("function expects ");
    push_decimal(&mut message, expected);
    message.append(" argument");
    message.append(plural_s);
    message.append(", but ");
    push_decimal(&mut message, actual);
    message.append(" ");
    message.append(if actual == 0 || actual > 1 { "were" } else { "was" });
    message.append(" supplied");
    let mut label = String::new();
    label.append("expected ");
    push_decimal(&mut label, expected);
    label.append(" argument");
    label.append(plural_s);
    label.append(", got ");
    push_decimal(&mut label, actual);
    let mut note = String::new();
    note.append("function is of type `");
    note.append(function_type_text);
    note.append("`");
    assert(message@ =~= arg_mismatch_message(expected as nat, actual as nat));
    assert(label@ =~= arg_mismatch_label(expected as nat, actual as nat));
    assert(note@ =~= "function is of type `"@ + function_type_text@ + "`"@);
    Diagnostic::error().with_message(message).with_label(Label::primary(span, label)).with_note(note)
}

/// The diagnostic that the checker reports for a call error, given the text
/// of the type that the error names (the callee's type, or the spread
/// argument's) and of the callee's function type. A type mismatch is
/// reported by type inference, in its own words, and gives `None` here.
pub open spec fn call_error_shape(e: CallError, ty_text: Seq<char>, function_type: FunctionType,
    function_type_text: Seq<char>, d: Diagnostic) -> bool {
    match e {
        CallError::NotCallable { span, .. } => error_shape(d,
            "expected a function or a struct, found `"@ + ty_text + "`"@,
            seq![(LabelKind::Primary, span, "expression is not callable"@)], seq![]),
        CallError::ArgCountMismatch { actual_count, span, .. } => error_shape(d,
            arg_mismatch_message(function_type.params@.len(), actual_count as nat),
            seq![(LabelKind::Primary, span, arg_mismatch_label(function_type.params@.len(), actual_count as nat))],
            seq!["function is of type `"@ + function_type_text + "`"@]),
        CallError::SpreadWithIndividual { span, first_vararg } => error_shape(d,
            "variadic arguments cannot be passed and spreaded at the same time"@,
            seq![(LabelKind::Primary, span, "cannot spread this argument"@),
                (LabelKind::Secondary, first_vararg, "first variadic argument passed here"@)], seq![]),
        CallError::SpreadTwice { span, first_spread } => error_shape(d,
            "already spreaded variadic arguments"@,
            seq![(LabelKind::Primary, span, "variadic arguments spreaded twice"@),
                (LabelKind::Secondary, first_spread, "first spread here"@)], seq![]),
        CallError::CannotSpread { span, .. } => error_shape(d,
            "cannot spread argument of type `"@ + ty_text + "`"@,
            seq![(LabelKind::Primary, span, "invalid argument type"@)], seq![]),
        CallError::SpreadNotLast { span } => error_shape(d, "variadic argument spread must come last"@,
            seq![(LabelKind::Primary, span, "invalid argument spread"@)], seq![]),
        CallError::SpreadUntyped { span } => error_shape(d, "cannot spread untyped variadic arguments"@,
            seq![(LabelKind::Primary, span, "cannot spread this argument"@)], seq![]),
        CallError::TypeArgument { span } => error_shape(d, "types cannot be passed as function arguments"@,
            seq![(LabelKind::Primary, span, "cannot pass type"@)], seq![]),
        CallError::ModuleArgument { span } => error_shape(d, "modules cannot be passed as function arguments"@,
            seq![(LabelKind::Primary, span, "cannot pass module"@)], seq![]),
        CallError::TypeMismatch { .. } => false,
    }
}

/// Two-label errors of spreading.
fn spread_error_diagnostic(message: &str, span: Span, label: &str, other: Span, other_label: &str) -> (d: Diagnostic)
    ensures
        error_shape(d, message@, seq![(LabelKind::Primary, span, label@), (LabelKind::Secondary, other, other_label@)],
            seq![]),
{
    Diagnostic::error().with_message(message.to_owned()).with_label(Label::primary(span, label.to_owned()))
        .with_label(Label::secondary(other, other_label.to_owned()))
}

impl CallError {
    /// The diagnostic that reports this error; `None` for a type mismatch.
    pub fn diagnostic(&self, ty_text: &str, function_type: &FunctionType, function_type_text: &str)
        -> (d: Option<Diagnostic>)
        ensures
            match d {
                Some(d) => call_error_shape(*self, ty_text@, *function_type, function_type_text@, d),
                None => self is TypeMismatch,
            },
    {
        match self {
            CallError::NotCallable { span, .. } => {
                let mut message = String::new();
                message.append("expected a function or a struct, found `");
                message.append(ty_text);
                message.append("`");
                Some(simple_error(message.as_str(), *span, "expression is not callable"))
            },
            CallError::ArgCountMismatch { actual_count, span, .. } =>
                Some(arg_mismatch(function_type, function_type_text, *actual_count, *span)),
            CallError::SpreadWithIndividual { span, first_vararg } => Some(spread_error_diagnostic(
                "variadic arguments cannot be passed and spreaded at the same time", *span,
                "cannot spread this argument", *first_vararg, "first variadic argument passed here")),
            CallError::SpreadTwice { span, first_spread } => Some(spread_error_diagnostic(
                "already spreaded variadic arguments", *span, "variadic arguments spreaded twice", *first_spread,
                "first spread here")),
            CallError::CannotSpread { span, .. } => {
                let mut message = String::new();
                message.append("cannot spread argument of type `");
                message.append(ty_text);
                message.append("`");
                Some(simple_error(message.as_str(), *span, "invalid argument type"))
            },
            CallError::SpreadNotLast { span } =>
                Some(simple_error("variadic argument spread must come last", *span, "invalid argument spread")),
            CallError::SpreadUntyped { span } =>
                Some(simple_error("cannot spread untyped variadic arguments", *span, "cannot spread this argument")),
            CallError::TypeArgument { span } =>
                Some(simple_error("types cannot be passed as function arguments", *span, "cannot pass type")),
            CallError::ModuleArgument { span } =>
                Some(simple_error("modules cannot be passed as function arguments", *span, "cannot pass module")),
            CallError::TypeMismatch { .. } => None,
        }
    }
}

} // verus!
