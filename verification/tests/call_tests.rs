use chili::call::{
    arg_mismatch, check_call, ty_eq, ArgSource, CallArg, CallError, CallExpr, CalleeTy, FunctionType,
    FunctionTypeParam, FunctionTypeVarargs, Ty,
};
use chili::diagnostic::{DiagnosticKind, LabelKind};
use chili::span::Span;

fn sp(start: usize) -> Span {
    Span { file_id: 1, start, end: start + 1 }
}

fn named(n: u64) -> Ty {
    Ty::Named(n)
}

fn param(name: &str, ty: Ty, default: Option<&str>) -> FunctionTypeParam {
    FunctionTypeParam { name: name.to_string(), ty, default_value: default.map(|d| d.to_string()) }
}

fn function(params: Vec<FunctionTypeParam>, varargs: Option<Option<Ty>>) -> FunctionType {
    FunctionType {
        params,
        return_type: Box::new(named(99)),
        varargs: varargs.map(|ty| FunctionTypeVarargs { ty }),
    }
}

fn arg(ty: Ty, spread: bool, start: usize) -> CallArg {
    CallArg { ty, spread, span: sp(start), coerces: false }
}

fn coercing_arg(ty: Ty, spread: bool, start: usize) -> CallArg {
    CallArg { ty, spread, span: sp(start), coerces: true }
}

fn call(ft: FunctionType, args: Vec<CallArg>) -> CallExpr {
    CallExpr { callee_ty: CalleeTy::Function(ft), callee_span: sp(0), args, span: sp(100) }
}

fn slice_ptr(elem: Ty) -> Ty {
    Ty::Pointer(Box::new(Ty::Slice(Box::new(elem))), false)
}

#[test]
fn fixed_parameters() {
    let ft = function(vec![param("a", named(1), None), param("b", named(2), None)], None);
    let c = check_call(&call(ft, vec![arg(named(1), false, 1), arg(named(2), false, 2)])).unwrap();
    assert_eq!(c.args, vec![ArgSource::Arg(0), ArgSource::Arg(1)]);
    assert!(ty_eq(&c.return_type, &named(99)));
}

#[test]
fn not_callable() {
    let c = CallExpr { callee_ty: CalleeTy::Other(named(5)), callee_span: sp(3), args: vec![], span: sp(100) };
    match check_call(&c) {
        Err(CallError::NotCallable { ty, span }) => {
            assert!(ty_eq(&ty, &named(5)));
            assert_eq!(span, sp(3));
        },
        _ => panic!("expected NotCallable"),
    }
}

#[test]
fn type_mismatch_of_the_first_bad_argument() {
    let ft = function(vec![param("a", named(1), None), param("b", named(2), None)], None);
    match check_call(&call(ft, vec![arg(named(1), false, 1), arg(named(3), false, 2)])) {
        Err(CallError::TypeMismatch { expected, found, span }) => {
            assert!(ty_eq(&expected, &named(2)));
            assert!(ty_eq(&found, &named(3)));
            assert_eq!(span, sp(2));
        },
        _ => panic!("expected TypeMismatch"),
    }
}

#[test]
fn too_many_arguments() {
    let ft = function(vec![param("a", named(1), None)], None);
    match check_call(&call(ft, vec![arg(named(1), false, 1), arg(named(1), false, 2), arg(named(1), false, 3)])) {
        Err(CallError::ArgCountMismatch { expected_count, actual_count, span }) => {
            assert_eq!(expected_count, 1);
            assert_eq!(actual_count, 3);
            assert_eq!(span, sp(100));
        },
        _ => panic!("expected ArgCountMismatch"),
    }
}

#[test]
fn defaults_fill_missing_parameters() {
    let ft = function(
        vec![param("a", named(1), None), param("b", named(2), Some("7")), param("c", named(3), Some("8"))],
        None,
    );
    let c = check_call(&call(ft, vec![arg(named(1), false, 1)])).unwrap();
    assert_eq!(c.args, vec![ArgSource::Arg(0), ArgSource::Default(1), ArgSource::Default(2)]);
}

#[test]
fn missing_argument_without_default() {
    let ft = function(vec![param("a", named(1), None), param("b", named(2), Some("7")), param("c", named(3), None)], None);
    match check_call(&call(ft, vec![arg(named(1), false, 1)])) {
        Err(CallError::ArgCountMismatch { expected_count, actual_count, .. }) => {
            assert_eq!(expected_count, 3);
            assert_eq!(actual_count, 2);
        },
        _ => panic!("expected ArgCountMismatch"),
    }
}

#[test]
fn caller_location_is_passed_first() {
    let ft = function(vec![param("track_caller@location", named(7), None), param("a", named(1), None)], None);
    let c = check_call(&call(ft, vec![arg(named(1), false, 1)])).unwrap();
    assert_eq!(c.args, vec![ArgSource::CallerLocation, ArgSource::Arg(0)]);
}

#[test]
fn typed_variadic_arguments_become_one_slice() {
    let ft = function(vec![param("fmt", named(1), None)], Some(Some(named(4))));
    let c = check_call(&call(ft, vec![arg(named(1), false, 1), arg(named(4), false, 2), arg(named(4), false, 3)]))
        .unwrap();
    assert_eq!(c.args, vec![ArgSource::Arg(0), ArgSource::VarargsSlice { first: 1, count: 2 }]);
    let ft = function(vec![param("fmt", named(1), None)], Some(Some(named(4))));
    let c = check_call(&call(ft, vec![arg(named(1), false, 1)])).unwrap();
    assert_eq!(c.args, vec![ArgSource::Arg(0)]);
}

#[test]
fn spreading_a_slice_or_an_array() {
    let ft = function(vec![], Some(Some(named(4))));
    let c = check_call(&call(ft, vec![arg(slice_ptr(named(4)), true, 1)])).unwrap();
    assert_eq!(c.args, vec![ArgSource::SpreadSlice(0)]);
    let ft = function(vec![], Some(Some(named(4))));
    let c = check_call(&call(ft, vec![arg(Ty::Array(Box::new(named(4)), 3), true, 1)])).unwrap();
    assert_eq!(c.args, vec![ArgSource::SpreadArray(0)]);
}

#[test]
fn spread_errors() {
    let ft = function(vec![], Some(Some(named(4))));
    match check_call(&call(ft, vec![arg(named(4), false, 1), arg(slice_ptr(named(4)), true, 2)])) {
        Err(CallError::SpreadWithIndividual { span, first_vararg }) => {
            assert_eq!(span, sp(2));
            assert_eq!(first_vararg, sp(1));
        },
        _ => panic!("expected SpreadWithIndividual"),
    }
    let ft = function(vec![], Some(Some(named(4))));
    match check_call(&call(ft, vec![arg(slice_ptr(named(4)), true, 1), arg(named(4), false, 2)])) {
        Err(CallError::SpreadNotLast { span }) => assert_eq!(span, sp(1)),
        _ => panic!("expected SpreadNotLast"),
    }
    let ft = function(vec![], Some(Some(named(4))));
    match check_call(&call(ft, vec![arg(named(4), true, 1)])) {
        Err(CallError::CannotSpread { ty, span }) => {
            assert!(ty_eq(&ty, &named(4)));
            assert_eq!(span, sp(1));
        },
        _ => panic!("expected CannotSpread"),
    }
    let ft = function(vec![], Some(Some(named(4))));
    match check_call(&call(ft, vec![arg(slice_ptr(named(5)), true, 1)])) {
        Err(CallError::TypeMismatch { expected, found, .. }) => {
            assert!(ty_eq(&expected, &named(4)));
            assert!(ty_eq(&found, &named(5)));
        },
        _ => panic!("expected TypeMismatch"),
    }
    let ft = function(vec![], Some(None));
    match check_call(&call(ft, vec![arg(slice_ptr(named(4)), true, 1)])) {
        Err(CallError::SpreadUntyped { span }) => assert_eq!(span, sp(1)),
        _ => panic!("expected SpreadUntyped"),
    }
}

#[test]
fn untyped_variadic_arguments_are_passed_as_they_are() {
    let ft = function(vec![param("a", named(1), None)], Some(None));
    let c = check_call(&call(ft, vec![arg(named(1), false, 1), arg(named(8), false, 2), arg(named(9), false, 3)]))
        .unwrap();
    assert_eq!(c.args, vec![ArgSource::Arg(0), ArgSource::Arg(1), ArgSource::Arg(2)]);
}

#[test]
fn types_and_modules_are_not_arguments() {
    let ft = function(vec![], Some(None));
    match check_call(&call(ft, vec![arg(named(1), false, 1), arg(Ty::Type(Box::new(named(1))), false, 2)])) {
        Err(CallError::TypeArgument { span }) => assert_eq!(span, sp(2)),
        _ => panic!("expected TypeArgument"),
    }
    let ft = function(vec![param("m", Ty::Module(3), None)], None);
    match check_call(&call(ft, vec![arg(Ty::Module(3), false, 1)])) {
        Err(CallError::ModuleArgument { span }) => assert_eq!(span, sp(1)),
        _ => panic!("expected ModuleArgument"),
    }
    let ft = function(vec![], Some(None));
    match check_call(&call(ft, vec![arg(Ty::AnyType, false, 4)])) {
        Err(CallError::TypeArgument { span }) => assert_eq!(span, sp(4)),
        _ => panic!("expected TypeArgument"),
    }
}

#[test]
fn arity_law_on_examples() {
    let ft = function(vec![param("a", named(1), None), param("b", named(2), Some("0"))], None);
    let c = check_call(&call(ft, vec![arg(named(1), false, 1)])).unwrap();
    assert_eq!(c.args.len(), 2);
    let ft = function(vec![param("a", named(1), None)], Some(Some(named(4))));
    let c = check_call(&call(ft, vec![arg(named(1), false, 1), arg(named(4), false, 2)])).unwrap();
    assert!(c.args.len() >= 1);
}

#[test]
fn arg_mismatch_messages() {
    let one = function(vec![param("a", named(1), None)], None);
    let d = arg_mismatch(&one, "fn(i32) -> void", 2, sp(5));
    assert!(matches!(d.kind, DiagnosticKind::Error));
    assert_eq!(d.message.as_deref(), Some("function expects 1 argument, but 2 were supplied"));
    assert_eq!(d.labels.len(), 1);
    assert!(matches!(d.labels[0].kind, LabelKind::Primary));
    assert_eq!(d.labels[0].span, sp(5));
    assert_eq!(d.labels[0].message, "expected 1 argument, got 2");
    assert_eq!(d.notes, vec!["function is of type `fn(i32) -> void`".to_string()]);
    let none = function(vec![], None);
    let d = arg_mismatch(&none, "fn() -> void", 1, sp(5));
    assert_eq!(d.message.as_deref(), Some("function expects 0 arguments, but 1 was supplied"));
    assert_eq!(d.labels[0].message, "expected 0 arguments, got 1");
    let twelve = function((0..12).map(|_| param("p", named(1), None)).collect(), None);
    let d = arg_mismatch(&twelve, "f", 0, sp(5));
    assert_eq!(d.message.as_deref(), Some("function expects 12 arguments, but 0 were supplied"));
}

#[test]
fn call_error_diagnostics() {
    let ft = function(vec![], None);
    let d = CallError::SpreadNotLast { span: sp(1) }.diagnostic("", &ft, "").unwrap();
    assert_eq!(d.message.as_deref(), Some("variadic argument spread must come last"));
    assert_eq!(d.labels[0].message, "invalid argument spread");
    let d = CallError::SpreadWithIndividual { span: sp(1), first_vararg: sp(2) }.diagnostic("", &ft, "").unwrap();
    assert_eq!(d.message.as_deref(), Some("variadic arguments cannot be passed and spreaded at the same time"));
    assert_eq!(d.labels.len(), 2);
    assert!(matches!(d.labels[1].kind, LabelKind::Secondary));
    assert_eq!(d.labels[1].span, sp(2));
    assert_eq!(d.labels[1].message, "first variadic argument passed here");
    let d = CallError::NotCallable { ty: named(1), span: sp(3) }.diagnostic("i32", &ft, "").unwrap();
    assert_eq!(d.message.as_deref(), Some("expected a function or a struct, found `i32`"));
    assert_eq!(d.labels[0].message, "expression is not callable");
    let d = CallError::CannotSpread { ty: named(1), span: sp(3) }.diagnostic("i32", &ft, "").unwrap();
    assert_eq!(d.message.as_deref(), Some("cannot spread argument of type `i32`"));
    let d = CallError::SpreadUntyped { span: sp(3) }.diagnostic("", &ft, "").unwrap();
    assert_eq!(d.message.as_deref(), Some("cannot spread untyped variadic arguments"));
    let d = CallError::SpreadTwice { span: sp(3), first_spread: sp(4) }.diagnostic("", &ft, "").unwrap();
    assert_eq!(d.message.as_deref(), Some("already spreaded variadic arguments"));
    let d = CallError::TypeArgument { span: sp(3) }.diagnostic("", &ft, "").unwrap();
    assert_eq!(d.message.as_deref(), Some("types cannot be passed as function arguments"));
    assert_eq!(d.labels[0].message, "cannot pass type");
    let d = CallError::ModuleArgument { span: sp(3) }.diagnostic("", &ft, "").unwrap();
    assert_eq!(d.message.as_deref(), Some("modules cannot be passed as function arguments"));
    assert_eq!(d.labels[0].message, "cannot pass module");
    let d = CallError::ArgCountMismatch { expected_count: 0, actual_count: 1, span: sp(3) }.diagnostic("", &ft, "fn()").unwrap();
    assert_eq!(d.message.as_deref(), Some("function expects 0 arguments, but 1 was supplied"));
    assert!(CallError::TypeMismatch { expected: named(1), found: named(2), span: sp(3) }.diagnostic("", &ft, "").is_none());
}

#[test]
fn type_equality() {
    assert!(ty_eq(&slice_ptr(named(1)), &slice_ptr(named(1))));
    assert!(!ty_eq(&slice_ptr(named(1)), &slice_ptr(named(2))));
    assert!(!ty_eq(&Ty::Pointer(Box::new(named(1)), true), &Ty::Pointer(Box::new(named(1)), false)));
    assert!(!ty_eq(&Ty::Array(Box::new(named(1)), 2), &Ty::Array(Box::new(named(1)), 3)));
    assert!(ty_eq(&Ty::AnyType, &Ty::AnyType));
}

#[test]
fn coercing_argument_fits_its_parameter() {
    let ft = function(vec![param("a", named(1), None), param("b", named(2), None)], None);
    let c = check_call(&call(ft, vec![coercing_arg(named(3), false, 1), arg(named(2), false, 2)])).unwrap();
    assert_eq!(c.args, vec![ArgSource::Arg(0), ArgSource::Arg(1)]);
}

#[test]
fn coercing_variadic_argument_joins_the_slice() {
    let ft = function(vec![param("fmt", named(1), None)], Some(Some(named(4))));
    let c = check_call(&call(ft, vec![arg(named(1), false, 1), coercing_arg(named(5), false, 2), arg(named(4), false, 3)]))
        .unwrap();
    assert_eq!(c.args, vec![ArgSource::Arg(0), ArgSource::VarargsSlice { first: 1, count: 2 }]);
}

#[test]
fn spread_elements_do_not_coerce() {
    let ft = function(vec![], Some(Some(named(4))));
    match check_call(&call(ft, vec![coercing_arg(Ty::Array(Box::new(named(5)), 2), true, 1)])) {
        Err(CallError::TypeMismatch { expected, found, span }) => {
            assert!(ty_eq(&expected, &named(4)));
            assert!(ty_eq(&found, &named(5)));
            assert_eq!(span, sp(1));
        },
        _ => panic!("expected TypeMismatch"),
    }
}
