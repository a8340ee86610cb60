use calc::eval::{BuiltinOp, Context, Function};
use calc::eval_str_ctx;
use calc::num::Number;
use calc::CalcError;
use std::f64::consts;

fn eval_str(s: &str) -> Result<Number, CalcError> {
    eval_str_ctx(s, &mut Context::new())
}

fn eval_f64(s: &str) -> f64 {
    eval_str(s).unwrap().get().to_f64()
}

fn eval_ctx_f64(s: &str, ctx: &mut Context) -> f64 {
    eval_str_ctx(s, ctx).unwrap().get().to_f64()
}

fn var_f64(ctx: &Context, name: &str) -> Option<f64> {
    ctx.get_var(name).map(|n| n.get().to_f64())
}

#[test]
fn test_eval_str() {
    assert!(eval_str("").is_ok());
    assert!(eval_str("-").is_err());
    assert!(eval_str("* 2").is_err());
    assert!(eval_str("2 +").is_err());
    assert_eq!(eval_f64("2"), 2.0);
    assert_eq!(eval_f64("2 - 3"), -1.0);
    assert_eq!(eval_f64("2-3"), -1.0);
    assert_eq!(eval_f64("2 + 2 * 2"), 6.0);
    assert_eq!(eval_f64("3 * 2 * 5 + 10 / 5 - 8"), 24.0);
}

#[test]
fn test_number_parsing() {
    assert!(eval_str(".1").is_ok());
    assert!(eval_str("1.1").is_ok());
    assert!(eval_str("1.").is_ok());

    assert!(eval_str("2.3.4").is_err());
    assert!(eval_str("..").is_err());
    assert!(eval_str("..1").is_err());
    assert!(eval_str("1..").is_err());
    assert!(eval_str(".1.").is_err());
}

#[test]
fn test_unary_minus() {
    assert_eq!(eval_f64("-2"), -2.0);
    assert_eq!(eval_f64("2--2"), 4.0);
    assert_eq!(eval_f64("2+-2"), 0.0);
    assert_eq!(eval_f64("-2+-2"), -4.0);
    assert_eq!(eval_f64("2---2"), 0.0);
    assert!(eval_str("2*+-2").is_err());
}

#[test]
fn test_brackets() {
    assert_eq!(eval_f64("4 * (5 - 1)"), 16.0);
    assert_eq!(eval_f64("(2 + 2) * (3 + 3)"), 24.0);
    assert_eq!(eval_f64("(2 + 2)"), 4.0);
    assert_eq!(eval_f64("-(2 + 2)"), -4.0);
    assert_eq!(eval_f64("-((2 + 3) * 4)"), -20.0);
    assert_eq!(eval_f64("-((2 + -4) * 5) / 2"), 5.0);
    assert_eq!(eval_f64("(1 + 2) + 3"), 6.0);
    assert!(eval_str("-2 + 2)").is_err());
    assert!(eval_str("-(2 + 2").is_err());
    assert!(eval_str("()").is_err());
}

#[test]
fn test_power() {
    assert!(eval_str("4 ^").is_err());
    assert!(eval_str("^ 3").is_err());
    assert_eq!(eval_f64("1 ^ -3"), 1.0);
    assert_eq!(eval_f64("(-1) ^ -3"), -1.0);
    assert_eq!(eval_f64("(-1) ^ -4"), 1.0);
    assert_eq!(eval_f64("2 ^ -3"), 0.125);
    assert_eq!(eval_f64("2 ^ 0"), 1.0);
    assert_eq!(eval_f64("3 ^ 5"), 243.0);
    assert_eq!(eval_f64("-1 ^ 4"), 1.0);
    assert_eq!(eval_f64("-1 ^ 5"), -1.0);
    assert_eq!(eval_f64("-1 ^ -5"), -1.0);
    assert_eq!(eval_f64("(1 + 1) ^ (4 * 2)"), 256.0);
}

#[test]
fn test_mod() {
    assert!(eval_str("2 %").is_err());
    assert!(eval_str("% 3").is_err());
    assert!(eval_str("100 % 0").is_err());
    assert_eq!(eval_f64("7 % 3"), 1.0);
    assert_eq!(eval_f64("7 % -3"), 1.0);
    assert_eq!(eval_f64("-7 % 3"), -1.0);
    assert_eq!(eval_f64("-9 % -3"), 0.0);
    assert_eq!(eval_f64("42 % 1337"), 42.0);
    assert_eq!(eval_f64("2 + 3 * 4 % 5"), 4.0);
}

#[test]
fn test_variables() {
    let mut ctx = Context::new();
    assert_eq!(eval_ctx_f64("a = 2", &mut ctx), 2.0);
    assert_eq!(eval_ctx_f64("b = a + 1", &mut ctx), 3.0);
    assert_eq!(eval_ctx_f64("c = a + b", &mut ctx), 5.0);
    assert_eq!(var_f64(&ctx, "a"), Some(2.0));
    assert_eq!(var_f64(&ctx, "b"), Some(3.0));
    assert_eq!(var_f64(&ctx, "c"), Some(5.0));

    assert!(eval_str("not_defined").is_err());

    let mut ctx = Context::new();
    assert_eq!(eval_ctx_f64("some_longer_name = 2", &mut ctx), 2.0);
    assert_eq!(var_f64(&ctx, "some_longer_name"), Some(2.0));

    assert!(eval_str("a b = 2").is_err());
    assert!(eval_str("2 = 2").is_err());
    assert!(eval_str("* = 2").is_err());
    assert!(eval_str("() = 2").is_err());
}

#[test]
fn test_builtin_functions() {
    let eps = 1e-10;
    assert!((eval_f64("sin(pi/2)") - 1.0).abs() < eps);
    assert!((eval_f64("cos(pi/2)") - 0.0).abs() < eps);
    assert!((eval_f64("tan(pi/4)") - 1.0).abs() < eps);
    assert!((eval_f64("asin(1)") - consts::FRAC_PI_2).abs() < eps);
    assert!((eval_f64("acos(1)") - 0.0).abs() < eps);
    assert!((eval_f64("atan(1)") - consts::FRAC_PI_4).abs() < eps);
    assert!((eval_f64("sinh(1)") - 1_f64.sinh()).abs() < eps);
    assert!((eval_f64("cosh(1)") - 1_f64.cosh()).abs() < eps);
    assert!((eval_f64("tanh(1)") - 1_f64.tanh()).abs() < eps);

    assert!((eval_f64("ln(e)") - 1.0).abs() < eps);
    assert!((eval_f64("log2(1024)") - 10.0).abs() < eps);
    assert!((eval_f64("log10(1000)") - 3.0).abs() < eps);
    assert!((eval_f64("log(27, 3)") - 3.0).abs() < eps);

    assert!((eval_f64("abs(-1)") - 1.0).abs() < eps);
    assert!((eval_f64("abs(1)") - 1.0).abs() < eps);
    assert!((eval_f64("min(1, 5)") - 1.0).abs() < eps);
    assert!((eval_f64("max(1, 5)") - 5.0).abs() < eps);
    assert!((eval_f64("floor(1.5)") - 1.0).abs() < eps);
    assert!((eval_f64("ceil(1.5)") - 2.0).abs() < eps);
    assert!((eval_f64("round(1.5)") - 2.0).abs() < eps);
    assert!((eval_f64("round(1.4)") - 1.0).abs() < eps);
    assert!((eval_f64("round(1.6)") - 2.0).abs() < eps);

    assert!(eval_str("sqrt(-1)").is_err());
    assert!((eval_f64("sqrt(4)") - 2.0).abs() < eps);
    assert!((eval_f64("exp(2)") - 7.389056099).abs() < eps);
}

#[test]
fn test_functions() {
    let mut ctx = Context::new();
    ctx.add_function("add", Function::new_builtin(2, BuiltinOp::Add)).unwrap();

    assert!(eval_str_ctx("add()", &mut ctx).is_err());
    assert!(eval_str_ctx("add(1)", &mut ctx).is_err());
    assert!(eval_str_ctx("add(1,)", &mut ctx).is_err());
    assert!(eval_str_ctx("add(,1)", &mut ctx).is_err());
    assert!(eval_str_ctx("add(1 1)", &mut ctx).is_err());
    assert_eq!(eval_ctx_f64("add(1, 2)", &mut ctx), 3.0);
    assert!(eval_str_ctx("add(1, 2, 3)", &mut ctx).is_err());
    assert_eq!(eval_ctx_f64("add(1, add(2, 3))", &mut ctx), 6.0);
}

#[test]
fn test_multiple_lines() {
    let mut ctx = Context::new();

    let result = eval_ctx_f64(
        r"a = 2
            b = 3
            c = a + b",
        &mut ctx,
    );

    assert_eq!(result, 5.0);
    assert_eq!(var_f64(&ctx, "a"), Some(2.0));
    assert_eq!(var_f64(&ctx, "b"), Some(3.0));
    assert_eq!(var_f64(&ctx, "c"), Some(5.0));

    assert_eq!(eval_f64("\n42\n"), 42.0);
    assert_eq!(eval_f64("42\n"), 42.0);
    assert_eq!(eval_f64("\n42"), 42.0);
    assert_eq!(eval_f64("\n\n\n"), 0.0);
}

#[test]
fn test_newlines_not_allowed() {
    assert!(eval_str("1 + \n 2").is_err());
    assert!(eval_str("sin(pi\n/2)").is_err());
    assert!(eval_str("sin(\npi/2)").is_err());
    assert!(eval_str("1 * (2 + \n 3)").is_err());
    assert!(eval_str("a = \n2").is_err());
}

#[test]
fn test_user_functions() {
    let code = "\
        fn add(a, b, c) {\n\
            a + b + c\n\
        }\n\
        \n\
        fn sub(a, b) {\n\
            a - b\n\
        }\n\
        \n\
        sub(42, add(1, 2, 3))";
    assert_eq!(eval_f64(code), 36.0);

    assert!(eval_str("fn add(a, {b) a + b }").is_err());
    assert!(eval_str("fn empty_body() {}").is_ok());
    assert!(eval_str("fn no_args() {\n inspect(1)\n }").is_ok());
    assert!(eval_str("fn one_liner(a, b) { a + b }").is_ok());
    assert!(eval_str("fn trailing_comma(a, b,) { a + b }").is_err());
    assert!(eval_str("fn leading_comma(, a, b) { a + b }").is_err());
    assert!(eval_str("fn no_comma(a b) { a + b }").is_err());
    assert!(eval_str("fn contains_expression(a, b, 1 + 1) { a + b }").is_err());
    assert!(eval_str("fn duplicate_arg_name(a, a) { a + a }").is_err());
}

#[test]
fn test_if_statements() {
    let code = "\
        a = 0
        if (0) {
            a = 2
        }
        a";
    assert_eq!(eval_f64(code), 0.0);

    let code = "\
        a = 0
        if (1) {
            a = 2
        }
        a";
    assert_eq!(eval_f64(code), 2.0);

    let code = "\
        a = 0
        if (0) {
            a = 2
        } else {
            a = 3
        }
        a";
    assert_eq!(eval_f64(code), 3.0);

    let code = "\
        a = 0
        if (1) {
            a = 2
        } else {
            a = 3
        }
        a";
    assert_eq!(eval_f64(code), 2.0);
}

#[test]
fn test_errors_on_missing_newline() {
    assert!(eval_str("1 + 1 2 + 2").is_err());
    assert!(eval_str("1 2").is_err());
    assert!(eval_str("(1 * 3) 2").is_err());

    assert!(eval_str("fn add(a, b) { a + b } fn sub(a, b) { a - b }").is_err());
    assert!(eval_str("if (1){ 1 } if (2){ 2 }").is_err());
}

#[test]
fn test_empty_and_blank_inputs_evaluate_to_zero() {
    assert_eq!(eval_f64(""), 0.0);
    assert_eq!(eval_f64("\n"), 0.0);
    assert_eq!(eval_f64("\n\n\n\n\n\n"), 0.0);
}

#[test]
fn test_power_is_left_associative() {
    assert_eq!(eval_f64("2^3^2"), 64.0);
    assert_eq!(eval_f64("2 ^ 3 ^ 2"), 64.0);
}

#[test]
fn test_unary_minus_chain_parity() {
    assert_eq!(eval_f64("--2"), 2.0);
    assert_eq!(eval_f64("---2"), -2.0);
    assert_eq!(eval_f64("----2"), 2.0);
    assert_eq!(eval_f64("-----2"), -2.0);
    assert_eq!(eval_f64("3----2"), 5.0);
}

#[test]
fn test_modulo_by_zero_always_errors() {
    assert!(matches!(
        eval_str("0 % 0"),
        Err(CalcError::Eval(calc::eval::EvalError::ModuloByZero))
    ));
    assert!(matches!(
        eval_str("-3.5 % 0"),
        Err(CalcError::Eval(calc::eval::EvalError::ModuloByZero))
    ));
    assert!(matches!(
        eval_str("1337 % (2 - 2)"),
        Err(CalcError::Eval(calc::eval::EvalError::ModuloByZero))
    ));
}

#[test]
fn test_error_variants() {
    assert!(matches!(
        eval_str("2.3.4"),
        Err(CalcError::Tokenize(calc::tokenizer::TokenizeError::InvalidNumber))
    ));
    assert!(matches!(
        eval_str("2 $ 2"),
        Err(CalcError::Tokenize(calc::tokenizer::TokenizeError::UnexpectedCharacter))
    ));
    assert!(matches!(
        eval_str("no_such_variable"),
        Err(CalcError::Eval(calc::eval::EvalError::UndefinedVariable(_)))
    ));
    assert!(matches!(
        eval_str("no_such_function(1)"),
        Err(CalcError::Eval(calc::eval::EvalError::UndefinedFunction(_)))
    ));
    assert!(matches!(
        eval_str("sin(1, 2)"),
        Err(CalcError::Eval(calc::eval::EvalError::WrongArity { expected: 1, got: 2 }))
    ));
    assert!(matches!(
        eval_str("fn f(x, y, x) { x }"),
        Err(CalcError::Eval(calc::eval::EvalError::DuplicateParameterName(_)))
    ));
    assert!(matches!(
        eval_str("sqrt(-0.25)"),
        Err(CalcError::Eval(calc::eval::EvalError::DomainError(_)))
    ));
    assert!(matches!(
        eval_str("}"),
        Err(CalcError::Parse(calc::parser::ParseError::UnexpectedToken(_)))
    ));
    assert!(matches!(
        eval_str("2 +"),
        Err(CalcError::Parse(calc::parser::ParseError::NoTokensLeft))
    ));
}

#[test]
fn test_add_function_refuses_collisions() {
    let mut ctx = Context::new();
    assert!(matches!(
        ctx.add_function("sin", Function::new_builtin(1, BuiltinOp::Sin)),
        Err(calc::eval::EvalError::FunctionAlreadyDefined(_))
    ));
    assert!(ctx.add_function("twice_max", Function::new_builtin(2, BuiltinOp::Max)).is_ok());
    assert!(matches!(
        ctx.add_function("twice_max", Function::new_builtin(2, BuiltinOp::Max)),
        Err(calc::eval::EvalError::FunctionAlreadyDefined(_))
    ));
}

#[test]
fn test_recursion_is_cut_off() {
    assert!(matches!(
        eval_str("fn f() { f() }\nf()"),
        Err(CalcError::Eval(calc::eval::EvalError::RecursionLimitReached))
    ));
}

#[test]
fn test_recursive_function_terminates() {
    let code = "\
        fn fac(n) {
            r = 1
            if (n) {
                r = n * fac(n - 1)
            }
            r
        }
        fac(5)";
    assert_eq!(eval_f64(code), 120.0);
}

#[test]
fn test_function_scope_is_isolated() {
    let mut ctx = Context::new();
    assert_eq!(eval_ctx_f64("hidden = 41", &mut ctx), 41.0);
    assert!(eval_str_ctx("fn peek() { hidden + 1 }", &mut ctx).is_ok());
    assert!(eval_str_ctx("peek()", &mut ctx).is_err());
    assert_eq!(var_f64(&ctx, "hidden"), Some(41.0));
}

#[test]
fn test_wrong_arity_in_nested_calls() {
    let mut ctx = Context::new();
    assert!(eval_str_ctx("fn g(a, b) { a + b }", &mut ctx).is_ok());
    assert!(matches!(
        eval_str_ctx("g(1, g(2))", &mut ctx),
        Err(CalcError::Eval(calc::eval::EvalError::WrongArity { expected: 2, got: 1 }))
    ));
    assert!(matches!(
        eval_str_ctx("g(g(1, 2, 3), 4)", &mut ctx),
        Err(CalcError::Eval(calc::eval::EvalError::WrongArity { expected: 2, got: 3 }))
    ));
}

#[test]
fn test_assignment_yields_value_and_persists() {
    let mut ctx = Context::new();
    assert_eq!(eval_ctx_f64("a = 2", &mut ctx), 2.0);
    assert_eq!(var_f64(&ctx, "a"), Some(2.0));
    assert_eq!(eval_ctx_f64("a + 1", &mut ctx), 3.0);
    assert_eq!(eval_ctx_f64("a = a + 40", &mut ctx), 42.0);
    assert_eq!(var_f64(&ctx, "a"), Some(42.0));
}

#[test]
fn test_seeded_constants() {
    let mut ctx = Context::new();
    assert!((eval_ctx_f64("pi", &mut ctx) - std::f64::consts::PI).abs() < 1e-12);
    assert!((eval_ctx_f64("e", &mut ctx) - std::f64::consts::E).abs() < 1e-12);
}

#[test]
fn test_number_literal_shapes() {
    assert_eq!(eval_f64(".5"), 0.5);
    assert_eq!(eval_f64("2."), 2.0);
    assert_eq!(eval_f64("1.25 + 0.75"), 2.0);
    assert_eq!(eval_f64("0.1"), 0.1);
}
