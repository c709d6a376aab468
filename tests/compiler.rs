use monet::ast::{Expr, Function, Prototype};
use monet::compiler::{CompileError, Compiler};
use monet::decimal::Decimal;
use monet::ir::{BinaryKind, Instr, Module};
use monet::parser::{expression_parser, parse_definition, parse_number_expr};

fn dec(int_digits: &str, frac_digits: &str) -> Decimal {
    Decimal::new(int_digits, frac_digits).unwrap()
}

fn num(int_digits: &str, frac_digits: &str) -> Expr {
    Expr::Number(dec(int_digits, frac_digits))
}

fn var(name: &str) -> Expr {
    Expr::Variable(name.to_string())
}

fn bin(op: char, lhs: Expr, rhs: Expr) -> Expr {
    Expr::BinOp { op, lhs: Box::new(lhs), rhs: Box::new(rhs) }
}

fn proto(name: &str, args: &[&str]) -> Prototype {
    Prototype::new(name.to_string(), args.iter().map(|s| s.to_string()).collect())
}

fn body_of(c: &Compiler, handle: usize) -> &Vec<Instr> {
    c.module().function(handle).body.as_ref().unwrap()
}

#[test]
fn test_compile_number() {
    let mut compiler = Compiler::new(Module::new());
    let result = compiler.compile_expr(&num("1", "0")).unwrap();
    assert_eq!(result, 0);
    assert_eq!(compiler.instructions(), &vec![Instr::Const(dec("1", ""))]);
}

#[test]
fn test_compile_variable() {
    let mut compiler = Compiler::new(Module::new());
    let f = Function::new(proto("my_function", &["x"]), var("x"));
    let h = compiler.compile_fn(&f).unwrap();
    assert_eq!(
        body_of(&compiler, h),
        &vec![
            Instr::Alloca("x".to_string()),
            Instr::StoreParam { slot: 0, param: 0 },
            Instr::Load { slot: 0, name: "x".to_string() },
            Instr::Return(2),
        ]
    );
}

#[test]
fn test_compile_function() {
    let mut module = Module::new();
    module.declare_function(proto("fadd", &["x", "y"]));
    let mut compiler = Compiler::new(module);
    let function = Function::new(proto("fadd", &["x", "y"]), bin('+', var("x"), var("y")));
    let result = compiler.compile_fn(&function).expect("Failed to compile function");
    assert_eq!(result, 1);
    let f = compiler.module().function(result);
    assert_eq!(f.prototype, proto("fadd", &["x", "y"]));
    assert_eq!(f.prototype.args[0], "x");
    assert_eq!(f.prototype.args[1], "y");
}

#[test]
fn test_compile_call() {
    let mut module = Module::new();
    module.declare_function(proto("fadd", &["x", "y"]));
    let mut compiler = Compiler::new(module);
    let expr = Expr::Call { callee: "fadd".to_string(), args: vec![num("1", "0"), num("3", "0")] };
    let result = compiler.compile_expr(&expr).unwrap();
    assert_eq!(result, 2);
    assert_eq!(
        compiler.instructions(),
        &vec![
            Instr::Const(dec("1", "")),
            Instr::Const(dec("3", "")),
            Instr::Call { callee: 0, args: vec![0, 1] },
        ]
    );
}

#[test]
fn test_compile_binop() {
    let mut compiler = Compiler::new(Module::new());
    let expr = bin('+', num("1", "0"), num("3", "0"));
    let result = compiler.compile_expr(&expr).unwrap();
    assert_eq!(result, 2);
    assert_eq!(
        compiler.instructions(),
        &vec![
            Instr::Const(dec("1", "")),
            Instr::Const(dec("3", "")),
            Instr::Binary { op: BinaryKind::Add, lhs: 0, rhs: 1 },
        ]
    );
}

#[test]
fn test_compile_prototype() {
    let mut compiler = Compiler::new(Module::new());
    let p = proto("foo", &["x", "y"]);
    let result = compiler.compile_prototype(&p);
    assert_eq!(result, 0);
    assert_eq!(compiler.module().function(0).prototype, p);
    assert!(compiler.module().function(0).body.is_none());
}

#[test]
fn integration_test_decimal() {
    let expr = parse_number_expr("30.14").unwrap().0;
    assert_eq!(expr, num("30", "14"));
    let mut compiler = Compiler::new(Module::new());
    let result = compiler.compile_expr(&expr).unwrap();
    assert_eq!(compiler.instructions()[result], Instr::Const(dec("30", "14")));
}

#[test]
fn test_fn() {
    let result = parse_definition("def foo(x y) x + foo(y 4.0)").unwrap().0;
    let expected = Function::new(
        proto("foo", &["x", "y"]),
        bin(
            '+',
            var("x"),
            Expr::Call { callee: "foo".to_string(), args: vec![var("y"), num("4", "0")] },
        ),
    );
    assert_eq!(result, expected);
    let mut compiler = Compiler::new(Module::new());
    let h = compiler.compile_fn(&result).expect("Failed to compile function");
    let f = compiler.module().function(h);
    assert_eq!(f.prototype.name, "foo");
    assert_eq!(f.prototype.args, vec!["x".to_string(), "y".to_string()]);
    assert_eq!(
        f.body.as_ref().unwrap(),
        &vec![
            Instr::Alloca("x".to_string()),
            Instr::StoreParam { slot: 0, param: 0 },
            Instr::Alloca("y".to_string()),
            Instr::StoreParam { slot: 2, param: 1 },
            Instr::Load { slot: 0, name: "x".to_string() },
            Instr::Load { slot: 2, name: "y".to_string() },
            Instr::Const(dec("4", "")),
            Instr::Call { callee: 0, args: vec![5, 6] },
            Instr::Binary { op: BinaryKind::Add, lhs: 4, rhs: 7 },
            Instr::Return(8),
        ]
    );
}

#[test]
fn test_op() {
    let expr = expression_parser("6.0 < 4.0 * 20.0").unwrap().0;
    let expected = bin('<', num("6", "0"), bin('*', num("4", "0"), num("20", "0")));
    assert_eq!(expr, expected);
    let mut compiler = Compiler::new(Module::new());
    let result = compiler.compile_expr(&expr).unwrap();
    assert_eq!(result, 4);
    assert_eq!(
        compiler.instructions(),
        &vec![
            Instr::Const(dec("6", "")),
            Instr::Const(dec("4", "")),
            Instr::Const(dec("20", "")),
            Instr::Binary { op: BinaryKind::Mul, lhs: 1, rhs: 2 },
            Instr::Binary { op: BinaryKind::Lt, lhs: 0, rhs: 3 },
        ]
    );
    let expr = expression_parser("5.0 < 2.0").unwrap().0;
    let result = compiler.compile_expr(&expr).unwrap();
    assert_eq!(result, 7);
    assert_eq!(compiler.instructions()[7], Instr::Binary { op: BinaryKind::Lt, lhs: 5, rhs: 6 });
}

#[test]
fn every_operator_has_its_operation() {
    let ops = [('+', BinaryKind::Add), ('-', BinaryKind::Sub), ('*', BinaryKind::Mul), ('/', BinaryKind::Div), ('<', BinaryKind::Lt)];
    for (c, k) in ops {
        let mut compiler = Compiler::new(Module::new());
        let r = compiler.compile_expr(&bin(c, num("1", ""), num("2", ""))).unwrap();
        assert_eq!(compiler.instructions()[r], Instr::Binary { op: k, lhs: 0, rhs: 1 });
    }
}

#[test]
fn undefined_variable_fails() {
    let mut compiler = Compiler::new(Module::new());
    let f = Function::new(proto("f", &["x"]), bin('+', var("x"), var("z")));
    assert_eq!(compiler.compile_fn(&f), Err(CompileError::UndefinedVariable));
    assert_eq!(compiler.module().len(), 0);
    assert_eq!(compiler.compile_expr(&var("x")), Err(CompileError::UndefinedVariable));
}

#[test]
fn undefined_function_fails() {
    let mut compiler = Compiler::new(Module::new());
    let call = Expr::Call { callee: "bar".to_string(), args: vec![num("1", "")] };
    assert_eq!(compiler.compile_expr(&call), Err(CompileError::UndefinedFunction));
    let f = Function::new(proto("f", &["x"]), call);
    assert_eq!(compiler.compile_fn(&f), Err(CompileError::UndefinedFunction));
    assert_eq!(compiler.module().len(), 0);
}

#[test]
fn unknown_operator_fails() {
    let mut compiler = Compiler::new(Module::new());
    assert_eq!(
        compiler.compile_expr(&bin('%', num("1", ""), num("2", ""))),
        Err(CompileError::UnknownOperator)
    );
}

#[test]
fn operands_fail_before_the_operator() {
    let mut compiler = Compiler::new(Module::new());
    assert_eq!(
        compiler.compile_expr(&bin('%', var("q"), num("2", ""))),
        Err(CompileError::UndefinedVariable)
    );
}

#[test]
fn empty_operand_fails() {
    let mut compiler = Compiler::new(Module::new());
    assert_eq!(
        compiler.compile_expr(&bin('+', Expr::Empty, num("2", ""))),
        Err(CompileError::EmptyExpression)
    );
}

#[test]
fn declaration_only_function() {
    let mut compiler = Compiler::new(Module::new());
    let f = Function::new(proto("sin", &["x"]), Expr::Empty);
    assert_eq!(compiler.compile_fn(&f), Ok(0));
    assert!(compiler.module().function(0).body.is_none());
    let call = Expr::Call { callee: "sin".to_string(), args: vec![num("", "5")] };
    let g = Function::new(proto("g", &[]), call);
    assert_eq!(compiler.compile_fn(&g), Ok(1));
    assert_eq!(
        body_of(&compiler, 1),
        &vec![Instr::Const(dec("", "5")), Instr::Call { callee: 0, args: vec![0] }, Instr::Return(1)]
    );
}

#[test]
fn wrong_arity_fails_verification() {
    let mut compiler = Compiler::new(Module::new());
    let f = parse_definition("def f(x) f(1. 2.)").unwrap().0;
    assert_eq!(compiler.compile_fn(&f), Err(CompileError::VerificationFailure));
    assert_eq!(compiler.module().len(), 0);
}

#[test]
fn later_parameter_shadows_earlier() {
    let mut compiler = Compiler::new(Module::new());
    let f = Function::new(proto("f", &["x", "x"]), var("x"));
    let h = compiler.compile_fn(&f).unwrap();
    assert_eq!(body_of(&compiler, h)[4], Instr::Load { slot: 2, name: "x".to_string() });
}

#[test]
fn module_check_of_bodies() {
    let mut module = Module::new();
    module.declare_function(proto("f", &["a"]));
    assert!(module.verify_body(&vec![Instr::Const(dec("1", "")), Instr::Return(0)], 0));
    assert!(!module.verify_body(&vec![Instr::Return(0)], 0));
    assert!(!module.verify_body(&vec![Instr::Const(dec("1", ""))], 0));
    assert!(!module.verify_body(&vec![Instr::Alloca("a".to_string()), Instr::Return(0)], 0));
    assert!(!module.verify_body(&vec![Instr::Alloca("a".to_string()), Instr::StoreParam { slot: 0, param: 1 }, Instr::Const(dec("1", "")), Instr::Return(2)], 1));
    assert_eq!(module.lookup_function("f"), Some(0));
    assert_eq!(module.lookup_function("g"), None);
}

#[test]
fn one_instruction_per_node() {
    let mut compiler = Compiler::new(Module::new());
    let expr = expression_parser("1. - 2. / 3. < 4. * (5. + 6.)").unwrap().0;
    let r = compiler.compile_expr(&expr).unwrap();
    assert_eq!(compiler.instructions().len(), 11);
    assert_eq!(r, 10);
}
