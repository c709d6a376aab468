use monet::ast::{Expr, Function, Prototype};
use monet::decimal::Decimal;
use monet::parser::{
    expression_parser, parse_definition, parse_extern, parse_identifier_expr, parse_number_expr,
    parse_paren_expr, parse_primary, parse_prototype, Expected, SyntaxError,
};

fn num(int_digits: &str, frac_digits: &str) -> Expr {
    Expr::Number(Decimal::new(int_digits, frac_digits).unwrap())
}

fn var(name: &str) -> Expr {
    Expr::Variable(name.to_string())
}

fn bin(op: char, lhs: Expr, rhs: Expr) -> Expr {
    Expr::BinOp { op, lhs: Box::new(lhs), rhs: Box::new(rhs) }
}

fn names(v: &[&str]) -> Vec<String> {
    v.iter().map(|s| s.to_string()).collect()
}

#[test]
fn test_lt_op_precedence() {
    let result = expression_parser("3.0 < 4.0 * 2.0").unwrap().0;
    let expected = bin('<', num("3", "0"), bin('*', num("4", "0"), num("2", "0")));
    assert_eq!(result, expected);
}

#[test]
fn test_op_with_var() {
    let result = expression_parser("3.0 + 4.0 * x").unwrap().0;
    let expected = bin('+', num("3", "0"), bin('*', num("4", "0"), var("x")));
    assert_eq!(result, expected);
}

#[test]
fn test_sub_and_add_op_precedence() {
    let result = expression_parser("3.0 + 4.0 - 2.0").unwrap().0;
    let expected = bin('+', num("3", "0"), bin('-', num("4", "0"), num("2", "0")));
    assert_eq!(result, expected);
}

#[test]
fn test_div_and_mul_op_precedence() {
    let result = expression_parser("3.0 * 4.0 / 2.0").unwrap().0;
    let expected = bin('*', num("3", "0"), bin('/', num("4", "0"), num("2", "0")));
    assert_eq!(result, expected);
}

#[test]
fn test_all_op_precedence() {
    let result = expression_parser("3.0 + 4.0 * 2.0 / 2.0 - 1.0").unwrap().0;
    let expected = bin(
        '+',
        num("3", "0"),
        bin(
            '-',
            bin('*', num("4", "0"), bin('/', num("2", "0"), num("2", "0"))),
            num("1", "0"),
        ),
    );
    assert_eq!(result, expected);
}

#[test]
fn test_op_with_paren() {
    let result = expression_parser("(3.0 + 4.0) * 2.0").unwrap().0;
    let expected = bin('*', bin('+', num("3", "0"), num("4", "0")), num("2", "0"));
    assert_eq!(result, expected);
}

#[test]
fn test_simple_number() {
    let result = expression_parser("32.1").unwrap().0;
    assert_eq!(result, num("32", "1"));
}

#[test]
fn test_simple_op() {
    let result = expression_parser("32.1 + 20.2").unwrap().0;
    assert_eq!(result, bin('+', num("32", "1"), num("20", "2")));
}

#[test]
fn test_parse_primary() {
    let result = parse_primary(" 3.14  ").unwrap().0;
    assert_eq!(result, num("3", "14"));
    let result = parse_primary("44.2 ").unwrap().0;
    assert_eq!(result, num("44", "2"));
}

#[test]
fn test_number() {
    let result = parse_number_expr("3.14").unwrap().0;
    assert_eq!(result, num("3", "14"));
    let result = parse_number_expr("30.0").unwrap().0;
    assert_eq!(result, num("30", "0"));
}

#[test]
fn test_paren_expr() {
    let result = parse_paren_expr("(3.14)").unwrap().0;
    assert_eq!(result, num("3", "14"));
}

#[test]
fn test_parse_prototype() {
    let result = parse_prototype("foo(x y z)").unwrap().0;
    let expected = Prototype::new("foo".to_string(), names(&["x", "y", "z"]));
    assert_eq!(result, expected);
}

#[test]
fn test_parse_definition() {
    let result = parse_definition("def foo(x y z) 3.14 + 0.2").unwrap().0;
    let expected = Function::new(
        Prototype::new("foo".to_string(), names(&["x", "y", "z"])),
        bin('+', num("3", "14"), num("0", "2")),
    );
    assert_eq!(result, expected);
}

#[test]
fn test_parse_definition_with_var() {
    let result = parse_definition("def foo(x y z) 3.14 + x * (y - z)").unwrap().0;
    let expected = Function::new(
        Prototype::new("foo".to_string(), names(&["x", "y", "z"])),
        bin('+', num("3", "14"), bin('*', var("x"), bin('-', var("y"), var("z")))),
    );
    assert_eq!(result, expected);
}

#[test]
fn test_parse_definition_with_call() {
    let result = parse_definition("def foo(x y) x + foo(y 4.0)").unwrap().0;
    let expected = Function::new(
        Prototype::new("foo".to_string(), names(&["x", "y"])),
        bin(
            '+',
            var("x"),
            Expr::Call { callee: "foo".to_string(), args: vec![var("y"), num("4", "0")] },
        ),
    );
    assert_eq!(result, expected);
}

#[test]
fn test_identifier() {
    let result = parse_identifier_expr("foo").unwrap().0;
    assert_eq!(result, var("foo"));

    let result = parse_identifier_expr("foo (bar 3.14)").unwrap().0;
    assert_eq!(
        result,
        Expr::Call { callee: "foo".to_string(), args: vec![var("bar"), num("3", "14")] }
    );

    let result = parse_identifier_expr("foo(bar 3.14)").unwrap().0;
    assert_eq!(
        result,
        Expr::Call { callee: "foo".to_string(), args: vec![var("bar"), num("3", "14")] }
    );
}

#[test]
fn decimal_literal_forms() {
    assert_eq!(parse_number_expr("50.").unwrap(), (num("50", ""), 3));
    assert_eq!(parse_number_expr(".43").unwrap(), (num("", "43"), 3));
    assert_eq!(parse_number_expr(".").unwrap(), (num("", ""), 1));
    assert_eq!(parse_number_expr("007.500").unwrap(), (num("7", "5"), 7));
    let d = Decimal::new("0012", "3400").unwrap();
    assert_eq!(d.integer_digits(), "12");
    assert_eq!(d.fraction_digits(), "34");
    assert!(Decimal::new("1a", "").is_none());
}

#[test]
fn number_consumes_only_the_literal() {
    assert_eq!(parse_number_expr("1.5+2.").unwrap(), (num("1", "5"), 3));
    assert_eq!(expression_parser("1.5 ) 2.").unwrap(), (num("1", "5"), 4));
}

#[test]
fn digits_without_point_are_rejected() {
    assert_eq!(
        expression_parser("32"),
        Err(SyntaxError { position: 2, expected: Expected::Char('.') })
    );
}

#[test]
fn missing_operand_is_rejected() {
    assert_eq!(
        expression_parser("3.0 +"),
        Err(SyntaxError { position: 5, expected: Expected::Primary })
    );
    assert_eq!(
        expression_parser("(3.0 + 1.0"),
        Err(SyntaxError { position: 10, expected: Expected::Char(')') })
    );
}

#[test]
fn subtraction_chains_to_the_left() {
    let result = expression_parser("5. - 2. - 1.").unwrap().0;
    assert_eq!(result, bin('-', bin('-', num("5", ""), num("2", "")), num("1", "")));
}

#[test]
fn comparison_is_loosest() {
    let result = expression_parser("1. + 2. < 3. - 4.").unwrap().0;
    assert_eq!(
        result,
        bin('<', bin('+', num("1", ""), num("2", "")), bin('-', num("3", ""), num("4", "")))
    );
}

#[test]
fn call_arguments_are_primaries() {
    let result = expression_parser("f(x.5 (1. + y) g())").unwrap().0;
    let expected = Expr::Call {
        callee: "f".to_string(),
        args: vec![
            var("x"),
            num("", "5"),
            bin('+', num("1", ""), var("y")),
            Expr::Call { callee: "g".to_string(), args: vec![] },
        ],
    };
    assert_eq!(result, expected);
    assert_eq!(
        expression_parser("f(1. + 2.)"),
        Err(SyntaxError { position: 5, expected: Expected::Char(')') })
    );
}

#[test]
fn identifiers_take_letters_digits_and_underscores() {
    assert_eq!(parse_identifier_expr("déjà_vu2 ").unwrap(), (var("déjà_vu2"), 9));
    assert_eq!(
        parse_identifier_expr("+x"),
        Err(SyntaxError { position: 0, expected: Expected::Identifier })
    );
}

#[test]
fn prototype_rules() {
    let p = parse_prototype("f()").unwrap().0;
    assert_eq!(p, Prototype::new("f".to_string(), vec![]));
    assert_eq!(
        parse_prototype("f(x  y)"),
        Err(SyntaxError { position: 4, expected: Expected::Identifier })
    );
    assert_eq!(
        parse_prototype("f (x)"),
        Err(SyntaxError { position: 1, expected: Expected::Char('(') })
    );
    assert_eq!(
        parse_prototype("f(x"),
        Err(SyntaxError { position: 3, expected: Expected::Char(')') })
    );
}

#[test]
fn definition_needs_keyword() {
    assert_eq!(
        parse_definition("fed f(x) x"),
        Err(SyntaxError { position: 0, expected: Expected::Def })
    );
}

#[test]
fn extern_declaration() {
    let (p, n) = parse_extern("extern  sin(x)").unwrap();
    assert_eq!(p, Prototype::new("sin".to_string(), names(&["x"])));
    assert_eq!(n, 14);
    assert_eq!(
        parse_extern("sin(x)"),
        Err(SyntaxError { position: 0, expected: Expected::Extern })
    );
}

#[test]
fn parsing_twice_gives_equal_trees() {
    let text = "def foo(x y) x + foo(y 4.0) * (y - 1.5) < 2.";
    assert_eq!(parse_definition(text), parse_definition(text));
    assert_eq!(expression_parser("a(b c) / .5"), expression_parser("a(b c) / .5"));
}
