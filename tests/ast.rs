use monet::ast::{Expr, Function, Prototype, SimpleExpr};
use monet::decimal::Decimal;
use monet::parser::{expression_parser, parse_identifier_expr};
use monet::render::translate_to_rust;
use monet::{add, translate_to_str};

fn num(int_digits: &str, frac_digits: &str) -> Expr {
    Expr::Number(Decimal::new(int_digits, frac_digits).unwrap())
}

fn bin(op: char, lhs: Expr, rhs: Expr) -> Expr {
    Expr::BinOp { op, lhs: Box::new(lhs), rhs: Box::new(rhs) }
}

#[test]
fn test_simple_eval() {
    let result = SimpleExpr::Number(3).eval();
    assert_eq!(result, 3);
    let e = SimpleExpr::Add(
        Box::new(SimpleExpr::Number(3)),
        Box::new(SimpleExpr::Sub(
            Box::new(SimpleExpr::Number(10)),
            Box::new(SimpleExpr::Number(5)),
        )),
    );
    assert_eq!(e.eval(), 8);
}

#[test]
fn simple_division_rounds_toward_zero() {
    let div = |a: i32, b: i32| {
        SimpleExpr::Div(Box::new(SimpleExpr::Number(a)), Box::new(SimpleExpr::Number(b))).eval()
    };
    assert_eq!(div(7, 2), 3);
    assert_eq!(div(-7, 2), -3);
    assert_eq!(div(7, -2), -3);
    assert_eq!(div(-7, -2), 3);
    assert_eq!(div(i32::MIN, 1), i32::MIN);
    let m = SimpleExpr::Mul(Box::new(SimpleExpr::Number(-4)), Box::new(SimpleExpr::Number(6)));
    assert_eq!(m.eval(), -24);
}

#[test]
fn test_translate_to_rust() {
    let output = translate_to_rust(num("3", "1"));
    assert_eq!(output, "3.1");

    let output = translate_to_rust(num("3", "1418"));
    assert_eq!(output, "3.1418");

    let input = bin('+', num("3", "01"), bin('*', num("4", "120"), num("5", "08")));
    let output = translate_to_rust(input);
    assert_eq!(output, "3.01 + 4.12 * 5.08");

    let input = bin(
        '+',
        num("3", "2"),
        bin('*', num("4", "5"), bin('/', num("5", "4"), num("2", "0"))),
    );
    let output = translate_to_rust(input);
    assert_eq!(output, "3.2 + 4.5 * 5.4 / 2.");
}

#[test]
fn translate_to_str_writes_rust() {
    assert_eq!(translate_to_str(bin('-', num("", "5"), num("10", ""))), "0.5 - 10.");
}

#[test]
fn expression_text() {
    let e = expression_parser("1200.21 + 54.012").unwrap().0;
    assert_eq!(e, bin('+', num("1200", "21"), num("54", "012")));
    assert_eq!(e.to_string(), "1200.21 + 54.012");
    assert_eq!(e.wrap().to_string(), "1200.21 + 54.012");
    let c = parse_identifier_expr("foo(bar 3.140)").unwrap().0;
    assert_eq!(c.to_string(), "foo bar 3.14");
    assert_eq!(expression_parser("3.0").unwrap().0.to_string(), "3");
    assert_eq!(expression_parser(".5").unwrap().0.to_string(), "0.5");
    assert_eq!(Expr::Empty.to_string(), "");
}

#[test]
fn wrapper_round_trip() {
    let e = expression_parser("f((1. < y) x g()) / 2.5 - z").unwrap().0;
    let w = e.wrap();
    assert_eq!(w.to_expr(), e);
    assert_eq!(w.to_string(), e.to_string());
    assert_eq!(Expr::Empty.wrap().to_expr(), Expr::Empty);
}

#[test]
fn defaults() {
    let p = Prototype::default();
    assert_eq!(p.name(), "tmp");
    assert!(p.args.is_empty());
    let f = Function::default();
    assert_eq!(f.prototype, p);
    assert_eq!(f.body, Expr::Empty);
    assert_eq!(Expr::default(), Expr::Empty);
}

#[test]
fn add_sums() {
    assert_eq!(add(2, 3), 5);
    assert_eq!(add(-7, 3), -4);
}
