use vstd::prelude::*;
use crate::decimal::{Decimal, SDecimal};

verus! {

/// Spec-level model of an expression.
pub enum SExpr {
    Number(SDecimal),
    Variable(Seq<char>),
    BinOp { op: char, lhs: Box<SExpr>, rhs: Box<SExpr> },
    Call { callee: Seq<char>, args: Seq<SExpr> },
    Empty,
}

/// Spec-level model of a prototype: a name and its parameter names.
pub struct SPrototype {
    pub name: Seq<char>,
    pub args: Seq<Seq<char>>,
}

/// Spec-level model of a function definition.
pub struct SFunction {
    pub prototype: SPrototype,
    pub body: SExpr,
}

/// An expression of the language. `Empty` stands for the missing body of a
/// declaration without a definition.
#[derive(Debug, PartialEq)]
pub enum Expr {
    Number(Decimal),
    Variable(String),
    BinOp { op: char, lhs: Box<Expr>, rhs: Box<Expr> },
    Call { callee: String, args: Vec<Expr> },
    Empty,
}

pub open spec fn expr_view(e: Expr) -> SExpr
    decreases e,
{
    match e {
        Expr::Number(d) => SExpr::Number(d@),
        Expr::Variable(n) => SExpr::Variable(n@),
        Expr::BinOp { op, lhs, rhs } => SExpr::BinOp {
            op,
            lhs: Box::new(expr_view(*lhs)),
            rhs: Box::new(expr_view(*rhs)),
        },
        Expr::Call { callee, args } => SExpr::Call {
            callee: callee@,
            args: Seq::new(
                args.len() as nat,
                |i: int|
                    if 0 <= i < args.len() {
                        expr_view(args[i])
                    } else {
                        SExpr::Empty
                    },
            ),
        },
        Expr::Empty => SExpr::Empty,
    }
}

impl View for Expr {
    type V = SExpr;

    open spec fn view(&self) -> SExpr {
        expr_view(*self)
    }
}

impl Default for Expr {
    fn default() -> (r: Expr)
        ensures
            r is Empty,
    {
        Expr::Empty
    }
}

/// The views of a list of names.
pub open spec fn names_view(v: Seq<String>) -> Seq<Seq<char>> {
    v.map_values(|a: String| a@)
}

/// A function's name and the names of its parameters, in order.
#[derive(Clone, Debug, PartialEq)]
pub struct Prototype {
    pub name: String,
    pub args: Vec<String>,
}

impl View for Prototype {
    type V = SPrototype;

    open spec fn view(&self) -> SPrototype {
        SPrototype { name: self.name@, args: names_view(self.args@) }
    }
}

impl Prototype {
    pub fn new(name: String, args: Vec<String>) -> (r: Prototype)
        ensures
            r.name == name,
            r.args == args,
    {
        Prototype { name, args }
    }

    pub fn name(&self) -> (r: String)
        ensures
            r@ == self.name@,
    {
        self.name.clone()
    }
}

impl Default for Prototype {
    /// The anonymous prototype `tmp()`.
    fn default() -> (r: Prototype)
        ensures
            r.name@ == seq!['t', 'm', 'p'],
            r.args.len() == 0,
    {
        let name = String::from_str("tmp");
        proof {
            reveal_strlit("tmp");
        }
        Prototype { name, args: Vec::new() }
    }
}

/// A prototype with its body; an `Empty` body makes it a declaration only.
#[derive(Debug, PartialEq)]
pub struct Function {
    pub prototype: Prototype,
    pub body: Expr,
}

impl View for Function {
    type V = SFunction;

    open spec fn view(&self) -> SFunction {
        SFunction { prototype: self.prototype@, body: self.body@ }
    }
}

impl Function {
    pub fn new(prototype: Prototype, body: Expr) -> (r: Function)
        ensures
            r.prototype == prototype,
            r.body == body,
    {
        Function { prototype, body }
    }
}

impl Default for Function {
    /// The declaration `tmp()` without a body.
    fn default() -> (r: Function)
        ensures
            r.prototype.name@ == seq!['t', 'm', 'p'],
            r.prototype.args.len() == 0,
            r.body is Empty,
    {
        Function { prototype: Prototype::default(), body: Expr::Empty }
    }
}

/// A small integer expression language.
#[derive(Debug, PartialEq)]
pub enum SimpleExpr {
    Number(i32),
    Add(Box<SimpleExpr>, Box<SimpleExpr>),
    Sub(Box<SimpleExpr>, Box<SimpleExpr>),
    Mul(Box<SimpleExpr>, Box<SimpleExpr>),
    Div(Box<SimpleExpr>, Box<SimpleExpr>),
}

/// Integer division rounding toward zero, as Rust's `/` on integers does.
pub open spec fn trunc_div(a: int, b: int) -> int {
    let q = (if a >= 0 { a } else { -a }) / (if b >= 0 { b } else { -b });
    if (a >= 0) == (b >= 0) {
        q
    } else {
        -q
    }
}

/// The value of `e`, with integer division rounding toward zero.
pub open spec fn simple_value(e: SimpleExpr) -> int
    decreases e,
{
    match e {
        SimpleExpr::Number(n) => n as int,
        SimpleExpr::Add(l, r) => simple_value(*l) + simple_value(*r),
        SimpleExpr::Sub(l, r) => simple_value(*l) - simple_value(*r),
        SimpleExpr::Mul(l, r) => simple_value(*l) * simple_value(*r),
        SimpleExpr::Div(l, r) => trunc_div(simple_value(*l), simple_value(*r)),
    }
}

pub open spec fn fits_i32(v: int) -> bool {
    i32::MIN <= v <= i32::MAX
}

/// Whether every step of evaluating `e` fits in an `i32`, with no division by zero.
pub open spec fn evaluable(e: SimpleExpr) -> bool
    decreases e,
{
    match e {
        SimpleExpr::Number(_) => true,
        SimpleExpr::Add(l, r) => evaluable(*l) && evaluable(*r) && fits_i32(simple_value(e)),
        SimpleExpr::Sub(l, r) => evaluable(*l) && evaluable(*r) && fits_i32(simple_value(e)),
        SimpleExpr::Mul(l, r) => evaluable(*l) && evaluable(*r) && fits_i32(simple_value(e)),
        SimpleExpr::Div(l, r) => evaluable(*l) && evaluable(*r) && simple_value(*r) != 0
            && fits_i32(simple_value(e)),
    }
}

impl SimpleExpr {
    pub fn eval(&self) -> (r: i32)
        requires
            evaluable(*self),
        ensures
            r == simple_value(*self),
        decreases self,
    {
        match self {
            SimpleExpr::Number(n) => *n,
            SimpleExpr::Add(lhs, rhs) => lhs.eval() + rhs.eval(),
            SimpleExpr::Sub(lhs, rhs) => lhs.eval() - rhs.eval(),
            SimpleExpr::Mul(lhs, rhs) => lhs.eval() * rhs.eval(),
            SimpleExpr::Div(lhs, rhs) => div_toward_zero(lhs.eval(), rhs.eval()),
        }
    }
}

fn magnitude(a: i32) -> (r: u32)
    ensures
        r == (if a >= 0 { a as int } else { -a }),
{
    if a >= 0 {
        a as u32
    } else {
        (-(a as i64)) as u32
    }
}

/// `a / b`, rounding toward zero.
fn div_toward_zero(a: i32, b: i32) -> (r: i32)
    requires
        b != 0,
        fits_i32(trunc_div(a as int, b as int)),
    ensures
        r == trunc_div(a as int, b as int),
{
    let q = magnitude(a) / magnitude(b);
    if (a >= 0) == (b >= 0) {
        q as i32
    } else {
        (-(q as i64)) as i32
    }
}

} // verus!
