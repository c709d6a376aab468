//! A flat record form of expressions, one optional field per kind of
//! content, for hosts that cannot take a sum type.
use vstd::prelude::*;
use crate::ast::{Expr, SExpr};
use crate::decimal::Decimal;
use crate::parser::exprs_view;
use crate::render::expr_text;

verus! {

/// An expression as a record: `variant_type` says which kind it is (0 a
/// number, 1 a variable, 2 an operation, 3 a call, 4 empty) and the matching
/// fields hold its parts.
#[derive(Debug, PartialEq, Default)]
pub struct ExprWrapper {
    variant_type: u8,
    number_value: Option<Decimal>,
    variable_name: Option<String>,
    op_value: Option<char>,
    lhs_value: Option<Box<ExprWrapper>>,
    rhs_value: Option<Box<ExprWrapper>>,
    callee_value: Option<String>,
    args_value: Option<Vec<ExprWrapper>>,
}

pub open spec fn text_or_empty(s: Option<String>) -> Seq<char> {
    match s {
        Some(t) => t@,
        None => Seq::empty(),
    }
}

/// The expression that a record stands for; a missing part reads as empty.
pub closed spec fn wrapped_expr(w: ExprWrapper) -> SExpr
    decreases w,
{
    if w.variant_type == 0 {
        match w.number_value {
            Some(d) => SExpr::Number(d@),
            None => SExpr::Empty,
        }
    } else if w.variant_type == 1 {
        SExpr::Variable(text_or_empty(w.variable_name))
    } else if w.variant_type == 2 {
        SExpr::BinOp {
            op: match w.op_value {
                Some(c) => c,
                None => ' ',
            },
            lhs: Box::new(
                match w.lhs_value {
                    Some(b) => wrapped_expr(*b),
                    None => SExpr::Empty,
                },
            ),
            rhs: Box::new(
                match w.rhs_value {
                    Some(b) => wrapped_expr(*b),
                    None => SExpr::Empty,
                },
            ),
        }
    } else if w.variant_type == 3 {
        SExpr::Call {
            callee: text_or_empty(w.callee_value),
            args: match w.args_value {
                Some(v) => Seq::new(
                    v.len() as nat,
                    |i: int|
                        if 0 <= i < v.len() {
                            wrapped_expr(v[i])
                        } else {
                            SExpr::Empty
                        },
                ),
                None => Seq::empty(),
            },
        }
    } else {
        SExpr::Empty
    }
}

fn blank() -> (r: ExprWrapper)
    ensures
        r.variant_type == 4,
        r.number_value is None,
        r.variable_name is None,
        r.op_value is None,
        r.lhs_value is None,
        r.rhs_value is None,
        r.callee_value is None,
        r.args_value is None,
{
    ExprWrapper {
        variant_type: 4,
        number_value: None,
        variable_name: None,
        op_value: None,
        lhs_value: None,
        rhs_value: None,
        callee_value: None,
        args_value: None,
    }
}

impl Expr {
    /// The expression as a record.
    pub fn wrap(&self) -> (r: ExprWrapper)
        ensures
            wrapped_expr(r) == self@,
        decreases self,
    {
        let mut w = blank();
        match self {
            Expr::Number(d) => {
                w.variant_type = 0;
                w.number_value = Some(d.duplicate());
            },
            Expr::Variable(n) => {
                w.variant_type = 1;
                w.variable_name = Some(n.clone());
            },
            Expr::BinOp { op, lhs, rhs } => {
                w.variant_type = 2;
                w.op_value = Some(*op);
                w.lhs_value = Some(Box::new(lhs.wrap()));
                w.rhs_value = Some(Box::new(rhs.wrap()));
            },
            Expr::Call { callee, args } => {
                let mut v: Vec<ExprWrapper> = Vec::new();
                let mut i: usize = 0;
                while i < args.len()
                    invariant
                        i <= args.len(),
                        v.len() == i,
                        *self == (Expr::Call { callee: *callee, args: *args }),
                        forall|j: int| 0 <= j < i ==> wrapped_expr(#[trigger] v@[j]) == args@[j]@,
                    decreases args.len() - i,
                {
                    proof {
                        assert(decreases_to!(*self => self->Call_args));
                        assert(decreases_to!(*args => args[i as int]));
                    }
                    v.push(args[i].wrap());
                    i = i + 1;
                }
                w.variant_type = 3;
                w.callee_value = Some(callee.clone());
                w.args_value = Some(v);
                assert(wrapped_expr(w)->args =~= exprs_view(args@));
                assert(self@->args =~= exprs_view(args@));
            },
            Expr::Empty => {},
        }
        w
    }
}

impl ExprWrapper {
    /// The expression that the record stands for.
    pub fn to_expr(&self) -> (r: Expr)
        ensures
            r@ == wrapped_expr(*self),
        decreases self,
    {
        if self.variant_type == 0 {
            match &self.number_value {
                Some(d) => Expr::Number(d.duplicate()),
                None => Expr::Empty,
            }
        } else if self.variant_type == 1 {
            match &self.variable_name {
                Some(n) => Expr::Variable(n.clone()),
                None => Expr::Variable(String::new()),
            }
        } else if self.variant_type == 2 {
            let op = match self.op_value {
                Some(c) => c,
                None => ' ',
            };
            let lhs = match &self.lhs_value {
                Some(b) => b.to_expr(),
                None => Expr::Empty,
            };
            let rhs = match &self.rhs_value {
                Some(b) => b.to_expr(),
                None => Expr::Empty,
            };
            let ghost wl = if self.lhs_value is Some {
                wrapped_expr(*self.lhs_value->0)
            } else {
                SExpr::Empty
            };
            let ghost wr = if self.rhs_value is Some {
                wrapped_expr(*self.rhs_value->0)
            } else {
                SExpr::Empty
            };
            assert(lhs@ == wl);
            assert(rhs@ == wr);
            let r = Expr::BinOp { op, lhs: Box::new(lhs), rhs: Box::new(rhs) };
            assert(r@->op == wrapped_expr(*self)->op);
            assert(r@->lhs == wrapped_expr(*self)->lhs);
            assert(r@->rhs == wrapped_expr(*self)->rhs);
            r
        } else if self.variant_type == 3 {
            let callee = match &self.callee_value {
                Some(n) => n.clone(),
                None => String::new(),
            };
            let mut v: Vec<Expr> = Vec::new();
            match &self.args_value {
                Some(args) => {
                    let mut i: usize = 0;
                    while i < args.len()
                        invariant
                            i <= args.len(),
                            v.len() == i,
                            self.args_value == Some(*args),
                            self.variant_type == 3,
                            forall|j: int| 0 <= j < i ==> (#[trigger] v@[j])@ == wrapped_expr(args@[j]),
                        decreases args.len() - i,
                    {
                        proof {
                            assert(decreases_to!(*self => self.args_value));
                            assert(decreases_to!(self.args_value => self.args_value->0));
                            assert(decreases_to!(*args => args[i as int]));
                        }
                        v.push(args[i].to_expr());
                        i = i + 1;
                    }
                    let r = Expr::Call { callee, args: v };
                    assert(r@->args =~= wrapped_expr(*self)->args);
                    assert(r@ == wrapped_expr(*self));
                    r
                },
                None => {
                    let r = Expr::Call { callee, args: v };
                    assert(r@->args =~= wrapped_expr(*self)->args);
                    r
                },
            }
        } else {
            Expr::Empty
        }
    }

    /// The text of the expression that the record stands for.
    pub fn to_string(&self) -> (r: String)
        ensures
            r@ == expr_text(wrapped_expr(*self)),
    {
        self.to_expr().to_string()
    }
}

} // verus!
