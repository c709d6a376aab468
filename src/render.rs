//! Expressions written back as text.
use vstd::prelude::*;
use crate::ast::{Expr, SExpr};
use crate::parser::exprs_view;

verus! {

/// Relies on `String::push`: appends the character to the end of the string.
#[verifier::external_body]
pub(crate) fn push_char(s: &mut String, c: char)
    ensures
        final(s)@ == old(s)@.push(c),
{
    s.push(c)
}

/// `lhs op rhs`, with a space on each side of the operator.
pub open spec fn infix(lhs: Seq<char>, op: char, rhs: Seq<char>) -> Seq<char> {
    lhs + seq![' ', op, ' '] + rhs
}

/// An expression as text: a number as its literal, a variable as its name,
/// `lhs op rhs` for an operation, the callee and a space followed by the
/// arguments separated by spaces for a call, and nothing for `Empty`.
pub open spec fn expr_text(e: SExpr) -> Seq<char>
    decreases e, 1nat,
{
    match e {
        SExpr::Number(d) => d.text(),
        SExpr::Variable(n) => n,
        SExpr::BinOp { op, lhs, rhs } => infix(expr_text(*lhs), op, expr_text(*rhs)),
        SExpr::Call { callee, args } => callee + seq![' '] + args_text(args),
        SExpr::Empty => Seq::empty(),
    }
}

/// The texts of `args`, separated by single spaces.
pub open spec fn args_text(args: Seq<SExpr>) -> Seq<char>
    decreases args, 0nat,
{
    if args.len() == 0 {
        Seq::empty()
    } else if args.len() == 1 {
        expr_text(args[0])
    } else {
        args_text(args.subrange(0, args.len() - 1)) + seq![' '] + expr_text(args[args.len() - 1])
    }
}

/// Whether `e` is built of numbers and operators only.
pub open spec fn is_arithmetic(e: SExpr) -> bool
    decreases e,
{
    match e {
        SExpr::Number(_) => true,
        SExpr::BinOp { lhs, rhs, .. } => is_arithmetic(*lhs) && is_arithmetic(*rhs),
        _ => false,
    }
}

/// An arithmetic expression as Rust source: each number as a floating-point
/// literal (with a trailing `.` when it has no fraction), operators between
/// spaces.
pub open spec fn rust_text(e: SExpr) -> Seq<char>
    decreases e,
{
    match e {
        SExpr::Number(d) => if d.frac_digits.len() == 0 {
            d.text().push('.')
        } else {
            d.text()
        },
        SExpr::BinOp { op, lhs, rhs } => infix(rust_text(*lhs), op, rust_text(*rhs)),
        _ => Seq::empty(),
    }
}

impl Expr {
    /// Appends the text of the expression to `out`.
    pub fn write_text(&self, out: &mut String)
        ensures
            final(out)@ == old(out)@ + expr_text(self@),
        decreases self,
    {
        match self {
            Expr::Number(d) => d.write_text(out),
            Expr::Variable(n) => out.append(n.as_str()),
            Expr::BinOp { op, lhs, rhs } => {
                lhs.write_text(out);
                push_char(out, ' ');
                push_char(out, *op);
                push_char(out, ' ');
                rhs.write_text(out);
                assert(out@ =~= old(out)@ + expr_text(self@));
            },
            Expr::Call { callee, args } => {
                out.append(callee.as_str());
                push_char(out, ' ');
                let ghost argv = exprs_view(args@);
                assert(self@->args =~= argv);
                let ghost start = out@;
                let mut i: usize = 0;
                while i < args.len()
                    invariant
                        i <= args.len(),
                        argv == exprs_view(args@),
                        *self == (Expr::Call { callee: *callee, args: *args }),
                        out@ == start + args_text(argv.subrange(0, i as int)),
                    decreases args.len() - i,
                {
                    proof {
                        assert(decreases_to!(*self => self->Call_args));
                        assert(decreases_to!(*args => args[i as int]));
                    }
                    if i > 0 {
                        push_char(out, ' ');
                    }
                    args[i].write_text(out);
                    proof {
                        let pre = argv.subrange(0, i + 1);
                        assert(pre.subrange(0, i as int) =~= argv.subrange(0, i as int));
                        assert(pre[i as int] == args@[i as int]@);
                        if i == 0 {
                            assert(args_text(argv.subrange(0, 0)) =~= Seq::<char>::empty());
                        }
                        assert(out@ =~= start + args_text(pre));
                    }
                    i = i + 1;
                }
                assert(argv.subrange(0, args.len() as int) =~= argv);
                assert(out@ =~= old(out)@ + expr_text(self@));
            },
            Expr::Empty => {
                assert(out@ =~= old(out)@ + expr_text(self@));
            },
        }
    }

    /// The expression as text; see `expr_text`.
    pub fn to_string(&self) -> (r: String)
        ensures
            r@ == expr_text(self@),
    {
        let mut out = String::new();
        self.write_text(&mut out);
        assert(out@ =~= expr_text(self@));
        out
    }

    /// Whether the expression is built of numbers and operators only.
    pub fn is_arithmetic(&self) -> (r: bool)
        ensures
            r == is_arithmetic(self@),
        decreases self,
    {
        match self {
            Expr::Number(_) => true,
            Expr::BinOp { lhs, rhs, .. } => lhs.is_arithmetic() && rhs.is_arithmetic(),
            _ => false,
        }
    }

    fn write_rust(&self, out: &mut String)
        requires
            is_arithmetic(self@),
        ensures
            final(out)@ == old(out)@ + rust_text(self@),
        decreases self,
    {
        match self {
            Expr::Number(d) => {
                d.write_text(out);
                if !d.has_fraction() {
                    push_char(out, '.');
                }
                assert(out@ =~= old(out)@ + rust_text(self@));
            },
            Expr::BinOp { op, lhs, rhs } => {
                lhs.write_rust(out);
                push_char(out, ' ');
                push_char(out, *op);
                push_char(out, ' ');
                rhs.write_rust(out);
                assert(out@ =~= old(out)@ + rust_text(self@));
            },
            _ => {},
        }
    }
}

/// Writes an arithmetic expression as Rust source; see `rust_text`.
pub fn translate_to_rust(input: Expr) -> (r: String)
    requires
        is_arithmetic(input@),
    ensures
        r@ == rust_text(input@),
{
    let mut out = String::new();
    input.write_rust(&mut out);
    assert(out@ =~= rust_text(input@));
    out
}

} // verus!
