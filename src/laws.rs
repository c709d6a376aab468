//! Properties that relate the parser and the compiler, proved over their specs.
use vstd::prelude::*;
use crate::ast::{SExpr, SFunction, SPrototype};
use crate::chars::{in_class, run_end, CharClass};
use crate::compiler::{
    compile_outcome, lower, lower_args, lookup_from, lookup_symbol, param_slots, CompileError,
};
use crate::decimal::{
    all_digits, decimal_of, digit_value, digits_value, pow10, strip_leading_zeros, strip_trailing_zeros,
};
use crate::grammar::{definition_at, expression_at, number_at};
use crate::ir::{find_function, SIrFunction};

verus! {

proof fn lemma_digit_run(s: Seq<char>, p: int, q: int)
    requires
        0 <= p <= q <= s.len(),
        forall|i: int| p <= i < q ==> in_class(#[trigger] s[i], CharClass::Digit),
        q == s.len() || !in_class(s[q], CharClass::Digit),
    ensures
        run_end(s, p, CharClass::Digit) == q,
    decreases q - p,
{
    if p < q {
        lemma_digit_run(s, p + 1, q);
    }
}

proof fn lemma_leading_zero(t: Seq<char>)
    ensures
        digits_value(seq!['0'] + t) == digits_value(t),
    decreases t.len(),
{
    let s = seq!['0'] + t;
    if t.len() > 0 {
        assert(s.drop_last() =~= seq!['0'] + t.drop_last());
        assert(s.last() == t.last());
        lemma_leading_zero(t.drop_last());
    } else {
        assert(s.drop_last() =~= Seq::<char>::empty());
        assert(s.last() == '0');
        assert(digit_value('0') == 0);
        assert(digits_value(Seq::<char>::empty()) == 0);
    }
}

proof fn lemma_strip_leading(s: Seq<char>)
    requires
        all_digits(s),
    ensures
        digits_value(strip_leading_zeros(s)) == digits_value(s),
        all_digits(strip_leading_zeros(s)),
        strip_leading_zeros(s).len() > 0 ==> strip_leading_zeros(s)[0] != '0',
    decreases s.len(),
{
    if s.len() > 0 && s[0] == '0' {
        assert(s =~= seq!['0'] + s.drop_first());
        lemma_leading_zero(s.drop_first());
        lemma_strip_leading(s.drop_first());
    }
}

proof fn lemma_strip_trailing(s: Seq<char>)
    requires
        all_digits(s),
    ensures
        strip_trailing_zeros(s).len() <= s.len(),
        digits_value(strip_trailing_zeros(s)) * pow10(
            (s.len() - strip_trailing_zeros(s).len()) as nat,
        ) == digits_value(s),
        all_digits(strip_trailing_zeros(s)),
        strip_trailing_zeros(s).len() > 0 ==> strip_trailing_zeros(s).last() != '0',
    decreases s.len(),
{
    if s.len() > 0 && s.last() == '0' {
        let t = s.drop_last();
        lemma_strip_trailing(t);
        let k = (t.len() - strip_trailing_zeros(t).len()) as nat;
        let v = digits_value(strip_trailing_zeros(t));
        assert(digit_value('0') == 0);
        assert(digits_value(s) == digits_value(t) * 10);
        assert(pow10(k + 1) == 10 * pow10(k));
        assert(v * pow10(k + 1) == (v * pow10(k)) * 10) by (nonlinear_arith)
            requires
                pow10(k + 1) == 10 * pow10(k),
        ;
        assert((s.len() - strip_trailing_zeros(s).len()) as nat == k + 1);
    } else {
        assert(pow10(0) == 1);
        assert(digits_value(s) * 1 == digits_value(s));
    }
}

/// A decimal literal `I.D`, where `I` and `D` are runs of ASCII digits and
/// either may be empty, parses as one number that takes the whole literal:
/// in canonical form, and worth `I + 0.D` (an empty run counts as 0), that
/// is, `I * 10^|D| + D` once scaled by `10^|D|`.
pub proof fn law_decimal_literal(int_run: Seq<char>, frac_run: Seq<char>)
    requires
        all_digits(int_run),
        all_digits(frac_run),
    ensures
        number_at(int_run + seq!['.'] + frac_run, 0) matches Ok((SExpr::Number(d), end)) && end
            == int_run.len() + 1 + frac_run.len() && d.wf() && d.scaled(frac_run.len())
            == digits_value(int_run) * pow10(frac_run.len()) + digits_value(frac_run),
{
    let s = int_run + seq!['.'] + frac_run;
    let n = int_run.len() as int;
    assert(s[n] == '.');
    assert forall|i: int| 0 <= i < n implies in_class(#[trigger] s[i], CharClass::Digit) by {
        assert(s[i] == int_run[i]);
    }
    lemma_digit_run(s, 0, n);
    assert forall|i: int| n + 1 <= i < s.len() implies in_class(
        #[trigger] s[i],
        CharClass::Digit,
    ) by {
        assert(s[i] == frac_run[i - n - 1]);
    }
    lemma_digit_run(s, n + 1, s.len() as int);
    assert(s.subrange(0, n) =~= int_run);
    assert(s.subrange(n + 1, s.len() as int) =~= frac_run);
    let d = decimal_of(int_run, frac_run);
    lemma_strip_leading(int_run);
    lemma_strip_trailing(frac_run);
    assert(d.wf());
}

/// Lowering a variable that the symbol table does not bind fails with
/// `UndefinedVariable`, and lowering a call of a name that the module does
/// not declare fails with `UndefinedFunction`, whatever the arguments.
pub proof fn law_undefined_names(
    name: Seq<char>,
    args: Seq<SExpr>,
    syms: Seq<(Seq<char>, nat)>,
    fs: Seq<SIrFunction>,
    base: nat,
)
    ensures
        lookup_symbol(syms, name) is None ==> lower(SExpr::Variable(name), syms, fs, base) == Err::<
            Seq<crate::ir::SInstr>,
            CompileError,
        >(CompileError::UndefinedVariable),
        find_function(fs, name) is None ==> lower(
            SExpr::Call { callee: name, args },
            syms,
            fs,
            base,
        ) == Err::<Seq<crate::ir::SInstr>, CompileError>(CompileError::UndefinedFunction),
{
}

proof fn lemma_unbound_param(params: Seq<Seq<char>>, name: Seq<char>, n: int)
    requires
        0 <= n <= params.len(),
        !params.contains(name),
    ensures
        lookup_from(param_slots(params), name, n) is None,
    decreases n,
{
    if n > 0 {
        assert(param_slots(params)[n - 1].0 == params[n - 1]);
        lemma_unbound_param(params, name, n - 1);
    }
}

/// A function whose body is a variable that is not one of its parameters
/// fails to compile with `UndefinedVariable`.
pub proof fn law_unbound_variable(proto: SPrototype, name: Seq<char>, fs: Seq<SIrFunction>)
    requires
        !proto.args.contains(name),
    ensures
        compile_outcome(SFunction { prototype: proto, body: SExpr::Variable(name) }, fs) == Err::<
            Seq<SIrFunction>,
            CompileError,
        >(CompileError::UndefinedVariable),
{
    lemma_unbound_param(proto.args, name, proto.args.len() as int);
}

/// Parsing reads nothing but its input: equal texts parse to equal results,
/// for expressions and for definitions alike.
pub proof fn law_parse_deterministic(a: Seq<char>, b: Seq<char>)
    requires
        a == b,
    ensures
        expression_at(a, 0) == expression_at(b, 0),
        definition_at(a, 0) == definition_at(b, 0),
{
}

/// The number of nodes of `e`.
pub open spec fn node_count(e: SExpr) -> nat
    decreases e, 1nat,
{
    match e {
        SExpr::BinOp { lhs, rhs, .. } => 1 + node_count(*lhs) + node_count(*rhs),
        SExpr::Call { args, .. } => 1 + args_count(args),
        _ => 1,
    }
}

/// The number of nodes of the expressions `args`.
pub open spec fn args_count(args: Seq<SExpr>) -> nat
    decreases args, 0nat,
{
    if args.len() == 0 {
        0
    } else {
        node_count(args[0]) + args_count(args.subrange(1, args.len() as int))
    }
}

/// Lowering visits every node exactly once: a successful lowering emits one
/// instruction per node of the expression.
pub proof fn law_one_instruction_per_node(
    e: SExpr,
    syms: Seq<(Seq<char>, nat)>,
    fs: Seq<SIrFunction>,
    base: nat,
)
    ensures
        lower(e, syms, fs, base) matches Ok(is) ==> is.len() == node_count(e),
    decreases e, 1nat,
{
    match e {
        SExpr::BinOp { lhs, rhs, .. } => {
            law_one_instruction_per_node(*lhs, syms, fs, base);
            match lower(*lhs, syms, fs, base) {
                Ok(li) => law_one_instruction_per_node(*rhs, syms, fs, base + li.len()),
                Err(_) => {},
            }
        },
        SExpr::Call { args, .. } => {
            lemma_args_instruction_count(args, syms, fs, base);
        },
        _ => {},
    }
}

proof fn lemma_args_instruction_count(
    args: Seq<SExpr>,
    syms: Seq<(Seq<char>, nat)>,
    fs: Seq<SIrFunction>,
    base: nat,
)
    ensures
        lower_args(args, syms, fs, base) matches Ok((is, ids)) ==> is.len() == args_count(args)
            && ids.len() == args.len(),
    decreases args, 0nat,
{
    if args.len() > 0 {
        law_one_instruction_per_node(args[0], syms, fs, base);
        match lower(args[0], syms, fs, base) {
            Ok(is) => lemma_args_instruction_count(
                args.subrange(1, args.len() as int),
                syms,
                fs,
                base + is.len(),
            ),
            Err(_) => {},
        }
    }
}

} // verus!
