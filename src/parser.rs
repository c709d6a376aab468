//! The parser: each function here follows the grammar of `crate::grammar`
//! exactly, and reports the number of characters it consumed.
use vstd::prelude::*;
use crate::ast::{Expr, Function, Prototype, SExpr, SFunction, SPrototype, names_view};
use crate::chars::{char_in_class, scan_run, to_chars, CharClass};
use crate::decimal::Decimal;
use crate::grammar::{
    args_at, atom_at, chain_at, definition_at, expr_at, expression_at, extern_at,
    has_keyword, identifier_at, number_at, paren_at, params_at, params_rest, primary_at,
    prototype_at, starts_primary, tier_op, PResult, LOOSEST, def_keyword, extern_keyword,
};
pub use crate::grammar::{Expected, SyntaxError};

verus! {

/// The views of a list of expressions.
pub open spec fn exprs_view(args: Seq<Expr>) -> Seq<SExpr> {
    Seq::new(
        args.len() as nat,
        |i: int|
            if 0 <= i < args.len() {
                args[i]@
            } else {
                SExpr::Empty
            },
    )
}

pub open spec fn expr_result(r: Result<(Expr, usize), SyntaxError>) -> PResult<SExpr> {
    match r {
        Ok((e, q)) => Ok((e@, q as int)),
        Err(x) => Err(x),
    }
}

pub open spec fn prototype_result(r: Result<(Prototype, usize), SyntaxError>) -> PResult<
    SPrototype,
> {
    match r {
        Ok((e, q)) => Ok((e@, q as int)),
        Err(x) => Err(x),
    }
}

pub open spec fn function_result(r: Result<(Function, usize), SyntaxError>) -> PResult<
    SFunction,
> {
    match r {
        Ok((e, q)) => Ok((e@, q as int)),
        Err(x) => Err(x),
    }
}

/// A successful parse from `p` consumed at least one character and stayed in the input.
pub open spec fn advances<T>(r: Result<(T, usize), SyntaxError>, p: int, len: int) -> bool {
    r matches Ok((_, q)) ==> p < q <= len
}

fn tier_op_exec(level: usize) -> (c: char)
    ensures
        c == tier_op(level as nat),
{
    if level == 1 {
        '/'
    } else if level == 2 {
        '*'
    } else if level == 3 {
        '-'
    } else if level == 4 {
        '+'
    } else {
        '<'
    }
}

fn has_char_exec(s: &Vec<char>, p: usize, c: char) -> (r: bool)
    ensures
        r == crate::grammar::has_char(s@, p as int, c),
{
    p < s.len() && s[p] == c
}

fn number(src: &str, s: &Vec<char>, p: usize) -> (r: Result<(Expr, usize), SyntaxError>)
    requires
        s@ == src@,
        p <= s.len(),
    ensures
        expr_result(r) == number_at(s@, p as int),
        advances(r, p as int, s.len() as int),
{
    let d = scan_run(s, p, CharClass::Digit);
    if has_char_exec(s, d, '.') {
        let f = scan_run(s, d + 1, CharClass::Digit);
        let n = Decimal::from_runs(src, s, p, d, d + 1, f);
        Ok((Expr::Number(n), f))
    } else {
        Err(SyntaxError { position: d, expected: Expected::Char('.') })
    }
}

fn expr(src: &str, s: &Vec<char>, p: usize, level: usize) -> (r: Result<(Expr, usize), SyntaxError>)
    requires
        s@ == src@,
        p <= s.len(),
        level <= LOOSEST,
    ensures
        expr_result(r) == expr_at(s@, p as int, level as nat),
        advances(r, p as int, s.len() as int),
    decreases s@.len() - p, level, 4nat,
{
    if level == 0 {
        return primary(src, s, p);
    }
    let first = expr(src, s, p, level - 1);
    let (mut lhs, mut q) = match first {
        Ok(v) => v,
        Err(x) => {
            return Err(x);
        },
    };
    let op = tier_op_exec(level);
    let ghost start = q;
    let ghost start_lhs = lhs@;
    while has_char_exec(s, q, op)
        invariant
            s@ == src@,
            p < start <= q <= s.len(),
            1 <= level <= LOOSEST,
            op == tier_op(level as nat),
            expr_at(s@, p as int, level as nat) == chain_at(s@, start as int, level as nat, start_lhs),
            chain_at(s@, q as int, level as nat, lhs@) == chain_at(
                s@,
                start as int,
                level as nat,
                start_lhs,
            ),
        decreases s@.len() - q,
    {
        match expr(src, s, q + 1, level - 1) {
            Ok((rhs, q2)) => {
                lhs = Expr::BinOp { op, lhs: Box::new(lhs), rhs: Box::new(rhs) };
                q = q2;
            },
            Err(x) => {
                return Err(x);
            },
        }
    }
    Ok((lhs, q))
}

fn primary(src: &str, s: &Vec<char>, p: usize) -> (r: Result<(Expr, usize), SyntaxError>)
    requires
        s@ == src@,
        p <= s.len(),
    ensures
        expr_result(r) == primary_at(s@, p as int),
        advances(r, p as int, s.len() as int),
    decreases s@.len() - p, 0nat, 2nat,
{
    let a = scan_run(s, p, CharClass::Space);
    match atom(src, s, a) {
        Ok((e, q)) => Ok((e, scan_run(s, q, CharClass::Space))),
        Err(x) => Err(x),
    }
}

fn atom(src: &str, s: &Vec<char>, p: usize) -> (r: Result<(Expr, usize), SyntaxError>)
    requires
        s@ == src@,
        p <= s.len(),
    ensures
        expr_result(r) == atom_at(s@, p as int),
        advances(r, p as int, s.len() as int),
    decreases s@.len() - p, 0nat, 1nat,
{
    if p < s.len() && (('0' <= s[p] && s[p] <= '9') || s[p] == '.') {
        number(src, s, p)
    } else if has_char_exec(s, p, '(') {
        paren(src, s, p)
    } else if p < s.len() && char_in_class(s[p], CharClass::Ident) {
        identifier(src, s, p)
    } else {
        Err(SyntaxError { position: p, expected: Expected::Primary })
    }
}

fn paren(src: &str, s: &Vec<char>, p: usize) -> (r: Result<(Expr, usize), SyntaxError>)
    requires
        s@ == src@,
        p <= s.len(),
    ensures
        expr_result(r) == paren_at(s@, p as int),
        advances(r, p as int, s.len() as int),
    decreases s@.len() - p, 0nat, 0nat,
{
    if !has_char_exec(s, p, '(') {
        return Err(SyntaxError { position: p, expected: Expected::Char('(') });
    }
    match expr(src, s, p + 1, LOOSEST) {
        Ok((e, q)) => if has_char_exec(s, q, ')') {
            Ok((e, q + 1))
        } else {
            Err(SyntaxError { position: q, expected: Expected::Char(')') })
        },
        Err(x) => Err(x),
    }
}

fn identifier(src: &str, s: &Vec<char>, p: usize) -> (r: Result<(Expr, usize), SyntaxError>)
    requires
        s@ == src@,
        p <= s.len(),
    ensures
        expr_result(r) == identifier_at(s@, p as int),
        advances(r, p as int, s.len() as int),
    decreases s@.len() - p, 0nat, 0nat,
{
    let q = scan_run(s, p, CharClass::Ident);
    if q == p {
        return Err(SyntaxError { position: p, expected: Expected::Identifier });
    }
    let r = scan_run(s, q, CharClass::Space);
    let name = src.substring_char(p, q).to_owned();
    if !has_char_exec(s, r, '(') {
        return Ok((Expr::Variable(name), r));
    }
    let mut args: Vec<Expr> = Vec::new();
    let mut t: usize = r + 1;
    assert(exprs_view(args@) =~= Seq::<SExpr>::empty());
    while t < s.len() && (('0' <= s[t] && s[t] <= '9') || s[t] == '.' || s[t] == '('
        || char_in_class(s[t], CharClass::Ident))
        invariant
            s@ == src@,
            p < r + 1 <= t <= s.len(),
            p < q,
            q == crate::chars::run_end(s@, p as int, CharClass::Ident),
            r == crate::chars::run_end(s@, q as int, CharClass::Space),
            crate::grammar::has_char(s@, r as int, '('),
            args_at(s@, t as int, exprs_view(args@)) == args_at(s@, r + 1, Seq::empty()),
        decreases s@.len() - t,
    {
        assert(starts_primary(s@, t as int));
        match atom(src, s, t) {
            Ok((e, q2)) => {
                let t2 = scan_run(s, q2, CharClass::Space);
                let ghost before = args@;
                let ghost ev = e@;
                args.push(e);
                assert(exprs_view(args@) =~= exprs_view(before).push(ev));
                t = t2;
            },
            Err(x) => {
                assert(args_at(s@, t as int, exprs_view(args@)) == PResult::<Seq<SExpr>>::Err(x));
                return Err(x);
            },
        }
    }
    assert(!starts_primary(s@, t as int));
    if has_char_exec(s, t, ')') {
        let ghost args_view = exprs_view(args@);
        let call = Expr::Call { callee: name, args };
        assert(name@ == s@.subrange(p as int, q as int));
        assert(call@->args =~= args_view);
        assert(call@ =~~= SExpr::Call { callee: s@.subrange(p as int, q as int), args: args_view });
        Ok((call, t + 1))
    } else {
        Err(SyntaxError { position: t, expected: Expected::Char(')') })
    }
}

fn prototype(src: &str, s: &Vec<char>, p: usize) -> (r: Result<(Prototype, usize), SyntaxError>)
    requires
        s@ == src@,
        p <= s.len(),
    ensures
        prototype_result(r) == prototype_at(s@, p as int),
        advances(r, p as int, s.len() as int),
{
    let q = scan_run(s, p, CharClass::Ident);
    if q == p {
        return Err(SyntaxError { position: p, expected: Expected::Identifier });
    }
    if !has_char_exec(s, q, '(') {
        return Err(SyntaxError { position: q, expected: Expected::Char('(') });
    }
    let name = src.substring_char(p, q).to_owned();
    let mut args: Vec<String> = Vec::new();
    let mut t = scan_run(s, q + 1, CharClass::Ident);
    if t > q + 1 {
        args.push(src.substring_char(q + 1, t).to_owned());
        assert(names_view(args@) =~= seq![s@.subrange(q + 1, t as int)]);
        while has_char_exec(s, t, ' ')
            invariant
                s@ == src@,
                q + 1 < t <= s.len(),
                p < q,
                q == crate::chars::run_end(s@, p as int, CharClass::Ident),
                crate::grammar::has_char(s@, q as int, '('),
                params_rest(s@, t as int, names_view(args@)) == params_at(s@, q + 1),
            decreases s@.len() - t,
        {
            let t2 = scan_run(s, t + 1, CharClass::Ident);
            if t2 == t + 1 {
                return Err(SyntaxError { position: t2, expected: Expected::Identifier });
            }
            let ghost before = args@;
            args.push(src.substring_char(t + 1, t2).to_owned());
            assert(names_view(args@) =~= names_view(before).push(s@.subrange(t + 1, t2 as int)));
            t = t2;
        }
    } else {
        assert(names_view(args@) =~= Seq::<Seq<char>>::empty());
    }
    if has_char_exec(s, t, ')') {
        Ok((Prototype { name, args }, t + 1))
    } else {
        Err(SyntaxError { position: t, expected: Expected::Char(')') })
    }
}

/// Whether `kw` stands in `s` from `p` on.
fn at_keyword(s: &Vec<char>, p: usize, kw: &Vec<char>) -> (r: bool)
    requires
        p <= s.len(),
    ensures
        r == has_keyword(s@, p as int, kw@),
{
    if kw.len() > s.len() - p {
        return false;
    }
    let mut i: usize = 0;
    while i < kw.len()
        invariant
            p + kw.len() <= s.len(),
            i <= kw.len(),
            forall|j: int| 0 <= j < i ==> s@[p + j] == kw@[j],
        decreases kw.len() - i,
    {
        if s[p + i] != kw[i] {
            assert(s@.subrange(p as int, p + kw.len())[i as int] != kw@[i as int]);
            return false;
        }
        i = i + 1;
    }
    assert(s@.subrange(p as int, p + kw.len()) =~= kw@);
    true
}

fn definition(src: &str, s: &Vec<char>, p: usize) -> (r: Result<(Function, usize), SyntaxError>)
    requires
        s@ == src@,
        p <= s.len(),
    ensures
        function_result(r) == definition_at(s@, p as int),
{
    let kw = vec!['d', 'e', 'f'];
    assert(kw@ =~= def_keyword());
    if !at_keyword(s, p, &kw) {
        return Err(SyntaxError { position: p, expected: Expected::Def });
    }
    let a = scan_run(s, p + 3, CharClass::Space);
    match prototype(src, s, a) {
        Ok((proto, t)) => match expr(src, s, t, LOOSEST) {
            Ok((body, u)) => Ok((Function { prototype: proto, body }, u)),
            Err(x) => Err(x),
        },
        Err(x) => Err(x),
    }
}

fn extern_decl(src: &str, s: &Vec<char>, p: usize) -> (r: Result<(Prototype, usize), SyntaxError>)
    requires
        s@ == src@,
        p <= s.len(),
    ensures
        prototype_result(r) == extern_at(s@, p as int),
{
    let kw = vec!['e', 'x', 't', 'e', 'r', 'n'];
    assert(kw@ =~= extern_keyword());
    if !at_keyword(s, p, &kw) {
        return Err(SyntaxError { position: p, expected: Expected::Extern });
    }
    let a = scan_run(s, p + 6, CharClass::Space);
    prototype(src, s, a)
}

/// Parses an expression at the start of `input`. On success, returns it with
/// the number of characters it took; the rest of the input is left alone.
pub fn expression_parser(input: &str) -> (r: Result<(Expr, usize), SyntaxError>)
    ensures
        expr_result(r) == expression_at(input@, 0),
{
    let s = to_chars(input);
    expr(input, &s, 0, LOOSEST)
}

/// Parses one primary, with the white space around it, at the start of `input`.
pub fn parse_primary(input: &str) -> (r: Result<(Expr, usize), SyntaxError>)
    ensures
        expr_result(r) == primary_at(input@, 0),
{
    let s = to_chars(input);
    primary(input, &s, 0)
}

/// Parses a decimal literal at the start of `input`.
pub fn parse_number_expr(input: &str) -> (r: Result<(Expr, usize), SyntaxError>)
    ensures
        expr_result(r) == number_at(input@, 0),
{
    let s = to_chars(input);
    number(input, &s, 0)
}

/// Parses a parenthesised expression at the start of `input`.
pub fn parse_paren_expr(input: &str) -> (r: Result<(Expr, usize), SyntaxError>)
    ensures
        expr_result(r) == paren_at(input@, 0),
{
    let s = to_chars(input);
    paren(input, &s, 0)
}

/// Parses a variable or a call at the start of `input`.
pub fn parse_identifier_expr(input: &str) -> (r: Result<(Expr, usize), SyntaxError>)
    ensures
        expr_result(r) == identifier_at(input@, 0),
{
    let s = to_chars(input);
    identifier(input, &s, 0)
}

/// Parses a prototype `name(a b c)` at the start of `input`.
pub fn parse_prototype(input: &str) -> (r: Result<(Prototype, usize), SyntaxError>)
    ensures
        prototype_result(r) == prototype_at(input@, 0),
{
    let s = to_chars(input);
    prototype(input, &s, 0)
}

/// Parses a definition `def name(a b) body` at the start of `input`.
pub fn parse_definition(input: &str) -> (r: Result<(Function, usize), SyntaxError>)
    ensures
        function_result(r) == definition_at(input@, 0),
{
    let s = to_chars(input);
    definition(input, &s, 0)
}

/// Parses a declaration `extern name(a b)` at the start of `input`.
pub fn parse_extern(input: &str) -> (r: Result<(Prototype, usize), SyntaxError>)
    ensures
        prototype_result(r) == extern_at(input@, 0),
{
    let s = to_chars(input);
    extern_decl(input, &s, 0)
}

} // verus!
