//! The grammar of the language, as spec functions over the input characters.
//!
//! Every parser takes the input `s` and a start position `p`, and yields the
//! value parsed with the position just after it, or a syntax error.
//! Operators bind in five tiers, each left-associative, from the tightest:
//! `/`, `*`, `-`, `+`, `<`.
//!
//! A parser that succeeds always moves forward. The position checks made
//! before a recursive step only state that for termination; the parser in
//! `crate::parser` proves that they hold, so their `else` branches are never
//! taken.
use vstd::prelude::*;
use crate::ast::{SExpr, SFunction, SPrototype};
use crate::chars::{is_digit, is_ident_char, run_end, CharClass, lemma_run_end};
use crate::decimal::decimal_of;

verus! {

/// What the parser expected where it stopped.
#[derive(Clone, Copy, Debug, PartialEq, Eq, Structural)]
pub enum Expected {
    /// This character.
    Char(char),
    /// A number, a parenthesised expression or an identifier.
    Primary,
    /// An identifier.
    Identifier,
    /// The keyword `def`.
    Def,
    /// The keyword `extern`.
    Extern,
}

/// A syntax error: the character position where parsing stopped, and what was
/// expected there.
#[derive(Clone, Copy, Debug, PartialEq, Eq, Structural)]
pub struct SyntaxError {
    pub position: usize,
    pub expected: Expected,
}

pub open spec fn error_at(p: int, expected: Expected) -> SyntaxError {
    SyntaxError { position: p as usize, expected }
}

/// A parse result: a value and the position after it, or an error.
pub type PResult<T> = Result<(T, int), SyntaxError>;

/// The loosest operator tier.
pub const LOOSEST: usize = 5;

/// The operator of tier `level` (1 binds tightest, 5 loosest).
pub open spec fn tier_op(level: nat) -> char {
    if level == 1 {
        '/'
    } else if level == 2 {
        '*'
    } else if level == 3 {
        '-'
    } else if level == 4 {
        '+'
    } else {
        '<'
    }
}

pub open spec fn has_char(s: Seq<char>, p: int, c: char) -> bool {
    0 <= p < s.len() && s[p] == c
}

/// Whether a primary starts at `p`: a digit or `.` (a number), `(` or an
/// identifier character.
pub open spec fn starts_primary(s: Seq<char>, p: int) -> bool {
    0 <= p < s.len() && (is_digit(s[p]) || s[p] == '.' || s[p] == '(' || is_ident_char(s[p]))
}

pub open spec fn skip_spaces(s: Seq<char>, p: int) -> int {
    run_end(s, p, CharClass::Space)
}

/// A decimal literal: an optional run of digits, a `.`, an optional run of digits.
pub open spec fn number_at(s: Seq<char>, p: int) -> PResult<SExpr> {
    let d = run_end(s, p, CharClass::Digit);
    if has_char(s, d, '.') {
        let f = run_end(s, d + 1, CharClass::Digit);
        Ok((SExpr::Number(decimal_of(s.subrange(p, d), s.subrange(d + 1, f))), f))
    } else {
        Err(error_at(d, Expected::Char('.')))
    }
}

/// An expression whose operators are all of tier `level` or tighter; tier 0
/// is a single primary.
pub open spec fn expr_at(s: Seq<char>, p: int, level: nat) -> PResult<SExpr>
    decreases s.len() - p, level, 4nat,
{
    if level == 0 {
        primary_at(s, p)
    } else {
        match expr_at(s, p, (level - 1) as nat) {
            Ok((e, q)) => if p <= q <= s.len() {
                chain_at(s, q, level, e)
            } else {
                Err(error_at(q, Expected::Primary))
            },
            Err(x) => Err(x),
        }
    }
}

/// Having parsed `lhs` up to `p`, the rest of a left-associative chain of
/// tier-`level` operators.
pub open spec fn chain_at(s: Seq<char>, p: int, level: nat, lhs: SExpr) -> PResult<SExpr>
    decreases s.len() - p, level, 3nat,
{
    if level >= 1 && has_char(s, p, tier_op(level)) {
        match expr_at(s, p + 1, (level - 1) as nat) {
            Ok((rhs, q)) => if p < q <= s.len() {
                chain_at(
                    s,
                    q,
                    level,
                    SExpr::BinOp { op: tier_op(level), lhs: Box::new(lhs), rhs: Box::new(rhs) },
                )
            } else {
                Err(error_at(q, Expected::Primary))
            },
            Err(x) => Err(x),
        }
    } else {
        Ok((lhs, p))
    }
}

/// A primary with the white space around it.
pub open spec fn primary_at(s: Seq<char>, p: int) -> PResult<SExpr>
    decreases s.len() - p, 0nat, 2nat,
{
    let a = skip_spaces(s, p);
    proof {
        if 0 <= p <= s.len() {
            lemma_run_end(s, p, CharClass::Space);
        }
    }
    if 0 <= p <= a <= s.len() {
        match atom_at(s, a) {
            Ok((e, q)) => Ok((e, skip_spaces(s, q))),
            Err(x) => Err(x),
        }
    } else {
        Err(error_at(p, Expected::Primary))
    }
}

/// A number, a parenthesised expression or an identifier, starting at `p`.
pub open spec fn atom_at(s: Seq<char>, p: int) -> PResult<SExpr>
    decreases s.len() - p, 0nat, 1nat,
{
    if 0 <= p < s.len() && (is_digit(s[p]) || s[p] == '.') {
        number_at(s, p)
    } else if has_char(s, p, '(') {
        paren_at(s, p)
    } else if 0 <= p < s.len() && is_ident_char(s[p]) {
        identifier_at(s, p)
    } else {
        Err(error_at(p, Expected::Primary))
    }
}

/// `(`, an expression, `)`.
pub open spec fn paren_at(s: Seq<char>, p: int) -> PResult<SExpr>
    decreases s.len() - p, 0nat, 0nat,
{
    if has_char(s, p, '(') {
        match expr_at(s, p + 1, LOOSEST as nat) {
            Ok((e, q)) => if has_char(s, q, ')') {
                Ok((e, q + 1))
            } else {
                Err(error_at(q, Expected::Char(')')))
            },
            Err(x) => Err(x),
        }
    } else {
        Err(error_at(p, Expected::Char('(')))
    }
}

/// A variable, or a call when the name is followed (after optional white
/// space) by `(`, arguments separated by white space, and `)`.
pub open spec fn identifier_at(s: Seq<char>, p: int) -> PResult<SExpr>
    decreases s.len() - p, 0nat, 0nat,
{
    let q = run_end(s, p, CharClass::Ident);
    let r = skip_spaces(s, q);
    proof {
        if 0 <= p <= s.len() {
            lemma_run_end(s, p, CharClass::Ident);
            lemma_run_end(s, q, CharClass::Space);
        }
    }
    if !(0 <= p < q) {
        Err(error_at(p, Expected::Identifier))
    } else if has_char(s, r, '(') {
        match args_at(s, r + 1, Seq::empty()) {
            Ok((args, t)) => if has_char(s, t, ')') {
                Ok((SExpr::Call { callee: s.subrange(p, q), args }, t + 1))
            } else {
                Err(error_at(t, Expected::Char(')')))
            },
            Err(x) => Err(x),
        }
    } else {
        Ok((SExpr::Variable(s.subrange(p, q)), r))
    }
}

/// Call arguments from `p` on, after the arguments `acc`: primaries, each
/// followed by optional white space, for as long as one starts.
pub open spec fn args_at(s: Seq<char>, p: int, acc: Seq<SExpr>) -> PResult<Seq<SExpr>>
    decreases s.len() - p, 0nat, 2nat,
{
    if starts_primary(s, p) {
        match atom_at(s, p) {
            Ok((e, q)) => {
                let r = skip_spaces(s, q);
                if p < r <= s.len() {
                    args_at(s, r, acc.push(e))
                } else {
                    Err(error_at(r, Expected::Primary))
                }
            },
            Err(x) => Err(x),
        }
    } else {
        Ok((acc, p))
    }
}

/// A whole expression starting at `p`.
pub open spec fn expression_at(s: Seq<char>, p: int) -> PResult<SExpr> {
    expr_at(s, p, LOOSEST as nat)
}

/// Parameter names after the names `acc`, each preceded by a single space.
pub open spec fn params_rest(s: Seq<char>, p: int, acc: Seq<Seq<char>>) -> PResult<
    Seq<Seq<char>>,
>
    decreases s.len() - p,
{
    if has_char(s, p, ' ') {
        let q = run_end(s, p + 1, CharClass::Ident);
        proof {
            lemma_run_end(s, p + 1, CharClass::Ident);
        }
        if q == p + 1 {
            Err(error_at(q, Expected::Identifier))
        } else {
            params_rest(s, q, acc.push(s.subrange(p + 1, q)))
        }
    } else {
        Ok((acc, p))
    }
}

/// Parameter names separated by single spaces; possibly none.
pub open spec fn params_at(s: Seq<char>, p: int) -> PResult<Seq<Seq<char>>> {
    let q = run_end(s, p, CharClass::Ident);
    if q == p {
        Ok((Seq::empty(), p))
    } else {
        params_rest(s, q, seq![s.subrange(p, q)])
    }
}

/// A name directly followed by `(`, the parameter names and `)`.
pub open spec fn prototype_at(s: Seq<char>, p: int) -> PResult<SPrototype> {
    let q = run_end(s, p, CharClass::Ident);
    if q == p {
        Err(error_at(p, Expected::Identifier))
    } else if !has_char(s, q, '(') {
        Err(error_at(q, Expected::Char('(')))
    } else {
        match params_at(s, q + 1) {
            Ok((args, t)) => if has_char(s, t, ')') {
                Ok((SPrototype { name: s.subrange(p, q), args }, t + 1))
            } else {
                Err(error_at(t, Expected::Char(')')))
            },
            Err(x) => Err(x),
        }
    }
}

/// Whether `s` holds the characters `kw` from `p` on.
pub open spec fn has_keyword(s: Seq<char>, p: int, kw: Seq<char>) -> bool {
    0 <= p && p + kw.len() <= s.len() && s.subrange(p, p + kw.len()) == kw
}

pub open spec fn def_keyword() -> Seq<char> {
    seq!['d', 'e', 'f']
}

pub open spec fn extern_keyword() -> Seq<char> {
    seq!['e', 'x', 't', 'e', 'r', 'n']
}

/// `def`, optional white space, a prototype, and the body expression.
pub open spec fn definition_at(s: Seq<char>, p: int) -> PResult<SFunction> {
    if !has_keyword(s, p, def_keyword()) {
        Err(error_at(p, Expected::Def))
    } else {
        match prototype_at(s, skip_spaces(s, p + 3)) {
            Ok((proto, t)) => match expression_at(s, t) {
                Ok((body, u)) => Ok((SFunction { prototype: proto, body }, u)),
                Err(x) => Err(x),
            },
            Err(x) => Err(x),
        }
    }
}

/// `extern`, optional white space, and a prototype.
pub open spec fn extern_at(s: Seq<char>, p: int) -> PResult<SPrototype> {
    if !has_keyword(s, p, extern_keyword()) {
        Err(error_at(p, Expected::Extern))
    } else {
        prototype_at(s, skip_spaces(s, p + 6))
    }
}

} // verus!
