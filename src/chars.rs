use vstd::prelude::*;

verus! {

broadcast use vstd::string::group_string_axioms;

/// Whether `c` has Unicode's White_Space property, as `char::is_whitespace` decides it.
pub uninterp spec fn white_space(c: char) -> bool;

/// Whether `c` is alphabetic, as `char::is_alphabetic` decides it.
pub uninterp spec fn alphabetic(c: char) -> bool;

/// Relies on `char::is_whitespace`: true exactly for characters with the
/// White_Space property; the answer depends on the character alone.
#[verifier::external_body]
pub(crate) fn is_whitespace(c: char) -> (r: bool)
    ensures
        r == white_space(c),
{
    c.is_whitespace()
}

/// Relies on `char::is_alphabetic`: true exactly for characters with the
/// Alphabetic property; the answer depends on the character alone.
#[verifier::external_body]
pub(crate) fn is_alphabetic(c: char) -> (r: bool)
    ensures
        r == alphabetic(c),
{
    c.is_alphabetic()
}

/// An ASCII decimal digit.
pub open spec fn is_digit(c: char) -> bool {
    '0' <= c && c <= '9'
}

/// A character that may appear in an identifier: a letter, a digit or `_`.
pub open spec fn is_ident_char(c: char) -> bool {
    alphabetic(c) || is_digit(c) || c == '_'
}

/// The character classes that the scanner skips over as runs.
#[derive(Clone, Copy, PartialEq, Eq, Debug)]
pub enum CharClass {
    Space,
    Digit,
    Ident,
}

pub open spec fn in_class(c: char, k: CharClass) -> bool {
    match k {
        CharClass::Space => white_space(c),
        CharClass::Digit => is_digit(c),
        CharClass::Ident => is_ident_char(c),
    }
}

/// The first position at or after `p` that does not hold a character of class `k`.
pub open spec fn run_end(s: Seq<char>, p: int, k: CharClass) -> int
    decreases s.len() - p,
{
    if 0 <= p < s.len() && in_class(s[p], k) {
        run_end(s, p + 1, k)
    } else {
        p
    }
}

pub proof fn lemma_run_end(s: Seq<char>, p: int, k: CharClass)
    requires
        0 <= p <= s.len(),
    ensures
        p <= run_end(s, p, k) <= s.len(),
        forall|i: int| p <= i < run_end(s, p, k) ==> in_class(#[trigger] s[i], k),
        run_end(s, p, k) < s.len() ==> !in_class(s[run_end(s, p, k)], k),
    decreases s.len() - p,
{
    if p < s.len() && in_class(s[p], k) {
        lemma_run_end(s, p + 1, k);
    }
}

pub(crate) fn char_in_class(c: char, k: CharClass) -> (r: bool)
    ensures
        r == in_class(c, k),
{
    match k {
        CharClass::Space => is_whitespace(c),
        CharClass::Digit => '0' <= c && c <= '9',
        CharClass::Ident => is_alphabetic(c) || ('0' <= c && c <= '9') || c == '_',
    }
}

/// Scans the run of class `k` that starts at `p`.
pub(crate) fn scan_run(s: &Vec<char>, p: usize, k: CharClass) -> (r: usize)
    requires
        p <= s.len(),
    ensures
        r == run_end(s@, p as int, k),
        p <= r <= s.len(),
{
    let mut q: usize = p;
    while q < s.len() && char_in_class(s[q], k)
        invariant
            p <= q <= s.len(),
            run_end(s@, q as int, k) == run_end(s@, p as int, k),
        decreases s.len() - q,
    {
        q = q + 1;
    }
    q
}

/// The characters of `text`, in order.
pub(crate) fn to_chars(text: &str) -> (r: Vec<char>)
    ensures
        r@ == text@,
{
    let mut v: Vec<char> = Vec::new();
    for c in it: text.chars()
        invariant
            v@ == it.seq().subrange(0, it.index() as int),
    {
        v.push(c);
    }
    v
}

} // verus!
