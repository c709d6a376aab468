use vstd::prelude::*;
use crate::chars::{is_digit, scan_run, to_chars, CharClass, lemma_run_end, in_class};

verus! {

/// Spec-level model of a decimal literal: its integer digits without leading
/// zeros and its fraction digits without trailing zeros.
pub struct SDecimal {
    pub int_digits: Seq<char>,
    pub frac_digits: Seq<char>,
}

pub open spec fn all_digits(s: Seq<char>) -> bool {
    forall|i: int| 0 <= i < s.len() ==> is_digit(#[trigger] s[i])
}

pub open spec fn strip_leading_zeros(s: Seq<char>) -> Seq<char>
    decreases s.len(),
{
    if s.len() > 0 && s[0] == '0' {
        strip_leading_zeros(s.drop_first())
    } else {
        s
    }
}

pub open spec fn strip_trailing_zeros(s: Seq<char>) -> Seq<char>
    decreases s.len(),
{
    if s.len() > 0 && s.last() == '0' {
        strip_trailing_zeros(s.drop_last())
    } else {
        s
    }
}

/// The literal whose integer part is written `int_run` and whose fraction is
/// written `frac_run`, in canonical form.
pub open spec fn decimal_of(int_run: Seq<char>, frac_run: Seq<char>) -> SDecimal {
    SDecimal {
        int_digits: strip_leading_zeros(int_run),
        frac_digits: strip_trailing_zeros(frac_run),
    }
}

pub open spec fn digit_value(c: char) -> nat {
    ((c as u32) - ('0' as u32)) as nat
}

/// The natural number that a run of decimal digits denotes (0 for an empty run).
pub open spec fn digits_value(s: Seq<char>) -> nat
    decreases s.len(),
{
    if s.len() == 0 {
        0
    } else {
        digits_value(s.drop_last()) * 10 + digit_value(s.last())
    }
}

pub open spec fn pow10(n: nat) -> nat
    decreases n,
{
    if n == 0 {
        1
    } else {
        10 * pow10((n - 1) as nat)
    }
}

impl SDecimal {
    /// Canonical form: digits only, no leading zero in the integer part, no
    /// trailing zero in the fraction.
    pub open spec fn wf(self) -> bool {
        &&& all_digits(self.int_digits)
        &&& all_digits(self.frac_digits)
        &&& (self.int_digits.len() > 0 ==> self.int_digits[0] != '0')
        &&& (self.frac_digits.len() > 0 ==> self.frac_digits.last() != '0')
    }

    /// The value of the literal times `10^k`, for `k` at least the number of
    /// fraction digits.
    pub open spec fn scaled(self, k: nat) -> nat
        recommends
            k >= self.frac_digits.len(),
    {
        digits_value(self.int_digits) * pow10(k) + digits_value(self.frac_digits) * pow10(
            (k - self.frac_digits.len()) as nat,
        )
    }

    /// The literal as text: the integer digits (`0` when there are none),
    /// then a point and the fraction digits when there are any.
    pub open spec fn text(self) -> Seq<char> {
        (if self.int_digits.len() == 0 { seq!['0'] } else { self.int_digits }) + (
        if self.frac_digits.len() == 0 {
            Seq::<char>::empty()
        } else {
            seq!['.'] + self.frac_digits
        })
    }
}

/// A decimal literal, held exactly as its digits.
#[derive(Debug, PartialEq, Eq)]
pub struct Decimal {
    int_digits: String,
    frac_digits: String,
}

impl View for Decimal {
    type V = SDecimal;

    closed spec fn view(&self) -> SDecimal {
        SDecimal { int_digits: self.int_digits@, frac_digits: self.frac_digits@ }
    }
}

/// The first position in `from..to` that is not a `'0'`, or `to`.
fn skip_zeros(s: &Vec<char>, from: usize, to: usize) -> (r: usize)
    requires
        from <= to <= s.len(),
    ensures
        from <= r <= to,
        s@.subrange(r as int, to as int) == strip_leading_zeros(s@.subrange(from as int, to as int)),
{
    let mut a: usize = from;
    while a < to && s[a] == '0'
        invariant
            from <= a <= to <= s.len(),
            strip_leading_zeros(s@.subrange(a as int, to as int)) == strip_leading_zeros(
                s@.subrange(from as int, to as int),
            ),
        decreases to - a,
    {
        assert(s@.subrange(a as int, to as int).drop_first() =~= s@.subrange(a + 1, to as int));
        a = a + 1;
    }
    a
}

/// The end of `from..to` once trailing `'0'`s are dropped.
fn drop_trailing_zeros(s: &Vec<char>, from: usize, to: usize) -> (r: usize)
    requires
        from <= to <= s.len(),
    ensures
        from <= r <= to,
        s@.subrange(from as int, r as int) == strip_trailing_zeros(s@.subrange(from as int, to as int)),
{
    let mut b: usize = to;
    while b > from && s[b - 1] == '0'
        invariant
            from <= b <= to <= s.len(),
            strip_trailing_zeros(s@.subrange(from as int, b as int)) == strip_trailing_zeros(
                s@.subrange(from as int, to as int),
            ),
        decreases b - from,
    {
        assert(s@.subrange(from as int, b as int).drop_last() =~= s@.subrange(from as int, b - 1));
        b = b - 1;
    }
    b
}

impl Decimal {
    /// Builds the literal from the digit runs `s[int_from..int_to]` and
    /// `s[frac_from..frac_to]` of the text `src`.
    pub(crate) fn from_runs(
        src: &str,
        s: &Vec<char>,
        int_from: usize,
        int_to: usize,
        frac_from: usize,
        frac_to: usize,
    ) -> (r: Decimal)
        requires
            s@ == src@,
            int_from <= int_to <= s.len(),
            frac_from <= frac_to <= s.len(),
        ensures
            r@ == decimal_of(
                s@.subrange(int_from as int, int_to as int),
                s@.subrange(frac_from as int, frac_to as int),
            ),
    {
        let a = skip_zeros(s, int_from, int_to);
        let b = drop_trailing_zeros(s, frac_from, frac_to);
        let int_digits = src.substring_char(a, int_to).to_owned();
        let frac_digits = src.substring_char(frac_from, b).to_owned();
        Decimal { int_digits, frac_digits }
    }

    /// The literal with integer digits `int_digits` and fraction digits
    /// `frac_digits`; `None` unless both consist of ASCII digits only.
    pub fn new(int_digits: &str, frac_digits: &str) -> (r: Option<Decimal>)
        ensures
            r is Some <==> all_digits(int_digits@) && all_digits(frac_digits@),
            r matches Some(d) ==> d@ == decimal_of(int_digits@, frac_digits@),
    {
        let i = to_chars(int_digits);
        let f = to_chars(frac_digits);
        let ie = scan_run(&i, 0, CharClass::Digit);
        let fe = scan_run(&f, 0, CharClass::Digit);
        proof {
            lemma_run_end(i@, 0, CharClass::Digit);
            lemma_run_end(f@, 0, CharClass::Digit);
        }
        if ie < i.len() || fe < f.len() {
            proof {
                if ie < i.len() {
                    assert(!in_class(i@[ie as int], CharClass::Digit));
                } else {
                    assert(!in_class(f@[fe as int], CharClass::Digit));
                }
            }
            return None;
        }
        Some(Decimal::from_runs_of(int_digits, &i, frac_digits, &f))
    }

    fn from_runs_of(int_src: &str, i: &Vec<char>, frac_src: &str, f: &Vec<char>) -> (r: Decimal)
        requires
            i@ == int_src@,
            f@ == frac_src@,
        ensures
            r@ == decimal_of(int_src@, frac_src@),
    {
        let a = skip_zeros(i, 0, i.len());
        let b = drop_trailing_zeros(f, 0, f.len());
        assert(i@.subrange(0, i@.len() as int) =~= i@);
        assert(f@.subrange(0, f@.len() as int) =~= f@);
        let int_digits = int_src.substring_char(a, i.len()).to_owned();
        let frac_digits = frac_src.substring_char(0, b).to_owned();
        Decimal { int_digits, frac_digits }
    }

    /// A copy of the literal.
    pub fn duplicate(&self) -> (r: Decimal)
        ensures
            r@ == self@,
    {
        Decimal { int_digits: self.int_digits.clone(), frac_digits: self.frac_digits.clone() }
    }

    /// The integer digits, without leading zeros.
    pub fn integer_digits(&self) -> (r: &str)
        ensures
            r@ == self@.int_digits,
    {
        self.int_digits.as_str()
    }

    /// The fraction digits, without trailing zeros.
    pub fn fraction_digits(&self) -> (r: &str)
        ensures
            r@ == self@.frac_digits,
    {
        self.frac_digits.as_str()
    }

    /// Appends the literal as text: the integer digits (`0` when there are
    /// none), then a point and the fraction digits when there are any.
    pub fn write_text(&self, out: &mut String)
        ensures
            final(out)@ == old(out)@ + self@.text(),
    {
        if self.int_digits.as_str().unicode_len() == 0 {
            out.append("0");
            proof {
                reveal_strlit("0");
            }
        } else {
            out.append(self.int_digits.as_str());
        }
        if self.frac_digits.as_str().unicode_len() > 0 {
            out.append(".");
            proof {
                reveal_strlit(".");
            }
            out.append(self.frac_digits.as_str());
        }
        assert(out@ =~= old(out)@ + self@.text());
    }

    /// Whether the literal has fraction digits.
    pub fn has_fraction(&self) -> (r: bool)
        ensures
            r == (self@.frac_digits.len() > 0),
    {
        self.frac_digits.as_str().unicode_len() > 0
    }
}

} // verus!
