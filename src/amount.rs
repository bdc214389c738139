//! Decimal amounts, read from text exactly.

use vstd::prelude::*;
use crate::text::{chars_of, is_white};

verus! {

pub open spec fn is_digit(c: char) -> bool {
    '0' <= c && c <= '9'
}

pub open spec fn all_digits(s: Seq<char>) -> bool {
    forall|i: int| 0 <= i < s.len() ==> is_digit(#[trigger] s[i])
}

pub open spec fn digit_of(c: char) -> u8 {
    (c as u32 - '0' as u32) as u8
}

/// The number that a sequence of decimal digits denotes, most significant
/// digit first.
pub open spec fn digits_value(d: Seq<u8>) -> nat
    decreases d.len(),
{
    if d.len() == 0 {
        0
    } else {
        digits_value(d.drop_last()) * 10 + d.last() as nat
    }
}

/// Whether `t` starts with a sign character.
pub open spec fn has_sign(t: Seq<char>) -> bool {
    t.len() > 0 && (t[0] == '+' || t[0] == '-')
}

/// `t` without its leading sign, if any.
pub open spec fn unsigned_part(t: Seq<char>) -> Seq<char> {
    if has_sign(t) {
        t.drop_first()
    } else {
        t
    }
}

/// Position of the first `.` in `b`, or `b.len()` when there is none.
pub open spec fn dot_index(b: Seq<char>) -> nat
    decreases b.len(),
{
    if b.len() == 0 || b[0] == '.' {
        0
    } else {
        1 + dot_index(b.drop_first())
    }
}

/// What a decimal literal denotes: a sign, the digits with the point left
/// out, and how many of them stand after the point. The value is
/// `(-1 if negative) * digits_value(digits) / 10^scale`.
pub struct Decimal {
    pub negative: bool,
    pub digits: Seq<u8>,
    pub scale: nat,
}

/// The decimal that `t` denotes, if it is a decimal literal: an optional
/// `+` or `-`, then digits with at most one `.` among them, and at least
/// one digit. No exponent, no separators, no `inf` or `NaN`.
pub open spec fn decimal_of(t: Seq<char>) -> Option<Decimal> {
    let b = unsigned_part(t);
    let k = dot_index(b) as int;
    let whole = b.take(k);
    let frac = if k < b.len() {
        b.skip(k + 1)
    } else {
        Seq::empty()
    };
    if all_digits(whole) && all_digits(frac) && whole.len() + frac.len() > 0 {
        Some(
            Decimal {
                negative: has_sign(t) && t[0] == '-',
                digits: (whole + frac).map_values(|c: char| digit_of(c)),
                scale: frac.len(),
            },
        )
    } else {
        None
    }
}

/// The integer that `t` denotes, if it is an integer literal: an optional
/// `+` or `-`, then one or more digits.
pub open spec fn integer_of(t: Seq<char>) -> Option<int> {
    let b = unsigned_part(t);
    if b.len() > 0 && all_digits(b) {
        let v = digits_value(b.map_values(|c: char| digit_of(c))) as int;
        Some(
            if has_sign(t) && t[0] == '-' {
                -v
            } else {
                v
            },
        )
    } else {
        None
    }
}

/// The `i32` that `t` denotes: an integer literal whose value fits.
pub open spec fn i32_of(t: Seq<char>) -> Option<i32> {
    match integer_of(t) {
        Some(v) => if i32::MIN <= v <= i32::MAX {
            Some(v as i32)
        } else {
            None
        },
        None => None,
    }
}

/// A decimal literal is a non-empty run of characters none of which is
/// whitespace.
pub proof fn lemma_decimal_is_word(t: Seq<char>)
    requires
        decimal_of(t) is Some,
    ensures
        t.len() > 0,
        forall|i: int| 0 <= i < t.len() ==> !is_white(#[trigger] t[i]),
{
    let b = unsigned_part(t);
    let k = dot_index(b) as int;
    lemma_dot_index(b, 0);
    assert forall|i: int| 0 <= i < t.len() implies !is_white(#[trigger] t[i]) by {
        let j = if has_sign(t) { i - 1 } else { i };
        if j >= 0 {
            assert(b[j] == t[i]);
            if j < k {
                assert(b.take(k)[j] == t[i]);
            } else if j > k {
                assert(b.skip(k + 1)[j - k - 1] == t[i]);
            }
        }
    }
}

/// A finite decimal number: a sign, a non-empty string of digits and the
/// number of those digits that stand after the decimal point.
#[derive(Debug, Clone, PartialEq, Eq)]
pub struct Amount {
    negative: bool,
    digits: Vec<u8>,
    scale: usize,
}

impl View for Amount {
    type V = Decimal;

    closed spec fn view(&self) -> Decimal {
        Decimal { negative: self.negative, digits: self.digits@, scale: self.scale as nat }
    }
}

impl Amount {
    /// The amount that the decimal literal `t` denotes, if it is one.
    pub fn parse(t: &str) -> (r: Option<Amount>)
        ensures
            r is Some <==> decimal_of(t@) is Some,
            r matches Some(a) ==> a.wf() && a@ == decimal_of(t@)->Some_0,
    {
        let cs = chars_of(t);
        assert(cs@.subrange(0, cs@.len() as int) =~= t@);
        decimal_in(&cs, 0, cs.len())
    }

    /// Whether the amount was written with a `-` sign.
    pub fn is_negative(&self) -> (r: bool)
        ensures
            r == self@.negative,
    {
        self.negative
    }

    /// The digits as written, most significant first, without the point.
    pub fn digits(&self) -> (r: &Vec<u8>)
        ensures
            r@ == self@.digits,
    {
        &self.digits
    }

    /// How many of the digits stand after the decimal point.
    pub fn scale(&self) -> (r: usize)
        ensures
            r == self@.scale,
    {
        self.scale
    }

    pub open spec fn wf(&self) -> bool {
        &&& self@.digits.len() > 0
        &&& self@.scale <= self@.digits.len()
        &&& forall|i: int| 0 <= i < self@.digits.len() ==> #[trigger] self@.digits[i] < 10
    }
}

proof fn lemma_dot_index(b: Seq<char>, m: int)
    requires
        0 <= m <= b.len(),
        forall|k: int| 0 <= k < m ==> #[trigger] b[k] != '.',
    ensures
        dot_index(b) >= m,
        dot_index(b) <= b.len(),
        m == b.len() ==> dot_index(b) == m,
        m < b.len() && b[m] == '.' ==> dot_index(b) == m,
        dot_index(b) < b.len() ==> b[dot_index(b) as int] == '.',
    decreases b.len(),
{
    if b.len() > 0 && b[0] != '.' {
        assert forall|k: int| 0 <= k < m - 1 implies #[trigger] b.drop_first()[k] != '.' by {
            assert(b[k + 1] != '.');
        }
        lemma_dot_index(b.drop_first(), if m > 0 { m - 1 } else { 0 });
    }
}

/// The decimal literal `cs[lo..hi]`, if it is one.
pub fn decimal_in(cs: &Vec<char>, lo: usize, hi: usize) -> (r: Option<Amount>)
    requires
        lo <= hi <= cs@.len(),
    ensures
        r is Some <==> decimal_of(cs@.subrange(lo as int, hi as int)) is Some,
        r matches Some(a) ==> a.wf() && a@ == decimal_of(
            cs@.subrange(lo as int, hi as int),
        )->Some_0,
{
    let ghost t = cs@.subrange(lo as int, hi as int);
    let mut negative = false;
    let mut start = lo;
    if lo < hi && (cs[lo] == '+' || cs[lo] == '-') {
        negative = cs[lo] == '-';
        start = lo + 1;
    }
    let ghost b = cs@.subrange(start as int, hi as int);
    assert(b =~= unsigned_part(t));
    let mut digits: Vec<u8> = Vec::new();
    let mut scale: usize = 0;
    let mut seen_dot = false;
    let ghost mut dot: int = 0;
    let mut j = start;
    while j < hi
        invariant
            lo <= start <= j <= hi <= cs@.len(),
            b == cs@.subrange(start as int, hi as int),
            b == unsigned_part(t),
            t == cs@.subrange(lo as int, hi as int),
            negative == (has_sign(t) && t[0] == '-'),
            !seen_dot ==> {
                &&& forall|k: int| 0 <= k < j - start ==> #[trigger] b[k] != '.'
                &&& all_digits(b.take(j - start))
                &&& digits@ == b.take(j - start).map_values(|c: char| digit_of(c))
                &&& scale == 0
            },
            seen_dot ==> {
                &&& 0 <= dot < j - start
                &&& dot_index(b) == dot
                &&& all_digits(b.take(dot))
                &&& all_digits(b.subrange(dot + 1, j - start))
                &&& digits@ == (b.take(dot) + b.subrange(dot + 1, j - start)).map_values(
                    |c: char| digit_of(c),
                )
                &&& scale == j - start - dot - 1
            },
        decreases hi - j,
    {
        let c = cs[j];
        let ghost p = j - start;
        if '0' <= c && c <= '9' {
            digits.push((c as u32 - '0' as u32) as u8);
            proof {
                if seen_dot {
                    assert(b.subrange(dot + 1, p + 1) =~= b.subrange(dot + 1, p).push(c));
                    assert((b.take(dot) + b.subrange(dot + 1, p + 1)) =~= (b.take(dot)
                        + b.subrange(dot + 1, p)).push(c));
                } else {
                    assert(b.take(p + 1) =~= b.take(p).push(c));
                }
            }
            if seen_dot {
                scale = scale + 1;
            }
        } else if c == '.' && !seen_dot {
            proof {
                lemma_dot_index(b, p);
                dot = p;
                assert(b.subrange(dot + 1, p + 1) =~= Seq::<char>::empty());
                assert(b.take(dot) + b.subrange(dot + 1, p + 1) =~= b.take(dot));
            }
            seen_dot = true;
        } else {
            proof {
                assert(b[p] == c);
                if seen_dot {
                    assert(b.skip(dot + 1)[p - dot - 1] == c);
                    assert(!all_digits(b.skip(dot + 1)));
                } else {
                    lemma_dot_index(b, p + 1);
                    assert(b.take(dot_index(b) as int)[p] == c);
                    assert(!all_digits(b.take(dot_index(b) as int)));
                }
                assert(decimal_of(t) is None);
            }
            return None;
        }
        j = j + 1;
    }
    proof {
        if seen_dot {
            assert(b.subrange(dot + 1, hi - start) =~= b.skip(dot + 1));
        } else {
            lemma_dot_index(b, b.len() as int);
            assert(b.take(hi - start) =~= b);
            assert(b + Seq::<char>::empty() =~= b);
        }
    }
    if digits.len() == 0 {
        return None;
    }
    Some(Amount { negative, digits, scale })
}

} // verus!
