//! Unit counts as decimal numbers, held in thousandths.
//!
//! `4.5` units is `4500`. The text form is plain decimal notation: digits,
//! optionally followed by a point and more digits; a point needs a digit on
//! at least one side. Digits beyond the third after the point are dropped.

use crate::text::{
    all_digits, index_of, is_digit, is_digit_char, lemma_index_of, lemma_index_of_bounds,
};
use vstd::prelude::*;

verus! {

/// A number of units, in thousandths of a unit.
#[derive(Debug, Clone, Copy, PartialEq, Eq, Structural, PartialOrd, Ord, Hash)]
pub struct UnitNumber {
    pub thousandths: u64,
}

/// The value of a digit character; 0 for any other character.
pub open spec fn digit_value(c: char) -> nat {
    if is_digit(c) {
        (c as u32 - '0' as u32) as nat
    } else {
        0
    }
}

/// The number that a string of digits denotes in base ten; 0 for the empty
/// string.
pub open spec fn decimal_value(s: Seq<char>) -> nat
    decreases s.len(),
{
    if s.len() == 0 {
        0
    } else {
        10 * decimal_value(s.drop_last()) + digit_value(s.last())
    }
}

/// What the digits after the point are worth, in thousandths: the first
/// three count.
pub open spec fn fraction_value(f: Seq<char>) -> nat {
    if f.len() == 0 {
        0
    } else if f.len() == 1 {
        100 * decimal_value(f)
    } else if f.len() == 2 {
        10 * decimal_value(f)
    } else {
        decimal_value(f.take(3))
    }
}

/// The digits before the point of `s`: all of `s` where it has no point.
pub open spec fn whole_part(s: Seq<char>) -> Seq<char> {
    s.take(index_of(s, '.') as int)
}

/// The digits after the first point of `s`: none where it has no point.
pub open spec fn fraction_part(s: Seq<char>) -> Seq<char> {
    if index_of(s, '.') < s.len() {
        s.skip(index_of(s, '.') as int + 1)
    } else {
        Seq::empty()
    }
}

/// The value of `s` in thousandths, where `s` is written as a number.
pub open spec fn number_value(s: Seq<char>) -> nat {
    1000 * decimal_value(whole_part(s)) + fraction_value(fraction_part(s))
}

/// Whether `s` is written as a number: digits, then optionally a point and
/// digits, with at least one digit in all.
pub open spec fn is_number_text(s: Seq<char>) -> bool {
    &&& all_digits(whole_part(s))
    &&& all_digits(fraction_part(s))
    &&& whole_part(s).len() + fraction_part(s).len() > 0
}

/// The number that `s` denotes: `None` where `s` is not written as a number
/// or its value in thousandths is above `u64::MAX`.
pub open spec fn number_of(s: Seq<char>) -> Option<UnitNumber> {
    if is_number_text(s) && number_value(s) <= u64::MAX {
        Some(UnitNumber { thousandths: number_value(s) as u64 })
    } else {
        None
    }
}

/// The value of a prefix of a text is at most the value of the text.
pub proof fn lemma_decimal_value_prefix(s: Seq<char>, k: int)
    requires
        0 <= k <= s.len(),
    ensures
        decimal_value(s.take(k)) <= decimal_value(s),
    decreases s.len() - k,
{
    if k == s.len() {
        assert(s.take(k) =~= s);
    } else {
        lemma_decimal_value_prefix(s, k + 1);
        assert(s.take(k + 1).drop_last() =~= s.take(k));
    }
}

/// The character of the digit `d`.
pub open spec fn digit_char(d: nat) -> char {
    ((48 + d) as u8) as char
}

/// The digits of `n` in base ten, without leading zeros; `0` for zero.
pub open spec fn decimal_text(n: nat) -> Seq<char>
    decreases n,
{
    if n < 10 {
        seq![digit_char(n)]
    } else {
        decimal_text(n / 10).push(digit_char(n % 10))
    }
}

/// The digits after the point for `f` thousandths, `0 < f < 1000`, without
/// trailing zeros.
pub open spec fn fraction_text(f: nat) -> Seq<char> {
    if f % 100 == 0 {
        seq![digit_char(f / 100)]
    } else if f % 10 == 0 {
        seq![digit_char(f / 100), digit_char(f / 10 % 10)]
    } else {
        seq![digit_char(f / 100), digit_char(f / 10 % 10), digit_char(f % 10)]
    }
}

/// The text of a number: its whole part, and, unless the number is whole, a
/// point and the digits after it.
pub open spec fn number_text(n: UnitNumber) -> Seq<char> {
    let whole = decimal_text((n.thousandths / 1000) as nat);
    let f = (n.thousandths % 1000) as nat;
    if f == 0 {
        whole
    } else {
        whole + seq!['.'] + fraction_text(f)
    }
}

/// The digits of a number denote the number.
pub proof fn lemma_decimal_text(n: nat)
    ensures
        all_digits(decimal_text(n)),
        decimal_text(n).len() >= 1,
        decimal_value(decimal_text(n)) == n,
    decreases n,
{
    let t = decimal_text(n);
    if n < 10 {
        assert(t.drop_last() =~= Seq::<char>::empty());
        assert(decimal_value(t.drop_last()) == 0);
        assert(digit_value(digit_char(n)) == n);
    } else {
        lemma_decimal_text(n / 10);
        assert(t.drop_last() =~= decimal_text(n / 10));
        assert(digit_value(digit_char(n % 10)) == n % 10);
        assert forall|i: int| 0 <= i < t.len() implies is_digit(#[trigger] t[i]) by {
            if i < t.len() - 1 {
                assert(t[i] == decimal_text(n / 10)[i]);
            }
        }
    }
}

/// The digits after the point denote the thousandths they stand for.
pub proof fn lemma_fraction_text(f: nat)
    requires
        0 < f < 1000,
    ensures
        all_digits(fraction_text(f)),
        1 <= fraction_text(f).len() <= 3,
        fraction_value(fraction_text(f)) == f,
{
    let t = fraction_text(f);
    let a = digit_char(f / 100);
    let b = digit_char(f / 10 % 10);
    let c = digit_char(f % 10);
    assert(digit_value(a) == f / 100);
    assert(digit_value(b) == f / 10 % 10);
    assert(digit_value(c) == f % 10);
    assert(decimal_value(Seq::<char>::empty()) == 0);
    assert(seq![a].drop_last() =~= Seq::<char>::empty());
    assert(decimal_value(seq![a]) == f / 100);
    assert(seq![a, b].drop_last() =~= seq![a]);
    assert(decimal_value(seq![a, b]) == 10 * (f / 100) + f / 10 % 10);
    assert(seq![a, b, c].drop_last() =~= seq![a, b]);
    assert(decimal_value(seq![a, b, c]) == 10 * (10 * (f / 100) + f / 10 % 10) + f % 10);
    assert(seq![a, b, c].take(3) =~= seq![a, b, c]);
}

/// The text of a number is digits, with at most one point among them, and
/// begins and ends with a digit.
pub proof fn lemma_number_text_shape(n: UnitNumber)
    ensures
        number_text(n).len() >= 1,
        forall|i: int|
            0 <= i < number_text(n).len() ==> is_digit(#[trigger] number_text(n)[i]) || number_text(
                n,
            )[i] == '.',
        is_digit(number_text(n)[0]),
        is_digit(number_text(n).last()),
{
    let whole = decimal_text((n.thousandths / 1000) as nat);
    let f = (n.thousandths % 1000) as nat;
    lemma_decimal_text((n.thousandths / 1000) as nat);
    assert(is_digit(whole[0]));
    assert(is_digit(whole[whole.len() - 1]));
    if f != 0 {
        lemma_fraction_text(f);
        let frac = fraction_text(f);
        let t = number_text(n);
        assert(t =~= whole + seq!['.'] + frac);
        assert(is_digit(frac[frac.len() - 1]));
        assert(t.last() == frac[frac.len() - 1]);
        assert(t[0] == whole[0]);
        assert forall|i: int| 0 <= i < t.len() implies is_digit(#[trigger] t[i]) || t[i]
            == '.' by {
            if i < whole.len() {
                assert(t[i] == whole[i]);
            } else if i > whole.len() {
                assert(t[i] == frac[i - whole.len() - 1]);
            }
        }
    }
}

/// Reading the text of a number gives the number back.
pub proof fn lemma_number_round_trip(n: UnitNumber)
    ensures
        number_of(number_text(n)) == Some(n),
{
    let w = (n.thousandths / 1000) as nat;
    let f = (n.thousandths % 1000) as nat;
    let whole = decimal_text(w);
    let t = number_text(n);
    lemma_decimal_text(w);
    if f == 0 {
        assert(forall|j: int| 0 <= j < t.len() ==> t[j] != '.');
        lemma_index_of(t, '.', t.len() as int);
        assert(t.take(t.len() as int) =~= t);
        assert(fraction_part(t) =~= Seq::<char>::empty());
    } else {
        lemma_fraction_text(f);
        let frac = fraction_text(f);
        assert(t =~= whole + seq!['.'] + frac);
        assert forall|j: int| 0 <= j < whole.len() implies t[j] != '.' by {
            assert(t[j] == whole[j]);
        }
        assert(t[whole.len() as int] == '.');
        lemma_index_of(t, '.', whole.len() as int);
        assert(t.take(whole.len() as int) =~= whole);
        assert(t.skip(whole.len() as int + 1) =~= frac);
    }
    assert(number_value(t) == n.thousandths);
}

fn digit_char_of(d: u64) -> (c: char)
    requires
        d < 10,
    ensures
        c == digit_char(d as nat),
{
    ((48 + d) as u8) as char
}

fn push_decimal(out: &mut Vec<char>, n: u64)
    ensures
        final(out)@ == old(out)@ + decimal_text(n as nat),
    decreases n,
{
    if n >= 10 {
        push_decimal(out, n / 10);
    }
    out.push(digit_char_of(n % 10));
    assert(final(out)@ =~= old(out)@ + decimal_text(n as nat));
}

fn digit_of(c: char) -> (d: u64)
    requires
        is_digit(c),
    ensures
        d == digit_value(c),
        d <= 9,
{
    (c as u32 - '0' as u32) as u64
}

impl UnitNumber {
    /// The number of whole units `n`.
    pub fn whole(n: u32) -> (r: UnitNumber)
        ensures
            r.thousandths == 1000 * n,
    {
        UnitNumber { thousandths: 1000 * (n as u64) }
    }

    /// The number that is `thousandths` thousandths of a unit.
    pub fn from_thousandths(thousandths: u64) -> (r: UnitNumber)
        ensures
            r.thousandths == thousandths,
    {
        UnitNumber { thousandths }
    }

    /// Appends the text of the number to `out`.
    pub fn push_text(&self, out: &mut Vec<char>)
        ensures
            final(out)@ == old(out)@ + number_text(*self),
    {
        push_decimal(out, self.thousandths / 1000);
        let f = self.thousandths % 1000;
        if f != 0 {
            out.push('.');
            out.push(digit_char_of(f / 100));
            if f % 100 != 0 {
                out.push(digit_char_of(f / 10 % 10));
                if f % 10 != 0 {
                    out.push(digit_char_of(f % 10));
                }
            }
        }
        proof {
            assert(final(out)@ =~= old(out)@ + number_text(*self));
        }
    }

    /// Reads a number in decimal notation.
    pub fn parse(v: &Vec<char>) -> (r: Option<UnitNumber>)
        ensures
            r == number_of(v@),
    {
        let n = v.len();
        let limit: u64 = u64::MAX / 1000;
        let mut whole: u64 = 0;
        let mut i: usize = 0;
        while i < n && is_digit_char(v[i])
            invariant
                i <= n == v.len(),
                limit == u64::MAX / 1000,
                forall|j: int| 0 <= j < i ==> is_digit(#[trigger] v@[j]),
                whole == decimal_value(v@.take(i as int)),
                whole <= limit,
            decreases n - i,
        {
            let d = digit_of(v[i]);
            proof {
                assert(v@.take(i + 1).drop_last() =~= v@.take(i as int));
                assert(decimal_value(v@.take(i + 1)) == 10 * whole + d);
            }
            if whole > (limit - d) / 10 {
                proof {
                    // The digits read so far are already worth too much.
                    let dot = index_of(v@, '.');
                    lemma_index_of_bounds(v@, '.');
                    if is_number_text(v@) {
                        assert(dot > i) by {
                            if dot <= i {
                                assert(v@[dot as int] == '.');
                            }
                        }
                        lemma_decimal_value_prefix(whole_part(v@), i + 1);
                        assert(whole_part(v@).take(i + 1) =~= v@.take(i + 1));
                    }
                }
                return None;
            }
            whole = whole * 10 + d;
            i += 1;
        }
        proof {
            lemma_index_of_bounds(v@, '.');
        }
        if i == n {
            proof {
                lemma_index_of(v@, '.', n as int);
                assert(v@.take(n as int) =~= v@);
            }
            if n == 0 {
                return None;
            }
            return Some(UnitNumber { thousandths: whole * 1000 });
        }
        if v[i] != '.' {
            proof {
                let dot = index_of(v@, '.');
                assert(dot != i);
                if dot > i {
                    assert(whole_part(v@)[i as int] == v@[i as int]);
                } else {
                    assert(v@[dot as int] == '.');
                }
            }
            return None;
        }
        proof {
            lemma_index_of(v@, '.', i as int);
        }
        let start = i + 1;
        let ghost frac = v@.skip(start as int);
        assert(frac == fraction_part(v@));
        let mut part: u64 = 0;
        let mut digits: usize = 0;
        let mut k: usize = start;
        assert(frac.take(0) =~= Seq::<char>::empty());
        while k < n
            invariant
                start <= k <= n == v.len(),
                frac == v@.skip(start as int),
                frac == fraction_part(v@),
                forall|j: int| 0 <= j < k - start ==> is_digit(#[trigger] frac[j]),
                digits <= 3,
                digits == (if k - start < 3 {
                    k - start
                } else {
                    3
                }),
                part == decimal_value(frac.take(digits as int)),
                part <= 999,
                digits == 0 ==> part == 0,
                digits == 1 ==> part <= 9,
                digits == 2 ==> part <= 99,
            decreases n - k,
        {
            if !is_digit_char(v[k]) {
                assert(frac[k - start] == v@[k as int]);
                return None;
            }
            proof {
                assert(frac[k - start] == v@[k as int]);
            }
            if digits < 3 {
                let d = digit_of(v[k]);
                proof {
                    assert(frac.take(digits + 1).drop_last() =~= frac.take(digits as int));
                }
                part = part * 10 + d;
                digits += 1;
            }
            k += 1;
        }
        if i == 0 && n == start {
            return None;
        }
        let scaled: u64 = if digits == 1 {
            part * 100
        } else if digits == 2 {
            part * 10
        } else {
            part
        };
        proof {
            if frac.len() < 3 {
                assert(frac.take(frac.len() as int) =~= frac);
            }
            assert(scaled == fraction_value(frac));
        }
        if whole * 1000 > u64::MAX - scaled {
            return None;
        }
        Some(UnitNumber { thousandths: whole * 1000 + scaled })
    }
}

} // verus!
