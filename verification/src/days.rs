//! The days of the week on which a meeting takes place.
//!
//! A `DaySet` holds one bit per day, Monday in the lowest bit and Sunday in
//! the seventh. In text a day is one letter: `M T W R F S U`.

use crate::text::{chars_of, spells, string_of};
use vstd::prelude::*;

verus! {

/// A set of days of the week.
#[derive(Debug, Clone, Copy, PartialEq, Eq, Structural, Hash)]
pub struct DaySet(pub u8);

/// When a meeting takes place.
#[derive(Debug, Clone, Copy, PartialEq, Eq, Structural)]
pub enum Days {
    /// On given days.
    Days(DaySet),
    /// To be announced.
    TBA,
}

/// The bit of the day whose letter is `c`; 0 where `c` is no day letter.
pub open spec fn letter_bit(c: char) -> u8 {
    if c == 'M' {
        1
    } else if c == 'T' {
        2
    } else if c == 'W' {
        4
    } else if c == 'R' {
        8
    } else if c == 'F' {
        16
    } else if c == 'S' {
        32
    } else if c == 'U' {
        64
    } else {
        0
    }
}

/// The bits of the days whose letters occur in `s`. Other characters count
/// for nothing.
pub open spec fn letters_bits(s: Seq<char>) -> u8
    decreases s.len(),
{
    if s.len() == 0 {
        0
    } else {
        letters_bits(s.drop_last()) | letter_bit(s.last())
    }
}

/// The letter `c` where `bit` is set in `bits`, else nothing.
pub open spec fn letter_if(bits: u8, bit: u8, c: char) -> Seq<char> {
    if bits & bit == bit {
        seq![c]
    } else {
        Seq::empty()
    }
}

/// The letters of the days in `bits`, from Monday to Sunday.
pub open spec fn bits_letters(bits: u8) -> Seq<char> {
    letter_if(bits, 1, 'M') + letter_if(bits, 2, 'T') + letter_if(bits, 4, 'W') + letter_if(
        bits,
        8,
        'R',
    ) + letter_if(bits, 16, 'F') + letter_if(bits, 32, 'S') + letter_if(bits, 64, 'U')
}

/// The days that `s` denotes: to be announced for `TBA`, else the days whose
/// letters occur in it.
pub open spec fn days_of(s: Seq<char>) -> Days {
    if s == "TBA"@ {
        Days::TBA
    } else {
        Days::Days(DaySet(letters_bits(s)))
    }
}

/// The bits of two texts side by side are the bits of either.
pub proof fn lemma_letters_bits_concat(x: Seq<char>, y: Seq<char>)
    ensures
        letters_bits(x + y) == letters_bits(x) | letters_bits(y),
    decreases y.len(),
{
    if y.len() == 0 {
        assert(x + y =~= x);
        let a = letters_bits(x);
        assert(a | 0 == a) by (bit_vector);
    } else {
        assert((x + y).drop_last() =~= x + y.drop_last());
        lemma_letters_bits_concat(x, y.drop_last());
        let a = letters_bits(x);
        let b = letters_bits(y.drop_last());
        let c = letter_bit(y.last());
        assert((a | b) | c == a | (b | c)) by (bit_vector);
    }
}

/// The bits of the letter that stands for one day: that day's bit where the
/// day is in the set.
pub proof fn lemma_letter_if_bits(bits: u8, bit: u8, c: char)
    requires
        letter_bit(c) == bit,
    ensures
        letters_bits(letter_if(bits, bit, c)) == (if bits & bit == bit {
            bit
        } else {
            0
        }),
{
    if bits & bit == bit {
        let one = seq![c];
        assert(one.drop_last() =~= Seq::<char>::empty());
        assert(one.last() == c);
        assert(letters_bits(one.drop_last()) == 0);
        assert(letters_bits(one) == 0u8 | bit);
        assert(0u8 | bit == bit) by (bit_vector);
    }
}

/// Reading the letters of a set of days gives the set back.
pub proof fn lemma_days_round_trip(days: DaySet)
    requires
        days.wf(),
    ensures
        letters_bits(bits_letters(days.0)) == days.0,
        days_of(Days::Days(days).text()) == Days::Days(days),
{
    let b = days.0;
    let l1 = letter_if(b, 1, 'M');
    let l2 = letter_if(b, 2, 'T');
    let l3 = letter_if(b, 4, 'W');
    let l4 = letter_if(b, 8, 'R');
    let l5 = letter_if(b, 16, 'F');
    let l6 = letter_if(b, 32, 'S');
    let l7 = letter_if(b, 64, 'U');
    lemma_letter_if_bits(b, 1, 'M');
    lemma_letter_if_bits(b, 2, 'T');
    lemma_letter_if_bits(b, 4, 'W');
    lemma_letter_if_bits(b, 8, 'R');
    lemma_letter_if_bits(b, 16, 'F');
    lemma_letter_if_bits(b, 32, 'S');
    lemma_letter_if_bits(b, 64, 'U');
    lemma_letters_bits_concat(l1, l2);
    lemma_letters_bits_concat(l1 + l2, l3);
    lemma_letters_bits_concat(l1 + l2 + l3, l4);
    lemma_letters_bits_concat(l1 + l2 + l3 + l4, l5);
    lemma_letters_bits_concat(l1 + l2 + l3 + l4 + l5, l6);
    lemma_letters_bits_concat(l1 + l2 + l3 + l4 + l5 + l6, l7);
    let b1 = letters_bits(l1);
    let b2 = letters_bits(l2);
    let b3 = letters_bits(l3);
    let b4 = letters_bits(l4);
    let b5 = letters_bits(l5);
    let b6 = letters_bits(l6);
    let b7 = letters_bits(l7);
    assert(b & 0x80 == 0 && b1 == (if b & 1 == 1 {
        1u8
    } else {
        0u8
    }) && b2 == (if b & 2 == 2 {
        2u8
    } else {
        0u8
    }) && b3 == (if b & 4 == 4 {
        4u8
    } else {
        0u8
    }) && b4 == (if b & 8 == 8 {
        8u8
    } else {
        0u8
    }) && b5 == (if b & 16 == 16 {
        16u8
    } else {
        0u8
    }) && b6 == (if b & 32 == 32 {
        32u8
    } else {
        0u8
    }) && b7 == (if b & 64 == 64 {
        64u8
    } else {
        0u8
    }) ==> (((((b1 | b2) | b3) | b4) | b5) | b6) | b7 == b) by (bit_vector);
    // A text of day letters is never the three letters `TBA`.
    let t = bits_letters(b);
    if t == "TBA"@ {
        reveal_strlit("TBA");
        assert(t[1] == 'B');
        assert(t.contains('B'));
        let k = choose|k: int| 0 <= k < t.len() && t[k] == 'B';
        assert(false);
    }
}

fn push_letter_if(out: &mut Vec<char>, bits: u8, bit: u8, c: char)
    ensures
        final(out)@ == old(out)@ + letter_if(bits, bit, c),
{
    if bits & bit == bit {
        out.push(c);
    }
    assert(out@ =~= old(out)@ + letter_if(bits, bit, c));
}

impl DaySet {
    /// Monday alone.
    pub fn monday() -> (r: DaySet)
        ensures
            r.0 == 1,
            r.wf(),
    {
        assert(1u8 & 0x80 == 0) by (bit_vector);
        DaySet(1)
    }

    /// Tuesday alone.
    pub fn tuesday() -> (r: DaySet)
        ensures
            r.0 == 2,
            r.wf(),
    {
        assert(2u8 & 0x80 == 0) by (bit_vector);
        DaySet(2)
    }

    /// Wednesday alone.
    pub fn wednesday() -> (r: DaySet)
        ensures
            r.0 == 4,
            r.wf(),
    {
        assert(4u8 & 0x80 == 0) by (bit_vector);
        DaySet(4)
    }

    /// Thursday alone.
    pub fn thursday() -> (r: DaySet)
        ensures
            r.0 == 8,
            r.wf(),
    {
        assert(8u8 & 0x80 == 0) by (bit_vector);
        DaySet(8)
    }

    /// Friday alone.
    pub fn friday() -> (r: DaySet)
        ensures
            r.0 == 16,
            r.wf(),
    {
        assert(16u8 & 0x80 == 0) by (bit_vector);
        DaySet(16)
    }

    /// Saturday alone.
    pub fn saturday() -> (r: DaySet)
        ensures
            r.0 == 32,
            r.wf(),
    {
        assert(32u8 & 0x80 == 0) by (bit_vector);
        DaySet(32)
    }

    /// Sunday alone.
    pub fn sunday() -> (r: DaySet)
        ensures
            r.0 == 64,
            r.wf(),
    {
        assert(64u8 & 0x80 == 0) by (bit_vector);
        DaySet(64)
    }

    /// Monday to Friday.
    pub fn weekdays() -> (r: DaySet)
        ensures
            r.0 == 31,
            r.wf(),
    {
        assert(31u8 & 0x80 == 0) by (bit_vector);
        DaySet(31)
    }

    /// Saturday and Sunday.
    pub fn weekend() -> (r: DaySet)
        ensures
            r.0 == 96,
            r.wf(),
    {
        assert(96u8 & 0x80 == 0) by (bit_vector);
        DaySet(96)
    }

    /// Every day of the week.
    pub fn all() -> (r: DaySet)
        ensures
            r.0 == 127,
            r.wf(),
    {
        assert(127u8 & 0x80 == 0) by (bit_vector);
        DaySet(127)
    }

    /// No day.
    pub fn none() -> (r: DaySet)
        ensures
            r.0 == 0,
            r.wf(),
    {
        assert(0u8 & 0x80 == 0) by (bit_vector);
        DaySet(0)
    }

    /// The bits of the set.
    pub open spec fn bits(self) -> u8 {
        self.0
    }

    /// Whether only the seven bits of the days are used.
    pub open spec fn wf(self) -> bool {
        self.0 & 0x80 == 0
    }

    /// The empty set.
    pub fn new() -> (r: DaySet)
        ensures
            r.0 == 0,
            r.wf(),
    {
        assert(0u8 & 0x80 == 0) by (bit_vector);
        DaySet(0)
    }

    /// Whether every day of `day` is in the set.
    pub fn contains(self, day: DaySet) -> (r: bool)
        ensures
            r == (self.0 & day.0 == day.0),
    {
        (self.0 & day.0) == day.0
    }

    /// Puts the days of `day` in where `value` holds, else takes them out. A
    /// set within the week stays within it.
    pub fn set(&mut self, day: DaySet, value: bool)
        ensures
            value ==> final(self).0 == old(self).0 | day.0,
            !value ==> final(self).0 == old(self).0 & (!day.0 & 0x7F),
            old(self).wf() && day.wf() ==> final(self).wf(),
            !value ==> final(self).wf(),
    {
        proof {
            lemma_within_the_week(*self, day);
        }
        if value {
            self.0 = self.0 | day.0;
        } else {
            self.0 = self.0 & (!day.0 & 0x7F);
        }
    }

    /// Puts the days of `day` in. A set within the week stays within it.
    pub fn add(&mut self, day: DaySet)
        ensures
            final(self).0 == old(self).0 | day.0,
            old(self).wf() && day.wf() ==> final(self).wf(),
    {
        proof {
            lemma_within_the_week(*self, day);
        }
        self.0 = self.0 | day.0;
    }

    /// Takes the days of `day` out. What is left is within the week.
    pub fn remove(&mut self, day: DaySet)
        ensures
            final(self).0 == old(self).0 & (!day.0 & 0x7F),
            final(self).wf(),
    {
        proof {
            lemma_within_the_week(*self, day);
        }
        self.0 = self.0 & (!day.0 & 0x7F);
    }

    /// Reads a set of days from characters.
    pub fn from_chars(v: &Vec<char>) -> (r: DaySet)
        ensures
            r.0 == letters_bits(v@),
            r.wf(),
    {
        let mut bits: u8 = 0;
        let mut i: usize = 0;
        assert(v@.take(0) =~= Seq::<char>::empty());
        assert(0u8 & 0x80 == 0) by (bit_vector);
        while i < v.len()
            invariant
                i <= v.len(),
                bits == letters_bits(v@.take(i as int)),
                bits & 0x80 == 0,
            decreases v.len() - i,
        {
            let c = v[i];
            let b: u8 = if c == 'M' {
                1
            } else if c == 'T' {
                2
            } else if c == 'W' {
                4
            } else if c == 'R' {
                8
            } else if c == 'F' {
                16
            } else if c == 'S' {
                32
            } else if c == 'U' {
                64
            } else {
                0
            };
            assert(v@.take(i + 1).drop_last() =~= v@.take(i as int));
            assert(bits & 0x80 == 0 && b <= 64 ==> (bits | b) & 0x80 == 0) by (bit_vector);
            bits = bits | b;
            i += 1;
        }
        assert(v@.take(v@.len() as int) =~= v@);
        DaySet(bits)
    }

    /// Reads a set of days, such as `MWF`. Characters that are no day letters
    /// are passed over.
    pub fn from_str(days: &str) -> (r: Result<DaySet, ()>)
        ensures
            r is Ok,
            r->Ok_0.0 == letters_bits(days@),
            r->Ok_0.wf(),
    {
        let v = chars_of(days);
        Ok(DaySet::from_chars(&v))
    }

    /// The letters of the days in the set, from Monday to Sunday.
    pub fn to_string(&self) -> (r: String)
        ensures
            r@ == bits_letters(self.0),
    {
        let mut out: Vec<char> = Vec::new();
        push_letter_if(&mut out, self.0, 1, 'M');
        push_letter_if(&mut out, self.0, 2, 'T');
        push_letter_if(&mut out, self.0, 4, 'W');
        push_letter_if(&mut out, self.0, 8, 'R');
        push_letter_if(&mut out, self.0, 16, 'F');
        push_letter_if(&mut out, self.0, 32, 'S');
        push_letter_if(&mut out, self.0, 64, 'U');
        assert(out@ =~= bits_letters(self.0));
        string_of(&out)
    }
}

/// Sets within the week stay within it: the days in either of two such sets,
/// the days in both of two sets of which one is such a set, and the days
/// that are left of any set when those of another are taken out.
pub proof fn lemma_within_the_week(a: DaySet, b: DaySet)
    ensures
        a.wf() && b.wf() ==> DaySet(a.0 | b.0).wf(),
        a.wf() || b.wf() ==> DaySet(a.0 & b.0).wf(),
        DaySet(a.0 & (!b.0 & 0x7F)).wf(),
        DaySet(!a.0 & 0x7F).wf(),
{
    let x = a.0;
    let y = b.0;
    assert(x & 0x80 == 0 && y & 0x80 == 0 ==> (x | y) & 0x80 == 0) by (bit_vector);
    assert(x & 0x80 == 0 || y & 0x80 == 0 ==> (x & y) & 0x80 == 0) by (bit_vector);
    assert((x & (!y & 0x7F)) & 0x80 == 0) by (bit_vector);
    assert((!x & 0x7F) & 0x80 == 0) by (bit_vector);
}

/// The operators `|`, `&` and `!` keep sets within the week, as
/// `lemma_within_the_week` says of the bits.
pub proof fn lemma_operators_within_the_week(a: DaySet, b: DaySet)
    ensures
        a.wf() && b.wf() ==> vstd::std_specs::ops::BitOrSpec::bitor_spec(a, b).wf(),
        a.wf() || b.wf() ==> vstd::std_specs::ops::BitAndSpec::bitand_spec(a, b).wf(),
        vstd::std_specs::ops::NotSpec::not_spec(a).wf(),
{
    lemma_within_the_week(a, b);
}

impl core::ops::BitOr for DaySet {
    type Output = DaySet;

    fn bitor(self, rhs: DaySet) -> (r: DaySet) {
        DaySet(self.0 | rhs.0)
    }
}

impl vstd::std_specs::ops::BitOrSpecImpl for DaySet {
    open spec fn obeys_bitor_spec() -> bool {
        true
    }

    open spec fn bitor_req(self, rhs: DaySet) -> bool {
        true
    }

    open spec fn bitor_spec(self, rhs: DaySet) -> DaySet {
        DaySet(self.0 | rhs.0)
    }
}

impl core::ops::BitAnd for DaySet {
    type Output = DaySet;

    fn bitand(self, rhs: DaySet) -> (r: DaySet) {
        DaySet(self.0 & rhs.0)
    }
}

impl vstd::std_specs::ops::BitAndSpecImpl for DaySet {
    open spec fn obeys_bitand_spec() -> bool {
        true
    }

    open spec fn bitand_req(self, rhs: DaySet) -> bool {
        true
    }

    open spec fn bitand_spec(self, rhs: DaySet) -> DaySet {
        DaySet(self.0 & rhs.0)
    }
}

impl core::ops::Not for DaySet {
    type Output = DaySet;

    fn not(self) -> (r: DaySet) {
        DaySet(!self.0 & 0x7F)
    }
}

impl vstd::std_specs::ops::NotSpecImpl for DaySet {
    open spec fn obeys_not_spec() -> bool {
        true
    }

    open spec fn not_req(self) -> bool {
        true
    }

    open spec fn not_spec(self) -> DaySet {
        DaySet(!self.0 & 0x7F)
    }
}

impl Default for DaySet {
    fn default() -> (r: DaySet)
        ensures
            r.0 == 0,
            r.wf(),
    {
        assert(0u8 & 0x80 == 0) by (bit_vector);
        DaySet(0)
    }
}

impl Days {
    /// Reads days from characters.
    pub fn from_chars(v: &Vec<char>) -> (r: Days)
        ensures
            r == days_of(v@),
    {
        if spells(v, "TBA") {
            Days::TBA
        } else {
            Days::Days(DaySet::from_chars(v))
        }
    }

    /// Reads days: `TBA` or day letters.
    pub fn from_str(days: &str) -> (r: Result<Days, ()>)
        ensures
            r == Ok::<Days, ()>(days_of(days@)),
    {
        let v = chars_of(days);
        Ok(Days::from_chars(&v))
    }

    /// The text of the days: `TBA` or the day letters.
    pub open spec fn text(self) -> Seq<char> {
        match self {
            Days::TBA => "TBA"@,
            Days::Days(d) => bits_letters(d.0),
        }
    }

    /// The text of the days: `TBA` or the day letters.
    pub fn to_string(&self) -> (r: String)
        ensures
            r@ == self.text(),
    {
        match self {
            Days::TBA => "TBA".to_owned(),
            Days::Days(d) => d.to_string(),
        }
    }
}

impl Default for Days {
    fn default() -> (r: Days)
        ensures
            r == Days::TBA,
    {
        Days::TBA
    }
}

} // verus!
