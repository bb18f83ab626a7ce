//! The units a course is worth: a number, a range, a list of both, or
//! variable.
//!
//! Unit values are ordered by their least and then by their greatest number
//! of units; variable units come after every value.

use crate::text::{
    chars_of, has_char, spells, split_chars, split_on, split_words, string_of, trim, trimmed,
    views, words,
};
use crate::unit_number::{number_of, number_text, UnitNumber};
use vstd::prelude::*;

verus! {

/// Why a text is not a units value.
#[derive(Debug, Clone, Copy, PartialEq, Eq, Structural)]
pub enum ParseUnitError {
    /// The text is empty or white space only.
    EmptyInput,
    /// The text holds no number or range.
    NoValidUnits,
}

/// A fixed number of units or a range of them.
#[derive(Debug, Clone, Copy, PartialEq, Eq, Structural)]
pub enum UnitTypeSimple {
    /// A fixed number of units.
    Single(UnitNumber),
    /// A range of units, from the first number to the second.
    Range(UnitNumber, UnitNumber),
}

/// The number of units a course is worth.
#[derive(Debug, Clone, PartialEq, Eq)]
pub enum UnitType {
    /// A fixed number of units.
    Single(UnitNumber),
    /// A range of units.
    Range(UnitNumber, UnitNumber),
    /// Several unit values.
    Multi(Vec<UnitTypeSimple>),
}

/// How many units a course is worth.
#[derive(Debug, Clone, PartialEq, Eq)]
pub enum Units {
    /// Variable units.
    VAR,
    /// A specified number of units.
    Value(UnitType),
}

/// The mathematical value of a `UnitType`.
pub enum UnitTypeView {
    Single(UnitNumber),
    Range(UnitNumber, UnitNumber),
    Multi(Seq<UnitTypeSimple>),
}

/// The mathematical value of a `Units`.
pub enum UnitsView {
    VAR,
    Value(UnitTypeView),
}

impl View for UnitType {
    type V = UnitTypeView;

    open spec fn view(&self) -> UnitTypeView {
        match *self {
            UnitType::Single(a) => UnitTypeView::Single(a),
            UnitType::Range(a, b) => UnitTypeView::Range(a, b),
            UnitType::Multi(v) => UnitTypeView::Multi(v@),
        }
    }
}

impl View for Units {
    type V = UnitsView;

    open spec fn view(&self) -> UnitsView {
        match *self {
            Units::VAR => UnitsView::VAR,
            Units::Value(u) => UnitsView::Value(u@),
        }
    }
}

// ---------------------------------------------------------------------------
// Least and greatest values, and the order
// ---------------------------------------------------------------------------

impl UnitTypeSimple {
    /// The least number of units, in thousandths.
    pub open spec fn low(self) -> nat {
        match self {
            UnitTypeSimple::Single(a) => a.thousandths as nat,
            UnitTypeSimple::Range(a, _) => a.thousandths as nat,
        }
    }

    /// The greatest number of units, in thousandths.
    pub open spec fn high(self) -> nat {
        match self {
            UnitTypeSimple::Single(a) => a.thousandths as nat,
            UnitTypeSimple::Range(_, b) => b.thousandths as nat,
        }
    }

    /// The least number of units.
    pub fn min_value(&self) -> (r: UnitNumber)
        ensures
            r.thousandths == self.low(),
    {
        match self {
            UnitTypeSimple::Single(a) => *a,
            UnitTypeSimple::Range(a, _) => *a,
        }
    }

    /// The greatest number of units.
    pub fn max_value(&self) -> (r: UnitNumber)
        ensures
            r.thousandths == self.high(),
    {
        match self {
            UnitTypeSimple::Single(a) => *a,
            UnitTypeSimple::Range(_, b) => *b,
        }
    }
}

/// Whether the pair `(low_a, high_a)` comes before `(low_b, high_b)`.
pub open spec fn pair_lt(low_a: nat, high_a: nat, low_b: nat, high_b: nat) -> bool {
    low_a < low_b || (low_a == low_b && high_a < high_b)
}

/// Whether `a` comes before `b` or ranks with it.
pub open spec fn key_le(a: UnitTypeSimple, b: UnitTypeSimple) -> bool {
    !pair_lt(b.low(), b.high(), a.low(), a.high())
}

/// The least of the least values in `s`; 0 where `s` is empty.
pub open spec fn lowest(s: Seq<UnitTypeSimple>) -> nat
    decreases s.len(),
{
    if s.len() == 0 {
        0
    } else if s.len() == 1 {
        s[0].low()
    } else if s.last().low() < lowest(s.drop_last()) {
        s.last().low()
    } else {
        lowest(s.drop_last())
    }
}

/// The greatest of the greatest values in `s`; 0 where `s` is empty.
pub open spec fn highest(s: Seq<UnitTypeSimple>) -> nat
    decreases s.len(),
{
    if s.len() == 0 {
        0
    } else if s.len() == 1 {
        s[0].high()
    } else if s.last().high() > highest(s.drop_last()) {
        s.last().high()
    } else {
        highest(s.drop_last())
    }
}

impl UnitTypeView {
    /// The least number of units, in thousandths.
    pub open spec fn low(self) -> nat {
        match self {
            UnitTypeView::Single(a) => a.thousandths as nat,
            UnitTypeView::Range(a, _) => a.thousandths as nat,
            UnitTypeView::Multi(s) => lowest(s),
        }
    }

    /// The greatest number of units, in thousandths.
    pub open spec fn high(self) -> nat {
        match self {
            UnitTypeView::Single(a) => a.thousandths as nat,
            UnitTypeView::Range(_, b) => b.thousandths as nat,
            UnitTypeView::Multi(s) => highest(s),
        }
    }

    /// Whether `self` comes before `other`.
    pub open spec fn lt(self, other: UnitTypeView) -> bool {
        pair_lt(self.low(), self.high(), other.low(), other.high())
    }

    /// Whether a list of values holds two or more, in order.
    pub open spec fn wf(self) -> bool {
        self matches UnitTypeView::Multi(s) ==> s.len() >= 2 && ordered(s)
    }
}

impl UnitsView {
    /// Whether `self` comes before `other`: variable units come after every
    /// value.
    pub open spec fn lt(self, other: UnitsView) -> bool {
        match (self, other) {
            (UnitsView::VAR, _) => false,
            (UnitsView::Value(_), UnitsView::VAR) => true,
            (UnitsView::Value(a), UnitsView::Value(b)) => a.lt(b),
        }
    }
}

/// Variable units come after every value, and no units come after them.
pub proof fn lemma_variable_is_greatest(u: UnitsView)
    ensures
        u is Value ==> u.lt(UnitsView::VAR),
        !UnitsView::VAR.lt(u),
{
}

/// The order of units is strict: nothing comes before itself, of two units
/// at most one comes before the other, and what comes before a second that
/// comes before a third comes before the third.
pub proof fn lemma_units_order(a: UnitsView, b: UnitsView, c: UnitsView)
    ensures
        !a.lt(a),
        !(a.lt(b) && b.lt(a)),
        a.lt(b) && b.lt(c) ==> a.lt(c),
{
}

/// `lowest` is a lower bound of the least values, and one of them.
pub proof fn lemma_lowest(s: Seq<UnitTypeSimple>)
    requires
        s.len() > 0,
    ensures
        forall|i: int| 0 <= i < s.len() ==> lowest(s) <= (#[trigger] s[i]).low(),
        exists|i: int| 0 <= i < s.len() && lowest(s) == (#[trigger] s[i]).low(),
    decreases s.len(),
{
    if s.len() == 1 {
        assert(lowest(s) == s[0].low());
    } else {
        let t = s.drop_last();
        lemma_lowest(t);
        let w = choose|i: int| 0 <= i < t.len() && lowest(t) == (#[trigger] t[i]).low();
        assert(t[w] == s[w]);
        assert(s.last() == s[s.len() - 1]);
        assert forall|i: int| 0 <= i < s.len() implies lowest(s) <= (#[trigger] s[i]).low() by {
            if i < t.len() {
                assert(t[i] == s[i]);
            }
        }
    }
}

/// `highest` is an upper bound of the greatest values, and one of them.
pub proof fn lemma_highest(s: Seq<UnitTypeSimple>)
    requires
        s.len() > 0,
    ensures
        forall|i: int| 0 <= i < s.len() ==> highest(s) >= (#[trigger] s[i]).high(),
        exists|i: int| 0 <= i < s.len() && highest(s) == (#[trigger] s[i]).high(),
    decreases s.len(),
{
    if s.len() == 1 {
        assert(highest(s) == s[0].high());
    } else {
        let t = s.drop_last();
        lemma_highest(t);
        let w = choose|i: int| 0 <= i < t.len() && highest(t) == (#[trigger] t[i]).high();
        assert(t[w] == s[w]);
        assert(s.last() == s[s.len() - 1]);
        assert forall|i: int| 0 <= i < s.len() implies highest(s) >= (#[trigger] s[i]).high() by {
            if i < t.len() {
                assert(t[i] == s[i]);
            }
        }
    }
}

fn lowest_of(v: &Vec<UnitTypeSimple>) -> (r: UnitNumber)
    ensures
        r.thousandths == lowest(v@),
{
    if v.len() == 0 {
        return UnitNumber { thousandths: 0 };
    }
    let mut best = v[0].min_value();
    let mut i: usize = 1;
    assert(v@.take(1) =~= seq![v@[0]]);
    while i < v.len()
        invariant
            1 <= i <= v.len(),
            best.thousandths == lowest(v@.take(i as int)),
        decreases v.len() - i,
    {
        let m = v[i].min_value();
        assert(v@.take(i + 1).drop_last() =~= v@.take(i as int));
        if m.thousandths < best.thousandths {
            best = m;
        }
        i += 1;
    }
    assert(v@.take(v@.len() as int) =~= v@);
    best
}

fn highest_of(v: &Vec<UnitTypeSimple>) -> (r: UnitNumber)
    ensures
        r.thousandths == highest(v@),
{
    if v.len() == 0 {
        return UnitNumber { thousandths: 0 };
    }
    let mut best = v[0].max_value();
    let mut i: usize = 1;
    assert(v@.take(1) =~= seq![v@[0]]);
    while i < v.len()
        invariant
            1 <= i <= v.len(),
            best.thousandths == highest(v@.take(i as int)),
        decreases v.len() - i,
    {
        let m = v[i].max_value();
        assert(v@.take(i + 1).drop_last() =~= v@.take(i as int));
        if m.thousandths > best.thousandths {
            best = m;
        }
        i += 1;
    }
    assert(v@.take(v@.len() as int) =~= v@);
    best
}

impl UnitType {
    /// The least number of units; zero for an empty list.
    pub fn min_value(&self) -> (r: UnitNumber)
        ensures
            r.thousandths == self@.low(),
    {
        match self {
            UnitType::Single(a) => *a,
            UnitType::Range(a, _) => *a,
            UnitType::Multi(v) => lowest_of(v),
        }
    }

    /// The greatest number of units; zero for an empty list.
    pub fn max_value(&self) -> (r: UnitNumber)
        ensures
            r.thousandths == self@.high(),
    {
        match self {
            UnitType::Single(a) => *a,
            UnitType::Range(_, b) => *b,
            UnitType::Multi(v) => highest_of(v),
        }
    }

    /// Whether `self` comes before `other` in the order of unit values.
    pub fn is_less(&self, other: &UnitType) -> (r: bool)
        ensures
            r == self@.lt(other@),
    {
        let a = self.min_value();
        let b = other.min_value();
        if a.thousandths != b.thousandths {
            a.thousandths < b.thousandths
        } else {
            self.max_value().thousandths < other.max_value().thousandths
        }
    }
}

impl Units {
    /// A fixed number of units.
    pub fn new(value: UnitNumber) -> (r: Units)
        ensures
            r@ == UnitsView::Value(UnitTypeView::Single(value)),
    {
        Units::Value(UnitType::Single(value))
    }

    /// Whether `self` comes before `other`; variable units come after every
    /// value.
    pub fn is_less(&self, other: &Units) -> (r: bool)
        ensures
            r == self@.lt(other@),
    {
        match (self, other) {
            (Units::VAR, _) => false,
            (Units::Value(_), Units::VAR) => true,
            (Units::Value(a), Units::Value(b)) => a.is_less(b),
        }
    }
}

impl From<UnitTypeSimple> for UnitType {
    fn from(simple: UnitTypeSimple) -> (r: UnitType) {
        match simple {
            UnitTypeSimple::Single(a) => UnitType::Single(a),
            UnitTypeSimple::Range(a, b) => UnitType::Range(a, b),
        }
    }
}

impl vstd::std_specs::convert::FromSpecImpl<UnitTypeSimple> for UnitType {
    open spec fn obeys_from_spec() -> bool {
        true
    }

    open spec fn from_spec(simple: UnitTypeSimple) -> UnitType {
        match simple {
            UnitTypeSimple::Single(a) => UnitType::Single(a),
            UnitTypeSimple::Range(a, b) => UnitType::Range(a, b),
        }
    }
}

impl From<UnitType> for Units {
    fn from(unit_type: UnitType) -> (r: Units) {
        Units::Value(unit_type)
    }
}

impl vstd::std_specs::convert::FromSpecImpl<UnitType> for Units {
    open spec fn obeys_from_spec() -> bool {
        true
    }

    open spec fn from_spec(unit_type: UnitType) -> Units {
        Units::Value(unit_type)
    }
}

// ---------------------------------------------------------------------------
// Sorting
// ---------------------------------------------------------------------------

/// Whether each element of `s` comes before or ranks with those after it.
pub open spec fn ordered(s: Seq<UnitTypeSimple>) -> bool {
    forall|i: int, j: int| 0 <= i < j < s.len() ==> key_le(s[i], s[j])
}

/// `s`, taken to be in order, with `x` put in after every element that comes
/// before it or ranks with it.
pub open spec fn insert_ordered(s: Seq<UnitTypeSimple>, x: UnitTypeSimple) -> Seq<UnitTypeSimple>
    decreases s.len(),
{
    if s.len() == 0 || key_le(s.last(), x) {
        s.push(x)
    } else {
        insert_ordered(s.drop_last(), x).push(s.last())
    }
}

/// `s` in order; elements that rank together keep their places relative to
/// each other.
pub open spec fn sort_units(s: Seq<UnitTypeSimple>) -> Seq<UnitTypeSimple>
    decreases s.len(),
{
    if s.len() == 0 {
        s
    } else {
        insert_ordered(sort_units(s.drop_last()), s.last())
    }
}

/// Putting `x` in leaves it at the index `p` after which every element comes
/// after `x`, and before which the nearest does not.
pub proof fn lemma_insert_position(s: Seq<UnitTypeSimple>, x: UnitTypeSimple, p: int)
    requires
        0 <= p <= s.len(),
        forall|j: int| p <= j < s.len() ==> !key_le(s[j], x),
        p > 0 ==> key_le(s[p - 1], x),
    ensures
        insert_ordered(s, x) == s.insert(p, x),
    decreases s.len() - p,
{
    if p == s.len() {
        assert(s.push(x) =~= s.insert(p, x));
    } else {
        let t = s.drop_last();
        assert(!key_le(s[s.len() - 1], x));
        lemma_insert_position(t, x, p);
        assert(t.insert(p, x).push(s.last()) =~= s.insert(p, x));
    }
}

/// Putting `x` into an ordered list gives an ordered list with the same
/// elements and `x`.
pub proof fn lemma_insert_ordered(s: Seq<UnitTypeSimple>, x: UnitTypeSimple)
    requires
        ordered(s),
    ensures
        ordered(insert_ordered(s, x)),
        insert_ordered(s, x).len() == s.len() + 1,
        insert_ordered(s, x).to_multiset() == s.to_multiset().insert(x),
    decreases s.len(),
{
    broadcast use vstd::seq_lib::group_to_multiset_ensures;

    if s.len() == 0 || key_le(s.last(), x) {
        let r = s.push(x);
        assert forall|i: int, j: int| 0 <= i < j < r.len() implies key_le(r[i], r[j]) by {
            if j == s.len() && i < s.len() - 1 {
                assert(key_le(s[i], s[s.len() - 1]));
            }
        }
    } else {
        let t = s.drop_last();
        assert forall|i: int, j: int| 0 <= i < j < t.len() implies key_le(t[i], t[j]) by {
            assert(t[i] == s[i] && t[j] == s[j]);
        }
        lemma_insert_ordered(t, x);
        let u = insert_ordered(t, x);
        let r = u.push(s.last());
        // Every element of `u` is `x` or an element of `t`.
        assert forall|i: int| 0 <= i < u.len() implies key_le(#[trigger] u[i], s.last()) by {
            assert(u.to_multiset().count(u[i]) > 0);
            if u[i] != x {
                assert(t.to_multiset().count(u[i]) > 0);
                let k = choose|k: int| 0 <= k < t.len() && t[k] == u[i];
                assert(key_le(s[k], s[s.len() - 1]));
            }
        }
        assert forall|i: int, j: int| 0 <= i < j < r.len() implies key_le(r[i], r[j]) by {
            if j < u.len() {
                assert(key_le(u[i], u[j]));
            }
        }
        assert(s =~= t.push(s.last()));
        assert(r.to_multiset() =~= s.to_multiset().insert(x));
    }
}

/// Sorting gives an ordered list with the same elements.
pub proof fn lemma_sort_units(s: Seq<UnitTypeSimple>)
    ensures
        ordered(sort_units(s)),
        sort_units(s).len() == s.len(),
        sort_units(s).to_multiset() == s.to_multiset(),
    decreases s.len(),
{
    broadcast use vstd::seq_lib::group_to_multiset_ensures;

    if s.len() > 0 {
        let t = s.drop_last();
        lemma_sort_units(t);
        lemma_insert_ordered(sort_units(t), s.last());
        assert(s =~= t.push(s.last()));
    }
}

/// Sorting leaves an ordered list as it is.
pub proof fn lemma_sort_units_ordered(s: Seq<UnitTypeSimple>)
    requires
        ordered(s),
    ensures
        sort_units(s) == s,
    decreases s.len(),
{
    if s.len() > 0 {
        let t = s.drop_last();
        assert forall|i: int, j: int| 0 <= i < j < t.len() implies key_le(t[i], t[j]) by {
            assert(t[i] == s[i] && t[j] == s[j]);
        }
        lemma_sort_units_ordered(t);
        if t.len() > 0 {
            assert(key_le(s[t.len() - 1], s[s.len() - 1]));
            assert(t.last() == s[t.len() - 1]);
        }
        assert(t.push(s.last()) =~= s);
    }
}

fn comes_after(a: &UnitTypeSimple, x: &UnitTypeSimple) -> (r: bool)
    ensures
        r == !key_le(*a, *x),
{
    let la = a.min_value().thousandths;
    let lx = x.min_value().thousandths;
    if lx != la {
        lx < la
    } else {
        x.max_value().thousandths < a.max_value().thousandths
    }
}

fn sorted_units(v: &Vec<UnitTypeSimple>) -> (out: Vec<UnitTypeSimple>)
    ensures
        out@ == sort_units(v@),
{
    let mut out: Vec<UnitTypeSimple> = Vec::new();
    let mut i: usize = 0;
    assert(v@.take(0) =~= Seq::<UnitTypeSimple>::empty());
    while i < v.len()
        invariant
            i <= v.len(),
            out@ == sort_units(v@.take(i as int)),
        decreases v.len() - i,
    {
        let x = v[i];
        let mut p: usize = out.len();
        while p > 0 && comes_after(&out[p - 1], &x)
            invariant
                p <= out.len(),
                forall|j: int| p <= j < out.len() ==> !key_le(out@[j], x),
            decreases p,
        {
            p -= 1;
        }
        proof {
            lemma_insert_position(out@, x, p as int);
            assert(v@.take(i + 1).drop_last() =~= v@.take(i as int));
        }
        out.insert(p, x);
        i += 1;
    }
    assert(v@.take(v@.len() as int) =~= v@);
    out
}

// ---------------------------------------------------------------------------
// Writing
// ---------------------------------------------------------------------------

/// The text of a number or a range: the range with a hyphen between its
/// numbers.
pub open spec fn simple_text(u: UnitTypeSimple) -> Seq<char> {
    match u {
        UnitTypeSimple::Single(a) => number_text(a),
        UnitTypeSimple::Range(a, b) => number_text(a) + seq!['-'] + number_text(b),
    }
}

/// The texts of the values in `s`, with a comma between each two.
pub open spec fn list_text(s: Seq<UnitTypeSimple>) -> Seq<char>
    decreases s.len(),
{
    if s.len() == 0 {
        Seq::empty()
    } else if s.len() == 1 {
        simple_text(s[0])
    } else {
        list_text(s.drop_last()) + seq![','] + simple_text(s.last())
    }
}

impl UnitTypeView {
    /// The text of a unit value.
    pub open spec fn text(self) -> Seq<char> {
        match self {
            UnitTypeView::Single(a) => number_text(a),
            UnitTypeView::Range(a, b) => number_text(a) + seq!['-'] + number_text(b),
            UnitTypeView::Multi(s) => list_text(s),
        }
    }
}

impl UnitsView {
    /// The text of units: `VAR` for variable units.
    pub open spec fn text(self) -> Seq<char> {
        match self {
            UnitsView::VAR => "VAR"@,
            UnitsView::Value(u) => u.text(),
        }
    }
}

impl UnitTypeSimple {
    /// Appends the text of the value to `out`.
    pub fn push_text(&self, out: &mut Vec<char>)
        ensures
            final(out)@ == old(out)@ + simple_text(*self),
    {
        match self {
            UnitTypeSimple::Single(a) => {
                a.push_text(out);
            },
            UnitTypeSimple::Range(a, b) => {
                a.push_text(out);
                out.push('-');
                b.push_text(out);
                assert(out@ =~= old(out)@ + simple_text(*self));
            },
        }
    }

    /// The text of the value, such as `9` or `3-9`.
    pub fn to_string(&self) -> (r: String)
        ensures
            r@ == simple_text(*self),
    {
        let mut out: Vec<char> = Vec::new();
        self.push_text(&mut out);
        assert(out@ =~= simple_text(*self));
        string_of(&out)
    }
}

impl UnitType {
    /// Appends the text of the value to `out`.
    pub fn push_text(&self, out: &mut Vec<char>)
        ensures
            final(out)@ == old(out)@ + self@.text(),
    {
        match self {
            UnitType::Single(a) => {
                a.push_text(out);
            },
            UnitType::Range(a, b) => {
                a.push_text(out);
                out.push('-');
                b.push_text(out);
                assert(out@ =~= old(out)@ + self@.text());
            },
            UnitType::Multi(v) => {
                let mut i: usize = 0;
                assert(v@.take(0) =~= Seq::<UnitTypeSimple>::empty());
                assert(out@ =~= old(out)@ + list_text(v@.take(0)));
                while i < v.len()
                    invariant
                        i <= v.len(),
                        out@ == old(out)@ + list_text(v@.take(i as int)),
                    decreases v.len() - i,
                {
                    let ghost before = out@;
                    if i > 0 {
                        out.push(',');
                    }
                    v[i].push_text(out);
                    proof {
                        let t = v@.take(i + 1);
                        assert(t.drop_last() =~= v@.take(i as int));
                        assert(t.last() == v@[i as int]);
                        if i == 0 {
                            assert(list_text(v@.take(0)) =~= Seq::<char>::empty());
                            assert(t[0] == v@[0]);
                        }
                        assert(out@ =~= old(out)@ + list_text(t));
                    }
                    i += 1;
                }
                assert(v@.take(v@.len() as int) =~= v@);
            },
        }
    }

    /// The text of the value, such as `9`, `3-9` or `0,12,24`.
    pub fn to_string(&self) -> (r: String)
        ensures
            r@ == self@.text(),
    {
        let mut out: Vec<char> = Vec::new();
        self.push_text(&mut out);
        assert(out@ =~= self@.text());
        string_of(&out)
    }
}

impl Units {
    /// The text of the units: `VAR` or the text of the value.
    pub fn to_string(&self) -> (r: String)
        ensures
            r@ == self@.text(),
    {
        match self {
            Units::VAR => "VAR".to_owned(),
            Units::Value(u) => u.to_string(),
        }
    }
}

impl ParseUnitError {
    /// What went wrong, in words.
    pub open spec fn text(self) -> Seq<char> {
        match self {
            ParseUnitError::EmptyInput => "Empty input string"@,
            ParseUnitError::NoValidUnits => "No valid units found in input"@,
        }
    }

    /// What went wrong, in words.
    pub fn to_string(&self) -> (r: String)
        ensures
            r@ == self.text(),
    {
        match self {
            ParseUnitError::EmptyInput => "Empty input string".to_owned(),
            ParseUnitError::NoValidUnits => "No valid units found in input".to_owned(),
        }
    }
}

// ---------------------------------------------------------------------------
// Reading
// ---------------------------------------------------------------------------

/// The range that `s` denotes: two numbers with one hyphen between them.
pub open spec fn range_of(s: Seq<char>) -> Option<UnitTypeSimple> {
    let p = split_on(s, '-');
    if p.len() == 2 && number_of(p[0]) is Some && number_of(p[1]) is Some {
        Some(UnitTypeSimple::Range(number_of(p[0])->0, number_of(p[1])->0))
    } else {
        None
    }
}

/// What one word of a malformed list entry contributes: a range, a number or
/// nothing.
pub open spec fn word_units(w: Seq<char>) -> Seq<UnitTypeSimple> {
    if w.contains('-') {
        match range_of(w) {
            Some(r) => seq![r],
            None => Seq::empty(),
        }
    } else {
        match number_of(w) {
            Some(n) => seq![UnitTypeSimple::Single(n)],
            None => Seq::empty(),
        }
    }
}

/// What the words `ws` contribute, in order.
pub open spec fn words_units(ws: Seq<Seq<char>>) -> Seq<UnitTypeSimple>
    decreases ws.len(),
{
    if ws.len() == 0 {
        Seq::empty()
    } else {
        words_units(ws.drop_last()) + word_units(ws.last())
    }
}

/// What one entry of a comma-separated list contributes: a range or a
/// number where the trimmed entry is one, else what its words contribute.
pub open spec fn entry_units(entry: Seq<char>) -> Seq<UnitTypeSimple> {
    let e = trim(entry);
    if e.len() == 0 {
        Seq::empty()
    } else if e.contains('-') && range_of(e) is Some {
        seq![range_of(e)->0]
    } else if number_of(e) is Some {
        seq![UnitTypeSimple::Single(number_of(e)->0)]
    } else {
        words_units(words(e))
    }
}

/// What the entries `es` contribute, in order.
pub open spec fn entries_units(es: Seq<Seq<char>>) -> Seq<UnitTypeSimple>
    decreases es.len(),
{
    if es.len() == 0 {
        Seq::empty()
    } else {
        entries_units(es.drop_last()) + entry_units(es.last())
    }
}

/// The unit value that a list of one or more values stands for: the value
/// itself where there is one, else the sorted list.
pub open spec fn collected(us: Seq<UnitTypeSimple>) -> UnitTypeView
    recommends
        us.len() > 0,
{
    if us.len() == 1 {
        match us[0] {
            UnitTypeSimple::Single(a) => UnitTypeView::Single(a),
            UnitTypeSimple::Range(a, b) => UnitTypeView::Range(a, b),
        }
    } else {
        UnitTypeView::Multi(sort_units(us))
    }
}

/// The unit value that `s` denotes, or why it denotes none.
///
/// The trimmed text is a number; or a range, where it has a hyphen and no
/// comma; or a comma-separated list, each entry of which is a range, a
/// number, or words that are ranges and numbers. Words that are neither are
/// passed over.
pub open spec fn unit_type_of(s: Seq<char>) -> Result<UnitTypeView, ParseUnitError> {
    let t = trim(s);
    if t.len() == 0 {
        Err(ParseUnitError::EmptyInput)
    } else if number_of(t) is Some {
        Ok(UnitTypeView::Single(number_of(t)->0))
    } else if t.contains('-') && !t.contains(',') && range_of(t) is Some {
        Ok(collected(seq![range_of(t)->0]))
    } else {
        let us = entries_units(split_on(t, ','));
        if us.len() == 0 {
            Err(ParseUnitError::NoValidUnits)
        } else {
            Ok(collected(us))
        }
    }
}

/// The units that `s` denotes, or why it denotes none: `VAR` is variable
/// units, any other text a unit value.
pub open spec fn units_of(s: Seq<char>) -> Result<UnitsView, ParseUnitError> {
    let t = trim(s);
    if t.len() == 0 {
        Err(ParseUnitError::EmptyInput)
    } else if t == "VAR"@ {
        Ok(UnitsView::VAR)
    } else {
        match unit_type_of(t) {
            Ok(u) => Ok(UnitsView::Value(u)),
            Err(e) => Err(e),
        }
    }
}

/// Whether `s` is written as a units value.
pub open spec fn is_units_text(s: Seq<char>) -> bool {
    units_of(s) is Ok
}

/// What is read as a unit value is well formed: a list holds two or more
/// values, in order.
pub proof fn lemma_read_is_well_formed(s: Seq<char>)
    ensures
        unit_type_of(s) matches Ok(u) ==> u.wf(),
        units_of(s) matches Ok(UnitsView::Value(u)) ==> u.wf(),
{
    let t = trim(s);
    lemma_sort_units(entries_units(split_on(t, ',')));
    lemma_sort_units(seq![range_of(t)->0]);
    let tt = trim(t);
    lemma_sort_units(entries_units(split_on(tt, ',')));
    lemma_sort_units(seq![range_of(tt)->0]);
}

/// The mathematical value of the outcome of reading a unit value.
pub open spec fn unit_type_outcome(r: Result<UnitType, ParseUnitError>) -> Result<
    UnitTypeView,
    ParseUnitError,
> {
    match r {
        Ok(u) => Ok(u@),
        Err(e) => Err(e),
    }
}

/// The mathematical value of the outcome of reading units.
pub open spec fn units_outcome(r: Result<Units, ParseUnitError>) -> Result<
    UnitsView,
    ParseUnitError,
> {
    match r {
        Ok(u) => Ok(u@),
        Err(e) => Err(e),
    }
}

fn read_range(v: &Vec<char>) -> (r: Option<UnitTypeSimple>)
    ensures
        r == range_of(v@),
{
    let parts = split_chars(v, '-');
    assert(views(parts@).len() == parts@.len());
    if parts.len() != 2 {
        return None;
    }
    assert(views(parts@)[0] == parts@[0]@);
    assert(views(parts@)[1] == parts@[1]@);
    match (UnitNumber::parse(&parts[0]), UnitNumber::parse(&parts[1])) {
        (Some(a), Some(b)) => Some(UnitTypeSimple::Range(a, b)),
        _ => None,
    }
}

fn read_words(out: &mut Vec<UnitTypeSimple>, ws: &Vec<Vec<char>>)
    ensures
        final(out)@ == old(out)@ + words_units(views(ws@)),
{
    let ghost all = views(ws@);
    let mut k: usize = 0;
    assert(all.take(0) =~= Seq::<Seq<char>>::empty());
    assert(out@ =~= old(out)@ + words_units(all.take(0)));
    while k < ws.len()
        invariant
            k <= ws.len(),
            all == views(ws@),
            out@ == old(out)@ + words_units(all.take(k as int)),
        decreases ws.len() - k,
    {
        let w = &ws[k];
        let ghost before = out@;
        proof {
            assert(all.take(k + 1).drop_last() =~= all.take(k as int));
            assert(all.take(k + 1).last() == w@);
        }
        if has_char(w, '-') {
            match read_range(w) {
                Some(r) => {
                    out.push(r);
                },
                None => {},
            }
        } else {
            match UnitNumber::parse(w) {
                Some(n) => {
                    out.push(UnitTypeSimple::Single(n));
                },
                None => {},
            }
        }
        assert(out@ =~= before + word_units(w@));
        assert(out@ =~= old(out)@ + words_units(all.take(k + 1)));
        k += 1;
    }
    assert(all.take(all.len() as int) =~= all);
}

fn read_entry(out: &mut Vec<UnitTypeSimple>, entry: &Vec<char>)
    ensures
        final(out)@ == old(out)@ + entry_units(entry@),
{
    let e = trimmed(entry);
    if e.len() == 0 {
        assert(out@ =~= old(out)@ + entry_units(entry@));
        return ;
    }
    if has_char(&e, '-') {
        match read_range(&e) {
            Some(r) => {
                out.push(r);
                assert(out@ =~= old(out)@ + entry_units(entry@));
                return ;
            },
            None => {},
        }
    }
    match UnitNumber::parse(&e) {
        Some(n) => {
            out.push(UnitTypeSimple::Single(n));
            assert(out@ =~= old(out)@ + entry_units(entry@));
            return ;
        },
        None => {},
    }
    let ws = split_words(&e);
    read_words(out, &ws);
}

fn collect(us: Vec<UnitTypeSimple>) -> (r: UnitType)
    requires
        us@.len() > 0,
    ensures
        r@ == collected(us@),
{
    if us.len() == 1 {
        match us[0] {
            UnitTypeSimple::Single(a) => UnitType::Single(a),
            UnitTypeSimple::Range(a, b) => UnitType::Range(a, b),
        }
    } else {
        UnitType::Multi(sorted_units(&us))
    }
}

impl UnitType {
    /// Reads a unit value from characters.
    pub fn from_chars(v: &Vec<char>) -> (r: Result<UnitType, ParseUnitError>)
        ensures
            unit_type_outcome(r) == unit_type_of(v@),
            r matches Ok(u) ==> u@.wf(),
    {
        proof {
            lemma_read_is_well_formed(v@);
        }
        let t = trimmed(v);
        if t.len() == 0 {
            return Err(ParseUnitError::EmptyInput);
        }
        match UnitNumber::parse(&t) {
            Some(n) => {
                return Ok(UnitType::Single(n));
            },
            None => {},
        }
        if has_char(&t, '-') && !has_char(&t, ',') {
            match read_range(&t) {
                Some(r) => {
                    let mut one: Vec<UnitTypeSimple> = Vec::new();
                    one.push(r);
                    assert(one@ =~= seq![r]);
                    return Ok(collect(one));
                },
                None => {},
            }
        }
        let entries = split_chars(&t, ',');
        let ghost all = views(entries@);
        let mut us: Vec<UnitTypeSimple> = Vec::new();
        let mut k: usize = 0;
        assert(all.take(0) =~= Seq::<Seq<char>>::empty());
        while k < entries.len()
            invariant
                k <= entries.len(),
                all == views(entries@),
                us@ == entries_units(all.take(k as int)),
            decreases entries.len() - k,
        {
            proof {
                assert(all.take(k + 1).drop_last() =~= all.take(k as int));
                assert(all.take(k + 1).last() == entries@[k as int]@);
            }
            read_entry(&mut us, &entries[k]);
            k += 1;
        }
        assert(all.take(all.len() as int) =~= all);
        if us.len() == 0 {
            return Err(ParseUnitError::NoValidUnits);
        }
        Ok(collect(us))
    }

    /// Reads a unit value, such as `9`, `3-9` or `0,12,24`.
    pub fn from_str(s: &str) -> (r: Result<UnitType, ParseUnitError>)
        ensures
            unit_type_outcome(r) == unit_type_of(s@),
            r matches Ok(u) ==> u@.wf(),
    {
        let v = chars_of(s);
        UnitType::from_chars(&v)
    }
}

impl Units {
    /// Reads units from characters.
    pub fn from_chars(v: &Vec<char>) -> (r: Result<Units, ParseUnitError>)
        ensures
            units_outcome(r) == units_of(v@),
            r matches Ok(Units::Value(u)) ==> u@.wf(),
    {
        let t = trimmed(v);
        if t.len() == 0 {
            return Err(ParseUnitError::EmptyInput);
        }
        if spells(&t, "VAR") {
            return Ok(Units::VAR);
        }
        match UnitType::from_chars(&t) {
            Ok(u) => Ok(Units::Value(u)),
            Err(e) => Err(e),
        }
    }

    /// Reads units: `VAR` or a unit value.
    pub fn from_str(s: &str) -> (r: Result<Units, ParseUnitError>)
        ensures
            units_outcome(r) == units_of(s@),
            r matches Ok(Units::Value(u)) ==> u@.wf(),
    {
        let v = chars_of(s);
        Units::from_chars(&v)
    }
}

} // verus!
