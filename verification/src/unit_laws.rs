//! Reading and writing units agree: the text of a unit value reads as that
//! value.

use crate::text::{
    is_digit, is_space, lemma_index_of, lemma_split_on, split_on, trim, trim_end, trim_start,
};
use crate::unit_number::{
    fraction_part, lemma_number_round_trip, lemma_number_text_shape, number_of, number_text,
    whole_part, UnitNumber,
};
use crate::units::{
    entries_units, entry_units, lemma_sort_units_ordered, list_text, range_of,
    simple_text, unit_type_of, units_of, ParseUnitError, UnitTypeSimple, UnitTypeView,
    UnitsView,
};
use vstd::prelude::*;

verus! {

/// Whether `c` may stand in the text of a number or a range: a digit, a
/// point or a hyphen.
pub open spec fn is_unit_char(c: char) -> bool {
    is_digit(c) || c == '.' || c == '-'
}

/// Whether `s` is made of digits, points and hyphens, and begins and ends
/// with a digit.
pub open spec fn is_unit_text(s: Seq<char>) -> bool {
    &&& s.len() >= 1
    &&& is_digit(s[0])
    &&& is_digit(s.last())
    &&& forall|i: int| 0 <= i < s.len() ==> is_unit_char(#[trigger] s[i])
}

/// The texts of the values in `s`.
pub open spec fn simple_texts(s: Seq<UnitTypeSimple>) -> Seq<Seq<char>> {
    Seq::new(s.len(), |i: int| simple_text(s[i]))
}

/// A text that begins and ends with a character that is no white space is
/// its own trimmed text.
pub proof fn lemma_trim_nothing(s: Seq<char>)
    requires
        s.len() >= 1,
        !is_space(s[0]),
        !is_space(s.last()),
    ensures
        trim(s) == s,
        trim_start(s) == s,
        trim_end(s) == s,
{
}

/// A text with a character that is neither a digit nor a point is no
/// number.
pub proof fn lemma_not_a_number(s: Seq<char>, i: int)
    requires
        0 <= i < s.len(),
        !is_digit(s[i]),
        s[i] != '.',
    ensures
        number_of(s) is None,
{
    crate::text::lemma_index_of_bounds(s, '.');
    let dot = crate::text::index_of(s, '.') as int;
    if i < dot {
        assert(whole_part(s)[i] == s[i]);
    } else if i > dot {
        assert(fraction_part(s)[i - dot - 1] == s[i]);
    }
}

/// What is split at a separator, with a text after it that holds none, is
/// what stands before, split, and that text.
pub proof fn lemma_split_on_append(a: Seq<char>, sep: char, b: Seq<char>)
    requires
        !b.contains(sep),
    ensures
        split_on(a + seq![sep] + b, sep) == split_on(a, sep).push(b),
    decreases a.len(),
{
    let whole = a + seq![sep] + b;
    crate::text::lemma_index_of_bounds(a, sep);
    let i = crate::text::index_of(a, sep) as int;
    lemma_split_on(b, sep);
    assert forall|j: int| 0 <= j < i implies whole[j] != sep by {
        assert(whole[j] == a[j]);
    }
    if i >= a.len() {
        assert(whole[a.len() as int] == sep);
        lemma_index_of(whole, sep, a.len() as int);
        assert(whole.take(a.len() as int) =~= a);
        assert(whole.skip(a.len() as int + 1) =~= b);
        assert(seq![a] + seq![b] =~= seq![a].push(b));
    } else {
        assert(whole[i] == a[i]);
        lemma_index_of(whole, sep, i);
        let rest = a.skip(i + 1);
        lemma_split_on_append(rest, sep, b);
        assert(whole.take(i) =~= a.take(i));
        assert(whole.skip(i + 1) =~= rest + seq![sep] + b);
        assert(seq![a.take(i)] + split_on(rest, sep).push(b) =~= (seq![a.take(i)] + split_on(
            rest,
            sep,
        )).push(b));
    }
}

/// The text of a number or a range is made of digits, points and hyphens,
/// and begins and ends with a digit; that of a range holds a hyphen, that of
/// a number none.
pub proof fn lemma_simple_text_shape(u: UnitTypeSimple)
    ensures
        is_unit_text(simple_text(u)),
        !simple_text(u).contains(','),
        simple_text(u).contains('-') <==> u is Range,
{
    let t = simple_text(u);
    match u {
        UnitTypeSimple::Single(a) => {
            lemma_number_text_shape(a);
            if t.contains('-') {
                let k = choose|k: int| 0 <= k < t.len() && t[k] == '-';
                assert(is_digit(t[k]) || t[k] == '.');
            }
            if t.contains(',') {
                let k = choose|k: int| 0 <= k < t.len() && t[k] == ',';
                assert(is_digit(t[k]) || t[k] == '.');
            }
        },
        UnitTypeSimple::Range(a, b) => {
            lemma_number_text_shape(a);
            lemma_number_text_shape(b);
            let x = number_text(a);
            let y = number_text(b);
            assert(t =~= x + seq!['-'] + y);
            assert(t[x.len() as int] == '-');
            assert(t[0] == x[0]);
            assert(t.last() == y[y.len() - 1]);
            assert forall|i: int| 0 <= i < t.len() implies is_unit_char(#[trigger] t[i]) by {
                if i < x.len() {
                    assert(t[i] == x[i]);
                } else if i > x.len() {
                    assert(t[i] == y[i - x.len() - 1]);
                }
            }
            if t.contains(',') {
                let k = choose|k: int| 0 <= k < t.len() && t[k] == ',';
                assert(is_unit_char(t[k]));
            }
        },
    }
}

/// The text of a range reads as the range.
pub proof fn lemma_range_round_trip(a: UnitNumber, b: UnitNumber)
    ensures
        range_of(simple_text(UnitTypeSimple::Range(a, b))) == Some(UnitTypeSimple::Range(a, b)),
{
    let x = number_text(a);
    let y = number_text(b);
    lemma_number_text_shape(a);
    lemma_number_text_shape(b);
    lemma_number_round_trip(a);
    lemma_number_round_trip(b);
    assert(!x.contains('-')) by {
        if x.contains('-') {
            let k = choose|k: int| 0 <= k < x.len() && x[k] == '-';
            assert(is_digit(x[k]) || x[k] == '.');
        }
    }
    assert(!y.contains('-')) by {
        if y.contains('-') {
            let k = choose|k: int| 0 <= k < y.len() && y[k] == '-';
            assert(is_digit(y[k]) || y[k] == '.');
        }
    }
    lemma_split_on(x, '-');
    lemma_split_on_append(x, '-', y);
    assert(split_on(x + seq!['-'] + y, '-') =~= seq![x, y]);
}

/// One entry of a list that is the text of a value counts for that value.
pub proof fn lemma_entry_round_trip(u: UnitTypeSimple)
    ensures
        entry_units(simple_text(u)) == seq![u],
{
    let t = simple_text(u);
    lemma_simple_text_shape(u);
    lemma_trim_nothing(t);
    match u {
        UnitTypeSimple::Single(a) => {
            lemma_number_round_trip(a);
        },
        UnitTypeSimple::Range(a, b) => {
            lemma_range_round_trip(a, b);
        },
    }
}

/// The text of a list is made of digits, points, hyphens and commas, and
/// begins and ends with a digit; split at its commas it gives the texts of
/// its values.
pub proof fn lemma_list_text(s: Seq<UnitTypeSimple>)
    requires
        s.len() >= 1,
    ensures
        list_text(s).len() >= 1,
        is_digit(list_text(s)[0]),
        is_digit(list_text(s).last()),
        s.len() >= 2 ==> list_text(s).contains(','),
        split_on(list_text(s), ',') == simple_texts(s),
    decreases s.len(),
{
    let last = simple_text(s.last());
    lemma_simple_text_shape(s.last());
    if s.len() == 1 {
        assert(s.last() == s[0]);
        lemma_split_on(last, ',');
        assert(simple_texts(s) =~= seq![last]);
    } else {
        let front = s.drop_last();
        lemma_list_text(front);
        let head = list_text(front);
        let t = list_text(s);
        assert(t =~= head + seq![','] + last);
        assert(t[head.len() as int] == ',');
        assert(t[0] == head[0]);
        assert(t.last() == last[last.len() - 1]);
        lemma_split_on_append(head, ',', last);
        assert(simple_texts(front).push(last) =~= simple_texts(s));
    }
}

/// The texts of values, as the entries of a list, count for the values.
pub proof fn lemma_entries_round_trip(s: Seq<UnitTypeSimple>)
    ensures
        entries_units(simple_texts(s)) == s,
    decreases s.len(),
{
    let es = simple_texts(s);
    if s.len() > 0 {
        lemma_entries_round_trip(s.drop_last());
        lemma_entry_round_trip(s.last());
        assert(es.drop_last() =~= simple_texts(s.drop_last()));
        assert(es.last() == simple_text(s.last()));
        assert(s.drop_last() + seq![s.last()] =~= s);
    } else {
        assert(entries_units(es) =~= s);
    }
}

/// Reading the text of a unit value gives the value back, where a list
/// holds two or more values in order.
pub proof fn lemma_unit_type_round_trip(u: UnitTypeView)
    requires
        u.wf(),
    ensures
        unit_type_of(u.text()) == Ok::<UnitTypeView, ParseUnitError>(u),
        u.text().len() >= 1,
        is_digit(u.text()[0]),
        is_digit(u.text().last()),
{
    let t = u.text();
    match u {
        UnitTypeView::Single(a) => {
            lemma_number_text_shape(a);
            lemma_trim_nothing(t);
            lemma_number_round_trip(a);
        },
        UnitTypeView::Range(a, b) => {
            let r = UnitTypeSimple::Range(a, b);
            lemma_simple_text_shape(r);
            assert(t == simple_text(r));
            lemma_trim_nothing(t);
            lemma_range_round_trip(a, b);
            let k = choose|k: int| 0 <= k < t.len() && t[k] == '-';
            lemma_not_a_number(t, k);
        },
        UnitTypeView::Multi(s) => {
            lemma_list_text(s);
            lemma_trim_nothing(t);
            let k = choose|k: int| 0 <= k < t.len() && t[k] == ',';
            lemma_not_a_number(t, k);
            lemma_entries_round_trip(s);
            lemma_sort_units_ordered(s);
        },
    }
}

/// Reading the text of units gives the units back, where a list holds two
/// or more values in order.
pub proof fn lemma_units_round_trip(u: UnitsView)
    requires
        u matches UnitsView::Value(v) ==> v.wf(),
    ensures
        units_of(u.text()) == Ok::<UnitsView, ParseUnitError>(u),
{
    let t = u.text();
    reveal_strlit("VAR");
    match u {
        UnitsView::VAR => {
            assert(t[0] == 'V' && t[2] == 'R');
            lemma_trim_nothing(t);
        },
        UnitsView::Value(v) => {
            lemma_unit_type_round_trip(v);
            lemma_trim_nothing(t);
            assert("VAR"@[0] == 'V');
        },
    }
}

} // verus!
