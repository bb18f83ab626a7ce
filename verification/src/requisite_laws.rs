//! The case of letters does not matter to a requisite expression: a text
//! and the same text in small letters are read as the same expression.

use crate::requisite::{
    bracketed, closes_at, depth, inner, lemma_parts_from, operator_at, parse_chain, parse_expr,
    part, parts_from, top_level_parts, wrapped, ExprView,
};
use crate::text::{
    all_digits, is_digit, is_space, lemma_trim_end, lemma_trim_start, lower, lowered, trim,
    trim_end, trim_start,
};
use vstd::prelude::*;

verus! {

/// Each text of `parts` in small letters.
pub open spec fn lowered_each(parts: Seq<Seq<char>>) -> Seq<Seq<char>> {
    Seq::new(parts.len(), |i: int| lowered(parts[i]))
}

/// Making a letter small changes no character that is not an ASCII capital
/// letter, and gives none: white space, digits and parentheses stay what
/// they are, and nothing else becomes one of them.
pub proof fn lemma_lower(c: char)
    ensures
        is_space(lower(c)) == is_space(c),
        is_digit(lower(c)) == is_digit(c),
        is_digit(c) ==> lower(c) == c,
        (lower(c) == '(') == (c == '('),
        (lower(c) == ')') == (c == ')'),
        (lower(c) == ' ') == (c == ' '),
        lower(lower(c)) == lower(c),
{
}

/// A part of a text in small letters is that part of the text, in small
/// letters.
pub proof fn lemma_lowered_subrange(s: Seq<char>, a: int, b: int)
    requires
        0 <= a <= b <= s.len(),
    ensures
        lowered(s).subrange(a, b) == lowered(s.subrange(a, b)),
{
    assert(lowered(s).subrange(a, b) =~= lowered(s.subrange(a, b)));
}

/// A text in small letters stays as it is when made small again.
pub proof fn lemma_lowered_twice(s: Seq<char>)
    ensures
        lowered(lowered(s)) == lowered(s),
{
    assert forall|i: int| 0 <= i < s.len() implies lowered(lowered(s))[i] == lowered(s)[i] by {
        lemma_lower(s[i]);
    }
    assert(lowered(lowered(s)) =~= lowered(s));
}

/// Trimming the start of a text in small letters is trimming the start of
/// the text and making it small.
pub proof fn lemma_trim_start_lowered(s: Seq<char>)
    ensures
        trim_start(lowered(s)) == lowered(trim_start(s)),
    decreases s.len(),
{
    if s.len() > 0 {
        lemma_lower(s[0]);
        assert(lowered(s)[0] == lower(s[0]));
        if is_space(s[0]) {
            lemma_trim_start_lowered(s.drop_first());
            assert(lowered(s).drop_first() =~= lowered(s.drop_first()));
        }
    }
}

/// Trimming the end of a text in small letters is trimming the end of the
/// text and making it small.
pub proof fn lemma_trim_end_lowered(s: Seq<char>)
    ensures
        trim_end(lowered(s)) == lowered(trim_end(s)),
    decreases s.len(),
{
    if s.len() > 0 {
        lemma_lower(s.last());
        assert(lowered(s).last() == lower(s.last()));
        if is_space(s.last()) {
            lemma_trim_end_lowered(s.drop_last());
            assert(lowered(s).drop_last() =~= lowered(s.drop_last()));
        }
    }
}

/// Trimming a text in small letters is trimming the text and making it
/// small.
pub proof fn lemma_lowered_trim(s: Seq<char>)
    ensures
        trim(lowered(s)) == lowered(trim(s)),
{
    lemma_trim_start_lowered(s);
    lemma_trim_end_lowered(trim_start(s));
}

/// The depth of parentheses of a text is that of the text in small letters.
pub proof fn lemma_lowered_depth(s: Seq<char>)
    ensures
        depth(lowered(s)) == depth(s),
    decreases s.len(),
{
    if s.len() > 0 {
        lemma_lower(s.last());
        assert(lowered(s).last() == lower(s.last()));
        assert(lowered(s).drop_last() =~= lowered(s.drop_last()));
        lemma_lowered_depth(s.drop_last());
    }
}

/// Parentheses wrap a text exactly where they wrap it in small letters, and
/// what they wrap is the same but for the case.
pub proof fn lemma_lowered_wrapped(s: Seq<char>)
    ensures
        bracketed(lowered(s)) == bracketed(s),
        wrapped(lowered(s)) == wrapped(s),
        bracketed(s) ==> inner(lowered(s)) == lowered(inner(s)),
{
    let l = lowered(s);
    if s.len() >= 2 {
        lemma_lower(s[0]);
        lemma_lower(s.last());
        assert(l[0] == lower(s[0]));
        assert(l.last() == lower(s.last()));
        lemma_lowered_subrange(s, 1, s.len() - 1);
    }
    assert forall|i: int| 0 <= i < s.len() - 1 implies closes_at(l, i) == closes_at(s, i) by {
        lemma_lower(s[i]);
        assert(l[i] == lower(s[i]));
        lemma_lowered_subrange(s, 0, i + 1);
        assert(l.take(i + 1) =~= l.subrange(0, i + 1));
        assert(s.take(i + 1) =~= s.subrange(0, i + 1));
        lemma_lowered_depth(s.take(i + 1));
    }
    if bracketed(s) {
        if exists|i: int| 0 <= i < s.len() - 1 && #[trigger] closes_at(s, i) {
            let i = choose|i: int| 0 <= i < s.len() - 1 && #[trigger] closes_at(s, i);
            assert(closes_at(l, i));
        }
        if exists|i: int| 0 <= i < l.len() - 1 && #[trigger] closes_at(l, i) {
            let i = choose|i: int| 0 <= i < l.len() - 1 && #[trigger] closes_at(l, i);
            assert(closes_at(s, i));
        }
    }
}

/// The parts of a text in small letters are the parts of the text, in small
/// letters.
pub proof fn lemma_lowered_parts(s: Seq<char>, op: Seq<char>, i: int, d: int, start: int)
    requires
        0 <= start <= i,
        start <= s.len(),
    ensures
        parts_from(lowered(s), op, i, d, start) == lowered_each(parts_from(s, op, i, d, start)),
    decreases s.len() - i,
{
    let l = lowered(s);
    if i >= s.len() {
        lemma_lowered_part(s, start, s.len() as int);
    } else {
        lemma_lower(s[i]);
        assert(l[i] == lower(s[i]));
        if s[i] == '(' {
            lemma_lowered_parts(s, op, i + 1, d + 1, start);
        } else if s[i] == ')' {
            lemma_lowered_parts(s, op, i + 1, d - 1, start);
        } else {
            if i + op.len() + 2 <= s.len() {
                lemma_lowered_subrange(s, i, i + op.len() + 2);
                lemma_lowered_twice(s.subrange(i, i + op.len() + 2));
            }
            assert(operator_at(l, op, i) == operator_at(s, op, i));
            if s[i] == ' ' && d == 0 && operator_at(s, op, i) {
                let next = i + op.len() + 2;
                lemma_lowered_part(s, start, i);
                lemma_lowered_parts(s, op, next, 0, next);
                assert(lowered_each(part(s.subrange(start, i))) + lowered_each(
                    parts_from(s, op, next, 0, next),
                ) =~= lowered_each(
                    part(s.subrange(start, i)) + parts_from(s, op, next, 0, next),
                ));
            } else {
                lemma_lowered_parts(s, op, i + 1, d, start);
            }
        }
    }
}

/// One part of a text in small letters is that part of the text, in small
/// letters.
pub proof fn lemma_lowered_part(s: Seq<char>, a: int, b: int)
    requires
        0 <= a <= b <= s.len(),
    ensures
        part(lowered(s).subrange(a, b)) == lowered_each(part(s.subrange(a, b))),
{
    lemma_lowered_subrange(s, a, b);
    lemma_lowered_trim(s.subrange(a, b));
    assert(part(lowered(s).subrange(a, b)) =~= lowered_each(part(s.subrange(a, b))));
}

/// A text is digits only exactly where it is in small letters, and digits
/// are the same in small letters.
pub proof fn lemma_lowered_digits(s: Seq<char>)
    ensures
        all_digits(lowered(s)) == all_digits(s),
        all_digits(s) ==> lowered(s) == s,
{
    assert forall|i: int| 0 <= i < s.len() implies is_digit(lowered(s)[i]) == is_digit(s[i]) by {
        lemma_lower(s[i]);
    }
    if all_digits(s) {
        assert forall|i: int| 0 <= i < s.len() implies lowered(s)[i] == s[i] by {
            lemma_lower(s[i]);
        }
        assert(lowered(s) =~= s);
    }
    if all_digits(lowered(s)) {
        assert forall|i: int| 0 <= i < s.len() implies is_digit(#[trigger] s[i]) by {
            assert(is_digit(lowered(s)[i]));
        }
    }
}

/// Whether two outcomes of reading agree: the same expression, or a report
/// either way.
pub open spec fn same_reading(a: Result<ExprView, Seq<char>>, b: Result<ExprView, Seq<char>>)
    -> bool {
    match a {
        Ok(e) => b == Ok::<ExprView, Seq<char>>(e),
        Err(_) => b is Err,
    }
}

/// The case of letters does not matter: a text is read as the expression
/// that the text in small letters is read as, and is no expression where
/// that is none. `AND` and `Or` are operators as `and` and `or` are.
pub proof fn lemma_case_does_not_matter(s: Seq<char>)
    ensures
        same_reading(parse_expr(s), parse_expr(lowered(s))),
    decreases s.len(), 0nat,
{
    let t = trim(s);
    let l = trim(lowered(s));
    lemma_lowered_trim(s);
    assert(l == lowered(t));
    lemma_trim_start(s);
    lemma_trim_end(trim_start(s));
    lemma_lowered_wrapped(t);
    lemma_lowered_parts(t, "or"@, 0, 0, 0);
    lemma_lowered_parts(t, "and"@, 0, 0, 0);
    lemma_parts_from(t, "or"@, 0, 0, 0);
    lemma_parts_from(t, "and"@, 0, 0, 0);
    lemma_lowered_digits(t);
    if wrapped(t) {
        lemma_case_does_not_matter(inner(t));
    } else if top_level_parts(t, "or"@) is Some {
        let parts = top_level_parts(t, "or"@)->0;
        assert(top_level_parts(l, "or"@) == Some(lowered_each(parts)));
        lemma_chain_case_does_not_matter(parts, true, (t.len() - 1) as nat);
    } else if top_level_parts(t, "and"@) is Some {
        let parts = top_level_parts(t, "and"@)->0;
        assert(top_level_parts(l, "or"@) is None);
        assert(top_level_parts(l, "and"@) == Some(lowered_each(parts)));
        lemma_chain_case_does_not_matter(parts, false, (t.len() - 1) as nat);
    } else if bracketed(t) {
        assert(top_level_parts(l, "or"@) is None);
        assert(top_level_parts(l, "and"@) is None);
        lemma_case_does_not_matter(inner(t));
    } else {
        assert(top_level_parts(l, "or"@) is None);
        assert(top_level_parts(l, "and"@) is None);
    }
}

/// The case of letters does not matter to a chain of parts.
pub proof fn lemma_chain_case_does_not_matter(parts: Seq<Seq<char>>, is_or: bool, bound: nat)
    ensures
        same_reading(
            parse_chain(parts, is_or, bound),
            parse_chain(lowered_each(parts), is_or, bound),
        ),
    decreases bound, parts.len(),
{
    let low = lowered_each(parts);
    if parts.len() == 0 || parts.last().len() > bound {
        if parts.len() > 0 {
            assert(low.last() == lowered(parts.last()));
        }
    } else {
        assert(low.last() == lowered(parts.last()));
        assert(low.drop_last() =~= lowered_each(parts.drop_last()));
        if parts.len() == 1 {
            assert(low[0] == lowered(parts[0]));
            lemma_case_does_not_matter(parts[0]);
        } else {
            lemma_chain_case_does_not_matter(parts.drop_last(), is_or, bound);
            lemma_case_does_not_matter(parts.last());
        }
    }
}

} // verus!
