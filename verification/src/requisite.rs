//! Requisite expressions: course numbers joined by `and` and `or`, with
//! parentheses for grouping.
//!
//! `or` binds looser than `and`, and each of them groups to the left:
//! `15122 and 21122 or 15213` is `(15122 and 21122) or 15213`. The two
//! words count in capital and in small letters alike: `AND` and `Or` are
//! operators as `and` and `or` are.

use crate::text::{
    all_digit_chars, all_digits, chars_of, has_lowered_at, lemma_trim_end, lemma_trim_start,
    lowered, string_of, subvec, texts, trim, trim_start, trimmed, views,
};
use vstd::prelude::*;

verus! {

/// A requisite expression.
#[derive(Debug, PartialEq, Eq)]
pub enum Expr {
    /// A course, by its number.
    Course(String),
    /// Both parts are required.
    And(Box<Expr>, Box<Expr>),
    /// Either part is enough.
    Or(Box<Expr>, Box<Expr>),
}

/// The mathematical value of an `Expr`.
pub enum ExprView {
    Course(Seq<char>),
    And(Box<ExprView>, Box<ExprView>),
    Or(Box<ExprView>, Box<ExprView>),
}

/// Why a text is no requisite expression: a message that ends with the part
/// of the text that could not be read.
#[derive(Debug, Clone, PartialEq, Eq)]
pub struct ParseError(pub String);

impl View for Expr {
    type V = ExprView;

    open spec fn view(&self) -> ExprView
        decreases self,
    {
        match self {
            Expr::Course(c) => ExprView::Course(c@),
            Expr::And(l, r) => ExprView::And(Box::new((**l).view()), Box::new((**r).view())),
            Expr::Or(l, r) => ExprView::Or(Box::new((**l).view()), Box::new((**r).view())),
        }
    }
}

impl Clone for Expr {
    fn clone(&self) -> (r: Expr)
        ensures
            r@ == self@,
        decreases self,
    {
        match self {
            Expr::Course(c) => Expr::Course(c.clone()),
            Expr::And(l, r) => {
                let a: Expr = (**l).clone();
                let b: Expr = (**r).clone();
                Expr::And(Box::new(a), Box::new(b))
            },
            Expr::Or(l, r) => {
                let a: Expr = (**l).clone();
                let b: Expr = (**r).clone();
                Expr::Or(Box::new(a), Box::new(b))
            },
        }
    }
}

impl View for ParseError {
    type V = Seq<char>;

    open spec fn view(&self) -> Seq<char> {
        self.0@
    }
}

// ---------------------------------------------------------------------------
// Evaluating and simplifying
// ---------------------------------------------------------------------------

impl ExprView {
    /// Whether the courses `done` meet the expression.
    pub open spec fn satisfied(self, done: Seq<Seq<char>>) -> bool
        decreases self,
    {
        match self {
            ExprView::Course(c) => done.contains(c),
            ExprView::And(l, r) => l.satisfied(done) && r.satisfied(done),
            ExprView::Or(l, r) => l.satisfied(done) || r.satisfied(done),
        }
    }

    /// What of the expression the courses `done` leave to be met: nothing
    /// where they meet it. Of an `and` the parts that are not met remain; an
    /// `or` remains, with what remains of its parts, unless either is met.
    pub open spec fn residual(self, done: Seq<Seq<char>>) -> Option<ExprView>
        decreases self,
    {
        match self {
            ExprView::Course(c) => if done.contains(c) {
                None
            } else {
                Some(self)
            },
            ExprView::And(l, r) => match (l.residual(done), r.residual(done)) {
                (None, None) => None,
                (Some(a), None) => Some(a),
                (None, Some(b)) => Some(b),
                (Some(a), Some(b)) => Some(ExprView::And(Box::new(a), Box::new(b))),
            },
            ExprView::Or(l, r) => match (l.residual(done), r.residual(done)) {
                (Some(a), Some(b)) => Some(ExprView::Or(Box::new(a), Box::new(b))),
                _ => None,
            },
        }
    }
}

/// The mathematical value of an expression that may be missing.
pub open spec fn optional_view(e: Option<Expr>) -> Option<ExprView> {
    match e {
        Some(x) => Some(x@),
        None => None,
    }
}

/// Nothing remains of an expression exactly where it is met.
pub proof fn lemma_residual_none_iff_satisfied(e: ExprView, done: Seq<Seq<char>>)
    ensures
        e.residual(done) is None <==> e.satisfied(done),
    decreases e,
{
    match e {
        ExprView::Course(_) => {},
        ExprView::And(l, r) => {
            lemma_residual_none_iff_satisfied(*l, done);
            lemma_residual_none_iff_satisfied(*r, done);
        },
        ExprView::Or(l, r) => {
            lemma_residual_none_iff_satisfied(*l, done);
            lemma_residual_none_iff_satisfied(*r, done);
        },
    }
}

/// With no course done, the whole expression remains.
pub proof fn lemma_residual_of_nothing_done(e: ExprView)
    ensures
        e.residual(Seq::empty()) == Some(e),
    decreases e,
{
    match e {
        ExprView::Course(c) => {
            assert(!Seq::<Seq<char>>::empty().contains(c));
        },
        ExprView::And(l, r) => {
            lemma_residual_of_nothing_done(*l);
            lemma_residual_of_nothing_done(*r);
        },
        ExprView::Or(l, r) => {
            lemma_residual_of_nothing_done(*l);
            lemma_residual_of_nothing_done(*r);
        },
    }
}

/// Simplifying what remains, with the same courses done, changes nothing.
pub proof fn lemma_residual_idempotent(e: ExprView, done: Seq<Seq<char>>)
    ensures
        e.residual(done) matches Some(rest) ==> rest.residual(done) == Some(rest),
    decreases e,
{
    match e {
        ExprView::Course(_) => {},
        ExprView::And(l, r) => {
            lemma_residual_idempotent(*l, done);
            lemma_residual_idempotent(*r, done);
        },
        ExprView::Or(l, r) => {
            lemma_residual_idempotent(*l, done);
            lemma_residual_idempotent(*r, done);
        },
    }
}

fn is_done(completed_courses: &[String], course: &String) -> (r: bool)
    ensures
        r == texts(completed_courses@).contains(course@),
{
    let ghost done = texts(completed_courses@);
    let mut i: usize = 0;
    while i < completed_courses.len()
        invariant
            i <= completed_courses.len(),
            done == texts(completed_courses@),
            forall|j: int| 0 <= j < i ==> done[j] != course@,
        decreases completed_courses.len() - i,
    {
        if completed_courses[i] == *course {
            assert(done[i as int] == course@);
            return true;
        }
        i += 1;
    }
    false
}

impl Expr {
    /// Whether the completed courses meet the expression.
    pub fn evaluate(&self, completed_courses: &[String]) -> (r: bool)
        ensures
            r == self@.satisfied(texts(completed_courses@)),
        decreases self,
    {
        match self {
            Expr::Course(course) => is_done(completed_courses, course),
            Expr::And(left, right) => left.evaluate(completed_courses) && right.evaluate(
                completed_courses,
            ),
            Expr::Or(left, right) => left.evaluate(completed_courses) || right.evaluate(
                completed_courses,
            ),
        }
    }

    /// What of the expression the completed courses leave to be met; `None`
    /// where they meet it.
    pub fn simplify(&self, completed_courses: &[String]) -> (r: Option<Expr>)
        ensures
            optional_view(r) == self@.residual(texts(completed_courses@)),
        decreases self,
    {
        match self {
            Expr::Course(course) => {
                if is_done(completed_courses, course) {
                    None
                } else {
                    Some(Expr::Course(course.clone()))
                }
            },
            Expr::And(left, right) => {
                match (left.simplify(completed_courses), right.simplify(completed_courses)) {
                    (None, None) => None,
                    (Some(l), None) => Some(l),
                    (None, Some(r)) => Some(r),
                    (Some(l), Some(r)) => Some(Expr::And(Box::new(l), Box::new(r))),
                }
            },
            Expr::Or(left, right) => {
                match (left.simplify(completed_courses), right.simplify(completed_courses)) {
                    (Some(l), Some(r)) => Some(Expr::Or(Box::new(l), Box::new(r))),
                    _ => None,
                }
            },
        }
    }
}

// ---------------------------------------------------------------------------
// Splitting at the top level
// ---------------------------------------------------------------------------

/// The operator `op` with a space on either side.
pub open spec fn spaced(op: Seq<char>) -> Seq<char> {
    seq![' '] + op + seq![' ']
}

/// Whether `s` has the operator `op`, with a space on either side, at index
/// `i`. The operator is given in small letters; in `s` its letters may be
/// capital or small.
pub open spec fn operator_at(s: Seq<char>, op: Seq<char>, i: int) -> bool {
    i + op.len() + 2 <= s.len() && lowered(s.subrange(i, i + op.len() + 2)) == spaced(op)
}

/// The trimmed text `s` as one part; no part where it is empty.
pub open spec fn part(s: Seq<char>) -> Seq<Seq<char>> {
    if trim(s).len() == 0 {
        Seq::empty()
    } else {
        seq![trim(s)]
    }
}

/// The parts of `s` from `start` on, as a scan finds them that stands at
/// index `i` at the depth `depth` of parentheses. A part ends where, outside
/// all parentheses, the operator stands with a space on either side, in
/// capital or small letters; the scan goes on after the second space. Parts
/// are trimmed and empty ones dropped.
pub open spec fn parts_from(s: Seq<char>, op: Seq<char>, i: int, depth: int, start: int) -> Seq<
    Seq<char>,
>
    decreases s.len() - i,
{
    if i < 0 || start < 0 || start > s.len() {
        Seq::empty()
    } else if i >= s.len() {
        part(s.subrange(start, s.len() as int))
    } else if s[i] == '(' {
        parts_from(s, op, i + 1, depth + 1, start)
    } else if s[i] == ')' {
        parts_from(s, op, i + 1, depth - 1, start)
    } else if s[i] == ' ' && depth == 0 && operator_at(s, op, i) && start <= i {
        part(s.subrange(start, i)) + parts_from(
            s,
            op,
            i + op.len() + 2,
            0,
            i + op.len() + 2,
        )
    } else {
        parts_from(s, op, i + 1, depth, start)
    }
}

/// The parts of `s` between occurrences of `op` at the top level, where
/// there are two or more.
pub open spec fn top_level_parts(s: Seq<char>, op: Seq<char>) -> Option<Seq<Seq<char>>> {
    if parts_from(s, op, 0, 0, 0).len() >= 2 {
        Some(parts_from(s, op, 0, 0, 0))
    } else {
        None
    }
}

/// No part is longer than the text it is taken from, and where there are
/// two or more each is shorter.
pub proof fn lemma_parts_from(s: Seq<char>, op: Seq<char>, i: int, depth: int, start: int)
    requires
        0 <= start <= i,
        start <= s.len(),
    ensures
        forall|k: int|
            0 <= k < parts_from(s, op, i, depth, start).len() ==> (#[trigger] parts_from(
                s,
                op,
                i,
                depth,
                start,
            )[k]).len() <= s.len() - start,
        parts_from(s, op, i, depth, start).len() >= 2 ==> forall|k: int|
            0 <= k < parts_from(s, op, i, depth, start).len() ==> (#[trigger] parts_from(
                s,
                op,
                i,
                depth,
                start,
            )[k]).len() < s.len() - start,
    decreases s.len() - i,
{
    let all = parts_from(s, op, i, depth, start);
    if i >= s.len() {
        let tail = s.subrange(start, s.len() as int);
        lemma_trim_start(tail);
        lemma_trim_end(trim_start(tail));
    } else if s[i] == '(' {
        lemma_parts_from(s, op, i + 1, depth + 1, start);
    } else if s[i] == ')' {
        lemma_parts_from(s, op, i + 1, depth - 1, start);
    } else if s[i] == ' ' && depth == 0 && operator_at(s, op, i) && start <= i {
        let head = s.subrange(start, i);
        lemma_trim_start(head);
        lemma_trim_end(trim_start(head));
        let next = i + op.len() + 2;
        lemma_parts_from(s, op, next, 0, next);
        let first = part(head);
        let rest = parts_from(s, op, next, 0, next);
        assert forall|k: int| 0 <= k < all.len() implies (#[trigger] all[k]).len() < s.len()
            - start by {
            if k < first.len() {
                assert(all[k] == first[k]);
            } else {
                assert(all[k] == rest[k - first.len()]);
            }
        }
    } else {
        lemma_parts_from(s, op, i + 1, depth, start);
    }
}

/// The parts of `v` between occurrences of `op` at the top level, however
/// many there are.
fn scan_parts(v: &Vec<char>, op: &Vec<char>) -> (parts: Vec<Vec<char>>)
    requires
        op@.len() + 2 <= usize::MAX,
    ensures
        views(parts@) == parts_from(v@, op@, 0, 0, 0),
{
    let n = v.len();
    let mut pat: Vec<char> = Vec::new();
    pat.push(' ');
    let mut i: usize = 0;
    while i < op.len()
        invariant
            i <= op.len(),
            pat@ == seq![' '] + op@.take(i as int),
        decreases op.len() - i,
    {
        pat.push(op[i]);
        assert(op@.take(i + 1) =~= op@.take(i as int).push(op@[i as int]));
        assert(pat@ =~= seq![' '] + op@.take(i + 1));
        i += 1;
    }
    pat.push(' ');
    assert(pat@ =~= spaced(op@)) by {
        assert(op@.take(op@.len() as int) =~= op@);
    }
    let mut parts: Vec<Vec<char>> = Vec::new();
    let mut depth: i128 = 0;
    let mut start: usize = 0;
    let mut i: usize = 0;
    assert(views(parts@) =~= Seq::<Seq<char>>::empty());
    while i < n
        invariant
            start <= i <= n == v.len(),
            -(i as int) <= depth <= i,
            pat@ == spaced(op@),
            views(parts@) + parts_from(v@, op@, i as int, depth as int, start as int)
                == parts_from(v@, op@, 0, 0, 0),
        decreases n - i,
    {
        let c = v[i];
        if c == '(' {
            depth += 1;
            i += 1;
        } else if c == ')' {
            depth -= 1;
            i += 1;
        } else if c == ' ' && depth == 0 && has_lowered_at(v, i, &pat) {
            let ghost before = views(parts@);
            let ghost head = part(v@.subrange(start as int, i as int));
            let piece = trimmed(&subvec(v, start, i));
            if piece.len() > 0 {
                parts.push(piece);
            }
            assert(views(parts@) =~= before + head);
            i = i + pat.len();
            start = i;
            depth = 0;
            assert((before + head) + parts_from(v@, op@, i as int, 0, i as int) =~= before + (head
                + parts_from(v@, op@, i as int, 0, i as int)));
        } else {
            i += 1;
        }
    }
    let ghost before = views(parts@);
    let piece = trimmed(&subvec(v, start, n));
    if piece.len() > 0 {
        parts.push(piece);
    }
    assert(views(parts@) =~= before + part(v@.subrange(start as int, n as int)));
    parts
}

/// Splits `input` at each `op` that stands outside all parentheses with a
/// space on either side. `op` is given in small letters and found in
/// capital and small letters alike. The parts are trimmed, and empty ones
/// dropped; `None` where fewer than two remain.
pub fn split_top_level(input: &str, op: &str) -> (r: Option<Vec<String>>)
    ensures
        (match r {
            Some(parts) => Some(texts(parts@)),
            None => None,
        }) == top_level_parts(input@, op@),
{
    let v = chars_of(input);
    let o = chars_of(op);
    if o.len() > usize::MAX - 2 {
        // No text holds an operator of this length with a space on either side.
        proof {
            assert(v@.len() == v.len() && o@.len() == o.len());
            lemma_no_room(v@, o@, 0, 0, 0);
        }
        return None;
    }
    let parts = scan_parts(&v, &o);
    if parts.len() < 2 {
        return None;
    }
    let mut out: Vec<String> = Vec::new();
    let mut i: usize = 0;
    while i < parts.len()
        invariant
            i <= parts.len(),
            out@.len() == i,
            forall|j: int| 0 <= j < i ==> out@[j]@ == parts@[j]@,
        decreases parts.len() - i,
    {
        out.push(string_of(&parts[i]));
        i += 1;
    }
    assert(texts(out@) =~= views(parts@));
    Some(out)
}

// ---------------------------------------------------------------------------
// Reading
// ---------------------------------------------------------------------------

/// The number of opening parentheses in `s` less the number of closing ones.
pub open spec fn depth(s: Seq<char>) -> int
    decreases s.len(),
{
    if s.len() == 0 {
        0
    } else if s.last() == '(' {
        depth(s.drop_last()) + 1
    } else if s.last() == ')' {
        depth(s.drop_last()) - 1
    } else {
        depth(s.drop_last())
    }
}

/// Whether a closing parenthesis at index `i` of `s` brings the depth back
/// to zero.
pub open spec fn closes_at(s: Seq<char>, i: int) -> bool {
    s[i] == ')' && depth(s.take(i + 1)) == 0
}

/// Whether `s` begins with an opening and ends with a closing parenthesis.
pub open spec fn bracketed(s: Seq<char>) -> bool {
    s.len() >= 2 && s[0] == '(' && s.last() == ')'
}

/// Whether the parenthesis that `s` begins with is closed only by the one
/// that it ends with.
pub open spec fn wrapped(s: Seq<char>) -> bool {
    bracketed(s) && !(exists|i: int| 0 <= i < s.len() - 1 && #[trigger] closes_at(s, i))
}

/// `s` without its first and last character.
pub open spec fn inner(s: Seq<char>) -> Seq<char> {
    s.subrange(1, s.len() - 1)
}

/// What is reported of a text that is no expression.
pub open spec fn failure(t: Seq<char>) -> Seq<char> {
    "Failed to parse: "@ + t
}

/// The two expressions joined by `or` where `is_or` holds, else by `and`.
pub open spec fn joined(is_or: bool, l: ExprView, r: ExprView) -> ExprView {
    if is_or {
        ExprView::Or(Box::new(l), Box::new(r))
    } else {
        ExprView::And(Box::new(l), Box::new(r))
    }
}

/// The expression that `s` denotes, or the report on the part of it that
/// denotes none. Of the trimmed text `t`:
///
/// 1. where one pair of parentheses wraps all of `t`, what is inside them
///    is read;
/// 2. else, where `or`, in capital or small letters, splits `t` at the top
///    level, the parts are read and joined from the left;
/// 3. else, where `and` does, likewise;
/// 4. else, where `t` begins and ends with a parenthesis, what is between
///    those two is read;
/// 5. else, where `t` is digits only, it is a course;
/// 6. else `t` is reported.
pub open spec fn parse_expr(s: Seq<char>) -> Result<ExprView, Seq<char>>
    decreases s.len(), 0nat,
{
    let t = trim(s);
    proof {
        lemma_trim_start(s);
        lemma_trim_end(trim_start(s));
        lemma_parts_from(t, "or"@, 0, 0, 0);
        lemma_parts_from(t, "and"@, 0, 0, 0);
    }
    if wrapped(t) {
        parse_expr(inner(t))
    } else if top_level_parts(t, "or"@) is Some {
        parse_chain(top_level_parts(t, "or"@)->0, true, (t.len() - 1) as nat)
    } else if top_level_parts(t, "and"@) is Some {
        parse_chain(top_level_parts(t, "and"@)->0, false, (t.len() - 1) as nat)
    } else if bracketed(t) {
        parse_expr(inner(t))
    } else if all_digits(t) {
        Ok(ExprView::Course(t))
    } else {
        Err(failure(t))
    }
}

/// The expressions that `parts` denote, joined from the left; the report on
/// the first part that denotes none. No part is longer than `bound`: the
/// parts of a text are shorter than the text, which is what makes the
/// definition well founded.
pub open spec fn parse_chain(parts: Seq<Seq<char>>, is_or: bool, bound: nat) -> Result<
    ExprView,
    Seq<char>,
>
    decreases bound, parts.len(),
{
    if parts.len() == 0 || parts.last().len() > bound {
        Err(Seq::empty())
    } else if parts.len() == 1 {
        parse_expr(parts[0])
    } else {
        match parse_chain(parts.drop_last(), is_or, bound) {
            Err(e) => Err(e),
            Ok(l) => match parse_expr(parts.last()) {
                Err(e) => Err(e),
                Ok(r) => Ok(joined(is_or, l, r)),
            },
        }
    }
}

/// The mathematical value of the outcome of reading an expression.
pub open spec fn expr_outcome(r: Result<Expr, ParseError>) -> Result<ExprView, Seq<char>> {
    match r {
        Ok(e) => Ok(e@),
        Err(e) => Err(e@),
    }
}

fn closes_early(t: &Vec<char>) -> (r: bool)
    requires
        t@.len() >= 1,
    ensures
        r == (exists|i: int| 0 <= i < t@.len() - 1 && #[trigger] closes_at(t@, i)),
{
    let last = t.len() - 1;
    let mut d: i128 = 0;
    let mut i: usize = 0;
    assert(t@.take(0) =~= Seq::<char>::empty());
    while i < last
        invariant
            i <= last == t.len() - 1,
            d == depth(t@.take(i as int)),
            -(i as int) <= d <= i,
            forall|j: int| 0 <= j < i ==> !closes_at(t@, j),
        decreases last - i,
    {
        let c = t[i];
        assert(t@.take(i + 1).drop_last() =~= t@.take(i as int));
        if c == '(' {
            d += 1;
        } else if c == ')' {
            d -= 1;
            if d == 0 {
                assert(closes_at(t@, i as int));
                return true;
            }
        }
        i += 1;
    }
    false
}

fn join(is_or: bool, l: Expr, r: Expr) -> (e: Expr)
    ensures
        e@ == joined(is_or, l@, r@),
{
    if is_or {
        Expr::Or(Box::new(l), Box::new(r))
    } else {
        Expr::And(Box::new(l), Box::new(r))
    }
}

fn fail(t: &Vec<char>) -> (e: ParseError)
    ensures
        e@ == failure(t@),
{
    let mut message = chars_of("Failed to parse: ");
    let mut i: usize = 0;
    while i < t.len()
        invariant
            i <= t.len(),
            message@ == "Failed to parse: "@ + t@.take(i as int),
        decreases t.len() - i,
    {
        message.push(t[i]);
        assert(t@.take(i + 1) =~= t@.take(i as int).push(t@[i as int]));
        assert(message@ =~= "Failed to parse: "@ + t@.take(i + 1));
        i += 1;
    }
    assert(t@.take(t@.len() as int) =~= t@);
    ParseError(string_of(&message))
}

fn parse_chars(v: &Vec<char>) -> (r: Result<Expr, ParseError>)
    ensures
        expr_outcome(r) == parse_expr(v@),
    decreases v@.len(), 0nat,
{
    let t = trimmed(v);
    proof {
        lemma_trim_start(v@);
        lemma_trim_end(trim_start(v@));
        reveal_strlit("or");
        reveal_strlit("and");
    }
    let n = t.len();
    let is_bracketed = n >= 2 && t[0] == '(' && t[n - 1] == ')';
    if is_bracketed && !closes_early(&t) {
        let within = subvec(&t, 1, n - 1);
        return parse_chars(&within);
    }
    let or_op = chars_of("or");
    let or_parts = scan_parts(&t, &or_op);
    if or_parts.len() >= 2 {
        proof {
            lemma_parts_from(t@, or_op@, 0, 0, 0);
            let all = views(or_parts@);
            assert forall|k: int| 0 <= k < or_parts@.len() implies (#[trigger] or_parts@[k])@.len()
                <= n - 1 by {
                assert(all[k] == or_parts@[k]@);
            }
        }
        return parse_chain_chars(&or_parts, true, Ghost((n - 1) as nat));
    }
    let and_op = chars_of("and");
    let and_parts = scan_parts(&t, &and_op);
    if and_parts.len() >= 2 {
        proof {
            lemma_parts_from(t@, and_op@, 0, 0, 0);
            let all = views(and_parts@);
            assert forall|k: int|
                0 <= k < and_parts@.len() implies (#[trigger] and_parts@[k])@.len() <= n - 1 by {
                assert(all[k] == and_parts@[k]@);
            }
        }
        return parse_chain_chars(&and_parts, false, Ghost((n - 1) as nat));
    }
    if is_bracketed {
        let within = subvec(&t, 1, n - 1);
        return parse_chars(&within);
    }
    if all_digit_chars(&t) {
        return Ok(Expr::Course(string_of(&t)));
    }
    Err(fail(&t))
}

fn parse_chain_chars(parts: &Vec<Vec<char>>, is_or: bool, Ghost(bound): Ghost<nat>) -> (r: Result<
    Expr,
    ParseError,
>)
    requires
        parts@.len() >= 1,
        forall|k: int| 0 <= k < parts@.len() ==> (#[trigger] parts@[k])@.len() <= bound,
    ensures
        expr_outcome(r) == parse_chain(views(parts@), is_or, bound),
    decreases bound, 1nat,
{
    let ghost all = views(parts@);
    assert(all[0] == parts@[0]@);
    let mut acc = parse_chars(&parts[0]);
    let mut k: usize = 1;
    assert(all.take(1) =~= seq![all[0]]);
    while k < parts.len()
        invariant
            1 <= k <= parts.len(),
            all == views(parts@),
            forall|j: int| 0 <= j < parts@.len() ==> (#[trigger] parts@[j])@.len() <= bound,
            expr_outcome(acc) == parse_chain(all.take(k as int), is_or, bound),
        decreases parts.len() - k,
    {
        proof {
            assert(all.take(k + 1).drop_last() =~= all.take(k as int));
            assert(all.take(k + 1).last() == parts@[k as int]@);
        }
        acc = match acc {
            Err(e) => Err(e),
            Ok(l) => match parse_chars(&parts[k]) {
                Err(e) => Err(e),
                Ok(r) => Ok(join(is_or, l, r)),
            },
        };
        k += 1;
    }
    assert(all.take(all.len() as int) =~= all);
    acc
}

impl Expr {
    /// Reads a requisite expression, such as `(15122 and 21122) or 15213`.
    pub fn from_str(s: &str) -> (r: Result<Expr, ParseError>)
        ensures
            expr_outcome(r) == parse_expr(s@),
    {
        let v = chars_of(s);
        parse_chars(&v)
    }
}

/// Reads a requisite expression.
pub fn parse_requirements(req_str: &str) -> (r: Result<Expr, ParseError>)
    ensures
        expr_outcome(r) == parse_expr(req_str@),
{
    Expr::from_str(req_str)
}

impl ParseError {
    /// The report.
    pub fn to_string(&self) -> (r: String)
        ensures
            r@ == self@,
    {
        self.0.clone()
    }
}

/// Where the operator with its two spaces is longer than the text, the text
/// is one part at most.
proof fn lemma_no_room(s: Seq<char>, op: Seq<char>, i: int, depth: int, start: int)
    requires
        op.len() + 2 > s.len(),
        0 <= start <= i,
        start <= s.len(),
    ensures
        parts_from(s, op, i, depth, start) == part(s.subrange(start, s.len() as int)),
    decreases s.len() - i,
{
    if i >= s.len() {
    } else if s[i] == '(' {
        lemma_no_room(s, op, i + 1, depth + 1, start);
    } else if s[i] == ')' {
        lemma_no_room(s, op, i + 1, depth - 1, start);
    } else {
        lemma_no_room(s, op, i + 1, depth, start);
    }
}

} // verus!
