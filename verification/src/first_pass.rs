//! The first pass over a schedule feed: every line of the feed is classified
//! by its shape.
//!
//! A feed has no record markers. What a line is follows from the number of
//! its tab-separated fields, from the tabs it begins with, and from whether
//! its first fields are written as a course number or as units. The rules
//! are tried in a fixed order and the first that matches decides.

use crate::course_data::is_course_number_text;
use crate::syllabus_data::{year_of, Year};
use crate::text::{
    all_digit_chars, chars_of, is_upper, is_upper_char, split_chars, split_on,
    split_words, string_of, texts, trim, trim_end, trimmed, trimmed_end, views, words,
};
use crate::units::{is_units_text, Units};
use vstd::prelude::*;

verus! {

/// The number of lines at the head of a feed that hold no course data.
pub const HEADER_LINES: usize = 11;

/// The index of the line of a feed that ends with the year.
pub const YEAR_LINE: usize = 3;

/// A line of the feed, classified.
#[derive(Debug, Clone, PartialEq, Eq)]
pub enum Line {
    /// A blank line.
    Empty,
    /// The name of a department.
    Department(String),
    /// The number and title of a course.
    CourseHeader { number: String, title: String },
    /// The number, title and units of a course.
    SecondaryCourseHeader { number: String, title: String, units: String },
    /// A lecture or section that begins with the units of its course.
    PrimaryCourseComponent {
        units: String,
        section: String,
        days: String,
        time_start: String,
        time_end: String,
        building_room: String,
        location: String,
        instructors: String,
    },
    /// A lecture or section that begins with its code.
    SecondaryCourseComponent {
        section: String,
        days: String,
        time_start: String,
        time_end: String,
        building_room: String,
        location: String,
        instructors: String,
    },
    /// One more meeting of the lecture or section before it.
    AdditionalMeeting {
        days: String,
        time_start: String,
        time_end: String,
        building_room: String,
        location: String,
    },
    /// A title for the section that follows.
    ComponentTitle(String),
    /// A line of no known shape, as it stood.
    Unknown(String),
}

/// The mathematical value of a `Line`.
pub enum LineView {
    Empty,
    Department(Seq<char>),
    CourseHeader { number: Seq<char>, title: Seq<char> },
    SecondaryCourseHeader { number: Seq<char>, title: Seq<char>, units: Seq<char> },
    PrimaryCourseComponent {
        units: Seq<char>,
        section: Seq<char>,
        days: Seq<char>,
        time_start: Seq<char>,
        time_end: Seq<char>,
        building_room: Seq<char>,
        location: Seq<char>,
        instructors: Seq<char>,
    },
    SecondaryCourseComponent {
        section: Seq<char>,
        days: Seq<char>,
        time_start: Seq<char>,
        time_end: Seq<char>,
        building_room: Seq<char>,
        location: Seq<char>,
        instructors: Seq<char>,
    },
    AdditionalMeeting {
        days: Seq<char>,
        time_start: Seq<char>,
        time_end: Seq<char>,
        building_room: Seq<char>,
        location: Seq<char>,
    },
    ComponentTitle(Seq<char>),
    Unknown(Seq<char>),
}

impl View for Line {
    type V = LineView;

    open spec fn view(&self) -> LineView {
        match self {
            Line::Empty => LineView::Empty,
            Line::Department(name) => LineView::Department(name@),
            Line::CourseHeader { number, title } => LineView::CourseHeader {
                number: number@,
                title: title@,
            },
            Line::SecondaryCourseHeader { number, title, units } => {
                LineView::SecondaryCourseHeader { number: number@, title: title@, units: units@ }
            },
            Line::PrimaryCourseComponent {
                units,
                section,
                days,
                time_start,
                time_end,
                building_room,
                location,
                instructors,
            } => LineView::PrimaryCourseComponent {
                units: units@,
                section: section@,
                days: days@,
                time_start: time_start@,
                time_end: time_end@,
                building_room: building_room@,
                location: location@,
                instructors: instructors@,
            },
            Line::SecondaryCourseComponent {
                section,
                days,
                time_start,
                time_end,
                building_room,
                location,
                instructors,
            } => LineView::SecondaryCourseComponent {
                section: section@,
                days: days@,
                time_start: time_start@,
                time_end: time_end@,
                building_room: building_room@,
                location: location@,
                instructors: instructors@,
            },
            Line::AdditionalMeeting {
                days,
                time_start,
                time_end,
                building_room,
                location,
            } => LineView::AdditionalMeeting {
                days: days@,
                time_start: time_start@,
                time_end: time_end@,
                building_room: building_room@,
                location: location@,
            },
            Line::ComponentTitle(title) => LineView::ComponentTitle(title@),
            Line::Unknown(raw) => LineView::Unknown(raw@),
        }
    }
}

/// The views of a sequence of lines.
pub open spec fn line_views(lines: Seq<Line>) -> Seq<LineView> {
    Seq::new(lines.len(), |i: int| lines[i]@)
}

/// Whether `s` begins like the code of a section: with an ASCII capital
/// letter.
pub open spec fn is_section_code_text(s: Seq<char>) -> bool {
    s.len() > 0 && is_upper(s[0])
}

/// The number of tabs that `s` begins with.
pub open spec fn leading_tabs(s: Seq<char>) -> nat
    decreases s.len(),
{
    if s.len() > 0 && s[0] == '\t' {
        1 + leading_tabs(s.drop_first())
    } else {
        0
    }
}

/// What the line `line` is. The rules, of which the first that matches
/// decides, go by the fields `f` of the trimmed line, which tabs separate:
///
/// 1. one field after exactly one leading tab: a department;
/// 2. two fields, the first a course number: a course header;
/// 3. three or more, the first a course number and the third units: a
///    course header with units;
/// 4. eight or more, the first units: a component that begins with units;
/// 5. seven or more, the first a section code: a component that begins with
///    its code;
/// 6. five or more: one more meeting;
/// 7. one field after exactly two leading tabs: a component title;
/// 8. anything else is unknown, and kept as it stood.
///
/// Fields beyond those that a shape names are dropped. A blank line is empty.
pub open spec fn classify(line: Seq<char>) -> LineView {
    let f = split_on(trim(line), '\t');
    let tabs = leading_tabs(line);
    if trim(line).len() == 0 {
        LineView::Empty
    } else if f.len() == 1 && tabs == 1 {
        LineView::Department(f[0])
    } else if f.len() == 2 && is_course_number_text(f[0]) {
        LineView::CourseHeader { number: f[0], title: trim(f[1]) }
    } else if f.len() >= 3 && is_course_number_text(f[0]) && is_units_text(f[2]) {
        LineView::SecondaryCourseHeader { number: f[0], title: trim(f[1]), units: f[2] }
    } else if f.len() >= 8 && is_units_text(f[0]) {
        LineView::PrimaryCourseComponent {
            units: f[0],
            section: f[1],
            days: f[2],
            time_start: f[3],
            time_end: f[4],
            building_room: f[5],
            location: f[6],
            instructors: f[7],
        }
    } else if f.len() >= 7 && is_section_code_text(f[0]) {
        LineView::SecondaryCourseComponent {
            section: f[0],
            days: f[1],
            time_start: f[2],
            time_end: f[3],
            building_room: f[4],
            location: f[5],
            instructors: f[6],
        }
    } else if f.len() >= 5 {
        LineView::AdditionalMeeting {
            days: f[0],
            time_start: f[1],
            time_end: f[2],
            building_room: f[3],
            location: f[4],
        }
    } else if f.len() == 1 && tabs == 2 {
        LineView::ComponentTitle(f[0])
    } else {
        LineView::Unknown(line)
    }
}

/// The lines of `s`: the texts between its line feeds, and no empty line
/// after the last line feed.
pub open spec fn feed_lines(s: Seq<char>) -> Seq<Seq<char>> {
    let p = split_on(s, '\n');
    if p.len() > 0 && p.last().len() == 0 {
        p.drop_last()
    } else {
        p
    }
}

/// The lines of the feed `s` that hold course data: those after the header,
/// each without its trailing white space.
pub open spec fn data_lines(s: Seq<char>) -> Seq<Seq<char>> {
    let ls = feed_lines(s);
    if ls.len() <= HEADER_LINES {
        Seq::empty()
    } else {
        Seq::new((ls.len() - HEADER_LINES) as nat, |i: int| trim_end(ls[i + HEADER_LINES]))
    }
}

/// The data lines of the feed `s`, each classified.
pub open spec fn classified(s: Seq<char>) -> Seq<LineView> {
    Seq::new(data_lines(s).len(), |i: int| classify(data_lines(s)[i]))
}

/// The year of the feed `s`: the last word of its fourth line, where that is
/// written as a year.
pub open spec fn feed_year(s: Seq<char>) -> Option<Year> {
    let ls = feed_lines(s);
    if ls.len() <= YEAR_LINE {
        None
    } else if words(ls[YEAR_LINE as int]).len() == 0 {
        None
    } else {
        year_of(words(ls[YEAR_LINE as int]).last())
    }
}

/// What is reported of a line of no known shape.
pub open spec fn unknown_line_report(raw: Seq<char>) -> Seq<char> {
    "Unknown line format: "@ + raw
}

/// The reports on the lines of `lines` that are of no known shape, in
/// order.
pub open spec fn reports(lines: Seq<LineView>) -> Seq<Seq<char>>
    decreases lines.len(),
{
    if lines.len() == 0 {
        Seq::empty()
    } else {
        match lines.last() {
            LineView::Unknown(raw) => reports(lines.drop_last()).push(unknown_line_report(raw)),
            _ => reports(lines.drop_last()),
        }
    }
}

fn count_leading_tabs(v: &Vec<char>) -> (n: usize)
    ensures
        n == leading_tabs(v@),
{
    let mut i: usize = 0;
    assert(v@.skip(0) =~= v@);
    while i < v.len() && v[i] == '\t'
        invariant
            i <= v.len(),
            leading_tabs(v@) == i + leading_tabs(v@.skip(i as int)),
        decreases v.len() - i,
    {
        assert(v@.skip(i as int).drop_first() =~= v@.skip(i + 1));
        i += 1;
    }
    i
}

fn course_number_chars(v: &Vec<char>) -> (r: bool)
    ensures
        r == is_course_number_text(v@),
{
    v.len() == 5 && all_digit_chars(v)
}

fn section_code_chars(v: &Vec<char>) -> (r: bool)
    ensures
        r == is_section_code_text(v@),
{
    v.len() > 0 && is_upper_char(v[0])
}

fn units_chars(v: &Vec<char>) -> (r: bool)
    ensures
        r == is_units_text(v@),
{
    Units::from_chars(v).is_ok()
}

/// Classifies one line of characters.
pub fn classify_chars(line: &Vec<char>) -> (r: Line)
    ensures
        r@ == classify(line@),
{
    let t = trimmed(line);
    if t.len() == 0 {
        return Line::Empty;
    }
    let f = split_chars(&t, '\t');
    let tabs = count_leading_tabs(line);
    let n = f.len();
    proof {
        assert(views(f@).len() == f@.len());
        assert forall|k: int| 0 <= k < n implies f@[k]@ == split_on(trim(line@), '\t')[k] by {
            assert(views(f@)[k] == f@[k]@);
        }
    }
    if n == 1 && tabs == 1 {
        Line::Department(string_of(&f[0]))
    } else if n == 2 && course_number_chars(&f[0]) {
        Line::CourseHeader { number: string_of(&f[0]), title: string_of(&trimmed(&f[1])) }
    } else if n >= 3 && course_number_chars(&f[0]) && units_chars(&f[2]) {
        Line::SecondaryCourseHeader {
            number: string_of(&f[0]),
            title: string_of(&trimmed(&f[1])),
            units: string_of(&f[2]),
        }
    } else if n >= 8 && units_chars(&f[0]) {
        Line::PrimaryCourseComponent {
            units: string_of(&f[0]),
            section: string_of(&f[1]),
            days: string_of(&f[2]),
            time_start: string_of(&f[3]),
            time_end: string_of(&f[4]),
            building_room: string_of(&f[5]),
            location: string_of(&f[6]),
            instructors: string_of(&f[7]),
        }
    } else if n >= 7 && section_code_chars(&f[0]) {
        Line::SecondaryCourseComponent {
            section: string_of(&f[0]),
            days: string_of(&f[1]),
            time_start: string_of(&f[2]),
            time_end: string_of(&f[3]),
            building_room: string_of(&f[4]),
            location: string_of(&f[5]),
            instructors: string_of(&f[6]),
        }
    } else if n >= 5 {
        Line::AdditionalMeeting {
            days: string_of(&f[0]),
            time_start: string_of(&f[1]),
            time_end: string_of(&f[2]),
            building_room: string_of(&f[3]),
            location: string_of(&f[4]),
        }
    } else if n == 1 && tabs == 2 {
        Line::ComponentTitle(string_of(&f[0]))
    } else {
        Line::Unknown(string_of(line))
    }
}

/// Classifies one line of a feed.
pub fn parse_line(line: &str) -> (r: Line)
    ensures
        r@ == classify(line@),
{
    let v = chars_of(line);
    classify_chars(&v)
}

/// Whether `s` is written as a course number: five ASCII digits.
pub fn is_course_number(s: &str) -> (r: bool)
    ensures
        r == is_course_number_text(s@),
{
    let v = chars_of(s);
    course_number_chars(&v)
}

/// Whether `s` begins like the code of a section.
pub fn is_section_code(s: &str) -> (r: bool)
    ensures
        r == is_section_code_text(s@),
{
    let v = chars_of(s);
    section_code_chars(&v)
}

fn lines_of(v: &Vec<char>) -> (r: Vec<Vec<char>>)
    ensures
        views(r@) == feed_lines(v@),
{
    let mut p = split_chars(v, '\n');
    let ghost all = views(p@);
    assert(all.len() == p@.len());
    let last = p.len() - 1;
    assert(all[last as int] == p@[last as int]@);
    if p[last].len() == 0 {
        p.pop();
        assert(views(p@) =~= all.drop_last());
    }
    p
}

/// The lines of the feed `input` that hold course data, each without its
/// trailing white space.
pub fn preprocess_lines(input: &str) -> (r: Vec<Vec<char>>)
    ensures
        views(r@) == data_lines(input@),
{
    let v = chars_of(input);
    let ls = lines_of(&v);
    let mut out: Vec<Vec<char>> = Vec::new();
    if ls.len() <= HEADER_LINES {
        assert(views(out@) =~= data_lines(input@));
        return out;
    }
    let mut i: usize = HEADER_LINES;
    while i < ls.len()
        invariant
            HEADER_LINES <= i <= ls.len(),
            out@.len() == i - HEADER_LINES,
            forall|j: int| 0 <= j < out@.len() ==> out@[j]@ == trim_end(ls@[j + HEADER_LINES]@),
        decreases ls.len() - i,
    {
        out.push(trimmed_end(&ls[i]));
        i += 1;
    }
    proof {
        let want = data_lines(input@);
        assert(views(ls@).len() == ls@.len());
        assert forall|j: int| 0 <= j < want.len() implies views(out@)[j] == want[j] by {
            assert(views(ls@)[j + HEADER_LINES] == ls@[j + HEADER_LINES]@);
        }
        assert(views(out@) =~= want);
    }
    out
}

/// Classifies the data lines of a feed, in order.
pub fn first_pass(input: &str) -> (r: Vec<Line>)
    ensures
        line_views(r@) == classified(input@),
{
    let ls = preprocess_lines(input);
    let mut out: Vec<Line> = Vec::new();
    let mut i: usize = 0;
    assert(views(ls@).len() == ls@.len());
    while i < ls.len()
        invariant
            i <= ls.len(),
            out@.len() == i,
            forall|j: int| 0 <= j < i ==> out@[j]@ == classify(ls@[j]@),
        decreases ls.len() - i,
    {
        out.push(classify_chars(&ls[i]));
        i += 1;
    }
    proof {
        let want = classified(input@);
        assert forall|j: int| 0 <= j < want.len() implies line_views(out@)[j] == want[j] by {
            assert(views(ls@)[j] == ls@[j]@);
        }
        assert(line_views(out@) =~= want);
    }
    out
}

/// The year of a feed.
pub fn extract_year(text: &str) -> (r: Option<Year>)
    ensures
        r == feed_year(text@),
{
    let v = chars_of(text);
    let ls = lines_of(&v);
    assert(views(ls@).len() == ls@.len());
    if ls.len() <= YEAR_LINE {
        return None;
    }
    assert(views(ls@)[YEAR_LINE as int] == ls@[YEAR_LINE as int]@);
    let ws = split_words(&ls[YEAR_LINE]);
    assert(views(ws@).len() == ws@.len());
    if ws.len() == 0 {
        return None;
    }
    assert(views(ws@)[ws@.len() - 1] == ws@[ws@.len() - 1]@);
    Year::from_chars(&ws[ws.len() - 1])
}

/// The reports on the lines of no known shape, in order, for whoever keeps
/// the log.
pub fn diagnostics(lines: &Vec<Line>) -> (r: Vec<String>)
    ensures
        texts(r@) == reports(line_views(lines@)),
{
    let ghost all = line_views(lines@);
    let mut out: Vec<String> = Vec::new();
    let mut i: usize = 0;
    assert(all.take(0) =~= Seq::<LineView>::empty());
    assert(texts(out@) =~= reports(all.take(0)));
    while i < lines.len()
        invariant
            i <= lines.len(),
            all == line_views(lines@),
            texts(out@) == reports(all.take(i as int)),
        decreases lines.len() - i,
    {
        proof {
            assert(all.take(i + 1).drop_last() =~= all.take(i as int));
            assert(all.take(i + 1).last() == lines@[i as int]@);
        }
        let ghost before = texts(out@);
        match &lines[i] {
            Line::Unknown(raw) => {
                let mut message = chars_of("Unknown line format: ");
                let mut rest = chars_of(raw.as_str());
                message.append(&mut rest);
                let report = string_of(&message);
                out.push(report);
                assert(texts(out@) =~= before.push(unknown_line_report(raw@)));
            },
            _ => {},
        }
        i += 1;
    }
    assert(all.take(all.len() as int) =~= all);
    out
}

} // verus!
