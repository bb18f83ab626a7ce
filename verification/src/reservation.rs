//! Reservations of places in a section for groups of students.
//!
//! A restriction is read from a sentence such as
//! `Some reservations are for Freshmen in SCS`.

use crate::first_pass::feed_lines;
use crate::text::{
    chars_of, find_chars, has_at, lowered, lowered_chars, spells, split_chars, split_once,
    starts_with, string_of, subvec, trim, trimmed, views,
};
use vstd::prelude::*;

verus! {

/// A group of students by their standing.
#[derive(Debug, Clone, Copy, PartialEq, Eq, Structural)]
pub enum StudentType {
    Freshmen,
    Sophomores,
    Juniors,
    Seniors,
    Students,
    GraduateStudents,
    PhdCandidates,
    FifthYearStudents,
}

/// What a reservation goes by.
#[derive(Debug, Clone, PartialEq, Eq)]
pub enum ReservationType {
    /// The standing of the student alone.
    StudentType,
    /// The school of the student.
    School(String),
    /// The primary major of the student.
    PrimaryMajor(String),
}

/// The mathematical value of a `ReservationType`.
pub enum ReservationTypeView {
    StudentType,
    School(Seq<char>),
    PrimaryMajor(Seq<char>),
}

/// For whom places are reserved.
#[derive(Debug, Clone, PartialEq, Eq)]
pub struct Restriction {
    pub student_type: Option<StudentType>,
    pub restriction_type: Option<ReservationType>,
}

/// The mathematical value of a `Restriction`.
pub struct RestrictionView {
    pub student_type: Option<StudentType>,
    pub restriction_type: Option<ReservationTypeView>,
}

/// The reservations of one section.
#[derive(Debug, Clone, PartialEq, Eq)]
pub struct Reservation {
    pub section: String,
    pub restrictions: Vec<Restriction>,
}

/// The mathematical value of a `Reservation`.
pub struct ReservationView {
    pub section: Seq<char>,
    pub restrictions: Seq<RestrictionView>,
}

impl View for ReservationType {
    type V = ReservationTypeView;

    open spec fn view(&self) -> ReservationTypeView {
        match self {
            ReservationType::StudentType => ReservationTypeView::StudentType,
            ReservationType::School(s) => ReservationTypeView::School(s@),
            ReservationType::PrimaryMajor(m) => ReservationTypeView::PrimaryMajor(m@),
        }
    }
}

impl View for Restriction {
    type V = RestrictionView;

    open spec fn view(&self) -> RestrictionView {
        RestrictionView {
            student_type: self.student_type,
            restriction_type: match self.restriction_type {
                Some(t) => Some(t@),
                None => None,
            },
        }
    }
}

/// The views of a sequence of restrictions.
pub open spec fn restriction_views(rs: Seq<Restriction>) -> Seq<RestrictionView> {
    Seq::new(rs.len(), |i: int| rs[i]@)
}

impl View for Reservation {
    type V = ReservationView;

    open spec fn view(&self) -> ReservationView {
        ReservationView {
            section: self.section@,
            restrictions: restriction_views(self.restrictions@),
        }
    }
}

// ---------------------------------------------------------------------------
// Student types
// ---------------------------------------------------------------------------

impl StudentType {
    /// The name of the group.
    pub open spec fn text(self) -> Seq<char> {
        match self {
            StudentType::Freshmen => "Freshmen"@,
            StudentType::Sophomores => "Sophomores"@,
            StudentType::Juniors => "Juniors"@,
            StudentType::Seniors => "Seniors"@,
            StudentType::Students => "Students"@,
            StudentType::GraduateStudents => "Graduate Students"@,
            StudentType::PhdCandidates => "Phd Candidates"@,
            StudentType::FifthYearStudents => "5th YR Students"@,
        }
    }

    /// The name of the group.
    pub fn as_str(&self) -> (r: &'static str)
        ensures
            r@ == self.text(),
    {
        match self {
            StudentType::Freshmen => "Freshmen",
            StudentType::Sophomores => "Sophomores",
            StudentType::Juniors => "Juniors",
            StudentType::Seniors => "Seniors",
            StudentType::Students => "Students",
            StudentType::GraduateStudents => "Graduate Students",
            StudentType::PhdCandidates => "Phd Candidates",
            StudentType::FifthYearStudents => "5th YR Students",
        }
    }

    /// The name of the group.
    pub fn to_string(&self) -> (r: String)
        ensures
            r@ == self.text(),
    {
        self.as_str().to_owned()
    }

    /// The eight groups, in the order of their declaration.
    pub fn all() -> (r: Vec<StudentType>)
        ensures
            r@ == seq![
                StudentType::Freshmen,
                StudentType::Sophomores,
                StudentType::Juniors,
                StudentType::Seniors,
                StudentType::Students,
                StudentType::GraduateStudents,
                StudentType::PhdCandidates,
                StudentType::FifthYearStudents,
            ],
    {
        let mut v: Vec<StudentType> = Vec::new();
        v.push(StudentType::Freshmen);
        v.push(StudentType::Sophomores);
        v.push(StudentType::Juniors);
        v.push(StudentType::Seniors);
        v.push(StudentType::Students);
        v.push(StudentType::GraduateStudents);
        v.push(StudentType::PhdCandidates);
        v.push(StudentType::FifthYearStudents);
        assert(v@ =~= seq![
            StudentType::Freshmen,
            StudentType::Sophomores,
            StudentType::Juniors,
            StudentType::Seniors,
            StudentType::Students,
            StudentType::GraduateStudents,
            StudentType::PhdCandidates,
            StudentType::FifthYearStudents,
        ]);
        v
    }

    /// Reads a group from characters.
    pub fn from_chars(v: &Vec<char>) -> (r: Result<StudentType, String>)
        ensures
            student_type_outcome(r) == student_type_of(v@),
    {
        let low = lowered_chars(v);
        if spells(&low, "freshmen") {
            Ok(StudentType::Freshmen)
        } else if spells(&low, "sophomores") {
            Ok(StudentType::Sophomores)
        } else if spells(&low, "juniors") {
            Ok(StudentType::Juniors)
        } else if spells(&low, "seniors") {
            Ok(StudentType::Seniors)
        } else if spells(&low, "students") {
            Ok(StudentType::Students)
        } else if spells(&low, "graduate students") {
            Ok(StudentType::GraduateStudents)
        } else if spells(&low, "phd candidates") {
            Ok(StudentType::PhdCandidates)
        } else if spells(&low, "5th yr students") {
            Ok(StudentType::FifthYearStudents)
        } else {
            let mut message = chars_of("Unknown student type: ");
            let mut rest = subvec(v, 0, v.len());
            assert(rest@ =~= v@);
            message.append(&mut rest);
            Err(string_of(&message))
        }
    }

    /// Reads a group by its name, in capital or small letters.
    pub fn from_str(s: &str) -> (r: Result<StudentType, String>)
        ensures
            student_type_outcome(r) == student_type_of(s@),
    {
        let v = chars_of(s);
        StudentType::from_chars(&v)
    }
}

/// The group that `s` names, whatever the case of its ASCII letters, or the
/// report that it names none.
pub open spec fn student_type_of(s: Seq<char>) -> Result<StudentType, Seq<char>> {
    let low = lowered(s);
    if low == "freshmen"@ {
        Ok(StudentType::Freshmen)
    } else if low == "sophomores"@ {
        Ok(StudentType::Sophomores)
    } else if low == "juniors"@ {
        Ok(StudentType::Juniors)
    } else if low == "seniors"@ {
        Ok(StudentType::Seniors)
    } else if low == "students"@ {
        Ok(StudentType::Students)
    } else if low == "graduate students"@ {
        Ok(StudentType::GraduateStudents)
    } else if low == "phd candidates"@ {
        Ok(StudentType::PhdCandidates)
    } else if low == "5th yr students"@ {
        Ok(StudentType::FifthYearStudents)
    } else {
        Err("Unknown student type: "@ + s)
    }
}

/// Reading the name of a group gives the group back.
pub proof fn lemma_student_type_round_trip(t: StudentType)
    ensures
        student_type_of(t.text()) == Ok::<StudentType, Seq<char>>(t),
{
    reveal_strlit("Freshmen");
    reveal_strlit("Sophomores");
    reveal_strlit("Juniors");
    reveal_strlit("Seniors");
    reveal_strlit("Students");
    reveal_strlit("Graduate Students");
    reveal_strlit("Phd Candidates");
    reveal_strlit("5th YR Students");
    reveal_strlit("freshmen");
    reveal_strlit("sophomores");
    reveal_strlit("juniors");
    reveal_strlit("seniors");
    reveal_strlit("students");
    reveal_strlit("graduate students");
    reveal_strlit("phd candidates");
    reveal_strlit("5th yr students");
    let low = lowered(t.text());
    match t {
        StudentType::Freshmen => {
            assert(low =~= "freshmen"@);
        },
        StudentType::Sophomores => {
            assert(low =~= "sophomores"@);
            assert(low.len() != "freshmen"@.len());
        },
        StudentType::Juniors => {
            assert(low =~= "juniors"@);
            assert(low.len() != "freshmen"@.len());
            assert(low.len() != "sophomores"@.len());
        },
        StudentType::Seniors => {
            assert(low =~= "seniors"@);
            assert(low.len() != "freshmen"@.len());
            assert(low.len() != "sophomores"@.len());
            assert(low[0] != "juniors"@[0]);
        },
        StudentType::Students => {
            assert(low =~= "students"@);
            assert(low[0] != "freshmen"@[0]);
            assert(low.len() != "sophomores"@.len());
            assert(low.len() != "juniors"@.len());
            assert(low.len() != "seniors"@.len());
        },
        StudentType::GraduateStudents => {
            assert(low =~= "graduate students"@);
            assert(low.len() == 17);
        },
        StudentType::PhdCandidates => {
            assert(low =~= "phd candidates"@);
            assert(low.len() == 14);
        },
        StudentType::FifthYearStudents => {
            assert(low =~= "5th yr students"@);
            assert(low.len() == 15);
        },
    }
}

/// The mathematical value of the outcome of reading a group.
pub open spec fn student_type_outcome(r: Result<StudentType, String>) -> Result<
    StudentType,
    Seq<char>,
> {
    match r {
        Ok(t) => Ok(t),
        Err(e) => Err(e@),
    }
}

// ---------------------------------------------------------------------------
// Restrictions
// ---------------------------------------------------------------------------

impl ReservationTypeView {
    /// The words that follow the group of students.
    pub open spec fn text(self) -> Seq<char> {
        match self {
            ReservationTypeView::StudentType => Seq::empty(),
            ReservationTypeView::School(s) => "in "@ + s,
            ReservationTypeView::PrimaryMajor(m) => "with a primary major in "@ + m,
        }
    }
}

impl RestrictionView {
    /// The restriction in words.
    pub open spec fn text(self) -> Seq<char> {
        match (self.student_type, self.restriction_type) {
            (Some(who), Some(by)) => who.text() + seq![' '] + by.text(),
            _ => "Unknown restriction"@,
        }
    }
}

impl ReservationType {
    /// The words that follow the group of students.
    pub fn to_string(&self) -> (r: String)
        ensures
            r@ == self@.text(),
    {
        match self {
            ReservationType::StudentType => String::new(),
            ReservationType::School(s) => {
                let mut out = chars_of("in ");
                let mut rest = chars_of(s.as_str());
                out.append(&mut rest);
                string_of(&out)
            },
            ReservationType::PrimaryMajor(m) => {
                let mut out = chars_of("with a primary major in ");
                let mut rest = chars_of(m.as_str());
                out.append(&mut rest);
                string_of(&out)
            },
        }
    }
}

/// The sentence with which every restriction begins.
pub open spec fn restriction_prefix() -> Seq<char> {
    "Some reservations are for "@
}

/// The non-blank lines of `ls`, each trimmed, with a space between each two.
pub open spec fn joined_lines(ls: Seq<Seq<char>>) -> Seq<char>
    decreases ls.len(),
{
    if ls.len() == 0 {
        Seq::empty()
    } else if trim(ls.last()).len() == 0 {
        joined_lines(ls.drop_last())
    } else if joined_lines(ls.drop_last()).len() == 0 {
        trim(ls.last())
    } else {
        joined_lines(ls.drop_last()) + seq![' '] + trim(ls.last())
    }
}

/// The restriction for the group `who` by `by`, or the report that `who`
/// names no group.
pub open spec fn restriction_for(who: Seq<char>, by: ReservationTypeView) -> Result<
    RestrictionView,
    Seq<char>,
> {
    match student_type_of(who) {
        Ok(t) => Ok(RestrictionView { student_type: Some(t), restriction_type: Some(by) }),
        Err(e) => Err(e),
    }
}

/// The restriction that the sentence `s` states, or the report on what is
/// wrong with it. After the prefix, the trimmed sentence is
///
/// 1. a group, ` with a primary major in ` and a major; or
/// 2. a group, ` in ` and a school; or
/// 3. a group alone.
///
/// Where the first or second form is met with a group that is unknown, that
/// is reported. Where none is met, the sentence is reported on one line.
pub open spec fn restriction_of(s: Seq<char>) -> Result<RestrictionView, Seq<char>> {
    if !starts_with(s, restriction_prefix()) {
        Err("Missing expected prefix"@)
    } else {
        let content = trim(s.skip(restriction_prefix().len() as int));
        match split_once(content, " with a primary major in "@) {
            Some((who, major)) => restriction_for(
                trim(who),
                ReservationTypeView::PrimaryMajor(trim(major)),
            ),
            None => match split_once(content, " in "@) {
                Some((who, school)) => restriction_for(
                    trim(who),
                    ReservationTypeView::School(trim(school)),
                ),
                None => match student_type_of(content) {
                    Ok(t) => Ok(
                        RestrictionView {
                            student_type: Some(t),
                            restriction_type: Some(ReservationTypeView::StudentType),
                        },
                    ),
                    Err(_) => Err("Unable to parse reservation: "@ + joined_lines(feed_lines(s))),
                },
            },
        }
    }
}

/// The mathematical value of the outcome of reading a restriction.
pub open spec fn restriction_outcome(r: Result<Restriction, String>) -> Result<
    RestrictionView,
    Seq<char>,
> {
    match r {
        Ok(x) => Ok(x@),
        Err(e) => Err(e@),
    }
}

fn split_once_chars(v: &Vec<char>, pat: &Vec<char>) -> (r: Option<(Vec<char>, Vec<char>)>)
    ensures
        (match r {
            Some((a, b)) => Some((a@, b@)),
            None => None,
        }) == split_once(v@, pat@),
{
    match find_chars(v, pat) {
        Some(i) => {
            let n = v.len();
            let a = subvec(v, 0, i);
            let b = subvec(v, i + pat.len(), n);
            proof {
                assert(v@.subrange(0, i as int) =~= v@.take(i as int));
                assert(v@.subrange(i + pat@.len(), v@.len() as int) =~= v@.skip(i + pat@.len()));
            }
            Some((a, b))
        },
        None => None,
    }
}

fn restriction_for_chars(who: &Vec<char>, by: ReservationType) -> (r: Result<Restriction, String>)
    ensures
        restriction_outcome(r) == restriction_for(who@, by@),
{
    match StudentType::from_chars(who) {
        Ok(t) => Ok(Restriction { student_type: Some(t), restriction_type: Some(by) }),
        Err(e) => Err(e),
    }
}

fn join_lines(v: &Vec<char>) -> (r: Vec<char>)
    ensures
        r@ == joined_lines(feed_lines(v@)),
{
    let mut ls = split_chars(v, '\n');
    let ghost pieces = views(ls@);
    assert(pieces.len() == ls@.len());
    let last = ls.len() - 1;
    assert(pieces[last as int] == ls@[last as int]@);
    if ls[last].len() == 0 {
        ls.pop();
        assert(views(ls@) =~= pieces.drop_last());
    }
    let ghost all = views(ls@);
    assert(all == feed_lines(v@));
    let mut out: Vec<char> = Vec::new();
    let mut i: usize = 0;
    assert(all.take(0) =~= Seq::<Seq<char>>::empty());
    while i < ls.len()
        invariant
            i <= ls.len(),
            all == views(ls@),
            out@ == joined_lines(all.take(i as int)),
        decreases ls.len() - i,
    {
        proof {
            assert(all.take(i + 1).drop_last() =~= all.take(i as int));
            assert(all.take(i + 1).last() == ls@[i as int]@);
        }
        let mut t = trimmed(&ls[i]);
        if t.len() > 0 {
            let ghost before = out@;
            if out.len() > 0 {
                out.push(' ');
            }
            out.append(&mut t);
            assert(out@ =~= joined_lines(all.take(i + 1)));
        }
        i += 1;
    }
    assert(all.take(all.len() as int) =~= all);
    out
}

impl Restriction {
    /// Reads a restriction from the sentence that states it.
    pub fn from_str(s: &str) -> (r: Result<Restriction, String>)
        ensures
            restriction_outcome(r) == restriction_of(s@),
    {
        let v = chars_of(s);
        let prefix = chars_of("Some reservations are for ");
        if !has_at(&v, 0, &prefix) {
            assert(v@.subrange(0, prefix@.len() as int) =~= v@.take(prefix@.len() as int));
            return Err("Missing expected prefix".to_owned());
        }
        assert(v@.subrange(0, prefix@.len() as int) =~= v@.take(prefix@.len() as int));
        let rest = subvec(&v, prefix.len(), v.len());
        assert(rest@ =~= v@.skip(prefix@.len() as int));
        let content = trimmed(&rest);
        let major_pat = chars_of(" with a primary major in ");
        match split_once_chars(&content, &major_pat) {
            Some((who, major)) => {
                return restriction_for_chars(
                    &trimmed(&who),
                    ReservationType::PrimaryMajor(string_of(&trimmed(&major))),
                );
            },
            None => {},
        }
        let school_pat = chars_of(" in ");
        match split_once_chars(&content, &school_pat) {
            Some((who, school)) => {
                return restriction_for_chars(
                    &trimmed(&who),
                    ReservationType::School(string_of(&trimmed(&school))),
                );
            },
            None => {},
        }
        match StudentType::from_chars(&content) {
            Ok(t) => Ok(
                Restriction {
                    student_type: Some(t),
                    restriction_type: Some(ReservationType::StudentType),
                },
            ),
            Err(_) => {
                let mut message = chars_of("Unable to parse reservation: ");
                let mut line = join_lines(&v);
                message.append(&mut line);
                Err(string_of(&message))
            },
        }
    }

    /// The restriction in words.
    pub fn to_string(&self) -> (r: String)
        ensures
            r@ == self@.text(),
    {
        match (&self.student_type, &self.restriction_type) {
            (Some(who), Some(by)) => {
                let mut out = chars_of(who.as_str());
                out.push(' ');
                let by_text = by.to_string();
                let mut rest = chars_of(by_text.as_str());
                out.append(&mut rest);
                assert(out@ =~= self@.text());
                string_of(&out)
            },
            _ => "Unknown restriction".to_owned(),
        }
    }

    /// The restriction that stands for a sentence that could not be read.
    pub fn unknown() -> (r: Restriction)
        ensures
            r@ == (RestrictionView { student_type: None, restriction_type: None }),
    {
        Restriction { student_type: None, restriction_type: None }
    }
}

/// The group and the major of a sentence of the form
/// `Students with a primary major in INFOSYS`, each trimmed.
pub fn parse_primary_major_pattern(content: &str) -> (r: Option<(String, String)>)
    ensures
        (match r {
            Some((a, b)) => Some((a@, b@)),
            None => None,
        }) == trimmed_sides(split_once(content@, " with a primary major in "@)),
{
    let v = chars_of(content);
    let pat = chars_of(" with a primary major in ");
    match split_once_chars(&v, &pat) {
        Some((a, b)) => Some((string_of(&trimmed(&a)), string_of(&trimmed(&b)))),
        None => None,
    }
}

/// The group and the school of a sentence of the form `Freshmen in SCS`,
/// each trimmed.
pub fn parse_school_pattern(content: &str) -> (r: Option<(String, String)>)
    ensures
        (match r {
            Some((a, b)) => Some((a@, b@)),
            None => None,
        }) == trimmed_sides(split_once(content@, " in "@)),
{
    let v = chars_of(content);
    let pat = chars_of(" in ");
    match split_once_chars(&v, &pat) {
        Some((a, b)) => Some((string_of(&trimmed(&a)), string_of(&trimmed(&b)))),
        None => None,
    }
}

/// Both sides of a split, trimmed.
pub open spec fn trimmed_sides(sides: Option<(Seq<char>, Seq<char>)>) -> Option<
    (Seq<char>, Seq<char>),
> {
    match sides {
        Some((a, b)) => Some((trim(a), trim(b))),
        None => None,
    }
}

} // verus!
