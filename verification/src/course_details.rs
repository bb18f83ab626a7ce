//! What a course's detail page adds to the schedule: texts tidied for
//! keeping, the special-permission flag, prerequisites, and the reservations
//! of its sections.

use crate::course_data::CourseEntry;
use crate::requisite::{optional_view, parse_expr, parse_requirements, Expr, ExprView};
use crate::reservation::{
    restriction_of, restriction_views, Reservation, ReservationView, Restriction, RestrictionView,
};
use crate::text::{
    chars_of, lowered, lowered_chars, same_text, spells, string_of, texts, trim, trimmed,
};
use vstd::prelude::*;

verus! {

// ---------------------------------------------------------------------------
// Texts
// ---------------------------------------------------------------------------

/// What `regex::Regex::replace_all` makes of `text` with the pattern
/// `pattern` and the replacement `with`; `None` where `regex::Regex::new`
/// does not take the pattern.
pub uninterp spec fn regex_replaced(pattern: Seq<char>, text: Seq<char>, with: Seq<char>)
    -> Option<Seq<char>>;

/// The pattern of line breaks with the white space after them.
pub open spec fn line_breaks() -> Seq<char> {
    "[\r\n]+\\s*"@
}

/// The pattern of a run of white space.
pub open spec fn white_space() -> Seq<char> {
    "\\s+"@
}

/// `regex::Regex::new` on `pattern` and `Regex::replace_all` on `text` with
/// the replacement `with`. The result is named, not described; `None`
/// stands for the error of `Regex::new`.
#[verifier::external_body]
fn replace_all(pattern: &str, text: &str, with: &str) -> (r: Option<String>)
    ensures
        (match r {
            Some(s) => Some(s@),
            None => None,
        }) == regex_replaced(pattern@, text@, with@),
{
    match regex::Regex::new(pattern) {
        Ok(re) => Some(re.replace_all(text, with).into_owned()),
        Err(_) => None,
    }
}

/// A text as it is kept: not where it is missing, empty or the word `None`.
pub open spec fn kept(text: Option<Seq<char>>) -> Option<Seq<char>> {
    match text {
        Some(t) => if t.len() == 0 || t == "None"@ {
            None
        } else {
            Some(t)
        },
        None => None,
    }
}

/// The trimmed text `s` with its line breaks, and the white space after
/// them, taken out.
pub open spec fn unbroken(s: Seq<char>) -> Option<Seq<char>> {
    regex_replaced(line_breaks(), trim(s), Seq::empty())
}

/// `s` with each run of white space made one space.
pub open spec fn single_spaced(s: Option<Seq<char>>) -> Option<Seq<char>> {
    match s {
        Some(t) => regex_replaced(white_space(), t, seq![' ']),
        None => None,
    }
}

/// The text `s` tidied for keeping: trimmed, without line breaks, with
/// single spaces; nothing where that leaves nothing or the word `None`.
pub open spec fn tidy(s: Seq<char>) -> Option<Seq<char>> {
    kept(single_spaced(unbroken(s)))
}

/// Keeps a text unless it is missing, empty or the word `None`.
pub fn keep_text(text: Option<String>) -> (r: Option<String>)
    ensures
        (match r {
            Some(s) => Some(s@),
            None => None,
        }) == kept(
            match text {
                Some(s) => Some(s@),
                None => None,
            },
        ),
{
    match text {
        Some(t) => {
            if t.as_str().is_empty() || same_text(t.as_str(), "None") {
                None
            } else {
                Some(t)
            }
        },
        None => None,
    }
}

/// Tidies a text of a detail page for keeping.
pub fn tidy_text(s: &str) -> (r: Option<String>)
    ensures
        (match r {
            Some(t) => Some(t@),
            None => None,
        }) == tidy(s@),
{
    let v = chars_of(s);
    let t = string_of(&trimmed(&v));
    proof {
        reveal_strlit("");
        reveal_strlit(" ");
        assert(""@ =~= Seq::<char>::empty());
        assert(" "@ =~= seq![' ']);
    }
    let joined = match replace_all("[\r\n]+\\s*", t.as_str(), "") {
        Some(a) => replace_all("\\s+", a.as_str(), " "),
        None => None,
    };
    keep_text(joined)
}

// ---------------------------------------------------------------------------
// Special permission and prerequisites
// ---------------------------------------------------------------------------

/// Whether the answer `s` says yes, whatever its case and the white space
/// around it.
pub open spec fn says_yes(s: Seq<char>) -> bool {
    lowered(trim(s)) == "yes"@
}

/// Whether a course needs special permission, going by the page's answer.
pub fn special_permission(answer: &str) -> (r: bool)
    ensures
        r == says_yes(answer@),
{
    let v = chars_of(answer);
    let low = lowered_chars(&trimmed(&v));
    spells(&low, "yes")
}

/// The prerequisites that `s` states: those of the trimmed text, or none
/// where it is no expression.
pub open spec fn prerequisites_of(s: Seq<char>) -> Option<ExprView> {
    match parse_expr(trim(s)) {
        Ok(e) => Some(e),
        Err(_) => None,
    }
}

/// Reads the prerequisites of a course; none where the text states none
/// that can be read.
pub fn parse_prerequisites(text: &str) -> (r: Option<Expr>)
    ensures
        optional_view(r) == prerequisites_of(text@),
{
    let v = chars_of(text);
    let t = string_of(&trimmed(&v));
    match parse_requirements(t.as_str()) {
        Ok(e) => Some(e),
        Err(_) => None,
    }
}

// ---------------------------------------------------------------------------
// Reservations
// ---------------------------------------------------------------------------

/// The restriction that `text` states; the unknown restriction where it
/// states none that can be read.
pub open spec fn restriction_or_unknown(text: Seq<char>) -> RestrictionView {
    match restriction_of(text) {
        Ok(r) => r,
        Err(_) => RestrictionView { student_type: None, restriction_type: None },
    }
}

/// The reservations `list` with the restriction `r` added for `section`: to
/// the reservations of that section where it has any, else as the first of
/// a new section, at the end.
pub open spec fn with_restriction(
    list: Seq<ReservationView>,
    section: Seq<char>,
    r: RestrictionView,
) -> Seq<ReservationView>
    decreases list.len(),
{
    if list.len() == 0 {
        seq![ReservationView { section, restrictions: seq![r] }]
    } else if list[0].section == section {
        seq![
            ReservationView { section, restrictions: list[0].restrictions.push(r) },
        ] + list.drop_first()
    } else {
        seq![list[0]] + with_restriction(list.drop_first(), section, r)
    }
}

/// The reservations that the rows of a table state, each row a section and
/// a restriction. Rows of which either is blank count for nothing. The
/// sections stand in the order in which they first occur, the restrictions
/// of each in the order of the rows.
pub open spec fn gathered(rows: Seq<(Seq<char>, Seq<char>)>) -> Seq<ReservationView>
    decreases rows.len(),
{
    if rows.len() == 0 {
        Seq::empty()
    } else {
        let section = trim(rows.last().0);
        let text = trim(rows.last().1);
        if section.len() == 0 || text.len() == 0 {
            gathered(rows.drop_last())
        } else {
            with_restriction(gathered(rows.drop_last()), section, restriction_or_unknown(text))
        }
    }
}

/// The views of a sequence of reservations.
pub open spec fn reservation_views(rs: Seq<Reservation>) -> Seq<ReservationView> {
    Seq::new(rs.len(), |i: int| rs[i]@)
}

/// The views of a sequence of rows.
pub open spec fn row_views(rows: Seq<(String, String)>) -> Seq<(Seq<char>, Seq<char>)> {
    Seq::new(rows.len(), |i: int| (rows[i].0@, rows[i].1@))
}

/// `with_restriction` changes the reservation at index `k` where that is the
/// first of the section, and adds one at the end where there is none.
proof fn lemma_with_restriction(
    list: Seq<ReservationView>,
    section: Seq<char>,
    r: RestrictionView,
    k: int,
)
    requires
        0 <= k <= list.len(),
        forall|j: int| 0 <= j < k ==> (#[trigger] list[j]).section != section,
        k < list.len() ==> list[k].section == section,
    ensures
        k < list.len() ==> with_restriction(list, section, r) == list.update(
            k,
            ReservationView { section, restrictions: list[k].restrictions.push(r) },
        ),
        k == list.len() ==> with_restriction(list, section, r) == list.push(
            ReservationView { section, restrictions: seq![r] },
        ),
    decreases k,
{
    if list.len() == 0 {
        assert(list.push(ReservationView { section, restrictions: seq![r] }) =~= seq![
            ReservationView { section, restrictions: seq![r] },
        ]);
    } else if k == 0 {
        assert(seq![ReservationView { section, restrictions: list[0].restrictions.push(r) }]
            + list.drop_first() =~= list.update(
            0,
            ReservationView { section, restrictions: list[0].restrictions.push(r) },
        ));
    } else {
        let rest = list.drop_first();
        assert(list[0].section != section);
        assert forall|j: int| 0 <= j < k - 1 implies (#[trigger] rest[j]).section != section by {
            assert(rest[j] == list[j + 1]);
        }
        lemma_with_restriction(rest, section, r, k - 1);
        if k < list.len() {
            assert(seq![list[0]] + rest.update(
                k - 1,
                ReservationView { section, restrictions: rest[k - 1].restrictions.push(r) },
            ) =~= list.update(
                k,
                ReservationView { section, restrictions: list[k].restrictions.push(r) },
            ));
        } else {
            assert(seq![list[0]] + rest.push(ReservationView { section, restrictions: seq![r] })
                =~= list.push(ReservationView { section, restrictions: seq![r] }));
        }
    }
}

fn add_restriction(list: &mut Vec<Reservation>, section: String, r: Restriction)
    ensures
        reservation_views(final(list)@) == with_restriction(
            reservation_views(old(list)@),
            section@,
            r@,
        ),
{
    let ghost before = reservation_views(list@);
    let mut k: usize = 0;
    while k < list.len()
        invariant
            k <= list.len(),
            list@ == old(list)@,
            before == reservation_views(list@),
            forall|j: int| 0 <= j < k ==> (#[trigger] before[j]).section != section@,
        ensures
            k < list.len() ==> before[k as int].section == section@,
        decreases list.len() - k,
    {
        if list[k].section == section {
            assert(before[k as int] == list@[k as int]@);
            break ;
        }
        assert(before[k as int] == list@[k as int]@);
        k += 1;
    }
    proof {
        lemma_with_restriction(before, section@, r@, k as int);
    }
    if k < list.len() {
        let mut found = list.remove(k);
        let ghost old_restrictions = restriction_views(found.restrictions@);
        found.restrictions.push(r);
        assert(restriction_views(found.restrictions@) =~= old_restrictions.push(r@));
        list.insert(k, found);
        assert(reservation_views(list@) =~= before.update(
            k as int,
            ReservationView { section: section@, restrictions: old_restrictions.push(r@) },
        ));
    } else {
        let mut restrictions: Vec<Restriction> = Vec::new();
        restrictions.push(r);
        assert(restriction_views(restrictions@) =~= seq![r@]);
        list.push(Reservation { section, restrictions });
        assert(reservation_views(list@) =~= before.push(
            ReservationView { section: section@, restrictions: seq![r@] },
        ));
    }
}

/// Gathers the reservations of a course from the rows of its reservation
/// table, each row the text of a section and of a restriction.
pub fn gather_reservations(rows: &Vec<(String, String)>) -> (r: Vec<Reservation>)
    ensures
        reservation_views(r@) == gathered(row_views(rows@)),
{
    let ghost all = row_views(rows@);
    let mut out: Vec<Reservation> = Vec::new();
    let mut i: usize = 0;
    assert(all.take(0) =~= Seq::<(Seq<char>, Seq<char>)>::empty());
    assert(reservation_views(out@) =~= Seq::<ReservationView>::empty());
    while i < rows.len()
        invariant
            i <= rows.len(),
            all == row_views(rows@),
            reservation_views(out@) == gathered(all.take(i as int)),
        decreases rows.len() - i,
    {
        proof {
            assert(all.take(i + 1).drop_last() =~= all.take(i as int));
            assert(all.take(i + 1).last() == (rows@[i as int].0@, rows@[i as int].1@));
        }
        let section = trimmed(&chars_of(rows[i].0.as_str()));
        let text = trimmed(&chars_of(rows[i].1.as_str()));
        if section.len() > 0 && text.len() > 0 {
            let text = string_of(&text);
            let restriction = match Restriction::from_str(text.as_str()) {
                Ok(r) => r,
                Err(_) => Restriction::unknown(),
            };
            add_restriction(&mut out, string_of(&section), restriction);
        }
        i += 1;
    }
    assert(all.take(all.len() as int) =~= all);
    out
}

/// A table of a detail page: the texts of its header cells, and of the cells
/// of each of its rows.
#[derive(Debug, Clone, PartialEq, Eq)]
pub struct PageTable {
    pub headers: Vec<String>,
    pub rows: Vec<Vec<String>>,
}

/// The mathematical value of a `PageTable`.
pub struct PageTableView {
    pub headers: Seq<Seq<char>>,
    pub rows: Seq<Seq<Seq<char>>>,
}

/// The views of a sequence of rows of cells.
pub open spec fn cell_views(rows: Seq<Vec<String>>) -> Seq<Seq<Seq<char>>> {
    Seq::new(rows.len(), |i: int| texts(rows[i]@))
}

impl View for PageTable {
    type V = PageTableView;

    open spec fn view(&self) -> PageTableView {
        PageTableView { headers: texts(self.headers@), rows: cell_views(self.rows@) }
    }
}

/// The views of a sequence of tables.
pub open spec fn table_views(tables: Seq<PageTable>) -> Seq<PageTableView> {
    Seq::new(tables.len(), |i: int| tables[i]@)
}

/// Whether one of `headers`, trimmed and in small letters, is `name`.
pub open spec fn has_header(headers: Seq<Seq<char>>, name: Seq<char>) -> bool {
    exists|i: int| 0 <= i < headers.len() && lowered(trim(#[trigger] headers[i])) == name
}

/// Whether a table lists reservations: it has a header `section` and a
/// header `restriction`.
pub open spec fn lists_reservations(table: PageTableView) -> bool {
    has_header(table.headers, "section"@) && has_header(table.headers, "restriction"@)
}

/// The first two cells of each of `rows` that has two or more, in order.
pub open spec fn first_two_cells(rows: Seq<Seq<Seq<char>>>) -> Seq<(Seq<char>, Seq<char>)>
    decreases rows.len(),
{
    if rows.len() == 0 {
        Seq::empty()
    } else if rows.last().len() >= 2 {
        first_two_cells(rows.drop_last()).push((rows.last()[0], rows.last()[1]))
    } else {
        first_two_cells(rows.drop_last())
    }
}

/// The rows of section and restriction of the first of `tables` that lists
/// reservations; none where no table does.
pub open spec fn reservation_rows(tables: Seq<PageTableView>) -> Seq<(Seq<char>, Seq<char>)>
    decreases tables.len(),
{
    if tables.len() == 0 {
        Seq::empty()
    } else if lists_reservations(tables[0]) {
        first_two_cells(tables[0].rows)
    } else {
        reservation_rows(tables.drop_first())
    }
}

fn header_among(headers: &Vec<String>, name: &str) -> (r: bool)
    ensures
        r == has_header(texts(headers@), name@),
{
    let ghost all = texts(headers@);
    let mut i: usize = 0;
    while i < headers.len()
        invariant
            i <= headers.len(),
            all == texts(headers@),
            forall|j: int| 0 <= j < i ==> lowered(trim(#[trigger] all[j])) != name@,
        decreases headers.len() - i,
    {
        assert(all[i as int] == headers@[i as int]@);
        let low = lowered_chars(&trimmed(&chars_of(headers[i].as_str())));
        if spells(&low, name) {
            return true;
        }
        i += 1;
    }
    false
}

fn two_cells_of(rows: &Vec<Vec<String>>) -> (r: Vec<(String, String)>)
    ensures
        row_views(r@) == first_two_cells(cell_views(rows@)),
{
    let ghost all = cell_views(rows@);
    let mut out: Vec<(String, String)> = Vec::new();
    let mut i: usize = 0;
    assert(all.take(0) =~= Seq::<Seq<Seq<char>>>::empty());
    assert(row_views(out@) =~= Seq::<(Seq<char>, Seq<char>)>::empty());
    while i < rows.len()
        invariant
            i <= rows.len(),
            all == cell_views(rows@),
            row_views(out@) == first_two_cells(all.take(i as int)),
        decreases rows.len() - i,
    {
        proof {
            assert(all.take(i + 1).drop_last() =~= all.take(i as int));
            assert(all.take(i + 1).last() == texts(rows@[i as int]@));
        }
        let row = &rows[i];
        if row.len() >= 2 {
            let ghost before = row_views(out@);
            let pair = (row[0].clone(), row[1].clone());
            out.push(pair);
            assert(row_views(out@) =~= before.push((row@[0]@, row@[1]@)));
        }
        i += 1;
    }
    assert(all.take(all.len() as int) =~= all);
    out
}

/// The reservations of a course, going by the tables of its detail page:
/// those of the first table with the headers `section` and `restriction`.
pub fn parse_reservations(tables: &Vec<PageTable>) -> (r: Vec<Reservation>)
    ensures
        reservation_views(r@) == gathered(reservation_rows(table_views(tables@))),
{
    let ghost all = table_views(tables@);
    let mut i: usize = 0;
    assert(all.skip(0) =~= all);
    while i < tables.len()
        invariant
            i <= tables.len(),
            all == table_views(tables@),
            reservation_rows(all) == reservation_rows(all.skip(i as int)),
        decreases tables.len() - i,
    {
        let table = &tables[i];
        proof {
            assert(all.skip(i as int)[0] == table@);
            assert(all.skip(i as int).drop_first() =~= all.skip(i + 1));
        }
        if header_among(&table.headers, "section") && header_among(&table.headers, "restriction") {
            let rows = two_cells_of(&table.rows);
            return gather_reservations(&rows);
        }
        i += 1;
    }
    let none: Vec<(String, String)> = Vec::new();
    assert(row_views(none@) =~= Seq::<(Seq<char>, Seq<char>)>::empty());
    gather_reservations(&none)
}

// ---------------------------------------------------------------------------
// Metadata
// ---------------------------------------------------------------------------

/// What a course's detail page adds to its entry in the schedule.
#[derive(Debug, Clone, PartialEq, Eq)]
pub struct CourseMetadata {
    /// Links given on the page.
    pub related_urls: Vec<String>,
    /// Whether the course needs special permission.
    pub special_permission: bool,
    /// The description of the course.
    pub description: Option<String>,
    /// The prerequisites of the course.
    pub prerequisites: Option<Expr>,
    /// The corequisites of the course.
    pub corequisites: Vec<String>,
    /// The courses with which it is cross-listed.
    pub crosslisted: Vec<String>,
    /// Notes on the course.
    pub notes: Option<String>,
    /// The reservations of its sections.
    pub reservations: Vec<Reservation>,
}

/// The mathematical value of a `CourseMetadata`.
pub struct CourseMetadataView {
    pub related_urls: Seq<Seq<char>>,
    pub special_permission: bool,
    pub description: Option<Seq<char>>,
    pub prerequisites: Option<ExprView>,
    pub corequisites: Seq<Seq<char>>,
    pub crosslisted: Seq<Seq<char>>,
    pub notes: Option<Seq<char>>,
    pub reservations: Seq<ReservationView>,
}

/// The view of a string that may be missing.
pub open spec fn optional_text(s: Option<String>) -> Option<Seq<char>> {
    match s {
        Some(t) => Some(t@),
        None => None,
    }
}

impl View for CourseMetadata {
    type V = CourseMetadataView;

    open spec fn view(&self) -> CourseMetadataView {
        CourseMetadataView {
            related_urls: texts(self.related_urls@),
            special_permission: self.special_permission,
            description: optional_text(self.description),
            prerequisites: optional_view(self.prerequisites),
            corequisites: texts(self.corequisites@),
            crosslisted: texts(self.crosslisted@),
            notes: optional_text(self.notes),
            reservations: reservation_views(self.reservations@),
        }
    }
}

/// A course with what its detail page adds, where the page could be had.
#[derive(Debug, Clone, PartialEq, Eq)]
pub struct CourseObject {
    /// The course as the schedule lists it.
    pub course: CourseEntry,
    /// What the detail page adds.
    pub metadata: Option<CourseMetadata>,
}

/// What was taken from a course's detail page, as it stood there.
#[derive(Debug, Clone, PartialEq, Eq)]
pub struct DetailPage {
    /// The answer to whether special permission is needed.
    pub special_permission: Option<String>,
    pub description: Option<String>,
    pub prerequisites: Option<String>,
    pub corequisites: Vec<String>,
    pub crosslisted: Vec<String>,
    pub notes: Option<String>,
    pub related_urls: Vec<String>,
    /// The tables of the page.
    pub tables: Vec<PageTable>,
}

/// The mathematical value of a `DetailPage`.
pub struct DetailPageView {
    pub special_permission: Option<Seq<char>>,
    pub description: Option<Seq<char>>,
    pub prerequisites: Option<Seq<char>>,
    pub corequisites: Seq<Seq<char>>,
    pub crosslisted: Seq<Seq<char>>,
    pub notes: Option<Seq<char>>,
    pub related_urls: Seq<Seq<char>>,
    pub tables: Seq<PageTableView>,
}

impl View for DetailPage {
    type V = DetailPageView;

    open spec fn view(&self) -> DetailPageView {
        DetailPageView {
            special_permission: optional_text(self.special_permission),
            description: optional_text(self.description),
            prerequisites: optional_text(self.prerequisites),
            corequisites: texts(self.corequisites@),
            crosslisted: texts(self.crosslisted@),
            notes: optional_text(self.notes),
            related_urls: texts(self.related_urls@),
            tables: table_views(self.tables@),
        }
    }
}

/// The text `s` tidied for keeping, where there is one.
pub open spec fn tidy_if_any(s: Option<Seq<char>>) -> Option<Seq<char>> {
    match s {
        Some(t) => tidy(t),
        None => None,
    }
}

/// What a detail page says of its course: special permission is needed
/// where the page says yes; description and notes are tidied; the
/// prerequisites and the reservations are read; the rest is taken as it
/// stands.
pub open spec fn metadata_of(page: DetailPageView) -> CourseMetadataView {
    CourseMetadataView {
        related_urls: page.related_urls,
        special_permission: match page.special_permission {
            Some(answer) => says_yes(answer),
            None => false,
        },
        description: tidy_if_any(page.description),
        prerequisites: match page.prerequisites {
            Some(text) => prerequisites_of(text),
            None => None,
        },
        corequisites: page.corequisites,
        crosslisted: page.crosslisted,
        notes: tidy_if_any(page.notes),
        reservations: gathered(reservation_rows(page.tables)),
    }
}

fn tidy_optional(s: &Option<String>) -> (r: Option<String>)
    ensures
        optional_text(r) == tidy_if_any(optional_text(*s)),
{
    match s {
        Some(t) => tidy_text(t.as_str()),
        None => None,
    }
}

/// What a detail page says of its course.
pub fn course_metadata(page: DetailPage) -> (r: CourseMetadata)
    ensures
        r@ == metadata_of(page@),
{
    let special = match &page.special_permission {
        Some(answer) => special_permission(answer.as_str()),
        None => false,
    };
    let prerequisites = match &page.prerequisites {
        Some(text) => parse_prerequisites(text.as_str()),
        None => None,
    };
    let description = tidy_optional(&page.description);
    let notes = tidy_optional(&page.notes);
    let reservations = parse_reservations(&page.tables);
    CourseMetadata {
        related_urls: page.related_urls,
        special_permission: special,
        description,
        prerequisites,
        corequisites: page.corequisites,
        crosslisted: page.crosslisted,
        notes,
        reservations,
    }
}

/// A course with what its detail page says of it, where the page could be
/// had.
pub fn course_object(course: CourseEntry, page: Option<DetailPage>) -> (r: CourseObject)
    ensures
        r.course == course,
        (match r.metadata {
            Some(m) => Some(m@),
            None => None,
        }) == (match page {
            Some(p) => Some(metadata_of(p@)),
            None => None,
        }),
{
    let metadata = match page {
        Some(p) => Some(course_metadata(p)),
        None => None,
    };
    CourseObject { course, metadata }
}

} // verus!
