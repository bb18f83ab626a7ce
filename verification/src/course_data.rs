//! Course records and the parsers of their fields: meeting times, rooms,
//! instructors, component types and course numbers.

use crate::days::Days;
use crate::syllabus_data::{Season, Year};
use crate::text::{
    all_digit_chars, all_digits, chars_of, contains_chars, has_subtext, is_space_char,
    lemma_word_len, spells, split_chars, split_on, string_of, subvec, texts, trim,
    trim_bounds, trim_start, trimmed, views, word_len,
};
use crate::units::{Units, UnitsView};
use vstd::prelude::*;

verus! {

// ---------------------------------------------------------------------------
// Times
// ---------------------------------------------------------------------------

/// A time of day, in seconds since midnight.
#[derive(Debug, Clone, Copy, PartialEq, Eq, Structural, PartialOrd, Ord, Hash)]
pub struct ClockTime {
    pub seconds: u32,
}

/// The time between the beginning and the end of a meeting.
#[derive(Debug, Clone, Copy, PartialEq, Eq, Structural)]
pub struct TimeRange {
    pub begin: ClockTime,
    pub end: ClockTime,
}

/// The format of the feed's times: hour of a twelve-hour clock, minute, and
/// `AM` or `PM`, as in `09:30AM`.
pub open spec fn clock_format() -> Seq<char> {
    "%I:%M%p"@
}

/// What `chrono::NaiveTime::parse_from_str` makes of `text` under `format`,
/// in seconds since midnight; `None` where it returns an error.
pub uninterp spec fn clock_text_seconds(text: Seq<char>, format: Seq<char>) -> Option<u32>;

/// The time of day that `text` denotes in the feed's format.
pub open spec fn clock_time_of(text: Seq<char>) -> Option<ClockTime> {
    match clock_text_seconds(text, clock_format()) {
        Some(seconds) => Some(ClockTime { seconds }),
        None => None,
    }
}

/// The range from `begin` to `end` where both are times of day and `begin`
/// is the earlier.
pub open spec fn time_range_between(begin: Option<ClockTime>, end: Option<ClockTime>) -> Option<
    TimeRange,
> {
    if begin is Some && end is Some && begin->0.seconds < end->0.seconds {
        Some(TimeRange { begin: begin->0, end: end->0 })
    } else {
        None
    }
}

/// `chrono::NaiveTime::parse_from_str` on `text` with the feed's time
/// format, and `Timelike::num_seconds_from_midnight` on what it returns.
/// The result is named, not described; what is claimed of it is that a time
/// of day is less than a day's 86400 seconds.
#[verifier::external_body]
fn parse_clock(text: &str, format: &str) -> (r: Option<u32>)
    requires
        format@ == clock_format(),
    ensures
        r == clock_text_seconds(text@, format@),
        r matches Some(seconds) ==> seconds < 86_400,
{
    match chrono::NaiveTime::parse_from_str(text, format) {
        Ok(time) => Some(chrono::Timelike::num_seconds_from_midnight(&time)),
        Err(_) => None,
    }
}

impl ClockTime {
    /// Whether the time lies within one day.
    pub open spec fn wf(self) -> bool {
        self.seconds < 86_400
    }

    /// The time `hour:min:sec`, where each part is in range.
    pub fn from_hms_opt(hour: u32, min: u32, sec: u32) -> (r: Option<ClockTime>)
        ensures
            r == (if hour < 24 && min < 60 && sec < 60 {
                Some(ClockTime { seconds: (hour * 3600 + min * 60 + sec) as u32 })
            } else {
                None
            }),
            r matches Some(t) ==> t.wf(),
    {
        if hour < 24 && min < 60 && sec < 60 {
            Some(ClockTime { seconds: hour * 3600 + min * 60 + sec })
        } else {
            None
        }
    }

    /// The hour of the day.
    pub fn hour(&self) -> (r: u32)
        ensures
            r == self.seconds / 3600,
    {
        self.seconds / 3600
    }

    /// The minute of the hour.
    pub fn minute(&self) -> (r: u32)
        ensures
            r == self.seconds / 60 % 60,
    {
        self.seconds / 60 % 60
    }

    /// The second of the minute.
    pub fn second(&self) -> (r: u32)
        ensures
            r == self.seconds % 60,
    {
        self.seconds % 60
    }

    /// Reads a time of day in the feed's format, such as `09:30AM`.
    pub fn from_str(text: &str) -> (r: Option<ClockTime>)
        ensures
            r == clock_time_of(text@),
            r matches Some(t) ==> t.wf(),
    {
        match parse_clock(text, "%I:%M%p") {
            Some(seconds) => Some(ClockTime { seconds }),
            None => None,
        }
    }
}

impl TimeRange {
    /// Whether the range begins before it ends.
    pub open spec fn wf(self) -> bool {
        self.begin.seconds < self.end.seconds
    }

    /// The range from `begin` to `end`, where `begin` is the earlier.
    pub fn new(begin: ClockTime, end: ClockTime) -> (r: Option<TimeRange>)
        ensures
            r == time_range_between(Some(begin), Some(end)),
            r matches Some(t) ==> t.wf(),
    {
        if begin.seconds < end.seconds {
            Some(TimeRange { begin, end })
        } else {
            None
        }
    }

    /// The range between two times that may be missing: none where either is
    /// missing or `begin` is not the earlier.
    pub fn between(begin: Option<ClockTime>, end: Option<ClockTime>) -> (r: Option<TimeRange>)
        ensures
            r == time_range_between(begin, end),
            r matches Some(t) ==> t.wf(),
    {
        match (begin, end) {
            (Some(b), Some(e)) => TimeRange::new(b, e),
            _ => None,
        }
    }

    /// Reads two times of day in the feed's format and gives the range from
    /// the first to the second.
    pub fn from_strings(begin: &str, end: &str) -> (r: Option<TimeRange>)
        ensures
            r == time_range_between(clock_time_of(begin@), clock_time_of(end@)),
            r matches Some(t) ==> t.wf(),
    {
        TimeRange::between(ClockTime::from_str(begin), ClockTime::from_str(end))
    }
}

// ---------------------------------------------------------------------------
// Rooms
// ---------------------------------------------------------------------------

/// Where a meeting takes place.
#[derive(Debug, Clone, PartialEq, Eq)]
pub enum BuildingRoom {
    ToBeAnnounced,
    ToBeDetermined,
    DoesNotMeet,
    OffPitt,
    Remote,
    /// A building and a room in it.
    Specific(String, String),
}

/// The mathematical value of a `BuildingRoom`.
pub enum BuildingRoomView {
    ToBeAnnounced,
    ToBeDetermined,
    DoesNotMeet,
    OffPitt,
    Remote,
    Specific(Seq<char>, Seq<char>),
}

impl View for BuildingRoom {
    type V = BuildingRoomView;

    open spec fn view(&self) -> BuildingRoomView {
        match self {
            BuildingRoom::ToBeAnnounced => BuildingRoomView::ToBeAnnounced,
            BuildingRoom::ToBeDetermined => BuildingRoomView::ToBeDetermined,
            BuildingRoom::DoesNotMeet => BuildingRoomView::DoesNotMeet,
            BuildingRoom::OffPitt => BuildingRoomView::OffPitt,
            BuildingRoom::Remote => BuildingRoomView::Remote,
            BuildingRoom::Specific(b, r) => BuildingRoomView::Specific(b@, r@),
        }
    }
}

/// The place that `s` denotes. A fixed phrase, spelled exactly, denotes a
/// place that is no room. Any other text is a building, up to its first
/// white space, and a room, which is the rest without the white space
/// around it.
pub open spec fn building_room_of(s: Seq<char>) -> BuildingRoomView {
    if s == "TBA"@ {
        BuildingRoomView::ToBeAnnounced
    } else if s == "TBD TBD"@ || s == "TBD"@ {
        BuildingRoomView::ToBeDetermined
    } else if s == "DNM DNM"@ || s == "DNM"@ {
        BuildingRoomView::DoesNotMeet
    } else if s == "OFF PITT"@ {
        BuildingRoomView::OffPitt
    } else if s == "CMU REMOTE"@ || s == "REMOTE"@ {
        BuildingRoomView::Remote
    } else {
        let t = trim(s);
        let n = word_len(t) as int;
        BuildingRoomView::Specific(t.take(n), trim_start(t.skip(n)))
    }
}

impl BuildingRoomView {
    /// The text of the place: the short form of a fixed phrase, or the
    /// building, a space and the room.
    pub open spec fn text(self) -> Seq<char> {
        match self {
            BuildingRoomView::ToBeAnnounced => "TBA"@,
            BuildingRoomView::ToBeDetermined => "TBD"@,
            BuildingRoomView::DoesNotMeet => "DNM"@,
            BuildingRoomView::OffPitt => "OFF PITT"@,
            BuildingRoomView::Remote => "REMOTE"@,
            BuildingRoomView::Specific(b, r) => b + seq![' '] + r,
        }
    }
}

impl BuildingRoom {
    /// Reads a place from characters.
    pub fn from_chars(v: &Vec<char>) -> (r: BuildingRoom)
        ensures
            r@ == building_room_of(v@),
    {
        if spells(v, "TBA") {
            BuildingRoom::ToBeAnnounced
        } else if spells(v, "TBD TBD") || spells(v, "TBD") {
            BuildingRoom::ToBeDetermined
        } else if spells(v, "DNM DNM") || spells(v, "DNM") {
            BuildingRoom::DoesNotMeet
        } else if spells(v, "OFF PITT") {
            BuildingRoom::OffPitt
        } else if spells(v, "CMU REMOTE") || spells(v, "REMOTE") {
            BuildingRoom::Remote
        } else {
            let t = trimmed(v);
            let n = t.len();
            let mut i: usize = 0;
            while i < n && !is_space_char(t[i])
                invariant
                    i <= n == t.len(),
                    forall|j: int| 0 <= j < i ==> !crate::text::is_space(t@[j]),
                decreases n - i,
            {
                i += 1;
            }
            proof {
                lemma_word_len(t@, i as int);
            }
            let building = subvec(&t, 0, i);
            let rest = subvec(&t, i, n);
            let (lo, _) = trim_bounds(&rest);
            let room = subvec(&rest, lo, rest.len());
            proof {
                assert(t@.subrange(0, i as int) =~= t@.take(i as int));
                assert(t@.subrange(i as int, n as int) =~= t@.skip(i as int));
                assert(rest@.subrange(lo as int, rest@.len() as int) =~= rest@.skip(lo as int));
            }
            BuildingRoom::Specific(string_of(&building), string_of(&room))
        }
    }

    /// Reads a place, such as `GHC 4102`, `TBA` or `DNM DNM`.
    pub fn from_str(bldg_room: &str) -> (r: Result<BuildingRoom, ()>)
        ensures
            r is Ok,
            r->Ok_0@ == building_room_of(bldg_room@),
    {
        let v = chars_of(bldg_room);
        Ok(BuildingRoom::from_chars(&v))
    }

    /// The text of the place.
    pub fn to_string(&self) -> (r: String)
        ensures
            r@ == self@.text(),
    {
        match self {
            BuildingRoom::ToBeAnnounced => "TBA".to_owned(),
            BuildingRoom::ToBeDetermined => "TBD".to_owned(),
            BuildingRoom::DoesNotMeet => "DNM".to_owned(),
            BuildingRoom::OffPitt => "OFF PITT".to_owned(),
            BuildingRoom::Remote => "REMOTE".to_owned(),
            BuildingRoom::Specific(b, r) => {
                let mut out = chars_of(b.as_str());
                out.push(' ');
                let mut room = chars_of(r.as_str());
                out.append(&mut room);
                assert(out@ =~= self@.text());
                string_of(&out)
            },
        }
    }

    /// A copy of the place.
    pub fn duplicate(&self) -> (r: BuildingRoom)
        ensures
            r@ == self@,
    {
        match self {
            BuildingRoom::ToBeAnnounced => BuildingRoom::ToBeAnnounced,
            BuildingRoom::ToBeDetermined => BuildingRoom::ToBeDetermined,
            BuildingRoom::DoesNotMeet => BuildingRoom::DoesNotMeet,
            BuildingRoom::OffPitt => BuildingRoom::OffPitt,
            BuildingRoom::Remote => BuildingRoom::Remote,
            BuildingRoom::Specific(b, r) => BuildingRoom::Specific(b.clone(), r.clone()),
        }
    }
}

// ---------------------------------------------------------------------------
// Instructors
// ---------------------------------------------------------------------------

/// The instructors of a meeting, if any are named.
#[derive(Debug, Clone, PartialEq, Eq)]
pub struct Instructors(pub Option<Vec<String>>);

/// Each text of `parts` without the white space around it.
pub open spec fn trim_each(parts: Seq<Seq<char>>) -> Seq<Seq<char>> {
    Seq::new(parts.len(), |i: int| trim(parts[i]))
}

/// The instructors that `s` names: none where `s` is empty or white space
/// only, else the trimmed texts between its commas.
pub open spec fn instructors_of(s: Seq<char>) -> Option<Seq<Seq<char>>> {
    if trim(s).len() == 0 {
        None
    } else {
        Some(trim_each(split_on(s, ',')))
    }
}

impl View for Instructors {
    type V = Option<Seq<Seq<char>>>;

    open spec fn view(&self) -> Option<Seq<Seq<char>>> {
        match self.0 {
            Some(names) => Some(texts(names@)),
            None => None,
        }
    }
}

/// A copy of a list of strings.
pub fn duplicate_strings(names: &Vec<String>) -> (r: Vec<String>)
    ensures
        texts(r@) == texts(names@),
{
    let mut out: Vec<String> = Vec::new();
    let mut i: usize = 0;
    while i < names.len()
        invariant
            i <= names.len(),
            out@.len() == i,
            forall|j: int| 0 <= j < i ==> out@[j]@ == names@[j]@,
        decreases names.len() - i,
    {
        out.push(names[i].clone());
        i += 1;
    }
    assert(texts(out@) =~= texts(names@));
    out
}

impl Instructors {
    /// Reads a list of instructors from characters.
    pub fn from_chars(v: &Vec<char>) -> (r: Instructors)
        ensures
            r@ == instructors_of(v@),
    {
        let t = trimmed(v);
        if t.len() == 0 {
            return Instructors(None);
        }
        let parts = split_chars(v, ',');
        let mut names: Vec<String> = Vec::new();
        let mut i: usize = 0;
        while i < parts.len()
            invariant
                i <= parts.len(),
                names@.len() == i,
                forall|j: int| 0 <= j < i ==> names@[j]@ == trim(parts@[j]@),
            decreases parts.len() - i,
        {
            let name = trimmed(&parts[i]);
            names.push(string_of(&name));
            i += 1;
        }
        proof {
            let want = trim_each(split_on(v@, ','));
            assert(views(parts@).len() == parts@.len());
            assert forall|j: int| 0 <= j < want.len() implies texts(names@)[j] == want[j] by {
                assert(views(parts@)[j] == parts@[j]@);
            }
            assert(texts(names@) =~= want);
        }
        Instructors(Some(names))
    }

    /// Reads a list of instructors separated by commas.
    pub fn from_str(instructors: &str) -> (r: Result<Instructors, ()>)
        ensures
            r is Ok,
            r->Ok_0@ == instructors_of(instructors@),
    {
        let v = chars_of(instructors);
        Ok(Instructors::from_chars(&v))
    }

    /// The names, if any.
    pub fn names(&self) -> (r: &Option<Vec<String>>)
        ensures
            *r == self.0,
    {
        &self.0
    }

    /// A copy of the list.
    pub fn duplicate(&self) -> (r: Instructors)
        ensures
            r@ == self@,
    {
        match &self.0 {
            Some(names) => Instructors(Some(duplicate_strings(names))),
            None => Instructors(None),
        }
    }
}

// ---------------------------------------------------------------------------
// Meetings and components
// ---------------------------------------------------------------------------

/// One weekly meeting of a component.
#[derive(Debug, Clone, PartialEq, Eq)]
pub struct Meeting {
    /// The days on which it takes place.
    pub days: Days,
    /// When it begins and ends, where that is known.
    pub time: Option<TimeRange>,
    /// Where it takes place.
    pub bldg_room: BuildingRoom,
    /// The campus.
    pub campus: String,
    /// Who teaches it.
    pub instructors: Instructors,
}

/// The mathematical value of a `Meeting`.
pub struct MeetingView {
    pub days: Days,
    pub time: Option<TimeRange>,
    pub bldg_room: BuildingRoomView,
    pub campus: Seq<char>,
    pub instructors: Option<Seq<Seq<char>>>,
}

impl View for Meeting {
    type V = MeetingView;

    open spec fn view(&self) -> MeetingView {
        MeetingView {
            days: self.days,
            time: self.time,
            bldg_room: self.bldg_room@,
            campus: self.campus@,
            instructors: self.instructors@,
        }
    }
}

/// Whether a component is a lecture or a section.
#[derive(Debug, Clone, Copy, PartialEq, Eq, Structural)]
pub enum ComponentType {
    Lecture,
    Section,
}

/// The type of the component with the code `s`: a lecture where the code
/// holds `Lec`, else a section.
pub open spec fn component_type_of(s: Seq<char>) -> ComponentType {
    if has_subtext(s, "Lec"@) {
        ComponentType::Lecture
    } else {
        ComponentType::Section
    }
}

impl ComponentType {
    /// The type of the component with the code `v`.
    pub fn from_chars(v: &Vec<char>) -> (r: ComponentType)
        ensures
            r == component_type_of(v@),
    {
        let pat = chars_of("Lec");
        if contains_chars(v, &pat) {
            ComponentType::Lecture
        } else {
            ComponentType::Section
        }
    }

    /// The type of the component with the code `s`.
    pub fn from_str(s: &str) -> (r: Result<ComponentType, ()>)
        ensures
            r == Ok::<ComponentType, ()>(component_type_of(s@)),
    {
        let v = chars_of(s);
        Ok(ComponentType::from_chars(&v))
    }

    /// The name of the type.
    pub open spec fn text(self) -> Seq<char> {
        match self {
            ComponentType::Lecture => "Lecture"@,
            ComponentType::Section => "Section"@,
        }
    }

    /// The name of the type: `Lecture` or `Section`.
    pub fn as_str(&self) -> (r: &'static str)
        ensures
            r@ == self.text(),
    {
        match self {
            ComponentType::Lecture => "Lecture",
            ComponentType::Section => "Section",
        }
    }
}

/// The views of a sequence of meetings.
pub open spec fn meeting_views(ms: Seq<Meeting>) -> Seq<MeetingView> {
    Seq::new(ms.len(), |i: int| ms[i]@)
}

/// A lecture or a section of a course.
#[derive(Debug, Clone, PartialEq, Eq)]
pub struct CourseComponent {
    /// The title, which may differ from section to section.
    pub title: String,
    /// Whether it is a lecture or a section.
    pub component_type: ComponentType,
    /// The code of the lecture or section, such as `Lec 1` or `A`.
    pub code: String,
    /// Its meetings.
    pub meetings: Vec<Meeting>,
}

/// The mathematical value of a `CourseComponent`.
pub struct CourseComponentView {
    pub title: Seq<char>,
    pub component_type: ComponentType,
    pub code: Seq<char>,
    pub meetings: Seq<MeetingView>,
}

impl View for CourseComponent {
    type V = CourseComponentView;

    open spec fn view(&self) -> CourseComponentView {
        CourseComponentView {
            title: self.title@,
            component_type: self.component_type,
            code: self.code@,
            meetings: meeting_views(self.meetings@),
        }
    }
}

// ---------------------------------------------------------------------------
// Course numbers
// ---------------------------------------------------------------------------

/// Whether `s` is written as a course number: five ASCII digits.
pub open spec fn is_course_number_text(s: Seq<char>) -> bool {
    s.len() == 5 && all_digits(s)
}

/// The long form of the course number `s`: a hyphen after its first two
/// digits.
pub open spec fn full_number(s: Seq<char>) -> Seq<char> {
    s.take(2) + seq!['-'] + s.skip(2)
}

/// A course number: five digits.
#[derive(Debug, PartialEq, Eq)]
pub struct CourseNumber(String);

impl View for CourseNumber {
    type V = Seq<char>;

    closed spec fn view(&self) -> Seq<char> {
        self.0@
    }
}

impl CourseNumber {
    #[verifier::type_invariant]
    closed spec fn valid(self) -> bool {
        is_course_number_text(self.0@)
    }

    /// The course number that `v` spells, where it spells one.
    pub fn from_chars(v: &Vec<char>) -> (r: Option<CourseNumber>)
        ensures
            r is Some <==> is_course_number_text(v@),
            r matches Some(n) ==> n@ == v@,
    {
        if v.len() == 5 && all_digit_chars(v) {
            Some(CourseNumber(string_of(v)))
        } else {
            None
        }
    }

    /// Reads a course number, such as `15122`.
    pub fn from_str(s: &str) -> (r: Result<CourseNumber, ()>)
        ensures
            r is Ok <==> is_course_number_text(s@),
            r matches Ok(n) ==> n@ == s@,
    {
        let v = chars_of(s);
        match CourseNumber::from_chars(&v) {
            Some(n) => Ok(n),
            None => Err(()),
        }
    }

    /// The five digits.
    pub fn to_string(&self) -> (r: String)
        ensures
            r@ == self@,
            is_course_number_text(r@),
    {
        proof {
            use_type_invariant(self);
        }
        self.0.clone()
    }

    /// The five digits.
    pub fn as_str(&self) -> (r: &str)
        ensures
            r@ == self@,
            is_course_number_text(r@),
    {
        proof {
            use_type_invariant(self);
        }
        self.0.as_str()
    }

    /// The number in its long form, such as `15-122`.
    pub fn as_full_string(&self) -> (r: String)
        ensures
            r@ == full_number(self@),
    {
        proof {
            use_type_invariant(self);
        }
        let v = chars_of(self.0.as_str());
        let mut out = subvec(&v, 0, 2);
        out.push('-');
        let mut rest = subvec(&v, 2, 5);
        out.append(&mut rest);
        assert(out@ =~= full_number(self@));
        string_of(&out)
    }
}

impl Clone for CourseNumber {
    fn clone(&self) -> (r: CourseNumber)
        ensures
            r@ == self@,
    {
        proof {
            use_type_invariant(self);
        }
        CourseNumber(self.0.clone())
    }
}

// ---------------------------------------------------------------------------
// Courses
// ---------------------------------------------------------------------------

/// The views of a sequence of components.
pub open spec fn component_views(cs: Seq<CourseComponent>) -> Seq<CourseComponentView> {
    Seq::new(cs.len(), |i: int| cs[i]@)
}

/// A course as the schedule lists it for one term.
#[derive(Debug, Clone, PartialEq, Eq)]
pub struct CourseEntry {
    /// The course number.
    pub number: CourseNumber,
    /// How many units the course is worth.
    pub units: Units,
    /// Its lectures and sections.
    pub components: Vec<CourseComponent>,
    /// The season in which it is given.
    pub season: Season,
    /// The year in which it is given.
    pub year: Year,
}

/// The mathematical value of a `CourseEntry`.
pub struct CourseEntryView {
    pub number: Seq<char>,
    pub units: UnitsView,
    pub components: Seq<CourseComponentView>,
    pub season: Season,
    pub year: Year,
}

impl View for CourseEntry {
    type V = CourseEntryView;

    open spec fn view(&self) -> CourseEntryView {
        CourseEntryView {
            number: self.number@,
            units: self.units@,
            components: component_views(self.components@),
            season: self.season,
            year: self.year,
        }
    }
}

} // verus!
