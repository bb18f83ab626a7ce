//! The second pass over a schedule feed: the classified lines are gathered
//! into courses, each with its lectures and sections, each of those with its
//! meetings.
//!
//! The lines are taken in order, with no look-ahead. What has been gathered
//! so far is an `Assembly`: the courses that are complete, the course and
//! the component that are open, and a title that waits for the next section.

use crate::course_data::{
    building_room_of, clock_time_of, component_type_of, component_views, instructors_of,
    is_course_number_text, meeting_views, time_range_between, BuildingRoom, ComponentType,
    CourseComponent, CourseComponentView, CourseEntry, CourseEntryView, CourseNumber,
    Instructors, Meeting, MeetingView, TimeRange,
};
use crate::days::{days_of, Days};
use crate::first_pass::{line_views, Line, LineView};
use crate::syllabus_data::{Season, Year};
use crate::units::{units_of, Units, UnitsView};
use vstd::prelude::*;

verus! {

/// A course that is being gathered.
#[derive(Debug, Clone, PartialEq, Eq)]
pub struct OpenCourse {
    pub number: CourseNumber,
    pub title: String,
    pub units: Option<Units>,
    pub components: Vec<CourseComponent>,
}

/// The mathematical value of an `OpenCourse`.
pub struct OpenCourseView {
    pub number: Seq<char>,
    pub title: Seq<char>,
    pub units: Option<UnitsView>,
    pub components: Seq<CourseComponentView>,
}

/// What has been gathered from the lines read so far.
#[derive(Debug, Clone, PartialEq, Eq)]
pub struct Assembly {
    /// The courses that are complete, in the order of their headers.
    pub done: Vec<CourseEntry>,
    /// The course that is open, if any.
    pub course: Option<OpenCourse>,
    /// The component that is open, if any.
    pub component: Option<CourseComponent>,
    /// The title that waits for the next section, if any.
    pub pending_title: Option<String>,
}

/// The mathematical value of an `Assembly`.
pub struct AssemblyView {
    pub done: Seq<CourseEntryView>,
    pub course: Option<OpenCourseView>,
    pub component: Option<CourseComponentView>,
    pub pending_title: Option<Seq<char>>,
}

/// The views of a sequence of courses.
pub open spec fn course_views(cs: Seq<CourseEntry>) -> Seq<CourseEntryView> {
    Seq::new(cs.len(), |i: int| cs[i]@)
}

impl View for OpenCourse {
    type V = OpenCourseView;

    open spec fn view(&self) -> OpenCourseView {
        OpenCourseView {
            number: self.number@,
            title: self.title@,
            units: match self.units {
                Some(u) => Some(u@),
                None => None,
            },
            components: component_views(self.components@),
        }
    }
}

impl View for Assembly {
    type V = AssemblyView;

    open spec fn view(&self) -> AssemblyView {
        AssemblyView {
            done: course_views(self.done@),
            course: match self.course {
                Some(c) => Some(c@),
                None => None,
            },
            component: match self.component {
                Some(c) => Some(c@),
                None => None,
            },
            pending_title: match self.pending_title {
                Some(t) => Some(t@),
                None => None,
            },
        }
    }
}

// ---------------------------------------------------------------------------
// The rules
// ---------------------------------------------------------------------------

/// The meeting that the fields of a row describe.
pub open spec fn meeting_of(
    days: Seq<char>,
    time_start: Seq<char>,
    time_end: Seq<char>,
    building_room: Seq<char>,
    location: Seq<char>,
    instructors: Option<Seq<Seq<char>>>,
) -> MeetingView {
    MeetingView {
        days: days_of(days),
        time: time_range_between(clock_time_of(time_start), clock_time_of(time_end)),
        bldg_room: building_room_of(building_room),
        campus: location,
        instructors,
    }
}

/// The component that a row opens: its type follows from its code, and it
/// has the one meeting of the row.
pub open spec fn component_of(title: Seq<char>, section: Seq<char>, meeting: MeetingView)
    -> CourseComponentView {
    CourseComponentView {
        title,
        component_type: component_type_of(section),
        code: section,
        meetings: seq![meeting],
    }
}

/// The units that `text` denotes, if it denotes any.
pub open spec fn units_if_valid(text: Seq<char>) -> Option<UnitsView> {
    match units_of(text) {
        Ok(u) => Some(u),
        Err(_) => None,
    }
}

/// The instructors of the latest meeting of `component`, if it has one.
pub open spec fn latest_instructors(component: CourseComponentView) -> Option<Seq<Seq<char>>> {
    if component.meetings.len() > 0 {
        component.meetings.last().instructors
    } else {
        None
    }
}

impl OpenCourseView {
    /// The course with `component`, if there is one, added to its
    /// components.
    pub open spec fn attach(self, component: Option<CourseComponentView>) -> OpenCourseView {
        match component {
            Some(c) => OpenCourseView { components: self.components.push(c), ..self },
            None => self,
        }
    }

    /// The course as it is handed out: a course of which no units are known
    /// is of variable units.
    pub open spec fn entry(self, season: Season, year: Year) -> CourseEntryView {
        CourseEntryView {
            number: self.number,
            units: match self.units {
                Some(u) => u,
                None => UnitsView::VAR,
            },
            components: self.components,
            season,
            year,
        }
    }
}

impl AssemblyView {
    /// Nothing gathered yet.
    pub open spec fn start() -> AssemblyView {
        AssemblyView { done: Seq::empty(), course: None, component: None, pending_title: None }
    }

    /// Whether a component is open only while a course is.
    pub open spec fn wf(self) -> bool {
        self.component is Some ==> self.course is Some
    }

    /// The assembly with its open course, if any, completed: the open
    /// component goes to the course and the course to the complete ones.
    pub open spec fn close(self, season: Season, year: Year) -> AssemblyView {
        match self.course {
            Some(course) => AssemblyView {
                done: self.done.push(course.attach(self.component).entry(season, year)),
                course: None,
                component: None,
                pending_title: self.pending_title,
            },
            None => AssemblyView { component: None, ..self },
        }
    }

    /// The assembly after a course header: the open course is completed, and
    /// a course is opened where `number` is written as a course number.
    pub open spec fn open_course(
        self,
        number: Seq<char>,
        title: Seq<char>,
        units: Option<UnitsView>,
        season: Season,
        year: Year,
    ) -> AssemblyView {
        let closed = self.close(season, year);
        if is_course_number_text(number) {
            AssemblyView {
                course: Some(OpenCourseView { number, title, units, components: Seq::empty() }),
                ..closed
            }
        } else {
            closed
        }
    }

    /// The assembly after one more line.
    ///
    /// - A blank line, a department or an unknown line changes nothing.
    /// - A course header completes the open course and opens a new one; a
    ///   header with units gives the course its units, where they are valid.
    /// - A component row, while a course is open, hands the open component
    ///   to the course and opens a new one with one meeting. A row that
    ///   begins with units takes the course's title and gives the course its
    ///   units, where they are valid. A row that begins with its code takes
    ///   the title that waits, if one does, else the course's, and no title
    ///   waits after it.
    /// - One more meeting, while a component is open, is added to it, with
    ///   the instructors of the meeting before.
    /// - A component title waits for the next row that begins with its code.
    /// - A row with no open course, or a meeting with no open component, is
    ///   passed over.
    pub open spec fn step(self, line: LineView, season: Season, year: Year) -> AssemblyView {
        match line {
            LineView::Empty => self,
            LineView::Department(_) => self,
            LineView::Unknown(_) => self,
            LineView::CourseHeader { number, title } => self.open_course(
                number,
                title,
                None,
                season,
                year,
            ),
            LineView::SecondaryCourseHeader { number, title, units } => self.open_course(
                number,
                title,
                units_if_valid(units),
                season,
                year,
            ),
            LineView::PrimaryCourseComponent {
                units,
                section,
                days,
                time_start,
                time_end,
                building_room,
                location,
                instructors,
            } => match self.course {
                Some(course) => {
                    let meeting = meeting_of(
                        days,
                        time_start,
                        time_end,
                        building_room,
                        location,
                        instructors_of(instructors),
                    );
                    let with_units = OpenCourseView {
                        units: if units_of(units) is Ok {
                            units_if_valid(units)
                        } else {
                            course.units
                        },
                        ..course.attach(self.component)
                    };
                    AssemblyView {
                        course: Some(with_units),
                        component: Some(component_of(course.title, section, meeting)),
                        ..self
                    }
                },
                None => self,
            },
            LineView::SecondaryCourseComponent {
                section,
                days,
                time_start,
                time_end,
                building_room,
                location,
                instructors,
            } => match self.course {
                Some(course) => {
                    let meeting = meeting_of(
                        days,
                        time_start,
                        time_end,
                        building_room,
                        location,
                        instructors_of(instructors),
                    );
                    let title = match self.pending_title {
                        Some(t) => t,
                        None => course.title,
                    };
                    AssemblyView {
                        course: Some(course.attach(self.component)),
                        component: Some(component_of(title, section, meeting)),
                        pending_title: None,
                        ..self
                    }
                },
                None => self,
            },
            LineView::AdditionalMeeting { days, time_start, time_end, building_room, location } => {
                match self.component {
                    Some(component) => {
                        let meeting = meeting_of(
                            days,
                            time_start,
                            time_end,
                            building_room,
                            location,
                            latest_instructors(component),
                        );
                        AssemblyView {
                            component: Some(
                                CourseComponentView {
                                    meetings: component.meetings.push(meeting),
                                    ..component
                                },
                            ),
                            ..self
                        }
                    },
                    None => self,
                }
            },
            LineView::ComponentTitle(title) => AssemblyView { pending_title: Some(title), ..self },
        }
    }
}

/// What is gathered from `lines`, taken in order.
pub open spec fn assemble(lines: Seq<LineView>, season: Season, year: Year) -> AssemblyView
    decreases lines.len(),
{
    if lines.len() == 0 {
        AssemblyView::start()
    } else {
        assemble(lines.drop_last(), season, year).step(lines.last(), season, year)
    }
}

/// The courses of `lines`: what is gathered from them, with the course that
/// is still open at the end completed.
pub open spec fn courses_of(lines: Seq<LineView>, season: Season, year: Year) -> Seq<
    CourseEntryView,
> {
    assemble(lines, season, year).close(season, year).done
}

/// The numbers of the course headers in `lines` that are written as course
/// numbers, in order.
pub open spec fn header_numbers(lines: Seq<LineView>) -> Seq<Seq<char>>
    decreases lines.len(),
{
    if lines.len() == 0 {
        Seq::empty()
    } else {
        match lines.last() {
            LineView::CourseHeader { number, title } => if is_course_number_text(number) {
                header_numbers(lines.drop_last()).push(number)
            } else {
                header_numbers(lines.drop_last())
            },
            LineView::SecondaryCourseHeader { number, title, units } => if is_course_number_text(
                number,
            ) {
                header_numbers(lines.drop_last()).push(number)
            } else {
                header_numbers(lines.drop_last())
            },
            _ => header_numbers(lines.drop_last()),
        }
    }
}

/// The numbers of `courses`, in order.
pub open spec fn course_numbers(courses: Seq<CourseEntryView>) -> Seq<Seq<char>> {
    Seq::new(courses.len(), |i: int| courses[i].number)
}

impl AssemblyView {
    /// The numbers of the courses gathered so far, the open one last.
    pub open spec fn numbers(self) -> Seq<Seq<char>> {
        match self.course {
            Some(c) => course_numbers(self.done).push(c.number),
            None => course_numbers(self.done),
        }
    }

    /// Whether every course gathered so far is for `season` and `year`.
    pub open spec fn all_in_term(self, season: Season, year: Year) -> bool {
        forall|i: int|
            0 <= i < self.done.len() ==> (#[trigger] self.done[i]).season == season
                && self.done[i].year == year
    }
}

/// Completing the open course keeps the numbers gathered and their order.
pub proof fn lemma_close(a: AssemblyView, season: Season, year: Year)
    requires
        a.all_in_term(season, year),
    ensures
        a.close(season, year).numbers() == a.numbers(),
        a.close(season, year).all_in_term(season, year),
        a.close(season, year).wf(),
{
    match a.course {
        Some(c) => {
            let e = c.attach(a.component).entry(season, year);
            assert(e.number == c.number);
            assert(course_numbers(a.done.push(e)) =~= course_numbers(a.done).push(c.number));
        },
        None => {},
    }
}

/// What is gathered from any lines holds one course for each valid header,
/// in the order of the headers, each for the season and year given; and a
/// component is open only while a course is.
pub proof fn lemma_assemble(lines: Seq<LineView>, season: Season, year: Year)
    ensures
        assemble(lines, season, year).numbers() == header_numbers(lines),
        assemble(lines, season, year).all_in_term(season, year),
        assemble(lines, season, year).wf(),
    decreases lines.len(),
{
    if lines.len() == 0 {
        assert(course_numbers(Seq::<CourseEntryView>::empty()) =~= Seq::<Seq<char>>::empty());
    } else {
        lemma_assemble(lines.drop_last(), season, year);
        let before = assemble(lines.drop_last(), season, year);
        lemma_close(before, season, year);
        let after = before.step(lines.last(), season, year);
        assert(after.numbers() == header_numbers(lines));
    }
}

/// The courses of a feed are one for each header with a valid course number,
/// in the order of the headers, and each is for the season and year given.
pub proof fn lemma_courses_follow_headers(lines: Seq<LineView>, season: Season, year: Year)
    ensures
        course_numbers(courses_of(lines, season, year)) == header_numbers(lines),
        forall|i: int|
            0 <= i < courses_of(lines, season, year).len() ==> (#[trigger] courses_of(
                lines,
                season,
                year,
            )[i]).season == season && courses_of(lines, season, year)[i].year == year,
{
    lemma_assemble(lines, season, year);
    lemma_close(assemble(lines, season, year), season, year);
}

// ---------------------------------------------------------------------------
// The assembler
// ---------------------------------------------------------------------------

fn read_units(text: &str) -> (r: Option<Units>)
    ensures
        (match r {
            Some(u) => Some(u@),
            None => None,
        }) == units_if_valid(text@),
{
    match Units::from_str(text) {
        Ok(u) => Some(u),
        Err(_) => None,
    }
}

fn read_meeting(
    days: &str,
    time_start: &str,
    time_end: &str,
    building_room: &str,
    location: &str,
    instructors: Instructors,
) -> (r: Meeting)
    ensures
        r@ == meeting_of(
            days@,
            time_start@,
            time_end@,
            building_room@,
            location@,
            instructors@,
        ),
{
    let days = match Days::from_str(days) {
        Ok(d) => d,
        Err(_) => Days::TBA,
    };
    let bldg_room = match BuildingRoom::from_str(building_room) {
        Ok(b) => b,
        Err(_) => BuildingRoom::ToBeAnnounced,
    };
    Meeting {
        days,
        time: TimeRange::from_strings(time_start, time_end),
        bldg_room,
        campus: location.to_owned(),
        instructors,
    }
}

fn read_instructors(text: &str) -> (r: Instructors)
    ensures
        r@ == instructors_of(text@),
{
    match Instructors::from_str(text) {
        Ok(i) => i,
        Err(_) => Instructors(None),
    }
}

fn new_component(title: String, section: &str, meeting: Meeting) -> (r: CourseComponent)
    ensures
        r@ == component_of(title@, section@, meeting@),
{
    let component_type = match ComponentType::from_str(section) {
        Ok(t) => t,
        Err(_) => ComponentType::Section,
    };
    let mut meetings: Vec<Meeting> = Vec::new();
    meetings.push(meeting);
    assert(meeting_views(meetings@) =~= seq![meeting@]);
    CourseComponent { title, component_type, code: section.to_owned(), meetings }
}

impl OpenCourse {
    fn attach(self, component: Option<CourseComponent>) -> (r: OpenCourse)
        ensures
            r@ == self@.attach(
                match component {
                    Some(c) => Some(c@),
                    None => None,
                },
            ),
    {
        match component {
            Some(c) => {
                let OpenCourse { number, title, units, components } = self;
                let mut components = components;
                let ghost before = component_views(components@);
                components.push(c);
                assert(component_views(components@) =~= before.push(c@));
                OpenCourse { number, title, units, components }
            },
            None => self,
        }
    }

    fn entry(self, season: Season, year: Year) -> (r: CourseEntry)
        ensures
            r@ == self@.entry(season, year),
    {
        let OpenCourse { number, title, units, components } = self;
        let units = match units {
            Some(u) => u,
            None => Units::VAR,
        };
        CourseEntry { number, units, components, season, year }
    }
}

impl Assembly {
    /// Nothing gathered yet.
    pub fn new() -> (r: Assembly)
        ensures
            r@ == AssemblyView::start(),
    {
        let r = Assembly { done: Vec::new(), course: None, component: None, pending_title: None };
        assert(course_views(r.done@) =~= Seq::<CourseEntryView>::empty());
        r
    }

    /// Completes the open course, if any.
    pub fn close(self, season: Season, year: Year) -> (r: Assembly)
        ensures
            r@ == self@.close(season, year),
    {
        let Assembly { done, course, component, pending_title } = self;
        match course {
            Some(c) => {
                let mut done = done;
                let ghost before = course_views(done@);
                let entry = c.attach(component).entry(season, year);
                done.push(entry);
                assert(course_views(done@) =~= before.push(entry@));
                Assembly { done, course: None, component: None, pending_title }
            },
            None => Assembly { done, course: None, component: None, pending_title },
        }
    }

    fn open_course(
        self,
        number: &str,
        title: &str,
        units: Option<Units>,
        season: Season,
        year: Year,
    ) -> (r: Assembly)
        ensures
            r@ == self@.open_course(
                number@,
                title@,
                match units {
                    Some(u) => Some(u@),
                    None => None,
                },
                season,
                year,
            ),
    {
        let closed = self.close(season, year);
        match CourseNumber::from_str(number) {
            Ok(n) => {
                let Assembly { done, course, component, pending_title } = closed;
                let components: Vec<CourseComponent> = Vec::new();
                assert(component_views(components@) =~= Seq::<CourseComponentView>::empty());
                Assembly {
                    done,
                    course: Some(
                        OpenCourse { number: n, title: title.to_owned(), units, components },
                    ),
                    component,
                    pending_title,
                }
            },
            Err(_) => closed,
        }
    }

    /// Takes one more line.
    pub fn step(self, line: &Line, season: Season, year: Year) -> (r: Assembly)
        ensures
            r@ == self@.step(line@, season, year),
    {
        match line {
            Line::Empty => self,
            Line::Department(_) => self,
            Line::Unknown(_) => self,
            Line::CourseHeader { number, title } => self.open_course(
                number.as_str(),
                title.as_str(),
                None,
                season,
                year,
            ),
            Line::SecondaryCourseHeader { number, title, units } => {
                let u = read_units(units.as_str());
                self.open_course(number.as_str(), title.as_str(), u, season, year)
            },
            Line::PrimaryCourseComponent {
                units,
                section,
                days,
                time_start,
                time_end,
                building_room,
                location,
                instructors,
            } => {
                let Assembly { done, course, component, pending_title } = self;
                match course {
                    Some(c) => {
                        let meeting = read_meeting(
                            days.as_str(),
                            time_start.as_str(),
                            time_end.as_str(),
                            building_room.as_str(),
                            location.as_str(),
                            read_instructors(instructors.as_str()),
                        );
                        let title = c.title.clone();
                        let opened = new_component(title, section.as_str(), meeting);
                        let OpenCourse { number, title, units: old_units, components } = c.attach(
                            component,
                        );
                        let new_units = match read_units(units.as_str()) {
                            Some(u) => Some(u),
                            None => old_units,
                        };
                        Assembly {
                            done,
                            course: Some(
                                OpenCourse { number, title, units: new_units, components },
                            ),
                            component: Some(opened),
                            pending_title,
                        }
                    },
                    None => Assembly { done, course: None, component, pending_title },
                }
            },
            Line::SecondaryCourseComponent {
                section,
                days,
                time_start,
                time_end,
                building_room,
                location,
                instructors,
            } => {
                let Assembly { done, course, component, pending_title } = self;
                match course {
                    Some(c) => {
                        let meeting = read_meeting(
                            days.as_str(),
                            time_start.as_str(),
                            time_end.as_str(),
                            building_room.as_str(),
                            location.as_str(),
                            read_instructors(instructors.as_str()),
                        );
                        let title = match pending_title {
                            Some(t) => t,
                            None => c.title.clone(),
                        };
                        let opened = new_component(title, section.as_str(), meeting);
                        Assembly {
                            done,
                            course: Some(c.attach(component)),
                            component: Some(opened),
                            pending_title: None,
                        }
                    },
                    None => Assembly { done, course: None, component, pending_title },
                }
            },
            Line::AdditionalMeeting { days, time_start, time_end, building_room, location } => {
                let Assembly { done, course, component, pending_title } = self;
                match component {
                    Some(c) => {
                        let CourseComponent { title, component_type, code, meetings } = c;
                        let mut meetings = meetings;
                        let ghost before = meeting_views(meetings@);
                        let inherited = if meetings.len() > 0 {
                            assert(before.last() == meetings@[meetings@.len() - 1]@);
                            meetings[meetings.len() - 1].instructors.duplicate()
                        } else {
                            Instructors(None)
                        };
                        let meeting = read_meeting(
                            days.as_str(),
                            time_start.as_str(),
                            time_end.as_str(),
                            building_room.as_str(),
                            location.as_str(),
                            inherited,
                        );
                        meetings.push(meeting);
                        assert(meeting_views(meetings@) =~= before.push(meeting@));
                        Assembly {
                            done,
                            course,
                            component: Some(
                                CourseComponent { title, component_type, code, meetings },
                            ),
                            pending_title,
                        }
                    },
                    None => Assembly { done, course, component: None, pending_title },
                }
            },
            Line::ComponentTitle(title) => {
                let Assembly { done, course, component, pending_title } = self;
                Assembly { done, course, component, pending_title: Some(title.clone()) }
            },
        }
    }

    /// The courses gathered, with the one that is still open completed.
    pub fn finish(self, season: Season, year: Year) -> (r: Vec<CourseEntry>)
        ensures
            course_views(r@) == self@.close(season, year).done,
    {
        self.close(season, year).done
    }
}

/// Gathers the classified lines of a feed for one season and year into
/// courses, in the order of their headers.
pub fn second_pass(lines: Vec<Line>, season: Season, year: Year) -> (r: Vec<CourseEntry>)
    ensures
        course_views(r@) == courses_of(line_views(lines@), season, year),
{
    let ghost all = line_views(lines@);
    let mut state = Assembly::new();
    let mut i: usize = 0;
    assert(all.take(0) =~= Seq::<LineView>::empty());
    while i < lines.len()
        invariant
            i <= lines.len(),
            all == line_views(lines@),
            state@ == assemble(all.take(i as int), season, year),
        decreases lines.len() - i,
    {
        proof {
            assert(all.take(i + 1).drop_last() =~= all.take(i as int));
            assert(all.take(i + 1).last() == lines@[i as int]@);
        }
        state = state.step(&lines[i], season, year);
        i += 1;
    }
    assert(all.take(all.len() as int) =~= all);
    state.finish(season, year)
}

} // verus!
