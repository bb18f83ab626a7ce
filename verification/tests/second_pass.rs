use class_schedule::course_data::{
    BuildingRoom, ClockTime, ComponentType, CourseComponent, CourseEntry, CourseNumber,
    Instructors, Meeting, TimeRange,
};
use class_schedule::days::{DaySet, Days};
use class_schedule::first_pass::{first_pass, Line};
use class_schedule::second_pass::{second_pass, Assembly};
use class_schedule::syllabus_data::{Season, Year};
use class_schedule::unit_number::UnitNumber;
use class_schedule::units::{UnitType, Units};

fn s(text: &str) -> String {
    text.to_string()
}

fn range(begin: (u32, u32), end: (u32, u32)) -> Option<TimeRange> {
    TimeRange::new(
        ClockTime::from_hms_opt(begin.0, begin.1, 0).unwrap(),
        ClockTime::from_hms_opt(end.0, end.1, 0).unwrap(),
    )
}

fn names(list: &[&str]) -> Instructors {
    Instructors(Some(list.iter().map(|n| n.to_string()).collect()))
}

fn units(whole: u32) -> Units {
    Units::new(UnitNumber::whole(whole))
}

fn header(number: &str, title: &str) -> Line {
    Line::CourseHeader { number: s(number), title: s(title) }
}

fn primary(units: &str, section: &str, days: &str, instructors: &str) -> Line {
    Line::PrimaryCourseComponent {
        units: s(units),
        section: s(section),
        days: s(days),
        time_start: s("09:30AM"),
        time_end: s("10:20AM"),
        building_room: s("GHC 4102"),
        location: s("Pittsburgh, Pennsylvania"),
        instructors: s(instructors),
    }
}

fn secondary(section: &str, days: &str, instructors: &str) -> Line {
    Line::SecondaryCourseComponent {
        section: s(section),
        days: s(days),
        time_start: s("01:00PM"),
        time_end: s("01:50PM"),
        building_room: s("TBA"),
        location: s("Pittsburgh, Pennsylvania"),
        instructors: s(instructors),
    }
}

fn additional(days: &str) -> Line {
    Line::AdditionalMeeting {
        days: s(days),
        time_start: s("02:00PM"),
        time_end: s("03:20PM"),
        building_room: s("WEH 7500"),
        location: s("Pittsburgh, Pennsylvania"),
    }
}

fn meeting_a(days: u8, instructors: Instructors) -> Meeting {
    Meeting {
        days: Days::Days(DaySet(days)),
        time: range((9, 30), (10, 20)),
        bldg_room: BuildingRoom::Specific(s("GHC"), s("4102")),
        campus: s("Pittsburgh, Pennsylvania"),
        instructors,
    }
}

fn meeting_b(days: u8, instructors: Instructors) -> Meeting {
    Meeting {
        days: Days::Days(DaySet(days)),
        time: range((13, 0), (13, 50)),
        bldg_room: BuildingRoom::ToBeAnnounced,
        campus: s("Pittsburgh, Pennsylvania"),
        instructors,
    }
}

fn meeting_c(days: u8, instructors: Instructors) -> Meeting {
    Meeting {
        days: Days::Days(DaySet(days)),
        time: range((14, 0), (15, 20)),
        bldg_room: BuildingRoom::Specific(s("WEH"), s("7500")),
        campus: s("Pittsburgh, Pennsylvania"),
        instructors,
    }
}

fn number(text: &str) -> CourseNumber {
    CourseNumber::from_str(text).unwrap()
}

#[test]
fn one_course_one_component_two_meetings() {
    let mut text = String::new();
    for i in 0..11 {
        text.push_str(if i == 3 { "Semester: Fall 2025\n" } else { "\n" });
    }
    text.push_str("15122\tPrinciples of Imperative Computation\n");
    text.push_str(
        "\t9\tLec 1\tMWF\t09:30AM\t10:20AM\tGHC 4102\tPittsburgh, Pennsylvania\tKaynar\n",
    );
    text.push_str("\t\t\tR\t02:00PM\t03:20PM\tWEH 7500\tPittsburgh, Pennsylvania\n");

    let courses = second_pass(first_pass(&text), Season::Fall, Year(2025));
    assert_eq!(
        courses,
        vec![CourseEntry {
            number: number("15122"),
            units: units(9),
            components: vec![CourseComponent {
                title: s("Principles of Imperative Computation"),
                component_type: ComponentType::Lecture,
                code: s("Lec 1"),
                meetings: vec![
                    meeting_a(0b10101, names(&["Kaynar"])),
                    meeting_c(0b1000, names(&["Kaynar"])),
                ],
            }],
            season: Season::Fall,
            year: Year(2025),
        }]
    );
    assert_eq!(courses.len(), 1);
    assert_eq!(courses[0].components.len(), 1);
    assert_eq!(courses[0].components[0].meetings.len(), 2);
}

#[test]
fn courses_come_out_in_the_order_of_their_headers() {
    let lines = vec![
        Line::Department(s("Computer Science")),
        header("15122", "Imperative"),
        primary("9.0", "Lec 1", "MWF", "Kaynar"),
        secondary("A", "T", "Kaynar, Cervesato"),
        Line::Empty,
        Line::SecondaryCourseHeader { number: s("15150"), title: s("Functional"), units: s("12") },
        Line::ComponentTitle(s("Functional, honors")),
        secondary("B", "R", ""),
        header("15213", "Systems"),
    ];
    let courses = second_pass(lines, Season::Spring, Year(2024));
    assert_eq!(
        courses,
        vec![
            CourseEntry {
                number: number("15122"),
                units: units(9),
                components: vec![
                    CourseComponent {
                        title: s("Imperative"),
                        component_type: ComponentType::Lecture,
                        code: s("Lec 1"),
                        meetings: vec![meeting_a(0b10101, names(&["Kaynar"]))],
                    },
                    CourseComponent {
                        title: s("Imperative"),
                        component_type: ComponentType::Section,
                        code: s("A"),
                        meetings: vec![meeting_b(0b10, names(&["Kaynar", "Cervesato"]))],
                    },
                ],
                season: Season::Spring,
                year: Year(2024),
            },
            CourseEntry {
                number: number("15150"),
                units: units(12),
                components: vec![CourseComponent {
                    title: s("Functional, honors"),
                    component_type: ComponentType::Section,
                    code: s("B"),
                    meetings: vec![meeting_b(0b1000, Instructors(None))],
                }],
                season: Season::Spring,
                year: Year(2024),
            },
            CourseEntry {
                number: number("15213"),
                units: Units::VAR,
                components: vec![],
                season: Season::Spring,
                year: Year(2024),
            },
        ]
    );
}

#[test]
fn orphaned_rows_are_passed_over() {
    assert_eq!(second_pass(vec![], Season::Fall, Year(2025)), vec![]);
    let lines = vec![
        additional("R"),
        primary("9", "Lec", "MWF", "X"),
        secondary("A", "T", "Y"),
        Line::Unknown(s("odd")),
        Line::ComponentTitle(s("waiting")),
    ];
    assert_eq!(second_pass(lines, Season::Fall, Year(2025)), vec![]);

    // A meeting after a header, with no component open.
    let lines = vec![header("15122", "T"), additional("R")];
    let courses = second_pass(lines, Season::Fall, Year(2025));
    assert_eq!(courses.len(), 1);
    assert_eq!(courses[0].components, vec![]);

    // A header whose number is none completes the open course and opens none.
    let lines = vec![
        header("15122", "T"),
        primary("9", "Lec", "MWF", "X"),
        header("1512x", "bad"),
        secondary("A", "T", "Y"),
        additional("R"),
    ];
    let courses = second_pass(lines, Season::Fall, Year(2025));
    assert_eq!(courses.len(), 1);
    assert_eq!(courses[0].number, number("15122"));
    assert_eq!(courses[0].components.len(), 1);
    assert_eq!(courses[0].components[0].meetings.len(), 1);
}

#[test]
fn units_of_a_course() {
    // The units of the row come before those of the header.
    let lines = vec![
        Line::SecondaryCourseHeader { number: s("15122"), title: s("T"), units: s("12") },
        primary("3-9", "Lec", "MWF", "X"),
    ];
    let courses = second_pass(lines, Season::Fall, Year(2025));
    assert_eq!(
        courses[0].units,
        Units::Value(UnitType::Range(UnitNumber::whole(3), UnitNumber::whole(9)))
    );

    // Units that are none leave those of the header.
    let lines = vec![
        Line::SecondaryCourseHeader { number: s("15122"), title: s("T"), units: s("VAR") },
        primary("n/a", "Lec", "MWF", "X"),
    ];
    let courses = second_pass(lines, Season::Fall, Year(2025));
    assert_eq!(courses[0].units, Units::VAR);

    let lines = vec![
        Line::SecondaryCourseHeader { number: s("15122"), title: s("T"), units: s("12") },
        secondary("A", "T", "Y"),
    ];
    let courses = second_pass(lines, Season::Fall, Year(2025));
    assert_eq!(courses[0].units, units(12));
}

#[test]
fn titles_and_inherited_instructors() {
    let lines = vec![
        header("15122", "Course title"),
        Line::ComponentTitle(s("Override")),
        primary("9", "Lec 1", "MWF", "Kaynar"),
        additional("TBA"),
        additional("F"),
        secondary("A", "T", "Cervesato"),
        additional("S"),
        secondary("B", "R", "Simmons"),
    ];
    let courses = second_pass(lines, Season::Summer1, Year(2025));
    assert_eq!(courses.len(), 1);
    let components = &courses[0].components;
    assert_eq!(components.len(), 3);
    // The title that waits is for the next row that begins with its code.
    assert_eq!(components[0].title, "Course title");
    assert_eq!(components[1].title, "Override");
    assert_eq!(components[2].title, "Course title");
    assert_eq!(
        components[0].meetings,
        vec![
            meeting_a(0b10101, names(&["Kaynar"])),
            Meeting { days: Days::TBA, ..meeting_c(0, names(&["Kaynar"])) },
            meeting_c(0b10000, names(&["Kaynar"])),
        ]
    );
    assert_eq!(
        components[1].meetings,
        vec![
            meeting_b(0b10, names(&["Cervesato"])),
            meeting_c(0b100000, names(&["Cervesato"])),
        ]
    );
    assert_eq!(components[2].meetings, vec![meeting_b(0b1000, names(&["Simmons"]))]);
}

#[test]
fn times_that_are_none() {
    let lines = vec![
        header("15122", "T"),
        Line::PrimaryCourseComponent {
            units: s("9"),
            section: s("Lec"),
            days: s("MWF"),
            time_start: s("TBA"),
            time_end: s("TBA"),
            building_room: s("DNM DNM"),
            location: s("Doha, Qatar"),
            instructors: s("X"),
        },
        Line::AdditionalMeeting {
            days: s("T"),
            time_start: s("11:00AM"),
            time_end: s("09:00AM"),
            building_room: s("CMU REMOTE"),
            location: s("Doha, Qatar"),
        },
    ];
    let courses = second_pass(lines, Season::Fall, Year(2025));
    let meetings = &courses[0].components[0].meetings;
    assert_eq!(meetings[0].time, None);
    assert_eq!(meetings[0].bldg_room, BuildingRoom::DoesNotMeet);
    assert_eq!(meetings[0].campus, "Doha, Qatar");
    assert_eq!(meetings[1].time, None);
    assert_eq!(meetings[1].bldg_room, BuildingRoom::Remote);
}

#[test]
fn line_by_line() {
    let state = Assembly::new();
    assert!(state.done.is_empty() && state.course.is_none() && state.component.is_none());
    let state = state.step(&header("15122", "T"), Season::Fall, Year(2025));
    assert!(state.done.is_empty());
    assert_eq!(state.course.as_ref().map(|c| c.title.as_str()), Some("T"));
    let state = state.step(&primary("9", "Lec", "MWF", "X"), Season::Fall, Year(2025));
    assert!(state.component.is_some());
    assert!(state.course.as_ref().unwrap().components.is_empty());
    let state = state.step(&Line::ComponentTitle(s("next")), Season::Fall, Year(2025));
    assert_eq!(state.pending_title, Some(s("next")));
    let state = state.step(&header("15150", "U"), Season::Fall, Year(2025));
    assert_eq!(state.done.len(), 1);
    assert!(state.component.is_none());
    assert_eq!(state.pending_title, Some(s("next")));
    let state = state.close(Season::Fall, Year(2025));
    assert_eq!(state.done.len(), 2);
    assert!(state.course.is_none());
    let courses = state.finish(Season::Fall, Year(2025));
    assert_eq!(courses.len(), 2);
    assert_eq!(courses[1].number, number("15150"));
}
