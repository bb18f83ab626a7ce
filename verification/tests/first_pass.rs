use class_schedule::first_pass::{
    diagnostics, extract_year, first_pass, is_course_number, is_section_code, parse_line,
    preprocess_lines, Line,
};
use class_schedule::syllabus_data::Year;

fn s(text: &str) -> String {
    text.to_string()
}

#[test]
fn header_with_units_is_not_a_plain_header() {
    assert_eq!(
        parse_line("15122\tIntro to CS\t9"),
        Line::SecondaryCourseHeader {
            number: s("15122"),
            title: s("Intro to CS"),
            units: s("9"),
        }
    );
    assert_eq!(
        parse_line("15122\tIntro to CS"),
        Line::CourseHeader { number: s("15122"), title: s("Intro to CS") }
    );
}

#[test]
fn each_shape_of_line() {
    assert_eq!(parse_line(""), Line::Empty);
    assert_eq!(parse_line(" \t  "), Line::Empty);
    assert_eq!(parse_line("\tComputer Science"), Line::Department(s("Computer Science")));
    assert_eq!(
        parse_line("15122\t  Principles of Imperative Computation  "),
        Line::CourseHeader {
            number: s("15122"),
            title: s("Principles of Imperative Computation"),
        }
    );
    assert_eq!(
        parse_line("15122\t Title \tVAR\tLec\textra"),
        Line::SecondaryCourseHeader { number: s("15122"), title: s("Title"), units: s("VAR") }
    );
    assert_eq!(
        parse_line("\t9.0\tLec 1\tMWF\t09:30AM\t10:20AM\tGHC 4102\tPittsburgh, Pennsylvania\tKaynar\tmore"),
        Line::PrimaryCourseComponent {
            units: s("9.0"),
            section: s("Lec 1"),
            days: s("MWF"),
            time_start: s("09:30AM"),
            time_end: s("10:20AM"),
            building_room: s("GHC 4102"),
            location: s("Pittsburgh, Pennsylvania"),
            instructors: s("Kaynar"),
        }
    );
    assert_eq!(
        parse_line("\t\tA\tT\t08:00AM\t08:50AM\tGHC 4211\tPittsburgh, Pennsylvania\tKaynar"),
        Line::SecondaryCourseComponent {
            section: s("A"),
            days: s("T"),
            time_start: s("08:00AM"),
            time_end: s("08:50AM"),
            building_room: s("GHC 4211"),
            location: s("Pittsburgh, Pennsylvania"),
            instructors: s("Kaynar"),
        }
    );
    assert_eq!(
        parse_line("\t\t\tR\t08:00AM\t08:50AM\tGHC 4211\tPittsburgh, Pennsylvania"),
        Line::AdditionalMeeting {
            days: s("R"),
            time_start: s("08:00AM"),
            time_end: s("08:50AM"),
            building_room: s("GHC 4211"),
            location: s("Pittsburgh, Pennsylvania"),
        }
    );
    assert_eq!(
        parse_line("\t\tSpecial Topics: Types"),
        Line::ComponentTitle(s("Special Topics: Types"))
    );
    assert_eq!(parse_line("Something else"), Line::Unknown(s("Something else")));
    assert_eq!(
        parse_line("\t\t\tToo many tabs"),
        Line::Unknown(s("\t\t\tToo many tabs"))
    );
    assert_eq!(
        parse_line("1512\tShort number"),
        Line::Unknown(s("1512\tShort number"))
    );
    assert_eq!(
        parse_line("15122\tTitle\tnot units"),
        Line::Unknown(s("15122\tTitle\tnot units"))
    );
}

#[test]
fn earlier_rules_win() {
    // Eight fields that begin with a section code but not with units.
    assert_eq!(
        parse_line("B\tT\t08:00AM\t08:50AM\tGHC 4211\tPittsburgh\tKaynar\tx"),
        Line::SecondaryCourseComponent {
            section: s("B"),
            days: s("T"),
            time_start: s("08:00AM"),
            time_end: s("08:50AM"),
            building_room: s("GHC 4211"),
            location: s("Pittsburgh"),
            instructors: s("Kaynar"),
        }
    );
    // Seven fields that begin with neither: one more meeting.
    assert_eq!(
        parse_line("b\tT\t08:00AM\t08:50AM\tGHC 4211\tPittsburgh\tKaynar"),
        Line::AdditionalMeeting {
            days: s("b"),
            time_start: s("T"),
            time_end: s("08:00AM"),
            building_room: s("08:50AM"),
            location: s("GHC 4211"),
        }
    );
    // A course number with five fields and no units in the third.
    assert_eq!(
        parse_line("15122\ta\tb\tc\td"),
        Line::AdditionalMeeting {
            days: s("15122"),
            time_start: s("a"),
            time_end: s("b"),
            building_room: s("c"),
            location: s("d"),
        }
    );
    // One field after one tab is a department even where it is a number.
    assert_eq!(parse_line("\t15122"), Line::Department(s("15122")));
}

fn feed(lines: &[&str]) -> String {
    let mut text = String::new();
    for i in 0..11 {
        if i == 3 {
            text.push_str("Semester: Fall 2025\n");
        } else {
            text.push_str("header\n");
        }
    }
    for line in lines {
        text.push_str(line);
        text.push('\n');
    }
    text
}

#[test]
fn header_lines_are_dropped_and_lines_right_trimmed() {
    let text = feed(&["\tComputer Science  ", "15122\tTitle\t \r", "", "odd"]);
    assert_eq!(
        preprocess_lines(&text),
        vec![
            "\tComputer Science".chars().collect::<Vec<char>>(),
            "15122\tTitle".chars().collect(),
            vec![],
            "odd".chars().collect(),
        ]
    );
    assert_eq!(
        first_pass(&text),
        vec![
            Line::Department(s("Computer Science")),
            Line::CourseHeader { number: s("15122"), title: s("Title") },
            Line::Empty,
            Line::Unknown(s("odd")),
        ]
    );
    assert_eq!(first_pass(""), vec![]);
    assert_eq!(first_pass("a\nb\nc"), vec![]);
    assert_eq!(first_pass(&feed(&[])), vec![]);
    let no_final_newline = format!("{}15122\tTitle", feed(&[]));
    assert_eq!(
        first_pass(&no_final_newline),
        vec![Line::CourseHeader { number: s("15122"), title: s("Title") }]
    );
    let with_carriage_returns = feed(&["15122\tTitle"]).replace('\n', "\r\n");
    assert_eq!(
        first_pass(&with_carriage_returns),
        vec![Line::CourseHeader { number: s("15122"), title: s("Title") }]
    );
}

#[test]
fn year_of_a_feed() {
    assert_eq!(extract_year(&feed(&[])), Some(Year(2025)));
    assert_eq!(extract_year("a\nb\nc\nRun Date: 1 Jan 2024  \r\nd"), Some(Year(2024)));
    assert_eq!(extract_year("a\nb\nc\n2023"), Some(Year(2023)));
    assert_eq!(extract_year("a\nb\nc\nno year here\n"), None);
    assert_eq!(extract_year("a\nb\nc\n\n2025\n"), None);
    assert_eq!(extract_year("a\nb\nc"), None);
    assert_eq!(extract_year("a\nb\nc\n"), None);
    assert_eq!(extract_year("a\nb\nc\nyear 70000"), None);
    assert_eq!(extract_year(""), None);
}

#[test]
fn course_numbers_and_section_codes() {
    assert!(is_course_number("15122"));
    assert!(!is_course_number("1512"));
    assert!(!is_course_number("151223"));
    assert!(!is_course_number("A5122"));
    assert!(!is_course_number(""));
    assert!(is_section_code("A"));
    assert!(is_section_code("Lec 1"));
    assert!(!is_section_code("a"));
    assert!(!is_section_code("1"));
    assert!(!is_section_code(""));
    assert!(!is_section_code("\u{c9}"));
}

#[test]
fn unknown_lines_are_reported() {
    let lines = vec![
        Line::Empty,
        Line::Unknown(s("odd one")),
        Line::Department(s("CS")),
        Line::Unknown(s("")),
    ];
    assert_eq!(
        diagnostics(&lines),
        vec![s("Unknown line format: odd one"), s("Unknown line format: ")]
    );
    assert_eq!(diagnostics(&vec![]), Vec::<String>::new());
}
