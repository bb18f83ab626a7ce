//! The library's own parsers against the same rules written with the
//! standard library's string functions, on generated inputs.

use class_schedule::course_data::{BuildingRoom, ComponentType, Instructors};
use class_schedule::days::{DaySet, Days};
use class_schedule::first_pass::{parse_line, preprocess_lines, Line};
use class_schedule::requisite::{split_top_level, Expr, ParseError};
use class_schedule::reservation::{ReservationType, Restriction, StudentType};
use class_schedule::syllabi::parse_title;
use class_schedule::text::{
    is_digit_char, is_space_char, is_upper_char, lower_char, split_chars, split_words, trimmed,
    trimmed_end,
};
use class_schedule::unit_number::UnitNumber;
use class_schedule::units::{ParseUnitError, UnitType, UnitTypeSimple, Units};

/// A small generator of numbers, the same on every run.
struct Rng(u64);

impl Rng {
    fn next(&mut self) -> u64 {
        self.0 ^= self.0 << 13;
        self.0 ^= self.0 >> 7;
        self.0 ^= self.0 << 17;
        self.0
    }

    fn below(&mut self, n: usize) -> usize {
        (self.next() % n as u64) as usize
    }

    fn text(&mut self, pieces: &[&str], max_pieces: usize) -> String {
        let n = self.below(max_pieces + 1);
        let mut out = String::new();
        for _ in 0..n {
            out.push_str(pieces[self.below(pieces.len())]);
        }
        out
    }
}

fn chars(s: &str) -> Vec<char> {
    s.chars().collect()
}

fn string(v: &[char]) -> String {
    v.iter().collect()
}

#[test]
fn character_classes_agree() {
    for code in 0..=0x10FFFFu32 {
        if let Some(c) = char::from_u32(code) {
            assert_eq!(is_space_char(c), c.is_whitespace(), "{:?}", c);
            assert_eq!(is_digit_char(c), c.is_ascii_digit(), "{:?}", c);
            assert_eq!(is_upper_char(c), c.is_ascii_uppercase(), "{:?}", c);
            assert_eq!(lower_char(c), c.to_ascii_lowercase(), "{:?}", c);
        }
    }
}

#[test]
fn trimming_and_splitting_agree() {
    let pieces = [" ", "\t", "\n", "\r", "\r\n", "a", "1", ",", "\u{a0}", "\u{3000}", "\u{e9}", "bc"];
    let mut rng = Rng(0x2545F4914F6CDD1D);
    for _ in 0..20000 {
        let s = rng.text(&pieces, 8);
        let v = chars(&s);
        assert_eq!(string(&trimmed(&v)), s.trim(), "{:?}", s);
        assert_eq!(string(&trimmed_end(&v)), s.trim_end(), "{:?}", s);
        let words: Vec<String> = split_words(&v).iter().map(|w| string(w)).collect();
        let expected: Vec<String> = s.split_whitespace().map(|w| w.to_string()).collect();
        assert_eq!(words, expected, "{:?}", s);
        let parts: Vec<String> = split_chars(&v, ',').iter().map(|w| string(w)).collect();
        let expected: Vec<String> = s.split(',').map(|w| w.to_string()).collect();
        assert_eq!(parts, expected, "{:?}", s);
    }
}

#[test]
fn data_lines_agree() {
    let pieces = ["\n", "\r\n", "\r", " ", "\t", "x", "15122", "\n\n"];
    let mut rng = Rng(0x9E3779B97F4A7C15);
    for _ in 0..5000 {
        let s = rng.text(&pieces, 40);
        let lines: Vec<String> = preprocess_lines(&s).iter().map(|l| string(l)).collect();
        let expected: Vec<String> = s.lines().skip(11).map(|l| l.trim_end().to_string()).collect();
        assert_eq!(lines, expected, "{:?}", s);
    }
}

// ---------------------------------------------------------------------------
// Fields
// ---------------------------------------------------------------------------

fn plain_room(text: &str) -> BuildingRoom {
    match text {
        "TBA" => BuildingRoom::ToBeAnnounced,
        "TBD TBD" | "TBD" => BuildingRoom::ToBeDetermined,
        "DNM DNM" | "DNM" => BuildingRoom::DoesNotMeet,
        "OFF PITT" => BuildingRoom::OffPitt,
        "CMU REMOTE" | "REMOTE" => BuildingRoom::Remote,
        _ => {
            let mut parts = text.split_whitespace();
            BuildingRoom::Specific(
                parts.next().unwrap_or("").to_string(),
                parts.collect::<Vec<_>>().join(" "),
            )
        }
    }
}

fn plain_days(text: &str) -> DaySet {
    let mut bits = 0u8;
    for c in text.chars() {
        if let Some(i) = "MTWRFSU".find(c) {
            bits |= 1 << i;
        }
    }
    DaySet(bits)
}

#[test]
fn fields_agree() {
    let pieces = [
        "TBA", "TBD", "DNM", "OFF", "PITT", "CMU", "REMOTE", "GHC", "4102", " ", "\t", "M", "T", "W",
        "R", "F", "S", "U", "x", ",", "Lec", "L", "ec", "Kaynar",
    ];
    let mut rng = Rng(0xC2B2AE3D27D4EB4F);
    for _ in 0..40000 {
        let s = rng.text(&pieces, 6);

        // Runs of white space inside a room are kept as they are.
        let single_spaced = !s.trim().contains("  ") && !s.contains('\t');
        if single_spaced {
            assert_eq!(BuildingRoom::from_str(&s), Ok(plain_room(&s)), "{:?}", s);
        }

        assert_eq!(DaySet::from_str(&s), Ok(plain_days(&s)), "{:?}", s);
        if !s.contains("TBA") {
            assert_eq!(Days::from_str(&s), Ok(Days::Days(plain_days(&s))), "{:?}", s);
        }

        // Blank text names no instructors.
        if !s.trim().is_empty() {
            let names: Vec<String> = s.split(',').map(|n| n.trim().to_string()).collect();
            assert_eq!(Instructors::from_str(&s), Ok(Instructors(Some(names))), "{:?}", s);
        }

        let kind = if s.contains("Lec") { ComponentType::Lecture } else { ComponentType::Section };
        assert_eq!(ComponentType::from_str(&s), Ok(kind), "{:?}", s);
    }
}

// ---------------------------------------------------------------------------
// Requisite expressions
// ---------------------------------------------------------------------------

fn plain_split(input: &str, op: &str) -> Option<Vec<String>> {
    let mut result = Vec::new();
    let mut paren_count = 0;
    let mut start = 0;
    let mut i = 0;
    let chars: Vec<char> = input.chars().collect();

    while i < chars.len() {
        match chars[i] {
            '(' => paren_count += 1,
            ')' => paren_count -= 1,
            ' ' if paren_count == 0 && i + op.len() + 2 <= input.len() => {
                let slice = input[i..i + op.len() + 2].to_ascii_lowercase();
                if slice.starts_with(' ') && slice[1..].starts_with(op) && slice.ends_with(' ') {
                    let part = input[start..i].trim();
                    if !part.is_empty() {
                        result.push(part.to_string());
                    }
                    i += op.len() + 1;
                    start = i + 1;
                }
            }
            _ => {}
        }
        i += 1;
    }

    let last_part = input[start..].trim();
    if !last_part.is_empty() {
        result.push(last_part.to_string());
    }

    if result.len() >= 2 {
        Some(result)
    } else {
        None
    }
}

fn plain_expr(s: &str) -> Result<Expr, ParseError> {
    let input = s.trim();

    if input.starts_with('(') && input.ends_with(')') {
        let mut count = 0;
        let mut found_closing = false;
        for (i, ch) in input.chars().enumerate() {
            if ch == '(' {
                count += 1;
            } else if ch == ')' {
                count -= 1;
                if count == 0 && i < input.len() - 1 {
                    found_closing = true;
                    break;
                }
            }
        }
        if !found_closing {
            return plain_expr(input[1..input.len() - 1].trim());
        }
    }

    if let Some(parts) = plain_split(input, "or") {
        let mut result = plain_expr(&parts[0])?;
        for part in &parts[1..] {
            result = Expr::Or(Box::new(result), Box::new(plain_expr(part)?));
        }
        return Ok(result);
    }

    if let Some(parts) = plain_split(input, "and") {
        let mut result = plain_expr(&parts[0])?;
        for part in &parts[1..] {
            result = Expr::And(Box::new(result), Box::new(plain_expr(part)?));
        }
        return Ok(result);
    }

    if input.starts_with('(') && input.ends_with(')') {
        return plain_expr(input[1..input.len() - 1].trim());
    }

    if input.chars().all(|c| c.is_ascii_digit()) {
        return Ok(Expr::Course(input.to_string()));
    }

    Err(ParseError(format!("Failed to parse: {input}")))
}

#[test]
fn expressions_agree() {
    let pieces = [
        "15122", "21127", "1", " ", "  ", "(", ")", " and ", " or ", "and", "or", "x", " and", "or ",
        "\t", " AND ", " Or ", "OR", " aNd",
    ];
    let mut rng = Rng(0xD1B54A32D192ED03);
    for _ in 0..40000 {
        let s = rng.text(&pieces, 9);
        assert_eq!(Expr::from_str(&s), plain_expr(&s), "{:?}", s);
        assert_eq!(split_top_level(&s, "or"), plain_split(&s, "or"), "{:?}", s);
        assert_eq!(split_top_level(&s, "and"), plain_split(&s, "and"), "{:?}", s);
    }
}

// ---------------------------------------------------------------------------
// Restrictions
// ---------------------------------------------------------------------------

fn plain_student_type(s: &str) -> Result<StudentType, String> {
    match s.to_lowercase().as_str() {
        "freshmen" => Ok(StudentType::Freshmen),
        "sophomores" => Ok(StudentType::Sophomores),
        "juniors" => Ok(StudentType::Juniors),
        "seniors" => Ok(StudentType::Seniors),
        "students" => Ok(StudentType::Students),
        "graduate students" => Ok(StudentType::GraduateStudents),
        "phd candidates" => Ok(StudentType::PhdCandidates),
        "5th yr students" => Ok(StudentType::FifthYearStudents),
        _ => Err(format!("Unknown student type: {s}")),
    }
}

fn plain_restriction(s: &str) -> Result<Restriction, String> {
    let content = s
        .strip_prefix("Some reservations are for ")
        .ok_or("Missing expected prefix")?
        .trim();
    let one_line = s
        .lines()
        .map(str::trim)
        .filter(|line| !line.is_empty())
        .collect::<Vec<_>>()
        .join(" ");
    if let Some((who, major)) = content.split_once(" with a primary major in ") {
        let student_type = plain_student_type(who.trim())?;
        return Ok(Restriction {
            student_type: Some(student_type),
            restriction_type: Some(ReservationType::PrimaryMajor(major.trim().to_owned())),
        });
    }
    if let Some((who, school)) = content.split_once(" in ") {
        let student_type = plain_student_type(who.trim())?;
        return Ok(Restriction {
            student_type: Some(student_type),
            restriction_type: Some(ReservationType::School(school.trim().to_owned())),
        });
    }
    if let Ok(student_type) = plain_student_type(content) {
        return Ok(Restriction {
            student_type: Some(student_type),
            restriction_type: Some(ReservationType::StudentType),
        });
    }
    Err(format!("Unable to parse reservation: {one_line}"))
}

#[test]
fn restrictions_agree() {
    let pieces = [
        "Some reservations are for ",
        "Some reservations are for",
        "Freshmen",
        "STUDENTS",
        "5th YR Students",
        "Phd Candidates",
        "Graduate",
        " with a primary major in ",
        " in ",
        "in",
        "SCS",
        "Music",
        " ",
        "\n",
        "\r\n",
        "\u{212a}",
        "\u{130}",
    ];
    let mut rng = Rng(0xA0761D6478BD642F);
    for _ in 0..40000 {
        let s = rng.text(&pieces, 7);
        assert_eq!(Restriction::from_str(&s), plain_restriction(&s), "{:?}", s);
        assert_eq!(StudentType::from_str(&s), plain_student_type(&s), "{:?}", s);
    }
}

// ---------------------------------------------------------------------------
// Titles
// ---------------------------------------------------------------------------

fn plain_title(title: &str) -> (String, String) {
    if let Some(idx) = title.find("S18 ") {
        let after = &title[idx + 4..];
        if after.len() >= 5 && after[..5].chars().all(|c| c.is_ascii_digit()) {
            return (after[..5].to_string(), String::new());
        }
    }
    let title = match title.find(|c: char| c.is_ascii_digit()) {
        Some(idx) => &title[idx..],
        None => return ("unknown".to_string(), "".to_string()),
    };
    let title = title.split([' ', '.', '_', ':']).next().unwrap_or(title);
    match title.split('-').collect::<Vec<_>>().as_slice() {
        [] => ("unknown".into(), String::new()),
        [course_num] => (course_num.to_string(), String::new()),
        [course_num, section] if course_num.len() == 5 => {
            (course_num.to_string(), section.to_string())
        }
        [first, second] => (format!("{first}{second}"), String::new()),
        [course_num, label, _]
            if matches!(label.to_lowercase().as_str(), "objectives" | "syllabus") =>
        {
            (course_num.to_string(), String::new())
        }
        [first, second, section] => (format!("{first}{second}"), section.to_string()),
        [first, second, rest @ ..] => (format!("{first}{second}"), rest.join("-")),
    }
}

#[test]
fn titles_agree() {
    let pieces = [
        "S18 ", "S18", "15122", "15", "122", "1", "-", "-", " ", ".", "_", ":", "A", "Syllabus",
        "objectives", "OBJECTIVES", "pdf", "x",
    ];
    let mut rng = Rng(0xE7037ED1A0B428DB);
    for _ in 0..40000 {
        let s = rng.text(&pieces, 8);
        assert_eq!(parse_title(&s), plain_title(&s), "{:?}", s);
    }
}

// ---------------------------------------------------------------------------
// Units
// ---------------------------------------------------------------------------

#[derive(Debug, Clone, PartialEq)]
enum FloatSimple {
    Single(f32),
    Range(f32, f32),
}

#[derive(Debug, Clone, PartialEq)]
enum FloatUnits {
    Var,
    Single(f32),
    Range(f32, f32),
    Multi(Vec<FloatSimple>),
}

/// The thousandths nearest to a floating-point number of units.
fn thousandths(x: f32) -> UnitNumber {
    UnitNumber::from_thousandths((x as f64 * 1000.0).round() as u64)
}

fn exact_simple(u: &FloatSimple) -> UnitTypeSimple {
    match u {
        FloatSimple::Single(a) => UnitTypeSimple::Single(thousandths(*a)),
        FloatSimple::Range(a, b) => UnitTypeSimple::Range(thousandths(*a), thousandths(*b)),
    }
}

fn exact_units(u: &FloatUnits) -> Units {
    match u {
        FloatUnits::Var => Units::VAR,
        FloatUnits::Single(a) => Units::Value(UnitType::Single(thousandths(*a))),
        FloatUnits::Range(a, b) => {
            Units::Value(UnitType::Range(thousandths(*a), thousandths(*b)))
        }
        FloatUnits::Multi(v) => Units::Value(UnitType::Multi(v.iter().map(exact_simple).collect())),
    }
}

fn key(u: &FloatSimple) -> (f32, f32) {
    match u {
        FloatSimple::Single(a) => (*a, *a),
        FloatSimple::Range(a, b) => (*a, *b),
    }
}

fn plain_unit_type(s: &str) -> Result<FloatUnits, ParseUnitError> {
    let s = s.trim();
    if s.is_empty() {
        return Err(ParseUnitError::EmptyInput);
    }
    if let Ok(value) = s.parse::<f32>() {
        return Ok(FloatUnits::Single(value));
    }
    if s.contains('-') && !s.contains(',') {
        let parts = s.split('-').collect::<Vec<_>>();
        if parts.len() == 2 {
            if let (Ok(min), Ok(max)) = (parts[0].parse::<f32>(), parts[1].parse::<f32>()) {
                return Ok(FloatUnits::Range(min, max));
            }
        }
    }
    let mut simple_units = Vec::new();
    for part in s.split(',') {
        let part = part.trim();
        if part.is_empty() {
            continue;
        }
        if part.contains('-') {
            let range_parts: Vec<&str> = part.split('-').collect();
            if range_parts.len() == 2 {
                if let (Ok(min), Ok(max)) =
                    (range_parts[0].parse::<f32>(), range_parts[1].parse::<f32>())
                {
                    simple_units.push(FloatSimple::Range(min, max));
                    continue;
                }
            }
        }
        if let Ok(value) = part.parse::<f32>() {
            simple_units.push(FloatSimple::Single(value));
            continue;
        }
        for space_part in part.split_whitespace() {
            if space_part.contains('-') {
                let range_parts: Vec<&str> = space_part.split('-').collect();
                if range_parts.len() == 2 {
                    if let (Ok(min), Ok(max)) =
                        (range_parts[0].parse::<f32>(), range_parts[1].parse::<f32>())
                    {
                        simple_units.push(FloatSimple::Range(min, max));
                    }
                }
            } else if let Ok(value) = space_part.parse::<f32>() {
                simple_units.push(FloatSimple::Single(value));
            }
        }
    }
    if simple_units.is_empty() {
        return Err(ParseUnitError::NoValidUnits);
    }
    if simple_units.len() == 1 {
        return Ok(match &simple_units[0] {
            FloatSimple::Single(value) => FloatUnits::Single(*value),
            FloatSimple::Range(min, max) => FloatUnits::Range(*min, *max),
        });
    }
    simple_units.sort_by(|a, b| key(a).partial_cmp(&key(b)).unwrap());
    Ok(FloatUnits::Multi(simple_units))
}

fn plain_units(s: &str) -> Result<FloatUnits, ParseUnitError> {
    let s = s.trim();
    if s.is_empty() {
        return Err(ParseUnitError::EmptyInput);
    }
    match s {
        "VAR" => Ok(FloatUnits::Var),
        _ => plain_unit_type(s),
    }
}

#[test]
fn units_agree_with_floating_point() {
    // Texts without a sign or an exponent are what both ways of reading take
    // for numbers; with three digits at most on either side of the point,
    // single precision holds their thousandths.
    let pieces = [
        "0", "3", "9", "12", "4.5", "9.0", "0.125", ".5", "7.", "-", ",", " ", "VAR", "x", ".",
        "48", ", ", "1.0625",
    ];
    let mut rng = Rng(0x8EBC6AF09C88C6E3);
    let mut compared = 0;
    for _ in 0..60000 {
        let s = rng.text(&pieces, 7);
        let signed = s
            .split(|c: char| c == ',' || c.is_whitespace())
            .any(|t| t.starts_with('-') && t.len() > 1 && !t[1..].contains('-'));
        let numbers = || s.split(|c: char| !(c.is_ascii_digit() || c == '.'));
        let large = numbers().any(|t| t.split('.').next().map_or(false, |w| w.len() > 3));
        let fine = numbers().any(|t| t.split('.').nth(1).map_or(false, |f| f.len() > 3));
        if signed || large {
            continue;
        }
        let read = Units::from_str(&s);
        let expected = plain_units(&s);
        if fine {
            // Digits beyond the third after the point are dropped here and
            // rounded there: what is read is units either way.
            assert_eq!(read.is_ok(), expected.is_ok(), "{:?}", s);
            continue;
        }
        compared += 1;
        match (&read, &expected) {
            (Ok(a), Ok(b)) => assert_eq!(a, &exact_units(b), "{:?}", s),
            (Err(a), Err(b)) => assert_eq!(a, b, "{:?}", s),
            _ => panic!("{:?}: {:?} against {:?}", s, read, expected),
        }
    }
    assert!(compared > 20000);
}

// ---------------------------------------------------------------------------
// Lines
// ---------------------------------------------------------------------------

fn plain_line(line: &str) -> Line {
    let trimmed = line.trim();
    if trimmed.is_empty() {
        return Line::Empty;
    }
    let fields: Vec<&str> = trimmed.split('\t').collect();
    let leading_tabs = line.chars().take_while(|&c| c == '\t').count();
    let is_number = |s: &str| s.len() == 5 && s.chars().all(|c| c.is_ascii_digit());
    let is_code = |s: &str| s.chars().next().map_or(false, |c| c.is_ascii_uppercase());
    let is_units = |s: &str| plain_units(s).is_ok();
    let t = |s: &str| s.to_string();

    match fields.as_slice() {
        [only] if leading_tabs == 1 => Line::Department(t(only)),
        [number, title] if is_number(number) => {
            Line::CourseHeader { number: t(number), title: t(title.trim()) }
        }
        [number, title, units, ..] if is_number(number) && is_units(units) => {
            Line::SecondaryCourseHeader { number: t(number), title: t(title.trim()), units: t(units) }
        }
        [units, section, days, time_start, time_end, building_room, location, instructors, ..]
            if is_units(units) =>
        {
            Line::PrimaryCourseComponent {
                units: t(units),
                section: t(section),
                days: t(days),
                time_start: t(time_start),
                time_end: t(time_end),
                building_room: t(building_room),
                location: t(location),
                instructors: t(instructors),
            }
        }
        [section, days, time_start, time_end, building_room, location, instructors, ..]
            if is_code(section) =>
        {
            Line::SecondaryCourseComponent {
                section: t(section),
                days: t(days),
                time_start: t(time_start),
                time_end: t(time_end),
                building_room: t(building_room),
                location: t(location),
                instructors: t(instructors),
            }
        }
        [days, time_start, time_end, building_room, location, ..] => Line::AdditionalMeeting {
            days: t(days),
            time_start: t(time_start),
            time_end: t(time_end),
            building_room: t(building_room),
            location: t(location),
        },
        [title] if leading_tabs == 2 => Line::ComponentTitle(t(title)),
        _ => Line::Unknown(t(line)),
    }
}

#[test]
fn lines_agree() {
    let fields = [
        "15122", "9.0", "VAR", "3-12", "Lec 1", "A", "MWF", "09:30AM", "GHC 4102", "Pittsburgh",
        "Kaynar", " title ", "", " ", "1512", "b", "0,12,24", "x y",
    ];
    let mut rng = Rng(0x589965CC75374CC3);
    for _ in 0..60000 {
        let mut s = "\t".repeat(rng.below(4));
        let count = rng.below(10);
        for i in 0..count {
            if i > 0 {
                s.push('\t');
            }
            s.push_str(fields[rng.below(fields.len())]);
        }
        assert_eq!(parse_line(&s), plain_line(&s), "{:?}", s);
        let cut = s.trim_end();
        assert_eq!(parse_line(cut), plain_line(cut), "{:?}", cut);
    }
}
