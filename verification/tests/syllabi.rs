use class_schedule::department::Department;
use class_schedule::syllabi::{
    combine, files_with_urls, generate_combinations, parse_title, syllabus_map, with_final_url,
    FileWithUrl, SyllabusMap,
};
use class_schedule::syllabus_data::{Season, Year};

#[test]
fn test_parse_title() {
    let title = "02701-A: CPCB Course - Current Topics in Computational Biology";
    assert_eq!(parse_title(title), ("02701".to_string(), "A".to_string()));

    let title = "14513-syllabus-f18.pdf";
    assert_eq!(parse_title(title), ("14513".to_string(), "".to_string()));

    let title = "14809- Introduction to Cyber Intelligence.pdf";
    assert_eq!(parse_title(title), ("14809".to_string(), "".to_string()));

    let title = "14815 Syllabus.docx";
    assert_eq!(parse_title(title), ("14815".to_string(), "".to_string()));

    let title = "49-747_InnovationMindsetinPractice_Ayoob_E_Bodily_B.docx";
    assert_eq!(parse_title(title), ("49747".to_string(), "".to_string()));

    let title = "CMUiii_MIIPS Online 49-600_Syllabus.pdf";
    assert_eq!(parse_title(title), ("49600".to_string(), "".to_string()));

    let title = "85314.docx";
    assert_eq!(parse_title(title), ("85314".to_string(), "".to_string()));

    let title = "98317-A: Student Taught Courses (StuCo): Hype for Types";
    assert_eq!(parse_title(title), ("98317".to_string(), "A".to_string()));
}

#[test]
fn test_generate_combinations() {
    let combinations = generate_combinations();

    let expected_count = Department::all().len() * Season::all().len() * Year::all().len();
    assert_eq!(combinations.len(), expected_count);

    assert!(combinations.contains(&(Department::CS, Season::Fall, Year(2020))));
    assert!(combinations.contains(&(Department::MSC, Season::Spring, Year(2019))));
}

#[test]
fn titles() {
    let key = |n: &str, s: &str| (n.to_string(), s.to_string());
    assert_eq!(parse_title("S18 15122 Syllabus"), key("15122", ""));
    assert_eq!(parse_title("Fall S18 151229"), key("15122", ""));
    assert_eq!(parse_title("S18 1512 x"), key("18", ""));
    assert_eq!(parse_title("Syllabus"), key("unknown", ""));
    assert_eq!(parse_title(""), key("unknown", ""));
    assert_eq!(parse_title("15-122-A"), key("15122", "A"));
    assert_eq!(parse_title("15-122-A-B-C.pdf"), key("15122", "A-B-C"));
    assert_eq!(parse_title("15122-Objectives-2020"), key("15122", ""));
    assert_eq!(parse_title("15122-SYLLABUS-2020"), key("15122", ""));
    assert_eq!(parse_title("15122-notes-2020"), key("15122notes", "2020"));
    assert_eq!(parse_title("1512-2"), key("15122", ""));
    assert_eq!(parse_title("1512\u{e9}-2"), key("1512\u{e9}2", ""));
    assert_eq!(parse_title("151\u{e9}-2"), key("151\u{e9}", "2"));
    assert_eq!(parse_title("15122-"), key("15122", ""));
    assert_eq!(parse_title("x15122:A"), key("15122", ""));
}

#[test]
fn combinations_run_years_fastest() {
    let years = vec![Year(2018), Year(2019), Year(2020)];
    let all = combine(&years);
    assert_eq!(all.len(), 57 * 4 * 3);
    assert_eq!(all[0], (Department::CB, Season::Fall, Year(2018)));
    assert_eq!(all[1], (Department::CB, Season::Fall, Year(2019)));
    assert_eq!(all[3], (Department::CB, Season::Spring, Year(2018)));
    assert_eq!(all[11], (Department::CB, Season::Summer2, Year(2020)));
    assert_eq!(all[12], (Department::BSC, Season::Fall, Year(2018)));
    assert_eq!(all[57 * 4 * 3 - 1], (Department::CMU, Season::Summer2, Year(2020)));
    assert_eq!(combine(&vec![]), vec![]);
}

#[test]
fn files_of_a_department() {
    let s = |t: &str| t.to_string();
    let urls = vec![s("u1"), s("  "), s("u3"), s("u4")];
    let titles = vec![s("15122-A: Syllabus"), s("15150"), s("No number"), s("15-213")];
    assert_eq!(
        files_with_urls(&urls, &titles, Season::Fall, Year(2024)),
        vec![
            FileWithUrl {
                season: Season::Fall,
                year: Year(2024),
                number: s("15122"),
                section: s("A"),
                url: s("u1"),
            },
            FileWithUrl {
                season: Season::Fall,
                year: Year(2024),
                number: s("15213"),
                section: s(""),
                url: s("u4"),
            },
        ]
    );
    assert_eq!(
        files_with_urls(&urls, &titles[..3].to_vec(), Season::Fall, Year(2024)),
        vec![]
    );
    assert_eq!(files_with_urls(&vec![], &vec![], Season::Fall, Year(2024)), vec![]);
}

#[test]
fn final_addresses() {
    let s = |t: &str| t.to_string();
    let file = FileWithUrl {
        season: Season::Spring,
        year: Year(2023),
        number: s("15122"),
        section: s("A"),
        url: s("first"),
    };
    assert_eq!(
        with_final_url(file.clone(), s("final")),
        Some(FileWithUrl { url: s("final"), ..file.clone() })
    );
    assert_eq!(with_final_url(file.clone(), s(" \n")), None);
    assert_eq!(with_final_url(file, s("")), None);
}

#[test]
fn addresses_by_key() {
    let s = |t: &str| t.to_string();
    let file = |year: u16, season: Season, number: &str, section: &str, url: &str| FileWithUrl {
        season,
        year: Year(year),
        number: s(number),
        section: s(section),
        url: s(url),
    };
    let mut map = SyllabusMap::new();
    assert_eq!(map.get(Year(2024), Season::Fall, "15122", "A"), None);
    map.insert(file(2024, Season::Fall, "15122", "A", "one"));
    map.insert(file(2024, Season::Fall, "15122", "B", "two"));
    map.insert(file(2023, Season::Fall, "15122", "A", "three"));
    map.insert(file(2024, Season::Spring, "15122", "A", "four"));
    assert_eq!(map.get(Year(2024), Season::Fall, "15122", "A"), Some(s("one")));
    assert_eq!(map.get(Year(2024), Season::Fall, "15122", "B"), Some(s("two")));
    assert_eq!(map.get(Year(2023), Season::Fall, "15122", "A"), Some(s("three")));
    assert_eq!(map.get(Year(2024), Season::Spring, "15122", "A"), Some(s("four")));
    assert_eq!(map.get(Year(2024), Season::Summer1, "15122", "A"), None);
    assert_eq!(map.get(Year(2024), Season::Fall, "15150", "A"), None);
    map.insert(file(2024, Season::Fall, "15122", "A", "five"));
    assert_eq!(map.get(Year(2024), Season::Fall, "15122", "A"), Some(s("five")));

    let map = syllabus_map(vec![
        file(2024, Season::Fall, "15122", "", "old"),
        file(2024, Season::Fall, "15122", "", "new"),
    ]);
    assert_eq!(map.get(Year(2024), Season::Fall, "15122", ""), Some(s("new")));
}
