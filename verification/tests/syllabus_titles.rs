use class_schedule::department::Department;
use class_schedule::syllabi::{generate_combinations, parse_title};
use class_schedule::syllabus_data::{Season, Year};

#[test]
fn syllabi_test_parse_title() {
    let title = "02701-A: CPCB Course - Current Topics in Computational Biology";
    assert_eq!(parse_title(title), ("02701".to_string(), "A".to_string()));

    let title = "14513-syllabus-f18.pdf";
    assert_eq!(parse_title(title), ("14513".to_string(), "".to_string()));

    let title = "14809- Introduction to Cyber Intelligence.pdf";
    assert_eq!(parse_title(title), ("14809".to_string(), "".to_string()));

    let title = "14815 Syllabus.docx";
    assert_eq!(parse_title(title), ("14815".to_string(), "".to_string()));

    let title = "49-747_InnovationMindsetinPractice_Ayoob_E_Bodily_B.docx";
    assert_eq!(parse_title(title), ("49747".to_string(), "".to_string()));

    let title = "CMUiii_MIIPS Online 49-600_Syllabus.pdf";
    assert_eq!(parse_title(title), ("49600".to_string(), "".to_string()));

    let title = "85314.docx";
    assert_eq!(parse_title(title), ("85314".to_string(), "".to_string()));

    let title = "98317-A: Student Taught Courses (StuCo): Hype for Types";
    assert_eq!(parse_title(title), ("98317".to_string(), "A".to_string()));
}

#[test]
fn syllabi_test_generate_combinations() {
    let combinations = generate_combinations();

    let expected_count = Department::all().len() * Season::all().len() * Year::all().len();
    assert_eq!(combinations.len(), expected_count);

    assert!(combinations.contains(&(Department::CS, Season::Fall, Year(2020))));
    assert!(combinations.contains(&(Department::MSC, Season::Spring, Year(2019))));
}
