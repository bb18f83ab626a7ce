use chrono::{Datelike, Utc};
use class_schedule::department::Department;
use class_schedule::syllabus_data::{calendar_year, Season, Year};

#[test]
fn test_department_display() {
    assert_eq!(Department::CS.to_string(), "CS");
    assert_eq!(Department::ROB.to_string(), "ROB");
    assert_eq!(Department::MSC.to_string(), "MSC");
}

#[test]
fn test_department_from_str() {
    assert_eq!(Department::from_str("CS").unwrap(), Department::CS);
    assert_eq!(Department::from_str("ROB").unwrap(), Department::ROB);
    assert_eq!(Department::from_str("MSC").unwrap(), Department::MSC);
}

#[test]
fn test_department_all() {
    let all = Department::all();
    assert_eq!(all.len(), 57);
}

#[test]
fn test_season_as_str() {
    assert_eq!(Season::Fall.as_str(), "F");
    assert_eq!(Season::Summer2.as_str(), "N");
}

#[test]
fn test_season_as_full_str() {
    assert_eq!(Season::Spring.as_full_str(), "spring");
    assert_eq!(Season::Summer1.as_full_str(), "summer_1");
}

#[test]
fn test_season_from_str() {
    assert_eq!(Season::from_str("F").unwrap(), Season::Fall);
    assert_eq!(Season::from_str("N").unwrap(), Season::Summer2);
}

#[test]
fn test_season_all() {
    let all = Season::all();
    assert_eq!(all.len(), 4);
}

#[test]
fn test_season_round_trip() {
    for season in Season::all() {
        let s = season.as_str();
        assert_eq!(Season::from_str(s).unwrap(), season);
    }
}

#[test]
fn test_year_display() {
    assert_eq!(Year(2020).to_string(), "20");
    assert_eq!(Year(2023).to_string(), "23");
}

#[test]
fn test_year_all() {
    let all = Year::all();
    let current_year = Utc::now().year() as u16;

    assert!(all.contains(&Year(2018)));
    assert!(all.contains(&Year(current_year)));
}

#[test]
fn seasons() {
    assert_eq!(
        Season::all(),
        vec![Season::Fall, Season::Spring, Season::Summer1, Season::Summer2]
    );
    assert_eq!(Season::from_str("S"), Ok(Season::Spring));
    assert_eq!(Season::from_str("M"), Ok(Season::Summer1));
    assert_eq!(Season::from_str("f"), Err(()));
    assert_eq!(Season::from_str("Fall"), Err(()));
    assert_eq!(Season::from_str(""), Err(()));
    assert_eq!(Season::Fall.as_full_str(), "fall");
    assert_eq!(Season::Summer2.as_full_str(), "summer_2");
    assert_eq!(Season::Spring.as_str(), "S");
    assert_eq!(Season::Summer1.as_str(), "M");
}

#[test]
fn years() {
    assert_eq!(Year(2005).to_string(), "05");
    assert_eq!(Year(1999).to_string(), "99");
    assert_eq!(Year(7).to_string(), "07");
    assert_eq!(Year(65535).to_string(), "35");
    assert_eq!(Year::from_str("2025"), Ok(Year(2025)));
    assert_eq!(Year::from_str("+2025"), Ok(Year(2025)));
    assert_eq!(Year::from_str("0"), Ok(Year(0)));
    assert_eq!(Year::from_str("0002025"), Ok(Year(2025)));
    assert_eq!(Year::from_str("65535"), Ok(Year(65535)));
    assert_eq!(Year::from_str("65536"), Err(()));
    assert_eq!(Year::from_str("99999999999999999999"), Err(()));
    assert_eq!(Year::from_str(""), Err(()));
    assert_eq!(Year::from_str("+"), Err(()));
    assert_eq!(Year::from_str("-1"), Err(()));
    assert_eq!(Year::from_str("20 25"), Err(()));
    assert_eq!(
        Year::through(2021),
        vec![Year(2018), Year(2019), Year(2020), Year(2021)]
    );
    assert_eq!(Year::through(2018), vec![Year(2018)]);
    assert_eq!(Year::through(2017), vec![]);
    let all = Year::all();
    assert_eq!(all, Year::through(Utc::now().year() as u16));
}

#[test]
fn departments() {
    let all = Department::all();
    assert_eq!(all[0], Department::CB);
    assert_eq!(all[11], Department::CS);
    assert_eq!(all[56], Department::CMU);
    for (i, department) in all.iter().enumerate() {
        assert_eq!(Department::from_index(i), *department);
        assert_eq!(Department::from_str(department.as_str()), Ok(*department));
        assert_eq!(department.to_string(), department.as_str());
    }
    assert_eq!(Department::from_index(57), Department::CMU);
    assert_eq!(Department::from_str("cs"), Err(()));
    assert_eq!(Department::from_str(""), Err(()));
    assert_eq!(Department::from_str("XYZ"), Err(()));
    assert_eq!(Department::H00.as_str(), "H00");
    assert_eq!(Department::S3D.as_str(), "S3D");
}

#[test]
fn calendar_years() {
    assert_eq!(calendar_year(Some(0)), Some(1970));
    assert_eq!(calendar_year(Some(1_431_648_000)), Some(2015));
    assert_eq!(calendar_year(Some(1_735_689_599)), Some(2024));
    assert_eq!(calendar_year(Some(1_735_689_600)), Some(2025));
    assert_eq!(calendar_year(Some(2018)), Some(1970));
    assert_eq!(calendar_year(None), None);
    assert_eq!(calendar_year(Some(u64::MAX)), None);
    assert_eq!(calendar_year(Some(i64::MAX as u64)), None);
    let now = Utc::now();
    assert_eq!(calendar_year(Some(now.timestamp() as u64)), Some(now.year()));
}

#[test]
fn years_until_a_year() {
    assert_eq!(
        Year::all_until(Some(2021)),
        vec![Year(2018), Year(2019), Year(2020), Year(2021)]
    );
    assert_eq!(Year::all_until(Some(2018)), vec![Year(2018)]);
    assert_eq!(Year::all_until(Some(1970)), vec![]);
    assert_eq!(Year::all_until(None), vec![]);
    // A year counts by its low sixteen bits.
    assert_eq!(Year::all_until(Some(65536 + 2019)), vec![Year(2018), Year(2019)]);
    assert_eq!(Year::all_until(Some(65536)), vec![]);
    assert_eq!(Year::all_until(Some(-1)).len(), 65535 - 2018 + 1);
    assert_eq!(
        Year::all_until(calendar_year(Some(1_577_836_800))),
        vec![Year(2018), Year(2019), Year(2020)]
    );
    assert_eq!(Year::all(), Year::all_until(Some(Utc::now().year())));
}
