use class_schedule::reservation::{
    parse_primary_major_pattern, parse_school_pattern, ReservationType, Restriction, StudentType,
};

#[test]
fn test_student_type_parsing() {
    assert_eq!(
        StudentType::from_str("Freshmen").unwrap(),
        StudentType::Freshmen
    );
    assert_eq!(
        StudentType::from_str("Students").unwrap(),
        StudentType::Students
    );
    assert_eq!(
        StudentType::from_str("Seniors").unwrap(),
        StudentType::Seniors
    );
}

#[test]
fn test_student_type_round_trip() {
    for student_type in StudentType::all() {
        let s = student_type.to_string();
        let parsed = StudentType::from_str(&s).unwrap();
        assert_eq!(student_type, parsed);
    }
}

#[test]
fn test_restriction_department_parsing() {
    let restriction = Restriction::from_str("Some reservations are for Freshmen in SCS").unwrap();
    assert_eq!(restriction.student_type, Some(StudentType::Freshmen));
    assert_eq!(
        restriction.restriction_type,
        Some(ReservationType::School("SCS".to_owned()))
    );

    let restriction = Restriction::from_str("Some reservations are for Students in ECE").unwrap();
    assert_eq!(restriction.student_type, Some(StudentType::Students));
    assert_eq!(
        restriction.restriction_type,
        Some(ReservationType::School("ECE".to_owned()))
    );
}

#[test]
fn test_restriction_primary_major_parsing() {
    let restriction =
        Restriction::from_str("Some reservations are for Students with a primary major in INFOSYS")
            .unwrap();
    assert_eq!(restriction.student_type, Some(StudentType::Students));
    assert_eq!(
        restriction.restriction_type,
        Some(ReservationType::PrimaryMajor("INFOSYS".to_owned()))
    );

    let restriction =
        Restriction::from_str("Some reservations are for Freshmen with a primary major in BHA")
            .unwrap();
    assert_eq!(restriction.student_type, Some(StudentType::Freshmen));
    assert_eq!(
        restriction.restriction_type,
        Some(ReservationType::PrimaryMajor("BHA".to_owned()))
    );
}

#[test]
fn test_restriction_student_type_parsing() {
    let restriction = Restriction::from_str("Some reservations are for 5th YR Students").unwrap();
    assert_eq!(
        restriction.student_type,
        Some(StudentType::FifthYearStudents)
    );
    assert_eq!(
        restriction.restriction_type,
        Some(ReservationType::StudentType)
    );

    let restriction = Restriction::from_str("Some reservations are for Phd Candidates").unwrap();
    assert_eq!(restriction.student_type, Some(StudentType::PhdCandidates));
    assert_eq!(
        restriction.restriction_type,
        Some(ReservationType::StudentType)
    );

    let restriction = Restriction::from_str("Some reservations are for Graduate Students").unwrap();
    assert_eq!(
        restriction.student_type,
        Some(StudentType::GraduateStudents)
    );
    assert_eq!(
        restriction.restriction_type,
        Some(ReservationType::StudentType)
    );
}

#[test]
fn test_restriction_display() {
    let restriction = Restriction {
        student_type: Some(StudentType::Freshmen),
        restriction_type: Some(ReservationType::School("SCS".to_owned())),
    };
    assert_eq!(restriction.to_string(), "Freshmen in SCS");

    let restriction = Restriction {
        student_type: Some(StudentType::Students),
        restriction_type: Some(ReservationType::PrimaryMajor("INFOSYS".to_owned())),
    };
    assert_eq!(
        restriction.to_string(),
        "Students with a primary major in INFOSYS"
    );
}

#[test]
fn student_types_in_any_case() {
    assert_eq!(StudentType::from_str("SENIORS"), Ok(StudentType::Seniors));
    assert_eq!(StudentType::from_str("sophomores"), Ok(StudentType::Sophomores));
    assert_eq!(StudentType::from_str("JuNiOrS"), Ok(StudentType::Juniors));
    assert_eq!(
        StudentType::from_str("5TH yr STUDENTS"),
        Ok(StudentType::FifthYearStudents)
    );
    assert_eq!(
        StudentType::from_str("Alumni"),
        Err("Unknown student type: Alumni".to_string())
    );
    assert_eq!(
        StudentType::from_str(" Seniors"),
        Err("Unknown student type:  Seniors".to_string())
    );
    assert_eq!(StudentType::all().len(), 8);
    assert_eq!(StudentType::PhdCandidates.as_str(), "Phd Candidates");
}

#[test]
fn restriction_errors() {
    assert_eq!(
        Restriction::from_str("Reserved for Freshmen"),
        Err("Missing expected prefix".to_string())
    );
    assert_eq!(
        Restriction::from_str("Some reservations are for Alumni in SCS"),
        Err("Unknown student type: Alumni".to_string())
    );
    assert_eq!(
        Restriction::from_str("Some reservations are for Alumni with a primary major in CS"),
        Err("Unknown student type: Alumni".to_string())
    );
    assert_eq!(
        Restriction::from_str("Some reservations are for \n  everyone \n\n here \n"),
        Err("Unable to parse reservation: Some reservations are for everyone here".to_string())
    );
}

#[test]
fn restriction_forms() {
    assert_eq!(
        Restriction::from_str("Some reservations are for   Seniors  in   CIT  "),
        Ok(Restriction {
            student_type: Some(StudentType::Seniors),
            restriction_type: Some(ReservationType::School("CIT".to_string())),
        })
    );
    assert_eq!(
        Restriction::from_str(
            "Some reservations are for Students with a primary major in Music in CFA"
        ),
        Ok(Restriction {
            student_type: Some(StudentType::Students),
            restriction_type: Some(ReservationType::PrimaryMajor("Music in CFA".to_string())),
        })
    );
    assert_eq!(
        Restriction::from_str("Some reservations are for Students in A in B"),
        Ok(Restriction {
            student_type: Some(StudentType::Students),
            restriction_type: Some(ReservationType::School("A in B".to_string())),
        })
    );
}

#[test]
fn restriction_texts() {
    let by_standing = Restriction {
        student_type: Some(StudentType::Juniors),
        restriction_type: Some(ReservationType::StudentType),
    };
    assert_eq!(by_standing.to_string(), "Juniors ");
    assert_eq!(Restriction::unknown().to_string(), "Unknown restriction");
    assert_eq!(
        Restriction {
            student_type: Some(StudentType::Juniors),
            restriction_type: None
        }
        .to_string(),
        "Unknown restriction"
    );
    assert_eq!(ReservationType::StudentType.to_string(), "");
    assert_eq!(ReservationType::School("SCS".to_string()).to_string(), "in SCS");
    assert_eq!(
        ReservationType::PrimaryMajor("BHA".to_string()).to_string(),
        "with a primary major in BHA"
    );
}

#[test]
fn patterns() {
    assert_eq!(
        parse_primary_major_pattern("Students with a primary major in INFOSYS"),
        Some(("Students".to_string(), "INFOSYS".to_string()))
    );
    assert_eq!(parse_primary_major_pattern("Students in ECE"), None);
    assert_eq!(
        parse_school_pattern(" Freshmen  in  SCS "),
        Some(("Freshmen".to_string(), "SCS".to_string()))
    );
    assert_eq!(
        parse_school_pattern("a in b in c"),
        Some(("a".to_string(), "b in c".to_string()))
    );
    assert_eq!(parse_school_pattern("Freshmen"), None);
}
