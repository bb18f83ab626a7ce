use class_schedule::days::{DaySet, Days};

#[test]
fn test_day_set_from_str() {
    let days = DaySet::from_str("MWF").unwrap();
    assert!(days.contains(DaySet::monday()));
    assert!(!days.contains(DaySet::tuesday()));
    assert!(days.contains(DaySet::wednesday()));
    assert!(!days.contains(DaySet::thursday()));
    assert!(days.contains(DaySet::friday()));
    assert!(!days.contains(DaySet::saturday()));
    assert!(!days.contains(DaySet::sunday()));
}

#[test]
fn test_day_set_display() {
    let mut days = DaySet::new();
    days.add(DaySet::monday());
    days.add(DaySet::wednesday());
    days.add(DaySet::friday());

    assert_eq!(days.to_string(), "MWF");
}

#[test]
fn test_day_set_bitwise_operations() {
    let mwf = DaySet::monday() | DaySet::wednesday() | DaySet::friday();
    assert!(mwf.contains(DaySet::monday()));
    assert!(!mwf.contains(DaySet::tuesday()));
    assert!(mwf.contains(DaySet::wednesday()));
    assert!(!mwf.contains(DaySet::thursday()));
    assert!(mwf.contains(DaySet::friday()));

    let weekdays = DaySet::weekdays();
    assert_eq!(weekdays.to_string(), "MTWRF");
}

#[test]
fn every_set_of_days_round_trips() {
    for bits in 0u8..128 {
        let set = DaySet(bits);
        let text = set.to_string();
        assert_eq!(DaySet::from_str(&text).unwrap(), set);
        assert_eq!(Days::from_str(&text).unwrap(), Days::Days(set));
    }
}

#[test]
fn letters_that_are_no_days_are_passed_over() {
    assert_eq!(DaySet::from_str("xMyz W?").unwrap(), DaySet(0b101));
    assert_eq!(DaySet::from_str("").unwrap(), DaySet::none());
    assert_eq!(DaySet::from_str("mtw").unwrap(), DaySet::none());
    assert_eq!(DaySet::from_str("SU").unwrap(), DaySet::weekend());
    assert_eq!(DaySet::from_str("UMTWRFSMM").unwrap(), DaySet::all());
}

#[test]
fn complement_stays_within_the_week() {
    assert_eq!(!DaySet::weekdays(), DaySet::weekend());
    assert_eq!(!DaySet::none(), DaySet::all());
    assert_eq!(!DaySet::all(), DaySet::none());
    assert_eq!(!DaySet(0xFF), DaySet(0));
    assert_eq!(DaySet::weekdays() & DaySet::weekend(), DaySet::none());
    assert_eq!(DaySet::weekdays() | DaySet::weekend(), DaySet::all());
}

#[test]
fn set_add_and_remove() {
    let mut days = DaySet::default();
    days.set(DaySet::tuesday(), true);
    days.set(DaySet::thursday(), true);
    assert_eq!(days.to_string(), "TR");
    days.set(DaySet::tuesday(), false);
    assert_eq!(days.to_string(), "R");
    days.add(DaySet::weekend());
    assert_eq!(days.to_string(), "RSU");
    days.remove(DaySet::thursday());
    assert_eq!(days, DaySet::weekend());
    assert!(days.contains(DaySet::none()));
    assert!(!days.contains(DaySet::all()));
}

#[test]
fn to_be_announced() {
    assert_eq!(Days::from_str("TBA").unwrap(), Days::TBA);
    assert_eq!(Days::from_str("MWF").unwrap(), Days::Days(DaySet(0b10101)));
    assert_eq!(Days::TBA.to_string(), "TBA");
    assert_eq!(Days::Days(DaySet(0b10101)).to_string(), "MWF");
    assert_eq!(Days::default(), Days::TBA);
}

#[test]
fn sets_stay_within_the_week() {
    for a in 0u8..128 {
        for b in 0u8..128 {
            let (x, y) = (DaySet(a), DaySet(b));
            assert!((x | y).0 < 128);
            assert!((x & y).0 < 128);
            let mut added = x;
            added.add(y);
            assert_eq!(added, x | y);
            let mut set = x;
            set.set(y, true);
            assert_eq!(set, x | y);
            set.set(y, false);
            assert_eq!(set, x & !y);
        }
    }
    for a in 0u8..=255 {
        for b in [0u8, 1, 64, 127, 128, 255] {
            let mut left = DaySet(a);
            left.remove(DaySet(b));
            assert!(left.0 < 128);
            assert!((!DaySet(a)).0 < 128);
            assert!((DaySet(a) & DaySet(b & 127)).0 < 128);
        }
    }
}
