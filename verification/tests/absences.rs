use digreg_api::routes::absences_route::{Absence, AbsentHour, Justification};

#[test]
fn justification_codes_decode_to_the_documented_variants() {
    assert_eq!(Justification::from_code(2), Justification::Justified);
    assert_eq!(Justification::from_code(3), Justification::NotJustified);
    assert_eq!(Justification::from_code(4), Justification::ForSchool);
    assert_eq!(Justification::from_code(0), Justification::Pending);
    assert_eq!(Justification::from_code(99), Justification::Pending);
}

fn hour(number: u64, minutes: u64) -> AbsentHour {
    AbsentHour { date: 738_410, hour: number, minutes, minutes_begin: 0, minutes_end: 0 }
}

#[test]
fn total_minutes_sums_the_group() {
    let absence = Absence {
        justified: Justification::Justified,
        reason: None,
        note: None,
        reason_signature: None,
        reason_timestamp: None,
        group: vec![hour(3, 50), hour(4, 50)],
    };
    assert_eq!(absence.total_minutes(), 100);

    let empty = Absence { group: vec![], ..absence };
    assert_eq!(empty.total_minutes(), 0);
}
