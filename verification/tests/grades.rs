use digreg_api::routes::grades_route::{Grade, GradeParseError};

#[test]
fn parses_dotted_grade_strings() {
    assert_eq!("9.00".parse(), Ok(Grade::from_centi(900)));
    assert_eq!("9.75".parse(), Ok(Grade::from_centi(975)));
    assert_eq!("10.00".parse(), Ok(Grade::from_centi(1000)));
    assert_eq!(Grade::from_centi(925).to_string(), "9.25");
}

#[test]
fn rejects_malformed_grade_strings() {
    assert!("9".parse::<Grade>().is_err());
    assert!("".parse::<Grade>().is_err());
    assert!("abc".parse::<Grade>().is_err());
}

#[test]
fn grade_parts_split_at_the_hundreds() {
    let grade = Grade::from_centi(925);
    assert_eq!(grade.centi(), 925);
    assert_eq!(grade.whole(), 9);
    assert_eq!(grade.fraction(), 25);
    let negative = Grade::from_centi(-925);
    assert_eq!(negative.whole(), -9);
    assert_eq!(negative.fraction(), -25);
}

#[test]
fn grade_text_pads_the_fraction_and_reads_back() {
    assert_eq!(Grade::from_centi(905).to_string(), "9.05");
    assert_eq!(Grade::from_centi(0).to_string(), "0.00");
    assert_eq!(Grade::from_centi(-925).to_string(), "-9.-25");
    for centi in [0, 5, 99, 100, 925, 1000, -5, -925, i32::MAX, i32::MIN] {
        let grade = Grade::from_centi(centi);
        assert_eq!(Grade::parse(&grade.to_string()), Ok(grade));
    }
}

#[test]
fn grade_strings_follow_integer_parsing() {
    assert_eq!(Grade::parse("+9.5"), Ok(Grade::from_centi(905)));
    assert_eq!(Grade::parse("9.123"), Ok(Grade::from_centi(1023)));
    assert_eq!(Grade::parse("-1.50"), Ok(Grade::from_centi(-50)));
    assert_eq!(Grade::parse("9.1.2"), Err(GradeParseError("9.1.2".to_owned())));
    assert_eq!(Grade::parse("9."), Err(GradeParseError("9.".to_owned())));
    assert_eq!(Grade::parse(".25"), Err(GradeParseError(".25".to_owned())));
    assert_eq!(Grade::parse(" 9.25"), Err(GradeParseError(" 9.25".to_owned())));
    assert_eq!(Grade::parse("-.5"), Err(GradeParseError("-.5".to_owned())));
    assert!(Grade::parse("21474837.00").is_err());
    assert!(Grade::parse("99999999999.00").is_err());
    assert_eq!(Grade::parse("21474836.47"), Ok(Grade::from_centi(i32::MAX)));
}

#[test]
fn grade_parse_error_names_the_string() {
    let error = Grade::parse("abc").unwrap_err();
    assert_eq!(error.to_string(), "`abc` is not a `major.dd` grade string");
}
