use chrono::{Datelike, NaiveDate, NaiveTime, TimeDelta, Timelike};
use digreg_api::routes::calendar_route::{
    lesson_duration_from_minutes, time_from_ts, week_start, CalendarResponse, Lesson, LessonRange,
    RawLesson, RawSlot, Subject,
};

fn day_number(year: i32, month: u32, day: u32) -> i32 {
    NaiveDate::from_ymd_opt(year, month, day).unwrap().num_days_from_ce()
}

fn seconds(hour: u32, minute: u32) -> u32 {
    NaiveTime::from_hms_opt(hour, minute, 0).unwrap().num_seconds_from_midnight()
}

/// A lesson on `date` spanning the single period `hour`.
fn lesson(date: i32, hour: u8, ttcid: i64) -> Lesson {
    let start = 25200 + i64::from(hour) * 3000;
    Lesson {
        id: None,
        ttcid,
        date,
        span: LessonRange::from_wire(hour, hour, start, start + 2700).unwrap(),
        time_show_enabled: true,
        class_id: 1,
        class_name: "1A".to_owned(),
        class_comment: String::new(),
        description: String::new(),
        note: String::new(),
        lesson_show: true,
        teachers: vec![],
        teachers_source: Some(0),
        teachers_to_notify: vec![],
        teacher_myself: None,
        can_see_teacher_source_markers: false,
        is_auto_notify: false,
        is_lesson_type_notify_on: false,
        exp_lt_default: false,
        is_secretary: false,
        subject: Subject {
            id: 1,
            name: "M".to_owned(),
            lernfeld: 0,
            default_lesson_content: String::new(),
            default_lesson_content_type: 0,
        },
        homework_exams: vec![],
        homework_exams_other: vec![],
        lesson_contents: vec![],
        rooms: vec![],
        read_only: true,
        is_substitute: false,
        link_to_previous_hour: false,
        lesson_duration: lesson_duration_from_minutes(50).unwrap(),
        critical_observations: vec![],
        missing_students: vec![],
        missing_students_including_inactive: vec![],
        students: vec![],
        grades: vec![],
        observations: vec![],
        absence_open_absences_students: vec![],
    }
}

fn raw(lesson: Lesson, linked_hours: Vec<RawLesson>) -> RawLesson {
    RawLesson { lesson, linked_hours }
}

fn slot(lesson: RawLesson) -> RawSlot {
    RawSlot { is_lesson: true, lesson: Some(lesson) }
}

#[test]
fn flattens_span_from_hour_and_time_objects() {
    let span = LessonRange::from_wire(2, 3, 27600, 33900).unwrap();
    assert_eq!(span.start.hour, 2);
    assert_eq!(span.end.hour, 3);
    assert_eq!(span.start.time, seconds(7, 40));
    assert_eq!(span.end.time, seconds(9, 25));
    assert_eq!(i64::from(span.duration()), TimeDelta::minutes(105).num_seconds());
    let duration = lesson_duration_from_minutes(50).unwrap();
    assert_eq!(duration.minutes(), 50);
    assert_eq!(TimeDelta::minutes(duration.minutes()), TimeDelta::minutes(50));
}

#[test]
fn out_of_day_times_and_durations_are_refused() {
    assert_eq!(time_from_ts(0), Some(0));
    assert_eq!(time_from_ts(86_399), Some(86_399));
    assert_eq!(time_from_ts(86_400), None);
    assert_eq!(time_from_ts(-1), None);
    assert!(LessonRange::from_wire(1, 1, 0, 90_000).is_none());
    let longest = lesson_duration_from_minutes(153_722_867_280_912).unwrap();
    assert_eq!(longest.minutes(), 153_722_867_280_912);
    assert_eq!(TimeDelta::try_minutes(longest.minutes()), Some(TimeDelta::minutes(153_722_867_280_912)));
    assert_eq!(lesson_duration_from_minutes(-153_722_867_280_912).map(|d| d.minutes()), Some(-153_722_867_280_912));
    assert_eq!(lesson_duration_from_minutes(153_722_867_280_913), None);
    assert_eq!(lesson_duration_from_minutes(-153_722_867_280_913), None);
}

#[test]
fn flattens_week_and_hoists_linked_hours() {
    // One day, one wire slot: a period-1 lesson whose block also covers
    // period 4 (carried in `linkedHours`), plus an empty non-lesson slot.
    let date = day_number(2026, 9, 7);
    let linked = raw(lesson(date, 4, 2), vec![]);
    let main = raw(lesson(date, 1, 1), vec![linked]);
    let week = vec![vec![vec![vec![slot(main), RawSlot { is_lesson: false, lesson: None }]]]];

    let response = CalendarResponse::from_raw_week(week);

    let day = &response.0[&date];
    let hours: Vec<u8> = day.iter().map(|lesson| lesson.span.start.hour).collect();
    assert_eq!(hours, [1, 4], "linked hour is hoisted into its own slot, in period order");
}

#[test]
fn linked_hours_land_on_their_own_dates_and_later_lessons_win() {
    let monday = day_number(2026, 9, 7);
    let tuesday = monday + 1;
    // A slot whose lesson is not a lesson is dropped; nesting of any depth is
    // flattened; the lesson taken last for a date and period is kept.
    let deep = raw(lesson(tuesday, 2, 30), vec![raw(lesson(tuesday, 5, 31), vec![])]);
    let first = raw(lesson(monday, 3, 10), vec![deep]);
    let second = raw(lesson(monday, 3, 20), vec![]);
    let ignored = RawSlot { is_lesson: false, lesson: Some(raw(lesson(monday, 6, 99), vec![])) };
    let week = vec![
        vec![vec![vec![slot(first)]]],
        vec![vec![vec![slot(second), ignored]]],
    ];

    let response = CalendarResponse::from_raw_week(week);

    assert_eq!(response.0.len(), 2);
    let mon: Vec<(u8, i64)> = response.0[&monday].iter().map(|l| (l.span.start.hour, l.ttcid)).collect();
    // `second` is taken first (the work list is taken from its end), so the
    // first slot's lesson is the last one recorded for period 3.
    assert_eq!(mon, [(3, 10)]);
    let tue: Vec<(u8, i64)> = response.0[&tuesday].iter().map(|l| (l.span.start.hour, l.ttcid)).collect();
    assert_eq!(tue, [(2, 30), (5, 31)]);
}

#[test]
fn an_empty_week_has_no_days() {
    assert!(CalendarResponse::from_raw_week(vec![]).0.is_empty());
    assert!(CalendarResponse::from_raw_week(vec![vec![vec![vec![]]]]).0.is_empty());
}

#[test]
fn week_start_snaps_a_mid_week_date_back_to_its_monday() {
    let wednesday = day_number(2025, 11, 12);
    assert_eq!(week_start(wednesday), day_number(2025, 11, 10));
    assert_eq!(week_start(day_number(2025, 11, 10)), day_number(2025, 11, 10));
    assert_eq!(week_start(day_number(2025, 11, 16)), day_number(2025, 11, 10));
    assert_eq!(week_start(1), 1);
    let before_year_one = NaiveDate::from_ymd_opt(0, 12, 31).unwrap();
    let monday = NaiveDate::from_num_days_from_ce_opt(week_start(before_year_one.num_days_from_ce())).unwrap();
    assert_eq!(monday.weekday(), chrono::Weekday::Mon);
    assert!(monday <= before_year_one);
}
