//! `POST api/calendar/student`: one school week of timetable data, and the
//! flattening of its nested wire shape into per-day lesson lists.

use crate::routes::Route;
use std::collections::BTreeMap;
use vstd::prelude::*;

verus! {

/// An amount of time, as chrono represents it.
#[verifier::external_type_specification]
#[verifier::external_body]
pub struct ExTimeDelta(chrono::TimeDelta);

/// `chrono::TimeDelta::try_minutes`: a span of whole minutes. The contract
/// claims what chrono documents: the result exists exactly when the span is
/// within `i64::MAX` milliseconds either way; the span itself is left unsaid.
#[verifier::external_body]
fn time_delta_try_minutes(minutes: i64) -> (r: Option<chrono::TimeDelta>)
    ensures
        r is Some <==> -i64::MAX <= minutes * 60_000 <= i64::MAX,
{
    chrono::TimeDelta::try_minutes(minutes)
}

/// `POST api/calendar/student`: one school week (5 days) of timetable data.
pub struct CalendarRoute {
    /// Day number (counted from 1 January of year 1, that day being `1`) of
    /// the Monday of the week to fetch. The server rejects other weekdays.
    pub start_date: i32,
}

impl Route for CalendarRoute {
    fn get_route() -> (r: &'static str)
        ensures
            r@ == "api/calendar/student"@,
    {
        "api/calendar/student"
    }
}

/// The weekday of a day number, `0` for Monday through `6` for Sunday
/// (1 January of year 1 was a Monday).
pub open spec fn weekday_from_monday(day: int) -> int {
    (day - 1) % 7
}

/// The Monday of the week that holds `day`.
pub open spec fn monday_of(day: int) -> int {
    day - weekday_from_monday(day)
}

/// The Monday of the week that holds `day`: the day a timetable request for
/// that week has to name.
pub fn week_start(day: i32) -> (r: i32)
    requires
        day >= i32::MIN + 6,
    ensures
        r == monday_of(day as int),
{
    let shifted: i64 = day as i64 - 1 + 7 * 400_000_000;
    let weekday = shifted % 7;
    assert(weekday == weekday_from_monday(day as int));
    (day as i64 - weekday) as i32
}

/// The week start is a Monday, at most six days before the day, and the week
/// start of a Monday is that Monday.
pub proof fn lemma_week_start(day: int)
    ensures
        weekday_from_monday(monday_of(day)) == 0,
        monday_of(day) <= day < monday_of(day) + 7,
        monday_of(monday_of(day)) == monday_of(day),
{
}

/// A wall-clock time sent as seconds since midnight: kept when it is a time
/// of day, refused otherwise.
pub fn time_from_ts(ts: i64) -> (r: Option<u32>)
    ensures
        0 <= ts < 86_400 ==> r == Some(ts as u32),
        !(0 <= ts < 86_400) ==> r is None,
{
    if 0 <= ts && ts < 86_400 {
        Some(ts as u32)
    } else {
        None
    }
}

/// Whether a span of `minutes` minutes is one chrono can represent (within
/// `i64::MAX` milliseconds either way).
pub open spec fn fits_time_delta(minutes: int) -> bool {
    -i64::MAX <= minutes * 60_000 <= i64::MAX
}

/// The length of one lesson period, in whole minutes, always within the
/// range of a `chrono::TimeDelta`.
#[derive(Debug, Clone, Copy, PartialEq, Eq)]
pub struct LessonDuration {
    minutes: i64,
}

impl View for LessonDuration {
    type V = int;

    /// The number of minutes.
    closed spec fn view(&self) -> int {
        self.minutes as int
    }
}

impl LessonDuration {
    #[verifier::type_invariant]
    spec fn fits(self) -> bool {
        fits_time_delta(self.minutes as int)
    }

    /// The number of minutes.
    pub fn minutes(&self) -> (r: i64)
        ensures
            r == self@,
            fits_time_delta(r as int),
    {
        proof {
            use_type_invariant(self);
        }
        self.minutes
    }
}

/// The length of a lesson, sent in minutes: kept when it fits a time span,
/// refused otherwise.
pub fn lesson_duration_from_minutes(minutes: i64) -> (r: Option<LessonDuration>)
    ensures
        r is Some <==> fits_time_delta(minutes as int),
        r matches Some(d) ==> d@ == minutes,
{
    match time_delta_try_minutes(minutes) {
        Some(_) => Some(LessonDuration { minutes }),
        None => None,
    }
}

/// One end of a [`LessonRange`]: a lesson-period number and the wall-clock
/// time at that boundary.
#[derive(Debug, Clone, Copy, PartialEq, Eq, PartialOrd, Ord, Hash)]
pub struct LessonBound {
    /// Seconds since midnight (below 86 400).
    pub time: u32,
    /// Lesson-period number (`1..=9`).
    pub hour: u8,
}

/// A lesson block's extent, `first period start .. last period end`.
#[derive(Debug, Clone, Copy)]
pub struct LessonRange {
    pub start: LessonBound,
    pub end: LessonBound,
}

#[derive(Debug)]
pub struct Teacher {
    pub id: i64,
    pub first_name: String,
    pub last_name: String,
}

#[derive(Debug)]
pub struct Subject {
    pub id: i64,
    pub name: String,
    pub lernfeld: i64,
    pub default_lesson_content: String,
    pub default_lesson_content_type: i64,
}

#[derive(Debug)]
pub struct Room {
    pub id: Option<i64>,
    pub name: String,
}

/// Homework / exam entry.
#[derive(Debug)]
pub struct HomeworkExam {
    pub id: i64,
    pub name: String,
    /// Small category code, not a flag. `0` is the client's "warning" signal.
    pub homework: i64,
    pub online: i64,
    pub deadline: Option<String>,
    pub has_grades: bool,
    pub has_grade_group_submissions: bool,
    pub type_id: i64,
    pub type_label: String,
}

#[derive(Debug)]
pub struct LessonContent {
    pub id: i64,
    pub name: String,
    /// Small category code, not a flag; see [`HomeworkExam::homework`].
    pub homework: i64,
    pub online: i64,
    pub deadline_start: Option<String>,
    pub deadline: Option<String>,
    pub deadline_overtime: Option<String>,
    pub has_lesson_content_submissions: bool,
    pub type_id: i64,
    pub type_label: String,
    pub lesson_content_submissions: Vec<LessonContentSubmission>,
    pub lesson_content_students: Vec<serde_json::Value>,
    pub lesson_content_students_percentage: i64,
}

/// Submission attached to a [`LessonContent`]; its ids are strings.
#[derive(Debug)]
pub struct LessonContentSubmission {
    pub kind: String,
    pub original_name: Option<String>,
    pub id: String,
    pub lesson_content_id: String,
}

impl LessonRange {
    /// The block's extent from the wire fields `hour`, `toHour` and the `ts`
    /// (seconds since midnight) of `timeStartObject` and `timeToEndObject`.
    pub fn from_wire(hour: u8, to_hour: u8, start_ts: i64, end_ts: i64) -> (r: Option<LessonRange>)
        ensures
            (0 <= start_ts < 86_400 && 0 <= end_ts < 86_400) ==> r == Some(
                LessonRange {
                    start: LessonBound { time: start_ts as u32, hour },
                    end: LessonBound { time: end_ts as u32, hour: to_hour },
                },
            ),
            !(0 <= start_ts < 86_400 && 0 <= end_ts < 86_400) ==> r is None,
    {
        let start = time_from_ts(start_ts)?;
        let end = time_from_ts(end_ts)?;
        Some(LessonRange { start: LessonBound { time: start, hour }, end: LessonBound { time: end, hour: to_hour } })
    }

    /// Seconds from the block's start to its end, breaks between periods
    /// included. For a per-period figure see [`Lesson::lesson_duration`].
    pub fn duration(&self) -> (r: i64)
        ensures
            r == self.end.time - self.start.time,
    {
        self.end.time as i64 - self.start.time as i64
    }
}

/// One scheduled lesson period (or block of periods).
#[derive(Debug)]
pub struct Lesson {
    pub id: Option<i64>,
    pub ttcid: i64,
    /// Day number counted from 1 January of year 1 (that day being `1`).
    pub date: i32,
    /// `.start` is the first period (its number and start time), `.end` the
    /// last period covered (its number and end time).
    pub span: LessonRange,
    pub time_show_enabled: bool,
    pub class_id: i64,
    pub class_name: String,
    pub class_comment: String,
    pub description: String,
    pub note: String,
    pub lesson_show: bool,
    pub teachers: Vec<Teacher>,
    pub teachers_source: Option<i64>,
    pub teachers_to_notify: Vec<serde_json::Value>,
    pub teacher_myself: Option<serde_json::Value>,
    pub can_see_teacher_source_markers: bool,
    pub is_auto_notify: bool,
    pub is_lesson_type_notify_on: bool,
    pub exp_lt_default: bool,
    pub is_secretary: bool,
    pub subject: Subject,
    pub homework_exams: Vec<HomeworkExam>,
    pub homework_exams_other: Vec<HomeworkExam>,
    pub lesson_contents: Vec<LessonContent>,
    pub rooms: Vec<Room>,
    pub read_only: bool,
    pub is_substitute: bool,
    pub link_to_previous_hour: bool,
    pub lesson_duration: LessonDuration,
    pub critical_observations: Vec<serde_json::Value>,
    pub missing_students: Vec<serde_json::Value>,
    pub missing_students_including_inactive: Vec<serde_json::Value>,
    pub students: Vec<serde_json::Value>,
    pub grades: Vec<serde_json::Value>,
    pub observations: Vec<serde_json::Value>,
    pub absence_open_absences_students: Vec<serde_json::Value>,
}

/// A lesson as it arrives on the wire: a [`Lesson`] plus the further periods
/// of the same block (`linkedHours`), which may themselves carry more.
#[derive(Debug)]
pub struct RawLesson {
    pub lesson: Lesson,
    pub linked_hours: Vec<RawLesson>,
}

/// One period slot of the wire week.
#[derive(Debug)]
pub struct RawSlot {
    pub is_lesson: bool,
    pub lesson: Option<RawLesson>,
}

/// The wire week with its map keys dropped: for each date, for each of the two
/// meaningless nesting levels, the period slots, every level in key order.
pub type RawWeek = Vec<Vec<Vec<Vec<RawSlot>>>>;

/// One school week: each date with the lessons scheduled that day, in period
/// order.
#[derive(Debug)]
pub struct CalendarResponse(pub BTreeMap<i32, Vec<Lesson>>);

// ---------------------------------------------------------------------------
// Model of the flattening

/// The period a lesson occupies in its day.
pub open spec fn period_of(l: Lesson) -> u8 {
    l.span.start.hour
}

/// The views of a sequence of vectors.
pub open spec fn views_of<T>(s: Seq<Vec<T>>) -> Seq<Seq<T>> {
    s.map_values(|v: Vec<T>| v@)
}

/// Every slot of the wire week, in key order.
pub open spec fn week_slots(raw: Seq<Vec<Vec<Vec<RawSlot>>>>) -> Seq<RawSlot> {
    views_of(views_of(views_of(raw).flatten()).flatten()).flatten()
}

/// The lesson a slot holds, if it is a lesson slot.
pub open spec fn slot_lesson(slot: RawSlot) -> Option<RawLesson> {
    if slot.is_lesson { slot.lesson } else { None }
}

/// The lessons of the lesson slots, in order.
pub open spec fn slot_lessons(slots: Seq<RawSlot>) -> Seq<RawLesson>
    decreases slots.len(),
{
    if slots.len() == 0 {
        seq![]
    } else {
        let rest = slot_lessons(slots.drop_last());
        match slot_lesson(slots.last()) {
            Some(l) => rest.push(l),
            None => rest,
        }
    }
}

/// The order in which lessons leave a work list that is taken from its end,
/// each taken entry putting its linked hours at the end: the last entry, then
/// everything linked below it, then the rest of the list.
pub open spec fn take_order(pending: Seq<RawLesson>) -> Seq<Lesson>
    decreases pending,
{
    if pending.len() == 0 {
        seq![]
    } else {
        let last = pending.last();
        proof {
            assert(decreases_to!(pending => pending[pending.len() - 1]));
        }
        seq![last.lesson] + take_order(last.linked_hours@) + take_order(pending.drop_last())
    }
}

/// Every lesson of a work list, linked hours at any depth included, is taken
/// exactly once: as many lessons leave the list as it holds.
pub proof fn lemma_take_order_len(pending: Seq<RawLesson>)
    ensures
        take_order(pending).len() == forest_size(pending),
    decreases pending,
{
    if pending.len() > 0 {
        let last = pending.last();
        assert(decreases_to!(pending => pending[pending.len() - 1]));
        lemma_take_order_len(last.linked_hours@);
        lemma_take_order_len(pending.drop_last());
    }
}

/// The number of lessons in a work list, linked hours included.
pub open spec fn forest_size(pending: Seq<RawLesson>) -> nat
    decreases pending,
{
    if pending.len() == 0 {
        0
    } else {
        let last = pending.last();
        proof {
            assert(decreases_to!(pending => pending[pending.len() - 1]));
        }
        1 + forest_size(last.linked_hours@) + forest_size(pending.drop_last())
    }
}

/// The last lesson of `p` on `date` in period `hour`, if there is one.
pub open spec fn latest(p: Seq<Lesson>, date: i32, hour: u8) -> Option<Lesson>
    decreases p.len(),
{
    if p.len() == 0 {
        None
    } else if p.last().date == date && period_of(p.last()) == hour {
        Some(p.last())
    } else {
        latest(p.drop_last(), date, hour)
    }
}

/// Lessons in strictly increasing period order.
pub open spec fn periods_increasing(s: Seq<Lesson>) -> bool {
    forall|i: int, j: int| 0 <= i < j < s.len() ==> period_of(s[i]) < period_of(s[j])
}

/// `days` holds, for every date and period that occurs in `p`, the last lesson
/// of `p` there, each day's lessons in period order, and nothing else.
pub open spec fn is_week_of(days: Map<i32, Vec<Lesson>>, p: Seq<Lesson>) -> bool {
    &&& forall|d: i32|
        #![trigger days.contains_key(d)]
        days.contains_key(d) <==> exists|j: int| 0 <= j < p.len() && p[j].date == d
    &&& forall|d: i32|
        #![trigger days[d]]
        days.contains_key(d) ==> {
            &&& periods_increasing(days[d]@)
            &&& forall|i: int|
                #![trigger days[d]@[i]]
                0 <= i < days[d]@.len() ==> days[d]@[i].date == d && latest(
                    p,
                    d,
                    period_of(days[d]@[i]),
                ) == Some(days[d]@[i])
        }
    &&& forall|j: int|
        #![trigger p[j]]
        0 <= j < p.len() ==> exists|i: int|
            0 <= i < days[p[j].date]@.len() && period_of(days[p[j].date]@[i]) == period_of(p[j])
}


// ---------------------------------------------------------------------------
// Laws of the flattening

proof fn lemma_flatten_contains<A>(s: Seq<Seq<A>>, a: int, b: int)
    requires
        0 <= a < s.len(),
        0 <= b < s[a].len(),
    ensures
        s.flatten().contains(s[a][b]),
    decreases s.len(),
{
    let f = s.flatten();
    assert(f == s.first() + s.drop_first().flatten());
    if a == 0 {
        assert(f[b] == s[a][b]);
    } else {
        assert(s.drop_first()[a - 1] == s[a]);
        lemma_flatten_contains(s.drop_first(), a - 1, b);
        let m = choose|m: int| 0 <= m < s.drop_first().flatten().len() && s.drop_first().flatten()[m] == s[a][b];
        assert(f[s.first().len() + m] == s[a][b]);
    }
}

/// Every slot of every date and every inner level of the wire week is among
/// the slots the flattening reads.
pub proof fn lemma_week_slots_complete(raw: Seq<Vec<Vec<Vec<RawSlot>>>>, d: int, i: int, j: int, k: int)
    requires
        0 <= d < raw.len(),
        0 <= i < raw[d]@.len(),
        0 <= j < raw[d]@[i]@.len(),
        0 <= k < raw[d]@[i]@[j]@.len(),
    ensures
        week_slots(raw).contains(raw[d]@[i]@[j]@[k]),
{
    let x1 = views_of(raw);
    assert(x1[d] == raw[d]@);
    lemma_flatten_contains(x1, d, i);
    let f1 = x1.flatten();
    let m = choose|m: int| 0 <= m < f1.len() && f1[m] == raw[d]@[i];
    let x2 = views_of(f1);
    assert(x2[m] == raw[d]@[i]@);
    lemma_flatten_contains(x2, m, j);
    let f2 = x2.flatten();
    let n = choose|n: int| 0 <= n < f2.len() && f2[n] == raw[d]@[i]@[j];
    let x3 = views_of(f2);
    assert(x3[n] == raw[d]@[i]@[j]@);
    lemma_flatten_contains(x3, n, k);
}

proof fn lemma_slot_lessons_contains(slots: Seq<RawSlot>, k: int)
    requires
        0 <= k < slots.len(),
        slots[k].is_lesson,
        slots[k].lesson is Some,
    ensures
        slot_lessons(slots).contains(slots[k].lesson->0),
    decreases slots.len(),
{
    let rest = slot_lessons(slots.drop_last());
    if k == slots.len() - 1 {
        assert(slot_lessons(slots) == rest.push(slots[k].lesson->0));
        assert(slot_lessons(slots)[rest.len() as int] == slots[k].lesson->0);
    } else {
        assert(slots.drop_last()[k] == slots[k]);
        lemma_slot_lessons_contains(slots.drop_last(), k);
        let m = choose|m: int| 0 <= m < rest.len() && rest[m] == slots[k].lesson->0;
        match slot_lesson(slots.last()) {
            Some(l) => assert(slot_lessons(slots)[m] == slots[k].lesson->0),
            None => {},
        }
    }
}

proof fn lemma_take_order_contains(pending: Seq<RawLesson>, k: int)
    requires
        0 <= k < pending.len(),
    ensures
        take_order(pending).contains(pending[k].lesson),
    decreases pending.len(),
{
    let last = pending.last();
    let t = take_order(pending);
    assert(t == seq![last.lesson] + take_order(last.linked_hours@) + take_order(pending.drop_last()));
    if k == pending.len() - 1 {
        assert(t[0] == last.lesson);
    } else {
        assert(pending.drop_last()[k] == pending[k]);
        lemma_take_order_contains(pending.drop_last(), k);
        let rest = take_order(pending.drop_last());
        let m = choose|m: int| 0 <= m < rest.len() && rest[m] == pending[k].lesson;
        let off = 1 + take_order(last.linked_hours@).len();
        assert(t[off + m] == pending[k].lesson);
    }
}

/// No lesson slot of the wire week is lost, whichever date it sits under: for
/// every lesson slot `raw[d][i][j][k]`, the flattened week has the lesson's
/// date and, on it, a lesson in the lesson's period.
pub proof fn lemma_every_lesson_slot_is_kept(
    raw: Seq<Vec<Vec<Vec<RawSlot>>>>,
    days: Map<i32, Vec<Lesson>>,
    d: int,
    i: int,
    j: int,
    k: int,
)
    requires
        is_week_of(days, take_order(slot_lessons(week_slots(raw)))),
        0 <= d < raw.len(),
        0 <= i < raw[d]@.len(),
        0 <= j < raw[d]@[i]@.len(),
        0 <= k < raw[d]@[i]@[j]@.len(),
        raw[d]@[i]@[j]@[k].is_lesson,
        raw[d]@[i]@[j]@[k].lesson is Some,
    ensures
        ({
            let l = raw[d]@[i]@[j]@[k].lesson->0.lesson;
            &&& days.contains_key(l.date)
            &&& exists|x: int|
                0 <= x < days[l.date]@.len() && period_of(days[l.date]@[x]) == period_of(l)
        }),
{
    let slot = raw[d]@[i]@[j]@[k];
    let slots = week_slots(raw);
    lemma_week_slots_complete(raw, d, i, j, k);
    let a = choose|a: int| 0 <= a < slots.len() && slots[a] == slot;
    lemma_slot_lessons_contains(slots, a);
    let pending = slot_lessons(slots);
    let b = choose|b: int| 0 <= b < pending.len() && pending[b] == slot.lesson->0;
    lemma_take_order_contains(pending, b);
    let p = take_order(pending);
    let c = choose|c: int| 0 <= c < p.len() && p[c] == slot.lesson->0.lesson;
    assert(p[c].date == slot.lesson->0.lesson.date);
}

// ---------------------------------------------------------------------------
// Lemmas on the work-list model

proof fn lemma_take_order_concat(a: Seq<RawLesson>, b: Seq<RawLesson>)
    ensures
        take_order(a + b) == take_order(b) + take_order(a),
        forest_size(a + b) == forest_size(b) + forest_size(a),
    decreases b.len(),
{
    if b.len() == 0 {
        assert(a + b =~= a);
    } else {
        let ab = a + b;
        assert(ab.last() == b.last());
        assert(ab.drop_last() =~= a + b.drop_last());
        lemma_take_order_concat(a, b.drop_last());
        let last = b.last();
        assert(take_order(ab) == seq![last.lesson] + take_order(last.linked_hours@) + take_order(
            a + b.drop_last(),
        ));
        assert(take_order(ab) =~= take_order(b) + take_order(a));
    }
}

// ---------------------------------------------------------------------------
// Executable flattening

/// Concatenates the vectors of `vv`, in order.
fn concat_all<T>(vv: Vec<Vec<T>>) -> (r: Vec<T>)
    ensures
        r@ == views_of(vv@).flatten(),
{
    let mut rest = vv;
    let mut out: Vec<T> = Vec::new();
    let ghost whole = views_of(rest@).flatten();
    assert(out@ + views_of(rest@).flatten() =~= whole);
    while rest.len() > 0
        invariant
            out@ + views_of(rest@).flatten() == whole,
        decreases rest.len(),
    {
        let ghost before = rest@;
        let mut first = rest.remove(0);
        proof {
            let vb = views_of(before);
            assert(vb.first() == first@);
            assert(vb.drop_first() =~= views_of(rest@));
            assert(vb.flatten() == vb.first() + vb.drop_first().flatten());
        }
        out.append(&mut first);
        assert(out@ + views_of(rest@).flatten() =~= whole);
    }
    assert(views_of(rest@) =~= Seq::<Seq<T>>::empty());
    assert(out@ =~= whole);
    out
}

impl RawSlot {
    /// The lesson in this slot, or `None` for a period with nothing scheduled.
    pub fn into_lesson(self) -> (r: Option<RawLesson>)
        ensures
            r == slot_lesson(self),
    {
        if self.is_lesson {
            self.lesson
        } else {
            None
        }
    }
}

/// The lessons of the lesson slots among `slots`, in order.
fn lessons_of_slots(slots: Vec<RawSlot>) -> (r: Vec<RawLesson>)
    ensures
        r@ == slot_lessons(slots@),
{
    let ghost all = slots@;
    let mut rest = slots;
    let mut out: Vec<RawLesson> = Vec::new();
    let mut k: usize = 0;
    let n: usize = rest.len();
    assert(all.subrange(0, 0) =~= Seq::<RawSlot>::empty());
    while rest.len() > 0
        invariant
            k <= all.len(),
            all.len() == n,
            rest@ == all.subrange(k as int, all.len() as int),
            out@ == slot_lessons(all.subrange(0, k as int)),
        decreases rest.len(),
    {
        let slot = rest.remove(0);
        assert(all.subrange(0, k + 1).drop_last() =~= all.subrange(0, k as int));
        assert(all.subrange(0, k + 1).last() == slot);
        match slot.into_lesson() {
            Some(l) => out.push(l),
            None => {},
        }
        k = k + 1;
        assert(rest@ =~= all.subrange(k as int, all.len() as int));
    }
    assert(all.subrange(0, k as int) =~= all);
    out
}

/// Places `lesson` into a day kept in period order, replacing the lesson that
/// held its period, if any.
fn place_in_day(day: &mut Vec<Lesson>, lesson: Lesson)
    requires
        periods_increasing(old(day)@),
    ensures
        periods_increasing(final(day)@),
        final(day)@.contains(lesson),
        forall|x: Lesson|
            final(day)@.contains(x) ==> x == lesson || (old(day)@.contains(x) && period_of(x)
                != period_of(lesson)),
        forall|x: Lesson|
            old(day)@.contains(x) && period_of(x) != period_of(lesson) ==> final(day)@.contains(x),
{
    let h = lesson.span.start.hour;
    let mut i: usize = 0;
    while i < day.len() && day[i].span.start.hour < h
        invariant
            i <= day.len(),
            day@ == old(day)@,
            forall|k: int| 0 <= k < i ==> period_of(#[trigger] day@[k]) < h,
        decreases day.len() - i,
    {
        i = i + 1;
    }
    let ghost before = day@;
    if i < day.len() && day[i].span.start.hour == h {
        day.remove(i);
        day.insert(i, lesson);
        assert(day@ =~= before.update(i as int, lesson));
        assert forall|x: Lesson| before.contains(x) && period_of(x) != h implies day@.contains(
            x,
        ) by {
            let k = choose|k: int| 0 <= k < before.len() && before[k] == x;
            assert(k != i);
            assert(day@[k] == x);
        }
        assert forall|x: Lesson| day@.contains(x) implies x == lesson || (before.contains(x)
            && period_of(x) != h) by {
            let k = choose|k: int| 0 <= k < day@.len() && day@[k] == x;
            if k != i {
                assert(before[k] == x);
                if k < i {
                    assert(period_of(before[k]) < period_of(before[i as int]));
                } else {
                    assert(period_of(before[i as int]) < period_of(before[k]));
                }
            }
        }
        assert(day@[i as int] == lesson);
    } else {
        day.insert(i, lesson);
        assert(day@ =~= before.insert(i as int, lesson));
        assert forall|a: int, b: int| 0 <= a < b < day@.len() implies period_of(day@[a])
            < period_of(day@[b]) by {
            if b < i {
            } else if b == i {
            } else if a < i {
                assert(period_of(before[a]) < h);
                if i < before.len() {
                    assert(period_of(before[i as int]) >= h);
                    assert(period_of(before[i as int]) != h);
                    if b - 1 > i {
                        assert(period_of(before[i as int]) < period_of(before[b - 1]));
                    }
                }
            } else if a == i {
                assert(period_of(before[i as int]) >= h);
                assert(period_of(before[i as int]) != h);
                if b - 1 > i {
                    assert(period_of(before[i as int]) < period_of(before[b - 1]));
                }
            } else {
                assert(period_of(before[a - 1]) < period_of(before[b - 1]));
            }
        }
        assert forall|x: Lesson| before.contains(x) && period_of(x) != h implies day@.contains(
            x,
        ) by {
            let k = choose|k: int| 0 <= k < before.len() && before[k] == x;
            if k < i {
                assert(day@[k] == x);
            } else {
                assert(day@[k + 1] == x);
            }
        }
        assert forall|x: Lesson| day@.contains(x) implies x == lesson || (before.contains(x)
            && period_of(x) != h) by {
            let k = choose|k: int| 0 <= k < day@.len() && day@[k] == x;
            if k < i {
                assert(before[k] == x);
            } else if k > i {
                assert(before[k - 1] == x);
                assert(period_of(before[i as int]) != h);
                if k - 1 > i {
                    assert(period_of(before[i as int]) < period_of(before[k - 1]));
                }
            }
        }
        assert(day@[i as int] == lesson);
    }
}


/// Records `lesson` as the latest lesson of its date and period.
fn record_lesson(days: &mut BTreeMap<i32, Vec<Lesson>>, lesson: Lesson, Ghost(p): Ghost<Seq<Lesson>>)
    requires
        is_week_of(old(days)@, p),
    ensures
        is_week_of(final(days)@, p.push(lesson)),
{
    let date = lesson.date;
    let ghost old_days = days@;
    let removed = days.remove(&date);
    let mut day = match removed {
        Some(v) => v,
        None => Vec::new(),
    };
    let ghost old_day = day@;
    assert(old_days.contains_key(date) ==> old_day == old_days[date]@);
    assert(!old_days.contains_key(date) ==> old_day == Seq::<Lesson>::empty());
    assert(periods_increasing(old_day)) by {
        if old_days.contains_key(date) {
            assert(periods_increasing(old_days[date]@));
        }
    }
    let ghost l = lesson;
    place_in_day(&mut day, lesson);
    days.insert(date, day);
    proof {
        let q = p.push(l);
        let nd = days@;
        assert(nd == old_days.insert(date, day));
        assert(q[q.len() - 1] == l);
        assert forall|k: int| 0 <= k < p.len() implies #[trigger] q[k] == p[k] by {}
        // Which dates are present.
        assert forall|d: i32| nd.contains_key(d) <==> exists|j: int| 0 <= j < q.len() && q[j].date == d by {
            if nd.contains_key(d) {
                if d == date {
                    assert(q[p.len() as int].date == d);
                } else {
                    assert(old_days.contains_key(d));
                    let j = choose|j: int| 0 <= j < p.len() && p[j].date == d;
                    assert(q[j].date == d);
                }
            }
            if exists|j: int| 0 <= j < q.len() && q[j].date == d {
                let j = choose|j: int| 0 <= j < q.len() && q[j].date == d;
                if j < p.len() {
                    assert(p[j].date == d);
                    assert(old_days.contains_key(d));
                }
            }
        }
        // Each present day is ordered and holds latest lessons.
        assert forall|d: i32| nd.contains_key(d) implies {
            &&& periods_increasing(#[trigger] nd[d]@)
            &&& forall|i: int|
                #![trigger nd[d]@[i]]
                0 <= i < nd[d]@.len() ==> nd[d]@[i].date == d && latest(
                    q,
                    d,
                    period_of(nd[d]@[i]),
                ) == Some(nd[d]@[i])
        } by {
            if d == date {
                assert forall|i: int| 0 <= i < nd[d]@.len() implies nd[d]@[i].date == d
                    && latest(q, d, period_of(#[trigger] nd[d]@[i])) == Some(nd[d]@[i]) by {
                    let x = nd[d]@[i];
                    assert(day@.contains(x));
                    if x != l {
                        assert(old_day.contains(x));
                        let k = choose|k: int| 0 <= k < old_day.len() && old_day[k] == x;
                        assert(old_days.contains_key(date));
                        assert(old_days[date]@[k] == x);
                        assert(q.drop_last() =~= p);
                    }
                }
            } else {
                assert(nd[d] == old_days[d]);
                assert(q.drop_last() =~= p);
                assert forall|i: int| 0 <= i < nd[d]@.len() implies nd[d]@[i].date == d
                    && latest(q, d, period_of(#[trigger] nd[d]@[i])) == Some(nd[d]@[i]) by {
                    assert(old_days[d]@[i].date == d);
                }
            }
        }
        // Every lesson seen has its period filled.
        assert forall|j: int| 0 <= j < q.len() implies exists|i: int|
            0 <= i < nd[(#[trigger] q[j]).date]@.len() && period_of(nd[q[j].date]@[i]) == period_of(q[j]) by {
            if j == p.len() {
                let k = choose|k: int| 0 <= k < day@.len() && day@[k] == l;
                assert(nd[q[j].date]@[k] == l);
            } else {
                let dj = p[j].date;
                let i0 = choose|i: int| 0 <= i < old_days[dj]@.len() && period_of(old_days[dj]@[i]) == period_of(p[j]);
                if dj != date {
                    assert(nd[dj] == old_days[dj]);
                    assert(period_of(nd[dj]@[i0]) == period_of(q[j]));
                } else if period_of(p[j]) == period_of(l) {
                    let k = choose|k: int| 0 <= k < day@.len() && day@[k] == l;
                    assert(nd[dj]@[k] == l);
                } else {
                    let x = old_days[dj]@[i0];
                    assert(old_day[i0] == x);
                    assert(old_day.contains(x));
                    assert(day@.contains(x));
                    let k = choose|k: int| 0 <= k < day@.len() && day@[k] == x;
                    assert(nd[dj]@[k] == x);
                }
            }
        }
    }
}

/// Flattens the wire week into each date's lessons in period order: non-lesson
/// slots are dropped and every linked hour becomes a lesson of its own, on its
/// own date. Linked hours are walked with an explicit work list, so nesting of
/// any depth is handled without recursion.
pub fn extract_days(raw: RawWeek) -> (days: BTreeMap<i32, Vec<Lesson>>)
    ensures
        is_week_of(days@, take_order(slot_lessons(week_slots(raw@)))),
{
    let ghost raw_view = raw@;
    let slots = concat_all(concat_all(concat_all(raw)));
    assert(slots@ == week_slots(raw_view));
    let mut pending = lessons_of_slots(slots);
    let ghost initial = pending@;
    assert(initial == slot_lessons(week_slots(raw_view)));
    let ghost mut processed: Seq<Lesson> = seq![];
    let mut days: BTreeMap<i32, Vec<Lesson>> = BTreeMap::new();
    assert(processed + take_order(pending@) =~= take_order(initial));
    loop
        invariant
            processed + take_order(pending@) == take_order(initial),
            is_week_of(days@, processed),
        ensures
            is_week_of(days@, take_order(initial)),
        decreases forest_size(pending@),
    {
        match pending.pop() {
            Some(raw_lesson) => {
                let ghost before = pending@.push(raw_lesson);
                assert(before.drop_last() =~= pending@);
                let RawLesson { lesson, mut linked_hours } = raw_lesson;
                let ghost children = linked_hours@;
                pending.append(&mut linked_hours);
                proof {
                    lemma_take_order_concat(before.drop_last(), children);
                    assert(pending@ == before.drop_last() + children);
                }
                record_lesson(&mut days, lesson, Ghost(processed));
                proof {
                    processed = processed.push(lesson);
                    assert(processed + take_order(pending@) =~= take_order(initial));
                }
            },
            None => {
                assert(processed =~= take_order(initial));
                break;
            },
        }
    }
    days
}

impl CalendarResponse {
    /// Builds the week from its wire shape (see [`extract_days`]).
    pub fn from_raw_week(raw: RawWeek) -> (r: CalendarResponse)
        ensures
            is_week_of(r.0@, take_order(slot_lessons(week_slots(raw@)))),
    {
        CalendarResponse(extract_days(raw))
    }
}

} // verus!
