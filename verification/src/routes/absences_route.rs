//! `POST api/student/dashboard/absences`: the student's absences, past and
//! upcoming.

use crate::routes::Route;
use vstd::prelude::*;

verus! {

/// `POST api/student/dashboard/absences`, with an empty body.
pub struct AbsencesRoute {}

impl Route for AbsencesRoute {
    fn get_route() -> (r: &'static str)
        ensures
            r@ == "api/student/dashboard/absences"@,
    {
        "api/student/dashboard/absences"
    }
}

/// A past absence, made up of one or more consecutive missed lesson hours.
#[derive(Debug)]
pub struct Absence {
    pub justified: Justification,
    pub reason: Option<String>,
    pub note: Option<String>,
    pub reason_signature: Option<String>,
    pub reason_timestamp: Option<String>,
    pub group: Vec<AbsentHour>,
}

/// One missed lesson period within an [`Absence`].
#[derive(Debug)]
pub struct AbsentHour {
    /// Day number counted from 1 January of year 1 (that day being `1`).
    pub date: i32,
    /// Lesson-period number.
    pub hour: u64,
    /// Duration in minutes; `50` is one full lesson.
    pub minutes: u64,
    /// Minutes arrived late.
    pub minutes_begin: u64,
    /// Minutes left early.
    pub minutes_end: u64,
}

/// An upcoming absence, announced in advance, given as a date and period
/// range.
#[derive(Debug)]
pub struct FutureAbsence {
    pub justified: Justification,
    pub reason: Option<String>,
    pub note: Option<String>,
    pub reason_signature: Option<String>,
    pub reason_timestamp: Option<String>,
    /// Day numbers counted from 1 January of year 1 (that day being `1`).
    pub start_date: i32,
    pub end_date: i32,
    /// First lesson-period number covered.
    pub start_time: u64,
    /// Last lesson-period number covered.
    pub end_time: u64,
}

/// Whether an absence has been excused, decoded from the integer code the
/// server sends for it.
#[derive(Debug, Clone, Copy, PartialEq, Eq, Structural)]
pub enum Justification {
    /// Code `2`: justified.
    Justified,
    /// Code `3`: not justified.
    NotJustified,
    /// Code `4`: excused for a school activity (e.g. a field trip).
    ForSchool,
    /// Any other code: not yet processed.
    Pending,
}

/// The justification a wire code stands for.
pub open spec fn justification_of(code: u64) -> Justification {
    if code == 2 {
        Justification::Justified
    } else if code == 3 {
        Justification::NotJustified
    } else if code == 4 {
        Justification::ForSchool
    } else {
        Justification::Pending
    }
}

impl Justification {
    pub fn from_code(code: u64) -> (j: Self)
        ensures
            j == justification_of(code),
            (j == Justification::Justified) <==> code == 2,
            (j == Justification::NotJustified) <==> code == 3,
            (j == Justification::ForSchool) <==> code == 4,
            (j == Justification::Pending) <==> (code != 2 && code != 3 && code != 4),
    {
        match code {
            2 => Self::Justified,
            3 => Self::NotJustified,
            4 => Self::ForSchool,
            _ => Self::Pending,
        }
    }
}

/// The total of the minutes of a list of missed hours.
pub open spec fn minutes_sum(hours: Seq<AbsentHour>) -> nat
    decreases hours.len(),
{
    if hours.len() == 0 {
        0
    } else {
        minutes_sum(hours.drop_last()) + hours.last().minutes as nat
    }
}

/// Law: each code decodes on its own value alone: `2` is justified, `3` not
/// justified, `4` for school, and every other code, `0` and `1` among them,
/// is still pending.
pub proof fn lemma_justification_codes(code: u64)
    ensures
        (justification_of(code) == Justification::Justified) <==> code == 2,
        (justification_of(code) == Justification::NotJustified) <==> code == 3,
        (justification_of(code) == Justification::ForSchool) <==> code == 4,
        (justification_of(code) == Justification::Pending) <==> (code != 2 && code != 3 && code
            != 4),
{
}

/// Law: one missed hour counts exactly its own `minutes`; its late arrival
/// and early leaving are already inside that figure and are not added again.
pub proof fn lemma_minutes_sum_single(h: AbsentHour)
    ensures
        minutes_sum(seq![h]) == h.minutes,
{
    assert(seq![h].drop_last() =~= Seq::<AbsentHour>::empty());
    assert(minutes_sum(Seq::<AbsentHour>::empty()) == 0);
}

/// Law: the minutes of two runs of hours put together are the minutes of
/// the one plus those of the other.
pub proof fn lemma_minutes_sum_concat(a: Seq<AbsentHour>, b: Seq<AbsentHour>)
    ensures
        minutes_sum(a + b) == minutes_sum(a) + minutes_sum(b),
    decreases b.len(),
{
    if b.len() == 0 {
        assert(a + b =~= a);
    } else {
        lemma_minutes_sum_concat(a, b.drop_last());
        assert((a + b).drop_last() =~= a + b.drop_last());
        assert((a + b).last() == b.last());
    }
}

/// Law: the total reads the `minutes` of each hour and nothing else: two
/// lists of hours whose `minutes` agree one by one have the same total,
/// whatever their dates, periods, `minutes_begin` and `minutes_end`.
pub proof fn lemma_minutes_sum_reads_only_minutes(a: Seq<AbsentHour>, b: Seq<AbsentHour>)
    requires
        a.len() == b.len(),
        forall|i: int| 0 <= i < a.len() ==> #[trigger] a[i].minutes == b[i].minutes,
    ensures
        minutes_sum(a) == minutes_sum(b),
    decreases a.len(),
{
    if a.len() > 0 {
        let (da, db) = (a.drop_last(), b.drop_last());
        assert forall|i: int| 0 <= i < da.len() implies #[trigger] da[i].minutes == db[i].minutes by {
            assert(da[i] == a[i]);
            assert(db[i] == b[i]);
        }
        lemma_minutes_sum_reads_only_minutes(da, db);
        assert(a.last().minutes == b.last().minutes) by {
            assert(a[a.len() - 1].minutes == b[a.len() - 1].minutes);
        }
    }
}

proof fn lemma_minutes_sum_prefix(hours: Seq<AbsentHour>, k: int)
    requires
        0 <= k <= hours.len(),
    ensures
        minutes_sum(hours.subrange(0, k)) <= minutes_sum(hours),
    decreases hours.len() - k,
{
    if k < hours.len() {
        lemma_minutes_sum_prefix(hours, k + 1);
        assert(hours.subrange(0, k + 1).drop_last() =~= hours.subrange(0, k));
    } else {
        assert(hours.subrange(0, k) =~= hours);
    }
}

impl Absence {
    /// Total minutes missed across every hour in this absence.
    pub fn total_minutes(&self) -> (r: u64)
        requires
            minutes_sum(self.group@) <= u64::MAX,
        ensures
            r == minutes_sum(self.group@),
    {
        let n = self.group.len();
        let mut total: u64 = 0;
        let mut i: usize = 0;
        assert(self.group@.subrange(0, 0) =~= Seq::<AbsentHour>::empty());
        while i < n
            invariant
                i <= n,
                n == self.group@.len(),
                minutes_sum(self.group@) <= u64::MAX,
                total == minutes_sum(self.group@.subrange(0, i as int)),
            decreases n - i,
        {
            proof {
                assert(self.group@.subrange(0, i + 1).drop_last() =~= self.group@.subrange(0, i as int));
                lemma_minutes_sum_prefix(self.group@, i + 1);
            }
            total = total + self.group[i].minutes;
            i = i + 1;
        }
        assert(self.group@.subrange(0, n as int) =~= self.group@);
        total
    }
}

} // verus!
