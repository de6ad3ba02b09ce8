//! `POST api/student/all_subjects`: every subject with a grade summary, and the
//! grades themselves, sent as fixed two-decimal strings like `"9.25"`.

use crate::routes::Route;
use crate::utils::number::{
    append_decimal, append_padded2, decimal_text, i32_text_value, padded2_text, parse_i32,
};
use crate::utils::text::chars_of;
use vstd::prelude::*;

verus! {

/// `POST api/student/all_subjects`, scoped to whichever semester the session is
/// currently switched to server-side.
pub struct AllSubjectsRoute {
    /// The student's user id, as read from the session config.
    pub student_id: i64,
}

impl Route for AllSubjectsRoute {
    fn get_route() -> (r: &'static str)
        ensures
            r@ == "api/student/all_subjects"@,
    {
        "api/student/all_subjects"
    }
}

#[derive(Debug)]
pub struct Subject {
    pub id: i64,
    pub name: String,
}

#[derive(Debug)]
pub struct Student {
    pub id: i64,
    pub first_name: String,
    pub last_name: String,
}

#[derive(Debug)]
pub struct GradeEntry {
    pub grade: Grade,
    /// Percent weight of this grade in the subject average.
    pub weight: i64,
    /// Day number counted from 1 January of year 1 (that day being `1`).
    pub date: i32,
    /// Display name of the grade type (sent as `type`).
    pub type_label: String,
    pub type_id: i64,
    pub student_id: i64,
    pub subject_id: i64,
    pub semester: i64,
    /// Sent as `0` / non-`0`.
    pub cancelled: bool,
    pub created_time_stamp: String,
    pub cancelled_time_stamp: Option<String>,
    pub description: String,
}

/// A grade, stored as hundredths (`major * 100 + minor`), the representation
/// the official client parses the wire string into.
#[derive(Debug, Clone, Copy, PartialEq, Eq, Structural, PartialOrd, Ord, Hash)]
pub struct Grade(i32);

/// The error for a string that is not a `major.dd` grade; it keeps the string.
#[derive(Debug, PartialEq, Eq)]
pub struct GradeParseError(pub String);

impl View for Grade {
    type V = int;

    closed spec fn view(&self) -> int {
        self.0 as int
    }
}

/// `a / b` rounded toward zero, as Rust's integer division computes it.
pub open spec fn div_toward_zero(a: int, b: int) -> int {
    if a >= 0 {
        a / b
    } else {
        -((-a) / b)
    }
}

/// The remainder that goes with [`div_toward_zero`]; it has the sign of `a`.
pub open spec fn rem_toward_zero(a: int, b: int) -> int {
    a - div_toward_zero(a, b) * b
}

/// The position of the first `.` in `s`, if any.
pub open spec fn first_dot(s: Seq<char>) -> Option<int>
    decreases s.len(),
{
    if s.len() == 0 {
        None
    } else if s[0] == '.' {
        Some(0)
    } else {
        match first_dot(s.drop_first()) {
            Some(i) => Some(i + 1),
            None => None,
        }
    }
}

/// The hundredths a grade string stands for: split at its first dot, both
/// halves read as `i32` values, the digits after the dot taken verbatim as
/// hundredths.
pub open spec fn grade_text_value(s: Seq<char>) -> Option<int> {
    match first_dot(s) {
        Some(i) => match (i32_text_value(s.subrange(0, i)), i32_text_value(s.subrange(i + 1, s.len() as int))) {
            (Some(w), Some(f)) => Some(w * 100 + f),
            _ => None,
        },
        None => None,
    }
}

/// Whether `s` is a grade string whose value fits a grade.
pub open spec fn is_grade_text(s: Seq<char>) -> bool {
    match grade_text_value(s) {
        Some(v) => i32::MIN <= v <= i32::MAX,
        None => false,
    }
}

/// A grade written as `major.dd`: the whole part, a dot, and the fraction
/// zero-padded to two digits.
pub open spec fn grade_text(c: int) -> Seq<char> {
    decimal_text(div_toward_zero(c, 100)) + seq!['.'] + padded2_text(rem_toward_zero(c, 100))
}

impl Grade {
    /// The grade with the given hundredths.
    pub fn from_centi(centi: i32) -> (g: Grade)
        ensures
            g@ == centi,
    {
        Grade(centi)
    }

    /// The grade as hundredths, e.g. `925` for `"9.25"`.
    pub fn centi(self) -> (r: i32)
        ensures
            r == self@,
    {
        self.0
    }

    /// The integer part, e.g. `9` for `"9.25"`.
    pub fn whole(self) -> (r: i32)
        ensures
            r == div_toward_zero(self@, 100),
    {
        self.0 / 100
    }

    /// The fractional part in hundredths, e.g. `25` for `"9.25"`.
    pub fn fraction(self) -> (r: i32)
        ensures
            r == rem_toward_zero(self@, 100),
    {
        self.0 % 100
    }

    /// Reads a grade string: split on the first dot, both halves read as
    /// integers, the digits after the dot used verbatim as hundredths. A string
    /// that does not have that form, or whose value does not fit, is refused.
    pub fn parse(s: &str) -> (r: Result<Grade, GradeParseError>)
        ensures
            is_grade_text(s@) ==> (r matches Ok(g) && g@ == grade_text_value(s@)->Some_0),
            !is_grade_text(s@) ==> (r matches Err(e) && e.0@ == s@),
    {
        let text = chars_of(s);
        let n = text.len();
        let mut i: usize = 0;
        assert(text@.subrange(0, n as int) =~= text@);
        while i < n && text[i] != '.'
            invariant
                i <= n,
                n == text@.len(),
                text@ == s@,
                forall|k: int| 0 <= k < i ==> text@[k] != '.',
                first_dot(text@) == match first_dot(text@.subrange(i as int, n as int)) {
                    Some(j) => Some(j + i),
                    None => None::<int>,
                },
            decreases n - i,
        {
            let ghost sub = text@.subrange(i as int, n as int);
            assert(sub.drop_first() =~= text@.subrange(i + 1, n as int));
            i = i + 1;
        }
        if i == n {
            assert(text@.subrange(i as int, n as int) =~= Seq::<char>::empty());
            return Err(GradeParseError(s.to_owned()));
        }
        assert(first_dot(text@) == Some(i as int)) by {
            assert(text@.subrange(i as int, n as int)[0] == '.');
        }
        let whole_text = crate::utils::text::slice_chars(&text, 0, i);
        let fraction_text = crate::utils::text::slice_chars(&text, i + 1, n);
        let whole = match parse_i32(&whole_text) {
            Some(w) => w,
            None => return Err(GradeParseError(s.to_owned())),
        };
        let fraction = match parse_i32(&fraction_text) {
            Some(f) => f,
            None => return Err(GradeParseError(s.to_owned())),
        };
        let value = whole as i64 * 100 + fraction as i64;
        if value < i32::MIN as i64 || value > i32::MAX as i64 {
            return Err(GradeParseError(s.to_owned()));
        }
        Ok(Grade(value as i32))
    }

    /// The grade as `major.dd`, e.g. `"9.25"` for 925 hundredths.
    pub fn to_string(&self) -> (r: String)
        ensures
            r@ == grade_text(self@),
    {
        let mut out = String::new();
        append_decimal(&mut out, self.whole() as i64);
        proof {
            reveal_strlit(".");
        }
        out.append(".");
        append_padded2(&mut out, self.fraction() as i64);
        out
    }
}

/// A grade is its whole part times a hundred plus its fraction; the fraction
/// has fewer than three digits and the sign of the grade.
pub proof fn lemma_grade_parts(g: Grade)
    ensures
        div_toward_zero(g@, 100) * 100 + rem_toward_zero(g@, 100) == g@,
        -100 < rem_toward_zero(g@, 100) < 100,
        g@ >= 0 ==> rem_toward_zero(g@, 100) >= 0,
        g@ <= 0 ==> rem_toward_zero(g@, 100) <= 0,
{
}

proof fn lemma_first_dot_after(a: Seq<char>, b: Seq<char>)
    requires
        forall|i: int| 0 <= i < a.len() ==> #[trigger] a[i] != '.',
    ensures
        first_dot(a + seq!['.'] + b) == Some(a.len() as int),
    decreases a.len(),
{
    let s = a + seq!['.'] + b;
    if a.len() > 0 {
        assert(s.drop_first() =~= a.drop_first() + seq!['.'] + b);
        assert forall|i: int| 0 <= i < a.drop_first().len() implies #[trigger] a.drop_first()[i] != '.' by {
            assert(a.drop_first()[i] == a[i + 1]);
        }
        lemma_first_dot_after(a.drop_first(), b);
        assert(s[0] == a[0]);
    } else {
        assert(s[0] == '.');
    }
}

/// Reading back the text of a grade gives the grade: `parse(g.to_string())`
/// is `g` for every grade.
pub proof fn lemma_grade_text_round_trip(g: Grade)
    ensures
        is_grade_text(grade_text(g@)),
        grade_text_value(grade_text(g@)) == Some(g@),
{
    let c = g@;
    let w = div_toward_zero(c, 100);
    let f = rem_toward_zero(c, 100);
    assert(-21474837 <= w <= 21474837);
    assert(-100 < f < 100);
    crate::utils::number::lemma_decimal_text_value(w);
    crate::utils::number::lemma_padded2_text_value(f);
    let a = decimal_text(w);
    let b = padded2_text(f);
    let s = grade_text(c);
    assert(s == a + seq!['.'] + b);
    lemma_first_dot_after(a, b);
    assert(s.subrange(0, a.len() as int) =~= a);
    assert(s.subrange(a.len() as int + 1, s.len() as int) =~= b);
    assert(w * 100 + f == c);
}

impl std::str::FromStr for Grade {
    type Err = GradeParseError;

    /// Reads a grade string as [`Grade::parse`] does.
    fn from_str(s: &str) -> (r: Result<Self, Self::Err>)
        ensures
            is_grade_text(s@) ==> (r matches Ok(g) && g@ == grade_text_value(s@)->Some_0),
            !is_grade_text(s@) ==> (r matches Err(e) && e.0@ == s@),
    {
        Grade::parse(s)
    }
}

impl GradeParseError {
    /// The error's message: ``"`<string>` is not a `major.dd` grade string"``.
    pub fn to_string(&self) -> (r: String)
        ensures
            r@ == "`"@ + self.0@ + "` is not a `major.dd` grade string"@,
    {
        let mut out = String::from_str("`");
        out.append(self.0.as_str());
        out.append("` is not a `major.dd` grade string");
        out
    }
}

} // verus!
