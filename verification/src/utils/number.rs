//! Decimal integers as text: reading them as `str::parse::<i32>` does and
//! writing them as `{}` and `{:02}` do.

use vstd::prelude::*;

verus! {

/// Whether `c` is an ASCII decimal digit.
pub open spec fn is_digit(c: char) -> bool {
    '0' <= c <= '9'
}

/// The value of a digit character.
pub open spec fn digit_value(c: char) -> int {
    c as int - '0' as int
}

/// The character of a digit value in `0..=9`.
pub open spec fn digit_char(d: int) -> char {
    (d + '0' as int) as char
}

/// Whether every character of `s` is a digit.
pub open spec fn all_digits(s: Seq<char>) -> bool {
    forall|i: int| 0 <= i < s.len() ==> is_digit(#[trigger] s[i])
}

/// The number a string of digits spells, most significant digit first.
pub open spec fn digits_value(s: Seq<char>) -> int
    decreases s.len(),
{
    if s.len() == 0 {
        0
    } else {
        digits_value(s.drop_last()) * 10 + digit_value(s.last())
    }
}

/// The integer a text spells: an optional `+` or `-` sign followed by at least
/// one digit, and nothing else.
pub open spec fn integer_text_value(s: Seq<char>) -> Option<int> {
    if s.len() > 0 && (s[0] == '+' || s[0] == '-') {
        let d = s.drop_first();
        if d.len() > 0 && all_digits(d) {
            Some(if s[0] == '-' { -digits_value(d) } else { digits_value(d) })
        } else {
            None
        }
    } else if s.len() > 0 && all_digits(s) {
        Some(digits_value(s))
    } else {
        None
    }
}

/// What parsing `s` as an `i32` gives: its value when it spells an integer in
/// range.
pub open spec fn i32_text_value(s: Seq<char>) -> Option<i32> {
    match integer_text_value(s) {
        Some(v) => if i32::MIN <= v <= i32::MAX {
            Some(v as i32)
        } else {
            None
        },
        None => None,
    }
}

/// The digits of a natural number, most significant first, without leading
/// zeros (`0` is written as one digit).
pub open spec fn digits_text(n: nat) -> Seq<char>
    decreases n,
{
    if n < 10 {
        seq![digit_char(n as int)]
    } else {
        digits_text(n / 10).push(digit_char(n as int % 10))
    }
}

/// An integer as `{}` writes it: a `-` for negative values, then its digits.
pub open spec fn decimal_text(n: int) -> Seq<char> {
    if n < 0 {
        seq!['-'] + digits_text((-n) as nat)
    } else {
        digits_text(n as nat)
    }
}

/// An integer as `{:02}` writes it: zero-padded after the sign to two
/// characters.
pub open spec fn padded2_text(n: int) -> Seq<char> {
    if decimal_text(n).len() < 2 {
        seq!['0'] + decimal_text(n)
    } else {
        decimal_text(n)
    }
}

proof fn lemma_digits_value_prefix(s: Seq<char>, k: int)
    requires
        all_digits(s),
        0 <= k <= s.len(),
    ensures
        0 <= digits_value(s.subrange(0, k)) <= digits_value(s),
    decreases s.len(),
{
    if s.len() == 0 {
        assert(s.subrange(0, k) =~= s);
    } else if k == s.len() {
        assert(s.subrange(0, k) =~= s);
        lemma_digits_value_prefix(s.drop_last(), k - 1);
        assert(s.drop_last().subrange(0, k - 1) =~= s.drop_last());
    } else {
        assert(all_digits(s.drop_last()));
        lemma_digits_value_prefix(s.drop_last(), k);
        assert(s.drop_last().subrange(0, k) =~= s.subrange(0, k));
        lemma_digits_value_prefix(s.drop_last(), s.len() - 1);
        assert(s.drop_last().subrange(0, s.len() - 1) =~= s.drop_last());
        assert(is_digit(s.last()));
    }
}

proof fn lemma_digit_char(d: int)
    requires
        0 <= d < 10,
    ensures
        is_digit(digit_char(d)),
        digit_value(digit_char(d)) == d,
{
    assert(digit_char(d) as int == d + 48);
}

/// The digits of `n` are digits, and they spell `n`.
pub proof fn lemma_digits_text_value(n: nat)
    ensures
        all_digits(digits_text(n)),
        digits_value(digits_text(n)) == n,
        digits_text(n).len() >= 1,
    decreases n,
{
    lemma_digit_char(n as int % 10);
    if n >= 10 {
        lemma_digits_text_value(n / 10);
        let t = digits_text(n);
        assert(t.drop_last() == digits_text(n / 10));
        assert(t.last() == digit_char(n as int % 10));
        vstd::arithmetic::div_mod::lemma_fundamental_div_mod(n as int, 10);
        assert(digits_value(t) == digits_value(t.drop_last()) * 10 + digit_value(t.last()));
        assert(digits_value(t.drop_last()) == (n as int) / 10);
    } else {
        let t = digits_text(n);
        assert(t.drop_last() =~= Seq::<char>::empty());
        assert(t.last() == digit_char(n as int));
        assert(digits_value(t.drop_last()) == 0);
        assert(digits_value(t) == digits_value(t.drop_last()) * 10 + digit_value(t.last()));
    }
}

/// Reading back what `{}` writes gives the number.
pub proof fn lemma_decimal_text_value(n: int)
    requires
        i32::MIN <= n <= i32::MAX,
    ensures
        i32_text_value(decimal_text(n)) == Some(n as i32),
        forall|i: int| 0 <= i < decimal_text(n).len() ==> #[trigger] decimal_text(n)[i] != '.',
{
    if n < 0 {
        lemma_digits_text_value((-n) as nat);
        let s = decimal_text(n);
        assert(s.drop_first() =~= digits_text((-n) as nat));
        assert forall|i: int| 0 <= i < s.len() implies #[trigger] s[i] != '.' by {
            if i > 0 {
                assert(s[i] == digits_text((-n) as nat)[i - 1]);
            }
        }
    } else {
        lemma_digits_text_value(n as nat);
        let s = decimal_text(n);
        assert(is_digit(s[0]));
        assert forall|i: int| 0 <= i < s.len() implies #[trigger] s[i] != '.' by {
            assert(is_digit(s[i]));
        }
    }
}

/// Reading back what `{:02}` writes gives the number.
pub proof fn lemma_padded2_text_value(n: int)
    requires
        i32::MIN <= n <= i32::MAX,
    ensures
        i32_text_value(padded2_text(n)) == Some(n as i32),
        forall|i: int| 0 <= i < padded2_text(n).len() ==> #[trigger] padded2_text(n)[i] != '.',
{
    lemma_decimal_text_value(n);
    if decimal_text(n).len() < 2 {
        let d = decimal_text(n);
        let s = padded2_text(n);
        if n < 0 {
            lemma_digits_text_value((-n) as nat);
        }
        assert(n >= 0);
        lemma_digits_text_len(n as nat);
        assert(n < 10);
        lemma_digits_text_value(n as nat);
        assert(d.len() == 1);
        assert(s =~= seq!['0', d[0]]);
        assert(s.drop_last() =~= seq!['0']);
        assert(s.drop_last().drop_last() =~= Seq::<char>::empty());
        assert(d.drop_last() =~= Seq::<char>::empty());
        assert(d.last() == d[0]);
        assert(digits_value(d) == digit_value(d[0]));
        assert(s.last() == d[0]);
        assert(digits_value(s.drop_last()) == 0) by {
            assert(s.drop_last().last() == '0');
        }
        assert(digits_value(s) == digits_value(d));
        assert(all_digits(s)) by {
            assert(is_digit(d[0]));
        }
        assert forall|i: int| 0 <= i < s.len() implies #[trigger] s[i] != '.' by {
            assert(is_digit(s[i]));
        }
    }
}

/// The value of the digits `s[from..]`, if they are all digits and their value
/// is at most `limit`.
fn digits_up_to(s: &Vec<char>, from: usize, limit: i64) -> (r: Option<i64>)
    requires
        from <= s@.len(),
        0 <= limit <= 1_000_000_000_000,
    ensures
        match r {
            Some(v) => 0 <= v && all_digits(s@.subrange(from as int, s@.len() as int)) && v == digits_value(
                s@.subrange(from as int, s@.len() as int),
            ) && v <= limit,
            None => !all_digits(s@.subrange(from as int, s@.len() as int)) || digits_value(
                s@.subrange(from as int, s@.len() as int),
            ) > limit,
        },
{
    let n = s.len();
    let ghost d = s@.subrange(from as int, n as int);
    let mut acc: i64 = 0;
    let mut i = from;
    assert(d.subrange(0, 0) =~= Seq::<char>::empty());
    while i < n
        invariant
            from <= i <= n,
            n == s@.len(),
            d == s@.subrange(from as int, n as int),
            0 <= limit <= 1_000_000_000_000,
            all_digits(d.subrange(0, i - from)),
            acc == digits_value(d.subrange(0, i - from)),
            0 <= acc <= limit,
        decreases n - i,
    {
        let c = s[i];
        if !('0' <= c && c <= '9') {
            assert(d[i - from] == c);
            return None;
        }
        let ghost pre = d.subrange(0, i - from + 1);
        assert(pre.drop_last() =~= d.subrange(0, i - from));
        assert(pre.last() == c);
        let dv = (c as u32 - '0' as u32) as i64;
        acc = acc * 10 + dv;
        i = i + 1;
        assert(all_digits(d.subrange(0, i - from)));
        if acc > limit {
            proof {
                if all_digits(d) {
                    lemma_digits_value_prefix(d, i - from);
                }
            }
            return None;
        }
    }
    assert(d.subrange(0, i - from) =~= d);
    Some(acc)
}

/// Reads `s` as `str::parse::<i32>` does: an optional sign and decimal digits,
/// within range.
pub fn parse_i32(s: &Vec<char>) -> (r: Option<i32>)
    ensures
        r == i32_text_value(s@),
{
    if s.len() == 0 {
        return None;
    }
    let c = s[0];
    if c == '+' || c == '-' {
        if s.len() == 1 {
            return None;
        }
        assert(s@.drop_first() =~= s@.subrange(1, s@.len() as int));
        match digits_up_to(s, 1, 2147483648) {
            Some(v) => {
                if c == '-' {
                    Some((-v) as i32)
                } else if v <= 2147483647 {
                    Some(v as i32)
                } else {
                    None
                }
            },
            None => None,
        }
    } else {
        assert(s@ =~= s@.subrange(0, s@.len() as int));
        match digits_up_to(s, 0, 2147483647) {
            Some(v) => Some(v as i32),
            None => {
                assert(!is_digit(s@[0]) ==> !all_digits(s@));
                None
            },
        }
    }
}

/// The text of a digit value.
fn digit_str(d: u64) -> (r: &'static str)
    requires
        d < 10,
    ensures
        r@ == seq![digit_char(d as int)],
{
    proof {
        reveal_strlit("0");
        reveal_strlit("1");
        reveal_strlit("2");
        reveal_strlit("3");
        reveal_strlit("4");
        reveal_strlit("5");
        reveal_strlit("6");
        reveal_strlit("7");
        reveal_strlit("8");
        reveal_strlit("9");
    }
    match d {
        0 => "0",
        1 => "1",
        2 => "2",
        3 => "3",
        4 => "4",
        5 => "5",
        6 => "6",
        7 => "7",
        8 => "8",
        _ => "9",
    }
}

/// Appends the digits of `n`.
fn append_digits(out: &mut String, n: u64)
    ensures
        final(out)@ == old(out)@ + digits_text(n as nat),
    decreases n,
{
    if n >= 10 {
        append_digits(out, n / 10);
    }
    out.append(digit_str(n % 10));
    assert(final(out)@ =~= old(out)@ + digits_text(n as nat));
}

/// Appends `n` as `{}` writes it.
pub fn append_decimal(out: &mut String, n: i64)
    requires
        n > i64::MIN,
    ensures
        final(out)@ == old(out)@ + decimal_text(n as int),
{
    if n < 0 {
        proof {
            reveal_strlit("-");
        }
        out.append("-");
        append_digits(out, (-n) as u64);
    } else {
        append_digits(out, n as u64);
    }
    assert(final(out)@ =~= old(out)@ + decimal_text(n as int));
}

proof fn lemma_digits_text_len(n: nat)
    ensures
        digits_text(n).len() >= 1,
        n >= 10 ==> digits_text(n).len() >= 2,
    decreases n,
{
    if n >= 10 {
        lemma_digits_text_len(n / 10);
    }
}

/// Appends `n` as `{:02}` writes it.
pub fn append_padded2(out: &mut String, n: i64)
    requires
        n > i64::MIN,
    ensures
        final(out)@ == old(out)@ + padded2_text(n as int),
{
    if 0 <= n && n < 10 {
        proof {
            reveal_strlit("0");
        }
        out.append("0");
    }
    append_decimal(out, n);
    proof {
        if n < 0 {
            lemma_digits_text_len((-n) as nat);
        } else {
            lemma_digits_text_len(n as nat);
        }
    }
    assert(final(out)@ =~= old(out)@ + padded2_text(n as int));
}

} // verus!
