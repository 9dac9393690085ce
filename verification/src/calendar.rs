//! UTC timestamps of report files: seconds since the Unix epoch to the
//! proleptic Gregorian date and time, written `YYYY-MM-DDTHH:MM:SSZ`.

use vstd::prelude::*;

use crate::text::{decimal_string, decimal_text, push_char, push_str};

verus! {

pub open spec fn is_leap(y: int) -> bool {
    y % 4 == 0 && (y % 100 != 0 || y % 400 == 0)
}

pub open spec fn days_in_year(y: int) -> int {
    if is_leap(y) {
        366
    } else {
        365
    }
}

pub open spec fn days_in_month(y: int, m: int) -> int {
    if m == 2 {
        if is_leap(y) {
            29
        } else {
            28
        }
    } else if m == 4 || m == 6 || m == 9 || m == 11 {
        30
    } else {
        31
    }
}

/// Days from 1970-01-01 to January 1st of year `y` (`y >= 1970`).
pub open spec fn days_before_year(y: int) -> int
    decreases y - 1970,
{
    if y <= 1970 {
        0
    } else {
        days_before_year(y - 1) + days_in_year(y - 1)
    }
}

/// Days of year `y` before the first of month `m`.
pub open spec fn days_before_month(y: int, m: int) -> int
    decreases m,
{
    if m <= 1 {
        0
    } else {
        days_before_month(y, m - 1) + days_in_month(y, m - 1)
    }
}

/// `(y, m, d)` is the date that lies `days` days after 1970-01-01.
pub open spec fn is_date_of(days: int, y: int, m: int, d: int) -> bool {
    &&& y >= 1970
    &&& 1 <= m <= 12
    &&& 1 <= d <= days_in_month(y, m)
    &&& days_before_year(y) + days_before_month(y, m) + d - 1 == days
}

/// Number of leap years among `1 ..= x` (for `x >= 0`).
pub open spec fn leaps_through(x: int) -> int {
    x / 4 - x / 100 + x / 400
}

proof fn lemma_leaps_step(y: int)
    requires
        y >= 1,
    ensures
        leaps_through(y) - leaps_through(y - 1) == (if is_leap(y) {
            1int
        } else {
            0int
        }),
{
    assert((y / 4 - (y - 1) / 4) == (if y % 4 == 0 {
        1int
    } else {
        0int
    })) by (nonlinear_arith)
        requires
            y >= 1,
    ;
    assert((y / 100 - (y - 1) / 100) == (if y % 100 == 0 {
        1int
    } else {
        0int
    })) by (nonlinear_arith)
        requires
            y >= 1,
    ;
    assert((y / 400 - (y - 1) / 400) == (if y % 400 == 0 {
        1int
    } else {
        0int
    })) by (nonlinear_arith)
        requires
            y >= 1,
    ;
    if y % 100 == 0 {
        assert(y % 4 == 0) by (nonlinear_arith)
            requires
                y % 100 == 0,
        ;
    }
    if y % 400 == 0 {
        assert(y % 100 == 0) by (nonlinear_arith)
            requires
                y % 400 == 0,
        ;
    }
}

/// Closed form of the days before a year.
proof fn lemma_days_before_year_closed(y: int)
    requires
        y >= 1970,
    ensures
        days_before_year(y) == 365 * (y - 1970) + leaps_through(y - 1) - leaps_through(1969),
    decreases y - 1970,
{
    if y > 1970 {
        lemma_days_before_year_closed(y - 1);
        lemma_leaps_step(y - 1);
    }
}

/// Four hundred years hold 146097 days.
proof fn lemma_four_centuries(y: int)
    requires
        y >= 1970,
    ensures
        days_before_year(y + 400) == days_before_year(y) + 146097,
{
    lemma_days_before_year_closed(y);
    lemma_days_before_year_closed(y + 400);
    assert((y + 399) / 4 == (y - 1) / 4 + 100);
    assert((y + 399) / 100 == (y - 1) / 100 + 4);
    assert((y + 399) / 400 == (y - 1) / 400 + 1);
}

proof fn lemma_cycles(k: int)
    requires
        k >= 0,
    ensures
        days_before_year(1970 + 400 * k) == 146097 * k,
    decreases k,
{
    if k > 0 {
        lemma_cycles(k - 1);
        lemma_four_centuries(1970 + 400 * (k - 1));
    }
}

proof fn lemma_year_monotone(a: int, b: int)
    requires
        1970 <= a <= b,
    ensures
        days_before_year(b) >= days_before_year(a) + 365 * (b - a),
    decreases b - a,
{
    if b > a {
        lemma_year_monotone(a, b - 1);
    }
}

proof fn lemma_month_monotone(y: int, a: int, b: int)
    requires
        1 <= a <= b,
    ensures
        days_before_month(y, b) >= days_before_month(y, a) + 28 * (b - a),
    decreases b - a,
{
    if b > a {
        lemma_month_monotone(y, a, b - 1);
    }
}

proof fn lemma_year_length(y: int)
    ensures
        days_before_month(y, 13) == days_in_year(y),
{
    reveal_with_fuel(days_before_month, 13);
}

/// The date of a day count is unique.
pub proof fn law_date_unique(days: int, y1: int, m1: int, d1: int, y2: int, m2: int, d2: int)
    requires
        is_date_of(days, y1, m1, d1),
        is_date_of(days, y2, m2, d2),
    ensures
        y1 == y2 && m1 == m2 && d1 == d2,
{
    lemma_year_length(y1);
    lemma_year_length(y2);
    lemma_month_monotone(y1, m1 + 1, 13);
    lemma_month_monotone(y2, m2 + 1, 13);
    assert(days_before_month(y1, m1 + 1) == days_before_month(y1, m1) + days_in_month(y1, m1));
    assert(days_before_month(y2, m2 + 1) == days_before_month(y2, m2) + days_in_month(y2, m2));
    lemma_month_monotone(y1, 1, m1);
    lemma_month_monotone(y2, 1, m2);
    assert(days_before_month(y1, m1) + d1 - 1 < days_in_year(y1));
    assert(days_before_month(y2, m2) + d2 - 1 < days_in_year(y2));
    if y1 < y2 {
        lemma_year_monotone(y1 + 1, y2);
        assert(days_before_year(y1 + 1) == days_before_year(y1) + days_in_year(y1));
    } else if y2 < y1 {
        lemma_year_monotone(y2 + 1, y1);
        assert(days_before_year(y2 + 1) == days_before_year(y2) + days_in_year(y2));
    } else {
        if m1 < m2 {
            lemma_month_monotone(y1, m1 + 1, m2);
        } else if m2 < m1 {
            lemma_month_monotone(y1, m2 + 1, m1);
        }
    }
}

/// The date `days` days after 1970-01-01.
pub open spec fn date_of(days: int) -> (int, int, int) {
    choose|t: (int, int, int)| is_date_of(days, t.0, t.1, t.2)
}

fn year_length(y: u64) -> (r: u64)
    ensures
        r == days_in_year(y as int),
{
    if y % 4 == 0 && (y % 100 != 0 || y % 400 == 0) {
        366
    } else {
        365
    }
}

fn month_length(y: u64, m: u64) -> (r: u64)
    ensures
        r == days_in_month(y as int, m as int),
{
    if m == 2 {
        if y % 4 == 0 && (y % 100 != 0 || y % 400 == 0) {
            29
        } else {
            28
        }
    } else if m == 4 || m == 6 || m == 9 || m == 11 {
        30
    } else {
        31
    }
}

/// The date `days` days after 1970-01-01, as (year, month, day).
pub fn civil_from_days(days: u64) -> (r: (u64, u64, u64))
    ensures
        is_date_of(days as int, r.0 as int, r.1 as int, r.2 as int),
        date_of(days as int) == (r.0 as int, r.1 as int, r.2 as int),
{
    let cycles = days / 146097;
    let mut rem = days % 146097;
    let y0 = 1970 + 400 * cycles;
    let mut y = y0;
    proof {
        lemma_cycles(cycles as int);
    }
    while rem >= year_length(y)
        invariant
            1970 <= y0 <= y,
            y0 == 1970 + 400 * cycles,
            cycles == days / 146097,
            y <= y0 + 400,
            days_before_year(y0 as int) == 146097 * cycles,
            days_before_year(y as int) + rem == days,
            days == 146097 * cycles + days % 146097,
            days_before_year(y as int) - days_before_year(y0 as int) + rem == days % 146097,
            rem < 146097,
        decreases rem,
    {
        proof {
            lemma_year_monotone(y0 as int, y as int);
        }
        rem = rem - year_length(y);
        y = y + 1;
        proof {
            lemma_year_monotone(y0 as int, y as int);
        }
    }
    let mut m: u64 = 1;
    proof {
        lemma_year_length(y as int);
    }
    while rem >= month_length(y, m)
        invariant
            1 <= m <= 12,
            y >= 1970,
            days_before_year(y as int) + days_before_month(y as int, m as int) + rem == days,
            days_before_month(y as int, 13) == days_in_year(y as int),
            days_before_month(y as int, m as int) + rem < days_in_year(y as int),
        decreases 12 - m,
    {
        rem = rem - month_length(y, m);
        if m == 12 {
            assert(days_before_month(y as int, 13) == days_before_month(y as int, 12)
                + days_in_month(y as int, 12));
        }
        m = m + 1;
    }
    proof {
        let w: (int, int, int) = (y as int, m as int, rem + 1);
        assert(is_date_of(days as int, w.0, w.1, w.2));
        let t = date_of(days as int);
        law_date_unique(days as int, t.0, t.1, t.2, y as int, m as int, rem + 1);
    }
    (y, m, rem + 1)
}

/// Decimal notation of `n`, left-padded with zeros to at least `w` digits.
pub open spec fn padded(n: nat, w: nat) -> Seq<char> {
    let t = decimal_text(n);
    if t.len() >= w {
        t
    } else {
        Seq::new((w - t.len()) as nat, |i: int| '0') + t
    }
}

/// `YYYY-MM-DDTHH:MM:SSZ` of `secs` seconds after the Unix epoch.
pub open spec fn timestamp_text(secs: nat) -> Seq<char> {
    let date = date_of((secs / 86400) as int);
    let r = secs % 86400;
    padded(date.0 as nat, 4) + seq!['-'] + padded(date.1 as nat, 2) + seq!['-'] + padded(
        date.2 as nat,
        2,
    ) + seq!['T'] + padded(r / 3600, 2) + seq![':'] + padded((r % 3600) / 60, 2) + seq![':']
        + padded(r % 60, 2) + seq!['Z']
}

/// Appends `n` left-padded with zeros to `w` digits.
fn push_padded(s: &mut String, n: u64, w: usize)
    ensures
        final(s)@ == old(s)@ + padded(n as nat, w as nat),
{
    let t = decimal_string(n);
    let len = t.as_str().unicode_len();
    let ghost zeros_start = s@;
    if len < w {
        let mut k: usize = len;
        while k < w
            invariant
                len <= k <= w,
                s@ == zeros_start + Seq::new((k - len) as nat, |i: int| '0'),
            decreases w - k,
        {
            push_char(s, '0');
            assert(s@ =~= zeros_start + Seq::new((k + 1 - len) as nat, |i: int| '0'));
            k = k + 1;
        }
    }
    push_str(s, t.as_str());
    assert(s@ =~= old(s)@ + padded(n as nat, w as nat));
}

/// UTC timestamp `YYYY-MM-DDTHH:MM:SSZ` of `secs` seconds after the Unix
/// epoch (proleptic Gregorian calendar).
pub fn utc_timestamp(secs: u64) -> (r: String)
    ensures
        r@ == timestamp_text(secs as nat),
{
    let days = secs / 86400;
    let rem = secs % 86400;
    let (y, m, d) = civil_from_days(days);
    let mut s = String::new();
    push_padded(&mut s, y, 4);
    push_char(&mut s, '-');
    push_padded(&mut s, m, 2);
    push_char(&mut s, '-');
    push_padded(&mut s, d, 2);
    push_char(&mut s, 'T');
    push_padded(&mut s, rem / 3600, 2);
    push_char(&mut s, ':');
    push_padded(&mut s, (rem % 3600) / 60, 2);
    push_char(&mut s, ':');
    push_padded(&mut s, rem % 60, 2);
    push_char(&mut s, 'Z');
    assert(s@ =~= timestamp_text(secs as nat));
    s
}


/// Zero padding keeps the number: the padded text has at least `w`
/// characters, all digits, and reads back as `n`.
pub proof fn law_padded_reads_back(n: nat, w: nat)
    ensures
        padded(n, w).len() >= w,
        forall|i: int| 0 <= i < padded(n, w).len() ==> '0' <= #[trigger] padded(n, w)[i] <= '9',
        crate::text::digits_value(padded(n, w)) == n,
{
    crate::text::law_decimal_text_reads_back(n);
    let t = decimal_text(n);
    if t.len() < w {
        let z = Seq::new((w - t.len()) as nat, |i: int| '0');
        lemma_zeros_then_digits(z, t);
    }
}

proof fn lemma_zeros_then_digits(z: Seq<char>, t: Seq<char>)
    requires
        forall|i: int| 0 <= i < z.len() ==> z[i] == '0',
        forall|i: int| 0 <= i < t.len() ==> '0' <= #[trigger] t[i] <= '9',
    ensures
        crate::text::digits_value(z + t) == crate::text::digits_value(t),
        forall|i: int| 0 <= i < (z + t).len() ==> '0' <= #[trigger] (z + t)[i] <= '9',
    decreases t.len(),
{
    if t.len() == 0 {
        assert(z + t =~= z);
        lemma_zeros_value(z);
    } else {
        lemma_zeros_then_digits(z, t.drop_last());
        assert((z + t).drop_last() =~= z + t.drop_last());
        assert((z + t).last() == t.last());
    }
    assert forall|i: int| 0 <= i < (z + t).len() implies '0' <= #[trigger] (z + t)[i] <= '9' by {
        if i < z.len() {
        } else {
            assert((z + t)[i] == t[i - z.len()]);
        }
    }
}

proof fn lemma_zeros_value(z: Seq<char>)
    requires
        forall|i: int| 0 <= i < z.len() ==> z[i] == '0',
    ensures
        crate::text::digits_value(z) == 0,
    decreases z.len(),
{
    if z.len() > 0 {
        lemma_zeros_value(z.drop_last());
    }
}

} // verus!
