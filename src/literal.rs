//! Literal texts for numbers, calendar dates and times of day.
use vstd::prelude::*;
use chrono::TimeZone;

verus! {

/// The decimal digit for `d < 10`.
pub open spec fn digit_char(d: nat) -> char {
    if d == 0 { '0' }
    else if d == 1 { '1' }
    else if d == 2 { '2' }
    else if d == 3 { '3' }
    else if d == 4 { '4' }
    else if d == 5 { '5' }
    else if d == 6 { '6' }
    else if d == 7 { '7' }
    else if d == 8 { '8' }
    else { '9' }
}

/// The decimal digits of `n`, most significant first, without leading zeros.
pub open spec fn digits(n: nat) -> Seq<char>
    decreases n,
{
    if n < 10 {
        seq![digit_char(n)]
    } else {
        digits(n / 10).push(digit_char(n % 10))
    }
}

/// The decimal text of an integer, with a leading `-` when it is negative.
pub open spec fn decimal(n: int) -> Seq<char> {
    if n < 0 {
        seq!['-'] + digits((-n) as nat)
    } else {
        digits(n as nat)
    }
}

/// Two digits, with a leading zero below ten.
pub open spec fn pad2(n: nat) -> Seq<char> {
    seq![digit_char((n / 10) % 10), digit_char(n % 10)]
}

/// Four digits, with leading zeros.
pub open spec fn pad4(n: nat) -> Seq<char> {
    seq![digit_char((n / 1000) % 10), digit_char((n / 100) % 10), digit_char((n / 10) % 10), digit_char(n % 10)]
}

/// Whether `y` is a leap year of the proleptic Gregorian calendar.
pub open spec fn leap_year(y: int) -> bool {
    (y % 4 == 0 && y % 100 != 0) || y % 400 == 0
}

/// The number of days in month `m` of year `y`.
pub open spec fn days_in_month(y: int, m: int) -> int {
    if m == 2 {
        if leap_year(y) { 29 } else { 28 }
    } else if m == 4 || m == 6 || m == 9 || m == 11 {
        30
    } else {
        31
    }
}

/// Whether year, month and day name a day of the calendar.
pub open spec fn calendar_day(y: int, m: int, d: int) -> bool {
    1 <= m <= 12 && 1 <= d <= days_in_month(y, m)
}

/// `YYYY-MM-DD`.
pub open spec fn iso_date(y: nat, m: nat, d: nat) -> Seq<char> {
    pad4(y) + seq!['-'] + pad2(m) + seq!['-'] + pad2(d)
}

/// `hh:mm:ss`.
pub open spec fn iso_time(h: nat, m: nat, s: nat) -> Seq<char> {
    pad2(h) + seq![':'] + pad2(m) + seq![':'] + pad2(s)
}

fn digit_of(d: u64) -> (c: &'static str)
    requires
        d < 10,
    ensures
        c@ == seq![digit_char(d as nat)],
{
    proof {
        reveal_strlit("0"); reveal_strlit("1"); reveal_strlit("2"); reveal_strlit("3"); reveal_strlit("4");
        reveal_strlit("5"); reveal_strlit("6"); reveal_strlit("7"); reveal_strlit("8"); reveal_strlit("9");
    }
    if d == 0 { "0" }
    else if d == 1 { "1" }
    else if d == 2 { "2" }
    else if d == 3 { "3" }
    else if d == 4 { "4" }
    else if d == 5 { "5" }
    else if d == 6 { "6" }
    else if d == 7 { "7" }
    else if d == 8 { "8" }
    else { "9" }
}

fn push_digits(n: u64, out: &mut String)
    ensures
        final(out)@ == old(out)@ + digits(n as nat),
    decreases n,
{
    if n >= 10 {
        push_digits(n / 10, out);
    }
    out.append(digit_of(n % 10));
    proof {
        assert(final(out)@ =~= old(out)@ + digits(n as nat));
    }
}

/// The decimal text of a signed integer.
pub fn decimal_text(n: i64) -> (r: String)
    ensures
        r@ == decimal(n as int),
{
    let mut out = String::new();
    let magnitude: u64;
    if n < 0 {
        out.append("-");
        proof { reveal_strlit("-"); }
        magnitude = (-(n as i128)) as u64;
    } else {
        magnitude = n as u64;
    }
    push_digits(magnitude, &mut out);
    proof {
        assert(out@ =~= decimal(n as int));
    }
    out
}

/// Relies on `chrono::NaiveDate::from_ymd_opt` and the `Debug` form of
/// `NaiveDate`: a date exists exactly for a valid month and day, and for a
/// year from 0 to 9999 it is written `YYYY-MM-DD`.
#[verifier::external_body]
pub(crate) fn date_literal(y: i32, m: u32, d: u32) -> (r: Option<String>)
    ensures
        0 <= y <= 9999 ==> (r is Some <==> calendar_day(y as int, m as int, d as int)),
        0 <= y <= 9999 && r is Some ==> r->0@ == iso_date(y as nat, m as nat, d as nat),
{
    match chrono::NaiveDate::from_ymd_opt(y, m, d) {
        Some(date) => Some(format!("{:?}", date)),
        None => None,
    }
}

/// Relies on `chrono::TimeZone::with_ymd_and_hms` on `Utc` and the `Debug`
/// form of `DateTime<Utc>`: an instant exists exactly for a valid date and
/// an hour below 24, a minute and a second below 60; for a year from 0 to
/// 9999 it is written `YYYY-MM-DDThh:mm:ssZ`.
#[verifier::external_body]
pub(crate) fn date_time_literal(y: i32, mo: u32, d: u32, h: u32, mi: u32, s: u32) -> (r: Option<String>)
    ensures
        0 <= y <= 9999 ==> (r is Some <==> (calendar_day(y as int, mo as int, d as int) && h < 24 && mi < 60 && s < 60)),
        0 <= y <= 9999 && r is Some ==> r->0@ == iso_date(y as nat, mo as nat, d as nat) + seq!['T']
            + iso_time(h as nat, mi as nat, s as nat) + seq!['Z'],
{
    match chrono::Utc.with_ymd_and_hms(y, mo, d, h, mi, s).single() {
        Some(instant) => Some(format!("{:?}", instant)),
        None => None,
    }
}

} // verus!
