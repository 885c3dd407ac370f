//! The time of day and the calendar date of a number of seconds since the start of 1970.

use crate::foreign;
use crate::number::{
    decimal, digit, is_digits, lemma_padded, lemma_two_digits, padded, padded_text, value_of,
};
use vstd::prelude::*;
use vstd::utf8::is_ascii_chars;

verus! {

/// Whether `year` is a leap year of the Gregorian calendar.
pub open spec fn is_leap(year: int) -> bool {
    (year % 4 == 0 && year % 100 != 0) || year % 400 == 0
}

/// The number of days in `year`.
pub open spec fn days_in_year(year: int) -> int {
    if is_leap(year) {
        366
    } else {
        365
    }
}

/// The number of days in the month `month` (1 to 12) of `year`.
pub open spec fn days_in_month(year: int, month: int) -> int {
    if month == 2 {
        if is_leap(year) {
            29
        } else {
            28
        }
    } else if month == 4 || month == 6 || month == 9 || month == 11 {
        30
    } else {
        31
    }
}

/// The number of days from the start of 1970 to the start of `year`.
pub open spec fn days_before_year(year: int) -> int
    decreases year - 1970,
{
    if year <= 1970 {
        0
    } else {
        days_before_year(year - 1) + days_in_year(year - 1)
    }
}

/// The number of days from the start of `year` to the start of its month `month`.
pub open spec fn days_before_month(year: int, month: int) -> int
    decreases month,
{
    if month <= 1 {
        0
    } else {
        days_before_month(year, month - 1) + days_in_month(year, month - 1)
    }
}

/// A calendar date.
pub struct Date {
    pub year: u64,
    pub month: u64,
    pub day: u64,
}

impl Date {
    /// Whether this is the date that lies `days` days after 1970-01-01.
    pub open spec fn is_day(self, days: int) -> bool {
        &&& 1970 <= self.year
        &&& 1 <= self.month <= 12
        &&& 1 <= self.day <= days_in_month(self.year as int, self.month as int)
        &&& days == days_before_year(self.year as int) + days_before_month(
            self.year as int,
            self.month as int,
        ) + (self.day - 1)
    }
}

proof fn lemma_year_span(year: int)
    ensures
        days_before_month(year, 13) == days_in_year(year),
{
    reveal_with_fuel(days_before_month, 14);
}

proof fn lemma_month_step(year: int, a: int, b: int)
    requires
        1 <= a < b <= 13,
    ensures
        days_before_month(year, a) + days_in_month(year, a) <= days_before_month(year, b),
    decreases b - a,
{
    if a + 1 < b {
        lemma_month_step(year, a, b - 1);
    }
}

proof fn lemma_year_step(a: int, b: int)
    requires
        1970 <= a < b,
    ensures
        days_before_year(a) + days_in_year(a) <= days_before_year(b),
    decreases b - a,
{
    if a + 1 < b {
        lemma_year_step(a, b - 1);
    }
}

/// A number of days after 1970-01-01 leads to one date only.
pub proof fn date_is_unique(days: int, a: Date, b: Date)
    requires
        a.is_day(days),
        b.is_day(days),
    ensures
        a == b,
{
    let (ay, by) = (a.year as int, b.year as int);
    lemma_year_span(ay);
    lemma_year_span(by);
    lemma_month_step(ay, a.month as int, 13);
    lemma_month_step(by, b.month as int, 13);
    lemma_month_nonnegative(ay, a.month as int);
    lemma_month_nonnegative(by, b.month as int);
    if ay < by {
        lemma_year_step(ay, by);
    } else if by < ay {
        lemma_year_step(by, ay);
    }
    if a.month < b.month {
        lemma_month_step(ay, a.month as int, b.month as int);
    } else if b.month < a.month {
        lemma_month_step(ay, b.month as int, a.month as int);
    }
}

proof fn lemma_month_nonnegative(year: int, month: int)
    ensures
        days_before_month(year, month) >= 0,
    decreases month,
{
    if month > 1 {
        lemma_month_nonnegative(year, month - 1);
    }
}

fn leap(year: u64) -> (r: bool)
    ensures
        r == is_leap(year as int),
{
    (year % 4 == 0 && year % 100 != 0) || year % 400 == 0
}

/// The date that lies `days` days after 1970-01-01.
pub fn date_of(days: u64) -> (r: Date)
    ensures
        r.is_day(days as int),
{
    let mut rest: u64 = days;
    let mut year: u64 = 1970;
    let mut length: u64 = 365;
    while rest >= length
        invariant
            1970 <= year,
            365 * (year - 1970) + rest <= days,
            length == days_in_year(year as int),
            days == days_before_year(year as int) + rest,
        decreases rest,
    {
        rest = rest - length;
        year = year + 1;
        length = if leap(year) {
            366
        } else {
            365
        };
    }
    let mut month: u64 = 1;
    let mut size: u64 = 31;
    proof {
        lemma_year_span(year as int);
    }
    while rest >= size
        invariant
            1970 <= year,
            1 <= month <= 12,
            size == days_in_month(year as int, month as int),
            days_before_month(year as int, 13) == days_in_year(year as int),
            days_before_month(year as int, month as int) + rest < days_in_year(year as int),
            days == days_before_year(year as int) + days_before_month(year as int, month as int)
                + rest,
        decreases rest,
    {
        rest = rest - size;
        month = month + 1;
        size = if month == 2 {
            if leap(year) {
                29
            } else {
                28
            }
        } else if month == 4 || month == 6 || month == 9 || month == 11 {
            30
        } else {
            31
        };
    }
    Date { year, month, day: rest + 1 }
}

/// The text `YYYY-MM-DDThh:mm:ssZ` of a date and the number of seconds since its midnight.
pub open spec fn date_time_text(date: Date, secs: nat) -> Seq<char> {
    padded(date.year as nat, 4) + "-"@ + padded(date.month as nat, 2) + "-"@ + padded(
        date.day as nat,
        2,
    ) + "T"@ + padded(secs / 3600, 2) + ":"@ + padded((secs % 3600) / 60, 2) + ":"@ + padded(
        secs % 60,
        2,
    ) + "Z"@
}

/// Whether `text` is the UTC time `total` seconds after the start of 1970.
pub open spec fn is_iso_text(text: Seq<char>, total: nat) -> bool {
    exists|date: Date|
        #![trigger date.is_day((total / 86400) as int)]
        date.is_day((total / 86400) as int) && text == date_time_text(date, total % 86400)
}

/// The UTC time `total_secs` seconds after the start of 1970.
pub fn iso_text(total_secs: u64) -> (r: String)
    ensures
        is_iso_text(r@, total_secs as nat),
{
    let date = date_of(total_secs / 86400);
    let secs: u64 = total_secs % 86400;
    let month = padded_text(date.month as u128, 2);
    let day = padded_text(date.day as u128, 2);
    let h = padded_text((secs / 3600) as u128, 2);
    let m = padded_text(((secs % 3600) / 60) as u128, 2);
    let s = padded_text((secs % 60) as u128, 2);
    let r = padded_text(date.year as u128, 4).concat("-").concat(month.as_str()).concat("-").concat(
        day.as_str(),
    ).concat("T").concat(h.as_str()).concat(":").concat(m.as_str()).concat(":").concat(
        s.as_str(),
    ).concat("Z");
    assert(r@ == date_time_text(date, secs as nat));
    assert(date.is_day((total_secs as nat / 86400) as int));
    r
}

/// The time of a clock reading, in milliseconds since the start of 1970; zero where the clock
/// stands before that.
pub fn millis_or_zero(reading: Option<u128>) -> (r: u128)
    ensures
        r == (match reading {
            Some(ms) => ms,
            None => 0,
        }),
{
    match reading {
        Some(ms) => ms,
        None => 0,
    }
}

/// The text of a clock reading in whole seconds since the start of 1970; none where the clock
/// stands before that.
pub fn iso_of_reading(reading: Option<u64>) -> (r: Option<String>)
    ensures
        match (reading, r) {
            (Some(secs), Some(text)) => is_iso_text(text@, secs as nat),
            (None, None) => true,
            _ => false,
        },
{
    match reading {
        Some(secs) => Some(iso_text(secs)),
        None => None,
    }
}

/// Two texts of one clock reading are equal.
pub proof fn iso_text_is_unique(a: Seq<char>, b: Seq<char>, total: nat)
    requires
        is_iso_text(a, total),
        is_iso_text(b, total),
    ensures
        a == b,
{
    let days = (total / 86400) as int;
    let x = choose|date: Date|
        #![trigger date.is_day(days)]
        date.is_day(days) && a == date_time_text(date, total % 86400);
    let y = choose|date: Date|
        #![trigger date.is_day(days)]
        date.is_day(days) && b == date_time_text(date, total % 86400);
    date_is_unique(days, x, y);
}

/// Whether `a` comes before `b` in the order of characters: where they differ first, `a` has the
/// smaller character.
pub open spec fn precedes(a: Seq<char>, b: Seq<char>) -> bool {
    exists|k: int| #[trigger] differ_first(a, b, k) && a[k] < b[k]
}

/// Whether two texts differ at `k` and nowhere before.
pub open spec fn differ_first(a: Seq<char>, b: Seq<char>, k: int) -> bool {
    &&& 0 <= k < a.len()
    &&& k < b.len()
    &&& a[k] != b[k]
    &&& forall|i: int| 0 <= i < k ==> a[i] == b[i]
}

/// Whether two digits stand at `from` that write the number `n`.
spec fn has_pair(s: Seq<char>, from: int, n: nat) -> bool {
    &&& 0 <= from
    &&& from + 2 <= s.len()
    &&& s[from] == digit(n / 10)
    &&& s[from + 1] == digit(n % 10)
}

proof fn lemma_pair_order(a: Seq<char>, b: Seq<char>, from: int, x: nat, y: nat)
    requires
        has_pair(a, from, x),
        has_pair(b, from, y),
        x < y < 100,
        forall|i: int| 0 <= i < from ==> a[i] == b[i],
    ensures
        precedes(a, b),
{
    if x / 10 < y / 10 {
        assert(differ_first(a, b, from) && a[from] < b[from]);
    } else {
        assert(x / 10 == y / 10);
        assert(differ_first(a, b, from + 1) && a[from + 1] < b[from + 1]);
    }
}

proof fn lemma_padded_pair(n: nat)
    requires
        n < 100,
    ensures
        padded(n, 2) == seq![digit(n / 10), digit(n % 10)],
{
    reveal_with_fuel(decimal, 3);
    assert(padded(n, 2) =~= seq![digit(n / 10), digit(n % 10)]);
}

proof fn lemma_padded_year(n: nat)
    requires
        1000 <= n < 10000,
    ensures
        padded(n, 4) == seq![
            digit(n / 100 / 10),
            digit(n / 100 % 10),
            digit(n % 100 / 10),
            digit(n % 100 % 10),
        ],
{
    assert(decimal(n / 1000) == seq![digit(n / 1000)]);
    assert(decimal(n / 100) == decimal(n / 100 / 10).push(digit(n / 100 % 10)));
    assert(decimal(n / 10) == decimal(n / 10 / 10).push(digit(n / 10 % 10)));
    assert(n / 100 / 10 == n / 1000);
    assert(n / 10 / 10 == n / 100);
    assert(n / 10 % 10 == n % 100 / 10);
    assert(n % 100 % 10 == n % 10);
    assert(padded(n, 4) =~= seq![
        digit(n / 100 / 10),
        digit(n / 100 % 10),
        digit(n % 100 / 10),
        digit(n % 100 % 10),
    ]);
}

/// Whether `s` is the text of a date and a number of seconds since its midnight, digit by digit.
spec fn is_stamp(s: Seq<char>, date: Date, secs: nat) -> bool {
    &&& s.len() == 20
    &&& has_pair(s, 0, date.year as nat / 100)
    &&& has_pair(s, 2, date.year as nat % 100)
    &&& s[4] == '-'
    &&& has_pair(s, 5, date.month as nat)
    &&& s[7] == '-'
    &&& has_pair(s, 8, date.day as nat)
    &&& s[10] == 'T'
    &&& has_pair(s, 11, secs / 3600)
    &&& s[13] == ':'
    &&& has_pair(s, 14, (secs % 3600) / 60)
    &&& s[16] == ':'
    &&& has_pair(s, 17, secs % 60)
    &&& s[19] == 'Z'
}

proof fn lemma_stamp(date: Date, secs: nat)
    requires
        1000 <= date.year < 10000,
        date.month < 100,
        date.day < 100,
        secs < 86400,
    ensures
        is_stamp(date_time_text(date, secs), date, secs),
{
    reveal_strlit("-");
    reveal_strlit("T");
    reveal_strlit(":");
    reveal_strlit("Z");
    lemma_padded_year(date.year as nat);
    lemma_padded_pair(date.month as nat);
    lemma_padded_pair(date.day as nat);
    lemma_padded_pair(secs / 3600);
    lemma_padded_pair((secs % 3600) / 60);
    lemma_padded_pair(secs % 60);
}

/// The number of days from the start of 1970 to the start of the year 10000.
pub const DAYS_BEFORE_10000: u64 = 2_932_897;

proof fn lemma_days_before_year(year: int)
    requires
        1970 <= year,
    ensures
        days_before_year(year) == 365 * (year - 1970) + ((year - 1) / 4 - (year - 1) / 100 + (year
            - 1) / 400) - 477,
    decreases year,
{
    if year > 1970 {
        lemma_days_before_year(year - 1);
    }
}

proof fn lemma_year_bound(date: Date, days: int)
    requires
        date.is_day(days),
        days < DAYS_BEFORE_10000,
    ensures
        date.year < 10000,
{
    if date.year >= 10000 {
        lemma_days_before_year(10000);
        lemma_month_nonnegative(date.year as int, date.month as int);
        if date.year > 10000 {
            lemma_year_step(10000, date.year as int);
        }
    }
}

/// A later day has a later date.
proof fn lemma_date_order(a: Date, b: Date, days: int, later: int)
    requires
        a.is_day(days),
        b.is_day(later),
        days < later,
    ensures
        a.year < b.year || (a.year == b.year && (a.month < b.month || (a.month == b.month && a.day
            < b.day))),
{
    let (ay, by) = (a.year as int, b.year as int);
    if by < ay {
        lemma_year_span(by);
        lemma_month_step(by, b.month as int, 13);
        lemma_month_nonnegative(ay, a.month as int);
        lemma_year_step(by, ay);
    } else if ay == by && b.month < a.month {
        lemma_month_step(ay, b.month as int, a.month as int);
    }
}

/// Before the year 10000, the texts of clock readings are in the order of the readings: a later
/// second has a greater text, of the same length and in ASCII characters, so that the order of the
/// characters is that of the bytes; and equal texts are those of one second.
pub proof fn iso_texts_keep_order(a: Seq<char>, b: Seq<char>, first: nat, second: nat)
    requires
        is_iso_text(a, first),
        is_iso_text(b, second),
        first <= second,
        second < 86400 * DAYS_BEFORE_10000,
    ensures
        a.len() == b.len(),
        is_ascii_chars(a) && is_ascii_chars(b),
        first < second ==> precedes(a, b),
        a == b <==> first == second,
{
    let days = (first / 86400) as int;
    let later = (second / 86400) as int;
    let x = choose|date: Date|
        #![trigger date.is_day(days)]
        date.is_day(days) && a == date_time_text(date, first % 86400);
    let y = choose|date: Date|
        #![trigger date.is_day(later)]
        date.is_day(later) && b == date_time_text(date, second % 86400);
    lemma_year_bound(x, days);
    lemma_year_bound(y, later);
    let (s, t) = (first % 86400, second % 86400);
    lemma_stamp(x, s);
    lemma_stamp(y, t);
    lemma_stamp_ascii(a, x, s);
    lemma_stamp_ascii(b, y, t);
    if first == second {
        iso_text_is_unique(a, b, first);
    } else {
        if days == later {
            date_is_unique(days, x, y);
            lemma_time_order(a, b, x, s, t);
        } else {
            lemma_date_order(x, y, days, later);
            lemma_day_order(a, b, x, y, s, t);
        }
        let k = choose|k: int| #[trigger] differ_first(a, b, k) && a[k] < b[k];
        assert(a[k] != b[k]);
    }
}

proof fn lemma_time_order(a: Seq<char>, b: Seq<char>, date: Date, s: nat, t: nat)
    requires
        is_stamp(a, date, s),
        is_stamp(b, date, t),
        s < t < 86400,
    ensures
        precedes(a, b),
{
    if s / 3600 < t / 3600 {
        lemma_pair_order(a, b, 11, s / 3600, t / 3600);
    } else if (s % 3600) / 60 < (t % 3600) / 60 {
        assert(s / 3600 == t / 3600);
        lemma_pair_order(a, b, 14, (s % 3600) / 60, (t % 3600) / 60);
    } else {
        assert(s / 3600 == t / 3600);
        assert((s % 3600) / 60 == (t % 3600) / 60);
        lemma_pair_order(a, b, 17, s % 60, t % 60);
    }
}

proof fn lemma_day_order(a: Seq<char>, b: Seq<char>, x: Date, y: Date, s: nat, t: nat)
    requires
        is_stamp(a, x, s),
        is_stamp(b, y, t),
        x.year < y.year || (x.year == y.year && (x.month < y.month || (x.month == y.month && x.day
            < y.day))),
        y.year < 10000,
        y.month < 100,
        y.day < 100,
    ensures
        precedes(a, b),
{
    let (xy, yy) = (x.year as nat, y.year as nat);
    if xy / 100 < yy / 100 {
        lemma_pair_order(a, b, 0, xy / 100, yy / 100);
    } else if xy < yy {
        lemma_pair_order(a, b, 2, xy % 100, yy % 100);
    } else if x.month < y.month {
        lemma_pair_order(a, b, 5, x.month as nat, y.month as nat);
    } else {
        lemma_pair_order(a, b, 8, x.day as nat, y.day as nat);
    }
}

proof fn lemma_stamp_ascii(s: Seq<char>, date: Date, secs: nat)
    requires
        is_stamp(s, date, secs),
        date.year < 10000,
        date.month < 100,
        date.day < 100,
        secs < 86400,
    ensures
        is_ascii_chars(s),
{
}

/// The present time in milliseconds since the start of 1970; zero where the clock stands before
/// that. Of a clock reading only the range is known.
pub fn now_ms() -> (r: u128)
    ensures
        r <= foreign::MAX_MILLIS,
        exists|reading: Option<u128>| #[trigger]
            is_millis_reading(reading) && r == (match reading {
                Some(ms) => ms,
                None => 0,
            }),
{
    let reading = foreign::epoch_millis();
    assert(is_millis_reading(reading));
    millis_or_zero(reading)
}

/// The present UTC time; none where the clock stands before the start of 1970.
pub fn now_iso() -> (r: Option<String>)
    ensures
        r matches Some(text) ==> exists|secs: u64| is_iso_text(text@, secs as nat),
        exists|reading: Option<u64>| #[trigger]
            is_secs_reading(reading) && match (reading, r) {
                (Some(secs), Some(text)) => is_iso_text(text@, secs as nat),
                (None, None) => true,
                _ => false,
            },
{
    let reading = foreign::epoch_secs();
    assert(is_secs_reading(reading));
    iso_of_reading(reading)
}

/// Whether the system's clock answered with a reading in milliseconds when it was asked.
pub closed spec fn is_millis_reading(reading: Option<u128>) -> bool {
    call_ensures(foreign::epoch_millis, (), reading)
}

/// Whether the system's clock answered with a reading in seconds when it was asked.
pub closed spec fn is_secs_reading(reading: Option<u64>) -> bool {
    call_ensures(foreign::epoch_secs, (), reading)
}

/// The present time is what the clock says, in milliseconds or as text: the text reads back to the
/// very second, and there is none only where the clock stands before the start of 1970.
pub proof fn present_time_is_the_clocks(ms: u128, text: Option<String>)
    requires
        call_ensures(now_ms, (), ms),
        call_ensures(now_iso, (), text),
    ensures
        exists|reading: Option<u128>| #[trigger]
            is_millis_reading(reading) && (reading matches Some(n) ==> ms == n),
        exists|reading: Option<u64>| #[trigger]
            is_secs_reading(reading) && (reading is Some <==> text is Some) && (
            reading matches Some(secs) ==> is_clock_text(text->0@, secs as nat)),
{
    let reading = choose|reading: Option<u64>| #[trigger]
        is_secs_reading(reading) && match (reading, text) {
            (Some(secs), Some(t)) => is_iso_text(t@, secs as nat),
            (None, None) => true,
            _ => false,
        };
    if let Some(secs) = reading {
        lemma_clock_text(text->0@, secs as nat);
    }
    assert(is_secs_reading(reading));
}

/// Whether a text is a UTC time in the form `YYYY-MM-DDThh:mm:ssZ` whose numbers are those of the
/// second that lies `total` seconds after the start of 1970.
pub open spec fn is_clock_text(text: Seq<char>, total: nat) -> bool {
    exists|y: Seq<char>, mo: Seq<char>, d: Seq<char>, h: Seq<char>, mi: Seq<char>, s: Seq<char>|
        {
            let year = value_of(y) as int;
            let month = value_of(mo) as int;
            let days = days_before_year(year) + days_before_month(year, month) + value_of(d) - 1;
            &&& text == #[trigger] (y + "-"@ + mo + "-"@ + d + "T"@ + h + ":"@ + mi + ":"@ + s
                + "Z"@)
            &&& is_digits(y) && is_digits(mo) && is_digits(d) && is_digits(h) && is_digits(mi)
                && is_digits(s)
            &&& y.len() >= 4 && mo.len() == 2 && d.len() == 2 && h.len() == 2 && mi.len() == 2
                && s.len() == 2
            &&& 1970 <= year && 1 <= month <= 12 && 1 <= value_of(d) <= days_in_month(year, month)
            &&& value_of(h) < 24 && value_of(mi) < 60 && value_of(s) < 60
            &&& total == 86400 * days + 3600 * value_of(h) + 60 * value_of(mi) + value_of(s)
        }
}

proof fn lemma_clock_text(text: Seq<char>, total: nat)
    requires
        is_iso_text(text, total),
    ensures
        is_clock_text(text, total),
{
    let date = choose|date: Date|
        #![trigger date.is_day((total / 86400) as int)]
        date.is_day((total / 86400) as int) && text == date_time_text(date, total % 86400);
    let secs = total % 86400;
    lemma_padded(date.year as nat, 4);
    lemma_two_digits(date.month as nat);
    lemma_two_digits(date.day as nat);
    lemma_two_digits(secs / 3600);
    lemma_two_digits((secs % 3600) / 60);
    lemma_two_digits(secs % 60);
    let y = padded(date.year as nat, 4);
    let mo = padded(date.month as nat, 2);
    let d = padded(date.day as nat, 2);
    let h = padded(secs / 3600, 2);
    let mi = padded((secs % 3600) / 60, 2);
    let s = padded(secs % 60, 2);
    assert(text == y + "-"@ + mo + "-"@ + d + "T"@ + h + ":"@ + mi + ":"@ + s + "Z"@);
    assert(total == 86400 * (total / 86400) + secs);
}

/// The text of a time reads back to the very second.
pub proof fn time_reads_back(total_secs: u64, text: String)
    requires
        call_ensures(iso_text, (total_secs,), text),
    ensures
        is_clock_text(text@, total_secs as nat),
{
    lemma_clock_text(text@, total_secs as nat);
}

proof fn lemma_four_years(year: int)
    requires
        year >= 1970,
        year % 4 == 0,
    ensures
        days_before_year(year + 4) == days_before_year(year) + 1460 + (if is_leap(year) {
            1int
        } else {
            0
        }),
{
    reveal_with_fuel(days_before_year, 5);
    assert((year + 1) % 4 == 1 && (year + 2) % 4 == 2 && (year + 3) % 4 == 3);
    assert(!is_leap(year + 1) && !is_leap(year + 2) && !is_leap(year + 3)) by {
        lemma_not_leap(year + 1);
        lemma_not_leap(year + 2);
        lemma_not_leap(year + 3);
    }
}

proof fn lemma_not_leap(year: int)
    requires
        year % 4 != 0,
    ensures
        !is_leap(year),
{
    assert(year % 400 == 0 ==> year % 4 == 0);
}

proof fn lemma_fours(year: int, count: nat)
    requires
        year >= 1970,
        year % 100 == 0,
        count <= 25,
    ensures
        days_before_year(year + 4 * count) == days_before_year(year) + 1461 * count - (if count > 0
            && !is_leap(year) {
            1int
        } else {
            0
        }),
    decreases count,
{
    if count > 0 {
        let before = (count - 1) as nat;
        lemma_fours(year, before);
        let last = year + 4 * before;
        assert(last % 4 == 0);
        lemma_four_years(last);
        if before > 0 {
            assert(last % 100 == 4 * before);
            assert(is_leap(last));
        }
    }
}

/// The calendar repeats itself every 400 years, in which 97 years have a day more than 365: of the
/// four centuries one begins with such a year.
pub proof fn calendar_repeats(year: int)
    requires
        year >= 1970,
        year % 400 == 0,
    ensures
        days_before_year(year + 400) == days_before_year(year) + 146_097,
        days_before_year(year + 100) == days_before_year(year) + 36_525,
        days_before_year(year + 200) == days_before_year(year + 100) + 36_524,
        days_before_year(year + 300) == days_before_year(year + 200) + 36_524,
        forall|m: int| #[trigger]
            days_before_month(year, m) == days_before_month(year + 400, m),
{
    lemma_fours(year, 25);
    lemma_fours(year + 100, 25);
    lemma_fours(year + 200, 25);
    lemma_fours(year + 300, 25);
    assert forall|m: int| #[trigger]
        days_before_month(year, m) == days_before_month(year + 400, m) by {
        lemma_same_months(year, year + 400, m);
    }
}

proof fn lemma_same_months(a: int, b: int, m: int)
    requires
        is_leap(a) == is_leap(b),
    ensures
        days_before_month(a, m) == days_before_month(b, m),
    decreases m,
{
    if m > 1 {
        lemma_same_months(a, b, m - 1);
    }
}

/// Thirty days have the fourth, the sixth, the ninth and the eleventh month, the second has 28 or
/// 29, and the others have one more than thirty; together they fill the year.
pub proof fn months_fill_the_year(year: int, month: int)
    requires
        1 <= month <= 12,
    ensures
        days_in_month(year, month) == 30 <==> month == 4 || month == 6 || month == 9 || month == 11,
        month != 2 ==> days_in_month(year, month) >= 30,
        days_in_month(year, 2) == days_in_year(year) - 337,
        days_in_month(year, month) <= 31,
        days_before_month(year, 13) == days_in_year(year),
        days_in_year(year) == 365 || days_in_year(year) == 366,
{
    lemma_year_span(year);
}

/// A reading of the clock is taken as it is; without one the time is zero, or there is none.
pub proof fn readings_are_taken_as_they_are(
    ms: Option<u128>,
    secs: Option<u64>,
    r: u128,
    text: Option<String>,
)
    requires
        call_ensures(millis_or_zero, (ms,), r),
        call_ensures(iso_of_reading, (secs,), text),
    ensures
        ms matches Some(n) ==> r == n,
        ms is None ==> r == 0,
        secs is None <==> text is None,
        secs matches Some(n) ==> is_clock_text(text->0@, n as nat),
{
    if let Some(n) = secs {
        lemma_clock_text(text->0@, n as nat);
    }
}

/// The first date is the first of January 1970, and each date is followed by the next day of its
/// month, or by the first of the next month where the month is over, or by the first of January
/// where the year is.
pub proof fn dates_follow_each_other(days: u64, today: Date, tomorrow: Date)
    requires
        days < u64::MAX,
        call_ensures(date_of, (days,), today),
        call_ensures(date_of, ((days + 1) as u64,), tomorrow),
    ensures
        days == 0 ==> today.year == 1970 && today.month == 1 && today.day == 1,
        ({
            let length = days_in_month(today.year as int, today.month as int);
            &&& today.day < length ==> tomorrow.year == today.year && tomorrow.month == today.month
                && tomorrow.day == today.day + 1
            &&& today.day == length && today.month < 12 ==> tomorrow.year == today.year
                && tomorrow.month == today.month + 1 && tomorrow.day == 1
            &&& today.day == length && today.month == 12 ==> tomorrow.year == today.year + 1
                && tomorrow.month == 1 && tomorrow.day == 1
            &&& today.day <= length
        }),
{
    let y = today.year as int;
    let m = today.month as int;
    lemma_year_span(y);
    lemma_year_bound_of(y);
    let length = days_in_month(y, m);
    let next = if today.day < length {
        Date { year: today.year, month: today.month, day: (today.day + 1) as u64 }
    } else if today.month < 12 {
        Date { year: today.year, month: (today.month + 1) as u64, day: 1 }
    } else {
        Date { year: (today.year + 1) as u64, month: 1, day: 1 }
    };
    if today.day < length {
    } else if today.month < 12 {
        assert(days_before_month(y, m + 1) == days_before_month(y, m) + length);
    } else {
        assert(days_before_month(y, 13) == days_before_month(y, 12) + days_in_month(y, 12));
        assert(days_before_year(y + 1) == days_before_year(y) + days_in_year(y));
        lemma_month_nonnegative(y, 12);
        assert(y + 1 <= u64::MAX);
    }
    assert(next.is_day(days + 1));
    date_is_unique(days + 1, next, tomorrow);
    let first = Date { year: 1970, month: 1, day: 1 };
    assert(first.is_day(0));
    if days == 0 {
        date_is_unique(0, first, today);
    }
}

proof fn lemma_year_bound_of(year: int)
    requires
        year >= 1970,
    ensures
        days_before_year(year) >= 365 * (year - 1970),
    decreases year,
{
    if year > 1970 {
        lemma_year_bound_of(year - 1);
    }
}

} // verus!
