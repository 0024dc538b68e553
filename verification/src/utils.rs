//! Calendar dates with verified day-by-day navigation.

use vstd::prelude::*;

use crate::strutil::{
    append_pad2, append_pad4, lemma_digit_char_injective, spec_pad2, spec_pad4,
};

verus! {

/// Smallest year a date can hold.
pub const MIN_YEAR: u32 = 1;

/// Largest year a date can hold; keeps the year printable as four digits.
pub const MAX_YEAR: u32 = 9999;

/// A Gregorian calendar date, held as plain year / month / day numbers.
#[derive(Debug, Clone, Copy, PartialEq, Eq, Structural)]
pub struct AppDate {
    pub year: u32,
    pub month: u32,
    pub day: u32,
}

/// True on leap years of the proleptic Gregorian calendar.
pub open spec fn spec_is_leap_year(year: u32) -> bool {
    year % 4 == 0 && (year % 100 != 0 || year % 400 == 0)
}

/// Number of days in the given month of the given year.
pub open spec fn spec_days_in_month(year: u32, month: u32) -> u32 {
    if month == 2 {
        if spec_is_leap_year(year) {
            29
        } else {
            28
        }
    } else if month == 4 || month == 6 || month == 9 || month == 11 {
        30
    } else {
        31
    }
}

impl AppDate {
    /// A date is well formed when its components name a real calendar day.
    pub open spec fn wf(self) -> bool {
        &&& MIN_YEAR <= self.year <= MAX_YEAR
        &&& 1 <= self.month <= 12
        &&& 1 <= self.day <= spec_days_in_month(self.year, self.month)
    }

    /// The calendar day after `self`; the largest representable date is
    /// its own successor.
    pub open spec fn spec_next(self) -> AppDate {
        if self.day < spec_days_in_month(self.year, self.month) {
            AppDate { day: (self.day + 1) as u32, ..self }
        } else if self.month < 12 {
            AppDate { day: 1, month: (self.month + 1) as u32, ..self }
        } else if self.year < MAX_YEAR {
            AppDate { day: 1, month: 1, year: (self.year + 1) as u32 }
        } else {
            self
        }
    }

    /// The calendar day before `self`; the smallest representable date is
    /// its own predecessor.
    pub open spec fn spec_prev(self) -> AppDate {
        if self.day > 1 {
            AppDate { day: (self.day - 1) as u32, ..self }
        } else if self.month > 1 {
            AppDate {
                day: spec_days_in_month(self.year, (self.month - 1) as u32),
                month: (self.month - 1) as u32,
                ..self
            }
        } else if self.year > MIN_YEAR {
            AppDate { day: 31, month: 12, year: (self.year - 1) as u32 }
        } else {
            self
        }
    }
}

/// Executable twin of [`spec_is_leap_year`].
pub fn is_leap_year(year: u32) -> (r: bool)
    ensures
        r == spec_is_leap_year(year),
{
    year % 4 == 0 && (year % 100 != 0 || year % 400 == 0)
}

/// Executable twin of [`spec_days_in_month`].
pub fn days_in_month(year: u32, month: u32) -> (r: u32)
    ensures
        r == spec_days_in_month(year, month),
{
    if month == 2 {
        if is_leap_year(year) {
            29
        } else {
            28
        }
    } else if month == 4 || month == 6 || month == 9 || month == 11 {
        30
    } else {
        31
    }
}

impl AppDate {
    /// Builds a date after checking that the components name a real
    /// calendar day.
    pub fn from_ymd(year: u32, month: u32, day: u32) -> (r: Option<AppDate>)
        ensures
            match r {
                Some(d) => d.wf() && d.year == year && d.month == month && d.day == day,
                None => !(AppDate { year, month, day }).wf(),
            },
    {
        if MIN_YEAR <= year && year <= MAX_YEAR && 1 <= month && month <= 12 && 1 <= day
            && day <= days_in_month(year, month) {
            Some(AppDate { year, month, day })
        } else {
            None
        }
    }

    /// Moves one day forward.
    pub fn next(self) -> (r: AppDate)
        requires
            self.wf(),
        ensures
            r == self.spec_next(),
            r.wf(),
    {
        if self.day < days_in_month(self.year, self.month) {
            AppDate { day: self.day + 1, ..self }
        } else if self.month < 12 {
            AppDate { day: 1, month: self.month + 1, ..self }
        } else if self.year < MAX_YEAR {
            AppDate { day: 1, month: 1, year: self.year + 1 }
        } else {
            self
        }
    }

    /// Moves one day back.
    pub fn prev(self) -> (r: AppDate)
        requires
            self.wf(),
        ensures
            r == self.spec_prev(),
            r.wf(),
    {
        if self.day > 1 {
            AppDate { day: self.day - 1, ..self }
        } else if self.month > 1 {
            AppDate { day: days_in_month(self.year, self.month - 1), month: self.month - 1, ..self }
        } else if self.year > MIN_YEAR {
            AppDate { day: 31, month: 12, year: self.year - 1 }
        } else {
            self
        }
    }
}

impl AppDate {
    /// The ISO `year-month-day` rendering used as cache key and as the
    /// remote service's date parameter: a four-digit year, then
    /// two-digit month and day.
    pub open spec fn spec_iso(self) -> Seq<char> {
        spec_pad4(self.year as nat) + seq!['-'] + spec_pad2(self.month as nat) + seq!['-']
            + spec_pad2(self.day as nat)
    }

    /// Renders the date as ISO `year-month-day`.
    pub fn iso(&self) -> (r: String)
        requires
            self.wf(),
        ensures
            r@ == self.spec_iso(),
    {
        let mut s = String::new();
        append_pad4(&mut s, self.year);
        s.append("-");
        append_pad2(&mut s, self.month);
        s.append("-");
        append_pad2(&mut s, self.day);
        proof {
            reveal_strlit("-");
            assert("-"@ =~= seq!['-']);
            assert(s@ =~= self.spec_iso());
        }
        s
    }
}

/// The decimal digit of `n` at position `p` (position 0 is the ones).
pub open spec fn digit_at(n: nat, p: nat) -> nat
    decreases p,
{
    if p == 0 {
        n % 10
    } else {
        digit_at(n / 10, (p - 1) as nat)
    }
}

/// Ten to the power `p`.
pub open spec fn pow10(p: nat) -> nat
    decreases p,
{
    if p == 0 {
        1
    } else {
        10 * pow10((p - 1) as nat)
    }
}

/// Two numbers below `10^(top+1)` that agree on every digit up to
/// position `top` are equal.
proof fn lemma_same_digits(a: nat, b: nat, top: nat)
    requires
        a < pow10(top + 1),
        b < pow10(top + 1),
        forall|p: nat| p <= top ==> #[trigger] digit_at(a, p) == digit_at(b, p),
    ensures
        a == b,
    decreases top,
{
    assert(digit_at(a, 0) == digit_at(b, 0));
    if top == 0 {
        assert(pow10(1) == 10 * pow10(0));
        assert(a % 10 == a && b % 10 == b);
    } else {
        assert forall|p: nat| p <= (top - 1) as nat implies #[trigger] digit_at(a / 10, p)
            == digit_at(b / 10, p) by {
            assert(digit_at(a, p + 1) == digit_at(a / 10, p));
            assert(digit_at(b, p + 1) == digit_at(b / 10, p));
            assert(digit_at(a, p + 1) == digit_at(b, p + 1));
        }
        assert(pow10(top + 1) == 10 * pow10(top));
        vstd::arithmetic::div_mod::lemma_fundamental_div_mod(a as int, 10);
        vstd::arithmetic::div_mod::lemma_fundamental_div_mod(b as int, 10);
        assert(a / 10 < pow10(top) && b / 10 < pow10(top));
        lemma_same_digits(a / 10, b / 10, (top - 1) as nat);
    }
}

/// Well-formed dates with the same ISO `year-month-day` rendering are
/// the same date.
pub proof fn lemma_iso_injective(d1: AppDate, d2: AppDate)
    requires
        d1.wf(),
        d2.wf(),
        d1.spec_iso() == d2.spec_iso(),
    ensures
        d1 == d2,
{
    let s1 = d1.spec_iso();
    let s2 = d2.spec_iso();
    assert(s1.len() == 10);
    assert(s1.subrange(0, 4) =~= spec_pad4(d1.year as nat));
    assert(s2.subrange(0, 4) =~= spec_pad4(d2.year as nat));
    assert(s1[5] == crate::strutil::digit_char(d1.month as nat / 10 % 10) && s1[6]
        == crate::strutil::digit_char(d1.month as nat % 10));
    assert(s2[5] == crate::strutil::digit_char(d2.month as nat / 10 % 10) && s2[6]
        == crate::strutil::digit_char(d2.month as nat % 10));
    assert(s1[8] == crate::strutil::digit_char(d1.day as nat / 10 % 10) && s1[9]
        == crate::strutil::digit_char(d1.day as nat % 10));
    assert(s2[8] == crate::strutil::digit_char(d2.day as nat / 10 % 10) && s2[9]
        == crate::strutil::digit_char(d2.day as nat % 10));
    lemma_year_chars(d1.year as nat, d2.year as nat, s1.subrange(0, 4), s2.subrange(0, 4));
    lemma_two_digit_chars(d1.month as nat, d2.month as nat, s1[5], s1[6], s2[5], s2[6]);
    lemma_two_digit_chars(d1.day as nat, d2.day as nat, s1[8], s1[9], s2[8], s2[9]);
    assert(d1.day == d2.day && d1.month == d2.month && d1.year == d2.year);
}

/// Equal two-digit renderings come from equal numbers below 100.
proof fn lemma_two_digit_chars(a: nat, b: nat, a1: char, a0: char, b1: char, b0: char)
    requires
        a < 100,
        b < 100,
        a1 == crate::strutil::digit_char(a / 10 % 10),
        a0 == crate::strutil::digit_char(a % 10),
        b1 == crate::strutil::digit_char(b / 10 % 10),
        b0 == crate::strutil::digit_char(b % 10),
        a1 == b1,
        a0 == b0,
    ensures
        a == b,
{
    lemma_digit_char_injective(a % 10, b % 10);
    lemma_digit_char_injective(a / 10 % 10, b / 10 % 10);
    assert forall|p: nat| p <= 1 implies #[trigger] digit_at(a, p) == digit_at(b, p) by {
        if p != 0 {
            assert(digit_at(a, p) == digit_at(a / 10, (p - 1) as nat));
            assert(a / 10 % 10 == digit_at(a / 10, 0));
            assert(b / 10 % 10 == digit_at(b / 10, 0));
        }
    }
    assert(pow10(2) == 10 * pow10(1) && pow10(1) == 10 * pow10(0));
    lemma_same_digits(a, b, 1);
}

/// Equal four-digit renderings come from equal numbers below 10000.
proof fn lemma_year_chars(a: nat, b: nat, s1: Seq<char>, s2: Seq<char>)
    requires
        a < 10000,
        b < 10000,
        s1 == s2,
        s1 == spec_pad4(a),
        s2 == spec_pad4(b),
    ensures
        a == b,
{
    assert(spec_pad4(a) == spec_pad4(b));
    assert(spec_pad4(a)[0] == spec_pad4(b)[0] && spec_pad4(a)[1] == spec_pad4(b)[1] && spec_pad4(
        a,
    )[2] == spec_pad4(b)[2] && spec_pad4(a)[3] == spec_pad4(b)[3]);
    lemma_digit_char_injective(a % 10, b % 10);
    lemma_digit_char_injective(a / 10 % 10, b / 10 % 10);
    lemma_digit_char_injective(a / 100 % 10, b / 100 % 10);
    lemma_digit_char_injective(a / 1000 % 10, b / 1000 % 10);
    assert(a / 10 / 10 == a / 100 && b / 10 / 10 == b / 100) by {
        vstd::arithmetic::div_mod::lemma_div_denominator(a as int, 10, 10);
        vstd::arithmetic::div_mod::lemma_div_denominator(b as int, 10, 10);
    }
    assert(a / 100 / 10 == a / 1000 && b / 100 / 10 == b / 1000) by {
        vstd::arithmetic::div_mod::lemma_div_denominator(a as int, 100, 10);
        vstd::arithmetic::div_mod::lemma_div_denominator(b as int, 100, 10);
    }
    assert forall|p: nat| p <= 3 implies #[trigger] digit_at(a, p) == digit_at(b, p) by {
        lemma_digit_at_unfold(a, p);
        lemma_digit_at_unfold(b, p);
    }
    assert(pow10(4) == 10 * pow10(3) && pow10(3) == 10 * pow10(2) && pow10(2) == 10 * pow10(1)
        && pow10(1) == 10 * pow10(0));
    lemma_same_digits(a, b, 3);
}

/// The first four digit positions, written with plain divisions.
proof fn lemma_digit_at_unfold(n: nat, p: nat)
    requires
        p <= 3,
    ensures
        p == 0 ==> digit_at(n, p) == n % 10,
        p == 1 ==> digit_at(n, p) == n / 10 % 10,
        p == 2 ==> digit_at(n, p) == n / 100 % 10,
        p == 3 ==> digit_at(n, p) == n / 1000 % 10,
{
    assert(n / 10 / 10 == n / 100) by {
        vstd::arithmetic::div_mod::lemma_div_denominator(n as int, 10, 10);
    }
    assert(n / 100 / 10 == n / 1000) by {
        vstd::arithmetic::div_mod::lemma_div_denominator(n as int, 100, 10);
    }
    if p == 1 {
        assert(digit_at(n, 1) == digit_at(n / 10, 0));
    } else if p == 2 {
        assert(digit_at(n, 2) == digit_at(n / 10, 1));
        assert(digit_at(n / 10, 1) == digit_at(n / 10 / 10, 0));
    } else if p == 3 {
        assert(digit_at(n, 3) == digit_at(n / 10, 2));
        assert(digit_at(n / 10, 2) == digit_at(n / 10 / 10, 1));
        assert(digit_at(n / 10 / 10, 1) == digit_at(n / 10 / 10 / 10, 0));
        assert(n / 100 / 10 == n / 1000);
    }
}

/// Relies on chrono's `Utc::now` and the `Datelike` accessors: the
/// current UTC date, as plain year, month and day numbers; chrono's
/// month is 1 to 12 and its day of month 1 to 31, and `Utc::now` does
/// not return (it panics) on a clock before the Unix epoch, so the
/// reported year is at least 1970.
#[verifier::external_body]
fn today_ymd() -> (r: (i64, u32, u32))
    ensures
        r.0 >= 1970,
        1 <= r.1 <= 12,
        1 <= r.2 <= 31,
{
    let d = chrono::Utc::now().date_naive();
    (
        chrono::Datelike::year(&d) as i64,
        chrono::Datelike::month(&d),
        chrono::Datelike::day(&d),
    )
}

/// The English name of a month.
pub open spec fn spec_month_name(m: u32) -> Seq<char> {
    if m == 1 {
        "January"@
    } else if m == 2 {
        "February"@
    } else if m == 3 {
        "March"@
    } else if m == 4 {
        "April"@
    } else if m == 5 {
        "May"@
    } else if m == 6 {
        "June"@
    } else if m == 7 {
        "July"@
    } else if m == 8 {
        "August"@
    } else if m == 9 {
        "September"@
    } else if m == 10 {
        "October"@
    } else if m == 11 {
        "November"@
    } else {
        "December"@
    }
}

/// Executable twin of [`spec_month_name`].
fn month_name(m: u32) -> (r: &'static str)
    ensures
        r@ == spec_month_name(m),
{
    if m == 1 {
        "January"
    } else if m == 2 {
        "February"
    } else if m == 3 {
        "March"
    } else if m == 4 {
        "April"
    } else if m == 5 {
        "May"
    } else if m == 6 {
        "June"
    } else if m == 7 {
        "July"
    } else if m == 8 {
        "August"
    } else if m == 9 {
        "September"
    } else if m == 10 {
        "October"
    } else if m == 11 {
        "November"
    } else {
        "December"
    }
}

impl AppDate {
    /// How a date reads next to `today`: a relative word for yesterday,
    /// today and tomorrow, otherwise day, month name and year.
    pub open spec fn spec_format_relative(self, today: AppDate) -> Seq<char> {
        if self == today {
            "Сегодня"@
        } else if self == today.spec_next() {
            "Завтра"@
        } else if self == today.spec_prev() {
            "Вчера"@
        } else {
            spec_pad2(self.day as nat) + seq![' '] + spec_month_name(self.month) + seq![' ']
                + spec_pad4(self.year as nat)
        }
    }

    /// Renders the date for display next to `today`.
    pub fn format_relative(&self, today: &AppDate) -> (r: String)
        requires
            self.wf(),
            today.wf(),
        ensures
            r@ == self.spec_format_relative(*today),
            r@.len() > 0,
    {
        if *self == *today {
            let s = "Сегодня".to_owned();
            proof {
                reveal_strlit("Сегодня");
            }
            s
        } else if *self == today.next() {
            let s = "Завтра".to_owned();
            proof {
                reveal_strlit("Завтра");
            }
            s
        } else if *self == today.prev() {
            let s = "Вчера".to_owned();
            proof {
                reveal_strlit("Вчера");
            }
            s
        } else {
            let mut s = String::new();
            append_pad2(&mut s, self.day);
            s.append(" ");
            s.append(month_name(self.month));
            s.append(" ");
            append_pad4(&mut s, self.year);
            proof {
                reveal_strlit(" ");
                assert(" "@ =~= seq![' ']);
                assert(s@ =~= self.spec_format_relative(*today));
            }
            s
        }
    }

    /// The current UTC day. The clock cannot be before 1970, a year
    /// past the representable range falls back to a fixed day, and so
    /// does the very last representable day — so the result always has
    /// a distinct day before and after it, and stepping off it and back
    /// returns to it.
    pub fn today() -> (r: AppDate)
        ensures
            r.wf(),
            r.year >= 1970,
            r.spec_next() != r,
            r.spec_prev() != r,
    {
        let fallback = AppDate { year: 2000, month: 1, day: 1 };
        let (y, m, d) = today_ymd();
        if y <= MAX_YEAR as i64 {
            match AppDate::from_ymd(y as u32, m, d) {
                Some(date) => {
                    if date.year == MAX_YEAR && date.month == 12 && date.day == 31 {
                        fallback
                    } else {
                        date
                    }
                },
                None => fallback,
            }
        } else {
            fallback
        }
    }

    /// Renders the date for display next to the current UTC day.
    pub fn format(&self) -> (r: String)
        requires
            self.wf(),
        ensures
            exists|t: AppDate| t.wf() && r@ == self.spec_format_relative(t),
            r@.len() > 0,
    {
        let today = AppDate::today();
        let r = self.format_relative(&today);
        proof {
            assert(today.wf() && r@ == self.spec_format_relative(today));
        }
        r
    }
}

/// Away from both ends of the representable range, one day forward and
/// one day back return to the same date.
pub proof fn lemma_next_prev_round_trip(d: AppDate)
    requires
        d.wf(),
        d.spec_next() != d,
        d.spec_prev() != d,
    ensures
        d.spec_next().spec_prev() == d,
        d.spec_prev().spec_next() == d,
{
}

} // verus!
