//! The date and time of day, as texts.

use vstd::prelude::*;

verus! {

/// How a date is written: `2024-05-31 17:04:09`.
pub const DATE_FORMAT: &'static str = "%Y-%m-%d %H:%M:%S";

/// The last decimal digit of a number.
pub open spec fn digit(n: nat) -> char {
    (48 + n % 10) as char
}

/// A number below a hundred, in two digits.
pub open spec fn two_digits(n: nat) -> Seq<char> {
    seq![digit(n / 10), digit(n)]
}

/// A number in as many digits as it needs.
pub open spec fn decimal(n: nat) -> Seq<char>
    decreases n,
{
    if n < 10 {
        seq![digit(n)]
    } else {
        decimal(n / 10).push(digit(n))
    }
}

/// A year: four digits, or a plus sign and more of them.
pub open spec fn year_text(year: nat) -> Seq<char> {
    if year <= 9999 {
        two_digits(year / 100) + two_digits(year)
    } else {
        seq!['+'] + decimal(year)
    }
}

/// A date and a time of day.
pub struct Moment {
    pub year: nat,
    pub month: nat,
    pub day: nat,
    pub hour: nat,
    pub minute: nat,
    pub second: nat,
}

impl Moment {
    /// The number of days in the month.
    pub open spec fn days(self) -> nat {
        if self.month == 2 {
            if self.year % 4 == 0 && (self.year % 100 != 0 || self.year % 400 == 0) {
                29
            } else {
                28
            }
        } else if self.month == 4 || self.month == 6 || self.month == 9 || self.month == 11 {
            30
        } else {
            31
        }
    }

    /// Whether the calendar has the date and the day has the time.
    pub open spec fn valid(self) -> bool {
        &&& 1 <= self.month <= 12
        &&& 1 <= self.day <= self.days()
        &&& self.hour <= 23
        &&& self.minute <= 59
        &&& self.second <= 59
    }

    /// The moment, written as [`DATE_FORMAT`] says.
    pub open spec fn text(self) -> Seq<char> {
        year_text(self.year) + seq!['-'] + two_digits(self.month) + seq!['-'] + two_digits(self.day)
            + seq![' '] + two_digits(self.hour) + seq![':'] + two_digits(self.minute) + seq![':']
            + two_digits(self.second)
    }
}

/// Whether a text is a date and a time of day.
pub open spec fn is_date(text: Seq<char>) -> bool {
    exists|m: Moment| #[trigger] m.valid() && text == m.text()
}

/// `format` of `chrono`, on the moment that `Local::now` reads from the
/// machine's clock, in the machine's time zone: the text of some moment. Which
/// one is left to the clock, and so left unsaid. (`Local::now` panics where
/// the clock stands before 1970.)
#[verifier::external_body]
fn local_now(format: &str) -> (text: String)
    requires
        format@ == DATE_FORMAT@,
    ensures
        is_date(text@),
{
    chrono::Local::now().format(format).to_string()
}

/// The present date and time of day.
pub fn current_date() -> (text: String)
    ensures
        is_date(text@),
{
    local_now(DATE_FORMAT)
}

/// Whether the character at a place is a decimal digit.
pub open spec fn is_digit(s: Seq<char>, i: int) -> bool {
    '0' <= s[i] <= '9'
}

/// The number that two digits make.
pub open spec fn number(s: Seq<char>, i: int) -> int {
    (s[i] as u32 - '0' as u32) * 10 + (s[i + 1] as u32 - '0' as u32)
}

proof fn lemma_two_digits(n: nat)
    requires
        n < 100,
    ensures
        two_digits(n).len() == 2,
        is_digit(two_digits(n), 0),
        is_digit(two_digits(n), 1),
        number(two_digits(n), 0) == n,
{
    assert(n / 10 < 10);
    assert((n / 10) % 10 == n / 10);
    assert((n / 10) * 10 + n % 10 == n);
}

/// A date ends in a month, a day, an hour, a minute and a second, each in two
/// digits and within its range, behind a dash, a dash, a space, a colon and a
/// colon; and the year before them has four characters or more.
pub proof fn law_dates_are_legible(text: Seq<char>)
    requires
        is_date(text),
    ensures
        ({
            let n = text.len() as int;
            &&& n >= 19
            &&& text[n - 15] == '-' && text[n - 12] == '-' && text[n - 9] == ' '
            &&& text[n - 6] == ':' && text[n - 3] == ':'
            &&& forall|i: int| #[trigger]
                is_digit(text, i) || !(n - 14 <= i < n) || i == n - 12 || i == n - 9 || i == n - 6
                    || i == n - 3
            &&& 1 <= number(text, n - 14) <= 12
            &&& 1 <= number(text, n - 11) <= 31
            &&& 0 <= number(text, n - 8) <= 23
            &&& 0 <= number(text, n - 5) <= 59
            &&& 0 <= number(text, n - 2) <= 59
        }),
{
    let m = choose|m: Moment| #[trigger] m.valid() && text == m.text();
    let n = text.len() as int;
    let year = year_text(m.year);
    lemma_two_digits(m.month);
    lemma_two_digits(m.day);
    lemma_two_digits(m.hour);
    lemma_two_digits(m.minute);
    lemma_two_digits(m.second);
    lemma_year_is_long(m.year);
    let y = year.len() as int;
    assert(n == y + 15);
    assert(text[y + 1] == two_digits(m.month)[0] && text[y + 2] == two_digits(m.month)[1]);
    assert(text[y + 4] == two_digits(m.day)[0] && text[y + 5] == two_digits(m.day)[1]);
    assert(text[y + 7] == two_digits(m.hour)[0] && text[y + 8] == two_digits(m.hour)[1]);
    assert(text[y + 10] == two_digits(m.minute)[0] && text[y + 11] == two_digits(m.minute)[1]);
    assert(text[y + 13] == two_digits(m.second)[0] && text[y + 14] == two_digits(m.second)[1]);
}

proof fn lemma_year_is_long(year: nat)
    ensures
        year_text(year).len() >= 4,
{
    if year > 9999 {
        reveal_with_fuel(decimal, 4);
        assert(year / 10 > 99);
        assert(year / 10 / 10 > 9);
    }
}

/// Dates are written year, month and day, then hour, minute and second.
pub proof fn law_date_format()
    ensures
        DATE_FORMAT@ == "%Y-%m-%d %H:%M:%S"@,
{
}

} // verus!
