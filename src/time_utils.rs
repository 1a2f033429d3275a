use vstd::prelude::*;

use crate::error::CmhError;
use crate::text::{
    all_digits, chars_of, digits_value, is_digit, lemma_digit_char, lemma_digits_prefix,
    lemma_pad2, pad2, push_char, push_pad2,
};

verus! {

/// Whole hours above this make any time too large for an `i32` of minutes.
const HOUR_LIMIT: u64 = 35791394;

pub open spec fn fits_i32(x: int) -> bool {
    i32::MIN <= x <= i32::MAX
}

pub open spec fn abs_int(x: int) -> nat {
    if x < 0 {
        (-x) as nat
    } else {
        x as nat
    }
}

pub open spec fn is_negative(s: Seq<char>) -> bool {
    s.len() > 0 && s[0] == '-'
}

/// The time without its leading `-`, if any.
pub open spec fn unsigned_part(s: Seq<char>) -> Seq<char> {
    if is_negative(s) {
        s.drop_first()
    } else {
        s
    }
}

/// The hour digits of an unsigned time `H+:MM`.
pub open spec fn hour_digits(u: Seq<char>) -> Seq<char> {
    u.subrange(0, u.len() - 3)
}

/// The minute digits of an unsigned time `H+:MM`.
pub open spec fn minute_digits(u: Seq<char>) -> Seq<char> {
    u.subrange(u.len() - 2, u.len() as int)
}

/// `H+:MM`: one or more digits, a colon, and two digits from `00` to `59`.
pub open spec fn is_unsigned_time(u: Seq<char>) -> bool {
    &&& u.len() >= 4
    &&& all_digits(hour_digits(u))
    &&& u[u.len() - 3] == ':'
    &&& '0' <= u[u.len() - 2] && u[u.len() - 2] <= '5'
    &&& is_digit(u[u.len() - 1])
}

/// The grammar of a time: `-?H+:MM`, with `MM` from `00` to `59`.
pub open spec fn is_time_format(s: Seq<char>) -> bool {
    is_unsigned_time(unsigned_part(s))
}

/// The number of minutes that a well-formed time writes, without its sign.
pub open spec fn time_magnitude(s: Seq<char>) -> nat {
    let u = unsigned_part(s);
    digits_value(hour_digits(u)) * 60 + digits_value(minute_digits(u))
}

/// The signed number of minutes that a well-formed time writes.
pub open spec fn time_value(s: Seq<char>) -> int {
    if is_negative(s) {
        -time_magnitude(s)
    } else {
        time_magnitude(s) as int
    }
}

/// `HH:MM` for `a` minutes: the whole hours zero-padded to at least two digits, a colon,
/// then the remaining minutes in two digits.
pub open spec fn hhmm(a: nat) -> Seq<char> {
    pad2(a / 60) + seq![':'] + pad2(a % 60)
}

/// `[-]HH:MM`: the sign only below zero, then the magnitude as `HH:MM`.
pub open spec fn format_time(m: int) -> Seq<char> {
    (if m < 0 {
        seq!['-']
    } else {
        Seq::<char>::empty()
    }) + hhmm(abs_int(m))
}

/// Appends `a` minutes to `s` as `HH:MM`.
pub fn push_hhmm(s: &mut String, a: u64)
    ensures
        final(s)@ == old(s)@ + hhmm(a as nat),
{
    push_pad2(s, a / 60);
    push_char(s, ':');
    push_pad2(s, a % 60);
}

/// Whether the characters `v` form a time `-?H+:MM`.
fn check_format(v: &Vec<char>) -> (r: bool)
    ensures
        r == is_time_format(v@),
{
    let n = v.len();
    let start: usize = if n > 0 && v[0] == '-' {
        1
    } else {
        0
    };
    let ghost u = unsigned_part(v@);
    assert(u =~= v@.subrange(start as int, n as int));
    if n < start + 4 {
        return false;
    }
    let mut i: usize = start;
    while i < n - 3
        invariant
            start <= i <= n - 3,
            n == v.len(),
            u == v@.subrange(start as int, n as int),
            u == unsigned_part(v@),
            forall|j: int| start <= j < i ==> is_digit(#[trigger] v@[j]),
        decreases n - 3 - i,
    {
        if !('0' <= v[i] && v[i] <= '9') {
            assert(hour_digits(u)[i - start] == v@[i as int]);
            assert(!is_digit(hour_digits(u)[i - start]));
            return false;
        }
        i = i + 1;
    }
    assert(all_digits(hour_digits(u))) by {
        assert forall|j: int| 0 <= j < hour_digits(u).len() implies is_digit(
            #[trigger] hour_digits(u)[j],
        ) by {
            assert(hour_digits(u)[j] == v@[j + start]);
        }
    }
    v[n - 3] == ':' && '0' <= v[n - 2] && v[n - 2] <= '5' && '0' <= v[n - 1] && v[n - 1] <= '9'
}

/// Whether `time` has the form `-?H+:MM`, with `MM` from `00` to `59`.
pub fn is_valid_time(time: &str) -> (r: bool)
    ensures
        r == is_time_format(time@),
{
    let v = chars_of(time);
    check_format(&v)
}

/// The value of the digits `v[lo..hi]`, or `None` where it exceeds `HOUR_LIMIT`.
fn hours_value(v: &Vec<char>, lo: usize, hi: usize) -> (r: Option<u64>)
    requires
        lo <= hi <= v.len(),
        all_digits(v@.subrange(lo as int, hi as int)),
    ensures
        match r {
            Some(h) => h == digits_value(v@.subrange(lo as int, hi as int)) && h <= HOUR_LIMIT,
            None => digits_value(v@.subrange(lo as int, hi as int)) > HOUR_LIMIT,
        },
{
    let ghost s = v@.subrange(lo as int, hi as int);
    let mut acc: u64 = 0;
    let mut i: usize = lo;
    assert(s.take(0) =~= Seq::<char>::empty());
    while i < hi
        invariant
            lo <= i <= hi <= v.len(),
            s == v@.subrange(lo as int, hi as int),
            all_digits(s),
            acc == digits_value(s.take(i - lo)),
            acc <= HOUR_LIMIT,
        decreases hi - i,
    {
        assert(is_digit(s[i - lo]));
        let d: u64 = (v[i] as u32 - 48) as u64;
        assert(s.take(i - lo + 1).drop_last() =~= s.take(i - lo));
        assert(s.take(i - lo + 1).last() == v@[i as int]);
        acc = acc * 10 + d;
        if acc > HOUR_LIMIT {
            proof {
                lemma_digits_prefix(s, i - lo + 1);
            }
            return None;
        }
        i = i + 1;
    }
    assert(s.take(hi - lo) =~= s);
    Some(acc)
}

/// A time that parses: well-formed, with a value that fits in an `i32`.
pub open spec fn time_ok(s: Seq<char>) -> bool {
    is_time_format(s) && fits_i32(time_value(s))
}

/// `r` is what parsing `s` gives: the time it writes, or the error that says why it
/// cannot stand as one.
pub open spec fn parsed_as(s: Seq<char>, r: Result<Time, CmhError>) -> bool {
    match r {
        Ok(t) => time_ok(s) && t.minutes == time_value(s),
        Err(CmhError::InvalidFormat(e)) => !is_time_format(s) && e@ == s,
        Err(CmhError::OutOfRange(e)) => is_time_format(s) && !fits_i32(time_value(s)) && e@ == s,
        Err(_) => false,
    }
}

/// A signed duration in minutes.
#[derive(Debug, Clone, Copy, PartialEq, Eq, Structural)]
pub struct Time {
    pub minutes: i32,
}

impl Time {
    pub open spec fn can_add(self, other: Time) -> bool {
        fits_i32(self.minutes + other.minutes)
    }

    pub open spec fn can_sub(self, other: Time) -> bool {
        fits_i32(self.minutes - other.minutes)
    }

    pub open spec fn plus(self, other: Time) -> Time {
        Time { minutes: (self.minutes + other.minutes) as i32 }
    }

    pub open spec fn minus(self, other: Time) -> Time {
        Time { minutes: (self.minutes - other.minutes) as i32 }
    }

    pub open spec fn magnitude(self) -> Time {
        Time { minutes: abs_int(self.minutes as int) as i32 }
    }

    /// Parses a time `-?H+:MM`: its hours and minutes make a number of minutes, negative
    /// where the time starts with `-`.
    pub fn from_str(time: &str) -> (r: Result<Time, CmhError>)
        ensures
            parsed_as(time@, r),
    {
        let v = chars_of(time);
        if !check_format(&v) {
            return Err(CmhError::InvalidFormat(time.to_string()));
        }
        let n = v.len();
        let negative = v[0] == '-';
        let start: usize = if negative {
            1
        } else {
            0
        };
        let ghost u = unsigned_part(v@);
        assert(u =~= v@.subrange(start as int, n as int));
        assert(hour_digits(u) =~= v@.subrange(start as int, n - 3));
        assert(minute_digits(u) =~= v@.subrange(n - 2, n as int));
        match hours_value(&v, start, n - 3) {
            None => {
                proof {
                    let h = digits_value(hour_digits(u));
                    assert(h * 60 >= (HOUR_LIMIT + 1) * 60) by (nonlinear_arith)
                        requires
                            h >= HOUR_LIMIT + 1,
                    ;
                }
                Err(CmhError::OutOfRange(time.to_string()))
            },
            Some(h) => {
                let tens: u64 = (v[n - 2] as u32 - 48) as u64;
                let ones: u64 = (v[n - 1] as u32 - 48) as u64;
                proof {
                    let m = minute_digits(u);
                    assert(m.drop_last().drop_last() =~= Seq::<char>::empty());
                    assert(digits_value(m.drop_last().drop_last()) == 0);
                    assert(m.drop_last().last() == v@[n - 2]);
                    assert(m.last() == v@[n - 1]);
                    assert(digits_value(m.drop_last()) == tens);
                }
                let magnitude: i64 = (h * 60 + tens * 10 + ones) as i64;
                let total: i64 = if negative {
                    -magnitude
                } else {
                    magnitude
                };
                if total < i32::MIN as i64 || total > i32::MAX as i64 {
                    Err(CmhError::OutOfRange(time.to_string()))
                } else {
                    Ok(Time { minutes: total as i32 })
                }
            },
        }
    }

    /// The same duration without its sign.
    pub fn absolute(&self) -> (r: Time)
        requires
            self.minutes != i32::MIN,
        ensures
            r == self.magnitude(),
    {
        if self.minutes < 0 {
            Time { minutes: -self.minutes }
        } else {
            Time { minutes: self.minutes }
        }
    }

    /// The sum of two durations.
    pub fn add(self, other: Time) -> (r: Time)
        requires
            self.can_add(other),
        ensures
            r == self.plus(other),
    {
        Time { minutes: self.minutes + other.minutes }
    }

    /// The difference of two durations.
    pub fn sub(self, other: Time) -> (r: Time)
        requires
            self.can_sub(other),
        ensures
            r == self.minus(other),
    {
        Time { minutes: self.minutes - other.minutes }
    }

    /// The sum of two durations, or `None` where it does not fit in an `i32` of minutes.
    pub fn checked_add(self, other: Time) -> (r: Option<Time>)
        ensures
            r is Some <==> self.can_add(other),
            r matches Some(t) ==> t == self.plus(other),
    {
        let m: i64 = self.minutes as i64 + other.minutes as i64;
        if m < i32::MIN as i64 || m > i32::MAX as i64 {
            None
        } else {
            Some(self.add(other))
        }
    }

    /// The difference of two durations, or `None` where it does not fit in an `i32` of
    /// minutes.
    pub fn checked_sub(self, other: Time) -> (r: Option<Time>)
        ensures
            r is Some <==> self.can_sub(other),
            r matches Some(t) ==> t == self.minus(other),
    {
        let m: i64 = self.minutes as i64 - other.minutes as i64;
        if m < i32::MIN as i64 || m > i32::MAX as i64 {
            None
        } else {
            Some(self.sub(other))
        }
    }

    /// Renders the duration as `[-]HH:MM`.
    pub fn to_string(&self) -> (r: String)
        ensures
            r@ == format_time(self.minutes as int),
    {
        let mut s = String::new();
        if self.minutes < 0 {
            push_char(&mut s, '-');
        }
        let a: u64 = if self.minutes < 0 {
            (-(self.minutes as i64)) as u64
        } else {
            self.minutes as u64
        };
        push_hhmm(&mut s, a);
        s
    }
}

/// What `format_time` writes for a value within `i32` is a well-formed time of that value.
pub proof fn lemma_format_parses(m: int)
    requires
        fits_i32(m),
    ensures
        is_time_format(format_time(m)),
        time_value(format_time(m)) == m,
{
    let a = abs_int(m);
    let f = format_time(m);
    let hp = pad2(a / 60);
    let mp = pad2(a % 60);
    let u = hp + seq![':'] + mp;
    lemma_pad2(a / 60);
    lemma_pad2(a % 60);
    lemma_digit_char((a % 60) / 10);
    lemma_digit_char((a % 60) % 10);
    assert(is_digit(hp[0]));
    if m < 0 {
        assert(f =~= seq!['-'] + u);
        assert(unsigned_part(f) =~= u);
    } else {
        assert(f =~= u);
        assert(unsigned_part(f) =~= u);
    }
    assert(hour_digits(u) =~= hp);
    assert(minute_digits(u) =~= mp);
    assert(u[u.len() - 3] == ':');
    assert(u[u.len() - 2] == mp[0]);
    assert(u[u.len() - 1] == mp[1]);
    assert((a % 60) / 10 <= 5);
    assert((a / 60) * 60 + a % 60 == a) by (nonlinear_arith);
}

/// Formatting a parsed time and parsing the result again gives back the same number of
/// minutes, for every well-formed time whose value fits in an `i32`.
pub proof fn lemma_round_trip(s: Seq<char>)
    requires
        is_time_format(s),
        fits_i32(time_value(s)),
    ensures
        is_time_format(format_time(time_value(s))),
        time_value(format_time(time_value(s))) == time_value(s),
{
    lemma_format_parses(time_value(s));
}

/// Adding to a duration its difference from zero gives zero.
pub proof fn lemma_add_negation(a: Time)
    requires
        a.minutes != i32::MIN,
    ensures
        (Time { minutes: 0 }).can_sub(a),
        a.can_add((Time { minutes: 0 }).minus(a)),
        a.plus((Time { minutes: 0 }).minus(a)) == (Time { minutes: 0 }),
{
}

/// The magnitude of a duration is never negative, and a duration and its difference from
/// zero have the same magnitude.
pub proof fn lemma_absolute(x: Time)
    requires
        x.minutes != i32::MIN,
    ensures
        x.magnitude().minutes >= 0,
        (Time { minutes: 0 }).can_sub(x),
        x.magnitude() == (Time { minutes: 0 }).minus(x).magnitude(),
{
}

/// The weekday of a calendar date, from Monday (0) to Sunday (6).
pub uninterp spec fn weekday_index(year: int, month: int, day: int) -> int;

/// Leap years of the proleptic Gregorian calendar.
pub open spec fn is_leap_year(year: int) -> bool {
    year % 4 == 0 && (year % 100 != 0 || year % 400 == 0)
}

pub open spec fn days_in_month(year: int, month: int) -> int {
    if month == 2 {
        if is_leap_year(year) {
            29
        } else {
            28
        }
    } else if month == 4 || month == 6 || month == 9 || month == 11 {
        30
    } else {
        31
    }
}

/// A day of the proleptic Gregorian calendar, in the range of years that chrono's
/// `NaiveDate` can hold.
pub open spec fn is_calendar_date(year: int, month: int, day: int) -> bool {
    &&& -262143 <= year <= 262142
    &&& 1 <= month <= 12
    &&& 1 <= day <= days_in_month(year, month)
}

/// The last day of the month, or 0 where the month is not a calendar month.
pub open spec fn last_day(year: int, month: int) -> int {
    if is_calendar_date(year, month, 1) {
        days_in_month(year, month)
    } else {
        0
    }
}

/// The number of days `from <= d < to` of the month that fall on Monday to Friday.
pub open spec fn weekdays_between(year: int, month: int, from: int, to: int) -> nat
    decreases to - from,
{
    if from >= to {
        0
    } else {
        weekdays_between(year, month, from, to - 1) + if weekday_index(year, month, to - 1) < 5 {
            1nat
        } else {
            0nat
        }
    }
}

/// The working days of the month from day `from` to its last day, both included.
pub open spec fn working_days_from(year: int, month: int, from: int) -> nat {
    if from >= 1 {
        weekdays_between(year, month, from, last_day(year, month) + 1)
    } else {
        0
    }
}

/// Relies on chrono's `NaiveDate::from_ymd_opt`, which gives `None` exactly for a day that
/// the proleptic Gregorian calendar lacks or a year outside -262143..=262142, and on
/// `Datelike::weekday` with `Weekday::num_days_from_monday`, which number Monday 0 to
/// Sunday 6.
#[verifier::external_body]
fn weekday_from_monday(year: i32, month: u32, day: u32) -> (r: Option<u32>)
    ensures
        r is Some <==> is_calendar_date(year as int, month as int, day as int),
        r matches Some(w) ==> w < 7 && w == weekday_index(year as int, month as int, day as int),
{
    match chrono::NaiveDate::from_ymd_opt(year, month, day) {
        Some(date) => Some(chrono::Datelike::weekday(&date).num_days_from_monday()),
        None => None,
    }
}

pub proof fn lemma_weekdays_bound(year: int, month: int, from: int, to: int)
    ensures
        from <= to ==> weekdays_between(year, month, from, to) <= to - from,
        from > to ==> weekdays_between(year, month, from, to) == 0,
    decreases to - from,
{
    if from < to {
        lemma_weekdays_bound(year, month, from, to - 1);
    }
}

/// Counts the days from day `from` to the end of the given month that fall on Monday to
/// Friday; a day past the month's end, or day 0, counts none.
pub fn get_working_days(from: u32, year: i32, month: u32) -> (r: i64)
    ensures
        r == working_days_from(year as int, month as int, from as int),
{
    let mut day: u32 = from;
    let mut count: i64 = 0;
    loop
        invariant
            from <= day,
            day > 32 ==> day == from,
            from >= 1 ==> day <= last_day(year as int, month as int) + 1 || day == from,
            count == weekdays_between(year as int, month as int, from as int, day as int),
            count <= day - from,
            day > from ==> is_calendar_date(year as int, month as int, day - 1),
            day > from ==> is_calendar_date(year as int, month as int, from as int),
        ensures
            !is_calendar_date(year as int, month as int, day as int),
            day > from ==> is_calendar_date(year as int, month as int, day - 1),
            day > from ==> is_calendar_date(year as int, month as int, from as int),
            count == weekdays_between(year as int, month as int, from as int, day as int),
        decreases 32 - day,
    {
        match weekday_from_monday(year, month, day) {
            None => {
                break;
            },
            Some(w) => {
                if w < 5 {
                    count = count + 1;
                }
                day = day + 1;
            },
        }
    }
    proof {
        if day > from {
            assert(day == last_day(year as int, month as int) + 1);
        } else {
            lemma_weekdays_bound(
                year as int,
                month as int,
                from as int,
                last_day(year as int, month as int) + 1,
            );
        }
    }
    count
}

/// A month has no working days after its last day.
pub proof fn lemma_no_working_days_past_end(year: int, month: int, from: int)
    requires
        from > days_in_month(year, month),
    ensures
        working_days_from(year, month, from) == 0,
{
    lemma_weekdays_bound(year, month, from, last_day(year, month) + 1);
}

} // verus!
