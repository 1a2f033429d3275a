use vstd::prelude::*;

use crate::error::CmhError;
use crate::ledger::{balance_ok, balance_read_as, balance_value, entry_line, Ledger};
use crate::text::chars_of;
use crate::time_utils::{
    abs_int, fits_i32, format_time, get_working_days, last_day, lemma_weekdays_bound,
    parsed_as, time_ok, time_value, working_days_from, Time,
};

verus! {

/// Where a balance stands: even, time still owed, or time worked beyond what was expected.
#[derive(Debug, Clone, Copy, PartialEq, Eq, Structural)]
pub enum BalanceState {
    Balanced,
    Deficit,
    Surplus,
}

/// A positive balance is time still owed; a negative one, time worked in excess.
pub open spec fn state_of(balance: int) -> BalanceState {
    if balance == 0 {
        BalanceState::Balanced
    } else if balance > 0 {
        BalanceState::Deficit
    } else {
        BalanceState::Surplus
    }
}

/// Where the balance stands.
pub fn balance_state(balance: Time) -> (r: BalanceState)
    ensures
        r == state_of(balance.minutes as int),
{
    if balance.minutes == 0 {
        BalanceState::Balanced
    } else if balance.minutes > 0 {
        BalanceState::Deficit
    } else {
        BalanceState::Surplus
    }
}

/// Division that rounds toward zero, as Rust's `/` on signed integers does.
pub open spec fn trunc_div(a: int, b: int) -> int {
    if (a < 0) == (b < 0) {
        (abs_int(a) / abs_int(b)) as int
    } else {
        -((abs_int(a) / abs_int(b)) as int)
    }
}

/// `a / b` rounded toward zero.
fn div_toward_zero(a: i64, b: i64) -> (r: i64)
    requires
        b != 0,
        a != i64::MIN,
        b != i64::MIN,
    ensures
        r == trunc_div(a as int, b as int),
{
    let ua: u64 = if a < 0 {
        (-a) as u64
    } else {
        a as u64
    };
    let ub: u64 = if b < 0 {
        (-b) as u64
    } else {
        b as u64
    };
    let q: u64 = ua / ub;
    assert(q <= ua) by (nonlinear_arith)
        requires
            ub >= 1,
            q == ua / ub,
    ;
    if (a < 0) == (b < 0) {
        q as i64
    } else {
        -(q as i64)
    }
}

/// Why an entry could not be added: the first of the ledger's balance, the entered time,
/// the expected daily time and the new balance that fails.
pub open spec fn add_failed_with(
    lines: Seq<Seq<char>>,
    time_str: Seq<char>,
    daily_hours: Seq<char>,
    err: CmhError,
) -> bool {
    if !balance_ok(lines) {
        balance_read_as(lines, Err(err))
    } else if !time_ok(time_str) {
        parsed_as(time_str, Err(err))
    } else if !time_ok(daily_hours) {
        parsed_as(daily_hours, Err(err))
    } else {
        err is Overflow
    }
}

/// The balance after a day of `entered` minutes against `expected`: what was owed before,
/// plus what the day fell short.
pub open spec fn balance_after(balance: int, expected: int, entered: int) -> int {
    balance + (expected - entered)
}

/// Records a day's worked time: the new balance is the ledger's balance plus the expected
/// daily time less the time entered; the entry, then the new balance, are appended.
pub fn handle_add_command(
    ledger: &mut Ledger,
    time_str: &str,
    daily_hours: &str,
    date_stamp: &str,
) -> (r: Result<Time, CmhError>)
    ensures
        r is Ok <==> {
            &&& balance_ok(old(ledger)@)
            &&& time_ok(time_str@)
            &&& time_ok(daily_hours@)
            &&& fits_i32(time_value(daily_hours@) - time_value(time_str@))
            &&& fits_i32(
                balance_after(
                    balance_value(old(ledger)@),
                    time_value(daily_hours@),
                    time_value(time_str@),
                ),
            )
        },
        r matches Ok(t) ==> {
            &&& t.minutes == balance_after(
                balance_value(old(ledger)@),
                time_value(daily_hours@),
                time_value(time_str@),
            )
            &&& final(ledger)@ == old(ledger)@.push(entry_line(date_stamp@, time_str@)).push(
                format_time(t.minutes as int),
            )
        },
        r matches Err(e) ==> final(ledger)@ == old(ledger)@ && add_failed_with(
            old(ledger)@,
            time_str@,
            daily_hours@,
            e,
        ),
{
    let counter = match ledger.read_last_balance() {
        Ok(c) => c,
        Err(e) => return Err(e),
    };
    let time = match Time::from_str(time_str) {
        Ok(t) => t,
        Err(e) => return Err(e),
    };
    let expected = match Time::from_str(daily_hours) {
        Ok(t) => t,
        Err(e) => return Err(e),
    };
    let delta = match expected.checked_sub(time) {
        Some(d) => d,
        None => return Err(CmhError::Overflow),
    };
    let new_time = match counter.checked_add(delta) {
        Some(t) => t,
        None => return Err(CmhError::Overflow),
    };
    ledger.append_entry(date_stamp, time_str);
    ledger.append_balance(new_time);
    Ok(new_time)
}

/// The current balance of the ledger.
pub fn handle_balance_command(ledger: &Ledger) -> (r: Result<Time, CmhError>)
    ensures
        balance_read_as(ledger@, r),
{
    ledger.read_last_balance()
}

/// `r` is the outcome of spreading the balance of a ledger with these lines over `days`
/// days against an expected daily time `daily_hours`: the balance, the time to work on
/// each day and the number of days; with a zero balance, a zero time over zero days.
pub open spec fn distributed_as(
    days: int,
    lines: Seq<Seq<char>>,
    daily_hours: Seq<char>,
    r: Result<(Time, Time, i32), CmhError>,
) -> bool {
    let c = balance_value(lines);
    let per_day = trunc_div(c, days);
    let d = time_value(daily_hours);
    if days == 0 {
        r matches Err(CmhError::DivideByZero)
    } else if !balance_ok(lines) {
        r matches Err(e) && balance_read_as(lines, Err(e))
    } else if c == 0 {
        r matches Ok((b, t, n)) && b.minutes == 0 && t.minutes == 0 && n == 0
    } else if !fits_i32(per_day) {
        r matches Err(CmhError::Overflow)
    } else if !time_ok(daily_hours) {
        r matches Err(e) && parsed_as(daily_hours, Err(e))
    } else if !fits_i32(d + per_day) {
        r matches Err(CmhError::Overflow)
    } else {
        r matches Ok((b, t, n)) && b.minutes == c && t.minutes == d + per_day && n == days
    }
}

/// Spreads the ledger's balance over `number_of_days` days: each day's time is the
/// expected daily time plus the balance divided by the days, rounded toward zero.
pub fn handle_distribute_command(
    number_of_days: i32,
    ledger: &Ledger,
    daily_hours: &str,
) -> (r: Result<(Time, Time, i32), CmhError>)
    ensures
        distributed_as(number_of_days as int, ledger@, daily_hours@, r),
{
    if number_of_days == 0 {
        return Err(CmhError::DivideByZero);
    }
    let counter = match ledger.read_last_balance() {
        Ok(c) => c,
        Err(e) => return Err(e),
    };
    if counter.minutes == 0 {
        return Ok((counter, Time { minutes: 0 }, 0));
    }
    let q: i64 = div_toward_zero(counter.minutes as i64, number_of_days as i64);
    if q < i32::MIN as i64 || q > i32::MAX as i64 {
        return Err(CmhError::Overflow);
    }
    let time_per_day = Time { minutes: q as i32 };
    let journey = match Time::from_str(daily_hours) {
        Ok(t) => t,
        Err(e) => return Err(e),
    };
    match journey.checked_add(time_per_day) {
        Some(total) => Ok((counter, total, number_of_days)),
        None => Err(CmhError::Overflow),
    }
}

/// With a zero balance, distributing over any nonzero number of days gives a zero time
/// over zero days.
pub proof fn lemma_distribute_zero_balance(
    days: int,
    lines: Seq<Seq<char>>,
    daily_hours: Seq<char>,
    r: Result<(Time, Time, i32), CmhError>,
)
    requires
        days != 0,
        balance_ok(lines),
        balance_value(lines) == 0,
        distributed_as(days, lines, daily_hours, r),
    ensures
        r matches Ok((b, t, n)) && t.minutes == 0 && n == 0,
{
}

/// Distributing over zero days fails with a division by zero, whatever the balance.
pub proof fn lemma_distribute_zero_days(
    lines: Seq<Seq<char>>,
    daily_hours: Seq<char>,
    r: Result<(Time, Time, i32), CmhError>,
)
    requires
        distributed_as(0, lines, daily_hours, r),
    ensures
        r matches Err(CmhError::DivideByZero),
{
}

/// Working hours in a month of `days` working days with `daily_minutes` a day, in whole
/// hours rounded toward zero.
pub open spec fn hours_for(days: int, daily_minutes: int) -> int {
    trunc_div(days * daily_minutes, 60)
}

/// The mode that counts the whole month's hours.
pub open spec fn is_total_mode(mode: Seq<char>) -> bool {
    mode == seq!['t']
}

/// The mode that counts the hours from today to the end of the month.
pub open spec fn is_pending_mode(mode: Seq<char>) -> bool {
    mode == seq!['p']
}

fn count_hours(days: i64, daily: Time) -> (r: i64)
    requires
        0 <= days <= 31,
    ensures
        r == hours_for(days as int, daily.minutes as int),
{
    let d: i64 = daily.minutes as i64;
    assert(-31 * 2147483648 <= days * d <= 31 * 2147483647) by (nonlinear_arith)
        requires
            0 <= days <= 31,
            -2147483648 <= d <= 2147483647,
    ;
    let total: i64 = days * d;
    div_toward_zero(total, 60)
}

/// Working hours of the month of `year` and `month` at `daily_hours` a day: over all its
/// working days for mode `t`, over those from day `today` on for mode `p`.
pub fn handle_count_hours(
    mode: &str,
    daily_hours: &str,
    year: i32,
    month: u32,
    today: u32,
) -> (r: Result<i64, CmhError>)
    ensures
        r is Ok <==> time_ok(daily_hours@) && (is_total_mode(mode@) || is_pending_mode(mode@)),
        r matches Ok(h) ==> is_total_mode(mode@) ==> h == hours_for(
            working_days_from(year as int, month as int, 1) as int,
            time_value(daily_hours@),
        ),
        r matches Ok(h) ==> is_pending_mode(mode@) ==> h == hours_for(
            working_days_from(year as int, month as int, today as int) as int,
            time_value(daily_hours@),
        ),
        r matches Err(e) ==> if !time_ok(daily_hours@) {
            parsed_as(daily_hours@, Err(e))
        } else {
            e matches CmhError::InvalidMode(m) && m@ == mode@
        },
{
    let working_days = get_working_days(1, year, month);
    let remaining = get_working_days(today, year, month);
    proof {
        lemma_weekdays_bound(year as int, month as int, 1, last_day(year as int, month as int) + 1);
        lemma_weekdays_bound(
            year as int,
            month as int,
            today as int,
            last_day(year as int, month as int) + 1,
        );
    }
    let working_minutes = match Time::from_str(daily_hours) {
        Ok(t) => t,
        Err(e) => return Err(e),
    };
    let m = chars_of(mode);
    if m.len() == 1 && m[0] == 't' {
        assert(m@ =~= seq!['t']);
        Ok(count_hours(working_days, working_minutes))
    } else if m.len() == 1 && m[0] == 'p' {
        assert(m@ =~= seq!['p']);
        Ok(count_hours(remaining, working_minutes))
    } else {
        Err(CmhError::InvalidMode(mode.to_string()))
    }
}

/// The month's working days, those left from day `today` on, and the ledger's balance.
pub fn handle_summarize_command(ledger: &Ledger, year: i32, month: u32, today: u32) -> (r: Result<
    (i64, i64, Time),
    CmhError,
>)
    ensures
        r matches Ok((total, left, _)) ==> total == working_days_from(year as int, month as int, 1)
            && left == working_days_from(year as int, month as int, today as int),
        r matches Ok((_, _, b)) ==> balance_read_as(ledger@, Ok(b)),
        r matches Err(e) ==> balance_read_as(ledger@, Err(e)),
{
    let working_days = get_working_days(1, year, month);
    let left = get_working_days(today, year, month);
    match ledger.read_last_balance() {
        Ok(counter) => Ok((working_days, left, counter)),
        Err(e) => Err(e),
    }
}

} // verus!
