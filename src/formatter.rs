use vstd::prelude::*;

use crate::commands::{balance_state, state_of, BalanceState};
use crate::text::{int_text, push_int};
use crate::time_utils::{abs_int, format_time, hhmm, push_hhmm, Time};

verus! {

/// What the balance query tells the user, and where the balance stands.
pub open spec fn balance_text(balance: int) -> Seq<char> {
    if balance == 0 {
        "You have worked exactly the amount you should!"@
    } else if balance < 0 {
        "You have worked "@ + hhmm(abs_int(balance)) + " more than you should"@
    } else {
        "You have worked "@ + format_time(balance) + " less than you should"@
    }
}

/// The message for a balance: even, worked beyond the expected time (shown without its
/// sign), or worked less.
pub fn balance_message(counter: Time) -> (r: (BalanceState, String))
    ensures
        r.0 == state_of(counter.minutes as int),
        r.1@ == balance_text(counter.minutes as int),
{
    let state = balance_state(counter);
    let mut s = String::new();
    if counter.minutes == 0 {
        s.append("You have worked exactly the amount you should!");
    } else if counter.minutes < 0 {
        s.append("You have worked ");
        push_hhmm(&mut s, (-(counter.minutes as i64)) as u64);
        s.append(" more than you should");
    } else {
        s.append("You have worked ");
        s.append(counter.to_string().as_str());
        s.append(" less than you should");
    }
    (state, s)
}

/// What the distribute command tells the user for a balance, the time per day and the days.
pub open spec fn distribute_text(balance: int, time: int, days: int) -> Seq<char> {
    if balance == 0 {
        "Nothing to distribute, your balance is 0"@
    } else {
        "You should work "@ + format_time(time) + " per day during "@ + int_text(days)
            + " days"@
    }
}

/// The message for the outcome of spreading a balance over days.
pub fn distribute_message(counter: Time, time: Time, days: i32) -> (r: (BalanceState, String))
    ensures
        r.0 == state_of(counter.minutes as int),
        r.1@ == distribute_text(counter.minutes as int, time.minutes as int, days as int),
{
    let state = balance_state(counter);
    let mut s = String::new();
    if counter.minutes == 0 {
        s.append("Nothing to distribute, your balance is 0");
    } else {
        s.append("You should work ");
        s.append(time.to_string().as_str());
        s.append(" per day during ");
        push_int(&mut s, days as i64);
        s.append(" days");
    }
    (state, s)
}

/// The message after an entry was added.
pub fn add_message(time_str: &str) -> (r: String)
    ensures
        r@ == "Added "@ + time_str@ + " as your daily worktime"@,
{
    let mut s = String::new();
    s.append("Added ");
    s.append(time_str);
    s.append(" as your daily worktime");
    s
}

/// The message for a count of working hours.
pub fn count_hours_message(hours: i64) -> (r: String)
    ensures
        r@ == "Working hours count: "@ + int_text(hours as int),
{
    let mut s = String::new();
    s.append("Working hours count: ");
    push_int(&mut s, hours);
    s
}

/// The summary line: the month's working days, those left, and the balance.
pub fn summary_message(working_days: i64, left: i64, counter: Time) -> (r: String)
    ensures
        r@ == int_text(working_days as int) + " WDays\t|\t"@ + int_text(left as int)
            + " left\t|\t"@ + format_time(counter.minutes as int) + " pending"@,
{
    let mut s = String::new();
    push_int(&mut s, working_days);
    s.append(" WDays\t|\t");
    push_int(&mut s, left);
    s.append(" left\t|\t");
    s.append(counter.to_string().as_str());
    s.append(" pending");
    s
}

} // verus!
