use cmh::commands::{
    handle_add_command, handle_balance_command, handle_count_hours, handle_distribute_command,
    handle_summarize_command,
};
use cmh::ledger::Ledger;
use cmh::{CmhError, Time};

fn ledger_of(lines: &[&str]) -> Ledger {
    Ledger::from_lines(lines.iter().map(|l| l.to_string()).collect())
}

#[test]
fn add_to_fresh_ledger() {
    let mut ledger = Ledger::initial();
    let r = handle_add_command(&mut ledger, "06:00", "08:00", "2024:03:01");
    assert_eq!(r, Ok(Time { minutes: 120 }));
    assert_eq!(ledger.len(), 3);
    assert_eq!(ledger.lines()[1], "2024:03:01\t06:00");
    assert_eq!(ledger.lines()[2], "02:00");
    assert_eq!(handle_balance_command(&ledger), Ok(Time { minutes: 120 }));
}

#[test]
fn add_surplus_clears_deficit() {
    let mut ledger = ledger_of(&["00:00", "2024:03:01\t06:00", "02:00"]);
    let r = handle_add_command(&mut ledger, "10:00", "08:00", "2024:03:02");
    assert_eq!(r, Ok(Time { minutes: 0 }));
    assert_eq!(ledger.lines()[4], "00:00");
}

#[test]
fn add_going_into_surplus() {
    let mut ledger = Ledger::initial();
    let r = handle_add_command(&mut ledger, "9:15", "08:00", "2024:03:01");
    assert_eq!(r, Ok(Time { minutes: -75 }));
    assert_eq!(ledger.lines()[2], "-01:15");
}

#[test]
fn two_adds_then_undo() {
    let mut ledger = Ledger::initial();
    handle_add_command(&mut ledger, "06:00", "08:00", "2024:03:01").unwrap();
    let after_first = handle_balance_command(&ledger).unwrap();
    let lines_after_first = ledger.len();
    handle_add_command(&mut ledger, "07:00", "08:00", "2024:03:02").unwrap();
    assert_eq!(handle_balance_command(&ledger), Ok(Time { minutes: 180 }));
    assert!(ledger.undo_last_entry());
    assert_eq!(ledger.len(), lines_after_first);
    assert_eq!(handle_balance_command(&ledger), Ok(after_first));
    assert_eq!(after_first, Time { minutes: 120 });
}

#[test]
fn add_errors_leave_ledger_unchanged() {
    let mut ledger = Ledger::initial();
    assert_eq!(
        handle_add_command(&mut ledger, "6h", "08:00", "2024:03:01"),
        Err(CmhError::InvalidFormat("6h".to_string()))
    );
    assert_eq!(
        handle_add_command(&mut ledger, "06:00", "8", "2024:03:01"),
        Err(CmhError::InvalidFormat("8".to_string()))
    );
    let mut empty = ledger_of(&[]);
    assert_eq!(handle_add_command(&mut empty, "06:00", "08:00", "x"), Err(CmhError::EmptyLedger));
    assert_eq!(empty.len(), 0);
    let mut big = ledger_of(&["35791394:07"]);
    assert_eq!(handle_add_command(&mut big, "00:00", "00:01", "x"), Err(CmhError::Overflow));
    assert_eq!(
        handle_add_command(&mut ledger, "-35791394:08", "00:01", "x"),
        Err(CmhError::Overflow)
    );
    assert_eq!(ledger.to_text(), "00:00\n");
}

#[test]
fn distribute_deficit() {
    let ledger = ledger_of(&["10:00"]);
    let r = handle_distribute_command(5, &ledger, "08:00");
    assert_eq!(r, Ok((Time { minutes: 600 }, Time { minutes: 600 }, 5)));
    assert_eq!(r.unwrap().1.to_string(), "10:00");
    let ledger = ledger_of(&["02:00"]);
    let r = handle_distribute_command(5, &ledger, "08:00");
    assert_eq!(r, Ok((Time { minutes: 120 }, Time { minutes: 504 }, 5)));
    assert_eq!(r.unwrap().1.to_string(), "08:24");
}

#[test]
fn distribute_surplus_rounds_toward_zero() {
    let ledger = ledger_of(&["-01:00"]);
    let r = handle_distribute_command(7, &ledger, "08:00");
    assert_eq!(r, Ok((Time { minutes: -60 }, Time { minutes: 472 }, 7)));
}

#[test]
fn distribute_zero_balance() {
    let ledger = ledger_of(&["00:00"]);
    for days in [1, 5, -3, i32::MAX] {
        let r = handle_distribute_command(days, &ledger, "08:00");
        assert_eq!(r, Ok((Time { minutes: 0 }, Time { minutes: 0 }, 0)));
    }
}

#[test]
fn distribute_over_zero_days() {
    for balance in ["10:00", "-10:00", "00:00"] {
        let ledger = ledger_of(&[balance]);
        assert_eq!(handle_distribute_command(0, &ledger, "08:00"), Err(CmhError::DivideByZero));
    }
    assert_eq!(handle_distribute_command(0, &ledger_of(&[]), "08:00"), Err(CmhError::DivideByZero));
}

#[test]
fn distribute_errors() {
    assert_eq!(handle_distribute_command(5, &ledger_of(&[]), "08:00"), Err(CmhError::EmptyLedger));
    assert_eq!(
        handle_distribute_command(5, &ledger_of(&["10:00"]), "8:0"),
        Err(CmhError::InvalidFormat("8:0".to_string()))
    );
    assert_eq!(
        handle_distribute_command(-1, &ledger_of(&["-35791394:08"]), "08:00"),
        Err(CmhError::Overflow)
    );
    assert_eq!(
        handle_distribute_command(1, &ledger_of(&["35791394:07"]), "00:01"),
        Err(CmhError::Overflow)
    );
}

#[test]
fn count_total_and_pending_hours() {
    assert_eq!(handle_count_hours("t", "08:00", 2024, 3, 15), Ok(168));
    assert_eq!(handle_count_hours("p", "08:30", 2024, 3, 15), Ok(93));
    assert_eq!(handle_count_hours("p", "-08:30", 2024, 3, 15), Ok(-93));
    assert_eq!(handle_count_hours("p", "08:00", 2024, 3, 30), Ok(0));
}

#[test]
fn count_hours_errors() {
    assert_eq!(
        handle_count_hours("x", "08:00", 2024, 3, 15),
        Err(CmhError::InvalidMode("x".to_string()))
    );
    assert_eq!(
        handle_count_hours("tt", "08:00", 2024, 3, 15),
        Err(CmhError::InvalidMode("tt".to_string()))
    );
    assert_eq!(
        handle_count_hours("t", "eight", 2024, 3, 15),
        Err(CmhError::InvalidFormat("eight".to_string()))
    );
}

#[test]
fn summarize_month() {
    let ledger = ledger_of(&["00:00", "2024:03:01\t06:00", "02:00"]);
    let (total, left, balance) = handle_summarize_command(&ledger, 2024, 3, 15).unwrap();
    assert_eq!((total, left), (21, 11));
    assert_eq!(balance.to_string(), "02:00");
    assert_eq!(handle_summarize_command(&ledger_of(&[]), 2024, 3, 15), Err(CmhError::EmptyLedger));
}
