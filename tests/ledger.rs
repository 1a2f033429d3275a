use cmh::ledger::Ledger;
use cmh::{CmhError, Time};

fn ledger_of(lines: &[&str]) -> Ledger {
    Ledger::from_lines(lines.iter().map(|l| l.to_string()).collect())
}

#[test]
fn initial_ledger_holds_zero() {
    let ledger = Ledger::initial();
    assert_eq!(ledger.lines(), &vec!["00:00".to_string()]);
    assert_eq!(ledger.read_last_balance(), Ok(Time { minutes: 0 }));
}

#[test]
fn balance_is_the_last_non_empty_line() {
    let ledger = ledger_of(&["00:00", "2024:03:01\t06:00", "02:00"]);
    assert_eq!(ledger.read_last_balance(), Ok(Time { minutes: 120 }));
    let ledger = ledger_of(&["00:00", "-01:30", ""]);
    assert_eq!(ledger.read_last_balance(), Ok(Time { minutes: -90 }));
}

#[test]
fn empty_ledger_fails() {
    assert_eq!(ledger_of(&[]).read_last_balance(), Err(CmhError::EmptyLedger));
    assert_eq!(ledger_of(&["", ""]).read_last_balance(), Err(CmhError::EmptyLedger));
}

#[test]
fn malformed_last_line_fails() {
    let ledger = ledger_of(&["00:00", "2024:03:01\t06:00"]);
    assert_eq!(
        ledger.read_last_balance(),
        Err(CmhError::InvalidFormat("2024:03:01\t06:00".to_string()))
    );
}

#[test]
fn appends_entry_then_balance() {
    let mut ledger = Ledger::initial();
    ledger.append_entry("2024:03:01", "06:00");
    ledger.append_balance(Time { minutes: 120 });
    assert_eq!(ledger.len(), 3);
    assert_eq!(ledger.to_text(), "00:00\n2024:03:01\t06:00\n02:00\n");
}

#[test]
fn undo_removes_two_lines() {
    let mut ledger = ledger_of(&["00:00", "2024:03:01\t06:00", "02:00"]);
    assert!(ledger.undo_last_entry());
    assert_eq!(ledger.to_text(), "00:00\n");
    assert!(!ledger.undo_last_entry());
    assert_eq!(ledger.to_text(), "00:00\n");
    let mut empty = ledger_of(&[]);
    assert!(!empty.undo_last_entry());
    assert_eq!(empty.to_text(), "");
}
