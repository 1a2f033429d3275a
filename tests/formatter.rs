use cmh::commands::{balance_state, BalanceState};
use cmh::formatter::{
    add_message, balance_message, count_hours_message, distribute_message, summary_message,
};
use cmh::Time;

#[test]
fn balance_states() {
    assert_eq!(balance_state(Time { minutes: 0 }), BalanceState::Balanced);
    assert_eq!(balance_state(Time { minutes: 1 }), BalanceState::Deficit);
    assert_eq!(balance_state(Time { minutes: -1 }), BalanceState::Surplus);
}

#[test]
fn balance_messages() {
    assert_eq!(
        balance_message(Time { minutes: 0 }),
        (BalanceState::Balanced, "You have worked exactly the amount you should!".to_string())
    );
    assert_eq!(
        balance_message(Time { minutes: -135 }),
        (BalanceState::Surplus, "You have worked 02:15 more than you should".to_string())
    );
    assert_eq!(
        balance_message(Time { minutes: 9000 }),
        (BalanceState::Deficit, "You have worked 150:00 less than you should".to_string())
    );
    assert_eq!(
        balance_message(Time { minutes: i32::MIN }).1,
        "You have worked 35791394:08 more than you should"
    );
}

#[test]
fn distribute_messages() {
    assert_eq!(
        distribute_message(Time { minutes: 0 }, Time { minutes: 0 }, 0),
        (BalanceState::Balanced, "Nothing to distribute, your balance is 0".to_string())
    );
    assert_eq!(
        distribute_message(Time { minutes: 120 }, Time { minutes: 504 }, 5),
        (BalanceState::Deficit, "You should work 08:24 per day during 5 days".to_string())
    );
    assert_eq!(
        distribute_message(Time { minutes: -60 }, Time { minutes: 472 }, -7).1,
        "You should work 07:52 per day during -7 days"
    );
}

#[test]
fn other_messages() {
    assert_eq!(add_message("06:00"), "Added 06:00 as your daily worktime");
    assert_eq!(count_hours_message(168), "Working hours count: 168");
    assert_eq!(count_hours_message(-93), "Working hours count: -93");
    assert_eq!(count_hours_message(i64::MIN), "Working hours count: -9223372036854775808");
    assert_eq!(
        summary_message(21, 11, Time { minutes: -90 }),
        "21 WDays\t|\t11 left\t|\t-01:30 pending"
    );
}
