use dairy_core::guard::Guard;
use dairy_core::schedule::calculate_initial_next_order_date;

const NOW: u64 = 1_700_000_000_000_000_000;

#[test]
fn test_calculate_initial_next_order_date() {
    // Test with empty delivery days
    let start_date = NOW;
    assert_eq!(
        calculate_initial_next_order_date(start_date, &[], NOW),
        start_date,
        "With empty delivery days should return start date"
    );

    // Test with future start date
    let future_date = NOW + 172_800_000_000_000; // 2 days in future
    assert_eq!(
        calculate_initial_next_order_date(future_date, &["Mon".to_string()], NOW),
        future_date,
        "With future start date should return that date"
    );

    // Test with past start date
    let past_date = NOW - 86_400_000_000_000; // 1 day in past
    let result = calculate_initial_next_order_date(past_date, &["Mon".to_string()], NOW);
    assert!(
        result > NOW,
        "With past start date should return a future date"
    );
}

/// The one-day advance lands exactly one day past the clock.
#[test]
fn advance_is_one_day() {
    let past = NOW - 5;
    let r = calculate_initial_next_order_date(past, &["Tue".to_string()], NOW);
    assert_eq!(r, NOW + 86_400_000_000_000);
    // A start date equal to the clock is not "in the future".
    let r = calculate_initial_next_order_date(NOW, &["Tue".to_string()], NOW);
    assert_eq!(r, NOW + 86_400_000_000_000);
}

/// The allow-list admits listed callers, turns away strangers and the
/// anonymous caller, and forgets removed entries.
#[test]
fn guard_list() {
    let mut guard = Guard::new();
    assert!(!guard.is_dev_check(&"alice".to_string()));
    guard.add_to_list("alice".to_string());
    guard.add_to_list("alice".to_string());
    guard.add_to_list("bob".to_string());
    assert!(guard.is_dev_check(&"alice".to_string()));
    assert!(guard.is_dev(&"bob".to_string()).is_ok());
    assert!(guard.is_dev(&"mallory".to_string()).is_err());
    // The anonymous caller is never privileged, listed or not.
    assert!(guard.is_dev(&"".to_string()).is_err());

    let msg = guard.delete_from_list("alice".to_string());
    assert_eq!(msg, "removed");
    assert!(!guard.is_dev_check(&"alice".to_string()));
    assert!(guard.is_dev_check(&"bob".to_string()));
    let msg = guard.delete_from_list("alice".to_string());
    assert_ne!(msg, "removed");
}
