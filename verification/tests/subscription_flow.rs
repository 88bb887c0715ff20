use dairy_core::errors::SubscriptionError;
use dairy_core::models::UserProfile;
use dairy_core::store::Store;
use dairy_core::subscription_ops::{CreateSubscriptionPayload, SubscriptionUpdatePayload};
use dairy_core::subscriptions_models::{SubscriptionItemInput, SubscriptionStatus};

fn profile(phone: &str) -> UserProfile {
    UserProfile {
        phone_number: phone.to_string(),
        name: "Asha".to_string(),
        address: "12 Dairy Lane".to_string(),
        order_ids: Vec::new(),
        has_active_subscription: false,
        active_subscription_id: None,
    }
}

fn payload(start_date: u64) -> CreateSubscriptionPayload {
    CreateSubscriptionPayload {
        items: vec![SubscriptionItemInput { product_id: 0, quantity: 1 }],
        delivery_days: vec!["Mon".to_string()],
        delivery_time_slot: "morning".to_string(),
        delivery_address: "12 Dairy Lane".to_string(),
        start_date,
    }
}

const NOW: u64 = 1_700_000_000_000_000_000;
const DAY: u64 = 86_400_000_000_000;

fn store_with_profile() -> Store {
    let mut store = Store::new();
    store.create_profile(profile("555-0100")).unwrap();
    store
        .add_product_admin("Milk".to_string(), "d".to_string(), 7000, "litre".to_string())
        .unwrap();
    store
}

/// Scenario: a subscription created with a past start date comes out active
/// with a next order date in the future; a second one for the same phone is
/// refused.
#[test]
fn create_subscription_past_start() {
    let mut store = store_with_profile();
    let sub = store
        .create_subscription("555-0100".to_string(), payload(NOW - DAY), NOW)
        .unwrap();
    assert_eq!(sub.status, SubscriptionStatus::Active);
    assert!(sub.next_order_date > NOW);
    assert_eq!(sub.id, 0);
    let again = store.create_subscription("555-0100".to_string(), payload(NOW - DAY), NOW);
    assert!(matches!(again, Err(SubscriptionError::AlreadyExists)));
    let fetched = store
        .get_subscription_details(0, "555-0100".to_string())
        .unwrap();
    assert_eq!(fetched.status, SubscriptionStatus::Active);
    let prof = store.get_profile_by_phone("555-0100".to_string()).unwrap();
    assert!(prof.has_active_subscription);
    assert_eq!(prof.active_subscription_id, Some(0));
}

/// Scenario: the sweep, run with the clock past the subscription's next
/// order date, creates exactly one order for the user and pushes the
/// schedule strictly later.
#[test]
fn sweep_creates_one_order() {
    let mut store = store_with_profile();
    let sub = store
        .create_subscription("555-0100".to_string(), payload(NOW - DAY), NOW)
        .unwrap();
    let later = sub.next_order_date + 1;
    assert_eq!(store.get_all_orders().unwrap().len(), 0);
    let summary = store.generate_recurring_orders(later);
    assert_eq!(summary.processed, 1);
    assert_eq!(summary.succeeded, 1);
    assert_eq!(summary.failed, 0);
    let orders = store.get_all_orders().unwrap();
    assert_eq!(orders.len(), 1);
    assert_eq!(orders[0].user_phone_number, "555-0100");
    assert_eq!(orders[0].total_amount, 7000);
    let advanced = store
        .get_subscription_details(sub.id, "555-0100".to_string())
        .unwrap();
    assert!(advanced.next_order_date > sub.next_order_date);
    // A second sweep before the new date does nothing.
    let summary2 = store.generate_recurring_orders(later);
    assert_eq!(summary2.processed, 0);
    assert_eq!(store.get_all_orders().unwrap().len(), 1);
}

/// A sweep skips a subscription whose product has vanished from resolution
/// range, records the failure, and retries it once the product is back.
#[test]
fn sweep_records_failures_independently() {
    let mut store = store_with_profile();
    let sub = store
        .create_subscription(
            "555-0100".to_string(),
            CreateSubscriptionPayload {
                items: vec![SubscriptionItemInput { product_id: 0, quantity: 2 }],
                delivery_days: vec!["Fri".to_string()],
                delivery_time_slot: "evening".to_string(),
                delivery_address: "12 Dairy Lane".to_string(),
                start_date: NOW - DAY,
            },
            NOW,
        )
        .unwrap();
    // Deleting the owner's profile makes the subscription unservable.
    store.delete_profile_admin("555-0100".to_string()).unwrap();
    let later = sub.next_order_date + 1;
    let summary = store.generate_recurring_orders(later);
    assert_eq!(summary.processed, 1);
    assert_eq!(summary.succeeded, 0);
    assert_eq!(summary.failed, 1);
    assert_eq!(store.get_all_orders().unwrap().len(), 0);
    // The schedule was not advanced, so the next sweep retries it.
    let unchanged = store
        .get_subscription_details(sub.id, "555-0100".to_string())
        .unwrap();
    assert_eq!(unchanged.next_order_date, sub.next_order_date);
}

/// Pause, resume and cancel walk the permitted transitions; a cancelled
/// record can never change status again through the owner's path.
#[test]
fn pause_resume_cancel() {
    let mut store = store_with_profile();
    store
        .create_subscription("555-0100".to_string(), payload(NOW - DAY), NOW)
        .unwrap();
    let paused = store
        .pause_subscription(0, "555-0100".to_string(), NOW + 1)
        .unwrap();
    assert_eq!(paused.status, SubscriptionStatus::Paused);
    let prof = store.get_profile_by_phone("555-0100".to_string()).unwrap();
    assert!(!prof.has_active_subscription);
    assert_eq!(prof.active_subscription_id, None);

    let resumed = store
        .resume_subscription(0, "555-0100".to_string(), NOW + 2)
        .unwrap();
    assert_eq!(resumed.status, SubscriptionStatus::Active);
    let prof = store.get_profile_by_phone("555-0100".to_string()).unwrap();
    assert!(prof.has_active_subscription);

    let cancelled = store
        .cancel_subscription(0, "555-0100".to_string(), NOW + 3)
        .unwrap();
    assert_eq!(cancelled.status, SubscriptionStatus::Cancelled);
    let prof = store.get_profile_by_phone("555-0100".to_string()).unwrap();
    assert!(!prof.has_active_subscription);

    let r = store.resume_subscription(0, "555-0100".to_string(), NOW + 4);
    assert!(matches!(r, Err(SubscriptionError::UpdateFailed(_))));
    let r = store.pause_subscription(0, "555-0100".to_string(), NOW + 4);
    assert!(matches!(r, Err(SubscriptionError::UpdateFailed(_))));
    // The record stays queryable after cancellation.
    let record = store
        .get_subscription_details(0, "555-0100".to_string())
        .unwrap();
    assert_eq!(record.status, SubscriptionStatus::Cancelled);
}

/// A paused subscription cannot be resumed while another one is active:
/// no phone number ever owns two active subscriptions.
#[test]
fn resume_refused_while_another_is_active() {
    let mut store = store_with_profile();
    store
        .create_subscription("555-0100".to_string(), payload(NOW - DAY), NOW)
        .unwrap();
    store
        .pause_subscription(0, "555-0100".to_string(), NOW + 1)
        .unwrap();
    let second = store
        .create_subscription("555-0100".to_string(), payload(NOW - DAY), NOW + 2)
        .unwrap();
    assert_eq!(second.id, 1);
    let r = store.resume_subscription(0, "555-0100".to_string(), NOW + 3);
    assert!(matches!(r, Err(SubscriptionError::AlreadyExists)));
}

/// Each subscription-creation error comes on the input that provokes it.
#[test]
fn create_subscription_errors() {
    let mut store = store_with_profile();
    let mut p = payload(NOW - DAY);
    p.delivery_days = Vec::new();
    let r = store.create_subscription("555-0100".to_string(), p, NOW);
    assert!(matches!(r, Err(SubscriptionError::InvalidInput(_))));

    let r = store.create_subscription("555-0100".to_string(), payload(0), NOW);
    assert!(matches!(r, Err(SubscriptionError::InvalidInput(_))));

    let r = store.create_subscription("555-0999".to_string(), payload(NOW), NOW);
    assert!(matches!(r, Err(SubscriptionError::UserProfileNotFound)));

    let mut p = payload(NOW - DAY);
    p.items = vec![SubscriptionItemInput { product_id: 9, quantity: 1 }];
    let r = store.create_subscription("555-0100".to_string(), p, NOW);
    assert!(matches!(r, Err(SubscriptionError::ProductNotFound(9))));

    let mut p = payload(NOW - DAY);
    p.items = vec![SubscriptionItemInput { product_id: 0, quantity: 0 }];
    let r = store.create_subscription("555-0100".to_string(), p, NOW);
    assert!(matches!(r, Err(SubscriptionError::InvalidInput(_))));

    assert_eq!(store.get_all_subscriptions().len(), 0);
}

/// Subscription details are served only to the owner; unknown ids are
/// reported as such.
#[test]
fn subscription_access_control() {
    let mut store = store_with_profile();
    store
        .create_subscription("555-0100".to_string(), payload(NOW - DAY), NOW)
        .unwrap();
    let r = store.get_subscription_details(0, "555-0200".to_string());
    assert!(matches!(r, Err(SubscriptionError::AccessDenied)));
    let r = store.get_subscription_details(9, "555-0100".to_string());
    assert!(matches!(r, Err(SubscriptionError::SubscriptionNotFound)));
    let r = store.pause_subscription(0, "555-0200".to_string(), NOW);
    assert!(matches!(r, Err(SubscriptionError::AccessDenied)));
    let mine = store.get_my_subscriptions("555-0100".to_string()).unwrap();
    assert_eq!(mine.len(), 1);
    let theirs = store.get_my_subscriptions("555-0200".to_string()).unwrap();
    assert_eq!(theirs.len(), 0);
}

/// A patch replaces exactly the supplied fields, re-pricing items at the
/// current catalog price; an empty patch is a no-op, and a cancelled record
/// only yields to a privileged caller.
#[test]
fn update_details_patch() {
    let mut store = store_with_profile();
    store
        .add_product_admin("Paneer".to_string(), "d".to_string(), 30000, "kg".to_string())
        .unwrap();
    let sub = store
        .create_subscription("555-0100".to_string(), payload(NOW - DAY), NOW)
        .unwrap();

    let patch = SubscriptionUpdatePayload {
        items: Some(vec![SubscriptionItemInput { product_id: 1, quantity: 2 }]),
        delivery_days: None,
        delivery_time_slot: None,
        delivery_address: Some("7 New Street".to_string()),
    };
    let updated = store
        .update_subscription_details(sub.id, "555-0100".to_string(), patch, NOW + 5, false)
        .unwrap();
    assert_eq!(updated.delivery_address, "7 New Street");
    assert_eq!(updated.delivery_time_slot, "morning");
    assert_eq!(updated.items.len(), 1);
    assert_eq!(updated.items[0].product_id, 1);
    assert_eq!(updated.items[0].price_per_unit_at_subscription, 30000);
    assert_eq!(updated.updated_at, NOW + 5);

    let empty = SubscriptionUpdatePayload {
        items: None,
        delivery_days: None,
        delivery_time_slot: None,
        delivery_address: None,
    };
    let unchanged = store
        .update_subscription_details(sub.id, "555-0100".to_string(), empty, NOW + 9, false)
        .unwrap();
    assert_eq!(unchanged.updated_at, NOW + 5);

    let bad = SubscriptionUpdatePayload {
        items: None,
        delivery_days: Some(Vec::new()),
        delivery_time_slot: None,
        delivery_address: None,
    };
    let r = store.update_subscription_details(sub.id, "555-0100".to_string(), bad, NOW, false);
    assert!(matches!(r, Err(SubscriptionError::InvalidInput(_))));

    store
        .cancel_subscription(sub.id, "555-0100".to_string(), NOW + 10)
        .unwrap();
    let patch2 = SubscriptionUpdatePayload {
        items: None,
        delivery_days: None,
        delivery_time_slot: None,
        delivery_address: Some("8 Other Street".to_string()),
    };
    let r = store.update_subscription_details(
        sub.id,
        "555-0100".to_string(),
        SubscriptionUpdatePayload {
            items: None,
            delivery_days: None,
            delivery_time_slot: None,
            delivery_address: Some("8 Other Street".to_string()),
        },
        NOW + 11,
        false,
    );
    assert!(matches!(r, Err(SubscriptionError::UpdateFailed(_))));
    let privileged = store
        .update_subscription_details(sub.id, "ops".to_string(), patch2, NOW + 12, true)
        .unwrap();
    assert_eq!(privileged.delivery_address, "8 Other Street");
}

/// The administrative override keeps the one-active-per-phone rule: waking a
/// second subscription of the same owner is refused.
#[test]
fn admin_subscription_status() {
    let mut store = store_with_profile();
    store
        .create_subscription("555-0100".to_string(), payload(NOW - DAY), NOW)
        .unwrap();
    store
        .pause_subscription(0, "555-0100".to_string(), NOW + 1)
        .unwrap();
    store
        .create_subscription("555-0100".to_string(), payload(NOW - DAY), NOW + 2)
        .unwrap();
    // Subscription 1 is active; waking 0 again would make two.
    let r = store.update_subscription_status_admin(0, SubscriptionStatus::Active, NOW + 3);
    assert!(matches!(r, Err(SubscriptionError::AlreadyExists)));
    // Pausing the active one through the override updates the profile.
    let s = store
        .update_subscription_status_admin(1, SubscriptionStatus::Paused, NOW + 4)
        .unwrap();
    assert_eq!(s.status, SubscriptionStatus::Paused);
    let prof = store.get_profile_by_phone("555-0100".to_string()).unwrap();
    assert!(!prof.has_active_subscription);
    // Now subscription 0 may come back.
    let s = store
        .update_subscription_status_admin(0, SubscriptionStatus::Active, NOW + 5)
        .unwrap();
    assert_eq!(s.status, SubscriptionStatus::Active);
    let prof = store.get_profile_by_phone("555-0100".to_string()).unwrap();
    assert_eq!(prof.active_subscription_id, Some(0));
    let r = store.update_subscription_status_admin(9, SubscriptionStatus::Paused, NOW);
    assert!(matches!(r, Err(SubscriptionError::SubscriptionNotFound)));
}
