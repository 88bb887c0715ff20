use dairy_core::errors::OrderError;
use dairy_core::models::{OrderItemInput, OrderStatus, UserProfile};
use dairy_core::store::Store;

fn profile(phone: &str, name: &str, address: &str) -> UserProfile {
    UserProfile {
        phone_number: phone.to_string(),
        name: name.to_string(),
        address: address.to_string(),
        order_ids: Vec::new(),
        has_active_subscription: false,
        active_subscription_id: None,
    }
}

const NOW: u64 = 1_700_000_000_000_000_000;

/// Scenario: a profile, a milk product at 70.00 (7000 minor units), an order
/// of two units. The total is 140.00 and the order starts out pending.
#[test]
fn order_total_and_initial_status() {
    let mut store = Store::new();
    store
        .create_profile(profile("555-0100", "Asha", "12 Dairy Lane"))
        .unwrap();
    let id = store
        .add_product_admin(
            "Milk".to_string(),
            "Fresh Cow Milk".to_string(),
            7000,
            "litre".to_string(),
        )
        .unwrap();
    assert_eq!(id, 0);
    let order_id = store
        .create_order(
            "555-0100".to_string(),
            vec![OrderItemInput { product_id: 0, quantity: 2 }],
            "Addr".to_string(),
            NOW,
        )
        .unwrap();
    assert_eq!(order_id, 0);
    let order = store
        .get_order_details(order_id, "555-0100".to_string())
        .unwrap();
    assert_eq!(order.total_amount, 14000);
    assert_eq!(order.status, OrderStatus::Pending);
    assert_eq!(order.user_phone_number, "555-0100");
    assert_eq!(order.items.len(), 1);
    assert_eq!(order.items[0].price_per_unit_at_order, 7000);
}

/// Scenario: the owner cancels a pending order; a second cancel is refused
/// because the order is no longer pending.
#[test]
fn cancel_then_cancel_again() {
    let mut store = Store::new();
    store
        .create_profile(profile("555-0100", "Asha", "12 Dairy Lane"))
        .unwrap();
    store
        .add_product_admin(
            "Milk".to_string(),
            "Fresh Cow Milk".to_string(),
            7000,
            "litre".to_string(),
        )
        .unwrap();
    let order_id = store
        .create_order(
            "555-0100".to_string(),
            vec![OrderItemInput { product_id: 0, quantity: 2 }],
            "Addr".to_string(),
            NOW,
        )
        .unwrap();
    let cancelled = store
        .cancel_my_order(order_id, "555-0100".to_string(), NOW + 5)
        .unwrap();
    assert_eq!(cancelled.status, OrderStatus::Cancelled);
    assert_eq!(cancelled.last_updated, NOW + 5);
    let again = store.cancel_my_order(order_id, "555-0100".to_string(), NOW + 9);
    assert!(matches!(again, Err(OrderError::CannotCancelOrder(_))));
    // The record is untouched by the failed attempt.
    let order = store.get_order_details_admin(order_id).unwrap();
    assert_eq!(order.status, OrderStatus::Cancelled);
    assert_eq!(order.last_updated, NOW + 5);
}

/// A frozen order total survives a later catalog price change.
#[test]
fn total_survives_price_change() {
    let mut store = Store::new();
    store
        .create_profile(profile("555-0100", "Asha", "12 Dairy Lane"))
        .unwrap();
    store
        .add_product_admin(
            "Ghee".to_string(),
            "Pure Desi Ghee".to_string(),
            60000,
            "litre".to_string(),
        )
        .unwrap();
    let order_id = store
        .create_order(
            "555-0100".to_string(),
            vec![OrderItemInput { product_id: 0, quantity: 3 }],
            "Addr".to_string(),
            NOW,
        )
        .unwrap();
    store
        .update_product_admin(
            0,
            "Ghee".to_string(),
            "Pure Desi Ghee".to_string(),
            99999,
            "litre".to_string(),
        )
        .unwrap();
    let order = store.get_order_details_admin(order_id).unwrap();
    assert_eq!(order.total_amount, 180000);
    assert_eq!(order.items[0].price_per_unit_at_order, 60000);
    // A fresh order sees the new price.
    let second = store
        .create_order(
            "555-0100".to_string(),
            vec![OrderItemInput { product_id: 0, quantity: 1 }],
            "Addr".to_string(),
            NOW + 1,
        )
        .unwrap();
    let order2 = store.get_order_details_admin(second).unwrap();
    assert_eq!(order2.total_amount, 99999);
}

/// Order ids come from a counter: 0, 1, 2, in creation order, and
/// get_my_orders lists exactly the owner's orders.
#[test]
fn order_ids_and_my_orders() {
    let mut store = Store::new();
    store
        .create_profile(profile("555-0100", "Asha", "12 Dairy Lane"))
        .unwrap();
    store
        .create_profile(profile("555-0200", "Ben", "3 Hill Road"))
        .unwrap();
    store
        .add_product_admin("Milk".to_string(), "d".to_string(), 7000, "litre".to_string())
        .unwrap();
    let items = vec![OrderItemInput { product_id: 0, quantity: 1 }];
    let a = store
        .create_order("555-0100".to_string(), items.clone(), "A".to_string(), NOW)
        .unwrap();
    let b = store
        .create_order("555-0200".to_string(), items.clone(), "B".to_string(), NOW)
        .unwrap();
    let c = store
        .create_order("555-0100".to_string(), items, "A".to_string(), NOW)
        .unwrap();
    assert_eq!((a, b, c), (0, 1, 2));
    let mine = store.get_my_orders("555-0100".to_string()).unwrap();
    assert_eq!(mine.len(), 2);
    assert_eq!(mine[0].id, 0);
    assert_eq!(mine[1].id, 2);
    let all = store.get_all_orders().unwrap();
    assert_eq!(all.len(), 3);
}

/// Each order-creation error comes on the input that provokes it.
#[test]
fn create_order_errors() {
    let mut store = Store::new();
    store
        .create_profile(profile("555-0100", "Asha", "12 Dairy Lane"))
        .unwrap();
    store
        .add_product_admin("Milk".to_string(), "d".to_string(), 7000, "litre".to_string())
        .unwrap();
    let items = vec![OrderItemInput { product_id: 0, quantity: 1 }];

    let r = store.create_order("".to_string(), items.clone(), "A".to_string(), NOW);
    assert!(matches!(r, Err(OrderError::InvalidInput(_))));
    let r = store.create_order("555-0100".to_string(), Vec::new(), "A".to_string(), NOW);
    assert!(matches!(r, Err(OrderError::InvalidInput(_))));
    let r = store.create_order("555-0999".to_string(), items.clone(), "A".to_string(), NOW);
    assert!(matches!(r, Err(OrderError::UserProfileNotFound)));
    let r = store.create_order(
        "555-0100".to_string(),
        vec![OrderItemInput { product_id: 0, quantity: 0 }],
        "A".to_string(),
        NOW,
    );
    assert!(matches!(r, Err(OrderError::InvalidInput(_))));
    let r = store.create_order(
        "555-0100".to_string(),
        vec![OrderItemInput { product_id: 99, quantity: 1 }],
        "A".to_string(),
        NOW,
    );
    assert!(matches!(r, Err(OrderError::InvalidProductInOrder(99))));
    // Nothing was created along the way.
    assert_eq!(store.get_all_orders().unwrap().len(), 0);
}

/// Order details are only served to the owning phone number.
#[test]
fn order_access_control() {
    let mut store = Store::new();
    store
        .create_profile(profile("555-0100", "Asha", "12 Dairy Lane"))
        .unwrap();
    store
        .add_product_admin("Milk".to_string(), "d".to_string(), 7000, "litre".to_string())
        .unwrap();
    let order_id = store
        .create_order(
            "555-0100".to_string(),
            vec![OrderItemInput { product_id: 0, quantity: 1 }],
            "A".to_string(),
            NOW,
        )
        .unwrap();
    let r = store.get_order_details(order_id, "555-0200".to_string());
    assert!(matches!(r, Err(OrderError::AccessDenied)));
    let r = store.get_order_details(77, "555-0100".to_string());
    assert!(matches!(r, Err(OrderError::OrderNotFound)));
    let r = store.cancel_my_order(order_id, "555-0200".to_string(), NOW);
    assert!(matches!(r, Err(OrderError::AccessDenied)));
    // The administrative path bypasses ownership.
    assert!(store.get_order_details_admin(order_id).is_ok());
}

/// The administrative status override may set any status and stamps the
/// update time; an unknown id is refused.
#[test]
fn admin_status_override() {
    let mut store = Store::new();
    store
        .create_profile(profile("555-0100", "Asha", "12 Dairy Lane"))
        .unwrap();
    store
        .add_product_admin("Milk".to_string(), "d".to_string(), 7000, "litre".to_string())
        .unwrap();
    let order_id = store
        .create_order(
            "555-0100".to_string(),
            vec![OrderItemInput { product_id: 0, quantity: 1 }],
            "A".to_string(),
            NOW,
        )
        .unwrap();
    let updated = store
        .update_order_status_admin(order_id, OrderStatus::OutForDelivery, NOW + 2)
        .unwrap();
    assert_eq!(updated.status, OrderStatus::OutForDelivery);
    assert_eq!(updated.last_updated, NOW + 2);
    // Once out of Pending, the owner can no longer cancel.
    let r = store.cancel_my_order(order_id, "555-0100".to_string(), NOW + 3);
    assert!(matches!(r, Err(OrderError::CannotCancelOrder(_))));
    let r = store.update_order_status_admin(42, OrderStatus::Delivered, NOW);
    assert!(matches!(r, Err(OrderError::OrderNotFound)));
}
