use dairy_core::errors::GetUserDataError;
use dairy_core::models::UserProfile;
use dairy_core::store::Store;

fn profile(phone: &str, name: &str) -> UserProfile {
    UserProfile {
        phone_number: phone.to_string(),
        name: name.to_string(),
        address: "12 Dairy Lane".to_string(),
        order_ids: Vec::new(),
        has_active_subscription: false,
        active_subscription_id: None,
    }
}

/// Product ids are handed out as 0, 1, 2 in insertion order, and an update
/// never reassigns them.
#[test]
fn product_ids_in_insertion_order() {
    let mut store = Store::new();
    let a = store
        .add_product_admin("Milk".to_string(), "d".to_string(), 7000, "litre".to_string())
        .unwrap();
    let b = store
        .add_product_admin("Paneer".to_string(), "d".to_string(), 30000, "kg".to_string())
        .unwrap();
    let c = store
        .add_product_admin("Matha".to_string(), "d".to_string(), 2000, "litre".to_string())
        .unwrap();
    assert_eq!((a, b, c), (0, 1, 2));
    let updated = store
        .update_product_admin(1, "Paneer".to_string(), "richer".to_string(), 31000, "kg".to_string())
        .unwrap();
    assert_eq!(updated.id, 1);
    let all = store.get_products();
    assert_eq!(all.len(), 3);
    for (i, p) in all.iter().enumerate() {
        assert_eq!(p.id, i as u64);
    }
    assert_eq!(all[1].price, 31000);
    assert_eq!(all[1].description, "richer");
}

/// A zero price and an unknown id are rejected without any change.
#[test]
fn product_validation() {
    let mut store = Store::new();
    let r = store.add_product_admin("Free".to_string(), "d".to_string(), 0, "kg".to_string());
    assert!(r.is_err());
    assert_eq!(store.get_products().len(), 0);
    store
        .add_product_admin("Milk".to_string(), "d".to_string(), 7000, "litre".to_string())
        .unwrap();
    let r = store.update_product_admin(5, "x".to_string(), "d".to_string(), 1, "kg".to_string());
    assert!(r.is_err());
    let r = store.update_product_admin(0, "x".to_string(), "d".to_string(), 0, "kg".to_string());
    assert!(r.is_err());
    assert_eq!(store.get_products()[0].price, 7000);
}

/// The one-shot seeding fills the catalog once and refuses a second run.
#[test]
fn seeding_runs_once() {
    let mut store = Store::new();
    assert!(!store.is_initialized());
    store.initialize_products().unwrap();
    assert!(store.is_initialized());
    let all = store.get_products();
    assert_eq!(all.len(), 7);
    assert_eq!(all[0].name, "Milk");
    assert_eq!(all[0].price, 7000);
    assert_eq!(all[5].name, "Ghee");
    assert_eq!(all[5].price, 60000);
    let again = store.initialize_products();
    assert!(again.is_err());
    assert_eq!(store.get_products().len(), 7);
}

/// Profiles are created once per phone number, looked up by it, and listed.
#[test]
fn profile_lifecycle() {
    let mut store = Store::new();
    store.create_profile(profile("555-0100", "Asha")).unwrap();
    store.create_profile(profile("555-0200", "Ben")).unwrap();
    let dup = store.create_profile(profile("555-0100", "Imposter"));
    assert!(dup.is_err());
    let empty = store.create_profile(profile("", "Nobody"));
    assert!(empty.is_err());

    let p = store.get_profile_by_phone("555-0100".to_string()).unwrap();
    assert_eq!(p.name, "Asha");
    assert_eq!(p.order_ids.len(), 0);
    let r = store.get_profile_by_phone("555-0999".to_string());
    assert!(matches!(r, Err(GetUserDataError::DidntFindUserData)));

    let mut all = store.get_all_customers();
    all.sort_by(|a, b| a.phone_number.cmp(&b.phone_number));
    assert_eq!(all.len(), 2);
    assert_eq!(all[0].phone_number, "555-0100");
    assert_eq!(all[1].phone_number, "555-0200");
}

/// An upsert replaces the stored fields; deletion removes the record and
/// returns it.
#[test]
fn profile_update_and_delete() {
    let mut store = Store::new();
    store.create_profile(profile("555-0100", "Asha")).unwrap();
    let mut changed = profile("555-0100", "Asha P.");
    changed.address = "9 Meadow Way".to_string();
    store.update_profile(changed).unwrap();
    let p = store.get_profile_by_phone("555-0100".to_string()).unwrap();
    assert_eq!(p.name, "Asha P.");
    assert_eq!(p.address, "9 Meadow Way");

    let r = store.update_profile(profile("", "x"));
    assert!(matches!(r, Err(GetUserDataError::DidntFindUserData)));

    let deleted = store.delete_profile_admin("555-0100".to_string()).unwrap();
    assert_eq!(deleted.name, "Asha P.");
    let r = store.get_profile_by_phone("555-0100".to_string());
    assert!(r.is_err());
    let r = store.delete_profile_admin("555-0100".to_string());
    assert!(r.is_err());
    assert_eq!(store.get_all_customers().len(), 0);
}
