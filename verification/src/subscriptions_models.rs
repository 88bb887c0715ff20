//! Subscription records and their views.

use vstd::prelude::*;

verus! {

/// One line of a subscription: quantity and the unit price frozen when the
/// subscription was created or last updated. Orders generated from the
/// subscription take fresh catalog prices instead.
#[derive(Clone, Copy, PartialEq, Eq, Structural, Debug)]
pub struct SubscriptionItem {
    pub product_id: u64,
    pub quantity: u64,
    pub price_per_unit_at_subscription: u64,
}

/// Caller-supplied line of a new subscription; the price is taken from the
/// catalog.
#[derive(Clone, Copy, PartialEq, Eq, Structural, Debug)]
pub struct SubscriptionItemInput {
    pub product_id: u64,
    pub quantity: u64,
}

/// Lifecycle states of a subscription. `Active` is initial; `Cancelled` is
/// terminal for the owner, though the administrative path may set any status.
#[derive(Clone, Copy, PartialEq, Eq, Structural, Debug)]
pub enum SubscriptionStatus {
    Active,
    Paused,
    Cancelled,
}

/// A recurring-delivery subscription. Never deleted; a cancelled record
/// remains queryable.
#[derive(Debug)]
pub struct Subscription {
    pub id: u64,
    pub user_phone_number: String,
    pub items: Vec<SubscriptionItem>,
    /// Weekday labels on which deliveries are wanted; never empty.
    pub delivery_days: Vec<String>,
    pub delivery_time_slot: String,
    pub delivery_address: String,
    pub start_date: u64,
    pub status: SubscriptionStatus,
    /// The next timestamp at which the recurring sweep should place an order.
    pub next_order_date: u64,
    pub created_at: u64,
    pub updated_at: u64,
}

/// Mathematical image of a [`Subscription`].
pub struct SubscriptionView {
    pub id: u64,
    pub user_phone_number: Seq<char>,
    pub items: Seq<SubscriptionItem>,
    pub delivery_days: Seq<Seq<char>>,
    pub delivery_time_slot: Seq<char>,
    pub delivery_address: Seq<char>,
    pub start_date: u64,
    pub status: SubscriptionStatus,
    pub next_order_date: u64,
    pub created_at: u64,
    pub updated_at: u64,
}

impl View for Subscription {
    type V = SubscriptionView;

    open spec fn view(&self) -> SubscriptionView {
        SubscriptionView {
            id: self.id,
            user_phone_number: self.user_phone_number@,
            items: self.items@,
            delivery_days: self.delivery_days.deep_view(),
            delivery_time_slot: self.delivery_time_slot@,
            delivery_address: self.delivery_address@,
            start_date: self.start_date,
            status: self.status,
            next_order_date: self.next_order_date,
            created_at: self.created_at,
            updated_at: self.updated_at,
        }
    }
}

impl DeepView for Subscription {
    type V = SubscriptionView;

    open spec fn deep_view(&self) -> SubscriptionView {
        self.view()
    }
}

impl SubscriptionView {
    /// Record-level invariant: at least one item with positive quantity, at
    /// least one delivery day, a non-zero start date, and a non-empty owner
    /// phone number, time slot and address.
    pub open spec fn wf(self) -> bool {
        &&& self.items.len() > 0
        &&& forall|i: int| 0 <= i < self.items.len() ==> (#[trigger] self.items[i]).quantity > 0
        &&& self.delivery_days.len() > 0
        &&& self.start_date != 0
        &&& self.user_phone_number.len() > 0
        &&& self.delivery_time_slot.len() > 0
        &&& self.delivery_address.len() > 0
    }
}

impl Clone for Subscription {
    fn clone(&self) -> (r: Self)
        ensures
            r@ == self@,
    {
        let r = Subscription {
            id: self.id,
            user_phone_number: self.user_phone_number.clone(),
            items: self.items.clone(),
            delivery_days: self.delivery_days.clone(),
            delivery_time_slot: self.delivery_time_slot.clone(),
            delivery_address: self.delivery_address.clone(),
            start_date: self.start_date,
            status: self.status,
            next_order_date: self.next_order_date,
            created_at: self.created_at,
            updated_at: self.updated_at,
        };
        proof {
            assert(r.delivery_days.deep_view() =~= self.delivery_days.deep_view());
        }
        r
    }
}

} // verus!
