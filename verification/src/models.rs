//! Domain records: products, user profiles, orders and subscriptions.
//!
//! Each record type has a mathematical view (`View`/`DeepView`) over which
//! every contract in this crate is stated, and a `wf` predicate giving the
//! record-level invariant that the stores maintain. Prices are integers in
//! minor currency units; quantities are whole units; timestamps are
//! nanoseconds since the epoch.

use vstd::prelude::*;

verus! {

// ---------------------------------------------------------------------------
// Products
// ---------------------------------------------------------------------------

/// A catalog entry. `id` is the record's index in the catalog and never
/// changes after insertion.
#[derive(Debug)]
pub struct Product {
    pub id: u64,
    pub name: String,
    pub description: String,
    /// Unit price in minor currency units; always positive.
    pub price: u64,
    pub unit: String,
}

/// Mathematical image of a [`Product`].
pub struct ProductView {
    pub id: u64,
    pub name: Seq<char>,
    pub description: Seq<char>,
    pub price: u64,
    pub unit: Seq<char>,
}

impl View for Product {
    type V = ProductView;

    open spec fn view(&self) -> ProductView {
        ProductView {
            id: self.id,
            name: self.name@,
            description: self.description@,
            price: self.price,
            unit: self.unit@,
        }
    }
}

impl DeepView for Product {
    type V = ProductView;

    open spec fn deep_view(&self) -> ProductView {
        self.view()
    }
}

impl ProductView {
    /// Record-level invariant: the price is positive.
    pub open spec fn wf(self) -> bool {
        self.price > 0
    }
}

impl Clone for Product {
    fn clone(&self) -> (r: Self)
        ensures
            r@ == self@,
    {
        Product {
            id: self.id,
            name: self.name.clone(),
            description: self.description.clone(),
            price: self.price,
            unit: self.unit.clone(),
        }
    }
}

// ---------------------------------------------------------------------------
// User profiles
// ---------------------------------------------------------------------------

/// A customer profile, keyed by its non-empty phone number.
#[derive(Debug)]
pub struct UserProfile {
    pub phone_number: String,
    pub name: String,
    pub address: String,
    /// Ids of the orders this user has placed, in order of creation.
    pub order_ids: Vec<u64>,
    /// Always equal to "this user owns a subscription whose status is Active".
    pub has_active_subscription: bool,
    /// The id of the owned active subscription, if any.
    pub active_subscription_id: Option<u64>,
}

/// Mathematical image of a [`UserProfile`].
pub struct UserProfileView {
    pub phone_number: Seq<char>,
    pub name: Seq<char>,
    pub address: Seq<char>,
    pub order_ids: Seq<u64>,
    pub has_active_subscription: bool,
    pub active_subscription_id: Option<u64>,
}

impl View for UserProfile {
    type V = UserProfileView;

    open spec fn view(&self) -> UserProfileView {
        UserProfileView {
            phone_number: self.phone_number@,
            name: self.name@,
            address: self.address@,
            order_ids: self.order_ids@,
            has_active_subscription: self.has_active_subscription,
            active_subscription_id: self.active_subscription_id,
        }
    }
}

impl DeepView for UserProfile {
    type V = UserProfileView;

    open spec fn deep_view(&self) -> UserProfileView {
        self.view()
    }
}

impl Clone for UserProfile {
    fn clone(&self) -> (r: Self)
        ensures
            r@ == self@,
    {
        UserProfile {
            phone_number: self.phone_number.clone(),
            name: self.name.clone(),
            address: self.address.clone(),
            order_ids: self.order_ids.clone(),
            has_active_subscription: self.has_active_subscription,
            active_subscription_id: self.active_subscription_id,
        }
    }
}

// ---------------------------------------------------------------------------
// Orders
// ---------------------------------------------------------------------------

/// One line of an order: the quantity and the unit price frozen at the
/// moment the order was created. Later catalog changes never affect it.
#[derive(Clone, Copy, PartialEq, Eq, Structural, Debug)]
pub struct OrderItem {
    pub product_id: u64,
    pub quantity: u64,
    pub price_per_unit_at_order: u64,
}

/// Caller-supplied line of a new order; the price is taken from the catalog.
#[derive(Clone, Copy, PartialEq, Eq, Structural, Debug)]
pub struct OrderItemInput {
    pub product_id: u64,
    pub quantity: u64,
}

/// Lifecycle states of an order. `Pending` is initial; `Delivered` and
/// `Cancelled` are terminal for the owner, though the administrative path
/// may set any status.
#[derive(Clone, Copy, PartialEq, Eq, Structural, Debug)]
pub enum OrderStatus {
    Pending,
    Confirmed,
    Processing,
    OutForDelivery,
    Delivered,
    Cancelled,
}

impl Default for OrderStatus {
    /// A new order starts out pending.
    fn default() -> (r: Self)
        ensures
            r == OrderStatus::Pending,
    {
        OrderStatus::Pending
    }
}

/// The sum of `quantity * price_per_unit_at_order` over the items.
pub open spec fn items_total(items: Seq<OrderItem>) -> int
    decreases items.len(),
{
    if items.len() == 0 {
        0
    } else {
        items_total(items.drop_last()) + items.last().quantity * items.last().price_per_unit_at_order
    }
}

/// Every requested quantity is positive.
pub open spec fn all_quantities_pos(inputs: Seq<OrderItemInput>) -> bool {
    forall|i: int| 0 <= i < inputs.len() ==> (#[trigger] inputs[i]).quantity > 0
}

/// Every requested product id resolves in a catalog of `n_products` records.
pub open spec fn all_products_resolve(inputs: Seq<OrderItemInput>, n_products: int) -> bool {
    forall|i: int| 0 <= i < inputs.len() ==> (#[trigger] inputs[i]).product_id < n_products
}

/// The order lines built from the requested items, each with the current
/// catalog price frozen in.
pub open spec fn order_items_of(inputs: Seq<OrderItemInput>, products: Seq<ProductView>) -> Seq<
    OrderItem,
> {
    inputs.map_values(
        |inp: OrderItemInput|
            OrderItem {
                product_id: inp.product_id,
                quantity: inp.quantity,
                price_per_unit_at_order: products[inp.product_id as int].price,
            },
    )
}

/// The sum of the line totals is never negative.
pub proof fn lemma_items_total_nonneg(items: Seq<OrderItem>)
    ensures
        items_total(items) >= 0,
    decreases items.len(),
{
    if items.len() > 0 {
        lemma_items_total_nonneg(items.drop_last());
    }
}

/// Extending a prefix by one item adds that item's line total.
pub proof fn lemma_items_total_take_succ(items: Seq<OrderItem>, k: int)
    requires
        0 <= k < items.len(),
    ensures
        items_total(items.take(k + 1)) == items_total(items.take(k)) + items[k].quantity
            * items[k].price_per_unit_at_order,
{
    assert(items.take(k + 1).drop_last() =~= items.take(k));
    assert(items.take(k + 1).last() == items[k]);
}

/// A prefix never sums to more than the whole.
pub proof fn lemma_items_total_prefix_le(items: Seq<OrderItem>, k: int)
    requires
        0 <= k <= items.len(),
    ensures
        items_total(items.take(k)) <= items_total(items),
    decreases items.len() - k,
{
    if k < items.len() {
        lemma_items_total_take_succ(items, k);
        lemma_items_total_prefix_le(items, k + 1);
    } else {
        assert(items.take(k) =~= items);
    }
}

/// An order placed by one user. Never deleted; only its status and
/// `last_updated` change after creation.
#[derive(Debug)]
pub struct Order {
    pub id: u64,
    pub user_phone_number: String,
    pub items: Vec<OrderItem>,
    /// Equal to the sum over items of `quantity * price_per_unit_at_order`.
    pub total_amount: u64,
    pub status: OrderStatus,
    pub timestamp: u64,
    pub delivery_address: String,
    pub last_updated: u64,
}

/// Mathematical image of an [`Order`].
pub struct OrderView {
    pub id: u64,
    pub user_phone_number: Seq<char>,
    pub items: Seq<OrderItem>,
    pub total_amount: u64,
    pub status: OrderStatus,
    pub timestamp: u64,
    pub delivery_address: Seq<char>,
    pub last_updated: u64,
}

impl View for Order {
    type V = OrderView;

    open spec fn view(&self) -> OrderView {
        OrderView {
            id: self.id,
            user_phone_number: self.user_phone_number@,
            items: self.items@,
            total_amount: self.total_amount,
            status: self.status,
            timestamp: self.timestamp,
            delivery_address: self.delivery_address@,
            last_updated: self.last_updated,
        }
    }
}

impl DeepView for Order {
    type V = OrderView;

    open spec fn deep_view(&self) -> OrderView {
        self.view()
    }
}

impl OrderView {
    /// Record-level invariant: at least one item, positive quantities, and a
    /// total equal to the sum of the frozen line prices.
    pub open spec fn wf(self) -> bool {
        &&& self.items.len() > 0
        &&& forall|i: int| 0 <= i < self.items.len() ==> (#[trigger] self.items[i]).quantity > 0
        &&& self.total_amount == items_total(self.items)
    }
}

impl Clone for Order {
    fn clone(&self) -> (r: Self)
        ensures
            r@ == self@,
    {
        Order {
            id: self.id,
            user_phone_number: self.user_phone_number.clone(),
            items: self.items.clone(),
            total_amount: self.total_amount,
            status: self.status,
            timestamp: self.timestamp,
            delivery_address: self.delivery_address.clone(),
            last_updated: self.last_updated,
        }
    }
}

} // verus!
