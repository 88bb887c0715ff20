//! Order lifecycle operations: creation, queries, owner-initiated
//! cancellation, and the administrative status override.

use vstd::prelude::*;

use crate::errors::OrderError;
use crate::models::{
    all_products_resolve, all_quantities_pos, items_total, lemma_items_total_nonneg,
    lemma_items_total_prefix_le, lemma_items_total_take_succ, order_items_of, Order, OrderItem,
    OrderItemInput, OrderStatus, OrderView,
};
use crate::store::Store;
use vstd::arithmetic::mul::lemma_mul_nonnegative;

verus! {

/// The inputs on which order creation succeeds: nothing empty, a known
/// profile, positive quantities, resolvable products, and a total that fits
/// the amount type.
pub open spec fn create_order_ok(
    s: Store,
    phone: Seq<char>,
    inputs: Seq<OrderItemInput>,
    addr: Seq<char>,
) -> bool {
    &&& phone.len() > 0
    &&& inputs.len() > 0
    &&& addr.len() > 0
    &&& s.profiles@.contains_key(phone)
    &&& all_quantities_pos(inputs)
    &&& all_products_resolve(inputs, s.catalog@.len() as int)
    &&& items_total(order_items_of(inputs, s.catalog@)) <= u64::MAX
}

/// The record that a successful order creation appends.
pub open spec fn new_order_view(
    s: Store,
    phone: Seq<char>,
    inputs: Seq<OrderItemInput>,
    addr: Seq<char>,
    now: u64,
) -> OrderView {
    OrderView {
        id: s.orders.next_order_id,
        user_phone_number: phone,
        items: order_items_of(inputs, s.catalog@),
        total_amount: items_total(order_items_of(inputs, s.catalog@)) as u64,
        status: OrderStatus::Pending,
        timestamp: now,
        delivery_address: addr,
        last_updated: now,
    }
}

impl Store {
    /// Creates an order for a user: freezes the current catalog price into
    /// every line, sums the total, stores the order as `Pending` under a
    /// fresh id, and appends that id to the owner's history. Any validation
    /// failure leaves the store untouched. Inputs are rejected in this
    /// order: empty phone, items or address; unknown profile; a zero
    /// quantity; an unresolvable product id; a total beyond the amount type.
    #[verifier::loop_isolation(false)]
    pub fn create_order(
        &mut self,
        phone_number: String,
        items_input: Vec<OrderItemInput>,
        delivery_address: String,
        now: u64,
    ) -> (r: Result<u64, OrderError>)
        requires
            old(self).wf(),
            old(self).orders.next_order_id < u64::MAX,
        ensures
            final(self).wf(),
            r is Ok <==> create_order_ok(
                *old(self),
                phone_number@,
                items_input@,
                delivery_address@,
            ),
            r is Ok ==> {
                &&& r == Ok::<u64, OrderError>(old(self).orders.next_order_id)
                &&& final(self).orders@ =~= old(self).orders@.push(
                    new_order_view(
                        *old(self),
                        phone_number@,
                        items_input@,
                        delivery_address@,
                        now,
                    ),
                )
                &&& final(self).orders.next_order_id == old(self).orders.next_order_id + 1
                &&& final(self).profiles@ == old(self).profiles@.insert(
                    phone_number@,
                    (crate::models::UserProfileView {
                        order_ids: old(self).profiles@[phone_number@].order_ids.push(
                            old(self).orders.next_order_id,
                        ),
                        ..old(self).profiles@[phone_number@]
                    }),
                )
                &&& final(self).catalog@ == old(self).catalog@
                &&& final(self).subscriptions@ == old(self).subscriptions@
                &&& final(self).initialized == old(self).initialized
            },
            r is Err ==> *final(self) == *old(self),
            (r matches Err(OrderError::UserProfileNotFound)) <==> {
                &&& phone_number@.len() > 0 && items_input@.len() > 0 && delivery_address@.len()
                    > 0
                &&& !old(self).profiles@.contains_key(phone_number@)
            },
            (r matches Err(OrderError::InvalidProductInOrder(pid)) ==> {
                &&& exists|i: int|
                    {
                        &&& 0 <= i < items_input@.len()
                        &&& (#[trigger] items_input@[i]).product_id >= old(self).catalog@.len()
                        &&& pid == items_input@[i].product_id
                        &&& forall|j: int|
                            0 <= j < i ==> (#[trigger] items_input@[j]).product_id < old(
                                self,
                            ).catalog@.len()
                    }
            }),
            (r matches Err(OrderError::InvalidProductInOrder(_))) <==> {
                &&& phone_number@.len() > 0 && items_input@.len() > 0 && delivery_address@.len()
                    > 0
                &&& old(self).profiles@.contains_key(phone_number@)
                &&& all_quantities_pos(items_input@)
                &&& !all_products_resolve(items_input@, old(self).catalog@.len() as int)
            },
            (r matches Err(OrderError::InvalidInput(_))) <==> {
                ||| phone_number@.len() == 0 || items_input@.len() == 0
                    || delivery_address@.len() == 0
                ||| {
                    &&& phone_number@.len() > 0 && items_input@.len() > 0
                        && delivery_address@.len() > 0
                    &&& old(self).profiles@.contains_key(phone_number@)
                    &&& !all_quantities_pos(items_input@)
                }
                ||| {
                    &&& phone_number@.len() > 0 && items_input@.len() > 0
                        && delivery_address@.len() > 0
                    &&& old(self).profiles@.contains_key(phone_number@)
                    &&& all_quantities_pos(items_input@)
                    &&& all_products_resolve(items_input@, old(self).catalog@.len() as int)
                    &&& items_total(order_items_of(items_input@, old(self).catalog@)) > u64::MAX
                }
            },
    {
        if phone_number.as_str().is_empty() || items_input.len() == 0
            || delivery_address.as_str().is_empty() {
            return Err(
                OrderError::InvalidInput(
                    String::from_str("Phone number, items, and delivery address cannot be empty"),
                ),
            );
        }
        let user_profile = match self.profiles.get_user_profile(&phone_number) {
            Some(profile) => profile,
            None => {
                return Err(OrderError::UserProfileNotFound);
            },
        };

        let n = items_input.len();
        let mut i: usize = 0;
        while i < n
            invariant
                i <= n,
                forall|j: int| 0 <= j < i ==> (#[trigger] items_input@[j]).quantity > 0,
            decreases n - i,
        {
            if items_input[i].quantity == 0 {
                return Err(
                    OrderError::InvalidInput(String::from_str("Invalid quantity for product")),
                );
            }
            i = i + 1;
        }

        let n_products = self.catalog.len() as u64;
        i = 0;
        while i < n
            invariant
                i <= n,
                forall|j: int|
                    0 <= j < i ==> (#[trigger] items_input@[j]).product_id < self.catalog@.len(),
            decreases n - i,
        {
            if items_input[i].product_id >= n_products {
                return Err(OrderError::InvalidProductInOrder(items_input[i].product_id));
            }
            i = i + 1;
        }

        let ghost items_spec = order_items_of(items_input@, self.catalog@);
        let mut order_items: Vec<OrderItem> = Vec::new();
        let mut total_amount: u64 = 0;
        i = 0;
        proof {
            assert(items_spec.take(0) =~= Seq::<OrderItem>::empty());
        }
        while i < n
            invariant
                i <= n,
                order_items@ == items_spec.take(i as int),
                total_amount == items_total(items_spec.take(i as int)),
            decreases n - i,
        {
            let inp = items_input[i];
            let product = match self.catalog.get_product_by_id(inp.product_id) {
                Some(p) => p,
                None => {
                    proof {
                        assert(false);
                    }
                    return Err(OrderError::InvalidProductInOrder(inp.product_id));
                },
            };
            proof {
                assert(items_spec[i as int] == (OrderItem {
                    product_id: inp.product_id,
                    quantity: inp.quantity,
                    price_per_unit_at_order: product@.price,
                }));
                lemma_items_total_take_succ(items_spec, i as int);
                lemma_mul_nonnegative(
                    items_spec[i as int].quantity as int,
                    items_spec[i as int].price_per_unit_at_order as int,
                );
                lemma_items_total_prefix_le(items_spec, i + 1);
                lemma_items_total_nonneg(items_spec);
            }
            let line_total = match product.price.checked_mul(inp.quantity) {
                Some(v) => v,
                None => {
                    return Err(
                        OrderError::InvalidInput(
                            String::from_str("Order total exceeds the amount limit"),
                        ),
                    );
                },
            };
            let new_total = match total_amount.checked_add(line_total) {
                Some(v) => v,
                None => {
                    return Err(
                        OrderError::InvalidInput(
                            String::from_str("Order total exceeds the amount limit"),
                        ),
                    );
                },
            };
            order_items.push(
                OrderItem {
                    product_id: inp.product_id,
                    quantity: inp.quantity,
                    price_per_unit_at_order: product.price,
                },
            );
            proof {
                assert(line_total == items_spec[i as int].quantity * items_spec[
                    i as int
                ].price_per_unit_at_order);
                assert(new_total == items_total(items_spec.take(i + 1)));
                assert(order_items@ =~= items_spec.take(i + 1));
            }
            total_amount = new_total;
            i = i + 1;
        }
        proof {
            assert(items_spec.take(n as int) =~= items_spec);
        }

        let order_id = self.orders.get_next_order_id();
        let order = Order {
            id: order_id,
            user_phone_number: phone_number.clone(),
            items: order_items,
            total_amount,
            status: OrderStatus::Pending,
            timestamp: now,
            delivery_address,
            last_updated: now,
        };
        let add_result = self.orders.add_order(order);
        proof {
            assert(add_result is Ok);
            assert(!old(self).orders.has_id(order_id));
        }
        let mut updated_profile = user_profile;
        updated_profile.order_ids.push(order_id);
        self.profiles.update_user_profile(updated_profile);
        proof {
            assert forall|phone2: Seq<char>|
                final(self).profiles@.dom().contains(phone2) implies crate::store::profile_flags_ok(
                #[trigger] final(self).profiles@[phone2],
                final(self).subscriptions@,
            ) by {
                if phone2 != phone_number@ {
                    assert(final(self).profiles@[phone2] == old(self).profiles@[phone2]);
                } else {
                    assert(old(self).profiles@.dom().contains(phone2));
                }
            }
        }
        Ok(order_id)
    }

    /// Every order this user has placed, in store order; an empty phone
    /// number is rejected.
    pub fn get_my_orders(&self, phone_number: String) -> (r: Result<Vec<Order>, OrderError>)
        ensures
            phone_number@.len() == 0 ==> (r matches Err(OrderError::InvalidInput(_))),
            phone_number@.len() > 0 ==> (r matches Ok(v) && v.deep_view() == self.orders@.filter(
                |o: OrderView| o.user_phone_number == phone_number@,
            )),
    {
        if phone_number.as_str().is_empty() {
            return Err(OrderError::InvalidInput(String::from_str("Phone number cannot be empty")));
        }
        Ok(self.orders.get_orders_by_phone(&phone_number))
    }

    /// Returns the order only to its owner: an unknown id is `OrderNotFound`
    /// and a foreign requestor is `AccessDenied`.
    pub fn get_order_details(&self, order_id: u64, requestor_phone_number: String) -> (r: Result<
        Order,
        OrderError,
    >)
        requires
            self.orders.wf(),
        ensures
            !self.orders.has_id(order_id) ==> (r matches Err(OrderError::OrderNotFound)),
            self.orders.has_id(order_id) && self.orders@[self.orders.index_of_id(
                order_id,
            )].user_phone_number != requestor_phone_number@ ==> (r matches Err(
                OrderError::AccessDenied,
            )),
            self.orders.has_id(order_id) && self.orders@[self.orders.index_of_id(
                order_id,
            )].user_phone_number == requestor_phone_number@ ==> (r matches Ok(o) && o@
                == self.orders@[self.orders.index_of_id(order_id)]),
    {
        match self.orders.get_order(order_id) {
            Some(order) => {
                if order.user_phone_number == requestor_phone_number {
                    Ok(order)
                } else {
                    Err(OrderError::AccessDenied)
                }
            },
            None => Err(OrderError::OrderNotFound),
        }
    }

    /// Cancels the owner's order, permitted only while it is `Pending`: the
    /// order's status becomes `Cancelled` and nothing else changes. An empty
    /// requestor is rejected, an unknown id is `OrderNotFound`, a foreign
    /// requestor `AccessDenied`, and any status but `Pending` leaves the
    /// order exactly as it was with `CannotCancelOrder`.
    pub fn cancel_my_order(&mut self, order_id: u64, requestor_phone_number: String, now: u64) -> (r:
        Result<Order, OrderError>)
        requires
            old(self).wf(),
        ensures
            final(self).wf(),
            r is Err ==> *final(self) == *old(self),
            (r matches Err(OrderError::InvalidInput(_))) <==> requestor_phone_number@.len() == 0,
            (r matches Err(OrderError::OrderNotFound)) <==> requestor_phone_number@.len() > 0
                && !old(self).orders.has_id(order_id),
            (r matches Err(OrderError::AccessDenied)) <==> {
                &&& requestor_phone_number@.len() > 0
                &&& old(self).orders.has_id(order_id)
                &&& old(self).orders@[old(self).orders.index_of_id(order_id)].user_phone_number
                    != requestor_phone_number@
            },
            (r matches Err(OrderError::CannotCancelOrder(_))) <==> {
                &&& requestor_phone_number@.len() > 0
                &&& old(self).orders.has_id(order_id)
                &&& old(self).orders@[old(self).orders.index_of_id(order_id)].user_phone_number
                    == requestor_phone_number@
                &&& old(self).orders@[old(self).orders.index_of_id(order_id)].status
                    != OrderStatus::Pending
            },
            r is Ok <==> {
                &&& requestor_phone_number@.len() > 0
                &&& old(self).orders.has_id(order_id)
                &&& old(self).orders@[old(self).orders.index_of_id(order_id)].user_phone_number
                    == requestor_phone_number@
                &&& old(self).orders@[old(self).orders.index_of_id(order_id)].status
                    == OrderStatus::Pending
            },
            r is Ok ==> {
                let idx = old(self).orders.index_of_id(order_id);
                let updated = OrderView {
                    status: OrderStatus::Cancelled,
                    last_updated: now,
                    ..old(self).orders@[idx]
                };
                &&& final(self).orders@ =~= old(self).orders@.update(idx, updated)
                &&& (r matches Ok(o) && o@ == updated)
                &&& final(self).catalog@ == old(self).catalog@
                &&& final(self).profiles@ == old(self).profiles@
                &&& final(self).subscriptions@ == old(self).subscriptions@
                &&& final(self).orders.next_order_id == old(self).orders.next_order_id
            },
    {
        if requestor_phone_number.as_str().is_empty() {
            return Err(
                OrderError::InvalidInput(String::from_str("Requestor phone number cannot be empty")),
            );
        }
        let order = match self.orders.get_order(order_id) {
            Some(order) => order,
            None => {
                return Err(OrderError::OrderNotFound);
            },
        };
        if order.user_phone_number != requestor_phone_number {
            return Err(OrderError::AccessDenied);
        }
        if !matches!(order.status, OrderStatus::Pending) {
            return Err(
                OrderError::CannotCancelOrder(
                    String::from_str("Order can only be cancelled if it is in Pending status"),
                ),
            );
        }
        match self.orders.update_order_status(order_id, OrderStatus::Cancelled, now) {
            Ok(updated_order) => Ok(updated_order),
            Err(e) => Err(OrderError::StorageError(e)),
        }
    }

    /// Every order in the store, for the administrative panel.
    pub fn get_all_orders(&self) -> (r: Result<Vec<Order>, OrderError>)
        ensures
            r matches Ok(v) && v.deep_view() == self.orders@,
    {
        Ok(self.orders.get_all_orders())
    }

    /// Returns any order by id without an ownership check; the caller has
    /// already been vetted by the access guard.
    pub fn get_order_details_admin(&self, order_id: u64) -> (r: Result<Order, OrderError>)
        requires
            self.orders.wf(),
        ensures
            !self.orders.has_id(order_id) ==> (r matches Err(OrderError::OrderNotFound)),
            self.orders.has_id(order_id) ==> (r matches Ok(o) && o@ == self.orders@[
                self.orders.index_of_id(order_id)
            ]),
    {
        match self.orders.get_order(order_id) {
            Some(order) => Ok(order),
            None => Err(OrderError::OrderNotFound),
        }
    }

    /// Administrative status override: sets any status on an existing order,
    /// stamping `last_updated`; no transition table restricts this path.
    pub fn update_order_status_admin(&mut self, order_id: u64, new_status: OrderStatus, now: u64) -> (r:
        Result<Order, OrderError>)
        requires
            old(self).wf(),
        ensures
            final(self).wf(),
            !old(self).orders.has_id(order_id) ==> (r matches Err(OrderError::OrderNotFound))
                && *final(self) == *old(self),
            old(self).orders.has_id(order_id) ==> {
                let idx = old(self).orders.index_of_id(order_id);
                let updated = OrderView {
                    status: new_status,
                    last_updated: now,
                    ..old(self).orders@[idx]
                };
                &&& final(self).orders@ =~= old(self).orders@.update(idx, updated)
                &&& (r matches Ok(o) && o@ == updated)
                &&& final(self).catalog@ == old(self).catalog@
                &&& final(self).profiles@ == old(self).profiles@
                &&& final(self).subscriptions@ == old(self).subscriptions@
                &&& final(self).orders.next_order_id == old(self).orders.next_order_id
            },
    {
        match self.orders.update_order_status(order_id, new_status, now) {
            Ok(updated_order) => Ok(updated_order),
            Err(_) => Err(OrderError::OrderNotFound),
        }
    }
}

} // verus!
