//! The order store: records keyed by an id drawn from a monotonic counter,
//! plus that counter. Orders are never deleted.

use vstd::prelude::*;

use crate::models::{Order, OrderStatus, OrderView};

verus! {

/// The order store. Its view is the sequence of order views in insertion
/// order; `next_order_id` is the id the next allocation will return.
pub struct OrderStore {
    pub orders: Vec<Order>,
    pub next_order_id: u64,
}

impl View for OrderStore {
    type V = Seq<OrderView>;

    open spec fn view(&self) -> Seq<OrderView> {
        self.orders.deep_view()
    }
}

impl OrderStore {
    /// Store-level invariant: every record is well formed, ids are unique,
    /// and every id was drawn from the counter (so it lies below it).
    pub open spec fn wf(self) -> bool {
        &&& forall|i: int| 0 <= i < self@.len() ==> (#[trigger] self@[i]).wf()
        &&& forall|i: int| 0 <= i < self@.len() ==> (#[trigger] self@[i]).id < self.next_order_id
        &&& forall|i: int, j: int|
            0 <= i < self@.len() && 0 <= j < self@.len() && i != j ==> (#[trigger] self@[i]).id != (
            #[trigger] self@[j]).id
    }

    /// There is a record with this id.
    pub open spec fn has_id(self, id: u64) -> bool {
        exists|i: int| 0 <= i < self@.len() && (#[trigger] self@[i]).id == id
    }

    /// The index of the record with this id.
    pub open spec fn index_of_id(self, id: u64) -> int {
        choose|i: int| 0 <= i < self@.len() && (#[trigger] self@[i]).id == id
    }

    /// An empty order store; the first allocated id will be `0`.
    pub fn new() -> (r: Self)
        ensures
            r@ =~= Seq::<OrderView>::empty(),
            r.next_order_id == 0,
            r.wf(),
    {
        OrderStore { orders: Vec::new(), next_order_id: 0 }
    }

    /// Returns the next available order id and advances the counter.
    pub fn get_next_order_id(&mut self) -> (r: u64)
        requires
            old(self).next_order_id < u64::MAX,
        ensures
            r == old(self).next_order_id,
            final(self).next_order_id == old(self).next_order_id + 1,
            final(self)@ == old(self)@,
            old(self).wf() ==> final(self).wf(),
    {
        let id = self.next_order_id;
        self.next_order_id = self.next_order_id + 1;
        id
    }

    /// Stores a well-formed order under its id: a record with the same id is
    /// replaced in place, otherwise the order is appended.
    #[verifier::loop_isolation(false)]
    pub fn add_order(&mut self, order: Order) -> (r: Result<(), String>)
        requires
            old(self).wf(),
            order@.wf(),
            order@.id < old(self).next_order_id,
        ensures
            final(self).wf(),
            r is Ok,
            final(self).next_order_id == old(self).next_order_id,
            old(self).has_id(order@.id) ==> final(self)@ =~= old(self)@.update(
                old(self).index_of_id(order@.id),
                order@,
            ),
            !old(self).has_id(order@.id) ==> final(self)@ =~= old(self)@.push(order@),
    {
        let n = self.orders.len();
        let mut i: usize = 0;
        while i < n
            invariant
                n == self.orders.len(),
                forall|j: int| 0 <= j < i ==> (#[trigger] self@[j]).id != order@.id,
                self == old(self),
            decreases n - i,
        {
            if self.orders[i].id == order.id {
                self.orders[i] = order;
                proof {
                    let idx = old(self).index_of_id(order@.id);
                    assert(old(self)@[i as int].id == order@.id);
                    assert(0 <= idx < old(self)@.len() && old(self)@[idx].id == order@.id);
                    if idx != i as int {
                        assert(old(self)@[idx].id != old(self)@[i as int].id);
                    }
                    assert forall|k: int| 0 <= k < self@.len() implies (#[trigger] self@[k]).wf()
                        && self@[k].id < self.next_order_id by {
                        if k != i as int {
                            assert(self@[k] == old(self)@[k]);
                        }
                    }
                    assert forall|k: int, l: int|
                        0 <= k < self@.len() && 0 <= l < self@.len() && k != l implies (
                    #[trigger] self@[k]).id != (#[trigger] self@[l]).id by {
                        assert(old(self)@[k].id != old(self)@[l].id);
                        if k != i as int {
                            assert(self@[k] == old(self)@[k]);
                        }
                        if l != i as int {
                            assert(self@[l] == old(self)@[l]);
                        }
                        assert(self@[i as int].id == old(self)@[i as int].id);
                    }
                }
                return Ok(());
            }
            i = i + 1;
        }
        self.orders.push(order);
        proof {
            assert(!old(self).has_id(order@.id));
            assert(final(self)@ =~= old(self)@.push(order@));
        }
        Ok(())
    }

    /// Looks an order up by id; `None` exactly when no record has this id.
    #[verifier::loop_isolation(false)]
    pub fn get_order(&self, order_id: u64) -> (r: Option<Order>)
        requires
            self.wf(),
        ensures
            match r {
                Some(o) => self.has_id(order_id) && o@ == self@[self.index_of_id(order_id)]
                    && o@.id == order_id,
                None => !self.has_id(order_id),
            },
    {
        let n = self.orders.len();
        let mut i: usize = 0;
        while i < n
            invariant
                n == self.orders.len(),
                self.wf(),
                forall|j: int| 0 <= j < i ==> (#[trigger] self@[j]).id != order_id,
            decreases n - i,
        {
            if self.orders[i].id == order_id {
                let o = self.orders[i].clone();
                proof {
                    let idx = self.index_of_id(order_id);
                    assert(self@[i as int].id == order_id);
                    assert(0 <= idx < self@.len() && self@[idx].id == order_id);
                }
                return Some(o);
            }
            i = i + 1;
        }
        None
    }

    /// Every order of this user, in store order.
    #[verifier::loop_isolation(false)]
    pub fn get_orders_by_phone(&self, phone_number: &String) -> (r: Vec<Order>)
        ensures
            r.deep_view() == self@.filter(
                |o: OrderView| o.user_phone_number == phone_number@,
            ),
    {
        let ghost pred = |o: OrderView| o.user_phone_number == phone_number@;
        let mut result: Vec<Order> = Vec::new();
        let n = self.orders.len();
        let mut i: usize = 0;
        proof {
            assert(self@.take(0).filter(pred) =~= Seq::<OrderView>::empty());
            assert(result.deep_view() =~= Seq::<OrderView>::empty());
        }
        while i < n
            invariant
                n == self.orders.len(),
                i <= n,
                result.deep_view() == self@.take(i as int).filter(pred),
                pred == (|o: OrderView| o.user_phone_number == phone_number@),
            decreases n - i,
        {
            proof {
                reveal(Seq::filter);
                assert(self@.take(i + 1).drop_last() =~= self@.take(i as int));
                assert(self@.take(i + 1).last() == self@[i as int]);
            }
            if self.orders[i].user_phone_number == *phone_number {
                result.push(self.orders[i].clone());
                proof {
                    assert(result.deep_view() =~= self@.take(i + 1).filter(pred));
                }
            } else {
                proof {
                    assert(result.deep_view() =~= self@.take(i + 1).filter(pred));
                }
            }
            i = i + 1;
        }
        proof {
            assert(self@.take(n as int) =~= self@);
        }
        result
    }

    /// Sets the status and `last_updated` of the order with this id,
    /// returning the updated record; fails, leaving the store unchanged,
    /// exactly when no record has this id.
    #[verifier::loop_isolation(false)]
    pub fn update_order_status(&mut self, order_id: u64, status: OrderStatus, timestamp: u64) -> (r:
        Result<Order, String>)
        requires
            old(self).wf(),
        ensures
            final(self).wf(),
            final(self).next_order_id == old(self).next_order_id,
            !old(self).has_id(order_id) ==> r is Err && *final(self) == *old(self),
            old(self).has_id(order_id) ==> {
                let idx = old(self).index_of_id(order_id);
                let updated = OrderView { status: status, last_updated: timestamp, ..old(self)@[idx]
                };
                &&& final(self)@ =~= old(self)@.update(idx, updated)
                &&& r matches Ok(o) && o@ == updated
            },
    {
        let n = self.orders.len();
        let mut i: usize = 0;
        while i < n
            invariant
                n == self.orders.len(),
                forall|j: int| 0 <= j < i ==> (#[trigger] self@[j]).id != order_id,
                self == old(self),
            decreases n - i,
        {
            if self.orders[i].id == order_id {
                proof {
                    let idx = old(self).index_of_id(order_id);
                    assert(old(self)@[i as int].id == order_id);
                    assert(0 <= idx < old(self)@.len() && old(self)@[idx].id == order_id);
                    if idx != i as int {
                        assert(old(self)@[idx].id != old(self)@[i as int].id);
                    }
                }
                let old_record = &self.orders[i];
                let updated = Order {
                    id: old_record.id,
                    user_phone_number: old_record.user_phone_number.clone(),
                    items: old_record.items.clone(),
                    total_amount: old_record.total_amount,
                    status,
                    timestamp: old_record.timestamp,
                    delivery_address: old_record.delivery_address.clone(),
                    last_updated: timestamp,
                };
                let result = updated.clone();
                self.orders[i] = updated;
                proof {
                    assert forall|k: int| 0 <= k < self@.len() implies (#[trigger] self@[k]).wf()
                        && self@[k].id < self.next_order_id by {
                        if k != i as int {
                            assert(self@[k] == old(self)@[k]);
                        }
                    }
                    assert forall|k: int, l: int|
                        0 <= k < self@.len() && 0 <= l < self@.len() && k != l implies (
                    #[trigger] self@[k]).id != (#[trigger] self@[l]).id by {
                        assert(old(self)@[k].id != old(self)@[l].id);
                        if k != i as int {
                            assert(self@[k] == old(self)@[k]);
                        }
                        if l != i as int {
                            assert(self@[l] == old(self)@[l]);
                        }
                        assert(self@[i as int].id == old(self)@[i as int].id);
                    }
                }
                return Ok(result);
            }
            i = i + 1;
        }
        Err(String::from_str("Order not found for status update"))
    }

    /// Every order in the store, in store order.
    #[verifier::loop_isolation(false)]
    pub fn get_all_orders(&self) -> (r: Vec<Order>)
        ensures
            r.deep_view() == self@,
    {
        let mut result: Vec<Order> = Vec::new();
        let n = self.orders.len();
        let mut i: usize = 0;
        while i < n
            invariant
                n == self.orders.len(),
                i <= n,
                result.deep_view() =~= self@.take(i as int),
            decreases n - i,
        {
            let ghost prev_vec = result@;
            let element = self.orders[i].clone();
            proof {
                assert(element.deep_view() == self@[i as int]);
            }
            result.push(element);
            proof {
                assert(result@ == prev_vec.push(element));
                assert forall|k: int| 0 <= k < i + 1 implies result.deep_view()[k] == self@.take(
                    i + 1,
                )[k] by {
                    assert(result.deep_view()[k] == result@[k].deep_view());
                    if k < i as int {
                        assert(result@[k] == prev_vec[k]);
                    } else {
                        assert(result@[k] == element);
                    }
                }
                assert(result.deep_view() =~= self@.take(i + 1));
            }
            i = i + 1;
        }
        proof {
            assert(self@.take(n as int) =~= self@);
        }
        result
    }
}


} // verus!
