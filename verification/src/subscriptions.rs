//! The subscription store: an append-only arena in which a subscription's id
//! is its index, plus the monotonic counter the ids are drawn from.

use vstd::prelude::*;

use crate::subscriptions_models::{Subscription, SubscriptionStatus, SubscriptionView};

verus! {

/// The subscription store. Its view is the sequence of subscription views in
/// id order; `next_subscription_id` is the id the next insertion will take.
pub struct SubscriptionStore {
    pub subscriptions: Vec<Subscription>,
    pub next_subscription_id: u64,
}

impl View for SubscriptionStore {
    type V = Seq<SubscriptionView>;

    open spec fn view(&self) -> Seq<SubscriptionView> {
        self.subscriptions.deep_view()
    }
}

impl SubscriptionStore {
    /// Store-level invariant: each record's id is its index, each record is
    /// well formed, and the counter sits at the end of the arena.
    pub open spec fn wf(self) -> bool {
        &&& forall|i: int| 0 <= i < self@.len() ==> {
            &&& (#[trigger] self@[i]).id == i
            &&& self@[i].wf()
        }
        &&& self.next_subscription_id == self@.len()
    }

    /// An empty subscription store; the first id handed out will be `0`.
    pub fn new() -> (r: Self)
        ensures
            r@ =~= Seq::<SubscriptionView>::empty(),
            r.next_subscription_id == 0,
            r.wf(),
    {
        SubscriptionStore { subscriptions: Vec::new(), next_subscription_id: 0 }
    }

    /// Looks a subscription up by id; `None` exactly when the id is out of
    /// range.
    pub fn get_subscription(&self, id: u64) -> (r: Option<Subscription>)
        ensures
            match r {
                Some(s) => id < self@.len() && s@ == self@[id as int],
                None => id >= self@.len(),
            },
    {
        if id >= self.subscriptions.len() as u64 {
            None
        } else {
            Some(self.subscriptions[id as usize].clone())
        }
    }

    /// Every subscription of this user, in id order.
    #[verifier::loop_isolation(false)]
    pub fn get_subscriptions_by_phone(&self, phone_number: &str) -> (r: Vec<Subscription>)
        ensures
            r.deep_view() == self@.filter(
                |s: SubscriptionView| s.user_phone_number == phone_number@,
            ),
    {
        let ghost pred = |s: SubscriptionView| s.user_phone_number == phone_number@;
        let key = String::from_str(phone_number);
        let mut result: Vec<Subscription> = Vec::new();
        let n = self.subscriptions.len();
        let mut i: usize = 0;
        proof {
            assert(self@.take(0).filter(pred) =~= Seq::<SubscriptionView>::empty());
            assert(result.deep_view() =~= Seq::<SubscriptionView>::empty());
        }
        while i < n
            invariant
                i <= n,
                result.deep_view() == self@.take(i as int).filter(pred),
            decreases n - i,
        {
            proof {
                reveal(Seq::filter);
                assert(self@.take(i + 1).drop_last() =~= self@.take(i as int));
                assert(self@.take(i + 1).last() == self@[i as int]);
            }
            if self.subscriptions[i].user_phone_number == key {
                result.push(self.subscriptions[i].clone());
                proof {
                    assert(result.deep_view() =~= self@.take(i + 1).filter(pred));
                }
            } else {
                proof {
                    assert(result.deep_view() =~= self@.take(i + 1).filter(pred));
                }
            }
            i = i + 1;
        }
        proof {
            assert(self@.take(n as int) =~= self@);
        }
        result
    }

    /// Every subscription in the store, in id order.
    #[verifier::loop_isolation(false)]
    pub fn get_all_subscriptions(&self) -> (r: Vec<Subscription>)
        ensures
            r.deep_view() == self@,
    {
        let mut result: Vec<Subscription> = Vec::new();
        let n = self.subscriptions.len();
        let mut i: usize = 0;
        while i < n
            invariant
                i <= n,
                result.deep_view() =~= self@.take(i as int),
            decreases n - i,
        {
            let ghost prev_vec = result@;
            let element = self.subscriptions[i].clone();
            result.push(element);
            proof {
                assert forall|k: int| 0 <= k < i + 1 implies result.deep_view()[k] == self@.take(
                    i + 1,
                )[k] by {
                    if k < i as int {
                        assert(result@[k] == prev_vec[k]);
                    }
                }
                assert(result.deep_view() =~= self@.take(i + 1));
            }
            i = i + 1;
        }
        proof {
            assert(self@.take(n as int) =~= self@);
        }
        result
    }

    /// Replaces the record at `id` with the given data, forcing the record's
    /// id back to `id` and stamping `updated_at`; fails, leaving the store
    /// unchanged, exactly when the id is out of range.
    #[verifier::loop_isolation(false)]
    pub fn update_subscription(
        &mut self,
        id: u64,
        updated_data: Subscription,
        current_time: u64,
    ) -> (r: Result<Subscription, String>)
        requires
            old(self).wf(),
            updated_data@.wf(),
        ensures
            final(self).wf(),
            final(self).next_subscription_id == old(self).next_subscription_id,
            id >= old(self)@.len() ==> r is Err && *final(self) == *old(self),
            id < old(self)@.len() ==> {
                let updated = SubscriptionView { id: id, updated_at: current_time, ..updated_data@
                };
                &&& final(self)@ =~= old(self)@.update(id as int, updated)
                &&& r matches Ok(s) && s@ == updated
            },
    {
        if id >= self.subscriptions.len() as u64 {
            return Err(String::from_str("Subscription not found for update"));
        }
        let mut record = updated_data;
        record.id = id;
        record.updated_at = current_time;
        let result = record.clone();
        self.subscriptions[id as usize] = record;
        proof {
            assert forall|k: int| 0 <= k < self@.len() implies (#[trigger] self@[k]).id == k
                && self@[k].wf() by {
                if k != id as int {
                    assert(self@[k] == old(self)@[k]);
                }
            }
        }
        Ok(result)
    }

    /// Sets the status and `updated_at` of the record at `id`, returning the
    /// updated record; fails, leaving the store unchanged, exactly when the
    /// id is out of range.
    #[verifier::loop_isolation(false)]
    pub fn update_subscription_status(
        &mut self,
        id: u64,
        new_status: SubscriptionStatus,
        current_time: u64,
    ) -> (r: Result<Subscription, String>)
        requires
            old(self).wf(),
        ensures
            final(self).wf(),
            final(self).next_subscription_id == old(self).next_subscription_id,
            id >= old(self)@.len() ==> r is Err && *final(self) == *old(self),
            id < old(self)@.len() ==> {
                let updated = SubscriptionView {
                    status: new_status,
                    updated_at: current_time,
                    ..old(self)@[id as int]
                };
                &&& final(self)@ =~= old(self)@.update(id as int, updated)
                &&& r matches Ok(s) && s@ == updated
            },
    {
        if id >= self.subscriptions.len() as u64 {
            return Err(String::from_str("Subscription not found for status update"));
        }
        let mut record = self.subscriptions[id as usize].clone();
        record.status = new_status;
        record.updated_at = current_time;
        let result = record.clone();
        self.subscriptions[id as usize] = record;
        proof {
            assert forall|k: int| 0 <= k < self@.len() implies (#[trigger] self@[k]).id == k
                && self@[k].wf() by {
                if k != id as int {
                    assert(self@[k] == old(self)@[k]);
                }
            }
        }
        Ok(result)
    }

    /// Sets `next_order_date` and `updated_at` of the record at `id`,
    /// returning the updated record; fails, leaving the store unchanged,
    /// exactly when the id is out of range.
    #[verifier::loop_isolation(false)]
    pub fn update_subscription_next_order_date(
        &mut self,
        id: u64,
        new_next_order_date: u64,
        current_time: u64,
    ) -> (r: Result<Subscription, String>)
        requires
            old(self).wf(),
        ensures
            final(self).wf(),
            final(self).next_subscription_id == old(self).next_subscription_id,
            id >= old(self)@.len() ==> r is Err && *final(self) == *old(self),
            id < old(self)@.len() ==> {
                let updated = SubscriptionView {
                    next_order_date: new_next_order_date,
                    updated_at: current_time,
                    ..old(self)@[id as int]
                };
                &&& final(self)@ =~= old(self)@.update(id as int, updated)
                &&& r matches Ok(s) && s@ == updated
            },
    {
        if id >= self.subscriptions.len() as u64 {
            return Err(String::from_str("Subscription not found for next order date update"));
        }
        let mut record = self.subscriptions[id as usize].clone();
        record.next_order_date = new_next_order_date;
        record.updated_at = current_time;
        let result = record.clone();
        self.subscriptions[id as usize] = record;
        proof {
            assert forall|k: int| 0 <= k < self@.len() implies (#[trigger] self@[k]).id == k
                && self@[k].wf() by {
                if k != id as int {
                    assert(self@[k] == old(self)@[k]);
                }
            }
        }
        Ok(result)
    }

    /// Every subscription that the recurring sweep should serve now: active
    /// and due, in id order.
    #[verifier::loop_isolation(false)]
    pub fn get_active_subscriptions_due_for_order(&self, current_date_timestamp: u64) -> (r: Vec<
        Subscription,
    >)
        ensures
            r.deep_view() == self@.filter(
                |s: SubscriptionView|
                    s.status == SubscriptionStatus::Active && s.next_order_date
                        <= current_date_timestamp,
            ),
    {
        let ghost pred = |s: SubscriptionView|
            s.status == SubscriptionStatus::Active && s.next_order_date <= current_date_timestamp;
        let mut result: Vec<Subscription> = Vec::new();
        let n = self.subscriptions.len();
        let mut i: usize = 0;
        proof {
            assert(self@.take(0).filter(pred) =~= Seq::<SubscriptionView>::empty());
            assert(result.deep_view() =~= Seq::<SubscriptionView>::empty());
        }
        while i < n
            invariant
                i <= n,
                result.deep_view() == self@.take(i as int).filter(pred),
            decreases n - i,
        {
            proof {
                reveal(Seq::filter);
                assert(self@.take(i + 1).drop_last() =~= self@.take(i as int));
                assert(self@.take(i + 1).last() == self@[i as int]);
            }
            let s = &self.subscriptions[i];
            if matches!(s.status, SubscriptionStatus::Active) && s.next_order_date
                <= current_date_timestamp {
                result.push(self.subscriptions[i].clone());
                proof {
                    assert(result.deep_view() =~= self@.take(i + 1).filter(pred));
                }
            } else {
                proof {
                    assert(result.deep_view() =~= self@.take(i + 1).filter(pred));
                }
            }
            i = i + 1;
        }
        proof {
            assert(self@.take(n as int) =~= self@);
        }
        result
    }

    /// Returns the next available subscription id and advances the counter.
    /// `add_subscription` draws from this counter and keeps it equal to the
    /// arena length; a standalone call leaves the two out of step until the
    /// next insertion.
    pub fn get_next_subscription_id_impl(&mut self) -> (r: u64)
        requires
            old(self).next_subscription_id < u64::MAX,
        ensures
            r == old(self).next_subscription_id,
            final(self).next_subscription_id == old(self).next_subscription_id + 1,
            final(self)@ == old(self)@,
    {
        let current_id = self.next_subscription_id;
        self.next_subscription_id = self.next_subscription_id + 1;
        current_id
    }

    /// Appends a well-formed subscription, overriding its id with the next
    /// counter value (its index), and returns the stored record.
    #[verifier::loop_isolation(false)]
    pub fn add_subscription(&mut self, subscription_data: Subscription) -> (r: Result<
        Subscription,
        String,
    >)
        requires
            old(self).wf(),
            subscription_data@.wf(),
            old(self)@.len() < u64::MAX,
        ensures
            final(self).wf(),
            final(self).next_subscription_id == old(self).next_subscription_id + 1,
            ({
                let stored = SubscriptionView {
                    id: old(self).next_subscription_id,
                    ..subscription_data@
                };
                &&& final(self)@ =~= old(self)@.push(stored)
                &&& r matches Ok(s) && s@ == stored
            }),
    {
        let new_id = self.get_next_subscription_id_impl();
        let mut record = subscription_data;
        record.id = new_id;
        let result = record.clone();
        self.subscriptions.push(record);
        proof {
            assert forall|k: int| 0 <= k < self@.len() implies (#[trigger] self@[k]).id == k
                && self@[k].wf() by {
                if k < old(self)@.len() {
                    assert(self@[k] == old(self)@[k]);
                }
            }
        }
        Ok(result)
    }
}

} // verus!
