//! The recurring-order sweep: serves every subscription that is active and
//! due, materializing an order through the normal creation path and advancing
//! the schedule. Each subscription is handled independently: a failure (a
//! vanished product, a vanished profile, an oversized total) is counted and
//! the schedule is left alone, so the record is retried on the next sweep.

use vstd::prelude::*;

use crate::models::{all_products_resolve, items_total, order_items_of, OrderItemInput, OrderStatus};
use crate::schedule::{calculate_initial_next_order_date, NANOS_PER_DAY};
use crate::store::Store;
use crate::subscriptions_models::{SubscriptionStatus, SubscriptionView};

verus! {

/// What one sweep did: how many due subscriptions it found, and how many of
/// them it served or failed to serve.
#[derive(Clone, Copy, PartialEq, Eq, Structural, Debug)]
pub struct RecurringOrderSummary {
    pub processed: u64,
    pub succeeded: u64,
    pub failed: u64,
}

/// The subscription is active and due at `now`.
pub open spec fn sub_due(s: SubscriptionView, now: u64) -> bool {
    s.status == SubscriptionStatus::Active && s.next_order_date <= now
}

/// The order request that a subscription's lines stand for.
pub open spec fn inputs_of_sub(s: SubscriptionView) -> Seq<OrderItemInput> {
    s.items.map_values(
        |it: crate::subscriptions_models::SubscriptionItem|
            OrderItemInput { product_id: it.product_id, quantity: it.quantity },
    )
}

/// A due subscription can be served against this store: its owner still has
/// a profile, all its products still resolve, and the order total fits.
pub open spec fn sweep_serves(s: Store, sub: SubscriptionView) -> bool {
    &&& s.profiles@.contains_key(sub.user_phone_number)
    &&& all_products_resolve(inputs_of_sub(sub), s.catalog@.len() as int)
    &&& items_total(order_items_of(inputs_of_sub(sub), s.catalog@)) <= u64::MAX
}

impl Store {
    /// Serves every subscription that is active and due at `now`: for each,
    /// an order is created exactly as a manual order would be — current
    /// catalog prices, status `Pending`, the next id — and the subscription's
    /// `next_order_date` moves one day past `now`. A subscription whose
    /// products or owner profile no longer resolve, or whose total would not
    /// fit, is counted as failed and left untouched. Subscriptions that are
    /// not due are not touched at all, and no order record is ever changed.
    #[verifier::loop_isolation(false)]
    pub fn generate_recurring_orders(&mut self, now: u64) -> (r: RecurringOrderSummary)
        requires
            old(self).wf(),
            old(self).orders.next_order_id + old(self).subscriptions@.len() <= u64::MAX,
            now + NANOS_PER_DAY <= u64::MAX,
        ensures
            final(self).wf(),
            r.processed == old(self).subscriptions@.filter(
                |s: SubscriptionView| sub_due(s, now),
            ).len(),
            r.succeeded == old(self).subscriptions@.filter(
                |s: SubscriptionView| sub_due(s, now) && sweep_serves(*old(self), s),
            ).len(),
            r.processed == r.succeeded + r.failed,
            final(self).catalog@ == old(self).catalog@,
            final(self).initialized == old(self).initialized,
            final(self).subscriptions@.len() == old(self).subscriptions@.len(),
            forall|i: int|
                0 <= i < old(self).subscriptions@.len() && !sub_due(
                    #[trigger] old(self).subscriptions@[i],
                    now,
                ) ==> final(self).subscriptions@[i] == old(self).subscriptions@[i],
            forall|i: int|
                0 <= i < old(self).subscriptions@.len() && sub_due(
                    #[trigger] old(self).subscriptions@[i],
                    now,
                ) && !sweep_serves(*old(self), old(self).subscriptions@[i]) ==> final(self).subscriptions@[i] == old(self).subscriptions@[i],
            forall|i: int|
                0 <= i < old(self).subscriptions@.len() && sub_due(
                    #[trigger] old(self).subscriptions@[i],
                    now,
                ) && sweep_serves(*old(self), old(self).subscriptions@[i]) ==> final(self).subscriptions@[i] == (SubscriptionView {
                    next_order_date: (now + NANOS_PER_DAY) as u64,
                    updated_at: now,
                    ..old(self).subscriptions@[i]
                }),
            final(self).orders@.len() == old(self).orders@.len() + r.succeeded,
            final(self).orders.next_order_id == old(self).orders.next_order_id + r.succeeded,
            forall|k: int|
                0 <= k < old(self).orders@.len() ==> final(self).orders@[k] == old(
                    self,
                ).orders@[k],
            forall|k: int|
                old(self).orders@.len() <= k < final(self).orders@.len() ==> ({
                    &&& (#[trigger] final(self).orders@[k]).id == old(self).orders.next_order_id
                        + (k - old(self).orders@.len())
                    &&& final(self).orders@[k].status == OrderStatus::Pending
                    &&& final(self).orders@[k].timestamp == now
                    &&& final(self).orders@[k].last_updated == now
                    &&& (exists|i: int|
                        {
                            &&& 0 <= i < old(self).subscriptions@.len()
                            &&& sub_due(#[trigger] old(self).subscriptions@[i], now)
                            &&& sweep_serves(*old(self), old(self).subscriptions@[i])
                            &&& final(self).orders@[k].user_phone_number == old(
                                self,
                            ).subscriptions@[i].user_phone_number
                            &&& final(self).orders@[k].delivery_address == old(
                                self,
                            ).subscriptions@[i].delivery_address
                            &&& final(self).orders@[k].items == order_items_of(
                                inputs_of_sub(old(self).subscriptions@[i]),
                                old(self).catalog@,
                            )
                            &&& final(self).orders@[k].total_amount == items_total(
                                order_items_of(
                                    inputs_of_sub(old(self).subscriptions@[i]),
                                    old(self).catalog@,
                                ),
                            )
                        })
                }),
            final(self).profiles@.dom() =~= old(self).profiles@.dom(),
            forall|p: Seq<char>|
                old(self).profiles@.dom().contains(p) ==> ({
                    &&& (#[trigger] final(self).profiles@[p]).phone_number == old(
                        self,
                    ).profiles@[p].phone_number
                    &&& final(self).profiles@[p].name == old(self).profiles@[p].name
                    &&& final(self).profiles@[p].address == old(self).profiles@[p].address
                    &&& final(self).profiles@[p].has_active_subscription == old(
                        self,
                    ).profiles@[p].has_active_subscription
                    &&& final(self).profiles@[p].active_subscription_id == old(
                        self,
                    ).profiles@[p].active_subscription_id
                }),
    {
        let ghost due_pred = |s: SubscriptionView| sub_due(s, now);
        let ghost serve_pred = |s: SubscriptionView| sub_due(s, now) && sweep_serves(
            *old(self),
            s,
        );
        let ghost old_subs = self.subscriptions@;
        let ghost old_orders_len = self.orders@.len() as int;
        let ghost old_next = self.orders.next_order_id;

        let mut processed: u64 = 0;
        let mut succeeded: u64 = 0;
        let mut failed: u64 = 0;

        let n = self.subscriptions.subscriptions.len();
        let mut i: usize = 0;
        proof {
            assert(old_subs.take(0).filter(due_pred) =~= Seq::<SubscriptionView>::empty());
            assert(old_subs.take(0).filter(serve_pred) =~= Seq::<SubscriptionView>::empty());
        }
        while i < n
            invariant
                i <= n,
                n == old_subs.len(),
                self.wf(),
                self.catalog@ == old(self).catalog@,
                self.initialized == old(self).initialized,
                processed == old_subs.take(i as int).filter(due_pred).len(),
                succeeded == old_subs.take(i as int).filter(serve_pred).len(),
                processed == succeeded + failed,
                self.subscriptions@.len() == old_subs.len(),
                forall|j: int| i <= j < old_subs.len() ==> self.subscriptions@[j] == old_subs[j],
                forall|j: int|
                    0 <= j < i && !sub_due(#[trigger] old_subs[j], now) ==> self.subscriptions@[j]
                        == old_subs[j],
                forall|j: int|
                    0 <= j < i && sub_due(#[trigger] old_subs[j], now) && !sweep_serves(
                        *old(self),
                        old_subs[j],
                    ) ==> self.subscriptions@[j] == old_subs[j],
                forall|j: int|
                    0 <= j < i && sub_due(#[trigger] old_subs[j], now) && sweep_serves(
                        *old(self),
                        old_subs[j],
                    ) ==> self.subscriptions@[j] == (SubscriptionView {
                        next_order_date: (now + NANOS_PER_DAY) as u64,
                        updated_at: now,
                        ..old_subs[j]
                    }),
                self.orders@.len() == old_orders_len + succeeded,
                self.orders.next_order_id == old_next + succeeded,
                forall|k: int| 0 <= k < old_orders_len ==> self.orders@[k] == old(self).orders@[k],
                forall|k: int|
                    old_orders_len <= k < self.orders@.len() ==> ({
                        &&& (#[trigger] self.orders@[k]).id == old_next + (k - old_orders_len)
                        &&& self.orders@[k].status == OrderStatus::Pending
                        &&& self.orders@[k].timestamp == now
                        &&& self.orders@[k].last_updated == now
                        &&& (exists|j: int|
                            {
                                &&& 0 <= j < old_subs.len()
                                &&& sub_due(#[trigger] old_subs[j], now)
                                &&& sweep_serves(*old(self), old_subs[j])
                                &&& self.orders@[k].user_phone_number
                                    == old_subs[j].user_phone_number
                                &&& self.orders@[k].delivery_address
                                    == old_subs[j].delivery_address
                                &&& self.orders@[k].items == order_items_of(
                                    inputs_of_sub(old_subs[j]),
                                    old(self).catalog@,
                                )
                                &&& self.orders@[k].total_amount == items_total(
                                    order_items_of(inputs_of_sub(old_subs[j]), old(self).catalog@),
                                )
                            })
                    }),
                self.profiles@.dom() =~= old(self).profiles@.dom(),
                forall|p: Seq<char>|
                    old(self).profiles@.dom().contains(p) ==> ({
                        &&& (#[trigger] self.profiles@[p]).phone_number == old(
                            self,
                        ).profiles@[p].phone_number
                        &&& self.profiles@[p].name == old(self).profiles@[p].name
                        &&& self.profiles@[p].address == old(self).profiles@[p].address
                        &&& self.profiles@[p].has_active_subscription == old(
                            self,
                        ).profiles@[p].has_active_subscription
                        &&& self.profiles@[p].active_subscription_id == old(
                            self,
                        ).profiles@[p].active_subscription_id
                    }),
            decreases n - i,
        {
            proof {
                reveal(Seq::filter);
                assert(old_subs.take(i + 1).drop_last() =~= old_subs.take(i as int));
                assert(old_subs.take(i + 1).last() == old_subs[i as int]);
                old_subs.take(i as int).lemma_filter_len(due_pred);
                old_subs.take(i as int).lemma_filter_len(serve_pred);
            }
            let subscription = match self.subscriptions.get_subscription(i as u64) {
                Some(s) => s,
                None => {
                    proof {
                        assert(false);
                    }
                    break ;
                },
            };
            proof {
                assert(subscription@ == old_subs[i as int]);
            }
            if matches!(subscription.status, SubscriptionStatus::Active)
                && subscription.next_order_date <= now {
                proof {
                    assert(sub_due(old_subs[i as int], now));
                    assert(old_subs.take(i as int).filter(due_pred).len() <= old_subs.take(
                        i as int,
                    ).len());
                }
                processed = processed + 1;

                let m = subscription.items.len();
                let mut inputs: Vec<OrderItemInput> = Vec::new();
                let mut j: usize = 0;
                proof {
                    assert(inputs@ =~= inputs_of_sub(old_subs[i as int]).take(0));
                }
                while j < m
                    invariant
                        j <= m,
                        m == subscription.items@.len(),
                        subscription@ == old_subs[i as int],
                        inputs@ == inputs_of_sub(old_subs[i as int]).take(j as int),
                    decreases m - j,
                {
                    let it = subscription.items[j];
                    inputs.push(OrderItemInput { product_id: it.product_id, quantity: it.quantity });
                    proof {
                        assert(inputs_of_sub(old_subs[i as int])[j as int] == (OrderItemInput {
                            product_id: it.product_id,
                            quantity: it.quantity,
                        }));
                        assert(inputs@ =~= inputs_of_sub(old_subs[i as int]).take(j + 1));
                    }
                    j = j + 1;
                }
                proof {
                    assert(inputs_of_sub(old_subs[i as int]).take(m as int) =~= inputs_of_sub(
                        old_subs[i as int],
                    ));
                    assert(old_subs[i as int].wf());
                    assert forall|q: int| 0 <= q < inputs@.len() implies (#[trigger] inputs@[q]).quantity
                        > 0 by {
                        assert(inputs@[q] == inputs_of_sub(old_subs[i as int])[q]);
                        assert(old_subs[i as int].items[q].quantity > 0);
                    }
                }

                let ghost pre_call = *self;
                match self.create_order(
                    subscription.user_phone_number.clone(),
                    inputs,
                    subscription.delivery_address.clone(),
                    now,
                ) {
                    Ok(order_id) => {
                        proof {
                            assert(sweep_serves(pre_call, old_subs[i as int]));
                            assert(sweep_serves(*old(self), old_subs[i as int]));
                        }
                        succeeded = succeeded + 1;
                        let new_next = calculate_initial_next_order_date(
                            subscription.next_order_date,
                            subscription.delivery_days.as_slice(),
                            now,
                        );
                        let ghost pre_adv = self.subscriptions@;
                        let advanced = self.subscriptions.update_subscription_next_order_date(
                            i as u64,
                            new_next,
                            now,
                        );
                        proof {
                            assert(advanced is Ok);
                            let subs2 = self.subscriptions@;
                            assert(subs2[i as int] == (SubscriptionView {
                                next_order_date: (now + NANOS_PER_DAY) as u64,
                                updated_at: now,
                                ..old_subs[i as int]
                            }));
                            assert forall|a: int, b: int|
                                #![trigger subs2[a], subs2[b]]
                                crate::store::active_for(subs2, a, subs2[b].user_phone_number)
                                    && crate::store::active_for(
                                    subs2,
                                    b,
                                    subs2[b].user_phone_number,
                                ) implies a == b by {
                                assert(crate::store::active_for(
                                    pre_adv,
                                    a,
                                    pre_adv[b].user_phone_number,
                                ));
                                assert(crate::store::active_for(
                                    pre_adv,
                                    b,
                                    pre_adv[b].user_phone_number,
                                ));
                            }
                            assert forall|phone2: Seq<char>|
                                self.profiles@.dom().contains(phone2) implies crate::store::profile_flags_ok(
                                #[trigger] self.profiles@[phone2],
                                subs2,
                            ) by {
                                assert(crate::store::profile_flags_ok(
                                    self.profiles@[phone2],
                                    pre_adv,
                                ));
                                crate::subscription_ops::lemma_has_active_update_same_activity(
                                    pre_adv,
                                    i as int,
                                    subs2[i as int],
                                    phone2,
                                );
                                match self.profiles@[phone2].active_subscription_id {
                                    Some(aid) => {
                                        assert(crate::store::active_for(
                                            pre_adv,
                                            aid as int,
                                            phone2,
                                        ));
                                        assert(crate::store::active_for(subs2, aid as int, phone2));
                                    },
                                    None => {},
                                }
                            }
                            assert(old_subs.take(i + 1).filter(serve_pred) =~= old_subs.take(
                                i as int,
                            ).filter(serve_pred).push(old_subs[i as int]));
                        }
                    },
                    Err(_) => {
                        proof {
                            assert(!sweep_serves(pre_call, old_subs[i as int]));
                            assert(!sweep_serves(*old(self), old_subs[i as int]));
                            assert(old_subs.take(i + 1).filter(serve_pred) =~= old_subs.take(
                                i as int,
                            ).filter(serve_pred));
                        }
                        failed = failed + 1;
                    },
                }
                proof {
                    assert(old_subs.take(i + 1).filter(due_pred) =~= old_subs.take(i as int).filter(
                        due_pred,
                    ).push(old_subs[i as int]));
                }
            } else {
                proof {
                    assert(!sub_due(old_subs[i as int], now));
                    assert(old_subs.take(i + 1).filter(due_pred) =~= old_subs.take(i as int).filter(
                        due_pred,
                    ));
                    assert(old_subs.take(i + 1).filter(serve_pred) =~= old_subs.take(
                        i as int,
                    ).filter(serve_pred));
                }
            }
            i = i + 1;
        }
        proof {
            assert(old_subs.take(n as int) =~= old_subs);
        }
        RecurringOrderSummary { processed, succeeded, failed }
    }
}

} // verus!
