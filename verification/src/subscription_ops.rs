//! Subscription lifecycle operations: creation, queries, the owner's
//! pause/resume/cancel transitions, the patch-style detail update, and the
//! administrative status override.
//!
//! Every write keeps two system-wide facts intact: no phone number owns two
//! active subscriptions, and each profile's `has_active_subscription` flag
//! and `active_subscription_id` tell the truth about the subscription store.

use vstd::prelude::*;

use crate::errors::SubscriptionError;
use crate::models::UserProfileView;
use crate::schedule::{calculate_initial_next_order_date, next_order_date_spec, NANOS_PER_DAY};
use crate::store::{active_for, active_sub_id, has_active_sub, profile_flags_ok, Store};
use crate::subscriptions_models::{
    Subscription, SubscriptionItem, SubscriptionItemInput, SubscriptionStatus, SubscriptionView,
};

verus! {

/// What a caller supplies to open a subscription.
pub struct CreateSubscriptionPayload {
    pub items: Vec<SubscriptionItemInput>,
    pub delivery_days: Vec<String>,
    pub delivery_time_slot: String,
    pub delivery_address: String,
    pub start_date: u64,
}

/// Every requested quantity is positive.
pub open spec fn all_sub_quantities_pos(inputs: Seq<SubscriptionItemInput>) -> bool {
    forall|i: int| 0 <= i < inputs.len() ==> (#[trigger] inputs[i]).quantity > 0
}

/// Every requested product id resolves in a catalog of `n_products` records.
pub open spec fn all_sub_products_resolve(
    inputs: Seq<SubscriptionItemInput>,
    n_products: int,
) -> bool {
    forall|i: int| 0 <= i < inputs.len() ==> (#[trigger] inputs[i]).product_id < n_products
}

/// The subscription lines built from the requested items, each with the
/// current catalog price frozen in.
pub open spec fn subscription_items_of(
    inputs: Seq<SubscriptionItemInput>,
    products: Seq<crate::models::ProductView>,
) -> Seq<SubscriptionItem> {
    inputs.map_values(
        |inp: SubscriptionItemInput|
            SubscriptionItem {
                product_id: inp.product_id,
                quantity: inp.quantity,
                price_per_unit_at_subscription: products[inp.product_id as int].price,
            },
    )
}

/// A caller-supplied subscription payload passes validation against a store.
pub open spec fn create_subscription_ok(
    s: Store,
    phone: Seq<char>,
    items: Seq<SubscriptionItemInput>,
    days: Seq<Seq<char>>,
    slot: Seq<char>,
    addr: Seq<char>,
    start_date: u64,
) -> bool {
    &&& phone.len() > 0
    &&& items.len() > 0
    &&& days.len() > 0
    &&& slot.len() > 0
    &&& addr.len() > 0
    &&& start_date != 0
    &&& s.profiles@.contains_key(phone)
    &&& all_sub_quantities_pos(items)
    &&& all_sub_products_resolve(items, s.catalog@.len() as int)
    &&& !has_active_sub(s.subscriptions@, phone)
}

/// The record that a successful subscription creation appends.
pub open spec fn new_subscription_view(
    s: Store,
    phone: Seq<char>,
    items: Seq<SubscriptionItemInput>,
    days: Seq<Seq<char>>,
    slot: Seq<char>,
    addr: Seq<char>,
    start_date: u64,
    now: u64,
) -> SubscriptionView {
    SubscriptionView {
        id: s.subscriptions.next_subscription_id,
        user_phone_number: phone,
        items: subscription_items_of(items, s.catalog@),
        delivery_days: days,
        delivery_time_slot: slot,
        delivery_address: addr,
        start_date: start_date,
        status: SubscriptionStatus::Active,
        next_order_date: next_order_date_spec(start_date, days.len(), now) as u64,
        created_at: now,
        updated_at: now,
    }
}

/// Appending a record either introduces the active subscription of its own
/// phone number or leaves every phone's active-ness as it was.
pub proof fn lemma_has_active_push(
    subs: Seq<SubscriptionView>,
    s: SubscriptionView,
    p: Seq<char>,
)
    ensures
        has_active_sub(subs.push(s), p) <==> (has_active_sub(subs, p) || (s.status
            == SubscriptionStatus::Active && s.user_phone_number == p)),
{
    let subs2 = subs.push(s);
    if has_active_sub(subs2, p) {
        let w = choose|i: int| #[trigger] active_for(subs2, i, p);
        if w < subs.len() {
            assert(active_for(subs, w, p));
        }
    }
    if has_active_sub(subs, p) {
        let w = choose|i: int| #[trigger] active_for(subs, i, p);
        assert(active_for(subs2, w, p));
    }
    if s.status == SubscriptionStatus::Active && s.user_phone_number == p {
        assert(active_for(subs2, subs.len() as int, p));
    }
}

/// Replacing a record in place does not change the active-ness of any phone
/// number other than the record's own.
pub proof fn lemma_has_active_update_other(
    subs: Seq<SubscriptionView>,
    idx: int,
    s: SubscriptionView,
    p: Seq<char>,
)
    requires
        0 <= idx < subs.len(),
        s.user_phone_number == subs[idx].user_phone_number,
        p != subs[idx].user_phone_number,
    ensures
        has_active_sub(subs.update(idx, s), p) == has_active_sub(subs, p),
{
    let subs2 = subs.update(idx, s);
    if has_active_sub(subs2, p) {
        let w = choose|i: int| #[trigger] active_for(subs2, i, p);
        assert(active_for(subs, w, p));
    }
    if has_active_sub(subs, p) {
        let w = choose|i: int| #[trigger] active_for(subs, i, p);
        assert(active_for(subs2, w, p));
    }
}

impl Store {
    /// Opens a subscription for a user: validates the payload, freezes the
    /// current catalog price into every line, computes the first
    /// `next_order_date`, stores the record as `Active` under the next id,
    /// and marks the owner's profile. Inputs are rejected in this order:
    /// anything empty or a zero start date; unknown profile; a zero
    /// quantity; an unresolvable product id; an already active subscription.
    /// Any failure leaves the store untouched.
    #[verifier::loop_isolation(false)]
    pub fn create_subscription(
        &mut self,
        phone_number: String,
        payload: CreateSubscriptionPayload,
        now: u64,
    ) -> (r: Result<Subscription, SubscriptionError>)
        requires
            old(self).wf(),
            old(self).subscriptions@.len() < u64::MAX,
            now + NANOS_PER_DAY <= u64::MAX,
        ensures
            final(self).wf(),
            r is Err ==> *final(self) == *old(self),
            r is Ok <==> create_subscription_ok(
                *old(self),
                phone_number@,
                payload.items@,
                payload.delivery_days.deep_view(),
                payload.delivery_time_slot@,
                payload.delivery_address@,
                payload.start_date,
            ),
            r is Ok ==> {
                let stored = new_subscription_view(
                    *old(self),
                    phone_number@,
                    payload.items@,
                    payload.delivery_days.deep_view(),
                    payload.delivery_time_slot@,
                    payload.delivery_address@,
                    payload.start_date,
                    now,
                );
                &&& (r matches Ok(s) && s@ == stored)
                &&& final(self).subscriptions@ =~= old(self).subscriptions@.push(stored)
                &&& final(self).profiles@ == old(self).profiles@.insert(
                    phone_number@,
                    (UserProfileView {
                        has_active_subscription: true,
                        active_subscription_id: Some(stored.id),
                        ..old(self).profiles@[phone_number@]
                    }),
                )
                &&& final(self).catalog@ == old(self).catalog@
                &&& final(self).orders == old(self).orders
                &&& final(self).initialized == old(self).initialized
            },
            (r matches Err(SubscriptionError::UserProfileNotFound)) <==> {
                &&& phone_number@.len() > 0 && payload.items@.len() > 0
                    && payload.delivery_days@.len() > 0 && payload.delivery_time_slot@.len() > 0
                    && payload.delivery_address@.len() > 0 && payload.start_date != 0
                &&& !old(self).profiles@.contains_key(phone_number@)
            },
            (r matches Err(SubscriptionError::ProductNotFound(_))) <==> {
                &&& phone_number@.len() > 0 && payload.items@.len() > 0
                    && payload.delivery_days@.len() > 0 && payload.delivery_time_slot@.len() > 0
                    && payload.delivery_address@.len() > 0 && payload.start_date != 0
                &&& old(self).profiles@.contains_key(phone_number@)
                &&& all_sub_quantities_pos(payload.items@)
                &&& !all_sub_products_resolve(payload.items@, old(self).catalog@.len() as int)
            },
            (r matches Err(SubscriptionError::AlreadyExists)) <==> {
                &&& phone_number@.len() > 0 && payload.items@.len() > 0
                    && payload.delivery_days@.len() > 0 && payload.delivery_time_slot@.len() > 0
                    && payload.delivery_address@.len() > 0 && payload.start_date != 0
                &&& old(self).profiles@.contains_key(phone_number@)
                &&& all_sub_quantities_pos(payload.items@)
                &&& all_sub_products_resolve(payload.items@, old(self).catalog@.len() as int)
                &&& has_active_sub(old(self).subscriptions@, phone_number@)
            },
            (r matches Err(SubscriptionError::InvalidInput(_))) <==> {
                ||| phone_number@.len() == 0 || payload.items@.len() == 0
                    || payload.delivery_days@.len() == 0 || payload.delivery_time_slot@.len() == 0
                    || payload.delivery_address@.len() == 0 || payload.start_date == 0
                ||| {
                    &&& phone_number@.len() > 0 && payload.items@.len() > 0
                        && payload.delivery_days@.len() > 0 && payload.delivery_time_slot@.len()
                        > 0 && payload.delivery_address@.len() > 0 && payload.start_date != 0
                    &&& old(self).profiles@.contains_key(phone_number@)
                    &&& !all_sub_quantities_pos(payload.items@)
                }
            },
    {
        if phone_number.as_str().is_empty() || payload.items.len() == 0
            || payload.delivery_days.len() == 0 || payload.delivery_time_slot.as_str().is_empty()
            || payload.delivery_address.as_str().is_empty() || payload.start_date == 0 {
            return Err(
                SubscriptionError::InvalidInput(
                    String::from_str("All subscription fields must be filled in"),
                ),
            );
        }
        let mut user_profile = match self.profiles.get_user_profile(&phone_number) {
            Some(profile) => profile,
            None => {
                return Err(SubscriptionError::UserProfileNotFound);
            },
        };

        let n = payload.items.len();
        let mut i: usize = 0;
        while i < n
            invariant
                i <= n,
                forall|j: int| 0 <= j < i ==> (#[trigger] payload.items@[j]).quantity > 0,
            decreases n - i,
        {
            if payload.items[i].quantity == 0 {
                return Err(
                    SubscriptionError::InvalidInput(
                        String::from_str("Invalid quantity for product"),
                    ),
                );
            }
            i = i + 1;
        }

        let n_products = self.catalog.len() as u64;
        i = 0;
        while i < n
            invariant
                i <= n,
                forall|j: int|
                    0 <= j < i ==> (#[trigger] payload.items@[j]).product_id < self.catalog@.len(),
            decreases n - i,
        {
            if payload.items[i].product_id >= n_products {
                return Err(SubscriptionError::ProductNotFound(payload.items[i].product_id));
            }
            i = i + 1;
        }

        if user_profile.has_active_subscription {
            proof {
                assert(has_active_sub(self.subscriptions@, phone_number@));
            }
            return Err(SubscriptionError::AlreadyExists);
        }
        proof {
            assert(!has_active_sub(self.subscriptions@, phone_number@));
        }

        let ghost items_spec = subscription_items_of(payload.items@, self.catalog@);
        let mut sub_items: Vec<SubscriptionItem> = Vec::new();
        i = 0;
        proof {
            assert(sub_items@ =~= items_spec.take(0));
        }
        while i < n
            invariant
                i <= n,
                sub_items@ == items_spec.take(i as int),
            decreases n - i,
        {
            let inp = payload.items[i];
            let product = match self.catalog.get_product_by_id(inp.product_id) {
                Some(p) => p,
                None => {
                    proof {
                        assert(false);
                    }
                    return Err(SubscriptionError::ProductNotFound(inp.product_id));
                },
            };
            sub_items.push(
                SubscriptionItem {
                    product_id: inp.product_id,
                    quantity: inp.quantity,
                    price_per_unit_at_subscription: product.price,
                },
            );
            proof {
                assert(items_spec[i as int] == (SubscriptionItem {
                    product_id: inp.product_id,
                    quantity: inp.quantity,
                    price_per_unit_at_subscription: product@.price,
                }));
                assert(sub_items@ =~= items_spec.take(i + 1));
            }
            i = i + 1;
        }
        proof {
            assert(items_spec.take(n as int) =~= items_spec);
        }

        let next_order_date = calculate_initial_next_order_date(
            payload.start_date,
            payload.delivery_days.as_slice(),
            now,
        );
        let subscription = Subscription {
            id: 0,
            user_phone_number: phone_number.clone(),
            items: sub_items,
            delivery_days: payload.delivery_days,
            delivery_time_slot: payload.delivery_time_slot,
            delivery_address: payload.delivery_address,
            start_date: payload.start_date,
            status: SubscriptionStatus::Active,
            next_order_date,
            created_at: now,
            updated_at: now,
        };
        let ghost old_subs = self.subscriptions@;
        let stored = match self.subscriptions.add_subscription(subscription) {
            Ok(s) => s,
            Err(e) => {
                proof {
                    assert(false);
                }
                return Err(SubscriptionError::StorageError(e));
            },
        };
        let ghost stored_view = stored@;
        user_profile.has_active_subscription = true;
        user_profile.active_subscription_id = Some(stored.id);
        self.profiles.update_user_profile(user_profile);
        proof {
            let subs2 = self.subscriptions@;
            assert(subs2 =~= old_subs.push(stored_view));
            assert forall|a: int, b: int|
                #![trigger subs2[a], subs2[b]]
                active_for(subs2, a, subs2[b].user_phone_number) && active_for(
                    subs2,
                    b,
                    subs2[b].user_phone_number,
                ) implies a == b by {
                let ph = subs2[b].user_phone_number;
                if a < old_subs.len() && b < old_subs.len() {
                    assert(active_for(old_subs, a, old_subs[b].user_phone_number));
                    assert(active_for(old_subs, b, old_subs[b].user_phone_number));
                } else if a < old_subs.len() {
                    assert(ph == phone_number@);
                    assert(active_for(old_subs, a, phone_number@));
                    assert(has_active_sub(old_subs, phone_number@));
                } else if b < old_subs.len() {
                    assert(active_for(old_subs, b, ph));
                    assert(stored_view.user_phone_number == ph);
                    assert(has_active_sub(old_subs, phone_number@));
                }
            }
            assert forall|phone2: Seq<char>|
                final(self).profiles@.dom().contains(phone2) implies profile_flags_ok(
                #[trigger] final(self).profiles@[phone2],
                subs2,
            ) by {
                lemma_has_active_push(old_subs, stored_view, phone2);
                if phone2 != phone_number@ {
                    assert(final(self).profiles@[phone2] == old(self).profiles@[phone2]);
                    assert(profile_flags_ok(old(self).profiles@[phone2], old_subs));
                    match old(self).profiles@[phone2].active_subscription_id {
                        Some(aid) => {
                            assert(active_for(old_subs, aid as int, phone2));
                            assert(active_for(subs2, aid as int, phone2));
                        },
                        None => {
                        },
                    }
                } else {
                    assert(active_for(subs2, stored_view.id as int, phone2));
                }
            }
        }
        Ok(stored)
    }

    /// Every subscription of this user, in id order; an empty phone number
    /// is rejected.
    pub fn get_my_subscriptions(&self, phone_number: String) -> (r: Result<
        Vec<Subscription>,
        SubscriptionError,
    >)
        ensures
            phone_number@.len() == 0 ==> (r matches Err(SubscriptionError::InvalidInput(_))),
            phone_number@.len() > 0 ==> (r matches Ok(v) && v.deep_view()
                == self.subscriptions@.filter(
                |s: SubscriptionView| s.user_phone_number == phone_number@,
            )),
    {
        if phone_number.as_str().is_empty() {
            return Err(
                SubscriptionError::InvalidInput(String::from_str("Phone number cannot be empty")),
            );
        }
        Ok(self.subscriptions.get_subscriptions_by_phone(phone_number.as_str()))
    }

    /// Returns the subscription only to its owner: an unknown id is
    /// `SubscriptionNotFound` and a foreign requestor is `AccessDenied`.
    pub fn get_subscription_details(&self, id: u64, requestor_phone_number: String) -> (r: Result<
        Subscription,
        SubscriptionError,
    >)
        ensures
            id >= self.subscriptions@.len() ==> (r matches Err(
                SubscriptionError::SubscriptionNotFound,
            )),
            id < self.subscriptions@.len() && self.subscriptions@[id as int].user_phone_number
                != requestor_phone_number@ ==> (r matches Err(SubscriptionError::AccessDenied)),
            id < self.subscriptions@.len() && self.subscriptions@[id as int].user_phone_number
                == requestor_phone_number@ ==> (r matches Ok(s) && s@ == self.subscriptions@[
                id as int
            ]),
    {
        match self.subscriptions.get_subscription(id) {
            Some(subscription) => {
                if subscription.user_phone_number == requestor_phone_number {
                    Ok(subscription)
                } else {
                    Err(SubscriptionError::AccessDenied)
                }
            },
            None => Err(SubscriptionError::SubscriptionNotFound),
        }
    }

    /// Every subscription in the store, for the administrative panel.
    pub fn get_all_subscriptions(&self) -> (r: Vec<Subscription>)
        ensures
            r.deep_view() == self.subscriptions@,
    {
        self.subscriptions.get_all_subscriptions()
    }
}

/// Replacing a record with one of the same phone number and the same
/// activity does not change the active-ness of any phone number.
pub proof fn lemma_has_active_update_same_activity(
    subs: Seq<SubscriptionView>,
    idx: int,
    s: SubscriptionView,
    p: Seq<char>,
)
    requires
        0 <= idx < subs.len(),
        s.user_phone_number == subs[idx].user_phone_number,
        (s.status == SubscriptionStatus::Active) <==> (subs[idx].status
            == SubscriptionStatus::Active),
    ensures
        has_active_sub(subs.update(idx, s), p) == has_active_sub(subs, p),
{
    let subs2 = subs.update(idx, s);
    if has_active_sub(subs2, p) {
        let w = choose|i: int| #[trigger] active_for(subs2, i, p);
        assert(active_for(subs, w, p));
    }
    if has_active_sub(subs, p) {
        let w = choose|i: int| #[trigger] active_for(subs, i, p);
        assert(active_for(subs2, w, p));
    }
}

impl Store {
    /// Pauses the owner's active subscription: `Active` becomes `Paused`,
    /// `updated_at` is stamped, and the owner's profile drops its active
    /// flag. An unknown id is `SubscriptionNotFound`, a foreign requestor
    /// `AccessDenied`, a missing profile `UserProfileNotFound`, and any
    /// status but `Active` leaves everything unchanged with `UpdateFailed`.
    pub fn pause_subscription(&mut self, id: u64, requestor_phone_number: String, now: u64) -> (r:
        Result<Subscription, SubscriptionError>)
        requires
            old(self).wf(),
        ensures
            final(self).wf(),
            r is Err ==> *final(self) == *old(self),
            (r matches Err(SubscriptionError::SubscriptionNotFound)) <==> id >= old(
                self,
            ).subscriptions@.len(),
            (r matches Err(SubscriptionError::AccessDenied)) <==> id < old(
                self,
            ).subscriptions@.len() && old(self).subscriptions@[id as int].user_phone_number
                != requestor_phone_number@,
            (r matches Err(SubscriptionError::UserProfileNotFound)) <==> {
                &&& id < old(self).subscriptions@.len()
                &&& old(self).subscriptions@[id as int].user_phone_number
                    == requestor_phone_number@
                &&& !old(self).profiles@.contains_key(requestor_phone_number@)
            },
            (r matches Err(SubscriptionError::UpdateFailed(_))) <==> {
                &&& id < old(self).subscriptions@.len()
                &&& old(self).subscriptions@[id as int].user_phone_number
                    == requestor_phone_number@
                &&& old(self).profiles@.contains_key(requestor_phone_number@)
                &&& old(self).subscriptions@[id as int].status != SubscriptionStatus::Active
            },
            r is Ok <==> {
                &&& id < old(self).subscriptions@.len()
                &&& old(self).subscriptions@[id as int].user_phone_number
                    == requestor_phone_number@
                &&& old(self).profiles@.contains_key(requestor_phone_number@)
                &&& old(self).subscriptions@[id as int].status == SubscriptionStatus::Active
            },
            r is Ok ==> {
                let updated = SubscriptionView {
                    status: SubscriptionStatus::Paused,
                    updated_at: now,
                    ..old(self).subscriptions@[id as int]
                };
                &&& (r matches Ok(s) && s@ == updated)
                &&& final(self).subscriptions@ =~= old(self).subscriptions@.update(
                    id as int,
                    updated,
                )
                &&& final(self).profiles@ == old(self).profiles@.insert(
                    requestor_phone_number@,
                    (UserProfileView {
                        has_active_subscription: false,
                        active_subscription_id: None,
                        ..old(self).profiles@[requestor_phone_number@]
                    }),
                )
                &&& final(self).catalog@ == old(self).catalog@
                &&& final(self).orders == old(self).orders
                &&& final(self).initialized == old(self).initialized
            },
    {
        let subscription = match self.subscriptions.get_subscription(id) {
            Some(s) => s,
            None => {
                return Err(SubscriptionError::SubscriptionNotFound);
            },
        };
        if subscription.user_phone_number != requestor_phone_number {
            return Err(SubscriptionError::AccessDenied);
        }
        let mut profile = match self.profiles.get_user_profile(&requestor_phone_number) {
            Some(p) => p,
            None => {
                return Err(SubscriptionError::UserProfileNotFound);
            },
        };
        if !matches!(subscription.status, SubscriptionStatus::Active) {
            return Err(
                SubscriptionError::UpdateFailed(
                    String::from_str("Only an active subscription can be paused"),
                ),
            );
        }
        let ghost old_subs = self.subscriptions@;
        let updated = match self.subscriptions.update_subscription_status(
            id,
            SubscriptionStatus::Paused,
            now,
        ) {
            Ok(s) => s,
            Err(e) => {
                proof {
                    assert(false);
                }
                return Err(SubscriptionError::StorageError(e));
            },
        };
        profile.has_active_subscription = false;
        profile.active_subscription_id = None;
        self.profiles.update_user_profile(profile);
        proof {
            let ph = requestor_phone_number@;
            let subs2 = self.subscriptions@;
            assert forall|a: int, b: int|
                #![trigger subs2[a], subs2[b]]
                active_for(subs2, a, subs2[b].user_phone_number) && active_for(
                    subs2,
                    b,
                    subs2[b].user_phone_number,
                ) implies a == b by {
                assert(a != id as int && b != id as int);
                assert(active_for(old_subs, a, old_subs[b].user_phone_number));
                assert(active_for(old_subs, b, old_subs[b].user_phone_number));
            }
            assert forall|phone2: Seq<char>|
                final(self).profiles@.dom().contains(phone2) implies profile_flags_ok(
                #[trigger] final(self).profiles@[phone2],
                subs2,
            ) by {
                if phone2 != ph {
                    assert(final(self).profiles@[phone2] == old(self).profiles@[phone2]);
                    assert(profile_flags_ok(old(self).profiles@[phone2], old_subs));
                    lemma_has_active_update_other(
                        old_subs,
                        id as int,
                        subs2[id as int],
                        phone2,
                    );
                    match old(self).profiles@[phone2].active_subscription_id {
                        Some(aid) => {
                            assert(active_for(old_subs, aid as int, phone2));
                            assert(aid != id);
                            assert(active_for(subs2, aid as int, phone2));
                        },
                        None => {
                        },
                    }
                } else {
                    assert(!final(self).profiles@[phone2].has_active_subscription);
                    if has_active_sub(subs2, ph) {
                        let w = choose|i: int| #[trigger] active_for(subs2, i, ph);
                        assert(w != id as int);
                        assert(active_for(old_subs, w, ph));
                        assert(active_for(old_subs, id as int, ph));
                        assert(active_for(old_subs, w, old_subs[id as int].user_phone_number));
                        assert(active_for(
                            old_subs,
                            id as int,
                            old_subs[id as int].user_phone_number,
                        ));
                        assert(false);
                    }
                }
            }
        }
        Ok(updated)
    }

    /// Resumes the owner's paused subscription: `Paused` becomes `Active`,
    /// `updated_at` is stamped, and the owner's profile records it as the
    /// active subscription. Beyond the checks of `pause_subscription`, a
    /// status other than `Paused` is `UpdateFailed` (a cancelled record
    /// cannot come back), and a user who already holds an active
    /// subscription gets `AlreadyExists`.
    pub fn resume_subscription(&mut self, id: u64, requestor_phone_number: String, now: u64) -> (r:
        Result<Subscription, SubscriptionError>)
        requires
            old(self).wf(),
        ensures
            final(self).wf(),
            r is Err ==> *final(self) == *old(self),
            (r matches Err(SubscriptionError::SubscriptionNotFound)) <==> id >= old(
                self,
            ).subscriptions@.len(),
            (r matches Err(SubscriptionError::AccessDenied)) <==> id < old(
                self,
            ).subscriptions@.len() && old(self).subscriptions@[id as int].user_phone_number
                != requestor_phone_number@,
            (r matches Err(SubscriptionError::UserProfileNotFound)) <==> {
                &&& id < old(self).subscriptions@.len()
                &&& old(self).subscriptions@[id as int].user_phone_number
                    == requestor_phone_number@
                &&& !old(self).profiles@.contains_key(requestor_phone_number@)
            },
            (r matches Err(SubscriptionError::UpdateFailed(_))) <==> {
                &&& id < old(self).subscriptions@.len()
                &&& old(self).subscriptions@[id as int].user_phone_number
                    == requestor_phone_number@
                &&& old(self).profiles@.contains_key(requestor_phone_number@)
                &&& old(self).subscriptions@[id as int].status != SubscriptionStatus::Paused
            },
            (r matches Err(SubscriptionError::AlreadyExists)) <==> {
                &&& id < old(self).subscriptions@.len()
                &&& old(self).subscriptions@[id as int].user_phone_number
                    == requestor_phone_number@
                &&& old(self).profiles@.contains_key(requestor_phone_number@)
                &&& old(self).subscriptions@[id as int].status == SubscriptionStatus::Paused
                &&& has_active_sub(old(self).subscriptions@, requestor_phone_number@)
            },
            r is Ok <==> {
                &&& id < old(self).subscriptions@.len()
                &&& old(self).subscriptions@[id as int].user_phone_number
                    == requestor_phone_number@
                &&& old(self).profiles@.contains_key(requestor_phone_number@)
                &&& old(self).subscriptions@[id as int].status == SubscriptionStatus::Paused
                &&& !has_active_sub(old(self).subscriptions@, requestor_phone_number@)
            },
            r is Ok ==> {
                let updated = SubscriptionView {
                    status: SubscriptionStatus::Active,
                    updated_at: now,
                    ..old(self).subscriptions@[id as int]
                };
                &&& (r matches Ok(s) && s@ == updated)
                &&& final(self).subscriptions@ =~= old(self).subscriptions@.update(
                    id as int,
                    updated,
                )
                &&& final(self).profiles@ == old(self).profiles@.insert(
                    requestor_phone_number@,
                    (UserProfileView {
                        has_active_subscription: true,
                        active_subscription_id: Some(id),
                        ..old(self).profiles@[requestor_phone_number@]
                    }),
                )
                &&& final(self).catalog@ == old(self).catalog@
                &&& final(self).orders == old(self).orders
                &&& final(self).initialized == old(self).initialized
            },
    {
        let subscription = match self.subscriptions.get_subscription(id) {
            Some(s) => s,
            None => {
                return Err(SubscriptionError::SubscriptionNotFound);
            },
        };
        if subscription.user_phone_number != requestor_phone_number {
            return Err(SubscriptionError::AccessDenied);
        }
        let mut profile = match self.profiles.get_user_profile(&requestor_phone_number) {
            Some(p) => p,
            None => {
                return Err(SubscriptionError::UserProfileNotFound);
            },
        };
        if !matches!(subscription.status, SubscriptionStatus::Paused) {
            return Err(
                SubscriptionError::UpdateFailed(
                    String::from_str("Only a paused subscription can be resumed"),
                ),
            );
        }
        if profile.has_active_subscription {
            proof {
                assert(has_active_sub(self.subscriptions@, requestor_phone_number@));
            }
            return Err(SubscriptionError::AlreadyExists);
        }
        proof {
            assert(!has_active_sub(self.subscriptions@, requestor_phone_number@));
        }
        let ghost old_subs = self.subscriptions@;
        let updated = match self.subscriptions.update_subscription_status(
            id,
            SubscriptionStatus::Active,
            now,
        ) {
            Ok(s) => s,
            Err(e) => {
                proof {
                    assert(false);
                }
                return Err(SubscriptionError::StorageError(e));
            },
        };
        profile.has_active_subscription = true;
        profile.active_subscription_id = Some(id);
        self.profiles.update_user_profile(profile);
        proof {
            let ph = requestor_phone_number@;
            let subs2 = self.subscriptions@;
            assert forall|a: int, b: int|
                #![trigger subs2[a], subs2[b]]
                active_for(subs2, a, subs2[b].user_phone_number) && active_for(
                    subs2,
                    b,
                    subs2[b].user_phone_number,
                ) implies a == b by {
                if a != id as int && b != id as int {
                    assert(active_for(old_subs, a, old_subs[b].user_phone_number));
                    assert(active_for(old_subs, b, old_subs[b].user_phone_number));
                } else if a == id as int && b != id as int {
                    assert(active_for(old_subs, b, ph));
                    assert(has_active_sub(old_subs, ph));
                } else if b == id as int && a != id as int {
                    assert(subs2[b].user_phone_number == ph);
                    assert(active_for(old_subs, a, ph));
                    assert(has_active_sub(old_subs, ph));
                }
            }
            assert forall|phone2: Seq<char>|
                final(self).profiles@.dom().contains(phone2) implies profile_flags_ok(
                #[trigger] final(self).profiles@[phone2],
                subs2,
            ) by {
                if phone2 != ph {
                    assert(final(self).profiles@[phone2] == old(self).profiles@[phone2]);
                    assert(profile_flags_ok(old(self).profiles@[phone2], old_subs));
                    lemma_has_active_update_other(
                        old_subs,
                        id as int,
                        subs2[id as int],
                        phone2,
                    );
                    match old(self).profiles@[phone2].active_subscription_id {
                        Some(aid) => {
                            assert(active_for(old_subs, aid as int, phone2));
                            assert(aid != id);
                            assert(active_for(subs2, aid as int, phone2));
                        },
                        None => {
                        },
                    }
                } else {
                    assert(active_for(subs2, id as int, ph));
                }
            }
        }
        Ok(updated)
    }

    /// Cancels the owner's subscription, from `Active` or `Paused`; the
    /// record stays queryable but `Cancelled` is terminal for the owner. The
    /// owner's profile drops its active flag when the cancelled record was
    /// the active one. A record already cancelled is `UpdateFailed`.
    pub fn cancel_subscription(&mut self, id: u64, requestor_phone_number: String, now: u64) -> (r:
        Result<Subscription, SubscriptionError>)
        requires
            old(self).wf(),
        ensures
            final(self).wf(),
            r is Err ==> *final(self) == *old(self),
            (r matches Err(SubscriptionError::SubscriptionNotFound)) <==> id >= old(
                self,
            ).subscriptions@.len(),
            (r matches Err(SubscriptionError::AccessDenied)) <==> id < old(
                self,
            ).subscriptions@.len() && old(self).subscriptions@[id as int].user_phone_number
                != requestor_phone_number@,
            (r matches Err(SubscriptionError::UserProfileNotFound)) <==> {
                &&& id < old(self).subscriptions@.len()
                &&& old(self).subscriptions@[id as int].user_phone_number
                    == requestor_phone_number@
                &&& !old(self).profiles@.contains_key(requestor_phone_number@)
            },
            (r matches Err(SubscriptionError::UpdateFailed(_))) <==> {
                &&& id < old(self).subscriptions@.len()
                &&& old(self).subscriptions@[id as int].user_phone_number
                    == requestor_phone_number@
                &&& old(self).profiles@.contains_key(requestor_phone_number@)
                &&& old(self).subscriptions@[id as int].status == SubscriptionStatus::Cancelled
            },
            r is Ok <==> {
                &&& id < old(self).subscriptions@.len()
                &&& old(self).subscriptions@[id as int].user_phone_number
                    == requestor_phone_number@
                &&& old(self).profiles@.contains_key(requestor_phone_number@)
                &&& old(self).subscriptions@[id as int].status != SubscriptionStatus::Cancelled
            },
            r is Ok ==> {
                let updated = SubscriptionView {
                    status: SubscriptionStatus::Cancelled,
                    updated_at: now,
                    ..old(self).subscriptions@[id as int]
                };
                &&& (r matches Ok(s) && s@ == updated)
                &&& final(self).subscriptions@ =~= old(self).subscriptions@.update(
                    id as int,
                    updated,
                )
                &&& (old(self).subscriptions@[id as int].status == SubscriptionStatus::Active
                    ==> final(self).profiles@ == old(self).profiles@.insert(
                    requestor_phone_number@,
                    (UserProfileView {
                        has_active_subscription: false,
                        active_subscription_id: None,
                        ..old(self).profiles@[requestor_phone_number@]
                    }),
                ))
                &&& (old(self).subscriptions@[id as int].status == SubscriptionStatus::Paused
                    ==> final(self).profiles@ == old(self).profiles@)
                &&& final(self).catalog@ == old(self).catalog@
                &&& final(self).orders == old(self).orders
                &&& final(self).initialized == old(self).initialized
            },
    {
        let subscription = match self.subscriptions.get_subscription(id) {
            Some(s) => s,
            None => {
                return Err(SubscriptionError::SubscriptionNotFound);
            },
        };
        if subscription.user_phone_number != requestor_phone_number {
            return Err(SubscriptionError::AccessDenied);
        }
        let mut profile = match self.profiles.get_user_profile(&requestor_phone_number) {
            Some(p) => p,
            None => {
                return Err(SubscriptionError::UserProfileNotFound);
            },
        };
        if matches!(subscription.status, SubscriptionStatus::Cancelled) {
            return Err(
                SubscriptionError::UpdateFailed(
                    String::from_str("A cancelled subscription cannot change status"),
                ),
            );
        }
        let was_active = matches!(subscription.status, SubscriptionStatus::Active);
        let ghost old_subs = self.subscriptions@;
        let updated = match self.subscriptions.update_subscription_status(
            id,
            SubscriptionStatus::Cancelled,
            now,
        ) {
            Ok(s) => s,
            Err(e) => {
                proof {
                    assert(false);
                }
                return Err(SubscriptionError::StorageError(e));
            },
        };
        if was_active {
            profile.has_active_subscription = false;
            profile.active_subscription_id = None;
            self.profiles.update_user_profile(profile);
        }
        proof {
            let ph = requestor_phone_number@;
            let subs2 = self.subscriptions@;
            assert forall|a: int, b: int|
                #![trigger subs2[a], subs2[b]]
                active_for(subs2, a, subs2[b].user_phone_number) && active_for(
                    subs2,
                    b,
                    subs2[b].user_phone_number,
                ) implies a == b by {
                assert(a != id as int && b != id as int);
                assert(active_for(old_subs, a, old_subs[b].user_phone_number));
                assert(active_for(old_subs, b, old_subs[b].user_phone_number));
            }
            assert forall|phone2: Seq<char>|
                final(self).profiles@.dom().contains(phone2) implies profile_flags_ok(
                #[trigger] final(self).profiles@[phone2],
                subs2,
            ) by {
                if phone2 != ph {
                    assert(final(self).profiles@[phone2] == old(self).profiles@[phone2]);
                    assert(profile_flags_ok(old(self).profiles@[phone2], old_subs));
                    lemma_has_active_update_other(
                        old_subs,
                        id as int,
                        subs2[id as int],
                        phone2,
                    );
                    match old(self).profiles@[phone2].active_subscription_id {
                        Some(aid) => {
                            assert(active_for(old_subs, aid as int, phone2));
                            assert(aid != id);
                            assert(active_for(subs2, aid as int, phone2));
                        },
                        None => {
                        },
                    }
                } else {
                    if was_active {
                        assert(!final(self).profiles@[phone2].has_active_subscription);
                        if has_active_sub(subs2, ph) {
                            let w = choose|i: int| #[trigger] active_for(subs2, i, ph);
                            assert(w != id as int);
                            assert(active_for(old_subs, w, ph));
                            assert(active_for(old_subs, id as int, ph));
                            assert(active_for(old_subs, w, old_subs[id as int].user_phone_number));
                            assert(active_for(
                                old_subs,
                                id as int,
                                old_subs[id as int].user_phone_number,
                            ));
                            assert(false);
                        }
                    } else {
                        assert(final(self).profiles@[phone2] == old(self).profiles@[phone2]);
                        assert(profile_flags_ok(old(self).profiles@[phone2], old_subs));
                        lemma_has_active_update_same_activity(
                            old_subs,
                            id as int,
                            subs2[id as int],
                            phone2,
                        );
                        match old(self).profiles@[phone2].active_subscription_id {
                            Some(aid) => {
                                assert(active_for(old_subs, aid as int, phone2));
                                assert(aid != id);
                                assert(active_for(subs2, aid as int, phone2));
                            },
                            None => {
                            },
                        }
                    }
                }
            }
        }
        Ok(updated)
    }
}

/// What a caller may change on an existing subscription; absent fields are
/// left untouched.
pub struct SubscriptionUpdatePayload {
    pub items: Option<Vec<SubscriptionItemInput>>,
    pub delivery_days: Option<Vec<String>>,
    pub delivery_time_slot: Option<String>,
    pub delivery_address: Option<String>,
}

impl SubscriptionUpdatePayload {
    /// No field is supplied.
    pub open spec fn is_empty_patch(self) -> bool {
        &&& self.items is None
        &&& self.delivery_days is None
        &&& self.delivery_time_slot is None
        &&& self.delivery_address is None
    }

    /// A supplied items list is empty or has a zero quantity.
    pub open spec fn items_malformed(self) -> bool {
        self.items matches Some(v) && (v@.len() == 0 || !all_sub_quantities_pos(v@))
    }

    /// A supplied items list names a product outside the catalog.
    pub open spec fn items_unresolved(self, n_products: int) -> bool {
        self.items matches Some(v) && !all_sub_products_resolve(v@, n_products)
    }

    /// A supplied delivery-day list, time slot or address is empty.
    pub open spec fn fields_malformed(self) -> bool {
        ||| self.delivery_days matches Some(d) && d@.len() == 0
        ||| self.delivery_time_slot matches Some(s) && s@.len() == 0
        ||| self.delivery_address matches Some(a) && a@.len() == 0
    }
}

/// The record as a patch leaves it: each supplied field replaces the old
/// one (items are re-priced from the catalog), `updated_at` is stamped, and
/// everything else is kept.
pub open spec fn patched_subscription_view(
    old_sub: SubscriptionView,
    p: SubscriptionUpdatePayload,
    products: Seq<crate::models::ProductView>,
    now: u64,
) -> SubscriptionView {
    SubscriptionView {
        items: match p.items {
            Some(v) => subscription_items_of(v@, products),
            None => old_sub.items,
        },
        delivery_days: match p.delivery_days {
            Some(d) => d.deep_view(),
            None => old_sub.delivery_days,
        },
        delivery_time_slot: match p.delivery_time_slot {
            Some(s) => s@,
            None => old_sub.delivery_time_slot,
        },
        delivery_address: match p.delivery_address {
            Some(a) => a@,
            None => old_sub.delivery_address,
        },
        updated_at: now,
        ..old_sub
    }
}

impl Store {
    /// Applies a patch to a subscription: each supplied field is validated
    /// on its own (items are re-priced at current catalog prices) and
    /// replaces the stored one; absent fields stay. Only the owner may
    /// patch, and not once the record is cancelled, unless the caller is
    /// privileged. An empty patch is a no-op returning the unchanged record.
    #[verifier::loop_isolation(false)]
    pub fn update_subscription_details(
        &mut self,
        id: u64,
        requestor_phone_number: String,
        payload: SubscriptionUpdatePayload,
        now: u64,
        privileged: bool,
    ) -> (r: Result<Subscription, SubscriptionError>)
        requires
            old(self).wf(),
        ensures
            final(self).wf(),
            r is Err ==> *final(self) == *old(self),
            (r matches Err(SubscriptionError::SubscriptionNotFound)) <==> id >= old(
                self,
            ).subscriptions@.len(),
            (r matches Err(SubscriptionError::AccessDenied)) <==> {
                &&& id < old(self).subscriptions@.len()
                &&& !privileged
                &&& old(self).subscriptions@[id as int].user_phone_number
                    != requestor_phone_number@
            },
            (r matches Err(SubscriptionError::UpdateFailed(_))) <==> {
                &&& id < old(self).subscriptions@.len()
                &&& (privileged || old(self).subscriptions@[id as int].user_phone_number
                    == requestor_phone_number@)
                &&& !privileged
                &&& old(self).subscriptions@[id as int].status == SubscriptionStatus::Cancelled
            },
            (r matches Err(SubscriptionError::InvalidInput(_))) <==> {
                &&& id < old(self).subscriptions@.len()
                &&& (privileged || old(self).subscriptions@[id as int].user_phone_number
                    == requestor_phone_number@)
                &&& (privileged || old(self).subscriptions@[id as int].status
                    != SubscriptionStatus::Cancelled)
                &&& {
                    ||| payload.items_malformed()
                    ||| (!payload.items_malformed() && !payload.items_unresolved(
                        old(self).catalog@.len() as int,
                    ) && payload.fields_malformed())
                }
            },
            (r matches Err(SubscriptionError::ProductNotFound(_))) <==> {
                &&& id < old(self).subscriptions@.len()
                &&& (privileged || old(self).subscriptions@[id as int].user_phone_number
                    == requestor_phone_number@)
                &&& (privileged || old(self).subscriptions@[id as int].status
                    != SubscriptionStatus::Cancelled)
                &&& !payload.items_malformed()
                &&& payload.items_unresolved(old(self).catalog@.len() as int)
            },
            r is Ok <==> {
                &&& id < old(self).subscriptions@.len()
                &&& (privileged || old(self).subscriptions@[id as int].user_phone_number
                    == requestor_phone_number@)
                &&& (privileged || old(self).subscriptions@[id as int].status
                    != SubscriptionStatus::Cancelled)
                &&& !payload.items_malformed()
                &&& !payload.items_unresolved(old(self).catalog@.len() as int)
                &&& !payload.fields_malformed()
            },
            r is Ok && payload.is_empty_patch() ==> *final(self) == *old(self) && (r matches Ok(s)
                && s@ == old(self).subscriptions@[id as int]),
            r is Ok && !payload.is_empty_patch() ==> {
                let patched = patched_subscription_view(
                    old(self).subscriptions@[id as int],
                    payload,
                    old(self).catalog@,
                    now,
                );
                &&& (r matches Ok(s) && s@ == patched)
                &&& final(self).subscriptions@ =~= old(self).subscriptions@.update(
                    id as int,
                    patched,
                )
                &&& final(self).profiles@ == old(self).profiles@
                &&& final(self).catalog@ == old(self).catalog@
                &&& final(self).orders == old(self).orders
                &&& final(self).initialized == old(self).initialized
            },
    {
        let existing = match self.subscriptions.get_subscription(id) {
            Some(s) => s,
            None => {
                return Err(SubscriptionError::SubscriptionNotFound);
            },
        };
        if !privileged && existing.user_phone_number != requestor_phone_number {
            return Err(SubscriptionError::AccessDenied);
        }
        if !privileged && matches!(existing.status, SubscriptionStatus::Cancelled) {
            return Err(
                SubscriptionError::UpdateFailed(
                    String::from_str("A cancelled subscription cannot be updated"),
                ),
            );
        }

        let mut record = existing;
        let mut any_field = false;

        match &payload.items {
            Some(new_items) => {
                any_field = true;
                let n = new_items.len();
                if n == 0 {
                    return Err(
                        SubscriptionError::InvalidInput(
                            String::from_str("Subscription items cannot be empty"),
                        ),
                    );
                }
                let mut i: usize = 0;
                while i < n
                    invariant
                        i <= n,
                        forall|j: int| 0 <= j < i ==> (#[trigger] new_items@[j]).quantity > 0,
                    decreases n - i,
                {
                    if new_items[i].quantity == 0 {
                        return Err(
                            SubscriptionError::InvalidInput(
                                String::from_str("Invalid quantity for product"),
                            ),
                        );
                    }
                    i = i + 1;
                }
                let n_products = self.catalog.len() as u64;
                i = 0;
                while i < n
                    invariant
                        i <= n,
                        forall|j: int|
                            0 <= j < i ==> (#[trigger] new_items@[j]).product_id
                                < self.catalog@.len(),
                    decreases n - i,
                {
                    if new_items[i].product_id >= n_products {
                        return Err(SubscriptionError::ProductNotFound(new_items[i].product_id));
                    }
                    i = i + 1;
                }
                let ghost items_spec = subscription_items_of(new_items@, self.catalog@);
                let mut built: Vec<SubscriptionItem> = Vec::new();
                i = 0;
                proof {
                    assert(built@ =~= items_spec.take(0));
                }
                while i < n
                    invariant
                        i <= n,
                        built@ == items_spec.take(i as int),
                    decreases n - i,
                {
                    let inp = new_items[i];
                    let product = match self.catalog.get_product_by_id(inp.product_id) {
                        Some(p) => p,
                        None => {
                            proof {
                                assert(false);
                            }
                            return Err(SubscriptionError::ProductNotFound(inp.product_id));
                        },
                    };
                    built.push(
                        SubscriptionItem {
                            product_id: inp.product_id,
                            quantity: inp.quantity,
                            price_per_unit_at_subscription: product.price,
                        },
                    );
                    proof {
                        assert(items_spec[i as int] == (SubscriptionItem {
                            product_id: inp.product_id,
                            quantity: inp.quantity,
                            price_per_unit_at_subscription: product@.price,
                        }));
                        assert(built@ =~= items_spec.take(i + 1));
                    }
                    i = i + 1;
                }
                proof {
                    assert(items_spec.take(n as int) =~= items_spec);
                }
                record.items = built;
            },
            None => {},
        }

        match payload.delivery_days {
            Some(days) => {
                any_field = true;
                if days.len() == 0 {
                    return Err(
                        SubscriptionError::InvalidInput(
                            String::from_str("Delivery days cannot be empty"),
                        ),
                    );
                }
                record.delivery_days = days;
            },
            None => {},
        }
        match payload.delivery_time_slot {
            Some(slot) => {
                any_field = true;
                if slot.as_str().is_empty() {
                    return Err(
                        SubscriptionError::InvalidInput(
                            String::from_str("Delivery time slot cannot be empty"),
                        ),
                    );
                }
                record.delivery_time_slot = slot;
            },
            None => {},
        }
        match payload.delivery_address {
            Some(addr) => {
                any_field = true;
                if addr.as_str().is_empty() {
                    return Err(
                        SubscriptionError::InvalidInput(
                            String::from_str("Delivery address cannot be empty"),
                        ),
                    );
                }
                record.delivery_address = addr;
            },
            None => {},
        }

        if !any_field {
            return Ok(record);
        }

        let ghost old_subs = self.subscriptions@;
        let updated = match self.subscriptions.update_subscription(id, record, now) {
            Ok(s) => s,
            Err(e) => {
                proof {
                    assert(false);
                }
                return Err(SubscriptionError::StorageError(e));
            },
        };
        proof {
            let subs2 = self.subscriptions@;
            assert forall|a: int, b: int|
                #![trigger subs2[a], subs2[b]]
                active_for(subs2, a, subs2[b].user_phone_number) && active_for(
                    subs2,
                    b,
                    subs2[b].user_phone_number,
                ) implies a == b by {
                assert(active_for(old_subs, a, old_subs[b].user_phone_number));
                assert(active_for(old_subs, b, old_subs[b].user_phone_number));
            }
            assert forall|phone2: Seq<char>|
                final(self).profiles@.dom().contains(phone2) implies profile_flags_ok(
                #[trigger] final(self).profiles@[phone2],
                subs2,
            ) by {
                assert(profile_flags_ok(old(self).profiles@[phone2], old_subs));
                lemma_has_active_update_same_activity(old_subs, id as int, subs2[id as int], phone2);
                match old(self).profiles@[phone2].active_subscription_id {
                    Some(aid) => {
                        assert(active_for(old_subs, aid as int, phone2));
                        assert(active_for(subs2, aid as int, phone2));
                    },
                    None => {},
                }
            }
        }
        Ok(updated)
    }

    /// Administrative status override: sets any status on an existing
    /// subscription and keeps the owner's profile flags truthful. Setting
    /// `Active` while another of the owner's subscriptions is already active
    /// is refused with `AlreadyExists`, since no user may hold two.
    pub fn update_subscription_status_admin(
        &mut self,
        id: u64,
        new_status: SubscriptionStatus,
        now: u64,
    ) -> (r: Result<Subscription, SubscriptionError>)
        requires
            old(self).wf(),
        ensures
            final(self).wf(),
            r is Err ==> *final(self) == *old(self),
            (r matches Err(SubscriptionError::SubscriptionNotFound)) <==> id >= old(
                self,
            ).subscriptions@.len(),
            (r matches Err(SubscriptionError::AlreadyExists)) <==> {
                &&& id < old(self).subscriptions@.len()
                &&& new_status == SubscriptionStatus::Active
                &&& exists|j: int|
                    {
                        &&& #[trigger] active_for(
                            old(self).subscriptions@,
                            j,
                            old(self).subscriptions@[id as int].user_phone_number,
                        )
                        &&& j != id as int
                    }
            },
            r is Ok <==> {
                &&& id < old(self).subscriptions@.len()
                &&& !(new_status == SubscriptionStatus::Active && exists|j: int|
                    {
                        &&& #[trigger] active_for(
                            old(self).subscriptions@,
                            j,
                            old(self).subscriptions@[id as int].user_phone_number,
                        )
                        &&& j != id as int
                    })
            },
            r is Ok ==> {
                let ph = old(self).subscriptions@[id as int].user_phone_number;
                let updated = SubscriptionView {
                    status: new_status,
                    updated_at: now,
                    ..old(self).subscriptions@[id as int]
                };
                &&& (r matches Ok(s) && s@ == updated)
                &&& final(self).subscriptions@ =~= old(self).subscriptions@.update(
                    id as int,
                    updated,
                )
                &&& final(self).catalog@ == old(self).catalog@
                &&& final(self).orders == old(self).orders
                &&& final(self).initialized == old(self).initialized
                &&& (!old(self).profiles@.contains_key(ph) ==> final(self).profiles@ == old(
                    self,
                ).profiles@)
                &&& (old(self).profiles@.contains_key(ph) && new_status
                    == SubscriptionStatus::Active ==> final(self).profiles@ == old(
                    self,
                ).profiles@.insert(
                    ph,
                    (UserProfileView {
                        has_active_subscription: true,
                        active_subscription_id: Some(id),
                        ..old(self).profiles@[ph]
                    }),
                ))
                &&& (old(self).profiles@.contains_key(ph) && new_status
                    != SubscriptionStatus::Active && old(self).profiles@[ph].active_subscription_id
                    == Some(id) ==> final(self).profiles@ == old(self).profiles@.insert(
                    ph,
                    (UserProfileView {
                        has_active_subscription: false,
                        active_subscription_id: None,
                        ..old(self).profiles@[ph]
                    }),
                ))
                &&& (old(self).profiles@.contains_key(ph) && new_status
                    != SubscriptionStatus::Active && old(self).profiles@[ph].active_subscription_id
                    != Some(id) ==> final(self).profiles@ == old(self).profiles@)
            },
    {
        let subscription = match self.subscriptions.get_subscription(id) {
            Some(s) => s,
            None => {
                return Err(SubscriptionError::SubscriptionNotFound);
            },
        };
        if matches!(new_status, SubscriptionStatus::Active) {
            match self.find_active_subscription(&subscription.user_phone_number) {
                Some(aid) => {
                    if aid != id {
                        return Err(SubscriptionError::AlreadyExists);
                    }
                },
                None => {},
            }
        }
        proof {
            let ph = old(self).subscriptions@[id as int].user_phone_number;
            if new_status == SubscriptionStatus::Active {
                assert forall|j: int|
                    #[trigger] active_for(old(self).subscriptions@, j, ph) implies j
                    == id as int by {
                    assert(has_active_sub(old(self).subscriptions@, ph));
                    let w = choose|k: int| #[trigger] active_for(old(self).subscriptions@, k, ph);
                    assert(active_sub_id(old(self).subscriptions@, ph) == Some(
                        old(self).subscriptions@[w].id,
                    ));
                    assert(active_for(
                        old(self).subscriptions@,
                        j,
                        old(self).subscriptions@[w].user_phone_number,
                    ));
                    assert(active_for(
                        old(self).subscriptions@,
                        w,
                        old(self).subscriptions@[w].user_phone_number,
                    ));
                }
            }
        }
        let ghost old_subs = self.subscriptions@;
        let updated = match self.subscriptions.update_subscription_status(id, new_status, now) {
            Ok(s) => s,
            Err(e) => {
                proof {
                    assert(false);
                }
                return Err(SubscriptionError::StorageError(e));
            },
        };
        let ghost ph = old_subs[id as int].user_phone_number;
        let mut wrote_profile = false;
        match self.profiles.get_user_profile(&subscription.user_phone_number) {
            Some(mut profile) => {
                if matches!(new_status, SubscriptionStatus::Active) {
                    profile.has_active_subscription = true;
                    profile.active_subscription_id = Some(id);
                    self.profiles.update_user_profile(profile);
                    wrote_profile = true;
                } else {
                    let clears = match profile.active_subscription_id {
                        Some(aid) => aid == id,
                        None => false,
                    };
                    if clears {
                        profile.has_active_subscription = false;
                        profile.active_subscription_id = None;
                        self.profiles.update_user_profile(profile);
                        wrote_profile = true;
                    }
                }
            },
            None => {},
        }
        proof {
            let subs2 = self.subscriptions@;
            assert forall|a: int, b: int|
                #![trigger subs2[a], subs2[b]]
                active_for(subs2, a, subs2[b].user_phone_number) && active_for(
                    subs2,
                    b,
                    subs2[b].user_phone_number,
                ) implies a == b by {
                if a != id as int && b != id as int {
                    assert(active_for(old_subs, a, old_subs[b].user_phone_number));
                    assert(active_for(old_subs, b, old_subs[b].user_phone_number));
                } else if a == id as int && b != id as int {
                    assert(active_for(old_subs, b, ph));
                } else if b == id as int && a != id as int {
                    assert(subs2[b].user_phone_number == ph);
                    assert(active_for(old_subs, a, ph));
                }
            }
            assert forall|phone2: Seq<char>|
                final(self).profiles@.dom().contains(phone2) implies profile_flags_ok(
                #[trigger] final(self).profiles@[phone2],
                subs2,
            ) by {
                if phone2 != ph {
                    assert(final(self).profiles@[phone2] == old(self).profiles@[phone2]);
                    assert(profile_flags_ok(old(self).profiles@[phone2], old_subs));
                    lemma_has_active_update_other(old_subs, id as int, subs2[id as int], phone2);
                    match old(self).profiles@[phone2].active_subscription_id {
                        Some(aid) => {
                            assert(active_for(old_subs, aid as int, phone2));
                            assert(aid != id);
                            assert(active_for(subs2, aid as int, phone2));
                        },
                        None => {},
                    }
                } else {
                    assert(old(self).profiles@.dom().contains(ph));
                    assert(profile_flags_ok(old(self).profiles@[ph], old_subs));
                    if new_status == SubscriptionStatus::Active {
                        assert(active_for(subs2, id as int, ph));
                        assert(final(self).profiles@[ph].active_subscription_id == Some(id));
                    } else {
                        match old(self).profiles@[ph].active_subscription_id {
                            Some(aid) => {
                                if aid == id {
                                    assert(!final(self).profiles@[ph].has_active_subscription);
                                    if has_active_sub(subs2, ph) {
                                        let w = choose|i: int| #[trigger] active_for(subs2, i, ph);
                                        assert(w != id as int);
                                        assert(active_for(old_subs, w, ph));
                                        assert(active_for(old_subs, id as int, ph));
                                        assert(active_for(
                                            old_subs,
                                            w,
                                            old_subs[id as int].user_phone_number,
                                        ));
                                        assert(active_for(
                                            old_subs,
                                            id as int,
                                            old_subs[id as int].user_phone_number,
                                        ));
                                        assert(false);
                                    }
                                } else {
                                    assert(final(self).profiles@[ph] == old(self).profiles@[ph]);
                                    assert(active_for(old_subs, aid as int, ph));
                                    assert(active_for(subs2, aid as int, ph));
                                    assert(has_active_sub(subs2, ph));
                                }
                            },
                            None => {
                                assert(final(self).profiles@[ph] == old(self).profiles@[ph]);
                                assert(!has_active_sub(old_subs, ph));
                                if has_active_sub(subs2, ph) {
                                    let w = choose|i: int| #[trigger] active_for(subs2, i, ph);
                                    assert(w != id as int);
                                    assert(active_for(old_subs, w, ph));
                                    assert(false);
                                }
                            },
                        }
                    }
                }
            }
        }
        Ok(updated)
    }
}

} // verus!
