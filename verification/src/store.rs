//! The aggregate store: one value holding the catalog, profiles, orders and
//! subscriptions, together with the cross-entity invariants that the
//! lifecycle operations preserve.

use vstd::prelude::*;

use crate::catalog::Catalog;
use crate::models::UserProfileView;
use crate::orders::OrderStore;
use crate::profiles::ProfileStore;
use crate::subscriptions::SubscriptionStore;
use crate::subscriptions_models::{SubscriptionStatus, SubscriptionView};

verus! {

/// The subscription at `i` is active and belongs to `phone`.
pub open spec fn active_for(subs: Seq<SubscriptionView>, i: int, phone: Seq<char>) -> bool {
    &&& 0 <= i < subs.len()
    &&& subs[i].status == SubscriptionStatus::Active
    &&& subs[i].user_phone_number == phone
}

/// Some subscription of `phone` is active.
pub open spec fn has_active_sub(subs: Seq<SubscriptionView>, phone: Seq<char>) -> bool {
    exists|i: int| #[trigger] active_for(subs, i, phone)
}

/// No phone number owns two active subscriptions.
pub open spec fn at_most_one_active(subs: Seq<SubscriptionView>) -> bool {
    forall|i: int, j: int|
        #![trigger subs[i], subs[j]]
        active_for(subs, i, subs[j].user_phone_number) && active_for(
            subs,
            j,
            subs[j].user_phone_number,
        ) ==> i == j
}

/// A profile's subscription flags agree with the subscription store: the
/// flag holds exactly when the user owns an active subscription, and the
/// stored id is exactly that subscription's.
pub open spec fn profile_flags_ok(p: UserProfileView, subs: Seq<SubscriptionView>) -> bool {
    &&& p.has_active_subscription <==> has_active_sub(subs, p.phone_number)
    &&& match p.active_subscription_id {
        Some(id) => p.has_active_subscription && active_for(subs, id as int, p.phone_number)
            && id == subs[id as int].id,
        None => !p.has_active_subscription,
    }
}

/// The id of the user's active subscription: the unique active record owned
/// by this phone number, if there is one.
pub open spec fn active_sub_id(subs: Seq<SubscriptionView>, phone: Seq<char>) -> Option<u64> {
    if has_active_sub(subs, phone) {
        Some(subs[choose|i: int| active_for(subs, i, phone)].id)
    } else {
        None
    }
}

/// The system state: every record store plus the one-shot seeding flag.
pub struct Store {
    pub catalog: Catalog,
    pub profiles: ProfileStore,
    pub orders: OrderStore,
    pub subscriptions: SubscriptionStore,
    pub initialized: bool,
}

impl Store {
    /// The system invariant: each store is well formed, no phone number owns
    /// two active subscriptions, and every profile's subscription flags tell
    /// the truth.
    pub open spec fn wf(self) -> bool {
        &&& self.catalog.wf()
        &&& self.profiles.wf()
        &&& self.orders.wf()
        &&& self.subscriptions.wf()
        &&& at_most_one_active(self.subscriptions@)
        &&& forall|phone: Seq<char>|
            self.profiles@.dom().contains(phone) ==> profile_flags_ok(
                #[trigger] self.profiles@[phone],
                self.subscriptions@,
            )
    }

    /// A fresh, empty store.
    pub fn new() -> (r: Self)
        ensures
            r.wf(),
            r.catalog@ =~= Seq::empty(),
            r.profiles@ =~= Map::empty(),
            r.orders@ =~= Seq::empty(),
            r.orders.next_order_id == 0,
            r.subscriptions@ =~= Seq::empty(),
            !r.initialized,
    {
        Store {
            catalog: Catalog::new(),
            profiles: ProfileStore::new(),
            orders: OrderStore::new(),
            subscriptions: SubscriptionStore::new(),
            initialized: false,
        }
    }

    /// Scans for the user's active subscription and returns its id, if any.
    #[verifier::loop_isolation(false)]
    pub fn find_active_subscription(&self, phone_number: &String) -> (r: Option<u64>)
        requires
            self.subscriptions.wf(),
            at_most_one_active(self.subscriptions@),
        ensures
            r == active_sub_id(self.subscriptions@, phone_number@),
            match r {
                Some(id) => active_for(self.subscriptions@, id as int, phone_number@)
                    && self.subscriptions@[id as int].id == id,
                None => !has_active_sub(self.subscriptions@, phone_number@),
            },
    {
        let ghost subs = self.subscriptions@;
        let n = self.subscriptions.subscriptions.len();
        let mut i: usize = 0;
        while i < n
            invariant
                i <= n,
                forall|j: int| 0 <= j < i ==> !active_for(subs, j, phone_number@),
            decreases n - i,
        {
            let s = &self.subscriptions.subscriptions[i];
            proof {
                assert(subs[i as int] == self.subscriptions.subscriptions@[i as int].deep_view());
            }
            if matches!(s.status, SubscriptionStatus::Active) && s.user_phone_number
                == *phone_number {
                proof {
                    assert(active_for(subs, i as int, phone_number@));
                    assert(has_active_sub(subs, phone_number@));
                    let w = choose|k: int| active_for(subs, k, phone_number@);
                    assert(active_for(subs, w, subs[w].user_phone_number));
                    assert(active_for(subs, i as int, subs[w].user_phone_number));
                    assert(w == i as int);
                }
                return Some(s.id);
            }
            i = i + 1;
        }
        proof {
            assert forall|k: int| !active_for(subs, k, phone_number@) by {
                if 0 <= k < subs.len() {
                    assert(!active_for(subs, k, phone_number@));
                }
            }
        }
        None
    }

    /// Whether the one-shot catalog seeding has run.
    pub fn is_initialized(&self) -> (r: bool)
        ensures
            r == self.initialized,
    {
        self.initialized
    }

    /// Records that the one-shot catalog seeding has run.
    pub fn mark_initialized(&mut self) -> (r: Result<(), String>)
        ensures
            r is Ok,
            *final(self) == (Store { initialized: true, ..*old(self) }),
    {
        self.initialized = true;
        Ok(())
    }
}

} // verus!
