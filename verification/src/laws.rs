//! System-wide laws: facts that hold of every well-formed store, stated on
//! their own so a reader need not dig them out of the invariant. Every
//! operation of [`Store`] requires and re-establishes `wf`, so these hold
//! before and after each call.

use vstd::prelude::*;

use crate::models::items_total;
use crate::store::{active_for, Store};

verus! {

/// Every order's `total_amount` is the sum over its items of
/// `quantity * price_per_unit_at_order`. The prices in the items are the
/// frozen snapshots taken at creation, so a later change of a catalog price
/// never disturbs this equality: catalog updates leave the order store
/// untouched.
pub proof fn lemma_order_totals(s: Store)
    requires
        s.wf(),
    ensures
        forall|i: int|
            0 <= i < s.orders@.len() ==> (#[trigger] s.orders@[i]).total_amount == items_total(
                s.orders@[i].items,
            ),
{
}

/// Product ids are exactly `0, 1, 2, ...` in insertion order: the record at
/// index `i` carries id `i`. Updates preserve the id, so it is never
/// reassigned.
pub proof fn lemma_product_ids(s: Store)
    requires
        s.wf(),
    ensures
        forall|i: int| 0 <= i < s.catalog@.len() ==> (#[trigger] s.catalog@[i]).id == i,
{
}

/// At most one subscription per phone number is `Active` at any time: two
/// active records owned by the same phone number are the same record.
pub proof fn lemma_one_active_subscription_per_phone(s: Store, i: int, j: int, phone: Seq<char>)
    requires
        s.wf(),
        active_for(s.subscriptions@, i, phone),
        active_for(s.subscriptions@, j, phone),
    ensures
        i == j,
{
    assert(active_for(s.subscriptions@, i, s.subscriptions@[j].user_phone_number));
    assert(active_for(s.subscriptions@, j, s.subscriptions@[j].user_phone_number));
}

/// Every profile's subscription flags tell the truth: `has_active_subscription`
/// holds exactly when some subscription of that phone number is `Active`, and
/// `active_subscription_id` names exactly that record.
pub proof fn lemma_profile_flags_truthful(s: Store, phone: Seq<char>)
    requires
        s.wf(),
        s.profiles@.contains_key(phone),
    ensures
        s.profiles@[phone].has_active_subscription <==> exists|i: int|
            #[trigger] active_for(s.subscriptions@, i, phone),
        s.profiles@[phone].active_subscription_id matches Some(id) ==> active_for(
            s.subscriptions@,
            id as int,
            phone,
        ),
{
    assert(crate::store::profile_flags_ok(s.profiles@[phone], s.subscriptions@));
}

} // verus!

