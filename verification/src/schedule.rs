//! The scheduling rule for recurring deliveries.
//!
//! The rule is deliberately coarse: a start date still in the future is kept
//! as is, and anything else is pushed one day past `now`. It does not yet
//! pick the next matching weekday out of `delivery_days`; only emptiness of
//! that list matters here.

use vstd::prelude::*;

verus! {

/// Nanoseconds in one day.
pub const NANOS_PER_DAY: u64 = 86_400_000_000_000;

/// The timestamp at which a subscription should next be served: the start
/// date itself when no delivery day is given or when it lies in the future,
/// and one day past `now` otherwise.
pub open spec fn next_order_date_spec(start_date: u64, n_delivery_days: nat, now: u64) -> int {
    if n_delivery_days == 0 {
        start_date as int
    } else if start_date > now {
        start_date as int
    } else {
        now + NANOS_PER_DAY
    }
}

/// Computes the first `next_order_date` of a subscription.
pub fn calculate_initial_next_order_date(start_date: u64, delivery_days: &[String], now: u64) -> (r:
    u64)
    requires
        now + NANOS_PER_DAY <= u64::MAX,
    ensures
        r == next_order_date_spec(start_date, delivery_days@.len(), now),
        delivery_days@.len() > 0 ==> r > now || r == start_date,
        delivery_days@.len() > 0 && start_date <= now ==> r > now,
{
    if delivery_days.len() == 0 {
        start_date
    } else if start_date > now {
        start_date
    } else {
        now + NANOS_PER_DAY
    }
}

} // verus!
