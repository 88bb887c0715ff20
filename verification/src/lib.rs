//! Core of a small catalog-and-fulfillment system: a product catalog,
//! customer profiles keyed by phone number, one-off orders, and recurring
//! subscriptions, together with the lifecycle rules that tie them together.
//!
//! All state lives in an explicit [`store::Store`] value that callers
//! construct once and pass to every operation. Prices and amounts are
//! integers in minor currency units; timestamps are nanoseconds since the
//! epoch, supplied by the caller (the clock is an external collaborator).

pub mod catalog;
pub mod catalog_ops;
pub mod errors;
pub mod guard;
pub mod laws;
pub mod models;
pub mod order_ops;
pub mod orders;
pub mod profile_ops;
pub mod profiles;
pub mod recurring;
pub mod schedule;
pub mod store;
pub mod subscription_ops;
pub mod subscriptions;
pub mod subscriptions_models;
