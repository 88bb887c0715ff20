//! Typed errors returned by the profile, order and subscription operations.

use vstd::prelude::*;

verus! {

/// Errors of the profile lookup operations.
#[derive(Clone, Debug)]
pub enum GetUserDataError {
    AnonymousCaller,
    DidntFindUserData,
    FailedToAddToList,
}

/// Errors of the order lifecycle operations.
#[derive(Clone, Debug)]
pub enum OrderError {
    /// A caller-supplied value was empty, zero, or otherwise malformed.
    InvalidInput(String),
    /// No profile exists for the given phone number.
    UserProfileNotFound,
    /// An order item names a product id that the catalog does not hold.
    InvalidProductInOrder(u64),
    /// No order exists with the given id.
    OrderNotFound,
    /// The requestor does not own the record and is not privileged.
    AccessDenied,
    /// A record could not be written.
    StorageError(String),
    /// An owner-initiated cancel was requested outside the Pending status.
    CannotCancelOrder(String),
}

/// Errors of the subscription lifecycle operations.
#[derive(Clone, Debug)]
pub enum SubscriptionError {
    /// A caller-supplied value was empty, zero, or otherwise malformed.
    InvalidInput(String),
    /// No profile exists for the given phone number.
    UserProfileNotFound,
    /// A subscription item names a product id that the catalog does not hold.
    ProductNotFound(u64),
    /// No subscription exists with the given id.
    SubscriptionNotFound,
    /// The requestor does not own the record and is not privileged.
    AccessDenied,
    /// A record could not be written.
    StorageError(String),
    /// The user already holds an active subscription.
    AlreadyExists,
    /// The requested status change is not permitted from the current status.
    UpdateFailed(String),
}

} // verus!
