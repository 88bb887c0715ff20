//! Profile lifecycle operations: creation, lookup, upsert and the
//! administrative listing and deletion.
//!
//! Whenever a profile record is written, its subscription flags are
//! recomputed from the subscription store, so the invariant that
//! `has_active_subscription` tells the truth survives every write.

use vstd::prelude::*;

use crate::errors::GetUserDataError;
use crate::models::{UserProfile, UserProfileView};
use crate::store::{active_sub_id, has_active_sub, profile_flags_ok, Store};

verus! {

/// The record stored for an upsert: the caller's fields, with the
/// subscription flags replaced by the truth from the subscription store.
pub open spec fn stored_profile_view(s: Store, p: UserProfileView) -> UserProfileView {
    UserProfileView {
        has_active_subscription: has_active_sub(s.subscriptions@, p.phone_number),
        active_subscription_id: active_sub_id(s.subscriptions@, p.phone_number),
        ..p
    }
}

impl Store {
    /// Looks a profile up by phone number.
    pub fn get_profile_by_phone(&self, phone_number: String) -> (r: Result<
        UserProfile,
        GetUserDataError,
    >)
        requires
            self.profiles.wf(),
        ensures
            self.profiles@.contains_key(phone_number@) ==> (r matches Ok(p) && p@
                == self.profiles@[phone_number@]),
            !self.profiles@.contains_key(phone_number@) ==> (r matches Err(
                GetUserDataError::DidntFindUserData,
            )),
    {
        match self.profiles.get_user_profile(&phone_number) {
            Some(profile) => Ok(profile),
            None => Err(GetUserDataError::DidntFindUserData),
        }
    }

    /// Stores the profile under its phone number, creating or replacing; the
    /// subscription flags are recomputed rather than taken from the caller.
    /// An empty phone number is rejected.
    pub fn update_profile(&mut self, profile: UserProfile) -> (r: Result<(), GetUserDataError>)
        requires
            old(self).wf(),
        ensures
            final(self).wf(),
            profile@.phone_number.len() == 0 ==> (r matches Err(
                GetUserDataError::DidntFindUserData,
            )) && *final(self) == *old(self),
            profile@.phone_number.len() > 0 ==> {
                &&& r is Ok
                &&& final(self).profiles@ == old(self).profiles@.insert(
                    profile@.phone_number,
                    stored_profile_view(*old(self), profile@),
                )
                &&& final(self).catalog@ == old(self).catalog@
                &&& final(self).orders == old(self).orders
                &&& final(self).subscriptions == old(self).subscriptions
                &&& final(self).initialized == old(self).initialized
            },
    {
        if profile.phone_number.as_str().is_empty() {
            return Err(GetUserDataError::DidntFindUserData);
        }
        let active = self.find_active_subscription(&profile.phone_number);
        let complete_profile = UserProfile {
            phone_number: profile.phone_number,
            name: profile.name,
            address: profile.address,
            order_ids: profile.order_ids,
            has_active_subscription: active.is_some(),
            active_subscription_id: active,
        };
        let ghost stored = complete_profile@;
        self.profiles.update_user_profile(complete_profile);
        proof {
            assert forall|phone2: Seq<char>|
                final(self).profiles@.dom().contains(phone2) implies profile_flags_ok(
                #[trigger] final(self).profiles@[phone2],
                final(self).subscriptions@,
            ) by {
                if phone2 != stored.phone_number {
                    assert(final(self).profiles@[phone2] == old(self).profiles@[phone2]);
                }
            }
        }
        Ok(())
    }

    /// Creates a profile: the phone number, name and address must be
    /// non-empty and no profile may exist under that number yet. The new
    /// record starts with an empty order history and truthful subscription
    /// flags.
    pub fn create_profile(&mut self, profile: UserProfile) -> (r: Result<(), String>)
        requires
            old(self).wf(),
        ensures
            final(self).wf(),
            r is Err ==> *final(self) == *old(self),
            r is Ok <==> {
                &&& profile@.phone_number.len() > 0 && profile@.name.len() > 0
                    && profile@.address.len() > 0
                &&& !old(self).profiles@.contains_key(profile@.phone_number)
            },
            r is Ok ==> {
                &&& final(self).profiles@ == old(self).profiles@.insert(
                    profile@.phone_number,
                    stored_profile_view(
                        *old(self),
                        (UserProfileView { order_ids: Seq::empty(), ..profile@ }),
                    ),
                )
                &&& final(self).catalog@ == old(self).catalog@
                &&& final(self).orders == old(self).orders
                &&& final(self).subscriptions == old(self).subscriptions
                &&& final(self).initialized == old(self).initialized
            },
    {
        if profile.phone_number.as_str().is_empty() || profile.name.as_str().is_empty()
            || profile.address.as_str().is_empty() {
            return Err(String::from_str("Phone number, name, and address cannot be empty"));
        }
        if self.profiles.get_user_profile(&profile.phone_number).is_some() {
            return Err(String::from_str("Profile with this phone number already exists"));
        }
        let active = self.find_active_subscription(&profile.phone_number);
        let complete_profile = UserProfile {
            phone_number: profile.phone_number,
            name: profile.name,
            address: profile.address,
            order_ids: Vec::new(),
            has_active_subscription: active.is_some(),
            active_subscription_id: active,
        };
        let ghost stored = complete_profile@;
        self.profiles.update_user_profile(complete_profile);
        proof {
            assert forall|phone2: Seq<char>|
                final(self).profiles@.dom().contains(phone2) implies profile_flags_ok(
                #[trigger] final(self).profiles@[phone2],
                final(self).subscriptions@,
            ) by {
                if phone2 != stored.phone_number {
                    assert(final(self).profiles@[phone2] == old(self).profiles@[phone2]);
                }
            }
        }
        Ok(())
    }

    /// Every profile in the store, for the administrative panel.
    pub fn get_all_customers(&self) -> (r: Vec<UserProfile>)
        requires
            self.profiles.wf(),
        ensures
            forall|i: int|
                0 <= i < r@.len() ==> {
                    &&& self.profiles@.contains_key((#[trigger] r.deep_view()[i]).phone_number)
                    &&& r.deep_view()[i] == self.profiles@[r.deep_view()[i].phone_number]
                },
            forall|k: Seq<char>|
                self.profiles@.contains_key(k) ==> exists|i: int|
                    0 <= i < r@.len() && (#[trigger] r.deep_view()[i].phone_number) == k,
    {
        self.profiles.get_all_user_profiles()
    }

    /// Deletes and returns the profile stored under a phone number; fails,
    /// changing nothing, when the number is empty or unknown.
    pub fn delete_profile_admin(&mut self, phone_number: String) -> (r: Result<UserProfile, String>)
        requires
            old(self).wf(),
        ensures
            final(self).wf(),
            phone_number@.len() == 0 ==> r is Err && *final(self) == *old(self),
            phone_number@.len() > 0 && !old(self).profiles@.contains_key(phone_number@) ==> r is Err
                && final(self).profiles@ == old(self).profiles@,
            phone_number@.len() > 0 && old(self).profiles@.contains_key(phone_number@) ==> {
                &&& (r matches Ok(p) && p@ == old(self).profiles@[phone_number@])
                &&& final(self).profiles@ == old(self).profiles@.remove(phone_number@)
            },
            final(self).catalog@ == old(self).catalog@,
            final(self).orders == old(self).orders,
            final(self).subscriptions == old(self).subscriptions,
            final(self).initialized == old(self).initialized,
    {
        if phone_number.as_str().is_empty() {
            return Err(String::from_str("Phone number cannot be empty"));
        }
        let removed = self.profiles.delete_user_profile(&phone_number);
        proof {
            if !old(self).profiles@.dom().contains(phone_number@) {
                assert(final(self).profiles@ =~= old(self).profiles@);
            }
            assert forall|phone2: Seq<char>|
                final(self).profiles@.dom().contains(phone2) implies profile_flags_ok(
                #[trigger] final(self).profiles@[phone2],
                final(self).subscriptions@,
            ) by {
                assert(final(self).profiles@[phone2] == old(self).profiles@[phone2]);
            }
        }
        match removed {
            Some(deleted_profile) => Ok(deleted_profile),
            None => Err(String::from_str("Profile with this phone number not found")),
        }
    }
}

} // verus!
