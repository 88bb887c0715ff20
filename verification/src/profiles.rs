//! The profile store: customer profiles keyed by their phone number.
//!
//! The key-to-record index is an `ic_stable_structures` ordered map, the
//! durable-map capability the rest of the system builds on. Its contents are
//! named by the uninterpreted function [`phone_index_of`], and a handful of
//! trusted wrappers state what each call does to those contents; the records
//! themselves sit in an arena that the index points into, and everything
//! above the wrappers is verified against them.

use vstd::prelude::*;

use crate::models::{UserProfile, UserProfileView};

verus! {

/// The phone-to-slot index held by a profile store: an ordered
/// `ic_stable_structures` map from phone number to arena slot, on durable
/// memory. The wrapped map's memory type holds a `RefCell`, which Verus does
/// not take in a declaration, so the whole handle is opaque and its contents
/// are reached only through [`phone_index_of`].
#[verifier::external_body]
pub struct PhoneIndex {
    map: ic_stable_structures::btreemap::BTreeMap<
        String,
        u64,
        ic_stable_structures::VectorMemory,
    >,
}

/// The entries that a [`PhoneIndex`] holds, as a map from phone number to
/// arena slot.
pub uninterp spec fn phone_index_of(m: PhoneIndex) -> Map<Seq<char>, u64>;

/// The contents of a freshly created phone index.
pub open spec fn empty_phone_index() -> Map<Seq<char>, u64> {
    Map::empty()
}

/// Relies on ic_stable_structures::btreemap::BTreeMap::new: a map over fresh
/// memory starts empty.
#[verifier::external_body]
fn phone_index_new() -> (r: PhoneIndex)
    ensures
        phone_index_of(r) == empty_phone_index(),
{
    PhoneIndex {
        map: ic_stable_structures::btreemap::BTreeMap::new(
            ic_stable_structures::VectorMemory::default(),
        ),
    }
}

/// Relies on ic_stable_structures::btreemap::BTreeMap::get: returns the value
/// stored under the key, if any.
#[verifier::external_body]
fn phone_index_get(m: &PhoneIndex, key: &String) -> (r: Option<u64>)
    ensures
        r == if phone_index_of(*m).dom().contains(key@) {
            Some(phone_index_of(*m)[key@])
        } else {
            Option::<u64>::None
        },
{
    m.map.get(key)
}

/// Relies on ic_stable_structures::btreemap::BTreeMap::insert: stores the
/// value under the key and returns the value it replaces, if any.
#[verifier::external_body]
fn phone_index_insert(m: &mut PhoneIndex, key: String, value: u64) -> (r: Option<u64>)
    ensures
        phone_index_of(*final(m)) == phone_index_of(*old(m)).insert(key@, value),
        r == if phone_index_of(*old(m)).dom().contains(key@) {
            Some(phone_index_of(*old(m))[key@])
        } else {
            Option::<u64>::None
        },
{
    m.map.insert(key, value)
}

/// Relies on ic_stable_structures::btreemap::BTreeMap::remove: takes the
/// value stored under the key out of the map and returns it, if any.
#[verifier::external_body]
fn phone_index_remove(m: &mut PhoneIndex, key: &String) -> (r: Option<u64>)
    ensures
        phone_index_of(*final(m)) == phone_index_of(*old(m)).remove(key@),
        r == if phone_index_of(*old(m)).dom().contains(key@) {
            Some(phone_index_of(*old(m))[key@])
        } else {
            Option::<u64>::None
        },
{
    m.map.remove(key)
}

/// Relies on ic_stable_structures::btreemap::BTreeMap::iter: yields exactly
/// the map's entries, each key once.
#[verifier::external_body]
fn phone_index_entries(m: &PhoneIndex) -> (r: Vec<(String, u64)>)
    ensures
        forall|i: int|
            0 <= i < r@.len() ==> phone_index_of(*m).contains_pair(
                (#[trigger] r@[i]).0@,
                r@[i].1,
            ),
        forall|k: Seq<char>|
            phone_index_of(*m).dom().contains(k) ==> exists|i: int|
                0 <= i < r@.len() && (#[trigger] r@[i].0@) == k,
        forall|i: int, j: int|
            0 <= i < r@.len() && 0 <= j < r@.len() && i != j ==> (#[trigger] r@[i]).0@ != (
            #[trigger] r@[j]).0@,
{
    m.map.iter().map(|e| (e.key().clone(), e.value())).collect()
}

/// The profile store. Its view is a map from phone number to profile view.
pub struct ProfileStore {
    /// Phone number to arena slot, on durable memory.
    pub index: PhoneIndex,
    /// The record arena; slots of deleted profiles simply go unreferenced.
    pub records: Vec<UserProfile>,
}

impl View for ProfileStore {
    type V = Map<Seq<char>, UserProfileView>;

    open spec fn view(&self) -> Map<Seq<char>, UserProfileView> {
        Map::new(
            |p: Seq<char>| phone_index_of(self.index).dom().contains(p),
            |p: Seq<char>| self.records.deep_view()[phone_index_of(self.index)[p] as int],
        )
    }
}

impl ProfileStore {
    /// Store-level invariant: every index entry points at an arena slot that
    /// holds a record keyed by that very phone number.
    pub open spec fn wf(self) -> bool {
        forall|p: Seq<char>|
            phone_index_of(self.index).dom().contains(p) ==> {
                &&& (#[trigger] phone_index_of(self.index)[p]) < self.records@.len()
                &&& self.records.deep_view()[phone_index_of(self.index)[p] as int].phone_number == p
            }
    }

    /// An empty profile store.
    pub fn new() -> (r: Self)
        ensures
            r@ =~= Map::<Seq<char>, UserProfileView>::empty(),
            r.wf(),
    {
        let r = ProfileStore { index: phone_index_new(), records: Vec::new() };
        proof {
            assert(r@ =~= Map::<Seq<char>, UserProfileView>::empty());
        }
        r
    }

    /// Looks the profile up for a phone number; `None` exactly when the store
    /// holds no profile under it.
    pub fn get_user_profile(&self, phone_number: &String) -> (r: Option<UserProfile>)
        requires
            self.wf(),
        ensures
            match r {
                Some(p) => self@.contains_key(phone_number@) && p@ == self@[phone_number@],
                None => !self@.contains_key(phone_number@),
            },
    {
        match phone_index_get(&self.index, phone_number) {
            Some(slot) => {
                let n = self.records.len();
                proof {
                    assert(slot < n);
                }
                Some(self.records[slot as usize].clone())
            },
            None => None,
        }
    }

    /// Inserts the profile under its own phone number, replacing and
    /// returning the previous profile under that number, if any.
    pub fn update_user_profile(&mut self, profile: UserProfile) -> (r: Option<UserProfile>)
        requires
            old(self).wf(),
        ensures
            final(self).wf(),
            final(self)@ == old(self)@.insert(profile@.phone_number, profile@),
            match r {
                Some(p) => old(self)@.contains_key(profile@.phone_number) && p@ == old(
                    self,
                )@[profile@.phone_number],
                None => !old(self)@.contains_key(profile@.phone_number),
            },
    {
        let ghost key = profile@.phone_number;
        match phone_index_get(&self.index, &profile.phone_number) {
            Some(slot) => {
                let n = self.records.len();
                proof {
                    assert(slot < n);
                }
                let previous = self.records[slot as usize].clone();
                self.records[slot as usize] = profile;
                proof {
                    assert forall|p: Seq<char>|
                        phone_index_of(self.index).dom().contains(p) implies {
                        &&& (#[trigger] phone_index_of(self.index)[p]) < self.records@.len()
                        &&& self.records.deep_view()[phone_index_of(self.index)[p] as int].phone_number
                            == p
                    } by {
                        if phone_index_of(self.index)[p] != slot {
                            assert(self.records.deep_view()[phone_index_of(self.index)[p] as int]
                                == old(self).records.deep_view()[phone_index_of(
                                self.index,
                            )[p] as int]);
                        } else {
                            assert(old(self).records.deep_view()[slot as int].phone_number == p);
                            assert(old(self).records.deep_view()[slot as int].phone_number == key);
                        }
                    }
                    assert(final(self)@ =~= old(self)@.insert(key, profile@));
                }
                Some(previous)
            },
            None => {
                let slot = self.records.len() as u64;
                self.records.push(profile);
                phone_index_insert(&mut self.index, self.records[slot as usize].phone_number.clone(), slot);
                proof {
                    assert forall|p: Seq<char>|
                        phone_index_of(self.index).dom().contains(p) implies {
                        &&& (#[trigger] phone_index_of(self.index)[p]) < self.records@.len()
                        &&& self.records.deep_view()[phone_index_of(self.index)[p] as int].phone_number
                            == p
                    } by {
                        if p != key {
                            assert(phone_index_of(old(self).index).dom().contains(p));
                            assert(phone_index_of(self.index)[p] == phone_index_of(
                                old(self).index,
                            )[p]);
                            assert(self.records.deep_view()[phone_index_of(self.index)[p] as int]
                                == old(self).records.deep_view()[phone_index_of(
                                self.index,
                            )[p] as int]);
                        } else {
                            assert(self.records.deep_view()[slot as int].phone_number == key);
                        }
                    }
                    assert(final(self)@ =~= old(self)@.insert(key, profile@));
                }
                None
            },
        }
    }

    /// Removes and returns the profile stored under a phone number; `None`,
    /// and no change, exactly when the store holds no profile under it.
    pub fn delete_user_profile(&mut self, phone_number: &String) -> (r: Option<UserProfile>)
        requires
            old(self).wf(),
        ensures
            final(self).wf(),
            final(self)@ == old(self)@.remove(phone_number@),
            match r {
                Some(p) => old(self)@.contains_key(phone_number@) && p@ == old(
                    self,
                )@[phone_number@],
                None => !old(self)@.contains_key(phone_number@),
            },
    {
        let n = self.records.len();
        let r = match phone_index_remove(&mut self.index, phone_number) {
            Some(slot) => {
                proof {
                    assert(slot < n);
                }
                Some(self.records[slot as usize].clone())
            },
            None => None,
        };
        proof {
            assert(final(self)@ =~= old(self)@.remove(phone_number@));
        }
        r
    }

    /// Every profile in the store, one for each phone number it holds.
    pub fn get_all_user_profiles(&self) -> (r: Vec<UserProfile>)
        requires
            self.wf(),
        ensures
            forall|i: int|
                0 <= i < r@.len() ==> {
                    &&& self@.contains_key((#[trigger] r.deep_view()[i]).phone_number)
                    &&& r.deep_view()[i] == self@[r.deep_view()[i].phone_number]
                },
            forall|k: Seq<char>|
                self@.contains_key(k) ==> exists|i: int|
                    0 <= i < r@.len() && (#[trigger] r.deep_view()[i].phone_number) == k,
            forall|i: int, j: int|
                0 <= i < r@.len() && 0 <= j < r@.len() && i != j ==> (
                #[trigger] r.deep_view()[i]).phone_number != (#[trigger] r.deep_view()[j]).phone_number,
    {
        let entries = phone_index_entries(&self.index);
        let mut result: Vec<UserProfile> = Vec::new();
        let n = entries.len();
        let mut i: usize = 0;
        while i < n
            invariant
                self.wf(),
                n == entries@.len(),
                i <= n,
                result@.len() == i,
                forall|j: int|
                    0 <= j < i ==> (#[trigger] result.deep_view()[j]) == self@[entries@[j].0@]
                        && result.deep_view()[j].phone_number == entries@[j].0@
                        && self@.contains_key(entries@[j].0@),
                forall|j: int|
                    0 <= j < entries@.len() ==> phone_index_of(self.index).contains_pair(
                        (#[trigger] entries@[j]).0@,
                        entries@[j].1,
                    ),
                forall|k: Seq<char>|
                    phone_index_of(self.index).dom().contains(k) ==> exists|j: int|
                        0 <= j < entries@.len() && (#[trigger] entries@[j].0@) == k,
                forall|j: int, l: int|
                    0 <= j < entries@.len() && 0 <= l < entries@.len() && j != l ==> (
                    #[trigger] entries@[j]).0@ != (#[trigger] entries@[l]).0@,
            decreases n - i,
        {
            let slot = entries[i].1;
            let n_records = self.records.len();
            proof {
                assert(phone_index_of(self.index).contains_pair(entries@[i as int].0@, slot));
                assert(phone_index_of(self.index).dom().contains(entries@[i as int].0@));
                assert(slot < n_records);
            }
            let ghost prev = result.deep_view();
            result.push(self.records[slot as usize].clone());
            proof {
                assert forall|j: int| 0 <= j < i + 1 implies (#[trigger] result.deep_view()[j])
                    == self@[entries@[j].0@] && result.deep_view()[j].phone_number == entries@[j].0@
                    && self@.contains_key(entries@[j].0@) by {
                    if j < i as int {
                        assert(result.deep_view()[j] == prev[j]);
                    } else {
                        assert(result.deep_view()[j] == self.records.deep_view()[slot as int]);
                    }
                }
            }
            i = i + 1;
        }
        proof {
            assert forall|k: Seq<char>| self@.contains_key(k) implies exists|j: int|
                0 <= j < result@.len() && (#[trigger] result.deep_view()[j].phone_number) == k by {
                let w = choose|w: int|
                    0 <= w < entries@.len() && (#[trigger] entries@[w].0@) == k;
                assert(result.deep_view()[w].phone_number == k);
            }
        }
        result
    }
}

} // verus!
