//! The administrative allow-list: which callers may use privileged entry
//! points. Callers are identified by the textual form of their principal;
//! the empty string stands for the anonymous caller.

use vstd::prelude::*;

verus! {

/// The allow-list of privileged callers.
pub struct Guard {
    pub list: Vec<String>,
}

impl View for Guard {
    type V = Seq<Seq<char>>;

    open spec fn view(&self) -> Seq<Seq<char>> {
        self.list.deep_view()
    }
}

impl Guard {
    /// The list holds this caller.
    pub open spec fn spec_contains(self, caller: Seq<char>) -> bool {
        exists|i: int| 0 <= i < self@.len() && self@[i] == caller
    }

    /// Store-level invariant: no caller is listed twice.
    pub open spec fn wf(self) -> bool {
        forall|i: int, j: int|
            0 <= i < self@.len() && 0 <= j < self@.len() && i != j ==> self@[i] != self@[j]
    }

    /// An empty allow-list.
    pub fn new() -> (r: Self)
        ensures
            r@ =~= Seq::<Seq<char>>::empty(),
            r.wf(),
    {
        Guard { list: Vec::new() }
    }

    /// Whether the list holds this caller.
    #[verifier::loop_isolation(false)]
    pub fn contains(&self, caller: &String) -> (r: bool)
        ensures
            r == self.spec_contains(caller@),
    {
        let n = self.list.len();
        let mut i: usize = 0;
        while i < n
            invariant
                i <= n,
                forall|j: int| 0 <= j < i ==> self@[j] != caller@,
            decreases n - i,
        {
            if self.list[i] == *caller {
                proof {
                    assert(self@[i as int] == caller@);
                }
                return true;
            }
            i = i + 1;
        }
        false
    }

    /// Adds a caller to the list; a caller already listed is left alone.
    #[verifier::loop_isolation(false)]
    pub fn add_to_list(&mut self, principal: String)
        requires
            old(self).wf(),
        ensures
            final(self).wf(),
            old(self).spec_contains(principal@) ==> final(self)@ == old(self)@,
            !old(self).spec_contains(principal@) ==> final(self)@ =~= old(self)@.push(principal@),
    {
        if self.contains(&principal) {
            return ;
        }
        let ghost prev = self@;
        self.list.push(principal);
        proof {
            assert forall|k: int| 0 <= k < self@.len() implies self@[k] == prev.push(
                principal@,
            )[k] by {
                assert(self@[k] == self.list@[k].deep_view());
                if k < prev.len() {
                    assert(self.list@[k] == old(self).list@[k]);
                }
            }
            assert(final(self)@ =~= old(self)@.push(principal@));
            assert forall|a: int, b: int|
                0 <= a < self@.len() && 0 <= b < self@.len() && a != b implies self@[a]
                != self@[b] by {
                if a < prev.len() && b < prev.len() {
                    assert(old(self)@[a] != old(self)@[b]);
                } else if a < prev.len() {
                    assert(old(self)@[a] != principal@);
                } else {
                    assert(old(self)@[b] != principal@);
                }
            }
        }
    }

    /// Removes a caller from the list, reporting whether it was there.
    #[verifier::loop_isolation(false)]
    pub fn delete_from_list(&mut self, p: String) -> (r: String)
        requires
            old(self).wf(),
        ensures
            final(self).wf(),
            !old(self).spec_contains(p@) ==> final(self)@ == old(self)@,
            old(self).spec_contains(p@) ==> !final(self).spec_contains(p@) && exists|i: int|
                0 <= i < old(self)@.len() && old(self)@[i] == p@ && final(self)@ =~= old(
                    self,
                )@.remove(i),
    {
        let n = self.list.len();
        let mut i: usize = 0;
        while i < n
            invariant
                i <= n,
                forall|j: int| 0 <= j < i ==> self@[j] != p@,
                self == old(self),
            decreases n - i,
        {
            if self.list[i] == p {
                proof {
                    assert(old(self)@[i as int] == p@);
                    assert(old(self).spec_contains(p@));
                }
                self.list.remove(i);
                proof {
                    assert forall|k: int| 0 <= k < self@.len() implies self@ =~= old(self)@.remove(
                        i as int,
                    ) && self@[k] == old(self)@.remove(i as int)[k] by {
                        if k < i as int {
                            assert(self.list@[k] == old(self).list@[k]);
                        } else {
                            assert(self.list@[k] == old(self).list@[k + 1]);
                        }
                        assert(self@ =~= old(self)@.remove(i as int));
                    }
                    assert(final(self)@ =~= old(self)@.remove(i as int));
                    assert forall|a: int, b: int|
                        0 <= a < self@.len() && 0 <= b < self@.len() && a != b implies self@[a]
                        != self@[b] by {
                        let map_a: int = if a < i as int {
                            a
                        } else {
                            a + 1
                        };
                        let map_b: int = if b < i as int {
                            b
                        } else {
                            b + 1
                        };
                        assert(old(self)@[map_a] != old(self)@[map_b]);
                    }
                    assert forall|j: int| 0 <= j < self@.len() implies self@[j] != p@ by {
                        let map_j: int = if j < i as int {
                            j
                        } else {
                            j + 1
                        };
                        assert(old(self)@[map_j] != old(self)@[i as int] || map_j == i as int);
                    }
                }
                return String::from_str("removed");
            }
            i = i + 1;
        }
        String::from_str("Principal is not in the guard list")
    }

    /// Decides whether a caller is a privileged administrator: anonymous
    /// callers and callers outside the list are turned away.
    pub fn is_dev(&self, caller: &String) -> (r: Result<(), String>)
        ensures
            r is Ok <==> caller@.len() > 0 && self.spec_contains(caller@),
    {
        if caller.as_str().is_empty() {
            return Err(String::from_str("AnonymousCaller"));
        }
        if self.contains(caller) {
            Ok(())
        } else {
            Err(String::from_str("Caller is not authorized"))
        }
    }

    /// Whether the caller passes the administrator check.
    pub fn is_dev_check(&self, caller: &String) -> (r: bool)
        ensures
            r == (caller@.len() > 0 && self.spec_contains(caller@)),
    {
        self.is_dev(caller).is_ok()
    }
}

} // verus!
