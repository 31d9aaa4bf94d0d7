//! The friend registry: for every account, the list of accounts it has befriended.

use vstd::prelude::*;
use crate::account::AccountId;
use crate::friend_list::{
    added, removed, list_contains, add_to_list, remove_from_list, copy_list, lemma_added_distinct,
    lemma_removed_distinct,
};

verus! {

/// One stored friend list and the account that owns it.
struct Entry {
    owner: AccountId,
    friends: Vec<AccountId>,
}

/// Maps each account to its ordered, duplicate-free list of friends.
///
/// An account that never stored a list reads exactly as one whose list is empty.
pub struct RelayFriends {
    entries: Vec<Entry>,
}

/// Whether some stored entry belongs to `a`.
spec fn has_entry(entries: Seq<Entry>, a: AccountId) -> bool {
    exists|i: int| 0 <= i < entries.len() && (#[trigger] entries[i]).owner == a
}

impl RelayFriends {
    /// No two entries share an owner, and no list holds an account twice.
    pub closed spec fn well_formed(&self) -> bool {
        &&& forall|i: int, j: int|
            0 <= i < self.entries@.len() && 0 <= j < self.entries@.len()
                && (#[trigger] self.entries@[i]).owner == (#[trigger] self.entries@[j]).owner
                ==> i == j
        &&& forall|i: int|
            0 <= i < self.entries@.len() ==> (#[trigger] self.entries@[i]).friends@.no_duplicates()
    }

    /// The friend list of `a`: its stored list, or empty when it has none.
    pub closed spec fn friends_of(&self, a: AccountId) -> Seq<AccountId> {
        if has_entry(self.entries@, a) {
            self.entries@[choose|i: int|
                0 <= i < self.entries@.len() && (#[trigger] self.entries@[i]).owner == a].friends@
        } else {
            Seq::empty()
        }
    }

    proof fn lemma_friends_at(&self, i: int)
        requires
            self.well_formed(),
            0 <= i < self.entries@.len(),
        ensures
            self.friends_of(self.entries@[i].owner) == self.entries@[i].friends@,
    {
        assert(has_entry(self.entries@, self.entries@[i].owner));
    }

    /// Every friend list is free of duplicates.
    pub proof fn lemma_lists_distinct(&self, a: AccountId)
        requires
            self.well_formed(),
        ensures
            self.friends_of(a).no_duplicates(),
    {
        if has_entry(self.entries@, a) {
            let i = choose|i: int| 0 <= i < self.entries@.len() && (#[trigger] self.entries@[i]).owner == a;
            self.lemma_friends_at(i);
        }
    }

    /// A registry in which every account has an empty friend list.
    pub fn new() -> (r: RelayFriends)
        ensures
            r.well_formed(),
            forall|a: AccountId| #[trigger] r.friends_of(a) == Seq::<AccountId>::empty(),
    {
        RelayFriends { entries: Vec::new() }
    }

    /// The position of `a`'s entry, if it has one.
    fn find(&self, a: &AccountId) -> (r: Option<usize>)
        ensures
            match r {
                Some(i) => i < self.entries@.len() && self.entries@[i as int].owner == *a,
                None => !has_entry(self.entries@, *a),
            },
    {
        let mut i: usize = 0;
        while i < self.entries.len()
            invariant
                i <= self.entries@.len(),
                forall|j: int| 0 <= j < i ==> (#[trigger] self.entries@[j]).owner != *a,
            decreases self.entries@.len() - i,
        {
            if self.entries[i].owner.same_as(a) {
                return Some(i);
            }
            i = i + 1;
        }
        None
    }

    /// After a change to `caller`'s entry alone, every other account reads as before.
    proof fn lemma_others_unchanged(&self, before: &RelayFriends, caller: AccountId)
        requires
            before.well_formed(),
            self.well_formed(),
            before.entries@.len() <= self.entries@.len(),
            forall|j: int|
                0 <= j < self.entries@.len() && (#[trigger] self.entries@[j]).owner != caller
                    ==> j < before.entries@.len() && self.entries@[j] == before.entries@[j],
            forall|j: int|
                0 <= j < before.entries@.len() ==> (#[trigger] before.entries@[j]).owner
                    == self.entries@[j].owner,
        ensures
            forall|a: AccountId| a != caller ==> #[trigger] self.friends_of(a) == before.friends_of(a),
    {
        assert forall|a: AccountId| a != caller implies #[trigger] self.friends_of(a)
            == before.friends_of(a) by {
            if has_entry(self.entries@, a) {
                let j = choose|j: int|
                    0 <= j < self.entries@.len() && (#[trigger] self.entries@[j]).owner == a;
                self.lemma_friends_at(j);
                before.lemma_friends_at(j);
            } else if has_entry(before.entries@, a) {
                let j = choose|j: int|
                    0 <= j < before.entries@.len() && (#[trigger] before.entries@[j]).owner == a;
                assert(self.entries@[j].owner == a);
            }
        }
    }

    /// `caller` befriends `friend`: appended to the end of `caller`'s list unless
    /// already there. No other account's list changes.
    pub fn add_friend(&mut self, caller: AccountId, friend: AccountId)
        requires
            old(self).well_formed(),
        ensures
            final(self).well_formed(),
            final(self).friends_of(caller) == added(old(self).friends_of(caller), friend),
            forall|a: AccountId|
                a != caller ==> #[trigger] final(self).friends_of(a) == old(self).friends_of(a),
    {
        match self.find(&caller) {
            Some(i) => {
                proof {
                    self.lemma_friends_at(i as int);
                    lemma_added_distinct(self.entries@[i as int].friends@, friend);
                }
                add_to_list(&mut self.entries[i].friends, friend);
                proof {
                    self.lemma_friends_at(i as int);
                }
            },
            None => {
                let mut list: Vec<AccountId> = Vec::new();
                list.push(friend);
                self.entries.push(Entry { owner: caller, friends: list });
                proof {
                    assert(list@ =~= added(Seq::empty(), friend));
                    self.lemma_friends_at(self.entries@.len() - 1);
                }
            },
        }
        proof {
            self.lemma_others_unchanged(old(self), caller);
        }
    }

    /// `caller` drops `friend` from its list; the other entries keep their order.
    /// Nothing observable changes when `friend` was not on the list.
    pub fn remove_friend(&mut self, caller: AccountId, friend: AccountId)
        requires
            old(self).well_formed(),
        ensures
            final(self).well_formed(),
            final(self).friends_of(caller) == removed(old(self).friends_of(caller), friend),
            forall|a: AccountId|
                a != caller ==> #[trigger] final(self).friends_of(a) == old(self).friends_of(a),
    {
        match self.find(&caller) {
            Some(i) => {
                proof {
                    self.lemma_friends_at(i as int);
                    lemma_removed_distinct(self.entries@[i as int].friends@, friend);
                }
                remove_from_list(&mut self.entries[i].friends, &friend);
                proof {
                    self.lemma_friends_at(i as int);
                }
            },
            None => {
                self.entries.push(Entry { owner: caller, friends: Vec::new() });
                proof {
                    reveal(Seq::filter);
                    assert(removed(Seq::empty(), friend) == Seq::<AccountId>::empty());
                    self.lemma_friends_at(self.entries@.len() - 1);
                }
            },
        }
        proof {
            self.lemma_others_unchanged(old(self), caller);
        }
    }

    /// A copy of `user`'s friend list, in the order the friends were added.
    pub fn get_friends(&self, user: AccountId) -> (r: Vec<AccountId>)
        requires
            self.well_formed(),
        ensures
            r@ == self.friends_of(user),
    {
        match self.find(&user) {
            Some(i) => {
                proof {
                    self.lemma_friends_at(i as int);
                }
                copy_list(&self.entries[i].friends)
            },
            None => Vec::new(),
        }
    }

    /// Whether `friend` is on `user`'s friend list.
    pub fn is_friend(&self, user: AccountId, friend: AccountId) -> (r: bool)
        requires
            self.well_formed(),
        ensures
            r == self.friends_of(user).contains(friend),
    {
        match self.find(&user) {
            Some(i) => {
                proof {
                    self.lemma_friends_at(i as int);
                }
                list_contains(&self.entries[i].friends, &friend)
            },
            None => false,
        }
    }
}

impl Default for RelayFriends {
    fn default() -> (r: RelayFriends)
        ensures
            r.well_formed(),
            forall|a: AccountId| #[trigger] r.friends_of(a) == Seq::<AccountId>::empty(),
    {
        RelayFriends::new()
    }
}

} // verus!
