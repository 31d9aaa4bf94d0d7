//! Laws that relate the registry's operations to one another.

use vstd::prelude::*;
use crate::account::AccountId;
use crate::friend_list::{added, removed, lemma_added_distinct, lemma_removed_distinct};
use crate::registry::RelayFriends;

verus! {

/// After `caller` adds `friend`, `friend` is on `caller`'s list exactly once.
pub proof fn law_added_friend_present_once(reg: &RelayFriends, caller: AccountId, friend: AccountId)
    requires
        reg.well_formed(),
    ensures
        added(reg.friends_of(caller), friend).contains(friend),
        added(reg.friends_of(caller), friend).to_multiset().count(friend) == 1,
{
    reg.lemma_lists_distinct(caller);
    let l = added(reg.friends_of(caller), friend);
    lemma_added_distinct(reg.friends_of(caller), friend);
    l.lemma_multiset_has_no_duplicates();
    l.to_multiset_ensures();
}

/// Adding the same friend twice leaves the caller's list as adding it once does.
pub proof fn law_add_idempotent(reg: &RelayFriends, caller: AccountId, friend: AccountId)
    ensures
        added(added(reg.friends_of(caller), friend), friend) == added(reg.friends_of(caller), friend),
{
    let list = reg.friends_of(caller);
    if !list.contains(friend) {
        assert(list.push(friend)[list.len() as int] == friend);
    }
}

/// Adding a friend and then removing it leaves it off the list.
pub proof fn law_add_then_remove_absent(reg: &RelayFriends, caller: AccountId, friend: AccountId)
    requires
        reg.well_formed(),
    ensures
        !removed(added(reg.friends_of(caller), friend), friend).contains(friend),
{
    reg.lemma_lists_distinct(caller);
    lemma_added_distinct(reg.friends_of(caller), friend);
    lemma_removed_distinct(added(reg.friends_of(caller), friend), friend);
}

/// Removing an account that is not on the caller's list leaves that list unchanged.
pub proof fn law_remove_absent_is_noop(reg: &RelayFriends, caller: AccountId, friend: AccountId)
    requires
        !reg.friends_of(caller).contains(friend),
    ensures
        removed(reg.friends_of(caller), friend) == reg.friends_of(caller),
{
    lemma_remove_absent(reg.friends_of(caller), friend);
}

proof fn lemma_remove_absent(list: Seq<AccountId>, friend: AccountId)
    requires
        !list.contains(friend),
    ensures
        removed(list, friend) == list,
    decreases list.len(),
{
    reveal(Seq::filter);
    if list.len() > 0 {
        assert(list.drop_last().contains(friend) ==> list.contains(friend)) by {
            if list.drop_last().contains(friend) {
                let k = choose|k: int| 0 <= k < list.len() - 1 && list.drop_last()[k] == friend;
                assert(list[k] == friend);
            }
        }
        assert(list.last() != friend) by {
            assert(list[list.len() - 1] == list.last());
        }
        lemma_remove_absent(list.drop_last(), friend);
        assert(list.drop_last().push(list.last()) =~= list);
    }
}

/// Two distinct friends added to a fresh list come out in the order they were added.
pub proof fn law_insertion_order(first: AccountId, second: AccountId)
    requires
        first != second,
    ensures
        added(added(Seq::empty(), first), second) == seq![first, second],
{
    let one = added(Seq::<AccountId>::empty(), first);
    assert(one =~= seq![first]);
    assert(!one.contains(second)) by {
        if one.contains(second) {
            assert(one[0] == second);
        }
    }
    assert(one.push(second) =~= seq![first, second]);
}

} // verus!
