//! Operations on a single friend list: an ordered sequence of distinct accounts.

use vstd::prelude::*;
use crate::account::AccountId;

verus! {

/// The list after `friend` is added: unchanged when it is already there,
/// otherwise `friend` appended at the end.
pub open spec fn added(list: Seq<AccountId>, friend: AccountId) -> Seq<AccountId> {
    if list.contains(friend) {
        list
    } else {
        list.push(friend)
    }
}

/// The list after `friend` is removed: every other entry, in the order it had.
pub open spec fn removed(list: Seq<AccountId>, friend: AccountId) -> Seq<AccountId> {
    list.filter(|x: AccountId| x != friend)
}

/// Adding keeps a list free of duplicates.
pub proof fn lemma_added_distinct(list: Seq<AccountId>, friend: AccountId)
    requires
        list.no_duplicates(),
    ensures
        added(list, friend).no_duplicates(),
        added(list, friend).contains(friend),
{
    if !list.contains(friend) {
        let l = list.push(friend);
        assert(l[list.len() as int] == friend);
        assert forall|i: int, j: int| 0 <= i < l.len() && 0 <= j < l.len() && i != j
            implies l[i] != l[j] by {
            if i < list.len() && j < list.len() {
                assert(l[i] == list[i] && l[j] == list[j]);
            } else if i < list.len() {
                assert(l[i] == list[i]);
            } else if j < list.len() {
                assert(l[j] == list[j]);
            }
        }
    }
}

/// Removing keeps a list free of duplicates, leaves `friend` out of it, and
/// keeps nothing that was not there before.
pub proof fn lemma_removed_distinct(list: Seq<AccountId>, friend: AccountId)
    requires
        list.no_duplicates(),
    ensures
        removed(list, friend).no_duplicates(),
        !removed(list, friend).contains(friend),
        forall|x: AccountId| #[trigger] removed(list, friend).contains(x) ==> list.contains(x),
    decreases list.len(),
{
    reveal(Seq::filter);
    if list.len() > 0 {
        let init = list.drop_last();
        let last = list.last();
        assert forall|i: int, j: int| 0 <= i < init.len() && 0 <= j < init.len() && i != j
            implies init[i] != init[j] by {
            assert(init[i] == list[i] && init[j] == list[j]);
        }
        lemma_removed_distinct(init, friend);
        let r = removed(init, friend);
        assert(!init.contains(last)) by {
            if init.contains(last) {
                let k = choose|k: int| 0 <= k < init.len() && init[k] == last;
                assert(list[k] == list[list.len() - 1]);
            }
        }
        assert forall|x: AccountId| init.contains(x) implies list.contains(x) by {
            let k = choose|k: int| 0 <= k < init.len() && init[k] == x;
            assert(list[k] == x);
        }
        if last != friend {
            assert(removed(list, friend) == r.push(last));
            assert(list[list.len() - 1] == last);
            assert forall|i: int, j: int| 0 <= i < r.len() + 1 && 0 <= j < r.len() + 1 && i != j
                implies r.push(last)[i] != r.push(last)[j] by {
                if i < r.len() && j < r.len() {
                } else if i < r.len() {
                    assert(r.contains(r[i]));
                } else if j < r.len() {
                    assert(r.contains(r[j]));
                }
            }
            assert forall|x: AccountId| #[trigger] r.push(last).contains(x) implies x != friend
                && list.contains(x) by {
                let k = choose|k: int| 0 <= k < r.len() + 1 && r.push(last)[k] == x;
                if k < r.len() {
                    assert(r.contains(r[k]));
                }
            }
        } else {
            assert(removed(list, friend) == r);
        }
    }
}

/// Whether `friend` occurs in `list` (linear scan).
pub fn list_contains(list: &Vec<AccountId>, friend: &AccountId) -> (r: bool)
    ensures
        r == list@.contains(*friend),
{
    let mut i: usize = 0;
    while i < list.len()
        invariant
            i <= list@.len(),
            forall|j: int| 0 <= j < i ==> list@[j] != *friend,
        decreases list@.len() - i,
    {
        if list[i].same_as(friend) {
            return true;
        }
        i = i + 1;
    }
    false
}

/// Appends `friend` to `list` unless it is already present.
pub fn add_to_list(list: &mut Vec<AccountId>, friend: AccountId)
    ensures
        final(list)@ == added(old(list)@, friend),
{
    if !list_contains(list, &friend) {
        list.push(friend);
    }
}

/// Drops every occurrence of `friend` from `list`, keeping the others in order.
pub fn remove_from_list(list: &mut Vec<AccountId>, friend: &AccountId)
    ensures
        final(list)@ == removed(old(list)@, *friend),
{
    let mut kept: Vec<AccountId> = Vec::new();
    let mut i: usize = 0;
    while i < list.len()
        invariant
            i <= list@.len(),
            kept@ == removed(list@.subrange(0, i as int), *friend),
        decreases list@.len() - i,
    {
        let x = list[i];
        proof {
            reveal(Seq::filter);
            assert(list@.subrange(0, i + 1).drop_last() =~= list@.subrange(0, i as int));
        }
        if !x.same_as(friend) {
            kept.push(x);
        }
        i = i + 1;
    }
    proof {
        assert(list@.subrange(0, list@.len() as int) =~= list@);
    }
    *list = kept;
}

/// An independent copy of `list`.
pub fn copy_list(list: &Vec<AccountId>) -> (r: Vec<AccountId>)
    ensures
        r@ == list@,
{
    let mut out: Vec<AccountId> = Vec::new();
    let mut i: usize = 0;
    while i < list.len()
        invariant
            i <= list@.len(),
            out@ == list@.subrange(0, i as int),
        decreases list@.len() - i,
    {
        out.push(list[i]);
        i = i + 1;
    }
    proof {
        assert(out@ =~= list@);
    }
    out
}

} // verus!
