use relay_friends::friend_list::{add_to_list, list_contains, remove_from_list};
use relay_friends::{AccountId, RelayFriends};

fn account(byte: u8) -> AccountId {
    AccountId::from([byte; 32])
}

#[test]
fn add_and_remove_work() {
    let caller = AccountId::from([0x01; 32]);
    let mut contract = RelayFriends::new();
    let friend = AccountId::from([0x42; 32]);

    contract.add_friend(caller, friend);
    assert!(contract.is_friend(caller, friend));

    contract.remove_friend(caller, friend);
    assert!(!contract.is_friend(caller, friend));
}

#[test]
fn fresh_registry_is_empty() {
    let reg = RelayFriends::new();
    for a in [0u8, 1, 0x42, 255] {
        assert!(reg.get_friends(account(a)).is_empty());
        for b in [0u8, 1, 0x42, 255] {
            assert!(!reg.is_friend(account(a), account(b)));
        }
    }
}

#[test]
fn default_registry_is_empty() {
    let reg = RelayFriends::default();
    assert!(reg.get_friends(account(7)).is_empty());
    assert!(!reg.is_friend(account(7), account(8)));
}

#[test]
fn added_friend_appears_once() {
    let mut reg = RelayFriends::new();
    reg.add_friend(account(1), account(2));
    reg.add_friend(account(1), account(3));
    assert!(reg.is_friend(account(1), account(2)));
    let list = reg.get_friends(account(1));
    assert_eq!(list.iter().filter(|x| **x == account(2)).count(), 1);
    assert_eq!(list, vec![account(2), account(3)]);
}

#[test]
fn adding_twice_equals_adding_once() {
    let mut once = RelayFriends::new();
    once.add_friend(account(1), account(2));
    let mut twice = RelayFriends::new();
    twice.add_friend(account(1), account(2));
    twice.add_friend(account(1), account(2));
    assert_eq!(once.get_friends(account(1)), twice.get_friends(account(1)));
    assert_eq!(twice.get_friends(account(1)), vec![account(2)]);
}

#[test]
fn add_then_remove_leaves_friend_out() {
    let mut reg = RelayFriends::new();
    reg.add_friend(account(1), account(2));
    reg.remove_friend(account(1), account(2));
    assert!(!reg.is_friend(account(1), account(2)));
    assert!(!reg.get_friends(account(1)).contains(&account(2)));
    assert!(reg.get_friends(account(1)).is_empty());
}

#[test]
fn removing_unknown_friend_changes_nothing() {
    let mut reg = RelayFriends::new();
    reg.remove_friend(account(1), account(2));
    assert!(reg.get_friends(account(1)).is_empty());

    reg.add_friend(account(1), account(3));
    reg.add_friend(account(1), account(4));
    reg.remove_friend(account(1), account(2));
    assert_eq!(reg.get_friends(account(1)), vec![account(3), account(4)]);
}

#[test]
fn adding_affects_only_the_caller() {
    let mut reg = RelayFriends::new();
    reg.add_friend(account(3), account(9));
    reg.add_friend(account(1), account(2));
    assert_eq!(reg.get_friends(account(3)), vec![account(9)]);
    assert!(reg.get_friends(account(2)).is_empty());
    assert!(!reg.is_friend(account(2), account(1)));
    reg.remove_friend(account(1), account(9));
    assert_eq!(reg.get_friends(account(3)), vec![account(9)]);
}

#[test]
fn friends_keep_insertion_order() {
    let mut reg = RelayFriends::new();
    reg.add_friend(account(1), account(0x20));
    reg.add_friend(account(1), account(0x10));
    assert_eq!(reg.get_friends(account(1)), vec![account(0x20), account(0x10)]);
}

#[test]
fn removal_keeps_order_of_the_rest() {
    let mut reg = RelayFriends::new();
    for b in [5u8, 6, 7, 8] {
        reg.add_friend(account(1), account(b));
    }
    reg.remove_friend(account(1), account(6));
    assert_eq!(reg.get_friends(account(1)), vec![account(5), account(7), account(8)]);
    reg.add_friend(account(1), account(6));
    assert_eq!(reg.get_friends(account(1)), vec![account(5), account(7), account(8), account(6)]);
}

#[test]
fn an_account_may_befriend_itself() {
    let mut reg = RelayFriends::new();
    reg.add_friend(account(1), account(1));
    assert!(reg.is_friend(account(1), account(1)));
}

#[test]
fn returned_list_is_a_copy() {
    let mut reg = RelayFriends::new();
    reg.add_friend(account(1), account(2));
    let mut copy = reg.get_friends(account(1));
    copy.push(account(3));
    copy.clear();
    assert_eq!(reg.get_friends(account(1)), vec![account(2)]);
}

#[test]
fn accounts_differing_in_one_byte_are_distinct() {
    let mut bytes = [0x42u8; 32];
    let a = AccountId::from(bytes);
    bytes[31] = 0x43;
    let b = AccountId::from(bytes);
    assert_ne!(a, b);
    assert!(a.same_as(&AccountId::from([0x42; 32])));
    assert!(!a.same_as(&b));
    assert_eq!(b.as_bytes()[31], 0x43);
    let mut reg = RelayFriends::new();
    reg.add_friend(account(1), a);
    assert!(!reg.is_friend(account(1), b));
}

#[test]
fn list_operations() {
    let mut list = vec![account(1), account(2)];
    assert!(list_contains(&list, &account(2)));
    assert!(!list_contains(&list, &account(3)));
    add_to_list(&mut list, account(2));
    assert_eq!(list, vec![account(1), account(2)]);
    add_to_list(&mut list, account(3));
    assert_eq!(list, vec![account(1), account(2), account(3)]);
    remove_from_list(&mut list, &account(1));
    assert_eq!(list, vec![account(2), account(3)]);
    remove_from_list(&mut list, &account(9));
    assert_eq!(list, vec![account(2), account(3)]);
}
