//! A registry of friend lists: each account owns an ordered, duplicate-free
//! list of other accounts, which only that account changes and anybody reads.

pub mod account;
pub mod friend_list;
pub mod registry;
pub mod laws;

pub use account::AccountId;
pub use registry::RelayFriends;
