//! Parts of a news feed.

use vstd::prelude::*;

verus! {

/// How many photo tags a news item has.
#[derive(Clone, Debug, PartialEq, Eq)]
pub struct PhotoTags {
    pub count: i64,
}

/// A friend that a news item is about.
#[derive(Clone, Debug, PartialEq, Eq)]
pub struct FriendItem {
    pub user_id: i64,
}

/// The friends that a news item is about: how many there are, and the
/// latest of them.
#[derive(Clone, Debug, PartialEq, Eq)]
pub struct FriendSet {
    pub count: i64,
    pub items: Option<Vec<FriendItem>>,
}

} // verus!
