//! Parts of a poll.

use vstd::prelude::*;

verus! {

/// A friend who voted in a poll.
#[derive(Clone, Debug, PartialEq, Eq)]
pub struct PollFriend {
    pub id: i64,
}

} // verus!
