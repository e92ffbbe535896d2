//! Plain 128-bit identifiers for users, sessions and connections.
use vstd::prelude::*;

verus! {

pub type UserId = u128;

pub type SessionId = u128;

pub type ConnectionId = u128;

} // verus!
