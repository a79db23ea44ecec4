//! A chat line as a value of its own.

use vstd::prelude::*;

verus! {

/// One line of chat, from one entity to another.
#[derive(PartialEq, Debug)]
pub struct ChatMessage {
    pub sender_id: u64,
    pub receiver_id: u64,
    pub message: String,
}

} // verus!
