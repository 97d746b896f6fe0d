//! What the library reads of a chat event.

use kovi::Message;
use vstd::prelude::*;

verus! {

/// A message that came in, as far as a turn reads it.
#[derive(Debug)]
pub struct InboundEvent<'a> {
    /// The plain text of the message, where it has any.
    pub text: Option<&'a str>,
    /// The segments of the message.
    pub message: &'a Message,
    /// The identifier of the message itself.
    pub message_id: i32,
    /// The group that the message was sent to; none for a private message.
    pub group_id: Option<i64>,
}

} // verus!
