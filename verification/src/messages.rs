//! What travels over the channel: the messages of each sender, in the order
//! in which it sends them, and the line that the receiver prints for each
//! message that arrives.

use vstd::prelude::*;

use crate::text::with_prefix;

verus! {

/// How long the second sender rests after each message, in milliseconds.
pub const SEND_PAUSE_MILLIS: u64 = 300;

/// The messages of the first sender, which sends a single greeting.
pub fn first_sender_messages() -> (messages: Vec<&'static str>)
    ensures
        messages@.len() == 1,
        messages@[0]@ == "hello"@,
{
    let mut messages: Vec<&'static str> = Vec::new();
    messages.push("hello");
    messages
}

/// The messages of the second sender, which rests for
/// [`SEND_PAUSE_MILLIS`] after each of them.
pub fn second_sender_messages() -> (messages: Vec<&'static str>)
    ensures
        messages@.len() == 3,
        messages@[0]@ == "channels"@,
        messages@[1]@ == "are"@,
        messages@[2]@ == "fun"@,
{
    let mut messages: Vec<&'static str> = Vec::new();
    messages.push("channels");
    messages.push("are");
    messages.push("fun");
    messages
}

/// Builds the line that the receiver prints for a message that arrived.
pub fn received_line(value: &str) -> (line: String)
    ensures
        line@ == "val: "@ + value@,
{
    with_prefix("val: ", value)
}

} // verus!
