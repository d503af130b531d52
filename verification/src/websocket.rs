//! The WebSocket echo consumer at `/ws`.

use vstd::prelude::*;

verus! {

/// A WebSocket message.
#[derive(Clone, Debug, PartialEq, Eq)]
pub enum Message {
    Text { text: String },
    Binary { data: Vec<u8> },
    Ping,
    Pong,
    Close,
}

impl Message {
    /// A text message.
    pub fn text(text: String) -> (m: Message)
        ensures
            m matches Message::Text { text: t } && t@ == text@,
    {
        Message::Text { text }
    }

    /// A binary message.
    pub fn binary(data: Vec<u8>) -> (m: Message)
        ensures
            m matches Message::Binary { data: d } && d@ == data@,
    {
        Message::Binary { data }
    }
}

/// The reply to a message: text and binary messages come back unchanged,
/// the others get none (the transport answers pings and closes).
pub fn echo_message(message: Message) -> (r: Option<Message>)
    ensures
        (message is Text || message is Binary) ==> r == Some(message),
        !(message is Text || message is Binary) ==> r is None,
{
    match message {
        Message::Text { .. } => Some(message),
        Message::Binary { .. } => Some(message),
        _ => None,
    }
}

} // verus!
