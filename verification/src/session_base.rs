//! Session ids of channel-scoped conversations and the receipts of
//! submitted session input.

use vstd::prelude::*;
use crate::text::push_str;

verus! {

/// The session id of a channel conversation: `<scope>:<conversation_id>`,
/// where the scope is the channel instance id when given, else the channel.
pub open spec fn channel_session_id_spec(channel: Seq<char>, instance: Option<Seq<char>>, conversation_id: Seq<char>) -> Seq<char> {
    let scope = match instance { Some(i) => i, None => channel };
    scope + ":"@ + conversation_id
}

/// Derive the session id used for a channel-scoped conversation.
pub fn channel_session_id(channel: &str, channel_instance_id: Option<&str>, conversation_id: &str) -> (s: String)
    ensures
        s@ == channel_session_id_spec(channel@, match channel_instance_id { Some(i) => Some(i@), None => None }, conversation_id@),
{
    let scope = match channel_instance_id {
        Some(i) => i,
        None => channel,
    };
    let mut s = String::from_str(scope);
    push_str(&mut s, ":");
    push_str(&mut s, conversation_id);
    s
}

/// The kinds of input a session accepts.
#[derive(Debug, Clone, Copy, PartialEq, Eq, Structural)]
pub enum SessionInputKind {
    Turn,
    Interaction,
    InputChunk,
    CancelActiveTurn,
}

/// What a session answers when it accepts an input.
#[derive(Debug, Clone)]
pub struct SessionSubmitReceipt {
    pub session_id: String,
    pub accepted_kind: SessionInputKind,
}

} // verus!
