//! The records kept in the document store.

use vstd::prelude::*;

verus! {

pub type MessageId = i64;

pub type ChannelId = i64;

pub type UserId = i64;

/// One registered user: the name, the stored password hash, never the password.
#[derive(Debug, Clone, PartialEq, Eq)]
pub struct UserData {
    pub username: String,
    pub password: String,
    pub id: UserId,
    pub timestamp: u64,
    pub messages: Vec<MessageId>,
}

#[derive(Debug, Clone, PartialEq, Eq)]
pub struct MessageData {
    pub author: UserId,
    pub channel: ChannelId,
    pub id: MessageId,
    pub timestamp: u64,
    pub contents: String,
}

#[derive(Debug, Clone, PartialEq, Eq)]
pub struct ChannelData {
    pub name: String,
    pub id: ChannelId,
    pub timestamp: u64,
    pub creator: UserId,
    pub messages: Vec<MessageId>,
}

} // verus!
