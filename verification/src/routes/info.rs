//! The lookups: what is answered once the document store has been asked.
//! Each of them is open only to a request that has been authenticated.

use vstd::prelude::*;
use crate::err::GlobError;
use crate::extract::Authenticated;
use crate::model::{ChannelData, MessageData, UserData};
use crate::response::{ChannelResponse, GlobResponse, MessageResponse, UserResponse};

verus! {

/// The span of time of which messages are asked: from `from` on, up to `to`
/// where one is given.
#[derive(Debug, Clone, Copy, PartialEq, Eq)]
pub struct MessageQuery {
    pub from: i64,
    pub to: Option<i64>,
}

/// A message as it is shown.
pub open spec fn shown(message: MessageData) -> MessageResponse {
    MessageResponse {
        contents: message.contents,
        author: message.author,
        timestamp: message.timestamp,
        message_id: message.id,
    }
}

/// Answers the lookup of a user: name, identity and time of registration,
/// and never the stored hash. A user that the store does not have is
/// `UserNotFound`.
pub fn info_user(_caller: &Authenticated, found: Option<UserData>) -> (outcome: GlobResponse<UserResponse>)
    ensures
        match found {
            Some(user) => outcome == Ok::<UserResponse, GlobError>(
                UserResponse { username: user.username, user_id: user.id, creation_time: user.timestamp },
            ),
            None => outcome == Err::<UserResponse, GlobError>(GlobError::UserNotFound),
        },
{
    match found {
        Some(user) => Ok(
            UserResponse { username: user.username, user_id: user.id, creation_time: user.timestamp },
        ),
        None => Err(GlobError::UserNotFound),
    }
}

/// Answers the lookup of a channel. A channel that the store does not have
/// is `ChannelNotFound`.
pub fn info_channel(_caller: &Authenticated, found: Option<ChannelData>) -> (outcome: GlobResponse<
    ChannelResponse,
>)
    ensures
        match found {
            Some(channel) => outcome == Ok::<ChannelResponse, GlobError>(
                ChannelResponse {
                    name: channel.name,
                    creation_time: channel.timestamp,
                    creator: channel.creator,
                    channel_id: channel.id,
                },
            ),
            None => outcome == Err::<ChannelResponse, GlobError>(GlobError::ChannelNotFound),
        },
{
    match found {
        Some(channel) => Ok(
            ChannelResponse {
                name: channel.name,
                creation_time: channel.timestamp,
                creator: channel.creator,
                channel_id: channel.id,
            },
        ),
        None => Err(GlobError::ChannelNotFound),
    }
}

/// Answers the lookup of the messages of a channel: every message that was
/// collected, in the order in which the store gave them. Where collecting
/// them failed, `found` is `None` and the answer is `MessageNotFound`.
pub fn info_messages(_caller: &Authenticated, found: Option<Vec<MessageData>>) -> (outcome: GlobResponse<
    Vec<MessageResponse>,
>)
    ensures
        match found {
            Some(messages) => outcome matches Ok(responses) && responses@ == messages@.map_values(
                |message: MessageData| shown(message),
            ),
            None => outcome == Err::<Vec<MessageResponse>, GlobError>(GlobError::MessageNotFound),
        },
{
    match found {
        Some(messages) => {
            let mut responses: Vec<MessageResponse> = Vec::new();
            let mut i: usize = 0;
            while i < messages.len()
                invariant
                    i <= messages.len(),
                    responses@.len() == i,
                    forall|j: int| 0 <= j < i ==> #[trigger] responses@[j] == shown(messages@[j]),
                decreases messages.len() - i,
            {
                let each = &messages[i];
                responses.push(
                    MessageResponse {
                        contents: each.contents.clone(),
                        author: each.author,
                        timestamp: each.timestamp,
                        message_id: each.id,
                    },
                );
                i += 1;
            }
            assert(responses@ =~= messages@.map_values(|message: MessageData| shown(message)));
            Ok(responses)
        },
        None => Err(GlobError::MessageNotFound),
    }
}

} // verus!
