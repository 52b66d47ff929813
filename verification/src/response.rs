//! What the endpoints take and answer, before it is put on the wire.

use vstd::prelude::*;
use crate::err::GlobResult;
use crate::model::{ChannelId, MessageId, UserId};

verus! {

/// Answer of the status check.
#[derive(Debug, Clone, PartialEq, Eq)]
pub struct AuthStatusResponse {
    pub next: AuthS0NextStep,
}

/// What a caller of the status check does next.
#[derive(Debug, Clone, Copy, PartialEq, Eq, Structural)]
pub enum AuthS0NextStep {
    /// The token holds: go on as this user.
    Proceed { uid: UserId },
    /// No valid token: log in first.
    Login,
}

/// Body of a login and of a registration.
#[derive(Debug, Clone, PartialEq, Eq)]
pub struct AuthLoginRequest {
    pub username: String,
    pub password: String,
}

#[derive(Debug, Clone, PartialEq, Eq)]
pub struct AuthLoginResponse {
    pub status: AuthLoginStatus,
}

#[derive(Debug, Clone, PartialEq, Eq)]
pub enum AuthLoginStatus {
    LoggedIn { token: String },
    UserNotFound,
    InvalidPassword,
}

#[derive(Debug, Clone, PartialEq, Eq)]
pub struct AuthRegisterResponse {
    pub status: AuthRegisterStatus,
}

#[derive(Debug, Clone, Copy, PartialEq, Eq, Structural)]
pub enum AuthRegisterStatus {
    Success,
    UserExists,
}

#[derive(Debug, Clone, PartialEq, Eq)]
pub struct UserResponse {
    pub username: String,
    pub user_id: UserId,
    pub creation_time: u64,
}

#[derive(Debug, Clone, PartialEq, Eq)]
pub struct ChannelResponse {
    pub name: String,
    pub creation_time: u64,
    pub creator: UserId,
    pub channel_id: ChannelId,
}

#[derive(Debug, Clone, PartialEq, Eq)]
pub struct MessageResponse {
    pub contents: String,
    pub author: UserId,
    pub timestamp: u64,
    pub message_id: MessageId,
}

/// What a handler hands back: the answer, or the error that takes its place.
pub type GlobResponse<T> = GlobResult<T>;

} // verus!
