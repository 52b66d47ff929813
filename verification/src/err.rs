//! The error taxonomy of the service and the status each error is answered with.

use vstd::prelude::*;
use vstd::string::*;

verus! {

/// Status answered when the request itself is at fault.
pub const STATUS_BAD_REQUEST: u16 = 400;

/// Status answered when no valid, unexpired credential came with the request.
pub const STATUS_UNAUTHORIZED: u16 = 401;

/// Status answered when the named resource does not exist.
pub const STATUS_NOT_FOUND: u16 = 404;

/// Status answered for a failure on the server's side.
pub const STATUS_INTERNAL_SERVER_ERROR: u16 = 500;

/// Everything that can go wrong while serving a request.
///
/// Variants that stem from a collaborator (password hasher, token codec,
/// document store, ...) carry that collaborator's own description of the
/// failure as text. That text is for the server's own records: of a failed
/// credential and of a failure inside the server the caller is told the
/// kind and nothing more.
#[derive(Debug, Clone, PartialEq, Eq)]
pub enum GlobError {
    PasswordError(String),
    JwtError(String),
    UuidError(String),
    DatabaseError(String),
    StringError(String),
    Unauthenticated,
    InvalidUser,
    BadRequest(&'static str),
    ParseError(String),
    UserNotFound,
    ChannelNotFound,
    MessageNotFound,
}

pub type GlobResult<T> = Result<T, GlobError>;

impl GlobError {
    /// True for the errors that say a credential is missing or not valid:
    /// no token, a token that does not hold, a subject that is no identity.
    pub open spec fn is_authentication_failure(self) -> bool {
        self is Unauthenticated || self is JwtError || self is ParseError
    }

    /// True for the errors that say a requested record is absent.
    pub open spec fn is_not_found(self) -> bool {
        self is UserNotFound || self is ChannelNotFound || self is MessageNotFound
    }

    /// True for the failures inside the server: of the password hasher, of
    /// the document store, of an identifier.
    pub open spec fn is_internal_failure(self) -> bool {
        self is PasswordError || self is DatabaseError || self is UuidError
    }

    /// The status code that answers this error.
    pub open spec fn spec_code(self) -> u16 {
        if self.is_authentication_failure() {
            STATUS_UNAUTHORIZED
        } else if self.is_not_found() {
            STATUS_NOT_FOUND
        } else if self.is_internal_failure() {
            STATUS_INTERNAL_SERVER_ERROR
        } else {
            STATUS_BAD_REQUEST
        }
    }

    /// What every caller without a valid credential is told.
    pub open spec fn unauthenticated_text() -> Seq<char> {
        "You are unauthorized to access this endpoint. Login first."@
    }

    /// What the caller is told of every failure inside the server.
    pub open spec fn internal_text() -> Seq<char> {
        "An internal server error occurred."@
    }

    /// The text shown to the caller for this error.
    pub open spec fn spec_message(self) -> Seq<char> {
        match self {
            GlobError::PasswordError(_) => Self::internal_text(),
            GlobError::JwtError(_) => Self::unauthenticated_text(),
            GlobError::UuidError(_) => Self::internal_text(),
            GlobError::DatabaseError(_) => Self::internal_text(),
            GlobError::StringError(detail) => "Failed to convert header value to string: "@ + detail@,
            GlobError::Unauthenticated => Self::unauthenticated_text(),
            GlobError::InvalidUser => "Your user does not exist. For some reason."@,
            GlobError::BadRequest(reason) => reason@,
            GlobError::ParseError(_) => Self::unauthenticated_text(),
            GlobError::UserNotFound => "User with this ID was not found"@,
            GlobError::ChannelNotFound => "Channel with this ID was not found"@,
            GlobError::MessageNotFound => "Message with this ID was not found"@,
        }
    }

    /// The status that answers this error: 401 for every failed credential,
    /// 404 for every absent record, 500 for every failure inside the server,
    /// 400 for the rest.
    pub fn code(&self) -> (status: u16)
        ensures
            status == self.spec_code(),
            self.is_authentication_failure() <==> status == STATUS_UNAUTHORIZED,
            self.is_not_found() <==> status == STATUS_NOT_FOUND,
            self.is_internal_failure() <==> status == STATUS_INTERNAL_SERVER_ERROR,
    {
        match self {
            GlobError::PasswordError(_) => STATUS_INTERNAL_SERVER_ERROR,
            GlobError::JwtError(_) => STATUS_UNAUTHORIZED,
            GlobError::UuidError(_) => STATUS_INTERNAL_SERVER_ERROR,
            GlobError::DatabaseError(_) => STATUS_INTERNAL_SERVER_ERROR,
            GlobError::StringError(_) => STATUS_BAD_REQUEST,
            GlobError::Unauthenticated => STATUS_UNAUTHORIZED,
            GlobError::InvalidUser => STATUS_BAD_REQUEST,
            GlobError::BadRequest(_) => STATUS_BAD_REQUEST,
            GlobError::UserNotFound | GlobError::ChannelNotFound | GlobError::MessageNotFound => STATUS_NOT_FOUND,
            GlobError::ParseError(_) => STATUS_UNAUTHORIZED,
        }
    }

    /// Renders the error as the text that is sent to the caller. Every
    /// failed credential gives the same text, and so does every failure
    /// inside the server: neither says which check failed or what the
    /// collaborator reported.
    pub fn message(&self) -> (text: String)
        ensures
            text@ == self.spec_message(),
            self.is_authentication_failure() ==> text@ == Self::unauthenticated_text(),
            self.is_internal_failure() ==> text@ == Self::internal_text(),
    {
        match self {
            GlobError::PasswordError(_) | GlobError::UuidError(_) | GlobError::DatabaseError(_) => String::from_str(
                "An internal server error occurred.",
            ),
            GlobError::JwtError(_) | GlobError::ParseError(_) | GlobError::Unauthenticated => String::from_str(
                "You are unauthorized to access this endpoint. Login first.",
            ),
            GlobError::StringError(detail) => String::from_str("Failed to convert header value to string: ").concat(
                detail.as_str(),
            ),
            GlobError::InvalidUser => String::from_str("Your user does not exist. For some reason."),
            GlobError::BadRequest(reason) => String::from_str(reason),
            GlobError::UserNotFound => String::from_str("User with this ID was not found"),
            GlobError::ChannelNotFound => String::from_str("Channel with this ID was not found"),
            GlobError::MessageNotFound => String::from_str("Message with this ID was not found"),
        }
    }
}

} // verus!
