use vstd::prelude::*;

verus! {

/// HTTP status codes that the handlers answer with.
pub const STATUS_OK: u16 = 200;
pub const STATUS_TEMPORARY_REDIRECT: u16 = 307;
pub const STATUS_UNAUTHORIZED: u16 = 401;
pub const STATUS_INTERNAL_SERVER_ERROR: u16 = 500;

/// The errors that a chat-provider handler reports to its client.
#[derive(Debug, Clone, Copy, PartialEq, Eq, Structural)]
pub enum DiscordError {
    /// The session is missing, expired or corrupt.
    Unauthorized,
    /// A provider, the store or the codec failed.
    InternalError,
}

impl DiscordError {
    pub open spec fn spec_status_code(self) -> u16 {
        match self {
            DiscordError::Unauthorized => STATUS_UNAUTHORIZED,
            DiscordError::InternalError => STATUS_INTERNAL_SERVER_ERROR,
        }
    }

    /// The HTTP status that the error is answered with.
    pub fn status_code(&self) -> (r: u16)
        ensures
            r == self.spec_status_code(),
    {
        match self {
            DiscordError::Unauthorized => STATUS_UNAUTHORIZED,
            DiscordError::InternalError => STATUS_INTERNAL_SERVER_ERROR,
        }
    }

    /// The text of the error's response body.
    pub fn message(&self) -> (r: &'static str)
        ensures
            r@ == match self {
                DiscordError::Unauthorized => "unauthorized"@,
                DiscordError::InternalError => "internal server error"@,
            },
    {
        match self {
            DiscordError::Unauthorized => "unauthorized",
            DiscordError::InternalError => "internal server error",
        }
    }
}

} // verus!
