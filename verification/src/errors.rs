//! The ways a request can fail, and how each is answered.

use vstd::prelude::*;

verus! {

#[derive(Clone, Copy, Debug, PartialEq, Eq, Structural)]
pub enum AppError {
    RoomNotFound,
    InvalidEmptyName,
    NameTaken,
    FullRoom,
    AuthRequired,
    InvalidToken,
    RoomMismatch,
    UserNotInRoom,
    SessionExpired,
    Kicked,
    Internal,
}

impl AppError {
    /// The status a request that failed this way is answered with.
    pub open spec fn status_of(self) -> u16 {
        match self {
            AppError::RoomNotFound => 404,
            AppError::InvalidEmptyName => 400,
            AppError::NameTaken => 409,
            AppError::FullRoom => 409,
            AppError::AuthRequired => 401,
            AppError::InvalidToken => 401,
            AppError::RoomMismatch => 403,
            AppError::UserNotInRoom => 403,
            AppError::SessionExpired => 403,
            AppError::Kicked => 403,
            AppError::Internal => 500,
        }
    }

    /// The reason given in the answer. An internal failure gives none.
    pub open spec fn reason_of(self) -> Seq<char> {
        match self {
            AppError::RoomNotFound => "room_not_found"@,
            AppError::InvalidEmptyName => "invalid_empty_name"@,
            AppError::NameTaken => "name_taken"@,
            AppError::FullRoom => "full_room"@,
            AppError::AuthRequired => "auth_required"@,
            AppError::InvalidToken => "invalid_token"@,
            AppError::RoomMismatch => "room_mismatch"@,
            AppError::UserNotInRoom => "user_not_in_room"@,
            AppError::SessionExpired => "session_expired"@,
            AppError::Kicked => "kicked"@,
            AppError::Internal => ""@,
        }
    }

    pub fn status_code(&self) -> (status: u16)
        ensures
            status == self.status_of(),
    {
        match self {
            AppError::RoomNotFound => 404,
            AppError::InvalidEmptyName => 400,
            AppError::NameTaken | AppError::FullRoom => 409,
            AppError::AuthRequired | AppError::InvalidToken => 401,
            AppError::RoomMismatch
            | AppError::UserNotInRoom
            | AppError::SessionExpired
            | AppError::Kicked => 403,
            AppError::Internal => 500,
        }
    }

    pub fn reason(&self) -> (text: &'static str)
        ensures
            text@ == self.reason_of(),
    {
        match self {
            AppError::RoomNotFound => "room_not_found",
            AppError::InvalidEmptyName => "invalid_empty_name",
            AppError::NameTaken => "name_taken",
            AppError::FullRoom => "full_room",
            AppError::AuthRequired => "auth_required",
            AppError::InvalidToken => "invalid_token",
            AppError::RoomMismatch => "room_mismatch",
            AppError::UserNotInRoom => "user_not_in_room",
            AppError::SessionExpired => "session_expired",
            AppError::Kicked => "kicked",
            AppError::Internal => "",
        }
    }
}

} // verus!
