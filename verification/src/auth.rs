//! Session claims: what a token says about its bearer. Signing claims into
//! a token and checking a token's signature are the issuer's business; the
//! room decides what the claims are and what a checked token is good for.

use crate::dtos::Role;
use crate::errors::AppError;
use crate::game::PlayerId;
use vstd::prelude::*;

verus! {

/// How long a session token stays good, in seconds.
pub const TOKEN_TTL_IN_SECS: u64 = 2 * 60 * 60;

#[derive(Clone, Debug, PartialEq, Eq)]
pub struct Claims {
    pub room_id: String,
    pub player_id: PlayerId,
    pub name: String,
    pub role: Role,
    /// When the token was issued, in seconds.
    pub iat: u64,
    /// When the token lapses, in seconds.
    pub exp: u64,
}

pub ghost struct ClaimsView {
    pub room_id: Seq<char>,
    pub player_id: PlayerId,
    pub name: Seq<char>,
    pub role: Role,
    pub iat: u64,
    pub exp: u64,
}

impl View for Claims {
    type V = ClaimsView;

    open spec fn view(&self) -> ClaimsView {
        ClaimsView {
            room_id: self.room_id@,
            player_id: self.player_id,
            name: self.name@,
            role: self.role,
            iat: self.iat,
            exp: self.exp,
        }
    }
}

/// When a token issued at `now` lapses: `now + ttl`, held at the largest
/// representable time where the sum would pass it.
pub open spec fn expiry_after(now_in_secs: u64, ttl_in_secs: u64) -> u64 {
    if now_in_secs + ttl_in_secs > u64::MAX {
        u64::MAX
    } else {
        (now_in_secs + ttl_in_secs) as u64
    }
}

/// The claims of a token issued at `now` to the given identity.
pub open spec fn claims_issued(
    room_id: Seq<char>,
    player_id: PlayerId,
    name: Seq<char>,
    role: Role,
    now_in_secs: u64,
    ttl_in_secs: u64,
) -> ClaimsView {
    ClaimsView {
        room_id,
        player_id,
        name,
        role,
        iat: now_in_secs,
        exp: expiry_after(now_in_secs, ttl_in_secs),
    }
}

/// The outcome of checking a token, as a mathematical value.
pub open spec fn checked_view(checked: Result<Claims, AppError>) -> Result<ClaimsView, AppError> {
    match checked {
        Ok(claims) => Ok(claims@),
        Err(error) => Err(error),
    }
}

/// The outcome of checking the token that came with a request, if one
/// came, as a mathematical value.
pub open spec fn offered_view(token: Option<Result<Claims, AppError>>) -> Option<
    Result<ClaimsView, AppError>,
> {
    match token {
        Some(checked) => Some(checked_view(checked)),
        None => None,
    }
}

impl Claims {
    /// The claims of a token issued at `now` that stays good for `ttl`.
    pub fn issue(
        room_id: &str,
        player_id: PlayerId,
        name: &str,
        role: Role,
        now_in_secs: u64,
        ttl_in_secs: u64,
    ) -> (claims: Claims)
        ensures
            claims@ == claims_issued(room_id@, player_id, name@, role, now_in_secs, ttl_in_secs),
    {
        Claims {
            room_id: room_id.to_owned(),
            player_id,
            name: name.to_owned(),
            role,
            iat: now_in_secs,
            exp: now_in_secs.saturating_add(ttl_in_secs),
        }
    }
}

} // verus!
