//! The service's requests: making a room, joining one, trading a token
//! for a fresh one, and asking for a realtime connection. Each request is
//! checked at the door, before it reaches a room.

use crate::auth::{checked_view, offered_view, Claims, ClaimsView};
use crate::dtos::{outbound_views, CreateRoomRequest, JoinRoomRequest, Outbound, OutboundView};
use crate::errors::AppError;
use crate::game::PlayerId;
use crate::socket::{authorize_session, PlayerSession};
use crate::state::app_state::{AppState, AppView, ROOM_ID_LENGTH};
use crate::state::room_state::model::RoomView;
use crate::state::room_state::{RoomConfig, RoomId, RoomState};
use crate::text::{strip_prefix, trim, trimmed};
use crate::utils::random::is_random_text;
use vstd::prelude::*;

verus! {

/// The interval a room's clock ticks at, in milliseconds.
pub const TICK_IN_MS: u64 = 10;

/// The answer window of a room whose creator asks for none, in
/// milliseconds.
pub const DEFAULT_ANSWER_WINDOW_IN_MS: u64 = 5_000;

/// The shortest answer window a room can have, in milliseconds.
pub const MIN_ANSWER_WINDOW_IN_MS: u64 = 500;

/// The longest answer window a room can have, in milliseconds.
pub const MAX_ANSWER_WINDOW_IN_MS: u64 = 60_000;

/// The answer window a room gets: the one asked for, brought into the
/// range the service allows, or the default where none was asked for.
pub open spec fn clamped_window(requested: Option<u64>) -> u64 {
    match requested {
        Some(window) => if window < MIN_ANSWER_WINDOW_IN_MS {
            MIN_ANSWER_WINDOW_IN_MS
        } else if window > MAX_ANSWER_WINDOW_IN_MS {
            MAX_ANSWER_WINDOW_IN_MS
        } else {
            window
        },
        None => DEFAULT_ANSWER_WINDOW_IN_MS,
    }
}

pub fn clamp_answer_window(requested: Option<u64>) -> (window: u64)
    ensures
        window == clamped_window(requested),
        MIN_ANSWER_WINDOW_IN_MS <= window <= MAX_ANSWER_WINDOW_IN_MS,
{
    match requested {
        Some(value) => {
            if value < MIN_ANSWER_WINDOW_IN_MS {
                MIN_ANSWER_WINDOW_IN_MS
            } else if value > MAX_ANSWER_WINDOW_IN_MS {
                MAX_ANSWER_WINDOW_IN_MS
            } else {
                value
            }
        },
        None => DEFAULT_ANSWER_WINDOW_IN_MS,
    }
}

/// The token in the value of an `Authorization` header: what follows
/// `Bearer `, where the value starts with that.
pub fn bearer_token(header: &str) -> (token: Option<&str>)
    ensures
        match token {
            Some(token) => header@ == "Bearer "@ + token@,
            None => !"Bearer "@.is_prefix_of(header@),
        },
{
    strip_prefix(header, "Bearer ")
}

/// A display name must hold more than white space.
pub fn validate_name(name: &str) -> (result: Result<(), AppError>)
    ensures
        result == (if trimmed(name@).len() == 0 {
            Err::<(), AppError>(AppError::InvalidEmptyName)
        } else {
            Ok::<(), AppError>(())
        }),
{
    check_trimmed_name(trim(name))
}

/// A display name of which nothing is left without the white space
/// around it is refused. `inner` is the name without that white space.
pub fn check_trimmed_name(inner: &str) -> (result: Result<(), AppError>)
    ensures
        result == (if inner@.len() == 0 {
            Err::<(), AppError>(AppError::InvalidEmptyName)
        } else {
            Ok::<(), AppError>(())
        }),
{
    if inner.is_empty() {
        Err(AppError::InvalidEmptyName)
    } else {
        Ok(())
    }
}

impl AppView {
    pub open spec fn with_room(self, room: RoomView) -> AppView {
        AppView { rooms: self.rooms.insert(room.room_id, room), ..self }
    }

    /// A room is made under `room_id` for a creator who becomes its
    /// admin.
    pub open spec fn create_room(
        self,
        room_id: Seq<char>,
        name: Seq<char>,
        answer_window_in_ms: Option<u64>,
        now_in_secs: u64,
    ) -> (AppView, Result<ClaimsView, AppError>) {
        if trimmed(name).len() == 0 {
            (self, Err(AppError::InvalidEmptyName))
        } else {
            let empty = RoomView::initial(
                room_id,
                clamped_window(answer_window_in_ms),
                TICK_IN_MS,
                self.token_ttl_in_secs,
            );
            let (room, result) = empty.create_admin(name, now_in_secs);
            (self.with_room(room), result)
        }
    }

    /// A join of the room `room_id`, under the name asked for or, where
    /// none is asked for, under the name in the token.
    pub open spec fn join_room(
        self,
        room_id: Seq<char>,
        token: Option<Result<ClaimsView, AppError>>,
        name: Option<Seq<char>>,
        now_in_secs: u64,
    ) -> (AppView, Result<ClaimsView, AppError>, Seq<OutboundView>) {
        if !self.rooms.contains_key(room_id) {
            (self, Err(AppError::RoomNotFound), Seq::empty())
        } else {
            let room = self.rooms[room_id];
            match name {
                Some(name) => if trimmed(name).len() == 0 {
                    (self, Err(AppError::InvalidEmptyName), Seq::empty())
                } else {
                    let (after, result, out) = room.join(name, token, now_in_secs);
                    (self.with_room(after), result, out)
                },
                None => match token {
                    Some(Ok(claims)) => {
                        let (after, result, out) = room.join(claims.name, token, now_in_secs);
                        (self.with_room(after), result, out)
                    },
                    Some(Err(error)) => (self, Err(error), Seq::empty()),
                    None => (self, Err(AppError::AuthRequired), Seq::empty()),
                },
            }
        }
    }

    /// A token is traded for a fresh one in the room `room_id`.
    pub open spec fn token_refresh(
        self,
        room_id: Seq<char>,
        token: Option<Result<ClaimsView, AppError>>,
        now_in_secs: u64,
    ) -> (AppView, Result<ClaimsView, AppError>) {
        if !self.rooms.contains_key(room_id) {
            (self, Err(AppError::RoomNotFound))
        } else {
            match token {
                None => (self, Err(AppError::AuthRequired)),
                Some(checked) => {
                    let (after, result) = self.rooms[room_id].refresh_token(checked, now_in_secs);
                    (self.with_room(after), result)
                },
            }
        }
    }

    /// Whether the bearer of a checked token may open a realtime
    /// connection to the room `room_id`, and as whom.
    pub open spec fn authorize_upgrade(
        self,
        room_id: Seq<char>,
        token: Result<ClaimsView, AppError>,
    ) -> Result<(PlayerId, Seq<char>), AppError> {
        if !self.rooms.contains_key(room_id) {
            Err(AppError::RoomNotFound)
        } else {
            self.rooms[room_id].authorize_session(token)
        }
    }
}

/// A registry that took a room out and put it back holds what it held.
proof fn lemma_put_back(before: AppView, taken: AppView, room_id: Seq<char>)
    requires
        before.rooms.contains_key(room_id),
        before.wf(),
        taken == (AppView { rooms: before.rooms.remove(room_id), ..before }),
    ensures
        taken.with_room(before.rooms[room_id]) == before,
        forall|room: RoomView|
            room.room_id == room_id ==> #[trigger] taken.with_room(room) == before.with_room(room),
{
    assert(taken.with_room(before.rooms[room_id]).rooms =~= before.rooms);
    assert forall|room: RoomView| room.room_id == room_id implies #[trigger] taken.with_room(room)
        == before.with_room(room) by {
        assert(taken.with_room(room).rooms =~= before.with_room(room).rooms);
    }
}

/// Makes a room for the creator named in the request, who becomes its
/// admin. The room's id is drawn at random; the answer carries it, in
/// the claims to sign into the creator's token. A request without a
/// name is refused and makes no room.
pub fn create_room(state: &mut AppState, request: &CreateRoomRequest, now_in_secs: u64) -> (result:
    Result<Claims, AppError>)
    requires
        old(state)@.wf(),
    ensures
        match result {
            Ok(claims) => {
                &&& is_random_text(claims@.room_id, ROOM_ID_LENGTH)
                &&& (final(state)@, Ok::<ClaimsView, AppError>(claims@)) == old(state)@.create_room(
                    claims@.room_id,
                    request.name@,
                    request.answer_window_in_ms,
                    now_in_secs,
                )
            },
            Err(error) => {
                &&& trimmed(request.name@).len() == 0
                &&& error == AppError::InvalidEmptyName
                &&& final(state)@ == old(state)@
            },
        },
        final(state)@.wf(),
{
    match validate_name(request.name.as_str()) {
        Ok(_) => {},
        Err(error) => {
            return Err(error);
        },
    }
    let room_id = state.create_random_room_id();
    create_room_with_id(state, room_id, request, now_in_secs)
}

/// Makes a room under `room_id` for the creator named in the request,
/// who becomes its admin. The answer carries the claims to sign into the
/// creator's token. A room that went by the id before is replaced.
pub fn create_room_with_id(
    state: &mut AppState,
    room_id: RoomId,
    request: &CreateRoomRequest,
    now_in_secs: u64,
) -> (result: Result<Claims, AppError>)
    requires
        old(state)@.wf(),
    ensures
        (final(state)@, checked_view(result)) == old(state)@.create_room(
            room_id@,
            request.name@,
            request.answer_window_in_ms,
            now_in_secs,
        ),
        final(state)@.wf(),
        result is Err <==> trimmed(request.name@).len() == 0,
{
    match validate_name(request.name.as_str()) {
        Ok(_) => {},
        Err(error) => {
            return Err(error);
        },
    }
    let config = RoomConfig {
        answer_window_in_ms: clamp_answer_window(request.answer_window_in_ms),
    };
    let mut room = RoomState::new(room_id, config, TICK_IN_MS, state.token_ttl_in_secs());
    let result = room.create_admin(request.name.as_str(), now_in_secs);
    state.put_room(room);
    result
}

/// Answers a request to join the room `room_id`. The request names the
/// player, or comes with a token, or both.
pub fn join_room(
    state: &mut AppState,
    room_id: &str,
    token: Option<Result<Claims, AppError>>,
    request: Option<&JoinRoomRequest>,
    now_in_secs: u64,
) -> (answer: (Result<Claims, AppError>, Vec<Outbound>))
    requires
        old(state)@.wf(),
    ensures
        (final(state)@, checked_view(answer.0), outbound_views(answer.1@)) == old(state)@.join_room(
            room_id@,
            offered_view(token),
            match request {
                Some(request) => Some(request.name@),
                None => None,
            },
            now_in_secs,
        ),
        final(state)@.wf(),
{
    let none: Vec<Outbound> = Vec::new();
    assert(outbound_views(none@) =~= Seq::empty());
    let mut room = match state.get_room(room_id) {
        Ok(room) => room,
        Err(error) => {
            return (Err(error), none);
        },
    };
    proof {
        lemma_put_back(old(state)@, state@, room_id@);
    }
    let name: String = match request {
        Some(request) => {
            match validate_name(request.name.as_str()) {
                Ok(_) => {},
                Err(error) => {
                    state.put_room(room);
                    return (Err(error), none);
                },
            }
            request.name.clone()
        },
        None => match &token {
            Some(Ok(claims)) => claims.name.clone(),
            Some(Err(error)) => {
                let error = *error;
                state.put_room(room);
                return (Err(error), none);
            },
            None => {
                state.put_room(room);
                return (Err(AppError::AuthRequired), none);
            },
        },
    };
    let ghost taken = state@;
    let (result, out) = room.join(name.as_str(), token, now_in_secs);
    state.put_room(room);
    assert(state@ == taken.with_room(room@));
    let result = match result {
        Ok((claims, _)) => Ok(claims),
        Err(error) => Err(error),
    };
    (result, out)
}

/// Answers a request to trade a token for a fresh one in the room
/// `room_id`.
pub fn token_refresh(
    state: &mut AppState,
    room_id: &str,
    token: Option<Result<Claims, AppError>>,
    now_in_secs: u64,
) -> (result: Result<Claims, AppError>)
    requires
        old(state)@.wf(),
    ensures
        (final(state)@, checked_view(result)) == old(state)@.token_refresh(
            room_id@,
            offered_view(token),
            now_in_secs,
        ),
        final(state)@.wf(),
{
    let mut room = match state.get_room(room_id) {
        Ok(room) => room,
        Err(error) => {
            return Err(error);
        },
    };
    proof {
        lemma_put_back(old(state)@, state@, room_id@);
    }
    let ghost taken = state@;
    let result = match token {
        Some(checked) => room.refresh_token(checked, now_in_secs),
        None => Err(AppError::AuthRequired),
    };
    state.put_room(room);
    assert(state@ == taken.with_room(room@));
    result
}

/// Answers a request for a realtime connection to the room `room_id`:
/// the identity the connection will speak for, or why there will be no
/// connection.
pub fn authorize_upgrade(
    state: &mut AppState,
    room_id: &str,
    token: Result<Claims, AppError>,
) -> (result: Result<PlayerSession, AppError>)
    requires
        old(state)@.wf(),
    ensures
        final(state)@ == old(state)@,
        match result {
            Ok(session) => old(state)@.authorize_upgrade(room_id@, checked_view(token)) == Ok::<
                (PlayerId, Seq<char>),
                AppError,
            >((session.player_id, session.name@)),
            Err(error) => old(state)@.authorize_upgrade(room_id@, checked_view(token)) == Err::<
                (PlayerId, Seq<char>),
                AppError,
            >(error),
        },
{
    let room = match state.get_room(room_id) {
        Ok(room) => room,
        Err(error) => {
            return Err(error);
        },
    };
    proof {
        lemma_put_back(old(state)@, state@, room_id@);
    }
    let result = authorize_session(&room, token);
    state.put_room(room);
    result
}

} // verus!
