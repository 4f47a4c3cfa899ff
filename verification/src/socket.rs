//! A player's realtime connection, as the room sees it: the connection
//! opens, frames arrive, the connection closes. Reading and writing the
//! frames is the transport's business; what each of them does to the room
//! is decided here.

use crate::auth::{checked_view, Claims, ClaimsView};
use crate::dtos::{
    outbound_views, ClientMessage, ClientMessageView, EndpointId, Outbound, OutboundView,
};
use crate::errors::AppError;
use crate::game::PlayerId;
use crate::state::room_state::model::RoomView;
use crate::state::room_state::RoomState;
use crate::text::same_text;
use vstd::prelude::*;

verus! {

/// How many frames a connection may send per second before the rest are
/// refused.
pub const INBOUND_QUOTA_PER_SECOND: u32 = 20;

/// The identity a connection speaks for.
pub struct PlayerSession {
    pub player_id: PlayerId,
    pub name: String,
}

/// What happened on a connection.
pub enum SocketEvent {
    /// A text frame arrived. `within_quota` says whether the connection
    /// was within its quota of frames; `message` is what the text said,
    /// or nothing where it could not be read.
    Text { within_quota: bool, message: Option<ClientMessage> },
    /// A message of the room was passed on to the client. `last` says
    /// whether it was one that ends the connection.
    Forwarded { last: bool },
    /// A message of the room could not be passed on to the client.
    SendFailed,
    /// The client closed the connection, or the stream ended.
    Closed,
    /// Any other frame.
    Other,
}

pub ghost enum SocketEventView {
    Text { within_quota: bool, message: Option<ClientMessageView> },
    Forwarded { last: bool },
    SendFailed,
    Closed,
    Other,
}

impl View for SocketEvent {
    type V = SocketEventView;

    open spec fn view(&self) -> SocketEventView {
        match self {
            SocketEvent::Text { within_quota, message } => SocketEventView::Text {
                within_quota: *within_quota,
                message: match message {
                    Some(message) => Some(message@),
                    None => None,
                },
            },
            SocketEvent::Forwarded { last } => SocketEventView::Forwarded { last: *last },
            SocketEvent::SendFailed => SocketEventView::SendFailed,
            SocketEvent::Closed => SocketEventView::Closed,
            SocketEvent::Other => SocketEventView::Other,
        }
    }
}

impl RoomView {
    /// Whether a checked token lets its bearer open a connection to this
    /// room: the token is for this room, and its bearer is in the room
    /// under the token's name.
    pub open spec fn authorize_session(self, token: Result<ClaimsView, AppError>) -> Result<
        (PlayerId, Seq<char>),
        AppError,
    > {
        match token {
            Err(error) => Err(error),
            Ok(claims) => if claims.room_id != self.room_id {
                Err(AppError::RoomMismatch)
            } else if !self.matches(claims.player_id, claims.name) {
                Err(AppError::UserNotInRoom)
            } else {
                Ok((claims.player_id, claims.name))
            },
        }
    }

    /// What a message from player `id` does to the room, and what goes
    /// out.
    pub open spec fn client_message(self, id: PlayerId, message: ClientMessageView) -> (
        RoomView,
        Seq<OutboundView>,
    ) {
        match message {
            ClientMessageView::Buzz => (self.send_buzz(id), Seq::empty()),
            ClientMessageView::StartRound => self.start_round(id),
            ClientMessageView::ContinueRound => self.continue_round(id),
            ClientMessageView::SetAdmin { name } => (
                self.set_admin_by_name(id, name).0,
                self.set_admin_by_name(id, name).2,
            ),
            ClientMessageView::Kick { name } => (
                self.kick_by_name(id, name).0,
                self.kick_by_name(id, name).2,
            ),
        }
    }

    /// What an event on the connection of player `id` does to the room,
    /// whether the connection stays open, and what goes out. A frame
    /// over the quota is refused and does nothing else; a frame that
    /// cannot be read is passed over. The connection ends when the
    /// client closes it, when a message cannot be passed on, and when
    /// the message passed on was the last one for its receiver: a
    /// player who is told to be out of the room is not listened to any
    /// longer.
    pub open spec fn socket_event(self, id: PlayerId, event: SocketEventView) -> (
        RoomView,
        bool,
        Seq<OutboundView>,
    ) {
        match event {
            SocketEventView::Text { within_quota, message } => if !within_quota {
                (self, true, self.denied(id, "rate_limited"@))
            } else {
                match message {
                    Some(message) => (
                        self.client_message(id, message).0,
                        true,
                        self.client_message(id, message).1,
                    ),
                    None => (self, true, Seq::empty()),
                }
            },
            SocketEventView::Forwarded { last } => (self, !last, Seq::empty()),
            SocketEventView::SendFailed => (self.detach_connection(id), false, Seq::empty()),
            SocketEventView::Closed => (self.detach_connection(id), false, Seq::empty()),
            SocketEventView::Other => (self, true, Seq::empty()),
        }
    }
}

/// Checks that a checked token lets its bearer open a connection to the
/// room, and gives the identity the connection will speak for.
pub fn authorize_session(room: &RoomState, token: Result<Claims, AppError>) -> (result: Result<
    PlayerSession,
    AppError,
>)
    ensures
        match result {
            Ok(session) => room@.authorize_session(checked_view(token)) == Ok::<
                (PlayerId, Seq<char>),
                AppError,
            >((session.player_id, session.name@)),
            Err(error) => room@.authorize_session(checked_view(token)) == Err::<
                (PlayerId, Seq<char>),
                AppError,
            >(error),
        },
{
    let claims = match token {
        Ok(claims) => claims,
        Err(error) => {
            return Err(error);
        },
    };
    if !same_text(claims.room_id.as_str(), room.id()) {
        return Err(AppError::RoomMismatch);
    }
    if !room.player_matches(claims.player_id, claims.name.as_str()) {
        return Err(AppError::UserNotInRoom);
    }
    Ok(PlayerSession { player_id: claims.player_id, name: claims.name })
}

/// Opens the session's connection: the room registers the endpoint and
/// greets it with the roster. Where the session's player has left the
/// room or goes by another name, nothing is registered and the
/// connection is to be closed without a word.
pub fn open_socket(room: &mut RoomState, session: &PlayerSession, endpoint: EndpointId) -> (result:
    (bool, Vec<Outbound>))
    requires
        old(room)@.wf(),
    ensures
        (final(room)@, result.0, outbound_views(result.1@)) == old(room)@.attach_connection(
            session.player_id,
            session.name@,
            endpoint,
        ),
        final(room)@.wf(),
{
    room.attach_connection(session.player_id, session.name.as_str(), endpoint)
}

/// Serves one message of a connected player.
pub fn handle_client_message(
    room: &mut RoomState,
    player_id: PlayerId,
    message: ClientMessage,
) -> (out: Vec<Outbound>)
    requires
        old(room)@.wf(),
    ensures
        (final(room)@, outbound_views(out@)) == old(room)@.client_message(player_id, message@),
        final(room)@.wf(),
{
    match message {
        ClientMessage::Buzz => {
            room.send_buzz(player_id);
            let none: Vec<Outbound> = Vec::new();
            assert(outbound_views(none@) =~= Seq::empty());
            none
        },
        ClientMessage::StartRound => room.start_round(player_id),
        ClientMessage::ContinueRound => room.continue_round(player_id),
        ClientMessage::SetAdmin { name } => room.set_admin_by_name(player_id, name.as_str()).1,
        ClientMessage::Kick { name } => room.kick_by_name(player_id, name.as_str()).1,
    }
}

/// Serves one event on a session's connection. The first part of the
/// answer says whether the connection stays open.
pub fn handle_socket(room: &mut RoomState, session: &PlayerSession, event: SocketEvent) -> (result:
    (bool, Vec<Outbound>))
    requires
        old(room)@.wf(),
    ensures
        (final(room)@, result.0, outbound_views(result.1@)) == old(room)@.socket_event(
            session.player_id,
            event@,
        ),
        final(room)@.wf(),
{
    let none: Vec<Outbound> = Vec::new();
    assert(outbound_views(none@) =~= Seq::empty());
    match event {
        SocketEvent::Text { within_quota, message } => {
            if !within_quota {
                return (true, room.send_denied_to(session.player_id, "rate_limited"));
            }
            match message {
                Some(message) => (true, handle_client_message(room, session.player_id, message)),
                None => (true, none),
            }
        },
        SocketEvent::Forwarded { last } => (!last, none),
        SocketEvent::SendFailed | SocketEvent::Closed => {
            room.detach_connection(session.player_id);
            (false, none)
        },
        SocketEvent::Other => (true, none),
    }
}

} // verus!
