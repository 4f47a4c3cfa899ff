//! The values that cross the service boundary: requests, responses and the
//! messages of the realtime channel. How they are encoded on the wire is
//! the transport's business.

use vstd::prelude::*;

verus! {

#[derive(Clone, Copy, Debug, PartialEq, Eq, Structural)]
pub enum Role {
    Admin,
    Player,
}

pub struct CreateRoomRequest {
    pub name: String,
    pub answer_window_in_ms: Option<u64>,
}

pub struct CreateRoomResponse {
    pub room_id: String,
    pub token: String,
    pub answer_window_in_ms: u64,
}

pub struct JoinRoomRequest {
    pub name: String,
}

pub struct JoinRoomResponse {
    pub room_id: String,
    pub token: String,
    pub answer_window_in_ms: u64,
    pub role: Role,
}

pub struct RefreshTokenResponse {
    pub room_id: String,
    pub new_token: String,
}

/// What a client may ask for over the realtime channel.
#[derive(Clone, Debug, PartialEq, Eq)]
pub enum ClientMessage {
    Buzz,
    StartRound,
    ContinueRound,
    SetAdmin { name: String },
    Kick { name: String },
}

pub ghost enum ClientMessageView {
    Buzz,
    StartRound,
    ContinueRound,
    SetAdmin { name: Seq<char> },
    Kick { name: Seq<char> },
}

impl View for ClientMessage {
    type V = ClientMessageView;

    open spec fn view(&self) -> ClientMessageView {
        match self {
            ClientMessage::Buzz => ClientMessageView::Buzz,
            ClientMessage::StartRound => ClientMessageView::StartRound,
            ClientMessage::ContinueRound => ClientMessageView::ContinueRound,
            ClientMessage::SetAdmin { name } => ClientMessageView::SetAdmin { name: name@ },
            ClientMessage::Kick { name } => ClientMessageView::Kick { name: name@ },
        }
    }
}

/// One line of the roster.
#[derive(Clone, Debug, PartialEq, Eq)]
pub struct ParticipantInfo {
    pub name: String,
    pub role: Role,
    pub locked_out: bool,
}

pub ghost struct ParticipantView {
    pub name: Seq<char>,
    pub role: Role,
    pub locked_out: bool,
}

impl View for ParticipantInfo {
    type V = ParticipantView;

    open spec fn view(&self) -> ParticipantView {
        ParticipantView { name: self.name@, role: self.role, locked_out: self.locked_out }
    }
}

/// The roster as a mathematical sequence.
pub open spec fn roster_view(roster: Seq<ParticipantInfo>) -> Seq<ParticipantView> {
    roster.map_values(|entry: ParticipantInfo| entry@)
}

/// What the server tells a client over the realtime channel.
#[derive(Clone, Debug, PartialEq, Eq)]
pub enum ServerMessage {
    Accepted { name: String, deadline_in_ms: u64 },
    Participants { participants: Vec<ParticipantInfo> },
    RoundStarted,
    RoundContinued,
    Rejected,
    TimedOut { name: String },
    ActionDenied { reason: String },
    Kicked,
}

pub ghost enum MessageView {
    Accepted { name: Seq<char>, deadline_in_ms: u64 },
    Participants { participants: Seq<ParticipantView> },
    RoundStarted,
    RoundContinued,
    Rejected,
    TimedOut { name: Seq<char> },
    ActionDenied { reason: Seq<char> },
    Kicked,
}

impl MessageView {
    /// Whether the message is the last one its receiver gets: the
    /// connection it went out on is closed once it has been passed on.
    pub open spec fn ends_connection(self) -> bool {
        self is Kicked
    }
}

impl ServerMessage {
    /// Whether the message is the last one its receiver gets: the
    /// connection it went out on is to be closed once it has been passed
    /// on. That is so of the notice that the receiver is out of the room.
    pub fn ends_connection(&self) -> (last: bool)
        ensures
            last == self@.ends_connection(),
    {
        match self {
            ServerMessage::Kicked => true,
            _ => false,
        }
    }
}

impl View for ServerMessage {
    type V = MessageView;

    open spec fn view(&self) -> MessageView {
        match self {
            ServerMessage::Accepted { name, deadline_in_ms } => MessageView::Accepted {
                name: name@,
                deadline_in_ms: *deadline_in_ms,
            },
            ServerMessage::Participants { participants } => MessageView::Participants {
                participants: roster_view(participants@),
            },
            ServerMessage::RoundStarted => MessageView::RoundStarted,
            ServerMessage::RoundContinued => MessageView::RoundContinued,
            ServerMessage::Rejected => MessageView::Rejected,
            ServerMessage::TimedOut { name } => MessageView::TimedOut { name: name@ },
            ServerMessage::ActionDenied { reason } => MessageView::ActionDenied {
                reason: reason@,
            },
            ServerMessage::Kicked => MessageView::Kicked,
        }
    }
}

/// The name a connection endpoint goes by. The transport picks it when a
/// connection opens and keeps track of which connection it stands for.
pub type EndpointId = u64;

/// A message together with the endpoints it is to be delivered to, in
/// order. Delivery is best effort: a failed send to one endpoint is
/// dropped and does not hold up the others.
#[derive(Clone, Debug, PartialEq, Eq)]
pub struct Outbound {
    pub recipients: Vec<EndpointId>,
    pub message: ServerMessage,
}

pub ghost struct OutboundView {
    pub recipients: Seq<EndpointId>,
    pub message: MessageView,
}

impl View for Outbound {
    type V = OutboundView;

    open spec fn view(&self) -> OutboundView {
        OutboundView { recipients: self.recipients@, message: self.message@ }
    }
}

/// A list of deliveries as a mathematical sequence.
pub open spec fn outbound_views(list: Seq<Outbound>) -> Seq<OutboundView> {
    list.map_values(|item: Outbound| item@)
}

/// A list of deliveries grows by one.
pub proof fn lemma_views_push(list: Seq<Outbound>, item: Outbound)
    ensures
        outbound_views(list.push(item)) == outbound_views(list).push(item@),
{
    assert(outbound_views(list.push(item)) =~= outbound_views(list).push(item@));
}

} // verus!
