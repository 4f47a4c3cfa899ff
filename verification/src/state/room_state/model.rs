//! A room as a mathematical value, and every change a room can undergo as
//! a function from the room before to the room after.

use crate::auth::{claims_issued, expiry_after, ClaimsView};
use crate::dtos::{EndpointId, MessageView, OutboundView, ParticipantView, Role};
use crate::errors::AppError;
use crate::game::{GameView, OutputEvent, Phase, PlayerId};
use crate::scheduler::tick_result;
use crate::text::{text_precedes, trimmed};
use vstd::prelude::*;

verus! {

/// The number of slots in a room.
pub const ROOM_CAPACITY: usize = 128;

pub ghost struct RoomView {
    pub room_id: Seq<char>,
    pub answer_window_in_ms: u64,
    pub tick_in_ms: u64,
    pub token_ttl_in_secs: u64,
    /// The display name of every player in the room.
    pub names: Map<PlayerId, Seq<char>>,
    /// The player behind every display name in use.
    pub ids: Map<Seq<char>, PlayerId>,
    /// When each player's latest token lapses, in seconds.
    pub expiry: Map<PlayerId, u64>,
    /// The live connection of each connected player.
    pub endpoints: Map<PlayerId, EndpointId>,
    /// The id the next player to join will get.
    pub next_id: PlayerId,
    pub admin: Option<PlayerId>,
    /// Whether a round has been started in this room.
    pub round_started: bool,
    /// Whether a new round has been asked for since the last tick.
    pub start_requested: bool,
    /// Whether a move past the answerer has been asked for since the last
    /// tick.
    pub continue_requested: bool,
    pub shut_down: bool,
    /// The endpoints that were live when the room was closed, by player
    /// id: the connections that are to be closed with it.
    pub closing: Seq<EndpointId>,
    /// The buzzes that arrived since the last tick, oldest first.
    pub buzzes: Seq<PlayerId>,
    pub game: GameView,
}

impl RoomView {
    /// What holds of every room: ids are handed out in order and at most
    /// 128 of them; the two directions of the name index agree, so no
    /// name is used twice; tokens and connections belong to players of
    /// the room; and until the first round is started, the engine counts
    /// every player as joined who has got an id.
    pub open spec fn wf(self) -> bool {
        &&& self.next_id <= ROOM_CAPACITY
        &&& forall|id: PlayerId| #[trigger]
            self.names.contains_key(id) ==> id < self.next_id && self.ids.contains_key(
                self.names[id],
            ) && self.ids[self.names[id]] == id
        &&& forall|name: Seq<char>| #[trigger]
            self.ids.contains_key(name) ==> self.names.contains_key(self.ids[name])
                && self.names[self.ids[name]] == name
        &&& forall|id: PlayerId| #[trigger]
            self.expiry.contains_key(id) ==> self.names.contains_key(id)
        &&& forall|id: PlayerId| #[trigger]
            self.endpoints.contains_key(id) ==> self.names.contains_key(id)
        &&& self.game.window_in_ms == self.answer_window_in_ms
        &&& !self.round_started ==> self.game.joined == self.next_id
    }

    /// A room right after it was made.
    pub open spec fn initial(
        room_id: Seq<char>,
        answer_window_in_ms: u64,
        tick_in_ms: u64,
        token_ttl_in_secs: u64,
    ) -> RoomView {
        RoomView {
            room_id,
            answer_window_in_ms,
            tick_in_ms,
            token_ttl_in_secs,
            names: Map::empty(),
            ids: Map::empty(),
            expiry: Map::empty(),
            endpoints: Map::empty(),
            next_id: 0,
            admin: None,
            round_started: false,
            start_requested: false,
            continue_requested: false,
            shut_down: false,
            closing: Seq::empty(),
            buzzes: Seq::empty(),
            game: GameView {
                window_in_ms: answer_window_in_ms,
                phase: Phase::Idle,
                locked: Set::empty(),
                joined: 0,
            },
        }
    }

    /// The room closed for good: it is marked as shut down, and every
    /// connection it had is dropped and noted as one to be closed.
    pub open spec fn closed(self) -> RoomView {
        RoomView {
            shut_down: true,
            endpoints: Map::empty(),
            closing: self.recipients(),
            ..self
        }
    }

    pub open spec fn role_of(self, id: PlayerId) -> Role {
        if self.admin == Some(id) {
            Role::Admin
        } else {
            Role::Player
        }
    }

    /// Whether player `id` is in the room under exactly this name.
    pub open spec fn matches(self, id: PlayerId, name: Seq<char>) -> bool {
        self.names.contains_key(id) && self.names[id] == name
    }

    /// Whether the room has an admin whose token is still good at `now`.
    pub open spec fn admin_present(self, now_in_secs: u64) -> bool {
        match self.admin {
            Some(id) => self.expiry.contains_key(id) && now_in_secs < self.expiry[id],
            None => false,
        }
    }

    // Membership

    /// The room with one more player. The player may buzz at once where
    /// no round has been started yet; in a room where one has, the player
    /// waits for the next round to start.
    pub open spec fn with_player(self, name: Seq<char>, role: Role) -> RoomView {
        RoomView {
            names: self.names.insert(self.next_id, name),
            ids: self.ids.insert(name, self.next_id),
            next_id: (self.next_id + 1) as usize,
            admin: if role == Role::Admin {
                Some(self.next_id)
            } else {
                self.admin
            },
            game: if self.round_started {
                self.game
            } else {
                GameView { joined: (self.next_id + 1) as usize, ..self.game }
            },
            ..self
        }
    }

    /// A new player under a name: refused where the name is in use, then
    /// where the room is full; else the player gets the next id.
    pub open spec fn insert_player(self, name: Seq<char>, role: Role) -> (
        RoomView,
        Result<PlayerId, AppError>,
    ) {
        if self.ids.contains_key(name) {
            (self, Err(AppError::NameTaken))
        } else if self.next_id >= ROOM_CAPACITY {
            (self, Err(AppError::FullRoom))
        } else {
            (self.with_player(name, role), Ok(self.next_id))
        }
    }

    pub open spec fn without_player(self, id: PlayerId) -> RoomView {
        RoomView {
            names: self.names.remove(id),
            ids: self.ids.remove(self.names[id]),
            expiry: self.expiry.remove(id),
            endpoints: self.endpoints.remove(id),
            admin: if self.admin == Some(id) {
                None
            } else {
                self.admin
            },
            ..self
        }
    }

    /// A player leaves the room with everything kept about them.
    pub open spec fn remove_player(self, id: PlayerId) -> (
        RoomView,
        Result<(Seq<char>, Role), AppError>,
    ) {
        if self.names.contains_key(id) {
            (self.without_player(id), Ok((self.names[id], self.role_of(id))))
        } else {
            (self, Err(AppError::Kicked))
        }
    }

    pub open spec fn with_admin(self, id: PlayerId) -> RoomView {
        RoomView { admin: Some(id), ..self }
    }

    // Sessions

    /// The claims of a token issued at `now` to an identity of this room.
    pub open spec fn claims_for(
        self,
        id: PlayerId,
        name: Seq<char>,
        role: Role,
        now_in_secs: u64,
    ) -> ClaimsView {
        claims_issued(self.room_id, id, name, role, now_in_secs, self.token_ttl_in_secs)
    }

    /// The room after a token was issued to player `id` at `now`.
    pub open spec fn with_token(self, id: PlayerId, now_in_secs: u64) -> RoomView {
        RoomView {
            expiry: self.expiry.insert(id, expiry_after(now_in_secs, self.token_ttl_in_secs)),
            ..self
        }
    }

    /// The room's creator joins as its admin.
    pub open spec fn create_admin(self, name: Seq<char>, now_in_secs: u64) -> (
        RoomView,
        Result<ClaimsView, AppError>,
    ) {
        match self.insert_player(name, Role::Admin).1 {
            Ok(id) => (
                self.with_player(name, Role::Admin).with_token(id, now_in_secs),
                Ok(self.claims_for(id, name, Role::Admin, now_in_secs)),
            ),
            Err(error) => (self, Err(error)),
        }
    }

    pub open spec fn renamed(self, id: PlayerId, name: Seq<char>) -> RoomView {
        RoomView {
            names: self.names.insert(id, name),
            ids: self.ids.remove(self.names[id]).insert(name, id),
            endpoints: self.endpoints.remove(id),
            ..self
        }
    }

    /// A player comes back with a checked token: the player keeps id and
    /// role, takes the name asked for, and starts without a connection.
    pub open spec fn rejoin(self, name: Seq<char>, claims: ClaimsView, now_in_secs: u64) -> (
        RoomView,
        Result<ClaimsView, AppError>,
    ) {
        let id = claims.player_id;
        if claims.room_id != self.room_id {
            (self, Err(AppError::RoomMismatch))
        } else if !self.matches(id, claims.name) {
            (self, Err(AppError::UserNotInRoom))
        } else if self.ids.contains_key(name) && self.ids[name] != id {
            (self, Err(AppError::NameTaken))
        } else {
            (
                self.renamed(id, name).with_token(id, now_in_secs),
                Ok(self.claims_for(id, name, self.role_of(id), now_in_secs)),
            )
        }
    }

    /// A join under a name, with the outcome of checking the token that
    /// came with it, if one came.
    pub open spec fn resolve_join(
        self,
        name: Seq<char>,
        token: Option<Result<ClaimsView, AppError>>,
        now_in_secs: u64,
    ) -> (RoomView, Result<ClaimsView, AppError>) {
        match token {
            Some(Err(error)) => (self, Err(error)),
            Some(Ok(claims)) => self.rejoin(name, claims, now_in_secs),
            None => match self.insert_player(name, Role::Player).1 {
                Ok(id) => (
                    self.with_player(name, Role::Player).with_token(id, now_in_secs),
                    Ok(self.claims_for(id, name, Role::Player, now_in_secs)),
                ),
                Err(error) => (self, Err(error)),
            },
        }
    }

    /// A token is traded for a fresh one with the same identity.
    pub open spec fn refresh_token(
        self,
        token: Result<ClaimsView, AppError>,
        now_in_secs: u64,
    ) -> (RoomView, Result<ClaimsView, AppError>) {
        match token {
            Err(error) => (self, Err(error)),
            Ok(claims) => if claims.room_id != self.room_id {
                (self, Err(AppError::RoomMismatch))
            } else if !self.matches(claims.player_id, claims.name) {
                (self, Err(AppError::UserNotInRoom))
            } else {
                (
                    self.with_token(claims.player_id, now_in_secs),
                    Ok(
                        self.claims_for(
                            claims.player_id,
                            claims.name,
                            claims.role,
                            now_in_secs,
                        ),
                    ),
                )
            },
        }
    }

    /// A join as the room answers it: where it succeeds, everybody
    /// connected gets the new roster.
    pub open spec fn join(
        self,
        name: Seq<char>,
        token: Option<Result<ClaimsView, AppError>>,
        now_in_secs: u64,
    ) -> (RoomView, Result<ClaimsView, AppError>, Seq<OutboundView>) {
        let (room, result) = self.resolve_join(name, token, now_in_secs);
        match result {
            Ok(claims) => (room, Ok(claims), seq![room.to_all(room.roster_message())]),
            Err(error) => (room, Err(error), Seq::empty()),
        }
    }

    // Messaging

    /// The endpoints of the connected players with ids below `bound`, by
    /// id.
    pub open spec fn endpoints_below(self, bound: nat) -> Seq<EndpointId>
        decreases bound,
    {
        if bound == 0 {
            Seq::empty()
        } else {
            let id = (bound - 1) as usize;
            let earlier = self.endpoints_below((bound - 1) as nat);
            if self.endpoints.contains_key(id) {
                earlier.push(self.endpoints[id])
            } else {
                earlier
            }
        }
    }

    /// The endpoints a broadcast goes to.
    pub open spec fn recipients(self) -> Seq<EndpointId> {
        self.endpoints_below(self.next_id as nat)
    }

    pub open spec fn to_all(self, message: MessageView) -> OutboundView {
        OutboundView { recipients: self.recipients(), message }
    }

    /// A message for one player: nothing where the player has no live
    /// connection.
    pub open spec fn to_player(self, id: PlayerId, message: MessageView) -> Seq<OutboundView> {
        if self.endpoints.contains_key(id) {
            seq![OutboundView { recipients: seq![self.endpoints[id]], message }]
        } else {
            Seq::empty()
        }
    }

    pub open spec fn denied(self, id: PlayerId, reason: Seq<char>) -> Seq<OutboundView> {
        self.to_player(id, MessageView::ActionDenied { reason })
    }

    /// Whether a sequence is the room's roster: one line for each name in
    /// use, with the player's role and whether the player is locked out
    /// of the round, the names in strictly rising order.
    pub open spec fn is_roster(self, roster: Seq<ParticipantView>) -> bool {
        &&& forall|i: int, j: int|
            0 <= i < j < roster.len() ==> text_precedes(
                (#[trigger] roster[i]).name,
                (#[trigger] roster[j]).name,
            )
        &&& forall|i: int|
            0 <= i < roster.len() ==> {
                let line = #[trigger] roster[i];
                &&& self.ids.contains_key(line.name)
                &&& line.role == self.role_of(self.ids[line.name])
                &&& line.locked_out == self.game.is_locked_out(self.ids[line.name])
            }
        &&& forall|name: Seq<char>| #[trigger]
            self.ids.contains_key(name) ==> exists|i: int|
                0 <= i < roster.len() && (#[trigger] roster[i]).name == name
    }

    /// The room's roster.
    pub open spec fn roster(self) -> Seq<ParticipantView> {
        choose|roster: Seq<ParticipantView>| self.is_roster(roster)
    }

    pub open spec fn roster_message(self) -> MessageView {
        MessageView::Participants { participants: self.roster() }
    }

    // Connections

    pub open spec fn attach_connection(
        self,
        id: PlayerId,
        name: Seq<char>,
        endpoint: EndpointId,
    ) -> (RoomView, bool, Seq<OutboundView>) {
        if self.matches(id, name) {
            let room = RoomView { endpoints: self.endpoints.insert(id, endpoint), ..self };
            (room, true, room.to_player(id, room.roster_message()))
        } else {
            (self, false, Seq::empty())
        }
    }

    pub open spec fn detach_connection(self, id: PlayerId) -> RoomView {
        RoomView { endpoints: self.endpoints.remove(id), ..self }
    }

    // Admin commands

    /// Why a request by `requester` about the player who goes by `target`
    /// is refused, if it is: the requester is not the admin, the name is
    /// empty, the name is the requester's own, or nobody goes by the name.
    /// `own` is the reason given where the name is the requester's own.
    pub open spec fn refusal(
        self,
        requester: PlayerId,
        target: Seq<char>,
        own: Seq<char>,
    ) -> Option<Seq<char>> {
        if self.admin != Some(requester) {
            Some("forbidden"@)
        } else if target.len() == 0 {
            Some("user_not_found"@)
        } else if self.matches(requester, target) {
            Some(own)
        } else if !self.ids.contains_key(target) {
            Some("user_not_found"@)
        } else {
            None
        }
    }

    /// The admin removes the player who goes by exactly the name
    /// `target`: the player is told, if connected, and leaves; everybody
    /// still connected gets the new roster. A request that is refused
    /// changes nothing and is answered to the requester alone.
    pub open spec fn kick_target(self, requester: PlayerId, target: Seq<char>) -> (
        RoomView,
        bool,
        Seq<OutboundView>,
    ) {
        match self.refusal(requester, target, "cannot_kick_self"@) {
            Some(reason) => (self, false, self.denied(requester, reason)),
            None => {
                let id = self.ids[target];
                let room = self.without_player(id);
                (
                    room,
                    true,
                    self.to_player(id, MessageView::Kicked).push(
                        room.to_all(room.roster_message()),
                    ),
                )
            },
        }
    }

    /// The admin removes a player by name. White space around the name
    /// does not count.
    pub open spec fn kick_by_name(self, requester: PlayerId, name: Seq<char>) -> (
        RoomView,
        bool,
        Seq<OutboundView>,
    ) {
        self.kick_target(requester, trimmed(name))
    }

    /// The admin hands the role to the player who goes by exactly the
    /// name `target`; everybody connected gets the new roster. A request
    /// that is refused changes nothing and is answered to the requester
    /// alone.
    pub open spec fn set_admin_target(self, requester: PlayerId, target: Seq<char>) -> (
        RoomView,
        bool,
        Seq<OutboundView>,
    ) {
        match self.refusal(requester, target, "cannot_set_yourself_admin"@) {
            Some(reason) => (self, false, self.denied(requester, reason)),
            None => {
                let room = self.with_admin(self.ids[target]);
                (room, true, seq![room.to_all(room.roster_message())])
            },
        }
    }

    /// The admin hands the role to another player by name. White space
    /// around the name does not count.
    pub open spec fn set_admin_by_name(self, requester: PlayerId, name: Seq<char>) -> (
        RoomView,
        bool,
        Seq<OutboundView>,
    ) {
        self.set_admin_target(requester, trimmed(name))
    }

    pub open spec fn start_round(self, requester: PlayerId) -> (RoomView, Seq<OutboundView>) {
        if self.admin == Some(requester) {
            (RoomView { start_requested: true, ..self }, Seq::empty())
        } else {
            (self, self.denied(requester, "forbidden"@))
        }
    }

    pub open spec fn continue_round(self, requester: PlayerId) -> (RoomView, Seq<OutboundView>) {
        if self.admin == Some(requester) {
            (RoomView { continue_requested: true, ..self }, Seq::empty())
        } else {
            (self, self.denied(requester, "forbidden"@))
        }
    }

    // Sweep

    /// The players whose token has lapsed at `now`.
    pub open spec fn expired(self, now_in_secs: u64) -> Set<PlayerId> {
        Set::new(|id: PlayerId| self.expiry.contains_key(id) && now_in_secs >= self.expiry[id])
    }

    /// The players with ids below `bound` whose token has lapsed at `now`.
    pub open spec fn expired_below(self, now_in_secs: u64, bound: nat) -> Set<PlayerId> {
        Set::new(
            |id: PlayerId|
                id < bound && self.expiry.contains_key(id) && now_in_secs >= self.expiry[id],
        )
    }

    /// The room without the players in `gone`.
    pub open spec fn without_players(self, gone: Set<PlayerId>) -> RoomView {
        RoomView {
            names: self.names.remove_keys(gone),
            ids: Map::new(
                |name: Seq<char>| self.ids.contains_key(name) && !gone.contains(self.ids[name]),
                |name: Seq<char>| self.ids[name],
            ),
            expiry: self.expiry.remove_keys(gone),
            endpoints: self.endpoints.remove_keys(gone),
            admin: match self.admin {
                Some(id) => if gone.contains(id) {
                    None
                } else {
                    Some(id)
                },
                None => None,
            },
            ..self
        }
    }

    /// The notices to the connected players in `gone` with ids below
    /// `bound`, by id.
    pub open spec fn kicked_notices(self, gone: Set<PlayerId>, bound: nat) -> Seq<OutboundView>
        decreases bound,
    {
        if bound == 0 {
            Seq::empty()
        } else {
            let id = (bound - 1) as usize;
            let earlier = self.kicked_notices(gone, (bound - 1) as nat);
            if gone.contains(id) {
                earlier + self.to_player(id, MessageView::Kicked)
            } else {
                earlier
            }
        }
    }

    /// Every player whose token has lapsed is told so and leaves.
    pub open spec fn cleanup_expired(self, now_in_secs: u64) -> (RoomView, Seq<OutboundView>) {
        let gone = self.expired(now_in_secs);
        (self.without_players(gone), self.kicked_notices(gone, self.next_id as nat))
    }

    // Game

    /// The name an event about player `id` is told under.
    pub open spec fn name_for(self, id: PlayerId) -> Seq<char> {
        if self.names.contains_key(id) {
            self.names[id]
        } else {
            "unknown"@
        }
    }

    /// Who is told of an event of the engine, and how: a rejection goes
    /// to the player who buzzed, everything else to everybody.
    pub open spec fn route_event(self, event: OutputEvent) -> Seq<OutboundView> {
        match event {
            OutputEvent::Accepted(id, deadline_in_ms) => seq![
                self.to_all(MessageView::Accepted { name: self.name_for(id), deadline_in_ms }),
            ],
            OutputEvent::Rejected(id) => self.to_player(id, MessageView::Rejected),
            OutputEvent::TimedOut(id) => seq![
                self.to_all(MessageView::TimedOut { name: self.name_for(id) }),
            ],
            OutputEvent::RoundStarted => seq![self.to_all(MessageView::RoundStarted)],
            OutputEvent::RoundContinued => seq![self.to_all(MessageView::RoundContinued)],
        }
    }

    pub open spec fn route_events(self, events: Seq<OutputEvent>) -> Seq<OutboundView>
        decreases events.len(),
    {
        if events.len() == 0 {
            Seq::empty()
        } else {
            self.route_events(events.drop_last()) + self.route_event(events.last())
        }
    }

    pub open spec fn send_buzz(self, id: PlayerId) -> RoomView {
        RoomView { buzzes: self.buzzes.push(id), ..self }
    }

    /// One tick of the room's clock at `now`: the requests for a new or a
    /// continued round are served, the waiting buzzes are handled in the
    /// order they came, the answer window is checked, and every event is
    /// told to the room. A buzz needs no round to have been started:
    /// until the first round starts, every player who has joined may
    /// buzz.
    pub open spec fn run_tick(self, now_in_ms: u64) -> (RoomView, Seq<OutboundView>) {
        let room = RoomView {
            game: tick_result(
                self.game,
                self.start_requested,
                self.continue_requested,
                self.next_id,
                self.buzzes,
                now_in_ms,
            ).0,
            round_started: self.round_started || self.start_requested,
            start_requested: false,
            continue_requested: false,
            buzzes: Seq::empty(),
            ..self
        };
        (room, room.route_events(self.run_tick_events(now_in_ms)))
    }

    /// The events of the engine in one tick at `now`.
    pub open spec fn run_tick_events(self, now_in_ms: u64) -> Seq<OutputEvent> {
        tick_result(
            self.game,
            self.start_requested,
            self.continue_requested,
            self.next_id,
            self.buzzes,
            now_in_ms,
        ).1
    }
}

} // verus!
