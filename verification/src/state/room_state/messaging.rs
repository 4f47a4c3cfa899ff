//! Who is told what: the roster, broadcasts, and messages to one player.
//!
//! Nothing here sends anything. Each function gives the messages that are
//! to go out and the endpoints they are to go to; delivering them is the
//! transport's business.

use crate::adapter::{lemma_step_keeps_lockouts, step_result};
use crate::dtos::{
    outbound_views, roster_view, EndpointId, MessageView, Outbound, ParticipantInfo, Role,
    ServerMessage,
};
use crate::game::{mask_has, GameView, OutputEvent, PlayerId, MAX_PLAYER_ID};
use crate::scheduler::{run_tick, BuzzQueue, EventLog};
use crate::state::room_state::laws::{
    lemma_connection_wf, lemma_roster_found, lemma_same_members_wf,
};
use crate::state::room_state::RoomState;
use crate::tables::{names_get, numbers_get, numbers_insert, numbers_remove};
use crate::text::{lemma_precedes_total, lemma_precedes_transitive, precedes, text_precedes};
use vstd::prelude::*;

verus! {

/// Whether the lines stand in strictly rising order of their names.
pub open spec fn lines_sorted(lines: Seq<ParticipantInfo>) -> bool {
    forall|i: int, j: int|
        0 <= i < j < lines.len() ==> text_precedes(
            (#[trigger] lines[i]).name@,
            (#[trigger] lines[j]).name@,
        )
}

/// Puts a line into a sorted list at its place by name.
fn insert_line(list: &mut Vec<ParticipantInfo>, line: ParticipantInfo) -> (at: usize)
    requires
        lines_sorted(old(list)@),
        forall|i: int| 0 <= i < old(list)@.len() ==> (#[trigger] old(list)@[i]).name@ != line.name@,
    ensures
        at <= old(list)@.len(),
        final(list)@ == old(list)@.insert(at as int, line),
        lines_sorted(final(list)@),
{
    let mut at: usize = 0;
    while at < list.len() && precedes(list[at].name.as_str(), line.name.as_str())
        invariant
            at <= list@.len(),
            list@ == old(list)@,
            forall|i: int| 0 <= i < at ==> text_precedes((#[trigger] list@[i]).name@, line.name@),
        decreases list@.len() - at,
    {
        at = at + 1;
    }
    proof {
        let before = list@;
        let after = before.insert(at as int, line);
        assert forall|i: int, j: int| 0 <= i < j < after.len() implies text_precedes(
            (#[trigger] after[i]).name@,
            (#[trigger] after[j]).name@,
        ) by {
            if j < at {
                assert(after[i] == before[i] && after[j] == before[j]);
            } else if j == at {
                assert(after[i] == before[i]);
            } else if i == at {
                assert(after[j] == before[j - 1]);
                assert(!text_precedes(before[at as int].name@, line.name@));
                lemma_precedes_total(before[at as int].name@, line.name@);
                if j - 1 > at {
                    lemma_precedes_transitive(
                        line.name@,
                        before[at as int].name@,
                        before[j - 1].name@,
                    );
                }
            } else if i < at {
                assert(after[i] == before[i] && after[j] == before[j - 1]);
            } else {
                assert(after[i] == before[i - 1] && after[j] == before[j - 1]);
            }
        }
    }
    list.insert(at, line);
    at
}

impl RoomState {
    /// The roster: one line per player, sorted by name.
    pub fn participants(&self) -> (roster: Vec<ParticipantInfo>)
        requires
            self@.wf(),
        ensures
            roster_view(roster@) == self@.roster(),
            self@.is_roster(self@.roster()),
    {
        let mask = self.game.locked_out_players();
        let mut list: Vec<ParticipantInfo> = Vec::new();
        let mut id: PlayerId = 0;
        while id < self.next_id
            invariant
                self@.wf(),
                id <= self.next_id,
                forall|p: PlayerId|
                    p <= MAX_PLAYER_ID ==> (mask_has(mask, p) <==> self@.game.is_locked_out(p)),
                lines_sorted(list@),
                forall|i: int|
                    0 <= i < list@.len() ==> {
                        let line = #[trigger] list@[i];
                        &&& self@.ids.contains_key(line.name@)
                        &&& self@.ids[line.name@] < id
                        &&& line.role == self@.role_of(self@.ids[line.name@])
                        &&& line.locked_out == self@.game.is_locked_out(self@.ids[line.name@])
                    },
                forall|p: PlayerId|
                    p < id && #[trigger] self@.names.contains_key(p) ==> exists|i: int|
                        0 <= i < list@.len() && (#[trigger] list@[i]).name@ == self@.names[p],
            decreases self.next_id - id,
        {
            match names_get(&self.names_by_id, id) {
                Some(name) => {
                    let role = if self.is_admin(id) {
                        Role::Admin
                    } else {
                        Role::Player
                    };
                    let locked_out = mask & (1u128 << id) != 0;
                    let line = ParticipantInfo { name, role, locked_out };
                    let ghost before = list@;
                    assert(self@.names.contains_key(id));
                    let at = insert_line(&mut list, line);
                    proof {
                        assert forall|i: int| 0 <= i < list@.len() implies {
                            let entry = #[trigger] list@[i];
                            &&& self@.ids.contains_key(entry.name@)
                            &&& self@.ids[entry.name@] < id + 1
                            &&& entry.role == self@.role_of(self@.ids[entry.name@])
                            &&& entry.locked_out == self@.game.is_locked_out(
                                self@.ids[entry.name@],
                            )
                        } by {
                            if i < at {
                                assert(list@[i] == before[i]);
                            } else if i > at {
                                assert(list@[i] == before[i - 1]);
                            } else {
                                assert(list@[i] == line);
                                assert(locked_out == mask_has(mask, id));
                            }
                        }
                        assert forall|p: PlayerId|
                            p < id + 1 && #[trigger] self@.names.contains_key(p) implies exists|
                            i: int,
                        |
                            0 <= i < list@.len() && (#[trigger] list@[i]).name@
                                == self@.names[p] by {
                            if p < id {
                                let i = choose|i: int|
                                    0 <= i < before.len() && (#[trigger] before[i]).name@
                                        == self@.names[p];
                                if i < at {
                                    assert(list@[i] == before[i]);
                                } else {
                                    assert(list@[i + 1] == before[i]);
                                }
                            } else {
                                assert(list@[at as int].name@ == self@.names[p]);
                            }
                        }
                    }
                },
                None => {},
            }
            id = id + 1;
        }
        proof {
            let found = roster_view(list@);
            assert forall|i: int, j: int| 0 <= i < j < found.len() implies text_precedes(
                (#[trigger] found[i]).name,
                (#[trigger] found[j]).name,
            ) by {
                assert(found[i] == list@[i]@ && found[j] == list@[j]@);
            }
            assert forall|i: int| 0 <= i < found.len() implies {
                let line = #[trigger] found[i];
                &&& self@.ids.contains_key(line.name)
                &&& line.role == self@.role_of(self@.ids[line.name])
                &&& line.locked_out == self@.game.is_locked_out(self@.ids[line.name])
            } by {
                assert(found[i] == list@[i]@);
            }
            assert forall|name: Seq<char>| #[trigger] self@.ids.contains_key(name) implies exists|
                i: int,
            | 0 <= i < found.len() && (#[trigger] found[i]).name == name by {
                let p = self@.ids[name];
                assert(self@.names.contains_key(p));
                let i = choose|i: int|
                    0 <= i < list@.len() && (#[trigger] list@[i]).name@ == self@.names[p];
                assert(found[i] == list@[i]@);
            }
            lemma_roster_found(self@, found);
        }
        list
    }

    /// The endpoints a broadcast goes to: those of the connected players,
    /// by player id.
    pub fn connected_endpoints(&self) -> (list: Vec<EndpointId>)
        ensures
            list@ == self@.recipients(),
    {
        let mut list: Vec<EndpointId> = Vec::new();
        let mut id: PlayerId = 0;
        while id < self.next_id
            invariant
                id <= self.next_id,
                list@ == self@.endpoints_below(id as nat),
            decreases self.next_id - id,
        {
            match numbers_get(&self.routes, id) {
                Some(endpoint) => {
                    list.push(endpoint);
                },
                None => {},
            }
            id = id + 1;
        }
        list
    }

    /// A message for every connected player.
    fn broadcast(&self, msg: ServerMessage) -> (out: Outbound)
        ensures
            out@ == self@.to_all(msg@),
    {
        Outbound { recipients: self.connected_endpoints(), message: msg }
    }

    /// A message for one player; nothing where the player has no live
    /// connection.
    fn send_to_player(&self, player_id: PlayerId, msg: ServerMessage) -> (out: Vec<Outbound>)
        ensures
            outbound_views(out@) == self@.to_player(player_id, msg@),
    {
        let mut out: Vec<Outbound> = Vec::new();
        match numbers_get(&self.routes, player_id) {
            Some(endpoint) => {
                let mut recipients: Vec<EndpointId> = Vec::new();
                recipients.push(endpoint);
                assert(recipients@ =~= seq![endpoint]);
                out.push(Outbound { recipients, message: msg });
                assert(outbound_views(out@) =~= self@.to_player(player_id, msg@));
            },
            None => {
                assert(outbound_views(out@) =~= self@.to_player(player_id, msg@));
            },
        }
        out
    }

    /// The roster for every connected player.
    pub fn broadcast_participants(&self) -> (out: Outbound)
        requires
            self@.wf(),
        ensures
            out@ == self@.to_all(self@.roster_message()),
            self@.is_roster(self@.roster()),
    {
        let msg = ServerMessage::Participants { participants: self.participants() };
        self.broadcast(msg)
    }

    /// The roster for one player, if connected.
    pub fn send_participants_to(&self, player_id: PlayerId) -> (out: Vec<Outbound>)
        requires
            self@.wf(),
        ensures
            outbound_views(out@) == self@.to_player(player_id, self@.roster_message()),
            self@.is_roster(self@.roster()),
    {
        let msg = ServerMessage::Participants { participants: self.participants() };
        self.send_to_player(player_id, msg)
    }

    /// The notice to a player, if connected, that they are out of the
    /// room.
    pub fn send_kicked_to(&self, player_id: PlayerId) -> (out: Vec<Outbound>)
        ensures
            outbound_views(out@) == self@.to_player(player_id, MessageView::Kicked),
    {
        self.send_to_player(player_id, ServerMessage::Kicked)
    }

    /// The notice to a player, if connected, that a request of theirs was
    /// refused, and why.
    pub fn send_denied_to(&self, player_id: PlayerId, reason: &str) -> (out: Vec<Outbound>)
        ensures
            outbound_views(out@) == self@.denied(player_id, reason@),
    {
        let msg = ServerMessage::ActionDenied { reason: reason.to_owned() };
        self.send_to_player(player_id, msg)
    }

    /// Registers the live connection of a player who is in the room
    /// under exactly this name, and greets it with the roster. A
    /// connection the player had before is forgotten.
    pub fn attach_connection(
        &mut self,
        player_id: PlayerId,
        name: &str,
        endpoint: EndpointId,
    ) -> (result: (bool, Vec<Outbound>))
        requires
            old(self)@.wf(),
        ensures
            (final(self)@, result.0, outbound_views(result.1@)) == old(self)@.attach_connection(
                player_id,
                name@,
                endpoint,
            ),
            final(self)@.wf(),
            result.0 ==> final(self)@.is_roster(final(self)@.roster()),
    {
        proof {
            lemma_connection_wf(self@, player_id, name@, endpoint);
        }
        if !self.player_matches(player_id, name) {
            let none: Vec<Outbound> = Vec::new();
            assert(outbound_views(none@) =~= Seq::empty());
            return (false, none);
        }
        numbers_insert(&mut self.routes, player_id, endpoint);
        let greeting = self.send_participants_to(player_id);
        (true, greeting)
    }

    /// Forgets a player's live connection. The player stays in the room.
    pub fn detach_connection(&mut self, player_id: PlayerId)
        requires
            old(self)@.wf(),
        ensures
            final(self)@ == old(self)@.detach_connection(player_id),
            final(self)@.wf(),
    {
        proof {
            lemma_connection_wf(self@, player_id, Seq::empty(), 0);
        }
        numbers_remove(&mut self.routes, player_id);
    }

    /// Queues a buzz for the next tick.
    pub fn send_buzz(&mut self, player_id: PlayerId)
        requires
            old(self)@.wf(),
        ensures
            final(self)@ == old(self)@.send_buzz(player_id),
            final(self)@.wf(),
    {
        self.buzzes.push(player_id);
        proof {
            lemma_same_members_wf(old(self)@, self@);
        }
    }

    /// The admin asks for a new round; the next tick opens it. Anybody
    /// else is refused.
    pub fn start_round(&mut self, requester_id: PlayerId) -> (out: Vec<Outbound>)
        requires
            old(self)@.wf(),
        ensures
            (final(self)@, outbound_views(out@)) == old(self)@.start_round(requester_id),
            final(self)@.wf(),
    {
        if !self.is_admin(requester_id) {
            return self.send_denied_to(requester_id, "forbidden");
        }
        self.reset_flag = true;
        proof {
            lemma_same_members_wf(old(self)@, self@);
        }
        let none: Vec<Outbound> = Vec::new();
        assert(outbound_views(none@) =~= Seq::empty());
        none
    }

    /// The admin asks to move past the answerer; the next tick does it.
    /// Anybody else is refused.
    pub fn continue_round(&mut self, requester_id: PlayerId) -> (out: Vec<Outbound>)
        requires
            old(self)@.wf(),
        ensures
            (final(self)@, outbound_views(out@)) == old(self)@.continue_round(requester_id),
            final(self)@.wf(),
    {
        if !self.is_admin(requester_id) {
            return self.send_denied_to(requester_id, "forbidden");
        }
        self.continue_flag = true;
        proof {
            lemma_same_members_wf(old(self)@, self@);
        }
        let none: Vec<Outbound> = Vec::new();
        assert(outbound_views(none@) =~= Seq::empty());
        none
    }

    /// Whether the room has an admin whose token is still good at `now`.
    /// A room without one is due to be closed.
    pub fn admin_present(&self, now_in_secs: u64) -> (present: bool)
        ensures
            present == self@.admin_present(now_in_secs),
    {
        match self.admin_id {
            Some(admin) => match numbers_get(&self.token_exp_by_id, admin) {
                Some(exp) => now_in_secs < exp,
                None => false,
            },
            None => false,
        }
    }

    /// The name an event about a player is told under.
    fn name_for(&self, player: PlayerId) -> (name: String)
        ensures
            name@ == self@.name_for(player),
    {
        match names_get(&self.names_by_id, player) {
            Some(name) => name,
            None => "unknown".to_owned(),
        }
    }

    /// Turns an event of the engine into the message that tells of it:
    /// a rejection for the player who buzzed, everything else for
    /// everybody.
    pub fn on_event(&self, event: OutputEvent) -> (out: Vec<Outbound>)
        ensures
            outbound_views(out@) == self@.route_event(event),
    {
        let msg = match event {
            OutputEvent::Accepted(player_id, deadline_in_ms) => ServerMessage::Accepted {
                name: self.name_for(player_id),
                deadline_in_ms,
            },
            OutputEvent::Rejected(player_id) => {
                return self.send_to_player(player_id, ServerMessage::Rejected);
            },
            OutputEvent::TimedOut(player_id) => ServerMessage::TimedOut {
                name: self.name_for(player_id),
            },
            OutputEvent::RoundStarted => ServerMessage::RoundStarted,
            OutputEvent::RoundContinued => ServerMessage::RoundContinued,
        };
        let mut out: Vec<Outbound> = Vec::new();
        out.push(self.broadcast(msg));
        assert(outbound_views(out@) =~= seq![self@.to_all(msg@)]);
        out
    }

    /// One tick of the room's clock.
    pub fn run_tick(&mut self, now_in_ms: u64) -> (out: Vec<Outbound>)
        requires
            old(self)@.wf(),
        ensures
            (final(self)@, outbound_views(out@)) == old(self)@.run_tick(now_in_ms),
            final(self)@.wf(),
    {
        let mut taken: Vec<PlayerId> = Vec::new();
        taken.append(&mut self.buzzes);
        assert(taken@ =~= old(self)@.buzzes);
        let mut input = BuzzQueue::new(taken, self.next_id);
        let mut log = EventLog::new();
        let start = self.reset_flag;
        let proceed = self.continue_flag;
        if start {
            self.round_started = true;
        }
        self.reset_flag = false;
        self.continue_flag = false;
        run_tick(&mut self.game, start, proceed, now_in_ms, &mut input, &mut log);
        let events = log.into_events();
        proof {
            let joined = GameView { joined: old(self)@.next_id, ..old(self)@.game };
            let started = if start {
                joined.start_round().0
            } else {
                old(self)@.game
            };
            let moved = if proceed {
                started.continue_round().0
            } else {
                started
            };
            lemma_step_keeps_lockouts(moved, old(self)@.buzzes, now_in_ms);
            assert(self@.game == step_result(moved, old(self)@.buzzes, now_in_ms).0);
            lemma_same_members_wf(old(self)@, self@);
            assert(self@.buzzes =~= Seq::empty());
            assert(events@ =~= old(self)@.run_tick_events(now_in_ms));
        }
        let mut out: Vec<Outbound> = Vec::new();
        let mut i: usize = 0;
        assert(outbound_views(out@) =~= self@.route_events(events@.take(0)));
        while i < events.len()
            invariant
                self@.wf(),
                i <= events@.len(),
                outbound_views(out@) == self@.route_events(events@.take(i as int)),
            decreases events@.len() - i,
        {
            let mut routed = self.on_event(events[i]);
            let ghost before = out@;
            out.append(&mut routed);
            proof {
                assert(events@.take(i + 1).drop_last() =~= events@.take(i as int));
                assert(events@.take(i + 1).last() == events@[i as int]);
                assert(outbound_views(out@) =~= outbound_views(before) + self@.route_event(
                    events@[i as int],
                ));
            }
            i = i + 1;
        }
        assert(events@.take(i as int) =~= events@);
        out
    }
}

} // verus!
