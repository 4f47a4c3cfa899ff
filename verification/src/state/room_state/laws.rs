//! What holds of every room, whatever happens to it.

use crate::adapter::{lemma_first_buzz, lemma_step_keeps_lockouts, step_result};
use crate::auth::{expiry_after, ClaimsView};
use crate::dtos::{
    ClientMessageView, EndpointId, MessageView, OutboundView, ParticipantView, Role,
};
use crate::errors::AppError;
use crate::game::{deadline_after, GameView, OutputEvent, Phase, PlayerId};
use crate::socket::SocketEventView;
use crate::state::room_state::commands::CommandView;
use crate::state::room_state::model::{RoomView, ROOM_CAPACITY};
use crate::text::{
    lemma_precedes_asymmetric, lemma_precedes_irreflexive, lemma_precedes_total,
    lemma_precedes_transitive, text_precedes, trimmed,
};
use vstd::prelude::*;

verus! {

/// A room that was just made is well formed.
pub proof fn lemma_initial_wf(room_id: Seq<char>, window: u64, tick: u64, ttl: u64)
    ensures
        RoomView::initial(room_id, window, tick, ttl).wf(),
{
}

/// Whether a room is well formed is a matter of who is in it, of their
/// tokens and connections, and of its answer window: a change to
/// anything else leaves a room well formed.
pub proof fn lemma_same_members_wf(before: RoomView, after: RoomView)
    requires
        before.wf(),
        after.names == before.names,
        after.ids == before.ids,
        after.expiry == before.expiry,
        after.endpoints == before.endpoints,
        after.next_id == before.next_id,
        after.game.window_in_ms == after.answer_window_in_ms,
        !after.round_started ==> after.game.joined == after.next_id,
    ensures
        after.wf(),
{
}

/// No two players of a room go by the same name.
pub proof fn lemma_names_unique(room: RoomView, a: PlayerId, b: PlayerId)
    requires
        room.wf(),
        room.names.contains_key(a),
        room.names.contains_key(b),
        room.names[a] == room.names[b],
    ensures
        a == b,
{
}

/// A room has at most one admin.
pub proof fn lemma_one_admin(room: RoomView, a: PlayerId, b: PlayerId)
    requires
        room.role_of(a) == Role::Admin,
        room.role_of(b) == Role::Admin,
    ensures
        a == b,
{
}

/// The id a new player gets is held by no player of the room, and never
/// was: every id handed out so far lies below it.
pub proof fn lemma_new_id_is_fresh(room: RoomView, name: Seq<char>, role: Role, other: PlayerId)
    requires
        room.wf(),
        room.insert_player(name, role).1 is Ok,
        room.names.contains_key(other),
    ensures
        other < room.insert_player(name, role).1->Ok_0,
        !room.names.contains_key(room.insert_player(name, role).1->Ok_0),
        room.insert_player(name, role).0.names.contains_key(other),
        room.insert_player(name, role).0.names[other] == room.names[other],
{
}

/// A new player leaves the room well formed.
pub proof fn lemma_insert_player_wf(room: RoomView, name: Seq<char>, role: Role)
    requires
        room.wf(),
    ensures
        room.insert_player(name, role).0.wf(),
{
}

/// A player's leaving leaves the room well formed.
pub proof fn lemma_remove_player_wf(room: RoomView, id: PlayerId)
    requires
        room.wf(),
    ensures
        room.remove_player(id).0.wf(),
{
}

/// Issuing a token to a player of the room leaves the room well formed.
pub proof fn lemma_with_token_wf(room: RoomView, id: PlayerId, now_in_secs: u64)
    requires
        room.wf(),
        room.names.contains_key(id),
    ensures
        room.with_token(id, now_in_secs).wf(),
{
}

/// A join, with or without a token, leaves the room well formed.
pub proof fn lemma_resolve_join_wf(
    room: RoomView,
    name: Seq<char>,
    token: Option<Result<ClaimsView, AppError>>,
    now_in_secs: u64,
)
    requires
        room.wf(),
    ensures
        room.resolve_join(name, token, now_in_secs).0.wf(),
{
    match token {
        Some(Ok(claims)) => {
            if room.rejoin(name, claims, now_in_secs).1 is Ok {
                assert(room.renamed(claims.player_id, name).wf());
            }
        },
        _ => {},
    }
}

/// Making the room's admin leaves the room well formed.
pub proof fn lemma_create_admin_wf(room: RoomView, name: Seq<char>, now_in_secs: u64)
    requires
        room.wf(),
    ensures
        room.create_admin(name, now_in_secs).0.wf(),
{
}

/// A fresh token says of its bearer what the old one said: the same
/// room, player, name and role. Only the times differ, so the fresh
/// token can be traded in its turn. Trading a token changes nothing in
/// the room but the time the bearer's session lapses.
pub proof fn lemma_refresh_keeps_identity(
    room: RoomView,
    claims: ClaimsView,
    now_in_secs: u64,
    later_in_secs: u64,
)
    requires
        room.wf(),
    ensures
        room.refresh_token(Ok(claims), now_in_secs).0.wf(),
        room.refresh_token(Ok(claims), now_in_secs).1 matches Ok(fresh) ==> {
            &&& fresh.room_id == claims.room_id
            &&& fresh.player_id == claims.player_id
            &&& fresh.name == claims.name
            &&& fresh.role == claims.role
            &&& fresh.iat == now_in_secs
            &&& fresh.exp == expiry_after(now_in_secs, room.token_ttl_in_secs)
            &&& room.refresh_token(Ok(claims), now_in_secs).0.refresh_token(
                Ok(fresh),
                later_in_secs,
            ).1 is Ok
        },
        room.refresh_token(Ok(claims), now_in_secs).0.names == room.names,
        room.refresh_token(Ok(claims), now_in_secs).0.ids == room.ids,
        room.refresh_token(Ok(claims), now_in_secs).0.admin == room.admin,
        room.refresh_token(Ok(claims), now_in_secs).0.endpoints == room.endpoints,
        room.refresh_token(Ok(claims), now_in_secs).0.game == room.game,
{
}

/// Once 128 ids have been handed out, a join under a name that is free
/// is refused because the room is full, and changes nothing.
pub proof fn lemma_full_room(room: RoomView, name: Seq<char>, now_in_secs: u64)
    requires
        room.next_id >= ROOM_CAPACITY,
        !room.ids.contains_key(name),
    ensures
        room.resolve_join(name, None, now_in_secs) == (
            room,
            Err::<ClaimsView, AppError>(AppError::FullRoom),
        ),
        room.create_admin(name, now_in_secs) == (
            room,
            Err::<ClaimsView, AppError>(AppError::FullRoom),
        ),
{
}

/// Every successful join without a token uses up one id, so a room made
/// empty admits 128 joins and no more.
pub proof fn lemma_join_uses_one_id(room: RoomView, name: Seq<char>, now_in_secs: u64)
    requires
        room.wf(),
        room.resolve_join(name, None, now_in_secs).1 is Ok,
    ensures
        room.resolve_join(name, None, now_in_secs).0.next_id == room.next_id + 1,
        room.resolve_join(name, None, now_in_secs).1->Ok_0.player_id == room.next_id,
        room.next_id < ROOM_CAPACITY,
{
}

/// Attaching and detaching a connection leave the room well formed and
/// touch nothing but the connection.
pub proof fn lemma_connection_wf(
    room: RoomView,
    id: PlayerId,
    name: Seq<char>,
    endpoint: EndpointId,
)
    requires
        room.wf(),
    ensures
        room.attach_connection(id, name, endpoint).0.wf(),
        room.detach_connection(id).wf(),
        room.attach_connection(id, name, endpoint).0.names == room.names,
        room.attach_connection(id, name, endpoint).0.admin == room.admin,
        room.detach_connection(id).names == room.names,
        room.detach_connection(id).admin == room.admin,
{
    let attached = room.attach_connection(id, name, endpoint).0;
    let detached = room.detach_connection(id);
}

/// Two rosters of one room name the same players in their first places.
proof fn lemma_roster_prefix(
    room: RoomView,
    a: Seq<ParticipantView>,
    b: Seq<ParticipantView>,
    count: int,
)
    requires
        room.is_roster(a),
        room.is_roster(b),
        0 <= count <= a.len(),
        count <= b.len(),
    ensures
        forall|i: int| 0 <= i < count ==> (#[trigger] a[i]).name == b[i].name,
    decreases count,
{
    if count > 0 {
        lemma_roster_prefix(room, a, b, count - 1);
        let last = count - 1;
        let in_a = a[last].name;
        let in_b = b[last].name;
        if in_a != in_b {
            assert(room.ids.contains_key(in_a));
            assert(room.ids.contains_key(in_b));
            let j = choose|j: int| 0 <= j < b.len() && (#[trigger] b[j]).name == in_a;
            let i = choose|i: int| 0 <= i < a.len() && (#[trigger] a[i]).name == in_b;
            if j < last {
                assert(a[j].name == b[j].name);
                assert(text_precedes_lines(a, j, last));
                lemma_precedes_irreflexive(in_a);
            }
            if i < last {
                assert(a[i].name == b[i].name);
                assert(text_precedes_lines(b, i, last));
                lemma_precedes_irreflexive(in_b);
            }
            assert(text_precedes_lines(b, last, j));
            assert(text_precedes_lines(a, last, i));
            lemma_precedes_asymmetric(in_a, in_b);
        }
    }
}

/// Whether line `i` of a roster precedes line `j` by name.
pub open spec fn text_precedes_lines(roster: Seq<ParticipantView>, i: int, j: int) -> bool {
    text_precedes(roster[i].name, roster[j].name)
}

/// A room has one roster: what it says is settled by who is in the room,
/// whatever order the records are read in.
pub proof fn lemma_roster_unique(room: RoomView, a: Seq<ParticipantView>, b: Seq<ParticipantView>)
    requires
        room.is_roster(a),
        room.is_roster(b),
    ensures
        a == b,
{
    let common = if a.len() <= b.len() {
        a.len() as int
    } else {
        b.len() as int
    };
    lemma_roster_prefix(room, a, b, common);
    if a.len() > b.len() {
        let extra = a[common].name;
        assert(room.ids.contains_key(extra));
        let j = choose|j: int| 0 <= j < b.len() && (#[trigger] b[j]).name == extra;
        assert(a[j].name == b[j].name);
        assert(text_precedes_lines(a, j, common));
        lemma_precedes_irreflexive(extra);
    }
    if b.len() > a.len() {
        let extra = b[common].name;
        assert(room.ids.contains_key(extra));
        let i = choose|i: int| 0 <= i < a.len() && (#[trigger] a[i]).name == extra;
        assert(a[i].name == b[i].name);
        assert(text_precedes_lines(b, i, common));
        lemma_precedes_irreflexive(extra);
    }
    assert forall|i: int| 0 <= i < a.len() implies a[i] == b[i] by {
        assert(a[i].name == b[i].name);
    }
    assert(a =~= b);
}

/// What is found to be a room's roster is the room's roster.
pub proof fn lemma_roster_found(room: RoomView, found: Seq<ParticipantView>)
    requires
        room.is_roster(found),
    ensures
        room.roster() == found,
        room.is_roster(room.roster()),
{
    lemma_roster_unique(room, room.roster(), found);
}

/// Removing players leaves the room well formed.
pub proof fn lemma_without_players_wf(room: RoomView, gone: Set<PlayerId>)
    requires
        room.wf(),
    ensures
        room.without_players(gone).wf(),
{
}

/// Sweeping the players one by one, by id, is sweeping them all at once.
pub proof fn lemma_sweep_step(room: RoomView, now_in_secs: u64, id: PlayerId)
    requires
        room.wf(),
        id < room.next_id,
    ensures
        ({
            let swept = room.without_players(room.expired_below(now_in_secs, id as nat));
            let next = room.without_players(room.expired_below(now_in_secs, (id + 1) as nat));
            &&& swept.expiry.contains_key(id) == room.expiry.contains_key(id)
            &&& swept.expiry.contains_key(id) ==> swept.expiry[id] == room.expiry[id]
            &&& swept.to_player(id, MessageView::Kicked) == room.to_player(
                id,
                MessageView::Kicked,
            )
            &&& if room.expired(now_in_secs).contains(id) {
                swept.names.contains_key(id) && next == swept.without_player(id)
            } else {
                next == swept
            }
        }),
{
    let gone = room.expired_below(now_in_secs, id as nat);
    let more = room.expired_below(now_in_secs, (id + 1) as nat);
    let swept = room.without_players(gone);
    let next = room.without_players(more);
    if room.expired(now_in_secs).contains(id) {
        assert(more =~= gone.insert(id));
        assert(room.names.contains_key(id));
        let step = swept.without_player(id);
        assert(next.names =~= step.names);
        assert(next.expiry =~= step.expiry);
        assert(next.endpoints =~= step.endpoints);
        assert forall|n: Seq<char>| next.ids.contains_key(n) == step.ids.contains_key(n) by {
            if room.ids.contains_key(n) {
                assert(room.names.contains_key(room.ids[n]));
            }
        }
        assert(next.ids =~= step.ids);
        assert(next.admin == step.admin);
    } else {
        assert(more =~= gone);
    }
}

/// Every player with a token has an id the room handed out.
pub proof fn lemma_sweep_done(room: RoomView, now_in_secs: u64)
    requires
        room.wf(),
    ensures
        room.expired_below(now_in_secs, room.next_id as nat) == room.expired(now_in_secs),
        room.without_players(room.expired_below(now_in_secs, 0)) == room,
{
    assert forall|id: PlayerId| room.expired(now_in_secs).contains(id) implies room.expired_below(
        now_in_secs,
        room.next_id as nat,
    ).contains(id) by {
        assert(room.names.contains_key(id));
    }
    assert(room.expired_below(now_in_secs, room.next_id as nat) =~= room.expired(now_in_secs));
    let none = room.expired_below(now_in_secs, 0);
    let same = room.without_players(none);
    assert(none =~= Set::empty());
    assert(same.names =~= room.names);
    assert(same.ids =~= room.ids);
    assert(same.expiry =~= room.expiry);
    assert(same.endpoints =~= room.endpoints);
}

/// A sweep of a room whose admin holds no token that is still good
/// leaves the room without a live admin, and for good, since nobody can
/// trade in a token of a player who has left: such a room is due to be
/// closed. Where the admin's token has lapsed, the admin leaves with it.
pub proof fn lemma_sweep_ends_lapsed_admin(room: RoomView, now_in_secs: u64, later_in_secs: u64)
    requires
        room.wf(),
        !room.admin_present(now_in_secs),
    ensures
        !room.cleanup_expired(now_in_secs).0.admin_present(later_in_secs),
        room.admin is Some && room.expiry.contains_key(room.admin->Some_0) ==> {
            &&& room.cleanup_expired(now_in_secs).0.admin is None
            &&& !room.cleanup_expired(now_in_secs).0.names.contains_key(room.admin->Some_0)
        },
        room.cleanup_expired(now_in_secs).0.wf(),
{
    lemma_without_players_wf(room, room.expired(now_in_secs));
}

/// A broadcast reaches the endpoint of every connected player.
pub proof fn lemma_broadcast_reaches(room: RoomView, id: PlayerId)
    requires
        room.wf(),
        room.endpoints.contains_key(id),
    ensures
        room.recipients().contains(room.endpoints[id]),
{
    assert(room.names.contains_key(id));
    lemma_endpoints_below(room, room.next_id as nat, id);
}

proof fn lemma_endpoints_below(room: RoomView, bound: nat, id: PlayerId)
    requires
        room.endpoints.contains_key(id),
        id < bound,
    ensures
        room.endpoints_below(bound).contains(room.endpoints[id]),
    decreases bound,
{
    let earlier = room.endpoints_below((bound - 1) as nat);
    if id == bound - 1 {
        assert(earlier.push(room.endpoints[id])[earlier.len() as int] == room.endpoints[id]);
    } else {
        lemma_endpoints_below(room, (bound - 1) as nat, id);
        let at = choose|at: int| 0 <= at < earlier.len() && earlier[at] == room.endpoints[id];
        if room.endpoints.contains_key((bound - 1) as usize) {
            assert(earlier.push(room.endpoints[(bound - 1) as usize])[at] == room.endpoints[id]);
        }
    }
}

/// A player who detaches and attaches again under the same id and name
/// is back in every broadcast, with the identity and the role the
/// player had; and where the endpoint is the one the player had, the
/// room is as it was.
pub proof fn lemma_reattach_restores(
    room: RoomView,
    id: PlayerId,
    name: Seq<char>,
    endpoint: EndpointId,
)
    requires
        room.wf(),
        room.matches(id, name),
    ensures
        ({
            let back = room.detach_connection(id).attach_connection(id, name, endpoint);
            &&& back.1
            &&& back.0.wf()
            &&& back.0.recipients().contains(endpoint)
            &&& back.0.names == room.names
            &&& back.0.ids == room.ids
            &&& back.0.admin == room.admin
            &&& back.0.role_of(id) == room.role_of(id)
            &&& back.0.expiry == room.expiry
            &&& back.0.game == room.game
            &&& room.endpoints.contains_key(id) && room.endpoints[id] == endpoint ==> back.0
                == room
        }),
{
    let detached = room.detach_connection(id);
    lemma_connection_wf(room, id, name, endpoint);
    lemma_connection_wf(detached, id, name, endpoint);
    let back = detached.attach_connection(id, name, endpoint).0;
    lemma_broadcast_reaches(back, id);
    if room.endpoints.contains_key(id) && room.endpoints[id] == endpoint {
        assert(back.endpoints =~= room.endpoints);
    }
}

/// A tick that opens no new round lifts no lockout, whatever buzzes it
/// serves; and no tick changes who is in the room.
pub proof fn lemma_tick_keeps_lockouts(room: RoomView, now_in_ms: u64, player: PlayerId)
    requires
        room.wf(),
        !room.start_requested,
        room.game.locked.contains(player),
    ensures
        room.run_tick(now_in_ms).0.game.locked.contains(player),
        room.run_tick(now_in_ms).0.game.joined == room.game.joined,
        room.run_tick(now_in_ms).0.names == room.names,
        room.run_tick(now_in_ms).0.admin == room.admin,
        room.run_tick(now_in_ms).0.wf(),
{
    let moved = if room.continue_requested {
        room.game.continue_round().0
    } else {
        room.game
    };
    lemma_step_keeps_lockouts(moved, room.buzzes, now_in_ms);
    assert(room.run_tick(now_in_ms).0.game == step_result(moved, room.buzzes, now_in_ms).0);
}

/// A tick leaves the room well formed and changes nothing about who is
/// in it, who is its admin, or who is connected.
pub proof fn lemma_tick_keeps_wf(room: RoomView, now_in_ms: u64)
    requires
        room.wf(),
    ensures
        room.run_tick(now_in_ms).0.wf(),
        room.run_tick(now_in_ms).0.names == room.names,
        room.run_tick(now_in_ms).0.ids == room.ids,
        room.run_tick(now_in_ms).0.admin == room.admin,
        room.run_tick(now_in_ms).0.expiry == room.expiry,
        room.run_tick(now_in_ms).0.endpoints == room.endpoints,
{
    let joined = GameView { joined: room.next_id, ..room.game };
    let started = if room.start_requested {
        joined.start_round().0
    } else {
        room.game
    };
    let moved = if room.continue_requested {
        started.continue_round().0
    } else {
        started
    };
    lemma_step_keeps_lockouts(moved, room.buzzes, now_in_ms);
    assert(room.run_tick(now_in_ms).0.game == step_result(moved, room.buzzes, now_in_ms).0);
}

/// Whatever command a room serves, it stays well formed: ids stay
/// distinct and in range, names stay unique, and tokens and
/// connections stay with players of the room.
pub proof fn lemma_command_keeps_wf(room: RoomView, command: CommandView, now_in_secs: u64)
    requires
        room.wf(),
    ensures
        room.handle_command(command, now_in_secs).0.wf(),
{
    match command {
        CommandView::CreateAdmin { name } => {
            lemma_create_admin_wf(room, name, now_in_secs);
        },
        CommandView::Join { requested_name, token } => {
            lemma_resolve_join_wf(room, requested_name, token, now_in_secs);
        },
        CommandView::RefreshToken { checked } => {
            if checked is Ok {
                lemma_refresh_keeps_identity(room, checked->Ok_0, now_in_secs, now_in_secs);
            }
        },
        CommandView::AttachConnection { player_id, name, endpoint } => {
            lemma_connection_wf(room, player_id, name, endpoint);
        },
        CommandView::DetachConnection { player_id } => {
            lemma_connection_wf(room, player_id, Seq::empty(), 0);
        },
        CommandView::SetAdminByName { requester_id, name } => {
            lemma_same_members_wf(room, room.set_admin_by_name(requester_id, name).0);
        },
        CommandView::KickByName { requester_id, name } => {
            if room.kick_by_name(requester_id, name).1 {
                lemma_remove_player_wf(room, room.ids[trimmed(name)]);
            }
        },
        CommandView::StartRound { requester_id } => {
            lemma_same_members_wf(room, room.start_round(requester_id).0);
        },
        CommandView::ContinueRound { requester_id } => {
            lemma_same_members_wf(room, room.continue_round(requester_id).0);
        },
        CommandView::CleanupExpired => {
            lemma_without_players_wf(room, room.expired(now_in_secs));
        },
    }
}

/// Whatever happens on a player's connection, the room stays well
/// formed.
pub proof fn lemma_socket_event_keeps_wf(room: RoomView, id: PlayerId, event: SocketEventView)
    requires
        room.wf(),
    ensures
        room.socket_event(id, event).0.wf(),
{
    match event {
        SocketEventView::Text { within_quota, message } => {
            if within_quota && message is Some {
                match message->Some_0 {
                    ClientMessageView::Buzz => {
                        lemma_same_members_wf(room, room.send_buzz(id));
                    },
                    ClientMessageView::StartRound => {
                        lemma_same_members_wf(room, room.start_round(id).0);
                    },
                    ClientMessageView::ContinueRound => {
                        lemma_same_members_wf(room, room.continue_round(id).0);
                    },
                    ClientMessageView::SetAdmin { name } => {
                        lemma_same_members_wf(room, room.set_admin_by_name(id, name).0);
                    },
                    ClientMessageView::Kick { name } => {
                        if room.kick_by_name(id, name).1 {
                            lemma_remove_player_wf(room, room.ids[trimmed(name)]);
                        }
                    },
                }
            }
        },
        SocketEventView::SendFailed | SocketEventView::Closed => {
            lemma_connection_wf(room, id, Seq::empty(), 0);
        },
        SocketEventView::Forwarded { .. } | SocketEventView::Other => {},
    }
}

/// Until the first round is started, no player of the room is held back
/// for having joined late: only a timeout or being moved past locks a
/// player out.
pub proof fn lemma_joined_may_buzz(room: RoomView, id: PlayerId)
    requires
        room.wf(),
        !room.round_started,
        room.names.contains_key(id),
    ensures
        room.game.is_locked_out(id) == room.game.locked.contains(id),
        room.game.phase == Phase::Idle && !room.game.locked.contains(id) ==> room.game.accepts(id),
{
}

/// What comes of the first event of a tick is what goes out first.
proof fn lemma_first_routed(room: RoomView, events: Seq<OutputEvent>)
    requires
        events.len() > 0,
        room.route_event(events[0]).len() == 1,
    ensures
        room.route_events(events).len() >= 1,
        room.route_events(events)[0] == room.route_event(events[0])[0],
    decreases events.len(),
{
    if events.len() > 1 {
        lemma_first_routed(room, events.drop_last());
        assert(events.drop_last()[0] == events[0]);
    } else {
        assert(room.route_events(events.drop_last()) =~= Seq::empty());
        assert(events.last() == events[0]);
    }
}

/// In a room where no round was ever started, the buzz of a player who
/// has joined is accepted as soon as the clock ticks, and everybody
/// connected is told: the player answers until `now` plus the room's
/// answer window.
pub proof fn lemma_buzz_before_first_round(room: RoomView, now_in_ms: u64)
    requires
        room.wf(),
        !room.round_started,
        !room.start_requested,
        !room.continue_requested,
        room.game.phase == Phase::Idle,
        room.buzzes.len() > 0,
        room.names.contains_key(room.buzzes[0]),
        !room.game.locked.contains(room.buzzes[0]),
    ensures
        ({
            let player = room.buzzes[0];
            let deadline = deadline_after(now_in_ms, room.answer_window_in_ms);
            let (after, out) = room.run_tick(now_in_ms);
            &&& room.run_tick_events(now_in_ms)[0] == OutputEvent::Accepted(player, deadline)
            &&& out.len() >= 1
            &&& out[0] == after.to_all(
                MessageView::Accepted { name: room.names[player], deadline_in_ms: deadline },
            )
            &&& after.recipients() == room.recipients()
            &&& !after.round_started
        }),
{
    let player = room.buzzes[0];
    lemma_joined_may_buzz(room, player);
    lemma_first_buzz(room.game, room.buzzes, now_in_ms);
    let events = room.run_tick_events(now_in_ms);
    assert(events =~= step_result(room.game, room.buzzes, now_in_ms).1);
    let after = room.run_tick(now_in_ms).0;
    lemma_first_routed(after, events);
    lemma_same_recipients(room, after, room.next_id as nat);
}

/// Rooms with the same connections send a broadcast to the same
/// endpoints.
proof fn lemma_same_recipients(a: RoomView, b: RoomView, bound: nat)
    requires
        a.endpoints == b.endpoints,
    ensures
        a.endpoints_below(bound) == b.endpoints_below(bound),
    decreases bound,
{
    if bound > 0 {
        lemma_same_recipients(a, b, (bound - 1) as nat);
    }
}

/// A room that is closed keeps nobody connected: every connection it had
/// is among those to be closed, and no broadcast reaches anybody any
/// more. Who is in the room stays as it was.
pub proof fn lemma_closed_wf(room: RoomView)
    requires
        room.wf(),
    ensures
        room.closed().wf(),
        room.closed().shut_down,
        room.closed().closing == room.recipients(),
        room.closed().recipients() == Seq::<EndpointId>::empty(),
        room.closed().names == room.names,
        forall|id: PlayerId| #[trigger]
            room.endpoints.contains_key(id) ==> room.closed().closing.contains(room.endpoints[id]),
{
    lemma_no_recipients(room.closed(), room.next_id as nat);
    let closing = room.closed().closing;
    assert forall|id: PlayerId| #[trigger] room.endpoints.contains_key(id) implies closing.contains(
        room.endpoints[id],
    ) by {
        lemma_broadcast_reaches(room, id);
    }
}

/// A room without connections sends a broadcast to nobody.
proof fn lemma_no_recipients(room: RoomView, bound: nat)
    requires
        room.endpoints == Map::<PlayerId, EndpointId>::empty(),
    ensures
        room.endpoints_below(bound) == Seq::<EndpointId>::empty(),
    decreases bound,
{
    if bound > 0 {
        lemma_no_recipients(room, (bound - 1) as nat);
    }
}

/// Whether a sequence is the roster of the players with ids below
/// `bound`: one line for each of them, right in role and lockout, the
/// names in strictly rising order.
pub open spec fn is_roster_below(room: RoomView, bound: nat, roster: Seq<ParticipantView>) -> bool {
    &&& forall|i: int, j: int|
        0 <= i < j < roster.len() ==> text_precedes(
            (#[trigger] roster[i]).name,
            (#[trigger] roster[j]).name,
        )
    &&& forall|i: int|
        0 <= i < roster.len() ==> {
            let line = #[trigger] roster[i];
            &&& room.ids.contains_key(line.name)
            &&& room.ids[line.name] < bound
            &&& line.role == room.role_of(room.ids[line.name])
            &&& line.locked_out == room.game.is_locked_out(room.ids[line.name])
        }
    &&& forall|id: PlayerId|
        id < bound && #[trigger] room.names.contains_key(id) ==> exists|i: int|
            0 <= i < roster.len() && (#[trigger] roster[i]).name == room.names[id]
}

/// The number of lines at the head of a roster whose names precede
/// `name`: the place a line under that name goes to.
pub open spec fn place_of(roster: Seq<ParticipantView>, name: Seq<char>) -> int
    decreases roster.len(),
{
    if roster.len() > 0 && text_precedes(roster[0].name, name) {
        1 + place_of(roster.drop_first(), name)
    } else {
        0
    }
}

proof fn lemma_place_of(roster: Seq<ParticipantView>, name: Seq<char>)
    ensures
        0 <= place_of(roster, name) <= roster.len(),
        forall|i: int|
            0 <= i < place_of(roster, name) ==> text_precedes((#[trigger] roster[i]).name, name),
        place_of(roster, name) < roster.len() ==> !text_precedes(
            roster[place_of(roster, name)].name,
            name,
        ),
    decreases roster.len(),
{
    if roster.len() > 0 && text_precedes(roster[0].name, name) {
        let rest = roster.drop_first();
        lemma_place_of(rest, name);
        assert forall|i: int| 0 <= i < place_of(roster, name) implies text_precedes(
            (#[trigger] roster[i]).name,
            name,
        ) by {
            if i > 0 {
                assert(roster[i] == rest[i - 1]);
            }
        }
        if place_of(roster, name) < roster.len() {
            assert(roster[place_of(roster, name)] == rest[place_of(rest, name)]);
        }
    }
}

/// The players with ids below any bound have a roster.
proof fn lemma_roster_below_exists(room: RoomView, bound: nat)
    requires
        room.wf(),
        bound <= room.next_id,
    ensures
        exists|roster: Seq<ParticipantView>| is_roster_below(room, bound, roster),
    decreases bound,
{
    if bound == 0 {
        assert(is_roster_below(room, bound, Seq::<ParticipantView>::empty()));
    } else {
        let lower = (bound - 1) as nat;
        lemma_roster_below_exists(room, lower);
        let before = choose|roster: Seq<ParticipantView>| is_roster_below(room, lower, roster);
        let id = (bound - 1) as usize;
        if !room.names.contains_key(id) {
            assert(is_roster_below(room, bound, before));
        } else {
            let name = room.names[id];
            let line = ParticipantView {
                name,
                role: room.role_of(id),
                locked_out: room.game.is_locked_out(id),
            };
            let at = place_of(before, name);
            lemma_place_of(before, name);
            let after = before.insert(at, line);
            assert forall|i: int| 0 <= i < before.len() implies (#[trigger] before[i]).name
                != name by {
                assert(room.ids[before[i].name] < id);
            }
            assert forall|i: int, j: int| 0 <= i < j < after.len() implies text_precedes(
                (#[trigger] after[i]).name,
                (#[trigger] after[j]).name,
            ) by {
                if j < at {
                    assert(after[i] == before[i] && after[j] == before[j]);
                } else if j == at {
                    assert(after[i] == before[i]);
                } else if i == at {
                    assert(after[j] == before[j - 1]);
                    lemma_precedes_total(before[at].name, name);
                    if j - 1 > at {
                        lemma_precedes_transitive(name, before[at].name, before[j - 1].name);
                    }
                } else if i < at {
                    assert(after[i] == before[i] && after[j] == before[j - 1]);
                } else {
                    assert(after[i] == before[i - 1] && after[j] == before[j - 1]);
                }
            }
            assert forall|i: int| 0 <= i < after.len() implies {
                let entry = #[trigger] after[i];
                &&& room.ids.contains_key(entry.name)
                &&& room.ids[entry.name] < bound
                &&& entry.role == room.role_of(room.ids[entry.name])
                &&& entry.locked_out == room.game.is_locked_out(room.ids[entry.name])
            } by {
                if i < at {
                    assert(after[i] == before[i]);
                } else if i > at {
                    assert(after[i] == before[i - 1]);
                } else {
                    assert(after[i] == line);
                }
            }
            assert forall|p: PlayerId|
                p < bound && #[trigger] room.names.contains_key(p) implies exists|i: int|
                0 <= i < after.len() && (#[trigger] after[i]).name == room.names[p] by {
                if p < id {
                    let i = choose|i: int|
                        0 <= i < before.len() && (#[trigger] before[i]).name == room.names[p];
                    if i < at {
                        assert(after[i] == before[i]);
                    } else {
                        assert(after[i + 1] == before[i]);
                    }
                } else {
                    assert(after[at].name == room.names[p]);
                }
            }
            assert(is_roster_below(room, bound, after));
        }
    }
}

/// Every room has its roster: one line for each name in use, sorted by
/// name. No line of it is under a name that nobody in the room goes by.
pub proof fn lemma_roster_exists(room: RoomView)
    requires
        room.wf(),
    ensures
        room.is_roster(room.roster()),
        forall|i: int|
            0 <= i < room.roster().len() ==> room.ids.contains_key(
                (#[trigger] room.roster()[i]).name,
            ),
{
    let bound = room.next_id as nat;
    lemma_roster_below_exists(room, bound);
    let found = choose|roster: Seq<ParticipantView>| is_roster_below(room, bound, roster);
    assert forall|name: Seq<char>| #[trigger] room.ids.contains_key(name) implies exists|i: int|
        0 <= i < found.len() && (#[trigger] found[i]).name == name by {
        assert(room.names.contains_key(room.ids[name]));
    }
    assert(room.is_roster(found));
    lemma_roster_found(room, found);
}

/// A player the admin removes is told so, if connected, and that is the
/// last thing the player's connection gets: the connection ends with
/// it. The player leaves the room with name, token and connection, and
/// everybody who is still connected gets the new roster, which has no
/// line under the name of the player who left.
pub proof fn lemma_kick_ends_connection(room: RoomView, requester: PlayerId, target: Seq<char>)
    requires
        room.wf(),
        room.kick_target(requester, target).1,
    ensures
        ({
            let id = room.ids[target];
            let (after, _, out) = room.kick_target(requester, target);
            &&& room.admin == Some(requester)
            &&& room.matches(id, target)
            &&& id != requester
            &&& after.wf()
            &&& !after.names.contains_key(id)
            &&& !after.ids.contains_key(target)
            &&& !after.endpoints.contains_key(id)
            &&& !after.expiry.contains_key(id)
            &&& out.len() == (if room.endpoints.contains_key(id) {
                2nat
            } else {
                1nat
            })
            &&& room.endpoints.contains_key(id) ==> {
                &&& out[0] == (OutboundView {
                    recipients: seq![room.endpoints[id]],
                    message: MessageView::Kicked,
                })
                &&& out[0].message.ends_connection()
                &&& !after.socket_event(
                    id,
                    SocketEventView::Forwarded { last: out[0].message.ends_connection() },
                ).1
            }
            &&& out.last() == after.to_all(after.roster_message())
            &&& forall|other: PlayerId| #[trigger]
                after.endpoints.contains_key(other) ==> after.recipients().contains(
                    after.endpoints[other],
                )
            &&& after.is_roster(after.roster())
            &&& forall|i: int|
                0 <= i < after.roster().len() ==> (#[trigger] after.roster()[i]).name != target
        }),
{
    let id = room.ids[target];
    let after = room.kick_target(requester, target).0;
    assert(room.names.contains_key(id));
    lemma_remove_player_wf(room, id);
    lemma_roster_exists(after);
    let reached = after.recipients();
    assert forall|other: PlayerId| #[trigger]
        after.endpoints.contains_key(other) implies reached.contains(after.endpoints[other]) by {
        lemma_broadcast_reaches(after, other);
    }
}

} // verus!
