//! The registry of rooms: every room the service hosts, by its id.
//!
//! The registry owns its rooms. To work on a room, take it out, change
//! it, and put it back.

use crate::auth::TOKEN_TTL_IN_SECS;
use crate::dtos::EndpointId;
use crate::errors::AppError;
use crate::state::room_state::laws::lemma_closed_wf;
use crate::state::room_state::model::RoomView;
use crate::state::room_state::{RoomConfig, RoomId, RoomState};
use crate::tables::{rooms_contains, rooms_held, rooms_ids, rooms_insert, rooms_new, rooms_remove};
use crate::utils::random::{is_random_text, random_text};
use dashmap::DashMap;
use vstd::prelude::*;

verus! {

/// How often whoever drives the registry is meant to sweep it, in
/// seconds.
pub const APP_CLEANUP_INTERVAL_IN_SECS: u64 = 30 * 60;

/// The number of characters in the id of a room.
pub const ROOM_ID_LENGTH: usize = 6;

pub struct AppState {
    rooms: DashMap<RoomId, RoomState>,
    token_ttl_in_secs: u64,
}

pub ghost struct AppView {
    pub rooms: Map<Seq<char>, RoomView>,
    pub token_ttl_in_secs: u64,
}

impl AppView {
    /// Every room of the registry is well formed and kept under its own
    /// id.
    pub open spec fn wf(self) -> bool {
        forall|id: Seq<char>| #[trigger]
            self.rooms.contains_key(id) ==> self.rooms[id].wf() && self.rooms[id].room_id == id
    }

    /// The registry with a new, empty room under `room_id`.
    pub open spec fn with_new_room(
        self,
        room_id: Seq<char>,
        answer_window_in_ms: u64,
        tick_in_ms: u64,
    ) -> AppView {
        AppView {
            rooms: self.rooms.insert(
                room_id,
                RoomView::initial(
                    room_id,
                    answer_window_in_ms,
                    tick_in_ms,
                    self.token_ttl_in_secs,
                ),
            ),
            ..self
        }
    }

    /// Whether the room `id` has no admin with a token that is still
    /// good at `now`.
    pub open spec fn lapsed(self, now_in_secs: u64, id: Seq<char>) -> bool {
        self.rooms.contains_key(id) && !self.rooms[id].admin_present(now_in_secs)
    }

    /// The rooms that stay when the registry is swept at `now`: those
    /// whose admin holds a token that is still good.
    pub open spec fn kept(self, now_in_secs: u64) -> Map<Seq<char>, RoomView> {
        Map::new(
            |id: Seq<char>| self.rooms.contains_key(id) && !self.lapsed(now_in_secs, id),
            |id: Seq<char>| self.rooms[id],
        )
    }

    /// Whether `room` is a room that leaves when the registry is swept
    /// at `now`, as it leaves: closed.
    pub open spec fn evicts(self, now_in_secs: u64, room: RoomView) -> bool {
        &&& self.lapsed(now_in_secs, room.room_id)
        &&& room == self.rooms[room.room_id].closed()
    }
}

/// Whether a room with the id `id` is among `rooms`.
pub open spec fn holds_room(rooms: Seq<RoomState>, id: Seq<char>) -> bool {
    exists|i: int| 0 <= i < rooms.len() && (#[trigger] rooms[i])@.room_id == id
}

/// Whether no two of `rooms` have the same id.
pub open spec fn distinct_rooms(rooms: Seq<RoomState>) -> bool {
    forall|i: int, j: int|
        0 <= i < j < rooms.len() ==> (#[trigger] rooms[i])@.room_id
            != (#[trigger] rooms[j])@.room_id
}

/// Whether `id` is among the first `count` of `ids`.
spec fn listed(ids: Seq<String>, count: int, id: Seq<char>) -> bool {
    exists|i: int| 0 <= i < count && (#[trigger] ids[i])@ == id
}

impl View for AppState {
    type V = AppView;

    closed spec fn view(&self) -> AppView {
        AppView { rooms: rooms_held(&self.rooms), token_ttl_in_secs: self.token_ttl_in_secs }
    }
}

impl AppState {
    /// A registry without rooms. Tokens of its rooms stay good for two
    /// hours.
    pub fn new() -> (state: Self)
        ensures
            state@.rooms == Map::<Seq<char>, RoomView>::empty(),
            state@.token_ttl_in_secs == TOKEN_TTL_IN_SECS,
            state@.wf(),
    {
        AppState::with_token_ttl(TOKEN_TTL_IN_SECS)
    }

    /// A registry without rooms. Tokens of its rooms stay good for
    /// `token_ttl_in_secs`.
    pub fn with_token_ttl(token_ttl_in_secs: u64) -> (state: Self)
        ensures
            state@.rooms == Map::<Seq<char>, RoomView>::empty(),
            state@.token_ttl_in_secs == token_ttl_in_secs,
            state@.wf(),
    {
        AppState { rooms: rooms_new(), token_ttl_in_secs }
    }

    pub fn token_ttl_in_secs(&self) -> (ttl: u64)
        ensures
            ttl == self@.token_ttl_in_secs,
    {
        self.token_ttl_in_secs
    }

    /// Makes an empty room under an id drawn at random, and gives the
    /// id. A room that went by the id before is replaced.
    pub fn create_room(&mut self, config: RoomConfig, tick_in_ms: u64) -> (room_id: RoomId)
        requires
            old(self)@.wf(),
        ensures
            is_random_text(room_id@, ROOM_ID_LENGTH),
            final(self)@ == old(self)@.with_new_room(
                room_id@,
                config.answer_window_in_ms,
                tick_in_ms,
            ),
            final(self)@.wf(),
    {
        let room_id = self.create_random_room_id();
        self.create_room_with_id(room_id.clone(), config, tick_in_ms);
        room_id
    }

    /// An id for a new room, drawn at random.
    pub fn create_random_room_id(&self) -> (room_id: RoomId)
        ensures
            is_random_text(room_id@, ROOM_ID_LENGTH),
    {
        random_text(ROOM_ID_LENGTH)
    }

    /// Makes an empty room under `room_id`. A room that went by the id
    /// before is replaced.
    pub fn create_room_with_id(&mut self, room_id: RoomId, config: RoomConfig, tick_in_ms: u64)
        requires
            old(self)@.wf(),
        ensures
            final(self)@ == old(self)@.with_new_room(
                room_id@,
                config.answer_window_in_ms,
                tick_in_ms,
            ),
            final(self)@.wf(),
    {
        let room = RoomState::new(room_id.clone(), config, tick_in_ms, self.token_ttl_in_secs);
        rooms_insert(&mut self.rooms, room_id, room);
        proof {
            assert forall|id: Seq<char>| #[trigger] self@.rooms.contains_key(id) implies {
                &&& self@.rooms[id].wf()
                &&& self@.rooms[id].room_id == id
            } by {
                if id != room_id@ {
                    assert(old(self)@.rooms.contains_key(id));
                }
            }
        }
    }

    pub fn has_room(&self, room_id: &str) -> (found: bool)
        ensures
            found == self@.rooms.contains_key(room_id@),
    {
        rooms_contains(&self.rooms, room_id)
    }

    /// Takes a room out of the registry to work on it.
    pub fn get_room(&mut self, room_id: &str) -> (result: Result<RoomState, AppError>)
        requires
            old(self)@.wf(),
        ensures
            match result {
                Ok(room) => {
                    &&& old(self)@.rooms.contains_key(room_id@)
                    &&& room@ == old(self)@.rooms[room_id@]
                    &&& room@.wf()
                    &&& room@.room_id == room_id@
                    &&& final(self)@ == (AppView {
                        rooms: old(self)@.rooms.remove(room_id@),
                        ..old(self)@
                    })
                },
                Err(error) => {
                    &&& !old(self)@.rooms.contains_key(room_id@)
                    &&& error == AppError::RoomNotFound
                    &&& final(self)@ == old(self)@
                },
            },
            final(self)@.wf(),
    {
        let found = rooms_remove(&mut self.rooms, room_id);
        proof {
            assert forall|id: Seq<char>| #[trigger] self@.rooms.contains_key(id) implies {
                &&& self@.rooms[id].wf()
                &&& self@.rooms[id].room_id == id
            } by {
                assert(old(self)@.rooms.contains_key(id));
            }
        }
        match found {
            Some(room) => Ok(room),
            None => {
                assert(self@.rooms =~= old(self)@.rooms);
                Err(AppError::RoomNotFound)
            },
        }
    }

    /// Puts a room back into the registry, under its id.
    pub fn put_room(&mut self, room: RoomState)
        requires
            old(self)@.wf(),
            room@.wf(),
        ensures
            final(self)@ == (AppView {
                rooms: old(self)@.rooms.insert(room@.room_id, room@),
                ..old(self)@
            }),
            final(self)@.wf(),
    {
        let room_id = room.id().to_owned();
        rooms_insert(&mut self.rooms, room_id, room);
        proof {
            assert forall|id: Seq<char>| #[trigger] self@.rooms.contains_key(id) implies {
                &&& self@.rooms[id].wf()
                &&& self@.rooms[id].room_id == id
            } by {
                if id != room@.room_id {
                    assert(old(self)@.rooms.contains_key(id));
                }
            }
        }
    }

    /// Sweeps the registry at `now`: every room whose admin holds no
    /// token that is still good leaves the registry and is closed, and
    /// with it every connection it had. The rooms that left are handed
    /// back, each once and in no particular order, so that what is left
    /// of them can be torn down; each says which connections are to be
    /// closed.
    pub fn sweep_rooms(&mut self, now_in_secs: u64) -> (evicted: Vec<RoomState>)
        requires
            old(self)@.wf(),
        ensures
            final(self)@ == (AppView { rooms: old(self)@.kept(now_in_secs), ..old(self)@ }),
            final(self)@.wf(),
            forall|i: int|
                0 <= i < evicted@.len() ==> old(self)@.evicts(
                    now_in_secs,
                    (#[trigger] evicted@[i])@,
                ),
            distinct_rooms(evicted@),
            forall|id: Seq<char>| #[trigger]
                old(self)@.lapsed(now_in_secs, id) ==> holds_room(evicted@, id),
    {
        let ids = rooms_ids(&self.rooms);
        let mut evicted: Vec<RoomState> = Vec::new();
        let mut at: usize = 0;
        while at < ids.len()
            invariant
                old(self)@.wf(),
                at <= ids@.len(),
                self.token_ttl_in_secs == old(self).token_ttl_in_secs,
                forall|i: int, j: int|
                    0 <= i < j < ids@.len() ==> (#[trigger] ids@[i])@ != (#[trigger] ids@[j])@,
                forall|i: int|
                    0 <= i < ids@.len() ==> old(self)@.rooms.contains_key(#[trigger] ids@[i]@),
                forall|id: Seq<char>| #[trigger]
                    self@.rooms.contains_key(id) <==> old(self)@.rooms.contains_key(id) && !(
                    listed(ids@, at as int, id) && old(self)@.lapsed(now_in_secs, id)),
                forall|id: Seq<char>| #[trigger]
                    self@.rooms.contains_key(id) ==> self@.rooms[id] == old(self)@.rooms[id],
                forall|i: int|
                    0 <= i < evicted@.len() ==> {
                        &&& old(self)@.evicts(now_in_secs, (#[trigger] evicted@[i])@)
                        &&& listed(ids@, at as int, evicted@[i]@.room_id)
                    },
                distinct_rooms(evicted@),
                forall|id: Seq<char>|
                    #[trigger] listed(ids@, at as int, id) && old(self)@.lapsed(now_in_secs, id)
                        ==> holds_room(evicted@, id),
            decreases ids@.len() - at,
        {
            let ghost before = self@;
            let ghost gone = evicted@;
            let ghost id = ids@[at as int]@;
            proof {
                if listed(ids@, at as int, id) {
                    let i = choose|i: int| 0 <= i < at && (#[trigger] ids@[i])@ == id;
                    assert(ids@[i]@ != ids@[at as int]@);
                }
                assert(before.rooms.contains_key(id));
                assert forall|other: Seq<char>| listed(ids@, at + 1, other) <==> other == id
                    || listed(ids@, at as int, other) by {
                    if listed(ids@, at + 1, other) {
                        let i = choose|i: int| 0 <= i < at + 1 && (#[trigger] ids@[i])@ == other;
                        if i < at {
                            assert(listed(ids@, at as int, other));
                        }
                    }
                    if listed(ids@, at as int, other) {
                        let i = choose|i: int| 0 <= i < at && (#[trigger] ids@[i])@ == other;
                        assert(listed(ids@, at + 1, other));
                    }
                    if other == id {
                        assert(ids@[at as int]@ == other);
                    }
                }
            }
            match rooms_remove(&mut self.rooms, ids[at].as_str()) {
                Some(mut room) => {
                    assert(room@ == old(self)@.rooms[id]);
                    if room.admin_present(now_in_secs) {
                        rooms_insert(&mut self.rooms, ids[at].clone(), room);
                        assert(self@.rooms =~= before.rooms);
                    } else {
                        room.shutdown();
                        evicted.push(room);
                        proof {
                            assert forall|i: int| 0 <= i < gone.len() implies evicted@[i]
                                == gone[i] by {}
                            assert(evicted@[gone.len() as int]@.room_id == id);
                            assert(holds_room(evicted@, id));
                            assert forall|other: Seq<char>|
                                holds_room(gone, other) implies holds_room(evicted@, other) by {
                                let i = choose|i: int|
                                    0 <= i < gone.len() && (#[trigger] gone[i])@.room_id == other;
                                assert(evicted@[i]@.room_id == other);
                            }
                        }
                    }
                },
                None => {},
            }
            proof {
                assert forall|other: Seq<char>|
                    #[trigger] listed(ids@, at + 1, other) && old(self)@.lapsed(
                        now_in_secs,
                        other,
                    ) implies holds_room(evicted@, other) by {
                    if other != id {
                        assert(listed(ids@, at as int, other));
                        assert(holds_room(gone, other));
                    }
                }
            }
            at = at + 1;
        }
        proof {
            assert forall|id: Seq<char>| #[trigger]
                old(self)@.lapsed(now_in_secs, id) implies holds_room(evicted@, id) by {
                let k = choose|k: int| 0 <= k < ids@.len() && (#[trigger] ids@[k])@ == id;
                assert(listed(ids@, at as int, id));
            }
            assert(self@.rooms =~= old(self)@.kept(now_in_secs));
        }
        evicted
    }
}

/// A room whose admin holds no token that is still good at `now` holds
/// none later either, unless the admin trades the token in; the next
/// sweep takes such a room out of the registry and closes it, and every
/// connection the room had is among those to be closed.
pub proof fn lemma_lapsed_room_is_torn_down(
    app: AppView,
    id: Seq<char>,
    now_in_secs: u64,
    later_in_secs: u64,
)
    requires
        app.wf(),
        app.rooms.contains_key(id),
        !app.rooms[id].admin_present(now_in_secs),
        now_in_secs <= later_in_secs,
    ensures
        app.lapsed(later_in_secs, id),
        !app.kept(later_in_secs).contains_key(id),
        app.evicts(later_in_secs, app.rooms[id].closed()),
        app.rooms[id].closed().shut_down,
        app.rooms[id].closed().closing == app.rooms[id].recipients(),
        app.rooms[id].closed().recipients() == Seq::<EndpointId>::empty(),
{
    lemma_closed_wf(app.rooms[id]);
}

} // verus!
