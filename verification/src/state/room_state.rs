//! A room: its players, their sessions and connections, and its game.
//!
//! A room is changed through `&mut`, by one owner at a time: every
//! operation sees the room as the operation before left it, and leaves
//! it well formed.

pub mod commands;
pub mod laws;
pub mod lifecycle;
pub mod membership;
pub mod messaging;
pub mod model;

use crate::dtos::EndpointId;
use crate::game::{BuzzerGame, Config, PlayerId};
use crate::state::room_state::laws::lemma_closed_wf;
use crate::state::room_state::model::RoomView;
use crate::tables::{
    ids_held, ids_new, names_held, names_new, numbers_held, numbers_new, numbers_remove,
};
use dashmap::DashMap;
use vstd::prelude::*;

verus! {

pub type RoomId = String;

#[derive(Clone, Copy)]
pub struct RoomConfig {
    pub answer_window_in_ms: u64,
}

pub struct RoomState {
    room_id: RoomId,
    answer_window_in_ms: u64,
    tick_in_ms: u64,
    token_ttl_in_secs: u64,
    names_by_id: DashMap<PlayerId, String>,
    ids_by_name: DashMap<String, PlayerId>,
    token_exp_by_id: DashMap<PlayerId, u64>,
    routes: DashMap<PlayerId, EndpointId>,
    next_id: PlayerId,
    admin_id: Option<PlayerId>,
    round_started: bool,
    reset_flag: bool,
    continue_flag: bool,
    shutdown: bool,
    closing: Vec<EndpointId>,
    buzzes: Vec<PlayerId>,
    game: BuzzerGame,
}

impl View for RoomState {
    type V = RoomView;

    closed spec fn view(&self) -> RoomView {
        RoomView {
            room_id: self.room_id@,
            answer_window_in_ms: self.answer_window_in_ms,
            tick_in_ms: self.tick_in_ms,
            token_ttl_in_secs: self.token_ttl_in_secs,
            names: names_held(&self.names_by_id),
            ids: ids_held(&self.ids_by_name),
            expiry: numbers_held(&self.token_exp_by_id),
            endpoints: numbers_held(&self.routes),
            next_id: self.next_id,
            admin: self.admin_id,
            round_started: self.round_started,
            start_requested: self.reset_flag,
            continue_requested: self.continue_flag,
            shut_down: self.shutdown,
            closing: self.closing@,
            buzzes: self.buzzes@,
            game: self.game@,
        }
    }
}

impl RoomState {
    /// An empty room. Tokens issued in it stay good for
    /// `token_ttl_in_secs`; its clock is meant to tick every `tick_ms`.
    pub fn new(id: RoomId, config: RoomConfig, tick_ms: u64, token_ttl_in_secs: u64) -> (room:
        Self)
        ensures
            room@ == RoomView::initial(id@, config.answer_window_in_ms, tick_ms, token_ttl_in_secs),
            room@.wf(),
    {
        RoomState {
            room_id: id,
            answer_window_in_ms: config.answer_window_in_ms,
            tick_in_ms: tick_ms,
            token_ttl_in_secs,
            names_by_id: names_new(),
            ids_by_name: ids_new(),
            token_exp_by_id: numbers_new(),
            routes: numbers_new(),
            next_id: 0,
            admin_id: None,
            round_started: false,
            reset_flag: false,
            continue_flag: false,
            shutdown: false,
            closing: Vec::new(),
            buzzes: Vec::new(),
            game: BuzzerGame::new(Config { answer_window_in_ms: config.answer_window_in_ms }),
        }
    }

    pub fn id(&self) -> (id: &str)
        ensures
            id@ == self@.room_id,
    {
        self.room_id.as_str()
    }

    pub fn answer_window_in_ms(&self) -> (window: u64)
        ensures
            window == self@.answer_window_in_ms,
    {
        self.answer_window_in_ms
    }

    /// The interval the room's clock is meant to tick at, in milliseconds.
    pub fn tick_in_ms(&self) -> (tick: u64)
        ensures
            tick == self@.tick_in_ms,
    {
        self.tick_in_ms
    }

    /// Closes the room for good: the room is marked as shut down, so that
    /// whoever drives it stops, and every connection it has is dropped
    /// and noted as one to be closed.
    pub fn shutdown(&mut self)
        requires
            old(self)@.wf(),
        ensures
            final(self)@ == old(self)@.closed(),
            final(self)@.wf(),
    {
        self.shutdown = true;
        let mut closing: Vec<EndpointId> = Vec::new();
        let mut id: PlayerId = 0;
        let ghost marked = RoomView { shut_down: true, ..old(self)@ };
        assert(self@.endpoints =~= old(self)@.endpoints.remove_keys(
            Set::new(|p: PlayerId| p < 0),
        ));
        while id < self.next_id
            invariant
                old(self)@.wf(),
                id <= self.next_id,
                self.closing@ == old(self)@.closing,
                self@ == (RoomView { endpoints: self@.endpoints, ..marked }),
                self@.endpoints =~= old(self)@.endpoints.remove_keys(
                    Set::new(|p: PlayerId| p < id),
                ),
                closing@ == old(self)@.endpoints_below(id as nat),
            decreases self.next_id - id,
        {
            match numbers_remove(&mut self.routes, id) {
                Some(endpoint) => {
                    closing.push(endpoint);
                },
                None => {},
            }
            id = id + 1;
        }
        self.closing = closing;
        proof {
            assert(self@.endpoints =~= Map::empty()) by {
                assert forall|p: PlayerId| !self@.endpoints.contains_key(p) by {
                    if old(self)@.endpoints.contains_key(p) {
                        assert(old(self)@.names.contains_key(p));
                    }
                }
            }
            lemma_closed_wf(old(self)@);
        }
    }

    /// The endpoints that were live when the room was closed: the
    /// connections that are to be closed with it.
    pub fn closing(&self) -> (endpoints: &Vec<EndpointId>)
        ensures
            endpoints@ == self@.closing,
    {
        &self.closing
    }

    pub fn is_shut_down(&self) -> (closed: bool)
        ensures
            closed == self@.shut_down,
    {
        self.shutdown
    }
}

} // verus!
