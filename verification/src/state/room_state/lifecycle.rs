//! The end of sessions: players whose token has lapsed leave the room.

use crate::dtos::{outbound_views, MessageView, Outbound};
use crate::game::PlayerId;
use crate::state::room_state::laws::{lemma_sweep_done, lemma_sweep_step};
use crate::state::room_state::RoomState;
use crate::tables::numbers_get;
use vstd::prelude::*;

verus! {

/// How often whoever drives a room is meant to sweep it, in seconds.
pub const ROOM_CLEANUP_INTERVAL_IN_SECS: u64 = 30 * 60;

impl RoomState {
    /// Sweeps the room at `now`: every player whose token has lapsed is
    /// told so, if connected, and leaves the room with everything kept
    /// about them. The players are taken by id.
    pub fn cleanup_expired(&mut self, now_in_secs: u64) -> (out: Vec<Outbound>)
        requires
            old(self)@.wf(),
        ensures
            (final(self)@, outbound_views(out@)) == old(self)@.cleanup_expired(now_in_secs),
            final(self)@.wf(),
    {
        let mut out: Vec<Outbound> = Vec::new();
        let bound = self.next_id;
        let mut id: PlayerId = 0;
        proof {
            lemma_sweep_done(self@, now_in_secs);
            assert(outbound_views(out@) =~= Seq::empty());
        }
        while id < bound
            invariant
                old(self)@.wf(),
                bound == old(self)@.next_id,
                id <= bound,
                self@.wf(),
                self@ == old(self)@.without_players(
                    old(self)@.expired_below(now_in_secs, id as nat),
                ),
                outbound_views(out@) == old(self)@.kicked_notices(
                    old(self)@.expired(now_in_secs),
                    id as nat,
                ),
            decreases bound - id,
        {
            proof {
                lemma_sweep_step(old(self)@, now_in_secs, id);
            }
            let lapsed = match numbers_get(&self.token_exp_by_id, id) {
                Some(exp) => now_in_secs >= exp,
                None => false,
            };
            if lapsed {
                let mut notice = self.send_kicked_to(id);
                let ghost before = out@;
                out.append(&mut notice);
                assert(outbound_views(out@) =~= outbound_views(before) + old(self)@.to_player(
                    id,
                    MessageView::Kicked,
                ));
                let _ = self.remove_player(id);
            }
            id = id + 1;
        }
        proof {
            lemma_sweep_done(old(self)@, now_in_secs);
        }
        out
    }
}

} // verus!
