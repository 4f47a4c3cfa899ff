//! Who is in the room: joining, leaving, names, the admin, and sessions.

use crate::auth::{checked_view, offered_view, Claims};
use crate::dtos::{lemma_views_push, outbound_views, Outbound, Role};
use crate::errors::AppError;
use crate::game::PlayerId;
use crate::state::room_state::laws::{
    lemma_create_admin_wf, lemma_insert_player_wf, lemma_refresh_keeps_identity,
    lemma_remove_player_wf, lemma_resolve_join_wf, lemma_same_members_wf, lemma_with_token_wf,
};
use crate::state::room_state::model::{RoomView, ROOM_CAPACITY};
use crate::state::room_state::RoomState;
use crate::tables::{
    ids_contains, ids_get, ids_insert, ids_remove, names_get, names_insert, names_remove,
    numbers_insert, numbers_remove,
};
use crate::text::{same_text, trim};
use vstd::prelude::*;

verus! {

impl RoomState {
    /// Whether a player of the room goes by this name.
    pub fn name_exists(&self, name: &str) -> (found: bool)
        ensures
            found == self@.ids.contains_key(name@),
    {
        ids_contains(&self.ids_by_name, name)
    }

    /// Names the room's admin. Whoever was admin before is a player from
    /// now on.
    pub fn set_admin_id(&mut self, player_id: PlayerId)
        ensures
            final(self)@ == old(self)@.with_admin(player_id),
            old(self)@.wf() ==> final(self)@.wf(),
    {
        self.admin_id = Some(player_id);
        proof {
            if old(self)@.wf() {
                lemma_same_members_wf(old(self)@, self@);
            }
        }
    }

    pub fn is_admin(&self, player_id: PlayerId) -> (admin: bool)
        ensures
            admin == (self@.admin == Some(player_id)),
    {
        match self.admin_id {
            Some(id) => id == player_id,
            None => false,
        }
    }

    /// Whether a player with this id is in the room.
    pub fn player_exists(&self, player_id: PlayerId) -> (found: bool)
        ensures
            found == self@.names.contains_key(player_id),
    {
        names_get(&self.names_by_id, player_id).is_some()
    }

    /// Whether player `player_id` is in the room under exactly this name.
    pub fn player_matches(&self, player_id: PlayerId, name: &str) -> (matches: bool)
        ensures
            matches == self@.matches(player_id, name@),
    {
        match names_get(&self.names_by_id, player_id) {
            Some(stored) => same_text(stored.as_str(), name),
            None => false,
        }
    }

    /// Adds a player with the next id. Refused where the name is in use
    /// (`NameTaken`), then where the room has handed out its 128 ids
    /// (`FullRoom`). A new admin takes the role from whoever had it.
    pub fn insert_player(&mut self, name: String, role: Role) -> (result: Result<
        PlayerId,
        AppError,
    >)
        requires
            old(self)@.wf(),
        ensures
            (final(self)@, result) == old(self)@.insert_player(name@, role),
            final(self)@.wf(),
    {
        proof {
            lemma_insert_player_wf(self@, name@, role);
        }
        if ids_contains(&self.ids_by_name, name.as_str()) {
            return Err(AppError::NameTaken);
        }
        let player_id = self.next_id;
        if player_id >= ROOM_CAPACITY {
            return Err(AppError::FullRoom);
        }
        self.next_id = player_id + 1;
        if !self.round_started {
            self.game.set_curr_player_id(self.next_id);
        }
        ids_insert(&mut self.ids_by_name, name.clone(), player_id);
        names_insert(&mut self.names_by_id, player_id, name);
        if role == Role::Admin {
            self.set_admin_id(player_id);
        }
        Ok(player_id)
    }

    /// Removes a player and everything kept about them: name, token,
    /// connection, and the admin role if they held it. Where no player
    /// has the id, nothing changes and the answer is `Kicked`.
    pub fn remove_player(&mut self, player_id: PlayerId) -> (result: Result<
        (String, Role),
        AppError,
    >)
        requires
            old(self)@.wf(),
        ensures
            final(self)@ == old(self)@.remove_player(player_id).0,
            match result {
                Ok((name, role)) => old(self)@.remove_player(player_id).1 == Ok::<
                    (Seq<char>, Role),
                    AppError,
                >((name@, role)),
                Err(error) => old(self)@.remove_player(player_id).1 == Err::<
                    (Seq<char>, Role),
                    AppError,
                >(error),
            },
            final(self)@.wf(),
    {
        proof {
            lemma_remove_player_wf(self@, player_id);
        }
        numbers_remove(&mut self.routes, player_id);
        numbers_remove(&mut self.token_exp_by_id, player_id);
        let name = match names_remove(&mut self.names_by_id, player_id) {
            Some(name) => name,
            None => {
                proof {
                    assert(self@.endpoints =~= old(self)@.endpoints);
                    assert(self@.expiry =~= old(self)@.expiry);
                    assert(self@.names =~= old(self)@.names);
                }
                return Err(AppError::Kicked);
            },
        };
        ids_remove(&mut self.ids_by_name, name.as_str());
        let role = if self.is_admin(player_id) {
            self.admin_id = None;
            Role::Admin
        } else {
            Role::Player
        };
        Ok((name, role))
    }

    fn set_token_expiry(&mut self, player_id: PlayerId, exp: u64)
        ensures
            final(self)@ == (RoomView {
                expiry: old(self)@.expiry.insert(player_id, exp),
                ..old(self)@
            }),
    {
        numbers_insert(&mut self.token_exp_by_id, player_id, exp);
    }

    /// Issues the claims of a fresh token to a player of the room and
    /// notes when the token lapses.
    fn issue_token(
        &mut self,
        player_id: PlayerId,
        name: &str,
        role: Role,
        now_in_secs: u64,
    ) -> (claims: Claims)
        requires
            old(self)@.wf(),
            old(self)@.names.contains_key(player_id),
        ensures
            final(self)@ == old(self)@.with_token(player_id, now_in_secs),
            claims@ == old(self)@.claims_for(player_id, name@, role, now_in_secs),
            final(self)@.wf(),
    {
        proof {
            lemma_with_token_wf(self@, player_id, now_in_secs);
        }
        let claims = Claims::issue(
            self.room_id.as_str(),
            player_id,
            name,
            role,
            now_in_secs,
            self.token_ttl_in_secs,
        );
        self.set_token_expiry(player_id, claims.exp);
        claims
    }

    /// The room's creator joins as its admin.
    pub fn create_admin(&mut self, name: &str, now_in_secs: u64) -> (result: Result<
        Claims,
        AppError,
    >)
        requires
            old(self)@.wf(),
        ensures
            (final(self)@, checked_view(result)) == old(self)@.create_admin(name@, now_in_secs),
            final(self)@.wf(),
    {
        proof {
            lemma_create_admin_wf(self@, name@, now_in_secs);
        }
        let player_id = match self.insert_player(name.to_owned(), Role::Admin) {
            Ok(player_id) => player_id,
            Err(error) => {
                return Err(error);
            },
        };
        Ok(self.issue_token(player_id, name, Role::Admin, now_in_secs))
    }

    /// Gives the record of a returning player the name asked for and
    /// drops the player's connection.
    fn rename_player(&mut self, player_id: PlayerId, name: &str)
        requires
            old(self)@.names.contains_key(player_id),
        ensures
            final(self)@ == old(self)@.renamed(player_id, name@),
    {
        numbers_remove(&mut self.routes, player_id);
        let before = names_insert(&mut self.names_by_id, player_id, name.to_owned());
        match before {
            Some(old_name) => {
                ids_remove(&mut self.ids_by_name, old_name.as_str());
            },
            None => {},
        }
        ids_insert(&mut self.ids_by_name, name.to_owned(), player_id);
    }

    /// Settles a join under a name. Without a token the player is new:
    /// the name must be free and the room must have a slot left. With a
    /// token that checked out and that names a player of this room, the
    /// player comes back with the same id and role under the name asked
    /// for; the name must not be another player's. A token that did not
    /// check out fails the join the way the check failed.
    pub fn resolve_join_direct(
        &mut self,
        requested_name: &str,
        token: Option<Result<Claims, AppError>>,
        now_in_secs: u64,
    ) -> (result: Result<Claims, AppError>)
        requires
            old(self)@.wf(),
        ensures
            (final(self)@, checked_view(result)) == old(self)@.resolve_join(
                requested_name@,
                offered_view(token),
                now_in_secs,
            ),
            final(self)@.wf(),
    {
        proof {
            lemma_resolve_join_wf(
                self@,
                requested_name@,
                offered_view(token),
                now_in_secs,
            );
        }
        match token {
            Some(Err(error)) => Err(error),
            Some(Ok(claims)) => {
                let player_id = claims.player_id;
                if !same_text(claims.room_id.as_str(), self.room_id.as_str()) {
                    return Err(AppError::RoomMismatch);
                }
                if !self.player_matches(player_id, claims.name.as_str()) {
                    return Err(AppError::UserNotInRoom);
                }
                match ids_get(&self.ids_by_name, requested_name) {
                    Some(holder) => {
                        if holder != player_id {
                            return Err(AppError::NameTaken);
                        }
                    },
                    None => {},
                }
                let role = if self.is_admin(player_id) {
                    Role::Admin
                } else {
                    Role::Player
                };
                self.rename_player(player_id, requested_name);
                Ok(self.issue_token(player_id, requested_name, role, now_in_secs))
            },
            None => {
                let player_id = match self.insert_player(requested_name.to_owned(), Role::Player) {
                    Ok(player_id) => player_id,
                    Err(error) => {
                        return Err(error);
                    },
                };
                Ok(self.issue_token(player_id, requested_name, Role::Player, now_in_secs))
            },
        }
    }

    /// Trades a checked token for the claims of a fresh one. The bearer
    /// must still be in this room under the token's name; the fresh
    /// claims say what the old ones said, with new times.
    pub fn refresh_token(&mut self, token: Result<Claims, AppError>, now_in_secs: u64) -> (result:
        Result<Claims, AppError>)
        requires
            old(self)@.wf(),
        ensures
            (final(self)@, checked_view(result)) == old(self)@.refresh_token(
                checked_view(token),
                now_in_secs,
            ),
            final(self)@.wf(),
    {
        let claims = match token {
            Ok(claims) => claims,
            Err(error) => {
                return Err(error);
            },
        };
        proof {
            lemma_refresh_keeps_identity(self@, claims@, now_in_secs, now_in_secs);
        }
        if !same_text(claims.room_id.as_str(), self.room_id.as_str()) {
            return Err(AppError::RoomMismatch);
        }
        if !self.player_matches(claims.player_id, claims.name.as_str()) {
            return Err(AppError::UserNotInRoom);
        }
        Ok(self.issue_token(claims.player_id, claims.name.as_str(), claims.role, now_in_secs))
    }

    /// Settles who a request by `requester_id` is about that names the
    /// player `target`, or why it is refused: the requester is not the
    /// admin, the name is empty, the name is the requester's own (the
    /// reason given is then `own`), or nobody goes by exactly this name.
    /// A refusal comes as the notice for the requester.
    pub fn find_target(&self, requester_id: PlayerId, target: &str, own: &str) -> (found: Result<
        PlayerId,
        Vec<Outbound>,
    >)
        ensures
            match found {
                Ok(id) => {
                    &&& self@.refusal(requester_id, target@, own@) is None
                    &&& self@.ids.contains_key(target@)
                    &&& id == self@.ids[target@]
                },
                Err(out) => {
                    &&& self@.refusal(requester_id, target@, own@) matches Some(reason)
                    &&& outbound_views(out@) == self@.denied(requester_id, reason)
                },
            },
    {
        if !self.is_admin(requester_id) {
            return Err(self.send_denied_to(requester_id, "forbidden"));
        }
        if target.is_empty() {
            return Err(self.send_denied_to(requester_id, "user_not_found"));
        }
        if self.player_matches(requester_id, target) {
            return Err(self.send_denied_to(requester_id, own));
        }
        match ids_get(&self.ids_by_name, target) {
            Some(player_id) => Ok(player_id),
            None => Err(self.send_denied_to(requester_id, "user_not_found")),
        }
    }

    /// The admin removes a player by name; white space around the name
    /// does not count. See `kick_target` for what follows.
    pub fn kick_by_name(&mut self, requester_id: PlayerId, name: &str) -> (result: (
        bool,
        Vec<Outbound>,
    ))
        requires
            old(self)@.wf(),
        ensures
            (final(self)@, result.0, outbound_views(result.1@)) == old(self)@.kick_by_name(
                requester_id,
                name@,
            ),
            final(self)@.wf(),
            result.0 ==> final(self)@.is_roster(final(self)@.roster()),
    {
        self.kick_target(requester_id, trim(name))
    }

    /// The admin removes the player who goes by exactly the name
    /// `target`. The player is told, if connected, and leaves the room
    /// with everything kept about them; everybody still connected gets
    /// the new roster. A request that is refused changes nothing and is
    /// answered to the requester alone.
    pub fn kick_target(&mut self, requester_id: PlayerId, target: &str) -> (result: (
        bool,
        Vec<Outbound>,
    ))
        requires
            old(self)@.wf(),
        ensures
            (final(self)@, result.0, outbound_views(result.1@)) == old(self)@.kick_target(
                requester_id,
                target@,
            ),
            final(self)@.wf(),
            result.0 ==> final(self)@.is_roster(final(self)@.roster()),
    {
        let player_id = match self.find_target(requester_id, target, "cannot_kick_self") {
            Ok(player_id) => player_id,
            Err(refused) => {
                return (false, refused);
            },
        };
        let mut out = self.send_kicked_to(player_id);
        let _ = self.remove_player(player_id);
        let roster = self.broadcast_participants();
        proof {
            lemma_views_push(out@, roster);
        }
        out.push(roster);
        (true, out)
    }

    /// The admin hands the role to another player by name; white space
    /// around the name does not count. See `set_admin_target` for what
    /// follows.
    pub fn set_admin_by_name(&mut self, requester_id: PlayerId, name: &str) -> (result: (
        bool,
        Vec<Outbound>,
    ))
        requires
            old(self)@.wf(),
        ensures
            (final(self)@, result.0, outbound_views(result.1@)) == old(self)@.set_admin_by_name(
                requester_id,
                name@,
            ),
            final(self)@.wf(),
            result.0 ==> final(self)@.is_roster(final(self)@.roster()),
    {
        self.set_admin_target(requester_id, trim(name))
    }

    /// The admin hands the role to the player who goes by exactly the
    /// name `target`; everybody connected gets the new roster. A request
    /// that is refused changes nothing and is answered to the requester
    /// alone.
    pub fn set_admin_target(&mut self, requester_id: PlayerId, target: &str) -> (result: (
        bool,
        Vec<Outbound>,
    ))
        requires
            old(self)@.wf(),
        ensures
            (final(self)@, result.0, outbound_views(result.1@)) == old(self)@.set_admin_target(
                requester_id,
                target@,
            ),
            final(self)@.wf(),
            result.0 ==> final(self)@.is_roster(final(self)@.roster()),
    {
        let player_id = match self.find_target(requester_id, target, "cannot_set_yourself_admin") {
            Ok(player_id) => player_id,
            Err(refused) => {
                return (false, refused);
            },
        };
        self.set_admin_id(player_id);
        let roster = self.broadcast_participants();
        let mut out: Vec<Outbound> = Vec::new();
        proof {
            lemma_views_push(out@, roster);
            assert(outbound_views(out@) =~= Seq::empty());
            assert(outbound_views(out@).push(roster@) =~= seq![roster@]);
        }
        out.push(roster);
        (true, out)
    }
}

} // verus!
