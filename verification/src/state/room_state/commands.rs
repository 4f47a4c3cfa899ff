//! The room's mailbox: every change to who is in a room is a command, and
//! the room serves its commands one at a time, in the order they come.

use crate::auth::{checked_view, offered_view, Claims, ClaimsView};
use crate::dtos::{lemma_views_push, outbound_views, EndpointId, Outbound, OutboundView, Role};
use crate::errors::AppError;
use crate::game::PlayerId;
use crate::state::room_state::model::RoomView;
use crate::state::room_state::RoomState;
use vstd::prelude::*;

verus! {

pub enum RoomCommand {
    CreateAdmin { name: String },
    Join { requested_name: String, token: Option<Result<Claims, AppError>> },
    RefreshToken { checked: Result<Claims, AppError> },
    AttachConnection { player_id: PlayerId, name: String, endpoint: EndpointId },
    DetachConnection { player_id: PlayerId },
    SetAdminByName { requester_id: PlayerId, name: String },
    KickByName { requester_id: PlayerId, name: String },
    StartRound { requester_id: PlayerId },
    ContinueRound { requester_id: PlayerId },
    CleanupExpired,
}

pub ghost enum CommandView {
    CreateAdmin { name: Seq<char> },
    Join { requested_name: Seq<char>, token: Option<Result<ClaimsView, AppError>> },
    RefreshToken { checked: Result<ClaimsView, AppError> },
    AttachConnection { player_id: PlayerId, name: Seq<char>, endpoint: EndpointId },
    DetachConnection { player_id: PlayerId },
    SetAdminByName { requester_id: PlayerId, name: Seq<char> },
    KickByName { requester_id: PlayerId, name: Seq<char> },
    StartRound { requester_id: PlayerId },
    ContinueRound { requester_id: PlayerId },
    CleanupExpired,
}

impl View for RoomCommand {
    type V = CommandView;

    open spec fn view(&self) -> CommandView {
        match self {
            RoomCommand::CreateAdmin { name } => CommandView::CreateAdmin { name: name@ },
            RoomCommand::Join { requested_name, token } => CommandView::Join {
                requested_name: requested_name@,
                token: offered_view(*token),
            },
            RoomCommand::RefreshToken { checked } => CommandView::RefreshToken {
                checked: checked_view(*checked),
            },
            RoomCommand::AttachConnection { player_id, name, endpoint } => {
                CommandView::AttachConnection {
                    player_id: *player_id,
                    name: name@,
                    endpoint: *endpoint,
                }
            },
            RoomCommand::DetachConnection { player_id } => CommandView::DetachConnection {
                player_id: *player_id,
            },
            RoomCommand::SetAdminByName { requester_id, name } => CommandView::SetAdminByName {
                requester_id: *requester_id,
                name: name@,
            },
            RoomCommand::KickByName { requester_id, name } => CommandView::KickByName {
                requester_id: *requester_id,
                name: name@,
            },
            RoomCommand::StartRound { requester_id } => CommandView::StartRound {
                requester_id: *requester_id,
            },
            RoomCommand::ContinueRound { requester_id } => CommandView::ContinueRound {
                requester_id: *requester_id,
            },
            RoomCommand::CleanupExpired => CommandView::CleanupExpired,
        }
    }
}

/// What the sender of a command is told.
pub enum CommandReply {
    /// The claims to sign into a token, or why there are none.
    Token(Result<Claims, AppError>),
    /// Whether what was asked for was done.
    Done(bool),
    /// The command has no answer.
    Nothing,
}

pub ghost enum ReplyView {
    Token(Result<ClaimsView, AppError>),
    Done(bool),
    Nothing,
}

impl View for CommandReply {
    type V = ReplyView;

    open spec fn view(&self) -> ReplyView {
        match self {
            CommandReply::Token(result) => ReplyView::Token(checked_view(*result)),
            CommandReply::Done(done) => ReplyView::Done(*done),
            CommandReply::Nothing => ReplyView::Nothing,
        }
    }
}

impl RoomView {
    /// The room after a command, the answer to its sender, and what goes
    /// out to the connected players.
    pub open spec fn handle_command(self, command: CommandView, now_in_secs: u64) -> (
        RoomView,
        ReplyView,
        Seq<OutboundView>,
    ) {
        match command {
            CommandView::CreateAdmin { name } => {
                let (room, result) = self.create_admin(name, now_in_secs);
                (room, ReplyView::Token(result), Seq::empty())
            },
            CommandView::Join { requested_name, token } => {
                let (room, result, out) = self.join(requested_name, token, now_in_secs);
                (room, ReplyView::Token(result), out)
            },
            CommandView::RefreshToken { checked } => {
                let (room, result) = self.refresh_token(checked, now_in_secs);
                (room, ReplyView::Token(result), Seq::empty())
            },
            CommandView::AttachConnection { player_id, name, endpoint } => {
                let (room, done, out) = self.attach_connection(player_id, name, endpoint);
                (room, ReplyView::Done(done), out)
            },
            CommandView::DetachConnection { player_id } => (
                self.detach_connection(player_id),
                ReplyView::Nothing,
                Seq::empty(),
            ),
            CommandView::SetAdminByName { requester_id, name } => {
                let (room, done, out) = self.set_admin_by_name(requester_id, name);
                (room, ReplyView::Done(done), out)
            },
            CommandView::KickByName { requester_id, name } => {
                let (room, done, out) = self.kick_by_name(requester_id, name);
                (room, ReplyView::Done(done), out)
            },
            CommandView::StartRound { requester_id } => {
                let (room, out) = self.start_round(requester_id);
                (room, ReplyView::Nothing, out)
            },
            CommandView::ContinueRound { requester_id } => {
                let (room, out) = self.continue_round(requester_id);
                (room, ReplyView::Nothing, out)
            },
            CommandView::CleanupExpired => {
                let (room, out) = self.cleanup_expired(now_in_secs);
                (room, ReplyView::Nothing, out)
            },
        }
    }
}

impl RoomState {
    /// Answers a join: settles it, and where it succeeds tells everybody
    /// connected the new roster. The answer carries the claims to sign
    /// into the player's token, and the player's role.
    pub fn join(
        &mut self,
        requested_name: &str,
        token: Option<Result<Claims, AppError>>,
        now_in_secs: u64,
    ) -> (answer: (Result<(Claims, Role), AppError>, Vec<Outbound>))
        requires
            old(self)@.wf(),
        ensures
            final(self)@ == old(self)@.join(requested_name@, offered_view(token), now_in_secs).0,
            match answer.0 {
                Ok((claims, role)) => {
                    &&& old(self)@.join(requested_name@, offered_view(token), now_in_secs).1
                        == Ok::<ClaimsView, AppError>(claims@)
                    &&& role == claims.role
                },
                Err(error) => old(self)@.join(
                    requested_name@,
                    offered_view(token),
                    now_in_secs,
                ).1 == Err::<ClaimsView, AppError>(error),
            },
            outbound_views(answer.1@) == old(self)@.join(
                requested_name@,
                offered_view(token),
                now_in_secs,
            ).2,
            final(self)@.wf(),
    {
        let result = self.resolve_join_direct(requested_name, token, now_in_secs);
        let mut out: Vec<Outbound> = Vec::new();
        assert(outbound_views(out@) =~= Seq::empty());
        match result {
            Ok(claims) => {
                let roster = self.broadcast_participants();
                proof {
                    lemma_views_push(out@, roster);
                    assert(outbound_views(out@).push(roster@) =~= seq![roster@]);
                }
                out.push(roster);
                let role = claims.role;
                (Ok((claims, role)), out)
            },
            Err(error) => (Err(error), out),
        }
    }

    /// Serves one command at time `now`.
    pub fn handle_command(&mut self, command: RoomCommand, now_in_secs: u64) -> (answer: (
        CommandReply,
        Vec<Outbound>,
    ))
        requires
            old(self)@.wf(),
        ensures
            (final(self)@, answer.0@, outbound_views(answer.1@)) == old(self)@.handle_command(
                command@,
                now_in_secs,
            ),
            final(self)@.wf(),
    {
        let mut none: Vec<Outbound> = Vec::new();
        assert(outbound_views(none@) =~= Seq::empty());
        match command {
            RoomCommand::CreateAdmin { name } => {
                let result = self.create_admin(name.as_str(), now_in_secs);
                (CommandReply::Token(result), none)
            },
            RoomCommand::Join { requested_name, token } => {
                let (result, out) = self.join(requested_name.as_str(), token, now_in_secs);
                let reply = match result {
                    Ok((claims, _)) => Ok(claims),
                    Err(error) => Err(error),
                };
                (CommandReply::Token(reply), out)
            },
            RoomCommand::RefreshToken { checked } => {
                let result = self.refresh_token(checked, now_in_secs);
                (CommandReply::Token(result), none)
            },
            RoomCommand::AttachConnection { player_id, name, endpoint } => {
                let (done, out) = self.attach_connection(player_id, name.as_str(), endpoint);
                (CommandReply::Done(done), out)
            },
            RoomCommand::DetachConnection { player_id } => {
                self.detach_connection(player_id);
                (CommandReply::Nothing, none)
            },
            RoomCommand::SetAdminByName { requester_id, name } => {
                let (done, out) = self.set_admin_by_name(requester_id, name.as_str());
                (CommandReply::Done(done), out)
            },
            RoomCommand::KickByName { requester_id, name } => {
                let (done, out) = self.kick_by_name(requester_id, name.as_str());
                (CommandReply::Done(done), out)
            },
            RoomCommand::StartRound { requester_id } => {
                let out = self.start_round(requester_id);
                (CommandReply::Nothing, out)
            },
            RoomCommand::ContinueRound { requester_id } => {
                let out = self.continue_round(requester_id);
                (CommandReply::Nothing, out)
            },
            RoomCommand::CleanupExpired => {
                let out = self.cleanup_expired(now_in_secs);
                (CommandReply::Nothing, out)
            },
        }
    }
}

} // verus!
