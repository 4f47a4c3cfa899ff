use buzzer::auth::Claims;
use buzzer::dtos::{ClientMessage, Outbound, ParticipantInfo, Role, ServerMessage};
use buzzer::errors::AppError;
use buzzer::socket::{
    authorize_session, handle_client_message, handle_socket, open_socket, PlayerSession,
    SocketEvent, INBOUND_QUOTA_PER_SECOND,
};
use buzzer::state::room_state::commands::{CommandReply, RoomCommand};
use buzzer::state::room_state::{RoomConfig, RoomState};

fn to(recipients: Vec<u64>, message: ServerMessage) -> Outbound {
    Outbound { recipients, message }
}

fn line(name: &str, role: Role, locked_out: bool) -> ParticipantInfo {
    ParticipantInfo { name: name.to_string(), role, locked_out }
}

fn denied(endpoint: u64, reason: &str) -> Vec<Outbound> {
    vec![to(vec![endpoint], ServerMessage::ActionDenied { reason: reason.to_string() })]
}

fn token_of(reply: CommandReply) -> Result<Claims, AppError> {
    match reply {
        CommandReply::Token(result) => result,
        _ => panic!("the command is answered with a token"),
    }
}

fn done(reply: CommandReply) -> bool {
    match reply {
        CommandReply::Done(done) => done,
        _ => panic!("the command is answered with yes or no"),
    }
}

fn nothing(reply: CommandReply) {
    assert!(matches!(reply, CommandReply::Nothing));
}

fn new_room() -> RoomState {
    RoomState::new("ROOM01".to_string(), RoomConfig { answer_window_in_ms: 1_000 }, 10, 100)
}

#[test]
fn commands_are_served_in_order() {
    let mut room = new_room();
    let (reply, out) =
        room.handle_command(RoomCommand::CreateAdmin { name: "Alice".to_string() }, 10);
    let alice = token_of(reply).unwrap();
    assert_eq!((alice.player_id, alice.role, alice.exp), (0, Role::Admin, 110));
    assert!(out.is_empty());

    let (reply, out) = room.handle_command(
        RoomCommand::AttachConnection { player_id: 0, name: "Alice".to_string(), endpoint: 5 },
        11,
    );
    assert!(done(reply));
    assert_eq!(
        out,
        vec![to(
            vec![5],
            ServerMessage::Participants { participants: vec![line("Alice", Role::Admin, false)] }
        )]
    );

    let (reply, out) = room.handle_command(
        RoomCommand::Join { requested_name: "Bob".to_string(), token: None },
        12,
    );
    let bob = token_of(reply).unwrap();
    assert_eq!((bob.player_id, bob.role, bob.iat, bob.exp), (1, Role::Player, 12, 112));
    assert_eq!(
        out,
        vec![to(
            vec![5],
            ServerMessage::Participants {
                participants: vec![line("Alice", Role::Admin, false), line("Bob", Role::Player, false)]
            }
        )]
    );

    let (reply, out) = room.handle_command(
        RoomCommand::Join { requested_name: "Bob".to_string(), token: None },
        13,
    );
    assert_eq!(token_of(reply), Err(AppError::NameTaken));
    assert!(out.is_empty());

    let (reply, out) =
        room.handle_command(RoomCommand::RefreshToken { checked: Ok(bob.clone()) }, 50);
    assert_eq!(token_of(reply), Ok(Claims { iat: 50, exp: 150, ..bob.clone() }));
    assert!(out.is_empty());

    let (reply, _) = room.handle_command(
        RoomCommand::RefreshToken { checked: Err(AppError::SessionExpired) },
        50,
    );
    assert_eq!(token_of(reply), Err(AppError::SessionExpired));

    let (reply, out) = room.handle_command(
        RoomCommand::AttachConnection { player_id: 1, name: "Bobby".to_string(), endpoint: 6 },
        51,
    );
    assert!(!done(reply));
    assert!(out.is_empty());
    let (reply, _) = room.handle_command(
        RoomCommand::AttachConnection { player_id: 1, name: "Bob".to_string(), endpoint: 6 },
        51,
    );
    assert!(done(reply));

    let (reply, out) = room.handle_command(RoomCommand::StartRound { requester_id: 1 }, 52);
    nothing(reply);
    assert_eq!(out, denied(6, "forbidden"));
    let (reply, out) = room.handle_command(RoomCommand::ContinueRound { requester_id: 1 }, 52);
    nothing(reply);
    assert_eq!(out, denied(6, "forbidden"));
    let (reply, out) = room.handle_command(RoomCommand::StartRound { requester_id: 0 }, 52);
    nothing(reply);
    assert!(out.is_empty());
    let (reply, out) = room.handle_command(RoomCommand::ContinueRound { requester_id: 0 }, 52);
    nothing(reply);
    assert!(out.is_empty());
    assert_eq!(
        room.run_tick(0),
        vec![to(vec![5, 6], ServerMessage::RoundStarted), to(vec![5, 6], ServerMessage::RoundContinued)]
    );

    let (reply, out) = room.handle_command(
        RoomCommand::SetAdminByName { requester_id: 1, name: "Alice".to_string() },
        53,
    );
    assert!(!done(reply));
    assert_eq!(out, denied(6, "forbidden"));
    let (reply, out) = room.handle_command(
        RoomCommand::SetAdminByName { requester_id: 0, name: "Bob".to_string() },
        53,
    );
    assert!(done(reply));
    assert_eq!(
        out,
        vec![to(
            vec![5, 6],
            ServerMessage::Participants {
                participants: vec![
                    line("Alice", Role::Player, false),
                    line("Bob", Role::Admin, false)
                ]
            }
        )]
    );

    let (reply, _) = room.handle_command(RoomCommand::DetachConnection { player_id: 0 }, 54);
    nothing(reply);
    let (reply, out) = room.handle_command(
        RoomCommand::KickByName { requester_id: 1, name: "Alice".to_string() },
        55,
    );
    assert!(done(reply));
    assert_eq!(
        out,
        vec![to(
            vec![6],
            ServerMessage::Participants { participants: vec![line("Bob", Role::Admin, false)] }
        )]
    );

    let (reply, out) = room.handle_command(RoomCommand::CleanupExpired, 149);
    nothing(reply);
    assert!(out.is_empty());
    let (reply, out) = room.handle_command(RoomCommand::CleanupExpired, 150);
    nothing(reply);
    assert_eq!(out, vec![to(vec![6], ServerMessage::Kicked)]);
    assert!(room.participants().is_empty());
}

#[test]
fn session_is_authorized_by_room_and_identity() {
    let mut room = new_room();
    let alice = room.create_admin("Alice", 0).unwrap();
    let session = authorize_session(&room, Ok(alice.clone())).unwrap();
    assert_eq!((session.player_id, session.name.as_str()), (0, "Alice"));
    assert_eq!(
        authorize_session(&room, Err(AppError::InvalidToken)).err(),
        Some(AppError::InvalidToken)
    );
    let elsewhere = Claims { room_id: "ROOM02".to_string(), ..alice.clone() };
    assert_eq!(authorize_session(&room, Ok(elsewhere)).err(), Some(AppError::RoomMismatch));
    let other = Claims { name: "alice".to_string(), ..alice.clone() };
    assert_eq!(authorize_session(&room, Ok(other)).err(), Some(AppError::UserNotInRoom));
    room.remove_player(0).unwrap();
    assert_eq!(authorize_session(&room, Ok(alice)).err(), Some(AppError::UserNotInRoom));
}

#[test]
fn socket_events_drive_the_room() {
    assert_eq!(INBOUND_QUOTA_PER_SECOND, 20);
    let mut room = new_room();
    room.create_admin("Alice", 0).unwrap();
    room.join("Bob", None, 0).0.unwrap();
    let alice = PlayerSession { player_id: 0, name: "Alice".to_string() };
    let bob = PlayerSession { player_id: 1, name: "Bob".to_string() };
    let ghost = PlayerSession { player_id: 1, name: "Rob".to_string() };
    assert_eq!(open_socket(&mut room, &ghost, 9), (false, vec![]));
    assert!(open_socket(&mut room, &alice, 7).0);
    let (opened, greeting) = open_socket(&mut room, &bob, 8);
    assert!(opened);
    assert_eq!(
        greeting,
        vec![to(
            vec![8],
            ServerMessage::Participants {
                participants: vec![line("Alice", Role::Admin, false), line("Bob", Role::Player, false)]
            }
        )]
    );

    let text = |message: ClientMessage| SocketEvent::Text { within_quota: true, message: Some(message) };
    assert_eq!(
        handle_socket(
            &mut room,
            &bob,
            SocketEvent::Text { within_quota: false, message: Some(ClientMessage::Buzz) }
        ),
        (true, denied(8, "rate_limited"))
    );
    assert_eq!(room.run_tick(0), vec![]);
    assert_eq!(
        handle_socket(&mut room, &bob, SocketEvent::Text { within_quota: true, message: None }),
        (true, vec![])
    );
    assert_eq!(handle_socket(&mut room, &bob, SocketEvent::Other), (true, vec![]));
    assert_eq!(
        handle_socket(&mut room, &bob, text(ClientMessage::StartRound)),
        (true, denied(8, "forbidden"))
    );
    assert_eq!(handle_socket(&mut room, &alice, text(ClientMessage::StartRound)), (true, vec![]));
    assert_eq!(handle_socket(&mut room, &bob, text(ClientMessage::Buzz)), (true, vec![]));
    assert_eq!(
        room.run_tick(5),
        vec![
            to(vec![7, 8], ServerMessage::RoundStarted),
            to(vec![7, 8], ServerMessage::Accepted { name: "Bob".to_string(), deadline_in_ms: 1_005 }),
        ]
    );
    assert_eq!(handle_socket(&mut room, &alice, text(ClientMessage::ContinueRound)), (true, vec![]));
    assert_eq!(room.run_tick(6), vec![to(vec![7, 8], ServerMessage::RoundContinued)]);
    assert_eq!(
        handle_socket(&mut room, &bob, text(ClientMessage::Kick { name: "Alice".to_string() })),
        (true, denied(8, "forbidden"))
    );
    assert_eq!(
        handle_client_message(&mut room, 0, ClientMessage::SetAdmin { name: "Bob".to_string() }),
        vec![to(
            vec![7, 8],
            ServerMessage::Participants {
                participants: vec![line("Alice", Role::Player, false), line("Bob", Role::Admin, true)]
            }
        )]
    );
    assert_eq!(
        handle_socket(&mut room, &alice, SocketEvent::Forwarded { last: false }),
        (true, vec![])
    );
    assert_eq!(room.connected_endpoints(), vec![7, 8]);
    assert_eq!(handle_socket(&mut room, &bob, SocketEvent::SendFailed), (false, vec![]));
    assert_eq!(room.connected_endpoints(), vec![7]);
    assert!(open_socket(&mut room, &bob, 8).0);
    assert_eq!(handle_socket(&mut room, &alice, SocketEvent::Closed), (false, vec![]));
    assert_eq!(room.connected_endpoints(), vec![8]);
    assert!(room.player_matches(0, "Alice"));
    assert_eq!(
        handle_client_message(&mut room, 1, ClientMessage::Kick { name: "Alice".to_string() }),
        vec![to(
            vec![8],
            ServerMessage::Participants { participants: vec![line("Bob", Role::Admin, true)] }
        )]
    );
}

#[test]
fn only_the_notice_of_being_out_ends_a_connection() {
    let ends = |message: ServerMessage| message.ends_connection();
    assert!(ends(ServerMessage::Kicked));
    assert!(!ends(ServerMessage::Rejected));
    assert!(!ends(ServerMessage::RoundStarted));
    assert!(!ends(ServerMessage::RoundContinued));
    assert!(!ends(ServerMessage::Accepted { name: "a".to_string(), deadline_in_ms: 1 }));
    assert!(!ends(ServerMessage::TimedOut { name: "a".to_string() }));
    assert!(!ends(ServerMessage::ActionDenied { reason: "forbidden".to_string() }));
    assert!(!ends(ServerMessage::Participants { participants: vec![] }));
}
