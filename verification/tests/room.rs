use buzzer::auth::Claims;
use buzzer::dtos::{Outbound, ParticipantInfo, Role, ServerMessage};
use buzzer::errors::AppError;
use buzzer::state::room_state::{RoomConfig, RoomState};

const TTL: u64 = 7200;

fn room_with_window(window: u64) -> RoomState {
    RoomState::new("ROOM01".to_string(), RoomConfig { answer_window_in_ms: window }, 10, TTL)
}

fn line(name: &str, role: Role, locked_out: bool) -> ParticipantInfo {
    ParticipantInfo { name: name.to_string(), role, locked_out }
}

fn to(recipients: Vec<u64>, message: ServerMessage) -> Outbound {
    Outbound { recipients, message }
}

fn alice_and_bob(window: u64) -> (RoomState, Claims, Claims) {
    let mut room = room_with_window(window);
    let alice = room.create_admin("Alice", 1_000).unwrap();
    let (joined, _) = room.join("Bob", None, 1_000);
    let (bob, _) = joined.unwrap();
    (room, alice, bob)
}

#[test]
fn create_admin_gets_player_zero() {
    let mut room = room_with_window(500);
    let claims = room.create_admin("Alice", 1_000).unwrap();
    assert_eq!(
        claims,
        Claims {
            room_id: "ROOM01".to_string(),
            player_id: 0,
            name: "Alice".to_string(),
            role: Role::Admin,
            iat: 1_000,
            exp: 8_200,
        }
    );
    assert!(room.is_admin(0));
    assert!(room.player_matches(0, "Alice"));
    assert!(room.admin_present(8_199));
    assert!(!room.admin_present(8_200));
}

#[test]
fn join_gets_next_id_and_player_role() {
    let (room, _, bob) = alice_and_bob(500);
    assert_eq!(bob.player_id, 1);
    assert_eq!(bob.role, Role::Player);
    assert_eq!(bob.name, "Bob");
    assert!(room.name_exists("Bob"));
    assert!(room.player_exists(1));
    assert!(!room.player_exists(2));
    assert!(!room.is_admin(1));
}

#[test]
fn join_with_a_name_in_use_is_refused() {
    let (mut room, _, _) = alice_and_bob(500);
    let (result, out) = room.join("Bob", None, 1_001);
    assert_eq!(result, Err(AppError::NameTaken));
    assert!(out.is_empty());
    let (result, _) = room.join("Alice", None, 1_001);
    assert_eq!(result, Err(AppError::NameTaken));
    assert!(!room.player_exists(2));
}

#[test]
fn the_129th_join_fails_with_full_room() {
    let mut room = room_with_window(500);
    room.create_admin("guest0", 0).unwrap();
    for i in 1..128 {
        let (result, _) = room.join(&format!("guest{}", i), None, 0);
        let (claims, role) = result.unwrap();
        assert_eq!(claims.player_id, i);
        assert_eq!(role, Role::Player);
    }
    let (result, out) = room.join("guest128", None, 0);
    assert_eq!(result, Err(AppError::FullRoom));
    assert!(out.is_empty());
    assert!(!room.name_exists("guest128"));
    let (again, _) = room.join("guest5", None, 0);
    assert_eq!(again, Err(AppError::NameTaken));
}

#[test]
fn roster_is_sorted_by_name() {
    let mut room = room_with_window(500);
    room.create_admin("mallory", 0).unwrap();
    room.join("bob", None, 0).0.unwrap();
    room.join("Zed", None, 0).0.unwrap();
    room.join("alice", None, 0).0.unwrap();
    room.join("bo", None, 0).0.unwrap();
    assert_eq!(
        room.participants(),
        vec![
            line("Zed", Role::Player, false),
            line("alice", Role::Player, false),
            line("bo", Role::Player, false),
            line("bob", Role::Player, false),
            line("mallory", Role::Admin, false),
        ]
    );
}

#[test]
fn join_broadcasts_the_roster_to_connected_players() {
    let mut room = room_with_window(500);
    room.create_admin("Alice", 0).unwrap();
    let (attached, greeting) = room.attach_connection(0, "Alice", 40);
    assert!(attached);
    assert_eq!(
        greeting,
        vec![to(
            vec![40],
            ServerMessage::Participants { participants: vec![line("Alice", Role::Admin, false)] }
        )]
    );
    let (_, out) = room.join("Bob", None, 0);
    assert_eq!(
        out,
        vec![to(
            vec![40],
            ServerMessage::Participants {
                participants: vec![line("Alice", Role::Admin, false), line("Bob", Role::Player, false)]
            }
        )]
    );
}

#[test]
fn attach_needs_the_stored_name() {
    let (mut room, _, _) = alice_and_bob(500);
    assert_eq!(room.attach_connection(1, "bob", 7), (false, vec![]));
    assert_eq!(room.attach_connection(2, "Bob", 7), (false, vec![]));
    let (attached, _) = room.attach_connection(1, "Bob", 7);
    assert!(attached);
}

#[test]
fn detach_then_attach_restores_delivery() {
    let (mut room, _, _) = alice_and_bob(500);
    room.attach_connection(0, "Alice", 40);
    room.attach_connection(1, "Bob", 41);
    let before = room.broadcast_participants();
    assert_eq!(before.recipients, vec![40, 41]);
    room.detach_connection(1);
    assert_eq!(room.broadcast_participants().recipients, vec![40]);
    assert!(room.player_matches(1, "Bob"));
    let (attached, _) = room.attach_connection(1, "Bob", 41);
    assert!(attached);
    assert_eq!(room.broadcast_participants(), before);
    assert!(!room.is_admin(1));
    assert!(room.is_admin(0));
}

#[test]
fn refresh_keeps_identity_and_extends_expiry() {
    let (mut room, alice, bob) = alice_and_bob(500);
    let fresh = room.refresh_token(Ok(bob.clone()), 2_000).unwrap();
    assert_eq!(
        fresh,
        Claims { iat: 2_000, exp: 9_200, ..bob.clone() }
    );
    let again = room.refresh_token(Ok(fresh.clone()), 3_000).unwrap();
    assert_eq!((again.player_id, again.name.as_str(), again.role), (1, "Bob", Role::Player));
    let admin = room.refresh_token(Ok(alice.clone()), 2_000).unwrap();
    assert_eq!((admin.player_id, admin.name.as_str(), admin.role), (0, "Alice", Role::Admin));
    assert!(room.admin_present(9_199));
}

#[test]
fn refresh_failures() {
    let (mut room, _, bob) = alice_and_bob(500);
    assert_eq!(room.refresh_token(Err(AppError::InvalidToken), 0), Err(AppError::InvalidToken));
    assert_eq!(room.refresh_token(Err(AppError::SessionExpired), 0), Err(AppError::SessionExpired));
    let elsewhere = Claims { room_id: "OTHER1".to_string(), ..bob.clone() };
    assert_eq!(room.refresh_token(Ok(elsewhere), 0), Err(AppError::RoomMismatch));
    let renamed = Claims { name: "Bobby".to_string(), ..bob.clone() };
    assert_eq!(room.refresh_token(Ok(renamed), 0), Err(AppError::UserNotInRoom));
    let stranger = Claims { player_id: 9, ..bob };
    assert_eq!(room.refresh_token(Ok(stranger), 0), Err(AppError::UserNotInRoom));
}

#[test]
fn rejoin_with_token_keeps_id_and_role() {
    let (mut room, alice, bob) = alice_and_bob(500);
    room.attach_connection(1, "Bob", 41);
    let (result, _) = room.join("Bob", Some(Ok(bob.clone())), 5_000);
    let (claims, role) = result.unwrap();
    assert_eq!(claims, Claims { iat: 5_000, exp: 12_200, ..bob.clone() });
    assert_eq!(role, Role::Player);
    assert_eq!(room.broadcast_participants().recipients, Vec::<u64>::new());

    let (result, _) = room.join("Robert", Some(Ok(bob.clone())), 5_000);
    let (claims, _) = result.unwrap();
    assert_eq!((claims.player_id, claims.name.as_str()), (1, "Robert"));
    assert!(room.player_matches(1, "Robert"));
    assert!(!room.name_exists("Bob"));

    let (result, _) = room.join("Bob", Some(Ok(bob)), 5_000);
    assert_eq!(result, Err(AppError::UserNotInRoom));

    let (result, _) = room.join("Robert", Some(Ok(alice.clone())), 5_000);
    assert_eq!(result, Err(AppError::NameTaken));
    let (result, _) = room.join("Alice", Some(Ok(alice)), 5_000);
    let (claims, role) = result.unwrap();
    assert_eq!((claims.player_id, role), (0, Role::Admin));
}

#[test]
fn rejoin_failures() {
    let (mut room, _, bob) = alice_and_bob(500);
    assert_eq!(room.join("Bob", Some(Err(AppError::InvalidToken)), 0).0, Err(AppError::InvalidToken));
    assert_eq!(
        room.join("Bob", Some(Err(AppError::SessionExpired)), 0).0,
        Err(AppError::SessionExpired)
    );
    let elsewhere = Claims { room_id: "OTHER1".to_string(), ..bob };
    assert_eq!(room.join("Bob", Some(Ok(elsewhere)), 0).0, Err(AppError::RoomMismatch));
}

#[test]
fn kick_removes_the_player_and_updates_the_roster() {
    let (mut room, _, _) = alice_and_bob(500);
    room.join("Carol", None, 1_000).0.unwrap();
    room.attach_connection(0, "Alice", 40);
    room.attach_connection(1, "Bob", 41);
    room.attach_connection(2, "Carol", 42);
    let (kicked, out) = room.kick_by_name(0, "  Bob ");
    assert!(kicked);
    assert_eq!(
        out,
        vec![
            to(vec![41], ServerMessage::Kicked),
            to(
                vec![40, 42],
                ServerMessage::Participants {
                    participants: vec![
                        line("Alice", Role::Admin, false),
                        line("Carol", Role::Player, false)
                    ]
                }
            ),
        ]
    );
    assert!(!room.player_exists(1));
    assert!(!room.name_exists("Bob"));
    let (result, _) = room.join("Bob", None, 1_000);
    assert_eq!(result.unwrap().0.player_id, 3);
}

#[test]
fn kick_refusals() {
    let (mut room, _, _) = alice_and_bob(500);
    room.attach_connection(0, "Alice", 40);
    room.attach_connection(1, "Bob", 41);
    let denied = |endpoint: u64, reason: &str| {
        (false, vec![to(vec![endpoint], ServerMessage::ActionDenied { reason: reason.to_string() })])
    };
    assert_eq!(room.kick_by_name(1, "Alice"), denied(41, "forbidden"));
    assert_eq!(room.kick_by_name(0, "   "), denied(40, "user_not_found"));
    assert_eq!(room.kick_by_name(0, ""), denied(40, "user_not_found"));
    assert_eq!(room.kick_by_name(0, "Alice"), denied(40, "cannot_kick_self"));
    assert_eq!(room.kick_by_name(0, "Nobody"), denied(40, "user_not_found"));
    assert_eq!(room.kick_by_name(7, "Bob"), (false, vec![]));
    assert!(room.player_exists(1));
}

#[test]
fn admin_is_handed_over_by_name() {
    let (mut room, _, _) = alice_and_bob(500);
    room.attach_connection(0, "Alice", 40);
    room.attach_connection(1, "Bob", 41);
    let (done, out) = room.set_admin_by_name(0, "Bob");
    assert!(done);
    assert_eq!(
        out,
        vec![to(
            vec![40, 41],
            ServerMessage::Participants {
                participants: vec![line("Alice", Role::Player, false), line("Bob", Role::Admin, false)]
            }
        )]
    );
    assert!(room.is_admin(1));
    assert!(!room.is_admin(0));
    let denied = |endpoint: u64, reason: &str| {
        (false, vec![to(vec![endpoint], ServerMessage::ActionDenied { reason: reason.to_string() })])
    };
    assert_eq!(room.set_admin_by_name(0, "Bob"), denied(40, "forbidden"));
    assert_eq!(room.set_admin_by_name(1, "Bob"), denied(41, "cannot_set_yourself_admin"));
    assert_eq!(room.set_admin_by_name(1, "Nobody"), denied(41, "user_not_found"));
    assert_eq!(room.set_admin_by_name(1, " "), denied(41, "user_not_found"));
}

#[test]
fn remove_player_gives_name_and_role() {
    let (mut room, _, _) = alice_and_bob(500);
    assert_eq!(room.remove_player(1), Ok(("Bob".to_string(), Role::Player)));
    assert_eq!(room.remove_player(1), Err(AppError::Kicked));
    assert_eq!(room.remove_player(0), Ok(("Alice".to_string(), Role::Admin)));
    assert!(!room.is_admin(0));
    assert!(!room.admin_present(0));
    assert!(room.participants().is_empty());
}

#[test]
fn sweep_removes_lapsed_sessions() {
    let (mut room, _, bob) = alice_and_bob(500);
    room.attach_connection(0, "Alice", 40);
    room.attach_connection(1, "Bob", 41);
    room.refresh_token(Ok(bob), 2_000).unwrap();
    assert_eq!(room.cleanup_expired(8_199), vec![]);
    assert!(room.admin_present(8_199));
    let out = room.cleanup_expired(8_200);
    assert_eq!(out, vec![to(vec![40], ServerMessage::Kicked)]);
    assert!(!room.player_exists(0));
    assert!(room.player_exists(1));
    assert!(!room.admin_present(8_200));
    assert!(!room.admin_present(0));
    assert_eq!(room.participants(), vec![line("Bob", Role::Player, false)]);
    let out = room.cleanup_expired(9_200);
    assert_eq!(out, vec![to(vec![41], ServerMessage::Kicked)]);
    assert!(room.participants().is_empty());
}

#[test]
fn only_the_admin_starts_or_continues_a_round() {
    let (mut room, _, _) = alice_and_bob(500);
    room.attach_connection(1, "Bob", 41);
    let forbidden =
        vec![to(vec![41], ServerMessage::ActionDenied { reason: "forbidden".to_string() })];
    assert_eq!(room.start_round(1), forbidden);
    assert_eq!(room.continue_round(1), forbidden);
    assert_eq!(room.run_tick(0), vec![]);
    assert_eq!(room.start_round(0), vec![]);
    assert_eq!(room.run_tick(10), vec![to(vec![41], ServerMessage::RoundStarted)]);
    assert_eq!(room.run_tick(20), vec![]);
    assert_eq!(room.continue_round(0), vec![]);
    assert_eq!(room.run_tick(30), vec![to(vec![41], ServerMessage::RoundContinued)]);
}

#[test]
fn kick_target_takes_the_name_as_it_is() {
    let (mut room, _, _) = alice_and_bob(500);
    room.attach_connection(0, "Alice", 40);
    room.attach_connection(1, "Bob", 41);
    let denied = |endpoint: u64, reason: &str| {
        (false, vec![to(vec![endpoint], ServerMessage::ActionDenied { reason: reason.to_string() })])
    };
    assert_eq!(room.kick_target(0, " Bob"), denied(40, "user_not_found"));
    assert_eq!(room.kick_target(0, "Bob "), denied(40, "user_not_found"));
    assert_eq!(room.kick_target(0, ""), denied(40, "user_not_found"));
    assert_eq!(room.kick_target(0, " "), denied(40, "user_not_found"));
    assert_eq!(room.kick_target(0, "Alice"), denied(40, "cannot_kick_self"));
    assert_eq!(room.kick_target(1, "Alice"), denied(41, "forbidden"));
    assert_eq!(
        room.kick_target(0, "Bob"),
        (
            true,
            vec![
                to(vec![41], ServerMessage::Kicked),
                to(
                    vec![40],
                    ServerMessage::Participants {
                        participants: vec![line("Alice", Role::Admin, false)]
                    }
                ),
            ]
        )
    );
    assert!(!room.player_exists(1));
    assert_eq!(room.connected_endpoints(), vec![40]);
}

#[test]
fn set_admin_target_takes_the_name_as_it_is() {
    let (mut room, _, _) = alice_and_bob(500);
    room.attach_connection(0, "Alice", 40);
    let denied = |endpoint: u64, reason: &str| {
        (false, vec![to(vec![endpoint], ServerMessage::ActionDenied { reason: reason.to_string() })])
    };
    assert_eq!(room.set_admin_target(0, " Bob"), denied(40, "user_not_found"));
    assert_eq!(room.set_admin_target(0, "Alice"), denied(40, "cannot_set_yourself_admin"));
    assert_eq!(room.set_admin_target(1, "Alice"), (false, vec![]));
    assert_eq!(
        room.set_admin_target(0, "Bob"),
        (
            true,
            vec![to(
                vec![40],
                ServerMessage::Participants {
                    participants: vec![
                        line("Alice", Role::Player, false),
                        line("Bob", Role::Admin, false)
                    ]
                }
            )]
        )
    );
    assert!(room.is_admin(1));
}

#[test]
fn find_target_names_the_player_or_the_refusal() {
    let (mut room, _, _) = alice_and_bob(500);
    room.attach_connection(0, "Alice", 40);
    let refused = |reason: &str| {
        Err(vec![to(vec![40], ServerMessage::ActionDenied { reason: reason.to_string() })])
    };
    assert_eq!(room.find_target(0, "Bob", "own"), Ok(1));
    assert_eq!(room.find_target(0, "Alice", "own"), refused("own"));
    assert_eq!(room.find_target(0, "", "own"), refused("user_not_found"));
    assert_eq!(room.find_target(0, "Carol", "own"), refused("user_not_found"));
    assert_eq!(room.find_target(0, "bob", "own"), refused("user_not_found"));
    assert_eq!(room.find_target(1, "Alice", "own"), Err(vec![]));
    assert_eq!(room.find_target(9, "Alice", "own"), Err(vec![]));
}

#[test]
fn joined_players_may_buzz_before_the_first_round() {
    let (mut room, _, _) = alice_and_bob(500);
    room.attach_connection(0, "Alice", 40);
    room.attach_connection(1, "Bob", 41);
    assert_eq!(
        room.participants(),
        vec![line("Alice", Role::Admin, false), line("Bob", Role::Player, false)]
    );
    room.send_buzz(2);
    room.send_buzz(0);
    room.send_buzz(1);
    assert_eq!(
        room.run_tick(7),
        vec![
            to(vec![40, 41], ServerMessage::Accepted { name: "Alice".to_string(), deadline_in_ms: 507 }),
            to(vec![41], ServerMessage::Rejected),
        ]
    );
    room.join("Carol", None, 1_000).0.unwrap();
    room.attach_connection(2, "Carol", 42);
    assert_eq!(
        room.run_tick(507),
        vec![to(vec![40, 41, 42], ServerMessage::TimedOut { name: "Alice".to_string() })]
    );
    room.send_buzz(2);
    assert_eq!(
        room.run_tick(508),
        vec![to(
            vec![40, 41, 42],
            ServerMessage::Accepted { name: "Carol".to_string(), deadline_in_ms: 1_008 }
        )]
    );
    assert_eq!(
        room.participants(),
        vec![
            line("Alice", Role::Admin, true),
            line("Bob", Role::Player, false),
            line("Carol", Role::Player, false)
        ]
    );
}
