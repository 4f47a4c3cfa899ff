use buzzer::dtos::{Outbound, ParticipantInfo, Role, ServerMessage};
use buzzer::socket::{handle_socket, PlayerSession, SocketEvent};
use buzzer::state::app_state::AppState;
use buzzer::state::room_state::{RoomConfig, RoomState};

fn to(recipients: Vec<u64>, message: ServerMessage) -> Outbound {
    Outbound { recipients, message }
}

fn line(name: &str, role: Role, locked_out: bool) -> ParticipantInfo {
    ParticipantInfo { name: name.to_string(), role, locked_out }
}

fn alice_and_bob() -> RoomState {
    let mut room =
        RoomState::new("QUIZ42".to_string(), RoomConfig { answer_window_in_ms: 500 }, 10, 7_200);
    let alice = room.create_admin("Alice", 0).unwrap();
    assert_eq!((alice.player_id, alice.role), (0, Role::Admin));
    let (bob, role) = room.join("Bob", None, 0).0.unwrap();
    assert_eq!((bob.player_id, role), (1, Role::Player));
    assert!(room.attach_connection(0, "Alice", 100).0);
    assert!(room.attach_connection(1, "Bob", 101).0);
    room
}

fn play_first_round(room: &mut RoomState) {
    room.send_buzz(1);
    assert_eq!(
        room.run_tick(0),
        vec![to(
            vec![100, 101],
            ServerMessage::Accepted { name: "Bob".to_string(), deadline_in_ms: 500 }
        )]
    );
    room.send_buzz(1);
    assert_eq!(room.run_tick(10), vec![to(vec![101], ServerMessage::Rejected)]);
    assert_eq!(room.run_tick(490), vec![]);
    assert_eq!(
        room.run_tick(500),
        vec![to(vec![100, 101], ServerMessage::TimedOut { name: "Bob".to_string() })]
    );
    assert_eq!(
        room.participants(),
        vec![line("Alice", Role::Admin, false), line("Bob", Role::Player, true)]
    );
}

#[test]
fn buzz_accepted_then_rejected_then_timed_out() {
    let mut room = alice_and_bob();
    play_first_round(&mut room);
    room.send_buzz(1);
    assert_eq!(room.run_tick(510), vec![to(vec![101], ServerMessage::Rejected)]);
}

#[test]
fn start_round_lifts_the_lockout() {
    let mut room = alice_and_bob();
    play_first_round(&mut room);
    assert_eq!(room.start_round(0), vec![]);
    assert_eq!(room.run_tick(520), vec![to(vec![100, 101], ServerMessage::RoundStarted)]);
    assert_eq!(
        room.participants(),
        vec![line("Alice", Role::Admin, false), line("Bob", Role::Player, false)]
    );
    room.send_buzz(1);
    assert_eq!(
        room.run_tick(530),
        vec![to(
            vec![100, 101],
            ServerMessage::Accepted { name: "Bob".to_string(), deadline_in_ms: 1_030 }
        )]
    );
}

#[test]
fn two_buzzes_in_one_tick_follow_arrival_order() {
    let mut room = alice_and_bob();
    room.join("Carol", None, 0).0.unwrap();
    room.join("Dave", None, 0).0.unwrap();
    room.attach_connection(2, "Carol", 102);
    room.attach_connection(3, "Dave", 103);
    room.send_buzz(2);
    room.send_buzz(3);
    assert_eq!(
        room.run_tick(10),
        vec![
            to(
                vec![100, 101, 102, 103],
                ServerMessage::Accepted { name: "Carol".to_string(), deadline_in_ms: 510 }
            ),
            to(vec![103], ServerMessage::Rejected),
        ]
    );
    room.start_round(0);
    room.send_buzz(3);
    room.send_buzz(2);
    assert_eq!(
        room.run_tick(20),
        vec![
            to(vec![100, 101, 102, 103], ServerMessage::RoundStarted),
            to(
                vec![100, 101, 102, 103],
                ServerMessage::Accepted { name: "Dave".to_string(), deadline_in_ms: 520 }
            ),
            to(vec![102], ServerMessage::Rejected),
        ]
    );
}

#[test]
fn late_joiner_waits_for_the_next_round() {
    let mut room = alice_and_bob();
    room.start_round(0);
    room.run_tick(0);
    room.join("Carol", None, 0).0.unwrap();
    room.attach_connection(2, "Carol", 102);
    room.send_buzz(2);
    assert_eq!(room.run_tick(10), vec![to(vec![102], ServerMessage::Rejected)]);
    room.start_round(0);
    room.send_buzz(2);
    assert_eq!(
        room.run_tick(20),
        vec![
            to(vec![100, 101, 102], ServerMessage::RoundStarted),
            to(
                vec![100, 101, 102],
                ServerMessage::Accepted { name: "Carol".to_string(), deadline_in_ms: 520 }
            ),
        ]
    );
}

#[test]
fn event_about_a_player_who_left_is_told_as_unknown() {
    let mut room = alice_and_bob();
    room.start_round(0);
    room.send_buzz(1);
    room.run_tick(0);
    room.kick_by_name(0, "Bob");
    assert_eq!(
        room.run_tick(500),
        vec![to(vec![100], ServerMessage::TimedOut { name: "unknown".to_string() })]
    );
    room.send_buzz(1);
    assert_eq!(room.run_tick(510), vec![]);
}

#[test]
fn admin_kicks_a_connected_player() {
    let mut room = alice_and_bob();
    room.join("Carol", None, 0).0.unwrap();
    room.attach_connection(2, "Carol", 102);
    let (kicked, out) = room.kick_by_name(0, "Bob");
    assert!(kicked);
    assert_eq!(
        out,
        vec![
            to(vec![101], ServerMessage::Kicked),
            to(
                vec![100, 102],
                ServerMessage::Participants {
                    participants: vec![
                        line("Alice", Role::Admin, false),
                        line("Carol", Role::Player, false)
                    ]
                }
            ),
        ]
    );
    assert!(room.participants().iter().all(|entry| entry.name != "Bob"));
    assert_eq!(room.connected_endpoints(), vec![100, 102]);

    let bob = PlayerSession { player_id: 1, name: "Bob".to_string() };
    let last = out[0].message.ends_connection();
    assert!(last);
    assert_eq!(handle_socket(&mut room, &bob, SocketEvent::Forwarded { last }), (false, vec![]));
    let carol = PlayerSession { player_id: 2, name: "Carol".to_string() };
    let last = out[1].message.ends_connection();
    assert!(!last);
    assert_eq!(handle_socket(&mut room, &carol, SocketEvent::Forwarded { last }), (true, vec![]));
    assert_eq!(room.connected_endpoints(), vec![100, 102]);
}

#[test]
fn closing_a_room_closes_every_connection() {
    let mut room = alice_and_bob();
    assert!(room.closing().is_empty());
    room.shutdown();
    assert!(room.is_shut_down());
    assert_eq!(room.closing(), &vec![100, 101]);
    assert_eq!(room.connected_endpoints(), Vec::<u64>::new());
    assert_eq!(room.broadcast_participants().recipients, Vec::<u64>::new());
    assert!(room.player_matches(0, "Alice"));
    assert!(room.player_matches(1, "Bob"));
    assert!(room.is_admin(0));
}

#[test]
fn room_without_a_live_admin_is_torn_down_by_the_sweep() {
    let mut state = AppState::with_token_ttl(7_200);
    state.create_room_with_id("QUIZ42".to_string(), RoomConfig { answer_window_in_ms: 500 }, 10);
    state.create_room_with_id("OTHER7".to_string(), RoomConfig { answer_window_in_ms: 500 }, 10);
    let mut room = state.get_room("QUIZ42").unwrap();
    room.create_admin("Alice", 0).unwrap();
    room.join("Bob", None, 3_000).0.unwrap();
    room.attach_connection(1, "Bob", 101);
    state.put_room(room);
    let mut other = state.get_room("OTHER7").unwrap();
    other.create_admin("Olga", 1_000).unwrap();
    state.put_room(other);

    assert!(state.sweep_rooms(7_199).is_empty());
    assert!(state.has_room("QUIZ42"));

    let evicted = state.sweep_rooms(7_200);
    assert_eq!(evicted.len(), 1);
    assert_eq!(evicted[0].id(), "QUIZ42");
    assert!(evicted[0].is_shut_down());
    assert!(evicted[0].player_exists(1));
    assert_eq!(evicted[0].closing(), &vec![101]);
    assert_eq!(evicted[0].connected_endpoints(), Vec::<u64>::new());
    assert!(!state.has_room("QUIZ42"));
    assert!(state.has_room("OTHER7"));

    let evicted = state.sweep_rooms(8_200);
    assert_eq!(evicted.len(), 1);
    assert_eq!(evicted[0].id(), "OTHER7");
    assert!(!state.has_room("OTHER7"));
    assert!(state.sweep_rooms(9_000).is_empty());
}
