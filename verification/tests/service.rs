use buzzer::auth::{Claims, TOKEN_TTL_IN_SECS};
use buzzer::dtos::{CreateRoomRequest, JoinRoomRequest, Role};
use buzzer::errors::AppError;
use buzzer::service::{
    authorize_upgrade, bearer_token, check_trimmed_name, clamp_answer_window, create_room,
    create_room_with_id, join_room, token_refresh, validate_name,
    DEFAULT_ANSWER_WINDOW_IN_MS, MAX_ANSWER_WINDOW_IN_MS, MIN_ANSWER_WINDOW_IN_MS, TICK_IN_MS,
};
use buzzer::state::app_state::{AppState, APP_CLEANUP_INTERVAL_IN_SECS, ROOM_ID_LENGTH};
use buzzer::state::room_state::lifecycle::ROOM_CLEANUP_INTERVAL_IN_SECS;
use buzzer::state::room_state::RoomConfig;
use buzzer::utils::time::{millis_of, now_millis, now_seconds, seconds_of};

fn request(name: &str, window: Option<u64>) -> CreateRoomRequest {
    CreateRoomRequest { name: name.to_string(), answer_window_in_ms: window }
}

fn named(name: &str) -> JoinRoomRequest {
    JoinRoomRequest { name: name.to_string() }
}

#[test]
fn answer_window_is_clamped() {
    assert_eq!((MIN_ANSWER_WINDOW_IN_MS, MAX_ANSWER_WINDOW_IN_MS), (500, 60_000));
    assert_eq!(clamp_answer_window(None), 5_000);
    assert_eq!(DEFAULT_ANSWER_WINDOW_IN_MS, 5_000);
    assert_eq!(clamp_answer_window(Some(0)), 500);
    assert_eq!(clamp_answer_window(Some(499)), 500);
    assert_eq!(clamp_answer_window(Some(500)), 500);
    assert_eq!(clamp_answer_window(Some(501)), 501);
    assert_eq!(clamp_answer_window(Some(1_000)), 1_000);
    assert_eq!(clamp_answer_window(Some(60_000)), 60_000);
    assert_eq!(clamp_answer_window(Some(60_001)), 60_000);
    assert_eq!(clamp_answer_window(Some(u64::MAX)), 60_000);
}

#[test]
fn bearer_token_follows_its_prefix() {
    assert_eq!(bearer_token("Bearer abc.def.ghi"), Some("abc.def.ghi"));
    assert_eq!(bearer_token("Bearer "), Some(""));
    assert_eq!(bearer_token("Bearer  x"), Some(" x"));
    assert_eq!(bearer_token("bearer abc"), None);
    assert_eq!(bearer_token("Bearer"), None);
    assert_eq!(bearer_token(" Bearer abc"), None);
    assert_eq!(bearer_token("Basic abc"), None);
    assert_eq!(bearer_token(""), None);
}

#[test]
fn blank_names_are_refused() {
    assert_eq!(validate_name(""), Err(AppError::InvalidEmptyName));
    assert_eq!(validate_name("   "), Err(AppError::InvalidEmptyName));
    assert_eq!(validate_name("\t\n "), Err(AppError::InvalidEmptyName));
    assert_eq!(validate_name("\u{3000}"), Err(AppError::InvalidEmptyName));
    assert_eq!(validate_name(" a "), Ok(()));
    assert_eq!(validate_name("Alice"), Ok(()));
}

#[test]
fn create_room_makes_the_creator_admin() {
    assert_eq!(TOKEN_TTL_IN_SECS, 7_200);
    assert_eq!(TICK_IN_MS, 10);
    assert_eq!(APP_CLEANUP_INTERVAL_IN_SECS, 1_800);
    assert_eq!(ROOM_CLEANUP_INTERVAL_IN_SECS, 1_800);
    let mut state = AppState::new();
    assert_eq!(state.token_ttl_in_secs(), 7_200);
    let claims = create_room_with_id(&mut state, "abc123".to_string(), &request("Alice", Some(500)), 50)
        .unwrap();
    assert_eq!(
        claims,
        Claims {
            room_id: "abc123".to_string(),
            player_id: 0,
            name: "Alice".to_string(),
            role: Role::Admin,
            iat: 50,
            exp: 7_250,
        }
    );
    let room = state.get_room("abc123").unwrap();
    assert_eq!(room.answer_window_in_ms(), 500);
    assert_eq!(room.tick_in_ms(), 10);
    assert_eq!(room.id(), "abc123");
    assert!(room.is_admin(0));
    assert!(!room.is_shut_down());
    state.put_room(room);

    create_room_with_id(&mut state, "def456".to_string(), &request("Zoe", None), 50).unwrap();
    let room = state.get_room("def456").unwrap();
    assert_eq!(room.answer_window_in_ms(), 5_000);
    state.put_room(room);

    assert_eq!(
        create_room_with_id(&mut state, "ghi789".to_string(), &request("  ", None), 50),
        Err(AppError::InvalidEmptyName)
    );
    assert!(!state.has_room("ghi789"));
}

#[test]
fn create_room_draws_an_id_of_six_letters_and_digits() {
    assert_eq!(ROOM_ID_LENGTH, 6);
    let mut state = AppState::with_token_ttl(100);
    let mut seen = std::collections::HashSet::new();
    for _ in 0..20 {
        let claims = create_room(&mut state, &request("Alice", Some(2_000)), 7).unwrap();
        assert_eq!(claims.room_id.chars().count(), 6);
        assert!(claims.room_id.chars().all(|c| c.is_ascii_alphanumeric()));
        assert_eq!((claims.player_id, claims.role, claims.iat, claims.exp), (0, Role::Admin, 7, 107));
        assert!(state.has_room(&claims.room_id));
        let room = state.get_room(&claims.room_id).unwrap();
        assert_eq!(room.id(), claims.room_id);
        assert_eq!(room.answer_window_in_ms(), 2_000);
        assert!(room.player_matches(0, "Alice"));
        state.put_room(room);
        seen.insert(claims.room_id);
    }
    assert!(seen.len() > 1);
    assert_eq!(create_room(&mut state, &request(" \t", None), 7), Err(AppError::InvalidEmptyName));

    let id = state.create_room(RoomConfig { answer_window_in_ms: 9 }, 3);
    assert_eq!(id.len(), 6);
    assert!(id.chars().all(|c| c.is_ascii_alphanumeric()));
    let room = state.get_room(&id).unwrap();
    assert_eq!((room.id(), room.answer_window_in_ms(), room.tick_in_ms()), (id.as_str(), 9, 3));
    assert!(!room.player_exists(0));
    let other = state.create_random_room_id();
    assert_eq!(other.len(), 6);
}

#[test]
fn create_room_under_an_id_in_use_replaces_the_room() {
    let mut state = AppState::with_token_ttl(100);
    create_room_with_id(&mut state, "abc123".to_string(), &request("Alice", None), 0).unwrap();
    join_room(&mut state, "abc123", None, Some(&named("Bob")), 0).0.unwrap();
    create_room_with_id(&mut state, "abc123".to_string(), &request("Carol", None), 0).unwrap();
    let room = state.get_room("abc123").unwrap();
    assert!(room.player_matches(0, "Carol"));
    assert!(!room.player_exists(1));
}

#[test]
fn join_room_checks_the_request_at_the_door() {
    let mut state = AppState::with_token_ttl(100);
    let alice = create_room_with_id(&mut state, "abc123".to_string(), &request("Alice", None), 0).unwrap();

    assert_eq!(
        join_room(&mut state, "nowhere", None, Some(&named("Bob")), 1),
        (Err(AppError::RoomNotFound), vec![])
    );
    assert_eq!(join_room(&mut state, "abc123", None, None, 1), (Err(AppError::AuthRequired), vec![]));
    assert_eq!(
        join_room(&mut state, "abc123", None, Some(&named(" ")), 1),
        (Err(AppError::InvalidEmptyName), vec![])
    );
    assert_eq!(
        join_room(&mut state, "abc123", None, Some(&named("Alice")), 1),
        (Err(AppError::NameTaken), vec![])
    );
    assert_eq!(
        join_room(&mut state, "abc123", Some(Err(AppError::InvalidToken)), None, 1),
        (Err(AppError::InvalidToken), vec![])
    );
    assert_eq!(
        join_room(&mut state, "abc123", Some(Err(AppError::SessionExpired)), Some(&named("Bob")), 1),
        (Err(AppError::SessionExpired), vec![])
    );

    let (bob, out) = join_room(&mut state, "abc123", None, Some(&named("Bob")), 1);
    let bob = bob.unwrap();
    assert_eq!((bob.player_id, bob.role, bob.exp), (1, Role::Player, 101));
    assert_eq!(out.len(), 1);
    assert!(out[0].recipients.is_empty());

    let (back, _) = join_room(&mut state, "abc123", Some(Ok(bob.clone())), None, 2);
    assert_eq!(back, Ok(Claims { iat: 2, exp: 102, ..bob.clone() }));
    let (back, _) = join_room(&mut state, "abc123", Some(Ok(alice.clone())), Some(&named("Alicia")), 2);
    let back = back.unwrap();
    assert_eq!((back.player_id, back.name.as_str(), back.role), (0, "Alicia", Role::Admin));
    let (stale, _) = join_room(&mut state, "abc123", Some(Ok(alice)), None, 3);
    assert_eq!(stale, Err(AppError::UserNotInRoom));

    create_room_with_id(&mut state, "def456".to_string(), &request("Zoe", None), 0).unwrap();
    let (wrong, _) = join_room(&mut state, "def456", Some(Ok(bob)), None, 3);
    assert_eq!(wrong, Err(AppError::RoomMismatch));
    assert!(state.has_room("abc123"));
    assert!(state.has_room("def456"));
}

#[test]
fn token_refresh_checks_room_and_token() {
    let mut state = AppState::with_token_ttl(100);
    let alice = create_room_with_id(&mut state, "abc123".to_string(), &request("Alice", None), 0).unwrap();
    assert_eq!(
        token_refresh(&mut state, "nowhere", Some(Ok(alice.clone())), 1),
        Err(AppError::RoomNotFound)
    );
    assert_eq!(token_refresh(&mut state, "abc123", None, 1), Err(AppError::AuthRequired));
    assert_eq!(
        token_refresh(&mut state, "abc123", Some(Err(AppError::InvalidToken)), 1),
        Err(AppError::InvalidToken)
    );
    let fresh = token_refresh(&mut state, "abc123", Some(Ok(alice.clone())), 60).unwrap();
    assert_eq!(fresh, Claims { iat: 60, exp: 160, ..alice });
    let mut room = state.get_room("abc123").unwrap();
    assert!(room.admin_present(159));
    assert!(!room.admin_present(160));
    assert_eq!(room.cleanup_expired(159), vec![]);
    assert!(room.player_exists(0));
}

#[test]
fn upgrade_is_authorized_by_token() {
    let mut state = AppState::with_token_ttl(100);
    let alice = create_room_with_id(&mut state, "abc123".to_string(), &request("Alice", None), 0).unwrap();
    let session = authorize_upgrade(&mut state, "abc123", Ok(alice.clone())).unwrap();
    assert_eq!((session.player_id, session.name.as_str()), (0, "Alice"));
    assert_eq!(
        authorize_upgrade(&mut state, "nowhere", Ok(alice.clone())).err(),
        Some(AppError::RoomNotFound)
    );
    assert_eq!(
        authorize_upgrade(&mut state, "abc123", Err(AppError::SessionExpired)).err(),
        Some(AppError::SessionExpired)
    );
    let other = Claims { player_id: 4, ..alice };
    assert_eq!(
        authorize_upgrade(&mut state, "abc123", Ok(other)).err(),
        Some(AppError::UserNotInRoom)
    );
    assert!(state.has_room("abc123"));
}

#[test]
fn registry_takes_rooms_out_and_puts_them_back() {
    let mut state = AppState::with_token_ttl(100);
    assert!(!state.has_room("abc123"));
    assert_eq!(state.get_room("abc123").err(), Some(AppError::RoomNotFound));
    state.create_room_with_id("abc123".to_string(), RoomConfig { answer_window_in_ms: 42 }, 7);
    assert!(state.has_room("abc123"));
    let room = state.get_room("abc123").unwrap();
    assert_eq!((room.answer_window_in_ms(), room.tick_in_ms()), (42, 7));
    assert!(!state.has_room("abc123"));
    state.put_room(room);
    assert!(state.has_room("abc123"));
}

#[test]
fn errors_map_to_status_and_reason() {
    let table = [
        (AppError::RoomNotFound, 404, "room_not_found"),
        (AppError::InvalidEmptyName, 400, "invalid_empty_name"),
        (AppError::NameTaken, 409, "name_taken"),
        (AppError::FullRoom, 409, "full_room"),
        (AppError::AuthRequired, 401, "auth_required"),
        (AppError::InvalidToken, 401, "invalid_token"),
        (AppError::RoomMismatch, 403, "room_mismatch"),
        (AppError::UserNotInRoom, 403, "user_not_in_room"),
        (AppError::SessionExpired, 403, "session_expired"),
        (AppError::Kicked, 403, "kicked"),
        (AppError::Internal, 500, ""),
    ];
    for (error, status, reason) in table {
        assert_eq!(error.status_code(), status);
        assert_eq!(error.reason(), reason);
    }
}

#[test]
fn token_expiry_stops_at_the_end_of_time() {
    let claims = Claims::issue("r", 3, "n", Role::Player, u64::MAX - 5, 10);
    assert_eq!((claims.iat, claims.exp), (u64::MAX - 5, u64::MAX));
    let claims = Claims::issue("r", 3, "n", Role::Player, 5, 10);
    assert_eq!((claims.iat, claims.exp), (5, 15));
}

#[test]
fn wall_clock_is_past_2020() {
    let seconds = now_seconds();
    let millis = now_millis();
    assert!(seconds > 1_577_836_800);
    assert!(millis / 1_000 >= seconds);
    assert!(millis / 1_000 - seconds <= 1);
}

#[test]
fn clock_reading_before_1970_counts_as_zero() {
    assert_eq!(seconds_of(None), 0);
    assert_eq!(seconds_of(Some(0)), 0);
    assert_eq!(seconds_of(Some(1_700_000_000)), 1_700_000_000);
    assert_eq!(seconds_of(Some(u64::MAX)), u64::MAX);
    assert_eq!(millis_of(None), 0);
    assert_eq!(millis_of(Some(0)), 0);
}

#[test]
fn milliseconds_are_cut_to_64_bits() {
    assert_eq!(millis_of(Some(1_700_000_000_123)), 1_700_000_000_123);
    assert_eq!(millis_of(Some(u64::MAX as u128)), u64::MAX);
    assert_eq!(millis_of(Some(1u128 << 64)), 0);
    assert_eq!(millis_of(Some((1u128 << 64) + 5)), 5);
    assert_eq!(millis_of(Some(u64::MAX as u128 * 1_000)), u64::MAX - 999);
    assert_eq!(millis_of(Some(u128::MAX)), u64::MAX);
}

#[test]
fn a_name_with_nothing_left_is_refused() {
    assert_eq!(check_trimmed_name(""), Err(AppError::InvalidEmptyName));
    assert_eq!(check_trimmed_name("Alice"), Ok(()));
    assert_eq!(check_trimmed_name(" "), Ok(()));
}

#[test]
fn room_made_with_a_window_of_500_times_the_first_buzz_out_at_500() {
    let mut state = AppState::with_token_ttl(7_200);
    let alice = create_room(&mut state, &request("Alice", Some(500)), 0).unwrap();
    assert_eq!((alice.player_id, alice.role, alice.name.as_str()), (0, Role::Admin, "Alice"));
    let (bob, _) = join_room(&mut state, &alice.room_id, None, Some(&named("Bob")), 0);
    assert_eq!(bob.unwrap().player_id, 1);
    let mut room = state.get_room(&alice.room_id).unwrap();
    assert_eq!(room.answer_window_in_ms(), 500);
    assert!(room.attach_connection(0, "Alice", 10).0);
    assert!(room.attach_connection(1, "Bob", 11).0);
    room.send_buzz(1);
    let out = room.run_tick(0);
    assert_eq!(out.len(), 1);
    assert_eq!(out[0].recipients, vec![10, 11]);
    assert_eq!(
        out[0].message,
        buzzer::dtos::ServerMessage::Accepted { name: "Bob".to_string(), deadline_in_ms: 500 }
    );
    room.send_buzz(1);
    let out = room.run_tick(10);
    assert_eq!(out.len(), 1);
    assert_eq!((out[0].recipients.clone(), &out[0].message), (vec![11], &buzzer::dtos::ServerMessage::Rejected));
    let out = room.run_tick(500);
    assert_eq!(out.len(), 1);
    assert_eq!(
        out[0].message,
        buzzer::dtos::ServerMessage::TimedOut { name: "Bob".to_string() }
    );
    assert_eq!(room.participants()[1].locked_out, true);
    assert_eq!(room.participants()[0].locked_out, false);
}
