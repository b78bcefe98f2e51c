use yaht::dice::FaceRng;
use yaht::handler::{handle_join_room, handle_message, handshake, ServerCore};
use yaht::protocol::{ClientMessage, ErrorCode, ServerMessage};

fn connect(core: &mut ServerCore, name: &str) -> u64 {
    let msg = ClientMessage::Hello { player_name: name.into(), version: "1".into() };
    let (id, reply) = handshake(core, &msg, "1".into());
    assert!(matches!(reply, ServerMessage::Welcome { .. }));
    id.unwrap()
}

#[test]
fn test_handshake_requires_hello() {
    let mut core = ServerCore::new(16);
    let (id, reply) = handshake(&mut core, &ClientMessage::Ping, "1".into());
    assert!(id.is_none());
    assert!(matches!(reply, ServerMessage::HandshakeError { .. }));
    assert_eq!(core.connections.len(), 0);
}

#[test]
fn test_third_join_gets_room_full() {
    // A room created with capacity 2: the third join attempt is answered
    // RoomFull and the player list stays at two.
    let mut core = ServerCore::new(16);
    let mut rng = FaceRng::seed_from(1);
    let host = connect(&mut core, "Ann");
    let second = connect(&mut core, "Ben");
    let third = connect(&mut core, "Cal");

    let out = handle_message(
        &mut core,
        host,
        ClientMessage::CreateRoom { room_name: "r".into(), max_players: 2, password: None },
        &mut rng,
        0,
    );
    assert!(matches!(out[0].msg, ServerMessage::RoomJoined { .. }));
    let room_id = core.lobby.rooms[0].id;

    let out = handle_join_room(&mut core, second, room_id, None);
    assert!(matches!(out[0].msg, ServerMessage::RoomJoined { .. }));
    assert_eq!(core.lobby.rooms[0].player_ids.len(), 2);

    let out = handle_join_room(&mut core, third, room_id, None);
    assert_eq!(out.len(), 1);
    match &out[0].msg {
        ServerMessage::Error { code, .. } => assert!(matches!(code, ErrorCode::RoomFull)),
        _ => panic!("expected an error"),
    }
    assert_eq!(core.lobby.rooms[0].player_ids.len(), 2);
}

#[test]
fn test_wrong_password_rejected() {
    let mut core = ServerCore::new(16);
    let mut rng = FaceRng::seed_from(1);
    let host = connect(&mut core, "Ann");
    let joiner = connect(&mut core, "Ben");
    let out = handle_message(
        &mut core,
        host,
        ClientMessage::CreateRoom {
            room_name: "r".into(),
            max_players: 4,
            password: Some("pw".into()),
        },
        &mut rng,
        0,
    );
    assert!(matches!(out[0].msg, ServerMessage::RoomJoined { .. }));
    let room_id = core.lobby.rooms[0].id;

    let out = handle_join_room(&mut core, joiner, room_id, Some("nope".into()));
    match &out[0].msg {
        ServerMessage::Error { code, .. } => {
            assert!(matches!(code, ErrorCode::WrongPassword))
        }
        _ => panic!("expected an error"),
    }
    let out = handle_join_room(&mut core, joiner, room_id, Some("pw".into()));
    assert!(matches!(out[0].msg, ServerMessage::RoomJoined { .. }));
}

#[test]
fn test_host_leaves_host_transfers() {
    let mut core = ServerCore::new(16);
    let mut rng = FaceRng::seed_from(1);
    let host = connect(&mut core, "Ann");
    let second = connect(&mut core, "Ben");
    let out = handle_message(
        &mut core,
        host,
        ClientMessage::CreateRoom { room_name: "r".into(), max_players: 4, password: None },
        &mut rng,
        0,
    );
    assert!(matches!(out[0].msg, ServerMessage::RoomJoined { .. }));
    let room_id = core.lobby.rooms[0].id;
    handle_join_room(&mut core, second, room_id, None);
    assert_eq!(core.lobby.rooms[0].host_id, host);

    handle_message(&mut core, host, ClientMessage::LeaveRoom, &mut rng, 0);
    assert_eq!(core.lobby.rooms[0].host_id, second);
}

#[test]
fn test_empty_room_is_pruned_on_disconnect() {
    let mut core = ServerCore::new(16);
    let mut rng = FaceRng::seed_from(1);
    let host = connect(&mut core, "Ann");
    handle_message(
        &mut core,
        host,
        ClientMessage::CreateRoom { room_name: "r".into(), max_players: 4, password: None },
        &mut rng,
        0,
    );
    assert_eq!(core.lobby.rooms.len(), 1);
    handle_message(&mut core, host, ClientMessage::Disconnect, &mut rng, 0);
    assert_eq!(core.lobby.rooms.len(), 0);
    assert_eq!(core.connections.len(), 0);
}

#[test]
fn test_room_hostless_then_new_host() {
    // When the last player leaves a room that spectators keep alive, the
    // room is hostless; the next player to join becomes host.
    let mut core = ServerCore::new(16);
    let mut rng = FaceRng::seed_from(1);
    let host = connect(&mut core, "Ann");
    let watcher = connect(&mut core, "Eve");
    let late = connect(&mut core, "Ben");
    handle_message(
        &mut core,
        host,
        ClientMessage::CreateRoom { room_name: "r".into(), max_players: 4, password: None },
        &mut rng,
        0,
    );
    let room_id = core.lobby.rooms[0].id;
    handle_message(&mut core, watcher, ClientMessage::SpectateRoom { room_id }, &mut rng, 0);
    handle_message(&mut core, host, ClientMessage::LeaveRoom, &mut rng, 0);
    assert_eq!(core.lobby.rooms.len(), 1);
    assert_eq!(core.lobby.rooms[0].host_id, yaht::room::NO_HOST);
    handle_join_room(&mut core, late, room_id, None);
    assert_eq!(core.lobby.rooms[0].host_id, late);
}

#[test]
fn test_full_session_game_flow() {
    // Two players connect, gather in a room, start the game, and each
    // completes one turn; the room's game advances to round 2.
    let mut core = ServerCore::new(16);
    let mut rng = FaceRng::seed_from(5);
    let host = connect(&mut core, "Ann");
    let second = connect(&mut core, "Ben");
    handle_message(
        &mut core,
        host,
        ClientMessage::CreateRoom { room_name: "r".into(), max_players: 2, password: None },
        &mut rng,
        0,
    );
    let room_id = core.lobby.rooms[0].id;
    handle_join_room(&mut core, second, room_id, None);

    let out = handle_message(&mut core, host, ClientMessage::StartGame, &mut rng, 0);
    assert!(matches!(out[0].msg, ServerMessage::GameStarted { .. }));

    for pid in [host, second] {
        let out = handle_message(&mut core, pid, ClientMessage::RollDice, &mut rng, 0);
        assert!(matches!(out[0].msg, ServerMessage::DiceRolled { .. }));
        let out = handle_message(
            &mut core,
            pid,
            ClientMessage::ScoreCategory { category: yaht::scoring::Category::Chance },
            &mut rng,
            0,
        );
        assert!(matches!(out[0].msg, ServerMessage::CategoryScored { .. }));
    }
    let game = core.lobby.rooms[0].game.as_ref().unwrap();
    assert_eq!(game.round, 2);
}
