use yaht::codec::{
    decode_frame, deserialize_client_message, encode_frame, frame_refused,
    serialize_client_message, serialize_server_message,
};
use yaht::protocol::{ClientMessage, ServerMessage};
use yaht::scoring::Category;

#[test]
fn test_client_message_serialization() {
    let msg = ClientMessage::Hello { player_name: "Alice".into(), version: "0.1.0".into() };
    let bytes = serialize_client_message(&msg);
    let deserialized: ClientMessage = deserialize_client_message(&bytes).unwrap();
    match deserialized {
        ClientMessage::Hello { player_name, version } => {
            assert_eq!(player_name, "Alice");
            assert_eq!(version, "0.1.0");
        }
        _ => panic!("wrong variant"),
    }
}

#[test]
fn test_all_client_messages_serialize() {
    let room_id = 7u64;
    let messages = vec![
        ClientMessage::Hello { player_name: "Test".into(), version: "0.1.0".into() },
        ClientMessage::CreateRoom {
            room_name: "Room1".into(),
            max_players: 4,
            password: None,
        },
        ClientMessage::JoinRoom { room_id, password: Some("secret".into()) },
        ClientMessage::LeaveRoom,
        ClientMessage::ListRooms,
        ClientMessage::StartGame,
        ClientMessage::SpectateRoom { room_id },
        ClientMessage::RollDice,
        ClientMessage::HoldDice { held: [true, false, true, false, true] },
        ClientMessage::ScoreCategory { category: Category::Yahtzee },
        ClientMessage::Chat { message: "hello".into() },
        ClientMessage::Ping,
        ClientMessage::Disconnect,
    ];

    for msg in &messages {
        let bytes = serialize_client_message(msg);
        let _: ClientMessage = deserialize_client_message(&bytes).unwrap();
    }
}

#[test]
fn test_hold_mask_round_trip() {
    let msg = ClientMessage::HoldDice { held: [false, true, false, false, true] };
    let bytes = serialize_client_message(&msg);
    match deserialize_client_message(&bytes).unwrap() {
        ClientMessage::HoldDice { held } => {
            assert_eq!(held, [false, true, false, false, true]);
        }
        _ => panic!("wrong variant"),
    }
}

#[test]
fn test_corrupt_message_rejected() {
    // An unknown tag is rejected, as is a truncated payload.
    assert!(deserialize_client_message(&vec![200u8]).is_none());
    let msg = ClientMessage::Chat { message: "hi there".into() };
    let mut bytes = serialize_client_message(&msg);
    bytes.pop();
    assert!(deserialize_client_message(&bytes).is_none());
}

#[test]
fn test_server_message_encodes() {
    // Encoding is deterministic and tagged by variant.
    let a = serialize_server_message(&ServerMessage::Welcome {
        player_id: 3,
        server_version: "0.1.0".into(),
    });
    let b = serialize_server_message(&ServerMessage::Welcome {
        player_id: 3,
        server_version: "0.1.0".into(),
    });
    assert_eq!(a, b);
    let c = serialize_server_message(&ServerMessage::Pong);
    assert_eq!(c, vec![17u8]);
}

#[test]
fn test_frame_round_trip() {
    let payload: Vec<u8> = vec![9, 8, 7, 6, 5];
    let framed = encode_frame(&payload).unwrap();
    assert_eq!(framed.len(), payload.len() + 4);
    let (decoded, used) = decode_frame(&framed).unwrap();
    assert_eq!(decoded, payload);
    assert_eq!(used, framed.len());
}

#[test]
fn test_frame_rejects_oversize() {
    let payload: Vec<u8> = vec![0; 65537];
    assert!(encode_frame(&payload).is_none());
}

#[test]
fn test_oversize_length_field_is_refused() {
    // A length prefix over the cap can never complete: the reader must be
    // able to tell it from a frame still arriving.
    let hostile: Vec<u8> = vec![0xff, 0xff, 0xff, 0xff, 1, 2, 3];
    assert!(decode_frame(&hostile).is_none());
    assert!(frame_refused(&hostile));
    let short: Vec<u8> = vec![0, 0];
    assert!(decode_frame(&short).is_none());
    assert!(!frame_refused(&short));
}

#[test]
fn test_frame_waits_for_whole_payload() {
    let payload: Vec<u8> = vec![1, 2, 3, 4];
    let mut framed = encode_frame(&payload).unwrap();
    framed.pop();
    assert!(decode_frame(&framed).is_none());
}
