use bytes::Bytes;
use nes_online::frames_sync::FrameMessage;
use nes_online::messages::{Connect, CreateRoom, Disconnect, GetRoomInfo, KeyFrame};
use nes_online::server::{OnLineServer, Room};

#[test]
fn new_room_is_empty() {
    let room = Room::new("mario".to_string());
    assert!(room.act.is_empty());
    assert_eq!(room.game, "mario");
}

#[test]
fn created_room_reports_first_player_and_game() {
    let mut server: OnLineServer<u32> = OnLineServer::new();
    let room_id = server.handle_create_room(CreateRoom("contra".to_string()));
    let info = server.handle_get_room_info(GetRoomInfo(room_id)).expect("room exists");
    assert_eq!(info.player, 1);
    assert_eq!(info.game, "contra");
    assert_eq!(info.room_id, room_id);
}

#[test]
fn unknown_room_has_no_info() {
    let mut server: OnLineServer<u32> = OnLineServer::default();
    server.create_room_with_id(7, "tetris".to_string());
    assert!(server.handle_get_room_info(GetRoomInfo(8)).is_none());
    assert!(server.room(8).is_none());
    assert_eq!(server.room(7).unwrap().game, "tetris");
}

#[test]
fn creating_a_room_with_a_used_id_replaces_it() {
    let mut server: OnLineServer<u32> = OnLineServer::new();
    server.create_room_with_id(3, "a".to_string());
    server.connect_session(10, Connect { addr: 100, room_id: 3 });
    server.create_room_with_id(3, "b".to_string());
    let info = server.handle_get_room_info(GetRoomInfo(3)).unwrap();
    assert_eq!(info.player, 1);
    assert_eq!(info.game, "b");
}

#[test]
fn second_player_makes_the_game_ready() {
    let mut server: OnLineServer<u32> = OnLineServer::new();
    server.create_room_with_id(5, "mario".to_string());
    let first = server.connect_session(11, Connect { addr: 111, room_id: 5 });
    assert_eq!(first.id, 11);
    assert!(first.ready.is_empty());
    assert!(first.workers.is_none());
    assert_eq!(server.handle_get_room_info(GetRoomInfo(5)).unwrap().player, 2);

    let second = server.connect_session(22, Connect { addr: 222, room_id: 5 });
    assert_eq!(second.id, 22);
    assert_eq!(second.ready, vec![111, 222]);
    let mut workers = second.workers.expect("relay started");
    assert_eq!(server.room(5).unwrap().act, vec![11, 22]);
    assert_eq!(server.handle_get_room_info(GetRoomInfo(5)).unwrap().player, 3);

    server
        .handle_key_frame(KeyFrame { room_id: 5, frame: Bytes::from_static(b"\x01") })
        .expect("queued");
    match workers.rx.try_recv() {
        Ok(FrameMessage::KeyBuffer(b)) => assert_eq!(&b[..], b"\x01"),
        other => panic!("expected key input, got {:?}", other),
    }

    let third = server.connect_session(33, Connect { addr: 333, room_id: 5 });
    assert!(third.ready.is_empty());
    assert!(third.workers.is_none());
}

#[test]
fn gone_first_player_is_not_told_ready() {
    let mut server: OnLineServer<u32> = OnLineServer::new();
    server.create_room_with_id(9, "zelda".to_string());
    server.connect_session(1, Connect { addr: 10, room_id: 9 });
    server.handle_disconnect(Disconnect { id: 1, room_id: 9 }).expect("relay not running");
    let second = server.connect_session(2, Connect { addr: 20, room_id: 9 });
    assert_eq!(second.ready, vec![20]);
    assert!(second.workers.is_some());
}

#[test]
fn connecting_to_a_missing_room_only_registers_the_session() {
    let mut server: OnLineServer<u32> = OnLineServer::new();
    let reply = server.connect_session(4, Connect { addr: 40, room_id: 1 });
    assert_eq!(reply.id, 4);
    assert!(reply.ready.is_empty());
    assert!(reply.workers.is_none());
    assert!(server.room(1).is_none());
}

#[test]
fn random_connection_ids_fit_in_u32() {
    let mut server: OnLineServer<u32> = OnLineServer::new();
    let room_id = server.handle_create_room(CreateRoom("pong".to_string()));
    let reply = server.handle_connect(Connect { addr: 1, room_id });
    assert!(reply.id <= u32::MAX as usize);
    assert_eq!(server.room(room_id).unwrap().act, vec![reply.id]);
}

#[test]
fn disconnect_stops_the_relay() {
    let mut server: OnLineServer<u32> = OnLineServer::new();
    server.create_room_with_id(2, "g".to_string());
    server.connect_session(1, Connect { addr: 1, room_id: 2 });
    let mut workers = server.connect_session(2, Connect { addr: 2, room_id: 2 }).workers.unwrap();
    server.handle_disconnect(Disconnect { id: 1, room_id: 2 }).expect("queued");
    assert!(matches!(workers.rx.try_recv(), Ok(FrameMessage::Stop)));
    server
        .handle_key_frame(KeyFrame { room_id: 2, frame: Bytes::from_static(b"x") })
        .expect("stopped relay is sent nothing");
    assert!(workers.rx.try_recv().is_err());
    // the session is gone: a new pair in another room only tells live sessions
    server.create_room_with_id(3, "h".to_string());
    server.connect_session(7, Connect { addr: 70, room_id: 3 });
    server.handle_disconnect(Disconnect { id: 7, room_id: 3 }).unwrap();
    assert_eq!(server.connect_session(8, Connect { addr: 80, room_id: 3 }).ready, vec![80]);
}

#[test]
fn key_frame_for_missing_room_is_dropped() {
    let mut server: OnLineServer<u32> = OnLineServer::new();
    assert!(server
        .handle_key_frame(KeyFrame { room_id: 1, frame: Bytes::new() })
        .is_ok());
    assert!(server.handle_disconnect(Disconnect { id: 5, room_id: 1 }).is_ok());
}

#[test]
fn player_number_counts_members_plus_one() {
    let mut server: OnLineServer<u32> = OnLineServer::new();
    server.create_room_with_id(1, "g".to_string());
    for id in 0..253usize {
        server.connect_session(id, Connect { addr: 0, room_id: 1 });
    }
    assert_eq!(server.handle_get_room_info(GetRoomInfo(1)).unwrap().player, 254);
    server.connect_session(253, Connect { addr: 0, room_id: 1 });
    assert_eq!(server.handle_get_room_info(GetRoomInfo(1)).unwrap().player, 255);
    // a 256th member wraps the byte count around
    server.connect_session(254, Connect { addr: 0, room_id: 1 });
    server.connect_session(255, Connect { addr: 0, room_id: 1 });
    assert_eq!(server.room(1).unwrap().act.len(), 256);
    assert_eq!(server.handle_get_room_info(GetRoomInfo(1)).unwrap().player, 1);
}
