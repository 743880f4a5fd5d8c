use nes_online::logger::{log_level_from_env, LogLevel};
use nes_online::messages::{Disconnect, RoomInfo};
use nes_online::params::{parse_room_id, GameName};
use nes_online::response::{ResultErr, ResultJson, ResultOk};
use nes_online::router::join_room_reply;
use nes_online::websocket::{HeartbeatAction, OnLineWebSocket, WsAction, WsEvent};

#[test]
fn heartbeat_pings_within_the_timeout() {
    let s = OnLineWebSocket::new(3, 1_000);
    assert_eq!(s.id, 0);
    assert_eq!(s.hb(1_000), HeartbeatAction::Ping);
    assert_eq!(s.hb(10_000_001_000), HeartbeatAction::Ping);
    assert_eq!(s.hb(10_000_001_001), HeartbeatAction::Stop);
    assert_eq!(s.hb(0), HeartbeatAction::Ping);
}

#[test]
fn ping_and_pong_refresh_the_heartbeat() {
    let mut s = OnLineWebSocket::new(1, 0);
    assert_eq!(s.handle(WsEvent::Ping, 9_000_000_000), WsAction::Pong);
    assert_eq!(s.hb_ns, 9_000_000_000);
    assert_eq!(s.hb(15_000_000_000), HeartbeatAction::Ping);
    assert_eq!(s.handle(WsEvent::Pong, 16_000_000_000), WsAction::Ignore);
    assert_eq!(s.hb_ns, 16_000_000_000);
}

#[test]
fn other_frames_do_not_refresh_the_heartbeat() {
    let mut s = OnLineWebSocket::new(1, 5);
    assert_eq!(s.handle(WsEvent::Text, 100), WsAction::Ignore);
    assert_eq!(s.handle(WsEvent::Binary, 100), WsAction::Ignore);
    assert_eq!(s.handle(WsEvent::Nop, 100), WsAction::Ignore);
    assert_eq!(s.hb_ns, 5);
    assert_eq!(s.handle(WsEvent::Close, 100), WsAction::Close);
    assert_eq!(s.handle(WsEvent::Continuation, 100), WsAction::Stop);
    assert_eq!(s.handle(WsEvent::ProtocolError, 100), WsAction::Stop);
    assert_eq!(s.hb_ns, 5);
}

#[test]
fn session_takes_the_id_the_server_gives() {
    let mut s = OnLineWebSocket::new(42, 0);
    assert!(s.on_connect_reply(Some(77)));
    assert_eq!(s.id, 77);
    assert_eq!(s.stopping(), Disconnect { id: 77, room_id: 42 });
    let mut t = OnLineWebSocket::new(42, 0);
    assert!(!t.on_connect_reply(None));
    assert_eq!(t.stopping(), Disconnect { id: 0, room_id: 42 });
}

#[test]
fn room_ids_are_read_like_u16_parse() {
    for text in ["0", "1", "65535", "+12", "007", "", "+", "-1", "65536", "12a", "++1", " 1",
        "99999999999999999999", "1+", "٣"] {
        assert_eq!(parse_room_id(text), text.parse::<u16>().ok(), "input {:?}", text);
    }
    assert_eq!(parse_room_id("4321"), Some(4321));
    assert_eq!(parse_room_id("+0"), Some(0));
    assert_eq!(parse_room_id("00065535"), Some(65535));
    assert_eq!(parse_room_id("abc"), None);
}

#[test]
fn room_ids_round_trip_through_decimal() {
    for id in [0u16, 9, 10, 255, 4096, 65535] {
        assert_eq!(parse_room_id(&id.to_string()), Some(id));
    }
}

#[test]
fn log_level_follows_the_setting() {
    assert_eq!(log_level_from_env(Some("info")), LogLevel::Info);
    assert_eq!(log_level_from_env(Some("error")), LogLevel::Error);
    assert_eq!(log_level_from_env(Some("debug")), LogLevel::Debug);
    assert_eq!(log_level_from_env(Some("INFO")), LogLevel::Debug);
    assert_eq!(log_level_from_env(None), LogLevel::Debug);
}

#[test]
fn answers_carry_their_codes() {
    let ok: ResultOk<u16> = ResultJson::ok(12);
    assert_eq!(ok.code, 200);
    assert_eq!(ok.data, 12);
    let err: ResultErr = ResultJson::err(404, "gone");
    assert_eq!(err.code, 404);
    assert_eq!(err.err_msg, "gone");
    let direct = ResultErr::new(500, "x".to_string());
    assert_eq!((direct.code, direct.err_msg.as_str()), (500, "x"));
    assert_eq!(ResultOk::new("d").code, 200);
}

#[test]
fn joining_a_missing_room_is_an_error() {
    match join_room_reply(None) {
        Err(e) => {
            assert_eq!(e.code, 500);
            assert_eq!(e.err_msg, "未找到房间");
        }
        Ok(_) => panic!("expected an error"),
    }
    let info = RoomInfo { player: 2, game: "mario".to_string(), room_id: 8 };
    match join_room_reply(Some(info)) {
        Ok(ok) => {
            assert_eq!(ok.code, 200);
            assert_eq!(ok.data.player, 2);
            assert_eq!(ok.data.game, "mario");
            assert_eq!(ok.data.room_id, 8);
        }
        Err(_) => panic!("expected the room"),
    }
    let name = GameName { game: "g".to_string() };
    assert_eq!(name.game, "g");
}
