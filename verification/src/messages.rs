//! The requests the server handles and the answers it gives.

use vstd::prelude::*;
use bytes::Bytes;

verus! {

/// A new websocket session that wants to join a room; `addr` is the
/// handle through which the server reaches the session.
pub struct Connect<A> {
    pub addr: A,
    pub room_id: u16,
}

/// A websocket session that ended.
#[derive(Debug, Clone, Copy, PartialEq, Eq, Structural)]
pub struct Disconnect {
    pub id: usize,
    pub room_id: u16,
}

/// A request for a new room in which the named game is played.
pub struct CreateRoom(pub String);

/// Key input of a player for the room's next frame.
pub struct KeyFrame {
    pub room_id: u16,
    pub frame: Bytes,
}

/// What a room looks like to a player who wants to join: the number the
/// next player gets, the game, and the room.
#[derive(Debug)]
pub struct RoomInfo {
    pub player: u8,
    pub game: String,
    pub room_id: u16,
}

/// A request for the [`RoomInfo`] of a room.
#[derive(Debug, Clone, Copy, PartialEq, Eq, Structural)]
pub struct GetRoomInfo(pub u16);

/// A notice the server sends to the players of a room.
#[derive(Debug, Clone, Copy, PartialEq, Eq, Structural)]
pub enum SendParcel {
    /// Both players are in: the game starts.
    GameReady,
}

} // verus!
