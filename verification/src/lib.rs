//! Room, session and frame-synchronisation logic of an online NES play
//! server: rooms are created and joined, players connect over websockets,
//! and once two players are in a room the server relays their key input to
//! both of them sixty times a second.

pub mod response;
pub mod bytes_buf;
pub mod channel;
pub mod rng;
pub mod frames_sync;
pub mod messages;
pub mod server;
pub mod websocket;
pub mod params;
pub mod logger;
pub mod router;
