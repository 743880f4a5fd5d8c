//! The decisions of a player's websocket session: when it is considered
//! gone, how it answers each frame it receives, and what it tells the
//! server when it starts and ends.
//!
//! Times are nanoseconds on a monotonic clock that the caller reads.

use vstd::prelude::*;
use crate::messages::Disconnect;

verus! {

/// How often the session checks on its client, in seconds.
pub const HEARTBEAT_INTERVAL_SECS: u64 = 5;

/// How long a client may stay silent before its session ends, in
/// nanoseconds (ten seconds).
pub const CLIENT_TIMEOUT_NANOS: u128 = 10_000_000_000;

/// What the session does at a heartbeat check.
#[derive(Debug, Clone, Copy, PartialEq, Eq, Structural)]
pub enum HeartbeatAction {
    /// The client was heard from recently: ping it.
    Ping,
    /// The client was silent too long: end the session.
    Stop,
}

/// A frame received on the websocket, or a protocol error.
#[derive(Debug, Clone, Copy, PartialEq, Eq, Structural)]
pub enum WsEvent {
    ProtocolError,
    Ping,
    Pong,
    Text,
    Binary,
    Close,
    Continuation,
    Nop,
}

/// What the session does with a received frame.
#[derive(Debug, Clone, Copy, PartialEq, Eq, Structural)]
pub enum WsAction {
    /// Answer the ping with a pong carrying the same payload.
    Pong,
    /// Nothing.
    Ignore,
    /// Close the websocket with the reason received, and end the session.
    Close,
    /// End the session.
    Stop,
}

/// A player's websocket session: the id the server gave it, when its
/// client was last heard from, and its room.
#[derive(Debug, Clone, Copy, PartialEq, Eq, Structural)]
pub struct OnLineWebSocket {
    pub id: usize,
    pub hb_ns: u128,
    pub room_id: u16,
}

/// Time passed from `earlier` to `now`, or zero if `now` is earlier.
pub open spec fn time_since(now_ns: u128, earlier_ns: u128) -> int {
    if now_ns >= earlier_ns {
        now_ns - earlier_ns
    } else {
        0
    }
}

/// The heartbeat decision: end the session once the client has been silent
/// for longer than the timeout.
pub open spec fn heartbeat_action(s: OnLineWebSocket, now_ns: u128) -> HeartbeatAction {
    if time_since(now_ns, s.hb_ns) > CLIENT_TIMEOUT_NANOS {
        HeartbeatAction::Stop
    } else {
        HeartbeatAction::Ping
    }
}

/// How a received frame changes the session and what it does: pings and
/// pongs show the client is alive; text and binary frames and no-ops are
/// ignored; a close is answered and ends the session; protocol errors and
/// continuation frames end it.
pub open spec fn ws_step(s: OnLineWebSocket, event: WsEvent, now_ns: u128) -> (
    OnLineWebSocket,
    WsAction,
) {
    let heard = OnLineWebSocket { hb_ns: now_ns, ..s };
    match event {
        WsEvent::ProtocolError => (s, WsAction::Stop),
        WsEvent::Ping => (heard, WsAction::Pong),
        WsEvent::Pong => (heard, WsAction::Ignore),
        WsEvent::Text => (s, WsAction::Ignore),
        WsEvent::Binary => (s, WsAction::Ignore),
        WsEvent::Close => (s, WsAction::Close),
        WsEvent::Continuation => (s, WsAction::Stop),
        WsEvent::Nop => (s, WsAction::Ignore),
    }
}

/// The session after the server's answer to its connection.
pub open spec fn after_connect_reply(s: OnLineWebSocket, reply: Option<usize>) -> OnLineWebSocket {
    match reply {
        Some(id) => OnLineWebSocket { id, ..s },
        None => s,
    }
}

/// What the session tells the server when it ends.
pub open spec fn disconnect_of(s: OnLineWebSocket) -> Disconnect {
    Disconnect { id: s.id, room_id: s.room_id }
}

impl OnLineWebSocket {
    /// A session for the given room that has no id yet and whose client
    /// was heard from now.
    pub fn new(room_id: u16, now_ns: u128) -> (s: Self)
        ensures
            s == (OnLineWebSocket { id: 0, hb_ns: now_ns, room_id }),
    {
        OnLineWebSocket { id: 0, hb_ns: now_ns, room_id }
    }

    /// The heartbeat check.
    pub fn hb(&self, now_ns: u128) -> (a: HeartbeatAction)
        ensures
            a == heartbeat_action(*self, now_ns),
    {
        let since = if now_ns >= self.hb_ns {
            now_ns - self.hb_ns
        } else {
            0
        };
        if since > CLIENT_TIMEOUT_NANOS {
            HeartbeatAction::Stop
        } else {
            HeartbeatAction::Ping
        }
    }

    /// The server's answer to the session's connection: with an id the
    /// session takes it and goes on; without one it ends (returns `false`).
    pub fn on_connect_reply(&mut self, reply: Option<usize>) -> (go_on: bool)
        ensures
            go_on == reply is Some,
            *final(self) == after_connect_reply(*old(self), reply),
    {
        match reply {
            Some(id) => {
                self.id = id;
                true
            },
            None => false,
        }
    }

    /// What the session tells the server when it ends.
    pub fn stopping(&self) -> (d: Disconnect)
        ensures
            d == disconnect_of(*self),
    {
        Disconnect { id: self.id, room_id: self.room_id }
    }

    /// Handles a received frame.
    pub fn handle(&mut self, event: WsEvent, now_ns: u128) -> (a: WsAction)
        ensures
            (*final(self), a) == ws_step(*old(self), event, now_ns),
    {
        match event {
            WsEvent::ProtocolError => WsAction::Stop,
            WsEvent::Ping => {
                self.hb_ns = now_ns;
                WsAction::Pong
            },
            WsEvent::Pong => {
                self.hb_ns = now_ns;
                WsAction::Ignore
            },
            WsEvent::Text => WsAction::Ignore,
            WsEvent::Binary => WsAction::Ignore,
            WsEvent::Close => WsAction::Close,
            WsEvent::Continuation => WsAction::Stop,
            WsEvent::Nop => WsAction::Ignore,
        }
    }
}

/// A client that pings or pongs keeps its session: at any check within the
/// timeout after that frame, the session pings rather than ends.
pub proof fn lemma_heard_client_is_kept(
    s: OnLineWebSocket,
    event: WsEvent,
    heard_ns: u128,
    check_ns: u128,
)
    requires
        event == WsEvent::Ping || event == WsEvent::Pong,
        check_ns <= heard_ns + CLIENT_TIMEOUT_NANOS,
    ensures
        heartbeat_action(ws_step(s, event, heard_ns).0, check_ns) == HeartbeatAction::Ping,
{
}

/// A client silent for longer than the timeout loses its session, whatever
/// it sent before that counts as silence (text, binary, no-op frames).
pub proof fn lemma_silent_client_is_dropped(
    s: OnLineWebSocket,
    event: WsEvent,
    at_ns: u128,
    check_ns: u128,
)
    requires
        event == WsEvent::Text || event == WsEvent::Binary || event == WsEvent::Nop,
        check_ns > s.hb_ns + CLIENT_TIMEOUT_NANOS,
    ensures
        ws_step(s, event, at_ns).1 == WsAction::Ignore,
        heartbeat_action(ws_step(s, event, at_ns).0, check_ns) == HeartbeatAction::Stop,
{
}

/// The session tells the server, when it ends, exactly the id the server
/// gave it and its room, whatever frames it handled in between.
pub proof fn lemma_disconnect_names_given_id(
    s: OnLineWebSocket,
    id: usize,
    event: WsEvent,
    now_ns: u128,
)
    ensures
        disconnect_of(ws_step(after_connect_reply(s, Some(id)), event, now_ns).0) == (Disconnect {
            id,
            room_id: s.room_id,
        }),
{
}

} // verus!
