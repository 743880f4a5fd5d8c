//! The answers of the HTTP endpoints, built from what the server replied.

use vstd::prelude::*;
use crate::messages::RoomInfo;
use crate::response::{ResultErr, ResultJson, ResultOk, OK_CODE};

verus! {

/// The code of the answer to a request for a room that does not exist.
pub const ROOM_NOT_FOUND_CODE: u16 = 500;

/// The answer to a player who wants to join a room: the room's info, or an
/// error saying that no such room was found.
pub fn join_room_reply(info: Option<RoomInfo>) -> (r: Result<ResultOk<RoomInfo>, ResultErr>)
    ensures
        match info {
            Some(i) => r matches Ok(ok) && ok.code == OK_CODE && ok.data == i,
            None => r matches Err(e) && e.code == ROOM_NOT_FOUND_CODE && e.err_msg@ == "未找到房间"@,
        },
{
    match info {
        Some(i) => Ok(ResultJson::ok(i)),
        None => Err(ResultJson::err(ROOM_NOT_FOUND_CODE, "未找到房间")),
    }
}

} // verus!
