//! The server's state: the open websocket sessions and the rooms, and how
//! each request changes them.
//!
//! Session and room ids are drawn at random. Each handler that draws one
//! is split in two: `handle_*` draws the id and calls a function that takes
//! the id as an argument and whose contract states the whole outcome.

use vstd::prelude::*;
use std::collections::HashMap;
use rand::rngs::ThreadRng;
use crate::channel::{frame_halves, SendFailure};
use crate::frames_sync::{
    accepted_after, frames_after_send, frames_idle, frames_started, FrameMessage, FrameWorkers, Frames,
    FramesView,
};
use crate::messages::{Connect, CreateRoom, Disconnect, GetRoomInfo, KeyFrame, RoomInfo};
use crate::rng::{new_thread_rng, random_u16, random_u32};

verus! {

broadcast use vstd::std_specs::hash::group_hash_axioms;

/// A room: the sessions that joined it, in order, its frame relay, and the
/// game played in it.
#[derive(Debug)]
pub struct Room {
    pub act: Vec<usize>,
    pub frames_sync: Frames,
    pub game: String,
}

/// A room as sequences and the relay's state.
pub struct RoomView {
    pub act: Seq<usize>,
    pub frames: FramesView,
    pub game: Seq<char>,
}

impl View for Room {
    type V = RoomView;

    open spec fn view(&self) -> RoomView {
        RoomView { act: self.act@, frames: self.frames_sync@, game: self.game@ }
    }
}

/// A new room for a game: nobody in it, its relay not started.
pub open spec fn new_room(game: Seq<char>) -> RoomView {
    RoomView { act: Seq::empty(), frames: frames_idle(), game }
}

impl Room {
    /// A new, empty room for the given game.
    pub fn new(game: String) -> (r: Self)
        ensures
            r@ == new_room(game@),
    {
        Room { act: Vec::new(), frames_sync: Frames::new(), game }
    }
}

/// The server: its random source, the open sessions by id, and the rooms
/// by id. `A` is the handle through which a session is reached.
pub struct OnLineServer<A> {
    rng: ThreadRng,
    sessions: HashMap<usize, A>,
    rooms: HashMap<u16, Room>,
}

/// The server as maps: session id to handle, room id to room.
pub struct ServerView<A> {
    pub sessions: Map<usize, A>,
    pub rooms: Map<u16, RoomView>,
}

impl<A> View for OnLineServer<A> {
    type V = ServerView<A>;

    closed spec fn view(&self) -> ServerView<A> {
        ServerView {
            sessions: self.sessions@,
            rooms: self.rooms@.map_values(|r: Room| r@),
        }
    }
}

impl<A> OnLineServer<A> {
    /// The room stored under an id (meaningful where the id is in use).
    pub closed spec fn stored_room(&self, room_id: u16) -> Room {
        self.rooms@[room_id]
    }
}

/// The frame relay of the room stored under an id.
pub open spec fn room_frames<A>(s: OnLineServer<A>, room_id: u16) -> Frames {
    s.stored_room(room_id).frames_sync
}

/// Rooms other than `room_id` are stored exactly as they were.
pub open spec fn other_rooms_kept<A>(pre: OnLineServer<A>, post: OnLineServer<A>, room_id: u16) -> bool {
    forall|k: u16| k != room_id ==> #[trigger] post.stored_room(k) == pre.stored_room(k)
}

/// The channel of the room `room_id` is kept: the same sender and the same
/// receiver, if the room exists.
pub open spec fn room_channel_kept<A>(pre: OnLineServer<A>, post: OnLineServer<A>, room_id: u16) -> bool {
    pre@.rooms.contains_key(room_id) ==> {
        &&& room_frames(post, room_id).sender() == room_frames(pre, room_id).sender()
        &&& room_frames(post, room_id).receiver() == room_frames(pre, room_id).receiver()
    }
}

/// What the server answers to a new session: its id, the handles of the
/// room's players to tell that the game is ready (none unless this
/// session is the room's second), and, where the room's relay was started,
/// the channel ends on which it runs.
pub struct ConnectReply<A> {
    pub id: usize,
    pub ready: Vec<A>,
    pub workers: Option<FrameWorkers>,
}

// ---------------------------------------------------------------------------
// The requests as changes of the state
// ---------------------------------------------------------------------------

/// A session joins a room: it is added to the room's members, and the
/// relay starts when the room has two members.
pub open spec fn room_after_join(r: RoomView, id: usize) -> RoomView {
    let act = r.act.push(id);
    RoomView {
        act,
        frames: if act.len() == 2 { frames_started(r.frames) } else { r.frames },
        game: r.game,
    }
}

/// The members of `act` that still have a session, in order.
pub open spec fn live_members(act: Seq<usize>, live: Set<usize>) -> Seq<usize>
    decreases act.len(),
{
    if act.len() == 0 {
        Seq::empty()
    } else {
        let rest = live_members(act.drop_last(), live);
        if live.contains(act.last()) {
            rest.push(act.last())
        } else {
            rest
        }
    }
}

/// A session with the given id and handle connects, asking for a room:
/// the session is registered (replacing one with the same id), and it
/// joins the room if the room exists.
pub open spec fn after_connect<A>(s: ServerView<A>, id: usize, addr: A, room_id: u16) -> ServerView<
    A,
> {
    ServerView {
        sessions: s.sessions.insert(id, addr),
        rooms: if s.rooms.contains_key(room_id) {
            s.rooms.insert(room_id, room_after_join(s.rooms[room_id], id))
        } else {
            s.rooms
        },
    }
}

/// Whether a connection makes the room ready: the room exists and the new
/// session is its second member.
pub open spec fn makes_ready<A>(s: ServerView<A>, room_id: u16) -> bool {
    s.rooms.contains_key(room_id) && s.rooms[room_id].act.len() + 1 == 2
}

/// The members told that the game is ready when a session connects: the
/// members that have a session, if the room became ready, else nobody.
pub open spec fn ready_members<A>(s: ServerView<A>, id: usize, room_id: u16) -> Seq<usize> {
    if makes_ready(s, room_id) {
        live_members(s.rooms[room_id].act.push(id), s.sessions.dom().insert(id))
    } else {
        Seq::empty()
    }
}

/// The reply to a connection agrees with the state before (`pre`) and after
/// (`post`): each handle in `ready` is a clone of the handle of a member
/// told that the game is ready, in the members' order, and the relay's
/// channel ends come back exactly when the connection started the relay.
pub open spec fn connect_reply_matches<A: Clone>(
    pre: ServerView<A>,
    post: ServerView<A>,
    room_id: u16,
    reply: ConnectReply<A>,
) -> bool {
    let ids = ready_members(pre, reply.id, room_id);
    &&& reply.ready@.len() == ids.len()
    &&& forall|k: int|
        0 <= k < ids.len() ==> cloned::<A>(post.sessions[ids[k]], #[trigger] reply.ready@[k])
    &&& (reply.workers is Some <==> makes_ready(pre, room_id)
        && !pre.rooms[room_id].frames.running)
}

/// The channels after a connection: other rooms are kept; the room's
/// sender is kept unless the relay is restarted on a new channel; and the
/// channel ends handed out for a started relay are the room's sender after
/// the call and the receiver the room held before, where it held one.
pub open spec fn connect_channels_match<A>(
    pre: OnLineServer<A>,
    post: OnLineServer<A>,
    room_id: u16,
    reply: ConnectReply<A>,
) -> bool {
    &&& other_rooms_kept(pre, post, room_id)
    &&& pre@.rooms.contains_key(room_id) && (room_frames(pre, room_id)@.running || room_frames(
        pre,
        room_id,
    ).receiver() is Some) ==> room_frames(post, room_id).sender() == room_frames(
        pre,
        room_id,
    ).sender()
    &&& pre@.rooms.contains_key(room_id) && (room_frames(pre, room_id)@.running || room_frames(
        pre,
        room_id,
    ).receiver() is Some) ==> room_frames(post, room_id).accepted() == room_frames(
        pre,
        room_id,
    ).accepted()
    &&& reply.workers matches Some(w) ==> {
        &&& w.tx == room_frames(post, room_id).sender()
        &&& frame_halves(w.tx, w.rx)
        &&& room_frames(pre, room_id).receiver() is Some ==> w.rx == room_frames(
            pre,
            room_id,
        ).receiver()->0
    }
}

/// A session ends: it is forgotten, and the relay of its room is told to
/// stop.
pub open spec fn after_disconnect<A>(s: ServerView<A>, id: usize, room_id: u16) -> ServerView<A> {
    ServerView {
        sessions: s.sessions.remove(id),
        rooms: if s.rooms.contains_key(room_id) {
            let r = s.rooms[room_id];
            s.rooms.insert(
                room_id,
                RoomView { act: r.act, frames: frames_after_send(r.frames, true), game: r.game },
            )
        } else {
            s.rooms
        },
    }
}

/// A room with the given id is created for a game, replacing any room with
/// that id.
pub open spec fn after_create<A>(s: ServerView<A>, room_id: u16, game: Seq<char>) -> ServerView<A> {
    ServerView { sessions: s.sessions, rooms: s.rooms.insert(room_id, new_room(game)) }
}

/// Room info as plain values.
pub struct RoomInfoView {
    pub player: u8,
    pub game: Seq<char>,
    pub room_id: u16,
}

impl View for RoomInfo {
    type V = RoomInfoView;

    open spec fn view(&self) -> RoomInfoView {
        RoomInfoView { player: self.player, game: self.game@, room_id: self.room_id }
    }
}

/// The number of the next player of a room: one more than its members,
/// counted in a byte.
pub open spec fn next_player(r: RoomView) -> u8 {
    ((r.act.len() % 256) + 1) as u8
}

/// Whether that number fits in a byte: the count in a byte is not 255.
pub open spec fn player_number_fits(r: RoomView) -> bool {
    r.act.len() % 256 != 255
}

/// The info of a room, if it exists.
pub open spec fn room_info_of<A>(s: ServerView<A>, room_id: u16) -> Option<RoomInfoView> {
    if s.rooms.contains_key(room_id) {
        Some(
            RoomInfoView {
                player: next_player(s.rooms[room_id]),
                game: s.rooms[room_id].game,
                room_id,
            },
        )
    } else {
        None
    }
}

// ---------------------------------------------------------------------------
// The handlers
// ---------------------------------------------------------------------------

impl<A> OnLineServer<A> {
    /// A server with no sessions and no rooms.
    pub fn new() -> (s: Self)
        ensures
            s@.sessions == Map::<usize, A>::empty(),
            s@.rooms == Map::<u16, RoomView>::empty(),
    {
        let s = OnLineServer { rng: new_thread_rng(), sessions: HashMap::new(), rooms: HashMap::new() };
        assert(s@.rooms =~= Map::<u16, RoomView>::empty());
        s
    }

    /// The room with the given id, if there is one.
    pub fn room(&self, room_id: u16) -> (r: Option<&Room>)
        ensures
            r is Some <==> self@.rooms.contains_key(room_id),
            r matches Some(room) ==> room@ == self@.rooms[room_id],
    {
        self.rooms.get(&room_id)
    }

    /// Registers a session under the given id and lets it join the room it
    /// asks for. When it is the room's second member, the room's members
    /// that have a session are told that the game is ready, and the room's
    /// relay is started.
    pub fn connect_session(&mut self, id: usize, msg: Connect<A>) -> (reply: ConnectReply<A>) where
        A: Clone,

        ensures
            final(self)@ == after_connect(old(self)@, id, msg.addr, msg.room_id),
            reply.id == id,
            connect_reply_matches(old(self)@, final(self)@, msg.room_id, reply),
            connect_channels_match(*old(self), *final(self), msg.room_id, reply),
    {
        let ghost pre = self@;
        let room_id = msg.room_id;
        self.sessions.insert(id, msg.addr);
        let ghost sessions = self.sessions@;
        match self.rooms.remove(&room_id) {
            Some(mut room) => {
                let ghost room_pre = room@;
                assert(room_pre == pre.rooms[room_id]);
                room.act.push(id);
                let mut ready: Vec<A> = Vec::new();
                let mut workers: Option<FrameWorkers> = None;
                if room.act.len() == 2 {
                    let mut i: usize = 0;
                    while i < room.act.len()
                        invariant
                            i <= room.act@.len(),
                            room.act@ == room_pre.act.push(id),
                            self.sessions@ == sessions,
                            ready@.len() == live_members(room.act@.take(i as int), sessions.dom()).len(),
                            forall|k: int|
                                0 <= k < ready@.len() ==> cloned::<A>(
                                    sessions[live_members(room.act@.take(i as int), sessions.dom())[k]],
                                    #[trigger] ready@[k],
                                ),
                        decreases room.act@.len() - i,
                    {
                        let member = room.act[i];
                        let ghost before = live_members(room.act@.take(i as int), sessions.dom());
                        assert(room.act@.take(i + 1).drop_last() =~= room.act@.take(i as int));
                        assert(room.act@.take(i + 1).last() == member);
                        match self.sessions.get(&member) {
                            Some(a) => {
                                let c = a.clone();
                                ready.push(c);
                            },
                            None => {},
                        }
                        i = i + 1;
                    }
                    assert(room.act@.take(room.act@.len() as int) =~= room.act@);
                    workers = room.frames_sync.start();
                }
                self.rooms.insert(room_id, room);
                assert(self@.rooms =~= pre.rooms.insert(room_id, room_after_join(pre.rooms[room_id], id)));
                ConnectReply { id, ready, workers }
            },
            None => {
                assert(self@.rooms =~= pre.rooms);
                ConnectReply { id, ready: Vec::new(), workers: None }
            },
        }
    }

    /// Handles a new session: draws its id from a random `u32`, then does
    /// what [`OnLineServer::connect_session`] does with that id.
    pub fn handle_connect(&mut self, msg: Connect<A>) -> (reply: ConnectReply<A>) where A: Clone
        ensures
            reply.id <= u32::MAX,
            final(self)@ == after_connect(old(self)@, reply.id, msg.addr, msg.room_id),
            connect_reply_matches(old(self)@, final(self)@, msg.room_id, reply),
            connect_channels_match(*old(self), *final(self), msg.room_id, reply),
    {
        let id = random_u32(&mut self.rng) as usize;
        self.connect_session(id, msg)
    }

    /// Handles the end of a session: forgets it, and tells the relay of its
    /// room to stop. Fails only where the stop could not be queued on a
    /// running relay's channel.
    pub fn handle_disconnect(&mut self, msg: Disconnect) -> (r: Result<(), SendFailure>)
        ensures
            final(self)@ == after_disconnect(old(self)@, msg.id, msg.room_id),
            other_rooms_kept(*old(self), *final(self), msg.room_id),
            room_channel_kept(*old(self), *final(self), msg.room_id),
            old(self)@.rooms.contains_key(msg.room_id) ==> room_frames(*final(self), msg.room_id).accepted()
                == accepted_after(
                room_frames(*old(self), msg.room_id).accepted(),
                old(self)@.rooms[msg.room_id].frames.running,
                r is Ok,
            ),
            !(old(self)@.rooms.contains_key(msg.room_id) && old(self)@.rooms[msg.room_id].frames.running)
                ==> r is Ok,
    {
        let ghost pre = self@;
        self.sessions.remove(&msg.id);
        match self.rooms.remove(&msg.room_id) {
            Some(mut room) => {
                let r = room.frames_sync.send(FrameMessage::Stop);
                self.rooms.insert(msg.room_id, room);
                assert(self@.rooms =~= after_disconnect(pre, msg.id, msg.room_id).rooms);
                r
            },
            None => {
                assert(self@.rooms =~= pre.rooms);
                Ok(())
            },
        }
    }

    /// Creates a room with the given id for a game, replacing any room with
    /// that id.
    pub fn create_room_with_id(&mut self, room_id: u16, game: String)
        ensures
            final(self)@ == after_create(old(self)@, room_id, game@),
    {
        let ghost pre = self@;
        let room = Room::new(game);
        self.rooms.insert(room_id, room);
        assert(self@.rooms =~= after_create(pre, room_id, game@).rooms);
    }

    /// Handles a request for a room: draws the room's id from a random
    /// `u16`, creates the room under it, and answers the id.
    pub fn handle_create_room(&mut self, msg: CreateRoom) -> (room_id: u16)
        ensures
            final(self)@ == after_create(old(self)@, room_id, msg.0@),
    {
        let room_id = random_u16(&mut self.rng);
        self.create_room_with_id(room_id, msg.0);
        room_id
    }

    /// Handles key input: queues it for the relay of its room, if the room
    /// exists and its relay runs. Fails only where it could not be queued.
    pub fn handle_key_frame(&mut self, msg: KeyFrame) -> (r: Result<(), SendFailure>)
        ensures
            final(self)@ == old(self)@,
            other_rooms_kept(*old(self), *final(self), msg.room_id),
            room_channel_kept(*old(self), *final(self), msg.room_id),
            old(self)@.rooms.contains_key(msg.room_id) ==> room_frames(*final(self), msg.room_id).accepted()
                == accepted_after(
                room_frames(*old(self), msg.room_id).accepted(),
                old(self)@.rooms[msg.room_id].frames.running,
                r is Ok,
            ),
            !(old(self)@.rooms.contains_key(msg.room_id) && old(self)@.rooms[msg.room_id].frames.running)
                ==> r is Ok,
    {
        let ghost pre = self@;
        match self.rooms.remove(&msg.room_id) {
            Some(mut room) => {
                let r = room.frames_sync.send(FrameMessage::KeyBuffer(msg.frame));
                self.rooms.insert(msg.room_id, room);
                assert(self@.rooms =~= pre.rooms);
                r
            },
            None => {
                assert(self@.rooms =~= pre.rooms);
                Ok(())
            },
        }
    }

    /// Handles a request for the info of a room: `None` if there is no such
    /// room. The player number is counted in a byte; where one more does not
    /// fit, the count overflows, and that input is left out.
    pub fn handle_get_room_info(&self, msg: GetRoomInfo) -> (info: Option<RoomInfo>)
        requires
            self@.rooms.contains_key(msg.0) ==> player_number_fits(self@.rooms[msg.0]),
        ensures
            match info {
                Some(i) => room_info_of(self@, msg.0) == Some(i@),
                None => room_info_of(self@, msg.0) is None,
            },
    {
        match self.rooms.get(&msg.0) {
            Some(room) => {
                let count = (room.act.len() % 256) as u8;
                Some(RoomInfo { player: count + 1, game: room.game.clone(), room_id: msg.0 })
            },
            None => None,
        }
    }
}

impl<A> Default for OnLineServer<A> {
    fn default() -> (s: Self)
        ensures
            s@.sessions == Map::<usize, A>::empty(),
            s@.rooms == Map::<u16, RoomView>::empty(),
    {
        Self::new()
    }
}

// ---------------------------------------------------------------------------
// Laws of the requests
// ---------------------------------------------------------------------------

/// A room just created is open to its first player: its info names the game
/// and gives the next player the number one. With the contracts of
/// [`OnLineServer::handle_create_room`] and
/// [`OnLineServer::handle_get_room_info`], asking for the info of the id
/// that creation returned gives exactly this.
pub proof fn lemma_created_room_info<A>(s: ServerView<A>, room_id: u16, game: Seq<char>)
    ensures
        room_info_of(after_create(s, room_id, game), room_id) == Some(
            RoomInfoView { player: 1, game, room_id },
        ),
{
}

/// Creating a room changes no session and no other room.
pub proof fn lemma_create_touches_only_its_room<A>(
    s: ServerView<A>,
    room_id: u16,
    game: Seq<char>,
    other: u16,
)
    requires
        other != room_id,
    ensures
        after_create(s, room_id, game).sessions == s.sessions,
        room_info_of(after_create(s, room_id, game), other) == room_info_of(s, other),
{
}

/// A connecting session can be reached under its id, and the connection
/// changes no other room.
pub proof fn lemma_connect_registers_session<A>(
    s: ServerView<A>,
    id: usize,
    addr: A,
    room_id: u16,
    other: u16,
)
    requires
        other != room_id,
    ensures
        after_connect(s, id, addr, room_id).sessions.contains_key(id),
        after_connect(s, id, addr, room_id).sessions[id] == addr,
        room_info_of(after_connect(s, id, addr, room_id), other) == room_info_of(s, other),
{
}

/// Each session that joins a room raises the number of the room's next
/// player by one, and the game stays the same.
pub proof fn lemma_join_raises_player_number<A>(s: ServerView<A>, id: usize, addr: A, room_id: u16)
    requires
        s.rooms.contains_key(room_id),
        s.rooms[room_id].act.len() % 256 < 254,
    ensures
        room_info_of(s, room_id) matches Some(before) && room_info_of(
            after_connect(s, id, addr, room_id),
            room_id,
        ) matches Some(after) && after.player == before.player + 1 && after.game == before.game,
{
    let n = s.rooms[room_id].act.len();
    assert((n + 1) % 256 == n % 256 + 1);
}

/// A room's relay starts when its second member joins, and no other join
/// starts it.
pub proof fn lemma_relay_starts_with_second_player<A>(
    s: ServerView<A>,
    id: usize,
    addr: A,
    room_id: u16,
)
    requires
        s.rooms.contains_key(room_id),
    ensures
        after_connect(s, id, addr, room_id).rooms[room_id].frames.running == (
        s.rooms[room_id].frames.running || s.rooms[room_id].act.len() == 1),
{
}

/// When the second player joins, both players are told that the game is
/// ready: first the one who was waiting, then the one who joined.
pub proof fn lemma_both_players_told_ready<A>(s: ServerView<A>, id: usize, room_id: u16)
    requires
        makes_ready(s, room_id),
        s.sessions.contains_key(s.rooms[room_id].act[0]),
    ensures
        ready_members(s, id, room_id) == seq![s.rooms[room_id].act[0], id],
{
    let act = s.rooms[room_id].act.push(id);
    let live = s.sessions.dom().insert(id);
    assert(act.drop_last().drop_last() =~= Seq::<usize>::empty());
    assert(act.drop_last().last() == s.rooms[room_id].act[0]);
    assert(live_members(act.drop_last().drop_last(), live) =~= Seq::<usize>::empty());
    assert(live_members(act.drop_last(), live) =~= seq![s.rooms[room_id].act[0]]);
    assert(live.contains(id));
    assert(live_members(act, live) =~= seq![s.rooms[room_id].act[0], id]);
}

/// A session that ends can no longer be reached, and the relay of its room
/// no longer runs.
pub proof fn lemma_disconnect_ends_session<A>(s: ServerView<A>, id: usize, room_id: u16)
    ensures
        !after_disconnect(s, id, room_id).sessions.contains_key(id),
        s.rooms.contains_key(room_id) ==> !after_disconnect(s, id, room_id).rooms[room_id].frames.running,
        s.rooms.contains_key(room_id) ==> after_disconnect(s, id, room_id).rooms[room_id].act
            == s.rooms[room_id].act,
{
}

/// The info answered for a room names that room and its game, and, where
/// the count fits in a byte, gives the next player the number of members
/// (counted in a byte) plus one; a room that does not exist has no info.
pub proof fn lemma_room_info_names_the_room<A>(s: ServerView<A>, room_id: u16)
    ensures
        s.rooms.contains_key(room_id) ==> (room_info_of(s, room_id) matches Some(info)
            && info.room_id == room_id && info.game == s.rooms[room_id].game),
        s.rooms.contains_key(room_id) && player_number_fits(s.rooms[room_id]) ==> (room_info_of(
            s,
            room_id,
        ) matches Some(info) && info.player as int == s.rooms[room_id].act.len() % 256 + 1),
        !s.rooms.contains_key(room_id) ==> room_info_of(s, room_id) is None,
{
}

/// A connection leaves every other session as it was: the same ids, with
/// the same handles.
pub proof fn lemma_connect_keeps_other_sessions<A>(
    s: ServerView<A>,
    id: usize,
    addr: A,
    room_id: u16,
    other: usize,
)
    requires
        other != id,
    ensures
        after_connect(s, id, addr, room_id).sessions.contains_key(other) == s.sessions.contains_key(
            other,
        ),
        s.sessions.contains_key(other) ==> after_connect(s, id, addr, room_id).sessions[other]
            == s.sessions[other],
        after_connect(s, id, addr, room_id).sessions.dom() == s.sessions.dom().insert(id),
{
    assert(after_connect(s, id, addr, room_id).sessions.dom() =~= s.sessions.dom().insert(id));
}

} // verus!
