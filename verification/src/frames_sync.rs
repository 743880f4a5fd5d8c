//! Frame synchronisation of a room.
//!
//! While a room runs, the server queues each player's key input on the
//! room's channel. A relay task gathers that input and, at every frame
//! tick, sends all that it gathered since the previous tick to every player.
//! This module holds the decisions: when the relay starts and stops
//! ([`Frames`]), what the relay does with each message ([`FrameBuffer`]),
//! and how long the ticker sleeps between ticks ([`FrameClock`]).

use vstd::prelude::*;
use bytes::{Bytes, BytesMut};
use tokio::sync::mpsc::{Receiver, Sender};
use crate::bytes_buf::{
    bytes_from_mut, bytes_len, bytes_mut_clear, bytes_mut_clone, bytes_mut_len, bytes_mut_new, bytes_mut_put,
    bytes_mut_view, bytes_view,
};
use crate::channel::{
    clone_sender, frame_channel, frame_channel_bound, frame_halves, try_send_message, SendFailure,
};

verus! {

/// How many frame messages a room's channel holds.
pub const FRAME_CHANNEL_CAPACITY: usize = 128;

/// A message on a room's frame channel.
#[derive(Debug)]
pub enum FrameMessage {
    /// End the relay.
    Stop,
    /// Key input of a player, to be sent with the next frame.
    KeyBuffer(Bytes),
    /// A frame tick: send the gathered input.
    Frame,
}

/// A frame message with its bytes as a sequence.
pub enum FrameMessageView {
    Stop,
    KeyBuffer(Seq<u8>),
    Frame,
}

impl View for FrameMessage {
    type V = FrameMessageView;

    open spec fn view(&self) -> FrameMessageView {
        match self {
            FrameMessage::Stop => FrameMessageView::Stop,
            FrameMessage::KeyBuffer(b) => FrameMessageView::KeyBuffer(bytes_view(*b)),
            FrameMessage::Frame => FrameMessageView::Frame,
        }
    }
}

/// The view of a message that may be missing (a closed channel yields none).
pub open spec fn incoming_view(msg: Option<FrameMessage>) -> Option<FrameMessageView> {
    match msg {
        Some(m) => Some(m@),
        None => None,
    }
}

// ---------------------------------------------------------------------------
// The relay's buffer
// ---------------------------------------------------------------------------

/// What the relay does after a message.
#[derive(Debug)]
pub enum FrameStep {
    /// Wait for the next message.
    Idle,
    /// Send these bytes to every player of the room.
    Broadcast(Bytes),
    /// End the relay.
    Stop,
}

/// A relay step with its bytes as a sequence.
pub enum FrameStepView {
    Idle,
    Broadcast(Seq<u8>),
    Stop,
}

impl View for FrameStep {
    type V = FrameStepView;

    open spec fn view(&self) -> FrameStepView {
        match self {
            FrameStep::Idle => FrameStepView::Idle,
            FrameStep::Broadcast(b) => FrameStepView::Broadcast(bytes_view(*b)),
            FrameStep::Stop => FrameStepView::Stop,
        }
    }
}

/// One relay step: the gathered bytes and the message give the new gathered
/// bytes and what to do.
pub open spec fn relay_step(
    gathered: Seq<u8>,
    msg: Option<FrameMessageView>,
) -> (Seq<u8>, FrameStepView) {
    match msg {
        None => (gathered, FrameStepView::Idle),
        Some(FrameMessageView::Stop) => (gathered, FrameStepView::Stop),
        Some(FrameMessageView::KeyBuffer(k)) => (gathered + k, FrameStepView::Idle),
        Some(FrameMessageView::Frame) => (Seq::empty(), FrameStepView::Broadcast(gathered)),
    }
}

/// The key input gathered by the relay of a room since the last frame.
pub struct FrameBuffer {
    buffer: BytesMut,
}

impl View for FrameBuffer {
    type V = Seq<u8>;

    closed spec fn view(&self) -> Seq<u8> {
        bytes_mut_view(self.buffer)
    }
}

impl FrameBuffer {
    /// A buffer that holds nothing.
    pub fn new() -> (f: Self)
        ensures
            f@ == Seq::<u8>::empty(),
    {
        FrameBuffer { buffer: bytes_mut_new() }
    }

    /// The number of bytes gathered.
    pub fn len(&self) -> (n: usize)
        ensures
            n == self@.len(),
    {
        bytes_mut_len(&self.buffer)
    }

    /// Whether the buffer can take the message: key input fits only while
    /// the gathered bytes stay within `isize::MAX`; other messages always do.
    pub fn accepts(&self, msg: &Option<FrameMessage>) -> (ok: bool)
        ensures
            ok == (*msg matches Some(FrameMessage::KeyBuffer(k)) ==> self@.len() + bytes_view(
                k,
            ).len() <= isize::MAX),
    {
        match msg {
            Some(FrameMessage::KeyBuffer(k)) => {
                let have = bytes_mut_len(&self.buffer);
                let more = bytes_len(k);
                have <= (isize::MAX as usize) && more <= (isize::MAX as usize) - have
            },
            _ => true,
        }
    }

    /// Handles one message from the channel (`None` when the channel gave
    /// none): key input is appended, a frame hands out everything gathered
    /// and empties the buffer, a stop ends the relay.
    pub fn on_message(&mut self, msg: Option<FrameMessage>) -> (step: FrameStep)
        requires
            msg matches Some(FrameMessage::KeyBuffer(k)) ==> old(self)@.len() + bytes_view(k).len()
                <= isize::MAX,
        ensures
            (final(self)@, step@) == relay_step(old(self)@, incoming_view(msg)),
    {
        match msg {
            None => FrameStep::Idle,
            Some(FrameMessage::Stop) => FrameStep::Stop,
            Some(FrameMessage::KeyBuffer(k)) => {
                bytes_mut_put(&mut self.buffer, k);
                FrameStep::Idle
            },
            Some(FrameMessage::Frame) => {
                let frame = bytes_from_mut(bytes_mut_clone(&self.buffer));
                bytes_mut_clear(&mut self.buffer);
                FrameStep::Broadcast(frame)
            },
        }
    }
}

/// The relay run over a sequence of messages, from the given gathered
/// bytes: the gathered bytes at the end and the step taken after each.
pub open spec fn relay_run(
    gathered: Seq<u8>,
    msgs: Seq<Option<FrameMessageView>>,
) -> (Seq<u8>, Seq<FrameStepView>)
    decreases msgs.len(),
{
    if msgs.len() == 0 {
        (gathered, Seq::empty())
    } else {
        let (before, steps) = relay_run(gathered, msgs.drop_last());
        let (after, step) = relay_step(before, msgs.last());
        (after, steps.push(step))
    }
}

/// Key input messages carrying the given byte sequences, in order.
pub open spec fn key_messages(keys: Seq<Seq<u8>>) -> Seq<Option<FrameMessageView>> {
    keys.map_values(|k: Seq<u8>| Some(FrameMessageView::KeyBuffer(k)))
}

/// The byte sequences joined in order.
pub open spec fn joined(keys: Seq<Seq<u8>>) -> Seq<u8>
    decreases keys.len(),
{
    if keys.len() == 0 {
        Seq::empty()
    } else {
        joined(keys.drop_last()) + keys.last()
    }
}

/// `n` idle steps.
pub open spec fn idle_steps(n: nat) -> Seq<FrameStepView> {
    Seq::new(n, |i: int| FrameStepView::Idle)
}

/// Key input is gathered in the order it arrives, and the relay sends
/// nothing before the next frame.
pub proof fn lemma_key_input_accumulates(gathered: Seq<u8>, keys: Seq<Seq<u8>>)
    ensures
        relay_run(gathered, key_messages(keys)) == (gathered + joined(keys), idle_steps(keys.len())),
    decreases keys.len(),
{
    if keys.len() == 0 {
        assert(key_messages(keys) =~= Seq::empty());
        assert(gathered + joined(keys) =~= gathered);
        assert(idle_steps(0) =~= Seq::empty());
    } else {
        let rest = keys.drop_last();
        lemma_key_input_accumulates(gathered, rest);
        assert(key_messages(keys).drop_last() =~= key_messages(rest));
        assert(gathered + joined(rest) + keys.last() =~= gathered + joined(keys));
        assert(idle_steps(rest.len()).push(FrameStepView::Idle) =~= idle_steps(keys.len()));
    }
}

/// A frame sends exactly the key input received since the previous frame,
/// in order, and leaves nothing gathered. This is what the relay task that
/// [`Frames::start`] hands its receiver to does, one
/// [`FrameBuffer::on_message`] per message taken from the channel.
pub proof fn lemma_frame_sends_input_since_last_frame(keys: Seq<Seq<u8>>)
    ensures
        relay_run(Seq::empty(), key_messages(keys).push(Some(FrameMessageView::Frame))) == (
            Seq::<u8>::empty(),
            idle_steps(keys.len()).push(FrameStepView::Broadcast(joined(keys))),
        ),
{
    let msgs = key_messages(keys).push(Some(FrameMessageView::Frame));
    assert(msgs.drop_last() =~= key_messages(keys));
    lemma_key_input_accumulates(Seq::empty(), keys);
    assert(Seq::<u8>::empty() + joined(keys) =~= joined(keys));
}

/// The key input carried by a run of messages, in order; frames, stops and
/// missing messages carry none.
pub open spec fn key_bytes(msgs: Seq<Option<FrameMessageView>>) -> Seq<u8>
    decreases msgs.len(),
{
    if msgs.len() == 0 {
        Seq::empty()
    } else {
        key_bytes(msgs.drop_last()) + match msgs.last() {
            Some(FrameMessageView::KeyBuffer(k)) => k,
            _ => Seq::empty(),
        }
    }
}

/// Whether a run of messages holds no frame.
pub open spec fn frame_free(msgs: Seq<Option<FrameMessageView>>) -> bool {
    forall|i: int| 0 <= i < msgs.len() ==> msgs[i] != Some(FrameMessageView::Frame)
}

proof fn lemma_run_steps(gathered: Seq<u8>, msgs: Seq<Option<FrameMessageView>>, j: int)
    requires
        0 <= j < msgs.len(),
    ensures
        relay_run(gathered, msgs).1.len() == msgs.len(),
        relay_run(gathered, msgs).1[j] == relay_step(relay_run(gathered, msgs.take(j)).0, msgs[j]).1,
    decreases msgs.len(),
{
    let rest = msgs.drop_last();
    if j < msgs.len() - 1 {
        lemma_run_steps(gathered, rest, j);
        assert(rest.take(j) =~= msgs.take(j));
    } else {
        assert(msgs.take(j) =~= rest);
        if rest.len() > 0 {
            lemma_run_steps(gathered, rest, 0);
        } else {
            assert(relay_run(gathered, rest).1.len() == 0);
        }
    }
}

proof fn lemma_run_split(
    gathered: Seq<u8>,
    first: Seq<Option<FrameMessageView>>,
    second: Seq<Option<FrameMessageView>>,
)
    ensures
        relay_run(gathered, first + second).0 == relay_run(relay_run(gathered, first).0, second).0,
    decreases second.len(),
{
    if second.len() == 0 {
        assert(first + second =~= first);
    } else {
        lemma_run_split(gathered, first, second.drop_last());
        assert((first + second).drop_last() =~= first + second.drop_last());
        assert((first + second).last() == second.last());
    }
}

proof fn lemma_frame_free_run(gathered: Seq<u8>, msgs: Seq<Option<FrameMessageView>>)
    requires
        frame_free(msgs),
    ensures
        relay_run(gathered, msgs).0 == gathered + key_bytes(msgs),
    decreases msgs.len(),
{
    if msgs.len() == 0 {
        assert(gathered + key_bytes(msgs) =~= gathered);
    } else {
        let rest = msgs.drop_last();
        assert(frame_free(rest)) by {
            assert forall|i: int| 0 <= i < rest.len() implies rest[i] != Some(
                FrameMessageView::Frame,
            ) by {
                assert(rest[i] == msgs[i]);
            }
        }
        lemma_frame_free_run(gathered, rest);
        assert(msgs.last() == msgs[msgs.len() - 1]);
        match msgs.last() {
            Some(FrameMessageView::KeyBuffer(k)) => {
                assert(gathered + key_bytes(rest) + k =~= gathered + key_bytes(msgs));
            },
            _ => {
                assert(gathered + key_bytes(rest) =~= gathered + key_bytes(msgs));
            },
        }
    }
}

/// Over any run of messages, each frame sends exactly the key input that
/// came after the previous frame (or after the relay started, for the
/// first frame), in order, and nothing else; `prev` is the index of the
/// previous frame, or -1.
pub proof fn lemma_each_frame_sends_input_since_previous(
    msgs: Seq<Option<FrameMessageView>>,
    prev: int,
    j: int,
)
    requires
        -1 <= prev < j < msgs.len(),
        msgs[j] == Some(FrameMessageView::Frame),
        prev >= 0 ==> msgs[prev] == Some(FrameMessageView::Frame),
        frame_free(msgs.subrange(prev + 1, j)),
    ensures
        relay_run(Seq::empty(), msgs).1[j] == FrameStepView::Broadcast(
            key_bytes(msgs.subrange(prev + 1, j)),
        ),
{
    let before = msgs.take(prev + 1);
    let between = msgs.subrange(prev + 1, j);
    lemma_run_steps(Seq::empty(), msgs, j);
    assert(msgs.take(j) =~= before + between);
    lemma_run_split(Seq::empty(), before, between);
    if prev >= 0 {
        assert(before.drop_last() =~= msgs.take(prev));
        assert(before.last() == msgs[prev]);
        assert(relay_run(Seq::<u8>::empty(), before).0 == Seq::<u8>::empty());
    } else {
        assert(before =~= Seq::<Option<FrameMessageView>>::empty());
    }
    lemma_frame_free_run(Seq::empty(), between);
    assert(Seq::<u8>::empty() + key_bytes(between) =~= key_bytes(between));
}

/// A stop, or a missing message, changes nothing that was gathered.
pub proof fn lemma_stop_keeps_gathered_input(gathered: Seq<u8>)
    ensures
        relay_step(gathered, Some(FrameMessageView::Stop)) == (gathered, FrameStepView::Stop),
        relay_step(gathered, None) == (gathered, FrameStepView::Idle),
{
}

// ---------------------------------------------------------------------------
// The frame ticker
// ---------------------------------------------------------------------------

/// The longest `std::time::Duration`, in nanoseconds.
pub const DURATION_MAX_NANOS: u128 = 18446744073709551615999999999;

/// What the ticker does after queuing a frame tick.
#[derive(Debug, Clone, Copy, PartialEq, Eq, Structural)]
pub enum TickAction {
    /// Sleep this many nanoseconds, then tick again.
    Sleep(u128),
    /// Behind schedule: tick again at once.
    Proceed,
    /// The channel is gone: end the ticker.
    Stop,
}

/// The ticker's schedule: ticks are due at fixed multiples of the period
/// after the ticker started, whatever the delays in between.
pub struct FrameClock {
    period_ns: u128,
    next_tick_ns: u128,
}

/// The ticker's period and the time of its next tick, in nanoseconds since
/// it started.
pub struct FrameClockView {
    pub period_ns: u128,
    pub next_tick_ns: u128,
}

impl View for FrameClock {
    type V = FrameClockView;

    closed spec fn view(&self) -> FrameClockView {
        FrameClockView { period_ns: self.period_ns, next_tick_ns: self.next_tick_ns }
    }
}

/// What the ticker does after a tick was queued (`sent`) or refused, when
/// `elapsed_ns` have passed since it started.
pub open spec fn tick_action(clock: FrameClockView, sent: bool, elapsed_ns: u128) -> TickAction {
    if !sent {
        TickAction::Stop
    } else if clock.next_tick_ns > elapsed_ns {
        TickAction::Sleep((clock.next_tick_ns - elapsed_ns) as u128)
    } else {
        TickAction::Proceed
    }
}

impl FrameClock {
    /// A ticker with the given period whose first deadline is its start.
    pub fn new(period_ns: u128) -> (c: Self)
        requires
            period_ns <= DURATION_MAX_NANOS,
        ensures
            c@ == (FrameClockView { period_ns, next_tick_ns: 0 }),
    {
        FrameClock { period_ns, next_tick_ns: 0 }
    }

    /// The period, in nanoseconds.
    pub fn period_ns(&self) -> (p: u128)
        ensures
            p == self@.period_ns,
    {
        self.period_ns
    }

    /// The time of the next tick, in nanoseconds since the start.
    pub fn next_tick_ns(&self) -> (t: u128)
        ensures
            t == self@.next_tick_ns,
    {
        self.next_tick_ns
    }

    /// Moves the deadline one period on. A `Duration` cannot pass
    /// [`DURATION_MAX_NANOS`]; that input is left out.
    pub fn advance(&mut self)
        requires
            old(self)@.next_tick_ns + old(self)@.period_ns <= DURATION_MAX_NANOS,
        ensures
            final(self)@ == (FrameClockView {
                period_ns: old(self)@.period_ns,
                next_tick_ns: (old(self)@.next_tick_ns + old(self)@.period_ns) as u128,
            }),
    {
        self.next_tick_ns = self.next_tick_ns + self.period_ns;
    }

    /// What to do after queuing a tick: stop if it was refused, else sleep
    /// until the deadline, or go on at once if the deadline has passed.
    pub fn after_send(&self, sent: bool, elapsed_ns: u128) -> (a: TickAction)
        ensures
            a == tick_action(self@, sent, elapsed_ns),
    {
        if !sent {
            TickAction::Stop
        } else if self.next_tick_ns > elapsed_ns {
            TickAction::Sleep(self.next_tick_ns - elapsed_ns)
        } else {
            TickAction::Proceed
        }
    }
}

/// A ticker that sleeps wakes exactly at its deadline: the time passed plus
/// the sleep is the deadline, and it never sleeps when the deadline is past.
pub proof fn lemma_sleep_ends_at_deadline(clock: FrameClockView, elapsed_ns: u128)
    ensures
        tick_action(clock, true, elapsed_ns) matches TickAction::Sleep(d) ==> elapsed_ns + d
            == clock.next_tick_ns && d > 0,
        clock.next_tick_ns > elapsed_ns ==> tick_action(clock, true, elapsed_ns)
            == TickAction::Sleep((clock.next_tick_ns - elapsed_ns) as u128),
        clock.next_tick_ns <= elapsed_ns ==> tick_action(clock, true, elapsed_ns)
            == TickAction::Proceed,
        tick_action(clock, false, elapsed_ns) == TickAction::Stop,
{
}

/// The deadline after `k` advances from `start`, each by `period`, as
/// [`FrameClock::advance`] makes them one at a time.
pub open spec fn deadline_after(start: nat, period: nat, k: nat) -> nat
    decreases k,
{
    if k == 0 {
        start
    } else {
        deadline_after(start, period, (k - 1) as nat) + period
    }
}

/// The ticker does not drift: after `k` advances its deadline is exactly
/// `k` periods after where it began, however long each tick took.
pub proof fn lemma_deadlines_do_not_drift(start: nat, period: nat, k: nat)
    ensures
        deadline_after(start, period, k) == start + k * period,
    decreases k,
{
    if k > 0 {
        lemma_deadlines_do_not_drift(start, period, (k - 1) as nat);
        assert((k - 1) * period + period == k * period) by (nonlinear_arith);
    } else {
        assert(0 * period == 0) by (nonlinear_arith);
    }
}

// ---------------------------------------------------------------------------
// Starting and stopping a room's relay
// ---------------------------------------------------------------------------

/// The channel ends that a started relay runs on: the relay task reads
/// `rx`, the ticker task writes frame ticks to `tx`.
pub struct FrameWorkers {
    pub rx: Receiver<FrameMessage>,
    pub tx: Sender<FrameMessage>,
}

/// The frame channel of a room and whether its relay runs.
#[derive(Debug)]
pub struct Frames {
    running: bool,
    tx: Sender<FrameMessage>,
    rx: Option<Receiver<FrameMessage>>,
    accepted: u64,
}

/// Whether the relay runs, and whether the receiving half of the current
/// channel is still held (it is handed out when the relay starts).
pub struct FramesView {
    pub running: bool,
    pub has_receiver: bool,
}

impl View for Frames {
    type V = FramesView;

    closed spec fn view(&self) -> FramesView {
        FramesView { running: self.running, has_receiver: self.rx is Some }
    }
}

/// A relay that has not started and holds its receiver.
pub open spec fn frames_idle() -> FramesView {
    FramesView { running: false, has_receiver: true }
}

/// Starting: a running relay is left alone; otherwise it runs and its
/// receiver is handed out.
pub open spec fn frames_started(f: FramesView) -> FramesView {
    if f.running {
        f
    } else {
        FramesView { running: true, has_receiver: false }
    }
}

/// Sending a message: a stop sent to a running relay marks it stopped;
/// nothing else changes.
pub open spec fn frames_after_send(f: FramesView, is_stop: bool) -> FramesView {
    if f.running && is_stop {
        FramesView { running: false, has_receiver: f.has_receiver }
    } else {
        f
    }
}

/// One more, counted in a `u64` (wrapping to zero past the largest).
pub open spec fn count_one_more(n: u64) -> u64 {
    if n == u64::MAX {
        0
    } else {
        (n + 1) as u64
    }
}

/// The number of messages the current channel has accepted from the
/// server, after one message was sent to the relay: one more if the relay
/// ran and its channel accepted the message (`sent`), else the same.
pub open spec fn accepted_after(accepted: u64, running: bool, sent: bool) -> u64 {
    if running && sent {
        count_one_more(accepted)
    } else {
        accepted
    }
}

/// A send puts at most one message on the channel: exactly one when a
/// running relay's channel accepted it, none otherwise.
pub proof fn lemma_send_queues_one_message(accepted: u64, running: bool, sent: bool)
    ensures
        running && sent && accepted < u64::MAX ==> accepted_after(accepted, running, sent)
            == accepted + 1,
        !(running && sent) ==> accepted_after(accepted, running, sent) == accepted,
        accepted_after(accepted, running, sent) != accepted ==> running && sent,
{
}

impl Frames {
    /// A relay holds its receiver only while it does not run; a held
    /// receiver and the sender are the two halves of one channel; and the
    /// channel holds at most [`FRAME_CHANNEL_CAPACITY`] messages.
    #[verifier::type_invariant]
    closed spec fn channel_wired(self) -> bool {
        &&& self.rx is Some ==> !self.running
        &&& self.rx matches Some(r) ==> frame_halves(self.tx, r)
        &&& frame_channel_bound(self.tx) == FRAME_CHANNEL_CAPACITY
    }

    /// The receiving half of the current channel, where it is still held.
    pub closed spec fn receiver(&self) -> Option<Receiver<FrameMessage>> {
        self.rx
    }

    /// The sending half of the current channel, through which the server
    /// queues messages for the relay.
    pub closed spec fn sender(&self) -> Sender<FrameMessage> {
        self.tx
    }

    /// How many messages the current channel has accepted from the server
    /// since it was made, counted in a `u64`.
    pub closed spec fn accepted(&self) -> u64 {
        self.accepted
    }

    /// A new channel, with the relay not running.
    pub fn new() -> (f: Self)
        ensures
            f@ == frames_idle(),
            f.receiver() is Some,
            frame_halves(f.sender(), f.receiver()->0),
            frame_channel_bound(f.sender()) == FRAME_CHANNEL_CAPACITY,
            f.accepted() == 0,
    {
        let (tx, rx) = frame_channel(FRAME_CHANNEL_CAPACITY);
        Frames { running: false, tx, rx: Some(rx), accepted: 0 }
    }

    /// Starts the relay unless it runs, and hands out the channel ends for
    /// its two tasks: the receiver held so far, or that of a new channel
    /// where it was handed out before.
    pub fn start(&mut self) -> (workers: Option<FrameWorkers>)
        ensures
            final(self)@ == frames_started(old(self)@),
            workers is Some <==> !old(self)@.running,
            !old(self)@.running && old(self).receiver() is Some ==> workers->0.rx == old(
                self,
            ).receiver()->0,
            old(self)@.running ==> *final(self) == *old(self),
            old(self).receiver() is Some ==> final(self).sender() == old(self).sender(),
            workers matches Some(w) ==> w.tx == final(self).sender() && frame_halves(w.tx, w.rx),
            frame_channel_bound(final(self).sender()) == FRAME_CHANNEL_CAPACITY,
            old(self).receiver() is Some ==> final(self).accepted() == old(self).accepted(),
            !old(self)@.running && old(self).receiver() is None ==> final(self).accepted() == 0,
    {
        proof {
            use_type_invariant(&*self);
        }
        if self.running {
            return None;
        }
        let mut held: Option<Receiver<FrameMessage>> = None;
        std::mem::swap(&mut self.rx, &mut held);
        let rx = match held {
            Some(rx) => rx,
            None => {
                let (tx, rx) = frame_channel(FRAME_CHANNEL_CAPACITY);
                self.tx = tx;
                self.accepted = 0;
                rx
            },
        };
        self.running = true;
        let tx = clone_sender(&self.tx);
        Some(FrameWorkers { rx, tx })
    }

    /// Decides what a message sent to the relay becomes: a running relay is
    /// handed the message itself (and a stop marks it stopped); a relay that
    /// does not run is handed nothing. The channel is kept.
    pub fn queue_decision(&mut self, msg: FrameMessage) -> (m: Option<FrameMessage>)
        ensures
            m == (if old(self)@.running {
                Some(msg)
            } else {
                None
            }),
            final(self)@ == frames_after_send(old(self)@, msg is Stop),
            final(self).sender() == old(self).sender(),
            final(self).receiver() == old(self).receiver(),
            final(self).accepted() == old(self).accepted(),
    {
        proof {
            use_type_invariant(&*self);
        }
        if self.running {
            if let FrameMessage::Stop = msg {
                self.running = false;
            }
            Some(msg)
        } else {
            None
        }
    }

    /// Queues a message for a running relay on its channel's sender,
    /// without waiting; a stop marks the relay stopped. A relay that does
    /// not run is sent nothing. The channel is kept.
    pub fn send(&mut self, msg: FrameMessage) -> (r: Result<(), SendFailure>)
        ensures
            final(self)@ == frames_after_send(old(self)@, msg is Stop),
            final(self).sender() == old(self).sender(),
            final(self).receiver() == old(self).receiver(),
            !old(self)@.running ==> r is Ok,
            final(self).accepted() == accepted_after(old(self).accepted(), old(self)@.running, r is Ok),
    {
        match self.queue_decision(msg) {
            Some(m) => {
                proof {
                    use_type_invariant(&*self);
                }
                let r = try_send_message(&self.tx, m);
                if r.is_ok() {
                    self.accepted = self.accepted.wrapping_add(1);
                }
                r
            },
            None => Ok(()),
        }
    }
}

impl Default for Frames {
    fn default() -> (f: Self)
        ensures
            f@ == frames_idle(),
            f.receiver() is Some,
            frame_halves(f.sender(), f.receiver()->0),
            frame_channel_bound(f.sender()) == FRAME_CHANNEL_CAPACITY,
            f.accepted() == 0,
    {
        Self::new()
    }
}

/// A relay holds its receiver only while it does not run: a new relay
/// does not run, and starting and sending keep this so.
pub proof fn lemma_held_receiver_means_idle(f: FramesView, is_stop: bool)
    requires
        f.has_receiver ==> !f.running,
    ensures
        frames_idle().has_receiver && !frames_idle().running,
        frames_started(f).has_receiver ==> !frames_started(f).running,
        frames_after_send(f, is_stop).has_receiver ==> !frames_after_send(f, is_stop).running,
{
}

/// Starting twice starts once: a second start changes nothing.
pub proof fn lemma_start_is_idempotent(f: FramesView)
    ensures
        frames_started(frames_started(f)) == frames_started(f),
        frames_started(f).running,
{
}

/// Once stopped, a relay ignores every message until it is started again,
/// and can be started again.
pub proof fn lemma_stopped_relay_ignores_messages(f: FramesView, is_stop: bool)
    requires
        f.running,
    ensures
        !frames_after_send(f, true).running,
        frames_after_send(frames_after_send(f, true), is_stop) == frames_after_send(f, true),
        frames_started(frames_after_send(f, true)).running,
{
}

} // verus!
