//! The bounded channel of `tokio` through which frame messages travel from
//! the server to the relay task of a room.

use vstd::prelude::*;
use tokio::sync::mpsc::error::TrySendError;
use tokio::sync::mpsc::{Receiver, Sender};
use crate::frames_sync::FrameMessage;

verus! {

/// `tokio::sync::mpsc::Sender`, the sending half of a bounded channel.
#[verifier::external_type_specification]
#[verifier::external_body]
#[verifier::reject_recursive_types(T)]
pub struct ExSender<T>(Sender<T>);

/// `tokio::sync::mpsc::Receiver`, the receiving half of a bounded channel.
#[verifier::external_type_specification]
#[verifier::external_body]
#[verifier::reject_recursive_types(T)]
pub struct ExReceiver<T>(Receiver<T>);

/// Why a message could not be queued on a channel.
#[derive(Debug, Clone, Copy, PartialEq, Eq, Structural)]
pub enum SendFailure {
    /// The channel holds as many messages as it can.
    Full,
    /// The receiving half is gone.
    Closed,
}

/// Whether a sender and a receiver of frame messages are the two halves of
/// one channel: what the sender queues, the receiver takes.
pub uninterp spec fn frame_halves(tx: Sender<FrameMessage>, rx: Receiver<FrameMessage>) -> bool;

/// The bound a frame channel was made with: how many messages it holds at
/// most.
pub uninterp spec fn frame_channel_bound(tx: Sender<FrameMessage>) -> usize;

/// Calls `tokio::sync::mpsc::channel` for frame messages, which builds one
/// shared channel and returns its sending and receiving halves; the channel
/// holds at most `capacity` messages. It panics on a capacity of zero or
/// above `usize::MAX >> 3`; those inputs are left out.
#[verifier::external_body]
pub(crate) fn frame_channel(capacity: usize) -> (halves: (Sender<FrameMessage>, Receiver<FrameMessage>))
    requires
        0 < capacity <= usize::MAX / 8,
    ensures
        frame_halves(halves.0, halves.1),
        frame_channel_bound(halves.0) == capacity,
{
    tokio::sync::mpsc::channel(capacity)
}

/// Calls `Clone::clone` of `Sender`, which clones the shared pointer to
/// the channel (and counts one more sender in the channel): the result is
/// a handle on the same channel, equal to `tx`.
#[verifier::external_body]
pub(crate) fn clone_sender<T>(tx: &Sender<T>) -> (c: Sender<T>)
    ensures
        c == *tx,
{
    tx.clone()
}

/// Calls `Sender::try_send`, which queues `msg` if the channel has room and
/// its receiver is alive, and otherwise fails without waiting. Which of the
/// three happens depends on the other tasks that use the channel, so
/// nothing is stated of the result.
#[verifier::external_body]
pub(crate) fn try_send_message<T>(tx: &Sender<T>, msg: T) -> Result<(), SendFailure> {
    match tx.try_send(msg) {
        Ok(()) => Ok(()),
        Err(TrySendError::Full(_)) => Err(SendFailure::Full),
        Err(TrySendError::Closed(_)) => Err(SendFailure::Closed),
    }
}

} // verus!
