//! The broadcast channel that one role slot delivers through.
//!
//! The channel itself is `tokio::sync::broadcast`. Nothing in this file is
//! proved of it: each function states what the channel's documentation and
//! source promise, and the rest of the library is verified against that.

use vstd::prelude::*;
use tokio::sync::broadcast::{Receiver, Sender};
use crate::model::unheld;
use crate::state::Connections;

verus! {

/// The sending half of a broadcast channel, opaque to the verifier.
#[verifier::external_type_specification]
#[verifier::external_body]
#[verifier::reject_recursive_types(T)]
pub struct ExSender<T>(Sender<T>);

/// The receiving half of a broadcast channel, opaque to the verifier.
#[verifier::external_type_specification]
#[verifier::external_body]
#[verifier::reject_recursive_types(T)]
pub struct ExReceiver<T>(Receiver<T>);

/// The number of pending messages a slot's channel is created with.
pub const BACKLOG: usize = 100;

/// Whether `rx` is a receiving handle of the channel that `tx` sends on.
///
/// This names what `Sender::subscribe` returns: a handle that shares the
/// sender's channel. What the handle then yields is the channel's business:
/// one that falls behind the backlog loses the oldest messages.
pub uninterp spec fn listens_on(rx: Receiver<String>, tx: Sender<String>) -> bool;

/// The number of pending messages that the channel of `tx` was created for.
///
/// The channel may hold more than that before it drops the oldest: it rounds
/// the number up to a power of two.
pub uninterp spec fn backlog_of(tx: Sender<String>) -> nat;

/// Whether `message` was handed to the channel of `tx` by a send that counted
/// `receivers` live receiving handles. With a count of zero the channel had
/// no handle to deliver to and handed the message back.
///
/// This names what `Sender::send` was given and what it answered.
pub uninterp spec fn offered(tx: Sender<String>, message: Seq<char>, receivers: usize) -> bool;

/// Calls `tokio::sync::broadcast::channel` and keeps the sending half.
///
/// The outside function refuses a capacity of zero or above `usize::MAX / 2`;
/// those are left out. Claims that the channel was created for `capacity`
/// pending messages, and that it is a channel of its own: the call allocates
/// it, and the senders that the slots of `held` keep are alive at that time,
/// so it is none of theirs. `held` is only spoken of, not read.
#[verifier::external_body]
#[allow(unused_variables)]
pub(crate) fn open_channel_beside(capacity: usize, held: &Connections) -> (tx: Sender<String>)
    requires
        0 < capacity <= usize::MAX / 2,
    ensures
        backlog_of(tx) == capacity,
        unheld(held@, tx),
{
    tokio::sync::broadcast::channel(capacity).0
}

/// Calls `Sender::subscribe`.
///
/// Claims that the handle returned receives on the channel of `tx`.
///
/// The outside function panics where the channel already counts
/// `usize::MAX >> 2` live handles. How many handles live is not a fact about
/// `tx` that a contract could name, so that case is not left out here: the
/// claim is made for channels below that count.
#[verifier::external_body]
pub(crate) fn channel_subscribe(tx: &Sender<String>) -> (rx: Receiver<String>)
    ensures
        listens_on(rx, *tx),
{
    tx.subscribe()
}

/// Calls `Sender::send`.
///
/// Claims what the source shows of the result: a send that succeeds has put
/// `message` itself into the channel of `tx`, counted at least one receiving
/// handle and reports how many; one that fails found no handle and hands the
/// message back unchanged. Either way it was `message` that this channel was
/// offered.
#[verifier::external_body]
pub(crate) fn channel_send(tx: &Sender<String>, message: String) -> (sent: Result<usize, String>)
    ensures
        sent matches Ok(n) ==> n >= 1 && offered(*tx, message@, n),
        sent matches Err(back) ==> back@ == message@,
        sent is Err ==> offered(*tx, message@, 0),
{
    match tx.send(message) {
        Ok(n) => Ok(n),
        Err(e) => Err(e.0),
    }
}

} // verus!
