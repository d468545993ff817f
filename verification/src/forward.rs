//! The forwarder: a message from one role goes to the channel of the other
//! role under the same identifier, or nowhere.

use vstd::prelude::*;
use crate::channel::{channel_send, offered};
use crate::model::target_of;
use crate::render::{log_forward, log_line, shown};
use crate::state::Connections;
use crate::types::ClientType;

verus! {

/// What became of a message that had a destination.
pub struct Forwarded {
    /// The line to write to the log.
    pub line: String,
    /// How many receiving handles the channel counted when it took the
    /// message; zero where it had none and refused the message.
    pub receivers: usize,
}

/// The number of receiving handles that a send reached.
pub open spec fn reached(sent: Result<usize, String>) -> usize {
    match sent {
        Ok(n) => n,
        Err(_) => 0,
    }
}

impl Forwarded {
    /// Puts the log line and the channel's answer together.
    pub fn new(line: String, sent: Result<usize, String>) -> (r: Forwarded)
        ensures
            r.line == line,
            r.receivers == reached(sent),
    {
        let receivers = match sent {
            Ok(n) => n,
            Err(_) => 0,
        };
        Forwarded { line, receivers }
    }
}

/// Forwards `text`, sent by `source` under `device_id`, to the opposite role.
///
/// Where the opposite role has a slot, `text` itself is handed to that slot's
/// channel, and what comes back tells how many receiving handles the channel
/// counted and holds the log line. Where it has none, the message is dropped
/// and nothing comes back. The registry is read only.
pub fn forward_message(connections: &Connections, device_id: &str, text: String, source: ClientType) -> (r:
    Option<Forwarded>)
    requires
        connections.wf(),
    ensures
        r is Some <==> target_of(connections@, device_id@, source) is Some,
        r matches Some(f) ==> f.line@ == log_line(device_id@, source.spec_direction(), shown(text@)),
        r matches Some(f) ==> (target_of(connections@, device_id@, source) matches Some(tx) && offered(
            tx,
            text@,
            f.receivers,
        )),
{
    match connections.route(device_id, source) {
        Some(tx) => {
            let line = log_forward(device_id, source.direction(), text.as_str());
            let sent = channel_send(tx, text);
            Some(Forwarded::new(line, sent))
        },
        None => None,
    }
}

} // verus!
