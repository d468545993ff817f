//! The mathematical model of the registry: a map from identifier to a pair of
//! optional role slots, and the three operations on it as functions on maps.

use vstd::prelude::*;
use tokio::sync::broadcast::Sender;
use crate::channel::{backlog_of, BACKLOG};
use crate::types::ClientType;

verus! {

/// One role slot as the contracts see it: the channel's sending half and the
/// number of live subscribers.
pub struct SlotView {
    pub tx: Sender<String>,
    pub subscribers: nat,
}

impl SlotView {
    /// A slot is live when it has a subscriber and its channel was created
    /// with the registry's backlog.
    pub open spec fn live(self) -> bool {
        self.subscribers > 0 && backlog_of(self.tx) == BACKLOG
    }
}

/// One registry entry as the contracts see it: the slot of each role.
pub struct PairView {
    pub master: Option<SlotView>,
    pub slave: Option<SlotView>,
}

/// The registry as the contracts see it.
pub type Registry = Map<Seq<char>, PairView>;

impl PairView {
    /// The entry with no slot at all. No registry holds it.
    pub open spec fn vacant() -> PairView {
        PairView { master: None, slave: None }
    }

    pub open spec fn is_vacant(self) -> bool {
        self.master is None && self.slave is None
    }

    /// The slot of `role`.
    pub open spec fn slot(self, role: ClientType) -> Option<SlotView> {
        match role {
            ClientType::Master => self.master,
            ClientType::Slave => self.slave,
        }
    }

    /// The entry with the slot of `role` replaced.
    pub open spec fn with_slot(self, role: ClientType, slot: Option<SlotView>) -> PairView {
        match role {
            ClientType::Master => PairView { master: slot, slave: self.slave },
            ClientType::Slave => PairView { master: self.master, slave: slot },
        }
    }

    /// An entry is live when a slot is present and every present slot is
    /// live.
    pub open spec fn live(self) -> bool {
        &&& !self.is_vacant()
        &&& self.master matches Some(s) ==> s.live()
        &&& self.slave matches Some(s) ==> s.live()
    }
}

/// A registry is sound when each of its entries is live and every slot has a
/// channel of its own: a slot exists exactly while it has subscribers, an
/// entry exactly while it has a slot, and no two slots deliver through one
/// channel.
pub open spec fn sound(m: Registry) -> bool {
    &&& forall|id: Seq<char>| #[trigger] m.contains_key(id) ==> m[id].live()
    &&& apart(m)
}

/// The entry of `id`, vacant where the registry has none.
pub open spec fn pair_of(m: Registry, id: Seq<char>) -> PairView {
    if m.contains_key(id) {
        m[id]
    } else {
        PairView::vacant()
    }
}

/// The slot of `role` under `id`, if there is one.
pub open spec fn slot_of(m: Registry, id: Seq<char>, role: ClientType) -> Option<SlotView> {
    pair_of(m, id).slot(role)
}

/// Whether the slots of two different places, if both are present, deliver
/// through different channels.
pub open spec fn differ(x: Option<SlotView>, y: Option<SlotView>) -> bool {
    match (x, y) {
        (Some(a), Some(b)) => a.tx != b.tx,
        _ => true,
    }
}

/// Every slot has a channel of its own: the slots of two roles, or under two
/// identifiers, never deliver through the same channel.
pub open spec fn apart(m: Registry) -> bool {
    forall|a: Seq<char>, ra: ClientType, b: Seq<char>, rb: ClientType|
        a != b || ra != rb ==> differ(#[trigger] slot_of(m, a, ra), #[trigger] slot_of(m, b, rb))
}

/// Whether no slot of `m` delivers through the channel of `tx`.
pub open spec fn unheld(m: Registry, tx: Sender<String>) -> bool {
    forall|id: Seq<char>, role: ClientType|
        (#[trigger] slot_of(m, id, role)) matches Some(s) ==> s.tx != tx
}

/// The number of subscribers of `role` under `id`.
pub open spec fn count_of(m: Registry, id: Seq<char>, role: ClientType) -> nat {
    match slot_of(m, id, role) {
        Some(s) => s.subscribers,
        None => 0,
    }
}

/// The channel that a message from `source` under `id` is published on: that
/// of the opposite role's slot, if that slot is present.
pub open spec fn target_of(m: Registry, id: Seq<char>, source: ClientType) -> Option<Sender<String>> {
    match slot_of(m, id, source.opposite()) {
        Some(s) => Some(s.tx),
        None => None,
    }
}

/// The slot of a role after one more subscriber: a present slot counts one
/// more on the same channel, an absent one is created on `fresh` with one.
pub open spec fn slot_joined(slot: Option<SlotView>, fresh: Sender<String>) -> SlotView {
    match slot {
        Some(s) => SlotView { tx: s.tx, subscribers: s.subscribers + 1 },
        None => SlotView { tx: fresh, subscribers: 1 },
    }
}

/// The slot of a role after one subscriber has left: it counts one less, and
/// is gone with its last subscriber.
pub open spec fn slot_left(slot: Option<SlotView>) -> Option<SlotView> {
    match slot {
        Some(s) => if s.subscribers <= 1 {
            None
        } else {
            Some(SlotView { tx: s.tx, subscribers: (s.subscribers - 1) as nat })
        },
        None => None,
    }
}

/// The registry after `role` has subscribed under `id`. `fresh` is the channel
/// that the slot gets if it has to be created.
pub open spec fn subscribed(m: Registry, id: Seq<char>, role: ClientType, fresh: Sender<String>) -> Registry {
    let pair = pair_of(m, id);
    m.insert(id, pair.with_slot(role, Some(slot_joined(pair.slot(role), fresh))))
}

/// The registry after `role` has unsubscribed under `id`: the slot loses one
/// subscriber, and the entry goes with its last slot.
pub open spec fn unsubscribed(m: Registry, id: Seq<char>, role: ClientType) -> Registry {
    let pair = pair_of(m, id);
    let rest = pair.with_slot(role, slot_left(pair.slot(role)));
    if rest.is_vacant() {
        m.remove(id)
    } else {
        m.insert(id, rest)
    }
}

} // verus!
