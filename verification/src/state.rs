//! The connection registry: which role slots exist under which identifier,
//! and how subscribing and unsubscribing change them.

use vstd::prelude::*;
use tokio::sync::broadcast::{Receiver, Sender};
use crate::channel::{backlog_of, channel_subscribe, listens_on, open_channel_beside, BACKLOG};
use crate::laws::{lemma_subscribed_is_sound, lemma_unsubscribed_is_sound};
use crate::model::{
    apart, count_of, slot_of, sound, subscribed, target_of, unheld, unsubscribed, PairView, Registry,
    SlotView,
};
use crate::types::ClientType;

verus! {

/// The slot of the mobiles under one identifier: the channel that reaches
/// them, and how many of them are subscribed.
pub struct MasterChannel {
    pub tx: Sender<String>,
    pub subscribers: usize,
}

/// The slot of the devices under one identifier: the channel that reaches
/// them, and how many of them are subscribed.
pub struct SlaveChannel {
    pub tx: Sender<String>,
    pub subscribers: usize,
}

impl View for MasterChannel {
    type V = SlotView;

    open spec fn view(&self) -> SlotView {
        SlotView { tx: self.tx, subscribers: self.subscribers as nat }
    }
}

impl View for SlaveChannel {
    type V = SlotView;

    open spec fn view(&self) -> SlotView {
        SlotView { tx: self.tx, subscribers: self.subscribers as nat }
    }
}

/// One identifier with its two slots.
struct Entry {
    id: String,
    master: Option<MasterChannel>,
    slave: Option<SlaveChannel>,
}

impl Entry {
    spec fn pair(self) -> PairView {
        PairView {
            master: match self.master {
                Some(c) => Some(c@),
                None => None,
            },
            slave: match self.slave {
                Some(c) => Some(c@),
                None => None,
            },
        }
    }
}

/// Whether some entry of `entries` stands under `id`.
spec fn listed(entries: Seq<Entry>, id: Seq<char>) -> bool {
    exists|i: int| 0 <= i < entries.len() && (#[trigger] entries[i]).id@ == id
}

/// The place of an entry under `id`, where there is one.
spec fn place(entries: Seq<Entry>, id: Seq<char>) -> int {
    choose|i: int| 0 <= i < entries.len() && (#[trigger] entries[i]).id@ == id
}

/// No identifier stands twice.
spec fn distinct(entries: Seq<Entry>) -> bool {
    forall|i: int, j: int|
        0 <= i < entries.len() && 0 <= j < entries.len() && i != j ==> (#[trigger] entries[i]).id@ != (
        #[trigger] entries[j]).id@
}

/// The map that a list of entries stands for.
spec fn mapped(entries: Seq<Entry>) -> Registry {
    Map::new(|id: Seq<char>| listed(entries, id), |id: Seq<char>| entries[place(entries, id)].pair())
}

proof fn lemma_place(entries: Seq<Entry>, i: int)
    requires
        distinct(entries),
        0 <= i < entries.len(),
    ensures
        listed(entries, entries[i].id@),
        place(entries, entries[i].id@) == i,
        mapped(entries).contains_key(entries[i].id@),
        mapped(entries)[entries[i].id@] == entries[i].pair(),
{
    let id = entries[i].id@;
    let p = place(entries, id);
    assert(0 <= p < entries.len() && entries[p].id@ == id);
}

proof fn lemma_mapped_push(entries: Seq<Entry>, e: Entry)
    requires
        distinct(entries),
        !listed(entries, e.id@),
    ensures
        distinct(entries.push(e)),
        mapped(entries.push(e)) == mapped(entries).insert(e.id@, e.pair()),
{
    let after = entries.push(e);
    assert forall|i: int, j: int| 0 <= i < after.len() && 0 <= j < after.len() && i != j implies (
    #[trigger] after[i]).id@ != (#[trigger] after[j]).id@ by {
        if i < entries.len() && j < entries.len() {
            assert(after[i] == entries[i] && after[j] == entries[j]);
        } else if i < entries.len() {
            assert(after[i] == entries[i]);
        } else {
            assert(after[j] == entries[j]);
        }
    }
    assert forall|id: Seq<char>| listed(after, id) <==> (listed(entries, id) || id == e.id@) by {
        if listed(entries, id) {
            let p = place(entries, id);
            assert(after[p] == entries[p]);
        }
        if id == e.id@ {
            assert(after[entries.len() as int].id@ == id);
        }
        if listed(after, id) {
            let p = place(after, id);
            if p < entries.len() {
                assert(entries[p] == after[p]);
            }
        }
    }
    assert forall|id: Seq<char>| listed(after, id) implies #[trigger] mapped(after)[id] == mapped(
        entries,
    ).insert(e.id@, e.pair())[id] by {
        let p = place(after, id);
        lemma_place(after, p);
        if p < entries.len() {
            assert(after[p] == entries[p]);
            lemma_place(entries, p);
        }
    }
    assert(mapped(after) =~= mapped(entries).insert(e.id@, e.pair()));
}

/// Changing the slots of the entry at `i` in place, which gives `after`, puts
/// the entry's new slots under its identifier and leaves the rest of the map.
proof fn lemma_mapped_update(entries: Seq<Entry>, after: Seq<Entry>, i: int)
    requires
        distinct(entries),
        0 <= i < entries.len(),
        after =~= entries.update(i, after[i]),
        after[i].id@ == entries[i].id@,
    ensures
        distinct(after),
        mapped(after) == mapped(entries).insert(entries[i].id@, after[i].pair()),
{
    let e = after[i];
    assert forall|a: int, b: int| 0 <= a < after.len() && 0 <= b < after.len() && a != b implies (
    #[trigger] after[a]).id@ != (#[trigger] after[b]).id@ by {
        assert(after[a].id@ == entries[a].id@);
        assert(after[b].id@ == entries[b].id@);
    }
    assert forall|id: Seq<char>| listed(after, id) <==> listed(entries, id) by {
        if listed(entries, id) {
            let p = place(entries, id);
            assert(after[p].id@ == entries[p].id@);
        }
        if listed(after, id) {
            let p = place(after, id);
            assert(after[p].id@ == entries[p].id@);
        }
    }
    lemma_place(entries, i);
    assert forall|id: Seq<char>| listed(after, id) implies #[trigger] mapped(after)[id] == mapped(
        entries,
    ).insert(e.id@, e.pair())[id] by {
        let p = place(after, id);
        lemma_place(after, p);
        if p != i {
            assert(after[p] == entries[p]);
            lemma_place(entries, p);
        }
    }
    assert(mapped(after) =~= mapped(entries).insert(e.id@, e.pair()));
}

proof fn lemma_mapped_remove(entries: Seq<Entry>, i: int)
    requires
        distinct(entries),
        0 <= i < entries.len(),
    ensures
        distinct(entries.remove(i)),
        mapped(entries.remove(i)) == mapped(entries).remove(entries[i].id@),
{
    let after = entries.remove(i);
    let gone = entries[i].id@;
    assert forall|a: int| 0 <= a < after.len() implies #[trigger] after[a] == entries[if a < i {
        a
    } else {
        a + 1
    }] by {}
    assert forall|a: int, b: int| 0 <= a < after.len() && 0 <= b < after.len() && a != b implies (
    #[trigger] after[a]).id@ != (#[trigger] after[b]).id@ by {
        let a0 = if a < i { a } else { a + 1 };
        let b0 = if b < i { b } else { b + 1 };
        assert(after[a] == entries[a0] && after[b] == entries[b0]);
    }
    assert forall|id: Seq<char>| listed(after, id) <==> (listed(entries, id) && id != gone) by {
        if listed(entries, id) && id != gone {
            let p = place(entries, id);
            let q = if p < i { p } else { p - 1 };
            assert(after[q] == entries[p]);
        }
        if listed(after, id) {
            let q = place(after, id);
            let p = if q < i { q } else { q + 1 };
            assert(after[q] == entries[p]);
        }
    }
    assert forall|id: Seq<char>| listed(after, id) implies #[trigger] mapped(after)[id] == mapped(
        entries,
    ).remove(gone)[id] by {
        let q = place(after, id);
        let p = if q < i { q } else { q + 1 };
        assert(after[q] == entries[p]);
        lemma_place(after, q);
        lemma_place(entries, p);
    }
    assert(mapped(after) =~= mapped(entries).remove(gone));
}

/// The registry: every identifier that has a subscriber, with its slots.
pub struct Connections {
    entries: Vec<Entry>,
}

impl View for Connections {
    type V = Registry;

    closed spec fn view(&self) -> Registry {
        mapped(self.entries@)
    }
}

impl Connections {
    /// The registry's invariant: no identifier is listed twice, and what it
    /// stands for is sound.
    pub closed spec fn wf(&self) -> bool {
        &&& distinct(self.entries@)
        &&& forall|i: int| 0 <= i < self.entries@.len() ==> (#[trigger] self.entries@[i]).pair().live()
        &&& apart(mapped(self.entries@))
    }

    /// A well-formed registry stands for a sound map.
    pub proof fn lemma_sound(&self)
        requires
            self.wf(),
        ensures
            sound(self@),
    {
        assert forall|id: Seq<char>| #[trigger] self@.contains_key(id) implies self@[id].live() by {
            let p = place(self.entries@, id);
            lemma_place(self.entries@, p);
        }
    }

    /// The empty registry.
    pub fn new() -> (r: Connections)
        ensures
            r.wf(),
            r@ == Map::<Seq<char>, PairView>::empty(),
    {
        let r = Connections { entries: Vec::new() };
        assert(r@ =~= Map::<Seq<char>, PairView>::empty());
        r
    }

    /// Whether any slot exists under `device_id`.
    pub fn contains(&self, device_id: &str) -> (r: bool)
        requires
            self.wf(),
        ensures
            r == self@.contains_key(device_id@),
    {
        let key = device_id.to_owned();
        match self.find(&key) {
            Some(i) => {
                proof {
                    lemma_place(self.entries@, i as int);
                }
                true
            },
            None => false,
        }
    }

    /// Whether no identifier has a subscriber.
    pub fn is_empty(&self) -> (r: bool)
        requires
            self.wf(),
        ensures
            r == (self@ == Map::<Seq<char>, PairView>::empty()),
    {
        let r = self.entries.len() == 0;
        proof {
            if r {
                assert(self@ =~= Map::<Seq<char>, PairView>::empty());
            } else {
                lemma_place(self.entries@, 0);
            }
        }
        r
    }

    /// The number of subscribers of `role` under `device_id`; zero where the
    /// slot is absent.
    pub fn subscribers(&self, device_id: &str, role: ClientType) -> (r: usize)
        requires
            self.wf(),
        ensures
            r == count_of(self@, device_id@, role),
    {
        let key = device_id.to_owned();
        match self.find(&key) {
            Some(i) => {
                proof {
                    lemma_place(self.entries@, i as int);
                }
                let entry = &self.entries[i];
                match role {
                    ClientType::Master => match &entry.master {
                        Some(chan) => chan.subscribers,
                        None => 0,
                    },
                    ClientType::Slave => match &entry.slave {
                        Some(chan) => chan.subscribers,
                        None => 0,
                    },
                }
            },
            None => 0,
        }
    }

    /// The channel that a message from `source` under `device_id` goes to:
    /// that of the opposite role's slot, if the slot is present.
    pub(crate) fn route(&self, device_id: &str, source: ClientType) -> (r: Option<&Sender<String>>)
        requires
            self.wf(),
        ensures
            r matches Some(tx) ==> target_of(self@, device_id@, source) == Some(*tx),
            r is None ==> target_of(self@, device_id@, source) is None,
    {
        let key = device_id.to_owned();
        match self.find(&key) {
            Some(i) => {
                proof {
                    lemma_place(self.entries@, i as int);
                }
                let entry = &self.entries[i];
                match source {
                    ClientType::Master => match &entry.slave {
                        Some(chan) => Some(&chan.tx),
                        None => None,
                    },
                    ClientType::Slave => match &entry.master {
                        Some(chan) => Some(&chan.tx),
                        None => None,
                    },
                }
            },
            None => None,
        }
    }

    /// Where the entry of `id` stands, if there is one.
    fn find(&self, id: &String) -> (r: Option<usize>)
        ensures
            r matches Some(i) ==> i < self.entries@.len() && self.entries@[i as int].id@ == id@,
            r is None ==> !listed(self.entries@, id@),
    {
        let mut i: usize = 0;
        while i < self.entries.len()
            invariant
                i <= self.entries@.len(),
                forall|j: int| 0 <= j < i ==> (#[trigger] self.entries@[j]).id@ != id@,
            decreases self.entries@.len() - i,
        {
            if self.entries[i].id == *id {
                return Some(i);
            }
            i += 1;
        }
        None
    }
}

/// What one more subscriber of `role` under `id` makes of the registry
/// `before`, and what it gets: the slot is there `after`, counting one more on
/// its channel if it was present, and created if it was absent, with the
/// registry's backlog and on a channel that no slot had before; nothing else
/// has changed, and `rx` receives on the slot's channel.
pub open spec fn joined(
    before: Registry,
    after: Registry,
    id: Seq<char>,
    role: ClientType,
    rx: Receiver<String>,
) -> bool {
    match slot_of(after, id, role) {
        Some(slot) => {
            &&& after == subscribed(before, id, role, slot.tx)
            &&& backlog_of(slot.tx) == BACKLOG
            &&& slot_of(before, id, role) is None ==> unheld(before, slot.tx)
            &&& listens_on(rx, slot.tx)
        },
        None => false,
    }
}

/// Registers one more mobile under `device_id` and hands back its receiving
/// handle. The slot is created on a new channel if it is absent, and counts
/// one more subscriber on its channel if it is present; the handle receives on
/// the slot's channel either way.
pub fn subscribe_master(connections: &mut Connections, device_id: &str) -> (rx: Receiver<String>)
    requires
        old(connections).wf(),
        count_of(old(connections)@, device_id@, ClientType::Master) < usize::MAX,
    ensures
        final(connections).wf(),
        joined(old(connections)@, final(connections)@, device_id@, ClientType::Master, rx),
{
    let key = device_id.to_owned();
    match connections.find(&key) {
        Some(i) => {
            proof {
                lemma_place(connections.entries@, i as int);
                old(connections).lemma_sound();
            }
            if connections.entries[i].master.is_none() {
                let tx = open_channel_beside(BACKLOG, connections);
                let rx = channel_subscribe(&tx);
                proof {
                    lemma_subscribed_is_sound(connections@, device_id@, ClientType::Master, tx);
                }
                connections.entries[i].master = Some(MasterChannel { tx, subscribers: 1 });
                proof {
                    lemma_mapped_update(old(connections).entries@, connections.entries@, i as int);
                }
                rx
            } else {
                let entry = &mut connections.entries[i];
                let chan = entry.master.as_mut().unwrap();
                chan.subscribers += 1;
                let rx = channel_subscribe(&chan.tx);
                proof {
                    lemma_mapped_update(old(connections).entries@, connections.entries@, i as int);
                    lemma_subscribed_is_sound(old(connections)@, device_id@, ClientType::Master, chan.tx);
                }
                rx
            }
        },
        None => {
            let tx = open_channel_beside(BACKLOG, connections);
            let rx = channel_subscribe(&tx);
            let entry = Entry { id: key, master: Some(MasterChannel { tx, subscribers: 1 }), slave: None };
            proof {
                lemma_mapped_push(connections.entries@, entry);
                connections.lemma_sound();
                lemma_subscribed_is_sound(connections@, device_id@, ClientType::Master, tx);
            }
            connections.entries.push(entry);
            rx
        },
    }
}

/// Registers one more device under `device_id` and hands back its receiving
/// handle. The slot is created on a new channel if it is absent, and counts
/// one more subscriber on its channel if it is present; the handle receives on
/// the slot's channel either way.
pub fn subscribe_slave(connections: &mut Connections, device_id: &str) -> (rx: Receiver<String>)
    requires
        old(connections).wf(),
        count_of(old(connections)@, device_id@, ClientType::Slave) < usize::MAX,
    ensures
        final(connections).wf(),
        joined(old(connections)@, final(connections)@, device_id@, ClientType::Slave, rx),
{
    let key = device_id.to_owned();
    match connections.find(&key) {
        Some(i) => {
            proof {
                lemma_place(connections.entries@, i as int);
                old(connections).lemma_sound();
            }
            if connections.entries[i].slave.is_none() {
                let tx = open_channel_beside(BACKLOG, connections);
                let rx = channel_subscribe(&tx);
                proof {
                    lemma_subscribed_is_sound(connections@, device_id@, ClientType::Slave, tx);
                }
                connections.entries[i].slave = Some(SlaveChannel { tx, subscribers: 1 });
                proof {
                    lemma_mapped_update(old(connections).entries@, connections.entries@, i as int);
                }
                rx
            } else {
                let entry = &mut connections.entries[i];
                let chan = entry.slave.as_mut().unwrap();
                chan.subscribers += 1;
                let rx = channel_subscribe(&chan.tx);
                proof {
                    lemma_mapped_update(old(connections).entries@, connections.entries@, i as int);
                    lemma_subscribed_is_sound(old(connections)@, device_id@, ClientType::Slave, chan.tx);
                }
                rx
            }
        },
        None => {
            let tx = open_channel_beside(BACKLOG, connections);
            let rx = channel_subscribe(&tx);
            let entry = Entry { id: key, master: None, slave: Some(SlaveChannel { tx, subscribers: 1 }) };
            proof {
                lemma_mapped_push(connections.entries@, entry);
                connections.lemma_sound();
                lemma_subscribed_is_sound(connections@, device_id@, ClientType::Slave, tx);
            }
            connections.entries.push(entry);
            rx
        },
    }
}

/// Takes one subscriber of `role` away from `device_id`. A slot goes with its
/// last subscriber and an entry with its last slot; where the identifier or
/// the slot is absent, nothing changes.
pub fn unregister_client(connections: &mut Connections, device_id: &str, role: ClientType)
    requires
        old(connections).wf(),
    ensures
        final(connections).wf(),
        final(connections)@ == unsubscribed(old(connections)@, device_id@, role),
{
    let key = device_id.to_owned();
    proof {
        connections.lemma_sound();
        lemma_unsubscribed_is_sound(connections@, device_id@, role);
    }
    match connections.find(&key) {
        Some(i) => {
            proof {
                lemma_place(connections.entries@, i as int);
            }
            let entry = &mut connections.entries[i];
            match role {
                ClientType::Master => {
                    if let Some(chan) = &mut entry.master {
                        chan.subscribers = chan.subscribers.saturating_sub(1);
                        if chan.subscribers == 0 {
                            entry.master = None;
                        }
                    }
                },
                ClientType::Slave => {
                    if let Some(chan) = &mut entry.slave {
                        chan.subscribers = chan.subscribers.saturating_sub(1);
                        if chan.subscribers == 0 {
                            entry.slave = None;
                        }
                    }
                },
            }
            let vacant = entry.master.is_none() && entry.slave.is_none();
            proof {
                lemma_mapped_update(old(connections).entries@, connections.entries@, i as int);
            }
            if vacant {
                proof {
                    lemma_mapped_remove(connections.entries@, i as int);
                }
                connections.entries.remove(i);
                assert(connections@ =~= unsubscribed(old(connections)@, device_id@, role));
            } else {
                assert(connections@ =~= unsubscribed(old(connections)@, device_id@, role));
            }
        },
        None => {
            assert(connections@ =~= unsubscribed(old(connections)@, device_id@, role));
        },
    }
}

/// Registers one more subscriber of `role` under `device_id`: a mobile as
/// [`subscribe_master`] does, a device as [`subscribe_slave`] does.
pub fn subscribe(connections: &mut Connections, device_id: &str, role: ClientType) -> (rx: Receiver<String>)
    requires
        old(connections).wf(),
        count_of(old(connections)@, device_id@, role) < usize::MAX,
    ensures
        final(connections).wf(),
        joined(old(connections)@, final(connections)@, device_id@, role, rx),
{
    match role {
        ClientType::Master => subscribe_master(connections, device_id),
        ClientType::Slave => subscribe_slave(connections, device_id),
    }
}

} // verus!
