//! What holds of the registry's operations taken together, proved over the
//! model that their contracts are stated in.

use vstd::prelude::*;
use tokio::sync::broadcast::{Receiver, Sender};
use crate::channel::{backlog_of, listens_on, offered, BACKLOG};
use crate::model::{
    count_of, differ, pair_of, slot_of, sound, subscribed, target_of, unheld, unsubscribed, Registry,
};
use crate::state::joined;
use crate::types::ClientType;

verus! {

/// Subscribing keeps a sound registry sound: no slot without a subscriber,
/// no entry without a slot, every channel with the registry's backlog, and
/// no two slots on one channel. A slot that is created needs a channel for
/// that: one with the registry's backlog that no slot holds yet.
pub proof fn lemma_subscribed_is_sound(m: Registry, id: Seq<char>, role: ClientType, fresh: Sender<String>)
    requires
        sound(m),
        slot_of(m, id, role) is None ==> backlog_of(fresh) == BACKLOG && unheld(m, fresh),
    ensures
        sound(subscribed(m, id, role, fresh)),
{
    let joined = subscribed(m, id, role, fresh);
    assert forall|k: Seq<char>| #[trigger] joined.contains_key(k) implies joined[k].live() by {
        if k != id {
            assert(m.contains_key(k));
        } else if m.contains_key(id) {
            assert(m[id].live());
        }
    }
    assert forall|a: Seq<char>, ra: ClientType, b: Seq<char>, rb: ClientType|
        a != b || ra != rb implies differ(#[trigger] slot_of(joined, a, ra), #[trigger] slot_of(joined, b, rb)) by {
        assert(differ(slot_of(m, a, ra), slot_of(m, b, rb)));
        assert(differ(slot_of(m, id, role), slot_of(m, b, rb)) || (b == id && rb == role));
        assert(differ(slot_of(m, a, ra), slot_of(m, id, role)) || (a == id && ra == role));
    }
}

/// Unsubscribing keeps a sound registry sound.
pub proof fn lemma_unsubscribed_is_sound(m: Registry, id: Seq<char>, role: ClientType)
    requires
        sound(m),
    ensures
        sound(unsubscribed(m, id, role)),
{
    let left = unsubscribed(m, id, role);
    assert forall|k: Seq<char>| #[trigger] left.contains_key(k) implies left[k].live() by {
        if k != id {
            assert(m.contains_key(k));
        } else if m.contains_key(id) {
            assert(m[id].live());
        }
    }
    assert forall|a: Seq<char>, ra: ClientType, b: Seq<char>, rb: ClientType|
        a != b || ra != rb implies differ(#[trigger] slot_of(left, a, ra), #[trigger] slot_of(left, b, rb)) by {
        assert(differ(slot_of(m, a, ra), slot_of(m, b, rb)));
    }
}

/// Roles and identifiers are kept apart: in a sound registry, the channel
/// that a message from `source` under `id` goes to is not the channel of the
/// sender's own role under `id`, nor that of any slot under another
/// identifier.
pub proof fn lemma_target_is_apart(
    m: Registry,
    id: Seq<char>,
    source: ClientType,
    other: Seq<char>,
    role: ClientType,
)
    requires
        sound(m),
        other != id || role == source,
    ensures
        target_of(m, id, source) matches Some(tx) ==> (slot_of(m, other, role) matches Some(s) ==> s.tx
            != tx),
{
    assert(differ(slot_of(m, id, source.opposite()), slot_of(m, other, role)));
}

/// A slot that a subscriber creates gets a channel of its own: the channel is
/// that of no slot that was there before, so what the opposite role sends to
/// the new slot goes to no other slot of the registry.
pub proof fn lemma_created_slot_is_apart(
    before: Registry,
    after: Registry,
    id: Seq<char>,
    role: ClientType,
    rx: Receiver<String>,
    other: Seq<char>,
    held: ClientType,
)
    requires
        joined(before, after, id, role, rx),
        slot_of(before, id, role) is None,
    ensures
        slot_of(after, id, role) matches Some(slot) && (slot_of(before, other, held) matches Some(s)
            ==> s.tx != slot.tx),
{
}

/// Subscribing and then unsubscribing the same role under the same
/// identifier gives back the registry as it was.
pub proof fn lemma_subscribe_then_unsubscribe(m: Registry, id: Seq<char>, role: ClientType, fresh: Sender<String>)
    requires
        sound(m),
    ensures
        unsubscribed(subscribed(m, id, role, fresh), id, role) == m,
{
    if m.contains_key(id) {
        assert(m[id].live());
    }
    assert(unsubscribed(subscribed(m, id, role, fresh), id, role) =~= m);
}

/// Nothing leaks: where an identifier had no entry, subscribing and then
/// unsubscribing under it leaves it without one.
pub proof fn lemma_no_leak(m: Registry, id: Seq<char>, role: ClientType, fresh: Sender<String>)
    requires
        !m.contains_key(id),
    ensures
        !unsubscribed(subscribed(m, id, role, fresh), id, role).contains_key(id),
{
}

/// The registry after one subscriber of `role` under `id` for each channel
/// in `fresh`, in order.
pub open spec fn subscribed_each(m: Registry, id: Seq<char>, role: ClientType, fresh: Seq<Sender<String>>) -> Registry
    decreases fresh.len(),
{
    if fresh.len() == 0 {
        m
    } else {
        subscribed(subscribed_each(m, id, role, fresh.drop_last()), id, role, fresh.last())
    }
}

/// However many subscribe to one role under one identifier, they share one
/// slot: it counts each of them, its channel is the one that the first of
/// them found or created, and that channel is where the opposite role's
/// messages go.
pub proof fn lemma_subscribers_share_channel(m: Registry, id: Seq<char>, role: ClientType, fresh: Seq<Sender<String>>)
    requires
        fresh.len() > 0,
    ensures
        count_of(subscribed_each(m, id, role, fresh), id, role) == count_of(m, id, role) + fresh.len(),
        slot_of(subscribed_each(m, id, role, fresh), id, role) matches Some(slot) && slot.tx == (match slot_of(
            m,
            id,
            role,
        ) {
            Some(s) => s.tx,
            None => fresh[0],
        }) && target_of(subscribed_each(m, id, role, fresh), id, role.opposite()) == Some(slot.tx),
    decreases fresh.len(),
{
    if fresh.len() > 1 {
        lemma_subscribers_share_channel(m, id, role, fresh.drop_last());
        assert(fresh.drop_last()[0] == fresh[0]);
    } else {
        assert(fresh.drop_last().len() == 0);
        assert(subscribed_each(m, id, role, fresh.drop_last()) == m);
    }
}

/// A subscriber is reached: once a peer has subscribed, the messages of the
/// opposite role under its identifier go to the channel that its handle
/// receives on.
pub proof fn lemma_subscriber_is_reached(
    before: Registry,
    after: Registry,
    id: Seq<char>,
    role: ClientType,
    rx: Receiver<String>,
)
    requires
        joined(before, after, id, role, rx),
    ensures
        target_of(after, id, role.opposite()) matches Some(tx) && listens_on(rx, tx),
        count_of(after, id, role) == count_of(before, id, role) + 1,
{
}

/// A forwarded message goes, as it is, to the channel of the opposite role's
/// subscribers: whatever was offered to the destination of a message from
/// the opposite role was offered to the channel that every handle of the
/// slot of `role` receives on, with the text and the count that the
/// forwarding reports.
pub proof fn lemma_forwarded_goes_to_subscribers(
    m: Registry,
    id: Seq<char>,
    role: ClientType,
    rx: Receiver<String>,
    text: Seq<char>,
    receivers: usize,
)
    requires
        slot_of(m, id, role) matches Some(slot) && listens_on(rx, slot.tx),
        target_of(m, id, role.opposite()) matches Some(tx) && offered(tx, text, receivers),
    ensures
        exists|tx: Sender<String>| listens_on(rx, tx) && #[trigger] offered(tx, text, receivers),
{
    let slot = slot_of(m, id, role)->0;
    assert(listens_on(rx, slot.tx) && offered(slot.tx, text, receivers));
}

/// A subscriber stays reached while its slot lives: as long as the slot has
/// a subscriber, neither one more nor one less of them changes the channel
/// that the opposite role's messages go to.
pub proof fn lemma_channel_stays(m: Registry, id: Seq<char>, role: ClientType, fresh: Sender<String>)
    ensures
        count_of(m, id, role) >= 1 ==> target_of(subscribed(m, id, role, fresh), id, role.opposite())
            == target_of(m, id, role.opposite()),
        count_of(m, id, role) > 1 ==> target_of(unsubscribed(m, id, role), id, role.opposite())
            == target_of(m, id, role.opposite()),
{
}

/// Messages never come back to the role that sent them: where the opposite
/// role has no slot there is no destination, however many peers of the
/// sender's own role are subscribed, and one more of them changes nothing.
pub proof fn lemma_same_role_isolated(m: Registry, id: Seq<char>, source: ClientType, fresh: Sender<String>)
    ensures
        slot_of(m, id, source.opposite()) is None ==> target_of(m, id, source) is None,
        target_of(subscribed(m, id, source, fresh), id, source) == target_of(m, id, source),
        target_of(unsubscribed(m, id, source), id, source) == target_of(m, id, source),
{
}

/// When one of several subscribers leaves, the slot stays: it counts one
/// less, keeps its channel, and the opposite role's messages still go there.
pub proof fn lemma_unsubscribe_one_of_several(m: Registry, id: Seq<char>, role: ClientType)
    requires
        count_of(m, id, role) > 1,
    ensures
        count_of(unsubscribed(m, id, role), id, role) == count_of(m, id, role) - 1,
        slot_of(unsubscribed(m, id, role), id, role) matches Some(slot) && Some(slot.tx) == target_of(
            m,
            id,
            role.opposite(),
        ),
        target_of(unsubscribed(m, id, role), id, role.opposite()) == target_of(m, id, role.opposite()),
{
}

/// When the last subscriber leaves, the slot is gone, and messages of the
/// opposite role have no destination any more.
pub proof fn lemma_unsubscribe_last(m: Registry, id: Seq<char>, role: ClientType)
    requires
        count_of(m, id, role) <= 1,
    ensures
        slot_of(unsubscribed(m, id, role), id, role) is None,
        target_of(unsubscribed(m, id, role), id, role.opposite()) is None,
        unsubscribed(m, id, role).contains_key(id) <==> slot_of(m, id, role.opposite()) is Some,
{
}

/// Unsubscribing where there is no slot changes nothing.
pub proof fn lemma_unsubscribe_absent(m: Registry, id: Seq<char>, role: ClientType)
    requires
        sound(m),
        slot_of(m, id, role) is None,
    ensures
        unsubscribed(m, id, role) == m,
{
    if m.contains_key(id) {
        assert(m[id].live());
    }
    assert(unsubscribed(m, id, role) =~= m);
}

/// Subscribing and unsubscribing touch one slot only: the other role under
/// the same identifier, and every other identifier, stay as they are.
pub proof fn lemma_others_untouched(
    m: Registry,
    id: Seq<char>,
    role: ClientType,
    fresh: Sender<String>,
    other: Seq<char>,
)
    ensures
        slot_of(subscribed(m, id, role, fresh), id, role.opposite()) == slot_of(m, id, role.opposite()),
        slot_of(unsubscribed(m, id, role), id, role.opposite()) == slot_of(m, id, role.opposite()),
        other != id ==> pair_of(subscribed(m, id, role, fresh), other) == pair_of(m, other),
        other != id ==> pair_of(unsubscribed(m, id, role), other) == pair_of(m, other),
        other != id ==> (subscribed(m, id, role, fresh).contains_key(other) <==> m.contains_key(other)),
        other != id ==> (unsubscribed(m, id, role).contains_key(other) <==> m.contains_key(other)),
{
}

} // verus!
