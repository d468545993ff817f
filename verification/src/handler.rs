//! The life of one connection: what a handler does with each thing that
//! happens to it, from attach until it detaches, once.

use vstd::prelude::*;

verus! {

/// Where a handler stands.
#[derive(Clone, Copy, Debug, PartialEq, Eq, Structural)]
pub enum HandlerState {
    /// Subscribed and serving both directions.
    Active,
    /// Done. Nothing leads out of it.
    Closed,
}

/// What can happen to a handler while it waits.
pub enum Event {
    /// A message arrived on the subscribed channel.
    Published(String),
    /// The subscribed channel dropped messages that this handler was too
    /// slow to take.
    Lagged,
    /// The subscribed channel was closed.
    ChannelClosed,
    /// A text frame arrived from the peer.
    Text(String),
    /// Anything else from the peer: a frame that is no text, an error, the
    /// end of the stream.
    Hangup,
    /// The last write to the peer failed.
    WriteFailed,
}

/// What a handler is to do next.
pub enum Action {
    /// Write the payload to the peer as a text frame.
    Write(String),
    /// Forward the payload with this connection's role as the source.
    Forward(String),
    /// Unsubscribe and leave the loop.
    Detach,
    /// Go on waiting.
    Wait,
}

/// An event with its payload as a sequence of characters.
pub enum EventView {
    Published(Seq<char>),
    Lagged,
    ChannelClosed,
    Text(Seq<char>),
    Hangup,
    WriteFailed,
}

/// An action with its payload as a sequence of characters.
pub enum ActionView {
    Write(Seq<char>),
    Forward(Seq<char>),
    Detach,
    Wait,
}

impl View for Event {
    type V = EventView;

    open spec fn view(&self) -> EventView {
        match self {
            Event::Published(m) => EventView::Published(m@),
            Event::Lagged => EventView::Lagged,
            Event::ChannelClosed => EventView::ChannelClosed,
            Event::Text(m) => EventView::Text(m@),
            Event::Hangup => EventView::Hangup,
            Event::WriteFailed => EventView::WriteFailed,
        }
    }
}

impl View for Action {
    type V = ActionView;

    open spec fn view(&self) -> ActionView {
        match self {
            Action::Write(m) => ActionView::Write(m@),
            Action::Forward(m) => ActionView::Forward(m@),
            Action::Detach => ActionView::Detach,
            Action::Wait => ActionView::Wait,
        }
    }
}

/// The state after `event`.
pub open spec fn next_state(state: HandlerState, event: EventView) -> HandlerState {
    match state {
        HandlerState::Closed => HandlerState::Closed,
        HandlerState::Active => match event {
            EventView::Published(_) => HandlerState::Active,
            EventView::Lagged => HandlerState::Active,
            EventView::Text(_) => HandlerState::Active,
            EventView::ChannelClosed => HandlerState::Closed,
            EventView::Hangup => HandlerState::Closed,
            EventView::WriteFailed => HandlerState::Closed,
        },
    }
}

/// What `event` asks of a handler in `state`. Payloads pass through as they
/// are; a handler detaches on the step that closes it, and a closed one does
/// nothing.
pub open spec fn next_action(state: HandlerState, event: EventView) -> ActionView {
    match state {
        HandlerState::Closed => ActionView::Wait,
        HandlerState::Active => match event {
            EventView::Published(m) => ActionView::Write(m),
            EventView::Lagged => ActionView::Wait,
            EventView::Text(m) => ActionView::Forward(m),
            EventView::ChannelClosed => ActionView::Detach,
            EventView::Hangup => ActionView::Detach,
            EventView::WriteFailed => ActionView::Detach,
        },
    }
}

/// One step of a handler: the state it moves to and what it has to do.
pub fn step(state: HandlerState, event: Event) -> (r: (HandlerState, Action))
    ensures
        r.0 == next_state(state, event@),
        r.1@ == next_action(state, event@),
{
    match state {
        HandlerState::Closed => (HandlerState::Closed, Action::Wait),
        HandlerState::Active => match event {
            Event::Published(m) => (HandlerState::Active, Action::Write(m)),
            Event::Lagged => (HandlerState::Active, Action::Wait),
            Event::Text(m) => (HandlerState::Active, Action::Forward(m)),
            Event::ChannelClosed => (HandlerState::Closed, Action::Detach),
            Event::Hangup => (HandlerState::Closed, Action::Detach),
            Event::WriteFailed => (HandlerState::Closed, Action::Detach),
        },
    }
}

/// The state of a handler that started in `state` and saw `events` in order.
pub open spec fn run(state: HandlerState, events: Seq<EventView>) -> HandlerState
    decreases events.len(),
{
    if events.len() == 0 {
        state
    } else {
        next_state(run(state, events.drop_last()), events.last())
    }
}

/// How often a handler that started in `state` was told to detach while it
/// saw `events`.
pub open spec fn detaches(state: HandlerState, events: Seq<EventView>) -> nat
    decreases events.len(),
{
    if events.len() == 0 {
        0
    } else {
        let before = run(state, events.drop_last());
        detaches(state, events.drop_last()) + if next_action(before, events.last()) == ActionView::Detach {
            1nat
        } else {
            0nat
        }
    }
}

/// A handler detaches exactly once, on the way from `Active` to `Closed`:
/// whatever it sees, it has been told to detach once if it started active and
/// is closed now, and never otherwise.
pub proof fn lemma_detaches_once(state: HandlerState, events: Seq<EventView>)
    ensures
        detaches(state, events) == if state == HandlerState::Active && run(state, events)
            == HandlerState::Closed {
            1nat
        } else {
            0nat
        },
        state == HandlerState::Closed ==> run(state, events) == HandlerState::Closed,
    decreases events.len(),
{
    if events.len() > 0 {
        lemma_detaches_once(state, events.drop_last());
    }
}

/// The payloads that arrived on the channel, in order.
pub open spec fn published(events: Seq<EventView>) -> Seq<Seq<char>>
    decreases events.len(),
{
    if events.len() == 0 {
        seq![]
    } else {
        match events.last() {
            EventView::Published(m) => published(events.drop_last()).push(m),
            _ => published(events.drop_last()),
        }
    }
}

/// The payloads that arrived from the peer as text, in order.
pub open spec fn received(events: Seq<EventView>) -> Seq<Seq<char>>
    decreases events.len(),
{
    if events.len() == 0 {
        seq![]
    } else {
        match events.last() {
            EventView::Text(m) => received(events.drop_last()).push(m),
            _ => received(events.drop_last()),
        }
    }
}

/// The payloads that a handler was told to write to the peer while it saw
/// `events`, in order.
pub open spec fn written(state: HandlerState, events: Seq<EventView>) -> Seq<Seq<char>>
    decreases events.len(),
{
    if events.len() == 0 {
        seq![]
    } else {
        match next_action(run(state, events.drop_last()), events.last()) {
            ActionView::Write(m) => written(state, events.drop_last()).push(m),
            _ => written(state, events.drop_last()),
        }
    }
}

/// The payloads that a handler was told to forward while it saw `events`, in
/// order.
pub open spec fn forwarded(state: HandlerState, events: Seq<EventView>) -> Seq<Seq<char>>
    decreases events.len(),
{
    if events.len() == 0 {
        seq![]
    } else {
        match next_action(run(state, events.drop_last()), events.last()) {
            ActionView::Forward(m) => forwarded(state, events.drop_last()).push(m),
            _ => forwarded(state, events.drop_last()),
        }
    }
}

/// A handler that is still active has passed on everything, once, in order
/// and as it came: what it was told to write is what arrived on the channel,
/// and what it was told to forward is what the peer sent.
pub proof fn lemma_active_passes_everything(events: Seq<EventView>)
    requires
        run(HandlerState::Active, events) == HandlerState::Active,
    ensures
        written(HandlerState::Active, events) == published(events),
        forwarded(HandlerState::Active, events) == received(events),
    decreases events.len(),
{
    if events.len() > 0 {
        lemma_active_passes_everything(events.drop_last());
    }
}

/// A closed handler stays closed and is asked for nothing more.
pub proof fn lemma_closed_is_final(event: EventView)
    ensures
        next_state(HandlerState::Closed, event) == HandlerState::Closed,
        next_action(HandlerState::Closed, event) == ActionView::Wait,
{
}

} // verus!
