//! The broadcast relay: forwards every price update to the downstream
//! consumer over one connection, and reconnects when the connection is lost.
//!
//! The relay is a state machine. Its caller owns the connection and the
//! queue of updates: it performs the `RelayAction` that a step answers and
//! hands the outcome back as the next `RelayEvent`. An update is sent at
//! most once. The caller takes updates from the queue only while it waits
//! in the forwarding state; one that reaches the relay in any other state
//! is dropped.

use crate::record::{PriceUpdate, PriceUpdateView};
use vstd::prelude::*;

verus! {

/// Seconds to wait before reconnecting after an established connection was
/// lost.
pub const RECONNECT_DELAY_SECS: u64 = 5;

/// Seconds to wait before trying again after a connection could not be made.
pub const CONNECT_RETRY_SECS: u64 = 10;

/// Where the relay stands.
#[derive(Clone, Copy, Debug, PartialEq, Eq, Structural)]
pub enum RelayState {
    /// Not started.
    Idle,
    /// A connection has been asked for.
    Connecting,
    /// Connected, waiting for an update or for the consumer.
    Forwarding,
    /// An update is being written to the connection.
    Sending,
    /// Waiting out a delay before the next connection.
    Backoff,
}

/// What happened outside, told to the relay.
#[derive(Clone, Debug, PartialEq, Eq)]
pub enum RelayEvent {
    /// The relay is started.
    Start,
    /// The connection stands.
    Connected,
    /// The connection could not be made.
    ConnectFailed,
    /// An update was taken from the queue.
    Update(PriceUpdate),
    /// The update was written.
    Sent,
    /// Writing the update failed.
    SendFailed,
    /// The consumer closed the connection.
    PeerClosed,
    /// The connection reported an error.
    PeerFault,
    /// The consumer sent a message of any other kind.
    PeerMessage,
    /// The connection ended.
    PeerGone,
    /// The queue of updates was closed.
    QueueClosed,
    /// The delay that was asked for is over.
    DelayElapsed,
}

/// A `RelayEvent` with the symbol of its update as a sequence of characters.
pub enum RelayEventView {
    Start,
    Connected,
    ConnectFailed,
    Update(PriceUpdateView),
    Sent,
    SendFailed,
    PeerClosed,
    PeerFault,
    PeerMessage,
    PeerGone,
    QueueClosed,
    DelayElapsed,
}

impl View for RelayEvent {
    type V = RelayEventView;

    open spec fn view(&self) -> RelayEventView {
        match self {
            RelayEvent::Start => RelayEventView::Start,
            RelayEvent::Connected => RelayEventView::Connected,
            RelayEvent::ConnectFailed => RelayEventView::ConnectFailed,
            RelayEvent::Update(update) => RelayEventView::Update(update@),
            RelayEvent::Sent => RelayEventView::Sent,
            RelayEvent::SendFailed => RelayEventView::SendFailed,
            RelayEvent::PeerClosed => RelayEventView::PeerClosed,
            RelayEvent::PeerFault => RelayEventView::PeerFault,
            RelayEvent::PeerMessage => RelayEventView::PeerMessage,
            RelayEvent::PeerGone => RelayEventView::PeerGone,
            RelayEvent::QueueClosed => RelayEventView::QueueClosed,
            RelayEvent::DelayElapsed => RelayEventView::DelayElapsed,
        }
    }
}

/// What the caller is to do next.
#[derive(Clone, Debug, PartialEq, Eq)]
pub enum RelayAction {
    /// Connect to the consumer.
    Connect,
    /// Wait for the next update or for the consumer, whichever is ready
    /// first.
    Wait,
    /// Write this update to the connection, as one message.
    Send(PriceUpdate),
    /// Wait this many seconds, then report `DelayElapsed`.
    Sleep(u64),
}

/// A `RelayAction` with the symbol of its update as a sequence of characters.
pub enum RelayActionView {
    Connect,
    Wait,
    Send(PriceUpdateView),
    Sleep(u64),
}

impl View for RelayAction {
    type V = RelayActionView;

    open spec fn view(&self) -> RelayActionView {
        match self {
            RelayAction::Connect => RelayActionView::Connect,
            RelayAction::Wait => RelayActionView::Wait,
            RelayAction::Send(update) => RelayActionView::Send(update@),
            RelayAction::Sleep(seconds) => RelayActionView::Sleep(*seconds),
        }
    }
}

/// One step of the relay: the next state and the action. An event that the
/// state does not expect changes nothing and is answered with `Wait`; for an
/// update that means it is dropped.
pub open spec fn relay_step(state: RelayState, event: RelayEventView) -> (
    RelayState,
    RelayActionView,
) {
    match event {
        RelayEventView::Start => if state == RelayState::Idle {
            (RelayState::Connecting, RelayActionView::Connect)
        } else {
            (state, RelayActionView::Wait)
        },
        RelayEventView::Connected => if state == RelayState::Connecting {
            (RelayState::Forwarding, RelayActionView::Wait)
        } else {
            (state, RelayActionView::Wait)
        },
        RelayEventView::ConnectFailed => if state == RelayState::Connecting {
            (RelayState::Backoff, RelayActionView::Sleep(CONNECT_RETRY_SECS))
        } else {
            (state, RelayActionView::Wait)
        },
        RelayEventView::DelayElapsed => if state == RelayState::Backoff {
            (RelayState::Connecting, RelayActionView::Connect)
        } else {
            (state, RelayActionView::Wait)
        },
        RelayEventView::Update(update) => if state == RelayState::Forwarding {
            (RelayState::Sending, RelayActionView::Send(update))
        } else {
            (state, RelayActionView::Wait)
        },
        RelayEventView::Sent => if state == RelayState::Sending {
            (RelayState::Forwarding, RelayActionView::Wait)
        } else {
            (state, RelayActionView::Wait)
        },
        RelayEventView::SendFailed => if state == RelayState::Sending {
            (RelayState::Backoff, RelayActionView::Sleep(RECONNECT_DELAY_SECS))
        } else {
            (state, RelayActionView::Wait)
        },
        RelayEventView::PeerMessage => (state, RelayActionView::Wait),
        RelayEventView::PeerClosed
        | RelayEventView::PeerFault
        | RelayEventView::PeerGone
        | RelayEventView::QueueClosed => if state == RelayState::Forwarding {
            (RelayState::Backoff, RelayActionView::Sleep(RECONNECT_DELAY_SECS))
        } else {
            (state, RelayActionView::Wait)
        },
    }
}

/// The state that `events`, taken in order from `state`, lead to.
pub open spec fn state_after(state: RelayState, events: Seq<RelayEventView>) -> RelayState
    decreases events.len(),
{
    if events.len() == 0 {
        state
    } else {
        relay_step(state_after(state, events.drop_last()), events.last()).0
    }
}

/// The updates that the relay asks to send while it takes `events` in order
/// from `state`.
pub open spec fn forwarded(state: RelayState, events: Seq<RelayEventView>) -> Seq<PriceUpdateView>
    decreases events.len(),
{
    if events.len() == 0 {
        Seq::empty()
    } else {
        let earlier = forwarded(state, events.drop_last());
        match relay_step(state_after(state, events.drop_last()), events.last()).1 {
            RelayActionView::Send(update) => earlier.push(update),
            _ => earlier,
        }
    }
}

/// The updates that `events` hand to the relay, in order.
pub open spec fn offered(events: Seq<RelayEventView>) -> Seq<PriceUpdateView>
    decreases events.len(),
{
    if events.len() == 0 {
        Seq::empty()
    } else {
        match events.last() {
            RelayEventView::Update(update) => offered(events.drop_last()).push(update),
            _ => offered(events.drop_last()),
        }
    }
}

/// Whether `part` can be had from `whole` by leaving elements out, the
/// rest staying in order.
pub open spec fn is_subsequence<T>(part: Seq<T>, whole: Seq<T>) -> bool
    decreases whole.len(),
{
    if part.len() == 0 {
        true
    } else if whole.len() == 0 {
        false
    } else {
        (part.last() == whole.last() && is_subsequence(part.drop_last(), whole.drop_last()))
            || is_subsequence(part, whole.drop_last())
    }
}

/// The relay sends an update only in answer to that very update.
pub proof fn law_sends_what_it_is_given(state: RelayState, event: RelayEventView)
    ensures
        relay_step(state, event).1 matches RelayActionView::Send(update) ==> event
            == RelayEventView::Update(update) && state == RelayState::Forwarding,
{
}

/// Whatever happens to the connection, the updates that the relay sends are
/// updates it was given, in the order in which it was given them, each at
/// most once: what is sent is the stream of updates with some left out.
pub proof fn law_relay_keeps_order(state: RelayState, events: Seq<RelayEventView>)
    ensures
        is_subsequence(forwarded(state, events), offered(events)),
    decreases events.len(),
{
    if events.len() > 0 {
        let rest = events.drop_last();
        law_relay_keeps_order(state, rest);
        let before = state_after(state, rest);
        law_sends_what_it_is_given(before, events.last());
        match relay_step(before, events.last()).1 {
            RelayActionView::Send(update) => {
                let sent = forwarded(state, events);
                let given = offered(events);
                assert(sent.drop_last() =~= forwarded(state, rest));
                assert(given.drop_last() =~= offered(rest));
            },
            _ => {
                match events.last() {
                    RelayEventView::Update(update) => {
                        let given = offered(events);
                        assert(given.drop_last() =~= offered(rest));
                    },
                    _ => {},
                }
            },
        }
    }
}

/// While the connection stands and nothing fails, every update is sent:
/// after an update and the report that it was written, the relay is
/// forwarding again.
pub proof fn law_forwards_while_connected(update: PriceUpdateView)
    ensures
        relay_step(RelayState::Forwarding, RelayEventView::Update(update)) == (
            RelayState::Sending,
            RelayActionView::Send(update),
        ),
        relay_step(RelayState::Sending, RelayEventView::Sent) == (
            RelayState::Forwarding,
            RelayActionView::Wait,
        ),
{
}

/// The relay.
pub struct Relay {
    state: RelayState,
}

impl View for Relay {
    type V = RelayState;

    closed spec fn view(&self) -> RelayState {
        self.state
    }
}

impl Relay {
    /// A relay that has not been started.
    pub fn new() -> (r: Relay)
        ensures
            r@ == RelayState::Idle,
    {
        Relay { state: RelayState::Idle }
    }

    /// Where the relay stands.
    pub fn state(&self) -> (r: RelayState)
        ensures
            r == self@,
    {
        self.state
    }

    /// Takes one event and answers what to do next.
    pub fn step(&mut self, event: RelayEvent) -> (action: RelayAction)
        ensures
            (final(self)@, action@) == relay_step(old(self)@, event@),
    {
        match event {
            RelayEvent::Start => match self.state {
                RelayState::Idle => {
                    self.state = RelayState::Connecting;
                    RelayAction::Connect
                },
                _ => RelayAction::Wait,
            },
            RelayEvent::Connected => match self.state {
                RelayState::Connecting => {
                    self.state = RelayState::Forwarding;
                    RelayAction::Wait
                },
                _ => RelayAction::Wait,
            },
            RelayEvent::ConnectFailed => match self.state {
                RelayState::Connecting => {
                    self.state = RelayState::Backoff;
                    RelayAction::Sleep(CONNECT_RETRY_SECS)
                },
                _ => RelayAction::Wait,
            },
            RelayEvent::DelayElapsed => match self.state {
                RelayState::Backoff => {
                    self.state = RelayState::Connecting;
                    RelayAction::Connect
                },
                _ => RelayAction::Wait,
            },
            RelayEvent::Update(update) => match self.state {
                RelayState::Forwarding => {
                    self.state = RelayState::Sending;
                    RelayAction::Send(update)
                },
                _ => RelayAction::Wait,
            },
            RelayEvent::Sent => match self.state {
                RelayState::Sending => {
                    self.state = RelayState::Forwarding;
                    RelayAction::Wait
                },
                _ => RelayAction::Wait,
            },
            RelayEvent::SendFailed => match self.state {
                RelayState::Sending => {
                    self.state = RelayState::Backoff;
                    RelayAction::Sleep(RECONNECT_DELAY_SECS)
                },
                _ => RelayAction::Wait,
            },
            RelayEvent::PeerMessage => RelayAction::Wait,
            RelayEvent::PeerClosed
            | RelayEvent::PeerFault
            | RelayEvent::PeerGone
            | RelayEvent::QueueClosed => match self.state {
                RelayState::Forwarding => {
                    self.state = RelayState::Backoff;
                    RelayAction::Sleep(RECONNECT_DELAY_SECS)
                },
                _ => RelayAction::Wait,
            },
        }
    }
}

} // verus!
