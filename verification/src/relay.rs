//! The server's main loop: acceptor and broadcaster in one cadence.
//!
//! The loop owns the registry. Each cycle it tries one accept, takes at most
//! one item from the broadcast queue, fans a message out to the registered
//! connections, drops those whose write failed, and sleeps:
//!
//! ```text
//! Accept --connection--> StartReader(handle) --> Poll
//!        --none--------> Poll
//! Poll --message--> Deliver --all written--> Sleep --> Accept
//!                           --some failed--> Drop(failed) --> Sleep --> Accept
//!      --closing notice--> Drop(closed) --> Sleep --> Accept
//!      --nothing--> Sleep --> Accept
//! ```

use crate::framing::{encode, encoded, Frame};
use crate::reader::{Inbound, InboundView};
use crate::registry::{
    lemma_without, lemma_without_one, lemma_without_strangers, well_formed, without, ConnId,
    ConnectionRegistry,
};
use vstd::prelude::*;

verus! {

/// Whether a message goes back to the connection that sent it.
#[derive(Clone, Copy, Debug, PartialEq, Eq, Structural)]
pub enum EchoPolicy {
    /// Every registered connection receives the message, its sender too.
    IncludeSender,
    /// Every registered connection but the sender receives the message.
    ExcludeSender,
}

/// The connections that receive a message sent by `from`.
pub open spec fn recipients(live: Seq<ConnId>, echo: EchoPolicy, from: ConnId) -> Seq<ConnId> {
    match echo {
        EchoPolicy::IncludeSender => live,
        EchoPolicy::ExcludeSender => without(live, seq![from]),
    }
}

/// What the main loop reports after a step.
#[derive(Debug, PartialEq, Eq)]
pub enum RelayEvent {
    /// The accept attempt returned; `arrived` says whether with a connection.
    Accepted { arrived: bool },
    /// The reader task was started, or the connection was turned away.
    Started,
    /// The broadcast queue was polled and gave this item, or none.
    Polled(Option<Inbound>),
    /// The frame was written to every target; `failed` lists the targets on
    /// which the write failed.
    Delivered { failed: Vec<ConnId> },
    /// The streams of the dropped connections were closed.
    Dropped,
    /// The polling interval has passed.
    Slept,
}

/// What the main loop does next.
#[derive(Debug, PartialEq, Eq)]
pub enum RelayStep {
    /// Try to accept one pending connection, without blocking.
    Accept,
    /// Keep the accepted connection under this handle and start its reader.
    StartReader(ConnId),
    /// Close the accepted connection: no handle is left for it.
    Refuse,
    /// Take at most one item from the broadcast queue, without blocking.
    Poll,
    /// Write `frame` to each of `targets`, in this order.
    Deliver { frame: Frame, targets: Vec<ConnId> },
    /// Close the streams of these connections: they have left the registry.
    Drop { conns: Vec<ConnId> },
    /// Wait one polling interval.
    Sleep,
}

/// A `RelayStep` over sequences.
pub enum RelayStepView {
    Accept,
    StartReader(ConnId),
    Refuse,
    Poll,
    Deliver { frame: Seq<u8>, targets: Seq<ConnId> },
    Drop { conns: Seq<ConnId> },
    Sleep,
}

impl View for RelayStep {
    type V = RelayStepView;

    open spec fn view(&self) -> RelayStepView {
        match self {
            RelayStep::Accept => RelayStepView::Accept,
            RelayStep::StartReader(conn) => RelayStepView::StartReader(*conn),
            RelayStep::Refuse => RelayStepView::Refuse,
            RelayStep::Poll => RelayStepView::Poll,
            RelayStep::Deliver { frame, targets } => RelayStepView::Deliver {
                frame: frame@,
                targets: targets@,
            },
            RelayStep::Drop { conns } => RelayStepView::Drop { conns: conns@ },
            RelayStep::Sleep => RelayStepView::Sleep,
        }
    }
}

/// The state of the main loop: the live connections, oldest first, the
/// number of handles issued so far, and the echo policy.
pub struct RelayView {
    pub live: Seq<ConnId>,
    pub issued: nat,
    pub echo: EchoPolicy,
}

impl RelayView {
    /// No connection is listed twice, and every listed handle was issued.
    pub open spec fn wf(self) -> bool {
        well_formed(self.live, self.issued)
    }
}

/// The main loop's transition: the state after `event` and the next step.
///
/// An accepted connection is registered under the next handle, while one is
/// left. A message is fanned out to its recipients, framed. A closing notice
/// and every failed write take their connections out of the registry, and
/// the streams of those are closed; nothing else changes the registry.
pub open spec fn relay_next(state: RelayView, event: RelayEvent) -> (RelayView, RelayStepView) {
    match event {
        RelayEvent::Accepted { arrived } => if !arrived {
            (state, RelayStepView::Poll)
        } else if state.issued < u64::MAX {
            (
                RelayView {
                    live: state.live.push(state.issued as ConnId),
                    issued: state.issued + 1,
                    echo: state.echo,
                },
                RelayStepView::StartReader(state.issued as ConnId),
            )
        } else {
            (state, RelayStepView::Refuse)
        },
        RelayEvent::Started => (state, RelayStepView::Poll),
        RelayEvent::Polled(None) => (state, RelayStepView::Sleep),
        RelayEvent::Polled(Some(item)) => match item@ {
            InboundView::Message { from, text } => (
                state,
                RelayStepView::Deliver {
                    frame: encoded(text),
                    targets: recipients(state.live, state.echo, from),
                },
            ),
            InboundView::Closed { conn } => (
                RelayView {
                    live: without(state.live, seq![conn]),
                    issued: state.issued,
                    echo: state.echo,
                },
                RelayStepView::Drop { conns: seq![conn] },
            ),
        },
        RelayEvent::Delivered { failed } => if failed@.len() == 0 {
            (state, RelayStepView::Sleep)
        } else {
            (
                RelayView {
                    live: without(state.live, failed@),
                    issued: state.issued,
                    echo: state.echo,
                },
                RelayStepView::Drop { conns: failed@ },
            )
        },
        RelayEvent::Dropped => (state, RelayStepView::Sleep),
        RelayEvent::Slept => (state, RelayStepView::Accept),
    }
}

/// The server's main loop: the registry and the echo policy.
pub struct Relay {
    registry: ConnectionRegistry,
    echo: EchoPolicy,
}

impl View for Relay {
    type V = RelayView;

    closed spec fn view(&self) -> RelayView {
        RelayView { live: self.registry@, issued: self.registry.issued(), echo: self.echo }
    }
}

impl Relay {
    /// The invariant of every relay: that of its registry.
    pub open spec fn wf(&self) -> bool {
        self@.wf()
    }

    /// A relay without connections. Its first step is `RelayStep::Accept`.
    pub fn new(echo: EchoPolicy) -> (relay: Relay)
        ensures
            relay.wf(),
            relay@ == (RelayView { live: Seq::<ConnId>::empty(), issued: 0, echo }),
    {
        Relay { registry: ConnectionRegistry::new(), echo }
    }

    /// The live connections, oldest first.
    pub fn connections(&self) -> (live: Vec<ConnId>)
        ensures
            live@ == self@.live,
    {
        self.registry.connections()
    }

    /// Takes `event` in and returns the next step.
    pub fn step(&mut self, event: RelayEvent) -> (step: RelayStep)
        requires
            old(self).wf(),
        ensures
            final(self).wf(),
            (final(self)@, step@) == relay_next(old(self)@, event),
    {
        match event {
            RelayEvent::Accepted { arrived } => {
                if !arrived {
                    RelayStep::Poll
                } else {
                    match self.registry.register() {
                        Some(conn) => RelayStep::StartReader(conn),
                        None => RelayStep::Refuse,
                    }
                }
            },
            RelayEvent::Started => RelayStep::Poll,
            RelayEvent::Polled(None) => RelayStep::Sleep,
            RelayEvent::Polled(Some(Inbound::Message { from, text })) => {
                let frame = encode(text.as_str());
                let targets = match self.echo {
                    EchoPolicy::IncludeSender => self.registry.connections(),
                    EchoPolicy::ExcludeSender => self.registry.connections_except(from),
                };
                RelayStep::Deliver { frame, targets }
            },
            RelayEvent::Polled(Some(Inbound::Closed { conn })) => {
                let mut conns: Vec<ConnId> = Vec::new();
                conns.push(conn);
                assert(conns@ =~= seq![conn]);
                self.registry.remove_all(&conns);
                RelayStep::Drop { conns }
            },
            RelayEvent::Delivered { failed } => {
                if failed.len() == 0 {
                    RelayStep::Sleep
                } else {
                    self.registry.remove_all(&failed);
                    RelayStep::Drop { conns: failed }
                }
            },
            RelayEvent::Dropped => RelayStep::Sleep,
            RelayEvent::Slept => RelayStep::Accept,
        }
    }
}

/// Every transition keeps the registry well formed and the echo policy as
/// it is. Handles are issued in order and never twice: a connection is
/// started under a handle that the registry did not hold, and what `Drop`
/// names is registered no more.
pub proof fn lemma_relay_next_wf(state: RelayView, event: RelayEvent)
    requires
        state.wf(),
    ensures
        relay_next(state, event).0.wf(),
        relay_next(state, event).0.echo == state.echo,
        relay_next(state, event).0.issued >= state.issued,
        relay_next(state, event).1 matches RelayStepView::StartReader(conn) ==> conn
            == state.issued && !state.live.contains(conn) && relay_next(state, event).0.live
            == state.live.push(conn),
        relay_next(state, event).1 matches RelayStepView::Drop { conns } ==> forall|conn: ConnId|
            conns.contains(conn) ==> !relay_next(state, event).0.live.contains(conn),
{
    match event {
        RelayEvent::Polled(Some(Inbound::Closed { conn })) => {
            lemma_without(state.live, seq![conn]);
        },
        RelayEvent::Delivered { failed } => {
            lemma_without(state.live, failed@);
        },
        _ => {},
    }
}

/// Fan-out: a message is framed once and goes to every registered
/// connection, in registration order; to all of them where the sender is
/// included, to all but the sender where it is not. The registry is left as
/// it was.
pub proof fn lemma_fan_out(state: RelayView, from: ConnId, text: String)
    requires
        state.wf(),
    ensures
        relay_next(state, RelayEvent::Polled(Some(Inbound::Message { from, text }))) == (
            state,
            RelayStepView::Deliver {
                frame: encoded(text@),
                targets: recipients(state.live, state.echo, from),
            },
        ),
        forall|conn: ConnId|
            recipients(state.live, state.echo, from).contains(conn) <==> state.live.contains(conn)
                && (conn != from || state.echo == EchoPolicy::IncludeSender),
        state.echo == EchoPolicy::IncludeSender ==> recipients(state.live, state.echo, from).len()
            == state.live.len(),
        state.echo == EchoPolicy::ExcludeSender && state.live.contains(from) ==> recipients(
            state.live,
            state.echo,
            from,
        ).len() == state.live.len() - 1,
{
    let gone = seq![from];
    lemma_without(state.live, gone);
    assert(gone[0] == from);
    assert forall|conn: ConnId| gone.contains(conn) <==> conn == from by {}
    if state.live.contains(from) {
        lemma_without_one(state.live, from);
    }
}

/// The frames that the loop hands out for delivery while it takes in
/// `events`, one after the other, from `state`.
pub open spec fn frames_delivered(state: RelayView, events: Seq<RelayEvent>) -> Seq<Seq<u8>>
    decreases events.len(),
{
    if events.len() == 0 {
        Seq::empty()
    } else {
        let (next, step) = relay_next(state, events.first());
        let later = frames_delivered(next, events.drop_first());
        match step {
            RelayStepView::Deliver { frame, targets } => seq![frame] + later,
            _ => later,
        }
    }
}

/// The texts of the messages that the broadcast queue gave among `events`.
pub open spec fn texts_polled(events: Seq<RelayEvent>) -> Seq<Seq<char>>
    decreases events.len(),
{
    if events.len() == 0 {
        Seq::empty()
    } else {
        let later = texts_polled(events.drop_first());
        match events.first() {
            RelayEvent::Polled(Some(Inbound::Message { from, text })) => seq![text@] + later,
            _ => later,
        }
    }
}

/// Order: whatever else happens in between, the loop delivers one frame for
/// each message that the queue gives, in the order in which the queue gave
/// them. None is lost, repeated or overtaken.
pub proof fn lemma_delivery_order(state: RelayView, events: Seq<RelayEvent>)
    ensures
        frames_delivered(state, events) == texts_polled(events).map_values(
            |text: Seq<char>| encoded(text),
        ),
    decreases events.len(),
{
    let framed = |text: Seq<char>| encoded(text);
    if events.len() == 0 {
        assert(frames_delivered(state, events) =~= texts_polled(events).map_values(framed));
    } else {
        let (next, step) = relay_next(state, events.first());
        lemma_delivery_order(next, events.drop_first());
        let later = texts_polled(events.drop_first());
        match events.first() {
            RelayEvent::Polled(Some(Inbound::Message { from, text })) => {
                assert((seq![text@] + later).map_values(framed) =~= seq![encoded(text@)]
                    + later.map_values(framed));
            },
            _ => {},
        }
    }
}

/// Isolation: a failed write costs the failing connections their place and
/// nothing else. Every other connection stays registered, in the order it
/// had, and is a recipient of the next message as it was of this one; the
/// loop closes what failed, pauses once and goes on.
pub proof fn lemma_isolation(state: RelayView, failed: Vec<ConnId>, conn: ConnId)
    requires
        state.wf(),
        state.live.contains(conn),
        !failed@.contains(conn),
    ensures
        relay_next(state, RelayEvent::Delivered { failed }).0.live == without(
            state.live,
            failed@,
        ),
        relay_next(state, RelayEvent::Delivered { failed }).1 == if failed@.len() == 0 {
            RelayStepView::Sleep
        } else {
            RelayStepView::Drop { conns: failed@ }
        },
        without(state.live, failed@).contains(conn),
        forall|other: ConnId|
            without(state.live, failed@).contains(other) <==> state.live.contains(other)
                && !failed@.contains(other),
        forall|i: int, j: int|
            0 <= i < j < without(state.live, failed@).len() ==> state.live.index_of(
                without(state.live, failed@)[i],
            ) < state.live.index_of(without(state.live, failed@)[j]),
        forall|from: ConnId|
            from != conn || state.echo == EchoPolicy::IncludeSender ==> recipients(
                without(state.live, failed@),
                state.echo,
                from,
            ).contains(conn),
{
    lemma_without(state.live, failed@);
    if failed@.len() == 0 {
        lemma_without_strangers(state.live, failed@);
    }
    let left = without(state.live, failed@);
    assert forall|from: ConnId|
        from != conn || state.echo == EchoPolicy::IncludeSender implies recipients(
        left,
        state.echo,
        from,
    ).contains(conn) by {
        let gone = seq![from];
        lemma_without(left, gone);
        assert(gone[0] == from);
        assert(gone.contains(conn) ==> conn == from);
    }
}

/// No busy spin: the main loop is told to accept only after it has slept,
/// and to poll only after an accept attempt. With no connection pending and
/// no item queued, a cycle is one accept attempt, one poll and one sleep, and
/// changes nothing.
pub proof fn lemma_relay_paces(state: RelayView, event: RelayEvent)
    ensures
        relay_next(state, event).1 is Accept <==> event is Slept,
        relay_next(state, event).1 is Poll <==> event is Accepted && !event->arrived
            || event is Started,
        relay_next(state, event).1 is Deliver ==> event is Polled,
        relay_next(state, event).1 is Sleep ==> event is Polled || event is Delivered
            || event is Dropped,
        relay_next(state, RelayEvent::Slept) == (state, RelayStepView::Accept),
        relay_next(state, RelayEvent::Accepted { arrived: false }) == (state, RelayStepView::Poll),
        relay_next(state, RelayEvent::Polled(None)) == (state, RelayStepView::Sleep),
{
}

} // verus!
