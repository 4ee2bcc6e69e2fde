//! The client's network task: one loop that shows what the server
//! broadcasts and sends what the console queued.
//!
//! ```text
//! Read --frame, valid text--> Show(text) --> Poll
//!      --frame, no text, or nothing yet--> Poll
//!      --closed--> Stop
//! Poll --message--> Send(frame) --written--> Sleep --> Read
//!                               --failed---> Stop
//!      --nothing--> Sleep --> Read
//!      --queue gone--> Stop
//! ```

use crate::framing::{decode, decoded, encode, encoded, Frame};
use crate::transport::{ReadOutcome, ReadOutcomeView};
use vstd::prelude::*;

verus! {

/// What one non-blocking poll of the outbound queue gave.
#[derive(Debug, PartialEq, Eq)]
pub enum Polled {
    /// The oldest queued message.
    Message(String),
    /// The queue is empty.
    Empty,
    /// The queue is empty and has lost its sender.
    Disconnected,
}

/// What the network task reports after a step.
#[derive(Debug, PartialEq, Eq)]
pub enum ClientEvent {
    /// The outcome of the read attempt.
    Read(ReadOutcome),
    /// The received message was printed.
    Shown,
    /// The outbound queue was polled.
    Polled(Polled),
    /// The frame was written, or the write failed.
    Sent { delivered: bool },
    /// The polling interval has passed.
    Slept,
}

/// Why the network task ends.
#[derive(Clone, Copy, Debug, PartialEq, Eq, Structural)]
pub enum ClientStop {
    /// The connection to the server is closed.
    ServerGone,
    /// A frame could not be written.
    WriteFailed,
    /// The console loop has ended.
    QueueGone,
}

/// What the network task does next.
#[derive(Debug, PartialEq, Eq)]
pub enum ClientStep {
    /// Attempt to read one frame from the server.
    Read,
    /// Print this received message.
    Show(String),
    /// Take at most one message from the outbound queue, without blocking.
    Poll,
    /// Write this frame to the server.
    Send(Frame),
    /// Wait one polling interval.
    Sleep,
    /// End the task; the console loop is to end too.
    Stop(ClientStop),
}

/// A `ClientStep` over sequences.
pub enum ClientStepView {
    Read,
    Show(Seq<char>),
    Poll,
    Send(Seq<u8>),
    Sleep,
    Stop(ClientStop),
}

impl View for ClientStep {
    type V = ClientStepView;

    open spec fn view(&self) -> ClientStepView {
        match self {
            ClientStep::Read => ClientStepView::Read,
            ClientStep::Show(text) => ClientStepView::Show(text@),
            ClientStep::Poll => ClientStepView::Poll,
            ClientStep::Send(frame) => ClientStepView::Send(frame@),
            ClientStep::Sleep => ClientStepView::Sleep,
            ClientStep::Stop(reason) => ClientStepView::Stop(*reason),
        }
    }
}

/// The network task: a received frame is shown where it decodes and skipped
/// where it does not; a queued message is framed and sent; a closed
/// connection, a failed write and a vanished queue each end the task.
pub open spec fn client_next(event: ClientEvent) -> ClientStepView {
    match event {
        ClientEvent::Read(outcome) => match outcome@ {
            ReadOutcomeView::Frame(frame) => match decoded(frame) {
                Some(text) => ClientStepView::Show(text),
                None => ClientStepView::Poll,
            },
            ReadOutcomeView::WouldBlock => ClientStepView::Poll,
            ReadOutcomeView::ConnectionClosed => ClientStepView::Stop(ClientStop::ServerGone),
        },
        ClientEvent::Shown => ClientStepView::Poll,
        ClientEvent::Polled(Polled::Message(text)) => ClientStepView::Send(encoded(text@)),
        ClientEvent::Polled(Polled::Empty) => ClientStepView::Sleep,
        ClientEvent::Polled(Polled::Disconnected) => ClientStepView::Stop(ClientStop::QueueGone),
        ClientEvent::Sent { delivered } => if delivered {
            ClientStepView::Sleep
        } else {
            ClientStepView::Stop(ClientStop::WriteFailed)
        },
        ClientEvent::Slept => ClientStepView::Read,
    }
}

/// The next step of the network task after `event`. The task begins with
/// `ClientStep::Read`.
pub fn client_step(event: ClientEvent) -> (step: ClientStep)
    ensures
        step@ == client_next(event),
{
    match event {
        ClientEvent::Read(ReadOutcome::Frame(frame)) => match decode(&frame) {
            Ok(text) => ClientStep::Show(text),
            Err(_) => ClientStep::Poll,
        },
        ClientEvent::Read(ReadOutcome::WouldBlock) => ClientStep::Poll,
        ClientEvent::Read(ReadOutcome::ConnectionClosed) => ClientStep::Stop(
            ClientStop::ServerGone,
        ),
        ClientEvent::Shown => ClientStep::Poll,
        ClientEvent::Polled(Polled::Message(text)) => ClientStep::Send(encode(text.as_str())),
        ClientEvent::Polled(Polled::Empty) => ClientStep::Sleep,
        ClientEvent::Polled(Polled::Disconnected) => ClientStep::Stop(ClientStop::QueueGone),
        ClientEvent::Sent { delivered } => if delivered {
            ClientStep::Sleep
        } else {
            ClientStep::Stop(ClientStop::WriteFailed)
        },
        ClientEvent::Slept => ClientStep::Read,
    }
}

/// No busy spin: the network task is told to read only after it has slept,
/// and to write only for a message that the queue gave. With nothing to read
/// and nothing queued, a cycle is one read attempt, one poll and one sleep.
pub proof fn lemma_client_paces(event: ClientEvent)
    ensures
        client_next(event) is Read <==> event is Slept,
        client_next(event) is Send <==> event matches ClientEvent::Polled(Polled::Message(_)),
        client_next(ClientEvent::Read(ReadOutcome::WouldBlock)) == ClientStepView::Poll,
        client_next(ClientEvent::Polled(Polled::Empty)) == ClientStepView::Sleep,
        client_next(ClientEvent::Slept) == ClientStepView::Read,
{
}

} // verus!
