//! The server's connection reader: one task per accepted peer.
//!
//! The task asks for one step at a time. It performs the step, reports what
//! happened as an event, and `reader_step` answers with the next step:
//!
//! ```text
//! Read --frame, valid text--> Enqueue(message) --accepted--> Sleep --> Read
//!      --nothing yet--------> Sleep --> Read
//!      --closed, or no text-> Finish(closing notice)
//! ```

use crate::framing::{decode, decoded};
use crate::registry::ConnId;
use crate::transport::{ReadOutcome, ReadOutcomeView};
use vstd::prelude::*;

verus! {

/// One item of the broadcast queue.
#[derive(Debug, PartialEq, Eq)]
pub enum Inbound {
    /// Text that connection `from` sent.
    Message { from: ConnId, text: String },
    /// Connection `conn` has ended and is to leave the registry.
    Closed { conn: ConnId },
}

/// An `Inbound` with its text as a sequence of characters.
pub enum InboundView {
    Message { from: ConnId, text: Seq<char> },
    Closed { conn: ConnId },
}

impl View for Inbound {
    type V = InboundView;

    open spec fn view(&self) -> InboundView {
        match self {
            Inbound::Message { from, text } => InboundView::Message { from: *from, text: text@ },
            Inbound::Closed { conn } => InboundView::Closed { conn: *conn },
        }
    }
}

/// What a connection reader reports after a step.
#[derive(Debug, PartialEq, Eq)]
pub enum ReaderEvent {
    /// The outcome of the read attempt.
    Read(ReadOutcome),
    /// The item was handed to the broadcast queue; `accepted` is false where
    /// the queue has lost its receiver.
    Enqueued { accepted: bool },
    /// The polling interval has passed.
    Slept,
}

/// What a connection reader does next.
#[derive(Debug, PartialEq, Eq)]
pub enum ReaderStep {
    /// Attempt to read one frame from the connection.
    Read,
    /// Put this item on the broadcast queue.
    Enqueue(Inbound),
    /// Wait one polling interval.
    Sleep,
    /// Put this last item on the broadcast queue, then end the task.
    Finish(Inbound),
    /// End the task.
    Stop,
}

/// A `ReaderStep` with its item as an `InboundView`.
pub enum ReaderStepView {
    Read,
    Enqueue(InboundView),
    Sleep,
    Finish(InboundView),
    Stop,
}

impl View for ReaderStep {
    type V = ReaderStepView;

    open spec fn view(&self) -> ReaderStepView {
        match self {
            ReaderStep::Read => ReaderStepView::Read,
            ReaderStep::Enqueue(item) => ReaderStepView::Enqueue(item@),
            ReaderStep::Sleep => ReaderStepView::Sleep,
            ReaderStep::Finish(item) => ReaderStepView::Finish(item@),
            ReaderStep::Stop => ReaderStepView::Stop,
        }
    }
}

/// The reader of connection `conn`: a frame of valid text is passed on under
/// the sender's handle; nothing to read means a pause; a closed connection
/// or a frame that is no text ends the task with a closing notice; a queue
/// without receiver ends it at once.
pub open spec fn reader_next(conn: ConnId, event: ReaderEvent) -> ReaderStepView {
    match event {
        ReaderEvent::Read(outcome) => match outcome@ {
            ReadOutcomeView::Frame(frame) => match decoded(frame) {
                Some(text) => ReaderStepView::Enqueue(InboundView::Message { from: conn, text }),
                None => ReaderStepView::Finish(InboundView::Closed { conn }),
            },
            ReadOutcomeView::WouldBlock => ReaderStepView::Sleep,
            ReadOutcomeView::ConnectionClosed => ReaderStepView::Finish(
                InboundView::Closed { conn },
            ),
        },
        ReaderEvent::Enqueued { accepted } => if accepted {
            ReaderStepView::Sleep
        } else {
            ReaderStepView::Stop
        },
        ReaderEvent::Slept => ReaderStepView::Read,
    }
}

/// The next step of the reader of connection `conn` after `event`.
pub fn reader_step(conn: ConnId, event: ReaderEvent) -> (step: ReaderStep)
    ensures
        step@ == reader_next(conn, event),
{
    match event {
        ReaderEvent::Read(ReadOutcome::Frame(frame)) => match decode(&frame) {
            Ok(text) => ReaderStep::Enqueue(Inbound::Message { from: conn, text }),
            Err(_) => ReaderStep::Finish(Inbound::Closed { conn }),
        },
        ReaderEvent::Read(ReadOutcome::WouldBlock) => ReaderStep::Sleep,
        ReaderEvent::Read(ReadOutcome::ConnectionClosed) => ReaderStep::Finish(
            Inbound::Closed { conn },
        ),
        ReaderEvent::Enqueued { accepted } => if accepted {
            ReaderStep::Sleep
        } else {
            ReaderStep::Stop
        },
        ReaderEvent::Slept => ReaderStep::Read,
    }
}

/// No busy spin: a reader is told to read only after it has slept, and an
/// idle reader does nothing between two reads but sleep once.
pub proof fn lemma_reader_paces(conn: ConnId, event: ReaderEvent)
    ensures
        reader_next(conn, event) is Read <==> event is Slept,
        event matches ReaderEvent::Read(ReadOutcome::WouldBlock) ==> reader_next(conn, event)
            is Sleep,
{
}

} // verus!
