//! Outcomes of the non-blocking transport, as the tasks see them.
//!
//! The caller owns the stream. It reports what one read attempt gave, and
//! `read_frame` says what that means: a whole frame, nothing yet, or a
//! connection that is gone. A read never yields part of a frame.

use crate::framing::{Frame, MSG_SIZE};
use vstd::prelude::*;

verus! {

/// The endpoint that the server listens on and the client connects to.
pub const LOCAL: &'static str = "127.0.0.1:6000";

/// Milliseconds a task waits between two polls.
pub const POLL_INTERVAL_MS: u64 = 100;

/// What one attempt to read from a non-blocking stream reported.
#[derive(Debug, PartialEq, Eq)]
pub enum ReadAttempt {
    /// The bytes that the read delivered.
    Received(Vec<u8>),
    /// No data is available yet.
    WouldBlock,
    /// The stream reported any other error, or its end.
    Failed,
}

/// What a task learns from one attempt to read a frame.
#[derive(Debug, PartialEq, Eq)]
pub enum ReadOutcome {
    /// One complete frame.
    Frame(Frame),
    /// No data yet: not an error, the task polls again.
    WouldBlock,
    /// The peer is gone or sent something that is no frame: fatal for this
    /// connection.
    ConnectionClosed,
}

/// A `ReadOutcome` with its frame as a sequence of bytes.
pub enum ReadOutcomeView {
    Frame(Seq<u8>),
    WouldBlock,
    ConnectionClosed,
}

impl View for ReadOutcome {
    type V = ReadOutcomeView;

    open spec fn view(&self) -> ReadOutcomeView {
        match self {
            ReadOutcome::Frame(frame) => ReadOutcomeView::Frame(frame@),
            ReadOutcome::WouldBlock => ReadOutcomeView::WouldBlock,
            ReadOutcome::ConnectionClosed => ReadOutcomeView::ConnectionClosed,
        }
    }
}

/// The meaning of a read attempt: exactly `MSG_SIZE` received bytes are a
/// frame, a would-block is passed on, and everything else closes the
/// connection.
pub open spec fn frame_read(attempt: ReadAttempt) -> ReadOutcomeView {
    match attempt {
        ReadAttempt::Received(bytes) => if bytes@.len() == MSG_SIZE {
            ReadOutcomeView::Frame(bytes@)
        } else {
            ReadOutcomeView::ConnectionClosed
        },
        ReadAttempt::WouldBlock => ReadOutcomeView::WouldBlock,
        ReadAttempt::Failed => ReadOutcomeView::ConnectionClosed,
    }
}

/// Classifies one read attempt.
pub fn read_frame(attempt: &ReadAttempt) -> (outcome: ReadOutcome)
    ensures
        outcome@ == frame_read(*attempt),
{
    match attempt {
        ReadAttempt::Received(bytes) => match Frame::from_bytes(bytes.as_slice()) {
            Some(frame) => ReadOutcome::Frame(frame),
            None => ReadOutcome::ConnectionClosed,
        },
        ReadAttempt::WouldBlock => ReadOutcome::WouldBlock,
        ReadAttempt::Failed => ReadOutcome::ConnectionClosed,
    }
}

} // verus!
