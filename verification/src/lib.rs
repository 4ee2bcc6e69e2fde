//! A minimal text-broadcast relay, stated as verified decisions.
//!
//! One server accepts connections and rebroadcasts every message it receives;
//! a companion client sends console lines and prints what the server
//! broadcasts. Both sides exchange fixed-size, zero-padded frames over a
//! non-blocking, polled transport.
//!
//! This crate holds everything the two programs decide: how text becomes a
//! frame and back, what a task does after each I/O outcome, and which
//! connections stay registered. Sockets, threads, queues and the clock stay
//! with the caller, who performs each requested action and reports its outcome.

pub mod client;
pub mod console;
pub mod framing;
pub mod reader;
pub mod registry;
pub mod relay;
pub mod round_trip;
pub mod transport;
