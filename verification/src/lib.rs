//! Core of a supervisor daemon that sits between a host and one child process.
//!
//! The host talks to the daemon over a single byte stream. Everything on that
//! stream is framed: a two-byte big-endian length, then that many bytes. This
//! crate holds the parts of the daemon that decide and compute: the packet
//! model, the frame codec, the daemon's state machine, the outbound queue,
//! the shutdown signal and the step functions of the workers. Reading,
//! writing, spawning, waiting and the sharing between threads are left to the
//! program that drives these functions, and so is the encoding of a packet
//! as payload bytes.

pub mod chain;
pub mod error;
pub mod frame;
pub mod outbox;
pub mod packet;
pub mod reader;
pub mod server;
pub mod shutdown;
pub mod text;
pub mod worker;
