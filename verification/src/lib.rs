//! Executor-side core of a distributed build protocol: the registration
//! handshake, the message-dispatch state machine, and the classification of
//! read failures into graceful disconnects and fatal protocol errors.
//!
//! The library is pure: it decides, and the surrounding process performs.
//! The caller reads messages off the wire, hands them to the session as
//! events (a decoded message, a classified read failure, or the outcome of
//! a job execution), and carries out the actions the session returns:
//! sending a message back or running a job.

pub mod classify;
pub mod config;
pub mod handshake;
pub mod msg;
pub mod session;
