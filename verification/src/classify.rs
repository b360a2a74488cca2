//! The error classifier: partitions a failure met while reading the next
//! message into "peer disconnected, shut down gracefully" and "protocol
//! violation, abort".

use vstd::prelude::*;

verus! {

/// What a failed read of the next message showed, reduced to the facts the
/// classifier inspects. The first three arise while waiting for the first
/// byte of the next message; `Truncated` covers a stream that broke off or
/// was malformed inside a message, `OtherIo` any other transport error met
/// between messages.
#[derive(Clone, Copy, Debug, PartialEq, Eq, Structural)]
pub enum ReadFailure {
    /// The peer reset the connection between messages.
    ConnectionReset,
    /// The peer aborted the connection between messages.
    ConnectionAborted,
    /// Clean end of stream before the next message began.
    EndOfStream,
    /// Any other transport error met between messages.
    OtherIo,
    /// The stream ended or was malformed inside a message.
    Truncated,
}

/// The classifier's decision: continue shutting down cleanly, or abort.
#[derive(Clone, Copy, Debug, PartialEq, Eq, Structural)]
pub enum Disposition {
    /// The peer closed the connection while the executor awaited the next
    /// command: exit the loop, report success.
    Graceful,
    /// Anything else: a fatal protocol error, report failure.
    Fatal,
}

/// A read failure counts as a disconnect exactly when the peer closed the
/// connection (reset, aborted, or clean end of stream) while the executor
/// was waiting for the next command.
pub open spec fn is_disconnect(f: ReadFailure) -> bool {
    ||| f is ConnectionReset
    ||| f is ConnectionAborted
    ||| f is EndOfStream
}

/// Decide the disposition of a read failure: graceful shutdown exactly for
/// a peer disconnect met between messages, fatal for everything else.
pub fn classify(f: ReadFailure) -> (d: Disposition)
    ensures
        d is Graceful <==> is_disconnect(f),
{
    match f {
        ReadFailure::ConnectionReset => Disposition::Graceful,
        ReadFailure::ConnectionAborted => Disposition::Graceful,
        ReadFailure::EndOfStream => Disposition::Graceful,
        ReadFailure::OtherIo => Disposition::Fatal,
        ReadFailure::Truncated => Disposition::Fatal,
    }
}

} // verus!
