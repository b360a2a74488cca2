//! The registration handshake: the message that opens it and the check on
//! the one message read in answer. Any answer other than a registration
//! response is a fatal handshake violation; the caller must not proceed.

use vstd::prelude::*;

use crate::classify::ReadFailure;
use crate::msg::Message;

verus! {

/// Why the handshake failed. Both failures are equally fatal: unlike the
/// dispatch loop, the handshake recovers from nothing, not even from a
/// peer disconnect.
#[derive(Clone, Copy, Debug, PartialEq, Eq, Structural)]
pub enum HandshakeError {
    /// The answer decoded, but was not a registration response.
    UnexpectedVariant,
    /// The answer could not be read or decoded at all.
    Unreadable,
}

/// The message that opens the registration exchange.
pub fn register_request() -> (m: Message)
    ensures
        m is RegisterRequest,
{
    Message::RegisterRequest
}

/// Accept or reject the first message read after the registration request
/// was sent. A registration response yields the identity the session is
/// bound to, exactly as assigned; any other variant is a violation.
pub fn accept_registration(resp: Message) -> (r: Result<String, HandshakeError>)
    ensures
        resp matches Message::RegisterResponse { id } ==> r matches Ok(got) && got == id,
        !(resp is RegisterResponse) ==> r == Err::<String, HandshakeError>(
            HandshakeError::UnexpectedVariant,
        ),
{
    match resp {
        Message::RegisterResponse { id } => Ok(id),
        _ => Err(HandshakeError::UnexpectedVariant),
    }
}

/// Complete the handshake from the outcome of reading the answer. A failed
/// read is fatal here whatever it showed: a disconnect during registration
/// is never a graceful shutdown.
pub fn complete_registration(read: Result<Message, ReadFailure>) -> (r: Result<
    String,
    HandshakeError,
>)
    ensures
        read matches Ok(Message::RegisterResponse { id }) ==> r matches Ok(got) && got == id,
        read matches Ok(m) ==> (!(m is RegisterResponse) ==> r == Err::<String, HandshakeError>(
            HandshakeError::UnexpectedVariant,
        )),
        read is Err ==> r == Err::<String, HandshakeError>(HandshakeError::Unreadable),
{
    match read {
        Ok(m) => accept_registration(m),
        Err(_) => Err(HandshakeError::Unreadable),
    }
}

} // verus!
