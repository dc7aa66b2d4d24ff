//! What the transports decide without touching the network: the STUN
//! messages of NAT discovery, the tokens of the relay, and the pinning of
//! relay certificates. Sockets, streams and handshakes belong to the caller.

pub mod quic;
pub mod relay;
pub mod stun;

pub use quic::PinnedCertVerifier;
pub use relay::RelayAuth;
pub use stun::MappedAddress;

use vstd::prelude::*;
use vstd::string::StringExecFns;

verus! {

/// The error of an input or output operation of the standard library.
#[verifier::external_type_specification]
#[verifier::external_body]
pub struct ExIoError(std::io::Error);

/// What can go wrong in a transport.
#[derive(Debug)]
pub enum TransportError {
    ConnectionFailed(String),
    SendFailed(String),
    ReceiveFailed(String),
    NatTraversalFailed(String),
    RelayError(String),
    Io(std::io::Error),
}

/// Formats an input or output error with `{}`. Nothing is claimed of the
/// text: it is the operating system's.
#[verifier::external_body]
pub(crate) fn io_error_text(e: &std::io::Error) -> String {
    format!("{}", e)
}

impl TransportError {
    /// What the message of the error begins with.
    pub open spec fn message_head(&self) -> Seq<char> {
        match self {
            TransportError::ConnectionFailed(_) => "Connection failed: "@,
            TransportError::SendFailed(_) => "Send failed: "@,
            TransportError::ReceiveFailed(_) => "Receive failed: "@,
            TransportError::NatTraversalFailed(_) => "NAT traversal failed: "@,
            TransportError::RelayError(_) => "Relay error: "@,
            TransportError::Io(_) => "IO error: "@,
        }
    }

    /// The detail that the error carries; for an error of the operating
    /// system it is not known here.
    pub open spec fn detail(&self) -> Option<Seq<char>> {
        match self {
            TransportError::ConnectionFailed(text) => Some(text@),
            TransportError::SendFailed(text) => Some(text@),
            TransportError::ReceiveFailed(text) => Some(text@),
            TransportError::NatTraversalFailed(text) => Some(text@),
            TransportError::RelayError(text) => Some(text@),
            TransportError::Io(_) => None,
        }
    }

    /// The message of the error: its head, then its detail.
    pub fn message(&self) -> (s: String)
        ensures
            s@.len() >= self.message_head().len(),
            s@.subrange(0, self.message_head().len() as int) == self.message_head(),
            self.detail() matches Some(detail) ==> s@ == self.message_head() + detail,
    {
        let (head, detail) = match self {
            TransportError::ConnectionFailed(text) => ("Connection failed: ", text.clone()),
            TransportError::SendFailed(text) => ("Send failed: ", text.clone()),
            TransportError::ReceiveFailed(text) => ("Receive failed: ", text.clone()),
            TransportError::NatTraversalFailed(text) => ("NAT traversal failed: ", text.clone()),
            TransportError::RelayError(text) => ("Relay error: ", text.clone()),
            TransportError::Io(e) => ("IO error: ", io_error_text(e)),
        };
        let s = String::from_str(head).concat(detail.as_str());
        assert(s@.subrange(0, head@.len() as int) =~= head@);
        s
    }
}

/// The result of a transport operation.
pub type TransportResult<T> = Result<T, TransportError>;

} // verus!
