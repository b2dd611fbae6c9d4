//! What goes wrong in a conversation, apart from the connection itself.

use vstd::prelude::*;

verus! {

/// Why a conversation ended without its result.
#[derive(Clone, Debug, PartialEq, Eq)]
pub enum TransportError {
    /// The peer left the protocol, as the message says.
    Protocol(String),
    /// What arrived while doing this was not text.
    Garbled(String),
    /// The peer refused, and may not refuse another time.
    Retryable(String),
    /// The peer refused, and will refuse again.
    Permanent(String),
    /// A connection broke, in a way that its owner saw.
    Broken,
}

/// A [`TransportError`] by what its message says.
pub enum ErrorView {
    Protocol(Seq<char>),
    Garbled(Seq<char>),
    Retryable(Seq<char>),
    Permanent(Seq<char>),
    Broken,
}

impl View for TransportError {
    type V = ErrorView;

    open spec fn view(&self) -> ErrorView {
        match self {
            TransportError::Protocol(message) => ErrorView::Protocol(message@),
            TransportError::Garbled(doing) => ErrorView::Garbled(doing@),
            TransportError::Retryable(message) => ErrorView::Retryable(message@),
            TransportError::Permanent(message) => ErrorView::Permanent(message@),
            TransportError::Broken => ErrorView::Broken,
        }
    }
}

/// The peer left the protocol in this way.
pub fn protocol_error(message: &str) -> (error: TransportError)
    ensures
        error@ == ErrorView::Protocol(message@),
{
    TransportError::Protocol(message.to_owned())
}

} // verus!
