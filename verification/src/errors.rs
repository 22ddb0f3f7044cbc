//! The errors of the connection, by who sees them.

use vstd::prelude::*;

verus! {

/// Why a text frame could not be read as an envelope. Either way the
/// dispatcher stops.
#[derive(Debug, PartialEq, Eq)]
pub enum CodecError {
    /// The frame is not a JSON object, or it is a response or an event whose
    /// members are missing or of the wrong kind. Carries the frame.
    Malformed(String),
    /// The frame is a JSON object that is neither a response nor an event.
    /// Carries the frame.
    Unexpected(String),
}

/// What a [`CodecError`] stands for.
pub enum CodecErrorView {
    Malformed(Seq<char>),
    Unexpected(Seq<char>),
}

impl View for CodecError {
    type V = CodecErrorView;

    open spec fn view(&self) -> CodecErrorView {
        match self {
            CodecError::Malformed(text) => CodecErrorView::Malformed(text@),
            CodecError::Unexpected(text) => CodecErrorView::Unexpected(text@),
        }
    }
}

/// Why the dispatcher stopped, and with it why the calls that waited were
/// failed.
#[derive(Debug, PartialEq, Eq)]
pub enum Fault {
    /// The transport failed while reading.
    Transport,
    /// A frame was not text.
    NotText,
    /// A text frame, or the message of a target inside one, was no envelope.
    Codec(CodecError),
    /// The inbound stream ended, or the host gave the connection up.
    Shutdown,
}

/// What a [`Fault`] stands for.
pub enum FaultView {
    Transport,
    NotText,
    Codec(CodecErrorView),
    Shutdown,
}

impl View for Fault {
    type V = FaultView;

    open spec fn view(&self) -> FaultView {
        match self {
            Fault::Transport => FaultView::Transport,
            Fault::NotText => FaultView::NotText,
            Fault::Codec(error) => FaultView::Codec(error@),
            Fault::Shutdown => FaultView::Shutdown,
        }
    }
}

/// What an optional fault stands for.
pub open spec fn fault_view(fault: Option<Fault>) -> Option<FaultView> {
    match fault {
        Some(f) => Some(f@),
        None => None,
    }
}

/// A failure of the transport under the connection.
#[derive(Debug, Clone, Copy, PartialEq, Eq)]
pub enum TransportError {
    /// The endpoint refused the handshake or could not be reached.
    Connect,
    /// A frame could not be written.
    Send,
}

/// What the caller of a method can be told instead of a result.
#[derive(Debug, PartialEq, Eq)]
pub enum ConnectionError {
    /// The transport failed under this call.
    Transport(TransportError),
    /// The browser answered the call with an error.
    Protocol { code: i64, message: String },
    /// The browser answered, and the result is not of the shape that the
    /// method declares.
    ShapeMismatch,
    /// The dispatcher stopped before an answer came, or had stopped already.
    Closed,
}

/// What a [`ConnectionError`] stands for.
pub enum ConnectionErrorView {
    Transport(TransportError),
    Protocol { code: i64, message: Seq<char> },
    ShapeMismatch,
    Closed,
}

impl View for ConnectionError {
    type V = ConnectionErrorView;

    open spec fn view(&self) -> ConnectionErrorView {
        match self {
            ConnectionError::Transport(e) => ConnectionErrorView::Transport(*e),
            ConnectionError::Protocol { code, message } => ConnectionErrorView::Protocol {
                code: *code,
                message: message@,
            },
            ConnectionError::ShapeMismatch => ConnectionErrorView::ShapeMismatch,
            ConnectionError::Closed => ConnectionErrorView::Closed,
        }
    }
}

} // verus!
