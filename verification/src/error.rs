//! The errors of decoding and of a protocol stream.
use vstd::prelude::*;

verus! {

#[verifier::external_type_specification]
#[verifier::external_body]
pub struct ExIoError(std::io::Error);

/// Why bytes could not be decoded.
#[derive(Debug, Clone, Copy, PartialEq, Eq, Structural)]
pub enum DecodeError {
    /// The packet's opcode names no packet of its kind.
    UnrecognizedOpcode,
    /// Fewer bytes were left than a length or a field called for.
    MalformedLength,
    /// The data ended where more was expected.
    UnexpectedEof,
}

/// The text that each [`DecodeError`] is shown with.
pub open spec fn decode_error_message(e: DecodeError) -> Seq<char> {
    match e {
        DecodeError::UnrecognizedOpcode => "Failed to decode packet because opcode was unrecognized."@,
        DecodeError::MalformedLength => "Failed to decode packet because the length was formed in a way exceeding any respectable size for a packet."@,
        DecodeError::UnexpectedEof => "Failed to decode because there was a unexpected end of data."@,
    }
}

impl DecodeError {
    /// The text that the error is shown with.
    pub fn message(&self) -> (m: &'static str)
        ensures
            m@ == decode_error_message(*self),
    {
        match self {
            DecodeError::UnrecognizedOpcode => "Failed to decode packet because opcode was unrecognized.",
            DecodeError::MalformedLength => "Failed to decode packet because the length was formed in a way exceeding any respectable size for a packet.",
            DecodeError::UnexpectedEof => "Failed to decode because there was a unexpected end of data.",
        }
    }
}

/// Why a packet could not be exchanged over a stream: the stream failed, or
/// what it carried did not decode.
#[derive(Debug)]
pub enum ProtocolError {
    Io(std::io::Error),
    Decode(DecodeError),
}

impl From<DecodeError> for ProtocolError {
    fn from(e: DecodeError) -> (r: ProtocolError)
        ensures
            r == ProtocolError::Decode(e),
    {
        ProtocolError::Decode(e)
    }
}

impl vstd::std_specs::convert::FromSpecImpl<DecodeError> for ProtocolError {
    open spec fn obeys_from_spec() -> bool {
        true
    }

    open spec fn from_spec(e: DecodeError) -> ProtocolError {
        ProtocolError::Decode(e)
    }
}

impl From<std::io::Error> for ProtocolError {
    fn from(e: std::io::Error) -> (r: ProtocolError)
        ensures
            r == ProtocolError::Io(e),
    {
        ProtocolError::Io(e)
    }
}

impl vstd::std_specs::convert::FromSpecImpl<std::io::Error> for ProtocolError {
    open spec fn obeys_from_spec() -> bool {
        true
    }

    open spec fn from_spec(e: std::io::Error) -> ProtocolError {
        ProtocolError::Io(e)
    }
}

} // verus!
