//! The errors the daemon can meet, and how each is worded for the host.

use crate::text::{decimal, decimal_string};
use vstd::prelude::*;
use vstd::std_specs::convert::FromSpecImpl;
use vstd::string::StringExecFns;

verus! {

/// `std::io::Error`, carried as it is: nothing is known of what it holds.
#[verifier::external_type_specification]
#[verifier::external_body]
pub struct ExIoError(std::io::Error);

/// `rmp_serde::encode::Error`, carried as it is: nothing is known of what it
/// holds.
#[verifier::external_type_specification]
#[verifier::external_body]
pub struct ExEncodeError(rmp_serde::encode::Error);

/// `rmp_serde::decode::Error`, carried as it is: nothing is known of what it
/// holds.
#[verifier::external_type_specification]
#[verifier::external_body]
pub struct ExDecodeError(rmp_serde::decode::Error);

/// Everything that can go wrong inside the daemon.
#[derive(Debug)]
#[allow(inconsistent_fields)]
pub enum InternalError {
    /// Reading or writing an endpoint or a pipe failed, or the child could not
    /// be started.
    IoError { inner: std::io::Error },
    /// A packet could not be turned into its payload bytes.
    SerializerError { inner: rmp_serde::encode::Error },
    /// Payload bytes could not be turned into a packet.
    DeserializerError { inner: rmp_serde::decode::Error },
    /// The far end of an internal channel is gone.
    ChannelSendError,
    /// A packet announced a type that the daemon does not know.
    UnknownType { ty: u8 },
    /// The packet is not allowed in the daemon's current state.
    IllegalPacket,
    /// A frame of length zero arrived: it has no flag byte.
    EmptyFrame,
    /// A payload of `len` bytes does not fit the 16-bit length of one frame.
    FrameTooLarge { len: usize },
    /// The stream ended inside a frame.
    TruncatedFrame,
}

/// The classes into which the daemon sorts its errors.
#[derive(Copy, Clone, Debug, PartialEq, Eq, Structural)]
pub enum ErrorClass {
    /// A read or write failed, or the child could not be started.
    Io,
    /// A payload could not be encoded or decoded.
    Codec,
    /// The host broke the protocol.
    Protocol,
    /// An internal hand-off found nobody on the other side.
    Channel,
}

impl From<std::io::Error> for InternalError {
    fn from(error: std::io::Error) -> (e: InternalError) {
        InternalError::IoError { inner: error }
    }
}

impl FromSpecImpl<std::io::Error> for InternalError {
    open spec fn obeys_from_spec() -> bool {
        true
    }

    open spec fn from_spec(error: std::io::Error) -> InternalError {
        InternalError::IoError { inner: error }
    }
}

impl From<rmp_serde::encode::Error> for InternalError {
    fn from(error: rmp_serde::encode::Error) -> (e: InternalError) {
        InternalError::SerializerError { inner: error }
    }
}

impl FromSpecImpl<rmp_serde::encode::Error> for InternalError {
    open spec fn obeys_from_spec() -> bool {
        true
    }

    open spec fn from_spec(error: rmp_serde::encode::Error) -> InternalError {
        InternalError::SerializerError { inner: error }
    }
}

impl From<rmp_serde::decode::Error> for InternalError {
    fn from(error: rmp_serde::decode::Error) -> (e: InternalError) {
        InternalError::DeserializerError { inner: error }
    }
}

impl FromSpecImpl<rmp_serde::decode::Error> for InternalError {
    open spec fn obeys_from_spec() -> bool {
        true
    }

    open spec fn from_spec(error: rmp_serde::decode::Error) -> InternalError {
        InternalError::DeserializerError { inner: error }
    }
}

/// Calls the `Debug` formatting of `std::io::Error`. Nothing is claimed of the
/// text that comes back.
#[verifier::external_body]
fn io_error_detail(inner: &std::io::Error) -> (text: String) {
    format!("{:?}", inner)
}

/// Calls the `Debug` formatting of `rmp_serde::encode::Error`. Nothing is
/// claimed of the text that comes back.
#[verifier::external_body]
fn encode_error_detail(inner: &rmp_serde::encode::Error) -> (text: String) {
    format!("{:?}", inner)
}

/// Calls the `Debug` formatting of `rmp_serde::decode::Error`. Nothing is
/// claimed of the text that comes back.
#[verifier::external_body]
fn decode_error_detail(inner: &rmp_serde::decode::Error) -> (text: String) {
    format!("{:?}", inner)
}

impl InternalError {
    /// The class of this error.
    pub open spec fn class_spec(&self) -> ErrorClass {
        match self {
            InternalError::IoError { .. } => ErrorClass::Io,
            InternalError::SerializerError { .. } => ErrorClass::Codec,
            InternalError::DeserializerError { .. } => ErrorClass::Codec,
            InternalError::UnknownType { .. } => ErrorClass::Codec,
            InternalError::FrameTooLarge { .. } => ErrorClass::Codec,
            InternalError::ChannelSendError => ErrorClass::Channel,
            InternalError::IllegalPacket => ErrorClass::Protocol,
            InternalError::EmptyFrame => ErrorClass::Protocol,
            InternalError::TruncatedFrame => ErrorClass::Protocol,
        }
    }

    /// Whether the message ends in a description that the wrapped outside
    /// error supplies.
    pub open spec fn has_detail(&self) -> bool {
        match self {
            InternalError::IoError { .. } => true,
            InternalError::SerializerError { .. } => true,
            InternalError::DeserializerError { .. } => true,
            _ => false,
        }
    }

    /// The part of the message that this crate words itself: all of it, or,
    /// where an outside error is wrapped, all that stands before that error's
    /// own description.
    pub open spec fn message_head(&self) -> Seq<char> {
        match self {
            InternalError::IoError { .. } => "internal io error: "@,
            InternalError::SerializerError { .. } => "fail serializing payload: "@,
            InternalError::DeserializerError { .. } => "fail serializing payload: "@,
            InternalError::ChannelSendError => "channel transmit error; internal channel closed?"@,
            InternalError::UnknownType { ty } => "unknown packet type: "@ + decimal(*ty as nat),
            InternalError::IllegalPacket => "illegal packet for the current state"@,
            InternalError::EmptyFrame => "empty frame: the flag byte is missing"@,
            InternalError::FrameTooLarge { len } => "payload too large for one frame: "@ + decimal(
                *len as nat,
            ),
            InternalError::TruncatedFrame => "stream ended inside a frame"@,
        }
    }

    /// Sorts the error into its class.
    pub fn class(&self) -> (c: ErrorClass)
        ensures
            c == self.class_spec(),
    {
        match self {
            InternalError::IoError { .. } => ErrorClass::Io,
            InternalError::SerializerError { .. } => ErrorClass::Codec,
            InternalError::DeserializerError { .. } => ErrorClass::Codec,
            InternalError::UnknownType { .. } => ErrorClass::Codec,
            InternalError::FrameTooLarge { .. } => ErrorClass::Codec,
            InternalError::ChannelSendError => ErrorClass::Channel,
            InternalError::IllegalPacket => ErrorClass::Protocol,
            InternalError::EmptyFrame => ErrorClass::Protocol,
            InternalError::TruncatedFrame => ErrorClass::Protocol,
        }
    }

    /// Whether the daemon gives up on this error. A breach of the protocol
    /// leaves no sound way to go on; every other error is reported to the
    /// host and survived.
    pub fn is_fatal(&self) -> (fatal: bool)
        ensures
            fatal == (self.class_spec() == ErrorClass::Protocol),
    {
        match self.class() {
            ErrorClass::Protocol => true,
            _ => false,
        }
    }

    /// The text that describes this error to a reader. It begins with
    /// `message_head`; where an outside error is wrapped, that error's own
    /// description follows, and nothing else does.
    pub fn message(&self) -> (text: String)
        ensures
            self.message_head().is_prefix_of(text@),
            !self.has_detail() ==> text@ == self.message_head(),
    {
        match self {
            InternalError::IoError { inner } => {
                let detail = io_error_detail(inner);
                String::from_str("internal io error: ").concat(detail.as_str())
            },
            InternalError::SerializerError { inner } => {
                let detail = encode_error_detail(inner);
                String::from_str("fail serializing payload: ").concat(detail.as_str())
            },
            InternalError::DeserializerError { inner } => {
                let detail = decode_error_detail(inner);
                String::from_str("fail serializing payload: ").concat(detail.as_str())
            },
            InternalError::ChannelSendError => String::from_str(
                "channel transmit error; internal channel closed?",
            ),
            InternalError::UnknownType { ty } => {
                let number = decimal_string(*ty as usize);
                String::from_str("unknown packet type: ").concat(number.as_str())
            },
            InternalError::IllegalPacket => String::from_str(
                "illegal packet for the current state",
            ),
            InternalError::EmptyFrame => String::from_str("empty frame: the flag byte is missing"),
            InternalError::FrameTooLarge { len } => {
                let number = decimal_string(*len);
                String::from_str("payload too large for one frame: ").concat(number.as_str())
            },
            InternalError::TruncatedFrame => String::from_str("stream ended inside a frame"),
        }
    }
}

} // verus!
