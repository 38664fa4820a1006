use vstd::prelude::*;

verus! {

/// The ways in which decoding a CoIoT response can fail.
#[derive(Debug, Clone, PartialEq, Eq)]
pub enum DecodeError {
    /// A request or a socket operation failed.
    Transport,
    /// A payload or an option value is not valid UTF-8 text.
    Encoding,
    /// A JSON document does not have the expected shape; carries the
    /// document pretty-printed, where that was possible.
    Schema(Option<String>),
    /// The device-id lacks a `#` separator or its version tag is not numeric.
    MalformedIdentity,
    /// A datagram is not a well-formed CoAP message.
    MalformedPacket,
}

} // verus!
