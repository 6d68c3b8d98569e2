//! Errors of deserialisation and conversions.

use vstd::prelude::*;

use crate::packet::KinetPacketType;

verus! {

/// The kind of an input failure while reading a packet or payload.
#[derive(Debug, Clone, Copy, PartialEq, Eq)]
pub enum IoErrorKind {
    /// The input ended before the payload was complete.
    UnexpectedEof,
    /// The input held bytes that the format does not allow.
    InvalidData,
}

/// Errors that can occur from deserialisation or conversions.
#[derive(Debug, Clone, Copy, PartialEq, Eq)]
pub enum KinetError {
    /// An input error.
    Io(IoErrorKind),
    /// Packet header does not start with mandatory magic sequence.
    InvalidMagic(u32),
    /// Specified a protocol version other than 1 (`0x0001`).
    UnsupportedVersion(u16),
    /// Received a packet type code that is unrecognised.
    UnknownPacketType(u16),
    /// Valid packet code detected, but parsing hasn't been implemented by this library yet.
    UnimplementedPacketType(KinetPacketType),
    /// A type conversion failed because we held a different variant than requested.
    MismatchedPacketType { expected: KinetPacketType, actual: KinetPacketType },
}

} // verus!
