//! Packet types and the packet header.

use vstd::prelude::*;

use crate::bytes::{
    be_u32, le_u16, lemma_be_u32_bytes, lemma_le_u16_bytes, lemma_u16_le_roundtrip, push_u16_le,
    push_u32_be, read_u16_le, read_u32_be, u16_le, u32_be,
};
use crate::error::{IoErrorKind, KinetError};
use crate::payload::{DmxOutHeader, KinetPayload, PollPayload, PollReplyPayload};

verus! {

/// Type code of a KiNET v1 packet.
#[derive(Debug, Clone, Copy, PartialEq, Eq)]
pub enum KinetPacketType {
    /// `DiscoverSupplies`
    Poll,
    /// `DiscoverSuppliesReply`
    PollReply,
    SetIp,
    SetUniverse,
    SetName,
    DmxOut,
    DiscoverFixturesSerialRequest,
    DiscoverFixturesSerialReply,
    /// Get DMX address
    DiscoverFixturesChannelRequest,
}

impl KinetPacketType {
    /// The wire code of this packet type.
    pub open spec fn spec_code(self) -> u16 {
        match self {
            KinetPacketType::Poll => 0x0001,
            KinetPacketType::PollReply => 0x0002,
            KinetPacketType::SetIp => 0x0003,
            KinetPacketType::SetUniverse => 0x0005,
            KinetPacketType::SetName => 0x0006,
            KinetPacketType::DmxOut => 0x0101,
            KinetPacketType::DiscoverFixturesSerialRequest => 0x0201,
            KinetPacketType::DiscoverFixturesSerialReply => 0x0202,
            KinetPacketType::DiscoverFixturesChannelRequest => 0x0203,
        }
    }

    /// The wire code of this packet type.
    pub fn code(self) -> (c: u16)
        ensures
            c == self.spec_code(),
    {
        match self {
            KinetPacketType::Poll => 0x0001,
            KinetPacketType::PollReply => 0x0002,
            KinetPacketType::SetIp => 0x0003,
            KinetPacketType::SetUniverse => 0x0005,
            KinetPacketType::SetName => 0x0006,
            KinetPacketType::DmxOut => 0x0101,
            KinetPacketType::DiscoverFixturesSerialRequest => 0x0201,
            KinetPacketType::DiscoverFixturesSerialReply => 0x0202,
            KinetPacketType::DiscoverFixturesChannelRequest => 0x0203,
        }
    }

    /// The packet type with wire code `c`, if any.
    pub open spec fn spec_from_code(c: u16) -> Option<KinetPacketType> {
        if c == 0x0001 {
            Some(KinetPacketType::Poll)
        } else if c == 0x0002 {
            Some(KinetPacketType::PollReply)
        } else if c == 0x0003 {
            Some(KinetPacketType::SetIp)
        } else if c == 0x0005 {
            Some(KinetPacketType::SetUniverse)
        } else if c == 0x0006 {
            Some(KinetPacketType::SetName)
        } else if c == 0x0101 {
            Some(KinetPacketType::DmxOut)
        } else if c == 0x0201 {
            Some(KinetPacketType::DiscoverFixturesSerialRequest)
        } else if c == 0x0202 {
            Some(KinetPacketType::DiscoverFixturesSerialReply)
        } else if c == 0x0203 {
            Some(KinetPacketType::DiscoverFixturesChannelRequest)
        } else {
            None
        }
    }

    /// The packet type with wire code `c`, if any.
    pub fn from_code(c: u16) -> (r: Option<KinetPacketType>)
        ensures
            r == Self::spec_from_code(c),
            r matches Some(t) ==> t.spec_code() == c,
            r is None ==> forall|t: KinetPacketType| t.spec_code() != c,
    {
        if c == 0x0001 {
            Some(KinetPacketType::Poll)
        } else if c == 0x0002 {
            Some(KinetPacketType::PollReply)
        } else if c == 0x0003 {
            Some(KinetPacketType::SetIp)
        } else if c == 0x0005 {
            Some(KinetPacketType::SetUniverse)
        } else if c == 0x0006 {
            Some(KinetPacketType::SetName)
        } else if c == 0x0101 {
            Some(KinetPacketType::DmxOut)
        } else if c == 0x0201 {
            Some(KinetPacketType::DiscoverFixturesSerialRequest)
        } else if c == 0x0202 {
            Some(KinetPacketType::DiscoverFixturesSerialReply)
        } else if c == 0x0203 {
            Some(KinetPacketType::DiscoverFixturesChannelRequest)
        } else {
            None
        }
    }
}

/// Each packet type's code decodes to that packet type again.
pub proof fn law_packet_type_code_roundtrip(t: KinetPacketType)
    ensures
        KinetPacketType::spec_from_code(t.spec_code()) == Some(t),
{
}

/// Serialisable packets
///
/// For `DmxOut` does not include DMX512 data
#[derive(Debug, Clone, Copy, PartialEq, Eq)]
pub enum KinetPacketHeader {
    /// A poll packet to scan local subnet for active power supplies.
    ///
    /// Aka. `DiscoverSupplies`
    Poll(PollPayload),
    /// A response to `Poll`, emitted by a power supply.
    ///
    /// Aka. `DiscoverSuppliesReply`
    PollReply(PollReplyPayload),
    /// The header only for a DMX512 packet streamed to power supply(ies).
    ///
    /// DMX512 data should be appended directly to the serialised header.
    DmxOut(DmxOutHeader),
}

/// Mandatory first four bytes of every packet (big endian).
pub const KINET_MAGIC: u32 = 0x0401_DC4A;

/// The only protocol version supported.
pub const KINET_VERSION_1: u16 = 0x0001;

/// The eight header bytes of a packet of type `t`.
pub open spec fn spec_header_bytes(t: KinetPacketType) -> Seq<u8> {
    u32_be(KINET_MAGIC) + u16_le(KINET_VERSION_1) + u16_le(t.spec_code())
}

impl KinetPacketHeader {
    pub const HEADER_SIZE: usize = 8;

    /// The packet type of this packet.
    pub open spec fn spec_kind(&self) -> KinetPacketType {
        match self {
            KinetPacketHeader::Poll(_) => KinetPacketType::Poll,
            KinetPacketHeader::PollReply(_) => KinetPacketType::PollReply,
            KinetPacketHeader::DmxOut(_) => KinetPacketType::DmxOut,
        }
    }

    /// The packet type of this packet.
    pub fn kind(&self) -> (t: KinetPacketType)
        ensures
            t == self.spec_kind(),
    {
        match self {
            KinetPacketHeader::Poll(_) => KinetPacketType::Poll,
            KinetPacketHeader::PollReply(_) => KinetPacketType::PollReply,
            KinetPacketHeader::DmxOut(_) => KinetPacketType::DmxOut,
        }
    }

    /// The bytes that `write_to` appends: the header, then the payload.
    pub open spec fn spec_encoding(&self) -> Seq<u8> {
        spec_header_bytes(self.spec_kind()) + match self {
            KinetPacketHeader::Poll(p) => p.spec_encoding(),
            KinetPacketHeader::PollReply(p) => p.spec_encoding(),
            KinetPacketHeader::DmxOut(p) => p.spec_encoding(),
        }
    }

    /// Overall buffer length neccessary for serialised packet
    ///
    /// For `DmxOut` this **does** include the 512 bytes of DMX data.
    pub fn packet_size(&self) -> (n: usize)
        ensures
            n == 8 + match self {
                KinetPacketHeader::Poll(_) => 10int,
                KinetPacketHeader::PollReply(_) => 117int,
                KinetPacketHeader::DmxOut(_) => 525int,
            },
            n == self.spec_encoding().len() + if self is DmxOut {
                512int
            } else {
                0int
            },
    {
        proof {
            match self {
                KinetPacketHeader::Poll(p) => p.lemma_encoding_len(),
                KinetPacketHeader::PollReply(p) => p.lemma_encoding_len(),
                KinetPacketHeader::DmxOut(p) => p.lemma_encoding_len(),
            }
        }
        Self::HEADER_SIZE + match self {
            KinetPacketHeader::Poll(_) => PollPayload::SIZE,
            KinetPacketHeader::PollReply(_) => PollReplyPayload::SIZE,
            KinetPacketHeader::DmxOut(_) => DmxOutHeader::SIZE + 512,
        }
    }

    /// Serialise the packet, appending it to `out`.
    ///
    /// Magic is big endian, the rest of the protocol is little endian.
    pub fn write_to(&self, out: &mut Vec<u8>)
        ensures
            final(out)@ == old(out)@ + self.spec_encoding(),
    {
        let ghost start = out@;
        push_u32_be(out, KINET_MAGIC);
        push_u16_le(out, KINET_VERSION_1);
        push_u16_le(out, self.kind().code());
        assert(out@ =~= start + spec_header_bytes(self.spec_kind()));
        match self {
            KinetPacketHeader::Poll(payload) => payload.write_to(out),
            KinetPacketHeader::PollReply(payload) => payload.write_to(out),
            KinetPacketHeader::DmxOut(payload) => payload.write_to(out),
        }
        assert(out@ =~= start + self.spec_encoding());
    }
}

impl KinetPacketHeader {
    /// The error that `read_from` reports for `b`, if any.
    pub open spec fn spec_read_error(b: Seq<u8>) -> Option<KinetError> {
        if b.len() < 8 {
            Some(KinetError::Io(IoErrorKind::UnexpectedEof))
        } else if be_u32(b[0], b[1], b[2], b[3]) != KINET_MAGIC {
            Some(KinetError::InvalidMagic(be_u32(b[0], b[1], b[2], b[3])))
        } else if le_u16(b[4], b[5]) != KINET_VERSION_1 {
            Some(KinetError::UnsupportedVersion(le_u16(b[4], b[5])))
        } else {
            match KinetPacketType::spec_from_code(le_u16(b[6], b[7])) {
                None => Some(KinetError::UnknownPacketType(le_u16(b[6], b[7]))),
                Some(KinetPacketType::Poll) => PollPayload::spec_read_error(b.skip(8)),
                Some(KinetPacketType::PollReply) => PollReplyPayload::spec_read_error(b.skip(8)),
                Some(KinetPacketType::DmxOut) => DmxOutHeader::spec_read_error(b.skip(8)),
                Some(t) => Some(KinetError::UnimplementedPacketType(t)),
            }
        }
    }

    /// The header bytes of `b` followed by the canonical form of its payload.
    pub open spec fn spec_canonical(b: Seq<u8>) -> Seq<u8> {
        b.take(8) + match KinetPacketType::spec_from_code(le_u16(b[6], b[7])) {
            Some(KinetPacketType::Poll) => PollPayload::spec_canonical(b.skip(8)),
            Some(KinetPacketType::PollReply) => PollReplyPayload::spec_canonical(b.skip(8)),
            Some(KinetPacketType::DmxOut) => DmxOutHeader::spec_canonical(b.skip(8)),
            _ => Seq::empty(),
        }
    }

    /// Deserialise a packet from the start of `bytes`.
    ///
    /// Checks the magic, the version and the packet type, then reads the
    /// payload. Bytes after the payload (such as DMX512 data) are ignored.
    pub fn read_from(bytes: &[u8]) -> (r: Result<Self, KinetError>)
        ensures
            match Self::spec_read_error(bytes@) {
                Some(e) => r == Err::<Self, KinetError>(e),
                None => r matches Ok(h) && h.spec_encoding() == Self::spec_canonical(bytes@),
            },
    {
        if bytes.len() < 8 {
            return Err(KinetError::Io(IoErrorKind::UnexpectedEof));
        }
        let magic = read_u32_be(bytes, 0);
        if magic != KINET_MAGIC {
            return Err(KinetError::InvalidMagic(magic));
        }
        let version = read_u16_le(bytes, 4);
        if version != KINET_VERSION_1 {
            return Err(KinetError::UnsupportedVersion(version));
        }
        let code = read_u16_le(bytes, 6);
        let rest = &bytes[8..bytes.len()];
        assert(rest@ =~= bytes@.skip(8));
        proof {
            lemma_be_u32_bytes(bytes@[0], bytes@[1], bytes@[2], bytes@[3]);
            lemma_le_u16_bytes(bytes@[4], bytes@[5]);
            lemma_le_u16_bytes(bytes@[6], bytes@[7]);
            assert(bytes@.take(8) =~= u32_be(be_u32(bytes@[0], bytes@[1], bytes@[2], bytes@[3]))
                + u16_le(le_u16(bytes@[4], bytes@[5])) + u16_le(le_u16(bytes@[6], bytes@[7])));
        }
        match KinetPacketType::from_code(code) {
            None => Err(KinetError::UnknownPacketType(code)),
            Some(KinetPacketType::Poll) => match PollPayload::read_from(rest) {
                Ok(p) => Ok(KinetPacketHeader::Poll(p)),
                Err(e) => Err(e),
            },
            Some(KinetPacketType::PollReply) => match PollReplyPayload::read_from(rest) {
                Ok(p) => Ok(KinetPacketHeader::PollReply(p)),
                Err(e) => Err(e),
            },
            Some(KinetPacketType::DmxOut) => match DmxOutHeader::read_from(rest) {
                Ok(p) => Ok(KinetPacketHeader::DmxOut(p)),
                Err(e) => Err(e),
            },
            Some(t) => Err(KinetError::UnimplementedPacketType(t)),
        }
    }
}

/// Distinct packets have distinct encodings.
pub proof fn lemma_packet_encoding_injective(a: KinetPacketHeader, b: KinetPacketHeader)
    requires
        a.spec_encoding() == b.spec_encoding(),
    ensures
        a == b,
{
    let e = a.spec_encoding();
    assert(e.subrange(6, 8) =~= u16_le(a.spec_kind().spec_code()));
    assert(b.spec_encoding().subrange(6, 8) =~= u16_le(b.spec_kind().spec_code()));
    lemma_u16_le_roundtrip(a.spec_kind().spec_code());
    lemma_u16_le_roundtrip(b.spec_kind().spec_code());
    assert(a.spec_kind() == b.spec_kind());
    match (a, b) {
        (KinetPacketHeader::Poll(p), KinetPacketHeader::Poll(q)) => {
            assert(p.spec_encoding() =~= e.skip(8));
            assert(q.spec_encoding() =~= e.skip(8));
            p.lemma_encoding_injective(&q);
        },
        (KinetPacketHeader::PollReply(p), KinetPacketHeader::PollReply(q)) => {
            assert(p.spec_encoding() =~= e.skip(8));
            assert(q.spec_encoding() =~= e.skip(8));
            p.lemma_encoding_injective(&q);
        },
        (KinetPacketHeader::DmxOut(p), KinetPacketHeader::DmxOut(q)) => {
            assert(p.spec_encoding() =~= e.skip(8));
            assert(q.spec_encoding() =~= e.skip(8));
            p.lemma_encoding_injective(&q);
        },
        _ => {},
    }
}

/// Reading back a written packet, followed by any further bytes (such as the
/// DMX512 data of a `DmxOut` packet), gives back the packet that was written:
/// no error is reported, and the packet that `read_from` returns (`q`, one
/// whose encoding is the canonical form of the input) is `h`.
pub proof fn law_packet_roundtrip(h: KinetPacketHeader, rest: Seq<u8>, q: KinetPacketHeader)
    requires
        q.spec_encoding() == KinetPacketHeader::spec_canonical(h.spec_encoding() + rest),
    ensures
        KinetPacketHeader::spec_read_error(h.spec_encoding() + rest) is None,
        q == h,
{
    let b = h.spec_encoding() + rest;
    let hb = spec_header_bytes(h.spec_kind());
    lemma_be_u32_bytes(b[0], b[1], b[2], b[3]);
    assert(b.subrange(0, 4) =~= u32_be(KINET_MAGIC));
    assert(b.subrange(4, 6) =~= u16_le(KINET_VERSION_1));
    assert(b.subrange(6, 8) =~= u16_le(h.spec_kind().spec_code()));
    lemma_u16_le_roundtrip(KINET_VERSION_1);
    lemma_u16_le_roundtrip(h.spec_kind().spec_code());
    assert(be_u32(b[0], b[1], b[2], b[3]) == KINET_MAGIC) by {
        lemma_be_u32_bytes(b[0], b[1], b[2], b[3]);
        crate::bytes::lemma_u32_be_roundtrip(KINET_MAGIC);
    }
    match h {
        KinetPacketHeader::Poll(p) => {
            assert(b.skip(8) =~= p.spec_encoding() + rest);
            p.lemma_encoding_readable(rest);
        },
        KinetPacketHeader::PollReply(p) => {
            assert(b.skip(8) =~= p.spec_encoding() + rest);
            p.lemma_encoding_readable(rest);
        },
        KinetPacketHeader::DmxOut(p) => {
            assert(b.skip(8) =~= p.spec_encoding() + rest);
            p.lemma_encoding_readable(rest);
        },
    }
    assert(b.take(8) =~= hb);
    assert(KinetPacketHeader::spec_canonical(b) =~= h.spec_encoding());
    lemma_packet_encoding_injective(q, h);
}

impl From<PollPayload> for KinetPacketHeader {
    fn from(p: PollPayload) -> (r: Self) {
        KinetPacketHeader::Poll(p)
    }
}

impl vstd::std_specs::convert::FromSpecImpl<PollPayload> for KinetPacketHeader {
    open spec fn obeys_from_spec() -> bool {
        true
    }

    open spec fn from_spec(p: PollPayload) -> Self {
        KinetPacketHeader::Poll(p)
    }
}

impl From<PollReplyPayload> for KinetPacketHeader {
    fn from(p: PollReplyPayload) -> (r: Self) {
        KinetPacketHeader::PollReply(p)
    }
}

impl vstd::std_specs::convert::FromSpecImpl<PollReplyPayload> for KinetPacketHeader {
    open spec fn obeys_from_spec() -> bool {
        true
    }

    open spec fn from_spec(p: PollReplyPayload) -> Self {
        KinetPacketHeader::PollReply(p)
    }
}

impl From<DmxOutHeader> for KinetPacketHeader {
    fn from(p: DmxOutHeader) -> (r: Self) {
        KinetPacketHeader::DmxOut(p)
    }
}

impl vstd::std_specs::convert::FromSpecImpl<DmxOutHeader> for KinetPacketHeader {
    open spec fn obeys_from_spec() -> bool {
        true
    }

    open spec fn from_spec(p: DmxOutHeader) -> Self {
        KinetPacketHeader::DmxOut(p)
    }
}

impl TryFrom<KinetPacketHeader> for PollPayload {
    type Error = KinetError;

    fn try_from(h: KinetPacketHeader) -> (r: Result<Self, KinetError>) {
        match h {
            KinetPacketHeader::Poll(p) => Ok(p),
            other => Err(
                KinetError::MismatchedPacketType {
                    expected: KinetPacketType::Poll,
                    actual: other.kind(),
                },
            ),
        }
    }
}

impl vstd::std_specs::convert::TryFromSpecImpl<KinetPacketHeader> for PollPayload {
    open spec fn obeys_try_from_spec() -> bool {
        true
    }

    open spec fn try_from_spec(h: KinetPacketHeader) -> Result<Self, KinetError> {
        match h {
            KinetPacketHeader::Poll(p) => Ok(p),
            other => Err(
                KinetError::MismatchedPacketType {
                    expected: KinetPacketType::Poll,
                    actual: other.spec_kind(),
                },
            ),
        }
    }
}

impl TryFrom<KinetPacketHeader> for PollReplyPayload {
    type Error = KinetError;

    fn try_from(h: KinetPacketHeader) -> (r: Result<Self, KinetError>) {
        match h {
            KinetPacketHeader::PollReply(p) => Ok(p),
            other => Err(
                KinetError::MismatchedPacketType {
                    expected: KinetPacketType::PollReply,
                    actual: other.kind(),
                },
            ),
        }
    }
}

impl vstd::std_specs::convert::TryFromSpecImpl<KinetPacketHeader> for PollReplyPayload {
    open spec fn obeys_try_from_spec() -> bool {
        true
    }

    open spec fn try_from_spec(h: KinetPacketHeader) -> Result<Self, KinetError> {
        match h {
            KinetPacketHeader::PollReply(p) => Ok(p),
            other => Err(
                KinetError::MismatchedPacketType {
                    expected: KinetPacketType::PollReply,
                    actual: other.spec_kind(),
                },
            ),
        }
    }
}

impl TryFrom<KinetPacketHeader> for DmxOutHeader {
    type Error = KinetError;

    fn try_from(h: KinetPacketHeader) -> (r: Result<Self, KinetError>) {
        match h {
            KinetPacketHeader::DmxOut(p) => Ok(p),
            other => Err(
                KinetError::MismatchedPacketType {
                    expected: KinetPacketType::DmxOut,
                    actual: other.kind(),
                },
            ),
        }
    }
}

impl vstd::std_specs::convert::TryFromSpecImpl<KinetPacketHeader> for DmxOutHeader {
    open spec fn obeys_try_from_spec() -> bool {
        true
    }

    open spec fn try_from_spec(h: KinetPacketHeader) -> Result<Self, KinetError> {
        match h {
            KinetPacketHeader::DmxOut(p) => Ok(p),
            other => Err(
                KinetError::MismatchedPacketType {
                    expected: KinetPacketType::DmxOut,
                    actual: other.spec_kind(),
                },
            ),
        }
    }
}

} // verus!
