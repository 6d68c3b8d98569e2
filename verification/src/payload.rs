//! Payloads of KiNET packets.

use vstd::prelude::*;

use crate::bytes::{
    le_u16, le_u32, lemma_le_u16_bytes, lemma_le_u32_bytes, lemma_u16_le_roundtrip,
    lemma_u32_le_roundtrip, push_bytes, push_u16_le, push_u32_le, read_array, read_u16_le,
    read_u32_le, u16_le, u32_le,
};
use crate::error::{IoErrorKind, KinetError};
use vstd::string::{is_ascii, StringSliceAdditionalSpecFns};
use vstd::utf8::valid_utf8;

verus! {

broadcast use vstd::array::group_array_axioms;

/// Payload that can be serialised into a KiNET packet.
pub trait KinetPayload: Sized {
    /// Serialised byte length of this payload
    const SIZE: usize;

    /// Serialised byte length of the entire packet
    ///
    /// For `KinetPacketHeader::DmxOut`, this **does not** include the DMX512 data.
    const PACKET_SIZE: usize;

    /// The bytes that `write_to` appends for this payload.
    spec fn spec_encoding(&self) -> Seq<u8>;

    /// The error that `read_from` reports for `bytes`, if any.
    spec fn spec_read_error(bytes: Seq<u8>) -> Option<KinetError>;

    /// The first `SIZE` bytes of `bytes`, with the bytes that the format ignores set to zero.
    spec fn spec_canonical(bytes: Seq<u8>) -> Seq<u8>;

    /// Serialise the payload, appending it to `out`.
    fn write_to(&self, out: &mut Vec<u8>)
        ensures
            final(out)@ == old(out)@ + self.spec_encoding(),
    ;

    /// Deserialise from the first `SIZE` bytes of `bytes`.
    ///
    /// On success, the payload read is the one whose encoding is
    /// `spec_canonical(bytes)`.
    fn read_from(bytes: &[u8]) -> (r: Result<Self, KinetError>)
        ensures
            match Self::spec_read_error(bytes@) {
                Some(e) => r == Err::<Self, KinetError>(e),
                None => r matches Ok(p) && p.spec_encoding() == Self::spec_canonical(bytes@),
            },
    ;

    /// Every encoding is `SIZE` bytes long, and a packet holding it `PACKET_SIZE` bytes.
    proof fn lemma_encoding_len(&self)
        ensures
            self.spec_encoding().len() == Self::SIZE,
            Self::PACKET_SIZE == 8 + Self::SIZE,
    ;

    /// An encoding, followed by anything, reads without error and is its own canonical form.
    proof fn lemma_encoding_readable(&self, rest: Seq<u8>)
        ensures
            Self::spec_read_error(self.spec_encoding() + rest) is None,
            Self::spec_canonical(self.spec_encoding() + rest) == self.spec_encoding(),
    ;

    /// Distinct payloads have distinct encodings.
    proof fn lemma_encoding_injective(&self, other: &Self)
        requires
            self.spec_encoding() == other.spec_encoding(),
        ensures
            *self == *other,
    ;
}

/// Reading back what `write_to` wrote, followed by any further bytes, gives
/// back the payload that was written: no error is reported, and the payload
/// that `read_from` returns (`q`, one whose encoding is the canonical form of
/// the input) is `p`.
pub proof fn law_payload_roundtrip<P: KinetPayload>(p: P, rest: Seq<u8>, q: P)
    requires
        q.spec_encoding() == P::spec_canonical(p.spec_encoding() + rest),
    ensures
        P::spec_read_error(p.spec_encoding() + rest) is None,
        q == p,
{
    p.lemma_encoding_readable(rest);
    q.lemma_encoding_injective(&p);
}

/// Payload for `KinetPacketHeader::Poll`
#[derive(Debug, Clone, Copy, PartialEq, Eq)]
pub struct PollPayload {
    /// Sequence. Appears to be unused and always zero.
    pub sequence: u32,
    /// IPv4 address (octets). Devices will spoof their source IP to this.
    pub magic_ip: [u8; 4],
}

impl Default for PollPayload {
    fn default() -> (r: Self)
        ensures
            r.sequence == 0,
            r.magic_ip@ == seq![0u8, 0u8, 0u8, 0u8],
    {
        let r = Self { sequence: 0, magic_ip: [0u8; 4] };
        assert(r.magic_ip@ =~= seq![0u8, 0u8, 0u8, 0u8]);
        r
    }
}

impl KinetPayload for PollPayload {
    const SIZE: usize = 10;

    const PACKET_SIZE: usize = 8 + 10;

    open spec fn spec_encoding(&self) -> Seq<u8> {
        u32_le(self.sequence) + self.magic_ip@ + seq![0u8, 0u8]
    }

    open spec fn spec_read_error(bytes: Seq<u8>) -> Option<KinetError> {
        if bytes.len() < 10 {
            Some(KinetError::Io(IoErrorKind::UnexpectedEof))
        } else if bytes[8] != 0 || bytes[9] != 0 {
            Some(KinetError::Io(IoErrorKind::InvalidData))
        } else {
            None
        }
    }

    open spec fn spec_canonical(bytes: Seq<u8>) -> Seq<u8> {
        bytes.take(10)
    }

    fn write_to(&self, out: &mut Vec<u8>) {
        push_u32_le(out, self.sequence);
        push_bytes(out, &self.magic_ip);
        out.push(0u8);
        out.push(0u8);
        assert(final(out)@ =~= old(out)@ + self.spec_encoding());
    }

    fn read_from(bytes: &[u8]) -> (r: Result<Self, KinetError>) {
        if bytes.len() < 10 {
            return Err(KinetError::Io(IoErrorKind::UnexpectedEof));
        }
        if bytes[8] != 0 || bytes[9] != 0 {
            return Err(KinetError::Io(IoErrorKind::InvalidData));
        }
        let p = PollPayload { sequence: read_u32_le(bytes, 0), magic_ip: read_array(bytes, 4) };
        proof {
            lemma_le_u32_bytes(bytes@[0], bytes@[1], bytes@[2], bytes@[3]);
            assert(p.spec_encoding() =~= bytes@.take(10));
        }
        Ok(p)
    }

    proof fn lemma_encoding_len(&self) {
    }

    proof fn lemma_encoding_readable(&self, rest: Seq<u8>) {
        assert((self.spec_encoding() + rest).take(10) =~= self.spec_encoding());
    }

    proof fn lemma_encoding_injective(&self, other: &Self) {
        let e = self.spec_encoding();
        lemma_u32_le_roundtrip(self.sequence);
        lemma_u32_le_roundtrip(other.sequence);
        let f = other.spec_encoding();
        assert(e.subrange(0, 4) =~= u32_le(self.sequence));
        assert(f.subrange(0, 4) =~= u32_le(other.sequence));
        assert(self.magic_ip@ =~= e.subrange(4, 8));
        assert(other.magic_ip@ =~= f.subrange(4, 8));
        assert(self.magic_ip =~= other.magic_ip);
    }
}

/// Payload for `KinetPacketHeader::PollReply`
#[derive(Debug, Clone, Copy, PartialEq, Eq)]
pub struct PollReplyPayload {
    /// Sequence. Appears to be unused and always zero.
    pub sequence: u32,
    /// Device IPv4 address (octets)
    pub src_ip: [u8; 4],
    /// Device MAC address
    pub mac: [u8; 6],
    /// Unknown field. Observed as `0x0001` usually.
    pub data: u16,
    /// Device serial number
    pub serial: u32,
    /// Null-padded ASCII device description string
    pub node_name: [u8; 60],
    /// Null-padded ASCII user-visible device label.
    ///
    /// Should be null terminated.
    pub node_label: [u8; 33],
}

/// `n` zero bytes.
pub open spec fn zeros(n: nat) -> Seq<u8> {
    Seq::new(n, |i: int| 0u8)
}

/// `s` followed by zeros up to `n` bytes: a null-padded string field.
pub open spec fn padded(s: Seq<u8>, n: nat) -> Seq<u8> {
    s + zeros((n - s.len()) as nat)
}

/// `n` is the position of the first null byte of `b`.
pub open spec fn is_first_nul(b: Seq<u8>, n: int) -> bool {
    &&& 0 <= n < b.len()
    &&& b[n] == 0
    &&& forall|j: int| 0 <= j < n ==> b[j] != 0
}

/// The bytes of `b` before its first null byte, if `b` holds one.
pub open spec fn c_string_bytes(b: Seq<u8>) -> Option<Seq<u8>> {
    if exists|n: int| is_first_nul(b, n) {
        Some(b.take(choose|n: int| is_first_nul(b, n)))
    } else {
        None
    }
}

/// The bytes of the null-terminated string at the start of `b`, if there is
/// one and it is valid UTF-8.
pub open spec fn c_string_text(b: Seq<u8>) -> Option<Seq<u8>> {
    match c_string_bytes(b) {
        Some(t) => if valid_utf8(t) {
            Some(t)
        } else {
            None
        },
        None => None,
    }
}

/// `std::str::from_utf8`: the claim is that it succeeds exactly on valid
/// UTF-8 input, and that the string it returns has the input as its bytes.
#[verifier::external_body]
fn str_from_utf8(b: &[u8]) -> (r: Option<&str>)
    ensures
        r is Some <==> valid_utf8(b@),
        r matches Some(s) ==> s.spec_bytes() == b@,
{
    std::str::from_utf8(b).ok()
}

/// The position of the first null byte of `b`, if any.
fn find_nul(b: &[u8]) -> (r: Option<usize>)
    ensures
        match r {
            Some(n) => is_first_nul(b@, n as int),
            None => forall|j: int| 0 <= j < b@.len() ==> b@[j] != 0,
        },
{
    let mut i: usize = 0;
    while i < b.len()
        invariant
            i <= b@.len(),
            forall|j: int| 0 <= j < i ==> b@[j] != 0,
        decreases b@.len() - i,
    {
        if b[i] == 0 {
            return Some(i);
        }
        i = i + 1;
    }
    None
}

/// The null-terminated string at the start of `b`, if it has a terminator and is valid UTF-8.
fn c_string_as_str(b: &[u8]) -> (r: Option<&str>)
    ensures
        match c_string_text(b@) {
            Some(t) => r matches Some(s) && s.spec_bytes() == t,
            None => r is None,
        },
{
    match find_nul(b) {
        Some(n) => {
            proof {
                assert forall|m: int| is_first_nul(b@, m) implies m == n by {
                    if m < n {
                        assert(b@[m] != 0);
                    } else if m > n {
                        assert(b@[n as int] != 0);
                    }
                }
            }
            let prefix = &b[0..n];
            assert(prefix@ =~= b@.take(n as int));
            str_from_utf8(prefix)
        },
        None => {
            assert(!exists|n: int| is_first_nul(b@, n));
            None
        },
    }
}

/// A name written into a null-padded field reads back unchanged: for an
/// ASCII string without null characters that leaves room for the terminating
/// null, the text up to the first null of the padded field is the string's
/// bytes, which are valid UTF-8. (So `node_name_as_str` after `with_name`, and
/// `node_label_as_str` after `with_label`, give back the string.)
pub proof fn law_padded_text_roundtrip(chars: Seq<char>, n: nat)
    requires
        vstd::utf8::is_ascii_chars(chars),
        forall|i: int| 0 <= i < chars.len() ==> chars[i] != '\0',
        vstd::utf8::encode_utf8(chars).len() < n,
    ensures
        c_string_text(padded(vstd::utf8::encode_utf8(chars), n)) == Some(
            vstd::utf8::encode_utf8(chars),
        ),
{
    let b = vstd::utf8::encode_utf8(chars);
    let p = padded(b, n);
    vstd::utf8::is_ascii_chars_encode_utf8(chars);
    vstd::utf8::encode_utf8_valid_utf8(chars);
    assert forall|j: int| 0 <= j < b.len() implies p[j] != 0 by {
        assert(chars[j] as u8 == b[j]);
        assert(chars[j] != '\0');
    }
    assert(is_first_nul(p, b.len() as int));
    assert forall|m: int| is_first_nul(p, m) implies m == b.len() by {
        if m < b.len() {
            assert(p[m] != 0);
        } else if m > b.len() {
            assert(p[b.len() as int] != 0);
        }
    }
    assert(p.take(b.len() as int) =~= b);
}

/// The array holding `src` followed by zeros.
fn padded_array<const N: usize>(src: &[u8]) -> (a: [u8; N])
    requires
        src@.len() <= N,
    ensures
        a@ == padded(src@, N as nat),
{
    let mut a = [0u8; N];
    let mut i: usize = 0;
    while i < src.len()
        invariant
            i <= src@.len() <= N,
            a@.len() == N,
            forall|j: int| 0 <= j < i ==> a@[j] == src@[j],
            forall|j: int| src@.len() <= j < N ==> a@[j] == 0,
        decreases src@.len() - i,
    {
        a[i] = src[i];
        i = i + 1;
    }
    assert(a@ =~= padded(src@, N as nat));
    a
}

impl PollReplyPayload {
    /// Returns a copy with `node_name` set to `name`, null padded.
    ///
    /// `None` if `name` is not ASCII or does not leave room for a terminating null.
    #[must_use]
    pub fn with_name(self, name: &str) -> (r: Option<Self>)
        ensures
            r is None <==> !is_ascii(name) || name.spec_bytes().len() >= 60,
            r matches Some(p) ==> p == (PollReplyPayload { node_name: p.node_name, ..self })
                && p.node_name@ == padded(name.spec_bytes(), 60),
    {
        let bytes = name.as_bytes();
        if !name.is_ascii() || bytes.len() >= 60 {
            return None;
        }
        let mut p = self;
        p.node_name = padded_array(bytes);
        Some(p)
    }

    /// Returns a copy with `node_label` set to `label`, null padded.
    ///
    /// `None` if `label` is not ASCII or does not leave room for a terminating null.
    #[must_use]
    pub fn with_label(self, label: &str) -> (r: Option<Self>)
        ensures
            r is None <==> !is_ascii(label) || label.spec_bytes().len() >= 33,
            r matches Some(p) ==> p == (PollReplyPayload { node_label: p.node_label, ..self })
                && p.node_label@ == padded(label.spec_bytes(), 33),
    {
        let bytes = label.as_bytes();
        if !label.is_ascii() || bytes.len() >= 33 {
            return None;
        }
        let mut p = self;
        p.node_label = padded_array(bytes);
        Some(p)
    }

    /// The device description up to its first null byte, if it has one and it is valid UTF-8.
    #[must_use]
    pub fn node_name_as_str(&self) -> (r: Option<&str>)
        ensures
            match c_string_text(self.node_name@) {
                Some(t) => r matches Some(s) && s.spec_bytes() == t,
                None => r is None,
            },
    {
        c_string_as_str(&self.node_name)
    }

    /// The device label up to its first null byte, if it has one and it is valid UTF-8.
    #[must_use]
    pub fn node_label_as_str(&self) -> (r: Option<&str>)
        ensures
            match c_string_text(self.node_label@) {
                Some(t) => r matches Some(s) && s.spec_bytes() == t,
                None => r is None,
            },
    {
        c_string_as_str(&self.node_label)
    }
}

impl Default for PollReplyPayload {
    fn default() -> (r: Self)
        ensures
            r.sequence == 0,
            r.src_ip@ == zeros(4),
            r.mac@ == zeros(6),
            r.data == 0,
            r.serial == 0,
            r.node_name@ == zeros(60),
            r.node_label@ == zeros(33),
    {
        let r = Self {
            src_ip: [0u8; 4],
            node_name: [0u8; 60],
            node_label: [0u8; 33],
            sequence: 0,
            mac: [0u8; 6],
            data: 0,
            serial: 0,
        };
        assert(r.src_ip@ =~= zeros(4));
        assert(r.mac@ =~= zeros(6));
        assert(r.node_name@ =~= zeros(60));
        assert(r.node_label@ =~= zeros(33));
        r
    }
}

impl KinetPayload for PollReplyPayload {
    const SIZE: usize = 117;

    const PACKET_SIZE: usize = 8 + 117;

    open spec fn spec_encoding(&self) -> Seq<u8> {
        u32_le(self.sequence) + self.src_ip@ + self.mac@ + u16_le(self.data) + u32_le(self.serial)
            + zeros(4) + self.node_name@ + self.node_label@
    }

    open spec fn spec_read_error(bytes: Seq<u8>) -> Option<KinetError> {
        if bytes.len() < 117 {
            Some(KinetError::Io(IoErrorKind::UnexpectedEof))
        } else {
            None
        }
    }

    open spec fn spec_canonical(bytes: Seq<u8>) -> Seq<u8> {
        bytes.take(20) + zeros(4) + bytes.subrange(24, 117)
    }

    fn write_to(&self, out: &mut Vec<u8>) {
        let ghost start = out@;
        push_u32_le(out, self.sequence);
        push_bytes(out, &self.src_ip);
        push_bytes(out, &self.mac);
        push_u16_le(out, self.data);
        push_u32_le(out, self.serial);
        assert(out@ =~= start + (u32_le(self.sequence) + self.src_ip@ + self.mac@ + u16_le(
            self.data,
        ) + u32_le(self.serial)));
        out.push(0u8);
        out.push(0u8);
        out.push(0u8);
        out.push(0u8);
        push_bytes(out, &self.node_name);
        push_bytes(out, &self.node_label);
        assert(out@ =~= start + self.spec_encoding());
    }

    fn read_from(bytes: &[u8]) -> (r: Result<Self, KinetError>) {
        if bytes.len() < 117 {
            return Err(KinetError::Io(IoErrorKind::UnexpectedEof));
        }
        let p = PollReplyPayload {
            sequence: read_u32_le(bytes, 0),
            src_ip: read_array(bytes, 4),
            mac: read_array(bytes, 8),
            data: read_u16_le(bytes, 14),
            serial: read_u32_le(bytes, 16),
            node_name: read_array(bytes, 24),
            node_label: read_array(bytes, 84),
        };
        proof {
            lemma_le_u32_bytes(bytes@[0], bytes@[1], bytes@[2], bytes@[3]);
            lemma_le_u16_bytes(bytes@[14], bytes@[15]);
            lemma_le_u32_bytes(bytes@[16], bytes@[17], bytes@[18], bytes@[19]);
            assert(p.spec_encoding() =~= Self::spec_canonical(bytes@));
        }
        Ok(p)
    }

    proof fn lemma_encoding_len(&self) {
    }

    proof fn lemma_encoding_readable(&self, rest: Seq<u8>) {
        let e = self.spec_encoding();
        assert(Self::spec_canonical(e + rest) =~= e);
    }

    proof fn lemma_encoding_injective(&self, other: &Self) {
        let e = self.spec_encoding();
        let f = other.spec_encoding();
        lemma_u32_le_roundtrip(self.sequence);
        lemma_u32_le_roundtrip(other.sequence);
        lemma_u16_le_roundtrip(self.data);
        lemma_u16_le_roundtrip(other.data);
        lemma_u32_le_roundtrip(self.serial);
        lemma_u32_le_roundtrip(other.serial);
        assert(e.subrange(0, 4) =~= u32_le(self.sequence));
        assert(f.subrange(0, 4) =~= u32_le(other.sequence));
        assert(e.subrange(14, 16) =~= u16_le(self.data));
        assert(f.subrange(14, 16) =~= u16_le(other.data));
        assert(e.subrange(16, 20) =~= u32_le(self.serial));
        assert(f.subrange(16, 20) =~= u32_le(other.serial));
        assert(self.src_ip@ =~= e.subrange(4, 8));
        assert(other.src_ip@ =~= f.subrange(4, 8));
        assert(self.mac@ =~= e.subrange(8, 14));
        assert(other.mac@ =~= f.subrange(8, 14));
        assert(self.node_name@ =~= e.subrange(24, 84));
        assert(other.node_name@ =~= f.subrange(24, 84));
        assert(self.node_label@ =~= e.subrange(84, 117));
        assert(other.node_label@ =~= f.subrange(84, 117));
        assert(self.src_ip =~= other.src_ip);
        assert(self.mac =~= other.mac);
        assert(self.node_name =~= other.node_name);
        assert(self.node_label =~= other.node_label);
    }
}

/// Payload for a power supply's heartbeat packet
#[derive(Debug, Clone, Copy, PartialEq, Eq)]
pub struct HeartBeatPayload {
    /// Sequence. Appears to be unused and always zero.
    pub sequence: u32,
    /// Device IPv4 address (octets)
    pub src_ip: [u8; 4],
    /// Device MAC address
    pub mac: [u8; 6],
    /// Unknown field. Observed as `0x0001` usually.
    pub data16: u16,
    /// Device serial number
    pub serial: u32,
    /// Unknown field. Observed as `0x00030001` usually.
    pub data32: u32,
}

impl Default for HeartBeatPayload {
    fn default() -> (r: Self)
        ensures
            r.sequence == 0,
            r.data16 == 0x0001,
            r.src_ip@ == zeros(4),
            r.mac@ == zeros(6),
            r.serial == 0,
            r.data32 == 0x0003_0001,
    {
        let r = Self {
            sequence: 0,
            data16: 0x0001,
            src_ip: [0u8; 4],
            mac: [0u8; 6],
            serial: 0,
            data32: 0x0003_0001,
        };
        assert(r.src_ip@ =~= zeros(4));
        assert(r.mac@ =~= zeros(6));
        r
    }
}

impl KinetPayload for HeartBeatPayload {
    const SIZE: usize = 24;

    const PACKET_SIZE: usize = 8 + 24;

    open spec fn spec_encoding(&self) -> Seq<u8> {
        u32_le(self.sequence) + self.src_ip@ + self.mac@ + u16_le(self.data16) + u32_le(
            self.serial,
        ) + u32_le(self.data32)
    }

    open spec fn spec_read_error(bytes: Seq<u8>) -> Option<KinetError> {
        if bytes.len() < 24 {
            Some(KinetError::Io(IoErrorKind::UnexpectedEof))
        } else {
            None
        }
    }

    open spec fn spec_canonical(bytes: Seq<u8>) -> Seq<u8> {
        bytes.take(24)
    }

    fn write_to(&self, out: &mut Vec<u8>) {
        push_u32_le(out, self.sequence);
        push_bytes(out, &self.src_ip);
        push_bytes(out, &self.mac);
        push_u16_le(out, self.data16);
        push_u32_le(out, self.serial);
        push_u32_le(out, self.data32);
        assert(final(out)@ =~= old(out)@ + self.spec_encoding());
    }

    fn read_from(bytes: &[u8]) -> (r: Result<Self, KinetError>) {
        if bytes.len() < 24 {
            return Err(KinetError::Io(IoErrorKind::UnexpectedEof));
        }
        let p = HeartBeatPayload {
            sequence: read_u32_le(bytes, 0),
            src_ip: read_array(bytes, 4),
            mac: read_array(bytes, 8),
            data16: read_u16_le(bytes, 14),
            serial: read_u32_le(bytes, 16),
            data32: read_u32_le(bytes, 20),
        };
        proof {
            lemma_le_u32_bytes(bytes@[0], bytes@[1], bytes@[2], bytes@[3]);
            lemma_le_u16_bytes(bytes@[14], bytes@[15]);
            lemma_le_u32_bytes(bytes@[16], bytes@[17], bytes@[18], bytes@[19]);
            lemma_le_u32_bytes(bytes@[20], bytes@[21], bytes@[22], bytes@[23]);
            assert(p.spec_encoding() =~= Self::spec_canonical(bytes@));
        }
        Ok(p)
    }

    proof fn lemma_encoding_len(&self) {
    }

    proof fn lemma_encoding_readable(&self, rest: Seq<u8>) {
        let e = self.spec_encoding();
        assert(Self::spec_canonical(e + rest) =~= e);
    }

    proof fn lemma_encoding_injective(&self, other: &Self) {
        let e = self.spec_encoding();
        let f = other.spec_encoding();
        lemma_u32_le_roundtrip(self.sequence);
        lemma_u32_le_roundtrip(other.sequence);
        lemma_u16_le_roundtrip(self.data16);
        lemma_u16_le_roundtrip(other.data16);
        lemma_u32_le_roundtrip(self.serial);
        lemma_u32_le_roundtrip(other.serial);
        lemma_u32_le_roundtrip(self.data32);
        lemma_u32_le_roundtrip(other.data32);
        assert(e.subrange(0, 4) =~= u32_le(self.sequence));
        assert(f.subrange(0, 4) =~= u32_le(other.sequence));
        assert(e.subrange(14, 16) =~= u16_le(self.data16));
        assert(f.subrange(14, 16) =~= u16_le(other.data16));
        assert(e.subrange(16, 20) =~= u32_le(self.serial));
        assert(f.subrange(16, 20) =~= u32_le(other.serial));
        assert(e.subrange(20, 24) =~= u32_le(self.data32));
        assert(f.subrange(20, 24) =~= u32_le(other.data32));
        assert(self.src_ip@ =~= e.subrange(4, 8));
        assert(other.src_ip@ =~= f.subrange(4, 8));
        assert(self.mac@ =~= e.subrange(8, 14));
        assert(other.mac@ =~= f.subrange(8, 14));
        assert(self.src_ip =~= other.src_ip);
        assert(self.mac =~= other.mac);
    }
}

/// Payload for `KinetPacketHeader::DmxOut`
#[derive(Debug, Clone, Copy, PartialEq, Eq)]
pub struct DmxOutHeader {
    /// Packet sequence number. Usually ignored by hardware.
    pub sequence: u32,
    /// DMX output port index
    ///
    /// Seemingly only used for v2 in broadcast environment
    pub port: u8,
    /// Unsure what this does, seems to always be zero
    pub flags: u16,
    /// Unsure what this does. Usually zero or `u32::MAX`
    pub timer_val: u32,
    /// DMX universe id to target. Rarely used aside from broadcast configurations.
    pub universe: u8,
}

impl Default for DmxOutHeader {
    fn default() -> (r: Self)
        ensures
            r == (DmxOutHeader { sequence: 0, port: 0, flags: 0, timer_val: u32::MAX, universe: 0 }),
    {
        Self { sequence: 0, port: 0, flags: 0, timer_val: u32::MAX, universe: 0 }
    }
}

impl KinetPayload for DmxOutHeader {
    const SIZE: usize = 13;

    const PACKET_SIZE: usize = 8 + 13;

    open spec fn spec_encoding(&self) -> Seq<u8> {
        u32_le(self.sequence) + seq![self.port, 0u8] + u16_le(self.flags) + u32_le(self.timer_val)
            + seq![self.universe]
    }

    open spec fn spec_read_error(bytes: Seq<u8>) -> Option<KinetError> {
        if bytes.len() < 13 {
            Some(KinetError::Io(IoErrorKind::UnexpectedEof))
        } else {
            None
        }
    }

    open spec fn spec_canonical(bytes: Seq<u8>) -> Seq<u8> {
        bytes.take(5) + seq![0u8] + bytes.subrange(6, 13)
    }

    fn write_to(&self, out: &mut Vec<u8>) {
        push_u32_le(out, self.sequence);
        out.push(self.port);
        out.push(0u8);
        push_u16_le(out, self.flags);
        push_u32_le(out, self.timer_val);
        out.push(self.universe);
        assert(final(out)@ =~= old(out)@ + self.spec_encoding());
    }

    fn read_from(bytes: &[u8]) -> (r: Result<Self, KinetError>) {
        if bytes.len() < 13 {
            return Err(KinetError::Io(IoErrorKind::UnexpectedEof));
        }
        let p = DmxOutHeader {
            sequence: read_u32_le(bytes, 0),
            port: bytes[4],
            flags: read_u16_le(bytes, 6),
            timer_val: read_u32_le(bytes, 8),
            universe: bytes[12],
        };
        proof {
            lemma_le_u32_bytes(bytes@[0], bytes@[1], bytes@[2], bytes@[3]);
            lemma_le_u16_bytes(bytes@[6], bytes@[7]);
            lemma_le_u32_bytes(bytes@[8], bytes@[9], bytes@[10], bytes@[11]);
            assert(p.spec_encoding() =~= Self::spec_canonical(bytes@));
        }
        Ok(p)
    }

    proof fn lemma_encoding_len(&self) {
    }

    proof fn lemma_encoding_readable(&self, rest: Seq<u8>) {
        let e = self.spec_encoding();
        assert(Self::spec_canonical(e + rest) =~= e);
    }

    #[verifier::spinoff_prover]
    #[verifier::rlimit(40)]
    proof fn lemma_encoding_injective(&self, other: &Self) {
        let e = self.spec_encoding();
        let f = other.spec_encoding();
        lemma_u32_le_roundtrip(self.sequence);
        lemma_u32_le_roundtrip(other.sequence);
        lemma_u16_le_roundtrip(self.flags);
        lemma_u16_le_roundtrip(other.flags);
        lemma_u32_le_roundtrip(self.timer_val);
        lemma_u32_le_roundtrip(other.timer_val);
        assert(e.subrange(0, 4) =~= u32_le(self.sequence));
        assert(f.subrange(0, 4) =~= u32_le(other.sequence));
        assert(e.subrange(6, 8) =~= u16_le(self.flags));
        assert(f.subrange(6, 8) =~= u16_le(other.flags));
        assert(e.subrange(8, 12) =~= u32_le(self.timer_val));
        assert(f.subrange(8, 12) =~= u32_le(other.timer_val));
        assert(e[4] == self.port && f[4] == other.port);
        assert(e[12] == self.universe && f[12] == other.universe);
    }
}

} // verus!
