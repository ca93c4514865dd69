//! The fixed 12-byte frame header and its big-endian field layout.
//!
//! ```text
//! offset 0  magic        4 bytes  "A2A!"
//! offset 4  version      2 bytes  big-endian, must equal VERSION
//! offset 6  kind         1 byte   0 = Control, 1 = Game, 2 = Error
//! offset 7  flags        1 byte   caller-defined
//! offset 8  payload_len  4 bytes  big-endian
//! ```

use crate::error::HeaderError;
use vstd::arithmetic::div_mod::{
    lemma_div_denominator, lemma_div_is_ordered, lemma_fundamental_div_mod,
};
use vstd::prelude::*;

verus! {

/// The protocol's magic value, `"A2A!"`.
pub const MAGIC: [u8; 4] = [65, 50, 65, 33];

/// The only protocol version this implementation speaks.
pub const VERSION: u16 = 1;

/// Number of bytes a header occupies on the wire.
pub const HEADER_SIZE: usize = 12;

/// The magic value as a sequence.
pub open spec fn magic_seq() -> Seq<u8> {
    seq![65u8, 50u8, 65u8, 33u8]
}

/// Two bytes, most significant first.
pub open spec fn u16_be(v: u16) -> Seq<u8> {
    seq![(v / 256) as u8, (v % 256) as u8]
}

/// Four bytes, most significant first.
pub open spec fn u32_be(v: u32) -> Seq<u8> {
    seq![
        (v / 0x100_0000) as u8,
        ((v / 0x1_0000) % 256) as u8,
        ((v / 256) % 256) as u8,
        (v % 256) as u8,
    ]
}

/// The big-endian `u16` at offset `i` of `b`.
pub open spec fn read_u16_be(b: Seq<u8>, i: int) -> u16 {
    (b[i] as int * 256 + b[i + 1] as int) as u16
}

/// The big-endian `u32` at offset `i` of `b`.
pub open spec fn read_u32_be(b: Seq<u8>, i: int) -> u32 {
    (b[i] as int * 0x100_0000 + b[i + 1] as int * 0x1_0000 + b[i + 2] as int * 256
        + b[i + 3] as int) as u32
}

/// Routing metadata carried by every frame; not interpreted by the codec.
#[derive(Clone, Copy, Debug, PartialEq, Eq, Structural)]
pub enum Kind {
    Control,
    Game,
    Error,
}

/// The wire discriminant of a kind.
pub open spec fn kind_byte(k: Kind) -> u8 {
    match k {
        Kind::Control => 0,
        Kind::Game => 1,
        Kind::Error => 2,
    }
}

/// The kind a wire byte stands for, if any.
pub open spec fn kind_of_byte(b: u8) -> Option<Kind> {
    if b == 0 {
        Some(Kind::Control)
    } else if b == 1 {
        Some(Kind::Game)
    } else if b == 2 {
        Some(Kind::Error)
    } else {
        None
    }
}

impl TryFrom<u8> for Kind {
    type Error = HeaderError;

    fn try_from(value: u8) -> (r: Result<Kind, HeaderError>)
        ensures
            r == kind_try_from(value),
    {
        match value {
            0 => Ok(Kind::Control),
            1 => Ok(Kind::Game),
            2 => Ok(Kind::Error),
            other => Err(HeaderError::InvalidKind(other)),
        }
    }
}

/// What `Kind::try_from` returns for a byte.
pub open spec fn kind_try_from(b: u8) -> Result<Kind, HeaderError> {
    match kind_of_byte(b) {
        Some(k) => Ok(k),
        None => Err(HeaderError::InvalidKind(b)),
    }
}

impl vstd::std_specs::convert::TryFromSpecImpl<u8> for Kind {
    open spec fn obeys_try_from_spec() -> bool {
        true
    }

    open spec fn try_from_spec(v: u8) -> Result<Kind, HeaderError> {
        kind_try_from(v)
    }
}

impl From<Kind> for u8 {
    fn from(kind: Kind) -> (r: u8)
        ensures
            r == kind_byte(kind),
    {
        match kind {
            Kind::Control => 0,
            Kind::Game => 1,
            Kind::Error => 2,
        }
    }
}

impl vstd::std_specs::convert::FromSpecImpl<Kind> for u8 {
    open spec fn obeys_from_spec() -> bool {
        true
    }

    open spec fn from_spec(kind: Kind) -> u8 {
        kind_byte(kind)
    }
}

/// The 12 wire bytes of a header with the supported magic and version.
pub open spec fn header_bytes(kind: Kind, flags: u8, payload_len: u32) -> Seq<u8> {
    magic_seq() + u16_be(VERSION) + seq![kind_byte(kind), flags] + u32_be(payload_len)
}

/// The version field of header bytes `h`.
pub open spec fn version_of(h: Seq<u8>) -> u16 {
    read_u16_be(h, 4)
}

/// The payload length field of header bytes `h`.
pub open spec fn payload_len_of(h: Seq<u8>) -> u32 {
    read_u32_be(h, 8)
}

/// Twelve bytes that `Header::parse` accepts: the magic, the supported
/// version and a known kind.
pub open spec fn header_valid(h: Seq<u8>) -> bool {
    &&& h.len() == HEADER_SIZE
    &&& h.subrange(0, 4) == magic_seq()
    &&& version_of(h) == VERSION
    &&& kind_of_byte(h[6]) is Some
}

/// `e` is the error that parsing the 12 bytes `h` reports: the magic is
/// checked first, then the version, then the kind.
pub open spec fn header_error_of(h: Seq<u8>, e: HeaderError) -> bool {
    if h.subrange(0, 4) != magic_seq() {
        e matches HeaderError::InvalidMagic(m) && m@ == h.subrange(0, 4)
    } else if version_of(h) != VERSION {
        e == HeaderError::UnsupportedVersion { found: version_of(h), expected: VERSION }
    } else if kind_of_byte(h[6]) is None {
        e == HeaderError::InvalidKind(h[6])
    } else {
        false
    }
}

/// Four big-endian bytes read back give the value they were written from.
pub proof fn lemma_u32_be_round_trip(v: u32)
    ensures
        read_u32_be(u32_be(v), 0) == v,
{
    let x = v as int;
    let y = x / 256;
    let z = y / 256;
    lemma_fundamental_div_mod(x, 256);
    lemma_fundamental_div_mod(y, 256);
    lemma_fundamental_div_mod(z, 256);
    lemma_div_denominator(x, 256, 256);
    lemma_div_denominator(y, 256, 256);
    lemma_div_denominator(x, 65536, 256);
    assert(z / 256 == x / 0x100_0000);
    assert(x / 0x100_0000 < 256) by {
        lemma_div_is_ordered(x, 0xffff_ffff, 0x100_0000);
    }
}

/// `header_bytes` is a valid header whose fields read back as given.
pub proof fn lemma_header_bytes(kind: Kind, flags: u8, payload_len: u32)
    ensures
        header_valid(header_bytes(kind, flags, payload_len)),
        kind_of_byte(header_bytes(kind, flags, payload_len)[6]) == Some(kind),
        header_bytes(kind, flags, payload_len)[7] == flags,
        payload_len_of(header_bytes(kind, flags, payload_len)) == payload_len,
{
    let h = header_bytes(kind, flags, payload_len);
    assert(h.subrange(0, 4) =~= magic_seq());
    assert(h.subrange(8, 12) =~= u32_be(payload_len));
    lemma_u32_be_round_trip(payload_len);
}

/// The header of a frame: the exact on-wire bytes, kept valid.
#[derive(Clone, Copy, Debug, PartialEq, Eq)]
pub struct Header {
    raw: [u8; 12],
}

impl View for Header {
    type V = Seq<u8>;

    closed spec fn view(&self) -> Seq<u8> {
        self.raw@
    }
}

impl Header {
    #[verifier::type_invariant]
    spec fn inv(self) -> bool {
        header_valid(self.raw@)
    }

    /// Byte size of a header on the wire.
    pub const SIZE: usize = 12;

    /// A header with the protocol's magic and version.
    pub fn new(kind: Kind, flags: u8, payload_len: u32) -> (r: Header)
        ensures
            r@ == header_bytes(kind, flags, payload_len),
    {
        let k: u8 = kind.into();
        let raw: [u8; 12] = [
            65,
            50,
            65,
            33,
            0,
            1,
            k,
            flags,
            (payload_len / 0x100_0000) as u8,
            ((payload_len / 0x1_0000) % 256) as u8,
            ((payload_len / 256) % 256) as u8,
            (payload_len % 256) as u8,
        ];
        assert(raw@ =~= header_bytes(kind, flags, payload_len));
        proof {
            lemma_header_bytes(kind, flags, payload_len);
        }
        Header { raw }
    }

    /// The frame kind.
    pub fn kind(&self) -> (r: Kind)
        ensures
            kind_of_byte(self@[6]) == Some(r),
    {
        proof {
            use_type_invariant(self);
        }
        match self.raw[6] {
            0 => Kind::Control,
            1 => Kind::Game,
            _ => Kind::Error,
        }
    }

    /// The caller-defined flag byte.
    pub fn flags(&self) -> (r: u8)
        ensures
            r == self@[7],
    {
        self.raw[7]
    }

    /// The declared payload length.
    pub fn payload_len(&self) -> (r: u32)
        ensures
            r == payload_len_of(self@),
    {
        (self.raw[8] as u32) * 0x100_0000 + (self.raw[9] as u32) * 0x1_0000 + (self.raw[10]
            as u32) * 256 + (self.raw[11] as u32)
    }

    /// The protocol version; always `VERSION`.
    pub fn version(&self) -> (r: u16)
        ensures
            r == version_of(self@),
            r == VERSION,
    {
        proof {
            use_type_invariant(self);
        }
        (self.raw[4] as u16) * 256 + (self.raw[5] as u16)
    }

    /// The same header with other flags.
    pub fn with_flags(self, flags: u8) -> (r: Header)
        ensures
            r@ == self@.update(7, flags),
    {
        proof {
            use_type_invariant(&self);
        }
        let mut raw = self.raw;
        raw[7] = flags;
        assert(raw@ =~= self.raw@.update(7, flags));
        assert(raw@.subrange(0, 4) =~= self.raw@.subrange(0, 4));
        Header { raw }
    }

    /// The same header with another payload length.
    pub fn with_payload_len(self, payload_len: u32) -> (r: Header)
        ensures
            r@ == self@.subrange(0, 8) + u32_be(payload_len),
    {
        proof {
            use_type_invariant(&self);
        }
        let mut raw = self.raw;
        raw[8] = (payload_len / 0x100_0000) as u8;
        raw[9] = ((payload_len / 0x1_0000) % 256) as u8;
        raw[10] = ((payload_len / 256) % 256) as u8;
        raw[11] = (payload_len % 256) as u8;
        assert(raw@ =~= self.raw@.subrange(0, 8) + u32_be(payload_len));
        assert(raw@.subrange(0, 4) =~= self.raw@.subrange(0, 4));
        Header { raw }
    }

    /// The exact on-wire representation.
    pub fn as_bytes(&self) -> (r: &[u8])
        ensures
            r@ == self@,
    {
        self.raw.as_slice()
    }

    /// Parses a header from the first 12 bytes of `bytes`, checking the
    /// magic, then the version, then the kind.
    pub fn parse(bytes: &[u8]) -> (r: Result<Header, HeaderError>)
        ensures
            bytes@.len() < HEADER_SIZE ==> r == Err::<Header, HeaderError>(HeaderError::Truncated),
            bytes@.len() >= HEADER_SIZE ==> {
                let h = bytes@.subrange(0, HEADER_SIZE as int);
                &&& header_valid(h) ==> (r matches Ok(hd) && hd@ == h)
                &&& !header_valid(h) ==> (r matches Err(e) && header_error_of(h, e))
            },
    {
        if bytes.len() < Self::SIZE {
            return Err(HeaderError::Truncated);
        }
        let ghost h = bytes@.subrange(0, 12);
        if bytes[0] != 65 || bytes[1] != 50 || bytes[2] != 65 || bytes[3] != 33 {
            let m: [u8; 4] = [bytes[0], bytes[1], bytes[2], bytes[3]];
            assert(m@ =~= h.subrange(0, 4));
            assert(h.subrange(0, 4) != magic_seq()) by {
                if h.subrange(0, 4) == magic_seq() {
                    assert(h.subrange(0, 4)[0] == bytes@[0]);
                    assert(h.subrange(0, 4)[1] == bytes@[1]);
                    assert(h.subrange(0, 4)[2] == bytes@[2]);
                    assert(h.subrange(0, 4)[3] == bytes@[3]);
                }
            }
            return Err(HeaderError::InvalidMagic(m));
        }
        assert(h.subrange(0, 4) =~= magic_seq());
        let version: u16 = (bytes[4] as u16) * 256 + (bytes[5] as u16);
        if version != VERSION {
            return Err(HeaderError::UnsupportedVersion { found: version, expected: VERSION });
        }
        let kind = bytes[6];
        if kind > 2 {
            return Err(HeaderError::InvalidKind(kind));
        }
        let raw: [u8; 12] = [
            bytes[0],
            bytes[1],
            bytes[2],
            bytes[3],
            bytes[4],
            bytes[5],
            bytes[6],
            bytes[7],
            bytes[8],
            bytes[9],
            bytes[10],
            bytes[11],
        ];
        assert(raw@ =~= h);
        Ok(Header { raw })
    }
}

} // verus!
