//! Frames and the incremental codec that turns a growing receive buffer into
//! frames, and frames into bytes.

use crate::buffer::{bytes_mut_view, bytes_view};
use crate::error::{HeaderError, ProtoError};
use crate::header::{
    header_bytes, header_error_of, header_valid, kind_of_byte, lemma_header_bytes, magic_seq,
    payload_len_of, read_u16_be, u16_be, version_of, Header, Kind, HEADER_SIZE, VERSION,
};
use bytes::{Bytes, BytesMut};
use vstd::arithmetic::div_mod::lemma_fundamental_div_mod;
use vstd::prelude::*;

verus! {

/// The payload ceiling of `FrameCodec::with_default_limit`: 1 MiB.
pub const DEFAULT_MAX_PAYLOAD_LEN: u32 = 1048576;

/// A validated header together with its payload, whose length is always the
/// header's declared payload length.
#[derive(Debug)]
pub struct Frame {
    header: Header,
    payload: Bytes,
}

impl Frame {
    #[verifier::type_invariant]
    spec fn inv(self) -> bool {
        payload_len_of(self.header@) == bytes_view(self.payload).len()
    }

    /// The frame's header.
    pub closed spec fn spec_header(&self) -> Header {
        self.header
    }

    /// The frame's payload bytes.
    pub closed spec fn spec_payload(&self) -> Seq<u8> {
        bytes_view(self.payload)
    }

    /// A frame of `kind` and `flags` around `payload`, whose header declares
    /// the payload's length. A payload that the 4-byte length field cannot
    /// describe is refused.
    pub fn new(kind: Kind, flags: u8, payload: Bytes) -> (r: Result<Frame, ProtoError>)
        ensures
            bytes_view(payload).len() <= u32::MAX ==> (r matches Ok(f) && f.spec_header()@
                == header_bytes(kind, flags, bytes_view(payload).len() as u32)
                && f.spec_payload() == bytes_view(payload)),
            bytes_view(payload).len() > u32::MAX ==> r == Err::<Frame, ProtoError>(
                ProtoError::PayloadTooLarge { len: u32::MAX, max: u32::MAX },
            ),
    {
        let n = payload.len();
        if n > u32::MAX as usize {
            return Err(ProtoError::PayloadTooLarge { len: u32::MAX, max: u32::MAX });
        }
        let header = Header::new(kind, flags, n as u32);
        proof {
            lemma_header_bytes(kind, flags, n as u32);
        }
        Ok(Frame { header, payload })
    }

    /// Pairs a header with a payload, failing with `LengthMismatch` unless
    /// the header declares exactly the payload's length.
    pub fn from_parts(header: Header, payload: Bytes) -> (r: Result<Frame, ProtoError>)
        ensures
            payload_len_of(header@) == bytes_view(payload).len() ==> (r matches Ok(f)
                && f.spec_header() == header && f.spec_payload() == bytes_view(payload)),
            payload_len_of(header@) != bytes_view(payload).len() ==> r == Err::<Frame, ProtoError>(
                ProtoError::LengthMismatch {
                    expected: payload_len_of(header@),
                    actual: bytes_view(payload).len() as usize,
                },
            ),
    {
        if header.payload_len() as usize != payload.len() {
            return Err(
                ProtoError::LengthMismatch { expected: header.payload_len(), actual: payload.len() },
            );
        }
        Ok(Frame { header, payload })
    }

    /// The frame's header.
    pub fn header(&self) -> (r: Header)
        ensures
            r == self.spec_header(),
    {
        self.header
    }

    /// The frame's payload.
    pub fn payload(&self) -> (r: &Bytes)
        ensures
            bytes_view(*r) == self.spec_payload(),
    {
        &self.payload
    }

    /// Takes the payload out of the frame.
    pub fn into_payload(self) -> (r: Bytes)
        ensures
            bytes_view(r) == self.spec_payload(),
    {
        self.payload
    }
}

impl Clone for Frame {
    /// Another handle on the same header and payload bytes; the payload is
    /// shared, not copied.
    fn clone(&self) -> (r: Frame)
        ensures
            r.spec_header() == self.spec_header(),
            r.spec_payload() == self.spec_payload(),
    {
        proof {
            use_type_invariant(self);
        }
        Frame { header: self.header, payload: self.payload.clone() }
    }
}

/// What one decode attempt on buffered bytes comes to.
pub enum DecodeStep {
    /// Not an error: call again once more bytes are buffered.
    NeedMore,
    /// The header is malformed.
    BadHeader,
    /// The declared payload length exceeds the ceiling.
    TooLarge,
    /// A whole frame is buffered.
    Complete,
}

/// Bytes a frame whose header starts `s` occupies: header and payload.
pub open spec fn frame_len(s: Seq<u8>) -> int {
    HEADER_SIZE + payload_len_of(s)
}

/// The outcome of decoding buffered bytes `s` under payload ceiling `max`.
pub open spec fn decode_step(max: u32, s: Seq<u8>) -> DecodeStep {
    if s.len() < HEADER_SIZE {
        DecodeStep::NeedMore
    } else if !header_valid(s.subrange(0, HEADER_SIZE as int)) {
        DecodeStep::BadHeader
    } else if payload_len_of(s) > max || frame_len(s) > usize::MAX {
        DecodeStep::TooLarge
    } else if s.len() < frame_len(s) {
        DecodeStep::NeedMore
    } else {
        DecodeStep::Complete
    }
}

/// `r` and the buffer's new contents `t` are what decoding `s` under
/// ceiling `max` gives: nothing is consumed unless a whole frame is returned,
/// and then exactly that frame's bytes are.
pub open spec fn decoded(
    max: u32,
    s: Seq<u8>,
    r: Result<Option<Frame>, ProtoError>,
    t: Seq<u8>,
) -> bool {
    match decode_step(max, s) {
        DecodeStep::NeedMore => r matches Ok(None) && t == s,
        DecodeStep::BadHeader => r matches Err(ProtoError::Header(e)) && header_error_of(
            s.subrange(0, HEADER_SIZE as int),
            e,
        ) && t == s,
        DecodeStep::TooLarge => r == Err::<Option<Frame>, ProtoError>(
            ProtoError::PayloadTooLarge { len: payload_len_of(s), max },
        ) && t == s,
        DecodeStep::Complete => r matches Ok(Some(f)) && f.spec_header()@ == s.subrange(
            0,
            HEADER_SIZE as int,
        ) && f.spec_payload() == s.subrange(HEADER_SIZE as int, frame_len(s)) && t == s.subrange(
            frame_len(s),
            s.len() as int,
        ),
    }
}

/// The bytes `encode` appends for a frame with header bytes `h` and payload
/// `p`: a fresh header of the same kind and flags, then the payload.
pub open spec fn encoded(h: Seq<u8>, p: Seq<u8>) -> Seq<u8> {
    header_bytes(kind_of_byte(h[6]).unwrap(), h[7], p.len() as u32) + p
}

/// Incremental frame decoder and encoder; its only state is the payload
/// ceiling.
#[derive(Debug, Clone)]
pub struct FrameCodec {
    max_payload_len: u32,
}

impl FrameCodec {
    /// The configured payload ceiling.
    pub closed spec fn spec_max(&self) -> u32 {
        self.max_payload_len
    }

    /// A codec that accepts payloads of at most `max_payload_len` bytes.
    pub fn new(max_payload_len: u32) -> (r: FrameCodec)
        ensures
            r.spec_max() == max_payload_len,
    {
        FrameCodec { max_payload_len }
    }

    /// A codec with a 1 MiB payload ceiling.
    pub fn with_default_limit() -> (r: FrameCodec)
        ensures
            r.spec_max() == DEFAULT_MAX_PAYLOAD_LEN,
    {
        Self::new(DEFAULT_MAX_PAYLOAD_LEN)
    }

    fn ensure_within_limit(&self, length: u32) -> (r: Result<(), ProtoError>)
        ensures
            length <= self.spec_max() ==> r is Ok,
            length > self.spec_max() ==> r == Err::<(), ProtoError>(
                ProtoError::PayloadTooLarge { len: length, max: self.spec_max() },
            ),
    {
        if length > self.max_payload_len {
            return Err(ProtoError::PayloadTooLarge { len: length, max: self.max_payload_len });
        }
        Ok(())
    }

    /// Takes the next frame off the front of `src`, if one is wholly
    /// buffered. "Need more data" is `Ok(None)`; the header is checked (and
    /// the payload length held to the ceiling) before the payload is waited
    /// for, and on every outcome but a complete frame `src` is left as it was.
    pub fn decode(&self, src: &mut BytesMut) -> (r: Result<Option<Frame>, ProtoError>)
        ensures
            decoded(self.spec_max(), bytes_mut_view(*old(src)), r, bytes_mut_view(*final(src))),
    {
        let ghost s = bytes_mut_view(*src);
        let buffered = src.len();
        if buffered < HEADER_SIZE {
            return Ok(None);
        }
        let header = match Header::parse(<BytesMut as AsRef<[u8]>>::as_ref(src)) {
            Ok(h) => h,
            Err(e) => {
                return Err(ProtoError::Header(e));
            },
        };
        assert(payload_len_of(s.subrange(0, 12)) == payload_len_of(s));
        match self.ensure_within_limit(header.payload_len()) {
            Ok(()) => {},
            Err(e) => {
                return Err(e);
            },
        }
        let payload_len = header.payload_len() as usize;
        let total_len = match HEADER_SIZE.checked_add(payload_len) {
            Some(t) => t,
            None => {
                return Err(
                    ProtoError::PayloadTooLarge {
                        len: header.payload_len(),
                        max: self.max_payload_len,
                    },
                );
            },
        };
        if buffered < total_len {
            return Ok(None);
        }
        let mut frame = src.split_to(total_len);
        let payload = frame.split_off(HEADER_SIZE).freeze();
        assert(bytes_view(payload) =~= s.subrange(12, total_len as int));
        match Frame::from_parts(header, payload) {
            Ok(f) => Ok(Some(f)),
            Err(e) => Err(e),
        }
    }

    /// Appends the frame's header and payload to `dst`, or fails with
    /// `PayloadTooLarge` before writing anything.
    pub fn encode(&self, item: Frame, dst: &mut BytesMut) -> (r: Result<(), ProtoError>)
        requires
            bytes_mut_view(*old(dst)).len() + HEADER_SIZE + item.spec_payload().len()
                <= isize::MAX,
        ensures
            item.spec_payload().len() <= self.spec_max() ==> r is Ok && bytes_mut_view(*final(dst))
                == bytes_mut_view(*old(dst)) + encoded(item.spec_header()@, item.spec_payload()),
            item.spec_payload().len() > self.spec_max() ==> r == Err::<(), ProtoError>(
                ProtoError::PayloadTooLarge {
                    len: item.spec_payload().len() as u32,
                    max: self.spec_max(),
                },
            ) && bytes_mut_view(*final(dst)) == bytes_mut_view(*old(dst)),
    {
        proof {
            use_type_invariant(&item);
        }
        let payload_len = item.payload.len();
        if payload_len > u32::MAX as usize {
            return Err(ProtoError::PayloadTooLarge { len: u32::MAX, max: self.max_payload_len });
        }
        let payload_len_u32 = payload_len as u32;
        match self.ensure_within_limit(payload_len_u32) {
            Ok(()) => {},
            Err(e) => {
                return Err(e);
            },
        }
        let header = Header::new(item.header.kind(), item.header.flags(), payload_len_u32);
        dst.extend_from_slice(header.as_bytes());
        dst.extend_from_slice(<Bytes as AsRef<[u8]>>::as_ref(&item.payload));
        Ok(())
    }
}

impl Default for FrameCodec {
    fn default() -> (r: FrameCodec)
        ensures
            r.spec_max() == DEFAULT_MAX_PAYLOAD_LEN,
    {
        Self::with_default_limit()
    }
}

/// Round trip: the bytes `encode` writes for `Frame::new(kind, flags,
/// payload)` decode, under any ceiling the payload fits, to a complete frame
/// with the same header and payload, consuming exactly those bytes.
pub proof fn lemma_round_trip(max: u32, kind: Kind, flags: u8, payload: Seq<u8>)
    requires
        payload.len() <= max,
        HEADER_SIZE + payload.len() <= usize::MAX,
    ensures
        ({
            let h = header_bytes(kind, flags, payload.len() as u32);
            let wire = encoded(h, payload);
            &&& wire == h + payload
            &&& decode_step(max, wire) == DecodeStep::Complete
            &&& wire.subrange(0, HEADER_SIZE as int) == h
            &&& wire.subrange(HEADER_SIZE as int, frame_len(wire)) == payload
            &&& frame_len(wire) == wire.len()
        }),
{
    let n = payload.len() as u32;
    let h = header_bytes(kind, flags, n);
    lemma_header_bytes(kind, flags, n);
    let wire = encoded(h, payload);
    assert(wire =~= h + payload);
    assert(wire.subrange(0, 12) =~= h);
    assert(wire.subrange(12, wire.len() as int) =~= payload);
    assert(payload_len_of(wire) == payload_len_of(h));
}

/// Partial delivery: while only a proper prefix of an encoded frame is
/// buffered, decoding asks for more data and raises no error.
pub proof fn lemma_partial_delivery(max: u32, kind: Kind, flags: u8, payload: Seq<u8>, k: int)
    requires
        payload.len() <= max,
        HEADER_SIZE + payload.len() <= usize::MAX,
        0 <= k < HEADER_SIZE + payload.len(),
    ensures
        decode_step(max, (header_bytes(kind, flags, payload.len() as u32) + payload).subrange(0, k))
            == DecodeStep::NeedMore,
{
    let n = payload.len() as u32;
    let h = header_bytes(kind, flags, n);
    lemma_header_bytes(kind, flags, n);
    let wire = h + payload;
    let p = wire.subrange(0, k);
    if k >= 12 {
        assert(p.subrange(0, 12) =~= h);
        assert(payload_len_of(p) == payload_len_of(h));
    }
}

/// Oversized payload: a valid header that declares more than the ceiling is
/// rejected as soon as the header is buffered, whatever follows it.
pub proof fn lemma_oversized(max: u32, s: Seq<u8>)
    requires
        s.len() >= HEADER_SIZE,
        header_valid(s.subrange(0, HEADER_SIZE as int)),
        payload_len_of(s) > max,
    ensures
        decode_step(max, s) == DecodeStep::TooLarge,
{
}

/// Corrupted magic: replacing the first four bytes of an encoded frame by any
/// other four bytes makes decoding fail with `InvalidMagic` carrying them.
pub proof fn lemma_corrupted_magic(
    max: u32,
    kind: Kind,
    flags: u8,
    payload: Seq<u8>,
    m: Seq<u8>,
    e: HeaderError,
)
    requires
        m.len() == 4,
        m != magic_seq(),
    ensures
        ({
            let wire = header_bytes(kind, flags, payload.len() as u32) + payload;
            let s = m + wire.subrange(4, wire.len() as int);
            &&& decode_step(max, s) == DecodeStep::BadHeader
            &&& header_error_of(s.subrange(0, HEADER_SIZE as int), e) ==> (e matches HeaderError::InvalidMagic(b) && b@ == m)
        }),
{
    let wire = header_bytes(kind, flags, payload.len() as u32) + payload;
    let s = m + wire.subrange(4, wire.len() as int);
    assert(s.subrange(0, 12).subrange(0, 4) =~= m);
}

/// Version mismatch: a header whose version field is anything but the
/// supported version fails with `UnsupportedVersion`, even when magic, kind
/// and length are valid.
pub proof fn lemma_version_mismatch(
    max: u32,
    kind: Kind,
    flags: u8,
    payload: Seq<u8>,
    v: u16,
    e: HeaderError,
)
    requires
        v != VERSION,
    ensures
        ({
            let wire = header_bytes(kind, flags, payload.len() as u32) + payload;
            let s = wire.subrange(0, 4) + u16_be(v) + wire.subrange(6, wire.len() as int);
            &&& decode_step(max, s) == DecodeStep::BadHeader
            &&& header_error_of(s.subrange(0, HEADER_SIZE as int), e) <==> e
                == HeaderError::UnsupportedVersion { found: v, expected: VERSION }
        }),
{
    let wire = header_bytes(kind, flags, payload.len() as u32) + payload;
    let s = wire.subrange(0, 4) + u16_be(v) + wire.subrange(6, wire.len() as int);
    let h = s.subrange(0, 12);
    assert(h.subrange(0, 4) =~= magic_seq());
    lemma_fundamental_div_mod(v as int, 256);
    assert(read_u16_be(u16_be(v), 0) == v);
    assert(version_of(h) == v);
}

} // verus!
