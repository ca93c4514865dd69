//! Error taxonomy: header faults, and the codec's own failures.

use vstd::prelude::*;

verus! {

#[verifier::external_type_specification]
#[verifier::external_body]
pub struct ExIoError(std::io::Error);

/// Why a header could not be parsed. Each variant is a function of the
/// input bytes alone.
#[derive(Clone, Copy, Debug, PartialEq, Eq)]
pub enum HeaderError {
    /// Fewer bytes than a header occupies.
    Truncated,
    /// The buffer's alignment does not allow a zero-copy view.
    Misaligned,
    /// The first four bytes are not the protocol's magic value.
    InvalidMagic([u8; 4]),
    /// The version field differs from the supported version.
    UnsupportedVersion { found: u16, expected: u16 },
    /// The kind byte names no known `Kind`.
    InvalidKind(u8),
}

/// Failures surfaced by the codec and the transports built on it.
#[derive(Debug)]
pub enum ProtoError {
    /// The header could not be parsed.
    Header(HeaderError),
    /// A payload length above the configured ceiling (or above what the
    /// 4-byte length field can hold).
    PayloadTooLarge { len: u32, max: u32 },
    /// A header's declared payload length differs from the payload present.
    LengthMismatch { expected: u32, actual: usize },
    /// The underlying stream failed.
    Io(std::io::Error),
}

impl From<HeaderError> for ProtoError {
    fn from(e: HeaderError) -> (r: ProtoError)
        ensures
            r == ProtoError::Header(e),
    {
        ProtoError::Header(e)
    }
}

impl vstd::std_specs::convert::FromSpecImpl<HeaderError> for ProtoError {
    open spec fn obeys_from_spec() -> bool {
        true
    }

    open spec fn from_spec(e: HeaderError) -> ProtoError {
        ProtoError::Header(e)
    }
}

} // verus!
