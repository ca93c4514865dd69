//! Byte buffers of the `bytes` crate, as the codec sees them.
//!
//! `Bytes` and `BytesMut` are opaque to the verifier; what a buffer holds is
//! given a name (`bytes_view`, `bytes_mut_view`) and the methods the codec
//! calls are specified over those names.

use bytes::{Bytes, BytesMut};
use vstd::prelude::*;

verus! {

#[verifier::external_type_specification]
#[verifier::external_body]
pub struct ExBytes(Bytes);

#[verifier::external_type_specification]
#[verifier::external_body]
pub struct ExBytesMut(BytesMut);

/// The bytes that an immutable `Bytes` handle refers to.
pub uninterp spec fn bytes_view(b: Bytes) -> Seq<u8>;

/// The initialised bytes of a `BytesMut` (from its start up to its length).
pub uninterp spec fn bytes_mut_view(b: BytesMut) -> Seq<u8>;

/// Relies on `Bytes::len`: the number of bytes in the handle.
pub assume_specification[ Bytes::len ](b: &Bytes) -> (r: usize)
    ensures
        r == bytes_view(*b).len(),
;

/// Relies on `BytesMut::len`: the number of initialised bytes.
pub assume_specification[ BytesMut::len ](b: &BytesMut) -> (r: usize)
    ensures
        r == bytes_mut_view(*b).len(),
;

/// Relies on `BytesMut::split_to`: afterwards `b` holds `[at, len)` and the
/// result holds `[0, at)`; it panics if `at > len`.
pub assume_specification[ BytesMut::split_to ](b: &mut BytesMut, at: usize) -> (r: BytesMut)
    requires
        at <= bytes_mut_view(*old(b)).len(),
    ensures
        bytes_mut_view(r) == bytes_mut_view(*old(b)).subrange(0, at as int),
        bytes_mut_view(*final(b)) == bytes_mut_view(*old(b)).subrange(
            at as int,
            bytes_mut_view(*old(b)).len() as int,
        ),
;

/// Relies on `BytesMut::split_off`: afterwards `b` holds `[0, at)` and the
/// result holds `[at, len)`; it panics only if `at` exceeds the capacity,
/// which is at least the length.
pub assume_specification[ BytesMut::split_off ](b: &mut BytesMut, at: usize) -> (r: BytesMut)
    requires
        at <= bytes_mut_view(*old(b)).len(),
    ensures
        bytes_mut_view(*final(b)) == bytes_mut_view(*old(b)).subrange(0, at as int),
        bytes_mut_view(r) == bytes_mut_view(*old(b)).subrange(
            at as int,
            bytes_mut_view(*old(b)).len() as int,
        ),
;

/// Relies on `BytesMut::freeze`: the immutable handle refers to the same bytes.
pub assume_specification[ BytesMut::freeze ](b: BytesMut) -> (r: Bytes)
    ensures
        bytes_view(r) == bytes_mut_view(b),
;

/// Relies on `BytesMut::extend_from_slice`: the slice is appended. Growing
/// the buffer panics when the new capacity overflows, which the bound on the
/// new length rules out.
pub assume_specification[ BytesMut::extend_from_slice ](b: &mut BytesMut, extend: &[u8])
    requires
        bytes_mut_view(*old(b)).len() + extend@.len() <= isize::MAX,
    ensures
        bytes_mut_view(*final(b)) == bytes_mut_view(*old(b)) + extend@,
;

/// Relies on `Clone for Bytes`: the clone refers to the same bytes.
pub assume_specification[ <Bytes as core::clone::Clone>::clone ](b: &Bytes) -> (r: Bytes)
    ensures
        bytes_view(r) == bytes_view(*b),
;

/// Relies on `AsRef<[u8]> for Bytes`: a slice over the referenced bytes.
pub assume_specification[ <Bytes as core::convert::AsRef<[u8]>>::as_ref ](b: &Bytes) -> (r: &[u8])
    ensures
        r@ == bytes_view(*b),
;

/// Relies on `AsRef<[u8]> for BytesMut`: a slice over the initialised bytes.
pub assume_specification[ <BytesMut as core::convert::AsRef<[u8]>>::as_ref ](b: &BytesMut) -> (r: &[u8])
    ensures
        r@ == bytes_mut_view(*b),
;

} // verus!
