//! Byte buffers.
//!
//! Payloads travel as [`bytes::Bytes`]; encoders build them in a
//! [`bytes::BytesMut`].  Neither type is verified here: this module states
//! what the rest of the crate relies on, and nothing in it is proved.

use bytes::BufMut;
use bytes::Bytes;
use bytes::BytesMut;
use vstd::prelude::*;

verus! {

/// `bytes::Bytes`, an immutable, cheaply cloneable run of bytes.
#[verifier::external_type_specification]
#[verifier::external_body]
pub struct ExBytes(bytes::Bytes);

/// `bytes::BytesMut`, a growable byte buffer.
#[verifier::external_type_specification]
#[verifier::external_body]
pub struct ExBytesMut(bytes::BytesMut);

/// The bytes that a `Bytes` handle holds, in order.
pub uninterp spec fn bytes_view(b: Bytes) -> Seq<u8>;

/// The bytes written so far into a `BytesMut`, in order.
pub uninterp spec fn bytes_mut_view(b: BytesMut) -> Seq<u8>;

/// `Bytes::new` returns a handle that holds no bytes.
pub assume_specification[ Bytes::new ]() -> (b: Bytes)
    ensures
        bytes_view(b) == Seq::<u8>::empty(),
;

/// `Bytes::len` returns the number of bytes held.
pub assume_specification[ Bytes::len ](b: &Bytes) -> (n: usize)
    ensures
        n == bytes_view(*b).len(),
;

/// `Bytes::is_empty` tells whether the handle holds no bytes.
pub assume_specification[ Bytes::is_empty ](b: &Bytes) -> (e: bool)
    ensures
        e == (bytes_view(*b).len() == 0),
;

/// `Clone::clone` on `Bytes` returns a second handle to the same bytes.
pub assume_specification[ <Bytes as Clone>::clone ](b: &Bytes) -> (c: Bytes)
    ensures
        bytes_view(c) == bytes_view(*b),
;

/// `Bytes::slice` with a range open at the end: the result holds the bytes
/// from `start` on.  The call panics when `start` is past the end, which the
/// precondition rules out.
#[verifier::external_body]
pub(crate) fn slice_from(b: &Bytes, start: usize) -> (r: Bytes)
    requires
        start <= bytes_view(*b).len(),
    ensures
        bytes_view(r) == bytes_view(*b).skip(start as int),
{
    b.slice(start..)
}

/// `AsRef::<[u8]>::as_ref` on `Bytes`: the held bytes as a slice.
#[verifier::external_body]
pub(crate) fn as_slice(b: &Bytes) -> (s: &[u8])
    ensures
        s@ == bytes_view(*b),
{
    b.as_ref()
}

/// `From::<Vec<u8>>::from` for `Bytes`: a handle that holds the bytes of the
/// vector.
#[verifier::external_body]
pub(crate) fn from_vec(v: Vec<u8>) -> (r: Bytes)
    ensures
        bytes_view(r) == v@,
{
    Bytes::from(v)
}

/// `BytesMut::with_capacity` returns an empty buffer.  It panics when the
/// capacity exceeds `isize::MAX`, which the precondition rules out.
pub assume_specification[ BytesMut::with_capacity ](capacity: usize) -> (b: BytesMut)
    requires
        capacity <= isize::MAX,
    ensures
        bytes_mut_view(b) == Seq::<u8>::empty(),
;

/// `BufMut::put_slice` on `BytesMut` appends `src` to the buffer, growing it
/// as needed.  Growth panics when the new length would exceed `isize::MAX`,
/// which the precondition rules out.
pub assume_specification[ <BytesMut as BufMut>::put_slice ](b: &mut BytesMut, src: &[u8])
    requires
        bytes_mut_view(*old(b)).len() + src@.len() <= isize::MAX,
    ensures
        bytes_mut_view(*final(b)) == bytes_mut_view(*old(b)) + src@,
;

/// `BytesMut::freeze` turns the buffer into an immutable handle to the same
/// bytes.
pub assume_specification[ BytesMut::freeze ](b: BytesMut) -> (r: Bytes)
    ensures
        bytes_view(r) == bytes_mut_view(b),
;

} // verus!
