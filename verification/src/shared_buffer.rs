//! Immutable, cheaply cloneable byte buffers with zero-copy slicing.

use bytes::{Bytes, BytesMut};
use vstd::prelude::*;

verus! {

/// `bytes::Bytes`, carried as an opaque value.
#[verifier::external_type_specification]
#[verifier::external_body]
pub struct ExBytes(bytes::Bytes);

/// The byte sequence that a `Bytes` handle gives access to.
pub uninterp spec fn bytes_contents(b: Bytes) -> Seq<u8>;

/// `Bytes::from(Vec<u8>)`: the handle takes over the vector's storage and
/// exposes exactly the vector's bytes.
#[verifier::external_body]
pub(crate) fn bytes_from_vec(vec: Vec<u8>) -> (b: Bytes)
    ensures
        bytes_contents(b) == vec@,
{
    Bytes::from(vec)
}

/// `Bytes::len`: the number of bytes behind the handle.
#[verifier::external_body]
pub(crate) fn bytes_len(b: &Bytes) -> (n: usize)
    ensures
        n == bytes_contents(*b).len(),
{
    b.len()
}

/// `Bytes::slice` on a half-open range: a handle on the same storage that
/// exposes the bytes from `start` up to `end`. The outside function panics
/// unless `start <= end <= len`, hence the precondition.
#[verifier::external_body]
pub(crate) fn bytes_slice(b: &Bytes, start: usize, end: usize) -> (r: Bytes)
    requires
        start <= end <= bytes_contents(*b).len(),
    ensures
        bytes_contents(r) == bytes_contents(*b).subrange(start as int, end as int),
{
    b.slice(start..end)
}

/// `Bytes::clone`: a second handle on the same bytes.
#[verifier::external_body]
pub(crate) fn bytes_clone(b: &Bytes) -> (r: Bytes)
    ensures
        bytes_contents(r) == bytes_contents(*b),
{
    b.clone()
}

/// `Bytes` dereferenced to a slice: a view of the same bytes.
#[verifier::external_body]
pub(crate) fn bytes_as_slice(b: &Bytes) -> (s: &[u8])
    ensures
        s@ == bytes_contents(*b),
{
    &b[..]
}

/// `bytes::BytesMut`, carried as an opaque value.
#[verifier::external_type_specification]
#[verifier::external_body]
pub struct ExBytesMut(bytes::BytesMut);

/// The byte sequence currently held by a growable `BytesMut` buffer.
pub uninterp spec fn bytes_mut_contents(b: BytesMut) -> Seq<u8>;

/// `n` zero bytes.
pub open spec fn zeros(n: nat) -> Seq<u8> {
    Seq::new(n, |i: int| 0u8)
}

/// `BytesMut::new`: an empty growable buffer.
#[verifier::external_body]
pub(crate) fn bytes_mut_new() -> (b: BytesMut)
    ensures
        bytes_mut_contents(b) == Seq::<u8>::empty(),
{
    BytesMut::new()
}

/// `BytesMut::from(&[u8])`: a growable buffer holding a copy of the slice.
#[verifier::external_body]
pub(crate) fn bytes_mut_from_slice(data: &[u8]) -> (b: BytesMut)
    ensures
        bytes_mut_contents(b) == data@,
{
    BytesMut::from(data)
}

/// `BytesMut::len`: the number of bytes held.
#[verifier::external_body]
pub(crate) fn bytes_mut_len(b: &BytesMut) -> (n: usize)
    ensures
        n == bytes_mut_contents(*b).len(),
{
    b.len()
}

/// `BytesMut::resize` with fill byte zero: a shorter length truncates, a
/// longer one appends zero bytes. Reserving more than `isize::MAX` bytes
/// panics, hence the precondition.
#[verifier::external_body]
pub(crate) fn bytes_mut_resize_zeroed(b: &mut BytesMut, new_len: usize)
    requires
        new_len <= isize::MAX,
    ensures
        new_len <= bytes_mut_contents(*old(b)).len() ==> bytes_mut_contents(*final(b))
            == bytes_mut_contents(*old(b)).take(new_len as int),
        new_len > bytes_mut_contents(*old(b)).len() ==> bytes_mut_contents(*final(b))
            == bytes_mut_contents(*old(b)) + zeros(
            (new_len - bytes_mut_contents(*old(b)).len()) as nat,
        ),
{
    b.resize(new_len, 0)
}

/// Overwrites the bytes `pos..end` of a `BytesMut` with `src`
/// (`copy_from_slice` on the buffer dereferenced to a mutable slice). The
/// range must lie inside the buffer and be as long as `src`, or the call
/// panics.
#[verifier::external_body]
pub(crate) fn bytes_mut_overwrite(b: &mut BytesMut, pos: usize, end: usize, src: &[u8])
    requires
        end == pos + src@.len(),
        end <= bytes_mut_contents(*old(b)).len(),
    ensures
        bytes_mut_contents(*final(b)) == bytes_mut_contents(*old(b)).take(pos as int) + src@
            + bytes_mut_contents(*old(b)).skip(end as int),
{
    b[pos..end].copy_from_slice(src)
}

/// `BytesMut` dereferenced to a slice: a view of the bytes held.
#[verifier::external_body]
pub(crate) fn bytes_mut_as_slice(b: &BytesMut) -> (s: &[u8])
    ensures
        s@ == bytes_mut_contents(*b),
{
    &b[..]
}

/// `BytesMut::freeze`: turns the buffer into an immutable handle on the same
/// bytes, without copying.
#[verifier::external_body]
pub(crate) fn bytes_mut_freeze(b: BytesMut) -> (r: Bytes)
    ensures
        bytes_contents(r) == bytes_mut_contents(b),
{
    b.freeze()
}

/// A reference-counted immutable byte buffer. Cloning and slicing share the
/// underlying storage; the length is fixed at creation.
#[derive(Debug)]
pub struct SharedBuffer {
    data: Bytes,
}

impl View for SharedBuffer {
    type V = Seq<u8>;

    closed spec fn view(&self) -> Seq<u8> {
        bytes_contents(self.data)
    }
}

impl Clone for SharedBuffer {
    fn clone(&self) -> (res: Self)
        ensures
            res@ == self@,
    {
        SharedBuffer { data: bytes_clone(&self.data) }
    }
}

impl SharedBuffer {
    /// Adopts an owned byte vector.
    pub fn from_vec(vec: Vec<u8>) -> (buf: Self)
        ensures
            buf@ == vec@,
    {
        SharedBuffer { data: bytes_from_vec(vec) }
    }

    /// Wraps an existing `Bytes` handle.
    pub fn from_bytes(bytes: Bytes) -> (buf: Self)
        ensures
            buf@ == bytes_contents(bytes),
    {
        SharedBuffer { data: bytes }
    }

    /// The buffer's bytes as a slice.
    pub fn as_slice(&self) -> (s: &[u8])
        ensures
            s@ == self@,
    {
        bytes_as_slice(&self.data)
    }

    /// Number of bytes in the buffer.
    pub fn len(&self) -> (n: usize)
        ensures
            n == self@.len(),
    {
        bytes_len(&self.data)
    }

    /// Whether the buffer holds no bytes.
    pub fn is_empty(&self) -> (e: bool)
        ensures
            e == (self@.len() == 0),
    {
        bytes_len(&self.data) == 0
    }

    /// A buffer over the bytes `range.start..range.end` of this one, sharing
    /// its storage.
    pub fn slice(&self, range: core::ops::Range<usize>) -> (part: Self)
        requires
            range.start <= range.end <= self@.len(),
        ensures
            part@ == self@.subrange(range.start as int, range.end as int),
    {
        SharedBuffer { data: bytes_slice(&self.data, range.start, range.end) }
    }

    /// A `Bytes` handle on the buffer's bytes.
    pub fn to_bytes(&self) -> (b: Bytes)
        ensures
            bytes_contents(b) == self@,
    {
        bytes_clone(&self.data)
    }

    /// A `Bytes` handle on the buffer's bytes.
    pub fn clone_bytes(&self) -> (b: Bytes)
        ensures
            bytes_contents(b) == self@,
    {
        bytes_clone(&self.data)
    }
}

/// Slicing composes: a slice of a slice is the slice of the whole buffer at
/// the shifted range.
pub proof fn lemma_slice_of_slice(s: Seq<u8>, a: int, b: int, c: int, d: int)
    requires
        0 <= a <= b <= s.len(),
        0 <= c <= d <= b - a,
    ensures
        s.subrange(a, b).subrange(c, d) == s.subrange(a + c, a + d),
{
    assert(s.subrange(a, b).subrange(c, d) =~= s.subrange(a + c, a + d));
}

} // verus!
