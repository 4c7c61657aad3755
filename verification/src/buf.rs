//! The byte buffer of the `bytes` crate, with the contracts that the rest of the library
//! reasons with. Everything here is believed, not proved.
use bytes::{Buf, BufMut, BytesMut};
use vstd::prelude::*;

verus! {

/// Declares `bytes::BytesMut`.
#[verifier::external_type_specification]
#[verifier::external_body]
pub struct ExBytesMut(BytesMut);

/// The bytes that the buffer holds, from the next one to be read to the last one written.
pub uninterp spec fn bytes_of(b: BytesMut) -> Seq<u8>;

/// How many bytes a buffer may be made to hold. It is a fourth of what an allocation can have: a
/// buffer that grows may carry along as much room in front of its bytes as it holds, and doubles.
pub open spec fn max_len() -> int {
    isize::MAX as int / 4
}

/// `BytesMut::with_capacity`: a buffer that holds nothing.
#[verifier::external_body]
pub(crate) fn with_capacity(cap: usize) -> (b: BytesMut)
    requires
        cap <= isize::MAX,
    ensures
        bytes_of(b) == Seq::<u8>::empty(),
{
    BytesMut::with_capacity(cap)
}

/// `BytesMut::len`: how many bytes the buffer holds, which no allocation lets exceed
/// `isize::MAX`.
#[verifier::external_body]
pub(crate) fn len(b: &BytesMut) -> (n: usize)
    ensures
        n == bytes_of(*b).len(),
        n <= isize::MAX,
{
    b.len()
}

/// `BytesMut` as a slice (`Deref`): the bytes that it holds.
#[verifier::external_body]
pub(crate) fn as_slice(b: &BytesMut) -> (s: &[u8])
    ensures
        s@ == bytes_of(*b),
{
    b
}

/// `BytesMut` as a mutable slice (`DerefMut`): what is written through the slice is what the
/// buffer holds afterwards.
#[verifier::external_body]
pub(crate) fn as_mut_slice(b: &mut BytesMut) -> (s: &mut [u8])
    ensures
        s@ == bytes_of(*old(b)),
        bytes_of(*final(b)) == final(s)@,
{
    b
}

/// `BytesMut::split_to`: takes the first `at` bytes out of the buffer.
#[verifier::external_body]
pub(crate) fn split_to(b: &mut BytesMut, at: usize) -> (head: BytesMut)
    requires
        at <= bytes_of(*old(b)).len(),
    ensures
        bytes_of(head) == bytes_of(*old(b)).take(at as int),
        bytes_of(*final(b)) == bytes_of(*old(b)).skip(at as int),
{
    b.split_to(at)
}

/// `BytesMut::split_off`: takes all but the first `at` bytes out of the buffer.
#[verifier::external_body]
pub(crate) fn split_off(b: &mut BytesMut, at: usize) -> (tail: BytesMut)
    requires
        at <= bytes_of(*old(b)).len(),
    ensures
        bytes_of(tail) == bytes_of(*old(b)).skip(at as int),
        bytes_of(*final(b)) == bytes_of(*old(b)).take(at as int),
{
    b.split_off(at)
}

/// `BytesMut::split`: takes everything out of the buffer.
#[verifier::external_body]
pub(crate) fn split(b: &mut BytesMut) -> (all: BytesMut)
    ensures
        bytes_of(all) == bytes_of(*old(b)),
        bytes_of(*final(b)) == Seq::<u8>::empty(),
{
    b.split()
}

/// `BytesMut::truncate`: keeps the first `n` bytes, or all of them where there are fewer.
#[verifier::external_body]
pub(crate) fn truncate(b: &mut BytesMut, n: usize)
    ensures
        bytes_of(*final(b)) == (if n <= bytes_of(*old(b)).len() {
            bytes_of(*old(b)).take(n as int)
        } else {
            bytes_of(*old(b))
        }),
{
    b.truncate(n)
}

/// `Buf::advance` of `BytesMut`: drops the first `n` bytes.
#[verifier::external_body]
pub(crate) fn advance(b: &mut BytesMut, n: usize)
    requires
        n <= bytes_of(*old(b)).len(),
    ensures
        bytes_of(*final(b)) == bytes_of(*old(b)).skip(n as int),
{
    b.advance(n)
}

/// `BufMut::put_slice` of `BytesMut`: appends the bytes, and grows the buffer where it has to.
#[verifier::external_body]
pub(crate) fn put_slice(b: &mut BytesMut, s: &[u8])
    requires
        bytes_of(*old(b)).len() + s@.len() <= max_len(),
    ensures
        bytes_of(*final(b)) == bytes_of(*old(b)) + s@,
{
    b.put_slice(s)
}

/// `BytesMut::reserve`: makes room for at least `additional` more bytes, and leaves the contents
/// as they are. How much room there is then is the allocator's choice, of which nothing is said.
#[verifier::external_body]
pub(crate) fn reserve(b: &mut BytesMut, additional: usize)
    requires
        bytes_of(*old(b)).len() + additional <= max_len(),
    ensures
        bytes_of(*final(b)) == bytes_of(*old(b)),
{
    b.reserve(additional)
}

/// `BytesMut::resize`: truncates the buffer, or appends copies of `value`.
#[verifier::external_body]
pub(crate) fn resize(b: &mut BytesMut, new_len: usize, value: u8)
    requires
        new_len <= max_len(),
    ensures
        bytes_of(*final(b)) == (if new_len <= bytes_of(*old(b)).len() {
            bytes_of(*old(b)).take(new_len as int)
        } else {
            bytes_of(*old(b)) + Seq::new(
                (new_len - bytes_of(*old(b)).len()) as nat,
                |i: int| value,
            )
        }),
{
    b.resize(new_len, value)
}

/// `BytesMut::try_reclaim`: may find room for `additional` more bytes without an allocation,
/// and leaves the contents as they are. Whether it finds any depends on the allocation and on
/// the other handles to it, so nothing is said of the answer.
#[verifier::external_body]
pub(crate) fn try_reclaim(b: &mut BytesMut, additional: usize) -> (found: bool)
    ensures
        bytes_of(*final(b)) == bytes_of(*old(b)),
{
    b.try_reclaim(additional)
}

/// `BytesMut::capacity`: how many bytes fit without an allocation, which is at least what the
/// buffer holds. The rest of it is the allocator's choice.
#[verifier::external_body]
pub(crate) fn capacity(b: &BytesMut) -> (n: usize)
    ensures
        n >= bytes_of(*b).len(),
{
    b.capacity()
}

} // verus!
