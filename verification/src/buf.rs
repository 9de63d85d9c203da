//! The `bytes::Bytes` buffers that carry MQTT payloads, as the library sees them.
use bytes::Bytes;
use vstd::prelude::*;

verus! {

/// `bytes::Bytes`, opaque: what it holds is `bytes_view`.
#[verifier::external_type_specification]
#[verifier::external_body]
pub struct ExBytes(Bytes);

/// The bytes a `Bytes` buffer holds, in order.
pub uninterp spec fn bytes_view(b: Bytes) -> Seq<u8>;

/// `Bytes::len`: the number of bytes the buffer holds.
#[verifier::external_body]
pub(crate) fn bytes_len(b: &Bytes) -> (n: usize)
    ensures
        n == bytes_view(*b).len(),
{
    b.len()
}

/// `Bytes::split_to`: the first `at` bytes are handed out, the buffer keeps the rest.
/// The crate panics when `at` exceeds the length, so that input is left out.
#[verifier::external_body]
pub(crate) fn bytes_split_to(b: &mut Bytes, at: usize) -> (head: Bytes)
    requires
        at <= bytes_view(*old(b)).len(),
    ensures
        bytes_view(head) == bytes_view(*old(b)).take(at as int),
        bytes_view(*final(b)) == bytes_view(*old(b)).skip(at as int),
{
    b.split_to(at)
}

/// `Bytes::slice(0..end)`: a buffer of the first `end` bytes; the original is untouched.
/// The crate panics when `end` exceeds the length, so that input is left out.
#[verifier::external_body]
pub(crate) fn bytes_slice_prefix(b: &Bytes, end: usize) -> (head: Bytes)
    requires
        end <= bytes_view(*b).len(),
    ensures
        bytes_view(head) == bytes_view(*b).take(end as int),
{
    b.slice(0..end)
}

/// `Bytes::clear`: the buffer ends up empty.
#[verifier::external_body]
pub(crate) fn bytes_clear(b: &mut Bytes)
    ensures
        bytes_view(*final(b)) == Seq::<u8>::empty(),
{
    b.clear()
}

/// `<Bytes as AsRef<[u8]>>::as_ref`: the held bytes as a slice.
#[verifier::external_body]
pub(crate) fn bytes_as_slice(b: &Bytes) -> (s: &[u8])
    ensures
        s@ == bytes_view(*b),
{
    b.as_ref()
}

/// `<Bytes as From<Vec<u8>>>::from`: a buffer holding exactly the vector's bytes.
#[verifier::external_body]
pub(crate) fn bytes_from_vec(v: Vec<u8>) -> (b: Bytes)
    ensures
        bytes_view(b) == v@,
{
    Bytes::from(v)
}

} // verus!
