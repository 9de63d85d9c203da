//! Little-endian fixed-width records, read and written with `bincode`'s
//! default functions (fixed-size integers, little endian, no length prefix for
//! tuples and arrays, trailing bytes allowed).
use vstd::prelude::*;

verus! {

/// `bincode::ErrorKind`, the error `bincode` reports, opaque.
#[verifier::external_type_specification]
#[verifier::external_body]
pub struct ExBincodeErrorKind(bincode::ErrorKind);

/// The `u16` stored little endian at `s[i..i + 2]`.
pub open spec fn le_u16(s: Seq<u8>, i: int) -> u16 {
    (s[i] + 256 * s[i + 1]) as u16
}

/// The `u32` stored little endian at `s[i..i + 4]`.
pub open spec fn le_u32(s: Seq<u8>, i: int) -> u32 {
    (le_u16(s, i) + 65536 * le_u16(s, i + 2)) as u32
}

/// The `u64` stored little endian at `s[i..i + 8]`.
pub open spec fn le_u64(s: Seq<u8>, i: int) -> u64 {
    (le_u32(s, i) + 4294967296 * le_u32(s, i + 4)) as u64
}

/// The two's-complement `i16` stored little endian at `s[i..i + 2]`.
pub open spec fn le_i16(s: Seq<u8>, i: int) -> i16 {
    let u = le_u16(s, i);
    if u < 32768 {
        u as i16
    } else {
        (u - 65536) as i16
    }
}

/// The two little-endian bytes of `v`.
pub open spec fn u16_le_bytes(v: u16) -> Seq<u8> {
    seq![(v % 256) as u8, (v / 256) as u8]
}

/// The four little-endian bytes of `v`.
pub open spec fn u32_le_bytes(v: u32) -> Seq<u8> {
    u16_le_bytes((v % 65536) as u16) + u16_le_bytes((v / 65536) as u16)
}

/// The eight little-endian bytes of `v`.
pub open spec fn u64_le_bytes(v: u64) -> Seq<u8> {
    u32_le_bytes((v % 0x1_0000_0000) as u32) + u32_le_bytes((v / 0x1_0000_0000) as u32)
}

/// `bincode::deserialize::<(u8, u8, u16)>`: reads the first four bytes; fails only on a
/// shorter input.
#[verifier::external_body]
pub(crate) fn read_u8_u8_u16(bytes: &[u8]) -> (r: Result<(u8, u8, u16), Box<bincode::ErrorKind>>)
    ensures
        r is Ok <==> bytes@.len() >= 4,
        r matches Ok(v) ==> v == (bytes@[0], bytes@[1], le_u16(bytes@, 2)),
{
    bincode::deserialize(bytes)
}

/// `bincode::deserialize::<u16>`: reads the first two bytes; fails only on a shorter input.
#[verifier::external_body]
pub(crate) fn read_u16(bytes: &[u8]) -> (r: Result<u16, Box<bincode::ErrorKind>>)
    ensures
        r is Ok <==> bytes@.len() >= 2,
        r matches Ok(v) ==> v == le_u16(bytes@, 0),
{
    bincode::deserialize(bytes)
}

/// `bincode::deserialize::<u64>`: reads the first eight bytes; fails only on a shorter input.
#[verifier::external_body]
pub(crate) fn read_u64(bytes: &[u8]) -> (r: Result<u64, Box<bincode::ErrorKind>>)
    ensures
        r is Ok <==> bytes@.len() >= 8,
        r matches Ok(v) ==> v == le_u64(bytes@, 0),
{
    bincode::deserialize(bytes)
}

/// `bincode::deserialize::<([u8; 6], u64)>`: six raw bytes then a `u64`; fails only on an
/// input shorter than fourteen bytes.
#[verifier::external_body]
pub(crate) fn read_mac_u64(bytes: &[u8]) -> (r: Result<([u8; 6], u64), Box<bincode::ErrorKind>>)
    ensures
        r is Ok <==> bytes@.len() >= 14,
        r matches Ok(v) ==> v.0@ == bytes@.take(6) && v.1 == le_u64(bytes@, 6),
{
    bincode::deserialize(bytes)
}

/// `bincode::deserialize::<(i16, i16, u32)>`: reads the first eight bytes; fails only on a
/// shorter input.
#[verifier::external_body]
pub(crate) fn read_i16_i16_u32(bytes: &[u8]) -> (r: Result<(i16, i16, u32), Box<bincode::ErrorKind>>)
    ensures
        r is Ok <==> bytes@.len() >= 8,
        r matches Ok(v) ==> v == (le_i16(bytes@, 0), le_i16(bytes@, 2), le_u32(bytes@, 4)),
{
    bincode::deserialize(bytes)
}

/// `bincode::deserialize::<(u64, u64)>`: reads the first sixteen bytes; fails only on a
/// shorter input.
#[verifier::external_body]
pub(crate) fn read_u64_u64(bytes: &[u8]) -> (r: Result<(u64, u64), Box<bincode::ErrorKind>>)
    ensures
        r is Ok <==> bytes@.len() >= 16,
        r matches Ok(v) ==> v == (le_u64(bytes@, 0), le_u64(bytes@, 8)),
{
    bincode::deserialize(bytes)
}

/// `bincode::deserialize::<(u32, u16, u16, (u64, u64))>`: reads the first twenty-four bytes;
/// fails only on a shorter input.
#[verifier::external_body]
pub(crate) fn read_u32_u16_u16_u64_u64(bytes: &[u8]) -> (r: Result<
    (u32, u16, u16, (u64, u64)),
    Box<bincode::ErrorKind>,
>)
    ensures
        r is Ok <==> bytes@.len() >= 24,
        r matches Ok(v) ==> v == (
            le_u32(bytes@, 0),
            le_u16(bytes@, 4),
            le_u16(bytes@, 6),
            (le_u64(bytes@, 8), le_u64(bytes@, 16)),
        ),
{
    bincode::deserialize(bytes)
}

/// `bincode::serialize::<(u8, u8, u16)>`: the two bytes then the `u16` little endian.
/// Writing fixed-width integers into a `Vec` with no size limit cannot fail.
#[verifier::external_body]
pub(crate) fn write_u8_u8_u16(v: &(u8, u8, u16)) -> (r: Result<Vec<u8>, Box<bincode::ErrorKind>>)
    ensures
        r is Ok,
        r matches Ok(out) ==> out@ == seq![v.0, v.1] + u16_le_bytes(v.2),
{
    bincode::serialize(v)
}

/// `bincode::serialize::<u16>`: the value little endian.
/// Writing a fixed-width integer into a `Vec` with no size limit cannot fail.
#[verifier::external_body]
pub(crate) fn write_u16(v: &u16) -> (r: Result<Vec<u8>, Box<bincode::ErrorKind>>)
    ensures
        r is Ok,
        r matches Ok(out) ==> out@ == u16_le_bytes(*v),
{
    bincode::serialize(v)
}

/// `bincode::serialize::<([u8; 6], u16)>`: the six raw bytes, then the `u16` little endian.
/// Writing fixed-width values into a `Vec` with no size limit cannot fail.
#[verifier::external_body]
pub(crate) fn write_mac_u16(v: &([u8; 6], u16)) -> (r: Result<Vec<u8>, Box<bincode::ErrorKind>>)
    ensures
        r is Ok,
        r matches Ok(out) ==> out@ == v.0@ + u16_le_bytes(v.1),
{
    bincode::serialize(v)
}

/// `bincode::serialize::<u32>`: the value little endian.
/// Writing a fixed-width integer into a `Vec` with no size limit cannot fail.
#[verifier::external_body]
pub(crate) fn write_u32(v: &u32) -> (r: Result<Vec<u8>, Box<bincode::ErrorKind>>)
    ensures
        r is Ok,
        r matches Ok(out) ==> out@ == u32_le_bytes(*v),
{
    bincode::serialize(v)
}

/// `bincode::serialize::<u64>`: the value little endian.
/// Writing a fixed-width integer into a `Vec` with no size limit cannot fail.
#[verifier::external_body]
pub(crate) fn write_u64(v: &u64) -> (r: Result<Vec<u8>, Box<bincode::ErrorKind>>)
    ensures
        r is Ok,
        r matches Ok(out) ==> out@ == u64_le_bytes(*v),
{
    bincode::serialize(v)
}

} // verus!
