//! Bounds-checked readers of fixed-width integers from a byte slice.
//!
//! Every reader returns `None` instead of touching a byte past the end of the
//! slice it was given. The values are stated over the mathematical functions
//! [`le_u16`], [`le_u32`], [`le_u64`], [`le_i32`] and [`be_u32`].

use vstd::prelude::*;

verus! {

/// The unsigned 16-bit little-endian number whose first byte is `bytes[at]`.
pub open spec fn le_u16(bytes: Seq<u8>, at: int) -> int {
    bytes[at] + 0x100 * bytes[at + 1]
}

/// The unsigned 32-bit little-endian number whose first byte is `bytes[at]`.
pub open spec fn le_u32(bytes: Seq<u8>, at: int) -> int {
    bytes[at] + 0x100 * bytes[at + 1] + 0x1_0000 * bytes[at + 2] + 0x100_0000 * bytes[at + 3]
}

/// The unsigned 64-bit little-endian number whose first byte is `bytes[at]`.
pub open spec fn le_u64(bytes: Seq<u8>, at: int) -> int {
    le_u32(bytes, at) + 0x1_0000_0000 * le_u32(bytes, at + 4)
}

/// The two's-complement 32-bit little-endian number whose first byte is `bytes[at]`.
pub open spec fn le_i32(bytes: Seq<u8>, at: int) -> int {
    if le_u32(bytes, at) < 0x8000_0000 {
        le_u32(bytes, at)
    } else {
        le_u32(bytes, at) - 0x1_0000_0000
    }
}

/// The unsigned 32-bit big-endian number whose first byte is `bytes[at]`.
pub open spec fn be_u32(bytes: Seq<u8>, at: int) -> int {
    0x100_0000 * bytes[at] + 0x1_0000 * bytes[at + 1] + 0x100 * bytes[at + 2] + bytes[at + 3]
}

/// `width` bytes starting at `at` all lie inside `bytes`.
pub open spec fn in_bounds(bytes: Seq<u8>, at: int, width: int) -> bool {
    0 <= at && at + width <= bytes.len()
}

/// A type that can be decoded from `SIZE_OF` bytes, least significant byte first.
pub trait FromLe<const SIZE_OF: usize>: Sized {
    /// The value that the first `SIZE_OF` bytes of `bytes` encode.
    spec fn le_value(bytes: Seq<u8>) -> Self;

    fn from_le_bytes(bytes: [u8; SIZE_OF]) -> (value: Self)
        ensures
            value == Self::le_value(bytes@),
    ;
}

/// A type that can be decoded from `SIZE_OF` bytes, most significant byte first.
pub trait FromBe<const SIZE_OF: usize>: Sized {
    /// The value that the first `SIZE_OF` bytes of `bytes` encode.
    spec fn be_value(bytes: Seq<u8>) -> Self;

    fn from_be_bytes(bytes: [u8; SIZE_OF]) -> (value: Self)
        ensures
            value == Self::be_value(bytes@),
    ;
}

/// Splits `slice` in two at `mid`, or returns `None` when `mid` is past its end.
pub fn split_at<T>(slice: &[T], mid: usize) -> (parts: Option<(&[T], &[T])>)
    ensures
        mid <= slice@.len() ==> (parts matches Some(pair) && pair.0@ == slice@.subrange(
            0,
            mid as int,
        ) && pair.1@ == slice@.subrange(mid as int, slice@.len() as int)),
        mid > slice@.len() ==> parts is None,
{
    if mid <= slice.len() {
        Some(slice.split_at(mid))
    } else {
        None
    }
}

/// The first `end` elements of `slice`, or `None` when it has fewer.
pub fn left_slice<T>(slice: &[T], end: usize) -> (left: Option<&[T]>)
    ensures
        end <= slice@.len() ==> (left matches Some(part) && part@ == slice@.subrange(
            0,
            end as int,
        )),
        end > slice@.len() ==> left is None,
{
    if end <= slice.len() {
        Some(&slice[0..end])
    } else {
        None
    }
}

/// What is left of `slice` from index `begin` on, or `None` when `begin` is past its end.
pub fn right_slice<T>(slice: &[T], begin: usize) -> (right: Option<&[T]>)
    ensures
        begin <= slice@.len() ==> (right matches Some(part) && part@ == slice@.subrange(
            begin as int,
            slice@.len() as int,
        )),
        begin > slice@.len() ==> right is None,
{
    if begin <= slice.len() {
        Some(&slice[begin..slice.len()])
    } else {
        None
    }
}

/// Copies a slice of exactly `N` bytes into an array; any other length gives `None`.
fn to_array<const N: usize>(bytes: &[u8]) -> (array: Option<[u8; N]>)
    ensures
        bytes@.len() == N ==> (array matches Some(a) && a@ == bytes@),
        bytes@.len() != N ==> array is None,
{
    if bytes.len() != N {
        return None;
    }
    let mut array = [0u8;N];
    let mut i: usize = 0;
    while i < N
        invariant
            bytes@.len() == N,
            i <= N,
            forall|k: int| 0 <= k < i ==> array@[k] == bytes@[k],
        decreases N - i,
    {
        array[i] = bytes[i];
        i += 1;
    }
    Some(array)
}

/// Decodes a little-endian `T` from the front of `bytes_ref`.
///
/// The result is `None` when `bytes_ref` holds fewer bytes than a `T` takes, and
/// also when `SIZE_OF` is not the size of `T`.
pub fn from_le_bytes<T, const SIZE_OF: usize>(bytes_ref: &[u8]) -> (value: Option<T>) where
    T: FromLe<SIZE_OF>,

    ensures
        value == if vstd::layout::size_of::<T>() == SIZE_OF && SIZE_OF <= bytes_ref@.len() {
            Some(T::le_value(bytes_ref@.subrange(0, SIZE_OF as int)))
        } else {
            None
        },
{
    match to_array::<SIZE_OF>(left_slice(bytes_ref, core::mem::size_of::<T>())?) {
        Some(bytes) => Some(T::from_le_bytes(bytes)),
        None => None,
    }
}

/// Decodes a big-endian `T` from the front of `bytes_ref`.
///
/// The result is `None` when `bytes_ref` holds fewer bytes than a `T` takes, and
/// also when `SIZE_OF` is not the size of `T`.
pub fn from_be_bytes<T, const SIZE_OF: usize>(bytes_ref: &[u8]) -> (value: Option<T>) where
    T: FromBe<SIZE_OF>,

    ensures
        value == if vstd::layout::size_of::<T>() == SIZE_OF && SIZE_OF <= bytes_ref@.len() {
            Some(T::be_value(bytes_ref@.subrange(0, SIZE_OF as int)))
        } else {
            None
        },
{
    match to_array::<SIZE_OF>(left_slice(bytes_ref, core::mem::size_of::<T>())?) {
        Some(bytes) => Some(T::from_be_bytes(bytes)),
        None => None,
    }
}

impl FromLe<2> for u16 {
    open spec fn le_value(bytes: Seq<u8>) -> u16 {
        le_u16(bytes, 0) as u16
    }

    fn from_le_bytes(bytes: [u8; 2]) -> (value: u16) {
        bytes[0] as u16 + 0x100 * (bytes[1] as u16)
    }
}

impl FromLe<4> for u32 {
    open spec fn le_value(bytes: Seq<u8>) -> u32 {
        le_u32(bytes, 0) as u32
    }

    fn from_le_bytes(bytes: [u8; 4]) -> (value: u32) {
        bytes[0] as u32 + 0x100 * (bytes[1] as u32) + 0x1_0000 * (bytes[2] as u32) + 0x100_0000 * (
        bytes[3] as u32)
    }
}

impl FromLe<4> for i32 {
    open spec fn le_value(bytes: Seq<u8>) -> i32 {
        le_i32(bytes, 0) as i32
    }

    fn from_le_bytes(bytes: [u8; 4]) -> (value: i32) {
        let unsigned = <u32 as FromLe<4>>::from_le_bytes(bytes);
        if unsigned < 0x8000_0000 {
            unsigned as i32
        } else {
            (unsigned - 0x8000_0000) as i32 + i32::MIN
        }
    }
}

impl FromLe<8> for u64 {
    open spec fn le_value(bytes: Seq<u8>) -> u64 {
        le_u64(bytes, 0) as u64
    }

    fn from_le_bytes(bytes: [u8; 8]) -> (value: u64) {
        let low = bytes[0] as u64 + 0x100 * (bytes[1] as u64) + 0x1_0000 * (bytes[2] as u64)
            + 0x100_0000 * (bytes[3] as u64);
        let high = bytes[4] as u64 + 0x100 * (bytes[5] as u64) + 0x1_0000 * (bytes[6] as u64)
            + 0x100_0000 * (bytes[7] as u64);
        low + 0x1_0000_0000 * high
    }
}

impl FromBe<4> for u32 {
    open spec fn be_value(bytes: Seq<u8>) -> u32 {
        be_u32(bytes, 0) as u32
    }

    fn from_be_bytes(bytes: [u8; 4]) -> (value: u32) {
        0x100_0000 * (bytes[0] as u32) + 0x1_0000 * (bytes[1] as u32) + 0x100 * (bytes[2] as u32)
            + bytes[3] as u32
    }
}

} // verus!
