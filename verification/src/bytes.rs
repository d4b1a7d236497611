//! Fixed-width integers as they lie in a byte sequence.
//!
//! The spec functions give the value of a field at an offset of a byte
//! sequence. Floating-point fields are carried as the 64 bits of their
//! IEEE 754 binary64 encoding, so a field of that kind is a `u64` here.

use byteorder::{BigEndian, ByteOrder, LittleEndian};
use vstd::prelude::*;

verus! {

/// The unsigned value of the four bytes at `at`, least significant byte first.
pub open spec fn u32_le(s: Seq<u8>, at: int) -> int {
    s[at] as int + s[at + 1] as int * 0x100 + s[at + 2] as int * 0x1_0000 + s[at + 3] as int
        * 0x100_0000
}

/// The unsigned value of the four bytes at `at`, most significant byte first.
pub open spec fn u32_be(s: Seq<u8>, at: int) -> int {
    s[at] as int * 0x100_0000 + s[at + 1] as int * 0x1_0000 + s[at + 2] as int * 0x100 + s[at
        + 3] as int
}

/// The two's complement reading of an unsigned 32-bit value.
pub open spec fn signed32(u: int) -> int {
    if u >= 0x8000_0000 {
        u - 0x1_0000_0000
    } else {
        u
    }
}

/// The signed 32-bit integer stored little-endian at `at`.
#[verifier::opaque]
pub open spec fn i32_le(s: Seq<u8>, at: int) -> i32 {
    signed32(u32_le(s, at)) as i32
}

/// The signed 32-bit integer stored big-endian at `at`.
#[verifier::opaque]
pub open spec fn i32_be(s: Seq<u8>, at: int) -> i32 {
    signed32(u32_be(s, at)) as i32
}

/// The unsigned 64-bit integer stored little-endian at `at`.
#[verifier::opaque]
pub open spec fn u64_le(s: Seq<u8>, at: int) -> u64 {
    (u32_le(s, at) + u32_le(s, at + 4) * 0x1_0000_0000) as u64
}

/// A four-byte field always holds a value in the range of `i32`, and an
/// eight-byte field one in the range of `u64`: the casts in [`i32_le`],
/// [`i32_be`] and [`u64_le`] never truncate.
pub proof fn lemma_field_ranges(s: Seq<u8>, at: int)
    ensures
        0 <= u32_le(s, at) < 0x1_0000_0000,
        0 <= u32_be(s, at) < 0x1_0000_0000,
        i32_le(s, at) as int == signed32(u32_le(s, at)),
        i32_be(s, at) as int == signed32(u32_be(s, at)),
        u64_le(s, at) as int == u32_le(s, at) + u32_le(s, at + 4) * 0x1_0000_0000,
{
    reveal(i32_le);
    reveal(i32_be);
    reveal(u64_le);
}

/// `a` and `b` hold the same bytes from offset `from` up to, but not
/// including, offset `to`.
pub open spec fn same_bytes(a: Seq<u8>, b: Seq<u8>, from: int, to: int) -> bool {
    forall|k: int| from <= k < to ==> #[trigger] a[k] == b[k]
}

/// A field is a matter of its own bytes: two sequences that hold the same
/// four bytes at `at` hold the same 32-bit fields there, and with the same
/// eight bytes the same 64-bit field.
pub proof fn lemma_field_of_own_bytes(a: Seq<u8>, b: Seq<u8>, at: int)
    ensures
        same_bytes(a, b, at, at + 4) ==> i32_le(a, at) == i32_le(b, at) && i32_be(a, at) == i32_be(
            b,
            at,
        ),
        same_bytes(a, b, at, at + 8) ==> u64_le(a, at) == u64_le(b, at),
{
    reveal(i32_le);
    reveal(i32_be);
    reveal(u64_le);
    if same_bytes(a, b, at, at + 4) {
        assert(a[at] == b[at] && a[at + 1] == b[at + 1] && a[at + 2] == b[at + 2] && a[at + 3]
            == b[at + 3]);
    }
    if same_bytes(a, b, at, at + 8) {
        assert(a[at] == b[at] && a[at + 1] == b[at + 1] && a[at + 2] == b[at + 2] && a[at + 3]
            == b[at + 3]);
        assert(a[at + 4] == b[at + 4] && a[at + 5] == b[at + 5] && a[at + 6] == b[at + 6] && a[at
            + 7] == b[at + 7]);
    }
}

/// A field gives its bytes away: two sequences whose 32-bit fields at `at`
/// are equal, in either byte order, hold the same four bytes there, and
/// with equal 64-bit fields the same eight bytes.
pub proof fn lemma_bytes_of_own_field(a: Seq<u8>, b: Seq<u8>, at: int)
    ensures
        i32_le(a, at) == i32_le(b, at) || i32_be(a, at) == i32_be(b, at) ==> same_bytes(
            a,
            b,
            at,
            at + 4,
        ),
        u64_le(a, at) == u64_le(b, at) ==> same_bytes(a, b, at, at + 8),
{
    reveal(i32_le);
    reveal(i32_be);
    reveal(u64_le);
    lemma_digits_unique(
        a[at] as int,
        a[at + 1] as int,
        a[at + 2] as int,
        a[at + 3] as int,
        b[at] as int,
        b[at + 1] as int,
        b[at + 2] as int,
        b[at + 3] as int,
    );
    lemma_digits_unique(
        a[at + 3] as int,
        a[at + 2] as int,
        a[at + 1] as int,
        a[at] as int,
        b[at + 3] as int,
        b[at + 2] as int,
        b[at + 1] as int,
        b[at] as int,
    );
    if u64_le(a, at) == u64_le(b, at) {
        let low_a = u32_le(a, at);
        let low_b = u32_le(b, at);
        let high_a = u32_le(a, at + 4);
        let high_b = u32_le(b, at + 4);
        assert(high_a == high_b) by {
            if high_a < high_b {
                assert(low_a + high_a * 0x1_0000_0000 < low_b + high_b * 0x1_0000_0000);
            } else if high_a > high_b {
                assert(low_a + high_a * 0x1_0000_0000 > low_b + high_b * 0x1_0000_0000);
            }
        }
        assert(low_a == low_b);
        lemma_digits_unique(
            a[at + 4] as int,
            a[at + 5] as int,
            a[at + 6] as int,
            a[at + 7] as int,
            b[at + 4] as int,
            b[at + 5] as int,
            b[at + 6] as int,
            b[at + 7] as int,
        );
        assert forall|k: int| at <= k < at + 8 implies #[trigger] a[k] == b[k] by {
            assert(k == at || k == at + 1 || k == at + 2 || k == at + 3 || k == at + 4 || k == at
                + 5 || k == at + 6 || k == at + 7);
        }
    }
}

/// Four digits to the base 256 are decided by the number they spell.
proof fn lemma_digits_unique(
    a0: int,
    a1: int,
    a2: int,
    a3: int,
    b0: int,
    b1: int,
    b2: int,
    b3: int,
)
    requires
        0 <= a0 < 256,
        0 <= a1 < 256,
        0 <= a2 < 256,
        0 <= a3 < 256,
        0 <= b0 < 256,
        0 <= b1 < 256,
        0 <= b2 < 256,
        0 <= b3 < 256,
    ensures
        a0 + a1 * 0x100 + a2 * 0x1_0000 + a3 * 0x100_0000 == b0 + b1 * 0x100 + b2 * 0x1_0000 + b3
            * 0x100_0000 ==> a0 == b0 && a1 == b1 && a2 == b2 && a3 == b3,
{
    let a = a0 + a1 * 0x100 + a2 * 0x1_0000 + a3 * 0x100_0000;
    let b = b0 + b1 * 0x100 + b2 * 0x1_0000 + b3 * 0x100_0000;
    if a == b {
        assert(a3 == b3) by {
            if a3 < b3 {
                assert(a < b);
            } else if a3 > b3 {
                assert(a > b);
            }
        }
        assert(a2 == b2) by {
            if a2 < b2 {
                assert(a < b);
            } else if a2 > b2 {
                assert(a > b);
            }
        }
        assert(a1 == b1) by {
            if a1 < b1 {
                assert(a < b);
            } else if a1 > b1 {
                assert(a > b);
            }
        }
    }
}

/// Calls `byteorder::ByteOrder::read_i32` of `byteorder::BigEndian`, which
/// reads the first four bytes of `buf` as a big-endian two's complement
/// integer and panics on a shorter buffer.
///
/// Taken on trust: that the result is [`i32_be`] of `buf` at offset 0.
#[verifier::external_body]
pub(crate) fn be_i32(buf: &[u8]) -> (r: i32)
    requires
        buf@.len() >= 4,
    ensures
        r == i32_be(buf@, 0),
{
    BigEndian::read_i32(buf)
}

/// Calls `byteorder::ByteOrder::read_i32` of `byteorder::LittleEndian`, which
/// reads the first four bytes of `buf` as a little-endian two's complement
/// integer and panics on a shorter buffer.
///
/// Taken on trust: that the result is [`i32_le`] of `buf` at offset 0.
#[verifier::external_body]
pub(crate) fn le_i32(buf: &[u8]) -> (r: i32)
    requires
        buf@.len() >= 4,
    ensures
        r == i32_le(buf@, 0),
{
    LittleEndian::read_i32(buf)
}

/// Calls `byteorder::ByteOrder::read_u64` of `byteorder::LittleEndian`, which
/// reads the first eight bytes of `buf` as a little-endian unsigned integer
/// and panics on a shorter buffer. `read_f64` of the same trait is this
/// call followed by `from_bits`, so the result is the bits of the binary64
/// value that `read_f64` would return.
///
/// Taken on trust: that the result is [`u64_le`] of `buf` at offset 0.
#[verifier::external_body]
pub(crate) fn le_u64(buf: &[u8]) -> (r: u64)
    requires
        buf@.len() >= 8,
    ensures
        r == u64_le(buf@, 0),
{
    LittleEndian::read_u64(buf)
}

} // verus!
