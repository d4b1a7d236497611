//! The 100-byte header at the start of a main file.

use crate::bytes::{
    i32_be, i32_le, lemma_bytes_of_own_field, lemma_field_of_own_bytes, same_bytes, u64_le,
};
use crate::cursor::ByteCursor;
use crate::error::{eof, IoErrorKind, ShapefileError};
use vstd::prelude::*;

verus! {

/// The number of bytes that the header occupies.
pub const HEADER_LEN: usize = 100;

/// The fields of the file header.
///
/// The eight bounds are IEEE 754 binary64 values, held as their 64 bits.
#[derive(Debug, Clone, Copy, PartialEq, Eq, Structural)]
pub struct Header {
    pub file_code: i32,
    pub file_length: i32,
    pub version: i32,
    pub shape_type: i32,
    pub min_x: u64,
    pub min_y: u64,
    pub max_x: u64,
    pub max_y: u64,
    pub min_z: u64,
    pub max_z: u64,
    pub min_m: u64,
    pub max_m: u64,
}

/// The header that the 100 bytes at `at` encode: the file code and the
/// file length big-endian at 0 and 24, everything else little-endian, the
/// version at 28, the shape type at 32 and the eight bounds from 36 on. The
/// 20 bytes from 4 on belong to no field.
pub open spec fn header_at(s: Seq<u8>, at: int) -> Header {
    Header {
        file_code: i32_be(s, at),
        file_length: i32_be(s, at + 24),
        version: i32_le(s, at + 28),
        shape_type: i32_le(s, at + 32),
        min_x: u64_le(s, at + 36),
        min_y: u64_le(s, at + 44),
        max_x: u64_le(s, at + 52),
        max_y: u64_le(s, at + 60),
        min_z: u64_le(s, at + 68),
        max_z: u64_le(s, at + 76),
        min_m: u64_le(s, at + 84),
        max_m: u64_le(s, at + 92),
    }
}

/// Every field of the header can be read by itself: it is decided by the
/// bytes at its own place in the layout, whatever the rest of the block
/// holds. The 20 bytes from 4 on decide nothing.
pub proof fn lemma_header_fields_independent(a: Seq<u8>, b: Seq<u8>, at: int)
    ensures
        same_bytes(a, b, at, at + 4) ==> header_at(a, at).file_code == header_at(b, at).file_code,
        same_bytes(a, b, at + 24, at + 28) ==> header_at(a, at).file_length == header_at(
            b,
            at,
        ).file_length,
        same_bytes(a, b, at + 28, at + 32) ==> header_at(a, at).version == header_at(b, at).version,
        same_bytes(a, b, at + 32, at + 36) ==> header_at(a, at).shape_type == header_at(
            b,
            at,
        ).shape_type,
        same_bytes(a, b, at + 36, at + 44) ==> header_at(a, at).min_x == header_at(b, at).min_x,
        same_bytes(a, b, at + 44, at + 52) ==> header_at(a, at).min_y == header_at(b, at).min_y,
        same_bytes(a, b, at + 52, at + 60) ==> header_at(a, at).max_x == header_at(b, at).max_x,
        same_bytes(a, b, at + 60, at + 68) ==> header_at(a, at).max_y == header_at(b, at).max_y,
        same_bytes(a, b, at + 68, at + 76) ==> header_at(a, at).min_z == header_at(b, at).min_z,
        same_bytes(a, b, at + 76, at + 84) ==> header_at(a, at).max_z == header_at(b, at).max_z,
        same_bytes(a, b, at + 84, at + 92) ==> header_at(a, at).min_m == header_at(b, at).min_m,
        same_bytes(a, b, at + 92, at + 100) ==> header_at(a, at).max_m == header_at(b, at).max_m,
        same_bytes(a, b, at, at + 4) && same_bytes(a, b, at + 24, at + 100) ==> header_at(a, at)
            == header_at(b, at),
{
    lemma_field_of_own_bytes(a, b, at);
    lemma_field_of_own_bytes(a, b, at + 24);
    lemma_field_of_own_bytes(a, b, at + 28);
    lemma_field_of_own_bytes(a, b, at + 32);
    lemma_field_of_own_bytes(a, b, at + 36);
    lemma_field_of_own_bytes(a, b, at + 44);
    lemma_field_of_own_bytes(a, b, at + 52);
    lemma_field_of_own_bytes(a, b, at + 60);
    lemma_field_of_own_bytes(a, b, at + 68);
    lemma_field_of_own_bytes(a, b, at + 76);
    lemma_field_of_own_bytes(a, b, at + 84);
    lemma_field_of_own_bytes(a, b, at + 92);
}

/// Decoding loses nothing of the fields: two blocks that decode to the
/// same header hold the same bytes everywhere but in the 20 bytes from 4
/// on. Put back into the layout, the fields of a header give
/// the bytes they were read from.
pub proof fn lemma_header_decides_its_bytes(a: Seq<u8>, b: Seq<u8>, at: int)
    requires
        header_at(a, at) == header_at(b, at),
    ensures
        same_bytes(a, b, at, at + 4),
        same_bytes(a, b, at + 24, at + 100),
{
    lemma_bytes_of_own_field(a, b, at);
    lemma_bytes_of_own_field(a, b, at + 24);
    lemma_bytes_of_own_field(a, b, at + 28);
    lemma_bytes_of_own_field(a, b, at + 32);
    lemma_bytes_of_own_field(a, b, at + 36);
    lemma_bytes_of_own_field(a, b, at + 44);
    lemma_bytes_of_own_field(a, b, at + 52);
    lemma_bytes_of_own_field(a, b, at + 60);
    lemma_bytes_of_own_field(a, b, at + 68);
    lemma_bytes_of_own_field(a, b, at + 76);
    lemma_bytes_of_own_field(a, b, at + 84);
    lemma_bytes_of_own_field(a, b, at + 92);
}

impl Default for Header {
    /// The header of an empty file: file code 9994, version 1000, no
    /// length, the null shape type and all bounds zero.
    fn default() -> (h: Header)
        ensures
            h == (Header {
                file_code: 9994,
                file_length: 0,
                version: 1000,
                shape_type: 0,
                min_x: 0,
                min_y: 0,
                max_x: 0,
                max_y: 0,
                min_z: 0,
                max_z: 0,
                min_m: 0,
                max_m: 0,
            }),
    {
        Header {
            file_code: 9994,
            file_length: 0,
            version: 1000,
            shape_type: 0,
            min_x: 0,
            min_y: 0,
            max_x: 0,
            max_y: 0,
            min_z: 0,
            max_z: 0,
            min_m: 0,
            max_m: 0,
        }
    }
}

impl Header {
    /// Reads the header from the next 100 bytes of `cursor`.
    ///
    /// With fewer than 100 bytes left nothing is read: the header and the
    /// cursor stay as they were. The file code is not compared with 9994.
    pub fn read(&mut self, cursor: &mut ByteCursor) -> (r: Result<(), ShapefileError>)
        ensures
            final(cursor).bytes() == old(cursor).bytes(),
            match r {
                Ok(()) => {
                    &&& old(cursor).left() >= HEADER_LEN
                    &&& *final(self) == header_at(old(cursor).bytes(), old(cursor).offset())
                    &&& final(cursor).offset() == old(cursor).offset() + HEADER_LEN
                },
                Err(e) => {
                    &&& old(cursor).left() < HEADER_LEN
                    &&& e == eof()
                    &&& *final(self) == *old(self)
                    &&& final(cursor).offset() == old(cursor).offset()
                },
            },
    {
        if cursor.remaining() < HEADER_LEN {
            return Err(ShapefileError::IoError(IoErrorKind::UnexpectedEof));
        }
        self.file_code = cursor.read_i32_be()?;
        cursor.skip(20)?;
        self.file_length = cursor.read_i32_be()?;
        self.version = cursor.read_i32_le()?;
        self.shape_type = cursor.read_i32_le()?;
        self.min_x = cursor.read_f64_bits()?;
        self.min_y = cursor.read_f64_bits()?;
        self.max_x = cursor.read_f64_bits()?;
        self.max_y = cursor.read_f64_bits()?;
        self.min_z = cursor.read_f64_bits()?;
        self.max_z = cursor.read_f64_bits()?;
        self.min_m = cursor.read_f64_bits()?;
        self.max_m = cursor.read_f64_bits()?;
        Ok(())
    }
}

} // verus!
