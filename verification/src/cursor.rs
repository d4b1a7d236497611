//! A sequential reader over the bytes of a file held in memory.

use crate::bytes::{be_i32, i32_be, i32_le, le_i32, le_u64, u64_le};
use crate::error::{eof, IoErrorKind, ShapefileError};
use vstd::prelude::*;
use vstd::slice::slice_subrange;

verus! {

/// The bytes of a source and the offset of the next byte to read.
///
/// The offset never passes the end of the bytes. A read that cannot be
/// served in full fails without moving the cursor.
pub struct ByteCursor {
    data: Vec<u8>,
    pos: usize,
}

impl ByteCursor {
    #[verifier::type_invariant]
    spec fn in_bounds(&self) -> bool {
        self.pos <= self.data@.len()
    }

    /// All the bytes of the source, read or not.
    pub closed spec fn bytes(&self) -> Seq<u8> {
        self.data@
    }

    /// The offset of the next byte to read.
    pub closed spec fn offset(&self) -> int {
        self.pos as int
    }

    /// How many bytes are left to read.
    pub open spec fn left(&self) -> int {
        self.bytes().len() - self.offset()
    }

    /// A cursor at the start of `data`.
    pub fn new(data: Vec<u8>) -> (c: ByteCursor)
        ensures
            c.bytes() == data@,
            c.offset() == 0,
    {
        ByteCursor { data, pos: 0 }
    }

    /// The offset of the next byte to read.
    pub fn position(&self) -> (p: usize)
        ensures
            p == self.offset(),
            p <= self.bytes().len(),
    {
        proof {
            use_type_invariant(self);
        }
        self.pos
    }

    /// The number of bytes between the cursor and the end of the source.
    pub fn remaining(&self) -> (n: usize)
        ensures
            n == self.left(),
    {
        proof {
            use_type_invariant(self);
        }
        self.data.len() - self.pos
    }

    /// Moves the cursor to `offset`, counted from the start of the source.
    /// An offset past the end is refused and the cursor stays.
    pub fn seek(&mut self, offset: usize) -> (r: Result<(), ShapefileError>)
        ensures
            final(self).bytes() == old(self).bytes(),
            match r {
                Ok(()) => offset <= old(self).bytes().len() && final(self).offset() == offset,
                Err(e) => offset > old(self).bytes().len() && e == eof() && final(self).offset()
                    == old(self).offset(),
            },
    {
        if offset > self.data.len() {
            return Err(ShapefileError::IoError(IoErrorKind::UnexpectedEof));
        }
        self.pos = offset;
        Ok(())
    }

    /// Passes over the next `count` bytes without looking at them.
    pub fn skip(&mut self, count: usize) -> (r: Result<(), ShapefileError>)
        ensures
            final(self).bytes() == old(self).bytes(),
            match r {
                Ok(()) => count <= old(self).left() && final(self).offset() == old(self).offset()
                    + count,
                Err(e) => count > old(self).left() && e == eof() && final(self).offset()
                    == old(self).offset(),
            },
    {
        proof {
            use_type_invariant(&*self);
        }
        if count > self.data.len() - self.pos {
            return Err(ShapefileError::IoError(IoErrorKind::UnexpectedEof));
        }
        self.pos = self.pos + count;
        Ok(())
    }

    /// Reads a big-endian signed 32-bit integer.
    pub fn read_i32_be(&mut self) -> (r: Result<i32, ShapefileError>)
        ensures
            final(self).bytes() == old(self).bytes(),
            match r {
                Ok(value) => old(self).left() >= 4 && value == i32_be(
                    old(self).bytes(),
                    old(self).offset(),
                ) && final(self).offset() == old(self).offset() + 4,
                Err(e) => old(self).left() < 4 && e == eof() && final(self).offset()
                    == old(self).offset(),
            },
    {
        proof {
            use_type_invariant(&*self);
        }
        if self.data.len() - self.pos < 4 {
            return Err(ShapefileError::IoError(IoErrorKind::UnexpectedEof));
        }
        let field = slice_subrange(self.data.as_slice(), self.pos, self.pos + 4);
        let value = be_i32(field);
        proof {
            reveal(i32_be);
        }
        self.pos = self.pos + 4;
        Ok(value)
    }

    /// Reads a little-endian signed 32-bit integer.
    pub fn read_i32_le(&mut self) -> (r: Result<i32, ShapefileError>)
        ensures
            final(self).bytes() == old(self).bytes(),
            match r {
                Ok(value) => old(self).left() >= 4 && value == i32_le(
                    old(self).bytes(),
                    old(self).offset(),
                ) && final(self).offset() == old(self).offset() + 4,
                Err(e) => old(self).left() < 4 && e == eof() && final(self).offset()
                    == old(self).offset(),
            },
    {
        proof {
            use_type_invariant(&*self);
        }
        if self.data.len() - self.pos < 4 {
            return Err(ShapefileError::IoError(IoErrorKind::UnexpectedEof));
        }
        let field = slice_subrange(self.data.as_slice(), self.pos, self.pos + 4);
        let value = le_i32(field);
        proof {
            reveal(i32_le);
        }
        self.pos = self.pos + 4;
        Ok(value)
    }

    /// Reads the 64 bits of a little-endian IEEE 754 binary64 value.
    pub fn read_f64_bits(&mut self) -> (r: Result<u64, ShapefileError>)
        ensures
            final(self).bytes() == old(self).bytes(),
            match r {
                Ok(value) => old(self).left() >= 8 && value == u64_le(
                    old(self).bytes(),
                    old(self).offset(),
                ) && final(self).offset() == old(self).offset() + 8,
                Err(e) => old(self).left() < 8 && e == eof() && final(self).offset()
                    == old(self).offset(),
            },
    {
        proof {
            use_type_invariant(&*self);
        }
        if self.data.len() - self.pos < 8 {
            return Err(ShapefileError::IoError(IoErrorKind::UnexpectedEof));
        }
        let field = slice_subrange(self.data.as_slice(), self.pos, self.pos + 8);
        let value = le_u64(field);
        proof {
            reveal(u64_le);
        }
        self.pos = self.pos + 8;
        Ok(value)
    }
}

} // verus!
