//! Decoders for points, points with a measure and multipoints.

use crate::bytes::i32_le;
use crate::cursor::ByteCursor;
use crate::error::{eof, invalid, IoErrorKind, ShapefileError};
use crate::geometry::{point_at, points_at, Geometry, GeometryView, Point};
use crate::shape::ShapeReader;
use vstd::prelude::*;

verus! {

/// The bytes of a bounding box: four binary64 values.
pub const BOX_LEN: usize = 32;

/// The bytes of one coordinate pair.
pub const POINT_LEN: usize = 16;

/// Decoder for shape type 1: x, then y.
pub struct PointReader;

/// Decoder for shape type 21: x, y and a measure that is passed over.
pub struct PointMReader;

/// Decoder for shape type 8: a bounding box, a count and that many
/// coordinate pairs.
pub struct MultipointReader;

/// Reads one coordinate pair.
pub(crate) fn read_point(cursor: &mut ByteCursor) -> (r: Result<Point, ShapefileError>)
    ensures
        final(cursor).bytes() == old(cursor).bytes(),
        match r {
            Ok(p) => {
                &&& old(cursor).left() >= POINT_LEN
                &&& p == point_at(old(cursor).bytes(), old(cursor).offset())
                &&& final(cursor).offset() == old(cursor).offset() + POINT_LEN
            },
            Err(e) => {
                &&& old(cursor).left() < POINT_LEN
                &&& e == eof()
                &&& final(cursor).offset() == old(cursor).offset()
            },
        },
{
    if cursor.remaining() < POINT_LEN {
        return Err(ShapefileError::IoError(IoErrorKind::UnexpectedEof));
    }
    let x = cursor.read_f64_bits()?;
    let y = cursor.read_f64_bits()?;
    Ok(Point { x, y })
}

/// Reads `count` coordinate pairs stored back to back.
pub(crate) fn read_points(cursor: &mut ByteCursor, count: usize) -> (r: Result<
    Vec<Point>,
    ShapefileError,
>)
    ensures
        final(cursor).bytes() == old(cursor).bytes(),
        match r {
            Ok(points) => {
                &&& old(cursor).left() >= POINT_LEN * count
                &&& points@ == points_at(old(cursor).bytes(), old(cursor).offset(), count as int)
                &&& final(cursor).offset() == old(cursor).offset() + POINT_LEN * count
            },
            Err(e) => {
                &&& old(cursor).left() < POINT_LEN * count
                &&& e == eof()
                &&& final(cursor).offset() == old(cursor).offset()
            },
        },
{
    if cursor.remaining() / POINT_LEN < count {
        return Err(ShapefileError::IoError(IoErrorKind::UnexpectedEof));
    }
    let ghost s = cursor.bytes();
    let ghost at = cursor.offset();
    let mut points: Vec<Point> = Vec::new();
    let mut i: usize = 0;
    while i < count
        invariant
            cursor.bytes() == s,
            i <= count,
            s.len() - at >= POINT_LEN * count,
            cursor.offset() == at + POINT_LEN * i,
            points@.len() == i,
            forall|j: int| 0 <= j < i ==> points@[j] == point_at(s, at + 16 * j),
        decreases count - i,
    {
        let p = read_point(cursor)?;
        points.push(p);
        i = i + 1;
    }
    assert(points@ =~= points_at(s, at, count as int));
    Ok(points)
}

impl ShapeReader for PointReader {
    /// Sixteen bytes: one coordinate pair.
    open spec fn payload(s: Seq<u8>, at: int) -> Result<(GeometryView, int), ShapefileError> {
        if s.len() - at < 16 {
            Err(eof())
        } else {
            Ok((GeometryView::Point(point_at(s, at)), at + 16))
        }
    }

    fn read_shape(cursor: &mut ByteCursor) -> (r: Result<Geometry, ShapefileError>) {
        let p = read_point(cursor)?;
        Ok(Geometry::Point(p))
    }
}

impl ShapeReader for PointMReader {
    /// Twenty-four bytes: one coordinate pair and a measure. The measure
    /// is no part of the geometry.
    open spec fn payload(s: Seq<u8>, at: int) -> Result<(GeometryView, int), ShapefileError> {
        if s.len() - at < 24 {
            Err(eof())
        } else {
            Ok((GeometryView::Point(point_at(s, at)), at + 24))
        }
    }

    fn read_shape(cursor: &mut ByteCursor) -> (r: Result<Geometry, ShapefileError>) {
        if cursor.remaining() < 24 {
            return Err(ShapefileError::IoError(IoErrorKind::UnexpectedEof));
        }
        let p = read_point(cursor)?;
        cursor.skip(8)?;
        Ok(Geometry::Point(p))
    }
}

impl ShapeReader for MultipointReader {
    /// A bounding box of 32 bytes that decides nothing, the number of
    /// points as a little-endian 32-bit integer, and that many coordinate
    /// pairs in the order of the file. A negative number is invalid; a
    /// payload that ends before its last point is truncated.
    open spec fn payload(s: Seq<u8>, at: int) -> Result<(GeometryView, int), ShapefileError> {
        let count = i32_le(s, at + 32) as int;
        if s.len() - at < 36 {
            Err(eof())
        } else if count < 0 {
            Err(invalid())
        } else if s.len() - at - 36 < 16 * count {
            Err(eof())
        } else {
            Ok((GeometryView::MultiPoint(points_at(s, at + 36, count)), at + 36 + 16 * count))
        }
    }

    fn read_shape(cursor: &mut ByteCursor) -> (r: Result<Geometry, ShapefileError>) {
        let start = cursor.position();
        if cursor.remaining() < BOX_LEN + 4 {
            return Err(ShapefileError::IoError(IoErrorKind::UnexpectedEof));
        }
        cursor.skip(BOX_LEN)?;
        let count = cursor.read_i32_le()?;
        if count < 0 {
            let _ = cursor.seek(start);
            return Err(ShapefileError::IoError(IoErrorKind::InvalidData));
        }
        match read_points(cursor, count as usize) {
            Ok(points) => Ok(Geometry::MultiPoint(points)),
            Err(e) => {
                let _ = cursor.seek(start);
                Err(e)
            },
        }
    }
}

/// A multipoint that declares `n` points decodes to exactly `n` coordinate
/// pairs, pair `i` being the pair stored at place `i` of the payload, and
/// ends behind the last of them. This holds for `n` = 0 as well.
pub proof fn lemma_multipoint_keeps_count_and_order(s: Seq<u8>, at: int)
    requires
        MultipointReader::payload(s, at) is Ok,
    ensures
        i32_le(s, at + 32) >= 0,
        MultipointReader::payload(s, at)->Ok_0.0 is MultiPoint,
        MultipointReader::payload(s, at)->Ok_0.0->MultiPoint_0.len() == i32_le(s, at + 32),
        forall|i: int|
            0 <= i < i32_le(s, at + 32) ==> #[trigger] MultipointReader::payload(
                s,
                at,
            )->Ok_0.0->MultiPoint_0[i] == point_at(s, at + 36 + 16 * i),
        MultipointReader::payload(s, at)->Ok_0.1 == at + 36 + 16 * i32_le(s, at + 32),
{
}

} // verus!
