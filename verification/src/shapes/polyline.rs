//! Decoder for polylines, and the part table that polylines and polygons
//! share.
//!
//! A multi-part payload is a bounding box, the number of parts, the number
//! of points, one start index for each part and the points themselves. Part
//! `i` runs from its start index up to the start index of part `i + 1`; the
//! last part runs up to the number of points.

use crate::bytes::{i32_le, lemma_field_of_own_bytes, same_bytes};
use crate::cursor::ByteCursor;
use crate::error::{eof, invalid, IoErrorKind, ShapefileError};
use crate::geometry::{
    lemma_points_of_own_bytes, lines_view, point_at, points_at, Geometry, GeometryView, Point,
};
use crate::shape::ShapeReader;
use crate::shapes::point::{read_points, BOX_LEN};
use vstd::prelude::*;
use vstd::slice::{slice_subrange, slice_to_vec};

verus! {

/// Decoder for shape type 3: the parts of a polyline, each a line of its
/// own.
pub struct PolylineReader;

/// The number of parts that the payload at `at` declares.
pub open spec fn part_count(s: Seq<u8>, at: int) -> int {
    i32_le(s, at + 32) as int
}

/// The number of points that the payload at `at` declares.
pub open spec fn point_count(s: Seq<u8>, at: int) -> int {
    i32_le(s, at + 36) as int
}

/// The index of the first point of part `i`.
pub open spec fn part_start(s: Seq<u8>, at: int, i: int) -> int {
    i32_le(s, at + 40 + 4 * i) as int
}

/// The index behind the last point of part `i`.
pub open spec fn part_end(s: Seq<u8>, at: int, i: int) -> int {
    if i + 1 < part_count(s, at) {
        part_start(s, at, i + 1)
    } else {
        point_count(s, at)
    }
}

/// The offset of the first point of the payload at `at`.
pub open spec fn points_offset(s: Seq<u8>, at: int) -> int {
    at + 40 + 4 * part_count(s, at)
}

/// The offset of the first byte behind the payload at `at`.
pub open spec fn parts_end(s: Seq<u8>, at: int) -> int {
    points_offset(s, at) + 16 * point_count(s, at)
}

/// Every part is a range of the point array.
pub open spec fn parts_in_order(s: Seq<u8>, at: int) -> bool {
    forall|i: int|
        0 <= i < part_count(s, at) ==> 0 <= #[trigger] part_start(s, at, i) <= part_end(s, at, i)
            <= point_count(s, at)
}

/// The points of part `i`, in the order of the file.
pub open spec fn part_points(s: Seq<u8>, at: int, i: int) -> Seq<Point> {
    points_at(
        s,
        points_offset(s, at) + 16 * part_start(s, at, i),
        part_end(s, at, i) - part_start(s, at, i),
    )
}

/// The parts of the multi-part payload at `at`, with the offset of the
/// first byte behind it.
///
/// A payload without parts or without points has no part at all, whatever
/// its part table holds. A negative count, or a part that is no range of
/// the point array, makes the payload invalid.
pub open spec fn parts_at(s: Seq<u8>, at: int) -> Result<(Seq<Seq<Point>>, int), ShapefileError> {
    if s.len() - at < 40 {
        Err(eof())
    } else if part_count(s, at) < 0 || point_count(s, at) < 0 {
        Err(invalid())
    } else if s.len() < parts_end(s, at) {
        Err(eof())
    } else if part_count(s, at) == 0 || point_count(s, at) == 0 {
        Ok((Seq::empty(), parts_end(s, at)))
    } else if !parts_in_order(s, at) {
        Err(invalid())
    } else {
        Ok((Seq::new(part_count(s, at) as nat, |i: int| part_points(s, at, i)), parts_end(s, at)))
    }
}

/// Reads `count` little-endian 32-bit integers stored back to back.
fn read_indices(cursor: &mut ByteCursor, count: usize) -> (r: Result<Vec<i32>, ShapefileError>)
    ensures
        final(cursor).bytes() == old(cursor).bytes(),
        match r {
            Ok(values) => {
                &&& old(cursor).left() >= 4 * count
                &&& values@.len() == count
                &&& forall|j: int|
                    0 <= j < count ==> values@[j] == i32_le(
                        old(cursor).bytes(),
                        old(cursor).offset() + 4 * j,
                    )
                &&& final(cursor).offset() == old(cursor).offset() + 4 * count
            },
            Err(e) => {
                &&& old(cursor).left() < 4 * count
                &&& e == eof()
                &&& final(cursor).offset() == old(cursor).offset()
            },
        },
{
    if cursor.remaining() / 4 < count {
        return Err(ShapefileError::IoError(IoErrorKind::UnexpectedEof));
    }
    let ghost s = cursor.bytes();
    let ghost at = cursor.offset();
    let mut values: Vec<i32> = Vec::new();
    let mut i: usize = 0;
    while i < count
        invariant
            cursor.bytes() == s,
            i <= count,
            s.len() - at >= 4 * count,
            cursor.offset() == at + 4 * i,
            values@.len() == i,
            forall|j: int| 0 <= j < i ==> values@[j] == i32_le(s, at + 4 * j),
        decreases count - i,
    {
        let v = cursor.read_i32_le()?;
        values.push(v);
        i = i + 1;
    }
    Ok(values)
}

/// The index behind the last point of the part that starts at place `i`
/// of `starts`, in an array of `total` points.
spec fn behind(starts: Seq<i32>, total: int, i: int) -> int {
    if i + 1 < starts.len() {
        starts[i + 1] as int
    } else {
        total
    }
}

/// Every entry of `starts` begins a range of an array of `total` points.
spec fn starts_in_order(starts: Seq<i32>, total: int) -> bool {
    forall|i: int|
        0 <= i < starts.len() ==> 0 <= #[trigger] starts[i] <= behind(starts, total, i) <= total
}

/// Cuts `points` into the parts that `starts` names, or finds that some
/// entry of `starts` names no range of `points`.
fn split_parts(starts: &Vec<i32>, points: &Vec<Point>) -> (r: Option<Vec<Vec<Point>>>)
    requires
        points@.len() <= i32::MAX,
    ensures
        r is Some <==> starts_in_order(starts@, points@.len() as int),
        r is Some ==> r->Some_0@.len() == starts@.len(),
        r is Some ==> forall|i: int|
            0 <= i < starts@.len() ==> (#[trigger] r->Some_0@[i])@ == points@.subrange(
                starts@[i] as int,
                behind(starts@, points@.len() as int, i),
            ),
{
    let count = starts.len();
    let ghost total = points@.len() as int;
    let mut parts: Vec<Vec<Point>> = Vec::new();
    let mut i: usize = 0;
    while i < count
        invariant
            count == starts@.len(),
            total == points@.len(),
            i <= count,
            total <= i32::MAX,
            parts@.len() == i,
            forall|j: int|
                0 <= j < i ==> 0 <= #[trigger] starts@[j] <= behind(starts@, total, j) <= total,
            forall|j: int|
                0 <= j < i ==> (#[trigger] parts@[j])@ == points@.subrange(
                    starts@[j] as int,
                    behind(starts@, total, j),
                ),
        decreases count - i,
    {
        let first = starts[i];
        let last: i32 = if i + 1 < count {
            starts[i + 1]
        } else {
            points.len() as i32
        };
        assert(last == behind(starts@, total, i as int));
        if first < 0 || first > last || last as usize > points.len() {
            return None;
        }
        let part = slice_to_vec(slice_subrange(points.as_slice(), first as usize, last as usize));
        parts.push(part);
        i = i + 1;
    }
    Some(parts)
}

/// A part table read off the payload at `at` is in order exactly if the
/// parts of the payload are.
proof fn lemma_order_is_the_payloads(s: Seq<u8>, at: int, starts: Seq<i32>)
    requires
        starts.len() == part_count(s, at),
        forall|j: int| 0 <= j < starts.len() ==> #[trigger] starts[j] == part_start(s, at, j),
    ensures
        starts_in_order(starts, point_count(s, at)) == parts_in_order(s, at),
{
    let total = point_count(s, at);
    assert forall|i: int| 0 <= i < starts.len() implies behind(starts, total, i) == part_end(
        s,
        at,
        i,
    ) by {
        if i + 1 < starts.len() {
            assert(starts[i + 1] == part_start(s, at, i + 1));
        }
    }
    if starts_in_order(starts, total) {
        assert forall|i: int| 0 <= i < part_count(s, at) implies 0 <= #[trigger] part_start(
            s,
            at,
            i,
        ) <= part_end(s, at, i) <= point_count(s, at) by {
            assert(0 <= starts[i] <= behind(starts, total, i) <= total);
        }
    }
    if parts_in_order(s, at) {
        assert forall|i: int| 0 <= i < starts.len() implies 0 <= #[trigger] starts[i] <= behind(
            starts,
            total,
            i,
        ) <= total by {
            assert(0 <= part_start(s, at, i) <= part_end(s, at, i) <= point_count(s, at));
        }
    }
}

/// The ranges that a part table cuts out of the points of the payload at
/// `at` are the parts of the payload.
proof fn lemma_cut_is_the_payloads(
    s: Seq<u8>,
    at: int,
    starts: Seq<i32>,
    points: Seq<Point>,
    parts: Seq<Seq<Point>>,
)
    requires
        starts.len() == part_count(s, at),
        forall|j: int| 0 <= j < starts.len() ==> #[trigger] starts[j] == part_start(s, at, j),
        point_count(s, at) >= 0,
        points == points_at(s, points_offset(s, at), point_count(s, at)),
        parts_in_order(s, at),
        parts.len() == starts.len(),
        forall|i: int|
            0 <= i < starts.len() ==> #[trigger] parts[i] == points.subrange(
                starts[i] as int,
                behind(starts, points.len() as int, i),
            ),
    ensures
        parts == Seq::new(part_count(s, at) as nat, |i: int| part_points(s, at, i)),
{
    let expected = Seq::new(part_count(s, at) as nat, |i: int| part_points(s, at, i));
    assert forall|i: int| 0 <= i < parts.len() implies parts[i] == expected[i] by {
        if i + 1 < starts.len() {
            assert(starts[i + 1] == part_start(s, at, i + 1));
        }
        assert(0 <= part_start(s, at, i) <= part_end(s, at, i) <= point_count(s, at));
        assert(parts[i] =~= part_points(s, at, i));
    }
    assert(parts =~= expected);
}

/// Reads a multi-part payload and cuts its points into parts. When the
/// payload cannot be decoded the cursor stays where it was.
pub(crate) fn read_parts(cursor: &mut ByteCursor) -> (r: Result<Vec<Vec<Point>>, ShapefileError>)
    ensures
        final(cursor).bytes() == old(cursor).bytes(),
        match parts_at(old(cursor).bytes(), old(cursor).offset()) {
            Ok((parts, end)) => {
                &&& r is Ok
                &&& lines_view(r->Ok_0) == parts
                &&& final(cursor).offset() == end
            },
            Err(e) => {
                &&& r is Err
                &&& r->Err_0 == e
                &&& final(cursor).offset() == old(cursor).offset()
            },
        },
{
    let ghost s = cursor.bytes();
    let ghost at = cursor.offset();
    let start = cursor.position();
    if cursor.remaining() < BOX_LEN + 8 {
        return Err(ShapefileError::IoError(IoErrorKind::UnexpectedEof));
    }
    cursor.skip(BOX_LEN)?;
    let num_parts = cursor.read_i32_le()?;
    let num_points = cursor.read_i32_le()?;
    if num_parts < 0 || num_points < 0 {
        let _ = cursor.seek(start);
        return Err(ShapefileError::IoError(IoErrorKind::InvalidData));
    }
    let starts = match read_indices(cursor, num_parts as usize) {
        Ok(starts) => starts,
        Err(e) => {
            let _ = cursor.seek(start);
            return Err(e);
        },
    };
    let points = match read_points(cursor, num_points as usize) {
        Ok(points) => points,
        Err(e) => {
            let _ = cursor.seek(start);
            return Err(e);
        },
    };
    if num_parts == 0 || num_points == 0 {
        let none: Vec<Vec<Point>> = Vec::new();
        assert(lines_view(none) =~= Seq::<Seq<Point>>::empty());
        return Ok(none);
    }
    proof {
        lemma_order_is_the_payloads(s, at, starts@);
    }
    match split_parts(&starts, &points) {
        Some(parts) => {
            proof {
                lemma_cut_is_the_payloads(s, at, starts@, points@, lines_view(parts));
            }
            Ok(parts)
        },
        None => {
            let _ = cursor.seek(start);
            Err(ShapefileError::IoError(IoErrorKind::InvalidData))
        },
    }
}

impl ShapeReader for PolylineReader {
    /// The parts of the payload, each a line of its own.
    open spec fn payload(s: Seq<u8>, at: int) -> Result<(GeometryView, int), ShapefileError> {
        match parts_at(s, at) {
            Ok((parts, end)) => Ok((GeometryView::MultiLineString(parts), end)),
            Err(e) => Err(e),
        }
    }

    fn read_shape(cursor: &mut ByteCursor) -> (r: Result<Geometry, ShapefileError>) {
        let parts = read_parts(cursor)?;
        Ok(Geometry::MultiLineString(parts))
    }
}

/// A multi-part payload that decodes and declares parts and points has
/// one part for each entry of its part table, in the order of the table.
/// Part `i` holds the points from its start index up to the start index of
/// the next part, or up to the last point for the last part, and holds
/// them in the order of the point array.
pub proof fn lemma_parts_cut_the_points(s: Seq<u8>, at: int)
    requires
        parts_at(s, at) is Ok,
        part_count(s, at) > 0,
        point_count(s, at) > 0,
    ensures
        parts_at(s, at)->Ok_0.0.len() == part_count(s, at),
        parts_at(s, at)->Ok_0.1 == at + 40 + 4 * part_count(s, at) + 16 * point_count(s, at),
        forall|i: int|
            0 <= i < part_count(s, at) ==> (#[trigger] parts_at(s, at)->Ok_0.0[i]).len()
                == part_end(s, at, i) - part_start(s, at, i),
        forall|i: int, j: int|
            0 <= i < part_count(s, at) && 0 <= j < part_end(s, at, i) - part_start(s, at, i)
                ==> #[trigger] parts_at(s, at)->Ok_0.0[i][j] == point_at(
                s,
                points_offset(s, at) + 16 * (part_start(s, at, i) + j),
            ),
{
    assert forall|i: int| 0 <= i < part_count(s, at) implies (#[trigger] parts_at(
        s,
        at,
    )->Ok_0.0[i]).len() == part_end(s, at, i) - part_start(s, at, i) by {
        assert(0 <= part_start(s, at, i) <= part_end(s, at, i));
    }
    assert forall|i: int, j: int|
        0 <= i < part_count(s, at) && 0 <= j < part_end(s, at, i) - part_start(
            s,
            at,
            i,
        ) implies #[trigger] parts_at(s, at)->Ok_0.0[i][j] == point_at(
        s,
        points_offset(s, at) + 16 * (part_start(s, at, i) + j),
    ) by {
        assert(0 <= part_start(s, at, i) <= part_end(s, at, i));
    }
}

/// A multi-part payload that declares no part, or no point, decodes to no
/// part at all as soon as its bytes are there.
pub proof fn lemma_nothing_declared_is_no_part(s: Seq<u8>, at: int)
    requires
        s.len() - at >= 40,
        part_count(s, at) >= 0,
        point_count(s, at) >= 0,
        part_count(s, at) == 0 || point_count(s, at) == 0,
        s.len() >= parts_end(s, at),
    ensures
        parts_at(s, at) == Ok::<(Seq<Seq<Point>>, int), ShapefileError>(
            (Seq::empty(), parts_end(s, at)),
        ),
{
}

/// A multi-part payload is a matter of its own bytes: a source that holds
/// the bytes of a payload that decodes, at the same place, holds the same
/// payload, whatever else it holds.
pub proof fn lemma_parts_of_own_bytes(a: Seq<u8>, b: Seq<u8>, at: int)
    requires
        parts_at(a, at) is Ok,
        same_bytes(a, b, at, parts_at(a, at)->Ok_0.1),
        b.len() >= parts_at(a, at)->Ok_0.1,
    ensures
        parts_at(b, at) == parts_at(a, at),
{
    lemma_field_of_own_bytes(a, b, at + 32);
    lemma_field_of_own_bytes(a, b, at + 36);
    let parts = part_count(a, at);
    let points = point_count(a, at);
    assert(part_count(b, at) == parts);
    assert(point_count(b, at) == points);
    if parts > 0 && points > 0 {
        assert forall|i: int| 0 <= i < parts implies part_start(a, at, i) == part_start(
            b,
            at,
            i,
        ) by {
            lemma_field_of_own_bytes(a, b, at + 40 + 4 * i);
        }
        assert forall|i: int| 0 <= i < parts implies part_end(a, at, i) == part_end(b, at, i) by {
            if i + 1 < parts {
                assert(part_start(a, at, i + 1) == part_start(b, at, i + 1));
            }
        }
        assert(parts_in_order(b, at)) by {
            assert forall|i: int| 0 <= i < part_count(b, at) implies 0 <= #[trigger] part_start(
                b,
                at,
                i,
            ) <= part_end(b, at, i) <= point_count(b, at) by {
                assert(0 <= part_start(a, at, i) <= part_end(a, at, i) <= point_count(a, at));
                assert(part_end(a, at, i) == part_end(b, at, i));
            }
        }
        assert forall|i: int| 0 <= i < parts implies part_points(a, at, i) == part_points(
            b,
            at,
            i,
        ) by {
            assert(0 <= part_start(a, at, i) <= part_end(a, at, i) <= point_count(a, at));
            assert(part_end(a, at, i) == part_end(b, at, i));
            lemma_points_of_own_bytes(
                a,
                b,
                points_offset(a, at) + 16 * part_start(a, at, i),
                part_end(a, at, i) - part_start(a, at, i),
            );
        }
        assert(Seq::new(parts as nat, |i: int| part_points(a, at, i)) =~= Seq::new(
            parts as nat,
            |i: int| part_points(b, at, i),
        ));
    }
}

} // verus!
