//! The decoder interface and the dispatch on the shape-type code.

use crate::bytes::{i32_le, lemma_field_of_own_bytes, same_bytes};
use crate::cursor::ByteCursor;
use crate::error::{eof, ShapefileError};
use crate::geometry::{
    lemma_point_of_own_bytes, lemma_points_of_own_bytes, point_at, points_at, Geometry,
    GeometryView, Point,
};
use crate::shapes::point::{MultipointReader, PointMReader, PointReader};
use crate::shapes::polygon::PolygonReader;
use crate::shapes::polyline::{lemma_parts_of_own_bytes, PolylineReader};
use vstd::prelude::*;

verus! {

/// The shape types that have a decoder.
#[derive(Debug, Clone, Copy, PartialEq, Eq, Structural)]
pub enum ShapeType {
    /// Code 0: a record without a geometry.
    Null,
    /// Code 1: a point.
    Point,
    /// Code 3: a polyline of one or more parts.
    Polyline,
    /// Code 5: a polygon of one or more rings.
    Polygon,
    /// Code 8: a multipoint.
    MultiPoint,
    /// Code 21: a point with a measure.
    PointM,
}

impl ShapeType {
    /// The code that stands for this shape type in a file.
    pub open spec fn spec_code(self) -> i32 {
        match self {
            ShapeType::Null => 0,
            ShapeType::Point => 1,
            ShapeType::Polyline => 3,
            ShapeType::Polygon => 5,
            ShapeType::MultiPoint => 8,
            ShapeType::PointM => 21,
        }
    }

    /// The shape type that `code` stands for, if it has a decoder.
    pub open spec fn of(code: i32) -> Option<ShapeType> {
        if code == 0 {
            Some(ShapeType::Null)
        } else if code == 1 {
            Some(ShapeType::Point)
        } else if code == 3 {
            Some(ShapeType::Polyline)
        } else if code == 5 {
            Some(ShapeType::Polygon)
        } else if code == 8 {
            Some(ShapeType::MultiPoint)
        } else if code == 21 {
            Some(ShapeType::PointM)
        } else {
            None
        }
    }

    /// The code that stands for this shape type in a file.
    #[verifier::when_used_as_spec(spec_code)]
    pub fn code(self) -> (code: i32)
        ensures
            code == self.spec_code(),
    {
        match self {
            ShapeType::Null => 0,
            ShapeType::Point => 1,
            ShapeType::Polyline => 3,
            ShapeType::Polygon => 5,
            ShapeType::MultiPoint => 8,
            ShapeType::PointM => 21,
        }
    }

    /// The shape type that `code` stands for, or `None` if no decoder goes
    /// with the code.
    pub fn from_code(code: i32) -> (r: Option<ShapeType>)
        ensures
            r == ShapeType::of(code),
    {
        match code {
            0 => Some(ShapeType::Null),
            1 => Some(ShapeType::Point),
            3 => Some(ShapeType::Polyline),
            5 => Some(ShapeType::Polygon),
            8 => Some(ShapeType::MultiPoint),
            21 => Some(ShapeType::PointM),
            _ => None,
        }
    }
}

/// Codes and shape types go one to one: every shape type is the shape type
/// of its own code, and a code that stands for a shape type is the code of
/// that shape type.
pub proof fn lemma_codes_one_to_one(shape_type: ShapeType, code: i32)
    ensures
        ShapeType::of(shape_type.code()) == Some(shape_type),
        ShapeType::of(code) == Some(shape_type) ==> shape_type.code() == code,
{
}

/// A decoder for the payload of one shape type.
pub trait ShapeReader {
    /// What the payload at offset `at` of `s` decodes to, with the offset
    /// of the first byte behind it, or why it cannot be decoded.
    spec fn payload(s: Seq<u8>, at: int) -> Result<(GeometryView, int), ShapefileError>;

    /// Decodes the payload at the cursor and leaves the cursor behind it.
    /// When the payload cannot be decoded the cursor stays where it was.
    fn read_shape(cursor: &mut ByteCursor) -> (r: Result<Geometry, ShapefileError>)
        ensures
            final(cursor).bytes() == old(cursor).bytes(),
            match Self::payload(old(cursor).bytes(), old(cursor).offset()) {
                Ok((shape, end)) => {
                    &&& r is Ok
                    &&& r->Ok_0@ == shape
                    &&& final(cursor).offset() == end
                },
                Err(e) => {
                    &&& r is Err
                    &&& r->Err_0 == e
                    &&& final(cursor).offset() == old(cursor).offset()
                },
            },
    ;
}

/// Whether there is a decoder for shape-type code `code`.
pub open spec fn is_supported(code: i32) -> bool {
    ShapeType::of(code) is Some
}

/// The geometry of `shape`, if there is one, as its view.
pub open spec fn shape_view(shape: Option<Geometry>) -> Option<GeometryView> {
    match shape {
        Some(geometry) => Some(geometry@),
        None => None,
    }
}

/// The payload `decoded` as the geometry of a record.
pub open spec fn present(decoded: Result<(GeometryView, int), ShapefileError>) -> Result<
    (Option<GeometryView>, int),
    ShapefileError,
> {
    match decoded {
        Ok((shape, end)) => Ok((Some(shape), end)),
        Err(e) => Err(e),
    }
}

/// What the shape at offset `at` of `s` decodes to: a little-endian code
/// and the payload that the code announces. Code 0 announces none. A code
/// without a decoder fails with [`ShapefileError::UnimplementedShapeType`],
/// whatever follows it.
pub open spec fn shape_at(s: Seq<u8>, at: int) -> Result<
    (Option<GeometryView>, int),
    ShapefileError,
> {
    let code = i32_le(s, at);
    if s.len() - at < 4 {
        Err(eof())
    } else {
        match ShapeType::of(code) {
            Some(ShapeType::Null) => Ok((None, at + 4)),
            Some(ShapeType::Point) => present(PointReader::payload(s, at + 4)),
            Some(ShapeType::Polyline) => present(PolylineReader::payload(s, at + 4)),
            Some(ShapeType::Polygon) => present(PolygonReader::payload(s, at + 4)),
            Some(ShapeType::MultiPoint) => present(MultipointReader::payload(s, at + 4)),
            Some(ShapeType::PointM) => present(PointMReader::payload(s, at + 4)),
            None => Err(ShapefileError::UnimplementedShapeType(code)),
        }
    }
}

/// Whether shape-type code `code` has a decoder.
pub fn supports(code: i32) -> (r: bool)
    ensures
        r == is_supported(code),
{
    ShapeType::from_code(code).is_some()
}

/// Reads a shape-type code and the payload that it announces.
///
/// The result is `None` for the null shape. When the shape cannot be
/// decoded the cursor stays where it was, before the code.
pub fn read_shape(cursor: &mut ByteCursor) -> (r: Result<Option<Geometry>, ShapefileError>)
    ensures
        final(cursor).bytes() == old(cursor).bytes(),
        match shape_at(old(cursor).bytes(), old(cursor).offset()) {
            Ok((shape, end)) => {
                &&& r is Ok
                &&& shape_view(r->Ok_0) == shape
                &&& final(cursor).offset() == end
            },
            Err(e) => {
                &&& r is Err
                &&& r->Err_0 == e
                &&& final(cursor).offset() == old(cursor).offset()
            },
        },
{
    let start = cursor.position();
    let code = cursor.read_i32_le()?;
    let decoded = match ShapeType::from_code(code) {
        Some(ShapeType::Null) => {
            return Ok(None);
        },
        Some(ShapeType::Point) => PointReader::read_shape(cursor),
        Some(ShapeType::Polyline) => PolylineReader::read_shape(cursor),
        Some(ShapeType::Polygon) => PolygonReader::read_shape(cursor),
        Some(ShapeType::MultiPoint) => MultipointReader::read_shape(cursor),
        Some(ShapeType::PointM) => PointMReader::read_shape(cursor),
        None => Err(ShapefileError::UnimplementedShapeType(code)),
    };
    match decoded {
        Ok(geometry) => Ok(Some(geometry)),
        Err(e) => {
            let _ = cursor.seek(start);
            Err(e)
        },
    }
}

/// A code without a decoder fails with that code, whatever follows it in
/// the source, and no geometry comes back.
pub proof fn lemma_unsupported_code_fails(s: Seq<u8>, at: int)
    requires
        s.len() - at >= 4,
        !is_supported(i32_le(s, at)),
    ensures
        shape_at(s, at) == Err::<(Option<GeometryView>, int), ShapefileError>(
            ShapefileError::UnimplementedShapeType(i32_le(s, at)),
        ),
{
}

/// A shape that decodes has the variant that its code announces: no
/// geometry for the null shape, and for every other code with a decoder
/// the geometry of that decoder.
pub proof fn lemma_variant_matches_code(s: Seq<u8>, at: int)
    requires
        shape_at(s, at) is Ok,
    ensures
        match ShapeType::of(i32_le(s, at)) {
            Some(ShapeType::Null) => shape_at(s, at)->Ok_0.0 is None,
            Some(ShapeType::Point) => shape_at(s, at)->Ok_0.0 matches Some(GeometryView::Point(_)),
            Some(ShapeType::Polyline) => shape_at(s, at)->Ok_0.0 matches Some(
                GeometryView::MultiLineString(_),
            ),
            Some(ShapeType::Polygon) => shape_at(s, at)->Ok_0.0 matches Some(
                GeometryView::Polygon(_),
            ),
            Some(ShapeType::MultiPoint) => shape_at(s, at)->Ok_0.0 matches Some(
                GeometryView::MultiPoint(_),
            ),
            Some(ShapeType::PointM) => shape_at(s, at)->Ok_0.0 matches Some(GeometryView::Point(_)),
            None => false,
        },
{
}

/// The shortest shape of every code with a decoder decodes: the bare code
/// of the null shape, a point of 16 bytes, a point with its measure of 24,
/// and a multipoint, a polyline and a polygon that declare nothing behind
/// their bounding box.
pub proof fn lemma_minimal_shapes_decode(s: Seq<u8>, at: int)
    ensures
        s.len() - at >= 4 && i32_le(s, at) == 0 ==> shape_at(s, at) == Ok::<
            (Option<GeometryView>, int),
            ShapefileError,
        >((None, at + 4)),
        s.len() - at >= 20 && i32_le(s, at) == 1 ==> shape_at(s, at) == Ok::<
            (Option<GeometryView>, int),
            ShapefileError,
        >((Some(GeometryView::Point(point_at(s, at + 4))), at + 20)),
        s.len() - at >= 28 && i32_le(s, at) == 21 ==> shape_at(s, at) == Ok::<
            (Option<GeometryView>, int),
            ShapefileError,
        >((Some(GeometryView::Point(point_at(s, at + 4))), at + 28)),
        s.len() - at >= 40 && i32_le(s, at) == 8 && i32_le(s, at + 36) == 0 ==> shape_at(s, at)
            == Ok::<(Option<GeometryView>, int), ShapefileError>(
            (Some(GeometryView::MultiPoint(Seq::empty())), at + 40),
        ),
        s.len() - at >= 44 && i32_le(s, at) == 3 && i32_le(s, at + 36) == 0 && i32_le(s, at + 40)
            == 0 ==> shape_at(s, at) == Ok::<(Option<GeometryView>, int), ShapefileError>(
            (Some(GeometryView::MultiLineString(Seq::empty())), at + 44),
        ),
        s.len() - at >= 44 && i32_le(s, at) == 5 && i32_le(s, at + 36) == 0 && i32_le(s, at + 40)
            == 0 ==> shape_at(s, at) == Ok::<(Option<GeometryView>, int), ShapefileError>(
            (Some(GeometryView::Polygon(Seq::empty())), at + 44),
        ),
{
    if s.len() - at >= 40 && i32_le(s, at) == 8 && i32_le(s, at + 36) == 0 {
        assert(points_at(s, at + 40, 0) =~= Seq::<Point>::empty());
    }
}

/// A shape that decodes lies within the source: it is at least its code
/// long and does not reach past the last byte.
pub proof fn lemma_shape_within_source(s: Seq<u8>, at: int)
    requires
        shape_at(s, at) is Ok,
    ensures
        at + 4 <= shape_at(s, at)->Ok_0.1 <= s.len(),
{
}

/// A shape needs all of its bytes: cut the source anywhere before the end
/// of a shape that decodes, and what is left of the shape fails as
/// truncated, never as anything else and never as a shorter shape.
pub proof fn lemma_cut_shape_is_truncated(s: Seq<u8>, at: int, cut: int)
    requires
        0 <= at,
        shape_at(s, at) is Ok,
        0 <= cut < shape_at(s, at)->Ok_0.1,
    ensures
        shape_at(s.take(cut), at) == Err::<(Option<GeometryView>, int), ShapefileError>(eof()),
{
    let t = s.take(cut);
    lemma_shape_within_source(s, at);
    if cut - at >= 4 {
        lemma_field_of_own_bytes(s, t, at);
        let code = i32_le(s, at);
        if code == 8 && cut - at >= 40 {
            lemma_field_of_own_bytes(s, t, at + 36);
        }
        if (code == 3 || code == 5) && cut - at >= 44 {
            lemma_field_of_own_bytes(s, t, at + 36);
            lemma_field_of_own_bytes(s, t, at + 40);
        }
    }
}

/// A shape is a matter of its own bytes: a source that holds the bytes of
/// a shape that decodes, at the same place, holds the same shape, whatever
/// precedes or follows it there. A decoder takes in the bytes of its shape
/// and no others.
pub proof fn lemma_shape_of_own_bytes(a: Seq<u8>, b: Seq<u8>, at: int)
    requires
        shape_at(a, at) is Ok,
        same_bytes(a, b, at, shape_at(a, at)->Ok_0.1),
        b.len() >= shape_at(a, at)->Ok_0.1,
    ensures
        shape_at(b, at) == shape_at(a, at),
{
    lemma_field_of_own_bytes(a, b, at);
    match ShapeType::of(i32_le(a, at)) {
        Some(ShapeType::Point) | Some(ShapeType::PointM) => {
            lemma_point_of_own_bytes(a, b, at + 4);
        },
        Some(ShapeType::MultiPoint) => {
            lemma_field_of_own_bytes(a, b, at + 36);
            lemma_points_of_own_bytes(a, b, at + 40, i32_le(a, at + 36) as int);
        },
        Some(ShapeType::Polyline) | Some(ShapeType::Polygon) => {
            lemma_parts_of_own_bytes(a, b, at + 4);
        },
        _ => {},
    }
}

} // verus!
