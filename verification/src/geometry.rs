//! The geometries that a record can hold.

use crate::bytes::{lemma_field_of_own_bytes, same_bytes, u64_le};
use vstd::prelude::*;

verus! {

/// A coordinate pair. Each coordinate is an IEEE 754 binary64 value, held
/// as its 64 bits.
#[derive(Debug, Clone, Copy, PartialEq, Eq, Structural)]
pub struct Point {
    pub x: u64,
    pub y: u64,
}

/// A decoded geometry.
#[derive(Debug, Clone, PartialEq, Eq)]
pub enum Geometry {
    /// A single coordinate pair.
    Point(Point),
    /// Coordinate pairs in the order of the file.
    MultiPoint(Vec<Point>),
    /// The parts of a polyline, each a run of coordinate pairs.
    MultiLineString(Vec<Vec<Point>>),
    /// The rings of a polygon record in the order of the file.
    Polygon(Vec<Vec<Point>>),
}

/// What a [`Geometry`] holds, as sequences.
pub enum GeometryView {
    Point(Point),
    MultiPoint(Seq<Point>),
    MultiLineString(Seq<Seq<Point>>),
    Polygon(Seq<Seq<Point>>),
}

/// The runs of `lines`, each as a sequence.
pub open spec fn lines_view(lines: Vec<Vec<Point>>) -> Seq<Seq<Point>> {
    Seq::new(lines@.len(), |i: int| lines@[i]@)
}

/// The geometries of `shapes`, each as its view.
pub open spec fn shapes_view(shapes: Vec<Geometry>) -> Seq<GeometryView> {
    Seq::new(shapes@.len(), |i: int| shapes@[i]@)
}

impl View for Geometry {
    type V = GeometryView;

    open spec fn view(&self) -> GeometryView {
        match *self {
            Geometry::Point(p) => GeometryView::Point(p),
            Geometry::MultiPoint(points) => GeometryView::MultiPoint(points@),
            Geometry::MultiLineString(lines) => GeometryView::MultiLineString(lines_view(lines)),
            Geometry::Polygon(rings) => GeometryView::Polygon(lines_view(rings)),
        }
    }
}

/// The coordinate pair stored at `at`: x, then y, both little-endian.
pub open spec fn point_at(s: Seq<u8>, at: int) -> Point {
    Point { x: u64_le(s, at), y: u64_le(s, at + 8) }
}

/// The `count` coordinate pairs stored back to back from `at` on.
pub open spec fn points_at(s: Seq<u8>, at: int, count: int) -> Seq<Point> {
    Seq::new(count as nat, |i: int| point_at(s, at + 16 * i))
}

/// A coordinate pair is a matter of its own sixteen bytes.
pub proof fn lemma_point_of_own_bytes(a: Seq<u8>, b: Seq<u8>, at: int)
    requires
        same_bytes(a, b, at, at + 16),
    ensures
        point_at(a, at) == point_at(b, at),
{
    lemma_field_of_own_bytes(a, b, at);
    lemma_field_of_own_bytes(a, b, at + 8);
}

/// Coordinate pairs stored back to back are a matter of their own bytes.
pub proof fn lemma_points_of_own_bytes(a: Seq<u8>, b: Seq<u8>, at: int, count: int)
    requires
        0 <= count,
        same_bytes(a, b, at, at + 16 * count),
    ensures
        points_at(a, at, count) == points_at(b, at, count),
{
    assert forall|i: int| 0 <= i < count implies #[trigger] points_at(a, at, count)[i]
        == points_at(b, at, count)[i] by {
        lemma_point_of_own_bytes(a, b, at + 16 * i);
    }
    assert(points_at(a, at, count) =~= points_at(b, at, count));
}

} // verus!
