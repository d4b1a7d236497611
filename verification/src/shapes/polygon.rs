//! Decoder for polygons, and the grouping of rings into polygons with
//! holes.
//!
//! A polygon payload has the layout of a polyline payload; each part is a
//! ring. The decoder hands out every ring in the order of the file. Which
//! way a ring winds is a matter of its signed area, which is arithmetic on
//! the coordinates themselves: the caller works it out and tags each ring
//! with it. [`assemble_polygons`] then groups the tagged rings.

use crate::cursor::ByteCursor;
use crate::error::ShapefileError;
use crate::geometry::{lines_view, Geometry, GeometryView, Point};
use crate::shape::ShapeReader;
use crate::shapes::polyline::{parts_at, read_parts};
use vstd::prelude::*;

verus! {

/// Decoder for shape type 5: the rings of a polygon record.
pub struct PolygonReader;

impl ShapeReader for PolygonReader {
    /// The parts of the payload, each a ring, none of them dropped.
    open spec fn payload(s: Seq<u8>, at: int) -> Result<(GeometryView, int), ShapefileError> {
        match parts_at(s, at) {
            Ok((rings, end)) => Ok((GeometryView::Polygon(rings), end)),
            Err(e) => Err(e),
        }
    }

    fn read_shape(cursor: &mut ByteCursor) -> (r: Result<Geometry, ShapefileError>) {
        let rings = read_parts(cursor)?;
        Ok(Geometry::Polygon(rings))
    }
}

/// The way a ring winds, as the sign of its area tells.
#[derive(Debug, Clone, Copy, PartialEq, Eq, Structural)]
pub enum Orientation {
    /// Negative signed area: the ring is the outer boundary of a polygon.
    Clockwise,
    /// Positive signed area: the ring is a hole.
    CounterClockwise,
    /// No area, so no direction: the ring counts as an outer boundary.
    Degenerate,
}

/// A ring tagged with the way it winds.
#[derive(Debug, Clone, PartialEq, Eq)]
pub struct Ring {
    pub points: Vec<Point>,
    pub orientation: Orientation,
}

/// An outer boundary and the holes that lie in it.
#[derive(Debug, Clone, PartialEq, Eq)]
pub struct Polygon {
    pub exterior: Vec<Point>,
    pub interiors: Vec<Vec<Point>>,
}

/// What a [`Ring`] holds, as a sequence.
pub struct RingView {
    pub points: Seq<Point>,
    pub orientation: Orientation,
}

/// What a [`Polygon`] holds, as sequences.
pub struct PolygonView {
    pub exterior: Seq<Point>,
    pub interiors: Seq<Seq<Point>>,
}

impl View for Ring {
    type V = RingView;

    open spec fn view(&self) -> RingView {
        RingView { points: self.points@, orientation: self.orientation }
    }
}

impl View for Polygon {
    type V = PolygonView;

    open spec fn view(&self) -> PolygonView {
        PolygonView { exterior: self.exterior@, interiors: lines_view(self.interiors) }
    }
}

/// The rings of `rings`, each as its view.
pub open spec fn rings_view(rings: Vec<Ring>) -> Seq<RingView> {
    Seq::new(rings@.len(), |i: int| rings@[i]@)
}

/// The polygons of `polygons`, each as its view.
pub open spec fn polygons_view(polygons: Vec<Polygon>) -> Seq<PolygonView> {
    Seq::new(polygons@.len(), |i: int| polygons@[i]@)
}

/// The polygon that `ring` bounds, so far without a hole.
pub open spec fn solid(ring: RingView) -> PolygonView {
    PolygonView { exterior: ring.points, interiors: Seq::empty() }
}

/// `polygon` with `ring` as one more hole.
pub open spec fn pierced(polygon: PolygonView, ring: RingView) -> PolygonView {
    PolygonView { exterior: polygon.exterior, interiors: polygon.interiors.push(ring.points) }
}

/// The polygons that `rings` make up.
///
/// A counter-clockwise ring is a hole of the polygon whose outer boundary
/// came last before it. Every other ring starts a polygon of its own, and
/// so does a counter-clockwise ring that no outer boundary precedes: no
/// ring is dropped.
pub open spec fn assembled(rings: Seq<RingView>) -> Seq<PolygonView>
    decreases rings.len(),
{
    if rings.len() == 0 {
        Seq::empty()
    } else {
        let before = assembled(rings.drop_last());
        if rings.last().orientation == Orientation::CounterClockwise && before.len() > 0 {
            before.update(before.len() - 1, pierced(before.last(), rings.last()))
        } else {
            before.push(solid(rings.last()))
        }
    }
}

/// The rings of `polygons` one after the other: of each polygon the outer
/// boundary, then its holes.
pub open spec fn ring_points(polygons: Seq<PolygonView>) -> Seq<Seq<Point>>
    decreases polygons.len(),
{
    if polygons.len() == 0 {
        Seq::empty()
    } else {
        ring_points(polygons.drop_last()).push(polygons.last().exterior) + polygons.last().interiors
    }
}

/// Grouping loses no ring and keeps the rings in their order: the rings of
/// the assembled polygons, read off one after the other, are the rings
/// that went in.
pub proof fn lemma_assembly_keeps_rings(rings: Seq<RingView>)
    ensures
        ring_points(assembled(rings)) == Seq::new(rings.len(), |i: int| rings[i].points),
    decreases rings.len(),
{
    if rings.len() > 0 {
        let before = assembled(rings.drop_last());
        lemma_assembly_keeps_rings(rings.drop_last());
        if rings.last().orientation == Orientation::CounterClockwise && before.len() > 0 {
            let after = before.update(before.len() - 1, pierced(before.last(), rings.last()));
            assert(after.drop_last() =~= before.drop_last());
            assert(ring_points(after) =~= ring_points(before).push(rings.last().points));
        } else {
            let after = before.push(solid(rings.last()));
            assert(after.drop_last() =~= before);
        }
    }
}

/// Groups tagged rings into polygons with holes.
pub fn assemble_polygons(rings: Vec<Ring>) -> (polygons: Vec<Polygon>)
    ensures
        polygons_view(polygons) == assembled(rings_view(rings)),
{
    let ghost all = rings_view(rings);
    // The polygons that are complete, and the one that may still get holes.
    let mut done: Vec<Polygon> = Vec::new();
    let mut exterior: Vec<Point> = Vec::new();
    let mut interiors: Vec<Vec<Point>> = Vec::new();
    let mut open = false;
    for ring in it: rings
        invariant
            it.seq() == rings@,
            all == rings_view(rings),
            open <==> it.index() > 0,
            !open ==> done@.len() == 0,
            open ==> assembled(all.take(it.index() as int)) == polygons_view(done).push(
                PolygonView { exterior: exterior@, interiors: lines_view(interiors) },
            ),
    {
        let ghost k = it.index() as int;
        let ghost before = assembled(all.take(k));
        proof {
            assert(all.take(k + 1).drop_last() =~= all.take(k));
            assert(all.take(k + 1).last() == ring@);
            if k == 0 {
                assert(before.len() == 0);
            }
        }
        let hole = match ring.orientation {
            Orientation::CounterClockwise => open,
            _ => false,
        };
        if hole {
            let ghost holes = lines_view(interiors);
            interiors.push(ring.points);
            proof {
                assert(lines_view(interiors) =~= holes.push(ring.points@));
                assert(assembled(all.take(k + 1)) =~= polygons_view(done).push(
                    PolygonView { exterior: exterior@, interiors: lines_view(interiors) },
                ));
            }
        } else {
            if open {
                let ghost complete = polygons_view(done);
                let ghost last = PolygonView {
                    exterior: exterior@,
                    interiors: lines_view(interiors),
                };
                done.push(Polygon { exterior, interiors });
                proof {
                    assert(polygons_view(done) =~= complete.push(last));
                }
            }
            exterior = ring.points;
            interiors = Vec::new();
            open = true;
            proof {
                assert(lines_view(interiors) =~= Seq::<Seq<Point>>::empty());
                assert(assembled(all.take(k + 1)) =~= polygons_view(done).push(
                    PolygonView { exterior: exterior@, interiors: lines_view(interiors) },
                ));
            }
        }
    }
    proof {
        assert(all.take(all.len() as int) =~= all);
    }
    if open {
        let ghost complete = polygons_view(done);
        let ghost last = PolygonView { exterior: exterior@, interiors: lines_view(interiors) };
        done.push(Polygon { exterior, interiors });
        proof {
            assert(polygons_view(done) =~= complete.push(last));
        }
    } else {
        proof {
            assert(polygons_view(done) =~= Seq::<PolygonView>::empty());
        }
    }
    done
}

} // verus!
