use shapefile_reader::shapes::polygon::assemble_polygons;
use shapefile_reader::shapes::polygon::Orientation;
use shapefile_reader::shapes::polygon::Polygon;
use shapefile_reader::shapes::polygon::Ring;
use shapefile_reader::Point;

fn ring(tag: u64, orientation: Orientation) -> Ring {
    Ring { points: points(tag), orientation }
}

fn points(tag: u64) -> Vec<Point> {
    vec![Point { x: tag, y: tag + 1 }, Point { x: tag + 2, y: tag + 3 }]
}

fn flatten(polygons: &[Polygon]) -> Vec<Vec<Point>> {
    let mut all = Vec::new();
    for polygon in polygons {
        all.push(polygon.exterior.clone());
        for hole in &polygon.interiors {
            all.push(hole.clone());
        }
    }
    all
}

#[test]
fn no_rings_no_polygons() {
    assert_eq!(assemble_polygons(Vec::new()), Vec::new());
}

#[test]
fn one_outer_ring_is_one_polygon() {
    assert_eq!(
        assemble_polygons(vec![ring(10, Orientation::Clockwise)]),
        vec![Polygon { exterior: points(10), interiors: vec![] }]
    );
}

#[test]
fn holes_belong_to_the_outer_ring_before_them() {
    let rings = vec![
        ring(10, Orientation::Clockwise),
        ring(20, Orientation::CounterClockwise),
        ring(30, Orientation::CounterClockwise),
        ring(40, Orientation::Clockwise),
        ring(50, Orientation::CounterClockwise),
        ring(60, Orientation::Clockwise),
    ];
    assert_eq!(
        assemble_polygons(rings),
        vec![
            Polygon { exterior: points(10), interiors: vec![points(20), points(30)] },
            Polygon { exterior: points(40), interiors: vec![points(50)] },
            Polygon { exterior: points(60), interiors: vec![] },
        ]
    );
}

#[test]
fn a_leading_hole_becomes_a_polygon_of_its_own() {
    let rings = vec![
        ring(10, Orientation::CounterClockwise),
        ring(20, Orientation::CounterClockwise),
        ring(30, Orientation::Clockwise),
    ];
    assert_eq!(
        assemble_polygons(rings),
        vec![
            Polygon { exterior: points(10), interiors: vec![points(20)] },
            Polygon { exterior: points(30), interiors: vec![] },
        ]
    );
}

#[test]
fn a_ring_without_area_is_an_outer_ring() {
    let rings = vec![
        ring(10, Orientation::Clockwise),
        ring(20, Orientation::Degenerate),
        ring(30, Orientation::CounterClockwise),
    ];
    assert_eq!(
        assemble_polygons(rings),
        vec![
            Polygon { exterior: points(10), interiors: vec![] },
            Polygon { exterior: points(20), interiors: vec![points(30)] },
        ]
    );
}

#[test]
fn no_ring_is_lost_and_the_order_stays() {
    let orientations = [
        Orientation::CounterClockwise,
        Orientation::Clockwise,
        Orientation::Degenerate,
        Orientation::CounterClockwise,
        Orientation::CounterClockwise,
        Orientation::Clockwise,
        Orientation::Clockwise,
        Orientation::CounterClockwise,
    ];
    let rings: Vec<Ring> =
        orientations.iter().enumerate().map(|(i, o)| ring(100 * i as u64, *o)).collect();
    let before: Vec<Vec<Point>> = rings.iter().map(|r| r.points.clone()).collect();
    let polygons = assemble_polygons(rings);
    assert_eq!(flatten(&polygons), before);
    assert_eq!(polygons.len(), 5);
}
