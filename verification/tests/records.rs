use shapefile_reader::read_record;
use shapefile_reader::read_records;
use shapefile_reader::ByteCursor;
use shapefile_reader::Geometry;
use shapefile_reader::IoErrorKind;
use shapefile_reader::Point;
use shapefile_reader::Record;
use shapefile_reader::ShapefileError;

const EOF: ShapefileError = ShapefileError::IoError(IoErrorKind::UnexpectedEof);
const INVALID: ShapefileError = ShapefileError::IoError(IoErrorKind::InvalidData);

fn pt(x: f64, y: f64) -> Point {
    Point { x: x.to_bits(), y: y.to_bits() }
}

fn record_header(number: i32, content_length: i32) -> Vec<u8> {
    let mut out = Vec::new();
    out.extend_from_slice(&number.to_be_bytes());
    out.extend_from_slice(&content_length.to_be_bytes());
    out
}

fn point_record(number: i32, x: f64, y: f64) -> Vec<u8> {
    let mut out = record_header(number, 10);
    out.extend_from_slice(&1i32.to_le_bytes());
    out.extend_from_slice(&x.to_le_bytes());
    out.extend_from_slice(&y.to_le_bytes());
    out
}

fn null_record(number: i32) -> Vec<u8> {
    let mut out = record_header(number, 2);
    out.extend_from_slice(&0i32.to_le_bytes());
    out
}

fn multipoint_record(number: i32, points: &[(f64, f64)]) -> Vec<u8> {
    let mut out = record_header(number, 20 + 8 * points.len() as i32);
    out.extend_from_slice(&8i32.to_le_bytes());
    out.extend_from_slice(&[0; 32]);
    out.extend_from_slice(&(points.len() as i32).to_le_bytes());
    for (x, y) in points {
        out.extend_from_slice(&x.to_le_bytes());
        out.extend_from_slice(&y.to_le_bytes());
    }
    out
}

#[test]
fn one_point_record() {
    let mut cursor = ByteCursor::new(point_record(1, 1.0, 2.0));
    assert_eq!(read_records(&mut cursor), Ok(vec![Geometry::Point(pt(1.0, 2.0))]));
    assert_eq!(cursor.position(), 28);
}

#[test]
fn one_point_record_byte_by_byte() {
    let data = vec![
        0, 0, 0, 1, 0, 0, 0, 10, 1, 0, 0, 0, 0, 0, 0, 0, 0, 0, 0xf0, 0x3f, 0, 0, 0, 0, 0, 0, 0,
        0x40,
    ];
    let mut cursor = ByteCursor::new(data);
    match read_records(&mut cursor) {
        Ok(shapes) => {
            assert_eq!(shapes.len(), 1);
            match &shapes[0] {
                Geometry::Point(p) => {
                    assert_eq!(f64::from_bits(p.x), 1.0);
                    assert_eq!(f64::from_bits(p.y), 2.0);
                }
                other => panic!("{:?}", other),
            }
        }
        Err(e) => panic!("{:?}", e),
    }
}

#[test]
fn record_carries_number_and_length() {
    let mut cursor = ByteCursor::new(point_record(7, 1.0, 2.0));
    assert_eq!(
        read_record(&mut cursor),
        Ok(Record { number: 7, content_length: 10, geometry: Some(Geometry::Point(pt(1.0, 2.0))) })
    );
    assert_eq!(cursor.position(), 28);
}

#[test]
fn record_number_and_length_are_big_endian() {
    let mut data = vec![0x01, 0x02, 0x03, 0x04, 0xff, 0xff, 0xff, 0xff];
    data.extend_from_slice(&0i32.to_le_bytes());
    let mut cursor = ByteCursor::new(data);
    assert_eq!(
        read_record(&mut cursor),
        Ok(Record { number: 0x0102_0304, content_length: -1, geometry: None })
    );
}

#[test]
fn null_record_has_no_geometry() {
    let mut cursor = ByteCursor::new(null_record(3));
    assert_eq!(
        read_record(&mut cursor),
        Ok(Record { number: 3, content_length: 2, geometry: None })
    );
    assert_eq!(cursor.position(), 12);
}

#[test]
fn default_record_is_empty() {
    assert_eq!(Record::default(), Record { number: 0, content_length: 0, geometry: None });
}

#[test]
fn record_without_a_full_header_fails() {
    let mut cursor = ByteCursor::new(vec![0, 0, 0, 1, 0, 0, 0]);
    assert_eq!(read_record(&mut cursor), Err(EOF));
    assert_eq!(cursor.position(), 0);
}

#[test]
fn record_without_a_shape_fails() {
    let mut cursor = ByteCursor::new(record_header(1, 10));
    assert_eq!(read_record(&mut cursor), Err(EOF));
    assert_eq!(cursor.position(), 0);
}

#[test]
fn the_stated_length_is_not_held_against_the_shape() {
    let mut data = point_record(1, 1.0, 2.0);
    data[7] = 99;
    data.extend_from_slice(&point_record(2, 3.0, 4.0));
    let mut cursor = ByteCursor::new(data);
    assert_eq!(
        read_records(&mut cursor),
        Ok(vec![Geometry::Point(pt(1.0, 2.0)), Geometry::Point(pt(3.0, 4.0))])
    );
}

#[test]
fn an_empty_stream_has_no_geometry() {
    let mut cursor = ByteCursor::new(Vec::new());
    assert_eq!(read_records(&mut cursor), Ok(vec![]));
    assert_eq!(cursor.position(), 0);
}

#[test]
fn geometries_come_in_the_order_of_the_records() {
    let mut data = Vec::new();
    data.extend_from_slice(&point_record(1, 3.0, 3.0));
    data.extend_from_slice(&multipoint_record(2, &[(1.0, 1.0), (2.0, 2.0)]));
    data.extend_from_slice(&point_record(3, 1.0, 1.0));
    data.extend_from_slice(&point_record(4, 2.0, 2.0));
    let end = data.len();
    let mut cursor = ByteCursor::new(data);
    assert_eq!(
        read_records(&mut cursor),
        Ok(vec![
            Geometry::Point(pt(3.0, 3.0)),
            Geometry::MultiPoint(vec![pt(1.0, 1.0), pt(2.0, 2.0)]),
            Geometry::Point(pt(1.0, 1.0)),
            Geometry::Point(pt(2.0, 2.0)),
        ])
    );
    assert_eq!(cursor.position(), end);
}

#[test]
fn null_records_add_nothing_and_do_not_end_the_stream() {
    let mut data = Vec::new();
    data.extend_from_slice(&null_record(1));
    data.extend_from_slice(&point_record(2, 1.0, 2.0));
    data.extend_from_slice(&null_record(3));
    data.extend_from_slice(&null_record(4));
    data.extend_from_slice(&point_record(5, 3.0, 4.0));
    data.extend_from_slice(&null_record(6));
    let end = data.len();
    let mut cursor = ByteCursor::new(data);
    assert_eq!(
        read_records(&mut cursor),
        Ok(vec![Geometry::Point(pt(1.0, 2.0)), Geometry::Point(pt(3.0, 4.0))])
    );
    assert_eq!(cursor.position(), end);
}

#[test]
fn a_stream_of_null_records_only() {
    let mut data = null_record(1);
    data.extend_from_slice(&null_record(2));
    let mut cursor = ByteCursor::new(data);
    assert_eq!(read_records(&mut cursor), Ok(vec![]));
    assert_eq!(cursor.position(), 24);
}

#[test]
fn a_bare_record_header_ends_the_stream() {
    let mut cursor = ByteCursor::new(record_header(1, 10));
    assert_eq!(read_records(&mut cursor), Ok(vec![]));
    assert_eq!(cursor.position(), 0);
}

#[test]
fn a_bare_record_header_behind_records_adds_nothing() {
    let mut data = point_record(1, 1.0, 2.0);
    data.extend_from_slice(&record_header(2, 10));
    let mut cursor = ByteCursor::new(data);
    assert_eq!(read_records(&mut cursor), Ok(vec![Geometry::Point(pt(1.0, 2.0))]));
    assert_eq!(cursor.position(), 28);
    assert_eq!(cursor.remaining(), 8);
}

#[test]
fn a_broken_record_header_ends_the_stream() {
    for left in 1..8 {
        let mut data = point_record(1, 1.0, 2.0);
        data.extend_from_slice(&record_header(2, 10)[..left]);
        let mut cursor = ByteCursor::new(data);
        assert_eq!(read_records(&mut cursor), Ok(vec![Geometry::Point(pt(1.0, 2.0))]));
        assert_eq!(cursor.position(), 28);
    }
}

#[test]
fn a_truncated_payload_is_fatal() {
    let mut data = point_record(1, 1.0, 2.0);
    data.truncate(20);
    let mut cursor = ByteCursor::new(data);
    assert_eq!(read_records(&mut cursor), Err(EOF));
    assert_eq!(cursor.position(), 0);
}

#[test]
fn a_payload_truncated_anywhere_is_fatal() {
    let whole = point_record(2, 3.0, 4.0);
    for kept in 9..whole.len() {
        let mut data = point_record(1, 1.0, 2.0);
        data.extend_from_slice(&whole[..kept]);
        let mut cursor = ByteCursor::new(data);
        assert_eq!(read_records(&mut cursor), Err(EOF));
        assert_eq!(cursor.position(), 0);
    }
}

#[test]
fn a_truncated_shape_code_is_fatal() {
    let mut data = record_header(1, 10);
    data.push(1);
    let mut cursor = ByteCursor::new(data);
    assert_eq!(read_records(&mut cursor), Err(EOF));
}

#[test]
fn a_truncated_multipoint_is_fatal() {
    let mut data = multipoint_record(1, &[(1.0, 1.0), (2.0, 2.0)]);
    data.pop();
    let mut cursor = ByteCursor::new(data);
    assert_eq!(read_records(&mut cursor), Err(EOF));
}

#[test]
fn an_unimplemented_record_is_fatal_and_nothing_is_returned() {
    let mut data = point_record(1, 1.0, 2.0);
    data.extend_from_slice(&record_header(2, 2));
    data.extend_from_slice(&31i32.to_le_bytes());
    data.extend_from_slice(&point_record(3, 3.0, 4.0));
    let mut cursor = ByteCursor::new(data);
    assert_eq!(read_records(&mut cursor), Err(ShapefileError::UnimplementedShapeType(31)));
    assert_eq!(cursor.position(), 0);
}

#[test]
fn an_invalid_record_is_fatal() {
    let mut data = point_record(1, 1.0, 2.0);
    data.extend_from_slice(&record_header(2, 20));
    data.extend_from_slice(&8i32.to_le_bytes());
    data.extend_from_slice(&[0; 32]);
    data.extend_from_slice(&(-5i32).to_le_bytes());
    let mut cursor = ByteCursor::new(data);
    assert_eq!(read_records(&mut cursor), Err(INVALID));
}

#[test]
fn the_stream_starts_where_the_cursor_stands() {
    let mut data = vec![0xcc; 100];
    data.extend_from_slice(&point_record(1, 1.0, 2.0));
    let mut cursor = ByteCursor::new(data);
    assert_eq!(cursor.skip(100), Ok(()));
    assert_eq!(read_records(&mut cursor), Ok(vec![Geometry::Point(pt(1.0, 2.0))]));
    assert_eq!(cursor.position(), 128);
}
