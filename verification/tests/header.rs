use shapefile_reader::ByteCursor;
use shapefile_reader::Header;
use shapefile_reader::IoErrorKind;
use shapefile_reader::ShapefileError;

fn header_block(
    file_code: i32,
    reserved: u8,
    file_length: i32,
    version: i32,
    shape_type: i32,
    bounds: [f64; 8],
) -> Vec<u8> {
    let mut block = Vec::new();
    block.extend_from_slice(&file_code.to_be_bytes());
    block.extend_from_slice(&[reserved; 20]);
    block.extend_from_slice(&file_length.to_be_bytes());
    block.extend_from_slice(&version.to_le_bytes());
    block.extend_from_slice(&shape_type.to_le_bytes());
    for bound in bounds {
        block.extend_from_slice(&bound.to_le_bytes());
    }
    block
}

#[test]
fn reference_header_decodes() {
    let block = header_block(9994, 0, 50, 1000, 1, [0.0; 8]);
    assert_eq!(block.len(), 100);
    let mut cursor = ByteCursor::new(block);
    let mut header = Header::default();
    assert_eq!(header.read(&mut cursor), Ok(()));
    assert_eq!(header.file_code, 9994);
    assert_eq!(header.file_length, 50);
    assert_eq!(header.version, 1000);
    assert_eq!(header.shape_type, 1);
    assert_eq!(f64::from_bits(header.min_x), 0.0);
    assert_eq!(f64::from_bits(header.min_y), 0.0);
    assert_eq!(f64::from_bits(header.max_x), 0.0);
    assert_eq!(f64::from_bits(header.max_y), 0.0);
    assert_eq!(f64::from_bits(header.min_z), 0.0);
    assert_eq!(f64::from_bits(header.max_z), 0.0);
    assert_eq!(f64::from_bits(header.min_m), 0.0);
    assert_eq!(f64::from_bits(header.max_m), 0.0);
    assert_eq!(cursor.position(), 100);
    assert_eq!(cursor.remaining(), 0);
}

#[test]
fn default_header_is_the_empty_file() {
    let header = Header::default();
    assert_eq!(
        header,
        Header {
            file_code: 9994,
            file_length: 0,
            version: 1000,
            shape_type: 0,
            min_x: 0,
            min_y: 0,
            max_x: 0,
            max_y: 0,
            min_z: 0,
            max_z: 0,
            min_m: 0,
            max_m: 0,
        }
    );
    assert_eq!(f64::from_bits(header.max_m), 0.0);
}

#[test]
fn every_field_is_read_from_its_own_place() {
    let bounds = [-180.0, -90.0, 180.0, 90.0, -1.5, 2.5, 1e-300, -1e300];
    let block = header_block(0x0102_0304, 0xaa, -2, i32::MIN, 0x0a0b_0c0d, bounds);
    let mut cursor = ByteCursor::new(block);
    let mut header = Header::default();
    assert_eq!(header.read(&mut cursor), Ok(()));
    assert_eq!(header.file_code, 0x0102_0304);
    assert_eq!(header.file_length, -2);
    assert_eq!(header.version, i32::MIN);
    assert_eq!(header.shape_type, 0x0a0b_0c0d);
    assert_eq!(f64::from_bits(header.min_x), -180.0);
    assert_eq!(f64::from_bits(header.min_y), -90.0);
    assert_eq!(f64::from_bits(header.max_x), 180.0);
    assert_eq!(f64::from_bits(header.max_y), 90.0);
    assert_eq!(f64::from_bits(header.min_z), -1.5);
    assert_eq!(f64::from_bits(header.max_z), 2.5);
    assert_eq!(f64::from_bits(header.min_m), 1e-300);
    assert_eq!(f64::from_bits(header.max_m), -1e300);
}

#[test]
fn file_code_and_length_are_big_endian_the_rest_little_endian() {
    let mut block = vec![0u8; 100];
    block[3] = 1;
    block[27] = 2;
    block[28] = 3;
    block[32] = 4;
    block[36] = 5;
    let mut cursor = ByteCursor::new(block);
    let mut header = Header::default();
    assert_eq!(header.read(&mut cursor), Ok(()));
    assert_eq!(header.file_code, 1);
    assert_eq!(header.file_length, 2);
    assert_eq!(header.version, 3);
    assert_eq!(header.shape_type, 4);
    assert_eq!(header.min_x, 5);
}

#[test]
fn reserved_bytes_decide_nothing() {
    let bounds = [1.0, 2.0, 3.0, 4.0, 5.0, 6.0, 7.0, 8.0];
    let mut plain = Header::default();
    let mut noisy = Header::default();
    let mut a = ByteCursor::new(header_block(9994, 0, 77, 1000, 5, bounds));
    let mut b = ByteCursor::new(header_block(9994, 0xff, 77, 1000, 5, bounds));
    assert_eq!(plain.read(&mut a), Ok(()));
    assert_eq!(noisy.read(&mut b), Ok(()));
    assert_eq!(plain, noisy);
}

#[test]
fn changing_one_field_changes_only_that_field() {
    let bounds = [1.0, 2.0, 3.0, 4.0, 5.0, 6.0, 7.0, 8.0];
    let mut first = Header::default();
    let mut second = Header::default();
    let mut a = ByteCursor::new(header_block(9994, 0, 77, 1000, 5, bounds));
    let mut b = ByteCursor::new(header_block(9994, 0, 78, 1000, 5, bounds));
    assert_eq!(first.read(&mut a), Ok(()));
    assert_eq!(second.read(&mut b), Ok(()));
    assert_eq!(second.file_length, 78);
    second.file_length = 77;
    assert_eq!(first, second);
}

#[test]
fn a_wrong_file_code_is_not_refused() {
    let block = header_block(1234, 0, 50, 1000, 1, [0.0; 8]);
    let mut cursor = ByteCursor::new(block);
    let mut header = Header::default();
    assert_eq!(header.read(&mut cursor), Ok(()));
    assert_eq!(header.file_code, 1234);
}

#[test]
fn a_short_header_reads_nothing() {
    let mut block = header_block(1, 0, 2, 3, 4, [9.0; 8]);
    block.truncate(99);
    let mut cursor = ByteCursor::new(block);
    let mut header = Header::default();
    assert_eq!(
        header.read(&mut cursor),
        Err(ShapefileError::IoError(IoErrorKind::UnexpectedEof))
    );
    assert_eq!(header, Header::default());
    assert_eq!(cursor.position(), 0);
    assert_eq!(cursor.remaining(), 99);
}

#[test]
fn an_empty_source_has_no_header() {
    let mut cursor = ByteCursor::new(Vec::new());
    let mut header = Header::default();
    assert_eq!(
        header.read(&mut cursor),
        Err(ShapefileError::IoError(IoErrorKind::UnexpectedEof))
    );
}

#[test]
fn the_header_is_read_where_the_cursor_stands() {
    let mut data = vec![7u8; 5];
    data.extend_from_slice(&header_block(9994, 0, 50, 1000, 8, [0.5; 8]));
    data.extend_from_slice(&[1, 2, 3]);
    let mut cursor = ByteCursor::new(data);
    assert_eq!(cursor.skip(5), Ok(()));
    let mut header = Header::default();
    assert_eq!(header.read(&mut cursor), Ok(()));
    assert_eq!(header.file_code, 9994);
    assert_eq!(header.shape_type, 8);
    assert_eq!(f64::from_bits(header.max_m), 0.5);
    assert_eq!(cursor.position(), 105);
    assert_eq!(cursor.remaining(), 3);
}
