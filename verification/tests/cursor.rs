use shapefile_reader::ByteCursor;
use shapefile_reader::IoErrorKind;
use shapefile_reader::ShapefileError;

const EOF: ShapefileError = ShapefileError::IoError(IoErrorKind::UnexpectedEof);

#[test]
fn a_new_cursor_stands_at_the_start() {
    let cursor = ByteCursor::new(vec![1, 2, 3]);
    assert_eq!(cursor.position(), 0);
    assert_eq!(cursor.remaining(), 3);
}

#[test]
fn big_endian_integers() {
    let mut cursor = ByteCursor::new(vec![0, 0, 0x27, 0x0a, 0xff, 0xff, 0xff, 0xfe, 0x80, 0, 0, 0]);
    assert_eq!(cursor.read_i32_be(), Ok(9994));
    assert_eq!(cursor.position(), 4);
    assert_eq!(cursor.read_i32_be(), Ok(-2));
    assert_eq!(cursor.read_i32_be(), Ok(i32::MIN));
    assert_eq!(cursor.remaining(), 0);
}

#[test]
fn little_endian_integers() {
    let mut cursor =
        ByteCursor::new(vec![0xe8, 3, 0, 0, 0xfe, 0xff, 0xff, 0xff, 0xff, 0xff, 0xff, 0x7f]);
    assert_eq!(cursor.read_i32_le(), Ok(1000));
    assert_eq!(cursor.read_i32_le(), Ok(-2));
    assert_eq!(cursor.read_i32_le(), Ok(i32::MAX));
    assert_eq!(cursor.position(), 12);
}

#[test]
fn the_two_byte_orders_differ() {
    let bytes = vec![1, 2, 3, 4];
    let mut big = ByteCursor::new(bytes.clone());
    let mut little = ByteCursor::new(bytes);
    assert_eq!(big.read_i32_be(), Ok(0x0102_0304));
    assert_eq!(little.read_i32_le(), Ok(0x0403_0201));
}

#[test]
fn binary64_values_come_as_their_bits() {
    let mut data = Vec::new();
    for value in [1.0f64, -2.5, 0.0, 1e100] {
        data.extend_from_slice(&value.to_le_bytes());
    }
    let mut cursor = ByteCursor::new(data);
    assert_eq!(cursor.read_f64_bits(), Ok(0x3ff0_0000_0000_0000));
    assert_eq!(cursor.read_f64_bits().map(f64::from_bits), Ok(-2.5));
    assert_eq!(cursor.read_f64_bits(), Ok(0));
    assert_eq!(cursor.read_f64_bits().map(f64::from_bits), Ok(1e100));
    assert_eq!(cursor.position(), 32);
}

#[test]
fn binary64_bits_are_little_endian() {
    let mut cursor = ByteCursor::new(vec![1, 2, 3, 4, 5, 6, 7, 8]);
    assert_eq!(cursor.read_f64_bits(), Ok(0x0807_0605_0403_0201));
}

#[test]
fn a_short_read_fails_and_leaves_the_cursor() {
    let mut cursor = ByteCursor::new(vec![1, 2, 3, 4, 5, 6, 7]);
    assert_eq!(cursor.read_f64_bits(), Err(EOF));
    assert_eq!(cursor.position(), 0);
    assert_eq!(cursor.read_i32_le(), Ok(0x0403_0201));
    assert_eq!(cursor.read_i32_le(), Err(EOF));
    assert_eq!(cursor.read_i32_be(), Err(EOF));
    assert_eq!(cursor.position(), 4);
    assert_eq!(cursor.remaining(), 3);
}

#[test]
fn skip_passes_over_bytes() {
    let mut cursor = ByteCursor::new(vec![9, 9, 9, 1, 0, 0, 0]);
    assert_eq!(cursor.skip(3), Ok(()));
    assert_eq!(cursor.position(), 3);
    assert_eq!(cursor.read_i32_le(), Ok(1));
    assert_eq!(cursor.skip(0), Ok(()));
    assert_eq!(cursor.position(), 7);
}

#[test]
fn skip_past_the_end_fails_and_leaves_the_cursor() {
    let mut cursor = ByteCursor::new(vec![0; 10]);
    assert_eq!(cursor.skip(4), Ok(()));
    assert_eq!(cursor.skip(7), Err(EOF));
    assert_eq!(cursor.position(), 4);
    assert_eq!(cursor.skip(usize::MAX), Err(EOF));
    assert_eq!(cursor.position(), 4);
    assert_eq!(cursor.skip(6), Ok(()));
    assert_eq!(cursor.remaining(), 0);
}

#[test]
fn seek_moves_to_an_offset() {
    let mut cursor = ByteCursor::new(vec![1, 0, 0, 0, 2, 0, 0, 0]);
    assert_eq!(cursor.seek(4), Ok(()));
    assert_eq!(cursor.read_i32_le(), Ok(2));
    assert_eq!(cursor.seek(0), Ok(()));
    assert_eq!(cursor.read_i32_le(), Ok(1));
    assert_eq!(cursor.seek(8), Ok(()));
    assert_eq!(cursor.remaining(), 0);
}

#[test]
fn seek_past_the_end_fails_and_leaves_the_cursor() {
    let mut cursor = ByteCursor::new(vec![0; 8]);
    assert_eq!(cursor.seek(3), Ok(()));
    assert_eq!(cursor.seek(9), Err(EOF));
    assert_eq!(cursor.position(), 3);
}
