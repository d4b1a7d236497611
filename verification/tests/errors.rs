use shapefile_reader::IoErrorKind;
use shapefile_reader::ShapefileError;

#[test]
fn truncation_reads_as_an_io_error() {
    assert_eq!(
        ShapefileError::IoError(IoErrorKind::UnexpectedEof).message(),
        "IO error: unexpected end of file"
    );
}

#[test]
fn contradiction_reads_as_an_io_error() {
    assert_eq!(
        ShapefileError::IoError(IoErrorKind::InvalidData).message(),
        "IO error: invalid data"
    );
}

#[test]
fn kinds_describe_themselves() {
    assert_eq!(IoErrorKind::UnexpectedEof.description(), "unexpected end of file");
    assert_eq!(IoErrorKind::InvalidData.description(), "invalid data");
}

#[test]
fn unimplemented_shape_type_names_the_code() {
    assert_eq!(
        ShapefileError::UnimplementedShapeType(31).message(),
        "Unimplemented shape type: 31"
    );
}

#[test]
fn invalid_shape_type_names_the_code() {
    assert_eq!(ShapefileError::InvalidShapeType(7).message(), "Invalid shape type: 7");
}

#[test]
fn codes_are_written_in_base_ten() {
    let codes = [
        0,
        1,
        9,
        10,
        11,
        99,
        100,
        101,
        1000,
        12345,
        1_000_000,
        i32::MAX,
        -1,
        -9,
        -10,
        -2_147_483_647,
        i32::MIN,
    ];
    for code in codes {
        assert_eq!(
            ShapefileError::UnimplementedShapeType(code).message(),
            format!("Unimplemented shape type: {}", code)
        );
        assert_eq!(
            ShapefileError::InvalidShapeType(code).message(),
            format!("Invalid shape type: {}", code)
        );
    }
}

#[test]
fn the_three_errors_differ() {
    assert_ne!(
        ShapefileError::UnimplementedShapeType(5),
        ShapefileError::InvalidShapeType(5)
    );
    assert_ne!(
        ShapefileError::IoError(IoErrorKind::UnexpectedEof),
        ShapefileError::IoError(IoErrorKind::InvalidData)
    );
    assert_ne!(
        ShapefileError::UnimplementedShapeType(5).message(),
        ShapefileError::InvalidShapeType(5).message()
    );
}
