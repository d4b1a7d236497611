//! Decoder for shapefiles: the 100-byte header, the record stream and the
//! geometry payloads, held to contracts over the bytes of the file.
//!
//! The bytes of the main file and the attribute rows of the table that
//! goes with it come from the caller. Floating-point fields are handed
//! out as the 64 bits of their IEEE 754 binary64 encoding.
//!
//! - [`bytes`]: what a field of a byte sequence is worth.
//! - [`cursor`]: the sequential reader that every decoder reads from.
//! - [`header`]: the file header.
//! - [`shape`]: the decoder interface and the dispatch on the shape type.
//! - [`shapes`]: the decoders, one for each shape type.
//! - [`record`]: records and the record stream.
//! - [`geometry`]: what the decoders produce.
//! - [`error`]: how decoding fails.
//!
//! What a function returns is stated against a spec function of the bytes
//! and an offset: [`header::header_at`], [`shape::shape_at`],
//! [`record::records_at`], [`file_at`]. A read that fails leaves the cursor
//! where it was.

pub mod bytes;
pub mod cursor;
pub mod error;
pub mod geometry;
pub mod header;
pub mod record;
pub mod shape;
pub mod shapes;

pub use cursor::ByteCursor;
pub use error::IoErrorKind;
pub use error::ShapefileError;
pub use geometry::Geometry;
pub use geometry::Point;
pub use header::Header;
pub use record::read_record;
pub use record::read_records;
pub use record::Record;
pub use shape::read_shape;
pub use shape::ShapeReader;
pub use shape::ShapeType;
pub use shapes::point::MultipointReader;
pub use shapes::point::PointMReader;
pub use shapes::point::PointReader;
pub use shapes::polygon::PolygonReader;
pub use shapes::polyline::PolylineReader;

use crate::error::eof;
use crate::geometry::{shapes_view, GeometryView};
use crate::header::{header_at, HEADER_LEN};
use crate::record::records_at;
use crate::shape::{is_supported, supports};
use vstd::prelude::*;

verus! {

/// A decoded main file: its header and, in the order of the file, each
/// geometry with the attribute row that belongs to it.
///
/// `A` is the type of an attribute row. The rows come from the reader of
/// the attribute table; nothing here looks into them.
pub struct MainFile<A> {
    /// The 100-byte header of the file.
    pub header: Header,
    /// The geometries of the file, each with its attribute row.
    pub records: Vec<(Geometry, A)>,
}

/// The pairs of `records`, each geometry as its view.
pub open spec fn records_view<A>(records: Vec<(Geometry, A)>) -> Seq<(GeometryView, A)> {
    Seq::new(records@.len(), |i: int| (records@[i].0@, records@[i].1))
}

/// Geometry `i` with row `i`, for as many as both sequences have.
pub open spec fn joined<A>(shapes: Seq<GeometryView>, rows: Seq<A>) -> Seq<(GeometryView, A)> {
    Seq::new(
        if shapes.len() <= rows.len() {
            shapes.len()
        } else {
            rows.len()
        },
        |i: int| (shapes[i], rows[i]),
    )
}

/// Every geometry without a row.
pub open spec fn bare(shapes: Seq<GeometryView>) -> Seq<(GeometryView, ())> {
    Seq::new(shapes.len(), |i: int| (shapes[i], ()))
}

/// The header and the geometries of the main file `s`.
///
/// The file fails as a whole: where it is shorter than a header, where the
/// header names a shape type without a decoder, and where the record
/// stream behind the header fails.
pub open spec fn file_at(s: Seq<u8>) -> Result<(Header, Seq<GeometryView>), ShapefileError> {
    if s.len() < HEADER_LEN {
        Err(eof())
    } else if !is_supported(header_at(s, 0).shape_type) {
        Err(ShapefileError::UnimplementedShapeType(header_at(s, 0).shape_type))
    } else {
        match records_at(s, HEADER_LEN as int) {
            Ok((shapes, stop)) => Ok((header_at(s, 0), shapes)),
            Err(e) => Err(e),
        }
    }
}

/// The name of shape-type code `code`.
pub open spec fn geometry_name(code: i32) -> Seq<char> {
    if code == 0 {
        "Null"@
    } else if code == 1 {
        "Point"@
    } else if code == 3 {
        "Polyline"@
    } else if code == 5 {
        "Polygon"@
    } else if code == 8 {
        "Multipoint"@
    } else if code == 11 {
        "PointZ"@
    } else if code == 13 {
        "PolyLineZ"@
    } else if code == 15 {
        "PolygonZ"@
    } else if code == 18 {
        "MultiPointZ"@
    } else if code == 21 {
        "PointM"@
    } else if code == 23 {
        "PolyLineM"@
    } else if code == 25 {
        "PolygonM"@
    } else if code == 28 {
        "MultiPointM"@
    } else if code == 31 {
        "MultiPatch"@
    } else {
        "INVALID GEOMETRY"@
    }
}

/// Pairs geometry `i` with row `i`. Where one sequence is longer than the
/// other, what it has beyond the other's length is dropped.
pub fn join_attributes<A>(shapes: Vec<Geometry>, rows: Vec<A>) -> (records: Vec<(Geometry, A)>)
    ensures
        records_view(records) == joined(shapes_view(shapes), rows@),
{
    let ghost all_shapes = shapes_view(shapes);
    let ghost all_rows = rows@;
    let mut shapes = shapes;
    let mut rows = rows;
    let count = if shapes.len() <= rows.len() {
        shapes.len()
    } else {
        rows.len()
    };
    shapes.truncate(count);
    rows.truncate(count);
    // The pairs are taken off the ends, which moves them without a copy,
    // and then turned round.
    let mut reversed: Vec<(Geometry, A)> = Vec::new();
    while shapes.len() > 0
        invariant
            shapes@.len() == rows@.len(),
            shapes@.len() + reversed@.len() == count,
            count <= all_shapes.len(),
            count <= all_rows.len(),
            forall|i: int| 0 <= i < shapes@.len() ==> shapes@[i]@ == all_shapes[i],
            forall|i: int| 0 <= i < rows@.len() ==> rows@[i] == all_rows[i],
            forall|i: int|
                0 <= i < reversed@.len() ==> reversed@[i].0@ == all_shapes[count - 1 - i]
                    && reversed@[i].1 == all_rows[count - 1 - i],
        decreases shapes@.len(),
    {
        match (shapes.pop(), rows.pop()) {
            (Some(shape), Some(row)) => {
                reversed.push((shape, row));
            },
            _ => {},
        }
    }
    let mut records: Vec<(Geometry, A)> = Vec::new();
    while reversed.len() > 0
        invariant
            reversed@.len() + records@.len() == count,
            count <= all_shapes.len(),
            count <= all_rows.len(),
            forall|i: int|
                0 <= i < reversed@.len() ==> reversed@[i].0@ == all_shapes[count - 1 - i]
                    && reversed@[i].1 == all_rows[count - 1 - i],
            forall|i: int|
                0 <= i < records@.len() ==> records@[i].0@ == all_shapes[i] && records@[i].1
                    == all_rows[i],
        decreases reversed@.len(),
    {
        match reversed.pop() {
            Some(pair) => {
                records.push(pair);
            },
            None => {},
        }
    }
    assert(records_view(records) =~= joined(all_shapes, all_rows));
    records
}

impl MainFile<()> {
    /// Decodes the main file `shp` by itself, for a file that has no
    /// attribute table: every geometry of the file is kept, without a row.
    pub fn without_attributes(shp: Vec<u8>) -> (r: Result<MainFile<()>, ShapefileError>)
        ensures
            match file_at(shp@) {
                Ok((header, shapes)) => {
                    &&& r is Ok
                    &&& r->Ok_0.header == header
                    &&& records_view(r->Ok_0.records) == bare(shapes)
                },
                Err(e) => r is Err && r->Err_0 == e,
            },
    {
        let mut cursor = ByteCursor::new(shp);
        let mut header = Header::default();
        header.read(&mut cursor)?;
        let mut mainfile = MainFile { header, records: Vec::new() };
        mainfile.check_geometry_type()?;
        let shapes = read_records(&mut cursor)?;
        let mut rows: Vec<()> = Vec::new();
        while rows.len() < shapes.len()
            invariant
                rows@.len() <= shapes@.len(),
            decreases shapes@.len() - rows@.len(),
        {
            rows.push(());
        }
        let ghost all = shapes_view(shapes);
        mainfile.records = join_attributes(shapes, rows);
        assert(joined(all, rows@) =~= bare(all));
        Ok(mainfile)
    }
}

impl<A> MainFile<A> {
    /// Decodes the main file `shp` and pairs its geometries with `rows`,
    /// the rows of its attribute table.
    pub fn from(shp: Vec<u8>, rows: Vec<A>) -> (r: Result<MainFile<A>, ShapefileError>)
        ensures
            match file_at(shp@) {
                Ok((header, shapes)) => {
                    &&& r is Ok
                    &&& r->Ok_0.header == header
                    &&& records_view(r->Ok_0.records) == joined(shapes, rows@)
                },
                Err(e) => r is Err && r->Err_0 == e,
            },
    {
        let mut cursor = ByteCursor::new(shp);
        let mut mainfile = MainFile { header: Header::default(), records: Vec::new() };
        mainfile.read_header(&mut cursor)?;
        mainfile.check_geometry_type()?;
        mainfile.read_records(&mut cursor, rows)?;
        Ok(mainfile)
    }

    /// The name of the shape type that the header states.
    pub fn geom_type(&self) -> (name: &'static str)
        ensures
            name@ == geometry_name(self.header.shape_type),
    {
        match self.header.shape_type {
            0 => "Null",
            1 => "Point",
            3 => "Polyline",
            5 => "Polygon",
            8 => "Multipoint",
            11 => "PointZ",
            13 => "PolyLineZ",
            15 => "PolygonZ",
            18 => "MultiPointZ",
            21 => "PointM",
            23 => "PolyLineM",
            25 => "PolygonM",
            28 => "MultiPointM",
            31 => "MultiPatch",
            _ => "INVALID GEOMETRY",
        }
    }

    /// Reads the header of the file from `cursor`.
    fn read_header(&mut self, cursor: &mut ByteCursor) -> (r: Result<(), ShapefileError>)
        ensures
            final(cursor).bytes() == old(cursor).bytes(),
            final(self).records == old(self).records,
            match r {
                Ok(()) => {
                    &&& old(cursor).left() >= HEADER_LEN
                    &&& final(self).header == header_at(old(cursor).bytes(), old(cursor).offset())
                    &&& final(cursor).offset() == old(cursor).offset() + HEADER_LEN
                },
                Err(e) => {
                    &&& old(cursor).left() < HEADER_LEN
                    &&& e == eof()
                    &&& final(self).header == old(self).header
                    &&& final(cursor).offset() == old(cursor).offset()
                },
            },
    {
        self.header.read(cursor)
    }

    /// Accepts the file if there is a decoder for the shape type that its
    /// header states, and refuses it with that code otherwise.
    pub fn check_geometry_type(&self) -> (r: Result<(), ShapefileError>)
        ensures
            match r {
                Ok(()) => is_supported(self.header.shape_type),
                Err(e) => !is_supported(self.header.shape_type) && e
                    == ShapefileError::UnimplementedShapeType(self.header.shape_type),
            },
    {
        if supports(self.header.shape_type) {
            Ok(())
        } else {
            Err(ShapefileError::UnimplementedShapeType(self.header.shape_type))
        }
    }

    /// Reads the records from `cursor` to the end of the source and pairs
    /// their geometries with `rows`.
    fn read_records(&mut self, cursor: &mut ByteCursor, rows: Vec<A>) -> (r: Result<
        (),
        ShapefileError,
    >)
        ensures
            final(cursor).bytes() == old(cursor).bytes(),
            final(self).header == old(self).header,
            match records_at(old(cursor).bytes(), old(cursor).offset()) {
                Ok((shapes, stop)) => {
                    &&& r is Ok
                    &&& records_view(final(self).records) == joined(shapes, rows@)
                    &&& final(cursor).offset() == stop
                },
                Err(e) => {
                    &&& r is Err
                    &&& r->Err_0 == e
                    &&& final(self).records == old(self).records
                    &&& final(cursor).offset() == old(cursor).offset()
                },
            },
    {
        let shapes = read_records(cursor)?;
        self.records = join_attributes(shapes, rows);
        Ok(())
    }
}

} // verus!
