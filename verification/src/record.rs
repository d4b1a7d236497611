//! Records, and the stream of records that follows the header.
//!
//! A record is eight bytes of record header, the record number and the
//! content length, both big-endian, and then a shape. The stream is read
//! record by record until the source ends at a record boundary.

use crate::bytes::{i32_be, i32_le};
use crate::cursor::ByteCursor;
use crate::error::{eof, IoErrorKind, ShapefileError};
use crate::geometry::{shapes_view, Geometry, GeometryView};
use crate::shape::{
    lemma_cut_shape_is_truncated, lemma_shape_within_source, read_shape, shape_at, shape_view,
};
use vstd::prelude::*;

verus! {

/// The number of bytes of a record header.
pub const RECORD_HEADER_LEN: usize = 8;

/// One record of the main file. The attributes of the record are not part
/// of it.
#[derive(Debug, Clone, Default, PartialEq, Eq)]
pub struct Record {
    /// The record number.
    pub number: i32,
    /// The length of the shape in 16-bit words, as the file states it.
    pub content_length: i32,
    /// The geometry, or `None` for the null shape.
    pub geometry: Option<Geometry>,
}

/// What a [`Record`] holds, the geometry as its view.
pub struct RecordView {
    pub number: i32,
    pub content_length: i32,
    pub geometry: Option<GeometryView>,
}

impl View for Record {
    type V = RecordView;

    open spec fn view(&self) -> RecordView {
        RecordView {
            number: self.number,
            content_length: self.content_length,
            geometry: shape_view(self.geometry),
        }
    }
}

/// The record at offset `at` of `s`, with the offset of the first byte
/// behind it.
pub open spec fn record_at(s: Seq<u8>, at: int) -> Result<(RecordView, int), ShapefileError> {
    if s.len() - at < 8 {
        Err(eof())
    } else {
        match shape_at(s, at + 8) {
            Ok((shape, end)) => Ok(
                (
                    RecordView {
                        number: i32_be(s, at),
                        content_length: i32_be(s, at + 4),
                        geometry: shape,
                    },
                    end,
                ),
            ),
            Err(e) => Err(e),
        }
    }
}

/// Reads one record: its header and its shape. When the record cannot be
/// read the cursor stays where it was.
pub fn read_record(cursor: &mut ByteCursor) -> (r: Result<Record, ShapefileError>)
    ensures
        final(cursor).bytes() == old(cursor).bytes(),
        match record_at(old(cursor).bytes(), old(cursor).offset()) {
            Ok((record, end)) => {
                &&& r is Ok
                &&& r->Ok_0@ == record
                &&& final(cursor).offset() == end
            },
            Err(e) => {
                &&& r is Err
                &&& r->Err_0 == e
                &&& final(cursor).offset() == old(cursor).offset()
            },
        },
{
    let start = cursor.position();
    if cursor.remaining() < RECORD_HEADER_LEN {
        return Err(ShapefileError::IoError(IoErrorKind::UnexpectedEof));
    }
    let number = cursor.read_i32_be()?;
    let content_length = cursor.read_i32_be()?;
    match read_shape(cursor) {
        Ok(geometry) => Ok(Record { number, content_length, geometry }),
        Err(e) => {
            let _ = cursor.seek(start);
            Err(e)
        },
    }
}

/// What the record stream does at offset `at` of `s`.
pub enum Step {
    /// The source ends here: there is no record header left, or a record
    /// header and nothing behind it.
    Done,
    /// The record here decodes to this geometry, if it has one, and ends
    /// at this offset.
    Next(Option<GeometryView>, int),
    /// The record here cannot be decoded.
    Failed(ShapefileError),
}

/// The step of the record stream at offset `at` of `s`.
pub open spec fn step_at(s: Seq<u8>, at: int) -> Step {
    if s.len() - at <= 8 {
        Step::Done
    } else {
        match record_at(s, at) {
            Ok((record, end)) => Step::Next(record.geometry, end),
            Err(e) => Step::Failed(e),
        }
    }
}

/// `shape` in front of `rest`, if there is a shape.
pub open spec fn with_shape(shape: Option<GeometryView>, rest: Seq<GeometryView>) -> Seq<
    GeometryView,
> {
    match shape {
        Some(geometry) => seq![geometry] + rest,
        None => rest,
    }
}

/// The geometries of the records from offset `at` of `s` on, in the order
/// of the file, with the offset at which the stream ends.
pub open spec fn records_at(s: Seq<u8>, at: int) -> Result<(Seq<GeometryView>, int), ShapefileError>
    decreases s.len() - at,
{
    match step_at(s, at) {
        Step::Done => Ok((Seq::empty(), at)),
        Step::Failed(e) => Err(e),
        Step::Next(shape, end) => match records_at(s, end) {
            Ok((rest, stop)) => Ok((with_shape(shape, rest), stop)),
            Err(e) => Err(e),
        },
    }
}

/// `front` in front of the geometries of `rest`.
pub open spec fn after(
    front: Seq<GeometryView>,
    rest: Result<(Seq<GeometryView>, int), ShapefileError>,
) -> Result<(Seq<GeometryView>, int), ShapefileError> {
    match rest {
        Ok((shapes, stop)) => Ok((front + shapes, stop)),
        Err(e) => Err(e),
    }
}

/// Reads records until the source ends and returns their geometries in
/// the order of the file; a record with the null shape adds none.
///
/// The stream ends without an error where fewer bytes than a record header
/// are left, or a record header and nothing behind it; the cursor then
/// stands behind the last record that was read. A record that breaks off
/// anywhere behind its header, or that cannot be decoded, fails the whole
/// stream: no geometry is returned and the cursor stays where it was.
pub fn read_records(cursor: &mut ByteCursor) -> (r: Result<Vec<Geometry>, ShapefileError>)
    ensures
        final(cursor).bytes() == old(cursor).bytes(),
        match records_at(old(cursor).bytes(), old(cursor).offset()) {
            Ok((shapes, stop)) => {
                &&& r is Ok
                &&& shapes_view(r->Ok_0) == shapes
                &&& final(cursor).offset() == stop
            },
            Err(e) => {
                &&& r is Err
                &&& r->Err_0 == e
                &&& final(cursor).offset() == old(cursor).offset()
            },
        },
{
    let ghost s = cursor.bytes();
    let ghost at = cursor.offset();
    let start = cursor.position();
    let mut shapes: Vec<Geometry> = Vec::new();
    while cursor.remaining() > RECORD_HEADER_LEN
        invariant
            cursor.bytes() == s,
            s == old(cursor).bytes(),
            at == old(cursor).offset(),
            start == at,
            at <= s.len(),
            records_at(s, at) == after(shapes_view(shapes), records_at(s, cursor.offset())),
        decreases s.len() - cursor.offset(),
    {
        let ghost front = shapes_view(shapes);
        match read_record(cursor) {
            Ok(record) => {
                if let Some(geometry) = record.geometry {
                    shapes.push(geometry);
                    proof {
                        assert(shapes_view(shapes) =~= front + seq![geometry@]);
                        if let Ok((found, stop)) = records_at(s, cursor.offset()) {
                            assert((front + seq![geometry@]) + found =~= front + (seq![geometry@]
                                + found));
                        }
                    }
                }
            },
            Err(e) => {
                let _ = cursor.seek(start);
                return Err(e);
            },
        }
    }
    Ok(shapes)
}

/// The stream ends in peace where the source ends at a record boundary:
/// with fewer bytes left than a record header has, and with a record header
/// that nothing follows. No geometry is added.
pub proof fn lemma_stream_ends_at_bare_header(s: Seq<u8>, at: int)
    requires
        s.len() - at <= 8,
    ensures
        step_at(s, at) == Step::Done,
        records_at(s, at) == Ok::<(Seq<GeometryView>, int), ShapefileError>((Seq::empty(), at)),
{
}

/// A record that breaks off behind its header is no end of the stream:
/// with at least one byte behind the record header, a shape that runs past
/// the end of the source fails the stream, and so does any other shape
/// that cannot be decoded.
pub proof fn lemma_broken_record_is_fatal(s: Seq<u8>, at: int)
    requires
        s.len() - at > 8,
        shape_at(s, at + 8) is Err,
    ensures
        step_at(s, at) == Step::Failed(shape_at(s, at + 8)->Err_0),
        records_at(s, at) == Err::<(Seq<GeometryView>, int), ShapefileError>(
            shape_at(s, at + 8)->Err_0,
        ),
{
}

/// A failure further down the stream fails the stream from every record
/// before it: nothing that was decoded on the way is returned.
pub proof fn lemma_failure_reaches_the_start(s: Seq<u8>, at: int)
    requires
        step_at(s, at) is Next,
        records_at(s, step_at(s, at)->Next_1) is Err,
    ensures
        records_at(s, at) == Err::<(Seq<GeometryView>, int), ShapefileError>(
            records_at(s, step_at(s, at)->Next_1)->Err_0,
        ),
{
}

/// The geometries come out in the order of the records: the geometry of
/// the first record, if it has one, stands in front of the geometries of
/// the records behind it.
pub proof fn lemma_records_in_file_order(s: Seq<u8>, at: int)
    requires
        step_at(s, at) is Next,
        records_at(s, step_at(s, at)->Next_1) is Ok,
    ensures
        records_at(s, at) == Ok::<(Seq<GeometryView>, int), ShapefileError>(
            (
                with_shape(
                    step_at(s, at)->Next_0,
                    records_at(s, step_at(s, at)->Next_1)->Ok_0.0,
                ),
                records_at(s, step_at(s, at)->Next_1)->Ok_0.1,
            ),
        ),
{
}

/// A record with the null shape adds no geometry and does not end the
/// stream: the stream goes on behind its twelve bytes.
pub proof fn lemma_null_shape_continues(s: Seq<u8>, at: int)
    requires
        s.len() - at >= 12,
        i32_le(s, at + 8) == 0,
    ensures
        step_at(s, at) == Step::Next(None, at + 12),
        records_at(s, at) == records_at(s, at + 12),
{
}

/// Where the source breaks off decides how the stream ends. Cut behind
/// the header of a record that decodes, and the stream ends in peace in
/// front of that record. Cut anywhere further on, but before the end of
/// the record, and the stream fails as truncated.
pub proof fn lemma_cut_record(s: Seq<u8>, at: int, cut: int)
    requires
        0 <= at,
        record_at(s, at) is Ok,
        at + 8 <= cut < record_at(s, at)->Ok_0.1,
    ensures
        cut == at + 8 ==> records_at(s.take(cut), at) == Ok::<
            (Seq<GeometryView>, int),
            ShapefileError,
        >((Seq::empty(), at)),
        cut > at + 8 ==> records_at(s.take(cut), at) == Err::<
            (Seq<GeometryView>, int),
            ShapefileError,
        >(eof()),
{
    lemma_shape_within_source(s, at + 8);
    if cut > at + 8 {
        lemma_cut_shape_is_truncated(s, at + 8, cut);
    }
}

} // verus!
