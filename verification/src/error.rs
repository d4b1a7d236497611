//! The ways in which decoding fails, and how they read.

use vstd::prelude::*;
use vstd::string::StringExecFns;

verus! {

/// Why the byte source could not deliver what a decoder asked for.
#[derive(Debug, Clone, Copy, PartialEq, Eq, Structural)]
pub enum IoErrorKind {
    /// The source ended before the requested bytes.
    UnexpectedEof,
    /// The bytes are there but contradict each other: a negative count, or
    /// a part table that does not cut the point array into ranges.
    InvalidData,
}

/// An error that aborts the decoding of a file.
#[derive(Debug, Clone, Copy, PartialEq, Eq, Structural)]
pub enum ShapefileError {
    /// The source is truncated or malformed.
    IoError(IoErrorKind),
    /// A shape-type code that the format does not define. The decoders
    /// report every code that they cannot decode as
    /// [`ShapefileError::UnimplementedShapeType`]; this one is for callers
    /// that tell the two apart.
    InvalidShapeType(i32),
    /// A shape-type code for which there is no decoder, with the code.
    UnimplementedShapeType(i32),
}

/// The error of a read that ran past the end of the source.
pub open spec fn eof() -> ShapefileError {
    ShapefileError::IoError(IoErrorKind::UnexpectedEof)
}

/// The error of a payload whose fields contradict each other.
pub open spec fn invalid() -> ShapefileError {
    ShapefileError::IoError(IoErrorKind::InvalidData)
}

/// The character of the decimal digit `d`.
pub open spec fn digit(d: int) -> char {
    if d == 0 {
        '0'
    } else if d == 1 {
        '1'
    } else if d == 2 {
        '2'
    } else if d == 3 {
        '3'
    } else if d == 4 {
        '4'
    } else if d == 5 {
        '5'
    } else if d == 6 {
        '6'
    } else if d == 7 {
        '7'
    } else if d == 8 {
        '8'
    } else {
        '9'
    }
}

/// The digits of `n` in base ten, without leading zeros.
pub open spec fn decimal(n: nat) -> Seq<char>
    decreases n,
{
    if n < 10 {
        seq![digit(n as int)]
    } else {
        decimal(n / 10).push(digit((n % 10) as int))
    }
}

/// `v` in base ten, with a minus sign in front if it is negative.
pub open spec fn signed_decimal(v: int) -> Seq<char> {
    if v < 0 {
        seq!['-'] + decimal((-v) as nat)
    } else {
        decimal(v as nat)
    }
}

/// The text that describes `kind`.
pub open spec fn kind_text(kind: IoErrorKind) -> Seq<char> {
    match kind {
        IoErrorKind::UnexpectedEof => "unexpected end of file"@,
        IoErrorKind::InvalidData => "invalid data"@,
    }
}

/// The message of `error`: what went wrong, a colon, and the cause or the
/// offending code.
pub open spec fn message_text(error: ShapefileError) -> Seq<char> {
    match error {
        ShapefileError::IoError(kind) => "IO error: "@ + kind_text(kind),
        ShapefileError::InvalidShapeType(code) => "Invalid shape type: "@ + signed_decimal(
            code as int,
        ),
        ShapefileError::UnimplementedShapeType(code) => "Unimplemented shape type: "@
            + signed_decimal(code as int),
    }
}

/// The decimal digit `d` as a string.
fn digit_str(d: u32) -> (r: &'static str)
    requires
        d < 10,
    ensures
        r@ == seq![digit(d as int)],
{
    proof {
        reveal_strlit("0");
        reveal_strlit("1");
        reveal_strlit("2");
        reveal_strlit("3");
        reveal_strlit("4");
        reveal_strlit("5");
        reveal_strlit("6");
        reveal_strlit("7");
        reveal_strlit("8");
        reveal_strlit("9");
    }
    let r = match d {
        0 => "0",
        1 => "1",
        2 => "2",
        3 => "3",
        4 => "4",
        5 => "5",
        6 => "6",
        7 => "7",
        8 => "8",
        _ => "9",
    };
    assert(r@ =~= seq![digit(d as int)]);
    r
}

/// Appends the digits of `n` to `out`.
fn push_decimal(out: &mut String, n: u32)
    ensures
        final(out)@ == old(out)@ + decimal(n as nat),
    decreases n,
{
    if n >= 10 {
        push_decimal(out, n / 10);
    }
    out.append(digit_str(n % 10));
    assert(out@ =~= old(out)@ + decimal(n as nat));
}

/// Appends `v` in base ten to `out`.
fn push_signed(out: &mut String, v: i32)
    ensures
        final(out)@ == old(out)@ + signed_decimal(v as int),
{
    if v < 0 {
        proof {
            reveal_strlit("-");
        }
        out.append("-");
        let magnitude: u32 = (-(v as i64)) as u32;
        push_decimal(out, magnitude);
        assert(out@ =~= old(out)@ + signed_decimal(v as int));
    } else {
        push_decimal(out, v as u32);
    }
}

impl IoErrorKind {
    /// The text that describes this kind of failure.
    pub fn description(&self) -> (r: &'static str)
        ensures
            r@ == kind_text(*self),
    {
        match self {
            IoErrorKind::UnexpectedEof => "unexpected end of file",
            IoErrorKind::InvalidData => "invalid data",
        }
    }
}

impl ShapefileError {
    /// The message of this error, as it is shown to a user.
    pub fn message(&self) -> (r: String)
        ensures
            r@ == message_text(*self),
    {
        match self {
            ShapefileError::IoError(kind) => {
                let mut out = String::from_str("IO error: ");
                out.append(kind.description());
                out
            },
            ShapefileError::InvalidShapeType(code) => {
                let mut out = String::from_str("Invalid shape type: ");
                push_signed(&mut out, *code);
                out
            },
            ShapefileError::UnimplementedShapeType(code) => {
                let mut out = String::from_str("Unimplemented shape type: ");
                push_signed(&mut out, *code);
                out
            },
        }
    }
}

} // verus!
