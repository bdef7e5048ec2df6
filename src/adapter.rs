use vstd::prelude::*;

use crate::input::Input;
use crate::point::{Point, RawPoint};

verus! {

/// The text encoding that the engine is told a parse reads.
#[derive(Clone, Copy, Debug, PartialEq, Eq, Structural)]
pub enum InputEncoding {
    Utf8,
    Utf16,
}

/// How many bytes one code unit of the encoding takes.
pub open spec fn unit_width(encoding: InputEncoding) -> nat {
    match encoding {
        InputEncoding::Utf8 => 1,
        InputEncoding::Utf16 => 2,
    }
}

/// The most code units that one read can report, so that their size in bytes
/// fits the engine's 32-bit count.
pub open spec fn max_units(encoding: InputEncoding) -> nat {
    u32::MAX as nat / unit_width(encoding)
}

/// The offset, in code units, that the engine's byte offset asks for.
pub open spec fn unit_offset(encoding: InputEncoding, byte_offset: u32) -> usize {
    (byte_offset as nat / unit_width(encoding)) as usize
}

/// The position, in code units, that the engine's position asks for: the
/// column is scaled like the offset, the row is kept.
pub open spec fn unit_point(encoding: InputEncoding, position: RawPoint) -> Point {
    Point {
        row: position.row as usize,
        column: (position.column as nat / unit_width(encoding)) as usize,
    }
}

/// What a read hands back to the engine: the fragment of `units` that it
/// passes on, and its size in bytes. A fragment too long for the engine's
/// count is cut to the longest that fits; the engine asks for the rest at the
/// offset that follows.
pub open spec fn reported<C>(encoding: InputEncoding, units: Seq<C>, out: Seq<C>, bytes: u32) -> bool {
    let n = if units.len() <= max_units(encoding) { units.len() } else { max_units(encoding) };
    &&& out == units.take(n as int)
    &&& bytes as nat == out.len() * unit_width(encoding)
}

/// Translates the engine's request into the units of the encoding.
pub fn read_request(encoding: InputEncoding, byte_offset: u32, position: RawPoint) -> (r: (
    usize,
    Point,
))
    ensures
        r.0 == unit_offset(encoding, byte_offset),
        r.1 == unit_point(encoding, position),
{
    match encoding {
        InputEncoding::Utf8 => {
            proof {
                assert(byte_offset as nat / 1 == byte_offset as nat) by (nonlinear_arith);
                assert(position.column as nat / 1 == position.column as nat) by (nonlinear_arith);
            }
            (byte_offset as usize, Point::from_raw(position))
        },
        InputEncoding::Utf16 => (
            (byte_offset / 2) as usize,
            Point { row: position.row as usize, column: (position.column / 2) as usize },
        ),
    }
}

/// Keeps at most `max` code units of a fragment.
fn clamp_fragment<C>(units: &[C], max: usize) -> (r: &[C])
    ensures
        r@ == units@.take(if units@.len() <= max { units@.len() as int } else { max as int }),
{
    if units.len() <= max {
        proof {
            assert(units@.take(units@.len() as int) =~= units@);
        }
        units
    } else {
        vstd::slice::slice_subrange(units, 0, max)
    }
}

/// Serves one read of the engine from 8-bit text: the offset and position are
/// passed on as they are, and the size reported is the number of bytes.
pub fn read_utf8<T: Input<u8>>(input: &mut T, byte_offset: u32, position: RawPoint) -> (r: (
    &[u8],
    u32,
))
    requires
        old(input).ready(
            unit_offset(InputEncoding::Utf8, byte_offset),
            unit_point(InputEncoding::Utf8, position),
        ),
    ensures
        exists|units: Seq<u8>|
            #[trigger] old(input).reads(
                &*final(input),
                unit_offset(InputEncoding::Utf8, byte_offset),
                unit_point(InputEncoding::Utf8, position),
                units,
            ) && reported(InputEncoding::Utf8, units, r.0@, r.1),
{
    let (byte, point) = read_request(InputEncoding::Utf8, byte_offset, position);
    let units = input.read(byte, point);
    let out = clamp_fragment(units, 0xffff_ffffusize);
    (out, out.len() as u32)
}

/// Serves one read of the engine from 16-bit text. The engine counts offsets
/// and columns in bytes: they are halved before the text is asked, and the
/// size reported is twice the number of code units handed back.
pub fn read_utf16<T: Input<u16>>(input: &mut T, byte_offset: u32, position: RawPoint) -> (r: (
    &[u16],
    u32,
))
    requires
        old(input).ready(
            unit_offset(InputEncoding::Utf16, byte_offset),
            unit_point(InputEncoding::Utf16, position),
        ),
    ensures
        r.1 as nat == 2 * r.0@.len(),
        exists|units: Seq<u16>|
            #[trigger] old(input).reads(
                &*final(input),
                unit_offset(InputEncoding::Utf16, byte_offset),
                unit_point(InputEncoding::Utf16, position),
                units,
            ) && reported(InputEncoding::Utf16, units, r.0@, r.1),
{
    let (byte, point) = read_request(InputEncoding::Utf16, byte_offset, position);
    let units = input.read(byte, point);
    let out = clamp_fragment(units, 0x7fff_ffffusize);
    (out, out.len() as u32 * 2)
}

} // verus!
