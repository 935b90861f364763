//! The primitive reader: fixed-width integers and doubles in either byte
//! order and single ASCII characters, taken from a byte source at a byte
//! offset.

use crate::double::Double;
use crate::error::{DAFError, FormatFault};
use vstd::prelude::*;

verus! {

/// The byte order of a file's multi-byte values.
#[derive(Clone, Copy, Debug, PartialEq, Eq, Structural)]
pub enum Endian {
    Big,
    Little,
}

/// The offset of the byte-order marker in a file record.
pub const ENDIAN_OFFSET: u64 = 88;

impl Endian {
    /// The byte order that a marker stands for, if any.
    pub open spec fn of_marker(marker: char) -> Option<Endian> {
        if marker == 'B' || marker == 'b' {
            Some(Endian::Big)
        } else if marker == 'L' || marker == 'l' {
            Some(Endian::Little)
        } else {
            None
        }
    }

    /// The byte order of a file, or why it cannot be told: the marker
    /// cannot be read, is not ASCII, or is none of `B`, `b`, `L`, `l`.
    pub open spec fn of_file(bytes: Seq<u8>) -> Result<Endian, DAFError> {
        match char_at(bytes, ENDIAN_OFFSET) {
            Err(e) => Err(e),
            Ok(marker) => match Self::of_marker(marker) {
                Some(endian) => Ok(endian),
                None => Err(
                    DAFError::Format(
                        FormatFault::Endianness { found: bytes[ENDIAN_OFFSET as int] },
                    ),
                ),
            },
        }
    }

    /// Tells the byte order of a file from the marker in its file record.
    pub fn from_daf_file(src: &[u8]) -> (r: Result<Endian, DAFError>)
        ensures
            r == Self::of_file(src@),
    {
        match get_char(src, ENDIAN_OFFSET) {
            Err(e) => Err(e),
            Ok(marker) => {
                if marker == 'B' || marker == 'b' {
                    Ok(Endian::Big)
                } else if marker == 'L' || marker == 'l' {
                    Ok(Endian::Little)
                } else {
                    Err(
                        DAFError::Format(
                            FormatFault::Endianness { found: src[ENDIAN_OFFSET as usize] },
                        ),
                    )
                }
            },
        }
    }
}

/// A 32-bit signed integer taken as a 64-bit address: a negative one
/// wraps round to the top of the range.
pub open spec fn widened(v: i32) -> u64 {
    if v >= 0 {
        v as u64
    } else {
        (v + 0x1_0000_0000_0000_0000) as u64
    }
}

/// Takes a 32-bit signed integer as a 64-bit address.
pub fn widen(v: i32) -> (address: u64)
    ensures
        address == widened(v),
{
    if v >= 0 {
        v as u64
    } else {
        let below: u64 = (-(v + 1)) as u64;
        u64::MAX - below
    }
}

/// The number that four bytes spell, least significant byte first.
pub open spec fn le_word(s: Seq<u8>) -> int
    recommends
        s.len() == 4,
{
    s[0] + 0x100 * s[1] + 0x1_0000 * s[2] + 0x100_0000 * s[3]
}

/// The number that four bytes spell, most significant byte first.
pub open spec fn be_word(s: Seq<u8>) -> int
    recommends
        s.len() == 4,
{
    0x100_0000 * s[0] + 0x1_0000 * s[1] + 0x100 * s[2] + s[3]
}

/// The number that eight bytes spell, least significant byte first.
pub open spec fn le_quad(s: Seq<u8>) -> int
    recommends
        s.len() == 8,
{
    le_word(s.subrange(0, 4)) + 0x1_0000_0000 * le_word(s.subrange(4, 8))
}

/// The number that eight bytes spell, most significant byte first.
pub open spec fn be_quad(s: Seq<u8>) -> int
    recommends
        s.len() == 8,
{
    0x1_0000_0000 * be_word(s.subrange(0, 4)) + be_word(s.subrange(4, 8))
}

/// The signed reading of a 32-bit pattern (two's complement).
pub open spec fn signed_word(v: int) -> int
    recommends
        0 <= v < 0x1_0000_0000,
{
    if v >= 0x8000_0000 {
        v - 0x1_0000_0000
    } else {
        v
    }
}

/// The 32-bit signed integer that four bytes encode in the given order.
pub open spec fn decode_i32(s: Seq<u8>, endian: Endian) -> i32
    recommends
        s.len() == 4,
{
    match endian {
        Endian::Little => signed_word(le_word(s)) as i32,
        Endian::Big => signed_word(be_word(s)) as i32,
    }
}

/// The double that eight bytes encode in the given order.
pub open spec fn decode_double(s: Seq<u8>, endian: Endian) -> Double
    recommends
        s.len() == 8,
{
    match endian {
        Endian::Little => Double { bits: le_quad(s) as u64 },
        Endian::Big => Double { bits: be_quad(s) as u64 },
    }
}

/// An integer written in one byte order reads the same when its four bytes
/// are reversed and taken in the other order.
pub proof fn lemma_i32_orders_mirror(s: Seq<u8>)
    requires
        s.len() == 4,
    ensures
        decode_i32(s, Endian::Little) == decode_i32(s.reverse(), Endian::Big),
        decode_i32(s, Endian::Big) == decode_i32(s.reverse(), Endian::Little),
{
}

/// A double written in one byte order reads the same when its eight bytes
/// are reversed and taken in the other order.
pub proof fn lemma_double_orders_mirror(s: Seq<u8>)
    requires
        s.len() == 8,
    ensures
        decode_double(s, Endian::Little) == decode_double(s.reverse(), Endian::Big),
        decode_double(s, Endian::Big) == decode_double(s.reverse(), Endian::Little),
{
    let r = s.reverse();
    assert(r.subrange(0, 4) == s.subrange(4, 8).reverse());
    assert(r.subrange(4, 8) == s.subrange(0, 4).reverse());
}

/// Whether `width` bytes can be read at `offset` from a source of `len`
/// bytes.
pub open spec fn readable(len: nat, offset: int, width: int) -> bool {
    0 <= offset && offset + width <= len
}

/// The failure of a read of `wanted` bytes at `offset`.
pub open spec fn short_read(bytes: Seq<u8>, offset: u64, wanted: u64) -> DAFError {
    DAFError::IO { offset, wanted, len: bytes.len() as u64 }
}

/// What reading a 32-bit integer at `offset` gives.
pub open spec fn i32_at(bytes: Seq<u8>, offset: u64, endian: Endian) -> Result<i32, DAFError> {
    if readable(bytes.len(), offset as int, 4) {
        Ok(decode_i32(bytes.subrange(offset as int, offset + 4), endian))
    } else {
        Err(short_read(bytes, offset, 4))
    }
}

/// What reading a double at `offset` gives.
pub open spec fn double_at(bytes: Seq<u8>, offset: u64, endian: Endian) -> Result<
    Double,
    DAFError,
> {
    if readable(bytes.len(), offset as int, 8) {
        Ok(decode_double(bytes.subrange(offset as int, offset + 8), endian))
    } else {
        Err(short_read(bytes, offset, 8))
    }
}

/// What reading one ASCII character at `offset` gives.
pub open spec fn char_at(bytes: Seq<u8>, offset: u64) -> Result<char, DAFError> {
    if !readable(bytes.len(), offset as int, 1) {
        Err(short_read(bytes, offset, 1))
    } else if bytes[offset as int] >= 0x80 {
        Err(DAFError::Encoding { offset, found: bytes[offset as int] })
    } else {
        Ok(bytes[offset as int] as char)
    }
}

/// Whether `width` bytes can be read at `offset`.
pub fn in_bounds(src: &[u8], offset: u64, width: u64) -> (ok: bool)
    ensures
        ok == readable(src@.len(), offset as int, width as int),
{
    let len: u64 = src.len() as u64;
    width <= len && offset <= len - width
}

/// The error of a read of `wanted` bytes at `offset` that does not fit.
pub fn short_read_error(src: &[u8], offset: u64, wanted: u64) -> (e: DAFError)
    ensures
        e == short_read(src@, offset, wanted),
{
    DAFError::IO { offset, wanted, len: src.len() as u64 }
}

/// Composes the 32-bit pattern at `offset`, which must be readable.
fn word_bits(src: &[u8], offset: u64, endian: &Endian) -> (v: u32)
    requires
        readable(src@.len(), offset as int, 4),
    ensures
        v == match *endian {
            Endian::Little => le_word(src@.subrange(offset as int, offset + 4)),
            Endian::Big => be_word(src@.subrange(offset as int, offset + 4)),
        },
{
    let at: usize = offset as usize;
    let b0: u32 = src[at] as u32;
    let b1: u32 = src[at + 1] as u32;
    let b2: u32 = src[at + 2] as u32;
    let b3: u32 = src[at + 3] as u32;
    match endian {
        Endian::Little => b0 + 0x100 * b1 + 0x1_0000 * b2 + 0x100_0000 * b3,
        Endian::Big => 0x100_0000 * b0 + 0x1_0000 * b1 + 0x100 * b2 + b3,
    }
}

/// Decodes the 32-bit integer at `offset`, which must be readable.
pub fn i32_in(src: &[u8], offset: u64, endian: &Endian) -> (v: i32)
    requires
        readable(src@.len(), offset as int, 4),
    ensures
        v == decode_i32(src@.subrange(offset as int, offset + 4), *endian),
{
    let bits: u32 = word_bits(src, offset, endian);
    if bits >= 0x8000_0000 {
        let low: i32 = (bits - 0x8000_0000) as i32;
        low - 0x7fff_ffff - 1
    } else {
        bits as i32
    }
}

/// Decodes the double at `offset`, which must be readable.
pub fn double_in(src: &[u8], offset: u64, endian: &Endian) -> (d: Double)
    requires
        readable(src@.len(), offset as int, 8),
    ensures
        d == decode_double(src@.subrange(offset as int, offset + 8), *endian),
{
    assert(src@.len() == src.len());
    let first: u64 = word_bits(src, offset, endian) as u64;
    let second: u64 = word_bits(src, offset + 4, endian) as u64;
    proof {
        let s = src@.subrange(offset as int, offset + 8);
        assert(s.subrange(0, 4) == src@.subrange(offset as int, offset + 4));
        assert(s.subrange(4, 8) == src@.subrange(offset + 4, offset + 8));
    }
    match endian {
        Endian::Little => Double { bits: first + 0x1_0000_0000 * second },
        Endian::Big => Double { bits: 0x1_0000_0000 * first + second },
    }
}

/// Reads the double stored at `offset`.
pub fn get_f64(src: &[u8], offset: u64, endian: &Endian) -> (r: Result<Double, DAFError>)
    ensures
        r == double_at(src@, offset, *endian),
{
    if in_bounds(src, offset, 8) {
        Ok(double_in(src, offset, endian))
    } else {
        Err(short_read_error(src, offset, 8))
    }
}

/// How many doubles the address range from `start` up to `end` names.
/// Addresses advance by four bytes from one double to the next, though
/// each double occupies eight: the range names one double for each
/// address `start`, `start + 4`, ... that lies below `end`.
pub open spec fn range_count(start: u64, end: u64) -> nat {
    if end <= start {
        0
    } else {
        ((end - start + 3) / 4) as nat
    }
}

/// How many of the addresses `start`, `start + 4`, ... hold eight readable
/// bytes in a source of `len` bytes.
pub open spec fn readable_count(len: nat, start: u64) -> nat {
    if start + 8 > len {
        0
    } else {
        ((len - 8 - start) / 4 + 1) as nat
    }
}

/// What reading the doubles of the address range from `start` up to `end`
/// gives: an error for a range that ends before it starts, else the
/// doubles in order, or the failure of the first read that does not fit.
pub open spec fn doubles_at(bytes: Seq<u8>, start: u64, end: u64, endian: Endian) -> Result<
    Seq<Double>,
    DAFError,
> {
    let fit = readable_count(bytes.len(), start);
    if end < start {
        Err(DAFError::Format(FormatFault::DataRange { start, end }))
    } else if range_count(start, end) <= fit {
        Ok(
            Seq::new(
                range_count(start, end),
                |k: int| decode_double(bytes.subrange(start + 4 * k, start + 4 * k + 8), endian),
            ),
        )
    } else {
        Err(short_read(bytes, (start + 4 * fit) as u64, 8))
    }
}

/// Reads the doubles of the address range from `start` up to `end`.
pub fn get_f64vec(src: &[u8], start: u64, end: u64, endian: &Endian) -> (r: Result<
    Vec<Double>,
    DAFError,
>)
    ensures
        match r {
            Ok(v) => doubles_at(src@, start, end, *endian) == Ok::<Seq<Double>, DAFError>(v@),
            Err(e) => doubles_at(src@, start, end, *endian) == Err::<Seq<Double>, DAFError>(e),
        },
{
    if end < start {
        return Err(DAFError::Format(FormatFault::DataRange { start, end }));
    }
    let mut out: Vec<Double> = Vec::new();
    let mut offset: u64 = start;
    assert(src@.len() == src.len());
    while offset < end
        invariant
            start <= offset,
            start <= end,
            offset < end + 4,
            src@.len() <= u64::MAX,
            (offset - start) % 4 == 0,
            out@.len() == (offset - start) / 4,
            out@.len() <= readable_count(src@.len(), start),
            forall|k: int|
                0 <= k < out@.len() ==> out@[k] == decode_double(
                    src@.subrange(start + 4 * k, start + 4 * k + 8),
                    *endian,
                ),
        decreases end + 4 - offset,
    {
        if !in_bounds(src, offset, 8) {
            return Err(short_read_error(src, offset, 8));
        }
        out.push(double_in(src, offset, endian));
        offset = offset + 4;
    }
    assert(out@ == Seq::new(
        range_count(start, end),
        |k: int| decode_double(src@.subrange(start + 4 * k, start + 4 * k + 8), *endian),
    ));
    Ok(out)
}

/// Reads the single ASCII character stored at `offset`.
pub fn get_char(src: &[u8], offset: u64) -> (r: Result<char, DAFError>)
    ensures
        r == char_at(src@, offset),
{
    if !in_bounds(src, offset, 1) {
        return Err(short_read_error(src, offset, 1));
    }
    let b: u8 = src[offset as usize];
    if b >= 0x80 {
        Err(DAFError::Encoding { offset, found: b })
    } else {
        Ok(b as char)
    }
}

/// Reads the 32-bit signed integer stored at `offset`.
pub fn get_i32(src: &[u8], offset: u64, endian: &Endian) -> (r: Result<i32, DAFError>)
    ensures
        r == i32_at(src@, offset, *endian),
{
    if in_bounds(src, offset, 4) {
        Ok(i32_in(src, offset, endian))
    } else {
        Err(short_read_error(src, offset, 4))
    }
}

} // verus!
