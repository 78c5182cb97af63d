use crate::error::DecodeError;
use byteorder::{BigEndian, ByteOrder};
use vstd::prelude::*;

verus! {

/// The unsigned big-endian 16-bit integer at `i`.
pub open spec fn be_u16(s: Seq<u8>, i: int) -> int {
    s[i] as int * 256 + s[i + 1] as int
}

/// The signed (two's complement) big-endian 16-bit integer at `i`.
pub open spec fn be_i16(s: Seq<u8>, i: int) -> int {
    if be_u16(s, i) >= 32768 {
        be_u16(s, i) - 65536
    } else {
        be_u16(s, i)
    }
}

/// The unsigned big-endian 32-bit integer at `i`.
pub open spec fn be_u32(s: Seq<u8>, i: int) -> int {
    s[i] as int * 16777216 + s[i + 1] as int * 65536 + s[i + 2] as int * 256 + s[i + 3] as int
}

/// Whether `width` bytes starting at `offset` lie inside a buffer of `len` bytes.
pub open spec fn fits(len: int, offset: int, width: int) -> bool {
    0 <= offset && offset + width <= len
}

/// Each byte taken as the character of the same code point.
pub open spec fn latin1(b: Seq<u8>) -> Seq<char> {
    Seq::new(b.len(), |i: int| (b[i] as u32) as char)
}

/// Relies on byteorder's `BigEndian::read_u16`: the first two bytes of the slice, big-endian.
#[verifier::external_body]
pub(crate) fn read_u16_raw(buf: &[u8], offset: usize) -> (r: u16)
    requires
        fits(buf@.len() as int, offset as int, 2),
    ensures
        r as int == be_u16(buf@, offset as int),
{
    BigEndian::read_u16(&buf[offset..])
}

/// Relies on byteorder's `BigEndian::read_i16`: the first two bytes of the slice, big-endian, signed.
#[verifier::external_body]
pub(crate) fn read_i16_raw(buf: &[u8], offset: usize) -> (r: i16)
    requires
        fits(buf@.len() as int, offset as int, 2),
    ensures
        r as int == be_i16(buf@, offset as int),
{
    BigEndian::read_i16(&buf[offset..])
}

/// Relies on byteorder's `BigEndian::read_u32`: the first four bytes of the slice, big-endian.
#[verifier::external_body]
pub(crate) fn read_u32_raw(buf: &[u8], offset: usize) -> (r: u32)
    requires
        fits(buf@.len() as int, offset as int, 4),
    ensures
        r as int == be_u32(buf@, offset as int),
{
    BigEndian::read_u32(&buf[offset..])
}

/// Relies on `String::push`: appends one character.
#[verifier::external_body]
pub(crate) fn push_char(s: &mut String, c: char)
    ensures
        final(s)@ == old(s)@.push(c),
{
    s.push(c)
}

/// Relies on `String::push_str`: appends the characters of the slice.
#[verifier::external_body]
pub(crate) fn push_str(s: &mut String, t: &str)
    ensures
        final(s)@ == old(s)@ + t@,
{
    s.push_str(t)
}

/// Whether `width` bytes at `offset` fit in `buf`, without overflow.
fn in_bounds(buf: &[u8], offset: usize, width: usize) -> (r: bool)
    ensures
        r == fits(buf@.len() as int, offset as int, width as int),
{
    offset <= buf.len() && buf.len() - offset >= width
}

/// The big-endian `u16` at `offset`, or `OutOfBounds` where it does not fit.
pub fn read_u16_at(buf: &[u8], offset: usize) -> (r: Result<u16, DecodeError>)
    ensures
        fits(buf@.len() as int, offset as int, 2) ==> r == Ok::<u16, DecodeError>(
            be_u16(buf@, offset as int) as u16,
        ),
        !fits(buf@.len() as int, offset as int, 2) ==> r == Err::<u16, DecodeError>(
            DecodeError::OutOfBounds,
        ),
{
    if in_bounds(buf, offset, 2) {
        Ok(read_u16_raw(buf, offset))
    } else {
        Err(DecodeError::OutOfBounds)
    }
}

/// The big-endian `i16` at `offset`, or `OutOfBounds` where it does not fit.
pub fn read_i16_at(buf: &[u8], offset: usize) -> (r: Result<i16, DecodeError>)
    ensures
        fits(buf@.len() as int, offset as int, 2) ==> r == Ok::<i16, DecodeError>(
            be_i16(buf@, offset as int) as i16,
        ),
        !fits(buf@.len() as int, offset as int, 2) ==> r == Err::<i16, DecodeError>(
            DecodeError::OutOfBounds,
        ),
{
    if in_bounds(buf, offset, 2) {
        Ok(read_i16_raw(buf, offset))
    } else {
        Err(DecodeError::OutOfBounds)
    }
}

/// The big-endian `u32` at `offset`, or `OutOfBounds` where it does not fit.
pub fn read_u32_at(buf: &[u8], offset: usize) -> (r: Result<u32, DecodeError>)
    ensures
        fits(buf@.len() as int, offset as int, 4) ==> r == Ok::<u32, DecodeError>(
            be_u32(buf@, offset as int) as u32,
        ),
        !fits(buf@.len() as int, offset as int, 4) ==> r == Err::<u32, DecodeError>(
            DecodeError::OutOfBounds,
        ),
{
    if in_bounds(buf, offset, 4) {
        Ok(read_u32_raw(buf, offset))
    } else {
        Err(DecodeError::OutOfBounds)
    }
}

/// The `length` bytes at `offset`, or `OutOfBounds` where they do not fit.
pub fn read_bytes_at(buf: &[u8], offset: usize, length: usize) -> (r: Result<Vec<u8>, DecodeError>)
    ensures
        fits(buf@.len() as int, offset as int, length as int) ==> r is Ok && r->Ok_0@
            == buf@.subrange(offset as int, offset + length),
        !fits(buf@.len() as int, offset as int, length as int) ==> r == Err::<Vec<u8>, DecodeError>(
            DecodeError::OutOfBounds,
        ),
{
    if !in_bounds(buf, offset, length) {
        return Err(DecodeError::OutOfBounds);
    }
    let mut out: Vec<u8> = Vec::with_capacity(length);
    let mut i: usize = 0;
    while i < length
        invariant
            fits(buf@.len() as int, offset as int, length as int),
            offset + length <= buf.len(),
            i <= length,
            out@ == buf@.subrange(offset as int, offset + i),
        decreases length - i,
    {
        out.push(buf[offset + i]);
        i += 1;
        assert(out@ =~= buf@.subrange(offset as int, offset + i));
    }
    Ok(out)
}

/// Each byte becomes the character with the same code point.
pub fn u8_as_string(byte_arr: &[u8]) -> (r: String)
    ensures
        r@ == latin1(byte_arr@),
{
    let mut out_str = String::new();
    let mut i: usize = 0;
    while i < byte_arr.len()
        invariant
            i <= byte_arr@.len(),
            out_str@ == latin1(byte_arr@.subrange(0, i as int)),
        decreases byte_arr@.len() - i,
    {
        let b = byte_arr[i];
        push_char(&mut out_str, b as char);
        i += 1;
        assert(out_str@ =~= latin1(byte_arr@.subrange(0, i as int)));
    }
    assert(byte_arr@.subrange(0, i as int) =~= byte_arr@);
    out_str
}

/// A position-tracking view over a byte buffer, for reads that follow one another.
pub struct Reader<'a> {
    pub content: &'a [u8],
    pub position: usize,
}

impl<'a> Reader<'a> {
    /// A reader at the start of `content`.
    pub fn new(content: &'a [u8]) -> (r: Reader<'a>)
        ensures
            r.content@ == content@,
            r.position == 0,
    {
        Reader { content, position: 0 }
    }

    /// Moves to `position`.
    pub fn set_position(&mut self, position: usize)
        ensures
            final(self).content@ == old(self).content@,
            final(self).position == position,
    {
        self.position = position;
    }

    /// The big-endian `u32` at the position, which then moves past it; `OutOfBounds`,
    /// without moving, where it does not fit.
    pub fn read_u32_be(&mut self) -> (r: Result<u32, DecodeError>)
        ensures
            final(self).content@ == old(self).content@,
            fits(old(self).content@.len() as int, old(self).position as int, 4) ==> r == Ok::<
                u32,
                DecodeError,
            >(be_u32(old(self).content@, old(self).position as int) as u32) && final(self).position
                == old(self).position + 4,
            !fits(old(self).content@.len() as int, old(self).position as int, 4) ==> r == Err::<
                u32,
                DecodeError,
            >(DecodeError::OutOfBounds) && final(self).position == old(self).position,
    {
        let len = self.content.len();
        if self.position <= len && len - self.position >= 4 {
            let v = read_u32_raw(self.content, self.position);
            self.position = self.position + 4;
            Ok(v)
        } else {
            Err(DecodeError::OutOfBounds)
        }
    }

    /// The next `length` bytes, after which the position moves past them; `OutOfBounds`,
    /// without moving, where they do not fit.
    pub fn read_bytes(&mut self, length: usize) -> (r: Result<Vec<u8>, DecodeError>)
        ensures
            final(self).content@ == old(self).content@,
            fits(old(self).content@.len() as int, old(self).position as int, length as int) ==> r
                is Ok && r->Ok_0@ == old(self).content@.subrange(
                old(self).position as int,
                old(self).position + length,
            ) && final(self).position == old(self).position + length,
            !fits(old(self).content@.len() as int, old(self).position as int, length as int)
                ==> r == Err::<Vec<u8>, DecodeError>(DecodeError::OutOfBounds)
                && final(self).position == old(self).position,
    {
        let len = self.content.len();
        if self.position <= len && len - self.position >= length {
            let r = read_bytes_at(self.content, self.position, length);
            self.position = self.position + length;
            r
        } else {
            Err(DecodeError::OutOfBounds)
        }
    }
}

} // verus!
