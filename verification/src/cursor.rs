//! A bounds-checked cursor over an immutable byte buffer.
//!
//! Every read is specified against a spec-level reader over `Seq<u8>`:
//! `spec_read_*(b, p)` returns the decoded value and the new position, or
//! `TruncatedInput` when fewer bytes remain than the field needs. The
//! executable reads return exactly what the spec readers say, and leave the
//! cursor unmoved on failure.

use crate::ParseError;
use vstd::prelude::*;
use vstd::slice::{slice_subrange, slice_to_vec};

verus! {

// ------------------------------------------------------------------
// Big-endian interpretation of byte sequences, and the two's-complement
// reinterpretation of unsigned values as signed ones.
// ------------------------------------------------------------------

pub open spec fn be_u16(b: Seq<u8>) -> u16
    recommends
        b.len() == 2,
{
    (b[0] * 0x100 + b[1]) as u16
}

pub open spec fn be_u32(b: Seq<u8>) -> u32
    recommends
        b.len() == 4,
{
    (b[0] * 0x100_0000 + b[1] * 0x1_0000 + b[2] * 0x100 + b[3]) as u32
}

pub open spec fn be_u64(b: Seq<u8>) -> u64
    recommends
        b.len() == 8,
{
    (b[0] * 0x100_0000_0000_0000 + b[1] * 0x1_0000_0000_0000 + b[2] * 0x100_0000_0000 + b[3]
        * 0x1_0000_0000 + b[4] * 0x100_0000 + b[5] * 0x1_0000 + b[6] * 0x100 + b[7]) as u64
}

pub open spec fn i8_of_u8(u: u8) -> i8 {
    if u < 0x80 {
        u as i8
    } else {
        (u - 0x100) as i8
    }
}

pub open spec fn i16_of_u16(u: u16) -> i16 {
    if u < 0x8000 {
        u as i16
    } else {
        (u - 0x1_0000) as i16
    }
}

pub open spec fn i32_of_u32(u: u32) -> i32 {
    if u < 0x8000_0000 {
        u as i32
    } else {
        (u - 0x1_0000_0000) as i32
    }
}

pub open spec fn i64_of_u64(u: u64) -> i64 {
    if u < 0x8000_0000_0000_0000 {
        u as i64
    } else {
        (u - 0x1_0000_0000_0000_0000) as i64
    }
}

// ------------------------------------------------------------------
// Spec-level readers: value plus new position, or TruncatedInput.
// ------------------------------------------------------------------

pub open spec fn spec_read_u8(b: Seq<u8>, p: int) -> Result<(u8, int), ParseError> {
    if 0 <= p && p + 1 <= b.len() {
        Ok((b[p], p + 1))
    } else {
        Err(ParseError::TruncatedInput)
    }
}

pub open spec fn spec_read_bytes(b: Seq<u8>, p: int, n: int) -> Result<(Seq<u8>, int), ParseError> {
    if 0 <= p && 0 <= n && p + n <= b.len() {
        Ok((b.subrange(p, p + n), p + n))
    } else {
        Err(ParseError::TruncatedInput)
    }
}

pub open spec fn spec_read_u16(b: Seq<u8>, p: int) -> Result<(u16, int), ParseError> {
    if 0 <= p && p + 2 <= b.len() {
        Ok((be_u16(b.subrange(p, p + 2)), p + 2))
    } else {
        Err(ParseError::TruncatedInput)
    }
}

pub open spec fn spec_read_u32(b: Seq<u8>, p: int) -> Result<(u32, int), ParseError> {
    if 0 <= p && p + 4 <= b.len() {
        Ok((be_u32(b.subrange(p, p + 4)), p + 4))
    } else {
        Err(ParseError::TruncatedInput)
    }
}

pub open spec fn spec_read_u64(b: Seq<u8>, p: int) -> Result<(u64, int), ParseError> {
    if 0 <= p && p + 8 <= b.len() {
        Ok((be_u64(b.subrange(p, p + 8)), p + 8))
    } else {
        Err(ParseError::TruncatedInput)
    }
}

pub open spec fn spec_read_i8(b: Seq<u8>, p: int) -> Result<(i8, int), ParseError> {
    match spec_read_u8(b, p) {
        Ok((u, q)) => Ok((i8_of_u8(u), q)),
        Err(e) => Err(e),
    }
}

pub open spec fn spec_read_i16(b: Seq<u8>, p: int) -> Result<(i16, int), ParseError> {
    match spec_read_u16(b, p) {
        Ok((u, q)) => Ok((i16_of_u16(u), q)),
        Err(e) => Err(e),
    }
}

pub open spec fn spec_read_i32(b: Seq<u8>, p: int) -> Result<(i32, int), ParseError> {
    match spec_read_u32(b, p) {
        Ok((u, q)) => Ok((i32_of_u32(u), q)),
        Err(e) => Err(e),
    }
}

pub open spec fn spec_read_i64(b: Seq<u8>, p: int) -> Result<(i64, int), ParseError> {
    match spec_read_u64(b, p) {
        Ok((u, q)) => Ok((i64_of_u64(u), q)),
        Err(e) => Err(e),
    }
}

// ------------------------------------------------------------------
// Executable conversions from unsigned to signed, two's complement.
// ------------------------------------------------------------------

pub fn i8_from_u8(u: u8) -> (r: i8)
    ensures
        r == i8_of_u8(u),
{
    if u < 0x80 {
        u as i8
    } else {
        -((0xFFu8 - u) as i8) - 1
    }
}

pub fn i16_from_u16(u: u16) -> (r: i16)
    ensures
        r == i16_of_u16(u),
{
    if u < 0x8000 {
        u as i16
    } else {
        -((0xFFFFu16 - u) as i16) - 1
    }
}

pub fn i32_from_u32(u: u32) -> (r: i32)
    ensures
        r == i32_of_u32(u),
{
    if u < 0x8000_0000 {
        u as i32
    } else {
        -((0xFFFF_FFFFu32 - u) as i32) - 1
    }
}

pub fn i64_from_u64(u: u64) -> (r: i64)
    ensures
        r == i64_of_u64(u),
{
    if u < 0x8000_0000_0000_0000 {
        u as i64
    } else {
        -((0xFFFF_FFFF_FFFF_FFFFu64 - u) as i64) - 1
    }
}

// ------------------------------------------------------------------
// The cursor.
// ------------------------------------------------------------------

/// A position into an immutable byte buffer. All reads bounds-check first
/// and return `TruncatedInput` instead of running past the end.
pub struct Cursor<'a> {
    buf: &'a [u8],
    pos: usize,
}

impl<'a> Cursor<'a> {
    /// The whole underlying buffer. Reads never change it.
    pub closed spec fn data(&self) -> Seq<u8> {
        self.buf@
    }

    /// The current read position.
    pub closed spec fn position(&self) -> int {
        self.pos as int
    }

    pub open spec fn wf(&self) -> bool {
        0 <= self.position() <= self.data().len()
    }

    /// The bytes not yet consumed.
    pub open spec fn remaining_bytes(&self) -> Seq<u8> {
        self.data().skip(self.position())
    }

    pub fn new(buf: &'a [u8]) -> (c: Cursor<'a>)
        ensures
            c.wf(),
            c.data() == buf@,
            c.position() == 0,
    {
        Cursor { buf, pos: 0 }
    }

    pub fn remaining(&self) -> (n: usize)
        requires
            self.wf(),
        ensures
            n == self.data().len() - self.position(),
    {
        self.buf.len() - self.pos
    }

    /// True when at least `n` bytes remain.
    pub fn has(&self, n: usize) -> (r: bool)
        requires
            self.wf(),
        ensures
            r == (self.position() + n <= self.data().len()),
    {
        self.buf.len() - self.pos >= n
    }

    /// The byte `off` places past the current position, without consuming it.
    pub fn byte_at(&self, off: usize) -> (b: u8)
        requires
            self.wf(),
            self.position() + off < self.data().len(),
        ensures
            b == self.data()[self.position() + off],
    {
        proof {
            // the buffer length is a usize, so the sum below cannot overflow
            assert(self.buf.len() == self.data().len());
        }
        self.buf[self.pos + off]
    }

    pub fn advance(&mut self, n: usize)
        requires
            old(self).wf(),
            old(self).position() + n <= old(self).data().len(),
        ensures
            final(self).wf(),
            final(self).data() == old(self).data(),
            final(self).position() == old(self).position() + n,
    {
        proof {
            // the buffer length is a usize, so the sum below cannot overflow
            assert(self.buf.len() == self.data().len());
        }
        self.pos = self.pos + n;
    }

    pub fn read_u8(&mut self) -> (r: Result<u8, ParseError>)
        requires
            old(self).wf(),
        ensures
            final(self).wf(),
            final(self).data() == old(self).data(),
            match spec_read_u8(old(self).data(), old(self).position()) {
                Ok(v) => r == Ok::<u8, ParseError>(v.0) && final(self).position() == v.1,
                Err(e) => r == Err::<u8, ParseError>(e) && final(self).position() == old(
                    self,
                ).position(),
            },
    {
        if self.buf.len() - self.pos >= 1 {
            let b = self.buf[self.pos];
            self.pos = self.pos + 1;
            Ok(b)
        } else {
            Err(ParseError::TruncatedInput)
        }
    }

    pub fn read_u16(&mut self) -> (r: Result<u16, ParseError>)
        requires
            old(self).wf(),
        ensures
            final(self).wf(),
            final(self).data() == old(self).data(),
            match spec_read_u16(old(self).data(), old(self).position()) {
                Ok(v) => r == Ok::<u16, ParseError>(v.0) && final(self).position() == v.1,
                Err(e) => r == Err::<u16, ParseError>(e) && final(self).position() == old(
                    self,
                ).position(),
            },
    {
        if self.buf.len() - self.pos >= 2 {
            let b0 = self.buf[self.pos];
            let b1 = self.buf[self.pos + 1];
            let v = (b0 as u16) * 0x100 + (b1 as u16);
            proof {
                let s = self.data().subrange(self.position(), self.position() + 2);
                assert(s[0] == b0 && s[1] == b1);
            }
            self.pos = self.pos + 2;
            Ok(v)
        } else {
            Err(ParseError::TruncatedInput)
        }
    }

    pub fn read_u32(&mut self) -> (r: Result<u32, ParseError>)
        requires
            old(self).wf(),
        ensures
            final(self).wf(),
            final(self).data() == old(self).data(),
            match spec_read_u32(old(self).data(), old(self).position()) {
                Ok(v) => r == Ok::<u32, ParseError>(v.0) && final(self).position() == v.1,
                Err(e) => r == Err::<u32, ParseError>(e) && final(self).position() == old(
                    self,
                ).position(),
            },
    {
        if self.buf.len() - self.pos >= 4 {
            let b0 = self.buf[self.pos];
            let b1 = self.buf[self.pos + 1];
            let b2 = self.buf[self.pos + 2];
            let b3 = self.buf[self.pos + 3];
            let v = (b0 as u32) * 0x100_0000 + (b1 as u32) * 0x1_0000 + (b2 as u32) * 0x100 + (
            b3 as u32);
            proof {
                let s = self.data().subrange(self.position(), self.position() + 4);
                assert(s[0] == b0 && s[1] == b1 && s[2] == b2 && s[3] == b3);
            }
            self.pos = self.pos + 4;
            Ok(v)
        } else {
            Err(ParseError::TruncatedInput)
        }
    }

    pub fn read_u64(&mut self) -> (r: Result<u64, ParseError>)
        requires
            old(self).wf(),
        ensures
            final(self).wf(),
            final(self).data() == old(self).data(),
            match spec_read_u64(old(self).data(), old(self).position()) {
                Ok(v) => r == Ok::<u64, ParseError>(v.0) && final(self).position() == v.1,
                Err(e) => r == Err::<u64, ParseError>(e) && final(self).position() == old(
                    self,
                ).position(),
            },
    {
        if self.buf.len() - self.pos >= 8 {
            let b0 = self.buf[self.pos];
            let b1 = self.buf[self.pos + 1];
            let b2 = self.buf[self.pos + 2];
            let b3 = self.buf[self.pos + 3];
            let b4 = self.buf[self.pos + 4];
            let b5 = self.buf[self.pos + 5];
            let b6 = self.buf[self.pos + 6];
            let b7 = self.buf[self.pos + 7];
            let v = (b0 as u64) * 0x100_0000_0000_0000 + (b1 as u64) * 0x1_0000_0000_0000 + (
            b2 as u64) * 0x100_0000_0000 + (b3 as u64) * 0x1_0000_0000 + (b4 as u64) * 0x100_0000
                + (b5 as u64) * 0x1_0000 + (b6 as u64) * 0x100 + (b7 as u64);
            proof {
                let s = self.data().subrange(self.position(), self.position() + 8);
                assert(s[0] == b0 && s[1] == b1 && s[2] == b2 && s[3] == b3);
                assert(s[4] == b4 && s[5] == b5 && s[6] == b6 && s[7] == b7);
            }
            self.pos = self.pos + 8;
            Ok(v)
        } else {
            Err(ParseError::TruncatedInput)
        }
    }

    pub fn read_i8(&mut self) -> (r: Result<i8, ParseError>)
        requires
            old(self).wf(),
        ensures
            final(self).wf(),
            final(self).data() == old(self).data(),
            match spec_read_i8(old(self).data(), old(self).position()) {
                Ok(v) => r == Ok::<i8, ParseError>(v.0) && final(self).position() == v.1,
                Err(e) => r == Err::<i8, ParseError>(e) && final(self).position() == old(
                    self,
                ).position(),
            },
    {
        match self.read_u8() {
            Ok(u) => Ok(i8_from_u8(u)),
            Err(e) => Err(e),
        }
    }

    pub fn read_i16(&mut self) -> (r: Result<i16, ParseError>)
        requires
            old(self).wf(),
        ensures
            final(self).wf(),
            final(self).data() == old(self).data(),
            match spec_read_i16(old(self).data(), old(self).position()) {
                Ok(v) => r == Ok::<i16, ParseError>(v.0) && final(self).position() == v.1,
                Err(e) => r == Err::<i16, ParseError>(e) && final(self).position() == old(
                    self,
                ).position(),
            },
    {
        match self.read_u16() {
            Ok(u) => Ok(i16_from_u16(u)),
            Err(e) => Err(e),
        }
    }

    pub fn read_i32(&mut self) -> (r: Result<i32, ParseError>)
        requires
            old(self).wf(),
        ensures
            final(self).wf(),
            final(self).data() == old(self).data(),
            match spec_read_i32(old(self).data(), old(self).position()) {
                Ok(v) => r == Ok::<i32, ParseError>(v.0) && final(self).position() == v.1,
                Err(e) => r == Err::<i32, ParseError>(e) && final(self).position() == old(
                    self,
                ).position(),
            },
    {
        match self.read_u32() {
            Ok(u) => Ok(i32_from_u32(u)),
            Err(e) => Err(e),
        }
    }

    pub fn read_i64(&mut self) -> (r: Result<i64, ParseError>)
        requires
            old(self).wf(),
        ensures
            final(self).wf(),
            final(self).data() == old(self).data(),
            match spec_read_i64(old(self).data(), old(self).position()) {
                Ok(v) => r == Ok::<i64, ParseError>(v.0) && final(self).position() == v.1,
                Err(e) => r == Err::<i64, ParseError>(e) && final(self).position() == old(
                    self,
                ).position(),
            },
    {
        match self.read_u64() {
            Ok(u) => Ok(i64_from_u64(u)),
            Err(e) => Err(e),
        }
    }

    /// Read exactly `n` raw bytes.
    pub fn read_bytes(&mut self, n: usize) -> (r: Result<Vec<u8>, ParseError>)
        requires
            old(self).wf(),
        ensures
            final(self).wf(),
            final(self).data() == old(self).data(),
            match spec_read_bytes(old(self).data(), old(self).position(), n as int) {
                Ok(v) => r is Ok && r->Ok_0@ == v.0 && final(self).position() == v.1,
                Err(e) => r == Err::<Vec<u8>, ParseError>(e) && final(self).position() == old(
                    self,
                ).position(),
            },
    {
        if self.buf.len() - self.pos >= n {
            let s = slice_subrange(self.buf, self.pos, self.pos + n);
            self.pos = self.pos + n;
            Ok(slice_to_vec(s))
        } else {
            Err(ParseError::TruncatedInput)
        }
    }
}

} // verus!
