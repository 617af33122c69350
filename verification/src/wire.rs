//! Shared wire-format conventions: compact strings and arrays, tagged-field
//! trailers, and big-endian byte writers.
//!
//! The compact convention stores a length as its true value plus one; a
//! stored zero denotes a null or absent value and is read here as empty.
//! Tagged-field trailers use a raw (not compact) count byte. Writers append
//! to a `Vec<u8>` and are specified against spec-level byte sequences.

use crate::ParseError;
use crate::cursor::{
    Cursor, spec_read_bytes, spec_read_i32, spec_read_u32, spec_read_u8,
};
use vstd::arithmetic::div_mod::lemma_add_mod_noop;
use vstd::prelude::*;
use vstd::utf8::{decode_utf8, valid_utf8};

verus! {

// ------------------------------------------------------------------
// Lossy UTF-8 decoding.
// ------------------------------------------------------------------

/// The character sequence `String::from_utf8_lossy` recovers from a byte
/// sequence. The result depends on the bytes alone.
pub uninterp spec fn utf8_lossy(b: Seq<u8>) -> Seq<char>;

/// Relies on `String::from_utf8_lossy`: invalid sequences are replaced, the
/// parse itself never fails, and a slice that already is valid UTF-8 comes
/// back decoded unchanged.
#[verifier::external_body]
pub fn lossy_string_from_bytes(bytes: &[u8]) -> (s: String)
    ensures
        s@ == utf8_lossy(bytes@),
        valid_utf8(bytes@) ==> s@ == decode_utf8(bytes@),
{
    String::from_utf8_lossy(bytes).into_owned()
}

// ------------------------------------------------------------------
// Spec-level readers for the shared conventions.
// ------------------------------------------------------------------

/// The true length behind a compact length byte: the stored value minus
/// one, with zero (null/absent) read as empty.
pub open spec fn compact_len(l: u8) -> int {
    if l == 0 {
        0
    } else {
        l - 1
    }
}

pub open spec fn spec_read_compact_bytes(b: Seq<u8>, p: int) -> Result<(Seq<u8>, int), ParseError> {
    match spec_read_u8(b, p) {
        Ok((l, q)) => spec_read_bytes(b, q, compact_len(l)),
        Err(e) => Err(e),
    }
}

pub open spec fn spec_read_compact_string(b: Seq<u8>, p: int) -> Result<
    (Seq<char>, int),
    ParseError,
> {
    match spec_read_compact_bytes(b, p) {
        Ok((raw, q)) => Ok((utf8_lossy(raw), q)),
        Err(e) => Err(e),
    }
}

/// A tagged-field trailer: one raw count byte, then that many opaque bytes.
pub open spec fn spec_read_tagged_fields(b: Seq<u8>, p: int) -> Result<(Seq<u8>, int), ParseError> {
    match spec_read_u8(b, p) {
        Ok((n, q)) => spec_read_bytes(b, q, n as int),
        Err(e) => Err(e),
    }
}

pub open spec fn spec_read_i32_run(b: Seq<u8>, p: int, n: int) -> Result<
    (Seq<i32>, int),
    ParseError,
>
    decreases n,
{
    if n <= 0 {
        Ok((Seq::empty(), p))
    } else {
        match spec_read_i32(b, p) {
            Ok((v, q)) => match spec_read_i32_run(b, q, n - 1) {
                Ok((rest, e)) => Ok((seq![v] + rest, e)),
                Err(e) => Err(e),
            },
            Err(e) => Err(e),
        }
    }
}

pub open spec fn spec_read_u32_run(b: Seq<u8>, p: int, n: int) -> Result<
    (Seq<u32>, int),
    ParseError,
>
    decreases n,
{
    if n <= 0 {
        Ok((Seq::empty(), p))
    } else {
        match spec_read_u32(b, p) {
            Ok((v, q)) => match spec_read_u32_run(b, q, n - 1) {
                Ok((rest, e)) => Ok((seq![v] + rest, e)),
                Err(e) => Err(e),
            },
            Err(e) => Err(e),
        }
    }
}

pub open spec fn spec_read_compact_i32_array(b: Seq<u8>, p: int) -> Result<
    (Seq<i32>, int),
    ParseError,
> {
    match spec_read_u8(b, p) {
        Ok((l, q)) => spec_read_i32_run(b, q, compact_len(l)),
        Err(e) => Err(e),
    }
}

pub open spec fn spec_read_compact_u32_array(b: Seq<u8>, p: int) -> Result<
    (Seq<u32>, int),
    ParseError,
> {
    match spec_read_u8(b, p) {
        Ok((l, q)) => spec_read_u32_run(b, q, compact_len(l)),
        Err(e) => Err(e),
    }
}

// ------------------------------------------------------------------
// Executable readers.
// ------------------------------------------------------------------

impl<'a> Cursor<'a> {
    /// Read a compact length byte, then that many raw bytes.
    pub fn read_compact_bytes(&mut self) -> (r: Result<Vec<u8>, ParseError>)
        requires
            old(self).wf(),
        ensures
            final(self).wf(),
            final(self).data() == old(self).data(),
            match spec_read_compact_bytes(old(self).data(), old(self).position()) {
                Ok(v) => r is Ok && r->Ok_0@ == v.0 && final(self).position() == v.1,
                Err(e) => r == Err::<Vec<u8>, ParseError>(e),
            },
    {
        let l = match self.read_u8() {
            Ok(l) => l,
            Err(e) => { return Err(e) },
        };
        let n: usize = if l == 0 {
            0
        } else {
            (l - 1) as usize
        };
        self.read_bytes(n)
    }

    /// Read a compact string: a compact length byte, then that many bytes,
    /// decoded as UTF-8 with lossy substitution (the parse never fails on
    /// invalid sequences).
    pub fn read_compact_string(&mut self) -> (r: Result<String, ParseError>)
        requires
            old(self).wf(),
        ensures
            final(self).wf(),
            final(self).data() == old(self).data(),
            match spec_read_compact_string(old(self).data(), old(self).position()) {
                Ok(v) => r is Ok && r->Ok_0@ == v.0 && final(self).position() == v.1,
                Err(e) => r == Err::<String, ParseError>(e),
            },
    {
        match self.read_compact_bytes() {
            Ok(raw) => Ok(lossy_string_from_bytes(raw.as_slice())),
            Err(e) => Err(e),
        }
    }

    /// Consume a tagged-field trailer: a raw count byte, then that many
    /// opaque bytes, kept but not interpreted.
    pub fn read_tagged_fields(&mut self) -> (r: Result<Vec<u8>, ParseError>)
        requires
            old(self).wf(),
        ensures
            final(self).wf(),
            final(self).data() == old(self).data(),
            match spec_read_tagged_fields(old(self).data(), old(self).position()) {
                Ok(v) => r is Ok && r->Ok_0@ == v.0 && final(self).position() == v.1,
                Err(e) => r == Err::<Vec<u8>, ParseError>(e),
            },
    {
        let n = match self.read_u8() {
            Ok(n) => n,
            Err(e) => { return Err(e) },
        };
        self.read_bytes(n as usize)
    }

    /// Read `n` big-endian signed 32-bit integers.
    pub fn read_i32_run(&mut self, n: usize) -> (r: Result<Vec<i32>, ParseError>)
        requires
            old(self).wf(),
        ensures
            final(self).wf(),
            final(self).data() == old(self).data(),
            match spec_read_i32_run(old(self).data(), old(self).position(), n as int) {
                Ok(v) => r is Ok && r->Ok_0@ == v.0 && final(self).position() == v.1,
                Err(e) => r == Err::<Vec<i32>, ParseError>(e),
            },
    {
        let ghost b = self.data();
        let ghost p0 = self.position();
        let mut out: Vec<i32> = Vec::new();
        let mut i: usize = 0;
        proof {
            match spec_read_i32_run(b, p0, n as int) {
                Ok(v) => {
                    assert(out@ + v.0 =~= v.0);
                },
                Err(_) => {},
            }
        }
        while i < n
            invariant
                self.wf(),
                self.data() == b,
                b == old(self).data(),
                p0 == old(self).position(),
                i <= n,
                out@.len() == i,
                spec_read_i32_run(b, p0, n as int) == (match spec_read_i32_run(
                    b,
                    self.position(),
                    n - i,
                ) {
                    Ok(v) => Ok::<(Seq<i32>, int), ParseError>((out@ + v.0, v.1)),
                    Err(e) => Err::<(Seq<i32>, int), ParseError>(e),
                }),
            decreases n - i,
        {
            let ghost pre = self.position();
            let ghost out_pre = out@;
            match self.read_i32() {
                Ok(v) => {
                    out.push(v);
                    i = i + 1;
                    proof {
                        match spec_read_i32_run(b, self.position(), n - i) {
                            Ok(w) => {
                                assert(out_pre + (seq![v] + w.0) =~= out@ + w.0);
                            },
                            Err(_) => {},
                        }
                    }
                },
                Err(e) => {
                    return Err(e);
                },
            }
        }
        proof {
            assert(out@ + Seq::<i32>::empty() =~= out@);
        }
        Ok(out)
    }

    /// Read `n` big-endian unsigned 32-bit integers.
    pub fn read_u32_run(&mut self, n: usize) -> (r: Result<Vec<u32>, ParseError>)
        requires
            old(self).wf(),
        ensures
            final(self).wf(),
            final(self).data() == old(self).data(),
            match spec_read_u32_run(old(self).data(), old(self).position(), n as int) {
                Ok(v) => r is Ok && r->Ok_0@ == v.0 && final(self).position() == v.1,
                Err(e) => r == Err::<Vec<u32>, ParseError>(e),
            },
    {
        let ghost b = self.data();
        let ghost p0 = self.position();
        let mut out: Vec<u32> = Vec::new();
        let mut i: usize = 0;
        proof {
            match spec_read_u32_run(b, p0, n as int) {
                Ok(v) => {
                    assert(out@ + v.0 =~= v.0);
                },
                Err(_) => {},
            }
        }
        while i < n
            invariant
                self.wf(),
                self.data() == b,
                b == old(self).data(),
                p0 == old(self).position(),
                i <= n,
                out@.len() == i,
                spec_read_u32_run(b, p0, n as int) == (match spec_read_u32_run(
                    b,
                    self.position(),
                    n - i,
                ) {
                    Ok(v) => Ok::<(Seq<u32>, int), ParseError>((out@ + v.0, v.1)),
                    Err(e) => Err::<(Seq<u32>, int), ParseError>(e),
                }),
            decreases n - i,
        {
            let ghost out_pre = out@;
            match self.read_u32() {
                Ok(v) => {
                    out.push(v);
                    i = i + 1;
                    proof {
                        match spec_read_u32_run(b, self.position(), n - i) {
                            Ok(w) => {
                                assert(out_pre + (seq![v] + w.0) =~= out@ + w.0);
                            },
                            Err(_) => {},
                        }
                    }
                },
                Err(e) => {
                    return Err(e);
                },
            }
        }
        proof {
            assert(out@ + Seq::<u32>::empty() =~= out@);
        }
        Ok(out)
    }

    /// Read a compact array of big-endian signed 32-bit integers.
    pub fn read_compact_i32_array(&mut self) -> (r: Result<Vec<i32>, ParseError>)
        requires
            old(self).wf(),
        ensures
            final(self).wf(),
            final(self).data() == old(self).data(),
            match spec_read_compact_i32_array(old(self).data(), old(self).position()) {
                Ok(v) => r is Ok && r->Ok_0@ == v.0 && final(self).position() == v.1,
                Err(e) => r == Err::<Vec<i32>, ParseError>(e),
            },
    {
        let l = match self.read_u8() {
            Ok(l) => l,
            Err(e) => { return Err(e) },
        };
        let n: usize = if l == 0 {
            0
        } else {
            (l - 1) as usize
        };
        self.read_i32_run(n)
    }

    /// Read a compact array of big-endian unsigned 32-bit integers.
    pub fn read_compact_u32_array(&mut self) -> (r: Result<Vec<u32>, ParseError>)
        requires
            old(self).wf(),
        ensures
            final(self).wf(),
            final(self).data() == old(self).data(),
            match spec_read_compact_u32_array(old(self).data(), old(self).position()) {
                Ok(v) => r is Ok && r->Ok_0@ == v.0 && final(self).position() == v.1,
                Err(e) => r == Err::<Vec<u32>, ParseError>(e),
            },
    {
        let l = match self.read_u8() {
            Ok(l) => l,
            Err(e) => { return Err(e) },
        };
        let n: usize = if l == 0 {
            0
        } else {
            (l - 1) as usize
        };
        self.read_u32_run(n)
    }
}

// ------------------------------------------------------------------
// Spec-level writers.
// ------------------------------------------------------------------

pub open spec fn u16_be_bytes(x: u16) -> Seq<u8> {
    seq![(x / 0x100) as u8, (x % 0x100) as u8]
}

pub open spec fn u32_be_bytes(x: u32) -> Seq<u8> {
    seq![
        (x / 0x100_0000) as u8,
        ((x / 0x1_0000) % 0x100) as u8,
        ((x / 0x100) % 0x100) as u8,
        (x % 0x100) as u8,
    ]
}

pub open spec fn u16_of_i16(x: i16) -> u16 {
    if x >= 0 {
        x as u16
    } else {
        (x + 0x1_0000) as u16
    }
}

pub open spec fn u32_of_i32(x: i32) -> u32 {
    if x >= 0 {
        x as u32
    } else {
        (x + 0x1_0000_0000) as u32
    }
}

pub open spec fn i16_be_bytes(x: i16) -> Seq<u8> {
    u16_be_bytes(u16_of_i16(x))
}

pub open spec fn i32_be_bytes(x: i32) -> Seq<u8> {
    u32_be_bytes(u32_of_i32(x))
}

/// The length byte of a compact array or string: the count plus one, kept
/// to one byte exactly as a narrowing cast would.
pub open spec fn compact_count_byte(n: int) -> u8 {
    (((n % 0x100) + 1) % 0x100) as u8
}

/// The big-endian bytes of a run of signed 32-bit integers.
pub open spec fn i32_run_bytes(l: Seq<i32>) -> Seq<u8>
    decreases l.len(),
{
    if l.len() == 0 {
        Seq::empty()
    } else {
        i32_run_bytes(l.drop_last()) + i32_be_bytes(l.last())
    }
}

/// A compact array of signed 32-bit integers: count byte, then the run.
pub open spec fn compact_i32_array_bytes(l: Seq<i32>) -> Seq<u8> {
    seq![compact_count_byte(l.len() as int)] + i32_run_bytes(l)
}

// ------------------------------------------------------------------
// Executable writers.
// ------------------------------------------------------------------

pub fn push_u8(out: &mut Vec<u8>, x: u8)
    ensures
        final(out)@ == old(out)@ + seq![x],
{
    out.push(x);
    proof {
        assert(out@ =~= old(out)@ + seq![x]);
    }
}

pub fn push_u16_be(out: &mut Vec<u8>, x: u16)
    ensures
        final(out)@ == old(out)@ + u16_be_bytes(x),
{
    out.push((x / 0x100) as u8);
    out.push((x % 0x100) as u8);
    proof {
        assert(out@ =~= old(out)@ + u16_be_bytes(x));
    }
}

pub fn push_u32_be(out: &mut Vec<u8>, x: u32)
    ensures
        final(out)@ == old(out)@ + u32_be_bytes(x),
{
    out.push((x / 0x100_0000) as u8);
    out.push(((x / 0x1_0000) % 0x100) as u8);
    out.push(((x / 0x100) % 0x100) as u8);
    out.push((x % 0x100) as u8);
    proof {
        assert(out@ =~= old(out)@ + u32_be_bytes(x));
    }
}

pub fn push_i16_be(out: &mut Vec<u8>, x: i16)
    ensures
        final(out)@ == old(out)@ + i16_be_bytes(x),
{
    let u: u16 = if x >= 0 {
        x as u16
    } else {
        ((x as i32) + 0x1_0000) as u16
    };
    push_u16_be(out, u);
}

pub fn push_i32_be(out: &mut Vec<u8>, x: i32)
    ensures
        final(out)@ == old(out)@ + i32_be_bytes(x),
{
    let u: u32 = if x >= 0 {
        x as u32
    } else {
        ((x as i64) + 0x1_0000_0000) as u32
    };
    push_u32_be(out, u);
}

/// Append the compact length byte for a count of `n` items.
pub fn push_compact_count(out: &mut Vec<u8>, n: usize)
    ensures
        final(out)@ == old(out)@ + seq![compact_count_byte(n as int)],
{
    proof {
        lemma_add_mod_noop(n as int, 1, 0x100);
    }
    push_u8(out, (((n % 0x100) + 1) % 0x100) as u8);
}

/// Append a byte slice unchanged.
pub fn push_bytes(out: &mut Vec<u8>, v: &[u8])
    ensures
        final(out)@ == old(out)@ + v@,
{
    let ghost base = out@;
    let mut i: usize = 0;
    while i < v.len()
        invariant
            i <= v@.len(),
            out@ == base + v@.take(i as int),
        decreases v@.len() - i,
    {
        let ghost pre = out@;
        out.push(v[i]);
        i = i + 1;
        proof {
            assert(pre.push(v@[i - 1]) =~= base + v@.take(i as int));
        }
    }
    proof {
        assert(base + v@.take(v@.len() as int) =~= base + v@);
    }
}

/// Append a run of signed 32-bit integers, big-endian each.
pub fn push_i32_run(out: &mut Vec<u8>, v: &Vec<i32>)
    ensures
        final(out)@ == old(out)@ + i32_run_bytes(v@),
{
    let ghost base = out@;
    let mut i: usize = 0;
    while i < v.len()
        invariant
            i <= v@.len(),
            out@ == base + i32_run_bytes(v@.take(i as int)),
        decreases v@.len() - i,
    {
        push_i32_be(out, v[i]);
        i = i + 1;
        proof {
            assert(v@.take(i as int).drop_last() =~= v@.take(i - 1));
            assert(v@.take(i as int).last() == v@[i - 1]);
            assert((base + i32_run_bytes(v@.take(i - 1))) + i32_be_bytes(v@[i - 1]) =~= base
                + i32_run_bytes(v@.take(i as int)));
        }
    }
    proof {
        assert(v@.take(v@.len() as int) =~= v@);
        assert(base + i32_run_bytes(v@.take(v@.len() as int)) == base + i32_run_bytes(v@));
    }
}

/// An owned copy of a vector of plain values.
pub fn copy_vec<T: Copy>(v: &Vec<T>) -> (r: Vec<T>)
    ensures
        r@ == v@,
{
    let mut r: Vec<T> = Vec::new();
    let mut i: usize = 0;
    while i < v.len()
        invariant
            i <= v@.len(),
            r@ == v@.take(i as int),
        decreases v@.len() - i,
    {
        r.push(v[i]);
        i = i + 1;
        proof {
            assert(r@ =~= v@.take(i as int));
        }
    }
    proof {
        assert(v@.take(v@.len() as int) =~= v@);
    }
    r
}

/// Byte-exact comparison of two byte vectors.
pub fn bytes_eq(a: &Vec<u8>, b: &Vec<u8>) -> (r: bool)
    ensures
        r == (a@ == b@),
{
    if a.len() != b.len() {
        return false;
    }
    let mut i: usize = 0;
    while i < a.len()
        invariant
            a@.len() == b@.len(),
            i <= a@.len(),
            forall|j: int| 0 <= j < i ==> a@[j] == b@[j],
        decreases a@.len() - i,
    {
        if a[i] != b[i] {
            return false;
        }
        i = i + 1;
    }
    proof {
        assert(a@ =~= b@);
    }
    true
}

/// Append a compact array of signed 32-bit integers: count byte, then run.
pub fn push_compact_i32_array(out: &mut Vec<u8>, v: &Vec<i32>)
    ensures
        final(out)@ == old(out)@ + compact_i32_array_bytes(v@),
{
    let ghost base = out@;
    push_compact_count(out, v.len());
    push_i32_run(out, v);
    proof {
        assert((base + seq![compact_count_byte(v@.len() as int)]) + i32_run_bytes(v@) =~= base
            + compact_i32_array_bytes(v@));
    }
}

} // verus!
