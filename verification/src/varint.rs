//! Signed, zig-zag, base-128 variable-length integers.
//!
//! A varint is a chain of bytes: each byte contributes its low seven bits,
//! least significant chunk first, and the high bit says whether the chain
//! continues. The decoded unsigned value is un-zig-zagged into a signed
//! 64-bit integer. Decoding consumes exactly the bytes of the chain; it
//! fails with `TruncatedInput` when the buffer ends before a terminating
//! byte, and with `MalformedVarint` when the chain exceeds the width of the
//! 64-bit domain (more than ten bytes, or a tenth chunk above one).

use crate::ParseError;
use crate::cursor::Cursor;
use vstd::prelude::*;

verus! {

// ------------------------------------------------------------------
// Spec-level codec.
// ------------------------------------------------------------------

/// Whether the continuation chain at the head of `s` reaches a terminating
/// byte (one with the high bit clear) before the sequence ends.
pub open spec fn has_terminator(s: Seq<u8>) -> bool
    decreases s.len(),
{
    if s.len() == 0 {
        false
    } else if s[0] < 128 {
        true
    } else {
        has_terminator(s.skip(1))
    }
}

/// Number of bytes up to and including the first terminating byte.
pub open spec fn varint_len(s: Seq<u8>) -> int
    recommends
        has_terminator(s),
    decreases s.len(),
{
    if s.len() == 0 {
        0
    } else if s[0] < 128 {
        1
    } else {
        1 + varint_len(s.skip(1))
    }
}

/// The unsigned base-128 value of the chain at the head of `s`.
pub open spec fn uvarint_value(s: Seq<u8>) -> int
    recommends
        has_terminator(s),
    decreases s.len(),
{
    if s.len() == 0 {
        0
    } else if s[0] < 128 {
        s[0] as int
    } else {
        (s[0] - 128) + 128 * uvarint_value(s.skip(1))
    }
}

/// The base-128 value of a sequence read as continuation chunks only
/// (every byte's low seven bits, regardless of its high bit).
pub open spec fn chunks_value(s: Seq<u8>) -> int
    decreases s.len(),
{
    if s.len() == 0 {
        0
    } else {
        (s[0] % 128) + 128 * chunks_value(s.skip(1))
    }
}

pub open spec fn pow128(n: nat) -> int
    decreases n,
{
    if n == 0 {
        1
    } else {
        128 * pow128((n - 1) as nat)
    }
}

pub open spec fn zigzag_decode(u: int) -> int {
    if u % 2 == 0 {
        u / 2
    } else {
        -(u / 2) - 1
    }
}

pub open spec fn zigzag_encode(v: int) -> int {
    if v >= 0 {
        2 * v
    } else {
        -2 * v - 1
    }
}

/// The bytes a decode is allowed to look at: ten base-128 chunks cover the
/// full 64-bit domain, so a chain is never followed further.
pub open spec fn varint_window(s: Seq<u8>) -> Seq<u8> {
    if s.len() <= 10 {
        s
    } else {
        s.take(10)
    }
}

/// What decoding a signed varint from the head of `s` yields: the value and
/// the number of bytes consumed, or the exact error.
pub open spec fn spec_decode_varint(s: Seq<u8>) -> Result<(i64, int), ParseError> {
    let w = varint_window(s);
    if !has_terminator(w) {
        if s.len() < 10 {
            Err(ParseError::TruncatedInput)
        } else {
            Err(ParseError::MalformedVarint)
        }
    } else if uvarint_value(w) >= 0x1_0000_0000_0000_0000 {
        Err(ParseError::MalformedVarint)
    } else {
        Ok((zigzag_decode(uvarint_value(w)) as i64, varint_len(w)))
    }
}

/// Decoding a varint as a positioned read into a buffer: the value and the
/// position one past the chain.
pub open spec fn spec_read_varint(b: Seq<u8>, p: int) -> Result<(i64, int), ParseError> {
    if 0 <= p <= b.len() {
        match spec_decode_varint(b.skip(p)) {
            Ok(v) => Ok((v.0, p + v.1)),
            Err(e) => Err(e),
        }
    } else {
        Err(ParseError::TruncatedInput)
    }
}

/// The canonical encoding of an unsigned value as a base-128 chain.
pub open spec fn spec_encode_uvarint(u: int) -> Seq<u8>
    recommends
        u >= 0,
    decreases u,
{
    if u < 128 {
        seq![u as u8]
    } else {
        seq![(128 + u % 128) as u8] + spec_encode_uvarint(u / 128)
    }
}

/// The canonical encoding of a signed varint: zig-zag, then base-128.
pub open spec fn spec_encode_varint(v: i64) -> Seq<u8> {
    spec_encode_uvarint(zigzag_encode(v as int))
}

// ------------------------------------------------------------------
// Lemmas about the spec-level codec.
// ------------------------------------------------------------------

proof fn lemma_pow128_pos(n: nat)
    ensures
        pow128(n) >= 1,
    decreases n,
{
    if n > 0 {
        lemma_pow128_pos((n - 1) as nat);
    }
}

proof fn lemma_pow128_increases(n: nat, m: nat)
    requires
        n <= m,
    ensures
        pow128(n) <= pow128(m),
    decreases m - n,
{
    if n < m {
        lemma_pow128_increases(n, (m - 1) as nat);
        lemma_pow128_pos((m - 1) as nat);
    }
}

proof fn lemma_pow128_values()
    ensures
        pow128(8) == 0x100_0000_0000_0000,
        pow128(9) == 0x8000_0000_0000_0000,
        pow128(10) == 0x40_0000_0000_0000_0000,
{
    assert(pow128(0) == 1);
    assert(pow128(1) == 128);
    assert(pow128(2) == 0x4000);
    assert(pow128(3) == 0x20_0000);
    assert(pow128(4) == 0x1000_0000);
    assert(pow128(5) == 0x8_0000_0000);
    assert(pow128(6) == 0x400_0000_0000);
    assert(pow128(7) == 0x2_0000_0000_0000);
    assert(pow128(8) == 0x100_0000_0000_0000);
    assert(pow128(9) == 0x8000_0000_0000_0000);
    assert(pow128(10) == 0x40_0000_0000_0000_0000);
}

proof fn lemma_chunks_value_bound(s: Seq<u8>)
    ensures
        0 <= chunks_value(s) < pow128(s.len()),
    decreases s.len(),
{
    if s.len() == 0 {
    } else {
        lemma_chunks_value_bound(s.skip(1));
    }
}

/// Appending one more chunk adds its value at the next base-128 place.
proof fn lemma_chunks_value_snoc(s: Seq<u8>, i: int)
    requires
        0 <= i < s.len(),
    ensures
        chunks_value(s.take(i + 1)) == chunks_value(s.take(i)) + pow128(i as nat) * ((
        s[i] as int) % 128),
    decreases i,
{
    if i == 0 {
        assert(s.take(1) =~= seq![s[0]]);
        assert(s.take(1).skip(1) =~= Seq::<u8>::empty());
        assert(s.take(0) =~= Seq::<u8>::empty());
    } else {
        let t = s.skip(1);
        lemma_chunks_value_snoc(t, i - 1);
        assert(s.take(i + 1).skip(1) =~= t.take(i));
        assert(s.take(i).skip(1) =~= t.take(i - 1));
        assert(s.take(i + 1)[0] == s[0]);
        assert(s.take(i)[0] == s[0]);
        assert(t[i - 1] == s[i]);
        let c = (s[i] as int) % 128;
        assert(128 * (chunks_value(t.take(i - 1)) + pow128((i - 1) as nat) * c) == 128
            * chunks_value(t.take(i - 1)) + 128 * (pow128((i - 1) as nat) * c))
            by (nonlinear_arith);
        assert(128 * (pow128((i - 1) as nat) * c) == (128 * pow128((i - 1) as nat)) * c)
            by (nonlinear_arith);
    }
}

/// A chain whose first terminator stands at index `i` decodes to the chunks
/// before it plus the terminator at the `i`th base-128 place.
proof fn lemma_chain_split(s: Seq<u8>, i: int)
    requires
        0 <= i < s.len(),
        forall|j: int| 0 <= j < i ==> s[j] >= 128,
        s[i] < 128,
    ensures
        has_terminator(s),
        varint_len(s) == i + 1,
        uvarint_value(s) == chunks_value(s.take(i)) + pow128(i as nat) * (s[i] as int),
    decreases i,
{
    if i == 0 {
        assert(s.take(0) =~= Seq::<u8>::empty());
    } else {
        let t = s.skip(1);
        lemma_chain_split(t, i - 1);
        assert(s.take(i).skip(1) =~= t.take(i - 1));
        assert(s.take(i)[0] == s[0]);
        assert(t[i - 1] == s[i]);
        let c = s[i] as int;
        assert(128 * (chunks_value(t.take(i - 1)) + pow128((i - 1) as nat) * c) == 128
            * chunks_value(t.take(i - 1)) + 128 * (pow128((i - 1) as nat) * c))
            by (nonlinear_arith);
        assert(128 * (pow128((i - 1) as nat) * c) == (128 * pow128((i - 1) as nat)) * c)
            by (nonlinear_arith);
    }
}

proof fn lemma_all_continuation_no_terminator(s: Seq<u8>)
    requires
        forall|j: int| 0 <= j < s.len() ==> s[j] >= 128,
    ensures
        !has_terminator(s),
    decreases s.len(),
{
    if s.len() > 0 {
        lemma_all_continuation_no_terminator(s.skip(1));
    }
}

/// The chain functions read nothing past the first terminator, so a chain
/// keeps its length and value under any extension.
proof fn lemma_chain_extend(s: Seq<u8>, ext: Seq<u8>)
    requires
        s.len() >= 1,
        forall|j: int| 0 <= j < s.len() - 1 ==> s[j] >= 128,
        s[s.len() - 1] < 128,
    ensures
        has_terminator(s + ext),
        varint_len(s + ext) == s.len(),
        uvarint_value(s + ext) == uvarint_value(s),
    decreases s.len(),
{
    let c = s + ext;
    assert(c[0] == s[0]);
    if s.len() == 1 {
        assert(has_terminator(c));
    } else {
        lemma_chain_extend(s.skip(1), ext);
        assert(c.skip(1) =~= s.skip(1) + ext);
    }
}

/// When a terminator exists, the chain takes between one byte and all of `s`.
proof fn lemma_varint_len_bounds(s: Seq<u8>)
    requires
        has_terminator(s),
    ensures
        1 <= varint_len(s) <= s.len(),
    decreases s.len(),
{
    if s.len() > 0 && s[0] >= 128 {
        lemma_varint_len_bounds(s.skip(1));
    }
}

/// A successful decode consumes between one and ten bytes, never more than
/// the input holds.
pub proof fn lemma_decode_varint_bounds(s: Seq<u8>)
    ensures
        match spec_decode_varint(s) {
            Ok(v) => 1 <= v.1 <= 10 && v.1 <= s.len(),
            Err(_) => true,
        },
{
    let w = varint_window(s);
    if has_terminator(w) {
        lemma_varint_len_bounds(w);
    }
}

/// A successful positioned read lands strictly past where it started and
/// within the buffer.
pub proof fn lemma_read_varint_bounds(b: Seq<u8>, p: int)
    ensures
        match spec_read_varint(b, p) {
            Ok(v) => p < v.1 <= b.len(),
            Err(_) => true,
        },
{
    if 0 <= p <= b.len() {
        lemma_decode_varint_bounds(b.skip(p));
    }
}

proof fn lemma_encode_uvarint_shape(u: int)
    requires
        u >= 0,
    ensures
        spec_encode_uvarint(u).len() >= 1,
        forall|j: int|
            0 <= j < spec_encode_uvarint(u).len() - 1 ==> spec_encode_uvarint(u)[j] >= 128,
        spec_encode_uvarint(u)[spec_encode_uvarint(u).len() - 1] < 128,
        uvarint_value(spec_encode_uvarint(u)) == u,
    decreases u,
{
    let e = spec_encode_uvarint(u);
    if u < 128 {
        assert(e =~= seq![u as u8]);
    } else {
        lemma_encode_uvarint_shape(u / 128);
        assert(e.skip(1) =~= spec_encode_uvarint(u / 128));
        assert(e[0] == (128 + u % 128) as u8);
        assert((128 + u % 128) as u8 >= 128);
        assert(u == 128 * (u / 128) + u % 128) by (nonlinear_arith);
    }
}

proof fn lemma_encode_uvarint_len(u: int, n: nat)
    requires
        0 <= u < pow128(n),
        n >= 1,
    ensures
        spec_encode_uvarint(u).len() <= n,
    decreases u,
{
    if u >= 128 {
        assert(pow128(n) == 128 * pow128((n - 1) as nat));
        assert(u / 128 < pow128((n - 1) as nat)) by (nonlinear_arith)
            requires
                u < 128 * pow128((n - 1) as nat),
                u >= 128,
        ;
        assert(n >= 2) by {
            lemma_pow128_pos((n - 1) as nat);
            if n == 1 {
                assert(pow128(n) == 128);
            }
        }
        assert(0 <= u / 128 < u) by (nonlinear_arith)
            requires
                u >= 128,
        ;
        lemma_encode_uvarint_len(u / 128, (n - 1) as nat);
    }
}

proof fn lemma_zigzag_inverse(v: i64)
    ensures
        0 <= zigzag_encode(v as int) < 0x1_0000_0000_0000_0000,
        zigzag_decode(zigzag_encode(v as int)) == v as int,
{
    let u = zigzag_encode(v as int);
    if v >= 0 {
        assert(u == 2 * (v as int));
        assert(u % 2 == 0 && u / 2 == v as int);
    } else {
        let k = -(v as int) - 1;
        assert(u == 2 * k + 1);
        assert(u % 2 == 1 && u / 2 == k);
    }
}

/// Round-trip law: decoding any canonical encoding of `v`, with any bytes
/// following it, yields exactly `v` and consumes exactly the encoded bytes.
pub proof fn lemma_varint_round_trip(v: i64, tail: Seq<u8>)
    ensures
        1 <= spec_encode_varint(v).len() <= 10,
        spec_decode_varint(spec_encode_varint(v) + tail) == Ok::<(i64, int), ParseError>(
            (v, spec_encode_varint(v).len() as int),
        ),
{
    let u = zigzag_encode(v as int);
    let enc = spec_encode_varint(v);
    lemma_zigzag_inverse(v);
    lemma_pow128_values();
    lemma_encode_uvarint_shape(u);
    lemma_encode_uvarint_len(u, 10);
    let s = enc + tail;
    let w = varint_window(s);
    assert(s.len() >= enc.len());
    if s.len() <= 10 {
        assert(w =~= enc + tail);
        lemma_chain_extend(enc, tail);
    } else {
        assert(w =~= enc + (s.take(10).skip(enc.len() as int)));
        lemma_chain_extend(enc, s.take(10).skip(enc.len() as int));
    }
    assert(uvarint_value(w) == u);
    assert(varint_len(w) == enc.len());
}

// ------------------------------------------------------------------
// Executable decoder.
// ------------------------------------------------------------------

impl<'a> Cursor<'a> {
    /// Decode one signed zig-zag varint from the current position. On
    /// success the cursor advances past exactly the chain's bytes; on
    /// failure it does not move.
    pub fn read_signed_varint(&mut self) -> (r: Result<i64, ParseError>)
        requires
            old(self).wf(),
        ensures
            final(self).wf(),
            final(self).data() == old(self).data(),
            match spec_decode_varint(old(self).remaining_bytes()) {
                Ok(v) => r == Ok::<i64, ParseError>(v.0) && final(self).position() == old(
                    self,
                ).position() + v.1,
                Err(e) => r == Err::<i64, ParseError>(e) && final(self).position() == old(
                    self,
                ).position(),
            },
    {
        let ghost c0 = *self;
        let ghost rem = self.remaining_bytes();
        let mut i: usize = 0;
        let mut value: u64 = 0;
        let mut mult: u64 = 1;
        proof {
            lemma_pow128_values();
            assert(rem.take(0) =~= Seq::<u8>::empty());
        }
        loop
            invariant
                *self == c0,
                c0 == *old(self),
                c0.wf(),
                rem == c0.remaining_bytes(),
                0 <= i <= 9,
                i <= rem.len(),
                forall|j: int| 0 <= j < i ==> rem[j] >= 128,
                value == chunks_value(rem.take(i as int)),
                mult == pow128(i as nat),
                value < mult,
            decreases 10 - i,
        {
            proof {
                lemma_pow128_values();
                lemma_pow128_increases(i as nat, 9);
                if i <= 8 {
                    lemma_pow128_increases(i as nat, 8);
                }
            }
            if !self.has(i + 1) {
                // The first `i` bytes were all continuation bytes and there
                // is no byte after them: the window is the whole remainder.
                proof {
                    assert(rem.len() == i);
                    assert(varint_window(rem) =~= rem);
                    lemma_all_continuation_no_terminator(rem);
                }
                return Err(ParseError::TruncatedInput);
            }
            let b = self.byte_at(i);
            proof {
                assert(rem[i as int] == b);
            }
            if b < 128 {
                let chunk = b as u64;
                proof {
                    let w = varint_window(rem);
                    assert(w.len() == if rem.len() <= 10 { rem.len() as int } else { 10 });
                    assert(forall|j: int| 0 <= j < w.len() ==> w[j] == rem[j]);
                    lemma_chain_split(w, i as int);
                    assert(w.take(i as int) =~= rem.take(i as int));
                    lemma_chunks_value_bound(rem.take(i as int));
                }
                if i == 9 && chunk >= 2 {
                    // A tenth chunk above one pushes the value past 64 bits.
                    proof {
                        let w = varint_window(rem);
                        assert(pow128(9) * (w[9] as int) >= 0x8000_0000_0000_0000 * 2)
                            by (nonlinear_arith)
                            requires
                                pow128(9) == 0x8000_0000_0000_0000,
                                w[9] as int >= 2,
                        ;
                    }
                    return Err(ParseError::MalformedVarint);
                }
                proof {
                    if i == 9 {
                        assert(mult == 0x8000_0000_0000_0000);
                        assert(chunk * mult <= 0x8000_0000_0000_0000) by (nonlinear_arith)
                            requires
                                chunk <= 1,
                                mult == 0x8000_0000_0000_0000,
                        ;
                    } else {
                        assert(mult <= 0x100_0000_0000_0000);
                        assert(chunk * mult <= 127 * 0x100_0000_0000_0000) by (nonlinear_arith)
                            requires
                                0 <= chunk <= 127,
                                0 <= mult <= 0x100_0000_0000_0000,
                        ;
                    }
                    assert(chunk * mult >= 0) by (nonlinear_arith)
                        requires
                            chunk >= 0,
                            mult >= 1,
                    ;
                }
                let total = value + chunk * mult;
                proof {
                    let w = varint_window(rem);
                    assert(value == chunks_value(w.take(i as int)));
                    assert(chunk as int == w[i as int] as int);
                    assert((chunk as int) * (mult as int) == pow128(i as nat) * (
                    w[i as int] as int)) by (nonlinear_arith)
                        requires
                            chunk as int == w[i as int] as int,
                            mult as int == pow128(i as nat),
                    ;
                    assert(uvarint_value(w) == total);
                }
                self.advance(i + 1);
                let half = total / 2;
                if total % 2 == 0 {
                    return Ok(half as i64);
                } else {
                    return Ok(-(half as i64) - 1);
                }
            } else {
                if i == 9 {
                    // Ten continuation bytes: the window has no terminator.
                    proof {
                        let w = varint_window(rem);
                        assert(rem.len() >= 10);
                        assert(w.len() == 10);
                        assert(forall|j: int| 0 <= j < 10 ==> w[j] == rem[j]);
                        lemma_all_continuation_no_terminator(w);
                    }
                    return Err(ParseError::MalformedVarint);
                }
                let chunk = (b % 128) as u64;
                proof {
                    assert(mult <= 0x100_0000_0000_0000);
                    assert(chunk * mult <= 127 * 0x100_0000_0000_0000) by (nonlinear_arith)
                        requires
                            0 <= chunk <= 127,
                            0 <= mult <= 0x100_0000_0000_0000,
                    ;
                    assert(chunk * mult >= 0) by (nonlinear_arith)
                        requires
                            chunk >= 0,
                            mult >= 1,
                    ;
                    lemma_chunks_value_snoc(rem, i as int);
                    assert(chunk as int == (rem[i as int] as int) % 128);
                    assert((chunk as int) * (mult as int) == pow128(i as nat) * ((
                    rem[i as int] as int) % 128)) by (nonlinear_arith)
                        requires
                            chunk as int == (rem[i as int] as int) % 128,
                            mult as int == pow128(i as nat),
                    ;
                    assert(value + chunk * mult < 128 * mult) by (nonlinear_arith)
                        requires
                            value < mult,
                            0 <= chunk <= 127,
                            mult >= 1,
                    ;
                }
                value = value + chunk * mult;
                mult = mult * 128;
                i = i + 1;
            }
        }
    }
}

// ------------------------------------------------------------------
// The reader trait.
// ------------------------------------------------------------------

/// Anything signed varints can be read from.
pub trait Varint {
    /// The bytes the next read consumes from.
    spec fn varint_bytes(&self) -> Seq<u8>;

    spec fn varint_wf(&self) -> bool;

    /// Decode one signed zig-zag varint from the head of the input,
    /// consuming exactly the chain's bytes on success and nothing on
    /// failure.
    fn get_signed_varint(&mut self) -> (r: Result<i64, ParseError>)
        requires
            old(self).varint_wf(),
        ensures
            final(self).varint_wf(),
            match spec_decode_varint(old(self).varint_bytes()) {
                Ok(v) => r == Ok::<i64, ParseError>(v.0) && final(self).varint_bytes() == old(
                    self,
                ).varint_bytes().skip(v.1),
                Err(e) => r == Err::<i64, ParseError>(e) && final(self).varint_bytes() == old(
                    self,
                ).varint_bytes(),
            },
    ;
}

impl<'a> Varint for Cursor<'a> {
    open spec fn varint_bytes(&self) -> Seq<u8> {
        self.remaining_bytes()
    }

    open spec fn varint_wf(&self) -> bool {
        self.wf()
    }

    fn get_signed_varint(&mut self) -> (r: Result<i64, ParseError>) {
        let r = self.read_signed_varint();
        proof {
            match spec_decode_varint(old(self).remaining_bytes()) {
                Ok(v) => {
                    lemma_decode_varint_bounds(old(self).remaining_bytes());
                    assert(self.data().skip(self.position()) =~= old(self).data().skip(
                        old(self).position(),
                    ).skip(v.1));
                },
                Err(_) => {
                    assert(self.remaining_bytes() =~= old(self).remaining_bytes());
                },
            }
        }
        r
    }
}

} // verus!
