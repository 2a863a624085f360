//! Byte-level primitives of the message envelope encoding: big-endian
//! integers, booleans, and character strings, each with an encoder, a
//! decoder, and a proof that the decoder inverts the encoder.

use vstd::prelude::*;
use vstd::utf8::is_scalar;

verus! {

// ---------------------------------------------------------------------------
// Encoding specifications
// ---------------------------------------------------------------------------

pub open spec fn enc_u8(x: u8) -> Seq<u8> {
    seq![x]
}

pub open spec fn enc_u16(x: u16) -> Seq<u8> {
    seq![(x / 256) as u8, (x % 256) as u8]
}

pub open spec fn enc_u32(x: u32) -> Seq<u8> {
    enc_u16((x / 0x10000) as u16) + enc_u16((x % 0x10000) as u16)
}

pub open spec fn enc_u64(x: u64) -> Seq<u8> {
    enc_u32((x / 0x100000000) as u32) + enc_u32((x % 0x100000000) as u32)
}

pub open spec fn enc_bool(x: bool) -> Seq<u8> {
    seq![if x { 1u8 } else { 0u8 }]
}

/// Characters are sent as their Unicode scalar value, 4 bytes each.
pub open spec fn enc_char_payload(cs: Seq<char>) -> Seq<u8>
    decreases cs.len(),
{
    if cs.len() == 0 {
        Seq::empty()
    } else {
        enc_u32(cs[0] as u32) + enc_char_payload(cs.drop_first())
    }
}

/// A string is a 2-byte character count followed by its characters.
pub open spec fn enc_chars(cs: Seq<char>) -> Seq<u8> {
    enc_u16(cs.len() as u16) + enc_char_payload(cs)
}

/// Whether a string fits the wire's 2-byte character count.
pub open spec fn chars_fit(cs: Seq<char>) -> bool {
    cs.len() <= 65535
}

// ---------------------------------------------------------------------------
// Decoding specifications: each consumes a prefix and yields the remainder
// ---------------------------------------------------------------------------

pub open spec fn dec_u8(b: Seq<u8>) -> Option<(u8, Seq<u8>)> {
    if b.len() >= 1 {
        Some((b[0], b.skip(1)))
    } else {
        None
    }
}

pub open spec fn dec_u16(b: Seq<u8>) -> Option<(u16, Seq<u8>)> {
    if b.len() >= 2 {
        Some(((b[0] * 256 + b[1]) as u16, b.skip(2)))
    } else {
        None
    }
}

pub open spec fn dec_u32(b: Seq<u8>) -> Option<(u32, Seq<u8>)> {
    match dec_u16(b) {
        Some((hi, r1)) => match dec_u16(r1) {
            Some((lo, r2)) => Some(((hi * 0x10000 + lo) as u32, r2)),
            None => None,
        },
        None => None,
    }
}

pub open spec fn dec_u64(b: Seq<u8>) -> Option<(u64, Seq<u8>)> {
    match dec_u32(b) {
        Some((hi, r1)) => match dec_u32(r1) {
            Some((lo, r2)) => Some(((hi * 0x100000000 + lo) as u64, r2)),
            None => None,
        },
        None => None,
    }
}

/// Only the bytes 0 and 1 decode as booleans, so the encoding is canonical.
pub open spec fn dec_bool(b: Seq<u8>) -> Option<(bool, Seq<u8>)> {
    match dec_u8(b) {
        Some((x, r)) => if x == 0 {
            Some((false, r))
        } else if x == 1 {
            Some((true, r))
        } else {
            None
        },
        None => None,
    }
}

/// `n` characters, each a Unicode scalar; a value outside the scalar range
/// is malformed.
pub open spec fn dec_chars_n(n: int, b: Seq<u8>) -> Option<(Seq<char>, Seq<u8>)>
    decreases n,
{
    if n <= 0 {
        Some((Seq::empty(), b))
    } else {
        match dec_u32(b) {
            Some((x, r1)) => if is_scalar(x) {
                match dec_chars_n(n - 1, r1) {
                    Some((cs, r2)) => Some((seq![x as char] + cs, r2)),
                    None => None,
                }
            } else {
                None
            },
            None => None,
        }
    }
}

pub open spec fn dec_chars(b: Seq<u8>) -> Option<(Seq<char>, Seq<u8>)> {
    match dec_u16(b) {
        Some((n, r1)) => dec_chars_n(n as int, r1),
        None => None,
    }
}

// ---------------------------------------------------------------------------
// Round trips: decoding an encoding yields the value and leaves the rest
// ---------------------------------------------------------------------------

pub proof fn lemma_dec_enc_u8(x: u8, rest: Seq<u8>)
    ensures
        dec_u8(enc_u8(x) + rest) == Some((x, rest)),
{
    let b = enc_u8(x) + rest;
    assert(b.skip(1) =~= rest);
}

pub proof fn lemma_dec_enc_u16(x: u16, rest: Seq<u8>)
    ensures
        dec_u16(enc_u16(x) + rest) == Some((x, rest)),
{
    let b = enc_u16(x) + rest;
    assert(b[0] == (x / 256) as u8 && b[1] == (x % 256) as u8);
    assert(b[0] * 256 + b[1] == x) by (nonlinear_arith)
        requires
            b[0] == x / 256,
            b[1] == x % 256,
    ;
    assert(b.skip(2) =~= rest);
}

pub proof fn lemma_dec_enc_u32(x: u32, rest: Seq<u8>)
    ensures
        dec_u32(enc_u32(x) + rest) == Some((x, rest)),
{
    let hi = (x / 0x10000) as u16;
    let lo = (x % 0x10000) as u16;
    assert(enc_u32(x) + rest =~= enc_u16(hi) + (enc_u16(lo) + rest));
    lemma_dec_enc_u16(hi, enc_u16(lo) + rest);
    lemma_dec_enc_u16(lo, rest);
    assert(hi * 0x10000 + lo == x) by (nonlinear_arith)
        requires
            hi == x / 0x10000,
            lo == x % 0x10000,
    ;
}

pub proof fn lemma_dec_enc_u64(x: u64, rest: Seq<u8>)
    ensures
        dec_u64(enc_u64(x) + rest) == Some((x, rest)),
{
    let hi = (x / 0x100000000) as u32;
    let lo = (x % 0x100000000) as u32;
    assert(enc_u64(x) + rest =~= enc_u32(hi) + (enc_u32(lo) + rest));
    lemma_dec_enc_u32(hi, enc_u32(lo) + rest);
    lemma_dec_enc_u32(lo, rest);
    assert(hi * 0x100000000 + lo == x) by (nonlinear_arith)
        requires
            hi == x / 0x100000000,
            lo == x % 0x100000000,
    ;
}

pub proof fn lemma_dec_enc_bool(x: bool, rest: Seq<u8>)
    ensures
        dec_bool(enc_bool(x) + rest) == Some((x, rest)),
{
    lemma_dec_enc_u8(if x { 1u8 } else { 0u8 }, rest);
    assert(enc_bool(x) =~= enc_u8(if x { 1u8 } else { 0u8 }));
}

pub proof fn lemma_dec_enc_chars_n(cs: Seq<char>, rest: Seq<u8>)
    ensures
        dec_chars_n(cs.len() as int, enc_char_payload(cs) + rest) == Some((cs, rest)),
    decreases cs.len(),
{
    if cs.len() == 0 {
        assert(enc_char_payload(cs) + rest =~= rest);
    } else {
        let c = cs[0];
        let tail = cs.drop_first();
        assert(enc_char_payload(cs) + rest =~= enc_u32(c as u32) + (enc_char_payload(tail) + rest));
        lemma_dec_enc_u32(c as u32, enc_char_payload(tail) + rest);
        lemma_dec_enc_chars_n(tail, rest);
        vstd::utf8::char_is_scalar(c);
        vstd::utf8::char_u32_cast(c, c as u32);
        assert(is_scalar(c as u32));
        assert((c as u32) as char == c);
        assert(seq![(c as u32) as char] + tail =~= cs);
    }
}

pub proof fn lemma_dec_enc_chars(cs: Seq<char>, rest: Seq<u8>)
    requires
        chars_fit(cs),
    ensures
        dec_chars(enc_chars(cs) + rest) == Some((cs, rest)),
{
    let n = cs.len() as u16;
    assert(enc_chars(cs) + rest =~= enc_u16(n) + (enc_char_payload(cs) + rest));
    lemma_dec_enc_u16(n, enc_char_payload(cs) + rest);
    lemma_dec_enc_chars_n(cs, rest);
}

// ---------------------------------------------------------------------------
// Executable encoders, appending onto an output buffer
// ---------------------------------------------------------------------------

pub fn emit_u8(out: &mut Vec<u8>, x: u8)
    ensures
        final(out)@ == old(out)@ + enc_u8(x),
{
    out.push(x);
    proof {
        assert(out@ =~= old(out)@ + enc_u8(x));
    }
}

pub fn emit_u16(out: &mut Vec<u8>, x: u16)
    ensures
        final(out)@ == old(out)@ + enc_u16(x),
{
    out.push((x / 256) as u8);
    out.push((x % 256) as u8);
    proof {
        assert(out@ =~= old(out)@ + enc_u16(x));
    }
}

pub fn emit_u32(out: &mut Vec<u8>, x: u32)
    ensures
        final(out)@ == old(out)@ + enc_u32(x),
{
    emit_u16(out, (x / 0x10000) as u16);
    emit_u16(out, (x % 0x10000) as u16);
    proof {
        assert(out@ =~= old(out)@ + enc_u32(x));
    }
}

pub fn emit_u64(out: &mut Vec<u8>, x: u64)
    ensures
        final(out)@ == old(out)@ + enc_u64(x),
{
    emit_u32(out, (x / 0x100000000) as u32);
    emit_u32(out, (x % 0x100000000) as u32);
    proof {
        assert(out@ =~= old(out)@ + enc_u64(x));
    }
}

pub fn emit_bool(out: &mut Vec<u8>, x: bool)
    ensures
        final(out)@ == old(out)@ + enc_bool(x),
{
    out.push(if x { 1u8 } else { 0u8 });
    proof {
        assert(out@ =~= old(out)@ + enc_bool(x));
    }
}

// ---------------------------------------------------------------------------
// Executable decoders over a cursor into the input buffer
// ---------------------------------------------------------------------------

pub fn read_u8(buf: &[u8], pos: &mut usize) -> (r: Option<u8>)
    requires
        *old(pos) <= buf@.len(),
    ensures
        *final(pos) <= buf@.len(),
        match r {
            Some(x) => {
                &&& dec_u8(buf@.skip(*old(pos) as int)) == Some((x, buf@.skip(*final(pos) as int)))
                &&& *final(pos) == *old(pos) + 1
            },
            None => {
                &&& dec_u8(buf@.skip(*old(pos) as int)) is None
                &&& *final(pos) == *old(pos)
            },
        },
{
    if buf.len() - *pos >= 1 {
        let x = buf[*pos];
        *pos += 1;
        proof {
            assert(buf@.skip(*old(pos) as int)[0] == x);
            assert(buf@.skip(*old(pos) as int).skip(1) =~= buf@.skip(*pos as int));
        }
        Some(x)
    } else {
        None
    }
}

pub fn read_u16(buf: &[u8], pos: &mut usize) -> (r: Option<u16>)
    requires
        *old(pos) <= buf@.len(),
    ensures
        *final(pos) <= buf@.len(),
        match r {
            Some(x) => {
                &&& dec_u16(buf@.skip(*old(pos) as int)) == Some((x, buf@.skip(*final(pos) as int)))
                &&& *final(pos) == *old(pos) + 2
            },
            None => {
                &&& dec_u16(buf@.skip(*old(pos) as int)) is None
                &&& *final(pos) == *old(pos)
            },
        },
{
    if buf.len() - *pos >= 2 {
        let b0 = buf[*pos];
        let b1 = buf[*pos + 1];
        let x: u16 = (b0 as u16) * 256 + (b1 as u16);
        *pos += 2;
        proof {
            assert(buf@.skip(*old(pos) as int)[0] == b0);
            assert(buf@.skip(*old(pos) as int)[1] == b1);
            assert(buf@.skip(*old(pos) as int).skip(2) =~= buf@.skip(*pos as int));
        }
        Some(x)
    } else {
        None
    }
}

pub fn read_u32(buf: &[u8], pos: &mut usize) -> (r: Option<u32>)
    requires
        *old(pos) <= buf@.len(),
    ensures
        *final(pos) <= buf@.len(),
        match r {
            Some(x) => {
                &&& dec_u32(buf@.skip(*old(pos) as int)) == Some((x, buf@.skip(*final(pos) as int)))
                &&& *final(pos) == *old(pos) + 4
            },
            None => {
                &&& dec_u32(buf@.skip(*old(pos) as int)) is None
                &&& *final(pos) == *old(pos)
            },
        },
{
    let ghost p0 = *pos;
    match read_u16(buf, pos) {
        Some(hi) => match read_u16(buf, pos) {
            Some(lo) => {
                let x: u32 = (hi as u32) * 0x10000 + (lo as u32);
                Some(x)
            },
            None => {
                proof {
                    assert(dec_u32(buf@.skip(p0 as int)) is None);
                }
                *pos -= 2;
                proof {
                    assert(*pos == p0);
                }
                None
            },
        },
        None => None,
    }
}

pub fn read_u64(buf: &[u8], pos: &mut usize) -> (r: Option<u64>)
    requires
        *old(pos) <= buf@.len(),
    ensures
        *final(pos) <= buf@.len(),
        match r {
            Some(x) => {
                &&& dec_u64(buf@.skip(*old(pos) as int)) == Some((x, buf@.skip(*final(pos) as int)))
                &&& *final(pos) == *old(pos) + 8
            },
            None => {
                &&& dec_u64(buf@.skip(*old(pos) as int)) is None
                &&& *final(pos) == *old(pos)
            },
        },
{
    let ghost p0 = *pos;
    match read_u32(buf, pos) {
        Some(hi) => match read_u32(buf, pos) {
            Some(lo) => {
                let x: u64 = (hi as u64) * 0x100000000 + (lo as u64);
                Some(x)
            },
            None => {
                proof {
                    assert(dec_u64(buf@.skip(p0 as int)) is None);
                }
                *pos -= 4;
                proof {
                    assert(*pos == p0);
                }
                None
            },
        },
        None => None,
    }
}

pub fn read_bool(buf: &[u8], pos: &mut usize) -> (r: Option<bool>)
    requires
        *old(pos) <= buf@.len(),
    ensures
        *final(pos) <= buf@.len(),
        match r {
            Some(x) => {
                &&& dec_bool(buf@.skip(*old(pos) as int)) == Some((x, buf@.skip(*final(pos) as int)))
                &&& *final(pos) == *old(pos) + 1
            },
            None => {
                &&& dec_bool(buf@.skip(*old(pos) as int)) is None
                &&& *final(pos) == *old(pos)
            },
        },
{
    let ghost p0 = *pos;
    match read_u8(buf, pos) {
        Some(x) => {
            if x == 0 {
                Some(false)
            } else if x == 1 {
                Some(true)
            } else {
                *pos -= 1;
                proof {
                    assert(*pos == p0);
                }
                None
            }
        },
        None => None,
    }
}

} // verus!
