//! Strings on the wire, and the few std character conversions the codec
//! stands on.

use vstd::prelude::*;
use vstd::utf8::is_scalar;

use crate::bytes::{
    chars_fit, dec_chars, dec_chars_n, dec_u16, emit_u16, emit_u32, enc_char_payload, enc_chars,
    enc_u16, enc_u32, read_u16, read_u32,
};

verus! {

/// Relies on str::chars: iterating a string slice yields exactly its
/// characters in order, which is this crate's view of a string.
#[verifier::external_body]
pub fn chars_vec(s: &str) -> (r: Vec<char>)
    ensures
        r@ == s@,
{
    s.chars().collect()
}

/// Relies on String's FromIterator over char: collecting characters builds
/// the string made of exactly those characters in order.
#[verifier::external_body]
pub fn string_from_chars(cs: &Vec<char>) -> (r: String)
    ensures
        r@ == cs@,
{
    cs.iter().collect()
}

/// Relies on char::from_u32: it returns the character of a Unicode scalar
/// value and None exactly for values outside the scalar range (surrogates
/// and values beyond the highest code point).
#[verifier::external_body]
pub fn char_from_u32(x: u32) -> (r: Option<char>)
    ensures
        r == if is_scalar(x) {
            Some(x as char)
        } else {
            None::<char>
        },
{
    char::from_u32(x)
}

/// Each character occupies exactly 4 bytes of the payload.
pub proof fn lemma_enc_char_payload_len(cs: Seq<char>)
    ensures
        enc_char_payload(cs).len() == 4 * cs.len(),
    decreases cs.len(),
{
    if cs.len() > 0 {
        lemma_enc_char_payload_len(cs.drop_first());
    }
}

/// `enc_char_payload` grows one character at a time at the back.
pub proof fn lemma_enc_char_payload_push(cs: Seq<char>, c: char)
    ensures
        enc_char_payload(cs.push(c)) == enc_char_payload(cs) + enc_u32(c as u32),
    decreases cs.len(),
{
    let snoc = cs.push(c);
    assert(snoc.len() > 0);
    assert(enc_char_payload(snoc) == enc_u32(snoc[0] as u32) + enc_char_payload(snoc.drop_first()));
    if cs.len() == 0 {
        assert(snoc[0] == c);
        assert(snoc.drop_first() =~= Seq::<char>::empty());
        assert(enc_char_payload(Seq::<char>::empty()) == Seq::<u8>::empty());
        assert(enc_char_payload(snoc) =~= enc_char_payload(cs) + enc_u32(c as u32));
    } else {
        assert(snoc[0] == cs[0]);
        assert(snoc.drop_first() =~= cs.drop_first().push(c));
        lemma_enc_char_payload_push(cs.drop_first(), c);
        assert(enc_char_payload(cs) == enc_u32(cs[0] as u32) + enc_char_payload(cs.drop_first()));
        assert(enc_char_payload(snoc) =~= enc_char_payload(cs) + enc_u32(c as u32));
    }
}

/// Append the wire form of a string: its character count, then each
/// character as a 4-byte scalar value.
pub fn emit_chars(out: &mut Vec<u8>, s: &str)
    requires
        chars_fit(s@),
    ensures
        final(out)@ == old(out)@ + enc_chars(s@),
{
    let cs = chars_vec(s);
    let n: u16 = cs.len() as u16;
    emit_u16(out, n);
    let ghost base = out@;
    let mut i: usize = 0;
    while i < cs.len()
        invariant
            i <= cs.len(),
            cs@ == s@,
            n == cs@.len(),
            out@ == base + enc_char_payload(cs@.subrange(0, i as int)),
        decreases cs.len() - i,
    {
        let c = cs[i];
        emit_u32(out, c as u32);
        i += 1;
        proof {
            assert(cs@.subrange(0, i - 1).push(c) =~= cs@.subrange(0, i as int));
            lemma_enc_char_payload_push(cs@.subrange(0, i - 1), c);
            assert(base + enc_char_payload(cs@.subrange(0, i - 1)) + enc_u32(c as u32)
                =~= base + enc_char_payload(cs@.subrange(0, i as int)));
        }
    }
    proof {
        assert(cs@.subrange(0, cs@.len() as int) =~= cs@);
        assert(old(out)@ + enc_u16(n) + enc_char_payload(s@) =~= old(out)@ + enc_chars(s@));
    }
}

/// Read a wire string: fails on a short buffer or a character value
/// outside the Unicode scalar range, leaving the cursor where it was.
pub fn read_string(buf: &[u8], pos: &mut usize) -> (r: Option<String>)
    requires
        *old(pos) <= buf@.len(),
    ensures
        *final(pos) <= buf@.len(),
        match r {
            Some(s) => {
                &&& dec_chars(buf@.skip(*old(pos) as int)) == Some((s@, buf@.skip(*final(pos) as int)))
                &&& *final(pos) >= *old(pos)
            },
            None => {
                &&& dec_chars(buf@.skip(*old(pos) as int)) is None
                &&& *final(pos) == *old(pos)
            },
        },
{
    let cs = match read_chars(buf, pos) {
        Some(cs) => cs,
        None => {
            return None;
        },
    };
    Some(string_from_chars(&cs))
}

/// Read a wire string as its characters.
pub fn read_chars(buf: &[u8], pos: &mut usize) -> (r: Option<Vec<char>>)
    requires
        *old(pos) <= buf@.len(),
    ensures
        *final(pos) <= buf@.len(),
        match r {
            Some(cs) => {
                &&& dec_chars(buf@.skip(*old(pos) as int)) == Some((cs@, buf@.skip(*final(pos) as int)))
                &&& *final(pos) >= *old(pos)
            },
            None => {
                &&& dec_chars(buf@.skip(*old(pos) as int)) is None
                &&& *final(pos) == *old(pos)
            },
        },
{
    let p0: usize = *pos;
    let n = match read_u16(buf, pos) {
        Some(n) => n,
        None => {
            return None;
        },
    };
    let ghost rest1 = buf@.skip(*pos as int);
    let mut acc: Vec<char> = Vec::new();
    let mut i: usize = 0;
    while i < n as usize
        invariant
            i <= n,
            p0 == *old(pos),
            p0 <= *pos <= buf@.len(),
            dec_u16(buf@.skip(p0 as int)) == Some((n, rest1)),
            acc@.len() == i,
            match dec_chars_n(n - i, buf@.skip(*pos as int)) {
                Some(t) => dec_chars_n(n as int, rest1) == Some((acc@ + t.0, t.1)),
                None => dec_chars_n(n as int, rest1) is None,
            },
        decreases n - i,
    {
        let ghost p_here = *pos;
        let x = match read_u32(buf, pos) {
            Some(x) => x,
            None => {
                proof {
                    assert(dec_chars_n(n - i, buf@.skip(p_here as int)) is None);
                }
                *pos = p0;
                return None;
            },
        };
        let c = match char_from_u32(x) {
            Some(c) => c,
            None => {
                proof {
                    assert(dec_chars_n(n - i, buf@.skip(p_here as int)) is None);
                }
                *pos = p0;
                return None;
            },
        };
        let ghost prev_acc = acc@;
        acc.push(c);
        i += 1;
        proof {
            assert(dec_chars_n(n - (i - 1), buf@.skip(p_here as int)) == (
                match dec_chars_n(n - i, buf@.skip(*pos as int)) {
                    Some(t) => Some((seq![c] + t.0, t.1)),
                    None => None::<(Seq<char>, Seq<u8>)>,
                }
            ));
            if dec_chars_n(n - i, buf@.skip(*pos as int)) is Some {
                let t = dec_chars_n(n - i, buf@.skip(*pos as int))->Some_0;
                assert(prev_acc + (seq![c] + t.0) =~= acc@ + t.0);
            }
        }
    }
    proof {
        assert(dec_chars_n(0, buf@.skip(*pos as int)) == Some((Seq::<char>::empty(), buf@.skip(*pos as int))));
        assert(acc@ + Seq::<char>::empty() =~= acc@);
    }
    Some(acc)
}

/// Compare decoded characters against a string slice.
pub fn chars_eq(a: &Vec<char>, s: &str) -> (r: bool)
    ensures
        r == (a@ == s@),
{
    let b = chars_vec(s);
    if a.len() != b.len() {
        proof {
            assert(a@ != s@);
        }
        return false;
    }
    let mut i: usize = 0;
    while i < a.len()
        invariant
            i <= a@.len(),
            a@.len() == b@.len(),
            b@ == s@,
            forall|j: int| 0 <= j < i ==> a@[j] == b@[j],
        decreases a@.len() - i,
    {
        if a[i] != b[i] {
            proof {
                assert(a@[i as int] != s@[i as int]);
            }
            return false;
        }
        i += 1;
    }
    proof {
        assert(a@ =~= s@);
    }
    true
}

} // verus!
