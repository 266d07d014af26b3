//! Checking that a byte string is well-formed UTF-8.
use vstd::prelude::*;
use vstd::utf8::*;

verus! {

/// Width in bytes of the scalar whose encoding starts at `bytes[i]`, or 0
/// when no well-formed encoding starts there (a bad leading or continuation
/// byte, a truncated sequence, an overlong form or a surrogate).
fn scalar_width_at(bytes: &[u8], i: usize) -> (w: usize)
    requires
        i < bytes@.len(),
    ensures
        w == 0 <==> !valid_first_scalar(bytes@.subrange(i as int, bytes@.len() as int)),
        w != 0 ==> w as int == length_of_first_scalar(
            bytes@.subrange(i as int, bytes@.len() as int),
        ),
{
    let ghost rest = bytes@.subrange(i as int, bytes@.len() as int);
    let avail: usize = bytes.len() - i;
    let b0 = bytes[i];
    let w: usize;
    let cp: u32;
    if b0 <= 0x7f {
        w = 1;
        cp = (b0 & 0x7f) as u32;
    } else if 0xc0 <= b0 && b0 <= 0xdf {
        if avail < 2 {
            return 0;
        }
        let b1 = bytes[i + 1];
        if !(0x80 <= b1 && b1 <= 0xbf) {
            return 0;
        }
        w = 2;
        cp = (((b0 & 0x1f) as u32) << 6) | ((b1 & 0x3f) as u32);
    } else if 0xe0 <= b0 && b0 <= 0xef {
        if avail < 3 {
            return 0;
        }
        let b1 = bytes[i + 1];
        let b2 = bytes[i + 2];
        if !(0x80 <= b1 && b1 <= 0xbf && 0x80 <= b2 && b2 <= 0xbf) {
            return 0;
        }
        w = 3;
        cp = (((b0 & 0x0f) as u32) << 12) | (((b1 & 0x3f) as u32) << 6) | ((b2 & 0x3f) as u32);
    } else if 0xf0 <= b0 && b0 <= 0xf7 {
        if avail < 4 {
            return 0;
        }
        let b1 = bytes[i + 1];
        let b2 = bytes[i + 2];
        let b3 = bytes[i + 3];
        if !(0x80 <= b1 && b1 <= 0xbf && 0x80 <= b2 && b2 <= 0xbf && 0x80 <= b3 && b3 <= 0xbf) {
            return 0;
        }
        w = 4;
        cp = (((b0 & 0x07) as u32) << 18) | (((b1 & 0x3f) as u32) << 12) | (((b2 & 0x3f) as u32)
            << 6) | ((b3 & 0x3f) as u32);
    } else {
        return 0;
    }
    assert(valid_leading_and_continuation_bytes_first_codepoint(rest));
    assert(cp == decode_first_codepoint(rest));
    assert(w as int == length_of_first_codepoint(rest));
    let overlong = (w == 2 && cp < 0x80) || (w == 3 && cp < 0x800) || (w == 4 && (cp < 0x10000
        || cp > 0x10ffff));
    if overlong || (0xd800 <= cp && cp <= 0xdfff) {
        return 0;
    }
    w
}

/// Whether `bytes` is well-formed UTF-8.
pub fn is_valid_utf8(bytes: &[u8]) -> (r: bool)
    ensures
        r == valid_utf8(bytes@),
{
    let len = bytes.len();
    let mut i: usize = 0;
    assert(bytes@.subrange(0, 0) =~= Seq::<u8>::empty());
    while i < len
        invariant
            len == bytes@.len(),
            partial_valid_utf8(bytes@, i as int),
        decreases len - i,
    {
        let w = scalar_width_at(bytes, i);
        if w == 0 {
            proof {
                partial_valid_partial_invalid_utf8(bytes@, i as int);
            }
            return false;
        }
        proof {
            partial_valid_utf8_extend(bytes@, i as int);
        }
        i = i + w;
    }
    assert(bytes@.subrange(0, len as int) =~= bytes@);
    true
}

/// Decoding distributes over the concatenation of two well-formed strings.
pub proof fn lemma_decode_concat(b1: Seq<u8>, b2: Seq<u8>)
    requires
        valid_utf8(b1),
        valid_utf8(b2),
    ensures
        valid_utf8(b1 + b2),
        decode_utf8(b1 + b2) == decode_utf8(b1) + decode_utf8(b2),
    decreases b1.len(),
{
    valid_utf8_concat(b1, b2);
    if b1.len() == 0 {
        assert(b1 + b2 =~= b2);
        assert(decode_utf8(b1) + decode_utf8(b2) =~= decode_utf8(b2));
    } else {
        let rest = pop_first_scalar(b1);
        assert(rest.len() < b1.len());
        lemma_decode_concat(rest, b2);
        assert(pop_first_scalar(b1 + b2) =~= rest + b2);
        assert(decode_first_scalar(b1 + b2) == decode_first_scalar(b1));
        assert(decode_utf8(b1 + b2) =~= decode_utf8(b1) + decode_utf8(b2));
    }
}

} // verus!
