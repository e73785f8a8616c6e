//! Checking that bytes read from a connection are UTF-8 text.

use vstd::prelude::*;
use vstd::utf8::*;

verus! {

fn is_continuation(b: u8) -> (r: bool)
    ensures
        r == is_continuation_byte(b),
{
    0x80 <= b && b <= 0xbf
}

/// Width in bytes of the scalar value encoded at index `i`, or 0 when the bytes
/// from `i` on do not start with a well-formed scalar value.
fn scalar_width(bytes: &[u8], i: usize) -> (n: usize)
    requires
        i < bytes.len(),
    ensures
        valid_first_scalar(bytes@.subrange(i as int, bytes@.len() as int)) ==> n
            == length_of_first_scalar(bytes@.subrange(i as int, bytes@.len() as int)) && 1 <= n
            && i + n <= bytes.len(),
        !valid_first_scalar(bytes@.subrange(i as int, bytes@.len() as int)) ==> n == 0,
{
    let len: usize = bytes.len();
    let avail: usize = len - i;
    let ghost rest = bytes@.subrange(i as int, len as int);
    let b0: u8 = bytes[i];
    assert(rest[0] == b0);
    if b0 <= 0x7f {
        assert((b0 & 0x7f) as u32 <= 0x7f) by (bit_vector);
        1
    } else if 0xc0 <= b0 && b0 <= 0xdf {
        if avail < 2 {
            return 0;
        }
        let b1: u8 = bytes[i + 1];
        assert(rest[1] == b1);
        if !is_continuation(b1) {
            return 0;
        }
        let point: u32 = (((b0 & 0x1f) as u32) << 6) | ((b1 & 0x3f) as u32);
        assert(((((b0 & 0x1f) as u32) << 6) | ((b1 & 0x3f) as u32)) <= 0x7ff) by (bit_vector);
        if 0x80 <= point {
            2
        } else {
            0
        }
    } else if 0xe0 <= b0 && b0 <= 0xef {
        if avail < 3 {
            return 0;
        }
        let b1: u8 = bytes[i + 1];
        let b2: u8 = bytes[i + 2];
        assert(rest[1] == b1 && rest[2] == b2);
        if !is_continuation(b1) || !is_continuation(b2) {
            return 0;
        }
        let point: u32 = (((b0 & 0x0f) as u32) << 12) | (((b1 & 0x3f) as u32) << 6) | ((b2
            & 0x3f) as u32);
        if 0x800 <= point && !(0xd800 <= point && point <= 0xdfff) {
            3
        } else {
            0
        }
    } else if 0xf0 <= b0 && b0 <= 0xf7 {
        if avail < 4 {
            return 0;
        }
        let b1: u8 = bytes[i + 1];
        let b2: u8 = bytes[i + 2];
        let b3: u8 = bytes[i + 3];
        assert(rest[1] == b1 && rest[2] == b2 && rest[3] == b3);
        if !is_continuation(b1) || !is_continuation(b2) || !is_continuation(b3) {
            return 0;
        }
        let point: u32 = (((b0 & 0x07) as u32) << 18) | (((b1 & 0x3f) as u32) << 12) | (((b2
            & 0x3f) as u32) << 6) | ((b3 & 0x3f) as u32);
        if 0x10000 <= point && point <= 0x10ffff {
            4
        } else {
            0
        }
    } else {
        0
    }
}

/// Whether `bytes` is well-formed UTF-8.
pub fn is_utf8(bytes: &[u8]) -> (ok: bool)
    ensures
        ok == valid_utf8(bytes@),
{
    let len: usize = bytes.len();
    let mut i: usize = 0;
    while i < len
        invariant
            len == bytes.len(),
            i <= len,
            partial_valid_utf8(bytes@, i as int),
        decreases len - i,
    {
        let width: usize = scalar_width(bytes, i);
        if width == 0 {
            proof {
                assert(!valid_utf8(bytes@.subrange(i as int, len as int)));
                partial_valid_partial_invalid_utf8(bytes@, i as int);
            }
            return false;
        }
        proof {
            partial_valid_utf8_extend(bytes@, i as int);
        }
        i += width;
    }
    assert(bytes@.subrange(0, len as int) =~= bytes@);
    true
}

} // verus!
