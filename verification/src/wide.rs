//! UTF-16 text as Win32 calls take and give it: encoding with a terminating zero, lossy
//! decoding up to the first zero, and copying into fixed-size buffers.
use vstd::prelude::*;

use crate::text::chars_of;

verus! {

/// A Unicode scalar value: at most `0x10FFFF` and not a surrogate.
pub open spec fn is_scalar(v: u32) -> bool {
    v <= 0x10FFFF && !(0xD800 <= v <= 0xDFFF)
}

/// `char::from_u32` gives the character of a scalar value and nothing for other numbers.
pub assume_specification[ core::char::from_u32 ](i: u32) -> (r: Option<char>)
    ensures
        r == (if is_scalar(i) {
            Some(i as char)
        } else {
            None
        }),
;

/// The UTF-16 code units of one character.
pub open spec fn utf16_units(c: char) -> Seq<u16> {
    let v = c as u32;
    if v < 0x10000 {
        seq![v as u16]
    } else {
        let u = v - 0x10000;
        seq![(0xD800 + u / 1024) as u16, (0xDC00 + u % 1024) as u16]
    }
}

/// The UTF-16 encoding of a string.
pub open spec fn utf16(s: Seq<char>) -> Seq<u16>
    decreases s.len(),
{
    if s.len() == 0 {
        Seq::empty()
    } else {
        utf16(s.drop_last()) + utf16_units(s.last())
    }
}

/// Decoding UTF-16 with each unpaired surrogate replaced by U+FFFD.
pub open spec fn decode_utf16_lossy(units: Seq<u16>) -> Seq<char>
    decreases units.len(),
{
    if units.len() == 0 {
        Seq::empty()
    } else {
        let u = units[0];
        if u < 0xD800 || u > 0xDFFF {
            seq![(u as u32) as char] + decode_utf16_lossy(units.drop_first())
        } else if u <= 0xDBFF && units.len() >= 2 && 0xDC00 <= units[1] <= 0xDFFF {
            seq![(0x10000 + (u - 0xD800) * 1024 + (units[1] - 0xDC00)) as u32 as char]
                + decode_utf16_lossy(units.skip(2))
        } else {
            seq!['\u{FFFD}'] + decode_utf16_lossy(units.drop_first())
        }
    }
}

/// The units before the first zero, or all of them.
pub open spec fn before_zero(units: Seq<u16>, from: int) -> int
    decreases units.len() - from,
{
    if from < 0 || from >= units.len() {
        units.len() as int
    } else if units[from] == 0 {
        from
    } else {
        before_zero(units, from + 1)
    }
}

fn push_char_units(out: &mut Vec<u16>, c: char)
    ensures
        final(out)@ == old(out)@ + utf16_units(c),
{
    let v = c as u32;
    if v < 0x10000 {
        out.push(v as u16);
    } else {
        let u = v - 0x10000;
        proof {
            assert(v <= 0x10FFFF) by {
                vstd::utf8::char_is_scalar(c);
            }
            assert(u >> 10u32 == u / 1024) by (bit_vector);
            assert(u & 0x3FFu32 == u % 1024) by (bit_vector);
        }
        out.push((0xD800 + (u >> 10)) as u16);
        out.push((0xDC00 + (u & 0x3FF)) as u16);
    }
    proof {
        assert(out@ =~= old(out)@ + utf16_units(c));
    }
}

/// The UTF-16 encoding of a string followed by a terminating zero.
pub fn wide(value: &str) -> (w: Vec<u16>)
    ensures
        w@ == utf16(value@).push(0),
{
    let cs = chars_of(value);
    let mut out: Vec<u16> = Vec::new();
    let mut i: usize = 0;
    while i < cs.len()
        invariant
            i <= cs.len(),
            out@ == utf16(cs@.take(i as int)),
        decreases cs.len() - i,
    {
        push_char_units(&mut out, cs[i]);
        proof {
            assert(cs@.take(i + 1).drop_last() =~= cs@.take(i as int));
            assert(cs@.take(i + 1).last() == cs@[i as int]);
        }
        i += 1;
    }
    proof {
        assert(cs@.take(cs.len() as int) =~= cs@);
    }
    out.push(0);
    out
}

/// Decodes UTF-16 units, replacing unpaired surrogates.
pub fn decode_lossy(units: &[u16]) -> (s: String)
    ensures
        s@ == decode_utf16_lossy(units@),
{
    let mut out = String::new();
    let mut i: usize = 0;
    proof {
        assert(units@.skip(0) =~= units@);
    }
    while i < units.len()
        invariant
            i <= units.len(),
            decode_utf16_lossy(units@) == out@ + decode_utf16_lossy(units@.skip(i as int)),
        decreases units.len() - i,
    {
        let ghost rest = units@.skip(i as int);
        let u = units[i];
        if u < 0xD800 || u > 0xDFFF {
            match core::char::from_u32(u as u32) {
                Some(c) => out.push(c),
                None => {
                    assert(false);
                },
            }
            proof {
                assert(rest.drop_first() =~= units@.skip(i + 1));
            }
            i += 1;
        } else if u <= 0xDBFF && i + 1 < units.len() && 0xDC00 <= units[i + 1] && units[i + 1]
            <= 0xDFFF {
            let low = units[i + 1];
            let v = 0x10000 + (u as u32 - 0xD800) * 1024 + (low as u32 - 0xDC00);
            match core::char::from_u32(v) {
                Some(c) => out.push(c),
                None => {
                    assert(false);
                },
            }
            proof {
                assert(rest[1] == low);
                assert(rest.skip(2) =~= units@.skip(i + 2));
            }
            i += 2;
        } else {
            out.push('\u{FFFD}');
            proof {
                assert(rest.drop_first() =~= units@.skip(i + 1));
            }
            i += 1;
        }
        proof {
            assert(decode_utf16_lossy(units@) =~= out@ + decode_utf16_lossy(units@.skip(i as int)));
        }
    }
    proof {
        assert(units@.skip(i as int) =~= Seq::<u16>::empty());
        assert(out@ + Seq::<char>::empty() =~= out@);
    }
    out
}

/// The text of a zero-terminated UTF-16 buffer: the units before the first zero (all of
/// them when there is none), decoded with unpaired surrogates replaced.
pub fn string_from_wide_z(buffer: &[u16]) -> (s: String)
    ensures
        s@ == decode_utf16_lossy(buffer@.take(before_zero(buffer@, 0))),
{
    let mut len: usize = 0;
    while len < buffer.len() && buffer[len] != 0
        invariant
            len <= buffer.len(),
            before_zero(buffer@, 0) == before_zero(buffer@, len as int),
        decreases buffer.len() - len,
    {
        len += 1;
    }
    let mut head: Vec<u16> = Vec::new();
    let mut k: usize = 0;
    while k < len
        invariant
            k <= len <= buffer.len(),
            head@ == buffer@.take(k as int),
        decreases len - k,
    {
        head.push(buffer[k]);
        k += 1;
        proof {
            assert(head@ =~= buffer@.take(k as int));
        }
    }
    decode_lossy(head.as_slice())
}

/// Copies as much of `value`'s UTF-16 encoding as fits before a terminating zero into
/// `buffer`, and writes the zero after it; the rest of the buffer is kept.
pub fn copy_wide(buffer: &mut [u16], value: &str)
    requires
        old(buffer)@.len() > 0,
    ensures
        ({
            let encoded = utf16(value@);
            let count = if encoded.len() < old(buffer)@.len() - 1 {
                encoded.len() as int
            } else {
                old(buffer)@.len() - 1
            };
            &&& final(buffer)@.len() == old(buffer)@.len()
            &&& final(buffer)@.take(count) == encoded.take(count)
            &&& final(buffer)@[count] == 0
            &&& final(buffer)@.skip(count + 1) == old(buffer)@.skip(count + 1)
        }),
{
    let encoded_z = wide(value);
    let encoded_len = encoded_z.len() - 1;
    let count = if encoded_len < buffer.len() - 1 {
        encoded_len
    } else {
        buffer.len() - 1
    };
    let ghost before = buffer@;
    let mut i: usize = 0;
    while i < count
        invariant
            i <= count < buffer.len(),
            count <= encoded_len,
            encoded_z@.len() == encoded_len + 1,
            buffer@.len() == before.len(),
            forall|k: int| 0 <= k < i ==> buffer@[k] == encoded_z@[k],
            forall|k: int| i <= k < buffer@.len() ==> buffer@[k] == before[k],
        decreases count - i,
    {
        buffer[i] = encoded_z[i];
        i += 1;
    }
    buffer[count] = 0;
    proof {
        let encoded = utf16(value@);
        assert(encoded_z@ == encoded.push(0));
        assert(buffer@.take(count as int) =~= encoded.take(count as int)) by {
            assert forall|k: int| 0 <= k < count implies buffer@[k] == encoded[k] by {
                assert(encoded_z@[k] == encoded[k]);
            }
        }
        assert(buffer@.skip(count + 1) =~= before.skip(count + 1));
    }
}

} // verus!
