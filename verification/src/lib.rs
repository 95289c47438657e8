//! Rendering of a 128-bit UUID value, given as 16 raw bytes, into its
//! canonical 36-character hyphenated hexadecimal text form, in either
//! lowercase or uppercase hex digits.
//!
//! The input is treated as an opaque 16-byte array in standard UUID
//! field-byte order; no version or variant bits are interpreted, and no
//! parsing or generation of UUIDs is offered.

use vstd::prelude::*;

verus! {

/// The ASCII code of the hex digit for a nibble value, in the chosen case.
pub open spec fn spec_hex_digit(nibble: int, upper: bool) -> u8 {
    if nibble < 10 {
        (48 + nibble) as u8
    } else if upper {
        (55 + nibble) as u8
    } else {
        (87 + nibble) as u8
    }
}

/// Whether offset `i` of the rendering holds the `-` separator.
pub open spec fn is_hyphen_pos(i: int) -> bool {
    i == 8 || i == 13 || i == 18 || i == 23
}

/// How many separators stand before offset `i` of the rendering.
pub open spec fn hyphens_before(i: int) -> int {
    if i <= 8 {
        0
    } else if i <= 13 {
        1
    } else if i <= 18 {
        2
    } else if i <= 23 {
        3
    } else {
        4
    }
}

/// The byte at offset `i` of the rendering of the 16 bytes `b`: a `-` at
/// the separator offsets, elsewhere one hex digit, high nibble first.
pub open spec fn spec_char_at(b: Seq<u8>, i: int, upper: bool) -> u8 {
    if is_hyphen_pos(i) {
        45
    } else {
        let j = i - hyphens_before(i);
        if j % 2 == 0 {
            spec_hex_digit(b[j / 2] as int / 16, upper)
        } else {
            spec_hex_digit(b[j / 2] as int % 16, upper)
        }
    }
}

/// The canonical 36-byte hyphenated rendering of the 16 bytes `b`:
/// 32 hex digits grouped 8-4-4-4-12, with `-` at offsets 8, 13, 18, 23.
pub open spec fn spec_hyphenated(b: Seq<u8>, upper: bool) -> Seq<u8> {
    Seq::new(36, |i: int| spec_char_at(b, i, upper))
}

/// The high four bits of a byte.
pub fn top4(byte: u8) -> (r: u8)
    ensures
        r == byte as int / 16,
{
    proof {
        assert(byte >> 4 == byte / 16) by (bit_vector);
    }
    byte >> 4
}

/// The low four bits of a byte.
pub fn bot4(byte: u8) -> (r: u8)
    ensures
        r == byte as int % 16,
{
    proof {
        assert(byte & 0xf == byte % 16) by (bit_vector);
    }
    byte & 0xf
}

/// The lowercase hex digit for a nibble: `0`-`9`, `a`-`f`.
pub fn to_hex_lower(byte: u8) -> (r: u8)
    requires
        byte < 16,
    ensures
        r == spec_hex_digit(byte as int, false),
{
    if byte < 10 {
        byte + 48
    } else {
        byte + 87
    }
}

/// The uppercase hex digit for a nibble: `0`-`9`, `A`-`F`.
pub fn to_hex_upper(byte: u8) -> (r: u8)
    requires
        byte < 16,
    ensures
        r == spec_hex_digit(byte as int, true),
{
    if byte < 10 {
        byte + 48
    } else {
        byte + 55
    }
}

/// Render the 16 bytes as the canonical hyphenated form, in the chosen
/// case, into a fresh 36-byte buffer.
pub fn format_hyphenated(bytes: &[u8; 16], upper: bool) -> (out: Vec<u8>)
    ensures
        out@ == spec_hyphenated(bytes@, upper),
        out@.len() == 36,
{
    let mut out: Vec<u8> = Vec::new();
    let mut i: usize = 0;
    while i < 36
        invariant
            i <= 36,
            out@.len() == i,
            forall|k: int| 0 <= k < i ==> out@[k] == spec_char_at(bytes@, k, upper),
        decreases 36 - i,
    {
        if i == 8 || i == 13 || i == 18 || i == 23 {
            out.push(45);
        } else {
            let h: usize = if i < 8 {
                0
            } else if i < 13 {
                1
            } else if i < 18 {
                2
            } else if i < 23 {
                3
            } else {
                4
            };
            let j: usize = i - h;
            let byte: u8 = bytes[j / 2];
            let nibble: u8 = if j % 2 == 0 {
                top4(byte)
            } else {
                bot4(byte)
            };
            let c: u8 = if upper {
                to_hex_upper(nibble)
            } else {
                to_hex_lower(nibble)
            };
            out.push(c);
        }
        i = i + 1;
    }
    proof {
        assert(out@ =~= spec_hyphenated(bytes@, upper));
    }
    out
}

/// Render the 16 bytes with lowercase hex digits: `0`-`9`, `a`-`f`.
pub fn format_lower(bytes: &[u8; 16]) -> (out: Vec<u8>)
    ensures
        out@ == spec_hyphenated(bytes@, false),
        out@.len() == 36,
{
    format_hyphenated(bytes, false)
}

/// Render the 16 bytes with uppercase hex digits: `0`-`9`, `A`-`F`.
pub fn format_upper(bytes: &[u8; 16]) -> (out: Vec<u8>)
    ensures
        out@ == spec_hyphenated(bytes@, true),
        out@.len() == 36,
{
    format_hyphenated(bytes, true)
}

/// The value of an ASCII hex digit, accepting either case.
pub open spec fn spec_hex_val(c: u8) -> int {
    if 48 <= c && c <= 57 {
        c - 48
    } else if 65 <= c && c <= 70 {
        c - 55
    } else if 97 <= c && c <= 102 {
        c - 87
    } else {
        0
    }
}

/// The offset in the rendering at which hex digit number `j` stands,
/// skipping the separators.
pub open spec fn digit_pos(j: int) -> int {
    if j < 8 {
        j
    } else if j < 12 {
        j + 1
    } else if j < 16 {
        j + 2
    } else if j < 20 {
        j + 3
    } else {
        j + 4
    }
}

/// The 16 bytes read back from a 36-byte rendering `s`, two hex digits
/// per byte, high nibble first.
pub open spec fn spec_parse_hyphenated(s: Seq<u8>) -> Seq<u8> {
    Seq::new(16, |k: int| (spec_hex_val(s[digit_pos(2 * k)]) * 16 + spec_hex_val(s[digit_pos(2 * k + 1)])) as u8)
}

/// Round trip: parsing the rendering of any 16 bytes, in either case,
/// gives the bytes back exactly.
pub proof fn lemma_round_trip(b: Seq<u8>, upper: bool)
    requires
        b.len() == 16,
    ensures
        spec_parse_hyphenated(spec_hyphenated(b, upper)) == b,
{
    let s = spec_hyphenated(b, upper);
    assert forall|k: int| 0 <= k < 16 implies spec_parse_hyphenated(s)[k] == b[k] by {
        let p0 = digit_pos(2 * k);
        let p1 = digit_pos(2 * k + 1);
        assert(s[p0] == spec_hex_digit(b[k] as int / 16, upper));
        assert(s[p1] == spec_hex_digit(b[k] as int % 16, upper));
        assert(spec_hex_val(s[p0]) == b[k] as int / 16);
        assert(spec_hex_val(s[p1]) == b[k] as int % 16);
        assert(b[k] as int / 16 * 16 + b[k] as int % 16 == b[k] as int) by {
            vstd::arithmetic::div_mod::lemma_fundamental_div_mod(b[k] as int, 16);
        };
    };
    assert(spec_parse_hyphenated(s) =~= b);
}

/// Which bytes of the rendering are the separator: `-` stands at offsets
/// 8, 13, 18 and 23, and at no other offset.
pub proof fn lemma_hyphen_positions(b: Seq<u8>, upper: bool, i: int)
    requires
        b.len() == 16,
        0 <= i < 36,
    ensures
        spec_hyphenated(b, upper)[i] == 45 <==> is_hyphen_pos(i),
{
}

/// Whether `c` is an ASCII hex digit of the selected case: `0`-`9` with
/// `a`-`f` for lowercase, `0`-`9` with `A`-`F` for uppercase.
pub open spec fn is_hex_digit_in_case(c: u8, upper: bool) -> bool {
    (48 <= c && c <= 57) || if upper {
        65 <= c && c <= 70
    } else {
        97 <= c && c <= 102
    }
}

/// Every non-separator byte of the rendering is a hex digit of the
/// selected case; the two cases are never mixed within one rendering.
pub proof fn lemma_digit_class(b: Seq<u8>, upper: bool, i: int)
    requires
        b.len() == 16,
        0 <= i < 36,
        !is_hyphen_pos(i),
    ensures
        is_hex_digit_in_case(spec_hyphenated(b, upper)[i], upper),
{
}

/// ASCII uppercasing of one byte: `a`-`z` map to `A`-`Z`, all else is kept.
pub open spec fn spec_ascii_upper(c: u8) -> u8 {
    if 97 <= c && c <= 122 {
        (c - 32) as u8
    } else {
        c
    }
}

/// Case consistency: uppercasing the lowercase rendering byte for byte
/// gives exactly the uppercase rendering of the same input.
pub proof fn lemma_case_consistency(b: Seq<u8>)
    requires
        b.len() == 16,
    ensures
        spec_hyphenated(b, false).map_values(|c: u8| spec_ascii_upper(c)) == spec_hyphenated(b, true),
{
    let lo = spec_hyphenated(b, false);
    let up = spec_hyphenated(b, true);
    assert forall|i: int| 0 <= i < 36 implies spec_ascii_upper(lo[i]) == up[i] by {
        if !is_hyphen_pos(i) {
            lemma_digit_class(b, false, i);
        }
    };
    assert(lo.map_values(|c: u8| spec_ascii_upper(c)) =~= up);
}

} // verus!
