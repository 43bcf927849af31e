//! The rotation of single characters and bytes, and how the two agree on
//! UTF-8 encoded text.
use vstd::prelude::*;
use vstd::utf8::*;

verus! {

/// Size of the Latin alphabet.
pub const ALPHABET_LEN: u32 = 26;

/// Code of `a`, the first lowercase letter.
pub const LOWER_FIRST: u8 = 97;

/// Code of `z`, the last lowercase letter.
pub const LOWER_LAST: u8 = 122;

/// Code of `A`, the first uppercase letter.
pub const UPPER_FIRST: u8 = 65;

/// Code of `Z`, the last uppercase letter.
pub const UPPER_LAST: u8 = 90;

/// A lowercase letter strictly between `a` and `z`: the only lowercase
/// letters that rotate.
pub open spec fn rotates_lower(code: int) -> bool {
    LOWER_FIRST < code < LOWER_LAST
}

/// An uppercase letter strictly between `A` and `Z`: the only uppercase
/// letters that rotate.
pub open spec fn rotates_upper(code: int) -> bool {
    UPPER_FIRST < code < UPPER_LAST
}

/// A character that rotates: an ASCII letter other than the alphabet ends.
pub open spec fn rotates(c: char) -> bool {
    rotates_lower(c as int) || rotates_upper(c as int)
}

/// A lowercase ASCII letter, `a` through `z`.
pub open spec fn is_lower(c: char) -> bool {
    LOWER_FIRST <= c as int <= LOWER_LAST
}

/// An uppercase ASCII letter, `A` through `Z`.
pub open spec fn is_upper(c: char) -> bool {
    UPPER_FIRST <= c as int <= UPPER_LAST
}

/// One of the ends of the two alphabets: `a`, `z`, `A` or `Z`.
pub open spec fn is_alphabet_end(c: char) -> bool {
    c as int == LOWER_FIRST || c as int == LOWER_LAST || c as int == UPPER_FIRST || c as int
        == UPPER_LAST
}

/// The code point `code` advanced by `shift` places, cyclically, within the
/// alphabet that starts at `base`.
pub open spec fn rotated_code(code: int, base: int, shift: int) -> int {
    base + (code - base + shift) % 26
}

/// The byte `b` rotated by `shift` places.
pub open spec fn rotate_byte(b: u8, shift: int) -> u8 {
    if rotates_lower(b as int) {
        rotated_code(b as int, LOWER_FIRST as int, shift) as u8
    } else if rotates_upper(b as int) {
        rotated_code(b as int, UPPER_FIRST as int, shift) as u8
    } else {
        b
    }
}

/// The character `c` rotated by `shift` places.
pub open spec fn rotate_char(c: char, shift: int) -> char {
    if rotates_lower(c as int) {
        (rotated_code(c as int, LOWER_FIRST as int, shift) as u8) as char
    } else if rotates_upper(c as int) {
        (rotated_code(c as int, UPPER_FIRST as int, shift) as u8) as char
    } else {
        c
    }
}

/// Rotates one byte by `shift` places.
pub fn rotate_byte_exec(b: u8, shift: u32) -> (r: u8)
    requires
        shift <= ALPHABET_LEN,
    ensures
        r == rotate_byte(b, shift as int),
{
    if LOWER_FIRST < b && b < LOWER_LAST {
        (((b - LOWER_FIRST) as u32 + shift) % ALPHABET_LEN) as u8 + LOWER_FIRST
    } else if UPPER_FIRST < b && b < UPPER_LAST {
        (((b - UPPER_FIRST) as u32 + shift) % ALPHABET_LEN) as u8 + UPPER_FIRST
    } else {
        b
    }
}

/// Rotates every character of `cs` by `shift` places.
pub open spec fn rotate_chars(cs: Seq<char>, shift: int) -> Seq<char> {
    cs.map_values(|c: char| rotate_char(c, shift))
}

/// Rotates every byte of `bs` by `shift` places.
pub open spec fn rotate_bytes(bs: Seq<u8>, shift: int) -> Seq<u8> {
    bs.map_values(|b: u8| rotate_byte(b, shift))
}

proof fn lemma_high_bit_set(m: u8, x: u8)
    by (bit_vector)
    requires
        m >= 0x80,
    ensures
        (m | x) >= 0x80,
{
}

proof fn lemma_ascii_byte(u: u32)
    by (bit_vector)
    requires
        u <= 0x7f,
    ensures
        (u & 0x7f) as u8 == u as u8,
{
}

/// Bytes with the high bit set, which never belong to an ASCII letter, are
/// left alone.
proof fn lemma_high_bytes_fixed(bs: Seq<u8>, shift: int)
    requires
        forall|i: int| 0 <= i < bs.len() ==> bs[i] >= 0x80,
    ensures
        rotate_bytes(bs, shift) == bs,
{
    assert(rotate_bytes(bs, shift) =~= bs);
}

/// Rotating a character agrees with rotating the bytes of its encoding.
proof fn lemma_rotate_encoded_char(c: char, shift: int)
    requires
        0 <= shift,
    ensures
        rotate_bytes(encode_scalar(c as u32), shift) == encode_scalar(rotate_char(c, shift) as u32),
{
    let u = c as u32;
    let r = rotate_char(c, shift) as u32;
    if has_width_1_encoding(u) {
        lemma_ascii_byte(u);
        assert(r <= 0x7f);
        lemma_ascii_byte(r);
        assert(rotate_bytes(encode_scalar(u), shift) =~= encode_scalar(r));
    } else {
        assert(r == u);
        let bs = encode_scalar(u);
        if has_width_2_encoding(u) {
            lemma_high_bit_set(0xC0, ((u >> 6) & 0x1F) as u8);
            lemma_high_bit_set(0x80, (u & 0x3F) as u8);
        } else if has_width_3_encoding(u) {
            lemma_high_bit_set(0xE0, ((u >> 12) & 0x0F) as u8);
            lemma_high_bit_set(0x80, ((u >> 6) & 0x3F) as u8);
            lemma_high_bit_set(0x80, (u & 0x3F) as u8);
        } else {
            lemma_high_bit_set(0xF0, ((u >> 18) & 0x7) as u8);
            lemma_high_bit_set(0x80, ((u >> 12) & 0x3F) as u8);
            lemma_high_bit_set(0x80, ((u >> 6) & 0x3F) as u8);
            lemma_high_bit_set(0x80, (u & 0x3F) as u8);
        }
        lemma_high_bytes_fixed(bs, shift);
    }
}

/// Rotating a text agrees with rotating the bytes of its UTF-8 encoding.
pub proof fn lemma_rotate_encoded_text(cs: Seq<char>, shift: int)
    requires
        0 <= shift,
    ensures
        rotate_bytes(encode_utf8(cs), shift) == encode_utf8(rotate_chars(cs, shift)),
    decreases cs.len(),
{
    if cs.len() > 0 {
        let head = encode_scalar(cs[0] as u32);
        let tail = encode_utf8(cs.drop_first());
        lemma_rotate_encoded_char(cs[0], shift);
        lemma_rotate_encoded_text(cs.drop_first(), shift);
        assert(rotate_bytes(head + tail, shift) =~= rotate_bytes(head, shift) + rotate_bytes(
            tail,
            shift,
        ));
        assert(rotate_chars(cs, shift).drop_first() =~= rotate_chars(cs.drop_first(), shift));
    } else {
        assert(rotate_bytes(encode_utf8(cs), shift) =~= encode_utf8(rotate_chars(cs, shift)));
    }
}

} // verus!
