//! Encryption and decryption of UTF-8 byte strings by a rotation amount.
//!
//! A transform succeeds exactly when its input is valid UTF-8 holding no NUL
//! byte, so that the result can be handed on as a NUL-terminated string.
use vstd::prelude::*;
use vstd::string::StringSliceAdditionalSpecFns;
use vstd::utf8::{decode_utf8, encode_utf8_decode_utf8, valid_utf8};
use crate::rotation::{
    lemma_rotate_encoded_text, rotate_byte_exec, rotate_bytes, rotate_char,
    rotate_chars, ALPHABET_LEN,
};

verus! {

broadcast use vstd::utf8::group_utf8_lib;

/// The number of places that encryption by `amount` advances a letter.
pub open spec fn encrypt_shift(amount: u32) -> int {
    amount as int % 26
}

/// The number of places that decryption by `amount` advances a letter:
/// the complement of the encryption shift.
pub open spec fn decrypt_shift(amount: u32) -> int {
    26 - amount as int % 26
}

/// A character encrypted by `amount`.
pub open spec fn encrypt_char(c: char, amount: u32) -> char {
    rotate_char(c, encrypt_shift(amount))
}

/// A character decrypted by `amount`.
pub open spec fn decrypt_char(c: char, amount: u32) -> char {
    rotate_char(c, decrypt_shift(amount))
}

/// A text encrypted by `amount`, character by character.
pub open spec fn encrypt_text(t: Seq<char>, amount: u32) -> Seq<char> {
    rotate_chars(t, encrypt_shift(amount))
}

/// A text decrypted by `amount`, character by character.
pub open spec fn decrypt_text(t: Seq<char>, amount: u32) -> Seq<char> {
    rotate_chars(t, decrypt_shift(amount))
}

/// Input that the transforms accept: valid UTF-8 with no NUL byte.
pub open spec fn is_transformable(input: Seq<u8>) -> bool {
    valid_utf8(input) && !input.contains(0u8)
}

/// Relies on `std::str::from_utf8`: it succeeds exactly on valid UTF-8, and
/// the string it returns is made of the given bytes.
#[verifier::external_body]
fn str_from_utf8(bytes: &[u8]) -> (r: Option<&str>)
    ensures
        r is Some <==> valid_utf8(bytes@),
        r matches Some(s) ==> s.spec_bytes() == bytes@,
{
    std::str::from_utf8(bytes).ok()
}

/// Rotates every letter of `input` by `shift` places.
fn rotate_text(input: &[u8], shift: u32) -> (r: Option<String>)
    requires
        shift <= ALPHABET_LEN,
    ensures
        r is Some <==> is_transformable(input@),
        r matches Some(s) ==> s@ == rotate_chars(decode_utf8(input@), shift as int),
{
    if str_from_utf8(input).is_none() {
        return None;
    }
    let mut out: Vec<u8> = Vec::with_capacity(input.len());
    let mut has_nul = false;
    let mut i: usize = 0;
    while i < input.len()
        invariant
            shift <= ALPHABET_LEN,
            i <= input@.len(),
            out@ == rotate_bytes(input@.subrange(0, i as int), shift as int),
            has_nul <==> input@.subrange(0, i as int).contains(0u8),
        decreases input@.len() - i,
    {
        let b = rotate_byte_exec(input[i], shift);
        if b == 0 {
            has_nul = true;
        }
        out.push(b);
        proof {
            let done = input@.subrange(0, i + 1);
            assert(done =~= input@.subrange(0, i as int).push(input@[i as int]));
            assert(rotate_bytes(done, shift as int) =~= out@);
            if has_nul && b != 0 {
                let j = choose|j: int| 0 <= j < i && input@.subrange(0, i as int)[j] == 0u8;
                assert(done[j] == 0u8);
            }
            if b == 0 {
                assert(done[i as int] == 0u8);
            }
        }
        i += 1;
    }
    assert(input@.subrange(0, input@.len() as int) =~= input@);
    if has_nul {
        return None;
    }
    let ghost text = decode_utf8(input@);
    let ghost rotated = rotate_chars(text, shift as int);
    proof {
        lemma_rotate_encoded_text(text, shift as int);
    }
    match str_from_utf8(out.as_slice()) {
        Some(s) => {
            proof {
                encode_utf8_decode_utf8(s@);
                encode_utf8_decode_utf8(rotated);
            }
            Some(s.to_owned())
        },
        None => None,
    }
}

/// Encrypts `input` by advancing each letter `amount` places (modulo 26).
///
/// Returns `None` when `input` is not valid UTF-8 or holds a NUL byte.
pub fn rot26_encrypt_any(input: &[u8], amount: u32) -> (r: Option<String>)
    ensures
        r is Some <==> is_transformable(input@),
        r matches Some(s) ==> s@ == encrypt_text(decode_utf8(input@), amount),
{
    rotate_text(input, amount % ALPHABET_LEN)
}

/// Decrypts `input` by moving each letter back `amount` places (modulo 26).
///
/// Returns `None` when `input` is not valid UTF-8 or holds a NUL byte.
pub fn rot26_decrypt_any(input: &[u8], amount: u32) -> (r: Option<String>)
    ensures
        r is Some <==> is_transformable(input@),
        r matches Some(s) ==> s@ == decrypt_text(decode_utf8(input@), amount),
{
    rotate_text(input, ALPHABET_LEN - amount % ALPHABET_LEN)
}

/// Encrypts `input` with a shift of 26, which leaves every letter in place.
pub fn rot26_encrypt(input: &[u8]) -> (r: Option<String>)
    ensures
        r is Some <==> is_transformable(input@),
        r matches Some(s) ==> s@ == encrypt_text(decode_utf8(input@), 26),
{
    rot26_encrypt_any(input, 26)
}

/// Decrypts `input` with a shift of 26, which leaves every letter in place.
pub fn rot26_decrypt(input: &[u8]) -> (r: Option<String>)
    ensures
        r is Some <==> is_transformable(input@),
        r matches Some(s) ==> s@ == decrypt_text(decode_utf8(input@), 26),
{
    rot26_decrypt_any(input, 26)
}

/// Encrypts `input` with ROT13. Since 13 is half the alphabet, this is the
/// same transform as [`rot26_decrypt_rot13`].
pub fn rot26_encrypt_rot13(input: &[u8]) -> (r: Option<String>)
    ensures
        r is Some <==> is_transformable(input@),
        r matches Some(s) ==> s@ == encrypt_text(decode_utf8(input@), 13),
{
    rot26_encrypt_any(input, 13)
}

/// Decrypts `input` with ROT13. Since 13 is half the alphabet, this is the
/// same transform as [`rot26_encrypt_rot13`].
pub fn rot26_decrypt_rot13(input: &[u8]) -> (r: Option<String>)
    ensures
        r is Some <==> is_transformable(input@),
        r matches Some(s) ==> s@ == decrypt_text(decode_utf8(input@), 13),
{
    rot26_decrypt_any(input, 13)
}

} // verus!
