//! Laws that relate the transforms to one another.
use vstd::prelude::*;
use vstd::utf8::{decode_utf8, encode_utf8};
use crate::cipher::{
    decrypt_shift, decrypt_text, encrypt_char, encrypt_shift, encrypt_text,
    is_transformable,
};
use crate::rotation::{
    is_alphabet_end, is_lower, is_upper, lemma_rotate_encoded_text, rotate_bytes, rotate_char,
    rotates,
};

verus! {

broadcast use vstd::utf8::group_utf8_lib;

/// No letter of `t` that rotates is carried by encryption with `amount` onto
/// an end of its alphabet, where it would stop rotating.
pub open spec fn stays_rotating(t: Seq<char>, amount: u32) -> bool {
    forall|i: int| 0 <= i < t.len() && rotates(t[i]) ==> rotates(#[trigger] encrypt_char(t[i], amount))
}

/// Rotating by `a` and then by `b`, with `a + b` a full turn, gives the
/// character back, as long as the first rotation leaves it rotating.
proof fn lemma_char_full_turn(c: char, a: int, b: int)
    requires
        0 <= a < 26,
        a + b == 26,
        rotates(c) ==> rotates(rotate_char(c, a)),
    ensures
        rotate_char(rotate_char(c, a), b) == c,
{
}

/// Encryption and decryption by the same amount are inverse on text whose
/// letters stay rotating: decrypting what encryption returned gives the input
/// back, and what encryption returned is itself accepted.
pub proof fn lemma_round_trip(input: Seq<u8>, amount: u32)
    requires
        is_transformable(input),
        stays_rotating(decode_utf8(input), amount),
    ensures
        is_transformable(encode_utf8(encrypt_text(decode_utf8(input), amount))),
        decrypt_text(decode_utf8(encode_utf8(encrypt_text(decode_utf8(input), amount))), amount)
            == decode_utf8(input),
{
    let t = decode_utf8(input);
    let e = encrypt_text(t, amount);
    lemma_rotate_encoded_text(t, encrypt_shift(amount));
    let bytes = encode_utf8(e);
    assert(bytes == rotate_bytes(input, encrypt_shift(amount)));
    if bytes.contains(0u8) {
        let j = choose|j: int| 0 <= j < bytes.len() && bytes[j] == 0u8;
        assert(input[j] == 0u8);
    }
    assert forall|i: int| 0 <= i < t.len() implies decrypt_text(e, amount)[i] == t[i] by {
        assert(rotates(t[i]) ==> rotates(encrypt_char(t[i], amount)));
        lemma_char_full_turn(t[i], encrypt_shift(amount), decrypt_shift(amount));
    }
    assert(decrypt_text(e, amount) =~= t);
}

/// ROT13 encryption and decryption are the same transform, and on text whose
/// letters stay rotating, decrypting what encryption returned gives the input
/// back.
pub proof fn lemma_rot13_self_inverse(input: Seq<u8>)
    ensures
        encrypt_text(decode_utf8(input), 13) == decrypt_text(decode_utf8(input), 13),
        is_transformable(input) && stays_rotating(decode_utf8(input), 13) ==> decrypt_text(
            decode_utf8(encode_utf8(encrypt_text(decode_utf8(input), 13))),
            13,
        ) == decode_utf8(input),
{
    assert(encrypt_text(decode_utf8(input), 13) =~= decrypt_text(decode_utf8(input), 13));
    if is_transformable(input) && stays_rotating(decode_utf8(input), 13) {
        lemma_round_trip(input, 13);
    }
}

/// A shift of 26 is a full turn: encryption and decryption by 26 change
/// nothing.
pub proof fn lemma_full_turn_identity(t: Seq<char>)
    ensures
        encrypt_text(t, 26) == t,
        decrypt_text(t, 26) == t,
{
    assert(encrypt_text(t, 26) =~= t);
    assert(decrypt_text(t, 26) =~= t);
}

/// Characters other than ASCII letters (digits, punctuation, whitespace,
/// anything beyond ASCII) are left unchanged by every amount.
pub proof fn lemma_non_letters_fixed(t: Seq<char>, amount: u32)
    ensures
        forall|i: int|
            0 <= i < t.len() && !is_lower(t[i]) && !is_upper(t[i]) ==> #[trigger] encrypt_text(
                t,
                amount,
            )[i] == t[i] && decrypt_text(t, amount)[i] == t[i],
{
}

/// The ends of the alphabets, `a`, `z`, `A` and `Z`, are left unchanged by
/// every amount.
pub proof fn lemma_alphabet_ends_fixed(t: Seq<char>, amount: u32)
    ensures
        forall|i: int|
            0 <= i < t.len() && is_alphabet_end(t[i]) ==> #[trigger] encrypt_text(t, amount)[i]
                == t[i] && decrypt_text(t, amount)[i] == t[i],
{
}

/// Case is kept: a lowercase letter becomes a lowercase letter and an
/// uppercase letter an uppercase letter, whichever the direction and amount.
pub proof fn lemma_case_preserved(t: Seq<char>, amount: u32)
    ensures
        forall|i: int|
            0 <= i < t.len() && is_lower(t[i]) ==> is_lower(#[trigger] encrypt_text(t, amount)[i])
                && is_lower(decrypt_text(t, amount)[i]),
        forall|i: int|
            0 <= i < t.len() && is_upper(t[i]) ==> is_upper(#[trigger] encrypt_text(t, amount)[i])
                && is_upper(decrypt_text(t, amount)[i]),
{
}

} // verus!
