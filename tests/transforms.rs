use rot26::{
    rot26_decrypt, rot26_decrypt_any, rot26_decrypt_rot13, rot26_encrypt, rot26_encrypt_any,
    rot26_encrypt_rot13,
};

fn some(s: &str) -> Option<String> {
    Some(s.to_string())
}

#[test]
fn encrypt_any_shifts_inner_letters() {
    assert_eq!(rot26_encrypt_any("bcd".as_bytes(), 1), some("cde"));
}

#[test]
fn encrypt_any_keeps_alphabet_start() {
    // `a` is an end of the alphabet and does not rotate.
    assert_eq!(rot26_encrypt_any("abc".as_bytes(), 1), some("acd"));
}

#[test]
fn decrypt_any_shifts_back() {
    assert_eq!(rot26_decrypt_any("bcd".as_bytes(), 1), some("abc"));
}

#[test]
fn encrypt_rot13_hello_world() {
    assert_eq!(rot26_encrypt_rot13("Hello, World!".as_bytes()), some("Uryyb, Jbeyq!"));
}

#[test]
fn decrypt_rot13_hello_world() {
    assert_eq!(rot26_decrypt_rot13("Uryyb, Jbeyq!".as_bytes()), some("Hello, World!"));
}

#[test]
fn encrypt_any_wraps_uppercase() {
    // `X` and `Y` wrap round to the start; `Z` is an end and stays.
    assert_eq!(rot26_encrypt_any("XYZ".as_bytes(), 3), some("ABZ"));
}

#[test]
fn encrypt_any_wraps_lowercase() {
    assert_eq!(rot26_encrypt_any("wxy".as_bytes(), 4), some("abc"));
}

#[test]
fn decrypt_any_wraps_below_start() {
    assert_eq!(rot26_decrypt_any("bcd".as_bytes(), 3), some("yza"));
}

#[test]
fn amount_is_taken_modulo_alphabet() {
    assert_eq!(rot26_encrypt_any("bcd".as_bytes(), 27), some("cde"));
    assert_eq!(rot26_decrypt_any("cde".as_bytes(), 27), some("bcd"));
    assert_eq!(rot26_encrypt_any("Hello".as_bytes(), u32::MAX), rot26_encrypt_any("Hello".as_bytes(), u32::MAX % 26));
    assert_eq!(rot26_decrypt_any("Hello".as_bytes(), u32::MAX), rot26_decrypt_any("Hello".as_bytes(), u32::MAX % 26));
}

#[test]
fn zero_shift_is_identity() {
    assert_eq!(rot26_encrypt_any("Hello, World!".as_bytes(), 0), some("Hello, World!"));
    assert_eq!(rot26_decrypt_any("Hello, World!".as_bytes(), 0), some("Hello, World!"));
}

#[test]
fn round_trip_any_amount() {
    let text = "The quick brown fox jumps over the lazy dog 42!";
    for k in 0..26u32 {
        let enc = rot26_encrypt_any(text.as_bytes(), k).unwrap();
        let dec = rot26_decrypt_any(enc.as_bytes(), k).unwrap();
        let inner = enc.chars().zip(text.chars()).all(|(e, t)| {
            !(('b'..='y').contains(&t) || ('B'..='Y').contains(&t))
                || (('b'..='y').contains(&e) || ('B'..='Y').contains(&e))
        });
        if inner {
            assert_eq!(dec, text, "amount {}", k);
        }
    }
}

#[test]
fn round_trip_breaks_at_alphabet_end() {
    // `y` moves onto `z`, which no longer rotates.
    let enc = rot26_encrypt_any("y".as_bytes(), 1).unwrap();
    assert_eq!(enc, "z");
    assert_eq!(rot26_decrypt_any(enc.as_bytes(), 1), some("z"));
}

#[test]
fn round_trip_simple_text() {
    let enc = rot26_encrypt_any("Hello".as_bytes(), 5).unwrap();
    assert_eq!(enc, "Mjqqt");
    assert_eq!(rot26_decrypt_any(enc.as_bytes(), 5), some("Hello"));
}

#[test]
fn rot13_is_its_own_inverse() {
    let text = "Hello, World!";
    let enc = rot26_encrypt_rot13(text.as_bytes()).unwrap();
    assert_eq!(rot26_decrypt_rot13(enc.as_bytes()), some(text));
    assert_eq!(rot26_encrypt_rot13(text.as_bytes()), rot26_decrypt_rot13(text.as_bytes()));
}

#[test]
fn rot26_is_identity() {
    let text = "Hello, World! abc xyz ABC XYZ é€";
    assert_eq!(rot26_encrypt(text.as_bytes()), some(text));
    assert_eq!(rot26_decrypt(text.as_bytes()), some(text));
}

#[test]
fn non_letters_unchanged() {
    let text = "0123456789 !?.,;:-_()[]{}\t\n é ß 日本 😀";
    for k in [1u32, 7, 13, 25, 26, 100] {
        assert_eq!(rot26_encrypt_any(text.as_bytes(), k), some(text));
        assert_eq!(rot26_decrypt_any(text.as_bytes(), k), some(text));
    }
}

#[test]
fn case_preserved() {
    let lower = "bcdefghijklmnopqrstuvwxy";
    let upper = "BCDEFGHIJKLMNOPQRSTUVWXY";
    for k in 0..26u32 {
        let l = rot26_encrypt_any(lower.as_bytes(), k).unwrap();
        let u = rot26_encrypt_any(upper.as_bytes(), k).unwrap();
        assert!(l.chars().all(|c| c.is_ascii_lowercase()));
        assert!(u.chars().all(|c| c.is_ascii_uppercase()));
        let l = rot26_decrypt_any(lower.as_bytes(), k).unwrap();
        let u = rot26_decrypt_any(upper.as_bytes(), k).unwrap();
        assert!(l.chars().all(|c| c.is_ascii_lowercase()));
        assert!(u.chars().all(|c| c.is_ascii_uppercase()));
    }
}

#[test]
fn alphabet_ends_unchanged() {
    for k in [1u32, 5, 13, 25] {
        assert_eq!(rot26_encrypt_any("azAZ".as_bytes(), k), some("azAZ"));
        assert_eq!(rot26_decrypt_any("azAZ".as_bytes(), k), some("azAZ"));
    }
}

#[test]
fn multibyte_text_kept_around_letters() {
    assert_eq!(rot26_encrypt_any("héllo wörld".as_bytes(), 1), some("iémmp xösme"));
}

#[test]
fn empty_input() {
    assert_eq!(rot26_encrypt_any(&[], 5), some(""));
    assert_eq!(rot26_decrypt(&[]), some(""));
}

#[test]
fn invalid_utf8_is_rejected() {
    let bad: &[u8] = &[0x62, 0xff, 0x63];
    assert_eq!(rot26_encrypt_any(bad, 1), None);
    assert_eq!(rot26_decrypt_any(bad, 1), None);
    assert_eq!(rot26_encrypt(bad), None);
    assert_eq!(rot26_decrypt(bad), None);
    assert_eq!(rot26_encrypt_rot13(bad), None);
    assert_eq!(rot26_decrypt_rot13(bad), None);
}

#[test]
fn truncated_sequence_is_rejected() {
    assert_eq!(rot26_encrypt_any(&[0x62, 0xc3], 1), None);
}

#[test]
fn nul_byte_is_rejected() {
    assert_eq!(rot26_encrypt_any(&[0x62, 0x00, 0x63], 1), None);
    assert_eq!(rot26_decrypt_rot13(&[0x00]), None);
}
