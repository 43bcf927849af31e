//! Rotation ciphers (the Caesar / ROT-N family) over UTF-8 text.
//!
//! Only ASCII letters strictly inside the alphabet ranges move; every other
//! character, the alphabet endpoints `a`, `z`, `A` and `Z` included, passes
//! through unchanged.
pub mod cipher;
pub mod laws;
pub mod rotation;

pub use cipher::{
    rot26_decrypt, rot26_decrypt_any, rot26_decrypt_rot13, rot26_encrypt, rot26_encrypt_any,
    rot26_encrypt_rot13,
};
