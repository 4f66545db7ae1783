use vstd::prelude::*;

use crate::primitives::{hex_error_text, hex_error_text_spec};
use crate::size::{decimal, push_decimal};

verus! {

/// Why an encryption or decryption step was refused.
#[derive(Debug, PartialEq, Eq)]
pub enum EncError {
    /// The key is not exactly 32 bytes long.
    KeyLength,
    /// The blob is shorter than its header, IV and tag together.
    TooShort,
    /// The blob does not start with the `ENC1` magic.
    BadMagic,
    /// AES-GCM refused the ciphertext under the given key (wrong key or tampering).
    AuthFailed,
    /// A version-2 payload is too short to hold its SHA-256.
    MissingHash,
    /// The SHA-256 stored in a version-2 payload does not match its data.
    IntegrityFailed,
    /// The version byte names no format this library reads.
    UnsupportedVersion(u8),
    /// The blob is not a password-mode (version 3) blob.
    NotPasswordFile,
    /// AES-GCM refused a password-mode ciphertext (wrong password or tampering).
    WrongPassword,
    /// AES-GCM refused to encrypt (the plaintext is over its size limit).
    EncryptionFailed,
    /// The system random source failed; the text is its message.
    Random(String),
    /// The scrypt key derivation failed; the text is its message.
    KeyDerivation(String),
    /// A key given as text is not valid hex.
    BadKeyHex(HexError),
}

/// Why a hexadecimal key could not be decoded.
#[derive(Debug, Clone, Copy, PartialEq, Eq)]
pub enum HexError {
    /// A byte that is no hex digit, shown as a char, at the given byte index.
    InvalidHexCharacter { c: char, index: usize },
    /// The text has an odd number of bytes.
    OddLength,
    /// The text does not have the length that the output asks for.
    InvalidStringLength,
}

/// `bad key hex: `
pub open spec fn bad_key_hex_prefix() -> Seq<char> {
    "bad key hex: "@
}

impl EncError {
    /// The message shown to the user for this error.
    pub fn message(&self) -> (s: String)
        ensures
            match *self {
                EncError::KeyLength => s@ == "key must be 32 bytes"@,
                EncError::TooShort => s@ == "blob too short"@,
                EncError::BadMagic => s@ == "bad magic (not an enc file)"@,
                EncError::AuthFailed => s@ == "message authentication failed"@,
                EncError::MissingHash => s@ == "corrupt: missing integrity hash"@,
                EncError::IntegrityFailed => s@ == "SHA-256 integrity check FAILED"@,
                EncError::UnsupportedVersion(v) => s@ == "unsupported format version "@ + decimal(v as nat),
                EncError::NotPasswordFile => s@ == "not a password-mode file"@,
                EncError::WrongPassword => s@ == "wrong password or corrupted file"@,
                EncError::EncryptionFailed => s@ == "encryption failed"@,
                EncError::Random(m) => s@ == m@,
                EncError::KeyDerivation(m) => s@ == m@,
                EncError::BadKeyHex(h) => {
                    &&& s@.len() >= bad_key_hex_prefix().len()
                    &&& s@.take(bad_key_hex_prefix().len() as int) == bad_key_hex_prefix()
                    &&& hex_error_text_spec(h, s@.skip(bad_key_hex_prefix().len() as int))
                },
            },
    {
        match self {
            EncError::KeyLength => String::from_str("key must be 32 bytes"),
            EncError::TooShort => String::from_str("blob too short"),
            EncError::BadMagic => String::from_str("bad magic (not an enc file)"),
            EncError::AuthFailed => String::from_str("message authentication failed"),
            EncError::MissingHash => String::from_str("corrupt: missing integrity hash"),
            EncError::IntegrityFailed => String::from_str("SHA-256 integrity check FAILED"),
            EncError::UnsupportedVersion(v) => {
                let mut s = String::from_str("unsupported format version ");
                push_decimal(&mut s, *v as u128);
                s
            },
            EncError::NotPasswordFile => String::from_str("not a password-mode file"),
            EncError::WrongPassword => String::from_str("wrong password or corrupted file"),
            EncError::EncryptionFailed => String::from_str("encryption failed"),
            EncError::Random(m) => m.clone(),
            EncError::KeyDerivation(m) => m.clone(),
            EncError::BadKeyHex(h) => {
                let t = hex_error_text(*h);
                let mut s = String::from_str("bad key hex: ");
                s.append(t.as_str());
                proof {
                    reveal_strlit("bad key hex: ");
                    assert(s@.take(13) =~= bad_key_hex_prefix());
                    assert(s@.skip(13) =~= t@);
                }
                s
            },
        }
    }
}

} // verus!
