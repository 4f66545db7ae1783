//! The cryptographic and encoding primitives that the library takes from
//! outside crates, each behind a trusted item whose contract is stated here.

use vstd::prelude::*;
use vstd::string::StringSliceAdditionalSpecFns;

use aes_gcm::aead::{Aead, KeyInit, Payload};
use aes_gcm::{Aes256Gcm, Key, Nonce};
use sha2::{Digest, Sha256};

use crate::error::HexError;

verus! {

/// Largest plaintext (and associated data) that AES-GCM accepts, in bytes.
pub open spec fn gcm_max_len() -> nat {
    0x10_0000_0000  // 2^36
}

/// What AES-256-GCM produces (ciphertext followed by the 16-byte tag) for a
/// key, a 12-byte nonce, a plaintext and associated data.
pub uninterp spec fn aes256gcm_seal(key: Seq<u8>, nonce: Seq<u8>, msg: Seq<u8>, aad: Seq<u8>) -> Seq<u8>;

/// What AES-256-GCM decryption gives for a key, a nonce, a ciphertext with its
/// tag and associated data: the plaintext, or nothing when authentication fails.
pub uninterp spec fn aes256gcm_open(key: Seq<u8>, nonce: Seq<u8>, sealed: Seq<u8>, aad: Seq<u8>) -> Option<Seq<u8>>;

/// The SHA-256 digest of a byte string.
pub uninterp spec fn sha256_of(data: Seq<u8>) -> Seq<u8>;

/// The output of scrypt on a password and a salt, with cost `2^log_n`, block
/// size `r`, parallelism `p` and output length `len`.
pub uninterp spec fn scrypt_output(password: Seq<u8>, salt: Seq<u8>, log_n: u8, r: u32, p: u32, len: usize) -> Seq<u8>;

/// Encrypts `msg` with AES-256-GCM (`Aes256Gcm::new` then `Aead::encrypt` of
/// the `aes-gcm` crate, with `aad` as associated data).
/// Claimed of the crate: it fails exactly when `msg` or `aad` is longer than
/// 2^36 bytes; otherwise it returns the named seal, which is 16 bytes longer
/// than `msg` (the tag is appended), and which AES-GCM decryption under the same
/// key, nonce and associated data turns back into `msg`.
#[verifier::external_body]
pub(crate) fn aes256gcm_encrypt(key: &[u8], nonce: &[u8], msg: &[u8], aad: &[u8]) -> (r: Option<Vec<u8>>)
    requires
        key@.len() == 32,
        nonce@.len() == 12,
    ensures
        r is Some <==> (msg@.len() <= gcm_max_len() && aad@.len() <= gcm_max_len()),
        r matches Some(ct) ==> {
            &&& ct@ == aes256gcm_seal(key@, nonce@, msg@, aad@)
            &&& ct@.len() == msg@.len() + 16
            &&& aes256gcm_open(key@, nonce@, ct@, aad@) == Some(msg@)
        },
{
    let cipher = Aes256Gcm::new(Key::<Aes256Gcm>::from_slice(key));
    cipher.encrypt(Nonce::from_slice(nonce), Payload { msg, aad }).ok()
}

/// Decrypts and authenticates `sealed` with AES-256-GCM (`Aes256Gcm::new` then
/// `Aead::decrypt` of the `aes-gcm` crate, with `aad` as associated data).
/// Claimed of the crate: the result is the named opening of the arguments,
/// and an opened text is 16 bytes shorter than the sealed one (the tag is
/// cut off).
#[verifier::external_body]
pub(crate) fn aes256gcm_decrypt(key: &[u8], nonce: &[u8], sealed: &[u8], aad: &[u8]) -> (r: Option<Vec<u8>>)
    requires
        key@.len() == 32,
        nonce@.len() == 12,
    ensures
        r matches Some(p) ==> p@.len() + 16 == sealed@.len(),
        match r {
            Some(p) => aes256gcm_open(key@, nonce@, sealed@, aad@) == Some(p@),
            None => aes256gcm_open(key@, nonce@, sealed@, aad@) is None,
        },
{
    let cipher = Aes256Gcm::new(Key::<Aes256Gcm>::from_slice(key));
    cipher.decrypt(Nonce::from_slice(nonce), Payload { msg: sealed, aad }).ok()
}

/// Computes SHA-256 (`Sha256::digest` of the `sha2` crate).
/// Claimed: the result is the named digest, 32 bytes long.
#[verifier::external_body]
pub(crate) fn sha256_digest(data: &[u8]) -> (d: Vec<u8>)
    ensures
        d@ == sha256_of(data@),
        d@.len() == 32,
{
    Sha256::digest(data).to_vec()
}

/// Whether `(log_n, r, p, len)` passes every check of `scrypt::Params::new`.
pub open spec fn scrypt_params_valid(log_n: u8, r: u32, p: u32, len: nat) -> bool {
    &&& r > 0
    &&& p > 0
    &&& log_n < 32
    &&& 10 <= len <= 64
    &&& (r as int) * 128 * vstd::arithmetic::power2::pow2(log_n as nat) <= u32::MAX
    &&& (r as int) * 128 * (p as int) <= u32::MAX
    &&& (log_n as int) < (r as int) * 16
    &&& (r as int) * (p as int) < 0x4000_0000
}

/// Runs scrypt (`scrypt::Params::new(log_n, r, p, len)` then `scrypt::scrypt`
/// of the `scrypt` crate) and writes the derived key into `out`.
/// Claimed: with parameters that pass the crate's checks and an output of
/// `len` bytes it succeeds, and `out` then holds the named output.
#[verifier::external_body]
pub(crate) fn scrypt_into(password: &[u8], salt: &[u8], log_n: u8, r: u32, p: u32, out: &mut Vec<u8>) -> (res: Result<(), String>)
    requires
        scrypt_params_valid(log_n, r, p, old(out)@.len()),
    ensures
        res is Ok,
        final(out)@ == scrypt_output(password@, salt@, log_n, r, p, old(out)@.len() as usize),
        final(out)@.len() == old(out)@.len(),
{
    let params = scrypt::Params::new(log_n, r, p, out.len()).map_err(|e| e.to_string())?;
    scrypt::scrypt(password, salt, &params, out.as_mut_slice()).map_err(|e| e.to_string())
}

/// Fills `buf` from the operating system's random source
/// (`getrandom::getrandom` of the `getrandom` crate).
/// Claimed: the length of `buf` is kept; what it holds afterwards is random,
/// so nothing more is said of it, nor of when the call fails.
#[verifier::external_body]
pub(crate) fn fill_random(buf: &mut Vec<u8>) -> (r: Result<(), String>)
    ensures
        final(buf)@.len() == old(buf)@.len(),
{
    getrandom::getrandom(buf.as_mut_slice()).map_err(|e| e.to_string())
}

/// The lowercase hex digit of a value below 16.
pub open spec fn hex_digit(n: int) -> char {
    if n < 10 {
        (48 + n) as char
    } else {
        (87 + n) as char
    }
}

/// Lowercase hexadecimal text of a byte string: two digits per byte, high
/// nibble first.
pub open spec fn hex_text(bytes: Seq<u8>) -> Seq<char> {
    Seq::new(
        2 * bytes.len(),
        |i: int|
            if i % 2 == 0 {
                hex_digit(bytes[i / 2] as int / 16)
            } else {
                hex_digit(bytes[i / 2] as int % 16)
            },
    )
}

/// The value of an ASCII hex digit (either case), if the byte is one.
pub open spec fn hex_value(c: u8) -> Option<u8> {
    if 0x30 <= c <= 0x39 {
        Some((c - 0x30) as u8)
    } else if 0x41 <= c <= 0x46 {
        Some((c - 0x41 + 10) as u8)
    } else if 0x61 <= c <= 0x66 {
        Some((c - 0x61 + 10) as u8)
    } else {
        None
    }
}

/// Whether byte `i` of `b` is the first byte that is no hex digit.
pub open spec fn first_non_hex(b: Seq<u8>, i: int) -> bool {
    &&& 0 <= i < b.len()
    &&& hex_value(b[i]) is None
    &&& forall|j: int| 0 <= j < i ==> (#[trigger] hex_value(b[j])) is Some
}

/// The bytes that an even-length string of hex digits stands for.
pub open spec fn hex_bytes(b: Seq<u8>) -> Seq<u8> {
    Seq::new(
        b.len() / 2,
        |k: int| (hex_value(b[2 * k]).unwrap() * 16 + hex_value(b[2 * k + 1]).unwrap()) as u8,
    )
}

/// Hex decoding, as `hex::decode` does it, on the bytes of a text.
pub open spec fn hex_decode_spec(b: Seq<u8>) -> Result<Seq<u8>, HexError> {
    if b.len() % 2 != 0 {
        Err(HexError::OddLength)
    } else if exists|i: int| first_non_hex(b, i) {
        let i = choose|i: int| first_non_hex(b, i);
        Err(HexError::InvalidHexCharacter { c: b[i] as char, index: i as usize })
    } else {
        Ok(hex_bytes(b))
    }
}

/// Encodes bytes as lowercase hex (`hex::encode` of the `hex` crate).
/// Claimed: two lowercase digits per byte, high nibble first.
#[verifier::external_body]
pub(crate) fn hex_encode(bytes: &[u8]) -> (s: String)
    ensures
        s@ == hex_text(bytes@),
{
    hex::encode(bytes)
}

/// Decodes hex text (`hex::decode` of the `hex` crate), on the UTF-8 bytes of `s`.
/// Claimed: an odd byte count gives `OddLength`; otherwise the first byte that
/// is no hex digit gives `InvalidHexCharacter` with that byte as a char and its
/// index; otherwise each pair of digits gives one byte.
#[verifier::external_body]
pub(crate) fn hex_decode(s: &str) -> (r: Result<Vec<u8>, HexError>)
    ensures
        match r {
            Ok(v) => hex_decode_spec(s.spec_bytes()) == Ok::<Seq<u8>, HexError>(v@),
            Err(e) => hex_decode_spec(s.spec_bytes()) == Err::<Seq<u8>, HexError>(e),
        },
{
    match hex::decode(s) {
        Ok(v) => Ok(v),
        Err(hex::FromHexError::InvalidHexCharacter { c, index }) => Err(HexError::InvalidHexCharacter { c, index }),
        Err(hex::FromHexError::OddLength) => Err(HexError::OddLength),
        Err(hex::FromHexError::InvalidStringLength) => Err(HexError::InvalidStringLength),
    }
}

/// How `char`'s `Debug` shows an ASCII character between its quotes: the
/// named escapes `\0`, `\t`, `\r`, `\n`, `\\` and `\'`; a printable character
/// as itself; any other control character as `\u{..}` with lowercase hex
/// digits and no leading zeros.
pub open spec fn debug_ascii_char(c: char) -> Seq<char> {
    let u = c as u32;
    if c == '\0' {
        seq!['\\', '0']
    } else if c == '\t' {
        seq!['\\', 't']
    } else if c == '\r' {
        seq!['\\', 'r']
    } else if c == '\n' {
        seq!['\\', 'n']
    } else if c == '\\' {
        seq!['\\', '\\']
    } else if c == '\'' {
        seq!['\\', '\'']
    } else if 0x20 <= u <= 0x7e {
        seq![c]
    } else if u < 16 {
        seq!['\\', 'u', '{', hex_digit(u as int), '}']
    } else {
        seq!['\\', 'u', '{', hex_digit(u as int / 16), hex_digit(u as int % 16), '}']
    }
}

/// What the hex crate's message for a decoding error is known to be: fixed
/// texts for the length errors, and for an invalid ASCII character, the
/// character as `char`'s `Debug` shows it and its position in decimal.
pub open spec fn hex_error_text_spec(e: HexError, t: Seq<char>) -> bool {
    match e {
        HexError::OddLength => t == "Odd number of digits"@,
        HexError::InvalidStringLength => t == "Invalid string length"@,
        HexError::InvalidHexCharacter { c, index } => (c as u32) < 0x80 ==> t
            == "Invalid character '"@ + debug_ascii_char(c) + "' at position "@ + crate::size::decimal(index as nat),
    }
}

/// The message of a hex decoding error (`Display` of `hex::FromHexError`).
/// Claimed of the crate: `Odd number of digits`, `Invalid string length`, and
/// `Invalid character {c:?} at position {index}`, where std documents `{c:?}`
/// for an ASCII character as stated in `debug_ascii_char`; for other
/// characters the form of the escape is left unsaid.
#[verifier::external_body]
pub(crate) fn hex_error_text(e: HexError) -> (t: String)
    ensures
        hex_error_text_spec(e, t@),
{
    let outside = match e {
        HexError::InvalidHexCharacter { c, index } => hex::FromHexError::InvalidHexCharacter { c, index },
        HexError::OddLength => hex::FromHexError::OddLength,
        HexError::InvalidStringLength => hex::FromHexError::InvalidStringLength,
    };
    outside.to_string()
}

} // verus!
