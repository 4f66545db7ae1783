//! Password mode: the key is scrypt(password, salt) and the blob is
//! `ENC1 | 0x03 | salt(16) | IV(12) | ciphertext | tag(16)`; plus the
//! generator of random passwords.

use vstd::prelude::*;
use vstd::string::StringSliceAdditionalSpecFns;

use crate::error::EncError;
use crate::keymode::{append_bytes, bytes_view, header_bytes};
use crate::layout::{
    has_magic, header, magic, peek_version_spec, starts_with_magic, HEADER_LEN, IV_LEN, KEY_LEN,
    SALT_LEN, TAG_LEN, VERSION_PW,
};
use crate::primitives::{
    aes256gcm_decrypt, aes256gcm_encrypt, aes256gcm_open, aes256gcm_seal, fill_random, gcm_max_len,
    scrypt_into, scrypt_output, scrypt_params_valid,
};

verus! {

/// scrypt cost exponent: N = 2^15.
pub const SCRYPT_LOG_N: u8 = 15;
/// scrypt block size.
pub const SCRYPT_R: u32 = 8;
/// scrypt parallelism.
pub const SCRYPT_P: u32 = 1;

/// The key that a password (by its UTF-8 bytes) and a salt give.
pub open spec fn password_key(password: Seq<u8>, salt: Seq<u8>) -> Seq<u8> {
    scrypt_output(password, salt, SCRYPT_LOG_N, SCRYPT_R, SCRYPT_P, KEY_LEN)
}

/// The associated data of a password-mode blob: its header and salt.
pub open spec fn pw_header(salt: Seq<u8>) -> Seq<u8> {
    header(VERSION_PW) + salt
}

/// The password-mode blob of `data`.
pub open spec fn pw_blob(password: Seq<u8>, salt: Seq<u8>, iv: Seq<u8>, data: Seq<u8>) -> Seq<u8> {
    pw_header(salt) + iv + aes256gcm_seal(password_key(password, salt), iv, data, pw_header(salt))
}

/// Length of the fixed part of a password-mode blob: header, salt, IV and tag.
pub open spec fn pw_overhead() -> nat {
    (HEADER_LEN + SALT_LEN + IV_LEN + TAG_LEN) as nat
}

/// What decryption of a password-mode blob returns.
pub open spec fn decrypt_pw_spec(blob: Seq<u8>, password: Seq<u8>) -> Result<Seq<u8>, EncError> {
    if blob.len() < pw_overhead() {
        Err(EncError::TooShort)
    } else if !starts_with_magic(blob) || blob[4] != VERSION_PW {
        Err(EncError::NotPasswordFile)
    } else {
        let salt = blob.subrange(HEADER_LEN as int, (HEADER_LEN + SALT_LEN) as int);
        match aes256gcm_open(
            password_key(password, salt),
            blob.subrange((HEADER_LEN + SALT_LEN) as int, (HEADER_LEN + SALT_LEN + IV_LEN) as int),
            blob.subrange((HEADER_LEN + SALT_LEN + IV_LEN) as int, blob.len() as int),
            blob.subrange(0, (HEADER_LEN + SALT_LEN) as int),
        ) {
            None => Err(EncError::WrongPassword),
            Some(p) => Ok(p),
        }
    }
}

/// Derives the 32-byte key of a password and a salt with scrypt
/// (N = 2^15, r = 8, p = 1). It never fails.
pub fn derive_key(password: &str, salt: &[u8]) -> (r: Result<Vec<u8>, EncError>)
    ensures
        r matches Ok(k) && k@ == password_key(password.spec_bytes(), salt@) && k@.len() == KEY_LEN,
        r matches Ok(k) && k@ == scrypt_output(password.spec_bytes(), salt@, 15u8, 8u32, 1u32, 32usize),
{
    let mut key: Vec<u8> = vec![0u8; KEY_LEN];
    proof {
        vstd::arithmetic::power2::lemma2_to64();
        assert(scrypt_params_valid(SCRYPT_LOG_N, SCRYPT_R, SCRYPT_P, 32));
    }
    match scrypt_into(password.as_bytes(), salt, SCRYPT_LOG_N, SCRYPT_R, SCRYPT_P, &mut key) {
        Ok(()) => Ok(key),
        Err(msg) => Err(EncError::KeyDerivation(msg)),
    }
}

/// Encrypts `data` in password mode with the given salt and IV.
/// Decrypting the blob with the same password gives `data` back, and the blob
/// is 49 bytes longer than `data`.
pub fn encrypt_pw_with(data: &[u8], password: &str, salt: &[u8], iv: &[u8]) -> (r: Result<Vec<u8>, EncError>)
    requires
        salt@.len() == SALT_LEN,
        iv@.len() == IV_LEN,
    ensures
        bytes_view(r) == (if data@.len() > gcm_max_len() {
            Err::<Seq<u8>, EncError>(EncError::EncryptionFailed)
        } else {
            Ok::<Seq<u8>, EncError>(pw_blob(password.spec_bytes(), salt@, iv@, data@))
        }),
        r matches Ok(out) ==> {
            &&& out@.len() == data@.len() + pw_overhead()
            &&& decrypt_pw_spec(out@, password.spec_bytes()) == Ok::<Seq<u8>, EncError>(data@)
            &&& peek_version_spec(out@) == Ok::<u8, EncError>(VERSION_PW)
        },
{
    let key = match derive_key(password, salt) {
        Ok(k) => k,
        Err(e) => return Err(e),
    };
    let mut head = header_bytes(VERSION_PW);
    append_bytes(&mut head, salt);
    let sealed = match aes256gcm_encrypt(key.as_slice(), iv, data, head.as_slice()) {
        Some(ct) => ct,
        None => return Err(EncError::EncryptionFailed),
    };
    let mut out: Vec<u8> = Vec::new();
    append_bytes(&mut out, head.as_slice());
    append_bytes(&mut out, iv);
    append_bytes(&mut out, sealed.as_slice());
    proof {
        let o = out@;
        assert(o.subrange(0, 21) =~= pw_header(salt@));
        assert(o.subrange(5, 21) =~= salt@);
        assert(o.subrange(21, 33) =~= iv@);
        assert(o.subrange(33, o.len() as int) =~= sealed@);
        assert(o.subrange(0, 4) =~= magic());
        assert(o[4] == VERSION_PW);
    }
    Ok(out)
}

/// Encrypts `data` in password mode with a fresh random salt and IV.
/// On success the blob is 49 bytes longer than `data`, carries its salt at
/// bytes 5..21 and its IV at bytes 21..33, decrypts with the same password to
/// `data`, and reads as version 3.
pub fn encrypt_pw(data: &[u8], password: &str) -> (r: Result<Vec<u8>, EncError>)
    ensures
        r matches Err(EncError::EncryptionFailed) ==> data@.len() > gcm_max_len(),
        data@.len() > gcm_max_len() ==> r is Err,
        r matches Err(e) ==> (e is EncryptionFailed || e is Random),
        r matches Ok(out) ==> {
            &&& out@.len() == data@.len() + pw_overhead()
            &&& out@ == pw_blob(
                password.spec_bytes(),
                out@.subrange(HEADER_LEN as int, (HEADER_LEN + SALT_LEN) as int),
                out@.subrange((HEADER_LEN + SALT_LEN) as int, (HEADER_LEN + SALT_LEN + IV_LEN) as int),
                data@,
            )
            &&& decrypt_pw_spec(out@, password.spec_bytes()) == Ok::<Seq<u8>, EncError>(data@)
            &&& peek_version_spec(out@) == Ok::<u8, EncError>(VERSION_PW)
        },
{
    let mut salt: Vec<u8> = vec![0u8; SALT_LEN];
    match fill_random(&mut salt) {
        Ok(()) => {},
        Err(msg) => return Err(EncError::Random(msg)),
    }
    let mut iv: Vec<u8> = vec![0u8; IV_LEN];
    match fill_random(&mut iv) {
        Ok(()) => {},
        Err(msg) => return Err(EncError::Random(msg)),
    }
    let r = encrypt_pw_with(data, password, salt.as_slice(), iv.as_slice());
    proof {
        if r is Ok {
            let out = r->Ok_0;
            assert(out@.subrange(5, 21) =~= salt@);
            assert(out@.subrange(21, 33) =~= iv@);
        }
    }
    r
}

/// Decrypts a password-mode blob with a password.
pub fn decrypt_pw(blob: &[u8], password: &str) -> (r: Result<Vec<u8>, EncError>)
    ensures
        bytes_view(r) == decrypt_pw_spec(blob@, password.spec_bytes()),
        r matches Ok(p) ==> p@.len() == blob@.len() - pw_overhead(),
{
    if blob.len() < HEADER_LEN + SALT_LEN + IV_LEN + TAG_LEN {
        return Err(EncError::TooShort);
    }
    if !has_magic(blob) || blob[4] != VERSION_PW {
        return Err(EncError::NotPasswordFile);
    }
    let salt = &blob[HEADER_LEN..HEADER_LEN + SALT_LEN];
    let head = &blob[0..HEADER_LEN + SALT_LEN];
    let iv = &blob[HEADER_LEN + SALT_LEN..HEADER_LEN + SALT_LEN + IV_LEN];
    let sealed = &blob[HEADER_LEN + SALT_LEN + IV_LEN..blob.len()];
    let key = match derive_key(password, salt) {
        Ok(k) => k,
        Err(e) => return Err(e),
    };
    match aes256gcm_decrypt(key.as_slice(), iv, sealed, head) {
        None => Err(EncError::WrongPassword),
        Some(p) => Ok(p),
    }
}

/// A blob that decrypts in password mode reads as version 3, so it is sent to
/// password decryption.
pub proof fn lemma_decrypted_pw_blob_version(blob: Seq<u8>, password: Seq<u8>)
    requires
        decrypt_pw_spec(blob, password) is Ok,
    ensures
        peek_version_spec(blob) == Ok::<u8, EncError>(VERSION_PW),
{
}

/// The password-mode header bytes: `ENC1` and version 3.
pub open spec fn v3_header_bytes() -> Seq<u8> {
    seq![0x45u8, 0x4eu8, 0x43u8, 0x31u8, 0x03u8]
}

/// The key of a password and a salt is scrypt of the password's UTF-8 bytes
/// and exactly that salt, with N = 2^15, r = 8, p = 1 and 32 bytes of output.
pub proof fn lemma_password_key_is_scrypt(password: Seq<u8>, salt: Seq<u8>)
    ensures
        password_key(password, salt) == scrypt_output(password, salt, 15u8, 8u32, 1u32, 32usize),
{
}

/// A password-mode blob carries its salt and nonce: bytes 0..5 are `ENC1` and
/// version 3, bytes 5..21 the salt, bytes 21..33 the IV, and the rest is
/// AES-256-GCM of the data under scrypt of the password and that salt, with
/// that IV as nonce and bytes 0..21 as associated data.
pub proof fn lemma_pw_blob_layout(password: Seq<u8>, salt: Seq<u8>, iv: Seq<u8>, data: Seq<u8>)
    requires
        salt.len() == 16,
        iv.len() == 12,
    ensures
        pw_blob(password, salt, iv, data).subrange(0, 5) == v3_header_bytes(),
        pw_blob(password, salt, iv, data).subrange(5, 21) == salt,
        pw_blob(password, salt, iv, data).subrange(21, 33) == iv,
        pw_blob(password, salt, iv, data).subrange(33, pw_blob(password, salt, iv, data).len() as int)
            == aes256gcm_seal(
            scrypt_output(password, salt, 15u8, 8u32, 1u32, 32usize),
            iv,
            data,
            v3_header_bytes() + salt,
        ),
{
    let b = pw_blob(password, salt, iv, data);
    assert(header(VERSION_PW) =~= v3_header_bytes());
    assert(b.subrange(0, 5) =~= v3_header_bytes());
    assert(b.subrange(5, 21) =~= salt);
    assert(b.subrange(21, 33) =~= iv);
    assert(b.subrange(33, b.len() as int) =~= aes256gcm_seal(
        scrypt_output(password, salt, 15u8, 8u32, 1u32, 32usize),
        iv,
        data,
        v3_header_bytes() + salt,
    ));
}

/// Decrypting a version-3 blob derives the key with scrypt from the password
/// and the salt stored at bytes 5..21, and opens bytes 33.. with AES-256-GCM
/// under it, with the IV stored at bytes 21..33 as nonce and bytes 0..21 as
/// associated data: the plaintext when that authenticates, else
/// `WrongPassword`.
pub proof fn lemma_decrypt_pw_uses_stored_salt(blob: Seq<u8>, password: Seq<u8>)
    requires
        blob.len() >= 49,
        blob.subrange(0, 5) == v3_header_bytes(),
    ensures
        decrypt_pw_spec(blob, password) == (match aes256gcm_open(
            scrypt_output(password, blob.subrange(5, 21), 15u8, 8u32, 1u32, 32usize),
            blob.subrange(21, 33),
            blob.subrange(33, blob.len() as int),
            blob.subrange(0, 21),
        ) {
            Some(p) => Ok::<Seq<u8>, EncError>(p),
            None => Err::<Seq<u8>, EncError>(EncError::WrongPassword),
        }),
{
    assert(blob[4] == blob.subrange(0, 5)[4]);
    assert(blob.subrange(0, 4) =~= magic()) by {
        assert forall|i: int| 0 <= i < 4 implies blob.subrange(0, 4)[i] == magic()[i] by {
            assert(blob.subrange(0, 4)[i] == blob.subrange(0, 5)[i]);
        }
    }
}

} // verus!
