//! Key mode: a 32-byte key encrypts data into a version-1 blob
//! `ENC1 | 0x01 | IV(12) | ciphertext | tag(16)`, and decryption also reads the
//! legacy version 2, whose payload starts with the SHA-256 of the data.

use vstd::prelude::*;

use crate::error::EncError;
use crate::layout::{
    has_magic, header, magic, peek_version_spec, starts_with_magic, HEADER_LEN, IV_LEN, KEY_LEN, SHA_LEN, TAG_LEN,
    VERSION, VERSION_HASHED,
};
use crate::primitives::{
    aes256gcm_decrypt, aes256gcm_encrypt, aes256gcm_open, aes256gcm_seal, gcm_max_len, hex_encode,
    fill_random, hex_text, sha256_digest, sha256_of,
};

verus! {

/// The version-1 blob of `data` under `key` with nonce `iv`.
pub open spec fn key_blob(key: Seq<u8>, iv: Seq<u8>, data: Seq<u8>) -> Seq<u8> {
    header(VERSION) + iv + aes256gcm_seal(key, iv, data, header(VERSION))
}

/// What encryption with a given nonce returns.
pub open spec fn encrypt_spec(data: Seq<u8>, key: Seq<u8>, iv: Seq<u8>) -> Result<Seq<u8>, EncError> {
    if key.len() != KEY_LEN {
        Err(EncError::KeyLength)
    } else if data.len() > gcm_max_len() {
        Err(EncError::EncryptionFailed)
    } else {
        Ok(key_blob(key, iv, data))
    }
}

/// A result holding bytes, by its view.
pub open spec fn bytes_view(r: Result<Vec<u8>, EncError>) -> Result<Seq<u8>, EncError> {
    match r {
        Ok(v) => Ok(v@),
        Err(e) => Err(e),
    }
}

/// A decryption result, by its view.
pub open spec fn plain_view(r: Result<(Vec<u8>, Option<String>), EncError>) -> Result<(Seq<u8>, Option<Seq<char>>), EncError> {
    match r {
        Ok((p, None)) => Ok((p@, None)),
        Ok((p, Some(h))) => Ok((p@, Some(h@))),
        Err(e) => Err(e),
    }
}

/// What the authenticated payload of a blob of a given version decrypts to.
pub open spec fn open_payload_spec(version: u8, recovered: Seq<u8>) -> Result<(Seq<u8>, Option<Seq<char>>), EncError> {
    if version == VERSION {
        Ok((recovered, None))
    } else if version == VERSION_HASHED {
        if recovered.len() < SHA_LEN {
            Err(EncError::MissingHash)
        } else if sha256_of(recovered.skip(SHA_LEN as int)) != recovered.take(SHA_LEN as int) {
            Err(EncError::IntegrityFailed)
        } else {
            Ok((recovered.skip(SHA_LEN as int), Some(hex_text(sha256_of(recovered.skip(SHA_LEN as int))))))
        }
    } else {
        Err(EncError::UnsupportedVersion(version))
    }
}

/// What decryption of a key-mode blob returns.
pub open spec fn decrypt_spec(blob: Seq<u8>, key: Seq<u8>) -> Result<(Seq<u8>, Option<Seq<char>>), EncError> {
    if key.len() != KEY_LEN {
        Err(EncError::KeyLength)
    } else if blob.len() < HEADER_LEN + IV_LEN + TAG_LEN {
        Err(EncError::TooShort)
    } else if !starts_with_magic(blob) {
        Err(EncError::BadMagic)
    } else {
        match aes256gcm_open(
            key,
            blob.subrange(HEADER_LEN as int, (HEADER_LEN + IV_LEN) as int),
            blob.subrange((HEADER_LEN + IV_LEN) as int, blob.len() as int),
            blob.subrange(0, HEADER_LEN as int),
        ) {
            None => Err(EncError::AuthFailed),
            Some(recovered) => open_payload_spec(blob[4], recovered),
        }
    }
}

/// Appends `src` to `out`.
pub(crate) fn append_bytes(out: &mut Vec<u8>, src: &[u8])
    ensures
        final(out)@ == old(out)@ + src@,
{
    let mut i: usize = 0;
    while i < src.len()
        invariant
            i <= src@.len(),
            out@ == old(out)@ + src@.subrange(0, i as int),
        decreases src@.len() - i,
    {
        out.push(src[i]);
        i = i + 1;
        assert(out@ =~= old(out)@ + src@.subrange(0, i as int));
    }
    assert(src@.subrange(0, src@.len() as int) =~= src@);
}

/// The five header bytes of a given version.
pub fn header_bytes(version: u8) -> (h: Vec<u8>)
    ensures
        h@ == header(version),
{
    let mut h: Vec<u8> = Vec::with_capacity(HEADER_LEN);
    h.push(0x45u8);
    h.push(0x4eu8);
    h.push(0x43u8);
    h.push(0x31u8);
    h.push(version);
    assert(h@ =~= header(version));
    h
}

/// Encrypts `data` under `key` with the given nonce into a version-1 blob.
/// Decrypting the blob with the same key gives `data` back, and the blob is
/// 33 bytes longer than `data`.
pub fn encrypt_with_iv(data: &[u8], key: &[u8], iv: &[u8]) -> (r: Result<Vec<u8>, EncError>)
    requires
        iv@.len() == IV_LEN,
    ensures
        bytes_view(r) == encrypt_spec(data@, key@, iv@),
        r matches Ok(out) ==> {
            &&& out@.len() == data@.len() + HEADER_LEN + IV_LEN + TAG_LEN
            &&& out@.subrange(0, 5) == v1_header_bytes()
            &&& out@.subrange(5, 17) == iv@
            &&& out@.subrange(17, out@.len() as int) == aes256gcm_seal(key@, iv@, data@, v1_header_bytes())
            &&& decrypt_spec(out@, key@) == Ok::<(Seq<u8>, Option<Seq<char>>), EncError>((data@, None))
            &&& peek_version_spec(out@) == Ok::<u8, EncError>(VERSION)
        },
{
    if key.len() != KEY_LEN {
        return Err(EncError::KeyLength);
    }
    let head = header_bytes(VERSION);
    assert(head@ =~= v1_header_bytes());
    let sealed = match aes256gcm_encrypt(key, iv, data, head.as_slice()) {
        Some(ct) => ct,
        None => return Err(EncError::EncryptionFailed),
    };
    let mut out: Vec<u8> = Vec::with_capacity(HEADER_LEN + IV_LEN);
    append_bytes(&mut out, head.as_slice());
    append_bytes(&mut out, iv);
    append_bytes(&mut out, sealed.as_slice());
    proof {
        let o = out@;
        assert(o.subrange(0, 5) =~= header(VERSION));
        assert(o.subrange(5, 17) =~= iv@);
        assert(o.subrange(17, o.len() as int) =~= sealed@);
        assert(o.subrange(0, 4) =~= magic());
        assert(o[4] == VERSION);
    }
    Ok(out)
}

/// Whether two byte strings are equal.
pub fn bytes_equal(a: &[u8], b: &[u8]) -> (eq: bool)
    ensures
        eq == (a@ == b@),
{
    if a.len() != b.len() {
        return false;
    }
    let mut i: usize = 0;
    while i < a.len()
        invariant
            i <= a@.len(),
            a@.len() == b@.len(),
            forall|j: int| 0 <= j < i ==> a@[j] == b@[j],
        decreases a@.len() - i,
    {
        if a[i] != b[i] {
            return false;
        }
        i = i + 1;
    }
    assert(a@ =~= b@);
    true
}

/// Copies `src[from..to]` into a new vector.
pub fn copy_range(src: &[u8], from: usize, to: usize) -> (v: Vec<u8>)
    requires
        from <= to <= src@.len(),
    ensures
        v@ == src@.subrange(from as int, to as int),
{
    let mut v: Vec<u8> = Vec::new();
    append_bytes(&mut v, &src[from..to]);
    v
}

/// Turns the authenticated payload of a blob of the given version into the
/// plaintext, checking the embedded SHA-256 of a version-2 payload and
/// returning that hash as hex.
pub fn open_payload(version: u8, recovered: Vec<u8>) -> (r: Result<(Vec<u8>, Option<String>), EncError>)
    ensures
        plain_view(r) == open_payload_spec(version, recovered@),
        r matches Ok((p, h)) ==> {
            &&& (version == VERSION || version == VERSION_HASHED)
            &&& p@.len() == recovered@.len() - (if version == VERSION { 0 } else { SHA_LEN as int })
            &&& (h is Some <==> version == VERSION_HASHED)
            &&& (h matches Some(t) ==> t@.len() == 2 * SHA_LEN)
        },
{
    if version == VERSION {
        Ok((recovered, None))
    } else if version == VERSION_HASHED {
        if recovered.len() < SHA_LEN {
            return Err(EncError::MissingHash);
        }
        let stored = copy_range(recovered.as_slice(), 0, SHA_LEN);
        let data = copy_range(recovered.as_slice(), SHA_LEN, recovered.len());
        assert(stored@ =~= recovered@.take(SHA_LEN as int));
        assert(data@ =~= recovered@.skip(SHA_LEN as int));
        let actual = sha256_digest(data.as_slice());
        if !bytes_equal(actual.as_slice(), stored.as_slice()) {
            return Err(EncError::IntegrityFailed);
        }
        let hash = hex_encode(actual.as_slice());
        Ok((data, Some(hash)))
    } else {
        Err(EncError::UnsupportedVersion(version))
    }
}

/// Decrypts a key-mode blob. Returns the plaintext and, for a version-2 blob,
/// the verified SHA-256 of the plaintext as hex.
pub fn decrypt(blob: &[u8], key: &[u8]) -> (r: Result<(Vec<u8>, Option<String>), EncError>)
    ensures
        plain_view(r) == decrypt_spec(blob@, key@),
        r matches Ok((p, h)) ==> {
            &&& starts_with_magic(blob@)
            &&& (blob@[4] == VERSION || blob@[4] == VERSION_HASHED)
            &&& p@.len() == blob@.len() - (if blob@[4] == VERSION {
                HEADER_LEN + IV_LEN + TAG_LEN
            } else {
                HEADER_LEN + IV_LEN + TAG_LEN + SHA_LEN
            })
            &&& (h is Some <==> blob@[4] == VERSION_HASHED)
            &&& (h matches Some(t) ==> t@.len() == 2 * SHA_LEN)
        },
{
    if key.len() != KEY_LEN {
        return Err(EncError::KeyLength);
    }
    if blob.len() < HEADER_LEN + IV_LEN + TAG_LEN {
        return Err(EncError::TooShort);
    }
    if !has_magic(blob) {
        return Err(EncError::BadMagic);
    }
    let version = blob[4];
    let head = &blob[0..HEADER_LEN];
    let iv = &blob[HEADER_LEN..HEADER_LEN + IV_LEN];
    let sealed = &blob[HEADER_LEN + IV_LEN..blob.len()];
    match aes256gcm_decrypt(key, iv, sealed, head) {
        None => Err(EncError::AuthFailed),
        Some(recovered) => open_payload(version, recovered),
    }
}

/// Encrypts `data` under `key` into a version-1 blob with a fresh random IV.
/// On success the blob is 33 bytes longer than `data`, carries its IV at bytes
/// 5..17, decrypts with the same key to `data`, and reads as version 1.
pub fn encrypt(data: &[u8], key: &[u8]) -> (r: Result<Vec<u8>, EncError>)
    ensures
        (key@.len() != KEY_LEN) <==> (r == Err::<Vec<u8>, EncError>(EncError::KeyLength)),
        r matches Err(EncError::EncryptionFailed) ==> data@.len() > gcm_max_len(),
        (key@.len() == KEY_LEN && data@.len() > gcm_max_len()) ==> r is Err,
        r matches Err(e) ==> (e is KeyLength || e is EncryptionFailed || e is Random),
        r matches Ok(out) ==> {
            &&& out@.len() == data@.len() + HEADER_LEN + IV_LEN + TAG_LEN
            &&& out@ == key_blob(key@, out@.subrange(HEADER_LEN as int, (HEADER_LEN + IV_LEN) as int), data@)
            &&& decrypt_spec(out@, key@) == Ok::<(Seq<u8>, Option<Seq<char>>), EncError>((data@, None))
            &&& peek_version_spec(out@) == Ok::<u8, EncError>(VERSION)
        },
{
    if key.len() != KEY_LEN {
        return Err(EncError::KeyLength);
    }
    let mut iv: Vec<u8> = vec![0u8; IV_LEN];
    match fill_random(&mut iv) {
        Ok(()) => {},
        Err(msg) => return Err(EncError::Random(msg)),
    }
    let r = encrypt_with_iv(data, key, iv.as_slice());
    proof {
        if r is Ok {
            let out = r->Ok_0;
            assert(out@.subrange(HEADER_LEN as int, (HEADER_LEN + IV_LEN) as int) =~= iv@);
        }
    }
    r
}

/// Encrypts the bytes of a tar archive of a folder; the contract is that of
/// [`encrypt`].
pub fn encrypt_dir(tar: &[u8], key: &[u8]) -> (r: Result<Vec<u8>, EncError>)
    ensures
        (key@.len() != KEY_LEN) <==> (r == Err::<Vec<u8>, EncError>(EncError::KeyLength)),
        r matches Err(EncError::EncryptionFailed) ==> tar@.len() > gcm_max_len(),
        (key@.len() == KEY_LEN && tar@.len() > gcm_max_len()) ==> r is Err,
        r matches Err(e) ==> (e is KeyLength || e is EncryptionFailed || e is Random),
        r matches Ok(out) ==> {
            &&& out@.len() == tar@.len() + HEADER_LEN + IV_LEN + TAG_LEN
            &&& out@ == key_blob(key@, out@.subrange(HEADER_LEN as int, (HEADER_LEN + IV_LEN) as int), tar@)
            &&& decrypt_spec(out@, key@) == Ok::<(Seq<u8>, Option<Seq<char>>), EncError>((tar@, None))
            &&& peek_version_spec(out@) == Ok::<u8, EncError>(VERSION)
        },
{
    encrypt(tar, key)
}

/// A blob that decrypts in key mode reads as version 1 or 2, so it is never
/// taken for a password-mode blob.
pub proof fn lemma_decrypted_blob_version(blob: Seq<u8>, key: Seq<u8>)
    requires
        decrypt_spec(blob, key) is Ok,
    ensures
        peek_version_spec(blob) == Ok::<u8, EncError>(blob[4]),
        blob[4] == VERSION || blob[4] == VERSION_HASHED,
{
}

/// The key-mode header bytes: `ENC1` and version 1.
pub open spec fn v1_header_bytes() -> Seq<u8> {
    seq![0x45u8, 0x4eu8, 0x43u8, 0x31u8, 0x01u8]
}

/// A key-mode blob carries the nonce it was sealed with: bytes 0..5 are
/// `ENC1` and version 1, bytes 5..17 are the IV, and the rest is AES-256-GCM
/// of the data under the key with exactly that IV as nonce and bytes 0..5 as
/// associated data.
pub proof fn lemma_key_blob_layout(key: Seq<u8>, iv: Seq<u8>, data: Seq<u8>)
    requires
        iv.len() == 12,
    ensures
        key_blob(key, iv, data).subrange(0, 5) == v1_header_bytes(),
        key_blob(key, iv, data).subrange(5, 17) == iv,
        key_blob(key, iv, data).subrange(17, key_blob(key, iv, data).len() as int) == aes256gcm_seal(
            key,
            iv,
            data,
            v1_header_bytes(),
        ),
{
    let b = key_blob(key, iv, data);
    assert(header(VERSION) =~= v1_header_bytes());
    assert(b.subrange(0, 5) =~= v1_header_bytes());
    assert(b.subrange(5, 17) =~= iv);
    assert(b.subrange(17, b.len() as int) =~= aes256gcm_seal(key, iv, data, v1_header_bytes()));
}

/// Decrypting a version-1 blob opens bytes 17.. with AES-256-GCM under the
/// key, with the IV stored at bytes 5..17 as nonce and bytes 0..5 as
/// associated data: the plaintext when that authenticates, else
/// `AuthFailed`.
pub proof fn lemma_decrypt_uses_stored_nonce(blob: Seq<u8>, key: Seq<u8>)
    requires
        key.len() == 32,
        blob.len() >= 33,
        blob.subrange(0, 5) == v1_header_bytes(),
    ensures
        decrypt_spec(blob, key) == (match aes256gcm_open(
            key,
            blob.subrange(5, 17),
            blob.subrange(17, blob.len() as int),
            blob.subrange(0, 5),
        ) {
            Some(p) => Ok::<(Seq<u8>, Option<Seq<char>>), EncError>((p, None)),
            None => Err::<(Seq<u8>, Option<Seq<char>>), EncError>(EncError::AuthFailed),
        }),
{
    assert(blob[4] == blob.subrange(0, 5)[4]);
    assert(blob.subrange(0, 4) =~= magic()) by {
        assert forall|i: int| 0 <= i < 4 implies blob.subrange(0, 4)[i] == magic()[i] by {
            assert(blob.subrange(0, 4)[i] == blob.subrange(0, 5)[i]);
        }
    }
}

/// Given AES-GCM's own round trip for a key, nonce and message, a key-mode
/// blob sealed with that nonce as its IV decrypts to the message.
pub proof fn lemma_key_mode_roundtrip(key: Seq<u8>, iv: Seq<u8>, data: Seq<u8>)
    requires
        key.len() == 32,
        iv.len() == 12,
        aes256gcm_open(key, iv, aes256gcm_seal(key, iv, data, v1_header_bytes()), v1_header_bytes()) == Some(data),
        aes256gcm_seal(key, iv, data, v1_header_bytes()).len() == data.len() + 16,
    ensures
        decrypt_spec(header(VERSION) + iv + aes256gcm_seal(key, iv, data, v1_header_bytes()), key)
            == Ok::<(Seq<u8>, Option<Seq<char>>), EncError>((data, None)),
{
    let b = header(VERSION) + iv + aes256gcm_seal(key, iv, data, v1_header_bytes());
    assert(header(VERSION) =~= v1_header_bytes());
    assert(b.subrange(0, 5) =~= v1_header_bytes());
    assert(b.subrange(5, 17) =~= iv);
    assert(b.subrange(17, b.len() as int) =~= aes256gcm_seal(key, iv, data, v1_header_bytes()));
    lemma_decrypt_uses_stored_nonce(b, key);
}

} // verus!
