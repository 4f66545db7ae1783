use vstd::prelude::*;

use crate::error::EncError;

verus! {

/// Format version written in key mode.
pub const VERSION: u8 = 1;
/// Legacy key-mode version whose payload starts with a SHA-256 of the data.
pub const VERSION_HASHED: u8 = 2;
/// Format version written in password mode.
pub const VERSION_PW: u8 = 3;
/// Magic (4 bytes) plus version (1 byte).
pub const HEADER_LEN: usize = 5;
/// AES-GCM nonce length.
pub const IV_LEN: usize = 12;
/// AES-GCM tag length.
pub const TAG_LEN: usize = 16;
/// SHA-256 digest length.
pub const SHA_LEN: usize = 32;
/// scrypt salt length in password mode.
pub const SALT_LEN: usize = 16;
/// AES-256 key length.
pub const KEY_LEN: usize = 32;

/// The four magic bytes `ENC1`.
pub open spec fn magic() -> Seq<u8> {
    seq![0x45u8, 0x4eu8, 0x43u8, 0x31u8]
}

/// Magic followed by a version byte.
pub open spec fn header(version: u8) -> Seq<u8> {
    magic().push(version)
}

/// Whether `blob` starts with the magic.
pub open spec fn starts_with_magic(blob: Seq<u8>) -> bool {
    blob.len() >= 4 && blob.subrange(0, 4) == magic()
}

/// `peek_version` as a function on bytes.
pub open spec fn peek_version_spec(blob: Seq<u8>) -> Result<u8, EncError> {
    if blob.len() < HEADER_LEN + IV_LEN + TAG_LEN {
        Err(EncError::TooShort)
    } else if !starts_with_magic(blob) {
        Err(EncError::BadMagic)
    } else {
        Ok(blob[4])
    }
}

/// Tests the first four bytes of `blob` against the magic.
pub fn has_magic(blob: &[u8]) -> (b: bool)
    requires
        blob@.len() >= 4,
    ensures
        b == starts_with_magic(blob@),
{
    let b = blob[0] == 0x45u8 && blob[1] == 0x4eu8 && blob[2] == 0x43u8 && blob[3] == 0x31u8;
    proof {
        if b {
            assert(blob@.subrange(0, 4) =~= magic());
        } else {
            if blob@.subrange(0, 4) == magic() {
                assert(blob@.subrange(0, 4)[0] == blob@[0]);
                assert(blob@.subrange(0, 4)[1] == blob@[1]);
                assert(blob@.subrange(0, 4)[2] == blob@[2]);
                assert(blob@.subrange(0, 4)[3] == blob@[3]);
            }
        }
    }
    b
}

/// Reads the format version byte of a blob without decrypting it.
pub fn peek_version(blob: &[u8]) -> (r: Result<u8, EncError>)
    ensures
        r == peek_version_spec(blob@),
{
    if blob.len() < HEADER_LEN + IV_LEN + TAG_LEN {
        return Err(EncError::TooShort);
    }
    if !has_magic(blob) {
        return Err(EncError::BadMagic);
    }
    Ok(blob[4])
}

/// The bytes `ustar` that a POSIX tar header carries at offset 257.
pub open spec fn ustar() -> Seq<u8> {
    seq![0x75u8, 0x73u8, 0x74u8, 0x61u8, 0x72u8]
}

/// Whether `data` is at least one tar block long and carries the `ustar` mark.
pub open spec fn looks_like_tar_spec(data: Seq<u8>) -> bool {
    data.len() >= 512 && data.subrange(257, 262) == ustar()
}

/// Whether decrypted bytes look like a tar archive (and so came from a folder).
pub fn looks_like_tar(data: &[u8]) -> (b: bool)
    ensures
        b == looks_like_tar_spec(data@),
        b == (data@.len() >= 512 && data@[257] == 0x75u8 && data@[258] == 0x73u8 && data@[259] == 0x74u8
            && data@[260] == 0x61u8 && data@[261] == 0x72u8),
{
    if data.len() < 512 {
        return false;
    }
    let b = data[257] == 0x75u8 && data[258] == 0x73u8 && data[259] == 0x74u8
        && data[260] == 0x61u8 && data[261] == 0x72u8;
    proof {
        let s = data@.subrange(257, 262);
        lemma_tar_mark(data@);
        if b {
            assert(s =~= ustar());
        } else if s == ustar() {
            assert(s[0] == data@[257]);
            assert(s[1] == data@[258]);
            assert(s[2] == data@[259]);
            assert(s[3] == data@[260]);
            assert(s[4] == data@[261]);
        }
    }
    b
}

/// Decrypted bytes are taken for a tar archive exactly when they hold at
/// least one 512-byte block and bytes 257..262 spell `ustar`; nothing else
/// in the data matters, whatever follows the mark (`ustar\0` of POSIX or
/// `ustar  ` of GNU archives).
pub proof fn lemma_tar_mark(data: Seq<u8>)
    ensures
        looks_like_tar_spec(data) <==> (data.len() >= 512 && data[257] == 0x75u8 && data[258] == 0x73u8
            && data[259] == 0x74u8 && data[260] == 0x61u8 && data[261] == 0x72u8),
{
    if data.len() >= 512 {
        let m = data.subrange(257, 262);
        if data[257] == 0x75u8 && data[258] == 0x73u8 && data[259] == 0x74u8 && data[260] == 0x61u8
            && data[261] == 0x72u8 {
            assert(m =~= ustar());
        }
        if m == ustar() {
            assert(m[0] == data[257] && m[1] == data[258] && m[2] == data[259] && m[3] == data[260]
                && m[4] == data[261]);
        }
    }
}

/// Changing a byte outside the `ustar` mark does not change whether the
/// data is taken for a tar archive.
pub proof fn lemma_tar_mark_only(data: Seq<u8>, i: int, b: u8)
    requires
        0 <= i < data.len(),
        !(257 <= i < 262),
    ensures
        looks_like_tar_spec(data.update(i, b)) == looks_like_tar_spec(data),
{
    lemma_tar_mark(data);
    lemma_tar_mark(data.update(i, b));
}

} // verus!
