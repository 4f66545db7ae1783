use aes_gcm::aead::{Aead, KeyInit, Payload};
use aes_gcm::{Aes256Gcm, Key, Nonce};
use sha2::{Digest, Sha256};

use enc::cli::{
    bold, classify_command, color_choice, cyan, dim, extract_np, green, paint, parse_len_and_path,
    secret_kind, smart_action, unpack_as_folder, yellow, Command, SecretKind,
    SmartAction,
};
use enc::error::{EncError, HexError};
use enc::genpass::{genpass, password_char, password_from_bytes};
use enc::keymode::{decrypt, encrypt, encrypt_dir, encrypt_with_iv, open_payload};
use enc::keys::{
    hash_matches, key_for_encrypt, keygen, parse_key_hex, secret_source, sha256_hex,
    strip_line_ending, SecretSource,
};
use enc::layout::{looks_like_tar, peek_version};
use enc::size::{human_size, size_unit};
use enc::stdtext::{eq_ignore_ascii_case, parse_usize, str_eq, trim_str};
use enc::naming::{dec_path_for, default_dec_base, default_enc_name, enc_path_for};
use enc::password::{decrypt_pw, derive_key, encrypt_pw, encrypt_pw_with};

const ALPHABET: &str =
    "ABCDEFGHIJKLMNOPQRSTUVWXYZabcdefghijklmnopqrstuvwxyz0123456789!@#$%^&*()-_=+[]{}:,.?";

fn key32(b: u8) -> Vec<u8> {
    vec![b; 32]
}

fn seal_with_crate(key: &[u8], iv: &[u8], msg: &[u8], aad: &[u8]) -> Vec<u8> {
    let cipher = Aes256Gcm::new(Key::<Aes256Gcm>::from_slice(key));
    cipher.encrypt(Nonce::from_slice(iv), Payload { msg, aad }).unwrap()
}

fn blob_of_version(version: u8, key: &[u8], payload: &[u8]) -> Vec<u8> {
    let header = [b'E', b'N', b'C', b'1', version];
    let iv = [9u8; 12];
    let mut out = header.to_vec();
    out.extend_from_slice(&iv);
    out.extend_from_slice(&seal_with_crate(key, &iv, payload, &header));
    out
}

// ---------------- key mode ----------------

#[test]
fn key_mode_roundtrip() {
    let key = key32(7);
    let data = b"dear diary".to_vec();
    let blob = encrypt(&data, &key).unwrap();
    assert_eq!(blob.len(), data.len() + 33);
    assert_eq!(&blob[..5], b"ENC1\x01");
    assert_eq!(peek_version(&blob), Ok(1));
    assert_eq!(decrypt(&blob, &key), Ok((data, None)));
}

#[test]
fn key_mode_roundtrip_empty_data() {
    let key = key32(1);
    let blob = encrypt(&[], &key).unwrap();
    assert_eq!(blob.len(), 33);
    assert_eq!(decrypt(&blob, &key), Ok((vec![], None)));
}

#[test]
fn encrypt_with_iv_matches_aes_gcm() {
    let key = key32(3);
    let iv = [5u8; 12];
    let data = b"plaintext message";
    let out = encrypt_with_iv(data, &key, &iv).unwrap();
    let mut expected = b"ENC1\x01".to_vec();
    expected.extend_from_slice(&iv);
    expected.extend_from_slice(&seal_with_crate(&key, &iv, data, b"ENC1\x01"));
    assert_eq!(out, expected);
    assert_ne!(&out[17..17 + data.len()], &data[..]);
}

#[test]
fn encrypt_dir_roundtrip() {
    let key = key32(8);
    let tar = vec![0u8; 1024];
    let blob = encrypt_dir(&tar, &key).unwrap();
    assert_eq!(decrypt(&blob, &key), Ok((tar, None)));
}

#[test]
fn encrypting_twice_differs() {
    let key = key32(2);
    let a = encrypt(b"same", &key).unwrap();
    let b = encrypt(b"same", &key).unwrap();
    assert_ne!(a, b);
}

#[test]
fn encrypt_rejects_short_key() {
    assert_eq!(encrypt(b"x", &[0u8; 31]), Err(EncError::KeyLength));
    assert_eq!(encrypt(b"x", &[0u8; 33]), Err(EncError::KeyLength));
}

#[test]
fn decrypt_errors() {
    let key = key32(4);
    let blob = encrypt(b"secret", &key).unwrap();
    assert_eq!(decrypt(&blob, &key[..16]), Err(EncError::KeyLength));
    assert_eq!(decrypt(&blob[..32], &key), Err(EncError::TooShort));
    let mut bad_magic = blob.clone();
    bad_magic[0] = b'X';
    assert_eq!(decrypt(&bad_magic, &key), Err(EncError::BadMagic));
    let mut tampered = blob.clone();
    let last = tampered.len() - 1;
    tampered[last] ^= 1;
    assert_eq!(decrypt(&tampered, &key), Err(EncError::AuthFailed));
    assert_eq!(decrypt(&blob, &key32(5)), Err(EncError::AuthFailed));
    let mut other_version = blob.clone();
    other_version[4] = 2;
    assert_eq!(decrypt(&other_version, &key), Err(EncError::AuthFailed));
}

#[test]
fn decrypt_version_2_with_hash() {
    let key = key32(6);
    let data = b"hashed contents".to_vec();
    let digest = Sha256::digest(&data);
    let mut payload = digest.to_vec();
    payload.extend_from_slice(&data);
    let blob = blob_of_version(2, &key, &payload);
    let (plain, hash) = decrypt(&blob, &key).unwrap();
    assert_eq!(plain.len(), blob.len() - 65);
    assert_eq!(hash.as_ref().map(|h| h.len()), Some(64));
    assert_eq!((plain, hash), (data, Some(hex::encode(digest))));
}

#[test]
fn decrypt_version_2_errors() {
    let key = key32(6);
    let short = blob_of_version(2, &key, &[1u8; 31]);
    assert_eq!(decrypt(&short, &key), Err(EncError::MissingHash));
    let bad = blob_of_version(2, &key, &[0u8; 40]);
    assert_eq!(decrypt(&bad, &key), Err(EncError::IntegrityFailed));
    let v9 = blob_of_version(9, &key, b"abc");
    assert_eq!(decrypt(&v9, &key), Err(EncError::UnsupportedVersion(9)));
}

#[test]
fn open_payload_versions() {
    assert_eq!(open_payload(1, vec![1, 2]), Ok((vec![1, 2], None)));
    assert_eq!(open_payload(7, vec![1, 2]), Err(EncError::UnsupportedVersion(7)));
    let data = b"abc".to_vec();
    let mut payload = Sha256::digest(&data).to_vec();
    payload.extend_from_slice(&data);
    assert_eq!(
        open_payload(2, payload),
        Ok((data, Some("ba7816bf8f01cfea414140de5dae2223b00361a396177a9cb410ff61f20015ad".to_string())))
    );
}

#[test]
fn peek_version_errors() {
    assert_eq!(peek_version(&[0u8; 32]), Err(EncError::TooShort));
    assert_eq!(peek_version(&[0u8; 33]), Err(EncError::BadMagic));
    let mut blob = b"ENC1".to_vec();
    blob.push(3);
    blob.extend_from_slice(&[0u8; 28]);
    assert_eq!(peek_version(&blob), Ok(3));
}

#[test]
fn looks_like_tar_cases() {
    let mut data = vec![0u8; 512];
    assert!(!looks_like_tar(&data));
    data[257..262].copy_from_slice(b"ustar");
    assert!(looks_like_tar(&data));
    assert!(!looks_like_tar(&data[..511]));
}

// ---------------- password mode ----------------

#[test]
fn derive_key_matches_scrypt() {
    let salt = [1u8; 16];
    let key = derive_key("hunter2", &salt).unwrap();
    let params = scrypt::Params::new(15, 8, 1, 32).unwrap();
    let mut expected = [0u8; 32];
    scrypt::scrypt(b"hunter2", &salt, &params, &mut expected).unwrap();
    assert_eq!(key, expected.to_vec());
    assert_ne!(key, derive_key("hunter3", &salt).unwrap());
}

#[test]
fn password_mode_roundtrip() {
    let data = b"folder bytes".to_vec();
    let blob = encrypt_pw(&data, "correct horse").unwrap();
    assert_eq!(blob.len(), data.len() + 49);
    assert_eq!(&blob[..5], b"ENC1\x03");
    assert_eq!(peek_version(&blob), Ok(3));
    assert_eq!(decrypt_pw(&blob, "correct horse"), Ok(data));
    assert_eq!(decrypt_pw(&blob, "wrong horse"), Err(EncError::WrongPassword));
}

#[test]
fn encrypt_pw_with_layout() {
    let salt = [2u8; 16];
    let iv = [3u8; 12];
    let out = encrypt_pw_with(b"abc", "pw", &salt, &iv).unwrap();
    let key = derive_key("pw", &salt).unwrap();
    let mut header = b"ENC1\x03".to_vec();
    header.extend_from_slice(&salt);
    let mut expected = header.clone();
    expected.extend_from_slice(&iv);
    expected.extend_from_slice(&seal_with_crate(&key, &iv, b"abc", &header));
    assert_eq!(out, expected);
}

#[test]
fn decrypt_pw_errors() {
    assert_eq!(decrypt_pw(&[0u8; 48], "pw"), Err(EncError::TooShort));
    let key_blob = encrypt(&[0u8; 20], &key32(1)).unwrap();
    assert_eq!(decrypt_pw(&key_blob, "pw"), Err(EncError::NotPasswordFile));
    let mut not_magic = vec![0u8; 60];
    not_magic[4] = 3;
    assert_eq!(decrypt_pw(&not_magic, "pw"), Err(EncError::NotPasswordFile));
}

#[test]
fn genpass_length_and_alphabet() {
    let pw = genpass(30).unwrap();
    assert_eq!(pw.chars().count(), 30);
    assert!(pw.chars().all(|c| ALPHABET.contains(c)));
    assert_eq!(genpass(0).unwrap(), "");
}

#[test]
fn password_from_drawn_bytes() {
    assert_eq!(password_from_bytes(&[0, 252, 1, 255, 83, 2], 3), "AB?");
    assert_eq!(password_from_bytes(&[0, 252, 1, 255, 83, 2], 10), "AB?C");
    assert_eq!(password_from_bytes(&[84, 168, 26], 0), "");
    assert_eq!(password_from_bytes(&[84, 168, 26, 52], 4), "AAa0");
}

#[test]
fn password_char_rejection_sampling() {
    assert_eq!(password_char(0), Some('A'));
    assert_eq!(password_char(83), Some('?'));
    assert_eq!(password_char(84), Some('A'));
    assert_eq!(password_char(168), Some('A'));
    assert_eq!(password_char(251), Some('?'));
    assert_eq!(password_char(252), None);
    assert_eq!(password_char(255), None);
    for k in 0..84u32 {
        let hits = (0..=255u8).filter(|b| password_char(*b) == ALPHABET.chars().nth(k as usize)).count();
        assert_eq!(hits, 3);
    }
}

// ---------------- keys ----------------

#[test]
fn parse_key_hex_cases() {
    assert_eq!(parse_key_hex(" 0a0B\r\n"), Ok(vec![10, 11]));
    assert_eq!(parse_key_hex("abc"), Err(HexError::OddLength));
    assert_eq!(parse_key_hex("zz"), Err(HexError::InvalidHexCharacter { c: 'z', index: 0 }));
    assert_eq!(parse_key_hex("0g"), Err(HexError::InvalidHexCharacter { c: 'g', index: 1 }));
    assert_eq!(parse_key_hex(""), Ok(vec![]));
}

#[test]
fn keygen_roundtrip() {
    let text = keygen().unwrap();
    assert_eq!(text.len(), 64);
    assert!(text.chars().all(|c| c.is_ascii_hexdigit() && !c.is_ascii_uppercase()));
    let key = parse_key_hex(&text).unwrap();
    assert_eq!(key.len(), 32);
    assert_eq!(hex::encode(&key), text);
}

#[test]
fn key_for_encrypt_sources() {
    let hex64 = "00".repeat(31) + "ff";
    let np = Some(hex64.clone());
    let (k, g) = key_for_encrypt(&np, Some("11".repeat(32))).unwrap();
    assert_eq!(k[31], 0xff);
    assert_eq!(g, None);
    let (k, g) = key_for_encrypt(&None, Some("11".repeat(32))).unwrap();
    assert_eq!(k, vec![0x11; 32]);
    assert_eq!(g, None);
    let (k, g) = key_for_encrypt(&None, Some(String::new())).unwrap();
    assert_eq!(k.len(), 32);
    assert_eq!(g, Some(hex::encode(&k)));
    assert_eq!(
        key_for_encrypt(&Some("xyz".to_string()), None),
        Err(EncError::BadKeyHex(HexError::OddLength))
    );
}

#[test]
fn secret_source_order() {
    assert_eq!(
        secret_source(&Some("a".to_string()), Some("b".to_string()), false),
        SecretSource::Given("a".to_string())
    );
    assert_eq!(secret_source(&None, Some("b".to_string()), false), SecretSource::Given("b".to_string()));
    assert_eq!(secret_source(&None, Some(String::new()), true), SecretSource::Prompt);
    assert_eq!(secret_source(&None, None, false), SecretSource::Missing);
}

#[test]
fn strip_line_ending_cases() {
    assert_eq!(strip_line_ending("pw\r\n"), "pw");
    assert_eq!(strip_line_ending("a\n\n"), "a");
    assert_eq!(strip_line_ending("a\nb"), "a\nb");
    assert_eq!(strip_line_ending(" x "), " x ");
}

#[test]
fn sha256_hex_and_match() {
    let h = sha256_hex(b"abc");
    assert_eq!(h, "ba7816bf8f01cfea414140de5dae2223b00361a396177a9cb410ff61f20015ad");
    assert!(hash_matches(&h, "  BA7816BF8F01CFEA414140DE5DAE2223B00361A396177A9CB410FF61F20015AD \n"));
    assert!(!hash_matches(&h, "ba78"));
}

// ---------------- names, sizes, colours ----------------

#[test]
fn default_names() {
    assert_eq!(default_enc_name("diary.txt"), "diary.txt.enc");
    assert_eq!(default_enc_name("dir/diary.txt"), "dir/diary.txt.enc");
    assert_eq!(default_enc_name("/app"), "/app.enc");
    assert_eq!(default_enc_name("Photos/"), "Photos.enc");
    assert_eq!(default_enc_name("a/."), "a.enc");
    assert_eq!(default_enc_name(".."), "output.enc");
    assert_eq!(default_enc_name(""), "output.enc");
    assert_eq!(default_dec_base("dir/diary.txt.enc"), "dir/diary.txt");
    assert_eq!(default_dec_base("/app.enc"), "/app");
    assert_eq!(default_dec_base(".enc"), ".enc.out");
    assert_eq!(default_dec_base("notes.txt"), "notes.txt.out");
    assert_eq!(default_dec_base(".."), "output.out");
}

#[test]
fn names_roundtrip() {
    assert_eq!(default_enc_name("dir\\x.txt"), "dir\\x.txt.enc");
    assert_eq!(default_enc_name("C:\\dir\\x.txt"), "C:\\dir\\x.txt.enc");
    assert_eq!(default_enc_name("dir/a:b"), "dir/a:b.enc");
    assert_eq!(default_dec_base("a\\b.enc"), "a\\b");
    assert_eq!(default_dec_base("dir/a:b.enc"), "dir/a:b");
    for p in ["diary.txt", "dir/diary.txt", "/app", "Photos", "dir\\x.txt", "C:\\dir\\x.txt", "dir/a:b"] {
        let e = default_enc_name(p);
        assert_eq!(e, format!("{p}.enc"));
        assert_eq!(default_dec_base(&e), p);
    }
    assert_eq!(enc_path_for("x/y", Some("y".to_string())), "x/y.enc");
    assert_eq!(enc_path_for("x/y/", Some("y".to_string())), "x/y.enc");
    assert_eq!(enc_path_for("x", None), "output.enc");
    assert_eq!(dec_path_for("x/y.enc", Some("y.enc".to_string())), "x/y");
    assert_eq!(dec_path_for("x/y", Some("y".to_string())), "x/y.out");
    assert_eq!(dec_path_for("x", None), "output.out");
}

#[test]
fn size_units() {
    assert_eq!(size_unit(0), 0);
    assert_eq!(size_unit(1023), 0);
    assert_eq!(size_unit(1024), 1);
    assert_eq!(size_unit(1048575), 1);
    assert_eq!(size_unit(1048576), 2);
    assert_eq!(size_unit(1 << 30), 3);
    assert_eq!(size_unit(1 << 40), 4);
    assert_eq!(size_unit(u64::MAX), 4);
}

#[test]
fn colours() {
    assert!(!color_choice(true, true, true));
    assert!(color_choice(false, true, false));
    assert!(color_choice(false, false, true));
    assert!(!color_choice(false, false, false));
    assert_eq!(paint(true, "1", "x"), "\x1b[1mx\x1b[0m");
    assert_eq!(paint(false, "1", "x"), "x");
    assert_eq!(green(true, "ok"), "\x1b[1;32mok\x1b[0m");
    assert_eq!(bold(true, "b"), "\x1b[1mb\x1b[0m");
    assert_eq!(dim(true, "d"), "\x1b[2md\x1b[0m");
    assert_eq!(cyan(true, "c"), "\x1b[36mc\x1b[0m");
    assert_eq!(yellow(true, "y"), "\x1b[1;33my\x1b[0m");
    assert_eq!(yellow(false, "y"), "y");
}

// ---------------- command line ----------------

#[test]
fn smart_mode() {
    let blob = encrypt(b"x", &key32(1)).unwrap();
    assert_eq!(smart_action(false, &blob[..4]), SmartAction::Decrypt);
    assert_eq!(smart_action(true, &blob[..4]), SmartAction::Encrypt);
    assert_eq!(smart_action(false, b"ENC"), SmartAction::Encrypt);
    assert_eq!(smart_action(false, b"text"), SmartAction::Encrypt);
}

#[test]
fn parse_len_and_path_cases() {
    let v = |xs: &[&str]| xs.iter().map(|s| s.to_string()).collect::<Vec<String>>();
    assert_eq!(parse_len_and_path(&v(&["30", "f"])), (30, Some("f")));
    assert_eq!(parse_len_and_path(&v(&["f"])), (24, Some("f")));
    assert_eq!(parse_len_and_path(&v(&[])), (24, None));
    assert_eq!(parse_len_and_path(&v(&["+5"])), (5, None));
    assert_eq!(parse_len_and_path(&v(&["-5", "x"])), (24, Some("-5")));
}

#[test]
fn extract_np_cases() {
    let v = |xs: &[&str]| xs.iter().map(|s| s.to_string()).collect::<Vec<String>>();
    assert_eq!(
        extract_np(&v(&["enc", "a", "-np", "s", "b"])),
        Some((Some("s".to_string()), v(&["enc", "a", "b"])))
    );
    assert_eq!(
        extract_np(&v(&["enc", "-np", "1", "-np", "2"])),
        Some((Some("2".to_string()), v(&["enc"])))
    );
    assert_eq!(extract_np(&v(&["enc", "x"])), Some((None, v(&["enc", "x"]))));
    assert_eq!(extract_np(&v(&["enc", "-np"])), None);
}

#[test]
fn commands() {
    assert_eq!(classify_command("help"), Command::Help);
    assert_eq!(classify_command("--help"), Command::Help);
    assert_eq!(classify_command("keygen"), Command::Keygen);
    assert_eq!(classify_command("pass"), Command::Password);
    assert_eq!(classify_command("hash"), Command::Sha256);
    assert_eq!(classify_command("encrypt"), Command::Encrypt);
    assert_eq!(classify_command("decrypt-dir"), Command::DecryptDir);
    assert_eq!(classify_command("diary.txt"), Command::Smart);
}

#[test]
fn decrypt_dispatch() {
    assert_eq!(secret_kind(3), SecretKind::Password);
    assert_eq!(secret_kind(1), SecretKind::Key);
    assert_eq!(secret_kind(2), SecretKind::Key);
    assert!(unpack_as_folder(true, b"x"));
    assert!(!unpack_as_folder(false, b"x"));
}

fn float_human_size(b: u64) -> String {
    const U: [&str; 5] = ["B", "KB", "MB", "GB", "TB"];
    let mut f = b as f64;
    let mut i = 0;
    while f >= 1024.0 && i < U.len() - 1 {
        f /= 1024.0;
        i += 1;
    }
    if i == 0 {
        format!("{b} B")
    } else {
        format!("{f:.1} {}", U[i])
    }
}

#[test]
fn human_size_examples() {
    assert_eq!(human_size(0), "0 B");
    assert_eq!(human_size(1023), "1023 B");
    assert_eq!(human_size(1024), "1.0 KB");
    assert_eq!(human_size(1536), "1.5 KB");
    assert_eq!(human_size(1280), "1.2 KB");
    assert_eq!(human_size(1048575), "1024.0 KB");
    assert_eq!(human_size(5 << 30), "5.0 GB");
    assert_eq!(human_size(u64::MAX), "16777216.0 TB");
}

#[test]
fn human_size_agrees_with_float_printing() {
    let mut values: Vec<u64> = vec![0, 1, 9, 10, 99, 100, 1000, 1023, 1024, 1025, 1075, 1076, 1126, 1127];
    for i in 1..5u32 {
        let p = 1u64 << (10 * i);
        for k in [1u64, 2, 3, 7, 10, 100, 1000, 1023, 1024] {
            for d in [0i64, -1, 1, (p / 20) as i64, (p / 20) as i64 + 1, (p / 20) as i64 - 1] {
                let v = (k as i128) * (p as i128) + d as i128;
                if v >= 0 && v <= u64::MAX as i128 {
                    values.push(v as u64);
                }
            }
        }
    }
    let mut x: u64 = 0x9e37_79b9_7f4a_7c15;
    for _ in 0..20000 {
        x ^= x << 13;
        x ^= x >> 7;
        x ^= x << 17;
        values.push(x >> (x % 64));
        values.push(x);
    }
    for e in 52..64u32 {
        let base = 1u64 << e;
        for d in 0..64u64 {
            values.push(base + d);
            values.push(base.wrapping_sub(d + 1));
        }
    }
    values.push(u64::MAX);
    for b in values {
        assert_eq!(human_size(b), float_human_size(b), "b = {b}");
    }
}

#[test]
fn error_messages() {
    assert_eq!(EncError::KeyLength.message(), "key must be 32 bytes");
    assert_eq!(EncError::TooShort.message(), "blob too short");
    assert_eq!(EncError::BadMagic.message(), "bad magic (not an enc file)");
    assert_eq!(EncError::AuthFailed.message(), "message authentication failed");
    assert_eq!(EncError::MissingHash.message(), "corrupt: missing integrity hash");
    assert_eq!(EncError::IntegrityFailed.message(), "SHA-256 integrity check FAILED");
    assert_eq!(EncError::UnsupportedVersion(9).message(), "unsupported format version 9");
    assert_eq!(EncError::UnsupportedVersion(255).message(), "unsupported format version 255");
    assert_eq!(EncError::NotPasswordFile.message(), "not a password-mode file");
    assert_eq!(EncError::WrongPassword.message(), "wrong password or corrupted file");
    assert_eq!(EncError::EncryptionFailed.message(), "encryption failed");
    assert_eq!(EncError::Random("os said no".to_string()).message(), "os said no");
    assert_eq!(EncError::KeyDerivation("bad".to_string()).message(), "bad");
    assert_eq!(EncError::BadKeyHex(HexError::OddLength).message(), "bad key hex: Odd number of digits");
    assert_eq!(
        EncError::BadKeyHex(HexError::InvalidHexCharacter { c: 'z', index: 12 }).message(),
        "bad key hex: Invalid character 'z' at position 12"
    );
    assert_eq!(
        EncError::BadKeyHex(HexError::InvalidStringLength).message(),
        "bad key hex: Invalid string length"
    );
}

#[test]
fn decrypted_lengths() {
    let key = key32(9);
    let blob = encrypt(&[5u8; 100], &key).unwrap();
    let (p, h) = decrypt(&blob, &key).unwrap();
    assert_eq!(p.len(), blob.len() - 33);
    assert!(h.is_none());
    let pw_blob = encrypt_pw(&[6u8; 10], "pw").unwrap();
    assert_eq!(decrypt_pw(&pw_blob, "pw").unwrap().len(), pw_blob.len() - 49);
    assert_eq!(sha256_hex(b"").len(), 64);
}

#[test]
fn hex_char_messages_match_debug() {
    for b in 0u8..128 {
        let c = b as char;
        let e = EncError::BadKeyHex(HexError::InvalidHexCharacter { c, index: 7 });
        assert_eq!(e.message(), format!("bad key hex: Invalid character {c:?} at position 7"));
    }
    assert_eq!(
        EncError::BadKeyHex(HexError::InvalidHexCharacter { c: '\n', index: 0 }).message(),
        "bad key hex: Invalid character '\\n' at position 0"
    );
    assert_eq!(
        EncError::BadKeyHex(HexError::InvalidHexCharacter { c: '\u{7f}', index: 3 }).message(),
        "bad key hex: Invalid character '\\u{7f}' at position 3"
    );
}

#[test]
fn text_operations_agree_with_std() {
    let samples = [
        "", " ", "\t a b \n", "\u{3000}x\u{a0}", "abc", "ABC", "aBc", "12", "+12", "-12", "+", "007",
        "18446744073709551615", "18446744073709551616", "1a", "é", "É", "\u{85}y\u{2028}",
    ];
    for a in samples {
        assert_eq!(trim_str(a), a.trim());
        assert_eq!(parse_usize(a), a.parse::<usize>().ok());
        for b in samples {
            assert_eq!(str_eq(a, b), a == b);
            assert_eq!(eq_ignore_ascii_case(a, b), a.eq_ignore_ascii_case(b));
        }
    }
}

#[test]
fn trailing_separator_names() {
    assert_eq!(default_enc_name("Photos/"), "Photos.enc");
    assert_eq!(default_enc_name("dir/Photos//./"), "dir/Photos.enc");
    assert_eq!(default_enc_name("x/."), "x.enc");
    assert_eq!(default_enc_name("a:b"), "a:b.enc");
    assert_eq!(default_enc_name("a:b/"), "a:b.enc");
    assert_eq!(default_dec_base("Photos.enc/"), "Photos");
    assert_eq!(default_dec_base("a:b.enc"), "a:b");
    assert_eq!(default_dec_base(default_enc_name("Photos/").as_str()), "Photos");
}
