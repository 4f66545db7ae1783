//! Keys and secrets as text: where a secret comes from, hex keys, generated
//! keys, and SHA-256 checks of files.

use vstd::prelude::*;
use vstd::string::StrSliceExecFns;
use vstd::utf8::{encode_utf8, is_ascii_chars};

use crate::error::{EncError, HexError};
use crate::layout::KEY_LEN;
use crate::primitives::{
    hex_digit, fill_random, hex_bytes, hex_decode, hex_decode_spec, hex_encode, hex_text, hex_value,
    first_non_hex, sha256_digest, sha256_of,
};
use crate::stdtext::{
    opt_view, eq_ignore_ascii_case, eq_ignore_ascii_case_spec, is_white_space, trim_end_spec, trim_spec,
    trim_start_spec, trim_str,
};

verus! {

/// Where a secret (a hex key or a password) comes from.
#[derive(Debug, PartialEq, Eq)]
pub enum SecretSource {
    /// Given inline or through the environment.
    Given(String),
    /// Not given; the user is to be asked at the terminal.
    Prompt,
    /// Not given, and there is no terminal to ask at.
    Missing,
}

/// A secret given inline wins; else a non-empty environment value.
pub open spec fn provided_spec(np: Option<Seq<char>>, env_value: Option<Seq<char>>) -> Option<Seq<char>> {
    match np {
        Some(s) => Some(s),
        None => match env_value {
            Some(v) if v.len() > 0 => Some(v),
            _ => None,
        },
    }
}

/// The secret given inline (`-np`), else the environment value when it is
/// non-empty, else none.
pub fn provided_secret(np: &Option<String>, env_value: Option<String>) -> (r: Option<String>)
    ensures
        opt_view(r) == provided_spec(opt_view(*np), opt_view(env_value)),
{
    match np {
        Some(s) => Some(s.clone()),
        None => match env_value {
            Some(v) => {
                if v.as_str().unicode_len() > 0 {
                    Some(v)
                } else {
                    None
                }
            },
            None => None,
        },
    }
}

/// Decides where a decryption secret comes from: inline, else the
/// environment (when non-empty), else a prompt when stdin is a terminal, else
/// nowhere.
pub fn secret_source(np: &Option<String>, env_value: Option<String>, stdin_is_terminal: bool) -> (r: SecretSource)
    ensures
        match provided_spec(opt_view(*np), opt_view(env_value)) {
            Some(s) => r matches SecretSource::Given(g) && g@ == s,
            None => r == (if stdin_is_terminal { SecretSource::Prompt } else { SecretSource::Missing }),
        },
{
    match provided_secret(np, env_value) {
        Some(s) => SecretSource::Given(s),
        None => {
            if stdin_is_terminal {
                SecretSource::Prompt
            } else {
                SecretSource::Missing
            }
        },
    }
}

/// `s` without the `\r` and `\n` characters at its end.
pub open spec fn strip_line_ending_spec(s: Seq<char>) -> Seq<char>
    decreases s.len(),
{
    if s.len() > 0 && (s.last() == '\r' || s.last() == '\n') {
        strip_line_ending_spec(s.drop_last())
    } else {
        s
    }
}

/// Removes every trailing `\r` and `\n` of a line read from the terminal.
pub fn strip_line_ending(line: &str) -> (r: String)
    ensures
        r@ == strip_line_ending_spec(line@),
{
    let mut end = line.unicode_len();
    assert(line@.subrange(0, end as int) =~= line@);
    while end > 0 && (line.get_char(end - 1) == '\r' || line.get_char(end - 1) == '\n')
        invariant
            end <= line@.len(),
            strip_line_ending_spec(line@) == strip_line_ending_spec(line@.subrange(0, end as int)),
        decreases end,
    {
        let ghost prefix = line@.subrange(0, end as int);
        assert(prefix.drop_last() =~= line@.subrange(0, end - 1));
        end = end - 1;
    }
    let kept = line.substring_char(0, end);
    assert(strip_line_ending_spec(kept@) == kept@);
    kept.to_owned()
}

/// The key bytes that a key text stands for: surrounding white space is
/// dropped and the rest is hex-decoded.
pub open spec fn key_text_spec(text: Seq<char>) -> Result<Seq<u8>, HexError> {
    hex_decode_spec(encode_utf8(trim_spec(text)))
}

/// Decodes a key given as hex text, ignoring surrounding white space.
pub fn parse_key_hex(text: &str) -> (r: Result<Vec<u8>, HexError>)
    ensures
        match r {
            Ok(v) => key_text_spec(text@) == Ok::<Seq<u8>, HexError>(v@),
            Err(e) => key_text_spec(text@) == Err::<Seq<u8>, HexError>(e),
        },
{
    let t = trim_str(text);
    hex_decode(t)
}

/// A result holding a key and, when it was generated, its hex text, by views.
pub open spec fn key_choice_view(r: Result<(Vec<u8>, Option<String>), EncError>) -> Result<(Seq<u8>, Option<Seq<char>>), EncError> {
    match r {
        Ok((k, g)) => Ok((k@, opt_view(g))),
        Err(e) => Err(e),
    }
}

/// A freshly drawn key together with its hex text, to be shown to the user.
pub fn generated_key(key: Vec<u8>) -> (r: (Vec<u8>, Option<String>))
    ensures
        r.0@ == key@,
        r.1 matches Some(h) && h@ == hex_text(key@),
{
    let text = hex_encode(key.as_slice());
    (key, Some(text))
}

/// The key for encryption: the provided secret (inline, else non-empty
/// environment value) decoded from hex, or, when none is provided, a fresh
/// random 32-byte key returned with its hex text.
pub fn key_for_encrypt(np: &Option<String>, env_value: Option<String>) -> (r: Result<(Vec<u8>, Option<String>), EncError>)
    ensures
        match provided_spec(opt_view(*np), opt_view(env_value)) {
            Some(s) => match key_text_spec(s) {
                Ok(k) => key_choice_view(r) == Ok::<(Seq<u8>, Option<Seq<char>>), EncError>((k, None)),
                Err(e) => r == Err::<(Vec<u8>, Option<String>), EncError>(EncError::BadKeyHex(e)),
            },
            None => match r {
                Ok((k, g)) => k@.len() == KEY_LEN && (g matches Some(h) && h@ == hex_text(k@)),
                Err(e) => e is Random,
            },
        },
{
    match provided_secret(np, env_value) {
        Some(text) => match parse_key_hex(text.as_str()) {
            Ok(k) => Ok((k, None)),
            Err(e) => Err(EncError::BadKeyHex(e)),
        },
        None => {
            let mut key: Vec<u8> = vec![0u8; KEY_LEN];
            match fill_random(&mut key) {
                Ok(()) => Ok(generated_key(key)),
                Err(msg) => Err(EncError::Random(msg)),
            }
        },
    }
}

/// Generates a reusable random 32-byte key and returns it as 64 lowercase hex
/// digits.
pub fn keygen() -> (r: Result<String, EncError>)
    ensures
        r matches Ok(s) ==> exists|k: Seq<u8>| k.len() == KEY_LEN && s@ == #[trigger] hex_text(k),
        r matches Err(e) ==> e is Random,
{
    let mut key: Vec<u8> = vec![0u8; KEY_LEN];
    match fill_random(&mut key) {
        Ok(()) => {
            let text = hex_encode(key.as_slice());
            assert(key@.len() == KEY_LEN && text@ == hex_text(key@));
            Ok(text)
        },
        Err(msg) => Err(EncError::Random(msg)),
    }
}

/// The SHA-256 of data as lowercase hex.
pub fn sha256_hex(data: &[u8]) -> (h: String)
    ensures
        h@ == hex_text(sha256_of(data@)),
        h@.len() == 64,
{
    let d = sha256_digest(data);
    hex_encode(d.as_slice())
}

/// Whether a computed hash matches an expected one given by the user: equal
/// ignoring ASCII case, after dropping white space around the expected one.
pub fn hash_matches(hash: &str, expected: &str) -> (b: bool)
    ensures
        b == eq_ignore_ascii_case_spec(hash@, trim_spec(expected@)),
{
    eq_ignore_ascii_case(hash, trim_str(expected))
}

/// The hex digit of a nibble is an ASCII byte whose hex value is the nibble.
proof fn lemma_hex_digit_value(n: int)
    requires
        0 <= n < 16,
    ensures
        '\0' <= hex_digit(n) <= '\u{7f}',
        !is_white_space(hex_digit(n)),
        hex_value(hex_digit(n) as u8) == Some(n as u8),
{
}

/// Hex text has no white space at either end, so trimming keeps it.
proof fn lemma_hex_text_trimmed(k: Seq<u8>)
    ensures
        trim_spec(hex_text(k)) == hex_text(k),
{
    let h = hex_text(k);
    if h.len() > 0 {
        lemma_hex_digit_value(k[0] as int / 16);
        assert(trim_start_spec(h) == h);
        let last = h.len() - 1;
        assert(last % 2 == 1);
        lemma_hex_digit_value(k[last / 2] as int % 16);
        assert(h.last() == h[last]);
        assert(trim_end_spec(h) == h);
    }
}

/// Decoding the hex text of a key gives the key back: a key printed by
/// `keygen`, or generated for an encryption, is accepted as the key to decrypt.
pub proof fn lemma_key_text_roundtrip(k: Seq<u8>)
    ensures
        key_text_spec(hex_text(k)) == Ok::<Seq<u8>, HexError>(k),
{
    let h = hex_text(k);
    lemma_hex_text_trimmed(k);
    assert forall|i: int| 0 <= i < h.len() implies '\0' <= #[trigger] h[i] <= '\u{7f}' by {
        if i % 2 == 0 {
            lemma_hex_digit_value(k[i / 2] as int / 16);
        } else {
            lemma_hex_digit_value(k[i / 2] as int % 16);
        }
    }
    assert(is_ascii_chars(h));
    vstd::utf8::is_ascii_chars_encode_utf8(h);
    let b = encode_utf8(h);
    assert(b.len() == 2 * k.len());
    assert forall|i: int| 0 <= i < b.len() implies (#[trigger] hex_value(b[i])) is Some by {
        assert(b[i] == h[i] as u8);
        if i % 2 == 0 {
            lemma_hex_digit_value(k[i / 2] as int / 16);
        } else {
            lemma_hex_digit_value(k[i / 2] as int % 16);
        }
    }
    assert(!exists|i: int| first_non_hex(b, i));
    assert forall|j: int| 0 <= j < k.len() implies #[trigger] hex_bytes(b)[j] == k[j] by {
        assert(b[2 * j] == h[2 * j] as u8);
        assert(b[2 * j + 1] == h[2 * j + 1] as u8);
        lemma_hex_digit_value(k[j] as int / 16);
        lemma_hex_digit_value(k[j] as int % 16);
        assert((2 * j) / 2 == j);
        assert((2 * j + 1) / 2 == j);
    }
    assert(hex_bytes(b) =~= k);
}

} // verus!
