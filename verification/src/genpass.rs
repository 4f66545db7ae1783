//! Random passwords drawn uniformly from a fixed alphabet by rejection sampling.

use vstd::prelude::*;
use vstd::string::StrSliceExecFns;

use crate::error::EncError;
use crate::primitives::fill_random;
use crate::stdtext::string_push;

verus! {

/// Upper and lower case letters, digits and 22 punctuation marks.
pub open spec fn alphabet() -> Seq<char> {
    seq![
        'A', 'B', 'C', 'D', 'E', 'F', 'G', 'H', 'I', 'J', 'K', 'L', 'M',
        'N', 'O', 'P', 'Q', 'R', 'S', 'T', 'U', 'V', 'W', 'X', 'Y', 'Z',
        'a', 'b', 'c', 'd', 'e', 'f', 'g', 'h', 'i', 'j', 'k', 'l', 'm',
        'n', 'o', 'p', 'q', 'r', 's', 't', 'u', 'v', 'w', 'x', 'y', 'z',
        '0', '1', '2', '3', '4', '5', '6', '7', '8', '9',
        '!', '@', '#', '$', '%', '^', '&', '*', '(', ')', '-', '_', '=', '+',
        '[', ']', '{', '}', ':', ',', '.', '?'
    ]
}

/// Number of characters in the alphabet.
pub open spec fn alphabet_len() -> nat {
    84
}

/// Random bytes at or above this bound are rejected, so that each character
/// stands for the same number of byte values.
pub open spec fn accept_bound() -> nat {
    (256nat / alphabet_len()) * alphabet_len()
}

/// The character that a random byte gives, or nothing when it is rejected.
pub open spec fn password_char_spec(b: u8) -> Option<char> {
    if (b as nat) < accept_bound() {
        Some(alphabet()[b as int % alphabet_len() as int])
    } else {
        None
    }
}

/// The alphabet as text.
fn alphabet_text() -> (s: &'static str)
    ensures
        s@ == alphabet(),
{
    let s = "ABCDEFGHIJKLMNOPQRSTUVWXYZabcdefghijklmnopqrstuvwxyz0123456789!@#$%^&*()-_=+[]{}:,.?";
    proof {
        reveal_strlit("ABCDEFGHIJKLMNOPQRSTUVWXYZabcdefghijklmnopqrstuvwxyz0123456789!@#$%^&*()-_=+[]{}:,.?");
        assert(s@ =~= alphabet());
    }
    s
}

/// Maps one random byte to a password character, rejecting the bytes at or
/// above the acceptance bound.
pub fn password_char(b: u8) -> (c: Option<char>)
    ensures
        c == password_char_spec(b),
{
    let chars = alphabet_text();
    let n = chars.unicode_len();
    let max = (256 / n) * n;
    if (b as usize) < max {
        Some(chars.get_char((b as usize) % n))
    } else {
        None
    }
}

/// Every alphabet character.
pub open spec fn all_in_alphabet(s: Seq<char>) -> bool {
    forall|i: int| 0 <= i < s.len() ==> alphabet().contains(#[trigger] s[i])
}

/// The characters that a sequence of random bytes gives, in order, the
/// rejected bytes giving none.
pub open spec fn accepted_chars(bytes: Seq<u8>) -> Seq<char>
    decreases bytes.len(),
{
    if bytes.len() == 0 {
        Seq::empty()
    } else {
        let rest = accepted_chars(bytes.drop_last());
        match password_char_spec(bytes.last()) {
            Some(c) => rest.push(c),
            None => rest,
        }
    }
}

/// The password that random bytes give: the first `len` accepted characters
/// (all of them, when fewer are accepted).
pub open spec fn password_from_spec(bytes: Seq<u8>, len: nat) -> Seq<char> {
    let a = accepted_chars(bytes);
    if a.len() <= len {
        a
    } else {
        a.take(len as int)
    }
}

/// The accepted characters are alphabet characters.
pub proof fn lemma_accepted_in_alphabet(bytes: Seq<u8>)
    ensures
        all_in_alphabet(accepted_chars(bytes)),
    decreases bytes.len(),
{
    if bytes.len() > 0 {
        lemma_accepted_in_alphabet(bytes.drop_last());
        let rest = accepted_chars(bytes.drop_last());
        if let Some(c) = password_char_spec(bytes.last()) {
            let k = bytes.last() as int % 84;
            assert(alphabet()[k] == c);
            assert forall|i: int| 0 <= i < rest.push(c).len() implies alphabet().contains(#[trigger] rest.push(c)[i]) by {
                if i < rest.len() {
                    assert(rest.push(c)[i] == rest[i]);
                }
            }
        }
    }
}

/// One more byte adds at most its character at the end.
proof fn lemma_accepted_step(bytes: Seq<u8>, i: int)
    requires
        0 <= i < bytes.len(),
    ensures
        accepted_chars(bytes.take(i + 1)) == (match password_char_spec(bytes[i]) {
            Some(c) => accepted_chars(bytes.take(i)).push(c),
            None => accepted_chars(bytes.take(i)),
        }),
{
    assert(bytes.take(i + 1).drop_last() =~= bytes.take(i));
    assert(bytes.take(i + 1).last() == bytes[i]);
}

/// Builds the password that a sequence of random bytes gives: the first
/// `len` characters of the accepted bytes, in order.
pub fn password_from_bytes(bytes: &[u8], len: usize) -> (s: String)
    ensures
        s@ == password_from_spec(bytes@, len as nat),
{
    let mut out = String::new();
    let mut count: usize = 0;
    let mut i: usize = 0;
    assert(bytes@.take(0) =~= Seq::<u8>::empty());
    assert(out@ =~= password_from_spec(bytes@.take(0), len as nat));
    while i < bytes.len()
        invariant
            i <= bytes@.len(),
            count == out@.len(),
            count <= len,
            out@ == password_from_spec(bytes@.take(i as int), len as nat),
        decreases bytes@.len() - i,
    {
        proof {
            lemma_accepted_step(bytes@, i as int);
        }
        let ghost a = accepted_chars(bytes@.take(i as int));
        if count < len {
            match password_char(bytes[i]) {
                Some(c) => {
                    string_push(&mut out, c);
                    count = count + 1;
                },
                None => {},
            }
        } else {
            proof {
                if let Some(c) = password_char_spec(bytes@[i as int]) {
                    assert(a.push(c).take(len as int) =~= password_from_spec(bytes@.take(i as int), len as nat));
                }
            }
        }
        i = i + 1;
    }
    assert(bytes@.take(bytes@.len() as int) =~= bytes@);
    out
}

/// Generates a random password of `len` characters from the alphabet, one
/// random byte per attempt, rejecting the bytes that would bias the choice;
/// the password is built from the bytes drawn by [`password_from_bytes`]. A
/// length of 0 draws nothing. The number of attempts is bounded by
/// `u64::MAX`, past which it reports the random source as failed.
pub fn genpass(len: usize) -> (r: Result<String, EncError>)
    ensures
        len == 0 ==> (r matches Ok(s) && s@.len() == 0),
        r matches Ok(s) ==> {
            &&& s@.len() == len
            &&& all_in_alphabet(s@)
            &&& exists|drawn: Seq<u8>| s@ == #[trigger] password_from_spec(drawn, len as nat)
        },
        r matches Err(e) ==> e is Random,
{
    let mut drawn: Vec<u8> = Vec::new();
    let mut count: usize = 0;
    let mut attempts_left: u64 = u64::MAX;
    let mut byte: Vec<u8> = vec![0u8; 1];
    while count < len
        invariant
            count <= len,
            count == accepted_chars(drawn@).len(),
            byte@.len() == 1,
        decreases attempts_left,
    {
        if attempts_left == 0 {
            return Err(EncError::Random(String::from_str("random source gave no usable byte")));
        }
        attempts_left = attempts_left - 1;
        match fill_random(&mut byte) {
            Ok(()) => {},
            Err(msg) => return Err(EncError::Random(msg)),
        }
        let b = byte[0];
        let ghost before = drawn@;
        drawn.push(b);
        proof {
            assert(drawn@.drop_last() =~= before);
        }
        match password_char(b) {
            Some(_) => {
                count = count + 1;
            },
            None => {},
        }
    }
    let s = password_from_bytes(drawn.as_slice(), len);
    proof {
        lemma_accepted_in_alphabet(drawn@);
    }
    Ok(s)
}

/// Each alphabet character is given by exactly three of the accepted byte
/// values (`k`, `k + 84` and `k + 168`), so every character is equally likely.
pub proof fn lemma_password_chars_uniform(k: int, b: u8)
    requires
        0 <= k < alphabet_len(),
    ensures
        accept_bound() == 252,
        ((b as nat) < accept_bound() && b as int % alphabet_len() as int == k) <==> (b == k || b == k + 84 || b == k + 168),
        password_char_spec(b) is Some ==> password_char_spec(b) == Some(alphabet()[b as int % 84]),
{
}

} // verus!
