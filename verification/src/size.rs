//! Human-readable byte counts: `512 B`, `1.5 KB`, `3.2 GB`. The one-decimal
//! form is that of an `f64` printed with one decimal: the count is first
//! rounded to the nearest `f64` (ties to even), divided by a power of 1024,
//! and the quotient is rounded to tenths, ties to even.

use vstd::arithmetic::power2::pow2;
use vstd::prelude::*;

use crate::stdtext::string_push;

verus! {

/// The unit in which a byte count is shown: 0 = B, 1 = KB, 2 = MB, 3 = GB,
/// 4 = TB; the largest unit of which the count holds at least one.
pub open spec fn size_unit_spec(b: u64) -> usize {
    if b < 0x400 {
        0
    } else if b < 0x10_0000 {
        1
    } else if b < 0x4000_0000 {
        2
    } else if b < 0x100_0000_0000 {
        3
    } else {
        4
    }
}

/// Chooses the unit in which a byte count is shown (0 = B up to 4 = TB): the
/// count is divided by 1024 while it is at least 1024, at most four times.
pub fn size_unit(b: u64) -> (i: usize)
    ensures
        i == size_unit_spec(b),
{
    let mut i: usize = 0;
    let mut limit: u64 = 1024;
    while i < 4 && b >= limit
        invariant
            i <= 4,
            i == 0 ==> limit == 0x400,
            i == 1 ==> limit == 0x10_0000 && b >= 0x400,
            i == 2 ==> limit == 0x4000_0000 && b >= 0x10_0000,
            i == 3 ==> limit == 0x100_0000_0000 && b >= 0x4000_0000,
            i == 4 ==> b >= 0x100_0000_0000,
        decreases 4 - i,
    {
        i = i + 1;
        if i < 4 {
            limit = limit * 1024;
        }
    }
    i
}

/// 2^53: below it every integer is an `f64`.
pub open spec fn two_pow_53() -> nat {
    0x20_0000_0000_0000
}

/// The least `e` (from `from` on, at most 11) with `b / 2^e < 2^53`: the
/// number of low bits that an `f64` cannot hold.
pub open spec fn f64_drop_bits(b: nat, from: nat) -> nat
    decreases 11 - from,
{
    if from >= 11 || b / pow2(from) < two_pow_53() {
        from
    } else {
        f64_drop_bits(b, from + 1)
    }
}

/// `num / den` rounded to the nearest integer, ties to the even one.
pub open spec fn round_half_even(num: nat, den: nat) -> nat {
    let q = num / den;
    let r = num % den;
    if 2 * r > den || (2 * r == den && q % 2 == 1) {
        q + 1
    } else {
        q
    }
}

/// The value of `b as f64`: `b` rounded to 53 significant bits, ties to even.
pub open spec fn f64_value(b: u64) -> nat {
    let e = f64_drop_bits(b as nat, 0);
    round_half_even(b as nat, pow2(e)) * pow2(e)
}

/// 1024 to the power `i`.
pub open spec fn pow1024(i: nat) -> nat
    decreases i,
{
    if i == 0 {
        1
    } else {
        1024 * pow1024((i - 1) as nat)
    }
}

/// The count in unit `i`, rounded to tenths (ties to even), times ten.
pub open spec fn tenths(b: u64, i: nat) -> nat {
    round_half_even(f64_value(b) * 10, pow1024(i))
}

/// The decimal digit of a value below 10.
pub open spec fn digit_char(d: nat) -> char {
    (48 + d) as char
}

/// The decimal text of a number, without leading zeros.
pub open spec fn decimal(n: nat) -> Seq<char>
    decreases n,
{
    if n < 10 {
        seq![digit_char(n)]
    } else {
        decimal(n / 10).push(digit_char(n % 10))
    }
}

/// The name of unit `i`.
pub open spec fn unit_name(i: nat) -> Seq<char> {
    if i == 0 {
        seq!['B']
    } else if i == 1 {
        seq!['K', 'B']
    } else if i == 2 {
        seq!['M', 'B']
    } else if i == 3 {
        seq!['G', 'B']
    } else {
        seq!['T', 'B']
    }
}

/// `b` in its unit: `<b> B` below 1 KB, else the value with one decimal.
pub open spec fn human_size_spec(b: u64) -> Seq<char> {
    let i = size_unit_spec(b) as nat;
    if i == 0 {
        decimal(b as nat) + seq![' ', 'B']
    } else {
        let t = tenths(b, i);
        decimal(t / 10) + seq!['.'] + decimal(t % 10) + seq![' '] + unit_name(i)
    }
}

/// Appends the decimal text of `n`.
pub(crate) fn push_decimal(s: &mut String, n: u128)
    ensures
        final(s)@ == old(s)@ + decimal(n as nat),
    decreases n,
{
    if n >= 10 {
        push_decimal(s, n / 10);
    }
    let d = (n % 10) as u8;
    let c = (48u8 + d) as char;
    string_push(s, c);
    assert(final(s)@ =~= old(s)@ + decimal(n as nat));
}

/// Rounds `num / den` to the nearest integer, ties to the even one.
fn div_round_half_even(num: u128, den: u128) -> (q: u128)
    requires
        den > 0,
        num / den < u128::MAX,
    ensures
        q as nat == round_half_even(num as nat, den as nat),
{
    let q = num / den;
    let r = num % den;
    if r > den - r || (r == den - r && q % 2 == 1) {
        q + 1
    } else {
        q
    }
}

/// `b as f64`, as an integer.
pub fn f64_of(b: u64) -> (v: u128)
    ensures
        v as nat == f64_value(b),
        v <= 0x1_0000_0000_0000_0000,
{
    proof {
        vstd::arithmetic::power2::lemma2_to64();
    }
    let mut e: u32 = 0;
    let mut p: u64 = 1;
    while e < 11 && b / p >= 0x20_0000_0000_0000
        invariant
            e <= 11,
            p >= 1,
            p as nat == pow2(e as nat),
            f64_drop_bits(b as nat, 0) == f64_drop_bits(b as nat, e as nat),
            pow2(11) == 0x800,
            forall|k: nat| k <= 11 ==> pow2(k) <= 0x800,
        decreases 11 - e,
    {
        proof {
            vstd::arithmetic::power2::lemma_pow2_unfold((e + 1) as nat);
        }
        p = p * 2;
        e = e + 1;
    }
    let q = div_round_half_even(b as u128, p as u128);
    proof {
        assert(b as nat / pow2(e as nat) < 0x20_0000_0000_0000 || e == 11);
        assert(q <= 0x20_0000_0000_0000) by (nonlinear_arith)
            requires
                q as nat == round_half_even(b as nat, p as nat),
                p > 0,
                (b as nat) / (p as nat) < 0x20_0000_0000_0000 || p == 0x800,
        {
        }
        assert(q * (p as u128) <= 0x1_0000_0000_0000_0000) by (nonlinear_arith)
            requires
                q <= 0x20_0000_0000_0000,
                p <= 0x800,
        {
        }
    }
    q * (p as u128)
}

/// Formats a byte count for people: `<b> B` below 1 KB, else the value in
/// KB, MB, GB or TB with one decimal, as `f64` printing gives it.
pub fn human_size(b: u64) -> (s: String)
    ensures
        s@ == human_size_spec(b),
{
    let i = size_unit(b);
    let mut s = String::new();
    if i == 0 {
        push_decimal(&mut s, b as u128);
        proof {
            reveal_strlit(" B");
        }
        s.append(" B");
        assert(s@ =~= human_size_spec(b));
        return s;
    }
    let mut den: u128 = 1;
    let mut k: usize = 0;
    while k < i
        invariant
            k <= i <= 4,
            den as nat == pow1024(k as nat),
            1 <= den <= 0x100_0000_0000,
        decreases i - k,
    {
        proof {
            lemma_pow1024_bound(k as nat);
        }
        den = den * 1024;
        k = k + 1;
    }
    let v = f64_of(b);
    let t = div_round_half_even(v * 10, den);
    push_decimal(&mut s, t / 10);
    string_push(&mut s, '.');
    push_decimal(&mut s, t % 10);
    string_push(&mut s, ' ');
    let unit = if i == 1 {
        "KB"
    } else if i == 2 {
        "MB"
    } else if i == 3 {
        "GB"
    } else {
        "TB"
    };
    proof {
        reveal_strlit("KB");
        reveal_strlit("MB");
        reveal_strlit("GB");
        reveal_strlit("TB");
        assert(unit@ =~= unit_name(i as nat));
    }
    s.append(unit);
    assert(s@ =~= human_size_spec(b));
    s
}

/// Powers of 1024 below the fifth stay within 2^40 after one more factor.
proof fn lemma_pow1024_bound(k: nat)
    requires
        k < 4,
    ensures
        pow1024(k + 1) == 1024 * pow1024(k),
        pow1024(k + 1) <= 0x100_0000_0000,
{
    reveal_with_fuel(pow1024, 5);
}

} // verus!
