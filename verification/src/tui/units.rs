//! Human-readable sizes and rates: a value in B, KB, MB or GB (powers of
//! 1024) with one decimal.
use vstd::prelude::*;

use crate::script::strings::{digit_char, digit_to_char, push_decimal, push_str, spec_decimal};

verus! {

/// Two to the power `k`.
pub open spec fn two_pow(k: nat) -> nat
    decreases k,
{
    if k == 0 {
        1
    } else {
        2 * two_pow((k - 1) as nat)
    }
}

/// Number of binary digits of `n` (0 for 0).
pub open spec fn bit_length(n: nat) -> nat
    decreases n,
{
    if n == 0 {
        0
    } else {
        1 + bit_length(n / 2)
    }
}

/// `n / q` rounded to the nearest integer, ties to the even one.
pub open spec fn round_half_even(n: nat, q: nat) -> nat
    recommends
        q > 0,
{
    let d = n / q;
    let r = n % q;
    if 2 * r > q || (2 * r == q && d % 2 == 1) {
        d + 1
    } else {
        d
    }
}

/// The double-precision value nearest to `n` (ties to even), which is
/// what converting an integer to `f64` gives.
pub open spec fn nearest_double(n: nat) -> nat {
    if bit_length(n) <= 53 {
        n
    } else {
        let q = two_pow((bit_length(n) - 53) as nat);
        round_half_even(n, q) * q
    }
}

/// `t` tenths written with one decimal, as in `12.3`.
pub open spec fn tenths_text(t: nat) -> Seq<char> {
    spec_decimal(t / 10) + "."@ + seq![digit_char(t % 10)]
}

/// `n` in units of `unit` bytes, with one decimal, rounded as the
/// nearest double to `n` divided by `unit` prints with one decimal.
pub open spec fn scaled_text(n: nat, unit: nat) -> Seq<char> {
    tenths_text(round_half_even(10 * nearest_double(n), unit))
}

/// Bytes per unit.
pub open spec fn kib() -> nat {
    1024
}

/// `n` bytes in the largest of B, KB, MB, GB that it reaches, followed by `suffix`.
pub open spec fn size_text(n: nat, suffix: Seq<char>) -> Seq<char> {
    if n >= kib() * kib() * kib() {
        scaled_text(n, kib() * kib() * kib()) + " GB"@ + suffix
    } else if n >= kib() * kib() {
        scaled_text(n, kib() * kib()) + " MB"@ + suffix
    } else if n >= kib() {
        scaled_text(n, kib()) + " KB"@ + suffix
    } else {
        spec_decimal(n) + " B"@ + suffix
    }
}

proof fn lemma_two_pow_pos(k: nat)
    ensures
        two_pow(k) >= 1,
    decreases k,
{
    if k > 0 {
        lemma_two_pow_pos((k - 1) as nat);
    }
}

proof fn lemma_bit_length_bound(n: nat, j: nat)
    requires
        n < two_pow(j),
    ensures
        bit_length(n) <= j,
    decreases j,
{
    if n > 0 && j > 0 {
        assert(two_pow(j) == 2 * two_pow((j - 1) as nat));
        lemma_bit_length_bound(n / 2, (j - 1) as nat);
    }
}

proof fn lemma_bit_length_low(n: nat, j: nat)
    requires
        bit_length(n) <= j,
    ensures
        n < two_pow(j),
    decreases j,
{
    lemma_two_pow_pos(j);
    if n > 0 {
        assert(j > 0);
        assert(two_pow(j) == 2 * two_pow((j - 1) as nat));
        lemma_bit_length_low(n / 2, (j - 1) as nat);
    }
}

proof fn lemma_two_pow_mono(a: nat, b: nat)
    requires
        a <= b,
    ensures
        two_pow(a) <= two_pow(b),
    decreases b,
{
    if a < b {
        lemma_two_pow_mono(a, (b - 1) as nat);
        lemma_two_pow_pos((b - 1) as nat);
        assert(two_pow(b) == 2 * two_pow((b - 1) as nat));
    }
}

#[verifier::spinoff_prover]
proof fn lemma_two_pow_add(a: nat, b: nat)
    ensures
        two_pow(a + b) == two_pow(a) * two_pow(b),
    decreases a,
{
    if a > 0 {
        let c = (a - 1) as nat;
        lemma_two_pow_add(c, b);
        let x = two_pow(c);
        let y = two_pow(b);
        let s = a + b;
        assert(s > 0);
        assert(two_pow(s) == 2 * two_pow((s - 1) as nat));
        assert((s - 1) as nat == c + b);
        assert(two_pow(a) == 2 * x);
        assert(2 * (x * y) == (2 * x) * y) by (nonlinear_arith);
    } else {
        assert(two_pow(0) == 1);
        assert(a + b == b);
    }
}

proof fn lemma_two_pow_values()
    ensures
        two_pow(64) == 0x1_0000_0000_0000_0000,
        two_pow(53) == 0x20_0000_0000_0000,
        two_pow(11) == 2048,
{
    assert(two_pow(8) == 256 && two_pow(5) == 32 && two_pow(3) == 8) by {
        reveal_with_fuel(two_pow, 9);
    }
    lemma_two_pow_add(8, 8);
    assert(two_pow(16) == 0x1_0000);
    lemma_two_pow_add(16, 16);
    assert(two_pow(32) == 0x1_0000_0000);
    lemma_two_pow_add(32, 32);
    lemma_two_pow_add(32, 16);
    assert(two_pow(48) == 0x1_0000_0000_0000);
    lemma_two_pow_add(48, 5);
    lemma_two_pow_add(8, 3);
}

/// The nearest double to `n`, as an exact integer.
fn to_nearest_double(n: u64) -> (v: u128)
    ensures
        v == nearest_double(n as nat),
        v <= 0x1_0000_0000_0000_0000u128,
{
    proof {
        lemma_two_pow_values();
    }
    let mut m: u64 = n;
    let mut len: u64 = 0;
    while m > 0
        invariant
            bit_length(n as nat) == len + bit_length(m as nat),
            len <= 64,
            m < two_pow((64 - len) as nat),
        decreases m,
    {
        proof {
            if len == 64 {
                assert(two_pow(0) == 1);
            }
            assert(two_pow((64 - len) as nat) == 2 * two_pow((64 - len - 1) as nat));
        }
        m = m / 2;
        len = len + 1;
    }
    if len <= 53 {
        return n as u128;
    }
    let k = len - 53;
    let mut q: u128 = 1;
    let mut i: u64 = 0;
    while i < k
        invariant
            i <= k <= 11,
            q == two_pow(i as nat),
            two_pow(11) == 2048,
        decreases k - i,
    {
        proof {
            lemma_two_pow_mono((i + 1) as nat, 11);
            assert(two_pow((i + 1) as nat) == 2 * two_pow(i as nat));
        }
        q = q * 2;
        i = i + 1;
    }
    proof {
        lemma_two_pow_pos(k as nat);
        lemma_bit_length_low(n as nat, len as nat);
        lemma_scale_bound(n as nat, k as nat, len as nat);
        lemma_two_pow_mono(k as nat, 11);
    }
    assert(q <= 2048);
    let d = (n as u128) / q;
    let r = (n as u128) % q;
    let rounded = if 2 * r > q || (2 * r == q && d % 2 == 1) { d + 1 } else { d };
    assert(rounded * q <= two_pow(len as nat)) by (nonlinear_arith)
        requires
            rounded == round_half_even(n as nat, q as nat),
            round_half_even(n as nat, q as nat) * q <= two_pow(len as nat),
    ;
    rounded * q
}

/// Rounding at `2^k` stays within `2^len`, for a value below `2^len`.
proof fn lemma_scale_bound(n: nat, k: nat, len: nat)
    requires
        n < two_pow(len),
        k + 53 == len,
        len <= 64,
    ensures
        round_half_even(n, two_pow(k)) * two_pow(k) <= two_pow(len),
        two_pow(len) <= 0x1_0000_0000_0000_0000,
{
    let q = two_pow(k);
    lemma_two_pow_add(53, k);
    lemma_two_pow_mono(len, 64);
    lemma_two_pow_values();
    lemma_two_pow_pos(k);
    let d = n / q;
    let p = two_pow(53);
    assert(d < p) by (nonlinear_arith)
        requires
            n < p * q,
            d == n / q,
            q > 0,
    ;
    assert((d + 1) * q <= p * q) by (nonlinear_arith)
        requires
            d + 1 <= p,
            q > 0,
    ;
    assert(d * q <= (d + 1) * q) by (nonlinear_arith)
        requires
            q > 0,
    ;
}

/// `10 * v / unit` rounded, ties to even, for a power-of-two `unit` of 1024 or more.
fn tenths_of(v: u128, unit: u128) -> (t: u64)
    requires
        v <= 0x1_0000_0000_0000_0000u128,
        1024 <= unit <= 0x4000_0000,
    ensures
        t == round_half_even(10 * v as nat, unit as nat),
{
    let ten_v = 10 * v;
    let d = ten_v / unit;
    let r = ten_v % unit;
    assert(d <= ten_v / 1024) by (nonlinear_arith)
        requires
            d == ten_v / unit,
            unit >= 1024,
    ;
    let t = if 2 * r > unit || (2 * r == unit && d % 2 == 1) { d + 1 } else { d };
    t as u64
}

/// Appends `t` tenths with one decimal.
fn push_tenths(s: &mut String, t: u64)
    ensures
        final(s)@ == old(s)@ + tenths_text(t as nat),
{
    push_decimal(s, t / 10);
    push_str(s, ".");
    s.push(digit_to_char(t % 10));
    proof {
        reveal_strlit(".");
    }
    assert(final(s)@ =~= old(s)@ + tenths_text(t as nat));
}

/// `n` bytes written in B, KB, MB or GB with one decimal (whole bytes
/// below 1 KB), followed by `suffix`.
pub fn format_size(n: u64, suffix: &str) -> (s: String)
    ensures
        s@ == size_text(n as nat, suffix@),
{
    let mut s = String::new();
    let gb: u64 = 1024 * 1024 * 1024;
    let mb: u64 = 1024 * 1024;
    let kb: u64 = 1024;
    if n >= kb {
        let v = to_nearest_double(n);
        let unit: u128 = if n >= gb {
            gb as u128
        } else if n >= mb {
            mb as u128
        } else {
            kb as u128
        };
        let t = tenths_of(v, unit);
        push_tenths(&mut s, t);
        if n >= gb {
            push_str(&mut s, " GB");
        } else if n >= mb {
            push_str(&mut s, " MB");
        } else {
            push_str(&mut s, " KB");
        }
    } else {
        push_decimal(&mut s, n);
        push_str(&mut s, " B");
    }
    push_str(&mut s, suffix);
    assert(s@ =~= size_text(n as nat, suffix@));
    s
}

} // verus!
