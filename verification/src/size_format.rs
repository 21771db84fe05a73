//! Human-readable sizes and ages.
//!
//! The byte formatters show a size divided by 1024, 1024² or 1024³ with a
//! fixed number of decimals, the way a `u64` converted to `f64` and printed
//! with `{:.N}` reads: the conversion rounds to the nearest value with 53
//! significant bits (ties to even), the division by a power of two is exact,
//! and the printed decimals are the exact value rounded to nearest, ties to
//! even. All of it is computed here on integers.

use vstd::prelude::*;
use vstd::arithmetic::div_mod::*;
use vstd::arithmetic::mul::*;
use crate::text::string_from_chars;

verus! {

/// The decimal digit character for `d % 10`.
pub open spec fn digit_char(d: nat) -> char {
    ((d % 10) + 48) as char
}

/// The decimal representation of `n`, without leading zeros.
pub open spec fn dec_chars(n: nat) -> Seq<char>
    decreases n,
{
    if n < 10 {
        seq![digit_char(n)]
    } else {
        dec_chars(n / 10).push(digit_char(n % 10))
    }
}

/// `10^d`.
pub open spec fn pow10(d: nat) -> nat
    decreases d,
{
    if d == 0 { 1 } else { 10 * pow10((d - 1) as nat) }
}

/// `2^e`.
pub open spec fn two_pow(e: nat) -> nat
    decreases e,
{
    if e == 0 { 1 } else { 2 * two_pow((e - 1) as nat) }
}

/// The last `d` decimal digits of `r`, zero padded on the left.
pub open spec fn frac_chars(r: nat, d: nat) -> Seq<char>
    decreases d,
{
    if d == 0 {
        seq![]
    } else {
        frac_chars(r / 10, (d - 1) as nat).push(digit_char(r % 10))
    }
}

/// The number `h / 10^d` written with exactly `d` decimals.
pub open spec fn fixed_chars(h: nat, d: nat) -> Seq<char> {
    dec_chars(h / pow10(d)) + seq!['.'] + frac_chars(h % pow10(d), d)
}

/// `a / b` rounded to the nearest integer, ties to the even one.
pub open spec fn div_round_even(a: nat, b: nat) -> nat
    recommends
        b > 0,
{
    let q = a / b;
    let r = a % b;
    if 2 * r > b {
        q + 1
    } else if 2 * r < b {
        q
    } else if q % 2 == 1 {
        q + 1
    } else {
        q
    }
}

/// How many low bits of `n` fall outside a 53-bit significand.
pub open spec fn excess_bits(n: nat) -> nat
    decreases n,
{
    if n < two_pow(53) || n == 0 {
        0
    } else {
        1 + excess_bits(n / 2)
    }
}

/// The value of `n as f64`: `n` rounded to 53 significant bits, ties to even.
pub open spec fn f64_value(n: nat) -> nat {
    let s = excess_bits(n);
    div_round_even(n, two_pow(s)) * two_pow(s)
}

/// `n as f64 / unit as f64`, rounded to `d` decimals, in units of `10^-d`.
pub open spec fn scaled(n: nat, unit: nat, d: nat) -> nat {
    div_round_even(f64_value(n) * pow10(d), unit)
}

/// Rounding to nearest: `div_round_even(a, b)` times `b` lies within half
/// of `b` from `a`.
pub proof fn lemma_div_round_even_nearest(a: nat, b: nat)
    requires
        b > 0,
    ensures
        2 * (div_round_even(a, b) * b) <= 2 * a + b,
        2 * a <= 2 * (div_round_even(a, b) * b) + b,
{
    let q = a / b;
    let r = a % b;
    lemma_fundamental_div_mod(a as int, b as int);
    assert(a == b * q + r);
    if div_round_even(a, b) == q {
        assert(2 * r <= b);
        assert(q * b == b * q) by (nonlinear_arith);
    } else {
        assert(div_round_even(a, b) == q + 1);
        assert(2 * r >= b);
        assert((q + 1) * b == b * q + b) by (nonlinear_arith);
    }
}

/// Byte counts below `2^53` convert to `f64` exactly.
pub proof fn lemma_f64_value_exact(n: nat)
    requires
        n < two_pow(53),
    ensures
        f64_value(n) == n,
{
    assert(excess_bits(n) == 0);
    assert(two_pow(0) == 1);
    assert(n / 1 == n && n % 1 == 0);
}

/// A formatted size is the true ratio rounded to the nearest `10^-d`: for
/// byte counts below `2^53`, `scaled(n, unit, d) / 10^d` lies within half
/// a unit of the last decimal of `n / unit`.
pub proof fn lemma_scaled_rounds_to_nearest(n: nat, unit: nat, d: nat)
    requires
        unit > 0,
        n < two_pow(53),
    ensures
        2 * (scaled(n, unit, d) * unit) <= 2 * (n * pow10(d)) + unit,
        2 * (n * pow10(d)) <= 2 * (scaled(n, unit, d) * unit) + unit,
{
    lemma_f64_value_exact(n);
    lemma_div_round_even_nearest(n * pow10(d), unit);
}

/// A byte count in B, KB, MB or GB (powers of 1024) with `d` decimals for
/// everything from a KB up.
pub open spec fn size_text(bytes: nat, d: nat) -> Seq<char> {
    if bytes < 1024 {
        dec_chars(bytes) + seq![' ', 'B']
    } else if bytes < 1024 * 1024 {
        fixed_chars(scaled(bytes, 1024, d), d) + seq![' ', 'K', 'B']
    } else if bytes < 1024 * 1024 * 1024 {
        fixed_chars(scaled(bytes, 1024 * 1024, d), d) + seq![' ', 'M', 'B']
    } else {
        fixed_chars(scaled(bytes, 1024 * 1024 * 1024, d), d) + seq![' ', 'G', 'B']
    }
}

proof fn lemma_two_pow_53()
    ensures
        two_pow(53) == 0x20_0000_0000_0000,
{
    reveal_with_fuel(two_pow, 54);
}

proof fn lemma_two_pow_mono(a: nat, b: nat)
    requires
        a <= b,
    ensures
        two_pow(a) <= two_pow(b),
        two_pow(a) >= 1,
    decreases b,
{
    if b > a {
        lemma_two_pow_mono(a, (b - 1) as nat);
    } else if a > 0 {
        lemma_two_pow_mono((a - 1) as nat, (a - 1) as nat);
    }
}

proof fn lemma_pow10_small()
    ensures
        pow10(1) == 10,
        pow10(2) == 100,
{
    reveal_with_fuel(pow10, 3);
}

/// Appends the decimal digits of `n`.
pub fn push_decimal(out: &mut Vec<char>, n: u64)
    ensures
        final(out)@ == old(out)@ + dec_chars(n as nat),
    decreases n,
{
    if n >= 10 {
        push_decimal(out, n / 10);
    }
    let c = ((n % 10) as u8 + 48u8) as char;
    assert(c == digit_char(n as nat));
    out.push(c);
    if n >= 10 {
        assert(dec_chars(n as nat) == dec_chars((n / 10) as nat).push(digit_char((n % 10) as nat)));
    }
}

/// Appends `h / 10^d` with exactly `d` decimals, for one or two decimals.
fn push_fixed(out: &mut Vec<char>, h: u64, d: u64)
    requires
        d == 1 || d == 2,
    ensures
        final(out)@ == old(out)@ + fixed_chars(h as nat, d as nat),
{
    proof {
        lemma_pow10_small();
    }
    let p: u64 = if d == 1 { 10 } else { 100 };
    assert(p == pow10(d as nat));
    let ghost start = out@;
    push_decimal(out, h / p);
    out.push('.');
    let r = h % p;
    if d == 2 {
        out.push(((r / 10) as u8 + 48u8) as char);
        assert(frac_chars(r as nat, 2) == frac_chars((r / 10) as nat, 1).push(digit_char((r % 10) as nat)));
        assert((r / 10) % 10 == r / 10);
        assert(frac_chars((r / 10) as nat, 1) == frac_chars((r / 100) as nat, 0).push(digit_char(((r / 10) % 10) as nat)));
        assert(frac_chars((r / 100) as nat, 0) == Seq::<char>::empty());
        assert(frac_chars((r / 10) as nat, 1) =~= seq![digit_char(((r / 10) % 10) as nat)]);
    } else {
        assert(frac_chars(r as nat, 1) == frac_chars((r / 10) as nat, 0).push(digit_char((r % 10) as nat)));
    }
    out.push(((r % 10) as u8 + 48u8) as char);
    assert(out@ =~= start + fixed_chars(h as nat, d as nat));
}

/// `a / b` rounded to nearest, ties to even.
fn div_round_even_u128(a: u128, b: u128) -> (q: u128)
    requires
        b > 0,
        a < 0x1_0000_0000_0000_0000_0000_0000_0000,
    ensures
        q == div_round_even(a as nat, b as nat),
{
    let q = a / b;
    let r = a % b;
    proof {
        lemma_fundamental_div_mod(a as int, b as int);
    }
    if r > b - r {
        q + 1
    } else if r < b - r {
        q
    } else if q % 2 == 1 {
        q + 1
    } else {
        q
    }
}

/// The exact value of `n as f64`.
fn f64_value_of(n: u64) -> (v: u128)
    ensures
        v == f64_value(n as nat),
        v <= 0x1_0000_0000_0000_0000,
{
    proof {
        lemma_two_pow_53();
        reveal_with_fuel(two_pow, 12);
    }
    let mut m: u64 = n;
    let mut p: u64 = 1;
    let ghost mut s: nat = 0;
    while m >= 0x20_0000_0000_0000
        invariant
            p == two_pow(s),
            p >= 1,
            m == n / p,
            m * p <= n,
            s + excess_bits(m as nat) == excess_bits(n as nat),
            two_pow(53) == 0x20_0000_0000_0000,
            two_pow(11) == 0x800,
            s <= 11,
        decreases m,
    {
        proof {
            if s >= 11 {
                lemma_two_pow_mono(11, s);
                assert(m * p >= 0x1_0000_0000_0000_0000) by (nonlinear_arith)
                    requires
                        m >= 0x20_0000_0000_0000,
                        p >= 0x800,
                ;
            }
            lemma_div_denominator(n as int, p as int, 2);
            lemma_fundamental_div_mod(m as int, 2);
            lemma_mul_is_associative(m as int / 2, 2, p as int);
            assert(m * p <= n);
            assert(p < 0x800) by (nonlinear_arith)
                requires
                    m >= 0x20_0000_0000_0000,
                    m * p <= n,
                    n < 0x1_0000_0000_0000_0000,
            ;
            assert((m / 2) * (2 * p) <= n) by (nonlinear_arith)
                requires
                    m * p <= n,
                    m / 2 * 2 <= m,
                    p >= 1,
            ;
        }
        m = m / 2;
        p = p * 2;
        proof {
            s = s + 1;
        }
    }
    assert(s == excess_bits(n as nat));
    proof {
        lemma_two_pow_mono(s, 11);
    }
    let pw = p as u128;
    let q = div_round_even_u128(n as u128, pw);
    proof {
        lemma_fundamental_div_mod(n as int, p as int);
        assert(q <= n as u128 / pw + 1);
        assert(q <= 0x20_0000_0000_0000);
        assert(q * pw <= 0x1_0000_0000_0000_0000) by (nonlinear_arith)
            requires
                q <= 0x20_0000_0000_0000,
                pw <= 0x800,
        ;
    }
    q * pw
}

/// `n as f64 / unit as f64` rounded to `d` decimals, counted in `10^-d`.
fn scaled_value(n: u64, unit: u64, d: u64) -> (h: u64)
    requires
        unit == 1024 || unit == 1024 * 1024 || unit == 1024 * 1024 * 1024,
        d == 1 || d == 2,
        n < 0x1_0000_0000_0000_0000,
    ensures
        h == scaled(n as nat, unit as nat, d as nat),
{
    proof {
        lemma_pow10_small();
    }
    let v = f64_value_of(n);
    let p: u128 = if d == 1 { 10 } else { 100 };
    assert(v * p <= 0x1_0000_0000_0000_0000 * 100) by (nonlinear_arith)
        requires
            v <= 0x1_0000_0000_0000_0000,
            p <= 100,
    ;
    let h = div_round_even_u128(v * p, unit as u128);
    proof {
        lemma_fundamental_div_mod((v * p) as int, unit as int);
        let vp: int = (v * p) as int;
        assert(h <= vp / (unit as int) + 1);
        assert(vp / (unit as int) <= vp / 1024) by {
            lemma_div_is_ordered_by_denominator(vp, 1024, unit as int);
        }
    }
    h as u64
}

/// Formats a byte count with two decimals above 1023 bytes, in powers of 1024:
/// `512 B`, `1.50 KB`, `2.00 MB`, `3.25 GB`.
pub fn format_bytes(bytes: u64) -> (s: String)
    ensures
        s@ == size_text(bytes as nat, 2),
{
    format_scaled(bytes, 2)
}

/// Formats a byte count with one decimal above 1023 bytes, in powers of 1024:
/// `512 B`, `1.5 KB`, `2.0 MB`.
pub fn format_size(size: u64) -> (s: String)
    ensures
        s@ == size_text(size as nat, 1),
{
    format_scaled(size, 1)
}

fn format_scaled(bytes: u64, d: u64) -> (s: String)
    requires
        d == 1 || d == 2,
    ensures
        s@ == size_text(bytes as nat, d as nat),
{
    let mut out: Vec<char> = Vec::new();
    if bytes < 1024 {
        push_decimal(&mut out, bytes);
        out.push(' ');
    } else {
        let (unit, letter) = if bytes < 1024 * 1024 {
            (1024u64, 'K')
        } else if bytes < 1024 * 1024 * 1024 {
            (1024u64 * 1024, 'M')
        } else {
            (1024u64 * 1024 * 1024, 'G')
        };
        let h = scaled_value(bytes, unit, d);
        push_fixed(&mut out, h, d);
        out.push(' ');
        out.push(letter);
    }
    out.push('B');
    proof {
        if bytes < 1024 {
            assert(out@ =~= size_text(bytes as nat, d as nat));
        } else {
            assert(out@ =~= size_text(bytes as nat, d as nat));
        }
    }
    string_from_chars(&out)
}

} // verus!
