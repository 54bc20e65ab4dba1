use vstd::prelude::*;

use vstd::arithmetic::div_mod::lemma_div_denominator;
use vstd::arithmetic::div_mod::lemma_fundamental_div_mod;
use vstd::arithmetic::div_mod::lemma_fundamental_div_mod_converse;
use vstd::arithmetic::div_mod::lemma_fundamental_div_mod_converse_mod;
use vstd::arithmetic::div_mod::lemma_mod_multiples_vanish;
use vstd::arithmetic::div_mod::lemma_small_mod;

verus! {

/// The value of the residue `x` (with `0 <= x < full`) read as a
/// two's-complement number of modulus `full`.
pub open spec fn spec_signed(x: int, full: int) -> int {
    if x >= full / 2 {
        x - full
    } else {
        x
    }
}

/// Division truncating toward zero, as Rust's `/` on signed integers
/// behaves; it differs from Euclidean division on negative dividends.
pub open spec fn spec_div_trunc(a: int, b: int) -> int {
    if a >= 0 {
        a / b
    } else {
        -((-a) / b)
    }
}

/// A 24-bit big-endian quantity assembled from three bytes.
pub open spec fn spec_be24(b0: u8, b1: u8, b2: u8) -> int {
    b0 * 0x10000 + b1 * 0x100 + b2
}

/// A 32-bit big-endian quantity assembled from four bytes.
pub open spec fn spec_be32(b0: u8, b1: u8, b2: u8, b3: u8) -> int {
    b0 * 0x1000000 + b1 * 0x10000 + b2 * 0x100 + b3
}

/// Splitting a base-`base` digit off a number: quotient and remainder of
/// `hi * base + lo` recover `hi` and `lo`.
pub proof fn lemma_be_split(hi: int, lo: int, base: int)
    requires
        base > 0,
        0 <= lo < base,
    ensures
        (hi * base + lo) / base == hi,
        (hi * base + lo) % base == lo,
{
    lemma_fundamental_div_mod_converse(hi * base + lo, base, hi, lo);
}

/// Reducing a two's-complement-representable value modulo `full` and
/// reading the residue back as signed is the identity.
pub proof fn lemma_signed_low_identity(x: int, full: int)
    requires
        full > 0,
        full % 2 == 0,
        -full / 2 <= x < full / 2,
    ensures
        spec_signed(x % full, full) == x,
{
    if x >= 0 {
        lemma_small_mod(x as nat, full as nat);
    } else {
        lemma_fundamental_div_mod_converse_mod(x, full, -1, x + full);
    }
}

/// Reading a residue as signed and reducing it modulo `full` again gives
/// back the residue.
pub proof fn lemma_low_signed_identity(u: int, full: int)
    requires
        full > 0,
        0 <= u < full,
    ensures
        spec_signed(u, full) % full == u,
{
    if u >= full / 2 {
        lemma_fundamental_div_mod_converse_mod(u - full, full, -1, u);
    } else {
        lemma_small_mod(u as nat, full as nat);
    }
}

/// The low base-256 digit of `x`, for nonnegative `x`.
pub open spec fn spec_b0(x: int) -> u8 {
    (x % 256) as u8
}

/// The second base-256 digit of `x`, for nonnegative `x`.
pub open spec fn spec_b1(x: int) -> u8 {
    ((x / 0x100) % 256) as u8
}

/// The third base-256 digit of `x`, for nonnegative `x`.
pub open spec fn spec_b2(x: int) -> u8 {
    ((x / 0x10000) % 256) as u8
}

/// The three base-256 digits of a value below 2^24 recompose to it, and
/// each digit is the matching quotient.
pub proof fn lemma_recompose24(x: int)
    requires
        0 <= x < 0x1000000,
    ensures
        (spec_b2(x) as int) * 0x10000 + (spec_b1(x) as int) * 0x100 + (spec_b0(x) as int) == x,
        spec_b2(x) as int == x / 0x10000,
        spec_b1(x) as int == (x / 0x100) % 0x100,
        spec_b0(x) as int == x % 0x100,
{
    lemma_fundamental_div_mod(x, 0x100);
    lemma_fundamental_div_mod(x / 0x100, 0x100);
    lemma_div_denominator(x, 0x100, 0x100);
    lemma_fundamental_div_mod(x, 0x10000);
    lemma_small_mod((x / 0x10000) as nat, 0x100);
}

/// Composing three byte digits and reading the digits back is the
/// identity.
pub proof fn lemma_digits_of_be24(d2: int, d1: int, d0: int)
    requires
        0 <= d2 < 0x100,
        0 <= d1 < 0x100,
        0 <= d0 < 0x100,
    ensures
        spec_b2(d2 * 0x10000 + d1 * 0x100 + d0) as int == d2,
        spec_b1(d2 * 0x10000 + d1 * 0x100 + d0) as int == d1,
        spec_b0(d2 * 0x10000 + d1 * 0x100 + d0) as int == d0,
{
    let x = d2 * 0x10000 + d1 * 0x100 + d0;
    lemma_fundamental_div_mod_converse(x, 0x10000, d2, d1 * 0x100 + d0);
    lemma_fundamental_div_mod_converse(x, 0x100, d2 * 0x100 + d1, d0);
    lemma_small_mod(d2 as nat, 0x100);
    lemma_fundamental_div_mod_converse_mod(d2 * 0x100 + d1, 0x100, d2, d1);
}

/// The low base-256 digit of `x`.
pub fn b0_u32(x: u32) -> (r: u8)
    ensures
        r == spec_b0(x as int),
{
    (x % 256) as u8
}

/// The second base-256 digit of `x`.
pub fn b1_u32(x: u32) -> (r: u8)
    ensures
        r == spec_b1(x as int),
{
    ((x / 0x100) % 256) as u8
}

/// The third base-256 digit of `x`.
pub fn b2_u32(x: u32) -> (r: u8)
    ensures
        r == spec_b2(x as int),
{
    ((x / 0x10000) % 256) as u8
}

/// The low 24 bits of `x`, as the nonnegative residue of `x` modulo 2^24.
pub fn low24_i32(x: i32) -> (r: u32)
    ensures
        r == (x as int) % 0x1000000,
{
    let b: i64 = (x as i64) + 0x1_0000_0000;
    proof {
        lemma_mod_multiples_vanish(0x100, x as int, 0x1000000);
    }
    ((b as u64) % 0x1000000) as u32
}

/// The low 16 bits of `x`, as the nonnegative residue of `x` modulo 2^16.
pub fn low16_i16(x: i16) -> (r: u16)
    ensures
        r == (x as int) % 0x10000,
{
    let b: i32 = (x as i32) + 0x10000;
    proof {
        lemma_mod_multiples_vanish(1, x as int, 0x10000);
    }
    ((b as u32) % 0x10000) as u16
}

/// The low 12 bits of `x`, as the nonnegative residue of `x` modulo 2^12.
pub fn low12_i16(x: i16) -> (r: u16)
    ensures
        r == (x as int) % 0x1000,
{
    let b: i32 = (x as i32) + 0x10000;
    proof {
        lemma_mod_multiples_vanish(0x10, x as int, 0x1000);
    }
    ((b as u32) % 0x1000) as u16
}

/// The low 12 bits of `x`, as the nonnegative residue of `x` modulo 2^12.
/// The bound on `x` leaves room to shift `x` into nonnegative territory.
pub fn low12_i64(x: i64) -> (r: u16)
    requires
        -0x1000_0000_0000 <= x <= 0x1000_0000_0000,
    ensures
        r == (x as int) % 0x1000,
{
    let b: i64 = x + 0x1_0000_0000_0000;
    proof {
        lemma_mod_multiples_vanish(0x10_0000_0000, x as int, 0x1000);
    }
    ((b as u64) % 0x1000) as u16
}

/// The low 15 bits of `x`, as the nonnegative residue of `x` modulo 2^15.
pub fn low15_i16(x: i16) -> (r: u16)
    ensures
        r == (x as int) % 0x8000,
{
    let b: i32 = (x as i32) + 0x10000;
    proof {
        lemma_mod_multiples_vanish(2, x as int, 0x8000);
    }
    ((b as u32) % 0x8000) as u16
}

/// Division truncating toward zero, matching `spec_div_trunc`.
pub fn div_trunc(a: i64, b: i64) -> (r: i64)
    requires
        b > 0,
        a > i64::MIN,
    ensures
        r == spec_div_trunc(a as int, b as int),
{
    if a >= 0 {
        ((a as u64) / (b as u64)) as i64
    } else {
        -((((-a) as u64) / (b as u64)) as i64)
    }
}

/// Sign-extends a 12-bit residue.
pub fn sign12(x: u16) -> (r: i16)
    requires
        x < 0x1000,
    ensures
        r as int == spec_signed(x as int, 0x1000),
{
    if x >= 0x800 {
        ((x as i32) - 0x1000) as i16
    } else {
        x as i16
    }
}

/// Sign-extends a 15-bit residue.
pub fn sign15(x: u16) -> (r: i16)
    requires
        x < 0x8000,
    ensures
        r as int == spec_signed(x as int, 0x8000),
{
    if x >= 0x4000 {
        ((x as i32) - 0x8000) as i16
    } else {
        x as i16
    }
}

/// Reads a full 16-bit residue as a signed 16-bit value.
pub fn sign16(x: u16) -> (r: i16)
    ensures
        r as int == spec_signed(x as int, 0x10000),
{
    if x >= 0x8000 {
        ((x as i32) - 0x10000) as i16
    } else {
        x as i16
    }
}

/// Sign-extends a 24-bit residue.
pub fn sign24(x: u32) -> (r: i32)
    requires
        x < 0x1000000,
    ensures
        r as int == spec_signed(x as int, 0x1000000),
{
    if x >= 0x800000 {
        ((x as i64) - 0x1000000) as i32
    } else {
        x as i32
    }
}

/// Reads a full 32-bit residue as a signed value, widened to 64 bits.
pub fn sign32(x: u32) -> (r: i64)
    ensures
        r as int == spec_signed(x as int, 0x1_0000_0000),
{
    if x >= 0x8000_0000 {
        (x as i64) - 0x1_0000_0000
    } else {
        x as i64
    }
}

} // verus!
