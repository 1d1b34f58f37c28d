//! Integers as text, without a heap.
//!
//! Every function writes into a buffer of the caller and returns the part of
//! it that holds the number. The buffer must have room for the text; the
//! longest is that of `i64::MIN`, twenty bytes.

use vstd::prelude::*;

verus! {

/// The most digits that a 64-bit number has in base ten.
pub const MAX_I64_DIGITS: usize = 20;

/// The digits of base sixteen, by value.
pub const HEX_DIGITS: [u8; 16] = [
    0x30, 0x31, 0x32, 0x33, 0x34, 0x35, 0x36, 0x37, 0x38, 0x39, 0x61, 0x62, 0x63, 0x64, 0x65,
    0x66,
];

/// The ASCII digit for `value`, which is below ten.
pub open spec fn decimal_digit(value: nat) -> u8
    recommends
        value < 10,
{
    (0x30 + value) as u8
}

/// The ASCII digit, small letters from ten on, for `value`, which is below
/// sixteen.
pub open spec fn hex_digit(value: nat) -> u8
    recommends
        value < 16,
{
    if value < 10 {
        (0x30 + value) as u8
    } else {
        (0x61 + value - 10) as u8
    }
}

/// The digits of `n` in base `base`, the most significant first; none for 0.
pub open spec fn digits(n: nat, base: nat) -> Seq<nat>
    recommends
        base >= 2,
    decreases n,
{
    if n == 0 || base < 2 {
        Seq::empty()
    } else {
        proof {
            lemma_quotient_smaller(n, base);
        }
        digits(n / base, base).push(n % base)
    }
}

/// Dividing a positive number by two or more makes it smaller.
pub proof fn lemma_quotient_smaller(n: nat, base: nat)
    requires
        n > 0,
        base >= 2,
    ensures
        n / base < n,
{
    assert(n / base < n) by (nonlinear_arith)
        requires
            n > 0,
            base >= 2,
    ;
}

/// `n` in base ten: `"0"` for zero, else the digits of `n` without a leading
/// zero.
pub open spec fn decimal(n: nat) -> Seq<u8> {
    if n == 0 {
        seq![0x30u8]
    } else {
        digits(n, 10).map_values(|d: nat| decimal_digit(d))
    }
}

/// `n` in base ten, with a minus sign before a negative number.
pub open spec fn signed_decimal(n: int) -> Seq<u8> {
    if n < 0 {
        seq![0x2Du8] + decimal((-n) as nat)
    } else {
        decimal(n as nat)
    }
}

/// `n` in base sixteen with small letters and no prefix: `"0"` for zero,
/// else the digits of `n` without a leading zero.
pub open spec fn hexadecimal(n: nat) -> Seq<u8> {
    if n == 0 {
        seq![0x30u8]
    } else {
        digits(n, 16).map_values(|d: nat| hex_digit(d))
    }
}

/// The number that the digits `ds` stand for in base `base`.
pub open spec fn value_of(ds: Seq<nat>, base: nat) -> nat
    decreases ds.len(),
{
    if ds.len() == 0 {
        0
    } else {
        value_of(ds.drop_last(), base) * base + ds.last()
    }
}

/// `base` to the power of `exp`.
pub open spec fn power(base: nat, exp: nat) -> nat
    decreases exp,
{
    if exp == 0 {
        1
    } else {
        base * power(base, (exp - 1) as nat)
    }
}

/// The digits of a number stand for that number; each is below the base, and
/// the first is not zero.
pub proof fn lemma_digits(n: nat, base: nat)
    requires
        base >= 2,
    ensures
        value_of(digits(n, base), base) == n,
        forall|i: int| 0 <= i < digits(n, base).len() ==> #[trigger] digits(n, base)[i] < base,
        n > 0 ==> digits(n, base).len() > 0 && digits(n, base)[0] != 0,
    decreases n,
{
    if n != 0 {
        lemma_quotient_smaller(n, base);
        lemma_digits(n / base, base);
        let higher = digits(n / base, base);
        assert(digits(n, base).drop_last() =~= higher);
        assert(n == (n / base) * base + n % base) by (nonlinear_arith)
            requires
                base >= 2,
        ;
    }
}

/// A number in base ten is made of the bytes `0` to `9`, and in base
/// sixteen of those and the bytes `a` to `f`.
pub proof fn lemma_digit_bytes(n: nat, i: int)
    ensures
        0 <= i < decimal(n).len() ==> 0x30 <= decimal(n)[i] <= 0x39,
        0 <= i < hexadecimal(n).len() ==> (0x30 <= hexadecimal(n)[i] <= 0x39 || 0x61
            <= hexadecimal(n)[i] <= 0x66),
{
    lemma_digits(n, 10);
    lemma_digits(n, 16);
}

/// A number below the `k`-th power of the base has at most `k` digits.
pub proof fn lemma_digits_len(n: nat, base: nat, k: nat)
    requires
        base >= 2,
        n < power(base, k),
    ensures
        digits(n, base).len() <= k,
    decreases n,
{
    if n != 0 && k != 0 {
        assert(n / base < power(base, (k - 1) as nat)) by (nonlinear_arith)
            requires
                base >= 2,
                n < base * power(base, (k - 1) as nat),
        ;
        lemma_quotient_smaller(n, base);
        lemma_digits_len(n / base, base, (k - 1) as nat);
    }
}

/// A 64-bit number has at most twenty digits in base ten and at most sixteen
/// in base sixteen.
pub proof fn lemma_u64_digits(n: u64)
    ensures
        digits(n as nat, 10).len() <= 20,
        digits(n as nat, 16).len() <= 16,
        decimal(n as nat).len() <= 20,
        hexadecimal(n as nat).len() <= 16,
        decimal(n as nat).len() >= 1,
        hexadecimal(n as nat).len() >= 1,
{
    reveal_with_fuel(power, 21);
    lemma_digits_len(n as nat, 10, 20);
    lemma_digits_len(n as nat, 16, 16);
    lemma_digits(n as nat, 10);
    lemma_digits(n as nat, 16);
}

/// A 32-bit number has at most ten digits in base ten.
pub proof fn lemma_u32_digits(n: u32)
    ensures
        1 <= decimal(n as nat).len() <= 10,
{
    reveal_with_fuel(power, 11);
    lemma_digits_len(n as nat, 10, 10);
    lemma_digits(n as nat, 10);
}

/// A signed 64-bit number and its sign have room in twenty bytes.
pub proof fn lemma_i64_digits(n: i64)
    ensures
        1 <= signed_decimal(n as int).len() <= 20,
{
    reveal_with_fuel(power, 20);
    if n < 0 {
        lemma_digits_len((-n) as nat, 10, 19);
        lemma_digits((-n) as nat, 10);
    } else {
        lemma_digits_len(n as nat, 10, 19);
        lemma_digits(n as nat, 10);
    }
}

/// Writes the digits of `n` in base ten or sixteen into `buf` from index
/// `start` on, and returns the index behind the last of them.
fn write_digits(n: u64, hex: bool, buf: &mut [u8], start: usize) -> (end: usize)
    requires
        start + (if hex {
            hexadecimal(n as nat)
        } else {
            decimal(n as nat)
        }).len() <= old(buf)@.len(),
    ensures
        end == start + (if hex {
            hexadecimal(n as nat)
        } else {
            decimal(n as nat)
        }).len(),
        final(buf)@ == old(buf)@.take(start as int) + (if hex {
            hexadecimal(n as nat)
        } else {
            decimal(n as nat)
        }) + old(buf)@.skip(end as int),
{
    let ghost text = if hex {
        hexadecimal(n as nat)
    } else {
        decimal(n as nat)
    };
    let room: usize = buf.len();
    if n == 0 {
        buf[start] = 0x30;
        return start + 1;
    }
    let ghost base: nat = if hex {
        16
    } else {
        10
    };
    let ghost all = digits(n as nat, base);
    proof {
        lemma_u64_digits(n);
        lemma_digits(n as nat, base);
    }
    let mut tmp: [u8; 20] = [0u8; 20];
    let mut len: usize = 0;
    let mut val: u64 = n;
    while val > 0
        invariant
            base == (if hex {
                16nat
            } else {
                10nat
            }),
            all == digits(n as nat, base),
            all.len() <= 20,
            text == (if hex {
                hexadecimal(n as nat)
            } else {
                decimal(n as nat)
            }),
            n > 0,
            len <= all.len(),
            digits(val as nat, base) == all.take(all.len() - len),
            forall|j: int| 0 <= j < len ==> #[trigger] tmp@[j] == text[all.len() - 1 - j],
        decreases val,
    {
        proof {
            lemma_digits(val as nat, base);
        }
        if hex {
            assert(val & 0xF == val % 16) by (bit_vector);
            assert(val >> 4 == val / 16) by (bit_vector);
            tmp[len] = HEX_DIGITS[(val & 0xF) as usize];
            val = val >> 4;
        } else {
            tmp[len] = 0x30 + (val % 10) as u8;
            val = val / 10;
        }
        len += 1;
    }
    let mut i: usize = 0;
    while i < len
        invariant
            i <= len,
            len <= 20,
            len == text.len(),
            start + len <= room,
            buf@.len() == room,
            old(buf)@.len() == room,
            forall|j: int| 0 <= j < len ==> #[trigger] tmp@[j] == text[len - 1 - j],
            buf@ == old(buf)@.take(start as int) + text.take(i as int) + old(buf)@.skip(
                start + i,
            ),
        decreases len - i,
    {
        buf[start + i] = tmp[len - 1 - i];
        i += 1;
    }
    start + len
}

/// Writes `n` in base ten into `buf` and returns the text.
pub fn fmt_u64(n: u64, buf: &mut [u8]) -> (text: &[u8])
    requires
        decimal(n as nat).len() <= old(buf)@.len(),
    ensures
        text@ == decimal(n as nat),
        final(buf)@ == decimal(n as nat) + old(buf)@.skip(decimal(n as nat).len() as int),
{
    let end: usize = write_digits(n, false, buf, 0);
    let filled: &[u8] = buf;
    vstd::slice::slice_subrange(filled, 0, end)
}

/// Writes `n` in base ten into `buf`, with a minus sign before a negative
/// number, and returns the text.
pub fn fmt_i64(n: i64, buf: &mut [u8]) -> (text: &[u8])
    requires
        signed_decimal(n as int).len() <= old(buf)@.len(),
    ensures
        text@ == signed_decimal(n as int),
        final(buf)@ == signed_decimal(n as int) + old(buf)@.skip(
            signed_decimal(n as int).len() as int,
        ),
{
    if n >= 0 {
        return fmt_u64(n as u64, buf);
    }
    buf[0] = 0x2D;
    let magnitude: u64 = ((-(n + 1)) as u64) + 1;
    let end: usize = write_digits(magnitude, false, buf, 1);
    let filled: &[u8] = buf;
    vstd::slice::slice_subrange(filled, 0, end)
}

/// Writes `n` in base ten into `buf`, with a minus sign before a negative
/// number, and returns the text.
pub fn i8_to_str(n: i8, buf: &mut [u8]) -> (text: &[u8])
    requires
        signed_decimal(n as int).len() <= old(buf)@.len(),
    ensures
        text@ == signed_decimal(n as int),
        final(buf)@ == signed_decimal(n as int) + old(buf)@.skip(
            signed_decimal(n as int).len() as int,
        ),
{
    fmt_i64(n as i64, buf)
}

/// Writes `n` in base ten into `buf` and returns the text.
pub fn u8_to_str(n: u8, buf: &mut [u8]) -> (text: &[u8])
    requires
        decimal(n as nat).len() <= old(buf)@.len(),
    ensures
        text@ == decimal(n as nat),
        final(buf)@ == decimal(n as nat) + old(buf)@.skip(decimal(n as nat).len() as int),
{
    fmt_u64(n as u64, buf)
}

/// Writes `n` in base ten into `buf`, with a minus sign before a negative
/// number, and returns the text.
pub fn i16_to_str(n: i16, buf: &mut [u8]) -> (text: &[u8])
    requires
        signed_decimal(n as int).len() <= old(buf)@.len(),
    ensures
        text@ == signed_decimal(n as int),
        final(buf)@ == signed_decimal(n as int) + old(buf)@.skip(
            signed_decimal(n as int).len() as int,
        ),
{
    fmt_i64(n as i64, buf)
}

/// Writes `n` in base ten into `buf` and returns the text.
pub fn u16_to_str(n: u16, buf: &mut [u8]) -> (text: &[u8])
    requires
        decimal(n as nat).len() <= old(buf)@.len(),
    ensures
        text@ == decimal(n as nat),
        final(buf)@ == decimal(n as nat) + old(buf)@.skip(decimal(n as nat).len() as int),
{
    fmt_u64(n as u64, buf)
}

/// Writes `n` in base ten into `buf`, with a minus sign before a negative
/// number, and returns the text.
pub fn i32_to_str(n: i32, buf: &mut [u8]) -> (text: &[u8])
    requires
        signed_decimal(n as int).len() <= old(buf)@.len(),
    ensures
        text@ == signed_decimal(n as int),
        final(buf)@ == signed_decimal(n as int) + old(buf)@.skip(
            signed_decimal(n as int).len() as int,
        ),
{
    fmt_i64(n as i64, buf)
}

/// Writes `n` in base ten into `buf` and returns the text.
pub fn u32_to_str(n: u32, buf: &mut [u8]) -> (text: &[u8])
    requires
        decimal(n as nat).len() <= old(buf)@.len(),
    ensures
        text@ == decimal(n as nat),
        final(buf)@ == decimal(n as nat) + old(buf)@.skip(decimal(n as nat).len() as int),
{
    fmt_u64(n as u64, buf)
}

/// Writes `n` in base ten into `buf`, with a minus sign before a negative
/// number, and returns the text.
pub fn i64_to_str(n: i64, buf: &mut [u8]) -> (text: &[u8])
    requires
        signed_decimal(n as int).len() <= old(buf)@.len(),
    ensures
        text@ == signed_decimal(n as int),
        final(buf)@ == signed_decimal(n as int) + old(buf)@.skip(
            signed_decimal(n as int).len() as int,
        ),
{
    fmt_i64(n, buf)
}

/// Writes `n` in base ten into `buf` and returns the text.
pub fn u64_to_str(n: u64, buf: &mut [u8]) -> (text: &[u8])
    requires
        decimal(n as nat).len() <= old(buf)@.len(),
    ensures
        text@ == decimal(n as nat),
        final(buf)@ == decimal(n as nat) + old(buf)@.skip(decimal(n as nat).len() as int),
{
    fmt_u64(n, buf)
}

/// Writes `n` in base ten into `buf` and returns the text.
pub fn usize_to_str(n: usize, buf: &mut [u8]) -> (text: &[u8])
    requires
        decimal(n as nat).len() <= old(buf)@.len(),
    ensures
        text@ == decimal(n as nat),
        final(buf)@ == decimal(n as nat) + old(buf)@.skip(decimal(n as nat).len() as int),
{
    fmt_u64(n as u64, buf)
}

/// Writes `n` in base ten into `buf`, with a minus sign before a negative
/// number, and returns the text.
pub fn isize_to_str(n: isize, buf: &mut [u8]) -> (text: &[u8])
    requires
        signed_decimal(n as int).len() <= old(buf)@.len(),
    ensures
        text@ == signed_decimal(n as int),
        final(buf)@ == signed_decimal(n as int) + old(buf)@.skip(
            signed_decimal(n as int).len() as int,
        ),
{
    fmt_i64(n as i64, buf)
}

/// Writes `n` in base sixteen into `buf`, with small letters and no prefix,
/// and returns the text.
pub fn u64_to_hex_str(n: u64, buf: &mut [u8]) -> (text: &[u8])
    requires
        hexadecimal(n as nat).len() <= old(buf)@.len(),
    ensures
        text@ == hexadecimal(n as nat),
        final(buf)@ == hexadecimal(n as nat) + old(buf)@.skip(
            hexadecimal(n as nat).len() as int,
        ),
{
    let end: usize = write_digits(n, true, buf, 0);
    let filled: &[u8] = buf;
    vstd::slice::slice_subrange(filled, 0, end)
}

/// Writes `n` in base sixteen into `buf`, with small letters and no prefix,
/// and returns the text.
pub fn usize_to_hex_str(n: usize, buf: &mut [u8]) -> (text: &[u8])
    requires
        hexadecimal(n as nat).len() <= old(buf)@.len(),
    ensures
        text@ == hexadecimal(n as nat),
        final(buf)@ == hexadecimal(n as nat) + old(buf)@.skip(
            hexadecimal(n as nat).len() as int,
        ),
{
    u64_to_hex_str(n as u64, buf)
}

} // verus!
