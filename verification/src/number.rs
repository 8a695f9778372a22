//! Integer widths and the numeric casts of the resolvers.

use vstd::arithmetic::power2::*;
use vstd::prelude::*;

verus! {

/// The integer type that the cells of an integer column are cast to.
#[derive(Clone, Copy, Debug, PartialEq, Eq, Structural)]
pub enum Native {
    I8,
    I16,
    I32,
    I64,
    U8,
    U16,
    U32,
    U64,
}

impl Native {
    /// The least number of the type.
    pub open spec fn lowest(self) -> int {
        match self {
            Native::I8 => -0x80,
            Native::I16 => -0x8000,
            Native::I32 => -0x8000_0000,
            Native::I64 => -0x8000_0000_0000_0000,
            Native::U8 => 0,
            Native::U16 => 0,
            Native::U32 => 0,
            Native::U64 => 0,
        }
    }

    /// The greatest number of the type.
    pub open spec fn highest(self) -> int {
        match self {
            Native::I8 => 0x7f,
            Native::I16 => 0x7fff,
            Native::I32 => 0x7fff_ffff,
            Native::I64 => 0x7fff_ffff_ffff_ffff,
            Native::U8 => 0xff,
            Native::U16 => 0xffff,
            Native::U32 => 0xffff_ffff,
            Native::U64 => 0xffff_ffff_ffff_ffff,
        }
    }

    /// Whether the type can represent `n`.
    pub open spec fn holds(self, n: int) -> bool {
        self.lowest() <= n <= self.highest()
    }

    /// Whether the type can represent `n`.
    pub fn can_hold(self, n: i128) -> (b: bool)
        ensures
            b == self.holds(n as int),
    {
        match self {
            Native::I8 => -0x80 <= n && n <= 0x7f,
            Native::I16 => -0x8000 <= n && n <= 0x7fff,
            Native::I32 => -0x8000_0000 <= n && n <= 0x7fff_ffff,
            Native::I64 => -0x8000_0000_0000_0000 <= n && n <= 0x7fff_ffff_ffff_ffff,
            Native::U8 => 0 <= n && n <= 0xff,
            Native::U16 => 0 <= n && n <= 0xffff,
            Native::U32 => 0 <= n && n <= 0xffff_ffff,
            Native::U64 => 0 <= n && n <= 0xffff_ffff_ffff_ffff,
        }
    }
}

/// A source number as it was found, before any cast.
#[derive(Clone, Copy, Debug, PartialEq, Eq, Structural)]
pub enum Number {
    /// An integer.
    Int(i64),
    /// A single-precision number, as its bit pattern.
    Float(u32),
    /// A double-precision number, as its bit pattern.
    Double(u64),
}

/// An optional machine integer as an optional mathematical one.
pub open spec fn as_int(o: Option<i128>) -> Option<int> {
    match o {
        Some(v) => Some(v as int),
        None => None,
    }
}

/// The cast of an integer to a type: the integer itself where the type can
/// represent it, nothing otherwise.
pub open spec fn cast_integer_spec(n: int, native: Native) -> Option<int> {
    if native.holds(n) {
        Some(n)
    } else {
        None
    }
}

/// `<i8 as num_traits::NumCast>::from` on an `i64`: the number where `i8`
/// can represent it, `None` otherwise.
#[verifier::external_body]
fn cast_to_i8(n: i64) -> (r: Option<i8>)
    ensures
        r == (if i8::MIN <= n <= i8::MAX { Some(n as i8) } else { None::<i8> }),
{
    num_traits::NumCast::from(n)
}

/// `<i16 as num_traits::NumCast>::from` on an `i64`: the number where `i16`
/// can represent it, `None` otherwise.
#[verifier::external_body]
fn cast_to_i16(n: i64) -> (r: Option<i16>)
    ensures
        r == (if i16::MIN <= n <= i16::MAX { Some(n as i16) } else { None::<i16> }),
{
    num_traits::NumCast::from(n)
}

/// `<i32 as num_traits::NumCast>::from` on an `i64`: the number where `i32`
/// can represent it, `None` otherwise.
#[verifier::external_body]
fn cast_to_i32(n: i64) -> (r: Option<i32>)
    ensures
        r == (if i32::MIN <= n <= i32::MAX { Some(n as i32) } else { None::<i32> }),
{
    num_traits::NumCast::from(n)
}

/// `<i64 as num_traits::NumCast>::from` on an `i64`: always the number.
#[verifier::external_body]
fn cast_to_i64(n: i64) -> (r: Option<i64>)
    ensures
        r == Some(n),
{
    num_traits::NumCast::from(n)
}

/// `<u8 as num_traits::NumCast>::from` on an `i64`: the number where `u8`
/// can represent it, `None` otherwise.
#[verifier::external_body]
fn cast_to_u8(n: i64) -> (r: Option<u8>)
    ensures
        r == (if 0 <= n <= u8::MAX { Some(n as u8) } else { None::<u8> }),
{
    num_traits::NumCast::from(n)
}

/// `<u16 as num_traits::NumCast>::from` on an `i64`: the number where `u16`
/// can represent it, `None` otherwise.
#[verifier::external_body]
fn cast_to_u16(n: i64) -> (r: Option<u16>)
    ensures
        r == (if 0 <= n <= u16::MAX { Some(n as u16) } else { None::<u16> }),
{
    num_traits::NumCast::from(n)
}

/// `<u32 as num_traits::NumCast>::from` on an `i64`: the number where `u32`
/// can represent it, `None` otherwise.
#[verifier::external_body]
fn cast_to_u32(n: i64) -> (r: Option<u32>)
    ensures
        r == (if 0 <= n <= u32::MAX { Some(n as u32) } else { None::<u32> }),
{
    num_traits::NumCast::from(n)
}

/// `<u64 as num_traits::NumCast>::from` on an `i64`: the number where it is
/// not negative, `None` otherwise.
#[verifier::external_body]
fn cast_to_u64(n: i64) -> (r: Option<u64>)
    ensures
        r == (if 0 <= n { Some(n as u64) } else { None::<u64> }),
{
    num_traits::NumCast::from(n)
}

/// Casts an integer to the given type.
pub fn cast_integer(n: i64, native: Native) -> (r: Option<i128>)
    ensures
        as_int(r) == cast_integer_spec(n as int, native),
{
    match native {
        Native::I8 => match cast_to_i8(n) {
            Some(v) => Some(v as i128),
            None => None,
        },
        Native::I16 => match cast_to_i16(n) {
            Some(v) => Some(v as i128),
            None => None,
        },
        Native::I32 => match cast_to_i32(n) {
            Some(v) => Some(v as i128),
            None => None,
        },
        Native::I64 => match cast_to_i64(n) {
            Some(v) => Some(v as i128),
            None => None,
        },
        Native::U8 => match cast_to_u8(n) {
            Some(v) => Some(v as i128),
            None => None,
        },
        Native::U16 => match cast_to_u16(n) {
            Some(v) => Some(v as i128),
            None => None,
        },
        Native::U32 => match cast_to_u32(n) {
            Some(v) => Some(v as i128),
            None => None,
        },
        Native::U64 => match cast_to_u64(n) {
            Some(v) => Some(v as i128),
            None => None,
        },
    }
}

/// The integer part of `significand * 2^(exponent - fraction_bits)`.
pub open spec fn truncated_magnitude(significand: int, exponent: int, fraction_bits: int) -> int {
    if exponent >= fraction_bits {
        significand * pow2((exponent - fraction_bits) as nat)
    } else {
        significand / (pow2((fraction_bits - exponent) as nat) as int)
    }
}

/// The number with the given sign and magnitude.
pub open spec fn signed(negative: bool, magnitude: int) -> int {
    if negative {
        -magnitude
    } else {
        magnitude
    }
}

/// The integer part (the number rounded toward zero) of the single-precision
/// number with the given bit pattern; nothing for the infinities and NaN.
pub open spec fn float_integral(bits: u32) -> Option<int> {
    let negative = bits >= 0x8000_0000u32;
    let biased = (bits as int / 0x80_0000) % 0x100;
    let fraction = bits as int % 0x80_0000;
    if biased == 0xff {
        None
    } else if biased < 127 {
        Some(0)
    } else {
        Some(signed(negative, truncated_magnitude(0x80_0000 + fraction, biased - 127, 23)))
    }
}

/// The integer part (the number rounded toward zero) of the double-precision
/// number with the given bit pattern; nothing for the infinities and NaN.
pub open spec fn double_integral(bits: u64) -> Option<int> {
    let negative = bits >= 0x8000_0000_0000_0000u64;
    let biased = (bits as int / 0x10_0000_0000_0000) % 0x800;
    let fraction = bits as int % 0x10_0000_0000_0000;
    if biased == 0x7ff {
        None
    } else if biased < 1023 {
        Some(0)
    } else {
        Some(
            signed(negative, truncated_magnitude(0x10_0000_0000_0000 + fraction, biased - 1023, 52)),
        )
    }
}

/// The cast of an optional integer part to a type.
pub open spec fn cast_integral(integral: Option<int>, native: Native) -> Option<int> {
    match integral {
        Some(n) => cast_integer_spec(n, native),
        None => None,
    }
}

/// The cast of a single-precision number to an integer type: its integer
/// part where the number is finite and the type can represent that part.
pub open spec fn cast_float_spec(bits: u32, native: Native) -> Option<int> {
    cast_integral(float_integral(bits), native)
}

/// The cast of a double-precision number to an integer type: its integer
/// part where the number is finite and the type can represent that part.
pub open spec fn cast_double_spec(bits: u64, native: Native) -> Option<int> {
    cast_integral(double_integral(bits), native)
}

/// The cast of a source number to an integer type.
pub open spec fn cast_number_spec(n: Number, native: Native) -> Option<int> {
    match n {
        Number::Int(i) => cast_integer_spec(i as int, native),
        Number::Float(bits) => cast_float_spec(bits, native),
        Number::Double(bits) => cast_double_spec(bits, native),
    }
}

/// Two to the power `e`.
fn power_of_two(e: u32) -> (p: u128)
    requires
        e <= 64,
    ensures
        p == pow2(e as nat),
        1 <= p <= 0x1_0000_0000_0000_0000,
{
    let mut p: u128 = 1;
    let mut i: u32 = 0;
    proof {
        lemma2_to64();
    }
    while i < e
        invariant
            i <= e <= 64,
            p == pow2(i as nat),
            1 <= p,
            pow2(64) == 0x1_0000_0000_0000_0000,
        decreases e - i,
    {
        proof {
            lemma_pow2_unfold((i + 1) as nat);
            if i + 1 < 64 {
                lemma_pow2_strictly_increases((i + 1) as nat, 64);
            }
        }
        p = p * 2;
        i = i + 1;
    }
    proof {
        if e < 64 {
            lemma_pow2_strictly_increases(e as nat, 64);
        }
    }
    p
}

/// Casts the number `±significand * 2^(exponent - fraction_bits)`, rounded
/// toward zero, to the given type.
fn cast_parts(
    negative: bool,
    significand: u64,
    exponent: u32,
    fraction_bits: u32,
    native: Native,
) -> (r: Option<i128>)
    requires
        fraction_bits < 64,
        pow2(fraction_bits as nat) <= significand < pow2((fraction_bits + 1) as nat),
    ensures
        as_int(r) == cast_integer_spec(
            signed(
                negative,
                truncated_magnitude(significand as int, exponent as int, fraction_bits as int),
            ),
            native,
        ),
{
    let ghost magnitude = truncated_magnitude(
        significand as int,
        exponent as int,
        fraction_bits as int,
    );
    proof {
        lemma2_to64();
    }
    if exponent >= 64 {
        proof {
            // The magnitude is at least 2^exponent, beyond every type.
            let shift = (exponent - fraction_bits) as nat;
            lemma_pow2_adds(fraction_bits as nat, shift);
            lemma_pow2_pos(shift);
            vstd::arithmetic::mul::lemma_mul_inequality(
                pow2(fraction_bits as nat) as int,
                significand as int,
                pow2(shift) as int,
            );
            if exponent > 64 {
                lemma_pow2_strictly_increases(64, exponent as nat);
            }
            assert(magnitude >= 0x1_0000_0000_0000_0000);
        }
        None
    } else {
        let mag: u128 = if exponent >= fraction_bits {
            let factor: u128 = power_of_two(exponent - fraction_bits);
            proof {
                let shift = (exponent - fraction_bits) as nat;
                lemma_pow2_adds((fraction_bits + 1) as nat, shift);
                lemma_pow2_pos(shift);
                vstd::arithmetic::mul::lemma_mul_strict_inequality(
                    significand as int,
                    pow2((fraction_bits + 1) as nat) as int,
                    pow2(shift) as int,
                );
                if exponent + 1 < 64 {
                    lemma_pow2_strictly_increases((exponent + 1) as nat, 64);
                }
                assert(significand * factor < 0x1_0000_0000_0000_0000);
            }
            significand as u128 * factor
        } else {
            let divisor: u128 = power_of_two(fraction_bits - exponent);
            proof {
                vstd::arithmetic::div_mod::lemma_div_pos_is_pos(significand as int, divisor as int);
                vstd::arithmetic::div_mod::lemma_div_is_ordered_by_denominator(
                    significand as int,
                    1,
                    divisor as int,
                );
            }
            significand as u128 / divisor
        };
        assert(mag == magnitude);
        let value: i128 = if negative {
            -(mag as i128)
        } else {
            mag as i128
        };
        if native.can_hold(value) {
            Some(value)
        } else {
            None
        }
    }
}

/// Casts the single-precision number with the given bit pattern to the given
/// integer type.
pub fn cast_float(bits: u32, native: Native) -> (r: Option<i128>)
    ensures
        as_int(r) == cast_float_spec(bits, native),
{
    let negative = bits >= 0x8000_0000u32;
    let biased: u32 = (bits / 0x80_0000) % 0x100;
    let fraction: u32 = bits % 0x80_0000;
    if biased == 0xff {
        None
    } else if biased < 127 {
        Some(0)
    } else {
        proof {
            lemma2_to64();
        }
        cast_parts(negative, 0x80_0000u64 + fraction as u64, biased - 127, 23, native)
    }
}

/// Casts the double-precision number with the given bit pattern to the given
/// integer type.
pub fn cast_double(bits: u64, native: Native) -> (r: Option<i128>)
    ensures
        as_int(r) == cast_double_spec(bits, native),
{
    let negative = bits >= 0x8000_0000_0000_0000u64;
    let biased: u64 = (bits / 0x10_0000_0000_0000) % 0x800;
    let fraction: u64 = bits % 0x10_0000_0000_0000;
    if biased == 0x7ff {
        None
    } else if biased < 1023 {
        Some(0)
    } else {
        proof {
            lemma2_to64();
            lemma2_to64_rest();
        }
        cast_parts(negative, 0x10_0000_0000_0000u64 + fraction, (biased - 1023) as u32, 52, native)
    }
}

/// Casts a source number to the given integer type.
pub fn cast_number(n: Number, native: Native) -> (r: Option<i128>)
    ensures
        as_int(r) == cast_number_spec(n, native),
{
    match n {
        Number::Int(i) => cast_integer(i, native),
        Number::Float(bits) => cast_float(bits, native),
        Number::Double(bits) => cast_double(bits, native),
    }
}

} // verus!
