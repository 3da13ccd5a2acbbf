//! The arithmetic that error diffusion needs of a pixel, and the fixed-point
//! samples that carry it out exactly.

use crate::rgb::RGB;
use vstd::prelude::*;

verus! {

/// One step of an 8-bit channel, in the unit of fixed-point samples. It is a
/// multiple of every count of levels from one to seven and of the divisor of
/// every named kernel, so that uniform levels, and the shares of a residual of
/// whole steps, are whole numbers.
pub const UNIT: i64 = 3360;

/// The largest sample of an 8-bit channel.
pub const FULL: i64 = 856800;

/// `x` held to the range of a 64-bit sample.
pub open spec fn held(x: int) -> i64 {
    if x > i64::MAX {
        i64::MAX
    } else if x < i64::MIN {
        i64::MIN
    } else {
        x as i64
    }
}

/// The quotient of `x` by a positive `d`, rounded towards zero.
pub open spec fn toward_zero(x: int, d: int) -> int {
    if x >= 0 {
        x / d
    } else {
        -((-x) / d)
    }
}

/// What a pixel offers to error diffusion: a zero, a sum, and a share of
/// itself in the proportion `mul / div`.
pub trait Pixel: Sized + Copy {
    /// The pixel that adds nothing.
    spec fn zero_spec() -> Self;

    /// The sum of two pixels.
    spec fn add_spec(self, other: Self) -> Self;

    /// This pixel times `mul`, then divided by `div`.
    spec fn scale_spec(self, mul: int, div: int) -> Self;

    /// The pixel that adds nothing.
    fn zero() -> (z: Self)
        ensures
            z == Self::zero_spec(),
    ;

    /// The sum of this pixel and `other`.
    fn plus(self, other: Self) -> (sum: Self)
        ensures
            sum == self.add_spec(other),
    ;

    /// This pixel times `mul`, then divided by `div`.
    fn scaled(self, mul: i64, div: i64) -> (share: Self)
        requires
            div > 0,
        ensures
            share == self.scale_spec(mul as int, div as int),
    ;

    /// Adding the zero changes nothing.
    proof fn lemma_plus_zero(p: Self)
        ensures
            p.add_spec(Self::zero_spec()) == p,
    ;

    /// Every share of the zero is the zero.
    proof fn lemma_zero_scaled(mul: int, div: int)
        requires
            div > 0,
        ensures
            Self::zero_spec().scale_spec(mul, div) == Self::zero_spec(),
    ;
}

/// A fixed-point sample in units of `1 / UNIT` of an 8-bit step. Sums and
/// shares that leave the range of `i64` stay at its nearest end.
impl Pixel for i64 {
    open spec fn zero_spec() -> Self {
        0
    }

    open spec fn add_spec(self, other: Self) -> Self {
        held(self + other)
    }

    open spec fn scale_spec(self, mul: int, div: int) -> Self {
        held(toward_zero(self * mul, div))
    }

    fn zero() -> (z: Self) {
        0
    }

    fn plus(self, other: Self) -> (sum: Self) {
        hold(self as i128 + other as i128)
    }

    fn scaled(self, mul: i64, div: i64) -> (share: Self) {
        let a: i128 = self as i128;
        let m: i128 = mul as i128;
        assert(-0x4000_0000_0000_0000_0000_0000_0000_0000 <= a * m
            <= 0x4000_0000_0000_0000_0000_0000_0000_0000) by (nonlinear_arith)
            requires
                -0x8000_0000_0000_0000 <= a <= 0x8000_0000_0000_0000,
                -0x8000_0000_0000_0000 <= m <= 0x8000_0000_0000_0000,
        ;
        let product: i128 = a * m;
        let d: i128 = div as i128;
        let quotient: i128 = product / d;
        proof {
            if product < 0 {
                assert(0 <= (-product) / (d as int) <= -product) by (nonlinear_arith)
                    requires
                        d >= 1,
                        product < 0,
                ;
            }
        }
        hold(quotient)
    }

    proof fn lemma_plus_zero(p: Self) {
    }

    proof fn lemma_zero_scaled(mul: int, div: int) {
    }
}

/// `x` held to the range of a 64-bit sample.
pub fn hold(x: i128) -> (r: i64)
    ensures
        r == held(x as int),
{
    if x > i64::MAX as i128 {
        i64::MAX
    } else if x < i64::MIN as i128 {
        i64::MIN
    } else {
        x as i64
    }
}

/// Colour pixels add and scale channel by channel.
impl<T: Pixel> Pixel for RGB<T> {
    open spec fn zero_spec() -> Self {
        RGB(T::zero_spec(), T::zero_spec(), T::zero_spec())
    }

    open spec fn add_spec(self, other: Self) -> Self {
        RGB(self.0.add_spec(other.0), self.1.add_spec(other.1), self.2.add_spec(other.2))
    }

    open spec fn scale_spec(self, mul: int, div: int) -> Self {
        RGB(
            self.0.scale_spec(mul, div),
            self.1.scale_spec(mul, div),
            self.2.scale_spec(mul, div),
        )
    }

    fn zero() -> (z: Self) {
        RGB(T::zero(), T::zero(), T::zero())
    }

    fn plus(self, other: Self) -> (sum: Self) {
        RGB(self.0.plus(other.0), self.1.plus(other.1), self.2.plus(other.2))
    }

    fn scaled(self, mul: i64, div: i64) -> (share: Self) {
        RGB(self.0.scaled(mul, div), self.1.scaled(mul, div), self.2.scaled(mul, div))
    }

    proof fn lemma_plus_zero(p: Self) {
        T::lemma_plus_zero(p.0);
        T::lemma_plus_zero(p.1);
        T::lemma_plus_zero(p.2);
    }

    proof fn lemma_zero_scaled(mul: int, div: int) {
        T::lemma_zero_scaled(mul, div);
    }
}

/// The sample of an 8-bit value.
pub open spec fn sample_spec(v: u8) -> i64 {
    (v as int * UNIT as int) as i64
}

/// The 8-bit value nearest to a sample: 255 above the range, 0 below it, and
/// within it the nearest step, a half step going up.
pub open spec fn nearest_u8(s: i64) -> u8 {
    if s > FULL {
        255
    } else if s < 0 {
        0
    } else {
        ((s + UNIT / 2) / (UNIT as int)) as u8
    }
}

/// The sample of an 8-bit value.
pub fn sample_of(v: u8) -> (s: i64)
    ensures
        s == sample_spec(v),
        s == v as int * UNIT as int,
        0 <= s <= FULL,
{
    (v as i64) * UNIT
}

/// The 8-bit value nearest to a sample.
pub fn clamp_to_u8(s: i64) -> (v: u8)
    ensures
        v == nearest_u8(s),
{
    if s > FULL {
        255
    } else if s < 0 {
        0
    } else {
        ((s + UNIT / 2) / UNIT) as u8
    }
}

/// The sample of an 8-bit value has that value as its nearest.
pub proof fn lemma_sample_round_trip(v: u8)
    ensures
        nearest_u8(sample_spec(v)) == v,
{
}

/// The colour pixel of three 8-bit channels.
pub open spec fn colour_sample_spec(c: RGB<u8>) -> RGB<i64> {
    RGB(sample_spec(c.0), sample_spec(c.1), sample_spec(c.2))
}

/// The 8-bit colour nearest to a colour pixel.
pub open spec fn nearest_colour(p: RGB<i64>) -> RGB<u8> {
    RGB(nearest_u8(p.0), nearest_u8(p.1), nearest_u8(p.2))
}

/// The colour pixel of three 8-bit channels.
pub fn colour_sample_of(c: RGB<u8>) -> (p: RGB<i64>)
    ensures
        p == colour_sample_spec(c),
{
    RGB(sample_of(c.0), sample_of(c.1), sample_of(c.2))
}

/// The 8-bit colour nearest to a colour pixel.
pub fn clamp_to_colour(p: RGB<i64>) -> (c: RGB<u8>)
    ensures
        c == nearest_colour(p),
{
    RGB(clamp_to_u8(p.0), clamp_to_u8(p.1), clamp_to_u8(p.2))
}

/// The grey of a colour pixel: 0.2126 of its red, 0.7152 of its green and
/// 0.0722 of its blue, rounded towards zero.
pub open spec fn grey_of(p: RGB<i64>) -> i64 {
    held(toward_zero(2126 * p.0 + 7152 * p.1 + 722 * p.2, 10000))
}

impl RGB<i64> {
    /// The grey of this colour pixel, weighted as the eye sees its channels.
    pub fn to_chroma_corrected_black_and_white(&self) -> (grey: i64)
        ensures
            grey == grey_of(*self),
    {
        let sum: i128 = 2126 * (self.0 as i128) + 7152 * (self.1 as i128) + 722 * (self.2 as i128);
        hold(sum / 10000)
    }
}

impl RGB<u8> {
    /// The grey colour whose three channels are the 8-bit value nearest to `p`.
    pub fn from_chroma_corrected_black_and_white(p: i64) -> (c: Self)
        ensures
            c == RGB(nearest_u8(p), nearest_u8(p), nearest_u8(p)),
    {
        RGB(clamp_to_u8(p), clamp_to_u8(p), clamp_to_u8(p))
    }
}

} // verus!
