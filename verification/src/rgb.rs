//! A triplet of colour channels, in the order red, green, blue.

use crate::color::Error;
use crate::hex::{all_hex, hex_digit, lower_hex_byte, pair_value, to_lower_digit};
use crate::text::chars_of;
use std::ops::{Add, Div, Mul, Neg, Rem, Sub};
use std::str::FromStr;
use vstd::prelude::*;
use vstd::std_specs::convert::{FromSpec, FromSpecImpl};
use vstd::std_specs::ops::{
    AddSpec, AddSpecImpl, DivSpec, DivSpecImpl, MulSpec, MulSpecImpl, NegSpec, NegSpecImpl,
    RemSpec, RemSpecImpl, SubSpec, SubSpecImpl,
};

verus! {

/// Three channels of one type: red, green and blue, in that order.
#[derive(Default, Debug, PartialEq, Eq, Clone, Copy, Hash)]
pub struct RGB<N>(pub N, pub N, pub N);

impl<P> RGB<P> {
    /// Applies `convert` to each channel: red first, then green, then blue.
    pub fn convert_with<Q, F: Fn(P) -> Q>(self, convert: F) -> (out: RGB<Q>)
        requires
            call_requires(convert, (self.0,)),
            call_requires(convert, (self.1,)),
            call_requires(convert, (self.2,)),
        ensures
            call_ensures(convert, (self.0,), out.0),
            call_ensures(convert, (self.1,), out.1),
            call_ensures(convert, (self.2,), out.2),
    {
        let RGB(r, g, b) = self;
        RGB(convert(r), convert(g), convert(b))
    }

    /// Lifts a quantizer of one channel to a quantizer of whole pixels: see
    /// [`Across::apply`].
    pub fn map_across<F: Fn(P) -> (P, P)>(quantize: F) -> (mapped: Across<F>)
        ensures
            mapped.quantize == quantize,
    {
        Across { quantize }
    }
}

/// A quantizer of one channel, lifted to whole pixels.
pub struct Across<F> {
    /// The quantizer of one channel.
    pub quantize: F,
}

impl<F> Across<F> {
    /// Quantizes each channel of `p` by itself, red first, and gathers the
    /// quotients in one pixel and the remainders in another.
    pub fn apply<P>(&self, p: RGB<P>) -> (out: (RGB<P>, RGB<P>)) where F: Fn(P) -> (P, P)
        requires
            call_requires(self.quantize, (p.0,)),
            call_requires(self.quantize, (p.1,)),
            call_requires(self.quantize, (p.2,)),
        ensures
            call_ensures(self.quantize, (p.0,), (out.0.0, out.1.0)),
            call_ensures(self.quantize, (p.1,), (out.0.1, out.1.1)),
            call_ensures(self.quantize, (p.2,), (out.0.2, out.1.2)),
    {
        let RGB(r, g, b) = p;
        let (r_quot, r_rem) = (self.quantize)(r);
        let (g_quot, g_rem) = (self.quantize)(g);
        let (b_quot, b_rem) = (self.quantize)(b);
        (RGB(r_quot, g_quot, b_quot), RGB(r_rem, g_rem, b_rem))
    }
}

impl<N: Add<Output = N>> Add for RGB<N> {
    type Output = Self;

    fn add(self, other: Self) -> (sum: Self) {
        let RGB(r0, g0, b0) = self;
        let RGB(r1, g1, b1) = other;
        RGB(r0 + r1, g0 + g1, b0 + b1)
    }
}

impl<N: Add<Output = N>> AddSpecImpl for RGB<N> {
    open spec fn obeys_add_spec() -> bool {
        N::obeys_add_spec()
    }

    open spec fn add_req(self, other: Self) -> bool {
        self.0.add_req(other.0) && self.1.add_req(other.1) && self.2.add_req(other.2)
    }

    open spec fn add_spec(self, other: Self) -> Self {
        RGB(self.0.add_spec(other.0), self.1.add_spec(other.1), self.2.add_spec(other.2))
    }
}

impl<N: Sub<Output = N>> Sub for RGB<N> {
    type Output = Self;

    fn sub(self, other: Self) -> (difference: Self) {
        let RGB(r0, g0, b0) = self;
        let RGB(r1, g1, b1) = other;
        RGB(r0 - r1, g0 - g1, b0 - b1)
    }
}

impl<N: Sub<Output = N>> SubSpecImpl for RGB<N> {
    open spec fn obeys_sub_spec() -> bool {
        N::obeys_sub_spec()
    }

    open spec fn sub_req(self, other: Self) -> bool {
        self.0.sub_req(other.0) && self.1.sub_req(other.1) && self.2.sub_req(other.2)
    }

    open spec fn sub_spec(self, other: Self) -> Self {
        RGB(self.0.sub_spec(other.0), self.1.sub_spec(other.1), self.2.sub_spec(other.2))
    }
}

impl<S: Mul<Output = S> + Copy> Mul<S> for RGB<S> {
    type Output = Self;

    fn mul(self, s: S) -> (product: Self) {
        let RGB(r, g, b) = self;
        RGB(r * s, g * s, b * s)
    }
}

impl<S: Mul<Output = S> + Copy> MulSpecImpl<S> for RGB<S> {
    open spec fn obeys_mul_spec() -> bool {
        S::obeys_mul_spec()
    }

    open spec fn mul_req(self, s: S) -> bool {
        self.0.mul_req(s) && self.1.mul_req(s) && self.2.mul_req(s)
    }

    open spec fn mul_spec(self, s: S) -> Self {
        RGB(self.0.mul_spec(s), self.1.mul_spec(s), self.2.mul_spec(s))
    }
}

impl<S: Div<Output = S> + Copy> Div<S> for RGB<S> {
    type Output = Self;

    fn div(self, s: S) -> (quotient: Self) {
        let RGB(r, g, b) = self;
        RGB(r.div(s), g.div(s), b.div(s))
    }
}

impl<S: Div<Output = S> + Copy> DivSpecImpl<S> for RGB<S> {
    open spec fn obeys_div_spec() -> bool {
        S::obeys_div_spec()
    }

    open spec fn div_req(self, s: S) -> bool {
        self.0.div_req(s) && self.1.div_req(s) && self.2.div_req(s)
    }

    open spec fn div_spec(self, s: S) -> Self {
        RGB(self.0.div_spec(s), self.1.div_spec(s), self.2.div_spec(s))
    }
}

impl<S: Rem<Output = S> + Copy> Rem<S> for RGB<S> {
    type Output = Self;

    fn rem(self, s: S) -> (remainder: Self) {
        let RGB(r, g, b) = self;
        RGB(r.rem(s), g.rem(s), b.rem(s))
    }
}

impl<S: Rem<Output = S> + Copy> RemSpecImpl<S> for RGB<S> {
    open spec fn obeys_rem_spec() -> bool {
        S::obeys_rem_spec()
    }

    open spec fn rem_req(self, s: S) -> bool {
        self.0.rem_req(s) && self.1.rem_req(s) && self.2.rem_req(s)
    }

    open spec fn rem_spec(self, s: S) -> Self {
        RGB(self.0.rem_spec(s), self.1.rem_spec(s), self.2.rem_spec(s))
    }
}

impl<N: Neg<Output = N>> Neg for RGB<N> {
    type Output = Self;

    fn neg(self) -> (negated: Self) {
        let RGB(r, g, b) = self;
        RGB(r.neg(), g.neg(), b.neg())
    }
}

impl<N: Neg<Output = N>> NegSpecImpl for RGB<N> {
    open spec fn obeys_neg_spec() -> bool {
        N::obeys_neg_spec()
    }

    open spec fn neg_req(self) -> bool {
        self.0.neg_req() && self.1.neg_req() && self.2.neg_req()
    }

    open spec fn neg_spec(self) -> Self {
        RGB(self.0.neg_spec(), self.1.neg_spec(), self.2.neg_spec())
    }
}

impl<N: Copy, M: From<N>> From<[N; 3]> for RGB<M> {
    fn from(a: [N; 3]) -> (rgb: Self) {
        RGB(M::from(a[0]), M::from(a[1]), M::from(a[2]))
    }
}

impl<N: Copy, M: From<N>> FromSpecImpl<[N; 3]> for RGB<M> {
    open spec fn obeys_from_spec() -> bool {
        M::obeys_from_spec()
    }

    open spec fn from_spec(a: [N; 3]) -> Self {
        RGB(M::from_spec(a[0]), M::from_spec(a[1]), M::from_spec(a[2]))
    }
}

impl<N, M: From<N>> From<(N, N, N)> for RGB<M> {
    fn from(t: (N, N, N)) -> (rgb: Self) {
        let (r, g, b) = t;
        RGB(M::from(r), M::from(g), M::from(b))
    }
}

impl<N, M: From<N>> FromSpecImpl<(N, N, N)> for RGB<M> {
    open spec fn obeys_from_spec() -> bool {
        M::obeys_from_spec()
    }

    open spec fn from_spec(t: (N, N, N)) -> Self {
        RGB(M::from_spec(t.0), M::from_spec(t.1), M::from_spec(t.2))
    }
}

/// The 24-bit number `0xRRGGBB` of a colour.
pub open spec fn packed(c: RGB<u8>) -> int {
    c.0 as int * 65536 + c.1 as int * 256 + c.2 as int
}

/// The colour that the low 24 bits of `hex` spell as `0xRRGGBB`.
pub open spec fn unpacked(hex: u32) -> RGB<u8> {
    RGB(((hex / 65536) % 256) as u8, ((hex / 256) % 256) as u8, (hex % 256) as u8)
}

impl RGB<u8> {
    /// The colour of a number `0xRRGGBB`; bits above the lowest 24 are dropped.
    pub fn from_hex(hex: u32) -> (rgb: Self)
        ensures
            rgb == unpacked(hex),
    {
        assert((hex >> 16u32) & 0xffu32 == (hex / 65536u32) % 256u32) by (bit_vector);
        assert((hex >> 8u32) & 0xffu32 == (hex / 256u32) % 256u32) by (bit_vector);
        assert(hex & 0xffu32 == hex % 256u32) by (bit_vector);
        RGB(((hex >> 16) & 0xff) as u8, ((hex >> 8) & 0xff) as u8, (hex & 0xff) as u8)
    }

    /// The number `0xRRGGBB` of this colour.
    pub fn to_hex(self) -> (hex: u32)
        ensures
            hex == packed(self),
            unpacked(hex) == self,
    {
        let RGB(r, g, b) = self;
        let hex: u32 = (r as u32) * 65536 + (g as u32) * 256 + (b as u32);
        proof {
            let low = g as int * 256 + b as int;
            assert(0 <= low < 65536);
            assert(hex as int == r as int * 65536 + low);
            assert(hex as int / 65536 == r as int);
            assert(hex as int / 256 == r as int * 256 + g as int);
            assert((hex as int / 256) % 256 == g as int);
            assert(hex as int % 256 == b as int);
        }
        hex
    }

    /// The six lower-case hexadecimal digits `rrggbb` of this colour.
    pub fn lower_hex(&self) -> (s: String)
        ensures
            s@ == lower_hex_byte(self.0) + lower_hex_byte(self.1) + lower_hex_byte(self.2),
            is_rgb_text(s@),
            rgb_of_text(s@) == *self,
    {
        let mut s = String::new();
        s.push(to_lower_digit(self.0 / 16));
        s.push(to_lower_digit(self.0 % 16));
        s.push(to_lower_digit(self.1 / 16));
        s.push(to_lower_digit(self.1 % 16));
        s.push(to_lower_digit(self.2 / 16));
        s.push(to_lower_digit(self.2 % 16));
        proof {
            assert(s@ =~= lower_hex_byte(self.0) + lower_hex_byte(self.1) + lower_hex_byte(
                self.2,
            ));
            assert(hex_body(s@) =~= s@);
        }
        s
    }
}

/// `s` without a leading `0x` or `0X`.
pub open spec fn hex_body(s: Seq<char>) -> Seq<char> {
    if s.len() >= 2 && s[0] == '0' && (s[1] == 'x' || s[1] == 'X') {
        s.skip(2)
    } else {
        s
    }
}

/// `s` spells a colour: six hexadecimal digits, with or without `0x` in front.
pub open spec fn is_rgb_text(s: Seq<char>) -> bool {
    hex_body(s).len() == 6 && all_hex(hex_body(s))
}

/// The colour that `s` spells.
pub open spec fn rgb_of_text(s: Seq<char>) -> RGB<u8> {
    let b = hex_body(s);
    RGB(
        pair_value(b[0], b[1]) as u8,
        pair_value(b[2], b[3]) as u8,
        pair_value(b[4], b[5]) as u8,
    )
}

/// Reads the colour that the characters of `v` from `start` to `end` spell.
pub fn parse_rgb_chars(v: &Vec<char>, start: usize, end: usize) -> (r: Result<RGB<u8>, Error>)
    requires
        start <= end <= v.len(),
    ensures
        is_rgb_text(v@.subrange(start as int, end as int)) ==> r == Ok::<RGB<u8>, Error>(
            rgb_of_text(v@.subrange(start as int, end as int)),
        ),
        !is_rgb_text(v@.subrange(start as int, end as int)) ==> r == Err::<RGB<u8>, Error>(
            Error::RGBParse,
        ),
{
    let ghost s = v@.subrange(start as int, end as int);
    let mut first: usize = start;
    if end - start >= 2 && v[start] == '0' && (v[start + 1] == 'x' || v[start + 1] == 'X') {
        first = start + 2;
    }
    let ghost body = v@.subrange(first as int, end as int);
    proof {
        if first > start {
            assert(s[0] == '0' && (s[1] == 'x' || s[1] == 'X'));
            assert(body =~= s.skip(2));
        } else {
            if s.len() >= 2 {
                assert(s[0] == v@[start as int] && s[1] == v@[start + 1]);
            }
            assert(body =~= s);
        }
        assert(body == hex_body(s));
    }
    if end - first != 6 {
        return Err(Error::RGBParse);
    }
    let mut d: [u8; 6] = [0, 0, 0, 0, 0, 0];
    let mut i: usize = 0;
    while i < 6
        invariant
            i <= 6,
            first + 6 == end <= v.len(),
            body == v@.subrange(first as int, end as int),
            body == hex_body(s),
            s == v@.subrange(start as int, end as int),
            forall|k: int| 0 <= k < i ==> digit_value_is(body[k], #[trigger] d@[k]),
        decreases 6 - i,
    {
        match hex_digit(v[first + i]) {
            None => {
                proof {
                    assert(crate::hex::digit_value(body[i as int]) is None);
                }
                return Err(Error::RGBParse);
            },
            Some(x) => {
                d[i] = x;
            },
        }
        i = i + 1;
    }
    proof {
        assert forall|k: int| 0 <= k < body.len() implies (#[trigger] crate::hex::digit_value(
            body[k],
        )) is Some by {
            assert(digit_value_is(body[k], d@[k]));
        }
        assert(digit_value_is(body[0], d@[0]));
        assert(digit_value_is(body[1], d@[1]));
        assert(digit_value_is(body[2], d@[2]));
        assert(digit_value_is(body[3], d@[3]));
        assert(digit_value_is(body[4], d@[4]));
        assert(digit_value_is(body[5], d@[5]));
    }
    Ok(RGB(d[0] * 16 + d[1], d[2] * 16 + d[3], d[4] * 16 + d[5]))
}

/// `v` is the value of the hexadecimal digit `c`.
pub open spec fn digit_value_is(c: char, v: u8) -> bool {
    crate::hex::digit_value(c) == Some(v as int) && v < 16
}

/// Reads a colour written as six hexadecimal digits, with or without `0x` or
/// `0X` in front. Any other text is refused.
pub fn parse_rgb(s: &str) -> (r: Result<RGB<u8>, Error>)
    ensures
        is_rgb_text(s@) ==> r == Ok::<RGB<u8>, Error>(rgb_of_text(s@)),
        !is_rgb_text(s@) ==> r == Err::<RGB<u8>, Error>(Error::RGBParse),
{
    let v = chars_of(s);
    assert(v@.subrange(0, v@.len() as int) =~= v@);
    parse_rgb_chars(&v, 0, v.len())
}

impl<T: From<u8>> FromStr for RGB<T> {
    type Err = Error;

    /// Reads a colour as [`parse_rgb`] does, and turns each channel into `T`
    /// by `T::from`. For channels of type `u8` itself, [`parse_rgb`] is the
    /// exact form.
    fn from_str(s: &str) -> (r: Result<Self, Error>)
        ensures
            is_rgb_text(s@) <==> r is Ok,
            r is Err ==> r == Err::<Self, Error>(Error::RGBParse),
            r is Ok ==> {
                &&& call_ensures(T::from, (rgb_of_text(s@).0,), r.unwrap().0)
                &&& call_ensures(T::from, (rgb_of_text(s@).1,), r.unwrap().1)
                &&& call_ensures(T::from, (rgb_of_text(s@).2,), r.unwrap().2)
            },
            r is Ok && T::obeys_from_spec() ==> r.unwrap() == RGB(
                T::from_spec(rgb_of_text(s@).0),
                T::from_spec(rgb_of_text(s@).1),
                T::from_spec(rgb_of_text(s@).2),
            ),
    {
        match parse_rgb(s) {
            Ok(RGB(r, g, b)) => Ok(RGB(T::from(r), T::from(g), T::from(b))),
            Err(e) => Err(e),
        }
    }
}

} // verus!
