//! An image as a flat, row-major buffer of pixels and a width.

use crate::rgb::RGB;
use std::ops::Index;
use vstd::prelude::*;
use vstd::std_specs::iter::IteratorSpec;

verus! {

/// An image: its pixels row after row, and the number of pixels in a row.
/// The width is positive and divides the number of pixels.
#[derive(Debug, PartialEq)]
pub struct Img<P> {
    buf: Vec<P>,
    width: u32,
}

impl<P> View for Img<P> {
    type V = Seq<P>;

    /// The pixels, row after row.
    closed spec fn view(&self) -> Seq<P> {
        self.buf@
    }
}

/// The bytes of a run of pixels: red, green and blue of each in turn.
pub open spec fn flattened(pixels: Seq<RGB<u8>>) -> Seq<u8> {
    Seq::new(
        3 * pixels.len(),
        |i: int|
            if i % 3 == 0 {
                pixels[i / 3].0
            } else if i % 3 == 1 {
                pixels[i / 3].1
            } else {
                pixels[i / 3].2
            },
    )
}

impl<P> Img<P> {
    #[verifier::type_invariant]
    spec fn well_formed(&self) -> bool {
        self.width > 0 && self.buf@.len() % (self.width as nat) == 0
    }

    /// The number of pixels in a row.
    pub closed spec fn spec_width(&self) -> u32 {
        self.width
    }

    /// A buffer of `len` pixels can be cut into rows of `width`.
    pub open spec fn fits(len: nat, width: u32) -> bool {
        width > 0 && len % (width as nat) == 0
    }

    /// The place of column `x` of row `y` in the buffer.
    pub open spec fn spec_idx(&self, x: u32, y: u32) -> int {
        y as int * self.spec_width() as int + x as int
    }

    /// The image of `buf` in rows of `width`, if `width` is positive and
    /// divides the length of `buf`.
    pub fn new(buf: Vec<P>, width: u32) -> (img: Option<Self>)
        ensures
            match img {
                Some(i) => Self::fits(buf@.len(), width) && i@ == buf@ && i.spec_width() == width,
                None => !Self::fits(buf@.len(), width),
            },
    {
        if width == 0 || buf.len() % width as usize != 0 {
            None
        } else {
            Some(Img { buf, width })
        }
    }

    /// The image of `buf` in rows of `width`, for a caller who knows that the
    /// two fit.
    pub fn from_raw_buf(buf: Vec<P>, width: u32) -> (img: Self)
        requires
            Self::fits(buf@.len(), width),
        ensures
            img@ == buf@,
            img.spec_width() == width,
    {
        Img { buf, width }
    }

    /// The pixels, row after row.
    pub fn into_vec(self) -> (buf: Vec<P>)
        ensures
            buf@ == self@,
    {
        self.buf
    }

    /// The number of pixels in a row.
    pub fn width(&self) -> (w: u32)
        ensures
            w == self.spec_width(),
            w > 0,
            self@.len() % (w as nat) == 0,
    {
        proof {
            use_type_invariant(self);
        }
        self.width
    }

    /// The pixels, row after row.
    pub fn as_slice(&self) -> (pixels: &[P])
        ensures
            pixels@ == self@,
    {
        self.buf.as_slice()
    }

    /// An iterator over the pixels, row after row.
    pub fn iter(&self) -> (it: std::slice::Iter<'_, P>)
        ensures
            IteratorSpec::remaining(&it) == self@.as_ref(),
            IteratorSpec::decrease(&it) is Some,
            IteratorSpec::initial_value_relation(&it, &it),
    {
        broadcast use vstd::std_specs::slice::axiom_spec_slice_iter;

        self.buf.as_slice().iter()
    }

    /// The number of rows, counted from the low 32 bits of the number of pixels.
    pub fn height(&self) -> (h: u32)
        ensures
            h == (self@.len() % 0x1_0000_0000) / (self.spec_width() as nat),
    {
        proof {
            use_type_invariant(self);
        }
        let n: usize = self.buf.len();
        let low: u32 = (n as u64 % 0x1_0000_0000u64) as u32;
        low / self.width
    }

    /// The image whose pixels are those of this one after `convert`, taken
    /// in order, with the same width.
    pub fn convert_with<Q, F: Fn(P) -> Q>(self, convert: F) -> (out: Img<Q>)
        requires
            forall|i: int| 0 <= i < self@.len() ==> call_requires(convert, (#[trigger] self@[i],)),
        ensures
            out@.len() == self@.len(),
            out.spec_width() == self.spec_width(),
            forall|i: int|
                0 <= i < self@.len() ==> call_ensures(convert, (self@[i],), #[trigger] out@[i]),
    {
        broadcast use vstd::std_specs::vec::axiom_spec_into_iter;

        proof {
            use_type_invariant(&self);
        }
        let ghost pixels = self@;
        let width = self.width;
        let buf = self.buf;
        assert(buf@ == pixels);
        let mut out: Vec<Q> = Vec::new();
        for p in it: buf.into_iter()
            invariant
                it.seq() == pixels,
                out@.len() == it.index(),
                forall|i: int| 0 <= i < pixels.len() ==> call_requires(convert, (#[trigger] pixels[i],)),
                forall|i: int|
                    0 <= i < it.index() ==> call_ensures(convert, (pixels[i],), #[trigger] out@[i]),
        {
            let q = convert(p);
            out.push(q);
        }
        Img { buf: out, width }
    }

    fn idx(&self, x: u32, y: u32) -> (i: u64)
        ensures
            i == self.spec_idx(x, y),
    {
        assert(y as int * self.width as int <= 0xffff_ffff * 0xffff_ffff) by (nonlinear_arith)
            requires
                0 <= y <= 0xffff_ffff,
                0 <= self.width <= 0xffff_ffff,
        ;
        (y as u64) * (self.width as u64) + (x as u64)
    }

    /// The number of pixels.
    pub fn len(&self) -> (n: usize)
        ensures
            n == self@.len(),
    {
        self.buf.len()
    }

    /// Whether the image has no pixel.
    pub fn is_empty(&self) -> (b: bool)
        ensures
            b == (self@.len() == 0),
    {
        self.len() == 0
    }

    /// The pixel in column `x` of row `y`, as the buffer counts them: the
    /// pixel at `y * width + x`, if the buffer is that long.
    pub fn get(&self, at: (u32, u32)) -> (p: Option<&P>)
        ensures
            match p {
                Some(r) => self.spec_idx(at.0, at.1) < self@.len() && *r == self@[self.spec_idx(
                    at.0,
                    at.1,
                )],
                None => self.spec_idx(at.0, at.1) >= self@.len(),
            },
    {
        let i = self.idx(at.0, at.1);
        if i < self.buf.len() as u64 {
            Some(&self.buf[i as usize])
        } else {
            None
        }
    }

    /// The width and the height.
    pub fn size(&self) -> (s: (u32, u32))
        ensures
            s.0 == self.spec_width(),
            s.1 == (self@.len() % 0x1_0000_0000) / (self.spec_width() as nat),
    {
        (self.width, self.height())
    }
}

impl<P: Clone> Clone for Img<P> {
    fn clone(&self) -> (copy: Self)
        ensures
            copy@.len() == self@.len(),
            copy.spec_width() == self.spec_width(),
            forall|i: int| 0 <= i < self@.len() ==> cloned(#[trigger] self@[i], copy@[i]),
    {
        proof {
            use_type_invariant(self);
        }
        Img { buf: self.buf.clone(), width: self.width }
    }
}

impl<P> Index<(u32, u32)> for Img<P> {
    type Output = P;

    /// The pixel in column `at.0` of row `at.1`, which the buffer must hold.
    fn index(&self, at: (u32, u32)) -> (p: &P)
        ensures
            *p == self@[self.spec_idx(at.0, at.1)],
    {
        let i = self.idx(at.0, at.1);
        let n = self.buf.len();
        assert(i < n);
        &self.buf[i as usize]
    }
}

impl<P> vstd::std_specs::core::IndexSpecImpl<(u32, u32)> for Img<P> {
    open spec fn index_req(&self, at: &(u32, u32)) -> bool {
        self.spec_idx(at.0, at.1) < self@.len()
    }
}

impl<P> IntoIterator for Img<P> {
    type Item = P;

    type IntoIter = std::vec::IntoIter<P>;

    /// An iterator that hands out the pixels, row after row.
    fn into_iter(self) -> (it: std::vec::IntoIter<P>)
        ensures
            IteratorSpec::remaining(&it) == self@,
    {
        broadcast use vstd::std_specs::vec::axiom_spec_into_iter;

        self.buf.into_iter()
    }
}

impl<'a, P> IntoIterator for &'a Img<P> {
    type Item = &'a P;

    type IntoIter = std::slice::Iter<'a, P>;

    /// An iterator over the pixels, row after row.
    fn into_iter(self) -> (it: std::slice::Iter<'a, P>)
        ensures
            IteratorSpec::remaining(&it) == self@.as_ref(),
    {
        broadcast use vstd::std_specs::slice::axiom_spec_slice_iter;

        self.buf.as_slice().iter()
    }
}

impl Img<RGB<u8>> {
    /// The channels of all pixels in one buffer: red, green, blue of the first
    /// pixel, then of the second, and so on.
    pub fn raw_buf(self) -> (raw: Vec<u8>)
        ensures
            raw@ == flattened(self@),
    {
        let mut raw: Vec<u8> = Vec::new();
        let mut i: usize = 0;
        while i < self.buf.len()
            invariant
                i <= self.buf.len(),
                raw@.len() == 3 * i,
                forall|k: int| 0 <= k < 3 * i ==> raw@[k] == #[trigger] flattened(self.buf@)[k],
            decreases self.buf.len() - i,
        {
            let RGB(r, g, b) = self.buf[i];
            raw.push(r);
            raw.push(g);
            raw.push(b);
            i = i + 1;
        }
        assert(raw@ =~= flattened(self@));
        raw
    }
}

} // verus!
