//! Error diffusion: a kernel that says where the residual of a quantized
//! pixel goes, and the single forward pass that applies it.

use crate::img::Img;
use crate::pixel::Pixel;
use crate::text::{ascii_lower, chars_of, joined, owned, slice_is, to_ascii_lower};
use std::str::FromStr;
use vstd::prelude::*;

verus! {

/// The table of a ditherer: a divisor, and for each neighbour that receives a
/// share of the residual its column offset, its row offset and its weight.
pub struct Kernel {
    pub div: int,
    pub offsets: Seq<(int, int, int)>,
}

/// The offset points at a pixel that a raster scan visits later.
pub open spec fn downstream(dx: int, dy: int) -> bool {
    dy > 0 || (dy == 0 && dx > 0)
}

/// The divisor is positive and every offset is downstream.
pub open spec fn valid_kernel(k: Kernel) -> bool {
    &&& k.div > 0
    &&& forall|i: int|
        0 <= i < k.offsets.len() ==> downstream((#[trigger] k.offsets[i]).0, k.offsets[i].1)
}

/// The kernels that have a name.
#[derive(Clone, Copy, Debug, PartialEq, Eq)]
pub enum NamedKernel {
    FloydSteinberg,
    Atkinson,
    Stucki,
    Burkes,
    JarvisJudiceNinke,
    Sierra3,
}

/// The table of a named kernel.
pub open spec fn named_kernel(k: NamedKernel) -> Kernel {
    match k {
        NamedKernel::FloydSteinberg => Kernel {
            div: 16,
            offsets: seq![(1, 0, 7), (-1, 1, 3), (0, 1, 5), (1, 1, 1)],
        },
        NamedKernel::Atkinson => Kernel {
            div: 8,
            offsets: seq![(1, 0, 1), (2, 0, 1), (-1, 1, 1), (0, 1, 1), (1, 1, 1), (0, 2, 1)],
        },
        NamedKernel::Burkes => Kernel {
            div: 32,
            offsets: seq![
                (1, 0, 8),
                (2, 0, 4),
                (-2, 1, 2),
                (-1, 1, 4),
                (0, 1, 8),
                (1, 1, 4),
                (2, 1, 2),
            ],
        },
        NamedKernel::Stucki => Kernel {
            div: 42,
            offsets: seq![
                (1, 0, 8),
                (2, 0, 4),
                (-2, 1, 2),
                (-1, 1, 4),
                (0, 1, 8),
                (1, 1, 4),
                (2, 1, 2),
                (-2, 2, 1),
                (-1, 2, 2),
                (0, 2, 4),
                (1, 2, 2),
                (2, 2, 1),
            ],
        },
        NamedKernel::JarvisJudiceNinke => Kernel {
            div: 48,
            offsets: seq![
                (1, 0, 7),
                (2, 0, 5),
                (-2, 1, 3),
                (-1, 1, 5),
                (0, 1, 7),
                (1, 1, 5),
                (2, 1, 3),
                (-2, 2, 1),
                (-1, 2, 3),
                (0, 2, 5),
                (1, 2, 3),
                (2, 2, 1),
            ],
        },
        NamedKernel::Sierra3 => Kernel {
            div: 32,
            offsets: seq![
                (1, 0, 5),
                (2, 0, 3),
                (-2, 1, 2),
                (-1, 1, 4),
                (0, 1, 5),
                (1, 1, 4),
                (2, 1, 2),
                (-1, 2, 2),
                (0, 2, 3),
                (1, 2, 2),
            ],
        },
    }
}

/// Every named kernel has a positive divisor and only downstream offsets.
pub proof fn lemma_named_kernels_are_valid(k: NamedKernel)
    ensures
        valid_kernel(named_kernel(k)),
{
}

/// The name under which a named kernel shows itself.
pub open spec fn named_label(k: NamedKernel) -> Seq<char> {
    match k {
        NamedKernel::FloydSteinberg => "floyd"@,
        NamedKernel::Atkinson => "atkinson"@,
        NamedKernel::Stucki => "stucki"@,
        NamedKernel::Burkes => "burkes"@,
        NamedKernel::JarvisJudiceNinke => "jarvis"@,
        NamedKernel::Sierra3 => "sierra3"@,
    }
}

/// The kernel that a lower-case word names, if it names one.
pub open spec fn kernel_of_word(w: Seq<char>) -> Option<NamedKernel> {
    if w == "floyd"@ || w == "steinberg"@ || w == "floydsteinberg"@ || w == "floyd steinberg"@ {
        Some(NamedKernel::FloydSteinberg)
    } else if w == "atkinson"@ {
        Some(NamedKernel::Atkinson)
    } else if w == "stucki"@ {
        Some(NamedKernel::Stucki)
    } else if w == "burkes"@ {
        Some(NamedKernel::Burkes)
    } else if w == "jarvis"@ || w == "judice"@ || w == "ninke"@ {
        Some(NamedKernel::JarvisJudiceNinke)
    } else if w == "sierra"@ || w == "sierra3"@ {
        Some(NamedKernel::Sierra3)
    } else {
        None
    }
}

/// `s` with its ASCII upper-case letters in lower case.
pub open spec fn lowered(s: Seq<char>) -> Seq<char> {
    Seq::new(s.len(), |i: int| ascii_lower(s[i]))
}

/// A name that no ditherer has.
#[derive(Debug, Clone, PartialEq, Eq)]
pub struct ErrorUnknownDitherer(pub String);

/// A ditherer: a kernel, and the name it goes by if it has one.
#[derive(Debug)]
pub struct Ditherer {
    div: i64,
    offsets: Vec<(isize, isize, i64)>,
    name: Option<NamedKernel>,
}

/// The table that a divisor and a list of offsets make.
pub open spec fn kernel_of(div: i64, offsets: Seq<(isize, isize, i64)>) -> Kernel {
    Kernel {
        div: div as int,
        offsets: Seq::new(
            offsets.len(),
            |i: int| (offsets[i].0 as int, offsets[i].1 as int, offsets[i].2 as int),
        ),
    }
}

impl View for Ditherer {
    type V = Kernel;

    closed spec fn view(&self) -> Kernel {
        kernel_of(self.div, self.offsets@)
    }
}

impl Ditherer {
    #[verifier::type_invariant]
    spec fn well_formed(&self) -> bool {
        valid_kernel(kernel_of(self.div, self.offsets@))
    }

    /// The named kernel that this ditherer was made from, if any.
    pub closed spec fn spec_name(&self) -> Option<NamedKernel> {
        self.name
    }

    /// The words by which this ditherer shows itself.
    pub open spec fn spec_label(&self) -> Seq<char> {
        match self.spec_name() {
            Some(k) => named_label(k),
            None => "custom ditherer"@,
        }
    }

    /// A ditherer without a name, if the divisor is positive and every offset
    /// is downstream.
    pub fn new(div: i64, offsets: Vec<(isize, isize, i64)>) -> (d: Option<Self>)
        ensures
            match d {
                Some(d) => valid_kernel(kernel_of(div, offsets@)) && d@ == kernel_of(div, offsets@)
                    && d.spec_name() is None,
                None => !valid_kernel(kernel_of(div, offsets@)),
            },
    {
        if div <= 0 {
            return None;
        }
        let ghost k = kernel_of(div, offsets@);
        let mut i: usize = 0;
        while i < offsets.len()
            invariant
                i <= offsets.len(),
                k == kernel_of(div, offsets@),
                forall|j: int| 0 <= j < i ==> downstream((#[trigger] k.offsets[j]).0, k.offsets[j].1),
            decreases offsets.len() - i,
        {
            let (dx, dy, _w) = offsets[i];
            if !(dy > 0 || (dy == 0 && dx > 0)) {
                proof {
                    assert(!downstream(k.offsets[i as int].0, k.offsets[i as int].1));
                }
                return None;
            }
            i = i + 1;
        }
        Some(Ditherer { div, offsets, name: None })
    }

    /// The ditherer of a named kernel.
    pub fn named(k: NamedKernel) -> (d: Self)
        ensures
            d@ == named_kernel(k),
            d.spec_name() == Some(k),
    {
        let (div, offsets): (i64, Vec<(isize, isize, i64)>) = match k {
            NamedKernel::FloydSteinberg => (16, vec![(1, 0, 7), (-1, 1, 3), (0, 1, 5), (1, 1, 1)]),
            NamedKernel::Atkinson => (
                8,
                vec![(1, 0, 1), (2, 0, 1), (-1, 1, 1), (0, 1, 1), (1, 1, 1), (0, 2, 1)],
            ),
            NamedKernel::Burkes => (
                32,
                vec![(1, 0, 8), (2, 0, 4), (-2, 1, 2), (-1, 1, 4), (0, 1, 8), (1, 1, 4), (2, 1, 2)],
            ),
            NamedKernel::Stucki => (
                42,
                vec![
                    (1, 0, 8),
                    (2, 0, 4),
                    (-2, 1, 2),
                    (-1, 1, 4),
                    (0, 1, 8),
                    (1, 1, 4),
                    (2, 1, 2),
                    (-2, 2, 1),
                    (-1, 2, 2),
                    (0, 2, 4),
                    (1, 2, 2),
                    (2, 2, 1),
                ],
            ),
            NamedKernel::JarvisJudiceNinke => (
                48,
                vec![
                    (1, 0, 7),
                    (2, 0, 5),
                    (-2, 1, 3),
                    (-1, 1, 5),
                    (0, 1, 7),
                    (1, 1, 5),
                    (2, 1, 3),
                    (-2, 2, 1),
                    (-1, 2, 3),
                    (0, 2, 5),
                    (1, 2, 3),
                    (2, 2, 1),
                ],
            ),
            NamedKernel::Sierra3 => (
                32,
                vec![
                    (1, 0, 5),
                    (2, 0, 3),
                    (-2, 1, 2),
                    (-1, 1, 4),
                    (0, 1, 5),
                    (1, 1, 4),
                    (2, 1, 2),
                    (-1, 2, 2),
                    (0, 2, 3),
                    (1, 2, 2),
                ],
            ),
        };
        proof {
            assert(kernel_of(div, offsets@).offsets =~= named_kernel(k).offsets);
        }
        Ditherer { div, offsets, name: Some(k) }
    }

    /// Floyd–Steinberg dithering.
    pub fn floyd_steinberg() -> (d: Self)
        ensures
            d@ == named_kernel(NamedKernel::FloydSteinberg),
            d.spec_name() == Some(NamedKernel::FloydSteinberg),
    {
        Self::named(NamedKernel::FloydSteinberg)
    }

    /// Atkinson dithering.
    pub fn atkinson() -> (d: Self)
        ensures
            d@ == named_kernel(NamedKernel::Atkinson),
            d.spec_name() == Some(NamedKernel::Atkinson),
    {
        Self::named(NamedKernel::Atkinson)
    }

    /// Stucki dithering.
    pub fn stucki() -> (d: Self)
        ensures
            d@ == named_kernel(NamedKernel::Stucki),
            d.spec_name() == Some(NamedKernel::Stucki),
    {
        Self::named(NamedKernel::Stucki)
    }

    /// Burkes dithering.
    pub fn burkes() -> (d: Self)
        ensures
            d@ == named_kernel(NamedKernel::Burkes),
            d.spec_name() == Some(NamedKernel::Burkes),
    {
        Self::named(NamedKernel::Burkes)
    }

    /// Jarvis–Judice–Ninke dithering.
    pub fn jarvis_judice_ninke() -> (d: Self)
        ensures
            d@ == named_kernel(NamedKernel::JarvisJudiceNinke),
            d.spec_name() == Some(NamedKernel::JarvisJudiceNinke),
    {
        Self::named(NamedKernel::JarvisJudiceNinke)
    }

    /// Sierra dithering in three rows.
    pub fn sierra_3() -> (d: Self)
        ensures
            d@ == named_kernel(NamedKernel::Sierra3),
            d.spec_name() == Some(NamedKernel::Sierra3),
    {
        Self::named(NamedKernel::Sierra3)
    }

    /// The divisor.
    pub fn div(&self) -> (div: i64)
        ensures
            div == self@.div,
            div > 0,
    {
        proof {
            use_type_invariant(self);
        }
        self.div
    }

    /// The name of the kernel, or `custom ditherer` where it has none.
    pub fn label(&self) -> (s: String)
        ensures
            s@ == self.spec_label(),
    {
        let word: &str = match self.name {
            Some(NamedKernel::FloydSteinberg) => "floyd",
            Some(NamedKernel::Atkinson) => "atkinson",
            Some(NamedKernel::Stucki) => "stucki",
            Some(NamedKernel::Burkes) => "burkes",
            Some(NamedKernel::JarvisJudiceNinke) => "jarvis",
            Some(NamedKernel::Sierra3) => "sierra3",
            None => "custom ditherer",
        };
        owned(word)
    }

    /// Whether two ditherers have the same divisor and the same offsets; the
    /// names play no part.
    pub fn same_kernel(&self, other: &Self) -> (same: bool)
        ensures
            same == (self@ == other@),
    {
        if self.div != other.div || self.offsets.len() != other.offsets.len() {
            proof {
                if self.offsets.len() != other.offsets.len() {
                    assert(self@.offsets.len() != other@.offsets.len());
                }
            }
            return false;
        }
        let mut i: usize = 0;
        while i < self.offsets.len()
            invariant
                i <= self.offsets.len(),
                self.offsets.len() == other.offsets.len(),
                forall|j: int| 0 <= j < i ==> self.offsets@[j] == other.offsets@[j],
            decreases self.offsets.len() - i,
        {
            let a = self.offsets[i];
            let b = other.offsets[i];
            if a.0 != b.0 || a.1 != b.1 || a.2 != b.2 {
                proof {
                    assert(self@.offsets[i as int] != other@.offsets[i as int]);
                }
                return false;
            }
            i = i + 1;
        }
        proof {
            assert(self.offsets@ =~= other.offsets@);
            assert(self@.offsets =~= other@.offsets);
        }
        true
    }
}

/// The named kernel that `s` names in any mix of cases.
pub fn parse_kernel_name(s: &str) -> (k: Option<NamedKernel>)
    ensures
        k == kernel_of_word(lowered(s@)),
{
    let v = chars_of(s);
    let mut w: Vec<char> = Vec::new();
    let mut i: usize = 0;
    while i < v.len()
        invariant
            i <= v.len(),
            w@.len() == i,
            forall|j: int| 0 <= j < i ==> w@[j] == ascii_lower(v@[j]),
        decreases v.len() - i,
    {
        w.push(to_ascii_lower(v[i]));
        i = i + 1;
    }
    let n = w.len();
    proof {
        assert(w@ =~= lowered(s@));
        assert(w@.subrange(0, n as int) =~= w@);
    }
    if slice_is(&w, 0, n, "floyd") || slice_is(&w, 0, n, "steinberg") || slice_is(
        &w,
        0,
        n,
        "floydsteinberg",
    ) || slice_is(&w, 0, n, "floyd steinberg") {
        Some(NamedKernel::FloydSteinberg)
    } else if slice_is(&w, 0, n, "atkinson") {
        Some(NamedKernel::Atkinson)
    } else if slice_is(&w, 0, n, "stucki") {
        Some(NamedKernel::Stucki)
    } else if slice_is(&w, 0, n, "burkes") {
        Some(NamedKernel::Burkes)
    } else if slice_is(&w, 0, n, "jarvis") || slice_is(&w, 0, n, "judice") || slice_is(
        &w,
        0,
        n,
        "ninke",
    ) {
        Some(NamedKernel::JarvisJudiceNinke)
    } else if slice_is(&w, 0, n, "sierra") || slice_is(&w, 0, n, "sierra3") {
        Some(NamedKernel::Sierra3)
    } else {
        None
    }
}

/// The ditherer that `s` names in any mix of cases, or the name handed back
/// where it names none.
pub fn parse_ditherer(s: &str) -> (r: Result<Ditherer, ErrorUnknownDitherer>)
    ensures
        match r {
            Ok(d) => kernel_of_word(lowered(s@)) == d.spec_name() && d.spec_name() is Some && d@
                == named_kernel(d.spec_name().unwrap()),
            Err(e) => kernel_of_word(lowered(s@)) is None && e.0@ == s@,
        },
{
    match parse_kernel_name(s) {
        Some(k) => Ok(Ditherer::named(k)),
        None => {
            Err(ErrorUnknownDitherer(owned(s)))
        },
    }
}

impl FromStr for Ditherer {
    type Err = ErrorUnknownDitherer;

    /// Reads the name of a ditherer as [`parse_ditherer`] does.
    fn from_str(s: &str) -> (r: Result<Self, ErrorUnknownDitherer>)
        ensures
            match r {
                Ok(d) => kernel_of_word(lowered(s@)) == d.spec_name() && d.spec_name() is Some
                    && d@ == named_kernel(d.spec_name().unwrap()),
                Err(e) => kernel_of_word(lowered(s@)) is None && e.0@ == s@,
            },
    {
        parse_ditherer(s)
    }
}

impl Clone for Ditherer {
    fn clone(&self) -> (copy: Self)
        ensures
            copy@ == self@,
            copy.spec_name() == self.spec_name(),
    {
        proof {
            use_type_invariant(self);
        }
        let mut offsets: Vec<(isize, isize, i64)> = Vec::new();
        let mut i: usize = 0;
        while i < self.offsets.len()
            invariant
                i <= self.offsets.len(),
                offsets@ == self.offsets@.take(i as int),
            decreases self.offsets.len() - i,
        {
            offsets.push(self.offsets[i]);
            i = i + 1;
            assert(offsets@ =~= self.offsets@.take(i as int));
        }
        assert(self.offsets@.take(self.offsets.len() as int) =~= self.offsets@);
        Ditherer { div: self.div, offsets, name: self.name }
    }
}

impl PartialEq for Ditherer {
    /// Two ditherers are equal where their kernels are; the names play no part.
    fn eq(&self, other: &Self) -> (same: bool) {
        self.same_kernel(other)
    }
}

impl Eq for Ditherer {

}

impl vstd::std_specs::cmp::PartialEqSpecImpl for Ditherer {
    open spec fn obeys_eq_spec() -> bool {
        true
    }

    open spec fn eq_spec(&self, other: &Self) -> bool {
        self@ == other@
    }
}

impl Default for Ditherer {
    fn default() -> (d: Self)
        ensures
            d@ == named_kernel(NamedKernel::FloydSteinberg),
    {
        Ditherer::floyd_steinberg()
    }
}

impl ErrorUnknownDitherer {
    /// The message of the error: `unknown ditherer: ` and the name.
    pub fn message(&self) -> (s: String)
        ensures
            s@ == "unknown ditherer: "@ + self.0@,
    {
        joined("unknown ditherer: ", self.0.as_str())
    }
}

/// A run of `n` zero pixels.
pub open spec fn zeros<P: Pixel>(n: nat) -> Seq<P> {
    Seq::new(n, |i: int| P::zero_spec())
}

/// The place in the buffer that the offset `(dx, dy)` points at from place `i`.
pub open spec fn target(i: int, width: int, dx: int, dy: int) -> int {
    i + dy * width + dx
}

/// The offset `(dx, dy)` from place `i` stays inside an image of `n` pixels
/// in rows of `width`: the column that it points at lies within the row, and
/// the row within the image. Nothing is carried round an edge.
pub open spec fn within(i: int, width: int, n: int, dx: int, dy: int) -> bool {
    &&& width > 0
    &&& 0 <= i % width + dx < width
    &&& 0 <= i / width + dy < n / width
}

/// An offset that stays inside the image points at a place of the buffer.
pub proof fn lemma_within_is_inside(i: int, width: int, n: int, dx: int, dy: int)
    requires
        0 <= i < n,
        n % width == 0,
        within(i, width, n, dx, dy),
    ensures
        0 <= target(i, width, dx, dy) < n,
{
    let x = i % width;
    let y = i / width;
    let h = n / width;
    assert(i == width * y + x && n == width * h) by (nonlinear_arith)
        requires
            width > 0,
            x == i % width,
            y == i / width,
            h == n / width,
            n % width == 0,
    ;
    assert(0 <= width * (y + dy) + (x + dx) < width * h && width * (y + dy) + (x + dx)
        == width * y + x + dy * width + dx) by (nonlinear_arith)
        requires
            width > 0,
            0 <= x + dx < width,
            0 <= y + dy < h,
    ;
}

/// A downstream offset that stays inside the image points at a later place
/// of the buffer: a pass never passes a residual to a pixel that it has
/// already left.
pub proof fn lemma_downstream_is_later(i: int, width: int, n: int, dx: int, dy: int)
    requires
        0 <= i,
        downstream(dx, dy),
        within(i, width, n, dx, dy),
    ensures
        target(i, width, dx, dy) > i,
{
    let x = i % width;
    assert(0 <= x < width) by (nonlinear_arith)
        requires
            width > 0,
            x == i % width,
    ;
    if dy > 0 {
        assert(dy * width >= width) by (nonlinear_arith)
            requires
                dy >= 1,
                width > 0,
        ;
    }
}

/// The spill-over after the residual of the pixel at `i` went out along the
/// first `count` offsets of the kernel, in their order. An offset that
/// leaves the image, past the end of a row or past the last row, takes
/// nothing: its share is dropped.
pub open spec fn diffuse<P: Pixel>(
    spill: Seq<P>,
    k: Kernel,
    width: int,
    i: int,
    residual: P,
    count: nat,
) -> Seq<P>
    decreases count,
{
    if count == 0 {
        spill
    } else {
        let s = diffuse(spill, k, width, i, residual, (count - 1) as nat);
        let o = k.offsets[count - 1];
        let t = target(i, width, o.0, o.1);
        if within(i, width, s.len() as int, o.0, o.1) {
            s.update(t, s[t].add_spec(residual.scale_spec(o.2, k.div)))
        } else {
            s
        }
    }
}

/// The spill-over of an image of `n` pixels once its first pixels left the
/// residuals `residuals`, one after the other.
pub open spec fn spill_after<P: Pixel>(k: Kernel, width: int, n: nat, residuals: Seq<P>) -> Seq<P>
    decreases residuals.len(),
{
    if residuals.len() == 0 {
        zeros(n)
    } else {
        diffuse(
            spill_after(k, width, n, residuals.drop_last()),
            k,
            width,
            residuals.len() - 1,
            residuals.last(),
            k.offsets.len(),
        )
    }
}

/// `inputs`, `residuals` and `out` record one pass over `src`: each pixel
/// went to the quantizer with the spill-over of the pixels before it added,
/// and the quantizer answered with the pixel of `out` and the residual.
pub open spec fn is_pass<P: Pixel, F: Fn(P) -> (P, P)>(
    k: Kernel,
    width: int,
    quantize: F,
    src: Seq<P>,
    inputs: Seq<P>,
    residuals: Seq<P>,
    out: Seq<P>,
) -> bool {
    &&& inputs.len() == src.len()
    &&& residuals.len() == src.len()
    &&& out.len() == src.len()
    &&& forall|i: int|
        0 <= i < src.len() ==> {
            &&& #[trigger] inputs[i] == src[i].add_spec(
                spill_after(k, width, src.len(), residuals.take(i))[i],
            )
            &&& call_ensures(quantize, (inputs[i],), (out[i], residuals[i]))
        }
}

/// The residuals that the first `done` pixels of `src` leave under the
/// quantizer `q`.
pub open spec fn residuals_of<P: Pixel>(
    k: Kernel,
    width: int,
    src: Seq<P>,
    q: spec_fn(P) -> (P, P),
    done: nat,
) -> Seq<P>
    decreases done,
{
    if done == 0 {
        Seq::empty()
    } else {
        let before = residuals_of(k, width, src, q, (done - 1) as nat);
        let i = done - 1;
        before.push(q(src[i].add_spec(spill_after(k, width, src.len(), before)[i])).1)
    }
}

/// The image that one pass over `src` gives under the quantizer `q`.
pub open spec fn dithered<P: Pixel>(
    k: Kernel,
    width: int,
    src: Seq<P>,
    q: spec_fn(P) -> (P, P),
) -> Seq<P> {
    Seq::new(
        src.len(),
        |i: int|
            q(
                src[i].add_spec(
                    spill_after(k, width, src.len(), residuals_of(k, width, src, q, i as nat))[i],
                ),
            ).0,
    )
}

/// Whatever `quantize` may return is what `q` says.
pub open spec fn pinned<P, F: Fn(P) -> (P, P)>(quantize: F, q: spec_fn(P) -> (P, P)) -> bool {
    forall|p: P, r: (P, P)| call_ensures(quantize, (p,), r) ==> r == q(p)
}

/// A pass under a quantizer that can answer in one way only leaves the
/// residuals, and gives the image, that the quantizer's function determines.
pub proof fn lemma_pass_is_determined<P: Pixel, F: Fn(P) -> (P, P)>(
    k: Kernel,
    width: int,
    quantize: F,
    q: spec_fn(P) -> (P, P),
    src: Seq<P>,
    inputs: Seq<P>,
    residuals: Seq<P>,
    out: Seq<P>,
)
    requires
        is_pass(k, width, quantize, src, inputs, residuals, out),
        pinned(quantize, q),
    ensures
        out == dithered(k, width, src, q),
{
    lemma_residuals_prefix(k, width, quantize, q, src, inputs, residuals, out, src.len());
    assert forall|i: int| 0 <= i < src.len() implies out[i] == dithered(k, width, src, q)[i] by {
        lemma_residuals_prefix(k, width, quantize, q, src, inputs, residuals, out, i as nat);
        assert(call_ensures(quantize, (inputs[i],), (out[i], residuals[i])));
    }
    assert(out =~= dithered(k, width, src, q));
}

/// Under a quantizer that can answer in one way only, the first residuals of
/// a pass are those that the quantizer's function determines.
pub proof fn lemma_residuals_prefix<P: Pixel, F: Fn(P) -> (P, P)>(
    k: Kernel,
    width: int,
    quantize: F,
    q: spec_fn(P) -> (P, P),
    src: Seq<P>,
    inputs: Seq<P>,
    residuals: Seq<P>,
    out: Seq<P>,
    done: nat,
)
    requires
        is_pass(k, width, quantize, src, inputs, residuals, out),
        pinned(quantize, q),
        done <= src.len(),
    ensures
        residuals.take(done as int) == residuals_of(k, width, src, q, done),
    decreases done,
{
    if done == 0 {
        assert(residuals.take(0) =~= Seq::<P>::empty());
    } else {
        let i = done - 1;
        lemma_residuals_prefix(k, width, quantize, q, src, inputs, residuals, out, i as nat);
        assert(call_ensures(quantize, (inputs[i],), (out[i], residuals[i])));
        assert(residuals.take(done as int) =~= residuals.take(i).push(residuals[i]));
    }
}

/// A residual of zero changes no spill-over that is zero.
pub proof fn lemma_diffuse_zero<P: Pixel>(k: Kernel, width: int, n: nat, i: int, count: nat)
    requires
        k.div > 0,
        0 <= i < n,
        width > 0,
        n % (width as nat) == 0,
    ensures
        diffuse(zeros::<P>(n), k, width, i, P::zero_spec(), count) == zeros::<P>(n),
    decreases count,
{
    if count > 0 {
        lemma_diffuse_zero::<P>(k, width, n, i, (count - 1) as nat);
        let o = k.offsets[count - 1];
        P::lemma_zero_scaled(o.2, k.div);
        P::lemma_plus_zero(P::zero_spec());
        let s = zeros::<P>(n);
        let t = target(i, width, o.0, o.1);
        if within(i, width, n as int, o.0, o.1) {
            lemma_within_is_inside(i, width, n as int, o.0, o.1);
            assert(s.update(t, P::zero_spec()) =~= s);
        }
    }
}

/// Residuals that are all zero leave a spill-over that is all zero.
pub proof fn lemma_spill_of_zeros<P: Pixel>(k: Kernel, width: int, n: nat, done: nat)
    requires
        k.div > 0,
        done <= n,
        width > 0,
        n % (width as nat) == 0,
    ensures
        spill_after(k, width, n, zeros::<P>(done)) == zeros::<P>(n),
    decreases done,
{
    if done > 0 {
        let r = zeros::<P>(done);
        assert(r.drop_last() =~= zeros::<P>((done - 1) as nat));
        lemma_spill_of_zeros::<P>(k, width, n, (done - 1) as nat);
        lemma_diffuse_zero::<P>(k, width, n, done - 1, k.offsets.len());
    }
}

/// An image of one value that the quantizer keeps, leaving nothing, has no
/// residuals but zero.
pub proof fn lemma_residuals_of_fixed_point<P: Pixel>(
    k: Kernel,
    width: int,
    n: nat,
    p: P,
    q: spec_fn(P) -> (P, P),
    done: nat,
)
    requires
        k.div > 0,
        width > 0,
        n % (width as nat) == 0,
        q(p) == (p, P::zero_spec()),
        done <= n,
    ensures
        residuals_of(k, width, Seq::new(n, |i: int| p), q, done) == zeros::<P>(done),
    decreases done,
{
    let src = Seq::new(n, |i: int| p);
    if done == 0 {
        assert(residuals_of(k, width, src, q, done) =~= zeros::<P>(done));
    } else {
        lemma_residuals_of_fixed_point(k, width, n, p, q, (done - 1) as nat);
        lemma_spill_of_zeros::<P>(k, width, n, (done - 1) as nat);
        P::lemma_plus_zero(p);
        assert(zeros::<P>((done - 1) as nat).push(P::zero_spec()) =~= zeros::<P>(done));
    }
}

/// Dithering leaves an image, of `n` pixels in rows of `width`, as it is
/// where all its pixels have one value and the quantizer keeps that value
/// and leaves nothing of it: no residual is ever passed on.
pub proof fn lemma_dither_fixed_point<P: Pixel>(
    k: Kernel,
    width: int,
    n: nat,
    p: P,
    q: spec_fn(P) -> (P, P),
)
    requires
        k.div > 0,
        width > 0,
        n % (width as nat) == 0,
        q(p) == (p, P::zero_spec()),
    ensures
        dithered(k, width, Seq::new(n, |i: int| p), q) == Seq::new(n, |i: int| p),
{
    let src = Seq::new(n, |i: int| p);
    assert forall|i: int| 0 <= i < n implies dithered(k, width, src, q)[i] == p by {
        lemma_residuals_of_fixed_point(k, width, n, p, q, i as nat);
        lemma_spill_of_zeros::<P>(k, width, n, i as nat);
        P::lemma_plus_zero(p);
    }
    assert(dithered(k, width, src, q) =~= src);
}

/// Dithering of images whose pixels are of type `P`.
pub trait Dither<P: Pixel> {
    /// The kernel that the pass applies.
    spec fn kernel(&self) -> Kernel;

    /// One forward pass over `img`. Each pixel in turn takes the spill-over
    /// that has gathered at its place, goes to `quantize`, and is replaced by
    /// the quotient; the residual goes out to the pixels after it as the
    /// kernel says. What would leave the image at an edge is dropped.
    fn dither<F: Fn(P) -> (P, P)>(&self, img: Img<P>, quantize: F) -> (out: Img<P>)
        requires
            forall|p: P| call_requires(quantize, (p,)),
        ensures
            out.spec_width() == img.spec_width(),
            exists|inputs: Seq<P>, residuals: Seq<P>|
                #[trigger] is_pass(
                    self.kernel(),
                    img.spec_width() as int,
                    quantize,
                    img@,
                    inputs,
                    residuals,
                    out@,
                ),
            forall|q: spec_fn(P) -> (P, P)|
                pinned(quantize, q) ==> out@ == #[trigger] dithered(
                    self.kernel(),
                    img.spec_width() as int,
                    img@,
                    q,
                ),
    ;
}

impl<P: Pixel> Dither<P> for Ditherer {
    open spec fn kernel(&self) -> Kernel {
        self@
    }

    fn dither<F: Fn(P) -> (P, P)>(&self, img: Img<P>, quantize: F) -> (out: Img<P>) {
        proof {
            use_type_invariant(self);
        }
        let width: u32 = img.width();
        let n: usize = img.len();
        let ghost src = img@;
        let ghost k = self@;
        let ghost w = width as int;
        let mut buf: Vec<P> = img.into_vec();
        let mut spill: Vec<P> = Vec::new();
        let mut z: usize = 0;
        while z < n
            invariant
                z <= n,
                spill@.len() == z,
                forall|j: int| 0 <= j < z ==> spill@[j] == P::zero_spec(),
            decreases n - z,
        {
            spill.push(P::zero());
            z = z + 1;
        }
        let ghost mut inputs: Seq<P> = Seq::empty();
        let ghost mut residuals: Seq<P> = Seq::empty();
        proof {
            assert(spill@ =~= zeros::<P>(n as nat));
        }
        let mut i: usize = 0;
        while i < n
            invariant
                i <= n,
                n == src.len(),
                buf@.len() == n,
                spill@.len() == n,
                inputs.len() == i,
                residuals.len() == i,
                k == self@,
                k.div > 0,
                w == width as int,
                k.offsets.len() == self.offsets@.len(),
                w > 0,
                n as int % w == 0,
                spill@ == spill_after(k, w, n as nat, residuals),
                forall|p: P| call_requires(quantize, (p,)),
                forall|j: int| i <= j < n ==> buf@[j] == src[j],
                forall|j: int|
                    0 <= j < i ==> {
                        &&& #[trigger] inputs[j] == src[j].add_spec(
                            spill_after(k, w, n as nat, residuals.take(j))[j],
                        )
                        &&& call_ensures(quantize, (inputs[j],), (buf@[j], residuals[j]))
                    },
            decreases n - i,
        {
            let input = buf[i].plus(spill[i]);
            let (quantized, residual) = quantize(input);
            buf[i] = quantized;
            let ghost before = residuals;
            let ghost spill_before = spill@;
            proof {
                inputs = inputs.push(input);
                residuals = residuals.push(residual);
                assert(residuals.take(i as int) =~= before);
                assert forall|j: int| 0 <= j < i + 1 implies {
                    &&& #[trigger] inputs[j] == src[j].add_spec(
                        spill_after(k, w, n as nat, residuals.take(j))[j],
                    )
                    &&& call_ensures(quantize, (inputs[j],), (buf@[j], residuals[j]))
                } by {
                    if j < i {
                        assert(residuals.take(j) =~= before.take(j));
                    }
                }
            }
            let mut o: usize = 0;
            while o < self.offsets.len()
                invariant
                    o <= self.offsets.len(),
                    i < n,
                    spill@.len() == n,
                    k == self@,
                    k.div > 0,
                    self.div == k.div,
                    w == width as int,
                    w > 0,
                    n as int % w == 0,
                    k.offsets.len() == self.offsets@.len(),
                    spill@ == diffuse(spill_before, k, w, i as int, residual, o as nat),
                decreases self.offsets.len() - o,
            {
                let (dx, dy, weight) = self.offsets[o];
                assert(k.offsets[o as int] == (dx as int, dy as int, weight as int));
                assert(-0x8000_0000_0000_0000 * 0x1_0000_0000 <= dy as int * w
                    <= 0x8000_0000_0000_0000 * 0x1_0000_0000) by (nonlinear_arith)
                    requires
                        -0x8000_0000_0000_0000 <= dy as int <= 0x8000_0000_0000_0000,
                        0 <= w <= 0x1_0000_0000,
                ;
                let t: i128 = i as i128 + (dy as i128) * (width as i128) + dx as i128;
                assert(t == target(i as int, w, dx as int, dy as int));
                let column: i128 = (i as i128) % (width as i128) + dx as i128;
                let row: i128 = (i as i128) / (width as i128) + dy as i128;
                let rows: i128 = (n as i128) / (width as i128);
                if 0 <= column && column < width as i128 && 0 <= row && row < rows {
                    proof {
                        assert(within(i as int, w, n as int, dx as int, dy as int));
                        lemma_within_is_inside(i as int, w, n as int, dx as int, dy as int);
                    }
                    let j: usize = t as usize;
                    let share = residual.scaled(weight, self.div);
                    let sum = spill[j].plus(share);
                    spill[j] = sum;
                }
                o = o + 1;
            }
            proof {
                assert(residuals.drop_last() =~= before);
                assert(residuals.last() == residual);
            }
            i = i + 1;
        }
        proof {
            assert(is_pass(k, w, quantize, src, inputs, residuals, buf@));
            assert forall|q: spec_fn(P) -> (P, P)| pinned(quantize, q) implies buf@
                == #[trigger] dithered(k, w, src, q) by {
                lemma_pass_is_determined(k, w, quantize, q, src, inputs, residuals, buf@);
            }
        }
        let out = Img::from_raw_buf(buf, width);
        proof {
            assert(k == <Ditherer as Dither<P>>::kernel(self));
            assert(is_pass(k, w, quantize, src, inputs, residuals, out@));
        }
        out
    }
}

} // verus!
