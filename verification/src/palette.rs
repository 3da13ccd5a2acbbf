//! Palettes of 8-bit colours: reading one from text, and quantizing a pixel
//! to its nearest colour.

use crate::color::Error;
use crate::nearest::{first_min, lemma_first_min, lemma_first_min_step};
use crate::pixel::{colour_sample_of, colour_sample_spec, held, hold, sample_of, sample_spec};
use crate::rgb::{is_rgb_text, parse_rgb_chars, rgb_of_text, RGB};
use crate::text::{chars_of, find_next, next_at, trim_range, trimmed};
use vstd::prelude::*;

pub mod cga;
pub mod crayon;

verus! {

/// A palette is a run of 8-bit colours.
pub type Palette = [RGB<u8>];

/// A trimmed line that holds a colour: it is not empty and does not start
/// with `//`.
pub open spec fn is_entry(line: Seq<char>) -> bool {
    line.len() > 0 && !(line.len() >= 2 && line[0] == '/' && line[1] == '/')
}

/// The first `c` at or after `from` is at or after `from`, and at most at the end.
pub proof fn lemma_next_at_bounds(s: Seq<char>, c: char, from: int)
    requires
        0 <= from <= s.len(),
    ensures
        from <= next_at(s, c, from) <= s.len(),
    decreases s.len() - from,
{
    if from < s.len() && s[from] != c {
        lemma_next_at_bounds(s, c, from + 1);
    }
}

/// The trimmed lines of `s` from `from` on that hold a colour. Lines end at
/// a line feed or at the end of the text.
pub open spec fn entries_from(s: Seq<char>, from: int) -> Seq<Seq<char>>
    decreases s.len() - from + 1,
{
    if from < 0 || from >= s.len() {
        Seq::empty()
    } else {
        let end = next_at(s, '\n', from);
        let line = trimmed(s.subrange(from, end));
        let rest = {
            proof {
                lemma_next_at_bounds(s, '\n', from);
            }
            entries_from(s, end + 1)
        };
        if is_entry(line) {
            seq![line] + rest
        } else {
            rest
        }
    }
}

/// What reading `s` as a palette gives: too small with two colour lines or
/// fewer; else the colours of the lines, if every one of them spells a colour.
pub open spec fn parsed(s: Seq<char>) -> Result<Seq<RGB<u8>>, Error> {
    let e = entries_from(s, 0);
    if e.len() <= 2 {
        Err(Error::PaletteTooSmall)
    } else if forall|i: int| 0 <= i < e.len() ==> is_rgb_text(#[trigger] e[i]) {
        Ok(Seq::new(e.len(), |i: int| rgb_of_text(e[i])))
    } else {
        Err(Error::RGBParse)
    }
}

/// The pieces of `v` that the bounds cut out.
pub open spec fn pieces(v: Seq<char>, bounds: Seq<(usize, usize)>) -> Seq<Seq<char>> {
    Seq::new(bounds.len(), |k: int| v.subrange(bounds[k].0 as int, bounds[k].1 as int))
}

/// Reads a palette: one colour a line, as six hexadecimal digits with or
/// without `0x` in front. White space around a line, empty lines and lines
/// that start with `//` do not count. A palette of two colours or fewer is
/// refused, and so is a line that spells no colour.
pub fn parse(s: &str) -> (r: Result<Vec<RGB<u8>>, Error>)
    ensures
        match r {
            Ok(colours) => parsed(s@) == Ok::<Seq<RGB<u8>>, Error>(colours@),
            Err(e) => parsed(s@) == Err::<Seq<RGB<u8>>, Error>(e),
        },
{
    let v = chars_of(s);
    let mut bounds: Vec<(usize, usize)> = Vec::new();
    let mut from: usize = 0;
    let mut done: bool = false;
    while !done
        invariant
            v@ == s@,
            from <= v.len(),
            done ==> entries_from(v@, from as int).len() == 0,
            forall|k: int|
                0 <= k < bounds.len() ==> (#[trigger] bounds@[k]).0 <= bounds@[k].1 <= v.len(),
            entries_from(v@, 0) == pieces(v@, bounds@) + entries_from(v@, from as int),
        decreases v.len() - from + if done { 0int } else { 1int },
    {
        if from >= v.len() {
            done = true;
        } else {
            let end = find_next(&v, '\n', from);
            let (a, b) = trim_range(&v, from, end);
            let ghost before = pieces(v@, bounds@);
            let ghost line = v@.subrange(a as int, b as int);
            if b > a && !(b - a >= 2 && v[a] == '/' && v[a + 1] == '/') {
                bounds.push((a, b));
                proof {
                    assert(line[0] == v@[a as int]);
                    if b - a >= 2 {
                        assert(line[1] == v@[a + 1]);
                    }
                    assert(is_entry(line));
                    assert(pieces(v@, bounds@) =~= before + seq![line]);
                    assert((before + seq![line]) + entries_from(v@, end + 1) =~= before + (seq![
                        line,
                    ] + entries_from(v@, end + 1)));
                }
            } else {
                proof {
                    if b > a {
                        assert(line[0] == v@[a as int]);
                        assert(line[1] == v@[a + 1]);
                    }
                    assert(!is_entry(line));
                }
            }
            if end == v.len() {
                proof {
                    assert(entries_from(v@, end + 1) =~= Seq::<Seq<char>>::empty());
                }
                from = end;
                done = true;
                proof {
                    assert(entries_from(v@, from as int) =~= Seq::<Seq<char>>::empty());
                    assert(entries_from(v@, 0) =~= pieces(v@, bounds@) + entries_from(
                        v@,
                        from as int,
                    ));
                }
            } else {
                from = end + 1;
            }
        }
    }
    let ghost entries = entries_from(v@, 0);
    proof {
        assert(entries =~= pieces(v@, bounds@));
    }
    if bounds.len() <= 2 {
        return Err(Error::PaletteTooSmall);
    }
    let mut out: Vec<RGB<u8>> = Vec::new();
    let mut i: usize = 0;
    while i < bounds.len()
        invariant
            i <= bounds.len(),
            out@.len() == i,
            entries == pieces(v@, bounds@),
            entries == entries_from(s@, 0),
            entries.len() > 2,
            forall|k: int|
                0 <= k < bounds.len() ==> (#[trigger] bounds@[k]).0 <= bounds@[k].1 <= v.len(),
            forall|k: int| 0 <= k < i ==> is_rgb_text(#[trigger] entries[k]),
            forall|k: int| 0 <= k < i ==> out@[k] == rgb_of_text(entries[k]),
        decreases bounds.len() - i,
    {
        let (a, b) = bounds[i];
        assert(bounds@[i as int].0 <= bounds@[i as int].1 <= v.len());
        assert(entries[i as int] == v@.subrange(a as int, b as int));
        match parse_rgb_chars(&v, a, b) {
            Ok(c) => {
                out.push(c);
            },
            Err(_) => {
                proof {
                    assert(!is_rgb_text(entries[i as int]));
                }
                return Err(Error::RGBParse);
            },
        }
        i = i + 1;
    }
    proof {
        assert(out@ =~= Seq::new(entries.len(), |i: int| rgb_of_text(entries[i])));
    }
    Ok(out)
}

/// The distance between two numbers.
pub open spec fn gap(a: int, b: int) -> int {
    if a >= b {
        a - b
    } else {
        b - a
    }
}

/// The distance of a pixel from a colour: the gaps of the three channels, added up.
pub open spec fn manhattan(p: RGB<i64>, c: RGB<u8>) -> int {
    gap(p.0 as int, sample_spec(c.0) as int) + gap(p.1 as int, sample_spec(c.1) as int) + gap(
        p.2 as int,
        sample_spec(c.2) as int,
    )
}

/// The distances of a pixel from the colours of a palette, in their order.
pub open spec fn distances(palette: Seq<RGB<u8>>, p: RGB<i64>) -> Seq<int> {
    Seq::new(palette.len(), |i: int| manhattan(p, palette[i]))
}

/// What is left of a pixel once a colour is taken from it, channel by channel.
pub open spec fn residual_of(p: RGB<i64>, c: RGB<u8>) -> RGB<i64> {
    RGB(
        held(p.0 - sample_spec(c.0)),
        held(p.1 - sample_spec(c.1)),
        held(p.2 - sample_spec(c.2)),
    )
}

/// The colour of the palette nearest to a pixel, the first of them where
/// several are nearest, and what is left of the pixel.
pub open spec fn nearest_in(palette: Seq<RGB<u8>>, p: RGB<i64>) -> (RGB<i64>, RGB<i64>) {
    let c = palette[first_min(distances(palette, p))];
    (colour_sample_spec(c), residual_of(p, c))
}

/// A quantizer to the colours of a palette, which is never empty.
#[derive(Debug)]
pub struct PaletteQuantizer {
    palette: Vec<RGB<u8>>,
}

impl View for PaletteQuantizer {
    type V = Seq<RGB<u8>>;

    /// The colours, in their order.
    closed spec fn view(&self) -> Seq<RGB<u8>> {
        self.palette@
    }
}

impl PaletteQuantizer {
    #[verifier::type_invariant]
    spec fn well_formed(&self) -> bool {
        self.palette@.len() > 0
    }

    /// The number of colours.
    pub fn len(&self) -> (n: usize)
        ensures
            n == self@.len(),
            n > 0,
    {
        proof {
            use_type_invariant(self);
        }
        self.palette.len()
    }

    /// The nearest colour of the palette, as a pixel, and what is left of `p`
    /// once that colour is taken from it.
    pub fn nearest(&self, p: RGB<i64>) -> (r: (RGB<i64>, RGB<i64>))
        ensures
            r == nearest_in(self@, p),
    {
        proof {
            use_type_invariant(self);
        }
        let ghost keys = distances(self.palette@, p);
        let mut best: usize = 0;
        let mut least: i128 = distance(p, self.palette[0]);
        let mut i: usize = 1;
        proof {
            assert(keys.take(1).len() == 1);
        }
        while i < self.palette.len()
            invariant
                1 <= i <= self.palette.len(),
                keys == distances(self.palette@, p),
                best < i,
                best == first_min(keys.take(i as int)),
                least == keys[best as int],
            decreases self.palette.len() - i,
        {
            proof {
                lemma_first_min_step(keys, i as int);
            }
            let d = distance(p, self.palette[i]);
            if d < least {
                best = i;
                least = d;
            }
            i = i + 1;
        }
        proof {
            assert(keys.take(self.palette.len() as int) =~= keys);
        }
        let c = self.palette[best];
        (
            colour_sample_of(c),
            RGB(
                hold(p.0 as i128 - sample_of(c.0) as i128),
                hold(p.1 as i128 - sample_of(c.1) as i128),
                hold(p.2 as i128 - sample_of(c.2) as i128),
            ),
        )
    }
}

/// The distance of a pixel from a colour.
pub fn distance(p: RGB<i64>, c: RGB<u8>) -> (d: i128)
    ensures
        d == manhattan(p, c),
{
    channel_gap(p.0, c.0) + channel_gap(p.1, c.1) + channel_gap(p.2, c.2)
}

/// The distance of a sample from an 8-bit value.
pub fn channel_gap(s: i64, v: u8) -> (d: i128)
    ensures
        d == gap(s as int, sample_spec(v) as int),
        0 <= d <= 0x1_0000_0000_0000_0000,
{
    let t: i128 = sample_of(v) as i128;
    let s: i128 = s as i128;
    if s >= t {
        s - t
    } else {
        t - s
    }
}

/// The quantizer to the colours of `palette`; a palette without colours is
/// refused.
pub fn quantize(palette: Vec<RGB<u8>>) -> (r: Result<PaletteQuantizer, Error>)
    ensures
        match r {
            Ok(q) => palette@.len() > 0 && q@ == palette@,
            Err(e) => palette@.len() == 0 && e == Error::PaletteTooSmall,
        },
{
    if palette.len() == 0 {
        Err(Error::PaletteTooSmall)
    } else {
        Ok(PaletteQuantizer { palette })
    }
}

/// The nearest colour is a colour of the palette, no colour of the palette
/// is nearer to the pixel, and none that is as near stands before it.
pub proof fn lemma_nearest_is_least(palette: Seq<RGB<u8>>, p: RGB<i64>)
    requires
        palette.len() > 0,
    ensures
        ({
            let at = first_min(distances(palette, p));
            &&& 0 <= at < palette.len()
            &&& nearest_in(palette, p).0 == colour_sample_spec(palette[at])
            &&& forall|j: int|
                0 <= j < palette.len() ==> manhattan(p, palette[at]) <= manhattan(
                    p,
                    #[trigger] palette[j],
                )
            &&& forall|j: int|
                0 <= j < at ==> manhattan(p, palette[at]) < manhattan(p, #[trigger] palette[j])
        }),
{
    let keys = distances(palette, p);
    lemma_first_min(keys);
    let at = first_min(keys);
    assert forall|j: int| 0 <= j < palette.len() implies manhattan(p, palette[at]) <= manhattan(
        p,
        #[trigger] palette[j],
    ) by {
        assert(keys[at] <= keys[j]);
    }
    assert forall|j: int| 0 <= j < at implies manhattan(p, palette[at]) < manhattan(
        p,
        #[trigger] palette[j],
    ) by {
        assert(keys[at] < keys[j]);
    }
}

/// A pixel that is a colour of the palette is its own nearest colour, and
/// nothing is left of it.
pub proof fn lemma_own_colour(palette: Seq<RGB<u8>>, c: RGB<u8>)
    requires
        palette.contains(c),
    ensures
        nearest_in(palette, colour_sample_spec(c)) == (
            colour_sample_spec(c),
            RGB(0i64, 0i64, 0i64),
        ),
{
    let p = colour_sample_spec(c);
    let keys = distances(palette, p);
    let at = choose|i: int| 0 <= i < palette.len() && palette[i] == c;
    lemma_first_min(keys);
    let m = first_min(keys);
    assert(keys[at] == 0);
    assert(keys[m] <= keys[at]);
    assert(keys[m] == manhattan(p, palette[m]));
    assert(palette[m] == c);
}

} // verus!
