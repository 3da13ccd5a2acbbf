//! The conversion of raster images: every pixel to the nearest colour of a
//! palette, or the whole image by error diffusion.

use crate::convert::{kernel_of_method, metric_of, ConversionError, ConversionMethod, DEMethod};
use crate::ditherer::{dithered, named_kernel, Dither, Kernel};
use crate::img::Img;
use crate::nearest::{first_min, keys_of, lemma_first_min};
use crate::palette::{nearest_in, quantize};
use crate::pixel::{clamp_to_colour, colour_sample_of, colour_sample_spec, nearest_colour};
use crate::rgb::{unpacked, RGB};
use vstd::prelude::*;

verus! {

/// The four bytes of a colour `0xRRGGBB` with an alpha: red, green, blue, alpha.
pub open spec fn rgba_of(colour: u32, alpha: u8) -> Seq<u8> {
    seq![unpacked(colour).0, unpacked(colour).1, unpacked(colour).2, alpha]
}

/// The distances of a run of candidates, each a distance and a colour.
pub open spec fn candidate_keys(candidates: Seq<(u32, u32)>) -> Seq<int> {
    Seq::new(candidates.len(), |i: int| candidates[i].0 as int)
}

/// The colour of the candidate with the smallest distance, the first of them
/// where several are smallest, with the alpha `alpha`. Each candidate is a
/// distance and a colour `0xRRGGBB`. Without candidates there is no colour.
pub fn pick_colour(candidates: &[(u32, u32)], alpha: u8) -> (r: Result<[u8; 4], ConversionError>)
    ensures
        candidates@.len() == 0 ==> r == Err::<[u8; 4], ConversionError>(
            ConversionError::EmptyPalette,
        ),
        candidates@.len() > 0 ==> r is Ok && r.unwrap()@ == rgba_of(
            candidates@[first_min(candidate_keys(candidates@))].1,
            alpha,
        ),
{
    if candidates.len() == 0 {
        return Err(ConversionError::EmptyPalette);
    }
    let ghost keys = candidate_keys(candidates@);
    let mut best: usize = 0;
    let mut i: usize = 1;
    proof {
        assert(keys.take(1).len() == 1);
    }
    while i < candidates.len()
        invariant
            1 <= i <= candidates.len(),
            keys == candidate_keys(candidates@),
            best < i,
            best == first_min(keys.take(i as int)),
        decreases candidates.len() - i,
    {
        proof {
            crate::nearest::lemma_first_min_step(keys, i as int);
        }
        if candidates[i].0 < candidates[best].0 {
            best = i;
        }
        i = i + 1;
    }
    proof {
        assert(keys.take(candidates.len() as int) =~= keys);
    }
    let RGB(r, g, b) = RGB::from_hex(candidates[best].1);
    let px: [u8; 4] = [r, g, b, alpha];
    assert(px@ =~= rgba_of(candidates@[best as int].1, alpha));
    Ok(px)
}

/// The colours of a palette as candidates: each with the distance that
/// `key` gives for its place.
fn candidates_of<G: Fn(usize) -> u32>(palette: &[u32], key: G) -> (candidates: Vec<(u32, u32)>)
    requires
        forall|j: usize| j < palette@.len() ==> call_requires(key, (j,)),
    ensures
        candidates@.len() == palette@.len(),
        forall|k: int|
            0 <= k < palette@.len() ==> (#[trigger] candidates@[k]).1 == palette@[k]
                && call_ensures(key, (k as usize,), candidates@[k].0),
{
    let mut candidates: Vec<(u32, u32)> = Vec::new();
    let mut j: usize = 0;
    while j < palette.len()
        invariant
            j <= palette.len(),
            candidates@.len() == j,
            forall|j: usize| j < palette@.len() ==> call_requires(key, (j,)),
            forall|k: int|
                0 <= k < j ==> (#[trigger] candidates@[k]).1 == palette@[k] && call_ensures(
                    key,
                    (k as usize,),
                    candidates@[k].0,
                ),
        decreases palette.len() - j,
    {
        let d = key(j);
        candidates.push((d, palette[j]));
        j = j + 1;
    }
    candidates
}

/// The distances of a run of candidates.
pub open spec fn distances_of(candidates: Seq<(u32, u32)>) -> Seq<u32> {
    Seq::new(candidates.len(), |k: int| candidates[k].0)
}

/// `keys` are distances that `distance` may give under `metric` for the
/// colours of a palette of `n` colours, one for each.
pub open spec fn keys_from<F: Fn(DEMethod, usize) -> u32>(
    n: nat,
    metric: DEMethod,
    distance: F,
    keys: Seq<u32>,
) -> bool {
    &&& keys.len() == n
    &&& forall|j: int|
        0 <= j < n ==> call_ensures(distance, (metric, j as usize), #[trigger] keys[j])
}

/// `px` is the colour of the palette that is nearest by distances that
/// `distance` may give, the first among equals, with the alpha `alpha`.
pub open spec fn is_match<F: Fn(DEMethod, usize) -> u32>(
    palette: Seq<u32>,
    metric: DEMethod,
    distance: F,
    alpha: u8,
    px: Seq<u8>,
) -> bool {
    exists|keys: Seq<u32>| #[trigger]
        keys_from(palette.len(), metric, distance, keys) && px == rgba_of(
            palette[first_min(keys_of(keys))],
            alpha,
        )
}

/// The place in a palette of `n` colours of the colour that is nearest under
/// the distances `d`, the first among equals.
pub open spec fn nearest_of(n: nat, metric: DEMethod, d: spec_fn(DEMethod, usize) -> u32) -> int {
    first_min(Seq::new(n, |j: int| d(metric, j as usize) as int))
}

/// Matches one pixel against a palette. `palette` holds the enabled colours
/// as `0xRRGGBB`; `distance` gives, for a metric and the place of a colour in
/// the palette, the distance of the pixel from that colour; `alpha` is the
/// alpha of the pixel. The result is the nearest colour, the first among
/// equally near ones, with the pixel's own alpha.
///
/// A method that is no distance is refused, then a palette without colours.
pub fn convert_color<F: Fn(DEMethod, usize) -> u32>(
    convert_method: ConversionMethod,
    palette: &[u32],
    alpha: u8,
    distance: F,
) -> (r: Result<[u8; 4], ConversionError>)
    requires
        forall|m: DEMethod, j: usize| j < palette@.len() ==> call_requires(distance, (m, j)),
    ensures
        metric_of(convert_method) is None ==> r == Err::<[u8; 4], ConversionError>(
            ConversionError::InvalidConversionMethod,
        ),
        metric_of(convert_method) is Some && palette@.len() == 0 ==> r == Err::<
            [u8; 4],
            ConversionError,
        >(ConversionError::EmptyPalette),
        metric_of(convert_method) is Some && palette@.len() > 0 ==> r is Ok && is_match(
            palette@,
            metric_of(convert_method).unwrap(),
            distance,
            alpha,
            r.unwrap()@,
        ),
        r is Ok ==> exists|j: int|
            0 <= j < palette@.len() && r.unwrap()@ == #[trigger] rgba_of(palette@[j], alpha),
        r is Ok ==> forall|d: spec_fn(DEMethod, usize) -> u32|
            (forall|m: DEMethod, j: usize, k: u32|
                call_ensures(distance, (m, j), k) ==> k == d(m, j)) ==> r.unwrap()@ == rgba_of(
                palette@[#[trigger] nearest_of(
                    palette@.len(),
                    metric_of(convert_method).unwrap(),
                    d,
                )],
                alpha,
            ),
{
    let metric = match convert_method.distance_metric() {
        Ok(m) => m,
        Err(e) => {
            return Err(e);
        },
    };
    if palette.len() == 0 {
        return Err(ConversionError::EmptyPalette);
    }
    let asked = &distance;
    let key = |j: usize| -> (d: u32)
        requires
            call_requires(asked, (metric, j)),
        ensures
            call_ensures(asked, (metric, j), d),
        { asked(metric, j) };
    let candidates = candidates_of(palette, key);
    let ghost keys = distances_of(candidates@);
    proof {
        assert forall|k: int| 0 <= k < palette@.len() implies call_ensures(
            distance,
            (metric, k as usize),
            #[trigger] keys[k],
        ) by {
            assert(candidates@[k].1 == palette@[k]);
        }
        assert(candidate_keys(candidates@) =~= keys_of(keys));
        assert(keys_from(palette@.len(), metric, distance, keys));
        lemma_first_min(keys_of(keys));
    }
    let r = pick_colour(candidates.as_slice(), alpha);
    proof {
        let at = first_min(keys_of(keys));
        assert(r.unwrap()@ == rgba_of(palette@[at], alpha));
        assert forall|d: spec_fn(DEMethod, usize) -> u32|
            (forall|m: DEMethod, j: usize, k: u32|
                call_ensures(distance, (m, j), k) ==> k == d(m, j)) implies r.unwrap()@
            == rgba_of(palette@[#[trigger] nearest_of(palette@.len(), metric, d)], alpha) by {
            assert forall|j: int| 0 <= j < palette@.len() implies keys[j] == d(
                metric,
                j as usize,
            ) by {
                assert(call_ensures(distance, (metric, j as usize), keys[j]));
            }
            assert(keys_of(keys) =~= Seq::new(
                palette@.len(),
                |j: int| d(metric, j as usize) as int,
            ));
        }
    }
    r
}

/// `px` is the colour of the palette that is nearest to the pixel at `pixel`
/// by distances that `distance` may give, the first among equals, with the
/// alpha `alpha`.
pub open spec fn is_pixel_match<F: Fn(DEMethod, usize, usize) -> u32>(
    palette: Seq<u32>,
    metric: DEMethod,
    distance: F,
    pixel: usize,
    alpha: u8,
    px: Seq<u8>,
) -> bool {
    exists|keys: Seq<u32>| #[trigger]
        pixel_keys(palette.len(), metric, distance, pixel, keys) && px == rgba_of(
            palette[first_min(keys_of(keys))],
            alpha,
        )
}

/// `keys` are distances that `distance` may give under `metric` between the
/// pixel at `pixel` and the colours of a palette of `n` colours, one for each.
pub open spec fn pixel_keys<F: Fn(DEMethod, usize, usize) -> u32>(
    n: nat,
    metric: DEMethod,
    distance: F,
    pixel: usize,
    keys: Seq<u32>,
) -> bool {
    &&& keys.len() == n
    &&& forall|j: int|
        0 <= j < n ==> call_ensures(distance, (metric, pixel, j as usize), #[trigger] keys[j])
}

/// Whatever `distance` may return is what `d` says.
pub open spec fn pinned_distance<F: Fn(DEMethod, usize, usize) -> u32>(
    distance: F,
    d: spec_fn(DEMethod, usize, usize) -> u32,
) -> bool {
    forall|m: DEMethod, i: usize, j: usize, r: u32|
        call_ensures(distance, (m, i, j), r) ==> r == d(m, i, j)
}

/// The place in the palette of the colour nearest to the pixel at `pixel`
/// under the distances `d`, the first among equals.
pub open spec fn nearest_place(
    n: nat,
    metric: DEMethod,
    d: spec_fn(DEMethod, usize, usize) -> u32,
    pixel: usize,
) -> int {
    first_min(Seq::new(n, |j: int| d(metric, pixel, j as usize) as int))
}

/// The bytes of the image whose pixels are those of `pixels`, each replaced
/// by the colour of `palette` nearest to it under the distances `d` and
/// keeping its own alpha.
pub open spec fn matched(
    pixels: Seq<[u8; 4]>,
    palette: Seq<u32>,
    metric: DEMethod,
    d: spec_fn(DEMethod, usize, usize) -> u32,
) -> Seq<u8> {
    Seq::new(
        4 * pixels.len(),
        |k: int|
            rgba_of(
                palette[nearest_place(palette.len(), metric, d, (k / 4) as usize)],
                pixels[k / 4][3],
            )[k % 4],
    )
}

/// A pixel that is a match under distances that can come out in one way
/// only is the colour at the nearest place.
pub proof fn lemma_match_is_determined<F: Fn(DEMethod, usize, usize) -> u32>(
    palette: Seq<u32>,
    metric: DEMethod,
    distance: F,
    d: spec_fn(DEMethod, usize, usize) -> u32,
    pixel: usize,
    alpha: u8,
    px: Seq<u8>,
)
    requires
        is_pixel_match(palette, metric, distance, pixel, alpha, px),
        pinned_distance(distance, d),
        palette.len() <= usize::MAX,
    ensures
        px == rgba_of(palette[nearest_place(palette.len(), metric, d, pixel)], alpha),
{
    let keys = choose|keys: Seq<u32>| #[trigger]
        pixel_keys(palette.len(), metric, distance, pixel, keys) && px == rgba_of(
            palette[first_min(keys_of(keys))],
            alpha,
        );
    assert forall|j: int| 0 <= j < palette.len() implies keys[j] == d(
        metric,
        pixel,
        j as usize,
    ) by {
        assert(call_ensures(distance, (metric, pixel, j as usize), keys[j]));
    }
    assert(keys_of(keys) =~= Seq::new(
        palette.len(),
        |j: int| d(metric, pixel, j as usize) as int,
    ));
}

/// A match is a colour of the palette, with the alpha that was asked for.
pub proof fn lemma_match_is_palette_colour<F: Fn(DEMethod, usize, usize) -> u32>(
    palette: Seq<u32>,
    metric: DEMethod,
    distance: F,
    pixel: usize,
    alpha: u8,
    px: Seq<u8>,
)
    requires
        palette.len() > 0,
        is_pixel_match(palette, metric, distance, pixel, alpha, px),
    ensures
        exists|j: int| 0 <= j < palette.len() && px == #[trigger] rgba_of(palette[j], alpha),
        px.len() == 4,
        px[3] == alpha,
{
    let keys = choose|keys: Seq<u32>| #[trigger]
        pixel_keys(palette.len(), metric, distance, pixel, keys) && px == rgba_of(
            palette[first_min(keys_of(keys))],
            alpha,
        );
    lemma_first_min(keys_of(keys));
    let at = first_min(keys_of(keys));
    assert(px == rgba_of(palette[at], alpha));
}

/// Converts an image of red, green, blue and alpha by matching every pixel
/// against a palette under the distance `metric`. `palette` holds the
/// enabled colours as `0xRRGGBB`; `distance` gives, for a metric, the place
/// of a pixel in the image and the place of a colour in the palette, the
/// distance between the two. The result holds, pixel after pixel, the
/// nearest colour and the pixel's own alpha.
///
/// A palette without colours is refused before any pixel is looked at.
pub fn convert<F: Fn(DEMethod, usize, usize) -> u32>(
    img: &Img<[u8; 4]>,
    metric: DEMethod,
    palette: &[u32],
    distance: F,
) -> (r: Result<Vec<u8>, ConversionError>)
    requires
        forall|m: DEMethod, i: usize, j: usize|
            i < img@.len() && j < palette@.len() ==> call_requires(distance, (m, i, j)),
    ensures
        palette@.len() == 0 ==> r == Err::<Vec<u8>, ConversionError>(
            ConversionError::EmptyPalette,
        ),
        palette@.len() > 0 ==> r is Ok && r.unwrap()@.len() == 4 * img@.len() && forall|i: int|
            0 <= i < img@.len() ==> is_pixel_match(
                palette@,
                metric,
                distance,
                i as usize,
                (#[trigger] img@[i])[3],
                r.unwrap()@.subrange(4 * i, 4 * i + 4),
            ),
        palette@.len() > 0 ==> forall|d: spec_fn(DEMethod, usize, usize) -> u32|
            pinned_distance(distance, d) ==> r.unwrap()@ == #[trigger] matched(
                img@,
                palette@,
                metric,
                d,
            ),
{
    if palette.len() == 0 {
        return Err(ConversionError::EmptyPalette);
    }
    let pixels = img.as_slice();
    let n = pixels.len();
    let mut out: Vec<u8> = Vec::new();
    let mut i: usize = 0;
    while i < n
        invariant
            i <= n,
            n == pixels@.len(),
            pixels@ == img@,
            palette@.len() > 0,
            out@.len() == 4 * i,
            forall|m: DEMethod, i: usize, j: usize|
                i < img@.len() && j < palette@.len() ==> call_requires(distance, (m, i, j)),
            forall|k: int|
                0 <= k < i ==> is_pixel_match(
                    palette@,
                    metric,
                    distance,
                    k as usize,
                    (#[trigger] img@[k])[3],
                    out@.subrange(4 * k, 4 * k + 4),
                ),
        decreases n - i,
    {
        let alpha = pixels[i][3];
        let asked = &distance;
        let key = |j: usize| -> (d: u32)
            requires
                call_requires(asked, (metric, i, j)),
            ensures
                call_ensures(asked, (metric, i, j), d),
            { asked(metric, i, j) };
        let candidates = candidates_of(palette, key);
        let ghost keys = distances_of(candidates@);
        proof {
            assert forall|k: int| 0 <= k < palette@.len() implies call_ensures(
                distance,
                (metric, i, k as usize),
                #[trigger] keys[k],
            ) by {
                assert(candidates@[k].1 == palette@[k]);
            }
            assert(candidate_keys(candidates@) =~= keys_of(keys));
            assert(pixel_keys(palette@.len(), metric, distance, i, keys));
        }
        let px = match pick_colour(candidates.as_slice(), alpha) {
            Ok(px) => px,
            Err(e) => {
                return Err(e);
            },
        };
        let ghost before = out@;
        out.push(px[0]);
        out.push(px[1]);
        out.push(px[2]);
        out.push(px[3]);
        proof {
            assert(out@.subrange(4 * i, 4 * i + 4) =~= px@);
            assert forall|k: int| 0 <= k < i + 1 implies is_pixel_match(
                palette@,
                metric,
                distance,
                k as usize,
                (#[trigger] img@[k])[3],
                out@.subrange(4 * k, 4 * k + 4),
            ) by {
                if k < i {
                    assert(out@.subrange(4 * k, 4 * k + 4) =~= before.subrange(4 * k, 4 * k + 4));
                } else {
                    lemma_first_min(keys_of(keys));
                    let at = first_min(keys_of(keys));
                    assert(candidates@[at].1 == palette@[at]);
                    assert(alpha == img@[k][3]);
                    assert(pixel_keys(palette@.len(), metric, distance, i, keys));
                    assert(out@.subrange(4 * k, 4 * k + 4) == rgba_of(palette@[at], alpha));
                }
            }
        }
        i = i + 1;
    }
    proof {
        assert forall|d: spec_fn(DEMethod, usize, usize) -> u32|
            pinned_distance(distance, d) implies out@ == #[trigger] matched(
            img@,
            palette@,
            metric,
            d,
        ) by {
            assert forall|k: int| 0 <= k < out@.len() implies out@[k] == matched(
                img@,
                palette@,
                metric,
                d,
            )[k] by {
                let i = k / 4;
                assert(is_pixel_match(
                    palette@,
                    metric,
                    distance,
                    i as usize,
                    img@[i][3],
                    out@.subrange(4 * i, 4 * i + 4),
                ));
                lemma_match_is_determined(
                    palette@,
                    metric,
                    distance,
                    d,
                    i as usize,
                    img@[i][3],
                    out@.subrange(4 * i, 4 * i + 4),
                );
                assert(out@.subrange(4 * i, 4 * i + 4)[k % 4] == out@[k]);
            }
            assert(out@ =~= matched(img@, palette@, metric, d));
        }
    }
    Ok(out)
}

/// Converts an image as [`convert`] does, under the distance that `method`
/// stands for. A method that is no distance is refused, then a palette
/// without colours; both before any pixel is looked at.
pub fn convert_naive<F: Fn(DEMethod, usize, usize) -> u32>(
    img: &Img<[u8; 4]>,
    method: ConversionMethod,
    palette: &[u32],
    distance: F,
) -> (r: Result<Vec<u8>, ConversionError>)
    requires
        forall|m: DEMethod, i: usize, j: usize|
            i < img@.len() && j < palette@.len() ==> call_requires(distance, (m, i, j)),
    ensures
        metric_of(method) is None ==> r == Err::<Vec<u8>, ConversionError>(
            ConversionError::InvalidConversionMethod,
        ),
        metric_of(method) is Some && palette@.len() == 0 ==> r == Err::<Vec<u8>, ConversionError>(
            ConversionError::EmptyPalette,
        ),
        metric_of(method) is Some && palette@.len() > 0 ==> r is Ok && r.unwrap()@.len() == 4
            * img@.len() && forall|i: int|
            0 <= i < img@.len() ==> is_pixel_match(
                palette@,
                metric_of(method).unwrap(),
                distance,
                i as usize,
                (#[trigger] img@[i])[3],
                r.unwrap()@.subrange(4 * i, 4 * i + 4),
            ),
        metric_of(method) is Some && palette@.len() > 0 ==> forall|
            d: spec_fn(DEMethod, usize, usize) -> u32,
        |
            pinned_distance(distance, d) ==> r.unwrap()@ == #[trigger] matched(
                img@,
                palette@,
                metric_of(method).unwrap(),
                d,
            ),
{
    match method.distance_metric() {
        Ok(metric) => convert(img, metric, palette, distance),
        Err(e) => Err(e),
    }
}

/// The pixels of an image of red, green, blue and alpha as colour pixels of
/// samples; the alpha is left out.
pub open spec fn samples_of(pixels: Seq<[u8; 4]>) -> Seq<RGB<i64>> {
    Seq::new(
        pixels.len(),
        |i: int| colour_sample_spec(RGB(pixels[i][0], pixels[i][1], pixels[i][2])),
    )
}

/// The colours of a palette written as `0xRRGGBB`.
pub open spec fn colours_of(palette: Seq<u32>) -> Seq<RGB<u8>> {
    Seq::new(palette.len(), |i: int| unpacked(palette[i]))
}

/// The bytes of an image of colour pixels: for each pixel the 8-bit values
/// nearest to red, green and blue, and an alpha of 255.
pub open spec fn opaque_bytes(pixels: Seq<RGB<i64>>) -> Seq<u8> {
    Seq::new(
        4 * pixels.len(),
        |k: int|
            if k % 4 == 0 {
                nearest_colour(pixels[k / 4]).0
            } else if k % 4 == 1 {
                nearest_colour(pixels[k / 4]).1
            } else if k % 4 == 2 {
                nearest_colour(pixels[k / 4]).2
            } else {
                255u8
            },
    )
}

/// What dithering the pixels `pixels`, in rows of `width`, against `palette`
/// gives with the kernel `k`.
pub open spec fn dither_converted(k: Kernel, width: int, pixels: Seq<[u8; 4]>, palette: Seq<u32>) -> Seq<
    u8,
> {
    opaque_bytes(
        dithered(
            k,
            width,
            samples_of(pixels),
            |p: RGB<i64>| nearest_in(colours_of(palette), p),
        ),
    )
}

/// Converts an image of red, green, blue and alpha by dithering it against a
/// palette, which holds the enabled colours as `0xRRGGBB`. The channels are
/// turned into samples, the image goes through one pass of error diffusion
/// with the kernel of the method, every pixel being quantized to the colour
/// of the palette that is nearest by the sum of the channel gaps, and the
/// result is turned back into bytes with an alpha of 255.
///
/// A method that is no dithering kernel is refused, then a palette without
/// colours.
pub fn convert_dither(img: &Img<[u8; 4]>, convert_method: ConversionMethod, palette: &[u32]) -> (r:
    Result<Vec<u8>, ConversionError>)
    ensures
        kernel_of_method(convert_method) is None ==> r == Err::<Vec<u8>, ConversionError>(
            ConversionError::InvalidConversionMethod,
        ),
        kernel_of_method(convert_method) is Some && palette@.len() == 0 ==> r == Err::<
            Vec<u8>,
            ConversionError,
        >(ConversionError::EmptyPalette),
        kernel_of_method(convert_method) is Some && palette@.len() > 0 ==> r is Ok && r.unwrap()@
            == dither_converted(
            named_kernel(kernel_of_method(convert_method).unwrap()),
            img.spec_width() as int,
            img@,
            palette@,
        ),
{
    let ditherer = match convert_method.ditherer() {
        Ok(d) => d,
        Err(e) => {
            return Err(e);
        },
    };
    let mut colours: Vec<RGB<u8>> = Vec::new();
    let mut c: usize = 0;
    while c < palette.len()
        invariant
            c <= palette.len(),
            colours@.len() == c,
            forall|k: int| 0 <= k < c ==> colours@[k] == unpacked(palette@[k]),
        decreases palette.len() - c,
    {
        colours.push(RGB::from_hex(palette[c]));
        c = c + 1;
    }
    proof {
        assert(colours@ =~= colours_of(palette@));
    }
    let quantizer = match quantize(colours) {
        Ok(q) => q,
        Err(_) => {
            return Err(ConversionError::EmptyPalette);
        },
    };
    let width = img.width();
    let pixels = img.as_slice();
    let mut samples: Vec<RGB<i64>> = Vec::new();
    let mut i: usize = 0;
    while i < pixels.len()
        invariant
            i <= pixels.len(),
            samples@.len() == i,
            forall|k: int|
                0 <= k < i ==> samples@[k] == colour_sample_spec(
                    RGB(pixels@[k][0], pixels@[k][1], pixels@[k][2]),
                ),
        decreases pixels.len() - i,
    {
        let px = pixels[i];
        samples.push(colour_sample_of(RGB(px[0], px[1], px[2])));
        i = i + 1;
    }
    proof {
        assert(samples@ =~= samples_of(img@));
    }
    let ghost q = |p: RGB<i64>| nearest_in(colours_of(palette@), p);
    let source = Img::from_raw_buf(samples, width);
    let nearest = |p: RGB<i64>| -> (r: (RGB<i64>, RGB<i64>))
        ensures
            r == nearest_in(quantizer@, p),
        { quantizer.nearest(p) };
    let result = ditherer.dither(source, nearest);
    proof {
        assert(crate::ditherer::pinned(nearest, q));
        assert(result@ == dithered(ditherer@, width as int, samples_of(img@), q));
    }
    let done = result.as_slice();
    let mut out: Vec<u8> = Vec::new();
    let mut j: usize = 0;
    while j < done.len()
        invariant
            j <= done.len(),
            out@.len() == 4 * j,
            forall|k: int| 0 <= k < 4 * j ==> out@[k] == #[trigger] opaque_bytes(done@)[k],
        decreases done.len() - j,
    {
        let RGB(r, g, b) = clamp_to_colour(done[j]);
        out.push(r);
        out.push(g);
        out.push(b);
        out.push(255);
        j = j + 1;
    }
    proof {
        assert(out@ =~= opaque_bytes(done@));
    }
    Ok(out)
}

/// The bytes of `n` pixels of the colour `c` with an alpha of 255.
pub open spec fn solid_bytes(n: nat, c: RGB<u8>) -> Seq<u8> {
    Seq::new(
        4 * n,
        |k: int|
            if k % 4 == 0 {
                c.0
            } else if k % 4 == 1 {
                c.1
            } else if k % 4 == 2 {
                c.2
            } else {
                255u8
            },
    )
}

/// Dithering an image of a single colour, in rows of `width`, against a
/// palette that holds this colour gives every pixel this colour again,
/// whatever the kernel: the colours of the result are those of the image.
pub proof fn lemma_solid_image_unchanged(
    k: Kernel,
    width: int,
    pixels: Seq<[u8; 4]>,
    c: RGB<u8>,
    palette: Seq<u32>,
)
    requires
        k.div > 0,
        width > 0,
        pixels.len() % (width as nat) == 0,
        forall|i: int|
            0 <= i < pixels.len() ==> RGB((#[trigger] pixels[i])[0], pixels[i][1], pixels[i][2])
                == c,
        exists|j: int| 0 <= j < palette.len() && unpacked(#[trigger] palette[j]) == c,
    ensures
        dither_converted(k, width, pixels, palette) == solid_bytes(pixels.len(), c),
{
    let q = |p: RGB<i64>| nearest_in(colours_of(palette), p);
    let p = colour_sample_spec(c);
    let n = pixels.len();
    let j = choose|j: int| 0 <= j < palette.len() && unpacked(#[trigger] palette[j]) == c;
    assert(colours_of(palette)[j] == c);
    crate::palette::lemma_own_colour(colours_of(palette), c);
    assert(samples_of(pixels) =~= Seq::new(n, |i: int| p));
    crate::ditherer::lemma_dither_fixed_point(k, width, n, p, q);
    crate::pixel::lemma_sample_round_trip(c.0);
    crate::pixel::lemma_sample_round_trip(c.1);
    crate::pixel::lemma_sample_round_trip(c.2);
    assert(dither_converted(k, width, pixels, palette) =~= solid_bytes(n, c));
}

} // verus!
