use faerber::color::Error as ColorError;
use faerber::ditherer::{parse_ditherer, Dither, Ditherer, ErrorUnknownDitherer, NamedKernel};
use faerber::error::Error;
use faerber::img::Img;
use faerber::palette::quantize;
use faerber::pixel::{clamp_to_u8, sample_of, Pixel, FULL, UNIT};
use faerber::quantize::create_quantize_n_bits_func;
use faerber::rgb::RGB;

fn no_op(p: RGB<i64>) -> (RGB<i64>, RGB<i64>) {
    (p, RGB::default())
}

#[test]
fn test_dither_no_op() {
    let no_op_dither: Ditherer = Ditherer::new(1, vec![]).unwrap();

    let mut test_img_buf: Vec<RGB<i64>> = Vec::with_capacity(9);
    for y in 0..3 {
        for x in 0..3 {
            test_img_buf.push(RGB(0, i64::from(y), i64::from(x)));
        }
    }
    let img = Img::new(test_img_buf, 3).unwrap();
    assert_eq!(img, no_op_dither.dither(img.clone(), no_op));
}

fn grey(values: &[u8]) -> Vec<i64> {
    values.iter().map(|v| sample_of(*v)).collect()
}

fn bytes(img: Img<i64>) -> Vec<u8> {
    img.into_vec().into_iter().map(clamp_to_u8).collect()
}

#[test]
fn floyd_steinberg_on_one_row_of_four_greys() {
    let two_levels = create_quantize_n_bits_func(1).unwrap();
    let img = Img::new(grey(&[0, 85, 170, 255]), 4).unwrap();
    let out = Ditherer::floyd_steinberg().dither(img, |p| two_levels.quantize(p));
    assert_eq!(bytes(out), vec![0, 0, 255, 255]);
}

#[test]
fn floyd_steinberg_passes_seven_sixteenths_to_the_right() {
    // The quantizer keeps nothing, so every pixel shows what reached it.
    let img = Img::new(vec![16 * UNIT, 0, 0, 0], 4).unwrap();
    let seen = std::cell::RefCell::new(Vec::new());
    let out = Ditherer::floyd_steinberg().dither(img, |p: i64| {
        seen.borrow_mut().push(p);
        (0, p)
    });
    assert_eq!(out.into_vec(), vec![0, 0, 0, 0]);
    // In a single row only the share to the right stays inside the image.
    assert_eq!(
        seen.into_inner(),
        vec![16 * UNIT, 7 * UNIT, 7 * 7 * UNIT / 16, 7 * (7 * 7 * UNIT / 16) / 16]
    );
}

#[test]
fn a_row_of_two_greys_below_the_middle_stays_black() {
    let two_levels = create_quantize_n_bits_func(1).unwrap();
    let img = Img::new(grey(&[80, 80]), 2).unwrap();
    let out = Ditherer::floyd_steinberg().dither(img, |p| two_levels.quantize(p));
    // The second pixel gets 80 * 7 / 16 = 35 from the first and nothing else.
    assert_eq!(bytes(out), vec![0, 0]);
}

#[test]
fn floyd_steinberg_spreads_to_the_row_below() {
    let mut buf = vec![0i64; 9];
    buf[4] = 16;
    let img = Img::new(buf, 3).unwrap();
    let seen = std::cell::RefCell::new(Vec::new());
    Ditherer::floyd_steinberg().dither(img, |p: i64| {
        seen.borrow_mut().push(p);
        if p == 16 { (0, 16) } else { (p, 0) }
    });
    assert_eq!(seen.into_inner(), vec![0, 0, 0, 0, 16, 7, 3, 5, 1]);
}

#[test]
fn residual_past_the_end_of_the_buffer_is_dropped() {
    let img = Img::new(vec![0i64, 0, 0, 16], 2).unwrap();
    let out = Ditherer::floyd_steinberg().dither(img, |p: i64| (0, p));
    assert_eq!(out.into_vec(), vec![0, 0, 0, 0]);
}

#[test]
fn residual_at_the_end_of_a_row_is_not_carried_into_the_next_row() {
    let img = Img::new(vec![0i64, 16, 0, 0], 2).unwrap();
    let seen = std::cell::RefCell::new(Vec::new());
    Ditherer::floyd_steinberg().dither(img, |p: i64| {
        seen.borrow_mut().push(p);
        if p == 16 { (0, 16) } else { (p, 0) }
    });
    // The shares to the right and to the lower right leave the image; the
    // shares to the lower left and straight down stay.
    assert_eq!(seen.into_inner(), vec![0, 16, 3, 5]);
}

#[test]
fn residual_at_the_start_of_a_row_is_not_carried_to_its_end() {
    let img = Img::new(vec![16i64, 0, 0, 0, 0, 0], 3).unwrap();
    let seen = std::cell::RefCell::new(Vec::new());
    Ditherer::floyd_steinberg().dither(img, |p: i64| {
        seen.borrow_mut().push(p);
        if p == 16 { (0, 16) } else { (p, 0) }
    });
    assert_eq!(seen.into_inner(), vec![16, 7, 0, 5, 1, 0]);
}

#[test]
fn dithering_a_solid_image_against_its_own_colour_changes_nothing() {
    let colour = RGB(200u8, 100, 50);
    let quantizer = quantize(vec![RGB(0, 0, 0), colour, RGB(255, 255, 255)]).unwrap();
    for ditherer in [
        Ditherer::floyd_steinberg(),
        Ditherer::atkinson(),
        Ditherer::stucki(),
        Ditherer::burkes(),
        Ditherer::jarvis_judice_ninke(),
        Ditherer::sierra_3(),
    ] {
        let pixel = RGB(sample_of(200), sample_of(100), sample_of(50));
        let img = Img::new(vec![pixel; 12], 4).unwrap();
        let out = ditherer.dither(img.clone(), |p| quantizer.nearest(p));
        assert_eq!(out, img);
    }
}

fn dither_rows(rows: &[[u8; 3]]) -> Vec<Vec<u8>> {
    let two_levels = create_quantize_n_bits_func(1).unwrap();
    let flat: Vec<u8> = rows.iter().flatten().copied().collect();
    let img = Img::new(grey(&flat), 3).unwrap();
    let out = bytes(Ditherer::floyd_steinberg().dither(img, |p| two_levels.quantize(p)));
    out.chunks(3).map(|c| c.to_vec()).collect()
}

#[test]
fn reversing_the_rows_changes_the_result() {
    let rows = [[100u8, 100, 100], [200, 200, 200]];
    let reversed = [rows[1], rows[0]];
    let straight = dither_rows(&rows);
    let mut back = dither_rows(&reversed);
    back.reverse();
    assert_ne!(straight, back);
}

#[test]
fn kernels_have_their_divisors_and_names() {
    let all = [
        (Ditherer::floyd_steinberg(), 16, "floyd"),
        (Ditherer::atkinson(), 8, "atkinson"),
        (Ditherer::stucki(), 42, "stucki"),
        (Ditherer::burkes(), 32, "burkes"),
        (Ditherer::jarvis_judice_ninke(), 48, "jarvis"),
        (Ditherer::sierra_3(), 32, "sierra3"),
    ];
    for (d, div, name) in all {
        assert_eq!(d.div(), div);
        assert_eq!(d.label(), name);
    }
    assert_eq!(Ditherer::new(3, vec![(1, 0, 1)]).unwrap().label(), "custom ditherer");
    assert!(Ditherer::default().same_kernel(&Ditherer::floyd_steinberg()));
    assert!(Ditherer::named(NamedKernel::Stucki).same_kernel(&Ditherer::stucki()));
    assert!(!Ditherer::burkes().same_kernel(&Ditherer::sierra_3()));
    let custom = Ditherer::new(16, vec![(1, 0, 7), (-1, 1, 3), (0, 1, 5), (1, 1, 1)]).unwrap();
    assert!(custom.same_kernel(&Ditherer::floyd_steinberg()));
}

#[test]
fn atkinson_keeps_a_quarter_of_the_residual() {
    let mut buf = vec![0i64; 12];
    buf[1] = 8;
    let img = Img::new(buf, 4).unwrap();
    let seen = std::cell::RefCell::new(Vec::new());
    Ditherer::atkinson().dither(img, |p: i64| {
        seen.borrow_mut().push(p);
        if p == 8 { (0, 8) } else { (p, 0) }
    });
    let seen = seen.into_inner();
    assert_eq!(seen.iter().sum::<i64>(), 8 + 6);
    assert_eq!(seen, vec![0, 8, 1, 1, 1, 1, 1, 0, 0, 1, 0, 0]);
}

#[test]
fn atkinson_drops_what_leaves_the_image_on_the_left() {
    let mut buf = vec![0i64; 12];
    buf[0] = 8;
    let img = Img::new(buf, 4).unwrap();
    let seen = std::cell::RefCell::new(Vec::new());
    Ditherer::atkinson().dither(img, |p: i64| {
        seen.borrow_mut().push(p);
        if p == 8 { (0, 8) } else { (p, 0) }
    });
    assert_eq!(seen.into_inner(), vec![8, 1, 1, 0, 1, 1, 0, 0, 1, 0, 0, 0]);
}

#[test]
fn new_refuses_kernels_that_look_back() {
    assert!(Ditherer::new(0, vec![]).is_none());
    assert!(Ditherer::new(-1, vec![(1, 0, 1)]).is_none());
    assert!(Ditherer::new(1, vec![(0, 0, 1)]).is_none());
    assert!(Ditherer::new(1, vec![(-1, 0, 1)]).is_none());
    assert!(Ditherer::new(1, vec![(1, 0, 1), (5, -1, 1)]).is_none());
    assert!(Ditherer::new(1, vec![(-5, 1, 1), (1, 0, -3)]).is_some());
}

#[test]
fn ditherers_are_read_by_name() {
    for (name, want) in [
        ("floyd", Ditherer::floyd_steinberg()),
        ("Steinberg", Ditherer::floyd_steinberg()),
        ("FLOYDSTEINBERG", Ditherer::floyd_steinberg()),
        ("floyd steinberg", Ditherer::floyd_steinberg()),
        ("atkinson", Ditherer::atkinson()),
        ("stucki", Ditherer::stucki()),
        ("burkes", Ditherer::burkes()),
        ("jarvis", Ditherer::jarvis_judice_ninke()),
        ("judice", Ditherer::jarvis_judice_ninke()),
        ("NINKE", Ditherer::jarvis_judice_ninke()),
        ("sierra", Ditherer::sierra_3()),
        ("sierra3", Ditherer::sierra_3()),
    ] {
        let got: Ditherer = name.parse().unwrap();
        assert!(got.same_kernel(&want), "{}", name);
        assert_eq!(got.label(), want.label());
    }
    let err = "Bayer".parse::<Ditherer>().unwrap_err();
    assert_eq!(err, ErrorUnknownDitherer("Bayer".to_string()));
    assert_eq!(err.message(), "unknown ditherer: Bayer");
    assert!(parse_ditherer(" floyd").is_err());
}

#[test]
fn one_level_splits_the_range_in_the_middle() {
    let q = create_quantize_n_bits_func(1).unwrap();
    assert_eq!(q.levels(), 1);
    for v in 0..=255u8 {
        let (level, residual) = q.quantize(sample_of(v));
        let want = if v <= 127 { 0 } else { 255 };
        assert_eq!(clamp_to_u8(level), want, "{}", v);
        assert_eq!(level + residual, sample_of(v));
    }
    assert_eq!(q.quantize(100 * UNIT), (0, 100 * UNIT));
    assert_eq!(q.quantize(250 * UNIT), (FULL, -5 * UNIT));
    // The middle of the range is as near to both levels and goes up.
    assert_eq!(q.quantize(FULL / 2), (FULL, -FULL / 2));
    assert_eq!(q.quantize(FULL / 2 - 1), (0, FULL / 2 - 1));
}

#[test]
fn levels_are_evenly_spaced() {
    let q = create_quantize_n_bits_func(3).unwrap();
    assert_eq!(q.quantize(0), (0, 0));
    assert_eq!(q.quantize(85 * UNIT), (85 * UNIT, 0));
    assert_eq!(q.quantize(86 * UNIT), (85 * UNIT, UNIT));
    assert_eq!(q.quantize(127 * UNIT), (85 * UNIT, 42 * UNIT));
    assert_eq!(q.quantize(128 * UNIT), (170 * UNIT, -42 * UNIT));
    assert_eq!(q.quantize(FULL), (FULL, 0));
    let seven = create_quantize_n_bits_func(7).unwrap();
    assert_eq!(seven.quantize(FULL / 7 + 5), (FULL / 7, 5));
    let two = create_quantize_n_bits_func(2).unwrap();
    assert_eq!(two.quantize(127 * UNIT), (FULL / 2, -UNIT / 2));
}

#[test]
fn samples_outside_the_range_keep_their_residual() {
    let q = create_quantize_n_bits_func(1).unwrap();
    assert_eq!(q.quantize(-10 * UNIT), (0, -10 * UNIT));
    assert_eq!(q.quantize(-200 * UNIT), (0, 55 * UNIT));
    assert_eq!(q.quantize(300 * UNIT), (FULL, 45 * UNIT));
    assert_eq!(q.quantize(500 * UNIT), (FULL, -10 * UNIT));
    assert_eq!(q.quantize(600 * UNIT), (2 * FULL, 90 * UNIT));
    assert_eq!(q.quantize(-300 * UNIT), (-FULL, -45 * UNIT));
}

#[test]
fn bad_bit_depths_are_refused() {
    for n in [0u8, 8, 9, 255] {
        assert_eq!(create_quantize_n_bits_func(n).unwrap_err(), Error::BadBitDepth(n));
    }
    for n in 1..=7u8 {
        assert_eq!(create_quantize_n_bits_func(n).unwrap().levels(), n);
    }
    assert_eq!(
        Error::BadBitDepth(9).message(),
        "configuration error: bit depth must be between 1 and 7, but was 9"
    );
    assert_eq!(
        Error::from(ColorError::PaletteTooSmall),
        Error::Color(ColorError::PaletteTooSmall)
    );
}

#[test]
fn palette_quantizer_takes_the_first_nearest_colour() {
    let q = quantize(vec![RGB(0, 0, 0), RGB(255, 0, 0), RGB(0, 255, 0), RGB(255, 255, 255)]).unwrap();
    assert_eq!(q.len(), 4);
    let p = RGB(sample_of(250), sample_of(10), sample_of(0));
    assert_eq!(
        q.nearest(p),
        (RGB(FULL, 0, 0), RGB(-5 * UNIT, 10 * UNIT, 0))
    );
    // As far from black as from red: the first of the two stays.
    let between = RGB(FULL / 2, 0, 0);
    assert_eq!(q.nearest(between), (RGB(0, 0, 0), between));
    let far = RGB(i64::MAX, i64::MIN, 0);
    assert_eq!(q.nearest(far).0, RGB(FULL, 0, 0));
    assert_eq!(q.nearest(far).1, RGB(i64::MAX - FULL, i64::MIN, 0));
}

#[test]
fn empty_palette_is_refused_by_the_quantizer() {
    assert_eq!(quantize(vec![]).unwrap_err(), ColorError::PaletteTooSmall);
    assert!(quantize(vec![RGB(1, 2, 3)]).is_ok());
}

#[test]
fn samples_hold_at_the_ends_of_their_range() {
    assert_eq!(i64::MAX.plus(1), i64::MAX);
    assert_eq!(i64::MIN.plus(-1), i64::MIN);
    assert_eq!(5i64.plus(-7), -2);
    assert_eq!(7i64.scaled(7, 16), 3);
    assert_eq!((-7i64).scaled(7, 16), -3);
    assert_eq!(i64::MAX.scaled(4, 2), i64::MAX);
    assert_eq!(i64::MIN.scaled(4, 2), i64::MIN);
    assert_eq!(i64::zero(), 0);
    assert_eq!(RGB(1i64, 2, 3).plus(RGB(10, 20, 30)), RGB(11, 22, 33));
    assert_eq!(RGB(16i64, 32, -16).scaled(3, 16), RGB(3, 6, -3));
    assert_eq!(RGB::<i64>::zero(), RGB(0, 0, 0));
}

#[test]
fn samples_round_to_the_nearest_byte() {
    assert_eq!(clamp_to_u8(FULL + 1), 255);
    assert_eq!(clamp_to_u8(-1), 0);
    assert_eq!(clamp_to_u8(2 * UNIT + UNIT / 2), 3);
    assert_eq!(clamp_to_u8(2 * UNIT + UNIT / 2 - 1), 2);
    assert_eq!(clamp_to_u8(UNIT * 14 / 5), 3);
    for v in 0..=255u8 {
        assert_eq!(clamp_to_u8(sample_of(v)), v);
    }
}

#[test]
fn ditherers_are_equal_by_their_kernels() {
    assert_eq!(Ditherer::floyd_steinberg(), Ditherer::default());
    assert_eq!(Ditherer::stucki().clone(), Ditherer::stucki());
    assert_eq!(Ditherer::stucki().clone().label(), "stucki");
    assert_ne!(Ditherer::stucki(), Ditherer::burkes());
    let custom = Ditherer::new(8, vec![(1, 0, 1), (2, 0, 1), (-1, 1, 1), (0, 1, 1), (1, 1, 1), (0, 2, 1)]);
    assert_eq!(custom.unwrap(), Ditherer::atkinson());
    assert_eq!(create_quantize_n_bits_func(4).unwrap().clone().levels(), 4);
}

#[test]
fn levels_within_the_range_add_up() {
    for n in 1..=7u8 {
        let q = create_quantize_n_bits_func(n).unwrap();
        let step = FULL / i64::from(n);
        for x in (0..=FULL).step_by(777).chain([FULL]) {
            let (level, residual) = q.quantize(x);
            assert_eq!(level + residual, x);
            assert_eq!(level % step, 0);
            assert!((0..=FULL).contains(&level));
            assert!(-step <= 2 * residual && 2 * residual < step);
        }
    }
}
