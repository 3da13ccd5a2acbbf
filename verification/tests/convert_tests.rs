use deltae::{DEMethod as OutsideMethod, DeltaE, LabValue};
use faerber::convert::{
    execution_for, parse_delta_e_method, parse_method, ConversionError, ConversionMethod, DEMethod,
    Execution,
};
use faerber::ditherer::Ditherer;
use faerber::img::Img;
use faerber::raster::{convert, convert_color, convert_dither, convert_naive, pick_colour};

fn lab_of(colour: u32) -> LabValue {
    let lab = lab::Lab::from_rgb(&[(colour >> 16) as u8, (colour >> 8) as u8, colour as u8]);
    LabValue { l: lab.l, a: lab.a, b: lab.b }
}

fn outside(metric: DEMethod) -> OutsideMethod {
    match metric {
        DEMethod::DE1976 => OutsideMethod::DE1976,
        DEMethod::DE1994G => OutsideMethod::DE1994G,
        DEMethod::DE1994T => OutsideMethod::DE1994T,
        DEMethod::DE2000 => OutsideMethod::DE2000,
    }
}

/// The distance as a key that keeps the order of the distances.
fn key(from: u32, to: u32, metric: DEMethod) -> u32 {
    let d = *DeltaE::new(lab_of(from), lab_of(to), outside(metric)).value();
    assert!(d >= 0.0);
    d.to_bits()
}

fn colour_of(px: &[u8; 4]) -> u32 {
    (u32::from(px[0]) << 16) | (u32::from(px[1]) << 8) | u32::from(px[2])
}

#[test]
fn solid_red_against_black_and_white() {
    let red = [0xff, 0x00, 0x00, 0xff];
    let img = Img::new(vec![red; 4], 2).unwrap();
    let palette = [0x000000u32, 0xffffff];
    let out = convert_naive(&img, ConversionMethod::De1976, &palette, |m, i, j| {
        key(colour_of(&img.as_slice()[i]), palette[j], m)
    })
    .unwrap();
    // In CIELAB pure red is nearer to white (about 114.5) than to black
    // (about 117.3).
    assert!(key(0xff0000, 0xffffff, DEMethod::DE1976) < key(0xff0000, 0x000000, DEMethod::DE1976));
    assert_eq!(out, [0xff, 0xff, 0xff, 0xff].repeat(4));
    assert_eq!(out.len(), 16);
    assert!(out.chunks(4).all(|px| px[3] == 0xff));
}

#[test]
fn dark_red_against_black_and_white_is_black() {
    let dark = [0x40, 0x00, 0x00, 0xff];
    let img = Img::new(vec![dark; 4], 2).unwrap();
    let palette = [0x000000u32, 0xffffff];
    for method in [
        ConversionMethod::De1976,
        ConversionMethod::De1994G,
        ConversionMethod::De1994T,
        ConversionMethod::De2000,
    ] {
        let out = convert_naive(&img, method, &palette, |m, i, j| {
            key(colour_of(&img.as_slice()[i]), palette[j], m)
        })
        .unwrap();
        assert_eq!(out, [0x00, 0x00, 0x00, 0xff].repeat(4));
    }
}

#[test]
fn matching_keeps_the_alpha_of_the_pixel() {
    let img = Img::new(vec![[10, 10, 10, 0], [250, 250, 250, 7], [0, 0, 0, 255]], 3).unwrap();
    let palette = [0x000000u32, 0xffffff];
    let out = convert(&img, DEMethod::DE2000, &palette, |m, i, j| {
        key(colour_of(&img.as_slice()[i]), palette[j], m)
    })
    .unwrap();
    assert_eq!(out, vec![0, 0, 0, 0, 255, 255, 255, 7, 0, 0, 0, 255]);
}

#[test]
fn every_match_is_a_colour_of_the_palette() {
    let palette = [0x112233u32, 0xaabbcc, 0x010203, 0xfffefd];
    let mut seed = 12345u32;
    for _ in 0..200 {
        let keys: Vec<u32> = (0..palette.len())
            .map(|_| {
                seed = seed.wrapping_mul(1664525).wrapping_add(1013904223);
                seed >> 28
            })
            .collect();
        let alpha = (seed >> 8) as u8;
        let px = convert_color(ConversionMethod::De1976, &palette, alpha, |_, j| keys[j]).unwrap();
        assert_eq!(px[3], alpha);
        let at = palette.iter().position(|c| *c == colour_of(&px)).unwrap();
        assert_eq!(keys[at], *keys.iter().min().unwrap());
        assert!(keys[..at].iter().all(|k| *k > keys[at]));
    }
}

#[test]
fn the_first_of_equally_near_colours_wins() {
    let palette = [0x111111u32, 0x222222, 0x333333];
    let px = convert_color(ConversionMethod::De2000, &palette, 9, |_, _| 5).unwrap();
    assert_eq!(px, [0x11, 0x11, 0x11, 9]);
    let px = convert_color(ConversionMethod::De2000, &palette, 9, |_, j| [7, 3, 3][j]).unwrap();
    assert_eq!(px, [0x22, 0x22, 0x22, 9]);
    let px = convert_color(ConversionMethod::De2000, &palette, 9, |_, _| u32::MAX).unwrap();
    assert_eq!(px, [0x11, 0x11, 0x11, 9]);
}

#[test]
fn the_metric_of_the_method_reaches_the_distance() {
    let palette = [0x000000u32];
    for (method, metric) in [
        (ConversionMethod::De1976, DEMethod::DE1976),
        (ConversionMethod::De1994G, DEMethod::DE1994G),
        (ConversionMethod::De1994T, DEMethod::DE1994T),
        (ConversionMethod::De2000, DEMethod::DE2000),
    ] {
        let seen = std::cell::Cell::new(None);
        convert_color(method, &palette, 0, |m, _| {
            seen.set(Some(m));
            0
        })
        .unwrap();
        assert_eq!(seen.get(), Some(metric));
        assert_eq!(method.distance_metric(), Ok(metric));
        assert_eq!(DEMethod::try_from(method), Ok(metric));
    }
}

#[test]
fn an_empty_palette_is_an_error() {
    let img = Img::new(vec![[1, 2, 3, 4]], 1).unwrap();
    let none: [u32; 0] = [];
    assert_eq!(
        convert_color(ConversionMethod::De1976, &none, 255, |_, _| 0),
        Err(ConversionError::EmptyPalette)
    );
    assert_eq!(pick_colour(&[], 255), Err(ConversionError::EmptyPalette));
    assert_eq!(
        convert_naive(&img, ConversionMethod::De2000, &none, |_, _, _| 0),
        Err(ConversionError::EmptyPalette)
    );
    assert_eq!(
        convert(&img, DEMethod::DE2000, &none, |_, _, _| 0),
        Err(ConversionError::EmptyPalette)
    );
    assert_eq!(
        convert_dither(&img, ConversionMethod::DitherAtkinson, &none),
        Err(ConversionError::EmptyPalette)
    );
    let empty = Img::<[u8; 4]>::new(vec![], 1).unwrap();
    assert_eq!(
        convert_naive(&empty, ConversionMethod::De2000, &none, |_, _, _| 0),
        Err(ConversionError::EmptyPalette)
    );
    assert_eq!(
        convert_naive(&empty, ConversionMethod::De2000, &[1], |_, _, _| 0),
        Ok(vec![])
    );
}

#[test]
fn a_method_of_the_wrong_family_is_an_error() {
    let img = Img::new(vec![[1, 2, 3, 4]], 1).unwrap();
    let none: [u32; 0] = [];
    for method in [
        ConversionMethod::DitherFloydSteinberg,
        ConversionMethod::DitherAtkinson,
        ConversionMethod::DitherStucki,
        ConversionMethod::DitherBurkes,
        ConversionMethod::DitherJarvisJudiceNinke,
        ConversionMethod::DitherSierra3,
    ] {
        assert_eq!(method.distance_metric(), Err(ConversionError::InvalidConversionMethod));
        assert_eq!(DEMethod::try_from(method), Err(ConversionError::InvalidConversionMethod));
        assert!(method.ditherer().is_ok());
        assert_eq!(
            convert_naive(&img, method, &[0], |_, _, _| 0),
            Err(ConversionError::InvalidConversionMethod)
        );
        assert_eq!(
            convert_naive(&img, method, &none, |_, _, _| 0),
            Err(ConversionError::InvalidConversionMethod)
        );
        assert_eq!(
            convert_color(method, &[0], 0, |_, _| 0),
            Err(ConversionError::InvalidConversionMethod)
        );
    }
    for method in [
        ConversionMethod::De1976,
        ConversionMethod::De1994G,
        ConversionMethod::De1994T,
        ConversionMethod::De2000,
    ] {
        assert_eq!(method.ditherer().unwrap_err(), ConversionError::InvalidConversionMethod);
        assert!(Ditherer::try_from(method).is_err());
        assert_eq!(
            convert_dither(&img, method, &[0]),
            Err(ConversionError::InvalidConversionMethod)
        );
        assert_eq!(
            convert_dither(&img, method, &none),
            Err(ConversionError::InvalidConversionMethod)
        );
    }
}

#[test]
fn methods_stand_for_their_kernels() {
    for (method, want) in [
        (ConversionMethod::DitherFloydSteinberg, Ditherer::floyd_steinberg()),
        (ConversionMethod::DitherAtkinson, Ditherer::atkinson()),
        (ConversionMethod::DitherStucki, Ditherer::stucki()),
        (ConversionMethod::DitherBurkes, Ditherer::burkes()),
        (ConversionMethod::DitherJarvisJudiceNinke, Ditherer::jarvis_judice_ninke()),
        (ConversionMethod::DitherSierra3, Ditherer::sierra_3()),
    ] {
        assert_eq!(method.ditherer().unwrap().label(), want.label());
        assert!(Ditherer::try_from(method).unwrap().same_kernel(&want));
    }
}

#[test]
fn methods_are_written_and_read() {
    let words = [
        (ConversionMethod::De1976, "de1976"),
        (ConversionMethod::De1994T, "de1994g"),
        (ConversionMethod::De1994G, "de1994t"),
        (ConversionMethod::De2000, "de2000"),
        (ConversionMethod::DitherFloydSteinberg, "dither_floydsteinberg"),
        (ConversionMethod::DitherAtkinson, "dither_atkinson"),
        (ConversionMethod::DitherStucki, "dither_stucki"),
        (ConversionMethod::DitherBurkes, "dither_burkes"),
        (ConversionMethod::DitherJarvisJudiceNinke, "dither_jarvisjudiceninke"),
        (ConversionMethod::DitherSierra3, "dither_sierra3"),
    ];
    assert_eq!(ConversionMethod::all(), words.map(|w| w.0).to_vec());
    for (method, word) in words {
        assert_eq!(method.name(), word);
        assert_eq!(word.parse::<ConversionMethod>(), Ok(method));
    }
    for bad in ["", "DE1976", "de1976 ", "dither", "de1994"] {
        assert_eq!(parse_method(bad), Err(ConversionError::InvalidConversionMethod));
    }
    assert_eq!(ConversionError::AttributeParseError.message(), "Invalid attribute");
    assert_eq!(ConversionError::XMLReadError.message(), "Error reading XML");
    assert_eq!(ConversionError::InvalidConversionMethod.message(), "Invalid conversion method");
}

#[test]
fn short_words_name_the_distances() {
    assert_eq!(parse_delta_e_method("76"), DEMethod::DE1976);
    assert_eq!(parse_delta_e_method("94t"), DEMethod::DE1994T);
    assert_eq!(parse_delta_e_method("94g"), DEMethod::DE1994G);
    assert_eq!(parse_delta_e_method("2000"), DEMethod::DE2000);
    assert_eq!(parse_delta_e_method("anything"), DEMethod::DE1976);
}

#[test]
fn only_the_distance_of_2000_runs_side_by_side() {
    assert_eq!(execution_for(DEMethod::DE2000), Execution::Parallel);
    assert_eq!(execution_for(DEMethod::DE1976), Execution::Sequential);
    assert_eq!(execution_for(DEMethod::DE1994G), Execution::Sequential);
    assert_eq!(execution_for(DEMethod::DE1994T), Execution::Sequential);
}

#[test]
fn dithering_a_solid_image_keeps_its_colour_and_makes_it_opaque() {
    let img = Img::new(vec![[0x12, 0x34, 0x56, 0x10]; 6], 3).unwrap();
    for method in [
        ConversionMethod::DitherFloydSteinberg,
        ConversionMethod::DitherAtkinson,
        ConversionMethod::DitherStucki,
        ConversionMethod::DitherBurkes,
        ConversionMethod::DitherJarvisJudiceNinke,
        ConversionMethod::DitherSierra3,
    ] {
        let out = convert_dither(&img, method, &[0xffffff, 0x123456, 0x000000]).unwrap();
        assert_eq!(out, [0x12, 0x34, 0x56, 0xff].repeat(6));
    }
}

#[test]
fn dithering_grey_against_black_and_white() {
    let row: Vec<[u8; 4]> = [0u8, 85, 170, 255].iter().map(|v| [*v, *v, *v, 255]).collect();
    let img = Img::new(row, 4).unwrap();
    let out = convert_dither(&img, ConversionMethod::DitherFloydSteinberg, &[0x000000, 0xffffff])
        .unwrap();
    assert_eq!(
        out,
        vec![0, 0, 0, 255, 0, 0, 0, 255, 255, 255, 255, 255, 255, 255, 255, 255]
    );
}

#[test]
fn dithering_mid_grey_gives_black_and_white_in_turn() {
    let img = Img::new(vec![[128, 128, 128, 0]; 4], 4).unwrap();
    let out = convert_dither(&img, ConversionMethod::DitherFloydSteinberg, &[0x000000, 0xffffff])
        .unwrap();
    let greys: Vec<u8> = out.chunks(4).map(|px| px[0]).collect();
    assert_eq!(greys, vec![255, 0, 255, 0]);
}
