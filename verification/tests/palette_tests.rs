use faerber::color::{parse_mode, Error, Mode};
use faerber::palette::{cga, crayon};
use faerber::rgb::RGB;
use std::collections::HashSet;

#[test]
fn parse() {
    const GARBAGE: &str = "ASDASLKJAS";

    let tt: Vec<(&str, Result<Mode, Error>)> = vec![
        ("bw", Ok(Mode::BlackAndWhite)),
        ("c", Ok(Mode::Color)),
        ("color", Ok(Mode::Color)),
        ("RED", Ok(Mode::SingleColor(RGB::from_hex(cga::RED)))),
        ("blue", Ok(Mode::SingleColor(RGB::from_hex(cga::BLUE)))),
        ("LigHT_CYAN", Ok(Mode::SingleColor(RGB::from_hex(cga::LIGHT_CYAN)))),
        ("cga", Ok(Mode::Palette { palette: cga::all(), name: "CGA".to_string() })),
        ("cRaYoN", Ok(Mode::Palette { palette: crayon::all(), name: "CRAYON".to_string() })),
        (GARBAGE, Err(Error::UnknownOption(GARBAGE.to_string()))),
    ];
    for (s, want) in tt {
        assert_eq!(s.parse::<Mode>(), want);
    }

    let contents = "
0x000000
0x0000AA
0x00AA00
0x00AAAA
0xAA00AA
0xAA0000
0xAA5500
0xAAAAAA
0x555555
0x5555FF
0x55FF55
0x55FFFF
0xFF5555
0xFF55FF
0xFFFF55
0xFFFFFF";
    let want_palette: HashSet<RGB<u8>> = cga::all().iter().cloned().collect();
    if let Mode::Palette {
        palette: got_palette,
        ..
    } = Mode::with_palette("temp_cga.plt", contents).expect("should have no trouble parsing")
    {
        assert_eq!(want_palette, got_palette.iter().cloned().collect());
    } else {
        unreachable!()
    }
}

#[test]
fn modes_are_read_whatever_the_case_and_the_space_around() {
    assert_eq!(parse_mode("  Bw \n"), Ok(Mode::BlackAndWhite));
    assert_eq!(parse_mode("white"), Ok(Mode::BlackAndWhite));
    assert_eq!(parse_mode("BLACK"), Ok(Mode::BlackAndWhite));
    assert_eq!(parse_mode("\tC"), Ok(Mode::Color));
    for (name, colour) in [
        ("blue", cga::BLUE),
        ("green", cga::GREEN),
        ("cyan", cga::CYAN),
        ("red", cga::RED),
        ("magenta", cga::MAGENTA),
        ("brown", cga::BROWN),
        ("light_gray", cga::LIGHT_GRAY),
        ("gray", cga::GRAY),
        ("light_blue", cga::LIGHT_BLUE),
        ("light_green", cga::LIGHT_GREEN),
        ("light_cyan", cga::LIGHT_CYAN),
        ("light_red", cga::LIGHT_RED),
        ("light_magenta", cga::LIGHT_MAGENTA),
        ("yellow", cga::YELLOW),
    ] {
        assert_eq!(parse_mode(name), Ok(Mode::SingleColor(RGB::from_hex(colour))));
    }
    assert_eq!(parse_mode(" b w "), Err(Error::UnknownOption(" b w ".to_string())));
    assert_eq!(parse_mode(""), Err(Error::UnknownOption(String::new())));
    assert_eq!(Mode::default(), Mode::BlackAndWhite);
}

#[test]
fn modes_show_themselves() {
    assert_eq!(Mode::BlackAndWhite.label(), "bw");
    assert_eq!(Mode::Color.label(), "color");
    assert_eq!(Mode::SingleColor(RGB(0xaa, 0, 1)).label(), "single_color_aa0001");
    assert_eq!(parse_mode("cga").unwrap().label(), "custom_palette_CGA");
}

#[test]
fn built_in_palettes_have_their_colours() {
    assert_eq!(cga::all().len(), 16);
    assert_eq!(cga::all()[0], RGB(0, 0, 0));
    assert_eq!(cga::all()[6], RGB(0xaa, 0x55, 0x00));
    assert_eq!(cga::all()[15], RGB(0xff, 0xff, 0xff));
    assert_eq!(crayon::all().len(), 25);
    assert_eq!(crayon::all()[0], RGB(0xfc, 0xe8, 0x83));
    assert_eq!(crayon::all()[24], RGB(0xff, 0xff, 0xff));
}

#[test]
fn palettes_are_read_line_by_line() {
    let input = "
// BLACK
0x000000
// whitespace lines are ignored
\t\t\t       \t\t\t\t
// RED
0xFF0000
// GREEN
00ff00
";
    assert_eq!(
        faerber::palette::parse(input),
        Ok(vec![RGB(0, 0, 0), RGB(0xff, 0x00, 0x00), RGB(0x00, 0xff, 0x00)])
    );
    assert_eq!(
        faerber::palette::parse("  000001\r\n\u{a0}000002 \n\n000003"),
        Ok(vec![RGB(0, 0, 1), RGB(0, 0, 2), RGB(0, 0, 3)])
    );
}

#[test]
fn small_palettes_are_refused() {
    assert_eq!(faerber::palette::parse(""), Err(Error::PaletteTooSmall));
    assert_eq!(faerber::palette::parse("000000\nffffff"), Err(Error::PaletteTooSmall));
    assert_eq!(faerber::palette::parse("000000\n//a\n\nffffff\n"), Err(Error::PaletteTooSmall));
    assert_eq!(faerber::palette::parse("zz\nyy\n"), Err(Error::PaletteTooSmall));
    assert!(faerber::palette::parse("000000\nffffff\n010101").is_ok());
}

#[test]
fn lines_that_spell_no_colour_are_refused() {
    assert_eq!(faerber::palette::parse("000000\nffffff\nred"), Err(Error::RGBParse));
    assert_eq!(faerber::palette::parse("000000\n/ comment\nffffff\n010101"), Err(Error::RGBParse));
    assert_eq!(faerber::palette::parse("000000\n00 00 00\nffffff"), Err(Error::RGBParse));
    assert_eq!(
        Mode::with_palette("p", "000000\nffffff\nred"),
        Err(Error::RGBParse)
    );
}

#[test]
fn colour_errors_have_their_words() {
    assert_eq!(Error::UnknownOption("x".to_string()).message(), "unknown color option x\n");
    assert_eq!(
        Error::PaletteTooSmall.message(),
        "user-specified palette has 0 or 1 color; must have at least two\n"
    );
    assert_eq!(
        Error::BadFile { path: "a.plt".to_string(), err: "gone".to_string() }.message(),
        "could not load color palette from file at path \"a.plt\": gone"
    );
    assert!(Error::RGBParse.message().starts_with("could not parse to a RGB value"));
}
