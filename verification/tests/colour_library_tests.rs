use faerber::colour_library::{Flavour, FlavourColour, Library, Palette};
use faerber::text::slugify;

#[test]
fn the_presets_are_four_palettes() {
    let library = Library::default();
    let names: Vec<&str> = library.palettes.iter().map(|p| p.name.as_str()).collect();
    assert_eq!(names, vec!["Catppuccin", "Dracula", "Dracula PRO", "Nord"]);
    let flavours: Vec<usize> = library.palettes.iter().map(|p| p.flavours.len()).collect();
    assert_eq!(flavours, vec![4, 1, 6, 4]);
    let mocha = library.get_palette("catppuccin").unwrap().get_flavour("MOCHA").unwrap();
    assert_eq!(mocha.name, "Mocha");
    assert_eq!(mocha.colours.len(), 26);
    assert_eq!(mocha.colours[0], FlavourColour { colour: 0xF5E0DC, enabled: true });
    assert_eq!(mocha.colours[25], FlavourColour { colour: 0x11111B, enabled: true });
    let helsing = library.get_palette("Dracula PRO").unwrap().get_flavour("van helsing").unwrap();
    assert_eq!(helsing.colours[10].colour, 0x0b0d0f);
    let aurora = library.get_palette("NORD").unwrap().get_flavour("Aurora").unwrap();
    assert_eq!(
        aurora.get_hex(),
        vec!["#bf616a", "#d08770", "#ebcb8b", "#a3be8c", "#b48ead"]
    );
    assert!(library.palettes.iter().all(|p| p.flavours.iter().all(|f| f.colours.iter().all(|c| c.enabled))));
}

#[test]
fn palettes_are_found_whatever_the_case() {
    let mut library = Library::new();
    assert!(library.get_palette("a").is_none());
    library.add_palette(Palette::new("Stra\u{df}e", vec![]));
    library.add_palette(Palette::new("\u{c9}t\u{c9}", vec![Flavour::new("One", vec![1])]));
    library.add_palette(Palette::new("\u{e9}T\u{e9}", vec![Flavour::new("Two", vec![2])]));
    assert_eq!(library.get_palette("\u{e9}t\u{e9}").unwrap().flavours[0].name, "One");
    assert_eq!(library.get_palette("STRA\u{df}E").unwrap().name, "Stra\u{df}e");
    assert!(library.get_palette("strasse").is_none());
    assert!(library.get_palette("").is_none());
    let p = Palette::new("p", vec![Flavour::new("one", vec![]), Flavour::new("ONE", vec![7])]);
    assert_eq!(p.get_flavour("One").unwrap().colours.len(), 0);
    assert!(p.get_flavour("two").is_none());
}

#[test]
fn palettes_are_removed_by_their_exact_name() {
    let mut library = Library::new();
    for name in ["a", "b", "a", "A", "c", "a"] {
        library.add_palette(Palette::new(name, vec![]));
    }
    library.remove_palette("a");
    let names: Vec<&str> = library.palettes.iter().map(|p| p.name.as_str()).collect();
    assert_eq!(names, vec!["b", "A", "c"]);
    library.remove_palette("missing");
    assert_eq!(library.palettes.len(), 3);
    library.remove_palette("c");
    library.remove_palette("b");
    library.remove_palette("A");
    assert!(library.palettes.is_empty());
    library.remove_palette("A");
    assert!(library.palettes.is_empty());
}

#[test]
fn only_enabled_colours_are_written() {
    let mut f = Flavour::new("f", vec![0x000000, 0x00000a, 0xabcdef, 0x1000000, 0xffffffff]);
    assert_eq!(f.name, "f");
    assert!(f.colours.iter().all(|c| c.enabled));
    assert_eq!(
        f.get_hex(),
        vec!["#000000", "#00000a", "#abcdef", "#1000000", "#ffffffff"]
    );
    f.colours[1].enabled = false;
    f.colours[3].enabled = false;
    assert_eq!(f.get_hex(), vec!["#000000", "#abcdef", "#ffffffff"]);
    assert_eq!(Flavour::new("none", vec![]).get_hex(), Vec::<String>::new());
    assert_eq!(Flavour::new("wide", vec![0x12345678]).get_hex(), vec!["#12345678"]);
}

#[test]
fn slugs_are_lower_case_with_underscores() {
    assert_eq!(slugify("Catppuccin Mocha"), "_catppuccin_mocha");
    assert_eq!(slugify("a_b c"), "_a_b_c");
    assert_eq!(slugify(""), "_");
    assert_eq!(slugify("\u{c9}T\u{c9}  x"), "_\u{e9}t\u{e9}__x");
}
