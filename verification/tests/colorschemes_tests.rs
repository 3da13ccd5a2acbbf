use faerber::colorschemes::{
    parse_wezterm_colorscheme, read_colour, Color, Flavor, LibraryError, LibraryManager,
};
use faerber::table::{rank_texts, Rank, Table};

const WEZTERM: &str = r##"{
    "Catppuccin Mocha": ["#45475a", "#f38ba8", "#a6e3a1", "#f9e2af", "#89b4fa", "#f5c2e7",
                         "#94e2d5", "#bac2de", "#585b70", "#f38ba8", "#a6e3a1", "#f9e2af",
                         "#89b4fa", "#f5c2e7", "#94e2d5", "#a6adc8"],
    "Broken": ["#000000", "nothing", "ffffff"],
    "Abernathy": ["#111111", "#222222"]
}"##;

const CATPPUCCIN: &str = r###"{
    "latte": {"rosewater": "#dc8a78", "flamingo": "#dd7878", "base": "eff1f5"},
    "mocha": {"rosewater": "#f5e0dc", "flamingo": "##f2cdcd", "text": "cdd6f4", "bad": "#xyz"}
}"###;

#[test]
fn test_parse_colorscheme() {
    let mut library = LibraryManager::new();
    library.add_colorscheme("catpuccin", CATPPUCCIN).unwrap();
    println!("{library:?}");
}

#[test]
fn test_parse_wezterm_colorscheme() {
    let data = parse_wezterm_colorscheme(WEZTERM).unwrap();
    let count = data.len();
    for i in 0..count {
        println!("{}: {}", data.name_at(i), data.value_at(i).len());
    }
    println!("{count} colorschemes parsed");
    assert_eq!(count, 1);
    assert_eq!(data.name_at(0), "wezterm");
    assert_eq!(data.value_at(0).len(), 3);
}

#[test]
fn get_colorscheme() {
    let mut library = LibraryManager::new();
    library.library = parse_wezterm_colorscheme(WEZTERM).unwrap();
    let cs = library
        .library
        .get("wezterm")
        .unwrap()
        .get("Catppuccin Mocha")
        .unwrap();
    println!("{cs:?}");
}

#[test]
fn listed_colours_take_their_places_as_names() {
    let library = parse_wezterm_colorscheme(WEZTERM).unwrap();
    let schemes = library.get("wezterm").unwrap();
    let names: Vec<&str> = (0..schemes.len()).map(|i| schemes.name_at(i).as_str()).collect();
    assert_eq!(names, vec!["Abernathy", "Broken", "Catppuccin Mocha"]);
    let mocha = schemes.get("Catppuccin Mocha").unwrap();
    assert_eq!(mocha.name, "Catppuccin Mocha");
    assert!(mocha.enabled);
    assert_eq!(mocha.palette.len(), 16);
    assert_eq!(mocha.get("color0").unwrap().value, 0x45475a);
    assert_eq!(mocha.get("color15").unwrap().value, 0xa6adc8);
    assert!(mocha.get("color16").is_none());
    // The names stand in the order of their characters.
    let order: Vec<String> = mocha.get_colors().into_iter().map(|c| c.name).collect();
    assert_eq!(order[..4], ["color0", "color1", "color10", "color11"]);
    assert_eq!(order[15], "color9");
    assert_eq!(mocha.get_u32s()[2], 0xa6e3a1);
    let broken = schemes.get("Broken").unwrap();
    assert_eq!(broken.get_u32s(), vec![0x000000, 0xffffff]);
    assert!(broken.get("color1").is_none());
    assert_eq!(broken.get("color2").unwrap().value, 0xffffff);
}

#[test]
fn text_that_is_no_list_of_schemes_is_refused() {
    assert_eq!(
        parse_wezterm_colorscheme("[1, 2]").unwrap_err(),
        "failed to parse wezterm colorscheme"
    );
    assert!(parse_wezterm_colorscheme("").is_err());
    assert!(parse_wezterm_colorscheme(r#"{"a": [1]}"#).is_err());
    assert_eq!(parse_wezterm_colorscheme("{}").unwrap().get("wezterm").unwrap().len(), 0);
}

#[test]
fn a_saved_scheme_has_an_entry_for_every_flavour() {
    let scheme = LibraryManager::parse_colorscheme("catppuccin", CATPPUCCIN).unwrap();
    assert_eq!(scheme.len(), 2);
    assert_eq!(scheme.name_at(0), "latte");
    assert_eq!(scheme.name_at(1), "mocha");
    assert!(scheme.get("catppuccin").is_none());
    let latte = scheme.get("latte").unwrap();
    assert_eq!(latte.name, "latte");
    assert_eq!(latte.get_u32s(), vec![0xeff1f5, 0xdd7878, 0xdc8a78]);
    let flavour = scheme.get("mocha").unwrap();
    assert_eq!(flavour.name, "mocha");
    assert!(flavour.enabled);
    let colours = flavour.get_colors();
    let names: Vec<&str> = colours.iter().map(|c| c.name.as_str()).collect();
    assert_eq!(names, vec!["flamingo", "rosewater", "text"]);
    assert_eq!(flavour.get_u32s(), vec![0xf2cdcd, 0xf5e0dc, 0xcdd6f4]);
    assert!(colours.iter().all(|c| c.enabled));
    assert_eq!(LibraryManager::parse_colorscheme("empty", "{}").unwrap().len(), 0);
}

#[test]
fn two_flavours_are_kept_under_their_names() {
    let m = LibraryManager::parse_colorscheme(
        "s",
        "{\"a\":{\"x\":\"#000001\"},\"b\":{\"y\":\"#000002\"}}",
    )
    .unwrap();
    assert_eq!(m.len(), 2);
    assert_eq!(m.get("a").unwrap().get("x").unwrap().value, 1);
    assert_eq!(m.get("b").unwrap().get("y").unwrap().value, 2);
    assert!(m.get("a").unwrap().get("x").unwrap().enabled);
    assert!(m.get("s").is_none());
}

#[test]
fn colours_of_an_added_scheme_are_switched_by_scheme_and_flavour() {
    let mut library = LibraryManager::new();
    library.add_colorscheme("catppuccin", CATPPUCCIN).unwrap();
    assert_eq!(library.set_color("catppuccin", "mocha", "text", false), Ok(false));
    let scheme = library.get("catppuccin").unwrap();
    assert_eq!(scheme.get("mocha").unwrap().get_u32s(), vec![0xf2cdcd, 0xf5e0dc]);
    assert_eq!(scheme.get("latte").unwrap().get_u32s().len(), 3);
    assert_eq!(
        library.set_color("catppuccin", "catppuccin", "text", false),
        Err(LibraryError::NoSuchFlavor("catppuccin".to_string()))
    );
}

#[test]
fn text_that_is_no_scheme_is_refused() {
    for bad in ["", "[]", "{\"a\": 1}", "{\"a\": {\"b\": 2}}", "{\"a\": {\"b\": \"1\"}"] {
        let err = LibraryManager::parse_colorscheme("mine", bad).unwrap_err();
        assert_eq!(err, LibraryError::ParseColorSchemeError("mine".to_string()));
    }
    let mut library = LibraryManager::new();
    assert!(library.add_colorscheme("mine", "nonsense").is_err());
    assert!(library.get("mine").is_none());
    assert_eq!(library.library.len(), 0);
}

#[test]
fn schemes_are_added_and_replaced_by_name() {
    let mut library = LibraryManager::new();
    assert!(library.get("b").is_none());
    library.add_colorscheme("b", r#"{"x": {"one": "000001"}}"#).unwrap();
    library.add_colorscheme("a", r#"{"x": {"two": "000002"}}"#).unwrap();
    library.add_colorscheme("c", r#"{"x": {"three": "000003"}}"#).unwrap();
    let added = library.add_colorscheme("b", r#"{"x": {"four": "000004"}}"#).unwrap();
    assert_eq!(added.get("x").unwrap().get_u32s(), vec![4]);
    assert_eq!(library.library.len(), 3);
    assert_eq!(library.library.name_at(0), "a");
    assert_eq!(library.library.name_at(1), "b");
    assert_eq!(library.library.name_at(2), "c");
    assert_eq!(library.get("b").unwrap().get("x").unwrap().get_u32s(), vec![4]);
    assert_eq!(library.get("a").unwrap().get("x").unwrap().get_u32s(), vec![2]);
    let copy = library.clone();
    assert_eq!(copy.get("c").unwrap().get("x").unwrap().get_u32s(), vec![3]);
    assert_eq!(LibraryManager::default().library.len(), 0);
}

#[test]
fn colours_are_switched_off_and_on() {
    let mut library = LibraryManager::new();
    library.library = parse_wezterm_colorscheme(WEZTERM).unwrap();
    assert_eq!(library.set_color("wezterm", "Abernathy", "color0", false).unwrap(), false);
    let flavour = library.get("wezterm").unwrap().get("Abernathy").unwrap();
    assert_eq!(flavour.get_u32s(), vec![0x222222]);
    assert_eq!(flavour.get_colors().len(), 2);
    assert!(!flavour.get("color0").unwrap().enabled);
    assert_eq!(flavour.get("color0").unwrap().value, 0x111111);
    assert!(flavour.get("color1").unwrap().enabled);
    let other = library.get("wezterm").unwrap().get("Catppuccin Mocha").unwrap();
    assert_eq!(other.get_u32s().len(), 16);
    assert_eq!(library.set_color("wezterm", "Abernathy", "color0", true).unwrap(), true);
    let flavour = library.get("wezterm").unwrap().get("Abernathy").unwrap();
    assert_eq!(flavour.get_u32s(), vec![0x111111, 0x222222]);
}

#[test]
fn switching_names_what_is_missing() {
    let mut library = LibraryManager::new();
    library.library = parse_wezterm_colorscheme(WEZTERM).unwrap();
    let err = library.set_color("nope", "Abernathy", "color0", false).unwrap_err();
    assert_eq!(err, LibraryError::NoSuchColorscheme("nope".to_string()));
    assert_eq!(err.message(), "Colorscheme nope does not exist");
    let err = library.set_color("wezterm", "abernathy", "color0", false).unwrap_err();
    assert_eq!(err, LibraryError::NoSuchFlavor("abernathy".to_string()));
    assert_eq!(err.message(), "Flavor abernathy does not exist");
    let err = library.set_color("wezterm", "Abernathy", "color2", false).unwrap_err();
    assert_eq!(err, LibraryError::NoSuchColor("color2".to_string()));
    assert_eq!(err.message(), "Color color2 does not exist");
    let err = library.set_color("nope", "nope", "nope", false).unwrap_err();
    assert_eq!(err, LibraryError::NoSuchColorscheme("nope".to_string()));
    assert_eq!(
        library.get("wezterm").unwrap().get("Abernathy").unwrap().get_u32s(),
        vec![0x111111, 0x222222]
    );
    assert_eq!(
        LibraryError::ParseColorSchemeError("s".to_string()).message(),
        "Failed to parse scheme: s"
    );
    assert_eq!(
        LibraryError::ParseColorError("c".to_string()).message(),
        "Failed to parse color: c"
    );
}

#[test]
fn colours_are_read_in_radix_sixteen() {
    assert_eq!(read_colour("#ff00aa"), Some(0xff00aa));
    assert_eq!(read_colour("###FF00AA"), Some(0xff00aa));
    assert_eq!(read_colour("0"), Some(0));
    assert_eq!(read_colour("+1f"), Some(0x1f));
    assert_eq!(read_colour("#+1f"), Some(0x1f));
    assert_eq!(read_colour("ffffffff"), Some(u32::MAX));
    assert_eq!(read_colour("0000000000000000000fffffffff"), None);
    assert_eq!(read_colour("00000000000000000000ffffffff"), Some(u32::MAX));
    assert_eq!(read_colour("100000000"), None);
    for bad in ["", "#", "+", "-1", "++1", "+#1", "0x10", "1 ", " 1", "g", "1_0"] {
        assert_eq!(read_colour(bad), None, "{}", bad);
    }
}

#[test]
fn new_colours_and_flavours_are_switched_on() {
    let c = Color::new("red".to_string(), 0xff0000);
    assert_eq!((c.name.as_str(), c.value, c.enabled), ("red", 0xff0000, true));
    let mut palette = Table::new();
    palette.insert("red".to_string(), c.clone());
    palette.insert("blue".to_string(), Color::new("blue".to_string(), 0xff));
    let f = Flavor::new("mine".to_string(), palette);
    assert!(f.enabled);
    assert_eq!(f.name, "mine");
    assert_eq!(f.get("red").unwrap().value, 0xff0000);
    assert!(f.get("green").is_none());
    assert_eq!(f.get_u32s(), vec![0xff, 0xff0000]);
    assert_eq!(f.clone().get_u32s(), vec![0xff, 0xff0000]);
}

#[test]
fn tables_keep_their_names_in_order() {
    let mut t: Table<u32> = Table::new();
    assert_eq!(t.insert("m".to_string(), 1), None);
    assert_eq!(t.insert("a".to_string(), 2), None);
    assert_eq!(t.insert("z".to_string(), 3), None);
    assert_eq!(t.insert("ma".to_string(), 4), None);
    assert_eq!(t.insert("".to_string(), 5), None);
    assert_eq!(t.insert("m".to_string(), 6), Some(1));
    assert_eq!(t.insert("\u{e9}".to_string(), 7), None);
    let names: Vec<&str> = (0..t.len()).map(|i| t.name_at(i).as_str()).collect();
    assert_eq!(names, vec!["", "a", "m", "ma", "z", "\u{e9}"]);
    let values: Vec<u32> = (0..t.len()).map(|i| *t.value_at(i)).collect();
    assert_eq!(values, vec![5, 2, 6, 4, 3, 7]);
    assert_eq!(t.get("ma"), Some(&4));
    assert_eq!(t.get("mb"), None);
    assert_eq!(t.position("z"), Some(4));
    assert_eq!(t.position("zz"), None);
    assert_eq!(t.replace_at(1, 20), 2);
    assert_eq!(t.replace_at(5, 70), 7);
    assert_eq!(t.get("a"), Some(&20));
    assert_eq!(t.get("\u{e9}"), Some(&70));
    let names: Vec<&str> = (0..t.len()).map(|i| t.name_at(i).as_str()).collect();
    assert_eq!(names, vec!["", "a", "m", "ma", "z", "\u{e9}"]);
    assert_eq!(Table::<u32>::default().len(), 0);
}

#[test]
fn texts_are_ranked_by_their_characters() {
    assert_eq!(rank_texts("a", "b"), Rank::Before);
    assert_eq!(rank_texts("b", "a"), Rank::After);
    assert_eq!(rank_texts("a", "a"), Rank::Same);
    assert_eq!(rank_texts("", ""), Rank::Same);
    assert_eq!(rank_texts("", "a"), Rank::Before);
    assert_eq!(rank_texts("ab", "a"), Rank::After);
    assert_eq!(rank_texts("color10", "color2"), Rank::Before);
    assert_eq!(rank_texts("Z", "a"), Rank::Before);
    for (a, b) in [("a", "B"), ("z", "\u{e9}"), ("\u{ffff}", "\u{10000}"), ("x", "xy")] {
        let want = match a.cmp(b) {
            std::cmp::Ordering::Less => Rank::Before,
            std::cmp::Ordering::Equal => Rank::Same,
            std::cmp::Ordering::Greater => Rank::After,
        };
        assert_eq!(rank_texts(a, b), want);
    }
}
