//! A library of palettes: each palette has flavours, each flavour colours
//! that can be switched on and off.

use crate::hex::{lower_hex6, push_lower_hex6};
use crate::text::{chars_of, lowercase, owned, to_lowercase};
use vstd::prelude::*;

verus! {

/// A colour `0xRRGGBB` of a flavour, and whether it takes part in conversions.
#[derive(Debug, Clone, Copy, PartialEq, Eq)]
pub struct FlavourColour {
    pub colour: u32,
    pub enabled: bool,
}

/// A flavour: a name and colours.
#[derive(Debug, Clone)]
pub struct Flavour {
    pub name: String,
    pub colours: Vec<FlavourColour>,
}

/// A palette: a name and flavours.
#[derive(Debug, Clone)]
pub struct Palette {
    pub name: String,
    pub flavours: Vec<Flavour>,
}

/// A library: palettes in the order in which they came.
#[derive(Debug, Clone)]
pub struct Library {
    pub palettes: Vec<Palette>,
}

/// A flavour by its contents.
pub struct FlavourView {
    pub name: Seq<char>,
    pub colours: Seq<FlavourColour>,
}

/// A palette by its contents.
pub struct PaletteView {
    pub name: Seq<char>,
    pub flavours: Seq<FlavourView>,
}

impl View for Flavour {
    type V = FlavourView;

    open spec fn view(&self) -> FlavourView {
        FlavourView { name: self.name@, colours: self.colours@ }
    }
}

impl View for Palette {
    type V = PaletteView;

    open spec fn view(&self) -> PaletteView {
        PaletteView {
            name: self.name@,
            flavours: Seq::new(self.flavours@.len(), |i: int| self.flavours@[i]@),
        }
    }
}

impl View for Library {
    type V = Seq<PaletteView>;

    open spec fn view(&self) -> Seq<PaletteView> {
        Seq::new(self.palettes@.len(), |i: int| self.palettes@[i]@)
    }
}

/// The place of the first name among `names` that equals `name` when both
/// are in lower case, if there is one.
pub open spec fn first_named(names: Seq<Seq<char>>, name: Seq<char>) -> Option<int>
    decreases names.len(),
{
    if names.len() == 0 {
        None
    } else {
        match first_named(names.drop_last(), name) {
            Some(i) => Some(i),
            None => if lowercase(names.last()) == lowercase(name) {
                Some(names.len() - 1)
            } else {
                None
            },
        }
    }
}

/// The names of the palettes of a library.
pub open spec fn palette_names(palettes: Seq<PaletteView>) -> Seq<Seq<char>> {
    Seq::new(palettes.len(), |i: int| palettes[i].name)
}

/// The names of the flavours of a palette.
pub open spec fn flavour_names(flavours: Seq<FlavourView>) -> Seq<Seq<char>> {
    Seq::new(flavours.len(), |i: int| flavours[i].name)
}

/// The palettes whose name is not `name`, in their order.
pub open spec fn without(palettes: Seq<PaletteView>, name: Seq<char>) -> Seq<PaletteView>
    decreases palettes.len(),
{
    if palettes.len() == 0 {
        palettes
    } else if palettes.last().name == name {
        without(palettes.drop_last(), name)
    } else {
        without(palettes.drop_last(), name).push(palettes.last())
    }
}

/// The colours `colours`, all switched on.
pub open spec fn all_enabled(colours: Seq<u32>) -> Seq<FlavourColour> {
    Seq::new(colours.len(), |i: int| FlavourColour { colour: colours[i], enabled: true })
}

/// The colours that are switched on, each as `#` and at least six
/// lower-case hexadecimal digits.
pub open spec fn enabled_hex(colours: Seq<FlavourColour>) -> Seq<Seq<char>>
    decreases colours.len(),
{
    if colours.len() == 0 {
        Seq::empty()
    } else if colours.last().enabled {
        enabled_hex(colours.drop_last()).push(seq!['#'] + lower_hex6(colours.last().colour))
    } else {
        enabled_hex(colours.drop_last())
    }
}

/// The texts of a run of strings.
pub open spec fn texts(strings: Seq<String>) -> Seq<Seq<char>> {
    Seq::new(strings.len(), |i: int| strings[i]@)
}

impl Library {
    /// A library without palettes.
    pub fn new() -> (library: Library)
        ensures
            library@.len() == 0,
    {
        Library { palettes: Vec::new() }
    }

    /// Adds a palette after those that are there.
    pub fn add_palette(&mut self, palette: Palette)
        ensures
            final(self)@ == old(self)@.push(palette@),
    {
        self.palettes.push(palette);
        assert(self@ =~= old(self)@.push(palette@));
    }

    /// Removes every palette whose name is `name`.
    pub fn remove_palette(&mut self, name: &str)
        ensures
            final(self)@ == without(old(self)@, name@),
    {
        broadcast use vstd::std_specs::vec::axiom_spec_into_iter;

        let ghost all = self@;
        let mut rest: Vec<Palette> = Vec::new();
        std::mem::swap(&mut rest, &mut self.palettes);
        let ghost source = rest@;
        let mut kept: Vec<Palette> = Vec::new();
        proof {
            assert(all =~= views(source));
            assert(all.take(0) =~= Seq::<PaletteView>::empty());
            assert(views(kept@) =~= without(all.take(0), name@));
        }
        for p in it: rest.into_iter()
            invariant
                it.seq() == source,
                all == views(source),
                views(kept@) == without(all.take(it.index()), name@),
        {
            let ghost before = views(kept@);
            proof {
                assert(all.take(it.index() + 1).drop_last() =~= all.take(it.index()));
                assert(all.take(it.index() + 1).last() == p@);
            }
            if !same_text(p.name.as_str(), name) {
                kept.push(p);
                proof {
                    assert(views(kept@) =~= before.push(p@));
                }
            }
        }
        self.palettes = kept;
        proof {
            assert(all.take(all.len() as int) =~= all);
            assert(self@ =~= views(kept@));
        }
    }

    /// The first palette whose name is `name` when case is left aside.
    pub fn get_palette(&self, name: &str) -> (r: Option<&Palette>)
        ensures
            match r {
                Some(p) => first_named(palette_names(self@), name@) is Some && p@
                    == self@[first_named(palette_names(self@), name@).unwrap()],
                None => first_named(palette_names(self@), name@) is None,
            },
    {
        let wanted = to_lowercase(name);
        let ghost names = palette_names(self@);
        let mut i: usize = 0;
        assert(names.take(0) =~= Seq::<Seq<char>>::empty());
        while i < self.palettes.len()
            invariant
                i <= self.palettes.len(),
                names == palette_names(self@),
                wanted@ == lowercase(name@),
                first_named(names.take(i as int), name@) is None,
            decreases self.palettes.len() - i,
        {
            let lower = to_lowercase(self.palettes[i].name.as_str());
            proof {
                assert(names.take(i + 1).drop_last() =~= names.take(i as int));
                assert(names.take(i + 1).last() == self.palettes@[i as int].name@);
            }
            if same_text(lower.as_str(), wanted.as_str()) {
                proof {
                    lemma_first_named_extends(names, name@, i + 1);
                }
                return Some(&self.palettes[i]);
            }
            i = i + 1;
        }
        proof {
            assert(names.take(self.palettes.len() as int) =~= names);
        }
        None
    }
}

/// The palettes of a run by their contents.
pub open spec fn views(palettes: Seq<Palette>) -> Seq<PaletteView> {
    Seq::new(palettes.len(), |i: int| palettes[i]@)
}

/// A name found among the first names is found among all of them, at the
/// same place.
pub proof fn lemma_first_named_extends(names: Seq<Seq<char>>, name: Seq<char>, upto: int)
    requires
        0 <= upto <= names.len(),
        first_named(names.take(upto), name) is Some,
    ensures
        first_named(names, name) == first_named(names.take(upto), name),
    decreases names.len() - upto,
{
    if upto < names.len() {
        assert(names.take(upto + 1).drop_last() =~= names.take(upto));
        lemma_first_named_extends(names, name, upto + 1);
    } else {
        assert(names.take(upto) =~= names);
    }
}

/// Whether two texts are the same.
pub fn same_text(a: &str, b: &str) -> (same: bool)
    ensures
        same == (a@ == b@),
{
    let x = chars_of(a);
    let y = chars_of(b);
    if x.len() != y.len() {
        return false;
    }
    let mut i: usize = 0;
    while i < x.len()
        invariant
            x.len() == y.len(),
            i <= x.len(),
            x@ == a@,
            y@ == b@,
            forall|k: int| 0 <= k < i ==> x@[k] == y@[k],
        decreases x.len() - i,
    {
        if x[i] != y[i] {
            return false;
        }
        i = i + 1;
    }
    assert(x@ =~= y@);
    true
}

impl Palette {
    /// A palette of this name with these flavours.
    pub fn new(name: &str, flavours: Vec<Flavour>) -> (p: Self)
        ensures
            p.name@ == name@,
            p.flavours == flavours,
    {
        Palette { name: owned(name), flavours }
    }

    /// The first flavour whose name is `flavour` when case is left aside.
    pub fn get_flavour(&self, flavour: &str) -> (r: Option<&Flavour>)
        ensures
            match r {
                Some(f) => first_named(flavour_names(self@.flavours), flavour@) is Some && f@
                    == self@.flavours[first_named(flavour_names(self@.flavours), flavour@).unwrap()],
                None => first_named(flavour_names(self@.flavours), flavour@) is None,
            },
    {
        let wanted = to_lowercase(flavour);
        let ghost names = flavour_names(self@.flavours);
        let mut i: usize = 0;
        assert(names.take(0) =~= Seq::<Seq<char>>::empty());
        while i < self.flavours.len()
            invariant
                i <= self.flavours.len(),
                names == flavour_names(self@.flavours),
                wanted@ == lowercase(flavour@),
                first_named(names.take(i as int), flavour@) is None,
            decreases self.flavours.len() - i,
        {
            let lower = to_lowercase(self.flavours[i].name.as_str());
            proof {
                assert(names.take(i + 1).drop_last() =~= names.take(i as int));
                assert(names.take(i + 1).last() == self.flavours@[i as int].name@);
            }
            if same_text(lower.as_str(), wanted.as_str()) {
                proof {
                    lemma_first_named_extends(names, flavour@, i + 1);
                }
                return Some(&self.flavours[i]);
            }
            i = i + 1;
        }
        proof {
            assert(names.take(self.flavours.len() as int) =~= names);
        }
        None
    }
}

impl Flavour {
    /// A flavour of this name with these colours, all switched on.
    pub fn new(name: &str, colours: Vec<u32>) -> (f: Self)
        ensures
            f@.name == name@,
            f@.colours == all_enabled(colours@),
    {
        let mut list: Vec<FlavourColour> = Vec::new();
        let mut i: usize = 0;
        while i < colours.len()
            invariant
                i <= colours.len(),
                list@.len() == i,
                forall|k: int|
                    0 <= k < i ==> list@[k] == (FlavourColour { colour: colours@[k], enabled: true }),
            decreases colours.len() - i,
        {
            list.push(FlavourColour { colour: colours[i], enabled: true });
            i = i + 1;
        }
        assert(list@ =~= all_enabled(colours@));
        Flavour { name: owned(name), colours: list }
    }

    /// The colours that are switched on, each as `#` and six hexadecimal digits.
    pub fn get_hex(&self) -> (hex: Vec<String>)
        ensures
            texts(hex@) == enabled_hex(self@.colours),
    {
        let mut hex: Vec<String> = Vec::new();
        let mut i: usize = 0;
        assert(self.colours@.take(0) =~= Seq::<FlavourColour>::empty());
        assert(texts(hex@) =~= enabled_hex(self.colours@.take(0)));
        while i < self.colours.len()
            invariant
                i <= self.colours.len(),
                texts(hex@) == enabled_hex(self.colours@.take(i as int)),
            decreases self.colours.len() - i,
        {
            let c = self.colours[i];
            let ghost before = texts(hex@);
            proof {
                assert(self.colours@.take(i + 1).drop_last() =~= self.colours@.take(i as int));
                assert(self.colours@.take(i + 1).last() == c);
            }
            if c.enabled {
                let mut s = String::new();
                s.push('#');
                push_lower_hex6(&mut s, c.colour);
                proof {
                    assert(s@ =~= seq!['#'] + lower_hex6(c.colour));
                }
                hex.push(s);
                proof {
                    assert(texts(hex@) =~= before.push(seq!['#'] + lower_hex6(c.colour)));
                }
            }
            i = i + 1;
        }
        assert(self.colours@.take(self.colours.len() as int) =~= self.colours@);
        hex
    }
}

/// A flavour of this name with the colours of `colours`, all switched on.
pub fn preset<const N: usize>(name: &str, colours: &[u32; N]) -> (f: Flavour)
    ensures
        f@.name == name@,
        f@.colours == all_enabled(colours@),
{
    let mut list: Vec<u32> = Vec::new();
    let mut i: usize = 0;
    while i < N
        invariant
            i <= N,
            list@ == colours@.take(i as int),
        decreases N - i,
    {
        list.push(colours[i]);
        i = i + 1;
        assert(list@ =~= colours@.take(i as int));
    }
    assert(colours@.take(N as int) =~= colours@);
    Flavour::new(name, list)
}

/// The colours of the flavour Latte of Catppuccin.
pub const CATPPUCCIN_LATTE: [u32; 26] = [
    0xdc8a78, 0xdd7878, 0xea76cb, 0x8839ef, 0xd20f39, 0xe64553, 0xfe640b, 0xdf8e1d, 0x40a02b,
    0x179299, 0x04a5e5, 0x209fb5, 0x1e66f5, 0x7287fd, 0x4c4f69, 0x5c5f77, 0x6c6f85, 0x7c7f93,
    0x8c8fa1, 0x9ca0b0, 0xacb0be, 0xbcc0cc, 0xccd0da, 0xdce0e8, 0xe6e9ef, 0xeff1f5,
];

/// The colours of the flavour Frappe of Catppuccin.
pub const CATPPUCCIN_FRAPPE: [u32; 26] = [
    0xf2d5cf, 0xeebebe, 0xf4b8e4, 0xca9ee6, 0xe78284, 0xea999c, 0xef9f76, 0xe5c890, 0xa6d189,
    0x81c8be, 0x99d1db, 0x85c1dc, 0x8caaee, 0xbabbf1, 0xc6d0f5, 0xb5bfe2, 0xa5adce, 0x949cbb,
    0x838ba7, 0x737994, 0x626880, 0x51576d, 0x414559, 0x303446, 0x292c3c, 0x232634,
];

/// The colours of the flavour Macchiato of Catppuccin.
pub const CATPPUCCIN_MACCHIATO: [u32; 26] = [
    0xf4dbd6, 0xf0c6c6, 0xf5bde6, 0xc6a0f6, 0xed8796, 0xee99a0, 0xf5a97f, 0xeed49f, 0xa6da95,
    0x8bd5ca, 0x91d7e3, 0x7dc4e4, 0x8aadf4, 0xb7bdf8, 0xcad3f5, 0xb8c0e0, 0xa5adcb, 0x939ab7,
    0x8087a2, 0x6e738d, 0x5b6078, 0x494d64, 0x363a4f, 0x24273a, 0x1e2030, 0x181926,
];

/// The colours of the flavour Mocha of Catppuccin.
pub const CATPPUCCIN_MOCHA: [u32; 26] = [
    0xf5e0dc, 0xf2cdcd, 0xf5c2e7, 0xcba6f7, 0xf38ba8, 0xeba0ac, 0xfab387, 0xf9e2af, 0xa6e3a1,
    0x94e2d5, 0x89dceb, 0x74c7ec, 0x89b4fa, 0xb4befe, 0xcdd6f4, 0xbac2de, 0xa6adc8, 0x9399b2,
    0x7f849c, 0x6c7086, 0x585b70, 0x45475a, 0x313244, 0x1e1e2e, 0x181825, 0x11111b,
];

/// The colours of the flavour Classic of Dracula.
pub const DRACULA_CLASSIC: [u32; 11] = [
    0x282a36, 0x44475a, 0xf8f8f2, 0x6272a4, 0x8be9fd, 0x50fa7b, 0xffb86c, 0xff79c6, 0xbd93f9,
    0xff5555, 0xf1fa8c,
];

/// The colours of the flavour Default of Dracula PRO.
pub const DRACULA_PRO_DEFAULT: [u32; 11] = [
    0xffff80, 0xff9580, 0x80ffea, 0xff80bf, 0xffca80, 0x8aff80, 0x9580ff, 0xf8f8f2, 0x454158,
    0x7970a9, 0x22212c,
];

/// The colours of the flavour Blade of Dracula PRO.
pub const DRACULA_PRO_BLADE: [u32; 11] = [
    0xffff80, 0xff9580, 0x80ffea, 0xff80bf, 0xffca80, 0x8aff80, 0x9580ff, 0xf8f8f2, 0x415854,
    0x70a99f, 0x212c2a,
];

/// The colours of the flavour Buffy of Dracula PRO.
pub const DRACULA_PRO_BUFFY: [u32; 11] = [
    0xffff80, 0xff9580, 0x80ffea, 0xff80bf, 0xffca80, 0x8aff80, 0x9580ff, 0xf8f8f2, 0x544158,
    0x9f70a9, 0x2a212c,
];

/// The colours of the flavour Lincoln of Dracula PRO.
pub const DRACULA_PRO_LINCOLN: [u32; 11] = [
    0xffff80, 0xff9580, 0x80ffea, 0xff80bf, 0xffca80, 0x8aff80, 0x9580ff, 0xf8f8f2, 0x585441,
    0xa99f70, 0x2c2a21,
];

/// The colours of the flavour Morbius of Dracula PRO.
pub const DRACULA_PRO_MORBIUS: [u32; 11] = [
    0xffff80, 0xff9580, 0x80ffea, 0xff80bf, 0xffca80, 0x8aff80, 0x9580ff, 0xf8f8f2, 0x584145,
    0xa97079, 0x2c2122,
];

/// The colours of the flavour Van Helsing of Dracula PRO.
pub const DRACULA_PRO_VAN_HELSING: [u32; 11] = [
    0xffff80, 0xff9580, 0x80ffea, 0xff80bf, 0xffca80, 0x8aff80, 0x9580ff, 0xf8f8f2, 0x414d58,
    0x708ca9, 0x0b0d0f,
];

/// The colours of the flavour Polar Night of Nord.
pub const NORD_POLAR_NIGHT: [u32; 4] = [
    0x2e3440, 0x3b4252, 0x434c5e, 0x4c566a,
];

/// The colours of the flavour Snow Storm of Nord.
pub const NORD_SNOW_STORM: [u32; 3] = [
    0xd8dee9, 0xe5e9f0, 0xeceff4,
];

/// The colours of the flavour Frost of Nord.
pub const NORD_FROST: [u32; 4] = [
    0x8fbcbb, 0x88c0d0, 0x81a1c1, 0x5e81ac,
];

/// The colours of the flavour Aurora of Nord.
pub const NORD_AURORA: [u32; 5] = [
    0xbf616a, 0xd08770, 0xebcb8b, 0xa3be8c, 0xb48ead,
];

/// The palettes that every library of presets holds.
pub open spec fn presets() -> Seq<PaletteView> {
    seq![
        PaletteView {
            name: "Catppuccin"@,
            flavours: seq![
                FlavourView { name: "Latte"@, colours: all_enabled(CATPPUCCIN_LATTE@) },
                FlavourView { name: "Frappe"@, colours: all_enabled(CATPPUCCIN_FRAPPE@) },
                FlavourView { name: "Macchiato"@, colours: all_enabled(CATPPUCCIN_MACCHIATO@) },
                FlavourView { name: "Mocha"@, colours: all_enabled(CATPPUCCIN_MOCHA@) },
            ],
        },
        PaletteView {
            name: "Dracula"@,
            flavours: seq![
                FlavourView { name: "Classic"@, colours: all_enabled(DRACULA_CLASSIC@) },
            ],
        },
        PaletteView {
            name: "Dracula PRO"@,
            flavours: seq![
                FlavourView { name: "Default"@, colours: all_enabled(DRACULA_PRO_DEFAULT@) },
                FlavourView { name: "Blade"@, colours: all_enabled(DRACULA_PRO_BLADE@) },
                FlavourView { name: "Buffy"@, colours: all_enabled(DRACULA_PRO_BUFFY@) },
                FlavourView { name: "Lincoln"@, colours: all_enabled(DRACULA_PRO_LINCOLN@) },
                FlavourView { name: "Morbius"@, colours: all_enabled(DRACULA_PRO_MORBIUS@) },
                FlavourView { name: "Van Helsing"@, colours: all_enabled(DRACULA_PRO_VAN_HELSING@) },
            ],
        },
        PaletteView {
            name: "Nord"@,
            flavours: seq![
                FlavourView { name: "Polar Night"@, colours: all_enabled(NORD_POLAR_NIGHT@) },
                FlavourView { name: "Snow Storm"@, colours: all_enabled(NORD_SNOW_STORM@) },
                FlavourView { name: "Frost"@, colours: all_enabled(NORD_FROST@) },
                FlavourView { name: "Aurora"@, colours: all_enabled(NORD_AURORA@) },
            ],
        },
    ]
}

/// The preset palette Catppuccin.
pub fn catppuccin() -> (p: Palette)
    ensures
        p@ == presets()[0],
{
    let mut flavours: Vec<Flavour> = Vec::new();
    flavours.push(preset("Latte", &CATPPUCCIN_LATTE));
    flavours.push(preset("Frappe", &CATPPUCCIN_FRAPPE));
    flavours.push(preset("Macchiato", &CATPPUCCIN_MACCHIATO));
    flavours.push(preset("Mocha", &CATPPUCCIN_MOCHA));
    let p = Palette::new("Catppuccin", flavours);
    assert(p@.flavours =~= presets()[0].flavours);
    p
}

/// The preset palette Dracula.
pub fn dracula() -> (p: Palette)
    ensures
        p@ == presets()[1],
{
    let mut flavours: Vec<Flavour> = Vec::new();
    flavours.push(preset("Classic", &DRACULA_CLASSIC));
    let p = Palette::new("Dracula", flavours);
    assert(p@.flavours =~= presets()[1].flavours);
    p
}

/// The preset palette Dracula PRO.
pub fn dracula_pro() -> (p: Palette)
    ensures
        p@ == presets()[2],
{
    let mut flavours: Vec<Flavour> = Vec::new();
    flavours.push(preset("Default", &DRACULA_PRO_DEFAULT));
    flavours.push(preset("Blade", &DRACULA_PRO_BLADE));
    flavours.push(preset("Buffy", &DRACULA_PRO_BUFFY));
    flavours.push(preset("Lincoln", &DRACULA_PRO_LINCOLN));
    flavours.push(preset("Morbius", &DRACULA_PRO_MORBIUS));
    flavours.push(preset("Van Helsing", &DRACULA_PRO_VAN_HELSING));
    let p = Palette::new("Dracula PRO", flavours);
    assert(p@.flavours =~= presets()[2].flavours);
    p
}

/// The preset palette Nord.
pub fn nord() -> (p: Palette)
    ensures
        p@ == presets()[3],
{
    let mut flavours: Vec<Flavour> = Vec::new();
    flavours.push(preset("Polar Night", &NORD_POLAR_NIGHT));
    flavours.push(preset("Snow Storm", &NORD_SNOW_STORM));
    flavours.push(preset("Frost", &NORD_FROST));
    flavours.push(preset("Aurora", &NORD_AURORA));
    let p = Palette::new("Nord", flavours);
    assert(p@.flavours =~= presets()[3].flavours);
    p
}

impl Default for Library {
    /// The library of presets.
    fn default() -> (library: Self)
        ensures
            library@ == presets(),
    {
        let mut palettes: Vec<Palette> = Vec::new();
        palettes.push(catppuccin());
        palettes.push(dracula());
        palettes.push(dracula_pro());
        palettes.push(nord());
        let library = Library { palettes };
        assert(library@ =~= presets());
        library
    }
}

} // verus!
