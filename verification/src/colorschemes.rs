//! Colour schemes as they are kept and chosen: a library of schemes, each
//! with flavours, each with named colours that can be switched on and off.

use crate::hex::{parse_radix16, radix16_u32};
use crate::table::{place_of, put, value_of, Duplicate, Table};
use crate::text::{chars_of, decimal, joined, owned, push_decimal};
use std::collections::BTreeMap;
use vstd::prelude::*;

verus! {

/// A named colour `0xRRGGBB`, and whether it takes part in conversions.
#[derive(Default, Debug)]
pub struct Color {
    pub name: String,
    pub value: u32,
    pub enabled: bool,
}

/// A colour by its contents.
pub struct ColorView {
    pub name: Seq<char>,
    pub value: u32,
    pub enabled: bool,
}

impl View for Color {
    type V = ColorView;

    open spec fn view(&self) -> ColorView {
        ColorView { name: self.name@, value: self.value, enabled: self.enabled }
    }
}

/// The colours of a flavour, by their names.
pub type Palette = Table<Color>;

/// A flavour: a name, colours, and whether it is switched on.
#[derive(Default, Debug)]
pub struct Flavor {
    pub name: String,
    pub palette: Palette,
    pub enabled: bool,
}

/// A flavour by its contents.
pub struct FlavorView {
    pub name: Seq<char>,
    pub palette: Seq<(Seq<char>, ColorView)>,
    pub enabled: bool,
}

impl View for Flavor {
    type V = FlavorView;

    open spec fn view(&self) -> FlavorView {
        FlavorView { name: self.name@, palette: self.palette@, enabled: self.enabled }
    }
}

/// The flavours of a scheme, by their names.
pub type ColorScheme = Table<Flavor>;

/// The schemes of a library, by their names.
pub type Library = Table<ColorScheme>;

/// A library of colour schemes.
#[derive(Debug)]
pub struct LibraryManager {
    pub library: Library,
}

/// What can go wrong in a library.
#[derive(Debug, Clone, PartialEq, Eq)]
pub enum LibraryError {
    NoSuchColorscheme(String),
    NoSuchFlavor(String),
    NoSuchColor(String),
    ParseColorSchemeError(String),
    ParseColorError(String),
}

/// An error by its kind and the name that it holds.
pub enum LibraryErrorView {
    NoSuchColorscheme(Seq<char>),
    NoSuchFlavor(Seq<char>),
    NoSuchColor(Seq<char>),
    ParseColorSchemeError(Seq<char>),
    ParseColorError(Seq<char>),
}

impl View for LibraryError {
    type V = LibraryErrorView;

    open spec fn view(&self) -> LibraryErrorView {
        match *self {
            LibraryError::NoSuchColorscheme(n) => LibraryErrorView::NoSuchColorscheme(n@),
            LibraryError::NoSuchFlavor(n) => LibraryErrorView::NoSuchFlavor(n@),
            LibraryError::NoSuchColor(n) => LibraryErrorView::NoSuchColor(n@),
            LibraryError::ParseColorSchemeError(n) => LibraryErrorView::ParseColorSchemeError(n@),
            LibraryError::ParseColorError(n) => LibraryErrorView::ParseColorError(n@),
        }
    }
}

impl LibraryError {
    /// The words of the error.
    pub fn message(&self) -> (s: String)
        ensures
            s@ == match self@ {
                LibraryErrorView::NoSuchColorscheme(n) => "Colorscheme "@ + n + " does not exist"@,
                LibraryErrorView::NoSuchFlavor(n) => "Flavor "@ + n + " does not exist"@,
                LibraryErrorView::NoSuchColor(n) => "Color "@ + n + " does not exist"@,
                LibraryErrorView::ParseColorSchemeError(n) => "Failed to parse scheme: "@ + n,
                LibraryErrorView::ParseColorError(n) => "Failed to parse color: "@ + n,
            },
    {
        match self {
            LibraryError::NoSuchColorscheme(n) => {
                let head = joined("Colorscheme ", n.as_str());
                joined(head.as_str(), " does not exist")
            },
            LibraryError::NoSuchFlavor(n) => {
                let head = joined("Flavor ", n.as_str());
                joined(head.as_str(), " does not exist")
            },
            LibraryError::NoSuchColor(n) => {
                let head = joined("Color ", n.as_str());
                joined(head.as_str(), " does not exist")
            },
            LibraryError::ParseColorSchemeError(n) => joined("Failed to parse scheme: ", n.as_str()),
            LibraryError::ParseColorError(n) => joined("Failed to parse color: ", n.as_str()),
        }
    }
}

impl Duplicate for Color {
    fn duplicate(&self) -> (copy: Self) {
        Color { name: self.name.clone(), value: self.value, enabled: self.enabled }
    }
}

impl Clone for Color {
    fn clone(&self) -> (c: Self)
        ensures
            c@ == self@,
    {
        self.duplicate()
    }
}

impl Duplicate for Flavor {
    fn duplicate(&self) -> (copy: Self) {
        Flavor {
            name: self.name.clone(),
            palette: self.palette.duplicate(),
            enabled: self.enabled,
        }
    }
}

impl Clone for Flavor {
    fn clone(&self) -> (f: Self)
        ensures
            f@ == self@,
    {
        self.duplicate()
    }
}

impl Clone for LibraryManager {
    fn clone(&self) -> (m: Self)
        ensures
            m@ == self@,
    {
        LibraryManager { library: self.library.duplicate() }
    }
}

impl View for LibraryManager {
    type V = Seq<(Seq<char>, Seq<(Seq<char>, FlavorView)>)>;

    /// The schemes, in the order of their names.
    open spec fn view(&self) -> Seq<(Seq<char>, Seq<(Seq<char>, FlavorView)>)> {
        self.library@
    }
}

impl Color {
    /// A colour of this name and value, switched on.
    pub fn new(name: String, value: u32) -> (c: Self)
        ensures
            c@ == (ColorView { name: name@, value, enabled: true }),
    {
        Color { name, value, enabled: true }
    }
}

/// The values of the colours that are switched on, in the order of their names.
pub open spec fn enabled_values(palette: Seq<(Seq<char>, ColorView)>) -> Seq<u32>
    decreases palette.len(),
{
    if palette.len() == 0 {
        Seq::empty()
    } else if palette.last().1.enabled {
        enabled_values(palette.drop_last()).push(palette.last().1.value)
    } else {
        enabled_values(palette.drop_last())
    }
}

/// The contents of a run of colours.
pub open spec fn color_views(colors: Seq<Color>) -> Seq<ColorView> {
    Seq::new(colors.len(), |i: int| colors[i]@)
}

impl Flavor {
    /// A flavour of this name with these colours, switched on.
    pub fn new(name: String, palette: Palette) -> (f: Self)
        ensures
            f@ == (FlavorView { name: name@, palette: palette@, enabled: true }),
    {
        Flavor { name, palette, enabled: true }
    }

    /// The colour named `name`, if the flavour has one.
    pub fn get(&self, name: &str) -> (r: Option<&Color>)
        ensures
            match r {
                Some(c) => value_of(self@.palette, name@) == Some(c@),
                None => value_of(self@.palette, name@) is None,
            },
    {
        self.palette.get(name)
    }

    /// The colours, in the order of their names.
    pub fn get_colors(&self) -> (colors: Vec<Color>)
        ensures
            color_views(colors@) == crate::table::values_of(self@.palette),
    {
        let mut colors: Vec<Color> = Vec::new();
        let n = self.palette.len();
        let mut i: usize = 0;
        while i < n
            invariant
                i <= n,
                n == self.palette@.len(),
                colors@.len() == i,
                forall|k: int| 0 <= k < i ==> colors@[k]@ == self.palette@[k].1,
            decreases n - i,
        {
            colors.push(self.palette.value_at(i).clone());
            i = i + 1;
        }
        assert(color_views(colors@) =~= crate::table::values_of(self@.palette));
        colors
    }

    /// The values of the colours that are switched on, in the order of their names.
    pub fn get_u32s(&self) -> (values: Vec<u32>)
        ensures
            values@ == enabled_values(self@.palette),
    {
        let mut values: Vec<u32> = Vec::new();
        let n = self.palette.len();
        let mut i: usize = 0;
        assert(self.palette@.take(0) =~= Seq::<(Seq<char>, ColorView)>::empty());
        while i < n
            invariant
                i <= n,
                n == self.palette@.len(),
                values@ == enabled_values(self.palette@.take(i as int)),
            decreases n - i,
        {
            let c = self.palette.value_at(i);
            proof {
                assert(self.palette@.take(i + 1).drop_last() =~= self.palette@.take(i as int));
                assert(self.palette@.take(i + 1).last() == self.palette@[i as int]);
            }
            if c.enabled {
                values.push(c.value);
            }
            i = i + 1;
        }
        assert(self.palette@.take(n as int) =~= self.palette@);
        values
    }
}

/// `s` without the `#` at its start, however many there are.
pub open spec fn strip_hashes(s: Seq<char>) -> Seq<char>
    decreases s.len(),
{
    if s.len() > 0 && s[0] == '#' {
        strip_hashes(s.drop_first())
    } else {
        s
    }
}

/// The colour that a text of hexadecimal digits spells, with or without `#`
/// in front.
pub open spec fn colour_of(text: Seq<char>) -> Option<u32> {
    radix16_u32(strip_hashes(text))
}

/// The colour that `text` spells.
pub fn read_colour(text: &str) -> (r: Option<u32>)
    ensures
        r == colour_of(text@),
{
    let v = chars_of(text);
    let mut a: usize = 0;
    assert(v@.subrange(0, v@.len() as int) =~= v@);
    while a < v.len() && v[a] == '#'
        invariant
            a <= v.len(),
            v@ == text@,
            strip_hashes(v@.subrange(a as int, v@.len() as int)) == strip_hashes(text@),
        decreases v.len() - a,
    {
        proof {
            let s = v@.subrange(a as int, v@.len() as int);
            assert(s[0] == v@[a as int]);
            assert(s.drop_first() =~= v@.subrange(a + 1, v@.len() as int));
        }
        a = a + 1;
    }
    proof {
        let s = v@.subrange(a as int, v@.len() as int);
        if a < v.len() {
            assert(s[0] == v@[a as int]);
        }
        assert(strip_hashes(s) == s);
    }
    parse_radix16(&v, a, v.len())
}

/// The colours of a saved flavour as a palette: every pair of a name and a
/// text that spells a colour gives a colour, switched on; a later pair takes
/// the place of an earlier one of the same name; a text that spells no
/// colour is left out.
pub open spec fn palette_of(colours: Seq<(Seq<char>, Seq<char>)>) -> Seq<(Seq<char>, ColorView)>
    decreases colours.len(),
{
    if colours.len() == 0 {
        Seq::empty()
    } else {
        let rest = palette_of(colours.drop_last());
        let (name, text) = colours.last();
        match colour_of(text) {
            Some(value) => put(rest, name, ColorView { name, value, enabled: true }),
            None => rest,
        }
    }
}

/// The scheme that saved flavours make: one entry for every flavour, under
/// the flavour's own name, with the colours of the flavour as its palette.
pub open spec fn scheme_of(saved: Seq<(Seq<char>, Seq<(Seq<char>, Seq<char>)>)>) -> Seq<
    (Seq<char>, FlavorView),
>
    decreases saved.len(),
{
    if saved.len() == 0 {
        Seq::empty()
    } else {
        put(
            scheme_of(saved.drop_last()),
            saved.last().0,
            FlavorView { name: saved.last().0, palette: palette_of(saved.last().1), enabled: true },
        )
    }
}

/// Pairs of strings by their texts.
pub open spec fn pair_texts(pairs: Seq<(String, String)>) -> Seq<(Seq<char>, Seq<char>)> {
    Seq::new(pairs.len(), |i: int| (pairs[i].0@, pairs[i].1@))
}

/// Saved flavours by their texts.
pub open spec fn saved_texts(saved: Seq<(String, Vec<(String, String)>)>) -> Seq<
    (Seq<char>, Seq<(Seq<char>, Seq<char>)>),
> {
    Seq::new(saved.len(), |i: int| (saved[i].0@, pair_texts(saved[i].1@)))
}

/// What `text` holds when it is read as JSON that maps names of flavours to
/// maps from names of colours to texts: the flavours in the order of their
/// names, each with its colours in the order of their names; nothing where
/// `text` is no such JSON.
pub uninterp spec fn saved_colorscheme(text: Seq<char>) -> Option<
    Seq<(Seq<char>, Seq<(Seq<char>, Seq<char>)>)>,
>;

/// `serde_json::from_str` for a map from strings to maps from strings to
/// strings, handed out as lists in the order of the names.
#[verifier::external_body]
fn read_saved(cs: &str) -> (r: Option<Vec<(String, Vec<(String, String)>)>>)
    ensures
        match r {
            Some(saved) => saved_colorscheme(cs@) == Some(saved_texts(saved@)),
            None => saved_colorscheme(cs@) is None,
        },
{
    serde_json::from_str::<BTreeMap<String, BTreeMap<String, String>>>(cs).ok().map(
        |m| m.into_iter().map(|(k, v)| (k, v.into_iter().collect())).collect(),
    )
}

/// The palette of the colours of a saved flavour.
pub fn palette_from(colours: Vec<(String, String)>) -> (palette: Palette)
    ensures
        palette@ == palette_of(pair_texts(colours@)),
{
    broadcast use vstd::std_specs::vec::axiom_spec_into_iter;

    let ghost all = pair_texts(colours@);
    let ghost source = colours@;
    let mut palette: Palette = Table::new();
    proof {
        assert(all.take(0) =~= Seq::<(Seq<char>, Seq<char>)>::empty());
        assert(palette@ =~= palette_of(all.take(0)));
    }
    for pair in it: colours.into_iter()
        invariant
            it.seq() == source,
            all == pair_texts(source),
            palette@ == palette_of(all.take(it.index())),
    {
        let (name, text) = pair;
        proof {
            assert(all.take(it.index() + 1).drop_last() =~= all.take(it.index()));
            assert(all.take(it.index() + 1).last() == (name@, text@));
        }
        match read_colour(text.as_str()) {
            Some(value) => {
                let color = Color::new(name, value);
                let key = color.name.clone();
                palette.insert(key, color);
            },
            None => {},
        }
    }
    proof {
        assert(all.take(all.len() as int) =~= all);
    }
    palette
}

/// The scheme that saved flavours make, each under its own name.
pub fn colorscheme_from(saved: Vec<(String, Vec<(String, String)>)>) -> (scheme: ColorScheme)
    ensures
        scheme@ == scheme_of(saved_texts(saved@)),
{
    broadcast use vstd::std_specs::vec::axiom_spec_into_iter;

    let ghost all = saved_texts(saved@);
    let ghost source = saved@;
    let mut scheme: ColorScheme = Table::new();
    proof {
        assert(all.take(0) =~= Seq::<(Seq<char>, Seq<(Seq<char>, Seq<char>)>)>::empty());
        assert(scheme@ =~= scheme_of(all.take(0)));
    }
    for flavor in it: saved.into_iter()
        invariant
            it.seq() == source,
            all == saved_texts(source),
            scheme@ == scheme_of(all.take(it.index())),
    {
        let (flavor_name, colours) = flavor;
        proof {
            assert(all.take(it.index() + 1).drop_last() =~= all.take(it.index()));
            assert(all.take(it.index() + 1).last() == (flavor_name@, pair_texts(colours@)));
        }
        let palette = palette_from(colours);
        let key = flavor_name.clone();
        scheme.insert(key, Flavor::new(flavor_name, palette));
    }
    proof {
        assert(all.take(all.len() as int) =~= all);
    }
    scheme
}

/// The library once the colour `color` of the flavour `flavor` of the scheme
/// `cs` is switched as `status` says; or the first of the three that the
/// library does not have.
pub open spec fn toggled(
    lib: Seq<(Seq<char>, Seq<(Seq<char>, FlavorView)>)>,
    cs: Seq<char>,
    flavor: Seq<char>,
    color: Seq<char>,
    status: bool,
) -> Result<Seq<(Seq<char>, Seq<(Seq<char>, FlavorView)>)>, LibraryErrorView> {
    match place_of(lib, cs) {
        None => Err(LibraryErrorView::NoSuchColorscheme(cs)),
        Some(i) => {
            let scheme = lib[i].1;
            match place_of(scheme, flavor) {
                None => Err(LibraryErrorView::NoSuchFlavor(flavor)),
                Some(j) => {
                    let fl = scheme[j].1;
                    match place_of(fl.palette, color) {
                        None => Err(LibraryErrorView::NoSuchColor(color)),
                        Some(k) => {
                            let c = fl.palette[k].1;
                            let switched = ColorView {
                                name: c.name,
                                value: c.value,
                                enabled: status,
                            };
                            let palette = fl.palette.update(k, (fl.palette[k].0, switched));
                            let changed = FlavorView { name: fl.name, palette, enabled: fl.enabled };
                            Ok(lib.update(i, (lib[i].0, scheme.update(j, (scheme[j].0, changed)))))
                        },
                    }
                },
            }
        },
    }
}

impl LibraryManager {
    /// A library without schemes.
    pub fn new() -> (m: Self)
        ensures
            m@.len() == 0,
    {
        LibraryManager { library: Table::new() }
    }

    /// Reads a scheme from JSON and puts it into the library under `name`,
    /// in place of a scheme of that name. A text that is no such JSON is an
    /// error, and the library stays as it is.
    pub fn add_colorscheme(&mut self, name: &str, cs: &str) -> (r: Result<
        ColorScheme,
        LibraryError,
    >)
        ensures
            match r {
                Ok(scheme) => saved_colorscheme(cs@) is Some && scheme@ == scheme_of(
                    saved_colorscheme(cs@).unwrap(),
                ) && final(self)@ == put(old(self)@, name@, scheme@),
                Err(e) => saved_colorscheme(cs@) is None && e@
                    == LibraryErrorView::ParseColorSchemeError(name@) && final(self)@ == old(
                    self,
                )@,
            },
    {
        match Self::parse_colorscheme(name, cs) {
            Ok(colorscheme) => {
                self.library.insert(owned(name), colorscheme.duplicate());
                Ok(colorscheme)
            },
            Err(e) => Err(e),
        }
    }

    /// Reads a scheme from JSON that maps the names of flavours to maps from
    /// the names of colours to their values. The scheme has an entry for
    /// every flavour, under the flavour's name; `name` is the name of the
    /// scheme, which an error hands back.
    pub fn parse_colorscheme(name: &str, cs: &str) -> (r: Result<ColorScheme, LibraryError>)
        ensures
            match r {
                Ok(scheme) => saved_colorscheme(cs@) is Some && scheme@ == scheme_of(
                    saved_colorscheme(cs@).unwrap(),
                ),
                Err(e) => saved_colorscheme(cs@) is None && e@
                    == LibraryErrorView::ParseColorSchemeError(name@),
            },
    {
        match read_saved(cs) {
            Some(saved) => Ok(colorscheme_from(saved)),
            None => Err(LibraryError::ParseColorSchemeError(owned(name))),
        }
    }

    /// Switches a colour on or off. The scheme, the flavour and the colour
    /// are looked up in this order; the first that is missing is the error,
    /// and the library stays as it is.
    pub fn set_color(&mut self, cs: &str, flavor: &str, color: &str, status: bool) -> (r: Result<
        bool,
        LibraryError,
    >)
        ensures
            match r {
                Ok(b) => b == status && toggled(old(self)@, cs@, flavor@, color@, status) == Ok::<
                    Seq<(Seq<char>, Seq<(Seq<char>, FlavorView)>)>,
                    LibraryErrorView,
                >(final(self)@),
                Err(e) => toggled(old(self)@, cs@, flavor@, color@, status) == Err::<
                    Seq<(Seq<char>, Seq<(Seq<char>, FlavorView)>)>,
                    LibraryErrorView,
                >(e@) && final(self)@ == old(self)@,
            },
    {
        let i = match self.library.position(cs) {
            Some(i) => i,
            None => {
                return Err(LibraryError::NoSuchColorscheme(owned(cs)));
            },
        };
        let j = match self.library.value_at(i).position(flavor) {
            Some(j) => j,
            None => {
                return Err(LibraryError::NoSuchFlavor(owned(flavor)));
            },
        };
        let k = match self.library.value_at(i).value_at(j).palette.position(color) {
            Some(k) => k,
            None => {
                return Err(LibraryError::NoSuchColor(owned(color)));
            },
        };
        let ghost lib = self@;
        let mut scheme = self.library.replace_at(i, Table::new());
        let ghost scheme_before = scheme@;
        let mut fl = scheme.replace_at(j, Flavor::new(String::new(), Table::new()));
        let ghost fl_before = fl@;
        let mut c = fl.palette.replace_at(k, Color::new(String::new(), 0));
        c.enabled = status;
        let _ = fl.palette.replace_at(k, c);
        proof {
            assert(fl.palette@ =~= fl_before.palette.update(
                k as int,
                (
                    fl_before.palette[k as int].0,
                    ColorView {
                        name: fl_before.palette[k as int].1.name,
                        value: fl_before.palette[k as int].1.value,
                        enabled: status,
                    },
                ),
            ));
        }
        let ghost fl_after = fl@;
        let _ = scheme.replace_at(j, fl);
        proof {
            assert(scheme@ =~= scheme_before.update(j as int, (scheme_before[j as int].0, fl_after)));
        }
        let ghost scheme_after = scheme@;
        let _ = self.library.replace_at(i, scheme);
        proof {
            assert(self@ =~= lib.update(i as int, (lib[i as int].0, scheme_after)));
        }
        Ok(status)
    }

    /// The scheme named `name`, if the library has one.
    pub fn get(&self, name: &str) -> (r: Option<&ColorScheme>)
        ensures
            match r {
                Some(scheme) => value_of(self@, name@) == Some(scheme@),
                None => value_of(self@, name@) is None,
            },
    {
        self.library.get(name)
    }
}

impl Default for LibraryManager {
    fn default() -> (m: Self)
        ensures
            m@.len() == 0,
    {
        LibraryManager::new()
    }
}

/// The palette of a list of colours, which take the names `color0`, `color1`
/// and so on by their places in the list. A text that spells no colour is
/// left out, and its number with it.
pub open spec fn numbered_palette(colours: Seq<Seq<char>>) -> Seq<(Seq<char>, ColorView)>
    decreases colours.len(),
{
    if colours.len() == 0 {
        Seq::empty()
    } else {
        let rest = numbered_palette(colours.drop_last());
        let name = "color"@ + decimal((colours.len() - 1) as nat);
        match colour_of(colours.last()) {
            Some(value) => put(rest, name, ColorView { name, value, enabled: true }),
            None => rest,
        }
    }
}

/// The flavours that a list of named lists of colours makes, one for each.
pub open spec fn numbered_flavours(schemes: Seq<(Seq<char>, Seq<Seq<char>>)>) -> Seq<
    (Seq<char>, FlavorView),
>
    decreases schemes.len(),
{
    if schemes.len() == 0 {
        Seq::empty()
    } else {
        put(
            numbered_flavours(schemes.drop_last()),
            schemes.last().0,
            FlavorView {
                name: schemes.last().0,
                palette: numbered_palette(schemes.last().1),
                enabled: true,
            },
        )
    }
}

/// The texts of a run of strings.
pub open spec fn string_texts(strings: Seq<String>) -> Seq<Seq<char>> {
    Seq::new(strings.len(), |i: int| strings[i]@)
}

/// Named lists of colours by their texts.
pub open spec fn list_texts(schemes: Seq<(String, Vec<String>)>) -> Seq<(Seq<char>, Seq<Seq<char>>)> {
    Seq::new(schemes.len(), |i: int| (schemes[i].0@, string_texts(schemes[i].1@)))
}

/// What `text` holds when it is read as JSON that maps names to lists of
/// texts: the lists in the order of their names; nothing where `text` is no
/// such JSON.
pub uninterp spec fn listed_colorschemes(text: Seq<char>) -> Option<
    Seq<(Seq<char>, Seq<Seq<char>>)>,
>;

/// `serde_json::from_str` for a map from strings to lists of strings,
/// handed out as a list in the order of the names.
#[verifier::external_body]
fn read_listed(content: &str) -> (r: Option<Vec<(String, Vec<String>)>>)
    ensures
        match r {
            Some(schemes) => listed_colorschemes(content@) == Some(list_texts(schemes@)),
            None => listed_colorschemes(content@) is None,
        },
{
    serde_json::from_str::<BTreeMap<String, Vec<String>>>(content).ok().map(
        |m| m.into_iter().collect(),
    )
}

/// The palette of a list of colours, named by their places.
pub fn palette_from_list(colours: Vec<String>) -> (palette: Palette)
    ensures
        palette@ == numbered_palette(string_texts(colours@)),
{
    let ghost all = string_texts(colours@);
    let mut palette: Palette = Table::new();
    let mut i: usize = 0;
    proof {
        assert(all.take(0) =~= Seq::<Seq<char>>::empty());
        assert(palette@ =~= numbered_palette(all.take(0)));
    }
    while i < colours.len()
        invariant
            i <= colours.len(),
            all == string_texts(colours@),
            palette@ == numbered_palette(all.take(i as int)),
        decreases colours.len() - i,
    {
        proof {
            assert(all.take(i + 1).drop_last() =~= all.take(i as int));
            assert(all.take(i + 1).last() == colours@[i as int]@);
        }
        match read_colour(colours[i].as_str()) {
            Some(value) => {
                let mut name = owned("color");
                push_decimal(&mut name, i);
                let key = name.clone();
                palette.insert(key, Color::new(name, value));
            },
            None => {},
        }
        i = i + 1;
    }
    proof {
        assert(all.take(all.len() as int) =~= all);
    }
    palette
}

/// The library that named lists of colours make: one scheme, `wezterm`,
/// with a flavour for every list.
pub fn library_from_lists(schemes: Vec<(String, Vec<String>)>) -> (library: Library)
    ensures
        library@ == put(
            Seq::<(Seq<char>, Seq<(Seq<char>, FlavorView)>)>::empty(),
            "wezterm"@,
            numbered_flavours(list_texts(schemes@)),
        ),
{
    broadcast use vstd::std_specs::vec::axiom_spec_into_iter;

    let ghost all = list_texts(schemes@);
    let ghost source = schemes@;
    let mut flavours: ColorScheme = Table::new();
    proof {
        assert(all.take(0) =~= Seq::<(Seq<char>, Seq<Seq<char>>)>::empty());
        assert(flavours@ =~= numbered_flavours(all.take(0)));
    }
    for scheme in it: schemes.into_iter()
        invariant
            it.seq() == source,
            all == list_texts(source),
            flavours@ == numbered_flavours(all.take(it.index())),
    {
        let (name, colours) = scheme;
        proof {
            assert(all.take(it.index() + 1).drop_last() =~= all.take(it.index()));
            assert(all.take(it.index() + 1).last() == (name@, string_texts(colours@)));
        }
        let palette = palette_from_list(colours);
        let key = name.clone();
        flavours.insert(key, Flavor::new(name, palette));
    }
    proof {
        assert(all.take(all.len() as int) =~= all);
    }
    let mut library: Library = Table::new();
    proof {
        assert(library@ =~= Seq::<(Seq<char>, Seq<(Seq<char>, FlavorView)>)>::empty());
    }
    library.insert(owned("wezterm"), flavours);
    library
}

/// Reads a library from JSON that maps the names of schemes to lists of colours.
pub fn parse_wezterm_colorscheme(content: &str) -> (r: Result<Library, &'static str>)
    ensures
        match r {
            Ok(library) => listed_colorschemes(content@) is Some && library@ == put(
                Seq::<(Seq<char>, Seq<(Seq<char>, FlavorView)>)>::empty(),
                "wezterm"@,
                numbered_flavours(listed_colorschemes(content@).unwrap()),
            ),
            Err(e) => listed_colorschemes(content@) is None && e@
                == "failed to parse wezterm colorscheme"@,
        },
{
    match read_listed(content) {
        Some(schemes) => Ok(library_from_lists(schemes)),
        None => Err("failed to parse wezterm colorscheme"),
    }
}

} // verus!
