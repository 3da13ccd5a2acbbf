//! Colour modes and the errors of reading them.

use crate::hex::lower_hex_byte;
use crate::palette::{cga, crayon, parsed};
use crate::rgb::{unpacked, RGB};
use crate::text::{
    ascii_upper, chars_of, joined, owned, slice_is, to_ascii_upper, trim_range, trimmed,
};
use std::str::FromStr;
use vstd::prelude::*;

verus! {

/// What can go wrong when a colour option or a palette is read.
#[derive(Debug, Clone, PartialEq, Eq)]
pub enum Error {
    /// The text is not six hexadecimal digits with an optional `0x` in front.
    RGBParse,
    /// The palette has too few colours to be of use.
    PaletteTooSmall,
    /// An option that names no mode.
    UnknownOption(String),
    /// A palette file that could not be read, with the reader's message.
    BadFile { path: String, err: String },
}

impl Error {
    /// The words of the error.
    pub fn message(&self) -> (s: String)
        ensures
            s@ == match *self {
                Error::UnknownOption(opt) => "unknown color option "@ + opt@ + "\n"@,
                Error::PaletteTooSmall =>
                    "user-specified palette has 0 or 1 color; must have at least two\n"@,
                Error::RGBParse =>
                    "could not parse to a RGB value: bad format. must be exactly six hexidecimal characters, with optional 0x prefix"@,
                Error::BadFile { path, err } => "could not load color palette from file at path \""@
                    + path@ + "\": "@ + err@,
            },
    {
        match self {
            Error::UnknownOption(opt) => {
                let head = joined("unknown color option ", opt.as_str());
                joined(head.as_str(), "\n")
            },
            Error::PaletteTooSmall => owned(
                "user-specified palette has 0 or 1 color; must have at least two\n",
            ),
            Error::RGBParse => owned(
                "could not parse to a RGB value: bad format. must be exactly six hexidecimal characters, with optional 0x prefix",
            ),
            Error::BadFile { path, err } => {
                let a = joined("could not load color palette from file at path \"", path.as_str());
                let b = joined(a.as_str(), "\": ");
                joined(b.as_str(), err.as_str())
            },
        }
    }
}

/// The colours that a run works with.
#[derive(Clone, Debug, PartialEq, Eq)]
pub enum Mode {
    /// Black and one colour.
    SingleColor(RGB<u8>),
    /// Every channel by itself, to the number of levels asked for.
    Color,
    /// Grey, to the number of levels asked for.
    BlackAndWhite,
    /// The colours of a palette, and the name of the palette.
    Palette { palette: Vec<RGB<u8>>, name: String },
}

/// A mode by its contents.
pub enum ModeView {
    SingleColor(RGB<u8>),
    Color,
    BlackAndWhite,
    Palette { palette: Seq<RGB<u8>>, name: Seq<char> },
}

impl View for Mode {
    type V = ModeView;

    open spec fn view(&self) -> ModeView {
        match *self {
            Mode::SingleColor(c) => ModeView::SingleColor(c),
            Mode::Color => ModeView::Color,
            Mode::BlackAndWhite => ModeView::BlackAndWhite,
            Mode::Palette { palette, name } => ModeView::Palette { palette: palette@, name: name@ },
        }
    }
}

/// `s` with its ASCII lower-case letters in upper case.
pub open spec fn uppered(s: Seq<char>) -> Seq<char> {
    Seq::new(s.len(), |i: int| ascii_upper(s[i]))
}

/// The single colour that an upper-case word names, as `0xRRGGBB`.
pub open spec fn colour_of_word(w: Seq<char>) -> Option<u32> {
    if w == "BLUE"@ {
        Some(cga::BLUE)
    } else if w == "GREEN"@ {
        Some(cga::GREEN)
    } else if w == "CYAN"@ {
        Some(cga::CYAN)
    } else if w == "RED"@ {
        Some(cga::RED)
    } else if w == "MAGENTA"@ {
        Some(cga::MAGENTA)
    } else if w == "BROWN"@ {
        Some(cga::BROWN)
    } else if w == "LIGHT_GRAY"@ {
        Some(cga::LIGHT_GRAY)
    } else if w == "GRAY"@ {
        Some(cga::GRAY)
    } else if w == "LIGHT_BLUE"@ {
        Some(cga::LIGHT_BLUE)
    } else if w == "LIGHT_GREEN"@ {
        Some(cga::LIGHT_GREEN)
    } else if w == "LIGHT_CYAN"@ {
        Some(cga::LIGHT_CYAN)
    } else if w == "LIGHT_RED"@ {
        Some(cga::LIGHT_RED)
    } else if w == "LIGHT_MAGENTA"@ {
        Some(cga::LIGHT_MAGENTA)
    } else if w == "YELLOW"@ {
        Some(cga::YELLOW)
    } else {
        None
    }
}

/// The mode that an upper-case word names, if it names one.
pub open spec fn mode_of_word(w: Seq<char>) -> Option<ModeView> {
    if w == "WHITE"@ || w == "BLACK"@ || w == "BW"@ {
        Some(ModeView::BlackAndWhite)
    } else if w == "C"@ || w == "COLOR"@ {
        Some(ModeView::Color)
    } else if w == "CGA"@ {
        Some(ModeView::Palette { palette: cga::all_colours(), name: "CGA"@ })
    } else if w == "CRAYON"@ {
        Some(ModeView::Palette { palette: crayon::all_colours(), name: "CRAYON"@ })
    } else {
        match colour_of_word(w) {
            Some(c) => Some(ModeView::SingleColor(unpacked(c))),
            None => None,
        }
    }
}

/// The mode that `s` names: white space around it and the case of its
/// letters do not count.
pub open spec fn mode_named(s: Seq<char>) -> Option<ModeView> {
    mode_of_word(uppered(trimmed(s)))
}

/// The single colour that the upper-case word in `w` names.
fn colour_word(w: &Vec<char>) -> (r: Option<u32>)
    ensures
        r == colour_of_word(w@),
{
    let n = w.len();
    assert(w@.subrange(0, n as int) =~= w@);
    if slice_is(w, 0, n, "BLUE") {
        Some(cga::BLUE)
    } else if slice_is(w, 0, n, "GREEN") {
        Some(cga::GREEN)
    } else if slice_is(w, 0, n, "CYAN") {
        Some(cga::CYAN)
    } else if slice_is(w, 0, n, "RED") {
        Some(cga::RED)
    } else if slice_is(w, 0, n, "MAGENTA") {
        Some(cga::MAGENTA)
    } else if slice_is(w, 0, n, "BROWN") {
        Some(cga::BROWN)
    } else if slice_is(w, 0, n, "LIGHT_GRAY") {
        Some(cga::LIGHT_GRAY)
    } else if slice_is(w, 0, n, "GRAY") {
        Some(cga::GRAY)
    } else if slice_is(w, 0, n, "LIGHT_BLUE") {
        Some(cga::LIGHT_BLUE)
    } else if slice_is(w, 0, n, "LIGHT_GREEN") {
        Some(cga::LIGHT_GREEN)
    } else if slice_is(w, 0, n, "LIGHT_CYAN") {
        Some(cga::LIGHT_CYAN)
    } else if slice_is(w, 0, n, "LIGHT_RED") {
        Some(cga::LIGHT_RED)
    } else if slice_is(w, 0, n, "LIGHT_MAGENTA") {
        Some(cga::LIGHT_MAGENTA)
    } else if slice_is(w, 0, n, "YELLOW") {
        Some(cga::YELLOW)
    } else {
        None
    }
}

/// Reads the name of a mode. The names are `bw`, `black` and `white` for
/// black and white, `c` and `color` for colour, `cga` and `crayon` for the
/// two palettes that are built in, and the names of the colours of the CGA
/// palette but black and white for a single colour. Any other text comes
/// back as an unknown option.
pub fn parse_mode(s: &str) -> (r: Result<Mode, Error>)
    ensures
        match r {
            Ok(m) => mode_named(s@) == Some(m@),
            Err(e) => mode_named(s@) is None && (e matches Error::UnknownOption(o) && o@ == s@),
        },
{
    let v = chars_of(s);
    let (a, b) = trim_range(&v, 0, v.len());
    assert(v@.subrange(0, v@.len() as int) =~= v@);
    let mut w: Vec<char> = Vec::new();
    let mut i: usize = a;
    while i < b
        invariant
            a <= i <= b <= v.len(),
            w@.len() == i - a,
            forall|k: int| 0 <= k < i - a ==> w@[k] == ascii_upper(v@[a + k]),
        decreases b - i,
    {
        w.push(to_ascii_upper(v[i]));
        i = i + 1;
    }
    let n = w.len();
    proof {
        assert(w@ =~= uppered(trimmed(s@)));
        assert(w@.subrange(0, n as int) =~= w@);
    }
    if slice_is(&w, 0, n, "WHITE") || slice_is(&w, 0, n, "BLACK") || slice_is(&w, 0, n, "BW") {
        Ok(Mode::BlackAndWhite)
    } else if slice_is(&w, 0, n, "C") || slice_is(&w, 0, n, "COLOR") {
        Ok(Mode::Color)
    } else if slice_is(&w, 0, n, "CGA") {
        Ok(Mode::Palette { palette: cga::all(), name: owned("CGA") })
    } else if slice_is(&w, 0, n, "CRAYON") {
        Ok(Mode::Palette { palette: crayon::all(), name: owned("CRAYON") })
    } else {
        match colour_word(&w) {
            Some(c) => Ok(Mode::SingleColor(RGB::from_hex(c))),
            None => Err(Error::UnknownOption(owned(s))),
        }
    }
}

impl Mode {
    /// The mode of the palette that `contents` spell, under the name `name`.
    pub fn with_palette(name: &str, contents: &str) -> (r: Result<Mode, Error>)
        ensures
            match r {
                Ok(m) => parsed(contents@) == Ok::<Seq<RGB<u8>>, Error>(m@->palette) && m@
                    is Palette && m@->name == name@,
                Err(e) => parsed(contents@) == Err::<Seq<RGB<u8>>, Error>(e),
            },
    {
        match crate::palette::parse(contents) {
            Ok(palette) => Ok(Mode::Palette { palette, name: owned(name) }),
            Err(e) => Err(e),
        }
    }

    /// The words by which a mode shows itself.
    pub open spec fn spec_label(m: ModeView) -> Seq<char> {
        match m {
            ModeView::Palette { palette, name } => "custom_palette_"@ + name,
            ModeView::Color => "color"@,
            ModeView::SingleColor(c) => "single_color_"@ + lower_hex_byte(c.0) + lower_hex_byte(
                c.1,
            ) + lower_hex_byte(c.2),
            ModeView::BlackAndWhite => "bw"@,
        }
    }

    /// The words by which this mode shows itself.
    pub fn label(&self) -> (s: String)
        ensures
            s@ == Self::spec_label(self@),
    {
        match self {
            Mode::Palette { palette, name } => joined("custom_palette_", name.as_str()),
            Mode::Color => owned("color"),
            Mode::SingleColor(c) => {
                let digits = c.lower_hex();
                joined("single_color_", digits.as_str())
            },
            Mode::BlackAndWhite => owned("bw"),
        }
    }
}

impl FromStr for Mode {
    type Err = Error;

    /// Reads the name of a mode as [`parse_mode`] does.
    fn from_str(s: &str) -> (r: Result<Self, Error>)
        ensures
            match r {
                Ok(m) => mode_named(s@) == Some(m@),
                Err(e) => mode_named(s@) is None && (e matches Error::UnknownOption(o) && o@
                    == s@),
            },
    {
        parse_mode(s)
    }
}

impl Default for Mode {
    fn default() -> (m: Self)
        ensures
            m == Mode::BlackAndWhite,
    {
        Mode::BlackAndWhite
    }
}

} // verus!
