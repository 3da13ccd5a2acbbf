//! The conversion methods and their two families: the distances by which a
//! colour is matched, and the kernels by which an image is dithered.

use crate::ditherer::{named_kernel, Ditherer, NamedKernel};
use crate::text::{chars_of, slice_is};
use std::str::FromStr;
use vstd::prelude::*;
use vstd::std_specs::convert::TryFromSpecImpl;

verus! {

/// How an image is converted: by one of four colour distances, or by one of
/// six dithering kernels.
#[derive(Clone, Copy, Debug, Eq, PartialEq, PartialOrd)]
pub enum ConversionMethod {
    De1976,
    De1994T,
    De1994G,
    De2000,
    DitherFloydSteinberg,
    DitherAtkinson,
    DitherStucki,
    DitherBurkes,
    DitherJarvisJudiceNinke,
    DitherSierra3,
}

/// What can stop a conversion.
#[derive(Clone, Copy, Debug, Eq, PartialEq)]
pub enum ConversionError {
    /// An attribute of a vector document could not be read.
    AttributeParseError,
    /// The vector document could not be read.
    XMLReadError,
    /// The method does not belong to the family that the conversion needs.
    InvalidConversionMethod,
    /// The palette has no colour to match against.
    EmptyPalette,
}

/// The four colour distances.
#[derive(Clone, Copy, Debug, Eq, PartialEq)]
pub enum DEMethod {
    /// The distance of 1976.
    DE1976,
    /// The distance of 1994, weighted for graphic arts.
    DE1994G,
    /// The distance of 1994, weighted for textiles.
    DE1994T,
    /// The distance of 2000.
    DE2000,
}

/// Whether the pixels of an image are matched one after the other or side by side.
#[derive(Clone, Copy, Debug, Eq, PartialEq)]
pub enum Execution {
    Sequential,
    Parallel,
}

/// The distance that a method stands for, if it stands for one.
pub open spec fn metric_of(m: ConversionMethod) -> Option<DEMethod> {
    match m {
        ConversionMethod::De1976 => Some(DEMethod::DE1976),
        ConversionMethod::De1994G => Some(DEMethod::DE1994G),
        ConversionMethod::De1994T => Some(DEMethod::DE1994T),
        ConversionMethod::De2000 => Some(DEMethod::DE2000),
        _ => None,
    }
}

/// The kernel that a method stands for, if it stands for one.
pub open spec fn kernel_of_method(m: ConversionMethod) -> Option<NamedKernel> {
    match m {
        ConversionMethod::DitherAtkinson => Some(NamedKernel::Atkinson),
        ConversionMethod::DitherBurkes => Some(NamedKernel::Burkes),
        ConversionMethod::DitherFloydSteinberg => Some(NamedKernel::FloydSteinberg),
        ConversionMethod::DitherJarvisJudiceNinke => Some(NamedKernel::JarvisJudiceNinke),
        ConversionMethod::DitherSierra3 => Some(NamedKernel::Sierra3),
        ConversionMethod::DitherStucki => Some(NamedKernel::Stucki),
        _ => None,
    }
}

/// The word by which a method is written. The words of the two distances of
/// 1994 are crossed: the method for textiles is written `de1994g`, the one
/// for graphic arts `de1994t`.
pub open spec fn method_word(m: ConversionMethod) -> Seq<char> {
    match m {
        ConversionMethod::De1976 => "de1976"@,
        ConversionMethod::De1994T => "de1994g"@,
        ConversionMethod::De1994G => "de1994t"@,
        ConversionMethod::De2000 => "de2000"@,
        ConversionMethod::DitherFloydSteinberg => "dither_floydsteinberg"@,
        ConversionMethod::DitherAtkinson => "dither_atkinson"@,
        ConversionMethod::DitherStucki => "dither_stucki"@,
        ConversionMethod::DitherBurkes => "dither_burkes"@,
        ConversionMethod::DitherJarvisJudiceNinke => "dither_jarvisjudiceninke"@,
        ConversionMethod::DitherSierra3 => "dither_sierra3"@,
    }
}

/// The method that a word writes, if it writes one.
pub open spec fn method_of_word(w: Seq<char>) -> Option<ConversionMethod> {
    if w == "de1976"@ {
        Some(ConversionMethod::De1976)
    } else if w == "de1994g"@ {
        Some(ConversionMethod::De1994T)
    } else if w == "de1994t"@ {
        Some(ConversionMethod::De1994G)
    } else if w == "de2000"@ {
        Some(ConversionMethod::De2000)
    } else if w == "dither_floydsteinberg"@ {
        Some(ConversionMethod::DitherFloydSteinberg)
    } else if w == "dither_atkinson"@ {
        Some(ConversionMethod::DitherAtkinson)
    } else if w == "dither_stucki"@ {
        Some(ConversionMethod::DitherStucki)
    } else if w == "dither_burkes"@ {
        Some(ConversionMethod::DitherBurkes)
    } else if w == "dither_jarvisjudiceninke"@ {
        Some(ConversionMethod::DitherJarvisJudiceNinke)
    } else if w == "dither_sierra3"@ {
        Some(ConversionMethod::DitherSierra3)
    } else {
        None
    }
}

impl ConversionMethod {
    /// The word by which this method is written.
    pub fn name(&self) -> (s: &'static str)
        ensures
            s@ == method_word(*self),
    {
        match self {
            ConversionMethod::De1976 => "de1976",
            ConversionMethod::De1994T => "de1994g",
            ConversionMethod::De1994G => "de1994t",
            ConversionMethod::De2000 => "de2000",
            ConversionMethod::DitherFloydSteinberg => "dither_floydsteinberg",
            ConversionMethod::DitherAtkinson => "dither_atkinson",
            ConversionMethod::DitherStucki => "dither_stucki",
            ConversionMethod::DitherBurkes => "dither_burkes",
            ConversionMethod::DitherJarvisJudiceNinke => "dither_jarvisjudiceninke",
            ConversionMethod::DitherSierra3 => "dither_sierra3",
        }
    }

    /// All methods, the distances first.
    pub fn all() -> (v: Vec<ConversionMethod>)
        ensures
            v@ == seq![
                ConversionMethod::De1976,
                ConversionMethod::De1994T,
                ConversionMethod::De1994G,
                ConversionMethod::De2000,
                ConversionMethod::DitherFloydSteinberg,
                ConversionMethod::DitherAtkinson,
                ConversionMethod::DitherStucki,
                ConversionMethod::DitherBurkes,
                ConversionMethod::DitherJarvisJudiceNinke,
                ConversionMethod::DitherSierra3,
            ],
    {
        vec![
            ConversionMethod::De1976,
            ConversionMethod::De1994T,
            ConversionMethod::De1994G,
            ConversionMethod::De2000,
            ConversionMethod::DitherFloydSteinberg,
            ConversionMethod::DitherAtkinson,
            ConversionMethod::DitherStucki,
            ConversionMethod::DitherBurkes,
            ConversionMethod::DitherJarvisJudiceNinke,
            ConversionMethod::DitherSierra3,
        ]
    }

    /// The distance that this method stands for; a dithering method stands
    /// for none.
    pub fn distance_metric(self) -> (r: Result<DEMethod, ConversionError>)
        ensures
            match r {
                Ok(m) => metric_of(self) == Some(m),
                Err(e) => metric_of(self) is None && e == ConversionError::InvalidConversionMethod,
            },
    {
        match self {
            ConversionMethod::De1976 => Ok(DEMethod::DE1976),
            ConversionMethod::De1994G => Ok(DEMethod::DE1994G),
            ConversionMethod::De1994T => Ok(DEMethod::DE1994T),
            ConversionMethod::De2000 => Ok(DEMethod::DE2000),
            _ => Err(ConversionError::InvalidConversionMethod),
        }
    }

    /// The ditherer that this method stands for; a distance stands for none.
    pub fn ditherer(self) -> (r: Result<Ditherer, ConversionError>)
        ensures
            match r {
                Ok(d) => kernel_of_method(self) == d.spec_name() && d.spec_name() is Some && d@
                    == named_kernel(d.spec_name().unwrap()),
                Err(e) => kernel_of_method(self) is None && e
                    == ConversionError::InvalidConversionMethod,
            },
    {
        match self {
            ConversionMethod::DitherAtkinson => Ok(Ditherer::atkinson()),
            ConversionMethod::DitherBurkes => Ok(Ditherer::burkes()),
            ConversionMethod::DitherFloydSteinberg => Ok(Ditherer::floyd_steinberg()),
            ConversionMethod::DitherJarvisJudiceNinke => Ok(Ditherer::jarvis_judice_ninke()),
            ConversionMethod::DitherSierra3 => Ok(Ditherer::sierra_3()),
            ConversionMethod::DitherStucki => Ok(Ditherer::stucki()),
            _ => Err(ConversionError::InvalidConversionMethod),
        }
    }
}

/// A method is a distance or a dithering kernel, never both and never neither.
pub proof fn lemma_two_families(m: ConversionMethod)
    ensures
        metric_of(m) is Some <==> kernel_of_method(m) is None,
{
}

/// Every method is written by its own word and read back from it.
pub proof fn lemma_word_round_trip(m: ConversionMethod)
    ensures
        method_of_word(method_word(m)) == Some(m),
{
    reveal_strlit("de1976");
    reveal_strlit("de1994g");
    reveal_strlit("de1994t");
    reveal_strlit("de2000");
    reveal_strlit("dither_floydsteinberg");
    reveal_strlit("dither_atkinson");
    reveal_strlit("dither_stucki");
    reveal_strlit("dither_burkes");
    reveal_strlit("dither_jarvisjudiceninke");
    reveal_strlit("dither_sierra3");
    let w = method_word(m);
    assert("de1976"@.len() == 6 && "de1994g"@.len() == 7 && "de1994t"@.len() == 7 && "de2000"@.len()
        == 6);
    assert("de1994g"@[6] == 'g' && "de1994t"@[6] == 't');
    assert("de1976"@[2] == '1' && "de2000"@[2] == '2');
    assert("dither_atkinson"@[7] == 'a' && "dither_stucki"@[7] == 's' && "dither_burkes"@[7] == 'b');
    assert("dither_floydsteinberg"@[7] == 'f' && "dither_jarvisjudiceninke"@[7] == 'j'
        && "dither_sierra3"@[7] == 's');
    assert("dither_stucki"@.len() == 13 && "dither_sierra3"@.len() == 14);
    assert("dither_atkinson"@[0] == 'd' && "dither_atkinson"@[1] == 'i');
    assert("dither_stucki"@[1] == 'i' && "dither_burkes"@[1] == 'i');
    assert("dither_floydsteinberg"@[1] == 'i' && "dither_jarvisjudiceninke"@[1] == 'i'
        && "dither_sierra3"@[1] == 'i');
    assert("de1976"@[1] == 'e' && "de1994g"@[1] == 'e' && "de1994t"@[1] == 'e' && "de2000"@[1]
        == 'e');
    assert("de1994g"@[2] == '1' && "de1994t"@[2] == '1' && "de1976"@[3] == '9' && "de1994g"@[3]
        == '9');
    assert("de1976"@[4] == '7' && "de1994g"@[4] == '9' && "de1994t"@[4] == '9');
}

/// The method that `s` writes.
pub fn parse_method(s: &str) -> (r: Result<ConversionMethod, ConversionError>)
    ensures
        match r {
            Ok(m) => method_of_word(s@) == Some(m),
            Err(e) => method_of_word(s@) is None && e == ConversionError::InvalidConversionMethod,
        },
{
    let w = chars_of(s);
    let n = w.len();
    assert(w@.subrange(0, n as int) =~= s@);
    if slice_is(&w, 0, n, "de1976") {
        Ok(ConversionMethod::De1976)
    } else if slice_is(&w, 0, n, "de1994g") {
        Ok(ConversionMethod::De1994T)
    } else if slice_is(&w, 0, n, "de1994t") {
        Ok(ConversionMethod::De1994G)
    } else if slice_is(&w, 0, n, "de2000") {
        Ok(ConversionMethod::De2000)
    } else if slice_is(&w, 0, n, "dither_floydsteinberg") {
        Ok(ConversionMethod::DitherFloydSteinberg)
    } else if slice_is(&w, 0, n, "dither_atkinson") {
        Ok(ConversionMethod::DitherAtkinson)
    } else if slice_is(&w, 0, n, "dither_stucki") {
        Ok(ConversionMethod::DitherStucki)
    } else if slice_is(&w, 0, n, "dither_burkes") {
        Ok(ConversionMethod::DitherBurkes)
    } else if slice_is(&w, 0, n, "dither_jarvisjudiceninke") {
        Ok(ConversionMethod::DitherJarvisJudiceNinke)
    } else if slice_is(&w, 0, n, "dither_sierra3") {
        Ok(ConversionMethod::DitherSierra3)
    } else {
        Err(ConversionError::InvalidConversionMethod)
    }
}

/// The distance that a short word names: `76`, `94t`, `94g` or `2000`. Any
/// other word names the distance of 1976.
pub open spec fn metric_of_word(w: Seq<char>) -> DEMethod {
    if w == "94t"@ {
        DEMethod::DE1994T
    } else if w == "94g"@ {
        DEMethod::DE1994G
    } else if w == "2000"@ {
        DEMethod::DE2000
    } else {
        DEMethod::DE1976
    }
}

/// The distance that `method` names.
pub fn parse_delta_e_method(method: &str) -> (m: DEMethod)
    ensures
        m == metric_of_word(method@),
{
    let w = chars_of(method);
    let n = w.len();
    assert(w@.subrange(0, n as int) =~= method@);
    if slice_is(&w, 0, n, "94t") {
        DEMethod::DE1994T
    } else if slice_is(&w, 0, n, "94g") {
        DEMethod::DE1994G
    } else if slice_is(&w, 0, n, "2000") {
        DEMethod::DE2000
    } else {
        DEMethod::DE1976
    }
}

impl FromStr for ConversionMethod {
    type Err = ConversionError;

    /// Reads the word of a method as [`parse_method`] does.
    fn from_str(s: &str) -> (r: Result<Self, ConversionError>)
        ensures
            match r {
                Ok(m) => method_of_word(s@) == Some(m),
                Err(e) => method_of_word(s@) is None && e
                    == ConversionError::InvalidConversionMethod,
            },
    {
        parse_method(s)
    }
}

impl TryFrom<ConversionMethod> for DEMethod {
    type Error = ConversionError;

    fn try_from(val: ConversionMethod) -> (r: Result<Self, ConversionError>) {
        val.distance_metric()
    }
}

impl TryFromSpecImpl<ConversionMethod> for DEMethod {
    open spec fn obeys_try_from_spec() -> bool {
        true
    }

    open spec fn try_from_spec(val: ConversionMethod) -> Result<Self, ConversionError> {
        match metric_of(val) {
            Some(m) => Ok(m),
            None => Err(ConversionError::InvalidConversionMethod),
        }
    }
}

impl TryFrom<ConversionMethod> for Ditherer {
    type Error = ConversionError;

    /// The ditherer of the kernel that `value` stands for, under the name
    /// of that kernel; a distance stands for no kernel and is refused.
    fn try_from(value: ConversionMethod) -> (r: Result<Self, ConversionError>)
        ensures
            match r {
                Ok(d) => kernel_of_method(value) == d.spec_name() && d.spec_name() is Some && d@
                    == named_kernel(d.spec_name().unwrap()),
                Err(e) => kernel_of_method(value) is None && e
                    == ConversionError::InvalidConversionMethod,
            },
    {
        value.ditherer()
    }
}

impl TryFromSpecImpl<ConversionMethod> for Ditherer {
    /// A ditherer cannot be written down as a value of a specification; what
    /// the conversion gives is stated on `try_from` itself.
    open spec fn obeys_try_from_spec() -> bool {
        false
    }

    open spec fn try_from_spec(value: ConversionMethod) -> Result<Self, ConversionError> {
        arbitrary()
    }
}

impl ConversionError {
    /// The words of the error.
    pub fn message(&self) -> (s: &'static str)
        ensures
            s@ == match *self {
                ConversionError::AttributeParseError => "Invalid attribute"@,
                ConversionError::XMLReadError => "Error reading XML"@,
                ConversionError::InvalidConversionMethod => "Invalid conversion method"@,
                ConversionError::EmptyPalette => "Palette has no enabled colour"@,
            },
    {
        match self {
            ConversionError::AttributeParseError => "Invalid attribute",
            ConversionError::XMLReadError => "Error reading XML",
            ConversionError::InvalidConversionMethod => "Invalid conversion method",
            ConversionError::EmptyPalette => "Palette has no enabled colour",
        }
    }
}

/// How the pixels of an image are matched under a distance: side by side for
/// the costly distance of 2000, one after the other for the rest. The
/// pixels do not depend on each other, so the choice changes no result.
pub fn execution_for(metric: DEMethod) -> (e: Execution)
    ensures
        e == if metric == DEMethod::DE2000 {
            Execution::Parallel
        } else {
            Execution::Sequential
        },
{
    match metric {
        DEMethod::DE2000 => Execution::Parallel,
        _ => Execution::Sequential,
    }
}

} // verus!
