//! The errors of a dithering run.

use crate::color;
use crate::text::{decimal, joined, owned, push_decimal};
use vstd::prelude::*;

verus! {

/// A failure to read or to write an image file, as plain text.
#[derive(Debug, Clone, PartialEq, Eq)]
pub struct IOError {
    /// What the reader or the writer said.
    pub err: String,
    /// The path of the file.
    pub path: String,
}

/// What can stop a dithering run.
#[derive(Debug, Clone, PartialEq, Eq)]
pub enum Error {
    /// The image could not be written.
    Output(IOError),
    /// The image could not be read.
    Input(IOError),
    /// A count of levels outside 1 to 7.
    BadBitDepth(u8),
    /// A colour mode that could not be made.
    Color(color::Error),
    /// A palette of the caller's together with a count of levels.
    CustomPaletteIncompatibleWithDepth,
}

/// The result of a step of a dithering run.
pub type DitherResult<T> = Result<T, Error>;

impl Error {
    /// The error of reading the image at `path`.
    pub fn input(err: String, path: String) -> (e: Self)
        ensures
            e == Error::Input(IOError { err, path }),
    {
        Error::Input(IOError::new(err, path))
    }

    /// The error of writing the image at `path`.
    pub fn output(err: String, path: String) -> (e: Self)
        ensures
            e == Error::Output(IOError { err, path }),
    {
        Error::Output(IOError::new(err, path))
    }
}

impl IOError {
    /// A failure on the file at `path`, with the words of the reader or writer.
    pub fn new(err: String, path: String) -> (e: Self)
        ensures
            e == (IOError { err, path }),
    {
        IOError { err, path }
    }
}

impl IOError {
    /// The words of the failure: the path, then what was said.
    pub fn message(&self) -> (s: String)
        ensures
            s@ == "on path \""@ + self.path@ + "\": "@ + self.err@,
    {
        let a = joined("on path \"", self.path.as_str());
        let b = joined(a.as_str(), "\": ");
        joined(b.as_str(), self.err.as_str())
    }
}

impl Error {
    /// The words of the error.
    pub fn message(&self) -> (s: String)
        ensures
            s@ == match *self {
                Error::Input(err) => "input error: loading image: "@ + ("on path \""@ + err.path@
                    + "\": "@ + err.err@),
                Error::Output(err) => "output error: output: "@ + ("on path \""@ + err.path@
                    + "\": "@ + err.err@),
                Error::BadBitDepth(n) =>
                    "configuration error: bit depth must be between 1 and 7, but was "@ + decimal(
                        n as nat,
                    ),
                Error::Color(err) => "configuration error for: "@ + color_message(err),
                Error::CustomPaletteIncompatibleWithDepth =>
                    "error: the custom palette --color option is incompatible with the --depth option"@,
            },
    {
        match self {
            Error::Input(err) => {
                let inner = err.message();
                joined("input error: loading image: ", inner.as_str())
            },
            Error::Output(err) => {
                let inner = err.message();
                joined("output error: output: ", inner.as_str())
            },
            Error::BadBitDepth(n) => {
                let mut s = owned("configuration error: bit depth must be between 1 and 7, but was ");
                push_decimal(&mut s, *n as usize);
                s
            },
            Error::Color(err) => {
                let inner = err.message();
                joined("configuration error for: ", inner.as_str())
            },
            Error::CustomPaletteIncompatibleWithDepth => owned(
                "error: the custom palette --color option is incompatible with the --depth option",
            ),
        }
    }
}

/// The words of an error of a colour mode.
pub open spec fn color_message(e: color::Error) -> Seq<char> {
    match e {
        color::Error::UnknownOption(opt) => "unknown color option "@ + opt@ + "\n"@,
        color::Error::PaletteTooSmall =>
            "user-specified palette has 0 or 1 color; must have at least two\n"@,
        color::Error::RGBParse =>
            "could not parse to a RGB value: bad format. must be exactly six hexidecimal characters, with optional 0x prefix"@,
        color::Error::BadFile { path, err } => "could not load color palette from file at path \""@
            + path@ + "\": "@ + err@,
    }
}

impl From<color::Error> for Error {
    fn from(err: color::Error) -> (e: Self) {
        Error::Color(err)
    }
}

impl vstd::std_specs::convert::FromSpecImpl<color::Error> for Error {
    open spec fn obeys_from_spec() -> bool {
        true
    }

    open spec fn from_spec(err: color::Error) -> Self {
        Error::Color(err)
    }
}

} // verus!
