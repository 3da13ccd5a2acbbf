//! The part of recolouring a vector document that needs no reader of markup:
//! which attributes carry a colour or an embedded image, what is taken from
//! them, and how the new values are written.

use crate::convert::ConversionError;
use crate::hex::{lower_hex_byte, to_lower_digit};
use crate::text::{chars_of, find_next, joined, next_at, string_of};
use base64::Engine;
use vstd::prelude::*;
use vstd::utf8::{decode_utf8, valid_utf8};

verus! {

/// What an attribute is to the recolouring.
#[derive(Clone, Copy, Debug, PartialEq, Eq)]
pub enum AttributeKind {
    /// Copied as it stands.
    Verbatim,
    /// Holds a colour that is matched against the palette.
    Colour,
    /// Holds a link, which may be an embedded image.
    Link,
}

/// What a reader of markup hands over, as far as the recolouring tells its
/// events apart.
#[derive(Clone, Copy, Debug, PartialEq, Eq)]
pub enum EventKind {
    /// The start of an element.
    Start,
    /// An element that ends where it starts.
    Empty,
    /// The end of the document.
    Eof,
    /// Text, the end of an element, a comment and whatever else there is.
    Other,
}

/// What is to be done with an event.
#[derive(Clone, Copy, Debug, PartialEq, Eq)]
pub enum Step {
    /// Write the element with its attributes recoloured.
    Rewrite,
    /// Write the event as it stands.
    Copy,
    /// Stop: the document is done.
    Stop,
}

/// What is to be done with an event of this kind: only elements have
/// attributes to recolour, and the end of the document ends the work.
pub fn step_for(kind: EventKind) -> (step: Step)
    ensures
        step == match kind {
            EventKind::Start => Step::Rewrite,
            EventKind::Empty => Step::Rewrite,
            EventKind::Eof => Step::Stop,
            EventKind::Other => Step::Copy,
        },
{
    match kind {
        EventKind::Start | EventKind::Empty => Step::Rewrite,
        EventKind::Eof => Step::Stop,
        EventKind::Other => Step::Copy,
    }
}

/// What is to be done with an attribute.
#[derive(Clone, Debug, PartialEq, Eq)]
pub enum AttributeAction {
    /// Copy it as it stands.
    Keep,
    /// Match the colour that this text spells, and write the match in its place.
    Recolor(String),
    /// Convert the image that these bytes encode, and embed the result in its place.
    Embedded(Vec<u8>),
}

/// An action by its contents.
pub enum Plan {
    Keep,
    Recolor(Seq<char>),
    Embedded(Seq<u8>),
}

impl View for AttributeAction {
    type V = Plan;

    open spec fn view(&self) -> Plan {
        match *self {
            AttributeAction::Keep => Plan::Keep,
            AttributeAction::Recolor(text) => Plan::Recolor(text@),
            AttributeAction::Embedded(bytes) => Plan::Embedded(bytes@),
        }
    }
}

/// The characters whose code points are the bytes of `b`.
pub open spec fn as_latin(b: Seq<u8>) -> Seq<char> {
    Seq::new(b.len(), |i: int| b[i] as char)
}

/// `s` begins with `prefix`.
pub open spec fn begins_with<T>(s: Seq<T>, prefix: Seq<T>) -> bool {
    s.len() >= prefix.len() && s.subrange(0, prefix.len() as int) == prefix
}

/// The names of the attributes that hold a colour.
pub open spec fn is_colour_key(key: Seq<u8>) -> bool {
    let k = as_latin(key);
    k == "fill"@ || k == "stroke"@ || k == "stop-color"@ || k == "flood-color"@ || k
        == "lighting-color"@
}

/// What an attribute with this name and this value is to the recolouring. A
/// colour attribute whose value is `none` or begins with `url(` holds no
/// colour of its own and is copied.
pub open spec fn kind_of(key: Seq<u8>, value: Seq<u8>) -> AttributeKind {
    if is_colour_key(key) {
        if begins_with(as_latin(value), "url("@) || as_latin(value) == "none"@ {
            AttributeKind::Verbatim
        } else {
            AttributeKind::Colour
        }
    } else if as_latin(key) == "href"@ {
        AttributeKind::Link
    } else {
        AttributeKind::Verbatim
    }
}

/// Whether the bytes of `b` are the characters of `word`.
pub fn bytes_are(b: &[u8], word: &str) -> (r: bool)
    ensures
        r == (as_latin(b@) == word@),
{
    let w = chars_of(word);
    if w.len() != b.len() {
        return false;
    }
    let mut i: usize = 0;
    while i < w.len()
        invariant
            w.len() == b.len(),
            i <= w.len(),
            w@ == word@,
            forall|k: int| 0 <= k < i ==> b@[k] as char == w@[k],
        decreases w.len() - i,
    {
        if b[i] as char != w[i] {
            proof {
                assert(as_latin(b@)[i as int] != word@[i as int]);
            }
            return false;
        }
        i = i + 1;
    }
    assert(as_latin(b@) =~= word@);
    true
}

/// Whether the bytes of `b` begin with the characters of `word`.
pub fn bytes_begin_with(b: &[u8], word: &str) -> (r: bool)
    ensures
        r == begins_with(as_latin(b@), word@),
{
    let w = chars_of(word);
    if w.len() > b.len() {
        return false;
    }
    let mut i: usize = 0;
    while i < w.len()
        invariant
            w.len() <= b.len(),
            i <= w.len(),
            w@ == word@,
            forall|k: int| 0 <= k < i ==> b@[k] as char == w@[k],
        decreases w.len() - i,
    {
        if b[i] as char != w[i] {
            proof {
                assert(as_latin(b@).subrange(0, word@.len() as int)[i as int] != word@[i as int]);
            }
            return false;
        }
        i = i + 1;
    }
    assert(as_latin(b@).subrange(0, word@.len() as int) =~= word@);
    true
}

/// What the attribute with this name and this value is to the recolouring.
pub fn classify(key: &[u8], value: &[u8]) -> (k: AttributeKind)
    ensures
        k == kind_of(key@, value@),
{
    if bytes_are(key, "fill") || bytes_are(key, "stroke") || bytes_are(key, "stop-color")
        || bytes_are(key, "flood-color") || bytes_are(key, "lighting-color") {
        if bytes_begin_with(value, "url(") || bytes_are(value, "none") {
            AttributeKind::Verbatim
        } else {
            AttributeKind::Colour
        }
    } else if bytes_are(key, "href") {
        AttributeKind::Link
    } else {
        AttributeKind::Verbatim
    }
}

/// What a link holds for the recolouring.
pub enum LinkSpec {
    /// No embedded image.
    Other,
    /// An embedded image without the comma that should precede its data.
    Broken,
    /// An embedded image with this data: what stands between the first comma
    /// and the next, or the end.
    Data(Seq<char>),
}

/// What a link holds. An embedded image is a link that begins with `data:image/`.
pub open spec fn link_of(text: Seq<char>) -> LinkSpec {
    if !begins_with(text, "data:image/"@) {
        LinkSpec::Other
    } else {
        let comma = next_at(text, ',', 0);
        if comma >= text.len() {
            LinkSpec::Broken
        } else {
            LinkSpec::Data(text.subrange(comma + 1, next_at(text, ',', comma + 1)))
        }
    }
}

/// What a link holds.
#[derive(Clone, Debug, PartialEq, Eq)]
pub enum Link {
    Other,
    Broken,
    Data(String),
}

impl View for Link {
    type V = LinkSpec;

    open spec fn view(&self) -> LinkSpec {
        match *self {
            Link::Other => LinkSpec::Other,
            Link::Broken => LinkSpec::Broken,
            Link::Data(d) => LinkSpec::Data(d@),
        }
    }
}

/// Takes the data of an embedded image out of a link.
pub fn read_link(text: &str) -> (l: Link)
    ensures
        l@ == link_of(text@),
{
    let v = chars_of(text);
    let head = chars_of("data:image/");
    if v.len() < head.len() {
        return Link::Other;
    }
    let mut i: usize = 0;
    while i < head.len()
        invariant
            head.len() <= v.len(),
            i <= head.len(),
            head@ == "data:image/"@,
            v@ == text@,
            forall|k: int| 0 <= k < i ==> v@[k] == head@[k],
        decreases head.len() - i,
    {
        if v[i] != head[i] {
            proof {
                assert(text@.subrange(0, head@.len() as int)[i as int] != head@[i as int]);
            }
            return Link::Other;
        }
        i = i + 1;
    }
    assert(text@.subrange(0, head@.len() as int) =~= head@);
    let comma = find_next(&v, ',', 0);
    if comma >= v.len() {
        return Link::Broken;
    }
    let end = find_next(&v, ',', comma + 1);
    Link::Data(string_of(&v, comma + 1, end))
}

/// The bytes that the standard base64 alphabet with padding writes as `text`,
/// if it writes any as it.
pub uninterp spec fn base64_decoded(text: Seq<char>) -> Option<Seq<u8>>;

/// `bytes` as the standard base64 alphabet with padding writes them.
pub uninterp spec fn base64_encoded(bytes: Seq<u8>) -> Seq<char>;

/// `decode` of base64's standard engine: the bytes that `text` encodes, or
/// nothing where `text` is no canonical encoding with padding.
#[verifier::external_body]
fn base64_decode(text: &str) -> (r: Option<Vec<u8>>)
    ensures
        match r {
            Some(bytes) => base64_decoded(text@) == Some(bytes@),
            None => base64_decoded(text@) is None,
        },
{
    base64::engine::general_purpose::STANDARD.decode(text).ok()
}

/// `encode` of base64's standard engine: the text that encodes `bytes`. The
/// engine does not return where the length of the text does not fit in
/// `usize`.
#[verifier::external_body]
fn base64_encode(bytes: &[u8]) -> (text: String)
    requires
        bytes@.len() / 3 * 4 + 4 <= usize::MAX,
    ensures
        text@ == base64_encoded(bytes@),
{
    base64::engine::general_purpose::STANDARD.encode(bytes)
}

/// `String::from_utf8`: the text that `bytes` encode in UTF-8, or nothing
/// where they encode none.
#[verifier::external_body]
fn utf8_text(bytes: Vec<u8>) -> (r: Option<String>)
    ensures
        match r {
            Some(text) => valid_utf8(bytes@) && text@ == decode_utf8(bytes@),
            None => !valid_utf8(bytes@),
        },
{
    String::from_utf8(bytes).ok()
}

/// What is to be done with a link, given what it holds and, for an embedded
/// image, the bytes that its data encode, if they encode any.
pub open spec fn link_plan(link: LinkSpec, decoded: Option<Seq<u8>>) -> Result<Plan, ConversionError> {
    match link {
        LinkSpec::Other => Ok(Plan::Keep),
        LinkSpec::Broken => Err(ConversionError::AttributeParseError),
        LinkSpec::Data(_) => match decoded {
            Some(bytes) => Ok(Plan::Embedded(bytes)),
            None => Err(ConversionError::AttributeParseError),
        },
    }
}

/// What is to be done with an attribute, given what decoding its value as
/// UTF-8 gives, and for an embedded image what decoding its data gives.
pub open spec fn attribute_plan(
    kind: AttributeKind,
    text: Option<Seq<char>>,
    decoded: Option<Seq<u8>>,
) -> Result<Plan, ConversionError> {
    match kind {
        AttributeKind::Verbatim => Ok(Plan::Keep),
        AttributeKind::Colour => match text {
            Some(t) => Ok(Plan::Recolor(t)),
            None => Err(ConversionError::AttributeParseError),
        },
        AttributeKind::Link => match text {
            Some(t) => link_plan(link_of(t), decoded),
            None => Err(ConversionError::AttributeParseError),
        },
    }
}

/// The data of the embedded image that `text` holds, if it holds one.
pub open spec fn data_of(text: Option<Seq<char>>) -> Option<Seq<char>> {
    match text {
        Some(t) => match link_of(t) {
            LinkSpec::Data(d) => Some(d),
            _ => None,
        },
        None => None,
    }
}

/// The text of a value, if it is UTF-8.
pub open spec fn text_of(value: Seq<u8>) -> Option<Seq<char>> {
    if valid_utf8(value) {
        Some(decode_utf8(value))
    } else {
        None
    }
}

/// What is to be done with the attribute with this name and this value.
pub open spec fn planned(key: Seq<u8>, value: Seq<u8>) -> Result<Plan, ConversionError> {
    attribute_plan(
        kind_of(key, value),
        text_of(value),
        match data_of(text_of(value)) {
            Some(d) => base64_decoded(d),
            None => None,
        },
    )
}

/// Decides what is to be done with a link whose text is `text`: a link that
/// is no embedded image is kept; an embedded image gives its bytes; one
/// without data, or with data that is no base64, is an error.
pub fn plan_link(text: &str) -> (r: Result<AttributeAction, ConversionError>)
    ensures
        match r {
            Ok(action) => Ok::<Plan, ConversionError>(action@) == link_plan(
                link_of(text@),
                match data_of(Some(text@)) {
                    Some(d) => base64_decoded(d),
                    None => None,
                },
            ),
            Err(e) => Err::<Plan, ConversionError>(e) == link_plan(
                link_of(text@),
                match data_of(Some(text@)) {
                    Some(d) => base64_decoded(d),
                    None => None,
                },
            ),
        },
{
    match read_link(text) {
        Link::Other => Ok(AttributeAction::Keep),
        Link::Broken => Err(ConversionError::AttributeParseError),
        Link::Data(data) => match base64_decode(data.as_str()) {
            Some(bytes) => Ok(AttributeAction::Embedded(bytes)),
            None => Err(ConversionError::AttributeParseError),
        },
    }
}

/// Decides what is to be done with the attribute with this name and this
/// value. Attributes named `fill`, `stroke`, `stop-color`, `flood-color` or
/// `lighting-color` are recoloured, unless the value is `none` or begins with
/// `url(`; an attribute named `href` whose value begins with `data:image/` is
/// an embedded image; every other attribute is kept. A value that is to be
/// read and is no UTF-8, and an embedded image whose data cannot be taken
/// out, are errors.
pub fn plan_attribute(key: &[u8], value: &[u8]) -> (r: Result<AttributeAction, ConversionError>)
    ensures
        match r {
            Ok(action) => Ok::<Plan, ConversionError>(action@) == planned(key@, value@),
            Err(e) => Err::<Plan, ConversionError>(e) == planned(key@, value@),
        },
{
    match classify(key, value) {
        AttributeKind::Verbatim => Ok(AttributeAction::Keep),
        AttributeKind::Colour => match utf8_text(vstd::slice::slice_to_vec(value)) {
            Some(text) => Ok(AttributeAction::Recolor(text)),
            None => Err(ConversionError::AttributeParseError),
        },
        AttributeKind::Link => match utf8_text(vstd::slice::slice_to_vec(value)) {
            Some(text) => plan_link(text.as_str()),
            None => Err(ConversionError::AttributeParseError),
        },
    }
}

/// A colour as it is written into a document: `#rrggbb`, and `#rrggbbaa`
/// where the alpha is not 255.
pub open spec fn colour_text(c: Seq<u8>) -> Seq<char> {
    let opaque = seq!['#'] + lower_hex_byte(c[0]) + lower_hex_byte(c[1]) + lower_hex_byte(c[2]);
    if c[3] == 255 {
        opaque
    } else {
        opaque + lower_hex_byte(c[3])
    }
}

/// Writes a colour of red, green, blue and alpha as the value of an attribute.
pub fn format_color(converted: [u8; 4]) -> (s: String)
    ensures
        s@ == colour_text(converted@),
{
    let mut s = String::new();
    s.push('#');
    let mut i: usize = 0;
    while i < 3
        invariant
            i <= 3,
            s@.len() == 1 + 2 * i,
            s@[0] == '#',
            forall|k: int|
                0 <= k < i ==> s@[1 + 2 * k] == lower_hex_byte(converted@[k])[0] && s@[2 + 2 * k]
                    == lower_hex_byte(converted@[k])[1],
        decreases 3 - i,
    {
        s.push(to_lower_digit(converted[i] / 16));
        s.push(to_lower_digit(converted[i] % 16));
        i = i + 1;
    }
    if converted[3] != 255 {
        s.push(to_lower_digit(converted[3] / 16));
        s.push(to_lower_digit(converted[3] % 16));
    }
    assert(s@ =~= colour_text(converted@));
    s
}

/// The link that embeds an image in PNG format.
pub open spec fn png_link(png: Seq<u8>) -> Seq<char> {
    "data:image/png;base64,"@ + base64_encoded(png)
}

/// Writes the bytes of an image in PNG format as a link that embeds them.
pub fn png_data_uri(png: &[u8]) -> (s: String)
    requires
        png@.len() / 3 * 4 + 4 <= usize::MAX,
    ensures
        s@ == png_link(png@),
{
    let encoded = base64_encode(png);
    joined("data:image/png;base64,", encoded.as_str())
}

/// The text of a link to `len` bytes fits in memory.
pub open spec fn embeddable(len: nat) -> bool {
    len / 3 * 4 + 4 <= usize::MAX
}

/// What became of an attribute, by its contents: the new value, or nothing
/// where the attribute stays as it is.
pub open spec fn outcome_of(r: Result<Option<String>, ConversionError>) -> Result<
    Option<Seq<char>>,
    ConversionError,
> {
    match r {
        Ok(Some(s)) => Ok(Some(s@)),
        Ok(None) => Ok(None),
        Err(e) => Err(e),
    }
}

/// `outcome` is what may become of the attribute with this name and this
/// value when `recolor` matches the colours and `reimage` converts the
/// embedded images:
/// - an attribute that is kept has no new value;
/// - a colour goes to `recolor` as text, and the match is written as a colour;
/// - the bytes of an embedded image go to `reimage`, and what comes back is
///   embedded as a PNG, unless it is too long to be written;
/// - an attribute that cannot be read, and a failure of `recolor` or of
///   `reimage`, are errors.
pub open spec fn may_become<C: Fn(String) -> Result<[u8; 4], ConversionError>, I: Fn(Vec<u8>) -> Result<
    Vec<u8>,
    ConversionError,
>>(
    key: Seq<u8>,
    value: Seq<u8>,
    recolor: C,
    reimage: I,
    outcome: Result<Option<Seq<char>>, ConversionError>,
) -> bool {
    match planned(key, value) {
        Err(e) => outcome == Err::<Option<Seq<char>>, ConversionError>(e),
        Ok(Plan::Keep) => outcome == Ok::<Option<Seq<char>>, ConversionError>(None),
        Ok(Plan::Recolor(t)) => exists|text: String, answer: Result<[u8; 4], ConversionError>|
            text@ == t && #[trigger] call_ensures(recolor, (text,), answer) && outcome == (
            match answer {
                Ok(px) => Ok(Some(colour_text(px@))),
                Err(e) => Err(e),
            }),
        Ok(Plan::Embedded(b)) => exists|bytes: Vec<u8>, answer: Result<Vec<u8>, ConversionError>|
            bytes@ == b && #[trigger] call_ensures(reimage, (bytes,), answer) && outcome == (
            match answer {
                Ok(png) => if embeddable(png@.len()) {
                    Ok(Some(png_link(png@)))
                } else {
                    Err(ConversionError::AttributeParseError)
                },
                Err(e) => Err(e),
            }),
    }
}

/// Converts one attribute: decides what is to be done with it, has
/// `recolor` match its colour or `reimage` convert its embedded image, and
/// writes the new value. `None` says that the attribute stays as it is.
pub fn convert_attribute<C: Fn(String) -> Result<[u8; 4], ConversionError>, I: Fn(Vec<u8>) -> Result<
    Vec<u8>,
    ConversionError,
>>(key: &[u8], value: &[u8], recolor: &C, reimage: &I) -> (r: Result<
    Option<String>,
    ConversionError,
>)
    requires
        forall|text: String| call_requires(*recolor, (text,)),
        forall|bytes: Vec<u8>| call_requires(*reimage, (bytes,)),
    ensures
        may_become(key@, value@, *recolor, *reimage, outcome_of(r)),
{
    match plan_attribute(key, value) {
        Err(e) => Err(e),
        Ok(AttributeAction::Keep) => Ok(None),
        Ok(AttributeAction::Recolor(text)) => {
            let ghost t = text@;
            let ghost sent = text;
            let answer = recolor(text);
            proof {
                assert(sent@ == t && call_ensures(*recolor, (sent,), answer));
            }
            match answer {
                Ok(px) => Ok(Some(format_color(px))),
                Err(e) => Err(e),
            }
        },
        Ok(AttributeAction::Embedded(bytes)) => {
            let ghost b = bytes@;
            let ghost sent = bytes;
            let answer = reimage(bytes);
            proof {
                assert(sent@ == b && call_ensures(*reimage, (sent,), answer));
            }
            match answer {
                Ok(png) => {
                    let n = png.len();
                    if n / 3 <= (usize::MAX - 4) / 4 {
                        Ok(Some(png_data_uri(png.as_slice())))
                    } else {
                        Err(ConversionError::AttributeParseError)
                    }
                },
                Err(e) => Err(e),
            }
        },
    }
}

/// The names and values of a run of attributes by their contents.
pub open spec fn attribute_bytes(attributes: Seq<(Vec<u8>, Vec<u8>)>) -> Seq<(Seq<u8>, Seq<u8>)> {
    Seq::new(attributes.len(), |i: int| (attributes[i].0@, attributes[i].1@))
}

/// The new values of a run of attributes by their contents.
pub open spec fn value_texts(values: Seq<Option<String>>) -> Seq<Option<Seq<char>>> {
    Seq::new(
        values.len(),
        |i: int|
            match values[i] {
                Some(s) => Some(s@),
                None => None,
            },
    )
}

/// The attribute at `at` is the first that fails, with the error `e`: each
/// attribute before it may become what `before` holds for it, and the one
/// at `at` may fail with `e`.
pub open spec fn fails_first_at<C: Fn(String) -> Result<[u8; 4], ConversionError>, I: Fn(Vec<u8>) -> Result<
    Vec<u8>,
    ConversionError,
>>(
    attributes: Seq<(Seq<u8>, Seq<u8>)>,
    recolor: C,
    reimage: I,
    at: int,
    before: Seq<Option<Seq<char>>>,
    e: ConversionError,
) -> bool {
    &&& 0 <= at < attributes.len()
    &&& before.len() == at
    &&& forall|k: int|
        0 <= k < at ==> may_become(
            attributes[k].0,
            attributes[k].1,
            recolor,
            reimage,
            Ok(#[trigger] before[k]),
        )
    &&& may_become(attributes[at].0, attributes[at].1, recolor, reimage, Err(e))
}

/// Converts the attributes of one element, in their order. The result holds
/// for each attribute its new value, or nothing where it stays as it is. The
/// first attribute that fails ends the work: its error is the result, the
/// attributes after it are not looked at, and no value is handed out.
pub fn convert_attributes<C: Fn(String) -> Result<[u8; 4], ConversionError>, I: Fn(Vec<u8>) -> Result<
    Vec<u8>,
    ConversionError,
>>(attributes: &Vec<(Vec<u8>, Vec<u8>)>, recolor: &C, reimage: &I) -> (r: Result<
    Vec<Option<String>>,
    ConversionError,
>)
    requires
        forall|text: String| call_requires(*recolor, (text,)),
        forall|bytes: Vec<u8>| call_requires(*reimage, (bytes,)),
    ensures
        match r {
            Ok(values) => values@.len() == attributes@.len() && forall|i: int|
                0 <= i < attributes@.len() ==> may_become(
                    attributes@[i].0@,
                    attributes@[i].1@,
                    *recolor,
                    *reimage,
                    Ok(#[trigger] value_texts(values@)[i]),
                ),
            Err(e) => exists|at: int, before: Seq<Option<Seq<char>>>| #[trigger]
                fails_first_at(attribute_bytes(attributes@), *recolor, *reimage, at, before, e),
        },
{
    let mut values: Vec<Option<String>> = Vec::new();
    let mut i: usize = 0;
    while i < attributes.len()
        invariant
            i <= attributes.len(),
            values@.len() == i,
            forall|text: String| call_requires(*recolor, (text,)),
            forall|bytes: Vec<u8>| call_requires(*reimage, (bytes,)),
            forall|k: int|
                0 <= k < i ==> may_become(
                    attributes@[k].0@,
                    attributes@[k].1@,
                    *recolor,
                    *reimage,
                    Ok(#[trigger] value_texts(values@)[k]),
                ),
        decreases attributes.len() - i,
    {
        let ghost before = value_texts(values@);
        match convert_attribute(attributes[i].0.as_slice(), attributes[i].1.as_slice(), recolor, reimage) {
            Ok(value) => {
                proof {
                    assert(outcome_of(Ok(value)) == Ok::<Option<Seq<char>>, ConversionError>(
                        match value {
                            Some(s) => Some(s@),
                            None => None,
                        },
                    ));
                }
                values.push(value);
                proof {
                    assert forall|k: int| 0 <= k < i + 1 implies may_become(
                        attributes@[k].0@,
                        attributes@[k].1@,
                        *recolor,
                        *reimage,
                        Ok(#[trigger] value_texts(values@)[k]),
                    ) by {
                        if k < i {
                            assert(value_texts(values@)[k] == before[k]);
                        }
                    }
                }
            },
            Err(e) => {
                proof {
                    assert(outcome_of(Err(e)) == Err::<Option<Seq<char>>, ConversionError>(e));
                    assert(may_become(
                        attributes@[i as int].0@,
                        attributes@[i as int].1@,
                        *recolor,
                        *reimage,
                        Err(e),
                    ));
                    assert(fails_first_at(
                        attribute_bytes(attributes@),
                        *recolor,
                        *reimage,
                        i as int,
                        before,
                        e,
                    ));
                }
                return Err(e);
            },
        }
        i = i + 1;
    }
    Ok(values)
}

} // verus!
