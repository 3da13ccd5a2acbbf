use faerber::convert::ConversionError;
use faerber::vector::{
    classify, convert_attribute, convert_attributes, format_color, plan_attribute, plan_link,
    png_data_uri, read_link, step_for, AttributeAction, AttributeKind, EventKind, Link, Step,
};

fn to_black(text: String) -> Result<[u8; 4], ConversionError> {
    if text == "red" || text == "#ff0000" {
        Ok([0, 0, 0, 255])
    } else if text == "glass" {
        Ok([1, 2, 3, 4])
    } else {
        Err(ConversionError::AttributeParseError)
    }
}

fn reversed(bytes: Vec<u8>) -> Result<Vec<u8>, ConversionError> {
    if bytes.is_empty() {
        Err(ConversionError::InvalidConversionMethod)
    } else {
        Ok(bytes.into_iter().rev().collect())
    }
}

#[test]
fn colour_attributes_are_recoloured() {
    for key in ["fill", "stroke", "stop-color", "flood-color", "lighting-color"] {
        assert_eq!(classify(key.as_bytes(), b"#ff0000"), AttributeKind::Colour);
        assert_eq!(classify(key.as_bytes(), b"red"), AttributeKind::Colour);
        assert_eq!(classify(key.as_bytes(), b""), AttributeKind::Colour);
        assert_eq!(classify(key.as_bytes(), b"url"), AttributeKind::Colour);
        assert_eq!(classify(key.as_bytes(), b"None"), AttributeKind::Colour);
        assert_eq!(classify(key.as_bytes(), b"none"), AttributeKind::Verbatim);
        assert_eq!(classify(key.as_bytes(), b"url(#gradient)"), AttributeKind::Verbatim);
        assert_eq!(classify(key.as_bytes(), b"url("), AttributeKind::Verbatim);
    }
}

#[test]
fn other_attributes_are_copied() {
    for key in ["", "Fill", "fills", "fil", "color", "stop-colour", "xlink:href", "width"] {
        assert_eq!(classify(key.as_bytes(), b"#ff0000"), AttributeKind::Verbatim);
        assert_eq!(plan_attribute(key.as_bytes(), b"\xff\xfe"), Ok(AttributeAction::Keep));
    }
    assert_eq!(classify(b"href", b"anything"), AttributeKind::Link);
}

#[test]
fn colour_values_are_handed_out_as_text() {
    assert_eq!(
        plan_attribute(b"fill", b"#ff0000"),
        Ok(AttributeAction::Recolor("#ff0000".to_string()))
    );
    assert_eq!(
        plan_attribute(b"stroke", "rgb(1 2 3) \u{e9}".as_bytes()),
        Ok(AttributeAction::Recolor("rgb(1 2 3) \u{e9}".to_string()))
    );
    assert_eq!(plan_attribute(b"fill", b"none"), Ok(AttributeAction::Keep));
    assert_eq!(plan_attribute(b"fill", b"url(#a)"), Ok(AttributeAction::Keep));
}

#[test]
fn values_that_are_no_text_are_errors() {
    assert_eq!(plan_attribute(b"fill", b"\xff"), Err(ConversionError::AttributeParseError));
    assert_eq!(plan_attribute(b"fill", b"\xc3"), Err(ConversionError::AttributeParseError));
    assert_eq!(plan_attribute(b"href", b"\x80abc"), Err(ConversionError::AttributeParseError));
}

#[test]
fn links_without_an_image_are_kept() {
    assert_eq!(plan_attribute(b"href", b"https://example.org/a,b"), Ok(AttributeAction::Keep));
    assert_eq!(plan_attribute(b"href", b"#anchor"), Ok(AttributeAction::Keep));
    assert_eq!(plan_attribute(b"href", b"data:text/plain;base64,aGk="), Ok(AttributeAction::Keep));
    assert_eq!(plan_attribute(b"href", b"Data:image/png;base64,aGk="), Ok(AttributeAction::Keep));
    assert_eq!(read_link("data:image"), Link::Other);
    assert_eq!(read_link(""), Link::Other);
}

#[test]
fn embedded_images_give_their_bytes() {
    assert_eq!(
        plan_attribute(b"href", b"data:image/png;base64,aGVsbG8gd29ybGR+Cg=="),
        Ok(AttributeAction::Embedded(b"hello world~\n".to_vec()))
    );
    assert_eq!(
        plan_link("data:image/jpeg;base64,AAEC,ignored"),
        Ok(AttributeAction::Embedded(vec![0, 1, 2]))
    );
    assert_eq!(plan_link("data:image/png;base64,"), Ok(AttributeAction::Embedded(vec![])));
    assert_eq!(
        read_link("data:image/png;base64,AAEC,rest,more"),
        Link::Data("AAEC".to_string())
    );
}

#[test]
fn embedded_images_without_data_are_errors() {
    assert_eq!(read_link("data:image/png;base64"), Link::Broken);
    assert_eq!(plan_link("data:image/png;base64"), Err(ConversionError::AttributeParseError));
    assert_eq!(
        plan_attribute(b"href", b"data:image/png;base64,not base64!"),
        Err(ConversionError::AttributeParseError)
    );
    assert_eq!(
        plan_attribute(b"href", b"data:image/png;base64,AAE"),
        Err(ConversionError::AttributeParseError)
    );
}

#[test]
fn colours_are_written_with_six_or_eight_digits() {
    assert_eq!(format_color([0xff, 0x00, 0x0a, 0xff]), "#ff000a");
    assert_eq!(format_color([0xff, 0x00, 0x0a, 0xfe]), "#ff000afe");
    assert_eq!(format_color([0x01, 0x02, 0x03, 0x00]), "#01020300");
    assert_eq!(format_color([0xab, 0xcd, 0xef, 0x09]), "#abcdef09");
}

#[test]
fn images_are_embedded_as_base64() {
    assert_eq!(png_data_uri(b"hello world~\n"), "data:image/png;base64,aGVsbG8gd29ybGR+Cg==");
    assert_eq!(png_data_uri(&[]), "data:image/png;base64,");
    assert_eq!(png_data_uri(&[0, 1, 2, 3]), "data:image/png;base64,AAECAw==");
    let uri = png_data_uri(&[250, 251, 252, 253, 254, 255]);
    assert_eq!(
        plan_attribute(b"href", uri.as_bytes()),
        Ok(AttributeAction::Embedded(vec![250, 251, 252, 253, 254, 255]))
    );
}

#[test]
fn only_elements_are_rewritten() {
    assert_eq!(step_for(EventKind::Start), Step::Rewrite);
    assert_eq!(step_for(EventKind::Empty), Step::Rewrite);
    assert_eq!(step_for(EventKind::Other), Step::Copy);
    assert_eq!(step_for(EventKind::Eof), Step::Stop);
}

#[test]
fn attributes_get_their_new_values() {
    assert_eq!(convert_attribute(b"width", b"10", &to_black, &reversed), Ok(None));
    assert_eq!(convert_attribute(b"fill", b"none", &to_black, &reversed), Ok(None));
    assert_eq!(convert_attribute(b"href", b"#a", &to_black, &reversed), Ok(None));
    assert_eq!(
        convert_attribute(b"fill", b"red", &to_black, &reversed),
        Ok(Some("#000000".to_string()))
    );
    assert_eq!(
        convert_attribute(b"stroke", b"glass", &to_black, &reversed),
        Ok(Some("#01020304".to_string()))
    );
    assert_eq!(
        convert_attribute(b"href", b"data:image/png;base64,AAEC", &to_black, &reversed),
        Ok(Some("data:image/png;base64,AgEA".to_string()))
    );
}

#[test]
fn attributes_that_fail_are_errors() {
    assert_eq!(
        convert_attribute(b"fill", b"blue", &to_black, &reversed),
        Err(ConversionError::AttributeParseError)
    );
    assert_eq!(
        convert_attribute(b"fill", b"\xff", &to_black, &reversed),
        Err(ConversionError::AttributeParseError)
    );
    assert_eq!(
        convert_attribute(b"href", b"data:image/png;base64,", &to_black, &reversed),
        Err(ConversionError::InvalidConversionMethod)
    );
    assert_eq!(
        convert_attribute(b"href", b"data:image/png;base64", &to_black, &reversed),
        Err(ConversionError::AttributeParseError)
    );
}

#[test]
fn the_first_failing_attribute_ends_the_element() {
    let pair = |k: &str, v: &str| (k.as_bytes().to_vec(), v.as_bytes().to_vec());
    let good = vec![pair("id", "a"), pair("fill", "red"), pair("stroke", "none"), pair("stop-color", "glass")];
    assert_eq!(
        convert_attributes(&good, &to_black, &reversed),
        Ok(vec![None, Some("#000000".to_string()), None, Some("#01020304".to_string())])
    );
    assert_eq!(convert_attributes(&vec![], &to_black, &reversed), Ok(vec![]));
    let seen = std::cell::RefCell::new(Vec::new());
    let watching = |text: String| {
        seen.borrow_mut().push(text.clone());
        to_black(text)
    };
    let bad = vec![
        pair("fill", "red"),
        pair("href", "data:image/png;base64,"),
        pair("stroke", "blue"),
        pair("fill", "glass"),
    ];
    assert_eq!(
        convert_attributes(&bad, &watching, &reversed),
        Err(ConversionError::InvalidConversionMethod)
    );
    assert_eq!(seen.into_inner(), vec!["red".to_string()]);
    // Of two attributes that fail, the first decides.
    let both = vec![pair("stroke", "blue"), pair("href", "data:image/png;base64,")];
    assert_eq!(
        convert_attributes(&both, &to_black, &reversed),
        Err(ConversionError::AttributeParseError)
    );
}
