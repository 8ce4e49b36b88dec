use zjson::any::ParseAnyError;
use zjson::array::ParseArrayError;
use zjson::document::{ParseAnyDocumentError, ParseDocumentError};
use zjson::literal::ParseLiteralError;
use zjson::multi_document::{ParseAnyMultiDocumentError, ParseMultiDocumentError};
use zjson::number::ParseNumberError;
use zjson::object::ParseObjectError;
use zjson::string::ParseStringError;

#[test]
fn string_errors_are_described() {
    assert_eq!(ParseStringError::UnexpectedEnd.to_string(), "Unexpected end of JSON string (missing \")!");
    assert_eq!(ParseStringError::InvalidEscape('x').to_string(), "Invalid escape character (x) in JSON string!");
    assert_eq!(
        ParseStringError::InvalidUnicodeEscape('\u{fc}').to_string(),
        "Invalid character (\u{fc}) in unicode escape in JSON string!"
    );
    assert_eq!(
        ParseStringError::MissingHighSurrogate { low: 0xdc0f }.to_string(),
        "Found a low surrogate (\\udc0f) not prefixed with a high surrogate!"
    );
    assert_eq!(
        ParseStringError::MissingLowSurrogate { high: 0xd83d }.to_string(),
        "Found a high surrogate (\\ud83d) not followed by a low surrogate!"
    );
    assert_eq!(
        ParseStringError::InvalidLowSurrogate { high: 0xd83d, low: 0x41 }.to_string(),
        "Invalid low surrogate (\\u0041) after a high surrogate (\\ud83d!)"
    );
    for n in [0_u16, 0x1, 0x10, 0x100, 0x1000, 0xabcd, 0xffff, 0x9a0b] {
        assert_eq!(
            ParseStringError::MissingLowSurrogate { high: n }.to_string(),
            format!("Found a high surrogate (\\u{n:0>4x}) not followed by a low surrogate!")
        );
    }
}

#[test]
fn number_errors_are_described() {
    assert_eq!(
        ParseNumberError::UnexpectedEnd { or_sign: true }.to_string(),
        "Unexpected end of JSON number (expected minus sign or digit)!"
    );
    assert_eq!(
        ParseNumberError::UnexpectedEnd { or_sign: false }.to_string(),
        "Unexpected end of JSON number (expected digit)!"
    );
    assert_eq!(
        ParseNumberError::UnexpectedEndAfterExponent { or_sign: true }.to_string(),
        "Unexpected end of JSON number exponent (expected sign or digit)!"
    );
    assert_eq!(
        ParseNumberError::UnexpectedEndAfterExponent { or_sign: false }.to_string(),
        "Unexpected end of JSON number exponent (expected digit)!"
    );
    assert_eq!(
        ParseNumberError::ExpectedMinusOrDigit('x').to_string(),
        "Invalid character (x) in JSON number (expected minus sign or digit)!"
    );
    assert_eq!(
        ParseNumberError::ExpectedDigit('x').to_string(),
        "Invalid character (x) in JSON number (expected digit)!"
    );
    assert_eq!(
        ParseNumberError::ExpectedSignOrDigit('x').to_string(),
        "Invalid character (x) in JSON number (expected sign or digit)!"
    );
}

#[test]
fn container_errors_are_described() {
    assert_eq!(ParseLiteralError::UnexpectedEnd.to_string(), "Unexpected end of JSON literal!");
    assert_eq!(
        ParseLiteralError::UnexpectedCharacter('x').to_string(),
        "Invalid character (x) in JSON literal!"
    );
    assert_eq!(ParseArrayError::UnexpectedEnd.to_string(), "Unexpected end of JSON array!");
    assert_eq!(
        ParseArrayError::InvalidElement { c: 'j', or_end: true }.to_string(),
        "Invalid character (j) in JSON array (expected an element or an end, ']')!"
    );
    assert_eq!(
        ParseArrayError::InvalidElement { c: 'j', or_end: false }.to_string(),
        "Invalid character (j) in JSON array (expected an element)!"
    );
    assert_eq!(
        ParseArrayError::ExpectedCommaOrEnd('j').to_string(),
        "Invalid character (j) in JSON array (expected a comma or an end, ']')"
    );
    assert_eq!(ParseArrayError::TrailingComma.to_string(), "Trailing comma in JSON array!");
    assert_eq!(ParseObjectError::UnexpectedEnd.to_string(), "Unexpected end of JSON object!");
    assert_eq!(
        ParseObjectError::ExpectedName { c: 'j', or_end: true }.to_string(),
        "Invalid character (j) in JSON object (expected a string name or an end, '}')!"
    );
    assert_eq!(
        ParseObjectError::ExpectedName { c: 'j', or_end: false }.to_string(),
        "Invalid character (j) in JSON object (expected a string name)!"
    );
    assert_eq!(
        ParseObjectError::InvalidName(ParseStringError::InvalidEscape('x')).to_string(),
        "Invalid escape character (x) in JSON string!"
    );
    assert_eq!(
        ParseObjectError::ExpectedColon('j').to_string(),
        "Invalid character (j) in JSON object (expected a colon, ':')!"
    );
    assert_eq!(
        ParseObjectError::InvalidElement('j').to_string(),
        "Invalid character (j) in JSON object (expected a value)!"
    );
    assert_eq!(
        ParseObjectError::ExpectedCommaOrEnd('j').to_string(),
        "Invalid character (j) in JSON object (expected a comma or an end, '}')!"
    );
    assert_eq!(ParseObjectError::TrailingComma.to_string(), "Trailing comma in JSON object!");
}

#[test]
fn driver_errors_are_described() {
    assert_eq!(
        ParseDocumentError::UnexpectedEnd.to_string(),
        "Unexpected end of JSON document (expected a JSON value)!"
    );
    assert_eq!(
        ParseDocumentError::InvalidElement('j').to_string(),
        "Invalid character (j) in JSON document (expected an element)!"
    );
    assert_eq!(
        ParseDocumentError::UnexpectedCharacter('j').to_string(),
        "Unexpected character (j) at the end of JSON document!"
    );
    assert_eq!(
        ParseMultiDocumentError::InvalidElement('j').to_string(),
        "Invalid character (j) in JSON document (expected an element)!"
    );
    assert_eq!(
        ParseAnyDocumentError::Document(ParseDocumentError::UnexpectedCharacter('j')).to_string(),
        "Unexpected character (j) at the end of JSON document!"
    );
    assert_eq!(
        ParseAnyDocumentError::Any(ParseAnyError::Array(ParseArrayError::TrailingComma)).to_string(),
        "Trailing comma in JSON array!"
    );
    assert_eq!(
        ParseAnyMultiDocumentError::MultiDocument(ParseMultiDocumentError::InvalidElement('j')).to_string(),
        "Invalid character (j) in JSON document (expected an element)!"
    );
    assert_eq!(
        ParseAnyMultiDocumentError::Any(ParseAnyError::Literal(ParseLiteralError::UnexpectedEnd)).to_string(),
        "Unexpected end of JSON literal!"
    );
    assert_eq!(ParseAnyError::String(ParseStringError::UnexpectedEnd).to_string(), "Unexpected end of JSON string (missing \")!");
    assert_eq!(
        ParseAnyError::Number(ParseNumberError::ExpectedDigit('x')).to_string(),
        "Invalid character (x) in JSON number (expected digit)!"
    );
    assert_eq!(ParseAnyError::Object(ParseObjectError::TrailingComma).to_string(), "Trailing comma in JSON object!");
}

#[test]
fn errors_convert_to_the_errors_that_hold_them() {
    let string = ParseStringError::UnexpectedEnd;
    let number = ParseNumberError::ExpectedDigit('x');
    let object = ParseObjectError::TrailingComma;
    let array = ParseArrayError::TrailingComma;
    let literal = ParseLiteralError::UnexpectedEnd;
    assert_eq!(ParseAnyError::from(string), ParseAnyError::String(string));
    assert_eq!(ParseAnyError::from(number), ParseAnyError::Number(number));
    assert_eq!(ParseAnyError::from(object), ParseAnyError::Object(object));
    assert_eq!(ParseAnyError::from(array), ParseAnyError::Array(array));
    assert_eq!(ParseAnyError::from(literal), ParseAnyError::Literal(literal));
    let document = ParseDocumentError::UnexpectedEnd;
    assert_eq!(ParseAnyDocumentError::from(document), ParseAnyDocumentError::Document(document));
    assert_eq!(ParseAnyDocumentError::from(ParseAnyError::Array(array)), ParseAnyDocumentError::Any(ParseAnyError::Array(array)));
    assert_eq!(ParseAnyDocumentError::from(string), ParseAnyDocumentError::Any(ParseAnyError::String(string)));
    assert_eq!(ParseAnyDocumentError::from(number), ParseAnyDocumentError::Any(ParseAnyError::Number(number)));
    assert_eq!(ParseAnyDocumentError::from(object), ParseAnyDocumentError::Any(ParseAnyError::Object(object)));
    assert_eq!(ParseAnyDocumentError::from(array), ParseAnyDocumentError::Any(ParseAnyError::Array(array)));
    assert_eq!(ParseAnyDocumentError::from(literal), ParseAnyDocumentError::Any(ParseAnyError::Literal(literal)));
    let multi = ParseMultiDocumentError::InvalidElement('x');
    assert_eq!(ParseAnyMultiDocumentError::from(multi), ParseAnyMultiDocumentError::MultiDocument(multi));
    assert_eq!(ParseAnyMultiDocumentError::from(ParseAnyError::Array(array)), ParseAnyMultiDocumentError::Any(ParseAnyError::Array(array)));
    assert_eq!(ParseAnyMultiDocumentError::from(string), ParseAnyMultiDocumentError::Any(ParseAnyError::String(string)));
    assert_eq!(ParseAnyMultiDocumentError::from(number), ParseAnyMultiDocumentError::Any(ParseAnyError::Number(number)));
    assert_eq!(ParseAnyMultiDocumentError::from(object), ParseAnyMultiDocumentError::Any(ParseAnyError::Object(object)));
    assert_eq!(ParseAnyMultiDocumentError::from(array), ParseAnyMultiDocumentError::Any(ParseAnyError::Array(array)));
    assert_eq!(ParseAnyMultiDocumentError::from(literal), ParseAnyMultiDocumentError::Any(ParseAnyError::Literal(literal)));
}
