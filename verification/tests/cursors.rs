use zjson::array::ParseArrayError;
use zjson::object::ParseObjectError;
use zjson::string::ParseStringError;
use zjson::test_parent::TestParent;

fn array_empty() {
    let mut parent = TestParent::new("]");
    let mut array = parent.array();

    let value = array.next().expect("failed to parse array");
    assert!(value.is_none());

    assert!(parent.remaining.is_empty());
}

fn object_empty() {
    let mut parent = TestParent::new("}");
    let mut object = parent.object();

    let value = object.next().expect("failed to parse object");
    assert!(value.is_none());

    assert!(parent.remaining.is_empty());
}

fn string_empty() {
    let mut parent = TestParent::new("\"");
    let mut string = parent.string();

    let value = string.get().expect("failed to parse string");
    assert!(value.is_empty());

    assert!(parent.remaining.is_empty());
}

fn document_empty() {
    let error = zjson::document::Document::new("")
        .next()
        .expect_err("failed to return error after parsing empty document");

    assert_eq!(error, zjson::document::ParseDocumentError::UnexpectedEnd);
}

fn multi_document_empty() {
    let mut document = zjson::multi_document::MultiDocument::new("");
    let value = document.next().expect("failed to parse document");

    assert!(value.is_none());
}

#[test]
fn mod_empty() {
    array_empty();
    document_empty();
    multi_document_empty();
    object_empty();
    string_empty();
}

fn array_string() {
    let expected_value = "value1";
    let json = format!("\"{expected_value}\"]");

    let mut parent = TestParent::new(&json);
    let mut array = parent.array();

    let value = array
        .next()
        .expect("failed to parse array")
        .expect("failed to get value from array")
        .string()
        .expect("failed to get string from array")
        .get()
        .expect("failed to parse string");

    assert_eq!(value, expected_value);

    let next = array.next().expect("failed to parse array");
    assert!(next.is_none());

    assert!(parent.remaining.is_empty());
}

fn object_string() {
    let expected_key = "key1";
    let expected_value = "value1";
    let json = format!("\"{expected_key}\": \"{expected_value}\"}}");

    let mut parent = TestParent::new(&json);
    let mut object = parent.object();

    let (key, value) = object
        .next()
        .expect("failed to parse object")
        .expect("failed to get value from object");

    let value = value
        .string()
        .expect("failed to get string from object")
        .get()
        .expect("failed to parse string");

    assert_eq!(key, expected_key);
    assert_eq!(value, expected_value);

    let next = object.next().expect("failed to parse object");
    assert!(next.is_none());

    assert!(parent.remaining.is_empty());
}

fn string_string() {
    let expected_value = "value1";
    let json = format!("{expected_value}\"");

    let mut parent = TestParent::new(&json);
    let mut string = parent.string();

    let value = string.get().expect("failed to parse string");

    assert_eq!(value, expected_value);

    assert!(parent.remaining.is_empty());
}

#[test]
fn mod_string() {
    array_string();
    object_string();
    string_string();
}

fn array_invalid() {
    let invalid = 'j';
    let json = invalid.to_string();

    let mut parent = TestParent::new(&json);
    let mut array = parent.array();

    let error = array
        .next()
        .expect_err("failed to return error from invalid array");

    assert_eq!(
        error,
        ParseArrayError::InvalidElement {
            c: invalid,
            or_end: true
        }
    );

    assert_eq!(parent.remaining, json);
}

fn object_invalid() {
    let invalid = 'j';
    let json = invalid.to_string();

    let mut parent = TestParent::new(&json);
    let mut object = parent.object();

    let error = object
        .next()
        .expect_err("failed to return error from invalid object");

    assert_eq!(
        error,
        ParseObjectError::ExpectedName {
            c: invalid,
            or_end: true
        }
    );

    assert_eq!(parent.remaining, json);
}

#[test]
fn mod_invalid() {
    array_invalid();
    object_invalid();
}

fn array_invalid_after_valid() {
    let expected = "value1";
    let invalid = 'j';

    let json = format!("\"{expected}\", {invalid}");

    let mut parent = TestParent::new(&json);
    let mut array = parent.array();

    let value = array
        .next()
        .expect("failed to parse array")
        .expect("failed to get value from array")
        .string()
        .expect("failed to get string from array")
        .get()
        .expect("failed to parse string");

    assert_eq!(value, expected);

    let error = array
        .next()
        .expect_err("failed to return error from invalid array");

    assert_eq!(
        error,
        ParseArrayError::InvalidElement {
            c: invalid,
            or_end: false
        }
    );

    assert_eq!(parent.remaining, json);
}

fn object_invalid_after_valid() {
    let expected_key = "key1";
    let expected_value = "value1";
    let invalid = 'j';

    let json = format!("\"{expected_key}\": \"{expected_value}\", {invalid}");

    let mut parent = TestParent::new(&json);
    let mut object = parent.object();

    let (key, value) = object
        .next()
        .expect("failed to parse object")
        .expect("failed to get value from object");

    let value = value
        .string()
        .expect("failed to get string from object")
        .get()
        .expect("failed to parse string");

    assert_eq!(key, expected_key);
    assert_eq!(value, expected_value);

    let error = object
        .next()
        .expect_err("failed to return error from invalid object");

    assert_eq!(
        error,
        ParseObjectError::ExpectedName {
            c: invalid,
            or_end: false
        }
    );

    assert_eq!(parent.remaining, json);
}

#[test]
fn mod_invalid_after_valid() {
    array_invalid_after_valid();
    object_invalid_after_valid();
}

#[test]
fn escape() {
    let expected = " \" \\ / \x08 \x0c \n \r \t ";
    let json = r#" \" \\ \/ \b \f \n \r \t ""#;

    let mut parent = TestParent::new(json);
    let mut string = parent.string();

    let value = string.get().expect("failed to parse string");

    assert_eq!(value, expected);

    assert!(parent.remaining.is_empty());
}

#[test]
fn unicode_escape() {
    let expected = "\u{fc}";
    let json = r#"\u00fc""#;

    let mut parent = TestParent::new(json);
    let mut string = parent.string();

    let value = string.get().expect("failed to parse string");

    assert_eq!(value, expected);

    assert!(parent.remaining.is_empty());
}

#[test]
fn terminated() {
    let json = "j";

    let mut parent = TestParent::new(json);
    let mut string = parent.string();

    let error = string
        .get()
        .expect_err("failed to return error from invalid string");

    assert_eq!(error, ParseStringError::UnexpectedEnd);
}
