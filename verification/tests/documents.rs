use zjson::document::{Document, ParseDocumentError};
use zjson::multi_document::{MultiDocument, ParseMultiDocumentError};

fn document_parse_string() {
    let expected = "Hello, World!";
    let json = format!("\"{expected}\"");

    let mut document = Document::new(&json);

    let parsed = document
        .next()
        .expect("failed to parse document")
        .expect("got no values in document")
        .string()
        .expect("expected string from document")
        .get()
        .expect("failed to parse string");

    assert_eq!(parsed, expected);
    assert!(document.next().expect("failed to parse document").is_none());
}

fn multi_document_parse_string() {
    let expected = "Hello, World!";
    let json = format!("\"{expected}\"");

    let mut document = MultiDocument::new(&json);

    let parsed = document
        .next()
        .expect("failed to parse document")
        .expect("got no values in document")
        .string()
        .expect("expected string from document")
        .get()
        .expect("failed to parse string");

    assert_eq!(parsed, expected);
    assert!(document.next().expect("failed to parse document").is_none());
}

#[test]
fn mod_parse_string() {
    document_parse_string();
    multi_document_parse_string();
}

fn document_multiple_values() {
    let expected = "Hello, World!";
    let json = format!("\"{expected}\"\"s2\"");

    let mut document = Document::new(&json);

    let parsed = document
        .next()
        .expect("failed to parse document")
        .expect("got no values in document")
        .string()
        .expect("expected string from document")
        .get()
        .expect("failed to parse string");

    assert_eq!(parsed, expected);

    let error = document
        .next()
        .expect_err("failed to return error after parsing invalid document");

    assert_eq!(error, ParseDocumentError::UnexpectedCharacter('"'));
}

fn multi_document_multiple_values() {
    let expected = "Hello, World!";
    let expected2 = "s2";
    let json = format!("\"{expected}\"\"s2\"");

    let mut document = MultiDocument::new(&json);

    let parsed = document
        .next()
        .expect("failed to parse document")
        .expect("got no values in document")
        .string()
        .expect("expected string from document")
        .get()
        .expect("failed to parse string");

    assert_eq!(parsed, expected);

    let parsed = document
        .next()
        .expect("failed to parse document")
        .expect("got no more values in document")
        .string()
        .expect("expected string from document")
        .get()
        .expect("failed to parse string");

    assert_eq!(parsed, expected2);

    assert!(document.next().expect("failed to parse document").is_none());
}

#[test]
fn mod_multiple_values() {
    document_multiple_values();
    multi_document_multiple_values();
}

fn document_parse_invalid() {
    let invalid = 'j';
    let json = invalid.to_string();
    let mut document = Document::new(&json);

    let error = document
        .next()
        .expect_err("failed to return error after parsing invalid document");

    assert_eq!(error, ParseDocumentError::InvalidElement(invalid));
}

fn multi_document_parse_invalid() {
    let invalid = 'j';
    let json = invalid.to_string();
    let mut document = MultiDocument::new(&json);

    let error = document
        .next()
        .expect_err("failed to return error after parsing invalid document");

    assert_eq!(error, ParseMultiDocumentError::InvalidElement(invalid));
}

#[test]
fn mod_parse_invalid() {
    document_parse_invalid();
    multi_document_parse_invalid();
}

fn document_invalid_after_value() {
    let expected = "Hello, World!";
    let invalid = 'j';
    let json = format!("\"{expected}\"{invalid}");

    let mut document = Document::new(&json);

    let parsed = document
        .next()
        .expect("failed to parse document")
        .expect("got no values in document")
        .string()
        .expect("expected string from document")
        .get()
        .expect("failed to parse string");

    assert_eq!(parsed, expected);

    let error = document
        .next()
        .expect_err("failed to return error after parsing invalid document");

    assert_eq!(error, ParseDocumentError::UnexpectedCharacter(invalid));
}

fn multi_document_invalid_after_value() {
    let expected = "Hello, World!";
    let invalid = 'j';
    let json = format!("\"{expected}\"{invalid}");

    let mut document = MultiDocument::new(&json);

    let parsed = document
        .next()
        .expect("failed to parse document")
        .expect("got no values in document")
        .string()
        .expect("expected string from document")
        .get()
        .expect("failed to parse string");

    assert_eq!(parsed, expected);

    let error = document
        .next()
        .expect_err("failed to return error after parsing invalid document");

    assert_eq!(error, ParseMultiDocumentError::InvalidElement(invalid));
}

#[test]
fn mod_invalid_after_value() {
    document_invalid_after_value();
    multi_document_invalid_after_value();
}
