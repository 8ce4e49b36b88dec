use zjson::any::{Any, ParseAnyError};
use zjson::array::ParseArrayError;
use zjson::containers::{ParsePrompt, ParseStatus};
use zjson::document::{Document, ParseAnyDocumentError, ParseDocumentError};
use zjson::literal::ParsedLiteral;
use zjson::multi_document::{MultiDocument, ParseAnyMultiDocumentError, ParseMultiDocumentError};
use zjson::object::ParseObjectError;
use zjson::string::ParseStringError;
use zjson::test_parent::TestParent;

#[test]
fn walks_a_nested_document() {
    let json = r#"{"one":1,"array":[true,false,null],"object":{"pi":3.14,"exp":1e5}}"#;
    let mut document = Document::new(json);

    let mut root = document
        .next()
        .expect("failed to parse document")
        .and_then(Any::object)
        .expect("failed to get an object from the document");

    let element = root.next().expect("failed to parse object");
    let Some((key, Any::Number(mut one))) = element else {
        panic!("failed to get a number from the object");
    };
    let one = one.get().expect("failed to parse number");
    assert_eq!(key, "one");
    assert_eq!(one.as_u8(), Some(1));

    let element = root.next().expect("failed to parse object");
    let Some((key, Any::Array(mut array))) = element else {
        panic!("failed to get an array from the object");
    };
    assert_eq!(key, "array");
    let mut literals = Vec::new();
    while let Some(value) = array.next().expect("failed to parse array") {
        let mut literal = value.literal().expect("failed to get a literal from the array");
        literals.push(literal.get().expect("failed to parse a literal"));
    }
    assert_eq!(
        literals,
        vec![ParsedLiteral::True, ParsedLiteral::False, ParsedLiteral::Null]
    );

    let element = root.next().expect("failed to parse object");
    let Some((key, Any::Object(mut object))) = element else {
        panic!("failed to get an object from the object");
    };
    assert_eq!(key, "object");

    let member = object.next().expect("failed to parse inner object");
    let Some((key, Any::Number(mut pi))) = member else {
        panic!("failed to get a number from the inner object");
    };
    let pi = pi.get().expect("failed to parse a number");
    assert_eq!(key, "pi");
    assert_eq!(pi.as_str(), "3.14");

    let member = object.next().expect("failed to parse inner object");
    let Some((key, Any::Number(mut exp))) = member else {
        panic!("failed to get a number from the inner object");
    };
    let exp = exp.get().expect("failed to parse a number");
    assert_eq!(key, "exp");
    assert_eq!(exp.as_str().parse::<f32>().expect("failed to parse a float"), 1e5);

    object.finish().expect("failed to parse inner object");
    root.finish().expect("failed to parse object");
    document.finish().expect("failed to parse document");
    assert!(document.remaining.is_empty());
}

#[test]
fn skips_what_the_caller_does_not_read() {
    let json = " {\"one\" : 1 , \"array\" : [ true , [ ] , { } , \"a]\\\"\" ] , \"o\" : { \"pi\" : 3.14 } } \n";
    let mut document = Document::new(json);
    let mut root = document
        .next()
        .expect("failed to parse document")
        .and_then(Any::object)
        .expect("failed to get an object from the document");
    let (key, _) = root
        .next()
        .expect("failed to parse object")
        .expect("failed to get a member");
    assert_eq!(key, "one");
    root.finish().expect("failed to finish the object");
    assert_eq!(document.remaining, " \n");
    assert_eq!(document.parse_status, Some(ParseStatus::Done));
    document.finish().expect("failed to finish the document");
    assert!(document.remaining.is_empty());
}

#[test]
fn finishes_a_document_that_was_not_read() {
    let mut document = Document::new(r#" [1, {"a": [null, "x"]}, -2.5e+3] "#);
    assert_eq!(document.finish(), Ok(()));
    assert!(document.remaining.is_empty());
    assert_eq!(document.parse_status, Some(ParseStatus::Done));
    assert!(document.next().expect("failed to parse document").is_none());
}

#[test]
fn document_yields_one_string() {
    let mut document = Document::new("\"Hello\"");
    let parsed = document
        .next()
        .expect("failed to parse document")
        .expect("got no values in document")
        .string()
        .expect("expected string from document")
        .get()
        .expect("failed to parse string");
    assert_eq!(parsed, "Hello");
    assert_eq!(parsed.escaped(), "Hello");
    assert!(document.next().expect("failed to parse document").is_none());
}

#[test]
fn array_reports_an_invalid_element() {
    let mut parent = TestParent::new("1, j]");
    let mut array = parent.array();
    let number = array
        .next()
        .expect("failed to parse array")
        .expect("failed to get value from array")
        .number()
        .expect("failed to get number from array")
        .get()
        .expect("failed to parse number");
    assert_eq!(number.as_str(), "1");
    let error = array.next().expect_err("failed to return error from invalid array");
    assert_eq!(error, ParseArrayError::InvalidElement { c: 'j', or_end: false });
    assert_eq!(array.remaining, "j]");
    let again = array.next().expect_err("failed to return the error again");
    assert_eq!(again, error);
}

#[test]
fn document_reports_an_invalid_element_inside_an_array() {
    let mut document = Document::new("[1, j]");
    assert_eq!(
        document.finish(),
        Err(ParseAnyDocumentError::Any(ParseAnyError::Array(
            ParseArrayError::InvalidElement { c: 'j', or_end: false }
        )))
    );
}

#[test]
fn truncated_object_ends_unexpectedly() {
    let mut parent = TestParent::new("\"k\":");
    let mut object = parent.object();
    let error = object.next().expect_err("failed to return error from truncated object");
    assert_eq!(error, ParseObjectError::UnexpectedEnd);

    let mut document = Document::new("{\"k\":");
    assert_eq!(
        document.finish(),
        Err(ParseAnyDocumentError::Any(ParseAnyError::Object(ParseObjectError::UnexpectedEnd)))
    );
}

#[test]
fn trailing_commas_are_rejected() {
    let mut document = Document::new("[1,]");
    assert_eq!(
        document.finish(),
        Err(ParseAnyDocumentError::Any(ParseAnyError::Array(ParseArrayError::TrailingComma)))
    );

    let mut document = Document::new("{\"a\":1,}");
    assert_eq!(
        document.finish(),
        Err(ParseAnyDocumentError::Any(ParseAnyError::Object(ParseObjectError::TrailingComma)))
    );

    let mut parent = TestParent::new("1,]");
    let mut array = parent.array();
    array
        .next()
        .expect("failed to parse array")
        .expect("failed to get value from array")
        .finish()
        .expect("failed to finish the element");
    assert_eq!(array.next().expect_err("no error"), ParseArrayError::TrailingComma);
}

#[test]
fn document_errors() {
    assert_eq!(Document::new("  ").finish(), Err(ParseAnyDocumentError::Document(ParseDocumentError::UnexpectedEnd)));
    assert_eq!(Document::new(" x").finish(), Err(ParseAnyDocumentError::Document(ParseDocumentError::InvalidElement('x'))));
    assert_eq!(Document::new("1 2").finish(), Err(ParseAnyDocumentError::Document(ParseDocumentError::UnexpectedCharacter('2'))));
    assert_eq!(Document::new("01").finish(), Err(ParseAnyDocumentError::Document(ParseDocumentError::UnexpectedCharacter('1'))));
    assert_eq!(Document::new("+1").finish(), Err(ParseAnyDocumentError::Document(ParseDocumentError::InvalidElement('+'))));
    assert_eq!(
        Document::new("\"a").finish(),
        Err(ParseAnyDocumentError::Any(ParseAnyError::String(ParseStringError::UnexpectedEnd)))
    );
}

#[test]
fn multi_document_reads_every_value() {
    let mut document = MultiDocument::new(" 1 \"two\" [3] {\"four\": 4} null");
    let mut prompts = Vec::new();
    while let Some(mut value) = document.next().expect("failed to parse document") {
        prompts.push(match &value {
            Any::String(_) => ParsePrompt::String,
            Any::Number(_) => ParsePrompt::Number,
            Any::Object(_) => ParsePrompt::Object,
            Any::Array(_) => ParsePrompt::Array,
            Any::Literal(_) => ParsePrompt::Literal,
        });
        value.finish().expect("failed to finish the value");
    }
    assert_eq!(
        prompts,
        vec![
            ParsePrompt::Number,
            ParsePrompt::String,
            ParsePrompt::Array,
            ParsePrompt::Object,
            ParsePrompt::Literal
        ]
    );
    assert!(document.remaining.is_empty());

    let mut document = MultiDocument::new("1 [2,] 3");
    assert_eq!(
        document.finish(),
        Err(ParseAnyMultiDocumentError::Any(ParseAnyError::Array(ParseArrayError::TrailingComma)))
    );
    let mut document = MultiDocument::new("1 ?");
    assert_eq!(
        document.finish(),
        Err(ParseAnyMultiDocumentError::MultiDocument(ParseMultiDocumentError::InvalidElement('?')))
    );
    let mut document = MultiDocument::new(" 1 2 ");
    assert_eq!(document.finish(), Ok(()));
    assert!(document.remaining.is_empty());
}

#[test]
fn consumed_text_and_remaining_text_make_up_the_input() {
    let json = "\"a\\nb\" , -12.5e3]tail";
    let mut parent = TestParent::new(json);
    let mut array = parent.array();
    let mut string = array
        .next()
        .expect("failed to parse array")
        .expect("failed to get value from array")
        .string()
        .expect("failed to get string from array");
    let before = string.remaining;
    let body = string.get().expect("failed to parse string");
    assert_eq!(body.unescaped(), "a\\nb");
    assert_eq!(format!("\"{}\"{}", body.unescaped(), array.remaining), json);
    assert!(before.ends_with(array.remaining));

    let mut number = array
        .next()
        .expect("failed to parse array")
        .expect("failed to get value from array")
        .number()
        .expect("failed to get number from array");
    let start = number.remaining;
    let parsed = number.get().expect("failed to parse number");
    assert_eq!(parsed.as_str(), "-12.5e3");
    assert_eq!(format!("{}{}", parsed.as_str(), array.remaining), start);
    assert!(json.ends_with(start));

    assert!(array.next().expect("failed to parse array").is_none());
    assert_eq!(parent.remaining, "tail");
}

#[test]
fn a_child_that_is_dropped_is_offered_again() {
    let mut parent = TestParent::new("[1], 2]");
    let mut array = parent.array();
    {
        let first = array.next().expect("failed to parse array");
        assert!(matches!(first, Some(Any::Array(_))));
    }
    let mut again = array
        .next()
        .expect("failed to parse array")
        .expect("failed to get the element again");
    assert!(matches!(again, Any::Array(_)));
    again.finish().expect("failed to finish the element");
    array.finish().expect("failed to finish the array");
    assert!(parent.remaining.is_empty());
}

#[test]
fn for_each_visits_every_element() {
    let mut parent = TestParent::new("1, \"two\", [3, 4], {\"five\": 5}] rest");
    let mut array = parent.array();
    let mut seen = Vec::new();
    array
        .for_each(|value| {
            if let Some(number) = value.mut_number() {
                seen.push(number.get()?.as_str().to_string());
            } else {
                seen.push("other".to_string());
            }
            Ok(())
        })
        .expect("failed to walk the array");
    assert_eq!(seen, vec!["1", "other", "other", "other"]);
    assert_eq!(parent.remaining, " rest");
}

#[test]
fn fold_and_find_walk_containers() {
    let mut parent = TestParent::new("1, 2, 3, 4]");
    let mut array = parent.array();
    let sum = array
        .fold(0_u32, |sum, value| {
            let number = value
                .mut_number_or(ParseAnyError::Array(ParseArrayError::UnexpectedEnd))?
                .get()?;
            Ok(sum + number.as_u32().unwrap_or(0))
        })
        .expect("failed to fold the array");
    assert_eq!(sum, 10);
    assert!(parent.remaining.is_empty());

    let mut parent = TestParent::new("\"a\": 1, \"b\": [2], \"c\": 3} rest");
    let mut object = parent.object();
    let found = object
        .find(|key, value| {
            if key == "b" {
                value.finish()?;
                Ok(Some(key.escaped()))
            } else {
                Ok(None)
            }
        })
        .expect("failed to search the object");
    assert_eq!(found, Some("b".to_string()));
    assert_eq!(object.remaining, ", \"c\": 3} rest");
    object.finish().expect("failed to finish the object");
    assert_eq!(parent.remaining, " rest");

    let mut parent = TestParent::new("\"a\": 1, \"b\": 2}");
    let mut object = parent.object();
    let mut keys = Vec::new();
    object
        .for_each(|key, _| {
            keys.push(key.escaped());
            Ok(())
        })
        .expect("failed to walk the object");
    assert_eq!(keys, vec!["a", "b"]);
    let mut parent = TestParent::new("\"a\": 1, \"b\": 2}");
    let mut object = parent.object();
    let count = object.fold(0, |n, _, _| Ok(n + 1)).expect("failed to fold the object");
    assert_eq!(count, 2);
    let mut parent = TestParent::new("1, 2]");
    let mut array = parent.array();
    let none: Option<u8> = array.find(|_| Ok(None)).expect("failed to search the array");
    assert_eq!(none, None);
    assert!(parent.remaining.is_empty());
}

#[test]
fn walkers_stop_at_the_first_error() {
    let mut parent = TestParent::new("1, x]");
    let mut array = parent.array();
    let mut calls = 0;
    let error = array
        .for_each(|_| {
            calls += 1;
            Ok(())
        })
        .expect_err("failed to return the error");
    assert_eq!(calls, 1);
    assert_eq!(
        error,
        ParseAnyError::Array(ParseArrayError::InvalidElement { c: 'x', or_end: false })
    );

    let mut parent = TestParent::new("1, 2]");
    let mut array = parent.array();
    let error = array
        .for_each(|_| Err(ParseAnyError::String(ParseStringError::UnexpectedEnd)))
        .expect_err("failed to return the error of the callback");
    assert_eq!(error, ParseAnyError::String(ParseStringError::UnexpectedEnd));
}

#[test]
fn documents_walk_their_values() {
    let mut document = Document::new(" [1, 2] ");
    let mut count = 0;
    document
        .for_each(|value| {
            assert!(matches!(value, Any::Array(_)));
            count += 1;
            Ok(())
        })
        .expect("failed to walk the document");
    assert_eq!(count, 1);
    assert!(document.remaining.is_empty());

    let mut document = Document::new("7");
    let total = document
        .fold(1_u8, |n, value| {
            let parsed = value.mut_number().expect("no number").get().map_err(ParseAnyError::Number).map_err(ParseAnyDocumentError::Any)?;
            Ok(n + parsed.as_u8().unwrap_or(0))
        })
        .expect("failed to fold the document");
    assert_eq!(total, 8);
    let mut document = Document::new("7 x");
    let found: Result<Option<u8>, _> = document.find(|_| Ok(None));
    assert_eq!(
        found,
        Err(ParseAnyDocumentError::Document(ParseDocumentError::UnexpectedCharacter('x')))
    );

    let mut multi = MultiDocument::new("1 2 3");
    let mut count = 0;
    let walked: Result<(), ParseAnyMultiDocumentError> = multi.for_each(|_| {
        count += 1;
        Ok(())
    });
    assert_eq!(walked, Ok(()));
    assert_eq!(count, 3);
    let mut multi = MultiDocument::new("1 2 3");
    let folded: Result<u8, ParseAnyMultiDocumentError> = multi.fold(0, |n, _| Ok(n + 1));
    assert_eq!(folded, Ok(3));
    let mut multi = MultiDocument::new("1 2 3");
    let mut seen = 0;
    let found: Result<Option<u8>, ParseAnyMultiDocumentError> = multi.find(|_| {
        seen += 1;
        Ok(if seen == 2 { Some(seen) } else { None })
    });
    assert_eq!(found, Ok(Some(2)));
    assert_eq!(multi.remaining, " 3");
}

#[test]
fn any_gives_its_cursor_by_kind() {
    let mut parent = TestParent::new("1]");
    let mut array = parent.array();
    let value = array.next().expect("failed to parse array").expect("no value");
    assert!(value.string().is_none());
    let value = array.next().expect("failed to parse array").expect("no value");
    assert!(value.object_or("no object").is_err());
    let value = array.next().expect("failed to parse array").expect("no value");
    assert_eq!(value.array_or_else(|| 7).err(), Some(7));
    let mut value = array.next().expect("failed to parse array").expect("no value");
    assert!(value.mut_literal().is_none());
    assert!(value.mut_string_or_else(|| 1).is_err());
    assert!(value.mut_number_or(2).is_ok());
    let mut number = value.number_or_else(|| 3).expect("no number");
    assert_eq!(number.get().expect("failed to parse number").as_u8(), Some(1));
}
