use zjson::any::{Any, ParseAnyError};
use zjson::array::machine::Machine as ArrayMachine;
use zjson::array::ParseArrayError;
use zjson::containers::{ParsePrompt, ParseStatus};
use zjson::literal::machine::Machine as LiteralMachine;
use zjson::literal::{ParseLiteralError, ParsedLiteral};
use zjson::number::ParseNumberError;
use zjson::object::machine::Machine as ObjectMachine;
use zjson::object::ParseObjectError;
use zjson::string::{ParseStringError, ParsedString};
use zjson::test_parent::TestParent;

fn array_error(json: &str) -> Option<ParseAnyError> {
    let mut parent = TestParent::new(json);
    let mut array = parent.array();
    array.finish().err()
}

fn object_error(json: &str) -> Option<ParseAnyError> {
    let mut parent = TestParent::new(json);
    let mut object = parent.object();
    object.finish().err()
}

#[test]
fn arrays_report_their_errors() {
    assert_eq!(array_error("1, 2]"), None);
    assert_eq!(array_error(" ]"), None);
    assert_eq!(array_error(""), Some(ParseAnyError::Array(ParseArrayError::UnexpectedEnd)));
    assert_eq!(array_error("1"), Some(ParseAnyError::Array(ParseArrayError::UnexpectedEnd)));
    assert_eq!(array_error("1,"), Some(ParseAnyError::Array(ParseArrayError::UnexpectedEnd)));
    assert_eq!(
        array_error("x"),
        Some(ParseAnyError::Array(ParseArrayError::InvalidElement { c: 'x', or_end: true }))
    );
    assert_eq!(
        array_error("1, }"),
        Some(ParseAnyError::Array(ParseArrayError::InvalidElement { c: '}', or_end: false }))
    );
    assert_eq!(
        array_error("1 2]"),
        Some(ParseAnyError::Array(ParseArrayError::ExpectedCommaOrEnd('2')))
    );
    assert_eq!(
        array_error("\"a\" }"),
        Some(ParseAnyError::Array(ParseArrayError::ExpectedCommaOrEnd('}')))
    );
    assert_eq!(array_error("1,]"), Some(ParseAnyError::Array(ParseArrayError::TrailingComma)));
    assert_eq!(array_error(",]"), Some(ParseAnyError::Array(ParseArrayError::InvalidElement { c: ',', or_end: true })));
    assert_eq!(
        array_error("[1, [tru]]]"),
        Some(ParseAnyError::Literal(ParseLiteralError::UnexpectedCharacter(']')))
    );
    assert_eq!(
        array_error("1.]"),
        Some(ParseAnyError::Number(ParseNumberError::ExpectedDigit(']')))
    );
    assert_eq!(
        array_error("\"\\q\"]"),
        Some(ParseAnyError::String(ParseStringError::InvalidEscape('q')))
    );
    assert_eq!(
        array_error("{\"a\" 1}]"),
        Some(ParseAnyError::Object(ParseObjectError::ExpectedColon('1')))
    );
}

#[test]
fn objects_report_their_errors() {
    assert_eq!(object_error("}"), None);
    assert_eq!(object_error(" \"a\" : 1 , \"b\" : [ ] }"), None);
    assert_eq!(object_error(""), Some(ParseAnyError::Object(ParseObjectError::UnexpectedEnd)));
    assert_eq!(object_error("\"a\""), Some(ParseAnyError::Object(ParseObjectError::UnexpectedEnd)));
    assert_eq!(object_error("\"a\":1"), Some(ParseAnyError::Object(ParseObjectError::UnexpectedEnd)));
    assert_eq!(
        object_error("1"),
        Some(ParseAnyError::Object(ParseObjectError::ExpectedName { c: '1', or_end: true }))
    );
    assert_eq!(
        object_error("\"a\":1, 2"),
        Some(ParseAnyError::Object(ParseObjectError::ExpectedName { c: '2', or_end: false }))
    );
    assert_eq!(
        object_error("\"a\\q\":1}"),
        Some(ParseAnyError::Object(ParseObjectError::InvalidName(ParseStringError::InvalidEscape('q'))))
    );
    assert_eq!(
        object_error("\"a"),
        Some(ParseAnyError::Object(ParseObjectError::InvalidName(ParseStringError::UnexpectedEnd)))
    );
    assert_eq!(
        object_error("\"a\" 1}"),
        Some(ParseAnyError::Object(ParseObjectError::ExpectedColon('1')))
    );
    assert_eq!(
        object_error("\"a\": x}"),
        Some(ParseAnyError::Object(ParseObjectError::InvalidElement('x')))
    );
    assert_eq!(
        object_error("\"a\": }"),
        Some(ParseAnyError::Object(ParseObjectError::InvalidElement('}')))
    );
    assert_eq!(
        object_error("\"a\": 1 \"b\": 2}"),
        Some(ParseAnyError::Object(ParseObjectError::ExpectedCommaOrEnd('"')))
    );
    assert_eq!(object_error("\"a\": 1,}"), Some(ParseAnyError::Object(ParseObjectError::TrailingComma)));
    assert_eq!(
        object_error("\"a\": [1,]}"),
        Some(ParseAnyError::Array(ParseArrayError::TrailingComma))
    );
}

#[test]
fn errors_leave_the_cursor_at_the_offending_character() {
    let mut parent = TestParent::new("1 , 2 x]");
    let mut array = parent.array();
    assert_eq!(
        array.finish(),
        Err(ParseAnyError::Array(ParseArrayError::ExpectedCommaOrEnd('x')))
    );
    assert_eq!(array.remaining, "x]");
    assert_eq!(array.machine, ArrayMachine::Element(ParseStatus::Done));
    assert_eq!(parent.remaining, "1 , 2 x]");

    let mut parent = TestParent::new("1, [2, tru], 3]");
    let mut array = parent.array();
    assert_eq!(
        array.finish(),
        Err(ParseAnyError::Literal(ParseLiteralError::UnexpectedCharacter(']')))
    );
    assert_eq!(array.remaining, "2, tru], 3]");
    assert_eq!(array.machine, ArrayMachine::Element(ParseStatus::Prompted(ParsePrompt::Array)));

    let mut parent = TestParent::new("\"k\" : tru }");
    let mut object = parent.object();
    assert_eq!(
        object.finish(),
        Err(ParseAnyError::Literal(ParseLiteralError::UnexpectedCharacter(' ')))
    );
    assert_eq!(object.remaining, "tru }");
    assert_eq!(
        object.machine,
        ObjectMachine::Element {
            name: ParsedString::new("k"),
            element: ParseStatus::Prompted(ParsePrompt::Literal)
        }
    );
}

#[test]
fn container_machines_step_as_specified() {
    let start = ArrayMachine::In { postcomma: false };
    assert_eq!(start.apply(' '), Ok(start));
    assert_eq!(start.apply(']'), Ok(ArrayMachine::End));
    assert_eq!(
        start.apply('-'),
        Ok(ArrayMachine::Element(ParseStatus::Prompted(ParsePrompt::Number)))
    );
    assert_eq!(ArrayMachine::In { postcomma: true }.apply(']'), Err(ParseArrayError::TrailingComma));
    let done = ArrayMachine::Element(ParseStatus::Done);
    assert_eq!(done.apply('\n'), Ok(done));
    assert_eq!(done.apply(','), Ok(ArrayMachine::In { postcomma: true }));
    assert_eq!(done.apply(']'), Ok(ArrayMachine::End));
    assert_eq!(done.apply('1'), Err(ParseArrayError::ExpectedCommaOrEnd('1')));

    let name = ParsedString::new("a");
    let start = ObjectMachine::In { postcomma: false };
    assert_eq!(start.apply('\t'), Ok(start));
    assert_eq!(start.apply('"'), Ok(ObjectMachine::Name(None)));
    assert_eq!(start.apply('}'), Ok(ObjectMachine::End));
    assert_eq!(ObjectMachine::In { postcomma: true }.apply('}'), Err(ParseObjectError::TrailingComma));
    assert_eq!(ObjectMachine::Name(Some(name)).apply(':'), Ok(ObjectMachine::PreElement { name }));
    assert_eq!(ObjectMachine::Name(Some(name)).apply(' '), Ok(ObjectMachine::Name(Some(name))));
    assert_eq!(
        ObjectMachine::PreElement { name }.apply('['),
        Ok(ObjectMachine::Element { name, element: ParseStatus::Prompted(ParsePrompt::Array) })
    );
    let done = ObjectMachine::Element { name, element: ParseStatus::Done };
    assert_eq!(done.apply(','), Ok(ObjectMachine::In { postcomma: true }));
    assert_eq!(done.apply('}'), Ok(ObjectMachine::End));
    assert_eq!(done.apply(' '), Ok(done));

    assert_eq!(LiteralMachine::Start.apply(' '), Ok(LiteralMachine::Start));
    assert_eq!(LiteralMachine::Start.apply('t'), Ok(LiteralMachine::T));
    assert_eq!(LiteralMachine::Tru.apply('e'), Ok(LiteralMachine::End(ParsedLiteral::True)));
    assert_eq!(LiteralMachine::Fals.apply('e'), Ok(LiteralMachine::End(ParsedLiteral::False)));
    assert_eq!(LiteralMachine::Nul.apply('l'), Ok(LiteralMachine::End(ParsedLiteral::Null)));
    assert_eq!(LiteralMachine::T.apply(' '), Err(ParseLiteralError::UnexpectedCharacter(' ')));
    assert_eq!(
        LiteralMachine::End(ParsedLiteral::Null).apply('x'),
        Err(ParseLiteralError::UnexpectedCharacter('x'))
    );
}

#[test]
fn a_value_reports_to_its_parent_once() {
    let mut parent = TestParent::new("\"a\", 1]");
    let mut array = parent.array();
    let mut value = array.next().expect("failed to parse array").expect("no value");
    value.finish().expect("failed to finish the value");
    value.finish().expect("failed to finish the value again");
    assert!(matches!(value, Any::String(_)));
    assert_eq!(array.remaining, ", 1]");
    assert_eq!(array.machine, ArrayMachine::Element(ParseStatus::Done));
    let mut number = array
        .next()
        .expect("failed to parse array")
        .and_then(Any::number)
        .expect("no number");
    assert_eq!(number.get().expect("failed to parse number").as_u8(), Some(1));
    assert_eq!(number.get().expect("failed to parse number").as_u8(), Some(1));
    assert!(array.next().expect("failed to parse array").is_none());
    assert!(array.next().expect("failed to parse array").is_none());
    assert!(parent.remaining.is_empty());
}
