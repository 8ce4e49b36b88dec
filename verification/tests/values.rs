use std::cmp::Ordering;
use zjson::containers::{ParsePrompt, ParseStatus};
use zjson::literal::{ParseLiteralError, ParsedLiteral};
use zjson::number::machine::Machine as NumberMachine;
use zjson::number::{ParseNumberError, ParsedNumber};
use zjson::status::Status;
use zjson::string::machine::{hex_value, EscapeMachine, LowMachine};
use zjson::string::{ParseStringError, ParsedString};
use zjson::test_parent::TestParent;
use zjson::text::{is_whitespace, prefix_before, split_first};

fn string_of(body: &str) -> Result<String, ParseStringError> {
    let json = format!("{body}\"");
    let mut parent = TestParent::new(&json);
    let mut string = parent.string();
    string.get().map(|parsed| parsed.escaped())
}

fn number_of(json: &str) -> Result<(String, String), ParseNumberError> {
    let mut parent = TestParent::new(json);
    let mut number = parent.number();
    let parsed = number.get()?.as_str().to_string();
    Ok((parsed, parent.remaining.to_string()))
}

fn literal_of(json: &str) -> Result<(ParsedLiteral, String), ParseLiteralError> {
    let mut parent = TestParent::new(json);
    let mut literal = parent.literal();
    let parsed = literal.get()?;
    Ok((parsed, parent.remaining.to_string()))
}

#[test]
fn whitespace_is_the_unicode_class() {
    for c in '\0'..=char::MAX {
        assert_eq!(is_whitespace(c), c.is_whitespace(), "{c:?}");
    }
    assert!(is_whitespace(' '));
    assert!(is_whitespace('\t'));
    assert!(is_whitespace('\n'));
    assert!(is_whitespace('\r'));
    assert!(is_whitespace('\u{a0}'));
    assert!(!is_whitespace('\u{200b}'));
}

#[test]
fn hex_digits_have_their_values() {
    for c in '\0'..=char::MAX {
        assert_eq!(hex_value(c).map(u32::from), c.to_digit(16), "{c:?}");
    }
    assert_eq!(hex_value('f'), Some(15));
    assert_eq!(hex_value('A'), Some(10));
    assert_eq!(hex_value('g'), None);
}

#[test]
fn text_is_split_at_characters() {
    assert_eq!(split_first(""), None);
    assert_eq!(split_first("a"), Some(('a', "")));
    assert_eq!(split_first("\u{fc}bc"), Some(('\u{fc}', "bc")));
    assert_eq!(split_first("\u{1F603}x"), Some(('\u{1F603}', "x")));
    let whole = "\u{fc}b\u{1F603}c";
    assert_eq!(prefix_before(whole, &whole[3..]), "\u{fc}b");
    assert_eq!(prefix_before(whole, whole), "");
    assert_eq!(prefix_before(whole, ""), whole);
}

#[test]
fn prompts_classify_first_characters() {
    assert_eq!(ParsePrompt::get('"'), Some(ParsePrompt::String));
    for c in "0123456789-".chars() {
        assert_eq!(ParsePrompt::get(c), Some(ParsePrompt::Number));
    }
    assert_eq!(ParsePrompt::get('{'), Some(ParsePrompt::Object));
    assert_eq!(ParsePrompt::get('['), Some(ParsePrompt::Array));
    for c in "tfn".chars() {
        assert_eq!(ParsePrompt::get(c), Some(ParsePrompt::Literal));
    }
    for c in "+.eE]}:, \u{fc}".chars() {
        assert_eq!(ParsePrompt::get(c), None);
    }
    assert!(ParsePrompt::Number.keep_first());
    assert!(ParsePrompt::Literal.keep_first());
    assert!(!ParsePrompt::String.keep_first());
    assert!(!ParsePrompt::Object.keep_first());
    assert!(!ParsePrompt::Array.keep_first());
    assert_eq!(ParseStatus::from(ParsePrompt::Array), ParseStatus::Prompted(ParsePrompt::Array));
}

#[test]
fn strings_decode_their_escapes() {
    assert_eq!(string_of("plain"), Ok("plain".to_string()));
    assert_eq!(string_of(r"\u00fc"), Ok("\u{fc}".to_string()));
    assert_eq!(string_of(r"\u00FC"), Ok("\u{fc}".to_string()));
    assert_eq!(string_of(r"\uD83D\uDE03"), Ok("\u{1F603}".to_string()));
    assert_eq!(string_of(r"\uD800\uDC00"), Ok("\u{10000}".to_string()));
    assert_eq!(string_of(r"\uDBFF\uDFFF"), Ok("\u{10FFFF}".to_string()));
    assert_eq!(string_of(r#"a\\\"b\/"#), Ok("a\\\"b/".to_string()));
    assert_eq!(string_of(r"\b\f\n\r\t"), Ok("\u{8}\u{c}\n\r\t".to_string()));
    assert_eq!(string_of("\u{1F603}"), Ok("\u{1F603}".to_string()));
}

#[test]
fn strings_report_their_errors() {
    assert_eq!(string_of(r"\uDC00"), Err(ParseStringError::MissingHighSurrogate { low: 0xdc00 }));
    assert_eq!(
        string_of(r"\uD83D\u0041"),
        Err(ParseStringError::InvalidLowSurrogate { high: 0xd83d, low: 0x41 })
    );
    assert_eq!(string_of(r"\uD83Dx"), Err(ParseStringError::MissingLowSurrogate { high: 0xd83d }));
    assert_eq!(string_of(r"\uD83D\n"), Err(ParseStringError::MissingLowSurrogate { high: 0xd83d }));
    assert_eq!(string_of(r"\x"), Err(ParseStringError::InvalidEscape('x')));
    assert_eq!(string_of(r"\u12g4"), Err(ParseStringError::InvalidUnicodeEscape('g')));
    assert_eq!(string_of(r"\uD83D\u12g4"), Err(ParseStringError::MissingLowSurrogate { high: 0xd83d }));
    let mut parent = TestParent::new("abc");
    assert_eq!(parent.string().get().map(|_| ()), Err(ParseStringError::UnexpectedEnd));
    let mut parent = TestParent::new("abc\\");
    assert_eq!(parent.string().finish(), Err(ParseStringError::UnexpectedEnd));
    assert_eq!(parent.remaining, "abc\\");
}

#[test]
fn escape_machines_step_as_specified() {
    assert_eq!(EscapeMachine::Awaiting.apply('u'), Ok(Status::Parsing(EscapeMachine::Unicode { n: 0, len: 0 })));
    assert_eq!(
        EscapeMachine::Unicode { n: 0x12, len: 2 }.apply('a'),
        Ok(Status::Parsing(EscapeMachine::Unicode { n: 0x12a, len: 3 }))
    );
    assert_eq!(EscapeMachine::Unicode { n: 0x00f, len: 3 }.apply('c'), Ok(Status::Done('\u{fc}')));
    assert_eq!(
        EscapeMachine::Unicode { n: 0xd83, len: 3 }.apply('d'),
        Ok(Status::Parsing(EscapeMachine::Surrogate { high: 0xd83d, low: LowMachine::Awaiting }))
    );
    assert_eq!(LowMachine::Awaiting.apply('\\', 0xd83d), Ok(Status::Parsing(LowMachine::AwaitingU)));
    assert_eq!(LowMachine::AwaitingU.apply('u', 0xd83d), Ok(Status::Parsing(LowMachine::Hex { low: 0, len: 0 })));
    assert_eq!(LowMachine::Hex { low: 0xde0, len: 3 }.apply('3', 0xd83d), Ok(Status::Done('\u{1F603}')));
    assert_eq!(EscapeMachine::Awaiting.apply('b'), Ok(Status::Done('\u{8}')));
    assert_eq!(EscapeMachine::Awaiting.apply('f'), Ok(Status::Done('\u{c}')));
}

#[test]
fn parsed_strings_decode_on_demand() {
    let parsed = ParsedString::new(r"a\u00fcb\ud83d\ude03\n");
    assert!(!parsed.is_empty());
    assert_eq!(parsed.unescaped(), r"a\u00fcb\ud83d\ude03\n");
    assert_eq!(parsed.escaped(), "a\u{fc}b\u{1F603}\n");
    assert_eq!(parsed.to_string(), "a\u{fc}b\u{1F603}\n");
    let mut first = parsed.chars();
    let mut second = parsed.chars();
    let mut decoded = Vec::new();
    while let Some(c) = first.next() {
        assert_eq!(second.next(), Some(c));
        decoded.push(c);
    }
    assert_eq!(second.next(), None);
    assert_eq!(first.next(), None);
    assert_eq!(decoded, vec!['a', '\u{fc}', 'b', '\u{1F603}', '\n']);
    assert_eq!(parsed, "a\u{fc}b\u{1F603}\n");
    assert!(parsed != "a\u{fc}b\u{1F603}");
    assert!(parsed != "a\u{fc}b\u{1F603}\n ");
    assert!(parsed.eq_str("a\u{fc}b\u{1F603}\n"));
    assert_eq!(parsed, ParsedString::new("a\u{fc}b\u{1F603}\\n"));
    assert!(parsed != ParsedString::new("a"));
    assert!(ParsedString::new("").is_empty());
    assert_eq!(ParsedString::new("").escaped(), "");
}

#[test]
fn size_hints_follow_the_byte_count() {
    assert_eq!(ParsedString::new("").chars().size_hint(), (0, Some(0)));
    assert_eq!(ParsedString::new("a").chars().size_hint(), (1, Some(1)));
    assert_eq!(ParsedString::new("abcde").chars().size_hint(), (2, Some(5)));
    assert_eq!(ParsedString::new(r"\u00fc").chars().size_hint(), (1, Some(6)));
    assert_eq!(ParsedString::new("abcdefg").chars().size_hint(), (2, Some(7)));
    assert_eq!(ParsedString::new("abcdefghijk").chars().size_hint(), (2, Some(11)));
    assert_eq!(ParsedString::new(r"\ud83d\ude03").chars().size_hint(), (1, Some(12)));
    assert_eq!(ParsedString::new(r"\ud83d\ude03a").chars().size_hint(), (2, Some(13)));
    assert_eq!(ParsedString::new("\u{fc}").chars().size_hint(), (1, Some(2)));
    let mut chars = ParsedString::new(r"\ud83d\ude03a").chars();
    chars.next();
    assert_eq!(chars.size_hint(), (1, Some(1)));
}

#[test]
fn numbers_end_where_the_grammar_ends() {
    assert_eq!(number_of("-0.5e-3"), Ok(("-0.5e-3".to_string(), String::new())));
    assert_eq!(number_of("12,"), Ok(("12".to_string(), ",".to_string())));
    assert_eq!(number_of("0123"), Ok(("0".to_string(), "123".to_string())));
    assert_eq!(number_of("1.5E+10]"), Ok(("1.5E+10".to_string(), "]".to_string())));
    assert_eq!(number_of("1e5 "), Ok(("1e5".to_string(), " ".to_string())));
    assert_eq!(number_of("-0"), Ok(("-0".to_string(), String::new())));
    assert_eq!(number_of("7\u{fc}"), Ok(("7".to_string(), "\u{fc}".to_string())));
    assert_eq!(number_of(""), Err(ParseNumberError::UnexpectedEnd { or_sign: true }));
    assert_eq!(number_of("-"), Err(ParseNumberError::UnexpectedEnd { or_sign: false }));
    assert_eq!(number_of("1."), Err(ParseNumberError::UnexpectedEnd { or_sign: false }));
    assert_eq!(number_of("1e"), Err(ParseNumberError::UnexpectedEndAfterExponent { or_sign: true }));
    assert_eq!(number_of("1e-"), Err(ParseNumberError::UnexpectedEndAfterExponent { or_sign: false }));
    assert_eq!(number_of("x"), Err(ParseNumberError::ExpectedMinusOrDigit('x')));
    assert_eq!(number_of("--1"), Err(ParseNumberError::ExpectedMinusOrDigit('-')));
    assert_eq!(number_of("+1"), Err(ParseNumberError::ExpectedMinusOrDigit('+')));
    assert_eq!(number_of("1.x"), Err(ParseNumberError::ExpectedDigit('x')));
    assert_eq!(number_of("1ex"), Err(ParseNumberError::ExpectedSignOrDigit('x')));
    assert_eq!(number_of("1e+-1"), Err(ParseNumberError::ExpectedSignOrDigit('-')));
    let mut parent = TestParent::new("1.x");
    assert_eq!(parent.number().finish(), Err(ParseNumberError::ExpectedDigit('x')));
    assert_eq!(parent.remaining, "1.x");
    assert_eq!(NumberMachine::Exponent.valid_end(), Ok(()));
    assert_eq!(NumberMachine::InInteger.apply(' '), Ok(Status::Done(())));
    assert_eq!(NumberMachine::PostInteger.apply('1'), Ok(Status::Done(())));
}

#[test]
fn numbers_convert_to_integers_in_range() {
    assert_eq!(ParsedNumber::new("255").as_u8(), Some(255));
    assert_eq!(ParsedNumber::new("256").as_u8(), None);
    assert_eq!(ParsedNumber::new("-0").as_u8(), None);
    assert_eq!(ParsedNumber::new("-0").as_i8(), Some(0));
    assert_eq!(ParsedNumber::new("+5").as_u8(), Some(5));
    assert_eq!(ParsedNumber::new("+5").as_i8(), Some(5));
    assert_eq!(ParsedNumber::new("0005").as_u8(), Some(5));
    assert_eq!(ParsedNumber::new("").as_u8(), None);
    assert_eq!(ParsedNumber::new("-").as_i8(), None);
    assert_eq!(ParsedNumber::new("+").as_i8(), None);
    assert_eq!(ParsedNumber::new("1.0").as_u8(), None);
    assert_eq!(ParsedNumber::new("1e5").as_u32(), None);
    assert_eq!(ParsedNumber::new("12a").as_u32(), None);
    assert_eq!(ParsedNumber::new("-128").as_i8(), Some(i8::MIN));
    assert_eq!(ParsedNumber::new("-129").as_i8(), None);
    assert_eq!(ParsedNumber::new("127").as_i8(), Some(i8::MAX));
    assert_eq!(ParsedNumber::new("128").as_i8(), None);
    assert_eq!(ParsedNumber::new("65535").as_u16(), Some(u16::MAX));
    assert_eq!(ParsedNumber::new("65536").as_u16(), None);
    assert_eq!(ParsedNumber::new("-32768").as_i16(), Some(i16::MIN));
    assert_eq!(ParsedNumber::new("4294967295").as_u32(), Some(u32::MAX));
    assert_eq!(ParsedNumber::new("4294967296").as_u32(), None);
    assert_eq!(ParsedNumber::new("-2147483648").as_i32(), Some(i32::MIN));
    assert_eq!(ParsedNumber::new("2147483648").as_i32(), None);
    assert_eq!(ParsedNumber::new("18446744073709551615").as_u64(), Some(u64::MAX));
    assert_eq!(ParsedNumber::new("18446744073709551616").as_u64(), None);
    assert_eq!(ParsedNumber::new("-9223372036854775808").as_i64(), Some(i64::MIN));
    assert_eq!(ParsedNumber::new("-9223372036854775809").as_i64(), None);
    let max = u128::MAX.to_string();
    assert_eq!(ParsedNumber::new(&max).as_u128(), Some(u128::MAX));
    assert_eq!(ParsedNumber::new("340282366920938463463374607431768211456").as_u128(), None);
    assert_eq!(ParsedNumber::new("3402823669209384634633746074317682114550").as_u128(), None);
    let min = i128::MIN.to_string();
    assert_eq!(ParsedNumber::new(&min).as_i128(), Some(i128::MIN));
    assert_eq!(ParsedNumber::new("-170141183460469231731687303715884105729").as_i128(), None);
    assert_eq!(ParsedNumber::new("170141183460469231731687303715884105727").as_i128(), Some(i128::MAX));
    assert_eq!(ParsedNumber::new("170141183460469231731687303715884105728").as_i128(), None);
    for text in ["0", "7", "-7", "+7", "007", "300", "-300", "99999", "x", "", "1.5", "-", "٣"] {
        let parsed = ParsedNumber::new(text);
        assert_eq!(parsed.as_u8(), text.parse().ok(), "{text}");
        assert_eq!(parsed.as_i8(), text.parse().ok(), "{text}");
        assert_eq!(parsed.as_u16(), text.parse().ok(), "{text}");
        assert_eq!(parsed.as_i16(), text.parse().ok(), "{text}");
        assert_eq!(parsed.as_u32(), text.parse().ok(), "{text}");
        assert_eq!(parsed.as_i32(), text.parse().ok(), "{text}");
        assert_eq!(parsed.as_u64(), text.parse().ok(), "{text}");
        assert_eq!(parsed.as_i64(), text.parse().ok(), "{text}");
        assert_eq!(parsed.as_u128(), text.parse().ok(), "{text}");
        assert_eq!(parsed.as_i128(), text.parse().ok(), "{text}");
    }
    assert_eq!(ParsedNumber::new("-12").to_string(), "-12");
}

#[test]
fn numbers_compare_with_integers() {
    let parsed = ParsedNumber::new("53");
    assert!(parsed == 53_u8);
    assert!(parsed != 54_u8);
    assert!(parsed < 54_u8);
    assert!(parsed > 52_i64);
    assert_eq!(parsed.partial_cmp(&53_u16), Some(Ordering::Equal));
    assert_eq!(parsed.partial_cmp(&54_i32), Some(Ordering::Less));
    assert_eq!(parsed.partial_cmp(&5_u128), Some(Ordering::Greater));
    let parsed = ParsedNumber::new("300");
    assert_eq!(parsed.partial_cmp(&1_u8), None);
    assert!(parsed != 44_u8);
    assert_eq!(parsed.partial_cmp(&1_i16), Some(Ordering::Greater));
    assert_eq!(ParsedNumber::new("1.5").partial_cmp(&1_u32), None);
    assert_eq!(ParsedNumber::new("-1").partial_cmp(&0_i8), Some(Ordering::Less));
    assert_eq!(ParsedNumber::new("-1").partial_cmp(&0_u64), None);
    assert_eq!(ParsedNumber::new("-1").partial_cmp(&-1_i128), Some(Ordering::Equal));
}

#[test]
fn literals_are_read_letter_by_letter() {
    assert_eq!(literal_of("true"), Ok((ParsedLiteral::True, String::new())));
    assert_eq!(literal_of("false,"), Ok((ParsedLiteral::False, ",".to_string())));
    assert_eq!(literal_of(" \n null]"), Ok((ParsedLiteral::Null, "]".to_string())));
    assert_eq!(literal_of("truex"), Ok((ParsedLiteral::True, "x".to_string())));
    assert_eq!(literal_of("tru"), Err(ParseLiteralError::UnexpectedEnd));
    assert_eq!(literal_of(""), Err(ParseLiteralError::UnexpectedEnd));
    assert_eq!(literal_of("nul1"), Err(ParseLiteralError::UnexpectedCharacter('1')));
    assert_eq!(literal_of("t rue"), Err(ParseLiteralError::UnexpectedCharacter(' ')));
    assert_eq!(literal_of("x"), Err(ParseLiteralError::UnexpectedCharacter('x')));
    assert_eq!(literal_of("fals3"), Err(ParseLiteralError::UnexpectedCharacter('3')));
    let mut parent = TestParent::new("nulL");
    assert_eq!(parent.literal().finish(), Err(ParseLiteralError::UnexpectedCharacter('L')));
    assert_eq!(parent.remaining, "nulL");
}

#[test]
fn literals_have_truth_values() {
    assert_eq!(ParsedLiteral::True.as_bool(), Some(true));
    assert_eq!(ParsedLiteral::False.as_bool(), Some(false));
    assert_eq!(ParsedLiteral::Null.as_bool(), None);
    assert!(ParsedLiteral::Null.is_null());
    assert!(!ParsedLiteral::True.is_null());
    assert_eq!(ParsedLiteral::True.as_str(), "true");
    assert_eq!(ParsedLiteral::False.as_str(), "false");
    assert_eq!(ParsedLiteral::Null.as_str(), "null");
    assert_eq!(ParsedLiteral::Null.to_string(), "null");
    assert_eq!(Option::<bool>::from(ParsedLiteral::False), Some(false));
    assert_eq!(Option::<bool>::from(ParsedLiteral::Null), None);
    assert!(ParsedLiteral::True == true);
    assert!(ParsedLiteral::True != false);
    assert!(ParsedLiteral::False == false);
    assert!(ParsedLiteral::Null != true);
    assert!(ParsedLiteral::Null != false);
    assert!(ParsedLiteral::Null == None);
    assert!(ParsedLiteral::True == Some(true));
    assert!(ParsedLiteral::False == Some(false));
    assert!(ParsedLiteral::False != Some(true));
    assert!(ParsedLiteral::True != None);
}
