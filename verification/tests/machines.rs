use zjson::string::machine::{EscapeMachine, Machine};
use zjson::string::ParsedString;

#[test]
fn escaped_quotes() {
    let mut machine = Machine::In;

    machine = machine
        .apply('\\')
        .expect("failed to apply '\\' to machine")
        .expect("expected machine to continue");
    assert_eq!(machine, Machine::Escape(EscapeMachine::Awaiting));

    machine = machine
        .apply('"')
        .expect("failed to apply '\"' to machine")
        .expect("expected machine to continue");
    assert_eq!(machine, Machine::In);
}

#[test]
fn machine_string() {
    let mut machine = Machine::In;

    for c in "Hello, World!".chars() {
        machine = machine
            .apply(c)
            .expect("failed to apply character to machine")
            .expect("expected machine to continue");
    }

    let result = machine.apply('"').expect("failed to apply '\"' to machine");
    assert!(result.is_none());
}

#[test]
fn escaped_string() {
    let mut machine = Machine::In;

    for c in r#"Hello\" World!"#.chars() {
        machine = machine
            .apply(c)
            .expect("failed to apply character to machine")
            .expect("expected machine to continue");
    }

    let result = machine.apply('"').expect("failed to apply '\"' to machine");
    assert!(result.is_none());
}

#[test]
fn test_surrogate_pair() {
    let unescaped = r"\ud83d\ude03";
    let parsed = ParsedString::new(unescaped);
    assert_eq!(parsed, "\u{1F603}");
}
