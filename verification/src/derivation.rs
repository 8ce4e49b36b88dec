//! From a text that is read to its end to the syntax tree that it is the text of.

use crate::containers::ParsePrompt;
use crate::array;
use crate::containers::ParseStatus;
use crate::document;
use crate::grammar::{
    is_blank, lemma_array_close, lemma_array_comma, lemma_array_end_blank, lemma_array_end_step,
    lemma_array_prompt, prompted_at, Element, Elements, Json, Member, Members,
};
use crate::grammar::{
    lemma_object_close, lemma_object_colon, lemma_object_comma, lemma_object_end_blank,
    lemma_object_end_shift, lemma_object_end_step, lemma_object_blank, lemma_object_prompt,
    lemma_object_quote,
};
use crate::object;
use crate::skip::{array_end, object_end, Finish};
use crate::literal::{literal_end, ParsedLiteral};
use crate::number::number_end;
use crate::skip::{lemma_value_end_bounds, value_end};
use crate::string::string_end;
use crate::text::is_whitespace;
use vstd::prelude::*;

verus! {

/// The number of whitespace characters at the start of `s`.
pub open spec fn blank_len(s: Seq<char>) -> int
    decreases s.len(),
{
    if s.len() > 0 && is_whitespace(s[0]) {
        1 + blank_len(s.skip(1))
    } else {
        0
    }
}

/// The whitespace at the start of a text is whitespace, and ends before a
/// character that is none.
pub proof fn lemma_blank_len(s: Seq<char>)
    ensures
        0 <= blank_len(s) <= s.len(),
        is_blank(s.take(blank_len(s))),
        blank_len(s) < s.len() ==> !is_whitespace(s[blank_len(s)]),
    decreases s.len(),
{
    if s.len() > 0 && is_whitespace(s[0]) {
        lemma_blank_len(s.skip(1));
        let n = blank_len(s);
        assert forall|i: int| 0 <= i < n implies is_whitespace(#[trigger] s.take(n)[i]) by {
            if i > 0 {
                assert(s.take(n)[i] == s.skip(1).take(n - 1)[i - 1]);
            }
        }
    }
}

/// The kind of value that the character at `at` announces, if there is such a
/// character and it announces one.
pub open spec fn prompt_at(s: Seq<char>, at: int) -> Option<ParsePrompt> {
    if 0 <= at < s.len() {
        ParsePrompt::get(s[at])
    } else {
        None
    }
}

/// The value of kind `prompt` that a cursor reads from `s`.
pub open spec fn value_tree(prompt: ParsePrompt, s: Seq<char>) -> Json
    decreases s.len(), (if prompt.keep_first() {
        0int
    } else {
        5int
    }),
{
    match prompt {
        ParsePrompt::String => Json::String(
            s.take(
                match string_end(s) {
                    Ok(n) => n,
                    Err(_) => 0,
                },
            ),
        ),
        ParsePrompt::Number => Json::Number(
            s.take(
                match number_end(s) {
                    Ok(n) => n,
                    Err(_) => 0,
                },
            ),
        ),
        ParsePrompt::Literal => Json::Literal(
            match literal_end(s) {
                Ok((literal, _)) => literal,
                Err(_) => ParsedLiteral::Null,
            },
        ),
        ParsePrompt::Array => {
            let blank = blank_len(s);
            if blank < s.len() && s[blank] == ']' {
                Json::EmptyArray(s.take(blank))
            } else {
                Json::Array(Box::new(elements_tree(s)))
            }
        },
        ParsePrompt::Object => {
            let blank = blank_len(s);
            if blank < s.len() && s[blank] == '}' {
                Json::EmptyObject(s.take(blank))
            } else {
                Json::Object(Box::new(members_tree(s)))
            }
        },
    }
}

/// How many characters the element at the start of `s` takes, with the whitespace
/// around it.
pub open spec fn element_len(s: Seq<char>) -> int {
    let blank = blank_len(s);
    match prompt_at(s, blank) {
        Some(prompt) => {
            let at = blank + crate::grammar::prompted_at(prompt);
            match value_end(prompt, s.skip(at)) {
                Ok(n) => at + n + blank_len(s.skip(at + n)),
                Err(_) => 0,
            }
        },
        None => 0,
    }
}

/// The element at the start of `s`: a value with the whitespace around it.
pub open spec fn element_tree(s: Seq<char>) -> Element
    decreases s.len(), 1int,
{
    let blank = blank_len(s);
    match prompt_at(s, blank) {
        Some(prompt) => {
            let at = blank + crate::grammar::prompted_at(prompt);
            proof {
                lemma_blank_len(s);
            }
            match value_end(prompt, s.skip(at)) {
                Ok(n) => Element {
                    before: s.take(blank),
                    value: value_tree(prompt, s.skip(at)),
                    after: s.skip(at + n).take(blank_len(s.skip(at + n))),
                },
                Err(_) => Element {
                    before: s.take(blank),
                    value: Json::Literal(ParsedLiteral::Null),
                    after: Seq::empty(),
                },
            }
        },
        None => Element {
            before: s.take(blank),
            value: Json::Literal(ParsedLiteral::Null),
            after: Seq::empty(),
        },
    }
}

/// The elements at the start of `s`, up to the first that no comma follows.
pub open spec fn elements_tree(s: Seq<char>) -> Elements
    decreases s.len(), 2int,
{
    let n = element_len(s);
    if 0 <= n < s.len() && s[n] == ',' {
        Elements::More(element_tree(s), Box::new(elements_tree(s.skip(n + 1))))
    } else {
        Elements::Last(element_tree(s))
    }
}

/// How many characters the name at the start of `s` takes, with the whitespace
/// around it and the colon after it.
#[verifier::opaque]
pub open spec fn name_len(s: Seq<char>) -> int {
    let blank = blank_len(s);
    match string_end(s.skip(blank + 1)) {
        Ok(n) => {
            let named = blank + 1 + n + 1;
            named + blank_len(s.skip(named)) + 1
        },
        Err(_) => 0,
    }
}

/// How many characters the member at the start of `s` takes.
#[verifier::opaque]
pub open spec fn member_len(s: Seq<char>) -> int {
    name_len(s) + element_len(s.skip(name_len(s)))
}

/// The member at the start of `s`: a name, a colon and a value, with the
/// whitespace around them.
#[verifier::opaque]
pub open spec fn member_tree(s: Seq<char>) -> Member
    decreases s.len(), 3int,
{
    let blank = blank_len(s);
    match string_end(s.skip(blank + 1)) {
        Ok(n) => {
            let named = blank + 1 + n + 1;
            let read = name_len(s);
            Member {
                before: s.take(blank),
                name: s.skip(blank + 1).take(n),
                between: s.skip(named).take(blank_len(s.skip(named))),
                value: if 0 < read <= s.len() {
                    element_tree(s.skip(read))
                } else {
                    Element {
                        before: Seq::empty(),
                        value: Json::Literal(ParsedLiteral::Null),
                        after: Seq::empty(),
                    }
                },
            }
        },
        Err(_) => Member {
            before: s.take(blank),
            name: Seq::empty(),
            between: Seq::empty(),
            value: Element {
                before: Seq::empty(),
                value: Json::Literal(ParsedLiteral::Null),
                after: Seq::empty(),
            },
        },
    }
}

/// The members at the start of `s`, up to the first that no comma follows.
pub open spec fn members_tree(s: Seq<char>) -> Members
    decreases s.len(), 4int,
{
    let n = member_len(s);
    if 0 <= n < s.len() && s[n] == ',' {
        Members::More(member_tree(s), Box::new(members_tree(s.skip(n + 1))))
    } else {
        Members::Last(member_tree(s))
    }
}

/// The body of a string that the machine accepts is accepted by itself, with its
/// closing quotation mark.
pub proof fn lemma_string_body(m: crate::string::machine::Machine, s: Seq<char>)
    requires
        crate::string::scan(m, s) is Ok,
    ensures
        crate::string::scan(m, s) matches Ok(n) && 0 <= n < s.len() && s[n] == '"'
            && crate::string::scan(m, s.take(n).push('"')) == Ok::<
            int,
            crate::string::ParseStringError,
        >(n),
    decreases s.len(),
{
    crate::string::lemma_scan_decodable(m, s);
    if let Ok(n) = crate::string::scan(m, s) {
        let body = s.take(n).push('"');
        assert(body[0] == s[0]);
        match m.spec_apply(s[0]) {
            Ok(Some(next)) => {
                lemma_string_body(next, s.skip(1));
                assert(body.skip(1) =~= s.skip(1).take(n - 1).push('"'));
            },
            _ => {},
        }
    }
}

/// A literal that is read from its first letter on takes the characters of its
/// text.
pub proof fn lemma_literal_text(s: Seq<char>)
    requires
        literal_end(s) is Ok,
        s.len() > 0,
        !is_whitespace(s[0]),
    ensures
        literal_end(s) matches Ok((literal, n)) && n == literal.text().len() && s.take(n)
            == literal.text(),
{
    let s1 = s.skip(1);
    let s2 = s1.skip(1);
    let s3 = s2.skip(1);
    let s4 = s3.skip(1);
    reveal_with_fuel(crate::literal::scan, 6);
    if let Ok((literal, n)) = literal_end(s) {
        assert(s1.len() > 0 && s2.len() > 0 && s3.len() > 0);
        assert(s1[0] == s[1]);
        assert(s2[0] == s[2]);
        assert(s3[0] == s[3]);
        if literal is False {
            assert(s4.len() > 0);
            assert(s4[0] == s[4]);
        }
        assert(s.take(n) =~= literal.text());
    }
}

/// The text of a value begins with the character that announced it.
pub proof fn lemma_opener(json: Json, c: char)
    requires
        json.wf(),
        ParsePrompt::get(c) == Some(json.prompt()),
        !json.prompt().keep_first(),
    ensures
        json.text() =~= seq![c] + json.body(),
{
}

/// An array cursor that waits for an element and reaches the end of the array
/// finds, after whitespace, the closing bracket, though not after a comma, or the
/// first character of a value.
pub proof fn lemma_array_first(postcomma: bool, s: Seq<char>)
    requires
        array_end(array::machine::Machine::In { postcomma }, s).error is None,
    ensures
        blank_len(s) < s.len(),
        s[blank_len(s)] == ']' ==> !postcomma,
        s[blank_len(s)] != ']' ==> prompt_at(s, blank_len(s)) is Some,
        array_end(array::machine::Machine::In { postcomma }, s) == array_end(
            array::machine::Machine::In { postcomma },
            s.skip(blank_len(s)),
        ).after(blank_len(s)),
{
    let start = array::machine::Machine::In { postcomma };
    let blank = blank_len(s);
    let rest = s.skip(blank);
    lemma_blank_len(s);
    assert(s =~= s.take(blank) + rest);
    lemma_array_end_blank(start, s.take(blank), rest);
    if rest.len() > 0 {
        assert(rest[0] == s[blank]);
        reveal_with_fuel(array::run, 2);
    }
}

/// An array cursor that has read an element and reaches the end of the array
/// finds, after whitespace, a comma or the closing bracket.
pub proof fn lemma_array_after(s: Seq<char>)
    requires
        array_end(array::machine::Machine::Element(ParseStatus::Done), s).error is None,
    ensures
        blank_len(s) < s.len(),
        s[blank_len(s)] == ',' || s[blank_len(s)] == ']',
        s[blank_len(s)] == ',' ==> array_end(
            array::machine::Machine::Element(ParseStatus::Done),
            s,
        ) == array_end(
            array::machine::Machine::In { postcomma: true },
            s.skip(blank_len(s) + 1),
        ).after(blank_len(s) + 1),
        s[blank_len(s)] == ']' ==> array_end(
            array::machine::Machine::Element(ParseStatus::Done),
            s,
        ) == (Finish {
            machine: array::machine::Machine::End,
            at: blank_len(s) + 1,
            error: None,
        }),
{
    let done = array::machine::Machine::Element(ParseStatus::Done);
    let blank = blank_len(s);
    let rest = s.skip(blank);
    lemma_blank_len(s);
    assert(s =~= s.take(blank) + rest);
    lemma_array_end_blank(done, s.take(blank), rest);
    if rest.len() > 0 {
        assert(rest[0] == s[blank]);
        assert(rest.skip(1) =~= s.skip(blank + 1));
        if rest[0] == ',' {
            assert(rest =~= seq![','] + rest.skip(1));
            lemma_array_comma(rest.skip(1));
        } else if rest[0] == ']' {
            assert(rest =~= seq![']'] + rest.skip(1));
            lemma_array_close(rest.skip(1));
        } else {
            reveal_with_fuel(array::run, 2);
        }
    }
}

/// What a value, read from where it was announced, and the whitespace around it
/// make up: the element at the start of the text.
#[verifier::rlimit(30)]
pub proof fn lemma_element_tree(s: Seq<char>)
    requires
        prompt_at(s, blank_len(s)) matches Some(prompt) && value_end(
            prompt,
            s.skip(blank_len(s) + prompted_at(prompt)),
        ) is Ok,
    ensures
        element_tree(s).wf(),
        0 < element_len(s) <= s.len(),
        element_tree(s).text() =~= s.take(element_len(s)),
        element_len(s) < s.len() ==> !is_whitespace(s[element_len(s)]),
        prompt_at(s, blank_len(s)) matches Some(prompt) && value_end(
            prompt,
            s.skip(blank_len(s) + prompted_at(prompt)),
        ) matches Ok(n) && element_len(s) == blank_len(s) + prompted_at(prompt) + n + blank_len(
            s.skip(blank_len(s) + prompted_at(prompt) + n),
        ),
    decreases s.len(), 1int,
{
    let blank = blank_len(s);
    lemma_blank_len(s);
    if let Some(prompt) = prompt_at(s, blank) {
        let at = blank + prompted_at(prompt);
        let body = s.skip(at);
        lemma_value_end_bounds(prompt, body);
        if let Ok(n) = value_end(prompt, body) {
            let rest = s.skip(at + n);
            lemma_blank_len(rest);
            let value = value_tree(prompt, body);
            if prompt.keep_first() {
                assert(body[0] == s[blank]);
            }
            lemma_value_tree(prompt, body);
            if !prompt.keep_first() {
                lemma_opener(value, s[blank]);
            }
            assert(value.text() =~= s.subrange(blank, at + n));
            let total = at + n + blank_len(rest);
            assert(s.take(total) =~= s.take(blank) + s.subrange(blank, at + n) + rest.take(
                blank_len(rest),
            ));
            if total < s.len() {
                assert(s[total] == rest[blank_len(rest)]);
            }
        }
    }
}

/// The value that a cursor reads to its end is well formed, of the kind that the
/// cursor is for, and written as the text that the cursor reads.
#[verifier::rlimit(30)]
pub proof fn lemma_value_tree(prompt: ParsePrompt, s: Seq<char>)
    requires
        value_end(prompt, s) is Ok,
        prompt.keep_first() ==> prompt_at(s, 0) == Some(prompt),
    ensures
        value_tree(prompt, s).wf(),
        value_tree(prompt, s).prompt() == prompt,
        value_end(prompt, s) matches Ok(n) && value_tree(prompt, s).body() =~= s.take(n),
    decreases s.len(), (if prompt.keep_first() {
        0int
    } else {
        6int
    }),
{
    lemma_value_end_bounds(prompt, s);
    match prompt {
        ParsePrompt::String => {
            lemma_string_body(crate::string::machine::Machine::In, s);
            if let Ok(n) = string_end(s) {
                assert(s.take(n + 1) =~= s.take(n).push('"'));
                assert(value_tree(prompt, s).body() =~= s.take(n).push('"'));
            }
        },
        ParsePrompt::Number => {
            crate::number::lemma_scan_prefix(
                crate::number::machine::Machine::Start { signed: false },
                s,
            );
            crate::number::lemma_scan_bounds(
                crate::number::machine::Machine::Start { signed: false },
                s,
            );
        },
        ParsePrompt::Literal => {
            lemma_literal_text(s);
        },
        ParsePrompt::Array => {
            let start = array::machine::Machine::In { postcomma: false };
            let blank = blank_len(s);
            lemma_blank_len(s);
            lemma_array_first(false, s);
            if s[blank] == ']' {
                let rest = s.skip(blank);
                assert(rest =~= seq![']'] + rest.skip(1));
                assert(rest[0] == ']');
                reveal_with_fuel(array::run, 2);
                assert(array_end(start, rest).at == 1);
                assert(s.take(blank + 1) =~= s.take(blank).push(']'));
                assert(value_tree(prompt, s).body() =~= s.take(blank).push(']'));
            } else {
                lemma_elements_tree(false, s);
                assert(value_tree(prompt, s).body() =~= elements_tree(s).text().push(']'));
            }
        },
        ParsePrompt::Object => {
            lemma_object_tree(s);
        },
    }
}

/// An array cursor that waits for an element and reaches the end of the array
/// finds, after whitespace, the first character of a value that is read without
/// an error, and reads on after the value.
pub proof fn lemma_array_value_first(postcomma: bool, s: Seq<char>)
    requires
        array_end(array::machine::Machine::In { postcomma }, s).error is None,
        blank_len(s) < s.len() ==> s[blank_len(s)] != ']',
    ensures
        prompt_at(s, blank_len(s)) matches Some(prompt) && value_end(
            prompt,
            s.skip(blank_len(s) + prompted_at(prompt)),
        ) matches Ok(n) && array_end(array::machine::Machine::In { postcomma }, s) == array_end(
            array::machine::Machine::Element(ParseStatus::Done),
            s.skip(blank_len(s) + prompted_at(prompt) + n),
        ).after(blank_len(s) + prompted_at(prompt) + n),
{
    let start = array::machine::Machine::In { postcomma };
    let blank = blank_len(s);
    let inner = s.skip(blank);
    lemma_blank_len(s);
    lemma_array_first(postcomma, s);
    assert(inner[0] == s[blank]);
    if let Some(prompt) = ParsePrompt::get(inner[0]) {
        let at = prompted_at(prompt);
        lemma_array_prompt(postcomma, inner);
        assert(inner.skip(at) =~= s.skip(blank + at));
        lemma_value_end_bounds(prompt, inner.skip(at));
        if let Ok(n) = value_end(prompt, inner.skip(at)) {
            lemma_array_end_step(start, inner, prompt, at, n);
            assert(inner.skip(at + n) =~= s.skip(blank + at + n));
        }
    }
}

/// The elements that an array cursor reads to the end of the array are well
/// formed, and written as the text that the cursor reads, up to the closing
/// bracket.
#[verifier::rlimit(30)]
pub proof fn lemma_elements_tree(postcomma: bool, s: Seq<char>)
    requires
        array_end(array::machine::Machine::In { postcomma }, s).error is None,
        blank_len(s) < s.len() ==> s[blank_len(s)] != ']',
    ensures
        elements_tree(s).wf(),
        0 < array_end(array::machine::Machine::In { postcomma }, s).at <= s.len(),
        s.take(array_end(array::machine::Machine::In { postcomma }, s).at) =~= elements_tree(
            s,
        ).text().push(']'),
    decreases s.len(), 2int,
{
    lemma_array_value_first(postcomma, s);
    lemma_element_tree(s);
    let prompt = prompt_at(s, blank_len(s))->0;
    let at = blank_len(s) + prompted_at(prompt);
    let n = value_end(prompt, s.skip(at))->Ok_0;
    let after = s.skip(at + n);
    lemma_blank_len(s);
    lemma_value_end_bounds(prompt, s.skip(at));
    lemma_blank_len(after);
    lemma_array_after(after);
    let total = element_len(s);
    assert(after.skip(blank_len(after) + 1) =~= s.skip(total + 1));
    assert(s[total] == after[blank_len(after)]);
    if s[total] == ',' {
        let more = s.skip(total + 1);
        lemma_array_first(true, more);
        lemma_elements_tree(true, more);
        let end = array_end(array::machine::Machine::In { postcomma: true }, more).at;
        assert(s.take(total + 1 + end) =~= s.take(total) + seq![','] + more.take(end));
    } else {
        assert(s.take(total + 1) =~= s.take(total).push(']'));
    }
}

/// An object cursor that waits for a member and reaches the end of the object
/// finds, after whitespace, the closing brace, though not after a comma, or the
/// opening quotation mark of a name.
pub proof fn lemma_object_first(postcomma: bool, s: Seq<char>)
    requires
        object::run(object::machine::State::In { postcomma }, s).error is None,
    ensures
        blank_len(s) < s.len(),
        s[blank_len(s)] == '}' ==> !postcomma,
        s[blank_len(s)] != '}' ==> s[blank_len(s)] == '"',
        s[blank_len(s)] == '"' ==> object::run(object::machine::State::In { postcomma }, s)
            == object::run(object::machine::State::Name(None), s.skip(blank_len(s) + 1)).after(
            blank_len(s) + 1,
        ),
        s[blank_len(s)] == '}' ==> object::run(object::machine::State::In { postcomma }, s)
            == (object::Stop {
            state: object::machine::State::End,
            at: blank_len(s) + 1,
            error: None,
        }),
{
    let start = object::machine::State::In { postcomma };
    let blank = blank_len(s);
    let rest = s.skip(blank);
    lemma_blank_len(s);
    assert(s =~= s.take(blank) + rest);
    lemma_object_blank(start, s.take(blank), rest);
    if rest.len() > 0 {
        assert(rest[0] == s[blank]);
        assert(rest.skip(1) =~= s.skip(blank + 1));
        if rest[0] == '"' {
            assert(rest =~= seq!['"'] + rest.skip(1));
            lemma_object_quote(postcomma, rest.skip(1));
        } else {
            reveal_with_fuel(object::run, 2);
        }
    }
}

/// An object cursor that has read the opening quotation mark of a name and stops
/// without an error has read the name, whitespace and a colon, and waits for the
/// value.
#[verifier::rlimit(30)]
pub proof fn lemma_object_key(s: Seq<char>)
    requires
        object::run(object::machine::State::Name(None), s).error is None,
    ensures
        string_end(s) matches Ok(n) && ({
            let named = n + 1;
            let colon = named + blank_len(s.skip(named));
            &&& 0 <= n
            &&& named <= colon < s.len()
            &&& s[colon] == ':'
            &&& string_end(s.take(n).push('"')) == Ok::<int, crate::string::ParseStringError>(n)
            &&& object::run(object::machine::State::Name(None), s) == object::run(
                object::machine::State::PreElement { name: s.take(n) },
                s.skip(colon + 1),
            ).after(colon + 1)
        }),
{
    lemma_string_body(crate::string::machine::Machine::In, s);
    if let Ok(n) = string_end(s) {
        let name = s.take(n);
        let named = n + 1;
        let rest = s.skip(named);
        let blank = blank_len(rest);
        let tail = rest.skip(blank);
        lemma_blank_len(rest);
        assert(rest =~= rest.take(blank) + tail);
        lemma_object_blank(object::machine::State::Name(Some(name)), rest.take(blank), tail);
        if tail.len() > 0 {
            assert(tail[0] == s[named + blank]);
            assert(tail.skip(1) =~= s.skip(named + blank + 1));
            if tail[0] == ':' {
                assert(tail =~= seq![':'] + tail.skip(1));
                lemma_object_colon(name, tail.skip(1));
            } else {
                reveal_with_fuel(object::run, 2);
            }
        }
    }
}

/// An object cursor that waits for a value and reaches the end of the object
/// finds, after whitespace, the first character of a value that is read without
/// an error, and reads on after the value.
pub proof fn lemma_object_value_first(name: Seq<char>, s: Seq<char>)
    requires
        object_end(object::machine::State::PreElement { name }, s).error is None,
    ensures
        prompt_at(s, blank_len(s)) matches Some(prompt) && value_end(
            prompt,
            s.skip(blank_len(s) + prompted_at(prompt)),
        ) matches Ok(n) && object_end(object::machine::State::PreElement { name }, s)
            == object_end(
            object::machine::State::Element { name, element: ParseStatus::Done },
            s.skip(blank_len(s) + prompted_at(prompt) + n),
        ).after(blank_len(s) + prompted_at(prompt) + n),
{
    let colon = object::machine::State::PreElement { name };
    let blank = blank_len(s);
    let inner = s.skip(blank);
    lemma_blank_len(s);
    assert(s =~= s.take(blank) + inner);
    lemma_object_end_blank(colon, s.take(blank), inner);
    if inner.len() > 0 {
        assert(inner[0] == s[blank]);
        if let Some(prompt) = ParsePrompt::get(inner[0]) {
            let at = prompted_at(prompt);
            lemma_object_prompt(name, inner);
            assert(inner.skip(at) =~= s.skip(blank + at));
            lemma_value_end_bounds(prompt, inner.skip(at));
            if let Ok(n) = value_end(prompt, inner.skip(at)) {
                lemma_object_end_step(colon, inner, name, prompt, at, n);
                assert(inner.skip(at + n) =~= s.skip(blank + at + n));
            }
        } else {
            reveal_with_fuel(object::run, 2);
        }
    }
}

/// An object cursor that has read a value and reaches the end of the object
/// finds, after whitespace, a comma or the closing brace.
pub proof fn lemma_object_after(name: Seq<char>, s: Seq<char>)
    requires
        object_end(
            object::machine::State::Element { name, element: ParseStatus::Done },
            s,
        ).error is None,
    ensures
        blank_len(s) < s.len(),
        s[blank_len(s)] == ',' || s[blank_len(s)] == '}',
        s[blank_len(s)] == ',' ==> object_end(
            object::machine::State::Element { name, element: ParseStatus::Done },
            s,
        ) == object_end(
            object::machine::State::In { postcomma: true },
            s.skip(blank_len(s) + 1),
        ).after(blank_len(s) + 1),
        s[blank_len(s)] == '}' ==> object_end(
            object::machine::State::Element { name, element: ParseStatus::Done },
            s,
        ) == (Finish {
            machine: object::machine::State::End,
            at: blank_len(s) + 1,
            error: None,
        }),
{
    let done = object::machine::State::Element { name, element: ParseStatus::Done };
    let blank = blank_len(s);
    let rest = s.skip(blank);
    lemma_blank_len(s);
    assert(s =~= s.take(blank) + rest);
    lemma_object_end_blank(done, s.take(blank), rest);
    if rest.len() > 0 {
        assert(rest[0] == s[blank]);
        assert(rest.skip(1) =~= s.skip(blank + 1));
        if rest[0] == ',' {
            assert(rest =~= seq![','] + rest.skip(1));
            lemma_object_comma(name, rest.skip(1));
        } else if rest[0] == '}' {
            assert(rest =~= seq!['}'] + rest.skip(1));
            lemma_object_close(name, rest.skip(1));
        } else {
            reveal_with_fuel(object::run, 2);
        }
    }
}

/// What a name, a colon and an element make up: the member at the start of the
/// text.
#[verifier::rlimit(30)]
pub proof fn lemma_member_tree(s: Seq<char>)
    requires
        blank_len(s) < s.len(),
        s[blank_len(s)] == '"',
        string_end(s.skip(blank_len(s) + 1)) matches Ok(n) && 0 <= n && s[blank_len(s) + 1 + n]
            == '"' && string_end(s.skip(blank_len(s) + 1).take(n).push('"')) == Ok::<
            int,
            crate::string::ParseStringError,
        >(n),
        0 < name_len(s) <= s.len(),
        s[name_len(s) - 1] == ':',
        element_tree(s.skip(name_len(s))).wf(),
        0 <= element_len(s.skip(name_len(s))) <= s.len() - name_len(s),
        element_tree(s.skip(name_len(s))).text() =~= s.skip(name_len(s)).take(
            element_len(s.skip(name_len(s))),
        ),
    ensures
        member_tree(s).wf(),
        member_tree(s).text() =~= s.take(member_len(s)),
{
    reveal(name_len);
    reveal(member_len);
    reveal(member_tree);
    let blank = blank_len(s);
    let key = s.skip(blank + 1);
    let n = string_end(key)->Ok_0;
    let name = key.take(n);
    let named = blank + 1 + n + 1;
    let read = name_len(s);
    let rest = s.skip(read);
    let member = member_tree(s);
    lemma_blank_len(s);
    lemma_blank_len(s.skip(named));
    assert(member.before == s.take(blank));
    assert(member.name == name);
    assert(member.between == s.skip(named).take(blank_len(s.skip(named))));
    assert(member.value == element_tree(rest));
    assert(name.len() == n);
    let quoted = member.before + seq!['"'];
    assert(quoted =~= s.take(blank + 1));
    let with_name = quoted + member.name;
    assert(with_name =~= s.take(blank + 1 + n));
    let closed = with_name + seq!['"'];
    assert(closed =~= s.take(named));
    let spaced = closed + member.between;
    assert(spaced =~= s.take(read - 1));
    let with_colon = spaced + seq![':'];
    assert(with_colon =~= s.take(read));
    let whole = with_colon + member.value.text();
    assert(whole =~= s.take(read + element_len(rest)));
    assert(member.text() =~= whole);
}

/// An object cursor that waits for a member and reaches the end of the object
/// reads, unless the object ends, a name and the colon after it, and then waits
/// for the value.
#[verifier::rlimit(30)]
pub proof fn lemma_object_name_step(postcomma: bool, s: Seq<char>)
    requires
        object_end(object::machine::State::In { postcomma }, s).error is None,
        blank_len(s) < s.len() ==> s[blank_len(s)] != '}',
    ensures
        blank_len(s) < s.len(),
        s[blank_len(s)] == '"',
        string_end(s.skip(blank_len(s) + 1)) matches Ok(n) && 0 <= n && s[blank_len(s) + 1 + n]
            == '"' && string_end(s.skip(blank_len(s) + 1).take(n).push('"')) == Ok::<
            int,
            crate::string::ParseStringError,
        >(n) && object_end(object::machine::State::In { postcomma }, s) == object_end(
            object::machine::State::PreElement { name: s.skip(blank_len(s) + 1).take(n) },
            s.skip(name_len(s)),
        ).after(name_len(s)),
        0 < name_len(s) <= s.len(),
        s[name_len(s) - 1] == ':',
{
    reveal(name_len);
    let start = object::machine::State::In { postcomma };
    let blank = blank_len(s);
    lemma_blank_len(s);
    lemma_object_first(postcomma, s);
    let key = s.skip(blank + 1);
    lemma_object_key(key);
    crate::string::lemma_scan_decodable(crate::string::machine::Machine::In, key);
    let n = string_end(key)->Ok_0;
    let name = key.take(n);
    let named = blank + 1 + n + 1;
    assert(key.skip(n + 1) =~= s.skip(named));
    lemma_blank_len(s.skip(named));
    let read = name_len(s);
    assert(key.skip(n + 1 + blank_len(s.skip(named)) + 1) =~= s.skip(read));
    assert(key[n] == s[blank + 1 + n]);
    assert(key[n + 1 + blank_len(s.skip(named))] == s[read - 1]);
    assert(object::run(start, s) == object::run(
        object::machine::State::PreElement { name },
        s.skip(read),
    ).after(read));
    lemma_object_end_shift(start, s, read, object::machine::State::PreElement { name });
}

/// An object cursor that waits for a member and reaches the end of the object
/// reads, unless the object ends, the member at the start of the text, and then a
/// comma or the closing brace.
#[verifier::rlimit(30)]
pub proof fn lemma_object_member(postcomma: bool, s: Seq<char>)
    requires
        object_end(object::machine::State::In { postcomma }, s).error is None,
        blank_len(s) < s.len() ==> s[blank_len(s)] != '}',
    ensures
        member_tree(s).wf(),
        0 < member_len(s) < s.len(),
        member_tree(s).text() =~= s.take(member_len(s)),
        s[member_len(s)] == ',' || s[member_len(s)] == '}',
        s[member_len(s)] == ',' ==> object_end(object::machine::State::In { postcomma }, s)
            == object_end(
            object::machine::State::In { postcomma: true },
            s.skip(member_len(s) + 1),
        ).after(member_len(s) + 1),
        s[member_len(s)] == '}' ==> object_end(object::machine::State::In { postcomma }, s)
            == (Finish {
            machine: object::machine::State::End,
            at: member_len(s) + 1,
            error: None,
        }),
    decreases s.len(), 3int,
{
    reveal(member_len);
    lemma_object_name_step(postcomma, s);
    let name = s.skip(blank_len(s) + 1).take(string_end(s.skip(blank_len(s) + 1))->Ok_0);
    let read = name_len(s);
    let rest = s.skip(read);
    lemma_object_value_first(name, rest);
    lemma_element_tree(rest);
    let prompt = prompt_at(rest, blank_len(rest))->0;
    let at = blank_len(rest) + prompted_at(prompt);
    let m = value_end(prompt, rest.skip(at))->Ok_0;
    let after = rest.skip(at + m);
    lemma_blank_len(rest);
    lemma_value_end_bounds(prompt, rest.skip(at));
    lemma_blank_len(after);
    lemma_object_after(name, after);
    let total = member_len(s);
    assert(total == read + element_len(rest));
    assert(after.skip(blank_len(after) + 1) =~= s.skip(total + 1));
    assert(s[total] == after[blank_len(after)]);
    lemma_member_tree(s);
}

/// The members at the start of a text are the first member and, after a comma,
/// the members that follow.
pub proof fn lemma_members_cons(s: Seq<char>)
    requires
        0 <= member_len(s) < s.len(),
    ensures
        members_tree(s).wf() == (member_tree(s).wf() && (s[member_len(s)] == ','
            ==> members_tree(s.skip(member_len(s) + 1)).wf())),
        members_tree(s).text() == if s[member_len(s)] == ',' {
            member_tree(s).text() + seq![','] + members_tree(s.skip(member_len(s) + 1)).text()
        } else {
            member_tree(s).text()
        },
{
    reveal(member_tree);
    reveal(member_len);
}

/// The members that an object cursor reads to the end of the object are well
/// formed, and written as the text that the cursor reads, up to the closing
/// brace.
#[verifier::rlimit(30)]
pub proof fn lemma_members_tree(postcomma: bool, s: Seq<char>)
    requires
        object_end(object::machine::State::In { postcomma }, s).error is None,
        blank_len(s) < s.len() ==> s[blank_len(s)] != '}',
    ensures
        members_tree(s).wf(),
        0 < object_end(object::machine::State::In { postcomma }, s).at <= s.len(),
        s.take(object_end(object::machine::State::In { postcomma }, s).at) =~= members_tree(
            s,
        ).text().push('}'),
    decreases s.len(), 4int,
{
    lemma_object_member(postcomma, s);
    lemma_members_cons(s);
    let total = member_len(s);
    if s[total] == ',' {
        let more = s.skip(total + 1);
        lemma_object_first(true, more);
        lemma_members_tree(true, more);
        let end = object_end(object::machine::State::In { postcomma: true }, more).at;
        assert(s.take(total + 1 + end) =~= s.take(total) + seq![','] + more.take(end));
    } else {
        assert(s.take(total + 1) =~= s.take(total).push('}'));
    }
}

/// The object that an object cursor reads to its end is well formed, and written
/// as the text that the cursor reads.
pub proof fn lemma_object_tree(s: Seq<char>)
    requires
        value_end(ParsePrompt::Object, s) is Ok,
    ensures
        value_tree(ParsePrompt::Object, s).wf(),
        value_tree(ParsePrompt::Object, s).prompt() == ParsePrompt::Object,
        value_end(ParsePrompt::Object, s) matches Ok(n) && value_tree(
            ParsePrompt::Object,
            s,
        ).body() =~= s.take(n),
    decreases s.len(), 5int,
{
    let blank = blank_len(s);
    lemma_blank_len(s);
    lemma_object_first(false, s);
    if s[blank] == '}' {
        assert(s.take(blank + 1) =~= s.take(blank).push('}'));
        assert(value_tree(ParsePrompt::Object, s).body() =~= s.take(blank).push('}'));
    } else {
        lemma_members_tree(false, s);
        assert(value_tree(ParsePrompt::Object, s).body() =~= members_tree(s).text().push('}'));
    }
}

/// A document that waits for its value and stops without an error finds, after
/// whitespace, the first character of a value.
pub proof fn lemma_document_first(s: Seq<char>)
    requires
        document::run(None, s).error is None,
    ensures
        prompt_at(s, blank_len(s)) matches Some(prompt) && document::run(None, s)
            == (document::Stop {
            status: Some(ParseStatus::Prompted(prompt)),
            at: blank_len(s) + prompted_at(prompt),
            error: None,
        }),
{
    let blank = blank_len(s);
    let rest = s.skip(blank);
    lemma_blank_len(s);
    assert(s =~= s.take(blank) + rest);
    crate::grammar::lemma_document_blank(None, s.take(blank), rest);
    if rest.len() > 0 {
        assert(rest[0] == s[blank]);
    }
}

/// A document that has read its value and stops without an error has found
/// nothing but whitespace.
pub proof fn lemma_document_tail(s: Seq<char>)
    requires
        document::run(Some(ParseStatus::Done), s).error is None,
    ensures
        blank_len(s) == s.len(),
    decreases s.len(),
{
    if s.len() > 0 {
        lemma_document_tail(s.skip(1));
    }
}

/// A text that a document reads to its end without an error is the text of a
/// well-formed value with whitespace around it.
#[verifier::rlimit(30)]
pub proof fn lemma_document_derivation(s: Seq<char>)
    requires
        document::document_end(None, s).error is None,
    ensures
        element_tree(s).wf(),
        element_tree(s).text() =~= s,
{
    lemma_document_first(s);
    let prompt = prompt_at(s, blank_len(s))->0;
    let at = blank_len(s) + prompted_at(prompt);
    lemma_blank_len(s);
    lemma_value_end_bounds(prompt, s.skip(at));
    let n = value_end(prompt, s.skip(at))->Ok_0;
    let after = s.skip(at + n);
    lemma_document_tail(after);
    lemma_element_tree(s);
    assert(s.take(s.len() as int) =~= s);
}

/// A document reads a text to its end without an error exactly if the text is
/// that of a well-formed value with whitespace around it.
pub proof fn lemma_document_accepts_exactly_json(s: Seq<char>)
    ensures
        document::document_end(None, s).error is None <==> exists|element: Element|
            element.wf() && #[trigger] element.text() == s,
{
    if document::document_end(None, s).error is None {
        lemma_document_derivation(s);
        assert(element_tree(s).wf() && element_tree(s).text() == s);
    }
    if exists|element: Element| element.wf() && #[trigger] element.text() == s {
        let element = choose|element: Element| element.wf() && #[trigger] element.text() == s;
        crate::grammar::lemma_document_accepts(element);
    }
}

} // verus!
