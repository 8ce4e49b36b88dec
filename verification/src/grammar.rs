//! The grammar of JSON as syntax trees, and the proof that every text of the
//! grammar is read to its end.

use crate::array;
use crate::containers::{ParsePrompt, ParseStatus};
use crate::document;
use crate::literal::{literal_end, ParsedLiteral};
use crate::multi_document;
use crate::number::machine::is_digit;
use crate::number::number_end;
use crate::object;
use crate::skip::{array_end, lemma_value_end_bounds, object_end, value_end};
use crate::string::string_end;
use crate::text::is_whitespace;
use vstd::prelude::*;

verus! {

/// A JSON value as its grammar derives it, with the whitespace that the grammar
/// allows between its tokens written out.
pub enum Json {
    /// `true`, `false` or `null`.
    Literal(ParsedLiteral),
    /// A number, as the text that the number machine accepts.
    Number(Seq<char>),
    /// A string, as the body between its quotation marks.
    String(Seq<char>),
    /// An array without elements, with the whitespace between its brackets.
    EmptyArray(Seq<char>),
    /// An array with elements.
    Array(Box<Elements>),
    /// An object without members, with the whitespace between its braces.
    EmptyObject(Seq<char>),
    /// An object with members.
    Object(Box<Members>),
}

/// A value with the whitespace around it.
pub struct Element {
    pub before: Seq<char>,
    pub value: Json,
    pub after: Seq<char>,
}

/// One or more elements, separated by commas.
pub enum Elements {
    Last(Element),
    More(Element, Box<Elements>),
}

/// A member of an object: a name, a colon and a value, with the whitespace around
/// them.
pub struct Member {
    pub before: Seq<char>,
    pub name: Seq<char>,
    pub between: Seq<char>,
    pub value: Element,
}

/// One or more members, separated by commas.
pub enum Members {
    Last(Member),
    More(Member, Box<Members>),
}

/// Whether `s` holds nothing but whitespace.
pub open spec fn is_blank(s: Seq<char>) -> bool {
    forall|i: int| 0 <= i < s.len() ==> is_whitespace(#[trigger] s[i])
}

/// Whether a number may end before `rest`: at the end of the text, or before a
/// character that continues no number.
pub open spec fn ends_number(rest: Seq<char>) -> bool {
    rest.len() == 0 || !(is_digit(rest[0]) || rest[0] == '.' || rest[0] == 'e' || rest[0] == 'E')
}

/// Any number of values, each with the whitespace before it, and the whitespace
/// after the last.
pub enum Values {
    End(Seq<char>),
    More(Seq<char>, Json, Box<Values>),
}

impl Values {
    /// Whether the parts of the values are what the grammar asks for, and each
    /// number ends where the next value begins.
    pub open spec fn wf(self) -> bool
        decreases self,
    {
        match self {
            Values::End(blank) => is_blank(blank),
            Values::More(before, value, more) => {
                &&& is_blank(before)
                &&& value.wf()
                &&& more.wf()
                &&& value is Number ==> ends_number(more.text())
            },
        }
    }

    /// The text of the values.
    pub open spec fn text(self) -> Seq<char>
        decreases self,
    {
        match self {
            Values::End(blank) => blank,
            Values::More(before, value, more) => before + value.text() + more.text(),
        }
    }
}

impl Json {
    /// The kind of the value.
    pub open spec fn prompt(self) -> ParsePrompt {
        match self {
            Json::Literal(_) => ParsePrompt::Literal,
            Json::Number(_) => ParsePrompt::Number,
            Json::String(_) => ParsePrompt::String,
            Json::EmptyArray(_) | Json::Array(_) => ParsePrompt::Array,
            Json::EmptyObject(_) | Json::Object(_) => ParsePrompt::Object,
        }
    }

    /// Whether the parts of the value are what the grammar asks for.
    pub open spec fn wf(self) -> bool
        decreases self,
    {
        match self {
            Json::Literal(_) => true,
            Json::Number(text) => number_end(text) == Ok::<int, crate::number::ParseNumberError>(
                text.len() as int,
            ),
            Json::String(body) => string_end(body.push('"')) == Ok::<
                int,
                crate::string::ParseStringError,
            >(body.len() as int),
            Json::EmptyArray(blank) => is_blank(blank),
            Json::Array(elements) => elements.wf(),
            Json::EmptyObject(blank) => is_blank(blank),
            Json::Object(members) => members.wf(),
        }
    }

    /// The text of the value.
    pub open spec fn text(self) -> Seq<char>
        decreases self,
    {
        match self {
            Json::Literal(literal) => literal.text(),
            Json::Number(text) => text,
            Json::String(body) => seq!['"'] + body + seq!['"'],
            Json::EmptyArray(blank) => seq!['['] + blank + seq![']'],
            Json::Array(elements) => seq!['['] + elements.text() + seq![']'],
            Json::EmptyObject(blank) => seq!['{'] + blank + seq!['}'],
            Json::Object(members) => seq!['{'] + members.text() + seq!['}'],
        }
    }

    /// The text that a cursor over the value reads: the text of the value, without
    /// the opening delimiter of a string, an array or an object.
    pub open spec fn body(self) -> Seq<char> {
        if self.prompt().keep_first() {
            self.text()
        } else {
            self.text().skip(1)
        }
    }
}

impl Element {
    /// Whether the parts of the element are what the grammar asks for.
    pub open spec fn wf(self) -> bool
        decreases self,
    {
        is_blank(self.before) && self.value.wf() && is_blank(self.after)
    }

    /// The text of the element.
    pub open spec fn text(self) -> Seq<char>
        decreases self,
    {
        self.before + self.value.text() + self.after
    }
}

impl Elements {
    /// Whether the parts of the elements are what the grammar asks for.
    pub open spec fn wf(self) -> bool
        decreases self,
    {
        match self {
            Elements::Last(element) => element.wf(),
            Elements::More(element, more) => element.wf() && more.wf(),
        }
    }

    /// The text of the elements.
    pub open spec fn text(self) -> Seq<char>
        decreases self,
    {
        match self {
            Elements::Last(element) => element.text(),
            Elements::More(element, more) => element.text() + seq![','] + more.text(),
        }
    }
}

impl Member {
    /// Whether the parts of the member are what the grammar asks for.
    pub open spec fn wf(self) -> bool
        decreases self,
    {
        &&& is_blank(self.before)
        &&& string_end(self.name.push('"')) == Ok::<int, crate::string::ParseStringError>(
            self.name.len() as int,
        )
        &&& is_blank(self.between)
        &&& self.value.wf()
    }

    /// The text of the member.
    pub open spec fn text(self) -> Seq<char>
        decreases self,
    {
        self.before + seq!['"'] + self.name + seq!['"'] + self.between + seq![':']
            + self.value.text()
    }
}

impl Members {
    /// Whether the parts of the members are what the grammar asks for.
    pub open spec fn wf(self) -> bool
        decreases self,
    {
        match self {
            Members::Last(member) => member.wf(),
            Members::More(member, more) => member.wf() && more.wf(),
        }
    }

    /// The text of the members.
    pub open spec fn text(self) -> Seq<char>
        decreases self,
    {
        match self {
            Members::Last(member) => member.text(),
            Members::More(member, more) => member.text() + seq![','] + more.text(),
        }
    }
}

/// A number that fills a text is read as the same number before anything that a
/// number may end before.
pub proof fn lemma_number_follow(m: crate::number::machine::Machine, text: Seq<char>, rest: Seq<char>)
    requires
        crate::number::scan(m, text) == Ok::<int, crate::number::ParseNumberError>(
            text.len() as int,
        ),
        ends_number(rest),
    ensures
        crate::number::scan(m, text + rest) == Ok::<int, crate::number::ParseNumberError>(
            text.len() as int,
        ),
    decreases text.len(),
{
    if text.len() == 0 {
        assert(text + rest =~= rest);
    } else {
        let whole = text + rest;
        assert(whole[0] == text[0]);
        assert(whole.skip(1) =~= text.skip(1) + rest);
        match m.spec_apply(text[0]) {
            Ok(crate::status::Status::Parsing(next)) => {
                lemma_number_follow(next, text.skip(1), rest);
            },
            _ => {},
        }
    }
}

/// A string that ends within a text ends at the same place whatever follows the
/// text.
pub proof fn lemma_string_follow(m: crate::string::machine::Machine, text: Seq<char>, rest: Seq<char>)
    requires
        crate::string::scan(m, text) is Ok,
    ensures
        crate::string::scan(m, text + rest) == crate::string::scan(m, text),
    decreases text.len(),
{
    let whole = text + rest;
    assert(whole[0] == text[0]);
    assert(whole.skip(1) =~= text.skip(1) + rest);
    match m.spec_apply(text[0]) {
        Ok(Some(next)) => {
            lemma_string_follow(next, text.skip(1), rest);
        },
        _ => {},
    }
}

/// The text of a literal is read as that literal, whatever follows it.
pub proof fn lemma_literal_follow(literal: ParsedLiteral, rest: Seq<char>)
    ensures
        literal_end(literal.text() + rest) == Ok::<
            (ParsedLiteral, int),
            crate::literal::ParseLiteralError,
        >((literal, literal.text().len() as int)),
{
    let s = literal.text() + rest;
    let s1 = s.skip(1);
    let s2 = s1.skip(1);
    let s3 = s2.skip(1);
    let s4 = s3.skip(1);
    assert(s[0] == literal.text()[0]);
    assert(s1[0] == literal.text()[1]);
    assert(s2[0] == literal.text()[2]);
    assert(s3[0] == literal.text()[3]);
    if literal is False {
        assert(s4[0] == literal.text()[4]);
    }
    reveal_with_fuel(crate::literal::scan, 6);
}

/// An array cursor that reads characters reads past whitespace.
pub proof fn lemma_array_blank(m: array::machine::Machine, blank: Seq<char>, rest: Seq<char>)
    requires
        m.reads(),
        is_blank(blank),
    ensures
        array::run(m, blank + rest) == array::run(m, rest).after(blank.len() as int),
    decreases blank.len(),
{
    if blank.len() == 0 {
        assert(blank + rest =~= rest);
    } else {
        let whole = blank + rest;
        assert(whole[0] == blank[0]);
        assert(whole.skip(1) =~= blank.skip(1) + rest);
        lemma_array_blank(m, blank.skip(1), rest);
    }
}

/// An object cursor that reads characters reads past whitespace.
pub proof fn lemma_object_blank(m: object::machine::State, blank: Seq<char>, rest: Seq<char>)
    requires
        m.reads(),
        is_blank(blank),
    ensures
        object::run(m, blank + rest) == object::run(m, rest).after(blank.len() as int),
    decreases blank.len(),
{
    if blank.len() == 0 {
        assert(blank + rest =~= rest);
    } else {
        let whole = blank + rest;
        assert(whole[0] == blank[0]);
        assert(whole.skip(1) =~= blank.skip(1) + rest);
        lemma_object_blank(m, blank.skip(1), rest);
    }
}

/// A document that waits for no child reads past whitespace.
pub proof fn lemma_document_blank(status: Option<ParseStatus>, blank: Seq<char>, rest: Seq<char>)
    requires
        !(status matches Some(ParseStatus::Prompted(_))),
        is_blank(blank),
    ensures
        document::run(status, blank + rest) == document::run(status, rest).after(
            blank.len() as int,
        ),
    decreases blank.len(),
{
    if blank.len() == 0 {
        assert(blank + rest =~= rest);
    } else {
        let whole = blank + rest;
        assert(whole[0] == blank[0]);
        assert(whole.skip(1) =~= blank.skip(1) + rest);
        lemma_document_blank(status, blank.skip(1), rest);
    }
}

/// Where an array cursor in state `m` stops after `k` characters as a cursor in
/// state `m2` stops from there, it also ends as that cursor ends.
pub proof fn lemma_array_end_shift(
    m: array::machine::Machine,
    s: Seq<char>,
    k: int,
    m2: array::machine::Machine,
)
    requires
        0 <= k <= s.len(),
        array::run(m, s) == array::run(m2, s.skip(k)).after(k),
    ensures
        array_end(m, s) == array_end(m2, s.skip(k)).after(k),
{
    let s2 = s.skip(k);
    let stop2 = array::run(m2, s2);
    array::lemma_run_stop(m2, s2);
    if stop2.error is None {
        if let array::machine::Machine::Element(ParseStatus::Prompted(prompt)) = stop2.machine {
            assert(s.skip(k + stop2.at) =~= s2.skip(stop2.at));
            lemma_value_end_bounds(prompt, s2.skip(stop2.at));
            if let Ok(n) = value_end(prompt, s2.skip(stop2.at)) {
                assert(s.skip(k + stop2.at + n) =~= s2.skip(stop2.at + n));
            }
        }
    }
}

/// Where an object cursor in state `m` stops after `k` characters as a cursor in
/// state `m2` stops from there, it also ends as that cursor ends.
pub proof fn lemma_object_end_shift(
    m: object::machine::State,
    s: Seq<char>,
    k: int,
    m2: object::machine::State,
)
    requires
        0 <= k <= s.len(),
        object::run(m, s) == object::run(m2, s.skip(k)).after(k),
    ensures
        object_end(m, s) == object_end(m2, s.skip(k)).after(k),
{
    let s2 = s.skip(k);
    let stop2 = object::run(m2, s2);
    object::lemma_run_stop(m2, s2);
    if stop2.error is None {
        if let object::machine::State::Element { name, element: ParseStatus::Prompted(prompt) } =
            stop2.state {
            assert(s.skip(k + stop2.at) =~= s2.skip(stop2.at));
            lemma_value_end_bounds(prompt, s2.skip(stop2.at));
            if let Ok(n) = value_end(prompt, s2.skip(stop2.at)) {
                assert(s.skip(k + stop2.at + n) =~= s2.skip(stop2.at + n));
            }
        }
    }
}

/// The text of a value begins with a character that announces its kind.
pub proof fn lemma_first_char(json: Json)
    requires
        json.wf(),
    ensures
        json.text().len() > 0,
        ParsePrompt::get(json.text()[0]) == Some(json.prompt()),
        json.body().len() > 0,
{
    match json {
        Json::Number(text) => {
            crate::skip::lemma_value_end_bounds(ParsePrompt::Number, text);
        },
        _ => {},
    }
}

/// After an element, a closing bracket ends the array.
pub proof fn lemma_array_close(rest: Seq<char>)
    ensures
        array_end(
            array::machine::Machine::Element(ParseStatus::Done),
            seq![']'] + rest,
        ) == (crate::skip::Finish {
            machine: array::machine::Machine::End,
            at: 1,
            error: None,
        }),
{
    let s = seq![']'] + rest;
    assert(s[0] == ']');
    reveal_with_fuel(array::run, 2);
}

/// After an element, a comma lets the array go on with another element.
pub proof fn lemma_array_comma(rest: Seq<char>)
    ensures
        array_end(array::machine::Machine::Element(ParseStatus::Done), seq![','] + rest)
            == array_end(array::machine::Machine::In { postcomma: true }, rest).after(1),
{
    let s = seq![','] + rest;
    assert(s[0] == ',');
    assert(s.skip(1) =~= rest);
    lemma_array_end_shift(
        array::machine::Machine::Element(ParseStatus::Done),
        s,
        1,
        array::machine::Machine::In { postcomma: true },
    );
}

/// After a value, a closing brace ends the object.
pub proof fn lemma_object_close(name: Seq<char>, rest: Seq<char>)
    ensures
        object_end(
            object::machine::State::Element { name, element: ParseStatus::Done },
            seq!['}'] + rest,
        ) == (crate::skip::Finish {
            machine: object::machine::State::End,
            at: 1,
            error: None,
        }),
{
    let s = seq!['}'] + rest;
    assert(s[0] == '}');
    reveal_with_fuel(object::run, 2);
}

/// After a value, a comma lets the object go on with another member.
pub proof fn lemma_object_comma(name: Seq<char>, rest: Seq<char>)
    ensures
        object_end(
            object::machine::State::Element { name, element: ParseStatus::Done },
            seq![','] + rest,
        ) == object_end(object::machine::State::In { postcomma: true }, rest).after(1),
{
    let s = seq![','] + rest;
    assert(s[0] == ',');
    assert(s.skip(1) =~= rest);
    lemma_object_end_shift(
        object::machine::State::Element { name, element: ParseStatus::Done },
        s,
        1,
        object::machine::State::In { postcomma: true },
    );
}

/// The stop of a cursor that finds the first character of a value where it waits
/// for one: after the character, unless the character belongs to the value.
pub open spec fn prompted_at(prompt: ParsePrompt) -> int {
    if prompt.keep_first() {
        0
    } else {
        1
    }
}

/// An array cursor that waits for an element stops at the first character of a
/// value.
pub proof fn lemma_array_prompt(postcomma: bool, s: Seq<char>)
    requires
        s.len() > 0,
        ParsePrompt::get(s[0]) is Some,
    ensures
        array::run(array::machine::Machine::In { postcomma }, s) == (array::Stop {
            machine: array::machine::Machine::Element(
                ParseStatus::Prompted(ParsePrompt::get(s[0])->0),
            ),
            at: prompted_at(ParsePrompt::get(s[0])->0),
            error: None,
        }),
{
    reveal_with_fuel(array::run, 2);
}

/// An object cursor that waits for a value stops at the first character of a
/// value.
pub proof fn lemma_object_prompt(name: Seq<char>, s: Seq<char>)
    requires
        s.len() > 0,
        ParsePrompt::get(s[0]) is Some,
    ensures
        object::run(object::machine::State::PreElement { name }, s) == (object::Stop {
            state: object::machine::State::Element {
                name,
                element: ParseStatus::Prompted(ParsePrompt::get(s[0])->0),
            },
            at: prompted_at(ParsePrompt::get(s[0])->0),
            error: None,
        }),
{
    reveal_with_fuel(object::run, 2);
}

/// An array cursor that stops where a value is due reads on after the value.
pub proof fn lemma_array_end_step(
    m: array::machine::Machine,
    s: Seq<char>,
    prompt: ParsePrompt,
    at: int,
    n: int,
)
    requires
        array::run(m, s) == (array::Stop {
            machine: array::machine::Machine::Element(ParseStatus::Prompted(prompt)),
            at,
            error: None,
        }),
        value_end(prompt, s.skip(at)) == Ok::<int, crate::any::ParseAnyError>(n),
        0 < at + n <= s.len(),
    ensures
        array_end(m, s) == array_end(
            array::machine::Machine::Element(ParseStatus::Done),
            s.skip(at + n),
        ).after(at + n),
{
}

/// An object cursor that stops where a value is due reads on after the value.
pub proof fn lemma_object_end_step(
    m: object::machine::State,
    s: Seq<char>,
    name: Seq<char>,
    prompt: ParsePrompt,
    at: int,
    n: int,
)
    requires
        object::run(m, s) == (object::Stop {
            state: object::machine::State::Element {
                name,
                element: ParseStatus::Prompted(prompt),
            },
            at,
            error: None,
        }),
        value_end(prompt, s.skip(at)) == Ok::<int, crate::any::ParseAnyError>(n),
        0 < at + n <= s.len(),
    ensures
        object_end(m, s) == object_end(
            object::machine::State::Element { name, element: ParseStatus::Done },
            s.skip(at + n),
        ).after(at + n),
{
}

/// An array cursor that waits for an element reads a value that a cursor over it
/// reads to its end, and then waits for a comma or the closing bracket.
#[verifier::rlimit(30)]
pub proof fn lemma_array_value(postcomma: bool, value: Json, after: Seq<char>)
    requires
        value.wf(),
        value_end(value.prompt(), value.body() + after) == Ok::<int, crate::any::ParseAnyError>(
            value.body().len() as int,
        ),
    ensures
        array_end(array::machine::Machine::In { postcomma }, value.text() + after) == array_end(
            array::machine::Machine::Element(ParseStatus::Done),
            after,
        ).after(value.text().len() as int),
{
    let inner = value.text() + after;
    let at = prompted_at(value.prompt());
    let n = value.body().len() as int;
    lemma_first_char(value);
    assert(inner[0] == value.text()[0]);
    lemma_array_prompt(postcomma, inner);
    assert(inner.skip(at) =~= value.body() + after);
    assert(inner.skip(at + n) =~= after);
    lemma_array_end_step(
        array::machine::Machine::In { postcomma },
        inner,
        value.prompt(),
        at,
        n,
    );
}

/// An object cursor that waits for a value reads a value that a cursor over it
/// reads to its end, and then waits for a comma or the closing brace.
#[verifier::rlimit(30)]
pub proof fn lemma_object_value(name: Seq<char>, value: Json, after: Seq<char>)
    requires
        value.wf(),
        value_end(value.prompt(), value.body() + after) == Ok::<int, crate::any::ParseAnyError>(
            value.body().len() as int,
        ),
    ensures
        object_end(object::machine::State::PreElement { name }, value.text() + after)
            == object_end(
            object::machine::State::Element { name, element: ParseStatus::Done },
            after,
        ).after(value.text().len() as int),
{
    let inner = value.text() + after;
    let at = prompted_at(value.prompt());
    let n = value.body().len() as int;
    lemma_first_char(value);
    assert(inner[0] == value.text()[0]);
    lemma_object_prompt(name, inner);
    assert(inner.skip(at) =~= value.body() + after);
    assert(inner.skip(at + n) =~= after);
    lemma_object_end_step(
        object::machine::State::PreElement { name },
        inner,
        name,
        value.prompt(),
        at,
        n,
    );
}

/// An array cursor reads past the whitespace before what it reads next.
pub proof fn lemma_array_end_blank(m: array::machine::Machine, blank: Seq<char>, rest: Seq<char>)
    requires
        m.reads(),
        is_blank(blank),
    ensures
        array_end(m, blank + rest) == array_end(m, rest).after(blank.len() as int),
{
    lemma_array_blank(m, blank, rest);
    assert((blank + rest).skip(blank.len() as int) =~= rest);
    lemma_array_end_shift(m, blank + rest, blank.len() as int, m);
}

/// An object cursor reads past the whitespace before what it reads next.
pub proof fn lemma_object_end_blank(m: object::machine::State, blank: Seq<char>, rest: Seq<char>)
    requires
        m.reads(),
        is_blank(blank),
    ensures
        object_end(m, blank + rest) == object_end(m, rest).after(blank.len() as int),
{
    lemma_object_blank(m, blank, rest);
    assert((blank + rest).skip(blank.len() as int) =~= rest);
    lemma_object_end_shift(m, blank + rest, blank.len() as int, m);
}

/// A cursor over a well-formed value reads exactly the value; a number, before
/// anything that a number may end before.
#[verifier::rlimit(30)]
pub proof fn lemma_value(json: Json, rest: Seq<char>)
    requires
        json.wf(),
        json is Number ==> ends_number(rest),
    ensures
        value_end(json.prompt(), json.body() + rest) == Ok::<int, crate::any::ParseAnyError>(
            json.body().len() as int,
        ),
    decreases json,
{
    match json {
        Json::Literal(literal) => {
            lemma_literal_follow(literal, rest);
        },
        Json::Number(text) => {
            lemma_number_follow(
                crate::number::machine::Machine::Start { signed: false },
                text,
                rest,
            );
        },
        Json::String(body) => {
            assert(json.body() =~= body.push('"'));
            lemma_string_follow(crate::string::machine::Machine::In, body.push('"'), rest);
        },
        Json::EmptyArray(blank) => {
            let tail = seq![']'] + rest;
            let start = array::machine::Machine::In { postcomma: false };
            assert(json.body() + rest =~= blank + tail);
            assert(json.body().len() == blank.len() + 1);
            lemma_array_blank(start, blank, tail);
            assert((blank + tail).skip(blank.len() as int) =~= tail);
            lemma_array_end_shift(start, blank + tail, blank.len() as int, start);
            assert(tail[0] == ']');
            reveal_with_fuel(array::run, 2);
        },
        Json::Array(elements) => {
            assert(json.body() + rest =~= elements.text() + (seq![']'] + rest));
            assert(json.body().len() == elements.text().len() + 1);
            lemma_elements(*elements, false, rest);
        },
        Json::EmptyObject(blank) => {
            let tail = seq!['}'] + rest;
            let start = object::machine::State::In { postcomma: false };
            assert(json.body() + rest =~= blank + tail);
            assert(json.body().len() == blank.len() + 1);
            lemma_object_blank(start, blank, tail);
            assert((blank + tail).skip(blank.len() as int) =~= tail);
            lemma_object_end_shift(start, blank + tail, blank.len() as int, start);
            assert(tail[0] == '}');
            reveal_with_fuel(object::run, 2);
        },
        Json::Object(members) => {
            assert(json.body() + rest =~= members.text() + (seq!['}'] + rest));
            assert(json.body().len() == members.text().len() + 1);
            lemma_members(*members, false, rest);
        },
    }
}

/// An array cursor that waits for an element reads a well-formed element and the
/// whitespace around it, and then waits for a comma or the closing bracket.
#[verifier::rlimit(30)]
pub proof fn lemma_element(element: Element, postcomma: bool, tail: Seq<char>)
    requires
        element.wf(),
        tail.len() > 0,
        tail[0] == ',' || tail[0] == ']',
    ensures
        array_end(array::machine::Machine::In { postcomma }, element.text() + tail) == array_end(
            array::machine::Machine::Element(ParseStatus::Done),
            tail,
        ).after(element.text().len() as int),
    decreases element,
{
    let start = array::machine::Machine::In { postcomma };
    let done = array::machine::Machine::Element(ParseStatus::Done);
    let after = element.after + tail;
    let inner = element.value.text() + after;
    assert(element.text() + tail =~= element.before + inner);
    assert(after[0] == if element.after.len() > 0 {
        element.after[0]
    } else {
        tail[0]
    });
    lemma_value(element.value, after);
    lemma_array_end_blank(start, element.before, inner);
    lemma_array_value(postcomma, element.value, after);
    lemma_array_end_blank(done, element.after, tail);
}

/// An array cursor that waits for an element reads well-formed elements and the
/// closing bracket after them to the end of the array.
pub proof fn lemma_elements(elements: Elements, postcomma: bool, rest: Seq<char>)
    requires
        elements.wf(),
    ensures
        array_end(
            array::machine::Machine::In { postcomma },
            elements.text() + (seq![']'] + rest),
        ) == (crate::skip::Finish {
            machine: array::machine::Machine::End,
            at: elements.text().len() as int + 1,
            error: None,
        }),
    decreases elements,
{
    let close = seq![']'] + rest;
    assert(close[0] == ']');
    match elements {
        Elements::Last(element) => {
            lemma_element(element, postcomma, close);
            lemma_array_close(rest);
        },
        Elements::More(element, more) => {
            let next = more.text() + close;
            let tail = seq![','] + next;
            assert(tail[0] == ',');
            assert(elements.text() + close =~= element.text() + tail);
            lemma_element(element, postcomma, tail);
            lemma_array_comma(next);
            lemma_elements(*more, true, rest);
        },
    }
}

/// An object cursor that waits for a name reads an opening quotation mark and
/// then the name.
pub proof fn lemma_object_quote(postcomma: bool, rest: Seq<char>)
    ensures
        object::run(object::machine::State::In { postcomma }, seq!['"'] + rest) == object::run(
            object::machine::State::Name(None),
            rest,
        ).after(1),
{
    let s = seq!['"'] + rest;
    assert(s[0] == '"');
    assert(s.skip(1) =~= rest);
}

/// An object cursor reads a well-formed name as a whole, and then waits for the
/// colon.
pub proof fn lemma_object_name(name: Seq<char>, rest: Seq<char>)
    requires
        string_end(name.push('"')) == Ok::<int, crate::string::ParseStringError>(
            name.len() as int,
        ),
    ensures
        object::run(object::machine::State::Name(None), name.push('"') + rest) == object::run(
            object::machine::State::Name(Some(name)),
            rest,
        ).after(name.len() as int + 1),
{
    let s = name.push('"') + rest;
    lemma_string_follow(crate::string::machine::Machine::In, name.push('"'), rest);
    assert(s.take(name.len() as int) =~= name);
    assert(s.skip(name.len() as int + 1) =~= rest);
}

/// After a name, a colon lets the object cursor wait for the value.
pub proof fn lemma_object_colon(name: Seq<char>, rest: Seq<char>)
    ensures
        object::run(object::machine::State::Name(Some(name)), seq![':'] + rest) == object::run(
            object::machine::State::PreElement { name },
            rest,
        ).after(1),
{
    let s = seq![':'] + rest;
    assert(s[0] == ':');
    assert(s.skip(1) =~= rest);
}

/// An object cursor that waits for a member reads the whitespace, the name and
/// the colon before a value, and then waits for the value.
#[verifier::rlimit(30)]
pub proof fn lemma_member_name(
    postcomma: bool,
    before: Seq<char>,
    name: Seq<char>,
    between: Seq<char>,
    rest: Seq<char>,
)
    requires
        is_blank(before),
        is_blank(between),
        string_end(name.push('"')) == Ok::<int, crate::string::ParseStringError>(
            name.len() as int,
        ),
    ensures
        object::run(
            object::machine::State::In { postcomma },
            before + seq!['"'] + name + seq!['"'] + between + seq![':'] + rest,
        ) == object::run(object::machine::State::PreElement { name }, rest).after(
            (before.len() + name.len() + between.len() + 3) as int,
        ),
{
    let start = object::machine::State::In { postcomma };
    let named = object::machine::State::Name(Some(name));
    let s5 = seq![':'] + rest;
    let s4 = between + s5;
    let s3 = name.push('"') + s4;
    let s2 = seq!['"'] + s3;
    let whole = before + s2;
    assert(before + seq!['"'] + name + seq!['"'] + between + seq![':'] + rest =~= whole);
    lemma_object_blank(start, before, s2);
    lemma_object_quote(postcomma, s3);
    lemma_object_name(name, s4);
    lemma_object_blank(named, between, s5);
    lemma_object_colon(name, rest);
}

/// An object cursor that waits for a value reads it and the whitespace around it,
/// where a cursor over the value reads exactly the value.
pub proof fn lemma_member_value(name: Seq<char>, element: Element, tail: Seq<char>)
    requires
        element.wf(),
        value_end(element.value.prompt(), element.value.body() + (element.after + tail)) == Ok::<
            int,
            crate::any::ParseAnyError,
        >(element.value.body().len() as int),
    ensures
        object_end(object::machine::State::PreElement { name }, element.text() + tail)
            == object_end(
            object::machine::State::Element { name, element: ParseStatus::Done },
            tail,
        ).after(element.text().len() as int),
{
    let colon = object::machine::State::PreElement { name };
    let done = object::machine::State::Element { name, element: ParseStatus::Done };
    let after = element.after + tail;
    let inner = element.value.text() + after;
    assert(element.text() + tail =~= element.before + inner);
    lemma_object_end_blank(colon, element.before, inner);
    lemma_object_value(name, element.value, after);
    lemma_object_end_blank(done, element.after, tail);
}

/// An object cursor that waits for a member reads a well-formed member and the
/// whitespace around its parts, and then waits for a comma or the closing brace.
#[verifier::rlimit(30)]
pub proof fn lemma_member(member: Member, postcomma: bool, tail: Seq<char>)
    requires
        member.wf(),
        tail.len() > 0,
        tail[0] == ',' || tail[0] == '}',
    ensures
        object_end(object::machine::State::In { postcomma }, member.text() + tail) == object_end(
            object::machine::State::Element { name: member.name, element: ParseStatus::Done },
            tail,
        ).after(member.text().len() as int),
    decreases member,
{
    let name = member.name;
    let start = object::machine::State::In { postcomma };
    let colon = object::machine::State::PreElement { name };
    let after = member.value.after + tail;
    let rest = member.value.text() + tail;
    let whole = member.text() + tail;
    let read = (member.before.len() + name.len() + member.between.len() + 3) as int;
    assert(whole =~= member.before + seq!['"'] + name + seq!['"'] + member.between + seq![':']
        + rest);
    assert(after[0] == if member.value.after.len() > 0 {
        member.value.after[0]
    } else {
        tail[0]
    });
    lemma_value(member.value.value, after);
    lemma_member_name(postcomma, member.before, name, member.between, rest);
    assert(whole.skip(read) =~= rest);
    lemma_object_end_shift(start, whole, read, colon);
    lemma_member_value(name, member.value, tail);
}

/// An object cursor that waits for a member reads well-formed members and the
/// closing brace after them to the end of the object.
pub proof fn lemma_members(members: Members, postcomma: bool, rest: Seq<char>)
    requires
        members.wf(),
    ensures
        object_end(
            object::machine::State::In { postcomma },
            members.text() + (seq!['}'] + rest),
        ) == (crate::skip::Finish {
            machine: object::machine::State::End,
            at: members.text().len() as int + 1,
            error: None,
        }),
    decreases members,
{
    let close = seq!['}'] + rest;
    assert(close[0] == '}');
    match members {
        Members::Last(member) => {
            lemma_member(member, postcomma, close);
            lemma_object_close(member.name, rest);
        },
        Members::More(member, more) => {
            let next = more.text() + close;
            let tail = seq![','] + next;
            assert(tail[0] == ',');
            assert(members.text() + close =~= member.text() + tail);
            lemma_member(member, postcomma, tail);
            lemma_object_comma(member.name, next);
            lemma_members(*more, true, rest);
        },
    }
}

/// Every well-formed JSON text is accepted: a document over a value with
/// whitespace around it reads to the end of the text, without an error.
#[verifier::rlimit(30)]
pub proof fn lemma_document_accepts(element: Element)
    requires
        element.wf(),
    ensures
        document::document_end(None, element.text()) == (document::End {
            status: Some(ParseStatus::Done),
            at: element.text().len() as int,
            error: None,
        }),
{
    let value = element.value;
    let inner = value.text() + element.after;
    let whole = element.before + inner;
    assert(element.text() =~= whole);
    lemma_first_char(value);
    lemma_value(value, element.after);
    lemma_document_blank(None, element.before, inner);
    assert(inner[0] == value.text()[0]);
    let at = if value.prompt().keep_first() {
        0int
    } else {
        1int
    };
    let read: int = element.before.len() + at;
    assert(document::run(None, whole).at == read);
    assert(whole.skip(read) =~= value.body() + element.after);
    assert(whole.skip(read + value.body().len()) =~= element.after);
    assert(element.after + Seq::<char>::empty() =~= element.after);
    lemma_document_blank(Some(ParseStatus::Done), element.after, Seq::<char>::empty());
}

/// A multi-document that waits for no child reads past whitespace.
pub proof fn lemma_multi_document_blank(blank: Seq<char>, rest: Seq<char>)
    requires
        is_blank(blank),
    ensures
        multi_document::run(ParseStatus::Done, blank + rest) == multi_document::run(
            ParseStatus::Done,
            rest,
        ).after(blank.len() as int),
    decreases blank.len(),
{
    if blank.len() == 0 {
        assert(blank + rest =~= rest);
    } else {
        let whole = blank + rest;
        assert(whole[0] == blank[0]);
        assert(whole.skip(1) =~= blank.skip(1) + rest);
        lemma_multi_document_blank(blank.skip(1), rest);
    }
}

/// Every text of well-formed values is accepted: a multi-document over it reads
/// to the end of the text, without an error.
#[verifier::rlimit(30)]
pub proof fn lemma_multi_document_accepts(values: Values)
    requires
        values.wf(),
    ensures
        multi_document::multi_document_end(ParseStatus::Done, values.text())
            == (multi_document::End {
            status: ParseStatus::Done,
            at: values.text().len() as int,
            error: None,
        }),
    decreases values,
{
    let empty = Seq::<char>::empty();
    match values {
        Values::End(blank) => {
            assert(blank + empty =~= blank);
            lemma_multi_document_blank(blank, empty);
        },
        Values::More(before, value, more) => {
            let inner = value.text() + more.text();
            let whole = before + inner;
            assert(values.text() =~= whole);
            lemma_first_char(value);
            lemma_value(value, more.text());
            lemma_multi_document_blank(before, inner);
            assert(inner[0] == value.text()[0]);
            let at = if value.prompt().keep_first() {
                0int
            } else {
                1int
            };
            let read: int = before.len() + at;
            assert(multi_document::run(ParseStatus::Done, whole).at == read);
            assert(whole.skip(read) =~= value.body() + more.text());
            assert(whole.skip(read + value.body().len()) =~= more.text());
            lemma_multi_document_accepts(*more);
        },
    }
}

} // verus!
