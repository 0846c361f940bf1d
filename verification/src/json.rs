//! JSON texts, read by `serde_json` into a tree of the miner's own.

use crate::text::same_text;
use vstd::prelude::*;

verus! {

/// A JSON value as `serde_json` holds it.
#[verifier::external_type_specification]
#[verifier::external_body]
pub struct ExValue(serde_json::Value);

/// A JSON number as `serde_json` holds it.
#[verifier::external_type_specification]
#[verifier::external_body]
pub struct ExNumber(serde_json::Number);

/// The error of `serde_json::from_str`; nothing is read from it.
#[verifier::external_type_specification]
#[verifier::external_body]
pub struct ExError(serde_json::Error);

/// A JSON number in each form that it fits.
#[derive(Clone, Copy, Debug, PartialEq, Eq, Structural)]
pub struct JsonNumber {
    /// The number, where it is an integer that is not negative and fits.
    pub unsigned: Option<u64>,
    /// The number, where it is an integer that fits with its sign.
    pub signed: Option<i64>,
    /// The bits of the nearest double-precision number.
    pub double_bits: Option<u64>,
}

/// A JSON value.
#[derive(Debug)]
pub enum Json {
    Null,
    Bool(bool),
    Number(JsonNumber),
    Text(String),
    Array(Vec<Json>),
    /// The members in the order in which they are kept.
    Object(Vec<(String, Json)>),
}

/// What a JSON value holds.
pub enum JsonView {
    Null,
    Bool(bool),
    Number(JsonNumber),
    Text(Seq<char>),
    Array(Seq<JsonView>),
    Object(Seq<(Seq<char>, JsonView)>),
}

impl Json {
    /// What this value holds.
    pub open spec fn contents(self) -> JsonView
        decreases self,
    {
        match self {
            Json::Null => JsonView::Null,
            Json::Bool(b) => JsonView::Bool(b),
            Json::Number(n) => JsonView::Number(n),
            Json::Text(t) => JsonView::Text(t@),
            Json::Array(items) => JsonView::Array(
                Seq::new(
                    items@.len(),
                    |i: int|
                        if 0 <= i < items@.len() {
                            items@[i].contents()
                        } else {
                            JsonView::Null
                        },
                ),
            ),
            Json::Object(members) => JsonView::Object(
                Seq::new(
                    members@.len(),
                    |i: int|
                        if 0 <= i < members@.len() {
                            (members@[i].0@, members@[i].1.contents())
                        } else {
                            (Seq::empty(), JsonView::Null)
                        },
                ),
            ),
        }
    }
}

impl View for Json {
    type V = JsonView;

    open spec fn view(&self) -> JsonView {
        self.contents()
    }
}

/// The first member of that name, where there is one.
pub open spec fn first_member(
    members: Seq<(Seq<char>, JsonView)>,
    name: Seq<char>,
) -> Option<JsonView>
    decreases members.len(),
{
    if members.len() == 0 {
        None
    } else if members[0].0 == name {
        Some(members[0].1)
    } else {
        first_member(members.drop_first(), name)
    }
}

impl JsonView {
    /// The member of that name, where this is an object that has one.
    pub open spec fn member(self, name: Seq<char>) -> Option<JsonView> {
        match self {
            JsonView::Object(members) => first_member(members, name),
            _ => None,
        }
    }

    /// The element at an index, or null where this is no array or it is too
    /// short.
    pub open spec fn element(self, index: int) -> JsonView {
        match self {
            JsonView::Array(items) => if 0 <= index < items.len() {
                items[index]
            } else {
                JsonView::Null
            },
            _ => JsonView::Null,
        }
    }

    /// The text, where this is a string.
    pub open spec fn text(self) -> Option<Seq<char>> {
        match self {
            JsonView::Text(t) => Some(t),
            _ => None,
        }
    }

    /// The text, or the empty text where this is no string.
    pub open spec fn text_or_empty(self) -> Seq<char> {
        match self {
            JsonView::Text(t) => t,
            _ => Seq::empty(),
        }
    }

    /// The integer, where this is a number that is one.
    pub open spec fn unsigned(self) -> Option<u64> {
        match self {
            JsonView::Number(n) => n.unsigned,
            _ => None,
        }
    }

    /// The bits of the double-precision number, where this is a number.
    pub open spec fn double_bits(self) -> Option<u64> {
        match self {
            JsonView::Number(n) => n.double_bits,
            _ => None,
        }
    }
}

impl JsonView {
    /// Whether every number in this value has a double-precision form.
    pub open spec fn has_doubles(self) -> bool
        decreases self,
    {
        match self {
            JsonView::Number(n) => n.double_bits is Some,
            JsonView::Array(items) => forall|i: int|
                0 <= i < items.len() ==> (#[trigger] items[i]).has_doubles(),
            JsonView::Object(members) => forall|i: int|
                0 <= i < members.len() ==> (#[trigger] members[i]).1.has_doubles(),
            _ => true,
        }
    }
}

/// Where every number in a value has a double-precision form, so has every
/// number in its members and elements.
pub proof fn law_parts_have_doubles(value: JsonView, name: Seq<char>, index: int)
    requires
        value.has_doubles(),
    ensures
        value.member(name) matches Some(member) ==> member.has_doubles(),
        value.element(index).has_doubles(),
{
    match value {
        JsonView::Object(members) => lemma_first_member_has_doubles(members, name),
        _ => {},
    }
}

proof fn lemma_first_member_has_doubles(members: Seq<(Seq<char>, JsonView)>, name: Seq<char>)
    requires
        forall|i: int| 0 <= i < members.len() ==> (#[trigger] members[i]).1.has_doubles(),
    ensures
        first_member(members, name) matches Some(member) ==> member.has_doubles(),
    decreases members.len(),
{
    if members.len() > 0 {
        assert(members[0].1.has_doubles());
        let rest = members.drop_first();
        assert forall|i: int| 0 <= i < rest.len() implies (#[trigger] rest[i]).1.has_doubles() by {
            assert(rest[i] == members[i + 1]);
        }
        lemma_first_member_has_doubles(rest, name);
    }
}

/// The forms of a `serde_json::Number`.
pub uninterp spec fn number_forms(number: serde_json::Number) -> JsonNumber;

/// What a `serde_json::Value` holds.
pub uninterp spec fn value_contents(value: serde_json::Value) -> JsonView;

/// The value that `serde_json` reads from a text, where it accepts the text.
pub uninterp spec fn parsed_json(text: Seq<char>) -> Option<JsonView>;

/// The text that `serde_json` writes for a value, without white space.
pub uninterp spec fn compact_json(value: JsonView) -> Seq<char>;

/// The indented text that `serde_json` writes for an object with one member
/// that is a string.
pub uninterp spec fn pretty_member_json(name: Seq<char>, text: Seq<char>) -> Seq<char>;

/// One level of a `serde_json::Value`.
enum ValueLevel<'a> {
    Null,
    Bool(bool),
    Number(&'a serde_json::Number),
    Text(&'a String),
    Array(&'a Vec<serde_json::Value>),
    Object(Vec<(&'a String, &'a serde_json::Value)>),
}

impl<'a> ValueLevel<'a> {
    /// What the value holds whose one level this is.
    spec fn contents(self) -> JsonView {
        match self {
            ValueLevel::Null => JsonView::Null,
            ValueLevel::Bool(b) => JsonView::Bool(b),
            ValueLevel::Number(n) => JsonView::Number(number_forms(*n)),
            ValueLevel::Text(t) => JsonView::Text(t@),
            ValueLevel::Array(items) => JsonView::Array(
                Seq::new(items@.len(), |i: int| value_contents(items@[i])),
            ),
            ValueLevel::Object(members) => JsonView::Object(
                Seq::new(
                    members@.len(),
                    |i: int| (members@[i].0@, value_contents(*members@[i].1)),
                ),
            ),
        }
    }
}

/// Calls `serde_json::from_str` for a `serde_json::Value`. What comes back
/// depends on the text alone; it is an error where the text is not one JSON
/// value, or one that nests too deeply or holds a number out of range.
#[verifier::external_body]
fn parse_value(text: &str) -> (value: Result<serde_json::Value, serde_json::Error>)
    ensures
        value matches Ok(v) ==> parsed_json(text@) == Some(value_contents(v)),
        value is Err ==> parsed_json(text@) is None,
{
    serde_json::from_str(text)
}

/// Calls `serde_json::Value::get` with a name: the member of that name, where
/// the value is an object that has one. An object has at most one.
#[verifier::external_body]
fn value_member<'a>(value: &'a serde_json::Value, name: &str) -> (member: Option<
    &'a serde_json::Value,
>)
    ensures
        member matches Some(m) ==> value_contents(*value).member(name@) == Some(
            value_contents(*m),
        ),
        member is None ==> value_contents(*value).member(name@) is None,
{
    value.get(name)
}

/// Writes a `serde_json::Value` with its `Display`, which gives compact JSON.
#[verifier::external_body]
fn value_text(value: &serde_json::Value) -> (text: String)
    ensures
        text@ == compact_json(value_contents(*value)),
{
    value.to_string()
}

/// Takes a `serde_json::Value` apart by its variant. The members of an object
/// come in the order of its iterator.
#[verifier::external_body]
fn value_level<'a>(value: &'a serde_json::Value) -> (level: ValueLevel<'a>)
    ensures
        level.contents() == value_contents(*value),
{
    match value {
        serde_json::Value::Null => ValueLevel::Null,
        serde_json::Value::Bool(b) => ValueLevel::Bool(*b),
        serde_json::Value::Number(n) => ValueLevel::Number(n),
        serde_json::Value::String(t) => ValueLevel::Text(t),
        serde_json::Value::Array(items) => ValueLevel::Array(items),
        serde_json::Value::Object(members) => ValueLevel::Object(members.iter().collect()),
    }
}

/// Calls `serde_json::Number::as_u64`: the number, where it is an integer in
/// that range.
#[verifier::external_body]
fn number_unsigned(number: &serde_json::Number) -> (unsigned: Option<u64>)
    ensures
        unsigned == number_forms(*number).unsigned,
{
    number.as_u64()
}

/// Calls `serde_json::Number::as_i64`: the number, where it is an integer in
/// that range.
#[verifier::external_body]
fn number_signed(number: &serde_json::Number) -> (signed: Option<i64>)
    ensures
        signed == number_forms(*number).signed,
{
    number.as_i64()
}

/// Calls `serde_json::Number::as_f64` and takes the bits of what it returns. Every
/// number has such a form.
#[verifier::external_body]
fn number_double_bits(number: &serde_json::Number) -> (bits: Option<u64>)
    ensures
        bits == number_forms(*number).double_bits,
        bits is Some,
{
    number.as_f64().map(|double| double.to_bits())
}

/// Builds an object with one member that is a string and calls
/// `serde_json::to_string_pretty` on it, which cannot fail there. Reading the
/// text gives that object back: every character of a string is kept.
#[verifier::external_body]
fn pretty_member_text(name: &str, text: &str) -> (json: String)
    ensures
        json@ == pretty_member_json(name@, text@),
        parsed_json(json@) == Some(JsonView::Object(seq![(name@, JsonView::Text(text@))])),
{
    let mut members = serde_json::Map::new();
    members.insert(name.to_owned(), serde_json::Value::String(text.to_owned()));
    serde_json::to_string_pretty(&serde_json::Value::Object(members)).unwrap()
}

/// Copies what a `serde_json::Value` holds into a tree.
fn json_of_value(value: &serde_json::Value) -> (json: Json)
    ensures
        json@ == value_contents(*value),
        json@.has_doubles(),
    decreases value_contents(*value),
{
    match value_level(value) {
        ValueLevel::Null => Json::Null,
        ValueLevel::Bool(b) => Json::Bool(b),
        ValueLevel::Number(n) => Json::Number(
            JsonNumber {
                unsigned: number_unsigned(n),
                signed: number_signed(n),
                double_bits: number_double_bits(n),
            },
        ),
        ValueLevel::Text(t) => Json::Text(t.clone()),
        ValueLevel::Array(values) => {
            let ghost whole = value_contents(*value);
            let mut items: Vec<Json> = Vec::new();
            let mut i: usize = 0;
            while i < values.len()
                invariant
                    i <= values@.len(),
                    whole == value_contents(*value),
                    whole == JsonView::Array(
                        Seq::new(values@.len(), |j: int| value_contents(values@[j])),
                    ),
                    items@.len() == i,
                    forall|j: int|
                        0 <= j < i ==> (#[trigger] items@[j])@ == value_contents(values@[j])
                            && items@[j]@.has_doubles(),
                decreases values@.len() - i,
            {
                assert(whole->Array_0[i as int] == value_contents(values@[i as int]));
                assert(decreases_to!(whole => whole->Array_0[i as int]));
                items.push(json_of_value(&values[i]));
                i = i + 1;
            }
            let json: Json = Json::Array(items);
            assert(json@->Array_0 =~= whole->Array_0);
            json
        },
        ValueLevel::Object(values) => {
            let ghost whole = value_contents(*value);
            let mut members: Vec<(String, Json)> = Vec::new();
            let mut i: usize = 0;
            while i < values.len()
                invariant
                    i <= values@.len(),
                    whole == value_contents(*value),
                    whole == JsonView::Object(
                        Seq::new(
                            values@.len(),
                            |j: int| (values@[j].0@, value_contents(*values@[j].1)),
                        ),
                    ),
                    members@.len() == i,
                    forall|j: int|
                        0 <= j < i ==> (#[trigger] members@[j]).0@ == values@[j].0@
                            && members@[j].1@ == value_contents(*values@[j].1)
                            && members@[j].1@.has_doubles(),
                decreases values@.len() - i,
            {
                assert(whole->Object_0[i as int].1 == value_contents(*values@[i as int].1));
                assert(decreases_to!(whole => whole->Object_0[i as int].1));
                members.push((values[i].0.clone(), json_of_value(values[i].1)));
                i = i + 1;
            }
            let json: Json = Json::Object(members);
            assert(json@->Object_0 =~= whole->Object_0);
            json
        },
    }
}

/// Reads one JSON value from a text, or `None` where the text is not accepted as
/// one.
pub fn parse_json(text: &str) -> (json: Option<Json>)
    ensures
        json matches Some(j) ==> parsed_json(text@) == Some(j@) && j@.has_doubles(),
        json is None ==> parsed_json(text@) is None,
{
    match parse_value(text) {
        Ok(value) => Some(json_of_value(&value)),
        Err(_) => None,
    }
}

/// The compact text of the member of that name, or the empty text where there
/// is no such member.
pub open spec fn member_text(value: JsonView, name: Seq<char>) -> Seq<char> {
    match value.member(name) {
        Some(member) => compact_json(member),
        None => Seq::empty(),
    }
}

/// Reads one JSON value from a text, together with the compact text of its
/// member of the given name.
pub fn parse_json_with_member(text: &str, name: &str) -> (json: Option<(Json, String)>)
    ensures
        json matches Some(j) ==> parsed_json(text@) == Some(j.0@) && j.1@ == member_text(
            j.0@,
            name@,
        ) && j.0@.has_doubles(),
        json is None ==> parsed_json(text@) is None,
{
    match parse_value(text) {
        Ok(value) => {
            let member: String = match value_member(&value, name) {
                Some(member) => value_text(member),
                None => String::new(),
            };
            Some((json_of_value(&value), member))
        },
        Err(_) => None,
    }
}

/// The indented JSON text of an object with one member that is a string.
pub fn object_text(name: &str, text: &str) -> (json: String)
    ensures
        json@ == pretty_member_json(name@, text@),
        parsed_json(json@) == Some(JsonView::Object(seq![(name@, JsonView::Text(text@))])),
{
    pretty_member_text(name, text)
}

impl Json {
    /// The member of that name, where this is an object that has one.
    pub fn member(&self, name: &str) -> (member: Option<&Json>)
        ensures
            member matches Some(m) ==> self@.member(name@) == Some(m@),
            member is None ==> self@.member(name@) is None,
    {
        match self {
            Json::Object(members) => {
                let ghost views = self@->Object_0;
                let mut i: usize = 0;
                assert(views.skip(0) =~= views);
                while i < members.len()
                    invariant
                        i <= members@.len(),
                        views == self@->Object_0,
                        self is Object,
                        *members == self->Object_0,
                        first_member(views, name@) == first_member(views.skip(i as int), name@),
                    decreases members@.len() - i,
                {
                    assert(views.skip(i as int)[0] == views[i as int]);
                    assert(views[i as int] == (members@[i as int].0@, members@[i as int].1@));
                    if same_text(members[i].0.as_str(), name) {
                        return Some(&members[i].1);
                    }
                    assert(views.skip(i as int).drop_first() =~= views.skip(i + 1));
                    i = i + 1;
                }
                None
            },
            _ => None,
        }
    }

    /// The element at `index`, where this is an array that is long enough.
    pub fn element(&self, index: usize) -> (element: Option<&Json>)
        ensures
            element matches Some(e) ==> self@.element(index as int) == e@,
            element is None ==> self@.element(index as int) is Null,
    {
        match self {
            Json::Array(items) => {
                if index < items.len() {
                    Some(&items[index])
                } else {
                    None
                }
            },
            _ => None,
        }
    }

    /// The text, where this is a string.
    pub fn text(&self) -> (text: Option<&str>)
        ensures
            text matches Some(t) ==> self@.text() == Some(t@),
            text is None ==> self@.text() is None,
    {
        match self {
            Json::Text(t) => Some(t.as_str()),
            _ => None,
        }
    }

    /// The integer, where this is a number that is one and is not negative.
    pub fn unsigned(&self) -> (number: Option<u64>)
        ensures
            number == self@.unsigned(),
    {
        match self {
            Json::Number(n) => n.unsigned,
            _ => None,
        }
    }

    /// The bits of the double-precision number, where this is a number.
    pub fn double_bits(&self) -> (bits: Option<u64>)
        ensures
            bits == self@.double_bits(),
    {
        match self {
            Json::Number(n) => n.double_bits,
            _ => None,
        }
    }

    /// The text of the element at `index`, or the empty text where there is no
    /// such element or it is no string.
    pub fn element_text(&self, index: usize) -> (text: &str)
        ensures
            text@ == self@.element(index as int).text_or_empty(),
    {
        proof {
            reveal_strlit("");
            assert(""@ =~= Seq::<char>::empty());
        }
        match self.element(index) {
            Some(element) => match element.text() {
                Some(text) => text,
                None => "",
            },
            None => "",
        }
    }
}

/// The member of a name is the first that has it, however many stand before it;
/// where none has it there is no such member, and what is no object has none.
pub proof fn law_members_are_found(
    members: Seq<(Seq<char>, JsonView)>,
    name: Seq<char>,
    i: int,
)
    requires
        0 <= i <= members.len(),
        forall|j: int| 0 <= j < i ==> (#[trigger] members[j]).0 != name,
    ensures
        i < members.len() && members[i].0 == name ==> JsonView::Object(members).member(name)
            == Some(members[i].1),
        i == members.len() ==> JsonView::Object(members).member(name) is None,
    decreases members.len(),
{
    if i > 0 {
        assert(members[0].0 != name);
        let rest = members.drop_first();
        assert forall|j: int| 0 <= j < i - 1 implies (#[trigger] rest[j]).0 != name by {
            assert(members[j + 1].0 != name);
        }
        law_members_are_found(rest, name, i - 1);
        if i < members.len() {
            assert(rest[i - 1] == members[i]);
        }
    }
}

/// Only an object has members and only an array has elements; the element at an
/// index is the one that stands there.
pub proof fn law_elements_are_found(items: Seq<JsonView>, value: JsonView, i: int, name: Seq<char>)
    ensures
        0 <= i < items.len() ==> JsonView::Array(items).element(i) == items[i],
        i < 0 || i >= items.len() ==> JsonView::Array(items).element(i) == JsonView::Null,
        !(value is Array) ==> value.element(i) == JsonView::Null,
        !(value is Object) ==> value.member(name) is None,
{
}

/// A string gives its text and a number its forms; nothing else gives either.
pub proof fn law_values_give_what_they_hold(value: JsonView, text: Seq<char>, number: JsonNumber)
    ensures
        JsonView::Text(text).text() == Some(text),
        JsonView::Text(text).text_or_empty() == text,
        JsonView::Number(number).unsigned() == number.unsigned,
        JsonView::Number(number).double_bits() == number.double_bits,
        !(value is Text) ==> value.text() is None && value.text_or_empty().len() == 0,
        !(value is Number) ==> value.unsigned() is None && value.double_bits() is None,
{
}

/// The text of an array's element is that of the string that stands there, and is
/// empty where none does.
pub proof fn law_element_texts(json: &Json, index: usize, text: &str)
    requires
        call_ensures(Json::element_text, (json, index), text),
    ensures
        match json@ {
            JsonView::Array(items) => if index < items.len() && items[index as int] is Text {
                text@ == items[index as int]->Text_0
            } else {
                text@.len() == 0
            },
            _ => text@.len() == 0,
        },
{
}

} // verus!
