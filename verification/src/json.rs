//! JSON values as the library sees them: `serde_json` holds, parses and writes
//! them, and every claim about one is stated over its mathematical content.

use vstd::prelude::*;

verus! {

/// A JSON value of `serde_json`, opaque here: what it holds is [`json_of`].
#[verifier::external_type_specification]
#[verifier::external_body]
pub struct ExJsonValue(serde_json::Value);

/// The content of a JSON value.
pub enum JsonView {
    Null,
    Bool(bool),
    /// A number that fits an unsigned 64-bit integer.
    Natural(u64),
    /// Any other number, as the text it is written with.
    OtherNumber(Seq<char>),
    Text(Seq<char>),
    List(Seq<JsonView>),
    Object(Map<Seq<char>, JsonView>),
}

impl JsonView {
    /// The member called `key`; `Null` where there is none.
    pub open spec fn field(self, key: Seq<char>) -> JsonView {
        match self {
            JsonView::Object(members) => if members.contains_key(key) {
                members[key]
            } else {
                JsonView::Null
            },
            _ => JsonView::Null,
        }
    }

    /// The item at `index`; `Null` where there is none.
    pub open spec fn item(self, index: int) -> JsonView {
        match self {
            JsonView::List(items) => if 0 <= index < items.len() {
                items[index]
            } else {
                JsonView::Null
            },
            _ => JsonView::Null,
        }
    }

    /// The text, if this is one.
    pub open spec fn text(self) -> Option<Seq<char>> {
        match self {
            JsonView::Text(text) => Some(text),
            _ => None,
        }
    }

    /// The number, if this is one that fits an unsigned 64-bit integer.
    pub open spec fn natural(self) -> Option<u64> {
        match self {
            JsonView::Natural(n) => Some(n),
            _ => None,
        }
    }

    /// The items, if this is a list.
    pub open spec fn list(self) -> Option<Seq<JsonView>> {
        match self {
            JsonView::List(items) => Some(items),
            _ => None,
        }
    }
}

/// What a JSON value holds.
pub uninterp spec fn json_of(value: serde_json::Value) -> JsonView;

/// The contents of several JSON values, in order.
pub open spec fn json_all(values: Seq<serde_json::Value>) -> Seq<JsonView> {
    values.map_values(|value: serde_json::Value| json_of(value))
}

/// `serde_json::Value` indexed by a string: the member of that name, and `Null`
/// where the value is no object or has no such member.
#[verifier::external_body]
pub(crate) fn json_field<'a>(value: &'a serde_json::Value, key: &str) -> (member:
    &'a serde_json::Value)
    ensures
        json_of(*member) == json_of(*value).field(key@),
{
    &value[key]
}

/// `serde_json::Value` indexed by a position: the item there, and `Null` where the
/// value is no array or is shorter.
#[verifier::external_body]
pub(crate) fn json_item(value: &serde_json::Value, index: usize) -> (item: &serde_json::Value)
    ensures
        json_of(*item) == json_of(*value).item(index as int),
{
    &value[index]
}

/// `serde_json::Value::as_str`: the text of a string, and `None` of anything else.
#[verifier::external_body]
pub(crate) fn json_str(value: &serde_json::Value) -> (text: Option<&str>)
    ensures
        text.deep_view() == json_of(*value).text(),
{
    value.as_str()
}

/// `serde_json::Value::as_u64`: the number, if it is an integer from zero to
/// `u64::MAX`, and `None` of anything else.
#[verifier::external_body]
pub(crate) fn json_u64(value: &serde_json::Value) -> (number: Option<u64>)
    ensures
        number == json_of(*value).natural(),
{
    value.as_u64()
}

/// `serde_json::Value::as_array`: the items of an array in order, and `None` of
/// anything else.
#[verifier::external_body]
pub(crate) fn json_array(value: &serde_json::Value) -> (items: Option<&Vec<serde_json::Value>>)
    ensures
        match items {
            Some(items) => json_of(*value).list() == Some(json_all(items@)),
            None => json_of(*value).list() is None,
        },
{
    value.as_array()
}

/// `a` comes before `b` in the order of strings, by code points.
pub open spec fn text_before(a: Seq<char>, b: Seq<char>) -> bool
    decreases a.len(),
{
    if b.len() == 0 {
        false
    } else if a.len() == 0 {
        true
    } else if a[0] == b[0] {
        text_before(a.drop_first(), b.drop_first())
    } else {
        a[0] < b[0]
    }
}

/// `serde_json::Value::as_object`, walked with `serde_json::Map::iter`: the members of
/// an object, each once, and `None` of anything else. The map is the sorted one that
/// `serde_json` uses unless its `preserve_order` feature is on, so the names ascend.
#[verifier::external_body]
pub(crate) fn json_members(value: &serde_json::Value) -> (members: Option<
    Vec<(&str, &serde_json::Value)>,
>)
    ensures
        match members {
            Some(members) => {
                &&& json_of(*value) matches JsonView::Object(content)
                &&& forall|i: int|
                    #![trigger members@[i]]
                    0 <= i < members@.len() ==> content.contains_key(members@[i].0@)
                        && content[members@[i].0@] == json_of(*members@[i].1)
                &&& forall|name: Seq<char>| #[trigger]
                    content.contains_key(name) ==> exists|i: int|
                        0 <= i < members@.len() && #[trigger] members@[i].0@ == name
                &&& forall|i: int, j: int|
                    #![trigger members@[i], members@[j]]
                    0 <= i < j < members@.len() ==> text_before(members@[i].0@, members@[j].0@)
            },
            None => !(json_of(*value) is Object),
        },
{
    value.as_object().map(|map| map.iter().map(|(name, member)| (name.as_str(), member)).collect())
}

/// `serde_json::Value::clone`: a value with the same content.
#[verifier::external_body]
pub(crate) fn json_clone(value: &serde_json::Value) -> (copy: serde_json::Value)
    ensures
        json_of(copy) == json_of(*value),
{
    value.clone()
}

/// `serde_json::Value::Null`.
#[verifier::external_body]
pub(crate) fn json_null() -> (value: serde_json::Value)
    ensures
        json_of(value) == JsonView::Null,
{
    serde_json::Value::Null
}

/// `serde_json::Value::Bool`.
#[verifier::external_body]
pub(crate) fn json_bool(flag: bool) -> (value: serde_json::Value)
    ensures
        json_of(value) == JsonView::Bool(flag),
{
    serde_json::Value::Bool(flag)
}

/// `serde_json::Value::from` of an unsigned integer: that number.
#[verifier::external_body]
pub(crate) fn json_natural(number: u64) -> (value: serde_json::Value)
    ensures
        json_of(value) == JsonView::Natural(number),
{
    serde_json::Value::from(number)
}

/// `serde_json::Value::from` of a string slice: that text.
#[verifier::external_body]
pub(crate) fn json_text(text: &str) -> (value: serde_json::Value)
    ensures
        json_of(value) == JsonView::Text(text@),
{
    serde_json::Value::from(text)
}

/// `serde_json::Value::Array` of the given items.
#[verifier::external_body]
pub(crate) fn json_list(items: Vec<serde_json::Value>) -> (value: serde_json::Value)
    ensures
        json_of(value) == JsonView::List(json_all(items@)),
{
    serde_json::Value::Array(items)
}

/// A JSON object's map of `serde_json`, opaque here: what it holds is [`members_in`].
#[verifier::external_type_specification]
#[verifier::external_body]
#[verifier::reject_recursive_types(K)]
#[verifier::reject_recursive_types(V)]
pub struct ExJsonMap<K, V>(serde_json::Map<K, V>);

/// The members that a map holds, by name.
pub uninterp spec fn members_in(map: serde_json::Map<String, serde_json::Value>) -> Map<
    Seq<char>,
    JsonView,
>;

/// No members at all.
pub open spec fn no_members() -> Map<Seq<char>, JsonView> {
    Map::empty()
}

/// `serde_json::Map::new`: a map without members.
#[verifier::external_body]
pub(crate) fn json_map() -> (made: serde_json::Map<String, serde_json::Value>)
    ensures
        members_in(made) == no_members(),
{
    serde_json::Map::new()
}

/// `serde_json::Map::insert`: the member of that name now has this value, whether or not
/// there was one before.
#[verifier::external_body]
pub(crate) fn json_insert(
    members: &mut serde_json::Map<String, serde_json::Value>,
    name: String,
    value: serde_json::Value,
)
    ensures
        members_in(*final(members)) == members_in(*old(members)).insert(name@, json_of(value)),
{
    members.insert(name, value);
}

/// `serde_json::Value::Object` of a map.
#[verifier::external_body]
pub(crate) fn json_object(members: serde_json::Map<String, serde_json::Value>) -> (value:
    serde_json::Value)
    ensures
        json_of(value) == JsonView::Object(members_in(members)),
{
    serde_json::Value::Object(members)
}

/// The JSON value that `bytes` write, or the parser's message about them.
pub uninterp spec fn json_in(bytes: Seq<u8>) -> Result<JsonView, Seq<char>>;

/// `serde_json::from_slice` into a JSON value, with a failure as its message. What is
/// JSON and what the message says is the parser's to know: both are functions of the
/// bytes.
#[verifier::external_body]
pub(crate) fn json_parse(bytes: &[u8]) -> (parsed: Result<serde_json::Value, String>)
    ensures
        match parsed {
            Ok(value) => json_in(bytes@) == Ok::<JsonView, Seq<char>>(json_of(value)),
            Err(message) => json_in(bytes@) == Err::<JsonView, Seq<char>>(message@),
        },
{
    serde_json::from_slice(bytes).map_err(|error| error.to_string())
}

/// The bytes that write a JSON value of that content.
pub uninterp spec fn json_bytes(content: JsonView) -> Seq<u8>;

/// `serde_json::to_vec` of a JSON value, which does not fail: its keys are strings and
/// its numbers finite. An object's members are written in the order of their names, so
/// the bytes depend on the content alone.
#[verifier::external_body]
pub(crate) fn json_write(value: &serde_json::Value) -> (bytes: Vec<u8>)
    ensures
        bytes@ == json_bytes(json_of(*value)),
{
    serde_json::to_vec(value).unwrap_or_default()
}

// ---- building objects and reading lists -------------------------------------------

/// The optional text as a JSON string, absent as `Null`.
pub open spec fn text_or_null(text: Option<Seq<char>>) -> JsonView {
    match text {
        Some(text) => JsonView::Text(text),
        None => JsonView::Null,
    }
}

/// The optional number as a JSON number, absent as `Null`.
pub open spec fn natural_or_null(number: Option<u64>) -> JsonView {
    match number {
        Some(number) => JsonView::Natural(number),
        None => JsonView::Null,
    }
}

/// The optional flag as a JSON boolean, absent as `Null`.
pub open spec fn bool_or_null(flag: Option<bool>) -> JsonView {
    match flag {
        Some(flag) => JsonView::Bool(flag),
        None => JsonView::Null,
    }
}

/// The texts as a JSON list of strings.
pub open spec fn text_list(texts: Seq<Seq<char>>) -> JsonView {
    JsonView::List(texts.map_values(|text: Seq<char>| JsonView::Text(text)))
}

pub(crate) fn json_opt_text(text: &Option<String>) -> (value: serde_json::Value)
    ensures
        json_of(value) == text_or_null(text.deep_view()),
{
    match text {
        Some(text) => json_text(text.as_str()),
        None => json_null(),
    }
}

pub(crate) fn json_opt_natural(number: Option<u64>) -> (value: serde_json::Value)
    ensures
        json_of(value) == natural_or_null(number),
{
    match number {
        Some(number) => json_natural(number),
        None => json_null(),
    }
}

pub(crate) fn json_opt_bool(flag: Option<bool>) -> (value: serde_json::Value)
    ensures
        json_of(value) == bool_or_null(flag),
{
    match flag {
        Some(flag) => json_bool(flag),
        None => json_null(),
    }
}

pub(crate) fn json_texts(texts: &Vec<String>) -> (value: serde_json::Value)
    ensures
        json_of(value) == text_list(texts.deep_view()),
{
    let mut items: Vec<serde_json::Value> = Vec::new();
    let mut i: usize = 0;
    while i < texts.len()
        invariant
            i <= texts.len(),
            items@.len() == i,
            forall|k: int|
                0 <= k < i ==> json_of(#[trigger] items@[k]) == JsonView::Text(texts@[k]@),
        decreases texts.len() - i,
    {
        items.push(json_text(texts[i].as_str()));
        i = i + 1;
    }
    assert(json_all(items@) =~= texts.deep_view().map_values(
        |text: Seq<char>| JsonView::Text(text),
    ));
    json_list(items)
}

/// An object under construction.
pub(crate) struct Members {
    map: serde_json::Map<String, serde_json::Value>,
}

impl View for Members {
    type V = Map<Seq<char>, JsonView>;

    closed spec fn view(&self) -> Map<Seq<char>, JsonView> {
        members_in(self.map)
    }
}

impl Members {
    /// No members yet.
    pub(crate) fn new() -> (members: Members)
        ensures
            members@ == no_members(),
    {
        Members { map: json_map() }
    }

    /// Give the member called `name` the value `value`.
    pub(crate) fn put(&mut self, name: &str, value: serde_json::Value)
        ensures
            final(self)@ == old(self)@.insert(name@, json_of(value)),
    {
        json_insert(&mut self.map, name.to_owned(), value);
    }

    /// The object with these members.
    pub(crate) fn object(self) -> (value: serde_json::Value)
        ensures
            json_of(value) == JsonView::Object(self@),
    {
        json_object(self.map)
    }
}

} // verus!
