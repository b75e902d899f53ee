//! JSON documents as plain trees, and the questions that decoding asks of
//! them.

use vstd::prelude::*;
use crate::text::str_eq;

verus! {

/// A JSON document.
#[derive(Debug, PartialEq, Eq)]
pub enum Json {
    Null,
    Bool(bool),
    /// A number, read as a signed and as an unsigned whole number; each is
    /// `None` where the number is no whole number or does not fit.
    Number { signed: Option<i64>, unsigned: Option<u64> },
    Text(String),
    Array(Vec<Json>),
    /// The members of an object, as pairs of name and value.
    Object(Vec<(String, Json)>),
}

/// Mathematical content of a [`Json`].
pub enum JsonView {
    Null,
    Bool(bool),
    Number { signed: Option<i64>, unsigned: Option<u64> },
    Text(Seq<char>),
    Array(Seq<JsonView>),
    Object(Seq<(Seq<char>, JsonView)>),
}

/// The content of a document.
pub open spec fn content(json: Json) -> JsonView
    decreases json,
{
    match json {
        Json::Null => JsonView::Null,
        Json::Bool(b) => JsonView::Bool(b),
        Json::Number { signed, unsigned } => JsonView::Number { signed, unsigned },
        Json::Text(text) => JsonView::Text(text@),
        Json::Array(items) => JsonView::Array(
            Seq::new(
                items@.len(),
                |i: int|
                    if 0 <= i < items@.len() {
                        content(items@[i])
                    } else {
                        JsonView::Null
                    },
            ),
        ),
        Json::Object(members) => JsonView::Object(
            Seq::new(
                members@.len(),
                |i: int|
                    if 0 <= i < members@.len() {
                        (members@[i].0@, content(members@[i].1))
                    } else {
                        (Seq::empty(), JsonView::Null)
                    },
            ),
        ),
    }
}

impl View for Json {
    type V = JsonView;

    open spec fn view(&self) -> JsonView {
        content(*self)
    }
}

/// The document that `serde_json` reads from `text`; `None` where it
/// refuses the text.
pub uninterp spec fn json_of(text: Seq<char>) -> Option<JsonView>;

/// The document that a `serde_json::Value` holds.
pub uninterp spec fn value_content(value: serde_json::Value) -> JsonView;

/// Makes `serde_json::Value` known to the verifier. What a value holds is
/// told by `value_content` alone.
#[verifier::external_type_specification]
#[verifier::external_body]
pub struct ExJsonValue(serde_json::Value);

/// Reads a document with `serde_json::from_str`.
///
/// Not verified. The contract claims that the outcome is a function of the
/// text alone; `json_of` is the name of the document that is read.
#[verifier::external_body]
fn read_value(text: &str) -> (r: Option<serde_json::Value>)
    ensures
        match r {
            Some(value) => json_of(text@) == Some(value_content(value)),
            None => json_of(text@) is None,
        },
{
    serde_json::from_str::<serde_json::Value>(text).ok()
}

/// Copies a `serde_json::Value` into a [`Json`], variant by variant.
///
/// Not verified. The contract claims that the copy holds what the value
/// holds. A number is copied by `Number::as_i64` and `Number::as_u64`; the
/// members of an object come in the order in which its map hands them out.
#[verifier::external_body]
fn copy_value(value: serde_json::Value) -> (json: Json)
    ensures
        json@ == value_content(value),
{
    match value {
        serde_json::Value::Null => Json::Null,
        serde_json::Value::Bool(b) => Json::Bool(b),
        serde_json::Value::Number(n) => Json::Number { signed: n.as_i64(), unsigned: n.as_u64() },
        serde_json::Value::String(text) => Json::Text(text),
        serde_json::Value::Array(items) => Json::Array(items.into_iter().map(copy_value).collect()),
        serde_json::Value::Object(members) => Json::Object(
            members.into_iter().map(|(name, member)| (name, copy_value(member))).collect(),
        ),
    }
}

/// The value of the first member called `name`.
pub open spec fn find_member(members: Seq<(Seq<char>, JsonView)>, name: Seq<char>) -> Option<
    JsonView,
>
    decreases members.len(),
{
    if members.len() == 0 {
        None
    } else if members[0].0 == name {
        Some(members[0].1)
    } else {
        find_member(members.drop_first(), name)
    }
}

/// The member `name` of an object; `None` for what is no object or has no
/// such member.
pub open spec fn member_of(json: JsonView, name: Seq<char>) -> Option<JsonView> {
    match json {
        JsonView::Object(members) => find_member(members, name),
        _ => None,
    }
}

/// The text that the document is, if it is one.
pub open spec fn text_of(json: JsonView) -> Option<Seq<char>> {
    match json {
        JsonView::Text(text) => Some(text),
        _ => None,
    }
}

/// The text that the member `name` is.
pub open spec fn text_member(json: JsonView, name: Seq<char>) -> Option<Seq<char>> {
    match member_of(json, name) {
        Some(member) => text_of(member),
        None => None,
    }
}

/// The items of the document, if it is an array.
pub open spec fn item_list_of(json: JsonView) -> Option<Seq<JsonView>> {
    match json {
        JsonView::Array(items) => Some(items),
        _ => None,
    }
}

/// A member that may be left out or be `null`: `Some(None)` then,
/// `Some(Some(..))` where it is there, `None` where it is of the wrong kind.
pub open spec fn optional<T>(
    member: Option<JsonView>,
    read: spec_fn(JsonView) -> Option<T>,
) -> Option<Option<T>> {
    match member {
        None => Some(None),
        Some(JsonView::Null) => Some(None),
        Some(value) => match read(value) {
            Some(held) => Some(Some(held)),
            None => None,
        },
    }
}

/// Reads a text.
pub open spec fn text_reader() -> spec_fn(JsonView) -> Option<Seq<char>> {
    |json: JsonView| text_of(json)
}

/// The list of texts that the document is, if it is one.
pub open spec fn text_list_of(json: JsonView) -> Option<Seq<Seq<char>>> {
    match json {
        JsonView::Array(items) => every(items, text_reader()),
        _ => None,
    }
}

/// The truth value that the document is, if it is one.
pub open spec fn bool_of(json: JsonView) -> Option<bool> {
    match json {
        JsonView::Bool(b) => Some(b),
        _ => None,
    }
}

/// The signed whole number that the document is, if it is one.
pub open spec fn signed_of(json: JsonView) -> Option<i64> {
    match json {
        JsonView::Number { signed, .. } => signed,
        _ => None,
    }
}

/// The unsigned whole number that the document is, if it is one.
pub open spec fn unsigned_of(json: JsonView) -> Option<u64> {
    match json {
        JsonView::Number { unsigned, .. } => unsigned,
        _ => None,
    }
}

/// What the content of an array holds.
pub proof fn lemma_array_view(items: Vec<Json>)
    ensures
        (Json::Array(items))@ is Array,
        (Json::Array(items))@->Array_0.len() == items@.len(),
        forall|i: int|
            0 <= i < items@.len() ==> (#[trigger] (Json::Array(items))@->Array_0[i]) == items@[i]@,
{
    reveal_with_fuel(content, 2);
}

/// What the content of an object holds.
pub proof fn lemma_object_view(members: Vec<(String, Json)>)
    ensures
        (Json::Object(members))@ is Object,
        (Json::Object(members))@->Object_0.len() == members@.len(),
        forall|i: int|
            0 <= i < members@.len() ==> (#[trigger] (Json::Object(members))@->Object_0[i]) == (
                members@[i].0@,
                members@[i].1@,
            ),
{
    reveal_with_fuel(content, 2);
}

/// What `read` makes of each document, if it makes something of each.
pub open spec fn every<T>(items: Seq<JsonView>, read: spec_fn(JsonView) -> Option<T>) -> Option<
    Seq<T>,
>
    decreases items.len(),
{
    if items.len() == 0 {
        Some(Seq::empty())
    } else {
        match (every(items.drop_last(), read), read(items.last())) {
            (Some(front), Some(last)) => Some(front.push(last)),
            _ => None,
        }
    }
}

/// Where `read` makes nothing of one of the first `n` documents, it does
/// not make something of each.
pub proof fn lemma_every_failure<T>(
    items: Seq<JsonView>,
    read: spec_fn(JsonView) -> Option<T>,
    n: int,
)
    requires
        0 <= n <= items.len(),
        every(items.take(n), read) is None,
    ensures
        every(items, read) is None,
    decreases items.len() - n,
{
    if n < items.len() {
        assert(items.take(n + 1).drop_last() =~= items.take(n));
        lemma_every_failure(items, read, n + 1);
    } else {
        assert(items.take(n) =~= items);
    }
}

proof fn lemma_find_member_skip(members: Seq<(Seq<char>, JsonView)>, name: Seq<char>, k: int)
    requires
        0 <= k < members.len(),
        members[k].0 != name,
    ensures
        find_member(members.skip(k), name) == find_member(members.skip(k + 1), name),
{
    assert(members.skip(k).drop_first() =~= members.skip(k + 1));
}

impl Json {
    /// Reads the document that `text` writes, or `None` where the text is
    /// not JSON.
    pub fn parse(text: &str) -> (json: Option<Json>)
        ensures
            match json {
                Some(document) => json_of(text@) == Some(document@),
                None => json_of(text@) is None,
            },
    {
        match read_value(text) {
            Some(value) => Some(copy_value(value)),
            None => None,
        }
    }

    /// The member `name` of an object.
    pub fn member(&self, name: &str) -> (found: Option<&Json>)
        ensures
            match found {
                Some(member) => member_of(self@, name@) == Some(member@),
                None => member_of(self@, name@) is None,
            },
    {
        match self {
            Json::Object(members) => {
                let ghost all = self@->Object_0;
                proof {
                    lemma_object_view(*members);
                }
                assert(all.skip(0) =~= all);
                let mut k: usize = 0;
                while k < members.len()
                    invariant
                        k <= members.len(),
                        self@ == JsonView::Object(all),
                        all.len() == members@.len(),
                        forall|i: int|
                            0 <= i < all.len() ==> all[i] == (members@[i].0@, members@[i].1@),
                        find_member(all, name@) == find_member(all.skip(k as int), name@),
                    decreases members.len() - k,
                {
                    assert(all.skip(k as int)[0] == all[k as int]);
                    if str_eq(members[k].0.as_str(), name) {
                        return Some(&members[k].1);
                    }
                    proof {
                        lemma_find_member_skip(all, name@, k as int);
                    }
                    k += 1;
                }
                None
            },
            _ => None,
        }
    }

    /// The text that the document is, if it is one.
    pub fn as_text(&self) -> (text: Option<String>)
        ensures
            text.deep_view() == text_of(self@),
    {
        match self {
            Json::Text(text) => Some(text.clone()),
            _ => None,
        }
    }

    /// The items of the document, if it is an array.
    pub fn as_items(&self) -> (items: Option<&Vec<Json>>)
        ensures
            match items {
                Some(list) => item_list_of(self@) matches Some(all) && all.len() == list@.len()
                    && forall|i: int| 0 <= i < all.len() ==> all[i] == list@[i]@,
                None => item_list_of(self@) is None,
            },
    {
        match self {
            Json::Array(items) => {
                proof {
                    lemma_array_view(*items);
                }
                Some(items)
            },
            _ => None,
        }
    }

    /// The truth value that the document is, if it is one.
    pub fn as_bool(&self) -> (value: Option<bool>)
        ensures
            value == bool_of(self@),
    {
        match self {
            Json::Bool(b) => Some(*b),
            _ => None,
        }
    }

    /// The signed whole number that the document is, if it is one.
    pub fn as_signed(&self) -> (number: Option<i64>)
        ensures
            number == signed_of(self@),
    {
        match self {
            Json::Number { signed, unsigned: _ } => *signed,
            _ => None,
        }
    }

    /// The unsigned whole number that the document is, if it is one.
    pub fn as_unsigned(&self) -> (number: Option<u64>)
        ensures
            number == unsigned_of(self@),
    {
        match self {
            Json::Number { signed: _, unsigned } => *unsigned,
            _ => None,
        }
    }

    /// The text that the member `name` is.
    pub fn text_member(&self, name: &str) -> (text: Option<String>)
        ensures
            text.deep_view() == text_member(self@, name@),
    {
        match self.member(name) {
            Some(member) => member.as_text(),
            None => None,
        }
    }

    /// The list of texts that the document is, if it is one.
    pub fn as_text_list(&self) -> (texts: Option<Vec<String>>)
        ensures
            texts.deep_view() == text_list_of(self@),
    {
        match self {
            Json::Array(items) => {
                let ghost all = self@->Array_0;
                proof {
                    lemma_array_view(*items);
                }
                let mut texts: Vec<String> = Vec::new();
                let mut k: usize = 0;
                assert(all.take(0) =~= Seq::<JsonView>::empty());
                assert(texts.deep_view() =~= Seq::<Seq<char>>::empty());
                while k < items.len()
                    invariant
                        k <= items.len(),
                        self@ == JsonView::Array(all),
                        all.len() == items@.len(),
                        forall|i: int| 0 <= i < all.len() ==> all[i] == items@[i]@,
                        every(all.take(k as int), text_reader()) == Some(texts.deep_view()),
                    decreases items.len() - k,
                {
                    assert(all.take(k + 1).drop_last() =~= all.take(k as int));
                    match items[k].as_text() {
                        Some(text) => {
                            let ghost before = texts.deep_view();
                            texts.push(text);
                            assert(texts.deep_view() =~= before.push(text@));
                        },
                        None => {
                            proof {
                                lemma_every_failure(all, text_reader(), k + 1);
                            }
                            return None;
                        },
                    }
                    k += 1;
                }
                assert(all.take(all.len() as int) =~= all);
                Some(texts)
            },
            _ => None,
        }
    }
}

} // verus!
