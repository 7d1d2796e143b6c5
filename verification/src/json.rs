//! A JSON value as the engine reads it, with its mathematical view.

use vstd::prelude::*;

verus! {

/// A JSON value. A number is held as its decimal text; an object keeps the
/// order of its entries.
#[derive(Debug, PartialEq, Eq)]
pub enum Json {
    Null,
    Bool(bool),
    Number(String),
    String(String),
    Array(Vec<Json>),
    Object(Vec<Member>),
}

/// One entry of an object.
#[derive(Debug, PartialEq, Eq)]
pub struct Member {
    pub key: String,
    pub value: Json,
}

/// What a [`Member`] stands for.
pub struct MemberView {
    pub key: Seq<char>,
    pub value: JsonView,
}

/// What a [`Json`] stands for.
pub enum JsonView {
    Null,
    Bool(bool),
    Number(Seq<char>),
    String(Seq<char>),
    Array(Seq<JsonView>),
    Object(Seq<MemberView>),
}

impl View for Json {
    type V = JsonView;

    open spec fn view(&self) -> JsonView
        decreases self,
    {
        match self {
            Json::Null => JsonView::Null,
            Json::Bool(b) => JsonView::Bool(*b),
            Json::Number(n) => JsonView::Number(n@),
            Json::String(s) => JsonView::String(s@),
            Json::Array(items) => JsonView::Array(
                Seq::new(
                    items@.len(),
                    |i: int|
                        if 0 <= i < items@.len() {
                            items@[i].view()
                        } else {
                            JsonView::Null
                        },
                ),
            ),
            Json::Object(entries) => JsonView::Object(
                Seq::new(
                    entries@.len(),
                    |i: int|
                        if 0 <= i < entries@.len() {
                            MemberView { key: entries@[i].key@, value: entries@[i].value.view() }
                        } else {
                            MemberView { key: Seq::empty(), value: JsonView::Null }
                        },
                ),
            ),
        }
    }
}

/// The views of a list of values.
pub open spec fn view_items(items: Seq<Json>) -> Seq<JsonView> {
    Seq::new(items.len(), |i: int| items[i]@)
}

/// The views of the entries of an object.
pub open spec fn view_entries(entries: Seq<Member>) -> Seq<MemberView> {
    Seq::new(entries.len(), |i: int| MemberView { key: entries[i].key@, value: entries[i].value@ })
}

/// The view of an array is the list of its items' views.
pub proof fn lemma_view_array(items: Vec<Json>)
    ensures
        Json::Array(items)@ == JsonView::Array(view_items(items@)),
{
    assert(Json::Array(items)@->Array_0 =~= view_items(items@));
}

/// The view of an object is the list of its entries' views.
pub proof fn lemma_view_object(entries: Vec<Member>)
    ensures
        Json::Object(entries)@ == JsonView::Object(view_entries(entries@)),
{
    assert(Json::Object(entries)@->Object_0 =~= view_entries(entries@));
}

impl JsonView {
    /// Whether the value is neither an array nor an object with something in it.
    pub open spec fn is_leaf(self) -> bool {
        match self {
            JsonView::Array(items) => items.len() == 0,
            JsonView::Object(entries) => entries.len() == 0,
            _ => true,
        }
    }
}

impl View for Member {
    type V = MemberView;

    open spec fn view(&self) -> MemberView {
        MemberView { key: self.key@, value: self.value@ }
    }
}

impl Json {
    /// A copy of the value.
    pub fn duplicate(&self) -> (copy: Json)
        ensures
            copy@ == self@,
        decreases self, 0nat,
    {
        match self {
            Json::Null => Json::Null,
            Json::Bool(b) => Json::Bool(*b),
            Json::Number(n) => Json::Number(n.clone()),
            Json::String(s) => Json::String(s.clone()),
            Json::Array(items) => {
                let copy = duplicate_items(items);
                proof {
                    lemma_view_array(*items);
                    lemma_view_array(copy);
                }
                Json::Array(copy)
            },
            Json::Object(entries) => {
                let copy = duplicate_members(entries);
                proof {
                    lemma_view_object(*entries);
                    lemma_view_object(copy);
                }
                Json::Object(copy)
            },
        }
    }

    /// A copy of a value that holds no other value.
    pub fn leaf_clone(&self) -> (copy: Json)
        requires
            self@.is_leaf(),
        ensures
            copy@ == self@,
    {
        match self {
            Json::Null => Json::Null,
            Json::Bool(b) => Json::Bool(*b),
            Json::Number(n) => Json::Number(n.clone()),
            Json::String(s) => Json::String(s.clone()),
            Json::Array(items) => {
                let copy = Vec::new();
                proof {
                    lemma_view_array(*items);
                    lemma_view_array(copy);
                    assert(view_items(items@) =~= view_items(copy@));
                }
                Json::Array(copy)
            },
            Json::Object(entries) => {
                let copy = Vec::new();
                proof {
                    lemma_view_object(*entries);
                    lemma_view_object(copy);
                    assert(view_entries(entries@) =~= view_entries(copy@));
                }
                Json::Object(copy)
            },
        }
    }
}

#[verifier::external_type_specification]
#[verifier::external_body]
pub struct ExJsonError(serde_json::Error);

#[verifier::external_type_specification]
#[verifier::external_body]
pub struct ExJsonValue(serde_json::Value);

/// What `serde_json` reads a text as, or none where the text is no JSON value.
pub uninterp spec fn serde_text_value(text: Seq<char>) -> Option<serde_json::Value>;

/// What `serde_json` reads bytes as, or none where the bytes are no JSON value.
pub uninterp spec fn serde_bytes_value(bytes: Seq<u8>) -> Option<serde_json::Value>;

/// The value of this crate that holds what a value of `serde_json` holds.
pub uninterp spec fn json_of(value: serde_json::Value) -> JsonView;

/// The value that a JSON text stands for, or none where the text is no
/// JSON value.
pub open spec fn json_text_value(text: Seq<char>) -> Option<JsonView> {
    match serde_text_value(text) {
        Some(value) => Some(json_of(value)),
        None => None,
    }
}

/// The value that JSON bytes stand for, or none where the bytes are no
/// JSON value.
pub open spec fn json_bytes_value(bytes: Seq<u8>) -> Option<JsonView> {
    match serde_bytes_value(bytes) {
        Some(value) => Some(json_of(value)),
        None => None,
    }
}

/// Turns a value of `serde_json` into one of this crate, variant by
/// variant: a number becomes its decimal text, an object keeps the order in
/// which `serde_json` holds its entries. What comes out is a function of
/// the value.
#[verifier::external_body]
pub(crate) fn value_from(value: &serde_json::Value) -> (json: Json)
    ensures
        json@ == json_of(*value),
{
    match value {
        serde_json::Value::Null => Json::Null,
        serde_json::Value::Bool(b) => Json::Bool(*b),
        serde_json::Value::Number(n) => Json::Number(n.to_string()),
        serde_json::Value::String(s) => Json::String(s.clone()),
        serde_json::Value::Array(a) => Json::Array(a.iter().map(value_from).collect()),
        serde_json::Value::Object(o) => Json::Object(
            o.iter().map(|(k, v)| Member { key: k.clone(), value: value_from(v) }).collect(),
        ),
    }
}

/// Calls `serde_json::from_str` for a `serde_json::Value`. What it returns
/// is a function of the text alone: the value, or the error where the text
/// is no JSON value.
#[verifier::external_body]
pub(crate) fn serde_from_str(text: &str) -> (r: Result<serde_json::Value, serde_json::Error>)
    ensures
        match r {
            Ok(value) => serde_text_value(text@) == Some(value),
            Err(_) => serde_text_value(text@) is None,
        },
{
    serde_json::from_str::<serde_json::Value>(text)
}

/// Calls `serde_json::from_slice` for a `serde_json::Value`. What it
/// returns is a function of the bytes alone: the value, or the error where
/// the bytes are no JSON value.
#[verifier::external_body]
pub(crate) fn serde_from_slice(bytes: &[u8]) -> (r: Result<serde_json::Value, serde_json::Error>)
    ensures
        match r {
            Ok(value) => serde_bytes_value(bytes@) == Some(value),
            Err(_) => serde_bytes_value(bytes@) is None,
        },
{
    serde_json::from_slice::<serde_json::Value>(bytes)
}

/// Reads a JSON text.
pub fn parse_json(text: &str) -> (r: Result<Json, serde_json::Error>)
    ensures
        match r {
            Ok(value) => json_text_value(text@) == Some(value@),
            Err(_) => json_text_value(text@) is None,
        },
{
    match serde_from_str(text) {
        Ok(value) => Ok(value_from(&value)),
        Err(e) => Err(e),
    }
}

/// Reads JSON bytes.
pub fn parse_json_slice(bytes: &[u8]) -> (r: Result<Json, serde_json::Error>)
    ensures
        match r {
            Ok(value) => json_bytes_value(bytes@) == Some(value@),
            Err(_) => json_bytes_value(bytes@) is None,
        },
{
    match serde_from_slice(bytes) {
        Ok(value) => Ok(value_from(&value)),
        Err(e) => Err(e),
    }
}

/// A copy of a list of values.
pub fn duplicate_items(items: &Vec<Json>) -> (copy: Vec<Json>)
    ensures
        view_items(copy@) == view_items(items@),
    decreases items@, 1nat,
{
    let mut copy: Vec<Json> = Vec::new();
    let mut i: usize = 0;
    while i < items.len()
        invariant
            i <= items.len(),
            copy@.len() == i,
            forall|k: int| 0 <= k < i ==> (#[trigger] copy@[k])@ == items@[k]@,
        decreases items.len() - i,
    {
        copy.push(items[i].duplicate());
        i += 1;
    }
    assert(view_items(items@) =~= view_items(copy@));
    copy
}

/// A copy of the members of an object.
pub fn duplicate_members(entries: &Vec<Member>) -> (copy: Vec<Member>)
    ensures
        view_entries(copy@) == view_entries(entries@),
    decreases entries@, 1nat,
{
    let mut copy: Vec<Member> = Vec::new();
    let mut i: usize = 0;
    while i < entries.len()
        invariant
            i <= entries.len(),
            copy@.len() == i,
            forall|k: int| 0 <= k < i ==> (#[trigger] copy@[k])@ == entries@[k]@,
        decreases entries.len() - i,
    {
        copy.push(Member { key: entries[i].key.clone(), value: entries[i].value.duplicate() });
        i += 1;
    }
    assert(view_entries(entries@) =~= view_entries(copy@));
    copy
}

/// The value of `serde_json` that holds what a value of this crate holds.
pub uninterp spec fn serde_of(value: JsonView) -> serde_json::Value;

/// The compact JSON text that `serde_json` writes a value as.
pub uninterp spec fn serde_text(value: serde_json::Value) -> Seq<char>;

/// The compact JSON text of a value.
pub open spec fn json_value_text(value: JsonView) -> Seq<char> {
    serde_text(serde_of(value))
}

/// Turns a value of this crate into one of `serde_json`, variant by
/// variant. A number is read back from its decimal text. What comes out is
/// a function of the value.
#[verifier::external_body]
pub(crate) fn value_into(value: &Json) -> (serde: serde_json::Value)
    ensures
        serde == serde_of(value@),
{
    match value {
        Json::Null => serde_json::Value::Null,
        Json::Bool(b) => serde_json::Value::Bool(*b),
        Json::Number(n) => n.parse().map_or(serde_json::Value::Null, serde_json::Value::Number),
        Json::String(s) => serde_json::Value::String(s.clone()),
        Json::Array(a) => serde_json::Value::Array(a.iter().map(value_into).collect()),
        Json::Object(o) => serde_json::Value::Object(
            o.iter().map(|m| (m.key.clone(), value_into(&m.value))).collect(),
        ),
    }
}

/// Calls `to_string` on a `serde_json::Value`, which writes the value as
/// compact JSON text. The text is a function of the value.
#[verifier::external_body]
pub(crate) fn serde_to_string(value: &serde_json::Value) -> (text: String)
    ensures
        text@ == serde_text(*value),
{
    value.to_string()
}

/// Writes a value as compact JSON text.
pub fn json_to_string(value: &Json) -> (text: String)
    ensures
        text@ == json_value_text(value@),
{
    let serde = value_into(value);
    serde_to_string(&serde)
}

} // verus!
