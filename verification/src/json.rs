//! Structured values as they travel between the model service, the agent
//! loop and the tools: a tagged union of null, boolean, number, text, array
//! and object, and the parser that reads one from text.

use vstd::prelude::*;
use vstd::string::*;
use crate::text::text_eq;

verus! {

/// One field of an object.
#[derive(Debug, PartialEq, Eq)]
pub struct Member {
    pub key: String,
    pub value: Json,
}

/// A structured value. A number is kept as its decimal text; an object keeps
/// its fields as a list, in order.
#[derive(Debug, PartialEq, Eq)]
pub enum Json {
    Null,
    Bool(bool),
    Number(String),
    Text(String),
    Array(Vec<Json>),
    Object(Vec<Member>),
}

/// The mathematical value of a `Member`.
pub struct MemberView {
    pub key: Seq<char>,
    pub value: JsonView,
}

/// The mathematical value of a `Json`.
pub enum JsonView {
    Null,
    Bool(bool),
    Number(Seq<char>),
    Text(Seq<char>),
    Array(Seq<JsonView>),
    Object(Seq<MemberView>),
}

impl View for Member {
    type V = MemberView;

    open spec fn view(&self) -> MemberView {
        MemberView { key: self.key@, value: self.value@ }
    }
}

impl View for Json {
    type V = JsonView;

    open spec fn view(&self) -> JsonView
        decreases self,
    {
        match self {
            Json::Null => JsonView::Null,
            Json::Bool(b) => JsonView::Bool(*b),
            Json::Number(n) => JsonView::Number(n@),
            Json::Text(t) => JsonView::Text(t@),
            Json::Array(items) => JsonView::Array(
                Seq::new(
                    items.len() as nat,
                    |i: int|
                        if 0 <= i < items.len() {
                            items[i]@
                        } else {
                            JsonView::Null
                        },
                ),
            ),
            Json::Object(fields) => JsonView::Object(
                Seq::new(
                    fields.len() as nat,
                    |i: int|
                        if 0 <= i < fields.len() {
                            MemberView { key: fields[i].key@, value: fields[i].value@ }
                        } else {
                            MemberView { key: Seq::empty(), value: JsonView::Null }
                        },
                ),
            ),
        }
    }
}

/// Index of the first field named `key` at or after `from`.
pub open spec fn first_key(fields: Seq<MemberView>, key: Seq<char>, from: int) -> Option<int>
    decreases fields.len() - from,
{
    if from < 0 || from >= fields.len() {
        None
    } else if fields[from].key == key {
        Some(from)
    } else {
        first_key(fields, key, from + 1)
    }
}

impl JsonView {
    /// The value of the first field named `key`, if this is an object that
    /// has one.
    pub open spec fn field(self, key: Seq<char>) -> Option<JsonView> {
        match self {
            JsonView::Object(fields) => match first_key(fields, key, 0) {
                Some(i) => Some(fields[i].value),
                None => None,
            },
            _ => None,
        }
    }

    /// The text, if this is a text value.
    pub open spec fn text(self) -> Option<Seq<char>> {
        match self {
            JsonView::Text(t) => Some(t),
            _ => None,
        }
    }

    /// The text of the first field named `key`, if this is an object whose
    /// first such field is a text value.
    pub open spec fn text_field(self, key: Seq<char>) -> Option<Seq<char>> {
        match self.field(key) {
            Some(v) => v.text(),
            None => None,
        }
    }

    /// Whether this is an object with a field named `key`.
    pub open spec fn has_key(self, key: Seq<char>) -> bool {
        self.field(key) is Some
    }
}

/// `first_key` finds a field exactly when one is there.
pub proof fn lemma_first_key(fields: Seq<MemberView>, key: Seq<char>, from: int)
    requires
        0 <= from,
    ensures
        match first_key(fields, key, from) {
            Some(i) => from <= i < fields.len() && fields[i].key == key && forall|j: int|
                from <= j < i ==> fields[j].key != key,
            None => forall|j: int| from <= j < fields.len() ==> fields[j].key != key,
        },
    decreases fields.len() - from,
{
    if from < fields.len() && fields[from].key != key {
        lemma_first_key(fields, key, from + 1);
    }
}

/// The view of an object is its fields' views, in order.
pub proof fn lemma_object_view(fields: Vec<Member>)
    ensures
        Json::Object(fields)@ matches JsonView::Object(view) && view.len() == fields.len()
            && forall|k: int| 0 <= k < fields.len() ==> #[trigger] view[k] == fields[k]@,
{
}

/// The view of an array is its items' views, in order.
pub proof fn lemma_array_view(items: Vec<Json>)
    ensures
        Json::Array(items)@ matches JsonView::Array(view) && view.len() == items.len()
            && forall|k: int| 0 <= k < items.len() ==> #[trigger] view[k] == items[k]@,
{
}

/// The views of a list of members.
pub open spec fn members_view(fields: Seq<Member>) -> Seq<MemberView> {
    fields.map_values(|m: Member| m@)
}

/// The views of a list of values.
pub open spec fn values_view(items: Seq<Json>) -> Seq<JsonView> {
    items.map_values(|j: Json| j@)
}

/// `serde_json::Value`, the parser's own value type; opaque here.
#[verifier::external_type_specification]
#[verifier::external_body]
pub struct ExValue(serde_json::Value);

/// What `serde_json::from_str` makes of a text: `None` where it reports an
/// error, else the `serde_json::Value` it reads, variant by variant: a number
/// by its `Display` text, an object by its fields in the order in which
/// `serde_json::Map` hands them out.
pub uninterp spec fn parsed(text: Seq<char>) -> Option<JsonView>;

/// Copies a `serde_json::Value` into a `Json`, variant by variant, with
/// `Number::to_string` for a number and `Map::iter` for the fields of an
/// object. Nothing is claimed of the result here; `parse_value` names it.
#[verifier::external_body]
fn convert_value(value: &serde_json::Value) -> (json: Json) {
    match value {
        serde_json::Value::Null => Json::Null,
        serde_json::Value::Bool(b) => Json::Bool(*b),
        serde_json::Value::Number(n) => Json::Number(n.to_string()),
        serde_json::Value::String(s) => Json::Text(s.clone()),
        serde_json::Value::Array(items) => Json::Array(items.iter().map(convert_value).collect()),
        serde_json::Value::Object(map) => Json::Object(
            map.iter().map(|(k, v)| Member { key: k.clone(), value: convert_value(v) }).collect(),
        ),
    }
}

/// Calls `serde_json::from_str` for a `serde_json::Value` and copies what it
/// reads. The result depends on the text alone; the contract gives it the
/// name `parsed` and claims nothing more of it.
#[verifier::external_body]
fn parse_value(text: &str) -> (json: Option<Json>)
    ensures
        match json {
            Some(j) => parsed(text@) == Some(j@),
            None => parsed(text@) is None,
        },
{
    match serde_json::from_str::<serde_json::Value>(text) {
        Ok(value) => Some(convert_value(&value)),
        Err(_) => None,
    }
}

impl Clone for Json {
    fn clone(&self) -> (copy: Json)
        ensures
            copy@ == self@,
    {
        self.deep_clone()
    }
}

impl Clone for Member {
    fn clone(&self) -> (copy: Member)
        ensures
            copy@ == self@,
    {
        Member { key: self.key.clone(), value: self.value.deep_clone() }
    }
}

impl Member {
    /// The field `key` with the value `value`.
    pub fn new(key: &str, value: Json) -> (member: Member)
        ensures
            member@ == (MemberView { key: key@, value: value@ }),
    {
        Member { key: key.to_owned(), value }
    }

    /// The field `key` with the text `text` as its value.
    pub fn text(key: &str, text: &str) -> (member: Member)
        ensures
            member@ == (MemberView { key: key@, value: JsonView::Text(text@) }),
    {
        Member { key: key.to_owned(), value: Json::Text(text.to_owned()) }
    }
}

impl Json {
    /// The text value `text`.
    pub fn text(text: &str) -> (json: Json)
        ensures
            json@ == JsonView::Text(text@),
    {
        Json::Text(text.to_owned())
    }

    /// The object with the fields `fields`, in order.
    pub fn object(fields: Vec<Member>) -> (json: Json)
        ensures
            json@ == JsonView::Object(members_view(fields@)),
    {
        proof {
            lemma_object_view(fields);
            assert(Json::Object(fields)@->Object_0 =~= members_view(fields@));
        }
        Json::Object(fields)
    }

    /// The array with the items `items`, in order.
    pub fn array(items: Vec<Json>) -> (json: Json)
        ensures
            json@ == JsonView::Array(values_view(items@)),
    {
        proof {
            lemma_array_view(items);
            assert(Json::Array(items)@->Array_0 =~= values_view(items@));
        }
        Json::Array(items)
    }

    /// The items, if this is an array.
    pub fn as_array(&self) -> (items: Option<&Vec<Json>>)
        ensures
            match items {
                Some(v) => self@ == JsonView::Array(values_view(v@)),
                None => !(self@ is Array),
            },
    {
        match self {
            Json::Array(v) => {
                proof {
                    lemma_array_view(*v);
                    assert(self@->Array_0 =~= values_view(v@));
                }
                Some(v)
            },
            _ => None,
        }
    }

    /// The truth value, if this is a boolean.
    pub fn as_bool(&self) -> (value: Option<bool>)
        ensures
            value == match self@ {
                JsonView::Bool(b) => Some(b),
                _ => None,
            },
    {
        match self {
            Json::Bool(b) => Some(*b),
            _ => None,
        }
    }

    /// Reads one structured value from `text`, which must hold nothing else
    /// but white space around it.
    pub fn parse(text: &str) -> (json: Option<Json>)
        ensures
            match json {
                Some(j) => parsed(text@) == Some(j@),
                None => parsed(text@) is None,
            },
    {
        parse_value(text)
    }

    /// The value of the first field named `key`, if this is an object that
    /// has one.
    pub fn get(&self, key: &str) -> (value: Option<&Json>)
        ensures
            match value {
                Some(v) => self@.field(key@) == Some(v@),
                None => self@.field(key@) is None,
            },
    {
        match self {
            Json::Object(fields) => {
                let ghost view = self@->Object_0;
                proof {
                    lemma_object_view(*fields);
                }
                let mut i: usize = 0;
                while i < fields.len()
                    invariant
                        i <= fields.len(),
                        self@ == JsonView::Object(view),
                        view.len() == fields.len(),
                        forall|k: int| 0 <= k < fields.len() ==> view[k] == fields[k]@,
                        forall|k: int| 0 <= k < i ==> view[k].key != key@,
                    decreases fields.len() - i,
                {
                    if text_eq(fields[i].key.as_str(), key) {
                        proof {
                            lemma_first_key(view, key@, 0);
                            assert(view[i as int] == fields[i as int]@);
                            assert(view[i as int].key == key@);
                        }
                        return Some(&fields[i].value);
                    }
                    i += 1;
                }
                proof {
                    lemma_first_key(view, key@, 0);
                }
                None
            },
            _ => None,
        }
    }

    /// The text, if this is a text value.
    pub fn as_text(&self) -> (text: Option<&String>)
        ensures
            match text {
                Some(t) => self@.text() == Some(t@),
                None => self@.text() is None,
            },
    {
        match self {
            Json::Text(t) => Some(t),
            _ => None,
        }
    }

    /// The text of the first field named `key`, if this is an object whose
    /// first such field is a text value.
    pub fn text_field(&self, key: &str) -> (text: Option<String>)
        ensures
            match text {
                Some(t) => self@.text_field(key@) == Some(t@),
                None => self@.text_field(key@) is None,
            },
    {
        match self.get(key) {
            Some(value) => match value.as_text() {
                Some(t) => Some(t.clone()),
                None => None,
            },
            None => None,
        }
    }

    /// Whether this is an object with a field named `key`.
    pub fn has_key(&self, key: &str) -> (found: bool)
        ensures
            found == self@.has_key(key@),
    {
        self.get(key).is_some()
    }

    /// A copy of this value.
    pub fn deep_clone(&self) -> (copy: Json)
        ensures
            copy@ == self@,
        decreases self,
    {
        match self {
            Json::Null => Json::Null,
            Json::Bool(b) => Json::Bool(*b),
            Json::Number(n) => Json::Number(n.clone()),
            Json::Text(t) => Json::Text(t.clone()),
            Json::Array(items) => {
                let mut out: Vec<Json> = Vec::new();
                let mut i: usize = 0;
                while i < items.len()
                    invariant
                        i <= items.len(),
                        out.len() == i,
                        *self matches Json::Array(v) && v == *items,
                        forall|k: int| 0 <= k < i ==> out[k]@ == items[k]@,
                    decreases items.len() - i,
                {
                    proof {
                        vstd::std_specs::vec::axiom_vec_index_decreases(*items, i as int);
                        assert(decreases_to!(*self => *items));
                    }
                    out.push(items[i].deep_clone());
                    i += 1;
                }
                let copy = Json::Array(out);
                assert(copy@ == self@) by {
                    assert(copy@->Array_0 =~= self@->Array_0);
                }
                copy
            },
            Json::Object(fields) => {
                let mut out: Vec<Member> = Vec::new();
                let mut i: usize = 0;
                while i < fields.len()
                    invariant
                        i <= fields.len(),
                        out.len() == i,
                        *self matches Json::Object(v) && v == *fields,
                        forall|k: int| 0 <= k < i ==> out[k]@ == fields[k]@,
                    decreases fields.len() - i,
                {
                    proof {
                        vstd::std_specs::vec::axiom_vec_index_decreases(*fields, i as int);
                        assert(decreases_to!(*self => *fields));
                        assert(decreases_to!(fields[i as int] => fields[i as int].value));
                    }
                    out.push(Member { key: fields[i].key.clone(), value: fields[i].value.deep_clone() });
                    i += 1;
                }
                let copy = Json::Object(out);
                assert(copy@ == self@) by {
                    assert(copy@->Object_0 =~= self@->Object_0);
                }
                copy
            },
        }
    }
}

} // verus!
