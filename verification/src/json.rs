//! JSON documents as plain values.
use crate::text::same_text;
use vstd::prelude::*;

verus! {

/// A JSON document.
pub enum Json {
    Null,
    Bool(bool),
    /// A number: its value if that is an unsigned whole number of 64 bits, and
    /// its value as a double, cut to an unsigned whole number.
    Number { unsigned: Option<u64>, whole: Option<u64> },
    Text(String),
    Array(Vec<Json>),
    Object(Vec<(String, Json)>),
}

/// What a JSON document holds.
pub enum JsonView {
    Null,
    Bool(bool),
    Number { unsigned: Option<u64>, whole: Option<u64> },
    Text(Seq<char>),
    Array(Seq<JsonView>),
    Object(Seq<(Seq<char>, JsonView)>),
}

impl Json {
    /// What the document holds.
    pub open spec fn contents(self) -> JsonView
        decreases self,
    {
        match self {
            Json::Null => JsonView::Null,
            Json::Bool(b) => JsonView::Bool(b),
            Json::Number { unsigned, whole } => JsonView::Number { unsigned, whole },
            Json::Text(s) => JsonView::Text(s@),
            Json::Array(items) => JsonView::Array(
                Seq::new(
                    items@.len(),
                    |i: int|
                        if 0 <= i < items@.len() {
                            items@[i].contents()
                        } else {
                            JsonView::Null
                        },
                ),
            ),
            Json::Object(fields) => JsonView::Object(
                Seq::new(
                    fields@.len(),
                    |i: int|
                        if 0 <= i < fields@.len() {
                            (fields@[i].0@, fields@[i].1.contents())
                        } else {
                            (Seq::empty(), JsonView::Null)
                        },
                ),
            ),
        }
    }
}

impl View for Json {
    type V = JsonView;

    open spec fn view(&self) -> JsonView {
        self.contents()
    }
}

// ---------------------------------------------------------------------------
// Reading a document from text
// ---------------------------------------------------------------------------
/// `serde_json::Value`, carried as it is.
#[verifier::external_type_specification]
#[verifier::external_body]
pub struct ExValue(serde_json::Value);

/// What a `serde_json::Value` holds.
pub uninterp spec fn value_holds(v: serde_json::Value) -> JsonView;

/// The document that a text spells, or the message why it spells none.
pub uninterp spec fn json_document(text: Seq<char>) -> Result<JsonView, Seq<char>>;

/// `serde_json::from_str` into a `serde_json::Value`: the document that the text
/// spells, or the error's message, by the name `json_document`. The text alone
/// decides.
#[verifier::external_body]
fn value_from_str(text: &str) -> (r: Result<serde_json::Value, String>)
    ensures
        match r {
            Ok(v) => json_document(text@) == Ok::<JsonView, Seq<char>>(value_holds(v)),
            Err(e) => json_document(text@) == Err::<JsonView, Seq<char>>(e@),
        },
{
    serde_json::from_str::<serde_json::Value>(text).map_err(|e| e.to_string())
}

/// A `serde_json::Value` taken apart, variant by variant, with
/// `Number::as_u64` and `Number::as_f64` for what a number holds.
#[verifier::external_body]
fn json_from_value(value: &serde_json::Value) -> (r: Json)
    ensures
        r@ == value_holds(*value),
{
    match value {
        serde_json::Value::Null => Json::Null,
        serde_json::Value::Bool(b) => Json::Bool(*b),
        serde_json::Value::Number(n) => Json::Number {
            unsigned: n.as_u64(),
            whole: n.as_f64().map(|d| d as u64),
        },
        serde_json::Value::String(s) => Json::Text(s.clone()),
        serde_json::Value::Array(items) => Json::Array(items.iter().map(json_from_value).collect()),
        serde_json::Value::Object(fields) => Json::Object(
            fields.iter().map(|(k, v)| (k.clone(), json_from_value(v))).collect(),
        ),
    }
}

/// The document that `text` spells, or the message why it spells none.
pub fn parse_json(text: &str) -> (r: Result<Json, String>)
    ensures
        match r {
            Ok(j) => json_document(text@) == Ok::<JsonView, Seq<char>>(j@),
            Err(e) => json_document(text@) == Err::<JsonView, Seq<char>>(e@),
        },
{
    match value_from_str(text) {
        Ok(v) => Ok(json_from_value(&v)),
        Err(e) => Err(e),
    }
}

// ---------------------------------------------------------------------------
// Looking things up
// ---------------------------------------------------------------------------
/// The value of the first field named `key`, or null.
pub open spec fn lookup(fields: Seq<(Seq<char>, JsonView)>, key: Seq<char>) -> JsonView
    decreases fields.len(),
{
    if fields.len() == 0 {
        JsonView::Null
    } else if fields[0].0 == key {
        fields[0].1
    } else {
        lookup(fields.drop_first(), key)
    }
}

/// The field `key` of a document: null if it has none or is no object.
pub open spec fn field_of(j: JsonView, key: Seq<char>) -> JsonView {
    match j {
        JsonView::Object(fields) => lookup(fields, key),
        _ => JsonView::Null,
    }
}

/// The text in the field `key`.
pub open spec fn text_in(j: JsonView, key: Seq<char>) -> Option<Seq<char>> {
    match field_of(j, key) {
        JsonView::Text(s) => Some(s),
        _ => None,
    }
}

/// The truth value in the field `key`.
pub open spec fn flag_in(j: JsonView, key: Seq<char>) -> Option<bool> {
    match field_of(j, key) {
        JsonView::Bool(b) => Some(b),
        _ => None,
    }
}

/// The unsigned whole number in the field `key`.
pub open spec fn unsigned_in(j: JsonView, key: Seq<char>) -> Option<u64> {
    match field_of(j, key) {
        JsonView::Number { unsigned, .. } => unsigned,
        _ => None,
    }
}

/// The number in the field `key`, cut to an unsigned whole number.
pub open spec fn whole_in(j: JsonView, key: Seq<char>) -> Option<u64> {
    match field_of(j, key) {
        JsonView::Number { whole, .. } => whole,
        _ => None,
    }
}

/// The items in the field `key`: none if there is no array.
pub open spec fn items_in(j: JsonView, key: Seq<char>) -> Seq<JsonView> {
    match field_of(j, key) {
        JsonView::Array(items) => items,
        _ => Seq::empty(),
    }
}

impl Json {
    /// The field `key`, unless it is missing.
    pub fn field(&self, key: &str) -> (r: Option<&Json>)
        ensures
            match r {
                Some(v) => field_of(self@, key@) == v@,
                None => field_of(self@, key@) == JsonView::Null,
            },
    {
        match self {
            Json::Object(fields) => {
                let ghost all = self@->Object_0;
                let mut i: usize = 0;
                assert(all.skip(0) == all);
                while i < fields.len()
                    invariant
                        i <= fields@.len(),
                        *self == Json::Object(*fields),
                        all == self@->Object_0,
                        all.len() == fields@.len(),
                        lookup(all, key@) == lookup(all.skip(i as int), key@),
                    decreases fields@.len() - i,
                {
                    let ghost rest = all.skip(i as int);
                    assert(rest[0] == (fields@[i as int].0@, fields@[i as int].1@));
                    assert(rest.drop_first() == all.skip(i + 1));
                    if same_text(fields[i].0.as_str(), key) {
                        return Some(&fields[i].1);
                    }
                    i = i + 1;
                }
                None
            },
            _ => None,
        }
    }

    /// The text in the field `key`.
    pub fn text_field(&self, key: &str) -> (r: Option<&str>)
        ensures
            match r {
                Some(s) => text_in(self@, key@) == Some(s@),
                None => text_in(self@, key@) is None,
            },
    {
        match self.field(key) {
            Some(Json::Text(s)) => Some(s.as_str()),
            _ => None,
        }
    }

    /// The truth value in the field `key`.
    pub fn flag_field(&self, key: &str) -> (r: Option<bool>)
        ensures
            r == flag_in(self@, key@),
    {
        match self.field(key) {
            Some(Json::Bool(b)) => Some(*b),
            _ => None,
        }
    }

    /// The unsigned whole number in the field `key`.
    pub fn unsigned_field(&self, key: &str) -> (r: Option<u64>)
        ensures
            r == unsigned_in(self@, key@),
    {
        match self.field(key) {
            Some(Json::Number { unsigned, .. }) => *unsigned,
            _ => None,
        }
    }

    /// The number in the field `key`, cut to an unsigned whole number.
    pub fn whole_field(&self, key: &str) -> (r: Option<u64>)
        ensures
            r == whole_in(self@, key@),
    {
        match self.field(key) {
            Some(Json::Number { whole, .. }) => *whole,
            _ => None,
        }
    }

    /// The items in the field `key`.
    pub fn items_field(&self, key: &str) -> (r: Option<&Vec<Json>>)
        ensures
            match r {
                Some(items) => items_in(self@, key@) == Seq::new(
                    items@.len(),
                    |i: int| items@[i]@,
                ),
                None => items_in(self@, key@) == Seq::<JsonView>::empty(),
            },
    {
        match self.field(key) {
            Some(Json::Array(items)) => {
                assert(items_in(self@, key@) == Seq::new(items@.len(), |i: int| items@[i]@));
                Some(items)
            },
            _ => None,
        }
    }

    /// Whether this is an object.
    pub fn is_object(&self) -> (r: bool)
        ensures
            r == (self@ is Object),
    {
        match self {
            Json::Object(_) => true,
            _ => false,
        }
    }
}

} // verus!
