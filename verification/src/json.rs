//! JSON documents as trees of plain values, and the two calls into
//! `serde_json` that read and print them.

use vstd::prelude::*;

verus! {

broadcast use vstd::std_specs::vec::group_vec_axioms;

/// A JSON document. A number keeps the text that stands for it; an object
/// keeps its members in order.
#[derive(Debug, PartialEq, Eq)]
pub enum Json {
    Null,
    Bool(bool),
    Number(String),
    Str(String),
    Array(Vec<Json>),
    Object(Vec<(String, Json)>),
}

/// The mathematical value of a JSON document.
pub enum JsonValue {
    Null,
    Bool(bool),
    Number(Seq<char>),
    Str(Seq<char>),
    Array(Seq<JsonValue>),
    Object(Seq<(Seq<char>, JsonValue)>),
}

/// The six kinds of JSON value.
#[derive(Debug, Clone, Copy, PartialEq, Eq, Structural)]
pub enum JsonKind {
    Null,
    Bool,
    Number,
    Str,
    Array,
    Object,
}

impl JsonValue {
    /// The kind of this value.
    pub open spec fn kind(self) -> JsonKind {
        match self {
            JsonValue::Null => JsonKind::Null,
            JsonValue::Bool(_) => JsonKind::Bool,
            JsonValue::Number(_) => JsonKind::Number,
            JsonValue::Str(_) => JsonKind::Str,
            JsonValue::Array(_) => JsonKind::Array,
            JsonValue::Object(_) => JsonKind::Object,
        }
    }

    /// The first position at or after `from` whose member is named `key`,
    /// or the number of members if there is none.
    pub open spec fn position_from(
        members: Seq<(Seq<char>, JsonValue)>,
        key: Seq<char>,
        from: int,
    ) -> int
        decreases members.len() - from,
    {
        if from < 0 || from >= members.len() {
            members.len() as int
        } else if members[from].0 == key {
            from
        } else {
            Self::position_from(members, key, from + 1)
        }
    }

    /// The position of the first member named `key`, or the number of
    /// members if there is none.
    pub open spec fn position(members: Seq<(Seq<char>, JsonValue)>, key: Seq<char>) -> int {
        Self::position_from(members, key, 0)
    }

    /// The member of an object that a name selects: the first one that
    /// carries it. Anything but an object has no members.
    pub open spec fn member(self, key: Seq<char>) -> Option<JsonValue> {
        match self {
            JsonValue::Object(members) => {
                let at = Self::position(members, key);
                if at < members.len() {
                    Some(members[at].1)
                } else {
                    None
                }
            },
            _ => None,
        }
    }

    /// What `position_from` returns lies between `from` and the number of
    /// members, names `key` if it is a position, and no earlier position
    /// from `from` on names `key`.
    pub proof fn position_from_is_first(
        members: Seq<(Seq<char>, JsonValue)>,
        key: Seq<char>,
        from: int,
    )
        requires
            0 <= from <= members.len(),
        ensures
            from <= Self::position_from(members, key, from) <= members.len(),
            Self::position_from(members, key, from) < members.len() ==> members[Self::position_from(
                members,
                key,
                from,
            )].0 == key,
            forall|k: int|
                from <= k < Self::position_from(members, key, from) ==> (#[trigger] members[k]).0
                    != key,
        decreases members.len() - from,
    {
        if from < members.len() && members[from].0 != key {
            Self::position_from_is_first(members, key, from + 1);
        }
    }
}

impl View for Json {
    type V = JsonValue;

    open spec fn view(&self) -> JsonValue
        decreases self,
    {
        match self {
            Json::Null => JsonValue::Null,
            Json::Bool(b) => JsonValue::Bool(*b),
            Json::Number(n) => JsonValue::Number(n@),
            Json::Str(s) => JsonValue::Str(s@),
            Json::Array(items) => JsonValue::Array(
                Seq::new(
                    items@.len(),
                    |i: int|
                        if 0 <= i < items@.len() {
                            items@[i].view()
                        } else {
                            JsonValue::Null
                        },
                ),
            ),
            Json::Object(members) => JsonValue::Object(
                Seq::new(
                    members@.len(),
                    |i: int|
                        (
                            members@[i].0@,
                            if 0 <= i < members@.len() {
                                members@[i].1.view()
                            } else {
                                JsonValue::Null
                            },
                        ),
                ),
            ),
        }
    }
}

impl Clone for Json {
    fn clone(&self) -> (copy: Json)
        ensures
            copy@ == self@,
        decreases self,
    {
        match self {
            Json::Null => Json::Null,
            Json::Bool(b) => Json::Bool(*b),
            Json::Number(n) => Json::Number(n.clone()),
            Json::Str(s) => Json::Str(s.clone()),
            Json::Array(items) => {
                let mut out: Vec<Json> = Vec::new();
                let mut i: usize = 0;
                while i < items.len()
                    invariant
                        *self == Json::Array(*items),
                        i <= items.len(),
                        out@.len() == i,
                        forall|k: int| 0 <= k < i ==> (#[trigger] out@[k])@ == items@[k]@,
                    decreases items.len() - i,
                {
                    proof {
                        assert(decreases_to!(*self => self->Array_0));
                        assert(decreases_to!(self->Array_0 => self->Array_0[i as int]));
                    }
                    out.push(items[i].clone());
                    i = i + 1;
                }
                let copy = Json::Array(out);
                assert(copy@->Array_0 =~= self@->Array_0);
                copy
            },
            Json::Object(members) => {
                let mut out: Vec<(String, Json)> = Vec::new();
                let mut i: usize = 0;
                while i < members.len()
                    invariant
                        *self == Json::Object(*members),
                        i <= members.len(),
                        out@.len() == i,
                        forall|k: int|
                            0 <= k < i ==> (#[trigger] out@[k]).0@ == members@[k].0@ && out@[k].1@
                                == members@[k].1@,
                    decreases members.len() - i,
                {
                    proof {
                        assert(decreases_to!(*self => self->Object_0));
                        assert(decreases_to!(self->Object_0 => self->Object_0[i as int]));
                        assert(decreases_to!(self->Object_0[i as int] => self->Object_0[i as int].1));
                    }
                    out.push((members[i].0.clone(), members[i].1.clone()));
                    i = i + 1;
                }
                let copy = Json::Object(out);
                assert(copy@->Object_0 =~= self@->Object_0) by {
                    assert forall|k: int| 0 <= k < members@.len() implies copy@->Object_0[k]
                        == self@->Object_0[k] by {
                        assert(out@[k].0@ == members@[k].0@);
                    }
                }
                copy
            },
        }
    }
}

impl Json {
    /// The kind of this document's root.
    pub fn kind(&self) -> (k: JsonKind)
        ensures
            k == self@.kind(),
    {
        match self {
            Json::Null => JsonKind::Null,
            Json::Bool(_) => JsonKind::Bool,
            Json::Number(_) => JsonKind::Number,
            Json::Str(_) => JsonKind::Str,
            Json::Array(_) => JsonKind::Array,
            Json::Object(_) => JsonKind::Object,
        }
    }

    /// The member of an object that `key` names, if this is an object and
    /// has one. Of several members with one name the first counts.
    pub fn get(&self, key: &str) -> (found: Option<&Json>)
        ensures
            found matches Some(j) ==> self@.member(key@) == Some(j@),
            found is None ==> self@.member(key@) is None,
    {
        match self {
            Json::Object(members) => {
                let mut i: usize = 0;
                while i < members.len()
                    invariant
                        *self == Json::Object(*members),
                        i <= members.len(),
                        JsonValue::position(self@->Object_0, key@) == JsonValue::position_from(
                            self@->Object_0,
                            key@,
                            i as int,
                        ),
                    decreases members.len() - i,
                {
                    if members[i].0.as_str().eq(key) {
                        return Some(&members[i].1);
                    }
                    i = i + 1;
                }
                None
            },
            _ => None,
        }
    }
}

/// The outcome of reading a text, with the document and the message taken
/// by their views.
pub open spec fn parsed_view(r: Result<Json, String>) -> Result<JsonValue, Seq<char>> {
    match r {
        Ok(j) => Ok(j@),
        Err(e) => Err(e@),
    }
}

/// What `serde_json` makes of a text: the document it reads, or the
/// message of the error it reports.
pub uninterp spec fn json_parse_result(text: Seq<u8>) -> Result<JsonValue, Seq<char>>;

/// The compact text that `serde_json` prints for a document.
pub uninterp spec fn json_text(value: JsonValue) -> Seq<char>;

/// `serde_json::Value`, the document as `serde_json` holds it. Nothing of
/// what is inside it is seen here.
#[verifier::external_type_specification]
#[verifier::external_body]
pub struct ExJsonValue(serde_json::Value);

/// Turns a `serde_json::Value` into a document of this library, node by
/// node. Nothing is claimed of the result here; `parse_bytes` names what the
/// whole reading gives.
#[verifier::external_body]
fn json_of_value(v: &serde_json::Value) -> Json {
    match v {
        serde_json::Value::Null => Json::Null,
        serde_json::Value::Bool(b) => Json::Bool(*b),
        serde_json::Value::Number(n) => Json::Number(n.to_string()),
        serde_json::Value::String(s) => Json::Str(s.clone()),
        serde_json::Value::Array(a) => Json::Array(a.iter().map(json_of_value).collect()),
        serde_json::Value::Object(o) => Json::Object(
            o.iter().map(|(k, x)| (k.clone(), json_of_value(x))).collect(),
        ),
    }
}

/// Turns a document of this library into a `serde_json::Value`, node by
/// node. The text of a number is read by `serde_json`; one that it refuses
/// becomes `null`. Nothing is claimed of the result here; `print_text` names
/// what the whole printing gives.
#[verifier::external_body]
fn value_of_json(j: &Json) -> serde_json::Value {
    match j {
        Json::Null => serde_json::Value::Null,
        Json::Bool(b) => serde_json::Value::Bool(*b),
        Json::Number(n) => n.parse().map(serde_json::Value::Number).unwrap_or(
            serde_json::Value::Null,
        ),
        Json::Str(s) => serde_json::Value::String(s.clone()),
        Json::Array(a) => serde_json::Value::Array(a.iter().map(value_of_json).collect()),
        Json::Object(o) => serde_json::Value::Object(
            o.iter().map(|(k, x)| (k.clone(), value_of_json(x))).collect(),
        ),
    }
}

/// `serde_json::from_slice`, read as a `serde_json::Value`: the result is
/// the one that the bytes determine, the document on success and the
/// error's message on failure.
#[verifier::external_body]
fn parse_bytes(text: &[u8]) -> (r: Result<Json, String>)
    ensures
        parsed_view(r) == json_parse_result(text@),
{
    match serde_json::from_slice::<serde_json::Value>(text) {
        Ok(v) => Ok(json_of_value(&v)),
        Err(e) => Err(e.to_string()),
    }
}

/// The `Display` of `serde_json::Value`, which prints compact JSON: the
/// text is the one that the document determines.
#[verifier::external_body]
fn print_text(j: &Json) -> (text: String)
    ensures
        text@ == json_text(j@),
{
    value_of_json(j).to_string()
}

/// The view of a JSON document that may be absent.
pub open spec fn option_json(o: Option<Json>) -> Option<JsonValue> {
    match o {
        Some(j) => Some(j@),
        None => None,
    }
}

/// The view of a borrowed JSON document that may be absent.
pub open spec fn option_ref_json(o: Option<&Json>) -> Option<JsonValue> {
    match o {
        Some(j) => Some(j@),
        None => None,
    }
}

/// A JSON value read as a text: a string stands for itself, anything else
/// for its JSON text.
pub open spec fn text_of(value: JsonValue) -> Seq<char> {
    match value {
        JsonValue::Str(s) => s,
        _ => json_text(value),
    }
}

impl Json {
    /// This document read as a text: a string as itself, anything else as
    /// its JSON text.
    pub fn as_text(&self) -> (text: String)
        ensures
            text@ == text_of(self@),
    {
        match self {
            Json::Str(s) => s.clone(),
            _ => self.to_text(),
        }
    }

    /// Reads a JSON text.
    pub fn parse(text: &[u8]) -> (r: Result<Json, String>)
        ensures
            parsed_view(r) == json_parse_result(text@),
    {
        parse_bytes(text)
    }

    /// Prints this document as compact JSON.
    pub fn to_text(&self) -> (text: String)
        ensures
            text@ == json_text(self@),
    {
        print_text(self)
    }
}

} // verus!
