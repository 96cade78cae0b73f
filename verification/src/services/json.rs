//! JSON values.

use vstd::prelude::*;

use crate::text::strings::{lowercase, name_view, str_eq, to_lowercase, trim, trimmed};

verus! {

/// A JSON value. A number is kept as the integers that it fits into; one that fits into neither
/// has a fraction or is too large.
#[derive(Debug)]
pub enum Json {
    Null,
    Bool(bool),
    Number { signed: Option<i64>, unsigned: Option<u64> },
    Str(String),
    Array(Vec<Json>),
    Object(Vec<(String, Json)>),
}

/// What stands for a [`Json`] in contracts.
#[verifier::ext_equal]
pub enum JsonModel {
    Null,
    Bool(bool),
    Number { signed: Option<i64>, unsigned: Option<u64> },
    Str(Seq<char>),
    Array(Seq<JsonModel>),
    Object(Seq<(Seq<char>, JsonModel)>),
}

impl Json {
    /// What the value stands for.
    pub open spec fn model(self) -> JsonModel
        decreases self,
    {
        match self {
            Json::Null => JsonModel::Null,
            Json::Bool(b) => JsonModel::Bool(b),
            Json::Number { signed, unsigned } => JsonModel::Number { signed, unsigned },
            Json::Str(s) => JsonModel::Str(s@),
            Json::Array(a) => JsonModel::Array(
                Seq::new(
                    a@.len(),
                    |i: int|
                        if 0 <= i < a@.len() {
                            a@[i].model()
                        } else {
                            JsonModel::Null
                        },
                ),
            ),
            Json::Object(o) => JsonModel::Object(
                Seq::new(
                    o@.len(),
                    |i: int|
                        if 0 <= i < o@.len() {
                            (o@[i].0@, o@[i].1.model())
                        } else {
                            (Seq::empty(), JsonModel::Null)
                        },
                ),
            ),
        }
    }
}

impl View for Json {
    type V = JsonModel;

    open spec fn view(&self) -> JsonModel {
        self.model()
    }
}

/// What stands for a value, if there is one, in contracts.
pub open spec fn json_view(v: Option<Json>) -> Option<JsonModel> {
    match v {
        Some(j) => Some(j@),
        None => None,
    }
}

/// The value that a text in JSON stands for; `None` if it is not JSON.
pub uninterp spec fn json_text(bytes: Seq<u8>) -> Option<JsonModel>;

/// A JSON value of `serde_json`, which is only passed on.
#[verifier::external_type_specification]
#[verifier::external_body]
pub struct ExJsonValue(serde_json::Value);

/// Takes a `serde_json::Value` apart, one value for one; nothing is claimed of it here.
#[verifier::external_body]
fn json_of(v: serde_json::Value) -> Json {
    match v {
        serde_json::Value::Null => Json::Null,
        serde_json::Value::Bool(b) => Json::Bool(b),
        serde_json::Value::Number(n) => Json::Number { signed: n.as_i64(), unsigned: n.as_u64() },
        serde_json::Value::String(s) => Json::Str(s),
        serde_json::Value::Array(a) => Json::Array(a.into_iter().map(json_of).collect()),
        serde_json::Value::Object(o) => Json::Object(
            o.into_iter().map(|(k, v)| (k, json_of(v))).collect(),
        ),
    }
}

/// Reads JSON with `serde_json::from_slice`. Claimed is only that the value depends on the bytes
/// alone; that they are not JSON is answered by `None`.
#[verifier::external_body]
pub(crate) fn parse_json(bytes: &Vec<u8>) -> (r: Option<Json>)
    ensures
        json_view(r) == json_text(bytes@),
{
    match serde_json::from_slice(bytes) {
        Ok(v) => Some(json_of(v)),
        Err(_) => None,
    }
}

/// The position of the first field of this name, or the number of fields.
pub open spec fn field_at(fields: Seq<(Seq<char>, JsonModel)>, key: Seq<char>, i: int) -> int
    decreases fields.len() - i,
{
    if 0 <= i < fields.len() && fields[i].0 != key {
        field_at(fields, key, i + 1)
    } else {
        i
    }
}

impl JsonModel {
    /// The field of an object.
    pub open spec fn field(self, key: Seq<char>) -> Option<JsonModel> {
        match self {
            JsonModel::Object(fields) => {
                let i = field_at(fields, key, 0);
                if i < fields.len() {
                    Some(fields[i].1)
                } else {
                    None
                }
            },
            _ => None,
        }
    }

    /// The text of a field of an object.
    pub open spec fn text(self, key: Seq<char>) -> Option<Seq<char>> {
        match self.field(key) {
            Some(JsonModel::Str(s)) => Some(s),
            _ => None,
        }
    }

    /// The text of a field of an object, or none.
    pub open spec fn text_or_empty(self, key: Seq<char>) -> Seq<char> {
        match self.text(key) {
            Some(s) => s,
            None => Seq::empty(),
        }
    }

    /// The value says yes: `true`, a number above zero, a text that is not a no, or something that
    /// holds such a value.
    pub open spec fn truthy(self) -> bool
        decreases self,
    {
        match self {
            JsonModel::Null => false,
            JsonModel::Bool(b) => b,
            JsonModel::Number { signed, unsigned } => match (signed, unsigned) {
                (Some(n), _) => n > 0,
                (None, Some(n)) => n > 0,
                (None, None) => false,
            },
            JsonModel::Str(s) => is_yes(s),
            JsonModel::Array(a) => exists|i: int| 0 <= i < a.len() && (#[trigger] a[i]).truthy(),
            JsonModel::Object(o) => exists|i: int| 0 <= i < o.len() && (#[trigger] o[i]).1.truthy(),
        }
    }
}

/// A text that is not a no.
pub open spec fn is_yes(s: Seq<char>) -> bool {
    let t = lowercase(trimmed(s));
    t.len() > 0 && t != "0"@ && t != "false"@ && t != "off"@ && t != "none"@ && t != "no"@
}

/// Whether a text in lower case, without white space around it, is not a no.
pub fn says_yes(t: &str) -> (r: bool)
    ensures
        r == (t@.len() > 0 && t@ != "0"@ && t@ != "false"@ && t@ != "off"@ && t@ != "none"@ && t@
            != "no"@),
{
    t.unicode_len() > 0 && !str_eq(t, "0") && !str_eq(t, "false") && !str_eq(t, "off") && !str_eq(
        t,
        "none",
    ) && !str_eq(t, "no")
}

impl Json {
    /// The field of an object.
    pub fn get(&self, key: &str) -> (r: Option<&Json>)
        ensures
            match r {
                Some(v) => self@.field(key@) == Some(v@),
                None => self@.field(key@) is None,
            },
    {
        match self {
            Json::Object(fields) => {
                let ghost all = self@->Object_0;
                let mut i: usize = 0;
                while i < fields.len() && !str_eq(fields[i].0.as_str(), key)
                    invariant
                        i <= fields@.len(),
                        all.len() == fields@.len(),
                        forall|k: int|
                            0 <= k < all.len() ==> (#[trigger] all[k]).0 == fields@[k].0@,
                        field_at(all, key@, 0) == field_at(all, key@, i as int),
                    decreases fields@.len() - i,
                {
                    i += 1;
                }
                if i < fields.len() {
                    Some(&fields[i].1)
                } else {
                    None
                }
            },
            _ => None,
        }
    }

    /// The text of a field of an object.
    pub fn get_str(&self, key: &str) -> (r: Option<&str>)
        ensures
            name_view(r) == self@.text(key@),
    {
        match self.get(key) {
            Some(Json::Str(s)) => Some(s.as_str()),
            _ => None,
        }
    }

    /// The text of a field of an object, or none.
    pub fn str_or_empty(&self, key: &str) -> (r: String)
        ensures
            r@ == self@.text_or_empty(key@),
    {
        match self.get_str(key) {
            Some(s) => String::from_str(s),
            None => {
                let none = String::new();
                assert(none@ =~= Seq::<char>::empty());
                none
            },
        }
    }

    /// Whether the value says yes.
    pub fn is_truthy(&self) -> (r: bool)
        ensures
            r == self@.truthy(),
        decreases self,
    {
        match self {
            Json::Null => false,
            Json::Bool(b) => *b,
            Json::Number { signed, unsigned } => match signed {
                Some(n) => *n > 0,
                None => match unsigned {
                    Some(n) => *n > 0,
                    None => false,
                },
            },
            Json::Str(s) => {
                let t = trim(s.as_str());
                says_yes(to_lowercase(t.as_str()).as_str())
            },
            Json::Array(a) => {
                #[verifier::loop_isolation(false)]
                for i in 0..a.len()
                    invariant
                        forall|k: int| 0 <= k < i ==> !(#[trigger] a@[k])@.truthy(),
                {
                    assert(decreases_to!(*self => a@[i as int]));
                    if a[i].is_truthy() {
                        assert(self@->Array_0[i as int].truthy());
                        return true;
                    }
                }
                false
            },
            Json::Object(o) => {
                #[verifier::loop_isolation(false)]
                for i in 0..o.len()
                    invariant
                        forall|k: int| 0 <= k < i ==> !(#[trigger] o@[k]).1@.truthy(),
                {
                    assert(decreases_to!(*self => o@[i as int]));
                    assert(decreases_to!(o@[i as int] => o@[i as int].1));
                    if o[i].1.is_truthy() {
                        assert(self@->Object_0[i as int].1.truthy());
                        return true;
                    }
                }
                false
            },
        }
    }
}

} // verus!
