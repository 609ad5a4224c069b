//! A JSON document model that the rule logic reads (handler configurations, stored headers).
use vstd::prelude::*;
use crate::text::str_eq;

verus! {

/// A JSON value. Numbers are held exactly when they are integers; any other number is kept
/// by its JSON text.
#[derive(Debug)]
pub enum JsonValue {
    Null,
    Bool(bool),
    /// An integer number (every `u64` and `i64` fits).
    Number(i128),
    /// A number with a fraction or exponent, by its JSON text.
    Decimal(String),
    String(String),
    Array(Vec<JsonValue>),
    /// An object's members, in document order. An object read from JSON text holds each name
    /// once (a repeated name keeps its last value); where an object built by hand repeats a
    /// name, lookups find the first member of that name.
    Object(Vec<(String, JsonValue)>),
}

/// The mathematical model of a JSON value: strings as character sequences, arrays and
/// objects as sequences.
#[verifier::ext_equal]
pub enum JsonModel {
    Null,
    Bool(bool),
    Number(int),
    Decimal(Seq<char>),
    Str(Seq<char>),
    Array(Seq<JsonModel>),
    Object(Seq<(Seq<char>, JsonModel)>),
}

/// The model of a JSON value.
pub open spec fn json_model(v: JsonValue) -> JsonModel
    decreases v, 0int,
{
    match v {
        JsonValue::Null => JsonModel::Null,
        JsonValue::Bool(b) => JsonModel::Bool(b),
        JsonValue::Number(n) => JsonModel::Number(n as int),
        JsonValue::Decimal(s) => JsonModel::Decimal(s@),
        JsonValue::String(s) => JsonModel::Str(s@),
        JsonValue::Array(items) => JsonModel::Array(json_items_model(items@)),
        JsonValue::Object(members) => JsonModel::Object(json_members_model(members@)),
    }
}

/// The models of a sequence of JSON values.
pub open spec fn json_items_model(s: Seq<JsonValue>) -> Seq<JsonModel>
    decreases s, 1int,
{
    if s.len() == 0 {
        Seq::empty()
    } else {
        json_items_model(s.subrange(0, s.len() - 1)).push(json_model(s[s.len() - 1]))
    }
}

/// The models of a sequence of object members.
pub open spec fn json_members_model(s: Seq<(String, JsonValue)>) -> Seq<(Seq<char>, JsonModel)>
    decreases s, 1int,
{
    if s.len() == 0 {
        Seq::empty()
    } else {
        json_members_model(s.subrange(0, s.len() - 1)).push(
            (s[s.len() - 1].0@, json_model(s[s.len() - 1].1)),
        )
    }
}

/// The item models line up with the items.
pub proof fn lemma_json_items_model(s: Seq<JsonValue>)
    ensures
        json_items_model(s).len() == s.len(),
        forall|i: int| 0 <= i < s.len() ==> #[trigger] json_items_model(s)[i] == json_model(s[i]),
    decreases s.len(),
{
    if s.len() > 0 {
        lemma_json_items_model(s.subrange(0, s.len() - 1));
    }
}

/// The member models line up with the members.
pub proof fn lemma_json_members_model(s: Seq<(String, JsonValue)>)
    ensures
        json_members_model(s).len() == s.len(),
        forall|i: int|
            0 <= i < s.len() ==> #[trigger] json_members_model(s)[i] == (s[i].0@, json_model(s[i].1)),
    decreases s.len(),
{
    if s.len() > 0 {
        lemma_json_members_model(s.subrange(0, s.len() - 1));
    }
}

/// The JSON object of a list of named texts: one string member per pair, in order.
pub open spec fn text_members(pairs: Seq<(String, String)>) -> Seq<(Seq<char>, JsonModel)> {
    pairs.map_values(|e: (String, String)| (e.0@, JsonModel::Str(e.1@)))
}

/// A list of named texts (a header table's entries) as a JSON object of strings.
pub fn text_object(pairs: &[(String, String)]) -> (r: JsonValue)
    ensures
        r@ == JsonModel::Object(text_members(pairs@)),
{
    let mut members: Vec<(String, JsonValue)> = Vec::new();
    let mut i: usize = 0;
    while i < pairs.len()
        invariant
            i <= pairs@.len(),
            json_members_model(members@) == text_members(pairs@.take(i as int)),
        decreases pairs.len() - i,
    {
        let name = pairs[i].0.clone();
        let text = pairs[i].1.clone();
        let ghost before = members@;
        let ghost entry = (name@, JsonModel::Str(text@));
        let member = (name, JsonValue::String(text));
        assert((member.0@, json_model(member.1)) == entry);
        members.push(member);
        proof {
            assert(members@.subrange(0, members@.len() - 1) =~= before);
            assert(json_members_model(members@) == json_members_model(before).push(entry));
            assert(text_members(pairs@.take(i + 1)) =~= text_members(pairs@.take(i as int)).push(
                (pairs@[i as int].0@, JsonModel::Str(pairs@[i as int].1@)),
            ));
        }
        i = i + 1;
    }
    proof {
        assert(pairs@.take(i as int) =~= pairs@);
    }
    JsonValue::Object(members)
}

impl View for JsonValue {
    type V = JsonModel;

    open spec fn view(&self) -> JsonModel {
        json_model(*self)
    }
}

/// The value of the first member named `key`, if any.
pub open spec fn members_get(members: Seq<(Seq<char>, JsonModel)>, key: Seq<char>) -> Option<JsonModel>
    decreases members.len(),
{
    if members.len() == 0 {
        None
    } else if members[0].0 == key {
        Some(members[0].1)
    } else {
        members_get(members.drop_first(), key)
    }
}

/// `value.get(key)`: the member of an object, `None` for every other value.
pub open spec fn json_get(value: JsonModel, key: Seq<char>) -> Option<JsonModel> {
    match value {
        JsonModel::Object(members) => members_get(members, key),
        _ => None,
    }
}

/// `value.as_u64()`: a non-negative integer that fits in `u64`.
pub open spec fn json_as_u64(value: JsonModel) -> Option<u64> {
    match value {
        JsonModel::Number(n) => if 0 <= n && n <= u64::MAX {
            Some(n as u64)
        } else {
            None
        },
        _ => None,
    }
}

/// `value.as_str()`: the text of a string value.
pub open spec fn json_as_str(value: JsonModel) -> Option<Seq<char>> {
    match value {
        JsonModel::Str(s) => Some(s),
        _ => None,
    }
}

/// An optional string as JSON: its text, or `null`.
pub open spec fn opt_str_json(o: Option<String>) -> JsonModel {
    match o {
        Some(s) => JsonModel::Str(s@),
        None => JsonModel::Null,
    }
}

/// An optional number as JSON: the number, or `null`.
pub open spec fn opt_num_json(o: Option<u64>) -> JsonModel {
    match o {
        Some(n) => JsonModel::Number(n as int),
        None => JsonModel::Null,
    }
}

/// A copy of `v`.
pub fn clone_json(v: &JsonValue) -> (r: JsonValue)
    ensures
        r@ == v@,
    decreases v,
{
    match v {
        JsonValue::Null => JsonValue::Null,
        JsonValue::Bool(b) => JsonValue::Bool(*b),
        JsonValue::Number(n) => JsonValue::Number(*n),
        JsonValue::Decimal(s) => JsonValue::Decimal(s.clone()),
        JsonValue::String(s) => JsonValue::String(s.clone()),
        JsonValue::Array(items) => {
            let mut out: Vec<JsonValue> = Vec::new();
            let mut i: usize = 0;
            while i < items.len()
                invariant
                    *v == JsonValue::Array(*items),
                    i <= items.len(),
                    out@.len() == i,
                    forall|j: int| 0 <= j < i ==> (#[trigger] out@[j])@ == items@[j]@,
                decreases items.len() - i,
            {
                proof {
                    assert(decreases_to!(*v => (*v)->Array_0));
                    assert(decreases_to!(*items => items@[i as int]));
                }
                let c = clone_json(&items[i]);
                out.push(c);
                i = i + 1;
            }
            proof {
                lemma_json_items_model(out@);
                lemma_json_items_model(items@);
                assert(json_items_model(out@) =~= json_items_model(items@));
            }
            let r = JsonValue::Array(out);
            assert(r@ =~= v@);
            r
        },
        JsonValue::Object(members) => {
            let mut out: Vec<(String, JsonValue)> = Vec::new();
            let mut i: usize = 0;
            while i < members.len()
                invariant
                    *v == JsonValue::Object(*members),
                    i <= members.len(),
                    out@.len() == i,
                    forall|j: int|
                        0 <= j < i ==> (#[trigger] out@[j]).0@ == members@[j].0@ && out@[j].1@
                            == members@[j].1@,
                decreases members.len() - i,
            {
                proof {
                    assert(decreases_to!(*v => (*v)->Object_0));
                    assert(decreases_to!(*members => members@[i as int]));
                    assert(decreases_to!(members@[i as int] => members@[i as int].1));
                }
                let k = members[i].0.clone();
                let c = clone_json(&members[i].1);
                out.push((k, c));
                i = i + 1;
            }
            proof {
                lemma_json_members_model(out@);
                lemma_json_members_model(members@);
                assert(json_members_model(out@) =~= json_members_model(members@));
            }
            let r = JsonValue::Object(out);
            assert(r@ =~= v@);
            r
        },
    }
}

impl Clone for JsonValue {
    fn clone(&self) -> (r: Self)
        ensures
            r@ == self@,
    {
        clone_json(self)
    }
}

impl JsonValue {
    /// An optional string as JSON: its text, or `null`.
    pub fn from_opt_str(o: &Option<String>) -> (r: JsonValue)
        ensures
            r@ == opt_str_json(*o),
    {
        match o {
            Some(s) => JsonValue::String(s.clone()),
            None => JsonValue::Null,
        }
    }

    /// An optional number as JSON: the number, or `null`.
    pub fn from_opt_num(o: Option<u64>) -> (r: JsonValue)
        ensures
            r@ == opt_num_json(o),
    {
        match o {
            Some(n) => JsonValue::Number(n as i128),
            None => JsonValue::Null,
        }
    }

    /// An object with the given members, in order.
    pub fn object(members: Vec<(String, JsonValue)>) -> (r: JsonValue)
        ensures
            r@ == JsonModel::Object(json_members_model(members@)),
    {
        JsonValue::Object(members)
    }

    /// An object with no members.
    pub fn empty_object() -> (r: JsonValue)
        ensures
            r@ == JsonModel::Object(Seq::empty()),
    {
        JsonValue::Object(Vec::new())
    }

    /// The member named `key` of an object; `None` for a missing member or a non-object.
    pub fn get(&self, key: &str) -> (r: Option<&JsonValue>)
        ensures
            r matches Some(v) ==> json_get(self@, key@) == Some(v@),
            r is None ==> json_get(self@, key@) is None,
    {
        match self {
            JsonValue::Object(members) => {
                let mut i: usize = 0;
                let ghost ms = json_members_model(members@);
                proof {
                    lemma_json_members_model(members@);
                    assert(ms.skip(0) =~= ms);
                }
                while i < members.len()
                    invariant
                        *self == JsonValue::Object(*members),
                        ms == json_members_model(members@),
                        ms.len() == members@.len(),
                        forall|j: int| 0 <= j < ms.len() ==> #[trigger] ms[j] == (members@[j].0@, json_model(members@[j].1)),
                        i <= members.len(),
                        members_get(ms, key@) == members_get(ms.skip(i as int), key@),
                    decreases members.len() - i,
                {
                    assert(ms.skip(i as int).drop_first() =~= ms.skip(i + 1));
                    assert(ms.skip(i as int)[0] == ms[i as int]);
                    if str_eq(members[i].0.as_str(), key) {
                        return Some(&members[i].1);
                    }
                    i = i + 1;
                }
                None
            },
            _ => None,
        }
    }

    /// The value as a `u64`, when it is a non-negative integer that fits.
    pub fn as_u64(&self) -> (r: Option<u64>)
        ensures
            r == json_as_u64(self@),
    {
        match self {
            JsonValue::Number(n) => if 0 <= *n && *n <= 18446744073709551615i128 {
                Some(*n as u64)
            } else {
                None
            },
            _ => None,
        }
    }

    /// The text of a string value.
    pub fn as_str(&self) -> (r: Option<&str>)
        ensures
            r matches Some(s) ==> json_as_str(self@) == Some(s@),
            r is None ==> json_as_str(self@) is None,
    {
        match self {
            JsonValue::String(s) => Some(s.as_str()),
            _ => None,
        }
    }

    /// Whether the value is a string.
    pub fn is_string(&self) -> (r: bool)
        ensures
            r == (self@ is Str),
    {
        match self {
            JsonValue::String(_) => true,
            _ => false,
        }
    }

    /// Whether the value is an object.
    pub fn is_object(&self) -> (r: bool)
        ensures
            r == (self@ is Object),
    {
        match self {
            JsonValue::Object(_) => true,
            _ => false,
        }
    }

    /// Whether the value is an array.
    pub fn is_array(&self) -> (r: bool)
        ensures
            r == (self@ is Array),
    {
        match self {
            JsonValue::Array(_) => true,
            _ => false,
        }
    }
}

} // verus!
