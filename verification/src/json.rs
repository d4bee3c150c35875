//! A JSON document model: the values that JSON-RPC messages are made of.

use vstd::prelude::*;

verus! {

/// A JSON value. Numbers that fit in an `i64` are held as integers; any other
/// JSON number is held as its JSON text.
#[derive(Debug, PartialEq)]
pub enum JsonValue {
    Null,
    Bool(bool),
    /// A number that fits in an `i64`.
    Int(i64),
    /// Any other number, as its JSON text.
    Number(String),
    Str(String),
    Array(Vec<JsonValue>),
    /// An object's members, in order.
    Object(Vec<(String, JsonValue)>),
}

/// The mathematical view of a JSON value.
#[verifier::ext_equal]
pub enum Json {
    Null,
    Bool(bool),
    Int(int),
    Number(Seq<char>),
    Str(Seq<char>),
    Array(Seq<Json>),
    Object(Seq<(Seq<char>, Json)>),
}

impl JsonValue {
    /// The view: strings by their characters, integers as `int`, and arrays
    /// and objects member by member.
    pub open spec fn spec_view(&self) -> Json
        decreases self,
    {
        match self {
            JsonValue::Null => Json::Null,
            JsonValue::Bool(b) => Json::Bool(*b),
            JsonValue::Int(n) => Json::Int(*n as int),
            JsonValue::Number(t) => Json::Number(t@),
            JsonValue::Str(s) => Json::Str(s@),
            JsonValue::Array(items) => Json::Array(
                Seq::new(
                    items@.len(),
                    |i: int|
                        if 0 <= i < items@.len() {
                            proof {
                                assert(decreases_to!(items@ => items@[i]));
                            }
                            items@[i].spec_view()
                        } else {
                            Json::Null
                        },
                ),
            ),
            JsonValue::Object(entries) => Json::Object(
                Seq::new(
                    entries@.len(),
                    |i: int|
                        if 0 <= i < entries@.len() {
                            proof {
                                assert(decreases_to!(entries@ => entries@[i]));
                            }
                            (entries@[i].0@, entries@[i].1.spec_view())
                        } else {
                            (Seq::empty(), Json::Null)
                        },
                ),
            ),
        }
    }
}

impl View for JsonValue {
    type V = Json;

    open spec fn view(&self) -> Json {
        self.spec_view()
    }
}

/// The view of the entries of a JSON object.
pub open spec fn entries_view(entries: Seq<(String, JsonValue)>) -> Seq<(Seq<char>, Json)> {
    Seq::new(entries.len(), |i: int| (entries[i].0@, entries[i].1@))
}

/// The view of the items of a JSON array.
pub open spec fn items_view(items: Seq<JsonValue>) -> Seq<Json> {
    Seq::new(items.len(), |i: int| items[i]@)
}

/// The first value stored under `key` among `entries`.
pub open spec fn lookup(entries: Seq<(Seq<char>, Json)>, key: Seq<char>) -> Option<Json>
    decreases entries.len(),
{
    if entries.len() == 0 {
        None
    } else if entries[0].0 == key {
        Some(entries[0].1)
    } else {
        lookup(entries.drop_first(), key)
    }
}

/// The member `key` of a JSON object; `None` for a missing key or a value
/// that is not an object.
pub open spec fn member(value: Json, key: Seq<char>) -> Option<Json> {
    match value {
        Json::Object(entries) => lookup(entries, key),
        _ => None,
    }
}

/// The text of a JSON string value; `None` for a missing or non-string value.
pub open spec fn text_of(value: Option<Json>) -> Option<Seq<char>> {
    match value {
        Some(Json::Str(s)) => Some(s),
        _ => None,
    }
}

/// `entries` without the entries stored under `key`.
pub open spec fn drop_key(entries: Seq<(Seq<char>, Json)>, key: Seq<char>) -> Seq<(Seq<char>, Json)>
    decreases entries.len(),
{
    if entries.len() == 0 {
        entries
    } else if entries[0].0 == key {
        drop_key(entries.drop_first(), key)
    } else {
        seq![entries[0]] + drop_key(entries.drop_first(), key)
    }
}

/// `entries` with every value stored under `key` replaced by `value`.
pub open spec fn set_key(entries: Seq<(Seq<char>, Json)>, key: Seq<char>, value: Json) -> Seq<
    (Seq<char>, Json),
>
    decreases entries.len(),
{
    if entries.len() == 0 {
        entries
    } else if entries[0].0 == key {
        seq![(key, value)] + set_key(entries.drop_first(), key, value)
    } else {
        seq![entries[0]] + set_key(entries.drop_first(), key, value)
    }
}

/// The object `value` without its member `key`; any other value unchanged.
pub open spec fn without_member(value: Json, key: Seq<char>) -> Json {
    match value {
        Json::Object(entries) => Json::Object(drop_key(entries, key)),
        _ => value,
    }
}

/// The object `value` with its member `key`, where it has one, set to
/// `member_value`; any other value unchanged.
pub open spec fn replace_member(value: Json, key: Seq<char>, member_value: Json) -> Json {
    match value {
        Json::Object(entries) => Json::Object(set_key(entries, key, member_value)),
        _ => value,
    }
}

/// Removing `key` removes it and leaves every other member as it was.
pub proof fn lemma_without_member(value: Json, key: Seq<char>, other: Seq<char>)
    ensures
        member(without_member(value, key), key) is None,
        other != key ==> member(without_member(value, key), other) == member(value, other),
{
    if let Json::Object(entries) = value {
        lemma_lookup_drop_key(entries, key, other);
    }
}

/// Setting `key` changes what `key` reads, where it is present, and leaves
/// every other member as it was.
pub proof fn lemma_replace_member(value: Json, key: Seq<char>, member_value: Json, other: Seq<char>)
    ensures
        member(value, key) is Some ==> member(replace_member(value, key, member_value), key) == Some(
            member_value,
        ),
        other != key ==> member(replace_member(value, key, member_value), other) == member(value, other),
        (replace_member(value, key, member_value) is Object) == (value is Object),
{
    if let Json::Object(entries) = value {
        lemma_lookup_set_key(entries, key, member_value, other);
    }
}

proof fn lemma_lookup_drop_key(entries: Seq<(Seq<char>, Json)>, key: Seq<char>, other: Seq<char>)
    ensures
        lookup(drop_key(entries, key), key) is None,
        other != key ==> lookup(drop_key(entries, key), other) == lookup(entries, other),
    decreases entries.len(),
{
    if entries.len() > 0 {
        lemma_lookup_drop_key(entries.drop_first(), key, other);
        if entries[0].0 != key {
            let d = seq![entries[0]] + drop_key(entries.drop_first(), key);
            assert(d.drop_first() =~= drop_key(entries.drop_first(), key));
        }
    }
}

proof fn lemma_lookup_set_key(
    entries: Seq<(Seq<char>, Json)>,
    key: Seq<char>,
    value: Json,
    other: Seq<char>,
)
    ensures
        lookup(entries, key) is Some ==> lookup(set_key(entries, key, value), key) == Some(value),
        other != key ==> lookup(set_key(entries, key, value), other) == lookup(entries, other),
    decreases entries.len(),
{
    if entries.len() > 0 {
        lemma_lookup_set_key(entries.drop_first(), key, value, other);
        let head = if entries[0].0 == key {
            (key, value)
        } else {
            entries[0]
        };
        let d = seq![head] + set_key(entries.drop_first(), key, value);
        assert(d.drop_first() =~= set_key(entries.drop_first(), key, value));
    }
}

/// The first entry stored under `key` is the one that `lookup` finds.
pub proof fn lemma_lookup_first_match(entries: Seq<(Seq<char>, Json)>, key: Seq<char>, i: int)
    requires
        0 <= i < entries.len(),
        entries[i].0 == key,
        forall|j: int| 0 <= j < i ==> entries[j].0 != key,
    ensures
        lookup(entries, key) == Some(entries[i].1),
{
    lemma_lookup_prefix(entries, key, i);
    assert(entries.subrange(i, entries.len() as int)[0] == entries[i]);
}

proof fn lemma_lookup_prefix(entries: Seq<(Seq<char>, Json)>, key: Seq<char>, i: int)
    requires
        0 <= i <= entries.len(),
        forall|j: int| 0 <= j < i ==> entries[j].0 != key,
    ensures
        lookup(entries, key) == lookup(entries.subrange(i, entries.len() as int), key),
    decreases i,
{
    if i > 0 {
        lemma_lookup_prefix(entries.drop_first(), key, i - 1);
        assert(entries.drop_first().subrange(i - 1, entries.drop_first().len() as int)
            =~= entries.subrange(i, entries.len() as int));
    } else {
        assert(entries.subrange(0, entries.len() as int) =~= entries);
    }
}

/// A JSON string value holding the characters of `s`.
pub fn string_value(s: &str) -> (r: JsonValue)
    ensures
        r@ == Json::Str(s@),
{
    JsonValue::Str(String::from_str(s))
}

/// An object member `key: value`.
pub fn member_entry(key: &str, value: JsonValue) -> (r: (String, JsonValue))
    ensures
        r.0@ == key@,
        r.1@ == value@,
{
    (String::from_str(key), value)
}

/// A JSON object with the given members, in order.
pub fn object_value(entries: Vec<(String, JsonValue)>) -> (r: JsonValue)
    ensures
        r@ == Json::Object(entries_view(entries@)),
{
    proof {
        JsonValue::lemma_object_view(entries);
    }
    JsonValue::Object(entries)
}

/// A JSON array with the given items, in order.
pub fn array_value(items: Vec<JsonValue>) -> (r: JsonValue)
    ensures
        r@ == Json::Array(items_view(items@)),
{
    proof {
        JsonValue::lemma_array_view(items);
    }
    JsonValue::Array(items)
}

/// The empty JSON object `{}`.
pub fn object0() -> (r: JsonValue)
    ensures
        r@ == Json::Object(seq![]),
{
    let members: Vec<(String, JsonValue)> = Vec::new();
    let r = object_value(members);
    assert(entries_view(members@) =~= seq![]);
    r
}

/// A JSON object with one member.
pub fn object1(a: (String, JsonValue)) -> (r: JsonValue)
    ensures
        r@ == Json::Object(seq![(a.0@, a.1@)]),
{
    let ghost va = (a.0@, a.1@);
    let members = vec![a];
    let r = object_value(members);
    assert(entries_view(members@) =~= seq![va]);
    r
}

/// A JSON object with two members, in order.
pub fn object2(a: (String, JsonValue), b: (String, JsonValue)) -> (r: JsonValue)
    ensures
        r@ == Json::Object(seq![(a.0@, a.1@), (b.0@, b.1@)]),
{
    let ghost va = (a.0@, a.1@);
    let ghost vb = (b.0@, b.1@);
    let members = vec![a, b];
    let r = object_value(members);
    assert(entries_view(members@) =~= seq![va, vb]);
    r
}

/// A JSON object with three members, in order.
pub fn object3(a: (String, JsonValue), b: (String, JsonValue), c: (String, JsonValue)) -> (r:
    JsonValue)
    ensures
        r@ == Json::Object(seq![(a.0@, a.1@), (b.0@, b.1@), (c.0@, c.1@)]),
{
    let ghost va = (a.0@, a.1@);
    let ghost vb = (b.0@, b.1@);
    let ghost vc = (c.0@, c.1@);
    let members = vec![a, b, c];
    let r = object_value(members);
    assert(entries_view(members@) =~= seq![va, vb, vc]);
    r
}

/// A JSON object with four members, in order.
pub fn object4(
    a: (String, JsonValue),
    b: (String, JsonValue),
    c: (String, JsonValue),
    d: (String, JsonValue),
) -> (r: JsonValue)
    ensures
        r@ == Json::Object(seq![(a.0@, a.1@), (b.0@, b.1@), (c.0@, c.1@), (d.0@, d.1@)]),
{
    let ghost va = (a.0@, a.1@);
    let ghost vb = (b.0@, b.1@);
    let ghost vc = (c.0@, c.1@);
    let ghost vd = (d.0@, d.1@);
    let members = vec![a, b, c, d];
    let r = object_value(members);
    assert(entries_view(members@) =~= seq![va, vb, vc, vd]);
    r
}

impl JsonValue {
    /// The view of an object built from `entries`.
    pub proof fn lemma_object_view(entries: Vec<(String, JsonValue)>)
        ensures
            JsonValue::Object(entries)@ == Json::Object(entries_view(entries@)),
    {
        let v = JsonValue::Object(entries);
        match v.spec_view() {
            Json::Object(s) => {
                assert(s =~= entries_view(entries@));
            },
            _ => {},
        }
    }

    /// The view of an array built from `items`.
    pub proof fn lemma_array_view(items: Vec<JsonValue>)
        ensures
            JsonValue::Array(items)@ == Json::Array(items_view(items@)),
    {
        let v = JsonValue::Array(items);
        match v.spec_view() {
            Json::Array(s) => {
                assert(s =~= items_view(items@));
            },
            _ => {},
        }
    }

    /// Whether the value is a JSON object.
    pub fn is_object(&self) -> (r: bool)
        ensures
            r == (self@ is Object),
    {
        match self {
            JsonValue::Object(_) => true,
            _ => false,
        }
    }

    /// The member `key` of this value, if it is an object that has one.
    pub fn get(&self, key: &str) -> (r: Option<&JsonValue>)
        ensures
            match r {
                Some(v) => member(self@, key@) == Some(v@),
                None => member(self@, key@) is None,
            },
    {
        match self {
            JsonValue::Object(entries) => {
                proof {
                    JsonValue::lemma_object_view(*entries);
                }
                let ghost es = entries_view(entries@);
                let mut i: usize = 0;
                while i < entries.len()
                    invariant
                        self@ == Json::Object(es),
                        es == entries_view(entries@),
                        0 <= i <= entries.len(),
                        forall|j: int| 0 <= j < i ==> es[j].0 != key@,
                    decreases entries.len() - i,
                {
                    if crate::text::str_eq(entries[i].0.as_str(), key) {
                        proof {
                            lemma_lookup_prefix(es, key@, i as int);
                            assert(es.subrange(i as int, es.len() as int)[0] == es[i as int]);
                        }
                        return Some(&entries[i].1);
                    }
                    i = i + 1;
                }
                proof {
                    lemma_lookup_prefix(es, key@, i as int);
                }
                None
            },
            _ => None,
        }
    }

    /// The text of this value, if it is a JSON string.
    pub fn as_str(&self) -> (r: Option<&str>)
        ensures
            match r {
                Some(s) => self@ == Json::Str(s@),
                None => !(self@ is Str),
            },
    {
        match self {
            JsonValue::Str(s) => Some(s.as_str()),
            _ => None,
        }
    }

    /// A copy of this value.
    #[verifier::loop_isolation(false)]
    pub fn deep_clone(&self) -> (r: JsonValue)
        ensures
            r@ == self@,
        decreases self,
    {
        match self {
            JsonValue::Null => JsonValue::Null,
            JsonValue::Bool(b) => JsonValue::Bool(*b),
            JsonValue::Int(n) => JsonValue::Int(*n),
            JsonValue::Number(t) => JsonValue::Number(t.clone()),
            JsonValue::Str(s) => JsonValue::Str(s.clone()),
            JsonValue::Array(items) => {
                let mut out: Vec<JsonValue> = Vec::new();
                let mut i: usize = 0;
                while i < items.len()
                    invariant
                        0 <= i <= items.len(),
                        out@.len() == i,
                        forall|j: int| 0 <= j < i ==> #[trigger] out@[j]@ == items@[j]@,
                    decreases items.len() - i,
                {
                    proof {
                        assert(decreases_to!(items@ => items@[i as int]));
                    }
                    out.push(items[i].deep_clone());
                    i = i + 1;
                }
                proof {
                    JsonValue::lemma_array_view(*items);
                    JsonValue::lemma_array_view(out);
                    assert(items_view(out@) =~= items_view(items@));
                }
                JsonValue::Array(out)
            },
            JsonValue::Object(entries) => {
                let mut out: Vec<(String, JsonValue)> = Vec::new();
                let mut i: usize = 0;
                while i < entries.len()
                    invariant
                        0 <= i <= entries.len(),
                        out@.len() == i,
                        forall|j: int| 0 <= j < i ==> #[trigger] out@[j].0@ == entries@[j].0@
                            && out@[j].1@ == entries@[j].1@,
                    decreases entries.len() - i,
                {
                    proof {
                        assert(decreases_to!(entries@ => entries@[i as int]));
                    }
                    let value = entries[i].1.deep_clone();
                    out.push((entries[i].0.clone(), value));
                    i = i + 1;
                }
                proof {
                    JsonValue::lemma_object_view(*entries);
                    JsonValue::lemma_object_view(out);
                    assert(entries_view(out@) =~= entries_view(entries@));
                }
                JsonValue::Object(out)
            },
        }
    }
}

} // verus!
