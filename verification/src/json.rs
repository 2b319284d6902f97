//! JSON values as the library reads and builds them, with their compact
//! text form (the form `serde_json` prints with `to_string`).
//!
//! Numbers are held by their decimal text, exactly as the wire carried them.
use vstd::prelude::*;

use crate::text::{format_i64, int_text, str_eq};

verus! {

/// A JSON value.
///
/// An object keeps its members in order; a key is looked up by its first
/// occurrence.
#[derive(Debug)]
pub enum Json {
    /// `null`
    Null,
    /// `true` / `false`
    Bool(bool),
    /// A number, by its text (e.g. `42`, `-1`, `10.0`).
    Number(String),
    /// A string.
    String(String),
    /// An array.
    Array(Vec<Json>),
    /// An object: `(key, value)` members in order.
    Object(Vec<(String, Json)>),
}

/// The mathematical value of a [`Json`]: the same shape, with sequences in
/// place of vectors and strings.
#[verifier::ext_equal]
pub enum JsonV {
    Null,
    Bool(bool),
    Number(Seq<char>),
    String(Seq<char>),
    Array(Seq<JsonV>),
    Object(Seq<(Seq<char>, JsonV)>),
}

/// The view of one value.
pub open spec fn jv(v: Json) -> JsonV
    decreases v, 1nat,
{
    match v {
        Json::Null => JsonV::Null,
        Json::Bool(b) => JsonV::Bool(b),
        Json::Number(n) => JsonV::Number(n@),
        Json::String(s) => JsonV::String(s@),
        Json::Array(items) => JsonV::Array(jv_items(items@)),
        Json::Object(entries) => JsonV::Object(jv_entries(entries@)),
    }
}

/// The views of a sequence of values.
pub open spec fn jv_items(s: Seq<Json>) -> Seq<JsonV>
    decreases s, 0nat,
{
    if s.len() == 0 {
        seq![]
    } else {
        jv_items(s.drop_last()).push(jv(s.last()))
    }
}

/// The views of a sequence of object members.
pub open spec fn jv_entries(s: Seq<(String, Json)>) -> Seq<(Seq<char>, JsonV)>
    decreases s, 0nat,
{
    if s.len() == 0 {
        seq![]
    } else {
        jv_entries(s.drop_last()).push((s.last().0@, jv(s.last().1)))
    }
}

impl View for Json {
    type V = JsonV;

    open spec fn view(&self) -> JsonV {
        jv(*self)
    }
}

/// The views of items are taken element by element.
pub proof fn lemma_jv_items(s: Seq<Json>)
    ensures
        jv_items(s).len() == s.len(),
        forall|i: int| 0 <= i < s.len() ==> #[trigger] jv_items(s)[i] == jv(s[i]),
    decreases s.len(),
{
    if s.len() > 0 {
        lemma_jv_items(s.drop_last());
    }
}

/// The views of members are taken member by member.
pub proof fn lemma_jv_entries(s: Seq<(String, Json)>)
    ensures
        jv_entries(s).len() == s.len(),
        forall|i: int|
            0 <= i < s.len() ==> #[trigger] jv_entries(s)[i] == (s[i].0@, jv(s[i].1)),
    decreases s.len(),
{
    if s.len() > 0 {
        lemma_jv_entries(s.drop_last());
    }
}

// ---------------------------------------------------------------------------
// Compact text
// ---------------------------------------------------------------------------

/// The compact JSON text serde_json prints for a value: `to_string` of the
/// equal `serde_json::Value` (object members in serde_json's map order,
/// numbers as serde_json prints them).
pub uninterp spec fn json_text(v: JsonV) -> Seq<char>;


// ---------------------------------------------------------------------------
// Object members
// ---------------------------------------------------------------------------

/// Position of the first member named `key`.
pub open spec fn key_pos(e: Seq<(Seq<char>, JsonV)>, key: Seq<char>) -> Option<nat>
    decreases e.len(),
{
    if e.len() == 0 {
        None
    } else {
        match key_pos(e.drop_last(), key) {
            Some(i) => Some(i),
            None => if e.last().0 == key {
                Some((e.len() - 1) as nat)
            } else {
                None
            },
        }
    }
}

/// Value of the first member named `key`.
pub open spec fn lookup(e: Seq<(Seq<char>, JsonV)>, key: Seq<char>) -> Option<JsonV> {
    match key_pos(e, key) {
        Some(i) => Some(e[i as int].1),
        None => None,
    }
}

/// Value of member `key` of an object; `None` for other values.
pub open spec fn obj_get(v: JsonV, key: Seq<char>) -> Option<JsonV> {
    match v {
        JsonV::Object(e) => lookup(e, key),
        _ => None,
    }
}

/// Members after setting `key` to `val`: the first member of that name is
/// replaced in place, otherwise the member is appended.
pub open spec fn insert_entry(e: Seq<(Seq<char>, JsonV)>, key: Seq<char>, val: JsonV) -> Seq<
    (Seq<char>, JsonV),
> {
    match key_pos(e, key) {
        Some(i) => e.update(i as int, (key, val)),
        None => e.push((key, val)),
    }
}

/// Members after removing the first member named `key`.
pub open spec fn remove_entry(e: Seq<(Seq<char>, JsonV)>, key: Seq<char>) -> Seq<
    (Seq<char>, JsonV),
> {
    match key_pos(e, key) {
        Some(i) => e.remove(i as int),
        None => e,
    }
}

/// `key_pos` finds a member of that name, and none before it.
pub proof fn lemma_key_pos(e: Seq<(Seq<char>, JsonV)>, key: Seq<char>)
    ensures
        key_pos(e, key) matches Some(i) ==> {
            &&& i < e.len()
            &&& e[i as int].0 == key
            &&& forall|j: int| 0 <= j < i ==> e[j].0 != key
        },
        key_pos(e, key) is None ==> forall|j: int| 0 <= j < e.len() ==> e[j].0 != key,
    decreases e.len(),
{
    if e.len() > 0 {
        let d = e.drop_last();
        lemma_key_pos(d, key);
        assert forall|j: int| 0 <= j < d.len() implies #[trigger] d[j] == e[j] by {}
        match key_pos(d, key) {
            Some(i) => {
                assert(e[i as int] == d[i as int]);
                assert forall|j: int| 0 <= j < i implies e[j].0 != key by {
                    assert(e[j] == d[j]);
                }
            },
            None => {
                assert(e.last() == e[e.len() - 1]);
                assert forall|j: int| 0 <= j < e.len() - 1 implies e[j].0 != key by {
                    assert(e[j] == d[j]);
                }
            },
        }
    }
}

/// A member found in a prefix is the one found in the whole.
proof fn lemma_key_pos_prefix(e: Seq<(Seq<char>, JsonV)>, key: Seq<char>, n: int)
    requires
        0 <= n <= e.len(),
        key_pos(e.take(n), key) is Some,
    ensures
        key_pos(e, key) == key_pos(e.take(n), key),
    decreases e.len() - n,
{
    if n < e.len() {
        assert(e.drop_last().take(n) == e.take(n));
        lemma_key_pos_prefix(e.drop_last(), key, n);
    } else {
        assert(e.take(n) == e);
    }
}

/// Index of the first member named `key`.
pub fn find_key(entries: &Vec<(String, Json)>, key: &str) -> (r: Option<usize>)
    ensures
        r matches Some(i) ==> key_pos(jv_entries(entries@), key@) == Some(i as nat),
        r is None ==> key_pos(jv_entries(entries@), key@) is None,
{
    let ghost ev = jv_entries(entries@);
    proof {
        lemma_jv_entries(entries@);
        assert(ev.take(0) =~= Seq::<(Seq<char>, JsonV)>::empty());
    }
    let mut i: usize = 0;
    while i < entries.len()
        invariant
            i <= entries.len(),
            ev == jv_entries(entries@),
            ev.len() == entries@.len(),
            forall|j: int| 0 <= j < entries@.len() ==> #[trigger] ev[j] == (entries@[j].0@, jv(entries@[j].1)),
            key_pos(ev.take(i as int), key@) is None,
        decreases entries.len() - i,
    {
        assert(ev.take(i + 1).drop_last() == ev.take(i as int));
        if str_eq(entries[i].0.as_str(), key) {
            proof {
                assert(ev[i as int].0 == key@);
                lemma_key_pos_prefix(ev, key@, i + 1);
            }
            return Some(i);
        }
        i = i + 1;
    }
    assert(ev.take(i as int) == ev);
    None
}

impl Json {
    /// Member `key` of an object (`None` when absent or not an object).
    pub fn get(&self, key: &str) -> (r: Option<&Json>)
        ensures
            r matches Some(x) ==> obj_get(self@, key@) == Some(x@),
            r is None ==> obj_get(self@, key@) is None,
    {
        match self {
            Json::Object(entries) => {
                proof {
                    lemma_jv_entries(entries@);
                }
                match find_key(entries, key) {
                    Some(i) => {
                        proof {
                            lemma_key_pos(jv_entries(entries@), key@);
                        }
                        Some(&entries[i].1)
                    },
                    None => None,
                }
            },
            _ => None,
        }
    }

    /// Whether this is an object.
    pub fn is_object(&self) -> (r: bool)
        ensures
            r == (self@ is Object),
    {
        match self {
            Json::Object(_) => true,
            _ => false,
        }
    }

    /// Whether this is `null`.
    pub fn is_null(&self) -> (r: bool)
        ensures
            r == (self@ is Null),
    {
        match self {
            Json::Null => true,
            _ => false,
        }
    }
}

/// Sets member `key` to `val` (replacing the first member of that name).
pub fn insert_member(entries: &mut Vec<(String, Json)>, key: String, val: Json)
    ensures
        jv_entries(final(entries)@) == insert_entry(jv_entries(old(entries)@), key@, val@),
{
    proof {
        lemma_jv_entries(old(entries)@);
    }
    let ghost kv = key@;
    let ghost vv = val@;
    proof {
        lemma_key_pos(jv_entries(old(entries)@), key@);
    }
    match find_key(entries, key.as_str()) {
        Some(i) => {
            entries.set(i, (key, val));
            proof {
                lemma_jv_entries(entries@);
                assert(jv_entries(entries@) =~= jv_entries(old(entries)@).update(i as int, (kv, vv)));
            }
        },
        None => {
            entries.push((key, val));
            proof {
                lemma_jv_entries(entries@);
                assert(jv_entries(entries@) =~= jv_entries(old(entries)@).push((kv, vv)));
            }
        },
    }
}

/// Removes the first member named `key`, if any.
pub fn remove_member(entries: &mut Vec<(String, Json)>, key: &str)
    ensures
        jv_entries(final(entries)@) == remove_entry(jv_entries(old(entries)@), key@),
{
    proof {
        lemma_jv_entries(old(entries)@);
    }
    proof {
        lemma_key_pos(jv_entries(old(entries)@), key@);
    }
    match find_key(entries, key) {
        Some(i) => {
            entries.remove(i);
            proof {
                lemma_jv_entries(entries@);
                assert(jv_entries(entries@) =~= jv_entries(old(entries)@).remove(i as int));
            }
        },
        None => {},
    }
}


// ---------------------------------------------------------------------------
// Copies, constructors and text output
// ---------------------------------------------------------------------------

/// A deep copy of a value.
#[verifier::loop_isolation(false)]
pub fn clone_json(v: &Json) -> (r: Json)
    ensures
        r@ == v@,
    decreases v,
{
    match v {
        Json::Null => Json::Null,
        Json::Bool(b) => Json::Bool(*b),
        Json::Number(n) => Json::Number(n.clone()),
        Json::String(t) => Json::String(t.clone()),
        Json::Array(items) => {
            let mut out: Vec<Json> = Vec::new();
            let mut i: usize = 0;
            proof {
                lemma_jv_items(items@);
            }
            while i < items.len()
                invariant
                    i <= items.len(),
                    out@.len() == i,
                    forall|j: int| 0 <= j < i ==> #[trigger] jv(out@[j]) == jv(items@[j]),
                decreases items.len() - i,
            {
                proof {
                    assert(decreases_to!(*v => (*v)->Array_0));
                    assert(decreases_to!((*v)->Array_0 => (*v)->Array_0@));
                    assert(decreases_to!((*v)->Array_0@ => (*v)->Array_0@[i as int]));
                }
                let c = clone_json(&items[i]);
                out.push(c);
                i = i + 1;
            }
            proof {
                lemma_jv_items(out@);
                lemma_jv_items(items@);
                assert(jv_items(out@) =~= jv_items(items@));
            }
            Json::Array(out)
        },
        Json::Object(entries) => {
            let mut out: Vec<(String, Json)> = Vec::new();
            let mut i: usize = 0;
            while i < entries.len()
                invariant
                    i <= entries.len(),
                    out@.len() == i,
                    forall|j: int| 0 <= j < i ==> (#[trigger] out@[j]).0@ == entries@[j].0@,
                    forall|j: int| 0 <= j < i ==> jv((#[trigger] out@[j]).1) == jv(entries@[j].1),
                decreases entries.len() - i,
            {
                proof {
                    assert(decreases_to!(*v => (*v)->Object_0));
                    assert(decreases_to!((*v)->Object_0 => (*v)->Object_0@));
                    assert(decreases_to!((*v)->Object_0@ => (*v)->Object_0@[i as int]));
                    assert(decreases_to!((*v)->Object_0@[i as int] => (*v)->Object_0@[i as int].1));
                }
                let c = clone_json(&entries[i].1);
                out.push((entries[i].0.clone(), c));
                i = i + 1;
            }
            proof {
                lemma_jv_entries(out@);
                lemma_jv_entries(entries@);
                assert(jv_entries(out@) =~= jv_entries(entries@));
            }
            Json::Object(out)
        },
    }
}

/// A JSON number for an integer.
pub fn json_i64(n: i64) -> (r: Json)
    ensures
        r@ == JsonV::Number(int_text(n as int)),
{
    Json::Number(format_i64(n))
}

/// A JSON string.
pub fn json_str(s: &str) -> (r: Json)
    ensures
        r@ == JsonV::String(s@),
{
    Json::String(s.to_owned())
}

/// A `Json` as the equal `serde_json::Value`, value for value (a number
/// from its text; a text that is not a JSON number, which the library never
/// builds, as a string). Only `print_json` calls it.
#[verifier::external_body]
fn json_to_value(v: &Json) -> serde_json::Value {
    match v {
        Json::Null => serde_json::Value::Null,
        Json::Bool(b) => serde_json::Value::Bool(*b),
        Json::Number(t) => match t.parse::<serde_json::Number>() {
            Ok(n) => serde_json::Value::Number(n),
            Err(_) => serde_json::Value::String(t.clone()),
        },
        Json::String(s) => serde_json::Value::String(s.clone()),
        Json::Array(items) => serde_json::Value::Array(items.iter().map(json_to_value).collect()),
        Json::Object(e) => serde_json::Value::Object(e.iter().map(|(k, x)| (k.clone(), json_to_value(x))).collect()),
    }
}

/// `serde_json::to_string` of the equal `serde_json::Value`: its compact
/// text. Writing into memory cannot fail, so the error arm is never taken.
#[verifier::external_body]
fn print_json(v: &Json) -> (r: String)
    ensures
        r@ == json_text(v@),
{
    match serde_json::to_string(&json_to_value(v)) {
        Ok(t) => t,
        Err(_) => String::new(),
    }
}

impl Json {
    /// The compact JSON text of this value (`serde_json::Value`'s `to_string`).
    pub fn to_text(&self) -> (r: String)
        ensures
            r@ == json_text(self@),
    {
        print_json(self)
    }
}


/// After setting `key`, looking it up gives the new value, and every other
/// key keeps its value.
pub proof fn lemma_insert_lookup(e: Seq<(Seq<char>, JsonV)>, key: Seq<char>, val: JsonV, other: Seq<char>)
    ensures
        lookup(insert_entry(e, key, val), key) == Some(val),
        other != key ==> lookup(insert_entry(e, key, val), other) == lookup(e, other),
{
    let f = insert_entry(e, key, val);
    lemma_key_pos(e, key);
    lemma_key_pos(f, key);
    lemma_key_pos(e, other);
    lemma_key_pos(f, other);
    match key_pos(e, key) {
        Some(i) => {
            assert(f[i as int] == (key, val));
            assert forall|j: int| 0 <= j < f.len() && j != i implies #[trigger] f[j] == e[j] by {}
            match key_pos(f, key) {
                Some(m) => {
                    if m < i {
                        assert(f[m as int] == e[m as int]);
                    }
                    if m > i {
                        assert(f[i as int].0 == key);
                    }
                },
                None => {
                    assert(f[i as int].0 == key);
                },
            }
            if other != key {
                match (key_pos(e, other), key_pos(f, other)) {
                    (Some(a), Some(b)) => {
                        if a < b {
                            assert(f[a as int] == e[a as int]);
                        }
                        if b < a {
                            assert(f[b as int] == e[b as int]);
                        }
                    },
                    (Some(a), None) => {
                        assert(f[a as int] == e[a as int]);
                    },
                    (None, Some(b)) => {
                        assert(f[b as int] == e[b as int]);
                    },
                    (None, None) => {},
                }
            }
        },
        None => {
            assert(f == e.push((key, val)));
            assert forall|j: int| 0 <= j < e.len() implies #[trigger] f[j] == e[j] by {}
            match key_pos(f, key) {
                Some(m) => {
                    if m < e.len() {
                        assert(f[m as int] == e[m as int]);
                    }
                },
                None => {
                    assert(f[e.len() as int].0 == key);
                },
            }
            if other != key {
                match (key_pos(e, other), key_pos(f, other)) {
                    (Some(a), Some(b)) => {
                        if a < b {
                            assert(f[a as int] == e[a as int]);
                        }
                        if b < a {
                            assert(f[b as int] == e[b as int]);
                        }
                    },
                    (Some(a), None) => {
                        assert(f[a as int] == e[a as int]);
                    },
                    (None, Some(b)) => {
                        if b < e.len() {
                            assert(f[b as int] == e[b as int]);
                        }
                    },
                    (None, None) => {},
                }
            }
        },
    }
}

// ---------------------------------------------------------------------------
// Parsing JSON text (serde_json)
// ---------------------------------------------------------------------------

/// The value serde_json parses from a JSON text; `None` when the text is
/// not JSON.
pub uninterp spec fn json_of_text(s: Seq<char>) -> Option<JsonV>;

/// The value serde_json parses from JSON bytes; `None` when they are not
/// JSON.
pub uninterp spec fn json_of_bytes(b: Seq<u8>) -> Option<JsonV>;

/// A parsed `serde_json::Value` as a `Json`, value for value (a number by
/// its text, object members in the map's order). Only the two parsers
/// below call it, on the value serde_json returned.
#[verifier::external_body]
fn value_to_json(v: &serde_json::Value) -> Json {
    match v {
        serde_json::Value::Null => Json::Null,
        serde_json::Value::Bool(b) => Json::Bool(*b),
        serde_json::Value::Number(n) => Json::Number(n.to_string()),
        serde_json::Value::String(s) => Json::String(s.clone()),
        serde_json::Value::Array(items) => Json::Array(items.iter().map(value_to_json).collect()),
        serde_json::Value::Object(m) => {
            Json::Object(m.iter().map(|(k, x)| (k.clone(), value_to_json(x))).collect())
        },
    }
}

/// `serde_json::from_str::<serde_json::Value>`: the value the text holds,
/// or serde_json's syntax error. The result depends on the text alone.
#[verifier::external_body]
pub(crate) fn parse_json_text(s: &str) -> (r: Result<Json, serde_json::Error>)
    ensures
        r matches Ok(v) ==> json_of_text(s@) == Some(v@),
        r is Err ==> json_of_text(s@) is None,
{
    match serde_json::from_str::<serde_json::Value>(s) {
        Ok(v) => Ok(value_to_json(&v)),
        Err(e) => Err(e),
    }
}

/// `serde_json::from_slice::<serde_json::Value>`: the value the bytes
/// hold, or serde_json's syntax (or UTF-8) error. The result depends on the
/// bytes alone.
#[verifier::external_body]
pub(crate) fn parse_json_bytes(b: &[u8]) -> (r: Result<Json, serde_json::Error>)
    ensures
        r matches Ok(v) ==> json_of_bytes(b@) == Some(v@),
        r is Err ==> json_of_bytes(b@) is None,
{
    match serde_json::from_slice::<serde_json::Value>(b) {
        Ok(v) => Ok(value_to_json(&v)),
        Err(e) => Err(e),
    }
}


} // verus!
