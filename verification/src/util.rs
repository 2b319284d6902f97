//! Request parameters and response bodies of the OnlineSim protocol:
//! query encoding, the `response` status field, authentication parameters,
//! and the lenient readings of fields that arrive as numbers or strings.
use vstd::prelude::*;

use crate::error::{api_code_error, Error};
use crate::json::{
    insert_entry, insert_member, json_i64, json_str, json_text, jv, jv_entries, jv_items, key_pos,
    lemma_insert_lookup, lemma_key_pos, lemma_jv_entries, lemma_jv_items, lookup, obj_get, remove_entry,
    remove_member, Json, JsonV,
};
use crate::text::{
    all_digits, cat, cat3, chars_of, format_u64, int_text, owned, parse_i64, parse_i64_spec,
    str_eq, trim, trim_spec,
};

verus! {

// ---------------------------------------------------------------------------
// Query encoding
// ---------------------------------------------------------------------------

/// The views of query pairs.
pub open spec fn pairs_view(s: Seq<(String, String)>) -> Seq<(Seq<char>, Seq<char>)> {
    s.map_values(|p: (String, String)| (p.0@, p.1@))
}

/// The name under which member `key` is sent: `prefix[key]` inside a
/// nested object, `key` at the top level.
pub open spec fn full_key(prefix: Option<Seq<char>>, key: Seq<char>) -> Seq<char> {
    match prefix {
        Some(p) => p + seq!['['] + key + seq![']'],
        None => key,
    }
}

/// The text a scalar is sent as; `null` is not sent at all, and a nested
/// array or object is sent as its JSON text.
pub open spec fn scalar_text(v: JsonV) -> Option<Seq<char>> {
    match v {
        JsonV::Null => None,
        JsonV::Bool(b) => Some(if b {
            "true"@
        } else {
            "false"@
        }),
        JsonV::Number(n) => Some(n),
        JsonV::String(s) => Some(s),
        _ => Some(json_text(v)),
    }
}

/// Pairs for the items of an array sent under `key`: `key[i]`.
pub open spec fn array_pairs(key: Seq<char>, items: Seq<JsonV>) -> Seq<(Seq<char>, Seq<char>)>
    decreases items.len(),
{
    if items.len() == 0 {
        seq![]
    } else {
        array_pairs(key, items.drop_last()) + match scalar_text(items.last()) {
            Some(t) => seq![(key + seq!['['] + int_text(items.len() - 1) + seq![']'], t)],
            None => seq![],
        }
    }
}

/// Pairs for one member of an object.
pub open spec fn member_pairs(prefix: Option<Seq<char>>, e: (Seq<char>, JsonV)) -> Seq<
    (Seq<char>, Seq<char>),
>
    decreases e, 0nat,
{
    let k = full_key(prefix, e.0);
    match e.1 {
        JsonV::Null => seq![],
        JsonV::Array(items) => array_pairs(k, items),
        JsonV::Object(nested) => flatten_spec(nested, Some(k)),
        _ => seq![(k, scalar_text(e.1).unwrap())],
    }
}

/// Pairs for all members of an object, in order.
pub open spec fn flatten_spec(entries: Seq<(Seq<char>, JsonV)>, prefix: Option<Seq<char>>) -> Seq<
    (Seq<char>, Seq<char>),
>
    decreases entries, 1nat,
{
    if entries.len() == 0 {
        seq![]
    } else {
        flatten_spec(entries.drop_last(), prefix) + member_pairs(prefix, entries.last())
    }
}

/// The query text of a scalar (`push_scalar`'s conversion).
fn scalar_string(v: &Json) -> (r: Option<String>)
    ensures
        opt_view(r) == scalar_text(v@),
{
    match v {
        Json::Null => None,
        Json::Bool(b) => if *b {
            Some(owned("true"))
        } else {
            Some(owned("false"))
        },
        Json::Number(n) => Some(n.clone()),
        Json::String(s) => Some(s.clone()),
        _ => Some(v.to_text()),
    }
}

/// The view of an optional string.
pub open spec fn opt_view(o: Option<String>) -> Option<Seq<char>> {
    match o {
        Some(s) => Some(s@),
        None => None,
    }
}

proof fn lemma_pairs_view_push(s: Seq<(String, String)>, p: (String, String))
    ensures
        pairs_view(s.push(p)) == pairs_view(s).push((p.0@, p.1@)),
{
    assert(pairs_view(s.push(p)) =~= pairs_view(s).push((p.0@, p.1@)));
}

/// Appends the pairs for the items of an array sent under `key`.
fn push_array_items(out: &mut Vec<(String, String)>, key: &str, items: &Vec<Json>)
    ensures
        pairs_view(final(out)@) == pairs_view(old(out)@) + array_pairs(key@, jv_items(items@)),
{
    let ghost iv = jv_items(items@);
    proof {
        lemma_jv_items(items@);
        assert(pairs_view(old(out)@) + array_pairs(key@, iv.take(0)) =~= pairs_view(old(out)@));
    }
    let mut i: usize = 0;
    while i < items.len()
        invariant
            i <= items.len(),
            iv == jv_items(items@),
            iv.len() == items.len(),
            forall|j: int| 0 <= j < items.len() ==> #[trigger] iv[j] == jv(items@[j]),
            pairs_view(out@) == pairs_view(old(out)@) + array_pairs(key@, iv.take(i as int)),
        decreases items.len() - i,
    {
        let ghost before = out@;
        assert(iv.take(i + 1).drop_last() == iv.take(i as int));
        assert(iv.take(i + 1).last() == jv(items@[i as int]));
        match scalar_string(&items[i]) {
            Some(t) => {
                let idx = format_u64(i as u64);
                let k0 = cat3(key, "[", idx.as_str());
                let k = cat(k0.as_str(), "]");
                let ghost kv = k@;
                out.push((k, t));
                proof {
                    reveal_strlit("[");
                    reveal_strlit("]");
                    lemma_pairs_view_push(before, (k, t));
                    assert(kv == key@ + seq!['['] + int_text(i as int) + seq![']']);
                    assert(pairs_view(out@) =~= pairs_view(old(out)@) + array_pairs(
                        key@,
                        iv.take(i + 1),
                    ));
                }
            },
            None => {
                assert(pairs_view(out@) =~= pairs_view(old(out)@) + array_pairs(
                    key@,
                    iv.take(i + 1),
                ));
            },
        }
        i = i + 1;
    }
    assert(iv.take(i as int) == iv);
}

/// Appends the query pairs for all members of an object.
#[verifier::loop_isolation(false)]
pub fn flatten_object(out: &mut Vec<(String, String)>, entries: &Vec<(String, Json)>, prefix: Option<&str>)
    ensures
        pairs_view(final(out)@) == pairs_view(old(out)@) + flatten_spec(
            jv_entries(entries@),
            match prefix {
                Some(p) => Some(p@),
                None => None,
            },
        ),
    decreases entries,
{
    let ghost pv: Option<Seq<char>> = match prefix {
        Some(p) => Some(p@),
        None => None,
    };
    let ghost ev = jv_entries(entries@);
    proof {
        lemma_jv_entries(entries@);
        assert(pairs_view(old(out)@) + flatten_spec(ev.take(0), pv) =~= pairs_view(old(out)@));
    }
    let mut i: usize = 0;
    while i < entries.len()
        invariant
            i <= entries.len(),
            ev == jv_entries(entries@),
            ev.len() == entries.len(),
            forall|j: int|
                0 <= j < entries.len() ==> #[trigger] ev[j] == (entries@[j].0@, jv(entries@[j].1)),
            pairs_view(out@) == pairs_view(old(out)@) + flatten_spec(ev.take(i as int), pv),
        decreases entries.len() - i,
    {
        let ghost before = out@;
        assert(ev.take(i + 1).drop_last() == ev.take(i as int));
        assert(ev.take(i + 1).last() == ev[i as int]);
        let key = &entries[i].0;
        let value = &entries[i].1;
        let full = match prefix {
            Some(p) => {
                let a = cat3(p, "[", key.as_str());
                cat(a.as_str(), "]")
            },
            None => key.clone(),
        };
        let ghost fv = full@;
        proof {
            reveal_strlit("[");
            reveal_strlit("]");
        }
        assert(fv == full_key(pv, ev[i as int].0));
        let ghost mp = member_pairs(pv, ev[i as int]);
        match value {
            Json::Null => {
                assert(pairs_view(out@) =~= pairs_view(before) + mp);
            },
            Json::Array(items) => {
                push_array_items(out, full.as_str(), items);
                assert(pairs_view(out@) =~= pairs_view(before) + mp);
            },
            Json::Object(nested) => {
                proof {
                    assert(decreases_to!(*entries => entries@));
                    assert(decreases_to!(entries@ => entries@[i as int]));
                    assert(decreases_to!(entries@[i as int] => entries@[i as int].1));
                    assert(decreases_to!(entries@[i as int].1 => (entries@[i as int].1)->Object_0));
                }
                flatten_object(out, nested, Some(full.as_str()));
                assert(pairs_view(out@) =~= pairs_view(before) + mp);
            },
            _ => {
                let t = scalar_string(value);
                let t = match t {
                    Some(t) => t,
                    None => owned(""),
                };
                out.push((full, t));
                proof {
                    lemma_pairs_view_push(before, (full, t));
                    assert(pairs_view(out@) =~= pairs_view(before) + mp);
                }
            },
        }
        proof {
            assert(flatten_spec(ev.take(i + 1), pv) == flatten_spec(ev.take(i as int), pv) + mp);
            assert(pairs_view(out@) =~= pairs_view(old(out)@) + flatten_spec(
                ev.take(i + 1),
                pv,
            ));
        }
        i = i + 1;
    }
    assert(ev.take(i as int) == ev);
}

/// What [`to_query_pairs`] gives: the pairs of an object, nothing for
/// `null`, and `None` (an error) for any other value.
pub open spec fn query_pairs_spec(v: JsonV) -> Option<Seq<(Seq<char>, Seq<char>)>> {
    match v {
        JsonV::Object(entries) => Some(flatten_spec(entries, None)),
        JsonV::Null => Some(seq![]),
        _ => None,
    }
}

/// Encode request parameters as `application/x-www-form-urlencoded`
/// pairs: nested objects as `a[b]`, array items as `a[0]`, `null` members
/// left out.
pub fn to_query_pairs(params: &Json) -> (r: Result<Vec<(String, String)>, Error>)
    ensures
        query_pairs_spec(params@) matches Some(p) ==> (r matches Ok(out) && pairs_view(out@)
            == p),
        query_pairs_spec(params@) is None ==> (r matches Err(Error::Unexpected(m)) && m@
            == "query params must be an object, got "@ + json_text(params@)),
{
    let mut out: Vec<(String, String)> = Vec::new();
    match params {
        Json::Object(entries) => {
            flatten_object(&mut out, entries, None);
            assert(pairs_view(Seq::<(String, String)>::empty()) =~= Seq::<
                (Seq<char>, Seq<char>),
            >::empty());
            assert(pairs_view(out@) =~= flatten_spec(jv_entries(entries@), None));
            Ok(out)
        },
        Json::Null => {
            assert(pairs_view(out@) =~= Seq::<(Seq<char>, Seq<char>)>::empty());
            Ok(out)
        },
        other => {
            let t = other.to_text();
            Err(Error::Unexpected(cat("query params must be an object, got ", t.as_str())))
        },
    }
}


// ---------------------------------------------------------------------------
// The `response` status field
// ---------------------------------------------------------------------------

/// The text of a status or code value: a string as it is, a number by its
/// text, anything else by its JSON text.
pub open spec fn code_text(v: JsonV) -> Seq<char> {
    match v {
        JsonV::String(s) => s,
        JsonV::Number(n) => n,
        _ => json_text(v),
    }
}

/// The error code a body reports: the text of its `response` member when
/// that is not `1`.
pub open spec fn api_error_code(v: JsonV) -> Option<Seq<char>> {
    match obj_get(v, "response"@) {
        Some(r) => if code_text(r) != "1"@ {
            Some(code_text(r))
        } else {
            None
        },
        None => None,
    }
}

/// The members not named `key`, in order.
pub open spec fn without_key(e: Seq<(Seq<char>, JsonV)>, key: Seq<char>) -> Seq<(Seq<char>, JsonV)>
    decreases e.len(),
{
    if e.len() == 0 {
        seq![]
    } else if e.last().0 == key {
        without_key(e.drop_last(), key)
    } else {
        without_key(e.drop_last(), key).push(e.last())
    }
}

/// A successful body without its `response` member (every member of that
/// name, should a body repeat it).
pub open spec fn strip_response(v: JsonV) -> JsonV {
    match v {
        JsonV::Object(e) => JsonV::Object(without_key(e, "response"@)),
        _ => v,
    }
}

/// No member left is named `key`, and dropping them again changes nothing.
proof fn lemma_without_key(e: Seq<(Seq<char>, JsonV)>, key: Seq<char>)
    ensures
        forall|j: int| 0 <= j < without_key(e, key).len() ==> (#[trigger] without_key(e, key)[j]).0 != key,
        without_key(without_key(e, key), key) == without_key(e, key),
    decreases e.len(),
{
    if e.len() > 0 {
        let d = e.drop_last();
        lemma_without_key(d, key);
        let w = without_key(e, key);
        let wd = without_key(d, key);
        if e.last().0 != key {
            assert(w == wd.push(e.last()));
            assert(w.drop_last() =~= wd);
            assert forall|j: int| 0 <= j < w.len() implies (#[trigger] w[j]).0 != key by {
                if j < wd.len() {
                    assert(w[j] == wd[j]);
                }
            }
            assert(without_key(w, key) == without_key(wd, key).push(e.last()));
        }
    }
}

/// The members of `entries` not named `key`, in order.
fn drop_members(entries: Vec<(String, Json)>, key: &str) -> (r: Vec<(String, Json)>)
    ensures
        jv_entries(r@) == without_key(jv_entries(entries@), key@),
{
    let ghost ev = jv_entries(entries@);
    proof {
        lemma_jv_entries(entries@);
    }
    let mut out: Vec<(String, Json)> = Vec::new();
    let mut i: usize = 0;
    assert(ev.take(0) =~= Seq::<(Seq<char>, JsonV)>::empty());
    assert(jv_entries(out@) =~= Seq::<(Seq<char>, JsonV)>::empty());
    while i < entries.len()
        invariant
            i <= entries.len(),
            ev == jv_entries(entries@),
            ev.len() == entries@.len(),
            forall|k: int| 0 <= k < entries@.len() ==> #[trigger] ev[k] == (entries@[k].0@, jv(entries@[k].1)),
            jv_entries(out@) == without_key(ev.take(i as int), key@),
        decreases entries.len() - i,
    {
        assert(ev.take(i + 1).drop_last() == ev.take(i as int));
        assert(ev.take(i + 1).last() == ev[i as int]);
        if !str_eq(entries[i].0.as_str(), key) {
            let ghost before = out@;
            let m = (entries[i].0.clone(), crate::json::clone_json(&entries[i].1));
            out.push(m);
            proof {
                lemma_jv_entries(before);
                lemma_jv_entries(out@);
                assert(jv_entries(out@) =~= jv_entries(before).push(ev[i as int]));
            }
        }
        i = i + 1;
    }
    assert(ev.take(i as int) == ev);
    out
}

/// The text of a code value (a message code, a price, a number): strings
/// as they are, numbers by their text, other values as JSON text.
pub fn msg_to_code(msg: &Json) -> (r: String)
    ensures
        r@ == code_text(msg@),
{
    match msg {
        Json::String(s) => s.clone(),
        Json::Number(n) => n.clone(),
        other => other.to_text(),
    }
}

/// Interpret an OnlineSim JSON body.
///
/// If the body is an object with a `response` member that is not `"1"` /
/// `1`, returns the API error for that code. Otherwise strips `response` and
/// returns the rest. Arrays and objects without `response` are returned
/// as they are.
pub fn parse_api_value(value: Json) -> (r: Result<Json, Error>)
    ensures
        api_error_code(value@) matches Some(c) ==> (r matches Err(e) && api_code_error(e, c)),
        api_error_code(value@) is None ==> (r matches Ok(x) && x@ == strip_response(value@)),
{
    let code = match value.get("response") {
        Some(resp) => Some(msg_to_code(resp)),
        None => None,
    };
    if let Some(c) = code {
        if !str_eq(c.as_str(), "1") {
            return Err(Error::from_api_code(c.as_str()));
        }
    }
    match value {
        Json::Object(entries) => Ok(Json::Object(drop_members(entries, "response"))),
        other => Ok(other),
    }
}

/// Reading a body that was already read gives it back: a successful read
/// leaves no `response` member, so a second read succeeds and returns its
/// input unchanged.
pub proof fn law_parse_api_value_idempotent(v: JsonV)
    requires
        api_error_code(v) is None,
    ensures
        api_error_code(strip_response(v)) is None,
        strip_response(strip_response(v)) == strip_response(v),
{
    if let JsonV::Object(e) = v {
        lemma_without_key(e, "response"@);
        let r = without_key(e, "response"@);
        lemma_key_pos(r, "response"@);
        if let Some(p) = key_pos(r, "response"@) {
            assert(r[p as int].0 == "response"@);
        }
    }
}

// ---------------------------------------------------------------------------
// Authentication parameters
// ---------------------------------------------------------------------------

/// Members after adding the authentication parameters: `apikey` when a key
/// is set, `lang` always, `dev_id` when set (each replacing a member of the
/// same name).
pub open spec fn auth_entries(
    e: Seq<(Seq<char>, JsonV)>,
    apikey: Option<Seq<char>>,
    lang: Seq<char>,
    dev_id: Option<i64>,
) -> Seq<(Seq<char>, JsonV)> {
    let e1 = match apikey {
        Some(k) => insert_entry(e, "apikey"@, JsonV::String(k)),
        None => e,
    };
    let e2 = insert_entry(e1, "lang"@, JsonV::String(lang));
    match dev_id {
        Some(id) => insert_entry(e2, "dev_id"@, JsonV::Number(int_text(id as int))),
        None => e2,
    }
}

/// Request parameters with the authentication parameters merged in; a
/// value that is not an object is replaced by an empty object first.
pub open spec fn with_auth_spec(
    v: JsonV,
    apikey: Option<Seq<char>>,
    lang: Seq<char>,
    dev_id: Option<i64>,
) -> JsonV {
    let e = match v {
        JsonV::Object(e) => e,
        _ => seq![],
    };
    JsonV::Object(auth_entries(e, apikey, lang, dev_id))
}

/// Merge auth/lang/dev_id into a JSON object of request parameters.
pub fn with_auth_params(params: Json, apikey: Option<&str>, lang: &str, dev_id: Option<i64>) -> (r:
    Json)
    ensures
        r@ == with_auth_spec(
            params@,
            match apikey {
                Some(k) => Some(k@),
                None => None,
            },
            lang@,
            dev_id,
        ),
{
    let mut entries: Vec<(String, Json)> = match params {
        Json::Object(e) => e,
        _ => Vec::new(),
    };
    proof {
        lemma_jv_entries(entries@);
        if entries@.len() == 0 {
            assert(jv_entries(entries@) =~= Seq::<(Seq<char>, JsonV)>::empty());
        }
    }
    if let Some(key) = apikey {
        insert_member(&mut entries, owned("apikey"), json_str(key));
    }
    insert_member(&mut entries, owned("lang"), json_str(lang));
    if let Some(id) = dev_id {
        insert_member(&mut entries, owned("dev_id"), json_i64(id));
    }
    Json::Object(entries)
}

/// Authenticated parameters always carry `lang`, carry the key and the
/// developer id when they are set, and keep every other parameter.
pub proof fn lemma_auth_params(
    v: JsonV,
    apikey: Option<Seq<char>>,
    lang: Seq<char>,
    dev_id: Option<i64>,
    other: Seq<char>,
)
    requires
        v is Object,
        other != "apikey"@,
        other != "lang"@,
        other != "dev_id"@,
    ensures
        obj_get(with_auth_spec(v, apikey, lang, dev_id), "lang"@) == Some(JsonV::String(lang)),
        apikey matches Some(k) ==> obj_get(with_auth_spec(v, apikey, lang, dev_id), "apikey"@)
            == Some(JsonV::String(k)),
        dev_id matches Some(id) ==> obj_get(with_auth_spec(v, apikey, lang, dev_id), "dev_id"@)
            == Some(JsonV::Number(int_text(id as int))),
        obj_get(with_auth_spec(v, apikey, lang, dev_id), other) == obj_get(v, other),
{
    reveal_strlit("apikey");
    reveal_strlit("lang");
    reveal_strlit("dev_id");
    assert("apikey"@[0] != "dev_id"@[0]);
    assert("apikey"@.len() != "lang"@.len());
    assert("lang"@.len() != "dev_id"@.len());
    let e = v->Object_0;
    let e1 = match apikey {
        Some(k) => insert_entry(e, "apikey"@, JsonV::String(k)),
        None => e,
    };
    let e2 = insert_entry(e1, "lang"@, JsonV::String(lang));
    match apikey {
        Some(k) => {
            lemma_insert_lookup(e, "apikey"@, JsonV::String(k), other);
            lemma_insert_lookup(e, "apikey"@, JsonV::String(k), "lang"@);
        },
        None => {},
    }
    lemma_insert_lookup(e1, "lang"@, JsonV::String(lang), other);
    lemma_insert_lookup(e1, "lang"@, JsonV::String(lang), "apikey"@);
    match dev_id {
        Some(id) => {
            let n = JsonV::Number(int_text(id as int));
            lemma_insert_lookup(e2, "dev_id"@, n, other);
            lemma_insert_lookup(e2, "dev_id"@, n, "lang"@);
            lemma_insert_lookup(e2, "dev_id"@, n, "apikey"@);
        },
        None => {},
    }
}

// ---------------------------------------------------------------------------
// Lenient field readings
// ---------------------------------------------------------------------------

/// An `i64` from a JSON number or a decimal string (surrounding whitespace
/// allowed in the string).
pub open spec fn i64_flexible_spec(v: JsonV) -> Option<i64> {
    match v {
        JsonV::Number(t) => parse_i64_spec(t),
        JsonV::String(s) => parse_i64_spec(trim_spec(s)),
        _ => None,
    }
}

/// Read an `i64` from a JSON number or a decimal string.
pub fn i64_flexible(v: &Json) -> (r: Result<i64, String>)
    ensures
        i64_flexible_spec(v@) matches Some(n) ==> r == Ok::<i64, String>(n),
        i64_flexible_spec(v@) is None ==> r is Err,
{
    let parsed = match v {
        Json::Number(t) => parse_i64(t.as_str()),
        Json::String(s) => {
            let t = trim(s.as_str());
            parse_i64(t.as_str())
        },
        _ => None,
    };
    match parsed {
        Some(n) => Ok(n),
        None => Err(owned("expected i64 or stringified i64")),
    }
}

/// Whether `t` is the text of an integer: an optional `-`, then digits.
pub open spec fn is_integer_text(t: Seq<char>) -> bool {
    let body = if t.len() > 0 && t[0] == '-' {
        t.drop_first()
    } else {
        t
    };
    body.len() > 0 && all_digits(body)
}

fn integer_text(t: &str) -> (r: bool)
    ensures
        r == is_integer_text(t@),
{
    let v = chars_of(t);
    let start: usize = if v.len() > 0 && v[0] == '-' {
        1
    } else {
        0
    };
    let ghost body = if v@.len() > 0 && v@[0] == '-' {
        v@.drop_first()
    } else {
        v@
    };
    assert(body == v@.subrange(start as int, v@.len() as int));
    if start == v.len() {
        return false;
    }
    let mut i = start;
    while i < v.len()
        invariant
            start <= i <= v.len(),
            v@ == t@,
            body == (if v@.len() > 0 && v@[0] == '-' {
                v@.drop_first()
            } else {
                v@
            }),
            body == v@.subrange(start as int, v@.len() as int),
            forall|j: int| start <= j < i ==> crate::text::is_digit(#[trigger] v@[j]),
        decreases v.len() - i,
    {
        if !('0' <= v[i] && v[i] <= '9') {
            assert(body[i - start] == v@[i as int]);
            return false;
        }
        i = i + 1;
    }
    assert forall|j: int| 0 <= j < body.len() implies crate::text::is_digit(#[trigger] body[j]) by {
        assert(body[j] == v@[j + start]);
    }
    true
}

/// A string from a JSON string, or from a JSON integer by its decimal text.
/// A fractional number gives `None`: its text is the `f64` formatting of
/// the number, which the caller does.
pub open spec fn string_flexible_spec(v: JsonV) -> Option<Seq<char>> {
    match v {
        JsonV::String(s) => Some(s),
        JsonV::Number(t) => if is_integer_text(t) {
            Some(t)
        } else {
            None
        },
        _ => None,
    }
}

/// Read a string from a JSON string or a JSON integer.
pub fn string_flexible(v: &Json) -> (r: Option<String>)
    ensures
        opt_view(r) == string_flexible_spec(v@),
{
    match v {
        Json::String(s) => Some(s.clone()),
        Json::Number(t) => if integer_text(t.as_str()) {
            Some(t.clone())
        } else {
            None
        },
        _ => None,
    }
}

/// An optional string from a JSON string, number or boolean; `null` gives
/// `None`; an array or object is an error.
pub open spec fn opt_string_flexible_spec(v: JsonV) -> Option<Option<Seq<char>>> {
    match v {
        JsonV::Null => Some(None),
        JsonV::String(s) => Some(Some(s)),
        JsonV::Number(t) => Some(Some(t)),
        JsonV::Bool(b) => Some(Some(if b { "true"@ } else { "false"@ })),
        _ => None,
    }
}

/// Read an optional string from a JSON string, number, boolean or `null`.
pub fn opt_string_flexible(v: &Json) -> (r: Result<Option<String>, String>)
    ensures
        opt_string_flexible_spec(v@) matches Some(o) ==> (r matches Ok(x) && opt_view(x) == o),
        opt_string_flexible_spec(v@) is None ==> (r matches Err(m) && m@
            == "expected string or number, got "@ + json_text(v@)),
{
    match v {
        Json::Null => Ok(None),
        Json::String(s) => Ok(Some(s.clone())),
        Json::Number(t) => Ok(Some(t.clone())),
        Json::Bool(b) => Ok(Some(owned(if *b { "true" } else { "false" }))),
        other => {
            let t = other.to_text();
            Err(cat("expected string or number, got ", t.as_str()))
        },
    }
}

/// An optional JSON value: `null` is `None`; `{}` and `[]` are kept.
pub fn opt_json_value(v: Json) -> (r: Option<Json>)
    ensures
        v@ is Null ==> r is None,
        !(v@ is Null) ==> (r matches Some(x) && x@ == v@),
{
    match v {
        Json::Null => None,
        other => Some(other),
    }
}

/// The members of a map sent as an object; `null` and an array (how PHP
/// sends an empty map) give no members; anything else is an error.
pub open spec fn map_members_spec(v: JsonV) -> Option<Seq<(Seq<char>, JsonV)>> {
    match v {
        JsonV::Null => Some(seq![]),
        JsonV::Array(_) => Some(seq![]),
        JsonV::Object(e) => Some(e),
        _ => None,
    }
}

/// Read the members of a map that may arrive as `[]`; `what` names the map
/// in the error text.
pub fn map_members(v: Json, what: &str) -> (r: Result<Vec<(String, Json)>, String>)
    ensures
        map_members_spec(v@) matches Some(e) ==> (r matches Ok(x) && jv_entries(x@) == e),
        map_members_spec(v@) is None ==> (r matches Err(m) && m@ == "expected object or array for "@
            + what@ + ", got "@ + json_text(v@)),
{
    match v {
        Json::Null => {
            let e: Vec<(String, Json)> = Vec::new();
            assert(jv_entries(e@) =~= Seq::<(Seq<char>, JsonV)>::empty());
            Ok(e)
        },
        Json::Array(_) => {
            let e: Vec<(String, Json)> = Vec::new();
            assert(jv_entries(e@) =~= Seq::<(Seq<char>, JsonV)>::empty());
            Ok(e)
        },
        Json::Object(e) => Ok(e),
        other => {
            let t = other.to_text();
            let a = cat3("expected object or array for ", what, ", got ");
            Err(cat(a.as_str(), t.as_str()))
        },
    }
}

/// The pair a member contributes at the top level lies in the flattened
/// pairs.
proof fn lemma_member_pair_in_flatten(e: Seq<(Seq<char>, JsonV)>, i: int)
    requires
        0 <= i < e.len(),
        member_pairs(None, e[i]).len() > 0,
    ensures
        exists|j: int|
            0 <= j < flatten_spec(e, None).len() && flatten_spec(e, None)[j] == member_pairs(
                None,
                e[i],
            )[0],
    decreases e.len(),
{
    let d = e.drop_last();
    let fd = flatten_spec(d, None);
    let f = flatten_spec(e, None);
    assert(f == fd + member_pairs(None, e.last()));
    if i == e.len() - 1 {
        assert(f[fd.len() as int] == member_pairs(None, e[i])[0]);
    } else {
        assert(d[i] == e[i]);
        lemma_member_pair_in_flatten(d, i);
        let j = choose|j: int| 0 <= j < fd.len() && fd[j] == member_pairs(None, d[i])[0];
        assert(f[j] == fd[j]);
    }
}

/// Every scalar member of the parameters is sent as a pair under its own
/// name: a boolean as `true` or `false`, a number by its text, a string as
/// it is (only `null` members are left out).
pub proof fn law_scalar_members_sent(e: Seq<(Seq<char>, JsonV)>, i: int)
    requires
        0 <= i < e.len(),
    ensures
        query_pairs_spec(JsonV::Object(e)) is Some,
        e[i].1 matches JsonV::Bool(b) ==> exists|j: int|
            0 <= j < query_pairs_spec(JsonV::Object(e)).unwrap().len() && query_pairs_spec(
                JsonV::Object(e),
            ).unwrap()[j] == (e[i].0, if b {
                "true"@
            } else {
                "false"@
            }),
        e[i].1 matches JsonV::Number(n) ==> exists|j: int|
            0 <= j < query_pairs_spec(JsonV::Object(e)).unwrap().len() && query_pairs_spec(
                JsonV::Object(e),
            ).unwrap()[j] == (e[i].0, n),
        e[i].1 matches JsonV::String(s) ==> exists|j: int|
            0 <= j < query_pairs_spec(JsonV::Object(e)).unwrap().len() && query_pairs_spec(
                JsonV::Object(e),
            ).unwrap()[j] == (e[i].0, s),
{
    let f = flatten_spec(e, None);
    assert(query_pairs_spec(JsonV::Object(e)) == Some(f));
    match e[i].1 {
        JsonV::Bool(b) => {
            let t = if b {
                "true"@
            } else {
                "false"@
            };
            assert(member_pairs(None, e[i]) == seq![(e[i].0, t)]);
            lemma_member_pair_in_flatten(e, i);
            let j = choose|j: int| 0 <= j < f.len() && f[j] == member_pairs(None, e[i])[0];
            assert(f[j] == (e[i].0, t));
            assert(query_pairs_spec(JsonV::Object(e)).unwrap()[j] == (e[i].0, t));
            assert(exists|j: int|
                0 <= j < query_pairs_spec(JsonV::Object(e)).unwrap().len() && query_pairs_spec(
                    JsonV::Object(e),
                ).unwrap()[j] == (e[i].0, t));
        },
        JsonV::Number(n) => {
            assert(member_pairs(None, e[i]) == seq![(e[i].0, n)]);
            lemma_member_pair_in_flatten(e, i);
            let j = choose|j: int| 0 <= j < f.len() && f[j] == member_pairs(None, e[i])[0];
            assert(f[j] == (e[i].0, n));
            assert(query_pairs_spec(JsonV::Object(e)).unwrap()[j] == (e[i].0, n));
            assert(exists|j: int|
                0 <= j < query_pairs_spec(JsonV::Object(e)).unwrap().len() && query_pairs_spec(
                    JsonV::Object(e),
                ).unwrap()[j] == (e[i].0, n));
        },
        JsonV::String(s) => {
            assert(member_pairs(None, e[i]) == seq![(e[i].0, s)]);
            lemma_member_pair_in_flatten(e, i);
            let j = choose|j: int| 0 <= j < f.len() && f[j] == member_pairs(None, e[i])[0];
            assert(f[j] == (e[i].0, s));
            assert(query_pairs_spec(JsonV::Object(e)).unwrap()[j] == (e[i].0, s));
            assert(exists|j: int|
                0 <= j < query_pairs_spec(JsonV::Object(e)).unwrap().len() && query_pairs_spec(
                    JsonV::Object(e),
                ).unwrap()[j] == (e[i].0, s));
        },
        _ => {},
    }
}

} // verus!
