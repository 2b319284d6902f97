//! The calls of the OnlineSim API: for each method, the request it sends
//! (path, parameters, `.php` suffix, GET or POST), how a request is
//! addressed and authenticated, and how answers are read.
use vstd::prelude::*;

use crate::config::{opt_view, Config, ConfigV};
use crate::error::Error;
use crate::json::{jv_entries, jv_items, json_i64, json_str, lemma_jv_entries, lemma_jv_items, Json, JsonV};
use crate::mock::{ji, js};
use crate::text::{cat, cat3, int_text, owned, trim, trim_end_char, trim_end_char_spec, trim_spec, trim_start_char, trim_start_char_spec};
use crate::types::numbers::{GetNumberParams, NumberWithTz};
use crate::util::{code_text, flatten_spec, msg_to_code, pairs_view, to_query_pairs, with_auth_params, with_auth_spec};

verus! {

/// How a request is sent.
#[derive(Debug, Clone, Copy, PartialEq, Eq)]
pub enum HttpMethod {
    /// Parameters in the query string.
    Get,
    /// Parameters as a JSON body.
    Post,
}

/// One call of the API, before authentication and addressing.
#[derive(Debug)]
pub struct ApiRequest {
    /// GET or POST.
    pub method: HttpMethod,
    /// Method path below the base URL (e.g. `getNum`, `rent/getRentNum`).
    pub path: String,
    /// Parameters.
    pub params: Json,
    /// Whether the path takes the `.php` suffix.
    pub php_suffix: bool,
}

/// Whether `r` is the call `method path` with these parameters.
pub open spec fn is_call(
    r: ApiRequest,
    method: HttpMethod,
    path: Seq<char>,
    params: Seq<(Seq<char>, JsonV)>,
    php: bool,
) -> bool {
    &&& r.method == method
    &&& r.path@ == path
    &&& r.params@ == JsonV::Object(params)
    &&& r.php_suffix == php
}

fn call(method: HttpMethod, path: &str, params: Vec<(String, Json)>, php: bool) -> (r: ApiRequest)
    ensures
        r.method == method,
        r.path@ == path@,
        r.params@ == JsonV::Object(jv_entries(params@)),
        r.php_suffix == php,
{
    ApiRequest { method, path: owned(path), params: Json::Object(params), php_suffix: php }
}

fn mem(key: &str, v: Json) -> (r: (String, Json))
    ensures
        r.0@ == key@,
        r.1@ == v@,
{
    (owned(key), v)
}

/// A JSON boolean.
pub open spec fn jb(b: bool) -> JsonV {
    JsonV::Bool(b)
}

/// `1` for `true`, `0` for `false`.
pub open spec fn flag(b: bool) -> JsonV {
    ji(if b {
        1
    } else {
        0
    })
}

fn flag_json(b: bool) -> (r: Json)
    ensures
        r@ == flag(b),
{
    json_i64(if b {
        1
    } else {
        0
    })
}

/// A JSON array of integers.
pub open spec fn ints(v: Seq<i64>) -> JsonV {
    JsonV::Array(v.map_values(|x: i64| ji(x as int)))
}

fn ints_json(v: &[i64]) -> (r: Json)
    ensures
        r@ == ints(v@),
{
    let mut out: Vec<Json> = Vec::new();
    let mut i: usize = 0;
    while i < v.len()
        invariant
            i <= v.len(),
            out@.len() == i,
            forall|k: int| 0 <= k < i ==> (#[trigger] out@[k])@ == ji(v@[k] as int),
        decreases v.len() - i,
    {
        out.push(json_i64(v[i]));
        i = i + 1;
    }
    proof {
        lemma_jv_items(out@);
        assert(jv_items(out@) =~= v@.map_values(|x: i64| ji(x as int)));
    }
    Json::Array(out)
}

// ---------------------------------------------------------------------------
// Temporary numbers
// ---------------------------------------------------------------------------

/// `getPrice` of a service in a country.
pub fn price_request(service: &str, country: i64) -> (r: ApiRequest)
    ensures
        is_call(r, HttpMethod::Get, "getPrice"@, seq![("service"@, js(service@)), ("country"@, ji(country as int))], true),
{
    let p = vec![mem("service", json_str(service)), mem("country", json_i64(country))];
    proof {
        lemma_jv_entries(p@);
        assert(jv_entries(p@) =~= seq![("service"@, js(service@)), ("country"@, ji(country as int))]);
    }
    call(HttpMethod::Get, "getPrice", p, true)
}

/// The parameters of an order.
pub open spec fn order_params(params: GetNumberParams, with_number: bool) -> Seq<(Seq<char>, JsonV)> {
    let base = seq![
        ("service"@, js(params.service@)),
        ("country"@, ji(params.country as int)),
        ("reject"@, ints(params.reject@)),
        ("extension"@, jb(params.extension)),
    ];
    if with_number {
        base.push(("number"@, jb(true)))
    } else {
        base
    }
}

/// `getNum`: order a number (with `number=true` to get the number back).
pub fn order_request(params: &GetNumberParams, with_number: bool) -> (r: ApiRequest)
    ensures
        is_call(r, HttpMethod::Get, "getNum"@, order_params(*params, with_number), true),
{
    let mut p = vec![
        mem("service", json_str(params.service)),
        mem("country", json_i64(params.country)),
        mem("reject", ints_json(params.reject)),
        mem("extension", Json::Bool(params.extension)),
    ];
    proof {
        lemma_jv_entries(p@);
        assert(jv_entries(p@) =~= order_params(*params, false));
    }
    if with_number {
        let ghost before = p@;
        p.push(mem("number", Json::Bool(true)));
        assert(p@.drop_last() =~= before);
    }
    call(HttpMethod::Get, "getNum", p, true)
}

/// The `type` of a state listing: `repeat` or `index`.
pub open spec fn state_type(repeat: bool) -> Seq<char> {
    if repeat {
        "repeat"@
    } else {
        "index"@
    }
}

/// The parameters of a state listing.
pub open spec fn state_params(message_to_code: i64, orderby: Seq<char>, msg_list: bool, clean: bool, repeat: bool) -> Seq<(Seq<char>, JsonV)> {
    seq![
        ("message_to_code"@, ji(message_to_code as int)),
        ("orderby"@, js(orderby)),
        ("msg_list"@, flag(msg_list)),
        ("clean"@, flag(clean)),
        ("type"@, js(state_type(repeat))),
    ]
}

/// `getState`: all operations.
pub fn state_request(message_to_code: i64, orderby: &str, msg_list: bool, clean: bool, repeat: bool) -> (r: ApiRequest)
    ensures
        is_call(r, HttpMethod::Get, "getState"@, state_params(message_to_code, orderby@, msg_list, clean, repeat), true),
{
    let p = vec![
        mem("message_to_code", json_i64(message_to_code)),
        mem("orderby", json_str(orderby)),
        mem("msg_list", flag_json(msg_list)),
        mem("clean", flag_json(clean)),
        mem("type", json_str(if repeat {
            "repeat"
        } else {
            "index"
        })),
    ];
    proof {
        lemma_jv_entries(p@);
        assert(jv_entries(p@) =~= state_params(message_to_code, orderby@, msg_list, clean, repeat));
    }
    call(HttpMethod::Get, "getState", p, true)
}

/// The parameters of a state query for one operation.
pub open spec fn state_one_params(tzid: i64, message_to_code: i64, msg_list: bool, clean: bool, repeat: bool) -> Seq<(Seq<char>, JsonV)> {
    seq![
        ("tzid"@, ji(tzid as int)),
        ("message_to_code"@, ji(message_to_code as int)),
        ("msg_list"@, jb(msg_list)),
        ("clean"@, jb(clean)),
        ("repeat"@, jb(repeat)),
    ]
}

/// `getState` for one operation.
pub fn state_one_request(tzid: i64, message_to_code: i64, msg_list: bool, clean: bool, repeat: bool) -> (r: ApiRequest)
    ensures
        is_call(r, HttpMethod::Get, "getState"@, state_one_params(tzid, message_to_code, msg_list, clean, repeat), true),
{
    let p = vec![
        mem("tzid", json_i64(tzid)),
        mem("message_to_code", json_i64(message_to_code)),
        mem("msg_list", Json::Bool(msg_list)),
        mem("clean", Json::Bool(clean)),
        mem("repeat", Json::Bool(repeat)),
    ];
    proof {
        lemma_jv_entries(p@);
        assert(jv_entries(p@) =~= state_one_params(tzid, message_to_code, msg_list, clean, repeat));
    }
    call(HttpMethod::Get, "getState", p, true)
}

/// A call whose only parameter is `tzid`.
fn tzid_call(path: &str, tzid: i64) -> (r: ApiRequest)
    ensures
        is_call(r, HttpMethod::Get, path@, seq![("tzid"@, ji(tzid as int))], true),
{
    let p = vec![mem("tzid", json_i64(tzid))];
    proof {
        lemma_jv_entries(p@);
        assert(jv_entries(p@) =~= seq![("tzid"@, ji(tzid as int))]);
    }
    call(HttpMethod::Get, path, p, true)
}

/// The call that ends a wait on operation `tzid`: `setOperationRevise`
/// (request the next SMS) when `not_end`, else `setOperationOk` (close).
pub fn finish_request(tzid: i64, not_end: bool) -> (r: ApiRequest)
    ensures
        is_call(
            r,
            HttpMethod::Get,
            if not_end {
                "setOperationRevise"@
            } else {
                "setOperationOk"@
            },
            seq![("tzid"@, ji(tzid as int))],
            true,
        ),
{
    if not_end {
        tzid_call("setOperationRevise", tzid)
    } else {
        tzid_call("setOperationOk", tzid)
    }
}

/// `setOperationRevise`: request the next SMS.
pub fn next_request(tzid: i64) -> (r: ApiRequest)
    ensures
        is_call(r, HttpMethod::Get, "setOperationRevise"@, seq![("tzid"@, ji(tzid as int))], true),
{
    tzid_call("setOperationRevise", tzid)
}

/// `setOperationOk`: close the operation.
pub fn close_request(tzid: i64) -> (r: ApiRequest)
    ensures
        is_call(r, HttpMethod::Get, "setOperationOk"@, seq![("tzid"@, ji(tzid as int))], true),
{
    tzid_call("setOperationOk", tzid)
}

/// `setOperationOk` with `ban=1`: ban the number and close.
pub fn ban_request(tzid: i64) -> (r: ApiRequest)
    ensures
        is_call(r, HttpMethod::Get, "setOperationOk"@, seq![("tzid"@, ji(tzid as int)), ("ban"@, ji(1))], true),
{
    let p = vec![mem("tzid", json_i64(tzid)), mem("ban", json_i64(1))];
    proof {
        lemma_jv_entries(p@);
        assert(jv_entries(p@) =~= seq![("tzid"@, ji(tzid as int)), ("ban"@, ji(1))]);
    }
    call(HttpMethod::Get, "setOperationOk", p, true)
}

/// `getNumRepeat`: repeat reception on a number.
pub fn repeat_request(service: &str, number: i64) -> (r: ApiRequest)
    ensures
        is_call(r, HttpMethod::Get, "getNumRepeat"@, seq![("service"@, js(service@)), ("number"@, ji(number as int))], true),
{
    let p = vec![mem("service", json_str(service)), mem("number", json_i64(number))];
    proof {
        lemma_jv_entries(p@);
        assert(jv_entries(p@) =~= seq![("service"@, js(service@)), ("number"@, ji(number as int))]);
    }
    call(HttpMethod::Get, "getNumRepeat", p, true)
}

/// `getNumbersStats` for all countries.
pub fn tariffs_request() -> (r: ApiRequest)
    ensures
        is_call(r, HttpMethod::Get, "getNumbersStats"@, seq![("country"@, js("all"@))], true),
{
    let p = vec![mem("country", json_str("all"))];
    proof {
        lemma_jv_entries(p@);
        assert(jv_entries(p@) =~= seq![("country"@, js("all"@))]);
    }
    call(HttpMethod::Get, "getNumbersStats", p, true)
}

/// A call whose only parameter is `country`.
fn country_call(path: &str, country: i64) -> (r: ApiRequest)
    ensures
        is_call(r, HttpMethod::Get, path@, seq![("country"@, ji(country as int))], true),
{
    let p = vec![mem("country", json_i64(country))];
    proof {
        lemma_jv_entries(p@);
        assert(jv_entries(p@) =~= seq![("country"@, ji(country as int))]);
    }
    call(HttpMethod::Get, path, p, true)
}

/// A call without parameters.
fn plain_call(path: &str, php: bool) -> (r: ApiRequest)
    ensures
        is_call(r, HttpMethod::Get, path@, seq![], php),
{
    let p: Vec<(String, Json)> = Vec::new();
    assert(jv_entries(p@) =~= Seq::<(Seq<char>, JsonV)>::empty());
    call(HttpMethod::Get, path, p, php)
}

/// `getNumbersStats` for one country.
pub fn tariffs_one_request(country: i64) -> (r: ApiRequest)
    ensures
        is_call(r, HttpMethod::Get, "getNumbersStats"@, seq![("country"@, ji(country as int))], true),
{
    country_call("getNumbersStats", country)
}

/// `getService`: list services.
pub fn service_request() -> (r: ApiRequest)
    ensures
        is_call(r, HttpMethod::Get, "getService"@, seq![], true),
{
    plain_call("getService", true)
}

/// `getServiceNumber`: numbers available for a service.
pub fn service_number_request(service: &str) -> (r: ApiRequest)
    ensures
        is_call(r, HttpMethod::Get, "getServiceNumber"@, seq![("service"@, js(service@))], true),
{
    let p = vec![mem("service", json_str(service))];
    proof {
        lemma_jv_entries(p@);
        assert(jv_entries(p@) =~= seq![("service"@, js(service@))]);
    }
    call(HttpMethod::Get, "getServiceNumber", p, true)
}

/// The batch `getState` of the shared `wait_code` poller: all operations,
/// oldest first, messages not listed, cleaned.
pub fn poll_request(message_to_code: i64) -> (r: ApiRequest)
    ensures
        is_call(
            r,
            HttpMethod::Get,
            "getState"@,
            seq![
                ("message_to_code"@, ji(message_to_code as int)),
                ("orderby"@, js("asc"@)),
                ("msg_list"@, ji(0)),
                ("clean"@, ji(1)),
                ("type"@, js("index"@)),
            ],
            true,
        ),
{
    let p = vec![
        mem("message_to_code", json_i64(message_to_code)),
        mem("orderby", json_str("asc")),
        mem("msg_list", json_i64(0)),
        mem("clean", json_i64(1)),
        mem("type", json_str("index")),
    ];
    proof {
        lemma_jv_entries(p@);
        assert(jv_entries(p@) =~= seq![
            ("message_to_code"@, ji(message_to_code as int)),
            ("orderby"@, js("asc"@)),
            ("msg_list"@, ji(0)),
            ("clean"@, ji(1)),
            ("type"@, js("index"@)),
        ]);
    }
    call(HttpMethod::Get, "getState", p, true)
}

/// The ordered number, from the `getNum` answer: the number by its text,
/// the country of the answer or else the one asked for.
pub fn number_with_tz(
    tzid: i64,
    number: &Json,
    country: Option<i64>,
    asked_country: i64,
    time: Option<i64>,
    service: Option<String>,
    title: Option<String>,
    response_text: Option<String>,
    guard_interval_remaining_seconds: Option<i64>,
) -> (r: NumberWithTz)
    ensures
        r.tzid == tzid,
        r.number@ == code_text(number@),
        r.country == (match country {
            Some(c) => c,
            None => asked_country,
        }),
        r.time == time,
        r.service == service,
        r.title == title,
        r.response_text == response_text,
        r.guard_interval_remaining_seconds == guard_interval_remaining_seconds,
{
    NumberWithTz {
        tzid,
        number: msg_to_code(number),
        country: match country {
            Some(c) => c,
            None => asked_country,
        },
        time,
        service,
        title,
        response_text,
        guard_interval_remaining_seconds,
    }
}

/// The first element of a list, or `Unexpected(msg)` for an empty list.
pub fn first_or<T>(list: Vec<T>, msg: &str) -> (r: Result<T, Error>)
    ensures
        list@.len() > 0 ==> r == Ok::<T, Error>(list@[0]),
        list@.len() == 0 ==> (r matches Err(Error::Unexpected(m)) && m@ == msg@),
{
    let mut list = list;
    if list.len() == 0 {
        return Err(Error::Unexpected(owned(msg)));
    }
    Ok(list.remove(0))
}

// ---------------------------------------------------------------------------
// Rent
// ---------------------------------------------------------------------------

/// `rent/getRentNum`.
pub fn rent_request(country: i64, days: i64, extension: bool) -> (r: ApiRequest)
    ensures
        is_call(
            r,
            HttpMethod::Get,
            "rent/getRentNum"@,
            seq![
                ("country"@, ji(country as int)),
                ("days"@, ji(days as int)),
                ("extension"@, jb(extension)),
                ("pagination"@, jb(false)),
            ],
            true,
        ),
{
    let p = vec![
        mem("country", json_i64(country)),
        mem("days", json_i64(days)),
        mem("extension", Json::Bool(extension)),
        mem("pagination", Json::Bool(false)),
    ];
    proof {
        lemma_jv_entries(p@);
        assert(jv_entries(p@) =~= seq![
            ("country"@, ji(country as int)),
            ("days"@, ji(days as int)),
            ("extension"@, jb(extension)),
            ("pagination"@, jb(false)),
        ]);
    }
    call(HttpMethod::Get, "rent/getRentNum", p, true)
}

/// `rent/getRentState`: all rents, or the one named.
pub fn rent_state_request(tzid: Option<i64>) -> (r: ApiRequest)
    ensures
        is_call(
            r,
            HttpMethod::Get,
            "rent/getRentState"@,
            match tzid {
                Some(t) => seq![("tzid"@, ji(t as int)), ("pagination"@, jb(false))],
                None => seq![("pagination"@, jb(false))],
            },
            true,
        ),
{
    match tzid {
        Some(t) => {
            let p = vec![mem("tzid", json_i64(t)), mem("pagination", Json::Bool(false))];
            proof {
                lemma_jv_entries(p@);
                assert(jv_entries(p@) =~= seq![("tzid"@, ji(t as int)), ("pagination"@, jb(false))]);
            }
            call(HttpMethod::Get, "rent/getRentState", p, true)
        },
        None => {
            let p = vec![mem("pagination", Json::Bool(false))];
            proof {
                lemma_jv_entries(p@);
                assert(jv_entries(p@) =~= seq![("pagination"@, jb(false))]);
            }
            call(HttpMethod::Get, "rent/getRentState", p, true)
        },
    }
}

/// `rent/extendRentState`.
pub fn rent_extend_request(tzid: i64, days: i64) -> (r: ApiRequest)
    ensures
        is_call(r, HttpMethod::Get, "rent/extendRentState"@, seq![("tzid"@, ji(tzid as int)), ("days"@, ji(days as int))], true),
{
    let p = vec![mem("tzid", json_i64(tzid)), mem("days", json_i64(days))];
    proof {
        lemma_jv_entries(p@);
        assert(jv_entries(p@) =~= seq![("tzid"@, ji(tzid as int)), ("days"@, ji(days as int))]);
    }
    call(HttpMethod::Get, "rent/extendRentState", p, true)
}

/// `rent/portReload`.
pub fn port_reload_request(tzid: i64) -> (r: ApiRequest)
    ensures
        is_call(r, HttpMethod::Get, "rent/portReload"@, seq![("tzid"@, ji(tzid as int))], true),
{
    tzid_call("rent/portReload", tzid)
}

/// `rent/tariffsRent`: all countries, or one.
pub fn rent_tariffs_request(country: Option<i64>) -> (r: ApiRequest)
    ensures
        is_call(
            r,
            HttpMethod::Get,
            "rent/tariffsRent"@,
            match country {
                Some(c) => seq![("country"@, ji(c as int))],
                None => seq![],
            },
            true,
        ),
{
    match country {
        Some(c) => country_call("rent/tariffsRent", c),
        None => plain_call("rent/tariffsRent", true),
    }
}

/// `rent/closeRentNum`.
pub fn rent_close_request(tzid: i64) -> (r: ApiRequest)
    ensures
        is_call(r, HttpMethod::Get, "rent/closeRentNum"@, seq![("tzid"@, ji(tzid as int))], true),
{
    tzid_call("rent/closeRentNum", tzid)
}

// ---------------------------------------------------------------------------
// User
// ---------------------------------------------------------------------------

/// A call whose only parameter is `income=true`.
fn income_call(path: &str) -> (r: ApiRequest)
    ensures
        is_call(r, HttpMethod::Get, path@, seq![("income"@, jb(true))], true),
{
    let p = vec![mem("income", Json::Bool(true))];
    proof {
        lemma_jv_entries(p@);
        assert(jv_entries(p@) =~= seq![("income"@, jb(true))]);
    }
    call(HttpMethod::Get, path, p, true)
}

/// `getBalance` (with income).
pub fn balance_request() -> (r: ApiRequest)
    ensures
        is_call(r, HttpMethod::Get, "getBalance"@, seq![("income"@, jb(true))], true),
{
    income_call("getBalance")
}

/// `getProfile` (with income).
pub fn profile_request() -> (r: ApiRequest)
    ensures
        is_call(r, HttpMethod::Get, "getProfile"@, seq![("income"@, jb(true))], true),
{
    income_call("getProfile")
}

/// `getPaymentHistory`.
pub fn payment_history_request() -> (r: ApiRequest)
    ensures
        is_call(r, HttpMethod::Get, "getPaymentHistory"@, seq![], true),
{
    plain_call("getPaymentHistory", true)
}

/// `pay/createEmpty` (no `.php` suffix) with the caller's parameters.
pub fn create_empty_request(params: Json) -> (r: ApiRequest)
    ensures
        r.method == HttpMethod::Get,
        r.path@ == "pay/createEmpty"@,
        r.params@ == params@,
        !r.php_suffix,
{
    ApiRequest { method: HttpMethod::Get, path: owned("pay/createEmpty"), params, php_suffix: false }
}

/// The webhook URL a profile save sends: trimmed, and none when empty.
pub open spec fn webhook_url_spec(url: Option<Seq<char>>) -> Option<Seq<char>> {
    match url {
        Some(u) => if trim_spec(u).len() == 0 {
            None
        } else {
            Some(trim_spec(u))
        },
        None => None,
    }
}

/// The webhook URL to save: trimmed; empty or absent clears it.
pub fn webhook_url_param(url: Option<&str>) -> (r: Option<String>)
    ensures
        opt_view(r) == webhook_url_spec(match url {
            Some(u) => Some(u@),
            None => None,
        }),
{
    match url {
        Some(u) => {
            let t = trim(u);
            if t.as_str().is_empty() {
                None
            } else {
                Some(t)
            }
        },
        None => None,
    }
}

/// `profile` (POST): set or clear the webhook URL.
pub fn set_webhook_request(url: Option<&str>) -> (r: ApiRequest)
    ensures
        is_call(
            r,
            HttpMethod::Post,
            "profile"@,
            seq![
                (
                    "profile"@,
                    JsonV::Object(
                        seq![
                            ("webhook_url"@, match webhook_url_spec(match url {
                                Some(u) => Some(u@),
                                None => None,
                            }) {
                                Some(u) => js(u),
                                None => JsonV::Null,
                            }),
                        ],
                    ),
                ),
            ],
            true,
        ),
{
    let w = match webhook_url_param(url) {
        Some(u) => Json::String(u),
        None => Json::Null,
    };
    let ghost wv = w@;
    let inner = vec![mem("webhook_url", w)];
    proof {
        lemma_jv_entries(inner@);
        assert(jv_entries(inner@) =~= seq![("webhook_url"@, wv)]);
    }
    let p = vec![mem("profile", Json::Object(inner))];
    proof {
        lemma_jv_entries(p@);
        assert(jv_entries(p@) =~= seq![("profile"@, JsonV::Object(seq![("webhook_url"@, wv)]))]);
    }
    call(HttpMethod::Post, "profile", p, true)
}

/// `webhook-logs` (no `.php` suffix).
pub fn webhook_logs_request(page: i64) -> (r: ApiRequest)
    ensures
        is_call(r, HttpMethod::Get, "webhook-logs"@, seq![("page"@, ji(page as int))], false),
{
    let p = vec![mem("page", json_i64(page))];
    proof {
        lemma_jv_entries(p@);
        assert(jv_entries(p@) =~= seq![("page"@, ji(page as int))]);
    }
    call(HttpMethod::Get, "webhook-logs", p, false)
}

// ---------------------------------------------------------------------------
// Free numbers
// ---------------------------------------------------------------------------

/// `getFreeCountryList`.
pub fn free_countries_request() -> (r: ApiRequest)
    ensures
        is_call(r, HttpMethod::Get, "getFreeCountryList"@, seq![], true),
{
    plain_call("getFreeCountryList", true)
}

/// `getFreePhoneList` for a country.
pub fn free_numbers_request(country: i64) -> (r: ApiRequest)
    ensures
        is_call(r, HttpMethod::Get, "getFreePhoneList"@, seq![("country"@, ji(country as int))], true),
{
    country_call("getFreePhoneList", country)
}

/// `getFreeMessageList` for a phone and page.
pub fn free_messages_request(phone: i64, page: i64) -> (r: ApiRequest)
    ensures
        is_call(r, HttpMethod::Get, "getFreeMessageList"@, seq![("phone"@, ji(phone as int)), ("page"@, ji(page as int))], true),
{
    let p = vec![mem("phone", json_i64(phone)), mem("page", json_i64(page))];
    proof {
        lemma_jv_entries(p@);
        assert(jv_entries(p@) =~= seq![("phone"@, ji(phone as int)), ("page"@, ji(page as int))]);
    }
    call(HttpMethod::Get, "getFreeMessageList", p, true)
}

/// `getFreeList`.
pub fn free_list_request() -> (r: ApiRequest)
    ensures
        is_call(r, HttpMethod::Get, "getFreeList"@, seq![], true),
{
    plain_call("getFreeList", true)
}

// ---------------------------------------------------------------------------
// Addressing and authentication
// ---------------------------------------------------------------------------

/// The URL of a method: the base without trailing `/`, a `/`, the path
/// without leading `/`, and `.php` when the method takes it.
pub open spec fn join_url_spec(base: Seq<char>, path: Seq<char>, php: bool) -> Seq<char> {
    let b = trim_end_char_spec(base, '/');
    let p = trim_start_char_spec(path, '/');
    if php {
        b + "/"@ + p + ".php"@
    } else {
        b + "/"@ + p
    }
}

/// The URL of a method.
pub fn join_url(base: &str, path: &str, php_suffix: bool) -> (r: String)
    ensures
        r@ == join_url_spec(base@, path@, php_suffix),
{
    let b = trim_end_char(base, '/');
    let p = trim_start_char(path, '/');
    let u = cat3(b.as_str(), "/", p.as_str());
    if php_suffix {
        cat(u.as_str(), ".php")
    } else {
        u
    }
}

/// A request ready to send.
#[derive(Debug)]
pub struct PlannedRequest {
    /// GET or POST.
    pub method: HttpMethod,
    /// Full URL.
    pub url: String,
    /// Query pairs (GET).
    pub query: Vec<(String, String)>,
    /// JSON body (POST).
    pub body: Option<Json>,
    /// Bearer token for the `Authorization` header, when configured.
    pub bearer: Option<String>,
}

/// The parameters of a call with the configured authentication merged in.
pub open spec fn authed_params(c: ConfigV, params: JsonV) -> JsonV {
    with_auth_spec(params, c.apikey, c.lang, c.dev_id)
}

/// Address and authenticate a call: the URL below the base, the
/// parameters with `apikey` / `lang` / `dev_id` merged in (as query pairs
/// for GET, as the JSON body for POST), and `Bearer {oauth}` when an OAuth
/// token is configured.
pub fn plan_request(config: &Config, req: ApiRequest) -> (r: PlannedRequest)
    ensures
        r.method == req.method,
        r.url@ == join_url_spec(config@.base_url, req.path@, req.php_suffix),
        r.bearer matches Some(b) ==> (config@.oauth matches Some(t) && b@ == "Bearer "@ + t),
        r.bearer is None ==> config@.oauth is None,
        req.method == HttpMethod::Get ==> r.body is None && pairs_view(r.query@) == flatten_spec(
            authed_params(config@, req.params@)->Object_0,
            None,
        ),
        req.method == HttpMethod::Post ==> r.query@.len() == 0 && (r.body matches Some(b) && b@
            == authed_params(config@, req.params@)),
{
    let url = join_url(config.base_url.as_str(), req.path.as_str(), req.php_suffix);
    let apikey: Option<&str> = match &config.apikey {
        Some(k) => Some(k.as_str()),
        None => None,
    };
    let params = with_auth_params(req.params, apikey, config.lang.as_str(), config.dev_id);
    let bearer = match &config.oauth {
        Some(t) => Some(cat("Bearer ", t.as_str())),
        None => None,
    };
    match req.method {
        HttpMethod::Get => {
            let query = match to_query_pairs(&params) {
                Ok(q) => q,
                Err(_) => Vec::new(),
            };
            PlannedRequest { method: HttpMethod::Get, url, query, body: None, bearer }
        },
        HttpMethod::Post => PlannedRequest {
            method: HttpMethod::Post,
            url,
            query: Vec::new(),
            body: Some(params),
            bearer,
        },
    }
}

/// The parameters of a state listing, member by member: the
/// `message_to_code` number, the `orderby` text, `msg_list` and `clean` as
/// `1`/`0`, and `type` `repeat` exactly when `repeat` is asked, else
/// `index`.
pub proof fn law_state_params(message_to_code: i64, orderby: Seq<char>, msg_list: bool, clean: bool, repeat: bool)
    ensures
        state_params(message_to_code, orderby, msg_list, clean, repeat) == seq![
            ("message_to_code"@, JsonV::Number(int_text(message_to_code as int))),
            ("orderby"@, JsonV::String(orderby)),
            ("msg_list"@, JsonV::Number(int_text(if msg_list { 1int } else { 0int }))),
            ("clean"@, JsonV::Number(int_text(if clean { 1int } else { 0int }))),
            ("type"@, JsonV::String(if repeat { "repeat"@ } else { "index"@ })),
        ],
{
}

} // verus!
