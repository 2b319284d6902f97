//! Incoming SMS webhook payload.
use vstd::prelude::*;

use crate::error::{json_data_error, serde_json_error_text, Error};
use crate::json::{clone_json, json_of_bytes, json_of_text, obj_get, parse_json_bytes, parse_json_text, Json, JsonV};
use crate::text::{cat, cat3, str_eq};
use crate::util::{i64_flexible, i64_flexible_spec};

verus! {

/// Service that produced the webhook (`receiving_sms` or `rent_sms`).
#[derive(Debug, Clone, Copy, PartialEq, Eq)]
pub enum WebhookType {
    /// Temporary / single-service SMS reception.
    ReceivingSms,
    /// Long-term number rent.
    RentSms,
    /// Unknown / future type.
    Other,
}

/// The wire string of a webhook type.
pub open spec fn webhook_type_text(t: WebhookType) -> Seq<char> {
    match t {
        WebhookType::ReceivingSms => "receiving_sms"@,
        WebhookType::RentSms => "rent_sms"@,
        WebhookType::Other => "other"@,
    }
}

/// The webhook type a wire string names; any other string is `Other`.
pub open spec fn webhook_type_of(s: Seq<char>) -> WebhookType {
    if s == "receiving_sms"@ {
        WebhookType::ReceivingSms
    } else if s == "rent_sms"@ {
        WebhookType::RentSms
    } else {
        WebhookType::Other
    }
}

impl WebhookType {
    /// Wire string value.
    pub fn as_str(&self) -> (r: &'static str)
        ensures
            r@ == webhook_type_text(*self),
    {
        match self {
            WebhookType::ReceivingSms => "receiving_sms",
            WebhookType::RentSms => "rent_sms",
            WebhookType::Other => "other",
        }
    }

    /// The type named by a wire string (unknown strings give `Other`).
    pub fn from_wire(s: &str) -> (r: WebhookType)
        ensures
            r == webhook_type_of(s@),
    {
        if str_eq(s, "receiving_sms") {
            WebhookType::ReceivingSms
        } else if str_eq(s, "rent_sms") {
            WebhookType::RentSms
        } else {
            WebhookType::Other
        }
    }
}

/// Reading back the wire string of a known type gives that type.
pub proof fn lemma_webhook_type_roundtrip(t: WebhookType)
    requires
        t != WebhookType::Other,
    ensures
        webhook_type_of(webhook_type_text(t)) == t,
{
    reveal_strlit("receiving_sms");
    reveal_strlit("rent_sms");
    assert("receiving_sms"@.len() != "rent_sms"@.len());
}

/// JSON body OnlineSim POSTs to your `webhook_url` when an SMS arrives.
///
/// Respond with **HTTP 200** to acknowledge.
#[derive(Debug, Clone, PartialEq)]
pub struct WebhookPayload {
    /// Profile user id.
    pub user_id: i64,
    /// Country dial code of the number.
    pub country_code: i64,
    /// Phone number (international format when available).
    pub number: String,
    /// SMS sender name or number.
    pub sender: String,
    /// Full SMS text.
    pub message: String,
    /// Operation start time (`Y-m-d H:i:s`).
    pub time_start: String,
    /// Remaining time for the operation (minutes in backend).
    pub time_left: i64,
    /// Operation id (`tzid`).
    pub operation_id: i64,
    /// `receiving_sms` or `rent_sms`.
    pub webhook_type: WebhookType,
    /// Extracted verification code from the SMS.
    pub code: String,
}

/// The part of a webhook body that holds the payload: the `data` member
/// when it is an object (a proxy wraps the payload so), else the body.
pub open spec fn webhook_body_spec(v: JsonV) -> JsonV {
    match obj_get(v, "data"@) {
        Some(d) => if d is Object {
            d
        } else {
            v
        },
        None => v,
    }
}

/// Unwraps `{ "data": { ... } }` into its inner object; anything else is
/// returned as it is.
pub fn webhook_body(v: Json) -> (r: Json)
    ensures
        r@ == webhook_body_spec(v@),
{
    let inner = match v.get("data") {
        Some(d) => if d.is_object() {
            Some(clone_json(d))
        } else {
            None
        },
        None => None,
    };
    match inner {
        Some(d) => d,
        None => v,
    }
}

/// Member `key` when it is a JSON string.
pub open spec fn str_member(v: JsonV, key: Seq<char>) -> Option<Seq<char>> {
    match obj_get(v, key) {
        Some(JsonV::String(s)) => Some(s),
        _ => None,
    }
}

/// Member `key` read as an integer (a JSON number or a decimal string).
pub open spec fn int_member(v: JsonV, key: Seq<char>) -> Option<i64> {
    match obj_get(v, key) {
        Some(x) => i64_flexible_spec(x),
        None => None,
    }
}

/// The `webhook_type` member: a string, unknown names giving `Other`.
pub open spec fn type_member(v: JsonV) -> Option<WebhookType> {
    match str_member(v, "webhook_type"@) {
        Some(s) => Some(webhook_type_of(s)),
        None => None,
    }
}

/// Why member `key` cannot be read as a string: absent, or not a string.
pub open spec fn str_error(v: JsonV, key: Seq<char>) -> Option<Seq<char>> {
    match obj_get(v, key) {
        None => Some("missing field `"@ + key + "`"@),
        Some(JsonV::String(_)) => None,
        Some(_) => Some("invalid type for field `"@ + key + "`"@),
    }
}

/// Why member `key` cannot be read as an integer: absent, or neither an
/// integer nor a decimal string.
pub open spec fn int_error(v: JsonV, key: Seq<char>) -> Option<Seq<char>> {
    match obj_get(v, key) {
        None => Some("missing field `"@ + key + "`"@),
        Some(x) => if i64_flexible_spec(x) is Some {
            None
        } else {
            Some("invalid value for field `"@ + key + "`"@)
        },
    }
}

/// The first field of a payload, in the order of the struct, that cannot
/// be read, with the reason; `None` when every field is readable.
pub open spec fn payload_error(v: JsonV) -> Option<Seq<char>> {
    if int_error(v, "user_id"@) is Some {
        int_error(v, "user_id"@)
    } else if int_error(v, "country_code"@) is Some {
        int_error(v, "country_code"@)
    } else if str_error(v, "number"@) is Some {
        str_error(v, "number"@)
    } else if str_error(v, "sender"@) is Some {
        str_error(v, "sender"@)
    } else if str_error(v, "message"@) is Some {
        str_error(v, "message"@)
    } else if str_error(v, "time_start"@) is Some {
        str_error(v, "time_start"@)
    } else if int_error(v, "time_left"@) is Some {
        int_error(v, "time_left"@)
    } else if int_error(v, "operation_id"@) is Some {
        int_error(v, "operation_id"@)
    } else if str_error(v, "webhook_type"@) is Some {
        str_error(v, "webhook_type"@)
    } else if str_error(v, "code"@) is Some {
        str_error(v, "code"@)
    } else {
        None
    }
}

/// Whether `p` holds the fields of payload object `v`.
pub open spec fn payload_of(v: JsonV, p: WebhookPayload) -> bool {
    &&& int_member(v, "user_id"@) == Some(p.user_id)
    &&& int_member(v, "country_code"@) == Some(p.country_code)
    &&& str_member(v, "number"@) == Some(p.number@)
    &&& str_member(v, "sender"@) == Some(p.sender@)
    &&& str_member(v, "message"@) == Some(p.message@)
    &&& str_member(v, "time_start"@) == Some(p.time_start@)
    &&& int_member(v, "time_left"@) == Some(p.time_left)
    &&& int_member(v, "operation_id"@) == Some(p.operation_id)
    &&& type_member(v) == Some(p.webhook_type)
    &&& str_member(v, "code"@) == Some(p.code@)
}

fn string_member(v: &Json, key: &str) -> (r: Result<String, String>)
    ensures
        r matches Ok(s) ==> str_error(v@, key@) is None && str_member(v@, key@) == Some(s@),
        r matches Err(m) ==> str_error(v@, key@) == Some(m@),
{
    match v.get(key) {
        Some(Json::String(s)) => Ok(s.clone()),
        Some(_) => Err(cat3("invalid type for field `", key, "`")),
        None => Err(cat3("missing field `", key, "`")),
    }
}

fn integer_member(v: &Json, key: &str) -> (r: Result<i64, String>)
    ensures
        r matches Ok(n) ==> int_error(v@, key@) is None && int_member(v@, key@) == Some(n),
        r matches Err(m) ==> int_error(v@, key@) == Some(m@),
{
    match v.get(key) {
        Some(x) => match i64_flexible(x) {
            Ok(n) => Ok(n),
            Err(_) => Err(cat3("invalid value for field `", key, "`")),
        },
        None => Err(cat3("missing field `", key, "`")),
    }
}

fn payload_fields(b: &Json) -> (r: Result<WebhookPayload, String>)
    ensures
        r matches Ok(p) ==> payload_error(b@) is None && payload_of(b@, p),
        r matches Err(m) ==> payload_error(b@) == Some(m@),
{
    let user_id = integer_member(b, "user_id")?;
    let country_code = integer_member(b, "country_code")?;
    let number = string_member(b, "number")?;
    let sender = string_member(b, "sender")?;
    let message = string_member(b, "message")?;
    let time_start = string_member(b, "time_start")?;
    let time_left = integer_member(b, "time_left")?;
    let operation_id = integer_member(b, "operation_id")?;
    let webhook_type = match string_member(b, "webhook_type") {
        Ok(s) => WebhookType::from_wire(s.as_str()),
        Err(m) => return Err(m),
    };
    let code = string_member(b, "code")?;
    Ok(WebhookPayload {
        user_id,
        country_code,
        number,
        sender,
        message,
        time_start,
        time_left,
        operation_id,
        webhook_type,
        code,
    })
}

impl WebhookPayload {
    /// Read a payload from a parsed JSON body, flat or wrapped in `data`.
    /// Integers may arrive as numbers or decimal strings; the first field
    /// that cannot be read is reported by name, an absent one as
    /// "missing field" and the name in backquotes.
    pub fn from_json(v: Json) -> (r: Result<WebhookPayload, String>)
        ensures
            payload_error(webhook_body_spec(v@)) is None ==> (r matches Ok(p) && payload_of(
                webhook_body_spec(v@),
                p,
            )),
            payload_error(webhook_body_spec(v@)) matches Some(e) ==> (r matches Err(m) && m@ == e),
    {
        let b = webhook_body(v);
        payload_fields(&b)
    }

    /// Read a parsed body; a field that cannot be read is a JSON data error.
    fn from_parsed(v: Json) -> (r: Result<WebhookPayload, Error>)
        ensures
            payload_result(v@, r),
    {
        match Self::from_json(v) {
            Ok(p) => Ok(p),
            Err(m) => Err(Error::Json(json_data_error(m.as_str()))),
        }
    }

    /// Parse a webhook body given as JSON bytes, flat or wrapped in `data`.
    pub fn from_slice(bytes: &[u8]) -> (r: Result<WebhookPayload, Error>)
        ensures
            json_of_bytes(bytes@) is None ==> r matches Err(Error::Json(_)),
            json_of_bytes(bytes@) matches Some(v) ==> payload_result(v, r),
    {
        match parse_json_bytes(bytes) {
            Ok(v) => Self::from_parsed(v),
            Err(e) => Err(Error::Json(e)),
        }
    }

    /// Parse a webhook body given as a JSON string, flat or wrapped in
    /// `data`.
    pub fn parse(s: &str) -> (r: Result<WebhookPayload, Error>)
        ensures
            json_of_text(s@) is None ==> r matches Err(Error::Json(_)),
            json_of_text(s@) matches Some(v) ==> payload_result(v, r),
    {
        match parse_json_text(s) {
            Ok(v) => Self::from_parsed(v),
            Err(e) => Err(Error::Json(e)),
        }
    }
}

/// What reading a parsed body `v` gives: the payload its fields hold when
/// every field is readable, else a JSON data error.
pub open spec fn payload_result(v: JsonV, r: Result<WebhookPayload, Error>) -> bool {
    &&& payload_error(webhook_body_spec(v)) is None ==> (r matches Ok(p) && payload_of(
        webhook_body_spec(v),
        p,
    ))
    &&& payload_error(webhook_body_spec(v)) is Some ==> r matches Err(Error::Json(_))
}

/// Whether JSON text `s` holds a readable payload.
pub open spec fn text_has_payload(s: Seq<char>) -> bool {
    json_of_text(s) matches Some(v) && payload_error(webhook_body_spec(v)) is None
}

/// Parse a webhook body given as a JSON string; any failure (text that is
/// not JSON, a field that cannot be read) is reported as
/// `Unexpected("invalid webhook payload: ...")`.
pub fn parse_webhook_json(json: &str) -> (r: Result<WebhookPayload, Error>)
    ensures
        text_has_payload(json@) ==> (r matches Ok(p) && payload_of(
            webhook_body_spec(json_of_text(json@).unwrap()),
            p,
        )),
        !text_has_payload(json@) ==> (r matches Err(Error::Unexpected(m)) && m@.len()
            >= "invalid webhook payload: "@.len() && m@.subrange(
            0,
            "invalid webhook payload: "@.len() as int,
        ) == "invalid webhook payload: "@),
{
    match WebhookPayload::parse(json) {
        Ok(p) => Ok(p),
        Err(e) => Err(webhook_parse_error(e)),
    }
}

/// What `parse_webhook_json` reports for a failed parse: a JSON error
/// becomes `Unexpected("invalid webhook payload: ...")`, any other error is
/// kept.
pub fn webhook_parse_error(e: Error) -> (r: Error)
    ensures
        e matches Error::Json(_) ==> (r matches Error::Unexpected(s) && s@.len()
            >= "invalid webhook payload: "@.len() && s@.subrange(
            0,
            "invalid webhook payload: "@.len() as int,
        ) == "invalid webhook payload: "@),
        !(e matches Error::Json(_)) ==> r == e,
{
    match e {
        Error::Json(err) => {
            let t = serde_json_error_text(&err);
            let s = cat("invalid webhook payload: ", t.as_str());
            assert(s@.subrange(0, "invalid webhook payload: "@.len() as int)
                =~= "invalid webhook payload: "@);
            Error::Unexpected(s)
        },
        other => other,
    }
}

/// Delivery status stored in webhook logs.
#[derive(Debug, Clone, Copy, PartialEq, Eq)]
pub enum WebhookLogStatus {
    /// Queued / in flight.
    Pending,
    /// Delivered (proxy reported success).
    Success,
    /// Delivery failed.
    Fail,
    /// Unknown status string.
    Other,
}

impl WebhookLogStatus {
    /// The status named by a wire string (unknown strings give `Other`).
    pub fn from_wire(s: &str) -> (r: WebhookLogStatus)
        ensures
            s@ == "pending"@ ==> r == WebhookLogStatus::Pending,
            s@ != "pending"@ && s@ == "success"@ ==> r == WebhookLogStatus::Success,
            s@ != "pending"@ && s@ != "success"@ && s@ == "fail"@ ==> r
                == WebhookLogStatus::Fail,
            s@ != "pending"@ && s@ != "success"@ && s@ != "fail"@ ==> r
                == WebhookLogStatus::Other,
    {
        if str_eq(s, "pending") {
            WebhookLogStatus::Pending
        } else if str_eq(s, "success") {
            WebhookLogStatus::Success
        } else if str_eq(s, "fail") {
            WebhookLogStatus::Fail
        } else {
            WebhookLogStatus::Other
        }
    }
}

/// A payload read from a body holds that body's members: each string field
/// is the string member of the same name, each integer field the reading of
/// the member of the same name, and the type the one its member names.
pub proof fn law_payload_fields_from_members(b: JsonV, p: WebhookPayload)
    requires
        payload_of(b, p),
    ensures
        obj_get(b, "number"@) == Some(JsonV::String(p.number@)),
        obj_get(b, "sender"@) == Some(JsonV::String(p.sender@)),
        obj_get(b, "message"@) == Some(JsonV::String(p.message@)),
        obj_get(b, "time_start"@) == Some(JsonV::String(p.time_start@)),
        obj_get(b, "code"@) == Some(JsonV::String(p.code@)),
        obj_get(b, "user_id"@) matches Some(x) && i64_flexible_spec(x) == Some(p.user_id),
        obj_get(b, "country_code"@) matches Some(x) && i64_flexible_spec(x) == Some(p.country_code),
        obj_get(b, "time_left"@) matches Some(x) && i64_flexible_spec(x) == Some(p.time_left),
        obj_get(b, "operation_id"@) matches Some(x) && i64_flexible_spec(x) == Some(p.operation_id),
        obj_get(b, "webhook_type"@) matches Some(JsonV::String(t)) && webhook_type_of(t)
            == p.webhook_type,
{
}

} // verus!
