//! Errors of the OnlineSim client, and the table of API error messages.
use vstd::prelude::*;

use crate::text::{cat, cat3, owned, str_eq};

verus! {

/// Human-readable message for an OnlineSim API error code.
pub open spec fn error_message_spec(code: Seq<char>) -> Seq<char> {
    if code == "ACCOUNT_BLOCKED"@ {
        "account blocked"@
    } else if code == "ERROR_WRONG_KEY"@ {
        "wrong apikey"@
    } else if code == "ERROR_NO_KEY"@ {
        "no apikey"@
    } else if code == "ERROR_NO_SERVICE"@ {
        "service not specified"@
    } else if code == "REQUEST_NOT_FOUND"@ {
        "API method not specified"@
    } else if code == "API_ACCESS_DISABLED"@ {
        "api disabled"@
    } else if code == "API_ACCESS_IP"@ {
        "access from this ip is disabled in the profile"@
    } else if code == "WARNING_NO_NUMS"@ {
        "no matching numbers"@
    } else if code == "TZ_INPOOL"@ {
        "waiting for a number to be dedicated to the operation"@
    } else if code == "TZ_NUM_WAIT"@ {
        "waiting for response"@
    } else if code == "TZ_NUM_ANSWER"@ {
        "response has arrived"@
    } else if code == "TZ_OVER_EMPTY"@ {
        "response did not arrive within the specified time"@
    } else if code == "TZ_OVER_OK"@ {
        "operation has been completed"@
    } else if code == "ERROR_NO_TZID"@ {
        "tzid is not specified"@
    } else if code == "ERROR_NO_OPERATIONS"@ {
        "no operations"@
    } else if code == "ACCOUNT_IDENTIFICATION_REQUIRED"@ {
        "You have to go through an identification process: to order a messenger - in any way, for forward - on the passport."@
    } else if code == "EXCEEDED_CONCURRENT_OPERATIONS"@ {
        "maximum quantity of numbers booked concurrently is exceeded for your account"@
    } else if code == "NO_NUMBER"@ {
        "temporarily no numbers available for the selected service"@
    } else if code == "TIME_INTERVAL_ERROR"@ {
        "delayed SMS reception is not possible at this interval of time"@
    } else if code == "INTERVAL_CONCURRENT_REQUESTS_ERROR"@ {
        "maximum quantity of concurrent requests for number issue is exceeded, try again later"@
    } else if code == "TRY_AGAIN_LATER"@ {
        "temporarily unable to perform the request"@
    } else if code == "NO_FORWARD_FOR_DEFFER"@ {
        "forwarding can be activated only for online reception"@
    } else if code == "NO_NUMBER_FOR_FORWARD"@ {
        "there are no numbers for forwarding"@
    } else if code == "ERROR_LENGTH_NUMBER_FOR_FORWARD"@ {
        "wrong length of the number for forwarding"@
    } else if code == "DUPLICATE_OPERATION"@ {
        "adding operations with identical parameters"@
    } else if code == "ERROR_NO_NUMBER"@ {
        "number is not specified"@
    } else if code == "ERROR_PARAMS"@ {
        "one or both parameters are wrong"@
    } else if code == "LIFICYCLE_NUM_EXPIRED"@ {
        "the number has expired"@
    } else if code == "NEED_EXTENSION_NUMBER"@ {
        "you have to extend the number, see the Extension tab"@
    } else if code == "ERROR_NUMBERS_PARAMS"@ {
        "error in the number format"@
    } else if code == "ERROR_WRONG_TZID"@ {
        "error in the number format"@
    } else if code == "NO_COMPLETE_TZID"@ {
        "unable to complete the operation."@
    } else if code == "NO_CONFIRM_FORWARD"@ {
        "unable to confirm forwarding"@
    } else if code == "ERROR_NO_SERVICE_REPEAT"@ {
        "no services for repeated reception"@
    } else if code == "SERVICE_TO_NUMBER_EMPTY"@ {
        "no numbers for repeated reception for this service"@
    } else {
        "unknown API error"@
    }
}

/// Look up a human-readable message for an OnlineSim API error code.
pub fn request_error_message(code: &str) -> (r: &'static str)
    ensures
        r@ == error_message_spec(code@),
{
    if str_eq(code, "ACCOUNT_BLOCKED") {
        "account blocked"
    } else if str_eq(code, "ERROR_WRONG_KEY") {
        "wrong apikey"
    } else if str_eq(code, "ERROR_NO_KEY") {
        "no apikey"
    } else if str_eq(code, "ERROR_NO_SERVICE") {
        "service not specified"
    } else if str_eq(code, "REQUEST_NOT_FOUND") {
        "API method not specified"
    } else if str_eq(code, "API_ACCESS_DISABLED") {
        "api disabled"
    } else if str_eq(code, "API_ACCESS_IP") {
        "access from this ip is disabled in the profile"
    } else if str_eq(code, "WARNING_NO_NUMS") {
        "no matching numbers"
    } else if str_eq(code, "TZ_INPOOL") {
        "waiting for a number to be dedicated to the operation"
    } else if str_eq(code, "TZ_NUM_WAIT") {
        "waiting for response"
    } else if str_eq(code, "TZ_NUM_ANSWER") {
        "response has arrived"
    } else if str_eq(code, "TZ_OVER_EMPTY") {
        "response did not arrive within the specified time"
    } else if str_eq(code, "TZ_OVER_OK") {
        "operation has been completed"
    } else if str_eq(code, "ERROR_NO_TZID") {
        "tzid is not specified"
    } else if str_eq(code, "ERROR_NO_OPERATIONS") {
        "no operations"
    } else if str_eq(code, "ACCOUNT_IDENTIFICATION_REQUIRED") {
        "You have to go through an identification process: to order a messenger - in any way, for forward - on the passport."
    } else if str_eq(code, "EXCEEDED_CONCURRENT_OPERATIONS") {
        "maximum quantity of numbers booked concurrently is exceeded for your account"
    } else if str_eq(code, "NO_NUMBER") {
        "temporarily no numbers available for the selected service"
    } else if str_eq(code, "TIME_INTERVAL_ERROR") {
        "delayed SMS reception is not possible at this interval of time"
    } else if str_eq(code, "INTERVAL_CONCURRENT_REQUESTS_ERROR") {
        "maximum quantity of concurrent requests for number issue is exceeded, try again later"
    } else if str_eq(code, "TRY_AGAIN_LATER") {
        "temporarily unable to perform the request"
    } else if str_eq(code, "NO_FORWARD_FOR_DEFFER") {
        "forwarding can be activated only for online reception"
    } else if str_eq(code, "NO_NUMBER_FOR_FORWARD") {
        "there are no numbers for forwarding"
    } else if str_eq(code, "ERROR_LENGTH_NUMBER_FOR_FORWARD") {
        "wrong length of the number for forwarding"
    } else if str_eq(code, "DUPLICATE_OPERATION") {
        "adding operations with identical parameters"
    } else if str_eq(code, "ERROR_NO_NUMBER") {
        "number is not specified"
    } else if str_eq(code, "ERROR_PARAMS") {
        "one or both parameters are wrong"
    } else if str_eq(code, "LIFICYCLE_NUM_EXPIRED") {
        "the number has expired"
    } else if str_eq(code, "NEED_EXTENSION_NUMBER") {
        "you have to extend the number, see the Extension tab"
    } else if str_eq(code, "ERROR_NUMBERS_PARAMS") {
        "error in the number format"
    } else if str_eq(code, "ERROR_WRONG_TZID") {
        "error in the number format"
    } else if str_eq(code, "NO_COMPLETE_TZID") {
        "unable to complete the operation."
    } else if str_eq(code, "NO_CONFIRM_FORWARD") {
        "unable to confirm forwarding"
    } else if str_eq(code, "ERROR_NO_SERVICE_REPEAT") {
        "no services for repeated reception"
    } else if str_eq(code, "SERVICE_TO_NUMBER_EMPTY") {
        "no numbers for repeated reception for this service"
    } else {
        "unknown API error"
    }
}

/// Errors returned by the client.
#[derive(Debug)]
pub enum Error {
    /// No numbers available (`NO_NUMBER` / `NO_NUMBER_FOR_FORWARD`).
    NoNumber {
        /// API error code.
        code: String,
    },
    /// OnlineSim API returned a non-success `response` code.
    Request {
        /// API error code.
        code: String,
        /// Human-readable message when known.
        message: String,
    },
    /// `wait_code` exceeded the configured attempt limit.
    Timeout,
    /// HTTP transport or status error.
    Http(reqwest::Error),
    /// JSON encode/decode failure.
    Json(serde_json::Error),
    /// Unexpected response shape.
    Unexpected(String),
}

/// Whether an API code means that no number is available.
pub open spec fn is_no_number_code(code: Seq<char>) -> bool {
    code == "NO_NUMBER"@ || code == "NO_NUMBER_FOR_FORWARD"@
}

/// The error for an API `response` code: `NoNumber` for the two
/// no-number codes, otherwise `Request` with the table's message.
pub open spec fn api_code_error(e: Error, code: Seq<char>) -> bool {
    if is_no_number_code(code) {
        e matches Error::NoNumber { code: c } && c@ == code
    } else {
        e matches Error::Request { code: c, message: m } && c@ == code && m@
            == error_message_spec(code)
    }
}

/// The display text of an error whose text does not come from an outside
/// error value (all but `Http` and `Json`).
pub open spec fn known_display(e: Error) -> Option<Seq<char>> {
    match e {
        Error::NoNumber { code } => Some("no number available: "@ + code@),
        Error::Request { code, message } => Some(message@ + " ("@ + code@ + ")"@),
        Error::Timeout => Some("timeout waiting for SMS code"@),
        Error::Unexpected(s) => Some("unexpected response: "@ + s@),
        _ => None,
    }
}

/// `serde::de::Error::custom` for `serde_json::Error`: a data error whose
/// message is `msg` (what serde reports for a field it cannot read).
#[verifier::external_body]
pub(crate) fn json_data_error(msg: &str) -> serde_json::Error {
    <serde_json::Error as serde::de::Error>::custom(msg)
}

/// The text of a `reqwest::Error` (its `Display`).
#[verifier::external_body]
fn reqwest_error_text(e: &reqwest::Error) -> String {
    e.to_string()
}

/// The text of a `serde_json::Error` (its `Display`).
#[verifier::external_body]
pub(crate) fn serde_json_error_text(e: &serde_json::Error) -> String {
    e.to_string()
}

impl Error {
    /// Map an OnlineSim `response` field value to an error.
    pub fn from_api_code(code: &str) -> (r: Error)
        ensures
            api_code_error(r, code@),
    {
        if str_eq(code, "NO_NUMBER") || str_eq(code, "NO_NUMBER_FOR_FORWARD") {
            return Error::NoNumber { code: owned(code) };
        }
        let message = owned(request_error_message(code));
        Error::Request { code: owned(code), message }
    }

    /// The error's display text.
    pub fn to_display_string(&self) -> (r: String)
        ensures
            self matches Error::NoNumber { code } ==> r@ == "no number available: "@ + code@,
            self matches Error::Request { code, message } ==> r@ == message@ + " ("@ + code@
                + ")"@,
            self matches Error::Timeout ==> r@ == "timeout waiting for SMS code"@,
            self matches Error::Unexpected(s) ==> r@ == "unexpected response: "@ + s@,
            known_display(*self) matches Some(t) ==> r@ == t,
            self matches Error::Http(_) ==> r@.len() >= "HTTP error: "@.len() && r@.subrange(
                0,
                "HTTP error: "@.len() as int,
            ) == "HTTP error: "@,
            self matches Error::Json(_) ==> r@.len() >= "JSON error: "@.len() && r@.subrange(
                0,
                "JSON error: "@.len() as int,
            ) == "JSON error: "@,
    {
        match self {
            Error::NoNumber { code } => cat("no number available: ", code.as_str()),
            Error::Request { code, message } => {
                let r = cat3(message.as_str(), " (", code.as_str());
                cat(r.as_str(), ")")
            },
            Error::Timeout => owned("timeout waiting for SMS code"),
            Error::Http(e) => {
                let t = reqwest_error_text(e);
                let r = cat("HTTP error: ", t.as_str());
                assert(r@.subrange(0, "HTTP error: "@.len() as int) =~= "HTTP error: "@);
                r
            },
            Error::Json(e) => {
                let t = serde_json_error_text(e);
                let r = cat("JSON error: ", t.as_str());
                assert(r@.subrange(0, "JSON error: "@.len() as int) =~= "JSON error: "@);
                r
            },
            Error::Unexpected(s) => cat("unexpected response: ", s.as_str()),
        }
    }
}

} // verus!
