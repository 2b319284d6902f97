//! Errors, the API error table, and lenient field readings.

use onlinesim_rs_api::error::{request_error_message, Error};
use onlinesim_rs_api::json::Json;
use onlinesim_rs_api::util::{i64_flexible, map_members, opt_json_value, opt_string_flexible, string_flexible};

fn s(x: &str) -> String {
    x.to_string()
}

#[test]
fn no_number_codes() {
    assert!(matches!(
        Error::from_api_code("NO_NUMBER"),
        Error::NoNumber { .. }
    ));
    assert!(matches!(
        Error::from_api_code("NO_NUMBER_FOR_FORWARD"),
        Error::NoNumber { .. }
    ));
}

#[test]
fn request_code_message() {
    let err = Error::from_api_code("ERROR_NO_KEY");
    let text = err.to_display_string();
    assert!(text.contains("no apikey"));
    match err {
        Error::Request { code, message } => {
            assert_eq!(code, "ERROR_NO_KEY");
            assert_eq!(message, "no apikey");
        }
        other => panic!("unexpected {other:?}"),
    }
}

#[test]
fn free_number_accepts_integer_number() {
    let v = Json::Number(s("79001234567"));
    assert_eq!(string_flexible(&v).as_deref(), Some("79001234567"));
}

#[test]
fn free_message_my_number_accepts_string_or_int() {
    let as_str = Json::String(s("7900"));
    assert_eq!(opt_string_flexible(&as_str).unwrap().as_deref(), Some("7900"));

    let as_int = Json::Number(s("7900"));
    assert_eq!(opt_string_flexible(&as_int).unwrap().as_deref(), Some("7900"));
}

#[test]
fn error_message_table() {
    assert_eq!(request_error_message("ERROR_WRONG_KEY"), "wrong apikey");
    assert_eq!(request_error_message("TZ_NUM_WAIT"), "waiting for response");
    assert_eq!(request_error_message("ERROR_WRONG_TZID"), "error in the number format");
    assert_eq!(request_error_message("NOT_A_CODE"), "unknown API error");
    assert_eq!(request_error_message(""), "unknown API error");
}

#[test]
fn no_number_error_keeps_code() {
    match Error::from_api_code("NO_NUMBER") {
        Error::NoNumber { code } => assert_eq!(code, "NO_NUMBER"),
        other => panic!("unexpected {other:?}"),
    }
    match Error::from_api_code("NO_NUMBER_FOR_FORWARD") {
        Error::NoNumber { code } => assert_eq!(code, "NO_NUMBER_FOR_FORWARD"),
        other => panic!("unexpected {other:?}"),
    }
}

#[test]
fn unknown_code_is_request_error() {
    match Error::from_api_code("SOMETHING_ELSE") {
        Error::Request { code, message } => {
            assert_eq!(code, "SOMETHING_ELSE");
            assert_eq!(message, "unknown API error");
        }
        other => panic!("unexpected {other:?}"),
    }
}

#[test]
fn display_texts() {
    assert_eq!(
        Error::from_api_code("ERROR_NO_KEY").to_display_string(),
        "no apikey (ERROR_NO_KEY)"
    );
    assert_eq!(
        Error::from_api_code("NO_NUMBER").to_display_string(),
        "no number available: NO_NUMBER"
    );
    assert_eq!(Error::Timeout.to_display_string(), "timeout waiting for SMS code");
    assert_eq!(
        Error::Unexpected(s("bad")).to_display_string(),
        "unexpected response: bad"
    );
    let json_err = serde_json::from_str::<serde_json::Value>("{").unwrap_err();
    assert!(Error::Json(json_err).to_display_string().starts_with("JSON error: "));
}

#[test]
fn i64_from_number_or_string() {
    assert_eq!(i64_flexible(&Json::Number(s("42"))), Ok(42));
    assert_eq!(i64_flexible(&Json::Number(s("-7"))), Ok(-7));
    assert_eq!(i64_flexible(&Json::String(s(" 204355 "))), Ok(204355));
    assert_eq!(i64_flexible(&Json::String(s("+5"))), Ok(5));
    assert!(i64_flexible(&Json::Number(s("1.5"))).is_err());
    assert!(i64_flexible(&Json::Number(s("9223372036854775808"))).is_err());
    assert_eq!(
        i64_flexible(&Json::Number(s("-9223372036854775808"))),
        Ok(i64::MIN)
    );
    assert!(i64_flexible(&Json::String(s("abc"))).is_err());
    assert!(i64_flexible(&Json::String(s(""))).is_err());
    assert!(i64_flexible(&Json::Bool(true)).is_err());
    assert!(i64_flexible(&Json::Null).is_err());
}

#[test]
fn string_from_string_or_integer_only() {
    assert_eq!(string_flexible(&Json::String(s("abc"))).as_deref(), Some("abc"));
    assert_eq!(string_flexible(&Json::Number(s("-12"))).as_deref(), Some("-12"));
    assert_eq!(string_flexible(&Json::Number(s("1.5"))), None);
    assert_eq!(string_flexible(&Json::Bool(false)), None);
    assert_eq!(string_flexible(&Json::Null), None);
}

#[test]
fn optional_string_readings() {
    assert_eq!(opt_string_flexible(&Json::Null), Ok(None));
    assert_eq!(opt_string_flexible(&Json::Bool(true)), Ok(Some(s("true"))));
    assert_eq!(opt_string_flexible(&Json::Number(s("2.5"))), Ok(Some(s("2.5"))));
    assert_eq!(
        opt_string_flexible(&Json::Array(vec![Json::Number(s("1"))])),
        Err(s("expected string or number, got [1]"))
    );
}

#[test]
fn maps_may_arrive_as_empty_arrays() {
    assert_eq!(map_members(Json::Array(vec![]), "map").unwrap().len(), 0);
    assert_eq!(map_members(Json::Null, "map").unwrap().len(), 0);
    let obj = Json::Object(vec![(s("a"), Json::Number(s("1")))]);
    let members = map_members(obj, "map").unwrap();
    assert_eq!(members.len(), 1);
    assert_eq!(members[0].0, "a");
    assert_eq!(
        map_members(Json::String(s("x")), "f64 map").unwrap_err(),
        "expected object or array for f64 map, got \"x\""
    );
}

#[test]
fn user_number_reject_accepts_object_or_array() {
    let obj = opt_json_value(Json::Object(vec![])).unwrap();
    assert_eq!(obj.to_text(), "{}");
    let arr = opt_json_value(Json::Array(vec![])).unwrap();
    assert_eq!(arr.to_text(), "[]");
    assert!(opt_json_value(Json::Null).is_none());
}
