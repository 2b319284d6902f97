//! Reading incoming webhook payloads.

use onlinesim_rs_api::error::Error;
use onlinesim_rs_api::json::{json_i64, json_str, Json};
use onlinesim_rs_api::types::webhook::{parse_webhook_json, WebhookPayload, WebhookType};

#[test]
fn parse_flat_payload_string_fields() {
    let json = r#"{
        "user_id": "204355",
        "country_code": "7",
        "number": "+79918397701",
        "sender": "OKru",
        "message": "your code 612045",
        "time_start": "2023-04-26 12:37:55",
        "time_left": "880",
        "operation_id": "91763432",
        "webhook_type": "receiving_sms",
        "code": "612045"
    }"#;
    let p = parse_webhook_json(json).unwrap();
    assert_eq!(p.user_id, 204355);
    assert_eq!(p.country_code, 7);
    assert_eq!(p.operation_id, 91763432);
    assert_eq!(p.code, "612045");
    assert_eq!(p.webhook_type, WebhookType::ReceivingSms);
}

#[test]
fn parse_numeric_and_wrapped_data() {
    let json = r#"{
        "data": {
            "user_id": 1,
            "country_code": 1,
            "number": "+19001234567",
            "sender": "Telegram",
            "message": "123456",
            "time_start": "2026-01-01 00:00:00",
            "time_left": 10,
            "operation_id": 42,
            "webhook_type": "rent_sms",
            "code": "123456"
        }
    }"#;
    let p = WebhookPayload::parse(json).unwrap();
    assert_eq!(p.webhook_type, WebhookType::RentSms);
    assert_eq!(p.operation_id, 42);
    let q = WebhookPayload::from_slice(json.as_bytes()).unwrap();
    assert_eq!(q, p);
}

#[test]
fn payload_field_errors_name_the_field() {
    let missing = r#"{ "user_id": 1, "country_code": 1 }"#;
    match WebhookPayload::parse(missing) {
        Err(e @ Error::Json(_)) => assert_eq!(e.to_display_string(), "JSON error: missing field `number`"),
        other => panic!("unexpected {other:?}"),
    }
    match parse_webhook_json(missing) {
        Err(Error::Unexpected(m)) => assert_eq!(m, "invalid webhook payload: missing field `number`"),
        other => panic!("unexpected {other:?}"),
    }
    let bad = r#"{ "user_id": "x1" }"#;
    match parse_webhook_json(bad) {
        Err(Error::Unexpected(m)) => assert_eq!(m, "invalid webhook payload: invalid value for field `user_id`"),
        other => panic!("unexpected {other:?}"),
    }
    match parse_webhook_json("{not json") {
        Err(Error::Unexpected(m)) => assert!(m.starts_with("invalid webhook payload: ")),
        other => panic!("unexpected {other:?}"),
    }
    assert!(matches!(WebhookPayload::parse("[1,"), Err(Error::Json(_))));
}

#[test]
fn payload_from_parsed_value() {
    let v = Json::Object(vec![
        ("user_id".to_string(), json_str(" 5 ")),
        ("country_code".to_string(), json_i64(7)),
        ("number".to_string(), json_str("n")),
        ("sender".to_string(), json_str("s")),
        ("message".to_string(), json_str("m")),
        ("time_start".to_string(), json_str("t")),
        ("time_left".to_string(), json_i64(0)),
        ("operation_id".to_string(), json_i64(9)),
        ("webhook_type".to_string(), json_str("something_new")),
        ("code".to_string(), json_str("c")),
    ]);
    let p = WebhookPayload::from_json(v).unwrap();
    assert_eq!(p.user_id, 5);
    assert_eq!(p.webhook_type, WebhookType::Other);
    let not_string_type = Json::Object(vec![
        ("user_id".to_string(), json_i64(1)),
        ("country_code".to_string(), json_i64(7)),
        ("number".to_string(), json_str("n")),
        ("sender".to_string(), json_str("s")),
        ("message".to_string(), json_str("m")),
        ("time_start".to_string(), json_str("t")),
        ("time_left".to_string(), json_i64(0)),
        ("operation_id".to_string(), json_i64(9)),
        ("webhook_type".to_string(), json_i64(3)),
    ]);
    assert_eq!(
        WebhookPayload::from_json(not_string_type).unwrap_err(),
        "invalid type for field `webhook_type`"
    );
}
