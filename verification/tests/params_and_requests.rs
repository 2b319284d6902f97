//! Request parameters, authentication, addressing and response bodies.

use onlinesim_rs_api::api::{
    first_or, join_url, order_request, plan_request, poll_request, price_request, rent_state_request,
    set_webhook_request, webhook_logs_request, webhook_url_param, HttpMethod,
};
use onlinesim_rs_api::builder::ClientBuilder;
use onlinesim_rs_api::error::Error;
use onlinesim_rs_api::json::{json_i64, json_str, Json};
use onlinesim_rs_api::types::numbers::GetNumberParams;
use onlinesim_rs_api::util::{
    i64_flexible, map_members, msg_to_code, opt_json_value, parse_api_value, to_query_pairs,
    with_auth_params,
};

fn s(x: &str) -> String {
    x.to_string()
}

fn pairs(v: &[(&str, &str)]) -> Vec<(String, String)> {
    v.iter().map(|(a, b)| (s(a), s(b))).collect()
}

#[test]
fn api_value_with_error_code_is_request_error() {
    let body = Json::Object(vec![(s("response"), json_str("ERROR_WRONG_KEY"))]);
    match parse_api_value(body) {
        Err(Error::Request { code, message }) => {
            assert_eq!(code, "ERROR_WRONG_KEY");
            assert_eq!(message, "wrong apikey");
        }
        other => panic!("unexpected {other:?}"),
    }
    let body = Json::Object(vec![(s("response"), json_str("NO_NUMBER"))]);
    assert!(matches!(parse_api_value(body), Err(Error::NoNumber { .. })));
}

#[test]
fn api_value_success_drops_response() {
    let body = Json::Object(vec![
        (s("response"), json_i64(1)),
        (s("balance"), Json::Number(s("100.0"))),
    ]);
    let v = parse_api_value(body).unwrap();
    assert_eq!(v.to_text(), "{\"balance\":100.0}");

    let body = Json::Object(vec![(s("response"), json_str("1")), (s("tzid"), json_i64(5))]);
    assert_eq!(parse_api_value(body).unwrap().to_text(), "{\"tzid\":5}");

    let arr = Json::Array(vec![Json::Object(vec![(s("tzid"), json_i64(5))])]);
    assert_eq!(parse_api_value(arr).unwrap().to_text(), "[{\"tzid\":5}]");
}

#[test]
fn auth_params_are_merged() {
    let params = Json::Object(vec![(s("service"), json_str("telegram")), (s("lang"), json_str("ru"))]);
    let v = with_auth_params(params, Some("k"), "en", Some(77));
    assert_eq!(
        v.to_text(),
        "{\"apikey\":\"k\",\"dev_id\":77,\"lang\":\"en\",\"service\":\"telegram\"}"
    );
    match &v {
        Json::Object(e) => {
            let names: Vec<&str> = e.iter().map(|(k, _)| k.as_str()).collect();
            assert_eq!(names, vec!["service", "lang", "apikey", "dev_id"]);
        }
        other => panic!("unexpected {other:?}"),
    }
    let v = with_auth_params(Json::Null, None, "en", None);
    assert_eq!(v.to_text(), "{\"lang\":\"en\"}");
}

#[test]
fn query_pairs_flatten_nested_values() {
    let params = Json::Object(vec![
        (s("service"), json_str("telegram")),
        (s("reject"), Json::Array(vec![json_i64(1), Json::Null, json_i64(3)])),
        (s("profile"), Json::Object(vec![(s("webhook_url"), json_str("u")), (s("x"), Json::Null)])),
        (s("skip"), Json::Null),
        (s("number"), Json::Bool(true)),
    ]);
    let q = to_query_pairs(&params).unwrap();
    assert_eq!(
        q,
        pairs(&[
            ("service", "telegram"),
            ("reject[0]", "1"),
            ("reject[2]", "3"),
            ("profile[webhook_url]", "u"),
            ("number", "true"),
        ])
    );
    assert!(to_query_pairs(&Json::Null).unwrap().is_empty());
    match to_query_pairs(&json_i64(3)) {
        Err(Error::Unexpected(m)) => assert_eq!(m, "query params must be an object, got 3"),
        other => panic!("unexpected {other:?}"),
    }
}

#[test]
fn urls_and_planned_requests() {
    assert_eq!(join_url("https://h/api/", "/getNum", true), "https://h/api/getNum.php");
    assert_eq!(join_url("https://h/api", "webhook-logs", false), "https://h/api/webhook-logs");

    let config = ClientBuilder::new()
        .apikey("key")
        .oauth("tok")
        .base_url("http://127.0.0.1:9/api/")
        .finish_config();
    let planned = plan_request(&config, price_request("telegram", 7));
    assert_eq!(planned.method, HttpMethod::Get);
    assert_eq!(planned.url, "http://127.0.0.1:9/api/getPrice.php");
    assert_eq!(planned.bearer.as_deref(), Some("Bearer tok"));
    assert!(planned.body.is_none());
    assert_eq!(
        planned.query,
        pairs(&[("service", "telegram"), ("country", "7"), ("apikey", "key"), ("lang", "en")])
    );

    let post = plan_request(&config, set_webhook_request(Some("  https://example.test/hook ")));
    assert_eq!(post.method, HttpMethod::Post);
    assert!(post.query.is_empty());
    assert_eq!(
        post.body.unwrap().to_text(),
        "{\"apikey\":\"key\",\"lang\":\"en\",\"profile\":{\"webhook_url\":\"https://example.test/hook\"}}"
    );
}

#[test]
fn request_builders() {
    let reject = [3i64, 4];
    let p = GetNumberParams::new("telegram").country(44).reject(&reject).extension(true);
    let r = order_request(&p, true);
    assert_eq!(r.path, "getNum");
    assert!(r.php_suffix);
    assert_eq!(
        r.params.to_text(),
        "{\"country\":44,\"extension\":true,\"number\":true,\"reject\":[3,4],\"service\":\"telegram\"}"
    );
    let r = poll_request(1);
    assert_eq!(
        r.params.to_text(),
        "{\"clean\":1,\"message_to_code\":1,\"msg_list\":0,\"orderby\":\"asc\",\"type\":\"index\"}"
    );
    let r = webhook_logs_request(2);
    assert!(!r.php_suffix);
    assert_eq!(r.path, "webhook-logs");
    assert_eq!(rent_state_request(None).path, "rent/getRentState");
    assert_eq!(webhook_url_param(Some("   ")), None);
    assert_eq!(webhook_url_param(None), None);
    assert_eq!(webhook_url_param(Some(" a ")), Some(s("a")));
}

#[test]
fn lenient_readings() {
    assert_eq!(i64_flexible(&json_str(" 42 ")), Ok(42));
    assert_eq!(i64_flexible(&Json::Number(s("-7"))), Ok(-7));
    assert!(i64_flexible(&Json::Number(s("1.5"))).is_err());
    assert!(i64_flexible(&Json::Bool(true)).is_err());
    assert_eq!(msg_to_code(&json_str("654321")), "654321");
    assert_eq!(msg_to_code(&json_i64(12)), "12");
    assert_eq!(msg_to_code(&Json::Null), "null");
    assert!(map_members(Json::Array(vec![]), "services").unwrap().is_empty());
    assert_eq!(map_members(Json::Object(vec![(s("a"), json_i64(1))]), "m").unwrap().len(), 1);
    assert_eq!(
        map_members(json_i64(1), "services").unwrap_err(),
        "expected object or array for services, got 1"
    );
    assert!(opt_json_value(Json::Null).is_none());
    assert!(opt_json_value(Json::Array(vec![])).is_some());
    let first: Result<i64, Error> = first_or(vec![1, 2], "none");
    assert_eq!(first.unwrap(), 1);
    match first_or::<i64>(vec![], "empty list") {
        Err(Error::Unexpected(m)) => assert_eq!(m, "empty list"),
        other => panic!("unexpected {other:?}"),
    }
}

#[test]
fn reading_a_read_body_again_gives_it_back() {
    let body = Json::Object(vec![
        (s("tzid"), json_i64(5)),
        (s("response"), json_str("1")),
        (s("number"), json_str("+7900")),
    ]);
    let once = parse_api_value(body).unwrap();
    let text = once.to_text();
    let twice = parse_api_value(once).unwrap();
    assert_eq!(twice.to_text(), text);
    assert_eq!(text, "{\"number\":\"+7900\",\"tzid\":5}");
}
