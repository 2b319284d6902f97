//! The stand-in's state machine: what each call answers and changes.

use onlinesim_rs_api::json::Json;
use onlinesim_rs_api::mock::{
    method_name, mutates, query_get, query_i64, route_of, MockOnlineSimBuilder, MockRoute, MockState,
    SmsScript,
};
use onlinesim_rs_api::util::parse_api_value;
use onlinesim_rs_api::error::Error;

fn s(x: &str) -> String {
    x.to_string()
}

fn q(v: &[(&str, &str)]) -> Vec<(String, String)> {
    v.iter().map(|(a, b)| (s(a), s(b))).collect()
}

fn call(st: &mut MockState, path: &str, query: &[(&str, &str)]) -> Json {
    let route = route_of(path);
    st.handle(&route, &q(query), None)
}

#[test]
fn routes_from_paths() {
    assert_eq!(method_name("/api/getNum.php"), "getNum");
    assert_eq!(method_name("/api/rent/getRentNum.php"), "rent/getRentNum");
    assert_eq!(method_name("/api/webhook-logs"), "webhook-logs");
    assert!(matches!(route_of("/api/getBalance.php"), MockRoute::Balance));
    assert!(matches!(route_of("/api/getNumRepeat.php"), MockRoute::GetNum));
    assert!(matches!(route_of("/api/rent/closeRentNum.php"), MockRoute::Close));
    match route_of("/api/nothing.php") {
        MockRoute::NotFound(m) => assert_eq!(m, "nothing"),
        other => panic!("unexpected {other:?}"),
    }
    assert!(mutates(&MockRoute::GetState));
    assert!(!mutates(&MockRoute::Balance));
}

#[test]
fn query_lookup_takes_last_value() {
    let query = q(&[("tzid", "5"), ("tzid", "7"), ("x", "a")]);
    assert_eq!(query_get(&query, "tzid"), Some(s("7")));
    assert_eq!(query_i64(&query, "tzid"), Some(7));
    assert_eq!(query_i64(&query, "x"), None);
    assert_eq!(query_get(&query, "y"), None);
}

#[test]
fn state_balance_error_once_then_balance() {
    let mut st = MockState::fresh();
    st.set_balance(Json::Number(s("42.0")), Json::Number(s("1.5")), Json::Number(s("9.0")));
    let b = call(&mut st, "/api/getBalance.php", &[]);
    assert_eq!(
        b.to_text(),
        "{\"balance\":42.0,\"income\":9.0,\"income_usd\":9.0,\"response\":\"1\",\"zbalance\":1.5}"
    );
    st.fail_balance("ERROR_WRONG_KEY");
    let e = call(&mut st, "/api/getBalance.php", &[]);
    match parse_api_value(e) {
        Err(Error::Request { code, message }) => {
            assert_eq!(code, "ERROR_WRONG_KEY");
            assert_eq!(message, "wrong apikey");
        }
        other => panic!("unexpected {other:?}"),
    }
    let again = call(&mut st, "/api/getBalance.php", &[]);
    assert!(parse_api_value(again).is_ok());

    let p = call(&mut st, "/api/getProfile.php", &[]);
    let profile = p.get("profile").unwrap();
    assert_eq!(profile.get("id").unwrap().to_text(), "1");
    assert_eq!(profile.get("username").unwrap().to_text(), "\"mock\"");
}

#[test]
fn state_sms_flow_delivers_after_held_polls() {
    let mut st = MockState::fresh();
    st.script_sms(SmsScript {
        service: s("telegram"),
        number: s("+79001234567"),
        country: 7,
        code: s("654321"),
        polls_before_code: 1,
        price: s("12"),
    });
    let price = call(&mut st, "/api/getPrice.php", &[("service", "telegram")]);
    assert_eq!(price.get("price").unwrap().to_text(), "\"12\"");

    let order = call(&mut st, "/api/getNum.php", &[("service", "telegram"), ("number", "true")]);
    assert_eq!(order.get("tzid").unwrap().to_text(), "1000");
    assert_eq!(order.get("number").unwrap().to_text(), "\"+79001234567\"");
    assert_eq!(st.next_tzid, 1001);
    assert!(st.scripts.is_empty());

    let first = call(&mut st, "/api/getState.php", &[("tzid", "1000")]);
    match &first {
        Json::Array(rows) => {
            assert_eq!(rows.len(), 1);
            assert_eq!(rows[0].get("response").unwrap().to_text(), "\"TZ_NUM_WAIT\"");
            assert!(rows[0].get("msg").is_none());
        }
        other => panic!("unexpected {other:?}"),
    }
    let second = call(&mut st, "/api/getState.php", &[("tzid", "1000")]);
    match &second {
        Json::Array(rows) => {
            assert_eq!(rows[0].get("response").unwrap().to_text(), "\"TZ_NUM_ANSWER\"");
            assert_eq!(rows[0].get("msg").unwrap().to_text(), "\"654321\"");
        }
        other => panic!("unexpected {other:?}"),
    }

    let closed = call(&mut st, "/api/setOperationOk.php", &[("tzid", "1000")]);
    assert_eq!(closed.to_text(), "{\"response\":1,\"tzid\":1000}");
    let after = call(&mut st, "/api/getState.php", &[("tzid", "1000")]);
    assert_eq!(after.to_text(), "{\"response\":\"ERROR_NO_OPERATIONS\"}");
    let unknown = call(&mut st, "/api/setOperationOk.php", &[("tzid", "5")]);
    assert_eq!(unknown.to_text(), "{\"response\":\"ERROR_NO_TZID\"}");
}

#[test]
fn state_default_script_and_no_number() {
    let mut st = MockState::fresh();
    st.fail_no_number("whatsapp");
    let e = call(&mut st, "/api/getNum.php", &[("service", "whatsapp")]);
    assert!(matches!(parse_api_value(e), Err(Error::NoNumber { .. })));
    assert_eq!(st.next_tzid, 1000);

    let order = call(&mut st, "/api/getNum.php", &[("service", "vk")]);
    assert_eq!(order.to_text(), "{\"response\":1,\"tzid\":1000}");
    let rows = call(&mut st, "/api/getState.php", &[]);
    match &rows {
        Json::Array(r) => {
            assert_eq!(r[0].get("service").unwrap().to_text(), "\"vk\"");
            assert_eq!(r[0].get("msg").unwrap().to_text(), "\"123456\"");
        }
        other => panic!("unexpected {other:?}"),
    }
}

#[test]
fn state_rent_flow_and_free_lists() {
    let mut st = MockState::fresh();
    let rent = call(&mut st, "/api/rent/getRentNum.php", &[("country", "7")]);
    let item = rent.get("item").unwrap();
    assert_eq!(item.get("tzid").unwrap().to_text(), "1000");
    assert_eq!(item.get("number").unwrap().to_text(), "\"+79000000000\"");

    let list = call(&mut st, "/api/rent/getRentState.php", &[]);
    match list.get("list").unwrap() {
        Json::Array(rows) => assert_eq!(rows.len(), 1),
        other => panic!("unexpected {other:?}"),
    }

    let ext = call(&mut st, "/api/rent/extendRentState.php", &[("tzid", "1000"), ("days", "2")]);
    let ext_item = ext.get("item").unwrap();
    assert_eq!(ext_item.get("hours").unwrap().to_text(), "48");
    assert_eq!(ext_item.get("time").unwrap().to_text(), "172800");

    let states = call(&mut st, "/api/getState.php", &[]);
    assert_eq!(states.to_text(), "{\"response\":\"ERROR_NO_OPERATIONS\"}");

    let closed = call(&mut st, "/api/rent/closeRentNum.php", &[("tzid", "1000")]);
    assert!(parse_api_value(closed).is_ok());
    let ext = call(&mut st, "/api/rent/extendRentState.php", &[("tzid", "1000")]);
    assert_eq!(ext.to_text(), "{\"response\":\"ERROR_NO_TZID\"}");

    let msgs = call(&mut st, "/api/getFreeMessageList.php", &[("phone", "9001234567")]);
    assert!(msgs.to_text().contains("111222"));
    let countries = call(&mut st, "/api/getFreeCountryList.php", &[]);
    assert!(parse_api_value(countries).is_ok());
    let all = call(&mut st, "/api/getNumbersStats.php", &[("country", "all")]);
    assert_eq!(all.get("7").unwrap().get("code").unwrap().to_text(), "7");
    let dflt = call(&mut st, "/api/getNumbersStats.php", &[]);
    assert_eq!(dflt.get("code").unwrap().to_text(), "7");
    let one = call(&mut st, "/api/getNumbersStats.php", &[("country", "7")]);
    assert_eq!(one.get("code").unwrap().to_text(), "7");
    assert_eq!(one.get("response").unwrap().to_text(), "\"1\"");
}

#[test]
fn state_webhook_saved_and_cleared() {
    let mut st = MockState::fresh();
    let body = Json::Object(vec![(
        s("profile"),
        Json::Object(vec![(s("webhook_url"), Json::String(s("https://example.test/hook")))]),
    )]);
    let r = st.handle(&MockRoute::ProfileSave, &Vec::new(), Some(body));
    assert_eq!(r.to_text(), "{\"response\":\"1\"}");
    assert_eq!(st.webhook_url.as_deref(), Some("https://example.test/hook"));
    let p = call(&mut st, "/api/getProfile.php", &[]);
    assert_eq!(
        p.get("profile").unwrap().get("webhook_url").unwrap().to_text(),
        "\"https://example.test/hook\""
    );
    let clear = Json::Object(vec![(s("profile"), Json::Object(vec![(s("webhook_url"), Json::Null)]))]);
    st.handle(&MockRoute::ProfileSave, &Vec::new(), Some(clear));
    assert!(st.webhook_url.is_none());
    let logs = call(&mut st, "/api/webhook-logs", &[]);
    assert!(logs.to_text().contains("success"));
}

#[test]
fn snapshot_restore_keeps_operations() {
    let mut st = MockState::fresh();
    call(&mut st, "/api/getNum.php", &[("service", "telegram")]);
    call(&mut st, "/api/getState.php", &[]);
    let saved = st.snapshot();
    assert_eq!(saved.next_tzid, 1001);
    assert_eq!(saved.ops.len(), 1);
    assert_eq!(saved.ops[0].0, "1000");

    let mut other = MockState::fresh();
    other.restore(saved);
    assert_eq!(other.next_tzid, 1001);
    assert_eq!(other.ops.len(), 1);
    assert_eq!(other.ops[0].0, 1000);
    assert_eq!(other.ops[0].1.polls, 1);
    let _ = MockOnlineSimBuilder::new().state_path(std::path::PathBuf::from("/tmp/mock-state.json"));
}
