//! The code-waiting state machines and webhook readings.

use onlinesim_rs_api::error::Error;
use onlinesim_rs_api::json::{json_i64, json_str, Json};
use onlinesim_rs_api::types::numbers::WaitCodeOptions;
use onlinesim_rs_api::types::webhook::{webhook_body, webhook_parse_error, WebhookLogStatus, WebhookType};
use onlinesim_rs_api::wait_code::{
    finish_plan, finish_result, poll_failure, poll_params, Delivery, SingleWait, StateEntry, WaitPoller,
};

fn s(x: &str) -> String {
    x.to_string()
}

fn opts(interval_secs: u64, max_attempts: u32) -> WaitCodeOptions {
    WaitCodeOptions { interval_secs, max_attempts, ..WaitCodeOptions::new_default() }
}

fn row(tzid: i64, msg: Option<&str>) -> StateEntry {
    StateEntry { tzid, msg: msg.map(json_str) }
}

#[test]
fn default_wait_options() {
    let d = WaitCodeOptions::default();
    assert_eq!(d.interval_secs, 3);
    assert_eq!(d.max_attempts, 10);
    assert!(!d.not_end);
    assert!(!d.full_message);
}

#[test]
fn poller_batches_several_operations() {
    let mut p = WaitPoller::new();
    assert_eq!(p.register(10, opts(4, 5)), (0, true));
    let full = WaitCodeOptions { full_message: true, ..opts(2, 5) };
    assert_eq!(p.register(11, full), (1, false));
    assert!(p.running);
    assert_eq!(p.begin_round(), Some((2, 0)));
    assert_eq!(poll_params(&p.waiters), (2, 0));

    let (timeouts, go_on) = p.after_sleep();
    assert!(timeouts.is_empty());
    assert!(go_on);
    assert_eq!(p.waiters[0].attempts, 1);

    let states = vec![row(11, Some("222222")), row(10, None), row(11, Some("333333"))];
    let got = p.on_states(&states);
    assert_eq!(got.len(), 1);
    assert_eq!(got[0].ticket, 1);
    assert_eq!(got[0].tzid, 11);
    assert_eq!(got[0].code, "333333");
    assert_eq!(p.waiters.len(), 1);
    assert_eq!(p.waiters[0].tzid, 10);

    let got = p.on_states(&vec![row(10, Some("111111"))]);
    assert_eq!(got[0].code, "111111");
    assert!(p.waiters.is_empty());
    assert_eq!(p.begin_round(), None);
    assert!(!p.running);
}

#[test]
fn poller_times_out_and_fails_all() {
    let mut p = WaitPoller::new();
    p.register(1, opts(0, 1));
    p.register(2, opts(0, 3));
    assert_eq!(p.after_sleep(), (vec![], true));
    assert_eq!(p.after_sleep(), (vec![0], true));
    assert_eq!(p.waiters.len(), 1);
    assert_eq!(p.fail_all(), vec![1]);
    assert!(p.waiters.is_empty());
    assert!(!p.running);
    assert_eq!(p.register(3, opts(1, 1)), (2, true));

    let e = poll_failure(&Error::Timeout);
    match e {
        Error::Unexpected(m) => assert_eq!(m, "wait_code poll failed: timeout waiting for SMS code"),
        other => panic!("unexpected {other:?}"),
    }
}

#[test]
fn finishing_each_operation_once() {
    let d = |ticket: u64, tzid: i64, code: &str, not_end: bool| Delivery { ticket, tzid, code: s(code), not_end };
    let plan = finish_plan(&vec![d(0, 5, "1", true), d(1, 6, "2", false), d(2, 5, "3", false)]);
    assert_eq!(plan, vec![(5, true), (6, false)]);

    let results = vec![(5, None), (6, Some(s("ERROR_NO_TZID")))];
    let (t, r) = finish_result(d(0, 5, "1", true), &results);
    assert_eq!(t, 0);
    assert_eq!(r.unwrap(), "1");
    let (t, r) = finish_result(d(1, 6, "2", false), &results);
    assert_eq!(t, 1);
    match r {
        Err(Error::Unexpected(m)) => assert_eq!(m, "wait_code finish failed: ERROR_NO_TZID"),
        other => panic!("unexpected {other:?}"),
    }
    let (_, r) = finish_result(d(2, 9, "4", false), &results);
    assert_eq!(r.unwrap(), "4");
}

#[test]
fn single_wait_hands_out_new_codes_only() {
    let mut w = SingleWait::new(opts(0, 2));
    assert_eq!(w.message_to_code(), 1);
    assert!(w.start_attempt());
    assert_eq!(w.on_state(None), None);
    assert!(w.start_attempt());
    assert_eq!(w.on_state(Some(&json_str("654321"))), Some(s("654321")));
    assert_eq!(w.on_state(Some(&json_str("654321"))), None);
    assert_eq!(w.on_state(Some(&json_i64(7))), Some(s("7")));
    assert!(!w.start_attempt());
    let full = SingleWait::new(WaitCodeOptions { full_message: true, ..opts(0, 1) });
    assert_eq!(full.message_to_code(), 0);
}

#[test]
fn webhook_type_names_round_trip() {
    for t in [WebhookType::ReceivingSms, WebhookType::RentSms] {
        assert_eq!(WebhookType::from_wire(t.as_str()), t);
    }
    assert_eq!(WebhookType::ReceivingSms.as_str(), "receiving_sms");
    assert_eq!(WebhookType::from_wire("something_new"), WebhookType::Other);
    assert_eq!(WebhookLogStatus::from_wire("success"), WebhookLogStatus::Success);
    assert_eq!(WebhookLogStatus::from_wire("pending"), WebhookLogStatus::Pending);
    assert_eq!(WebhookLogStatus::from_wire("fail"), WebhookLogStatus::Fail);
    assert_eq!(WebhookLogStatus::from_wire("?"), WebhookLogStatus::Other);
}

#[test]
fn webhook_data_wrapper_is_unwrapped() {
    let inner = Json::Object(vec![(s("user_id"), json_i64(42))]);
    let wrapped = Json::Object(vec![(s("data"), inner)]);
    assert_eq!(webhook_body(wrapped).to_text(), "{\"user_id\":42}");
    let flat = Json::Object(vec![(s("user_id"), json_str("42"))]);
    assert_eq!(webhook_body(flat).to_text(), "{\"user_id\":\"42\"}");
    match webhook_parse_error(Error::Unexpected(s("bad"))) {
        Error::Unexpected(m) => assert!(m.contains("bad")),
        other => panic!("unexpected {other:?}"),
    }
}

#[test]
fn wait_gets_exactly_max_attempts_polls() {
    let mut p = WaitPoller::new();
    p.register(3, opts(0, 2));
    assert_eq!(p.after_sleep(), (vec![], true));
    assert_eq!(p.waiters[0].attempts, 1);
    assert_eq!(p.after_sleep(), (vec![], true));
    assert_eq!(p.waiters[0].attempts, 2);
    assert_eq!(p.after_sleep(), (vec![0], false));
    assert!(p.waiters.is_empty());

    let mut q = WaitPoller::new();
    q.register(4, opts(0, 0));
    assert_eq!(q.after_sleep(), (vec![0], false));
}

#[test]
fn poller_answers_every_waiter_within_the_largest_cap() {
    let mut p = WaitPoller::new();
    p.register(1, opts(0, 1));
    p.register(2, opts(0, 3));
    p.register(3, opts(0, 2));
    let mut answered: Vec<u64> = Vec::new();
    let mut rounds = 0;
    while p.begin_round().is_some() {
        rounds += 1;
        let (timeouts, go_on) = p.after_sleep();
        answered.extend(timeouts);
        if !go_on {
            break;
        }
        let states = if rounds == 1 { vec![row(3, Some("42"))] } else { vec![] };
        for d in p.on_states(&states) {
            answered.push(d.ticket);
        }
    }
    assert!(rounds <= 4);
    answered.sort();
    assert_eq!(answered, vec![0, 1, 2]);
}

#[test]
fn single_wait_finishes_by_next_or_close() {
    let close = SingleWait::new(opts(0, 1)).finish_request(77);
    assert_eq!(close.path, "setOperationOk");
    assert_eq!(close.params.to_text(), "{\"tzid\":77}");
    let next = SingleWait::new(WaitCodeOptions { not_end: true, ..opts(0, 1) }).finish_request(77);
    assert_eq!(next.path, "setOperationRevise");
}
