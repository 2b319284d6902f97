//! Text helpers and the JSON value model.

use onlinesim_rs_api::json::{clone_json, find_key, insert_member, json_i64, json_str, remove_member, Json};
use onlinesim_rs_api::text::{
    cat, cat3, format_i64, format_u64, parse_i64, str_eq, strip_prefix, trim, trim_end_char,
    trim_end_pat, trim_start_char,
};

fn s(x: &str) -> String {
    x.to_string()
}

#[test]
fn format_and_parse_integers() {
    assert_eq!(format_i64(0), "0");
    assert_eq!(format_i64(-42), "-42");
    assert_eq!(format_i64(i64::MIN), "-9223372036854775808");
    assert_eq!(format_i64(i64::MAX), "9223372036854775807");
    assert_eq!(format_u64(u64::MAX), "18446744073709551615");

    assert_eq!(parse_i64("123"), Some(123));
    assert_eq!(parse_i64("+7"), Some(7));
    assert_eq!(parse_i64("-0"), Some(0));
    assert_eq!(parse_i64("-9223372036854775808"), Some(i64::MIN));
    assert_eq!(parse_i64("9223372036854775808"), None);
    assert_eq!(parse_i64(""), None);
    assert_eq!(parse_i64("-"), None);
    assert_eq!(parse_i64(" 1"), None);
    assert_eq!(parse_i64("1.5"), None);
}

#[test]
fn parse_of_format_gives_the_number_back() {
    for n in [0i64, 1, -1, 99, -1000, 1674, i64::MIN, i64::MAX] {
        assert_eq!(parse_i64(&format_i64(n)), Some(n));
        assert_eq!(format_i64(n), n.to_string());
    }
}

#[test]
fn trimming_and_affixes() {
    assert_eq!(trim("  a b \n"), "a b");
    assert_eq!(trim("\u{3000}x\u{A0}"), "x");
    assert_eq!(trim("   "), "");
    assert_eq!(trim_end_char("http://h///", '/'), "http://h");
    assert_eq!(trim_start_char("//getNum", '/'), "getNum");
    assert_eq!(trim_end_pat("getNum.php.php", ".php"), "getNum");
    assert_eq!(trim_end_pat("getNum", ".php"), "getNum");
    assert_eq!(strip_prefix("/api/getNum", "/api/"), Some(s("getNum")));
    assert_eq!(strip_prefix("getNum", "/"), None);
    assert_eq!(cat("ab", "cd"), "abcd");
    assert_eq!(cat3("a", "/", "b"), "a/b");
    assert!(str_eq("same", "same"));
    assert!(!str_eq("same", "sane"));
}

#[test]
fn json_text_is_compact_and_escaped() {
    let v = Json::Object(vec![
        (s("a"), json_i64(1)),
        (s("b"), Json::Array(vec![Json::Bool(true), Json::Null])),
        (s("c"), json_str("q\"\\\n\u{1}")),
    ]);
    assert_eq!(v.to_text(), "{\"a\":1,\"b\":[true,null],\"c\":\"q\\\"\\\\\\n\\u0001\"}");
    let parsed: serde_json::Value = serde_json::from_str(&v.to_text()).unwrap();
    assert_eq!(parsed["c"], serde_json::Value::String(s("q\"\\\n\u{1}")));
    assert_eq!(Json::Array(vec![]).to_text(), "[]");
    assert_eq!(Json::Object(vec![]).to_text(), "{}");
}

#[test]
fn object_members_insert_replace_remove() {
    let mut e: Vec<(String, Json)> = vec![(s("x"), json_i64(1)), (s("y"), json_i64(2))];
    insert_member(&mut e, s("x"), json_str("one"));
    assert_eq!(e.len(), 2);
    assert_eq!(find_key(&e, "x"), Some(0));
    assert_eq!(e[0].1.to_text(), "\"one\"");
    insert_member(&mut e, s("z"), Json::Null);
    assert_eq!(find_key(&e, "z"), Some(2));
    remove_member(&mut e, "y");
    assert_eq!(find_key(&e, "y"), None);
    assert_eq!(e.len(), 2);

    let obj = Json::Object(e);
    assert!(obj.is_object());
    assert!(obj.get("z").unwrap().is_null());
    assert!(obj.get("missing").is_none());
    assert_eq!(clone_json(&obj).to_text(), obj.to_text());
}
