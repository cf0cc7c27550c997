use openapi_mcp::chars::{
    contains_sub, i64_to_string, join_strs, parse_i64, replace_all, split_str, starts_with,
    str_eq, u32_to_padded4, u64_to_string,
};
use openapi_mcp::json::{json_clone, obj_get, to_text, JsonValue};
use openapi_mcp::truncate_tool_name;

fn s(x: &str) -> String {
    x.to_string()
}

#[test]
fn decimal_formatting_is_exact() {
    assert_eq!(u64_to_string(0), "0");
    assert_eq!(u64_to_string(90210), "90210");
    assert_eq!(u64_to_string(u64::MAX), "18446744073709551615");
    assert_eq!(i64_to_string(-42), "-42");
    assert_eq!(i64_to_string(i64::MIN), "-9223372036854775808");
    assert_eq!(u32_to_padded4(7), "0007");
    assert_eq!(u32_to_padded4(12345), "12345");
}

#[test]
fn integer_parsing_accepts_exactly_the_machine_range() {
    assert_eq!(parse_i64("0"), Some(0));
    assert_eq!(parse_i64("-17"), Some(-17));
    assert_eq!(parse_i64("9223372036854775807"), Some(i64::MAX));
    assert_eq!(parse_i64("-9223372036854775808"), Some(i64::MIN));
    assert_eq!(parse_i64("9223372036854775808"), None);
    assert_eq!(parse_i64("-9223372036854775809"), None);
    assert_eq!(parse_i64(""), None);
    assert_eq!(parse_i64("-"), None);
    assert_eq!(parse_i64("12a"), None);
    assert_eq!(parse_i64("00012"), Some(12));
}

#[test]
fn replacement_walks_left_to_right() {
    assert_eq!(replace_all("aaa", "aa", "b"), "ba");
    assert_eq!(replace_all("/items/{id}/x", "{id}", "7"), "/items/7/x");
    assert_eq!(replace_all("none here", "{id}", "7"), "none here");
}

#[test]
fn splitting_and_joining_are_exact() {
    let parts = split_str("a/b//c", '/');
    assert_eq!(parts, vec![s("a"), s("b"), s(""), s("c")]);
    assert_eq!(split_str("", '/'), vec![s("")]);
    assert_eq!(join_strs(&vec![s("x"), s("y")], "/"), "x/y");
    assert_eq!(join_strs(&vec![], "/"), "");
}

#[test]
fn searching_finds_prefixes_and_substrings() {
    assert!(starts_with("repo://o/r", "repo://"));
    assert!(!starts_with("http://o", "repo://"));
    assert!(contains_sub("application/json; utf-8", "application/json"));
    assert!(!contains_sub("text/plain", "application/json"));
    assert!(str_eq("same", "same"));
    assert!(!str_eq("same", "sane"));
}

#[test]
fn json_text_escapes_exactly_like_the_grammar_asks() {
    assert_eq!(to_text(&JsonValue::Null), "null");
    assert_eq!(to_text(&JsonValue::Bool(true)), "true");
    assert_eq!(to_text(&JsonValue::Int(-5)), "-5");
    assert_eq!(to_text(&JsonValue::NumText(s("1.5"))), "1.5");
    assert_eq!(to_text(&JsonValue::NumText(s("18446744073709551615"))), "18446744073709551615");
    assert_eq!(to_text(&JsonValue::Str(s("a\"b\\c\nd"))), "\"a\\\"b\\\\c\\nd\"");
    assert_eq!(to_text(&JsonValue::Str(s("\u{01}"))), "\"\\u0001\"");
    let nested = JsonValue::Obj(vec![
        (s("xs"), JsonValue::Arr(vec![JsonValue::Int(1), JsonValue::Null])),
        (s("t"), JsonValue::Str(s("ok"))),
    ]);
    assert_eq!(to_text(&nested), "{\"xs\":[1,null],\"t\":\"ok\"}");
}

#[test]
fn object_lookup_takes_the_first_entry() {
    let obj = vec![
        (s("k"), JsonValue::Int(1)),
        (s("k"), JsonValue::Int(2)),
        (s("other"), JsonValue::Int(3)),
    ];
    match obj_get(&obj, "k") {
        Some(JsonValue::Int(v)) => assert_eq!(*v, 1),
        _ => panic!("expected the first entry"),
    }
    assert!(obj_get(&obj, "missing").is_none());
}

#[test]
fn cloning_is_structural() {
    let v = JsonValue::Obj(vec![(s("a"), JsonValue::Arr(vec![JsonValue::Str(s("x"))]))]);
    let c = json_clone(&v);
    assert_eq!(to_text(&c), to_text(&v));
}

#[test]
fn tool_names_are_hard_truncated_at_the_limit() {
    let short = "x".repeat(64);
    assert_eq!(truncate_tool_name(&short), short);
    let long = "y".repeat(70);
    assert_eq!(truncate_tool_name(&long), "y".repeat(64));
}
